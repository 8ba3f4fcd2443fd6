//! Finding a table among those that the root system description table
//! lists.

use crate::error::{failed, Error, ErrorCode};
use crate::scan::{first_from, lemma_first_from_is, lemma_first_from_none};
use vstd::prelude::*;
use vstd::string::StringSliceAdditionalSpecFns;

verus! {

/// The size of the header of a system description table, in bytes.
pub const SDT_HEADER_SIZE: u32 = 36;

/// The size of one entry of the root system description table, in bytes.
pub const RSDT_ENTRY_SIZE: u32 = 4;

/// What is read of one table that the root table lists.
#[derive(Clone, Copy, Debug, PartialEq, Eq)]
pub struct AcpiTableEntry {
    /// The four bytes of the signature of the table.
    pub signature: [u8; 4],
    /// The header of the table passed its validation.
    pub valid: bool,
}

/// The number of tables that a root table of the given length lists: what is
/// left of it after its header holds one entry for each.
pub open spec fn spec_entry_count(length: u32) -> int {
    (length - SDT_HEADER_SIZE) / (RSDT_ENTRY_SIZE as int)
}

/// Returns the number of tables that a root table of the given length lists.
/// A length that does not even hold the header is an invalid argument.
pub fn entry_count(length: u32) -> (count: Result<u32, Error>)
    ensures
        length >= SDT_HEADER_SIZE ==> count == Ok::<u32, Error>(spec_entry_count(length) as u32),
        length < SDT_HEADER_SIZE ==> failed(count, ErrorCode::InvalidArgument),
{
    if length < SDT_HEADER_SIZE {
        Err(Error::new(ErrorCode::InvalidArgument, "root table is shorter than its header"))
    } else {
        Ok((length - SDT_HEADER_SIZE) / RSDT_ENTRY_SIZE)
    }
}

/// The signature reads as the wanted text. A signature is read up to its
/// first zero byte, or to its end where it has none; so the wanted text
/// holds no zero byte, starts the signature, and is followed by a zero byte
/// unless it fills the signature.
pub open spec fn signature_is(signature: Seq<u8>, wanted: Seq<u8>) -> bool {
    &&& wanted.len() <= signature.len()
    &&& forall|at: int| 0 <= at < wanted.len() ==> wanted[at] != 0 && signature[at] == wanted[at]
    &&& wanted.len() < signature.len() ==> signature[wanted.len() as int] == 0
}

/// Says whether a signature reads as the wanted text.
pub fn signature_matches(signature: &[u8; 4], wanted: &[u8]) -> (same: bool)
    ensures
        same == signature_is(signature@, wanted@),
{
    if wanted.len() > 4 {
        return false;
    }
    let mut at: usize = 0;
    while at < wanted.len()
        invariant
            at <= wanted.len() <= 4,
            forall|before: int|
                0 <= before < at ==> wanted[before] != 0 && signature[before] == wanted[before],
        decreases wanted.len() - at,
    {
        if wanted[at] == 0 || signature[at] != wanted[at] {
            return false;
        }
        at = at + 1;
    }
    wanted.len() == 4 || signature[wanted.len()] == 0
}

/// The table is the one that is looked for: its signature reads as the
/// wanted text and its header is valid.
pub open spec fn is_wanted(tables: Seq<AcpiTableEntry>, wanted: Seq<u8>) -> spec_fn(int) -> bool {
    |at: int| signature_is(tables[at].signature@, wanted) && tables[at].valid
}

/// The place of the first table with the wanted signature and a valid
/// header.
pub open spec fn spec_find_table_by_sig(tables: Seq<AcpiTableEntry>, wanted: Seq<u8>) -> Option<
    int,
> {
    first_from(is_wanted(tables, wanted), 0, tables.len() as int)
}

/// Finds a table by its signature among the tables that the root table
/// lists, in their order, passing over tables whose header is not valid.
/// Where there is none, there is no such entry.
pub fn find_table_by_sig(tables: &[AcpiTableEntry], sig: &str) -> (found: Result<usize, Error>)
    ensures
        match spec_find_table_by_sig(tables@, sig.spec_bytes()) {
            Some(at) => found == Ok::<usize, Error>(at as usize),
            None => failed(found, ErrorCode::NoSuchEntry),
        },
{
    let wanted = sig.as_bytes();
    let ghost looked_for = is_wanted(tables@, wanted@);
    let mut at: usize = 0;
    while at < tables.len()
        invariant
            at <= tables.len(),
            wanted@ == sig.spec_bytes(),
            looked_for == is_wanted(tables@, wanted@),
            forall|before: int| 0 <= before < at ==> !#[trigger] looked_for(before),
        decreases tables.len() - at,
    {
        if signature_matches(&tables[at].signature, wanted) && tables[at].valid {
            proof {
                lemma_first_from_is(looked_for, 0, tables.len() as int, at as int);
            }
            return Ok(at);
        }
        at = at + 1;
    }
    proof {
        lemma_first_from_none(looked_for, 0, tables.len() as int);
    }
    Err(Error::new(ErrorCode::NoSuchEntry, "table not found"))
}

} // verus!
