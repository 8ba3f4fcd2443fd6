//! Loading 32-bit ELF images: reading the headers of an image, and working
//! out which pages a process needs and where their contents come from.

use crate::endian::{le_value, lemma_pow256_values, read_le};
use crate::error::{failed, Error, ErrorCode};
use crate::sys::config::{PAGE_SIZE, USER_BASE};
use vstd::arithmetic::div_mod::lemma_mod_decreases;
use vstd::prelude::*;

verus! {

/// The number of bytes that identify an ELF image.
pub const EI_NIDENT: usize = 16;

/// The size of the file header of a 32-bit ELF image, in bytes.
pub const ELF32_FHDR_SIZE: usize = 52;

/// The size of a program header of a 32-bit ELF image, in bytes.
pub const ELF32_PHDR_SIZE: usize = 32;

/// The first magic byte.
pub const ELFMAG0: u8 = 0x7f;

/// The second magic byte, the letter E.
pub const ELFMAG1: u8 = 0x45;

/// The third magic byte, the letter L.
pub const ELFMAG2: u8 = 0x4c;

/// The fourth magic byte, the letter F.
pub const ELFMAG3: u8 = 0x46;

/// The type of a segment that is loaded.
pub const PT_LOAD: u32 = 1;

/// The flag of a segment that is executable.
pub const PF_X: u32 = 1;

/// The flag of a segment that is writable.
pub const PF_W: u32 = 2;

/// The flag of a segment that is readable.
pub const PF_R: u32 = 4;

/// The file header of a 32-bit ELF image.
#[derive(Clone, Copy, Debug, PartialEq, Eq)]
pub struct Elf32Fhdr {
    /// Magic numbers and other information.
    pub e_ident: [u8; 16],
    /// Type of the object file.
    pub e_type: u16,
    /// Required machine architecture.
    pub e_machine: u16,
    /// Version of the object file.
    pub e_version: u32,
    /// Virtual address of the entry point.
    pub e_entry: u32,
    /// Offset of the program header table in the file.
    pub e_phoff: u32,
    /// Offset of the section header table in the file.
    pub e_shoff: u32,
    /// Processor-specific flags.
    pub e_flags: u32,
    /// Size of this header, in bytes.
    pub e_ehsize: u16,
    /// Size of an entry of the program header table.
    pub e_phentsize: u16,
    /// Number of entries of the program header table.
    pub e_phnum: u16,
    /// Size of an entry of the section header table.
    pub e_shentsize: u16,
    /// Number of entries of the section header table.
    pub e_shnum: u16,
    /// Index of the section name string table.
    pub e_shstrndx: u16,
}

/// A program header of a 32-bit ELF image.
#[derive(Clone, Copy, Debug, PartialEq, Eq, Structural)]
pub struct Elf32Phdr {
    /// Type of the segment.
    pub p_type: u32,
    /// Offset of the first byte of the segment in the file.
    pub p_offset: u32,
    /// Virtual address of the first byte of the segment.
    pub p_vaddr: u32,
    /// Physical address of the first byte of the segment.
    pub p_paddr: u32,
    /// Bytes of the segment in the file.
    pub p_filesz: u32,
    /// Bytes of the segment in memory.
    pub p_memsz: u32,
    /// Flags of the segment.
    pub p_flags: u32,
    /// Alignment of the segment.
    pub p_align: u32,
}

/// How the pages of a segment may be accessed.
#[derive(Clone, Copy, Debug, PartialEq, Eq, Structural)]
pub enum AccessPermission {
    /// Read only.
    ReadOnly,
    /// Read and write.
    ReadWrite,
    /// Read and execute.
    Exec,
}

/// One step of the loading of an image.
#[derive(Clone, Copy, Debug, PartialEq, Eq, Structural)]
pub enum LoadStep {
    /// Allocate a user page at the virtual address, with the access.
    Alloc {
        /// The virtual address of the page.
        vaddr: u32,
        /// How the page may be accessed.
        access: AccessPermission,
    },
    /// Copy the page at the physical address to the page at the virtual
    /// address.
    Copy {
        /// The virtual address of the page that is written.
        vaddr: u32,
        /// The physical address of the page that is read.
        paddr: u32,
    },
}

/// What loading an image comes to: where the program starts, and the steps
/// that bring it into memory, in their order.
#[derive(Debug, PartialEq, Eq)]
pub struct LoadPlan {
    /// The entry point of the program. Zero where the image is not loaded.
    pub entry: u32,
    /// The steps.
    pub steps: Vec<LoadStep>,
}

/// The image starts with the four magic bytes.
pub open spec fn has_magic(ident: Seq<u8>) -> bool {
    &&& ident.len() >= 4
    &&& ident[0] == ELFMAG0
    &&& ident[1] == ELFMAG1
    &&& ident[2] == ELFMAG2
    &&& ident[3] == ELFMAG3
}

/// The entry point that the file header of an image names.
pub open spec fn entry_of(image: Seq<u8>) -> u32 {
    le_value(image, 24, 4) as u32
}

/// The offset of the program header table that the file header names.
pub open spec fn phoff_of(image: Seq<u8>) -> u32 {
    le_value(image, 28, 4) as u32
}

/// The number of program headers that the file header names.
pub open spec fn phnum_of(image: Seq<u8>) -> u16 {
    le_value(image, 44, 2) as u16
}

/// The program header that stands at the given offset of an image.
pub open spec fn phdr_at(image: Seq<u8>, offset: int) -> Elf32Phdr {
    Elf32Phdr {
        p_type: le_value(image, offset, 4) as u32,
        p_offset: le_value(image, offset + 4, 4) as u32,
        p_vaddr: le_value(image, offset + 8, 4) as u32,
        p_paddr: le_value(image, offset + 12, 4) as u32,
        p_filesz: le_value(image, offset + 16, 4) as u32,
        p_memsz: le_value(image, offset + 20, 4) as u32,
        p_flags: le_value(image, offset + 24, 4) as u32,
        p_align: le_value(image, offset + 28, 4) as u32,
    }
}

impl Elf32Fhdr {
    /// The header is the one that the image starts with.
    pub open spec fn is_header_of(self, image: Seq<u8>) -> bool {
        &&& self.e_ident@ == image.subrange(0, 16)
        &&& self.e_type == le_value(image, 16, 2) as u16
        &&& self.e_machine == le_value(image, 18, 2) as u16
        &&& self.e_version == le_value(image, 20, 4) as u32
        &&& self.e_entry == entry_of(image)
        &&& self.e_phoff == phoff_of(image)
        &&& self.e_shoff == le_value(image, 32, 4) as u32
        &&& self.e_flags == le_value(image, 36, 4) as u32
        &&& self.e_ehsize == le_value(image, 40, 2) as u16
        &&& self.e_phentsize == le_value(image, 42, 2) as u16
        &&& self.e_phnum == phnum_of(image)
        &&& self.e_shentsize == le_value(image, 46, 2) as u16
        &&& self.e_shnum == le_value(image, 48, 2) as u16
        &&& self.e_shstrndx == le_value(image, 50, 2) as u16
    }

    /// Reads the file header that an image starts with. An image that is
    /// shorter than a file header has none.
    pub fn from_bytes(image: &[u8]) -> (header: Option<Elf32Fhdr>)
        ensures
            image@.len() < ELF32_FHDR_SIZE ==> header is None,
            image@.len() >= ELF32_FHDR_SIZE ==> (header matches Some(read) && read.is_header_of(
                image@,
            )),
    {
        if image.len() < ELF32_FHDR_SIZE {
            return None;
        }
        proof {
            lemma_pow256_values();
        }
        let mut e_ident = [0u8; 16];
        let mut index: usize = 0;
        while index < 16
            invariant
                index <= 16,
                image@.len() >= ELF32_FHDR_SIZE,
                forall|at: int| 0 <= at < index ==> e_ident[at] == image[at],
            decreases 16 - index,
        {
            e_ident[index] = image[index];
            index = index + 1;
        }
        assert(e_ident@ =~= image@.subrange(0, 16));
        Some(
            Elf32Fhdr {
                e_ident,
                e_type: read_le(image, 16, 2) as u16,
                e_machine: read_le(image, 18, 2) as u16,
                e_version: read_le(image, 20, 4) as u32,
                e_entry: read_le(image, 24, 4) as u32,
                e_phoff: read_le(image, 28, 4) as u32,
                e_shoff: read_le(image, 32, 4) as u32,
                e_flags: read_le(image, 36, 4) as u32,
                e_ehsize: read_le(image, 40, 2) as u16,
                e_phentsize: read_le(image, 42, 2) as u16,
                e_phnum: read_le(image, 44, 2) as u16,
                e_shentsize: read_le(image, 46, 2) as u16,
                e_shnum: read_le(image, 48, 2) as u16,
                e_shstrndx: read_le(image, 50, 2) as u16,
            },
        )
    }

    /// Says whether the header starts with the four magic bytes.
    pub fn is_valid(&self) -> (valid: bool)
        ensures
            valid == has_magic(self.e_ident@),
    {
        self.e_ident[0] == ELFMAG0 && self.e_ident[1] == ELFMAG1 && self.e_ident[2] == ELFMAG2
            && self.e_ident[3] == ELFMAG3
    }
}

impl Elf32Phdr {
    /// Reads the program header that stands at the given offset of an image.
    pub fn from_bytes(image: &[u8], offset: usize) -> (header: Elf32Phdr)
        requires
            offset + ELF32_PHDR_SIZE <= image@.len(),
        ensures
            header == phdr_at(image@, offset as int),
    {
        proof {
            lemma_pow256_values();
        }
        let length = image.len();
        assert(offset + ELF32_PHDR_SIZE <= length);
        Elf32Phdr {
            p_type: read_le(image, offset, 4) as u32,
            p_offset: read_le(image, offset + 4, 4) as u32,
            p_vaddr: read_le(image, offset + 8, 4) as u32,
            p_paddr: read_le(image, offset + 12, 4) as u32,
            p_filesz: read_le(image, offset + 16, 4) as u32,
            p_memsz: read_le(image, offset + 20, 4) as u32,
            p_flags: read_le(image, offset + 24, 4) as u32,
            p_align: read_le(image, offset + 28, 4) as u32,
        }
    }
}

/// The number is a power of two.
pub open spec fn is_power_of_two(number: u32) -> bool {
    number != 0 && number & ((number - 1) as u32) == 0
}

/// The largest multiple of the alignment that does not exceed the value.
pub open spec fn align_down(value: int, align: int) -> int {
    value - value % align
}

/// How the pages of a segment with the given flags may be accessed: a
/// segment that is readable and executable and nothing else is executed, any
/// other segment that is writable is written, and the rest is only read.
pub open spec fn access_of(flags: u32) -> AccessPermission {
    if flags == 5 {
        AccessPermission::Exec
    } else if flags & PF_W != 0 {
        AccessPermission::ReadWrite
    } else {
        AccessPermission::ReadOnly
    }
}

/// The number of pages that are walked from `start` up to the page that
/// holds the byte at `start + size`: one for each step of a page from
/// `start` that does not pass the start of that page.
pub open spec fn page_count(start: int, size: int) -> int {
    let last = align_down(start + size, PAGE_SIZE as int);
    if last < start {
        0
    } else {
        (last - start) / (PAGE_SIZE as int) + 1
    }
}

/// The steps that load one segment, or the reason why the image is refused.
///
/// A segment of another type than the loaded one takes no step. A segment
/// with more bytes in the file than in memory, or with an alignment that is
/// no power of two, is a bad file. The segment starts at its virtual
/// address, brought down to its alignment. A page is allocated for each page
/// walked over the size of the segment in memory, and a page is copied for
/// each page walked over its size in the file, from where the segment stands
/// in the image. Pages below user space or beyond the address space are a
/// bad file; pages that do not start on a page boundary are an invalid
/// argument.
pub open spec fn spec_segment(phdr: Elf32Phdr, base: u32) -> Result<Seq<LoadStep>, ErrorCode> {
    if phdr.p_type != PT_LOAD {
        Ok(Seq::empty())
    } else if phdr.p_filesz > phdr.p_memsz {
        Err(ErrorCode::BadFile)
    } else if !is_power_of_two(phdr.p_align) {
        Err(ErrorCode::BadFile)
    } else {
        let start = align_down(phdr.p_vaddr as int, phdr.p_align as int);
        let source = base + phdr.p_offset;
        let pages = page_count(start, phdr.p_memsz as int);
        let copies = page_count(source, phdr.p_filesz as int);
        let page = PAGE_SIZE as int;
        if (pages > 0 || copies > 0) && start < USER_BASE {
            Err(ErrorCode::BadFile)
        } else if pages > 0 && start % page != 0 {
            Err(ErrorCode::InvalidArgument)
        } else if pages > 0 && start + (pages - 1) * page > u32::MAX {
            Err(ErrorCode::BadFile)
        } else if copies > 0 && (source % page != 0 || start % page != 0) {
            Err(ErrorCode::InvalidArgument)
        } else if copies > 0 && (start + (copies - 1) * page > u32::MAX || source + (copies - 1)
            * page > u32::MAX) {
            Err(ErrorCode::BadFile)
        } else {
            Ok(
                Seq::new(
                    pages as nat,
                    |index: int|
                        LoadStep::Alloc {
                            vaddr: (start + index * page) as u32,
                            access: access_of(phdr.p_flags),
                        },
                ) + Seq::new(
                    copies as nat,
                    |index: int|
                        LoadStep::Copy {
                            vaddr: (start + index * page) as u32,
                            paddr: (source + index * page) as u32,
                        },
                ),
            )
        }
    }
}

/// The steps that load the segments of an image from the given program
/// header on, in the order of the program header table, or the reason why
/// the image is refused. A program header that does not lie within the image
/// is a bad file.
pub open spec fn spec_segments(image: Seq<u8>, base: u32, index: int) -> Result<
    Seq<LoadStep>,
    ErrorCode,
>
    decreases phnum_of(image) - index,
{
    if index >= phnum_of(image) {
        Ok(Seq::empty())
    } else {
        let offset = phoff_of(image) + index * ELF32_PHDR_SIZE;
        if offset + ELF32_PHDR_SIZE > image.len() {
            Err(ErrorCode::BadFile)
        } else {
            match spec_segment(phdr_at(image, offset), base) {
                Err(code) => Err(code),
                Ok(steps) => match spec_segments(image, base, index + 1) {
                    Err(code) => Err(code),
                    Ok(rest) => Ok(steps + rest),
                },
            }
        }
    }
}

/// What loading an image that lies at the physical address `base` comes to,
/// or the reason why the image is refused: an image without a whole file
/// header, without the magic bytes, or with an entry point that is not the
/// start of user space, is a bad file.
pub open spec fn spec_do_elf32_load(image: Seq<u8>, base: u32) -> Result<
    (u32, Seq<LoadStep>),
    ErrorCode,
> {
    if image.len() < ELF32_FHDR_SIZE {
        Err(ErrorCode::BadFile)
    } else if !has_magic(image.subrange(0, 16)) {
        Err(ErrorCode::BadFile)
    } else if entry_of(image) != USER_BASE {
        Err(ErrorCode::BadFile)
    } else {
        match spec_segments(image, base, 0) {
            Err(code) => Err(code),
            Ok(steps) => Ok((entry_of(image), steps)),
        }
    }
}

/// What loading an image comes to: the plan of the image, or an entry point
/// of zero and no step where the image is refused.
pub open spec fn spec_elf32_load(image: Seq<u8>, base: u32) -> (u32, Seq<LoadStep>) {
    match spec_do_elf32_load(image, base) {
        Ok(plan) => plan,
        Err(_) => (0u32, Seq::empty()),
    }
}

/// Says whether a number is a power of two.
pub fn power_of_two(number: u32) -> (power: bool)
    ensures
        power == is_power_of_two(number),
{
    number != 0 && (number & (number - 1)) == 0
}

/// Returns how the pages of a segment with the given flags may be accessed.
pub fn access(flags: u32) -> (access: AccessPermission)
    ensures
        access == access_of(flags),
{
    if flags == 5 {
        AccessPermission::Exec
    } else if (flags & PF_W) != 0 {
        AccessPermission::ReadWrite
    } else {
        AccessPermission::ReadOnly
    }
}

/// Returns the number of pages that are walked from `start` over `size`
/// bytes.
pub fn pages(start: u64, size: u32) -> (count: u64)
    requires
        start <= 2 * u32::MAX,
    ensures
        count == page_count(start as int, size as int),
        count <= 0x10_0001,
{
    let reach = start + size as u64;
    let last = reach - reach % (PAGE_SIZE as u64);
    if last < start {
        0
    } else {
        (last - start) / (PAGE_SIZE as u64) + 1
    }
}

/// Works out the steps that load one segment.
pub fn plan_segment(phdr: &Elf32Phdr, base: u32) -> (steps: Result<Vec<LoadStep>, Error>)
    ensures
        match spec_segment(*phdr, base) {
            Ok(planned) => steps matches Ok(made) && made@ == planned,
            Err(code) => failed(steps, code),
        },
{
    let mut steps: Vec<LoadStep> = Vec::new();
    if phdr.p_type != PT_LOAD {
        return Ok(steps);
    }
    if phdr.p_filesz > phdr.p_memsz {
        return Err(Error::new(ErrorCode::BadFile, "corrupted elf file"));
    }
    if !power_of_two(phdr.p_align) {
        return Err(Error::new(ErrorCode::BadFile, "invalid alignment value in elf file"));
    }
    let page = PAGE_SIZE as u64;
    assert(phdr.p_vaddr % phdr.p_align <= phdr.p_vaddr) by {
        lemma_mod_decreases(phdr.p_vaddr as nat, phdr.p_align as nat);
    }
    let start: u64 = (phdr.p_vaddr - phdr.p_vaddr % phdr.p_align) as u64;
    let source: u64 = base as u64 + phdr.p_offset as u64;
    let allocated = pages(start, phdr.p_memsz);
    let copied = pages(source, phdr.p_filesz);
    if (allocated > 0 || copied > 0) && start < USER_BASE as u64 {
        return Err(Error::new(ErrorCode::BadFile, "invalid load address"));
    }
    if allocated > 0 && start % page != 0 {
        return Err(Error::new(ErrorCode::InvalidArgument, "unaligned load address"));
    }
    if allocated > 0 && start + (allocated - 1) * page > u32::MAX as u64 {
        return Err(Error::new(ErrorCode::BadFile, "invalid load address"));
    }
    if copied > 0 && (source % page != 0 || start % page != 0) {
        return Err(Error::new(ErrorCode::InvalidArgument, "unaligned load address"));
    }
    if copied > 0 && (start + (copied - 1) * page > u32::MAX as u64 || source + (copied - 1) * page
        > u32::MAX as u64) {
        return Err(Error::new(ErrorCode::BadFile, "invalid load address"));
    }
    let rights = access(phdr.p_flags);
    let ghost allocations = Seq::new(
        allocated as nat,
        |index: int|
            LoadStep::Alloc { vaddr: (start + index * page) as u32, access: access_of(phdr.p_flags) },
    );
    let ghost copies = Seq::new(
        copied as nat,
        |index: int|
            LoadStep::Copy {
                vaddr: (start + index * page) as u32,
                paddr: (source + index * page) as u32,
            },
    );
    let mut index: u64 = 0;
    while index < allocated
        invariant
            index <= allocated <= 0x10_0001,
            page == PAGE_SIZE,
            rights == access_of(phdr.p_flags),
            allocated > 0 ==> start + (allocated - 1) * page <= u32::MAX,
            steps@ == allocations.take(index as int),
            allocations == Seq::new(
                allocated as nat,
                |index: int|
                    LoadStep::Alloc {
                        vaddr: (start + index * page) as u32,
                        access: access_of(phdr.p_flags),
                    },
            ),
        decreases allocated - index,
    {
        steps.push(LoadStep::Alloc { vaddr: (start + index * page) as u32, access: rights });
        index = index + 1;
        assert(steps@ =~= allocations.take(index as int));
    }
    assert(steps@ =~= allocations);
    let mut index: u64 = 0;
    while index < copied
        invariant
            index <= copied <= 0x10_0001,
            page == PAGE_SIZE,
            copied > 0 ==> start + (copied - 1) * page <= u32::MAX && source + (copied - 1) * page
                <= u32::MAX,
            steps@ == allocations + copies.take(index as int),
            copies == Seq::new(
                copied as nat,
                |index: int|
                    LoadStep::Copy {
                        vaddr: (start + index * page) as u32,
                        paddr: (source + index * page) as u32,
                    },
            ),
        decreases copied - index,
    {
        steps.push(
            LoadStep::Copy {
                vaddr: (start + index * page) as u32,
                paddr: (source + index * page) as u32,
            },
        );
        index = index + 1;
        assert(steps@ =~= allocations + copies.take(index as int));
    }
    assert(steps@ =~= allocations + copies);
    Ok(steps)
}

/// Works out what loading an image that lies at the physical address `base`
/// comes to, or refuses the image.
pub fn do_elf32_load(image: &[u8], base: u32) -> (plan: Result<LoadPlan, Error>)
    ensures
        match spec_do_elf32_load(image@, base) {
            Ok(planned) => plan matches Ok(made) && made.entry == planned.0 && made.steps@
                == planned.1,
            Err(code) => failed(plan, code),
        },
{
    let header = match Elf32Fhdr::from_bytes(image) {
        Some(header) => header,
        None => {
            return Err(Error::new(ErrorCode::BadFile, "invalid elf file"));
        },
    };
    if !header.is_valid() {
        return Err(Error::new(ErrorCode::BadFile, "invalid elf file"));
    }
    if header.e_entry != USER_BASE {
        return Err(Error::new(ErrorCode::BadFile, "invalid entry point"));
    }
    let mut steps: Vec<LoadStep> = Vec::new();
    let mut index: u16 = 0;
    while index < header.e_phnum
        invariant
            index <= header.e_phnum,
            image@.len() >= ELF32_FHDR_SIZE,
            has_magic(image@.subrange(0, 16)),
            entry_of(image@) == USER_BASE,
            header.e_entry == entry_of(image@),
            header.e_phnum == phnum_of(image@),
            header.e_phoff == phoff_of(image@),
            spec_segments(image@, base, 0) == match spec_segments(image@, base, index as int) {
                Ok(rest) => Ok::<Seq<LoadStep>, ErrorCode>(steps@ + rest),
                Err(code) => Err(code),
            },
        decreases header.e_phnum - index,
    {
        let offset: u64 = header.e_phoff as u64 + index as u64 * ELF32_PHDR_SIZE as u64;
        if offset + ELF32_PHDR_SIZE as u64 > image.len() as u64 {
            return Err(Error::new(ErrorCode::BadFile, "corrupted elf file"));
        }
        let phdr = Elf32Phdr::from_bytes(image, offset as usize);
        let mut segment = match plan_segment(&phdr, base) {
            Ok(segment) => segment,
            Err(error) => {
                return Err(error);
            },
        };
        proof {
            let before = steps@;
            let made = segment@;
            match spec_segments(image@, base, index + 1) {
                Ok(rest) => {
                    assert((before + made) + rest =~= before + (made + rest));
                },
                Err(_) => {},
            }
        }
        steps.append(&mut segment);
        index = index + 1;
    }
    assert(steps@ + Seq::<LoadStep>::empty() =~= steps@);
    Ok(LoadPlan { entry: header.e_entry, steps })
}

/// Works out what loading an image that lies at the physical address `base`
/// comes to. An image that is refused is not loaded: its plan has an entry
/// point of zero and no step.
pub fn elf32_load(image: &[u8], base: u32) -> (plan: LoadPlan)
    ensures
        plan.entry == spec_elf32_load(image@, base).0,
        plan.steps@ == spec_elf32_load(image@, base).1,
{
    match do_elf32_load(image, base) {
        Ok(plan) => plan,
        Err(_) => LoadPlan { entry: 0, steps: Vec::new() },
    }
}

} // verus!
