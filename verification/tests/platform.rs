use kernel::collections::raw_array::{check_region, RawArray};
use kernel::error::ErrorCode;
use kernel::hal::arch::{init, IoPort, MemoryRegionType, PortAccess};
use kernel::hal::platform::acpi::{
    entry_count, find_table_by_sig, signature_matches, AcpiTableEntry,
};

fn table(signature: &[u8; 4], valid: bool) -> AcpiTableEntry {
    AcpiTableEntry { signature: *signature, valid }
}

#[test]
fn table_is_found_by_its_signature() {
    let tables = [table(b"FACP", true), table(b"APIC", true), table(b"HPET", true)];
    assert_eq!(find_table_by_sig(&tables, "FACP"), Ok(0));
    assert_eq!(find_table_by_sig(&tables, "APIC"), Ok(1));
    assert_eq!(find_table_by_sig(&tables, "HPET"), Ok(2));
}

#[test]
fn missing_table_is_no_such_entry() {
    let tables = [table(b"FACP", true), table(b"APIC", true)];
    assert_eq!(find_table_by_sig(&tables, "MCFG").unwrap_err().code, ErrorCode::NoSuchEntry);
    assert_eq!(find_table_by_sig(&[], "APIC").unwrap_err().code, ErrorCode::NoSuchEntry);
    assert_eq!(find_table_by_sig(&tables, "apic").unwrap_err().code, ErrorCode::NoSuchEntry);
    assert_eq!(find_table_by_sig(&tables, "APICX").unwrap_err().code, ErrorCode::NoSuchEntry);
    assert_eq!(find_table_by_sig(&tables, "API").unwrap_err().code, ErrorCode::NoSuchEntry);
}

#[test]
fn tables_with_an_invalid_header_are_passed_over() {
    let tables = [table(b"APIC", false), table(b"FACP", true), table(b"APIC", true)];
    assert_eq!(find_table_by_sig(&tables, "APIC"), Ok(2));
    let none = [table(b"APIC", false)];
    assert_eq!(find_table_by_sig(&none, "APIC").unwrap_err().code, ErrorCode::NoSuchEntry);
}

#[test]
fn first_of_two_tables_with_the_same_signature_is_found() {
    let tables = [table(b"SSDT", true), table(b"SSDT", true)];
    assert_eq!(find_table_by_sig(&tables, "SSDT"), Ok(0));
}

#[test]
fn signature_is_read_up_to_its_first_zero_byte() {
    assert!(signature_matches(b"APIC", b"APIC"));
    assert!(signature_matches(b"AB\0D", b"AB"));
    assert!(signature_matches(b"\0BCD", b""));
    assert!(!signature_matches(b"ABCD", b"AB"));
    assert!(!signature_matches(b"AB\0D", b"AB\0D"));
    assert!(!signature_matches(b"AB\0D", b"AB\0"));
    assert!(!signature_matches(b"ABCD", b"ABCDE"));
    assert!(!signature_matches(b"ABCD", b""));
    let tables = [table(b"AB\0D", true)];
    assert_eq!(find_table_by_sig(&tables, "AB"), Ok(0));
}

#[test]
fn root_table_lists_one_table_for_each_four_bytes_after_its_header() {
    assert_eq!(entry_count(36), Ok(0));
    assert_eq!(entry_count(39), Ok(0));
    assert_eq!(entry_count(40), Ok(1));
    assert_eq!(entry_count(36 + 4 * 7), Ok(7));
    assert_eq!(entry_count(u32::MAX), Ok((u32::MAX - 36) / 4));
    assert_eq!(entry_count(35).unwrap_err().code, ErrorCode::InvalidArgument);
    assert_eq!(entry_count(0).unwrap_err().code, ErrorCode::InvalidArgument);
}

#[test]
fn boot_claims_the_ports_of_the_legacy_devices() {
    let resources = init();
    let ports = &resources.ports;
    assert_eq!(ports.len(), 70);
    let read_write = |port| IoPort { port, access: PortAccess::ReadWrite };
    let read_only = |port| IoPort { port, access: PortAccess::ReadOnly };
    assert_eq!(&ports[0..4], &[read_write(0x20), read_write(0x21), read_write(0xa0), read_write(0xa1)]);
    let mut expected = Vec::new();
    for base in [0x3f8u16, 0x2f8, 0x3e8, 0x2e8, 0x3e0, 0x2e0, 0x3f0, 0x2f0] {
        for offset in [0, 1, 2, 3, 4, 7] {
            expected.push(read_write(base + offset));
        }
        for offset in [5, 6] {
            expected.push(read_only(base + offset));
        }
    }
    assert_eq!(&ports[4..68], &expected[..]);
    assert_eq!(&ports[68..70], &[read_write(0x43), read_write(0x40)]);
}

#[test]
fn boot_claims_video_and_bios_memory() {
    let resources = init();
    assert_eq!(resources.video.name, "video display memory");
    assert_eq!(resources.video.base, 0x000a_0000);
    assert_eq!(resources.video.size, 32 * 4096);
    assert_eq!(resources.video.kind, MemoryRegionType::Mmio);
    assert!(resources.video.writable);
    assert_eq!(resources.bios.name, "bios memory");
    assert_eq!(resources.bios.base, 0x000c_0000);
    assert_eq!(resources.bios.size, 48 * 4096);
    assert_eq!(resources.bios.kind, MemoryRegionType::Reserved);
    assert!(!resources.bios.writable);
    assert_eq!(resources.video.base + resources.video.size, resources.bios.base);
}

#[test]
fn array_is_made_of_its_fill() {
    let array = RawArray::new(5, 0u32).unwrap();
    assert_eq!(array.len(), 5);
    assert_eq!(array.as_slice(), &[0, 0, 0, 0, 0]);
    let array = RawArray::new(3, (7u8, true)).unwrap();
    assert_eq!(array.as_slice(), &[(7, true), (7, true), (7, true)]);
    let one = RawArray::new(1, -1i64).unwrap();
    assert_eq!(one.as_slice(), &[-1]);
}

#[test]
fn array_lengths_of_zero_and_beyond_are_invalid() {
    assert_eq!(RawArray::new(0, 0u8).unwrap_err().code, ErrorCode::InvalidArgument);
    assert_eq!(RawArray::new(i32::MAX as usize, 0u8).unwrap_err().code, ErrorCode::InvalidArgument);
    assert_eq!(
        RawArray::new(i32::MAX as usize + 1, 0u8).unwrap_err().code,
        ErrorCode::InvalidArgument
    );
    assert_eq!(RawArray::new(usize::MAX, 0u64).unwrap_err().code, ErrorCode::InvalidArgument);
}

#[test]
fn array_that_memory_cannot_hold_is_out_of_memory() {
    let fill = [0u8; 1 << 18];
    let result = RawArray::new(i32::MAX as usize - 1, fill);
    assert_eq!(result.unwrap_err().code, ErrorCode::OutOfMemory);
}

#[test]
fn array_elements_are_read_and_replaced() {
    let mut array = RawArray::new(4, 0u16).unwrap();
    assert_eq!(array.set(2, 9).map_err(|error| error.code), Ok(()));
    assert_eq!(array.set(0, 1).map_err(|error| error.code), Ok(()));
    assert_eq!(array.as_slice(), &[1, 0, 9, 0]);
    assert_eq!(array.get(2), Some(&9));
    assert_eq!(array.get(3), Some(&0));
    assert_eq!(array.get(4), None);
    assert_eq!(array.set(4, 1).unwrap_err().code, ErrorCode::InvalidArgument);
    assert_eq!(array.as_slice(), &[1, 0, 9, 0]);
    assert_eq!(array.len(), 4);
}

#[test]
fn memory_from_elsewhere_is_checked() {
    assert_eq!(check_region(0x1000, 16, 4).map_err(|error| error.code), Ok(()));
    assert_eq!(check_region(0x1000, 0, 4).unwrap_err().code, ErrorCode::InvalidArgument);
    assert_eq!(
        check_region(0x1000, i32::MAX as usize, 1).unwrap_err().code,
        ErrorCode::InvalidArgument
    );
    assert!(check_region(0x1000, i32::MAX as usize - 1, 1).is_ok());
    assert_eq!(check_region(0, 16, 4).unwrap_err().code, ErrorCode::InvalidArgument);
    assert_eq!(check_region(0, 16, 4).unwrap_err().reason, "invalid pointer");
    assert_eq!(check_region(usize::MAX - 7, 2, 4).unwrap_err().reason, "wrapping memory region");
    assert!(check_region(usize::MAX - 8, 2, 4).is_ok());
    assert_eq!(check_region(0x1000, 0, 4).unwrap_err().reason, "invalid length");
}
