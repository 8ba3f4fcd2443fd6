use kernel::error::ErrorCode;
use kernel::mm::elf::{
    access, do_elf32_load, elf32_load, plan_segment, power_of_two, AccessPermission, Elf32Fhdr,
    Elf32Phdr, LoadPlan, LoadStep, ELF32_FHDR_SIZE, ELF32_PHDR_SIZE, PF_R, PF_W, PF_X, PT_LOAD,
};

const USER_BASE: u32 = 0x4000_0000;
const IMAGE_AT: u32 = 0x0010_0000;

fn segment(p_type: u32, offset: u32, vaddr: u32, filesz: u32, memsz: u32, flags: u32) -> Elf32Phdr {
    Elf32Phdr {
        p_type,
        p_offset: offset,
        p_vaddr: vaddr,
        p_paddr: 0,
        p_filesz: filesz,
        p_memsz: memsz,
        p_flags: flags,
        p_align: 4096,
    }
}

fn image(entry: u32, segments: &[Elf32Phdr]) -> Vec<u8> {
    let mut bytes = vec![0u8; ELF32_FHDR_SIZE];
    bytes[0..4].copy_from_slice(&[0x7f, b'E', b'L', b'F']);
    bytes[4] = 1;
    bytes[5] = 1;
    bytes[16..18].copy_from_slice(&2u16.to_le_bytes());
    bytes[18..20].copy_from_slice(&3u16.to_le_bytes());
    bytes[20..24].copy_from_slice(&1u32.to_le_bytes());
    bytes[24..28].copy_from_slice(&entry.to_le_bytes());
    bytes[28..32].copy_from_slice(&(ELF32_FHDR_SIZE as u32).to_le_bytes());
    bytes[40..42].copy_from_slice(&(ELF32_FHDR_SIZE as u16).to_le_bytes());
    bytes[42..44].copy_from_slice(&(ELF32_PHDR_SIZE as u16).to_le_bytes());
    bytes[44..46].copy_from_slice(&(segments.len() as u16).to_le_bytes());
    for segment in segments {
        for field in [
            segment.p_type,
            segment.p_offset,
            segment.p_vaddr,
            segment.p_paddr,
            segment.p_filesz,
            segment.p_memsz,
            segment.p_flags,
            segment.p_align,
        ] {
            bytes.extend_from_slice(&field.to_le_bytes());
        }
    }
    bytes
}

fn refused(image: &[u8]) -> ErrorCode {
    assert_eq!(elf32_load(image, IMAGE_AT), LoadPlan { entry: 0, steps: vec![] });
    do_elf32_load(image, IMAGE_AT).unwrap_err().code
}

#[test]
fn file_header_is_read_field_by_field() {
    let text = segment(PT_LOAD, 0x1000, USER_BASE, 0x10, 0x10, PF_R | PF_X);
    let bytes = image(USER_BASE, &[text]);
    let header = Elf32Fhdr::from_bytes(&bytes).unwrap();
    assert_eq!(&header.e_ident[0..6], &[0x7f, 0x45, 0x4c, 0x46, 1, 1]);
    assert_eq!(header.e_type, 2);
    assert_eq!(header.e_machine, 3);
    assert_eq!(header.e_version, 1);
    assert_eq!(header.e_entry, USER_BASE);
    assert_eq!(header.e_phoff, 52);
    assert_eq!(header.e_shoff, 0);
    assert_eq!(header.e_ehsize, 52);
    assert_eq!(header.e_phentsize, 32);
    assert_eq!(header.e_phnum, 1);
    assert!(header.is_valid());
    assert_eq!(Elf32Phdr::from_bytes(&bytes, 52), text);
}

#[test]
fn short_images_have_no_header() {
    assert_eq!(Elf32Fhdr::from_bytes(&[]), None);
    assert_eq!(Elf32Fhdr::from_bytes(&[0x7f, 0x45, 0x4c, 0x46]), None);
    let bytes = image(USER_BASE, &[]);
    assert_eq!(Elf32Fhdr::from_bytes(&bytes[..51]), None);
    assert!(Elf32Fhdr::from_bytes(&bytes[..52]).is_some());
    assert_eq!(refused(&bytes[..51]), ErrorCode::BadFile);
}

#[test]
fn header_without_magic_is_not_valid() {
    for broken in 0..4 {
        let mut bytes = image(USER_BASE, &[]);
        bytes[broken] ^= 1;
        assert!(!Elf32Fhdr::from_bytes(&bytes).unwrap().is_valid());
        assert_eq!(refused(&bytes), ErrorCode::BadFile);
    }
}

#[test]
fn entry_point_must_be_the_start_of_user_space() {
    for entry in [0, USER_BASE - 1, USER_BASE + 1, USER_BASE + 0x1000, 0xf000_0000] {
        assert_eq!(refused(&image(entry, &[])), ErrorCode::BadFile);
    }
}

#[test]
fn image_without_segments_loads_nothing() {
    let plan = elf32_load(&image(USER_BASE, &[]), IMAGE_AT);
    assert_eq!(plan, LoadPlan { entry: USER_BASE, steps: vec![] });
}

#[test]
fn text_segment_is_allocated_then_copied() {
    let text = segment(PT_LOAD, 0x1000, USER_BASE, 0x1800, 0x2800, PF_R | PF_X);
    let plan = elf32_load(&image(USER_BASE, &[text]), IMAGE_AT);
    assert_eq!(plan.entry, USER_BASE);
    assert_eq!(
        plan.steps,
        vec![
            LoadStep::Alloc { vaddr: 0x4000_0000, access: AccessPermission::Exec },
            LoadStep::Alloc { vaddr: 0x4000_1000, access: AccessPermission::Exec },
            LoadStep::Alloc { vaddr: 0x4000_2000, access: AccessPermission::Exec },
            LoadStep::Copy { vaddr: 0x4000_0000, paddr: 0x0010_1000 },
            LoadStep::Copy { vaddr: 0x4000_1000, paddr: 0x0010_2000 },
        ]
    );
    assert_eq!(do_elf32_load(&image(USER_BASE, &[text]), IMAGE_AT), Ok(plan));
}

#[test]
fn empty_segment_still_takes_one_page() {
    let empty = segment(PT_LOAD, 0x3000, USER_BASE + 0x5000, 0, 0, PF_R);
    let steps = plan_segment(&empty, IMAGE_AT).unwrap();
    assert_eq!(
        steps,
        vec![
            LoadStep::Alloc { vaddr: 0x4000_5000, access: AccessPermission::ReadOnly },
            LoadStep::Copy { vaddr: 0x4000_5000, paddr: 0x0010_3000 },
        ]
    );
}

#[test]
fn segments_are_loaded_in_the_order_of_the_table() {
    let text = segment(PT_LOAD, 0x1000, USER_BASE, 0x10, 0x10, PF_R | PF_X);
    let note = segment(4, 0x10, 0x10, 0x20, 0x10, 0);
    let data = segment(PT_LOAD, 0x2000, USER_BASE + 0x1000, 0x10, 0x1010, PF_R | PF_W);
    let plan = elf32_load(&image(USER_BASE, &[text, note, data]), IMAGE_AT);
    assert_eq!(
        plan.steps,
        vec![
            LoadStep::Alloc { vaddr: 0x4000_0000, access: AccessPermission::Exec },
            LoadStep::Copy { vaddr: 0x4000_0000, paddr: 0x0010_1000 },
            LoadStep::Alloc { vaddr: 0x4000_1000, access: AccessPermission::ReadWrite },
            LoadStep::Alloc { vaddr: 0x4000_2000, access: AccessPermission::ReadWrite },
            LoadStep::Copy { vaddr: 0x4000_1000, paddr: 0x0010_2000 },
        ]
    );
}

#[test]
fn segments_of_other_types_take_no_step() {
    for p_type in [0, 2, 3, 4, 5, 6, 0x7000_0000] {
        let other = segment(p_type, 1, 2, 30, 4, 0);
        assert_eq!(plan_segment(&other, IMAGE_AT), Ok(vec![]));
    }
}

#[test]
fn access_follows_the_flags() {
    assert_eq!(access(PF_R | PF_X), AccessPermission::Exec);
    assert_eq!(access(PF_R | PF_W), AccessPermission::ReadWrite);
    assert_eq!(access(PF_W), AccessPermission::ReadWrite);
    assert_eq!(access(PF_R | PF_W | PF_X), AccessPermission::ReadWrite);
    assert_eq!(access(PF_R), AccessPermission::ReadOnly);
    assert_eq!(access(PF_X), AccessPermission::ReadOnly);
    assert_eq!(access(0), AccessPermission::ReadOnly);
    assert_eq!(access(0x8000_0005), AccessPermission::ReadOnly);
}

#[test]
fn more_bytes_in_the_file_than_in_memory_is_a_bad_file() {
    let broken = segment(PT_LOAD, 0x1000, USER_BASE, 0x11, 0x10, PF_R);
    assert_eq!(plan_segment(&broken, IMAGE_AT).unwrap_err().code, ErrorCode::BadFile);
    assert_eq!(refused(&image(USER_BASE, &[broken])), ErrorCode::BadFile);
}

#[test]
fn alignment_must_be_a_power_of_two() {
    for align in [0, 3, 5, 6, 4095, 4097, u32::MAX] {
        assert!(!power_of_two(align));
        let mut broken = segment(PT_LOAD, 0x1000, USER_BASE, 0x10, 0x10, PF_R);
        broken.p_align = align;
        assert_eq!(plan_segment(&broken, IMAGE_AT).unwrap_err().code, ErrorCode::BadFile);
    }
    for shift in 0..32 {
        assert!(power_of_two(1 << shift));
    }
}

#[test]
fn segment_starts_at_its_address_brought_down_to_its_alignment() {
    let mut wide = segment(PT_LOAD, 0x1000, USER_BASE + 0x2345, 0, 0, PF_R);
    wide.p_align = 0x2000;
    assert_eq!(
        plan_segment(&wide, IMAGE_AT),
        Ok(vec![
            LoadStep::Alloc { vaddr: 0x4000_2000, access: AccessPermission::ReadOnly },
            LoadStep::Copy { vaddr: 0x4000_2000, paddr: 0x0010_1000 },
        ])
    );
}

#[test]
fn segment_below_user_space_is_a_bad_file() {
    for vaddr in [0, 0x1000, USER_BASE - 0x1000] {
        let low = segment(PT_LOAD, 0x1000, vaddr, 0x10, 0x10, PF_R);
        assert_eq!(plan_segment(&low, IMAGE_AT).unwrap_err().code, ErrorCode::BadFile);
    }
}

#[test]
fn segment_that_does_not_start_on_a_page_is_invalid() {
    let mut crooked = segment(PT_LOAD, 0x1000, USER_BASE + 4, 0x1000, 0x1000, PF_R);
    crooked.p_align = 4;
    assert_eq!(plan_segment(&crooked, IMAGE_AT).unwrap_err().code, ErrorCode::InvalidArgument);
    let shifted = segment(PT_LOAD, 0x1001, USER_BASE, 0x1000, 0x1000, PF_R);
    assert_eq!(plan_segment(&shifted, IMAGE_AT).unwrap_err().code, ErrorCode::InvalidArgument);
    assert_eq!(plan_segment(&shifted, IMAGE_AT - 1).map(|steps| steps.len()), Ok(4));
}

#[test]
fn small_segment_inside_a_page_walks_no_page() {
    let mut tiny = segment(PT_LOAD, 0x10, USER_BASE + 0x100, 0, 0x10, PF_R);
    tiny.p_align = 1;
    assert_eq!(plan_segment(&tiny, IMAGE_AT), Ok(vec![]));
}

#[test]
fn segment_beyond_the_address_space_is_a_bad_file() {
    let high = segment(PT_LOAD, 0x1000, 0xffff_f000, 0, 0x2000, PF_R);
    assert_eq!(plan_segment(&high, IMAGE_AT).unwrap_err().code, ErrorCode::BadFile);
    let last = segment(PT_LOAD, 0x1000, 0xffff_f000, 0, 0xfff, PF_R);
    assert_eq!(
        plan_segment(&last, IMAGE_AT),
        Ok(vec![
            LoadStep::Alloc { vaddr: 0xffff_f000, access: AccessPermission::ReadOnly },
            LoadStep::Copy { vaddr: 0xffff_f000, paddr: 0x0010_1000 },
        ])
    );
    let far = segment(PT_LOAD, 0xffff_f000, USER_BASE, 0x1000, 0x1000, PF_R);
    assert_eq!(plan_segment(&far, 0x2000).unwrap_err().code, ErrorCode::BadFile);
}

#[test]
fn program_header_outside_the_image_is_a_bad_file() {
    let text = segment(PT_LOAD, 0x1000, USER_BASE, 0x10, 0x10, PF_R | PF_X);
    let whole = image(USER_BASE, &[text, text]);
    assert_eq!(refused(&whole[..whole.len() - 1]), ErrorCode::BadFile);
    let mut elsewhere = image(USER_BASE, &[text]);
    elsewhere[28..32].copy_from_slice(&u32::MAX.to_le_bytes());
    assert_eq!(refused(&elsewhere), ErrorCode::BadFile);
    assert_eq!(elf32_load(&whole, IMAGE_AT).steps.len(), 4);
}

#[test]
fn refused_segment_refuses_the_whole_image() {
    let text = segment(PT_LOAD, 0x1000, USER_BASE, 0x10, 0x10, PF_R | PF_X);
    let low = segment(PT_LOAD, 0x2000, 0x1000, 0x10, 0x10, PF_R);
    assert_eq!(refused(&image(USER_BASE, &[text, low])), ErrorCode::BadFile);
    let crooked = segment(PT_LOAD, 0x1004, USER_BASE, 0x1000, 0x1000, PF_R);
    assert_eq!(refused(&image(USER_BASE, &[text, crooked])), ErrorCode::InvalidArgument);
}

#[test]
fn large_segment_takes_one_page_for_each_page_walked() {
    let big = segment(PT_LOAD, 0x1000, USER_BASE, 0x4000, 0x0010_0000, PF_R | PF_W);
    let steps = plan_segment(&big, IMAGE_AT).unwrap();
    assert_eq!(steps.len(), 257 + 5);
    for (index, step) in steps.iter().take(257).enumerate() {
        let vaddr = USER_BASE + 4096 * index as u32;
        assert_eq!(*step, LoadStep::Alloc { vaddr, access: AccessPermission::ReadWrite });
    }
    for (index, step) in steps.iter().skip(257).enumerate() {
        let vaddr = USER_BASE + 4096 * index as u32;
        let paddr = IMAGE_AT + 0x1000 + 4096 * index as u32;
        assert_eq!(*step, LoadStep::Copy { vaddr, paddr });
    }
}
