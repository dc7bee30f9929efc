use eonix::errno::ENOEXEC;
use eonix::loader::elf::{
    parse_class, plan_segment, segment_permission, segment_type, ElfClass, ElfImage,
    ProgramHeader, SegmentPlan, SegmentType, AT_BASE, AT_ENTRY, AT_PAGESZ, AT_PHDR, AT_PHENT,
    AT_PHNUM, AT_RANDOM,
};
use eonix::loader::header::{parse_header, ph_size, ElfHeader};
use eonix::loader::script::{classify_magic, MagicKind, MagicStep, ProgramLoader};
use eonix::loader::stack::{layout, stack_writes, StackWrite};
use eonix::mem::mapping::Permission;

fn header(type_: u32, flags: u32, offset: u64, vaddr: u64, file: u64, mem: u64) -> ProgramHeader {
    ProgramHeader { type_, flags, offset, virtual_addr: vaddr, file_size: file, mem_size: mem }
}

fn image(object_type: u16, headers: Vec<ProgramHeader>) -> ElfImage {
    ElfImage {
        class: ElfClass::SixtyFour,
        object_type,
        entry_point: 0x401000,
        ph_offset: 64,
        ph_count: headers.len() as u16,
        ph_entry_size: 56,
        program_headers: headers,
    }
}

#[test]
fn magic_is_classified() {
    assert_eq!(classify_magic([0x23, 0x21, 0x2f, 0x62]), MagicKind::Script);
    assert_eq!(classify_magic([0x7f, 0x45, 0x4c, 0x46]), MagicKind::Elf);
    assert_eq!(classify_magic([0x7f, 0x45, 0x4c, 0x47]), MagicKind::Unknown);
    assert_eq!(classify_magic([0, 0, 0, 0]), MagicKind::Unknown);
}

#[test]
fn class_byte_is_parsed() {
    assert_eq!(parse_class(1), Ok(ElfClass::ThirtyTwo));
    assert_eq!(parse_class(2), Ok(ElfClass::SixtyFour));
    assert_eq!(parse_class(0), Err(ENOEXEC));
    assert_eq!(parse_class(3), Err(ENOEXEC));
}

#[test]
fn class_constants() {
    assert_eq!(ElfClass::ThirtyTwo.word(), 4);
    assert_eq!(ElfClass::SixtyFour.word(), 8);
    assert_eq!(ElfClass::SixtyFour.dyn_base(), 0x2aaa_0000_0000);
    assert_eq!(ElfClass::ThirtyTwo.ldso_base(), 0xf000_0000);
    assert_eq!(ElfClass::SixtyFour.stack_base(), 0x7fff_ffff_0000);
    assert_eq!(ElfClass::ThirtyTwo.truncate(0x1_2345_6789), 0x2345_6789);
    assert_eq!(ElfClass::SixtyFour.truncate(0x1_2345_6789), 0x1_2345_6789);
}

#[test]
fn segment_flags_become_permissions() {
    assert_eq!(
        segment_permission(5),
        Permission { read: true, write: false, execute: true }
    );
    assert_eq!(
        segment_permission(6),
        Permission { read: true, write: true, execute: false }
    );
    assert_eq!(
        segment_permission(0),
        Permission { read: false, write: false, execute: false }
    );
}

#[test]
fn segment_types() {
    assert_eq!(segment_type(1), Ok(SegmentType::Load));
    assert_eq!(segment_type(3), Ok(SegmentType::Interp));
    assert_eq!(segment_type(6), Ok(SegmentType::Other));
    assert_eq!(segment_type(0x6474e551), Ok(SegmentType::Other));
    assert_eq!(segment_type(0x6474e552), Ok(SegmentType::Other));
    assert_eq!(segment_type(8), Err(ENOEXEC));
    assert_eq!(segment_type(0x8000_0000), Err(ENOEXEC));
}

#[test]
fn segment_plan_rounds_to_pages() {
    let ph = header(1, 5, 0x1234, 0x401234, 0x100, 0x2000);
    let p = plan_segment(&ph, 0);
    assert_eq!(
        p,
        SegmentPlan {
            start: 0x401000,
            file_len: 0x1000,
            file_offset: 0x1000,
            file_bytes: 0x334,
            mem_len: 0x3000,
            permission: Permission { read: true, write: false, execute: true },
        }
    );
    let q = plan_segment(&ph, 0x10000);
    assert_eq!(q.start, 0x411000);
    assert_eq!(q.mem_len, 0x3000);
}

#[test]
fn image_queries() {
    let img = image(
        2,
        vec![header(6, 4, 64, 0x400040, 112, 112), header(1, 5, 0, 0x400000, 0x1000, 0x1000)],
    );
    assert!(!img.is_shared_object());
    assert_eq!(img.load_base(), 0);
    assert_eq!(img.ph_addr(), Ok(0x400040));
    assert_eq!(img.entry_ip(0, None), 0x401000);
    assert_eq!(img.entry_ip(0, Some(0x7000_0000_1000)), 0x7000_0000_1000);
    assert_eq!(img.interp(), Ok(None));
    let (plans, end) = img.plan_segments(0).unwrap();
    assert_eq!(plans.len(), 1);
    assert_eq!(plans[0].start, 0x400000);
    assert_eq!(plans[0].mem_len, 0x1000);
    assert_eq!(end, 0x401000);
}

#[test]
fn shared_object_is_moved() {
    let img = image(3, vec![header(1, 5, 0, 0, 0x1000, 0x1000), header(3, 4, 0x200, 0x200, 28, 28)]);
    assert!(img.is_shared_object());
    assert_eq!(img.load_base(), 0x2aaa_0000_0000);
    assert_eq!(img.entry_ip(0x2aaa_0000_0000, None), 0x2aaa_0040_1000);
    assert_eq!(img.interp(), Ok(Some((0x200, 27))));
    let (plans, end) = img.plan_segments(0x2aaa_0000_0000).unwrap();
    assert_eq!(plans.len(), 1);
    assert_eq!(plans[0].start, 0x2aaa_0000_0000);
    assert_eq!(end, 0x2aaa_0000_1000);
}

#[test]
fn unknown_segment_type_refuses_the_image() {
    let img = image(2, vec![header(1, 5, 0, 0x400000, 0x1000, 0x1000), header(9, 0, 0, 0, 0, 0)]);
    assert_eq!(img.plan_segments(0).unwrap_err(), ENOEXEC);
    assert_eq!(img.interp(), Err(ENOEXEC));
}

#[test]
fn program_headers_outside_every_segment() {
    let img = image(2, vec![header(1, 5, 0x1000, 0x400000, 0x1000, 0x1000)]);
    assert_eq!(img.ph_addr(), Err(ENOEXEC));
    assert_eq!(img.aux_vec(0, None), Err(ENOEXEC));
}

#[test]
fn auxiliary_vector_in_key_order() {
    let img = image(
        2,
        vec![header(6, 4, 64, 0x400040, 112, 112), header(1, 5, 0, 0x400000, 0x1000, 0x1000)],
    );
    let aux = img.aux_vec(0, None).unwrap();
    assert_eq!(
        aux,
        vec![
            (AT_PHDR, 0x400040),
            (AT_PHENT, 56),
            (AT_PHNUM, 2),
            (AT_PAGESZ, 4096),
            (AT_ENTRY, 0x401000),
            (AT_RANDOM, 0x7fff_ffff_0000 - 16),
        ]
    );
    let with_ldso = img.aux_vec(0, Some(0x7000_0000_0000)).unwrap();
    assert_eq!(with_ldso.len(), 7);
    assert_eq!(with_ldso[4], (AT_BASE, 0x7000_0000_0000));
}

#[test]
fn loader_refuses_deep_scripts_and_unknown_files() {
    let mut l = ProgramLoader::new(b"/a".to_vec(), vec![b"/a".to_vec()]);
    assert_eq!(l.on_magic([0x7f, 0x45, 0x4c, 0x46]), Ok(MagicStep::LoadElf));
    assert_eq!(l.on_magic([0x23, 0x21, 0, 0]), Ok(MagicStep::ReadLine));
    assert_eq!(l.on_magic([1, 2, 3, 4]), Err(ENOEXEC));
    l.nrecur = 4;
    assert_eq!(l.on_magic([0x7f, 0x45, 0x4c, 0x46]), Err(ENOEXEC));
}

#[test]
fn script_names_its_interpreter() {
    let mut l = ProgramLoader::new(b"/s.sh".to_vec(), vec![b"/s.sh".to_vec(), b"x".to_vec()]);
    let mut buf = b"#!/bin/sh -e\necho hi\n".to_vec();
    let nread = buf.len();
    buf.resize(256, 0);
    let name = l.on_script(&buf, nread).unwrap();
    assert_eq!(name, b"/bin/sh".to_vec());
    assert_eq!(l.exec_path, b"/bin/sh".to_vec());
    assert_eq!(l.nrecur, 1);
    assert_eq!(
        l.args,
        vec![b"/bin/sh".to_vec(), b"-e".to_vec(), b"/s.sh".to_vec(), b"x".to_vec()]
    );
}

#[test]
fn script_without_argument() {
    let mut l = ProgramLoader::new(b"/t".to_vec(), vec![b"/t".to_vec()]);
    let mut buf = b"#!/bin/awk".to_vec();
    let nread = buf.len();
    buf.resize(256, 0);
    assert_eq!(l.on_script(&buf, nread), Ok(b"/bin/awk".to_vec()));
    assert_eq!(l.args, vec![b"/bin/awk".to_vec(), b"/t".to_vec(), b"/t".to_vec()]);
}

#[test]
fn non_script_bytes_are_refused() {
    let mut l = ProgramLoader::new(b"/t".to_vec(), vec![b"/t".to_vec()]);
    let buf = vec![0x7f, 0x45, 0x4c, 0x46];
    assert_eq!(l.on_script(&buf, 4), Err(ENOEXEC));
    assert_eq!(l.nrecur, 0);
    assert_eq!(l.exec_path, b"/t".to_vec());
}

#[test]
fn stack_layout_is_aligned() {
    let args = vec![b"ab".to_vec()];
    let envs = vec![b"X=1".to_vec()];
    let l = layout(0x1000, &args, &envs, 2, 8);
    assert_eq!(l.env_addrs, vec![0xffc]);
    assert_eq!(l.arg_addrs, vec![0xff9]);
    assert_eq!(l.sp, 0xfa0);
    assert_eq!(l.argv_at, 0xfa8);
    assert_eq!(l.envp_at, 0xfb8);
    assert_eq!(l.auxv_at, 0xfc8);
    let aux = vec![(AT_PAGESZ, 4096), (AT_ENTRY, 0x1000)];
    let w = stack_writes(&l, &args, &envs, &aux, 8);
    assert_eq!(w.len(), 6);
    match &w[0] {
        StackWrite::Bytes { addr, data } => {
            assert_eq!(*addr, 0xffc);
            assert_eq!(*data, b"X=1\0".to_vec());
        }
        _ => panic!("environment string expected"),
    }
    match &w[1] {
        StackWrite::Bytes { addr, data } => {
            assert_eq!(*addr, 0xff9);
            assert_eq!(*data, b"ab\0".to_vec());
        }
        _ => panic!("argument string expected"),
    }
    match &w[2] {
        StackWrite::Words { addr, words, width } => {
            assert_eq!(*addr, 0xfc8);
            assert_eq!(*words, vec![AT_PAGESZ, 4096, AT_ENTRY, 0x1000, 0, 0]);
            assert_eq!(*width, 8);
        }
        _ => panic!("auxiliary vector expected"),
    }
    match &w[5] {
        StackWrite::Words { addr, words, width } => {
            assert_eq!(*addr, 0xfa0);
            assert_eq!(*words, vec![1]);
            assert_eq!(*width, 4);
        }
        _ => panic!("argument count expected"),
    }
}

fn elf64_header() -> Vec<u8> {
    let mut h = vec![0u8; 64];
    h[..4].copy_from_slice(&[0x7f, b'E', b'L', b'F']);
    h[4] = 2;
    h[16..18].copy_from_slice(&3u16.to_le_bytes());
    h[24..32].copy_from_slice(&0x1040u64.to_le_bytes());
    h[32..40].copy_from_slice(&64u64.to_le_bytes());
    h[54..56].copy_from_slice(&56u16.to_le_bytes());
    h[56..58].copy_from_slice(&2u16.to_le_bytes());
    h
}

#[test]
fn header_fields_are_decoded() {
    let h = parse_header(&elf64_header()).unwrap();
    assert_eq!(
        h,
        ElfHeader {
            class: ElfClass::SixtyFour,
            object_type: 3,
            entry_point: 0x1040,
            ph_offset: 64,
            ph_entry_size: 56,
            ph_count: 2,
        }
    );
    let mut b = vec![0u8; 52];
    b[..4].copy_from_slice(&[0x7f, b'E', b'L', b'F']);
    b[4] = 1;
    b[16..18].copy_from_slice(&2u16.to_le_bytes());
    b[24..28].copy_from_slice(&0x8048000u32.to_le_bytes());
    b[28..32].copy_from_slice(&52u32.to_le_bytes());
    b[42..44].copy_from_slice(&32u16.to_le_bytes());
    b[44..46].copy_from_slice(&1u16.to_le_bytes());
    let h32 = parse_header(&b).unwrap();
    assert_eq!(h32.class, ElfClass::ThirtyTwo);
    assert_eq!(h32.entry_point, 0x8048000);
    assert_eq!(h32.ph_offset, 52);
    assert_eq!(h32.ph_count, 1);
    assert_eq!(ph_size(ElfClass::ThirtyTwo), 32);
    assert_eq!(ph_size(ElfClass::SixtyFour), 56);
}

#[test]
fn short_or_classless_headers_are_refused() {
    assert_eq!(parse_header(&vec![0x7f, b'E', b'L', b'F']), Err(ENOEXEC));
    let mut h = elf64_header();
    h[4] = 3;
    assert_eq!(parse_header(&h), Err(ENOEXEC));
    let mut short = elf64_header();
    short.truncate(60);
    assert_eq!(parse_header(&short), Err(ENOEXEC));
    let mut as32 = elf64_header();
    as32[4] = 1;
    as32.truncate(52);
    assert!(parse_header(&as32).is_ok());
}

#[test]
fn program_headers_are_decoded() {
    let h = parse_header(&elf64_header()).unwrap();
    let mut t = vec![0u8; 56];
    t[0..4].copy_from_slice(&1u32.to_le_bytes());
    t[4..8].copy_from_slice(&5u32.to_le_bytes());
    t[8..16].copy_from_slice(&0x1000u64.to_le_bytes());
    t[16..24].copy_from_slice(&0x401000u64.to_le_bytes());
    t[32..40].copy_from_slice(&0x200u64.to_le_bytes());
    t[40..48].copy_from_slice(&0x300u64.to_le_bytes());
    let img = ElfImage::from_header(h, &t);
    assert_eq!(img.program_headers.len(), 2);
    assert_eq!(img.program_headers[0], header(1, 5, 0x1000, 0x401000, 0x200, 0x300));
    assert_eq!(img.program_headers[1], header(0, 0, 0, 0, 0, 0));
    assert!(img.is_shared_object());
    assert_eq!(img.entry_point, 0x1040);
}
