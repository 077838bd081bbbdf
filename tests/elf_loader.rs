use kernel_sched::elf::{create_test_binary, load_elf, ElfBinary, ElfError};

fn put(buf: &mut [u8], off: usize, bytes: &[u8]) {
    buf[off..off + bytes.len()].copy_from_slice(bytes);
}

fn image() -> Vec<u8> {
    let mut d = vec![0u8; 176];
    put(&mut d, 0, &[0x7f, b'E', b'L', b'F', 2, 1, 1]);
    put(&mut d, 16, &2u16.to_le_bytes());
    put(&mut d, 18, &0x3Eu16.to_le_bytes());
    put(&mut d, 20, &1u32.to_le_bytes());
    put(&mut d, 24, &0x40_1000u64.to_le_bytes());
    put(&mut d, 32, &64u64.to_le_bytes());
    put(&mut d, 54, &56u16.to_le_bytes());
    put(&mut d, 56, &1u16.to_le_bytes());
    put(&mut d, 64, &1u32.to_le_bytes());
    put(&mut d, 68, &5u32.to_le_bytes());
    put(&mut d, 72, &120u64.to_le_bytes());
    put(&mut d, 80, &0x40_0000u64.to_le_bytes());
    put(&mut d, 96, &56u64.to_le_bytes());
    put(&mut d, 104, &0x2000u64.to_le_bytes());
    d
}

#[test]
fn load_valid_image_returns_entry() {
    assert_eq!(load_elf(&image()), Ok(0x40_1000));
}

#[test]
fn parse_reads_header_and_program_headers() {
    let d = image();
    let elf = ElfBinary::parse(&d).ok().unwrap();
    assert_eq!(elf.entry_point(), 0x40_1000);
    let phs = elf.program_headers().ok().unwrap();
    assert_eq!(phs.len(), 1);
    assert_eq!(phs[0].p_type, 1);
    assert_eq!(phs[0].p_flags, 5);
    assert_eq!(phs[0].p_offset, 120);
    assert_eq!(phs[0].p_vaddr, 0x40_0000);
    assert_eq!(phs[0].p_filesz, 56);
    assert_eq!(phs[0].p_memsz, 0x2000);
    let seg = elf.segment_data(&phs[0]).ok().unwrap();
    assert_eq!(seg.len(), 56);
    assert_eq!(seg, &d[120..176]);
}

#[test]
fn short_or_unmarked_image_is_invalid_magic() {
    assert_eq!(load_elf(&[0x7f, b'E', b'L', b'F']), Err(ElfError::InvalidMagic));
    let mut d = image();
    d[1] = b'X';
    assert_eq!(load_elf(&d), Err(ElfError::InvalidMagic));
}

#[test]
fn wrong_class_machine_or_type_is_unsupported() {
    let mut d = image();
    d[4] = 1;
    assert_eq!(load_elf(&d), Err(ElfError::UnsupportedArchitecture));
    let mut d = image();
    d[5] = 2;
    assert_eq!(load_elf(&d), Err(ElfError::UnsupportedArchitecture));
    let mut d = image();
    d[18] = 0x28;
    assert_eq!(load_elf(&d), Err(ElfError::UnsupportedArchitecture));
    let mut d = image();
    d[16] = 3;
    assert_eq!(load_elf(&d), Err(ElfError::UnsupportedArchitecture));
}

#[test]
fn table_outside_image_is_bad_program_header() {
    let mut d = image();
    put(&mut d, 56, &3u16.to_le_bytes());
    assert_eq!(load_elf(&d), Err(ElfError::BadProgramHeader));
    let mut d = image();
    put(&mut d, 54, &8u16.to_le_bytes());
    assert_eq!(load_elf(&d), Err(ElfError::BadProgramHeader));
}

#[test]
fn segment_outside_image_is_load_failure() {
    let mut d = image();
    put(&mut d, 96, &57u64.to_le_bytes());
    assert_eq!(load_elf(&d), Err(ElfError::LoadFailure));
    let mut d = image();
    put(&mut d, 64, &4u32.to_le_bytes());
    put(&mut d, 96, &1000u64.to_le_bytes());
    assert_eq!(load_elf(&d), Ok(0x40_1000));
}

#[test]
fn test_binary_is_empty() {
    assert!(create_test_binary().is_empty());
}
