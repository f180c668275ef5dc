use elf_parser::elf::{
    ABI, BitType, Elf32, Elf64, ElfHeader32, ElfHeader64, ElfIdent, Endianness, FileType,
    HeaderVersion, MachineType, ProgramHeaderType,
};
use elf_parser::parse_error::ParseError;

fn push16(v: &mut Vec<u8>, x: u16) {
    v.extend_from_slice(&x.to_le_bytes());
}

fn push32(v: &mut Vec<u8>, x: u32) {
    v.extend_from_slice(&x.to_le_bytes());
}

fn push64(v: &mut Vec<u8>, x: u64) {
    v.extend_from_slice(&x.to_le_bytes());
}

/// A 64-bit little-endian file header with the given fields, flags zero.
fn header64_le(
    e_type: u16,
    machine: u16,
    version: u32,
    entry: u64,
    phoff: u64,
    shoff: u64,
    phentsize: u16,
    phnum: u16,
    shentsize: u16,
    shnum: u16,
    shstrndx: u16,
) -> Vec<u8> {
    let mut v = vec![
        0x7F, 0x45, 0x4C, 0x46, 0x02, 0x01, 0x01, 0x00, 0x00, 0x00, 0x00, 0x00, 0x00, 0x00, 0x00,
        0x00,
    ];
    push16(&mut v, e_type);
    push16(&mut v, machine);
    push32(&mut v, version);
    push64(&mut v, entry);
    push64(&mut v, phoff);
    push64(&mut v, shoff);
    push32(&mut v, 0);
    push16(&mut v, 64);
    push16(&mut v, phentsize);
    push16(&mut v, phnum);
    push16(&mut v, shentsize);
    push16(&mut v, shnum);
    push16(&mut v, shstrndx);
    v
}

/// One 56-byte little-endian program header entry of the 64-bit layout.
fn ph64_le(ph_type: u32, flags: u32, offset: u64, filesz: u64) -> Vec<u8> {
    let mut v = Vec::new();
    push32(&mut v, ph_type);
    push32(&mut v, flags);
    push64(&mut v, offset);
    push64(&mut v, 0x400000);
    push64(&mut v, 0x400000);
    push64(&mut v, filesz);
    push64(&mut v, filesz);
    push64(&mut v, 0x1000);
    v
}

/// One 64-byte little-endian section header entry of the 64-bit layout.
fn sh64_le(name: u32, sh_type: u32, offset: u64, size: u64) -> Vec<u8> {
    let mut v = Vec::new();
    push32(&mut v, name);
    push32(&mut v, sh_type);
    push64(&mut v, 0);
    push64(&mut v, 0);
    push64(&mut v, offset);
    push64(&mut v, size);
    push32(&mut v, 0);
    push32(&mut v, 0);
    push64(&mut v, 1);
    push64(&mut v, 0);
    v
}

/// A well-formed dynamically linked 64-bit little-endian executable image:
/// 13 loadable segments at offset 64, two sections at offset 792, and the
/// section name string table at offset 920.
fn well_formed_64() -> Vec<u8> {
    let mut f = header64_le(3, 62, 1, 0x1040, 64, 792, 56, 13, 64, 2, 1);
    for i in 0..13u64 {
        f.extend_from_slice(&ph64_le(1, 5, i * 0x1000, 0x1000));
    }
    f.extend_from_slice(&sh64_le(0, 0, 0, 0));
    f.extend_from_slice(&sh64_le(1, 3, 920, 11));
    f.extend_from_slice(b"\0.shstrtab\0");
    assert_eq!(f.len(), 931);
    f
}

#[test]
fn parse_ident() {
    let ident = &[
        0x7F, 0x45, 0x4C, 0x46, 0x02, 0x01, 0x01, 0x00, 0x00, 0x00, 0x00, 0x00, 0x00, 0x00, 0x00,
        0x00,
    ];

    assert_eq!(
        Ok(ElfIdent {
            e_bits: BitType::_64,
            e_endianness: Endianness::LittleEndian,
            e_header_format_version: 1,
            e_abi: ABI::UnixSystemV,
            e_abi_version: 0
        }),
        elf_parser::elf_parser::parse_ident(ident)
    );
}

#[test]
fn ident_too_small() {
    assert_eq!(
        elf_parser::elf_parser::parse_ident(&[]),
        Err(ParseError::TooSmallIdent)
    );
    assert_eq!(
        elf_parser::elf_parser::parse_ident(&[0x7F, 0x45, 0x4C, 0x46]),
        Err(ParseError::TooSmallIdent)
    );
    let fifteen = [0u8; 15];
    assert_eq!(
        elf_parser::elf_parser::parse_ident(&fifteen),
        Err(ParseError::TooSmallIdent)
    );
}

#[test]
fn ident_wrong_magic() {
    let mut b = [0u8; 16];
    assert_eq!(
        elf_parser::elf_parser::parse_ident(&b),
        Err(ParseError::NotElf)
    );
    b = [
        0x7F, 0x45, 0x4C, 0x47, 0x02, 0x01, 0x01, 0x00, 0x00, 0x00, 0x00, 0x00, 0x00, 0x00, 0x00,
        0x00,
    ];
    assert_eq!(
        elf_parser::elf_parser::parse_ident(&b),
        Err(ParseError::NotElf)
    );
}

#[test]
fn ident_unsupported_bit_width() {
    let b = [
        0x7F, 0x45, 0x4C, 0x46, 0x03, 0x01, 0x01, 0x00, 0x00, 0x00, 0x00, 0x00, 0x00, 0x00, 0x00,
        0x00,
    ];
    assert_eq!(
        elf_parser::elf_parser::parse_ident(&b),
        Err(ParseError::UnsupportedBitWidth)
    );
}

#[test]
fn ident_unsupported_endianness() {
    let b = [
        0x7F, 0x45, 0x4C, 0x46, 0x02, 0x00, 0x01, 0x00, 0x00, 0x00, 0x00, 0x00, 0x00, 0x00, 0x00,
        0x00,
    ];
    assert_eq!(
        elf_parser::elf_parser::parse_ident(&b),
        Err(ParseError::UnsupportedEndianness)
    );
}

#[test]
fn ident_unsupported_abi() {
    let b = [
        0x7F, 0x45, 0x4C, 0x46, 0x02, 0x01, 0x01, 0x04, 0x00, 0x00, 0x00, 0x00, 0x00, 0x00, 0x00,
        0x00,
    ];
    assert_eq!(
        elf_parser::elf_parser::parse_ident(&b),
        Err(ParseError::UnsupportedAbi)
    );
}

#[test]
fn ident_stores_versions_verbatim() {
    let b = [
        0x7F, 0x45, 0x4C, 0x46, 0x01, 0x02, 0x07, 0x03, 0x09, 0x00, 0x00, 0x00, 0x00, 0x00, 0x00,
        0x00,
    ];
    assert_eq!(
        Ok(ElfIdent {
            e_bits: BitType::_32,
            e_endianness: Endianness::BigEndian,
            e_header_format_version: 7,
            e_abi: ABI::Linux,
            e_abi_version: 9
        }),
        elf_parser::elf_parser::parse_ident(&b)
    );
}

#[test]
fn header64_too_small() {
    let mut f = well_formed_64();
    f.truncate(63);
    assert_eq!(Elf64::parse_header(&f), Err(ParseError::TooSmallHeader));
}

#[test]
fn header64_fields() {
    let f = well_formed_64();
    assert_eq!(
        Elf64::parse_header(&f),
        Ok(ElfHeader64 {
            e_ident: ElfIdent {
                e_bits: BitType::_64,
                e_endianness: Endianness::LittleEndian,
                e_header_format_version: 1,
                e_abi: ABI::UnixSystemV,
                e_abi_version: 0
            },
            e_type: FileType::ET_DYN,
            e_machine: MachineType::x64,
            e_version: HeaderVersion::Current,
            e_entry: 0x1040,
            e_phoff: 64,
            e_shoff: 792,
            e_flags: 0,
            e_ehsize: 64,
            e_phentsize: 56,
            e_phnum: 13,
            e_shentsize: 64,
            e_shnum: 2,
            e_shstrndx: 1
        })
    );
}

#[test]
fn header64_unsupported_file_type() {
    let f = header64_le(7, 62, 1, 0, 0, 0, 0, 0, 0, 0, 0);
    assert_eq!(
        Elf64::parse_header(&f),
        Err(ParseError::UnsupportedFileType)
    );
}

#[test]
fn header64_unsupported_machine() {
    let f = header64_le(3, 1, 1, 0, 0, 0, 0, 0, 0, 0, 0);
    assert_eq!(
        Elf64::parse_header(&f),
        Err(ParseError::UnsupportedMachineType)
    );
}

#[test]
fn header64_unsupported_version() {
    let f = header64_le(3, 62, 2, 0, 0, 0, 0, 0, 0, 0, 0);
    assert_eq!(Elf64::parse_header(&f), Err(ParseError::UnsupportedVersion));
}

#[test]
fn header64_file_type_one_collapses_to_none() {
    let f = header64_le(1, 62, 1, 0, 0, 0, 0, 0, 0, 0, 0);
    let h = Elf64::parse_header(&f).unwrap();
    assert_eq!(h.e_type, FileType::ET_NONE);
}

#[test]
fn header64_big_endian() {
    let mut v = vec![
        0x7F, 0x45, 0x4C, 0x46, 0x02, 0x02, 0x01, 0x00, 0x00, 0x00, 0x00, 0x00, 0x00, 0x00, 0x00,
        0x00,
    ];
    v.extend_from_slice(&2u16.to_be_bytes());
    v.extend_from_slice(&20u16.to_be_bytes());
    v.extend_from_slice(&1u32.to_be_bytes());
    v.extend_from_slice(&0x2000u64.to_be_bytes());
    v.extend_from_slice(&0u64.to_be_bytes());
    v.extend_from_slice(&0u64.to_be_bytes());
    v.extend_from_slice(&0u32.to_be_bytes());
    v.extend_from_slice(&64u16.to_be_bytes());
    v.extend_from_slice(&0u16.to_be_bytes());
    v.extend_from_slice(&0u16.to_be_bytes());
    v.extend_from_slice(&0u16.to_be_bytes());
    v.extend_from_slice(&0u16.to_be_bytes());
    v.extend_from_slice(&0u16.to_be_bytes());
    let h = Elf64::parse_header(&v).unwrap();
    assert_eq!(h.e_ident.e_endianness, Endianness::BigEndian);
    assert_eq!(h.e_type, FileType::ET_EXEC);
    assert_eq!(h.e_machine, MachineType::PowerPC);
    assert_eq!(h.e_entry, 0x2000);
    assert_eq!(h.e_ehsize, 64);
}

#[test]
fn header32_fields() {
    let mut v = vec![
        0x7F, 0x45, 0x4C, 0x46, 0x01, 0x01, 0x01, 0x00, 0x00, 0x00, 0x00, 0x00, 0x00, 0x00, 0x00,
        0x00,
    ];
    push16(&mut v, 3);
    push16(&mut v, 3);
    push32(&mut v, 1);
    push32(&mut v, 0x1050);
    push32(&mut v, 52);
    push32(&mut v, 13792);
    push32(&mut v, 0);
    push16(&mut v, 52);
    push16(&mut v, 32);
    push16(&mut v, 12);
    push16(&mut v, 40);
    push16(&mut v, 30);
    push16(&mut v, 29);
    assert_eq!(v.len(), 52);
    assert_eq!(
        Elf32::parse_header(&v),
        Ok(ElfHeader32 {
            e_ident: ElfIdent {
                e_bits: BitType::_32,
                e_endianness: Endianness::LittleEndian,
                e_header_format_version: 1,
                e_abi: ABI::UnixSystemV,
                e_abi_version: 0
            },
            e_type: FileType::ET_DYN,
            e_machine: MachineType::Intel_80386,
            e_version: HeaderVersion::Current,
            e_entry: 0x1050,
            e_phoff: 52,
            e_shoff: 13792,
            e_flags: 0,
            e_ehsize: 52,
            e_phentsize: 32,
            e_phnum: 12,
            e_shentsize: 40,
            e_shnum: 30,
            e_shstrndx: 29
        })
    );
}

#[test]
fn ph_table_truncated() {
    let f = header64_le(3, 62, 1, 0x1040, 64, 0, 56, 1000, 0, 0, 0);
    assert_eq!(
        Elf64::parse(&f),
        Err(ParseError::TruncatedProgramHeaderTable)
    );
}

#[test]
fn ph_table_entry_size_too_small() {
    let f = header64_le(3, 62, 1, 0x1040, 64, 0, 8, 2, 0, 0, 0);
    assert_eq!(
        Elf64::parse(&f),
        Err(ParseError::TruncatedProgramHeaderTable)
    );
}

#[test]
fn sh_table_truncated() {
    let f = header64_le(3, 62, 1, 0x1040, 0, 10000, 0, 0, 64, 1, 0);
    assert_eq!(
        Elf64::parse(&f),
        Err(ParseError::TruncatedSectionHeaderTable)
    );
}

#[test]
fn unsupported_program_header_type() {
    let mut f = well_formed_64();
    let entry = 64 + 5 * 56;
    f[entry..entry + 4].copy_from_slice(&8u32.to_le_bytes());
    assert_eq!(
        Elf64::parse(&f),
        Err(ParseError::UnsupportedProgramHeaderType)
    );
}

#[test]
fn name_offset_out_of_range() {
    let mut f = well_formed_64();
    let section0_name = 792;
    f[section0_name..section0_name + 4].copy_from_slice(&999u32.to_le_bytes());
    assert_eq!(Elf64::parse(&f), Err(ParseError::InvalidStringTableIndex));
}

#[test]
fn name_without_terminator() {
    let mut f = well_formed_64();
    f.truncate(930);
    let strtab_size = 792 + 64 + 32;
    f[strtab_size..strtab_size + 8].copy_from_slice(&10u64.to_le_bytes());
    assert_eq!(Elf64::parse(&f), Err(ParseError::InvalidStringTableIndex));
}

#[test]
fn string_table_index_out_of_range() {
    let mut f = header64_le(3, 62, 1, 0x1040, 64, 792, 56, 13, 64, 2, 5);
    for i in 0..13u64 {
        f.extend_from_slice(&ph64_le(1, 5, i * 0x1000, 0x1000));
    }
    f.extend_from_slice(&sh64_le(0, 0, 0, 0));
    f.extend_from_slice(&sh64_le(1, 3, 920, 11));
    f.extend_from_slice(b"\0.shstrtab\0");
    assert_eq!(Elf64::parse(&f), Err(ParseError::InvalidStringTableIndex));
}

#[test]
fn string_table_section_not_string_bearing() {
    let mut f = well_formed_64();
    let section1_type = 792 + 64 + 4;
    f[section1_type..section1_type + 4].copy_from_slice(&1u32.to_le_bytes());
    assert_eq!(Elf64::parse(&f), Err(ParseError::InvalidStringTableIndex));
}

#[test]
fn well_formed_image() {
    let f = well_formed_64();
    let img = Elf64::parse(&f).unwrap();
    assert_eq!(img.header.e_type, FileType::ET_DYN);
    assert_eq!(img.header.e_machine, MachineType::x64);
    assert_eq!(img.phtable.len(), 13);
    assert_eq!(img.phtable[0].ph_type, ProgramHeaderType::PT_LOAD);
    assert_eq!(img.phtable[0].flags, 5);
    assert_eq!(img.phtable[12].offset, 12 * 0x1000);
    assert_eq!(img.shtable.len(), 2);
    assert_eq!(img.shtable[1].sh_type, 3);
    assert_eq!(
        img.section_names,
        vec![b"".to_vec(), b".shstrtab".to_vec()]
    );
    assert_eq!(img.data.len(), f.len());
    assert_eq!(img.get_entry_point(), 0x1040);
}

#[test]
fn unassigned_abi_code_stops_decoding() {
    let mut f = well_formed_64();
    f[7] = 200;
    assert_eq!(Elf64::parse(&f), Err(ParseError::UnsupportedAbi));
    assert_eq!(Elf64::parse_header(&f), Err(ParseError::UnsupportedAbi));
}

#[test]
fn null_string_table_index_resolves_no_names() {
    let mut f = well_formed_64();
    f[62..64].copy_from_slice(&0u16.to_le_bytes());
    let img = Elf64::parse(&f).unwrap();
    assert_eq!(img.shtable.len(), 2);
    assert!(img.section_names.is_empty());
}

#[test]
fn elf32_image() {
    let mut v = vec![
        0x7F, 0x45, 0x4C, 0x46, 0x01, 0x01, 0x01, 0x00, 0x00, 0x00, 0x00, 0x00, 0x00, 0x00, 0x00,
        0x00,
    ];
    push16(&mut v, 2);
    push16(&mut v, 40);
    push32(&mut v, 1);
    push32(&mut v, 0x8000);
    push32(&mut v, 52);
    push32(&mut v, 84);
    push32(&mut v, 0);
    push16(&mut v, 52);
    push16(&mut v, 32);
    push16(&mut v, 1);
    push16(&mut v, 40);
    push16(&mut v, 2);
    push16(&mut v, 1);
    assert_eq!(v.len(), 52);
    // one program header entry: type, offset, vaddr, paddr, filesz, memsz, flags, align
    push32(&mut v, 1);
    push32(&mut v, 0);
    push32(&mut v, 0x8000);
    push32(&mut v, 0x8000);
    push32(&mut v, 0x200);
    push32(&mut v, 0x200);
    push32(&mut v, 6);
    push32(&mut v, 0x1000);
    assert_eq!(v.len(), 84);
    // two section header entries of ten words each
    for w in [
        [0u32, 0, 0, 0, 0, 0, 0, 0, 0, 0],
        [1u32, 3, 0, 0, 164, 4, 0, 0, 1, 0],
    ] {
        for x in w {
            push32(&mut v, x);
        }
    }
    assert_eq!(v.len(), 164);
    v.extend_from_slice(b"\0.s\0");
    let img = Elf32::parse(&v).unwrap();
    assert_eq!(img.header.e_type, FileType::ET_EXEC);
    assert_eq!(img.header.e_machine, MachineType::ARM);
    assert_eq!(img.phtable.len(), 1);
    assert_eq!(img.phtable[0].ph_type, ProgramHeaderType::PT_LOAD);
    assert_eq!(img.phtable[0].flags, 6);
    assert_eq!(img.phtable[0].memsz, 0x200);
    assert_eq!(img.section_names, vec![b"".to_vec(), b".s".to_vec()]);
    assert_eq!(img.get_entry_point(), 0x8000);
}

#[test]
fn elf32_header_too_small() {
    let f = [0x7Fu8, 0x45, 0x4C, 0x46, 0x01, 0x01, 0x01, 0x00, 0, 0, 0, 0, 0, 0, 0, 0];
    assert_eq!(Elf32::parse_header(&f), Err(ParseError::TooSmallHeader));
    assert_eq!(Elf32::parse(&f), Err(ParseError::TooSmallHeader));
}

#[test]
fn elf32_ph_table_truncated() {
    let mut v = vec![
        0x7F, 0x45, 0x4C, 0x46, 0x01, 0x01, 0x01, 0x00, 0x00, 0x00, 0x00, 0x00, 0x00, 0x00, 0x00,
        0x00,
    ];
    push16(&mut v, 2);
    push16(&mut v, 40);
    push32(&mut v, 1);
    push32(&mut v, 0x8000);
    push32(&mut v, 52);
    push32(&mut v, 0);
    push32(&mut v, 0);
    push16(&mut v, 52);
    push16(&mut v, 32);
    push16(&mut v, 500);
    push16(&mut v, 0);
    push16(&mut v, 0);
    push16(&mut v, 0);
    assert_eq!(v.len(), 52);
    assert_eq!(Elf32::parse(&v), Err(ParseError::TruncatedProgramHeaderTable));
}
