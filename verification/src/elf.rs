use vstd::prelude::*;

pub use crate::endianness::Endianness;

verus! {

/// Size in bytes of the identification block at the start of every ELF file.
pub const EI_NIDENT: usize = 16;

/// Fixed size in bytes of the 32-bit file header.
pub const ELF32_HEADER_SIZE: usize = 52;

/// Fixed size in bytes of the 64-bit file header.
pub const ELF64_HEADER_SIZE: usize = 64;

/// The four magic bytes that open every ELF file: 0x7F 'E' 'L' 'F'.
pub open spec fn elf_magic() -> Seq<u8> {
    seq![0x7Fu8, 0x45u8, 0x4Cu8, 0x46u8]
}

/// Bit width of the file: decides the width of addresses and offsets and
/// which of the two header layouts the rest of the file uses.
#[derive(Debug, Clone, Copy, PartialEq, Eq, Structural)]
pub enum BitType {
    _32,
    _64,
}

/// The vendor or operating system convention the binary targets, decoded from
/// byte 7 of the identification block. The enumeration is deliberately
/// closed: an unassigned code is rejected, never passed through.
#[derive(Debug, Clone, Copy, PartialEq, Eq, Structural)]
#[allow(non_camel_case_types)]
pub enum ABI {
    UnixSystemV,
    HP_UX,
    NetBSD,
    Linux,
    SunSolaris,
    IBM_AIX,
    SGI_Irix,
    FreeBSD,
    CompaqTRU64,
    NovellModesto,
    OpenBSD,
    ARM_EABI,
    ARM,
    Standalone,
}

/// The kind of object file. Code 1 decodes to `ET_NONE`, as the historical
/// behaviour this decoder preserves collapses it onto code 0.
#[derive(Debug, Clone, Copy, PartialEq, Eq, Structural)]
#[allow(non_camel_case_types)]
pub enum FileType {
    ET_NONE,
    ET_REL,
    ET_EXEC,
    ET_DYN,
    ET_CORE,
}

/// The target machine architecture, from a closed enumeration of known codes.
#[derive(Debug, Clone, Copy, PartialEq, Eq, Structural)]
#[allow(non_camel_case_types)]
pub enum MachineType {
    NoMachine,
    SPARC,
    Intel_80386,
    Motorola_68000,
    Intel_i860,
    MIPS_I,
    Intel_i960,
    PowerPC,
    ARM,
    Intel_IA64,
    x64,
    RISC_V,
}

/// The header format version: only 0 and 1 are defined.
#[derive(Debug, Clone, Copy, PartialEq, Eq, Structural)]
pub enum HeaderVersion {
    NoVersion,
    Current,
}

/// The kind of a program header table entry, from a closed enumeration that
/// includes the GNU vendor extensions by their reserved numeric codes.
#[derive(Debug, Clone, Copy, PartialEq, Eq, Structural)]
#[allow(non_camel_case_types)]
pub enum ProgramHeaderType {
    PT_NULL,
    PT_LOAD,
    PT_DYNAMIC,
    PT_INTERP,
    PT_NOTE,
    PT_SHLIB,
    PT_PHDR,
    PT_TLS,
    GNU_EH_FRAME,
    GNU_STACK,
    GNU_RELRO,
    GNU_PROPERTY,
}

/// The decoded identification block: bytes 0 to 15 of the file. The bit width
/// and byte order fixed here govern every later stage and are never
/// re-derived.
#[derive(Debug, PartialEq, Eq, Structural)]
pub struct ElfIdent {
    pub e_bits: BitType,
    pub e_endianness: Endianness,
    pub e_header_format_version: u8,
    pub e_abi: ABI,
    pub e_abi_version: u8,
}

/// The decoded 64-bit file header: the fixed 64-byte record at the start of
/// the file.
#[derive(Debug, PartialEq, Eq, Structural)]
pub struct ElfHeader64 {
    pub e_ident: ElfIdent,
    pub e_type: FileType,
    pub e_machine: MachineType,
    pub e_version: HeaderVersion,
    pub e_entry: u64,
    pub e_phoff: u64,
    pub e_shoff: u64,
    pub e_flags: u32,
    pub e_ehsize: u16,
    pub e_phentsize: u16,
    pub e_phnum: u16,
    pub e_shentsize: u16,
    pub e_shnum: u16,
    pub e_shstrndx: u16,
}

/// The decoded 32-bit file header: the fixed 52-byte record at the start of
/// the file. Addresses and offsets are four bytes wide here.
#[derive(Debug, PartialEq, Eq, Structural)]
pub struct ElfHeader32 {
    pub e_ident: ElfIdent,
    pub e_type: FileType,
    pub e_machine: MachineType,
    pub e_version: HeaderVersion,
    pub e_entry: u32,
    pub e_phoff: u32,
    pub e_shoff: u32,
    pub e_flags: u32,
    pub e_ehsize: u16,
    pub e_phentsize: u16,
    pub e_phnum: u16,
    pub e_shentsize: u16,
    pub e_shnum: u16,
    pub e_shstrndx: u16,
}

/// One 32-byte program header table entry of a 32-bit file. The permission
/// flags are a bit set over execute, write and read; in this layout they
/// stand near the end of the record.
#[derive(Debug, PartialEq, Eq, Structural)]
pub struct ProgramHeader32 {
    pub ph_type: ProgramHeaderType,
    pub offset: u32,
    pub vaddr: u32,
    pub paddr: u32,
    pub filesz: u32,
    pub memsz: u32,
    pub flags: u32,
    pub align: u32,
}

/// One 56-byte program header table entry of a 64-bit file. In this layout
/// the permission flags immediately follow the kind; the positional
/// difference from the 32-bit record is part of the on-disk format.
#[derive(Debug, PartialEq, Eq, Structural)]
pub struct ProgramHeader64 {
    pub ph_type: ProgramHeaderType,
    pub flags: u32,
    pub offset: u64,
    pub vaddr: u64,
    pub paddr: u64,
    pub filesz: u64,
    pub memsz: u64,
    pub align: u64,
}

/// One 40-byte section header table entry of a 32-bit file. `sh_name` is the
/// raw byte offset of the section's name in the string table section; the
/// name itself is resolved in a second pass.
#[derive(Debug, PartialEq, Eq, Structural)]
pub struct SectionHeader32 {
    pub sh_name: u32,
    pub sh_type: u32,
    pub sh_flags: u32,
    pub sh_addr: u32,
    pub sh_offset: u32,
    pub sh_size: u32,
    pub sh_link: u32,
    pub sh_info: u32,
    pub sh_addralign: u32,
    pub sh_entsize: u32,
}

/// One 64-byte section header table entry of a 64-bit file.
#[derive(Debug, PartialEq, Eq, Structural)]
pub struct SectionHeader64 {
    pub sh_name: u32,
    pub sh_type: u32,
    pub sh_flags: u64,
    pub sh_addr: u64,
    pub sh_offset: u64,
    pub sh_size: u64,
    pub sh_link: u32,
    pub sh_info: u32,
    pub sh_addralign: u64,
    pub sh_entsize: u64,
}

/// The mathematical model of a decoded 32-bit image: what `Elf32` holds, with
/// the tables as sequences.
#[verifier::ext_equal]
pub struct ElfView32 {
    pub header: ElfHeader32,
    pub phtable: Seq<ProgramHeader32>,
    pub shtable: Seq<SectionHeader32>,
    pub section_names: Seq<Seq<u8>>,
    pub data: Seq<u8>,
}

/// The mathematical model of a decoded 64-bit image.
#[verifier::ext_equal]
pub struct ElfView64 {
    pub header: ElfHeader64,
    pub phtable: Seq<ProgramHeader64>,
    pub shtable: Seq<SectionHeader64>,
    pub section_names: Seq<Seq<u8>>,
    pub data: Seq<u8>,
}

/// A fully decoded 32-bit image: the header, the program and section header
/// tables in on-disk order, the resolved section names, and the raw bytes the
/// image was decoded from. A value of this type exists only for buffers that
/// decoded completely; it is immutable thereafter. `section_names` holds one
/// name per section when the header names a string table section, and is
/// empty when the header's string table index is zero.
#[derive(Debug, PartialEq, Eq)]
pub struct Elf32 {
    pub header: ElfHeader32,
    pub phtable: Vec<ProgramHeader32>,
    pub shtable: Vec<SectionHeader32>,
    pub section_names: Vec<Vec<u8>>,
    pub data: Vec<u8>,
}

/// A fully decoded 64-bit image, shaped as `Elf32` is.
#[derive(Debug, PartialEq, Eq)]
pub struct Elf64 {
    pub header: ElfHeader64,
    pub phtable: Vec<ProgramHeader64>,
    pub shtable: Vec<SectionHeader64>,
    pub section_names: Vec<Vec<u8>>,
    pub data: Vec<u8>,
}

impl View for Elf32 {
    type V = ElfView32;

    open spec fn view(&self) -> ElfView32 {
        ElfView32 {
            header: self.header,
            phtable: self.phtable@,
            shtable: self.shtable@,
            section_names: self.section_names.deep_view(),
            data: self.data@,
        }
    }
}

impl View for Elf64 {
    type V = ElfView64;

    open spec fn view(&self) -> ElfView64 {
        ElfView64 {
            header: self.header,
            phtable: self.phtable@,
            shtable: self.shtable@,
            section_names: self.section_names.deep_view(),
            data: self.data@,
        }
    }
}

impl Elf32 {
    /// Assembles a decoded image from its parts.
    pub fn new(
        header: ElfHeader32,
        phtable: Vec<ProgramHeader32>,
        shtable: Vec<SectionHeader32>,
        section_names: Vec<Vec<u8>>,
        data: Vec<u8>,
    ) -> (r: Self)
        ensures
            r@ == (ElfView32 {
                header,
                phtable: phtable@,
                shtable: shtable@,
                section_names: section_names.deep_view(),
                data: data@,
            }),
    {
        Self { header, phtable, shtable, section_names, data }
    }

    /// The virtual address execution starts at, as the header declares it.
    pub fn get_entry_point(&self) -> (r: u32)
        ensures
            r == self@.header.e_entry,
    {
        self.header.e_entry
    }
}

impl Elf64 {
    /// Assembles a decoded image from its parts.
    pub fn new(
        header: ElfHeader64,
        phtable: Vec<ProgramHeader64>,
        shtable: Vec<SectionHeader64>,
        section_names: Vec<Vec<u8>>,
        data: Vec<u8>,
    ) -> (r: Self)
        ensures
            r@ == (ElfView64 {
                header,
                phtable: phtable@,
                shtable: shtable@,
                section_names: section_names.deep_view(),
                data: data@,
            }),
    {
        Self { header, phtable, shtable, section_names, data }
    }

    /// The virtual address execution starts at, as the header declares it.
    pub fn get_entry_point(&self) -> (r: u64)
        ensures
            r == self@.header.e_entry,
    {
        self.header.e_entry
    }
}

} // verus!
