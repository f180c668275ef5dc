use vstd::prelude::*;
use vstd::slice::{slice_index_get, slice_subrange, slice_to_vec};

use crate::elf::{
    ABI, BitType, EI_NIDENT, ELF32_HEADER_SIZE, ELF64_HEADER_SIZE, Elf32, Elf64, ElfHeader32,
    ElfHeader64, ElfIdent, ElfView32, ElfView64, FileType, HeaderVersion, MachineType,
    ProgramHeader32, ProgramHeader64, ProgramHeaderType, SectionHeader32, SectionHeader64,
    elf_magic,
};
use crate::endianness::{Endianness, endian_value, lemma_endian_value_bound, pow256, read16, read32, read64};
use crate::parse_error::ParseError;

verus! {

/// The bit width byte 4 of the identification block selects, if assigned.
pub open spec fn spec_bit_type(code: u8) -> Option<BitType> {
    if code == 1 {
        Some(BitType::_32)
    } else if code == 2 {
        Some(BitType::_64)
    } else {
        None
    }
}

/// The byte order byte 5 of the identification block selects, if assigned.
pub open spec fn spec_endianness(code: u8) -> Option<Endianness> {
    if code == 1 {
        Some(Endianness::LittleEndian)
    } else if code == 2 {
        Some(Endianness::BigEndian)
    } else {
        None
    }
}

/// The ABI byte 7 of the identification block selects, if assigned. The
/// mapping is closed: every unlisted code is rejected.
pub open spec fn spec_abi(code: u8) -> Option<ABI> {
    if code == 0 {
        Some(ABI::UnixSystemV)
    } else if code == 1 {
        Some(ABI::HP_UX)
    } else if code == 2 {
        Some(ABI::NetBSD)
    } else if code == 3 {
        Some(ABI::Linux)
    } else if code == 6 {
        Some(ABI::SunSolaris)
    } else if code == 7 {
        Some(ABI::IBM_AIX)
    } else if code == 8 {
        Some(ABI::SGI_Irix)
    } else if code == 9 {
        Some(ABI::FreeBSD)
    } else if code == 10 {
        Some(ABI::CompaqTRU64)
    } else if code == 11 {
        Some(ABI::NovellModesto)
    } else if code == 12 {
        Some(ABI::OpenBSD)
    } else if code == 64 {
        Some(ABI::ARM_EABI)
    } else if code == 97 {
        Some(ABI::ARM)
    } else if code == 255 {
        Some(ABI::Standalone)
    } else {
        None
    }
}

/// The object file kind a two-byte code selects, if assigned. Code 1
/// collapses onto `ET_NONE`, a quirk this decoder preserves for
/// compatibility.
pub open spec fn spec_file_type(code: u16) -> Option<FileType> {
    if code == 0 || code == 1 {
        Some(FileType::ET_NONE)
    } else if code == 2 {
        Some(FileType::ET_EXEC)
    } else if code == 3 {
        Some(FileType::ET_DYN)
    } else if code == 4 {
        Some(FileType::ET_CORE)
    } else {
        None
    }
}

/// The machine architecture a two-byte code selects, if assigned.
pub open spec fn spec_machine_type(code: u16) -> Option<MachineType> {
    if code == 0 {
        Some(MachineType::NoMachine)
    } else if code == 2 {
        Some(MachineType::SPARC)
    } else if code == 3 {
        Some(MachineType::Intel_80386)
    } else if code == 4 {
        Some(MachineType::Motorola_68000)
    } else if code == 7 {
        Some(MachineType::Intel_i860)
    } else if code == 8 {
        Some(MachineType::MIPS_I)
    } else if code == 19 {
        Some(MachineType::Intel_i960)
    } else if code == 20 {
        Some(MachineType::PowerPC)
    } else if code == 40 {
        Some(MachineType::ARM)
    } else if code == 50 {
        Some(MachineType::Intel_IA64)
    } else if code == 62 {
        Some(MachineType::x64)
    } else if code == 243 {
        Some(MachineType::RISC_V)
    } else {
        None
    }
}

/// The header format version a four-byte code selects: only 0 and 1 are
/// defined.
pub open spec fn spec_header_version(code: u32) -> Option<HeaderVersion> {
    if code == 0 {
        Some(HeaderVersion::NoVersion)
    } else if code == 1 {
        Some(HeaderVersion::Current)
    } else {
        None
    }
}

/// The segment kind a four-byte code selects, if assigned. The GNU vendor
/// extensions are identified by their reserved high-range codes; any other
/// code is rejected.
pub open spec fn spec_program_header_type(code: u32) -> Option<ProgramHeaderType> {
    if code == 0 {
        Some(ProgramHeaderType::PT_NULL)
    } else if code == 1 {
        Some(ProgramHeaderType::PT_LOAD)
    } else if code == 2 {
        Some(ProgramHeaderType::PT_DYNAMIC)
    } else if code == 3 {
        Some(ProgramHeaderType::PT_INTERP)
    } else if code == 4 {
        Some(ProgramHeaderType::PT_NOTE)
    } else if code == 5 {
        Some(ProgramHeaderType::PT_SHLIB)
    } else if code == 6 {
        Some(ProgramHeaderType::PT_PHDR)
    } else if code == 7 {
        Some(ProgramHeaderType::PT_TLS)
    } else if code == 0x6474E550 {
        Some(ProgramHeaderType::GNU_EH_FRAME)
    } else if code == 0x6474E551 {
        Some(ProgramHeaderType::GNU_STACK)
    } else if code == 0x6474E552 {
        Some(ProgramHeaderType::GNU_RELRO)
    } else if code == 0x6474E553 {
        Some(ProgramHeaderType::GNU_PROPERTY)
    } else {
        None
    }
}

/// Whether `b` starts with the ELF magic sequence.
pub open spec fn spec_has_magic(b: Seq<u8>) -> bool {
    b.len() >= 4 && b.subrange(0, 4) == elf_magic()
}

/// What identification parsing returns on the bytes `b`: the decoded block,
/// or the first violated condition in the fixed order size, magic, bit
/// width, byte order, ABI. Bytes 6 and 8 are stored verbatim; bytes 9 to 15
/// are reserved and not inspected.
pub open spec fn spec_parse_ident(b: Seq<u8>) -> Result<ElfIdent, ParseError> {
    if b.len() < EI_NIDENT {
        Err(ParseError::TooSmallIdent)
    } else if !spec_has_magic(b) {
        Err(ParseError::NotElf)
    } else {
        match spec_bit_type(b[4]) {
            None => Err(ParseError::UnsupportedBitWidth),
            Some(bits) => match spec_endianness(b[5]) {
                None => Err(ParseError::UnsupportedEndianness),
                Some(endianness) => match spec_abi(b[7]) {
                    None => Err(ParseError::UnsupportedAbi),
                    Some(abi) => Ok(
                        ElfIdent {
                            e_bits: bits,
                            e_endianness: endianness,
                            e_header_format_version: b[6],
                            e_abi: abi,
                            e_abi_version: b[8],
                        },
                    ),
                },
            },
        }
    }
}

/// Every buffer shorter than 16 bytes is rejected as too small for an
/// identification block, whatever it holds.
pub proof fn lemma_ident_rejects_short(b: Seq<u8>)
    requires
        b.len() < EI_NIDENT,
    ensures
        spec_parse_ident(b) == Err::<ElfIdent, ParseError>(ParseError::TooSmallIdent),
{
}

/// Every large-enough buffer whose first four bytes differ from the ELF magic
/// sequence is rejected as not ELF, regardless of its remaining content.
pub proof fn lemma_ident_rejects_wrong_magic(b: Seq<u8>)
    requires
        b.len() >= EI_NIDENT,
        b.subrange(0, 4) != elf_magic(),
    ensures
        spec_parse_ident(b) == Err::<ElfIdent, ParseError>(ParseError::NotElf),
{
}

/// The two bytes of `b` at `off` read as an integer under byte order `e`.
pub open spec fn spec_read_u16(b: Seq<u8>, off: int, e: Endianness) -> u16 {
    endian_value(b.subrange(off, off + 2), e) as u16
}

/// The four bytes of `b` at `off` read as an integer under byte order `e`.
pub open spec fn spec_read_u32(b: Seq<u8>, off: int, e: Endianness) -> u32 {
    endian_value(b.subrange(off, off + 4), e) as u32
}

/// The eight bytes of `b` at `off` read as an integer under byte order `e`.
pub open spec fn spec_read_u64(b: Seq<u8>, off: int, e: Endianness) -> u64 {
    endian_value(b.subrange(off, off + 8), e) as u64
}

/// Reads the two-byte field of `b` at `off` under byte order `e`.
fn read_u16_at(b: &[u8], off: usize, e: Endianness) -> (r: u16)
    requires
        off + 2 <= b@.len(),
    ensures
        r == spec_read_u16(b@, off as int, e),
{
    let arr: [u8; 2] = [b[off], b[off + 1]];
    proof {
        assert(arr@ =~= b@.subrange(off as int, off as int + 2));
        lemma_endian_value_bound(arr@, e);
        reveal_with_fuel(pow256, 3);
    }
    read16(&arr, e)
}

/// Reads the four-byte field of `b` at `off` under byte order `e`.
fn read_u32_at(b: &[u8], off: usize, e: Endianness) -> (r: u32)
    requires
        off + 4 <= b@.len(),
    ensures
        r == spec_read_u32(b@, off as int, e),
{
    let arr: [u8; 4] = [b[off], b[off + 1], b[off + 2], b[off + 3]];
    proof {
        assert(arr@ =~= b@.subrange(off as int, off as int + 4));
        lemma_endian_value_bound(arr@, e);
        reveal_with_fuel(pow256, 5);
    }
    read32(&arr, e)
}

/// Reads the eight-byte field of `b` at `off` under byte order `e`.
fn read_u64_at(b: &[u8], off: usize, e: Endianness) -> (r: u64)
    requires
        off + 8 <= b@.len(),
    ensures
        r == spec_read_u64(b@, off as int, e),
{
    let arr: [u8; 8] = [
        b[off],
        b[off + 1],
        b[off + 2],
        b[off + 3],
        b[off + 4],
        b[off + 5],
        b[off + 6],
        b[off + 7],
    ];
    proof {
        assert(arr@ =~= b@.subrange(off as int, off as int + 8));
        lemma_endian_value_bound(arr@, e);
        reveal_with_fuel(pow256, 9);
    }
    read64(&arr, e)
}

/// Decodes the 16-byte identification block at the start of `ident`.
pub fn parse_ident(ident: &[u8]) -> (r: Result<ElfIdent, ParseError>)
    ensures
        r == spec_parse_ident(ident@),
{
    if ident.len() < EI_NIDENT {
        return Err(ParseError::TooSmallIdent);
    }
    if !(ident[0] == 0x7F && ident[1] == 0x45 && ident[2] == 0x4C && ident[3] == 0x46) {
        proof {
            assert(ident@.subrange(0, 4) != elf_magic());
        }
        return Err(ParseError::NotElf);
    }
    proof {
        assert(ident@.subrange(0, 4) =~= elf_magic());
    }
    let bits = match ident[4] {
        1 => BitType::_32,
        2 => BitType::_64,
        _ => {
            return Err(ParseError::UnsupportedBitWidth);
        }
    };
    let endianness = match ident[5] {
        1 => Endianness::LittleEndian,
        2 => Endianness::BigEndian,
        _ => {
            return Err(ParseError::UnsupportedEndianness);
        }
    };
    let header_format_version = ident[6];
    let abi = match ident[7] {
        0 => ABI::UnixSystemV,
        1 => ABI::HP_UX,
        2 => ABI::NetBSD,
        3 => ABI::Linux,
        6 => ABI::SunSolaris,
        7 => ABI::IBM_AIX,
        8 => ABI::SGI_Irix,
        9 => ABI::FreeBSD,
        10 => ABI::CompaqTRU64,
        11 => ABI::NovellModesto,
        12 => ABI::OpenBSD,
        64 => ABI::ARM_EABI,
        97 => ABI::ARM,
        255 => ABI::Standalone,
        _ => {
            return Err(ParseError::UnsupportedAbi);
        }
    };
    let abi_ver = ident[8];
    Ok(
        ElfIdent {
            e_bits: bits,
            e_endianness: endianness,
            e_header_format_version: header_format_version,
            e_abi: abi,
            e_abi_version: abi_ver,
        },
    )
}

/// What 64-bit header decoding returns on the bytes `b`: the decoded header,
/// or the first violated condition. After the size check and the
/// identification block, every field sits at a fixed offset and is read under
/// the byte order the identification block fixed.
pub open spec fn spec_parse_header64(b: Seq<u8>) -> Result<ElfHeader64, ParseError> {
    if b.len() < ELF64_HEADER_SIZE {
        Err(ParseError::TooSmallHeader)
    } else {
        match spec_parse_ident(b.subrange(0, EI_NIDENT as int)) {
            Err(e) => Err(e),
            Ok(ident) => {
                let en = ident.e_endianness;
                match spec_file_type(spec_read_u16(b, 16, en)) {
                    None => Err(ParseError::UnsupportedFileType),
                    Some(filetype) => match spec_machine_type(spec_read_u16(b, 18, en)) {
                        None => Err(ParseError::UnsupportedMachineType),
                        Some(machine) => match spec_header_version(spec_read_u32(b, 20, en)) {
                            None => Err(ParseError::UnsupportedVersion),
                            Some(version) => Ok(
                                ElfHeader64 {
                                    e_ident: ident,
                                    e_type: filetype,
                                    e_machine: machine,
                                    e_version: version,
                                    e_entry: spec_read_u64(b, 24, en),
                                    e_phoff: spec_read_u64(b, 32, en),
                                    e_shoff: spec_read_u64(b, 40, en),
                                    e_flags: spec_read_u32(b, 48, en),
                                    e_ehsize: spec_read_u16(b, 52, en),
                                    e_phentsize: spec_read_u16(b, 54, en),
                                    e_phnum: spec_read_u16(b, 56, en),
                                    e_shentsize: spec_read_u16(b, 58, en),
                                    e_shnum: spec_read_u16(b, 60, en),
                                    e_shstrndx: spec_read_u16(b, 62, en),
                                },
                            ),
                        },
                    },
                }
            }
        }
    }
}

/// What 32-bit header decoding returns on the bytes `b`. The layout matches
/// the 64-bit one except that the entry point and the two table offsets are
/// four bytes wide, so every later field sits 12 bytes earlier.
pub open spec fn spec_parse_header32(b: Seq<u8>) -> Result<ElfHeader32, ParseError> {
    if b.len() < ELF32_HEADER_SIZE {
        Err(ParseError::TooSmallHeader)
    } else {
        match spec_parse_ident(b.subrange(0, EI_NIDENT as int)) {
            Err(e) => Err(e),
            Ok(ident) => {
                let en = ident.e_endianness;
                match spec_file_type(spec_read_u16(b, 16, en)) {
                    None => Err(ParseError::UnsupportedFileType),
                    Some(filetype) => match spec_machine_type(spec_read_u16(b, 18, en)) {
                        None => Err(ParseError::UnsupportedMachineType),
                        Some(machine) => match spec_header_version(spec_read_u32(b, 20, en)) {
                            None => Err(ParseError::UnsupportedVersion),
                            Some(version) => Ok(
                                ElfHeader32 {
                                    e_ident: ident,
                                    e_type: filetype,
                                    e_machine: machine,
                                    e_version: version,
                                    e_entry: spec_read_u32(b, 24, en),
                                    e_phoff: spec_read_u32(b, 28, en),
                                    e_shoff: spec_read_u32(b, 32, en),
                                    e_flags: spec_read_u32(b, 36, en),
                                    e_ehsize: spec_read_u16(b, 40, en),
                                    e_phentsize: spec_read_u16(b, 42, en),
                                    e_phnum: spec_read_u16(b, 44, en),
                                    e_shentsize: spec_read_u16(b, 46, en),
                                    e_shnum: spec_read_u16(b, 48, en),
                                    e_shstrndx: spec_read_u16(b, 50, en),
                                },
                            ),
                        },
                    },
                }
            }
        }
    }
}

/// The size in bytes of one program header table entry of a 64-bit file.
pub const PH64_ENTRY_SIZE: u16 = 56;

/// The size in bytes of one program header table entry of a 32-bit file.
pub const PH32_ENTRY_SIZE: u16 = 32;

/// What decoding the 64-bit program header entry at `off` returns. The
/// permission flags follow the kind immediately in this layout.
pub open spec fn spec_parse_ph64(b: Seq<u8>, off: int, e: Endianness) -> Result<
    ProgramHeader64,
    ParseError,
> {
    match spec_program_header_type(spec_read_u32(b, off, e)) {
        None => Err(ParseError::UnsupportedProgramHeaderType),
        Some(ph_type) => Ok(
            ProgramHeader64 {
                ph_type,
                flags: spec_read_u32(b, off + 4, e),
                offset: spec_read_u64(b, off + 8, e),
                vaddr: spec_read_u64(b, off + 16, e),
                paddr: spec_read_u64(b, off + 24, e),
                filesz: spec_read_u64(b, off + 32, e),
                memsz: spec_read_u64(b, off + 40, e),
                align: spec_read_u64(b, off + 48, e),
            },
        ),
    }
}

/// What decoding the 32-bit program header entry at `off` returns. In this
/// layout the permission flags sit after the sizes, not after the kind.
pub open spec fn spec_parse_ph32(b: Seq<u8>, off: int, e: Endianness) -> Result<
    ProgramHeader32,
    ParseError,
> {
    match spec_program_header_type(spec_read_u32(b, off, e)) {
        None => Err(ParseError::UnsupportedProgramHeaderType),
        Some(ph_type) => Ok(
            ProgramHeader32 {
                ph_type,
                offset: spec_read_u32(b, off + 4, e),
                vaddr: spec_read_u32(b, off + 8, e),
                paddr: spec_read_u32(b, off + 12, e),
                filesz: spec_read_u32(b, off + 16, e),
                memsz: spec_read_u32(b, off + 20, e),
                flags: spec_read_u32(b, off + 24, e),
                align: spec_read_u32(b, off + 28, e),
            },
        ),
    }
}

/// The first `n` entries of the 64-bit program header table, or the error of
/// the lowest-indexed entry that fails. Entry `i` starts `i` strides of
/// `entsize` bytes past `phoff`.
pub open spec fn spec_parse_ph_entries64(
    b: Seq<u8>,
    e: Endianness,
    phoff: int,
    entsize: int,
    n: nat,
) -> Result<Seq<ProgramHeader64>, ParseError>
    decreases n,
{
    if n == 0 {
        Ok(Seq::empty())
    } else {
        match spec_parse_ph_entries64(b, e, phoff, entsize, (n - 1) as nat) {
            Err(err) => Err(err),
            Ok(s) => match spec_parse_ph64(b, phoff + (n - 1) * entsize, e) {
                Err(err) => Err(err),
                Ok(p) => Ok(s.push(p)),
            },
        }
    }
}

/// The first `n` entries of the 32-bit program header table, or the error of
/// the lowest-indexed entry that fails.
pub open spec fn spec_parse_ph_entries32(
    b: Seq<u8>,
    e: Endianness,
    phoff: int,
    entsize: int,
    n: nat,
) -> Result<Seq<ProgramHeader32>, ParseError>
    decreases n,
{
    if n == 0 {
        Ok(Seq::empty())
    } else {
        match spec_parse_ph_entries32(b, e, phoff, entsize, (n - 1) as nat) {
            Err(err) => Err(err),
            Ok(s) => match spec_parse_ph32(b, phoff + (n - 1) * entsize, e) {
                Err(err) => Err(err),
                Ok(p) => Ok(s.push(p)),
            },
        }
    }
}

/// Whether the program header table the 64-bit header declares lies fully
/// inside the buffer: the byte range from `e_phoff` of `e_phnum` strides of
/// `e_phentsize` bytes fits, and each stride holds a whole entry. This is
/// checked once, before any entry is read.
pub open spec fn spec_ph_table_fits64(b: Seq<u8>, h: ElfHeader64) -> bool {
    &&& h.e_phoff + h.e_phnum * h.e_phentsize <= b.len()
    &&& h.e_phnum > 0 ==> h.e_phentsize >= PH64_ENTRY_SIZE
}

/// Whether the program header table the 32-bit header declares lies fully
/// inside the buffer.
pub open spec fn spec_ph_table_fits32(b: Seq<u8>, h: ElfHeader32) -> bool {
    &&& h.e_phoff + h.e_phnum * h.e_phentsize <= b.len()
    &&& h.e_phnum > 0 ==> h.e_phentsize >= PH32_ENTRY_SIZE
}

/// What decoding the whole 64-bit program header table returns: the entries
/// in on-disk order, a truncation error when the declared range does not fit
/// the buffer, or the first failing entry's error.
pub open spec fn spec_parse_ph_table64(b: Seq<u8>, h: ElfHeader64) -> Result<
    Seq<ProgramHeader64>,
    ParseError,
> {
    if !spec_ph_table_fits64(b, h) {
        Err(ParseError::TruncatedProgramHeaderTable)
    } else {
        spec_parse_ph_entries64(
            b,
            h.e_ident.e_endianness,
            h.e_phoff as int,
            h.e_phentsize as int,
            h.e_phnum as nat,
        )
    }
}

/// What decoding the whole 32-bit program header table returns.
pub open spec fn spec_parse_ph_table32(b: Seq<u8>, h: ElfHeader32) -> Result<
    Seq<ProgramHeader32>,
    ParseError,
> {
    if !spec_ph_table_fits32(b, h) {
        Err(ParseError::TruncatedProgramHeaderTable)
    } else {
        spec_parse_ph_entries32(
            b,
            h.e_ident.e_endianness,
            h.e_phoff as int,
            h.e_phentsize as int,
            h.e_phnum as nat,
        )
    }
}

/// Once the entry at index `i` fails, every longer prefix of the 64-bit table
/// fails with that same error: decoding is fail-fast at the first bad entry.
proof fn lemma_ph_entries64_err(
    b: Seq<u8>,
    e: Endianness,
    phoff: int,
    entsize: int,
    i: nat,
    n: nat,
    err: ParseError,
)
    requires
        i < n,
        spec_parse_ph_entries64(b, e, phoff, entsize, i) is Ok,
        spec_parse_ph64(b, phoff + i * entsize, e) == Err::<ProgramHeader64, ParseError>(err),
    ensures
        spec_parse_ph_entries64(b, e, phoff, entsize, n) == Err::<
            Seq<ProgramHeader64>,
            ParseError,
        >(err),
    decreases n,
{
    if n == i + 1 {
    } else {
        lemma_ph_entries64_err(b, e, phoff, entsize, i, (n - 1) as nat, err);
    }
}

/// Once the entry at index `i` fails, every longer prefix of the 32-bit table
/// fails with that same error.
proof fn lemma_ph_entries32_err(
    b: Seq<u8>,
    e: Endianness,
    phoff: int,
    entsize: int,
    i: nat,
    n: nat,
    err: ParseError,
)
    requires
        i < n,
        spec_parse_ph_entries32(b, e, phoff, entsize, i) is Ok,
        spec_parse_ph32(b, phoff + i * entsize, e) == Err::<ProgramHeader32, ParseError>(err),
    ensures
        spec_parse_ph_entries32(b, e, phoff, entsize, n) == Err::<
            Seq<ProgramHeader32>,
            ParseError,
        >(err),
    decreases n,
{
    if n == i + 1 {
    } else {
        lemma_ph_entries32_err(b, e, phoff, entsize, i, (n - 1) as nat, err);
    }
}

/// A decoded 64-bit header whose declared program header range — count times
/// entry size, starting at the table offset — exceeds the buffer makes the
/// whole decode fail with the table truncation error. No entry of such a
/// table is ever interpreted, and the verified decoder reads no byte out of
/// range on any input.
pub proof fn lemma_ph_table_truncated64(b: Seq<u8>, h: ElfHeader64)
    requires
        spec_parse_header64(b) == Ok::<ElfHeader64, ParseError>(h),
        h.e_phoff + h.e_phnum * h.e_phentsize > b.len(),
    ensures
        spec_parse64(b) == Err::<ElfView64, ParseError>(ParseError::TruncatedProgramHeaderTable),
{
}

/// The size in bytes of one section header table entry of a 64-bit file.
pub const SH64_ENTRY_SIZE: u16 = 64;

/// The size in bytes of one section header table entry of a 32-bit file.
pub const SH32_ENTRY_SIZE: u16 = 40;

/// The 64-bit section header entry at `off`, decoded. Every field is kept
/// raw: the name is a byte offset into the string table, resolved in a
/// second pass, and the kind, flags and auxiliary fields are stored as read.
pub open spec fn spec_parse_sh64(b: Seq<u8>, off: int, e: Endianness) -> SectionHeader64 {
    SectionHeader64 {
        sh_name: spec_read_u32(b, off, e),
        sh_type: spec_read_u32(b, off + 4, e),
        sh_flags: spec_read_u64(b, off + 8, e),
        sh_addr: spec_read_u64(b, off + 16, e),
        sh_offset: spec_read_u64(b, off + 24, e),
        sh_size: spec_read_u64(b, off + 32, e),
        sh_link: spec_read_u32(b, off + 40, e),
        sh_info: spec_read_u32(b, off + 44, e),
        sh_addralign: spec_read_u64(b, off + 48, e),
        sh_entsize: spec_read_u64(b, off + 56, e),
    }
}

/// The 32-bit section header entry at `off`, decoded.
pub open spec fn spec_parse_sh32(b: Seq<u8>, off: int, e: Endianness) -> SectionHeader32 {
    SectionHeader32 {
        sh_name: spec_read_u32(b, off, e),
        sh_type: spec_read_u32(b, off + 4, e),
        sh_flags: spec_read_u32(b, off + 8, e),
        sh_addr: spec_read_u32(b, off + 12, e),
        sh_offset: spec_read_u32(b, off + 16, e),
        sh_size: spec_read_u32(b, off + 20, e),
        sh_link: spec_read_u32(b, off + 24, e),
        sh_info: spec_read_u32(b, off + 28, e),
        sh_addralign: spec_read_u32(b, off + 32, e),
        sh_entsize: spec_read_u32(b, off + 36, e),
    }
}

/// Whether the section header table the 64-bit header declares lies fully
/// inside the buffer, checked once before any entry is read.
pub open spec fn spec_sh_table_fits64(b: Seq<u8>, h: ElfHeader64) -> bool {
    &&& h.e_shoff + h.e_shnum * h.e_shentsize <= b.len()
    &&& h.e_shnum > 0 ==> h.e_shentsize >= SH64_ENTRY_SIZE
}

/// Whether the section header table the 32-bit header declares lies fully
/// inside the buffer.
pub open spec fn spec_sh_table_fits32(b: Seq<u8>, h: ElfHeader32) -> bool {
    &&& h.e_shoff + h.e_shnum * h.e_shentsize <= b.len()
    &&& h.e_shnum > 0 ==> h.e_shentsize >= SH32_ENTRY_SIZE
}

/// What decoding the whole 64-bit section header table returns: all
/// `e_shnum` entries in on-disk order, or a truncation error when the
/// declared range does not fit the buffer. Individual entries cannot fail:
/// their fields are stored as read.
pub open spec fn spec_parse_sh_table64(b: Seq<u8>, h: ElfHeader64) -> Result<
    Seq<SectionHeader64>,
    ParseError,
> {
    if !spec_sh_table_fits64(b, h) {
        Err(ParseError::TruncatedSectionHeaderTable)
    } else {
        Ok(
            Seq::new(
                h.e_shnum as nat,
                |i: int| spec_parse_sh64(b, h.e_shoff + i * h.e_shentsize, h.e_ident.e_endianness),
            ),
        )
    }
}

/// What decoding the whole 32-bit section header table returns.
pub open spec fn spec_parse_sh_table32(b: Seq<u8>, h: ElfHeader32) -> Result<
    Seq<SectionHeader32>,
    ParseError,
> {
    if !spec_sh_table_fits32(b, h) {
        Err(ParseError::TruncatedSectionHeaderTable)
    } else {
        Ok(
            Seq::new(
                h.e_shnum as nat,
                |i: int| spec_parse_sh32(b, h.e_shoff + i * h.e_shentsize, h.e_ident.e_endianness),
            ),
        )
    }
}

/// The section kind code of a string table section.
pub const SHT_STRTAB: u32 = 3;

/// The position of the first NUL byte of `strtab` at or after `j`, if any.
pub open spec fn spec_name_end(strtab: Seq<u8>, j: int) -> Option<int>
    decreases strtab.len() - j,
{
    if j < 0 || j >= strtab.len() {
        None
    } else if strtab[j] == 0 {
        Some(j)
    } else {
        spec_name_end(strtab, j + 1)
    }
}

/// The NUL-terminated string beginning at byte `off` of the string table,
/// without its terminator. There is none when `off` lies at or beyond the
/// table's end, or when no terminator follows: such a name is rejected, never
/// silently truncated or emptied.
pub open spec fn spec_resolve_name(strtab: Seq<u8>, off: int) -> Option<Seq<u8>> {
    if 0 <= off < strtab.len() {
        match spec_name_end(strtab, off) {
            None => None,
            Some(end) => Some(strtab.subrange(off, end)),
        }
    } else {
        None
    }
}

/// The names at the first `n` offsets of `offs`, resolved against `strtab` in
/// order, or the rejection of the lowest-indexed offset that does not
/// resolve.
pub open spec fn spec_resolve_names_upto(strtab: Seq<u8>, offs: Seq<u32>, n: nat) -> Result<
    Seq<Seq<u8>>,
    ParseError,
>
    decreases n,
{
    if n == 0 {
        Ok(Seq::empty())
    } else {
        match spec_resolve_names_upto(strtab, offs, (n - 1) as nat) {
            Err(err) => Err(err),
            Ok(s) => match spec_resolve_name(strtab, offs[n - 1] as int) {
                None => Err(ParseError::InvalidStringTableIndex),
                Some(nm) => Ok(s.push(nm)),
            },
        }
    }
}

/// The name offsets of the 64-bit sections, in table order.
pub open spec fn spec_section_name_offsets64(shs: Seq<SectionHeader64>) -> Seq<u32> {
    Seq::new(shs.len(), |i: int| shs[i].sh_name)
}

/// The name offsets of the 32-bit sections, in table order.
pub open spec fn spec_section_name_offsets32(shs: Seq<SectionHeader32>) -> Seq<u32> {
    Seq::new(shs.len(), |i: int| shs[i].sh_name)
}

/// Whether the non-null string table index of the 64-bit header selects a
/// usable string table: it must name a decoded section, that section must
/// bear strings, and the section's byte range must lie inside the buffer.
pub open spec fn spec_strtab_ok64(b: Seq<u8>, h: ElfHeader64, shs: Seq<SectionHeader64>) -> bool {
    &&& (h.e_shstrndx as int) < shs.len()
    &&& shs[h.e_shstrndx as int].sh_type == SHT_STRTAB
    &&& shs[h.e_shstrndx as int].sh_offset + shs[h.e_shstrndx as int].sh_size <= b.len()
}

/// Whether the non-null string table index of the 32-bit header selects a
/// usable string table.
pub open spec fn spec_strtab_ok32(b: Seq<u8>, h: ElfHeader32, shs: Seq<SectionHeader32>) -> bool {
    &&& (h.e_shstrndx as int) < shs.len()
    &&& shs[h.e_shstrndx as int].sh_type == SHT_STRTAB
    &&& shs[h.e_shstrndx as int].sh_offset + shs[h.e_shstrndx as int].sh_size <= b.len()
}

/// The raw bytes of the string table section the 64-bit header names.
pub open spec fn spec_strtab64(b: Seq<u8>, h: ElfHeader64, shs: Seq<SectionHeader64>) -> Seq<u8> {
    let st = shs[h.e_shstrndx as int];
    b.subrange(st.sh_offset as int, st.sh_offset + st.sh_size)
}

/// The raw bytes of the string table section the 32-bit header names.
pub open spec fn spec_strtab32(b: Seq<u8>, h: ElfHeader32, shs: Seq<SectionHeader32>) -> Seq<u8> {
    let st = shs[h.e_shstrndx as int];
    b.subrange(st.sh_offset as int, st.sh_offset + st.sh_size)
}

/// What name resolution returns for the 64-bit sections `shs`. A zero (null)
/// string table index means no names are resolved and the sections keep
/// their raw offsets only; any other index must select a usable string table
/// and every section's name must then resolve.
pub open spec fn spec_resolve_names64(b: Seq<u8>, h: ElfHeader64, shs: Seq<SectionHeader64>) -> Result<
    Seq<Seq<u8>>,
    ParseError,
> {
    if h.e_shstrndx == 0 {
        Ok(Seq::empty())
    } else if !spec_strtab_ok64(b, h, shs) {
        Err(ParseError::InvalidStringTableIndex)
    } else {
        spec_resolve_names_upto(spec_strtab64(b, h, shs), spec_section_name_offsets64(shs), shs.len())
    }
}

/// What name resolution returns for the 32-bit sections `shs`.
pub open spec fn spec_resolve_names32(b: Seq<u8>, h: ElfHeader32, shs: Seq<SectionHeader32>) -> Result<
    Seq<Seq<u8>>,
    ParseError,
> {
    if h.e_shstrndx == 0 {
        Ok(Seq::empty())
    } else if !spec_strtab_ok32(b, h, shs) {
        Err(ParseError::InvalidStringTableIndex)
    } else {
        spec_resolve_names_upto(spec_strtab32(b, h, shs), spec_section_name_offsets32(shs), shs.len())
    }
}

/// What decoding a whole 64-bit file returns: the assembled image, or the
/// first error of the fixed pipeline header, program header table, section
/// header table, name resolution. No partially decoded image exists.
pub open spec fn spec_parse64(b: Seq<u8>) -> Result<ElfView64, ParseError> {
    match spec_parse_header64(b) {
        Err(e) => Err(e),
        Ok(header) => match spec_parse_ph_table64(b, header) {
            Err(e) => Err(e),
            Ok(phtable) => match spec_parse_sh_table64(b, header) {
                Err(e) => Err(e),
                Ok(shtable) => match spec_resolve_names64(b, header, shtable) {
                    Err(e) => Err(e),
                    Ok(section_names) => Ok(
                        ElfView64 { header, phtable, shtable, section_names, data: b },
                    ),
                },
            },
        },
    }
}

/// What decoding a whole 32-bit file returns.
pub open spec fn spec_parse32(b: Seq<u8>) -> Result<ElfView32, ParseError> {
    match spec_parse_header32(b) {
        Err(e) => Err(e),
        Ok(header) => match spec_parse_ph_table32(b, header) {
            Err(e) => Err(e),
            Ok(phtable) => match spec_parse_sh_table32(b, header) {
                Err(e) => Err(e),
                Ok(shtable) => match spec_resolve_names32(b, header, shtable) {
                    Err(e) => Err(e),
                    Ok(section_names) => Ok(
                        ElfView32 { header, phtable, shtable, section_names, data: b },
                    ),
                },
            },
        },
    }
}

/// When a 64-bit decode reaches name resolution with a usable string table,
/// one section whose name offset equals or exceeds that table's length makes
/// the whole decode fail with `InvalidStringTableIndex`: no truncated or
/// empty name is ever returned in its place.
pub proof fn lemma_parse64_rejects_bad_name_offset(
    b: Seq<u8>,
    h: ElfHeader64,
    shs: Seq<SectionHeader64>,
    i: int,
)
    requires
        spec_parse_header64(b) == Ok::<ElfHeader64, ParseError>(h),
        spec_parse_ph_table64(b, h) is Ok,
        spec_parse_sh_table64(b, h) == Ok::<Seq<SectionHeader64>, ParseError>(shs),
        h.e_shstrndx != 0,
        spec_strtab_ok64(b, h, shs),
        0 <= i < shs.len(),
        shs[i].sh_name >= spec_strtab64(b, h, shs).len(),
    ensures
        spec_parse64(b) == Err::<ElfView64, ParseError>(ParseError::InvalidStringTableIndex),
{
    lemma_resolve_names_out_of_range(
        spec_strtab64(b, h, shs),
        spec_section_name_offsets64(shs),
        shs.len(),
        i,
    );
}

/// A scan that saw no NUL from `off` up to `j` and a NUL at `j` has found
/// exactly the position `spec_name_end` names.
proof fn lemma_name_end_found(strtab: Seq<u8>, off: int, j: int)
    requires
        0 <= off <= j < strtab.len(),
        forall|k: int| off <= k < j ==> strtab[k] != 0,
        strtab[j] == 0,
    ensures
        spec_name_end(strtab, off) == Some(j),
    decreases j - off,
{
    if off < j {
        lemma_name_end_found(strtab, off + 1, j);
    }
}

/// A scan that saw no NUL from `off` to the table's end shows there is no
/// terminator at all.
proof fn lemma_name_end_none(strtab: Seq<u8>, off: int)
    requires
        0 <= off <= strtab.len(),
        forall|k: int| off <= k < strtab.len() ==> strtab[k] != 0,
    ensures
        spec_name_end(strtab, off) is None,
    decreases strtab.len() - off,
{
    if off < strtab.len() {
        lemma_name_end_none(strtab, off + 1);
    }
}

/// Name resolution fails only by rejecting an offset, so a failed resolution
/// is always `InvalidStringTableIndex`.
proof fn lemma_names_upto_err_is_invalid(strtab: Seq<u8>, offs: Seq<u32>, n: nat)
    ensures
        spec_resolve_names_upto(strtab, offs, n) is Err
            ==> spec_resolve_names_upto(strtab, offs, n) == Err::<Seq<Seq<u8>>, ParseError>(
                ParseError::InvalidStringTableIndex,
            ),
    decreases n,
{
    if n > 0 {
        lemma_names_upto_err_is_invalid(strtab, offs, (n - 1) as nat);
    }
}

/// Once the offset at index `i` fails to resolve, every longer prefix of the
/// name resolution fails with `InvalidStringTableIndex`.
proof fn lemma_names_upto_err(strtab: Seq<u8>, offs: Seq<u32>, i: nat, n: nat)
    requires
        i < n,
        spec_resolve_names_upto(strtab, offs, i) is Ok,
        spec_resolve_name(strtab, offs[i as int] as int) is None,
    ensures
        spec_resolve_names_upto(strtab, offs, n) == Err::<Seq<Seq<u8>>, ParseError>(
            ParseError::InvalidStringTableIndex,
        ),
    decreases n,
{
    if n == i + 1 {
    } else {
        lemma_names_upto_err(strtab, offs, i, (n - 1) as nat);
    }
}

/// One section name offset at or beyond the string table's length makes the
/// whole resolution fail with `InvalidStringTableIndex`: a name is never
/// silently emptied or truncated instead.
pub proof fn lemma_resolve_names_out_of_range(strtab: Seq<u8>, offs: Seq<u32>, n: nat, i: int)
    requires
        0 <= i < n,
        offs[i] >= strtab.len(),
    ensures
        spec_resolve_names_upto(strtab, offs, n) == Err::<Seq<Seq<u8>>, ParseError>(
            ParseError::InvalidStringTableIndex,
        ),
    decreases n,
{
    if i == n - 1 {
        lemma_names_upto_err_is_invalid(strtab, offs, (n - 1) as nat);
    } else {
        lemma_resolve_names_out_of_range(strtab, offs, (n - 1) as nat, i);
    }
}

/// Resolves the NUL-terminated string at byte `off` of the string table.
fn resolve_name(strtab: &[u8], off: u32) -> (r: Option<Vec<u8>>)
    ensures
        (r is Some) == (spec_resolve_name(strtab@, off as int) is Some),
        r is Some ==> r->0@ == spec_resolve_name(strtab@, off as int)->0,
{
    let n = strtab.len();
    if off as u64 >= n as u64 {
        return None;
    }
    let start = off as usize;
    let mut j = start;
    while j < n
        invariant
            start == off as int,
            start < n,
            start <= j <= n,
            n == strtab@.len(),
            forall|k: int| start <= k < j ==> strtab@[k] != 0,
        decreases n - j,
    {
        if *slice_index_get(strtab, j) == 0 {
            proof {
                lemma_name_end_found(strtab@, start as int, j as int);
            }
            let name = slice_to_vec(slice_subrange(strtab, start, j));
            proof {
                assert(name@ =~= strtab@.subrange(start as int, j as int));
            }
            return Some(name);
        }
        j = j + 1;
    }
    proof {
        lemma_name_end_none(strtab@, start as int);
    }
    None
}

/// Entry `i` of a table of `n` entries of `entsize`-byte strides lies fully
/// inside a buffer the whole table fits in, for any record of `entry` bytes
/// with `entry <= entsize`.
proof fn lemma_entry_in_range(off: int, entsize: int, i: int, n: int, len: int, entry: int)
    requires
        0 <= off,
        0 <= entry <= entsize,
        0 <= i < n,
        off + n * entsize <= len,
    ensures
        0 <= off + i * entsize,
        off + i * entsize + entry <= len,
{
    vstd::arithmetic::mul::lemma_mul_nonnegative(i, entsize);
    vstd::arithmetic::mul::lemma_mul_inequality(i + 1, n, entsize);
    vstd::arithmetic::mul::lemma_mul_is_distributive_add_other_way(entsize, i, 1);
}

impl Elf64 {
    /// Decodes the fixed 64-byte file header at the start of `h`.
    pub fn parse_header(h: &[u8]) -> (r: Result<ElfHeader64, ParseError>)
        ensures
            r == spec_parse_header64(h@),
    {
        if h.len() < ELF64_HEADER_SIZE {
            return Err(ParseError::TooSmallHeader);
        }
        let ident_bytes = slice_subrange(h, 0, EI_NIDENT);
        let ident = match parse_ident(ident_bytes) {
            Ok(id) => id,
            Err(e) => {
                return Err(e);
            }
        };
        let endian = ident.e_endianness;
        let filetype = match read_u16_at(h, 16, endian) {
            0 => FileType::ET_NONE,
            1 => FileType::ET_NONE,
            2 => FileType::ET_EXEC,
            3 => FileType::ET_DYN,
            4 => FileType::ET_CORE,
            _ => {
                return Err(ParseError::UnsupportedFileType);
            }
        };
        let machine = match read_u16_at(h, 18, endian) {
            0 => MachineType::NoMachine,
            2 => MachineType::SPARC,
            3 => MachineType::Intel_80386,
            4 => MachineType::Motorola_68000,
            7 => MachineType::Intel_i860,
            8 => MachineType::MIPS_I,
            19 => MachineType::Intel_i960,
            20 => MachineType::PowerPC,
            40 => MachineType::ARM,
            50 => MachineType::Intel_IA64,
            62 => MachineType::x64,
            243 => MachineType::RISC_V,
            _ => {
                return Err(ParseError::UnsupportedMachineType);
            }
        };
        let version = match read_u32_at(h, 20, endian) {
            0 => HeaderVersion::NoVersion,
            1 => HeaderVersion::Current,
            _ => {
                return Err(ParseError::UnsupportedVersion);
            }
        };
        Ok(
            ElfHeader64 {
                e_ident: ident,
                e_type: filetype,
                e_machine: machine,
                e_version: version,
                e_entry: read_u64_at(h, 24, endian),
                e_phoff: read_u64_at(h, 32, endian),
                e_shoff: read_u64_at(h, 40, endian),
                e_flags: read_u32_at(h, 48, endian),
                e_ehsize: read_u16_at(h, 52, endian),
                e_phentsize: read_u16_at(h, 54, endian),
                e_phnum: read_u16_at(h, 56, endian),
                e_shentsize: read_u16_at(h, 58, endian),
                e_shnum: read_u16_at(h, 60, endian),
                e_shstrndx: read_u16_at(h, 62, endian),
            },
        )
    }

    /// Decodes the program header table that `header` declares in `f`. The
    /// table's whole byte range is validated against the buffer once, before
    /// any entry is read; the entries come back in on-disk order.
    pub fn parse_ph_table(f: &[u8], header: &ElfHeader64) -> (r: Result<
        Vec<ProgramHeader64>,
        ParseError,
    >)
        ensures
            (r is Ok) == (spec_parse_ph_table64(f@, *header) is Ok),
            r is Ok ==> r->Ok_0@ == spec_parse_ph_table64(f@, *header)->Ok_0,
            r is Err ==> r->Err_0 == spec_parse_ph_table64(f@, *header)->Err_0,
    {
        let len = f.len() as u64;
        let phoff = header.e_phoff;
        let phnum = header.e_phnum;
        let entsize = header.e_phentsize;
        let endian = header.e_ident.e_endianness;
        if phnum > 0 && entsize < PH64_ENTRY_SIZE {
            proof {
                vstd::arithmetic::mul::lemma_mul_nonnegative(phnum as int, entsize as int);
            }
            return Err(ParseError::TruncatedProgramHeaderTable);
        }
        proof {
            vstd::arithmetic::mul::lemma_mul_upper_bound(
                phnum as int,
                0xFFFF,
                entsize as int,
                0xFFFF,
            );
            vstd::arithmetic::mul::lemma_mul_nonnegative(phnum as int, entsize as int);
        }
        let table_bytes = (phnum as u64) * (entsize as u64);
        if phoff > len || table_bytes > len - phoff {
            return Err(ParseError::TruncatedProgramHeaderTable);
        }
        let mut phs: Vec<ProgramHeader64> = Vec::new();
        let mut i: u16 = 0;
        proof {
            assert(phs@ =~= Seq::<ProgramHeader64>::empty());
        }
        while i < phnum
            invariant
                i <= phnum,
                phs@.len() == i as nat,
                spec_ph_table_fits64(f@, *header),
                phoff == header.e_phoff,
                phnum == header.e_phnum,
                entsize == header.e_phentsize,
                endian == header.e_ident.e_endianness,
                len == f@.len(),
                f@.len() <= usize::MAX,
                spec_parse_ph_entries64(f@, endian, phoff as int, entsize as int, i as nat)
                    == Ok::<Seq<ProgramHeader64>, ParseError>(phs@),
            decreases phnum - i,
        {
            proof {
                lemma_entry_in_range(
                    phoff as int,
                    entsize as int,
                    i as int,
                    phnum as int,
                    f@.len() as int,
                    PH64_ENTRY_SIZE as int,
                );
                vstd::arithmetic::mul::lemma_mul_upper_bound(
                    i as int,
                    0xFFFF,
                    entsize as int,
                    0xFFFF,
                );
                assert(((i as u64) as int) * ((entsize as u64) as int) == (i as int) * (
                entsize as int));
            }
            let stride = (i as u64) * (entsize as u64);
            let base = (phoff + stride) as usize;
            proof {
                assert(base as int == phoff + i * entsize);
                assert(base + PH64_ENTRY_SIZE <= f@.len());
            }
            let ph_type = match read_u32_at(f, base, endian) {
                0 => ProgramHeaderType::PT_NULL,
                1 => ProgramHeaderType::PT_LOAD,
                2 => ProgramHeaderType::PT_DYNAMIC,
                3 => ProgramHeaderType::PT_INTERP,
                4 => ProgramHeaderType::PT_NOTE,
                5 => ProgramHeaderType::PT_SHLIB,
                6 => ProgramHeaderType::PT_PHDR,
                7 => ProgramHeaderType::PT_TLS,
                0x6474E550 => ProgramHeaderType::GNU_EH_FRAME,
                0x6474E551 => ProgramHeaderType::GNU_STACK,
                0x6474E552 => ProgramHeaderType::GNU_RELRO,
                0x6474E553 => ProgramHeaderType::GNU_PROPERTY,
                _ => {
                    proof {
                        lemma_ph_entries64_err(
                            f@,
                            endian,
                            phoff as int,
                            entsize as int,
                            i as nat,
                            phnum as nat,
                            ParseError::UnsupportedProgramHeaderType,
                        );
                    }
                    return Err(ParseError::UnsupportedProgramHeaderType);
                }
            };
            let ph = ProgramHeader64 {
                ph_type,
                flags: read_u32_at(f, base + 4, endian),
                offset: read_u64_at(f, base + 8, endian),
                vaddr: read_u64_at(f, base + 16, endian),
                paddr: read_u64_at(f, base + 24, endian),
                filesz: read_u64_at(f, base + 32, endian),
                memsz: read_u64_at(f, base + 40, endian),
                align: read_u64_at(f, base + 48, endian),
            };
            proof {
                assert(spec_parse_ph_entries64(
                    f@,
                    endian,
                    phoff as int,
                    entsize as int,
                    (i + 1) as nat,
                ) == Ok::<Seq<ProgramHeader64>, ParseError>(phs@.push(ph)));
            }
            phs.push(ph);
            i = i + 1;
        }
        Ok(phs)
    }

    /// Decodes the section header table that `header` declares in `f`. The
    /// table's whole byte range is validated against the buffer once, before
    /// any entry is read; names stay as raw string table offsets here.
    pub fn parse_sh_table(f: &[u8], header: &ElfHeader64) -> (r: Result<
        Vec<SectionHeader64>,
        ParseError,
    >)
        ensures
            (r is Ok) == (spec_parse_sh_table64(f@, *header) is Ok),
            r is Ok ==> r->Ok_0@ == spec_parse_sh_table64(f@, *header)->Ok_0,
            r is Err ==> r->Err_0 == spec_parse_sh_table64(f@, *header)->Err_0,
    {
        let len = f.len() as u64;
        let shoff = header.e_shoff;
        let shnum = header.e_shnum;
        let entsize = header.e_shentsize;
        let endian = header.e_ident.e_endianness;
        if shnum > 0 && entsize < SH64_ENTRY_SIZE {
            proof {
                vstd::arithmetic::mul::lemma_mul_nonnegative(shnum as int, entsize as int);
            }
            return Err(ParseError::TruncatedSectionHeaderTable);
        }
        proof {
            vstd::arithmetic::mul::lemma_mul_upper_bound(
                shnum as int,
                0xFFFF,
                entsize as int,
                0xFFFF,
            );
            vstd::arithmetic::mul::lemma_mul_nonnegative(shnum as int, entsize as int);
        }
        let table_bytes = (shnum as u64) * (entsize as u64);
        if shoff > len || table_bytes > len - shoff {
            return Err(ParseError::TruncatedSectionHeaderTable);
        }
        let mut shs: Vec<SectionHeader64> = Vec::new();
        let mut i: u16 = 0;
        while i < shnum
            invariant
                i <= shnum,
                shs@.len() == i as nat,
                spec_sh_table_fits64(f@, *header),
                shoff == header.e_shoff,
                shnum == header.e_shnum,
                entsize == header.e_shentsize,
                endian == header.e_ident.e_endianness,
                len == f@.len(),
                f@.len() <= usize::MAX,
                forall|j: int|
                    0 <= j < i ==> shs@[j] == spec_parse_sh64(
                        f@,
                        shoff + j * entsize,
                        endian,
                    ),
            decreases shnum - i,
        {
            proof {
                lemma_entry_in_range(
                    shoff as int,
                    entsize as int,
                    i as int,
                    shnum as int,
                    f@.len() as int,
                    SH64_ENTRY_SIZE as int,
                );
                vstd::arithmetic::mul::lemma_mul_upper_bound(
                    i as int,
                    0xFFFF,
                    entsize as int,
                    0xFFFF,
                );
                assert(((i as u64) as int) * ((entsize as u64) as int) == (i as int) * (
                entsize as int));
            }
            let stride = (i as u64) * (entsize as u64);
            let base = (shoff + stride) as usize;
            proof {
                assert(base as int == shoff + i * entsize);
                assert(base + SH64_ENTRY_SIZE <= f@.len());
            }
            let sh = SectionHeader64 {
                sh_name: read_u32_at(f, base, endian),
                sh_type: read_u32_at(f, base + 4, endian),
                sh_flags: read_u64_at(f, base + 8, endian),
                sh_addr: read_u64_at(f, base + 16, endian),
                sh_offset: read_u64_at(f, base + 24, endian),
                sh_size: read_u64_at(f, base + 32, endian),
                sh_link: read_u32_at(f, base + 40, endian),
                sh_info: read_u32_at(f, base + 44, endian),
                sh_addralign: read_u64_at(f, base + 48, endian),
                sh_entsize: read_u64_at(f, base + 56, endian),
            };
            proof {
                assert(sh == spec_parse_sh64(f@, shoff + i * entsize, endian));
            }
            shs.push(sh);
            i = i + 1;
        }
        proof {
            assert(shs@ =~= spec_parse_sh_table64(f@, *header)->Ok_0);
        }
        Ok(shs)
    }

    /// Resolves every section's name against the string table section the
    /// header names, in table order. A zero string table index resolves
    /// nothing; any other index must select a string-bearing section whose
    /// bytes lie inside the buffer.
    pub fn resolve_section_names(f: &[u8], header: &ElfHeader64, shs: &Vec<SectionHeader64>) -> (r:
        Result<Vec<Vec<u8>>, ParseError>)
        ensures
            (r is Ok) == (spec_resolve_names64(f@, *header, shs@) is Ok),
            r is Ok ==> r->Ok_0.deep_view() == spec_resolve_names64(f@, *header, shs@)->Ok_0,
            r is Err ==> r->Err_0 == spec_resolve_names64(f@, *header, shs@)->Err_0,
    {
        if header.e_shstrndx == 0 {
            let names: Vec<Vec<u8>> = Vec::new();
            proof {
                assert(names.deep_view() =~= Seq::<Seq<u8>>::empty());
            }
            return Ok(names);
        }
        let stx = header.e_shstrndx as usize;
        if stx >= shs.len() {
            return Err(ParseError::InvalidStringTableIndex);
        }
        let st_type = shs[stx].sh_type;
        let st_off = shs[stx].sh_offset;
        let st_size = shs[stx].sh_size;
        if st_type != SHT_STRTAB {
            return Err(ParseError::InvalidStringTableIndex);
        }
        let len = f.len() as u64;
        if st_off > len || st_size > len - st_off {
            return Err(ParseError::InvalidStringTableIndex);
        }
        let strtab = slice_subrange(f, st_off as usize, (st_off + st_size) as usize);
        proof {
            assert(strtab@ == spec_strtab64(f@, *header, shs@));
        }
        let mut names: Vec<Vec<u8>> = Vec::new();
        let mut i: usize = 0;
        proof {
            assert(names.deep_view() =~= Seq::<Seq<u8>>::empty());
        }
        while i < shs.len()
            invariant
                i <= shs@.len(),
                names@.len() == i,
                strtab@ == spec_strtab64(f@, *header, shs@),
                header.e_shstrndx != 0,
                spec_strtab_ok64(f@, *header, shs@),
                spec_resolve_names_upto(strtab@, spec_section_name_offsets64(shs@), i as nat)
                    == Ok::<Seq<Seq<u8>>, ParseError>(names.deep_view()),
            decreases shs@.len() - i,
        {
            let offv = shs[i].sh_name;
            proof {
                assert(spec_section_name_offsets64(shs@)[i as int] == offv);
            }
            match resolve_name(strtab, offv) {
                Some(nm) => {
                    let ghost prev = names.deep_view();
                    let ghost nmv = nm@;
                    proof {
                        assert(spec_resolve_names_upto(
                            strtab@,
                            spec_section_name_offsets64(shs@),
                            (i + 1) as nat,
                        ) == Ok::<Seq<Seq<u8>>, ParseError>(prev.push(nmv)));
                    }
                    names.push(nm);
                    proof {
                        assert(names.deep_view() =~~= prev.push(nmv));
                    }
                }
                None => {
                    proof {
                        lemma_names_upto_err(
                            strtab@,
                            spec_section_name_offsets64(shs@),
                            i as nat,
                            shs@.len(),
                        );
                    }
                    return Err(ParseError::InvalidStringTableIndex);
                }
            }
            i = i + 1;
        }
        Ok(names)
    }

    /// Decodes a complete 64-bit ELF image from `f`: header, program header
    /// table, section header table and section names, in that fixed order,
    /// stopping at the first error. The buffer is kept in the image.
    pub fn parse(f: &[u8]) -> (r: Result<Elf64, ParseError>)
        ensures
            (r is Ok) == (spec_parse64(f@) is Ok),
            r is Ok ==> r->Ok_0@ == spec_parse64(f@)->Ok_0,
            r is Err ==> r->Err_0 == spec_parse64(f@)->Err_0,
    {
        let header = match Self::parse_header(f) {
            Ok(h) => h,
            Err(e) => {
                return Err(e);
            }
        };
        let phtable = match Self::parse_ph_table(f, &header) {
            Ok(t) => t,
            Err(e) => {
                return Err(e);
            }
        };
        let shtable = match Self::parse_sh_table(f, &header) {
            Ok(t) => t,
            Err(e) => {
                return Err(e);
            }
        };
        let section_names = match Self::resolve_section_names(f, &header, &shtable) {
            Ok(t) => t,
            Err(e) => {
                return Err(e);
            }
        };
        let data = slice_to_vec(f);
        let img = Elf64::new(header, phtable, shtable, section_names, data);
        proof {
            assert(img@ =~~= spec_parse64(f@)->Ok_0);
        }
        Ok(img)
    }
}

impl Elf32 {
    /// Decodes the fixed 52-byte file header at the start of `h`.
    pub fn parse_header(h: &[u8]) -> (r: Result<ElfHeader32, ParseError>)
        ensures
            r == spec_parse_header32(h@),
    {
        if h.len() < ELF32_HEADER_SIZE {
            return Err(ParseError::TooSmallHeader);
        }
        let ident_bytes = slice_subrange(h, 0, EI_NIDENT);
        let ident = match parse_ident(ident_bytes) {
            Ok(id) => id,
            Err(e) => {
                return Err(e);
            }
        };
        let endian = ident.e_endianness;
        let filetype = match read_u16_at(h, 16, endian) {
            0 => FileType::ET_NONE,
            1 => FileType::ET_NONE,
            2 => FileType::ET_EXEC,
            3 => FileType::ET_DYN,
            4 => FileType::ET_CORE,
            _ => {
                return Err(ParseError::UnsupportedFileType);
            }
        };
        let machine = match read_u16_at(h, 18, endian) {
            0 => MachineType::NoMachine,
            2 => MachineType::SPARC,
            3 => MachineType::Intel_80386,
            4 => MachineType::Motorola_68000,
            7 => MachineType::Intel_i860,
            8 => MachineType::MIPS_I,
            19 => MachineType::Intel_i960,
            20 => MachineType::PowerPC,
            40 => MachineType::ARM,
            50 => MachineType::Intel_IA64,
            62 => MachineType::x64,
            243 => MachineType::RISC_V,
            _ => {
                return Err(ParseError::UnsupportedMachineType);
            }
        };
        let version = match read_u32_at(h, 20, endian) {
            0 => HeaderVersion::NoVersion,
            1 => HeaderVersion::Current,
            _ => {
                return Err(ParseError::UnsupportedVersion);
            }
        };
        Ok(
            ElfHeader32 {
                e_ident: ident,
                e_type: filetype,
                e_machine: machine,
                e_version: version,
                e_entry: read_u32_at(h, 24, endian),
                e_phoff: read_u32_at(h, 28, endian),
                e_shoff: read_u32_at(h, 32, endian),
                e_flags: read_u32_at(h, 36, endian),
                e_ehsize: read_u16_at(h, 40, endian),
                e_phentsize: read_u16_at(h, 42, endian),
                e_phnum: read_u16_at(h, 44, endian),
                e_shentsize: read_u16_at(h, 46, endian),
                e_shnum: read_u16_at(h, 48, endian),
                e_shstrndx: read_u16_at(h, 50, endian),
            },
        )
    }

    /// Decodes the program header table that `header` declares in `f`. The
    /// table's whole byte range is validated against the buffer once, before
    /// any entry is read; the entries come back in on-disk order.
    pub fn parse_ph_table(f: &[u8], header: &ElfHeader32) -> (r: Result<
        Vec<ProgramHeader32>,
        ParseError,
    >)
        ensures
            (r is Ok) == (spec_parse_ph_table32(f@, *header) is Ok),
            r is Ok ==> r->Ok_0@ == spec_parse_ph_table32(f@, *header)->Ok_0,
            r is Err ==> r->Err_0 == spec_parse_ph_table32(f@, *header)->Err_0,
    {
        let len = f.len() as u64;
        let phoff = header.e_phoff as u64;
        let phnum = header.e_phnum;
        let entsize = header.e_phentsize;
        let endian = header.e_ident.e_endianness;
        if phnum > 0 && entsize < PH32_ENTRY_SIZE {
            proof {
                vstd::arithmetic::mul::lemma_mul_nonnegative(phnum as int, entsize as int);
            }
            return Err(ParseError::TruncatedProgramHeaderTable);
        }
        proof {
            vstd::arithmetic::mul::lemma_mul_upper_bound(
                phnum as int,
                0xFFFF,
                entsize as int,
                0xFFFF,
            );
            vstd::arithmetic::mul::lemma_mul_nonnegative(phnum as int, entsize as int);
        }
        let table_bytes = (phnum as u64) * (entsize as u64);
        if phoff > len || table_bytes > len - phoff {
            return Err(ParseError::TruncatedProgramHeaderTable);
        }
        let mut phs: Vec<ProgramHeader32> = Vec::new();
        let mut i: u16 = 0;
        proof {
            assert(phs@ =~= Seq::<ProgramHeader32>::empty());
        }
        while i < phnum
            invariant
                i <= phnum,
                phs@.len() == i as nat,
                spec_ph_table_fits32(f@, *header),
                phoff == header.e_phoff,
                phnum == header.e_phnum,
                entsize == header.e_phentsize,
                endian == header.e_ident.e_endianness,
                len == f@.len(),
                f@.len() <= usize::MAX,
                spec_parse_ph_entries32(f@, endian, phoff as int, entsize as int, i as nat)
                    == Ok::<Seq<ProgramHeader32>, ParseError>(phs@),
            decreases phnum - i,
        {
            proof {
                lemma_entry_in_range(
                    phoff as int,
                    entsize as int,
                    i as int,
                    phnum as int,
                    f@.len() as int,
                    PH32_ENTRY_SIZE as int,
                );
                vstd::arithmetic::mul::lemma_mul_upper_bound(
                    i as int,
                    0xFFFF,
                    entsize as int,
                    0xFFFF,
                );
                assert(((i as u64) as int) * ((entsize as u64) as int) == (i as int) * (
                entsize as int));
            }
            let stride = (i as u64) * (entsize as u64);
            let base = (phoff + stride) as usize;
            proof {
                assert(base as int == phoff + i * entsize);
                assert(base + PH32_ENTRY_SIZE <= f@.len());
            }
            let ph_type = match read_u32_at(f, base, endian) {
                0 => ProgramHeaderType::PT_NULL,
                1 => ProgramHeaderType::PT_LOAD,
                2 => ProgramHeaderType::PT_DYNAMIC,
                3 => ProgramHeaderType::PT_INTERP,
                4 => ProgramHeaderType::PT_NOTE,
                5 => ProgramHeaderType::PT_SHLIB,
                6 => ProgramHeaderType::PT_PHDR,
                7 => ProgramHeaderType::PT_TLS,
                0x6474E550 => ProgramHeaderType::GNU_EH_FRAME,
                0x6474E551 => ProgramHeaderType::GNU_STACK,
                0x6474E552 => ProgramHeaderType::GNU_RELRO,
                0x6474E553 => ProgramHeaderType::GNU_PROPERTY,
                _ => {
                    proof {
                        lemma_ph_entries32_err(
                            f@,
                            endian,
                            phoff as int,
                            entsize as int,
                            i as nat,
                            phnum as nat,
                            ParseError::UnsupportedProgramHeaderType,
                        );
                    }
                    return Err(ParseError::UnsupportedProgramHeaderType);
                }
            };
            let ph = ProgramHeader32 {
                ph_type,
                offset: read_u32_at(f, base + 4, endian),
                vaddr: read_u32_at(f, base + 8, endian),
                paddr: read_u32_at(f, base + 12, endian),
                filesz: read_u32_at(f, base + 16, endian),
                memsz: read_u32_at(f, base + 20, endian),
                flags: read_u32_at(f, base + 24, endian),
                align: read_u32_at(f, base + 28, endian),
            };
            proof {
                assert(spec_parse_ph_entries32(
                    f@,
                    endian,
                    phoff as int,
                    entsize as int,
                    (i + 1) as nat,
                ) == Ok::<Seq<ProgramHeader32>, ParseError>(phs@.push(ph)));
            }
            phs.push(ph);
            i = i + 1;
        }
        Ok(phs)
    }

    /// Decodes the section header table that `header` declares in `f`. The
    /// table's whole byte range is validated against the buffer once, before
    /// any entry is read; names stay as raw string table offsets here.
    pub fn parse_sh_table(f: &[u8], header: &ElfHeader32) -> (r: Result<
        Vec<SectionHeader32>,
        ParseError,
    >)
        ensures
            (r is Ok) == (spec_parse_sh_table32(f@, *header) is Ok),
            r is Ok ==> r->Ok_0@ == spec_parse_sh_table32(f@, *header)->Ok_0,
            r is Err ==> r->Err_0 == spec_parse_sh_table32(f@, *header)->Err_0,
    {
        let len = f.len() as u64;
        let shoff = header.e_shoff as u64;
        let shnum = header.e_shnum;
        let entsize = header.e_shentsize;
        let endian = header.e_ident.e_endianness;
        if shnum > 0 && entsize < SH32_ENTRY_SIZE {
            proof {
                vstd::arithmetic::mul::lemma_mul_nonnegative(shnum as int, entsize as int);
            }
            return Err(ParseError::TruncatedSectionHeaderTable);
        }
        proof {
            vstd::arithmetic::mul::lemma_mul_upper_bound(
                shnum as int,
                0xFFFF,
                entsize as int,
                0xFFFF,
            );
            vstd::arithmetic::mul::lemma_mul_nonnegative(shnum as int, entsize as int);
        }
        let table_bytes = (shnum as u64) * (entsize as u64);
        if shoff > len || table_bytes > len - shoff {
            return Err(ParseError::TruncatedSectionHeaderTable);
        }
        let mut shs: Vec<SectionHeader32> = Vec::new();
        let mut i: u16 = 0;
        while i < shnum
            invariant
                i <= shnum,
                shs@.len() == i as nat,
                spec_sh_table_fits32(f@, *header),
                shoff == header.e_shoff,
                shnum == header.e_shnum,
                entsize == header.e_shentsize,
                endian == header.e_ident.e_endianness,
                len == f@.len(),
                f@.len() <= usize::MAX,
                forall|j: int|
                    0 <= j < i ==> shs@[j] == spec_parse_sh32(
                        f@,
                        shoff + j * entsize,
                        endian,
                    ),
            decreases shnum - i,
        {
            proof {
                lemma_entry_in_range(
                    shoff as int,
                    entsize as int,
                    i as int,
                    shnum as int,
                    f@.len() as int,
                    SH32_ENTRY_SIZE as int,
                );
                vstd::arithmetic::mul::lemma_mul_upper_bound(
                    i as int,
                    0xFFFF,
                    entsize as int,
                    0xFFFF,
                );
                assert(((i as u64) as int) * ((entsize as u64) as int) == (i as int) * (
                entsize as int));
            }
            let stride = (i as u64) * (entsize as u64);
            let base = (shoff + stride) as usize;
            proof {
                assert(base as int == shoff + i * entsize);
                assert(base + SH32_ENTRY_SIZE <= f@.len());
            }
            let sh = SectionHeader32 {
                sh_name: read_u32_at(f, base, endian),
                sh_type: read_u32_at(f, base + 4, endian),
                sh_flags: read_u32_at(f, base + 8, endian),
                sh_addr: read_u32_at(f, base + 12, endian),
                sh_offset: read_u32_at(f, base + 16, endian),
                sh_size: read_u32_at(f, base + 20, endian),
                sh_link: read_u32_at(f, base + 24, endian),
                sh_info: read_u32_at(f, base + 28, endian),
                sh_addralign: read_u32_at(f, base + 32, endian),
                sh_entsize: read_u32_at(f, base + 36, endian),
            };
            proof {
                assert(sh == spec_parse_sh32(f@, shoff + i * entsize, endian));
            }
            shs.push(sh);
            i = i + 1;
        }
        proof {
            assert(shs@ =~= spec_parse_sh_table32(f@, *header)->Ok_0);
        }
        Ok(shs)
    }

    /// Resolves every section's name against the string table section the
    /// header names, in table order. A zero string table index resolves
    /// nothing; any other index must select a string-bearing section whose
    /// bytes lie inside the buffer.
    pub fn resolve_section_names(f: &[u8], header: &ElfHeader32, shs: &Vec<SectionHeader32>) -> (r:
        Result<Vec<Vec<u8>>, ParseError>)
        ensures
            (r is Ok) == (spec_resolve_names32(f@, *header, shs@) is Ok),
            r is Ok ==> r->Ok_0.deep_view() == spec_resolve_names32(f@, *header, shs@)->Ok_0,
            r is Err ==> r->Err_0 == spec_resolve_names32(f@, *header, shs@)->Err_0,
    {
        if header.e_shstrndx == 0 {
            let names: Vec<Vec<u8>> = Vec::new();
            proof {
                assert(names.deep_view() =~= Seq::<Seq<u8>>::empty());
            }
            return Ok(names);
        }
        let stx = header.e_shstrndx as usize;
        if stx >= shs.len() {
            return Err(ParseError::InvalidStringTableIndex);
        }
        let st_type = shs[stx].sh_type;
        let st_off = shs[stx].sh_offset as u64;
        let st_size = shs[stx].sh_size as u64;
        if st_type != SHT_STRTAB {
            return Err(ParseError::InvalidStringTableIndex);
        }
        let len = f.len() as u64;
        if st_off > len || st_size > len - st_off {
            return Err(ParseError::InvalidStringTableIndex);
        }
        let strtab = slice_subrange(f, st_off as usize, (st_off + st_size) as usize);
        proof {
            assert(strtab@ == spec_strtab32(f@, *header, shs@));
        }
        let mut names: Vec<Vec<u8>> = Vec::new();
        let mut i: usize = 0;
        proof {
            assert(names.deep_view() =~= Seq::<Seq<u8>>::empty());
        }
        while i < shs.len()
            invariant
                i <= shs@.len(),
                names@.len() == i,
                strtab@ == spec_strtab32(f@, *header, shs@),
                header.e_shstrndx != 0,
                spec_strtab_ok32(f@, *header, shs@),
                spec_resolve_names_upto(strtab@, spec_section_name_offsets32(shs@), i as nat)
                    == Ok::<Seq<Seq<u8>>, ParseError>(names.deep_view()),
            decreases shs@.len() - i,
        {
            let offv = shs[i].sh_name;
            proof {
                assert(spec_section_name_offsets32(shs@)[i as int] == offv);
            }
            match resolve_name(strtab, offv) {
                Some(nm) => {
                    let ghost prev = names.deep_view();
                    let ghost nmv = nm@;
                    proof {
                        assert(spec_resolve_names_upto(
                            strtab@,
                            spec_section_name_offsets32(shs@),
                            (i + 1) as nat,
                        ) == Ok::<Seq<Seq<u8>>, ParseError>(prev.push(nmv)));
                    }
                    names.push(nm);
                    proof {
                        assert(names.deep_view() =~~= prev.push(nmv));
                    }
                }
                None => {
                    proof {
                        lemma_names_upto_err(
                            strtab@,
                            spec_section_name_offsets32(shs@),
                            i as nat,
                            shs@.len(),
                        );
                    }
                    return Err(ParseError::InvalidStringTableIndex);
                }
            }
            i = i + 1;
        }
        Ok(names)
    }

    /// Decodes a complete 32-bit ELF image from `f`: header, program header
    /// table, section header table and section names, in that fixed order,
    /// stopping at the first error. The buffer is kept in the image.
    pub fn parse(f: &[u8]) -> (r: Result<Elf32, ParseError>)
        ensures
            (r is Ok) == (spec_parse32(f@) is Ok),
            r is Ok ==> r->Ok_0@ == spec_parse32(f@)->Ok_0,
            r is Err ==> r->Err_0 == spec_parse32(f@)->Err_0,
    {
        let header = match Self::parse_header(f) {
            Ok(h) => h,
            Err(e) => {
                return Err(e);
            }
        };
        let phtable = match Self::parse_ph_table(f, &header) {
            Ok(t) => t,
            Err(e) => {
                return Err(e);
            }
        };
        let shtable = match Self::parse_sh_table(f, &header) {
            Ok(t) => t,
            Err(e) => {
                return Err(e);
            }
        };
        let section_names = match Self::resolve_section_names(f, &header, &shtable) {
            Ok(t) => t,
            Err(e) => {
                return Err(e);
            }
        };
        let data = slice_to_vec(f);
        let img = Elf32::new(header, phtable, shtable, section_names, data);
        proof {
            assert(img@ =~~= spec_parse32(f@)->Ok_0);
        }
        Ok(img)
    }
}

} // verus!
