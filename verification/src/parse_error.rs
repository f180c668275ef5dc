use vstd::prelude::*;

verus! {

/// The reasons a candidate ELF buffer is rejected. Every failure of the
/// decoder is one of these distinct conditions; no stage ever merges them
/// into a generic failure or downgrades one into another.
#[derive(Debug, Clone, Copy, PartialEq, Eq, Structural)]
pub enum ParseError {
    /// The first four bytes are not the ELF magic sequence.
    NotElf,
    /// Fewer than 16 bytes were supplied to the identification parser.
    TooSmallIdent,
    /// The buffer is shorter than the fixed header size for its bit width.
    TooSmallHeader,
    /// Byte 4 of the identification block selects neither 32-bit nor 64-bit.
    UnsupportedBitWidth,
    /// Byte 5 of the identification block selects neither little- nor big-endian.
    UnsupportedEndianness,
    /// Byte 7 of the identification block is not a known ABI code.
    UnsupportedAbi,
    /// The object file kind field is outside the known set.
    UnsupportedFileType,
    /// The target machine field is not a known architecture code.
    UnsupportedMachineType,
    /// The header format version field is neither 0 nor 1.
    UnsupportedVersion,
    /// A program header entry's segment kind is not in the closed enumeration.
    UnsupportedProgramHeaderType,
    /// The program header table's declared byte range does not fit in the buffer.
    TruncatedProgramHeaderTable,
    /// The section header table's declared byte range does not fit in the buffer.
    TruncatedSectionHeaderTable,
    /// The string table section index, a section's name offset, or the string
    /// table's own byte range cannot be used to resolve section names.
    InvalidStringTableIndex,
}

} // verus!
