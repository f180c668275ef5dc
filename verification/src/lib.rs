//! A verified decoder for ELF object files. It turns a caller-supplied byte
//! buffer into a validated, structured image — identification block, file
//! header, program header table, section header table with resolved names —
//! or rejects it with the first specific error met. Every offset and count
//! read from the file is bounds-checked against the buffer before anything
//! in its range is interpreted, and each decoding function carries a contract
//! stating exactly what it returns on every input.

pub mod elf;
pub mod elf_parser;
pub mod endianness;
pub mod parse_error;
