//! An emulator for a 16-bit word-addressed machine with eight general
//! registers, a program counter, a condition register and 65536 words of
//! memory, two of which are keyboard device registers.
//!
//! The machine state and its operations live in `vm`; loading a program image
//! in `image`; the fetch-decode-execute step in `cpu`; facts proved about them
//! in `laws`.

pub mod vm;
pub mod image;
pub mod cpu;
pub mod laws;
