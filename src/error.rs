use vstd::prelude::*;

verus! {

/// What can go wrong while building or running the interpreter.
#[derive(Debug, Clone, Copy, PartialEq, Eq, Structural)]
pub enum Chip8Error {
    /// The ROM image (its length is carried) does not fit above 0x200.
    RomTooLarge(usize),
    /// A memory access reached the carried address, which is at or beyond 4096.
    AddressOutOfRange(u32),
    /// The carried word matches no known opcode.
    DecodeFailure(u16),
    /// A subroutine return was executed with an empty call stack.
    StackUnderflow,
    /// A key-skip instruction read the carried register value, which names no key.
    InvalidKey(u8),
    /// The instruction is declared but has no defined execution yet.
    Unsupported,
}

} // verus!
