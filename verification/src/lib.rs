//! Interpreter core for an 8-bit virtual machine with a 16-bit instruction
//! word: a bounds-checked memory unit, a monochrome framebuffer with XOR
//! sprite compositing, and a fetch/decode/dispatch CPU.

use vstd::prelude::*;

pub mod cpu;
pub mod emulator;
pub mod framebuffer;
pub mod isa;
pub mod mmu;
pub mod rom;

verus! {

/// A vector of `n` copies of `value`.
pub(crate) fn filled_vec<T: Copy>(n: usize, value: T) -> (v: Vec<T>)
    ensures
        v@.len() == n,
        forall|k: int| 0 <= k < n ==> v@[k] == value,
{
    let mut v: Vec<T> = Vec::new();
    while v.len() < n
        invariant
            v@.len() <= n,
            forall|k: int| 0 <= k < v@.len() ==> v@[k] == value,
        decreases n - v@.len(),
    {
        v.push(value);
    }
    v
}

/// The ways a memory access or an instruction step can fail.
///
/// Every failure is reported to the driver, which decides whether to halt;
/// the core itself never panics.
#[derive(Clone, Copy, PartialEq, Eq, Structural, Debug)]
pub enum Chip8Error {
    /// A memory access lay outside `[0, capacity)`.
    OutOfBounds,
    /// The fetched instruction word is not in the dispatch table.
    UnimplementedOpcode,
    /// A call was executed with the call stack already full.
    StackOverflow,
    /// A return was executed with the call stack empty.
    StackUnderflow,
}

} // verus!
