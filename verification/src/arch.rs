//! Architecture-specific constants and the trap-patched word.
//!
//! A software breakpoint overwrites the lowest byte of the machine word at
//! the target address with the architecture's one-byte trap opcode.  The
//! constants and the patching function live here so that the protocol logic
//! elsewhere never mentions a hardware detail directly.

use vstd::prelude::*;

verus! {

/// The x86 / x86-64 one-byte breakpoint instruction (`int3`).
pub const TRAP_OPCODE: u8 = 0xCC;

/// Width in bytes of the trap opcode; a trap stop reports the program
/// counter advanced by this amount past the breakpoint address.
pub const TRAP_WIDTH: u64 = 1;

/// Byte offset of the program counter (x86-64 `rip`) in the user register
/// area, used when rewinding the program counter of the traced process.
pub const PC_USER_OFFSET: u64 = 128;

/// Mask that keeps every byte of a machine word except the lowest.
pub const HIGH_BYTES_MASK: u64 = 0xFFFF_FFFF_FFFF_FF00;

/// The word written over the target address while a breakpoint is enabled:
/// the original word with its lowest byte replaced by the trap opcode.
pub open spec fn spec_patched(w: u64) -> u64 {
    (w & HIGH_BYTES_MASK) | (TRAP_OPCODE as u64)
}

/// The lowest byte of a patched word is always the trap opcode, and the
/// remaining bytes are exactly those of the original word.
pub proof fn lemma_patched_bytes(w: u64)
    ensures
        spec_patched(w) & 0xFF == TRAP_OPCODE as u64,
        spec_patched(w) & HIGH_BYTES_MASK == w & HIGH_BYTES_MASK,
{
    assert(((w & 0xFFFF_FFFF_FFFF_FF00) | 0xCC) & 0xFF == 0xCC) by (bit_vector);
    assert(((w & 0xFFFF_FFFF_FFFF_FF00) | 0xCC) & 0xFFFF_FFFF_FFFF_FF00 == w
        & 0xFFFF_FFFF_FFFF_FF00) by (bit_vector);
}

/// A word whose lowest byte differs from the trap opcode can never equal its
/// own patched form.
pub proof fn lemma_patched_differs(w: u64)
    requires
        w & 0xFF != TRAP_OPCODE as u64,
    ensures
        spec_patched(w) != w,
{
    assert((w & 0xFFFF_FFFF_FFFF_FF00) | 0xCC != w) by (bit_vector)
        requires
            w & 0xFF != 0xCC,
    ;
}

/// Computes the trap-patched form of `w`.
pub fn patched_word(w: u64) -> (r: u64)
    ensures
        r == spec_patched(w),
{
    (w & HIGH_BYTES_MASK) | (TRAP_OPCODE as u64)
}

} // verus!
