//! Little-endian integer fields inside byte sequences, as the PE format stores them.

use vstd::prelude::*;

verus! {

/// The little-endian 16-bit value stored at `off` in `s`.
pub open spec fn le_u16(s: Seq<u8>, off: int) -> int {
    s[off] as int + s[off + 1] as int * 0x100
}

/// The little-endian 32-bit value stored at `off` in `s`.
pub open spec fn le_u32(s: Seq<u8>, off: int) -> int {
    le_u16(s, off) + le_u16(s, off + 2) * 0x1_0000
}

/// The little-endian 64-bit value stored at `off` in `s`.
pub open spec fn le_u64(s: Seq<u8>, off: int) -> int {
    le_u32(s, off) + le_u32(s, off + 4) * 0x1_0000_0000
}

} // verus!
