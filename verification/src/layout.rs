//! Byte layout of the PLIC register file.
//!
//! The register file is one contiguous, page-aligned region. Its four blocks
//! sit at fixed byte offsets from the mapping base:
//!
//! - priority block at [`PRIORITY_BASE`]: one `u32` per source id (id 0 is
//!   reserved but its slot is present);
//! - pending bitmap at [`PENDING_BASE`]: 1024 bits packed 32 to a word;
//! - enable bitmap at [`ENABLE_BASE`]: one bit per (context, source) pair,
//!   bit position `context * COUNT_SOURCE + source`, packed 32 to a word;
//! - per-context blocks from [`CONTEXT_BASE`], one page each: a `u32`
//!   threshold at offset 0 and the `u32` claim/completion register at
//!   offset 4, the rest of the page reserved.
//!
//! These offsets are a hardware ABI: a driver maps device memory at a known
//! base address and adds exactly these numbers. The functions below state
//! each offset as an explicit formula so that a consumer can hold its own
//! address arithmetic against them.

use vstd::prelude::*;

verus! {

/// Number of interrupt sources the PLIC addresses. Valid source ids are
/// `1..COUNT_SOURCE`; id 0 is reserved to mean "no interrupt".
pub const COUNT_SOURCE: usize = 1024;

/// Number of contexts (hart and privilege mode pairs) the PLIC serves.
/// Valid context indexes are `0..COUNT_CONTEXT`.
pub const COUNT_CONTEXT: usize = 15872;

/// Bits in one register word.
pub const WORD_BITS: usize = 32;

/// Words in the pending bitmap.
pub const PENDING_WORDS: usize = COUNT_SOURCE / WORD_BITS;

/// Words in the enable bitmap.
pub const ENABLE_WORDS: usize = COUNT_SOURCE * COUNT_CONTEXT / WORD_BITS;

/// Byte offset of the priority block.
pub const PRIORITY_BASE: usize = 0;

/// Byte offset of the pending bitmap.
pub const PENDING_BASE: usize = 0x1000;

/// Byte offset of the enable bitmap.
pub const ENABLE_BASE: usize = 0x2000;

/// Byte offset of the first per-context block.
pub const CONTEXT_BASE: usize = 0x20_0000;

/// Bytes from one per-context block to the next (each is page-aligned).
pub const CONTEXT_STRIDE: usize = 0x1000;

/// Total size in bytes of the register file.
pub fn total_size() -> (size: usize)
    ensures
        size == CONTEXT_BASE + COUNT_CONTEXT * CONTEXT_STRIDE,
{
    CONTEXT_BASE + COUNT_CONTEXT * CONTEXT_STRIDE
}

/// Byte offset of the priority register of `source`.
pub fn priority_offset(source: usize) -> (off: usize)
    requires
        source < COUNT_SOURCE,
    ensures
        off == PRIORITY_BASE + 4 * source,
{
    PRIORITY_BASE + 4 * source
}

/// Byte offset of word `word` of the pending bitmap.
pub fn pending_word_offset(word: usize) -> (off: usize)
    requires
        word < PENDING_WORDS,
    ensures
        off == PENDING_BASE + 4 * word,
{
    PENDING_BASE + 4 * word
}

/// Byte offset of word `word` of the enable bitmap.
pub fn enable_word_offset(word: usize) -> (off: usize)
    requires
        word < ENABLE_WORDS,
    ensures
        off == ENABLE_BASE + 4 * word,
{
    ENABLE_BASE + 4 * word
}

/// Byte offset of the priority threshold register of `context`.
pub fn threshold_offset(context: usize) -> (off: usize)
    requires
        context < COUNT_CONTEXT,
    ensures
        off == CONTEXT_BASE + CONTEXT_STRIDE * context,
{
    CONTEXT_BASE + CONTEXT_STRIDE * context
}

/// Byte offset of the claim/completion register of `context`.
pub fn claim_complete_offset(context: usize) -> (off: usize)
    requires
        context < COUNT_CONTEXT,
    ensures
        off == CONTEXT_BASE + CONTEXT_STRIDE * context + 4,
{
    CONTEXT_BASE + CONTEXT_STRIDE * context + 4
}

} // verus!
