//! Packed bitmaps: 32 bits to a `u32` word, lowest bit first.
//!
//! Both the pending block and the enable block of the PLIC are such bitmaps.
//! The lemmas here reduce a read-modify-write of one word (`OR` a one-bit
//! mask in, or `AND` its complement out) to its effect on every bit position
//! of the whole bitmap: the addressed bit changes, no other bit does.

use vstd::prelude::*;

verus! {

/// True when bit `i` of word `w` is set.
pub open spec fn bit32(w: u32, i: u32) -> bool
    recommends
        i < 32,
{
    w & (1u32 << i) != 0
}

/// Bit `pos` of a packed bitmap: bit `pos % 32` of word `pos / 32`.
pub open spec fn bitmap_bit(words: Seq<u32>, pos: int) -> bool
    recommends
        0 <= pos < words.len() * 32,
{
    bit32(words[pos / 32], (pos % 32) as u32)
}

pub(crate) proof fn lemma_div_below(x: int, m: int, k: int)
    by (nonlinear_arith)
    requires
        0 <= x,
        0 < m,
        x < k * m,
    ensures
        0 <= x / m < k,
{
}

pub(crate) proof fn lemma_mod_range(x: int, m: int)
    by (nonlinear_arith)
    requires
        0 <= x,
        0 < m,
    ensures
        0 <= x % m < m,
{
}

pub(crate) proof fn lemma_div_mod_unique(a: int, b: int, m: int)
    by (nonlinear_arith)
    requires
        0 <= a,
        0 <= b,
        0 < m,
        a / m == b / m,
        a % m == b % m,
    ensures
        a == b,
{
}

pub(crate) proof fn lemma_bit_or(w: u32, i: u32, j: u32)
    requires
        i < 32,
        j < 32,
    ensures
        bit32(w | (1u32 << i), j) == (i == j || bit32(w, j)),
{
    assert(((w | (1u32 << i)) & (1u32 << j) != 0) == (i == j || w & (1u32 << j) != 0))
        by (bit_vector)
        requires
            i < 32,
            j < 32,
    ;
}

pub(crate) proof fn lemma_bit_clear(w: u32, i: u32, j: u32)
    requires
        i < 32,
        j < 32,
    ensures
        bit32(w & !(1u32 << i), j) == (i != j && bit32(w, j)),
{
    assert(((w & !(1u32 << i)) & (1u32 << j) != 0) == (i != j && w & (1u32 << j) != 0))
        by (bit_vector)
        requires
            i < 32,
            j < 32,
    ;
}

pub(crate) proof fn lemma_bit32_zero(j: u32)
    ensures
        !bit32(0u32, j),
{
    assert(0u32 & (1u32 << j) == 0) by (bit_vector);
}

/// Setting bit `pos` (an `OR` with a one-bit mask on its word) sets exactly
/// that bit of the bitmap and leaves every other bit as it was.
pub(crate) proof fn lemma_bitmap_set(words: Seq<u32>, pos: int, q: int)
    requires
        0 <= pos < words.len() * 32,
        0 <= q < words.len() * 32,
    ensures
        bitmap_bit(words.update(pos / 32, words[pos / 32] | (1u32 << ((pos % 32) as u32))), q) == (q
            == pos || bitmap_bit(words, q)),
{
    let len: int = words.len() as int;
    lemma_div_below(pos, 32, len);
    lemma_div_below(q, 32, len);
    lemma_mod_range(pos, 32);
    lemma_mod_range(q, 32);
    let i: u32 = (pos % 32) as u32;
    let j: u32 = (q % 32) as u32;
    if q / 32 == pos / 32 {
        lemma_bit_or(words[pos / 32], i, j);
        if i == j {
            lemma_div_mod_unique(pos, q, 32);
        }
    }
}

/// Clearing bit `pos` (an `AND` with the complemented one-bit mask on its
/// word) clears exactly that bit of the bitmap and leaves every other bit as
/// it was.
pub(crate) proof fn lemma_bitmap_clear(words: Seq<u32>, pos: int, q: int)
    requires
        0 <= pos < words.len() * 32,
        0 <= q < words.len() * 32,
    ensures
        bitmap_bit(words.update(pos / 32, words[pos / 32] & !(1u32 << ((pos % 32) as u32))), q) == (
        q != pos && bitmap_bit(words, q)),
{
    let len: int = words.len() as int;
    lemma_div_below(pos, 32, len);
    lemma_div_below(q, 32, len);
    lemma_mod_range(pos, 32);
    lemma_mod_range(q, 32);
    let i: u32 = (pos % 32) as u32;
    let j: u32 = (q % 32) as u32;
    if q / 32 == pos / 32 {
        lemma_bit_clear(words[pos / 32], i, j);
        if i == j {
            lemma_div_mod_unique(pos, q, 32);
        }
    }
}

} // verus!
