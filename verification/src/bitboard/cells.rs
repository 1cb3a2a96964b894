//! Cell-level facts about `BitBoard` words: ten columns of six rows, cell
//! (column `c`, row `r`) at bit `6c + r`.
use vstd::prelude::*;

verus! {

use crate::bitboard::lanes::{lane, fits60};

/// Whether the cell in column `c`, row `r` is filled.
pub open spec fn cell(b: u64, c: int, r: int) -> bool {
    (lane(b, c) >> (r as u64)) & 1 == 1
}

/// Whether bit `k` of `w` is set.
pub open spec fn bit_set(w: u64, k: int) -> bool {
    (w >> (k as u64)) & 1u64 == 1u64
}

/// The rows that are full in every column, as the word computes them.
pub open spec fn full_rows_word(b: u64) -> u64 {
    let r1 = b & (b >> 12u64);
    let r2 = r1 & (r1 >> 6u64);
    let r3 = r2 & (r2 >> 12u64);
    r3 & (r3 >> 24u64)
}

proof fn bv_full_rows(b: u64, k: u64)
    by (bit_vector)
    requires
        b < 0x1000_0000_0000_0000u64,
        k < 6,
    ensures
        ((full_rows_word(b) >> k) & 1u64 == 1u64) == (((b >> ((0u64 + k) as u64)) & 1u64 == 1u64) && ((b >> ((6u64 + k) as u64)) & 1u64 == 1u64) && ((b >> ((12u64 + k) as u64)) & 1u64 == 1u64) && ((b >> ((18u64 + k) as u64)) & 1u64 == 1u64) && ((b >> ((24u64 + k) as u64)) & 1u64 == 1u64) && ((b >> ((30u64 + k) as u64)) & 1u64 == 1u64) && ((b >> ((36u64 + k) as u64)) & 1u64 == 1u64) && ((b >> ((42u64 + k) as u64)) & 1u64 == 1u64) && ((b >> ((48u64 + k) as u64)) & 1u64 == 1u64) && ((b >> ((54u64 + k) as u64)) & 1u64 == 1u64)),
        full_rows_word(b) < 64,
        b != 0x0FFF_FFFF_FFFF_FFFFu64 ==> full_rows_word(b) < 63,
{
}

proof fn bv_cell_bit(b: u64, s: u64, k: u64)
    by (bit_vector)
    requires
        k < 6,
        s + k < 64,
    ensures
        (((b >> s) & 63u64) >> k) & 1u64 == (b >> ((s + k) as u64)) & 1u64,
{
}

/// Bit `k` of the full-rows word is set exactly when row `k` is full in all
/// ten columns.
pub proof fn lemma_full_rows_word(b: u64)
    requires
        fits60(b),
    ensures
        full_rows_word(b) < 64,
        b != 0x0FFF_FFFF_FFFF_FFFFu64 ==> full_rows_word(b) < 63,
        forall|k: int|
            0 <= k < 6 ==> (#[trigger] bit_set(full_rows_word(b), k) <==> forall|c: int|
                0 <= c < 10 ==> #[trigger] cell(b, c, k)),
{
    bv_full_rows(b, 0);
    assert forall|k: int|
        0 <= k < 6 implies (#[trigger] bit_set(full_rows_word(b), k) <==> forall|c: int|
            0 <= c < 10 ==> #[trigger] cell(b, c, k)) by {
        bv_full_rows(b, k as u64);
        bv_cell_bit(b, 0u64, k as u64);
        bv_cell_bit(b, 6u64, k as u64);
        bv_cell_bit(b, 12u64, k as u64);
        bv_cell_bit(b, 18u64, k as u64);
        bv_cell_bit(b, 24u64, k as u64);
        bv_cell_bit(b, 30u64, k as u64);
        bv_cell_bit(b, 36u64, k as u64);
        bv_cell_bit(b, 42u64, k as u64);
        bv_cell_bit(b, 48u64, k as u64);
        bv_cell_bit(b, 54u64, k as u64);
        if forall|c: int| 0 <= c < 10 ==> #[trigger] cell(b, c, k) {
            assert(cell(b, 0, k));
            assert(cell(b, 1, k));
            assert(cell(b, 2, k));
            assert(cell(b, 3, k));
            assert(cell(b, 4, k));
            assert(cell(b, 5, k));
            assert(cell(b, 6, k));
            assert(cell(b, 7, k));
            assert(cell(b, 8, k));
            assert(cell(b, 9, k));
        }
        if bit_set(full_rows_word(b), k) {
            assert forall|c: int| 0 <= c < 10 implies #[trigger] cell(b, c, k) by {
                assert(c == 0 || c == 1 || c == 2 || c == 3 || c == 4 || c == 5 || c == 6 || c == 7 || c == 8 || c == 9);
            }
        }
    }
}

/// Each piece cell together with every cell above it in its column (within
/// the six rows), as the word computes it.
pub open spec fn hitbox_word(m: u64) -> u64 {
    let h1 = m | ((m & 0x7df7df7df7df7dfu64) << 1u64);
    let h2 = h1 | ((h1 & 0x3cf3cf3cf3cf3cfu64) << 2u64);
    h2 | ((h2 & 0xc30c30c30c30c3u64) << 4u64)
}

/// The same closure on one 6-bit column.
pub open spec fn column_closure(v: u64) -> u64 {
    let h1 = v | ((v & 0x1Fu64) << 1u64);
    let h2 = h1 | ((h1 & 0xFu64) << 2u64);
    h2 | ((h2 & 0x3u64) << 4u64)
}

proof fn bv_hitbox_lane(m: u64, c: u64)
    by (bit_vector)
    requires
        m < 0x1000_0000_0000_0000u64,
        c < 10,
    ensures
        (hitbox_word(m) >> (6u64 * c)) & 63u64 == column_closure((m >> (6u64 * c)) & 63u64),
        hitbox_word(m) < 0x1000_0000_0000_0000u64,
{
}

/// The hitbox acts column by column.
pub proof fn lemma_hitbox_lanes(m: u64)
    requires
        fits60(m),
    ensures
        fits60(hitbox_word(m)),
        forall|c: int| 0 <= c < 10 ==> #[trigger] lane(hitbox_word(m), c) == column_closure(lane(m, c)),
{
    bv_hitbox_lane(m, 0);
    assert forall|c: int| 0 <= c < 10 implies #[trigger] lane(hitbox_word(m), c) == column_closure(lane(m, c)) by {
        bv_hitbox_lane(m, c as u64);
    }
}

/// Column value `v` with row `k` removed and the rows above moved down one.
pub open spec fn remove_row(v: u64, k: u64) -> u64 {
    (v & (((1u64 << k) - 1u64) as u64)) | ((v >> ((k + 1) as u64)) << k)
}

/// Removing row `k` from every column, as the word computes it.
pub open spec fn remove_row_word(new_board: u64, k: u64) -> u64 {
    if k == 5 {
        new_board & 0x7df7df7df7df7dfu64
    } else if k == 4 {
        (new_board & 0x3cf3cf3cf3cf3cfu64) | ((new_board & 0x820820820820820u64) >> 1u64)
    } else if k == 3 {
        (new_board & 0x1c71c71c71c71c7u64) | ((new_board & 0xc30c30c30c30c30u64) >> 1u64)
    } else if k == 2 {
        (new_board & 0xc30c30c30c30c3u64) | ((new_board & 0xe38e38e38e38e38u64) >> 1u64)
    } else if k == 1 {
        (new_board & 0x0041041041041041u64) | ((new_board & 0xf3cf3cf3cf3cf3cu64) >> 1u64)
    } else {
        (new_board & 0xfbefbefbefbefbeu64) >> 1u64
    }
}

proof fn bv_remove_row(w: u64, k: u64, c: u64)
    by (bit_vector)
    requires
        w < 0x1000_0000_0000_0000u64,
        k < 6,
        c < 10,
    ensures
        (remove_row_word(w, k) >> (6u64 * c)) & 63u64 == remove_row((w >> (6u64 * c)) & 63u64, k),
        remove_row_word(w, k) < 0x1000_0000_0000_0000u64,
{
}

/// Removing a row acts column by column.
pub proof fn lemma_remove_row_lanes(w: u64, k: u64)
    requires
        fits60(w),
        k < 6,
    ensures
        fits60(remove_row_word(w, k)),
        forall|c: int| 0 <= c < 10 ==> #[trigger] lane(remove_row_word(w, k), c) == remove_row(lane(w, c), k),
{
    bv_remove_row(w, k, 0);
    assert forall|c: int| 0 <= c < 10 implies #[trigger] lane(remove_row_word(w, k), c) == remove_row(lane(w, c), k) by {
        bv_remove_row(w, k, c as u64);
    }
}

proof fn bv_column_word(h: u64, i: u64)
    by (bit_vector)
    requires
        h <= 6,
        i < 10,
    ensures
        ((1u64 << h) - 1u64) < 64,
        (1u64 << 6u64) == 64,
        (1u64 << h) >= 1u64,
        (((((1u64 << h) - 1u64) as u64) >> (6u64 * i)) & 63u64) == (if i == 0 { ((1u64 << h) - 1u64) as u64 } else { 0u64 }),
{
}

/// The column of `h` filled cells, `2^h - 1`, sits in lane 0 alone.
pub proof fn lemma_column_word(h: u64)
    requires
        h <= 6,
    ensures
        ((1u64 << h) - 1u64) < 64,
        (1u64 << 6u64) == 64,
        (1u64 << h) >= 1u64,
        forall|i: int|
            0 <= i < 10 ==> #[trigger] lane(((1u64 << h) - 1u64) as u64, i) == (if i == 0 {
                ((1u64 << h) - 1u64) as u64
            } else {
                0u64
            }),
{
    bv_column_word(h, 0);
    assert forall|i: int|
        0 <= i < 10 implies #[trigger] lane(((1u64 << h) - 1u64) as u64, i) == (if i == 0 {
            ((1u64 << h) - 1u64) as u64
        } else {
            0u64
        }) by {
        bv_column_word(h, i as u64);
    }
}

/// Shifting right twice, and the masks the move generator uses.
pub proof fn lemma_shr_twice(a: u64, s: u64)
    by (bit_vector)
    requires
        s <= 54,
    ensures
        (a >> s) >> 6u64 == a >> ((s + 6) as u64),
        a >> 0u64 == a,
        (1u64 << 60u64) == 0x1000_0000_0000_0000u64,
{
}

/// Masks on the packed `meta` field.
pub proof fn lemma_meta_masks(m: u16, p: u16)
    by (bit_vector)
    ensures
        (m & !0x600u16) & 0x1FFu16 == m & 0x1FFu16,
        m < 0x4000 ==> m & !0x600u16 < 0x4000,
        m < 0x4000 ==> m >> 11u16 <= 7,
        m < 0x4000 && p <= 7 ==> (m & !0x3800u16) | (p << 11u16) < 0x4000,
        (((m & !0x3800u16) | (p << 11u16)) & 0x1FFu16) == m & 0x1FFu16,
        m < 0x4000 && p <= 7 ==> ((m & !0x3800u16) | (p << 11u16)) >> 11u16 == p,
        (((m & !0x3800u16) | (p << 11u16)) & 0x600u16) == m & 0x600u16,
        (((m & !0x3800u16) | (p << 11u16)) & 0x200u16) == m & 0x200u16,
        (((m & !0x3800u16) | (p << 11u16)) & 0x400u16) == m & 0x400u16,
{
}

/// A move's packed state: the lines it clears are added to the lines in bits
/// 0-8 without reaching bit 9, and the new DAS side goes in bits 9-10.
pub proof fn lemma_meta_step(m: u16, n: u16, a: u16, b: u16)
    by (bit_vector)
    requires
        m < 0x4000,
        m & 0x1FFu16 <= 40,
        n <= 6,
        a <= 1,
        b <= 1,
    ensures
        (((m & !0x600u16) + n) as u16 | ((a << 9u16) | (b << 10u16))) & 0x1FFu16 == (m & 0x1FFu16) + n,
        (((m & !0x600u16) + n) as u16 | ((a << 9u16) | (b << 10u16))) < 0x4000,
        ((((m & !0x600u16) + n) as u16 | ((a << 9u16) | (b << 10u16))) & 0x200u16 != 0) == (a == 1),
        ((((m & !0x600u16) + n) as u16 | ((a << 9u16) | (b << 10u16))) & 0x400u16 != 0) == (b == 1),
{
}

/// A carried DAS needs the DAS side bit of `meta` on its side: bit 9 for
/// the left half, bit 10 for the right.
pub proof fn lemma_support_bit(m: u16, r: u64)
    by (bit_vector)
    requires
        r <= 1,
    ensures
        r & ((m as u64) >> 9u64) != 0 ==> m & 0x200u16 != 0,
        r & ((m as u64) >> 10u64) != 0 ==> m & 0x400u16 != 0,
        r & ((m as u64) >> 9u64) <= 1,
        r & ((m as u64) >> 10u64) <= 1,
{
}

/// Testing one of the six row bits with its power of two.
pub proof fn lemma_row_bits(w: u64)
    by (bit_vector)
    ensures
        (w & 1u64 != 0) <==> ((w >> 0u64) & 1u64 == 1u64),
        (w & 2u64 != 0) <==> ((w >> 1u64) & 1u64 == 1u64),
        (w & 4u64 != 0) <==> ((w >> 2u64) & 1u64 == 1u64),
        (w & 8u64 != 0) <==> ((w >> 3u64) & 1u64 == 1u64),
        (w & 16u64 != 0) <==> ((w >> 4u64) & 1u64 == 1u64),
        (w & 32u64 != 0) <==> ((w >> 5u64) & 1u64 == 1u64),
{
}

/// A value below `2^t` shifted left by `s` is below `2^(t + s)`.
pub proof fn lemma_shl_bound(a: u64, t: u64, s: u64)
    by (bit_vector)
    requires
        t + s < 64,
        a < (1u64 << t),
    ensures
        a << s < (1u64 << ((t + s) as u64)),
        t + s <= 60 ==> (1u64 << ((t + s) as u64)) <= 0x1000_0000_0000_0000u64,
{
}

} // verus!
