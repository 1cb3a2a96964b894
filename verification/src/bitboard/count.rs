//! Counting the cells of the boards.
use vstd::prelude::*;
use crate::bitboard::{
    clear_column, cleared_word, popcount, BitBoard, ShapeBoard, Board, piece_word, spawn_row, blocked, fall, drop_heights,
    landing_row, column_rest, column_top, row_full, leaves_no_hole, full_rows_below, full_row_count,
    lemma_landing_row_max,
};
use crate::bitboard::shapes::{
    spec_bit_table, shape_width, shape_height, shape_bottoms, shape_columns, piece_cell, lemma_shape_decode,
};
use crate::bitboard::cells::{
    column_closure, lemma_shl_bound, lemma_shr_twice, bit_set, cell, full_rows_word, lemma_full_rows_word,
    remove_row_word, lemma_remove_row_lanes,
};
use crate::bitboard::lanes::{
    lane, fits60, lemma_lanes_bitwise, lemma_lanes_eq, lemma_zero_lanes, lemma_and_le, lemma_lanes_lt64,
};
use crate::config::TARGET_LINES;

verus! {

/// The cells of a six-bit column value.
pub open spec fn pc6(v: u64) -> int {
    ((v & 1u64) + ((v >> 1u64) & 1u64) + ((v >> 2u64) & 1u64) + ((v >> 3u64) & 1u64) + ((v >> 4u64) & 1u64) + ((v >> 5u64)
        & 1u64)) as int
}

/// Bit facts on words and columns that the counting below rests on.
proof fn bv_counts(w: u64, x: u64, y: u64, v: u64, full: u64)
    by (bit_vector)
    ensures
        (w / 2u64) / 2u64 == w / 4u64,
        (w / 4u64) / 2u64 == w / 8u64,
        (w / 8u64) / 2u64 == w / 16u64,
        (w / 16u64) / 2u64 == w / 32u64,
        (w / 32u64) / 2u64 == w / 64u64,
        w / 64u64 == w >> 6u64,
        (w % 2u64) + ((w / 2u64) % 2u64) + ((w / 4u64) % 2u64) + ((w / 8u64) % 2u64) + ((w / 16u64) % 2u64) + ((w
            / 32u64) % 2u64) == pc6(w & 63u64),
        x < 64u64 && y < 64u64 && x & y == 0u64 ==> pc6(x | y) == pc6(x) + pc6(y),
        v < 64u64 && full < 64u64 && full & v == full ==> pc6(clear_column(v, full)) + pc6(full) == pc6(v),
        w < 0x1000_0000_0000_0000u64 ==> w >> 60u64 == 0u64,
        v <= 6 ==> pc6(((1u64 << v) - 1u64) as u64) == v,
        full < 64u64 ==> full & 63u64 == full && full >> 6u64 == 0u64,
        v < 64u64 && full < 64u64 && ((full >> 0u64) & 1u64 == 1u64 ==> (v >> 0u64) & 1u64 == 1u64) && ((full >> 1u64)
            & 1u64 == 1u64 ==> (v >> 1u64) & 1u64 == 1u64) && ((full >> 2u64) & 1u64 == 1u64 ==> (v >> 2u64) & 1u64
            == 1u64) && ((full >> 3u64) & 1u64 == 1u64 ==> (v >> 3u64) & 1u64 == 1u64) && ((full >> 4u64) & 1u64
            == 1u64 ==> (v >> 4u64) & 1u64 == 1u64) && ((full >> 5u64) & 1u64 == 1u64 ==> (v >> 5u64) & 1u64 == 1u64)
            ==> full & v == full,
{
}

/// One step of the count: the lowest bit and the bits above it.
proof fn lemma_pc_step(v: u64)
    ensures
        popcount(v) == (v % 2) as nat + popcount(v / 2),
{
}

/// The cells of a word: those of its lowest six bits and those above.
proof fn lemma_popcount_split(w: u64)
    ensures
        popcount(w) == pc6(w & 63u64) + popcount(w >> 6u64),
{
    bv_counts(w, 0, 0, 0, 0);
    lemma_pc_step(w);
    lemma_pc_step(w / 2);
    lemma_pc_step(w / 4);
    lemma_pc_step(w / 8);
    lemma_pc_step(w / 16);
    lemma_pc_step(w / 32);
}

/// The cells of columns `c` to 9 of a board word.
pub open spec fn lanes_count(w: u64, c: int) -> int
    decreases 10 - c,
{
    if c >= 10 {
        0
    } else {
        pc6(lane(w, c)) + lanes_count(w, c + 1)
    }
}

/// The cells of a board word are those of its ten columns.
pub proof fn lemma_popcount_lanes(w: u64, c: int)
    requires
        fits60(w),
        0 <= c <= 10,
    ensures
        popcount(w >> ((6 * c) as u64)) == lanes_count(w, c),
    decreases 10 - c,
{
    if c == 10 {
        bv_counts(w, 0, 0, 0, 0);
    } else {
        lemma_popcount_split(w >> ((6 * c) as u64));
        lemma_shr_twice(w, (6 * c) as u64);
        lemma_popcount_lanes(w, c + 1);
    }
}

/// Row `k` taken out of every column where it is full.
spec fn clear_step(w: u64, full: u64, k: u64) -> u64 {
    if bit_set(full, k as int) {
        remove_row_word(w, k)
    } else {
        w
    }
}

/// One step of the clearing, column by column.
proof fn lemma_clear_step(w: u64, full: u64, k: u64)
    requires
        fits60(w),
        k < 6,
    ensures
        fits60(clear_step(w, full, k)),
        forall|c: int|
            0 <= c < 10 ==> #[trigger] lane(clear_step(w, full, k), c) == (if bit_set(full, k as int) {
                crate::bitboard::cells::remove_row(lane(w, c), k)
            } else {
                lane(w, c)
            }),
{
    if bit_set(full, k as int) {
        lemma_remove_row_lanes(w, k);
    }
}

/// The board word with the full rows of `w` taken out has, column by column,
/// what `clear_column` leaves.
proof fn lemma_cleared_lanes(w: u64)
    requires
        fits60(w),
    ensures
        fits60(cleared_word(w)),
        forall|c: int| 0 <= c < 10 ==> #[trigger] lane(cleared_word(w), c) == clear_column(lane(w, c), full_rows_word(w)),
        full_rows_word(cleared_word(w)) == 0,
{
    let f = full_rows_word(w);
    let w5 = clear_step(w, f, 5);
    let w4 = clear_step(w5, f, 4);
    let w3 = clear_step(w4, f, 3);
    let w2 = clear_step(w3, f, 2);
    let w1 = clear_step(w2, f, 1);
    let w0 = clear_step(w1, f, 0);
    lemma_clear_step(w, f, 5);
    lemma_clear_step(w5, f, 4);
    lemma_clear_step(w4, f, 3);
    lemma_clear_step(w3, f, 2);
    lemma_clear_step(w2, f, 1);
    lemma_clear_step(w1, f, 0);
    assert(fits60(w0) && forall|c: int| 0 <= c < 10 ==> #[trigger] lane(w0, c) == clear_column(lane(w, c), f)) by {
        assert forall|c: int| 0 <= c < 10 implies #[trigger] lane(w0, c) == clear_column(lane(w, c), f) by {
            assert(lane(w5, c) == (if bit_set(f, 5) { crate::bitboard::cells::remove_row(lane(w, c), 5) } else { lane(w, c) }));
            assert(lane(w4, c) == (if bit_set(f, 4) { crate::bitboard::cells::remove_row(lane(w5, c), 4) } else { lane(w5, c) }));
            assert(lane(w3, c) == (if bit_set(f, 3) { crate::bitboard::cells::remove_row(lane(w4, c), 3) } else { lane(w4, c) }));
            assert(lane(w2, c) == (if bit_set(f, 2) { crate::bitboard::cells::remove_row(lane(w3, c), 2) } else { lane(w3, c) }));
            assert(lane(w1, c) == (if bit_set(f, 1) { crate::bitboard::cells::remove_row(lane(w2, c), 1) } else { lane(w2, c) }));
        }
    }
    let cw = cleared_word(w);
    lemma_lanes_eq(cw, w0);
    bv_clear_again(w);
    assert(step_bv(w, f, 5) == w5);
    assert(step_bv(w5, f, 4) == w4);
    assert(step_bv(w4, f, 3) == w3);
    assert(step_bv(w3, f, 2) == w2);
    assert(step_bv(w2, f, 1) == w1);
    assert(step_bv(w1, f, 0) == w0);
}

/// One step of the clearing, as the bit solver reads it.
spec fn step_bv(w: u64, f: u64, k: u64) -> u64 {
    if (f >> k) & 1u64 == 1u64 {
        remove_row_word(w, k)
    } else {
        w
    }
}

/// After the full rows are cleared, no row is full.
proof fn bv_clear_again(w: u64)
    by (bit_vector)
    requires
        w < 0x1000_0000_0000_0000u64,
    ensures
        full_rows_word(
            step_bv(
                step_bv(
                    step_bv(step_bv(step_bv(step_bv(w, full_rows_word(w), 5), full_rows_word(w), 4), full_rows_word(w), 3), full_rows_word(w), 2),
                    full_rows_word(w),
                    1,
                ),
                full_rows_word(w),
                0,
            ),
        ) == 0u64,
{
}

/// Columns `c` to 9 lose the full rows' cells each.
proof fn lemma_cleared_sum(w: u64, cw: u64, c: int)
    requires
        fits60(w),
        0 <= c <= 10,
        full_rows_word(w) < 64,
        forall|d: int| 0 <= d < 10 ==> #[trigger] lane(cw, d) == clear_column(lane(w, d), full_rows_word(w)),
        forall|d: int| 0 <= d < 10 ==> full_rows_word(w) & #[trigger] lane(w, d) == full_rows_word(w),
    ensures
        lanes_count(cw, c) + (10 - c) * pc6(full_rows_word(w)) == lanes_count(w, c),
    decreases 10 - c,
{
    if c < 10 {
        lemma_cleared_sum(w, cw, c + 1);
        let f = full_rows_word(w);
        crate::bitboard::lanes::lemma_and_le(w >> ((6 * c) as u64), 63, 0, 0);
        bv_counts(0, 0, 0, lane(w, c), f);
        assert(lane(cw, c) == clear_column(lane(w, c), f));
        assert(pc6(lane(cw, c)) + pc6(f) == pc6(lane(w, c)));
        assert((10 - c) * pc6(f) == (10 - (c + 1)) * pc6(f) + pc6(f)) by (nonlinear_arith);
        assert(lanes_count(cw, c) == pc6(lane(cw, c)) + lanes_count(cw, c + 1));
        assert(lanes_count(w, c) == pc6(lane(w, c)) + lanes_count(w, c + 1));
    } else {
        assert(c == 10);
        assert((10 - c) * pc6(full_rows_word(w)) == 0) by (nonlinear_arith)
            requires
                c == 10,
        ;
    }
}

/// Clearing the full rows of a board takes out ten cells for each, and
/// leaves no row full: clearing again clears nothing.
pub proof fn lemma_clear_count(w: u64)
    requires
        fits60(w),
    ensures
        popcount(cleared_word(w)) + 10 * popcount(full_rows_word(w)) == popcount(w),
        full_rows_word(cleared_word(w)) == 0,
{
    let f = full_rows_word(w);
    let cw = cleared_word(w);
    lemma_full_rows_word(w);
    lemma_cleared_lanes(w);
    assert forall|d: int| 0 <= d < 10 implies f & #[trigger] lane(w, d) == f by {
        crate::bitboard::lanes::lemma_and_le(w >> ((6 * d) as u64), 63, 0, 0);
        assert forall|k: int| 0 <= k < 6 && bit_set(f, k) implies cell(w, d, k) by {}
        assert(bit_set(f, 0) ==> cell(w, d, 0));
        assert(bit_set(f, 1) ==> cell(w, d, 1));
        assert(bit_set(f, 2) ==> cell(w, d, 2));
        assert(bit_set(f, 3) ==> cell(w, d, 3));
        assert(bit_set(f, 4) ==> cell(w, d, 4));
        assert(bit_set(f, 5) ==> cell(w, d, 5));
        bv_counts(0, 0, 0, lane(w, d), f);
    }
    lemma_cleared_sum(w, cw, 0);
    lemma_popcount_lanes(w, 0);
    lemma_popcount_lanes(cw, 0);
    lemma_popcount_split(f);
    bv_counts(0, 0, 0, 0, f);
    assert(w >> 0u64 == w) by {
        lemma_shr_twice(w, 0);
    }
    assert(cw >> 0u64 == cw) by {
        lemma_shr_twice(cw, 0);
    }
}

/// Bit facts on shifts, disjoint words and the orientation table.
proof fn bv_bits(a: u64, s: u64, t: u64, x: u64, y: u64)
    by (bit_vector)
    ensures
        a << 0u64 == a,
        0 < s && t + s < 64 && a < (1u64 << t) ==> a << s == (a << ((s - 1) as u64)) << 1u64 && (a << ((s
            - 1) as u64)) < 0x8000_0000_0000_0000u64,
        a < 0x8000_0000_0000_0000u64 ==> (a << 1u64) % 2 == 0 && (a << 1u64) / 2 == a,
        x & y == 0 ==> (x | y) % 2 == x % 2 + y % 2 && (x | y) / 2 == (x / 2) | (y / 2) && (x / 2) & (y / 2) == 0,
        x | y == 0 ==> x == 0 && y == 0,
        x < 64 && y < 64 && x & column_closure(y) == 0 ==> x & y == 0,
        (0x20010c2u64 & 0xFFFFFFu64) == 0x10c2u64,
        (0x3000183u64 & 0xFFFFFFu64) == 0x183u64,
        (0x20020c1u64 & 0xFFFFFFu64) == 0x20c1u64,
        (0x30000c6u64 & 0xFFFFFFu64) == 0xc6u64,
        (0x2001043u64 & 0xFFFFFFu64) == 0x1043u64,
        (0x3000107u64 & 0xFFFFFFu64) == 0x107u64,
        (0x2003082u64 & 0xFFFFFFu64) == 0x3082u64,
        (0x30001c1u64 & 0xFFFFFFu64) == 0x1c1u64,
        (0x2003041u64 & 0xFFFFFFu64) == 0x3041u64,
        (0x3000047u64 & 0xFFFFFFu64) == 0x47u64,
        (0x2002083u64 & 0xFFFFFFu64) == 0x2083u64,
        (0x30001c4u64 & 0xFFFFFFu64) == 0x1c4u64,
        (0x20010c1u64 & 0xFFFFFFu64) == 0x10c1u64,
        (0x3000087u64 & 0xFFFFFFu64) == 0x87u64,
        (0x20020c2u64 & 0xFFFFFFu64) == 0x20c2u64,
        (0x30001c2u64 & 0xFFFFFFu64) == 0x1c2u64,
        (0x20000c3u64 & 0xFFFFFFu64) == 0xc3u64,
        (0x1041041u64 & 0xFFFFFFu64) == 0x41041u64,
        (0x400000fu64 & 0xFFFFFFu64) == 0xfu64,
{
}

/// The cells of two words with no cell in common add up.
proof fn lemma_popcount_or(a: u64, b: u64)
    requires
        a & b == 0,
    ensures
        popcount(a | b) == popcount(a) + popcount(b),
    decreases a + b,
{
    bv_bits(0, 0, 0, a, b);
    lemma_pc_step(a);
    lemma_pc_step(b);
    if a | b != 0 {
        lemma_popcount_or(a / 2, b / 2);
        lemma_pc_step(a | b);
    }
}

/// Shifting a word that does not overflow keeps its cells.
proof fn lemma_popcount_shl(a: u64, s: u64, t: u64)
    requires
        t + s < 64,
        a < (1u64 << t),
    ensures
        popcount(a << s) == popcount(a),
    decreases s,
{
    bv_bits(a, s, t, 0, 0);
    if s > 0 {
        let y = a << ((s - 1) as u64);
        lemma_popcount_shl(a, (s - 1) as u64, t);
        bv_bits(y, 0, 0, 0, 0);
        lemma_pc_step(y << 1u64);
    }
}

/// Every orientation has four cells.
#[verifier::spinoff_prover]
#[verifier::rlimit(30)]
proof fn lemma_piece_four(s: int)
    requires
        0 <= s < 19,
    ensures
        popcount((spec_bit_table(s) as u64) & 0xFFFFFFu64) == 4,
{
    bv_bits(0, 0, 0, 0, 0);
    if s == 0 {
        assert(popcount(0x10c2u64) == 4) by {
            reveal_with_fuel(popcount, 14);
        }
    } else if s == 1 {
        assert(popcount(0x183u64) == 4) by {
            reveal_with_fuel(popcount, 10);
        }
    } else if s == 2 {
        assert(popcount(0x20c1u64) == 4) by {
            reveal_with_fuel(popcount, 15);
        }
    } else if s == 3 {
        assert(popcount(0xc6u64) == 4) by {
            reveal_with_fuel(popcount, 9);
        }
    } else if s == 4 {
        assert(popcount(0x1043u64) == 4) by {
            reveal_with_fuel(popcount, 14);
        }
    } else if s == 5 {
        assert(popcount(0x107u64) == 4) by {
            reveal_with_fuel(popcount, 10);
        }
    } else if s == 6 {
        assert(popcount(0x3082u64) == 4) by {
            reveal_with_fuel(popcount, 15);
        }
    } else if s == 7 {
        assert(popcount(0x1c1u64) == 4) by {
            reveal_with_fuel(popcount, 10);
        }
    } else if s == 8 {
        assert(popcount(0x3041u64) == 4) by {
            reveal_with_fuel(popcount, 15);
        }
    } else if s == 9 {
        assert(popcount(0x47u64) == 4) by {
            reveal_with_fuel(popcount, 8);
        }
    } else if s == 10 {
        assert(popcount(0x2083u64) == 4) by {
            reveal_with_fuel(popcount, 15);
        }
    } else if s == 11 {
        assert(popcount(0x1c4u64) == 4) by {
            reveal_with_fuel(popcount, 10);
        }
    } else if s == 12 {
        assert(popcount(0x10c1u64) == 4) by {
            reveal_with_fuel(popcount, 14);
        }
    } else if s == 13 {
        assert(popcount(0x87u64) == 4) by {
            reveal_with_fuel(popcount, 9);
        }
    } else if s == 14 {
        assert(popcount(0x20c2u64) == 4) by {
            reveal_with_fuel(popcount, 15);
        }
    } else if s == 15 {
        assert(popcount(0x1c2u64) == 4) by {
            reveal_with_fuel(popcount, 10);
        }
    } else if s == 16 {
        assert(popcount(0xc3u64) == 4) by {
            reveal_with_fuel(popcount, 9);
        }
    } else if s == 17 {
        assert(popcount(0x41041u64) == 4) by {
            reveal_with_fuel(popcount, 20);
        }
    } else if s == 18 {
        assert(popcount(0xfu64) == 4) by {
            reveal_with_fuel(popcount, 5);
        }
    }
}

/// A piece that falls keeps clear of the stack.
proof fn lemma_fall_clear(b: u64, m: u64, h: int)
    requires
        h >= 0,
        b & (m << (h as u64)) == 0,
    ensures
        b & (m << (fall(b, m, h) as u64)) == 0,
    decreases h,
{
    if h > 0 && b & (m << ((h - 1) as u64)) == 0 {
        lemma_fall_clear(b, m, h - 1);
    }
}

/// A piece that is not blocked has no cell in common with the stack.
proof fn lemma_unblocked_clear(b: u64, e: u64)
    requires
        fits60(b),
        fits60(e),
        !blocked(b, e),
    ensures
        b & e == 0,
{
    lemma_lanes_bitwise(b, e);
    lemma_lanes_lt64(b, 0);
    lemma_lanes_lt64(e, 0);
    lemma_zero_lanes();
    lemma_and_le(b, e, 0, 0);
    assert forall|c: int| 0 <= c < 10 implies #[trigger] lane(b & e, c) == lane(0u64, c) by {
        assert(!(lane(b, c) & column_closure(lane(e, c)) != 0));
        bv_bits(0, 0, 0, lane(b, c), lane(e, c));
    }
    lemma_lanes_eq(b & e, 0);
}

/// An endgame drop adds the piece's four cells and takes out ten for each
/// line it clears.
pub proof fn lemma_drop_cells(b: BitBoard, x: int, s: int, lines: int)
    requires
        fits60(b@),
        0 <= s < 19,
        0 <= x,
        x + shape_width(s) <= 10,
        TARGET_LINES - 4 <= lines <= TARGET_LINES,
    ensures
        b.drop_spec(x, s, lines) matches Some((nb, cleared)) ==> popcount(nb@) + 10 * cleared == popcount(b@) + 4,
{
    let start = spawn_row(s, lines);
    let m = piece_word(x, s);
    if start >= 0 && !blocked(b@, m << (start as u64)) {
        lemma_shape_decode(s);
        let a = (spec_bit_table(s) as u64) & 0xFFFFFFu64;
        let t = (6 * (shape_width(s) - 1) + shape_height(s)) as u64;
        let f = fall(b@, m, start);
        lemma_shl_bound(a, t, (6 * x) as u64);
        lemma_shl_bound(m, (t + 6 * x) as u64, start as u64);
        lemma_unblocked_clear(b@, m << (start as u64));
        lemma_fall_clear(b@, m, start);
        assert(0 <= f <= start) by {
            lemma_fall_range(b@, m, start);
        }
        lemma_shl_bound(m, (t + 6 * x) as u64, f as u64);
        let p = m << (f as u64);
        lemma_popcount_shl(a, (6 * x) as u64, t);
        lemma_popcount_shl(m, f as u64, (t + 6 * x) as u64);
        lemma_piece_four(s);
        lemma_popcount_or(b@, p);
        crate::bitboard::lanes::lemma_or_below(b@, p, 0, 0);
        lemma_clear_count(b@ | p);
    }
}

/// A piece that drops stays within the sixty cells of the board.
pub(crate) proof fn lemma_place_fits(b: u64, x: int, s: int, lines: int)
    requires
        fits60(b),
        0 <= s < 19,
        0 <= x,
        x + shape_width(s) <= 10,
        TARGET_LINES - 4 <= lines <= TARGET_LINES,
    ensures
        crate::bitboard::place_word(b, x, s, lines) matches Some(w) ==> fits60(w),
{
    let start = spawn_row(s, lines);
    let m = piece_word(x, s);
    if start >= 0 && !blocked(b, m << (start as u64)) {
        lemma_shape_decode(s);
        let a = (spec_bit_table(s) as u64) & 0xFFFFFFu64;
        let t = (6 * (shape_width(s) - 1) + shape_height(s)) as u64;
        let f = fall(b, m, start);
        lemma_shl_bound(a, t, (6 * x) as u64);
        lemma_fall_range(b, m, start);
        lemma_shl_bound(m, (t + 6 * x) as u64, f as u64);
        crate::bitboard::lanes::lemma_or_below(b, m << (f as u64), 0, 0);
    }
}

/// A falling piece ends between the floor and where it entered.
proof fn lemma_fall_range(b: u64, m: u64, h: int)
    requires
        h >= 0,
    ensures
        0 <= fall(b, m, h) <= h,
    decreases h,
{
    if h > 0 && b & (m << ((h - 1) as u64)) == 0 {
        lemma_fall_range(b, m, h - 1);
    }
}

/// The cells of a stack with no holes: the sum of its first `n` column heights.
pub open spec fn stack_cells(h: Seq<int>, n: int) -> int
    decreases n,
{
    if n <= 0 {
        0
    } else {
        stack_cells(h, n - 1) + h[n - 1]
    }
}

/// The cells that orientation `s`, dropped with its left column at `x`, has
/// in column `c`.
pub open spec fn piece_column_cells(x: int, s: int, c: int) -> int {
    if x <= c < x + shape_width(s) {
        shape_columns(s)[c - x]
    } else {
        0
    }
}

/// The cells of the piece in columns `0..n`.
spec fn piece_cells_to(x: int, s: int, n: int) -> int
    decreases n,
{
    if n <= 0 {
        0
    } else {
        piece_cells_to(x, s, n - 1) + piece_column_cells(x, s, n - 1)
    }
}

/// The cells of the first `k` columns of orientation `s`.
spec fn columns_to(s: int, k: int) -> int
    decreases k,
{
    if k <= 0 {
        0
    } else {
        columns_to(s, k - 1) + shape_columns(s)[k - 1]
    }
}

/// `v` held between 0 and `hi`.
spec fn clamp(v: int, hi: int) -> int {
    if v <= 0 {
        0
    } else if v >= hi {
        hi
    } else {
        v
    }
}

/// The piece's cells in columns `0..n` are those of its columns left of `n`.
proof fn lemma_piece_cells_to(x: int, s: int, n: int)
    requires
        0 <= x,
        0 <= n,
        0 <= shape_width(s),
    ensures
        piece_cells_to(x, s, n) == columns_to(s, clamp(n - x, shape_width(s))),
    decreases n,
{
    if n > 0 {
        lemma_piece_cells_to(x, s, n - 1);
    }
}

/// The columns of every orientation hold four cells.
proof fn lemma_columns_four(s: int)
    requires
        0 <= s < 19,
    ensures
        columns_to(s, shape_width(s)) == 4,
{
    reveal_with_fuel(columns_to, 5);
}

/// The full rows below `t` among rows `0..k`: all the full rows but those of
/// the range `b..b + n`, which are full and not below `t`.
proof fn lemma_rows_below(h: Seq<int>, x: int, s: int, base: int, t: int, b: int, n: int, k: int)
    requires
        0 <= n,
        0 <= b,
        forall|r: int|
            #![trigger row_full(h, x, s, base, r)]
            0 <= r < k ==> (b <= r < b + n ==> row_full(h, x, s, base, r) && base + r >= t) && (!(b <= r < b
                + n) && row_full(h, x, s, base, r) ==> base + r < t),
    ensures
        full_rows_below(h, x, s, base, t, k) + clamp(k - b, n) == full_row_count(h, x, s, base, k),
    decreases k,
{
    if k > 0 {
        lemma_rows_below(h, x, s, base, t, b, n, k - 1);
        assert(row_full(h, x, s, base, k - 1) == row_full(h, x, s, base, k - 1));
    }
}

/// Column `c` after a drop: its height, plus the piece's cells in it, less
/// the cleared rows.
proof fn lemma_column_after_drop(h: Seq<int>, x: int, s: int, lines: int, c: int)
    requires
        h.len() == 10,
        0 <= s < 19,
        0 <= x,
        x + shape_width(s) <= 10,
        0 <= c < 10,
        drop_heights(h, x, s, lines) is Some,
    ensures
        ({
            let base = landing_row(h, x, s);
            let top = column_top(h, x, s, base, c);
            top - full_rows_below(h, x, s, base, top, shape_height(s)) == h[c] + piece_column_cells(x, s, c)
                - full_row_count(h, x, s, base, shape_height(s))
        }),
{
    lemma_shape_decode(s);
    let base = landing_row(h, x, s);
    let top = column_top(h, x, s, base, c);
    let hh = shape_height(s);
    assert(leaves_no_hole(h, x, s, base));
    if x <= c < x + shape_width(s) {
        let j = c - x;
        let bj = shape_bottoms(s)[j];
        let nj = shape_columns(s)[j];
        lemma_landing_row_max(h, x, s, j);
        if column_rest(h, x, s, j) == base {
            assert forall|r: int| #![trigger row_full(h, x, s, base, r)] 0 <= r < hh && row_full(h, x, s, base, r)
                implies base + r < top by {
                assert(h[c] > base + r || piece_cell(s, c - x, r));
            }
            lemma_rows_below(h, x, s, base, top, 0, 0, hh);
        } else {
            assert forall|r: int|
                #![trigger row_full(h, x, s, base, r)]
                0 <= r < hh implies (bj <= r < bj + nj ==> row_full(h, x, s, base, r) && base + r >= top) && (!(bj
                    <= r < bj + nj) && row_full(h, x, s, base, r) ==> base + r < top) by {
                if bj <= r < bj + nj {
                    assert(piece_cell(s, j, r));
                } else if row_full(h, x, s, base, r) {
                    assert(h[c] > base + r || piece_cell(s, c - x, r));
                }
            }
            lemma_rows_below(h, x, s, base, top, bj, nj, hh);
        }
    } else {
        assert forall|r: int| #![trigger row_full(h, x, s, base, r)] 0 <= r < hh && row_full(h, x, s, base, r)
            implies base + r < top by {
            assert(h[c] > base + r || piece_cell(s, c - x, r));
        }
        lemma_rows_below(h, x, s, base, top, 0, 0, hh);
    }
}

/// Summing the columns of a drop.
proof fn lemma_stack_sum(h: Seq<int>, nh: Seq<int>, x: int, s: int, f: int, n: int)
    requires
        0 <= n <= 10,
        forall|c: int| 0 <= c < 10 ==> #[trigger] nh[c] == h[c] + piece_column_cells(x, s, c) - f,
    ensures
        stack_cells(nh, n) == stack_cells(h, n) + piece_cells_to(x, s, n) - n * f,
    decreases n,
{
    if n > 0 {
        lemma_stack_sum(h, nh, x, s, f, n - 1);
        assert(nh[n - 1] == h[n - 1] + piece_column_cells(x, s, n - 1) - f);
        assert((n - 1) * f + f == n * f) by (nonlinear_arith);
    } else {
        assert(n * f == 0) by (nonlinear_arith)
            requires
                n == 0,
        ;
    }
}

/// A drop on a stack with no holes adds the piece's four cells and takes out
/// ten for each line it clears.
pub proof fn lemma_drop_heights_cells(h: Seq<int>, x: int, s: int, lines: int)
    requires
        h.len() == 10,
        0 <= s < 19,
        0 <= x,
        x + shape_width(s) <= 10,
    ensures
        drop_heights(h, x, s, lines) matches Some((nh, cleared)) ==> stack_cells(nh, 10) + 10 * cleared
            == stack_cells(h, 10) + 4,
{
    if drop_heights(h, x, s, lines) is Some {
        lemma_shape_decode(s);
        let base = landing_row(h, x, s);
        let nh = drop_heights(h, x, s, lines)->Some_0.0;
        let f = full_row_count(h, x, s, base, shape_height(s));
        assert forall|c: int| 0 <= c < 10 implies #[trigger] nh[c] == h[c] + piece_column_cells(x, s, c) - f by {
            lemma_column_after_drop(h, x, s, lines, c);
        }
        lemma_stack_sum(h, nh, x, s, f, 10);
        lemma_piece_cells_to(x, s, 10);
        lemma_columns_four(s);
    }
}

/// Columns `c` to 9 of a board word filled from the floor to heights `h`
/// hold the cells of those heights.
proof fn lemma_filled_lanes(w: u64, h: Seq<int>, c: int)
    requires
        h.len() == 10,
        0 <= c <= 10,
        forall|d: int| 0 <= d < 10 ==> 0 <= #[trigger] h[d] <= 6,
        forall|d: int| 0 <= d < 10 ==> #[trigger] lane(w, d) == ((1u64 << (h[d] as u64)) - 1u64) as u64,
    ensures
        lanes_count(w, c) + stack_cells(h, c) == stack_cells(h, 10),
    decreases 10 - c,
{
    if c < 10 {
        lemma_filled_lanes(w, h, c + 1);
        bv_counts(0, 0, 0, h[c] as u64, 0);
        assert(lane(w, c) == ((1u64 << (h[c] as u64)) - 1u64) as u64);
    }
}

/// The endgame board made from a stack with no holes, each column filled from
/// the floor to its height, holds the stack's cells.
pub proof fn lemma_filled_board_cells(w: u64, shape: ShapeBoard)
    requires
        fits60(w),
        shape.wf(),
        forall|c: int| 0 <= c < 10 ==> #[trigger] lane(shape.packed_shape, c) <= 6,
        forall|c: int| 0 <= c < 10 ==> #[trigger] lane(w, c) == ((1u64 << lane(shape.packed_shape, c)) - 1u64) as u64,
    ensures
        popcount(w) == stack_cells(shape.heights(), 10),
{
    let h = shape.heights();
    assert forall|d: int| 0 <= d < 10 implies 0 <= #[trigger] h[d] <= 6 by {
        assert(lane(shape.packed_shape, d) <= 6);
    }
    assert forall|d: int| 0 <= d < 10 implies #[trigger] lane(w, d) == ((1u64 << (h[d] as u64)) - 1u64) as u64 by {
        assert(lane(w, d) == ((1u64 << lane(shape.packed_shape, d)) - 1u64) as u64);
    }
    lemma_filled_lanes(w, h, 0);
    lemma_popcount_lanes(w, 0);
    assert(w >> 0u64 == w) by {
        lemma_shr_twice(w, 0);
    }
}

} // verus!
