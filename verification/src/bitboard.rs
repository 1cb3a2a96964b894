//! Board representations for the search.
//!
//! `ShapeBoard` keeps only the height of each of the ten columns (it admits no
//! holes) and serves the beam search; `BitBoard` keeps every cell of the six
//! lowest rows and serves the endgame search.
pub mod lanes;
pub mod shapes;
pub mod cells;
pub mod count;

use vstd::prelude::*;
use crate::config::{PC_END, TARGET_LINES};
use vstd::arithmetic::power2::{pow2, lemma2_to64, lemma_pow2_unfold};

verus! {

use crate::bitboard::lanes::{
    lane, lane32, fits60, lemma_lane_concrete, lemma_lane32_concrete, lemma_lanes_sub, lemma_lanes_add,
    lemma_lanes_eq, lemma_lanes_spread, lemma_lanes_bitwise, lemma_lanes32_bitwise, lemma_lanes_shr,
    lemma_lanes_shl, lemma_lanes_narrow, lemma_lanes_widen, lemma_lanes32_sub, lemma_lanes32_eq,
    lemma_lanes32_spread, lemma_lanes_guard_down, lemma_lanes32_guard_down, lemma_small_bits,
    lemma_and_le, lemma_column_bits, lemma_row_select, lemma_bit_of, lemma_shift_widths,
    lemma_lanes_lt64, lemma_mask_within, lemma_board_consts, lemma_or_below, lemma_set_bit,
    lemma_bits_within, lemma_zero_lanes, lemma_bit_masks, lemma_shl_below, lemma_test_bit,
};
use crate::bitboard::cells::{
    cell, bit_set, full_rows_word, lemma_full_rows_word, hitbox_word, column_closure, lemma_hitbox_lanes,
    remove_row, remove_row_word, lemma_remove_row_lanes, lemma_shl_bound, lemma_row_bits, lemma_column_word,
};
use crate::bitboard::shapes::{
    shape_width, shape_height, shape_bottoms, shape_columns, piece_cell, lane_ones, lemma_shape_decode,
    spec_shape_mask_bits, spec_bit_table, shape_mask_bits, bit_table,
};

/// The larger of two integers.
pub open spec fn max_int(a: int, b: int) -> int {
    if a >= b {
        a
    } else {
        b
    }
}

/// How far column `j` of orientation `s`, dropped with its left column at
/// `x`, lets the piece's lowest row sink: the column's height less the
/// piece column's bottom.
pub open spec fn column_rest(h: Seq<int>, x: int, s: int, j: int) -> int {
    h[x + j] - shape_bottoms(s)[j]
}

/// The row on which orientation `s` comes to rest when dropped at `x`.
pub open spec fn landing_row(h: Seq<int>, x: int, s: int) -> int {
    let w = shape_width(s);
    let d0 = column_rest(h, x, s, 0);
    let d1 = if w > 1 {
        max_int(d0, column_rest(h, x, s, 1))
    } else {
        d0
    };
    let d2 = if w > 2 {
        max_int(d1, column_rest(h, x, s, 2))
    } else {
        d1
    };
    if w > 3 {
        max_int(d2, column_rest(h, x, s, 3))
    } else {
        d2
    }
}

/// Whether row `base + r` is full once the piece rests with its lowest row on
/// row `base`: every column has a block there, of the stack or of the piece.
pub open spec fn row_full(h: Seq<int>, x: int, s: int, base: int, r: int) -> bool {
    forall|c: int|
        0 <= c < 10 ==> (x <= c < x + shape_width(s) && piece_cell(s, c - x, r)) || #[trigger] h[c]
            > base + r
}

/// Whether piece column `j` rests on its column of the stack, with no gap
/// below it.
pub open spec fn rests_on_stack(h: Seq<int>, x: int, s: int, base: int, j: int) -> bool {
    column_rest(h, x, s, j) == base
}

/// Whether every cell of the piece that a cleared row does not take away
/// rests on the stack, so that the drop leaves no hole.
pub open spec fn leaves_no_hole(h: Seq<int>, x: int, s: int, base: int) -> bool {
    forall|j: int, r: int|
        0 <= j < shape_width(s) && 0 <= r < shape_height(s) && #[trigger] piece_cell(s, j, r)
            && !row_full(h, x, s, base, r) ==> rests_on_stack(h, x, s, base, j)
}

/// The height of column `c` with the piece in place, before rows are cleared.
pub open spec fn column_top(h: Seq<int>, x: int, s: int, base: int, c: int) -> int {
    if x <= c < x + shape_width(s) && rests_on_stack(h, x, s, base, c - x) {
        base + shape_bottoms(s)[c - x] + shape_columns(s)[c - x]
    } else {
        h[c]
    }
}

/// The number of full rows among the piece's rows `0..k` that lie below
/// height `t`.
pub open spec fn full_rows_below(h: Seq<int>, x: int, s: int, base: int, t: int, k: int) -> int
    decreases k,
{
    if k <= 0 {
        0
    } else {
        full_rows_below(h, x, s, base, t, k - 1) + (if row_full(h, x, s, base, k - 1) && base + k
            - 1 < t {
            1int
        } else {
            0
        })
    }
}

/// The number of full rows among the piece's rows `0..k`.
pub open spec fn full_row_count(h: Seq<int>, x: int, s: int, base: int, k: int) -> int
    decreases k,
{
    if k <= 0 {
        0
    } else {
        full_row_count(h, x, s, base, k - 1) + (if row_full(h, x, s, base, k - 1) {
            1int
        } else {
            0
        })
    }
}

/// Dropping orientation `s` at `x` on a stack of column heights `h` after
/// `lines` cleared lines: the new heights and the rows cleared, or `None`
/// where the piece would rise above row 20, above the lines still to clear,
/// or leave a hole.
pub open spec fn drop_heights(h: Seq<int>, x: int, s: int, lines: int) -> Option<(Seq<int>, int)> {
    let base = landing_row(h, x, s);
    let top = base + shape_height(s);
    if top > 20 || top > TARGET_LINES - lines {
        None
    } else if !leaves_no_hole(h, x, s, base) {
        None
    } else {
        Some(
            (
                Seq::new(
                    10,
                    |c: int|
                        column_top(h, x, s, base, c) - full_rows_below(
                            h,
                            x,
                            s,
                            base,
                            column_top(h, x, s, base, c),
                            shape_height(s),
                        ),
                ),
                full_row_count(h, x, s, base, shape_height(s)),
            ),
        )
    }
}

/// A board that the search drops pieces on.
pub trait Board: Sized + Copy + PartialEq + Eq + core::hash::Hash + Default + core::fmt::Debug {
    /// Whether the board is well formed.
    spec fn board_wf(&self) -> bool;

    /// Whether this kind of board handles drops after `lines` cleared lines.
    spec fn lines_ok(lines: int) -> bool;

    /// The board after dropping orientation `s` at column `x` after `lines`
    /// cleared lines, and the rows it clears; `None` where the drop is not
    /// allowed.
    spec fn drop_spec(&self, x: int, s: int, lines: int) -> Option<(Self, int)>;

    /// The empty board.
    spec fn spec_empty() -> Self;

    /// Drops orientation `shape_idx` with its left column at `x`.
    fn drop_piece(&self, x: u8, shape_idx: u8, lines_cleared: u16) -> (r: Option<(Self, u8)>)
        requires
            self.board_wf(),
            shape_idx < 19,
            x + shape_width(shape_idx as int) <= 10,
            Self::lines_ok(lines_cleared as int),
        ensures
            match r {
                None => self.drop_spec(x as int, shape_idx as int, lines_cleared as int) is None,
                Some((b, n)) => self.drop_spec(x as int, shape_idx as int, lines_cleared as int) == Some(
                    (b, n as int),
                ) && b.board_wf() && n <= 6,
            },
    ;

    /// The empty board.
    fn empty() -> (b: Self)
        ensures
            b == Self::spec_empty(),
            b.board_wf(),
    ;

    /// Whether two boards are the same.
    fn same(&self, other: &Self) -> (b: bool)
        ensures
            b == (*self == *other),
    ;

    /// Whether the board is well formed (see `board_wf`).
    fn wf_check(&self) -> (b: bool)
        ensures
            b == self.board_wf(),
    ;

    /// Whether this kind of board handles drops after `lines` cleared lines.
    fn lines_check(lines: u16) -> (b: bool)
        ensures
            b == Self::lines_ok(lines as int),
    ;

    /// The line counts a board handles lie within the sprint.
    proof fn lemma_lines_ok(lines: int)
        requires
            Self::lines_ok(lines),
        ensures
            0 <= lines <= TARGET_LINES,
    ;
}

/// The column heights of a stack with no holes, six bits per column.
#[derive(Clone, Copy, PartialEq, Eq, Hash, Default, Debug)]
pub struct ShapeBoard {
    pub packed_shape: u64,
}

/// The mask of one column's height.
pub const SHAPE_COL_MASK: u64 = 0x1F;
/// The bits per column.
pub const SHAPE_LANE_SIZE: u8 = 6;
/// Bit 5 of each column's lane.
pub const SHAPE_GUARD: u64 = 0o40404040404040404040;

impl ShapeBoard {
    /// Every column is at most 20 high, and nothing lies above the ten lanes.
    pub open spec fn wf(&self) -> bool {
        &&& fits60(self.packed_shape)
        &&& forall|i: int| 0 <= i < 10 ==> #[trigger] lane(self.packed_shape, i) <= 20
    }

    /// The ten column heights.
    pub open spec fn heights(&self) -> Seq<int> {
        Seq::new(10, |i: int| lane(self.packed_shape, i) as int)
    }

    /// The height of column `col`; column 10 reads the bits above the ten
    /// columns.
    pub fn get_height(&self, col: usize) -> (h: u64)
        requires
            col <= 10,
        ensures
            h == lane(self.packed_shape, col as int) & 31,
    {
        proof {
            lemma_shift_widths(self.packed_shape >> ((col * 6) as u64), (col * 6) as u8, 0, 0);
            lemma_shift_widths(self.packed_shape, (col * 6) as u8, 0, 0);
        }
        (self.packed_shape >> (col as u8 * SHAPE_LANE_SIZE)) & SHAPE_COL_MASK
    }
}


/// The packed description of a piece orientation that `ShapeBoard` drops
/// read: per piece column (six bits each) its cell count in bits 0-2, its
/// bottom row in bits 3-4 and a guard bit 5; the orientation's height in bits
/// 24 and up.
#[derive(Clone, Copy, PartialEq, Eq)]
pub struct FastMask(pub u32);

impl FastMask {
    /// Bit 5 of each lane that the piece spans.
    fn guard_mask(self) -> (r: u32)
        ensures
            r == self.0 & 0o40404040,
    {
        self.0 & 0o40404040
    }

    /// The cell count of each piece column.
    fn added_mask(self) -> (r: u32)
        ensures
            r == self.0 & 0o07070707,
    {
        self.0 & 0o07070707
    }

    /// The bottom row of each piece column.
    fn packed_bottoms(self) -> (r: u32)
        ensures
            r == (self.0 & 0o30303030) >> 3,
    {
        (self.0 & 0o30303030) >> 3
    }

    /// The orientation's height.
    fn max_height(self) -> (r: u32)
        ensures
            r == self.0 >> 24,
    {
        self.0 >> 24
    }
}

/// The packed description of orientation `s`.
fn shape_table(s: u8) -> (m: FastMask)
    requires
        s < 19,
    ensures
        m.0 == spec_shape_mask_bits(s as int),
{
    FastMask(shape_mask_bits(s))
}

/// For each piece column, 32 plus its stack column's height less its bottom
/// (0 beyond the piece), and the largest of these: 32 plus the landing row.
fn landing_lanes(packed: u64, mask: FastMask, shift: u8, Ghost(x): Ghost<int>, Ghost(s): Ghost<int>) -> (res: (u32, u32))
    requires
        (ShapeBoard { packed_shape: packed }).wf(),
        0 <= s < 19,
        mask.0 == spec_shape_mask_bits(s),
        0 <= x,
        x + shape_width(s) <= 10,
        shift == 6 * x,
    ensures
        res.0 < 0x100_0000,
        forall|j: int|
            0 <= j < 4 ==> #[trigger] lane32(res.0, j) == (if j < shape_width(s) {
                (32 + column_rest((ShapeBoard { packed_shape: packed }).heights(), x, s, j)) as u32
            } else {
                0u32
            }),
        res.1 == 32 + landing_row((ShapeBoard { packed_shape: packed }).heights(), x, s),
        0 <= landing_row((ShapeBoard { packed_shape: packed }).heights(), x, s) <= 20,
{
    let ghost h = (ShapeBoard { packed_shape: packed }).heights();
    let ghost w = shape_width(s);
    proof {
        lemma_shape_decode(s);
        lemma_lanes_lt64(packed, mask.0);
    }
    let guard_mask = mask.guard_mask();
    let lane1_mask = guard_mask >> 5;
    proof {
        lemma_lanes32_sub(guard_mask, lane1_mask);
        lemma_mask_within(0, 0, guard_mask, 0o40404040);
        lemma_and_le(0, 0, mask.0, 0o40404040);
    }
    let col_mask = guard_mask - lane1_mask;
    let sh = packed >> shift;
    let narrow = #[verifier::truncate] (sh as u32);
    let cols = narrow & col_mask;
    proof {
        lemma_shift_widths(packed, shift, 0, 0);
        lemma_lanes_shr(packed, x);
        lemma_lanes_narrow(sh);
        lemma_lanes32_bitwise(narrow, col_mask);
        lemma_and_le(0, 0, narrow, col_mask);
        assert forall|j: int| 0 <= j < 4 implies #[trigger] lane32(cols, j) == (if j < w {
            h[x + j] as u32
        } else {
            0u32
        }) by {
            lemma_small_bits(0, lane32(narrow, j));
            if j < w {
                assert(lane32(narrow, j) as u64 == lane(packed, x + j));
                lemma_small_bits(0, lane32(narrow, j));
            }
        }
    }
    let with_guard = cols | guard_mask;
    let bottoms = mask.packed_bottoms();
    proof {
        lemma_lanes32_bitwise(cols, guard_mask);
        lemma_and_le(0, 0, 0, 0);
        assert(with_guard < 0x100_0000) by {
            lemma_or_below(0, 0, cols, guard_mask);
        }
        assert forall|j: int| 0 <= j < 4 implies #[trigger] lane32(with_guard, j) == (if j < w {
            (h[x + j] + 32) as u32
        } else {
            0u32
        }) by {
            lemma_small_bits(0, lane32(cols, j));
        }
        lemma_lanes32_sub(with_guard, bottoms);
    }
    let diff = with_guard - bottoms;
    proof {
        lemma_lane32_concrete(diff);
    }
    let base_y_offset = max_u32(max_u32(diff & 0x3F, (diff >> 6) & 0x3F), max_u32((diff >> 12) & 0x3F, (diff >> 18) & 0x3F));
    proof {
        let lr = landing_row(h, x, s);
        let b = shape_bottoms(s);
        assert(exists|j: int| 0 <= j < w && b[j] == 0);
        let j0 = choose|j: int| 0 <= j < w && b[j] == 0;
        assert(h[x + j0] >= 0);
        assert(column_rest(h, x, s, j0) >= 0);
        assert(lr >= column_rest(h, x, s, j0)) by {
            assert(j0 == 0 || j0 == 1 || j0 == 2 || j0 == 3);
        }
        assert(lr <= 20) by {
            assert(forall|j: int| 0 <= j < w ==> column_rest(h, x, s, j) <= 20);
        }
        lemma_shift_widths(0, 0, diff, 0);
        assert(lane32(diff, 0) == diff & 0x3F);
        assert(forall|j: int| 0 <= j < w ==> #[trigger] lane32(diff, j) == 32 + column_rest(h, x, s, j));
        assert(base_y_offset == 32 + lr);
    }
    (diff, base_y_offset)
}

/// Whether the piece's row `r`, with the piece resting on row `base_y`,
/// completes a full row.
fn row_is_full(
    packed: u64,
    bit_shape: u32,
    lane1_mask: u32,
    shift: u8,
    base_y: u32,
    r: u32,
    Ghost(x): Ghost<int>,
    Ghost(s): Ghost<int>,
) -> (full: bool)
    requires
        (ShapeBoard { packed_shape: packed }).wf(),
        0 <= s < 19,
        0 <= x,
        x + shape_width(s) <= 10,
        shift == 6 * x,
        bit_shape == spec_bit_table(s) & 0xFFFFFF,
        lane1_mask == (spec_shape_mask_bits(s) & 0o40404040u32) >> 5,
        r < shape_height(s),
        base_y + shape_height(s) <= 20,
    ensures
        full == row_full((ShapeBoard { packed_shape: packed }).heights(), x, s, base_y as int, r as int),
{
    let ghost h = (ShapeBoard { packed_shape: packed }).heights();
    let ghost w = shape_width(s);
    proof {
        lemma_shape_decode(s);
        lemma_board_consts();
        lemma_lanes_lt64(packed, bit_shape);
    }
    let board_lane1 = SHAPE_GUARD >> 5;
    let k = (base_y + r + 1) as u64;
    let raised = packed | SHAPE_GUARD;
    proof {
        lemma_lanes_bitwise(packed, SHAPE_GUARD);
        lemma_or_below(packed, SHAPE_GUARD, 0, 0);
        assert forall|i: int| 0 <= i < 10 implies #[trigger] lane(raised, i) == lane(packed, i) + 32 by {
            lemma_small_bits(lane(packed, i), 0);
        }
        lemma_lanes_spread(k);
        lemma_lanes_sub(raised, (k * board_lane1) as u64);
    }
    let below = raised - k * board_lane1;
    let board_guard = below & SHAPE_GUARD;
    proof {
        lemma_lanes_bitwise(below, SHAPE_GUARD);
        lemma_and_le(below, SHAPE_GUARD, 0, 0);
        assert forall|i: int| 0 <= i < 10 implies #[trigger] lane(board_guard, i) == (if h[i] >= k {
            32u64
        } else {
            0u64
        }) by {
            lemma_small_bits(lane(below, i), 0);
        }
        lemma_row_select(bit_shape, lane1_mask, r);
    }
    let picked = ((bit_shape >> r) & lane1_mask) << 5;
    let wide = picked as u64;
    let piece_guard = wide << shift;
    proof {
        lemma_lanes_widen(picked);
        lemma_shift_widths(wide, shift, 0, 0);
        lemma_lanes_shl(wide, x);
        assert forall|i: int| 0 <= i < 10 implies #[trigger] lane(piece_guard, i) == (if x <= i < x + w
            && piece_cell(s, i - x, r as int) {
            32u64
        } else {
            0u64
        }) by {
            if x <= i < x + w {
                let j = i - x;
                lemma_column_bits(shape_bottoms(s)[j] as u32, shape_columns(s)[j] as u32, r);
                lemma_bit_of(lane32(bit_shape, j), r);
            } else if i >= x + w && i < x + 4 {
                assert(lane(piece_guard, i) == lane(wide, i - x));
            }
        }
        lemma_lanes_bitwise(board_guard, piece_guard);
    }
    let either = board_guard | piece_guard;
    let covered = either & SHAPE_GUARD;
    proof {
        lemma_lanes_bitwise(either, SHAPE_GUARD);
        lemma_and_le(either, SHAPE_GUARD, 0, 0);
        assert forall|i: int| 0 <= i < 10 implies #[trigger] lane(covered, i) == (if lane(board_guard, i) == 32
            || lane(piece_guard, i) == 32 {
            32u64
        } else {
            0u64
        }) by {
            lemma_small_bits(lane(board_guard, i), 0);
            lemma_small_bits(lane(piece_guard, i), 0);
            lemma_small_bits(lane(either, i), 0);
        }
        if covered == SHAPE_GUARD {
            assert forall|c: int| 0 <= c < 10 implies (x <= c < x + w && piece_cell(s, c - x, r as int))
                || #[trigger] h[c] > base_y + r by {
                assert(lane(covered, c) == 32);
            }
        }
        if row_full(h, x, s, base_y as int, r as int) {
            assert forall|i: int| 0 <= i < 10 implies #[trigger] lane(covered, i) == lane(SHAPE_GUARD, i) by {
                assert(h[i] == lane(packed, i));
            }
            lemma_lanes_eq(covered, SHAPE_GUARD);
        }
    }
    covered == SHAPE_GUARD
}

/// The piece columns that rest on the stack, as 31 in their lane (0 in the
/// others).
fn stacked_lanes(
    guard_mask: u32,
    lane1_mask: u32,
    base_y_offset: u32,
    diff: u32,
    Ghost(h): Ghost<Seq<int>>,
    Ghost(x): Ghost<int>,
    Ghost(s): Ghost<int>,
) -> (stacked_full: u32)
    requires
        0 <= s < 19,
        guard_mask == spec_shape_mask_bits(s) & 0o40404040u32,
        lane1_mask == guard_mask >> 5,
        diff < 0x100_0000,
        forall|j: int|
            0 <= j < 4 ==> #[trigger] lane32(diff, j) == (if j < shape_width(s) {
                (32 + column_rest(h, x, s, j)) as u32
            } else {
                0u32
            }),
        base_y_offset == 32 + landing_row(h, x, s),
        0 <= landing_row(h, x, s) <= 20,
        forall|j: int| 0 <= j < shape_width(s) ==> #[trigger] column_rest(h, x, s, j) >= -2,
    ensures
        stacked_full < 0x100_0000,
        forall|j: int|
            0 <= j < 4 ==> #[trigger] lane32(stacked_full, j) == (if j < shape_width(s) && rests_on_stack(
                h,
                x,
                s,
                landing_row(h, x, s),
                j,
            ) {
                31u32
            } else {
                0u32
            }),
{
    let ghost w = shape_width(s);
    let ghost lr = landing_row(h, x, s);
    proof {
        lemma_shape_decode(s);
        lemma_lanes32_spread(base_y_offset, lane1_mask);
        assert forall|j: int| 0 <= j < w implies #[trigger] column_rest(h, x, s, j) <= lr by {
            assert(j == 0 || j == 1 || j == 2 || j == 3);
        }
        lemma_lanes32_sub((base_y_offset * lane1_mask) as u32, diff);
    }
    let gap = base_y_offset * lane1_mask - diff;
    proof {
        lemma_lanes32_sub(guard_mask, gap);
    }
    let flagged = guard_mask - gap;
    let stacked_guard = flagged & guard_mask;
    proof {
        lemma_lanes32_bitwise(flagged, guard_mask);
        lemma_and_le(0, 0, flagged, guard_mask);
        assert forall|j: int| 0 <= j < 4 implies #[trigger] lane32(stacked_guard, j) == (if j < w && rests_on_stack(
            h,
            x,
            s,
            lr,
            j,
        ) {
            32u32
        } else {
            0u32
        }) by {
            lemma_small_bits(0, lane32(flagged, j));
        }
        lemma_mask_within(0, 0, flagged, 0o40404040u32);
        lemma_mask_within(spec_shape_mask_bits(s) as u64, 0, flagged, 0o40404040u32);
        lemma_lanes32_guard_down(stacked_guard);
        assert forall|j: int| 0 <= j < 4 implies #[trigger] lane32(stacked_guard >> 5, j) <= lane32(stacked_guard, j) by {
            lemma_small_bits(0, lane32(stacked_guard, j));
        }
        lemma_lanes32_sub(stacked_guard, stacked_guard >> 5);
        assert forall|j: int| 0 <= j < 4 implies #[trigger] lane32((stacked_guard - (stacked_guard >> 5)) as u32, j) == (if j < w && rests_on_stack(
            h,
            x,
            s,
            lr,
            j,
        ) {
            31u32
        } else {
            0u32
        }) by {
            lemma_small_bits(0, lane32(stacked_guard, j));
        }
    }
    stacked_guard - (stacked_guard >> 5)
}

/// The number of full rows among the piece's rows `0..k` that lie at or
/// below height `t`.
spec fn full_rows_reaching(h: Seq<int>, x: int, s: int, base: int, t: int, k: int) -> int
    decreases k,
{
    if k <= 0 {
        0
    } else {
        full_rows_reaching(h, x, s, base, t, k - 1) + (if row_full(h, x, s, base, k - 1) && base + k
            - 1 <= t {
            1int
        } else {
            0
        })
    }
}

/// The landing row is at least each piece column's rest.
pub(crate) proof fn lemma_landing_row_max(h: Seq<int>, x: int, s: int, j: int)
    requires
        0 <= s < 19,
        0 <= j < shape_width(s),
    ensures
        column_rest(h, x, s, j) <= landing_row(h, x, s),
{
    lemma_shape_decode(s);
    assert(j == 0 || j == 1 || j == 2 || j == 3);
}

/// No column's top lies exactly on a full row.
proof fn lemma_top_not_on_full_row(h: Seq<int>, x: int, s: int, r: int, c: int)
    requires
        0 <= s < 19,
        0 <= c < 10,
        0 <= r < shape_height(s),
        row_full(h, x, s, landing_row(h, x, s), r),
    ensures
        column_top(h, x, s, landing_row(h, x, s), c) != landing_row(h, x, s) + r,
{
    lemma_shape_decode(s);
    let base = landing_row(h, x, s);
    assert(h[c] == h[c]);
    if x <= c < x + shape_width(s) {
        lemma_landing_row_max(h, x, s, c - x);
    }
}

/// Counting rows "at or below" the top counts the rows below it.
proof fn lemma_reaching_is_below(h: Seq<int>, x: int, s: int, c: int, k: int)
    requires
        0 <= s < 19,
        0 <= c < 10,
        0 <= k <= shape_height(s),
    ensures
        full_rows_reaching(h, x, s, landing_row(h, x, s), column_top(h, x, s, landing_row(h, x, s), c), k)
            == full_rows_below(h, x, s, landing_row(h, x, s), column_top(h, x, s, landing_row(h, x, s), c), k),
    decreases k,
{
    if k > 0 {
        lemma_reaching_is_below(h, x, s, c, k - 1);
        if row_full(h, x, s, landing_row(h, x, s), k - 1) {
            lemma_top_not_on_full_row(h, x, s, k - 1, c);
        }
    }
}

/// The full rows below `t` are at most `t - base` and at most `k`.
proof fn lemma_full_rows_below_bound(h: Seq<int>, x: int, s: int, base: int, t: int, k: int)
    requires
        k >= 0,
    ensures
        0 <= full_rows_below(h, x, s, base, t, k) <= k,
        full_rows_below(h, x, s, base, t, k) <= max_int(0, t - base),
        full_row_count(h, x, s, base, k) <= k,
        0 <= full_row_count(h, x, s, base, k),
    decreases k,
{
    if k > 0 {
        lemma_full_rows_below_bound(h, x, s, base, t, k - 1);
    }
}

/// Records, row by row, which of the piece's rows are full: bit `r` of the
/// mask is set for each full row `r`, and the count of full rows.
fn cleared_rows(
    packed: u64,
    bit_shape: u32,
    lane1_mask: u32,
    shift: u8,
    base_y: u32,
    max_height: u32,
    Ghost(x): Ghost<int>,
    Ghost(s): Ghost<int>,
) -> (res: (u32, u8))
    requires
        (ShapeBoard { packed_shape: packed }).wf(),
        0 <= s < 19,
        0 <= x,
        x + shape_width(s) <= 10,
        shift == 6 * x,
        bit_shape == spec_bit_table(s) & 0xFFFFFF,
        lane1_mask == (spec_shape_mask_bits(s) & 0o40404040u32) >> 5,
        max_height == shape_height(s),
        base_y + shape_height(s) <= 20,
    ensures
        res.0 < 16,
        forall|q: u32|
            q < 6 ==> (#[trigger] ((res.0 >> q) & 1u32) == 1u32 <==> (q < shape_height(s) && row_full(
                (ShapeBoard { packed_shape: packed }).heights(),
                x,
                s,
                base_y as int,
                q as int,
            ))),
        res.1 == full_row_count((ShapeBoard { packed_shape: packed }).heights(), x, s, base_y as int, shape_height(s)),
{
    let ghost h = (ShapeBoard { packed_shape: packed }).heights();
    proof {
        lemma_shape_decode(s);
    }
    let mut cleared_mask = 0u32;
    let mut lines_cleared_count = 0u8;
    let mut r: u32 = 0;
    proof {
        lemma_bit_masks(0, 0);
        assert forall|q: u32| q < 6 implies #[trigger] ((cleared_mask >> q) & 1u32) == 0u32 by {
            lemma_bit_masks(0, q);
        }
    }
    while r < max_height
        invariant
            0 <= s < 19,
            max_height == shape_height(s),
            max_height <= 4,
            r <= max_height,
            cleared_mask < (1u32 << r),
            r < 6,
            forall|q: u32|
                q < 6 ==> (#[trigger] ((cleared_mask >> q) & 1u32) == 1u32 <==> (q < r && row_full(
                    h,
                    x,
                    s,
                    base_y as int,
                    q as int,
                ))),
            lines_cleared_count == full_row_count(h, x, s, base_y as int, r as int),
            lines_cleared_count <= r,
            h == (ShapeBoard { packed_shape: packed }).heights(),
            (ShapeBoard { packed_shape: packed }).wf(),
            0 <= x,
            x + shape_width(s) <= 10,
            shift == 6 * x,
            bit_shape == spec_bit_table(s) & 0xFFFFFF,
            lane1_mask == (spec_shape_mask_bits(s) & 0o40404040u32) >> 5,
            base_y + shape_height(s) <= 20,
        decreases max_height - r,
    {
        let full = row_is_full(packed, bit_shape, lane1_mask, shift, base_y, r, Ghost(x), Ghost(s));
        proof {
            assert forall|q: u32| q < 6 implies (#[trigger] ((cleared_mask >> q) & 1u32) == 1u32 || ((cleared_mask >> q) & 1u32) == 0u32) by {
                lemma_set_bit(cleared_mask, r, q);
            }
        }
        if full {
            let ghost old_mask = cleared_mask;
            cleared_mask |= 1 << r;
            lines_cleared_count += 1;
            proof {
                assert forall|q: u32|
                    q < 6 implies (#[trigger] ((cleared_mask >> q) & 1u32) == 1u32 <==> (q < r + 1 && row_full(
                        h,
                        x,
                        s,
                        base_y as int,
                        q as int,
                    ))) by {
                    lemma_set_bit(old_mask, r, q);
                }
                lemma_set_bit(old_mask, r, 0);
            }
        } else {
            proof {
                lemma_set_bit(cleared_mask, r, 0);
                assert(cleared_mask < (1u32 << (r + 1))) by {
                    lemma_bit_masks(r, 0);
                }
                assert forall|q: u32|
                    q < 6 implies (#[trigger] ((cleared_mask >> q) & 1u32) == 1u32 <==> (q < r + 1 && row_full(
                        h,
                        x,
                        s,
                        base_y as int,
                        q as int,
                    ))) by {
                    lemma_set_bit(cleared_mask, r, q);
                }
            }
        }
        r += 1;
    }
    proof {
        lemma_bit_masks(r, 0);
    }
    (cleared_mask, lines_cleared_count)
}

/// Whether the drop would leave a hole: some piece cell outside the full rows
/// hangs above a gap.
fn leaves_hole(
    bit_shape: u32,
    cleared_mask: u32,
    lane1_mask: u32,
    stacked_full: u32,
    Ghost(h): Ghost<Seq<int>>,
    Ghost(x): Ghost<int>,
    Ghost(s): Ghost<int>,
    Ghost(base): Ghost<int>,
) -> (hole: bool)
    requires
        0 <= s < 19,
        bit_shape == spec_bit_table(s) & 0xFFFFFF,
        lane1_mask == (spec_shape_mask_bits(s) & 0o40404040u32) >> 5,
        cleared_mask < 16,
        forall|q: u32|
            q < 6 ==> (#[trigger] ((cleared_mask >> q) & 1u32) == 1u32 <==> (q < shape_height(s) && row_full(
                h,
                x,
                s,
                base,
                q as int,
            ))),
        stacked_full < 0x100_0000,
        forall|j: int|
            0 <= j < 4 ==> #[trigger] lane32(stacked_full, j) == (if j < shape_width(s) && rests_on_stack(
                h,
                x,
                s,
                base,
                j,
            ) {
                31u32
            } else {
                0u32
            }),
    ensures
        hole == !leaves_no_hole(h, x, s, base),
{
    let ghost w = shape_width(s);
    let ghost mh = shape_height(s);
    proof {
        assert({
            &&& 1 <= w <= 4
            &&& 1 <= mh <= 4
            &&& shape_bottoms(s).len() == w
            &&& shape_columns(s).len() == w
            &&& (forall|j: int| 0 <= j < w ==> 0 <= #[trigger] shape_bottoms(s)[j] <= 2)
            &&& (forall|j: int| 0 <= j < w ==> 1 <= #[trigger] shape_columns(s)[j] <= 4)
            &&& (forall|j: int| 0 <= j < w ==> shape_bottoms(s)[j] + shape_columns(s)[j] <= mh)
            &&& lane1_mask == lane_ones(w)
            &&& bit_shape < 0x100_0000
            &&& (forall|j: int| 0 <= j < 4 ==> #[trigger] lane32(lane1_mask, j) == (if j < w { 1u32 } else { 0u32 }))
            &&& (forall|j: int|
                0 <= j < 4 ==> #[trigger] lane32(bit_shape, j) == (if j < w {
                    (((1u32 << (shape_columns(s)[j] as u32)) - 1u32) as u32) << (shape_bottoms(s)[j] as u32)
                } else {
                    0u32
                }))
        }) by {
            lemma_shape_decode(s);
        }
        lemma_lanes32_spread(cleared_mask, lane1_mask);
    }
    let spread = cleared_mask * lane1_mask;
    let cleared_shape = bit_shape & !spread;
    let exposed = cleared_shape & !stacked_full;
    proof {
        lemma_lanes32_bitwise(spread, spread);
        lemma_lanes32_bitwise(bit_shape, !spread);
        lemma_lanes32_bitwise(stacked_full, stacked_full);
        lemma_lanes32_bitwise(cleared_shape, !stacked_full);
        lemma_zero_lanes();
        // each lane of the piece lies in its rows 0..4
        assert forall|j: int| 0 <= j < 4 implies #[trigger] lane32(bit_shape, j) < 16 by {
            if j < w {
                lemma_column_bits(shape_bottoms(s)[j] as u32, shape_columns(s)[j] as u32, 0);
            }
        }
        assert forall|j: int| 0 <= j < 4 implies #[trigger] lane32(exposed, j) == (if j < w && rests_on_stack(
            h,
            x,
            s,
            base,
            j,
        ) {
            0u32
        } else {
            lane32(cleared_shape, j)
        }) by {
            lemma_bits_within(lane32(bit_shape, j), lane32(spread, j));
            lemma_small_bits(0, lane32(stacked_full, j));
            lemma_lanes_lt64(0, cleared_shape);
            lemma_bits_within(lane32(bit_shape, j), lane32(!spread, j));
            lemma_bits_within(lane32(cleared_shape, j), lane32(!stacked_full, j));
        }
        // a lane of the exposed cells is empty exactly when every cell of the
        // piece column lies in a full row
        assert forall|j: int| 0 <= j < 4 implies (#[trigger] lane32(cleared_shape, j) == 0 <==> (forall|r: int|
            0 <= r < mh && #[trigger] piece_cell(s, j, r) ==> row_full(h, x, s, base, r))) by {
            lemma_bits_within(lane32(bit_shape, j), lane32(spread, j));
            if j < w {
                let b = shape_bottoms(s)[j] as u32;
                let c = shape_columns(s)[j] as u32;
                let v = lane32(bit_shape, j);
                lemma_column_bits(b, c, 0);
                lemma_column_bits(b, c, 1);
                lemma_column_bits(b, c, 2);
                lemma_column_bits(b, c, 3);
                lemma_column_bits(b, c, 4);
                lemma_column_bits(b, c, 5);
                assert(lane32(lane1_mask, j) == 1u32);
                assert(lane32(spread, j) == cleared_mask * lane32(lane1_mask, j));
                assert(lane32(spread, j) == cleared_mask);
                assert(((v >> 0u32) & 1u32 == 1u32) == piece_cell(s, j, 0));
                assert(((v >> 1u32) & 1u32 == 1u32) == piece_cell(s, j, 1));
                assert(((v >> 2u32) & 1u32 == 1u32) == piece_cell(s, j, 2));
                assert(((v >> 3u32) & 1u32 == 1u32) == piece_cell(s, j, 3));
                assert(((v >> 4u32) & 1u32 == 1u32) == piece_cell(s, j, 4));
                assert(((v >> 5u32) & 1u32 == 1u32) == piece_cell(s, j, 5));
                assert(!piece_cell(s, j, 4) && !piece_cell(s, j, 5));
                assert(((cleared_mask >> 0u32) & 1u32) == 1u32 <==> (0 < mh && row_full(h, x, s, base, 0)));
                assert(((cleared_mask >> 1u32) & 1u32) == 1u32 <==> (1 < mh && row_full(h, x, s, base, 1)));
                assert(((cleared_mask >> 2u32) & 1u32) == 1u32 <==> (2 < mh && row_full(h, x, s, base, 2)));
                assert(((cleared_mask >> 3u32) & 1u32) == 1u32 <==> (3 < mh && row_full(h, x, s, base, 3)));
                let all_cleared = forall|r: int| 0 <= r < mh && #[trigger] piece_cell(s, j, r) ==> row_full(h, x, s, base, r);
                if lane32(cleared_shape, j) == 0 {
                    assert forall|r: int| 0 <= r < mh && #[trigger] piece_cell(s, j, r) implies row_full(h, x, s, base, r) by {
                        assert(r == 0 || r == 1 || r == 2 || r == 3);
                    }
                } else {
                    if all_cleared {
                        assert(piece_cell(s, j, 0) && 0 < mh ==> row_full(h, x, s, base, 0));
                        assert(piece_cell(s, j, 1) && 1 < mh ==> row_full(h, x, s, base, 1));
                        assert(piece_cell(s, j, 2) && 2 < mh ==> row_full(h, x, s, base, 2));
                        assert(piece_cell(s, j, 3) && 3 < mh ==> row_full(h, x, s, base, 3));
                        assert(piece_cell(s, j, 3) ==> 3 < mh);
                        assert(piece_cell(s, j, 2) ==> 2 < mh);
                        assert(piece_cell(s, j, 1) ==> 1 < mh);
                        assert(piece_cell(s, j, 0) ==> 0 < mh);
                        assert(false);
                    }
                }
            } else {
                assert(lane32(bit_shape, j) == 0);
                assert forall|r: int| 0 <= r < mh && #[trigger] piece_cell(s, j, r) implies row_full(h, x, s, base, r) by {
                }
            }
        }
        if exposed == 0 {
            assert forall|j: int, r: int|
                0 <= j < w && 0 <= r < mh && #[trigger] piece_cell(s, j, r) && !row_full(h, x, s, base, r)
                    implies rests_on_stack(h, x, s, base, j) by {
                assert(lane32(exposed, j) == 0);
            }
        } else {
            if leaves_no_hole(h, x, s, base) {
                assert forall|j: int| 0 <= j < 4 implies #[trigger] lane32(exposed, j) == lane32(0u32, j) by {
                    if j < w && !rests_on_stack(h, x, s, base, j) {
                        assert forall|r: int| 0 <= r < mh && #[trigger] piece_cell(s, j, r) implies row_full(h, x, s, base, r) by {
                        }
                    }
                }
                lemma_and_le(0, 0, cleared_shape, !stacked_full);
                lemma_and_le(0, 0, bit_shape, !spread);
                lemma_lanes32_eq(exposed, 0);
            }
        }
    }
    exposed != 0
}

/// The stack with the piece's cells added on the columns it rests on, before
/// full rows are cleared.
fn place_columns(
    packed: u64,
    added_mask: u32,
    stacked_full: u32,
    shift: u8,
    Ghost(x): Ghost<int>,
    Ghost(s): Ghost<int>,
) -> (added_board: u64)
    requires
        (ShapeBoard { packed_shape: packed }).wf(),
        0 <= s < 19,
        added_mask == spec_shape_mask_bits(s) & 0o07070707u32,
        0 <= x,
        x + shape_width(s) <= 10,
        shift == 6 * x,
        landing_row((ShapeBoard { packed_shape: packed }).heights(), x, s) + shape_height(s) <= 20,
        stacked_full < 0x100_0000,
        forall|j: int|
            0 <= j < 4 ==> #[trigger] lane32(stacked_full, j) == (if j < shape_width(s) && rests_on_stack(
                (ShapeBoard { packed_shape: packed }).heights(),
                x,
                s,
                landing_row((ShapeBoard { packed_shape: packed }).heights(), x, s),
                j,
            ) {
                31u32
            } else {
                0u32
            }),
    ensures
        fits60(added_board),
        forall|i: int|
            0 <= i < 10 ==> #[trigger] lane(added_board, i) == column_top(
                (ShapeBoard { packed_shape: packed }).heights(),
                x,
                s,
                landing_row((ShapeBoard { packed_shape: packed }).heights(), x, s),
                i,
            ),
{
    let ghost h = (ShapeBoard { packed_shape: packed }).heights();
    let ghost w = shape_width(s);
    let ghost base = landing_row(h, x, s);
    proof {
        lemma_shape_decode(s);
    }
    let kept = added_mask & stacked_full;
    proof {
        lemma_lanes32_bitwise(added_mask, stacked_full);
        lemma_and_le(0, 0, added_mask, stacked_full);
        assert forall|j: int| 0 <= j < 4 implies #[trigger] lane32(kept, j) == (if j < w && rests_on_stack(h, x, s, base, j) {
            shape_columns(s)[j] as u32
        } else {
            0u32
        }) by {
            lemma_small_bits(0, lane32(added_mask, j));
        }
    }
    let wide = kept as u64;
    proof {
        lemma_lanes_widen(kept);
        lemma_shl_below(wide, (6 * w) as u64, shift as u64);
        lemma_shift_widths(wide, shift, 0, 0);
        lemma_lanes_shl(wide, x);
    }
    let raised = wide << shift;
    proof {
        assert forall|i: int| 0 <= i < 10 implies #[trigger] lane(raised, i) == (if x <= i < x + w && rests_on_stack(
            h,
            x,
            s,
            base,
            i - x,
        ) {
            shape_columns(s)[i - x] as u64
        } else {
            0u64
        }) by {
        }
        lemma_lanes_add(packed, raised);
        assert forall|i: int| 0 <= i < 10 implies #[trigger] lane((packed + raised) as u64, i) == column_top(h, x, s, base, i) by {
        }
    }
    packed + raised
}

/// No full row means nothing to count.
proof fn lemma_no_full_rows(h: Seq<int>, x: int, s: int, base: int, t: int, k: int)
    requires
        forall|r: int| 0 <= r < k ==> !#[trigger] row_full(h, x, s, base, r),
    ensures
        full_rows_reaching(h, x, s, base, t, k) == 0,
        full_row_count(h, x, s, base, k) == 0,
    decreases k,
{
    if k > 0 {
        lemma_no_full_rows(h, x, s, base, t, k - 1);
    }
}

/// For each column, the number of full rows at or below its top: the rows
/// by which the column sinks.
fn sink_rows(
    added_board: u64,
    cleared_mask: u32,
    base_y: u32,
    max_height: u32,
    Ghost(h): Ghost<Seq<int>>,
    Ghost(tops): Ghost<Seq<int>>,
    Ghost(x): Ghost<int>,
    Ghost(s): Ghost<int>,
) -> (drop_total: u64)
    requires
        0 <= s < 19,
        max_height == shape_height(s),
        base_y + max_height <= 20,
        fits60(added_board),
        tops.len() == 10,
        forall|i: int| 0 <= i < 10 ==> #[trigger] lane(added_board, i) == tops[i],
        forall|i: int| 0 <= i < 10 ==> #[trigger] tops[i] <= 20,
        forall|q: u32|
            q < 6 ==> (#[trigger] ((cleared_mask >> q) & 1u32) == 1u32 <==> (q < shape_height(s) && row_full(
                h,
                x,
                s,
                base_y as int,
                q as int,
            ))),
    ensures
        fits60(drop_total),
        forall|i: int|
            0 <= i < 10 ==> #[trigger] lane(drop_total, i) == full_rows_reaching(
                h,
                x,
                s,
                base_y as int,
                tops[i],
                max_height as int,
            ),
{
    proof {
        lemma_shape_decode(s);
        lemma_board_consts();
        lemma_zero_lanes();
    }
    let mut drop_total = 0u64;
    if cleared_mask != 0 {
        let mut r: u32 = 0;
        while r < max_height
            invariant
                0 <= s < 19,
                max_height == shape_height(s),
                max_height <= 4,
                r <= max_height,
                base_y + max_height <= 20,
                fits60(added_board),
                fits60(drop_total),
                tops.len() == 10,
                forall|i: int| 0 <= i < 10 ==> #[trigger] lane(added_board, i) == tops[i],
                forall|i: int| 0 <= i < 10 ==> #[trigger] tops[i] <= 20,
                forall|q: u32|
                    q < 6 ==> (#[trigger] ((cleared_mask >> q) & 1u32) == 1u32 <==> (q < shape_height(s)
                        && row_full(h, x, s, base_y as int, q as int))),
                forall|i: int|
                    0 <= i < 10 ==> #[trigger] lane(drop_total, i) == full_rows_reaching(
                        h,
                        x,
                        s,
                        base_y as int,
                        tops[i],
                        r as int,
                    ),
                forall|i: int| 0 <= i < 10 ==> #[trigger] lane(drop_total, i) <= r,
                0o40404040404040404040u64 >> 5u64 == 0o01010101010101010101u64,
                fits60(0o40404040404040404040u64),
                forall|i: int| 0 <= i < 10 ==> #[trigger] lane(0o40404040404040404040u64, i) == 32,
            decreases max_height - r,
        {
            proof {
                lemma_test_bit(cleared_mask, r);
            }
            if cleared_mask & (1 << r) != 0 {
                let k = (base_y + r) as u64;
                let raised = added_board | SHAPE_GUARD;
                proof {
                    lemma_lanes_bitwise(added_board, SHAPE_GUARD);
                    lemma_or_below(added_board, SHAPE_GUARD, 0, 0);
                    assert forall|i: int| 0 <= i < 10 implies #[trigger] lane(raised, i) == lane(added_board, i) + 32 by {
                        lemma_small_bits(lane(added_board, i), 0);
                    }
                    lemma_lanes_spread(k);
                    lemma_lanes_sub(raised, (k * (SHAPE_GUARD >> 5)) as u64);
                }
                let below = raised - k * (SHAPE_GUARD >> 5);
                let reached = below & SHAPE_GUARD;
                proof {
                    lemma_lanes_bitwise(below, SHAPE_GUARD);
                    lemma_and_le(below, SHAPE_GUARD, 0, 0);
                    lemma_mask_within(below, SHAPE_GUARD, 0, 0);
                    lemma_lanes_guard_down(reached);
                    assert forall|i: int| 0 <= i < 10 implies #[trigger] lane(reached >> 5, i) == (if tops[i] >= k {
                        1u64
                    } else {
                        0u64
                    }) by {
                        lemma_small_bits(lane(below, i), 0);
                        lemma_small_bits(lane(reached, i), 0);
                    }
                    lemma_and_le(reached, 0, 0, 0);
                    lemma_lanes_add(drop_total, reached >> 5);
                }
                drop_total += reached >> 5;
            }
            r += 1;
        }
    } else {
        proof {
            lemma_bit_masks(0, 0);
            assert forall|r: int| 0 <= r < max_height implies !#[trigger] row_full(h, x, s, base_y as int, r) by {
                lemma_bit_masks(0, r as u32);
            }
            assert forall|i: int| 0 <= i < 10 implies #[trigger] lane(drop_total, i) == full_rows_reaching(
                h,
                x,
                s,
                base_y as int,
                tops[i],
                max_height as int,
            ) by {
                lemma_no_full_rows(h, x, s, base_y as int, tops[i], max_height as int);
            }
        }
    }
    drop_total
}

impl Board for ShapeBoard {
    open spec fn board_wf(&self) -> bool {
        self.wf()
    }

    open spec fn lines_ok(lines: int) -> bool {
        0 <= lines <= TARGET_LINES
    }

    open spec fn drop_spec(&self, x: int, s: int, lines: int) -> Option<(Self, int)> {
        match drop_heights(self.heights(), x, s, lines) {
            None => None,
            Some((hs, n)) => Some((choose|b: ShapeBoard| b.wf() && b.heights() == hs, n)),
        }
    }

    open spec fn spec_empty() -> Self {
        ShapeBoard { packed_shape: 0 }
    }

    fn drop_piece(&self, x: u8, shape_idx: u8, lines_cleared: u16) -> (r: Option<(Self, u8)>) {
        let ghost h = self.heights();
        let ghost s = shape_idx as int;
        proof {
            lemma_shape_decode(s);
        }
        let mask = shape_table(shape_idx);
        let guard_mask = mask.guard_mask();
        let lane1_mask = guard_mask >> 5;
        let shift = x * SHAPE_LANE_SIZE;
        let (diff, base_y_offset) = landing_lanes(self.packed_shape, mask, shift, Ghost(x as int), Ghost(s));
        let base_y = base_y_offset & 0x1F;
        proof {
            lemma_small_bits(0, base_y_offset);
        }
        let peak_height = (base_y + mask.max_height()) as u16;
        if peak_height > 20 || peak_height > TARGET_LINES - lines_cleared {
            return None;
        }
        let bit_shape = bit_table(shape_idx) & 0xFFFFFF;
        let (cleared_mask, lines_cleared_count) = cleared_rows(
            self.packed_shape,
            bit_shape,
            lane1_mask,
            shift,
            base_y,
            mask.max_height(),
            Ghost(x as int),
            Ghost(s),
        );
        proof {
            assert forall|j: int| 0 <= j < shape_width(s) implies #[trigger] column_rest(h, x as int, s, j) >= -2 by {
                assert(h[x + j] >= 0);
            }
        }
        let stacked_full = stacked_lanes(
            guard_mask,
            lane1_mask,
            base_y_offset,
            diff,
            Ghost(h),
            Ghost(x as int),
            Ghost(s),
        );
        if leaves_hole(
            bit_shape,
            cleared_mask,
            lane1_mask,
            stacked_full,
            Ghost(h),
            Ghost(x as int),
            Ghost(s),
            Ghost(base_y as int),
        ) {
            return None;
        }
        let added_board = place_columns(
            self.packed_shape,
            mask.added_mask(),
            stacked_full,
            shift,
            Ghost(x as int),
            Ghost(s),
        );
        let ghost base = base_y as int;
        let ghost tops = Seq::new(10, |c: int| column_top(h, x as int, s, base, c));
        proof {
            assert forall|i: int| 0 <= i < 10 implies #[trigger] tops[i] <= 20 by {
                if x <= i < x + shape_width(s) {
                    assert(shape_bottoms(s)[i - x] + shape_columns(s)[i - x] <= shape_height(s));
                }
            }
        }
        let drop_total = sink_rows(
            added_board,
            cleared_mask,
            base_y,
            mask.max_height(),
            Ghost(h),
            Ghost(tops),
            Ghost(x as int),
            Ghost(s),
        );
        proof {
            assert forall|i: int| 0 <= i < 10 implies #[trigger] lane(drop_total, i) <= lane(added_board, i) by {
                lemma_reaching_is_below(h, x as int, s, i, shape_height(s));
                lemma_full_rows_below_bound(h, x as int, s, base, tops[i], shape_height(s));
            }
            lemma_lanes_sub(added_board, drop_total);
        }
        let result = ShapeBoard { packed_shape: added_board - drop_total };
        proof {
            let expect = drop_heights(h, x as int, s, lines_cleared as int);
            assert(expect is Some);
            let (hs, cnt) = expect->0;
            assert forall|i: int| 0 <= i < 10 implies #[trigger] result.heights()[i] == hs[i] by {
                lemma_reaching_is_below(h, x as int, s, i, shape_height(s));
            }
            assert(result.heights() =~= hs);
            assert forall|i: int| 0 <= i < 10 implies #[trigger] lane(result.packed_shape, i) <= 20 by {
                lemma_reaching_is_below(h, x as int, s, i, shape_height(s));
                lemma_full_rows_below_bound(h, x as int, s, base, tops[i], shape_height(s));
            }
            let chosen = choose|b: ShapeBoard| b.wf() && b.heights() == hs;
            assert(chosen.heights()[0] == hs[0]);
            assert forall|i: int| 0 <= i < 10 implies #[trigger] lane(chosen.packed_shape, i) == lane(result.packed_shape, i) by {
                assert(chosen.heights()[i] == hs[i]);
            }
            lemma_lanes_eq(chosen.packed_shape, result.packed_shape);
            lemma_full_rows_below_bound(h, x as int, s, base, 0, shape_height(s));
        }
        Some((result, lines_cleared_count))
    }

    fn empty() -> (b: Self) {
        proof {
            lemma_zero_lanes();
        }
        ShapeBoard { packed_shape: 0 }
    }

    fn same(&self, other: &Self) -> (b: bool) {
        self.packed_shape == other.packed_shape
    }

    fn wf_check(&self) -> (b: bool) {
        if self.packed_shape >= 0x1000_0000_0000_0000 {
            return false;
        }
        let mut c: usize = 0;
        while c < 10
            invariant
                c <= 10,
                fits60(self.packed_shape),
                forall|i: int| 0 <= i < c ==> #[trigger] lane(self.packed_shape, i) <= 20,
            decreases 10 - c,
        {
            proof {
                lemma_shift_widths(self.packed_shape, (c * 6) as u8, 0, 0);
            }
            let v = (self.packed_shape >> (c as u8 * SHAPE_LANE_SIZE)) & 63;
            assert(v == lane(self.packed_shape, c as int));
            if v > 20 {
                return false;
            }
            c += 1;
        }
        true
    }

    fn lines_check(lines: u16) -> (b: bool) {
        lines <= TARGET_LINES
    }

    proof fn lemma_lines_ok(lines: int) {
    }
}

/// The number of set bits.
pub open spec fn popcount(w: u64) -> nat
    decreases w,
{
    if w == 0 {
        0
    } else {
        (w % 2) as nat + popcount(w / 2)
    }
}

/// A word below `2^k` has at most `k` set bits.
pub(crate) proof fn lemma_popcount_bound(w: u64, k: nat)
    requires
        w < pow2(k),
    ensures
        popcount(w) <= k,
    decreases k,
{
    if w != 0 {
        if k == 0 {
            lemma2_to64();
        } else {
            lemma_pow2_unfold(k);
            lemma_popcount_bound(w / 2, (k - 1) as nat);
        }
    }
}

/// Counts the set bits of `w`.
fn count_ones(w: u64) -> (n: u32)
    ensures
        n == popcount(w),
        n <= 64,
{
    proof {
        lemma2_to64();
        lemma_popcount_bound(w, 64);
    }
    let mut rest = w;
    let mut n: u32 = 0;
    while rest != 0
        invariant
            n + popcount(rest) == popcount(w),
            popcount(w) <= 64,
        decreases rest,
    {
        n = n + (rest % 2) as u32;
        rest = rest / 2;
    }
    n
}

/// A column value with the rows of `full` taken out, from the top row down.
pub open spec fn clear_column(v: u64, full: u64) -> u64 {
    let v5 = if bit_set(full, 5) {
        remove_row(v, 5)
    } else {
        v
    };
    let v4 = if bit_set(full, 4) {
        remove_row(v5, 4)
    } else {
        v5
    };
    let v3 = if bit_set(full, 3) {
        remove_row(v4, 3)
    } else {
        v4
    };
    let v2 = if bit_set(full, 2) {
        remove_row(v3, 2)
    } else {
        v3
    };
    let v1 = if bit_set(full, 1) {
        remove_row(v2, 1)
    } else {
        v2
    };
    if bit_set(full, 0) {
        remove_row(v1, 0)
    } else {
        v1
    }
}

/// The board word with its full rows cleared.
pub open spec fn cleared_word(b: u64) -> u64 {
    choose|w: u64|
        fits60(w) && forall|c: int|
            0 <= c < 10 ==> #[trigger] lane(w, c) == clear_column(lane(b, c), full_rows_word(b))
}

/// The cells of orientation `s` with its left column at `x`, on the bottom row.
pub open spec fn piece_word(x: int, s: int) -> u64 {
    ((spec_bit_table(s) as u64) & 0xFFFFFFu64) << ((6 * x) as u64)
}

/// The row at which a piece of orientation `s` enters the endgame board after
/// `lines` cleared lines: two rows above the lines still to clear, less the
/// piece's height.
pub open spec fn spawn_row(s: int, lines: int) -> int {
    TARGET_LINES - lines + (if PC_END {
        0int
    } else {
        2int
    }) - shape_height(s)
}

/// Whether some stack cell lies in a piece column at or above a piece cell,
/// so that the piece cannot come down from above.
pub open spec fn blocked(board: u64, m: u64) -> bool {
    exists|c: int| 0 <= c < 10 && #[trigger] lane(board, c) & column_closure(lane(m, c)) != 0
}

/// The row to which the piece falls from row `h`: down while the row below
/// is free for all its cells.
pub open spec fn fall(board: u64, m: u64, h: int) -> int
    decreases h,
{
    if h > 0 && board & (m << ((h - 1) as u64)) == 0 {
        fall(board, m, h - 1)
    } else {
        h
    }
}

/// The board word with orientation `s` dropped at `x` after `lines` cleared
/// lines, before rows are cleared; `None` where it does not fit.
pub open spec fn place_word(board: u64, x: int, s: int, lines: int) -> Option<u64> {
    let start = spawn_row(s, lines);
    let m = piece_word(x, s);
    if start < 0 {
        None
    } else if blocked(board, m << (start as u64)) {
        None
    } else {
        Some(board | (m << (fall(board, m, start) as u64)))
    }
}

/// The ten columns by six rows of the endgame board, one bit per cell: bit
/// `6c + r` for column `c` and row `r`.
#[derive(Clone, Copy, PartialEq, Eq, Hash, Default, Debug)]
pub struct BitBoard(u64);

impl View for BitBoard {
    type V = u64;

    closed spec fn view(&self) -> u64 {
        self.0
    }
}

/// All sixty cells filled.
pub const BITBOARD_MASK: u64 = 0x0FFF_FFFF_FFFF_FFFF;
/// The bottom row of every column.
pub const ROW_MASK: u64 = 0x0041_0410_4104_1041;
/// One column.
pub const BITBOARD_COL_MASK: u64 = 0x3F;

impl BitBoard {
    /// The board with word `w`.
    pub closed spec fn spec_new(w: u64) -> BitBoard {
        BitBoard(w)
    }

    /// A board is its word.
    pub proof fn lemma_view(a: BitBoard, b: BitBoard, w: u64)
        ensures
            Self::spec_new(w)@ == w,
            a@ == b@ ==> a == b,
    {
    }

    /// Column `col`, one bit per row.
    pub fn get_column(&self, col: usize) -> (v: u64)
        requires
            col < 10,
        ensures
            v == lane(self@, col as int),
    {
        self.0 >> (col * 6) & BITBOARD_COL_MASK
    }

    /// The board's word.
    pub fn raw(&self) -> (w: u64)
        ensures
            w == self@,
    {
        self.0
    }

    /// The number of filled cells.
    pub fn occupied_cells(&self) -> (n: u16)
        ensures
            n == popcount(self@),
    {
        count_ones(self.0) as u16
    }

    /// The board whose columns are filled to the heights of `shape`.
    pub fn from_shape_board(shape: ShapeBoard) -> (b: Self)
        requires
            shape.wf(),
            forall|c: int| 0 <= c < 10 ==> #[trigger] lane(shape.packed_shape, c) <= 6,
        ensures
            fits60(b@),
            forall|c: int|
                0 <= c < 10 ==> #[trigger] lane(b@, c) == ((1u64 << lane(shape.packed_shape, c)) - 1u64) as u64,
    {
        proof {
            lemma_zero_lanes();
        }
        let mut board = 0u64;
        let mut col: usize = 0;
        while col < 10
            invariant
                col <= 10,
                shape.wf(),
                forall|c: int| 0 <= c < 10 ==> #[trigger] lane(shape.packed_shape, c) <= 6,
                fits60(board),
                forall|c: int|
                    0 <= c < col ==> #[trigger] lane(board, c) == ((1u64 << lane(shape.packed_shape, c)) - 1u64) as u64,
                forall|c: int| col <= c < 10 ==> #[trigger] lane(board, c) == 0,
            decreases 10 - col,
        {
            let height = shape.get_height(col);
            proof {
                lemma_small_bits(lane(shape.packed_shape, col as int), 0);
                lemma_column_word(height);
                lemma_shl_bound(((1u64 << height) - 1u64) as u64, 6, (col * 6) as u64);
                lemma_lanes_shl(((1u64 << height) - 1u64) as u64, col as int);
            }
            let filled = ((1u64 << height) - 1) << (col * 6);
            proof {
                lemma_or_below(board, filled, 0, 0);
                lemma_lanes_bitwise(board, filled);
                assert forall|c: int| 0 <= c < 10 implies #[trigger] lane(board | filled, c) == (if c == col {
                    ((1u64 << height) - 1u64) as u64
                } else {
                    lane(board, c)
                }) by {
                    lemma_small_bits(lane(board, c), 0);
                    lemma_small_bits(lane(filled, c), 0);
                    if c < col {
                        assert(lane(filled, c) == 0);
                    }
                }
            }
            board |= filled;
            col += 1;
        }
        BitBoard(board)
    }

    /// The rows that are full in every column, bit `r` for row `r`.
    fn full_rows(board: u64) -> (rows: u64)
        requires
            fits60(board),
        ensures
            rows == full_rows_word(board),
            rows < 64,
    {
        proof {
            lemma_full_rows_word(board);
        }
        let mut rows = board;
        rows &= board >> 12;
        rows &= rows >> 6;
        rows &= rows >> 12;
        rows &= rows >> 24;
        rows
    }
}

impl BitBoard {
    /// Places orientation `shape_idx` at column `x`: it enters at the spawn
    /// row and falls until the row below is blocked; `None` where it cannot
    /// enter or some stack cell lies above it.
    fn try_place(&self, x: u8, shape_idx: u8, lines_cleared: u16) -> (r: Option<Self>)
        requires
            fits60(self@),
            shape_idx < 19,
            x + shape_width(shape_idx as int) <= 10,
            TARGET_LINES - 4 <= lines_cleared <= TARGET_LINES,
        ensures
            r matches Some(b) ==> fits60(b@),
            match place_word(self@, x as int, shape_idx as int, lines_cleared as int) {
                None => r is None,
                Some(w) => r matches Some(b) && b@ == w,
            },
    {
        let ghost s = shape_idx as int;
        proof {
            lemma_shape_decode(s);
        }
        let shape = bit_table(shape_idx);
        let remaining = (TARGET_LINES - lines_cleared) as u8 + if PC_END {
            0u8
        } else {
            2u8
        };
        proof {
            assert((shape >> 24) as u8 == shape_height(s));
        }
        let mut height = match remaining.checked_sub((shape >> 24) as u8) {
            Some(h) => h,
            None => {
                assert(spawn_row(s, lines_cleared as int) < 0);
                return None;
            },
        };
        let ghost start = height as int;
        proof {
            assert(start == spawn_row(s, lines_cleared as int));
        }
        let mask = ((shape as u64) & 0xFFFFFF) << (x * 6);
        proof {
            lemma_shift_widths((shape as u64) & 0xFFFFFF, (x * 6) as u8, 0, 0);
            assert(mask == piece_word(x as int, s));
            let t = (6 * (shape_width(s) - 1) + shape_height(s)) as u64;
            lemma_shl_bound((shape as u64) & 0xFFFFFF, t, (6 * x) as u64);
            lemma_shl_bound(mask, (t + 6 * x) as u64, height as u64);
            lemma_shift_widths(mask, height, 0, 0);
        }
        let mut hitbox = mask << height;
        let ghost entering = hitbox;
        hitbox |= (hitbox & (ROW_MASK * 0x1F)) << 1;
        hitbox |= (hitbox & (ROW_MASK * 0xF)) << 2;
        hitbox |= (hitbox & (ROW_MASK * 0x3)) << 4;
        proof {
            assert(hitbox == hitbox_word(entering));
            lemma_hitbox_lanes(entering);
            lemma_lanes_bitwise(self.0, hitbox);
            lemma_zero_lanes();
            lemma_and_le(self.0, hitbox, 0, 0);
            if self.0 & hitbox == 0 {
                if blocked(self.0, entering) {
                    let c = choose|c: int| 0 <= c < 10 && #[trigger] lane(self.0, c) & column_closure(lane(entering, c)) != 0;
                    assert(lane(self.0 & hitbox, c) == lane(0u64, c));
                }
            } else if !blocked(self.0, entering) {
                assert forall|c: int| 0 <= c < 10 implies #[trigger] lane(self.0 & hitbox, c) == lane(0u64, c) by {
                    if lane(self.0 & hitbox, c) != 0 {
                        assert(lane(self.0, c) & column_closure(lane(entering, c)) != 0);
                    }
                }
                lemma_lanes_eq(self.0 & hitbox, 0);
            }
        }
        if self.0 & hitbox != 0 {
            return None;
        }
        while height > 0
            invariant
                height <= start,
                start <= 6,
                fall(self@, mask, height as int) == fall(self@, mask, start),
            ensures
                height <= start,
                fall(self@, mask, height as int) == fall(self@, mask, start),
                fall(self@, mask, height as int) == height,
            decreases height,
        {
            proof {
                lemma_shift_widths(mask, (height - 1) as u8, 0, 0);
            }
            if self.0 & (mask << (height - 1)) != 0 {
                break;
            }
            height -= 1;
        }
        proof {
            lemma_shift_widths(mask, height, 0, 0);
            let t = (6 * (shape_width(s) - 1) + shape_height(s)) as u64;
            lemma_shl_bound(mask, (t + 6 * x) as u64, height as u64);
            lemma_or_below(self.0, mask << height, 0, 0);
        }
        let placed = self.0 | (mask << height);
        Some(BitBoard(placed))
    }

    /// Clears the full rows: each column loses its cells in those rows and
    /// the cells above move down. Also returns the number of rows cleared.
    fn clear_lines(&self) -> (r: (Self, u8))
        requires
            fits60(self@),
        ensures
            fits60(r.0@),
            forall|c: int|
                0 <= c < 10 ==> #[trigger] lane(r.0@, c) == clear_column(lane(self@, c), full_rows_word(self@)),
            r.1 == popcount(full_rows_word(self@)),
            r.1 <= 6,
    {
        let cleared_lines = Self::full_rows(self.0);
        let mut new_board = self.0;
        let ghost b0 = self.0;
        proof {
            lemma_row_bits(cleared_lines);
        }
        if cleared_lines & 32 != 0 {
            proof {
                lemma_remove_row_lanes(new_board, 5);
            }
            new_board &= ROW_MASK * 0x1F;
        }
        let ghost b5 = new_board;
        if cleared_lines & 16 != 0 {
            proof {
                lemma_remove_row_lanes(new_board, 4);
            }
            new_board = new_board & (ROW_MASK * 0xF) | (new_board & (ROW_MASK * 0x20)) >> 1;
        }
        let ghost b4 = new_board;
        if cleared_lines & 8 != 0 {
            proof {
                lemma_remove_row_lanes(new_board, 3);
            }
            new_board = new_board & (ROW_MASK * 7) | (new_board & (ROW_MASK * 0x30)) >> 1;
        }
        let ghost b3 = new_board;
        if cleared_lines & 4 != 0 {
            proof {
                lemma_remove_row_lanes(new_board, 2);
            }
            new_board = new_board & (ROW_MASK * 3) | (new_board & (ROW_MASK * 0x38)) >> 1;
        }
        let ghost b2 = new_board;
        if cleared_lines & 2 != 0 {
            proof {
                lemma_remove_row_lanes(new_board, 1);
            }
            new_board = new_board & (ROW_MASK) | (new_board & (ROW_MASK * 0x3C)) >> 1;
        }
        let ghost b1 = new_board;
        if cleared_lines & 1 != 0 {
            proof {
                lemma_remove_row_lanes(new_board, 0);
            }
            new_board = (new_board & (ROW_MASK * 0x3E)) >> 1;
        }
        proof {
            assert forall|c: int| 0 <= c < 10 implies #[trigger] lane(new_board, c) == clear_column(
                lane(b0, c),
                cleared_lines,
            ) by {
                assert(lane(b5, c) == (if bit_set(cleared_lines, 5) { remove_row(lane(b0, c), 5) } else { lane(b0, c) }));
                assert(lane(b4, c) == (if bit_set(cleared_lines, 4) { remove_row(lane(b5, c), 4) } else { lane(b5, c) }));
                assert(lane(b3, c) == (if bit_set(cleared_lines, 3) { remove_row(lane(b4, c), 3) } else { lane(b4, c) }));
                assert(lane(b2, c) == (if bit_set(cleared_lines, 2) { remove_row(lane(b3, c), 2) } else { lane(b3, c) }));
                assert(lane(b1, c) == (if bit_set(cleared_lines, 1) { remove_row(lane(b2, c), 1) } else { lane(b2, c) }));
            }
            lemma2_to64();
            lemma_popcount_bound(cleared_lines, 6);
        }
        (BitBoard(new_board), count_ones(cleared_lines) as u8)
    }
}

impl Board for BitBoard {
    open spec fn board_wf(&self) -> bool {
        fits60(self@)
    }

    open spec fn lines_ok(lines: int) -> bool {
        TARGET_LINES - 4 <= lines <= TARGET_LINES
    }

    open spec fn drop_spec(&self, x: int, s: int, lines: int) -> Option<(Self, int)> {
        match place_word(self@, x, s, lines) {
            None => None,
            Some(w) => Some((BitBoard::spec_new(cleared_word(w)), popcount(full_rows_word(w)) as int)),
        }
    }

    open spec fn spec_empty() -> Self {
        BitBoard::spec_new(0)
    }

    fn drop_piece(&self, x: u8, shape_idx: u8, lines_cleared: u16) -> (r: Option<(Self, u8)>) {
        let placed = match self.try_place(x, shape_idx, lines_cleared) {
            Some(p) => p,
            None => {
                return None;
            },
        };
        let (b, n) = placed.clear_lines();
        proof {
            let w = placed@;
            let cw = cleared_word(w);
            assert(fits60(b@) && forall|c: int|
                0 <= c < 10 ==> #[trigger] lane(b@, c) == clear_column(lane(w, c), full_rows_word(w)));
            assert forall|c: int| 0 <= c < 10 implies #[trigger] lane(cw, c) == lane(b@, c) by {
            }
            lemma_lanes_eq(cw, b@);
            BitBoard::lemma_view(b, BitBoard::spec_new(cw), cw);
        }
        Some((b, n))
    }

    fn empty() -> (b: Self) {
        BitBoard(0)
    }

    fn same(&self, other: &Self) -> (b: bool) {
        proof {
            BitBoard::lemma_view(*self, *other, 0);
        }
        self.0 == other.0
    }

    fn wf_check(&self) -> (b: bool) {
        self.0 < 0x1000_0000_0000_0000
    }

    fn lines_check(lines: u16) -> (b: bool) {
        TARGET_LINES - 4 <= lines && lines <= TARGET_LINES
    }

    proof fn lemma_lines_ok(lines: int) {
    }
}

/// A node of the search: a board, the keys pressed to reach it, and packed
/// state (`meta`): bits 0-8 the lines cleared, bits 9-10 the DAS side the last
/// piece ended on (bit 9 left, bit 10 right), bits 11-13 the held piece.
#[derive(Clone, Copy, Debug, PartialEq, Eq)]
pub struct SearchNode<B: Board> {
    pub state: B,
    pub keys_pressed: u16,
    pub meta: u16,
    pub parent_idx: usize,
}

/// The held piece, bits 11-13 of `meta`.
pub const HOLD_MASK: u16 = 0x3800;
/// The DAS side, bits 9-10 of `meta`.
pub const DAS_MASK: u16 = 0x600;
/// The lines cleared, bits 0-8 of `meta`.
pub const LINES_CLEARED_MASK: u16 = 0x1FF;

impl<B: Board> SearchNode<B> {
    /// The root of a search: an empty board, nothing pressed, nothing held,
    /// no parent.
    pub fn initial() -> (n: Self)
        ensures
            n.state == B::spec_empty(),
            n.state.board_wf(),
            n.meta == 0,
            n.keys_pressed == 0,
            n.parent_idx == usize::MAX,
    {
        SearchNode { state: B::empty(), meta: 0, keys_pressed: 0, parent_idx: usize::MAX }
    }

    /// Whether two nodes are the same.
    pub fn same(&self, other: &Self) -> (b: bool)
        ensures
            b == (*self == *other),
    {
        self.state.same(&other.state) && self.keys_pressed == other.keys_pressed && self.meta == other.meta
            && self.parent_idx == other.parent_idx
    }
}

impl SearchNode<ShapeBoard> {
    /// The same node with its board as an endgame board.
    pub fn to_bitboard(&self) -> (n: SearchNode<BitBoard>)
        requires
            self.state.wf(),
            forall|c: int| 0 <= c < 10 ==> #[trigger] lane(self.state.packed_shape, c) <= 6,
        ensures
            fits60(n.state@),
            forall|c: int|
                0 <= c < 10 ==> #[trigger] lane(n.state@, c) == ((1u64 << lane(self.state.packed_shape, c)) - 1u64) as u64,
            n.meta == self.meta,
            n.keys_pressed == self.keys_pressed,
            n.parent_idx == self.parent_idx,
    {
        SearchNode {
            state: BitBoard::from_shape_board(self.state),
            meta: self.meta,
            keys_pressed: self.keys_pressed,
            parent_idx: self.parent_idx,
        }
    }
}

/// The larger of two numbers.
fn max_u32(a: u32, b: u32) -> (r: u32)
    ensures
        r == if a >= b { a } else { b },
{
    if a >= b {
        a
    } else {
        b
    }
}

} // verus!
