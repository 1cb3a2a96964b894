//! The parts of node evaluation that do not need floating point.
use vstd::prelude::*;
use crate::bitboard::{ShapeBoard, SearchNode, DAS_MASK, HOLD_MASK, LINES_CLEARED_MASK};
use crate::config::TARGET_LINES;

verus! {

use crate::bitboard::lanes::lane;

/// The height of column `c` as `ShapeBoard::get_height` reads it.
pub open spec fn column_height(b: ShapeBoard, c: int) -> u64 {
    lane(b.packed_shape, c) & 31
}

/// The first column from `c` on whose height is 0, or 10 if there is none.
pub open spec fn first_empty_from(b: ShapeBoard, c: int) -> int
    decreases 10 - c,
{
    if c >= 10 {
        10
    } else if column_height(b, c) == 0 {
        c
    } else {
        first_empty_from(b, c + 1)
    }
}

/// The column kept open as the well: column 6, 9 or 3 if empty (in that
/// order of preference), else the leftmost empty column, else 10.
pub open spec fn well_of(b: ShapeBoard) -> int {
    if column_height(b, 6) == 0 {
        6
    } else if column_height(b, 9) == 0 {
        9
    } else if column_height(b, 3) == 0 {
        3
    } else {
        first_empty_from(b, 0)
    }
}

/// The column kept open as the well.
pub fn get_well(board: ShapeBoard) -> (well: usize)
    ensures
        well == well_of(board),
{
    if board.get_height(6) == 0 {
        return 6;
    }
    if board.get_height(9) == 0 {
        return 9;
    }
    if board.get_height(3) == 0 {
        return 3;
    }
    let mut well: usize = 0;
    while well < 10 && board.get_height(well) != 0
        invariant
            well <= 10,
            first_empty_from(board, well as int) == first_empty_from(board, 0),
        decreases 10 - well,
    {
        well += 1;
    }
    well
}

/// The integer features of a node that its score weighs: whether a piece is
/// held, the height steps between neighbouring columns (those into columns
/// 2 and 6, at the edges of the DAS range, apart as `bump_light`), the
/// column parity count, the highest column, the cleared lines counted (at
/// most `TARGET_LINES - 4`), and how far the highest column rises above the
/// wall column the last DAS ended on.
#[derive(Clone, Copy, Debug, PartialEq, Eq, Structural)]
pub struct BoardFeatures {
    pub held: bool,
    pub bump: u32,
    pub bump_light: u32,
    pub parity: i32,
    pub max_height: u32,
    pub lines: u16,
    pub das_room: u32,
}

/// The height step into column `i` from column `i - 1`.
pub open spec fn step(b: ShapeBoard, i: int) -> int {
    let d = column_height(b, i) - column_height(b, i - 1);
    if d < 0 {
        -d
    } else {
        d
    }
}

/// Whether the step into column `i` is weighed lightly.
pub open spec fn light_step(i: int) -> bool {
    i == 2 || i == 6
}

/// The steps into columns `1..n` that are not light.
pub open spec fn bump_upto(b: ShapeBoard, n: int) -> int
    decreases n,
{
    if n <= 1 {
        0
    } else {
        bump_upto(b, n - 1) + if light_step(n - 1) {
            0
        } else {
            step(b, n - 1)
        }
    }
}

/// The steps into columns `1..n` that are light.
pub open spec fn bump_light_upto(b: ShapeBoard, n: int) -> int
    decreases n,
{
    if n <= 1 {
        0
    } else {
        bump_light_upto(b, n - 1) + if light_step(n - 1) {
            step(b, n - 1)
        } else {
            0
        }
    }
}

/// The parity count of columns `0..n`: column 0 counts one where its height
/// is odd; another column with odd height counts one at an even index and
/// minus one at an odd index.
pub open spec fn parity_upto(b: ShapeBoard, n: int) -> int
    decreases n,
{
    if n <= 0 {
        0
    } else if n == 1 {
        (column_height(b, 0) % 2) as int
    } else {
        parity_upto(b, n - 1) + if column_height(b, n - 1) % 2 == 1 {
            if (n - 1) % 2 == 0 {
                1int
            } else {
                -1
            }
        } else {
            0
        }
    }
}

/// The highest of columns `0..n`.
pub open spec fn max_upto(b: ShapeBoard, n: int) -> int
    decreases n,
{
    if n <= 1 {
        column_height(b, 0) as int
    } else if column_height(b, n - 1) > max_upto(b, n - 1) {
        column_height(b, n - 1) as int
    } else {
        max_upto(b, n - 1)
    }
}

/// The features of a node (see `BoardFeatures`).
pub open spec fn features_of(node: SearchNode<ShapeBoard>) -> BoardFeatures {
    let b = node.state;
    let m = max_upto(b, 10);
    let lines = node.meta & LINES_CLEARED_MASK;
    BoardFeatures {
        held: node.meta & HOLD_MASK != 0,
        bump: bump_upto(b, 10) as u32,
        bump_light: bump_light_upto(b, 10) as u32,
        parity: parity_upto(b, 10) as i32,
        max_height: m as u32,
        lines: if lines < TARGET_LINES - 4 {
            lines
        } else {
            (TARGET_LINES - 4) as u16
        },
        das_room: if node.meta & DAS_MASK == 0x200 {
            (m - column_height(b, 0)) as u32
        } else if node.meta & DAS_MASK == 0x400 {
            (m - column_height(b, 9)) as u32
        } else {
            0
        },
    }
}

/// The integer features of a node that its score weighs (see
/// `BoardFeatures`).
pub fn board_features(node: &SearchNode<ShapeBoard>) -> (f: BoardFeatures)
    ensures
        f == features_of(*node),
{
    let b = node.state;
    let first = b.get_height(0);
    proof {
        crate::bitboard::lanes::lemma_and_le(lane(b.packed_shape, 0), 31, 0, 0);
    }
    let mut max_h: u64 = first;
    let mut parity: i32 = (first % 2) as i32;
    let mut bump: u32 = 0;
    let mut bump_light: u32 = 0;
    let mut prev: u64 = first;
    let mut i: usize = 1;
    while i < 10
        invariant
            1 <= i <= 10,
            prev == column_height(b, i - 1),
            max_h == max_upto(b, i as int),
            max_h <= 31,
            first == column_height(b, 0),
            forall|c: int| 0 <= c < i ==> max_h >= #[trigger] column_height(b, c),
            parity == parity_upto(b, i as int),
            -(i as int) <= parity <= i,
            bump == bump_upto(b, i as int),
            bump <= 31 * i,
            bump_light == bump_light_upto(b, i as int),
            bump_light <= 31 * i,
            b == node.state,
        decreases 10 - i,
    {
        let h = b.get_height(i);
        proof {
            crate::bitboard::lanes::lemma_and_le(lane(b.packed_shape, i as int), 31, 0, 0);
        }
        let d: u32 = if h >= prev {
            (h - prev) as u32
        } else {
            (prev - h) as u32
        };
        if i == 2 || i == 6 {
            bump_light = bump_light + d;
        } else {
            bump = bump + d;
        }
        if h > max_h {
            max_h = h;
        }
        if h % 2 == 1 {
            if i % 2 == 0 {
                parity = parity + 1;
            } else {
                parity = parity - 1;
            }
        }
        prev = h;
        i += 1;
    }
    let lines = node.meta & LINES_CLEARED_MASK;
    let das = node.meta & DAS_MASK;
    let das_room: u32 = if das == 0x200 {
        (max_h - first) as u32
    } else if das == 0x400 {
        (max_h - b.get_height(9)) as u32
    } else {
        0
    };
    BoardFeatures {
        held: node.meta & HOLD_MASK != 0,
        bump,
        bump_light,
        parity,
        max_height: max_h as u32,
        lines: if lines < TARGET_LINES - 4 {
            lines
        } else {
            TARGET_LINES - 4
        },
        das_room,
    }
}

} // verus!
verus! {

/// The highest of columns `0..n` is at least each of them and is one of
/// them.
proof fn lemma_max_upto(b: ShapeBoard, n: int)
    requires
        1 <= n <= 10,
    ensures
        forall|c: int| 0 <= c < n ==> #[trigger] column_height(b, c) <= max_upto(b, n),
        exists|c: int| 0 <= c < n && #[trigger] column_height(b, c) == max_upto(b, n),
    decreases n,
{
    if n > 1 {
        lemma_max_upto(b, n - 1);
        if column_height(b, n - 1) > max_upto(b, n - 1) {
            assert(column_height(b, n - 1) == max_upto(b, n));
        } else {
            let c = choose|c: int| 0 <= c < n - 1 && #[trigger] column_height(b, c) == max_upto(b, n - 1);
            assert(column_height(b, c) == max_upto(b, n));
        }
    } else {
        assert(column_height(b, 0) == max_upto(b, n));
    }
}

/// The room a DAS has left: where the last piece ended against a wall (the
/// DAS side of `meta`), the maximum height of the board less the height of
/// that wall's column (column 0 on the left, column 9 on the right); none
/// where it ended against no wall. The maximum height is the highest of the
/// ten columns.
pub proof fn lemma_das_room(node: SearchNode<ShapeBoard>)
    requires
        node.state.wf(),
    ensures
        forall|c: int| 0 <= c < 10 ==> #[trigger] node.state.heights()[c] <= features_of(node).max_height,
        exists|c: int| 0 <= c < 10 && #[trigger] node.state.heights()[c] == features_of(node).max_height,
        node.meta & DAS_MASK == 0x200 ==> features_of(node).das_room + node.state.heights()[0] == features_of(
            node,
        ).max_height,
        node.meta & DAS_MASK == 0x400 ==> features_of(node).das_room + node.state.heights()[9] == features_of(
            node,
        ).max_height,
        node.meta & DAS_MASK != 0x200 && node.meta & DAS_MASK != 0x400 ==> features_of(node).das_room == 0,
{
    let b = node.state;
    assert forall|c: int| 0 <= c < 10 implies #[trigger] column_height(b, c) == b.heights()[c] by {
        assert(lane(b.packed_shape, c) <= 20);
        crate::bitboard::lanes::lemma_small_bits(lane(b.packed_shape, c), 0);
    }
    lemma_max_upto(b, 10);
    assert forall|c: int| 0 <= c < 10 implies #[trigger] b.heights()[c] <= features_of(node).max_height by {
        assert(column_height(b, c) <= max_upto(b, 10));
    }
    let c0 = choose|c: int| 0 <= c < 10 && #[trigger] column_height(b, c) == max_upto(b, 10);
    assert(b.heights()[c0] == features_of(node).max_height);
    assert(column_height(b, 0) == b.heights()[0]);
    assert(column_height(b, 9) == b.heights()[9]);
}

} // verus!
