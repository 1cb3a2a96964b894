//! Move generation, and the key sequences that perform each move.
use vstd::prelude::*;
use crate::PieceType;
use crate::bitboard::{Board, SearchNode, HOLD_MASK, DAS_MASK, LINES_CLEARED_MASK};
use crate::config::NO_HOLD;
use crate::bitboard::{ShapeBoard, BitBoard};
use crate::search::PathNode;

verus! {

use crate::bitboard::shapes::{
    shape_width, spec_finesse_table, finesse_table, finesse_keys, finesse_reuse, finesse_special,
    lemma_finesse_decode, lemma_shape_decode,
};
use crate::bitboard::cells::{lemma_shr_twice, lemma_meta_masks, lemma_meta_step, lemma_support_bit};
use crate::bitboard::lanes::{lemma_shift_widths, lemma_and_le, lane, fits60};

/// How a move was made, as the replay needs it: whether it holds first, the
/// row of the finesse table (`finesse_idx`) and the target column `x`,
/// whether its first DAS carries over from the previous piece (`reused`),
/// whether it is only a hold (`hold_only`), and whether its special form
/// applies (`special`).
#[derive(Clone, Copy, Debug, PartialEq, Eq, Structural)]
pub struct ReplayMove {
    pub hold: bool,
    pub finesse_idx: usize,
    pub x: u8,
    pub reused: bool,
    pub hold_only: bool,
    pub special: bool,
}

/// Where `generate_moves` reports how each move was made.
pub trait ReplaySink {
    /// What the sink holds.
    spec fn recorded(&self) -> Seq<ReplayMove>;

    /// Whether the sink keeps what it is given.
    spec fn records() -> bool;

    /// Reports one move.
    fn push(&mut self, op: ReplayMove)
        ensures
            Self::records() ==> final(self).recorded() == old(self).recorded().push(op),
            !Self::records() ==> final(self).recorded() == old(self).recorded(),
    ;
}

/// A sink that keeps nothing, for the search.
pub struct NoReplay;

impl ReplaySink for NoReplay {
    open spec fn recorded(&self) -> Seq<ReplayMove> {
        Seq::empty()
    }

    open spec fn records() -> bool {
        false
    }

    fn push(&mut self, op: ReplayMove) {
    }
}

impl ReplaySink for Vec<ReplayMove> {
    open spec fn recorded(&self) -> Seq<ReplayMove> {
        self@
    }

    open spec fn records() -> bool {
        true
    }

    fn push(&mut self, op: ReplayMove) {
        Vec::push(self, op);
    }
}

/// The first orientation of each piece (by piece index minus one), and one
/// past the last.
pub open spec fn spec_shape_range(k: int) -> int {
    if k == 0 {
        0
    } else if k == 1 {
        2
    } else if k == 2 {
        4
    } else if k == 3 {
        8
    } else if k == 4 {
        12
    } else if k == 5 {
        16
    } else if k == 6 {
        17
    } else {
        19
    }
}

/// The orientations of piece index `p` run from `shape_range(p - 1)` up to
/// `shape_range(p)`.
pub fn shape_range(k: usize) -> (r: usize)
    requires
        k < 8,
    ensures
        r == spec_shape_range(k as int),
{
    if k == 0 {
        0
    } else if k == 1 {
        2
    } else if k == 2 {
        4
    } else if k == 3 {
        8
    } else if k == 4 {
        12
    } else if k == 5 {
        16
    } else if k == 6 {
        17
    } else {
        19
    }
}

/// The first row of the key-sequence table for each piece index: S and Z
/// share rows 0-1, J, L and T share rows 2-5, O has row 6, I rows 7-8.
pub open spec fn spec_finesse_range(p: int) -> int {
    if p <= 2 {
        0
    } else if p <= 5 {
        2
    } else if p == 6 {
        6
    } else {
        7
    }
}

fn finesse_range(p: usize) -> (r: usize)
    requires
        p < 8,
    ensures
        r == spec_finesse_range(p as int),
{
    if p <= 2 {
        0
    } else if p <= 5 {
        2
    } else if p == 6 {
        6
    } else {
        7
    }
}

/// The node that holds `piece` before the move: the held piece becomes
/// `piece`, the hold costs a key, and the parent is `idx`.
pub open spec fn hold_node<B: Board>(node: SearchNode<B>, piece: PieceType, idx: usize) -> SearchNode<B> {
    SearchNode {
        state: node.state,
        meta: (node.meta & !HOLD_MASK) | ((piece.spec_index() as u16) << 11u16),
        keys_pressed: (node.keys_pressed + 1) as u16,
        parent_idx: idx,
    }
}

/// The DAS side a move ends on: bit 9 for the left wall, bit 10 for the
/// right wall.
pub open spec fn das_bits(x: int, width: int) -> u16 {
    ((if x == 0 {
        1u16
    } else {
        0u16
    }) << 9u16) | ((if x == 10 - width {
        1u16
    } else {
        0u16
    }) << 10u16)
}

/// The DAS side of `meta` on the half of the board where column `x` lies:
/// bit 9 for columns 0-4, bit 10 for 5-9.
pub open spec fn das_support(meta: u16, x: int) -> u64 {
    (meta as u64) >> (if x > 4 {
        10u64
    } else {
        9u64
    })
}

/// The move dropping orientation `i` at column `x` from `node`, and how it
/// was made; `None` where the drop does not fit.
pub open spec fn placement<B: Board>(
    node: SearchNode<B>,
    i: int,
    x: int,
    idx: usize,
    hold: bool,
    fidx: int,
) -> Option<(SearchNode<B>, ReplayMove)> {
    let meta_nodas = node.meta & !DAS_MASK;
    match node.state.drop_spec(x, i, (meta_nodas & LINES_CLEARED_MASK) as int) {
        None => None,
        Some((st, n)) => {
            let support = das_support(node.meta, x);
            let reused = finesse_reuse(i)[x] & support;
            let special = finesse_special(i)[x] & support;
            Some(
                (
                    SearchNode {
                        state: st,
                        meta: ((meta_nodas + n) as u16) | das_bits(x, shape_width(i)),
                        keys_pressed: (node.keys_pressed + (finesse_keys(i)[x] - reused) + 1) as u16,
                        parent_idx: idx,
                    },
                    ReplayMove {
                        hold,
                        finesse_idx: fidx as usize,
                        x: x as u8,
                        reused: reused != 0,
                        hold_only: false,
                        special: special != 0,
                    },
                ),
            )
        },
    }
}

/// The moves for orientation `i` at columns `0..hi`, in column order.
pub open spec fn orientation_moves<B: Board>(
    node: SearchNode<B>,
    i: int,
    hi: int,
    idx: usize,
    hold: bool,
    fidx: int,
) -> Seq<(SearchNode<B>, ReplayMove)>
    decreases hi,
{
    if hi <= 0 {
        Seq::empty()
    } else {
        let before = orientation_moves(node, i, hi - 1, idx, hold, fidx);
        match placement(node, i, hi - 1, idx, hold, fidx) {
            Some(m) => before.push(m),
            None => before,
        }
    }
}

/// The moves for orientations `lo..hi` of piece index `p`, in order.
pub open spec fn orientations_moves<B: Board>(
    node: SearchNode<B>,
    p: int,
    lo: int,
    hi: int,
    idx: usize,
    hold: bool,
) -> Seq<(SearchNode<B>, ReplayMove)>
    decreases hi - lo,
{
    if hi <= lo {
        Seq::empty()
    } else {
        orientations_moves(node, p, lo, hi - 1, idx, hold) + orientation_moves(
            node,
            hi - 1,
            11 - shape_width(hi - 1),
            idx,
            hold,
            hi - 1 - spec_shape_range(p - 1) + spec_finesse_range(p),
        )
    }
}

/// The moves of piece index `p` from `node`: the hold alone when `p` is 0
/// (nothing to place), else every orientation at every column.
pub open spec fn piece_moves<B: Board>(node: SearchNode<B>, p: int, idx: usize, hold: bool) -> Seq<
    (SearchNode<B>, ReplayMove),
> {
    if p == 0 {
        seq![
            (
                node,
                ReplayMove {
                    hold: true,
                    finesse_idx: 0,
                    x: 0,
                    reused: false,
                    hold_only: true,
                    special: false,
                },
            ),
        ]
    } else {
        orientations_moves(node, p, spec_shape_range(p - 1), spec_shape_range(p), idx, hold)
    }
}

/// Every move from `node` with `piece` to place: first those that place it,
/// then (with hold allowed) those that hold it and place the held piece.
pub open spec fn all_moves<B: Board>(node: SearchNode<B>, piece: PieceType, idx: usize) -> Seq<
    (SearchNode<B>, ReplayMove),
> {
    piece_moves(node, piece.spec_index() as int, idx, false) + if NO_HOLD {
        Seq::empty()
    } else {
        piece_moves(hold_node(node, piece, idx), (node.meta >> 11u16) as int, idx, true)
    }
}

/// Whether node `to` can come from `from` in one move of at most `extra`
/// keys: a well-formed board, packed state below bit 14, between none and six
/// more cleared lines, and at most `extra` more keys.
pub open spec fn follows<B: Board>(from: SearchNode<B>, to: SearchNode<B>, extra: int) -> bool {
    &&& to.state.board_wf()
    &&& to.meta < 0x4000
    &&& from.meta & LINES_CLEARED_MASK <= to.meta & LINES_CLEARED_MASK
    &&& to.meta & LINES_CLEARED_MASK <= (from.meta & LINES_CLEARED_MASK) + 6
    &&& to.keys_pressed <= from.keys_pressed + extra
}

/// What a placement does, as the replay writers count it: from a node with
/// `a_keys` keys and packed state `a_meta` to one with `b_keys` and `b_meta`,
/// the keys added are the presses of its key sequence (less the DAS it
/// carries over, which needs the DAS side bit of `a_meta` on its side) and
/// the drop; the sequence has the shape the writers rely on; and the new DAS
/// side bit is set only at a wall, whose sequence starts with the DAS
/// towards it and ends with its release.
pub open spec fn place_effect(a_keys: int, a_meta: u16, b_keys: u16, b_meta: u16, m: ReplayMove) -> bool {
    let q = finesse_ops(m.finesse_idx as int, m.x as int);
    &&& !m.hold_only
    &&& b_keys == a_keys + presses(q) - (if m.reused {
        1int
    } else {
        0
    }) + 1
    &&& row_shape_ok(q)
    &&& (m.reused ==> q.len() > 0 && a_meta & (if m.x > 4 {
        0x400u16
    } else {
        0x200u16
    }) != 0)
    &&& (b_meta & 0x200u16 != 0 ==> m.x <= 4 && q.len() >= 2 && q[0] == Action::DasLeft && q.last()
        == Action::DasLeftUp)
    &&& (b_meta & 0x400u16 != 0 ==> m.x > 4 && q.len() >= 2 && q[0] == Action::DasRight && q.last()
        == Action::DasRightUp)
}

/// Whether the keys of row `g` at column `x` can continue a held DAS: they
/// start with a DAS, or have a form for a carried one.
pub open spec fn has_carry_form(g: int, x: int) -> bool {
    let q = finesse_ops(g, x);
    (q.len() > 0 && is_das_start(q[0])) || reuse_ops(g, x) is Some
}

/// Every move of `ms` that continues a DAS has keys that can.
pub open spec fn carry_ok<B: Board>(ms: Seq<(SearchNode<B>, ReplayMove)>) -> bool {
    forall|k: int|
        0 <= k < ms.len() && (#[trigger] ms[k]).1.reused ==> has_carry_form(ms[k].1.finesse_idx as int, ms[k].1.x as int)
}

proof fn lemma_placement_carry<B: Board>(node: SearchNode<B>, i: int, x: int, idx: usize, hold: bool, fidx: int)
    requires
        0 <= i < 19,
        0 <= x,
        x + shape_width(i) <= 10,
        fidx == shape_row(i),
        placement(node, i, x, idx, hold, fidx) is Some,
    ensures
        (placement(node, i, x, idx, hold, fidx)->0).1.reused ==> has_carry_form(fidx, x),
        (placement(node, i, x, idx, hold, fidx)->0).1.finesse_idx == fidx,
        (placement(node, i, x, idx, hold, fidx)->0).1.x == x,
{
    lemma_shape_decode(i);
    lemma_finesse_decode(i, x);
    lemma_key_rows(i, x);
    let support = das_support(node.meta, x);
    crate::bitboard::lanes::lemma_and_le(finesse_reuse(i)[x], support, 0, 0);
    assert(0 <= fidx < 9) by {
        assert(0 <= shape_row(i) < 9);
    }
}

proof fn lemma_orientation_carry<B: Board>(node: SearchNode<B>, i: int, hi: int, idx: usize, hold: bool, fidx: int)
    requires
        0 <= i < 19,
        hi <= 11 - shape_width(i),
        fidx == shape_row(i),
    ensures
        carry_ok(orientation_moves(node, i, hi, idx, hold, fidx)),
    decreases hi,
{
    if hi > 0 {
        lemma_shape_decode(i);
        lemma_orientation_carry(node, i, hi - 1, idx, hold, fidx);
        let before = orientation_moves(node, i, hi - 1, idx, hold, fidx);
        match placement(node, i, hi - 1, idx, hold, fidx) {
            Some(m) => {
                lemma_placement_carry(node, i, hi - 1, idx, hold, fidx);
                let after = before.push(m);
                assert(orientation_moves(node, i, hi, idx, hold, fidx) == after);
                assert forall|k: int| 0 <= k < after.len() && (#[trigger] after[k]).1.reused implies has_carry_form(
                    after[k].1.finesse_idx as int,
                    after[k].1.x as int,
                ) by {
                    if k < before.len() {
                        assert(after[k] == before[k]);
                    }
                }
            },
            None => {},
        }
    }
}

proof fn lemma_orientations_carry<B: Board>(node: SearchNode<B>, p: int, lo: int, hi: int, idx: usize, hold: bool)
    requires
        1 <= p <= 7,
        lo == spec_shape_range(p - 1),
        lo <= hi <= spec_shape_range(p),
    ensures
        carry_ok(orientations_moves(node, p, lo, hi, idx, hold)),
    decreases hi - lo,
{
    if hi > lo {
        lemma_orientations_carry(node, p, lo, hi - 1, idx, hold);
        let i = hi - 1;
        let fidx = i - spec_shape_range(p - 1) + spec_finesse_range(p);
        assert(fidx == shape_row(i));
        lemma_orientation_carry(node, i, 11 - shape_width(i), idx, hold, fidx);
        let prev = orientations_moves(node, p, lo, hi - 1, idx, hold);
        let added = orientation_moves(node, i, 11 - shape_width(i), idx, hold, fidx);
        assert(orientations_moves(node, p, lo, hi, idx, hold) == prev + added);
        let all = prev + added;
        assert forall|k: int| 0 <= k < all.len() && (#[trigger] all[k]).1.reused implies has_carry_form(
            all[k].1.finesse_idx as int,
            all[k].1.x as int,
        ) by {
            if k < prev.len() {
                assert(all[k] == prev[k]);
            } else {
                assert(all[k] == added[k - prev.len()]);
            }
        }
    }
}

proof fn lemma_piece_carry<B: Board>(node: SearchNode<B>, p: int, idx: usize, hold: bool)
    requires
        0 <= p <= 7,
    ensures
        carry_ok(piece_moves(node, p, idx, hold)),
{
    if p > 0 {
        lemma_orientations_carry(node, p, spec_shape_range(p - 1), spec_shape_range(p), idx, hold);
    }
}

/// A move that continues a DAS has keys that can: they start with a DAS, or
/// have a form for a carried one.
pub proof fn lemma_path_step_carry(n1: crate::search::PathNode, piece: PieceType, n2: crate::search::PathNode)
    requires
        path_step(n1, piece, n2) is Some,
    ensures
        path_step(n1, piece, n2)->0.reused ==> has_carry_form(
            path_step(n1, piece, n2)->0.finesse_idx as int,
            path_step(n1, piece, n2)->0.x as int,
        ),
{
    match (n1, n2) {
        (crate::search::PathNode::Normal(a), crate::search::PathNode::Normal(b)) => {
            lemma_rebuilt_carry(a, piece, b);
        },
        (crate::search::PathNode::Pc(a), crate::search::PathNode::Pc(b)) => {
            lemma_rebuilt_carry(a, piece, b);
        },
        (crate::search::PathNode::Normal(a), crate::search::PathNode::Pc(b)) => {
            lemma_rebuilt_carry(as_endgame(a), piece, b);
        },
        _ => {},
    }
}

proof fn lemma_rebuilt_carry<B: Board>(node: SearchNode<B>, piece: PieceType, result: SearchNode<B>)
    requires
        reachable(node, piece, result),
    ensures
        rebuilt(node, piece, result).reused ==> has_carry_form(
            rebuilt(node, piece, result).finesse_idx as int,
            rebuilt(node, piece, result).x as int,
        ),
{
    let ms = all_moves(node, piece, result.parent_idx);
    let j = choose|k: int| 0 <= k < ms.len() && ms[k].0 == result;
    lemma_first_match(ms, result, 0, j);
    let first = piece_moves(node, piece.spec_index() as int, result.parent_idx, false);
    let hn = hold_node(node, piece, result.parent_idx);
    let second = piece_moves(hn, (node.meta >> 11u16) as int, result.parent_idx, true);
    assert(piece.spec_index() <= 7);
    lemma_piece_carry(node, piece.spec_index() as int, result.parent_idx, false);
    crate::bitboard::cells::lemma_meta_masks(node.meta, 0);
    lemma_piece_carry(hn, (node.meta >> 11u16) as int, result.parent_idx, true);
    assert(ms == first + second);
    let t = first_match(ms, result, 0);
    if t < first.len() {
        assert(ms[t] == first[t]);
    } else {
        assert(ms[t] == second[t - first.len()]);
    }
}

proof fn lemma_first_match_before<B: Board>(ms: Seq<(SearchNode<B>, ReplayMove)>, target: SearchNode<B>, k: int)
    requires
        0 <= k <= ms.len(),
    ensures
        forall|j: int| k <= j < first_match(ms, target, k) ==> (#[trigger] ms[j]).0 != target,
    decreases ms.len() - k,
{
    if k < ms.len() && ms[k].0 != target {
        lemma_first_match_before(ms, target, k + 1);
    }
}

/// The move that `rebuild_actions_general` gives back is the one that
/// `generate_moves` records for the first generated node equal to the
/// result: it is recorded at index `k` of `all_moves`, whose node is the
/// result, and no node before it is.
pub proof fn lemma_rebuilt_recorded<B: Board>(node: SearchNode<B>, piece: PieceType, result: SearchNode<B>)
    requires
        reachable(node, piece, result),
    ensures
        ({
            let ms = all_moves(node, piece, result.parent_idx);
            exists|k: int|
                0 <= k < ms.len() && (#[trigger] ms[k]).0 == result && ms[k].1 == rebuilt(node, piece, result)
                    && forall|j: int| 0 <= j < k ==> (#[trigger] ms[j]).0 != result
        }),
{
    let ms = all_moves(node, piece, result.parent_idx);
    let j = choose|k: int| 0 <= k < ms.len() && ms[k].0 == result;
    lemma_first_match(ms, result, 0, j);
    lemma_first_match_before(ms, result, 0);
    let k = first_match(ms, result, 0);
    assert(ms[k].0 == result);
}

/// What a move does, as the replay writers count it: a lone hold, from an
/// empty hold slot to a full one, costs one key and keeps the DAS side
/// bits; any other move is a placement (see `place_effect`) after a hold
/// that costs one key where it holds.
pub open spec fn move_effect(a_keys: u16, a_meta: u16, b_keys: u16, b_meta: u16, m: ReplayMove) -> bool {
    if m.hold_only {
        &&& a_meta >> 11u16 == 0
        &&& b_keys == a_keys + 1
        &&& b_meta >> 11u16 != 0
        &&& b_meta & 0x200u16 == a_meta & 0x200u16
        &&& b_meta & 0x400u16 == a_meta & 0x400u16
    } else {
        place_effect(a_keys + if m.hold {
            1int
        } else {
            0
        }, a_meta, b_keys, b_meta, m)
    }
}

/// What `generate_moves` needs of a node.
pub open spec fn can_expand<B: Board>(node: SearchNode<B>, piece: PieceType) -> bool {
    &&& node.state.board_wf()
    &&& B::lines_ok((node.meta & LINES_CLEARED_MASK) as int)
    &&& piece != PieceType::Empty
    &&& node.meta < 0x4000
    &&& node.keys_pressed + 5 <= u16::MAX
}


/// The columns at which orientations `lo..hi` can be dropped.
pub open spec fn drop_columns(lo: int, hi: int) -> int
    decreases hi - lo,
{
    if hi <= lo {
        0
    } else {
        drop_columns(lo, hi - 1) + 11 - shape_width(hi - 1)
    }
}

proof fn lemma_orientation_len<B: Board>(node: SearchNode<B>, i: int, hi: int, idx: usize, hold: bool, fidx: int)
    requires
        hi >= 0,
    ensures
        orientation_moves(node, i, hi, idx, hold, fidx).len() <= hi,
    decreases hi,
{
    if hi > 0 {
        lemma_orientation_len(node, i, hi - 1, idx, hold, fidx);
    }
}

proof fn lemma_orientations_len<B: Board>(node: SearchNode<B>, p: int, lo: int, hi: int, idx: usize, hold: bool)
    requires
        lo <= hi,
        forall|s: int| lo <= s < hi ==> 1 <= #[trigger] shape_width(s) <= 4,
    ensures
        orientations_moves(node, p, lo, hi, idx, hold).len() <= drop_columns(lo, hi),
    decreases hi - lo,
{
    if lo < hi {
        lemma_orientations_len(node, p, lo, hi - 1, idx, hold);
        lemma_orientation_len(
            node,
            hi - 1,
            11 - shape_width(hi - 1),
            idx,
            hold,
            hi - 1 - spec_shape_range(p - 1) + spec_finesse_range(p),
        );
    }
}

proof fn lemma_piece_moves_len<B: Board>(node: SearchNode<B>, p: int, idx: usize, hold: bool)
    requires
        0 <= p,
    ensures
        piece_moves(node, p, idx, hold).len() <= 34,
{
    if p > 0 {
        let lo = spec_shape_range(p - 1);
        let hi = spec_shape_range(p);
        assert forall|s: int| lo <= s < hi implies 1 <= #[trigger] shape_width(s) <= 4 by {
            lemma_shape_decode(s);
        }
        lemma_orientations_len(node, p, lo, hi, idx, hold);
        reveal_with_fuel(drop_columns, 5);
        assert(drop_columns(lo, hi) <= 34) by {
            assert(drop_columns(0, 2) == 17) by {
                lemma_shape_decode(0);
                lemma_shape_decode(1);
            }
            assert(drop_columns(2, 4) == 17) by {
                lemma_shape_decode(2);
                lemma_shape_decode(3);
            }
            assert(drop_columns(4, 8) == 34) by {
                lemma_shape_decode(4);
                lemma_shape_decode(5);
                lemma_shape_decode(6);
                lemma_shape_decode(7);
            }
            assert(drop_columns(8, 12) == 34) by {
                lemma_shape_decode(8);
                lemma_shape_decode(9);
                lemma_shape_decode(10);
                lemma_shape_decode(11);
            }
            assert(drop_columns(12, 16) == 34) by {
                lemma_shape_decode(12);
                lemma_shape_decode(13);
                lemma_shape_decode(14);
                lemma_shape_decode(15);
            }
            assert(drop_columns(16, 17) == 9) by {
                lemma_shape_decode(16);
            }
            assert(drop_columns(17, 19) == 17) by {
                lemma_shape_decode(17);
                lemma_shape_decode(18);
            }
        }
    }
}

/// A node has at most 68 moves: at most 34 place the piece (J, L and T have
/// the most), and as many again hold it first.
pub proof fn lemma_moves_capacity<B: Board>(node: SearchNode<B>, piece: PieceType, idx: usize)
    ensures
        all_moves(node, piece, idx).len() <= 68,
{
    lemma_piece_moves_len(node, piece.spec_index() as int, idx, false);
    lemma_piece_moves_len(hold_node(node, piece, idx), (node.meta >> 11u16) as int, idx, true);
}

/// Appends the moves for orientation `i`, column by column.
#[verifier::spinoff_prover]
#[verifier::rlimit(60)]
fn push_orientation_moves<B: Board, S: ReplaySink>(
    moves: &mut Vec<SearchNode<B>>,
    replay: &mut S,
    node: &SearchNode<B>,
    i: usize,
    idx: usize,
    hold: bool,
    fidx: usize,
)
    requires
        i < 19,
        fidx == shape_row(i as int),
        node.state.board_wf(),
        B::lines_ok((node.meta & LINES_CLEARED_MASK) as int),
        node.meta < 0x4000,
        node.keys_pressed + 4 <= u16::MAX,
    ensures
        final(moves)@ == old(moves)@ + orientation_moves(*node, i as int, 11 - shape_width(i as int), idx, hold, fidx as int).map_values(
            |p: (SearchNode<B>, ReplayMove)| p.0,
        ),
        S::records() ==> final(replay).recorded() == old(replay).recorded() + orientation_moves(
            *node,
            i as int,
            11 - shape_width(i as int),
            idx,
            hold,
            fidx as int,
        ).map_values(|p: (SearchNode<B>, ReplayMove)| p.1),
        !S::records() ==> final(replay).recorded() == old(replay).recorded(),
        forall|k: int|
            0 <= k < orientation_moves(*node, i as int, 11 - shape_width(i as int), idx, hold, fidx as int).len()
                ==> follows(*node, #[trigger] orientation_moves(*node, i as int, 11 - shape_width(i as int), idx, hold, fidx as int)[k].0, 4)
                && orientation_moves(*node, i as int, 11 - shape_width(i as int), idx, hold, fidx as int)[k].0.parent_idx == idx
                && orientation_moves(*node, i as int, 11 - shape_width(i as int), idx, hold, fidx as int)[k].1.hold == hold
                && place_effect(
                node.keys_pressed as int,
                node.meta,
                orientation_moves(*node, i as int, 11 - shape_width(i as int), idx, hold, fidx as int)[k].0.keys_pressed,
                orientation_moves(*node, i as int, 11 - shape_width(i as int), idx, hold, fidx as int)[k].0.meta,
                orientation_moves(*node, i as int, 11 - shape_width(i as int), idx, hold, fidx as int)[k].1,
            ),
{
    let ghost s = i as int;
    let ghost old_moves = moves@;
    let ghost old_replay = replay.recorded();
    proof {
        lemma_shape_decode(s);
        lemma_finesse_decode(s, 0);
        lemma_meta_masks(node.meta, 0);
        lemma_shr_twice(spec_finesse_table(s) & 0x0FFF_FFFF_FFFF_FFFFu64, 0);
    }
    let shape_idx = i as u8;
    let finesse = finesse_table(shape_idx);
    let width = (finesse >> 60) as u8;
    let mut finesse_data = finesse & ((1u64 << 60) - 1);
    let meta_nodas = node.meta & !DAS_MASK;
    let mut x: u8 = 0;
    while x < 11 - width
        invariant
            0 <= s < 19,
            shape_idx == s,
            width == shape_width(s),
            1 <= width <= 4,
            x <= 11 - width,
            finesse == spec_finesse_table(s),
            finesse_data == (spec_finesse_table(s) & 0x0FFF_FFFF_FFFF_FFFFu64) >> ((6 * x) as u64),
            meta_nodas == node.meta & !DAS_MASK,
            meta_nodas & LINES_CLEARED_MASK == node.meta & LINES_CLEARED_MASK,
            meta_nodas < 0x4000,
            node.meta < 0x4000,
            node.state.board_wf(),
            B::lines_ok((node.meta & LINES_CLEARED_MASK) as int),
            node.keys_pressed + 4 <= u16::MAX,
            moves@ == old_moves + orientation_moves(*node, s, x as int, idx, hold, fidx as int).map_values(
                |p: (SearchNode<B>, ReplayMove)| p.0,
            ),
            S::records() ==> replay.recorded() == old_replay + orientation_moves(*node, s, x as int, idx, hold, fidx as int).map_values(
                |p: (SearchNode<B>, ReplayMove)| p.1,
            ),
            !S::records() ==> replay.recorded() == old_replay,
            forall|k: int|
                0 <= k < orientation_moves(*node, s, x as int, idx, hold, fidx as int).len() ==> follows(
                    *node,
                    #[trigger] orientation_moves(*node, s, x as int, idx, hold, fidx as int)[k].0,
                    4,
                ) && orientation_moves(*node, s, x as int, idx, hold, fidx as int)[k].0.parent_idx == idx
                    && orientation_moves(*node, s, x as int, idx, hold, fidx as int)[k].1.hold == hold && place_effect(
                    node.keys_pressed as int,
                    node.meta,
                    orientation_moves(*node, s, x as int, idx, hold, fidx as int)[k].0.keys_pressed,
                    orientation_moves(*node, s, x as int, idx, hold, fidx as int)[k].0.meta,
                    orientation_moves(*node, s, x as int, idx, hold, fidx as int)[k].1,
                ),
            fidx == shape_row(s),
        decreases 11 - width - x,
    {
        proof {
            lemma_finesse_decode(s, x as int);
        }
        let ghost before = orientation_moves(*node, s, x as int, idx, hold, fidx as int);
        match node.state.drop_piece(x, shape_idx, meta_nodas & LINES_CLEARED_MASK) {
            Some(new_state) => {
                let shift = 9 + if x > 4 {
                    1u8
                } else {
                    0u8
                };
                let support = node.meta as u64 >> shift;
                let reused = ((finesse_data & 0b100) >> 2) & support;
                let special = ((finesse_data & 0x20) >> 5) & support;
                let meta_das = (if x == 0 {
                    1u16
                } else {
                    0u16
                }) << 9 | (if x == 10 - width {
                    1u16
                } else {
                    0u16
                }) << 10;
                proof {
                    lemma_shift_widths(node.meta as u64, shift, 0, 0);
                    lemma_and_le((finesse_data & 0b100) >> 2, support, 0, 0);
                }
                let next = SearchNode {
                    state: new_state.0,
                    meta: (meta_nodas + new_state.1 as u16) | meta_das,
                    keys_pressed: node.keys_pressed + ((finesse_data & 0b11) - reused) as u16 + 1,
                    parent_idx: idx,
                };
                let op = ReplayMove {
                    hold,
                    finesse_idx: fidx,
                    x,
                    reused: reused != 0,
                    hold_only: false,
                    special: special != 0,
                };
                proof {
                    assert(placement(*node, s, x as int, idx, hold, fidx as int) == Some((next, op)));
                    B::lemma_lines_ok((node.meta & LINES_CLEARED_MASK) as int);
                    lemma_meta_step(node.meta, new_state.1 as u16, (if x == 0 {
                        1u16
                    } else {
                        0u16
                    }), (if x == 10 - width {
                        1u16
                    } else {
                        0u16
                    }));
                    assert(follows(*node, next, 4));
                    lemma_key_rows(s, x as int);
                    lemma_support_bit(node.meta, finesse_reuse(s)[x as int]);
                    assert(place_effect(node.keys_pressed as int, node.meta, next.keys_pressed, next.meta, op));
                }
                moves.push(next);
                replay.push(op);
                proof {
                    assert(orientation_moves(*node, s, x + 1, idx, hold, fidx as int) == before.push((next, op)));
                    assert forall|k: int|
                        0 <= k < orientation_moves(*node, s, x + 1, idx, hold, fidx as int).len() implies follows(
                        *node,
                        #[trigger] orientation_moves(*node, s, x + 1, idx, hold, fidx as int)[k].0,
                        4,
                    ) && orientation_moves(*node, s, x + 1, idx, hold, fidx as int)[k].0.parent_idx == idx
                        && orientation_moves(*node, s, x + 1, idx, hold, fidx as int)[k].1.hold == hold && place_effect(
                        node.keys_pressed as int,
                        node.meta,
                        orientation_moves(*node, s, x + 1, idx, hold, fidx as int)[k].0.keys_pressed,
                        orientation_moves(*node, s, x + 1, idx, hold, fidx as int)[k].0.meta,
                        orientation_moves(*node, s, x + 1, idx, hold, fidx as int)[k].1,
                    ) by {
                        if k < before.len() {
                            assert(orientation_moves(*node, s, x + 1, idx, hold, fidx as int)[k] == before[k]);
                            assert(orientation_moves(*node, s, x as int, idx, hold, fidx as int)[k].0 == before[k].0);
                        } else {
                            assert(orientation_moves(*node, s, x + 1, idx, hold, fidx as int)[k] == (next, op));
                        }
                    }
                    assert(forall|k: int|
                        0 <= k < orientation_moves(*node, s, x + 1, idx, hold, fidx as int).len() ==> follows(
                            *node,
                            #[trigger] orientation_moves(*node, s, x + 1, idx, hold, fidx as int)[k].0,
                            4,
                        ) && orientation_moves(*node, s, x + 1, idx, hold, fidx as int)[k].0.parent_idx == idx
                            && orientation_moves(*node, s, x + 1, idx, hold, fidx as int)[k].1.hold == hold && place_effect(
                            node.keys_pressed as int,
                            node.meta,
                            orientation_moves(*node, s, x + 1, idx, hold, fidx as int)[k].0.keys_pressed,
                            orientation_moves(*node, s, x + 1, idx, hold, fidx as int)[k].0.meta,
                            orientation_moves(*node, s, x + 1, idx, hold, fidx as int)[k].1,
                        ));
                    assert(moves@ =~= old_moves + orientation_moves(*node, s, x + 1, idx, hold, fidx as int).map_values(
                        |p: (SearchNode<B>, ReplayMove)| p.0,
                    ));
                    if S::records() {
                        assert(replay.recorded() =~= old_replay + orientation_moves(*node, s, x + 1, idx, hold, fidx as int).map_values(
                            |p: (SearchNode<B>, ReplayMove)| p.1,
                        ));
                    }
                }
            },
            None => {
                proof {
                    assert(placement(*node, s, x as int, idx, hold, fidx as int) is None);
                    assert(orientation_moves(*node, s, x + 1, idx, hold, fidx as int) == before);
                    assert forall|k: int|
                        0 <= k < orientation_moves(*node, s, x + 1, idx, hold, fidx as int).len() implies follows(
                        *node,
                        orientation_moves(*node, s, x + 1, idx, hold, fidx as int)[k].0,
                        4,
                    ) && orientation_moves(*node, s, x + 1, idx, hold, fidx as int)[k].0.parent_idx == idx
                        && orientation_moves(*node, s, x + 1, idx, hold, fidx as int)[k].1.hold == hold && place_effect(
                        node.keys_pressed as int,
                        node.meta,
                        #[trigger] orientation_moves(*node, s, x + 1, idx, hold, fidx as int)[k].0.keys_pressed,
                        orientation_moves(*node, s, x + 1, idx, hold, fidx as int)[k].0.meta,
                        orientation_moves(*node, s, x + 1, idx, hold, fidx as int)[k].1,
                    ) by {
                        assert(orientation_moves(*node, s, x as int, idx, hold, fidx as int)[k].0 == before[k].0);
                    }
                    assert(forall|k: int|
                        0 <= k < orientation_moves(*node, s, x + 1, idx, hold, fidx as int).len() ==> follows(
                            *node,
                            #[trigger] orientation_moves(*node, s, x + 1, idx, hold, fidx as int)[k].0,
                            4,
                        ) && orientation_moves(*node, s, x + 1, idx, hold, fidx as int)[k].0.parent_idx == idx
                            && orientation_moves(*node, s, x + 1, idx, hold, fidx as int)[k].1.hold == hold && place_effect(
                            node.keys_pressed as int,
                            node.meta,
                            orientation_moves(*node, s, x + 1, idx, hold, fidx as int)[k].0.keys_pressed,
                            orientation_moves(*node, s, x + 1, idx, hold, fidx as int)[k].0.meta,
                            orientation_moves(*node, s, x + 1, idx, hold, fidx as int)[k].1,
                        ));
                }
            },
        }
        let ghost fx = orientation_moves(*node, s, x + 1, idx, hold, fidx as int);
        assert(forall|k: int|
            0 <= k < fx.len() ==> follows(*node, #[trigger] fx[k].0, 4) && fx[k].0.parent_idx == idx && fx[k].1.hold
                == hold && place_effect(node.keys_pressed as int, node.meta, fx[k].0.keys_pressed, fx[k].0.meta, fx[k].1));
        proof {
            lemma_shr_twice(spec_finesse_table(s) & 0x0FFF_FFFF_FFFF_FFFFu64, (6 * x) as u64);
        }
        finesse_data >>= 6;
        x += 1;
        assert(fx == orientation_moves(*node, s, x as int, idx, hold, fidx as int));
    }
    assert(forall|k: int|
        0 <= k < orientation_moves(*node, s, x as int, idx, hold, fidx as int).len() ==> follows(
            *node,
            #[trigger] orientation_moves(*node, s, x as int, idx, hold, fidx as int)[k].0,
            4,
        ));
    let ghost fin = orientation_moves(*node, s, x as int, idx, hold, fidx as int);
    assert(fin == orientation_moves(*node, i as int, 11 - shape_width(i as int), idx, hold, fidx as int));
    assert(forall|k: int|
        0 <= k < fin.len() ==> follows(*node, #[trigger] fin[k].0, 4) && fin[k].0.parent_idx == idx && fin[k].1.hold
            == hold && place_effect(node.keys_pressed as int, node.meta, fin[k].0.keys_pressed, fin[k].0.meta, fin[k].1));
}


/// Appends the moves of piece index `p` from `node`.
#[verifier::spinoff_prover]
#[verifier::rlimit(60)]
fn push_piece_moves<B: Board, S: ReplaySink>(
    moves: &mut Vec<SearchNode<B>>,
    replay: &mut S,
    node: &SearchNode<B>,
    p: u8,
    idx: usize,
    hold: bool,
)
    requires
        p <= 7,
        node.state.board_wf(),
        B::lines_ok((node.meta & LINES_CLEARED_MASK) as int),
        node.meta < 0x4000,
        node.keys_pressed + 4 <= u16::MAX,
    ensures
        final(moves)@ == old(moves)@ + piece_moves(*node, p as int, idx, hold).map_values(
            |q: (SearchNode<B>, ReplayMove)| q.0,
        ),
        S::records() ==> final(replay).recorded() == old(replay).recorded() + piece_moves(
            *node,
            p as int,
            idx,
            hold,
        ).map_values(|q: (SearchNode<B>, ReplayMove)| q.1),
        !S::records() ==> final(replay).recorded() == old(replay).recorded(),
        forall|k: int|
            0 <= k < piece_moves(*node, p as int, idx, hold).len() ==> follows(
                *node,
                #[trigger] piece_moves(*node, p as int, idx, hold)[k].0,
                4,
            ) && (p != 0 ==> piece_moves(*node, p as int, idx, hold)[k].0.parent_idx == idx
                && piece_moves(*node, p as int, idx, hold)[k].1.hold == hold && place_effect(
                node.keys_pressed as int,
                node.meta,
                piece_moves(*node, p as int, idx, hold)[k].0.keys_pressed,
                piece_moves(*node, p as int, idx, hold)[k].0.meta,
                piece_moves(*node, p as int, idx, hold)[k].1,
            )),
{
    let ghost old_moves = moves@;
    let ghost old_replay = replay.recorded();
    if p == 0 {
        let op = ReplayMove { hold: true, finesse_idx: 0, x: 0, reused: false, hold_only: true, special: false };
        moves.push(*node);
        replay.push(op);
        proof {
            assert(piece_moves(*node, p as int, idx, hold) == seq![(*node, op)]);
            assert(moves@ =~= old_moves + piece_moves(*node, p as int, idx, hold).map_values(
                |q: (SearchNode<B>, ReplayMove)| q.0,
            ));
            if S::records() {
                assert(replay.recorded() =~= old_replay + piece_moves(*node, p as int, idx, hold).map_values(
                    |q: (SearchNode<B>, ReplayMove)| q.1,
                ));
            }
        }
        return;
    }
    let lo = shape_range((p - 1) as usize);
    let hi = shape_range(p as usize);
    let base = finesse_range(p as usize);
    let mut i = lo;
    while i < hi
        invariant
            1 <= p <= 7,
            lo == spec_shape_range(p - 1),
            hi == spec_shape_range(p as int),
            base == spec_finesse_range(p as int),
            lo <= i <= hi,
            hi <= 19,
            node.state.board_wf(),
            B::lines_ok((node.meta & LINES_CLEARED_MASK) as int),
            node.meta < 0x4000,
            node.keys_pressed + 4 <= u16::MAX,
            moves@ == old_moves + orientations_moves(*node, p as int, lo as int, i as int, idx, hold).map_values(
                |q: (SearchNode<B>, ReplayMove)| q.0,
            ),
            S::records() ==> replay.recorded() == old_replay + orientations_moves(
                *node,
                p as int,
                lo as int,
                i as int,
                idx,
                hold,
            ).map_values(|q: (SearchNode<B>, ReplayMove)| q.1),
            !S::records() ==> replay.recorded() == old_replay,
            forall|k: int|
                0 <= k < orientations_moves(*node, p as int, lo as int, i as int, idx, hold).len() ==> follows(
                    *node,
                    #[trigger] orientations_moves(*node, p as int, lo as int, i as int, idx, hold)[k].0,
                    4,
                ) && orientations_moves(*node, p as int, lo as int, i as int, idx, hold)[k].0.parent_idx == idx
                    && orientations_moves(*node, p as int, lo as int, i as int, idx, hold)[k].1.hold == hold
                    && place_effect(
                    node.keys_pressed as int,
                    node.meta,
                    orientations_moves(*node, p as int, lo as int, i as int, idx, hold)[k].0.keys_pressed,
                    orientations_moves(*node, p as int, lo as int, i as int, idx, hold)[k].0.meta,
                    orientations_moves(*node, p as int, lo as int, i as int, idx, hold)[k].1,
                ),
        decreases hi - i,
    {
        let ghost mid_moves = moves@;
        let ghost mid_replay = replay.recorded();
        assert(i - lo + base == shape_row(i as int));
        push_orientation_moves(moves, replay, node, i, idx, hold, i - lo + base);
        proof {
            let prev = orientations_moves(*node, p as int, lo as int, i as int, idx, hold);
            let added = orientation_moves(*node, i as int, 11 - shape_width(i as int), idx, hold, (i - lo + base) as int);
            assert(orientations_moves(*node, p as int, lo as int, i + 1, idx, hold) == prev + added);
            assert forall|k: int| 0 <= k < (prev + added).len() implies follows(*node, #[trigger] (prev + added)[k].0, 4)
                && (prev + added)[k].0.parent_idx == idx && (prev + added)[k].1.hold == hold && place_effect(
                node.keys_pressed as int,
                node.meta,
                (prev + added)[k].0.keys_pressed,
                (prev + added)[k].0.meta,
                (prev + added)[k].1,
            ) by {
                if k < prev.len() {
                    assert((prev + added)[k] == prev[k]);
                    assert(orientations_moves(*node, p as int, lo as int, i as int, idx, hold)[k].0 == prev[k].0);
                } else {
                    assert((prev + added)[k] == added[k - prev.len()]);
                    assert(orientation_moves(
                        *node,
                        i as int,
                        11 - shape_width(i as int),
                        idx,
                        hold,
                        (i - lo + base) as int,
                    )[k - prev.len()].0 == added[k - prev.len()].0);
                }
            }
            assert((prev + added).map_values(|q: (SearchNode<B>, ReplayMove)| q.0) =~= prev.map_values(
                |q: (SearchNode<B>, ReplayMove)| q.0,
            ) + added.map_values(|q: (SearchNode<B>, ReplayMove)| q.0));
            assert((prev + added).map_values(|q: (SearchNode<B>, ReplayMove)| q.1) =~= prev.map_values(
                |q: (SearchNode<B>, ReplayMove)| q.1,
            ) + added.map_values(|q: (SearchNode<B>, ReplayMove)| q.1));
            assert(moves@ =~= old_moves + orientations_moves(*node, p as int, lo as int, i + 1, idx, hold).map_values(
                |q: (SearchNode<B>, ReplayMove)| q.0,
            ));
            if S::records() {
                assert(replay.recorded() =~= old_replay + orientations_moves(
                    *node,
                    p as int,
                    lo as int,
                    i + 1,
                    idx,
                    hold,
                ).map_values(|q: (SearchNode<B>, ReplayMove)| q.1));
            }
        }
        i += 1;
    }
}

/// Appends every move from `node` with `piece` to place (see `all_moves`):
/// the nodes to `moves`, and how each was made to `replay`. `idx` becomes the
/// new nodes' parent.
#[verifier::spinoff_prover]
#[verifier::rlimit(60)]
pub fn generate_moves<B: Board, S: ReplaySink>(
    moves: &mut Vec<SearchNode<B>>,
    replay: &mut S,
    node: &SearchNode<B>,
    piece: PieceType,
    idx: usize,
)
    requires
        can_expand(*node, piece),
    ensures
        final(moves)@ == old(moves)@ + all_moves(*node, piece, idx).map_values(
            |q: (SearchNode<B>, ReplayMove)| q.0,
        ),
        S::records() ==> final(replay).recorded() == old(replay).recorded() + all_moves(
            *node,
            piece,
            idx,
        ).map_values(|q: (SearchNode<B>, ReplayMove)| q.1),
        !S::records() ==> final(replay).recorded() == old(replay).recorded(),
        forall|k: int|
            0 <= k < all_moves(*node, piece, idx).len() ==> follows(*node, #[trigger] all_moves(*node, piece, idx)[k].0, 5)
                && all_moves(*node, piece, idx)[k].0.parent_idx == idx && move_effect(
                node.keys_pressed,
                node.meta,
                all_moves(*node, piece, idx)[k].0.keys_pressed,
                all_moves(*node, piece, idx)[k].0.meta,
                all_moves(*node, piece, idx)[k].1,
            ),
{
    let ghost old_moves = moves@;
    let ghost old_replay = replay.recorded();
    let hold_piece = (node.meta >> 11) as u8;
    let hold_node = SearchNode {
        state: node.state,
        meta: node.meta & !HOLD_MASK | (piece.index() as u16) << 11,
        keys_pressed: node.keys_pressed + 1,
        parent_idx: idx,
    };
    proof {
        lemma_meta_masks(node.meta, piece.spec_index() as u16);
        assert(hold_node == self::hold_node(*node, piece, idx));
    }
    push_piece_moves(moves, replay, node, piece.index(), idx, false);
    let ghost first = piece_moves(*node, piece.spec_index() as int, idx, false);
    if !NO_HOLD {
        push_piece_moves(moves, replay, &hold_node, hold_piece, idx, true);
    }
    proof {
        let second = piece_moves(hold_node, hold_piece as int, idx, true);
        assert(all_moves(*node, piece, idx) == first + second);
        assert forall|k: int| 0 <= k < (first + second).len() implies follows(*node, #[trigger] (first + second)[k].0, 5)
            && (first + second)[k].0.parent_idx == idx && move_effect(
            node.keys_pressed,
            node.meta,
            (first + second)[k].0.keys_pressed,
            (first + second)[k].0.meta,
            (first + second)[k].1,
        ) by {
            if k < first.len() {
                assert((first + second)[k] == first[k]);
                assert(piece_moves(*node, piece.spec_index() as int, idx, false)[k].0 == first[k].0);
            } else {
                let j = k - first.len();
                assert((first + second)[k] == second[j]);
                assert(piece_moves(hold_node, hold_piece as int, idx, true)[j].0 == second[j].0);
                assert(follows(hold_node, second[j].0, 4));
            }
        }
        assert((first + second).map_values(|q: (SearchNode<B>, ReplayMove)| q.0) =~= first.map_values(
            |q: (SearchNode<B>, ReplayMove)| q.0,
        ) + second.map_values(|q: (SearchNode<B>, ReplayMove)| q.0));
        assert((first + second).map_values(|q: (SearchNode<B>, ReplayMove)| q.1) =~= first.map_values(
            |q: (SearchNode<B>, ReplayMove)| q.1,
        ) + second.map_values(|q: (SearchNode<B>, ReplayMove)| q.1));
        assert(moves@ =~= old_moves + all_moves(*node, piece, idx).map_values(|q: (SearchNode<B>, ReplayMove)| q.0));
        if S::records() {
            assert(replay.recorded() =~= old_replay + all_moves(*node, piece, idx).map_values(
                |q: (SearchNode<B>, ReplayMove)| q.1,
            ));
        }
    }
}


/// The first position at or after `k` whose node is `target`.
pub open spec fn first_match<B: Board>(ms: Seq<(SearchNode<B>, ReplayMove)>, target: SearchNode<B>, k: int) -> int
    decreases ms.len() - k,
{
    if k >= ms.len() {
        ms.len() as int
    } else if ms[k].0 == target {
        k
    } else {
        first_match(ms, target, k + 1)
    }
}

/// How `result` was reached from `node` with `piece`: the record of the first
/// generated move that leads to it.
pub open spec fn rebuilt<B: Board>(node: SearchNode<B>, piece: PieceType, result: SearchNode<B>) -> ReplayMove {
    let ms = all_moves(node, piece, result.parent_idx);
    ms[first_match(ms, result, 0)].1
}

/// Whether `result` is among the moves from `node` with `piece`.
pub open spec fn reachable<B: Board>(node: SearchNode<B>, piece: PieceType, result: SearchNode<B>) -> bool {
    &&& can_expand(node, piece)
    &&& exists|k: int|
        0 <= k < all_moves(node, piece, result.parent_idx).len() && all_moves(
            node,
            piece,
            result.parent_idx,
        )[k].0 == result
}

proof fn lemma_first_match<B: Board>(ms: Seq<(SearchNode<B>, ReplayMove)>, target: SearchNode<B>, k: int, j: int)
    requires
        0 <= k <= j < ms.len(),
        ms[j].0 == target,
    ensures
        k <= first_match(ms, target, k) <= j,
        ms[first_match(ms, target, k)].0 == target,
    decreases ms.len() - k,
{
    if ms[k].0 != target {
        lemma_first_match(ms, target, k + 1, j);
    }
}

/// Finds how `result` was reached from `node` with `piece`.
fn rebuild_actions<B: Board>(node: &SearchNode<B>, piece: PieceType, result: &SearchNode<B>) -> (m: ReplayMove)
    requires
        reachable(*node, piece, *result),
    ensures
        m == rebuilt(*node, piece, *result),
        move_effect(node.keys_pressed, node.meta, result.keys_pressed, result.meta, m),
{
    let mut moves: Vec<SearchNode<B>> = Vec::new();
    let mut replay: Vec<ReplayMove> = Vec::new();
    generate_moves(&mut moves, &mut replay, node, piece, result.parent_idx);
    let ghost ms = all_moves(*node, piece, result.parent_idx);
    proof {
        assert(moves@ =~= ms.map_values(|q: (SearchNode<B>, ReplayMove)| q.0));
        assert(replay@ =~= ms.map_values(|q: (SearchNode<B>, ReplayMove)| q.1));
        let j = choose|k: int| 0 <= k < ms.len() && ms[k].0 == *result;
        lemma_first_match(ms, *result, 0, j);
    }
    let n = moves.len();
    let mut k: usize = 0;
    while !moves[k].same(result)
        invariant
            n == moves@.len(),
            moves@ == ms.map_values(|q: (SearchNode<B>, ReplayMove)| q.0),
            replay@ == ms.map_values(|q: (SearchNode<B>, ReplayMove)| q.1),
            0 <= k <= first_match(ms, *result, 0) < ms.len(),
            moves@.len() == ms.len(),
            first_match(ms, *result, k as int) == first_match(ms, *result, 0),
            ms[first_match(ms, *result, 0)].0 == *result,
        decreases first_match(ms, *result, 0) - k,
    {
        proof {
            assert(moves@[k as int] == ms[k as int].0);
            if k as int == first_match(ms, *result, 0) {
                assert(false);
            }
        }
        k += 1;
    }
    proof {
        assert(all_moves(*node, piece, result.parent_idx)[k as int].0 == *result);
    }
    replay[k]
}

/// How one step of a path was made; `None` where it cannot be rebuilt.
pub open spec fn path_step(n1: PathNode, piece: PieceType, n2: PathNode) -> Option<ReplayMove> {
    match (n1, n2) {
        (PathNode::Normal(a), PathNode::Normal(b)) => if reachable(a, piece, b) {
            Some(rebuilt(a, piece, b))
        } else {
            None
        },
        (PathNode::Pc(a), PathNode::Pc(b)) => if reachable(a, piece, b) {
            Some(rebuilt(a, piece, b))
        } else {
            None
        },
        (PathNode::Normal(a), PathNode::Pc(b)) => if a.state.wf() && (forall|c: int|
            0 <= c < 10 ==> #[trigger] lane(a.state.packed_shape, c) <= 6) && reachable(
            as_endgame(a),
            piece,
            b,
        ) {
            Some(rebuilt(as_endgame(a), piece, b))
        } else {
            None
        },
        (PathNode::Pc(_), PathNode::Normal(_)) => None,
    }
}

/// A beam-search node as the endgame sees it: the same node with every column
/// filled to its height.
pub open spec fn as_endgame(a: SearchNode<ShapeBoard>) -> SearchNode<BitBoard> {
    SearchNode {
        state: BitBoard::spec_new(
            choose|w: u64|
                fits60(w) && forall|c: int|
                    0 <= c < 10 ==> #[trigger] lane(w, c) == ((1u64 << lane(a.state.packed_shape, c)) - 1u64) as u64,
        ),
        meta: a.meta,
        keys_pressed: a.keys_pressed,
        parent_idx: a.parent_idx,
    }
}

/// Finds how path node `n2` was reached from `n1` with `piece`.
pub fn rebuild_actions_general(n1: &PathNode, piece: PieceType, n2: &PathNode) -> (m: ReplayMove)
    requires
        path_step(*n1, piece, *n2) is Some,
    ensures
        path_step(*n1, piece, *n2) == Some(m),
        move_effect(n1.spec_keys_pressed(), n1.spec_meta(), n2.spec_keys_pressed(), n2.spec_meta(), m),
{
    match (n1, n2) {
        (PathNode::Normal(a), PathNode::Normal(b)) => rebuild_actions(a, piece, b),
        (PathNode::Pc(a), PathNode::Pc(b)) => rebuild_actions(a, piece, b),
        (PathNode::Normal(a), PathNode::Pc(b)) => {
            let converted = a.to_bitboard();
            proof {
                let w = converted.state@;
                assert(fits60(w) && forall|c: int|
                    0 <= c < 10 ==> #[trigger] lane(w, c) == ((1u64 << lane(a.state.packed_shape, c)) - 1u64) as u64);
                let chosen = as_endgame(*a);
                let x = choose|w: u64|
                    fits60(w) && forall|c: int|
                        0 <= c < 10 ==> #[trigger] lane(w, c) == ((1u64 << lane(a.state.packed_shape, c)) - 1u64) as u64;
                BitBoard::lemma_view(converted.state, chosen.state, x);
                let cw = chosen.state@;
                assert(cw == x);
                assert forall|c: int| 0 <= c < 10 implies #[trigger] lane(cw, c) == lane(w, c) by {
                }
                crate::bitboard::lanes::lemma_lanes_eq(cw, w);
                BitBoard::lemma_view(converted.state, chosen.state, cw);
                assert(converted == chosen);
            }
            rebuild_actions(&converted, piece, b)
        },
        (PathNode::Pc(_), PathNode::Normal(_)) => {
            proof {
                assert(false);
            }
            ReplayMove { hold: false, finesse_idx: 0, x: 0, reused: false, hold_only: false, special: false }
        },
    }
}


/// Whether `result` is among the moves from `node` with `piece` (see
/// `reachable`).
fn reaches<B: Board>(node: &SearchNode<B>, piece: PieceType, result: &SearchNode<B>) -> (r: bool)
    ensures
        r == reachable(*node, piece, *result),
{
    let lines = node.meta & LINES_CLEARED_MASK;
    if !node.state.wf_check() || !B::lines_check(lines) || piece == PieceType::Empty || node.meta >= 0x4000
        || node.keys_pressed > u16::MAX - 5 {
        return false;
    }
    let mut moves: Vec<SearchNode<B>> = Vec::new();
    let mut sink = NoReplay;
    generate_moves(&mut moves, &mut sink, node, piece, result.parent_idx);
    let ghost ms = all_moves(*node, piece, result.parent_idx);
    assert(moves@ =~= ms.map_values(|q: (SearchNode<B>, ReplayMove)| q.0));
    let mut k: usize = 0;
    while k < moves.len()
        invariant
            moves@ == ms.map_values(|q: (SearchNode<B>, ReplayMove)| q.0),
            ms == all_moves(*node, piece, result.parent_idx),
            can_expand(*node, piece),
            k <= moves@.len(),
            forall|t: int| 0 <= t < k ==> ms[t].0 != *result,
        decreases moves@.len() - k,
    {
        assert(moves@[k as int] == ms[k as int].0);
        if moves[k].same(result) {
            assert(all_moves(*node, piece, result.parent_idx)[k as int].0 == *result);
            assert(can_expand(*node, piece));
            return true;
        }
        k += 1;
    }
    false
}

/// Whether `n2` follows `n1` with `piece` on a path (see `path_step`).
pub fn step_exists(n1: &PathNode, piece: PieceType, n2: &PathNode) -> (r: bool)
    ensures
        r == (path_step(*n1, piece, *n2) is Some),
{
    match (n1, n2) {
        (PathNode::Normal(a), PathNode::Normal(b)) => reaches(a, piece, b),
        (PathNode::Pc(a), PathNode::Pc(b)) => reaches(a, piece, b),
        (PathNode::Normal(a), PathNode::Pc(b)) => {
            if !a.state.wf_check() {
                return false;
            }
            let mut c: usize = 0;
            while c < 10
                invariant
                    c <= 10,
                    a.state.wf(),
                    *n1 == PathNode::Normal(*a),
                    *n2 == PathNode::Pc(*b),
                    forall|i: int| 0 <= i < c ==> #[trigger] lane(a.state.packed_shape, i) <= 6,
                decreases 10 - c,
            {
                proof {
                    crate::bitboard::lanes::lemma_shift_widths(a.state.packed_shape, (c * 6) as u8, 0, 0);
                }
                let h = (a.state.packed_shape >> (c as u8 * 6)) & 63;
                assert(h == lane(a.state.packed_shape, c as int));
                if h > 6 {
                    assert(!(forall|i: int| 0 <= i < 10 ==> #[trigger] lane(a.state.packed_shape, i) <= 6));
                    return false;
                }
                c += 1;
            }
            let converted = a.to_bitboard();
            proof {
                let w = converted.state@;
                let chosen = as_endgame(*a);
                let x = choose|w: u64|
                    fits60(w) && forall|c: int|
                        0 <= c < 10 ==> #[trigger] lane(w, c) == ((1u64 << lane(a.state.packed_shape, c)) - 1u64) as u64;
                BitBoard::lemma_view(converted.state, chosen.state, x);
                let cw = chosen.state@;
                assert(cw == x);
                assert forall|c: int| 0 <= c < 10 implies #[trigger] lane(cw, c) == lane(w, c) by {
                }
                crate::bitboard::lanes::lemma_lanes_eq(cw, w);
                BitBoard::lemma_view(converted.state, chosen.state, cw);
                assert(converted == chosen);
            }
            reaches(&converted, piece, b)
        },
        (PathNode::Pc(_), PathNode::Normal(_)) => false,
    }
}

/// A key action of a move.
#[derive(Clone, Copy, PartialEq, Eq, Debug, Structural)]
pub enum Action {
    MoveLeft,
    MoveRight,
    RotateCW,
    RotateCCW,
    Rotate180,
    DasLeft,
    DasRight,
    DasLeftUp,
    DasRightUp,
}

/// The keys that move a piece from its spawn position to target column `x`
/// in key-sequence row `g` (see `finesse_range`).
pub open spec fn finesse_ops(g: int, x: int) -> Seq<Action> {
    if g == 0 && x == 0 {
        seq![Action::DasLeft, Action::DasLeftUp]
    } else if g == 0 && x == 1 {
        seq![Action::MoveLeft, Action::MoveLeft]
    } else if g == 0 && x == 2 {
        seq![Action::MoveLeft]
    } else if g == 0 && x == 3 {
        Seq::<Action>::empty()
    } else if g == 0 && x == 4 {
        seq![Action::MoveRight]
    } else if g == 0 && x == 5 {
        seq![Action::MoveRight, Action::MoveRight]
    } else if g == 0 && x == 6 {
        seq![Action::DasRight, Action::DasRightUp, Action::MoveLeft]
    } else if g == 0 && x == 7 {
        seq![Action::DasRight, Action::DasRightUp]
    } else if g == 1 && x == 0 {
        seq![Action::DasLeft, Action::RotateCCW, Action::DasLeftUp]
    } else if g == 1 && x == 1 {
        seq![Action::DasLeft, Action::DasLeftUp, Action::RotateCW]
    } else if g == 1 && x == 2 {
        seq![Action::RotateCCW, Action::MoveLeft]
    } else if g == 1 && x == 3 {
        seq![Action::RotateCCW]
    } else if g == 1 && x == 4 {
        seq![Action::RotateCW]
    } else if g == 1 && x == 5 {
        seq![Action::RotateCW, Action::MoveRight]
    } else if g == 1 && x == 6 {
        seq![Action::RotateCW, Action::MoveRight, Action::MoveRight]
    } else if g == 1 && x == 7 {
        seq![Action::DasRight, Action::DasRightUp, Action::RotateCCW]
    } else if g == 1 && x == 8 {
        seq![Action::DasRight, Action::RotateCW, Action::DasRightUp]
    } else if g == 2 && x == 0 {
        seq![Action::DasLeft, Action::DasLeftUp]
    } else if g == 2 && x == 1 {
        seq![Action::MoveLeft, Action::MoveLeft]
    } else if g == 2 && x == 2 {
        seq![Action::MoveLeft]
    } else if g == 2 && x == 3 {
        Seq::<Action>::empty()
    } else if g == 2 && x == 4 {
        seq![Action::MoveRight]
    } else if g == 2 && x == 5 {
        seq![Action::MoveRight, Action::MoveRight]
    } else if g == 2 && x == 6 {
        seq![Action::DasRight, Action::DasRightUp, Action::MoveLeft]
    } else if g == 2 && x == 7 {
        seq![Action::DasRight, Action::DasRightUp]
    } else if g == 3 && x == 0 {
        seq![Action::DasLeft, Action::RotateCW, Action::DasLeftUp]
    } else if g == 3 && x == 1 {
        seq![Action::DasLeft, Action::DasLeftUp, Action::RotateCW]
    } else if g == 3 && x == 2 {
        seq![Action::RotateCW, Action::MoveLeft, Action::MoveLeft]
    } else if g == 3 && x == 3 {
        seq![Action::RotateCW, Action::MoveLeft]
    } else if g == 3 && x == 4 {
        seq![Action::RotateCW]
    } else if g == 3 && x == 5 {
        seq![Action::RotateCW, Action::MoveRight]
    } else if g == 3 && x == 6 {
        seq![Action::RotateCW, Action::MoveRight, Action::MoveRight]
    } else if g == 3 && x == 7 {
        seq![Action::DasRight, Action::RotateCW, Action::DasRightUp, Action::MoveLeft]
    } else if g == 3 && x == 8 {
        seq![Action::DasRight, Action::RotateCW, Action::DasRightUp]
    } else if g == 4 && x == 0 {
        seq![Action::DasLeft, Action::Rotate180, Action::DasLeftUp]
    } else if g == 4 && x == 1 {
        seq![Action::Rotate180, Action::MoveLeft, Action::MoveLeft]
    } else if g == 4 && x == 2 {
        seq![Action::Rotate180, Action::MoveLeft]
    } else if g == 4 && x == 3 {
        seq![Action::Rotate180]
    } else if g == 4 && x == 4 {
        seq![Action::Rotate180, Action::MoveRight]
    } else if g == 4 && x == 5 {
        seq![Action::Rotate180, Action::MoveRight, Action::MoveRight]
    } else if g == 4 && x == 6 {
        seq![Action::DasRight, Action::Rotate180, Action::DasRightUp, Action::MoveLeft]
    } else if g == 4 && x == 7 {
        seq![Action::DasRight, Action::Rotate180, Action::DasRightUp]
    } else if g == 5 && x == 0 {
        seq![Action::DasLeft, Action::RotateCCW, Action::DasLeftUp]
    } else if g == 5 && x == 1 {
        seq![Action::RotateCCW, Action::MoveLeft, Action::MoveLeft]
    } else if g == 5 && x == 2 {
        seq![Action::RotateCCW, Action::MoveLeft]
    } else if g == 5 && x == 3 {
        seq![Action::RotateCCW]
    } else if g == 5 && x == 4 {
        seq![Action::RotateCCW, Action::MoveRight]
    } else if g == 5 && x == 5 {
        seq![Action::RotateCCW, Action::MoveRight, Action::MoveRight]
    } else if g == 5 && x == 6 {
        seq![Action::DasRight, Action::DasRightUp, Action::RotateCCW, Action::MoveLeft]
    } else if g == 5 && x == 7 {
        seq![Action::DasRight, Action::DasRightUp, Action::RotateCCW]
    } else if g == 5 && x == 8 {
        seq![Action::DasRight, Action::RotateCCW, Action::DasRightUp]
    } else if g == 6 && x == 0 {
        seq![Action::DasLeft, Action::DasLeftUp]
    } else if g == 6 && x == 1 {
        seq![Action::DasLeft, Action::DasLeftUp, Action::MoveRight]
    } else if g == 6 && x == 2 {
        seq![Action::MoveLeft, Action::MoveLeft]
    } else if g == 6 && x == 3 {
        seq![Action::MoveLeft]
    } else if g == 6 && x == 4 {
        Seq::<Action>::empty()
    } else if g == 6 && x == 5 {
        seq![Action::MoveRight]
    } else if g == 6 && x == 6 {
        seq![Action::MoveRight, Action::MoveRight]
    } else if g == 6 && x == 7 {
        seq![Action::DasRight, Action::DasRightUp, Action::MoveLeft]
    } else if g == 6 && x == 8 {
        seq![Action::DasRight, Action::DasRightUp]
    } else if g == 7 && x == 0 {
        seq![Action::DasLeft, Action::DasLeftUp]
    } else if g == 7 && x == 1 {
        seq![Action::MoveLeft, Action::MoveLeft]
    } else if g == 7 && x == 2 {
        seq![Action::MoveLeft]
    } else if g == 7 && x == 3 {
        Seq::<Action>::empty()
    } else if g == 7 && x == 4 {
        seq![Action::MoveRight]
    } else if g == 7 && x == 5 {
        seq![Action::MoveRight, Action::MoveRight]
    } else if g == 7 && x == 6 {
        seq![Action::DasRight, Action::DasRightUp]
    } else if g == 8 && x == 0 {
        seq![Action::DasLeft, Action::RotateCCW, Action::DasLeftUp]
    } else if g == 8 && x == 1 {
        seq![Action::DasLeft, Action::DasLeftUp, Action::RotateCCW]
    } else if g == 8 && x == 2 {
        seq![Action::DasLeft, Action::DasLeftUp, Action::RotateCW]
    } else if g == 8 && x == 3 {
        seq![Action::RotateCCW, Action::MoveLeft]
    } else if g == 8 && x == 4 {
        seq![Action::RotateCCW]
    } else if g == 8 && x == 5 {
        seq![Action::RotateCW]
    } else if g == 8 && x == 6 {
        seq![Action::RotateCW, Action::MoveRight]
    } else if g == 8 && x == 7 {
        seq![Action::DasRight, Action::DasRightUp, Action::RotateCCW]
    } else if g == 8 && x == 8 {
        seq![Action::DasRight, Action::DasRightUp, Action::RotateCW]
    } else if g == 8 && x == 9 {
        seq![Action::DasRight, Action::RotateCW, Action::DasRightUp]
    } else {
        Seq::<Action>::empty()
    }
}

/// The number of target columns of each key-sequence row.
pub open spec fn finesse_row_len(g: int) -> int {
    if g == 0 {
        8
    } else if g == 1 {
        9
    } else if g == 2 {
        8
    } else if g == 3 {
        9
    } else if g == 4 {
        8
    } else if g == 5 {
        9
    } else if g == 6 {
        9
    } else if g == 7 {
        7
    } else if g == 8 {
        10
    } else {
        0
    }
}

/// The keys for a move whose first DAS carries over from the previous piece,
/// where they differ from `finesse_ops`.
pub open spec fn reuse_ops(g: int, x: int) -> Option<Seq<Action>> {
    if g == 0 && x == 1 {
        Some(seq![Action::DasLeft, Action::DasLeftUp, Action::MoveRight])
    } else if g == 1 && x == 6 {
        Some(seq![Action::DasRight, Action::DasRightUp, Action::RotateCCW, Action::MoveLeft])
    } else if g == 2 && x == 1 {
        Some(seq![Action::DasLeft, Action::DasLeftUp, Action::MoveRight])
    } else if g == 3 && x == 2 {
        Some(seq![Action::DasLeft, Action::DasLeftUp, Action::RotateCW, Action::MoveRight])
    } else if g == 4 && x == 1 {
        Some(seq![Action::DasLeft, Action::DasLeftUp, Action::Rotate180, Action::MoveRight])
    } else if g == 5 && x == 1 {
        Some(seq![Action::DasLeft, Action::DasLeftUp, Action::RotateCCW, Action::MoveRight])
    } else if g == 7 && x == 1 {
        Some(seq![Action::DasLeft, Action::DasLeftUp, Action::MoveRight])
    } else if g == 7 && x == 5 {
        Some(seq![Action::DasRight, Action::DasRightUp, Action::MoveLeft])
    } else {
        None
    }
}

/// The keys for a move in its special form, where it has one.
pub open spec fn special_ops(g: int, x: int) -> Option<Seq<Action>> {
    if g == 0 && x == 5 {
        Some(seq![Action::DasRight, Action::DasRightUp, Action::MoveLeft, Action::MoveLeft])
    } else if g == 1 && x == 2 {
        Some(seq![Action::DasLeft, Action::DasLeftUp, Action::RotateCW, Action::MoveRight])
    } else if g == 2 && x == 5 {
        Some(seq![Action::DasRight, Action::DasRightUp, Action::MoveLeft, Action::MoveLeft])
    } else if g == 3 && x == 6 {
        Some(seq![Action::DasRight, Action::DasRightUp, Action::RotateCW, Action::MoveLeft, Action::MoveLeft])
    } else if g == 4 && x == 5 {
        Some(seq![Action::DasRight, Action::DasRightUp, Action::Rotate180, Action::MoveLeft, Action::MoveLeft])
    } else if g == 5 && x == 5 {
        Some(seq![Action::DasRight, Action::DasRightUp, Action::RotateCCW, Action::MoveLeft, Action::MoveLeft])
    } else if g == 6 && x == 2 {
        Some(seq![Action::DasLeft, Action::DasLeftUp, Action::MoveRight, Action::MoveRight])
    } else if g == 6 && x == 6 {
        Some(seq![Action::DasRight, Action::DasRightUp, Action::MoveLeft, Action::MoveLeft])
    } else if g == 8 && x == 3 {
        Some(seq![Action::DasLeft, Action::DasLeftUp, Action::RotateCW, Action::MoveRight])
    } else if g == 8 && x == 6 {
        Some(seq![Action::DasRight, Action::DasRightUp, Action::RotateCCW, Action::MoveLeft])
    } else {
        None
    }
}

/// Columns between the left edge of a piece's rotation box and its leftmost
/// cell, for key-sequence row `g` in rotation state `r` (0 spawn, 1 after a
/// clockwise turn, 2 after a half turn, 3 after a counter-clockwise turn).
pub open spec fn box_offset(g: int, r: int) -> int {
    if g == 6 {
        0
    } else if g >= 7 {
        if r == 1 {
            2
        } else if r == 3 {
            1
        } else {
            0
        }
    } else if r == 1 {
        1
    } else {
        0
    }
}

/// How many columns a piece of row `g` covers in rotation state `r`.
pub open spec fn piece_span(g: int, r: int) -> int {
    if g == 6 {
        2
    } else if g >= 7 {
        if r % 2 == 1 {
            1
        } else {
            4
        }
    } else if r % 2 == 1 {
        2
    } else {
        3
    }
}

/// The column of the rotation box's left edge when a piece of row `g`
/// spawns: the O piece spawns in columns 4 and 5, the others with their box
/// from column 3.
pub open spec fn spawn_box(g: int) -> int {
    if g == 6 {
        4
    } else {
        3
    }
}

/// The box column at which a piece in rotation state `r` touches the left
/// wall, and the one at which it touches the right wall.
pub open spec fn left_wall_box(g: int, r: int) -> int {
    -box_offset(g, r)
}

pub open spec fn right_wall_box(g: int, r: int) -> int {
    10 - piece_span(g, r) - box_offset(g, r)
}

/// The rotation states that key-sequence row `g` places a piece in.
pub open spec fn row_rotation(g: int, r: int) -> bool {
    if g == 1 || g == 8 {
        r == 1 || r == 3
    } else if g == 3 {
        r == 1
    } else if g == 4 {
        r == 2
    } else if g == 5 {
        r == 3
    } else {
        r == 0
    }
}

/// A piece on an empty board: its box column, its rotation state and the
/// DAS that is held (0 none, 1 left, 2 right).
pub type KeyPos = (int, int, int);

/// A turn to rotation state `r`: the box stays where it is, then a held DAS
/// slides the piece on to its wall.
pub open spec fn turned(g: int, p: KeyPos, r: int) -> KeyPos {
    if p.2 == 1 {
        (left_wall_box(g, r), r, 1)
    } else if p.2 == 2 {
        (right_wall_box(g, r), r, 2)
    } else {
        (p.0, r, p.2)
    }
}

/// What one key does to the piece: a tap moves it one column, a DAS slides
/// it to the wall and stays held until its release, a turn rotates it.
pub open spec fn key_effect(g: int, p: KeyPos, a: Action) -> KeyPos {
    match a {
        Action::MoveLeft => (p.0 - 1, p.1, p.2),
        Action::MoveRight => (p.0 + 1, p.1, p.2),
        Action::DasLeft => (left_wall_box(g, p.1), p.1, 1),
        Action::DasRight => (right_wall_box(g, p.1), p.1, 2),
        Action::DasLeftUp => (p.0, p.1, 0),
        Action::DasRightUp => (p.0, p.1, 0),
        Action::RotateCW => turned(g, p, (p.1 + 1) % 4),
        Action::RotateCCW => turned(g, p, (p.1 + 3) % 4),
        Action::Rotate180 => turned(g, p, (p.1 + 2) % 4),
    }
}

/// Where the keys `keys` take the piece from `p`.
pub open spec fn play_keys(g: int, p: KeyPos, keys: Seq<Action>) -> KeyPos
    decreases keys.len(),
{
    if keys.len() == 0 {
        p
    } else {
        play_keys(g, key_effect(g, p, keys[0]), keys.drop_first())
    }
}

/// The keys `keys`, played from the spawn position, leave the piece of row
/// `g` with its leftmost cell in column `x`, in a rotation state of the row,
/// with no DAS held.
pub open spec fn lands_at(g: int, x: int, keys: Seq<Action>) -> bool {
    let p = play_keys(g, (spawn_box(g), 0, 0), keys);
    &&& p.0 + box_offset(g, p.1) == x
    &&& row_rotation(g, p.1)
    &&& p.2 == 0
}

/// Every key sequence takes its piece to the column it is for: played from
/// the spawn position, where a tap moves the piece one column, a DAS slides
/// it to the wall and a turn keeps the rotation box in place, the keys of
/// `finesse_ops(g, x)` leave the piece's leftmost cell in column `x`, in the
/// orientation of row `g` and with every DAS released; so do the keys of
/// the carried-DAS and special forms, where a column has them.
pub proof fn lemma_finesse_lands(g: int, x: int)
    requires
        0 <= g < 9,
        0 <= x < finesse_row_len(g),
    ensures
        lands_at(g, x, finesse_ops(g, x)),
        reuse_ops(g, x) is Some ==> lands_at(g, x, reuse_ops(g, x)->0),
        special_ops(g, x) is Some ==> lands_at(g, x, special_ops(g, x)->0),
{
    reveal_with_fuel(play_keys, 6);
    if g == 0 {
        if x == 0 {
        } else if x == 1 {
        } else if x == 2 {
        } else if x == 3 {
        } else if x == 4 {
        } else if x == 5 {
        } else if x == 6 {
        } else {
        }
    } else if g == 1 {
        if x == 0 {
        } else if x == 1 {
        } else if x == 2 {
        } else if x == 3 {
        } else if x == 4 {
        } else if x == 5 {
        } else if x == 6 {
        } else if x == 7 {
        } else {
        }
    } else if g == 2 {
        if x == 0 {
        } else if x == 1 {
        } else if x == 2 {
        } else if x == 3 {
        } else if x == 4 {
        } else if x == 5 {
        } else if x == 6 {
        } else {
        }
    } else if g == 3 {
        if x == 0 {
        } else if x == 1 {
        } else if x == 2 {
        } else if x == 3 {
        } else if x == 4 {
        } else if x == 5 {
        } else if x == 6 {
        } else if x == 7 {
        } else {
        }
    } else if g == 4 {
        if x == 0 {
        } else if x == 1 {
        } else if x == 2 {
        } else if x == 3 {
        } else if x == 4 {
        } else if x == 5 {
        } else if x == 6 {
        } else {
        }
    } else if g == 5 {
        if x == 0 {
        } else if x == 1 {
        } else if x == 2 {
        } else if x == 3 {
        } else if x == 4 {
        } else if x == 5 {
        } else if x == 6 {
        } else if x == 7 {
        } else {
        }
    } else if g == 6 {
        if x == 0 {
        } else if x == 1 {
        } else if x == 2 {
        } else if x == 3 {
        } else if x == 4 {
        } else if x == 5 {
        } else if x == 6 {
        } else if x == 7 {
        } else {
        }
    } else if g == 7 {
        if x == 0 {
        } else if x == 1 {
        } else if x == 2 {
        } else if x == 3 {
        } else if x == 4 {
        } else if x == 5 {
        } else {
        }
    } else {
        if x == 0 {
        } else if x == 1 {
        } else if x == 2 {
        } else if x == 3 {
        } else if x == 4 {
        } else if x == 5 {
        } else if x == 6 {
        } else if x == 7 {
        } else if x == 8 {
        } else {
        }
    }
}

/// The keys of `finesse_ops(g, x)`.
pub(crate) fn finesse_ops_exec(g: usize, x: usize) -> (r: Vec<Action>)
    ensures
        r@ == finesse_ops(g as int, x as int),
{
    if g == 0 && x == 0 {
        vec![Action::DasLeft, Action::DasLeftUp]
    } else if g == 0 && x == 1 {
        vec![Action::MoveLeft, Action::MoveLeft]
    } else if g == 0 && x == 2 {
        vec![Action::MoveLeft]
    } else if g == 0 && x == 3 {
        Vec::new()
    } else if g == 0 && x == 4 {
        vec![Action::MoveRight]
    } else if g == 0 && x == 5 {
        vec![Action::MoveRight, Action::MoveRight]
    } else if g == 0 && x == 6 {
        vec![Action::DasRight, Action::DasRightUp, Action::MoveLeft]
    } else if g == 0 && x == 7 {
        vec![Action::DasRight, Action::DasRightUp]
    } else if g == 1 && x == 0 {
        vec![Action::DasLeft, Action::RotateCCW, Action::DasLeftUp]
    } else if g == 1 && x == 1 {
        vec![Action::DasLeft, Action::DasLeftUp, Action::RotateCW]
    } else if g == 1 && x == 2 {
        vec![Action::RotateCCW, Action::MoveLeft]
    } else if g == 1 && x == 3 {
        vec![Action::RotateCCW]
    } else if g == 1 && x == 4 {
        vec![Action::RotateCW]
    } else if g == 1 && x == 5 {
        vec![Action::RotateCW, Action::MoveRight]
    } else if g == 1 && x == 6 {
        vec![Action::RotateCW, Action::MoveRight, Action::MoveRight]
    } else if g == 1 && x == 7 {
        vec![Action::DasRight, Action::DasRightUp, Action::RotateCCW]
    } else if g == 1 && x == 8 {
        vec![Action::DasRight, Action::RotateCW, Action::DasRightUp]
    } else if g == 2 && x == 0 {
        vec![Action::DasLeft, Action::DasLeftUp]
    } else if g == 2 && x == 1 {
        vec![Action::MoveLeft, Action::MoveLeft]
    } else if g == 2 && x == 2 {
        vec![Action::MoveLeft]
    } else if g == 2 && x == 3 {
        Vec::new()
    } else if g == 2 && x == 4 {
        vec![Action::MoveRight]
    } else if g == 2 && x == 5 {
        vec![Action::MoveRight, Action::MoveRight]
    } else if g == 2 && x == 6 {
        vec![Action::DasRight, Action::DasRightUp, Action::MoveLeft]
    } else if g == 2 && x == 7 {
        vec![Action::DasRight, Action::DasRightUp]
    } else if g == 3 && x == 0 {
        vec![Action::DasLeft, Action::RotateCW, Action::DasLeftUp]
    } else if g == 3 && x == 1 {
        vec![Action::DasLeft, Action::DasLeftUp, Action::RotateCW]
    } else if g == 3 && x == 2 {
        vec![Action::RotateCW, Action::MoveLeft, Action::MoveLeft]
    } else if g == 3 && x == 3 {
        vec![Action::RotateCW, Action::MoveLeft]
    } else if g == 3 && x == 4 {
        vec![Action::RotateCW]
    } else if g == 3 && x == 5 {
        vec![Action::RotateCW, Action::MoveRight]
    } else if g == 3 && x == 6 {
        vec![Action::RotateCW, Action::MoveRight, Action::MoveRight]
    } else if g == 3 && x == 7 {
        vec![Action::DasRight, Action::RotateCW, Action::DasRightUp, Action::MoveLeft]
    } else if g == 3 && x == 8 {
        vec![Action::DasRight, Action::RotateCW, Action::DasRightUp]
    } else if g == 4 && x == 0 {
        vec![Action::DasLeft, Action::Rotate180, Action::DasLeftUp]
    } else if g == 4 && x == 1 {
        vec![Action::Rotate180, Action::MoveLeft, Action::MoveLeft]
    } else if g == 4 && x == 2 {
        vec![Action::Rotate180, Action::MoveLeft]
    } else if g == 4 && x == 3 {
        vec![Action::Rotate180]
    } else if g == 4 && x == 4 {
        vec![Action::Rotate180, Action::MoveRight]
    } else if g == 4 && x == 5 {
        vec![Action::Rotate180, Action::MoveRight, Action::MoveRight]
    } else if g == 4 && x == 6 {
        vec![Action::DasRight, Action::Rotate180, Action::DasRightUp, Action::MoveLeft]
    } else if g == 4 && x == 7 {
        vec![Action::DasRight, Action::Rotate180, Action::DasRightUp]
    } else if g == 5 && x == 0 {
        vec![Action::DasLeft, Action::RotateCCW, Action::DasLeftUp]
    } else if g == 5 && x == 1 {
        vec![Action::RotateCCW, Action::MoveLeft, Action::MoveLeft]
    } else if g == 5 && x == 2 {
        vec![Action::RotateCCW, Action::MoveLeft]
    } else if g == 5 && x == 3 {
        vec![Action::RotateCCW]
    } else if g == 5 && x == 4 {
        vec![Action::RotateCCW, Action::MoveRight]
    } else if g == 5 && x == 5 {
        vec![Action::RotateCCW, Action::MoveRight, Action::MoveRight]
    } else if g == 5 && x == 6 {
        vec![Action::DasRight, Action::DasRightUp, Action::RotateCCW, Action::MoveLeft]
    } else if g == 5 && x == 7 {
        vec![Action::DasRight, Action::DasRightUp, Action::RotateCCW]
    } else if g == 5 && x == 8 {
        vec![Action::DasRight, Action::RotateCCW, Action::DasRightUp]
    } else if g == 6 && x == 0 {
        vec![Action::DasLeft, Action::DasLeftUp]
    } else if g == 6 && x == 1 {
        vec![Action::DasLeft, Action::DasLeftUp, Action::MoveRight]
    } else if g == 6 && x == 2 {
        vec![Action::MoveLeft, Action::MoveLeft]
    } else if g == 6 && x == 3 {
        vec![Action::MoveLeft]
    } else if g == 6 && x == 4 {
        Vec::new()
    } else if g == 6 && x == 5 {
        vec![Action::MoveRight]
    } else if g == 6 && x == 6 {
        vec![Action::MoveRight, Action::MoveRight]
    } else if g == 6 && x == 7 {
        vec![Action::DasRight, Action::DasRightUp, Action::MoveLeft]
    } else if g == 6 && x == 8 {
        vec![Action::DasRight, Action::DasRightUp]
    } else if g == 7 && x == 0 {
        vec![Action::DasLeft, Action::DasLeftUp]
    } else if g == 7 && x == 1 {
        vec![Action::MoveLeft, Action::MoveLeft]
    } else if g == 7 && x == 2 {
        vec![Action::MoveLeft]
    } else if g == 7 && x == 3 {
        Vec::new()
    } else if g == 7 && x == 4 {
        vec![Action::MoveRight]
    } else if g == 7 && x == 5 {
        vec![Action::MoveRight, Action::MoveRight]
    } else if g == 7 && x == 6 {
        vec![Action::DasRight, Action::DasRightUp]
    } else if g == 8 && x == 0 {
        vec![Action::DasLeft, Action::RotateCCW, Action::DasLeftUp]
    } else if g == 8 && x == 1 {
        vec![Action::DasLeft, Action::DasLeftUp, Action::RotateCCW]
    } else if g == 8 && x == 2 {
        vec![Action::DasLeft, Action::DasLeftUp, Action::RotateCW]
    } else if g == 8 && x == 3 {
        vec![Action::RotateCCW, Action::MoveLeft]
    } else if g == 8 && x == 4 {
        vec![Action::RotateCCW]
    } else if g == 8 && x == 5 {
        vec![Action::RotateCW]
    } else if g == 8 && x == 6 {
        vec![Action::RotateCW, Action::MoveRight]
    } else if g == 8 && x == 7 {
        vec![Action::DasRight, Action::DasRightUp, Action::RotateCCW]
    } else if g == 8 && x == 8 {
        vec![Action::DasRight, Action::DasRightUp, Action::RotateCW]
    } else if g == 8 && x == 9 {
        vec![Action::DasRight, Action::RotateCW, Action::DasRightUp]
    } else {
        Vec::new()
    }
}

/// The keys of `reuse_ops(g, x)`.
fn reuse_ops_exec(g: usize, x: usize) -> (r: Option<Vec<Action>>)
    ensures
        match r {
            Some(v) => reuse_ops(g as int, x as int) == Some(v@),
            None => reuse_ops(g as int, x as int) is None,
        },
{
    if g == 0 && x == 1 {
        Some(vec![Action::DasLeft, Action::DasLeftUp, Action::MoveRight])
    } else if g == 1 && x == 6 {
        Some(vec![Action::DasRight, Action::DasRightUp, Action::RotateCCW, Action::MoveLeft])
    } else if g == 2 && x == 1 {
        Some(vec![Action::DasLeft, Action::DasLeftUp, Action::MoveRight])
    } else if g == 3 && x == 2 {
        Some(vec![Action::DasLeft, Action::DasLeftUp, Action::RotateCW, Action::MoveRight])
    } else if g == 4 && x == 1 {
        Some(vec![Action::DasLeft, Action::DasLeftUp, Action::Rotate180, Action::MoveRight])
    } else if g == 5 && x == 1 {
        Some(vec![Action::DasLeft, Action::DasLeftUp, Action::RotateCCW, Action::MoveRight])
    } else if g == 7 && x == 1 {
        Some(vec![Action::DasLeft, Action::DasLeftUp, Action::MoveRight])
    } else if g == 7 && x == 5 {
        Some(vec![Action::DasRight, Action::DasRightUp, Action::MoveLeft])
    } else {
        None
    }
}

/// The keys of `special_ops(g, x)`.
fn special_ops_exec(g: usize, x: usize) -> (r: Option<Vec<Action>>)
    ensures
        match r {
            Some(v) => special_ops(g as int, x as int) == Some(v@),
            None => special_ops(g as int, x as int) is None,
        },
{
    if g == 0 && x == 5 {
        Some(vec![Action::DasRight, Action::DasRightUp, Action::MoveLeft, Action::MoveLeft])
    } else if g == 1 && x == 2 {
        Some(vec![Action::DasLeft, Action::DasLeftUp, Action::RotateCW, Action::MoveRight])
    } else if g == 2 && x == 5 {
        Some(vec![Action::DasRight, Action::DasRightUp, Action::MoveLeft, Action::MoveLeft])
    } else if g == 3 && x == 6 {
        Some(vec![Action::DasRight, Action::DasRightUp, Action::RotateCW, Action::MoveLeft, Action::MoveLeft])
    } else if g == 4 && x == 5 {
        Some(vec![Action::DasRight, Action::DasRightUp, Action::Rotate180, Action::MoveLeft, Action::MoveLeft])
    } else if g == 5 && x == 5 {
        Some(vec![Action::DasRight, Action::DasRightUp, Action::RotateCCW, Action::MoveLeft, Action::MoveLeft])
    } else if g == 6 && x == 2 {
        Some(vec![Action::DasLeft, Action::DasLeftUp, Action::MoveRight, Action::MoveRight])
    } else if g == 6 && x == 6 {
        Some(vec![Action::DasRight, Action::DasRightUp, Action::MoveLeft, Action::MoveLeft])
    } else if g == 8 && x == 3 {
        Some(vec![Action::DasLeft, Action::DasLeftUp, Action::RotateCW, Action::MoveRight])
    } else if g == 8 && x == 6 {
        Some(vec![Action::DasRight, Action::DasRightUp, Action::RotateCCW, Action::MoveLeft])
    } else {
        None
    }
}

/// The keys of one step of a replay: for the move of path position `idx`,
/// whether it continues the previous DAS (`reused`), holds first, ends while
/// a DAS is still held (`burst`) or turns its last tap into the next move's
/// DAS (`pipeline`), and its actions.
pub struct ActionStep {
    pub idx: usize,
    pub reused: bool,
    pub hold: bool,
    pub burst: bool,
    pub pipeline: bool,
    pub actions: Vec<Action>,
}

/// An `ActionStep` as a value.
pub struct StepView {
    pub idx: usize,
    pub reused: bool,
    pub hold: bool,
    pub burst: bool,
    pub pipeline: bool,
    pub actions: Seq<Action>,
}

impl View for ActionStep {
    type V = StepView;

    open spec fn view(&self) -> StepView {
        StepView {
            idx: self.idx,
            reused: self.reused,
            hold: self.hold,
            burst: self.burst,
            pipeline: self.pipeline,
            actions: self.actions@,
        }
    }
}

/// The DAS towards the wall on the side of column `x`.
pub open spec fn das_of(x: u8) -> Action {
    if x <= 4 {
        Action::DasLeft
    } else {
        Action::DasRight
    }
}

fn das_of_exec(x: u8) -> (a: Action)
    ensures
        a == das_of(x),
{
    if x <= 4 {
        Action::DasLeft
    } else {
        Action::DasRight
    }
}

/// The single tap in the direction of a DAS.
pub open spec fn tap_of(dir: Action) -> Action {
    if dir == Action::DasLeft {
        Action::MoveLeft
    } else {
        Action::MoveRight
    }
}

pub open spec fn is_das_start(a: Action) -> bool {
    a == Action::DasLeft || a == Action::DasRight
}

pub open spec fn is_das_release(a: Action) -> bool {
    a == Action::DasLeftUp || a == Action::DasRightUp
}

pub open spec fn is_tap_move(a: Action) -> bool {
    a == Action::MoveLeft || a == Action::MoveRight
}

/// The first position at or after `k` that releases a DAS.
pub open spec fn first_release(seq: Seq<Action>, k: int) -> int
    decreases seq.len() - k,
{
    if k >= seq.len() {
        seq.len() as int
    } else if is_das_release(seq[k]) {
        k
    } else {
        first_release(seq, k + 1)
    }
}

/// The keys of a move as the replay uses them, given whether the move
/// continues the previous DAS and the DAS the next move continues (if any):
/// `None` where this key sequence does not fit. Where the next move
/// continues a DAS that this sequence starts with, the DAS stays held through
/// the drop (a burst; a final tap after the release moves up to just after
/// it); where the sequence ends with a tap that way, the tap becomes the held
/// DAS (a pipeline).
pub open spec fn try_actions(seq: Seq<Action>, reused: bool, next: Option<Action>) -> Option<
    (Seq<Action>, bool, bool),
> {
    if reused && !is_das_start(seq[0]) {
        None
    } else {
        match next {
            Some(dir) => if seq.len() > 0 && seq[0] == dir {
                let pos = first_release(seq, 0);
                let moved = if pos + 1 < seq.len() && !is_tap_move(seq[pos + 1]) {
                    seq.drop_last().insert(pos + 1, seq.last())
                } else {
                    seq
                };
                Some((moved, true, false))
            } else if seq.len() > 0 && seq.last() == tap_of(dir) {
                Some((seq, false, true))
            } else {
                None
            },
            None => Some((seq, false, false)),
        }
    }
}

/// Whether `try_actions` has what it reads: a first key where the move
/// continues a DAS, and a release to move after in a burst.
pub open spec fn try_actions_ok(seq: Seq<Action>, reused: bool, next: Option<Action>) -> bool {
    &&& reused ==> seq.len() > 0
    &&& (!reused || is_das_start(seq[0])) ==> (next matches Some(dir) && seq.len() > 0 && seq[0] == dir ==> {
        let pos = first_release(seq, 0);
        &&& pos < seq.len()
        &&& (pos + 1 < seq.len() && !is_tap_move(seq[pos + 1]) ==> is_tap_move(seq.last()))
    })
}

/// The keys of a step: the plain sequence if it fits, else the one for a
/// continued DAS, else the special one.
pub open spec fn step_actions(m: ReplayMove, next: Option<Action>) -> Option<(Seq<Action>, bool, bool)> {
    let g = m.finesse_idx as int;
    let x = m.x as int;
    let a = try_actions(finesse_ops(g, x), m.reused, next);
    if a is Some {
        a
    } else {
        let b = match reuse_ops(g, x) {
            Some(sq) => try_actions(sq, m.reused, next),
            None => None,
        };
        if b is Some {
            b
        } else {
            match special_ops(g, x) {
                Some(sq) => try_actions(sq, m.reused, next),
                None => None,
            }
        }
    }
}

/// Whether `step_actions` has what it reads, and finds keys.
pub open spec fn step_ok(m: ReplayMove, next: Option<Action>) -> bool {
    let g = m.finesse_idx as int;
    let x = m.x as int;
    &&& g < 9
    &&& x < finesse_row_len(g)
    &&& try_actions_ok(finesse_ops(g, x), m.reused, next)
    &&& (try_actions(finesse_ops(g, x), m.reused, next) is None ==> (reuse_ops(g, x) matches Some(sq)
        ==> try_actions_ok(sq, m.reused, next)))
    &&& (try_actions(finesse_ops(g, x), m.reused, next) is None && (reuse_ops(g, x) matches Some(sq) ==> try_actions(
        sq,
        m.reused,
        next,
    ) is None) ==> (special_ops(g, x) matches Some(sq) ==> try_actions_ok(sq, m.reused, next)))
    &&& step_actions(m, next) is Some
}


fn is_das_start_exec(a: Action) -> (b: bool)
    ensures
        b == is_das_start(a),
{
    match a {
        Action::DasLeft | Action::DasRight => true,
        _ => false,
    }
}

pub(crate) fn is_das_release_exec(a: Action) -> (b: bool)
    ensures
        b == is_das_release(a),
{
    match a {
        Action::DasLeftUp | Action::DasRightUp => true,
        _ => false,
    }
}

fn is_tap_move_exec(a: Action) -> (b: bool)
    ensures
        b == is_tap_move(a),
{
    match a {
        Action::MoveLeft | Action::MoveRight => true,
        _ => false,
    }
}

proof fn lemma_first_release_ge(seq: Seq<Action>, k: int)
    requires
        0 <= k <= seq.len(),
    ensures
        k <= first_release(seq, k) <= seq.len(),
        first_release(seq, k) < seq.len() ==> is_das_release(seq[first_release(seq, k)]),
    decreases seq.len() - k,
{
    if k < seq.len() && !is_das_release(seq[k]) {
        lemma_first_release_ge(seq, k + 1);
    }
}

/// `try_actions` on a key sequence.
fn try_actions_exec(seq: Vec<Action>, reused: bool, next: Option<Action>) -> (r: Option<(Vec<Action>, bool, bool)>)
    requires
        try_actions_ok(seq@, reused, next),
    ensures
        match r {
            Some((v, b, p)) => try_actions(seq@, reused, next) == Some((v@, b, p)),
            None => try_actions(seq@, reused, next) is None,
        },
{
    if reused && !is_das_start_exec(seq[0]) {
        return None;
    }
    match next {
        Some(dir) => {
            if seq.len() > 0 && seq[0] == dir {
                proof {
                    lemma_first_release_ge(seq@, 0);
                }
                assert(first_release(seq@, 0) < seq@.len());
                let mut seq = seq;
                let ghost orig = seq@;
                let mut pos: usize = 0;
                while !is_das_release_exec(seq[pos])
                    invariant
                        seq@ == orig,
                        orig.len() == seq.len(),
                        0 <= pos <= first_release(orig, 0) < orig.len(),
                        first_release(orig, pos as int) == first_release(orig, 0),
                    decreases first_release(orig, 0) - pos,
                {
                    proof {
                        lemma_first_release_ge(orig, pos + 1);
                        lemma_first_release_ge(orig, 0);
                        if pos as int == first_release(orig, 0) {
                            assert(false);
                        }
                    }
                    pos += 1;
                }
                proof {
                    assert(pos as int == first_release(orig, 0));
                }
                let keep = pos + 1 >= seq.len() || is_tap_move_exec(seq[pos + 1]);
                if !keep {
                    let last_move = seq.pop().unwrap();
                    seq.insert(pos + 1, last_move);
                    proof {
                        assert(seq@ =~= orig.drop_last().insert(pos + 1, orig.last()));
                    }
                }
                return Some((seq, true, false));
            }
            let target = if dir == Action::DasLeft {
                Action::MoveLeft
            } else {
                Action::MoveRight
            };
            if seq.len() > 0 && seq[seq.len() - 1] == target {
                return Some((seq, false, true));
            }
            None
        },
        None => Some((seq, false, false)),
    }
}

/// The cells of row `g` of the finesse table (see `finesse_row_len`).
fn finesse_row_len_exec(g: usize) -> (n: usize)
    requires
        g < 9,
    ensures
        n == finesse_row_len(g as int),
{
    if g == 0 || g == 2 || g == 4 {
        8
    } else if g == 7 {
        7
    } else if g == 8 {
        10
    } else {
        9
    }
}

/// The first release of `seq` (see `first_release`).
fn first_release_exec(seq: &Vec<Action>) -> (p: usize)
    ensures
        p == first_release(seq@, 0),
{
    let mut pos: usize = 0;
    while pos < seq.len() && !is_das_release_exec(seq[pos])
        invariant
            pos <= seq@.len(),
            first_release(seq@, pos as int) == first_release(seq@, 0),
        decreases seq@.len() - pos,
    {
        pos += 1;
    }
    pos
}

/// Whether `try_actions` has what it reads (see `try_actions_ok`).
fn try_actions_ok_exec(seq: &Vec<Action>, reused: bool, next: Option<Action>) -> (b: bool)
    ensures
        b == try_actions_ok(seq@, reused, next),
{
    if reused && seq.len() == 0 {
        return false;
    }
    if !reused || is_das_start_exec(seq[0]) {
        match next {
            Some(dir) => {
                if seq.len() > 0 && seq[0] == dir {
                    let pos = first_release_exec(seq);
                    if pos >= seq.len() {
                        false
                    } else if pos + 1 < seq.len() && !is_tap_move_exec(seq[pos + 1]) {
                        is_tap_move_exec(seq[seq.len() - 1])
                    } else {
                        true
                    }
                } else {
                    true
                }
            },
            None => true,
        }
    } else {
        true
    }
}

/// Whether a move's keys can be written with `next` after it (see
/// `step_ok`).
pub(crate) fn step_ok_exec(m: ReplayMove, next: Option<Action>) -> (b: bool)
    ensures
        b == step_ok(m, next),
{
    let g = m.finesse_idx;
    let x = m.x as usize;
    if g >= 9 || x >= finesse_row_len_exec(g) {
        return false;
    }
    let plain = finesse_ops_exec(g, x);
    if !try_actions_ok_exec(&plain, m.reused, next) {
        return false;
    }
    if try_actions_exec(plain, m.reused, next).is_some() {
        return true;
    }
    let reuse = reuse_ops_exec(g, x);
    let mut found = false;
    match reuse {
        Some(sq) => {
            if !try_actions_ok_exec(&sq, m.reused, next) {
                return false;
            }
            found = try_actions_exec(sq, m.reused, next).is_some();
        },
        None => {},
    }
    if found {
        return true;
    }
    match special_ops_exec(g, x) {
        Some(sq) => {
            if !try_actions_ok_exec(&sq, m.reused, next) {
                return false;
            }
            try_actions_exec(sq, m.reused, next).is_some()
        },
        None => false,
    }
}

/// The keys of a step (see `step_actions`).
fn step_actions_exec(m: ReplayMove, next: Option<Action>) -> (r: (Vec<Action>, bool, bool))
    requires
        step_ok(m, next),
    ensures
        step_actions(m, next) == Some((r.0@, r.1, r.2)),
{
    let g = m.finesse_idx;
    let x = m.x as usize;
    if let Some(r) = try_actions_exec(finesse_ops_exec(g, x), m.reused, next) {
        return r;
    }
    if let Some(sq) = reuse_ops_exec(g, x) {
        if let Some(r) = try_actions_exec(sq, m.reused, next) {
            return r;
        }
    }
    if let Some(sq) = special_ops_exec(g, x) {
        if let Some(r) = try_actions_exec(sq, m.reused, next) {
            return r;
        }
    }
    proof {
        assert(false);
    }
    (Vec::new(), false, false)
}

/// How each step of a path was made, one record per pair of consecutive
/// nodes.
pub open spec fn raw_moves(path: Seq<PathNode>, pieces: Seq<PieceType>) -> Seq<ReplayMove> {
    Seq::new((path.len() - 1) as nat, |i: int| path_step(path[i], pieces[i], path[i + 1])->0)
}

/// Whether the first `n` records end with a lone hold, which the next move
/// takes on.
pub open spec fn hold_pending(raw: Seq<ReplayMove>, n: int) -> bool {
    n > 0 && raw[n - 1].hold_only
}

/// The first `n` records with each lone hold merged into the move after it,
/// each with its position in the path.
pub open spec fn merged_moves(raw: Seq<ReplayMove>, n: int) -> Seq<(usize, ReplayMove)>
    decreases n,
{
    if n <= 0 {
        Seq::empty()
    } else if raw[n - 1].hold_only {
        merged_moves(raw, n - 1)
    } else {
        let m = raw[n - 1];
        merged_moves(raw, n - 1).push(
            (
                (n - 1) as usize,
                ReplayMove {
                    hold: m.hold || hold_pending(raw, n - 1),
                    finesse_idx: m.finesse_idx,
                    x: m.x,
                    reused: m.reused,
                    hold_only: m.hold_only,
                    special: m.special,
                },
            ),
        )
    }
}

/// Whether move `i` starts from a DAS held over from the move before: it was
/// made so, or its special form applies and the next move continues a DAS
/// towards the other wall.
pub open spec fn carried(ms: Seq<(usize, ReplayMove)>, i: int) -> bool
    decreases ms.len() - i,
{
    if i < 0 || i >= ms.len() {
        false
    } else if i + 1 >= ms.len() {
        ms[i].1.reused
    } else {
        ms[i].1.reused || (ms[i].1.special && carried(ms, i + 1) && das_of(ms[i + 1].1.x) != das_of(
            ms[i].1.x,
        ))
    }
}

/// The DAS that the move after move `i` continues, if any.
pub open spec fn next_das(ms: Seq<(usize, ReplayMove)>, i: int) -> Option<Action> {
    if i + 1 < ms.len() && carried(ms, i + 1) {
        Some(das_of(ms[i + 1].1.x))
    } else {
        None
    }
}

/// Move `i` with its final `reused` flag.
pub open spec fn final_move(ms: Seq<(usize, ReplayMove)>, i: int) -> ReplayMove {
    let m = ms[i].1;
    ReplayMove {
        hold: m.hold,
        finesse_idx: m.finesse_idx,
        x: m.x,
        reused: carried(ms, i),
        hold_only: m.hold_only,
        special: m.special,
    }
}

/// Step `i` of the replay of the merged moves `ms`.
pub open spec fn compiled_step(ms: Seq<(usize, ReplayMove)>, i: int) -> StepView {
    let m = final_move(ms, i);
    let keys = step_actions(m, next_das(ms, i))->0;
    StepView { idx: ms[i].0, reused: m.reused, hold: m.hold, burst: keys.1, pipeline: keys.2, actions: keys.0 }
}

/// The merged moves of a path.
pub open spec fn path_moves(path: Seq<PathNode>, pieces: Seq<PieceType>) -> Seq<(usize, ReplayMove)> {
    merged_moves(raw_moves(path, pieces), path.len() - 1)
}

/// Whether every step of a path is a move as the search makes it (see
/// `move_effect`).
pub open spec fn moves_effective(path: Seq<PathNode>, pieces: Seq<PieceType>) -> bool {
    forall|i: int|
        0 <= i < path.len() - 1 ==> move_effect(
            path[i].spec_keys_pressed(),
            path[i].spec_meta(),
            path[i + 1].spec_keys_pressed(),
            path[i + 1].spec_meta(),
            #[trigger] raw_moves(path, pieces)[i],
        )
}

/// Whether `compile_action` has what it reads: a piece for every step, every
/// step rebuilt, at least one move that is not a lone hold, and keys for
/// every move.
pub open spec fn compile_ok(path: Seq<PathNode>, pieces: Seq<PieceType>) -> bool {
    let ms = path_moves(path, pieces);
    &&& path.len() >= 1
    &&& pieces.len() + 1 >= path.len()
    &&& forall|i: int| 0 <= i < path.len() - 1 ==> (#[trigger] path_step(path[i], pieces[i], path[i + 1])) is Some
    &&& ms.len() >= 1
    &&& forall|i: int| 0 <= i < ms.len() ==> step_ok(#[trigger] final_move(ms, i), next_das(ms, i))
}

pub(crate) proof fn lemma_merged_len(raw: Seq<ReplayMove>, n: int)
    requires
        0 <= n,
    ensures
        merged_moves(raw, n).len() <= n,
        forall|j: int| 0 <= j < merged_moves(raw, n).len() ==> #[trigger] merged_moves(raw, n)[j].0 < n,
    decreases n,
{
    if n > 0 {
        lemma_merged_len(raw, n - 1);
    }
}

/// The key steps of a whole path: each lone hold merged into the next move, a
/// DAS carried over between moves wherever the next move continues it, and
/// each move's keys as `step_actions` picks them.
/// Whether `path` has the length that `pieces` allow and each node follows
/// the one before it (see `path_step`).
pub open spec fn steps_ok(path: Seq<PathNode>, pieces: Seq<PieceType>) -> bool {
    &&& path.len() >= 1
    &&& pieces.len() + 1 >= path.len()
    &&& forall|i: int| 0 <= i < path.len() - 1 ==> (#[trigger] path_step(path[i], pieces[i], path[i + 1])) is Some
}

/// The merged moves of a path, each with its final `reused` flag, and the
/// DAS each one hands on to the next.
pub(crate) fn final_moves(path: &[PathNode], piece_sequence: &[PieceType]) -> (r: (Vec<(usize, ReplayMove)>, Vec<Option<Action>>))
    requires
        steps_ok(path@, piece_sequence@),
    ensures
        r.0@.len() == path_moves(path@, piece_sequence@).len(),
        r.1@.len() == r.0@.len(),
        forall|t: int|
            0 <= t < r.0@.len() ==> (#[trigger] r.0@[t]).0 == path_moves(path@, piece_sequence@)[t].0 && r.0@[t].1
                == final_move(path_moves(path@, piece_sequence@), t),
        forall|t: int| 0 <= t < r.1@.len() ==> #[trigger] r.1@[t] == next_das(path_moves(path@, piece_sequence@), t),
        moves_effective(path@, piece_sequence@),
{
    let ghost raw_spec = raw_moves(path@, piece_sequence@);
    let n = path.len() - 1;
    let mut raw: Vec<ReplayMove> = Vec::new();
    let mut i: usize = 0;
    while i < n
        invariant
            n == path@.len() - 1,
            steps_ok(path@, piece_sequence@),
            raw_spec == raw_moves(path@, piece_sequence@),
            0 <= i <= n,
            raw@ == raw_spec.take(i as int),
            forall|j: int|
                0 <= j < i ==> move_effect(
                    path@[j].spec_keys_pressed(),
                    path@[j].spec_meta(),
                    path@[j + 1].spec_keys_pressed(),
                    path@[j + 1].spec_meta(),
                    #[trigger] raw_spec[j],
                ),
        decreases n - i,
    {
        assert(path_step(path@[i as int], piece_sequence@[i as int], path@[i + 1]) is Some);
        let m = rebuild_actions_general(&path[i], piece_sequence[i], &path[i + 1]);
        raw.push(m);
        proof {
            assert(raw@ =~= raw_spec.take(i + 1));
        }
        i += 1;
    }
    assert(raw@ =~= raw_spec);
    assert(moves_effective(path@, piece_sequence@));
    let mut moves: Vec<(usize, ReplayMove)> = Vec::new();
    let mut pending = false;
    let mut i: usize = 0;
    while i < n
        invariant
            n == raw@.len(),
            raw@ == raw_spec,
            0 <= i <= n,
            moves@ == merged_moves(raw_spec, i as int),
            pending == hold_pending(raw_spec, i as int),
        decreases n - i,
    {
        let mov = raw[i];
        if mov.hold_only {
            pending = true;
        } else {
            moves.push(
                (
                    i,
                    ReplayMove {
                        hold: mov.hold || pending,
                        finesse_idx: mov.finesse_idx,
                        x: mov.x,
                        reused: mov.reused,
                        hold_only: mov.hold_only,
                        special: mov.special,
                    },
                ),
            );
            pending = false;
        }
        i += 1;
    }
    let ghost ms = moves@;
    assert(ms == path_moves(path@, piece_sequence@));
    let m = moves.len();
    if m == 0 {
        return (moves, Vec::new());
    }
    let mut next_dir: Vec<Option<Action>> = Vec::new();
    let mut j: usize = 0;
    while j < m
        invariant
            0 <= j <= m,
            next_dir@.len() == j,
            forall|t: int| 0 <= t < j ==> next_dir@[t] is None,
        decreases m - j,
    {
        next_dir.push(None);
        j += 1;
    }
    let mut k: usize = m - 1;
    while k > 0
        invariant
            m == ms.len(),
            m >= 1,
            0 <= k < m,
            moves@.len() == m,
            next_dir@.len() == m,
            forall|t: int| 0 <= t < k ==> moves@[t] == ms[t],
            forall|t: int|
                k <= t < m ==> (#[trigger] moves@[t]).0 == ms[t].0 && moves@[t].1 == final_move(ms, t),
            forall|t: int| k <= t < m ==> #[trigger] next_dir@[t] == next_das(ms, t),
        decreases k,
    {
        let cur = moves[k];
        let dir = das_of_exec(cur.1.x);
        let nd = if cur.1.reused {
            Some(dir)
        } else {
            None
        };
        next_dir.set(k - 1, nd);
        let mut prev = moves[k - 1];
        let prev_dir = das_of_exec(prev.1.x);
        let differs = match (dir, prev_dir) {
            (Action::DasLeft, Action::DasLeft) => false,
            (Action::DasRight, Action::DasRight) => false,
            _ => true,
        };
        prev.1.reused = prev.1.reused || (prev.1.special && cur.1.reused && differs);
        moves.set(k - 1, prev);
        proof {
            assert(moves@[k as int].1 == final_move(ms, k as int));
            assert(das_of(ms[k as int].1.x) == dir);
            assert(differs == (das_of(ms[k as int].1.x) != das_of(ms[k - 1].1.x)));
            assert(moves@[k - 1].1 == final_move(ms, k - 1));
        }
        k -= 1;
    }
    (moves, next_dir)
}

pub fn compile_action(path: &[PathNode], piece_sequence: &[PieceType]) -> (steps: Vec<ActionStep>)
    requires
        compile_ok(path@, piece_sequence@),
    ensures
        steps.len() == path_moves(path@, piece_sequence@).len(),
        forall|i: int| 0 <= i < steps.len() ==> #[trigger] steps[i]@ == compiled_step(path_moves(path@, piece_sequence@), i),
        moves_effective(path@, piece_sequence@),
{
    let (moves, next_dir) = final_moves(path, piece_sequence);
    let ghost ms = path_moves(path@, piece_sequence@);
    let m = moves.len();
    let mut steps: Vec<ActionStep> = Vec::new();
    let mut i: usize = 0;
    while i < m
        invariant
            m == ms.len(),
            ms == path_moves(path@, piece_sequence@),
            compile_ok(path@, piece_sequence@),
            0 <= i <= m,
            moves@.len() == m,
            next_dir@.len() == m,
            forall|t: int|
                0 <= t < m ==> (#[trigger] moves@[t]).0 == ms[t].0 && moves@[t].1 == final_move(ms, t),
            forall|t: int| 0 <= t < m ==> #[trigger] next_dir@[t] == next_das(ms, t),
            steps.len() == i,
            forall|t: int| 0 <= t < i ==> #[trigger] steps[t]@ == compiled_step(ms, t),
        decreases m - i,
    {
        let (idx, mov) = moves[i];
        assert(step_ok(final_move(ms, i as int), next_das(ms, i as int)));
        let (actions, burst, pipeline) = step_actions_exec(mov, next_dir[i]);
        steps.push(ActionStep { idx, reused: mov.reused, hold: mov.hold, burst, pipeline, actions });
        i += 1;
    }
    steps
}

/// Whether `c` is white space, as `char::is_whitespace` has it (Unicode's
/// White_Space property).
pub open spec fn is_white(c: char) -> bool {
    let v = c as u32;
    ||| 9 <= v <= 13
    ||| v == 32
    ||| v == 0x85
    ||| v == 0xA0
    ||| v == 0x1680
    ||| 0x2000 <= v <= 0x200A
    ||| v == 0x2028
    ||| v == 0x2029
    ||| v == 0x202F
    ||| v == 0x205F
    ||| v == 0x3000
}

fn is_white_exec(c: char) -> (b: bool)
    ensures
        b == is_white(c),
{
    let v = c as u32;
    (9 <= v && v <= 13) || v == 32 || v == 0x85 || v == 0xA0 || v == 0x1680 || (0x2000 <= v && v <= 0x200A)
        || v == 0x2028 || v == 0x2029 || v == 0x202F || v == 0x205F || v == 0x3000
}

/// `t` without its leading white space.
pub open spec fn trim_start(t: Seq<char>) -> Seq<char>
    decreases t.len(),
{
    if t.len() > 0 && is_white(t[0]) {
        trim_start(t.drop_first())
    } else {
        t
    }
}

/// `t` without its trailing white space.
pub open spec fn trim_end(t: Seq<char>) -> Seq<char>
    decreases t.len(),
{
    if t.len() > 0 && is_white(t.last()) {
        trim_end(t.drop_last())
    } else {
        t
    }
}

/// The pieces of `s` between commas, as `str::split(',')` gives them: one
/// more than there are commas, empty ones included.
pub open spec fn comma_pieces(s: Seq<char>) -> Seq<Seq<char>>
    decreases s.len(),
{
    if s.len() == 0 {
        seq![Seq::<char>::empty()]
    } else {
        let prev = comma_pieces(s.drop_last());
        if s.last() == ',' {
            prev.push(Seq::empty())
        } else {
            prev.update(prev.len() - 1, prev.last().push(s.last()))
        }
    }
}

/// The action a trimmed piece names: `L`, `R`, `CW`, `CCW`, `180`, `DL`,
/// `DR`, `DLU` or `DRU`.
pub open spec fn action_named(t: Seq<char>) -> Option<Action> {
    if t == seq!['L'] {
        Some(Action::MoveLeft)
    } else if t == seq!['R'] {
        Some(Action::MoveRight)
    } else if t == seq!['C', 'W'] {
        Some(Action::RotateCW)
    } else if t == seq!['C', 'C', 'W'] {
        Some(Action::RotateCCW)
    } else if t == seq!['1', '8', '0'] {
        Some(Action::Rotate180)
    } else if t == seq!['D', 'L'] {
        Some(Action::DasLeft)
    } else if t == seq!['D', 'R'] {
        Some(Action::DasRight)
    } else if t == seq!['D', 'L', 'U'] {
        Some(Action::DasLeftUp)
    } else if t == seq!['D', 'R', 'U'] {
        Some(Action::DasRightUp)
    } else {
        None
    }
}

/// Whether every comma-separated piece of a non-empty `s`, trimmed, names an
/// action.
pub open spec fn notation_ok(s: Seq<char>) -> bool {
    s.len() == 0 || forall|i: int|
        0 <= i < comma_pieces(s).len() ==> (action_named(trim_end(trim_start(#[trigger] comma_pieces(s)[i]))) is Some)
}

/// The actions a key notation names: none for the empty string, else one
/// per comma-separated piece.
pub open spec fn notation_actions(s: Seq<char>) -> Seq<Action> {
    if s.len() == 0 {
        Seq::empty()
    } else {
        Seq::new(comma_pieces(s).len(), |i: int| action_named(trim_end(trim_start(comma_pieces(s)[i])))->0)
    }
}

proof fn lemma_comma_pieces_len(s: Seq<char>)
    ensures
        comma_pieces(s).len() >= 1,
    decreases s.len(),
{
    if s.len() > 0 {
        lemma_comma_pieces_len(s.drop_last());
    }
}

proof fn lemma_pieces_step(t: Seq<char>, c: char)
    ensures
        comma_pieces(t.push(c)).len() >= comma_pieces(t).len(),
        forall|j: int|
            0 <= j < comma_pieces(t).len() - 1 ==> #[trigger] comma_pieces(t.push(c))[j] == comma_pieces(t)[j],
        c == ',' ==> comma_pieces(t.push(c)) == comma_pieces(t).push(Seq::empty()),
        c != ',' ==> comma_pieces(t.push(c)) == comma_pieces(t).update(
            comma_pieces(t).len() - 1,
            comma_pieces(t).last().push(c),
        ),
{
    lemma_comma_pieces_len(t);
    assert(t.push(c).drop_last() =~= t);
}

proof fn lemma_pieces_stable(s: Seq<char>, k: int, m: int)
    requires
        0 <= k <= m <= s.len(),
    ensures
        comma_pieces(s.take(k)).len() <= comma_pieces(s.take(m)).len(),
        forall|j: int|
            0 <= j < comma_pieces(s.take(k)).len() - 1 ==> #[trigger] comma_pieces(s.take(k))[j] == comma_pieces(
                s.take(m),
            )[j],
        k < m && s[k] == ',' ==> comma_pieces(s.take(k)).last() == comma_pieces(s.take(m))[comma_pieces(
            s.take(k),
        ).len() - 1],
    decreases m - k,
{
    lemma_comma_pieces_len(s.take(k));
    if k < m {
        assert(s.take(k + 1) =~= s.take(k).push(s[k]));
        lemma_pieces_step(s.take(k), s[k]);
        lemma_pieces_stable(s, k + 1, m);
        lemma_comma_pieces_len(s.take(k + 1));
        let p0 = comma_pieces(s.take(k));
        let p1 = comma_pieces(s.take(k + 1));
        let pm = comma_pieces(s.take(m));
        assert forall|j: int| 0 <= j < p0.len() - 1 implies #[trigger] p0[j] == pm[j] by {
            assert(p1[j] == p0[j]);
            assert(p1[j] == pm[j]);
        }
        if s[k] == ',' {
            assert(p1 == p0.push(Seq::empty()));
            assert(p1[p0.len() - 1] == p0.last());
            assert(p1[p0.len() - 1] == pm[p0.len() - 1]);
        }
    }
}

/// The action a piece names once trimmed (see `action_named`).
fn piece_action(t: &Vec<char>) -> (a: Action)
    requires
        action_named(trim_end(trim_start(t@))) is Some,
    ensures
        a == action_named(trim_end(trim_start(t@)))->0,
{
    let n = t.len();
    let mut st: usize = 0;
    assert(t@.skip(0) =~= t@);
    while st < n && is_white_exec(t[st])
        invariant
            n == t@.len(),
            st <= n,
            trim_start(t@) == trim_start(t@.skip(st as int)),
        decreases n - st,
    {
        proof {
            assert(t@.skip(st as int).drop_first() =~= t@.skip(st + 1));
        }
        st += 1;
    }
    let ghost u = t@.skip(st as int);
    assert(trim_start(t@) == u);
    let mut en: usize = n;
    while en > st && is_white_exec(t[en - 1])
        invariant
            n == t@.len(),
            st <= en <= n,
            u == t@.skip(st as int),
            trim_end(u) == trim_end(t@.subrange(st as int, en as int)),
        decreases en,
    {
        proof {
            assert(t@.subrange(st as int, en as int).drop_last() =~= t@.subrange(st as int, en - 1));
        }
        en -= 1;
    }
    assert(u =~= t@.subrange(st as int, n as int));
    let ghost w = t@.subrange(st as int, en as int);
    assert(trim_end(w) == w);
    let k = en - st;
    if k == 1 && t[st] == 'L' {
        assert(w =~= seq!['L']);
        Action::MoveLeft
    } else if k == 1 && t[st] == 'R' {
        assert(w =~= seq!['R']);
        Action::MoveRight
    } else if k == 2 && t[st] == 'C' && t[st + 1] == 'W' {
        assert(w =~= seq!['C', 'W']);
        Action::RotateCW
    } else if k == 3 && t[st] == 'C' && t[st + 1] == 'C' && t[st + 2] == 'W' {
        assert(w =~= seq!['C', 'C', 'W']);
        Action::RotateCCW
    } else if k == 3 && t[st] == '1' && t[st + 1] == '8' && t[st + 2] == '0' {
        assert(w =~= seq!['1', '8', '0']);
        Action::Rotate180
    } else if k == 2 && t[st] == 'D' && t[st + 1] == 'L' {
        assert(w =~= seq!['D', 'L']);
        Action::DasLeft
    } else if k == 2 && t[st] == 'D' && t[st + 1] == 'R' {
        assert(w =~= seq!['D', 'R']);
        Action::DasRight
    } else if k == 3 && t[st] == 'D' && t[st + 1] == 'L' && t[st + 2] == 'U' {
        assert(w =~= seq!['D', 'L', 'U']);
        Action::DasLeftUp
    } else {
        proof {
            if w == seq!['L'] || w == seq!['R'] {
                assert(w[0] == t@[st as int]);
            }
            if w == seq!['C', 'W'] || w == seq!['D', 'L'] || w == seq!['D', 'R'] {
                assert(w[0] == t@[st as int] && w[1] == t@[st + 1]);
            }
            if w == seq!['C', 'C', 'W'] || w == seq!['1', '8', '0'] || w == seq!['D', 'L', 'U'] {
                assert(w[0] == t@[st as int] && w[1] == t@[st + 1] && w[2] == t@[st + 2]);
            }
        }
        Action::DasRightUp
    }
}

/// The actions of a key notation such as `DL,CW,DLU` (see
/// `notation_actions`).
pub fn parse_actions(s: &str) -> (r: Vec<Action>)
    requires
        notation_ok(s@),
    ensures
        r@ == notation_actions(s@),
{
    if s.is_empty() {
        return Vec::new();
    }
    proof {
        lemma_comma_pieces_len(s@);
    }
    let mut result: Vec<Action> = Vec::new();
    let mut piece: Vec<char> = Vec::new();
    let ghost all = comma_pieces(s@);
    proof {
        assert(s@.take(0) =~= Seq::<char>::empty());
    }
    for c in it: s.chars()
        invariant
            all == comma_pieces(s@),
            notation_ok(s@),
            s@.len() > 0,
            it.seq() == s@,
            result@.len() == comma_pieces(s@.take(it.index() as int)).len() - 1,
            forall|i: int|
                0 <= i < result@.len() ==> #[trigger] result@[i] == action_named(trim_end(trim_start(all[i])))->0,
            piece@ == comma_pieces(s@.take(it.index() as int)).last(),
    {
        let ghost k = it.index() as int;
        proof {
            lemma_comma_pieces_len(s@.take(k));
            assert(s@.take(k + 1) =~= s@.take(k).push(c));
            lemma_pieces_step(s@.take(k), c);
            lemma_pieces_stable(s@, k, s@.len() as int);
            assert(s@.take(s@.len() as int) =~= s@);
        }
        if c == ',' {
            proof {
                let j = comma_pieces(s@.take(k)).len() - 1;
                assert(all[j] == piece@);
                assert(action_named(trim_end(trim_start(all[j]))) is Some);
            }
            result.push(piece_action(&piece));
            piece = Vec::new();
        } else {
            piece.push(c);
        }
        proof {
            assert(piece@ =~= comma_pieces(s@.take(k + 1)).last());
        }
    }
    proof {
        assert(s@.take(s@.len() as int) =~= s@);
        lemma_comma_pieces_len(s@);
        assert(action_named(trim_end(trim_start(all[all.len() - 1]))) is Some);
    }
    result.push(piece_action(&piece));
    assert(result@ =~= notation_actions(s@));
    result
}

/// The actions of each notation (see `parse_actions`).
pub fn parse_actions_batch(strs: &[&str]) -> (r: Vec<Vec<Action>>)
    requires
        forall|i: int| 0 <= i < strs@.len() ==> notation_ok(#[trigger] strs@[i]@),
    ensures
        r@.len() == strs@.len(),
        forall|i: int| 0 <= i < strs@.len() ==> #[trigger] r@[i]@ == notation_actions(strs@[i]@),
{
    let mut r: Vec<Vec<Action>> = Vec::new();
    let mut i: usize = 0;
    while i < strs.len()
        invariant
            i <= strs@.len(),
            forall|k: int| 0 <= k < strs@.len() ==> notation_ok(#[trigger] strs@[k]@),
            r@.len() == i,
            forall|k: int| 0 <= k < i ==> #[trigger] r@[k]@ == notation_actions(strs@[k]@),
        decreases strs@.len() - i,
    {
        let a = parse_actions(strs[i]);
        r.push(a);
        i += 1;
    }
    r
}

/// The key presses of a key sequence from position `k` on: every action but
/// a DAS release.
pub open spec fn presses_from(q: Seq<Action>, k: int) -> int
    decreases q.len() - k,
{
    if k < 0 || k >= q.len() {
        0
    } else {
        (if is_das_release(q[k]) {
            0int
        } else {
            1
        }) + presses_from(q, k + 1)
    }
}

/// The key presses of a key sequence.
pub open spec fn presses(q: Seq<Action>) -> int {
    presses_from(q, 0)
}

/// The DAS releases of a key sequence from position `k` on.
pub open spec fn releases_from(q: Seq<Action>, k: int) -> int
    decreases q.len() - k,
{
    if k < 0 || k >= q.len() {
        0
    } else {
        (if is_das_release(q[k]) {
            1int
        } else {
            0
        }) + releases_from(q, k + 1)
    }
}

/// Whether no action of a key sequence from position `k` on presses a DAS.
pub open spec fn no_das_from(q: Seq<Action>, k: int) -> bool
    decreases q.len() - k,
{
    k < 0 || k >= q.len() || (!is_das_start(q[k]) && no_das_from(q, k + 1))
}

/// Whether a key sequence has the shape the replay writers rely on: a DAS
/// pressed first if at all, and at most one release, only after a DAS.
pub open spec fn row_shape_ok(q: Seq<Action>) -> bool {
    &&& no_das_from(q, 1)
    &&& releases_from(q, 0) <= 1
    &&& (releases_from(q, 0) == 1 ==> q.len() > 0 && is_das_start(q[0]))
}

/// The row of the key-sequence table for orientation `s`.
pub open spec fn shape_row(s: int) -> int {
    if s < 2 {
        s
    } else if s < 4 {
        s - 2
    } else if s < 8 {
        s - 2
    } else if s < 12 {
        s - 6
    } else if s < 16 {
        s - 10
    } else {
        s - 10
    }
}

/// Whether a key sequence that starts with a DAS starts with the one towards
/// the wall on the side of column `x`.
pub open spec fn das_side_ok(q: Seq<Action>, x: int) -> bool {
    q.len() > 0 && is_das_start(q[0]) ==> (q[0] == Action::DasLeft) == (x <= 4)
}

/// What the tables of orientation `s` say of column `x` agrees with its key
/// sequences (see `lemma_key_rows`).
pub open spec fn key_row_ok(s: int, x: int) -> bool {
    let g = shape_row(s);
    let q = finesse_ops(g, x);
    &&& finesse_keys(s)[x] == presses(q)
    &&& (finesse_reuse(s)[x] == 1) == ((q.len() > 0 && is_das_start(q[0])) || reuse_ops(g, x) is Some)
    &&& finesse_reuse(s)[x] <= 1
    &&& das_side_ok(q, x)
    &&& (reuse_ops(g, x) matches Some(r) ==> presses(r) == finesse_keys(s)[x] && r.len() > 0 && is_das_start(r[0])
        && das_side_ok(r, x))
    &&& (special_ops(g, x) matches Some(r) ==> presses(r) == finesse_keys(s)[x] + 1 && r.len() > 0
        && is_das_start(r[0]) && das_side_ok(r, x))
    &&& (!(g == 5 && (x == 5 || x == 6)) ==> ((finesse_special(s)[x] == 1) == special_ops(g, x) is Some))
    &&& row_shape_ok(q)
    &&& (reuse_ops(g, x) is Some ==> q.len() > 0)
    &&& (x == 0 ==> q.len() >= 2 && q[0] == Action::DasLeft && q.last() == Action::DasLeftUp)
    &&& (x == 10 - shape_width(s) ==> q.len() >= 2 && q[0] == Action::DasRight && q.last() == Action::DasRightUp)
}

/// The tables that charge keys for a move agree with the keys the replay
/// plays for it: at every column where orientation `s` can drop, the keys
/// charged are the presses of its key sequence; the carry-over bit is set
/// exactly where that sequence starts with a DAS or a sequence for a carried
/// DAS exists, which presses as many keys; a sequence for the special form
/// presses one key more; every DAS that starts a sequence goes towards the
/// wall on the side of the column; the special bit is set exactly where a
/// special sequence exists, except for the third rotation of J, L and T at
/// columns 5 and 6, where the two tables disagree; a sequence presses a DAS
/// only first and releases one at most once, after it; and a drop at a wall
/// starts with the DAS towards it and ends with its release.
#[verifier::spinoff_prover]
#[verifier::rlimit(100)]
pub proof fn lemma_key_rows(s: int, x: int)
    requires
        0 <= s < 19,
        0 <= x <= 10 - shape_width(s),
    ensures
        key_row_ok(s, x),
{
    lemma_shape_decode(s);
    reveal_with_fuel(presses_from, 6);
    reveal_with_fuel(releases_from, 6);
    reveal_with_fuel(no_das_from, 6);
    if s == 0 {
        if x == 0 {
            assert(key_row_ok(0, 0));
        } else if x == 1 {
            assert(key_row_ok(0, 1));
        } else if x == 2 {
            assert(key_row_ok(0, 2));
        } else if x == 3 {
            assert(key_row_ok(0, 3));
        } else if x == 4 {
            assert(key_row_ok(0, 4));
        } else if x == 5 {
            assert(key_row_ok(0, 5));
        } else if x == 6 {
            assert(key_row_ok(0, 6));
        } else if x == 7 {
            assert(key_row_ok(0, 7));
        }
    } else if s == 1 {
        if x == 0 {
            assert(key_row_ok(1, 0));
        } else if x == 1 {
            assert(key_row_ok(1, 1));
        } else if x == 2 {
            assert(key_row_ok(1, 2));
        } else if x == 3 {
            assert(key_row_ok(1, 3));
        } else if x == 4 {
            assert(key_row_ok(1, 4));
        } else if x == 5 {
            assert(key_row_ok(1, 5));
        } else if x == 6 {
            assert(key_row_ok(1, 6));
        } else if x == 7 {
            assert(key_row_ok(1, 7));
        } else if x == 8 {
            assert(key_row_ok(1, 8));
        }
    } else if s == 2 {
        if x == 0 {
            assert(key_row_ok(2, 0));
        } else if x == 1 {
            assert(key_row_ok(2, 1));
        } else if x == 2 {
            assert(key_row_ok(2, 2));
        } else if x == 3 {
            assert(key_row_ok(2, 3));
        } else if x == 4 {
            assert(key_row_ok(2, 4));
        } else if x == 5 {
            assert(key_row_ok(2, 5));
        } else if x == 6 {
            assert(key_row_ok(2, 6));
        } else if x == 7 {
            assert(key_row_ok(2, 7));
        }
    } else if s == 3 {
        if x == 0 {
            assert(key_row_ok(3, 0));
        } else if x == 1 {
            assert(key_row_ok(3, 1));
        } else if x == 2 {
            assert(key_row_ok(3, 2));
        } else if x == 3 {
            assert(key_row_ok(3, 3));
        } else if x == 4 {
            assert(key_row_ok(3, 4));
        } else if x == 5 {
            assert(key_row_ok(3, 5));
        } else if x == 6 {
            assert(key_row_ok(3, 6));
        } else if x == 7 {
            assert(key_row_ok(3, 7));
        } else if x == 8 {
            assert(key_row_ok(3, 8));
        }
    } else if s == 4 {
        if x == 0 {
            assert(key_row_ok(4, 0));
        } else if x == 1 {
            assert(key_row_ok(4, 1));
        } else if x == 2 {
            assert(key_row_ok(4, 2));
        } else if x == 3 {
            assert(key_row_ok(4, 3));
        } else if x == 4 {
            assert(key_row_ok(4, 4));
        } else if x == 5 {
            assert(key_row_ok(4, 5));
        } else if x == 6 {
            assert(key_row_ok(4, 6));
        } else if x == 7 {
            assert(key_row_ok(4, 7));
        }
    } else if s == 5 {
        if x == 0 {
            assert(key_row_ok(5, 0));
        } else if x == 1 {
            assert(key_row_ok(5, 1));
        } else if x == 2 {
            assert(key_row_ok(5, 2));
        } else if x == 3 {
            assert(key_row_ok(5, 3));
        } else if x == 4 {
            assert(key_row_ok(5, 4));
        } else if x == 5 {
            assert(key_row_ok(5, 5));
        } else if x == 6 {
            assert(key_row_ok(5, 6));
        } else if x == 7 {
            assert(key_row_ok(5, 7));
        } else if x == 8 {
            assert(key_row_ok(5, 8));
        }
    } else if s == 6 {
        if x == 0 {
            assert(key_row_ok(6, 0));
        } else if x == 1 {
            assert(key_row_ok(6, 1));
        } else if x == 2 {
            assert(key_row_ok(6, 2));
        } else if x == 3 {
            assert(key_row_ok(6, 3));
        } else if x == 4 {
            assert(key_row_ok(6, 4));
        } else if x == 5 {
            assert(key_row_ok(6, 5));
        } else if x == 6 {
            assert(key_row_ok(6, 6));
        } else if x == 7 {
            assert(key_row_ok(6, 7));
        }
    } else if s == 7 {
        if x == 0 {
            assert(key_row_ok(7, 0));
        } else if x == 1 {
            assert(key_row_ok(7, 1));
        } else if x == 2 {
            assert(key_row_ok(7, 2));
        } else if x == 3 {
            assert(key_row_ok(7, 3));
        } else if x == 4 {
            assert(key_row_ok(7, 4));
        } else if x == 5 {
            assert(key_row_ok(7, 5));
        } else if x == 6 {
            assert(key_row_ok(7, 6));
        } else if x == 7 {
            assert(key_row_ok(7, 7));
        } else if x == 8 {
            assert(key_row_ok(7, 8));
        }
    } else if s == 8 {
        if x == 0 {
            assert(key_row_ok(8, 0));
        } else if x == 1 {
            assert(key_row_ok(8, 1));
        } else if x == 2 {
            assert(key_row_ok(8, 2));
        } else if x == 3 {
            assert(key_row_ok(8, 3));
        } else if x == 4 {
            assert(key_row_ok(8, 4));
        } else if x == 5 {
            assert(key_row_ok(8, 5));
        } else if x == 6 {
            assert(key_row_ok(8, 6));
        } else if x == 7 {
            assert(key_row_ok(8, 7));
        }
    } else if s == 9 {
        if x == 0 {
            assert(key_row_ok(9, 0));
        } else if x == 1 {
            assert(key_row_ok(9, 1));
        } else if x == 2 {
            assert(key_row_ok(9, 2));
        } else if x == 3 {
            assert(key_row_ok(9, 3));
        } else if x == 4 {
            assert(key_row_ok(9, 4));
        } else if x == 5 {
            assert(key_row_ok(9, 5));
        } else if x == 6 {
            assert(key_row_ok(9, 6));
        } else if x == 7 {
            assert(key_row_ok(9, 7));
        } else if x == 8 {
            assert(key_row_ok(9, 8));
        }
    } else if s == 10 {
        if x == 0 {
            assert(key_row_ok(10, 0));
        } else if x == 1 {
            assert(key_row_ok(10, 1));
        } else if x == 2 {
            assert(key_row_ok(10, 2));
        } else if x == 3 {
            assert(key_row_ok(10, 3));
        } else if x == 4 {
            assert(key_row_ok(10, 4));
        } else if x == 5 {
            assert(key_row_ok(10, 5));
        } else if x == 6 {
            assert(key_row_ok(10, 6));
        } else if x == 7 {
            assert(key_row_ok(10, 7));
        }
    } else if s == 11 {
        if x == 0 {
            assert(key_row_ok(11, 0));
        } else if x == 1 {
            assert(key_row_ok(11, 1));
        } else if x == 2 {
            assert(key_row_ok(11, 2));
        } else if x == 3 {
            assert(key_row_ok(11, 3));
        } else if x == 4 {
            assert(key_row_ok(11, 4));
        } else if x == 5 {
            assert(key_row_ok(11, 5));
        } else if x == 6 {
            assert(key_row_ok(11, 6));
        } else if x == 7 {
            assert(key_row_ok(11, 7));
        } else if x == 8 {
            assert(key_row_ok(11, 8));
        }
    } else if s == 12 {
        if x == 0 {
            assert(key_row_ok(12, 0));
        } else if x == 1 {
            assert(key_row_ok(12, 1));
        } else if x == 2 {
            assert(key_row_ok(12, 2));
        } else if x == 3 {
            assert(key_row_ok(12, 3));
        } else if x == 4 {
            assert(key_row_ok(12, 4));
        } else if x == 5 {
            assert(key_row_ok(12, 5));
        } else if x == 6 {
            assert(key_row_ok(12, 6));
        } else if x == 7 {
            assert(key_row_ok(12, 7));
        }
    } else if s == 13 {
        if x == 0 {
            assert(key_row_ok(13, 0));
        } else if x == 1 {
            assert(key_row_ok(13, 1));
        } else if x == 2 {
            assert(key_row_ok(13, 2));
        } else if x == 3 {
            assert(key_row_ok(13, 3));
        } else if x == 4 {
            assert(key_row_ok(13, 4));
        } else if x == 5 {
            assert(key_row_ok(13, 5));
        } else if x == 6 {
            assert(key_row_ok(13, 6));
        } else if x == 7 {
            assert(key_row_ok(13, 7));
        } else if x == 8 {
            assert(key_row_ok(13, 8));
        }
    } else if s == 14 {
        if x == 0 {
            assert(key_row_ok(14, 0));
        } else if x == 1 {
            assert(key_row_ok(14, 1));
        } else if x == 2 {
            assert(key_row_ok(14, 2));
        } else if x == 3 {
            assert(key_row_ok(14, 3));
        } else if x == 4 {
            assert(key_row_ok(14, 4));
        } else if x == 5 {
            assert(key_row_ok(14, 5));
        } else if x == 6 {
            assert(key_row_ok(14, 6));
        } else if x == 7 {
            assert(key_row_ok(14, 7));
        }
    } else if s == 15 {
        if x == 0 {
            assert(key_row_ok(15, 0));
        } else if x == 1 {
            assert(key_row_ok(15, 1));
        } else if x == 2 {
            assert(key_row_ok(15, 2));
        } else if x == 3 {
            assert(key_row_ok(15, 3));
        } else if x == 4 {
            assert(key_row_ok(15, 4));
        } else if x == 5 {
            assert(key_row_ok(15, 5));
        } else if x == 6 {
            assert(key_row_ok(15, 6));
        } else if x == 7 {
            assert(key_row_ok(15, 7));
        } else if x == 8 {
            assert(key_row_ok(15, 8));
        }
    } else if s == 16 {
        if x == 0 {
            assert(key_row_ok(16, 0));
        } else if x == 1 {
            assert(key_row_ok(16, 1));
        } else if x == 2 {
            assert(key_row_ok(16, 2));
        } else if x == 3 {
            assert(key_row_ok(16, 3));
        } else if x == 4 {
            assert(key_row_ok(16, 4));
        } else if x == 5 {
            assert(key_row_ok(16, 5));
        } else if x == 6 {
            assert(key_row_ok(16, 6));
        } else if x == 7 {
            assert(key_row_ok(16, 7));
        } else if x == 8 {
            assert(key_row_ok(16, 8));
        }
    } else if s == 17 {
        if x == 0 {
            assert(key_row_ok(17, 0));
        } else if x == 1 {
            assert(key_row_ok(17, 1));
        } else if x == 2 {
            assert(key_row_ok(17, 2));
        } else if x == 3 {
            assert(key_row_ok(17, 3));
        } else if x == 4 {
            assert(key_row_ok(17, 4));
        } else if x == 5 {
            assert(key_row_ok(17, 5));
        } else if x == 6 {
            assert(key_row_ok(17, 6));
        }
    } else if s == 18 {
        if x == 0 {
            assert(key_row_ok(18, 0));
        } else if x == 1 {
            assert(key_row_ok(18, 1));
        } else if x == 2 {
            assert(key_row_ok(18, 2));
        } else if x == 3 {
            assert(key_row_ok(18, 3));
        } else if x == 4 {
            assert(key_row_ok(18, 4));
        } else if x == 5 {
            assert(key_row_ok(18, 5));
        } else if x == 6 {
            assert(key_row_ok(18, 6));
        } else if x == 7 {
            assert(key_row_ok(18, 7));
        } else if x == 8 {
            assert(key_row_ok(18, 8));
        } else if x == 9 {
            assert(key_row_ok(18, 9));
        }
    }
}

} // verus!
