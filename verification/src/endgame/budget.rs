//! What a move can add to the endgame board: each drop brings four cells and
//! takes ten out for each line it clears, so the cells and ten cells for each
//! cleared line grow by four per piece.
use vstd::prelude::*;
use crate::PieceType;
use crate::bitboard::{Board, BitBoard, SearchNode, LINES_CLEARED_MASK, popcount, lemma_popcount_bound};
use crate::bitboard::lanes::fits60;
use crate::bitboard::shapes::{shape_width, lemma_shape_decode};
use crate::bitboard::count::lemma_drop_cells;
use crate::bitboard::cells::{full_rows_word, lemma_meta_masks, lemma_meta_step, lemma_full_rows_word};
use crate::config::TARGET_LINES;
use crate::movegen::{
    placement, orientation_moves, orientations_moves, piece_moves, all_moves, hold_node, reachable, spec_shape_range,
};
use crate::endgame::{endgame_chain, path_end, solves, spec_pieces_needed, final_keys};
use vstd::arithmetic::power2::lemma2_to64;

verus! {

/// The cells of the board of `node` and ten for each line it has cleared.
pub open spec fn cell_budget(node: SearchNode<BitBoard>) -> int {
    10 * (node.meta & LINES_CLEARED_MASK) + popcount(node.state@)
}

/// Whether every move of `ms` adds at most four to the budget of `node`.
spec fn within_four(node: SearchNode<BitBoard>, ms: Seq<(SearchNode<BitBoard>, crate::movegen::ReplayMove)>) -> bool {
    forall|k: int|
        0 <= k < ms.len() ==> cell_budget(#[trigger] ms[k].0) <= cell_budget(node) + 4 && ms[k].0.keys_pressed
            >= node.keys_pressed + 1
}

/// What `placement` needs of a node here.
spec fn budget_node(node: SearchNode<BitBoard>) -> bool {
    &&& fits60(node.state@)
    &&& TARGET_LINES - 4 <= node.meta & LINES_CLEARED_MASK <= TARGET_LINES
    &&& node.meta < 0x4000
    &&& node.keys_pressed + 4 <= u16::MAX
}

/// A placement adds four: the piece's cells, less ten for each line, plus
/// ten for each line on the count.
proof fn lemma_placement_budget(node: SearchNode<BitBoard>, i: int, x: int, idx: usize, hold: bool, fidx: int)
    requires
        budget_node(node),
        0 <= i < 19,
        0 <= x,
        x + shape_width(i) <= 10,
        placement(node, i, x, idx, hold, fidx) is Some,
    ensures
        cell_budget((placement(node, i, x, idx, hold, fidx)->0).0) == cell_budget(node) + 4,
        (placement(node, i, x, idx, hold, fidx)->0).0.keys_pressed >= node.keys_pressed + 1,
{
    crate::bitboard::shapes::lemma_finesse_decode(i, x);
    crate::bitboard::lanes::lemma_and_le(
        crate::bitboard::shapes::finesse_reuse(i)[x],
        crate::movegen::das_support(node.meta, x),
        0,
        0,
    );
    let meta_nodas = node.meta & !0x600u16;
    lemma_meta_masks(node.meta, 0);
    let lines = (meta_nodas & LINES_CLEARED_MASK) as int;
    lemma_drop_cells(node.state, x, i, lines);
    let w = crate::bitboard::place_word(node.state@, x, i, lines)->0;
    lemma_shape_decode(i);
    crate::bitboard::count::lemma_place_fits(node.state@, x, i, lines);
    lemma_full_rows_word(w);
    lemma2_to64();
    lemma_popcount_bound(full_rows_word(w), 6);
    let n = popcount(full_rows_word(w));
    lemma_meta_step(
        node.meta,
        n as u16,
        if x == 0 {
            1u16
        } else {
            0u16
        },
        if x == 10 - shape_width(i) {
            1u16
        } else {
            0u16
        },
    );
}

/// The placements of one orientation each add four.
proof fn lemma_orientation_budget(node: SearchNode<BitBoard>, i: int, hi: int, idx: usize, hold: bool, fidx: int)
    requires
        budget_node(node),
        0 <= i < 19,
        hi <= 11 - shape_width(i),
    ensures
        within_four(node, orientation_moves(node, i, hi, idx, hold, fidx)),
    decreases hi,
{
    if hi > 0 {
        lemma_shape_decode(i);
        lemma_orientation_budget(node, i, hi - 1, idx, hold, fidx);
        let before = orientation_moves(node, i, hi - 1, idx, hold, fidx);
        match placement(node, i, hi - 1, idx, hold, fidx) {
            Some(m) => {
                lemma_placement_budget(node, i, hi - 1, idx, hold, fidx);
                let after = before.push(m);
                assert(orientation_moves(node, i, hi, idx, hold, fidx) == after);
                assert forall|k: int| 0 <= k < after.len() implies cell_budget(#[trigger] after[k].0) <= cell_budget(
                    node,
                ) + 4 && after[k].0.keys_pressed >= node.keys_pressed + 1 by {
                    if k < before.len() {
                        assert(after[k] == before[k]);
                    }
                }
            },
            None => {},
        }
    }
}

/// The placements of a run of orientations each add four.
proof fn lemma_orientations_budget(node: SearchNode<BitBoard>, p: int, lo: int, hi: int, idx: usize, hold: bool)
    requires
        budget_node(node),
        1 <= p <= 7,
        lo == spec_shape_range(p - 1),
        lo <= hi <= spec_shape_range(p),
    ensures
        within_four(node, orientations_moves(node, p, lo, hi, idx, hold)),
    decreases hi - lo,
{
    if hi > lo {
        lemma_orientations_budget(node, p, lo, hi - 1, idx, hold);
        let i = hi - 1;
        let fidx = i - spec_shape_range(p - 1) + crate::movegen::spec_finesse_range(p);
        assert(0 <= i < 19) by {
            assert(spec_shape_range(p) <= 19 && spec_shape_range(p - 1) >= 0);
        }
        lemma_orientation_budget(node, i, 11 - shape_width(i), idx, hold, fidx);
        let prev = orientations_moves(node, p, lo, hi - 1, idx, hold);
        let added = orientation_moves(node, i, 11 - shape_width(i), idx, hold, fidx);
        assert(orientations_moves(node, p, lo, hi, idx, hold) == prev + added);
        let all = prev + added;
        assert forall|k: int| 0 <= k < all.len() implies cell_budget(#[trigger] all[k].0) <= cell_budget(node) + 4
            && all[k].0.keys_pressed >= node.keys_pressed + 1 by {
            if k < prev.len() {
                assert(all[k] == prev[k]);
            } else {
                assert(all[k] == added[k - prev.len()]);
            }
        }
    }
}

/// The moves of a piece add at most four: a lone hold adds none.
proof fn lemma_piece_budget(node: SearchNode<BitBoard>, p: int, idx: usize, hold: bool)
    requires
        budget_node(node),
        0 <= p <= 7,
    ensures
        p > 0 ==> within_four(node, piece_moves(node, p, idx, hold)),
        p == 0 ==> piece_moves(node, p, idx, hold).len() == 1 && piece_moves(node, p, idx, hold)[0].0 == node,
{
    if p > 0 {
        lemma_orientations_budget(node, p, spec_shape_range(p - 1), spec_shape_range(p), idx, hold);
    }
}

/// A move from `node` adds at most four to its budget: four where it drops a
/// piece, none where it only holds.
pub proof fn lemma_move_budget(node: SearchNode<BitBoard>, piece: PieceType, next: SearchNode<BitBoard>)
    requires
        reachable(node, piece, next),
    ensures
        cell_budget(next) <= cell_budget(node) + 4,
        next.keys_pressed >= node.keys_pressed + 1,
{
    let idx = next.parent_idx;
    let ms = all_moves(node, piece, idx);
    let j = choose|k: int| 0 <= k < ms.len() && ms[k].0 == next;
    let first = piece_moves(node, piece.spec_index() as int, idx, false);
    let hn = hold_node(node, piece, idx);
    let second = piece_moves(hn, (node.meta >> 11u16) as int, idx, true);
    lemma_meta_masks(node.meta, piece.spec_index() as u16);
    assert(piece.spec_index() <= 7);
    assert(budget_node(node));
    lemma_piece_budget(node, piece.spec_index() as int, idx, false);
    assert(cell_budget(hn) == cell_budget(node));
    lemma_piece_budget(hn, (node.meta >> 11u16) as int, idx, true);
    assert(ms == first + second);
    assert(piece.spec_index() > 0);
    if j < first.len() {
        assert(ms[j] == first[j]);
    } else {
        assert(ms[j] == second[j - first.len()]);
        assert(hn.keys_pressed == node.keys_pressed + 1);
    }
}

/// Along a run of moves from `root`, the budget grows by at most four a move.
pub proof fn lemma_chain_budget(
    root: SearchNode<BitBoard>,
    pieces: Seq<PieceType>,
    start: int,
    path: Seq<SearchNode<BitBoard>>,
)
    requires
        endgame_chain(root, pieces, start, path),
    ensures
        cell_budget(path_end(root, path)) <= cell_budget(root) + 4 * path.len(),
{
    lemma_prefix_budget(root, pieces, start, path, path.len() as int);
    assert(path.take(path.len() as int) =~= path);
}

/// The first `m` moves of a run add at most four each.
proof fn lemma_prefix_budget(
    root: SearchNode<BitBoard>,
    pieces: Seq<PieceType>,
    start: int,
    path: Seq<SearchNode<BitBoard>>,
    m: int,
)
    requires
        endgame_chain(root, pieces, start, path),
        0 <= m <= path.len(),
    ensures
        cell_budget(path_end(root, path.take(m))) <= cell_budget(root) + 4 * m,
    decreases m,
{
    if m > 0 {
        lemma_prefix_budget(root, pieces, start, path, m - 1);
        assert(path[m - 1].parent_idx == m - 1);
        assert(reachable(path_end(root, path.take(m - 1)), pieces[start + m - 1], path[m - 1]));
        lemma_move_budget(path_end(root, path.take(m - 1)), pieces[start + m - 1], path[m - 1]);
        assert(path.take(m).last() == path[m - 1]);
    } else {
        assert(path.take(0).len() == 0);
    }
}

/// The endgame's count of the pieces still needed never exceeds the moves of
/// a run from `root` that reaches the target lines, so cutting a node whose
/// count exceeds the pieces left never cuts a solution.
pub proof fn lemma_pieces_needed_bound(
    root: SearchNode<BitBoard>,
    pieces: Seq<PieceType>,
    start: int,
    path: Seq<SearchNode<BitBoard>>,
)
    requires
        endgame_chain(root, pieces, start, path),
        solves(root, path),
    ensures
        spec_pieces_needed(root) <= path.len(),
{
    lemma_chain_budget(root, pieces, start, path);
}

} // verus!
verus! {

/// Between the first `m1` and the first `m2` moves of a run, the budget
/// grows by at most four a move and the keys by at least one.
pub(crate) proof fn lemma_steps_between(
    root: SearchNode<BitBoard>,
    pieces: Seq<PieceType>,
    start: int,
    path: Seq<SearchNode<BitBoard>>,
    m1: int,
    m2: int,
)
    requires
        endgame_chain(root, pieces, start, path),
        0 <= m1 <= m2 <= path.len(),
    ensures
        cell_budget(path_end(root, path.take(m2))) <= cell_budget(path_end(root, path.take(m1))) + 4 * (m2 - m1),
        path_end(root, path.take(m2)).keys_pressed >= path_end(root, path.take(m1)).keys_pressed + (m2 - m1),
    decreases m2 - m1,
{
    if m2 > m1 {
        lemma_steps_between(root, pieces, start, path, m1, m2 - 1);
        assert(path[m2 - 1].parent_idx == m2 - 1);
        assert(reachable(path_end(root, path.take(m2 - 1)), pieces[start + m2 - 1], path[m2 - 1]));
        lemma_move_budget(path_end(root, path.take(m2 - 1)), pieces[start + m2 - 1], path[m2 - 1]);
        assert(path.take(m2).last() == path[m2 - 1]);
    }
}

/// From the node after the first `m` moves of a solution, the moves left are
/// at least the pieces the endgame counts as needed there, and the final
/// keys are at least that node's keys and one more for each move left.
pub(crate) proof fn lemma_moves_left(
    root: SearchNode<BitBoard>,
    pieces: Seq<PieceType>,
    start: int,
    path: Seq<SearchNode<BitBoard>>,
    m: int,
)
    requires
        endgame_chain(root, pieces, start, path),
        solves(root, path),
        0 <= m <= path.len(),
    ensures
        spec_pieces_needed(path_end(root, path.take(m))) <= path.len() - m,
        final_keys(root, path) >= path_end(root, path.take(m)).keys_pressed + (path.len() - m),
{
    lemma_steps_between(root, pieces, start, path, m, path.len() as int);
    assert(path.take(path.len() as int) =~= path);
    let node = path_end(root, path.take(m));
    let k = path.len() - m;
    let cells = (TARGET_LINES - (node.meta & LINES_CLEARED_MASK)) * 10;
    let occ = popcount(node.state@);
    if cells > occ {
        assert((cells - occ) / 4 <= k) by (nonlinear_arith)
            requires
                cells - occ <= 4 * k,
                cells - occ > 0,
        ;
    }
}

} // verus!
