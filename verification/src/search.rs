//! The path that the search returns, and its integer bookkeeping.
use vstd::prelude::*;
use crate::PieceType;
use crate::bitboard::{SearchNode, ShapeBoard, BitBoard, LINES_CLEARED_MASK};
use crate::movegen::{rebuild_actions_general, Action};
use crate::config::{BEAM_WIDTH, DIVERSITY_BUCKET_SIZE, ENDGAME_START, TARGET_LINES};

verus! {

/// A node of a solution path: a beam-search node, or an endgame node once
/// the endgame search has taken over.
#[derive(Clone, Copy, Debug)]
pub enum PathNode {
    Normal(SearchNode<ShapeBoard>),
    Pc(SearchNode<BitBoard>),
}

impl PathNode {
    /// The node's packed state.
    pub open spec fn spec_meta(&self) -> u16 {
        match self {
            PathNode::Normal(node) => node.meta,
            PathNode::Pc(node) => node.meta,
        }
    }

    /// The keys pressed to reach the node.
    pub open spec fn spec_keys_pressed(&self) -> u16 {
        match self {
            PathNode::Normal(node) => node.keys_pressed,
            PathNode::Pc(node) => node.keys_pressed,
        }
    }

    /// The node's packed state.
    #[verifier::when_used_as_spec(spec_meta)]
    pub fn meta(&self) -> (m: u16)
        ensures
            m == self.spec_meta(),
    {
        match self {
            PathNode::Normal(node) => node.meta,
            PathNode::Pc(node) => node.meta,
        }
    }

    /// The keys pressed to reach the node.
    #[verifier::when_used_as_spec(spec_keys_pressed)]
    pub fn keys_pressed(&self) -> (k: u16)
        ensures
            k == self.spec_keys_pressed(),
    {
        match self {
            PathNode::Normal(node) => node.keys_pressed,
            PathNode::Pc(node) => node.keys_pressed,
        }
    }
}

use crate::movegen::{path_step, finesse_ops, ReplayMove, is_das_release};

/// A solution the endgame found from a beam node: its keys, the beam node
/// and its depth, and the endgame's moves from there.
pub struct Path {
    pub keys_pressed: u16,
    pub depth: usize,
    pub node: SearchNode<ShapeBoard>,
    pub pc_sequence: Vec<SearchNode<BitBoard>>,
}

/// The beam search over the pieces of a sprint.
pub struct BeamSearch;

/// The nodes from the root of the beam layers to `node` at depth `d`, each
/// the parent (by index in the layer before) of the next.
pub open spec fn backtrace(layers: Seq<Vec<SearchNode<ShapeBoard>>>, d: int, node: SearchNode<ShapeBoard>) -> Seq<
    SearchNode<ShapeBoard>,
>
    decreases d,
{
    if d <= 0 {
        seq![node]
    } else {
        backtrace(layers, d - 1, layers[d - 1]@[node.parent_idx as int]).push(node)
    }
}

/// Whether every parent on the way back from `node` at depth `d` lies in its
/// layer.
pub open spec fn backtrace_ok(layers: Seq<Vec<SearchNode<ShapeBoard>>>, d: int, node: SearchNode<ShapeBoard>) -> bool
    decreases d,
{
    d <= 0 || (d - 1 < layers.len() && node.parent_idx < layers[d - 1]@.len() && backtrace_ok(
        layers,
        d - 1,
        layers[d - 1]@[node.parent_idx as int],
    ))
}

proof fn lemma_backtrace(layers: Seq<Vec<SearchNode<ShapeBoard>>>, d: int, node: SearchNode<ShapeBoard>)
    requires
        d >= 0,
    ensures
        backtrace(layers, d, node).len() == d + 1,
        backtrace(layers, d, node)[d] == node,
        forall|j: int|
            1 <= j <= d ==> #[trigger] backtrace(layers, d, node)[j - 1] == layers[j - 1]@[backtrace(
                layers,
                d,
                node,
            )[j].parent_idx as int],
    decreases d,
{
    if d > 0 {
        let parent = layers[d - 1]@[node.parent_idx as int];
        lemma_backtrace(layers, d - 1, parent);
        let b = backtrace(layers, d, node);
        let prev = backtrace(layers, d - 1, parent);
        assert forall|j: int| 1 <= j <= d implies #[trigger] b[j - 1] == layers[j - 1]@[b[j].parent_idx as int] by {
            if j < d {
                assert(b[j - 1] == prev[j - 1]);
                assert(b[j] == prev[j]);
            }
        }
    }
}

proof fn lemma_backtrace_ok(layers: Seq<Vec<SearchNode<ShapeBoard>>>, d: int, node: SearchNode<ShapeBoard>, j: int)
    requires
        backtrace_ok(layers, d, node),
        1 <= j <= d,
    ensures
        j - 1 < layers.len(),
        backtrace(layers, d, node)[j].parent_idx < layers[j - 1]@.len(),
    decreases d,
{
    lemma_backtrace(layers, d, node);
    if j < d {
        let parent = layers[d - 1]@[node.parent_idx as int];
        lemma_backtrace_ok(layers, d - 1, parent, j);
        lemma_backtrace(layers, d - 1, parent);
        assert(backtrace(layers, d, node)[j] == backtrace(layers, d - 1, parent)[j]);
    }
}

/// Whether move `m` presses a DAS of its own: it continues none, is no lone
/// hold, and its keys release a DAS.
pub open spec fn own_das(m: ReplayMove) -> bool {
    &&& !m.reused
    &&& !m.hold_only
    &&& exists|i: int|
        0 <= i < finesse_ops(m.finesse_idx as int, m.x as int).len() && is_das_release(
            #[trigger] finesse_ops(m.finesse_idx as int, m.x as int)[i],
        )
}

/// The moves among the first `n` steps of a path that press a DAS of their
/// own.
pub open spec fn das_count(path: Seq<PathNode>, pieces: Seq<PieceType>, n: int) -> int
    decreases n,
{
    if n <= 0 {
        0
    } else {
        das_count(path, pieces, n - 1) + if own_das(path_step(path[n - 1], pieces[n - 1], path[n])->0) {
            1int
        } else {
            0
        }
    }
}

/// The steps among the first `n` of a path that clear lines.
pub open spec fn clear_count(path: Seq<PathNode>, n: int) -> int
    decreases n,
{
    if n <= 0 {
        0
    } else {
        clear_count(path, n - 1) + if path[n].spec_meta() & LINES_CLEARED_MASK > path[n - 1].spec_meta()
            & LINES_CLEARED_MASK {
            1int
        } else {
            0
        }
    }
}

/// Whether every step of a path can be rebuilt, with a piece for each, and
/// the path is short enough to count in 16 bits.
pub open spec fn steps_ok(path: Seq<PathNode>, pieces: Seq<PieceType>) -> bool {
    &&& 1 <= path.len() <= 65536
    &&& pieces.len() + 1 >= path.len()
    &&& forall|i: int| 0 <= i < path.len() - 1 ==> (#[trigger] path_step(path[i], pieces[i], path[i + 1])) is Some
}

/// The whole path of an endgame solution: the beam nodes to its start, then
/// the endgame's moves.
pub open spec fn full_path(layers: Seq<Vec<SearchNode<ShapeBoard>>>, b: Path) -> Seq<PathNode> {
    backtrace(layers, b.depth as int, b.node).map_values(|n: SearchNode<ShapeBoard>| PathNode::Normal(n))
        + b.pc_sequence@.map_values(|n: SearchNode<BitBoard>| PathNode::Pc(n))
}

/// The keys of a path's last node; the most a `u16` holds for no path.
pub open spec fn path_keys(a: Seq<PathNode>) -> u16 {
    if a.len() == 0 {
        u16::MAX
    } else {
        a.last().spec_keys_pressed()
    }
}

/// Which of the best path `a` and the solution `b` (whole path `bp`, keys
/// `kb`) is kept: `bp` where it has fewer keys, or as many with fewer moves
/// that press a DAS of their own, or as many of those and more steps that
/// clear lines; `None` to keep `a`.
pub open spec fn better_path(a: Seq<PathNode>, bp: Seq<PathNode>, kb: u16, pieces: Seq<PieceType>) -> Option<
    Seq<PathNode>,
> {
    let ka = path_keys(a);
    if ka < kb {
        None
    } else if a.len() == 0 || ka > kb {
        Some(bp)
    } else {
        let da = das_count(a, pieces, a.len() - 1);
        let db = das_count(bp, pieces, bp.len() - 1);
        if da != db {
            if da > db {
                Some(bp)
            } else {
                None
            }
        } else {
            let ca = clear_count(a, a.len() - 1);
            let cb = clear_count(bp, bp.len() - 1);
            if ca != cb && ca < cb {
                Some(bp)
            } else {
                None
            }
        }
    }
}

/// Whether a move's keys release a DAS.
fn releases(m: &ReplayMove) -> (b: bool)
    ensures
        b == exists|i: int|
            0 <= i < finesse_ops(m.finesse_idx as int, m.x as int).len() && is_das_release(
                #[trigger] finesse_ops(m.finesse_idx as int, m.x as int)[i],
            ),
{
    let ops = crate::movegen::finesse_ops_exec(m.finesse_idx, m.x as usize);
    let mut i: usize = 0;
    while i < ops.len()
        invariant
            i <= ops@.len(),
            ops@ == finesse_ops(m.finesse_idx as int, m.x as int),
            forall|k: int| 0 <= k < i ==> !is_das_release(#[trigger] ops@[k]),
        decreases ops@.len() - i,
    {
        match ops[i] {
            Action::DasLeftUp | Action::DasRightUp => {
                return true;
            },
            _ => {},
        }
        i += 1;
    }
    false
}

/// The moves of a path that press a DAS of their own (see `das_count`).
fn count_das_moves(piece_sequence: &[PieceType], path: &[PathNode]) -> (c: u16)
    requires
        steps_ok(path@, piece_sequence@),
    ensures
        c == das_count(path@, piece_sequence@, path@.len() - 1),
{
    let mut das_moves: u16 = 0;
    let n = path.len() - 1;
    let mut i: usize = 0;
    while i < n
        invariant
            n == path@.len() - 1,
            steps_ok(path@, piece_sequence@),
            i <= n,
            das_moves == das_count(path@, piece_sequence@, i as int),
            das_moves <= i,
        decreases n - i,
    {
        assert(path_step(path@[i as int], piece_sequence@[i as int], path@[i + 1]) is Some);
        let m = rebuild_actions_general(&path[i], piece_sequence[i], &path[i + 1]);
        if !m.reused && !m.hold_only && releases(&m) {
            das_moves += 1;
        }
        i += 1;
    }
    das_moves
}

/// The steps of a path that clear lines (see `clear_count`).
fn count_clear_ops(path: &[PathNode]) -> (c: u16)
    requires
        1 <= path@.len() <= 65536,
    ensures
        c == clear_count(path@, path@.len() - 1),
{
    let mut clear_ops: u16 = 0;
    let n = path.len() - 1;
    let mut i: usize = 0;
    while i < n
        invariant
            n == path@.len() - 1,
            n <= 65535,
            i <= n,
            clear_ops == clear_count(path@, i as int),
            clear_ops <= i,
        decreases n - i,
    {
        let clear_a = path[i].meta() & LINES_CLEARED_MASK;
        let clear_b = path[i + 1].meta() & LINES_CLEARED_MASK;
        if clear_b > clear_a {
            clear_ops += 1;
        }
        i += 1;
    }
    clear_ops
}

impl BeamSearch {
    /// The beam nodes from the root to `node` at depth `depth` (see
    /// `backtrace`).
    pub fn backtrace_path(layers: &[Vec<SearchNode<ShapeBoard>>], depth: usize, node: &SearchNode<ShapeBoard>) -> (r: Vec<
        SearchNode<ShapeBoard>,
    >)
        requires
            backtrace_ok(layers@, depth as int, *node),
        ensures
            r@ == backtrace(layers@, depth as int, *node),
    {
        let ghost full = backtrace(layers@, depth as int, *node);
        proof {
            lemma_backtrace(layers@, depth as int, *node);
        }
        let mut rev: Vec<SearchNode<ShapeBoard>> = Vec::new();
        let mut current = *node;
        let mut d = depth;
        while d > 0
            invariant
                d <= depth,
                full == backtrace(layers@, depth as int, *node),
                full.len() == depth + 1,
                backtrace_ok(layers@, depth as int, *node),
                forall|j: int|
                    1 <= j <= depth ==> #[trigger] full[j - 1] == layers@[j - 1]@[full[j].parent_idx as int],
                current == full[d as int],
                rev@.len() == depth - d,
                forall|k: int| 0 <= k < rev@.len() ==> #[trigger] rev@[k] == full[depth - k],
            decreases d,
        {
            rev.push(current);
            proof {
                lemma_backtrace_ok(layers@, depth as int, *node, d as int);
                assert(full[d - 1] == layers@[d - 1]@[full[d as int].parent_idx as int]);
            }
            let parent_idx = current.parent_idx;
            current = layers[d - 1][parent_idx];
            d -= 1;
        }
        rev.push(current);
        let mut path: Vec<SearchNode<ShapeBoard>> = Vec::new();
        let mut k = rev.len();
        while k > 0
            invariant
                k <= rev@.len(),
                rev@.len() == depth + 1,
                forall|t: int| 0 <= t < rev@.len() ==> #[trigger] rev@[t] == full[depth - t],
                path@.len() == depth + 1 - k,
                forall|t: int| 0 <= t < path@.len() ==> #[trigger] path@[t] == full[t],
            decreases k,
        {
            path.push(rev[k - 1]);
            k -= 1;
        }
        assert(path@ =~= full);
        path
    }
}

impl BeamSearch {
    /// Compares the best path `a` with the endgame solution `b` and returns
    /// the whole path of `b` where it is better (see `better_path`), `None`
    /// to keep `a`.
    pub fn checkmin_path(
        layers: &[Vec<SearchNode<ShapeBoard>>],
        piece_sequence: &[PieceType],
        a: &[PathNode],
        b: &Path,
    ) -> (r: Option<Vec<PathNode>>)
        requires
            b.pc_sequence@.len() > 0,
            backtrace_ok(layers@, b.depth as int, b.node),
            a@.len() > 0 && path_keys(a@) == b.pc_sequence@.last().keys_pressed ==> steps_ok(a@, piece_sequence@)
                && steps_ok(full_path(layers@, *b), piece_sequence@),
        ensures
            match better_path(a@, full_path(layers@, *b), b.pc_sequence@.last().keys_pressed, piece_sequence@) {
                Some(p) => r matches Some(v) && v@ == p,
                None => r is None,
            },
    {
        let a_keys = if a.len() == 0 {
            u16::MAX
        } else {
            a[a.len() - 1].keys_pressed()
        };
        let b_keys = b.pc_sequence[b.pc_sequence.len() - 1].keys_pressed;
        if a_keys < b_keys {
            return None;
        }
        let beam = Self::backtrace_path(layers, b.depth, &b.node);
        let mut b_seq: Vec<PathNode> = Vec::new();
        let mut i: usize = 0;
        while i < beam.len()
            invariant
                i <= beam@.len(),
                b_seq@ == beam@.take(i as int).map_values(|n: SearchNode<ShapeBoard>| PathNode::Normal(n)),
            decreases beam@.len() - i,
        {
            b_seq.push(PathNode::Normal(beam[i]));
            proof {
                assert(beam@.take(i + 1) =~= beam@.take(i as int).push(beam@[i as int]));
                assert(b_seq@ =~= beam@.take(i + 1).map_values(|n: SearchNode<ShapeBoard>| PathNode::Normal(n)));
            }
            i += 1;
        }
        let ghost head = b_seq@;
        let mut j: usize = 0;
        while j < b.pc_sequence.len()
            invariant
                j <= b.pc_sequence@.len(),
                b_seq@ == head + b.pc_sequence@.take(j as int).map_values(|n: SearchNode<BitBoard>| PathNode::Pc(n)),
            decreases b.pc_sequence@.len() - j,
        {
            b_seq.push(PathNode::Pc(b.pc_sequence[j]));
            proof {
                assert(b.pc_sequence@.take(j + 1) =~= b.pc_sequence@.take(j as int).push(b.pc_sequence@[j as int]));
                assert(b_seq@ =~= head + b.pc_sequence@.take(j + 1).map_values(|n: SearchNode<BitBoard>| PathNode::Pc(n)));
            }
            j += 1;
        }
        proof {
            assert(beam@.take(beam@.len() as int) =~= beam@);
            assert(b.pc_sequence@.take(b.pc_sequence@.len() as int) =~= b.pc_sequence@);
            assert(b_seq@ =~= full_path(layers@, *b));
        }
        if a.len() == 0 || a_keys > b_keys {
            return Some(b_seq);
        }
        let cnt_a = count_das_moves(piece_sequence, a);
        let cnt_b = count_das_moves(piece_sequence, b_seq.as_slice());
        if cnt_a != cnt_b {
            return if cnt_a > cnt_b {
                Some(b_seq)
            } else {
                None
            };
        }
        let clear_a = count_clear_ops(a);
        let clear_b = count_clear_ops(b_seq.as_slice());
        if clear_a != clear_b {
            return if clear_a < clear_b {
                Some(b_seq)
            } else {
                None
            };
        }
        None
    }
}

/// The I pieces among `pieces` from position `k` on.
pub open spec fn i_count_from(pieces: Seq<PieceType>, k: int) -> int
    decreases pieces.len() - k,
{
    if k < 0 || k >= pieces.len() {
        0
    } else {
        (if pieces[k] == PieceType::I {
            1int
        } else {
            0
        }) + i_count_from(pieces, k + 1)
    }
}

proof fn lemma_i_count_bound(pieces: Seq<PieceType>, k: int)
    requires
        0 <= k <= pieces.len(),
    ensures
        0 <= i_count_from(pieces, k) <= pieces.len() - k,
    decreases pieces.len() - k,
{
    if k < pieces.len() {
        lemma_i_count_bound(pieces, k + 1);
    }
}

/// For each position of the piece sequence, and one past the end, the I
/// pieces from there on.
pub fn i_left_suffix(piece_sequence: &[PieceType]) -> (r: Vec<usize>)
    ensures
        r@.len() == piece_sequence@.len() + 1,
        forall|k: int| 0 <= k <= piece_sequence@.len() ==> #[trigger] r@[k] == i_count_from(piece_sequence@, k),
{
    let n = piece_sequence.len();
    let mut rev: Vec<usize> = Vec::new();
    rev.push(0);
    let mut sum: usize = 0;
    let mut k = n;
    while k > 0
        invariant
            k <= n,
            n == piece_sequence@.len(),
            sum == i_count_from(piece_sequence@, k as int),
            rev@.len() == n - k + 1,
            forall|t: int| 0 <= t < rev@.len() ==> #[trigger] rev@[t] == i_count_from(piece_sequence@, n - t),
        decreases k,
    {
        proof {
            lemma_i_count_bound(piece_sequence@, k - 1);
        }
        if piece_sequence[k - 1] == PieceType::I {
            sum = sum + 1;
        }
        rev.push(sum);
        k -= 1;
    }
    let mut r: Vec<usize> = Vec::new();
    let mut j = rev.len();
    while j > 0
        invariant
            j <= rev@.len(),
            rev@.len() == n + 1,
            forall|t: int| 0 <= t < rev@.len() ==> #[trigger] rev@[t] == i_count_from(piece_sequence@, n - t),
            r@.len() == n + 1 - j,
            forall|t: int| 0 <= t < r@.len() ==> #[trigger] r@[t] == i_count_from(piece_sequence@, t),
        decreases j,
    {
        r.push(rev[j - 1]);
        j -= 1;
    }
    r
}

/// The highest of the first `n` values that the diversity buckets read from
/// a packed board, five bits apart, and its position (the first such).
pub open spec fn bucket_max(packed: u64, n: int) -> (u64, int)
    decreases n,
{
    if n <= 1 {
        (packed & 0x1F, 0)
    } else {
        let (m, at) = bucket_max(packed, n - 1);
        let h = (packed >> ((5 * (n - 1)) as u64)) & 0x1F;
        if m < h {
            (h, n - 1)
        } else {
            (m, at)
        }
    }
}

/// The diversity bucket of a beam node: its well column, and the highest of
/// ten five-bit fields of its packed board (a column height where the
/// fields line up with columns) with the field's position.
pub open spec fn spec_bucket_key(node: SearchNode<ShapeBoard>) -> (usize, u64, i32) {
    let (m, at) = bucket_max(node.state.packed_shape, 10);
    (crate::evaluator::well_of(node.state) as usize, m, at as i32)
}

/// The diversity bucket of a beam node (see `spec_bucket_key`).
pub fn bucket_key(node: &SearchNode<ShapeBoard>) -> (k: (usize, u64, i32))
    ensures
        k == spec_bucket_key(*node),
{
    let well = crate::evaluator::get_well(node.state);
    let p0 = node.state.packed_shape;
    let mut max_h = p0 & crate::bitboard::SHAPE_COL_MASK;
    let mut max_idx: i32 = 0;
    let mut i: i32 = 1;
    while i < 10
        invariant
            1 <= i <= 10,
            p0 == node.state.packed_shape,
            (max_h, max_idx as int) == bucket_max(p0, i as int),
        decreases 10 - i,
    {
        let shift: u64 = (5 * i) as u64;
        let h = (p0 >> shift) & crate::bitboard::SHAPE_COL_MASK;
        if max_h < h {
            max_h = h;
            max_idx = i;
        }
        i += 1;
    }
    (well, max_h, max_idx)
}


/// A diversity bucket as one integer: the well column, the highest field
/// and its position, packed without overlap.
pub open spec fn bucket_code(key: (usize, u64, i32)) -> int {
    key.0 * 512 + key.1 * 16 + key.2
}

/// The nodes among the first `n` of `nodes` that fall in the bucket `key`.
pub open spec fn bucket_count(nodes: Seq<SearchNode<ShapeBoard>>, n: int, key: (usize, u64, i32)) -> int
    decreases n,
{
    if n <= 0 {
        0
    } else {
        bucket_count(nodes, n - 1, key) + (if spec_bucket_key(nodes[n - 1]) == key {
            1int
        } else {
            0
        })
    }
}

/// Whether the node at `i` is among the first `DIVERSITY_BUCKET_SIZE` of its
/// bucket, counting from the front of `nodes`.
pub open spec fn bucket_admits(nodes: Seq<SearchNode<ShapeBoard>>, i: int) -> bool {
    bucket_count(nodes, i + 1, spec_bucket_key(nodes[i])) <= DIVERSITY_BUCKET_SIZE
}

/// The nodes among the first `n` of `nodes` that their buckets admit, in order.
pub open spec fn admitted(nodes: Seq<SearchNode<ShapeBoard>>, n: int) -> Seq<SearchNode<ShapeBoard>>
    decreases n,
{
    if n <= 0 {
        Seq::empty()
    } else if bucket_admits(nodes, n - 1) {
        admitted(nodes, n - 1).push(nodes[n - 1])
    } else {
        admitted(nodes, n - 1)
    }
}

/// The next beam layer drawn from `nodes`, best first: the nodes their
/// buckets admit, at most `BEAM_WIDTH` of them.
pub open spec fn next_layer(nodes: Seq<SearchNode<ShapeBoard>>) -> Seq<SearchNode<ShapeBoard>> {
    let s = admitted(nodes, nodes.len() as int);
    if s.len() > BEAM_WIDTH {
        s.take(BEAM_WIDTH as int)
    } else {
        s
    }
}

/// The nodes among the first `n` whose bucket packs to `c`.
spec fn code_count(nodes: Seq<SearchNode<ShapeBoard>>, n: int, c: int) -> int
    decreases n,
{
    if n <= 0 {
        0
    } else {
        code_count(nodes, n - 1, c) + (if bucket_code(spec_bucket_key(nodes[n - 1])) == c {
            1int
        } else {
            0
        })
    }
}

proof fn lemma_first_empty_le(b: ShapeBoard, c: int)
    ensures
        crate::evaluator::first_empty_from(b, c) <= 10,
        0 <= c ==> 0 <= crate::evaluator::first_empty_from(b, c),
    decreases 10 - c,
{
    if c < 10 {
        lemma_first_empty_le(b, c + 1);
    }
}

proof fn lemma_bucket_max_bounds(packed: u64, n: int)
    ensures
        bucket_max(packed, n).0 <= 31,
        0 <= bucket_max(packed, n).1 < (if n < 1 { 1 } else { n }),
    decreases n,
{
    crate::bitboard::lanes::lemma_and_le(packed, 0x1F, 0, 0);
    if n > 1 {
        lemma_bucket_max_bounds(packed, n - 1);
        crate::bitboard::lanes::lemma_and_le(packed >> ((5 * (n - 1)) as u64), 0x1F, 0, 0);
    }
}

/// The fields of a bucket lie in the ranges that `bucket_code` keeps apart.
proof fn lemma_bucket_key_bounds(node: SearchNode<ShapeBoard>)
    ensures
        spec_bucket_key(node).0 <= 10,
        spec_bucket_key(node).1 <= 31,
        0 <= spec_bucket_key(node).2 < 10,
{
    lemma_first_empty_le(node.state, 0);
    lemma_bucket_max_bounds(node.state.packed_shape, 10);
}

proof fn lemma_bucket_code_injective(a: (usize, u64, i32), b: (usize, u64, i32))
    requires
        a.1 <= 31,
        b.1 <= 31,
        0 <= a.2 < 16,
        0 <= b.2 < 16,
        bucket_code(a) == bucket_code(b),
    ensures
        a == b,
{
    assert(a.2 == b.2 && a.1 == b.1 && a.0 == b.0) by (nonlinear_arith)
        requires
            a.1 <= 31,
            b.1 <= 31,
            0 <= a.2 < 16,
            0 <= b.2 < 16,
            a.0 * 512 + a.1 * 16 + a.2 == b.0 * 512 + b.1 * 16 + b.2,
    ;
}

proof fn lemma_code_count(nodes: Seq<SearchNode<ShapeBoard>>, n: int, k: (usize, u64, i32))
    requires
        0 <= n <= nodes.len(),
        k.1 <= 31,
        0 <= k.2 < 10,
    ensures
        code_count(nodes, n, bucket_code(k)) == bucket_count(nodes, n, k),
        0 <= bucket_count(nodes, n, k) <= n,
    decreases n,
{
    if n > 0 {
        lemma_code_count(nodes, n - 1, k);
        lemma_bucket_key_bounds(nodes[n - 1]);
        if bucket_code(spec_bucket_key(nodes[n - 1])) == bucket_code(k) {
            lemma_bucket_code_injective(spec_bucket_key(nodes[n - 1]), k);
        }
    }
}

proof fn lemma_admitted_prefix(nodes: Seq<SearchNode<ShapeBoard>>, i: int, n: int)
    requires
        0 <= i <= n,
    ensures
        admitted(nodes, i).len() <= admitted(nodes, n).len(),
        admitted(nodes, n).take(admitted(nodes, i).len() as int) == admitted(nodes, i),
    decreases n - i,
{
    if i < n {
        lemma_admitted_prefix(nodes, i, n - 1);
        let a = admitted(nodes, i);
        let b = admitted(nodes, n - 1);
        assert(admitted(nodes, n).take(b.len() as int) == b);
        assert(admitted(nodes, n).take(a.len() as int) == b.take(a.len() as int));
    }
}

/// The counts of a layer's buckets, in rustc_hash's `FxHashMap` keyed by the
/// bucket code.
#[verifier::external_body]
pub struct BucketCounts {
    map: rustc_hash::FxHashMap<u64, usize>,
}

/// What the bucket counts hold: each code seen and its count.
pub uninterp spec fn bucket_map(m: BucketCounts) -> Map<u64, usize>;

/// `FxHashMap::default()`: a map with nothing in it.
#[verifier::external_body]
fn bucket_counts_new() -> (r: BucketCounts)
    ensures
        bucket_map(r) =~= Map::empty(),
{
    BucketCounts { map: rustc_hash::FxHashMap::default() }
}

/// `HashMap::get` on the `FxHashMap`: the count of `code`, where it has one.
#[verifier::external_body]
fn bucket_counts_get(m: &BucketCounts, code: u64) -> (r: Option<usize>)
    ensures
        bucket_map(*m).contains_key(code) ==> r == Some(bucket_map(*m)[code]),
        !bucket_map(*m).contains_key(code) ==> r is None,
{
    m.map.get(&code).copied()
}

/// `HashMap::insert` on the `FxHashMap`: `code` now maps to `count`, and
/// every other code keeps its count.
#[verifier::external_body]
fn bucket_counts_insert(m: &mut BucketCounts, code: u64, count: usize)
    ensures
        bucket_map(*final(m)) == bucket_map(*old(m)).insert(code, count),
{
    m.map.insert(code, count);
}

impl BeamSearch {
    /// The next beam layer from the candidates in `ordered`, best first: each
    /// node enters when fewer than `DIVERSITY_BUCKET_SIZE` earlier candidates
    /// share its bucket, until the layer holds `BEAM_WIDTH` nodes.
    pub fn select_layer(ordered: &[SearchNode<ShapeBoard>]) -> (layer: Vec<SearchNode<ShapeBoard>>)
        ensures
            layer@ == next_layer(ordered@),
    {
        let mut bucket = bucket_counts_new();
        let mut layer: Vec<SearchNode<ShapeBoard>> = Vec::new();
        let n = ordered.len();
        let mut i: usize = 0;
        while i < n && layer.len() < BEAM_WIDTH
            invariant
                i <= n,
                n == ordered@.len(),
                layer@ == admitted(ordered@, i as int),
                layer@.len() <= BEAM_WIDTH,
                forall|c: u64| #[trigger] bucket_map(bucket).contains_key(c) ==> bucket_map(bucket)[c] == code_count(ordered@, i as int, c as int)
                    && bucket_map(bucket)[c] > 0,
                forall|c: u64| !(#[trigger] bucket_map(bucket).contains_key(c)) ==> code_count(ordered@, i as int, c as int) == 0,
            decreases n - i,
        {
            let node = ordered[i];
            let (well, max_h, max_idx) = bucket_key(&node);
            let ghost key = spec_bucket_key(node);
            proof {
                lemma_bucket_key_bounds(node);
                lemma_code_count(ordered@, i as int, key);
            }
            let code: u64 = (well as u64) * 512 + max_h * 16 + (max_idx as u64);
            assert(code as int == bucket_code(key));
            let count: usize = match bucket_counts_get(&bucket, code) {
                Some(c) => c + 1,
                None => 1,
            };
            assert(count == bucket_count(ordered@, i + 1, key));
            bucket_counts_insert(&mut bucket, code, count);
            if count <= DIVERSITY_BUCKET_SIZE {
                layer.push(node);
            }
            i += 1;
            assert forall|c: u64| #[trigger] bucket_map(bucket).contains_key(c) implies bucket_map(bucket)[c] == code_count(ordered@, i as int, c as int)
                && bucket_map(bucket)[c] > 0 by {
            }
        }
        proof {
            lemma_admitted_prefix(ordered@, i as int, n as int);
            let s = admitted(ordered@, n as int);
            if i < n {
                assert(layer@.len() == BEAM_WIDTH);
            }
            if s.len() > BEAM_WIDTH {
                assert(layer@.len() == BEAM_WIDTH);
            }
        }
        layer
    }
}

/// The nodes of `s` in the bucket `key`.
pub open spec fn key_count(s: Seq<SearchNode<ShapeBoard>>, key: (usize, u64, i32)) -> int
    decreases s.len(),
{
    if s.len() == 0 {
        0
    } else {
        key_count(s.drop_last(), key) + (if spec_bucket_key(s.last()) == key {
            1int
        } else {
            0
        })
    }
}

proof fn lemma_admitted_count(nodes: Seq<SearchNode<ShapeBoard>>, n: int, key: (usize, u64, i32))
    requires
        0 <= n <= nodes.len(),
    ensures
        key_count(admitted(nodes, n), key) == (if bucket_count(nodes, n, key) <= DIVERSITY_BUCKET_SIZE {
            bucket_count(nodes, n, key)
        } else {
            DIVERSITY_BUCKET_SIZE as int
        }),
        forall|i: int| 0 <= i < admitted(nodes, n).len() ==> nodes.contains(#[trigger] admitted(nodes, n)[i]),
    decreases n,
{
    if n > 0 {
        lemma_admitted_count(nodes, n - 1, key);
        let a = admitted(nodes, n - 1);
        if bucket_admits(nodes, n - 1) {
            assert(admitted(nodes, n).drop_last() =~= a);
            assert forall|i: int| 0 <= i < admitted(nodes, n).len() implies nodes.contains(
                #[trigger] admitted(nodes, n)[i],
            ) by {
                if i < a.len() {
                    assert(admitted(nodes, n)[i] == a[i]);
                } else {
                    assert(admitted(nodes, n)[i] == nodes[n - 1]);
                }
            }
        }
    }
}

proof fn lemma_take_count(s: Seq<SearchNode<ShapeBoard>>, j: int, key: (usize, u64, i32))
    requires
        0 <= j <= s.len(),
    ensures
        key_count(s.take(j), key) <= key_count(s, key),
    decreases s.len(),
{
    if j < s.len() {
        lemma_take_count(s.drop_last(), j, key);
        assert(s.drop_last().take(j) =~= s.take(j));
    } else {
        assert(s.take(j) =~= s);
    }
}

/// A beam layer keeps at most `BEAM_WIDTH` nodes, at most
/// `DIVERSITY_BUCKET_SIZE` of any one bucket, and only nodes it was offered.
pub proof fn lemma_layer_diverse(nodes: Seq<SearchNode<ShapeBoard>>)
    ensures
        next_layer(nodes).len() <= BEAM_WIDTH,
        forall|key: (usize, u64, i32)| #[trigger] key_count(next_layer(nodes), key) <= DIVERSITY_BUCKET_SIZE,
        forall|i: int| 0 <= i < next_layer(nodes).len() ==> nodes.contains(#[trigger] next_layer(nodes)[i]),
{
    let n = nodes.len() as int;
    let s = admitted(nodes, n);
    assert forall|key: (usize, u64, i32)| #[trigger] key_count(next_layer(nodes), key) <= DIVERSITY_BUCKET_SIZE by {
        lemma_admitted_count(nodes, n, key);
        if s.len() > BEAM_WIDTH {
            lemma_take_count(s, BEAM_WIDTH as int, key);
        }
    }
    lemma_admitted_count(nodes, n, (0usize, 0u64, 0i32));
    assert forall|i: int| 0 <= i < next_layer(nodes).len() implies nodes.contains(#[trigger] next_layer(nodes)[i]) by {
        assert(next_layer(nodes)[i] == s[i]);
    }
}

/// The best path after the solutions `cands[..n]` are offered in turn to
/// `best` (see `better_path`).
pub open spec fn best_after(
    layers: Seq<Vec<SearchNode<ShapeBoard>>>,
    pieces: Seq<PieceType>,
    best: Seq<PathNode>,
    cands: Seq<Path>,
    n: int,
) -> Seq<PathNode>
    decreases n,
{
    if n <= 0 {
        best
    } else {
        let prev = best_after(layers, pieces, best, cands, n - 1);
        let b = cands[n - 1];
        match better_path(prev, full_path(layers, b), b.pc_sequence@.last().keys_pressed, pieces) {
            Some(p) => p,
            None => prev,
        }
    }
}

/// Whether a solution found at some layer can be weighed against others: it
/// has an endgame move, its beam node backtraces through `layers`, and its
/// whole path can be rebuilt.
pub open spec fn candidate_ok(layers: Seq<Vec<SearchNode<ShapeBoard>>>, pieces: Seq<PieceType>, b: Path) -> bool {
    &&& b.pc_sequence@.len() > 0
    &&& backtrace_ok(layers, b.depth as int, b.node)
    &&& steps_ok(full_path(layers, b), pieces)
}

/// Whether every parent on the way back from `node` at depth `d` lies in its
/// layer (see `backtrace_ok`).
fn backtrace_check(layers: &[Vec<SearchNode<ShapeBoard>>], d: usize, node: &SearchNode<ShapeBoard>) -> (ok: bool)
    ensures
        ok == backtrace_ok(layers@, d as int, *node),
{
    let mut cur = *node;
    let mut dd = d;
    while dd > 0
        invariant
            dd <= d,
            backtrace_ok(layers@, d as int, *node) == backtrace_ok(layers@, dd as int, cur),
        decreases dd,
    {
        if dd - 1 >= layers.len() || cur.parent_idx >= layers[dd - 1].len() {
            return false;
        }
        cur = layers[dd - 1][cur.parent_idx];
        dd -= 1;
    }
    true
}

/// Whether `path` has the length that `pieces` allow and each node follows
/// the one before it (see `steps_ok`).
pub fn path_steps_check(path: &[PathNode], pieces: &[PieceType]) -> (ok: bool)
    ensures
        ok == steps_ok(path@, pieces@),
{
    if path.len() == 0 || path.len() > 65536 || path.len() - 1 > pieces.len() {
        return false;
    }
    let n = path.len() - 1;
    let mut i: usize = 0;
    while i < n
        invariant
            n == path@.len() - 1,
            n <= pieces@.len(),
            i <= n,
            forall|j: int| 0 <= j < i ==> (#[trigger] path_step(path@[j], pieces@[j], path@[j + 1])) is Some,
        decreases n - i,
    {
        if !crate::movegen::step_exists(&path[i], pieces[i], &path[i + 1]) {
            return false;
        }
        i += 1;
    }
    true
}

/// Whether the endgame solution `b` can be offered to `pick_best` (see
/// `candidate_ok`).
pub fn candidate_checks(layers: &[Vec<SearchNode<ShapeBoard>>], pieces: &[PieceType], b: &Path) -> (ok: bool)
    ensures
        ok == candidate_ok(layers@, pieces@, *b),
{
    if b.pc_sequence.len() == 0 || !backtrace_check(layers, b.depth, &b.node) {
        return false;
    }
    let beam = BeamSearch::backtrace_path(layers, b.depth, &b.node);
    let mut full: Vec<PathNode> = Vec::new();
    let mut i: usize = 0;
    while i < beam.len()
        invariant
            i <= beam@.len(),
            full@ == beam@.take(i as int).map_values(|n: SearchNode<ShapeBoard>| PathNode::Normal(n)),
        decreases beam@.len() - i,
    {
        full.push(PathNode::Normal(beam[i]));
        proof {
            assert(beam@.take(i + 1).map_values(|n: SearchNode<ShapeBoard>| PathNode::Normal(n)) =~= beam@.take(
                i as int,
            ).map_values(|n: SearchNode<ShapeBoard>| PathNode::Normal(n)).push(PathNode::Normal(beam@[i as int])));
        }
        i += 1;
    }
    let ghost head = full@;
    let mut j: usize = 0;
    while j < b.pc_sequence.len()
        invariant
            j <= b.pc_sequence@.len(),
            full@ == head + b.pc_sequence@.take(j as int).map_values(|n: SearchNode<BitBoard>| PathNode::Pc(n)),
        decreases b.pc_sequence@.len() - j,
    {
        full.push(PathNode::Pc(b.pc_sequence[j]));
        proof {
            assert(b.pc_sequence@.take(j + 1).map_values(|n: SearchNode<BitBoard>| PathNode::Pc(n)) =~= b.pc_sequence@.take(
                j as int,
            ).map_values(|n: SearchNode<BitBoard>| PathNode::Pc(n)).push(PathNode::Pc(b.pc_sequence@[j as int])));
        }
        j += 1;
    }
    proof {
        assert(beam@.take(beam@.len() as int) =~= beam@);
        assert(b.pc_sequence@.take(b.pc_sequence@.len() as int) =~= b.pc_sequence@);
        assert(full@ =~= full_path(layers@, *b));
    }
    path_steps_check(&full, pieces)
}

impl BeamSearch {
    /// The best path once each solution of `cands` is offered in turn to
    /// `best` (see `best_after`).
    pub fn pick_best(
        layers: &[Vec<SearchNode<ShapeBoard>>],
        piece_sequence: &[PieceType],
        best: Vec<PathNode>,
        cands: &Vec<Path>,
    ) -> (r: Vec<PathNode>)
        requires
            best@.len() > 0 ==> steps_ok(best@, piece_sequence@),
            forall|i: int| 0 <= i < cands@.len() ==> candidate_ok(layers@, piece_sequence@, #[trigger] cands@[i]),
        ensures
            r@ == best_after(layers@, piece_sequence@, best@, cands@, cands@.len() as int),
    {
        let mut cur = best;
        let mut i: usize = 0;
        while i < cands.len()
            invariant
                i <= cands@.len(),
                cur@ == best_after(layers@, piece_sequence@, best@, cands@, i as int),
                cur@.len() > 0 ==> steps_ok(cur@, piece_sequence@),
                forall|j: int| 0 <= j < cands@.len() ==> candidate_ok(layers@, piece_sequence@, #[trigger] cands@[j]),
            decreases cands@.len() - i,
        {
            let b = &cands[i];
            proof {
                assert(candidate_ok(layers@, piece_sequence@, cands@[i as int]));
            }
            match Self::checkmin_path(layers, piece_sequence, cur.as_slice(), b) {
                Some(v) => {
                    cur = v;
                },
                None => {},
            }
            i += 1;
        }
        cur
    }
}

/// What the beam search does with a node of the current layer.
#[derive(Clone, Copy, Debug, PartialEq, Eq, Structural)]
pub enum NodeStep {
    /// The node cannot beat the solutions already found: skip it.
    Prune,
    /// The node is close enough to the goal: hand it to the endgame search.
    Endgame,
    /// Place the current piece on it in every way and score the results.
    Expand,
}

/// What the beam search does at layer `depth` (of `max_depth`) with a node
/// that has pressed `keys` keys and cleared `lines` lines, given the keys
/// of the solutions already found at this layer, if any.
pub open spec fn spec_node_step(keys: u16, lines: u16, depth: int, max_depth: int, best: Option<u16>) -> NodeStep {
    if best is Some && keys + ((max_depth - 1 - depth) as u16) > best->0 {
        NodeStep::Prune
    } else if depth >= ENDGAME_START && lines >= TARGET_LINES - 4 {
        NodeStep::Endgame
    } else {
        NodeStep::Expand
    }
}

impl BeamSearch {
    /// What to do with `node` at layer `depth` (see `spec_node_step`), where
    /// `best` holds the keys of the solutions found so far at this layer.
    /// The bound is computed without wrapping.
    pub fn node_step(node: &SearchNode<ShapeBoard>, depth: usize, max_depth: usize, best: Option<u16>) -> (s: NodeStep)
        requires
            depth < max_depth,
        ensures
            s == spec_node_step(node.keys_pressed, node.meta & LINES_CLEARED_MASK, depth as int, max_depth as int, best),
    {
        let rest: u16 = (max_depth - 1 - depth) as u16;
        match best {
            Some(b) => {
                if (node.keys_pressed as u32) + (rest as u32) > (b as u32) {
                    return NodeStep::Prune;
                }
            },
            None => {},
        }
        if depth >= ENDGAME_START && (node.meta & LINES_CLEARED_MASK) >= TARGET_LINES - 4 {
            NodeStep::Endgame
        } else {
            NodeStep::Expand
        }
    }

    /// The key under which the beam merges nodes that reach the same board
    /// with the same packed state.
    pub fn state_hash(node: &SearchNode<ShapeBoard>) -> (h: u64)
        ensures
            h == node.state.packed_shape | ((node.meta as u64) << 50u64),
    {
        node.state.packed_shape | ((node.meta as u64) << 50u64)
    }

    /// Offers an endgame solution to the list of the best ones found so far:
    /// it replaces them when it has fewer keys, joins them when it ties, and
    /// is dropped otherwise.
    pub fn offer_solution(best: &mut Vec<Path>, path: Path)
        ensures
            final(best)@ == offered(old(best)@, path),
    {
        if best.len() == 0 || path.keys_pressed < best[0].keys_pressed {
            best.clear();
            best.push(path);
        } else if path.keys_pressed == best[0].keys_pressed {
            best.push(path);
        }
    }

    /// Joins two lists of best solutions: the one with fewer keys wins, and
    /// on a tie the second follows the first.
    pub fn merge_solutions(first: Vec<Path>, second: Vec<Path>) -> (m: Vec<Path>)
        ensures
            m@ == merged(first@, second@),
    {
        let mut first = first;
        let mut second = second;
        if first.len() == 0 || (second.len() > 0 && second[0].keys_pressed < first[0].keys_pressed) {
            second
        } else if second.len() > 0 && second[0].keys_pressed == first[0].keys_pressed {
            first.append(&mut second);
            first
        } else {
            first
        }
    }
}

/// The list of best solutions once `path` is offered to `best`.
pub open spec fn offered(best: Seq<Path>, path: Path) -> Seq<Path> {
    if best.len() == 0 || path.keys_pressed < best[0].keys_pressed {
        seq![path]
    } else if path.keys_pressed == best[0].keys_pressed {
        best.push(path)
    } else {
        best
    }
}

/// Two lists of best solutions joined.
pub open spec fn merged(first: Seq<Path>, second: Seq<Path>) -> Seq<Path> {
    if first.len() == 0 || (second.len() > 0 && second[0].keys_pressed < first[0].keys_pressed) {
        second
    } else if second.len() > 0 && second[0].keys_pressed == first[0].keys_pressed {
        first + second
    } else {
        first
    }
}

/// Every solution in the list has the keys of the first.
pub open spec fn tied(best: Seq<Path>) -> bool {
    forall|i: int| 0 <= i < best.len() ==> (#[trigger] best[i]).keys_pressed == best[0].keys_pressed
}

/// Offering a solution keeps the list tied, at the fewest keys of the two,
/// and never drops a solution with fewer keys than the list holds.
pub proof fn lemma_offer_keeps_the_fewest(best: Seq<Path>, path: Path)
    requires
        tied(best),
    ensures
        tied(offered(best, path)),
        offered(best, path).len() > 0,
        offered(best, path)[0].keys_pressed == (if best.len() == 0 || path.keys_pressed < best[0].keys_pressed {
            path.keys_pressed
        } else {
            best[0].keys_pressed
        }),
        offered(best, path).contains(path) <==> (best.len() == 0 || path.keys_pressed <= best[0].keys_pressed),
{
    let r = offered(best, path);
    if best.len() == 0 || path.keys_pressed < best[0].keys_pressed {
        assert(r[0] == path);
    } else if path.keys_pressed == best[0].keys_pressed {
        assert(r[best.len() as int] == path);
    } else {
        if r.contains(path) {
            let i = choose|i: int| 0 <= i < r.len() && r[i] == path;
            assert(r[i].keys_pressed == best[0].keys_pressed);
        }
    }
}

/// Joining two tied lists gives a tied list at the fewer keys of the two.
pub proof fn lemma_merge_keeps_the_fewest(first: Seq<Path>, second: Seq<Path>)
    requires
        tied(first),
        tied(second),
    ensures
        tied(merged(first, second)),
        merged(first, second).len() > 0 ==> merged(first, second)[0].keys_pressed == (if first.len() == 0 {
            second[0].keys_pressed
        } else if second.len() == 0 || first[0].keys_pressed <= second[0].keys_pressed {
            first[0].keys_pressed
        } else {
            second[0].keys_pressed
        }),
{
    let m = merged(first, second);
    if !(first.len() == 0 || (second.len() > 0 && second[0].keys_pressed < first[0].keys_pressed))
        && second.len() > 0 && second[0].keys_pressed == first[0].keys_pressed {
        assert forall|i: int| 0 <= i < m.len() implies (#[trigger] m[i]).keys_pressed == m[0].keys_pressed by {
            if i >= first.len() {
                assert(m[i] == second[i - first.len()]);
            }
        }
    }
}

} // verus!
verus! {

/// How two solutions compare (see `better_path`): the one with fewer keys
/// wins; with as many keys, the one whose moves press fewer DAS of their own
/// wins; with as many of those too, the one that clears lines in more steps
/// wins; on a full tie the path held (`a`) stays. `Some(bp)` means that the
/// offered path `bp` replaces `a`.
pub proof fn lemma_better_path_order(a: Seq<PathNode>, bp: Seq<PathNode>, kb: u16, pieces: Seq<PieceType>)
    requires
        a.len() > 0,
    ensures
        path_keys(a) < kb ==> better_path(a, bp, kb, pieces) is None,
        path_keys(a) > kb ==> better_path(a, bp, kb, pieces) == Some(bp),
        path_keys(a) == kb && das_count(a, pieces, a.len() - 1) > das_count(bp, pieces, bp.len() - 1) ==> better_path(
            a,
            bp,
            kb,
            pieces,
        ) == Some(bp),
        path_keys(a) == kb && das_count(a, pieces, a.len() - 1) < das_count(bp, pieces, bp.len() - 1) ==> better_path(
            a,
            bp,
            kb,
            pieces,
        ) is None,
        path_keys(a) == kb && das_count(a, pieces, a.len() - 1) == das_count(bp, pieces, bp.len() - 1)
            && clear_count(a, a.len() - 1) < clear_count(bp, bp.len() - 1) ==> better_path(a, bp, kb, pieces) == Some(
            bp,
        ),
        path_keys(a) == kb && das_count(a, pieces, a.len() - 1) == das_count(bp, pieces, bp.len() - 1)
            && clear_count(a, a.len() - 1) >= clear_count(bp, bp.len() - 1) ==> better_path(a, bp, kb, pieces) is None,
{
}

} // verus!
