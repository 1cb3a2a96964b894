//! The endgame: an exhaustive depth-first search over the last pieces for the
//! fewest keys that reach the target lines, with a table of the states seen.
use vstd::prelude::*;
use crate::PieceType;
use crate::bitboard::{Board, BitBoard, SearchNode, LINES_CLEARED_MASK, ROW_MASK, popcount};
use crate::config::{ENDGAME_DEPTH, TARGET_LINES};
use crate::movegen::{generate_moves, NoReplay};

pub mod budget;

verus! {

use crate::bitboard::lanes::lemma_and_le;
use crate::movegen::{all_moves, can_expand, follows, reachable};

/// A remembered state: its board word and the fewest keys seen for it.
#[derive(Clone, Copy)]
struct TtEntry {
    key: u64,
    keys_pressed: u16,
}

/// Entries per shard of the table.
pub const SHARD_CAPACITY: usize = 262144;

/// Shards of the table: eight piece positions, four DAS states and eight
/// held pieces.
pub const SHARD_COUNT: usize = 256;

/// The multiplier of the table's hash.
pub const HASH_MULTIPLIER: u64 = 0x517cc1b727220a95;

/// What the endgame searches share: the fewest keys of any solution found
/// so far, and the table of states seen, by shard. A shard is filled with
/// empty entries the first time it is used.
pub struct EndgameShared {
    best_keys: u16,
    table: Vec<Vec<TtEntry>>,
}

/// A shard of empty entries.
pub open spec fn empty_shard() -> Seq<(u64, u16)> {
    Seq::new(SHARD_CAPACITY as nat, |i: int| (u64::MAX, u16::MAX))
}

/// The even slot of a shard at which the state with board word `key` is
/// looked up (it may also lie in the slot after).
pub open spec fn slot_of(key: u64) -> int {
    (key.wrapping_mul(HASH_MULTIPLIER) & 0x3FFFEu64) as int
}

/// The shard of a state `piece_pos` pieces into the endgame with packed state
/// `meta`: the DAS side and held piece above the position.
pub open spec fn shard_of(piece_pos: int, meta: u16) -> int {
    (((meta & !0x1FFu16) >> 6u16) | (piece_pos as u16)) as int
}

/// A visit of the state with board word `key`, reached in `kp` keys, to a
/// shard whose lookup slot is `i`: whether the state is worth searching, and
/// the shard afterwards. A state already seen with no more keys is not; a
/// state seen with more keys has its count lowered; a new state takes the
/// slot of the pair with the higher count (the second on a tie).
pub open spec fn probe(shard: Seq<(u64, u16)>, i: int, key: u64, kp: u16) -> (bool, Seq<(u64, u16)>) {
    if shard[i].0 == key {
        if shard[i].1 <= kp {
            (false, shard)
        } else {
            (true, shard.update(i, (key, kp)))
        }
    } else if shard[i + 1].0 == key {
        if shard[i + 1].1 <= kp {
            (false, shard)
        } else {
            (true, shard.update(i + 1, (key, kp)))
        }
    } else if shard[i].1 > shard[i + 1].1 {
        (true, shard.update(i, (key, kp)))
    } else {
        (true, shard.update(i + 1, (key, kp)))
    }
}

/// A state that a visit turns away has an entry in its pair of slots with
/// its board word and no more keys; a visit that lets it in leaves the pair
/// holding it with its keys.
pub proof fn lemma_probe_answer(shard: Seq<(u64, u16)>, i: int, key: u64, kp: u16)
    requires
        0 <= i,
        i + 1 < shard.len(),
    ensures
        !probe(shard, i, key, kp).0 ==> (shard[i].0 == key && shard[i].1 <= kp) || (shard[i + 1].0 == key
            && shard[i + 1].1 <= kp),
        !probe(shard, i, key, kp).0 ==> probe(shard, i, key, kp).1 == shard,
        probe(shard, i, key, kp).0 ==> probe(shard, i, key, kp).1[i] == (key, kp) || probe(shard, i, key, kp).1[i
            + 1] == (key, kp),
{
}

/// Visiting the same state again at once, with the same keys, turns it away
/// and leaves the shard as it is.
pub proof fn lemma_probe_repeat(shard: Seq<(u64, u16)>, i: int, key: u64, kp: u16)
    requires
        0 <= i,
        i + 1 < shard.len(),
    ensures
        probe(probe(shard, i, key, kp).1, i, key, kp) == (false, probe(shard, i, key, kp).1),
{
}

proof fn lemma_shard_bound(m: u16, p: u16)
    by (bit_vector)
    requires
        m < 0x4000,
        p < 8,
    ensures
        ((m & !0x1FFu16) >> 6u16) | p < 256,
{
}

impl EndgameShared {
    /// Whether the table has all its shards, each unused or full size.
    pub closed spec fn wf(&self) -> bool {
        &&& self.table@.len() == SHARD_COUNT
        &&& forall|s: int|
            0 <= s < SHARD_COUNT ==> (#[trigger] self.table@[s]).len() == 0 || self.table@[s].len()
                == SHARD_CAPACITY
    }

    /// The entries of each shard, as (board word, keys) pairs.
    pub closed spec fn entries(&self) -> Seq<Seq<(u64, u16)>> {
        Seq::new(
            SHARD_COUNT as nat,
            |s: int|
                if self.table@[s].len() == 0 {
                    empty_shard()
                } else {
                    self.table@[s]@.map_values(|e: TtEntry| (e.key, e.keys_pressed))
                },
        )
    }

    /// Every shard of a well-formed table has its full size, and every
    /// lookup slot has its pair within it, so that `lemma_probe_answer` and
    /// `lemma_probe_repeat` apply to each visit.
    pub proof fn lemma_shards(&self, key: u64)
        requires
            self.wf(),
        ensures
            self.entries().len() == SHARD_COUNT,
            forall|s: int| 0 <= s < SHARD_COUNT ==> (#[trigger] self.entries()[s]).len() == SHARD_CAPACITY,
            0 <= slot_of(key),
            slot_of(key) + 1 < SHARD_CAPACITY,
    {
        lemma_and_le(key.wrapping_mul(HASH_MULTIPLIER), 0x3FFFE, 0, 0);
        assert forall|s: int| 0 <= s < SHARD_COUNT implies (#[trigger] self.entries()[s]).len() == SHARD_CAPACITY by {
            assert(self.table@[s].len() == 0 || self.table@[s].len() == SHARD_CAPACITY);
        }
    }

    /// The fewest keys of any solution found so far.
    pub closed spec fn spec_best_keys(&self) -> u16 {
        self.best_keys
    }

    /// No solution yet, and a table of empty entries.
    pub fn new() -> (r: Self)
        ensures
            r.wf(),
            r.spec_best_keys() == u16::MAX,
            r.entries() == Seq::new(SHARD_COUNT as nat, |s: int| empty_shard()),
    {
        let mut table: Vec<Vec<TtEntry>> = Vec::new();
        let mut i: usize = 0;
        while i < SHARD_COUNT
            invariant
                i <= SHARD_COUNT,
                table@.len() == i,
                forall|s: int| 0 <= s < i ==> (#[trigger] table@[s]).len() == 0,
            decreases SHARD_COUNT - i,
        {
            table.push(Vec::new());
            i += 1;
        }
        let r = EndgameShared { best_keys: u16::MAX, table };
        assert(r.entries() =~= Seq::new(SHARD_COUNT as nat, |s: int| empty_shard()));
        r
    }

    /// Records a solution of `keys` keys: the best becomes the lower of the
    /// two.
    pub fn set_best(&mut self, keys: u16)
        requires
            old(self).wf(),
        ensures
            final(self).wf(),
            final(self).spec_best_keys() == if keys < old(self).spec_best_keys() {
                keys
            } else {
                old(self).spec_best_keys()
            },
            final(self).entries() == old(self).entries(),
    {
        if keys < self.best_keys {
            self.best_keys = keys;
        }
    }

    /// The fewest keys of any solution found so far.
    #[verifier::when_used_as_spec(spec_best_keys)]
    pub fn best_keys(&self) -> (k: u16)
        ensures
            k == self.spec_best_keys(),
    {
        self.best_keys
    }

    /// The shard of a state (see `shard_of`).
    fn shard(piece_pos: usize, meta: u16) -> (r: usize)
        requires
            piece_pos < ENDGAME_DEPTH,
            meta < 0x4000,
        ensures
            r == shard_of(piece_pos as int, meta),
            r < SHARD_COUNT,
    {
        proof {
            lemma_shard_bound(meta, piece_pos as u16);
        }
        (((meta & !LINES_CLEARED_MASK) >> 6) | piece_pos as u16) as usize
    }

    /// A shard of empty entries.
    fn fresh_shard() -> (v: Vec<TtEntry>)
        ensures
            v.len() == SHARD_CAPACITY,
            v@.map_values(|e: TtEntry| (e.key, e.keys_pressed)) == empty_shard(),
    {
        let mut v: Vec<TtEntry> = Vec::new();
        let mut i: usize = 0;
        while i < SHARD_CAPACITY
            invariant
                i <= SHARD_CAPACITY,
                v@.len() == i,
                forall|j: int| 0 <= j < i ==> (#[trigger] v@[j]).key == u64::MAX && v@[j].keys_pressed == u16::MAX,
            decreases SHARD_CAPACITY - i,
        {
            v.push(TtEntry { key: u64::MAX, keys_pressed: u16::MAX });
            i += 1;
        }
        assert(v@.map_values(|e: TtEntry| (e.key, e.keys_pressed)) =~= empty_shard());
        v
    }

    /// Visits the state `node`, `piece_pos` pieces into the endgame, and tells
    /// whether it is worth searching (see `probe`).
    pub fn visit(&mut self, piece_pos: usize, node: &SearchNode<BitBoard>) -> (r: bool)
        requires
            old(self).wf(),
            piece_pos < ENDGAME_DEPTH,
            node.meta < 0x4000,
        ensures
            final(self).wf(),
            final(self).spec_best_keys() == old(self).spec_best_keys(),
            ({
                let s = shard_of(piece_pos as int, node.meta);
                let (worth, shard) = probe(
                    old(self).entries()[s],
                    slot_of(node.state@),
                    node.state@,
                    node.keys_pressed,
                );
                r == worth && final(self).entries() == old(self).entries().update(s, shard)
            }),
    {
        let key = node.state.raw();
        let hash = key.wrapping_mul(HASH_MULTIPLIER);
        proof {
            lemma_and_le(hash, 0x3FFFE, 0, 0);
        }
        let idx1 = (hash & 0x3FFFE) as usize;
        let idx2 = idx1 + 1;
        let s = Self::shard(piece_pos, node.meta);
        let ghost before = self.entries();
        let mut shard: Vec<TtEntry> = Vec::new();
        self.table.set_and_swap(s, &mut shard);
        if shard.len() == 0 {
            shard = Self::fresh_shard();
        }
        let ghost view = shard@.map_values(|e: TtEntry| (e.key, e.keys_pressed));
        assert(view == before[s as int]);
        let e1 = shard[idx1];
        let e2 = shard[idx2];
        let kp = node.keys_pressed;
        let mut worth = true;
        if e1.key == key {
            if e1.keys_pressed <= kp {
                worth = false;
            } else {
                shard.set(idx1, TtEntry { key, keys_pressed: kp });
            }
        } else if e2.key == key {
            if e2.keys_pressed <= kp {
                worth = false;
            } else {
                shard.set(idx2, TtEntry { key, keys_pressed: kp });
            }
        } else if e1.keys_pressed > e2.keys_pressed {
            shard.set(idx1, TtEntry { key, keys_pressed: kp });
        } else {
            shard.set(idx2, TtEntry { key, keys_pressed: kp });
        }
        proof {
            let (w, sh) = probe(view, idx1 as int, key, kp);
            assert(w == worth);
            assert(shard@.map_values(|e: TtEntry| (e.key, e.keys_pressed)) =~= sh);
        }
        self.table.set(s, shard);
        proof {
            let (w, sh) = probe(before[s as int], slot_of(key), key, kp);
            assert(self.entries() =~= before.update(s as int, sh));
        }
        worth
    }
}

impl Default for EndgameShared {
    /// The same as `EndgameShared::new`.
    fn default() -> (r: Self)
        ensures
            r.wf(),
            r.spec_best_keys() == u16::MAX,
            r.entries() == Seq::new(SHARD_COUNT as nat, |s: int| empty_shard()),
    {
        Self::new()
    }
}

/// Whether some empty cell of the board lies right below a filled one.
pub open spec fn has_hole(w: u64) -> bool {
    !w & ((w & (ROW_MASK * 0x3E) as u64) >> 1u64) != 0
}

/// The order in which the endgame tries the moves from a node with `lines`
/// cleared lines: those without a hole first, then those that clear lines,
/// then by fewer keys, then by more cleared lines.
pub open spec fn move_key(lines: u16, n: SearchNode<BitBoard>) -> int {
    let cleared = (n.meta & LINES_CLEARED_MASK) - lines;
    (if has_hole(n.state@) {
        1int
    } else {
        0
    }) * 0x100_0000_0000 + (if cleared == 0 {
        1int
    } else {
        0
    }) * 0x1_0000_0000 + n.keys_pressed * 256 + (255 - cleared)
}

/// Whether node `n` lies between `lines` and six more cleared lines.
pub open spec fn clears_from(lines: u16, n: SearchNode<BitBoard>) -> bool {
    lines <= n.meta & LINES_CLEARED_MASK <= lines + 6
}

/// The sort key of a move (see `move_key`).
fn key_of(lines: u16, n: &SearchNode<BitBoard>) -> (k: u64)
    requires
        clears_from(lines, *n),
    ensures
        k == move_key(lines, *n),
{
    let w = n.state.raw();
    let cleared = (n.meta & LINES_CLEARED_MASK) - lines;
    let hole: u64 = if !w & ((w & (ROW_MASK * 0x3E)) >> 1) != 0 {
        1
    } else {
        0
    };
    let none: u64 = if cleared == 0 {
        1
    } else {
        0
    };
    hole * 0x100_0000_0000 + none * 0x1_0000_0000 + n.keys_pressed as u64 * 256 + (255 - cleared) as u64
}

/// Sorts the moves by `move_key`, keeping the order of moves with equal keys.
fn sort_moves(moves: &mut Vec<SearchNode<BitBoard>>, lines: u16)
    requires
        forall|k: int| 0 <= k < old(moves)@.len() ==> clears_from(lines, #[trigger] old(moves)@[k]),
    ensures
        final(moves)@.to_multiset() == old(moves)@.to_multiset(),
        forall|i: int, j: int|
            0 <= i < j < final(moves)@.len() ==> move_key(lines, #[trigger] final(moves)@[i]) <= move_key(
                lines,
                #[trigger] final(moves)@[j],
            ),
{
    let ghost orig = moves@;
    let n = moves.len();
    let mut sorted: Vec<SearchNode<BitBoard>> = Vec::new();
    let mut keys: Vec<u64> = Vec::new();
    let mut i: usize = 0;
    assert(orig.take(0) =~= sorted@);
    while i < n
        invariant
            n == orig.len(),
            moves@ == orig,
            forall|k: int| 0 <= k < orig.len() ==> clears_from(lines, #[trigger] orig[k]),
            0 <= i <= n,
            sorted@.to_multiset() == orig.take(i as int).to_multiset(),
            keys@.len() == sorted@.len(),
            forall|k: int| 0 <= k < sorted@.len() ==> keys@[k] == move_key(lines, #[trigger] sorted@[k]),
            forall|a: int, b: int| 0 <= a < b < keys@.len() ==> #[trigger] keys@[a] <= #[trigger] keys@[b],
        decreases n - i,
    {
        let m = moves[i];
        let k = key_of(lines, &m);
        let mut p: usize = 0;
        while p < keys.len() && keys[p] <= k
            invariant
                0 <= p <= keys@.len(),
                forall|t: int| 0 <= t < p ==> keys@[t] <= k,
            decreases keys@.len() - p,
        {
            p += 1;
        }
        let ghost before = sorted@;
        proof {
            assert(orig.take(i + 1) =~= orig.take(i as int).push(m));
        }
        sorted.insert(p, m);
        keys.insert(p, k);
        proof {
            assert(sorted@ == before.insert(p as int, m));
            vstd::seq_lib::to_multiset_insert(before, p as int, m);
            vstd::seq_lib::to_multiset_build(orig.take(i as int), m);
        }
        i += 1;
    }
    assert(orig.take(n as int) =~= orig);
    proof {
        assert forall|a: int, b: int| 0 <= a < b < sorted@.len() implies move_key(lines, #[trigger] sorted@[a])
            <= move_key(lines, #[trigger] sorted@[b]) by {
            assert(keys@[a] <= keys@[b]);
        }
    }
    *moves = sorted;
}

/// The node a path of endgame moves ends at: its last node, or `root` when
/// it is empty.
pub open spec fn path_end(root: SearchNode<BitBoard>, path: Seq<SearchNode<BitBoard>>) -> SearchNode<BitBoard> {
    if path.len() == 0 {
        root
    } else {
        path.last()
    }
}

/// Whether `path` is a run of moves from `root`: node `j` is a move from the
/// node before it with piece `start + j`, made at depth `j`.
pub open spec fn endgame_chain(
    root: SearchNode<BitBoard>,
    pieces: Seq<PieceType>,
    start: int,
    path: Seq<SearchNode<BitBoard>>,
) -> bool {
    forall|j: int|
        0 <= j < path.len() ==> {
            &&& start + j < pieces.len()
            &&& (#[trigger] path[j]).parent_idx == j
            &&& reachable(path_end(root, path.take(j)), pieces[start + j], path[j])
        }
}

/// Whether `path` from `root` reaches the target lines.
pub open spec fn solves(root: SearchNode<BitBoard>, path: Seq<SearchNode<BitBoard>>) -> bool {
    path_end(root, path).meta & LINES_CLEARED_MASK >= TARGET_LINES
}

/// Whether every node of `path` but its last is short of the target lines.
pub open spec fn short_until_last(path: Seq<SearchNode<BitBoard>>) -> bool {
    forall|j: int| 0 <= j < path.len() - 1 ==> (#[trigger] path[j]).meta & LINES_CLEARED_MASK < TARGET_LINES
}

/// Whether `path` is a solution from `root`: a run of moves within the
/// endgame's depth whose last node, and no other, reaches the target lines.
pub open spec fn is_solution(
    root: SearchNode<BitBoard>,
    pieces: Seq<PieceType>,
    start: int,
    path: Seq<SearchNode<BitBoard>>,
) -> bool {
    &&& endgame_chain(root, pieces, start, path)
    &&& solves(root, path)
    &&& path.len() <= ENDGAME_DEPTH
    &&& short_until_last(path)
}

/// Whether `best` is no solution yet, or a solution from `root` (see
/// `is_solution`).
pub open spec fn best_ok(
    root: SearchNode<BitBoard>,
    pieces: Seq<PieceType>,
    start: int,
    best: Seq<SearchNode<BitBoard>>,
) -> bool {
    best.len() == 0 || is_solution(root, pieces, start, best)
}

/// Whether solution `a` beats solution `b`: fewer final keys, or as many
/// and fewer moves.
pub open spec fn beats(root: SearchNode<BitBoard>, a: Seq<SearchNode<BitBoard>>, b: Seq<SearchNode<BitBoard>>) -> bool {
    final_keys(root, a) < final_keys(root, b) || (final_keys(root, a) == final_keys(root, b) && a.len() < b.len())
}

/// Whether `best` is the first of the least of the solutions `found`, in the
/// order found: none beats it, and it beats every one found before it. With
/// nothing found, `best` is empty.
pub open spec fn first_least(
    root: SearchNode<BitBoard>,
    found: Seq<Seq<SearchNode<BitBoard>>>,
    best: Seq<SearchNode<BitBoard>>,
) -> bool {
    if found.len() == 0 {
        best.len() == 0
    } else {
        exists|i: int|
            0 <= i < found.len() && #[trigger] found[i] == best && (forall|j: int|
                0 <= j < found.len() ==> !beats(root, #[trigger] found[j], best)) && (forall|j: int|
                0 <= j < i ==> beats(root, best, #[trigger] found[j]))
    }
}

/// Whether `s` starts with `p`.
pub open spec fn extends(s: Seq<SearchNode<BitBoard>>, p: Seq<SearchNode<BitBoard>>) -> bool {
    s.len() >= p.len() && s.take(p.len() as int) == p
}

/// Whether the solution `s` from `root` is accounted for: `best` is a
/// solution it does not beat, or its final keys exceed the shared best
/// `shared_best`, or it passes, at some move from `from` on, a node that the
/// table turned away (`refused` lists those, each with its piece position).
pub open spec fn covered(
    root: SearchNode<BitBoard>,
    s: Seq<SearchNode<BitBoard>>,
    best: Seq<SearchNode<BitBoard>>,
    shared_best: u16,
    refused: Seq<(SearchNode<BitBoard>, int)>,
    start: int,
    from: int,
) -> bool {
    ||| best.len() > 0 && !beats(root, s, best)
    ||| final_keys(root, s) > shared_best
    ||| exists|j: int| from <= j < s.len() && #[trigger] refused.contains((path_end(root, s.take(j)), start + j))
}

/// Whether every solution from `root` with the pieces from `start` on is
/// accounted for (see `covered`) by `best`, the shared best `shared_best` and
/// the nodes turned away `refused`.
pub open spec fn all_covered(
    root: SearchNode<BitBoard>,
    pieces: Seq<PieceType>,
    start: int,
    best: Seq<SearchNode<BitBoard>>,
    shared_best: u16,
    refused: Seq<(SearchNode<BitBoard>, int)>,
) -> bool {
    forall|s: Seq<SearchNode<BitBoard>>|
        #[trigger] is_solution(root, pieces, start, s) && s.len() > 0 ==> covered(
            root,
            s,
            best,
            shared_best,
            refused,
            start,
            0,
        )
}

/// Being accounted for lasts while the best only gets better, the shared
/// best only falls and the nodes turned away only grow.
proof fn lemma_covered_mono(
    root: SearchNode<BitBoard>,
    s: Seq<SearchNode<BitBoard>>,
    b1: Seq<SearchNode<BitBoard>>,
    sb1: u16,
    r1: Seq<(SearchNode<BitBoard>, int)>,
    b2: Seq<SearchNode<BitBoard>>,
    sb2: u16,
    r2: Seq<(SearchNode<BitBoard>, int)>,
    start: int,
    from1: int,
    from2: int,
)
    requires
        covered(root, s, b1, sb1, r1, start, from1),
        b1.len() > 0 ==> b2.len() > 0 && !beats(root, b1, b2),
        sb2 <= sb1,
        r2.len() >= r1.len(),
        r2.take(r1.len() as int) == r1,
        from2 <= from1,
    ensures
        covered(root, s, b2, sb2, r2, start, from2),
{
    if !(b1.len() > 0 && !beats(root, s, b1)) && !(final_keys(root, s) > sb1) {
        let j = choose|j: int| from1 <= j < s.len() && #[trigger] r1.contains((path_end(root, s.take(j)), start + j));
        let x = (path_end(root, s.take(j)), start + j);
        let i = choose|i: int| 0 <= i < r1.len() && r1[i] == x;
        assert(r2[i] == r2.take(r1.len() as int)[i]);
        assert(r2.contains(x));
    }
}

/// The first least of more solutions found is no worse than the first least
/// of fewer.
proof fn lemma_best_mono(
    root: SearchNode<BitBoard>,
    f1: Seq<Seq<SearchNode<BitBoard>>>,
    b1: Seq<SearchNode<BitBoard>>,
    f2: Seq<Seq<SearchNode<BitBoard>>>,
    b2: Seq<SearchNode<BitBoard>>,
)
    requires
        first_least(root, f1, b1),
        first_least(root, f2, b2),
        f2.len() >= f1.len(),
        f2.take(f1.len() as int) == f1,
        f1.len() > 0,
    ensures
        f2.len() > 0,
        !beats(root, b1, b2),
{
    let i = choose|i: int|
        0 <= i < f1.len() && #[trigger] f1[i] == b1 && (forall|j: int|
            0 <= j < f1.len() ==> !beats(root, #[trigger] f1[j], b1)) && (forall|j: int|
            0 <= j < i ==> beats(root, b1, #[trigger] f1[j]));
    assert(f2[i] == f2.take(f1.len() as int)[i]);
    assert(f2[i] == b1);
}

/// The keys of the solution `path` from `root`.
pub open spec fn final_keys(root: SearchNode<BitBoard>, path: Seq<SearchNode<BitBoard>>) -> u16 {
    path_end(root, path).keys_pressed
}

/// The depth-first search of the endgame: the pieces, and the best path
/// found so far.
struct Dfs<'a> {
    pieces: &'a [PieceType],
    best_path: Vec<SearchNode<BitBoard>>,
    /// The solutions recorded so far, in the order found.
    found: Ghost<Seq<Seq<SearchNode<BitBoard>>>>,
    /// The nodes that the table turned away, each with its piece position.
    refused: Ghost<Seq<(SearchNode<BitBoard>, int)>>,
}

/// A copy of a path.
fn copy_path(path: &Vec<SearchNode<BitBoard>>) -> (r: Vec<SearchNode<BitBoard>>)
    ensures
        r@ == path@,
{
    let mut r: Vec<SearchNode<BitBoard>> = Vec::new();
    let mut i: usize = 0;
    while i < path.len()
        invariant
            i <= path@.len(),
            r@ == path@.take(i as int),
        decreases path@.len() - i,
    {
        r.push(path[i]);
        proof {
            assert(path@.take(i + 1) =~= path@.take(i as int).push(path@[i as int]));
        }
        i += 1;
    }
    assert(path@.take(path@.len() as int) =~= path@);
    r
}

/// The fewest pieces that can bring the board of `node`, short of the
/// target, to the target lines: the cells still to fill, four to a piece.
pub open spec fn spec_pieces_needed(node: SearchNode<BitBoard>) -> int {
    let cells = (TARGET_LINES - (node.meta & LINES_CLEARED_MASK)) * 10;
    let occupied = popcount(node.state@);
    if cells > occupied {
        (cells - occupied) / 4
    } else {
        0
    }
}

/// The fewest pieces that can bring `node` to the target lines (see
/// `spec_pieces_needed`).
fn pieces_needed(node: &SearchNode<BitBoard>) -> (r: u16)
    requires
        node.meta & LINES_CLEARED_MASK < TARGET_LINES,
    ensures
        r == spec_pieces_needed(*node),
        r <= 100,
{
    let lines = node.meta & LINES_CLEARED_MASK;
    let remaining_lines = TARGET_LINES - lines;
    if remaining_lines == 0 {
        0
    } else {
        let cells = remaining_lines * 10;
        let occupied = node.state.occupied_cells();
        if cells > occupied {
            (cells - occupied) / 4
        } else {
            0
        }
    }
}

/// Whether the search expands `node`, the piece at `piece_idx` of `n` next,
/// `depth` moves into the endgame, against the best keys `best` and the
/// table entries `entries`: it is short of the target lines, a piece is left
/// and the depth allows a move, the target is within reach of the pieces left
/// and of the best keys, and the table has not seen it with as few keys.
pub open spec fn expands(
    entries: Seq<Seq<(u64, u16)>>,
    best: u16,
    node: SearchNode<BitBoard>,
    piece_idx: int,
    n: int,
    depth: int,
) -> bool {
    &&& node.meta & LINES_CLEARED_MASK < TARGET_LINES
    &&& piece_idx < n
    &&& depth < ENDGAME_DEPTH
    &&& spec_pieces_needed(node) <= n - piece_idx
    &&& node.keys_pressed + spec_pieces_needed(node) <= best
    &&& probe(entries[shard_of(piece_idx, node.meta)], slot_of(node.state@), node.state@, node.keys_pressed).0
}

/// Whether a move from `node` with `piece`, made at depth `depth`, reaches
/// the target lines with no more than `best` keys.
pub open spec fn solved_in_one(node: SearchNode<BitBoard>, piece: PieceType, depth: usize, best: u16) -> bool {
    exists|t: int|
        0 <= t < all_moves(node, piece, depth).len() && #[trigger] all_moves(node, piece, depth)[t].0.meta
            & LINES_CLEARED_MASK >= TARGET_LINES && all_moves(node, piece, depth)[t].0.keys_pressed <= best
}

/// A run of moves stays one when a move from its end, with the next piece,
/// is added.
proof fn lemma_chain_push(
    root: SearchNode<BitBoard>,
    pieces: Seq<PieceType>,
    start: int,
    path: Seq<SearchNode<BitBoard>>,
    next: SearchNode<BitBoard>,
)
    requires
        endgame_chain(root, pieces, start, path),
        start + path.len() < pieces.len(),
        next.parent_idx == path.len(),
        reachable(path_end(root, path), pieces[start + path.len()], next),
    ensures
        endgame_chain(root, pieces, start, path.push(next)),
        path_end(root, path.push(next)) == next,
{
    let p = path.push(next);
    assert forall|j: int| 0 <= j < p.len() implies {
        &&& start + j < pieces.len()
        &&& (#[trigger] p[j]).parent_idx == j
        &&& reachable(path_end(root, p.take(j)), pieces[start + j], p[j])
    } by {
        if j < path.len() {
            assert(p.take(j) =~= path.take(j));
            assert(p[j] == path[j]);
        } else {
            assert(p.take(j) =~= path);
        }
    }
}

proof fn lemma_first_least_member(
    root: SearchNode<BitBoard>,
    f: Seq<Seq<SearchNode<BitBoard>>>,
    b: Seq<SearchNode<BitBoard>>,
    j: int,
)
    requires
        first_least(root, f, b),
        0 <= j < f.len(),
    ensures
        !beats(root, f[j], b),
{
    let i = choose|i: int|
        0 <= i < f.len() && #[trigger] f[i] == b && (forall|j: int|
            0 <= j < f.len() ==> !beats(root, #[trigger] f[j], b)) && (forall|j: int|
            0 <= j < i ==> beats(root, b, #[trigger] f[j]));
    assert(!beats(root, f[j], b));
}

/// What a solution that extends `path`, whose end is short of the target
/// lines, gives: it has a next move, from the end of `path` with the next
/// piece, the piece and the depth allow that move, and the moves left are at
/// least the pieces needed and bring at least a key each.
proof fn lemma_solution_beyond(
    root: SearchNode<BitBoard>,
    pieces: Seq<PieceType>,
    start: int,
    path: Seq<SearchNode<BitBoard>>,
    s: Seq<SearchNode<BitBoard>>,
)
    requires
        is_solution(root, pieces, start, s),
        extends(s, path),
        path_end(root, path).meta & LINES_CLEARED_MASK < TARGET_LINES,
    ensures
        s.len() > path.len(),
        path.len() < ENDGAME_DEPTH,
        start + path.len() < pieces.len(),
        s.len() - path.len() <= pieces.len() - (start + path.len()),
        s[path.len() as int].parent_idx == path.len(),
        reachable(path_end(root, path), pieces[start + path.len()], s[path.len() as int]),
        s.take(path.len() as int + 1) == path.push(s[path.len() as int]),
        spec_pieces_needed(path_end(root, path)) <= s.len() - path.len(),
        final_keys(root, s) >= path_end(root, path).keys_pressed + (s.len() - path.len()),
        final_keys(root, s) >= s[path.len() as int].keys_pressed,
{
    let l = path.len() as int;
    if s.len() == l {
        assert(s.take(l) =~= s);
        assert(false);
    }
    assert(s[l].parent_idx == l);
    assert(s[s.len() - 1].parent_idx == s.len() - 1);
    assert(s.take(l + 1) =~= path.push(s[l]));
    crate::endgame::budget::lemma_moves_left(root, pieces, start, s, l);
    crate::endgame::budget::lemma_moves_left(root, pieces, start, s, l + 1);
    assert(path_end(root, s.take(l + 1)) == s[l]);
}

/// A solution whose next move is `next` extends the path with `next`, and
/// stays within reach of the search from there.
proof fn lemma_solution_next(
    path: Seq<SearchNode<BitBoard>>,
    s: Seq<SearchNode<BitBoard>>,
    next: SearchNode<BitBoard>,
)
    requires
        extends(s, path),
        s.len() > path.len(),
        s[path.len() as int] == next,
        short_until_last(s),
    ensures
        extends(s, path.push(next)),
        s.len() == path.len() + 1 || next.meta & LINES_CLEARED_MASK < TARGET_LINES,
{
    assert(s.take(path.len() as int + 1) =~= path.push(next)) by {
        assert forall|j: int| 0 <= j < path.len() implies s.take(path.len() as int + 1)[j] == path.push(next)[j] by {
            assert(s.take(path.len() as int)[j] == path[j]);
        }
    }
    if s.len() > path.len() + 1 {
        assert(s[path.len() as int] == next);
    }
}

/// One more move of the loop over the moves from the end of `old_path`: the
/// solutions whose next move is one of the first `k + 1` are accounted for,
/// from the state before the move was tried (where the first `k` were) and
/// what trying it gave.
#[verifier::spinoff_prover]
#[verifier::rlimit(60)]
proof fn lemma_loop_cover(
    root: SearchNode<BitBoard>,
    pieces: Seq<PieceType>,
    start: int,
    old_path: Seq<SearchNode<BitBoard>>,
    moves: Seq<SearchNode<BitBoard>>,
    k: int,
    b0: Seq<SearchNode<BitBoard>>,
    sb0: u16,
    r0: Seq<(SearchNode<BitBoard>, int)>,
    f0: Seq<Seq<SearchNode<BitBoard>>>,
    b1: Seq<SearchNode<BitBoard>>,
    sb1: u16,
    r1: Seq<(SearchNode<BitBoard>, int)>,
    f1: Seq<Seq<SearchNode<BitBoard>>>,
    recursed: bool,
)
    requires
        0 <= k < moves.len(),
        path_end(root, old_path).meta & LINES_CLEARED_MASK < TARGET_LINES,
        forall|s: Seq<SearchNode<BitBoard>>|
            #[trigger] is_solution(root, pieces, start, s) && extends(s, old_path) && s.len() > old_path.len() && (exists|t: int|
                0 <= t < k && moves[t] == s[old_path.len() as int]) ==> covered(root, s, b0, sb0, r0, start, old_path.len() as int),
        first_least(root, f0, b0),
        first_least(root, f1, b1),
        f1.len() >= f0.len(),
        f1.take(f0.len() as int) == f0,
        b0.len() == 0 ==> f0.len() == 0,
        b1.len() == 0 ==> f1.len() == 0,
        sb1 <= sb0,
        r1.len() >= r0.len(),
        r1.take(r0.len() as int) == r0,
        !recursed ==> moves[k].keys_pressed > sb0,
        recursed ==> forall|s: Seq<SearchNode<BitBoard>>|
            #[trigger] is_solution(root, pieces, start, s) && extends(s, old_path.push(moves[k])) && s.len() > 0 && (s.len()
                == old_path.len() + 1 || moves[k].meta & LINES_CLEARED_MASK < TARGET_LINES) ==> covered(
                root,
                s,
                b1,
                sb1,
                r1,
                start,
                old_path.len() as int + 1,
            ),
    ensures
        forall|s: Seq<SearchNode<BitBoard>>|
            #[trigger] is_solution(root, pieces, start, s) && extends(s, old_path) && s.len() > old_path.len() && (exists|t: int|
                0 <= t < k + 1 && moves[t] == s[old_path.len() as int]) ==> covered(root, s, b1, sb1, r1, start, old_path.len() as int),
{
    let l = old_path.len() as int;
    let next = moves[k];
    assert(r1.take(r1.len() as int) =~= r1);
    if b0.len() > 0 {
        lemma_best_mono(root, f0, b0, f1, b1);
    }
    assert forall|s: Seq<SearchNode<BitBoard>>|
        #[trigger] is_solution(root, pieces, start, s) && extends(s, old_path) && s.len() > old_path.len() && (exists|t: int|
            0 <= t < k + 1 && moves[t] == s[old_path.len() as int]) implies covered(root, s, b1, sb1, r1, start, l) by {
        if s[l] == next {
            lemma_solution_beyond(root, pieces, start, old_path, s);
            lemma_solution_next(old_path, s, next);
            if recursed {
                assert(covered(root, s, b1, sb1, r1, start, l + 1));
                lemma_covered_mono(root, s, b1, sb1, r1, b1, sb1, r1, start, l + 1, l);
            } else {
                assert(final_keys(root, s) > sb1);
            }
        } else {
            let t = choose|t: int| 0 <= t < k + 1 && moves[t] == s[l];
            assert(t < k);
            assert(exists|t: int| 0 <= t < k && moves[t] == s[l]);
            assert(covered(root, s, b0, sb0, r0, start, l));
            lemma_covered_mono(root, s, b0, sb0, r0, b1, sb1, r1, start, l, l);
        }
    }
}

impl<'a> Dfs<'a> {
    /// Records `path` from `root`, which reaches the target lines: it becomes
    /// the best path where it has fewer keys, or as many keys and fewer moves,
    /// and its keys go to `shared`.
    fn record(
        &mut self,
        shared: &mut EndgameShared,
        node: &SearchNode<BitBoard>,
        path: &Vec<SearchNode<BitBoard>>,
        Ghost(root): Ghost<SearchNode<BitBoard>>,
        Ghost(start): Ghost<int>,
    )
        requires
            old(shared).wf(),
            endgame_chain(root, old(self).pieces@, start, path@),
            path@.len() <= ENDGAME_DEPTH,
            *node == path_end(root, path@),
            node.meta & LINES_CLEARED_MASK >= TARGET_LINES,
            short_until_last(path@),
            best_ok(root, old(self).pieces@, start, old(self).best_path@),
            old(self).best_path@.len() > 0 ==> old(shared).spec_best_keys() <= final_keys(
                root,
                old(self).best_path@,
            ),
            first_least(root, old(self).found@, old(self).best_path@),
            old(self).best_path@.len() == 0 ==> old(self).found@.len() == 0,
            path@.len() > 0 || old(self).found@.len() == 0,
        ensures
            final(shared).wf(),
            final(shared).spec_best_keys() <= old(shared).spec_best_keys(),
            final(self).pieces == old(self).pieces,
            best_ok(root, old(self).pieces@, start, final(self).best_path@),
            final(self).found@ == old(self).found@.push(path@),
            final(self).refused == old(self).refused,
            first_least(root, final(self).found@, final(self).best_path@),
            path@.len() > 0 ==> final(self).best_path@.len() > 0,
            final(self).best_path@.len() > 0 ==> final(shared).spec_best_keys() <= final_keys(
                root,
                final(self).best_path@,
            ),
    {
        let final_keys = if path.len() == 0 {
            node.keys_pressed
        } else {
            path[path.len() - 1].keys_pressed
        };
        let better = if self.best_path.len() == 0 {
            true
        } else {
            let last = self.best_path[self.best_path.len() - 1].keys_pressed;
            final_keys < last || (final_keys == last && path.len() < self.best_path.len())
        };
        let ghost old_found = self.found@;
        let ghost old_best = self.best_path@;
        proof {
            if old_found.len() > 0 {
                assert(path@.len() > 0);
                assert(better == beats(root, path@, old_best));
            }
        }
        if better {
            self.best_path = copy_path(path);
        }
        self.found = Ghost(old_found.push(path@));
        proof {
            let nf = old_found.push(path@);
            if old_found.len() == 0 {
                assert(nf[0] == self.best_path@);
            } else {
                let i = choose|i: int|
                    0 <= i < old_found.len() && #[trigger] old_found[i] == old_best && (forall|j: int|
                        0 <= j < old_found.len() ==> !beats(root, #[trigger] old_found[j], old_best)) && (forall|j: int|
                        0 <= j < i ==> beats(root, old_best, #[trigger] old_found[j]));
                if better {
                    let ni = old_found.len() as int;
                    assert(nf[ni] == self.best_path@);
                    assert forall|j: int| 0 <= j < nf.len() implies !beats(root, #[trigger] nf[j], self.best_path@) by {
                        if j < old_found.len() {
                            assert(nf[j] == old_found[j]);
                            assert(!beats(root, old_found[j], old_best));
                        }
                    }
                    assert forall|j: int| 0 <= j < ni implies beats(root, self.best_path@, #[trigger] nf[j]) by {
                        assert(nf[j] == old_found[j]);
                        assert(!beats(root, old_found[j], old_best));
                    }
                } else {
                    assert(nf[i] == old_best);
                    assert forall|j: int| 0 <= j < nf.len() implies !beats(root, #[trigger] nf[j], old_best) by {
                        if j < old_found.len() {
                            assert(nf[j] == old_found[j]);
                        }
                    }
                    assert forall|j: int| 0 <= j < i implies beats(root, old_best, #[trigger] nf[j]) by {
                        assert(nf[j] == old_found[j]);
                    }
                }
            }
        }
        shared.set_best(final_keys);
    }

    /// Searches on from `node`, the end of `path` from `root` with the piece
    /// at `piece_idx` to place next. A path that reaches the target lines
    /// is added to the solutions found, and becomes the best one where it has
    /// fewer keys, or as many keys and fewer moves, so that the best is always
    /// the first least of those found; its keys are recorded in `shared`
    /// either way. A node is not
    /// expanded past the endgame's depth or the pieces, where the target is
    /// out of reach of the pieces left or of the best keys, or where the table
    /// has seen it with no more keys; its moves are tried in `move_key` order,
    /// each while it has no more keys than the best.
    #[verifier::spinoff_prover]
    #[verifier::rlimit(100)]
    fn search(
        &mut self,
        shared: &mut EndgameShared,
        node: SearchNode<BitBoard>,
        piece_idx: usize,
        path: &mut Vec<SearchNode<BitBoard>>,
        Ghost(root): Ghost<SearchNode<BitBoard>>,
        Ghost(start): Ghost<int>,
    )
        requires
            old(shared).wf(),
            old(self).pieces@.len() <= ENDGAME_DEPTH,
            forall|j: int| start <= j < old(self).pieces@.len() ==> old(self).pieces@[j] != PieceType::Empty,
            endgame_chain(root, old(self).pieces@, start, old(path)@),
            old(path)@.len() <= ENDGAME_DEPTH,
            node == path_end(root, old(path)@),
            piece_idx == start + old(path)@.len(),
            0 <= start,
            node.state.board_wf(),
            node.meta < 0x4000,
            node.meta & LINES_CLEARED_MASK >= TARGET_LINES - 4,
            node.keys_pressed <= root.keys_pressed + 5 * old(path)@.len(),
            root.keys_pressed + 135 <= u16::MAX,
            best_ok(root, old(self).pieces@, start, old(self).best_path@),
            old(self).best_path@.len() > 0 ==> old(shared).spec_best_keys() <= final_keys(
                root,
                old(self).best_path@,
            ),
            short_until_last(old(path)@),
            first_least(root, old(self).found@, old(self).best_path@),
            old(self).best_path@.len() == 0 ==> old(self).found@.len() == 0,
            old(path)@.len() > 0 || old(self).found@.len() == 0,
        ensures
            final(shared).wf(),
            final(shared).spec_best_keys() <= old(shared).spec_best_keys(),
            final(path)@ == old(path)@,
            final(self).pieces == old(self).pieces,
            best_ok(root, old(self).pieces@, start, final(self).best_path@),
            first_least(root, final(self).found@, final(self).best_path@),
            old(self).found@.len() <= final(self).found@.len(),
            final(self).found@.take(old(self).found@.len() as int) == old(self).found@,
            forall|i: int|
                old(self).found@.len() <= i < final(self).found@.len() ==> is_solution(
                    root,
                    old(self).pieces@,
                    start,
                    #[trigger] final(self).found@[i],
                ) && final(self).found@[i].len() >= old(path)@.len() && final(self).found@[i].take(
                    old(path)@.len() as int,
                ) == old(path)@,
            old(path)@.len() > 0 ==> (final(self).best_path@.len() == 0 ==> final(self).found@.len() == 0),
            final(self).refused@.len() >= old(self).refused@.len(),
            final(self).refused@.take(old(self).refused@.len() as int) == old(self).refused@,
            forall|s: Seq<SearchNode<BitBoard>>|
                #[trigger] is_solution(root, old(self).pieces@, start, s) && extends(s, old(path)@) && s.len() > 0 && (
                s.len() == old(path)@.len() || node.meta & LINES_CLEARED_MASK < TARGET_LINES) ==> covered(
                    root,
                    s,
                    final(self).best_path@,
                    final(shared).spec_best_keys(),
                    final(self).refused@,
                    start,
                    old(path)@.len() as int,
                ),
            final(self).best_path@.len() > 0 ==> final(shared).spec_best_keys() <= final_keys(
                root,
                final(self).best_path@,
            ),
            old(path)@.len() > 0 && old(self).best_path@.len() > 0 ==> final(self).best_path@.len() > 0,
            old(path)@.len() > 0 && final(shared).spec_best_keys() < old(shared).spec_best_keys()
                ==> final(self).best_path@.len() > 0,
            old(path)@.len() > 0 && node.meta & LINES_CLEARED_MASK >= TARGET_LINES ==> final(self).best_path@.len() > 0,
            expands(old(shared).entries(), old(shared).spec_best_keys(), node, piece_idx as int, old(self).pieces@.len() as int, old(path)@.len() as int)
                && solved_in_one(node, old(self).pieces@[piece_idx as int], old(path)@.len() as usize, old(shared).spec_best_keys())
                ==> final(self).best_path@.len() > 0,
        decreases ENDGAME_DEPTH - old(path)@.len(),
    {
        proof {
            assert(self.found@.take(self.found@.len() as int) =~= self.found@);
            assert(self.refused@.take(self.refused@.len() as int) =~= self.refused@);
        }
        let lines = node.meta & LINES_CLEARED_MASK;
        if lines >= TARGET_LINES {
            self.record(shared, &node, path, Ghost(root), Ghost(start));
            proof {
                let f = self.found@;
                let n0 = old(self).found@.len();
                assert(f.take(n0 as int) =~= old(self).found@);
                assert(f[n0 as int] == path@);
                assert(path@.take(path@.len() as int) =~= path@);
                assert forall|s: Seq<SearchNode<BitBoard>>|
                    #[trigger] is_solution(root, old(self).pieces@, start, s) && extends(s, old(path)@) && s.len() > 0
                        && (s.len() == old(path)@.len() || node.meta & LINES_CLEARED_MASK < TARGET_LINES) implies covered(
                    root,
                    s,
                    self.best_path@,
                    shared.spec_best_keys(),
                    self.refused@,
                    start,
                    old(path)@.len() as int,
                ) by {
                    assert(s.take(s.len() as int) =~= s);
                    assert(s =~= path@);
                    lemma_first_least_member(root, f, self.best_path@, n0 as int);
                }
            }
            return;
        }
        if piece_idx >= self.pieces.len() || path.len() >= ENDGAME_DEPTH {
            proof {
                assert forall|s: Seq<SearchNode<BitBoard>>|
                    #[trigger] is_solution(root, old(self).pieces@, start, s) && extends(s, old(path)@) && s.len() > 0
                        && (s.len() == old(path)@.len() || node.meta & LINES_CLEARED_MASK < TARGET_LINES) implies covered(
                    root,
                    s,
                    self.best_path@,
                    shared.spec_best_keys(),
                    self.refused@,
                    start,
                    old(path)@.len() as int,
                ) by {
                    lemma_solution_beyond(root, old(self).pieces@, start, old(path)@, s);
                }
            }
            return;
        }
        let pieces_left = self.pieces.len() - piece_idx;
        let min_pieces = pieces_needed(&node);
        if min_pieces as usize > pieces_left {
            proof {
                assert forall|s: Seq<SearchNode<BitBoard>>|
                    #[trigger] is_solution(root, old(self).pieces@, start, s) && extends(s, old(path)@) && s.len() > 0
                        && (s.len() == old(path)@.len() || node.meta & LINES_CLEARED_MASK < TARGET_LINES) implies covered(
                    root,
                    s,
                    self.best_path@,
                    shared.spec_best_keys(),
                    self.refused@,
                    start,
                    old(path)@.len() as int,
                ) by {
                    lemma_solution_beyond(root, old(self).pieces@, start, old(path)@, s);
                }
            }
            return;
        }
        if node.keys_pressed + min_pieces > shared.best_keys() {
            proof {
                assert forall|s: Seq<SearchNode<BitBoard>>|
                    #[trigger] is_solution(root, old(self).pieces@, start, s) && extends(s, old(path)@) && s.len() > 0
                        && (s.len() == old(path)@.len() || node.meta & LINES_CLEARED_MASK < TARGET_LINES) implies covered(
                    root,
                    s,
                    self.best_path@,
                    shared.spec_best_keys(),
                    self.refused@,
                    start,
                    old(path)@.len() as int,
                ) by {
                    lemma_solution_beyond(root, old(self).pieces@, start, old(path)@, s);
                }
            }
            return;
        }
        if !shared.visit(piece_idx, &node) {
            self.refused = Ghost(self.refused@.push((node, piece_idx as int)));
            proof {
                let r0 = old(self).refused@;
                assert(self.refused@.take(r0.len() as int) =~= r0);
                assert forall|s: Seq<SearchNode<BitBoard>>|
                    #[trigger] is_solution(root, old(self).pieces@, start, s) && extends(s, old(path)@) && s.len() > 0
                        && (s.len() == old(path)@.len() || node.meta & LINES_CLEARED_MASK < TARGET_LINES) implies covered(
                    root,
                    s,
                    self.best_path@,
                    shared.spec_best_keys(),
                    self.refused@,
                    start,
                    old(path)@.len() as int,
                ) by {
                    lemma_solution_beyond(root, old(self).pieces@, start, old(path)@, s);
                    let l = old(path)@.len() as int;
                    assert(s.take(l) == old(path)@);
                    assert(self.refused@[r0.len() as int] == (node, piece_idx as int));
                    assert(self.refused@.contains((path_end(root, s.take(l)), start + l)));
                }
            }
            return;
        }
        let piece = self.pieces[piece_idx];
        let depth = path.len();
        assert(can_expand(node, piece));
        let mut moves: Vec<SearchNode<BitBoard>> = Vec::new();
        let mut sink = NoReplay;
        generate_moves(&mut moves, &mut sink, &node, piece, depth);
        let ghost generated = moves@;
        proof {
            assert(generated =~= all_moves(node, piece, depth).map_values(|q: (SearchNode<BitBoard>, crate::movegen::ReplayMove)| q.0));
            assert forall|k: int| 0 <= k < generated.len() implies clears_from(lines, #[trigger] generated[k]) by {
                assert(generated[k] == all_moves(node, piece, depth)[k].0);
            }
        }
        sort_moves(&mut moves, lines);
        let ghost old_path = path@;
        let n = moves.len();
        let mut k: usize = 0;
        while k < n
            invariant
                n == moves@.len(),
                0 <= k <= n,
                moves@.to_multiset() == generated.to_multiset(),
                generated == all_moves(node, piece, depth).map_values(
                    |q: (SearchNode<BitBoard>, crate::movegen::ReplayMove)| q.0,
                ),
                forall|t: int|
                    0 <= t < all_moves(node, piece, depth).len() ==> follows(
                        node,
                        #[trigger] all_moves(node, piece, depth)[t].0,
                        5,
                    ) && all_moves(node, piece, depth)[t].0.parent_idx == depth,
                can_expand(node, piece),
                piece == self.pieces@[piece_idx as int],
                self.pieces == old(self).pieces,
                depth == old_path.len(),
                path@ == old_path,
                old_path == old(path)@,
                old_path.len() < ENDGAME_DEPTH,
                piece_idx < self.pieces@.len(),
                self.pieces@.len() <= ENDGAME_DEPTH,
                forall|j: int| start <= j < self.pieces@.len() ==> self.pieces@[j] != PieceType::Empty,
                endgame_chain(root, self.pieces@, start, old_path),
                node == path_end(root, old_path),
                piece_idx == start + old_path.len(),
                0 <= start,
                node.meta & LINES_CLEARED_MASK >= TARGET_LINES - 4,
                node.keys_pressed <= root.keys_pressed + 5 * old_path.len(),
                root.keys_pressed + 135 <= u16::MAX,
                shared.wf(),
                shared.spec_best_keys() <= old(shared).spec_best_keys(),
                best_ok(root, self.pieces@, start, self.best_path@),
                self.best_path@.len() > 0 ==> shared.spec_best_keys() <= final_keys(root, self.best_path@),
                old(self).best_path@.len() > 0 ==> self.best_path@.len() > 0,
                shared.spec_best_keys() < old(shared).spec_best_keys() ==> self.best_path@.len() > 0,
                forall|t: int|
                    0 <= t < k && (#[trigger] moves@[t]).meta & LINES_CLEARED_MASK >= TARGET_LINES
                        && moves@[t].keys_pressed <= old(shared).spec_best_keys() ==> self.best_path@.len() > 0,
                node.meta & LINES_CLEARED_MASK < TARGET_LINES,
                short_until_last(old_path),
                first_least(root, self.found@, self.best_path@),
                self.best_path@.len() == 0 ==> self.found@.len() == 0,
                old(self).found@.len() <= self.found@.len(),
                self.found@.take(old(self).found@.len() as int) == old(self).found@,
                forall|i: int|
                    old(self).found@.len() <= i < self.found@.len() ==> is_solution(
                        root,
                        self.pieces@,
                        start,
                        #[trigger] self.found@[i],
                    ) && self.found@[i].len() >= old_path.len() && self.found@[i].take(old_path.len() as int)
                        == old_path,
                self.refused@.len() >= old(self).refused@.len(),
                self.refused@.take(old(self).refused@.len() as int) == old(self).refused@,
                forall|s: Seq<SearchNode<BitBoard>>|
                    #[trigger] is_solution(root, self.pieces@, start, s) && extends(s, old_path) && s.len() > old_path.len()
                        && (exists|t: int| 0 <= t < k && moves@[t] == s[old_path.len() as int]) ==> covered(
                        root,
                        s,
                        self.best_path@,
                        shared.spec_best_keys(),
                        self.refused@,
                        start,
                        old_path.len() as int,
                    ),
            decreases n - k,
        {
            let next = moves[k];
            proof {
                vstd::seq_lib::to_multiset_contains(moves@, next);
                vstd::seq_lib::to_multiset_contains(generated, next);
                assert(moves@.contains(next));
                assert(generated.contains(next));
                let t = choose|t: int| 0 <= t < generated.len() && generated[t] == next;
                assert(all_moves(node, piece, depth)[t].0 == next);
                assert(follows(node, next, 5));
                assert(reachable(node, piece, next));
            }
            let ghost b0 = self.best_path@;
            let ghost sb0 = shared.spec_best_keys();
            let ghost r0 = self.refused@;
            let ghost f0 = self.found@;
            let ghost mut recursed = false;
            if next.keys_pressed <= shared.best_keys() {
                proof {
                    recursed = true;
                }
                path.push(next);
                proof {
                    lemma_chain_push(root, self.pieces@, start, old_path, next);
                    assert forall|j: int| 0 <= j < path@.len() - 1 implies (#[trigger] path@[j]).meta
                        & LINES_CLEARED_MASK < TARGET_LINES by {
                        assert(path@[j] == old_path[j]);
                        if j == old_path.len() - 1 {
                            assert(old_path[j] == node);
                        }
                    }
                }
                self.search(shared, next, piece_idx + 1, path, Ghost(root), Ghost(start));
                path.pop();
                proof {
                    assert(path@ =~= old_path);
                    let f = self.found@;
                    let n0 = old(self).found@.len() as int;
                    assert(f.take(f0.len() as int) == f0);
                    assert(f.take(n0) =~= old(self).found@) by {
                        assert forall|i: int| 0 <= i < n0 implies f.take(n0)[i] == old(self).found@[i] by {
                            assert(f[i] == f.take(f0.len() as int)[i]);
                            assert(f0[i] == f0.take(n0)[i]);
                        }
                    }
                    assert forall|i: int| n0 <= i < f.len() implies is_solution(root, self.pieces@, start, #[trigger] f[i])
                        && f[i].len() >= old_path.len() && f[i].take(old_path.len() as int) == old_path by {
                        if i < f0.len() {
                            assert(f[i] == f.take(f0.len() as int)[i]);
                        } else {
                            let q = old_path.push(next);
                            assert(f[i].take(q.len() as int) == q);
                            assert(f[i].take(old_path.len() as int) =~= old_path) by {
                                assert forall|j: int| 0 <= j < old_path.len() implies f[i].take(old_path.len() as int)[j]
                                    == old_path[j] by {
                                    assert(f[i].take(q.len() as int)[j] == q[j]);
                                }
                            }
                        }
                    }
                    assert(self.refused@.take(r0.len() as int) == r0);
                    assert(self.refused@.take(old(self).refused@.len() as int) =~= old(self).refused@) by {
                        assert forall|i: int| 0 <= i < old(self).refused@.len() implies self.refused@[i]
                            == old(self).refused@[i] by {
                            assert(self.refused@[i] == self.refused@.take(r0.len() as int)[i]);
                            assert(r0[i] == r0.take(old(self).refused@.len() as int)[i]);
                        }
                    }
                }
            } else {
                proof {
                    assert(self.refused@.take(r0.len() as int) =~= r0);
                    assert(self.found@.take(f0.len() as int) =~= f0);
                }
            }
            proof {
                assert(moves@[k as int] == next);
                lemma_loop_cover(
                    root,
                    self.pieces@,
                    start,
                    old_path,
                    moves@,
                    k as int,
                    b0,
                    sb0,
                    r0,
                    f0,
                    self.best_path@,
                    shared.spec_best_keys(),
                    self.refused@,
                    self.found@,
                    recursed,
                );
            }
            k += 1;
        }
        proof {
            assert forall|s: Seq<SearchNode<BitBoard>>|
                #[trigger] is_solution(root, old(self).pieces@, start, s) && extends(s, old(path)@) && s.len() > 0 && (
                s.len() == old(path)@.len() || node.meta & LINES_CLEARED_MASK < TARGET_LINES) implies covered(
                root,
                s,
                self.best_path@,
                shared.spec_best_keys(),
                self.refused@,
                start,
                old(path)@.len() as int,
            ) by {
                lemma_solution_beyond(root, old(self).pieces@, start, old(path)@, s);
                let l = old_path.len() as int;
                let ms = all_moves(node, piece, depth);
                let t0 = choose|t: int| 0 <= t < ms.len() && ms[t].0 == s[l];
                assert(generated[t0] == s[l]);
                assert(generated.contains(s[l]));
                vstd::seq_lib::to_multiset_contains(generated, s[l]);
                vstd::seq_lib::to_multiset_contains(moves@, s[l]);
                assert(moves@.contains(s[l]));
                let t = choose|t: int| 0 <= t < moves@.len() && moves@[t] == s[l];
                assert(exists|t: int| 0 <= t < n && moves@[t] == s[l]);
            }
        }
        proof {
            let best0 = old(shared).spec_best_keys();
            if solved_in_one(node, piece, depth, best0) {
                let ms = all_moves(node, piece, depth);
                let t = choose|t: int|
                    0 <= t < ms.len() && #[trigger] ms[t].0.meta & LINES_CLEARED_MASK >= TARGET_LINES
                        && ms[t].0.keys_pressed <= best0;
                let mv = ms[t].0;
                assert(generated[t] == mv);
                assert(generated.contains(mv));
                vstd::seq_lib::to_multiset_contains(generated, mv);
                vstd::seq_lib::to_multiset_contains(moves@, mv);
                assert(moves@.contains(mv));
                let t2 = choose|t2: int| 0 <= t2 < moves@.len() && moves@[t2] == mv;
                assert(moves@[t2].meta & LINES_CLEARED_MASK >= TARGET_LINES && moves@[t2].keys_pressed <= best0);
            }
        }
    }
}

/// Searches the endgame from `board` with the pieces from `piece_idx` on, and
/// returns the best path found (see `Dfs::search`), empty where none reaches
/// the target lines (or `board` reaches them already). The path returned is
/// the first, in the order found, of the solutions the search found with the
/// fewest final keys and then the fewest moves (see `first_least`); each is a
/// run of moves whose last node, and no other, reaches the target lines
/// (see `is_solution`), and the shared best is at most its keys. Where the
/// search expands `board` (see `expands`) and one move from it reaches the
/// target lines within the shared best, a path is returned.
pub fn solve_pc(
    board: SearchNode<BitBoard>,
    pieces: &[PieceType],
    piece_idx: usize,
    shared: &mut EndgameShared,
) -> (r: Vec<SearchNode<BitBoard>>)
    requires
        old(shared).wf(),
        board.state.board_wf(),
        board.meta < 0x4000,
        board.meta & LINES_CLEARED_MASK >= TARGET_LINES - 4,
        board.keys_pressed + 135 <= u16::MAX,
        pieces@.len() <= ENDGAME_DEPTH,
        forall|j: int| piece_idx <= j < pieces@.len() ==> pieces@[j] != PieceType::Empty,
    ensures
        final(shared).wf(),
        final(shared).spec_best_keys() <= old(shared).spec_best_keys(),
        best_ok(board, pieces@, piece_idx as int, r@),
        r@.len() > 0 ==> final(shared).spec_best_keys() <= final_keys(board, r@),
        expands(old(shared).entries(), old(shared).spec_best_keys(), board, piece_idx as int, pieces@.len() as int, 0)
            && solved_in_one(board, pieces@[piece_idx as int], 0, old(shared).spec_best_keys()) ==> r@.len() > 0,
        exists|found: Seq<Seq<SearchNode<BitBoard>>>|
            (forall|i: int| 0 <= i < found.len() ==> is_solution(board, pieces@, piece_idx as int, #[trigger] found[i]))
                && #[trigger] first_least(board, found, r@),
        board.meta & LINES_CLEARED_MASK < TARGET_LINES ==> exists|refused: Seq<(SearchNode<BitBoard>, int)>|
            #[trigger] all_covered(board, pieces@, piece_idx as int, r@, final(shared).spec_best_keys(), refused),
{
    let mut dfs = Dfs { pieces, best_path: Vec::new(), found: Ghost(Seq::empty()), refused: Ghost(Seq::empty()) };
    let mut path: Vec<SearchNode<BitBoard>> = Vec::new();
    dfs.search(shared, board, piece_idx, &mut path, Ghost(board), Ghost(piece_idx as int));
    proof {
        let f = dfs.found@;
        assert(f.take(0) =~= Seq::<Seq<SearchNode<BitBoard>>>::empty());
        assert(first_least(board, f, dfs.best_path@));
        if board.meta & LINES_CLEARED_MASK < TARGET_LINES {
            let rf = dfs.refused@;
            assert(all_covered(board, pieces@, piece_idx as int, dfs.best_path@, shared.spec_best_keys(), rf)) by {
            assert forall|s: Seq<SearchNode<BitBoard>>|
                #[trigger] is_solution(board, pieces@, piece_idx as int, s) && s.len() > 0 implies covered(
                board,
                s,
                dfs.best_path@,
                shared.spec_best_keys(),
                rf,
                piece_idx as int,
                0,
            ) by {
                assert(s.take(0) =~= Seq::<SearchNode<BitBoard>>::empty());
                assert(extends(s, Seq::<SearchNode<BitBoard>>::empty()));
            }
            }
        }
    }
    dfs.best_path
}

} // verus!
