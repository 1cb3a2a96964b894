//! Techmino's replay format: each key press and release as a frame number
//! and an event code (`code` for a press, `code + 32` for a release), the
//! numbers written as base-128 varints, each frame number but the first
//! press's as the difference to the frame before it; then the replay's
//! metadata line and these bytes, zlib-compressed and base64-encoded.
use vstd::prelude::*;
use crate::PieceType;
use crate::search::PathNode;
use crate::replay::{compile_replay, ActionKind, ReplayCall, ReplayConsumer};

verus! {

use crate::replay::{burst_calls, is_das_kind, is_tap_kind, replay_calls, replay_ok, action_calls, step_calls};
use crate::replay::das::{held_from, lemma_concat, lemma_one};
use crate::movegen::{compile_action, compiled_step, Action, ActionStep};
use crate::movegen::path_moves;

/// When the keys of a replay are pressed: the frame of the first press, how
/// long a DAS is held before it moves the piece to the wall, and how long a
/// tap is held (and the pause after it).
#[derive(Clone, Copy, Debug, PartialEq, Eq, Structural)]
pub struct ReplayTiming {
    pub first_op: u32,
    pub das_wait: u32,
    pub tap_wait: u32,
}

/// The event code of a key: Techmino's number for the action it performs.
pub open spec fn event_code(a: ActionKind) -> u32 {
    match a {
        ActionKind::MoveLeft => 1,
        ActionKind::DasLeft => 1,
        ActionKind::MoveRight => 2,
        ActionKind::DasRight => 2,
        ActionKind::RotateCW => 3,
        ActionKind::RotateCCW => 4,
        ActionKind::Rotate180 => 5,
        ActionKind::HardDrop => 6,
        ActionKind::Hold => 8,
    }
}

/// Techmino's key-down actions in the order of its event numbers, from 1:
/// move left, move right, rotate clockwise, rotate counter-clockwise, rotate
/// 180, hard drop, soft drop (which the solver never uses), hold.
pub open spec fn techmino_actions() -> Seq<Option<ActionKind>> {
    seq![
        Some(ActionKind::MoveLeft),
        Some(ActionKind::MoveRight),
        Some(ActionKind::RotateCW),
        Some(ActionKind::RotateCCW),
        Some(ActionKind::Rotate180),
        Some(ActionKind::HardDrop),
        None,
        Some(ActionKind::Hold),
    ]
}

/// The action a key performs in the game: a DAS is its side's move held.
pub open spec fn key_action(a: ActionKind) -> ActionKind {
    match a {
        ActionKind::DasLeft => ActionKind::MoveLeft,
        ActionKind::DasRight => ActionKind::MoveRight,
        _ => a,
    }
}

/// The event written for a key is Techmino's number for the action it
/// performs: its position, from 1, in Techmino's list of actions; its
/// release is that number plus 32. So a tap of `a` at frame `ts` writes
/// `ts`, that number, a tap later that number plus 32.
pub proof fn lemma_event_codes(a: ActionKind, ops: Seq<u32>, ts: u32, tw: u32)
    ensures
        1 <= event_code(a) <= techmino_actions().len(),
        techmino_actions()[event_code(a) - 1] == Some(key_action(a)),
        tap_ops(ops, ts, event_code(a), tw).0 == ops + seq![
            ts,
            event_code(a),
            ts.wrapping_add(tw),
            (event_code(a) + 32) as u32,
        ],
{
}

/// What each consumer call writes, in Techmino's events: a tap, a burst key
/// and a burst's end (the drop) a press and its release a tap apart; a DAS
/// press its event, a release the event plus 32, each followed by the DAS
/// wait; a pipeline its DAS press, then the drop a tap later.
pub proof fn lemma_call_events(ops: Seq<u32>, ts: u32, c: ReplayCall, t: ReplayTiming)
    ensures
        c matches ReplayCall::Tap(a) ==> call_ops(ops, ts, c, t) == tap_ops(ops, ts, event_code(a), t.tap_wait),
        c matches ReplayCall::BurstKey(a) ==> call_ops(ops, ts, c, t) == tap_ops(ops, ts, event_code(a), t.tap_wait),
        c is BurstEnd ==> call_ops(ops, ts, c, t) == tap_ops(ops, ts, event_code(ActionKind::HardDrop), t.tap_wait),
        c matches ReplayCall::DasStart(d) ==> call_ops(ops, ts, c, t) == (ops + seq![ts, event_code(d)], ts.wrapping_add(
            t.das_wait,
        )),
        c matches ReplayCall::DasRelease(d) ==> call_ops(ops, ts, c, t) == (ops + seq![
            ts,
            (event_code(d) + 32) as u32,
        ], ts.wrapping_add(t.das_wait)),
        c matches ReplayCall::Pipeline(d) ==> call_ops(ops, ts, c, t) == tap_ops(
            ops + seq![ts, event_code(d)],
            ts.wrapping_add(t.tap_wait),
            event_code(ActionKind::HardDrop),
            t.tap_wait,
        ),
{
}

fn event_code_exec(a: ActionKind) -> (c: u32)
    ensures
        c == event_code(a),
{
    match a {
        ActionKind::MoveLeft => 1,
        ActionKind::DasLeft => 1,
        ActionKind::MoveRight => 2,
        ActionKind::DasRight => 2,
        ActionKind::RotateCW => 3,
        ActionKind::RotateCCW => 4,
        ActionKind::Rotate180 => 5,
        ActionKind::HardDrop => 6,
        ActionKind::Hold => 8,
    }
}

/// The operations and the frame after a tap of event `ev` at frame `ts`:
/// the press, the release a tap later, and another tap's pause. Frame
/// numbers wrap at 2^32.
pub open spec fn tap_ops(ops: Seq<u32>, ts: u32, ev: u32, tw: u32) -> (Seq<u32>, u32) {
    let up = ts.wrapping_add(tw);
    (ops + seq![ts, ev, up, (ev + 32) as u32], up.wrapping_add(tw))
}

/// The operations and the frame after one consumer call, from `ops` at frame
/// `ts`: a tap as `tap_ops`; a DAS press or release at `ts`, followed by the
/// DAS wait; a burst key as a tap, and the burst's end as the drop; a
/// pipeline as the DAS press, a tap's wait, and the drop.
pub open spec fn call_ops(ops: Seq<u32>, ts: u32, call: ReplayCall, t: ReplayTiming) -> (Seq<u32>, u32) {
    match call {
        ReplayCall::Tap(a) => tap_ops(ops, ts, event_code(a), t.tap_wait),
        ReplayCall::BurstKey(a) => tap_ops(ops, ts, event_code(a), t.tap_wait),
        ReplayCall::BurstEnd => tap_ops(ops, ts, 6, t.tap_wait),
        ReplayCall::DasStart(d) => (ops + seq![ts, event_code(d)], ts.wrapping_add(t.das_wait)),
        ReplayCall::DasRelease(d) => (ops + seq![ts, (event_code(d) + 32) as u32], ts.wrapping_add(t.das_wait)),
        ReplayCall::Pipeline(d) => tap_ops(
            ops + seq![ts, event_code(d)],
            ts.wrapping_add(t.tap_wait),
            6,
            t.tap_wait,
        ),
    }
}

/// The operations and the frame after `calls`, from no operations at the
/// first press's frame.
pub open spec fn run_calls(calls: Seq<ReplayCall>, t: ReplayTiming) -> (Seq<u32>, u32)
    decreases calls.len(),
{
    if calls.len() == 0 {
        (Seq::empty(), t.first_op)
    } else {
        let (ops, ts) = run_calls(calls.drop_last(), t);
        call_ops(ops, ts, calls.last(), t)
    }
}

proof fn lemma_run_push(calls: Seq<ReplayCall>, c: ReplayCall, t: ReplayTiming)
    ensures
        run_calls(calls.push(c), t) == call_ops(run_calls(calls, t).0, run_calls(calls, t).1, c, t),
{
    assert(calls.push(c).drop_last() =~= calls);
}

/// A consumer that writes Techmino's operations.
pub struct TechminoConsumer {
    operations: Vec<u32>,
    timing: ReplayTiming,
    timestamp: u32,
    history: Ghost<Seq<ReplayCall>>,
    checked: Ghost<Seq<crate::replay::KeysCheck>>,
}

/// The timing that a consumer's setup lists.
pub open spec fn timing_of(setup: Seq<int>) -> ReplayTiming {
    ReplayTiming { first_op: setup[0] as u32, das_wait: setup[1] as u32, tap_wait: setup[2] as u32 }
}

impl TechminoConsumer {
    /// The timing the consumer writes with.
    pub closed spec fn spec_timing(&self) -> ReplayTiming {
        self.timing
    }

    /// The operations written so far.
    pub closed spec fn ops(&self) -> Seq<u32> {
        self.operations@
    }

    /// What the consumer's views say: its setup lists its timing, so equal
    /// setups mean equal timings, and where its invariant holds its
    /// operations are those that `run_calls` gives for the calls received.
    pub proof fn lemma_views(a: &Self, b: &Self)
        ensures
            a.setup() == seq![
                a.spec_timing().first_op as int,
                a.spec_timing().das_wait as int,
                a.spec_timing().tap_wait as int,
            ],
            a.setup() == b.setup() ==> a.spec_timing() == b.spec_timing(),
            timing_of(a.setup()) == a.spec_timing(),
            a.inv() ==> a.ops() == run_calls(a.calls(), a.spec_timing()).0,
    {
        if a.setup() == b.setup() {
            assert(a.setup()[0] == b.setup()[0]);
            assert(a.setup()[1] == b.setup()[1]);
            assert(a.setup()[2] == b.setup()[2]);
        }
    }

    /// No operations yet, the first press due at `timing.first_op`.
    pub fn new(timing: ReplayTiming) -> (r: Self)
        ensures
            r.inv(),
            r.calls() == Seq::<ReplayCall>::empty(),
            r.checks() == Seq::<crate::replay::KeysCheck>::empty(),
            r.spec_timing() == timing,
    {
        TechminoConsumer {
            operations: Vec::new(),
            timing,
            timestamp: timing.first_op,
            history: Ghost(Seq::empty()),
            checked: Ghost(Seq::empty()),
        }
    }

    /// The operations written, as `run_calls` gives them for the calls
    /// received.
    pub fn into_operations(self) -> (ops: Vec<u32>)
        requires
            self.inv(),
        ensures
            ops@ == run_calls(self.calls(), self.spec_timing()).0,
    {
        self.operations
    }

    fn push_tap(&mut self, ev: u32)
        requires
            ev <= 8,
        ensures
            final(self).timing == old(self).timing,
            final(self).history == old(self).history,
            final(self).checked == old(self).checked,
            (final(self).operations@, final(self).timestamp) == tap_ops(
                old(self).operations@,
                old(self).timestamp,
                ev,
                old(self).timing.tap_wait,
            ),
    {
        self.operations.push(self.timestamp);
        self.operations.push(ev);
        self.timestamp = self.timestamp.wrapping_add(self.timing.tap_wait);
        self.operations.push(self.timestamp);
        self.operations.push(ev + 32);
        self.timestamp = self.timestamp.wrapping_add(self.timing.tap_wait);
        proof {
            let (ops, ts) = tap_ops(old(self).operations@, old(self).timestamp, ev, old(self).timing.tap_wait);
            assert(self.operations@ =~= ops);
        }
    }
}

impl ReplayConsumer for TechminoConsumer {
    closed spec fn calls(&self) -> Seq<ReplayCall> {
        self.history@
    }

    closed spec fn inv(&self) -> bool {
        (self.operations@, self.timestamp) == run_calls(self.history@, self.timing)
    }

    closed spec fn setup(&self) -> Seq<int> {
        seq![self.timing.first_op as int, self.timing.das_wait as int, self.timing.tap_wait as int]
    }

    closed spec fn checks(&self) -> Seq<crate::replay::KeysCheck> {
        self.checked@
    }

    /// The operations written, a held DAS counted as its release to come,
    /// are four for each key pressed to reach position `i`.
    open spec fn keys_ok(
        setup: Seq<int>,
        calls: Seq<ReplayCall>,
        i: int,
        path: Seq<PathNode>,
        das: Option<ActionKind>,
        exempt: bool,
    ) -> bool {
        &&& 0 <= i < path.len()
        &&& run_calls(calls, timing_of(setup)).0.len() + (if das is Some {
            2int
        } else {
            0
        }) == 4 * path[i].spec_keys_pressed()
    }

    fn debug_keys_assertion(&mut self, i: usize, path: &[PathNode], active_das: Option<ActionKind>, exempt: bool) {
        self.checked = Ghost(self.checked@.push((self.history@.len() as int, i as int, active_das, exempt)));
    }

    fn tap(&mut self, action: ActionKind)
        ensures
            final(self).spec_timing() == old(self).spec_timing(),
    {
        proof {
            lemma_run_push(self.history@, ReplayCall::Tap(action), self.timing);
        }
        self.push_tap(event_code_exec(action));
        self.history = Ghost(self.history@.push(ReplayCall::Tap(action)));
    }

    fn das_start(&mut self, dir: ActionKind)
        ensures
            final(self).spec_timing() == old(self).spec_timing(),
    {
        proof {
            lemma_run_push(self.history@, ReplayCall::DasStart(dir), self.timing);
        }
        self.operations.push(self.timestamp);
        self.operations.push(event_code_exec(dir));
        self.timestamp = self.timestamp.wrapping_add(self.timing.das_wait);
        self.history = Ghost(self.history@.push(ReplayCall::DasStart(dir)));
        proof {
            assert(self.operations@ =~= old(self).operations@ + seq![old(self).timestamp, event_code(dir)]);
        }
    }

    fn das_release(&mut self, dir: ActionKind)
        ensures
            final(self).spec_timing() == old(self).spec_timing(),
    {
        proof {
            lemma_run_push(self.history@, ReplayCall::DasRelease(dir), self.timing);
        }
        self.operations.push(self.timestamp);
        self.operations.push(event_code_exec(dir) + 32);
        self.timestamp = self.timestamp.wrapping_add(self.timing.das_wait);
        self.history = Ghost(self.history@.push(ReplayCall::DasRelease(dir)));
        proof {
            assert(self.operations@ =~= old(self).operations@ + seq![
                old(self).timestamp,
                (event_code(dir) + 32) as u32,
            ]);
        }
    }

    fn burst(&mut self, actions: Vec<ActionKind>)
        ensures
            final(self).spec_timing() == old(self).spec_timing(),
    {
        let ghost start = self.history@;
        let mut i: usize = 0;
        while i < actions.len()
            invariant
                i <= actions@.len(),
                self.timing == old(self).timing,
                self.checked == old(self).checked,
                self.history@ == start + Seq::new(i as nat, |k: int| ReplayCall::BurstKey(actions@[k])),
                (self.operations@, self.timestamp) == run_calls(self.history@, self.timing),
            decreases actions@.len() - i,
        {
            let a = actions[i];
            proof {
                lemma_run_push(self.history@, ReplayCall::BurstKey(a), self.timing);
            }
            self.push_tap(event_code_exec(a));
            self.history = Ghost(self.history@.push(ReplayCall::BurstKey(a)));
            proof {
                assert(self.history@ =~= start + Seq::new((i + 1) as nat, |k: int| ReplayCall::BurstKey(actions@[k])));
            }
            i += 1;
        }
        proof {
            lemma_run_push(self.history@, ReplayCall::BurstEnd, self.timing);
        }
        self.push_tap(6);
        self.history = Ghost(self.history@.push(ReplayCall::BurstEnd));
        proof {
            assert(self.history@ =~= start + burst_calls(actions@));
        }
    }

    fn pipeline(&mut self, dir: ActionKind)
        ensures
            final(self).spec_timing() == old(self).spec_timing(),
    {
        proof {
            lemma_run_push(self.history@, ReplayCall::Pipeline(dir), self.timing);
        }
        self.operations.push(self.timestamp);
        self.operations.push(event_code_exec(dir));
        proof {
            assert(self.operations@ =~= old(self).operations@ + seq![old(self).timestamp, event_code(dir)]);
        }
        self.timestamp = self.timestamp.wrapping_add(self.timing.tap_wait);
        self.push_tap(6);
        self.history = Ghost(self.history@.push(ReplayCall::Pipeline(dir)));
    }
}

/// The varint of `x`: base 128, most significant group first, every byte
/// but the last with its top bit set.
pub open spec fn varint(x: nat) -> Seq<u8>
    decreases x,
{
    if x < 128 {
        seq![x as u8]
    } else {
        varint_lead(x / 128) + seq![(x % 128) as u8]
    }
}

/// The leading bytes of a varint, each with its top bit set.
pub open spec fn varint_lead(x: nat) -> Seq<u8>
    decreases x,
{
    if x < 128 {
        seq![(x + 128) as u8]
    } else {
        varint_lead(x / 128) + seq![(x % 128 + 128) as u8]
    }
}

/// The number written for operation `i`: a frame less the frame two
/// operations before it (frames are at even positions, modulo 2^32), the
/// first frame and every event code as it is.
pub open spec fn delta(ops: Seq<u32>, i: int) -> u32 {
    if i > 0 && i % 2 == 0 {
        ops[i].wrapping_sub(ops[i - 2])
    } else {
        ops[i]
    }
}

/// The bytes of the first `n` operations.
pub open spec fn encoded(ops: Seq<u32>, n: int) -> Seq<u8>
    decreases n,
{
    if n <= 0 {
        Seq::empty()
    } else {
        encoded(ops, n - 1) + varint(delta(ops, n - 1) as nat)
    }
}

/// Reads varints: `acc` holds the groups read of the current one.
pub open spec fn decode(bytes: Seq<u8>, acc: nat) -> Seq<nat>
    decreases bytes.len(),
{
    if bytes.len() == 0 {
        Seq::empty()
    } else if bytes[0] < 128 {
        seq![(acc * 128 + bytes[0]) as nat] + decode(bytes.drop_first(), 0)
    } else {
        decode(bytes.drop_first(), (acc * 128 + bytes[0] - 128) as nat)
    }
}

/// Operation `i` restored from the numbers read: a frame difference added
/// back to the frame two before it.
pub open spec fn restored(vals: Seq<nat>, i: int) -> u32
    decreases i,
{
    if i > 1 && i % 2 == 0 {
        (vals[i] as u32).wrapping_add(restored(vals, i - 2))
    } else {
        vals[i] as u32
    }
}

proof fn lemma_varint_lead(y: nat, t: Seq<u8>)
    ensures
        decode(varint_lead(y) + t, 0) == decode(t, y),
        varint_lead(y).len() > 0,
    decreases y,
{
    if y < 128 {
        assert((varint_lead(y) + t).drop_first() =~= t);
    } else {
        let b = (y % 128 + 128) as u8;
        lemma_varint_lead(y / 128, seq![b] + t);
        assert(varint_lead(y) + t =~= varint_lead(y / 128) + (seq![b] + t));
        assert((seq![b] + t).drop_first() =~= t);
        assert((y / 128) * 128 + y % 128 == y);
    }
}

proof fn lemma_varint(x: nat, t: Seq<u8>)
    ensures
        decode(varint(x) + t, 0) == seq![x] + decode(t, 0),
        varint(x).len() > 0,
        varint(x).last() < 128,
    decreases x,
{
    if x < 128 {
        assert((varint(x) + t).drop_first() =~= t);
        assert(decode(varint(x) + t, 0) == seq![(0 * 128 + x) as nat] + decode(t, 0));
    } else {
        let b = (x % 128) as u8;
        lemma_varint_lead(x / 128, seq![b] + t);
        assert(varint(x) + t =~= varint_lead(x / 128) + (seq![b] + t));
        assert((seq![b] + t).drop_first() =~= t);
        assert((x / 128) * 128 + x % 128 == x);
    }
}

proof fn lemma_encoded_ends(ops: Seq<u32>, n: int)
    requires
        0 <= n <= ops.len(),
    ensures
        encoded(ops, n).len() == 0 || encoded(ops, n).last() < 128,
        forall|t: Seq<u8>| #[trigger] decode(encoded(ops, n) + t, 0) == Seq::new(n as nat, |i: int| delta(ops, i) as nat) + decode(t, 0),
    decreases n,
{
    if n > 0 {
        lemma_encoded_ends(ops, n - 1);
        let v = delta(ops, n - 1) as nat;
        assert forall|t: Seq<u8>| #[trigger] decode(encoded(ops, n) + t, 0) == Seq::new(n as nat, |i: int| delta(ops, i) as nat) + decode(t, 0) by {
            lemma_varint(v, t);
            assert(encoded(ops, n) + t =~= encoded(ops, n - 1) + (varint(v) + t));
            assert(decode(encoded(ops, n - 1) + (varint(v) + t), 0) == Seq::new((n - 1) as nat, |i: int| delta(ops, i) as nat) + decode(varint(v) + t, 0));
            assert(Seq::new(n as nat, |i: int| delta(ops, i) as nat) =~= Seq::new((n - 1) as nat, |i: int| delta(ops, i) as nat) + seq![v]);
        }
        lemma_varint(v, Seq::empty());
        assert(varint(v) + Seq::<u8>::empty() =~= varint(v));
    } else {
        assert forall|t: Seq<u8>| #[trigger] decode(encoded(ops, n) + t, 0) == Seq::new(n as nat, |i: int| delta(ops, i) as nat) + decode(t, 0) by {
            assert(encoded(ops, n) + t =~= t);
            assert(Seq::new(n as nat, |i: int| delta(ops, i) as nat) + decode(t, 0) =~= decode(t, 0));
        }
    }
}

proof fn lemma_restore(ops: Seq<u32>, vals: Seq<nat>, i: int)
    requires
        vals == Seq::new(ops.len(), |k: int| delta(ops, k) as nat),
        0 <= i < ops.len(),
    ensures
        restored(vals, i) == ops[i],
    decreases i,
{
    if i > 1 && i % 2 == 0 {
        lemma_restore(ops, vals, i - 2);
    }
}

/// Reading the bytes of a replay's operations back gives the operations:
/// the varints decode to the numbers written, and adding each frame
/// difference to the frame two before it restores every frame.
pub proof fn lemma_replay_bytes_roundtrip(ops: Seq<u32>)
    ensures
        decode(encoded(ops, ops.len() as int), 0) == Seq::new(ops.len(), |i: int| delta(ops, i) as nat),
        forall|i: int|
            0 <= i < ops.len() ==> #[trigger] restored(decode(encoded(ops, ops.len() as int), 0), i) == ops[i],
{
    lemma_encoded_ends(ops, ops.len() as int);
    let e = encoded(ops, ops.len() as int);
    assert(decode(e + Seq::<u8>::empty(), 0) == Seq::new(ops.len(), |i: int| delta(ops, i) as nat) + decode(Seq::<u8>::empty(), 0));
    assert(e + Seq::<u8>::empty() =~= e);
    assert(Seq::new(ops.len(), |i: int| delta(ops, i) as nat) + decode(Seq::<u8>::empty(), 0) =~= Seq::new(ops.len(), |i: int| delta(ops, i) as nat));
    assert forall|i: int| 0 <= i < ops.len() implies #[trigger] restored(decode(e, 0), i) == ops[i] by {
        lemma_restore(ops, decode(e, 0), i);
    }
}

fn push_varint_lead(out: &mut Vec<u8>, x: u32)
    ensures
        final(out)@ == old(out)@ + varint_lead(x as nat),
    decreases x,
{
    if x < 128 {
        out.push((x + 128) as u8);
    } else {
        push_varint_lead(out, x / 128);
        out.push((x % 128 + 128) as u8);
        proof {
            assert(final(out)@ =~= old(out)@ + varint_lead(x as nat));
        }
    }
}

fn push_varint(out: &mut Vec<u8>, x: u32)
    ensures
        final(out)@ == old(out)@ + varint(x as nat),
{
    if x < 128 {
        out.push(x as u8);
    } else {
        push_varint_lead(out, x / 128);
        out.push((x % 128) as u8);
        proof {
            assert(final(out)@ =~= old(out)@ + varint(x as nat));
        }
    }
}

/// The bytes of the operations (see `encoded`).
pub fn encode_operations(ops: &Vec<u32>) -> (bytes: Vec<u8>)
    ensures
        bytes@ == encoded(ops@, ops@.len() as int),
{
    let mut bytes: Vec<u8> = Vec::new();
    let n = ops.len();
    let mut i: usize = 0;
    while i < n
        invariant
            n == ops@.len(),
            i <= n,
            bytes@ == encoded(ops@, i as int),
        decreases n - i,
    {
        let x = if i > 0 && i % 2 == 0 {
            ops[i].wrapping_sub(ops[i - 2])
        } else {
            ops[i]
        };
        push_varint(&mut bytes, x);
        i += 1;
    }
    bytes
}

/// The operations of the replay of a path.
pub open spec fn replay_operations(path: Seq<PathNode>, pieces: Seq<PieceType>, t: ReplayTiming) -> Seq<u32> {
    let ms = path_moves(path, pieces);
    run_calls(replay_calls(ms, ms.len() as int), t).0
}

/// Whether a DAS is held after `calls`: pressed, or turned on by a
/// pipeline, and not released since (a burst keeps it held).
pub open spec fn held_after(calls: Seq<ReplayCall>) -> bool
    decreases calls.len(),
{
    if calls.len() == 0 {
        false
    } else {
        match calls.last() {
            ReplayCall::DasStart(_) => true,
            ReplayCall::Pipeline(_) => true,
            ReplayCall::DasRelease(_) => false,
            _ => held_after(calls.drop_last()),
        }
    }
}

/// A DAS is held after `calls` exactly where `held_das` names one.
pub proof fn lemma_held_das(calls: Seq<ReplayCall>)
    ensures
        (crate::replay::held_das(calls) is Some) == held_after(calls),
    decreases calls.len(),
{
    if calls.len() > 0 {
        lemma_held_das(calls.drop_last());
    }
}

/// The check the Techmino writer makes after step `s` of a path: the
/// operations written so far, a held DAS counted as its release to come,
/// are four for each key pressed to reach the node after the step.
pub open spec fn techmino_check(path: Seq<PathNode>, pieces: Seq<PieceType>, t: ReplayTiming, s: int) -> bool {
    let ms = path_moves(path, pieces);
    let calls = replay_calls(ms, s + 1);
    run_calls(calls, t).0.len() + (if held_after(calls) {
        2int
    } else {
        0
    }) == 4 * path[ms[s].0 + 1].spec_keys_pressed()
}

/// Whether the Techmino writer's check passes after every step.
pub open spec fn techmino_checks_ok(path: Seq<PathNode>, pieces: Seq<PieceType>, t: ReplayTiming) -> bool {
    forall|s: int| 0 <= s < path_moves(path, pieces).len() ==> #[trigger] techmino_check(path, pieces, t, s)
}

/// The operations Techmino writes for one call (see `call_ops`).
pub open spec fn call_len(c: ReplayCall) -> int {
    match c {
        ReplayCall::DasStart(_) => 2,
        ReplayCall::DasRelease(_) => 2,
        ReplayCall::Pipeline(_) => 6,
        _ => 4,
    }
}

/// The operations Techmino writes for `calls`.
pub open spec fn calls_len(calls: Seq<ReplayCall>) -> int
    decreases calls.len(),
{
    if calls.len() == 0 {
        0
    } else {
        calls_len(calls.drop_last()) + call_len(calls.last())
    }
}

pub(crate) proof fn lemma_run_len(calls: Seq<ReplayCall>, t: ReplayTiming)
    ensures
        run_calls(calls, t).0.len() == calls_len(calls),
    decreases calls.len(),
{
    if calls.len() > 0 {
        lemma_run_len(calls.drop_last(), t);
    }
}

pub(crate) proof fn lemma_calls_len_concat(a: Seq<ReplayCall>, b: Seq<ReplayCall>)
    ensures
        calls_len(a + b) == calls_len(a) + calls_len(b),
    decreases b.len(),
{
    if b.len() == 0 {
        assert(a + b =~= a);
    } else {
        lemma_calls_len_concat(a, b.drop_last());
        assert((a + b).drop_last() =~= a + b.drop_last());
    }
}

pub(crate) proof fn lemma_calls_len_one(c: ReplayCall)
    ensures
        calls_len(seq![c]) == call_len(c),
{
    let one = seq![c];
    assert(one.drop_last() =~= Seq::<ReplayCall>::empty());
    assert(one.len() == 1 && one.last() == c);
    assert(calls_len(one.drop_last()) == 0);
}

pub(crate) proof fn lemma_burst_len(keys: Seq<ActionKind>)
    ensures
        calls_len(burst_calls(keys)) == 4 * keys.len() + 4,
        forall|i: int| 0 <= i < burst_calls(keys).len() ==> (#[trigger] burst_calls(keys)[i] is BurstKey
            || burst_calls(keys)[i] is BurstEnd),
    decreases keys.len(),
{
    let b = burst_calls(keys);
    if keys.len() > 0 {
        lemma_burst_len(keys.drop_last());
        let pre = burst_calls(keys.drop_last());
        let body = Seq::new(keys.len(), |i: int| ReplayCall::BurstKey(keys[i]));
        let body0 = Seq::new(keys.drop_last().len(), |i: int| ReplayCall::BurstKey(keys.drop_last()[i]));
        assert(body =~= body0.push(ReplayCall::BurstKey(keys.last())));
        assert(b =~= body0 + seq![ReplayCall::BurstKey(keys.last()), ReplayCall::BurstEnd]);
        assert(pre =~= body0 + seq![ReplayCall::BurstEnd]);
        lemma_calls_len_concat(body0, seq![ReplayCall::BurstKey(keys.last()), ReplayCall::BurstEnd]);
        lemma_calls_len_concat(body0, seq![ReplayCall::BurstEnd]);
        assert(seq![ReplayCall::BurstKey(keys.last()), ReplayCall::BurstEnd].drop_last() =~= seq![ReplayCall::BurstKey(keys.last())]);
        lemma_calls_len_one(ReplayCall::BurstKey(keys.last()));
        lemma_calls_len_one(ReplayCall::BurstEnd);
    } else {
        assert(b =~= seq![ReplayCall::BurstEnd]);
        lemma_calls_len_one(ReplayCall::BurstEnd);
    }
}

pub(crate) proof fn lemma_held_after(calls: Seq<ReplayCall>)
    ensures
        held_after(calls) == (held_from(calls, None) is Some),
    decreases calls.len(),
{
    if calls.len() > 0 {
        lemma_held_after(calls.drop_last());
    }
}

/// The operations Techmino writes for one step (see `step_calls`), and the
/// DAS held after it, from `held` before it.
fn step_tally(step: &ActionStep, held: Option<ActionKind>) -> (r: (u128, Option<ActionKind>))
    ensures
        r.0 == calls_len(step_calls(step@)),
        r.1 == held_from(step_calls(step@), held),
        r.0 <= 8 + 6 * step@.actions.len(),
{
    let q = &step.actions;
    let ghost qs = step@.actions;
    let b = step.burst;
    let p = step.pipeline;
    let n = q.len();
    let r: usize = if step.reused && n > 0 {
        1
    } else {
        0
    };
    let ghost rr: int = if step@.reused { 1 } else { 0 };
    let ghost hold_part = if step@.hold {
        seq![ReplayCall::Tap(ActionKind::Hold)]
    } else {
        Seq::<ReplayCall>::empty()
    };
    let ghost drop_part = if !p && !b {
        seq![ReplayCall::Tap(ActionKind::HardDrop)]
    } else {
        Seq::<ReplayCall>::empty()
    };
    proof {
        if step@.reused && n == 0 {
            assert(action_calls(qs, b, p, 1) =~= action_calls(qs, b, p, 0));
        }
        assert(step_calls(step@) == hold_part + action_calls(qs, b, p, rr) + drop_part);
        if step@.hold {
            lemma_calls_len_one(ReplayCall::Tap(ActionKind::Hold));
            lemma_one(ReplayCall::Tap(ActionKind::Hold), held);
        }
    }
    let mut h = held;
    let mut acc: u128 = 0;
    if step.hold {
        acc = 4;
    }
    let ghost h0 = h;
    let ghost acc0 = acc as int;
    let ghost total = calls_len(action_calls(qs, b, p, r as int));
    let ghost fin = held_from(action_calls(qs, b, p, r as int), h0);
    let mut idx = r;
    while idx < n
        invariant
            qs == q@,
            n == qs.len(),
            r <= idx <= n,
            r <= 1,
            acc0 <= 4,
            acc as int <= acc0 + 6 * (idx - r),
            total == (acc - acc0) + calls_len(action_calls(qs, b, p, idx as int)),
            fin == held_from(action_calls(qs, b, p, idx as int), h),
        decreases n - idx,
    {
        let a = q[idx];
        let ghost rest = action_calls(qs, b, p, idx + 1);
        let ghost here = action_calls(qs, b, p, idx as int);
        match a {
            Action::MoveLeft | Action::MoveRight => {
                let kind = if a == Action::MoveLeft {
                    ActionKind::MoveLeft
                } else {
                    ActionKind::MoveRight
                };
                let dk = if a == Action::MoveLeft {
                    ActionKind::DasLeft
                } else {
                    ActionKind::DasRight
                };
                if p && idx == n - 1 {
                    proof {
                        assert(here == seq![ReplayCall::Pipeline(dk)]);
                        lemma_calls_len_one(ReplayCall::Pipeline(dk));
                        lemma_one(ReplayCall::Pipeline(dk), h);
                        assert(action_calls(qs, b, p, n as int) =~= Seq::<ReplayCall>::empty());
                    }
                    acc = acc + 6;
                    h = Some(dk);
                    idx = n;
                } else {
                    proof {
                        assert(here == seq![ReplayCall::Tap(kind)] + rest);
                        lemma_calls_len_concat(seq![ReplayCall::Tap(kind)], rest);
                        lemma_calls_len_one(ReplayCall::Tap(kind));
                        lemma_concat(seq![ReplayCall::Tap(kind)], rest, h);
                        lemma_one(ReplayCall::Tap(kind), h);
                    }
                    acc = acc + 4;
                    idx = idx + 1;
                }
            },
            Action::DasLeft | Action::DasRight => {
                let dk = if a == Action::DasLeft {
                    ActionKind::DasLeft
                } else {
                    ActionKind::DasRight
                };
                proof {
                    assert(here == seq![ReplayCall::DasStart(dk)] + rest);
                    lemma_calls_len_concat(seq![ReplayCall::DasStart(dk)], rest);
                    lemma_calls_len_one(ReplayCall::DasStart(dk));
                    lemma_concat(seq![ReplayCall::DasStart(dk)], rest, h);
                    lemma_one(ReplayCall::DasStart(dk), h);
                }
                acc = acc + 2;
                h = Some(dk);
                idx = idx + 1;
            },
            Action::DasLeftUp | Action::DasRightUp => {
                let dk = if a == Action::DasLeftUp {
                    ActionKind::DasLeft
                } else {
                    ActionKind::DasRight
                };
                if b {
                    proof {
                        let keys = crate::replay::burst_keys(qs, idx as int);
                        assert(here == burst_calls(keys));
                        lemma_burst_len(keys);
                        crate::replay::das::lemma_plain_calls(burst_calls(keys), h);
                        assert(action_calls(qs, b, p, n as int) =~= Seq::<ReplayCall>::empty());
                    }
                    acc = acc + 4 * ((n - idx - 1) as u128) + 4;
                    idx = n;
                } else {
                    proof {
                        assert(here == seq![ReplayCall::DasRelease(dk)] + rest);
                        lemma_calls_len_concat(seq![ReplayCall::DasRelease(dk)], rest);
                        lemma_calls_len_one(ReplayCall::DasRelease(dk));
                        lemma_concat(seq![ReplayCall::DasRelease(dk)], rest, h);
                        lemma_one(ReplayCall::DasRelease(dk), h);
                    }
                    acc = acc + 2;
                    h = None;
                    idx = idx + 1;
                }
            },
            _ => {
                let kind = if a == Action::RotateCW {
                    ActionKind::RotateCW
                } else if a == Action::RotateCCW {
                    ActionKind::RotateCCW
                } else {
                    ActionKind::Rotate180
                };
                proof {
                    assert(kind == crate::replay::tap_kind(a));
                    assert(here == seq![ReplayCall::Tap(kind)] + rest);
                    lemma_calls_len_concat(seq![ReplayCall::Tap(kind)], rest);
                    lemma_calls_len_one(ReplayCall::Tap(kind));
                    lemma_concat(seq![ReplayCall::Tap(kind)], rest, h);
                    lemma_one(ReplayCall::Tap(kind), h);
                }
                acc = acc + 4;
                idx = idx + 1;
            },
        }
    }
    proof {
        assert(action_calls(qs, b, p, n as int) =~= Seq::<ReplayCall>::empty());
        lemma_calls_len_concat(hold_part, action_calls(qs, b, p, rr));
        lemma_calls_len_concat(hold_part + action_calls(qs, b, p, rr), drop_part);
        lemma_concat(hold_part, action_calls(qs, b, p, rr), held);
        lemma_concat(hold_part + action_calls(qs, b, p, rr), drop_part, held);
        assert(held_from(hold_part, held) == held);
        if !p && !b {
            lemma_calls_len_one(ReplayCall::Tap(ActionKind::HardDrop));
            lemma_one(ReplayCall::Tap(ActionKind::HardDrop), h);
        }
    }
    if !p && !b {
        acc = acc + 4;
    }
    (acc, h)
}

/// Whether the Techmino writer's check passes after every step of a path's
/// replay (see `techmino_check`): the replay writer's own test, made before
/// the replay is written. It passes on every path that `keys_law_ok` admits
/// (see `keys::lemma_replay_keys`).
pub fn techmino_checks_pass(path: &[PathNode], piece_sequence: &[PieceType], timing: &ReplayTiming) -> (ok: bool)
    requires
        replay_ok(path@, piece_sequence@),
    ensures
        ok == techmino_checks_ok(path@, piece_sequence@, *timing),
        crate::replay::keys::keys_law_ok(path@, piece_sequence@) ==> ok,
{
    let ghost ms = path_moves(path@, piece_sequence@);
    let plen = path.len();
    let steps = compile_action(path, piece_sequence);
    proof {
        if crate::replay::keys::keys_law_ok(path@, piece_sequence@) {
            crate::replay::keys::lemma_replay_keys(path@, piece_sequence@, *timing);
        }
    }
    let mut count: u128 = 0;
    let mut held: Option<ActionKind> = None;
    let mut s: usize = 0;
    proof {
        assert(replay_calls(ms, 0) =~= Seq::<ReplayCall>::empty());
        crate::movegen::lemma_merged_len(crate::movegen::raw_moves(path@, piece_sequence@), path@.len() - 1);
    }
    while s < steps.len()
        invariant
            steps.len() == ms.len(),
            plen == path@.len(),
            ms == path_moves(path@, piece_sequence@),
            forall|i: int| 0 <= i < steps.len() ==> #[trigger] steps[i]@ == compiled_step(ms, i),
            forall|i: int| 0 <= i < ms.len() ==> ms[i].0 < path@.len() - 1,
            s <= steps.len(),
            count == calls_len(replay_calls(ms, s as int)),
            count <= 4 * 65535,
            held == held_from(replay_calls(ms, s as int), None),
            forall|j: int| 0 <= j < s ==> #[trigger] techmino_check(path@, piece_sequence@, *timing, j),
            crate::replay::keys::keys_law_ok(path@, piece_sequence@) ==> techmino_checks_ok(
                path@,
                piece_sequence@,
                *timing,
            ),
        decreases steps.len() - s,
    {
        let alen = steps[s].actions.len();
        let (len, h2) = step_tally(&steps[s], held);
        proof {
            assert(steps[s as int]@ == compiled_step(ms, s as int));
            assert(replay_calls(ms, s + 1) == replay_calls(ms, s as int) + step_calls(compiled_step(ms, s as int)));
            lemma_calls_len_concat(replay_calls(ms, s as int), step_calls(compiled_step(ms, s as int)));
            lemma_concat(replay_calls(ms, s as int), step_calls(compiled_step(ms, s as int)), None);
            lemma_run_len(replay_calls(ms, s + 1), *timing);
            lemma_held_after(replay_calls(ms, s + 1));
        }
        let total = count + len;
        let st_idx = steps[s].idx;
        proof {
            assert(steps@[s as int]@.idx == ms[s as int].0);
            assert(st_idx == steps@[s as int]@.idx);
            assert(ms[s as int].0 < path@.len() - 1);
            assert(path@.len() == plen);
            assert(alen == steps@[s as int]@.actions.len());
        }
        let node = st_idx + 1;
        let want = 4 * (path[node].keys_pressed() as u128);
        let got = if h2.is_some() {
            total + 2
        } else {
            total
        };
        if got != want {
            proof {
                assert(!techmino_check(path@, piece_sequence@, *timing, s as int));
            }
            return false;
        }
        count = total;
        held = h2;
        s += 1;
    }
    true
}

/// The bytes of a path's Techmino replay: its operations (see
/// `replay_operations`) as `encoded` writes them. The writer's check holds
/// after every step (see `techmino_check`); after the last, the operations
/// (a held DAS counted as its release) are four for each key pressed to
/// reach the node after it.
pub fn export_replay(path: &[PathNode], piece_sequence: &[PieceType], timing: &ReplayTiming) -> (bytes: Vec<u8>)
    requires
        replay_ok(path@, piece_sequence@),
        techmino_checks_ok(path@, piece_sequence@, *timing),
    ensures
        bytes@ == encoded(
            replay_operations(path@, piece_sequence@, *timing),
            replay_operations(path@, piece_sequence@, *timing).len() as int,
        ),
        ({
            let ms = path_moves(path@, piece_sequence@);
            replay_operations(path@, piece_sequence@, *timing).len() + (if held_after(
                replay_calls(ms, ms.len() as int),
            ) {
                2int
            } else {
                0
            }) == 4 * path@[ms.last().0 + 1].spec_keys_pressed()
        }),
{
    proof {
        let ms = path_moves(path@, piece_sequence@);
        assert(techmino_check(path@, piece_sequence@, *timing, ms.len() - 1));
    }
    let mut consumer = TechminoConsumer::new(*timing);
    proof {
        let ms = path_moves(path@, piece_sequence@);
        TechminoConsumer::lemma_views(&consumer, &consumer);
        crate::movegen::lemma_merged_len(crate::movegen::raw_moves(path@, piece_sequence@), path@.len() - 1);
        assert forall|k: int| 0 <= k < ms.len() implies #[trigger] TechminoConsumer::keys_ok(
            consumer.setup(),
            consumer.calls() + replay_calls(ms, k + 1),
            ms[k].0 + 1,
            path@,
            crate::replay::held_das(replay_calls(ms, k + 1)),
            crate::replay::step_exempt(ms, k),
        ) by {
            assert(techmino_check(path@, piece_sequence@, *timing, k));
            lemma_held_das(replay_calls(ms, k + 1));
            assert(consumer.calls() + replay_calls(ms, k + 1) =~= replay_calls(ms, k + 1));
            assert(ms[k].0 < path@.len() - 1);
        }
    }
    compile_replay(path, piece_sequence, &mut consumer);
    proof {
        assert(consumer.setup()[0] == timing.first_op);
        assert(consumer.setup()[1] == timing.das_wait);
        assert(consumer.setup()[2] == timing.tap_wait);
    }
    let ops = consumer.into_operations();
    proof {
        assert(Seq::<ReplayCall>::empty() + replay_calls(path_moves(path@, piece_sequence@), path_moves(path@, piece_sequence@).len() as int)
            =~= replay_calls(path_moves(path@, piece_sequence@), path_moves(path@, piece_sequence@).len() as int));
    }
    encode_operations(&ops)
}

/// flate2's zlib encoder writing into a byte vector, held opaque: what it
/// holds is known only through `zlib_input`.
#[verifier::external_body]
pub struct ZlibStream {
    encoder: flate2::write::ZlibEncoder<Vec<u8>>,
}

/// What has been written into a zlib encoder.
pub uninterp spec fn zlib_input(e: ZlibStream) -> Seq<u8>;

/// The zlib stream, at flate2's default compression level, of `data`
/// written into an encoder in one piece.
pub uninterp spec fn zlib_default(data: Seq<u8>) -> Seq<u8>;

/// `flate2::write::ZlibEncoder::new` over an empty vector, at
/// `flate2::Compression::default()`: an encoder with nothing written.
#[verifier::external_body]
fn zlib_encoder() -> (e: ZlibStream)
    ensures
        zlib_input(e) == Seq::<u8>::empty(),
{
    ZlibStream { encoder: flate2::write::ZlibEncoder::new(Vec::new(), flate2::Compression::default()) }
}

/// `std::io::Write::write_all` on flate2's zlib encoder, as its one write:
/// it succeeds, and `data` is what has been written. The encoder writes into
/// a vector, whose writes do not fail, and its compressor fails only on a
/// misuse (a bad parameter, a stream written after its end) that a first
/// write into a fresh encoder does not make.
#[verifier::external_body]
fn zlib_write_all(e: &mut ZlibStream, data: &Vec<u8>) -> (ok: bool)
    requires
        zlib_input(*old(e)).len() == 0,
    ensures
        ok,
        zlib_input(*final(e)) == data@,
{
    std::io::Write::write_all(&mut e.encoder, data.as_slice()).is_ok()
}

/// `flate2::write::ZlibEncoder::finish`: it succeeds, for the same reasons
/// as the write, and the vector it returns holds the zlib stream of what was
/// written.
#[verifier::external_body]
fn zlib_finish(e: ZlibStream) -> (r: Option<Vec<u8>>)
    ensures
        r is Some,
        r matches Some(v) ==> v@ == zlib_default(zlib_input(e)),
{
    match e.encoder.finish() {
        Ok(v) => Some(v),
        Err(_) => None,
    }
}

/// The base64 digit of `v` in the standard alphabet.
pub open spec fn base64_digit(v: int) -> char {
    if v < 26 {
        (65 + v) as char
    } else if v < 52 {
        (71 + v) as char
    } else if v < 62 {
        (v - 4) as char
    } else if v == 62 {
        '+'
    } else {
        '/'
    }
}

/// Standard base64 with `=` padding: each three bytes as four digits of
/// six bits, a last one or two bytes padded to four characters.
pub open spec fn base64_standard(d: Seq<u8>) -> Seq<char>
    decreases d.len(),
{
    if d.len() == 0 {
        Seq::empty()
    } else if d.len() == 1 {
        seq![base64_digit((d[0] as int) / 4), base64_digit(((d[0] as int) % 4) * 16), '=', '=']
    } else if d.len() == 2 {
        seq![
            base64_digit((d[0] as int) / 4),
            base64_digit(((d[0] as int) % 4) * 16 + (d[1] as int) / 16),
            base64_digit(((d[1] as int) % 16) * 4),
            '=',
        ]
    } else {
        seq![
            base64_digit((d[0] as int) / 4),
            base64_digit(((d[0] as int) % 4) * 16 + (d[1] as int) / 16),
            base64_digit(((d[1] as int) % 16) * 4 + (d[2] as int) / 64),
            base64_digit((d[2] as int) % 64),
        ] + base64_standard(d.skip(3))
    }
}

/// `base64::Engine::encode` with `base64::engine::general_purpose::STANDARD`:
/// the standard alphabet with padding. It panics where the encoded length
/// does not fit in `usize`, which `requires` leaves out.
#[verifier::external_body]
fn base64_encode(data: &Vec<u8>) -> (s: String)
    requires
        data@.len() / 3 * 4 + 4 <= usize::MAX,
    ensures
        s@ == base64_standard(data@),
{
    base64::Engine::encode(&base64::engine::general_purpose::STANDARD, data.as_slice())
}

/// What a replay file compresses: the metadata line, a newline, and the
/// bytes of the path's operations.
pub open spec fn replay_payload(
    metadata: Seq<u8>,
    path: Seq<PathNode>,
    pieces: Seq<PieceType>,
    t: ReplayTiming,
) -> Seq<u8> {
    metadata + seq![10u8] + encoded(replay_operations(path, pieces, t), replay_operations(path, pieces, t).len() as int)
}

/// The bytes a path's replay file compresses (see `replay_payload`): the
/// metadata line, a newline, and the path's replay bytes.
pub fn replay_data(
    metadata: &Vec<u8>,
    path: &[PathNode],
    piece_sequence: &[PieceType],
    timing: &ReplayTiming,
) -> (data: Vec<u8>)
    requires
        replay_ok(path@, piece_sequence@),
        techmino_checks_ok(path@, piece_sequence@, *timing),
    ensures
        data@ == replay_payload(metadata@, path@, piece_sequence@, *timing),
{
    let replay_bin = export_replay(path, piece_sequence, timing);
    let mut data: Vec<u8> = Vec::new();
    let mut i: usize = 0;
    while i < metadata.len()
        invariant
            i <= metadata@.len(),
            data@ == metadata@.take(i as int),
        decreases metadata@.len() - i,
    {
        data.push(metadata[i]);
        proof {
            assert(metadata@.take(i + 1) =~= metadata@.take(i as int).push(metadata@[i as int]));
        }
        i += 1;
    }
    data.push(10);
    let mut j: usize = 0;
    let ghost head = data@;
    while j < replay_bin.len()
        invariant
            j <= replay_bin@.len(),
            data@ == head + replay_bin@.take(j as int),
        decreases replay_bin@.len() - j,
    {
        data.push(replay_bin[j]);
        proof {
            assert(replay_bin@.take(j + 1) =~= replay_bin@.take(j as int).push(replay_bin@[j as int]));
        }
        j += 1;
    }
    proof {
        assert(metadata@.take(metadata@.len() as int) =~= metadata@);
        assert(replay_bin@.take(replay_bin@.len() as int) =~= replay_bin@);
        assert(data@ =~= replay_payload(metadata@, path@, piece_sequence@, *timing));
    }
    data
}

/// The text of a replay file from its compressed bytes: their standard
/// base64. `None` where compression failed, or where the text would not fit
/// in this address space.
pub fn replay_text(compressed: Option<Vec<u8>>) -> (r: Option<String>)
    ensures
        match compressed {
            Some(v) => if v@.len() / 3 <= (usize::MAX - 4) / 4 {
                r matches Some(s) && s@ == base64_standard(v@)
            } else {
                r is None
            },
            None => r is None,
        },
{
    match compressed {
        Some(v) => {
            if v.len() / 3 > (usize::MAX - 4) / 4 {
                None
            } else {
                Some(base64_encode(&v))
            }
        },
        None => None,
    }
}

/// What `replay_text` gives for compressed bytes `c`, as text: the
/// standard base64 of the stream, `None` where there is none or the text
/// would not fit in this address space.
pub open spec fn text_of(c: Option<Seq<u8>>) -> Option<Seq<char>> {
    match c {
        Some(v) => if v.len() / 3 <= (usize::MAX - 4) / 4 {
            Some(base64_standard(v))
        } else {
            None
        },
        None => None,
    }
}

/// The text of a result, where there is one.
pub open spec fn text_view(r: Option<String>) -> Option<Seq<char>> {
    match r {
        Some(s) => Some(s@),
        None => None,
    }
}

/// The Techmino replay of a path: its payload (see `replay_data`),
/// zlib-compressed by flate2 at its default level, then as `replay_text`
/// writes it. `None` only where the text would not fit in this address
/// space.
pub fn gen_replay(
    metadata: &Vec<u8>,
    path: &[PathNode],
    piece_sequence: &[PieceType],
    timing: &ReplayTiming,
) -> (r: Option<String>)
    requires
        replay_ok(path@, piece_sequence@),
        techmino_checks_ok(path@, piece_sequence@, *timing),
    ensures
        r matches Some(s) ==> s@ == base64_standard(zlib_default(replay_payload(metadata@, path@, piece_sequence@, *timing))),
        text_view(r) == text_of(Some(zlib_default(replay_payload(metadata@, path@, piece_sequence@, *timing)))),
{
    let data = replay_data(metadata, path, piece_sequence, timing);
    let mut encoder = zlib_encoder();
    let compressed = if zlib_write_all(&mut encoder, &data) {
        zlib_finish(encoder)
    } else {
        None
    };
    replay_text(compressed)
}

} // verus!
