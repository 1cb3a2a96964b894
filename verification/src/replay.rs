//! Replays: the key steps of a path turned into the calls of a replay
//! consumer, which writes them in a game's replay format.
pub mod das;
pub mod keys;
pub mod techmino;

use vstd::prelude::*;
use crate::PieceType;
use crate::config::{ENGINE, GameEngine};
use crate::movegen::{compile_action, rebuild_actions_general, Action, ActionStep, ReplayMove, StepView};
use crate::search::PathNode;
use crate::replay::techmino::{encode_operations, ReplayTiming};

verus! {

use crate::movegen::{
    move_effect, place_effect, compile_ok, compiled_step, path_moves, is_das_release, is_das_start, finesse_ops, path_step, raw_moves, presses,
    presses_from, releases_from, no_das_from, row_shape_ok,
};
use crate::replay::techmino::encoded;

/// A key as a replay consumer receives it.
#[derive(Clone, Copy, PartialEq, Eq, Debug, Structural)]
pub enum ActionKind {
    MoveLeft,
    MoveRight,
    RotateCW,
    RotateCCW,
    Rotate180,
    DasLeft,
    DasRight,
    HardDrop,
    Hold,
}

/// One call to a replay consumer. A burst is its keys, one `BurstKey` each,
/// then `BurstEnd`.
#[derive(Clone, Copy, PartialEq, Eq, Debug, Structural)]
pub enum ReplayCall {
    Tap(ActionKind),
    DasStart(ActionKind),
    DasRelease(ActionKind),
    BurstKey(ActionKind),
    BurstEnd,
    Pipeline(ActionKind),
}

/// Whether a key is tapped: anything but a DAS.
pub open spec fn is_tap_kind(a: ActionKind) -> bool {
    a != ActionKind::DasLeft && a != ActionKind::DasRight
}

/// Whether a key is a DAS.
pub open spec fn is_das_kind(a: ActionKind) -> bool {
    a == ActionKind::DasLeft || a == ActionKind::DasRight
}

/// The calls of a burst of `keys`.
pub open spec fn burst_calls(keys: Seq<ActionKind>) -> Seq<ReplayCall> {
    Seq::new(keys.len(), |i: int| ReplayCall::BurstKey(keys[i])).push(ReplayCall::BurstEnd)
}

/// The DAS held after `calls`, from `d` held before them: a press or a
/// pipeline holds its DAS, a release lets it go, and every other call (a
/// burst too) keeps what is held.
pub open spec fn held_das_from(d: Option<ActionKind>, calls: Seq<ReplayCall>) -> Option<ActionKind>
    decreases calls.len(),
{
    if calls.len() == 0 {
        d
    } else {
        match calls.last() {
            ReplayCall::DasStart(k) => Some(k),
            ReplayCall::Pipeline(k) => Some(k),
            ReplayCall::DasRelease(_) => None,
            _ => held_das_from(d, calls.drop_last()),
        }
    }
}

/// The DAS held after `calls`, from none.
pub open spec fn held_das(calls: Seq<ReplayCall>) -> Option<ActionKind> {
    held_das_from(None, calls)
}

/// A key-count check received by a consumer: how many calls it had received
/// then, the path position `i` checked, the DAS held, and whether the step
/// was a burst or a pipeline.
pub type KeysCheck = (int, int, Option<ActionKind>, bool);

/// Where a replay is written: it takes taps, DAS presses and releases,
/// bursts (keys tapped while a DAS is held, then the drop) and pipelines (a
/// tap turned into a DAS that the next piece keeps, then the drop).
pub trait ReplayConsumer {
    /// The calls received so far.
    spec fn calls(&self) -> Seq<ReplayCall>;

    /// What the consumer keeps true between calls.
    spec fn inv(&self) -> bool;

    /// The values the consumer was made with, which no call changes.
    spec fn setup(&self) -> Seq<int>;

    /// The key-count checks received so far, in order.
    spec fn checks(&self) -> Seq<KeysCheck>;

    /// Whether a consumer made with `setup` that has received `calls` passes
    /// the key-count check of position `i` of `path`, with `das` held, after a
    /// step that was a burst or a pipeline where `exempt`.
    spec fn keys_ok(
        setup: Seq<int>,
        calls: Seq<ReplayCall>,
        i: int,
        path: Seq<PathNode>,
        das: Option<ActionKind>,
        exempt: bool,
    ) -> bool;

    /// Taps a key.
    fn tap(&mut self, action: ActionKind)
        requires
            old(self).inv(),
            is_tap_kind(action),
        ensures
            final(self).inv(),
            final(self).setup() == old(self).setup(),
            final(self).calls() == old(self).calls().push(ReplayCall::Tap(action)),
            final(self).checks() == old(self).checks(),
    ;

    /// Presses a DAS and holds it.
    fn das_start(&mut self, dir: ActionKind)
        requires
            old(self).inv(),
            is_das_kind(dir),
        ensures
            final(self).inv(),
            final(self).setup() == old(self).setup(),
            final(self).calls() == old(self).calls().push(ReplayCall::DasStart(dir)),
            final(self).checks() == old(self).checks(),
    ;

    /// Releases a held DAS.
    fn das_release(&mut self, dir: ActionKind)
        requires
            old(self).inv(),
            is_das_kind(dir),
        ensures
            final(self).inv(),
            final(self).setup() == old(self).setup(),
            final(self).calls() == old(self).calls().push(ReplayCall::DasRelease(dir)),
            final(self).checks() == old(self).checks(),
    ;

    /// Taps `actions` while the DAS stays held, then drops the piece.
    fn burst(&mut self, actions: Vec<ActionKind>)
        requires
            old(self).inv(),
            forall|i: int| 0 <= i < actions@.len() ==> is_tap_kind(#[trigger] actions@[i]),
        ensures
            final(self).inv(),
            final(self).setup() == old(self).setup(),
            final(self).calls() == old(self).calls() + burst_calls(actions@),
            final(self).checks() == old(self).checks(),
    ;

    /// Presses the DAS `dir` in place of the last tap, drops the piece, and
    /// keeps the DAS held for the next piece.
    fn pipeline(&mut self, dir: ActionKind)
        requires
            old(self).inv(),
            is_das_kind(dir),
        ensures
            final(self).inv(),
            final(self).setup() == old(self).setup(),
            final(self).calls() == old(self).calls().push(ReplayCall::Pipeline(dir)),
            final(self).checks() == old(self).checks(),
    ;

    /// Checks, after a step of `path`, that what was written matches the
    /// keys pressed to reach position `i`, with `active_das` held; `exempt`
    /// where the step was a burst or a pipeline. Records the check.
    fn debug_keys_assertion(&mut self, i: usize, path: &[PathNode], active_das: Option<ActionKind>, exempt: bool)
        requires
            old(self).inv(),
            Self::keys_ok(old(self).setup(), old(self).calls(), i as int, path@, active_das, exempt),
        ensures
            final(self).inv(),
            final(self).setup() == old(self).setup(),
            final(self).calls() == old(self).calls(),
            final(self).checks() == old(self).checks().push((old(self).calls().len() as int, i as int, active_das, exempt)),
    ;
}

/// The key of a rotation or tap.
pub open spec fn tap_kind(a: Action) -> ActionKind {
    match a {
        Action::MoveLeft => ActionKind::MoveLeft,
        Action::MoveRight => ActionKind::MoveRight,
        Action::RotateCW => ActionKind::RotateCW,
        Action::RotateCCW => ActionKind::RotateCCW,
        _ => ActionKind::Rotate180,
    }
}

/// The key of action `a` in a burst after the release `up`: a rotation, or a
/// tap away from the DAS; `None` for anything else.
pub open spec fn burst_kind(up: Action, a: Action) -> Option<ActionKind> {
    match a {
        Action::RotateCW => Some(ActionKind::RotateCW),
        Action::RotateCCW => Some(ActionKind::RotateCCW),
        Action::Rotate180 => Some(ActionKind::Rotate180),
        Action::MoveRight => if up == Action::DasLeftUp {
            Some(ActionKind::MoveRight)
        } else {
            None
        },
        Action::MoveLeft => if up == Action::DasRightUp {
            Some(ActionKind::MoveLeft)
        } else {
            None
        },
        _ => None,
    }
}

/// The keys of a burst: the actions after position `idx`.
pub open spec fn burst_keys(actions: Seq<Action>, idx: int) -> Seq<ActionKind> {
    Seq::new(
        (actions.len() - idx - 1) as nat,
        |t: int| burst_kind(actions[idx], actions[idx + 1 + t])->0,
    )
}

/// The calls for the actions of a step from position `idx` on: rotations
/// and taps are tapped, a DAS is pressed, a release releases it, except that
/// a release in a burst step sends the rest as a burst and a last tap in a
/// pipeline step becomes the pipeline, and either ends the step.
pub open spec fn action_calls(actions: Seq<Action>, burst: bool, pipeline: bool, idx: int) -> Seq<
    ReplayCall,
>
    decreases actions.len() - idx,
{
    if idx < 0 || idx >= actions.len() {
        Seq::empty()
    } else {
        let rest = action_calls(actions, burst, pipeline, idx + 1);
        match actions[idx] {
            Action::MoveLeft => if pipeline && idx == actions.len() - 1 {
                seq![ReplayCall::Pipeline(ActionKind::DasLeft)]
            } else {
                seq![ReplayCall::Tap(ActionKind::MoveLeft)] + rest
            },
            Action::MoveRight => if pipeline && idx == actions.len() - 1 {
                seq![ReplayCall::Pipeline(ActionKind::DasRight)]
            } else {
                seq![ReplayCall::Tap(ActionKind::MoveRight)] + rest
            },
            Action::DasLeft => seq![ReplayCall::DasStart(ActionKind::DasLeft)] + rest,
            Action::DasRight => seq![ReplayCall::DasStart(ActionKind::DasRight)] + rest,
            Action::DasLeftUp => if burst {
                burst_calls(burst_keys(actions, idx))
            } else {
                seq![ReplayCall::DasRelease(ActionKind::DasLeft)] + rest
            },
            Action::DasRightUp => if burst {
                burst_calls(burst_keys(actions, idx))
            } else {
                seq![ReplayCall::DasRelease(ActionKind::DasRight)] + rest
            },
            _ => seq![ReplayCall::Tap(tap_kind(actions[idx]))] + rest,
        }
    }
}

/// The calls of one step: the hold, the actions (the first skipped where
/// the step continues a held DAS), and the drop unless a burst or pipeline
/// made it.
pub open spec fn step_calls(st: StepView) -> Seq<ReplayCall> {
    (if st.hold {
        seq![ReplayCall::Tap(ActionKind::Hold)]
    } else {
        Seq::empty()
    }) + action_calls(st.actions, st.burst, st.pipeline, if st.reused {
        1int
    } else {
        0
    }) + (if !st.pipeline && !st.burst {
        seq![ReplayCall::Tap(ActionKind::HardDrop)]
    } else {
        Seq::empty()
    })
}

/// The calls of the first `n` steps of the merged moves `ms`.
pub open spec fn replay_calls(ms: Seq<(usize, crate::movegen::ReplayMove)>, n: int) -> Seq<ReplayCall>
    decreases n,
{
    if n <= 0 {
        Seq::empty()
    } else {
        replay_calls(ms, n - 1) + step_calls(compiled_step(ms, n - 1))
    }
}

/// Whether every burst of a step has keys for what follows its release.
pub open spec fn bursts_ok(st: StepView) -> bool {
    forall|idx: int, t: int|
        0 <= idx < t < st.actions.len() && st.burst && is_das_release(st.actions[idx]) ==> (burst_kind(
            st.actions[idx],
            st.actions[t],
        ) is Some)
}

/// Whether `compile_replay` has what it reads: a path that `compile_action`
/// takes, whose bursts all have keys.
pub open spec fn replay_ok(path: Seq<PathNode>, pieces: Seq<PieceType>) -> bool {
    &&& compile_ok(path, pieces)
    &&& forall|i: int|
        0 <= i < path_moves(path, pieces).len() ==> bursts_ok(#[trigger] compiled_step(path_moves(path, pieces), i))
}

/// Whether `a` after the release `up` is a burst key (see `burst_kind`).
fn is_burst_key(up: Action, a: Action) -> (b: bool)
    ensures
        b == (burst_kind(up, a) is Some),
{
    match a {
        Action::RotateCW => true,
        Action::RotateCCW => true,
        Action::Rotate180 => true,
        Action::MoveRight => up == Action::DasLeftUp,
        Action::MoveLeft => up == Action::DasRightUp,
        _ => false,
    }
}

/// Whether every key after a release of a burst step is a burst key (see
/// `bursts_ok`).
fn bursts_check(st: &ActionStep) -> (b: bool)
    ensures
        b == bursts_ok(st@),
{
    if !st.burst {
        return true;
    }
    let n = st.actions.len();
    let mut idx: usize = 0;
    while idx < n
        invariant
            n == st@.actions.len(),
            st@.burst,
            idx <= n,
            forall|i: int, t: int|
                0 <= i < idx && i < t < n && is_das_release(st@.actions[i]) ==> (burst_kind(
                    st@.actions[i],
                    st@.actions[t],
                ) is Some),
        decreases n - idx,
    {
        if crate::movegen::is_das_release_exec(st.actions[idx]) {
            let mut t: usize = idx + 1;
            while t < n
                invariant
                    n == st@.actions.len(),
                    st@.burst,
                    is_das_release(st@.actions[idx as int]),
                    idx < n,
                    idx < t <= n,
                    forall|u: int| idx < u < t ==> (burst_kind(st@.actions[idx as int], st@.actions[u]) is Some),
                decreases n - t,
            {
                if !is_burst_key(st.actions[idx], st.actions[t]) {
                    assert(!(burst_kind(st@.actions[idx as int], st@.actions[t as int]) is Some));
                    return false;
                }
                t += 1;
            }
        }
        idx += 1;
    }
    true
}

/// Whether `path` and `piece_sequence` meet what `compile_replay` and the
/// replay writers require (see `replay_ok`).
pub fn replay_checks(path: &[PathNode], piece_sequence: &[PieceType]) -> (ok: bool)
    ensures
        ok == replay_ok(path@, piece_sequence@),
{
    if path.len() == 0 || path.len() - 1 > piece_sequence.len() {
        return false;
    }
    let n = path.len() - 1;
    let mut i: usize = 0;
    while i < n
        invariant
            n == path@.len() - 1,
            n <= piece_sequence@.len(),
            i <= n,
            forall|j: int| 0 <= j < i ==> (#[trigger] path_step(path@[j], piece_sequence@[j], path@[j + 1])) is Some,
        decreases n - i,
    {
        if !crate::movegen::step_exists(&path[i], piece_sequence[i], &path[i + 1]) {
            assert(!compile_ok(path@, piece_sequence@));
            return false;
        }
        i += 1;
    }
    assert(crate::movegen::steps_ok(path@, piece_sequence@));
    let ghost ms = path_moves(path@, piece_sequence@);
    let (moves, next_dir) = crate::movegen::final_moves(path, piece_sequence);
    let m = moves.len();
    if m == 0 {
        return false;
    }
    let mut t: usize = 0;
    while t < m
        invariant
            m == moves@.len(),
            m == ms.len(),
            ms == path_moves(path@, piece_sequence@),
            next_dir@.len() == m,
            forall|u: int| 0 <= u < m ==> (#[trigger] moves@[u]).0 == ms[u].0 && moves@[u].1 == crate::movegen::final_move(ms, u),
            forall|u: int| 0 <= u < m ==> #[trigger] next_dir@[u] == crate::movegen::next_das(ms, u),
            t <= m,
            forall|u: int| 0 <= u < t ==> crate::movegen::step_ok(#[trigger] crate::movegen::final_move(ms, u), crate::movegen::next_das(ms, u)),
        decreases m - t,
    {
        if !crate::movegen::step_ok_exec(moves[t].1, next_dir[t]) {
            assert(!crate::movegen::step_ok(crate::movegen::final_move(ms, t as int), crate::movegen::next_das(ms, t as int)));
            return false;
        }
        t += 1;
    }
    assert(compile_ok(path@, piece_sequence@));
    let steps = compile_action(path, piece_sequence);
    let mut k: usize = 0;
    while k < steps.len()
        invariant
            steps@.len() == ms.len(),
            ms == path_moves(path@, piece_sequence@),
            forall|u: int| 0 <= u < steps@.len() ==> #[trigger] steps@[u]@ == compiled_step(ms, u),
            k <= steps@.len(),
            forall|u: int| 0 <= u < k ==> bursts_ok(#[trigger] compiled_step(ms, u)),
        decreases steps@.len() - k,
    {
        assert(steps@[k as int]@ == compiled_step(ms, k as int));
        if !bursts_check(&steps[k]) {
            return false;
        }
        k += 1;
    }
    true
}

/// The burst keys after the release at `idx`.
fn burst_vec(actions: &Vec<Action>, idx: usize) -> (r: Vec<ActionKind>)
    requires
        idx < actions@.len(),
        forall|t: int| idx < t < actions@.len() ==> (burst_kind(actions@[idx as int], actions@[t]) is Some),
    ensures
        r@ == burst_keys(actions@, idx as int),
        forall|i: int| 0 <= i < r@.len() ==> is_tap_kind(#[trigger] r@[i]),
{
    let up = actions[idx];
    let n = actions.len();
    let mut r: Vec<ActionKind> = Vec::new();
    let mut t = idx + 1;
    while t < n
        invariant
            idx < t <= actions@.len(),
            n == actions@.len(),
            up == actions@[idx as int],
            forall|s: int| idx < s < actions@.len() ==> (burst_kind(actions@[idx as int], actions@[s]) is Some),
            r@ == burst_keys(actions@, idx as int).take(t - idx - 1),
            forall|i: int| 0 <= i < r@.len() ==> is_tap_kind(#[trigger] r@[i]),
        decreases actions@.len() - t,
    {
        let k = match actions[t] {
            Action::RotateCW => ActionKind::RotateCW,
            Action::RotateCCW => ActionKind::RotateCCW,
            Action::Rotate180 => ActionKind::Rotate180,
            Action::MoveRight => ActionKind::MoveRight,
            _ => ActionKind::MoveLeft,
        };
        proof {
            assert(burst_kind(up, actions@[t as int]) == Some(k));
            assert(burst_keys(actions@, idx as int).take(t - idx) =~= burst_keys(actions@, idx as int).take(
                t - idx - 1,
            ).push(k));
        }
        r.push(k);
        t += 1;
    }
    assert(burst_keys(actions@, idx as int).take(t - idx - 1) =~= burst_keys(actions@, idx as int));
    r
}

/// Sends the calls of one step to the consumer (see `step_calls`).
/// Returns the DAS held after it, from `das` held before.
fn replay_step<C: ReplayConsumer>(step: &ActionStep, consumer: &mut C, das: Option<ActionKind>) -> (r: Option<ActionKind>)
    requires
        old(consumer).inv(),
        bursts_ok(step@),
    ensures
        final(consumer).inv(),
        final(consumer).setup() == old(consumer).setup(),
        final(consumer).calls() == old(consumer).calls() + step_calls(step@),
        final(consumer).checks() == old(consumer).checks(),
        r == held_das_from(das, step_calls(step@)),
{
    let ghost start = consumer.calls();
    let ghost l = start.len() as int;
    let mut held = das;
    proof {
        assert(consumer.calls().skip(l) =~= Seq::<ReplayCall>::empty());
    }
    if step.hold {
        let ghost cur = consumer.calls();
        consumer.tap(ActionKind::Hold);
        proof {
            lemma_held_after_push(das, cur, ReplayCall::Tap(ActionKind::Hold), l);
        }
    }
    let ghost after_hold = consumer.calls();
    let actions = &step.actions;
    let n = actions.len();
    let first: usize = if step.reused {
        1
    } else {
        0
    };
    let mut idx: usize = first;
    let mut done = false;
    while idx < n && !done
        invariant
            n == actions@.len(),
            actions@ == step.actions@,
            bursts_ok(step@),
            consumer.inv(),
            consumer.setup() == old(consumer).setup(),
            consumer.checks() == old(consumer).checks(),
            l == start.len(),
            consumer.calls().len() >= l,
            consumer.calls().take(l) == start,
            held == held_das_from(das, consumer.calls().skip(l)),
            first <= idx,
            !done ==> after_hold + action_calls(actions@, step.burst, step.pipeline, first as int)
                == consumer.calls() + action_calls(actions@, step.burst, step.pipeline, idx as int),
            done ==> consumer.calls() == after_hold + action_calls(actions@, step.burst, step.pipeline, first as int),
        decreases n - idx, if done {
            0int
        } else {
            1int
        },
    {
        let ghost cur = consumer.calls();
        let ghost rest = action_calls(actions@, step.burst, step.pipeline, idx + 1);
        let is_last = idx == n - 1;
        match actions[idx] {
            Action::RotateCW => consumer.tap(ActionKind::RotateCW),
            Action::RotateCCW => consumer.tap(ActionKind::RotateCCW),
            Action::Rotate180 => consumer.tap(ActionKind::Rotate180),
            Action::MoveLeft => {
                if step.pipeline && is_last {
                    consumer.pipeline(ActionKind::DasLeft);
                    held = Some(ActionKind::DasLeft);
                    done = true;
                } else {
                    consumer.tap(ActionKind::MoveLeft);
                }
            },
            Action::MoveRight => {
                if step.pipeline && is_last {
                    consumer.pipeline(ActionKind::DasRight);
                    held = Some(ActionKind::DasRight);
                    done = true;
                } else {
                    consumer.tap(ActionKind::MoveRight);
                }
            },
            Action::DasLeft => {
                consumer.das_start(ActionKind::DasLeft);
                held = Some(ActionKind::DasLeft);
            },
            Action::DasRight => {
                consumer.das_start(ActionKind::DasRight);
                held = Some(ActionKind::DasRight);
            },
            Action::DasLeftUp => {
                if step.burst {
                    let keys = burst_vec(actions, idx);
                    proof {
                        lemma_held_after_burst(das, cur, keys@, l);
                    }
                    consumer.burst(keys);
                    done = true;
                } else {
                    consumer.das_release(ActionKind::DasLeft);
                    held = None;
                }
            },
            Action::DasRightUp => {
                if step.burst {
                    let keys = burst_vec(actions, idx);
                    proof {
                        lemma_held_after_burst(das, cur, keys@, l);
                    }
                    consumer.burst(keys);
                    done = true;
                } else {
                    consumer.das_release(ActionKind::DasRight);
                    held = None;
                }
            },
        }
        proof {
            if consumer.calls().len() == cur.len() + 1 && consumer.calls() == cur.push(consumer.calls().last()) {
                lemma_held_after_push(das, cur, consumer.calls().last(), l);
            }
            assert(consumer.calls().take(l) =~= start) by {
                assert forall|j: int| 0 <= j < l implies consumer.calls()[j] == start[j] by {
                    assert(consumer.calls()[j] == cur[j]);
                    assert(cur[j] == cur.take(l)[j]);
                }
            }
        }
        proof {
            let here = action_calls(actions@, step.burst, step.pipeline, idx as int);
            if done {
                assert(consumer.calls() =~= cur + here);
            } else {
                assert(here =~= seq![consumer.calls().last()] + rest);
                assert(consumer.calls() =~= cur.push(consumer.calls().last()));
                assert(cur + here =~= consumer.calls() + rest);
            }
        }
        if !done {
            idx += 1;
        }
    }
    proof {
        if !done {
            assert(action_calls(actions@, step.burst, step.pipeline, idx as int) =~= Seq::<ReplayCall>::empty());
            assert(consumer.calls() =~= after_hold + action_calls(actions@, step.burst, step.pipeline, first as int));
        }
    }
    if !step.pipeline && !step.burst {
        let ghost cur = consumer.calls();
        consumer.tap(ActionKind::HardDrop);
        proof {
            lemma_held_after_push(das, cur, ReplayCall::Tap(ActionKind::HardDrop), l);
        }
    }
    proof {
        assert(consumer.calls() =~= start + step_calls(step@));
        assert(consumer.calls().skip(l) =~= step_calls(step@));
    }
    held
}

proof fn lemma_held_after_push(d: Option<ActionKind>, calls: Seq<ReplayCall>, c: ReplayCall, l: int)
    requires
        0 <= l <= calls.len(),
    ensures
        held_das_from(d, calls.push(c).skip(l)) == match c {
            ReplayCall::DasStart(k) => Some(k),
            ReplayCall::Pipeline(k) => Some(k),
            ReplayCall::DasRelease(_) => None,
            _ => held_das_from(d, calls.skip(l)),
        },
{
    let t = calls.skip(l).push(c);
    assert(calls.push(c).skip(l) =~= t);
    assert(t.drop_last() =~= calls.skip(l));
}

proof fn lemma_held_keeps(d: Option<ActionKind>, a: Seq<ReplayCall>, e: Seq<ReplayCall>)
    requires
        forall|i: int| 0 <= i < e.len() ==> (#[trigger] e[i] is BurstKey) || e[i] is BurstEnd,
    ensures
        held_das_from(d, a + e) == held_das_from(d, a),
    decreases e.len(),
{
    if e.len() == 0 {
        assert(a + e =~= a);
    } else {
        assert((a + e).drop_last() =~= a + e.drop_last());
        assert((a + e).last() == e[e.len() - 1]);
        assert(e[e.len() - 1] is BurstKey || e[e.len() - 1] is BurstEnd);
        lemma_held_keeps(d, a, e.drop_last());
    }
}

proof fn lemma_held_after_burst(d: Option<ActionKind>, calls: Seq<ReplayCall>, keys: Seq<ActionKind>, l: int)
    requires
        0 <= l <= calls.len(),
    ensures
        held_das_from(d, (calls + burst_calls(keys)).skip(l)) == held_das_from(d, calls.skip(l)),
{
    assert((calls + burst_calls(keys)).skip(l) =~= calls.skip(l) + burst_calls(keys));
    lemma_held_keeps(d, calls.skip(l), burst_calls(keys));
}

/// Holding after two runs of calls is holding after the second from what
/// the first leaves.
proof fn lemma_held_concat(d: Option<ActionKind>, a: Seq<ReplayCall>, b: Seq<ReplayCall>)
    ensures
        held_das_from(d, a + b) == held_das_from(held_das_from(d, a), b),
    decreases b.len(),
{
    if b.len() == 0 {
        assert(a + b =~= a);
    } else {
        assert((a + b).drop_last() =~= a + b.drop_last());
        lemma_held_concat(d, a, b.drop_last());
    }
}



/// Sends the whole replay of a path to the consumer: the steps of
/// `compile_action`, each as `step_calls` says. The calls keep the DAS rules
/// (see `das::lemma_replay_das_rules`).
#[verifier::spinoff_prover]
#[verifier::rlimit(60)]
pub fn compile_replay<C: ReplayConsumer>(path: &[PathNode], piece_sequence: &[PieceType], consumer: &mut C)
    requires
        old(consumer).inv(),
        replay_ok(path@, piece_sequence@),
        forall|k: int|
            0 <= k < path_moves(path@, piece_sequence@).len() ==> #[trigger] C::keys_ok(
                old(consumer).setup(),
                old(consumer).calls() + replay_calls(path_moves(path@, piece_sequence@), k + 1),
                path_moves(path@, piece_sequence@)[k].0 + 1,
                path@,
                held_das(replay_calls(path_moves(path@, piece_sequence@), k + 1)),
                step_exempt(path_moves(path@, piece_sequence@), k),
            ),
    ensures
        final(consumer).inv(),
        final(consumer).setup() == old(consumer).setup(),
        final(consumer).calls() == old(consumer).calls() + replay_calls(
            path_moves(path@, piece_sequence@),
            path_moves(path@, piece_sequence@).len() as int,
        ),
        final(consumer).checks() == old(consumer).checks() + step_checks(
            path_moves(path@, piece_sequence@),
            path_moves(path@, piece_sequence@).len() as int,
            old(consumer).calls().len() as int,
        ),
{
    let ghost ms = path_moves(path@, piece_sequence@);
    let ghost start = consumer.calls();
    let ghost start_checks = consumer.checks();
    let steps = compile_action(path, piece_sequence);
    proof {
        crate::movegen::lemma_merged_len(raw_moves(path@, piece_sequence@), path@.len() - 1);
    }
    let mut held: Option<ActionKind> = None;
    let mut i: usize = 0;
    while i < steps.len()
        invariant
            steps@.len() == ms.len(),
            ms == path_moves(path@, piece_sequence@),
            replay_ok(path@, piece_sequence@),
            forall|t: int| 0 <= t < steps@.len() ==> #[trigger] steps@[t]@ == compiled_step(ms, t),
            forall|t: int| 0 <= t < ms.len() ==> #[trigger] ms[t].0 < path@.len() - 1,
            forall|k: int|
                0 <= k < ms.len() ==> #[trigger] C::keys_ok(
                    old(consumer).setup(),
                    start + replay_calls(ms, k + 1),
                    ms[k].0 + 1,
                    path@,
                    held_das(replay_calls(ms, k + 1)),
                    step_exempt(ms, k),
                ),
            i <= steps@.len(),
            consumer.inv(),
            consumer.setup() == old(consumer).setup(),
            consumer.calls() == start + replay_calls(ms, i as int),
            consumer.checks() == start_checks + step_checks(ms, i as int, start.len() as int),
            held == held_das(replay_calls(ms, i as int)),
        decreases steps@.len() - i,
    {
        assert(steps@[i as int]@ == compiled_step(ms, i as int));
        assert(bursts_ok(compiled_step(ms, i as int)));
        held = replay_step(&steps[i], consumer, held);
        proof {
            assert(replay_calls(ms, i + 1) == replay_calls(ms, i as int) + step_calls(compiled_step(ms, i as int)));
            assert(consumer.calls() =~= start + replay_calls(ms, i + 1));
            lemma_held_concat(None, replay_calls(ms, i as int), step_calls(compiled_step(ms, i as int)));
            assert(ms[i as int].0 < path@.len() - 1);
            assert(C::keys_ok(
                old(consumer).setup(),
                start + replay_calls(ms, i + 1),
                ms[i as int].0 + 1,
                path@,
                held_das(replay_calls(ms, i + 1)),
                step_exempt(ms, i as int),
            ));
        }
        let exempt = steps[i].burst || steps[i].pipeline;
        assert(steps@[i as int].idx == ms[i as int].0);
        assert(ms[i as int].0 < path@.len() - 1);
        assert(steps[i as int].idx < path.len());
        consumer.debug_keys_assertion(steps[i].idx + 1, path, held, exempt);
        proof {
            assert(consumer.checks() =~= start_checks + step_checks(ms, i + 1, start.len() as int));
        }
        i += 1;
    }
}

/// Whether step `k` of the merged moves `ms` is a burst or a pipeline.
pub open spec fn step_exempt(ms: Seq<(usize, ReplayMove)>, k: int) -> bool {
    compiled_step(ms, k).burst || compiled_step(ms, k).pipeline
}

/// The key-count checks `compile_replay` makes for the first `n` steps of
/// `ms`, after `base` earlier calls: after step `k`, at the calls made so
/// far, of the path position after the step, with the DAS then held.
pub open spec fn step_checks(ms: Seq<(usize, ReplayMove)>, n: int, base: int) -> Seq<KeysCheck> {
    Seq::new(
        n as nat,
        |k: int|
            (
                base + replay_calls(ms, k + 1).len(),
                ms[k].0 + 1,
                held_das(replay_calls(ms, k + 1)),
                step_exempt(ms, k),
            ),
    )
}

/// The replay of a path in the format of the game the solver targets, after
/// its metadata line (see `techmino::gen_replay`).
pub fn gen_replay(
    metadata: &Vec<u8>,
    path: &[PathNode],
    piece_sequence: &[PieceType],
    timing: &techmino::ReplayTiming,
) -> (r: Option<String>)
    requires
        replay_ok(path@, piece_sequence@),
        techmino::techmino_checks_ok(path@, piece_sequence@, *timing),
    ensures
        r matches Some(s) ==> s@ == techmino::base64_standard(
            techmino::zlib_default(techmino::replay_payload(metadata@, path@, piece_sequence@, *timing)),
        ),
        techmino::text_view(r) == techmino::text_of(
            Some(techmino::zlib_default(techmino::replay_payload(metadata@, path@, piece_sequence@, *timing))),
        ),
{
    match ENGINE {
        GameEngine::TECHMINO => techmino::gen_replay(metadata, path, piece_sequence, timing),
    }
}

/// The state of the direct replay writer: the operations, the frame, the
/// event code of the DAS held (0 for none), whether no move has been written
/// yet, and whether a lone hold waits for the next move.
pub type FrameState = (Seq<u32>, u32, u32, bool, bool);

/// The operations and frame after a tap of event `ev` at frame `ts`: the
/// press, the release a tap later, another tap's pause, and one frame more
/// after a drop.
pub open spec fn tap_frames(ops: Seq<u32>, ts: u32, ev: u32, t: ReplayTiming) -> (Seq<u32>, u32) {
    let up = ts.wrapping_add(t.tap_wait);
    let next = up.wrapping_add(t.tap_wait);
    (ops + seq![ts, ev, up, (ev + 32) as u32], if ev == 6 {
        next.wrapping_add(1)
    } else {
        next
    })
}

/// The keys of a move as the direct writer has them: none for a lone hold,
/// else its finesse row.
pub open spec fn move_actions(m: ReplayMove) -> Seq<Action> {
    if m.hold_only {
        Seq::empty()
    } else {
        finesse_ops(m.finesse_idx as int, m.x as int)
    }
}

/// Operations, frame and held DAS after the actions from position `idx` on:
/// taps and rotations are tapped, a DAS is pressed and held for the DAS
/// wait, a release lets it go, except a release that is the last action,
/// which keeps it held.
pub open spec fn action_frames(st: (Seq<u32>, u32, u32), actions: Seq<Action>, idx: int, t: ReplayTiming) -> (
    Seq<u32>,
    u32,
    u32,
)
    decreases actions.len() - idx,
{
    if idx < 0 || idx >= actions.len() {
        st
    } else {
        let (ops, ts, act) = st;
        let next: (Seq<u32>, u32, u32) = match actions[idx] {
            Action::MoveLeft => {
                let (o, s) = tap_frames(ops, ts, 1, t);
                (o, s, act)
            },
            Action::MoveRight => {
                let (o, s) = tap_frames(ops, ts, 2, t);
                (o, s, act)
            },
            Action::RotateCW => {
                let (o, s) = tap_frames(ops, ts, 3, t);
                (o, s, act)
            },
            Action::RotateCCW => {
                let (o, s) = tap_frames(ops, ts, 4, t);
                (o, s, act)
            },
            Action::Rotate180 => {
                let (o, s) = tap_frames(ops, ts, 5, t);
                (o, s, act)
            },
            Action::DasLeft => (ops + seq![ts, 1u32], ts.wrapping_add(t.das_wait), 1u32),
            Action::DasRight => (ops + seq![ts, 2u32], ts.wrapping_add(t.das_wait), 2u32),
            Action::DasLeftUp => if actions.last() == Action::DasLeftUp {
                st
            } else {
                (ops + seq![ts, 33u32], ts, 0u32)
            },
            Action::DasRightUp => if actions.last() == Action::DasRightUp {
                st
            } else {
                (ops + seq![ts, 34u32], ts, 0u32)
            },
        };
        action_frames(next, actions, idx + 1, t)
    }
}

/// The state after the start of a move (not a lone hold): the drop of the
/// move before, after the held DAS is let go unless this move continues
/// it, then the waiting hold.
pub open spec fn move_start(st: FrameState, m: ReplayMove, t: ReplayTiming) -> FrameState {
    let (ops, ts, act, first, pending) = st;
    if !first {
        let (ops1, act1) = if !m.reused && act != 0 {
            (ops + seq![ts, (act + 32) as u32], 0u32)
        } else {
            (ops, act)
        };
        let (ops2, ts2) = tap_frames(ops1, ts, 6, t);
        let (ops3, ts3) = if pending {
            tap_frames(ops2, ts2, 8, t)
        } else {
            (ops2, ts2)
        };
        (ops3, ts3, act1, false, false)
    } else if pending {
        let (ops1, ts1) = tap_frames(ops, ts, 8, t);
        (ops1, ts1, act, false, false)
    } else {
        (ops, ts, act, false, false)
    }
}

/// The state after a move: a lone hold waits for the next move; another
/// move starts (see `move_start`), taps its hold, and plays its actions, the
/// first skipped where it continues the held DAS.
pub open spec fn move_frames(st: FrameState, m: ReplayMove, t: ReplayTiming) -> FrameState {
    if m.hold_only {
        (st.0, st.1, st.2, st.3, true)
    } else {
        let (ops, ts, act, first, pending) = move_start(st, m, t);
        let (ops1, ts1) = if m.hold {
            tap_frames(ops, ts, 8, t)
        } else {
            (ops, ts)
        };
        let (ops2, ts2, act2) = action_frames((ops1, ts1, act), move_actions(m), if m.reused {
            1int
        } else {
            0
        }, t);
        (ops2, ts2, act2, first, pending)
    }
}

/// The state after the first `n` moves.
pub open spec fn frames_after(ms: Seq<ReplayMove>, n: int, t: ReplayTiming) -> FrameState
    decreases n,
{
    if n <= 0 {
        (Seq::empty(), t.first_op, 0u32, true, false)
    } else {
        move_frames(frames_after(ms, n - 1, t), ms[n - 1], t)
    }
}

/// The operations of all the moves: the held DAS let go at the end, and the
/// last drop.
pub open spec fn path_frames(ms: Seq<ReplayMove>, t: ReplayTiming) -> Seq<u32> {
    let (ops, ts, act, first, pending) = frames_after(ms, ms.len() as int, t);
    let ops1 = if act != 0 {
        ops + seq![ts, (act + 32) as u32]
    } else {
        ops
    };
    tap_frames(ops1, ts, 6, t).0
}

/// Whether a path can be written by the direct writer: a piece for each
/// step, every step rebuilt, and a first node with no keys pressed and no
/// DAS side, as the search starts.
pub open spec fn path_ok(path: Seq<PathNode>, pieces: Seq<PieceType>) -> bool {
    &&& path.len() >= 1
    &&& pieces.len() + 1 >= path.len()
    &&& forall|i: int| 0 <= i < path.len() - 1 ==> (#[trigger] path_step(path[i], pieces[i], path[i + 1])) is Some
    &&& path[0].spec_keys_pressed() == 0
    &&& path[0].spec_meta() & 0x200u16 == 0
    &&& path[0].spec_meta() & 0x400u16 == 0
}

/// The check of the direct writer at a move that is no lone hold: a DAS to
/// skip where the move continues one, and, once the move has started, the
/// operations so far (a held DAS counted as its release to come) four for
/// each key pressed to reach the node the move starts from.
pub open spec fn frame_check(path: Seq<PathNode>, ms: Seq<ReplayMove>, t: ReplayTiming, i: int) -> bool {
    let st = move_start(frames_after(ms, i, t), ms[i], t);
    &&& (ms[i].reused ==> move_actions(ms[i]).len() > 0)
    &&& frame_count(st.0, st.2) == 4 * path[i].spec_keys_pressed()
}

/// What the direct writer keeps true after the moves up to node `i` of the
/// path: its operations (a held DAS counted as its release) are four for
/// each key pressed to reach that node, less the drop not yet written once a
/// move was, and less a waiting hold; a waiting hold left a full hold slot;
/// no DAS is held before the first move; and a DAS side bit of the node
/// means its DAS is held.
#[verifier::opaque]
pub open spec fn frames_inv(path: Seq<PathNode>, st: FrameState, i: int) -> bool {
    let node = path[i];
    &&& frame_count(st.0, st.2) == 4 * node.spec_keys_pressed() - (if !st.3 {
        4int
    } else {
        0
    }) - (if st.4 {
        4int
    } else {
        0
    })
    &&& st.2 <= 2
    &&& (st.3 ==> st.2 == 0)
    &&& (st.4 ==> node.spec_meta() >> 11u16 != 0)
    &&& (node.spec_meta() & 0x200u16 != 0 ==> st.2 == 1)
    &&& (node.spec_meta() & 0x400u16 != 0 ==> st.2 == 2)
}

/// Taps event `ev` (see `tap_frames`).
fn tap_event(ops: &mut Vec<u32>, ts: &mut u32, ev: u32, t: &ReplayTiming)
    requires
        ev <= 8,
    ensures
        (final(ops)@, *final(ts)) == tap_frames(old(ops)@, *old(ts), ev, *t),
{
    ops.push(*ts);
    ops.push(ev);
    *ts = ts.wrapping_add(t.tap_wait);
    ops.push(*ts);
    ops.push(ev + 32);
    *ts = ts.wrapping_add(t.tap_wait);
    if ev == 6 {
        *ts = ts.wrapping_add(1);
    }
    proof {
        assert(ops@ =~= old(ops)@ + seq![*old(ts), ev, old(ts).wrapping_add(t.tap_wait), (ev + 32) as u32]);
    }
}

/// Plays the actions of a move from position `first` on (see
/// `action_frames`).
fn play_actions(
    ops: &mut Vec<u32>,
    ts: &mut u32,
    act: &mut u32,
    actions: &Vec<Action>,
    first: usize,
    t: &ReplayTiming,
)
    requires
        *old(act) <= 2,
    ensures
        (final(ops)@, *final(ts), *final(act)) == action_frames(
            (old(ops)@, *old(ts), *old(act)),
            actions@,
            first as int,
            *t,
        ),
        *final(act) <= 2,
{
    let ghost target = action_frames((old(ops)@, *old(ts), *old(act)), actions@, first as int, *t);
    let n = actions.len();
    if first >= n {
        return;
    }
    let last = actions[n - 1];
    let mut k = first;
    while k < n
        invariant
            n == actions@.len(),
            first <= k <= n,
            last == actions@.last(),
            *act <= 2,
            action_frames((ops@, *ts, *act), actions@, k as int, *t) == target,
        decreases n - k,
    {
        let ghost o0 = ops@;
        let ghost t0 = *ts;
        let ghost a0 = *act;
        match actions[k] {
            Action::MoveLeft => tap_event(ops, ts, 1, t),
            Action::MoveRight => tap_event(ops, ts, 2, t),
            Action::RotateCW => tap_event(ops, ts, 3, t),
            Action::RotateCCW => tap_event(ops, ts, 4, t),
            Action::Rotate180 => tap_event(ops, ts, 5, t),
            Action::DasLeft => {
                ops.push(*ts);
                ops.push(1);
                *ts = ts.wrapping_add(t.das_wait);
                *act = 1;
                assert(ops@ =~= o0 + seq![t0, 1u32]);
            },
            Action::DasRight => {
                ops.push(*ts);
                ops.push(2);
                *ts = ts.wrapping_add(t.das_wait);
                *act = 2;
                assert(ops@ =~= o0 + seq![t0, 2u32]);
            },
            Action::DasLeftUp => {
                if last != Action::DasLeftUp {
                    ops.push(*ts);
                    ops.push(33);
                    *act = 0;
                    assert(ops@ =~= o0 + seq![t0, 33u32]);
                }
            },
            Action::DasRightUp => {
                if last != Action::DasRightUp {
                    ops.push(*ts);
                    ops.push(34);
                    *act = 0;
                    assert(ops@ =~= o0 + seq![t0, 34u32]);
                }
            },
        }
        proof {
            assert(action_frames((o0, t0, a0), actions@, k as int, *t) == action_frames(
                (ops@, *ts, *act),
                actions@,
                k + 1,
                *t,
            ));
        }
        k += 1;
    }
}

proof fn lemma_frames_base(path: Seq<PathNode>, pieces: Seq<PieceType>, t: ReplayTiming)
    requires
        path_ok(path, pieces),
    ensures
        frames_inv(path, frames_after(raw_moves(path, pieces), 0, t), 0),
{
    reveal(frames_inv);
}

/// One move keeps what the direct writer keeps true (see `frames_inv`), and
/// a move that is no lone hold passes the writer's check.
proof fn lemma_frames_step(path: Seq<PathNode>, ms: Seq<ReplayMove>, t: ReplayTiming, i: int)
    requires
        0 <= i < ms.len(),
        i + 1 < path.len(),
        frames_inv(path, frames_after(ms, i, t), i),
        move_effect(
            path[i].spec_keys_pressed(),
            path[i].spec_meta(),
            path[i + 1].spec_keys_pressed(),
            path[i + 1].spec_meta(),
            ms[i],
        ),
    ensures
        frames_inv(path, frames_after(ms, i + 1, t), i + 1),
        frames_after(ms, i + 1, t).2 <= 2,
        !ms[i].hold_only ==> frame_check(path, ms, t, i),
{
    reveal(frames_inv);
    let st = frames_after(ms, i, t);
    let m = ms[i];
    assert(frames_after(ms, i + 1, t) == move_frames(st, m, t));
    if !m.hold_only {
        let q = move_actions(m);
        assert(q == finesse_ops(m.finesse_idx as int, m.x as int));
        let s1 = move_start(st, m, t);
        assert(frame_count(s1.0, s1.2) == 4 * path[i].spec_keys_pressed());
        let (o2, t2) = if m.hold {
            tap_frames(s1.0, s1.1, 8, t)
        } else {
            (s1.0, s1.1)
        };
        let r: int = if m.reused {
            1
        } else {
            0
        };
        lemma_move_body((o2, t2, s1.2), q, r, t);
    }
}

/// After the last move, the drop: where the last move is no lone hold, the
/// operations are four for each key the last node was reached with.
proof fn lemma_frames_final(path: Seq<PathNode>, ms: Seq<ReplayMove>, t: ReplayTiming)
    requires
        ms.len() >= 1,
        path.len() == ms.len() + 1,
        !ms.last().hold_only,
        frames_inv(path, frames_after(ms, ms.len() as int, t), ms.len() as int),
    ensures
        path_frames(ms, t).len() == 4 * path.last().spec_keys_pressed(),
{
    reveal(frames_inv);
    let n = ms.len() as int;
    assert(frames_after(ms, n, t) == move_frames(frames_after(ms, n - 1, t), ms[n - 1], t));
}

/// The Techmino operations of a path, written straight from its moves (see
/// `path_frames`): each drop is written at the start of the next move, once
/// it is known whether the held DAS carries over. Every check of the writer
/// passes (see `frame_check`), and where the last move is no lone hold the
/// operations are four for each key the path's last node was reached with.
#[verifier::spinoff_prover]
#[verifier::rlimit(80)]
pub fn compile_path(path: &[PathNode], piece_sequence: &[PieceType], timing: &ReplayTiming) -> (ops: Vec<u32>)
    requires
        path_ok(path@, piece_sequence@),
    ensures
        ops@ == path_frames(raw_moves(path@, piece_sequence@), *timing),
        forall|i: int|
            0 <= i < path@.len() - 1 && !raw_moves(path@, piece_sequence@)[i].hold_only ==> #[trigger] frame_check(
                path@,
                raw_moves(path@, piece_sequence@),
                *timing,
                i,
            ),
        path@.len() >= 2 && !raw_moves(path@, piece_sequence@).last().hold_only ==> ops@.len() == 4
            * path@.last().spec_keys_pressed(),
{
    let ghost ms = raw_moves(path@, piece_sequence@);
    let ghost t = *timing;
    let mut operations: Vec<u32> = Vec::new();
    let mut timestamp = timing.first_op;
    let mut active_das: u32 = 0;
    let mut is_first = true;
    let mut last_is_hold_only = false;
    let n = path.len() - 1;
    let mut i: usize = 0;
    proof {
        lemma_frames_base(path@, piece_sequence@, t);
    }
    while i < n
        invariant
            n == path@.len() - 1,
            ms == raw_moves(path@, piece_sequence@),
            t == *timing,
            path_ok(path@, piece_sequence@),
            i <= n,
            (operations@, timestamp, active_das, is_first, last_is_hold_only) == frames_after(ms, i as int, t),
            active_das <= 2,
            frames_inv(path@, frames_after(ms, i as int, t), i as int),
            forall|j: int| 0 <= j < i && !ms[j].hold_only ==> #[trigger] frame_check(path@, ms, t, j),
        decreases n - i,
    {
        assert(path_step(path@[i as int], piece_sequence@[i as int], path@[i + 1]) is Some);
        let m = rebuild_actions_general(&path[i], piece_sequence[i], &path[i + 1]);
        assert(m == ms[i as int]);
        let ghost before = (operations@, timestamp, active_das, is_first, last_is_hold_only);
        if m.hold_only {
            last_is_hold_only = true;
        } else {
            if !is_first {
                if !m.reused && active_das != 0 {
                    operations.push(timestamp);
                    operations.push(active_das + 32);
                    active_das = 0;
                    assert(operations@ =~= before.0 + seq![before.1, (before.2 + 32) as u32]);
                }
                tap_event(&mut operations, &mut timestamp, 6, timing);
                if last_is_hold_only {
                    tap_event(&mut operations, &mut timestamp, 8, timing);
                }
            } else if last_is_hold_only {
                tap_event(&mut operations, &mut timestamp, 8, timing);
            }
            last_is_hold_only = false;
            is_first = false;
            assert((operations@, timestamp, active_das, is_first, last_is_hold_only) == move_start(before, m, t));
            if m.hold {
                tap_event(&mut operations, &mut timestamp, 8, timing);
            }
            let actions = crate::movegen::finesse_ops_exec(m.finesse_idx, m.x as usize);
            let first: usize = if m.reused {
                1
            } else {
                0
            };
            play_actions(&mut operations, &mut timestamp, &mut active_das, &actions, first, timing);
        }
        proof {
            lemma_frames_step(path@, ms, t, i as int);
            assert(frames_after(ms, i + 1, t) == move_frames(frames_after(ms, i as int, t), ms[i as int], t));
        }
        i += 1;
    }
    let ghost last = (operations@, timestamp, active_das);
    if active_das != 0 {
        operations.push(timestamp);
        operations.push(active_das + 32);
        assert(operations@ =~= last.0 + seq![last.1, (last.2 + 32) as u32]);
    }
    tap_event(&mut operations, &mut timestamp, 6, timing);
    proof {
        if path@.len() >= 2 && !ms.last().hold_only {
            lemma_frames_final(path@, ms, t);
        }
    }
    operations
}

/// The bytes of a path's Techmino replay as the direct writer has them:
/// `compile_path`'s operations as `encoded` writes them.
pub fn export_replay(path: &[PathNode], piece_sequence: &[PieceType], timing: &ReplayTiming) -> (bytes: Vec<u8>)
    requires
        path_ok(path@, piece_sequence@),
    ensures
        bytes@ == encoded(
            path_frames(raw_moves(path@, piece_sequence@), *timing),
            path_frames(raw_moves(path@, piece_sequence@), *timing).len() as int,
        ),
{
    let ops = compile_path(path, piece_sequence, timing);
    encode_operations(&ops)
}

/// The operations of a writer state, with a held DAS counted for the
/// release still to come.
pub open spec fn frame_count(ops: Seq<u32>, act: u32) -> int {
    ops.len() + if act != 0 {
        2int
    } else {
        0
    }
}

proof fn lemma_releases_last(q: Seq<Action>, k: int)
    requires
        0 <= k < q.len(),
    ensures
        releases_from(q, k) >= if is_das_release(q.last()) {
            1int
        } else {
            0
        },
        releases_from(q, k) >= 0,
    decreases q.len() - k,
{
    assert(releases_from(q, k) == (if is_das_release(q[k]) {
        1int
    } else {
        0
    }) + releases_from(q, k + 1));
    if k + 1 < q.len() {
        lemma_releases_last(q, k + 1);
    } else {
        assert(releases_from(q, k + 1) == 0);
        assert(q.last() == q[k]);
    }
}

proof fn lemma_releases_nonneg(q: Seq<Action>, k: int)
    ensures
        releases_from(q, k) >= 0,
    decreases q.len() - k,
{
    if 0 <= k < q.len() {
        lemma_releases_nonneg(q, k + 1);
        assert(releases_from(q, k) == (if is_das_release(q[k]) {
            1int
        } else {
            0
        }) + releases_from(q, k + 1));
    }
}

/// Playing actions with no DAS press from `k` on, and a DAS held before any
/// release: each press adds four operations (a release lets the held DAS go,
/// which was counted already), and the DAS stays held unless a release comes
/// before the last action.
proof fn lemma_frames_suffix(st: (Seq<u32>, u32, u32), q: Seq<Action>, k: int, t: ReplayTiming)
    requires
        0 <= k <= q.len(),
        no_das_from(q, k),
        releases_from(q, k) <= 1,
        releases_from(q, k) >= 1 ==> st.2 != 0,
        st.2 <= 2,
    ensures
        frame_count(action_frames(st, q, k, t).0, action_frames(st, q, k, t).2) == frame_count(st.0, st.2) + 4
            * presses_from(q, k),
        action_frames(st, q, k, t).2 <= 2,
        releases_from(q, k) == 0 || (q.len() > 0 && is_das_release(q.last())) ==> action_frames(st, q, k, t).2
            == st.2,
    decreases q.len() - k,
{
    if k < q.len() {
        let (ops, ts, act) = st;
        lemma_releases_nonneg(q, k + 1);
        if k + 1 < q.len() {
            lemma_releases_last(q, k + 1);
        }
        match q[k] {
            Action::DasLeftUp => {
                if q.last() == Action::DasLeftUp {
                    assert(k == q.len() - 1);
                    lemma_frames_suffix(st, q, k + 1, t);
                } else {
                    lemma_frames_suffix((ops + seq![ts, 33u32], ts, 0u32), q, k + 1, t);
                }
            },
            Action::DasRightUp => {
                if q.last() == Action::DasRightUp {
                    assert(k == q.len() - 1);
                    lemma_frames_suffix(st, q, k + 1, t);
                } else {
                    lemma_frames_suffix((ops + seq![ts, 34u32], ts, 0u32), q, k + 1, t);
                }
            },
            _ => {
                let ev: u32 = match q[k] {
                    Action::MoveLeft => 1,
                    Action::MoveRight => 2,
                    Action::RotateCW => 3,
                    Action::RotateCCW => 4,
                    _ => 5,
                };
                let (o, s) = tap_frames(ops, ts, ev, t);
                lemma_frames_suffix((o, s, act), q, k + 1, t);
            },
        }
    }
}

/// Playing the actions of a move from position `r` (1 where it continues
/// a held DAS, which is then held; 0 where none is held): each press of
/// the sequence but the one skipped adds four operations, and a sequence
/// that starts with a DAS and ends with its release leaves that DAS held.
proof fn lemma_move_body(st: (Seq<u32>, u32, u32), q: Seq<Action>, r: int, t: ReplayTiming)
    requires
        r == 0 || r == 1,
        row_shape_ok(q),
        r == 1 ==> q.len() > 0 && st.2 != 0,
        r == 0 ==> st.2 == 0,
        st.2 <= 2,
    ensures
        frame_count(action_frames(st, q, r, t).0, action_frames(st, q, r, t).2) == frame_count(st.0, st.2) + 4
            * (presses(q) - r),
        action_frames(st, q, r, t).2 <= 2,
        q.len() >= 2 && q[0] == Action::DasLeft && q.last() == Action::DasLeftUp ==> action_frames(st, q, r, t).2
            == if r == 0 {
            1u32
        } else {
            st.2
        },
        q.len() >= 2 && q[0] == Action::DasRight && q.last() == Action::DasRightUp ==> action_frames(st, q, r, t).2
            == if r == 0 {
            2u32
        } else {
            st.2
        },
{
    let (ops, ts, act) = st;
    lemma_releases_nonneg(q, 1);
    if q.len() > 0 {
        assert(releases_from(q, 0) == (if is_das_release(q[0]) {
            1int
        } else {
            0
        }) + releases_from(q, 1));
    }
    if r == 1 {
        lemma_frames_suffix(st, q, 1, t);
    } else if q.len() > 0 && is_das_start(q[0]) {
        let d: u32 = if q[0] == Action::DasLeft {
            1
        } else {
            2
        };
        let st1 = (ops + seq![ts, d], ts.wrapping_add(t.das_wait), d);
        assert(action_frames(st, q, 0, t) == action_frames(st1, q, 1, t));
        lemma_frames_suffix(st1, q, 1, t);
    } else {
        assert(no_das_from(q, 0));
        lemma_frames_suffix(st, q, 0, t);
    }
}

} // verus!
