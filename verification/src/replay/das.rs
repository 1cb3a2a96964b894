//! The DAS rules of a replay: a DAS is pressed, a side key tapped, or a
//! pipeline begun only while no DAS is held, each release releases the DAS
//! held, and a DAS is held between two moves exactly where the second
//! continues it.
use vstd::prelude::*;
use crate::movegen::{
    Action, StepView, finesse_ops, reuse_ops, special_ops, finesse_row_len, first_release, no_das_from,
    is_das_start, is_das_release, is_tap_move, das_of, tap_of, try_actions, try_actions_ok, step_actions,
    step_ok,
};
use crate::replay::{ActionKind, ReplayCall, action_calls};

verus! {

/// The release of the DAS `d`.
pub open spec fn release_of(d: Action) -> Action {
    if d == Action::DasLeft {
        Action::DasLeftUp
    } else {
        Action::DasRightUp
    }
}

/// The key a consumer receives for the DAS `d`.
pub open spec fn das_key(d: Action) -> ActionKind {
    if d == Action::DasLeft {
        ActionKind::DasLeft
    } else {
        ActionKind::DasRight
    }
}

/// Whether no action of `q` from position `k` on releases a DAS.
pub open spec fn no_release_from(q: Seq<Action>, k: int) -> bool
    decreases q.len() - k,
{
    k < 0 || k >= q.len() || (!is_das_release(q[k]) && no_release_from(q, k + 1))
}

/// Whether no action of `q` at positions `k` up to `hi` is a side tap.
pub open spec fn no_tap_between(q: Seq<Action>, k: int, hi: int) -> bool
    decreases hi - k,
{
    k < 0 || k >= hi || k >= q.len() || (!is_tap_move(q[k]) && no_tap_between(q, k + 1, hi))
}

/// Whether the key sequence `q` for column `x` keeps the DAS rules: a DAS
/// only first, towards the wall on the side of `x`, then released once, by
/// its own release, with no side tap before; without a DAS, no release.
pub open spec fn das_shape_ok(q: Seq<Action>, x: u8) -> bool {
    let pos = first_release(q, 0);
    &&& no_das_from(q, 1)
    &&& if q.len() > 0 && is_das_start(q[0]) {
        &&& q[0] == das_of(x)
        &&& pos < q.len()
        &&& q[pos] == release_of(q[0])
        &&& no_release_from(q, pos + 1)
        &&& no_tap_between(q, 1, pos)
    } else {
        pos == q.len()
    }
}

/// The key sequences of row `g` at column `x` keep the DAS rules.
pub open spec fn table_das_ok(g: int, x: u8) -> bool {
    &&& das_shape_ok(finesse_ops(g, x as int), x)
    &&& (reuse_ops(g, x as int) matches Some(q) ==> das_shape_ok(q, x))
    &&& (special_ops(g, x as int) matches Some(q) ==> das_shape_ok(q, x))
}

/// Every key sequence of the tables keeps the DAS rules.
#[verifier::spinoff_prover]
#[verifier::rlimit(100)]
pub proof fn lemma_table_das(g: int, x: u8)
    requires
        0 <= g < 9,
        x < finesse_row_len(g),
    ensures
        table_das_ok(g, x),
{
    reveal_with_fuel(no_das_from, 6);
    reveal_with_fuel(first_release, 6);
    reveal_with_fuel(no_release_from, 6);
    reveal_with_fuel(no_tap_between, 6);
    if g == 0 {
        if x == 0 {
            assert(table_das_ok(0, 0u8));
        } else if x == 1 {
            assert(table_das_ok(0, 1u8));
        } else if x == 2 {
            assert(table_das_ok(0, 2u8));
        } else if x == 3 {
            assert(table_das_ok(0, 3u8));
        } else if x == 4 {
            assert(table_das_ok(0, 4u8));
        } else if x == 5 {
            assert(table_das_ok(0, 5u8));
        } else if x == 6 {
            assert(table_das_ok(0, 6u8));
        } else if x == 7 {
            assert(table_das_ok(0, 7u8));
        }
    } else if g == 1 {
        if x == 0 {
            assert(table_das_ok(1, 0u8));
        } else if x == 1 {
            assert(table_das_ok(1, 1u8));
        } else if x == 2 {
            assert(table_das_ok(1, 2u8));
        } else if x == 3 {
            assert(table_das_ok(1, 3u8));
        } else if x == 4 {
            assert(table_das_ok(1, 4u8));
        } else if x == 5 {
            assert(table_das_ok(1, 5u8));
        } else if x == 6 {
            assert(table_das_ok(1, 6u8));
        } else if x == 7 {
            assert(table_das_ok(1, 7u8));
        } else if x == 8 {
            assert(table_das_ok(1, 8u8));
        }
    } else if g == 2 {
        if x == 0 {
            assert(table_das_ok(2, 0u8));
        } else if x == 1 {
            assert(table_das_ok(2, 1u8));
        } else if x == 2 {
            assert(table_das_ok(2, 2u8));
        } else if x == 3 {
            assert(table_das_ok(2, 3u8));
        } else if x == 4 {
            assert(table_das_ok(2, 4u8));
        } else if x == 5 {
            assert(table_das_ok(2, 5u8));
        } else if x == 6 {
            assert(table_das_ok(2, 6u8));
        } else if x == 7 {
            assert(table_das_ok(2, 7u8));
        }
    } else if g == 3 {
        if x == 0 {
            assert(table_das_ok(3, 0u8));
        } else if x == 1 {
            assert(table_das_ok(3, 1u8));
        } else if x == 2 {
            assert(table_das_ok(3, 2u8));
        } else if x == 3 {
            assert(table_das_ok(3, 3u8));
        } else if x == 4 {
            assert(table_das_ok(3, 4u8));
        } else if x == 5 {
            assert(table_das_ok(3, 5u8));
        } else if x == 6 {
            assert(table_das_ok(3, 6u8));
        } else if x == 7 {
            assert(table_das_ok(3, 7u8));
        } else if x == 8 {
            assert(table_das_ok(3, 8u8));
        }
    } else if g == 4 {
        if x == 0 {
            assert(table_das_ok(4, 0u8));
        } else if x == 1 {
            assert(table_das_ok(4, 1u8));
        } else if x == 2 {
            assert(table_das_ok(4, 2u8));
        } else if x == 3 {
            assert(table_das_ok(4, 3u8));
        } else if x == 4 {
            assert(table_das_ok(4, 4u8));
        } else if x == 5 {
            assert(table_das_ok(4, 5u8));
        } else if x == 6 {
            assert(table_das_ok(4, 6u8));
        } else if x == 7 {
            assert(table_das_ok(4, 7u8));
        }
    } else if g == 5 {
        if x == 0 {
            assert(table_das_ok(5, 0u8));
        } else if x == 1 {
            assert(table_das_ok(5, 1u8));
        } else if x == 2 {
            assert(table_das_ok(5, 2u8));
        } else if x == 3 {
            assert(table_das_ok(5, 3u8));
        } else if x == 4 {
            assert(table_das_ok(5, 4u8));
        } else if x == 5 {
            assert(table_das_ok(5, 5u8));
        } else if x == 6 {
            assert(table_das_ok(5, 6u8));
        } else if x == 7 {
            assert(table_das_ok(5, 7u8));
        } else if x == 8 {
            assert(table_das_ok(5, 8u8));
        }
    } else if g == 6 {
        if x == 0 {
            assert(table_das_ok(6, 0u8));
        } else if x == 1 {
            assert(table_das_ok(6, 1u8));
        } else if x == 2 {
            assert(table_das_ok(6, 2u8));
        } else if x == 3 {
            assert(table_das_ok(6, 3u8));
        } else if x == 4 {
            assert(table_das_ok(6, 4u8));
        } else if x == 5 {
            assert(table_das_ok(6, 5u8));
        } else if x == 6 {
            assert(table_das_ok(6, 6u8));
        } else if x == 7 {
            assert(table_das_ok(6, 7u8));
        } else if x == 8 {
            assert(table_das_ok(6, 8u8));
        }
    } else if g == 7 {
        if x == 0 {
            assert(table_das_ok(7, 0u8));
        } else if x == 1 {
            assert(table_das_ok(7, 1u8));
        } else if x == 2 {
            assert(table_das_ok(7, 2u8));
        } else if x == 3 {
            assert(table_das_ok(7, 3u8));
        } else if x == 4 {
            assert(table_das_ok(7, 4u8));
        } else if x == 5 {
            assert(table_das_ok(7, 5u8));
        } else if x == 6 {
            assert(table_das_ok(7, 6u8));
        }
    } else if g == 8 {
        if x == 0 {
            assert(table_das_ok(8, 0u8));
        } else if x == 1 {
            assert(table_das_ok(8, 1u8));
        } else if x == 2 {
            assert(table_das_ok(8, 2u8));
        } else if x == 3 {
            assert(table_das_ok(8, 3u8));
        } else if x == 4 {
            assert(table_das_ok(8, 4u8));
        } else if x == 5 {
            assert(table_das_ok(8, 5u8));
        } else if x == 6 {
            assert(table_das_ok(8, 6u8));
        } else if x == 7 {
            assert(table_das_ok(8, 7u8));
        } else if x == 8 {
            assert(table_das_ok(8, 8u8));
        } else if x == 9 {
            assert(table_das_ok(8, 9u8));
        }
    }
}

pub(crate) proof fn lemma_first_release_at(q: Seq<Action>, k: int)
    requires
        0 <= k <= q.len(),
    ensures
        k <= first_release(q, k) <= q.len(),
        first_release(q, k) < q.len() ==> is_das_release(q[first_release(q, k)]),
        forall|j: int| k <= j < first_release(q, k) ==> !is_das_release(#[trigger] q[j]),
    decreases q.len() - k,
{
    if k < q.len() && !is_das_release(q[k]) {
        lemma_first_release_at(q, k + 1);
    }
}

proof fn lemma_no_das_at(q: Seq<Action>, k: int)
    requires
        0 <= k,
        no_das_from(q, k),
    ensures
        forall|j: int| k <= j < q.len() ==> !is_das_start(#[trigger] q[j]),
    decreases q.len() - k,
{
    if k < q.len() {
        lemma_no_das_at(q, k + 1);
    }
}

proof fn lemma_no_release_at(q: Seq<Action>, k: int)
    requires
        0 <= k,
        no_release_from(q, k),
    ensures
        forall|j: int| k <= j < q.len() ==> !is_das_release(#[trigger] q[j]),
    decreases q.len() - k,
{
    if k < q.len() {
        lemma_no_release_at(q, k + 1);
    }
}

proof fn lemma_no_tap_at(q: Seq<Action>, k: int, hi: int)
    requires
        0 <= k,
        no_tap_between(q, k, hi),
    ensures
        forall|j: int| k <= j < hi && j < q.len() ==> !is_tap_move(#[trigger] q[j]),
    decreases hi - k,
{
    if k < hi && k < q.len() {
        lemma_no_tap_at(q, k + 1, hi);
    }
}

/// The DAS rules of `das_shape_ok`, position by position.
pub open spec fn das_shape_at(q: Seq<Action>, x: u8) -> bool {
    let pos = first_release(q, 0);
    &&& forall|j: int| 1 <= j < q.len() ==> !is_das_start(#[trigger] q[j])
    &&& forall|j: int| 0 <= j < q.len() && j != pos ==> !is_das_release(#[trigger] q[j])
    &&& 0 <= pos <= q.len()
    &&& if q.len() > 0 && is_das_start(q[0]) {
        &&& q[0] == das_of(x)
        &&& 1 <= pos < q.len()
        &&& q[pos] == release_of(q[0])
        &&& forall|j: int| 1 <= j < pos ==> !is_tap_move(#[trigger] q[j])
    } else {
        pos == q.len()
    }
}

pub(crate) proof fn lemma_das_shape_at(q: Seq<Action>, x: u8)
    requires
        das_shape_ok(q, x),
    ensures
        das_shape_at(q, x),
{
    lemma_first_release_at(q, 0);
    lemma_no_das_at(q, 1);
    let pos = first_release(q, 0);
    if q.len() > 0 && is_das_start(q[0]) {
        lemma_no_release_at(q, pos + 1);
        lemma_no_tap_at(q, 1, pos);
        assert(pos != 0);
    }
}

/// The DAS held after `calls`, with `h` held before them.
pub open spec fn held_from(calls: Seq<ReplayCall>, h: Option<ActionKind>) -> Option<ActionKind>
    decreases calls.len(),
{
    if calls.len() == 0 {
        h
    } else {
        match calls.last() {
            ReplayCall::DasStart(d) => Some(d),
            ReplayCall::Pipeline(d) => Some(d),
            ReplayCall::DasRelease(_) => None,
            _ => held_from(calls.drop_last(), h),
        }
    }
}

/// Whether call `c` keeps the DAS rules with `h` held: a DAS press, a side
/// tap or a pipeline only with none held, a release only of the DAS held.
pub open spec fn call_fits(h: Option<ActionKind>, c: ReplayCall) -> bool {
    match c {
        ReplayCall::DasStart(_) => h is None,
        ReplayCall::Pipeline(_) => h is None,
        ReplayCall::Tap(a) => (a == ActionKind::MoveLeft || a == ActionKind::MoveRight) ==> h is None,
        ReplayCall::DasRelease(d) => h == Some(d),
        _ => true,
    }
}

/// Whether every call of `calls` keeps the DAS rules, with `h` held before
/// them.
pub open spec fn calls_fit(calls: Seq<ReplayCall>, h: Option<ActionKind>) -> bool
    decreases calls.len(),
{
    calls.len() == 0 || (calls_fit(calls.drop_last(), h) && call_fits(held_from(calls.drop_last(), h), calls.last()))
}

pub(crate) proof fn lemma_concat(a: Seq<ReplayCall>, b: Seq<ReplayCall>, h: Option<ActionKind>)
    ensures
        held_from(a + b, h) == held_from(b, held_from(a, h)),
        calls_fit(a + b, h) == (calls_fit(a, h) && calls_fit(b, held_from(a, h))),
    decreases b.len(),
{
    if b.len() == 0 {
        assert(a + b =~= a);
    } else {
        lemma_concat(a, b.drop_last(), h);
        assert((a + b).drop_last() =~= a + b.drop_last());
        assert((a + b).last() == b.last());
    }
}

/// Calls that hold no DAS call leave the DAS held as it was, and keep the rules.
pub(crate) proof fn lemma_plain_calls(b: Seq<ReplayCall>, h: Option<ActionKind>)
    requires
        forall|i: int| 0 <= i < b.len() ==> (#[trigger] b[i] is BurstKey || b[i] is BurstEnd),
    ensures
        held_from(b, h) == h,
        calls_fit(b, h),
    decreases b.len(),
{
    if b.len() > 0 {
        lemma_plain_calls(b.drop_last(), h);
    }
}

pub(crate) proof fn lemma_one(c: ReplayCall, h: Option<ActionKind>)
    ensures
        held_from(seq![c], h) == (match c {
            ReplayCall::DasStart(d) => Some(d),
            ReplayCall::Pipeline(d) => Some(d),
            ReplayCall::DasRelease(_) => None,
            _ => h,
        }),
        calls_fit(seq![c], h) == call_fits(h, c),
{
    let one = seq![c];
    assert(one.drop_last() =~= Seq::<ReplayCall>::empty());
    assert(one.len() == 1 && one.last() == c);
    assert(held_from(one.drop_last(), h) == h);
    assert(calls_fit(one.drop_last(), h));
}

/// The DAS held at position `idx` of a key sequence: its own DAS, from just
/// after its press up to its release.
pub open spec fn held_at(q: Seq<Action>, idx: int) -> Option<ActionKind> {
    if q.len() > 0 && is_das_start(q[0]) && 1 <= idx <= first_release(q, 0) {
        Some(das_key(q[0]))
    } else {
        None
    }
}

/// The DAS that a side tap becomes in a pipeline.
pub open spec fn tap_das(a: Action) -> ActionKind {
    if a == Action::MoveLeft {
        ActionKind::DasLeft
    } else {
        ActionKind::DasRight
    }
}

proof fn lemma_action_calls(q: Seq<Action>, x: u8, b: bool, p: bool, idx: int)
    requires
        das_shape_at(q, x),
        0 <= idx <= q.len(),
        b ==> q.len() > 0 && is_das_start(q[0]) && idx <= first_release(q, 0) && !p,
        p ==> q.len() > 0 && is_tap_move(q.last()) && idx < q.len(),
    ensures
        calls_fit(action_calls(q, b, p, idx), held_at(q, idx)),
        held_from(action_calls(q, b, p, idx), held_at(q, idx)) == (if b {
            Some(das_key(q[0]))
        } else if p {
            Some(tap_das(q.last()))
        } else {
            None
        }),
    decreases q.len() - idx,
{
    let pos = first_release(q, 0);
    let h = held_at(q, idx);
    let calls = action_calls(q, b, p, idx);
    if idx == q.len() {
        assert(calls =~= Seq::<ReplayCall>::empty());
    } else {
        let a = q[idx];
        let rest = action_calls(q, b, p, idx + 1);
        if is_tap_move(a) {
            assert(idx != pos);
            assert(!(q.len() > 0 && is_das_start(q[0])) || idx > pos);
            assert(h is None);
            if p && idx == q.len() - 1 {
                let c = ReplayCall::Pipeline(tap_das(a));
                assert(calls == seq![c]);
                lemma_one(c, h);
            } else {
                let c = ReplayCall::Tap(if a == Action::MoveLeft {
                    ActionKind::MoveLeft
                } else {
                    ActionKind::MoveRight
                });
                assert(calls == seq![c] + rest);
                lemma_one(c, h);
                lemma_concat(seq![c], rest, h);
                assert(held_at(q, idx + 1) == h);
                lemma_action_calls(q, x, b, p, idx + 1);
            }
        } else if is_das_start(a) {
            assert(idx == 0);
            let c = ReplayCall::DasStart(das_key(a));
            assert(calls == seq![c] + rest);
            lemma_one(c, h);
            lemma_concat(seq![c], rest, h);
            assert(held_at(q, idx + 1) == Some(das_key(a)));
            lemma_action_calls(q, x, b, p, idx + 1);
        } else if is_das_release(a) {
            assert(idx == pos);
            assert(q.len() > 0 && is_das_start(q[0]));
            assert(h == Some(das_key(q[0])));
            if b {
                let keys = crate::replay::burst_keys(q, idx);
                assert(calls == crate::replay::burst_calls(keys));
                lemma_plain_calls(calls, h);
            } else {
                let c = ReplayCall::DasRelease(das_key(q[0]));
                assert(calls == seq![c] + rest);
                lemma_one(c, h);
                lemma_concat(seq![c], rest, h);
                assert(held_at(q, idx + 1) is None);
                lemma_action_calls(q, x, b, p, idx + 1);
            }
        } else {
            let c = ReplayCall::Tap(crate::replay::tap_kind(a));
            assert(calls == seq![c] + rest);
            lemma_one(c, h);
            lemma_concat(seq![c], rest, h);
            assert(idx != pos);
            assert(held_at(q, idx + 1) == h);
            lemma_action_calls(q, x, b, p, idx + 1);
        }
    }
}

proof fn lemma_first_release_is(q: Seq<Action>, k: int, pos: int)
    requires
        0 <= k <= pos < q.len(),
        is_das_release(q[pos]),
        forall|j: int| k <= j < pos ==> !is_das_release(#[trigger] q[j]),
    ensures
        first_release(q, k) == pos,
    decreases pos - k,
{
    if k < pos {
        lemma_first_release_is(q, k + 1, pos);
    }
}

/// What `try_actions` makes of a key sequence that keeps the DAS rules.
proof fn lemma_try(sq: Seq<Action>, x: u8, reused: bool, next: Option<Action>)
    requires
        das_shape_ok(sq, x),
        try_actions_ok(sq, reused, next),
        try_actions(sq, reused, next) is Some,
        next matches Some(d) ==> is_das_start(d),
    ensures
        ({
            let (q, b, p) = try_actions(sq, reused, next)->0;
            &&& das_shape_at(q, x)
            &&& reused ==> q.len() > 0 && is_das_start(q[0])
            &&& b ==> !p && next == Some(q[0]) && q.len() > 0 && is_das_start(q[0])
            &&& p ==> (next matches Some(dir) && q.len() > 0 && q.last() == tap_of(dir))
            &&& !b && !p ==> next is None
        }),
{
    lemma_das_shape_at(sq, x);
    match next {
        Some(dir) => {
            if sq.len() > 0 && sq[0] == dir {
                let pos = first_release(sq, 0);
                if pos + 1 < sq.len() && !is_tap_move(sq[pos + 1]) {
                    let moved = sq.drop_last().insert(pos + 1, sq.last());
                    assert(try_actions(sq, reused, next)->0 == (moved, true, false));
                    assert(is_tap_move(sq.last()));
                    assert(moved.len() == sq.len());
                    assert forall|j: int| 0 <= j <= pos implies #[trigger] moved[j] == sq[j] by {}
                    assert(moved[pos + 1] == sq.last());
                    assert forall|j: int| pos + 1 < j < moved.len() implies #[trigger] moved[j] == sq[j - 1] by {}
                    lemma_first_release_at(sq, 0);
                    assert forall|j: int| 0 <= j < pos implies !is_das_release(#[trigger] moved[j]) by {
                        assert(moved[j] == sq[j]);
                    }
                    lemma_first_release_is(moved, 0, pos);
                    assert forall|j: int| 1 <= j < moved.len() implies !is_das_start(#[trigger] moved[j]) by {
                        if j <= pos {
                            assert(moved[j] == sq[j]);
                        } else if j > pos + 1 {
                            assert(moved[j] == sq[j - 1]);
                        }
                    }
                    assert forall|j: int| 0 <= j < moved.len() && j != pos implies !is_das_release(#[trigger] moved[j]) by {
                        if j < pos {
                            assert(moved[j] == sq[j]);
                        } else if j > pos + 1 {
                            assert(moved[j] == sq[j - 1]);
                        }
                    }
                    assert forall|j: int| 1 <= j < pos implies !is_tap_move(#[trigger] moved[j]) by {
                        assert(moved[j] == sq[j]);
                    }
                    assert(das_shape_at(moved, x));
                }
            }
        },
        None => {},
    }
}

/// The keys a step plays keep the DAS rules: a continued DAS is the first
/// key, a burst holds the DAS the next move continues, a pipeline ends with
/// the tap that becomes it, and a step with neither leaves no DAS to the next.
pub(crate) proof fn lemma_step_keys(m: crate::movegen::ReplayMove, next: Option<Action>)
    requires
        step_ok(m, next),
        next matches Some(d) ==> is_das_start(d),
    ensures
        ({
            let (q, b, p) = step_actions(m, next)->0;
            &&& das_shape_at(q, m.x)
            &&& m.reused ==> q.len() > 0 && is_das_start(q[0])
            &&& b ==> !p && next == Some(q[0]) && q.len() > 0 && is_das_start(q[0])
            &&& p ==> (next matches Some(dir) && q.len() > 0 && q.last() == tap_of(dir))
            &&& !b && !p ==> next is None
        }),
{
    let g = m.finesse_idx as int;
    let x = m.x;
    lemma_table_das(g, x);
    let f = finesse_ops(g, x as int);
    if try_actions(f, m.reused, next) is Some {
        lemma_try(f, x, m.reused, next);
    } else {
        match reuse_ops(g, x as int) {
            Some(sq) => {
                if try_actions(sq, m.reused, next) is Some {
                    lemma_try(sq, x, m.reused, next);
                } else {
                    let sp = special_ops(g, x as int)->0;
                    lemma_try(sp, x, m.reused, next);
                }
            },
            None => {
                let sp = special_ops(g, x as int)->0;
                lemma_try(sp, x, m.reused, next);
            },
        }
    }
}

/// One step keeps the DAS rules, from the DAS it continues (if any) to the
/// DAS the next move continues (if any).
proof fn lemma_step_calls(st: StepView, m: crate::movegen::ReplayMove, next: Option<Action>)
    requires
        step_ok(m, next),
        next matches Some(d) ==> is_das_start(d),
        st.reused == m.reused,
        (st.actions, st.burst, st.pipeline) == step_actions(m, next)->0,
    ensures
        calls_fit(crate::replay::step_calls(st), if m.reused {
            Some(das_key(das_of(m.x)))
        } else {
            None
        }),
        held_from(crate::replay::step_calls(st), if m.reused {
            Some(das_key(das_of(m.x)))
        } else {
            None
        }) == (match next {
            Some(d) => Some(das_key(d)),
            None => None,
        }),
{
    lemma_step_keys(m, next);
    let q = st.actions;
    let b = st.burst;
    let p = st.pipeline;
    let r: int = if st.reused {
        1
    } else {
        0
    };
    let h0 = if m.reused {
        Some(das_key(das_of(m.x)))
    } else {
        None
    };
    assert(held_at(q, r) == h0);
    lemma_action_calls(q, m.x, b, p, r);
    let hold_part = if st.hold {
        seq![ReplayCall::Tap(ActionKind::Hold)]
    } else {
        Seq::<ReplayCall>::empty()
    };
    let acts = action_calls(q, b, p, r);
    let drop_part = if !p && !b {
        seq![ReplayCall::Tap(ActionKind::HardDrop)]
    } else {
        Seq::<ReplayCall>::empty()
    };
    assert(crate::replay::step_calls(st) == hold_part + acts + drop_part);
    if st.hold {
        lemma_one(ReplayCall::Tap(ActionKind::Hold), h0);
    }
    assert(held_from(hold_part, h0) == h0 && calls_fit(hold_part, h0));
    lemma_concat(hold_part, acts, h0);
    let h1 = held_from(acts, h0);
    if !p && !b {
        lemma_one(ReplayCall::Tap(ActionKind::HardDrop), h1);
    }
    assert(held_from(drop_part, h1) == h1 && calls_fit(drop_part, h1));
    lemma_concat(hold_part + acts, drop_part, h0);
    if p {
        let dir = next->0;
        assert(q.last() == tap_of(dir));
        assert(tap_das(tap_of(dir)) == das_key(dir));
    }
}

/// The DAS held before step `s` of the merged moves `ms`: the one towards
/// the wall on the side of its column where the step continues a DAS.
pub open spec fn held_before(ms: Seq<(usize, crate::movegen::ReplayMove)>, s: int) -> Option<ActionKind> {
    if 0 <= s < ms.len() && crate::movegen::carried(ms, s) {
        Some(das_key(das_of(ms[s].1.x)))
    } else {
        None
    }
}

pub(crate) proof fn lemma_replay_prefix(ms: Seq<(usize, crate::movegen::ReplayMove)>, n: int)
    requires
        0 <= n <= ms.len(),
        forall|i: int|
            0 <= i < ms.len() ==> step_ok(#[trigger] crate::movegen::final_move(ms, i), crate::movegen::next_das(ms, i)),
        !crate::movegen::carried(ms, 0),
    ensures
        calls_fit(crate::replay::replay_calls(ms, n), None),
        held_from(crate::replay::replay_calls(ms, n), None) == held_before(ms, n),
    decreases n,
{
    if n > 0 {
        lemma_replay_prefix(ms, n - 1);
        let prev = crate::replay::replay_calls(ms, n - 1);
        let st = crate::movegen::compiled_step(ms, n - 1);
        let m = crate::movegen::final_move(ms, n - 1);
        let next = crate::movegen::next_das(ms, n - 1);
        assert(step_ok(m, next));
        lemma_step_calls(st, m, next);
        lemma_concat(prev, crate::replay::step_calls(st), None);
        assert(crate::replay::replay_calls(ms, n) == prev + crate::replay::step_calls(st));
    } else {
        assert(crate::replay::replay_calls(ms, 0) =~= Seq::<ReplayCall>::empty());
    }
}

/// The replay of a path keeps the DAS rules: a DAS is pressed, a side key
/// tapped, or a pipeline begun only while no DAS is held, and each release
/// releases the DAS held. Before each step a DAS is held exactly where the
/// step continues one, towards the wall on the side of its column, and none
/// is held after the last. This holds wherever the first step continues no
/// DAS.
pub proof fn lemma_replay_das_rules(path: Seq<crate::search::PathNode>, pieces: Seq<crate::PieceType>)
    requires
        crate::movegen::compile_ok(path, pieces),
        !crate::movegen::carried(crate::movegen::path_moves(path, pieces), 0),
    ensures
        ({
            let ms = crate::movegen::path_moves(path, pieces);
            &&& calls_fit(crate::replay::replay_calls(ms, ms.len() as int), None)
            &&& forall|s: int|
                0 <= s <= ms.len() ==> held_from(#[trigger] crate::replay::replay_calls(ms, s), None) == held_before(ms, s)
        }),
{
    let ms = crate::movegen::path_moves(path, pieces);
    assert forall|s: int| 0 <= s <= ms.len() implies held_from(#[trigger] crate::replay::replay_calls(ms, s), None)
        == held_before(ms, s) by {
        lemma_replay_prefix(ms, s);
    }
    lemma_replay_prefix(ms, ms.len() as int);
}

} // verus!
