//! How many operations the Techmino writer writes for a path, against the
//! keys the search charged for it.
use vstd::prelude::*;
use crate::movegen::{
    Action, StepView, finesse_ops, reuse_ops, finesse_row_len, first_release, is_das_start, is_das_release,
    is_tap_move, presses, presses_from, step_actions, step_ok,
};
use crate::replay::{ActionKind, ReplayCall, action_calls, step_calls, burst_keys, burst_calls};
use crate::replay::das::{das_shape_at, das_key, held_at, held_from, tap_das};
use crate::replay::techmino::calls_len;
use crate::movegen::{
    ReplayMove, move_effect, raw_moves, path_moves, merged_moves, hold_pending, carried, next_das, final_move,
    compiled_step, compile_ok, path_step, moves_effective,
};
use crate::search::PathNode;
use crate::PieceType;

verus! {

/// What the key-sequence tables of row `g` at column `x` say of the keys a
/// move presses: a form for a carried DAS starts with the DAS and presses as
/// many keys as the plain one.
pub open spec fn table_keys_ok(g: int, x: int) -> bool {
    reuse_ops(g, x) matches Some(r) ==> presses(r) == presses(finesse_ops(g, x)) && r.len() > 0 && is_das_start(r[0])
}

/// The key-sequence tables agree on the keys a move presses (see
/// `table_keys_ok`).
#[verifier::spinoff_prover]
#[verifier::rlimit(100)]
pub proof fn lemma_table_keys(g: int, x: int)
    requires
        0 <= g < 9,
        0 <= x < finesse_row_len(g),
    ensures
        table_keys_ok(g, x),
{
    reveal_with_fuel(presses_from, 6);
    if g == 0 {
        if x == 0 {
            assert(table_keys_ok(0, 0));
        } else if x == 1 {
            assert(table_keys_ok(0, 1));
        } else if x == 2 {
            assert(table_keys_ok(0, 2));
        } else if x == 3 {
            assert(table_keys_ok(0, 3));
        } else if x == 4 {
            assert(table_keys_ok(0, 4));
        } else if x == 5 {
            assert(table_keys_ok(0, 5));
        } else if x == 6 {
            assert(table_keys_ok(0, 6));
        } else if x == 7 {
            assert(table_keys_ok(0, 7));
        }
    } else if g == 1 {
        if x == 0 {
            assert(table_keys_ok(1, 0));
        } else if x == 1 {
            assert(table_keys_ok(1, 1));
        } else if x == 2 {
            assert(table_keys_ok(1, 2));
        } else if x == 3 {
            assert(table_keys_ok(1, 3));
        } else if x == 4 {
            assert(table_keys_ok(1, 4));
        } else if x == 5 {
            assert(table_keys_ok(1, 5));
        } else if x == 6 {
            assert(table_keys_ok(1, 6));
        } else if x == 7 {
            assert(table_keys_ok(1, 7));
        } else if x == 8 {
            assert(table_keys_ok(1, 8));
        }
    } else if g == 2 {
        if x == 0 {
            assert(table_keys_ok(2, 0));
        } else if x == 1 {
            assert(table_keys_ok(2, 1));
        } else if x == 2 {
            assert(table_keys_ok(2, 2));
        } else if x == 3 {
            assert(table_keys_ok(2, 3));
        } else if x == 4 {
            assert(table_keys_ok(2, 4));
        } else if x == 5 {
            assert(table_keys_ok(2, 5));
        } else if x == 6 {
            assert(table_keys_ok(2, 6));
        } else if x == 7 {
            assert(table_keys_ok(2, 7));
        }
    } else if g == 3 {
        if x == 0 {
            assert(table_keys_ok(3, 0));
        } else if x == 1 {
            assert(table_keys_ok(3, 1));
        } else if x == 2 {
            assert(table_keys_ok(3, 2));
        } else if x == 3 {
            assert(table_keys_ok(3, 3));
        } else if x == 4 {
            assert(table_keys_ok(3, 4));
        } else if x == 5 {
            assert(table_keys_ok(3, 5));
        } else if x == 6 {
            assert(table_keys_ok(3, 6));
        } else if x == 7 {
            assert(table_keys_ok(3, 7));
        } else if x == 8 {
            assert(table_keys_ok(3, 8));
        }
    } else if g == 4 {
        if x == 0 {
            assert(table_keys_ok(4, 0));
        } else if x == 1 {
            assert(table_keys_ok(4, 1));
        } else if x == 2 {
            assert(table_keys_ok(4, 2));
        } else if x == 3 {
            assert(table_keys_ok(4, 3));
        } else if x == 4 {
            assert(table_keys_ok(4, 4));
        } else if x == 5 {
            assert(table_keys_ok(4, 5));
        } else if x == 6 {
            assert(table_keys_ok(4, 6));
        } else if x == 7 {
            assert(table_keys_ok(4, 7));
        }
    } else if g == 5 {
        if x == 0 {
            assert(table_keys_ok(5, 0));
        } else if x == 1 {
            assert(table_keys_ok(5, 1));
        } else if x == 2 {
            assert(table_keys_ok(5, 2));
        } else if x == 3 {
            assert(table_keys_ok(5, 3));
        } else if x == 4 {
            assert(table_keys_ok(5, 4));
        } else if x == 5 {
            assert(table_keys_ok(5, 5));
        } else if x == 6 {
            assert(table_keys_ok(5, 6));
        } else if x == 7 {
            assert(table_keys_ok(5, 7));
        } else if x == 8 {
            assert(table_keys_ok(5, 8));
        }
    } else if g == 6 {
        if x == 0 {
            assert(table_keys_ok(6, 0));
        } else if x == 1 {
            assert(table_keys_ok(6, 1));
        } else if x == 2 {
            assert(table_keys_ok(6, 2));
        } else if x == 3 {
            assert(table_keys_ok(6, 3));
        } else if x == 4 {
            assert(table_keys_ok(6, 4));
        } else if x == 5 {
            assert(table_keys_ok(6, 5));
        } else if x == 6 {
            assert(table_keys_ok(6, 6));
        } else if x == 7 {
            assert(table_keys_ok(6, 7));
        } else if x == 8 {
            assert(table_keys_ok(6, 8));
        }
    } else if g == 7 {
        if x == 0 {
            assert(table_keys_ok(7, 0));
        } else if x == 1 {
            assert(table_keys_ok(7, 1));
        } else if x == 2 {
            assert(table_keys_ok(7, 2));
        } else if x == 3 {
            assert(table_keys_ok(7, 3));
        } else if x == 4 {
            assert(table_keys_ok(7, 4));
        } else if x == 5 {
            assert(table_keys_ok(7, 5));
        } else if x == 6 {
            assert(table_keys_ok(7, 6));
        }
    } else if g == 8 {
        if x == 0 {
            assert(table_keys_ok(8, 0));
        } else if x == 1 {
            assert(table_keys_ok(8, 1));
        } else if x == 2 {
            assert(table_keys_ok(8, 2));
        } else if x == 3 {
            assert(table_keys_ok(8, 3));
        } else if x == 4 {
            assert(table_keys_ok(8, 4));
        } else if x == 5 {
            assert(table_keys_ok(8, 5));
        } else if x == 6 {
            assert(table_keys_ok(8, 6));
        } else if x == 7 {
            assert(table_keys_ok(8, 7));
        } else if x == 8 {
            assert(table_keys_ok(8, 8));
        } else if x == 9 {
            assert(table_keys_ok(8, 9));
        }
    }
}

/// Two operations where a DAS is held (its release still to come), else none.
pub open spec fn held2(h: Option<ActionKind>) -> int {
    if h is Some {
        2
    } else {
        0
    }
}

proof fn lemma_presses_plain(q: Seq<Action>, k: int)
    requires
        0 <= k <= q.len(),
        forall|j: int| k <= j < q.len() ==> !is_das_release(#[trigger] q[j]),
    ensures
        presses_from(q, k) == q.len() - k,
    decreases q.len() - k,
{
    if k < q.len() {
        lemma_presses_plain(q, k + 1);
    }
}

/// The operations written for the actions of a key sequence from `idx` on:
/// four for each key pressed, two more where the step ends in a burst or a
/// pipeline (the drop, less the release still to come), and two for a DAS
/// held at `idx` (its release).
#[verifier::spinoff_prover]
#[verifier::rlimit(60)]
proof fn lemma_action_count(q: Seq<Action>, x: u8, b: bool, p: bool, idx: int)
    requires
        das_shape_at(q, x),
        0 <= idx <= q.len(),
        b ==> q.len() > 0 && is_das_start(q[0]) && idx <= first_release(q, 0) && !p,
        p ==> q.len() > 0 && is_tap_move(q.last()) && idx < q.len(),
    ensures
        calls_len(action_calls(q, b, p, idx)) == 4 * presses_from(q, idx) + (if b || p {
            2int
        } else {
            0
        }) + held2(held_at(q, idx)),
    decreases q.len() - idx,
{
    let pos = first_release(q, 0);
    let calls = action_calls(q, b, p, idx);
    if idx == q.len() {
        assert(calls =~= Seq::<ReplayCall>::empty());
    } else {
        let a = q[idx];
        let rest = action_calls(q, b, p, idx + 1);
        if is_tap_move(a) {
            assert(idx != pos);
            if p && idx == q.len() - 1 {
                let c = ReplayCall::Pipeline(tap_das(a));
                assert(calls == seq![c]);
                crate::replay::techmino::lemma_calls_len_one(c);
                assert(presses_from(q, idx + 1) == 0);
            } else {
                let c = ReplayCall::Tap(if a == Action::MoveLeft {
                    ActionKind::MoveLeft
                } else {
                    ActionKind::MoveRight
                });
                assert(calls == seq![c] + rest);
                crate::replay::techmino::lemma_calls_len_concat(seq![c], rest);
                crate::replay::techmino::lemma_calls_len_one(c);
                assert(held_at(q, idx + 1) == held_at(q, idx));
                lemma_action_count(q, x, b, p, idx + 1);
            }
        } else if is_das_start(a) {
            assert(idx == 0);
            let c = ReplayCall::DasStart(das_key(a));
            assert(calls == seq![c] + rest);
            crate::replay::techmino::lemma_calls_len_concat(seq![c], rest);
            crate::replay::techmino::lemma_calls_len_one(c);
            lemma_action_count(q, x, b, p, idx + 1);
        } else if is_das_release(a) {
            assert(idx == pos);
            if b {
                let keys = burst_keys(q, idx);
                assert(calls == burst_calls(keys));
                crate::replay::techmino::lemma_burst_len(keys);
                assert forall|j: int| idx + 1 <= j < q.len() implies !is_das_release(#[trigger] q[j]) by {}
                lemma_presses_plain(q, idx + 1);
            } else {
                let c = ReplayCall::DasRelease(das_key(q[0]));
                assert(calls == seq![c] + rest);
                crate::replay::techmino::lemma_calls_len_concat(seq![c], rest);
                crate::replay::techmino::lemma_calls_len_one(c);
                lemma_action_count(q, x, b, p, idx + 1);
            }
        } else {
            let c = ReplayCall::Tap(crate::replay::tap_kind(a));
            assert(calls == seq![c] + rest);
            crate::replay::techmino::lemma_calls_len_concat(seq![c], rest);
            crate::replay::techmino::lemma_calls_len_one(c);
            assert(idx != pos);
            assert(held_at(q, idx + 1) == held_at(q, idx));
            lemma_action_count(q, x, b, p, idx + 1);
        }
    }
}

/// The operations written for one step: four for each key it presses (the
/// hold, its keys but a continued DAS, and the drop), counting a DAS held
/// after it as its release to come and one held before as released within.
pub(crate) proof fn lemma_step_count(st: StepView, m: crate::movegen::ReplayMove, next: Option<Action>)
    requires
        step_ok(m, next),
        next matches Some(d) ==> is_das_start(d),
        st.reused == m.reused,
        (st.actions, st.burst, st.pipeline) == step_actions(m, next)->0,
    ensures
        calls_len(step_calls(st)) + (if next is Some {
            2int
        } else {
            0
        }) - (if m.reused {
            2int
        } else {
            0
        }) == 4 * ((if st.hold {
            1int
        } else {
            0
        }) + presses_from(st.actions, if m.reused {
            1int
        } else {
            0
        }) + 1),
{
    crate::replay::das::lemma_step_keys(m, next);
    let q = st.actions;
    let b = st.burst;
    let p = st.pipeline;
    let r: int = if st.reused {
        1
    } else {
        0
    };
    lemma_action_count(q, m.x, b, p, r);
    assert(held2(held_at(q, r)) == (if m.reused {
        2int
    } else {
        0
    }));
    let hold_part = if st.hold {
        seq![ReplayCall::Tap(ActionKind::Hold)]
    } else {
        Seq::<ReplayCall>::empty()
    };
    let acts = action_calls(q, b, p, r);
    let drop_part = if !p && !b {
        seq![ReplayCall::Tap(ActionKind::HardDrop)]
    } else {
        Seq::<ReplayCall>::empty()
    };
    assert(step_calls(st) == hold_part + acts + drop_part);
    crate::replay::techmino::lemma_calls_len_concat(hold_part, acts);
    crate::replay::techmino::lemma_calls_len_concat(hold_part + acts, drop_part);
    if st.hold {
        crate::replay::techmino::lemma_calls_len_one(ReplayCall::Tap(ActionKind::Hold));
    } else {
        assert(calls_len(hold_part) == 0);
    }
    if !p && !b {
        crate::replay::techmino::lemma_calls_len_one(ReplayCall::Tap(ActionKind::HardDrop));
    } else {
        assert(calls_len(drop_part) == 0);
    }
}

proof fn lemma_presses_count(q: Seq<Action>, k: int, pos: int)
    requires
        0 <= k <= q.len(),
        forall|j: int| 0 <= j < q.len() && j != pos ==> !is_das_release(#[trigger] q[j]),
        0 <= pos < q.len() ==> is_das_release(q[pos]),
    ensures
        presses_from(q, k) == (q.len() - k) - (if k <= pos < q.len() {
            1int
        } else {
            0
        }),
    decreases q.len() - k,
{
    if k < q.len() {
        lemma_presses_count(q, k + 1, pos);
    }
}

/// The presses of a key sequence that keeps the DAS rules: one for each key
/// but its release.
proof fn lemma_shape_presses(q: Seq<Action>, x: u8)
    requires
        das_shape_at(q, x),
    ensures
        presses(q) == q.len() - (if q.len() > 0 && is_das_start(q[0]) {
            1int
        } else {
            0
        }),
        q.len() > 0 && !is_das_release(q[0]) ==> presses_from(q, 1) == presses(q) - 1,
{
    let pos = first_release(q, 0);
    lemma_presses_count(q, 0, pos);
    if q.len() > 0 {
        lemma_presses_count(q, 1, pos);
    }
}

/// The keys a step plays, but a DAS it continues, are the keys the search
/// charged for its move, where the DAS the next move continues (if any) is
/// the first key of its plain keys, and a continued move has keys that can
/// continue one.
#[verifier::spinoff_prover]
#[verifier::rlimit(60)]
pub(crate) proof fn lemma_step_presses(m: crate::movegen::ReplayMove, next: Option<Action>)
    requires
        step_ok(m, next),
        next matches Some(d) ==> is_das_start(d) && finesse_ops(m.finesse_idx as int, m.x as int).len() > 0
            && finesse_ops(m.finesse_idx as int, m.x as int)[0] == d,
        m.reused ==> crate::movegen::has_carry_form(m.finesse_idx as int, m.x as int),
    ensures
        presses_from((step_actions(m, next)->0).0, if m.reused {
            1int
        } else {
            0
        }) == presses(finesse_ops(m.finesse_idx as int, m.x as int)) - (if m.reused {
            1int
        } else {
            0
        }),
{
    let g = m.finesse_idx as int;
    let x = m.x;
    let f = finesse_ops(g, x as int);
    crate::replay::das::lemma_table_das(g, x);
    lemma_table_keys(g, x as int);
    crate::replay::das::lemma_das_shape_at(f, x);
    lemma_shape_presses(f, x);
    crate::replay::das::lemma_step_keys(m, next);
    let q = (step_actions(m, next)->0).0;
    if crate::movegen::try_actions(f, m.reused, next) is Some {
        assert(step_actions(m, next) == crate::movegen::try_actions(f, m.reused, next));
        lemma_shape_presses(q, x);
        assert(q.len() == f.len());
        assert(q.len() > 0 && is_das_start(q[0]) <==> f.len() > 0 && is_das_start(f[0]));
    } else {
        assert(m.reused);
        assert(next is None);
        let r = reuse_ops(g, x as int)->0;
        assert(crate::movegen::try_actions(r, m.reused, next) == Some((r, false, false)));
        assert(step_actions(m, next) == Some((r, false, false)));
        crate::replay::das::lemma_das_shape_at(r, x);
        lemma_shape_presses(r, x);
    }
}

/// Where merged move `s` of `ms` starts in the path: just after the move
/// before it.
pub open spec fn step_start(ms: Seq<(usize, crate::movegen::ReplayMove)>, s: int) -> int {
    if s <= 0 {
        0
    } else {
        ms[s - 1].0 + 1
    }
}

/// The merged move `s` of `raw`: move `i` with the hold of a lone hold just
/// before it.
pub open spec fn merged_at(raw: Seq<crate::movegen::ReplayMove>, i: int) -> crate::movegen::ReplayMove {
    let m = raw[i];
    crate::movegen::ReplayMove {
        hold: m.hold || crate::movegen::hold_pending(raw, i),
        finesse_idx: m.finesse_idx,
        x: m.x,
        reused: m.reused,
        hold_only: m.hold_only,
        special: m.special,
    }
}

#[verifier::spinoff_prover]
#[verifier::rlimit(60)]
proof fn lemma_merged_shape(raw: Seq<crate::movegen::ReplayMove>, n: int)
    requires
        0 <= n <= raw.len(),
        raw.len() <= usize::MAX,
    ensures
        ({
            let ms = crate::movegen::merged_moves(raw, n);
            &&& forall|s: int| 0 <= s < ms.len() ==> step_start(ms, s) <= (#[trigger] ms[s]).0 < n
            &&& forall|s: int| 0 <= s < ms.len() ==> !raw[(#[trigger] ms[s]).0 as int].hold_only
            &&& forall|s: int| 0 <= s < ms.len() ==> (#[trigger] ms[s]).1 == merged_at(raw, ms[s].0 as int)
            &&& forall|s: int, i: int|
                #![trigger ms[s], raw[i]]
                0 <= s < ms.len() && step_start(ms, s) <= i < ms[s].0 ==> raw[i].hold_only
            &&& forall|i: int| step_start(ms, ms.len() as int) <= i < n ==> raw[i].hold_only
            &&& step_start(ms, ms.len() as int) <= n
        }),
    decreases n,
{
    if n > 0 {
        lemma_merged_shape(raw, n - 1);
        let prev = crate::movegen::merged_moves(raw, n - 1);
        let ms = crate::movegen::merged_moves(raw, n);
        if !raw[n - 1].hold_only {
            assert(ms == prev.push(((n - 1) as usize, merged_at(raw, n - 1))));
            assert(step_start(ms, prev.len() as int) == step_start(prev, prev.len() as int));
            assert forall|s: int| 0 <= s < ms.len() implies step_start(ms, s) <= (#[trigger] ms[s]).0 < n by {
                if s < prev.len() {
                    assert(ms[s] == prev[s]);
                }
                if s > 0 {
                    assert(ms[s - 1] == prev[s - 1]);
                }
            }
            assert forall|s: int| 0 <= s < ms.len() implies !raw[(#[trigger] ms[s]).0 as int].hold_only by {
                if s < prev.len() {
                    assert(ms[s] == prev[s]);
                }
            }
            assert forall|s: int| 0 <= s < ms.len() implies (#[trigger] ms[s]).1 == merged_at(raw, ms[s].0 as int) by {
                if s < prev.len() {
                    assert(ms[s] == prev[s]);
                }
            }
            assert forall|s: int, i: int|
                #![trigger ms[s], raw[i]]
                0 <= s < ms.len() && step_start(ms, s) <= i < ms[s].0 implies raw[i].hold_only by {
                if s > 0 {
                    assert(ms[s - 1] == prev[s - 1]);
                }
                if s < prev.len() {
                    assert(ms[s] == prev[s]);
                }
            }
        } else {
            assert(ms == prev);
        }
    }
}

/// Whether a path's replay can be counted against its keys: it starts from a
/// node with no keys pressed and no DAS side, no lone hold is followed by a
/// move that holds, and no step continues a DAS through its special form.
pub open spec fn keys_law_ok(path: Seq<PathNode>, pieces: Seq<PieceType>) -> bool {
    let raw = raw_moves(path, pieces);
    let ms = path_moves(path, pieces);
    &&& path[0].spec_keys_pressed() == 0
    &&& path[0].spec_meta() & 0x200u16 == 0
    &&& path[0].spec_meta() & 0x400u16 == 0
    &&& forall|i: int| 0 < i < raw.len() ==> !(raw[i - 1].hold_only && #[trigger] raw[i].hold)
    &&& forall|s: int| 0 <= s < ms.len() ==> carried(ms, s) == (#[trigger] ms[s]).1.reused
}


/// Whether each move of `raw` is a move as the search makes it, from the
/// node with keys `ks[i]` and packed state `mt[i]` to the next.
pub open spec fn effective(raw: Seq<ReplayMove>, ks: Seq<u16>, mt: Seq<u16>) -> bool {
    &&& ks.len() == raw.len() + 1
    &&& mt.len() == raw.len() + 1
    &&& forall|i: int| 0 <= i < raw.len() ==> move_effect(ks[i], mt[i], ks[i + 1], mt[i + 1], #[trigger] raw[i])
}

/// Merged move `s` starts at most one lone hold after the move before it;
/// the lone hold adds its key, keeps the DAS side bits, and is what makes the
/// move hold.
#[verifier::spinoff_prover]
#[verifier::rlimit(60)]
proof fn lemma_gap(raw: Seq<ReplayMove>, ks: Seq<u16>, mt: Seq<u16>, s: int)
    requires
        effective(raw, ks, mt),
        raw.len() <= usize::MAX,
        0 <= s < merged_moves(raw, raw.len() as int).len(),
    ensures
        ({
            let ms = merged_moves(raw, raw.len() as int);
            let st = step_start(ms, s);
            let i = ms[s].0 as int;
            &&& st <= i <= st + 1
            &&& i < raw.len()
            &&& ms[s].1 == merged_at(raw, i)
            &&& !raw[i].hold_only
            &&& hold_pending(raw, i) == (i == st + 1)
            &&& ks[i] == ks[st] + (if i == st + 1 {
                1int
            } else {
                0
            })
            &&& mt[i] & 0x200u16 == mt[st] & 0x200u16
            &&& mt[i] & 0x400u16 == mt[st] & 0x400u16
        }),
{
    let ms = merged_moves(raw, raw.len() as int);
    let n = raw.len() as int;
    lemma_merged_shape(raw, n);
    let st = step_start(ms, s);
    let i = ms[s].0 as int;
    assert(st <= i < n);
    if i >= st + 2 {
        assert(raw[i - 2].hold_only && raw[i - 1].hold_only);
        assert(move_effect(ks[i - 2], mt[i - 2], ks[i - 1], mt[i - 1], raw[i - 2]));
        assert(move_effect(ks[i - 1], mt[i - 1], ks[i], mt[i], raw[i - 1]));
        assert(false);
    }
    if i == st + 1 {
        assert(raw[st].hold_only);
        assert(move_effect(ks[st], mt[st], ks[i], mt[i], raw[st]));
    } else {
        if s > 0 {
            assert(!raw[ms[s - 1].0 as int].hold_only);
        }
    }
}

/// Where the move after merged move `s` continues a DAS, that DAS is the
/// first key of move `s`'s plain keys: the search sets a DAS side bit only
/// after keys that start with that DAS, and continues a DAS only from it.
#[verifier::spinoff_prover]
#[verifier::rlimit(60)]
proof fn lemma_next_first(raw: Seq<ReplayMove>, ks: Seq<u16>, mt: Seq<u16>, s: int)
    requires
        effective(raw, ks, mt),
        raw.len() <= usize::MAX,
        0 <= s < merged_moves(raw, raw.len() as int).len(),
        forall|t: int|
            0 <= t < merged_moves(raw, raw.len() as int).len() ==> carried(merged_moves(raw, raw.len() as int), t)
                == (#[trigger] merged_moves(raw, raw.len() as int)[t]).1.reused,
    ensures
        ({
            let ms = merged_moves(raw, raw.len() as int);
            let f = finesse_ops(ms[s].1.finesse_idx as int, ms[s].1.x as int);
            next_das(ms, s) matches Some(d) ==> f.len() > 0 && f[0] == d && is_das_start(d)
        }),
{
    let ms = merged_moves(raw, raw.len() as int);
    if next_das(ms, s) is Some {
        lemma_gap(raw, ks, mt, s);
        lemma_gap(raw, ks, mt, s + 1);
        let i = ms[s].0 as int;
        let j = ms[s + 1].0 as int;
        assert(step_start(ms, s + 1) == i + 1);
        assert(carried(ms, s + 1));
        assert(ms[s + 1].1.reused);
        assert(raw[j].reused);
        assert(move_effect(ks[j], mt[j], ks[j + 1], mt[j + 1], raw[j]));
        assert(move_effect(ks[i], mt[i], ks[i + 1], mt[i + 1], raw[i]));
    }
}

/// What the count of a replay's operations needs of its moves, stated on the
/// moves `raw` with the keys `ks` and packed states `mt` of the nodes
/// between them (see `keys_law_ok`).
pub open spec fn count_inputs(raw: Seq<ReplayMove>, ks: Seq<u16>, mt: Seq<u16>) -> bool {
    let ms = merged_moves(raw, raw.len() as int);
    &&& effective(raw, ks, mt)
    &&& raw.len() <= usize::MAX
    &&& forall|i: int| 0 <= i < ms.len() ==> step_ok(#[trigger] final_move(ms, i), next_das(ms, i))
    &&& forall|t: int| 0 <= t < ms.len() ==> carried(ms, t) == (#[trigger] ms[t]).1.reused
    &&& forall|i: int| 0 < i < raw.len() ==> !(raw[i - 1].hold_only && #[trigger] raw[i].hold)
    &&& forall|i: int|
        0 <= i < raw.len() && (#[trigger] raw[i]).reused ==> crate::movegen::has_carry_form(
            raw[i].finesse_idx as int,
            raw[i].x as int,
        )
    &&& ks[0] == 0
    &&& mt[0] & 0x200u16 == 0
    &&& mt[0] & 0x400u16 == 0
}

/// Up to merged move `n`, the operations written, a held DAS counted as its
/// release to come, are four for each key pressed to reach the node where
/// move `n` starts.
#[verifier::spinoff_prover]
#[verifier::rlimit(60)]
proof fn lemma_keys_prefix(raw: Seq<ReplayMove>, ks: Seq<u16>, mt: Seq<u16>, n: int)
    requires
        count_inputs(raw, ks, mt),
        0 <= n <= merged_moves(raw, raw.len() as int).len(),
    ensures
        ({
            let ms = merged_moves(raw, raw.len() as int);
            &&& calls_len(crate::replay::replay_calls(ms, n)) + held2(crate::replay::das::held_before(ms, n)) == 4
                * ks[step_start(ms, n)]
            &&& !carried(ms, 0)
        }),
    decreases n,
{
    let ms = merged_moves(raw, raw.len() as int);
    lemma_merged_shape(raw, raw.len() as int);
    if n == 0 {
        assert(crate::replay::replay_calls(ms, 0) =~= Seq::<ReplayCall>::empty());
        if ms.len() > 0 {
            lemma_gap(raw, ks, mt, 0);
            let i0 = ms[0].0 as int;
            assert(move_effect(ks[i0], mt[i0], ks[i0 + 1], mt[i0 + 1], raw[i0]));
            assert(!carried(ms, 0));
        }
    } else {
        let s = n - 1;
        lemma_keys_prefix(raw, ks, mt, s);
        lemma_gap(raw, ks, mt, s);
        lemma_next_first(raw, ks, mt, s);
        let i = ms[s].0 as int;
        let st = step_start(ms, s);
        let m = final_move(ms, s);
        let next = next_das(ms, s);
        let view = compiled_step(ms, s);
        assert(m == ms[s].1);
        assert(step_ok(m, next));
        assert(m.reused == raw[i].reused);
        lemma_step_presses(m, next);
        lemma_step_count(view, m, next);
        assert(move_effect(ks[i], mt[i], ks[i + 1], mt[i + 1], raw[i]));
        if i == st + 1 {
            assert(raw[i - 1].hold_only);
            assert(!raw[i].hold);
        }
        let prev = crate::replay::replay_calls(ms, s);
        assert(crate::replay::replay_calls(ms, n) == prev + step_calls(view));
        crate::replay::techmino::lemma_calls_len_concat(prev, step_calls(view));
        assert(step_start(ms, n) == i + 1);
    }
}

/// The Techmino writer's check passes after every step of a path's replay
/// (see `techmino_check`): the operations written, a held DAS counted as its
/// release to come, are four for each key the search charged. This holds
/// wherever the path starts from a node with no keys pressed and no DAS
/// side, no lone hold is followed by a move that holds, no step continues a
/// DAS through its special form (see `keys_law_ok`), and each step is a move
/// as the search makes it (see `moves_effective`).
#[verifier::spinoff_prover]
#[verifier::rlimit(60)]
pub proof fn lemma_replay_keys(path: Seq<PathNode>, pieces: Seq<PieceType>, t: crate::replay::techmino::ReplayTiming)
    requires
        compile_ok(path, pieces),
        moves_effective(path, pieces),
        keys_law_ok(path, pieces),
        path.len() <= usize::MAX,
    ensures
        crate::replay::techmino::techmino_checks_ok(path, pieces, t),
{
    let raw = raw_moves(path, pieces);
    let ks = Seq::new(path.len(), |i: int| path[i].spec_keys_pressed());
    let mt = Seq::new(path.len(), |i: int| path[i].spec_meta());
    let ms = path_moves(path, pieces);
    assert(raw.len() == path.len() - 1);
    assert(ms == merged_moves(raw, raw.len() as int));
    assert forall|i: int| 0 <= i < raw.len() implies move_effect(ks[i], mt[i], ks[i + 1], mt[i + 1], #[trigger] raw[i]) by {
        assert(move_effect(
            path[i].spec_keys_pressed(),
            path[i].spec_meta(),
            path[i + 1].spec_keys_pressed(),
            path[i + 1].spec_meta(),
            raw_moves(path, pieces)[i],
        ));
    }
    assert forall|i: int|
        0 <= i < raw.len() && (#[trigger] raw[i]).reused implies crate::movegen::has_carry_form(
        raw[i].finesse_idx as int,
        raw[i].x as int,
    ) by {
        assert(path_step(path[i], pieces[i], path[i + 1]) is Some);
        crate::movegen::lemma_path_step_carry(path[i], pieces[i], path[i + 1]);
    }
    assert(count_inputs(raw, ks, mt));
    assert forall|s: int| 0 <= s < ms.len() implies #[trigger] crate::replay::techmino::techmino_check(path, pieces, t, s) by {
        lemma_keys_prefix(raw, ks, mt, s + 1);
        let calls = crate::replay::replay_calls(ms, s + 1);
        crate::replay::techmino::lemma_run_len(calls, t);
        crate::replay::techmino::lemma_held_after(calls);
        crate::replay::das::lemma_replay_prefix(ms, s + 1);
        lemma_merged_shape(raw, raw.len() as int);
        assert(step_start(ms, s + 1) == ms[s].0 + 1);
        let j = ms[s].0 + 1;
        assert(j < path.len());
        assert(ks[j] == path[j].spec_keys_pressed());
        assert(held_from(calls, None) == crate::replay::das::held_before(ms, s + 1));
        assert(crate::replay::techmino::run_calls(calls, t).0.len() + (if crate::replay::techmino::held_after(calls) {
            2int
        } else {
            0
        }) == 4 * path[j].spec_keys_pressed());
    }
}

} // verus!
