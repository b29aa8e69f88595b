use vstd::prelude::*;

use crate::limiter::{elapsed, fresh, next, stopped, Action, Event, Phase, RateLimiter};

verus! {

/// The actions a worker asks for over a run of events, each observed at the
/// time paired with it: one action per event.
pub open spec fn actions<T>(s: RateLimiter<T>, run: Seq<(Event<T>, u64)>) -> Seq<Action<T>>
    decreases run.len(),
{
    if run.len() == 0 {
        seq![]
    } else {
        let t = next(s, run[0].0, run[0].1);
        seq![t.1] + actions(t.0, run.drop_first())
    }
}

/// The times of a run never go back.
pub open spec fn clock_monotone<T>(run: Seq<(Event<T>, u64)>) -> bool {
    forall|i: int, j: int| 0 <= i <= j < run.len() ==> run[i].1 <= run[j].1
}

/// The most recently received value of a run, or `held` when the run
/// receives nothing.
pub open spec fn latest<T>(held: Option<T>, run: Seq<(Event<T>, u64)>) -> Option<T>
    decreases run.len(),
{
    if run.len() == 0 {
        held
    } else {
        let h = match run[0].0 {
            Event::Received(v) => Some(v),
            _ => held,
        };
        latest(h, run.drop_first())
    }
}

/// The value an action forwards, if it forwards one.
pub open spec fn forwarded<T>(a: Action<T>) -> Option<T> {
    match a {
        Action::Forward(v) => Some(v),
        _ => None,
    }
}

/// The value a worker holds, if any.
pub open spec fn held<T>(s: RateLimiter<T>) -> Option<T> {
    match s.phase {
        Phase::Holding(v) => Some(v),
        _ => None,
    }
}

proof fn lemma_actions_len<T>(s: RateLimiter<T>, run: Seq<(Event<T>, u64)>)
    ensures
        actions(s, run).len() == run.len(),
    decreases run.len(),
{
    if run.len() > 0 {
        lemma_actions_len(next(s, run[0].0, run[0].1).0, run.drop_first());
    }
}

proof fn lemma_rate_bound_from<T>(s: RateLimiter<T>, run: Seq<(Event<T>, u64)>)
    requires
        clock_monotone(run),
        s.last_send is Some ==> forall|j: int| 0 <= j < run.len() ==> s.last_send->0 <= run[j].1,
    ensures
        forall|k: int|
            0 <= k < run.len() && #[trigger] actions(s, run)[k] is Forward && s.last_send is Some
                ==> s.last_send->0 + s.delay <= run[k].1,
        forall|i: int, k: int|
            0 <= i < k < run.len() && #[trigger] actions(s, run)[i] is Forward
                && #[trigger] actions(s, run)[k] is Forward ==> run[i].1 + s.delay <= run[k].1,
    decreases run.len(),
{
    lemma_actions_len(s, run);
    if run.len() > 0 {
        let t = next(s, run[0].0, run[0].1);
        let rest = run.drop_first();
        let a = actions(s, run);
        assert(a == seq![t.1] + actions(t.0, rest));
        assert(t.0.delay == s.delay);
        if t.1 is Forward {
            assert(t.0.last_send == Some(run[0].1));
            if s.last_send is Some {
                assert(s.last_send->0 <= run[0].1);
                assert(elapsed(s.last_send->0, run[0].1) >= s.delay);
            }
        } else {
            assert(t.0.last_send == s.last_send);
        }
        assert(clock_monotone(rest));
        lemma_rate_bound_from(t.0, rest);
        lemma_actions_len(t.0, rest);
        assert forall|k: int|
            0 <= k < run.len() && #[trigger] a[k] is Forward && s.last_send is Some
                implies s.last_send->0 + s.delay <= run[k].1 by {
            if k > 0 {
                assert(a[k] == actions(t.0, rest)[k - 1]);
                assert(rest[k - 1] == run[k]);
                assert(run[0].1 <= run[k].1);
            }
        }
        assert forall|i: int, k: int|
            0 <= i < k < run.len() && #[trigger] a[i] is Forward && #[trigger] a[k] is Forward
                implies run[i].1 + s.delay <= run[k].1 by {
            assert(a[k] == actions(t.0, rest)[k - 1]);
            assert(rest[k - 1] == run[k]);
            if i > 0 {
                assert(a[i] == actions(t.0, rest)[i - 1]);
                assert(rest[i - 1] == run[i]);
            }
        }
    }
}

/// Rate bound: on a clock that never goes back, any two values that a fresh
/// worker forwards are at least `delay` apart.
pub proof fn lemma_rate_bound<T>(delay: u64, run: Seq<(Event<T>, u64)>)
    requires
        clock_monotone(run),
    ensures
        forall|i: int, k: int|
            0 <= i < k < run.len() && #[trigger] actions(fresh::<T>(delay), run)[i] is Forward
                && #[trigger] actions(fresh::<T>(delay), run)[k] is Forward ==> run[i].1 + delay
                <= run[k].1,
{
    lemma_rate_bound_from(fresh::<T>(delay), run);
}

proof fn lemma_latest_override<T>(p: Option<T>, run: Seq<(Event<T>, u64)>)
    ensures
        latest(None, run) is Some ==> latest(p, run) == latest(None, run),
    decreases run.len(),
{
    if run.len() > 0 {
        match run[0].0 {
            Event::Received(v) => {},
            _ => lemma_latest_override(p, run.drop_first()),
        }
    }
}

proof fn lemma_latest_wins_from<T>(s: RateLimiter<T>, run: Seq<(Event<T>, u64)>)
    ensures
        forall|k: int|
            0 <= k < run.len() && #[trigger] forwarded(actions(s, run)[k]) is Some ==> latest(
                held(s),
                run.take(k + 1),
            ) == forwarded(actions(s, run)[k]),
    decreases run.len(),
{
    lemma_actions_len(s, run);
    if run.len() > 0 {
        let t = next(s, run[0].0, run[0].1);
        let rest = run.drop_first();
        let a = actions(s, run);
        assert(a == seq![t.1] + actions(t.0, rest));
        let h = match run[0].0 {
            Event::Received(v) => Some(v),
            _ => held(s),
        };
        lemma_latest_wins_from(t.0, rest);
        assert forall|k: int|
            0 <= k < run.len() && #[trigger] forwarded(a[k]) is Some implies latest(
                held(s),
                run.take(k + 1),
            ) == forwarded(a[k]) by {
            assert(run.take(k + 1).drop_first() =~= rest.take(k));
            assert(run.take(k + 1)[0] == run[0]);
            assert(latest(held(s), run.take(k + 1)) == latest(h, rest.take(k)));
            if k == 0 {
                assert(rest.take(0).len() == 0);
            } else {
                assert(a[k] == actions(t.0, rest)[k - 1]);
                if t.0.phase is Holding {
                    assert(held(t.0) == h);
                } else {
                    lemma_latest_override(h, rest.take(k));
                }
            }
        }
    }
}

/// Latest wins: whenever a fresh worker forwards a value, it is the value
/// most recently received up to that moment, never an earlier one.
pub proof fn lemma_latest_wins<T>(delay: u64, run: Seq<(Event<T>, u64)>)
    ensures
        forall|k: int|
            0 <= k < run.len() && #[trigger] forwarded(actions(fresh::<T>(delay), run)[k]) is Some
                ==> latest(None, run.take(k + 1)) == forwarded(actions(fresh::<T>(delay), run)[k]),
{
    lemma_latest_wins_from(fresh::<T>(delay), run);
}

/// First value fast path: a fresh worker forwards the first value it receives
/// at the moment it receives it, without waiting for any window.
pub proof fn lemma_first_value_immediate<T>(delay: u64, v: T, now: u64)
    ensures
        next(fresh::<T>(delay), Event::Received(v), now) == (
        RateLimiter { delay, last_send: Some(now), phase: Phase::<T>::Sending },
        Action::Forward(v),
        ),
{
}

/// Input closure: whatever the worker is doing, once the input reports that
/// it is closed the worker ends, and an ended worker stays ended whatever it
/// is told afterwards.
pub proof fn lemma_input_closed_ends<T>(s: RateLimiter<T>, now: u64, later: Event<T>, then: u64)
    ensures
        next(s, Event::InputClosed, now) == (stopped(s), Action::<T>::Stop),
        next(stopped(s), later, then) == (stopped(s), Action::<T>::Stop),
{
}

/// Output closure: whatever the worker is doing, once a send fails because the
/// reader is gone the worker ends, and an ended worker stays ended whatever it
/// is told afterwards.
pub proof fn lemma_send_failed_ends<T>(s: RateLimiter<T>, now: u64, later: Event<T>, then: u64)
    ensures
        next(s, Event::SendFailed, now) == (stopped(s), Action::<T>::Stop),
        next(stopped(s), later, then) == (stopped(s), Action::<T>::Stop),
{
}

/// Waiting ends: when the worker asks to wait at most `d` for input, and the
/// timer then fires no earlier than `d` later on a clock that has not gone
/// back, the held value is forwarded.
pub proof fn lemma_timer_forwards<T>(s: RateLimiter<T>, e: Event<T>, now: u64, d: u64, later: u64)
    requires
        s.last_send is Some ==> s.last_send->0 <= now,
        next(s, e, now).1 == Action::<T>::WaitInputOrTimer(d),
        now + d <= later,
    ensures
        next(next(s, e, now).0, Event::TimerFired, later).1 is Forward,
{
}

} // verus!
