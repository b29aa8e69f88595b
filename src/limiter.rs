use vstd::prelude::*;

verus! {

/// Where the worker stands between two events.
#[derive(Debug, PartialEq, Eq)]
pub enum Phase<T> {
    /// No value is pending; the worker waits for the next input value.
    Idle,
    /// A value is pending; the worker waits for a newer value or for the
    /// current window to end.
    Holding(T),
    /// The pending value has been handed to the output endpoint; the worker
    /// waits to learn whether the send went through.
    Sending,
    /// The worker has ended and takes no further events.
    Stopped,
}

/// What the driver observed at the suspension point that the last action
/// asked for.
#[derive(Debug, PartialEq, Eq)]
pub enum Event<T> {
    /// A value arrived on the input endpoint.
    Received(T),
    /// Every writer of the input endpoint is gone.
    InputClosed,
    /// The timer of a `WaitInputOrTimer` ran out before any input arrived.
    TimerFired,
    /// The output endpoint accepted the forwarded value.
    Sent,
    /// The output endpoint is closed: its reader is gone.
    SendFailed,
}

/// What the driver has to do next.
#[derive(Debug, PartialEq, Eq)]
pub enum Action<T> {
    /// Wait for the next input value (or for the input to close).
    WaitInput,
    /// Wait for the next input value or for this many nanoseconds,
    /// whichever comes first.
    WaitInputOrTimer(u64),
    /// Send this value on the output endpoint.
    Forward(T),
    /// End the worker: drop both endpoints.
    Stop,
}

/// The decision state of one rate-limiting worker.
///
/// Times are nanoseconds on a monotonic clock chosen by the driver.
#[derive(Debug, PartialEq, Eq)]
pub struct RateLimiter<T> {
    /// The minimum spacing between two forwarded values.
    pub delay: u64,
    /// When the most recent value was forwarded; `None` before the first
    /// forward, which therefore may happen at once.
    pub last_send: Option<u64>,
    /// What the worker is waiting for.
    pub phase: Phase<T>,
}

/// The time from `since` to `now`, or zero when `now` lies before `since`.
pub open spec fn elapsed(since: u64, now: u64) -> nat {
    if now >= since {
        (now - since) as nat
    } else {
        0
    }
}

/// Whether a value may be forwarded at `now`: nothing was forwarded yet, or a
/// full `delay` has passed since the last forward.
pub open spec fn may_forward(delay: u64, last_send: Option<u64>, now: u64) -> bool {
    match last_send {
        None => true,
        Some(t) => elapsed(t, now) >= delay,
    }
}

/// The state and action once the worker holds `v` at `now`: forward it if the
/// window allows, else keep it and wait out the rest of the window.
pub open spec fn hold_or_forward<T>(s: RateLimiter<T>, v: T, now: u64) -> (RateLimiter<T>, Action<T>) {
    if may_forward(s.delay, s.last_send, now) {
        (
            RateLimiter { delay: s.delay, last_send: Some(now), phase: Phase::Sending },
            Action::Forward(v),
        )
    } else {
        (
            RateLimiter { delay: s.delay, last_send: s.last_send, phase: Phase::Holding(v) },
            Action::WaitInputOrTimer((s.delay - elapsed(s.last_send->0, now)) as u64),
        )
    }
}

/// The state of a worker that has just been created: idle, with nothing
/// forwarded yet.
pub open spec fn fresh<T>(delay: u64) -> RateLimiter<T> {
    RateLimiter { delay, last_send: None, phase: Phase::Idle }
}

/// The state in which the worker has ended.
pub open spec fn stopped<T>(s: RateLimiter<T>) -> RateLimiter<T> {
    RateLimiter { delay: s.delay, last_send: s.last_send, phase: Phase::Stopped }
}

/// One transition of the worker: the state it moves to and the action it asks
/// for, once `event` has been observed at time `now`.
///
/// An event that the current phase does not wait for ends the worker.
pub open spec fn next<T>(s: RateLimiter<T>, event: Event<T>, now: u64) -> (RateLimiter<T>, Action<T>) {
    match event {
        Event::Received(v) => {
            if s.phase is Idle || s.phase is Holding {
                hold_or_forward(s, v, now)
            } else {
                (stopped(s), Action::Stop)
            }
        },
        Event::TimerFired => {
            match s.phase {
                Phase::Holding(v) => hold_or_forward(s, v, now),
                _ => (stopped(s), Action::Stop),
            }
        },
        Event::Sent => {
            if s.phase is Sending {
                (
                    RateLimiter { delay: s.delay, last_send: s.last_send, phase: Phase::Idle },
                    Action::WaitInput,
                )
            } else {
                (stopped(s), Action::Stop)
            }
        },
        Event::InputClosed => (stopped(s), Action::Stop),
        Event::SendFailed => (stopped(s), Action::Stop),
    }
}

impl<T> RateLimiter<T> {
    /// A fresh worker state: idle, with nothing forwarded yet.
    pub fn new(delay: u64) -> (r: Self)
        ensures
            r == fresh::<T>(delay),
    {
        RateLimiter { delay, last_send: None, phase: Phase::Idle }
    }

    /// Decides on the pending value `v` at time `now`.
    fn hold_or_forward(&mut self, v: T, now: u64) -> (r: Action<T>)
        ensures
            (*final(self), r) == hold_or_forward(*old(self), v, now),
    {
        let waited: u64 = match self.last_send {
            None => {
                self.last_send = Some(now);
                self.phase = Phase::Sending;
                return Action::Forward(v);
            },
            Some(t) => if now >= t {
                now - t
            } else {
                0
            },
        };
        if waited >= self.delay {
            self.last_send = Some(now);
            self.phase = Phase::Sending;
            Action::Forward(v)
        } else {
            self.phase = Phase::Holding(v);
            Action::WaitInputOrTimer(self.delay - waited)
        }
    }

    /// Takes one event observed at time `now`, moves to the next state and
    /// returns what the driver has to do next.
    pub fn step(&mut self, event: Event<T>, now: u64) -> (r: Action<T>)
        ensures
            (*final(self), r) == next(*old(self), event, now),
    {
        let mut phase = Phase::Stopped;
        std::mem::swap(&mut self.phase, &mut phase);
        match event {
            Event::Received(v) => match phase {
                Phase::Idle | Phase::Holding(_) => self.hold_or_forward(v, now),
                _ => Action::Stop,
            },
            Event::TimerFired => match phase {
                Phase::Holding(v) => self.hold_or_forward(v, now),
                _ => Action::Stop,
            },
            Event::Sent => match phase {
                Phase::Sending => {
                    self.phase = Phase::Idle;
                    Action::WaitInput
                },
                _ => Action::Stop,
            },
            Event::InputClosed => Action::Stop,
            Event::SendFailed => Action::Stop,
        }
    }
}

} // verus!
