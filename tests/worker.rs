use rate_limited_channel::{Action, Event, Phase, RateLimiter};

const MS: u64 = 1_000_000;
const US: u64 = 1_000;

/// A producer that sends `0, 1, 2, ...` every `gap` nanoseconds from time 0
/// until `end`, then drops its writer.
struct Producer {
    gap: u64,
    end: u64,
    next: i64,
}

impl Producer {
    fn next_time(&self) -> Option<u64> {
        let t = self.next as u64 * self.gap;
        if t < self.end {
            Some(t)
        } else {
            None
        }
    }
}

/// Runs a fresh worker against `producer` and a consumer that reads at once.
/// Returns the forwarded values with their times, up to `limit` values or
/// until `deadline`.
fn simulate(delay: u64, producer: &mut Producer, limit: usize, deadline: u64) -> Vec<(u64, i64)> {
    let mut limiter = RateLimiter::new(delay);
    let mut action = Action::WaitInput;
    let mut now: u64 = 0;
    let mut out = Vec::new();
    loop {
        let event = match action {
            Action::WaitInput => match producer.next_time() {
                Some(t) => {
                    now = now.max(t);
                    producer.next += 1;
                    Event::Received(producer.next - 1)
                }
                None => {
                    now = now.max(producer.end);
                    Event::InputClosed
                }
            },
            Action::WaitInputOrTimer(d) => {
                let fire = now + d;
                match producer.next_time() {
                    Some(t) if t < fire => {
                        now = now.max(t);
                        producer.next += 1;
                        Event::Received(producer.next - 1)
                    }
                    None if producer.end < fire => {
                        now = now.max(producer.end);
                        Event::InputClosed
                    }
                    _ => {
                        now = fire;
                        Event::TimerFired
                    }
                }
            }
            Action::Forward(v) => {
                if out.len() == limit || now > deadline {
                    Event::SendFailed
                } else {
                    out.push((now, v));
                    Event::Sent
                }
            }
            Action::Stop => return out,
        };
        action = limiter.step(event, now);
    }
}

#[test]
fn test_rate_limited_channel_once_per_second() {
    let test_duration = 5100 * MS;
    let rate_limit = 1000 * MS;
    let mut producer = Producer { gap: 10 * US, end: test_duration, next: 0 };
    let values = simulate(rate_limit, &mut producer, 5, 5500 * MS);
    assert_eq!(values.len(), 5);
    for w in values.windows(2) {
        assert!(w[1].0 - w[0].0 >= rate_limit);
    }
    assert_eq!(values[0], (0, 0));
    assert_eq!(values[1], (1000 * MS, 99_999));
    assert_eq!(values[4], (4000 * MS, 399_999));
}

#[test]
fn zero_delay_single_value_passes_at_once() {
    let mut producer = Producer { gap: 1, end: 1, next: 0 };
    let values = simulate(0, &mut producer, 100, u64::MAX);
    assert_eq!(values, vec![(0, 0)]);
}

#[test]
fn one_value_then_close() {
    let mut l = RateLimiter::new(1000 * MS);
    assert_eq!(l.step(Event::Received(7), 3), Action::Forward(7));
    assert_eq!(l.step(Event::Sent, 4), Action::WaitInput);
    assert_eq!(l.step(Event::InputClosed, 5), Action::Stop);
    assert_eq!(l.phase, Phase::Stopped);
}

#[test]
fn first_value_is_forwarded_immediately() {
    let mut l = RateLimiter::new(u64::MAX);
    assert_eq!(l.step(Event::Received(1), 0), Action::Forward(1));
    assert_eq!(l.last_send, Some(0));
    assert_eq!(l.phase, Phase::Sending);
}

#[test]
fn latest_value_wins_within_a_window() {
    let mut l = RateLimiter::new(100);
    assert_eq!(l.step(Event::Received(1), 0), Action::Forward(1));
    assert_eq!(l.step(Event::Sent, 0), Action::WaitInput);
    assert_eq!(l.step(Event::Received(2), 10), Action::WaitInputOrTimer(90));
    assert_eq!(l.step(Event::Received(3), 20), Action::WaitInputOrTimer(80));
    assert_eq!(l.phase, Phase::Holding(3));
    assert_eq!(l.step(Event::TimerFired, 100), Action::Forward(3));
    assert_eq!(l.last_send, Some(100));
}

#[test]
fn early_timer_waits_out_the_rest() {
    let mut l = RateLimiter::new(100);
    assert_eq!(l.step(Event::Received(1), 50), Action::Forward(1));
    assert_eq!(l.step(Event::Sent, 50), Action::WaitInput);
    assert_eq!(l.step(Event::Received(2), 60), Action::WaitInputOrTimer(90));
    assert_eq!(l.step(Event::TimerFired, 140), Action::WaitInputOrTimer(10));
    assert_eq!(l.step(Event::TimerFired, 150), Action::Forward(2));
}

#[test]
fn window_is_measured_from_the_last_forward() {
    let mut l = RateLimiter::new(100);
    assert_eq!(l.step(Event::Received(1), 0), Action::Forward(1));
    assert_eq!(l.step(Event::Sent, 70), Action::WaitInput);
    assert_eq!(l.step(Event::Received(2), 100), Action::Forward(2));
}

#[test]
fn clock_going_back_counts_as_no_time() {
    let mut l = RateLimiter { delay: 100, last_send: Some(500), phase: Phase::Idle };
    assert_eq!(l.step(Event::Received(9), 400), Action::WaitInputOrTimer(100));
}

#[test]
fn input_closed_while_holding_drops_the_pending_value() {
    let mut l = RateLimiter::new(100);
    assert_eq!(l.step(Event::Received(1), 0), Action::Forward(1));
    assert_eq!(l.step(Event::Sent, 0), Action::WaitInput);
    assert_eq!(l.step(Event::Received(2), 10), Action::WaitInputOrTimer(90));
    assert_eq!(l.step(Event::InputClosed, 20), Action::Stop);
    assert_eq!(l.step(Event::TimerFired, 200), Action::Stop);
    assert_eq!(l.phase, Phase::Stopped);
}

#[test]
fn send_failure_ends_the_worker() {
    let mut l = RateLimiter::new(100);
    assert_eq!(l.step(Event::Received(1), 0), Action::Forward(1));
    assert_eq!(l.step(Event::SendFailed, 0), Action::Stop);
    assert_eq!(l.step(Event::Received(2), 500), Action::Stop);
    assert_eq!(l.phase, Phase::Stopped);
}

#[test]
fn unexpected_event_ends_the_worker() {
    let mut l: RateLimiter<i32> = RateLimiter::new(100);
    assert_eq!(l.step(Event::Sent, 0), Action::Stop);
    assert_eq!(l.phase, Phase::Stopped);
    let mut l = RateLimiter::new(100);
    assert_eq!(l.step(Event::Received(1), 0), Action::Forward(1));
    assert_eq!(l.step(Event::Received(2), 1), Action::Stop);
}

#[test]
fn consumer_gone_ends_the_scenario() {
    let mut producer = Producer { gap: 10 * US, end: 5100 * MS, next: 0 };
    let values = simulate(1000 * MS, &mut producer, 2, u64::MAX);
    assert_eq!(values.len(), 2);
    assert!(producer.next < 510_000);
}
