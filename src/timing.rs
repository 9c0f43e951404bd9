use vstd::prelude::*;

verus! {

/// Relies on `chrono::Utc::now` and `DateTime::timestamp_millis`: the current
/// wall-clock time in milliseconds since the Unix epoch. Nothing is promised of
/// its value.
#[verifier::external_body]
fn now_millis() -> i64 {
    chrono::Utc::now().timestamp_millis()
}

/// Milliseconds from `start` to `stop`; 0 should the clock have gone back.
pub open spec fn elapsed_between(start: i64, stop: i64) -> nat {
    if stop >= start {
        (stop - start) as nat
    } else {
        0
    }
}

/// Milliseconds from `start` to `stop`; 0 should the clock have gone back.
pub fn elapsed_ms(start: i64, stop: i64) -> (r: u64)
    ensures
        r == elapsed_between(start, stop),
{
    if stop >= start {
        (stop as i128 - start as i128) as u64
    } else {
        0
    }
}

/// Times one round: started when the prompt is shown, read when the answer
/// comes in.
#[derive(Debug, Clone, Copy)]
pub struct Stopwatch {
    pub start_ms: i64,
}

impl Stopwatch {
    /// A stopwatch started now.
    pub fn start() -> (s: Stopwatch) {
        Stopwatch { start_ms: now_millis() }
    }

    /// Milliseconds since the start, as the clock reads now.
    pub fn stop(&self) -> (r: u64)
        ensures
            exists|now: i64| r == elapsed_between(self.start_ms, now),
    {
        let now = now_millis();
        elapsed_ms(self.start_ms, now)
    }
}

} // verus!
