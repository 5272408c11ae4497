//! Wall-clock time, aligned wake-up times and sleep durations.
use vstd::arithmetic::div_mod::{lemma_fundamental_div_mod, lemma_mod_pos_bound, lemma_small_mod};
use vstd::prelude::*;

verus! {

/// Nanoseconds in one second.
pub const NANOS_PER_SEC: u32 = 1_000_000_000;

/// A point in wall-clock time, as whole seconds and nanoseconds since the
/// Unix epoch.
#[derive(Clone, Copy, Debug, PartialEq, Eq, Structural)]
pub struct WallTime {
    pub secs: u64,
    pub nanos: u32,
}

/// A non-negative length of time, as whole seconds and nanoseconds.
#[derive(Clone, Copy, Debug, PartialEq, Eq, Structural)]
pub struct Span {
    pub secs: u64,
    pub nanos: u32,
}

/// Why a scheduling step could not produce a value.
#[derive(Clone, Copy, Debug, PartialEq, Eq, Structural)]
pub enum ScheduleError {
    /// The wake-up time lies before the current time: the clock went back.
    ClockRewind,
    /// The wake-up time does not fit in the representable range.
    Overflow,
}

/// The system clock could not be read as a time after the Unix epoch.
#[derive(Clone, Copy, Debug, PartialEq, Eq, Structural)]
pub enum ClockError {
    BeforeEpoch,
}

impl WallTime {
    pub open spec fn wf(self) -> bool {
        self.nanos < NANOS_PER_SEC
    }

    /// Nanoseconds since the epoch.
    pub open spec fn instant(self) -> int {
        self.secs * 1_000_000_000 + self.nanos
    }
}

impl Span {
    pub open spec fn wf(self) -> bool {
        self.nanos < NANOS_PER_SEC
    }

    /// The length in nanoseconds.
    pub open spec fn length(self) -> int {
        self.secs * 1_000_000_000 + self.nanos
    }
}

/// Epoch seconds of the first interval boundary strictly after the second
/// `secs`.
pub open spec fn next_wake_secs(secs: int, interval: int) -> int {
    secs + (interval - secs % interval)
}

/// The aligned wake-up time that follows `now`: a whole boundary of
/// `interval` seconds, with no fraction of a second.
pub open spec fn aligned_wake(now: WallTime, interval: u64) -> WallTime {
    WallTime { secs: next_wake_secs(now.secs as int, interval as int) as u64, nanos: 0 }
}

/// Whether `wake` lies before `now`.
pub open spec fn rewound(now: WallTime, wake: WallTime) -> bool {
    wake.instant() < now.instant()
}

/// Relies on `SystemTime::now` and `SystemTime::duration_since(UNIX_EPOCH)`:
/// the clock's reading, split by `Duration::as_secs` and
/// `Duration::subsec_nanos` (documented to be below one billion); an error
/// when the clock reads before the epoch.
#[verifier::external_body]
pub fn get_current_time() -> (r: Result<WallTime, ClockError>)
    ensures
        r matches Ok(t) ==> t.wf(),
{
    match std::time::SystemTime::now().duration_since(std::time::UNIX_EPOCH) {
        Ok(d) => Ok(WallTime { secs: d.as_secs(), nanos: d.subsec_nanos() }),
        Err(_) => Err(ClockError::BeforeEpoch),
    }
}

/// Whole seconds elapsed since the epoch at `current_time`.
pub fn get_elapsed_time(current_time: WallTime) -> (r: u64)
    ensures
        r == current_time.secs,
{
    current_time.secs
}

/// The next wake-up time after `current_time` that lies on a whole multiple
/// of `ping_interval_seconds` since the epoch; when `current_time` is
/// exactly on such a boundary, the one after it.
pub fn calculate_next_run_time(current_time: WallTime, ping_interval_seconds: u64) -> (r: Result<
    WallTime,
    ScheduleError,
>)
    requires
        ping_interval_seconds > 0,
    ensures
        r is Ok <==> next_wake_secs(current_time.secs as int, ping_interval_seconds as int)
            <= u64::MAX,
        r matches Ok(w) ==> w == aligned_wake(current_time, ping_interval_seconds),
        r matches Err(e) ==> e == ScheduleError::Overflow,
{
    let into_interval: u64 = current_time.secs % ping_interval_seconds;
    let step: u64 = ping_interval_seconds - into_interval;
    match current_time.secs.checked_add(step) {
        Some(secs) => Ok(WallTime { secs, nanos: 0 }),
        None => Err(ScheduleError::Overflow),
    }
}

/// How long to sleep from `current_time` until `next_run_time`; a
/// `ClockRewind` error when `next_run_time` already lies in the past.
pub fn calculate_sleep_duration(current_time: WallTime, next_run_time: WallTime) -> (r: Result<
    Span,
    ScheduleError,
>)
    requires
        current_time.wf(),
        next_run_time.wf(),
    ensures
        r is Ok <==> !rewound(current_time, next_run_time),
        r matches Ok(d) ==> d.wf() && d.length() == next_run_time.instant()
            - current_time.instant(),
        r matches Err(e) ==> e == ScheduleError::ClockRewind,
{
    if next_run_time.secs < current_time.secs || (next_run_time.secs == current_time.secs
        && next_run_time.nanos < current_time.nanos) {
        Err(ScheduleError::ClockRewind)
    } else if next_run_time.nanos >= current_time.nanos {
        Ok(
            Span {
                secs: next_run_time.secs - current_time.secs,
                nanos: next_run_time.nanos - current_time.nanos,
            },
        )
    } else {
        Ok(
            Span {
                secs: next_run_time.secs - current_time.secs - 1,
                nanos: next_run_time.nanos + (NANOS_PER_SEC - current_time.nanos),
            },
        )
    }
}

/// The aligned wake-up time is a whole multiple of the interval, lies
/// strictly after `now`, and no multiple of the interval lies strictly
/// between the second of `now` and it. For every time up to the largest
/// second that std's `SystemTime` can hold, it is representable, so that
/// computing it succeeds.
pub proof fn lemma_wake_is_aligned(now: WallTime, interval: u64)
    requires
        now.wf(),
        interval > 0,
    ensures
        next_wake_secs(now.secs as int, interval as int) % (interval as int) == 0,
        next_wake_secs(now.secs as int, interval as int) * 1_000_000_000 > now.instant(),
        forall|m: int|
            #[trigger] (m % (interval as int)) == 0 && m > now.secs ==> next_wake_secs(
                now.secs as int,
                interval as int,
            ) <= m,
        now.secs <= i64::MAX ==> next_wake_secs(now.secs as int, interval as int) <= u64::MAX,
{
    let s = now.secs as int;
    let i = interval as int;
    let q = s / i;
    lemma_fundamental_div_mod(s, i);
    lemma_mod_pos_bound(s, i);
    if s < i {
        lemma_small_mod(s as nat, i as nat);
    }
    assert(next_wake_secs(s, i) == i * (q + 1)) by (nonlinear_arith)
        requires
            s == i * q + s % i,
            next_wake_secs(s, i) == s + (i - s % i),
    ;
    lemma_fundamental_div_mod(next_wake_secs(s, i), i);
    vstd::arithmetic::div_mod::lemma_mod_multiples_basic(q + 1, i);
    assert((q + 1) * i == i * (q + 1)) by (nonlinear_arith);
    assert forall|m: int| #[trigger] (m % i) == 0 && m > s implies next_wake_secs(s, i) <= m by {
        lemma_fundamental_div_mod(m, i);
        let k = m / i;
        assert(i * k > i * q) by (nonlinear_arith)
            requires
                m == i * k,
                m > s,
                s == i * q + s % i,
                0 <= s % i < i,
        ;
        assert(k > q) by (nonlinear_arith)
            requires
                i * k > i * q,
                i > 0,
        ;
        assert(i * k >= i * (q + 1)) by (nonlinear_arith)
            requires
                k >= q + 1,
                i > 0,
        ;
    }
}

/// Sleeping from `now` until its aligned wake-up time never reports a
/// rewound clock: the wait is non-negative.
pub proof fn lemma_sleep_until_wake_nonnegative(now: WallTime, interval: u64)
    requires
        now.wf(),
        interval > 0,
        next_wake_secs(now.secs as int, interval as int) <= u64::MAX,
    ensures
        aligned_wake(now, interval).wf(),
        !rewound(now, aligned_wake(now, interval)),
        aligned_wake(now, interval).instant() - now.instant() >= 0,
{
    lemma_wake_is_aligned(now, interval);
}

} // verus!
