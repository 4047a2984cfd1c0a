//! The clock that deadlines are measured by.
use std::time::{Duration, Instant};
use vstd::prelude::*;

verus! {

/// `std::time::Instant`, a point in time that only the clock of the machine knows.
#[verifier::external_type_specification]
#[verifier::external_body]
pub struct ExInstant(std::time::Instant);

/// The length of a `Duration` in nanoseconds: what `Duration::as_nanos` returns.
pub uninterp spec fn duration_nanos(d: Duration) -> nat;

/// The instant that lies so many nanoseconds after `start`: the sum of an
/// `Instant` and a `Duration`.
pub uninterp spec fn instant_after(start: Instant, nanos: nat) -> Instant;

/// `Instant::now` reads the clock, so nothing is claimed of its result.
pub assume_specification[ std::time::Instant::now ]() -> (r: std::time::Instant);

/// `Instant::elapsed` reads the clock, so nothing is claimed of its result.
pub assume_specification[ std::time::Instant::elapsed ](
    instant: &std::time::Instant,
) -> (r: std::time::Duration);

/// `Instant::checked_add` returns the sum, where the machine can represent it.
/// With nothing to add, that is the instant itself. Where else it is the case
/// depends on the machine and is left open.
pub assume_specification[ std::time::Instant::checked_add ](
    instant: &std::time::Instant,
    duration: std::time::Duration,
) -> (r: Option<std::time::Instant>)
    ensures
        r is Some ==> r->Some_0 == instant_after(*instant, duration_nanos(duration)),
        duration_nanos(duration) == 0 ==> r is Some && r->Some_0 == *instant,
;

/// `Duration::as_secs` returns the number of whole seconds.
pub assume_specification[ std::time::Duration::as_secs ](
    duration: &std::time::Duration,
) -> (r: u64)
    ensures
        r == duration_nanos(*duration) / 1_000_000_000,
;

/// `Duration::subsec_millis` returns the whole milliseconds of the fraction of
/// a second.
pub assume_specification[ std::time::Duration::subsec_millis ](
    duration: &std::time::Duration,
) -> (r: u32)
    ensures
        r == duration_nanos(*duration) % 1_000_000_000 / 1_000_000,
;

/// `Duration::from_millis` returns the duration of so many milliseconds.
pub assume_specification[ std::time::Duration::from_millis ](millis: u64) -> (r:
    std::time::Duration)
    ensures
        duration_nanos(r) == millis * 1_000_000,
;

/// The whole milliseconds of a duration.
pub open spec fn whole_millis(d: Duration) -> nat {
    duration_nanos(d) / 1_000_000
}

/// `r` is `n`, wrapped around to fit 64 bits.
pub open spec fn wraps_to(n: int, r: i64) -> bool {
    (r - n) % 0x1_0000_0000_0000_0000 == 0
}

/// The instant of a timestamp on a clock that started at `start`. A negative
/// timestamp is taken as the number that its 64 bits spell.
pub open spec fn instant_at(start: Instant, timestamp: i64) -> Instant {
    instant_after(start, timestamp as u64 as nat * 1_000_000)
}

/// The whole milliseconds of `elapsed`, wrapped around should they not fit.
pub fn elapsed_millis(elapsed: Duration) -> (r: i64)
    ensures
        wraps_to(whole_millis(elapsed) as int, r),
        whole_millis(elapsed) <= i64::MAX ==> r == whole_millis(elapsed),
{
    let secs: u64 = elapsed.as_secs();
    let millis: u32 = elapsed.subsec_millis();
    let product: u64 = secs.wrapping_mul(1_000);
    let signed: i64 = product as i64;
    let r: i64 = signed.wrapping_add(millis as i64);
    proof {
        let n = duration_nanos(elapsed) as int;
        assert(n / 1_000_000 == n / 1_000_000_000 * 1_000 + n % 1_000_000_000 / 1_000_000);
        let m: int = 0x1_0000_0000_0000_0000;
        assert((product - secs * 1_000) % m == 0);
        assert(signed == product || signed == product - m) by {
            assert(product as i64 == product || product as i64 + 0x1_0000_0000_0000_0000 == product)
                by (bit_vector);
        }
        assert(r == signed + millis || r == signed + millis - m);
        assert((r - (secs * 1_000 + millis)) % m == 0);
        if n / 1_000_000 <= i64::MAX {
            assert(r == n / 1_000_000);
        }
    }
    r
}

/// A timestamp resolves to the instant at which it was taken, less than a
/// millisecond of which is dropped, also where it was wrapped around.
pub proof fn lemma_timestamp_resolves(start: Instant, elapsed: Duration, timestamp: i64)
    requires
        whole_millis(elapsed) <= u64::MAX,
        wraps_to(whole_millis(elapsed) as int, timestamp),
    ensures
        instant_at(start, timestamp) == instant_after(start, whole_millis(elapsed) * 1_000_000),
        0 <= duration_nanos(elapsed) - whole_millis(elapsed) * 1_000_000 < 1_000_000,
        duration_nanos(elapsed) % 1_000_000 == 0 ==> instant_at(start, timestamp) == instant_after(
            start,
            duration_nanos(elapsed),
        ),
{
    assert(timestamp as u64 == timestamp || timestamp as u64 == timestamp
        + 0x1_0000_0000_0000_0000) by (bit_vector);
    assert(timestamp as u64 == whole_millis(elapsed));
}

/// Reads a clock.
fn read<F: FnOnce() -> Instant>(now: F) -> (r: Instant)
    requires
        now.requires(()),
    ensures
        now.ensures((), r),
{
    now()
}

/// Measures the time since an instant.
fn measure<F: FnOnce(&Instant) -> Duration>(elapsed: F, since: &Instant) -> (r: Duration)
    requires
        elapsed.requires((since,)),
    ensures
        elapsed.ensures((since,), r),
{
    elapsed(since)
}

/// Adds a duration to an instant.
fn sum<F: FnOnce(&Instant, Duration) -> Option<Instant>>(
    checked_add: F,
    instant: &Instant,
    duration: Duration,
) -> (r: Option<Instant>)
    requires
        checked_add.requires((instant, duration)),
    ensures
        checked_add.ensures((instant, duration), r),
{
    checked_add(instant, duration)
}

/// The machine was asked for the instant of a timestamp on a clock that started
/// at `start`, and could not represent it: `Instant::checked_add` refused the sum.
pub open spec fn unrepresentable(start: Instant, timestamp: i64) -> bool {
    exists|d: Duration|
        duration_nanos(d) == timestamp as u64 as nat * 1_000_000 && #[trigger] call_ensures(
            Instant::checked_add,
            (&start, d),
            None,
        )
}

/// `r` is a number of milliseconds that may be read as the time since `start`.
pub open spec fn timestamp_since(start: Instant, r: i64) -> bool {
    exists|elapsed: Duration| #[trigger]
        call_ensures(Instant::elapsed, (&start,), elapsed) && wraps_to(
            whole_millis(elapsed) as int,
            r,
        ) && (whole_millis(elapsed) <= i64::MAX ==> r == whole_millis(elapsed))
}

/// The start of a clock can always be represented.
pub proof fn lemma_start_can_be_represented(start: Instant)
    ensures
        !unrepresentable(start, 0),
{
}

/// A count wraps around to one timestamp, and one that fits is that timestamp.
pub proof fn lemma_wrapped_around_once(n: int, r: i64, other: i64)
    requires
        wraps_to(n, r),
        wraps_to(n, other),
    ensures
        r == other,
        i64::MIN <= n <= i64::MAX ==> r == n,
{
}

/// Counts the time since it was made.
#[derive(Clone, Copy, Debug)]
pub struct Clock {
    start_time: Instant,
}

impl Clock {
    /// When the clock was made.
    pub closed spec fn start(self) -> Instant {
        self.start_time
    }

    /// A clock that was made at `start_time`.
    fn started_at(start_time: Instant) -> (r: Clock)
        ensures
            r.start() == start_time,
    {
        Clock { start_time }
    }

    /// A clock that starts now.
    pub fn new() -> (r: Clock)
        ensures
            call_ensures(Instant::now, (), r.start()),
    {
        Self::started_at(read(Instant::now))
    }

    /// When the clock was made.
    pub fn origin(&self) -> (r: Instant)
        ensures
            r == self.start(),
    {
        self.start_time
    }

    /// Returns the number of milliseconds since the clock was made.
    pub fn timestamp(&self) -> (r: i64)
        ensures
            timestamp_since(self.start(), r),
    {
        let elapsed = measure(Instant::elapsed, &self.start_time);
        elapsed_millis(elapsed)
    }

    /// Convert a number of milliseconds back to an instant, unless the machine
    /// cannot represent it. The start of the clock it always can.
    pub fn resolve(&self, timestamp: i64) -> (r: Option<Instant>)
        ensures
            r is Some ==> r->Some_0 == instant_at(self.start(), timestamp),
            r is None ==> unrepresentable(self.start(), timestamp),
            timestamp == 0 ==> r == Some(self.start()),
    {
        sum(Instant::checked_add, &self.start_time, Duration::from_millis(timestamp as u64))
    }
}

} // verus!
