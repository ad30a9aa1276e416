//! Points in time, to the nanosecond, and the time between them.

use vstd::prelude::*;

verus! {

/// The first second that a [`Timestamp`] can hold: the start of the year
/// -262143.
pub const FIRST_SECOND: i64 = -8334601228800;

/// The last second that a [`Timestamp`] can hold: the end of the year 262142.
pub const LAST_SECOND: i64 = 8210266876799;

/// A point in time: the seconds since the start of 1970 in UTC, and the
/// nanoseconds since that second. During a leap second the nanoseconds run on
/// beyond a billion.
#[derive(Debug, Clone, Copy, PartialEq, Eq)]
pub struct Timestamp {
    seconds: i64,
    nanos: u32,
}

/// Seconds and nanoseconds that make a [`Timestamp`].
pub open spec fn is_time(seconds: int, nanos: int) -> bool {
    &&& FIRST_SECOND <= seconds <= LAST_SECOND
    &&& 0 <= nanos < 2_000_000_000
    &&& nanos < 1_000_000_000 || seconds % 60 == 59
}

/// A quotient without its fraction, whatever the sign.
pub open spec fn truncated(n: int, divisor: int) -> int {
    if n >= 0 {
        n / divisor
    } else {
        -((-n) / divisor)
    }
}

/// The leap second that lies between two points in time, if the one of them
/// that is earlier in its day stands within a leap second.
pub open spec fn leap_adjustment(
    seconds: int,
    nanos: int,
    other_seconds: int,
    other_nanos: int,
) -> int {
    if seconds % 86400 > other_seconds % 86400 && other_nanos >= 1_000_000_000 {
        1
    } else if seconds % 86400 < other_seconds % 86400 && nanos >= 1_000_000_000 {
        -1
    } else {
        0
    }
}

/// The nanoseconds from the second point in time to the first.
pub open spec fn nanos_between(
    seconds: int,
    nanos: int,
    other_seconds: int,
    other_nanos: int,
) -> int {
    (seconds - other_seconds + leap_adjustment(seconds, nanos, other_seconds, other_nanos))
        * 1_000_000_000 + (nanos - other_nanos)
}

/// Calls `chrono::DateTime::from_timestamp`, which knows a point in time
/// exactly where `is_time` holds.
#[verifier::external_body]
fn chrono_knows(seconds: i64, nanos: u32) -> (known: bool)
    ensures
        known == is_time(seconds as int, nanos as int),
{
    chrono::DateTime::from_timestamp(seconds, nanos).is_some()
}

/// Calls `chrono::DateTime::signed_duration_since` and
/// `chrono::TimeDelta::num_seconds`: the time between the two points, without
/// the fraction of a second.
#[verifier::external_body]
fn chrono_seconds_between(
    seconds: i64,
    nanos: u32,
    other_seconds: i64,
    other_nanos: u32,
) -> (whole: i64)
    requires
        is_time(seconds as int, nanos as int),
        is_time(other_seconds as int, other_nanos as int),
    ensures
        whole == truncated(
            nanos_between(seconds as int, nanos as int, other_seconds as int, other_nanos as int),
            1_000_000_000,
        ),
{
    let later = chrono::DateTime::from_timestamp(seconds, nanos).unwrap();
    let earlier = chrono::DateTime::from_timestamp(other_seconds, other_nanos).unwrap();
    later.signed_duration_since(earlier).num_seconds()
}

/// Calls `chrono::DateTime::signed_duration_since` and
/// `chrono::TimeDelta::num_days`: the time between the two points, without the
/// fraction of a day.
#[verifier::external_body]
fn chrono_days_between(
    seconds: i64,
    nanos: u32,
    other_seconds: i64,
    other_nanos: u32,
) -> (whole: i64)
    requires
        is_time(seconds as int, nanos as int),
        is_time(other_seconds as int, other_nanos as int),
    ensures
        whole == truncated(
            truncated(
                nanos_between(
                    seconds as int,
                    nanos as int,
                    other_seconds as int,
                    other_nanos as int,
                ),
                1_000_000_000,
            ),
            86400,
        ),
{
    let later = chrono::DateTime::from_timestamp(seconds, nanos).unwrap();
    let earlier = chrono::DateTime::from_timestamp(other_seconds, other_nanos).unwrap();
    later.signed_duration_since(earlier).num_days()
}

impl Timestamp {
    #[verifier::type_invariant]
    spec fn holds_a_time(self) -> bool {
        is_time(self.seconds as int, self.nanos as int)
    }

    /// The seconds since the start of 1970.
    pub closed spec fn spec_seconds(self) -> int {
        self.seconds as int
    }

    /// The nanoseconds since the last whole second.
    pub closed spec fn spec_nanos(self) -> int {
        self.nanos as int
    }

    /// The whole seconds from `earlier` to this point in time.
    pub open spec fn seconds_after(self, earlier: Timestamp) -> int {
        truncated(
            nanos_between(
                self.spec_seconds(),
                self.spec_nanos(),
                earlier.spec_seconds(),
                earlier.spec_nanos(),
            ),
            1_000_000_000,
        )
    }

    /// The whole days from `earlier` to this point in time.
    pub open spec fn days_after(self, earlier: Timestamp) -> int {
        truncated(self.seconds_after(earlier), 86400)
    }

    /// The point in time with these seconds and nanoseconds, if there is one.
    pub fn new(seconds: i64, nanos: u32) -> (time: Option<Timestamp>)
        ensures
            time is Some <==> is_time(seconds as int, nanos as int),
            time is Some ==> time->0.spec_seconds() == seconds && time->0.spec_nanos() == nanos,
    {
        if chrono_knows(seconds, nanos) {
            Some(Timestamp { seconds, nanos })
        } else {
            None
        }
    }

    /// The seconds since the start of 1970.
    pub fn seconds(&self) -> (seconds: i64)
        ensures
            seconds == self.spec_seconds(),
            FIRST_SECOND <= seconds <= LAST_SECOND,
    {
        proof {
            use_type_invariant(self);
        }
        self.seconds
    }

    /// The nanoseconds since the last whole second.
    pub fn nanos(&self) -> (nanos: u32)
        ensures
            nanos == self.spec_nanos(),
    {
        self.nanos
    }

    /// The whole seconds from `earlier` to this point in time.
    pub fn seconds_since(&self, earlier: &Timestamp) -> (whole: i64)
        ensures
            whole == self.seconds_after(*earlier),
            -20_000_000_000_000 < whole < 20_000_000_000_000,
    {
        proof {
            use_type_invariant(self);
            use_type_invariant(earlier);
        }
        chrono_seconds_between(self.seconds, self.nanos, earlier.seconds, earlier.nanos)
    }

    /// The whole days from `earlier` to this point in time.
    pub fn days_since(&self, earlier: &Timestamp) -> (whole: i64)
        ensures
            whole == self.days_after(*earlier),
    {
        proof {
            use_type_invariant(self);
            use_type_invariant(earlier);
        }
        chrono_days_between(self.seconds, self.nanos, earlier.seconds, earlier.nanos)
    }
}

/// Seconds later, without a leap second involved, the whole seconds since an
/// earlier point in time have grown by as many.
pub proof fn seconds_add_up(now: Timestamp, later: Timestamp, earlier: Timestamp, seconds: nat)
    requires
        now.spec_nanos() < 1_000_000_000,
        earlier.spec_nanos() < 1_000_000_000,
        later.spec_nanos() == now.spec_nanos(),
        later.spec_seconds() == now.spec_seconds() + seconds,
        nanos_between(
            now.spec_seconds(),
            now.spec_nanos(),
            earlier.spec_seconds(),
            earlier.spec_nanos(),
        ) >= 0,
    ensures
        later.seconds_after(earlier) == now.seconds_after(earlier) + seconds,
{
}

/// Without a leap second involved, the whole seconds between two points in
/// time are those that fit into the time between them; seen from the other
/// point they are as many, with the other sign.
pub proof fn whole_seconds_fit(later: Timestamp, earlier: Timestamp)
    requires
        later.spec_nanos() < 1_000_000_000,
        earlier.spec_nanos() < 1_000_000_000,
    ensures
        ({
            let nanos = (later.spec_seconds() - earlier.spec_seconds()) * 1_000_000_000
                + later.spec_nanos() - earlier.spec_nanos();
            &&& nanos >= 0 ==> later.seconds_after(earlier) * 1_000_000_000 <= nanos < (
            later.seconds_after(earlier) + 1) * 1_000_000_000
            &&& earlier.seconds_after(later) == -later.seconds_after(earlier)
        }),
{
}

/// The whole days between two points in time are those that fit into the whole
/// seconds between them; a day that has not passed does not count, in either
/// direction.
pub proof fn whole_days_fit(later: Timestamp, earlier: Timestamp)
    ensures
        later.seconds_after(earlier) >= 0 ==> later.days_after(earlier) * 86400
            <= later.seconds_after(earlier) < (later.days_after(earlier) + 1) * 86400,
        later.seconds_after(earlier) <= 0 ==> (later.days_after(earlier) - 1) * 86400
            < later.seconds_after(earlier) <= later.days_after(earlier) * 86400,
{
}

} // verus!
