//! The ages of commits.

use vstd::prelude::*;

use crate::text::{concat, decimal, number};

verus! {

/// The seconds from `timestamp` to `now`; none for a timestamp that lies ahead.
pub open spec fn elapsed(now: i64, timestamp: i64) -> nat {
    let seconds = now - timestamp;
    if seconds < 0 {
        0
    } else if seconds > i64::MAX {
        i64::MAX as nat
    } else {
        seconds as nat
    }
}

/// How long ago something was, in the largest unit that fills it. A month has thirty days and
/// starts behind them, a year has 365 days and starts behind them.
pub open spec fn age_text(seconds: nat) -> Seq<char> {
    if seconds < 60 {
        decimal(seconds) + "s ago"@
    } else if seconds < 3_600 {
        decimal(seconds / 60) + "m ago"@
    } else if seconds < 86_400 {
        decimal(seconds / 3_600) + "h ago"@
    } else if seconds <= 2_592_000 {
        decimal(seconds / 86_400) + "d ago"@
    } else if seconds <= 31_536_000 {
        decimal(seconds / 2_592_000) + "mo ago"@
    } else {
        decimal(seconds / 31_536_000) + "y ago"@
    }
}

/// How long before `now` a timestamp lies.
pub fn age_at(now: i64, timestamp: i64) -> (r: String)
    ensures
        r@ == age_text(elapsed(now, timestamp)),
{
    let seconds: u64 = if timestamp >= now {
        0
    } else {
        let difference: i128 = now as i128 - timestamp as i128;
        if difference > i64::MAX as i128 {
            i64::MAX as u64
        } else {
            difference as u64
        }
    };
    if seconds < 60 {
        concat(&number(seconds), "s ago")
    } else if seconds < 3_600 {
        concat(&number(seconds / 60), "m ago")
    } else if seconds < 86_400 {
        concat(&number(seconds / 3_600), "h ago")
    } else if seconds <= 2_592_000 {
        concat(&number(seconds / 86_400), "d ago")
    } else if seconds <= 31_536_000 {
        concat(&number(seconds / 2_592_000), "mo ago")
    } else {
        concat(&number(seconds / 31_536_000), "y ago")
    }
}

/// Calls `std::time::SystemTime::elapsed` on the Unix epoch and hands out the whole seconds of
/// the duration, or `None` where the clock stands before the epoch. What it returns depends on
/// the clock of the machine alone, so nothing is claimed of it.
#[verifier::external_body]
fn clock_seconds() -> (r: Option<u64>) {
    match std::time::UNIX_EPOCH.elapsed() {
        Ok(duration) => Some(duration.as_secs()),
        Err(_) => None,
    }
}

/// The time for what the clock says: its seconds since the Unix epoch, or zero where it stands
/// before the epoch. Beyond the range of signed seconds the time turns over to the past.
pub open spec fn time_for(clock: Option<u64>) -> int {
    match clock {
        Some(seconds) => if seconds <= i64::MAX {
            seconds as int
        } else {
            seconds - u64::MAX - 1
        },
        None => 0,
    }
}

/// Reads the time off what the clock says.
pub fn read_time(clock: Option<u64>) -> (r: i64)
    ensures
        r == time_for(clock),
{
    match clock {
        Some(seconds) => if seconds <= i64::MAX as u64 {
            seconds as i64
        } else {
            -((u64::MAX - seconds) as i64) - 1
        },
        None => 0,
    }
}

/// The time now, whatever the clock says.
pub(crate) fn unix_now() -> (r: i64)
    ensures
        exists|clock: Option<u64>| r == #[trigger] time_for(clock),
{
    let clock = clock_seconds();
    let now = read_time(clock);
    assert(now == time_for(clock));
    now
}

/// How long before now a timestamp lies, whatever the clock says now is.
pub fn relative_age(timestamp: i64) -> (r: String)
    ensures
        exists|now: i64| r@ == age_text(#[trigger] elapsed(now, timestamp)),
{
    let now = unix_now();
    let age = age_at(now, timestamp);
    assert(age@ == age_text(elapsed(now, timestamp)));
    age
}

/// Something that lies further back never has fewer seconds behind it.
pub proof fn age_grows(now: i64, earlier: i64, later: i64)
    requires
        earlier <= later,
    ensures
        elapsed(now, later) <= elapsed(now, earlier),
{
}

/// What lies behind now counts as many seconds as it lies behind, as far as those have a
/// number; what lies ahead counts none.
pub proof fn elapsed_seconds_lie_between(now: i64, timestamp: i64)
    ensures
        timestamp >= now ==> elapsed(now, timestamp) == 0,
        timestamp < now && now - timestamp <= i64::MAX ==> timestamp + elapsed(now, timestamp)
            == now,
        elapsed(now, timestamp) <= i64::MAX,
{
}

/// An age is a whole number of one unit that fits the seconds, with less than one more of that
/// unit left over. Seconds are used below a minute, minutes below an hour, hours below a day,
/// days up to thirty of them, months of thirty days up to 365 days, and years of 365 days
/// beyond.
pub proof fn ages_count_whole_units(seconds: nat) -> (r: (nat, nat))
    ensures
        r.0 * r.1 <= seconds < (r.0 + 1) * r.1,
        r.1 == 1 <==> seconds < 60,
        r.1 == 60 <==> 60 <= seconds < 3_600,
        r.1 == 3_600 <==> 3_600 <= seconds < 86_400,
        r.1 == 86_400 <==> 86_400 <= seconds <= 2_592_000,
        r.1 == 2_592_000 <==> 2_592_000 < seconds <= 31_536_000,
        r.1 == 31_536_000 <==> 31_536_000 < seconds,
        r.1 == 1 ==> age_text(seconds) == decimal(r.0) + "s ago"@,
        r.1 == 60 ==> age_text(seconds) == decimal(r.0) + "m ago"@,
        r.1 == 3_600 ==> age_text(seconds) == decimal(r.0) + "h ago"@,
        r.1 == 86_400 ==> age_text(seconds) == decimal(r.0) + "d ago"@,
        r.1 == 2_592_000 ==> age_text(seconds) == decimal(r.0) + "mo ago"@,
        r.1 == 31_536_000 ==> age_text(seconds) == decimal(r.0) + "y ago"@,
{
    let unit: nat = if seconds < 60 {
        1
    } else if seconds < 3_600 {
        60
    } else if seconds < 86_400 {
        3_600
    } else if seconds <= 2_592_000 {
        86_400
    } else if seconds <= 31_536_000 {
        2_592_000
    } else {
        31_536_000
    };
    let count = seconds / unit;
    assert(count * unit <= seconds < (count + 1) * unit) by (nonlinear_arith)
        requires
            count == seconds / unit,
            unit > 0,
    ;
    (count, unit)
}

/// The time is what the clock says, as far as it has a number as signed seconds.
pub proof fn times_are_read_off_the_clock(seconds: u64)
    ensures
        seconds <= i64::MAX ==> time_for(Some(seconds)) == seconds,
        time_for(None) == 0,
        (time_for(Some(seconds)) - seconds) % 0x1_0000_0000_0000_0000 == 0,
        i64::MIN <= time_for(Some(seconds)) <= i64::MAX,
{
}

} // verus!
