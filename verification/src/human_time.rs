//! Times as people say them.
use vstd::prelude::*;

use crate::clock::Timestamp;
use crate::text;

verus! {

/// The nanoseconds since the Unix epoch.
pub open spec fn nanos_of(t: Timestamp) -> int {
    t.seconds * 1_000_000_000 + t.nanos
}

/// The whole seconds from one point in time to another; none where the second comes first.
pub open spec fn seconds_between(from: Timestamp, to: Timestamp) -> nat {
    if nanos_of(to) <= nanos_of(from) {
        0
    } else {
        ((nanos_of(to) - nanos_of(from)) / 1_000_000_000) as nat
    }
}

/// A number of units that have passed.
pub open spec fn units_ago(value: nat, unit: Seq<char>) -> Seq<char> {
    if value == 1 {
        text::decimal(value) + " "@ + unit + " ago"@
    } else {
        text::decimal(value) + " "@ + unit + "s ago"@
    }
}

/// How long ago something was, in the largest unit of which at least one has passed.
pub open spec fn ago(seconds: nat) -> Seq<char> {
    if seconds < 60 {
        units_ago(seconds, "second"@)
    } else if seconds < 60 * 60 {
        units_ago(seconds / 60, "minute"@)
    } else if seconds < 60 * 60 * 24 {
        units_ago(seconds / 3600, "hour"@)
    } else {
        units_ago(seconds / 86400, "day"@)
    }
}

fn format_unit(value: u64, unit: &str) -> (out: String)
    ensures
        out@ == units_ago(value as nat, unit@),
{
    let number: String = text::number(value);
    if value == 1 {
        text::glue4(number.as_str(), " ", unit, " ago")
    } else {
        text::glue4(number.as_str(), " ", unit, "s ago")
    }
}

/// How long before `now` a point in time was.
pub fn human_time_ago(ts: Timestamp, now: Timestamp) -> (out: String)
    requires
        ts.well_formed(),
        now.well_formed(),
    ensures
        out@ == ago(seconds_between(ts, now)),
{
    let from: i128 = ts.seconds as i128 * 1_000_000_000 + ts.nanos as i128;
    let to: i128 = now.seconds as i128 * 1_000_000_000 + now.nanos as i128;
    let secs: u64 = if to <= from {
        0
    } else {
        ((to - from) / 1_000_000_000) as u64
    };
    if secs < 60 {
        return format_unit(secs, "second");
    }
    if secs < 60 * 60 {
        return format_unit(secs / 60, "minute");
    }
    if secs < 60 * 60 * 24 {
        return format_unit(secs / 3600, "hour");
    }
    format_unit(secs / (60 * 60 * 24), "day")
}

/// A point in time that is still to come counts as now.
pub proof fn law_the_future_is_now(ts: Timestamp, now: Timestamp)
    requires
        nanos_of(now) <= nanos_of(ts),
    ensures
        ago(seconds_between(ts, now)) == text::decimal(0) + " "@ + "second"@ + "s ago"@,
{
}

/// A time is told in the largest unit of which at least one has passed, rounded down, and a single one
/// has no plural.
pub proof fn law_times_are_told_in_the_largest_unit(seconds: nat)
    ensures
        ({
            let told = |n: nat, one: Seq<char>, more: Seq<char>|
                text::decimal(n) + (if n == 1 {
                    one
                } else {
                    more
                });
            let minutes = seconds / 60;
            let hours = seconds / 3600;
            let days = seconds / 86400;
            &&& minutes == 0 ==> ago(seconds) == told(seconds, " second ago"@, " seconds ago"@)
            &&& minutes > 0 && hours == 0 ==> ago(seconds) == told(
                minutes,
                " minute ago"@,
                " minutes ago"@,
            )
            &&& hours > 0 && days == 0 ==> ago(seconds) == told(hours, " hour ago"@, " hours ago"@)
            &&& days > 0 ==> ago(seconds) == told(days, " day ago"@, " days ago"@)
        }),
{
    reveal_strlit(" ");
    reveal_strlit(" ago");
    reveal_strlit("s ago");
    reveal_strlit("second");
    reveal_strlit("minute");
    reveal_strlit("hour");
    reveal_strlit("day");
    reveal_strlit(" second ago");
    reveal_strlit(" seconds ago");
    reveal_strlit(" minute ago");
    reveal_strlit(" minutes ago");
    reveal_strlit(" hour ago");
    reveal_strlit(" hours ago");
    reveal_strlit(" day ago");
    reveal_strlit(" days ago");
    assert(" "@ + "second"@ + " ago"@ =~= " second ago"@);
    assert(" "@ + "second"@ + "s ago"@ =~= " seconds ago"@);
    assert(" "@ + "minute"@ + " ago"@ =~= " minute ago"@);
    assert(" "@ + "minute"@ + "s ago"@ =~= " minutes ago"@);
    assert(" "@ + "hour"@ + " ago"@ =~= " hour ago"@);
    assert(" "@ + "hour"@ + "s ago"@ =~= " hours ago"@);
    assert(" "@ + "day"@ + " ago"@ =~= " day ago"@);
    assert(" "@ + "day"@ + "s ago"@ =~= " days ago"@);
    lemma_told(seconds, "second"@);
    lemma_told(seconds / 60, "minute"@);
    lemma_told(seconds / 3600, "hour"@);
    lemma_told(seconds / 86400, "day"@);
}

/// The number stands first.
proof fn lemma_told(n: nat, unit: Seq<char>)
    ensures
        n == 1 ==> units_ago(n, unit) == text::decimal(n) + (" "@ + unit + " ago"@),
        n != 1 ==> units_ago(n, unit) == text::decimal(n) + (" "@ + unit + "s ago"@),
{
    assert(text::decimal(n) + " "@ + unit + " ago"@ =~= text::decimal(n) + (" "@ + unit
        + " ago"@));
    assert(text::decimal(n) + " "@ + unit + "s ago"@ =~= text::decimal(n) + (" "@ + unit
        + "s ago"@));
}

/// As many whole seconds have passed as fit between the two times.
pub proof fn law_whole_seconds_are_counted(from: Timestamp, to: Timestamp)
    requires
        nanos_of(from) <= nanos_of(to),
    ensures
        ({
            let n = seconds_between(from, to);
            n * 1_000_000_000 <= nanos_of(to) - nanos_of(from) < (n + 1) * 1_000_000_000
        }),
{
}

} // verus!
