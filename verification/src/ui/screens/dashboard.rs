use vstd::prelude::*;
use vstd::string::*;

use crate::utils::numtext::{two_digit_string, two_digits};

verus! {

/// The player's level badge and tier for a chip count.
pub open spec fn level_of(chips: i64) -> (&'static str, &'static str) {
    if chips >= 100_000_000 {
        ("LVL 15", "High Roller")
    } else if chips >= 10_000_000 {
        ("LVL 10", "Royal")
    } else if chips >= 1_000_000 {
        ("LVL 06", "Diamond")
    } else if chips >= 100_000 {
        ("LVL 03", "Gold")
    } else {
        ("LVL 01", "Bronze")
    }
}

pub fn level_icon(chips: i64) -> (l: (&'static str, &'static str))
    ensures
        l == level_of(chips),
{
    if chips >= 100_000_000 {
        ("LVL 15", "High Roller")
    } else if chips >= 10_000_000 {
        ("LVL 10", "Royal")
    } else if chips >= 1_000_000 {
        ("LVL 06", "Diamond")
    } else if chips >= 100_000 {
        ("LVL 03", "Gold")
    } else {
        ("LVL 01", "Bronze")
    }
}

/// A duration as hours:minutes:seconds, or minutes:seconds under an hour,
/// each field at least two digits.
pub open spec fn clock_text(total_seconds: nat) -> Seq<char> {
    let hours = total_seconds / 3600;
    let minutes = (total_seconds % 3600) / 60;
    let seconds = total_seconds % 60;
    if hours > 0 {
        two_digits(hours) + ":"@ + two_digits(minutes) + ":"@ + two_digits(seconds)
    } else {
        two_digits(minutes) + ":"@ + two_digits(seconds)
    }
}

pub fn format_duration(total_seconds: u64) -> (s: String)
    ensures
        s@ == clock_text(total_seconds as nat),
{
    let hours = total_seconds / 3600;
    let minutes = (total_seconds % 3600) / 60;
    let seconds = total_seconds % 60;
    let mut s = if hours > 0 {
        let mut h = two_digit_string(hours);
        h.append(":");
        h
    } else {
        String::new()
    };
    let m = two_digit_string(minutes);
    s.append(m.as_str());
    s.append(":");
    let sec = two_digit_string(seconds);
    s.append(sec.as_str());
    proof {
        if hours == 0 {
            assert(Seq::<char>::empty() + two_digits(minutes as nat) =~= two_digits(minutes as nat));
        }
    }
    s
}

} // verus!
