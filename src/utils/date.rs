//! Ages in days, written for people.
use crate::text::{dec, push_decimal, push_str, string_of};
use vstd::prelude::*;

verus! {

/// An age of `days` days: today, yesterday, then days, weeks, months (of 30
/// days) and years (of 365 days), whole units rounded down.
pub open spec fn days_ago_text(days: nat) -> Seq<char> {
    if days == 0 {
        "Today"@
    } else if days == 1 {
        "Yesterday"@
    } else if days < 7 {
        dec(days) + " days ago"@
    } else if days < 30 {
        dec(days / 7) + " weeks ago"@
    } else if days < 365 {
        dec(days / 30) + " months ago"@
    } else {
        dec(days / 365) + " years ago"@
    }
}

/// Writes an age of `days` days in the largest unit that fits.
pub fn format_days_ago(days: u32) -> (r: String)
    ensures
        r@ == days_ago_text(days as nat),
{
    let mut v: Vec<char> = Vec::new();
    if days == 0 {
        push_str(&mut v, "Today");
    } else if days == 1 {
        push_str(&mut v, "Yesterday");
    } else {
        let (n, unit) = if days < 7 {
            (days, " days ago")
        } else if days < 30 {
            (days / 7, " weeks ago")
        } else if days < 365 {
            (days / 30, " months ago")
        } else {
            (days / 365, " years ago")
        };
        push_decimal(&mut v, n as u64);
        push_str(&mut v, unit);
    }
    assert(v@ =~= days_ago_text(days as nat));
    string_of(&v)
}


/// Whole days from `then` to `now`, rounded down; zero where `then` is later,
/// and the largest `u32` where the count does not fit.
pub open spec fn days_since_spec(then: i64, now: i64) -> u32 {
    let d = (now - then) / 86400;
    if d < 0 {
        0
    } else if d > u32::MAX {
        u32::MAX
    } else {
        d as u32
    }
}

/// Whole days that have passed from `then` until `now`.
pub fn days_since(then: i64, now: i64) -> (r: u32)
    ensures
        r == days_since_spec(then, now),
{
    let diff: i128 = now as i128 - then as i128;
    if diff < 0 {
        return 0;
    }
    let d: u128 = diff as u128 / 86400;
    if d > 0xffff_ffff {
        0xffff_ffff
    } else {
        d as u32
    }
}

} // verus!
