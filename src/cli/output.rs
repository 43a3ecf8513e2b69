//! Short forms of sizes and ages for tables.
use crate::text::{dec, push_decimal, push_str, string_of};
use crate::utils::size::{format_size_with, size_text};
use vstd::prelude::*;

verus! {

/// Writes `bytes` in binary units with one decimal, as `1.5 MB`; below one KB
/// as a whole number of bytes, as `512 B`.
pub fn format_size(bytes: u64) -> (r: String)
    ensures
        r@ == size_text(bytes as nat, "B"@),
{
    format_size_with(bytes, "B")
}

/// An age in days, counted in days only.
pub open spec fn short_days_ago_text(days: nat) -> Seq<char> {
    if days == 0 {
        "Today"@
    } else if days == 1 {
        "Yesterday"@
    } else {
        dec(days) + " days ago"@
    }
}

/// Writes an age of `days` days, in days.
pub fn format_days_ago(days: u32) -> (r: String)
    ensures
        r@ == short_days_ago_text(days as nat),
{
    let mut v: Vec<char> = Vec::new();
    if days == 0 {
        push_str(&mut v, "Today");
    } else if days == 1 {
        push_str(&mut v, "Yesterday");
    } else {
        push_decimal(&mut v, days as u64);
        push_str(&mut v, " days ago");
    }
    assert(v@ =~= short_days_ago_text(days as nat));
    string_of(&v)
}

} // verus!
