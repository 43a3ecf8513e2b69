//! Byte counts in binary units, with one decimal.
use crate::text::{dec, push_decimal, push_str, string_of};
use vstd::prelude::*;

verus! {

pub const KB: u64 = 1024;

pub const MB: u64 = 1048576;

pub const GB: u64 = 1073741824;

/// Tenths of `bytes / unit`, rounded to the nearest, a tie to the even tenth.
pub open spec fn tenths(bytes: nat, unit: nat) -> nat
    recommends
        unit > 0,
{
    let q = bytes * 10 / unit;
    let r = bytes * 10 % unit;
    if 2 * r > unit || (2 * r == unit && q % 2 == 1) {
        q + 1
    } else {
        q
    }
}

/// A number of tenths written with one decimal, as `12.5`.
pub open spec fn one_decimal(t: nat) -> Seq<char> {
    dec(t / 10) + seq!['.'] + dec(t % 10)
}

/// `bytes` in the largest binary unit it reaches (KB, MB or GB) with one
/// decimal, or as a whole number followed by `small` below one KB.
pub open spec fn size_text(bytes: nat, small: Seq<char>) -> Seq<char> {
    if bytes >= GB {
        one_decimal(tenths(bytes, GB as nat)) + " GB"@
    } else if bytes >= MB {
        one_decimal(tenths(bytes, MB as nat)) + " MB"@
    } else if bytes >= KB {
        one_decimal(tenths(bytes, KB as nat)) + " KB"@
    } else {
        dec(bytes) + seq![' '] + small
    }
}

fn tenths_exec(bytes: u64, unit: u64) -> (r: u64)
    requires
        unit >= 1024,
    ensures
        r as nat == tenths(bytes as nat, unit as nat),
{
    let b = bytes as u128 * 10;
    let u = unit as u128;
    let q = b / u;
    let rem = b % u;
    assert(q <= b) by (nonlinear_arith)
        requires
            u >= 1,
            q == b / u,
    ;
    assert(q < 0x1000_0000_0000_0000u128) by (nonlinear_arith)
        requires
            u >= 1024,
            q == b / u,
            b == bytes as u128 * 10,
            bytes <= 0xffff_ffff_ffff_ffffu128,
    ;
    if 2 * rem > u || (2 * rem == u && q % 2 == 1) {
        (q + 1) as u64
    } else {
        q as u64
    }
}

/// Writes `bytes` in binary units with one decimal; below one KB as a whole
/// number followed by `small`.
pub fn format_size_with(bytes: u64, small: &str) -> (r: String)
    ensures
        r@ == size_text(bytes as nat, small@),
{
    let mut v: Vec<char> = Vec::new();
    if bytes >= KB {
        let (unit, name) = if bytes >= GB {
            (GB, " GB")
        } else if bytes >= MB {
            (MB, " MB")
        } else {
            (KB, " KB")
        };
        let t = tenths_exec(bytes, unit);
        push_decimal(&mut v, t / 10);
        v.push('.');
        push_decimal(&mut v, t % 10);
        push_str(&mut v, name);
        assert(v@ =~= one_decimal(tenths(bytes as nat, unit as nat)) + name@);
    } else {
        push_decimal(&mut v, bytes);
        v.push(' ');
        push_str(&mut v, small);
        assert(v@ =~= dec(bytes as nat) + seq![' '] + small@);
    }
    string_of(&v)
}

/// Writes `bytes` in binary units with one decimal, as `1.5 MB`; below one KB
/// as a whole number of bytes, as `512 B`.
pub fn format_size(bytes: u64) -> (r: String)
    ensures
        r@ == size_text(bytes as nat, "B"@),
{
    format_size_with(bytes, "B")
}

} // verus!
