//! Choices that the command line offers.
pub mod output;

use crate::order::{lemma_insert_at, sort_by};
use crate::scanner::Package;
use crate::storage::{source_name, source_name_spec};
use crate::text::{chars_of, contains, contains_exec};
use crate::usage::shell_history::{lower_of, lowercase, newer};
use vstd::prelude::*;

verus! {

/// How listings are printed.
#[derive(Debug, Clone, Copy, PartialEq, Eq, Structural)]
pub enum OutputFormat {
    Table,
    Json,
    Csv,
}

/// What listings are sorted by.
#[derive(Debug, Clone, Copy, PartialEq, Eq, Structural)]
pub enum SortField {
    Name,
    Size,
    LastUsed,
    InstallDate,
    UsageCount,
}


/// `a` comes before `b` in code-point order, as `str` orders text.
pub open spec fn text_less(a: Seq<char>, b: Seq<char>) -> bool
    decreases a.len(),
{
    if a.len() == 0 {
        b.len() > 0
    } else if b.len() == 0 {
        false
    } else if (a[0] as u32) != (b[0] as u32) {
        (a[0] as u32) < (b[0] as u32)
    } else {
        text_less(a.drop_first(), b.drop_first())
    }
}

fn text_less_exec(a: &Vec<char>, b: &Vec<char>) -> (r: bool)
    ensures
        r == text_less(a@, b@),
{
    let mut i: usize = 0;
    assert(a@.subrange(0, a@.len() as int) =~= a@);
    assert(b@.subrange(0, b@.len() as int) =~= b@);
    while i < a.len() && i < b.len() && (a[i] as u32) == (b[i] as u32)
        invariant
            i <= a@.len(),
            i <= b@.len(),
            text_less(a@, b@) == text_less(a@.subrange(i as int, a@.len() as int), b@.subrange(i as int, b@.len() as int)),
        decreases a@.len() - i,
    {
        let ghost sa = a@.subrange(i as int, a@.len() as int);
        let ghost sb = b@.subrange(i as int, b@.len() as int);
        assert(sa.drop_first() =~= a@.subrange(i + 1, a@.len() as int));
        assert(sb.drop_first() =~= b@.subrange(i + 1, b@.len() as int));
        i = i + 1;
    }
    let ghost sa = a@.subrange(i as int, a@.len() as int);
    let ghost sb = b@.subrange(i as int, b@.len() as int);
    if i == a.len() {
        assert(sa.len() == 0);
        i < b.len()
    } else if i == b.len() {
        assert(sa.len() > 0 && sb.len() == 0);
        false
    } else {
        let x = a[i];
        let y = b[i];
        assert(sa[0] == x && sb[0] == y);
        (x as u32) < (y as u32)
    }
}

/// The recorded size, zero where none is recorded.
pub open spec fn size_or_zero(p: Package) -> u64 {
    match p.size_bytes {
        Some(s) => s,
        None => 0,
    }
}

/// `a` is listed before `b` when sorting by `field`: names in text order;
/// sizes and use counts largest first; last uses and install dates newest
/// first, items without one last.
pub open spec fn package_before(field: SortField) -> spec_fn(Package, Package) -> bool {
    |a: Package, b: Package|
        match field {
            SortField::Name => text_less(a.name@, b.name@),
            SortField::Size => size_or_zero(a) > size_or_zero(b),
            SortField::LastUsed => newer(a.last_used, b.last_used),
            SortField::InstallDate => newer(a.install_date, b.install_date),
            SortField::UsageCount => a.usage_count > b.usage_count,
        }
}

fn package_before_exec(a: &Package, b: &Package, field: SortField) -> (r: bool)
    ensures
        r == (package_before(field))(*a, *b),
{
    match field {
        SortField::Name => {
            let x = chars_of(a.name.as_str());
            let y = chars_of(b.name.as_str());
            text_less_exec(&x, &y)
        },
        SortField::Size => {
            let sa = match a.size_bytes {
                Some(s) => s,
                None => 0,
            };
            let sb = match b.size_bytes {
                Some(s) => s,
                None => 0,
            };
            sa > sb
        },
        SortField::LastUsed => newer_exec(a.last_used, b.last_used),
        SortField::InstallDate => newer_exec(a.install_date, b.install_date),
        SortField::UsageCount => a.usage_count > b.usage_count,
    }
}

fn newer_exec(a: Option<i64>, b: Option<i64>) -> (r: bool)
    ensures
        r == newer(a, b),
{
    match (a, b) {
        (Some(x), Some(y)) => x > y,
        (Some(_), None) => true,
        _ => false,
    }
}

/// The items sorted by a field, stably: items that tie keep their order.
pub fn sort_packages(packages: Vec<Package>, field: SortField) -> (r: Vec<Package>)
    ensures
        r@ == sort_by(packages@, package_before(field)),
{
    let ghost orig = packages@;
    let ghost before = package_before(field);
    let mut rest = packages;
    let mut out: Vec<Package> = Vec::new();
    let ghost mut k: int = 0;
    assert(orig.subrange(0, 0) =~= Seq::<Package>::empty());
    assert(orig.subrange(0, orig.len() as int) =~= orig);
    while rest.len() > 0
        invariant
            0 <= k <= orig.len(),
            rest@ == orig.subrange(k, orig.len() as int),
            out@ == sort_by(orig.subrange(0, k), before),
            before == package_before(field),
        decreases rest@.len(),
    {
        let p = rest.remove(0);
        assert(p == orig[k]);
        assert(rest@ =~= orig.subrange(k + 1, orig.len() as int));
        let ghost cur = out@;
        let mut j: usize = 0;
        while j < out.len() && !package_before_exec(&p, &out[j], field)
            invariant
                j <= out@.len(),
                cur == out@,
                before == package_before(field),
                forall|m: int| 0 <= m < j ==> !before(p, #[trigger] cur[m]),
            decreases out@.len() - j,
        {
            j = j + 1;
        }
        proof {
            lemma_insert_at(cur, p, before, j as int);
            assert(orig.subrange(0, k + 1).drop_last() =~= orig.subrange(0, k));
            assert(orig.subrange(0, k + 1).last() == orig[k]);
        }
        out.insert(j, p);
        assert(out@ =~= cur.subrange(0, j as int) + seq![orig[k]] + cur.subrange(j as int, cur.len() as int));
        proof {
            k = k + 1;
        }
    }
    assert(orig.subrange(0, k) =~= orig);
    out
}

/// The item was not used since `cutoff`: no use is known, or the last one
/// came before it.
pub fn unused_since(p: &Package, cutoff: i64) -> (r: bool)
    ensures
        r == match p.last_used {
            Some(t) => t < cutoff,
            None => true,
        },
{
    match p.last_used {
        Some(t) => t < cutoff,
        None => true,
    }
}

/// The stored name of the item's source holds the filter, letter case aside.
pub fn source_matches(p: &Package, filter: &str) -> (r: bool)
    ensures
        r == contains(lower_of(source_name_spec(p.source)), lower_of(filter@)),
{
    let name = source_name(p.source);
    let a = lowercase(name.as_str());
    let b = lowercase(filter);
    let x = chars_of(a.as_str());
    let y = chars_of(b.as_str());
    contains_exec(&x, &y)
}

} // verus!
