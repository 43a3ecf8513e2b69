//! Ranking installed items for cleanup.
use crate::order::{lemma_insert_at, lemma_sort_by_sorted, sort_by, sorted_by, strict_weak_order};
use crate::scanner::Package;
use crate::text::{dec, push_decimal, push_str, string_of};
use crate::utils::size::{format_size_with, size_text};
use vstd::prelude::*;

verus! {

/// How confident a recommendation is that removal does no harm.
#[derive(Debug, Clone, Copy, PartialEq, Eq, Structural)]
pub enum RecommendationSeverity {
    /// No installed item requires it.
    Safe,
    /// Unused for a long time, or never seen in use and large.
    Review,
    /// Unused for a while.
    Warning,
}

/// The place of a severity in the output: safe first, warnings last.
pub open spec fn severity_rank(s: RecommendationSeverity) -> nat {
    match s {
        RecommendationSeverity::Safe => 0,
        RecommendationSeverity::Review => 1,
        RecommendationSeverity::Warning => 2,
    }
}

impl RecommendationSeverity {
    pub fn rank(&self) -> (r: u8)
        ensures
            r as nat == severity_rank(*self),
    {
        match self {
            RecommendationSeverity::Safe => 0,
            RecommendationSeverity::Review => 1,
            RecommendationSeverity::Warning => 2,
        }
    }
}

/// A suggestion to remove one item, with the space it would free.
#[derive(Debug)]
pub struct Recommendation {
    pub package: String,
    pub reason: String,
    pub severity: RecommendationSeverity,
    pub size_recoverable: u64,
}

/// A recommendation as plain values.
pub struct RecView {
    pub package: Seq<char>,
    pub reason: Seq<char>,
    pub severity: RecommendationSeverity,
    pub size_recoverable: u64,
}

impl View for Recommendation {
    type V = RecView;

    open spec fn view(&self) -> RecView {
        RecView {
            package: self.package@,
            reason: self.reason@,
            severity: self.severity,
            size_recoverable: self.size_recoverable,
        }
    }
}

pub open spec fn rec_views(v: Seq<Recommendation>) -> Seq<RecView> {
    v.map_values(|r: Recommendation| r@)
}

/// The thresholds of the ranking.
pub struct RecommendationPolicy {
    /// Days without use from which an item is worth a review.
    pub review_after_days: u64,
    /// Days without use from which an item draws a warning.
    pub warn_after_days: u64,
    /// Size above which an item never seen in use is worth a review.
    pub large_unused_bytes: u64,
}

pub const REVIEW_AFTER_DAYS: u64 = 90;

pub const WARN_AFTER_DAYS: u64 = 30;

/// 100 MiB.
pub const LARGE_UNUSED_BYTES: u64 = 104857600;

pub const SECONDS_PER_DAY: i64 = 86400;

impl RecommendationPolicy {
    pub open spec fn standard_spec() -> RecommendationPolicy {
        RecommendationPolicy {
            review_after_days: REVIEW_AFTER_DAYS,
            warn_after_days: WARN_AFTER_DAYS,
            large_unused_bytes: LARGE_UNUSED_BYTES,
        }
    }

    /// Review after 90 days, warn after 30, review unused items above 100 MiB.
    pub fn standard() -> (r: RecommendationPolicy)
        ensures
            r == Self::standard_spec(),
    {
        RecommendationPolicy {
            review_after_days: REVIEW_AFTER_DAYS,
            warn_after_days: WARN_AFTER_DAYS,
            large_unused_bytes: LARGE_UNUSED_BYTES,
        }
    }
}

/// Whole days from `then` to `now`, rounded down.
pub open spec fn days_between(now: i64, then: i64) -> int {
    (now - then) / (SECONDS_PER_DAY as int)
}

/// The name is among the orphans.
pub open spec fn is_orphan(name: Seq<char>, orphans: Seq<String>) -> bool {
    exists|i: int| 0 <= i < orphans.len() && orphans[i]@ == name
}

pub open spec fn orphan_reason() -> Seq<char> {
    "Orphaned dependency - no longer required by any installed package"@
}

pub open spec fn stale_reason(days: nat) -> Seq<char> {
    "Not used in "@ + dec(days) + " days (~"@ + dec(days / 30) + " months)"@
}

pub open spec fn idle_reason(days: nat) -> Seq<char> {
    "Not used in "@ + dec(days) + " days"@
}

pub open spec fn unused_reason(size: u64) -> Seq<char> {
    "No usage data found - "@ + size_text(size as nat, "bytes"@) + " in size"@
}

pub open spec fn rec(package: Seq<char>, reason: Seq<char>, severity: RecommendationSeverity, size: u64) -> RecView {
    RecView { package, reason, severity, size_recoverable: size }
}

/// The recommendation for one item, if any; the first rule that applies wins:
/// an orphan is safe to remove; an item unused for long is worth a review, one
/// unused for a while draws a warning; an item never seen in use is worth a
/// review when it is large.
pub open spec fn recommendation_for(
    policy: RecommendationPolicy,
    p: Package,
    orphans: Seq<String>,
    now: i64,
) -> Option<RecView> {
    let size = match p.size_bytes {
        Some(s) => s,
        None => 0,
    };
    if is_orphan(p.name@, orphans) {
        Some(rec(p.name@, orphan_reason(), RecommendationSeverity::Safe, size))
    } else {
        match p.last_used {
            Some(t) => {
                let d = days_between(now, t);
                if d >= policy.review_after_days {
                    Some(rec(p.name@, stale_reason(d as nat), RecommendationSeverity::Review, size))
                } else if d >= policy.warn_after_days {
                    Some(rec(p.name@, idle_reason(d as nat), RecommendationSeverity::Warning, size))
                } else {
                    None
                }
            },
            None => match p.size_bytes {
                Some(s) => if s > policy.large_unused_bytes {
                    Some(rec(p.name@, unused_reason(s), RecommendationSeverity::Review, s))
                } else {
                    None
                },
                None => None,
            },
        }
    }
}

/// The recommendations for the items, in the items' order.
pub open spec fn candidates(
    policy: RecommendationPolicy,
    ps: Seq<Package>,
    orphans: Seq<String>,
    now: i64,
) -> Seq<RecView>
    decreases ps.len(),
{
    if ps.len() == 0 {
        Seq::empty()
    } else {
        let prev = candidates(policy, ps.drop_last(), orphans, now);
        match recommendation_for(policy, ps.last(), orphans, now) {
            Some(r) => prev.push(r),
            None => prev,
        }
    }
}

/// `a` comes before `b` in the output: a lower severity rank, or the same rank
/// and more space to free.
pub open spec fn rec_before() -> spec_fn(RecView, RecView) -> bool {
    |a: RecView, b: RecView|
        severity_rank(a.severity) < severity_rank(b.severity) || (severity_rank(a.severity)
            == severity_rank(b.severity) && a.size_recoverable > b.size_recoverable)
}

/// The ranked recommendations: by severity (safe, review, warning), then by
/// space to free, largest first; ties keep the items' order.
pub open spec fn ranked(
    policy: RecommendationPolicy,
    ps: Seq<Package>,
    orphans: Seq<String>,
    now: i64,
) -> Seq<RecView> {
    sort_by(candidates(policy, ps, orphans, now), rec_before())
}

fn is_orphan_exec(name: &String, orphans: &Vec<String>) -> (r: bool)
    ensures
        r == is_orphan(name@, orphans@),
{
    let mut i: usize = 0;
    while i < orphans.len()
        invariant
            i <= orphans@.len(),
            forall|k: int| 0 <= k < i ==> orphans@[k]@ != name@,
        decreases orphans@.len() - i,
    {
        if orphans[i] == *name {
            return true;
        }
        i = i + 1;
    }
    false
}

fn make(package: &String, reason: Vec<char>, severity: RecommendationSeverity, size: u64) -> (r: Recommendation)
    ensures
        r@ == rec(package@, reason@, severity, size),
{
    Recommendation { package: package.clone(), reason: string_of(&reason), severity, size_recoverable: size }
}

/// The recommendation for one item under a policy, if any.
pub fn recommend_package(
    policy: &RecommendationPolicy,
    p: &Package,
    orphans: &Vec<String>,
    now: i64,
) -> (r: Option<Recommendation>)
    ensures
        match recommendation_for(*policy, *p, orphans@, now) {
            Some(v) => r is Some && r->0@ == v,
            None => r is None,
        },
{
    let size = match p.size_bytes {
        Some(s) => s,
        None => 0,
    };
    if is_orphan_exec(&p.name, orphans) {
        let mut v: Vec<char> = Vec::new();
        push_str(&mut v, "Orphaned dependency - no longer required by any installed package");
        return Some(make(&p.name, v, RecommendationSeverity::Safe, size));
    }
    match p.last_used {
        Some(t) => {
            let diff: i128 = now as i128 - t as i128;
            if diff < 0 {
                assert(days_between(now, t) < 0);
                return None;
            }
            let days: u64 = (diff as u128 / 86400) as u64;
            assert(days as int == days_between(now, t));
            if days >= policy.review_after_days {
                let mut v: Vec<char> = Vec::new();
                push_str(&mut v, "Not used in ");
                push_decimal(&mut v, days);
                push_str(&mut v, " days (~");
                push_decimal(&mut v, days / 30);
                push_str(&mut v, " months)");
                Some(make(&p.name, v, RecommendationSeverity::Review, size))
            } else if days >= policy.warn_after_days {
                let mut v: Vec<char> = Vec::new();
                push_str(&mut v, "Not used in ");
                push_decimal(&mut v, days);
                push_str(&mut v, " days");
                Some(make(&p.name, v, RecommendationSeverity::Warning, size))
            } else {
                None
            }
        },
        None => match p.size_bytes {
            Some(s) => {
                if s > policy.large_unused_bytes {
                    let mut v: Vec<char> = Vec::new();
                    push_str(&mut v, "No usage data found - ");
                    let t = format_size_with(s, "bytes");
                    push_str(&mut v, t.as_str());
                    push_str(&mut v, " in size");
                    Some(make(&p.name, v, RecommendationSeverity::Review, s))
                } else {
                    None
                }
            },
            None => None,
        },
    }
}

fn rec_before_exec(a: &Recommendation, b: &Recommendation) -> (r: bool)
    ensures
        r == (rec_before())(a@, b@),
{
    let ra = a.severity.rank();
    let rb = b.severity.rank();
    ra < rb || (ra == rb && a.size_recoverable > b.size_recoverable)
}

/// The ranked recommendations for the items under a policy.
pub fn generate_recommendations_with(
    policy: &RecommendationPolicy,
    packages: &Vec<Package>,
    orphans: &Vec<String>,
    now: i64,
) -> (r: Vec<Recommendation>)
    ensures
        rec_views(r@) == ranked(*policy, packages@, orphans@, now),
{
    let ghost ps = packages@;
    let mut out: Vec<Recommendation> = Vec::new();
    let mut i: usize = 0;
    assert(ps.subrange(0, 0) =~= Seq::<Package>::empty());
    assert(rec_views(out@) =~= Seq::<RecView>::empty());
    while i < packages.len()
        invariant
            i <= ps.len(),
            ps == packages@,
            rec_views(out@) == sort_by(
                candidates(*policy, ps.subrange(0, i as int), orphans@, now),
                rec_before(),
            ),
        decreases ps.len() - i,
    {
        assert(ps.subrange(0, i + 1).drop_last() =~= ps.subrange(0, i as int));
        assert(ps.subrange(0, i + 1).last() == ps[i as int]);
        match recommend_package(policy, &packages[i], orphans, now) {
            Some(r) => {
                let ghost cur = rec_views(out@);
                let ghost c = candidates(*policy, ps.subrange(0, i as int), orphans@, now);
                assert(c.push(r@).drop_last() =~= c);
                let mut j: usize = 0;
                while j < out.len() && !rec_before_exec(&r, &out[j])
                    invariant
                        j <= out@.len(),
                        cur == rec_views(out@),
                        forall|k: int| 0 <= k < j ==> !(rec_before())(r@, #[trigger] cur[k]),
                    decreases out@.len() - j,
                {
                    j = j + 1;
                }
                proof {
                    lemma_insert_at(cur, r@, rec_before(), j as int);
                }
                let ghost rv = r@;
                out.insert(j, r);
                assert(rec_views(out@) =~= cur.subrange(0, j as int) + seq![rv] + cur.subrange(
                    j as int,
                    cur.len() as int,
                ));
            },
            None => {},
        }
        i = i + 1;
    }
    assert(ps.subrange(0, ps.len() as int) =~= ps);
    out
}

/// The ranked recommendations for the items, at instant `now`, under the
/// standard thresholds; `orphans` names the items that nothing requires.
pub fn generate_recommendations(packages: &Vec<Package>, orphans: &Vec<String>, now: i64) -> (r: Vec<
    Recommendation,
>)
    ensures
        rec_views(r@) == ranked(RecommendationPolicy::standard_spec(), packages@, orphans@, now),
{
    let policy = RecommendationPolicy::standard();
    generate_recommendations_with(&policy, packages, orphans, now)
}

/// Writes a size for a recommendation's reason, as `1.5 MB` or `512 bytes`.
pub fn format_size(bytes: u64) -> (r: String)
    ensures
        r@ == size_text(bytes as nat, "bytes"@),
{
    format_size_with(bytes, "bytes")
}

/// The output of the engine is ordered: no recommendation stands after one
/// that it comes before, by severity and then by size.
pub proof fn lemma_ranked_ordered(
    policy: RecommendationPolicy,
    ps: Seq<Package>,
    orphans: Seq<String>,
    now: i64,
)
    ensures
        sorted_by(ranked(policy, ps, orphans, now), rec_before()),
{
    assert(strict_weak_order(rec_before()));
    lemma_sort_by_sorted(candidates(policy, ps, orphans, now), rec_before());
}

} // verus!
