//! Fusing the evidence of one item into its usage estimate.
use crate::scanner::{Package, PackageSource};
use crate::order::{insert_by, sort_by};
use crate::usage::shell_history::{
    entry_before, entry_views, invokes, invokes_folded, lower_of, lowercase, sort_by_time,
    EntryView, HistoryEntry,
};
use crate::usage::{empty_estimate, estimate_well_formed, UsageInfo, UsageModel, UsageSource};
use vstd::prelude::*;

verus! {

/// The later of two optional instants; an instant beats none.
pub open spec fn later(a: Option<i64>, b: Option<i64>) -> Option<i64> {
    match (a, b) {
        (None, _) => b,
        (_, None) => a,
        (Some(x), Some(y)) => if y > x {
            b
        } else {
            a
        },
    }
}

fn later_exec(a: Option<i64>, b: Option<i64>) -> (r: Option<i64>)
    ensures
        r == later(a, b),
{
    match (a, b) {
        (None, _) => b,
        (_, None) => a,
        (Some(x), Some(y)) => if y > x {
            b
        } else {
            a
        },
    }
}

/// `n`, or the largest `u32` where `n` is larger.
pub open spec fn sat_u32(n: nat) -> u32 {
    if n <= u32::MAX {
        n as u32
    } else {
        u32::MAX
    }
}

/// The operating system's bookkeeping, when it gave anything: it raises the
/// last use and its count replaces the count.
pub open spec fn os_step(m: UsageModel, last_used: Option<i64>, use_count: Option<u32>) -> UsageModel {
    if last_used is None && use_count is None {
        m
    } else {
        UsageModel {
            last_used: later(m.last_used, last_used),
            usage_count: match use_count {
                Some(c) => c,
                None => m.usage_count,
            },
            sources: m.sources.push(UsageSource::SpotlightMetadata { last_used, use_count }),
        }
    }
}

/// The number of entries that invoke the binary `name` (folded to lower case).
pub open spec fn match_count(es: Seq<EntryView>, name: Seq<char>) -> nat
    decreases es.len(),
{
    if es.len() == 0 {
        0
    } else {
        match_count(es.drop_last(), name) + if invokes(lower_of(es.last().command), name) {
            1nat
        } else {
            0nat
        }
    }
}

/// The newest timestamp among the entries that invoke the binary `name`.
pub open spec fn newest_match(es: Seq<EntryView>, name: Seq<char>) -> Option<i64>
    decreases es.len(),
{
    if es.len() == 0 {
        None
    } else if invokes(lower_of(es.last().command), name) {
        later(newest_match(es.drop_last(), name), es.last().timestamp)
    } else {
        newest_match(es.drop_last(), name)
    }
}

/// History matches, when there are any: they add to the count, and raise the
/// last use only where the newest of them is later.
pub open spec fn history_step(m: UsageModel, count: nat, newest: Option<i64>) -> UsageModel {
    if count == 0 {
        m
    } else {
        UsageModel {
            last_used: later(m.last_used, newest),
            usage_count: sat_u32(m.usage_count as nat + count),
            sources: m.sources.push(UsageSource::ShellHistory { count: sat_u32(count), last_used: newest }),
        }
    }
}

/// The access time fills the last use only where none is known yet.
pub open spec fn atime_step(m: UsageModel, atime: Option<i64>) -> UsageModel {
    match atime {
        Some(t) => if m.last_used is None {
            UsageModel {
                last_used: Some(t),
                sources: m.sources.push(UsageSource::FileAccessTime { atime: t }),
                ..m
            }
        } else {
            m
        },
        None => m,
    }
}

/// Application bundles have operating-system bookkeeping.
pub open spec fn is_bundle(s: PackageSource) -> bool {
    s == PackageSource::Applications || s == PackageSource::HomebrewCask
}

/// The estimate of an item from its evidence, in fixed precedence: the
/// operating system's bookkeeping (bundles with a path only), then the history
/// (items with a path), then the access time (items with a path, where no last
/// use is known by then).
pub open spec fn aggregate_spec(
    source: PackageSource,
    has_path: bool,
    name: Seq<char>,
    os_last_used: Option<i64>,
    os_use_count: Option<u32>,
    history: Seq<EntryView>,
    atime: Option<i64>,
) -> UsageModel {
    let m1 = if is_bundle(source) && has_path {
        os_step(empty_estimate(), os_last_used, os_use_count)
    } else {
        empty_estimate()
    };
    let bin = lower_of(name);
    let m2 = if has_path {
        history_step(m1, match_count(history, bin), newest_match(history, bin))
    } else {
        m1
    };
    if has_path {
        atime_step(m2, atime)
    } else {
        m2
    }
}

/// Whether the operating system's bookkeeping is consulted for an item: it is
/// an application bundle with a known path.
pub fn has_os_metadata(package: &Package) -> (r: bool)
    ensures
        r == (is_bundle(package.source) && package.binary_path is Some),
{
    package.binary_path.is_some() && (package.source == PackageSource::Applications
        || package.source == PackageSource::HomebrewCask)
}

/// Records the operating system's bookkeeping of an application bundle.
pub fn apply_os_metadata(info: &mut UsageInfo, last_used: Option<i64>, use_count: Option<u32>)
    ensures
        final(info)@ == os_step(old(info)@, last_used, use_count),
{
    if last_used.is_none() && use_count.is_none() {
        return ;
    }
    info.last_used = later_exec(info.last_used, last_used);
    match use_count {
        Some(c) => {
            info.usage_count = c;
        },
        None => {},
    }
    info.sources.push(UsageSource::SpotlightMetadata { last_used, use_count });
}

/// Counts the history entries that invoke the binary and finds the newest of them.
pub fn scan_history(entries: &Vec<HistoryEntry>, binary_name: &str) -> (r: (usize, Option<i64>))
    ensures
        r.0 == match_count(entry_views(entries@), lower_of(binary_name@)),
        r.1 == newest_match(entry_views(entries@), lower_of(binary_name@)),
{
    let ghost es = entry_views(entries@);
    let bin = lowercase(binary_name);
    let mut count: usize = 0;
    let mut newest: Option<i64> = None;
    let mut i: usize = 0;
    assert(es.subrange(0, 0) =~= Seq::<EntryView>::empty());
    while i < entries.len()
        invariant
            i <= entries@.len(),
            es == entry_views(entries@),
            bin@ == lower_of(binary_name@),
            count <= i,
            count == match_count(es.subrange(0, i as int), bin@),
            newest == newest_match(es.subrange(0, i as int), bin@),
        decreases entries@.len() - i,
    {
        let cmd = lowercase(entries[i].command.as_str());
        assert(es.subrange(0, i + 1).drop_last() =~= es.subrange(0, i as int));
        assert(es[i as int] == entries@[i as int]@);
        if invokes_folded(cmd.as_str(), bin.as_str()) {
            count = count + 1;
            newest = later_exec(newest, entries[i].timestamp);
        }
        i = i + 1;
    }
    assert(es.subrange(0, entries@.len() as int) =~= es);
    (count, newest)
}

/// Records the history entries that invoke the binary.
pub fn apply_shell_history(info: &mut UsageInfo, entries: &Vec<HistoryEntry>, binary_name: &str)
    ensures
        final(info)@ == history_step(
            old(info)@,
            match_count(entry_views(entries@), lower_of(binary_name@)),
            newest_match(entry_views(entries@), lower_of(binary_name@)),
        ),
{
    let (count, newest) = scan_history(entries, binary_name);
    if count == 0 {
        return ;
    }
    let c: u32 = if count > 0xffff_ffffusize {
        0xffff_ffff
    } else {
        count as u32
    };
    info.last_used = later_exec(info.last_used, newest);
    info.usage_count = info.usage_count.saturating_add(c);
    info.sources.push(UsageSource::ShellHistory { count: c, last_used: newest });
}

/// Records the file access time, where no last use is known yet.
pub fn apply_access_time(info: &mut UsageInfo, atime: Option<i64>)
    ensures
        final(info)@ == atime_step(old(info)@, atime),
{
    match atime {
        Some(t) => {
            if info.last_used.is_none() {
                info.last_used = Some(t);
                info.sources.push(UsageSource::FileAccessTime { atime: t });
            }
        },
        None => {},
    }
}

/// The usage estimate of an item from the evidence gathered for it: the
/// operating system's bookkeeping, the merged history, and the access time.
pub fn aggregate_usage(
    package: &Package,
    os_last_used: Option<i64>,
    os_use_count: Option<u32>,
    history: &Vec<HistoryEntry>,
    atime: Option<i64>,
) -> (r: UsageInfo)
    ensures
        r@ == aggregate_spec(
            package.source,
            package.binary_path is Some,
            package.name@,
            os_last_used,
            os_use_count,
            entry_views(history@),
            atime,
        ),
        estimate_well_formed(r@),
{
    let mut info = UsageInfo::new();
    let has_path = package.binary_path.is_some();
    if has_os_metadata(package) {
        apply_os_metadata(&mut info, os_last_used, os_use_count);
    }
    if has_path {
        apply_shell_history(&mut info, history, package.name.as_str());
        apply_access_time(&mut info, atime);
    }
    proof {
        lemma_aggregate_well_formed(
            package.source,
            has_path,
            package.name@,
            os_last_used,
            os_use_count,
            entry_views(history@),
            atime,
        );
    }
    info
}

/// Each step keeps the estimate well formed: a positive count always comes with
/// at least one piece of evidence.
pub proof fn lemma_steps_well_formed(
    m: UsageModel,
    last_used: Option<i64>,
    use_count: Option<u32>,
    count: nat,
    newest: Option<i64>,
    atime: Option<i64>,
)
    requires
        estimate_well_formed(m),
    ensures
        estimate_well_formed(os_step(m, last_used, use_count)),
        estimate_well_formed(history_step(m, count, newest)),
        estimate_well_formed(atime_step(m, atime)),
{
}

/// Every estimate has a count of zero or more, and a positive count only with
/// evidence behind it.
pub proof fn lemma_aggregate_well_formed(
    source: PackageSource,
    has_path: bool,
    name: Seq<char>,
    os_last_used: Option<i64>,
    os_use_count: Option<u32>,
    history: Seq<EntryView>,
    atime: Option<i64>,
)
    ensures
        estimate_well_formed(
            aggregate_spec(source, has_path, name, os_last_used, os_use_count, history, atime),
        ),
        aggregate_spec(source, has_path, name, os_last_used, os_use_count, history, atime).usage_count
            >= 0,
{
}

/// Aggregating twice over the same evidence gives the same estimate: the
/// estimate is a function of the evidence alone.
pub proof fn lemma_aggregate_idempotent(
    first: UsageModel,
    second: UsageModel,
    source: PackageSource,
    has_path: bool,
    name: Seq<char>,
    os_last_used: Option<i64>,
    os_use_count: Option<u32>,
    history: Seq<EntryView>,
    atime: Option<i64>,
)
    requires
        first == aggregate_spec(source, has_path, name, os_last_used, os_use_count, history, atime),
        second == aggregate_spec(source, has_path, name, os_last_used, os_use_count, history, atime),
    ensures
        first == second,
{
}

/// The count and newest match of one entry alone.
pub open spec fn entry_count(e: EntryView, name: Seq<char>) -> nat {
    if invokes(lower_of(e.command), name) {
        1
    } else {
        0
    }
}

pub open spec fn entry_newest(e: EntryView, name: Seq<char>) -> Option<i64> {
    if invokes(lower_of(e.command), name) {
        e.timestamp
    } else {
        None
    }
}

proof fn lemma_later_comm_assoc(a: Option<i64>, b: Option<i64>, c: Option<i64>)
    ensures
        later(a, b) == later(b, a),
        later(later(a, b), c) == later(a, later(b, c)),
        later(a, None) == a,
        later(None, a) == a,
{
}

/// Counting matches over a concatenation adds the counts; the newest match is
/// the later of the two.
proof fn lemma_history_concat(x: Seq<EntryView>, y: Seq<EntryView>, name: Seq<char>)
    ensures
        match_count(x + y, name) == match_count(x, name) + match_count(y, name),
        newest_match(x + y, name) == later(newest_match(x, name), newest_match(y, name)),
    decreases y.len(),
{
    if y.len() == 0 {
        assert(x + y =~= x);
    } else {
        assert((x + y).drop_last() =~= x + y.drop_last());
        assert((x + y).last() == y.last());
        lemma_history_concat(x, y.drop_last(), name);
        let e = y.last();
        lemma_later_comm_assoc(newest_match(x, name), newest_match(y.drop_last(), name), e.timestamp);
    }
}

proof fn lemma_history_single(e: EntryView, name: Seq<char>)
    ensures
        match_count(seq![e], name) == entry_count(e, name),
        newest_match(seq![e], name) == entry_newest(e, name),
{
    let s = seq![e];
    assert(s.last() == e);
    assert(s.drop_last() =~= Seq::<EntryView>::empty());
    assert(match_count(s.drop_last(), name) == 0);
    assert(newest_match(s.drop_last(), name) == None::<i64>);
    lemma_later_comm_assoc(None, e.timestamp, None);
}

proof fn lemma_history_insert(s: Seq<EntryView>, e: EntryView, name: Seq<char>)
    ensures
        match_count(insert_by(s, e, entry_before()), name) == match_count(s, name) + entry_count(
            e,
            name,
        ),
        newest_match(insert_by(s, e, entry_before()), name) == later(
            newest_match(s, name),
            entry_newest(e, name),
        ),
    decreases s.len(),
{
    lemma_history_single(e, name);
    if s.len() == 0 {
        lemma_later_comm_assoc(entry_newest(e, name), None, None);
    } else {
        let h = seq![s[0]];
        let t = s.drop_first();
        assert(s =~= h + t);
        lemma_history_concat(h, t, name);
        lemma_history_single(s[0], name);
        if (entry_before())(e, s[0]) {
            lemma_history_concat(seq![e], s, name);
            lemma_later_comm_assoc(entry_newest(e, name), newest_match(s, name), None);
        } else {
            lemma_history_insert(t, e, name);
            lemma_history_concat(h, insert_by(t, e, entry_before()), name);
            lemma_later_comm_assoc(entry_newest(s[0], name), newest_match(t, name), entry_newest(e, name));
        }
    }
}

/// Sorting the history newest first changes neither how many entries invoke a
/// binary nor the newest of them.
pub proof fn lemma_sort_keeps_matches(s: Seq<EntryView>, name: Seq<char>)
    ensures
        match_count(sort_by_time(s), name) == match_count(s, name),
        newest_match(sort_by_time(s), name) == newest_match(s, name),
    decreases s.len(),
{
    if s.len() > 0 {
        let p = s.drop_last();
        lemma_sort_keeps_matches(p, name);
        lemma_history_insert(sort_by(p, entry_before()), s.last(), name);
        assert(s =~= p + seq![s.last()]);
        lemma_history_concat(p, seq![s.last()], name);
        lemma_history_single(s.last(), name);
    }
}

/// The evidence drawn from merged logs does not depend on the order in which
/// the logs were read: merging `a` then `b` or `b` then `a` gives the same
/// count of matches and the same newest match.
pub proof fn lemma_merge_order_irrelevant(a: Seq<EntryView>, b: Seq<EntryView>, name: Seq<char>)
    ensures
        match_count(sort_by_time(a + b), name) == match_count(sort_by_time(b + a), name),
        newest_match(sort_by_time(a + b), name) == newest_match(sort_by_time(b + a), name),
{
    lemma_sort_keeps_matches(a + b, name);
    lemma_sort_keeps_matches(b + a, name);
    lemma_history_concat(a, b, name);
    lemma_history_concat(b, a, name);
    lemma_later_comm_assoc(newest_match(a, name), newest_match(b, name), None);
}

/// A history match older than the current last use leaves the last use as it
/// is and still raises the count (below the count's ceiling).
pub proof fn lemma_older_match_keeps_last_used(
    m: UsageModel,
    history: Seq<EntryView>,
    name: Seq<char>,
)
    requires
        match_count(history, lower_of(name)) > 0,
        m.last_used is Some,
        m.usage_count < u32::MAX,
        match newest_match(history, lower_of(name)) {
            Some(t) => t < m.last_used->0,
            None => true,
        },
    ensures
        history_step(
            m,
            match_count(history, lower_of(name)),
            newest_match(history, lower_of(name)),
        ).last_used == m.last_used,
        history_step(
            m,
            match_count(history, lower_of(name)),
            newest_match(history, lower_of(name)),
        ).usage_count > m.usage_count,
{
}

} // verus!
