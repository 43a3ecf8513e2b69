//! Command-line history: three log formats, binary matching, merging.
use crate::order::{lemma_insert_at, lemma_sort_by_sorted, sort_by, sorted_by, strict_weak_order};
use crate::text::{
    chars_of, digit_run, digit_run_exec, occurs_at_exec, parse_i64, parse_i64_spec, same_chars,
    split_words, starts_with, string_of, sub_vec, trim, trimmed, views, words,
};
use vstd::prelude::*;

verus! {

/// One command of a history log, with the instant it ran when the log gives one
/// (seconds since the UNIX epoch, UTC).
#[derive(Debug)]
pub struct HistoryEntry {
    pub command: String,
    pub timestamp: Option<i64>,
}

/// What a history entry holds, as plain values.
pub struct EntryView {
    pub command: Seq<char>,
    pub timestamp: Option<i64>,
}

impl View for HistoryEntry {
    type V = EntryView;

    open spec fn view(&self) -> EntryView {
        EntryView { command: self.command@, timestamp: self.timestamp }
    }
}

pub open spec fn entry_views(v: Seq<HistoryEntry>) -> Seq<EntryView> {
    v.map_values(|e: HistoryEntry| e@)
}

pub open spec fn record(command: Seq<char>, timestamp: Option<i64>) -> EntryView {
    EntryView { command, timestamp }
}

/// The lower-case form of a text, as `str::to_lowercase` computes it.
pub uninterp spec fn lower_of(s: Seq<char>) -> Seq<char>;

/// Relies on `str::to_lowercase`: its result depends on the characters alone.
#[verifier::external_body]
pub(crate) fn lowercase(s: &str) -> (r: String)
    ensures
        r@ == lower_of(s@),
{
    s.to_lowercase()
}

/// The earliest second that chrono can hold as a UTC date-time
/// (1 January of year -262143, 00:00:00).
pub const MIN_UTC_SECS: i64 = -8334601228800;

/// The latest second that chrono can hold as a UTC date-time
/// (31 December of year 262142, 23:59:59).
pub const MAX_UTC_SECS: i64 = 8210266876799;

/// The instant `secs` seconds after the UNIX epoch, when it can be represented.
pub open spec fn utc_instant(secs: i64) -> Option<i64> {
    if MIN_UTC_SECS <= secs <= MAX_UTC_SECS {
        Some(secs)
    } else {
        None
    }
}

/// Relies on `chrono::DateTime::<Utc>::from_timestamp` with no nanoseconds: it
/// gives a date-time exactly when the day count fits its year range
/// (`MIN_YEAR` to `MAX_YEAR`), and that date-time gives the same seconds back.
#[verifier::external_body]
fn utc_from_epoch(secs: i64) -> (r: Option<i64>)
    ensures
        r == utc_instant(secs),
{
    chrono::DateTime::from_timestamp(secs, 0).map(|d| d.timestamp())
}

/// The timestamp that the epoch text `t` stands for, if it is an integer in range.
pub open spec fn epoch_of(t: Seq<char>) -> Option<i64> {
    match parse_i64_spec(t) {
        Some(n) => utc_instant(n),
        None => None,
    }
}

fn epoch_exec(t: &Vec<char>) -> (r: Option<i64>)
    ensures
        r == epoch_of(t@),
{
    match parse_i64(t) {
        Some(n) => utc_from_epoch(n),
        None => None,
    }
}

// ---------------------------------------------------------------------------
// Matching a command against a binary name
// ---------------------------------------------------------------------------

pub open spec fn sudo() -> Seq<char> {
    seq!['s', 'u', 'd', 'o']
}

/// A word with every leading `sudo` removed.
pub open spec fn strip_sudo(w: Seq<char>) -> Seq<char>
    decreases w.len(),
{
    if w.len() >= 4 && w.subrange(0, 4) == sudo() {
        strip_sudo(w.subrange(4, w.len() as int))
    } else {
        w
    }
}

/// A word names the binary: once stripped of `sudo`, it is the name, or a path
/// below a directory of that name.
pub open spec fn word_names(w: Seq<char>, name: Seq<char>) -> bool {
    let x = strip_sudo(w);
    x == name || starts_with(x, name.push('/'))
}

/// A command (already folded to lower case) invokes the binary `name` (folded
/// too): its first word is the name, or one of its words names it.
pub open spec fn invokes(cmd: Seq<char>, name: Seq<char>) -> bool {
    let ws = words(cmd);
    (ws.len() > 0 && ws[0] == name) || exists|i: int| 0 <= i < ws.len() && word_names(ws[i], name)
}

fn strip_sudo_exec(w: &Vec<char>) -> (r: Vec<char>)
    ensures
        r@ == strip_sudo(w@),
{
    let s = vec!['s', 'u', 'd', 'o'];
    let n = w.len();
    let mut i: usize = 0;
    assert(w@.subrange(0, n as int) =~= w@);
    while occurs_at_exec(w, &s, i)
        invariant
            i <= n == w@.len(),
            s@ == sudo(),
            strip_sudo(w@) == strip_sudo(w@.subrange(i as int, n as int)),
        decreases n - i,
    {
        let ghost rest = w@.subrange(i as int, n as int);
        assert(rest.subrange(0, 4) =~= w@.subrange(i as int, i + 4));
        assert(rest.subrange(4, rest.len() as int) =~= w@.subrange(i + 4, n as int));
        i = i + 4;
    }
    let ghost rest = w@.subrange(i as int, n as int);
    assert(!(rest.len() >= 4 && rest.subrange(0, 4) == sudo())) by {
        if rest.len() >= 4 {
            assert(rest.subrange(0, 4) =~= w@.subrange(i as int, i + 4));
        }
    }
    sub_vec(w, i, n)
}

fn word_names_exec(w: &Vec<char>, name: &Vec<char>, name_slash: &Vec<char>) -> (r: bool)
    requires
        name_slash@ == name@.push('/'),
    ensures
        r == word_names(w@, name@),
{
    let x = strip_sudo_exec(w);
    same_chars(&x, name) || occurs_at_exec(&x, name_slash, 0)
}

/// Whether a command invokes a binary, both already folded to lower case.
pub fn invokes_folded(cmd: &str, name: &str) -> (r: bool)
    ensures
        r == invokes(cmd@, name@),
{
    let c = chars_of(cmd);
    let nm = chars_of(name);
    let mut slash = nm.clone();
    slash.push('/');
    let ws = split_words(&c);
    proof {
        assert(views(ws@).len() == ws@.len());
    }
    if ws.len() > 0 && same_chars(&ws[0], &nm) {
        assert(views(ws@)[0] == ws@[0]@);
        return true;
    }
    let mut i: usize = 0;
    while i < ws.len()
        invariant
            i <= ws@.len(),
            views(ws@) == words(c@),
            c@ == cmd@,
            nm@ == name@,
            slash@ == name@.push('/'),
            forall|j: int| 0 <= j < i ==> !word_names(#[trigger] words(c@)[j], name@),
        decreases ws@.len() - i,
    {
        assert(views(ws@)[i as int] == ws@[i as int]@);
        if word_names_exec(&ws[i], &nm, &slash) {
            return true;
        }
        i = i + 1;
    }
    false
}

impl HistoryEntry {
    /// A copy of this entry.
    pub fn duplicate(&self) -> (r: HistoryEntry)
        ensures
            r@ == self@,
    {
        HistoryEntry { command: self.command.clone(), timestamp: self.timestamp }
    }

    /// The first word of the command, if it has one.
    pub fn base_command(&self) -> (r: Option<String>)
        ensures
            words(self.command@).len() == 0 ==> r is None,
            words(self.command@).len() > 0 ==> r is Some && r->0@ == words(self.command@)[0],
    {
        let c = chars_of(self.command.as_str());
        let ws = split_words(&c);
        if ws.len() == 0 {
            None
        } else {
            assert(views(ws@)[0] == ws@[0]@);
            Some(string_of(&ws[0]))
        }
    }

    /// Whether this command invokes the binary, letter case aside.
    pub fn invokes_binary(&self, binary_name: &str) -> (r: bool)
        ensures
            r == invokes(lower_of(self.command@), lower_of(binary_name@)),
    {
        let cmd = lowercase(self.command.as_str());
        let bin = lowercase(binary_name);
        invokes_folded(cmd.as_str(), bin.as_str())
    }
}


// ---------------------------------------------------------------------------
// Format A: `: <epoch>:<flag>;<command>` headers, continuation lines
// ---------------------------------------------------------------------------

/// A header line of format A: `: `, the epoch digits, `:`, the flag digits, `;`,
/// then the command. Gives the epoch text and the command.
pub open spec fn zsh_header(l: Seq<char>) -> Option<(Seq<char>, Seq<char>)> {
    let k = digit_run(l, 2) as int;
    let p = 2 + k;
    let m = digit_run(l, p + 1) as int;
    let q = p + 1 + m;
    if l.len() >= 2 && l[0] == ':' && l[1] == ' ' && k > 0 && p < l.len() && l[p] == ':' && m > 0
        && q < l.len() && l[q] == ';' {
        Some((l.subrange(2, p), l.subrange(q + 1, l.len() as int)))
    } else {
        None
    }
}

fn zsh_header_exec(l: &Vec<char>) -> (r: Option<(Vec<char>, Vec<char>)>)
    ensures
        match zsh_header(l@) {
            Some((e, c)) => r is Some && (r->0).0@ == e && (r->0).1@ == c,
            None => r is None,
        },
{
    let n = l.len();
    if n < 2 || l[0] != ':' || l[1] != ' ' {
        return None;
    }
    let k = digit_run_exec(l, 2);
    let p = 2 + k;
    if k == 0 || p >= n || l[p] != ':' {
        return None;
    }
    let m = digit_run_exec(l, p + 1);
    let q = p + 1 + m;
    if m == 0 || q >= n || l[q] != ';' {
        return None;
    }
    Some((sub_vec(l, 2, p), sub_vec(l, q + 1, n)))
}

/// Reading state of format A: the entries so far, the command being gathered
/// and its timestamp.
pub struct ZshState {
    pub entries: Seq<EntryView>,
    pub cur: Seq<char>,
    pub ts: Option<i64>,
}

/// The entries so far, with the command being gathered added when there is one.
pub open spec fn zsh_flush(st: ZshState) -> Seq<EntryView> {
    if st.cur.len() > 0 {
        st.entries.push(record(trim(st.cur), st.ts))
    } else {
        st.entries
    }
}

pub open spec fn zsh_step(st: ZshState, l: Seq<char>) -> ZshState {
    match zsh_header(l) {
        Some((e, c)) => ZshState { entries: zsh_flush(st), cur: c, ts: epoch_of(e) },
        None => if st.cur.len() > 0 {
            ZshState { cur: st.cur + seq!['\n'] + l, ..st }
        } else {
            st
        },
    }
}

pub open spec fn zsh_scan(ls: Seq<Seq<char>>) -> ZshState
    decreases ls.len(),
{
    if ls.len() == 0 {
        ZshState { entries: Seq::empty(), cur: Seq::empty(), ts: None }
    } else {
        zsh_step(zsh_scan(ls.drop_last()), ls.last())
    }
}

/// The entries of a format A log given as lines: a header starts an entry, a
/// line that is no header continues the current command after a newline; each
/// command is trimmed, and a header with an empty command starts none.
pub open spec fn zsh_entries(ls: Seq<Seq<char>>) -> Seq<EntryView> {
    zsh_flush(zsh_scan(ls))
}

fn push_entry(entries: &mut Vec<HistoryEntry>, command: &Vec<char>, timestamp: Option<i64>)
    ensures
        entry_views(final(entries)@) == entry_views(old(entries)@).push(record(command@, timestamp)),
{
    let e = HistoryEntry { command: string_of(command), timestamp };
    entries.push(e);
    assert(entry_views(final(entries)@) =~= entry_views(old(entries)@).push(record(command@, timestamp)));
}

/// The entries of a format A log, given as its lines.
pub fn parse_zsh_lines(lines: &Vec<String>) -> (r: Vec<HistoryEntry>)
    ensures
        entry_views(r@) == zsh_entries(crate::text::string_views(lines@)),
{
    let ghost ls = crate::text::string_views(lines@);
    let mut entries: Vec<HistoryEntry> = Vec::new();
    let mut cur: Vec<char> = Vec::new();
    let mut ts: Option<i64> = None;
    let mut i: usize = 0;
    assert(ls.subrange(0, 0) =~= Seq::<Seq<char>>::empty());
    assert(entry_views(entries@) =~= Seq::<EntryView>::empty());
    while i < lines.len()
        invariant
            i <= lines@.len(),
            ls == crate::text::string_views(lines@),
            zsh_scan(ls.subrange(0, i as int)) == (ZshState {
                entries: entry_views(entries@),
                cur: cur@,
                ts,
            }),
        decreases lines@.len() - i,
    {
        let l = chars_of(lines[i].as_str());
        assert(ls.subrange(0, i + 1).drop_last() =~= ls.subrange(0, i as int));
        assert(ls[i as int] == lines@[i as int]@);
        match zsh_header_exec(&l) {
            Some((e, c)) => {
                if cur.len() > 0 {
                    let t = trimmed(&cur);
                    push_entry(&mut entries, &t, ts);
                }
                cur = c;
                ts = epoch_exec(&e);
            },
            None => {
                if cur.len() > 0 {
                    let ghost before = cur@;
                    cur.push('\n');
                    let mut l2 = l;
                    cur.append(&mut l2);
                    assert(cur@ =~= before + seq!['\n'] + l@);
                }
            },
        }
        i = i + 1;
    }
    assert(ls.subrange(0, lines@.len() as int) =~= ls);
    if cur.len() > 0 {
        let t = trimmed(&cur);
        push_entry(&mut entries, &t, ts);
    }
    entries
}

// ---------------------------------------------------------------------------
// Format B: plain lines, `#<epoch>` comment lines before them
// ---------------------------------------------------------------------------

/// Reading state of format B: the entries so far and the pending timestamp.
pub open spec fn bash_step(st: (Seq<EntryView>, Option<i64>), l: Seq<char>) -> (
    Seq<EntryView>,
    Option<i64>,
) {
    if l.len() > 0 && l[0] == '#' && parse_i64_spec(trim(l.drop_first())) is Some {
        (st.0, utc_instant(parse_i64_spec(trim(l.drop_first()))->0))
    } else if l.len() > 0 {
        (st.0.push(record(l, st.1)), None)
    } else {
        st
    }
}

pub open spec fn bash_scan(ls: Seq<Seq<char>>) -> (Seq<EntryView>, Option<i64>)
    decreases ls.len(),
{
    if ls.len() == 0 {
        (Seq::empty(), None)
    } else {
        bash_step(bash_scan(ls.drop_last()), ls.last())
    }
}

/// The entries of a format B log given as lines: a `#` line holding an integer
/// sets the timestamp of the next non-empty line and is no entry itself; every
/// other non-empty line is an entry.
pub open spec fn bash_entries(ls: Seq<Seq<char>>) -> Seq<EntryView> {
    bash_scan(ls).0
}

/// The entries of a format B log, given as its lines.
pub fn parse_bash_lines(lines: &Vec<String>) -> (r: Vec<HistoryEntry>)
    ensures
        entry_views(r@) == bash_entries(crate::text::string_views(lines@)),
{
    let ghost ls = crate::text::string_views(lines@);
    let mut entries: Vec<HistoryEntry> = Vec::new();
    let mut pending: Option<i64> = None;
    let mut i: usize = 0;
    assert(ls.subrange(0, 0) =~= Seq::<Seq<char>>::empty());
    assert(entry_views(entries@) =~= Seq::<EntryView>::empty());
    while i < lines.len()
        invariant
            i <= lines@.len(),
            ls == crate::text::string_views(lines@),
            bash_scan(ls.subrange(0, i as int)) == (entry_views(entries@), pending),
        decreases lines@.len() - i,
    {
        let l = chars_of(lines[i].as_str());
        assert(ls.subrange(0, i + 1).drop_last() =~= ls.subrange(0, i as int));
        assert(ls[i as int] == lines@[i as int]@);
        let n = l.len();
        let mut stamp: Option<i64> = None;
        if n > 0 && l[0] == '#' {
            let rest = sub_vec(&l, 1, n);
            assert(rest@ =~= l@.drop_first());
            let t = trimmed(&rest);
            stamp = parse_i64(&t);
        }
        match stamp {
            Some(v) => {
                pending = utc_from_epoch(v);
            },
            None => {
                if n > 0 {
                    push_entry(&mut entries, &l, pending);
                    pending = None;
                }
            },
        }
        i = i + 1;
    }
    assert(ls.subrange(0, lines@.len() as int) =~= ls);
    entries
}

// ---------------------------------------------------------------------------
// Format C: `- cmd:` and `when:` line pairs
// ---------------------------------------------------------------------------

pub open spec fn cmd_key() -> Seq<char> {
    seq!['-', ' ', 'c', 'm', 'd', ':']
}

pub open spec fn when_key() -> Seq<char> {
    seq!['w', 'h', 'e', 'n', ':']
}

/// Reading state of format C: the entries so far, the command waiting for its
/// `when:` line, and the timestamp read last.
pub struct FishState {
    pub entries: Seq<EntryView>,
    pub cmd: Option<Seq<char>>,
    pub ts: Option<i64>,
}

pub open spec fn fish_step(st: FishState, l: Seq<char>) -> FishState {
    let t = trim(l);
    if starts_with(t, cmd_key()) {
        FishState { cmd: Some(trim(t.subrange(6, t.len() as int))), ..st }
    } else if starts_with(t, when_key()) {
        let ts = match parse_i64_spec(trim(t.subrange(5, t.len() as int))) {
            Some(n) => utc_instant(n),
            None => st.ts,
        };
        match st.cmd {
            Some(c) => FishState { entries: st.entries.push(record(c, ts)), cmd: None, ts: None },
            None => FishState { ts, ..st },
        }
    } else {
        st
    }
}

pub open spec fn fish_scan(ls: Seq<Seq<char>>) -> FishState
    decreases ls.len(),
{
    if ls.len() == 0 {
        FishState { entries: Seq::empty(), cmd: None, ts: None }
    } else {
        fish_step(fish_scan(ls.drop_last()), ls.last())
    }
}

/// The entries of a format C log given as lines: a `- cmd:` line names a
/// command, the `when:` line after it completes the entry; a command without
/// its `when:` line is dropped.
pub open spec fn fish_entries(ls: Seq<Seq<char>>) -> Seq<EntryView> {
    fish_scan(ls).entries
}

/// The entries of a format C log, given as its lines.
pub fn parse_fish_lines(lines: &Vec<String>) -> (r: Vec<HistoryEntry>)
    ensures
        entry_views(r@) == fish_entries(crate::text::string_views(lines@)),
{
    let ghost ls = crate::text::string_views(lines@);
    let ck = vec!['-', ' ', 'c', 'm', 'd', ':'];
    let wk = vec!['w', 'h', 'e', 'n', ':'];
    let mut entries: Vec<HistoryEntry> = Vec::new();
    let mut cmd: Option<Vec<char>> = None;
    let mut ts: Option<i64> = None;
    let mut i: usize = 0;
    assert(ls.subrange(0, 0) =~= Seq::<Seq<char>>::empty());
    assert(entry_views(entries@) =~= Seq::<EntryView>::empty());
    while i < lines.len()
        invariant
            i <= lines@.len(),
            ls == crate::text::string_views(lines@),
            ck@ == cmd_key(),
            wk@ == when_key(),
            fish_scan(ls.subrange(0, i as int)) == (FishState {
                entries: entry_views(entries@),
                cmd: match cmd {
                    Some(c) => Some(c@),
                    None => None,
                },
                ts,
            }),
        decreases lines@.len() - i,
    {
        let raw = chars_of(lines[i].as_str());
        assert(ls.subrange(0, i + 1).drop_last() =~= ls.subrange(0, i as int));
        assert(ls[i as int] == lines@[i as int]@);
        let t = trimmed(&raw);
        let n = t.len();
        if occurs_at_exec(&t, &ck, 0) {
            let rest = sub_vec(&t, 6, n);
            cmd = Some(trimmed(&rest));
        } else if occurs_at_exec(&t, &wk, 0) {
            let rest = sub_vec(&t, 5, n);
            let v = trimmed(&rest);
            match parse_i64(&v) {
                Some(x) => {
                    ts = utc_from_epoch(x);
                },
                None => {},
            }
            match cmd {
                Some(c) => {
                    push_entry(&mut entries, &c, ts);
                    cmd = None;
                    ts = None;
                },
                None => {},
            }
        }
        i = i + 1;
    }
    assert(ls.subrange(0, lines@.len() as int) =~= ls);
    entries
}

/// The entries of a format A log.
pub fn parse_zsh_history(contents: &str) -> (r: Vec<HistoryEntry>)
    ensures
        entry_views(r@) == zsh_entries(crate::text::lines(contents@)),
{
    let ls = crate::text::split_lines(contents);
    parse_zsh_lines(&ls)
}

/// The entries of a format B log.
pub fn parse_bash_history(contents: &str) -> (r: Vec<HistoryEntry>)
    ensures
        entry_views(r@) == bash_entries(crate::text::lines(contents@)),
{
    let ls = crate::text::split_lines(contents);
    parse_bash_lines(&ls)
}

/// The entries of a format C log.
pub fn parse_fish_history(contents: &str) -> (r: Vec<HistoryEntry>)
    ensures
        entry_views(r@) == fish_entries(crate::text::lines(contents@)),
{
    let ls = crate::text::split_lines(contents);
    parse_fish_lines(&ls)
}


// ---------------------------------------------------------------------------
// Merging logs: newest first, entries without a timestamp last
// ---------------------------------------------------------------------------

/// `a` comes strictly before `b` when sorting newest first: a later instant, or
/// an instant against none.
pub open spec fn newer(a: Option<i64>, b: Option<i64>) -> bool {
    match (a, b) {
        (Some(x), Some(y)) => x > y,
        (Some(_), None) => true,
        _ => false,
    }
}

/// Entry `a` comes before entry `b` when sorting newest first.
pub open spec fn entry_before() -> spec_fn(EntryView, EntryView) -> bool {
    |a: EntryView, b: EntryView| newer(a.timestamp, b.timestamp)
}

/// `s` sorted newest first, stably: entries with equal timestamps keep their order.
pub open spec fn sort_by_time(s: Seq<EntryView>) -> Seq<EntryView> {
    sort_by(s, entry_before())
}

/// Sorting newest first leaves no entry before a newer one.
pub proof fn lemma_sort_by_time_sorted(s: Seq<EntryView>)
    ensures
        strict_weak_order(entry_before()),
        sorted_by(sort_by_time(s), entry_before()),
        sort_by_time(s).len() == s.len(),
{
    assert(strict_weak_order(entry_before()));
    lemma_sort_by_sorted(s, entry_before());
}

/// The entries sorted newest first, entries without a timestamp last; entries
/// with equal timestamps keep their order.
pub fn sort_history(entries: Vec<HistoryEntry>) -> (r: Vec<HistoryEntry>)
    ensures
        entry_views(r@) == sort_by_time(entry_views(entries@)),
{
    let ghost es = entry_views(entries@);
    let mut out: Vec<HistoryEntry> = Vec::new();
    let mut i: usize = 0;
    assert(es.subrange(0, 0) =~= Seq::<EntryView>::empty());
    assert(entry_views(out@) =~= Seq::<EntryView>::empty());
    while i < entries.len()
        invariant
            i <= entries@.len(),
            es == entry_views(entries@),
            entry_views(out@) == sort_by_time(es.subrange(0, i as int)),
        decreases entries@.len() - i,
    {
        let e = entries[i].duplicate();
        assert(e@ == es[i as int]);
        let ghost cur = entry_views(out@);
        let mut j: usize = 0;
        while j < out.len() && !newer_exec(e.timestamp, out[j].timestamp)
            invariant
                j <= out@.len(),
                cur == entry_views(out@),
                forall|k: int| 0 <= k < j ==> !newer(e@.timestamp, #[trigger] cur[k].timestamp),
            decreases out@.len() - j,
        {
            j = j + 1;
        }
        proof {
            lemma_insert_at(cur, e@, entry_before(), j as int);
            assert(es.subrange(0, i + 1).drop_last() =~= es.subrange(0, i as int));
        }
        let ghost e_view = e@;
        out.insert(j, e);
        assert(entry_views(out@) =~= cur.subrange(0, j as int) + seq![e_view] + cur.subrange(
            j as int,
            cur.len() as int,
        ));
        i = i + 1;
    }
    assert(es.subrange(0, entries@.len() as int) =~= es);
    out
}

fn newer_exec(a: Option<i64>, b: Option<i64>) -> (r: bool)
    ensures
        r == newer(a, b),
{
    match (a, b) {
        (Some(x), Some(y)) => x > y,
        (Some(_), None) => true,
        _ => false,
    }
}

/// The entries of the three logs, merged and sorted newest first (entries
/// without a timestamp last), whatever order the logs were read in.
pub fn parse_all_history(zsh: &str, bash: &str, fish: &str) -> (r: Vec<HistoryEntry>)
    ensures
        entry_views(r@) == sort_by_time(
            zsh_entries(crate::text::lines(zsh@)) + bash_entries(crate::text::lines(bash@))
                + fish_entries(crate::text::lines(fish@)),
        ),
{
    let mut all = parse_zsh_history(zsh);
    let mut b = parse_bash_history(bash);
    let mut f = parse_fish_history(fish);
    let ghost va = entry_views(all@);
    let ghost vb = entry_views(b@);
    let ghost vf = entry_views(f@);
    all.append(&mut b);
    all.append(&mut f);
    assert(entry_views(all@) =~= va + vb + vf);
    sort_history(all)
}

} // verus!
