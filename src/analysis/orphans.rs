//! Reading the orphan and leaf lists that Homebrew prints.
use crate::text::{chars_of, lines, occurs_at_exec, split_lines, starts_with, string_of, string_views, trim, trimmed};
use vstd::prelude::*;

verus! {

/// Reading the dry-run listing: whether its header was seen, and the names so far.
pub open spec fn autoremove_step(st: (bool, Seq<Seq<char>>), l: Seq<char>) -> (bool, Seq<Seq<char>>) {
    let t = trim(l);
    if starts_with(t, "==> Would autoremove"@) {
        (true, st.1)
    } else if st.0 && t.len() > 0 && !starts_with(t, "==>"@) {
        (st.0, st.1.push(t))
    } else {
        st
    }
}

pub open spec fn autoremove_scan(ls: Seq<Seq<char>>) -> (bool, Seq<Seq<char>>)
    decreases ls.len(),
{
    if ls.len() == 0 {
        (false, Seq::empty())
    } else {
        autoremove_step(autoremove_scan(ls.drop_last()), ls.last())
    }
}

/// The items that a dry run of `brew autoremove` would remove: the trimmed,
/// non-empty lines after its `==> Would autoremove` header that are no header
/// themselves.
pub open spec fn autoremove_names(out: Seq<char>) -> Seq<Seq<char>> {
    autoremove_scan(lines(out)).1
}

/// The orphans in the output of `brew autoremove --dry-run`.
pub fn parse_autoremove_output(stdout: &str) -> (r: Vec<String>)
    ensures
        string_views(r@) == autoremove_names(stdout@),
{
    let ls = split_lines(stdout);
    let ghost lv = string_views(ls@);
    let header = chars_of("==> Would autoremove");
    let arrow = chars_of("==>");
    let mut parsing = false;
    let mut out: Vec<String> = Vec::new();
    let mut i: usize = 0;
    assert(lv.subrange(0, 0) =~= Seq::<Seq<char>>::empty());
    assert(string_views(out@) =~= Seq::<Seq<char>>::empty());
    while i < ls.len()
        invariant
            i <= ls@.len(),
            lv == string_views(ls@),
            lv == lines(stdout@),
            header@ == "==> Would autoremove"@,
            arrow@ == "==>"@,
            autoremove_scan(lv.subrange(0, i as int)) == (parsing, string_views(out@)),
        decreases ls@.len() - i,
    {
        let raw = chars_of(ls[i].as_str());
        assert(lv.subrange(0, i + 1).drop_last() =~= lv.subrange(0, i as int));
        assert(lv[i as int] == ls@[i as int]@);
        let t = trimmed(&raw);
        if occurs_at_exec(&t, &header, 0) {
            parsing = true;
        } else if parsing && t.len() > 0 && !occurs_at_exec(&t, &arrow, 0) {
            let name = string_of(&t);
            proof {
                assert(string_views(out@.push(name)) =~= string_views(out@).push(name@));
            }
            out.push(name);
        }
        i = i + 1;
    }
    assert(lv.subrange(0, ls@.len() as int) =~= lv);
    out
}

pub open spec fn leaves_scan(ls: Seq<Seq<char>>) -> Seq<Seq<char>>
    decreases ls.len(),
{
    if ls.len() == 0 {
        Seq::empty()
    } else if trim(ls.last()).len() > 0 {
        leaves_scan(ls.drop_last()).push(trim(ls.last()))
    } else {
        leaves_scan(ls.drop_last())
    }
}

/// The items that `brew leaves` lists: its trimmed, non-empty lines.
pub open spec fn leaf_names(out: Seq<char>) -> Seq<Seq<char>> {
    leaves_scan(lines(out))
}

/// The explicitly installed items in the output of `brew leaves`.
pub fn parse_leaves_output(stdout: &str) -> (r: Vec<String>)
    ensures
        string_views(r@) == leaf_names(stdout@),
{
    let ls = split_lines(stdout);
    let ghost lv = string_views(ls@);
    let mut out: Vec<String> = Vec::new();
    let mut i: usize = 0;
    assert(lv.subrange(0, 0) =~= Seq::<Seq<char>>::empty());
    assert(string_views(out@) =~= Seq::<Seq<char>>::empty());
    while i < ls.len()
        invariant
            i <= ls@.len(),
            lv == string_views(ls@),
            lv == lines(stdout@),
            leaves_scan(lv.subrange(0, i as int)) == string_views(out@),
        decreases ls@.len() - i,
    {
        let raw = chars_of(ls[i].as_str());
        assert(lv.subrange(0, i + 1).drop_last() =~= lv.subrange(0, i as int));
        assert(lv[i as int] == ls@[i as int]@);
        let t = trimmed(&raw);
        if t.len() > 0 {
            let name = string_of(&t);
            proof {
                assert(string_views(out@.push(name)) =~= string_views(out@).push(name@));
            }
            out.push(name);
        }
        i = i + 1;
    }
    assert(lv.subrange(0, ls@.len() as int) =~= lv);
    out
}

} // verus!
