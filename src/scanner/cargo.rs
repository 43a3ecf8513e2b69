//! Reading the list that `cargo install --list` prints.
use crate::text::{chars_of, is_whitespace, is_ws, lines, split_lines, string_of, string_views, sub_vec};
use vstd::prelude::*;

verus! {

/// A character of a version number: a digit or a dot.
pub open spec fn is_version_char(c: char) -> bool {
    ('0' <= c && c <= '9') || c == '.'
}

/// How many characters in a row from `i` satisfy `keep`.
pub open spec fn run_of(s: Seq<char>, i: int, keep: spec_fn(char) -> bool) -> nat
    decreases s.len() - i,
{
    if 0 <= i < s.len() && keep(s[i]) {
        1 + run_of(s, i + 1, keep)
    } else {
        0
    }
}

pub open spec fn not_ws() -> spec_fn(char) -> bool {
    |c: char| !is_ws(c)
}

pub open spec fn ws() -> spec_fn(char) -> bool {
    |c: char| is_ws(c)
}

pub open spec fn version_char() -> spec_fn(char) -> bool {
    |c: char| is_version_char(c)
}

/// A crate line of the list: the crate's name (no whitespace), whitespace, `v`,
/// a version of digits and dots, then `:`. Gives the name and the version.
pub open spec fn install_line(l: Seq<char>) -> Option<(Seq<char>, Seq<char>)> {
    let a = run_of(l, 0, not_ws()) as int;
    let b = a + run_of(l, a, ws()) as int;
    let c = b + 1 + run_of(l, b + 1, version_char()) as int;
    if a > 0 && b > a && b < l.len() && l[b] == 'v' && c > b + 1 && c < l.len() && l[c] == ':' {
        Some((l.subrange(0, a), l.subrange(b + 1, c)))
    } else {
        None
    }
}

/// The crates in the list, in order, with their versions.
pub open spec fn install_list(ls: Seq<Seq<char>>) -> Seq<(Seq<char>, Seq<char>)>
    decreases ls.len(),
{
    if ls.len() == 0 {
        Seq::empty()
    } else {
        match install_line(ls.last()) {
            Some(p) => install_list(ls.drop_last()).push(p),
            None => install_list(ls.drop_last()),
        }
    }
}

fn run_exec(s: &Vec<char>, i: usize, which: u8) -> (r: usize)
    requires
        i <= s@.len(),
        which < 3,
    ensures
        r == run_of(
            s@,
            i as int,
            if which == 0 {
                not_ws()
            } else if which == 1 {
                ws()
            } else {
                version_char()
            },
        ),
        i + r <= s@.len(),
{
    let ghost keep = if which == 0 {
        not_ws()
    } else if which == 1 {
        ws()
    } else {
        version_char()
    };
    let n = s.len();
    let mut j: usize = i;
    while j < n
        invariant
            n == s@.len(),
            i <= j <= n,
            which < 3,
            keep == (if which == 0 {
                not_ws()
            } else if which == 1 {
                ws()
            } else {
                version_char()
            }),
            run_of(s@, i as int, keep) == (j - i) + run_of(s@, j as int, keep),
        ensures
            i <= j <= n,
            run_of(s@, i as int, keep) == j - i,
        decreases n - j,
    {
        let c = s[j];
        let k = if which == 0 {
            !is_whitespace(c)
        } else if which == 1 {
            is_whitespace(c)
        } else {
            ('0' <= c && c <= '9') || c == '.'
        };
        assert(k == keep(s@[j as int]));
        if !k {
            break;
        }
        j = j + 1;
    }
    j - i
}

/// The name and version on one line of the list, if it names a crate.
pub fn parse_install_line(line: &str) -> (r: Option<(String, String)>)
    ensures
        match install_line(line@) {
            Some(p) => r is Some && (r->0).0@ == p.0 && (r->0).1@ == p.1,
            None => r is None,
        },
{
    let l = chars_of(line);
    let n = l.len();
    let a = run_exec(&l, 0, 0);
    let b = a + run_exec(&l, a, 1);
    if a == 0 || b == a || b >= n || l[b] != 'v' {
        return None;
    }
    let c = b + 1 + run_exec(&l, b + 1, 2);
    if c == b + 1 || c >= n || l[c] != ':' {
        return None;
    }
    let name = sub_vec(&l, 0, a);
    let version = sub_vec(&l, b + 1, c);
    Some((string_of(&name), string_of(&version)))
}

pub open spec fn pair_views(v: Seq<(String, String)>) -> Seq<(Seq<char>, Seq<char>)> {
    v.map_values(|p: (String, String)| (p.0@, p.1@))
}

/// The crates that the output of `cargo install --list` names, with their versions.
pub fn parse_install_list(stdout: &str) -> (r: Vec<(String, String)>)
    ensures
        pair_views(r@) == install_list(lines(stdout@)),
{
    let ls = split_lines(stdout);
    let ghost lv = string_views(ls@);
    let mut out: Vec<(String, String)> = Vec::new();
    let mut i: usize = 0;
    assert(lv.subrange(0, 0) =~= Seq::<Seq<char>>::empty());
    assert(pair_views(out@) =~= Seq::<(Seq<char>, Seq<char>)>::empty());
    while i < ls.len()
        invariant
            i <= ls@.len(),
            lv == string_views(ls@),
            lv == lines(stdout@),
            install_list(lv.subrange(0, i as int)) == pair_views(out@),
        decreases ls@.len() - i,
    {
        assert(lv.subrange(0, i + 1).drop_last() =~= lv.subrange(0, i as int));
        assert(lv[i as int] == ls@[i as int]@);
        match parse_install_line(ls[i].as_str()) {
            Some(p) => {
                proof {
                    assert(pair_views(out@.push(p)) =~= pair_views(out@).push((p.0@, p.1@)));
                }
                out.push(p);
            },
            None => {},
        }
        i = i + 1;
    }
    assert(lv.subrange(0, ls@.len() as int) =~= lv);
    out
}

} // verus!
