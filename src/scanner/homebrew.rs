//! Homebrew formulae and casks.
use crate::text::{chars_of, push_str, string_of, trim, trimmed};
use crate::utils::process::command_exists;
use vstd::prelude::*;

verus! {

/// Scans a Homebrew installation.
pub struct HomebrewScanner {
    pub prefix: String,
}

/// The upper-case form of a character, as `char::to_uppercase` gives it.
pub uninterp spec fn upper_of(c: char) -> Seq<char>;

/// Relies on `char::to_uppercase`: the characters it yields depend on `c` alone.
#[verifier::external_body]
fn uppercase_char(c: char) -> (r: Vec<char>)
    ensures
        r@ == upper_of(c),
{
    c.to_uppercase().collect()
}

/// A word with its first character in upper case.
pub open spec fn capitalized(w: Seq<char>) -> Seq<char> {
    if w.len() == 0 {
        w
    } else {
        upper_of(w[0]) + w.drop_first()
    }
}

/// Reading a token: the name written so far, and the word being read.
pub open spec fn title_scan(s: Seq<char>) -> (Seq<char>, Seq<char>)
    decreases s.len(),
{
    if s.len() == 0 {
        (Seq::empty(), Seq::empty())
    } else {
        let st = title_scan(s.drop_last());
        if s.last() == '-' {
            (st.0 + capitalized(st.1) + seq![' '], Seq::empty())
        } else {
            (st.0, st.1.push(s.last()))
        }
    }
}

/// A cask token turned into a likely application name: each `-`-separated
/// word capitalized, the words joined by single spaces.
pub open spec fn app_name_of(token: Seq<char>) -> Seq<char> {
    let st = title_scan(token);
    st.0 + capitalized(st.1)
}

fn capitalize(w: &Vec<char>) -> (r: Vec<char>)
    ensures
        r@ == capitalized(w@),
{
    if w.len() == 0 {
        return Vec::new();
    }
    let mut r = uppercase_char(w[0]);
    let mut i: usize = 1;
    assert(w@.subrange(1, 1) =~= Seq::<char>::empty());
    while i < w.len()
        invariant
            1 <= i <= w@.len(),
            r@ == upper_of(w@[0]) + w@.subrange(1, i as int),
        decreases w@.len() - i,
    {
        r.push(w[i]);
        assert(w@.subrange(1, i + 1) =~= w@.subrange(1, i as int).push(w@[i as int]));
        i = i + 1;
    }
    assert(w@.subrange(1, w@.len() as int) =~= w@.drop_first());
    r
}

/// The default prefix of Homebrew on Apple silicon.
pub open spec fn default_prefix() -> Seq<char> {
    "/opt/homebrew"@
}

impl HomebrewScanner {
    /// A scanner of the installation under the prefix that `brew --prefix`
    /// printed, trimmed; `/opt/homebrew` where it printed nothing usable.
    pub fn new(detected_prefix: Option<String>) -> (r: HomebrewScanner)
        ensures
            match detected_prefix {
                Some(p) => r.prefix@ == trim(p@),
                None => r.prefix@ == default_prefix(),
            },
    {
        match detected_prefix {
            Some(p) => {
                let v = chars_of(p.as_str());
                let t = trimmed(&v);
                HomebrewScanner { prefix: string_of(&t) }
            },
            None => {
                let mut v: Vec<char> = Vec::new();
                push_str(&mut v, "/opt/homebrew");
                HomebrewScanner { prefix: string_of(&v) }
            },
        }
    }

    /// Whether `brew` is on the search path.
    pub fn is_available(&self) -> bool {
        command_exists("brew")
    }

    /// The likely application name of a cask token, as
    /// `visual-studio-code` to `Visual Studio Code`.
    pub fn guess_app_name(token: &str) -> (r: String)
        ensures
            r@ == app_name_of(token@),
    {
        let s = chars_of(token);
        let mut out: Vec<char> = Vec::new();
        let mut cur: Vec<char> = Vec::new();
        let mut i: usize = 0;
        assert(s@.subrange(0, 0) =~= Seq::<char>::empty());
        while i < s.len()
            invariant
                i <= s@.len(),
                title_scan(s@.subrange(0, i as int)) == (out@, cur@),
            decreases s@.len() - i,
        {
            let c = s[i];
            assert(s@.subrange(0, i + 1).drop_last() =~= s@.subrange(0, i as int));
            if c == '-' {
                let mut w = capitalize(&cur);
                out.append(&mut w);
                out.push(' ');
                cur = Vec::new();
                assert(cur@ =~= Seq::<char>::empty());
            } else {
                cur.push(c);
            }
            i = i + 1;
        }
        assert(s@.subrange(0, s@.len() as int) =~= s@);
        let mut w = capitalize(&cur);
        out.append(&mut w);
        string_of(&out)
    }
}

} // verus!
