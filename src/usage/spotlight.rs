//! Reading the operating system's usage bookkeeping of application bundles
//! from the text that its metadata tool prints.
use crate::text::{
    capped_digits, digit_run, digit_run_exec, chars_of, contains, contains_exec, digits_value, is_digit, is_whitespace,
    is_ws, occurs_at, occurs_at_exec,
};
use vstd::prelude::*;

verus! {

/// The first year that chrono's dates reach.
pub const MIN_YEAR: i32 = -262143;

/// The last year that chrono's dates reach.
pub const MAX_YEAR: i32 = 262142;

pub open spec fn is_leap_year(y: int) -> bool {
    (y % 4 == 0 && y % 100 != 0) || y % 400 == 0
}

pub open spec fn days_in_month(y: int, m: int) -> int {
    if m == 2 {
        if is_leap_year(y) {
            29
        } else {
            28
        }
    } else if m == 4 || m == 6 || m == 9 || m == 11 {
        30
    } else {
        31
    }
}

/// Days from 1970-01-01 to the given day of the proleptic Gregorian calendar.
pub open spec fn days_from_civil(y: int, m: int, d: int) -> int {
    let y2 = if m <= 2 {
        y - 1
    } else {
        y
    };
    let mp = (m + 9) % 12;
    365 * y2 + y2 / 4 - y2 / 100 + y2 / 400 + (153 * mp + 2) / 5 + d - 1 - 719468
}

/// Seconds since the UNIX epoch of a UTC calendar date and time of day, when
/// they name a real instant within chrono's range.
pub open spec fn civil_instant(y: i32, mo: u32, d: u32, h: u32, mi: u32, s: u32) -> Option<i64> {
    if MIN_YEAR <= y <= MAX_YEAR && 1 <= mo <= 12 && 1 <= d <= days_in_month(y as int, mo as int)
        && h < 24 && mi < 60 && s < 60 {
        Some((days_from_civil(y as int, mo as int, d as int) * 86400 + h * 3600 + mi * 60 + s) as i64)
    } else {
        None
    }
}

/// Relies on `chrono::NaiveDate::from_ymd_opt` (a valid day of a year from
/// `MIN_YEAR` to `MAX_YEAR`), `NaiveDate::and_hms_opt` (hour below 24, minute
/// and second below 60) and `NaiveDateTime::and_utc().timestamp()` (seconds
/// since the UNIX epoch of that UTC date-time).
#[verifier::external_body]
fn utc_from_civil(y: i32, mo: u32, d: u32, h: u32, mi: u32, s: u32) -> (r: Option<i64>)
    ensures
        r == civil_instant(y, mo, d, h, mi, s),
{
    chrono::NaiveDate::from_ymd_opt(y, mo, d)
        .and_then(|date| date.and_hms_opt(h, mi, s))
        .map(|dt| dt.and_utc().timestamp())
}

/// The date-time shape `DDDD-DD-DD DD:DD:DD` stands in `s` at position `i`.
pub open spec fn datetime_at(s: Seq<char>, i: int) -> bool {
    &&& 0 <= i && i + 19 <= s.len()
    &&& forall|k: int|
        #![trigger s[i + k]]
        0 <= k < 19 && k != 4 && k != 7 && k != 10 && k != 13 && k != 16 ==> is_digit(s[i + k])
    &&& s[i + 4] == '-' && s[i + 7] == '-' && s[i + 10] == ' ' && s[i + 13] == ':' && s[i + 16]
        == ':'
}

/// The first position from `i` on where the date-time shape stands.
pub open spec fn first_datetime_from(s: Seq<char>, i: int) -> Option<int>
    decreases s.len() - i,
{
    if i < 0 || i + 19 > s.len() {
        None
    } else if datetime_at(s, i) {
        Some(i)
    } else {
        first_datetime_from(s, i + 1)
    }
}

/// The number written by the `k` characters of `s` from `i`.
pub open spec fn number_at(s: Seq<char>, i: int, k: int) -> nat {
    digits_value(s.subrange(i, i + k))
}

pub open spec fn null_marker() -> Seq<char> {
    seq!['(', 'n', 'u', 'l', 'l', ')']
}

/// The last-use instant in the tool's text: none where the text holds
/// `(null)`; otherwise the first `YYYY-MM-DD hh:mm:ss` in it, read as UTC,
/// when it names a real instant.
pub open spec fn mdls_datetime(s: Seq<char>) -> Option<i64> {
    if contains(s, null_marker()) {
        None
    } else {
        match first_datetime_from(s, 0) {
            Some(i) => civil_instant(
                number_at(s, i, 4) as i32,
                number_at(s, i + 5, 2) as u32,
                number_at(s, i + 8, 2) as u32,
                number_at(s, i + 11, 2) as u32,
                number_at(s, i + 14, 2) as u32,
                number_at(s, i + 17, 2) as u32,
            ),
            None => None,
        }
    }
}

fn datetime_at_exec(s: &Vec<char>, i: usize) -> (r: bool)
    ensures
        r == datetime_at(s@, i as int),
{
    if s.len() < 19 || i > s.len() - 19 {
        return false;
    }
    let n = s.len();
    let mut k: usize = 0;
    while k < 19
        invariant
            n == s@.len(),
            i + 19 <= n,
            k <= 19,
            forall|j: int|
                #![trigger s@[i + j]]
                0 <= j < k && j != 4 && j != 7 && j != 10 && j != 13 && j != 16 ==> is_digit(
                    s@[i + j],
                ),
        decreases 19 - k,
    {
        if k != 4 && k != 7 && k != 10 && k != 13 && k != 16 {
            let c = s[i + k];
            if !('0' <= c && c <= '9') {
                return false;
            }
        }
        k = k + 1;
    }
    s[i + 4] == '-' && s[i + 7] == '-' && s[i + 10] == ' ' && s[i + 13] == ':' && s[i + 16] == ':'
}

fn number_exec(s: &Vec<char>, i: usize, k: usize) -> (r: u32)
    requires
        1 <= k <= 4,
        i + k <= s@.len(),
        all_digits_in(s@, i as int, k as int),
    ensures
        r as nat == number_at(s@, i as int, k as int),
        r < 10000,
{
    let n = s.len();
    assert(i + k <= n);
    let v = capped_digits(s, i, i + k);
    proof {
        let d = s@.subrange(i as int, i + k);
        assert forall|j: int| 0 <= j < d.len() implies is_digit(#[trigger] d[j]) by {
            assert(d[j] == s@[i + j]);
        }
        lemma_small_number(d);
    }
    match v {
        Some(x) => x as u32,
        None => 0,
    }
}

pub open spec fn all_digits_in(s: Seq<char>, i: int, k: int) -> bool {
    forall|j: int| #![trigger s[i + j]] 0 <= j < k ==> is_digit(s[i + j])
}

proof fn lemma_small_number(d: Seq<char>)
    requires
        d.len() <= 4,
        crate::text::all_digits(d),
    ensures
        digits_value(d) < 10000,
    decreases d.len(),
{
    if d.len() > 0 {
        let p = d.drop_last();
        assert(crate::text::all_digits(p)) by {
            assert forall|j: int| 0 <= j < p.len() implies is_digit(#[trigger] p[j]) by {
                assert(p[j] == d[j]);
            }
        }
        lemma_small_number(p);
        assert(is_digit(d[d.len() - 1]));
        assert(digits_value(p) < 1000) by {
            lemma_bound_len(p);
        }
    }
}

proof fn lemma_bound_len(d: Seq<char>)
    requires
        crate::text::all_digits(d),
        d.len() <= 4,
    ensures
        d.len() <= 3 ==> digits_value(d) < 1000,
        d.len() <= 2 ==> digits_value(d) < 100,
        d.len() <= 1 ==> digits_value(d) < 10,
        d.len() == 0 ==> digits_value(d) == 0,
    decreases d.len(),
{
    if d.len() > 0 {
        let p = d.drop_last();
        assert(crate::text::all_digits(p)) by {
            assert forall|j: int| 0 <= j < p.len() implies is_digit(#[trigger] p[j]) by {
                assert(p[j] == d[j]);
            }
        }
        lemma_bound_len(p);
        assert(is_digit(d[d.len() - 1]));
    }
}

/// The last-use instant in the text that the metadata tool printed.
pub fn parse_mdls_datetime(output: &str) -> (r: Option<i64>)
    ensures
        r == mdls_datetime(output@),
{
    let s = chars_of(output);
    let null = vec!['(', 'n', 'u', 'l', 'l', ')'];
    assert(null@ == null_marker());
    if contains_exec(&s, &null) {
        return None;
    }
    if s.len() < 19 {
        return None;
    }
    let n = s.len();
    let last = n - 19;
    let mut i: usize = 0;
    loop
        invariant
            s@ == output@,
            n == s@.len(),
            !contains(s@, null_marker()),
            last + 19 == s@.len(),
            i <= last,
            first_datetime_from(s@, 0) == first_datetime_from(s@, i as int),
        decreases last - i,
    {
        if datetime_at_exec(&s, i) {
            proof {
                assert forall|k: int| 0 <= k < 4 implies #[trigger] is_digit(s@[i + k]) by {}
            }
            assert(all_digits_in(s@, i as int, 4));
            assert(all_digits_in(s@, i + 5, 2)) by {
                assert forall|j: int| #![trigger s@[i + 5 + j]] 0 <= j < 2 implies is_digit(s@[i + 5 + j]) by {
                    assert(s@[i + 5 + j] == s@[i + (5 + j)]);
                }
            }
            assert(all_digits_in(s@, i + 8, 2)) by {
                assert forall|j: int| #![trigger s@[i + 8 + j]] 0 <= j < 2 implies is_digit(s@[i + 8 + j]) by {
                    assert(s@[i + 8 + j] == s@[i + (8 + j)]);
                }
            }
            assert(all_digits_in(s@, i + 11, 2)) by {
                assert forall|j: int| #![trigger s@[i + 11 + j]] 0 <= j < 2 implies is_digit(s@[i + 11 + j]) by {
                    assert(s@[i + 11 + j] == s@[i + (11 + j)]);
                }
            }
            assert(all_digits_in(s@, i + 14, 2)) by {
                assert forall|j: int| #![trigger s@[i + 14 + j]] 0 <= j < 2 implies is_digit(s@[i + 14 + j]) by {
                    assert(s@[i + 14 + j] == s@[i + (14 + j)]);
                }
            }
            assert(all_digits_in(s@, i + 17, 2)) by {
                assert forall|j: int| #![trigger s@[i + 17 + j]] 0 <= j < 2 implies is_digit(s@[i + 17 + j]) by {
                    assert(s@[i + 17 + j] == s@[i + (17 + j)]);
                }
            }
            let y = number_exec(&s, i, 4);
            let mo = number_exec(&s, i + 5, 2);
            let d = number_exec(&s, i + 8, 2);
            let h = number_exec(&s, i + 11, 2);
            let mi = number_exec(&s, i + 14, 2);
            let sec = number_exec(&s, i + 17, 2);
            assert(first_datetime_from(s@, i as int) == Some(i as int));
            assert(y as i32 == number_at(s@, i as int, 4) as i32);
            return utc_from_civil(y as i32, mo, d, h, mi, sec);
        }
        if i == last {
            assert(first_datetime_from(s@, i + 1) == None::<int>);
            return None;
        }
        i = i + 1;
    }
}


/// The number of whitespace characters that stand in a row in `s` from `i`.
pub open spec fn ws_run(s: Seq<char>, i: int) -> nat
    decreases s.len() - i,
{
    if 0 <= i < s.len() && is_ws(s[i]) {
        1 + ws_run(s, i + 1)
    } else {
        0
    }
}

/// Where the digits of a count after an `=` at `i` begin.
pub open spec fn count_digits_start(s: Seq<char>, i: int) -> int {
    i + 1 + ws_run(s, i + 1)
}

/// An `=` at `i`, then optional whitespace, then a digit.
pub open spec fn count_at(s: Seq<char>, i: int) -> bool {
    &&& 0 <= i < s.len()
    &&& s[i] == '='
    &&& count_digits_start(s, i) < s.len()
    &&& is_digit(s[count_digits_start(s, i)])
}

pub open spec fn first_count_from(s: Seq<char>, i: int) -> Option<int>
    decreases s.len() - i,
{
    if i < 0 || i >= s.len() {
        None
    } else if count_at(s, i) {
        Some(i)
    } else {
        first_count_from(s, i + 1)
    }
}

/// The first position from `i` on where `p` stands in `s`.
pub open spec fn first_occurrence_from(s: Seq<char>, p: Seq<char>, i: int) -> Option<int>
    decreases s.len() + 1 - i,
{
    if i < 0 || i > s.len() {
        None
    } else if occurs_at(s, p, i) {
        Some(i)
    } else {
        first_occurrence_from(s, p, i + 1)
    }
}

/// The use count in the tool's text: after the first `kMDItemUseCount`, the
/// first `=` followed by optional whitespace and digits; the digits read as a
/// `u32` when they fit.
pub open spec fn mdls_use_count(s: Seq<char>) -> Option<u32> {
    match first_occurrence_from(s, "kMDItemUseCount"@, 0) {
        None => None,
        Some(k) => match first_count_from(s, k) {
            None => None,
            Some(i) => {
                let j = count_digits_start(s, i);
                let v = number_at(s, j, digit_run(s, j) as int);
                if v <= u32::MAX {
                    Some(v as u32)
                } else {
                    None
                }
            },
        },
    }
}

fn first_occurrence_exec(s: &Vec<char>, p: &Vec<char>) -> (r: Option<usize>)
    ensures
        r is Some ==> first_occurrence_from(s@, p@, 0) == Some(r->0 as int),
        r is None ==> first_occurrence_from(s@, p@, 0) is None,
{
    let n = s.len();
    let mut i: usize = 0;
    while i <= n
        invariant
            n == s@.len(),
            first_occurrence_from(s@, p@, 0) == first_occurrence_from(s@, p@, i as int),
        decreases n + 1 - i,
    {
        if occurs_at_exec(s, p, i) {
            return Some(i);
        }
        if i == n {
            assert(first_occurrence_from(s@, p@, i + 1) == None::<int>);
            return None;
        }
        i = i + 1;
    }
    None
}

fn ws_run_exec(s: &Vec<char>, i: usize) -> (r: usize)
    requires
        i <= s@.len(),
    ensures
        r == ws_run(s@, i as int),
        i + r <= s@.len(),
{
    let n = s.len();
    let mut j: usize = i;
    while j < n && is_whitespace(s[j])
        invariant
            n == s@.len(),
            i <= j <= n,
            ws_run(s@, i as int) == (j - i) + ws_run(s@, j as int),
        decreases n - j,
    {
        j = j + 1;
    }
    j - i
}

/// The use count in the text that the metadata tool printed.
pub fn parse_mdls_use_count(output: &str) -> (r: Option<u32>)
    ensures
        r == mdls_use_count(output@),
{
    let s = chars_of(output);
    let key = chars_of("kMDItemUseCount");
    assert(key@ == "kMDItemUseCount"@);
    let n = s.len();
    let k = match first_occurrence_exec(&s, &key) {
        Some(k) => k,
        None => {
            return None;
        },
    };
    let mut i: usize = k;
    while i < n
        invariant
            n == s@.len(),
            s@ == output@,
            first_occurrence_from(s@, "kMDItemUseCount"@, 0) == Some(k as int),
            k <= i,
            first_count_from(s@, k as int) == first_count_from(s@, i as int),
        decreases n - i,
    {
        if s[i] == '=' {
            let w = ws_run_exec(&s, i + 1);
            let j = i + 1 + w;
            if j < n && '0' <= s[j] && s[j] <= '9' {
                assert(count_at(s@, i as int));
                let m = digit_run_exec(&s, j);
                proof {
                    lemma_digit_run_digits(s@, j as int, m as int);
                }
                let v = capped_digits(&s, j, j + m);
                return match v {
                    Some(x) => if x <= 0xffff_ffff {
                        Some(x as u32)
                    } else {
                        None
                    },
                    None => None,
                };
            }
        }
        i = i + 1;
    }
    assert(first_count_from(s@, i as int) == None::<int>);
    None
}

proof fn lemma_digit_run_digits(s: Seq<char>, j: int, m: int)
    requires
        0 <= j <= s.len(),
        m == digit_run(s, j),
    ensures
        crate::text::all_digits(s.subrange(j, j + m)),
        j + m <= s.len(),
    decreases m,
{
    if m > 0 {
        assert(j < s.len() && is_digit(s[j]));
        lemma_digit_run_digits(s, j + 1, m - 1);
        let d = s.subrange(j, j + m);
        let e = s.subrange(j + 1, j + m);
        assert forall|t: int| 0 <= t < d.len() implies is_digit(#[trigger] d[t]) by {
            if t == 0 {
                assert(d[0] == s[j]);
            } else {
                assert(d[t] == e[t - 1]);
            }
        }
    }
}

/// The last-use instant and the use count in the text that the metadata tool
/// printed for one application bundle.
pub fn parse_spotlight_usage(output: &str) -> (r: (Option<i64>, Option<u32>))
    ensures
        r.0 == mdls_datetime(output@),
        r.1 == mdls_use_count(output@),
{
    (parse_mdls_datetime(output), parse_mdls_use_count(output))
}

} // verus!
