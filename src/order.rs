//! Stable insertion order: what sorting by a strict "comes before" relation gives.
use vstd::prelude::*;

verus! {

/// `e` placed into `s` before the first element that it comes before.
pub open spec fn insert_by<A>(s: Seq<A>, e: A, before: spec_fn(A, A) -> bool) -> Seq<A>
    decreases s.len(),
{
    if s.len() == 0 {
        seq![e]
    } else if before(e, s[0]) {
        seq![e] + s
    } else {
        seq![s[0]] + insert_by(s.drop_first(), e, before)
    }
}

/// `s` sorted by `before`, stably: elements that neither comes before keep their order.
pub open spec fn sort_by<A>(s: Seq<A>, before: spec_fn(A, A) -> bool) -> Seq<A>
    decreases s.len(),
{
    if s.len() == 0 {
        s
    } else {
        insert_by(sort_by(s.drop_last(), before), s.last(), before)
    }
}

/// No element of `s` comes before one placed ahead of it.
pub open spec fn sorted_by<A>(s: Seq<A>, before: spec_fn(A, A) -> bool) -> bool {
    forall|i: int, j: int| 0 <= i < j < s.len() ==> !before(s[j], s[i])
}

/// `before` is a strict weak order: irreflexive, transitive, and "does not
/// come before" is transitive too.
pub open spec fn strict_weak_order<A>(before: spec_fn(A, A) -> bool) -> bool {
    &&& forall|a: A| #![trigger before(a, a)] !before(a, a)
    &&& forall|a: A, b: A, c: A|
        #![trigger before(a, b), before(b, c)]
        before(a, b) && before(b, c) ==> before(a, c)
    &&& forall|a: A, b: A, c: A|
        #![trigger before(b, a), before(c, b)]
        !before(b, a) && !before(c, b) ==> !before(c, a)
}

/// Inserting at the first position whose element `e` comes before.
pub proof fn lemma_insert_at<A>(s: Seq<A>, e: A, before: spec_fn(A, A) -> bool, j: int)
    requires
        0 <= j <= s.len(),
        forall|k: int| 0 <= k < j ==> !before(e, #[trigger] s[k]),
        j < s.len() ==> before(e, s[j]),
    ensures
        insert_by(s, e, before) == s.subrange(0, j) + seq![e] + s.subrange(j, s.len() as int),
    decreases j,
{
    if j == 0 {
        assert(s.subrange(0, 0) + seq![e] + s.subrange(0, s.len() as int) =~= seq![e] + s);
    } else {
        let t = s.drop_first();
        assert forall|k: int| 0 <= k < j - 1 implies !before(e, #[trigger] t[k]) by {
            assert(t[k] == s[k + 1]);
        }
        lemma_insert_at(t, e, before, j - 1);
        assert(seq![s[0]] + (t.subrange(0, j - 1) + seq![e] + t.subrange(j - 1, t.len() as int))
            =~= s.subrange(0, j) + seq![e] + s.subrange(j, s.len() as int));
    }
}

pub proof fn lemma_insert_len<A>(s: Seq<A>, e: A, before: spec_fn(A, A) -> bool)
    ensures
        insert_by(s, e, before).len() == s.len() + 1,
    decreases s.len(),
{
    if s.len() > 0 && !before(e, s[0]) {
        lemma_insert_len(s.drop_first(), e, before);
    }
}

proof fn lemma_insert_members<A>(s: Seq<A>, e: A, before: spec_fn(A, A) -> bool, k: int)
    requires
        0 <= k < s.len() + 1,
    ensures
        insert_by(s, e, before)[k] == e || exists|m: int|
            0 <= m < s.len() && s[m] == insert_by(s, e, before)[k],
    decreases s.len(),
{
    lemma_insert_len(s, e, before);
    if s.len() == 0 {
    } else if before(e, s[0]) {
        if k > 0 {
            assert(s[k - 1] == insert_by(s, e, before)[k]);
        }
    } else {
        let t = s.drop_first();
        if k == 0 {
            assert(s[0] == insert_by(s, e, before)[0]);
        } else {
            lemma_insert_members(t, e, before, k - 1);
            if insert_by(t, e, before)[k - 1] != e {
                let m = choose|m: int| 0 <= m < t.len() && t[m] == insert_by(t, e, before)[k - 1];
                assert(s[m + 1] == insert_by(s, e, before)[k]);
            }
        }
    }
}

proof fn lemma_insert_sorted<A>(s: Seq<A>, e: A, before: spec_fn(A, A) -> bool)
    requires
        sorted_by(s, before),
        strict_weak_order(before),
    ensures
        sorted_by(insert_by(s, e, before), before),
    decreases s.len(),
{
    lemma_insert_len(s, e, before);
    if s.len() == 0 {
    } else if before(e, s[0]) {
        let r = seq![e] + s;
        assert forall|i: int, j: int| 0 <= i < j < r.len() implies !before(r[j], r[i]) by {
            if i == 0 {
                assert(!before(s[j - 1], s[0]));
                assert(before(e, s[0]));
                if before(s[j - 1], e) {
                    assert(before(s[j - 1], s[0]));
                }
            } else {
                assert(r[i] == s[i - 1] && r[j] == s[j - 1]);
            }
        }
    } else {
        let t = s.drop_first();
        assert(sorted_by(t, before)) by {
            assert forall|i: int, j: int| 0 <= i < j < t.len() implies !before(t[j], t[i]) by {
                assert(0 <= i + 1 < j + 1 < s.len());
                assert(t[i] == s[i + 1] && t[j] == s[j + 1]);
            }
        }
        lemma_insert_sorted(t, e, before);
        lemma_insert_len(t, e, before);
        let u = insert_by(t, e, before);
        let r = seq![s[0]] + u;
        assert forall|k: int| 0 <= k < u.len() implies !before(#[trigger] u[k], s[0]) by {
            lemma_insert_members(t, e, before, k);
            if u[k] != e {
                let m = choose|m: int| 0 <= m < t.len() && t[m] == u[k];
                assert(t[m] == s[m + 1]);
            }
        }
        assert forall|i: int, j: int| 0 <= i < j < r.len() implies !before(r[j], r[i]) by {
            if i == 0 {
                assert(r[j] == u[j - 1]);
            } else {
                assert(r[i] == u[i - 1] && r[j] == u[j - 1]);
            }
        }
    }
}

/// Sorting by a strict weak order leaves no element ahead of one that comes
/// before it, and keeps the length.
pub proof fn lemma_sort_by_sorted<A>(s: Seq<A>, before: spec_fn(A, A) -> bool)
    requires
        strict_weak_order(before),
    ensures
        sorted_by(sort_by(s, before), before),
        sort_by(s, before).len() == s.len(),
    decreases s.len(),
{
    if s.len() > 0 {
        lemma_sort_by_sorted(s.drop_last(), before);
        lemma_insert_sorted(sort_by(s.drop_last(), before), s.last(), before);
        lemma_insert_len(sort_by(s.drop_last(), before), s.last(), before);
    }
}

} // verus!
