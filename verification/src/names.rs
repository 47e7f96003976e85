//! Small verified helpers on lists of package names.  Name lists keep their
//! order for display, but the reconciliation logic treats them by
//! membership, so the helpers here are specified over the lists' contents.

use vstd::prelude::*;

verus! {

/// How many entries of `s` equal `x`.
pub open spec fn count_of(s: Seq<Seq<char>>, x: Seq<char>) -> nat
    decreases s.len(),
{
    if s.len() == 0 {
        0
    } else {
        count_of(s.drop_last(), x) + (if s.last() == x {
            1nat
        } else {
            0nat
        })
    }
}

/// Two name lists hold the same entries, each the same number of times,
/// in any order.
pub open spec fn same_entries(a: Seq<Seq<char>>, b: Seq<Seq<char>>) -> bool {
    forall|x: Seq<char>| count_of(a, x) == count_of(b, x)
}

/// The entries of `from` that do not occur in `excl`, in order.
pub open spec fn diff_of(from: Seq<Seq<char>>, excl: Seq<Seq<char>>) -> Seq<Seq<char>>
    decreases from.len(),
{
    if from.len() == 0 {
        Seq::empty()
    } else {
        let rest = diff_of(from.drop_last(), excl);
        if excl.contains(from.last()) {
            rest
        } else {
            rest.push(from.last())
        }
    }
}

/// An entry occurs in a list exactly when its count there is positive.
pub proof fn lemma_count_contains(s: Seq<Seq<char>>, x: Seq<char>)
    ensures
        s.contains(x) <==> count_of(s, x) > 0,
    decreases s.len(),
{
    if s.len() > 0 {
        lemma_count_contains(s.drop_last(), x);
        assert(s.contains(x) <==> s.last() == x || s.drop_last().contains(x)) by {
            if s.contains(x) {
                let i = choose|i: int| 0 <= i < s.len() && s[i] == x;
                if i < s.len() - 1 {
                    assert(s.drop_last()[i] == x);
                }
            }
            if s.drop_last().contains(x) {
                let i = choose|i: int| 0 <= i < s.drop_last().len() && s.drop_last()[i] == x;
                assert(s[i] == x);
            }
        }
    }
}

/// What the difference list holds: exactly the entries of `from` that are
/// not in `excl`.
pub proof fn lemma_diff_contains(from: Seq<Seq<char>>, excl: Seq<Seq<char>>, x: Seq<char>)
    ensures
        diff_of(from, excl).contains(x) <==> from.contains(x) && !excl.contains(x),
    decreases from.len(),
{
    if from.len() > 0 {
        lemma_diff_contains(from.drop_last(), excl, x);
        assert(from.contains(x) <==> from.last() == x || from.drop_last().contains(x)) by {
            if from.contains(x) {
                let i = choose|i: int| 0 <= i < from.len() && from[i] == x;
                if i < from.len() - 1 {
                    assert(from.drop_last()[i] == x);
                }
            }
            if from.drop_last().contains(x) {
                let i = choose|i: int|
                    0 <= i < from.drop_last().len() && from.drop_last()[i] == x;
                assert(from[i] == x);
            }
        }
        let rest = diff_of(from.drop_last(), excl);
        if !excl.contains(from.last()) {
            assert forall|y: Seq<char>|
                diff_of(from, excl).contains(y) <==> rest.contains(y) || from.last() == y by {
                if diff_of(from, excl).contains(y) {
                    let i = choose|i: int|
                        0 <= i < diff_of(from, excl).len() && diff_of(from, excl)[i] == y;
                    if i < rest.len() {
                        assert(rest[i] == y);
                    }
                }
                if rest.contains(y) {
                    let i = choose|i: int| 0 <= i < rest.len() && rest[i] == y;
                    assert(diff_of(from, excl)[i] == y);
                }
                if from.last() == y {
                    assert(diff_of(from, excl).last() == y);
                }
            }
        }
    }
}

/// The difference list is always disjoint from the excluded list: nothing
/// it holds occurs in `excl`.
pub proof fn lemma_diff_disjoint(from: Seq<Seq<char>>, excl: Seq<Seq<char>>)
    ensures
        forall|x: Seq<char>| #[trigger]
            diff_of(from, excl).contains(x) ==> !excl.contains(x),
{
    assert forall|x: Seq<char>| #[trigger] diff_of(from, excl).contains(x) implies !excl.contains(
        x,
    ) by {
        lemma_diff_contains(from, excl, x);
    }
}

/// Owned copies of borrowed name slices, in order.
pub fn owned_names(names: &[&str]) -> (r: Vec<String>)
    ensures
        r.deep_view() == names.deep_view(),
{
    let mut owned: Vec<String> = Vec::new();
    let mut i: usize = 0;
    while i < names.len()
        invariant
            i <= names.len(),
            owned.deep_view() =~= names.deep_view().take(i as int),
        decreases names.len() - i,
    {
        let entry: &str = names[i];
        proof {
            assert(entry@ == names.deep_view()[i as int]);
        }
        let ghost pre = owned.deep_view();
        owned.push(entry.to_owned());
        proof {
            assert(owned.deep_view() =~= pre.push(entry@));
            assert(pre.push(entry@) =~= names.deep_view().take(i + 1));
        }
        i = i + 1;
    }
    proof {
        assert(names.deep_view().take(names.len() as int) =~= names.deep_view());
    }
    owned
}

/// Splitting a concatenation, a count sums over the parts.
pub proof fn lemma_count_concat(s: Seq<Seq<char>>, t: Seq<Seq<char>>, x: Seq<char>)
    ensures
        count_of(s + t, x) == count_of(s, x) + count_of(t, x),
    decreases t.len(),
{
    if t.len() == 0 {
        assert(s + t =~= s);
    } else {
        assert((s + t).drop_last() =~= s + t.drop_last());
        assert((s + t).last() == t.last());
        lemma_count_concat(s, t.drop_last(), x);
    }
}

/// Whether `name` occurs in `names`.
pub fn contains_name(names: &Vec<String>, name: &String) -> (r: bool)
    ensures
        r == names.deep_view().contains(name@),
{
    let mut i: usize = 0;
    while i < names.len()
        invariant
            i <= names.len(),
            forall|k: int| 0 <= k < i ==> names.deep_view()[k] != name@,
        decreases names.len() - i,
    {
        if names[i].eq(name) {
            assert(names.deep_view()[i as int] == name@);
            return true;
        }
        i = i + 1;
    }
    false
}

/// Whether `name` occurs in `names`, given as a string slice.
pub fn contains_str(names: &Vec<String>, name: &str) -> (r: bool)
    ensures
        r == names.deep_view().contains(name@),
{
    let owned = name.to_owned();
    contains_name(names, &owned)
}

/// The entries of `from` that do not occur in `excluded`, in order.  This
/// is the decision procedure behind install proposals: what is declared
/// but not live.
pub fn diff_names(from: &Vec<String>, excluded: &Vec<String>) -> (r: Vec<String>)
    ensures
        r.deep_view() == diff_of(from.deep_view(), excluded.deep_view()),
{
    let ghost excl = excluded.deep_view();
    let mut r: Vec<String> = Vec::new();
    let mut i: usize = 0;
    while i < from.len()
        invariant
            i <= from.len(),
            excl == excluded.deep_view(),
            r.deep_view() =~= diff_of(from.deep_view().take(i as int), excl),
        decreases from.len() - i,
    {
        proof {
            assert(from.deep_view().take(i + 1).drop_last() =~= from.deep_view().take(i as int));
            assert(from.deep_view().take(i + 1).last() == from.deep_view()[i as int]);
        }
        if !contains_name(excluded, &from[i]) {
            r.push(from[i].clone());
        }
        i = i + 1;
    }
    proof {
        assert(from.deep_view().take(from.len() as int) =~= from.deep_view());
    }
    r
}

/// Removes every entry that occurs in `names` from `from`, keeping the
/// order of what stays.
pub fn remove_names(from: &mut Vec<String>, names: &Vec<String>)
    ensures
        final (from).deep_view() == diff_of(old(from).deep_view(), names.deep_view()),
{
    let kept = diff_names(from, names);
    *from = kept;
}

/// The entries of `s` with later duplicates dropped: each entry keeps its
/// first occurrence only.
pub open spec fn dedup_of(s: Seq<Seq<char>>) -> Seq<Seq<char>>
    decreases s.len(),
{
    if s.len() == 0 {
        Seq::empty()
    } else {
        let rest = dedup_of(s.drop_last());
        if s.drop_last().contains(s.last()) {
            rest
        } else {
            rest.push(s.last())
        }
    }
}

/// A list and its deduplication hold the same entries.
pub proof fn lemma_dedup_contains(s: Seq<Seq<char>>, x: Seq<char>)
    ensures
        dedup_of(s).contains(x) <==> s.contains(x),
    decreases s.len(),
{
    if s.len() > 0 {
        lemma_dedup_contains(s.drop_last(), x);
        lemma_contains_snoc(s, x);
        let rest = dedup_of(s.drop_last());
        if !s.drop_last().contains(s.last()) {
            lemma_contains_push(rest, s.last(), x);
        }
    }
}

/// A deduplicated list holds no entry twice.
pub proof fn lemma_dedup_distinct(s: Seq<Seq<char>>)
    ensures
        forall|i: int, j: int|
            0 <= i < j < dedup_of(s).len() ==> dedup_of(s)[i] != dedup_of(s)[j],
    decreases s.len(),
{
    if s.len() > 0 {
        lemma_dedup_distinct(s.drop_last());
        let rest = dedup_of(s.drop_last());
        if !s.drop_last().contains(s.last()) {
            lemma_dedup_contains(s.drop_last(), s.last());
            assert(!rest.contains(s.last()));
            assert forall|i: int, j: int|
                0 <= i < j < dedup_of(s).len() implies dedup_of(s)[i] != dedup_of(s)[j] by {
                if j < rest.len() {
                } else {
                    assert(dedup_of(s)[j] == s.last());
                    assert(dedup_of(s)[i] == rest[i]);
                    if rest[i] == s.last() {
                        assert(rest.contains(s.last()));
                    }
                }
            }
        }
    }
}

/// An entry is in a non-empty list exactly when it is the last entry or in
/// the rest.
proof fn lemma_contains_snoc(s: Seq<Seq<char>>, x: Seq<char>)
    requires
        s.len() > 0,
    ensures
        s.contains(x) <==> (s.last() == x || s.drop_last().contains(x)),
{
    if s.contains(x) {
        let i = choose|i: int| 0 <= i < s.len() && s[i] == x;
        if i < s.len() - 1 {
            assert(s.drop_last()[i] == x);
        }
    }
    if s.drop_last().contains(x) {
        let i = choose|i: int| 0 <= i < s.drop_last().len() && s.drop_last()[i] == x;
        assert(s[i] == x);
    }
}

/// An entry is in a pushed list exactly when it is the pushed entry or was
/// there before.
proof fn lemma_contains_push(s: Seq<Seq<char>>, y: Seq<char>, x: Seq<char>)
    ensures
        s.push(y).contains(x) <==> (x == y || s.contains(x)),
{
    assert(s.push(y).last() == y);
    assert(s.push(y).drop_last() =~= s);
    lemma_contains_snoc(s.push(y), x);
}

/// The entries of `names` with later duplicates dropped: each entry keeps
/// its first occurrence only.
pub fn dedup_names(names: &Vec<String>) -> (r: Vec<String>)
    ensures
        r.deep_view() == dedup_of(names.deep_view()),
{
    let mut r: Vec<String> = Vec::new();
    let mut i: usize = 0;
    while i < names.len()
        invariant
            i <= names.len(),
            r.deep_view() =~= dedup_of(names.deep_view().take(i as int)),
        decreases names.len() - i,
    {
        let ghost cur = names.deep_view().take(i + 1);
        proof {
            assert(cur.drop_last() =~= names.deep_view().take(i as int));
            assert(cur.last() == names.deep_view()[i as int]);
            lemma_dedup_contains(names.deep_view().take(i as int), names.deep_view()[i as int]);
        }
        if !contains_name(&r, &names[i]) {
            r.push(names[i].clone());
        }
        i = i + 1;
    }
    proof {
        assert(names.deep_view().take(names.len() as int) =~= names.deep_view());
    }
    r
}

/// How many entries of `names` equal `name`.
pub fn count_name(names: &Vec<String>, name: &String) -> (r: usize)
    ensures
        r == count_of(names.deep_view(), name@),
{
    let mut i: usize = 0;
    let mut c: usize = 0;
    while i < names.len()
        invariant
            i <= names.len(),
            c == count_of(names.deep_view().take(i as int), name@),
            c <= i,
        decreases names.len() - i,
    {
        proof {
            assert(names.deep_view().take(i + 1).drop_last() =~= names.deep_view().take(i as int));
            assert(names.deep_view().take(i + 1).last() == names.deep_view()[i as int]);
        }
        if names[i].eq(name) {
            c = c + 1;
        }
        i = i + 1;
    }
    proof {
        assert(names.deep_view().take(names.len() as int) =~= names.deep_view());
    }
    c
}

/// For every entry of `a`, the two lists agree on that entry's count.
fn counts_cover(a: &Vec<String>, b: &Vec<String>) -> (r: bool)
    ensures
        r == forall|k: int|
            0 <= k < a.deep_view().len() ==> count_of(a.deep_view(), #[trigger] a.deep_view()[k])
                == count_of(b.deep_view(), a.deep_view()[k]),
{
    let mut i: usize = 0;
    while i < a.len()
        invariant
            i <= a.len(),
            forall|k: int|
                0 <= k < i ==> count_of(a.deep_view(), #[trigger] a.deep_view()[k]) == count_of(
                    b.deep_view(),
                    a.deep_view()[k],
                ),
        decreases a.len() - i,
    {
        let ca = count_name(a, &a[i]);
        let cb = count_name(b, &a[i]);
        proof {
            assert(a.deep_view()[i as int] == a[i as int]@);
        }
        if ca != cb {
            return false;
        }
        i = i + 1;
    }
    true
}

/// Whether two name lists hold the same entries the same number of times,
/// in any order.
pub fn same_name_entries(a: &Vec<String>, b: &Vec<String>) -> (r: bool)
    ensures
        r == same_entries(a.deep_view(), b.deep_view()),
{
    let fwd = counts_cover(a, b);
    let bwd = counts_cover(b, a);
    if fwd && bwd {
        proof {
            assert forall|x: Seq<char>|
                count_of(a.deep_view(), x) == count_of(b.deep_view(), x) by {
                lemma_count_contains(a.deep_view(), x);
                lemma_count_contains(b.deep_view(), x);
                if a.deep_view().contains(x) {
                    let k = choose|k: int|
                        0 <= k < a.deep_view().len() && a.deep_view()[k] == x;
                    assert(count_of(a.deep_view(), a.deep_view()[k]) == count_of(
                        b.deep_view(),
                        a.deep_view()[k],
                    ));
                } else if b.deep_view().contains(x) {
                    let k = choose|k: int|
                        0 <= k < b.deep_view().len() && b.deep_view()[k] == x;
                    assert(count_of(b.deep_view(), b.deep_view()[k]) == count_of(
                        a.deep_view(),
                        b.deep_view()[k],
                    ));
                }
            }
        }
        true
    } else {
        proof {
            if same_entries(a.deep_view(), b.deep_view()) {
                assert(forall|k: int|
                    0 <= k < a.deep_view().len() ==> count_of(
                        a.deep_view(),
                        #[trigger] a.deep_view()[k],
                    ) == count_of(b.deep_view(), a.deep_view()[k]));
                assert(forall|k: int|
                    0 <= k < b.deep_view().len() ==> count_of(
                        b.deep_view(),
                        #[trigger] b.deep_view()[k],
                    ) == count_of(a.deep_view(), b.deep_view()[k]));
            }
        }
        false
    }
}

} // verus!
