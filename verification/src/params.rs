//! Parameter lists: pairs of a key and a value, and their order by key.
use crate::text::{key_le, key_less};
use vstd::prelude::*;

verus! {

/// `e` put into `s` behind every entry whose key does not come after its own.
pub open spec fn insert_by_key(
    s: Seq<(Seq<char>, Seq<char>)>,
    e: (Seq<char>, Seq<char>),
) -> Seq<(Seq<char>, Seq<char>)>
    decreases s.len(),
{
    if s.len() == 0 {
        seq![e]
    } else if key_le(s.last().0, e.0) {
        s.push(e)
    } else {
        insert_by_key(s.drop_last(), e).push(s.last())
    }
}

/// The entries of `s` in ascending byte-wise order of their keys; entries with
/// the same key keep the order they had in `s`.
pub open spec fn sort_by_key(s: Seq<(Seq<char>, Seq<char>)>) -> Seq<(Seq<char>, Seq<char>)>
    decreases s.len(),
{
    if s.len() == 0 {
        s
    } else {
        insert_by_key(sort_by_key(s.drop_last()), s.last())
    }
}

/// No entry comes before one with a smaller key.
pub open spec fn sorted_by_key(s: Seq<(Seq<char>, Seq<char>)>) -> bool {
    forall|i: int, j: int| 0 <= i < j < s.len() ==> key_le(#[trigger] s[i].0, #[trigger] s[j].0)
}

/// No two entries have the same key.
pub open spec fn distinct_keys(s: Seq<(Seq<char>, Seq<char>)>) -> bool {
    forall|i: int, j: int| 0 <= i < j < s.len() ==> #[trigger] s[i].0 != #[trigger] s[j].0
}

/// Entries with the same key have the same value.
pub open spec fn keys_determine_values(s: Seq<(Seq<char>, Seq<char>)>) -> bool {
    forall|i: int, j: int|
        0 <= i < s.len() && 0 <= j < s.len() && #[trigger] s[i].0 == #[trigger] s[j].0 ==> s[i]
            == s[j]
}

/// Putting an entry into a list adds that entry and nothing else.
pub proof fn lemma_insert_by_key_multiset(s: Seq<(Seq<char>, Seq<char>)>, e: (Seq<char>, Seq<char>))
    ensures
        insert_by_key(s, e).to_multiset() == s.to_multiset().insert(e),
        insert_by_key(s, e).len() == s.len() + 1,
    decreases s.len(),
{
    broadcast use vstd::seq_lib::group_to_multiset_ensures;

    if s.len() == 0 {
    } else if key_le(s.last().0, e.0) {
    } else {
        lemma_insert_by_key_multiset(s.drop_last(), e);
        assert(s =~= s.drop_last().push(s.last()));
        assert(s.drop_last().to_multiset().insert(e).insert(s.last()) =~= s.drop_last().to_multiset().insert(
            s.last(),
        ).insert(e));
    }
}

/// Sorting keeps every entry, as often as it occurred.
pub proof fn lemma_sort_by_key_multiset(s: Seq<(Seq<char>, Seq<char>)>)
    ensures
        sort_by_key(s).to_multiset() == s.to_multiset(),
        sort_by_key(s).len() == s.len(),
    decreases s.len(),
{
    broadcast use vstd::seq_lib::group_to_multiset_ensures;

    if s.len() > 0 {
        lemma_sort_by_key_multiset(s.drop_last());
        lemma_insert_by_key_multiset(sort_by_key(s.drop_last()), s.last());
        assert(s =~= s.drop_last().push(s.last()));
    }
}

/// Putting an entry into a sorted list leaves it sorted.
pub proof fn lemma_insert_by_key_sorted(s: Seq<(Seq<char>, Seq<char>)>, e: (Seq<char>, Seq<char>))
    requires
        sorted_by_key(s),
    ensures
        sorted_by_key(insert_by_key(s, e)),
    decreases s.len(),
{
    broadcast use vstd::seq_lib::group_to_multiset_ensures;

    let r = insert_by_key(s, e);
    if s.len() == 0 {
    } else if key_le(s.last().0, e.0) {
        assert forall|i: int, j: int| 0 <= i < j < r.len() implies key_le(
            #[trigger] r[i].0,
            #[trigger] r[j].0,
        ) by {
            if j == s.len() {
                assert(key_le(s[i].0, s.last().0)) by {
                    if i < s.len() - 1 {
                    } else {
                        crate::order::lemma_key_lt_irreflexive(s[i].0);
                    }
                }
                crate::order::lemma_key_le_transitive(s[i].0, s.last().0, e.0);
            }
        }
    } else {
        let head = insert_by_key(s.drop_last(), e);
        assert(sorted_by_key(s.drop_last()));
        lemma_insert_by_key_sorted(s.drop_last(), e);
        lemma_insert_by_key_multiset(s.drop_last(), e);
        assert forall|i: int, j: int| 0 <= i < j < r.len() implies key_le(
            #[trigger] r[i].0,
            #[trigger] r[j].0,
        ) by {
            if j == head.len() {
                let x = head[i];
                assert(head.contains(x));
                assert(head.to_multiset().count(x) > 0);
                if x == e {
                    crate::order::lemma_key_le_total(e.0, s.last().0);
                } else {
                    assert(s.drop_last().to_multiset().count(x) > 0);
                    assert(s.drop_last().contains(x));
                    let k = choose|k: int| 0 <= k < s.drop_last().len() && s.drop_last()[k] == x;
                    assert(s[k] == x);
                    assert(key_le(s[k].0, s[s.len() - 1].0));
                }
            } else {
                assert(r[i] == head[i] && r[j] == head[j]);
            }
        }
    }
}

/// A sorted list is sorted.
pub proof fn lemma_sort_by_key_sorted(s: Seq<(Seq<char>, Seq<char>)>)
    ensures
        sorted_by_key(sort_by_key(s)),
    decreases s.len(),
{
    if s.len() > 0 {
        lemma_sort_by_key_sorted(s.drop_last());
        lemma_insert_by_key_sorted(sort_by_key(s.drop_last()), s.last());
    }
}

/// Two sorted lists with the same entries, in which a key determines its
/// value, are the same list.
pub proof fn lemma_sorted_unique(a: Seq<(Seq<char>, Seq<char>)>, b: Seq<(Seq<char>, Seq<char>)>)
    requires
        sorted_by_key(a),
        sorted_by_key(b),
        a.to_multiset() == b.to_multiset(),
        keys_determine_values(a),
    ensures
        a == b,
    decreases a.len(),
{
    broadcast use vstd::seq_lib::group_to_multiset_ensures;

    assert(a.len() == a.to_multiset().len());
    assert(b.len() == b.to_multiset().len());
    if a.len() == 0 {
        assert(a =~= b);
    } else {
        let n = a.len() as int;
        let x = a[n - 1];
        let y = b[n - 1];
        assert(a.contains(x));
        assert(b.to_multiset().count(x) > 0);
        assert(b.contains(x));
        let k = choose|k: int| 0 <= k < b.len() && b[k] == x;
        assert(b.contains(y));
        assert(a.to_multiset().count(y) > 0);
        assert(a.contains(y));
        let m = choose|m: int| 0 <= m < a.len() && a[m] == y;
        assert(key_le(x.0, y.0)) by {
            if k < n - 1 {
                assert(key_le(b[k].0, b[n - 1].0));
            } else {
                crate::order::lemma_key_lt_irreflexive(x.0);
            }
        }
        assert(key_le(y.0, x.0)) by {
            if m < n - 1 {
                assert(key_le(a[m].0, a[n - 1].0));
            } else {
                crate::order::lemma_key_lt_irreflexive(x.0);
            }
        }
        crate::order::lemma_key_le_antisymmetric(x.0, y.0);
        assert(a[m].0 == a[n - 1].0);
        assert(x == y);
        let a0 = a.drop_last();
        let b0 = b.drop_last();
        assert(a0 =~= a.remove(n - 1));
        assert(b0 =~= b.remove(n - 1));
        assert(a0.to_multiset() == b0.to_multiset());
        assert(sorted_by_key(a0)) by {
            assert forall|i: int, j: int| 0 <= i < j < a0.len() implies key_le(
                #[trigger] a0[i].0,
                #[trigger] a0[j].0,
            ) by {
                assert(key_le(a[i].0, a[j].0));
            }
        }
        assert(sorted_by_key(b0)) by {
            assert forall|i: int, j: int| 0 <= i < j < b0.len() implies key_le(
                #[trigger] b0[i].0,
                #[trigger] b0[j].0,
            ) by {
                assert(key_le(b[i].0, b[j].0));
            }
        }
        assert(keys_determine_values(a0)) by {
            assert forall|i: int, j: int|
                0 <= i < a0.len() && 0 <= j < a0.len() && #[trigger] a0[i].0
                    == #[trigger] a0[j].0 implies a0[i] == a0[j] by {
                assert(a[i].0 == a[j].0);
            }
        }
        lemma_sorted_unique(a0, b0);
        assert(a =~= a0.push(x));
        assert(b =~= b0.push(y));
    }
}

/// The sorted order does not depend on the order in which the entries came,
/// as long as entries with the same key have the same value.
pub proof fn lemma_sort_by_key_order_independent(
    a: Seq<(Seq<char>, Seq<char>)>,
    b: Seq<(Seq<char>, Seq<char>)>,
)
    requires
        a.to_multiset() == b.to_multiset(),
        keys_determine_values(a),
    ensures
        sort_by_key(a) == sort_by_key(b),
{
    broadcast use vstd::seq_lib::group_to_multiset_ensures;

    lemma_sort_by_key_multiset(a);
    lemma_sort_by_key_multiset(b);
    lemma_sort_by_key_sorted(a);
    lemma_sort_by_key_sorted(b);
    let sa = sort_by_key(a);
    assert(keys_determine_values(sa)) by {
        assert forall|i: int, j: int|
            0 <= i < sa.len() && 0 <= j < sa.len() && #[trigger] sa[i].0
                == #[trigger] sa[j].0 implies sa[i] == sa[j] by {
            assert(sa.contains(sa[i]));
            assert(sa.contains(sa[j]));
            assert(a.to_multiset().count(sa[i]) > 0);
            assert(a.to_multiset().count(sa[j]) > 0);
            assert(a.contains(sa[i]));
            assert(a.contains(sa[j]));
            let p = choose|p: int| 0 <= p < a.len() && a[p] == sa[i];
            let q = choose|q: int| 0 <= q < a.len() && a[q] == sa[j];
            assert(a[p].0 == a[q].0);
        }
    }
    lemma_sorted_unique(sa, sort_by_key(b));
}

/// A list with distinct keys holds no entry twice, and its keys determine
/// their values.
pub proof fn lemma_distinct_keys(s: Seq<(Seq<char>, Seq<char>)>)
    requires
        distinct_keys(s),
    ensures
        s.no_duplicates(),
        keys_determine_values(s),
{
    assert forall|i: int, j: int| 0 <= i < s.len() && 0 <= j < s.len() && i != j implies s[i]
        != s[j] by {
        if i < j {
            assert(s[i].0 != s[j].0);
        } else {
            assert(s[j].0 != s[i].0);
        }
    }
    assert forall|i: int, j: int|
        0 <= i < s.len() && 0 <= j < s.len() && #[trigger] s[i].0 == #[trigger] s[j].0 implies s[i]
            == s[j] by {
        if i < j {
            assert(s[i].0 != s[j].0);
        } else if j < i {
            assert(s[j].0 != s[i].0);
        }
    }
}

/// The sorted list holds an entry exactly if the list holds it.
pub proof fn lemma_sort_by_key_contains(s: Seq<(Seq<char>, Seq<char>)>, x: (Seq<char>, Seq<char>))
    ensures
        sort_by_key(s).contains(x) == s.contains(x),
{
    broadcast use vstd::seq_lib::group_to_multiset_ensures;

    lemma_sort_by_key_multiset(s);
    assert(s.contains(x) <==> s.to_multiset().count(x) > 0);
    assert(sort_by_key(s).contains(x) <==> sort_by_key(s).to_multiset().count(x) > 0);
}

/// Sorting a list with distinct keys gives a list with distinct keys.
pub proof fn lemma_sort_by_key_distinct(s: Seq<(Seq<char>, Seq<char>)>)
    requires
        distinct_keys(s),
    ensures
        distinct_keys(sort_by_key(s)),
{
    broadcast use vstd::seq_lib::group_to_multiset_ensures;

    let t = sort_by_key(s);
    lemma_distinct_keys(s);
    lemma_sort_by_key_multiset(s);
    s.lemma_multiset_has_no_duplicates();
    t.lemma_multiset_has_no_duplicates_conv();
    assert forall|i: int, j: int| 0 <= i < j < t.len() implies #[trigger] t[i].0
        != #[trigger] t[j].0 by {
        assert(t.contains(t[i]));
        assert(t.contains(t[j]));
        lemma_sort_by_key_contains(s, t[i]);
        lemma_sort_by_key_contains(s, t[j]);
        let a = choose|a: int| 0 <= a < s.len() && s[a] == t[i];
        let b = choose|b: int| 0 <= b < s.len() && s[b] == t[j];
        if t[i].0 == t[j].0 {
            assert(s[a].0 == s[b].0);
            assert(s[a] == s[b]);
            assert(t[i] != t[j]);
        }
    }
}

/// Sorting a list in which a key occurs twice gives a list in which a key
/// occurs twice.
pub proof fn lemma_sort_by_key_repeated(s: Seq<(Seq<char>, Seq<char>)>)
    requires
        !distinct_keys(s),
    ensures
        !distinct_keys(sort_by_key(s)),
{
    broadcast use vstd::seq_lib::group_to_multiset_ensures;

    let t = sort_by_key(s);
    lemma_sort_by_key_multiset(s);
    let (i, j) = choose|i: int, j: int| 0 <= i < j < s.len() && s[i].0 == s[j].0;
    assert(s.contains(s[i]));
    assert(s.contains(s[j]));
    lemma_sort_by_key_contains(s, s[i]);
    lemma_sort_by_key_contains(s, s[j]);
    if distinct_keys(t) {
        lemma_distinct_keys(t);
        let a = choose|a: int| 0 <= a < t.len() && t[a] == s[i];
        let b = choose|b: int| 0 <= b < t.len() && t[b] == s[j];
        if s[i] == s[j] {
            t.lemma_multiset_has_no_duplicates();
            s.lemma_multiset_has_no_duplicates_conv();
            assert(false);
        } else {
            assert(a != b);
            if a < b {
                assert(t[a].0 != t[b].0);
            } else {
                assert(t[b].0 != t[a].0);
            }
            assert(false);
        }
    }
}

/// A list with an entry put into it holds that entry and what it held.
pub proof fn lemma_insert_by_key_contains(
    s: Seq<(Seq<char>, Seq<char>)>,
    e: (Seq<char>, Seq<char>),
    x: (Seq<char>, Seq<char>),
)
    ensures
        insert_by_key(s, e).contains(x) == (s.contains(x) || x == e),
{
    broadcast use vstd::seq_lib::group_to_multiset_ensures;
    broadcast use vstd::multiset::group_multiset_axioms;

    lemma_insert_by_key_multiset(s, e);
    assert(s.contains(x) <==> s.to_multiset().count(x) > 0);
    assert(insert_by_key(s, e).contains(x) <==> insert_by_key(s, e).to_multiset().count(x) > 0);
}

/// Putting an entry with a new key into a list with distinct keys gives a
/// list with distinct keys.
pub proof fn lemma_insert_by_key_distinct(s: Seq<(Seq<char>, Seq<char>)>, e: (Seq<char>, Seq<char>))
    requires
        distinct_keys(s),
        forall|i: int| 0 <= i < s.len() ==> (#[trigger] s[i]).0 != e.0,
    ensures
        distinct_keys(insert_by_key(s, e)),
    decreases s.len(),
{
    let r = insert_by_key(s, e);
    lemma_insert_by_key_multiset(s, e);
    if s.len() == 0 {
    } else if key_le(s.last().0, e.0) {
        assert forall|i: int, j: int| 0 <= i < j < r.len() implies #[trigger] r[i].0
            != #[trigger] r[j].0 by {
            if j == s.len() {
                assert(s[i].0 != e.0);
            } else {
                assert(s[i].0 != s[j].0);
            }
        }
    } else {
        let head = insert_by_key(s.drop_last(), e);
        assert(distinct_keys(s.drop_last())) by {
            assert forall|i: int, j: int| 0 <= i < j < s.drop_last().len() implies (
            #[trigger] s.drop_last()[i]).0 != (#[trigger] s.drop_last()[j]).0 by {
                assert(s[i].0 != s[j].0);
            }
        }
        assert forall|i: int| 0 <= i < s.drop_last().len() implies (
        #[trigger] s.drop_last()[i]).0 != e.0 by {
            assert(s[i].0 != e.0);
        }
        lemma_insert_by_key_distinct(s.drop_last(), e);
        lemma_insert_by_key_multiset(s.drop_last(), e);
        assert forall|i: int, j: int| 0 <= i < j < r.len() implies #[trigger] r[i].0
            != #[trigger] r[j].0 by {
            if j == head.len() {
                assert(head.contains(head[i]));
                lemma_insert_by_key_contains(s.drop_last(), e, head[i]);
                if head[i] == e {
                    assert(s[s.len() - 1].0 != e.0);
                } else {
                    let k = choose|k: int|
                        0 <= k < s.drop_last().len() && s.drop_last()[k] == head[i];
                    assert(s[k].0 != s[s.len() - 1].0);
                }
            } else {
                assert(head[i].0 != head[j].0);
            }
        }
    }
}

/// Two lists without repeated entries that hold the same entries hold each
/// as often as the other.
pub proof fn lemma_same_entries(a: Seq<(Seq<char>, Seq<char>)>, b: Seq<(Seq<char>, Seq<char>)>)
    requires
        a.no_duplicates(),
        b.no_duplicates(),
        forall|x: (Seq<char>, Seq<char>)| a.contains(x) == b.contains(x),
    ensures
        a.to_multiset() == b.to_multiset(),
{
    broadcast use vstd::seq_lib::group_to_multiset_ensures;
    broadcast use vstd::multiset::group_multiset_axioms;

    a.lemma_multiset_has_no_duplicates();
    b.lemma_multiset_has_no_duplicates();
    assert forall|x: (Seq<char>, Seq<char>)| a.to_multiset().count(x) == b.to_multiset().count(
        x,
    ) by {
        assert(a.contains(x) <==> a.to_multiset().count(x) > 0);
        assert(b.contains(x) <==> b.to_multiset().count(x) > 0);
        assert(a.contains(x) == b.contains(x));
    }
    assert(a.to_multiset() =~= b.to_multiset());
}

/// Each entry written as its key, `sep` and its value.
pub open spec fn pair_lines(s: Seq<(Seq<char>, Seq<char>)>, sep: Seq<char>) -> Seq<Seq<char>> {
    Seq::new(s.len(), |i: int| s[i].0 + sep + s[i].1)
}

/// Writes each entry as its key, `sep` and its value.
pub fn pair_line_strings(v: &Vec<(String, String)>, sep: &str) -> (r: Vec<String>)
    ensures
        r.deep_view() == pair_lines(v.deep_view(), sep@),
{
    let mut out: Vec<String> = Vec::new();
    let mut i: usize = 0;
    while i < v.len()
        invariant
            i <= v.len(),
            out.len() == i,
            forall|j: int|
                0 <= j < i ==> #[trigger] out[j]@ == v.deep_view()[j].0 + sep@ + v.deep_view()[j].1,
        decreases v.len() - i,
    {
        let line = crate::text::concat3(v[i].0.as_str(), sep, v[i].1.as_str());
        out.push(line);
        i += 1;
    }
    assert(out.deep_view() =~= pair_lines(v.deep_view(), sep@));
    out
}

/// The entries of a list of borrowed keys and values.
pub open spec fn str_pairs(s: Seq<(&str, &str)>) -> Seq<(Seq<char>, Seq<char>)> {
    Seq::new(s.len(), |i: int| (s[i].0@, s[i].1@))
}

/// Appends copies of borrowed keys and values to a list.
pub fn push_str_pairs(list: &mut Vec<(String, String)>, more: &[(&str, &str)])
    ensures
        final(list).deep_view() == old(list).deep_view() + str_pairs(more@),
{
    let ghost start = list.deep_view();
    let mut i: usize = 0;
    while i < more.len()
        invariant
            i <= more.len(),
            list.deep_view() == start + str_pairs(more@).take(i as int),
        decreases more.len() - i,
    {
        let ghost before = list.deep_view();
        let entry = (String::from_str(more[i].0), String::from_str(more[i].1));
        list.push(entry);
        proof {
            assert(list.deep_view() =~= before.push((more@[i as int].0@, more@[i as int].1@)));
            assert(str_pairs(more@).take(i + 1) =~= str_pairs(more@).take(i as int).push(
                (more@[i as int].0@, more@[i as int].1@),
            ));
        }
        i += 1;
    }
    proof {
        assert(str_pairs(more@).take(more.len() as int) =~= str_pairs(more@));
    }
}

/// Copies one entry.
pub fn clone_pair(p: &(String, String)) -> (r: (String, String))
    ensures
        r.deep_view() == p.deep_view(),
{
    (p.0.clone(), p.1.clone())
}

/// Sorts the entries by key, in byte-wise order, keeping entries with the same
/// key in the order they came in.
pub fn sorted_pairs(v: &Vec<(String, String)>) -> (r: Vec<(String, String)>)
    ensures
        r.deep_view() == sort_by_key(v.deep_view()),
{
    let mut out: Vec<(String, String)> = Vec::new();
    let mut i: usize = 0;
    proof {
        assert(v.deep_view().take(0) =~= Seq::empty());
        assert(out.deep_view() =~= Seq::empty());
    }
    while i < v.len()
        invariant
            i <= v.len(),
            out.deep_view() == sort_by_key(v.deep_view().take(i as int)),
        decreases v.len() - i,
    {
        let e = clone_pair(&v[i]);
        let ghost before = out.deep_view();
        let ghost entry = e.deep_view();
        let mut j: usize = out.len();
        proof {
            assert(before.take(j as int) =~= before);
            assert(before.skip(j as int) =~= Seq::empty());
            assert(insert_by_key(before, entry) =~= insert_by_key(before.take(j as int), entry)
                + before.skip(j as int));
        }
        while j > 0 && key_less(e.0.as_str(), out[j - 1].0.as_str())
            invariant
                j <= out.len(),
                before == out.deep_view(),
                entry == e.deep_view(),
                insert_by_key(before, entry) == insert_by_key(before.take(j as int), entry)
                    + before.skip(j as int),
            decreases j,
        {
            proof {
                let head = before.take(j as int);
                assert(head.last() == before[j - 1]);
                assert(head.drop_last() =~= before.take(j - 1));
                assert(insert_by_key(head, entry) == insert_by_key(head.drop_last(), entry).push(
                    head.last(),
                ));
                assert(insert_by_key(head.drop_last(), entry).push(head.last()) + before.skip(
                    j as int,
                ) =~= insert_by_key(before.take(j - 1), entry) + before.skip(j - 1));
            }
            j -= 1;
        }
        proof {
            let head = before.take(j as int);
            if j > 0 {
                assert(head.last() == before[j - 1]);
            }
            assert(insert_by_key(head, entry) =~= head.push(entry));
        }
        out.insert(j, e);
        proof {
            assert(out.deep_view() =~= before.take(j as int).push(entry) + before.skip(j as int));
            let next = v.deep_view().take(i + 1);
            assert(next.drop_last() =~= v.deep_view().take(i as int));
            assert(next.last() == entry);
        }
        i += 1;
    }
    proof {
        assert(v.deep_view().take(v.len() as int) =~= v.deep_view());
    }
    out
}

/// Tells whether two neighbours of a sorted list have the same key.
pub fn sorted_has_repeated_key(v: &Vec<(String, String)>) -> (r: bool)
    requires
        sorted_by_key(v.deep_view()),
    ensures
        r == !distinct_keys(v.deep_view()),
{
    let mut i: usize = 1;
    while i < v.len()
        invariant
            1 <= i,
            sorted_by_key(v.deep_view()),
            forall|a: int, b: int|
                0 <= a < b < i && b < v.len() ==> #[trigger] v.deep_view()[a].0
                    != #[trigger] v.deep_view()[b].0,
        decreases v.len() - i,
    {
        if !key_less(v[i - 1].0.as_str(), v[i].0.as_str()) {
            proof {
                assert(v.deep_view()[i - 1].0 == v[i - 1].0@);
                assert(v.deep_view()[i as int].0 == v[i as int].0@);
                crate::order::lemma_key_le_antisymmetric(v[i - 1].0@, v[i as int].0@);
            }
            return true;
        }
        proof {
            let s = v.deep_view();
            assert forall|a: int| 0 <= a < i implies #[trigger] s[a].0 != s[i as int].0 by {
                if a < i - 1 {
                    assert(key_le(s[a].0, s[i - 1].0));
                    crate::order::lemma_key_lt_irreflexive(s[a].0);
                    crate::order::lemma_key_le_lt_transitive(s[a].0, s[i - 1].0, s[i as int].0);
                } else {
                    crate::order::lemma_key_lt_irreflexive(s[a].0);
                }
            }
        }
        i += 1;
    }
    false
}

} // verus!
