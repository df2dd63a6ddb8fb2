//! What `sort` promises: its output holds the same items, as many times
//! each, in ascending order; integers by value, texts by code point.
use vstd::prelude::*;
use crate::semantics::{insert_sorted, sort_ints, text_lt, insert_text_sorted, sort_texts};

verus! {

broadcast use vstd::seq_lib::group_to_multiset_ensures;

/// Each item is at most every item after it.
pub open spec fn ints_ascending(s: Seq<i64>) -> bool {
    forall|i: int, j: int| 0 <= i <= j < s.len() ==> s[i] <= s[j]
}

proof fn lemma_insert_sorted(s: Seq<i64>, x: i64)
    requires
        ints_ascending(s),
    ensures
        ints_ascending(insert_sorted(s, x)),
        insert_sorted(s, x).to_multiset() =~= s.to_multiset().insert(x),
        forall|j: int| 0 <= j < insert_sorted(s, x).len() ==>
            #[trigger] insert_sorted(s, x)[j] == x || s.contains(insert_sorted(s, x)[j]),
    decreases s.len(),
{
    broadcast use vstd::seq_lib::lemma_multiset_commutative;
    broadcast use vstd::multiset::group_multiset_axioms;
    let r = insert_sorted(s, x);
    if s.len() == 0 {
        assert(r =~= seq![x]);
        assert(seq![x] =~= Seq::<i64>::empty().push(x));
        vstd::seq_lib::to_multiset_build(Seq::<i64>::empty(), x);
    } else if x <= s[0] {
        assert(r =~= seq![x] + s);
        assert(seq![x] =~= Seq::<i64>::empty().push(x));
        vstd::seq_lib::to_multiset_build(Seq::<i64>::empty(), x);
        vstd::seq_lib::lemma_multiset_commutative(seq![x], s);
        assert forall|i: int, j: int| 0 <= i <= j < r.len() implies r[i] <= r[j] by {
            if i > 0 {
                assert(r[i] == s[i - 1] && r[j] == s[j - 1]);
            } else if j > 0 {
                assert(r[j] == s[j - 1]);
                assert(s[0] <= s[j - 1]);
            }
        }
        assert forall|j: int| 0 <= j < r.len() implies #[trigger] r[j] == x || s.contains(r[j]) by {
            if j > 0 {
                assert(r[j] == s[j - 1]);
            }
        }
    } else {
        let d = s.drop_first();
        let t = insert_sorted(d, x);
        assert(ints_ascending(d)) by {
            assert forall|i: int, j: int| 0 <= i <= j < d.len() implies d[i] <= d[j] by {
                assert(d[i] == s[i + 1] && d[j] == s[j + 1]);
            }
        }
        lemma_insert_sorted(d, x);
        assert(r =~= seq![s[0]] + t);
        assert(s =~= seq![s[0]] + d);
        assert(seq![s[0]] =~= Seq::<i64>::empty().push(s[0]));
        vstd::seq_lib::to_multiset_build(Seq::<i64>::empty(), s[0]);
        vstd::seq_lib::lemma_multiset_commutative(seq![s[0]], t);
        vstd::seq_lib::lemma_multiset_commutative(seq![s[0]], d);
        assert forall|j: int| 0 <= j < t.len() implies s[0] <= #[trigger] t[j] by {
            if t[j] != x {
                assert(d.contains(t[j]));
                let k = choose|k: int| 0 <= k < d.len() && d[k] == t[j];
                assert(d[k] == s[k + 1]);
            }
        }
        assert forall|i: int, j: int| 0 <= i <= j < r.len() implies r[i] <= r[j] by {
            if i > 0 {
                assert(r[i] == t[i - 1] && r[j] == t[j - 1]);
            } else if j > 0 {
                assert(r[j] == t[j - 1]);
            }
        }
        assert forall|j: int| 0 <= j < r.len() implies #[trigger] r[j] == x || s.contains(r[j]) by {
            if j == 0 {
                assert(s[0] == r[0]);
            } else {
                assert(r[j] == t[j - 1]);
                if r[j] != x {
                    assert(d.contains(r[j]));
                    let k = choose|k: int| 0 <= k < d.len() && d[k] == r[j];
                    assert(s[k + 1] == r[j]);
                }
            }
        }
    }
}

/// `sort` on integers gives the same items, each as often, in ascending
/// order.
pub proof fn lemma_sort_ints_sorts(s: Seq<i64>)
    ensures
        ints_ascending(sort_ints(s)),
        sort_ints(s).to_multiset() =~= s.to_multiset(),
    decreases s.len(),
{
    if s.len() > 0 {
        lemma_sort_ints_sorts(s.drop_last());
        lemma_insert_sorted(sort_ints(s.drop_last()), s.last());
        assert(s =~= s.drop_last().push(s.last()));
        vstd::seq_lib::to_multiset_build(s.drop_last(), s.last());
    }
}

/// No text comes before itself, and of two different texts one comes
/// before the other, never both.
pub proof fn lemma_text_lt_total(a: Seq<char>, b: Seq<char>)
    ensures
        !text_lt(a, a),
        !(text_lt(a, b) && text_lt(b, a)),
        a != b ==> text_lt(a, b) || text_lt(b, a),
    decreases a.len(),
{
    if a.len() > 0 {
        lemma_text_lt_total(a.drop_first(), a.drop_first());
    }
    if a.len() > 0 && b.len() > 0 {
        lemma_text_lt_total(a.drop_first(), b.drop_first());
        if a[0] == b[0] && a != b {
            assert(a.drop_first() != b.drop_first()) by {
                if a.drop_first() == b.drop_first() {
                    assert(a =~= seq![a[0]] + a.drop_first());
                    assert(b =~= seq![b[0]] + b.drop_first());
                }
            }
        }
        if a[0] != b[0] {
            let x = a[0];
            let y = b[0];
            assert(x < y || y < x);
        }
    } else if a.len() == 0 && b.len() == 0 {
        assert(a =~= b);
    }
}

/// Coming before is transitive.
pub proof fn lemma_text_lt_trans(a: Seq<char>, b: Seq<char>, c: Seq<char>)
    requires
        text_lt(a, b),
        text_lt(b, c),
    ensures
        text_lt(a, c),
    decreases a.len(),
{
    if a.len() > 0 && b.len() > 0 && c.len() > 0 && a[0] == b[0] && b[0] == c[0] {
        lemma_text_lt_trans(a.drop_first(), b.drop_first(), c.drop_first());
    }
}

/// Not coming after is transitive.
proof fn lemma_text_le_trans(a: Seq<char>, b: Seq<char>, c: Seq<char>)
    requires
        !text_lt(b, a),
        !text_lt(c, b),
    ensures
        !text_lt(c, a),
{
    lemma_text_lt_total(a, b);
    lemma_text_lt_total(b, c);
    if text_lt(c, a) {
        if a == b {
        } else {
            lemma_text_lt_trans(c, a, b);
        }
    }
}

/// Each text comes after none of the texts that follow it.
pub open spec fn texts_ascending(s: Seq<Seq<char>>) -> bool {
    forall|i: int, j: int| 0 <= i <= j < s.len() ==> !text_lt(s[j], s[i])
}

proof fn lemma_insert_text_sorted(s: Seq<Seq<char>>, x: Seq<char>)
    requires
        texts_ascending(s),
    ensures
        texts_ascending(insert_text_sorted(s, x)),
        insert_text_sorted(s, x).to_multiset() =~= s.to_multiset().insert(x),
        forall|j: int| 0 <= j < insert_text_sorted(s, x).len() ==>
            #[trigger] insert_text_sorted(s, x)[j] == x || s.contains(insert_text_sorted(s, x)[j]),
    decreases s.len(),
{
    broadcast use vstd::seq_lib::lemma_multiset_commutative;
    broadcast use vstd::multiset::group_multiset_axioms;
    let r = insert_text_sorted(s, x);
    lemma_text_lt_total(x, x);
    if s.len() == 0 {
        assert(r =~= seq![x]);
        assert(seq![x] =~= Seq::<Seq<char>>::empty().push(x));
        vstd::seq_lib::to_multiset_build(Seq::<Seq<char>>::empty(), x);
    } else if !text_lt(s[0], x) {
        assert(r =~= seq![x] + s);
        assert(seq![x] =~= Seq::<Seq<char>>::empty().push(x));
        vstd::seq_lib::to_multiset_build(Seq::<Seq<char>>::empty(), x);
        vstd::seq_lib::lemma_multiset_commutative(seq![x], s);
        assert forall|i: int, j: int| 0 <= i <= j < r.len() implies !text_lt(r[j], r[i]) by {
            if i > 0 {
                assert(r[i] == s[i - 1] && r[j] == s[j - 1]);
            } else if j > 0 {
                assert(r[j] == s[j - 1]);
                lemma_text_le_trans(x, s[0], s[j - 1]);
            }
        }
        assert forall|j: int| 0 <= j < r.len() implies #[trigger] r[j] == x || s.contains(r[j]) by {
            if j > 0 {
                assert(r[j] == s[j - 1]);
            }
        }
    } else {
        let d = s.drop_first();
        let t = insert_text_sorted(d, x);
        assert(texts_ascending(d)) by {
            assert forall|i: int, j: int| 0 <= i <= j < d.len() implies !text_lt(d[j], d[i]) by {
                assert(d[i] == s[i + 1] && d[j] == s[j + 1]);
            }
        }
        lemma_insert_text_sorted(d, x);
        assert(r =~= seq![s[0]] + t);
        assert(s =~= seq![s[0]] + d);
        assert(seq![s[0]] =~= Seq::<Seq<char>>::empty().push(s[0]));
        vstd::seq_lib::to_multiset_build(Seq::<Seq<char>>::empty(), s[0]);
        vstd::seq_lib::lemma_multiset_commutative(seq![s[0]], t);
        vstd::seq_lib::lemma_multiset_commutative(seq![s[0]], d);
        lemma_text_lt_total(s[0], x);
        assert forall|j: int| 0 <= j < t.len() implies !text_lt(#[trigger] t[j], s[0]) by {
            if t[j] != x {
                assert(d.contains(t[j]));
                let k = choose|k: int| 0 <= k < d.len() && d[k] == t[j];
                assert(d[k] == s[k + 1]);
            }
        }
        assert forall|i: int, j: int| 0 <= i <= j < r.len() implies !text_lt(r[j], r[i]) by {
            if i > 0 {
                assert(r[i] == t[i - 1] && r[j] == t[j - 1]);
            } else if j > 0 {
                assert(r[j] == t[j - 1]);
            } else {
                lemma_text_lt_total(r[0], r[0]);
            }
        }
        assert forall|j: int| 0 <= j < r.len() implies #[trigger] r[j] == x || s.contains(r[j]) by {
            if j == 0 {
                assert(s[0] == r[0]);
            } else {
                assert(r[j] == t[j - 1]);
                if r[j] != x {
                    assert(d.contains(r[j]));
                    let k = choose|k: int| 0 <= k < d.len() && d[k] == r[j];
                    assert(s[k + 1] == r[j]);
                }
            }
        }
    }
}

/// `sort` on texts gives the same texts, each as often, in code-point order.
pub proof fn lemma_sort_texts_sorts(s: Seq<Seq<char>>)
    ensures
        texts_ascending(sort_texts(s)),
        sort_texts(s).to_multiset() =~= s.to_multiset(),
    decreases s.len(),
{
    if s.len() > 0 {
        lemma_sort_texts_sorts(s.drop_last());
        lemma_insert_text_sorted(sort_texts(s.drop_last()), s.last());
        assert(s =~= s.drop_last().push(s.last()));
        vstd::seq_lib::to_multiset_build(s.drop_last(), s.last());
    }
}

} // verus!
