//! Stable sorting by an integer key, as a mathematical function on
//! sequences, together with the facts that make it a stable sort.

use vstd::prelude::*;

verus! {

/// Whether `s` is in non-decreasing order of `key`.
pub open spec fn sorted_by_key<T>(s: Seq<T>, key: spec_fn(T) -> int) -> bool {
    forall|i: int, j: int| 0 <= i <= j < s.len() ==> key(s[i]) <= key(s[j])
}

/// The test "has key `k`".
pub open spec fn has_key<T>(key: spec_fn(T) -> int, k: int) -> spec_fn(T) -> bool {
    |x: T| key(x) == k
}

/// Whether `r` rearranges `s` without changing the order among elements of
/// equal key: for every key, the elements that have it form the same
/// sequence in `r` as in `s`.
pub open spec fn keeps_ties_in_order<T>(r: Seq<T>, s: Seq<T>, key: spec_fn(T) -> int) -> bool {
    forall|k: int| #[trigger] r.filter(has_key(key, k)) == s.filter(has_key(key, k))
}

/// Where `x` enters `s`: right behind the last element whose key is not
/// greater than that of `x`, or in front if there is none.
pub open spec fn insertion_point<T>(s: Seq<T>, x: T, key: spec_fn(T) -> int) -> int
    decreases s.len(),
{
    if s.len() == 0 {
        0
    } else if key(s.last()) <= key(x) {
        s.len() as int
    } else {
        insertion_point(s.drop_last(), x, key)
    }
}

/// `s` with `x` entered at its insertion point.
pub open spec fn stable_insert<T>(s: Seq<T>, x: T, key: spec_fn(T) -> int) -> Seq<T> {
    s.insert(insertion_point(s, x, key), x)
}

/// `s` sorted by `key` in non-decreasing order, elements of equal key
/// staying in the order they had.
pub open spec fn stable_sort<T>(s: Seq<T>, key: spec_fn(T) -> int) -> Seq<T>
    decreases s.len(),
{
    if s.len() == 0 {
        s
    } else {
        stable_insert(stable_sort(s.drop_last(), key), s.last(), key)
    }
}

/// The insertion point lies within the sequence, everything behind it has a
/// greater key, and what stands right before it does not.
pub proof fn lemma_insertion_point<T>(s: Seq<T>, x: T, key: spec_fn(T) -> int)
    ensures
        0 <= insertion_point(s, x, key) <= s.len(),
        forall|i: int| insertion_point(s, x, key) <= i < s.len() ==> key(#[trigger] s[i]) > key(x),
        insertion_point(s, x, key) > 0 ==> key(s[insertion_point(s, x, key) - 1]) <= key(x),
    decreases s.len(),
{
    if s.len() > 0 && key(s.last()) > key(x) {
        let front = s.drop_last();
        lemma_insertion_point(front, x, key);
        assert forall|i: int| insertion_point(s, x, key) <= i < s.len() implies key(
            #[trigger] s[i],
        ) > key(x) by {
            if i < front.len() {
                assert(s[i] == front[i]);
            }
        }
    }
}

/// Entering an element into a sorted sequence leaves it sorted.
pub proof fn lemma_stable_insert_sorted<T>(s: Seq<T>, x: T, key: spec_fn(T) -> int)
    requires
        sorted_by_key(s, key),
    ensures
        sorted_by_key(stable_insert(s, x, key), key),
{
    let p = insertion_point(s, x, key);
    let r = stable_insert(s, x, key);
    lemma_insertion_point(s, x, key);
    s.insert_ensures(p, x);
    assert forall|i: int, j: int| 0 <= i <= j < r.len() implies key(r[i]) <= key(r[j]) by {
        if i < p {
            assert(r[i] == s[i]);
            assert(key(s[i]) <= key(s[p - 1]));
        } else if i > p {
            assert(r[i] == s[i - 1]);
        }
        if j < p {
            assert(r[j] == s[j]);
        } else if j > p {
            assert(r[j] == s[j - 1]);
        }
    }
}

/// Entering an element adds it to the elements of its own key, at their
/// end, and leaves the elements of every other key as they were.
pub proof fn lemma_stable_insert_ties<T>(s: Seq<T>, x: T, key: spec_fn(T) -> int, k: int)
    ensures
        stable_insert(s, x, key).filter(has_key(key, k)) == if key(x) == k {
            s.filter(has_key(key, k)).push(x)
        } else {
            s.filter(has_key(key, k))
        },
{
    let p = insertion_point(s, x, key);
    let pred = has_key(key, k);
    let front = s.subrange(0, p);
    let back = s.subrange(p, s.len() as int);
    lemma_insertion_point(s, x, key);
    assert(s == front + back);
    Seq::filter_distributes_over_add(front, back, pred);
    Seq::filter_distributes_over_add(front.push(x), back, pred);
    front.lemma_filter_push(x, pred);
    if key(x) == k {
        assert(back.all(|y: T| !pred(y))) by {
            assert forall|i: int| 0 <= i < back.len() implies !pred(#[trigger] back[i]) by {
                assert(back[i] == s[p + i]);
            }
        }
        back.lemma_all_neg_filter_empty(pred);
        assert(back.filter(pred) == Seq::<T>::empty());
        assert(front.filter(pred) + back.filter(pred) == front.filter(pred));
        assert(front.filter(pred).push(x) + back.filter(pred) == front.filter(pred).push(x));
    }
}

/// Entering an element adds exactly that element.
pub proof fn lemma_stable_insert_elements<T>(s: Seq<T>, x: T, key: spec_fn(T) -> int)
    ensures
        stable_insert(s, x, key).len() == s.len() + 1,
        stable_insert(s, x, key).to_multiset() == s.to_multiset().insert(x),
{
    lemma_insertion_point(s, x, key);
    s.insert_ensures(insertion_point(s, x, key), x);
    vstd::seq_lib::to_multiset_insert(s, insertion_point(s, x, key), x);
}

/// A stable sort is in non-decreasing order of the key.
pub proof fn lemma_stable_sort_sorted<T>(s: Seq<T>, key: spec_fn(T) -> int)
    ensures
        sorted_by_key(stable_sort(s, key), key),
    decreases s.len(),
{
    if s.len() > 0 {
        lemma_stable_sort_sorted(s.drop_last(), key);
        lemma_stable_insert_sorted(stable_sort(s.drop_last(), key), s.last(), key);
    }
}

/// A stable sort holds the same elements, each as often as before.
pub proof fn lemma_stable_sort_elements<T>(s: Seq<T>, key: spec_fn(T) -> int)
    ensures
        stable_sort(s, key).len() == s.len(),
        stable_sort(s, key).to_multiset() == s.to_multiset(),
    decreases s.len(),
{
    if s.len() > 0 {
        lemma_stable_sort_elements(s.drop_last(), key);
        lemma_stable_insert_elements(stable_sort(s.drop_last(), key), s.last(), key);
        assert(s == s.drop_last().push(s.last()));
        vstd::seq_lib::to_multiset_build(s.drop_last(), s.last());
    }
}

/// A stable sort keeps elements of equal key in the order they had.
pub proof fn lemma_stable_sort_ties<T>(s: Seq<T>, key: spec_fn(T) -> int)
    ensures
        keeps_ties_in_order(stable_sort(s, key), s, key),
    decreases s.len(),
{
    if s.len() > 0 {
        lemma_stable_sort_ties(s.drop_last(), key);
        assert forall|k: int| #[trigger]
            stable_sort(s, key).filter(has_key(key, k)) == s.filter(has_key(key, k)) by {
            lemma_stable_insert_ties(stable_sort(s.drop_last(), key), s.last(), key, k);
            assert(s == s.drop_last().push(s.last()));
            s.drop_last().lemma_filter_push(s.last(), has_key(key, k));
        }
    }
}

/// Sorting a sequence that is already in order changes nothing.
pub proof fn lemma_stable_sort_of_sorted<T>(s: Seq<T>, key: spec_fn(T) -> int)
    requires
        sorted_by_key(s, key),
    ensures
        stable_sort(s, key) == s,
    decreases s.len(),
{
    if s.len() > 0 {
        let front = s.drop_last();
        lemma_stable_sort_of_sorted(front, key);
        if front.len() > 0 {
            assert(front.last() == s[s.len() - 2]);
            assert(key(front.last()) <= key(s.last()));
        }
        assert(insertion_point(front, s.last(), key) == front.len());
        assert(front.insert(front.len() as int, s.last()) == s);
    }
}

/// Sorting twice gives what sorting once gives.
pub proof fn lemma_stable_sort_idempotent<T>(s: Seq<T>, key: spec_fn(T) -> int)
    ensures
        stable_sort(stable_sort(s, key), key) == stable_sort(s, key),
{
    lemma_stable_sort_sorted(s, key);
    lemma_stable_sort_of_sorted(stable_sort(s, key), key);
}

/// Where some element of `s` has key `k`, the elements of key `k` are not
/// none.
proof fn lemma_key_present<T>(s: Seq<T>, key: spec_fn(T) -> int, i: int)
    requires
        0 <= i < s.len(),
    ensures
        s.filter(has_key(key, key(s[i]))).len() > 0,
{
    let pred = has_key(key, key(s[i]));
    assert(pred(s[i]));
    s.lemma_filter_contains(pred, i);
}

/// Where the elements of key `k` are not none, some element of `s` has
/// key `k`.
proof fn lemma_key_witness<T>(s: Seq<T>, key: spec_fn(T) -> int, k: int) -> (i: int)
    requires
        s.filter(has_key(key, k)).len() > 0,
    ensures
        0 <= i < s.len(),
        key(s[i]) == k,
{
    let pred = has_key(key, k);
    let x = s.filter(pred)[0];
    s.lemma_filter_pred(pred, 0);
    assert(s.filter(pred).contains(x));
    s.lemma_filter_contains_rev(pred, x);
    choose|i: int| 0 <= i < s.len() && s[i] == x
}

/// Two sorted sequences with the same ties, in the same order, are equal.
pub proof fn lemma_sorted_with_same_ties<T>(r: Seq<T>, t: Seq<T>, key: spec_fn(T) -> int)
    requires
        sorted_by_key(r, key),
        sorted_by_key(t, key),
        keeps_ties_in_order(r, t, key),
    ensures
        r == t,
    decreases r.len(),
{
    if r.len() == 0 {
        if t.len() > 0 {
            lemma_key_present(t, key, 0);
            let k = key(t[0]);
            assert(r.filter(has_key(key, k)) == t.filter(has_key(key, k)));
            r.lemma_filter_len(has_key(key, k));
        }
        assert(r =~= t);
    } else {
        let x = r.last();
        let k = key(x);
        assert(r.filter(has_key(key, k)) == t.filter(has_key(key, k)));
        lemma_key_present(r, key, r.len() - 1);
        let i = lemma_key_witness(t, key, k);
        let y = t.last();
        let ky = key(y);
        assert(r.filter(has_key(key, ky)) == t.filter(has_key(key, ky)));
        lemma_key_present(t, key, t.len() - 1);
        let j = lemma_key_witness(r, key, ky);
        assert(key(t[i]) <= key(t[t.len() - 1]));
        assert(key(r[j]) <= key(r[r.len() - 1]));
        assert(k == ky);
        let front_r = r.drop_last();
        let front_t = t.drop_last();
        assert(r == front_r.push(x));
        assert(t == front_t.push(y));
        front_r.lemma_filter_push(x, has_key(key, k));
        front_t.lemma_filter_push(y, has_key(key, k));
        assert((has_key(key, k))(x) && (has_key(key, k))(y));
        assert(x == y) by {
            assert(front_r.filter(has_key(key, k)).push(x).last() == x);
            assert(front_t.filter(has_key(key, k)).push(y).last() == y);
        }
        assert forall|k2: int| #[trigger]
            front_r.filter(has_key(key, k2)) == front_t.filter(has_key(key, k2)) by {
            let pred = has_key(key, k2);
            assert(r.filter(pred) == t.filter(pred));
            front_r.lemma_filter_push(x, pred);
            front_t.lemma_filter_push(y, pred);
            if pred(x) {
                assert(front_r.filter(pred).push(x).drop_last() == front_r.filter(pred));
                assert(front_t.filter(pred).push(x).drop_last() == front_t.filter(pred));
            }
        }
        assert(sorted_by_key(front_r, key)) by {
            assert forall|a: int, b: int| 0 <= a <= b < front_r.len() implies key(front_r[a])
                <= key(front_r[b]) by {
                assert(front_r[a] == r[a] && front_r[b] == r[b]);
            }
        }
        assert(sorted_by_key(front_t, key)) by {
            assert forall|a: int, b: int| 0 <= a <= b < front_t.len() implies key(front_t[a])
                <= key(front_t[b]) by {
                assert(front_t[a] == t[a] && front_t[b] == t[b]);
            }
        }
        lemma_sorted_with_same_ties(front_r, front_t, key);
    }
}

/// Being in order of the key and keeping the ties of `s` in order leaves
/// one sequence only: the stable sort of `s`.
pub proof fn lemma_stable_sort_unique<T>(r: Seq<T>, s: Seq<T>, key: spec_fn(T) -> int)
    requires
        sorted_by_key(r, key),
        keeps_ties_in_order(r, s, key),
    ensures
        r == stable_sort(s, key),
{
    let t = stable_sort(s, key);
    lemma_stable_sort_sorted(s, key);
    lemma_stable_sort_ties(s, key);
    assert forall|k: int| #[trigger] r.filter(has_key(key, k)) == t.filter(has_key(key, k)) by {
        assert(r.filter(has_key(key, k)) == s.filter(has_key(key, k)));
        assert(t.filter(has_key(key, k)) == s.filter(has_key(key, k)));
    }
    lemma_sorted_with_same_ties(r, t, key);
}

} // verus!
