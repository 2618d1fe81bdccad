//! Ordering items newest first by a date text, stably: items with equal
//! dates keep their relative order.
use vstd::prelude::*;
use crate::text::{text_less, lemma_text_less_total, lemma_text_less_transitive, lemma_text_less_asymmetric};

verus! {

/// `x` put into `sorted` before the first item with an older date, that is,
/// after every item at least as new as `x`.
pub open spec fn insert_newest<T>(sorted: Seq<T>, x: T, date: spec_fn(T) -> Seq<char>) -> Seq<T>
    decreases sorted.len(),
{
    if sorted.len() == 0 {
        seq![x]
    } else if text_less(date(sorted[0]), date(x)) {
        seq![x] + sorted
    } else {
        seq![sorted[0]] + insert_newest(sorted.drop_first(), x, date)
    }
}

/// The stable newest-first ordering of `s`: what a stable sort gives under a
/// comparator that puts later dates first.
pub open spec fn newest_first<T>(s: Seq<T>, date: spec_fn(T) -> Seq<char>) -> Seq<T>
    decreases s.len(),
{
    if s.len() == 0 {
        s
    } else {
        insert_newest(newest_first(s.drop_last(), date), s.last(), date)
    }
}

/// No item is older than an item after it.
pub open spec fn is_newest_first<T>(s: Seq<T>, date: spec_fn(T) -> Seq<char>) -> bool {
    forall|i: int, j: int| 0 <= i < j < s.len() ==> !text_less(#[trigger] date(s[i]), #[trigger] date(s[j]))
}

/// Inserting at the first position whose item is older than `x`.
pub proof fn lemma_insert_at<T>(sorted: Seq<T>, x: T, date: spec_fn(T) -> Seq<char>, p: int)
    requires
        0 <= p <= sorted.len(),
        forall|i: int| 0 <= i < p ==> !text_less(#[trigger] date(sorted[i]), date(x)),
        p < sorted.len() ==> text_less(date(sorted[p]), date(x)),
    ensures
        insert_newest(sorted, x, date) == sorted.insert(p, x),
    decreases p,
{
    if p == 0 {
        if sorted.len() == 0 {
            assert(sorted.insert(0, x) =~= seq![x]);
        } else {
            assert(sorted.insert(0, x) =~= seq![x] + sorted);
        }
    } else {
        assert(!text_less(date(sorted[0]), date(x)));
        let tail = sorted.drop_first();
        assert forall|i: int| 0 <= i < p - 1 implies !text_less(#[trigger] date(tail[i]), date(x)) by {
            assert(tail[i] == sorted[i + 1]);
        }
        lemma_insert_at(tail, x, date, p - 1);
        assert(seq![sorted[0]] + tail.insert(p - 1, x) =~= sorted.insert(p, x));
    }
}

/// Inserting keeps the length plus one.
pub proof fn lemma_insert_newest_len<T>(sorted: Seq<T>, x: T, date: spec_fn(T) -> Seq<char>)
    ensures
        insert_newest(sorted, x, date).len() == sorted.len() + 1,
    decreases sorted.len(),
{
    if sorted.len() > 0 && !text_less(date(sorted[0]), date(x)) {
        lemma_insert_newest_len(sorted.drop_first(), x, date);
    }
}

/// Ordering keeps the length.
pub proof fn lemma_newest_first_len<T>(s: Seq<T>, date: spec_fn(T) -> Seq<char>)
    ensures
        newest_first(s, date).len() == s.len(),
    decreases s.len(),
{
    if s.len() > 0 {
        lemma_newest_first_len(s.drop_last(), date);
        lemma_insert_newest_len(newest_first(s.drop_last(), date), s.last(), date);
    }
}

/// Inserting keeps the items, plus `x`.
pub proof fn lemma_insert_newest_items<T>(sorted: Seq<T>, x: T, date: spec_fn(T) -> Seq<char>)
    ensures
        insert_newest(sorted, x, date).to_multiset() == sorted.to_multiset().insert(x),
    decreases sorted.len(),
{
    broadcast use vstd::seq_lib::group_to_multiset_ensures;

    if sorted.len() == 0 {
        assert(seq![x] =~= Seq::<T>::empty().push(x));
    } else if text_less(date(sorted[0]), date(x)) {
        vstd::seq_lib::lemma_multiset_commutative(seq![x], sorted);
        assert(seq![x] =~= Seq::<T>::empty().push(x));
    } else {
        let tail = sorted.drop_first();
        lemma_insert_newest_items(tail, x, date);
        vstd::seq_lib::lemma_multiset_commutative(seq![sorted[0]], insert_newest(tail, x, date));
        vstd::seq_lib::lemma_multiset_commutative(seq![sorted[0]], tail);
        assert(seq![sorted[0]] + tail =~= sorted);
        assert(seq![sorted[0]] =~= Seq::<T>::empty().push(sorted[0]));
    }
}

/// Ordering newest first is a rearrangement: the same items, as often.
pub proof fn lemma_newest_first_items<T>(s: Seq<T>, date: spec_fn(T) -> Seq<char>)
    ensures
        newest_first(s, date).to_multiset() == s.to_multiset(),
    decreases s.len(),
{
    broadcast use vstd::seq_lib::group_to_multiset_ensures;

    if s.len() > 0 {
        lemma_newest_first_items(s.drop_last(), date);
        lemma_insert_newest_items(newest_first(s.drop_last(), date), s.last(), date);
        assert(s.drop_last().push(s.last()) =~= s);
    }
}

/// Inserting into a newest-first sequence keeps it newest first.
pub proof fn lemma_insert_newest_sorted<T>(sorted: Seq<T>, x: T, date: spec_fn(T) -> Seq<char>)
    requires
        is_newest_first(sorted, date),
    ensures
        is_newest_first(insert_newest(sorted, x, date), date),
        forall|i: int| 0 <= i < sorted.len() ==> #[trigger] insert_newest(sorted, x, date).contains(sorted[i]),
        insert_newest(sorted, x, date).contains(x),
    decreases sorted.len(),
{
    let r = insert_newest(sorted, x, date);
    lemma_insert_newest_len(sorted, x, date);
    if sorted.len() == 0 {
        assert(r[0] == x);
    } else if text_less(date(sorted[0]), date(x)) {
        assert(r =~= seq![x] + sorted);
        assert forall|i: int, j: int| 0 <= i < j < r.len() implies !text_less(#[trigger] date(r[i]), #[trigger] date(r[j])) by {
            if i == 0 {
                // date(sorted[0]) < date(x), and sorted[j-1] is no newer than sorted[0]
                let a = date(sorted[0]);
                let b = date(sorted[j - 1]);
                lemma_text_less_total(a, b);
                lemma_text_less_transitive(b, a, date(x));
                lemma_text_less_asymmetric(b, date(x));
                lemma_text_less_asymmetric(a, date(x));
                assert(r[j] == sorted[j - 1]);
                if j - 1 > 0 {
                    assert(!text_less(date(sorted[0]), date(sorted[j - 1])));
                }
            } else {
                assert(r[i] == sorted[i - 1]);
                assert(r[j] == sorted[j - 1]);
            }
        }
        assert forall|i: int| 0 <= i < sorted.len() implies #[trigger] r.contains(sorted[i]) by {
            assert(r[i + 1] == sorted[i]);
        }
        assert(r[0] == x);
    } else {
        let tail = sorted.drop_first();
        assert forall|i: int, j: int| 0 <= i < j < tail.len() implies !text_less(#[trigger] date(tail[i]), #[trigger] date(tail[j])) by {
            assert(tail[i] == sorted[i + 1] && tail[j] == sorted[j + 1]);
        }
        lemma_insert_newest_sorted(tail, x, date);
        let rt = insert_newest(tail, x, date);
        lemma_insert_newest_len(tail, x, date);
        assert(r =~= seq![sorted[0]] + rt);
        assert forall|i: int, j: int| 0 <= i < j < r.len() implies !text_less(#[trigger] date(r[i]), #[trigger] date(r[j])) by {
            if i == 0 {
                assert(r[j] == rt[j - 1]);
                assert(rt.contains(rt[j - 1]));
                // rt[j-1] is x or an item of tail
                if rt[j - 1] == x {
                } else {
                    assert(rt.to_multiset() == tail.to_multiset().insert(x)) by {
                        lemma_insert_newest_items(tail, x, date);
                    }
                    assert(rt.to_multiset().count(rt[j - 1]) > 0) by {
                        broadcast use vstd::seq_lib::group_to_multiset_ensures;
                    }
                    assert(tail.to_multiset().count(rt[j - 1]) > 0);
                    assert(tail.contains(rt[j - 1])) by {
                        broadcast use vstd::seq_lib::group_to_multiset_ensures;
                    }
                    let k = choose|k: int| 0 <= k < tail.len() && tail[k] == rt[j - 1];
                    assert(tail[k] == sorted[k + 1]);
                }
            } else {
                assert(r[i] == rt[i - 1]);
                assert(r[j] == rt[j - 1]);
            }
        }
        assert forall|i: int| 0 <= i < sorted.len() implies #[trigger] r.contains(sorted[i]) by {
            if i == 0 {
                assert(r[0] == sorted[0]);
            } else {
                assert(tail[i - 1] == sorted[i]);
                assert(rt.contains(tail[i - 1]));
                let k = choose|k: int| 0 <= k < rt.len() && rt[k] == tail[i - 1];
                assert(r[k + 1] == rt[k]);
            }
        }
        let k = choose|k: int| 0 <= k < rt.len() && rt[k] == x;
        assert(r[k + 1] == rt[k]);
    }
}

/// The newest-first ordering is newest first.
pub proof fn lemma_newest_first_sorted<T>(s: Seq<T>, date: spec_fn(T) -> Seq<char>)
    ensures
        is_newest_first(newest_first(s, date), date),
    decreases s.len(),
{
    if s.len() > 0 {
        lemma_newest_first_sorted(s.drop_last(), date);
        lemma_insert_newest_sorted(newest_first(s.drop_last(), date), s.last(), date);
    }
}

} // verus!

verus! {

/// Whether an item has date `d`.
pub open spec fn dated<T>(date: spec_fn(T) -> Seq<char>, d: Seq<char>) -> spec_fn(T) -> bool {
    |y: T| date(y) == d
}

proof fn lemma_filter_single<T>(x: T, p: spec_fn(T) -> bool)
    ensures
        seq![x].filter(p) == (if p(x) {
            seq![x]
        } else {
            Seq::<T>::empty()
        }),
{
    reveal_with_fuel(Seq::filter, 2);
    assert(seq![x].drop_last() =~= Seq::<T>::empty());
    if p(x) {
        assert(Seq::<T>::empty().push(x) =~= seq![x]);
    }
}

/// Inserting an item of another date leaves the items of date `d` as they are.
proof fn lemma_insert_other_date<T>(sorted: Seq<T>, x: T, date: spec_fn(T) -> Seq<char>, d: Seq<char>)
    requires
        date(x) != d,
    ensures
        insert_newest(sorted, x, date).filter(dated(date, d)) == sorted.filter(dated(date, d)),
    decreases sorted.len(),
{
    broadcast use Seq::filter_distributes_over_add;

    let p = dated(date, d);
    lemma_filter_single(x, p);
    if sorted.len() == 0 {
        reveal_with_fuel(Seq::filter, 1);
    } else if text_less(date(sorted[0]), date(x)) {
        assert((seq![x] + sorted).filter(p) == seq![x].filter(p) + sorted.filter(p));
        assert(Seq::<T>::empty() + sorted.filter(p) =~= sorted.filter(p));
    } else {
        let tail = sorted.drop_first();
        lemma_insert_other_date(tail, x, date, d);
        assert(seq![sorted[0]] + tail =~= sorted);
        assert((seq![sorted[0]] + insert_newest(tail, x, date)).filter(p) == seq![sorted[0]].filter(p)
            + insert_newest(tail, x, date).filter(p));
        assert((seq![sorted[0]] + tail).filter(p) == seq![sorted[0]].filter(p) + tail.filter(p));
    }
}

/// Inserting an item of date `d` into a newest-first sequence puts it after
/// every other item of that date.
proof fn lemma_insert_same_date<T>(sorted: Seq<T>, x: T, date: spec_fn(T) -> Seq<char>, d: Seq<char>)
    requires
        date(x) == d,
        is_newest_first(sorted, date),
    ensures
        insert_newest(sorted, x, date).filter(dated(date, d)) == sorted.filter(dated(date, d)).push(x),
    decreases sorted.len(),
{
    broadcast use Seq::filter_distributes_over_add;

    let p = dated(date, d);
    lemma_filter_single(x, p);
    if sorted.len() == 0 {
        assert(Seq::<T>::empty().filter(p) =~= Seq::<T>::empty()) by {
            reveal_with_fuel(Seq::filter, 1);
        }
        assert(Seq::<T>::empty().push(x) =~= seq![x]);
    } else if text_less(date(sorted[0]), date(x)) {
        // every item of `sorted` is older than `x`
        assert(sorted.filter(p) =~= Seq::<T>::empty()) by {
            assert forall|k: int| 0 <= k < sorted.len() implies !p(sorted[k]) by {
                if k > 0 {
                    assert(!text_less(date(sorted[0]), date(sorted[k])));
                }
                if date(sorted[k]) == d {
                    lemma_text_less_asymmetric(date(sorted[0]), d);
                }
            }
            if sorted.filter(p).len() > 0 {
                sorted.lemma_filter_pred(p, 0);
                lemma_filter_member(sorted, p, 0);
            }
        }
        assert((seq![x] + sorted).filter(p) == seq![x].filter(p) + sorted.filter(p));
        assert(seq![x] + Seq::<T>::empty() =~= Seq::<T>::empty().push(x));
    } else {
        let tail = sorted.drop_first();
        assert forall|i: int, j: int| 0 <= i < j < tail.len() implies !text_less(#[trigger] date(tail[i]), #[trigger] date(tail[j])) by {
            assert(tail[i] == sorted[i + 1] && tail[j] == sorted[j + 1]);
        }
        lemma_insert_same_date(tail, x, date, d);
        assert(seq![sorted[0]] + tail =~= sorted);
        assert((seq![sorted[0]] + insert_newest(tail, x, date)).filter(p) == seq![sorted[0]].filter(p)
            + insert_newest(tail, x, date).filter(p));
        assert((seq![sorted[0]] + tail).filter(p) == seq![sorted[0]].filter(p) + tail.filter(p));
        assert(seq![sorted[0]].filter(p) + tail.filter(p).push(x) =~= (seq![sorted[0]].filter(p)
            + tail.filter(p)).push(x));
    }
}

/// An item kept by a filter occurs in the filtered sequence.
proof fn lemma_filter_member<T>(s: Seq<T>, p: spec_fn(T) -> bool, i: int)
    requires
        0 <= i < s.filter(p).len(),
    ensures
        exists|k: int| 0 <= k < s.len() && s[k] == s.filter(p)[i],
    decreases s.len(),
{
    reveal_with_fuel(Seq::filter, 1);
    let rest = s.drop_last().filter(p);
    if p(s.last()) && i == rest.len() {
        assert(s[s.len() - 1] == s.filter(p)[i]);
    } else {
        assert(s.filter(p)[i] == rest[i]);
        lemma_filter_member(s.drop_last(), p, i);
        let k = choose|k: int| 0 <= k < s.drop_last().len() && s.drop_last()[k] == rest[i];
        assert(s[k] == rest[i]);
    }
}

/// Ordering newest first is stable: the items of any one date keep their
/// relative order.
pub proof fn law_newest_first_stable<T>(s: Seq<T>, date: spec_fn(T) -> Seq<char>, d: Seq<char>)
    ensures
        newest_first(s, date).filter(dated(date, d)) == s.filter(dated(date, d)),
    decreases s.len(),
{
    let p = dated(date, d);
    if s.len() == 0 {
    } else {
        let prev = s.drop_last();
        law_newest_first_stable(prev, date, d);
        lemma_newest_first_sorted(prev, date);
        reveal_with_fuel(Seq::filter, 1);
        if date(s.last()) == d {
            lemma_insert_same_date(newest_first(prev, date), s.last(), date, d);
        } else {
            lemma_insert_other_date(newest_first(prev, date), s.last(), date, d);
        }
    }
}

} // verus!
