//! Values that are compared by a part of what they stand for.
//!
//! A name carries the place it was written at, which plays no part when names
//! are compared. The collections here are vectors in which nothing occurs twice
//! under such a comparison, in the order in which the elements came.

use crate::model::{models, Model};
use vstd::prelude::*;

verus! {

broadcast use crate::model::group_models;

/// A type whose values are equal where their keys are.
pub trait Keyed: Model {
    type K;

    spec fn key(m: Self::M) -> Self::K;

    /// Whether two values have the same key.
    fn same(&self, other: &Self) -> (r: bool)
        ensures
            r == (Self::key(self.model()) == Self::key(other.model())),
    ;
}

/// Whether some element of `s` has the key `k`.
pub open spec fn has_key<T: Keyed>(s: Seq<T::M>, k: T::K) -> bool {
    exists|i: int| 0 <= i < s.len() && T::key(#[trigger] s[i]) == k
}

/// The keys of the elements of `s`.
pub open spec fn key_set<T: Keyed>(s: Seq<T::M>) -> Set<T::K> {
    Set::new(|k: T::K| has_key::<T>(s, k))
}

/// Whether no two elements of `s` have the same key.
pub open spec fn all_distinct<T: Keyed>(s: Seq<T::M>) -> bool {
    forall|i: int, j: int|
        0 <= i < j < s.len() ==> T::key(#[trigger] s[i]) != T::key(#[trigger] s[j])
}

/// The elements of `s`, each key once: of several elements with the same key the
/// first stays.
pub open spec fn distinct<T: Keyed>(s: Seq<T::M>) -> Seq<T::M>
    decreases s.len(),
{
    if s.len() == 0 {
        Seq::empty()
    } else {
        let before = distinct::<T>(s.drop_last());
        if has_key::<T>(before, T::key(s.last())) {
            before
        } else {
            before.push(s.last())
        }
    }
}

/// `distinct` keeps every key, adds none, and leaves no key twice.
pub proof fn distinct_keeps_keys<T: Keyed>(s: Seq<T::M>)
    ensures
        all_distinct::<T>(distinct::<T>(s)),
        key_set::<T>(distinct::<T>(s)) =~= key_set::<T>(s),
        forall|i: int|
            0 <= i < distinct::<T>(s).len() ==> s.contains(#[trigger] distinct::<T>(s)[i]),
    decreases s.len(),
{
    if s.len() > 0 {
        let before = distinct::<T>(s.drop_last());
        distinct_keeps_keys::<T>(s.drop_last());
        assert forall|k: T::K| has_key::<T>(distinct::<T>(s), k) == has_key::<T>(s, k) by {
            assert(key_set::<T>(before).contains(k) == key_set::<T>(s.drop_last()).contains(k));
            if has_key::<T>(s, k) {
                let i = choose|i: int| 0 <= i < s.len() && T::key(#[trigger] s[i]) == k;
                if i < s.len() - 1 {
                    assert(T::key(s.drop_last()[i]) == k);
                    let j = choose|j: int| 0 <= j < before.len() && T::key(#[trigger] before[j]) == k;
                    assert(T::key(distinct::<T>(s)[j]) == k);
                } else if !has_key::<T>(before, k) {
                    assert(T::key(distinct::<T>(s)[before.len() as int]) == k);
                } else {
                    let j = choose|j: int| 0 <= j < before.len() && T::key(#[trigger] before[j]) == k;
                    assert(T::key(distinct::<T>(s)[j]) == k);
                }
            }
            if has_key::<T>(before, k) {
                let i = choose|i: int|
                    0 <= i < s.drop_last().len() && T::key(#[trigger] s.drop_last()[i]) == k;
                assert(T::key(s[i]) == k);
            }
            if has_key::<T>(distinct::<T>(s), k) && !has_key::<T>(before, k) {
                let j = choose|j: int|
                    0 <= j < distinct::<T>(s).len() && T::key(#[trigger] distinct::<T>(s)[j]) == k;
                if j < before.len() {
                    assert(T::key(before[j]) == k);
                }
                assert(T::key(s[s.len() - 1]) == k);
            }
        }
        assert(key_set::<T>(distinct::<T>(s)) =~= key_set::<T>(s));
        assert forall|i: int| 0 <= i < distinct::<T>(s).len() implies s.contains(
            #[trigger] distinct::<T>(s)[i],
        ) by {
            if i < before.len() {
                assert(s.drop_last().contains(before[i]));
                let j = choose|j: int| 0 <= j < s.drop_last().len() && s.drop_last()[j] == before[i];
                assert(s[j] == before[i]);
            } else {
                assert(s[s.len() - 1] == distinct::<T>(s)[i]);
            }
        }
        assert forall|i: int, j: int|
            0 <= i < j < distinct::<T>(s).len() implies T::key(
            #[trigger] distinct::<T>(s)[i],
        ) != T::key(#[trigger] distinct::<T>(s)[j]) by {
            if j < before.len() {
                assert(T::key(before[i]) != T::key(before[j]));
            } else {
                assert(T::key(before[i]) != T::key(s.last()));
            }
        }
    }
}

/// Whether some element of `items` has the key of `item`.
pub fn contains_same<T: Keyed>(items: &Vec<T>, item: &T) -> (r: bool)
    ensures
        r == has_key::<T>(items.model(), T::key(item.model())),
{
    let mut i: usize = 0;
    while i < items.len()
        invariant
            i <= items@.len(),
            forall|j: int|
                0 <= j < i ==> T::key(#[trigger] items.model()[j]) != T::key(item.model()),
        decreases items@.len() - i,
    {
        if items[i].same(item) {
            assert(T::key(items.model()[i as int]) == T::key(item.model()));
            return true;
        }
        i = i + 1;
    }
    false
}

/// Leaves of several elements with the same key only the first.
pub fn keep_distinct<T: Keyed>(items: Vec<T>) -> (r: Vec<T>)
    ensures
        r.model() == distinct::<T>(items.model()),
        all_distinct::<T>(r.model()),
{
    let ghost all = items@;
    let mut out: Vec<T> = Vec::new();
    for item in it: items
        invariant
            it.seq() == all,
            out.model() == distinct::<T>(models(all.take(it.index() as int))),
    {
        let ghost i = it.index() as int;
        proof {
            assert(all.take(i + 1) =~= all.take(i).push(item));
            assert(models(all.take(i + 1)).drop_last() =~= models(all.take(i)));
        }
        if !contains_same(&out, &item) {
            out.push(item);
        }
    }
    proof {
        assert(all.take(all.len() as int) =~= all);
        distinct_keeps_keys::<T>(models(all));
    }
    out
}

/// The position of the entry whose key is that of `k`.
pub fn position<T: Keyed, V: Model>(entries: &Vec<(T, V)>, k: &T) -> (r: Option<usize>)
    ensures
        r matches Some(i) ==> 0 <= i < entries@.len() && entry_at::<T, V::M>(
            entries.model(),
            T::key(k.model()),
        ) == Some(entries.model()[i as int]),
        r is None ==> entry_at::<T, V::M>(entries.model(), T::key(k.model())) is None,
{
    let ghost key = T::key(k.model());
    let ghost m = entries.model();
    let mut i: usize = 0;
    proof {
        assert(m.skip(0) =~= m);
    }
    while i < entries.len()
        invariant
            i <= entries@.len(),
            m == entries.model(),
            key == T::key(k.model()),
            entry_at::<T, V::M>(m, key) == entry_at::<T, V::M>(m.skip(i as int), key),
        decreases entries@.len() - i,
    {
        proof {
            assert(m.skip(i as int)[0] == m[i as int]);
            assert(m.skip(i as int).skip(1) =~= m.skip(i + 1));
        }
        if entries[i].0.same(k) {
            return Some(i);
        }
        i = i + 1;
    }
    None
}

/// The first of `entries` whose name has the key `k`.
pub open spec fn entry_at<T: Keyed, V>(entries: Seq<(T::M, V)>, k: T::K) -> Option<(T::M, V)>
    decreases entries.len(),
{
    if entries.len() == 0 {
        None
    } else if T::key(entries[0].0) == k {
        Some(entries[0])
    } else {
        entry_at::<T, V>(entries.skip(1), k)
    }
}

/// The names of `entries`.
pub open spec fn names_of<K, V>(entries: Seq<(K, V)>) -> Seq<K> {
    Seq::new(entries.len(), |i: int| entries[i].0)
}

/// An entry is found exactly where some entry has the key, and it has that key.
pub proof fn entry_at_found<T: Keyed, V>(entries: Seq<(T::M, V)>, k: T::K)
    ensures
        entry_at::<T, V>(entries, k) is Some <==> has_key::<T>(names_of(entries), k),
        entry_at::<T, V>(entries, k) matches Some(e) ==> entries.contains(e) && T::key(e.0) == k,
    decreases entries.len(),
{
    if entries.len() > 0 {
        let rest = entries.skip(1);
        entry_at_found::<T, V>(rest, k);
        let names = names_of(entries);
        if T::key(entries[0].0) == k {
            assert(T::key(names[0]) == k);
            assert(entries.contains(entries[0]));
        } else {
            if has_key::<T>(names, k) {
                let i = choose|i: int| 0 <= i < names.len() && T::key(#[trigger] names[i]) == k;
                assert(T::key(names_of(rest)[i - 1]) == k);
            }
            if has_key::<T>(names_of(rest), k) {
                let i = choose|i: int|
                    0 <= i < names_of(rest).len() && T::key(#[trigger] names_of(rest)[i]) == k;
                assert(T::key(names[i + 1]) == k);
            }
            if let Some(e) = entry_at::<T, V>(rest, k) {
                let i = choose|i: int| 0 <= i < rest.len() && rest[i] == e;
                assert(entries[i + 1] == e);
            }
        }
    }
}

} // verus!
