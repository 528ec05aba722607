//! What becomes of a list when each of its elements is turned into another.

use crate::keyed::{distinct, distinct_keeps_keys, has_key, key_set, Keyed};
use crate::outcome::{collected, collected_first, collected_ok, concat, errs, oks};
use vstd::prelude::*;

verus! {

/// Whether something that `p` makes of `a` is, up to what `same` passes over, among
/// `to`.
pub open spec fn is_among<A, B>(
    a: A,
    to: Seq<B>,
    p: spec_fn(A, B) -> bool,
    same: spec_fn(B, B) -> bool,
) -> bool {
    exists|c: B, j: int|
        0 <= j < to.len() && #[trigger] p(a, c) && same(c, #[trigger] to[j])
}

/// Whether `b` is what `p` makes of an element of `from`, and no earlier one gives the
/// same.
pub open spec fn is_first_of<A, B>(
    from: Seq<A>,
    b: B,
    p: spec_fn(A, B) -> bool,
    same: spec_fn(B, B) -> bool,
) -> bool {
    exists|i: int|
        0 <= i < from.len() && p(#[trigger] from[i], b) && forall|h: int, c: B|
            0 <= h < i && #[trigger] p(from[h], c) ==> !same(c, b)
}

/// Whether `to` holds what `p` makes of the elements of `from`, all of it, nothing
/// else and nothing twice.
pub open spec fn one_each<A, B>(
    from: Seq<A>,
    to: Seq<B>,
    p: spec_fn(A, B) -> bool,
    same: spec_fn(B, B) -> bool,
) -> bool {
    &&& forall|j: int, k: int|
        0 <= j < k < to.len() ==> !same(#[trigger] to[j], #[trigger] to[k])
    &&& forall|i: int| 0 <= i < from.len() ==> #[trigger] is_among(from[i], to, p, same)
    &&& forall|j: int| 0 <= j < to.len() ==> #[trigger] is_first_of(from, to[j], p, same)
}

/// Of several elements with the same key the first stays.
pub proof fn first_of_each_key_stays<T: Keyed>(s: Seq<T::M>)
    ensures
        forall|j: int|
            0 <= j < distinct::<T>(s).len() ==> exists|i: int|
                0 <= i < s.len() && #[trigger] s[i] == (#[trigger] distinct::<T>(s)[j])
                    && forall|h: int| 0 <= h < i ==> T::key(#[trigger] s[h]) != T::key(s[i]),
    decreases s.len(),
{
    if s.len() > 0 {
        let front = s.drop_last();
        let before = distinct::<T>(front);
        let all = distinct::<T>(s);
        first_of_each_key_stays::<T>(front);
        distinct_keeps_keys::<T>(front);
        assert forall|j: int| 0 <= j < all.len() implies exists|i: int|
            0 <= i < s.len() && #[trigger] s[i] == (#[trigger] all[j]) && forall|h: int|
                0 <= h < i ==> T::key(#[trigger] s[h]) != T::key(s[i]) by {
            if j < before.len() {
                assert(all[j] == before[j]);
                let i = choose|i: int|
                    0 <= i < front.len() && #[trigger] front[i] == before[j] && forall|h: int|
                        0 <= h < i ==> T::key(#[trigger] front[h]) != T::key(front[i]);
                assert(s[i] == front[i]);
                assert forall|h: int| 0 <= h < i implies T::key(#[trigger] s[h]) != T::key(s[i]) by {
                    assert(s[h] == front[h]);
                }
            } else {
                let i = s.len() - 1;
                assert(s[i] == all[j]);
                assert forall|h: int| 0 <= h < i implies T::key(#[trigger] s[h]) != T::key(s[i]) by {
                    assert(s[h] == front[h]);
                    if T::key(s[h]) == T::key(s[i]) {
                        assert(has_key::<T>(front, T::key(s[i])));
                        assert(key_set::<T>(front).contains(T::key(s[i])));
                        assert(key_set::<T>(before).contains(T::key(s[i])));
                    }
                }
            }
        }
    }
}

/// What a list without repetitions holds, in terms of what its elements were made
/// from.
pub proof fn distinct_is_one_each<A, T: Keyed>(
    from: Seq<A>,
    s: Seq<T::M>,
    p: spec_fn(A, T::M) -> bool,
    same: spec_fn(T::M, T::M) -> bool,
)
    requires
        from.len() == s.len(),
        forall|i: int| 0 <= i < from.len() ==> p(#[trigger] from[i], s[i]),
        forall|i: int, c: T::M| 0 <= i < from.len() && #[trigger] p(from[i], c) ==> c == s[i],
        forall|a: T::M, b: T::M| #[trigger] same(a, b) <==> T::key(a) == T::key(b),
    ensures
        one_each(from, distinct::<T>(s), p, same),
{
    let to = distinct::<T>(s);
    distinct_keeps_keys::<T>(s);
    first_of_each_key_stays::<T>(s);
    assert forall|j: int, k: int| 0 <= j < k < to.len() implies !same(
        #[trigger] to[j],
        #[trigger] to[k],
    ) by {
        assert(T::key(to[j]) != T::key(to[k]));
    }
    assert forall|i: int| 0 <= i < from.len() implies #[trigger] is_among(
        from[i],
        to,
        p,
        same,
    ) by {
        assert(has_key::<T>(s, T::key(s[i])));
        assert(key_set::<T>(s).contains(T::key(s[i])));
        assert(key_set::<T>(to).contains(T::key(s[i])));
        let j = choose|j: int| 0 <= j < to.len() && T::key(#[trigger] to[j]) == T::key(s[i]);
        assert(p(from[i], s[i]));
        assert(same(s[i], to[j]));
    }
    assert forall|j: int| 0 <= j < to.len() implies #[trigger] is_first_of(
        from,
        to[j],
        p,
        same,
    ) by {
        let i = choose|i: int|
            0 <= i < s.len() && #[trigger] s[i] == to[j] && forall|h: int|
                0 <= h < i ==> T::key(#[trigger] s[h]) != T::key(s[i]);
        assert(p(from[i], s[i]));
        assert forall|h: int, c: T::M| 0 <= h < i && #[trigger] p(from[h], c) implies !same(
            c,
            to[j],
        ) by {
            assert(c == s[h]);
        }
    }
}

/// Nothing is picked out of a list exactly where nothing in it is looked for.
pub proof fn none_is_picked<A>(s: Seq<A>, p: spec_fn(A) -> bool)
    ensures
        s.filter(p).len() == 0 <==> forall|i: int| 0 <= i < s.len() ==> !p(#[trigger] s[i]),
    decreases s.len(),
{
    reveal(Seq::filter);
    if s.len() > 0 {
        let front = s.drop_last();
        none_is_picked(front, p);
        assert forall|i: int| 0 <= i < front.len() implies front[i] == #[trigger] s[i] by {}
        if s.filter(p).len() == 0 {
            assert forall|i: int| 0 <= i < s.len() implies !p(#[trigger] s[i]) by {
                if i < front.len() {
                    assert(!p(front[i]));
                }
            }
        } else if forall|i: int| 0 <= i < s.len() ==> !p(#[trigger] s[i]) {
            assert forall|i: int| 0 <= i < front.len() implies !p(#[trigger] front[i]) by {
                assert(!p(s[i]));
            }
            assert(!p(s[s.len() - 1]));
        }
    }
}

/// Whether a step failed.
pub open spec fn failed<T, E>() -> spec_fn(Result<T, E>) -> bool {
    |step: Result<T, E>| step is Err
}

/// Whether a step succeeded.
pub open spec fn succeeded<T, E>() -> spec_fn(Result<T, E>) -> bool {
    |step: Result<T, E>| step is Ok
}

/// Of several steps all the failures are kept, in order, and nothing else; so are the
/// successes.
pub proof fn failures_are_kept_in_order<T, E>(steps: Seq<Result<T, E>>)
    ensures
        errs(steps) =~= steps.filter(failed::<T, E>()).map_values(|step: Result<T, E>| step->Err_0),
        oks(steps) =~= steps.filter(succeeded::<T, E>()).map_values(|step: Result<T, E>| step->Ok_0),
    decreases steps.len(),
{
    reveal(Seq::filter);
    if steps.len() > 0 {
        failures_are_kept_in_order(steps.drop_last());
    }
}

/// Several steps one after the other give all their values, or else the first failure.
pub proof fn first_failure_counts<T, E>(steps: Seq<Result<T, E>>)
    ensures
        collected(steps) matches Ok(values) ==> values.len() == steps.len() && forall|i: int|
            0 <= i < steps.len() ==> steps[i] == Ok::<T, E>(#[trigger] values[i]),
        collected(steps) matches Err(error) ==> exists|k: int|
            0 <= k < steps.len() && #[trigger] steps[k] == Err::<T, E>(error) && forall|i: int|
                0 <= i < k ==> (#[trigger] steps[i]) is Ok,
{
    collected_ok(steps);
    if collected(steps) is Err {
        let k = collected_first(steps);
        assert(steps[k] == Err::<T, E>(collected(steps)->Err_0));
    }
}

/// What is in one of several lists is in all of them together, and the other way
/// round.
pub proof fn nothing_is_lost_by_joining<E>(parts: Seq<Seq<E>>)
    ensures
        forall|e: E| #[trigger]
            concat(parts).contains(e) <==> exists|k: int|
                0 <= k < parts.len() && (#[trigger] parts[k]).contains(e),
    decreases parts.len(),
{
    if parts.len() > 0 {
        let front = parts.drop_last();
        let all = concat(parts);
        nothing_is_lost_by_joining(front);
        assert forall|e: E| #[trigger] all.contains(e) <==> exists|k: int|
            0 <= k < parts.len() && (#[trigger] parts[k]).contains(e) by {
            if all.contains(e) {
                let i = choose|i: int| 0 <= i < all.len() && all[i] == e;
                if i < concat(front).len() {
                    assert(concat(front)[i] == e);
                    assert(concat(front).contains(e));
                    let k = choose|k: int| 0 <= k < front.len() && (#[trigger] front[k]).contains(e);
                    assert(parts[k].contains(e));
                } else {
                    assert(parts.last()[i - concat(front).len()] == e);
                    assert(parts[parts.len() - 1].contains(e));
                }
            }
            if exists|k: int| 0 <= k < parts.len() && (#[trigger] parts[k]).contains(e) {
                let k = choose|k: int| 0 <= k < parts.len() && (#[trigger] parts[k]).contains(e);
                if k < parts.len() - 1 {
                    assert(front[k].contains(e));
                    assert(concat(front).contains(e));
                    let i = choose|i: int| 0 <= i < concat(front).len() && concat(front)[i] == e;
                    assert(all[i] == e);
                } else {
                    let i = choose|i: int| 0 <= i < parts[k].len() && parts[k][i] == e;
                    assert(all[concat(front).len() + i] == e);
                }
            }
        }
    }
}

} // verus!
