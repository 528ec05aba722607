//! What becomes of several fallible steps taken together.

use crate::model::{models, Model};
use nonempty::NonEmpty;
use vstd::prelude::*;

verus! {

broadcast use crate::model::group_models;

/// The values of the steps that succeeded, in order.
pub open spec fn oks<T, E>(steps: Seq<Result<T, E>>) -> Seq<T>
    decreases steps.len(),
{
    if steps.len() == 0 {
        Seq::empty()
    } else {
        match steps.last() {
            Ok(value) => oks(steps.drop_last()).push(value),
            Err(_) => oks(steps.drop_last()),
        }
    }
}

/// The errors of the steps that failed, in order.
pub open spec fn errs<T, E>(steps: Seq<Result<T, E>>) -> Seq<E>
    decreases steps.len(),
{
    if steps.len() == 0 {
        Seq::empty()
    } else {
        match steps.last() {
            Ok(_) => errs(steps.drop_last()),
            Err(error) => errs(steps.drop_last()).push(error),
        }
    }
}

/// All the values, or, where a step failed, all the errors.
pub open spec fn partitioned<T, E>(steps: Seq<Result<T, E>>) -> Result<Seq<T>, Seq<E>> {
    if errs(steps).len() == 0 {
        Ok(oks(steps))
    } else {
        Err(errs(steps))
    }
}

/// All the values, or, where a step failed, the first error.
pub open spec fn collected<T, E>(steps: Seq<Result<T, E>>) -> Result<Seq<T>, E>
    decreases steps.len(),
{
    if steps.len() == 0 {
        Ok(Seq::empty())
    } else {
        match collected(steps.drop_last()) {
            Err(error) => Err(error),
            Ok(values) => match steps.last() {
                Ok(value) => Ok(values.push(value)),
                Err(error) => Err(error),
            },
        }
    }
}

/// The elements of the given sequences, one sequence behind the other.
pub open spec fn concat<E>(parts: Seq<Seq<E>>) -> Seq<E>
    decreases parts.len(),
{
    if parts.len() == 0 {
        Seq::empty()
    } else {
        concat(parts.drop_last()) + parts.last()
    }
}

/// One sequence alone stays as it is.
pub proof fn concat_one<E>(part: Seq<E>)
    ensures
        concat(seq![part]) == part,
{
    reveal_with_fuel(concat, 2);
    assert(seq![part].drop_last() =~= Seq::empty());
    assert(Seq::<E>::empty() + part =~= part);
}

/// The error of a step, as a sequence of none or one.
pub open spec fn err_of<T, E>(step: Result<T, E>) -> Seq<E> {
    match step {
        Ok(_) => Seq::empty(),
        Err(error) => seq![error],
    }
}

/// Every step succeeded: the values are those of the steps, one for one.
pub proof fn collected_ok<T, E>(steps: Seq<Result<T, E>>)
    ensures
        collected(steps) is Ok <==> (forall|i: int|
            0 <= i < steps.len() ==> (#[trigger] steps[i]) is Ok),
        collected(steps) matches Ok(values) ==> values.len() == steps.len() && forall|i: int|
            0 <= i < steps.len() ==> steps[i] == Ok::<T, E>(#[trigger] values[i]),
    decreases steps.len(),
{
    if steps.len() > 0 {
        let front = steps.drop_last();
        collected_ok(front);
        assert forall|i: int| 0 <= i < front.len() implies front[i] == #[trigger] steps[i] by {}
        if collected(front) is Ok && steps.last() is Ok {
            let values = collected(steps)->Ok_0;
            assert forall|i: int| 0 <= i < steps.len() implies steps[i] == Ok::<T, E>(
                #[trigger] values[i],
            ) by {
                if i < front.len() {
                    assert(front[i] == Ok::<T, E>(collected(front)->Ok_0[i]));
                }
            }
        }
        if forall|i: int| 0 <= i < steps.len() ==> (#[trigger] steps[i]) is Ok {
            assert forall|i: int| 0 <= i < front.len() implies (#[trigger] front[i]) is Ok by {
                assert(steps[i] is Ok);
            }
            assert(steps[steps.len() - 1] is Ok);
        }
    }
}

/// The error of `collected` is that of the first step that failed.
pub proof fn collected_first<T, E>(steps: Seq<Result<T, E>>) -> (k: int)
    requires
        collected(steps) is Err,
    ensures
        0 <= k < steps.len(),
        steps[k] is Err,
        steps[k]->Err_0 == collected(steps)->Err_0,
        forall|i: int| 0 <= i < k ==> (#[trigger] steps[i]) is Ok,
    decreases steps.len(),
{
    let front = steps.drop_last();
    if collected(front) is Err {
        let k = collected_first(front);
        assert forall|i: int| 0 <= i < k implies (#[trigger] steps[i]) is Ok by {
            assert(front[i] is Ok);
        }
        k
    } else {
        collected_ok(front);
        assert forall|i: int| 0 <= i < steps.len() - 1 implies (#[trigger] steps[i]) is Ok by {
            assert(front[i] is Ok);
        }
        steps.len() - 1
    }
}

/// Steps behind the first failure do not matter.
pub proof fn collected_prefix<T, E>(steps: Seq<Result<T, E>>, n: int)
    requires
        0 <= n <= steps.len(),
        collected(steps.take(n)) is Err,
    ensures
        collected(steps) == collected(steps.take(n)),
    decreases steps.len() - n,
{
    if n < steps.len() {
        assert(steps.take(n + 1).drop_last() =~= steps.take(n));
        collected_prefix(steps, n + 1);
    } else {
        assert(steps.take(n) =~= steps);
    }
}

/// `collected` of a sequence that is one step longer.
pub proof fn collected_push<T, E>(steps: Seq<Result<T, E>>, n: int)
    requires
        0 <= n < steps.len(),
    ensures
        collected(steps.take(n + 1)) == (match collected(steps.take(n)) {
            Err(error) => Err(error),
            Ok(values) => match steps[n] {
                Ok(value) => Ok(values.push(value)),
                Err(error) => Err(error),
            },
        }),
{
    assert(steps.take(n + 1).drop_last() =~= steps.take(n));
}

/// All the errors of steps of which none failed, and all their values.
pub proof fn partitioned_ok<T, E>(steps: Seq<Result<T, E>>)
    ensures
        partitioned(steps) is Ok <==> (forall|i: int|
            0 <= i < steps.len() ==> (#[trigger] steps[i]) is Ok),
        partitioned(steps) matches Ok(values) ==> values.len() == steps.len() && forall|i: int|
            0 <= i < steps.len() ==> steps[i] == Ok::<T, E>(#[trigger] values[i]),
    decreases steps.len(),
{
    if steps.len() > 0 {
        let front = steps.drop_last();
        partitioned_ok(front);
        assert forall|i: int| 0 <= i < front.len() implies front[i] == #[trigger] steps[i] by {}
        if partitioned(front) is Ok && steps.last() is Ok {
            let values = oks(steps);
            assert forall|i: int| 0 <= i < steps.len() implies steps[i] == Ok::<T, E>(
                #[trigger] values[i],
            ) by {
                if i < front.len() {
                    assert(front[i] == Ok::<T, E>(oks(front)[i]));
                }
            }
        }
        if forall|i: int| 0 <= i < steps.len() ==> (#[trigger] steps[i]) is Ok {
            assert forall|i: int| 0 <= i < front.len() implies (#[trigger] front[i]) is Ok by {
                assert(steps[i] is Ok);
            }
            assert(steps[steps.len() - 1] is Ok);
        }
    }
}

/// Separates the values of the steps that succeeded from the errors of those that
/// failed: all the values where none failed, all the errors otherwise.
pub fn partition_nonempty<T: Model, E: Model>(steps: Vec<Result<T, E>>) -> (r: Result<
    Vec<T>,
    NonEmpty<E>,
>)
    ensures
        r.model() == partitioned(steps.model()),
{
    let ghost all = steps@;
    let mut values: Vec<T> = Vec::new();
    let mut errors: Vec<E> = Vec::new();
    for step in it: steps
        invariant
            it.seq() == all,
            values.model() == oks(models(all.take(it.index() as int))),
            errors.model() == errs(models(all.take(it.index() as int))),
    {
        let ghost i = it.index() as int;
        proof {
            assert(all.take(i + 1) =~= all.take(i).push(step));
            assert(models(all.take(i + 1)).drop_last() =~= models(all.take(i)));
        }
        match step {
            Ok(value) => values.push(value),
            Err(error) => errors.push(error),
        }
    }
    proof {
        assert(all.take(all.len() as int) =~= all);
    }
    match NonEmpty::from_vec(errors) {
        None => Ok(values),
        Some(list) => Err(list),
    }
}

} // verus!
