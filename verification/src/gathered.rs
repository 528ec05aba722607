//! Declarations that are gathered under their names.

use crate::keyed::{all_distinct, entry_at, entry_at_found, has_key, names_of, Keyed};
use vstd::prelude::*;

verus! {

/// A declaration: what came of making its name, and what came of making its value.
pub type Declaration<T, V, E> = (Result<T, E>, Result<V, E>);

/// The declarations, each value under its name. At each declaration the name is
/// looked at first. Where it has the key of an earlier one, `duplicate` of the
/// earlier name and of this one is the error. The value is looked at last.
pub open spec fn gathered<T: Keyed, V, E>(
    declarations: Seq<Declaration<T::M, V, E>>,
    duplicate: spec_fn(T::M, T::M) -> E,
) -> Result<Seq<(T::M, V)>, E>
    decreases declarations.len(),
{
    if declarations.len() == 0 {
        Ok(Seq::empty())
    } else {
        match gathered::<T, V, E>(declarations.drop_last(), duplicate) {
            Err(error) => Err(error),
            Ok(entries) => gathered_one::<T, V, E>(entries, declarations.last(), duplicate),
        }
    }
}

/// One declaration more.
pub open spec fn gathered_one<T: Keyed, V, E>(
    entries: Seq<(T::M, V)>,
    declaration: Declaration<T::M, V, E>,
    duplicate: spec_fn(T::M, T::M) -> E,
) -> Result<Seq<(T::M, V)>, E> {
    match declaration.0 {
        Err(error) => Err(error),
        Ok(name) => match entry_at::<T, V>(entries, T::key(name)) {
            Some(earlier) => Err(duplicate(earlier.0, name)),
            None => match declaration.1 {
                Err(error) => Err(error),
                Ok(value) => Ok(entries.push((name, value))),
            },
        },
    }
}

/// `gathered` of a sequence that is one declaration longer.
pub proof fn gathered_push<T: Keyed, V, E>(
    declarations: Seq<Declaration<T::M, V, E>>,
    duplicate: spec_fn(T::M, T::M) -> E,
    n: int,
)
    requires
        0 <= n < declarations.len(),
    ensures
        gathered::<T, V, E>(declarations.take(n + 1), duplicate) == (match gathered::<T, V, E>(
            declarations.take(n),
            duplicate,
        ) {
            Err(error) => Err(error),
            Ok(entries) => gathered_one::<T, V, E>(entries, declarations[n], duplicate),
        }),
{
    assert(declarations.take(n + 1).drop_last() =~= declarations.take(n));
}

/// Declarations behind the first failure do not matter.
pub proof fn gathered_prefix<T: Keyed, V, E>(
    declarations: Seq<Declaration<T::M, V, E>>,
    duplicate: spec_fn(T::M, T::M) -> E,
    n: int,
)
    requires
        0 <= n <= declarations.len(),
        gathered::<T, V, E>(declarations.take(n), duplicate) is Err,
    ensures
        gathered::<T, V, E>(declarations, duplicate) == gathered::<T, V, E>(
            declarations.take(n),
            duplicate,
        ),
    decreases declarations.len() - n,
{
    if n < declarations.len() {
        gathered_push::<T, V, E>(declarations, duplicate, n);
        gathered_prefix::<T, V, E>(declarations, duplicate, n + 1);
    } else {
        assert(declarations.take(n) =~= declarations);
    }
}

/// Gathering succeeds exactly where every name and every value could be made and no
/// two names have the same key. Nothing is lost or added then, and the order stays.
pub proof fn gathered_ok<T: Keyed, V, E>(
    declarations: Seq<Declaration<T::M, V, E>>,
    duplicate: spec_fn(T::M, T::M) -> E,
)
    ensures
        gathered::<T, V, E>(declarations, duplicate) is Ok <==> {
            &&& forall|i: int|
                0 <= i < declarations.len() ==> (#[trigger] declarations[i]).0 is Ok
                    && declarations[i].1 is Ok
            &&& forall|i: int, j: int|
                0 <= i < j < declarations.len() ==> T::key((#[trigger] declarations[i]).0->Ok_0)
                    != T::key((#[trigger] declarations[j]).0->Ok_0)
        },
        gathered::<T, V, E>(declarations, duplicate) matches Ok(entries) ==> {
            &&& entries.len() == declarations.len()
            &&& all_distinct::<T>(names_of(entries))
            &&& forall|i: int|
                0 <= i < declarations.len() ==> (#[trigger] declarations[i]) == (
                    Ok::<T::M, E>(entries[i].0),
                    Ok::<V, E>(entries[i].1),
                )
        },
    decreases declarations.len(),
{
    if declarations.len() > 0 {
        let front = declarations.drop_last();
        let last = declarations.len() - 1;
        gathered_ok::<T, V, E>(front, duplicate);
        assert forall|i: int| 0 <= i < front.len() implies #[trigger] declarations[i]
            == front[i] by {}
        let whole = gathered::<T, V, E>(declarations, duplicate);
        match gathered::<T, V, E>(front, duplicate) {
            Ok(entries) => {
                if let Ok(name) = declarations[last].0 {
                    entry_at_found::<T, V>(entries, T::key(name));
                    if has_key::<T>(names_of(entries), T::key(name)) {
                        let i = choose|i: int|
                            0 <= i < names_of(entries).len() && T::key(
                                #[trigger] names_of(entries)[i],
                            ) == T::key(name);
                        assert(declarations[i].0 == Ok::<T::M, E>(entries[i].0)) by {
                            assert(declarations[i] == front[i]);
                        }
                        assert(T::key(declarations[i].0->Ok_0) == T::key(
                            declarations[last].0->Ok_0,
                        ));
                    } else if declarations[last].1 is Ok {
                        let all = whole->Ok_0;
                        let names = names_of(all);
                        assert forall|i: int, j: int| 0 <= i < j < names.len() implies T::key(
                            #[trigger] names[i],
                        ) != T::key(#[trigger] names[j]) by {
                            assert(names[i] == names_of(entries)[i]);
                            if j < last {
                                assert(names[j] == names_of(entries)[j]);
                            }
                        }
                        assert forall|i: int| 0 <= i < declarations.len() implies (
                        #[trigger] declarations[i]) == (
                            Ok::<T::M, E>(all[i].0),
                            Ok::<V, E>(all[i].1),
                        ) by {
                            if i < last {
                                assert(declarations[i] == front[i]);
                                assert(front[i] == (
                                    Ok::<T::M, E>(entries[i].0),
                                    Ok::<V, E>(entries[i].1),
                                ));
                            }
                        }
                        assert forall|i: int, j: int|
                            0 <= i < j < declarations.len() implies T::key(
                            (#[trigger] declarations[i]).0->Ok_0,
                        ) != T::key((#[trigger] declarations[j]).0->Ok_0) by {
                            assert(T::key(names[i]) != T::key(names[j]));
                        }
                    }
                }
            },
            Err(_) => {
                if forall|i: int|
                    0 <= i < declarations.len() ==> (#[trigger] declarations[i]).0 is Ok
                        && declarations[i].1 is Ok {
                    assert forall|i: int| 0 <= i < front.len() implies (#[trigger] front[i]).0 is Ok
                        && front[i].1 is Ok by {
                        assert(declarations[i] == front[i]);
                    }
                    let (i, j) = choose|i: int, j: int|
                        0 <= i < j < front.len() && T::key((#[trigger] front[i]).0->Ok_0) == T::key(
                            (#[trigger] front[j]).0->Ok_0,
                        );
                    assert(declarations[i] == front[i] && declarations[j] == front[j]);
                }
            },
        }
    }
}

/// Whether `error` is that of the first declaration that cannot be gathered: its name is
/// none, or that of an earlier one, or it has no value; and those in front of it are all
/// fine and differ in their names.
pub open spec fn is_first_refused<T: Keyed, V, E>(
    declarations: Seq<Declaration<T::M, V, E>>,
    duplicate: spec_fn(T::M, T::M) -> E,
    error: E,
    k: int,
) -> bool {
    &&& 0 <= k < declarations.len()
    &&& forall|i: int|
        0 <= i < k ==> (#[trigger] declarations[i]).0 is Ok && declarations[i].1 is Ok
    &&& forall|i: int, j: int|
        0 <= i < j < k ==> T::key((#[trigger] declarations[i]).0->Ok_0) != T::key(
            (#[trigger] declarations[j]).0->Ok_0,
        )
    &&& match declarations[k].0 {
        Err(cause) => error == cause,
        Ok(name) => {
            ||| exists|i: int|
                0 <= i < k && T::key((#[trigger] declarations[i]).0->Ok_0) == T::key(name) && error
                    == duplicate(declarations[i].0->Ok_0, name)
            ||| {
                &&& forall|i: int|
                    0 <= i < k ==> T::key((#[trigger] declarations[i]).0->Ok_0) != T::key(name)
                &&& declarations[k].1 matches Err(cause)
                &&& error == cause
            }
        },
    }
}

/// Where declarations cannot be gathered, the first of them that is not fine tells why.
pub proof fn first_refused_is_reported<T: Keyed, V, E>(
    declarations: Seq<Declaration<T::M, V, E>>,
    duplicate: spec_fn(T::M, T::M) -> E,
) -> (k: int)
    requires
        gathered::<T, V, E>(declarations, duplicate) is Err,
    ensures
        is_first_refused::<T, V, E>(
            declarations,
            duplicate,
            gathered::<T, V, E>(declarations, duplicate)->Err_0,
            k,
        ),
    decreases declarations.len(),
{
    let front = declarations.drop_last();
    gathered_ok::<T, V, E>(front, duplicate);
    assert forall|i: int| 0 <= i < front.len() implies front[i] == #[trigger] declarations[i] by {}
    match gathered::<T, V, E>(front, duplicate) {
        Err(error) => {
            let k = first_refused_is_reported::<T, V, E>(front, duplicate);
            assert forall|i: int| 0 <= i < k implies (#[trigger] declarations[i]).0 is Ok
                && declarations[i].1 is Ok by {
                assert(front[i].0 is Ok);
            }
            assert forall|i: int, j: int| 0 <= i < j < k implies T::key(
                (#[trigger] declarations[i]).0->Ok_0,
            ) != T::key((#[trigger] declarations[j]).0->Ok_0) by {
                assert(T::key(front[i].0->Ok_0) != T::key(front[j].0->Ok_0));
            }
            if let Ok(name) = declarations[k].0 {
                assert(front[k].0 == declarations[k].0);
                if exists|i: int|
                    0 <= i < k && T::key((#[trigger] front[i]).0->Ok_0) == T::key(name) && error
                        == duplicate(front[i].0->Ok_0, name) {
                    let i = choose|i: int|
                        0 <= i < k && T::key((#[trigger] front[i]).0->Ok_0) == T::key(name) && error
                            == duplicate(front[i].0->Ok_0, name);
                    assert(T::key(declarations[i].0->Ok_0) == T::key(name));
                } else {
                    assert forall|i: int| 0 <= i < k implies T::key(
                        (#[trigger] declarations[i]).0->Ok_0,
                    ) != T::key(name) by {
                        assert(T::key(front[i].0->Ok_0) != T::key(name));
                    }
                }
            }
            k
        },
        Ok(entries) => {
            let k = declarations.len() - 1;
            assert forall|i: int| 0 <= i < k implies (#[trigger] declarations[i]).0 is Ok
                && declarations[i].1 is Ok by {
                assert(front[i].0 is Ok);
            }
            assert forall|i: int, j: int| 0 <= i < j < k implies T::key(
                (#[trigger] declarations[i]).0->Ok_0,
            ) != T::key((#[trigger] declarations[j]).0->Ok_0) by {
                assert(T::key(front[i].0->Ok_0) != T::key(front[j].0->Ok_0));
            }
            if let Ok(name) = declarations[k].0 {
                entry_at_found::<T, V>(entries, T::key(name));
                match entry_at::<T, V>(entries, T::key(name)) {
                    Some(earlier) => {
                        let i = choose|i: int| 0 <= i < entries.len() && entries[i] == earlier;
                        assert(declarations[i].0 == Ok::<T::M, E>(entries[i].0));
                        assert(T::key(declarations[i].0->Ok_0) == T::key(name));
                    },
                    None => {
                        assert forall|i: int| 0 <= i < k implies T::key(
                            (#[trigger] declarations[i]).0->Ok_0,
                        ) != T::key(name) by {
                            assert(declarations[i].0 == Ok::<T::M, E>(entries[i].0));
                            assert(names_of(entries)[i] == entries[i].0);
                        }
                    },
                }
            }
            k
        },
    }
}

} // verus!
