//! Lists with at least one element, as the `nonempty` crate provides them.

use nonempty::NonEmpty;
use vstd::prelude::*;

verus! {

/// `NonEmpty` of the `nonempty` crate: a first element and a vector of the
/// elements behind it. Both fields are public, and nothing else is in it.
#[verifier::external_type_specification]
#[verifier::reject_recursive_types(T)]
pub struct ExNonEmpty<T>(nonempty::NonEmpty<T>);

/// The elements of a non-empty list, in order.
pub open spec fn elements<T>(list: NonEmpty<T>) -> Seq<T> {
    seq![list.head] + list.tail@
}

/// `NonEmpty::new`: the list of one element.
pub assume_specification<T>[ NonEmpty::<T>::new ](e: T) -> (r: NonEmpty<T>)
    ensures
        elements(r) == seq![e],
;

/// `NonEmpty::push`: puts an element behind the others.
pub assume_specification<T>[ NonEmpty::<T>::push ](list: &mut NonEmpty<T>, e: T)
    ensures
        elements(*final(list)) == elements(*old(list)).push(e),
;

/// `NonEmpty::from_vec`: the list of a vector's elements, or `None` where the
/// vector has none.
pub assume_specification<T>[ NonEmpty::<T>::from_vec ](vec: Vec<T>) -> (r: Option<NonEmpty<T>>)
    ensures
        r is None <==> vec@.len() == 0,
        r matches Some(list) ==> elements(list) == vec@,
;

/// `NonEmpty::collect` on a vector: the list of the elements that the vector's
/// iterator gives, or `None` where it gives none.
#[verifier::external_body]
pub(crate) fn collect_list<T>(items: Vec<T>) -> (r: Option<NonEmpty<T>>)
    ensures
        r is None <==> items@.len() == 0,
        r matches Some(list) ==> elements(list) == items@,
{
    NonEmpty::collect(items)
}

/// `<NonEmpty as Extend>::extend` with another list: puts that list's elements
/// behind the others, in order.
#[verifier::external_body]
pub(crate) fn extend_list<T>(list: &mut NonEmpty<T>, more: NonEmpty<T>)
    ensures
        elements(*final(list)) == elements(*old(list)) + elements(more),
{
    list.extend(more)
}

} // verus!
