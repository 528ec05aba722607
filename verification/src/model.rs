//! What a value stands for mathematically.
//!
//! Two values with the same model are interchangeable: contracts throughout the
//! library relate the model of a result to the models of the arguments.

use crate::nonempty_list::elements;
use crate::text::{chars_of, smol_clone};
use nonempty::NonEmpty;
use smol_str::SmolStr;
use vstd::prelude::*;

verus! {

/// A type whose values stand for mathematical values of the type `M`.
pub trait Model {
    type M;

    spec fn model(&self) -> Self::M;
}

impl Model for SmolStr {
    type M = Seq<char>;

    open spec fn model(&self) -> Seq<char> {
        chars_of(*self)
    }
}

impl Model for String {
    type M = Seq<char>;

    open spec fn model(&self) -> Seq<char> {
        self@
    }
}

impl Model for () {
    type M = ();

    open spec fn model(&self) {
        ()
    }
}

impl<T: Model> Model for &T {
    type M = T::M;

    open spec fn model(&self) -> T::M {
        (**self).model()
    }
}

impl<T: Model> Model for Box<T> {
    type M = T::M;

    open spec fn model(&self) -> T::M {
        (**self).model()
    }
}

impl<T: Model> Model for Option<T> {
    type M = Option<T::M>;

    open spec fn model(&self) -> Option<T::M> {
        match self {
            Some(value) => Some(value.model()),
            None => None,
        }
    }
}

impl<T: Model, E: Model> Model for Result<T, E> {
    type M = Result<T::M, E::M>;

    open spec fn model(&self) -> Result<T::M, E::M> {
        match self {
            Ok(value) => Ok(value.model()),
            Err(error) => Err(error.model()),
        }
    }
}

impl<A: Model, B: Model> Model for (A, B) {
    type M = (A::M, B::M);

    open spec fn model(&self) -> (A::M, B::M) {
        (self.0.model(), self.1.model())
    }
}

/// The models of the elements of a sequence.
pub open spec fn models<T: Model>(s: Seq<T>) -> Seq<T::M> {
    Seq::new(s.len(), |i: int| s[i].model())
}

impl<T: Model> Model for Vec<T> {
    type M = Seq<T::M>;

    open spec fn model(&self) -> Seq<T::M> {
        models(self@)
    }
}

impl<T: Model> Model for NonEmpty<T> {
    type M = Seq<T::M>;

    open spec fn model(&self) -> Seq<T::M> {
        models(elements(*self))
    }
}

/// A type whose values can be copied, so that a copy stands for the same.
pub trait Duplicate: Model + Sized {
    /// A copy.
    fn duplicate(&self) -> (r: Self)
        ensures
            r.model() == self.model(),
    ;
}

impl Duplicate for SmolStr {
    fn duplicate(&self) -> (r: Self) {
        smol_clone(self)
    }
}

impl<T: Duplicate> Duplicate for Option<T> {
    fn duplicate(&self) -> (r: Self) {
        match self {
            Some(value) => Some(value.duplicate()),
            None => None,
        }
    }
}

impl<A: Duplicate, B: Duplicate> Duplicate for (A, B) {
    fn duplicate(&self) -> (r: Self) {
        (self.0.duplicate(), self.1.duplicate())
    }
}

impl<T: Duplicate> Duplicate for Vec<T> {
    fn duplicate(&self) -> (r: Self) {
        let mut out: Vec<T> = Vec::new();
        let mut i: usize = 0;
        while i < self.len()
            invariant
                i <= self@.len(),
                out@.len() == i,
                forall|j: int| 0 <= j < i ==> (#[trigger] out@[j]).model() == self@[j].model(),
            decreases self@.len() - i,
        {
            out.push(self[i].duplicate());
            i = i + 1;
        }
        assert(out.model() =~= self.model());
        out
    }
}

impl<T: Duplicate> Duplicate for NonEmpty<T> {
    fn duplicate(&self) -> (r: Self) {
        let r = NonEmpty { head: self.head.duplicate(), tail: self.tail.duplicate() };
        proof {
            assert(r.model() =~= seq![r.head.model()] + r.tail.model());
            assert(self.model() =~= seq![self.head.model()] + self.tail.model());
        }
        r
    }
}

pub broadcast proof fn models_push<T: Model>(s: Seq<T>, x: T)
    ensures
        #[trigger] models(s.push(x)) == models(s).push(x.model()),
{
    assert(models(s.push(x)) =~= models(s).push(x.model()));
}

pub broadcast proof fn models_add<T: Model>(s: Seq<T>, t: Seq<T>)
    ensures
        #[trigger] models(s + t) == models(s) + models(t),
{
    assert(models(s + t) =~= models(s) + models(t));
}

pub broadcast proof fn models_empty<T: Model>()
    ensures
        #[trigger] models(Seq::<T>::empty()) == Seq::<T::M>::empty(),
{
    assert(models(Seq::<T>::empty()) =~= Seq::<T::M>::empty());
}

pub broadcast group group_models {
    models_push,
    models_add,
    models_empty,
}

} // verus!
