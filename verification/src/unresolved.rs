//! Values that are settled only once the common types are known.

use crate::err::SchemaError;
use crate::model::Model;
use crate::names::{as_loc_ref, into_maybe_loc, InternalName, Loc, LocModel, MaybeLoc};
use crate::types::{Type, ValidatorType};
use vstd::prelude::*;
use vstd::string::*;

verus! {

/// The common types, each under its full name. Of several of the same name the
/// first counts.
pub type CommonTypeTable = Vec<(InternalName, ValidatorType)>;

/// A computation of a value from the common types.
pub trait ResolveFunc<T> {
    /// Whether the computation can be carried out with these common types.
    spec fn accepts(&self, common_type_defs: &CommonTypeTable) -> bool;

    /// Whether the computation may give `r` with these common types.
    spec fn yields(&self, common_type_defs: &CommonTypeTable, r: Result<T, SchemaError>) -> bool;

    fn resolve(self: Box<Self>, common_type_defs: &CommonTypeTable) -> (r: Result<T, SchemaError>)
        requires
            self.accepts(common_type_defs),
        ensures
            self.yields(common_type_defs, r),
    ;
}

/// The computation that a closure carries out.
struct FromClosure<F> {
    f: F,
}

impl<T, F: FnOnce(&CommonTypeTable) -> Result<T, SchemaError>> ResolveFunc<T> for FromClosure<F> {
    closed spec fn accepts(&self, common_type_defs: &CommonTypeTable) -> bool {
        call_requires(self.f, (common_type_defs,))
    }

    closed spec fn yields(
        &self,
        common_type_defs: &CommonTypeTable,
        r: Result<T, SchemaError>,
    ) -> bool {
        call_ensures(self.f, (common_type_defs,), r)
    }

    fn resolve(self: Box<Self>, common_type_defs: &CommonTypeTable) -> (r: Result<T, SchemaError>) {
        let closure = *self;
        (closure.f)(common_type_defs)
    }
}

/// A value that might be defined in terms of some common-type definitions which
/// are not necessarily available yet.
#[verifier::reject_recursive_types(T)]
pub enum WithUnresolvedCommonTypeRefs<T> {
    WithUnresolved(Box<dyn ResolveFunc<T>>, MaybeLoc),
    WithoutUnresolved(T, MaybeLoc),
}

impl<T> WithUnresolvedCommonTypeRefs<T> {
    /// Whether the value still has to be computed from the common types.
    pub open spec fn is_unresolved(&self) -> bool {
        self is WithUnresolved
    }

    /// Where the value was written.
    pub open spec fn place(&self) -> Option<LocModel> {
        match self {
            WithUnresolvedCommonTypeRefs::WithUnresolved(_, loc) => loc.model(),
            WithUnresolvedCommonTypeRefs::WithoutUnresolved(_, loc) => loc.model(),
        }
    }

    /// Whether the value can be computed from these common types.
    pub open spec fn accepts(&self, common_type_defs: &CommonTypeTable) -> bool {
        match self {
            WithUnresolvedCommonTypeRefs::WithUnresolved(f, _) => f.accepts(common_type_defs),
            WithUnresolvedCommonTypeRefs::WithoutUnresolved(_, _) => true,
        }
    }

    /// Whether `r` may come of computing the value from these common types.
    pub open spec fn yields(
        &self,
        common_type_defs: &CommonTypeTable,
        r: Result<T, SchemaError>,
    ) -> bool {
        match self {
            WithUnresolvedCommonTypeRefs::WithUnresolved(f, _) => f.yields(common_type_defs, r),
            WithUnresolvedCommonTypeRefs::WithoutUnresolved(v, _) => r == Ok::<T, SchemaError>(*v),
        }
    }
}

impl<T: 'static> WithUnresolvedCommonTypeRefs<T> {
    /// A value that `f` computes from the common types.
    pub fn new(
        f: impl FnOnce(&CommonTypeTable) -> Result<T, SchemaError> + 'static,
        loc: MaybeLoc,
    ) -> (r: Self)
        ensures
            r.is_unresolved(),
            r.place() == loc.model(),
            forall|d: &CommonTypeTable| #[trigger] r.accepts(d) == call_requires(f, (d,)),
            forall|d: &CommonTypeTable, x: Result<T, SchemaError>| #[trigger]
                r.yields(d, x) == call_ensures(f, (d,), x),
    {
        WithUnresolvedCommonTypeRefs::WithUnresolved(Box::new(FromClosure { f }), loc)
    }

    /// Where the value was written.
    pub fn loc(&self) -> (r: Option<&Loc>)
        ensures
            (match r {
                Some(place) => Some(place.model()),
                None => None,
            }) == self.place(),
    {
        match self {
            WithUnresolvedCommonTypeRefs::WithUnresolved(_, loc) => as_loc_ref(loc),
            WithUnresolvedCommonTypeRefs::WithoutUnresolved(_, loc) => as_loc_ref(loc),
        }
    }

    /// A text for the value when debugging. `show` gives that of a value which is
    /// settled; nothing is shown of one that still has to be computed.
    pub fn debug_text(&self, show: impl FnOnce(&T) -> String) -> (r: String)
        requires
            self matches WithUnresolvedCommonTypeRefs::WithoutUnresolved(v, _) ==> call_requires(
                show,
                (v,),
            ),
        ensures
            self.is_unresolved() ==> r@ == "WithUnresolved"@,
            self matches WithUnresolvedCommonTypeRefs::WithoutUnresolved(v, _) ==> exists|
                text: String,
            | #[trigger]
                call_ensures(show, (v,), text) && r@ == "WithoutUnresolved("@ + text@ + ")"@,
    {
        match self {
            WithUnresolvedCommonTypeRefs::WithUnresolved(_, _) => "WithUnresolved".to_owned(),
            WithUnresolvedCommonTypeRefs::WithoutUnresolved(v, _) => {
                let text = show(v);
                let mut r = "WithoutUnresolved(".to_owned();
                r.append(text.as_str());
                r.append(")");
                r
            },
        }
    }

    /// The value that `f` makes of this one. Where this one still has to be
    /// computed, `f` is applied to what comes of that; a failure stays as it is.
    pub fn map<U: 'static>(self, f: impl FnOnce(T) -> U + 'static) -> (r:
        WithUnresolvedCommonTypeRefs<U>)
        requires
            forall|d: &CommonTypeTable, t: T| #[trigger]
                self.yields(d, Ok(t)) ==> call_requires(f, (t,)),
        ensures
            r.place() == self.place(),
            r.is_unresolved() == self.is_unresolved(),
            forall|d: &CommonTypeTable| self.accepts(d) ==> #[trigger] r.accepts(d),
            forall|d: &CommonTypeTable, u: U|
                #![trigger r.yields(d, Ok(u))]
                r.yields(d, Ok(u)) ==> exists|t: T| #[trigger]
                    self.yields(d, Ok(t)) && call_ensures(f, (t,), u),
            forall|d: &CommonTypeTable, e: SchemaError|
                #![trigger r.yields(d, Err(e))]
                r.yields(d, Err(e)) ==> self.yields(d, Err(e)),
    {
        match self {
            WithUnresolvedCommonTypeRefs::WithoutUnresolved(v, loc) => {
                assert(self.yields(arbitrary(), Ok(v)));
                let value = f(v);
                let r = WithUnresolvedCommonTypeRefs::WithoutUnresolved(value, loc);
                assert forall|d: &CommonTypeTable, u: U|
                    #![trigger r.yields(d, Ok(u))]
                    r.yields(d, Ok(u)) implies exists|t: T| #[trigger]
                    self.yields(d, Ok(t)) && call_ensures(f, (t,), u) by {
                    assert(self.yields(d, Ok(v)));
                }
                r
            },
            unresolved => {
                let loc = into_maybe_loc(unresolved.loc());
                let mapped = move |common_type_defs: &CommonTypeTable| -> (r: Result<U, SchemaError>)
                    requires
                        unresolved.accepts(common_type_defs),
                        forall|t: T| #[trigger]
                            unresolved.yields(common_type_defs, Ok(t)) ==> call_requires(f, (t,)),
                    ensures
                        (match r {
                            Ok(u) => exists|t: T| #[trigger]
                                unresolved.yields(common_type_defs, Ok(t)) && call_ensures(
                                    f,
                                    (t,),
                                    u,
                                ),
                            Err(e) => unresolved.yields(common_type_defs, Err(e)),
                        }),
                {
                    match unresolved.resolve_common_type_refs(common_type_defs) {
                        Ok(value) => {
                            assert(unresolved.yields(common_type_defs, Ok(value)));
                            let u = f(value);
                            assert(call_ensures(f, (value,), u));
                            Ok(u)
                        },
                        Err(e) => Err(e),
                    }
                };
                WithUnresolvedCommonTypeRefs::new(mapped, loc)
            },
        }
    }

    /// Resolve references to common types by inlining their definitions from
    /// the given table.
    ///
    /// Be warned that `common_type_defs` should contain all definitions, from
    /// all schema fragments.
    /// If `self` references any common type not in `common_type_defs`, this will
    /// return a `TypeNotDefinedError`.
    pub fn resolve_common_type_refs(self, common_type_defs: &CommonTypeTable) -> (r: Result<
        T,
        SchemaError,
    >)
        requires
            self.accepts(common_type_defs),
        ensures
            self.yields(common_type_defs, r),
    {
        match self {
            WithUnresolvedCommonTypeRefs::WithUnresolved(f, _) => f.resolve(common_type_defs),
            WithUnresolvedCommonTypeRefs::WithoutUnresolved(v, _) => Ok(v),
        }
    }
}

impl<T: 'static> From<T> for WithUnresolvedCommonTypeRefs<T> {
    fn from(value: T) -> (r: Self) {
        WithUnresolvedCommonTypeRefs::WithoutUnresolved(value, None)
    }
}

impl<T: 'static> vstd::std_specs::convert::FromSpecImpl<T> for WithUnresolvedCommonTypeRefs<T> {
    open spec fn obeys_from_spec() -> bool {
        true
    }

    open spec fn from_spec(value: T) -> Self {
        WithUnresolvedCommonTypeRefs::WithoutUnresolved(value, None)
    }
}

impl From<Type> for WithUnresolvedCommonTypeRefs<ValidatorType> {
    fn from(value: Type) -> (r: Self) {
        WithUnresolvedCommonTypeRefs::WithoutUnresolved(ValidatorType { ty: value }, None)
    }
}

impl vstd::std_specs::convert::FromSpecImpl<Type> for WithUnresolvedCommonTypeRefs<ValidatorType> {
    open spec fn obeys_from_spec() -> bool {
        true
    }

    open spec fn from_spec(value: Type) -> Self {
        WithUnresolvedCommonTypeRefs::WithoutUnresolved(ValidatorType { ty: value }, None)
    }
}

} // verus!
