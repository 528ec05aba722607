//! Names as a schema writes them, and what they may refer to.

use crate::defs::{AllDefs, DefsModel};
use crate::err::TypeNotDefinedError;
use crate::keyed::Keyed;
use crate::model::{Duplicate, Model};
use crate::names::{
    namespace_model, qualified, simple_name, InternalName, MaybeLoc, NameModel, UnreservedId,
};
use crate::nonempty_list::elements;
use nonempty::NonEmpty;
use vstd::prelude::*;

verus! {

broadcast use crate::model::group_models;

/// What kind of definition a name may refer to.
#[derive(Debug, Clone, Copy, PartialEq, Eq, Structural)]
pub enum ReferenceType {
    /// Only a common type.
    Common,
    /// Only an entity type.
    Entity,
    /// A common type or an entity type.
    CommonOrEntity,
}

/// A name as it was written, which need not be fully qualified.
#[derive(Debug, PartialEq, Eq)]
pub struct RawName(pub InternalName);

impl Model for RawName {
    type M = NameModel;

    open spec fn model(&self) -> NameModel {
        self.0.model()
    }
}

impl Clone for RawName {
    fn clone(&self) -> (r: Self)
        ensures
            r.model() == self.model(),
    {
        RawName(self.0.clone())
    }
}

impl Duplicate for RawName {
    fn duplicate(&self) -> (r: Self) {
        self.clone()
    }
}

/// A reference that is to be resolved once all definitions are known.
#[derive(Debug, PartialEq, Eq)]
pub struct ConditionalName {
    /// The full names that the reference may stand for, the preferred one first.
    pub possibilities: NonEmpty<InternalName>,
    /// What kind of definition it may refer to.
    pub reference_type: ReferenceType,
    /// The name as it was written.
    pub raw: RawName,
}

#[verifier::ext_equal]
pub struct ConditionalModel {
    pub possibilities: Seq<NameModel>,
    pub reference_type: ReferenceType,
    pub raw: NameModel,
}

impl Model for ConditionalName {
    type M = ConditionalModel;

    open spec fn model(&self) -> ConditionalModel {
        ConditionalModel {
            possibilities: self.possibilities.model(),
            reference_type: self.reference_type,
            raw: self.raw.model(),
        }
    }
}

/// The components of the names in a reference.
#[verifier::ext_equal]
pub struct ConditionalKey {
    pub possibilities: Seq<Seq<Seq<char>>>,
    pub reference_type: ReferenceType,
    pub raw: Seq<Seq<char>>,
}

/// The components of each of the given names.
pub open spec fn components_of(names: Seq<NameModel>) -> Seq<Seq<Seq<char>>> {
    Seq::new(names.len(), |i: int| names[i].components())
}

impl Clone for ConditionalName {
    fn clone(&self) -> (r: Self)
        ensures
            r.model() == self.model(),
    {
        ConditionalName {
            possibilities: self.possibilities.duplicate(),
            reference_type: self.reference_type,
            raw: self.raw.clone(),
        }
    }
}

impl Duplicate for ConditionalName {
    fn duplicate(&self) -> (r: Self) {
        self.clone()
    }
}

impl Keyed for ConditionalName {
    type K = ConditionalKey;

    open spec fn key(m: ConditionalModel) -> ConditionalKey {
        ConditionalKey {
            possibilities: components_of(m.possibilities),
            reference_type: m.reference_type,
            raw: m.raw.components(),
        }
    }

    fn same(&self, other: &Self) -> (r: bool) {
        let ghost a = Self::key(self.model()).possibilities;
        let ghost b = Self::key(other.model()).possibilities;
        proof {
            assert(a[0] == self.possibilities.head.model().components());
            assert(b[0] == other.possibilities.head.model().components());
            assert(a.len() == self.possibilities.tail@.len() + 1);
            assert(b.len() == other.possibilities.tail@.len() + 1);
        }
        if self.reference_type != other.reference_type || !self.raw.0.same(&other.raw.0)
            || !self.possibilities.head.same(&other.possibilities.head)
            || self.possibilities.tail.len() != other.possibilities.tail.len() {
            return false;
        }
        let mut i: usize = 0;
        while i < self.possibilities.tail.len()
            invariant
                i <= self.possibilities.tail@.len(),
                self.possibilities.tail@.len() == other.possibilities.tail@.len(),
                a == Self::key(self.model()).possibilities,
                b == Self::key(other.model()).possibilities,
                a.len() == b.len() == self.possibilities.tail@.len() + 1,
                forall|j: int| 0 <= j <= i ==> #[trigger] a[j] == b[j],
            decreases self.possibilities.tail@.len() - i,
        {
            proof {
                assert(elements(self.possibilities)[i + 1] == self.possibilities.tail@[i as int]);
                assert(elements(other.possibilities)[i + 1] == other.possibilities.tail@[i as int]);
                assert(a[i + 1] == self.possibilities.tail@[i as int].model().components());
                assert(b[i + 1] == other.possibilities.tail@[i as int].model().components());
            }
            if !self.possibilities.tail[i].same(&other.possibilities.tail[i]) {
                return false;
            }
            i = i + 1;
        }
        assert(a =~= b);
        true
    }
}

/// The reference that `name` makes inside the namespace `namespace`: a name
/// without a namespace refers into that namespace if it can, and into the empty
/// one otherwise; a name with a namespace refers into that one.
pub open spec fn conditional(
    name: NameModel,
    namespace: Option<NameModel>,
    reference_type: ReferenceType,
) -> ConditionalModel {
    ConditionalModel {
        possibilities: if name.path.len() == 0 && namespace is Some {
            seq![qualified(name, namespace), name]
        } else {
            seq![name]
        },
        reference_type,
        raw: name,
    }
}

/// The reference that can stand for `name` only.
pub open spec fn unconditional(name: NameModel, reference_type: ReferenceType) -> ConditionalModel {
    ConditionalModel { possibilities: seq![name], reference_type, raw: name }
}

/// Whether a reference of that kind may stand for `name`.
pub open spec fn is_defined_as(
    name: NameModel,
    reference_type: ReferenceType,
    defs: DefsModel,
) -> bool {
    ||| reference_type != ReferenceType::Entity && defs.common.contains(name.components())
    ||| reference_type != ReferenceType::Common && defs.entity.contains(name.components())
}

/// The first of `names` for which a reference of that kind may stand.
pub open spec fn first_defined(
    names: Seq<NameModel>,
    reference_type: ReferenceType,
    defs: DefsModel,
) -> Option<NameModel>
    decreases names.len(),
{
    if names.len() == 0 {
        None
    } else if is_defined_as(names[0], reference_type, defs) {
        Some(names[0])
    } else {
        first_defined(names.skip(1), reference_type, defs)
    }
}

/// What a reference stands for, or, where it stands for nothing, the reference
/// itself as the only one that is undefined.
pub open spec fn resolved(reference: ConditionalModel, defs: DefsModel) -> Result<
    NameModel,
    Seq<ConditionalModel>,
> {
    match first_defined(reference.possibilities, reference.reference_type, defs) {
        Some(name) => Ok(name),
        None => Err(seq![reference]),
    }
}

/// What `first_defined` finds is one of the names and is defined; it finds
/// nothing only where none of them is.
pub proof fn first_defined_found(
    names: Seq<NameModel>,
    reference_type: ReferenceType,
    defs: DefsModel,
)
    ensures
        first_defined(names, reference_type, defs) matches Some(n) ==> names.contains(n)
            && is_defined_as(n, reference_type, defs),
        first_defined(names, reference_type, defs) is None <==> forall|i: int|
            0 <= i < names.len() ==> !is_defined_as(#[trigger] names[i], reference_type, defs),
    decreases names.len(),
{
    if names.len() > 0 {
        let rest = names.skip(1);
        first_defined_found(rest, reference_type, defs);
        if is_defined_as(names[0], reference_type, defs) {
            assert(names.contains(names[0]));
        } else {
            if let Some(n) = first_defined(rest, reference_type, defs) {
                let i = choose|i: int| 0 <= i < rest.len() && rest[i] == n;
                assert(names[i + 1] == n);
            } else {
                assert forall|i: int| 0 <= i < names.len() implies !is_defined_as(
                    #[trigger] names[i],
                    reference_type,
                    defs,
                ) by {
                    if i > 0 {
                        assert(!is_defined_as(rest[i - 1], reference_type, defs));
                    }
                }
            }
        }
    }
}

impl RawName {
    pub fn new_from_unreserved(id: UnreservedId, loc: MaybeLoc) -> (r: Self)
        ensures
            r.model() == simple_name(id.model(), loc.model()),
    {
        RawName(InternalName::unqualified_name(id.into_id(), loc))
    }

    /// The full name that this one means inside the given namespace, if it has to
    /// be there.
    pub fn qualify_with(self, namespace: Option<&InternalName>) -> (r: InternalName)
        ensures
            r.model() == qualified(self.model(), namespace_model(namespace)),
    {
        self.0.qualify_with(namespace)
    }

    /// The reference that this name makes inside the given namespace.
    pub fn conditionally_qualify_with(
        self,
        namespace: Option<&InternalName>,
        reference_type: ReferenceType,
    ) -> (r: ConditionalName)
        ensures
            r.model() == conditional(self.model(), namespace_model(namespace), reference_type),
    {
        let possibilities = match namespace {
            Some(_) if self.0.is_unqualified() => {
                let mut list = NonEmpty::new(self.clone().qualify_with(namespace));
                list.push(self.clone().qualify_with(None));
                list
            },
            _ => NonEmpty::new(self.clone().qualify_with(None)),
        };
        let r = ConditionalName { possibilities, reference_type, raw: self };
        assert(r.model() =~= conditional(self.model(), namespace_model(namespace), reference_type));
        r
    }
}

impl ConditionalName {
    /// The reference that can stand for `name` only.
    pub fn unconditional(name: InternalName, reference_type: ReferenceType) -> (r: Self)
        ensures
            r.model() == unconditional(name.model(), reference_type),
    {
        let r = ConditionalName {
            possibilities: NonEmpty::new(name.clone()),
            reference_type,
            raw: RawName(name),
        };
        assert(r.model() =~= unconditional(name.model(), reference_type));
        r
    }

    /// Whether the reference may stand for `name`. A common type is looked for
    /// before an entity type.
    fn may_stand_for(&self, name: &InternalName, all_defs: &AllDefs) -> (r: bool)
        ensures
            r == is_defined_as(name.model(), self.model().reference_type, all_defs.model()),
    {
        if self.reference_type != ReferenceType::Entity && all_defs.is_defined_as_common(name) {
            return true;
        }
        self.reference_type != ReferenceType::Common && all_defs.is_defined_as_entity(name)
    }

    /// Resolves the reference: the first of its possibilities that is defined as
    /// something that it may refer to.
    pub fn resolve(self, all_defs: &AllDefs) -> (r: Result<InternalName, TypeNotDefinedError>)
        ensures
            r.model() == resolved(self.model(), all_defs.model()),
    {
        let ghost names = self.model().possibilities;
        let ghost kind = self.reference_type;
        let ghost defs = all_defs.model();
        proof {
            assert(names[0] == self.possibilities.head.model());
            assert(names.skip(1) =~= self.possibilities.tail.model());
        }
        if self.may_stand_for(&self.possibilities.head, all_defs) {
            return Ok(self.possibilities.head);
        }
        let ghost rest = self.possibilities.tail.model();
        let mut i: usize = 0;
        proof {
            assert(rest.skip(0) =~= rest);
        }
        while i < self.possibilities.tail.len()
            invariant
                i <= rest.len(),
                rest == self.possibilities.tail.model(),
                names == self.model().possibilities,
                kind == self.reference_type,
                defs == all_defs.model(),
                first_defined(names, kind, defs) == first_defined(rest.skip(i as int), kind, defs),
            decreases rest.len() - i,
        {
            proof {
                assert(rest.skip(i as int)[0] == self.possibilities.tail@[i as int].model());
                assert(rest.skip(i as int).skip(1) =~= rest.skip(i + 1));
            }
            if self.may_stand_for(&self.possibilities.tail[i], all_defs) {
                return Ok(self.possibilities.tail[i].clone());
            }
            i = i + 1;
        }
        let undefined = TypeNotDefinedError { undefined_types: NonEmpty::new(self) };
        assert(undefined.model() =~= seq![self.model()]);
        Err(undefined)
    }
}

} // verus!
