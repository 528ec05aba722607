//! References to actions.

use crate::defs::{AllDefs, DefsModel};
use crate::err::ActionNotDefinedError;
use crate::keyed::Keyed;
use crate::model::{Duplicate, Model};
use crate::names::{
    entity_type_of, internal_name_to_entity_type, namespace_model, qualified, simple_name,
    EntityUID, Id, InternalName, NameModel, ReservedNameError, UidModel,
};
use crate::raw_name::{conditional, ConditionalModel, ConditionalName, RawName, ReferenceType};
use crate::text::{chars_of, smol, smol_clone, smol_same};
use nonempty::NonEmpty;
use smol_str::SmolStr;
use vstd::prelude::*;

verus! {

broadcast use crate::model::group_models;

/// An action, by its identifier and its type.
#[derive(Debug, PartialEq, Eq)]
pub struct ActionEntityUID<N> {
    pub id: SmolStr,
    pub ty: N,
}

#[verifier::ext_equal]
pub struct ActionUidModel<N> {
    pub id: Seq<char>,
    pub ty: N,
}

impl<N: Model> Model for ActionEntityUID<N> {
    type M = ActionUidModel<N::M>;

    open spec fn model(&self) -> ActionUidModel<N::M> {
        ActionUidModel { id: chars_of(self.id), ty: self.ty.model() }
    }
}

impl<N: Duplicate> Clone for ActionEntityUID<N> {
    fn clone(&self) -> (r: Self)
        ensures
            r.model() == self.model(),
    {
        ActionEntityUID { id: smol_clone(&self.id), ty: self.ty.duplicate() }
    }
}

impl<N: Duplicate> Duplicate for ActionEntityUID<N> {
    fn duplicate(&self) -> (r: Self) {
        self.clone()
    }
}

impl<N: Keyed> Keyed for ActionEntityUID<N> {
    type K = (Seq<char>, N::K);

    open spec fn key(m: ActionUidModel<N::M>) -> (Seq<char>, N::K) {
        (m.id, N::key(m.ty))
    }

    fn same(&self, other: &Self) -> (r: bool) {
        smol_same(&self.id, &other.id) && self.ty.same(&other.ty)
    }
}

/// An action as a schema refers to it: without a type it is one of the type that
/// actions have by default.
#[derive(Debug, PartialEq, Eq)]
pub struct ActionRef<N> {
    pub id: SmolStr,
    pub ty: Option<N>,
}

#[verifier::ext_equal]
pub struct ActionRefModel<N> {
    pub id: Seq<char>,
    pub ty: Option<N>,
}

impl<N: Model> Model for ActionRef<N> {
    type M = ActionRefModel<N::M>;

    open spec fn model(&self) -> ActionRefModel<N::M> {
        ActionRefModel { id: chars_of(self.id), ty: self.ty.model() }
    }
}

/// The name of the entity type that actions have.
pub open spec fn action_entity_type() -> Seq<char> {
    "Action"@
}

/// The type of an action, which is the default one where none is given.
pub open spec fn action_type_or_default(ty: Option<NameModel>) -> NameModel {
    match ty {
        Some(name) => name,
        None => simple_name(action_entity_type(), None),
    }
}

/// The action that is meant inside `namespace`, if it has to be there.
pub open spec fn action_qualified(
    action: ActionRefModel<NameModel>,
    namespace: Option<NameModel>,
) -> ActionUidModel<NameModel> {
    ActionUidModel {
        id: action.id,
        ty: qualified(action_type_or_default(action.ty), namespace),
    }
}

/// The reference to an action that is made inside `namespace`.
pub open spec fn action_conditional(
    action: ActionRefModel<NameModel>,
    namespace: Option<NameModel>,
) -> ActionUidModel<ConditionalModel> {
    ActionUidModel {
        id: action.id,
        ty: conditional(action_type_or_default(action.ty), namespace, ReferenceType::Entity),
    }
}

/// Whether the action with that identifier and type is defined.
pub open spec fn is_defined_action(id: Seq<char>, ty: NameModel, defs: DefsModel) -> bool {
    !ty.is_reserved() && defs.action.contains((ty.components(), id))
}

/// The first of `types` for which the action with that identifier is defined.
pub open spec fn first_defined_action(
    id: Seq<char>,
    types: Seq<NameModel>,
    defs: DefsModel,
) -> Option<NameModel>
    decreases types.len(),
{
    if types.len() == 0 {
        None
    } else if is_defined_action(id, types[0], defs) {
        Some(types[0])
    } else {
        first_defined_action(id, types.skip(1), defs)
    }
}

/// The action that a reference stands for, or, where it stands for none, the
/// reference as the only one that is undefined.
pub open spec fn action_resolved(
    action: ActionUidModel<ConditionalModel>,
    defs: DefsModel,
) -> Result<ActionUidModel<NameModel>, Seq<ActionUidModel<ConditionalModel>>> {
    match first_defined_action(action.id, action.ty.possibilities, defs) {
        Some(ty) => Ok(ActionUidModel { id: action.id, ty }),
        None => Err(seq![action]),
    }
}

/// The entity that an action is. There is none where the reserved identifier
/// occurs in its type.
pub open spec fn action_entity(action: ActionUidModel<NameModel>) -> Result<UidModel, NameModel> {
    match entity_type_of(action.ty) {
        Ok(ty) => Ok(UidModel { ty, eid: action.id }),
        Err(name) => Err(name),
    }
}

/// What `first_defined_action` finds is one of the types, and the action is
/// defined with it; it finds nothing only where the action is defined with none.
pub proof fn first_defined_action_found(id: Seq<char>, types: Seq<NameModel>, defs: DefsModel)
    ensures
        first_defined_action(id, types, defs) matches Some(t) ==> types.contains(t)
            && is_defined_action(id, t, defs),
        first_defined_action(id, types, defs) is None <==> forall|i: int|
            0 <= i < types.len() ==> !is_defined_action(id, #[trigger] types[i], defs),
    decreases types.len(),
{
    if types.len() > 0 {
        let rest = types.skip(1);
        first_defined_action_found(id, rest, defs);
        if is_defined_action(id, types[0], defs) {
            assert(types.contains(types[0]));
        } else {
            if let Some(t) = first_defined_action(id, rest, defs) {
                let i = choose|i: int| 0 <= i < rest.len() && rest[i] == t;
                assert(types[i + 1] == t);
            } else {
                assert forall|i: int| 0 <= i < types.len() implies !is_defined_action(
                    id,
                    #[trigger] types[i],
                    defs,
                ) by {
                    if i > 0 {
                        assert(!is_defined_action(id, rest[i - 1], defs));
                    }
                }
            }
        }
    }
}

/// The given type of an action, or the default one.
fn type_or_default(ty: Option<RawName>) -> (r: RawName)
    ensures
        r.model() == action_type_or_default(ty.model()),
{
    match ty {
        Some(name) => name,
        None => RawName(InternalName::unqualified_name(Id::new(smol("Action")), None)),
    }
}

impl ActionRef<RawName> {
    /// The action of that identifier whose type is the default one.
    pub fn default_type(id: SmolStr) -> (r: Self)
        ensures
            r.model() == (ActionRefModel { id: chars_of(id), ty: None::<NameModel> }),
    {
        ActionRef { id, ty: None }
    }

    /// The action that is meant inside the given namespace, if it has to be there.
    pub fn qualify_with(self, namespace: Option<&InternalName>) -> (r: ActionEntityUID<InternalName>)
        ensures
            r.model() == action_qualified(self.model(), namespace_model(namespace)),
    {
        ActionEntityUID { id: self.id, ty: type_or_default(self.ty).qualify_with(namespace) }
    }

    /// The reference that is made inside the given namespace.
    pub fn conditionally_qualify_type_references(self, namespace: Option<&InternalName>) -> (r:
        ActionEntityUID<ConditionalName>)
        ensures
            r.model() == action_conditional(self.model(), namespace_model(namespace)),
    {
        ActionEntityUID {
            id: self.id,
            ty: type_or_default(self.ty).conditionally_qualify_with(
                namespace,
                ReferenceType::Entity,
            ),
        }
    }
}

impl ActionEntityUID<InternalName> {
    /// The entity that the action is.
    pub fn try_into_entity(self) -> (r: Result<EntityUID, ReservedNameError>)
        ensures
            r.model() == action_entity(self.model()),
    {
        match internal_name_to_entity_type(self.ty) {
            Ok(ty) => Ok(EntityUID { ty, eid: self.id }),
            Err(e) => Err(e),
        }
    }
}

impl ActionEntityUID<ConditionalName> {
    /// Whether the action is defined with the given type.
    fn is_defined_with(&self, ty: &InternalName, all_defs: &AllDefs) -> (r: bool)
        ensures
            r == is_defined_action(chars_of(self.id), ty.model(), all_defs.model()),
    {
        match internal_name_to_entity_type(ty.clone()) {
            Ok(ty) => all_defs.is_defined_as_action(
                &EntityUID { ty, eid: smol_clone(&self.id) },
            ),
            Err(_) => false,
        }
    }

    /// Resolves the reference: the first of the types it may have with which the
    /// action is defined.
    pub fn fully_qualify_type_references(self, all_defs: &AllDefs) -> (r: Result<
        ActionEntityUID<InternalName>,
        ActionNotDefinedError,
    >)
        ensures
            r.model() == action_resolved(self.model(), all_defs.model()),
    {
        let ghost id = chars_of(self.id);
        let ghost types = self.model().ty.possibilities;
        let ghost defs = all_defs.model();
        proof {
            assert(types[0] == self.ty.possibilities.head.model());
            assert(types.skip(1) =~= self.ty.possibilities.tail.model());
        }
        if self.is_defined_with(&self.ty.possibilities.head, all_defs) {
            return Ok(ActionEntityUID { id: self.id, ty: self.ty.possibilities.head });
        }
        let ghost rest = self.ty.possibilities.tail.model();
        let mut i: usize = 0;
        proof {
            assert(rest.skip(0) =~= rest);
        }
        while i < self.ty.possibilities.tail.len()
            invariant
                i <= rest.len(),
                rest == self.ty.possibilities.tail.model(),
                types == self.model().ty.possibilities,
                id == chars_of(self.id),
                defs == all_defs.model(),
                first_defined_action(id, types, defs) == first_defined_action(
                    id,
                    rest.skip(i as int),
                    defs,
                ),
            decreases rest.len() - i,
        {
            proof {
                assert(rest.skip(i as int)[0] == self.ty.possibilities.tail@[i as int].model());
                assert(rest.skip(i as int).skip(1) =~= rest.skip(i + 1));
            }
            if self.is_defined_with(&self.ty.possibilities.tail[i], all_defs) {
                return Ok(
                    ActionEntityUID { id: self.id, ty: self.ty.possibilities.tail[i].clone() },
                );
            }
            i = i + 1;
        }
        let undefined = ActionNotDefinedError(NonEmpty::new(self));
        assert(undefined.model() =~= seq![self.model()]);
        Err(undefined)
    }
}

} // verus!
