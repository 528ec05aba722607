//! The actions that are declared in a namespace.

use crate::action_attributes::{
    attributes_converted, convert_attr_jsonval_map_to_attributes, converted_attributes_are_in_order,
};
use crate::action_uid::{
    action_conditional, action_entity, action_qualified, action_resolved, ActionEntityUID,
    ActionRef, ActionRefModel, ActionUidModel,
};
use crate::apply_spec::{
    applies_once, apply_spec_resolved, entity_types_found, ApplySpecModel, ValidatorApplySpec,
};
use crate::declarations::{empty_record, ActionType, ActionTypeModel, AttributesOrContext};
use crate::defs::{AllDefs, DefsModel};
use crate::entity_types::{entity_references, entity_type_references};
use crate::err::{
    partition_joined, partition_undefined, ActionNotDefinedError, DuplicateActionError, ErrorModel,
    SchemaError,
};
use crate::gathered::{gathered, gathered_ok, gathered_prefix, gathered_push, Declaration};
use crate::json_schema::{type_qualified, type_resolved, SchemaType, Type};
use crate::keyed::{
    all_distinct, distinct, distinct_keeps_keys, keep_distinct, names_of, position, Keyed,
};
use crate::model::{Duplicate, Model};
use crate::names::{
    as_loc_ref, clone_loc, into_maybe_loc, namespace_model, EntityType, EntityUID, InternalName,
    Loc, LocModel, MaybeLoc, NameModel, UidModel,
};
use crate::outcome::{oks, partition_nonempty, partitioned, partitioned_ok};
use crate::raw_name::{ConditionalModel, ConditionalName, RawName};
use crate::sorting::in_name_order;
use crate::text::{chars_of, smol_clone};
use crate::types::{AttributeTypeModel, Attributes};
use crate::value::{PartialValue, PartialValueModel, RestrictedEvaluator};
use smol_str::SmolStr;
use vstd::prelude::*;

verus! {

broadcast use crate::model::group_models;

/// What a declaration of an action says.
///
/// References may or may not be fully qualified yet, and may be to what is declared
/// elsewhere or nowhere. `A` is the type of the references to what the action
/// applies to, and `N` that of all others.
///
/// Neither a parent nor an entity type that the action applies to occurs twice, and
/// the attributes are in the order of their names, each once.
#[derive(Debug)]
pub struct ActionFragment<N: Keyed, A: Keyed> {
    /// The type of the context of the action.
    context: Type<N>,
    /// The principals and resources that the action can be applied to.
    applies_to: ValidatorApplySpec<A>,
    /// The actions that this one is a member of.
    parents: Vec<ActionEntityUID<N>>,
    /// The types of the attributes of the action.
    attribute_types: Attributes,
    /// The values of the attributes, each under its name.
    attributes: Vec<(SmolStr, PartialValue)>,
    /// Where the declaration was written.
    loc: MaybeLoc,
}

#[verifier::ext_equal]
pub struct ActionFragmentModel<N, A> {
    pub context: SchemaType<N>,
    pub applies_to: ApplySpecModel<A>,
    pub parents: Seq<ActionUidModel<N>>,
    pub attribute_types: Seq<(Seq<char>, AttributeTypeModel)>,
    pub attributes: Seq<(Seq<char>, PartialValueModel)>,
    pub loc: Option<LocModel>,
}

impl<N: Keyed, A: Keyed> Model for ActionFragment<N, A> {
    type M = ActionFragmentModel<N::M, A::M>;

    closed spec fn model(&self) -> ActionFragmentModel<N::M, A::M> {
        ActionFragmentModel {
            context: self.context.model(),
            applies_to: self.applies_to.model(),
            parents: self.parents.model(),
            attribute_types: self.attribute_types.model(),
            attributes: self.attributes.model(),
            loc: self.loc.model(),
        }
    }
}

/// Whether neither a parent nor an entity type that the action applies to occurs
/// twice, and the attributes are in the order of their names, each once.
pub open spec fn nothing_twice<N: Keyed, A: Keyed>(
    fragment: ActionFragmentModel<N::M, A::M>,
) -> bool {
    &&& applies_once::<A>(fragment.applies_to)
    &&& all_distinct::<ActionEntityUID<N>>(fragment.parents)
    &&& in_name_order(fragment.attribute_types)
    &&& in_name_order(fragment.attributes)
}

impl<N: Keyed + Duplicate, A: Keyed + Duplicate> Clone for ActionFragment<N, A> {
    fn clone(&self) -> (r: Self)
        ensures
            r.model() == self.model(),
    {
        proof {
            use_type_invariant(self);
        }
        ActionFragment {
            context: self.context.clone(),
            applies_to: self.applies_to.clone(),
            parents: self.parents.duplicate(),
            attribute_types: self.attribute_types.clone(),
            attributes: self.attributes.duplicate(),
            loc: clone_loc(&self.loc),
        }
    }
}

impl<N: Keyed + Duplicate, A: Keyed + Duplicate> Duplicate for ActionFragment<N, A> {
    fn duplicate(&self) -> (r: Self) {
        self.clone()
    }
}

impl<N: Keyed, A: Keyed> ActionFragment<N, A> {
    #[verifier::type_invariant]
    spec fn is_well_formed(self) -> bool {
        nothing_twice::<N, A>(self.model())
    }

    /// The type of the context of the action.
    pub fn context(&self) -> (r: &Type<N>)
        ensures
            r.model() == self.model().context,
    {
        &self.context
    }

    /// The principals and resources that the action can be applied to.
    pub fn applies_to(&self) -> (r: &ValidatorApplySpec<A>)
        ensures
            r.model() == self.model().applies_to,
    {
        &self.applies_to
    }

    /// The actions that this one is a member of.
    pub fn parents(&self) -> (r: &Vec<ActionEntityUID<N>>)
        ensures
            r.model() == self.model().parents,
            all_distinct::<ActionEntityUID<N>>(r.model()),
    {
        proof {
            use_type_invariant(self);
        }
        &self.parents
    }

    /// The types of the attributes of the action.
    pub fn attribute_types(&self) -> (r: &Attributes)
        ensures
            r.model() == self.model().attribute_types,
            in_name_order(r.model()),
    {
        proof {
            use_type_invariant(self);
        }
        &self.attribute_types
    }

    /// The values of the attributes, each under its name.
    pub fn attributes(&self) -> (r: &Vec<(SmolStr, PartialValue)>)
        ensures
            r.model() == self.model().attributes,
            in_name_order(r.model()),
    {
        proof {
            use_type_invariant(self);
        }
        &self.attributes
    }

    /// Where the declaration was written.
    pub fn loc(&self) -> (r: Option<&Loc>)
        ensures
            r.model() == self.model().loc,
    {
        as_loc_ref(&self.loc)
    }
}

/// The value, or an empty sequence where there is none.
pub open spec fn or_empty<T>(items: Option<Seq<T>>) -> Seq<T> {
    match items {
        Some(items) => items,
        None => Seq::empty(),
    }
}

/// The references to actions that are made inside `namespace`.
pub open spec fn action_references(
    actions: Seq<ActionRefModel<NameModel>>,
    namespace: Option<NameModel>,
) -> Seq<ActionUidModel<ConditionalModel>> {
    Seq::new(actions.len(), |i: int| action_conditional(actions[i], namespace))
}

/// What the declaration of the action `uid` says inside `namespace`. An action that
/// does not say what it applies to applies to nothing, with a context without
/// attributes.
pub open spec fn raw_action<E: RestrictedEvaluator>(
    uid: UidModel,
    action: ActionTypeModel<NameModel>,
    namespace: Option<NameModel>,
    evaluator: E,
    loc: Option<LocModel>,
) -> Result<ActionFragmentModel<ConditionalModel, ConditionalModel>, ErrorModel> {
    match attributes_converted(or_empty(action.attributes), uid, evaluator) {
        Err(error) => Err(error),
        Ok((attribute_types, attributes)) => Ok(
            ActionFragmentModel {
                context: type_qualified(
                    match action.applies_to {
                        Some(applies_to) => applies_to.context,
                        None => empty_record(),
                    },
                    namespace,
                ),
                applies_to: match action.applies_to {
                    Some(applies_to) => ApplySpecModel {
                        principals: distinct::<ConditionalName>(
                            entity_references(applies_to.principal_types, namespace),
                        ),
                        resources: distinct::<ConditionalName>(
                            entity_references(applies_to.resource_types, namespace),
                        ),
                    },
                    None => ApplySpecModel { principals: Seq::empty(), resources: Seq::empty() },
                },
                parents: distinct::<ActionEntityUID<ConditionalName>>(
                    action_references(or_empty(action.member_of), namespace),
                ),
                attribute_types,
                attributes,
                loc,
            },
        ),
    }
}

/// What becomes of each reference to an action when it is resolved.
pub open spec fn actions_found(
    actions: Seq<ActionUidModel<ConditionalModel>>,
    defs: DefsModel,
) -> Seq<Result<ActionUidModel<NameModel>, Seq<ActionUidModel<ConditionalModel>>>> {
    Seq::new(actions.len(), |i: int| action_resolved(actions[i], defs))
}

/// A fragment with its references resolved: those in the context first, then those
/// to what the action applies to, then those to other actions. The first of these
/// three in which a reference stands for nothing is where the error is from.
pub open spec fn action_fragment_resolved(
    fragment: ActionFragmentModel<ConditionalModel, ConditionalModel>,
    defs: DefsModel,
) -> Result<ActionFragmentModel<NameModel, NameModel>, ErrorModel> {
    match type_resolved(fragment.context, defs) {
        Err(undefined) => Err(ErrorModel::TypeNotDefined(undefined)),
        Ok(context) => match apply_spec_resolved(fragment.applies_to, defs) {
            Err(error) => Err(error),
            Ok(applies_to) => match partition_undefined(
                partitioned(actions_found(fragment.parents, defs)),
            ) {
                Err(undefined) => Err(ErrorModel::ActionNotDefined(undefined)),
                Ok(parents) => Ok(
                    ActionFragmentModel {
                        context,
                        applies_to,
                        parents: distinct::<ActionEntityUID<InternalName>>(parents),
                        attribute_types: fragment.attribute_types,
                        attributes: fragment.attributes,
                        loc: fragment.loc,
                    },
                ),
            },
        },
    }
}

/// The references to actions that are made inside the given namespace.
fn make_action_references(actions: Vec<ActionRef<RawName>>, namespace: Option<&InternalName>) -> (r:
    Vec<ActionEntityUID<ConditionalName>>)
    ensures
        r.model() == action_references(actions.model(), namespace_model(namespace)),
{
    let ghost all = actions@;
    let ghost result = action_references(actions.model(), namespace_model(namespace));
    let mut out: Vec<ActionEntityUID<ConditionalName>> = Vec::new();
    for action in it: actions
        invariant
            it.seq() == all,
            all == actions@,
            result == action_references(actions.model(), namespace_model(namespace)),
            out@.len() == it.index(),
            forall|i: int|
                #![trigger out@[i]]
                0 <= i < out@.len() ==> out@[i].model() == result[i],
    {
        let ghost i = it.index() as int;
        assert(actions.model()[i] == action.model());
        out.push(action.conditionally_qualify_type_references(namespace));
    }
    assert(out.model() =~= result);
    out
}

/// Resolves references to actions: all the actions, or all those that are not
/// defined.
fn resolve_actions(actions: Vec<ActionEntityUID<ConditionalName>>, all_defs: &AllDefs) -> (r: Result<
    Vec<ActionEntityUID<InternalName>>,
    ActionNotDefinedError,
>)
    ensures
        r.model() == partition_undefined(
            partitioned(actions_found(actions.model(), all_defs.model())),
        ),
{
    let ghost all = actions@;
    let ghost steps = actions_found(actions.model(), all_defs.model());
    let mut results: Vec<Result<ActionEntityUID<InternalName>, ActionNotDefinedError>> = Vec::new();
    for action in it: actions
        invariant
            it.seq() == all,
            all == actions@,
            steps == actions_found(actions.model(), all_defs.model()),
            results@.len() == it.index(),
            forall|i: int|
                #![trigger results@[i]]
                0 <= i < results@.len() ==> results@[i].model() == steps[i],
    {
        let ghost i = it.index() as int;
        assert(actions.model()[i] == action.model());
        results.push(action.fully_qualify_type_references(all_defs));
    }
    assert(results.model() =~= steps);
    match partition_nonempty(results) {
        Ok(found) => Ok(found),
        Err(errs) => Err(ActionNotDefinedError::join_nonempty(errs)),
    }
}

impl ActionFragment<ConditionalName, ConditionalName> {
    /// What the declaration of the action `action_uid` says inside the given
    /// namespace.
    pub fn from_raw_action<E: RestrictedEvaluator>(
        action_uid: &EntityUID,
        action_type: ActionType<RawName>,
        schema_namespace: Option<&InternalName>,
        evaluator: &E,
        loc: Option<&Loc>,
    ) -> (r: Result<Self, SchemaError>)
        ensures
            r.model() == raw_action(
                action_uid.model(),
                action_type.model(),
                namespace_model(schema_namespace),
                *evaluator,
                match loc {
                    Some(place) => Some(place.model()),
                    None => None,
                },
            ),
    {
        let mut principal_types: Vec<RawName> = Vec::new();
        let mut resource_types: Vec<RawName> = Vec::new();
        let mut context: AttributesOrContext<RawName> = AttributesOrContext::default();
        if let Some(applies_to) = action_type.applies_to {
            principal_types = applies_to.principal_types;
            resource_types = applies_to.resource_types;
            context = applies_to.context;
        }
        let attributes = match action_type.attributes {
            Some(attributes) => attributes,
            None => Vec::new(),
        };
        let member_of = match action_type.member_of {
            Some(member_of) => member_of,
            None => Vec::new(),
        };
        let ghost principals = principal_types.model();
        let ghost resources = resource_types.model();
        let (attribute_types, attributes) = match convert_attr_jsonval_map_to_attributes(
            attributes,
            action_uid,
            evaluator,
        ) {
            Ok(converted) => converted,
            Err(e) => return Err(e),
        };
        proof {
            raw_action_has_nothing_twice(
                action_uid.model(),
                action_type.model(),
                namespace_model(schema_namespace),
                *evaluator,
                match loc {
                    Some(place) => Some(place.model()),
                    None => None,
                },
            );
            if action_type.applies_to is None {
                let ns = namespace_model(schema_namespace);
                assert(entity_references(principals, ns) =~= Seq::empty());
                assert(entity_references(resources, ns) =~= Seq::empty());
            }
        }
        let r = ActionFragment {
            context: context.into_inner().conditionally_qualify_type_references(schema_namespace),
            applies_to: ValidatorApplySpec::new(
                entity_type_references(principal_types, schema_namespace),
                entity_type_references(resource_types, schema_namespace),
            ),
            parents: keep_distinct(make_action_references(member_of, schema_namespace)),
            attribute_types,
            attributes,
            loc: into_maybe_loc(loc),
        };
        Ok(r)
    }

    /// Replaces each reference in the fragment by what it stands for.
    ///
    /// `all_defs` needs to contain the full set of all fully-qualified typenames
    /// and actions that are defined in the schema (in all schema fragments).
    pub fn fully_qualify_type_references(self, all_defs: &AllDefs) -> (r: Result<
        ActionFragment<InternalName, EntityType>,
        SchemaError,
    >)
        ensures
            r.model() == action_fragment_resolved(self.model(), all_defs.model()),
    {
        proof {
            use_type_invariant(&self);
            resolved_action_has_nothing_twice(self.model(), all_defs.model());
        }
        let context = match self.context.fully_qualify_type_references(all_defs) {
            Ok(context) => context,
            Err(e) => return Err(SchemaError::TypeNotDefined(e)),
        };
        let applies_to = match self.applies_to.fully_qualify_type_references(all_defs) {
            Ok(applies_to) => applies_to,
            Err(e) => return Err(e),
        };
        let parents = match resolve_actions(self.parents, all_defs) {
            Ok(parents) => keep_distinct(parents),
            Err(e) => return Err(SchemaError::ActionNotDefined(e)),
        };
        Ok(
            ActionFragment {
                context,
                applies_to,
                parents,
                attribute_types: self.attribute_types,
                attributes: self.attributes,
                loc: self.loc,
            },
        )
    }
}

/// The actions that are declared, each under the entity that it is. These are fully
/// qualified; whether the references inside the fragments are depends on `N` and
/// `A`.
///
/// All actions have the same entity type, `Action`, but for the namespace in front
/// of it.
///
/// No action is declared twice.
#[derive(Debug)]
pub struct ActionsDef<N: Keyed, A: Keyed> {
    actions: Vec<(EntityUID, ActionFragment<N, A>)>,
}

impl<N: Keyed, A: Keyed> Model for ActionsDef<N, A> {
    type M = Seq<(UidModel, ActionFragmentModel<N::M, A::M>)>;

    closed spec fn model(&self) -> Seq<(UidModel, ActionFragmentModel<N::M, A::M>)> {
        self.actions.model()
    }
}

/// Whether no action is declared twice.
pub open spec fn actions_once<F>(actions: Seq<(UidModel, F)>) -> bool {
    all_distinct::<EntityUID>(names_of(actions))
}

impl<N: Keyed + Duplicate, A: Keyed + Duplicate> Clone for ActionsDef<N, A> {
    fn clone(&self) -> (r: Self)
        ensures
            r.model() == self.model(),
    {
        proof {
            use_type_invariant(self);
        }
        ActionsDef { actions: self.actions.duplicate() }
    }
}

impl<N: Keyed, A: Keyed> ActionsDef<N, A> {
    #[verifier::type_invariant]
    spec fn is_well_formed(self) -> bool {
        actions_once(self.model())
    }

    /// No actions.
    pub fn new() -> (r: Self)
        ensures
            r.model() == Seq::<(UidModel, ActionFragmentModel<N::M, A::M>)>::empty(),
    {
        ActionsDef { actions: Vec::new() }
    }

    /// The actions, each under the entity that it is.
    pub fn actions(&self) -> (r: &Vec<(EntityUID, ActionFragment<N, A>)>)
        ensures
            r.model() == self.model(),
            actions_once(r.model()),
    {
        proof {
            use_type_invariant(self);
        }
        &self.actions
    }
}

/// Two declarations of the same action.
pub open spec fn duplicate_action() -> spec_fn(UidModel, UidModel) -> ErrorModel {
    |earlier: UidModel, later: UidModel| ErrorModel::DuplicateAction(later.eid)
}

/// The action that is declared under `name` inside `namespace`.
pub open spec fn declared_action(name: Seq<char>, namespace: Option<NameModel>) -> Result<
    UidModel,
    ErrorModel,
> {
    match action_entity(action_qualified(ActionRefModel { id: name, ty: None }, namespace)) {
        Ok(uid) => Ok(uid),
        Err(name) => Err(ErrorModel::ReservedName(name)),
    }
}

/// The fragment of the action that is declared under `name` inside `namespace`.
pub open spec fn declared_fragment<E: RestrictedEvaluator>(
    name: Seq<char>,
    action: ActionTypeModel<NameModel>,
    namespace: Option<NameModel>,
    evaluator: E,
) -> Result<ActionFragmentModel<ConditionalModel, ConditionalModel>, ErrorModel> {
    match declared_action(name, namespace) {
        Ok(uid) => raw_action(uid, action, namespace, evaluator, action.loc),
        Err(error) => Err(error),
    }
}

/// The declarations of actions inside `namespace`.
pub open spec fn action_declarations<E: RestrictedEvaluator>(
    actions: Seq<(Seq<char>, ActionTypeModel<NameModel>)>,
    namespace: Option<NameModel>,
    evaluator: E,
) -> Seq<
    Declaration<UidModel, ActionFragmentModel<ConditionalModel, ConditionalModel>, ErrorModel>,
> {
    Seq::new(
        actions.len(),
        |i: int|
            (
                declared_action(actions[i].0, namespace),
                declared_fragment(actions[i].0, actions[i].1, namespace, evaluator),
            ),
    )
}

/// The actions of `actions` inside `namespace`.
pub open spec fn raw_actions<E: RestrictedEvaluator>(
    actions: Seq<(Seq<char>, ActionTypeModel<NameModel>)>,
    namespace: Option<NameModel>,
    evaluator: E,
) -> Result<
    Seq<(UidModel, ActionFragmentModel<ConditionalModel, ConditionalModel>)>,
    ErrorModel,
> {
    gathered::<EntityUID, ActionFragmentModel<ConditionalModel, ConditionalModel>, ErrorModel>(
        action_declarations(actions, namespace, evaluator),
        duplicate_action(),
    )
}

/// What becomes of each action when references are resolved.
pub open spec fn action_steps(
    actions: Seq<(UidModel, ActionFragmentModel<ConditionalModel, ConditionalModel>)>,
    defs: DefsModel,
) -> Seq<Result<(UidModel, ActionFragmentModel<NameModel, NameModel>), ErrorModel>> {
    Seq::new(
        actions.len(),
        |i: int|
            match action_fragment_resolved(actions[i].1, defs) {
                Ok(fragment) => Ok((actions[i].0, fragment)),
                Err(error) => Err(error),
            },
    )
}

/// The actions with their references resolved, or all the errors as one.
pub open spec fn actions_resolved(
    actions: Seq<(UidModel, ActionFragmentModel<ConditionalModel, ConditionalModel>)>,
    defs: DefsModel,
) -> Result<Seq<(UidModel, ActionFragmentModel<NameModel, NameModel>)>, ErrorModel> {
    partition_joined(partitioned(action_steps(actions, defs)))
}

/// In what a declaration of an action says nothing occurs twice.
proof fn raw_action_has_nothing_twice<E: RestrictedEvaluator>(
    uid: UidModel,
    action: ActionTypeModel<NameModel>,
    namespace: Option<NameModel>,
    evaluator: E,
    loc: Option<LocModel>,
)
    ensures
        raw_action(uid, action, namespace, evaluator, loc) matches Ok(r) ==> nothing_twice::<
            ConditionalName,
            ConditionalName,
        >(r),
{
    if let Some(applies_to) = action.applies_to {
        distinct_keeps_keys::<ConditionalName>(
            entity_references(applies_to.principal_types, namespace),
        );
        distinct_keeps_keys::<ConditionalName>(
            entity_references(applies_to.resource_types, namespace),
        );
    }
    distinct_keeps_keys::<ActionEntityUID<ConditionalName>>(
        action_references(or_empty(action.member_of), namespace),
    );
    converted_attributes_are_in_order(or_empty(action.attributes), uid, evaluator);
}

/// Where nothing occurs twice in a fragment of an action, nothing does once references
/// are resolved.
proof fn resolved_action_has_nothing_twice(
    fragment: ActionFragmentModel<ConditionalModel, ConditionalModel>,
    defs: DefsModel,
)
    requires
        nothing_twice::<ConditionalName, ConditionalName>(fragment),
    ensures
        action_fragment_resolved(fragment, defs) matches Ok(r) ==> nothing_twice::<
            InternalName,
            EntityType,
        >(r),
{
    distinct_keeps_keys::<EntityType>(oks(entity_types_found(fragment.applies_to.principals, defs)));
    distinct_keeps_keys::<EntityType>(oks(entity_types_found(fragment.applies_to.resources, defs)));
    if let Ok(found) = partitioned(actions_found(fragment.parents, defs)) {
        distinct_keeps_keys::<ActionEntityUID<InternalName>>(found);
    }
}

/// Actions stay declared under the same names when references are resolved.
pub proof fn actions_keep_names(
    actions: Seq<(UidModel, ActionFragmentModel<ConditionalModel, ConditionalModel>)>,
    defs: DefsModel,
)
    ensures
        actions_resolved(actions, defs) matches Ok(r) ==> names_of(r) == names_of(actions),
{
    let steps = action_steps(actions, defs);
    partitioned_ok(steps);
    if let Ok(r) = actions_resolved(actions, defs) {
        assert forall|i: int| 0 <= i < steps.len() implies #[trigger] r[i].0 == actions[i].0 by {
            assert(steps[i] is Ok);
        }
        assert(names_of(r) =~= names_of(actions));
    }
}

/// The action that is declared under a name: its type is always (unconditionally)
/// prefixed by the current namespace.
fn create_action_entity_uid_default_type(
    action_name: &SmolStr,
    schema_namespace: Option<&InternalName>,
) -> (r: ActionEntityUID<InternalName>)
    ensures
        r.model() == action_qualified(
            ActionRefModel { id: chars_of(*action_name), ty: None },
            namespace_model(schema_namespace),
        ),
{
    ActionRef::default_type(smol_clone(action_name)).qualify_with(schema_namespace)
}

impl ActionsDef<ConditionalName, ConditionalName> {
    /// The actions of `schema_file_actions`, which are declared inside
    /// `schema_namespace`.
    pub fn from_raw_actions<E: RestrictedEvaluator>(
        schema_file_actions: Vec<(SmolStr, ActionType<RawName>)>,
        schema_namespace: Option<&InternalName>,
        evaluator: &E,
    ) -> (r: Result<Self, SchemaError>)
        ensures
            r.model() == raw_actions(
                schema_file_actions.model(),
                namespace_model(schema_namespace),
                *evaluator,
            ),
            r matches Ok(defs) ==> actions_once(defs.model()),
    {
        let ghost all = schema_file_actions@;
        let ghost ns = namespace_model(schema_namespace);
        let ghost declarations = action_declarations(schema_file_actions.model(), ns, *evaluator);
        let mut actions: Vec<(EntityUID, ActionFragment<ConditionalName, ConditionalName>)> =
            Vec::new();
        proof {
            gathered_ok::<
                EntityUID,
                ActionFragmentModel<ConditionalModel, ConditionalModel>,
                ErrorModel,
            >(declarations, duplicate_action());
            assert(declarations.take(0) =~= Seq::empty());
        }
        for entry in it: schema_file_actions
            invariant
                it.seq() == all,
                all == schema_file_actions@,
                ns == namespace_model(schema_namespace),
                declarations == action_declarations(schema_file_actions.model(), ns, *evaluator),
                gathered::<
                    EntityUID,
                    ActionFragmentModel<ConditionalModel, ConditionalModel>,
                    ErrorModel,
                >(declarations.take(it.index() as int), duplicate_action()) == Ok::<
                    Seq<(UidModel, ActionFragmentModel<ConditionalModel, ConditionalModel>)>,
                    ErrorModel,
                >(actions.model()),
        {
            let ghost i = it.index() as int;
            let (action_name, action_type) = entry;
            proof {
                assert(schema_file_actions.model()[i] == entry.model());
                gathered_push::<
                    EntityUID,
                    ActionFragmentModel<ConditionalModel, ConditionalModel>,
                    ErrorModel,
                >(declarations, duplicate_action(), i);
                if gathered::<
                    EntityUID,
                    ActionFragmentModel<ConditionalModel, ConditionalModel>,
                    ErrorModel,
                >(declarations.take(i + 1), duplicate_action()) is Err {
                    gathered_prefix::<
                        EntityUID,
                        ActionFragmentModel<ConditionalModel, ConditionalModel>,
                        ErrorModel,
                    >(declarations, duplicate_action(), i + 1);
                }
            }
            let action_uid = match create_action_entity_uid_default_type(
                &action_name,
                schema_namespace,
            ).try_into_entity() {
                Ok(uid) => uid,
                Err(e) => return Err(SchemaError::ReservedName(e)),
            };
            match position(&actions, &action_uid) {
                None => {
                    let loc = clone_loc(&action_type.loc);
                    match ActionFragment::from_raw_action(
                        &action_uid,
                        action_type,
                        schema_namespace,
                        evaluator,
                        as_loc_ref(&loc),
                    ) {
                        Ok(fragment) => actions.push((action_uid, fragment)),
                        Err(e) => return Err(e),
                    }
                },
                Some(_) => {
                    return Err(SchemaError::DuplicateAction(DuplicateActionError(action_name)));
                },
            }
        }
        proof {
            assert(declarations.take(all.len() as int) =~= declarations);
        }
        Ok(ActionsDef { actions })
    }

    /// Replaces each reference in the actions by what it stands for.
    ///
    /// `all_defs` needs to contain the full set of all fully-qualified typenames
    /// and actions that are defined in the schema (in all schema fragments).
    pub fn fully_qualify_type_references(self, all_defs: &AllDefs) -> (r: Result<
        ActionsDef<InternalName, EntityType>,
        SchemaError,
    >)
        ensures
            r.model() == actions_resolved(self.model(), all_defs.model()),
            r matches Ok(defs) ==> actions_once(defs.model()),
    {
        proof {
            use_type_invariant(&self);
        }
        let ghost all = self.actions@;
        let ghost steps = action_steps(self.model(), all_defs.model());
        let mut results: Vec<
            Result<(EntityUID, ActionFragment<InternalName, EntityType>), SchemaError>,
        > = Vec::new();
        for entry in it: self.actions
            invariant
                it.seq() == all,
                all == self.actions@,
                steps == action_steps(self.model(), all_defs.model()),
                results@.len() == it.index(),
                forall|i: int|
                    #![trigger results@[i]]
                    0 <= i < results@.len() ==> results@[i].model() == steps[i],
        {
            let ghost i = it.index() as int;
            proof {
                assert(self.model()[i] == entry.model());
            }
            let (uid, fragment) = entry;
            results.push(
                match fragment.fully_qualify_type_references(all_defs) {
                    Ok(fragment) => Ok((uid, fragment)),
                    Err(e) => Err(e),
                },
            );
        }
        assert(results.model() =~= steps);
        proof {
            actions_keep_names(self.model(), all_defs.model());
        }
        match partition_nonempty(results) {
            Ok(actions) => Ok(ActionsDef { actions }),
            Err(errs) => Err(SchemaError::join_nonempty(errs)),
        }
    }
}

} // verus!
