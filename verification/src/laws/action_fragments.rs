//! What the fragment of an action says of what was declared, and what becomes of it.

use crate::action_attributes::{attribute_conversions, attributes_converted};
use crate::action_uid::{
    action_conditional, action_qualified, action_resolved, first_defined_action, ActionEntityUID,
    ActionRefModel, ActionUidModel,
};
use crate::actions::{
    action_fragment_resolved, action_references, actions_found, raw_action, ActionFragmentModel,
};
use crate::apply_spec::{apply_spec_resolved, entity_types_found, ApplySpecModel};
use crate::declarations::ActionTypeModel;
use crate::defs::DefsModel;
use crate::err::{actions_not_defined, partition_undefined, types_not_defined, ErrorModel};
use crate::json_schema::{SchemaType, VariantModel};
use crate::keyed::{distinct, Keyed};
use crate::laws::fragments::{
    each_name_makes_its_reference, entity_made_in, lost, made_reference_is_unique, same_name,
    same_name_same_components, same_names, same_reference, same_reference_same_key, same_references,
};
use crate::laws::lists::{distinct_is_one_each, first_failure_counts, none_is_picked, one_each};
use crate::laws::qualification::{
    corresponds, found_in, found_name_is_unique, is_first_lost, is_found, is_inside, is_lost,
    is_made, lost_references_are_reported, made_in, none_lost, reference_is_found,
    reference_is_made, references_are_made_in_place, references_are_resolved_in_place,
};
use crate::names::{EntityType, InternalName, LocModel, NameModel, UidModel};
use crate::outcome::{concat, errs, oks, partitioned, partitioned_ok};
use crate::raw_name::{ConditionalModel, ConditionalName, ReferenceType};
use crate::value::RestrictedEvaluator;
use vstd::prelude::*;

verus! {

/// Whether `ty` is the type that is given with an action, or, where none is given, the
/// one that actions have by default.
pub open spec fn is_type_of(action: ActionRefModel<NameModel>, ty: NameModel) -> bool {
    match action.ty {
        Some(given) => ty == given,
        None => ty.path.len() == 0 && ty.id == "Action"@ && ty.loc is None,
    }
}

/// Whether a reference is the one that an action, as it is written, makes inside
/// `namespace`.
pub open spec fn is_action_made(
    action: ActionRefModel<NameModel>,
    reference: ActionUidModel<ConditionalModel>,
    namespace: Option<NameModel>,
) -> bool {
    &&& reference.id == action.id
    &&& is_type_of(action, reference.ty.raw)
    &&& is_made(reference.ty.raw, reference.ty, ReferenceType::Entity, namespace)
}

/// `is_action_made` as a relation.
pub open spec fn action_made_in(namespace: Option<NameModel>) -> spec_fn(
    ActionRefModel<NameModel>,
    ActionUidModel<ConditionalModel>,
) -> bool {
    |action: ActionRefModel<NameModel>, reference: ActionUidModel<ConditionalModel>|
        is_action_made(action, reference, namespace)
}

/// Whether two references to actions are the same, wherever they were written.
pub open spec fn same_action_references() -> spec_fn(
    ActionUidModel<ConditionalModel>,
    ActionUidModel<ConditionalModel>,
) -> bool {
    |a: ActionUidModel<ConditionalModel>, b: ActionUidModel<ConditionalModel>|
        a.id == b.id && same_reference(a.ty, b.ty)
}

/// Whether two actions are the same, wherever they were written.
pub open spec fn same_actions() -> spec_fn(
    ActionUidModel<NameModel>,
    ActionUidModel<NameModel>,
) -> bool {
    |a: ActionUidModel<NameModel>, b: ActionUidModel<NameModel>|
        a.id == b.id && same_name(a.ty, b.ty)
}

/// Whether the reserved identifier occurs in a name.
pub open spec fn holds_reserved(name: NameModel) -> bool {
    name.path.push(name.id).contains("__cedar"@)
}

/// Whether the action of that identifier and type is defined.
pub open spec fn action_counts(id: Seq<char>, ty: NameModel, defs: DefsModel) -> bool {
    !holds_reserved(ty) && defs.action.contains((ty.path.push(ty.id), id))
}

/// Whether an action is the first that a reference may stand for and that is defined.
pub open spec fn is_action_found(
    reference: ActionUidModel<ConditionalModel>,
    action: ActionUidModel<NameModel>,
    defs: DefsModel,
) -> bool {
    &&& action.id == reference.id
    &&& exists|k: int|
        0 <= k < reference.ty.possibilities.len() && #[trigger] reference.ty.possibilities[k]
            == action.ty && action_counts(action.id, action.ty, defs) && forall|i: int|
            0 <= i < k ==> !action_counts(
                action.id,
                #[trigger] reference.ty.possibilities[i],
                defs,
            )
}

/// `is_action_found` as a relation.
pub open spec fn action_stands_for(defs: DefsModel) -> spec_fn(
    ActionUidModel<ConditionalModel>,
    ActionUidModel<NameModel>,
) -> bool {
    |reference: ActionUidModel<ConditionalModel>, action: ActionUidModel<NameModel>|
        is_action_found(reference, action, defs)
}

/// Whether no action is defined that a reference may stand for.
pub open spec fn is_action_lost(
    reference: ActionUidModel<ConditionalModel>,
    defs: DefsModel,
) -> bool {
    forall|i: int|
        0 <= i < reference.ty.possibilities.len() ==> !action_counts(
            reference.id,
            #[trigger] reference.ty.possibilities[i],
            defs,
        )
}

/// `is_action_lost` as a property.
pub open spec fn lost_action(defs: DefsModel) -> spec_fn(ActionUidModel<ConditionalModel>) -> bool {
    |reference: ActionUidModel<ConditionalModel>| is_action_lost(reference, defs)
}

/// The reference that an action makes inside a namespace has its identifier, and a
/// type that is the given one, or the default one, as that name stands there.
pub proof fn action_reference_is_made(
    action: ActionRefModel<NameModel>,
    namespace: Option<NameModel>,
)
    ensures
        is_action_made(action, action_conditional(action, namespace), namespace),
{
    reference_is_made(action_conditional(action, namespace).ty.raw, namespace, ReferenceType::Entity);
}

/// An action that has to be inside a namespace keeps its identifier; its type, where it
/// has no namespace of its own, is put into that one.
pub proof fn qualified_action_is_inside(
    action: ActionRefModel<NameModel>,
    namespace: Option<NameModel>,
)
    ensures
        action_qualified(action, namespace).id == action.id,
        forall|ty: NameModel| #[trigger] is_type_of(action, ty) ==> match namespace {
            Some(ns) if ty.path.len() == 0 => is_inside(
                action_qualified(action, namespace).ty,
                ty,
                ns,
            ),
            _ => action_qualified(action, namespace).ty == ty,
        },
{
    assert forall|ty: NameModel| #[trigger] is_type_of(action, ty) implies match namespace {
        Some(ns) if ty.path.len() == 0 => is_inside(
            action_qualified(action, namespace).ty,
            ty,
            ns,
        ),
        _ => action_qualified(action, namespace).ty == ty,
    } by {
        assert(ty.path.len() == 0 ==> ty.path =~= Seq::empty());
    }
}

/// The place of what `first_defined_action` finds.
proof fn first_defined_action_place(id: Seq<char>, types: Seq<NameModel>, defs: DefsModel) -> (k:
    int)
    ensures
        first_defined_action(id, types, defs) is Some ==> {
            &&& 0 <= k < types.len()
            &&& types[k] == first_defined_action(id, types, defs)->0
            &&& action_counts(id, types[k], defs)
            &&& forall|i: int| 0 <= i < k ==> !action_counts(id, #[trigger] types[i], defs)
        },
        first_defined_action(id, types, defs) is None ==> forall|i: int|
            0 <= i < types.len() ==> !action_counts(id, #[trigger] types[i], defs),
    decreases types.len(),
{
    if types.len() == 0 {
        0
    } else if action_counts(id, types[0], defs) {
        0
    } else {
        let rest = types.skip(1);
        let k = first_defined_action_place(id, rest, defs);
        assert forall|i: int| 0 <= i < types.len() && (first_defined_action(id, types, defs) is Some
            ==> i < k + 1) implies !action_counts(id, #[trigger] types[i], defs) by {
            if i > 0 {
                assert(types[i] == rest[i - 1]);
                assert(!action_counts(id, rest[i - 1], defs));
            }
        }
        k + 1
    }
}

/// A reference to an action is resolved to the first that it may stand for and that is
/// defined. Where there is none, the reference itself, and nothing else, is reported.
pub proof fn action_is_found(reference: ActionUidModel<ConditionalModel>, defs: DefsModel)
    ensures
        action_resolved(reference, defs) matches Ok(action) ==> is_action_found(
            reference,
            action,
            defs,
        ),
        action_resolved(reference, defs) is Err <==> is_action_lost(reference, defs),
        action_resolved(reference, defs) matches Err(reported) ==> reported =~= seq![reference],
{
    let types = reference.ty.possibilities;
    let k = first_defined_action_place(reference.id, types, defs);
    if action_resolved(reference, defs) is Ok {
        assert(types[k] == action_resolved(reference, defs)->Ok_0.ty);
    }
}

/// A reference stands for one action at most.
pub proof fn found_action_is_unique(
    reference: ActionUidModel<ConditionalModel>,
    a: ActionUidModel<NameModel>,
    b: ActionUidModel<NameModel>,
    defs: DefsModel,
)
    requires
        is_action_found(reference, a, defs),
        is_action_found(reference, b, defs),
    ensures
        a == b,
{
    let types = reference.ty.possibilities;
    let k = choose|k: int|
        0 <= k < types.len() && #[trigger] types[k] == a.ty && action_counts(a.id, a.ty, defs)
            && forall|i: int| 0 <= i < k ==> !action_counts(a.id, #[trigger] types[i], defs);
    let l = choose|l: int|
        0 <= l < types.len() && #[trigger] types[l] == b.ty && action_counts(b.id, b.ty, defs)
            && forall|i: int| 0 <= i < l ==> !action_counts(b.id, #[trigger] types[i], defs);
    if k < l {
        assert(!action_counts(b.id, types[k], defs));
    }
    if l < k {
        assert(!action_counts(a.id, types[l], defs));
    }
}

/// The references that actions make inside a namespace, none twice, are those that they
/// make: all of them, and nothing else.
pub proof fn each_action_makes_its_reference(
    actions: Seq<ActionRefModel<NameModel>>,
    namespace: Option<NameModel>,
)
    ensures
        one_each(
            actions,
            distinct::<ActionEntityUID<ConditionalName>>(action_references(actions, namespace)),
            action_made_in(namespace),
            same_action_references(),
        ),
{
    let s = action_references(actions, namespace);
    let p = action_made_in(namespace);
    assert forall|i: int| 0 <= i < actions.len() implies p(#[trigger] actions[i], s[i]) by {
        action_reference_is_made(actions[i], namespace);
    }
    assert forall|i: int, c: ActionUidModel<ConditionalModel>|
        0 <= i < actions.len() && #[trigger] p(actions[i], c) implies c == s[i] by {
        action_reference_is_made(actions[i], namespace);
        assert(c.ty.raw.path =~= s[i].ty.raw.path);
        made_reference_is_unique(c.ty.raw, c.ty, s[i].ty, ReferenceType::Entity, namespace);
    }
    assert forall|
        a: ActionUidModel<ConditionalModel>,
        b: ActionUidModel<ConditionalModel>,
    | #[trigger]
        same_action_references()(a, b) <==> ActionEntityUID::<ConditionalName>::key(a)
            == ActionEntityUID::<ConditionalName>::key(b) by {
        same_reference_same_key(a.ty, b.ty);
    }
    distinct_is_one_each::<ActionRefModel<NameModel>, ActionEntityUID<ConditionalName>>(
        actions,
        s,
        p,
        same_action_references(),
    );
}

/// Whether a context is that of an action which does not say what it applies to: the
/// record without attributes.
pub open spec fn is_empty_context<N>(context: SchemaType<N>) -> bool {
    context matches SchemaType::Type { ty: VariantModel::Record(record), loc }
        && record.attributes.len() == 0 && !record.additional_attributes && loc is None
}

/// Whether a fragment says what the declaration of an action does inside `namespace`:
/// its context, the principals and the resources that it applies to, and its parents,
/// each name in them with the reference that it makes, and its place.
pub open spec fn action_declares(
    action: ActionTypeModel<NameModel>,
    fragment: ActionFragmentModel<ConditionalModel, ConditionalModel>,
    namespace: Option<NameModel>,
    loc: Option<LocModel>,
) -> bool {
    &&& fragment.loc == loc
    &&& match action.applies_to {
        Some(applies_to) => {
            &&& corresponds(applies_to.context, fragment.context, made_in(namespace))
            &&& one_each(
                applies_to.principal_types,
                fragment.applies_to.principals,
                entity_made_in(namespace),
                same_references(),
            )
            &&& one_each(
                applies_to.resource_types,
                fragment.applies_to.resources,
                entity_made_in(namespace),
                same_references(),
            )
        },
        None => {
            &&& is_empty_context(fragment.context)
            &&& fragment.applies_to.principals.len() == 0
            &&& fragment.applies_to.resources.len() == 0
        },
    }
    &&& match action.member_of {
        Some(member_of) => one_each(
            member_of,
            fragment.parents,
            action_made_in(namespace),
            same_action_references(),
        ),
        None => fragment.parents.len() == 0,
    }
}

/// The fragment of an action says what was declared. There is one exactly where the
/// attributes can be converted, which are none where none are written; they stand in
/// it as they were converted, and where they cannot be, what is wrong with them is the
/// error.
pub proof fn action_says_what_is_declared<E: RestrictedEvaluator>(
    uid: UidModel,
    action: ActionTypeModel<NameModel>,
    namespace: Option<NameModel>,
    evaluator: E,
    loc: Option<LocModel>,
)
    ensures
        raw_action(uid, action, namespace, evaluator, loc) matches Ok(fragment) ==> action_declares(
            action,
            fragment,
            namespace,
            loc,
        ),
        (match action.attributes {
            Some(attributes) => {
                match (
                    raw_action(uid, action, namespace, evaluator, loc),
                    attributes_converted(attributes, uid, evaluator),
                ) {
                    (Ok(fragment), Ok(converted)) => {
                        &&& fragment.attribute_types == converted.0
                        &&& fragment.attributes == converted.1
                    },
                    (Err(error), Err(cause)) => error == cause,
                    _ => false,
                }
            },
            None => {
                raw_action(uid, action, namespace, evaluator, loc) matches Ok(fragment)
                    && fragment.attribute_types.len() == 0 && fragment.attributes.len() == 0
            },
        }),
{
    if let Some(applies_to) = action.applies_to {
        references_are_made_in_place(applies_to.context, namespace);
        each_name_makes_its_reference(applies_to.principal_types, namespace);
        each_name_makes_its_reference(applies_to.resource_types, namespace);
    }
    match action.member_of {
        Some(member_of) => {
            each_action_makes_its_reference(member_of, namespace);
        },
        None => {
            assert(action_references(Seq::empty(), namespace).len() == 0);
        },
    }
    if action.attributes is None {
        no_attributes_are_converted(uid, evaluator);
    }
}

/// Where there are no attributes, there is nothing to convert.
pub proof fn no_attributes_are_converted<E: RestrictedEvaluator>(uid: UidModel, evaluator: E)
    ensures
        attributes_converted(Seq::empty(), uid, evaluator) matches Ok(converted)
            && converted.0.len() == 0 && converted.1.len() == 0,
{
    first_failure_counts(attribute_conversions(Seq::empty(), uid, evaluator));
}

/// Whether a name is the entity type that a reference stands for.
pub open spec fn entity_stands_for(defs: DefsModel) -> spec_fn(ConditionalModel, NameModel) -> bool {
    |reference: ConditionalModel, name: NameModel|
        is_found(reference, name, defs) && !holds_reserved(name)
}

/// Whether the fragment of an action is another with each reference replaced by what
/// it stands for, and the rest as it was.
pub open spec fn is_action_resolved(
    before: ActionFragmentModel<ConditionalModel, ConditionalModel>,
    after: ActionFragmentModel<NameModel, NameModel>,
    defs: DefsModel,
) -> bool {
    &&& corresponds(before.context, after.context, found_in(defs))
    &&& one_each(
        before.applies_to.principals,
        after.applies_to.principals,
        entity_stands_for(defs),
        same_names(),
    )
    &&& one_each(
        before.applies_to.resources,
        after.applies_to.resources,
        entity_stands_for(defs),
        same_names(),
    )
    &&& one_each(before.parents, after.parents, action_stands_for(defs), same_actions())
    &&& after.attribute_types == before.attribute_types
    &&& after.attributes == before.attributes
    &&& after.loc == before.loc
}

/// Whether a reference stands for a name that no entity type can have.
pub open spec fn is_reserved_for(
    reference: ConditionalModel,
    name: NameModel,
    defs: DefsModel,
) -> bool {
    is_found(reference, name, defs) && holds_reserved(name)
}

/// Whether a reference stands for an entity type.
pub open spec fn finds_entity_type(reference: ConditionalModel, defs: DefsModel) -> bool {
    exists|name: NameModel| #[trigger] is_found(reference, name, defs) && !holds_reserved(name)
}

/// What becomes of a reference to an entity type.
pub proof fn entity_type_is_found(reference: ConditionalModel, defs: DefsModel)
    ensures
        (match entity_types_found(seq![reference], defs)[0] {
            Ok(name) => is_found(reference, name, defs) && !holds_reserved(name),
            Err(ErrorModel::TypeNotDefined(reported)) => is_lost(reference, defs) && reported
                =~= seq![reference],
            Err(ErrorModel::ReservedName(name)) => is_reserved_for(reference, name, defs),
            _ => false,
        }),
{
    reference_is_found(reference, defs);
}

/// What becomes of each of several references to entity types.
proof fn entity_type_step(references: Seq<ConditionalModel>, defs: DefsModel, i: int)
    requires
        0 <= i < references.len(),
    ensures
        (match entity_types_found(references, defs)[i] {
            Ok(name) => is_found(references[i], name, defs) && !holds_reserved(name),
            Err(ErrorModel::TypeNotDefined(reported)) => is_lost(references[i], defs) && reported
                =~= seq![references[i]],
            Err(ErrorModel::ReservedName(name)) => is_reserved_for(references[i], name, defs),
            _ => false,
        }),
{
    entity_type_is_found(references[i], defs);
    assert(entity_types_found(seq![references[i]], defs)[0] == entity_types_found(
        references,
        defs,
    )[i]);
}

/// What references to entity types that are all found become, none twice.
proof fn each_entity_type_is_found(references: Seq<ConditionalModel>, defs: DefsModel)
    requires
        errs(entity_types_found(references, defs)).len() == 0,
    ensures
        one_each(
            references,
            distinct::<EntityType>(oks(entity_types_found(references, defs))),
            entity_stands_for(defs),
            same_names(),
        ),
{
    let steps = entity_types_found(references, defs);
    let names = oks(steps);
    let p = entity_stands_for(defs);
    partitioned_ok(steps);
    assert(partitioned(steps) == Ok::<Seq<NameModel>, Seq<ErrorModel>>(names));
    assert forall|i: int| 0 <= i < references.len() implies p(#[trigger] references[i], names[i]) by {
        entity_type_step(references, defs, i);
        assert(steps[i] == Ok::<NameModel, ErrorModel>(names[i]));
    }
    assert forall|i: int, c: NameModel|
        0 <= i < references.len() && #[trigger] p(references[i], c) implies c == names[i] by {
        assert(p(references[i], names[i]));
        found_name_is_unique(references[i], c, names[i], defs);
    }
    assert forall|a: NameModel, b: NameModel| #[trigger]
        same_names()(a, b) <==> EntityType::key(a) == EntityType::key(b) by {
        same_name_same_components(a, b);
    }
    distinct_is_one_each::<ConditionalModel, EntityType>(references, names, p, same_names());
}

/// What an action applies to, once resolved, is what each reference in it stands for:
/// principals stay principals and resources resources, and none is left out.
pub proof fn apply_spec_is_resolved_in_place(
    spec: ApplySpecModel<ConditionalModel>,
    defs: DefsModel,
)
    ensures
        apply_spec_resolved(spec, defs) matches Ok(r) ==> {
            &&& one_each(spec.principals, r.principals, entity_stands_for(defs), same_names())
            &&& one_each(spec.resources, r.resources, entity_stands_for(defs), same_names())
        },
{
    if apply_spec_resolved(spec, defs) is Ok {
        each_entity_type_is_found(spec.principals, defs);
        each_entity_type_is_found(spec.resources, defs);
    }
}

/// The actions that references stand for, none twice, are those that they stand for:
/// all of them, and nothing else.
proof fn each_action_is_found(references: Seq<ActionUidModel<ConditionalModel>>, defs: DefsModel)
    ensures
        partition_undefined(partitioned(actions_found(references, defs))) matches Ok(actions)
            ==> one_each(
            references,
            distinct::<ActionEntityUID<InternalName>>(actions),
            action_stands_for(defs),
            same_actions(),
        ),
{
    let steps = actions_found(references, defs);
    partitioned_ok(steps);
    if let Ok(actions) = partition_undefined(partitioned(steps)) {
        let p = action_stands_for(defs);
        assert forall|i: int| 0 <= i < references.len() implies p(
            #[trigger] references[i],
            actions[i],
        ) by {
            action_is_found(references[i], defs);
            assert(steps[i] == Ok::<
                ActionUidModel<NameModel>,
                Seq<ActionUidModel<ConditionalModel>>,
            >(actions[i]));
        }
        assert forall|i: int, c: ActionUidModel<NameModel>|
            0 <= i < references.len() && #[trigger] p(references[i], c) implies c == actions[i] by {
            assert(p(references[i], actions[i]));
            found_action_is_unique(references[i], c, actions[i], defs);
        }
        assert forall|a: ActionUidModel<NameModel>, b: ActionUidModel<NameModel>| #[trigger]
            same_actions()(a, b) <==> ActionEntityUID::<InternalName>::key(a) == ActionEntityUID::<
                InternalName,
            >::key(b) by {
            same_name_same_components(a.ty, b.ty);
        }
        distinct_is_one_each::<ActionUidModel<ConditionalModel>, ActionEntityUID<InternalName>>(
            references,
            actions,
            p,
            same_actions(),
        );
    }
}

/// The fragment of an action that is fully qualified has the context, the principals,
/// the resources and the parents that it had before, all of them, with each reference
/// replaced by what it stands for; its attributes and its place stay.
pub proof fn action_is_resolved_in_place(
    fragment: ActionFragmentModel<ConditionalModel, ConditionalModel>,
    defs: DefsModel,
)
    ensures
        action_fragment_resolved(fragment, defs) matches Ok(r) ==> is_action_resolved(
            fragment,
            r,
            defs,
        ),
{
    references_are_resolved_in_place(fragment.context, defs);
    apply_spec_is_resolved_in_place(fragment.applies_to, defs);
    each_action_is_found(fragment.parents, defs);
}

/// The undefined types that the errors of references report are those references that
/// stand for nothing; no undefined actions are reported.
proof fn lost_entity_types_are_reported(references: Seq<ConditionalModel>, defs: DefsModel)
    ensures
        types_not_defined(errs(entity_types_found(references, defs))) =~= references.filter(
            lost(defs),
        ),
        actions_not_defined(errs(entity_types_found(references, defs))).len() == 0,
    decreases references.len(),
{
    reveal(Seq::filter);
    let steps = entity_types_found(references, defs);
    if references.len() > 0 {
        let front = references.drop_last();
        lost_entity_types_are_reported(front, defs);
        assert(steps.drop_last() =~= entity_types_found(front, defs));
        entity_type_step(references, defs, references.len() - 1);
        reference_is_found(references.last(), defs);
        if steps.last() is Err {
            assert(errs(steps).drop_last() =~= errs(steps.drop_last()));
        }
    }
}

/// The errors of steps one behind the other.
proof fn errors_of_both<T, E>(a: Seq<Result<T, E>>, b: Seq<Result<T, E>>)
    ensures
        errs(a + b) =~= errs(a) + errs(b),
    decreases b.len(),
{
    if b.len() == 0 {
        assert(a + b =~= a);
    } else {
        errors_of_both(a, b.drop_last());
        assert((a + b).drop_last() =~= a + b.drop_last());
    }
}

/// The first of the errors of several steps is that of the first step that failed.
proof fn first_error_is_of_first<T, E>(steps: Seq<Result<T, E>>) -> (k: int)
    requires
        errs(steps).len() > 0,
    ensures
        0 <= k < steps.len(),
        steps[k] == Err::<T, E>(errs(steps)[0]),
        forall|i: int| 0 <= i < k ==> (#[trigger] steps[i]) is Ok,
    decreases steps.len(),
{
    let front = steps.drop_last();
    if errs(front).len() > 0 {
        let k = first_error_is_of_first(front);
        assert forall|i: int| 0 <= i < k implies (#[trigger] steps[i]) is Ok by {
            assert(front[i] is Ok);
        }
        k
    } else {
        partitioned_ok(front);
        assert forall|i: int| 0 <= i < steps.len() - 1 implies (#[trigger] steps[i]) is Ok by {
            assert(front[i] is Ok);
        }
        steps.len() - 1
    }
}

/// Whether `name` is the first that one of the references stands for and that no entity
/// type can have.
pub open spec fn is_first_reserved(
    references: Seq<ConditionalModel>,
    name: NameModel,
    defs: DefsModel,
) -> bool {
    exists|k: int|
        0 <= k < references.len() && is_reserved_for(#[trigger] references[k], name, defs)
            && forall|i: int|
            0 <= i < k ==> finds_entity_type(#[trigger] references[i], defs)
}

/// What an action applies to can be resolved exactly where each principal and each
/// resource stands for an entity type. Where some stand for nothing, these are
/// reported, the principals first. Otherwise the first that stands for a reserved name
/// is.
pub proof fn apply_spec_reports_what_is_lost(
    spec: ApplySpecModel<ConditionalModel>,
    defs: DefsModel,
)
    ensures
        ({
            let all = spec.principals + spec.resources;
            let r = apply_spec_resolved(spec, defs);
            &&& r is Ok <==> forall|i: int|
                0 <= i < all.len() ==> finds_entity_type(#[trigger] all[i], defs)
            &&& r matches Err(error) ==> if all.filter(lost(defs)).len() > 0 {
                error == ErrorModel::TypeNotDefined(all.filter(lost(defs)))
            } else {
                error matches ErrorModel::ReservedName(name) && is_first_reserved(all, name, defs)
            }
        }),
{
    let all = spec.principals + spec.resources;
    let a = entity_types_found(spec.principals, defs);
    let b = entity_types_found(spec.resources, defs);
    let steps = entity_types_found(all, defs);
    assert(steps =~= a + b);
    errors_of_both(a, b);
    lost_entity_types_are_reported(all, defs);
    none_is_picked(all, lost(defs));
    partitioned_ok(steps);
    if errs(steps).len() == 0 {
        assert forall|i: int| 0 <= i < all.len() implies finds_entity_type(
            #[trigger] all[i],
            defs,
        ) by {
            entity_type_step(all, defs, i);
            assert(steps[i] is Ok);
            assert(is_found(all[i], steps[i]->Ok_0, defs));
        }
    } else {
        let k = first_error_is_of_first(steps);
        entity_type_step(all, defs, k);
        if all.filter(lost(defs)).len() == 0 {
            assert(!lost(defs)(all[k]));
            let name = errs(steps)[0]->ReservedName_0;
            assert(is_reserved_for(all[k], name, defs));
            assert forall|i: int| 0 <= i < k implies finds_entity_type(
                #[trigger] all[i],
                defs,
            ) by {
                entity_type_step(all, defs, i);
                assert(steps[i] is Ok);
                assert(is_found(all[i], steps[i]->Ok_0, defs));
            }
            assert(is_first_reserved(all, name, defs));
        }
        if finds_entity_type(all[k], defs) {
            let name = choose|name: NameModel| #[trigger]
                is_found(all[k], name, defs) && !holds_reserved(name);
            assert(is_found(all[k], name, defs));
            if let ErrorModel::ReservedName(other) = errs(steps)[0] {
                found_name_is_unique(all[k], name, other, defs);
            }
        }
    }
}

/// Of references to actions that are resolved together, those that stand for nothing
/// are reported: all of them, in order, and nothing else.
pub proof fn all_lost_actions_are_reported(
    references: Seq<ActionUidModel<ConditionalModel>>,
    defs: DefsModel,
)
    ensures
        concat(errs(actions_found(references, defs))) =~= references.filter(lost_action(defs)),
        partition_undefined(partitioned(actions_found(references, defs))) is Err
            <==> references.filter(lost_action(defs)).len() > 0,
        partition_undefined(partitioned(actions_found(references, defs))) matches Err(reported)
            ==> reported =~= references.filter(lost_action(defs)),
    decreases references.len(),
{
    reveal(Seq::filter);
    let steps = actions_found(references, defs);
    none_is_picked(references, lost_action(defs));
    partitioned_ok(steps);
    assert forall|i: int| 0 <= i < references.len() implies ((#[trigger] steps[i]) is Err
        <==> lost_action(defs)(references[i])) by {
        action_is_found(references[i], defs);
    }
    if partitioned(steps) is Err {
        let i = choose|i: int| 0 <= i < steps.len() && (#[trigger] steps[i]) is Err;
        assert(lost_action(defs)(references[i]));
    } else {
        assert forall|i: int| 0 <= i < references.len() implies !lost_action(defs)(
            #[trigger] references[i],
        ) by {
            assert(steps[i] is Ok);
        }
    }
    if references.len() > 0 {
        let front = references.drop_last();
        all_lost_actions_are_reported(front, defs);
        assert(steps.drop_last() =~= actions_found(front, defs));
        action_is_found(references.last(), defs);
        assert(steps.last() == action_resolved(references.last(), defs));
        if steps.last() is Err {
            let all = errs(steps);
            assert(all.drop_last() =~= errs(steps.drop_last()));
            assert(all.last() =~= seq![references.last()]);
        }
    }
}

/// The fragment of an action can be fully qualified exactly where nothing in it stands
/// for nothing and no principal or resource for a reserved name. Otherwise the first
/// reference in the context that stands for nothing is reported; or else what is wrong
/// with the principals and resources; or else all parents that stand for nothing.
pub proof fn action_reports_what_is_lost(
    fragment: ActionFragmentModel<ConditionalModel, ConditionalModel>,
    defs: DefsModel,
)
    ensures
        (match action_fragment_resolved(fragment, defs) {
            Ok(_) => {
                &&& none_lost(fragment.context, defs)
                &&& apply_spec_resolved(fragment.applies_to, defs) is Ok
                &&& fragment.parents.filter(lost_action(defs)).len() == 0
            },
            Err(error) => {
                if !none_lost(fragment.context, defs) {
                    error matches ErrorModel::TypeNotDefined(reported) && reported.len() == 1
                        && is_first_lost(fragment.context, reported[0], defs)
                } else if apply_spec_resolved(fragment.applies_to, defs) is Err {
                    Err::<ApplySpecModel<NameModel>, ErrorModel>(error) == apply_spec_resolved(
                        fragment.applies_to,
                        defs,
                    )
                } else {
                    &&& fragment.parents.filter(lost_action(defs)).len() > 0
                    &&& error == ErrorModel::ActionNotDefined(
                        fragment.parents.filter(lost_action(defs)),
                    )
                }
            },
        }),
{
    lost_references_are_reported(fragment.context, defs);
    all_lost_actions_are_reported(fragment.parents, defs);
}

} // verus!
