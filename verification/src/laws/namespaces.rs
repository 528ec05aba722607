//! What becomes of the definition of a namespace as a whole.

use crate::action_attributes::attributes_converted;
use crate::actions::{
    action_declarations, action_steps, declared_action, duplicate_action, raw_action, raw_actions,
    ActionFragmentModel,
};
use crate::common_types::{
    common_type_declarations, common_type_steps, conditional_common_types, duplicate_common_type,
    raw_common_types, typedef_declarations,
};
use crate::declarations::{
    ActionBehavior, ActionTypeModel, CommonTypeModel, DefinitionModel, EntityDeclarationModel,
};
use crate::defs::DefsModel;
use crate::entity_types::{
    duplicate_entity_type, entity_type_declarations, entity_type_steps, raw_entity_types,
    FragmentModel,
};
use crate::err::ErrorModel;
use crate::gathered::{first_refused_is_reported, gathered_ok};
use crate::json_schema::SchemaType;
use crate::keyed::Keyed;
use crate::laws::action_fragments::{
    action_declares, action_is_resolved_in_place, action_says_what_is_declared, holds_reserved,
    is_action_resolved,
};
use crate::laws::declared::{
    common_types_are_declared_once, no_id_twice, typedefs_are_declared_once,
};
use crate::laws::fragments::{
    declares, fragment_is_resolved_in_place, fragment_says_what_is_declared, is_fragment_resolved,
    same_name_same_components,
};
use crate::laws::qualification::{
    corresponds, found_in, made_in, references_are_made_in_place, references_are_resolved_in_place,
};
use crate::laws::values::{attributes_are_converted, converts, is_of_attribute, reports_unconverted};
use crate::names::{
    qualified, simple_name, EntityType, EntityUID, InternalName, LocModel, NameModel, UidModel,
};
use crate::namespace_def::{
    behavior_checked, definition_processed, namespace_resolved, with_attributes, NamespaceModel,
};
use crate::outcome::partitioned_ok;
use crate::raw_name::ConditionalModel;
use crate::sorting::{has_name, in_order, not_behind, text_order, text_order_is_total};
use crate::value::{JsonModel, RestrictedEvaluator};
use vstd::prelude::*;

verus! {

/// Whether `full` is the name of what is declared as `id` in `namespace`.
pub open spec fn is_declared_as(
    full: NameModel,
    id: Seq<char>,
    loc: Option<LocModel>,
    namespace: Option<NameModel>,
) -> bool {
    &&& full.id == id
    &&& full.loc == loc
    &&& match namespace {
        Some(ns) => full.path == ns.path.push(ns.id),
        None => full.path.len() == 0,
    }
}

/// Whether `uid` is the action that is declared as `name` in `namespace`.
pub open spec fn is_declared_action(
    uid: UidModel,
    name: Seq<char>,
    namespace: Option<NameModel>,
) -> bool {
    uid.eid == name && is_declared_as(uid.ty, "Action"@, None, namespace)
}

/// What is declared has its identifier as its name, in the namespace.
proof fn declared_as_its_identifier(
    id: Seq<char>,
    loc: Option<LocModel>,
    namespace: Option<NameModel>,
)
    ensures
        is_declared_as(qualified(simple_name(id, loc), namespace), id, loc, namespace),
{
}

/// Two things that are declared in one namespace have the same name exactly where they
/// have the same identifier.
proof fn same_where_identifiers_are(
    a: NameModel,
    b: NameModel,
    x: Seq<char>,
    y: Seq<char>,
    x_loc: Option<LocModel>,
    y_loc: Option<LocModel>,
    namespace: Option<NameModel>,
)
    requires
        is_declared_as(a, x, x_loc, namespace),
        is_declared_as(b, y, y_loc, namespace),
    ensures
        a.components() == b.components() <==> x == y,
{
    same_name_same_components(a, b);
    assert(a.path =~= b.path);
}

/// Whether the attributes of a fragment are those of the declaration: one type and one
/// value for each, or none where none are written.
pub open spec fn attributes_say<E: RestrictedEvaluator>(
    action: ActionTypeModel<NameModel>,
    fragment: ActionFragmentModel<ConditionalModel, ConditionalModel>,
    evaluator: E,
) -> bool {
    &&& fragment.attribute_types.len() == fragment.attributes.len()
    &&& match action.attributes {
        None => fragment.attributes.len() == 0,
        Some(attributes) => {
            &&& forall|j: int|
                0 <= j < fragment.attributes.len() ==> #[trigger] is_of_attribute(
                    attributes,
                    fragment.attribute_types[j],
                    fragment.attributes[j],
                    evaluator,
                )
            &&& forall|i: int|
                0 <= i < attributes.len() ==> #[trigger] has_name(
                    fragment.attribute_types,
                    attributes[i].0,
                )
        },
    }
}

/// Whether common types are what was declared: each under its name in the namespace, and
/// built as it was written.
pub open spec fn common_types_say(
    types: Seq<(Seq<char>, CommonTypeModel<NameModel>)>,
    defs: Seq<(NameModel, SchemaType<ConditionalModel>)>,
    namespace: Option<NameModel>,
) -> bool {
    &&& defs.len() == types.len()
    &&& forall|i: int|
        0 <= i < types.len() ==> {
            &&& is_declared_as((#[trigger] defs[i]).0, types[i].0, types[i].1.loc, namespace)
            &&& corresponds(types[i].1.ty, defs[i].1, made_in(namespace))
        }
}

/// Whether entity types are what was declared: each under its name in the namespace, with
/// a fragment that says what its declaration does.
pub open spec fn entity_types_say(
    types: Seq<(Seq<char>, EntityDeclarationModel<NameModel>)>,
    defs: Seq<(NameModel, FragmentModel<ConditionalModel>)>,
    namespace: Option<NameModel>,
) -> bool {
    &&& defs.len() == types.len()
    &&& forall|i: int|
        0 <= i < types.len() ==> {
            &&& is_declared_as((#[trigger] defs[i]).0, types[i].0, types[i].1.loc, namespace)
            &&& declares(types[i].1, defs[i].1, namespace)
        }
}

/// Whether actions are what was declared: each under its name in the namespace, with a
/// fragment that says what its declaration does, at its place.
pub open spec fn actions_say<E: RestrictedEvaluator>(
    actions: Seq<(Seq<char>, ActionTypeModel<NameModel>)>,
    defs: Seq<(UidModel, ActionFragmentModel<ConditionalModel, ConditionalModel>)>,
    namespace: Option<NameModel>,
    evaluator: E,
) -> bool {
    &&& defs.len() == actions.len()
    &&& forall|i: int|
        0 <= i < actions.len() ==> {
            &&& is_declared_action((#[trigger] defs[i]).0, actions[i].0, namespace)
            &&& action_declares(actions[i].1, defs[i].1, namespace, actions[i].1.loc)
            &&& attributes_say(actions[i].1, defs[i].1, evaluator)
        }
}

/// Common types are declared as they were written; or an identifier is declared twice, and
/// the name of the first thing declared so is reported, for the first identifier that
/// comes again.
pub proof fn common_types_say_what_is_declared(
    types: Seq<(Seq<char>, CommonTypeModel<NameModel>)>,
    namespace: Option<NameModel>,
)
    ensures
        raw_common_types(types, namespace) is Ok <==> no_id_twice(types),
        raw_common_types(types, namespace) matches Ok(defs) ==> common_types_say(
            types,
            defs,
            namespace,
        ),
        raw_common_types(types, namespace) matches Err(error) ==> exists|i: int, k: int|
            0 <= i < k < types.len() && no_id_twice(types.take(k)) && (#[trigger] types[i]).0 == (
            #[trigger] types[k]).0 && (error matches ErrorModel::DuplicateCommonType(name)
                && is_declared_as(name, types[i].0, types[i].1.loc, namespace)),
{
    let declarations = common_type_declarations(types, namespace);
    gathered_ok::<InternalName, SchemaType<ConditionalModel>, ErrorModel>(
        declarations,
        duplicate_common_type(),
    );
    assert forall|i: int| 0 <= i < types.len() implies is_declared_as(
        (#[trigger] declarations[i]).0->Ok_0,
        types[i].0,
        types[i].1.loc,
        namespace,
    ) by {
        declared_as_its_identifier(types[i].0, types[i].1.loc, namespace);
    }
    assert forall|i: int, j: int| 0 <= i < types.len() && 0 <= j < types.len() implies ((
    #[trigger] types[i]).0 == (#[trigger] types[j]).0 <==> InternalName::key(
        declarations[i].0->Ok_0,
    ) == InternalName::key(declarations[j].0->Ok_0)) by {
        same_where_identifiers_are(
            declarations[i].0->Ok_0,
            declarations[j].0->Ok_0,
            types[i].0,
            types[j].0,
            types[i].1.loc,
            types[j].1.loc,
            namespace,
        );
    }
    common_types_are_declared_once(types, namespace);
    match raw_common_types(types, namespace) {
        Ok(defs) => {
            assert forall|i: int| 0 <= i < types.len() implies {
                &&& is_declared_as((#[trigger] defs[i]).0, types[i].0, types[i].1.loc, namespace)
                &&& corresponds(types[i].1.ty, defs[i].1, made_in(namespace))
            } by {
                assert(declarations[i].0 == Ok::<NameModel, ErrorModel>(defs[i].0));
                references_are_made_in_place(types[i].1.ty, namespace);
            }
        },
        Err(error) => {
            let k = first_refused_is_reported::<
                InternalName,
                SchemaType<ConditionalModel>,
                ErrorModel,
            >(declarations, duplicate_common_type());
            let name = declarations[k].0->Ok_0;
            let i = choose|i: int|
                0 <= i < k && InternalName::key((#[trigger] declarations[i]).0->Ok_0)
                    == InternalName::key(name) && error == duplicate_common_type()(
                    declarations[i].0->Ok_0,
                    name,
                );
            assert(types[i].0 == types[k].0);
            assert(no_id_twice(types.take(k))) by {
                assert forall|a: int, b: int| 0 <= a < b < k implies (#[trigger] types.take(k)[a]).0
                    != (#[trigger] types.take(k)[b]).0 by {
                    assert(InternalName::key(declarations[a].0->Ok_0) != InternalName::key(
                        declarations[b].0->Ok_0,
                    ));
                    assert(types[a].0 != types[b].0);
                }
            }
        },
    }
}

/// Type definitions are taken over as they are, each under its name in the namespace, of
/// which the place is not known; or an identifier is defined twice, and its name is
/// reported, for the first identifier that comes again.
pub proof fn typedefs_say_what_is_declared(
    types: Seq<(Seq<char>, SchemaType<ConditionalModel>)>,
    namespace: Option<NameModel>,
)
    ensures
        conditional_common_types(types, namespace) is Ok <==> no_id_twice(types),
        conditional_common_types(types, namespace) matches Ok(defs) ==> {
            &&& defs.len() == types.len()
            &&& forall|i: int|
                0 <= i < types.len() ==> {
                    &&& is_declared_as((#[trigger] defs[i]).0, types[i].0, None, namespace)
                    &&& defs[i].1 == types[i].1
                }
        },
        conditional_common_types(types, namespace) matches Err(error) ==> exists|i: int, k: int|
            0 <= i < k < types.len() && no_id_twice(types.take(k)) && (#[trigger] types[i]).0 == (
            #[trigger] types[k]).0 && (error matches ErrorModel::DuplicateCommonType(name)
                && is_declared_as(name, types[i].0, None, namespace)),
{
    let declarations = typedef_declarations(types, namespace);
    gathered_ok::<InternalName, SchemaType<ConditionalModel>, ErrorModel>(
        declarations,
        duplicate_common_type(),
    );
    assert forall|i: int| 0 <= i < types.len() implies is_declared_as(
        (#[trigger] declarations[i]).0->Ok_0,
        types[i].0,
        None,
        namespace,
    ) by {
        declared_as_its_identifier(types[i].0, None, namespace);
    }
    assert forall|i: int, j: int| 0 <= i < types.len() && 0 <= j < types.len() implies ((
    #[trigger] types[i]).0 == (#[trigger] types[j]).0 <==> InternalName::key(
        declarations[i].0->Ok_0,
    ) == InternalName::key(declarations[j].0->Ok_0)) by {
        same_where_identifiers_are(
            declarations[i].0->Ok_0,
            declarations[j].0->Ok_0,
            types[i].0,
            types[j].0,
            None,
            None,
            namespace,
        );
    }
    typedefs_are_declared_once(types, namespace);
    match conditional_common_types(types, namespace) {
        Ok(defs) => {
            assert forall|i: int| 0 <= i < types.len() implies {
                &&& is_declared_as((#[trigger] defs[i]).0, types[i].0, None, namespace)
                &&& defs[i].1 == types[i].1
            } by {
                assert(declarations[i].0 == Ok::<NameModel, ErrorModel>(defs[i].0));
            }
        },
        Err(error) => {
            let k = first_refused_is_reported::<
                InternalName,
                SchemaType<ConditionalModel>,
                ErrorModel,
            >(declarations, duplicate_common_type());
            let name = declarations[k].0->Ok_0;
            let i = choose|i: int|
                0 <= i < k && InternalName::key((#[trigger] declarations[i]).0->Ok_0)
                    == InternalName::key(name) && error == duplicate_common_type()(
                    declarations[i].0->Ok_0,
                    name,
                );
            assert(types[i].0 == types[k].0);
            assert(no_id_twice(types.take(k))) by {
                assert forall|a: int, b: int| 0 <= a < b < k implies (#[trigger] types.take(k)[a]).0
                    != (#[trigger] types.take(k)[b]).0 by {
                    assert(InternalName::key(declarations[a].0->Ok_0) != InternalName::key(
                        declarations[b].0->Ok_0,
                    ));
                    assert(types[a].0 != types[b].0);
                }
            }
        },
    }
}

/// Whether `error` reports the entity type at `k`, whose name is reserved or was declared
/// before.
pub open spec fn reports_entity_type(
    types: Seq<(Seq<char>, EntityDeclarationModel<NameModel>)>,
    error: ErrorModel,
    k: int,
    namespace: Option<NameModel>,
) -> bool {
    ||| error matches ErrorModel::ReservedName(name) && is_declared_as(
        name,
        types[k].0,
        types[k].1.loc,
        namespace,
    ) && holds_reserved(name)
    ||| exists|i: int|
        0 <= i < k && (#[trigger] types[i]).0 == types[k].0 && (
        error matches ErrorModel::DuplicateEntityType(name) && is_declared_as(
            name,
            types[i].0,
            types[i].1.loc,
            namespace,
        ) && !holds_reserved(name))
}

/// Entity types are declared as they were written; or the first of them whose name is
/// reserved or was declared before is reported.
pub proof fn entity_types_say_what_is_declared(
    types: Seq<(Seq<char>, EntityDeclarationModel<NameModel>)>,
    namespace: Option<NameModel>,
)
    ensures
        raw_entity_types(types, namespace) matches Ok(defs) ==> {
            &&& no_id_twice(types)
            &&& entity_types_say(types, defs, namespace)
            &&& forall|i: int| 0 <= i < defs.len() ==> !holds_reserved((#[trigger] defs[i]).0)
        },
        raw_entity_types(types, namespace) matches Err(error) ==> exists|k: int|
            0 <= k < types.len() && no_id_twice(types.take(k)) && #[trigger] reports_entity_type(
                types,
                error,
                k,
                namespace,
            ),
{
    let declarations = entity_type_declarations(types, namespace);
    gathered_ok::<EntityType, FragmentModel<ConditionalModel>, ErrorModel>(
        declarations,
        duplicate_entity_type(),
    );
    assert forall|i: int| 0 <= i < types.len() implies match (#[trigger] declarations[i]).0 {
        Ok(name) => is_declared_as(name, types[i].0, types[i].1.loc, namespace) && !holds_reserved(
            name,
        ),
        Err(error) => error matches ErrorModel::ReservedName(name) && is_declared_as(
            name,
            types[i].0,
            types[i].1.loc,
            namespace,
        ) && holds_reserved(name),
    } by {
        declared_as_its_identifier(types[i].0, types[i].1.loc, namespace);
    }
    assert forall|i: int, j: int|
        0 <= i < types.len() && 0 <= j < types.len() && declarations[i].0 is Ok
            && declarations[j].0 is Ok implies ((#[trigger] types[i]).0 == (#[trigger] types[j]).0
        <==> EntityType::key(declarations[i].0->Ok_0) == EntityType::key(
        declarations[j].0->Ok_0,
    )) by {
        same_where_identifiers_are(
            declarations[i].0->Ok_0,
            declarations[j].0->Ok_0,
            types[i].0,
            types[j].0,
            types[i].1.loc,
            types[j].1.loc,
            namespace,
        );
    }
    match raw_entity_types(types, namespace) {
        Ok(defs) => {
            assert forall|i: int| 0 <= i < types.len() implies {
                &&& is_declared_as((#[trigger] defs[i]).0, types[i].0, types[i].1.loc, namespace)
                &&& declares(types[i].1, defs[i].1, namespace)
                &&& !holds_reserved(defs[i].0)
            } by {
                assert(declarations[i] == (
                    Ok::<NameModel, ErrorModel>(defs[i].0),
                    Ok::<FragmentModel<ConditionalModel>, ErrorModel>(defs[i].1),
                ));
                fragment_says_what_is_declared(types[i].1, namespace);
            }
            assert forall|a: int, b: int| 0 <= a < b < types.len() implies (#[trigger] types[a]).0
                != (#[trigger] types[b]).0 by {
                assert(declarations[a].0 is Ok && declarations[b].0 is Ok);
                assert(EntityType::key(declarations[a].0->Ok_0) != EntityType::key(
                    declarations[b].0->Ok_0,
                ));
            }
        },
        Err(error) => {
            let k = first_refused_is_reported::<
                EntityType,
                FragmentModel<ConditionalModel>,
                ErrorModel,
            >(declarations, duplicate_entity_type());
            assert(no_id_twice(types.take(k))) by {
                assert forall|a: int, b: int| 0 <= a < b < k implies (#[trigger] types.take(k)[a]).0
                    != (#[trigger] types.take(k)[b]).0 by {
                    assert(declarations[a].0 is Ok && declarations[b].0 is Ok);
                    assert(EntityType::key(declarations[a].0->Ok_0) != EntityType::key(
                        declarations[b].0->Ok_0,
                    ));
                    assert(types[a].0 != types[b].0);
                }
            }
            assert(declarations[k].1 is Ok);
            if let Ok(name) = declarations[k].0 {
                let i = choose|i: int|
                    0 <= i < k && EntityType::key((#[trigger] declarations[i]).0->Ok_0)
                        == EntityType::key(name) && error == duplicate_entity_type()(
                        declarations[i].0->Ok_0,
                        name,
                    );
                assert(declarations[i].0 is Ok);
                assert(types[i].0 == types[k].0);
            }
            assert(reports_entity_type(types, error, k, namespace));
        },
    }
}

/// The attributes that an action is declared with.
pub open spec fn written_attributes(action: ActionTypeModel<NameModel>) -> Seq<
    (Seq<char>, JsonModel),
> {
    match action.attributes {
        Some(attributes) => attributes,
        None => Seq::empty(),
    }
}

/// Whether the attributes of an action can all be converted.
pub open spec fn all_convert<E: RestrictedEvaluator>(
    action: ActionTypeModel<NameModel>,
    evaluator: E,
) -> bool {
    forall|i: int|
        0 <= i < written_attributes(action).len() ==> converts(
            (#[trigger] written_attributes(action)[i]).1,
            evaluator,
        )
}

/// Whether `error` reports the first attribute of an action that cannot be converted.
pub open spec fn reports_attribute<E: RestrictedEvaluator>(
    action: ActionTypeModel<NameModel>,
    uid: UidModel,
    error: ErrorModel,
    evaluator: E,
) -> bool {
    exists|k: int|
        0 <= k < written_attributes(action).len() && reports_unconverted(
            (#[trigger] written_attributes(action)[k]).0,
            written_attributes(action)[k].1,
            uid,
            error,
            evaluator,
        ) && forall|i: int|
            0 <= i < k ==> converts((#[trigger] written_attributes(action)[i]).1, evaluator)
}

/// Whether `error` reports the action at `k`: its type is reserved, or its name was
/// declared before, or else one of its attributes cannot be converted.
pub open spec fn reports_action<E: RestrictedEvaluator>(
    actions: Seq<(Seq<char>, ActionTypeModel<NameModel>)>,
    error: ErrorModel,
    k: int,
    namespace: Option<NameModel>,
    evaluator: E,
) -> bool {
    ||| error matches ErrorModel::ReservedName(name) && is_declared_as(
        name,
        "Action"@,
        None,
        namespace,
    ) && holds_reserved(name)
    ||| {
        &&& error == ErrorModel::DuplicateAction(actions[k].0)
        &&& exists|i: int| 0 <= i < k && (#[trigger] actions[i]).0 == actions[k].0
    }
    ||| {
        &&& no_id_twice(actions.take(k + 1))
        &&& exists|uid: UidModel| #[trigger]
            is_declared_action(uid, actions[k].0, namespace) && reports_attribute(
                actions[k].1,
                uid,
                error,
                evaluator,
            )
    }
}

/// What the declaration of one action gives.
proof fn action_is_declared<E: RestrictedEvaluator>(
    name: Seq<char>,
    action: ActionTypeModel<NameModel>,
    namespace: Option<NameModel>,
    evaluator: E,
)
    ensures
        (match declared_action(name, namespace) {
            Ok(uid) => {
                &&& is_declared_action(uid, name, namespace)
                &&& !holds_reserved(uid.ty)
                &&& match raw_action(uid, action, namespace, evaluator, action.loc) {
                    Ok(fragment) => {
                        &&& action_declares(action, fragment, namespace, action.loc)
                        &&& attributes_say(action, fragment, evaluator)
                        &&& all_convert(action, evaluator)
                    },
                    Err(error) => {
                        &&& reports_attribute(action, uid, error, evaluator)
                        &&& !all_convert(action, evaluator)
                    },
                }
            },
            Err(error) => error matches ErrorModel::ReservedName(full) && is_declared_as(
                full,
                "Action"@,
                None,
                namespace,
            ) && holds_reserved(full),
        }),
{
    declared_as_its_identifier("Action"@, None, namespace);
    if let Ok(uid) = declared_action(name, namespace) {
        action_says_what_is_declared(uid, action, namespace, evaluator, action.loc);
        if let Some(attributes) = action.attributes {
            attributes_are_converted(attributes, uid, evaluator);
            if attributes_converted(attributes, uid, evaluator) is Ok {
                assert forall|i: int| 0 <= i < written_attributes(action).len() implies converts(
                    (#[trigger] written_attributes(action)[i]).1,
                    evaluator,
                ) by {
                    assert(attributes[i].1 == written_attributes(action)[i].1);
                }
            } else {
                let error = attributes_converted(attributes, uid, evaluator)->Err_0;
                let k = choose|k: int|
                    0 <= k < attributes.len() && reports_unconverted(
                        (#[trigger] attributes[k]).0,
                        attributes[k].1,
                        uid,
                        error,
                        evaluator,
                    ) && forall|i: int|
                        0 <= i < k ==> converts((#[trigger] attributes[i]).1, evaluator);
                assert(written_attributes(action)[k].0 == attributes[k].0);
                assert(reports_attribute(action, uid, error, evaluator));
                if all_convert(action, evaluator) {
                    assert forall|i: int| 0 <= i < attributes.len() implies converts(
                        (#[trigger] attributes[i]).1,
                        evaluator,
                    ) by {
                        assert(written_attributes(action)[i].1 == attributes[i].1);
                    }
                }
            }
        }
    }
}

/// Actions are declared as they were written; or the first of them whose type is reserved,
/// whose name was declared before or whose attributes cannot be converted is reported.
pub proof fn actions_say_what_is_declared<E: RestrictedEvaluator>(
    actions: Seq<(Seq<char>, ActionTypeModel<NameModel>)>,
    namespace: Option<NameModel>,
    evaluator: E,
)
    ensures
        raw_actions(actions, namespace, evaluator) matches Ok(defs) ==> {
            &&& no_id_twice(actions)
            &&& actions_say(actions, defs, namespace, evaluator)
            &&& forall|i: int| 0 <= i < defs.len() ==> !holds_reserved((#[trigger] defs[i]).0.ty)
            &&& forall|i: int|
                0 <= i < actions.len() ==> all_convert((#[trigger] actions[i]).1, evaluator)
        },
        raw_actions(actions, namespace, evaluator) matches Err(error) ==> exists|k: int|
            0 <= k < actions.len() && no_id_twice(actions.take(k)) && #[trigger] reports_action(
                actions,
                error,
                k,
                namespace,
                evaluator,
            ) && forall|i: int|
                0 <= i < k ==> all_convert((#[trigger] actions[i]).1, evaluator),
{
    let declarations = action_declarations(actions, namespace, evaluator);
    gathered_ok::<EntityUID, ActionFragmentModel<ConditionalModel, ConditionalModel>, ErrorModel>(
        declarations,
        duplicate_action(),
    );
    assert forall|i: int| 0 <= i < actions.len() implies match (#[trigger] declarations[i]).0 {
        Ok(uid) => is_declared_action(uid, actions[i].0, namespace) && !holds_reserved(uid.ty)
            && declarations[i].1 == raw_action(
            uid,
            actions[i].1,
            namespace,
            evaluator,
            actions[i].1.loc,
        ),
        Err(error) => error matches ErrorModel::ReservedName(full) && is_declared_as(
            full,
            "Action"@,
            None,
            namespace,
        ) && holds_reserved(full),
    } by {
        action_is_declared(actions[i].0, actions[i].1, namespace, evaluator);
    }
    assert forall|i: int, j: int|
        0 <= i < actions.len() && 0 <= j < actions.len() && declarations[i].0 is Ok
            && declarations[j].0 is Ok implies ((#[trigger] actions[i]).0 == (
    #[trigger] actions[j]).0 <==> EntityUID::key(declarations[i].0->Ok_0) == EntityUID::key(
        declarations[j].0->Ok_0,
    )) by {
        let (a, b) = (declarations[i].0->Ok_0, declarations[j].0->Ok_0);
        same_where_identifiers_are(a.ty, b.ty, "Action"@, "Action"@, None, None, namespace);
    }
    match raw_actions(actions, namespace, evaluator) {
        Ok(defs) => {
            assert forall|i: int| 0 <= i < actions.len() implies {
                &&& is_declared_action((#[trigger] defs[i]).0, actions[i].0, namespace)
                &&& action_declares(actions[i].1, defs[i].1, namespace, actions[i].1.loc)
                &&& attributes_say(actions[i].1, defs[i].1, evaluator)
                &&& !holds_reserved(defs[i].0.ty)
                &&& all_convert(actions[i].1, evaluator)
            } by {
                assert(declarations[i] == (
                    Ok::<UidModel, ErrorModel>(defs[i].0),
                    Ok::<ActionFragmentModel<ConditionalModel, ConditionalModel>, ErrorModel>(
                        defs[i].1,
                    ),
                ));
                action_is_declared(actions[i].0, actions[i].1, namespace, evaluator);
            }
            assert forall|i: int| 0 <= i < actions.len() implies all_convert(
                (#[trigger] actions[i]).1,
                evaluator,
            ) by {
                assert(is_declared_action(defs[i].0, actions[i].0, namespace));
            }
            assert forall|a: int, b: int| 0 <= a < b < actions.len() implies (#[trigger] actions[a]).0
                != (#[trigger] actions[b]).0 by {
                assert(declarations[a].0 is Ok && declarations[b].0 is Ok);
                assert(EntityUID::key(declarations[a].0->Ok_0) != EntityUID::key(
                    declarations[b].0->Ok_0,
                ));
            }
        },
        Err(error) => {
            let k = first_refused_is_reported::<
                EntityUID,
                ActionFragmentModel<ConditionalModel, ConditionalModel>,
                ErrorModel,
            >(declarations, duplicate_action());
            assert forall|a: int, b: int| 0 <= a < b < k implies (#[trigger] actions[a]).0 != (
            #[trigger] actions[b]).0 by {
                assert(declarations[a].0 is Ok && declarations[b].0 is Ok);
                assert(EntityUID::key(declarations[a].0->Ok_0) != EntityUID::key(
                    declarations[b].0->Ok_0,
                ));
            }
            assert(no_id_twice(actions.take(k)));
            assert forall|i: int| 0 <= i < k implies all_convert(
                (#[trigger] actions[i]).1,
                evaluator,
            ) by {
                assert(declarations[i].0 is Ok && declarations[i].1 is Ok);
                action_is_declared(actions[i].0, actions[i].1, namespace, evaluator);
            }
            if let Ok(uid) = declarations[k].0 {
                if exists|i: int|
                    0 <= i < k && EntityUID::key((#[trigger] declarations[i]).0->Ok_0)
                        == EntityUID::key(uid) && error == duplicate_action()(
                        declarations[i].0->Ok_0,
                        uid,
                    ) {
                    let i = choose|i: int|
                        0 <= i < k && EntityUID::key((#[trigger] declarations[i]).0->Ok_0)
                            == EntityUID::key(uid) && error == duplicate_action()(
                            declarations[i].0->Ok_0,
                            uid,
                        );
                    assert(declarations[i].0 is Ok);
                    assert(actions[i].0 == actions[k].0);
                } else {
                    action_is_declared(actions[k].0, actions[k].1, namespace, evaluator);
                    assert forall|a: int| 0 <= a < k implies (#[trigger] actions[a]).0
                        != actions[k].0 by {
                        assert(declarations[a].0 is Ok);
                        assert(EntityUID::key(declarations[a].0->Ok_0) != EntityUID::key(uid));
                    }
                    assert(no_id_twice(actions.take(k + 1)));
                    assert(is_declared_action(uid, actions[k].0, namespace));
                }
            }
            assert(reports_action(actions, error, k, namespace, evaluator));
        },
    }
}

/// Whether an action is declared with attributes.
pub open spec fn lists_attributes<N>() -> spec_fn((Seq<char>, ActionTypeModel<N>)) -> bool {
    |action: (Seq<char>, ActionTypeModel<N>)| action.1.attributes is Some
}

/// The names of the actions that are declared with attributes.
proof fn with_attributes_are_picked<N>(actions: Seq<(Seq<char>, ActionTypeModel<N>)>)
    ensures
        with_attributes(actions) =~= actions.filter(lists_attributes()).map_values(
            |action: (Seq<char>, ActionTypeModel<N>)| action.0,
        ),
    decreases actions.len(),
{
    reveal(Seq::filter);
    if actions.len() > 0 {
        with_attributes_are_picked(actions.drop_last());
    }
}

/// A definition must not declare an entity type of the name that actions have. Where
/// attributes are prohibited, no action may be declared with any: all those that are, and
/// nothing else, are reported by their names, in order. Anything else is fine.
pub proof fn behavior_is_checked<N>(definition: DefinitionModel<N>, behavior: ActionBehavior)
    ensures
        ({
            let declared = exists|i: int|
                0 <= i < definition.entity_types.len() && (#[trigger] definition.entity_types[i]).0
                    == "Action"@;
            let listed = definition.actions.filter(lists_attributes());
            let names = listed.map_values(|action: (Seq<char>, ActionTypeModel<N>)| action.0);
            match behavior_checked(definition, behavior) {
                Ok(_) => !declared && (behavior == ActionBehavior::PermitAttributes || listed.len()
                    == 0),
                Err(ErrorModel::ActionEntityTypeDeclared) => declared,
                Err(ErrorModel::ActionAttributes(reported)) => {
                    &&& !declared
                    &&& behavior == ActionBehavior::ProhibitAttributes
                    &&& listed.len() > 0
                    &&& reported.to_multiset() =~= names.to_multiset()
                    &&& forall|i: int, j: int|
                        0 <= i < j < reported.len() ==> not_behind(
                            #[trigger] reported[i],
                            #[trigger] reported[j],
                        )
                },
                Err(_) => false,
            }
        }),
{
    with_attributes_are_picked(definition.actions);
    let names = with_attributes(definition.actions);
    text_order_is_total();
    names.lemma_sort_by_ensures(text_order());
    assert forall|i: int, j: int| 0 <= i < j < in_order(names).len() implies not_behind(
        #[trigger] in_order(names)[i],
        #[trigger] in_order(names)[j],
    ) by {
        assert(text_order()(in_order(names)[i], in_order(names)[j]));
    }
}

/// The definition of a namespace, once processed, says what was declared in it: all common
/// types, entity types and actions, each in its own place and under its own name, in the
/// namespace.
pub proof fn definition_says_what_is_declared<E: RestrictedEvaluator>(
    namespace: Option<NameModel>,
    definition: DefinitionModel<NameModel>,
    behavior: ActionBehavior,
    evaluator: E,
)
    ensures
        definition_processed(namespace, definition, behavior, evaluator) matches Ok(r) ==> {
            &&& r.namespace == namespace
            &&& common_types_say(definition.common_types, r.common_types, namespace)
            &&& entity_types_say(definition.entity_types, r.entity_types, namespace)
            &&& actions_say(definition.actions, r.actions, namespace, evaluator)
        },
{
    common_types_say_what_is_declared(definition.common_types, namespace);
    entity_types_say_what_is_declared(definition.entity_types, namespace);
    actions_say_what_is_declared(definition.actions, namespace, evaluator);
}

/// The definition of a namespace can be processed exactly where its actions are as they may
/// be, and its common types, its actions and its entity types can be declared; what comes
/// first of these, in that order, is what is reported.
pub proof fn definition_reports_what_comes_first<E: RestrictedEvaluator>(
    namespace: Option<NameModel>,
    definition: DefinitionModel<NameModel>,
    behavior: ActionBehavior,
    evaluator: E,
)
    ensures
        ({
            let checked = behavior_checked(definition, behavior);
            let common_types = raw_common_types(definition.common_types, namespace);
            let actions = raw_actions(definition.actions, namespace, evaluator);
            let entity_types = raw_entity_types(definition.entity_types, namespace);
            match definition_processed(namespace, definition, behavior, evaluator) {
                Ok(_) => checked is Ok && common_types is Ok && actions is Ok && entity_types is Ok,
                Err(error) => {
                    ||| checked matches Err(cause) && error == cause
                    ||| checked is Ok && (common_types matches Err(cause) && error == cause)
                    ||| checked is Ok && common_types is Ok && (actions matches Err(cause) && error
                        == cause)
                    ||| checked is Ok && common_types is Ok && actions is Ok && (
                    entity_types matches Err(cause) && error == cause)
                },
            }
        }),
{
}

/// What is resolved in a namespace is what was in it: every common type, entity type and
/// action, each under its name, with each reference replaced by what it stands for.
pub proof fn namespace_is_resolved_in_place(
    definition: NamespaceModel<ConditionalModel, ConditionalModel>,
    defs: DefsModel,
)
    ensures
        namespace_resolved(definition, defs) matches Ok(r) ==> {
            &&& r.namespace == definition.namespace
            &&& r.common_types.len() == definition.common_types.len()
            &&& forall|i: int|
                0 <= i < r.common_types.len() ==> {
                    &&& (#[trigger] r.common_types[i]).0 == definition.common_types[i].0
                    &&& corresponds(
                        definition.common_types[i].1,
                        r.common_types[i].1,
                        found_in(defs),
                    )
                }
            &&& r.entity_types.len() == definition.entity_types.len()
            &&& forall|i: int|
                0 <= i < r.entity_types.len() ==> {
                    &&& (#[trigger] r.entity_types[i]).0 == definition.entity_types[i].0
                    &&& is_fragment_resolved(
                        definition.entity_types[i].1,
                        r.entity_types[i].1,
                        defs,
                    )
                }
            &&& r.actions.len() == definition.actions.len()
            &&& forall|i: int|
                0 <= i < r.actions.len() ==> {
                    &&& (#[trigger] r.actions[i]).0 == definition.actions[i].0
                    &&& is_action_resolved(definition.actions[i].1, r.actions[i].1, defs)
                }
        },
{
    let common_types = common_type_steps(definition.common_types, defs);
    let entity_types = entity_type_steps(definition.entity_types, defs);
    let actions = action_steps(definition.actions, defs);
    partitioned_ok(common_types);
    partitioned_ok(entity_types);
    partitioned_ok(actions);
    if let Ok(r) = namespace_resolved(definition, defs) {
        assert forall|i: int| 0 <= i < r.common_types.len() implies {
            &&& (#[trigger] r.common_types[i]).0 == definition.common_types[i].0
            &&& corresponds(definition.common_types[i].1, r.common_types[i].1, found_in(defs))
        } by {
            references_are_resolved_in_place(definition.common_types[i].1, defs);
            assert(common_types[i] == Ok::<
                (NameModel, SchemaType<NameModel>),
                Seq<ConditionalModel>,
            >(r.common_types[i]));
        }
        assert forall|i: int| 0 <= i < r.entity_types.len() implies {
            &&& (#[trigger] r.entity_types[i]).0 == definition.entity_types[i].0
            &&& is_fragment_resolved(definition.entity_types[i].1, r.entity_types[i].1, defs)
        } by {
            fragment_is_resolved_in_place(definition.entity_types[i].1, defs);
            assert(entity_types[i] == Ok::<
                (NameModel, FragmentModel<NameModel>),
                Seq<ConditionalModel>,
            >(r.entity_types[i]));
        }
        assert forall|i: int| 0 <= i < r.actions.len() implies {
            &&& (#[trigger] r.actions[i]).0 == definition.actions[i].0
            &&& is_action_resolved(definition.actions[i].1, r.actions[i].1, defs)
        } by {
            action_is_resolved_in_place(definition.actions[i].1, defs);
            assert(actions[i] == Ok::<
                (UidModel, ActionFragmentModel<NameModel, NameModel>),
                ErrorModel,
            >(r.actions[i]));
        }
    }
}

} // verus!
