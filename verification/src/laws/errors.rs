//! What is reported where references cannot be resolved.

use crate::action_uid::{action_resolved, ActionUidModel};
use crate::actions::{
    action_fragment_resolved, action_steps, actions_found, actions_resolved, ActionFragmentModel,
};
use crate::apply_spec::entity_types_found;
use crate::common_types::{common_type_steps, common_types_resolved};
use crate::defs::DefsModel;
use crate::entity_types::{
    entity_type_steps, entity_types_resolved, fragment_resolved, references_resolved, tags_resolved,
    undeclared, undefined_in, FragmentModel,
};
use crate::err::{actions_not_defined, joined, types_not_defined, undefined_types, ErrorModel};
use crate::json_schema::{
    attribute_resolved, attributes_resolved, type_resolved, SchemaType, VariantModel,
};
use crate::keyed::distinct;
use crate::names::{InternalName, NameModel};
use crate::namespace_def::{namespace_resolved, NamespaceModel};
use crate::outcome::{collected, collected_first, concat, err_of, errs, partitioned};
use crate::raw_name::{first_defined, resolved, ConditionalModel};
use vstd::prelude::*;

verus! {

/// Whether each of the references stands for nothing.
pub open spec fn are_undefined(references: Seq<ConditionalModel>, defs: DefsModel) -> bool {
    forall|i: int| 0 <= i < references.len() ==> resolved(#[trigger] references[i], defs) is Err
}

/// Whether each of the references to actions stands for nothing.
pub open spec fn are_undefined_actions(
    references: Seq<ActionUidModel<ConditionalModel>>,
    defs: DefsModel,
) -> bool {
    forall|i: int|
        0 <= i < references.len() ==> action_resolved(#[trigger] references[i], defs) is Err
}

/// Whether an error that reports undefined references reports some, and only such
/// that stand for nothing.
pub open spec fn reports_undefined_only(error: ErrorModel, defs: DefsModel) -> bool {
    match error {
        ErrorModel::TypeNotDefined(references) => references.len() > 0 && are_undefined(
            references,
            defs,
        ),
        ErrorModel::ActionNotDefined(references) => references.len() > 0 && are_undefined_actions(
            references,
            defs,
        ),
        _ => true,
    }
}

/// Each error of several steps is that of one of them.
proof fn errors_are_of_steps<T, E>(steps: Seq<Result<T, E>>, i: int) -> (k: int)
    requires
        0 <= i < errs(steps).len(),
    ensures
        0 <= k < steps.len(),
        steps[k] is Err,
        steps[k]->Err_0 == errs(steps)[i],
    decreases steps.len(),
{
    let front = steps.drop_last();
    if i < errs(front).len() {
        errors_are_of_steps(front, i)
    } else {
        steps.len() - 1
    }
}

/// Each element of a concatenation is an element of one of the parts.
proof fn elements_are_of_parts<E>(parts: Seq<Seq<E>>, i: int) -> (k: (int, int))
    requires
        0 <= i < concat(parts).len(),
    ensures
        0 <= k.0 < parts.len(),
        0 <= k.1 < parts[k.0].len(),
        parts[k.0][k.1] == concat(parts)[i],
    decreases parts.len(),
{
    let front = parts.drop_last();
    if i < concat(front).len() {
        elements_are_of_parts(front, i)
    } else {
        (parts.len() - 1, i - concat(front).len())
    }
}

/// There is an element in a concatenation where there is one in the first part.
proof fn concat_is_not_empty<E>(parts: Seq<Seq<E>>)
    requires
        parts.len() > 0,
        parts[0].len() > 0,
    ensures
        concat(parts).len() > 0,
    decreases parts.len(),
{
    if parts.len() > 1 {
        concat_is_not_empty(parts.drop_last());
    }
}

/// A type that cannot be fully qualified is reported with one reference in it, which
/// stands for nothing.
pub proof fn type_reports_undefined_only(t: SchemaType<ConditionalModel>, defs: DefsModel)
    ensures
        type_resolved(t, defs) matches Err(references) ==> references.len() == 1 && are_undefined(
            references,
            defs,
        ),
    decreases t,
{
    if let SchemaType::Type { ty, loc } = t {
        match ty {
            VariantModel::SetOf { element } => {
                type_reports_undefined_only(*element, defs);
            },
            VariantModel::Record(record) => {
                let steps = attributes_resolved(record.attributes, defs);
                if collected(steps) is Err {
                    let k = collected_first(steps);
                    attribute_resolved(record.attributes, defs, k);
                    type_reports_undefined_only(record.attributes[k].1.ty, defs);
                }
            },
            _ => {},
        }
    }
}

/// Parents that are no entity types stand for nothing as references to such.
proof fn undeclared_are_undefined(names: Seq<NameModel>, defs: DefsModel)
    ensures
        are_undefined(undeclared(names, defs), defs),
    decreases names.len(),
{
    if names.len() > 0 {
        undeclared_are_undefined(names.drop_last(), defs);
        let all = undeclared(names, defs);
        let front = undeclared(names.drop_last(), defs);
        assert forall|i: int| 0 <= i < all.len() implies resolved(
            #[trigger] all[i],
            defs,
        ) is Err by {
            if i < front.len() {
                assert(resolved(front[i], defs) is Err);
            } else {
                reveal_with_fuel(first_defined, 2);
            }
        }
    }
}

/// The errors of steps that each report undefined references do so together.
proof fn steps_report_undefined_only<T>(
    steps: Seq<Result<T, Seq<ConditionalModel>>>,
    defs: DefsModel,
)
    requires
        forall|i: int|
            0 <= i < steps.len() && (#[trigger] steps[i]) is Err ==> steps[i]->Err_0.len() > 0
                && are_undefined(steps[i]->Err_0, defs),
    ensures
        partitioned(steps) matches Err(parts) ==> concat(parts).len() > 0 && are_undefined(
            concat(parts),
            defs,
        ),
{
    if let Err(parts) = partitioned(steps) {
        let first = errors_are_of_steps(steps, 0);
        assert(steps[first] is Err);
        concat_is_not_empty(parts);
        let all = concat(parts);
        assert forall|i: int| 0 <= i < all.len() implies resolved(
            #[trigger] all[i],
            defs,
        ) is Err by {
            let (part, place) = elements_are_of_parts(parts, i);
            let k = errors_are_of_steps(steps, part);
            assert(steps[k] is Err);
            assert(resolved(steps[k]->Err_0[place], defs) is Err);
        }
    }
}

/// Everything that is reported of a fragment of an entity type stands for nothing.
pub proof fn fragment_reports_undefined_only(
    fragment: FragmentModel<ConditionalModel>,
    defs: DefsModel,
)
    ensures
        fragment_resolved(fragment, defs) matches Err(references) ==> references.len() > 0
            && are_undefined(references, defs),
{
    if let FragmentModel::Standard { attributes, parents, tags } = fragment {
        let steps = references_resolved(parents, defs);
        steps_report_undefined_only(steps, defs);
        if let Ok(names) = partitioned(steps) {
            let kept = distinct::<InternalName>(names);
            let a = undeclared(kept, defs);
            let b = undefined_in(type_resolved(attributes, defs));
            let c = undefined_in(tags_resolved(tags, defs));
            undeclared_are_undefined(kept, defs);
            type_reports_undefined_only(attributes, defs);
            if let Some(tags) = tags {
                type_reports_undefined_only(tags, defs);
            }
            let all = a + b + c;
            assert forall|i: int| 0 <= i < all.len() implies resolved(
                #[trigger] all[i],
                defs,
            ) is Err by {
                if i < a.len() {
                    assert(all[i] == a[i]);
                } else if i < a.len() + b.len() {
                    assert(all[i] == b[i - a.len()]);
                } else {
                    assert(all[i] == c[i - a.len() - b.len()]);
                }
            }
        }
    }
}

/// The undefined types of errors that report only such stand for nothing.
proof fn joined_types_are_undefined(errors: Seq<ErrorModel>, defs: DefsModel)
    requires
        forall|i: int| 0 <= i < errors.len() ==> reports_undefined_only(#[trigger] errors[i], defs),
    ensures
        are_undefined(types_not_defined(errors), defs),
        are_undefined_actions(actions_not_defined(errors), defs),
    decreases errors.len(),
{
    if errors.len() > 0 {
        let front = errors.drop_last();
        assert forall|i: int| 0 <= i < front.len() implies reports_undefined_only(
            #[trigger] front[i],
            defs,
        ) by {
            assert(reports_undefined_only(errors[i], defs));
        }
        joined_types_are_undefined(front, defs);
        assert(reports_undefined_only(errors[errors.len() - 1], defs));
        let types = types_not_defined(errors);
        let front_types = types_not_defined(front);
        assert forall|i: int| 0 <= i < types.len() implies resolved(
            #[trigger] types[i],
            defs,
        ) is Err by {
            if i < front_types.len() {
                assert(types[i] == front_types[i]);
            } else {
                assert(types[i] == errors.last()->TypeNotDefined_0[i - front_types.len()]);
            }
        }
        let actions = actions_not_defined(errors);
        let front_actions = actions_not_defined(front);
        assert forall|i: int| 0 <= i < actions.len() implies action_resolved(
            #[trigger] actions[i],
            defs,
        ) is Err by {
            if i < front_actions.len() {
                assert(actions[i] == front_actions[i]);
            } else {
                assert(actions[i] == errors.last()->ActionNotDefined_0[i - front_actions.len()]);
            }
        }
    }
}

/// Several errors that report only what is undefined do so as one.
pub proof fn joined_errors_report_undefined_only(errors: Seq<ErrorModel>, defs: DefsModel)
    requires
        errors.len() > 0,
        forall|i: int| 0 <= i < errors.len() ==> reports_undefined_only(#[trigger] errors[i], defs),
    ensures
        reports_undefined_only(joined(errors), defs),
{
    joined_types_are_undefined(errors, defs);
    assert(reports_undefined_only(errors[0], defs));
}

/// Where the error of an action is about undefined references, all that it reports
/// stand for nothing.
pub proof fn action_reports_undefined_only(
    fragment: ActionFragmentModel<ConditionalModel, ConditionalModel>,
    defs: DefsModel,
)
    ensures
        action_fragment_resolved(fragment, defs) matches Err(error) ==> reports_undefined_only(
            error,
            defs,
        ),
{
    type_reports_undefined_only(fragment.context, defs);
    let principals = entity_types_found(fragment.applies_to.principals, defs);
    let resources = entity_types_found(fragment.applies_to.resources, defs);
    let errors = errs(principals) + errs(resources);
    if errors.len() > 0 {
        assert forall|i: int| 0 <= i < errors.len() implies reports_undefined_only(
            #[trigger] errors[i],
            defs,
        ) by {
            if i < errs(principals).len() {
                let k = errors_are_of_steps(principals, i);
                assert(principals[k] is Err);
            } else {
                let k = errors_are_of_steps(resources, i - errs(principals).len());
                assert(resources[k] is Err);
            }
        }
        joined_errors_report_undefined_only(errors, defs);
    }
    let steps = actions_found(fragment.parents, defs);
    if let Err(parts) = partitioned(steps) {
        let first = errors_are_of_steps(steps, 0);
        assert(steps[first] is Err);
        assert(parts[0].len() == 1);
        concat_is_not_empty(parts);
        let all = concat(parts);
        assert forall|i: int| 0 <= i < all.len() implies action_resolved(
            #[trigger] all[i],
            defs,
        ) is Err by {
            let (part, place) = elements_are_of_parts(parts, i);
            let k = errors_are_of_steps(steps, part);
            assert(steps[k] is Err);
        }
    }
}

/// Where the error of a namespace is about undefined references, all that it reports
/// stand for nothing.
pub proof fn namespace_reports_undefined_only(
    definition: NamespaceModel<ConditionalModel, ConditionalModel>,
    defs: DefsModel,
)
    ensures
        namespace_resolved(definition, defs) matches Err(error) ==> reports_undefined_only(
            error,
            defs,
        ),
{
    let c = common_type_steps(definition.common_types, defs);
    assert forall|i: int| 0 <= i < c.len() && (#[trigger] c[i]) is Err implies c[i]->Err_0.len() > 0
        && are_undefined(c[i]->Err_0, defs) by {
        type_reports_undefined_only(definition.common_types[i].1, defs);
    }
    steps_report_undefined_only(c, defs);
    let e = entity_type_steps(definition.entity_types, defs);
    assert forall|i: int| 0 <= i < e.len() && (#[trigger] e[i]) is Err implies e[i]->Err_0.len() > 0
        && are_undefined(e[i]->Err_0, defs) by {
        fragment_reports_undefined_only(definition.entity_types[i].1, defs);
    }
    steps_report_undefined_only(e, defs);
    let a = action_steps(definition.actions, defs);
    if let Err(errors) = partitioned(a) {
        assert forall|i: int| 0 <= i < errors.len() implies reports_undefined_only(
            #[trigger] errors[i],
            defs,
        ) by {
            let k = errors_are_of_steps(a, i);
            assert(a[k] is Err);
            action_reports_undefined_only(definition.actions[k].1, defs);
        }
        joined_errors_report_undefined_only(errors, defs);
    }
    let common = err_of(
        undefined_types(common_types_resolved(definition.common_types, defs)),
    );
    let entity = err_of(
        undefined_types(entity_types_resolved(definition.entity_types, defs)),
    );
    let action = err_of(actions_resolved(definition.actions, defs));
    let all = common + entity + action;
    assert forall|i: int| 0 <= i < all.len() implies reports_undefined_only(
        #[trigger] all[i],
        defs,
    ) by {
        if i < common.len() {
            assert(all[i] == common[i]);
        } else if i < common.len() + entity.len() {
            assert(all[i] == entity[i - common.len()]);
        } else {
            assert(all[i] == action[i - common.len() - entity.len()]);
        }
    }
    if all.len() > 0 {
        joined_errors_report_undefined_only(all, defs);
    }
}

/// Whether each of `some` is one of `all`.
pub open spec fn are_among(some: Seq<ConditionalModel>, all: Seq<ConditionalModel>) -> bool {
    forall|i: int| 0 <= i < some.len() ==> all.contains(#[trigger] some[i])
}

/// The error of each step that failed is one of the errors.
proof fn errors_of_steps_are_kept<T, E>(steps: Seq<Result<T, E>>, k: int) -> (i: int)
    requires
        0 <= k < steps.len(),
        steps[k] is Err,
    ensures
        0 <= i < errs(steps).len(),
        errs(steps)[i] == steps[k]->Err_0,
    decreases steps.len(),
{
    if k < steps.len() - 1 {
        errors_of_steps_are_kept(steps.drop_last(), k)
    } else {
        errs(steps).len() - 1
    }
}

/// Each element of a part is an element of the concatenation.
proof fn elements_of_parts_are_kept<E>(parts: Seq<Seq<E>>, part: int, place: int)
    requires
        0 <= part < parts.len(),
        0 <= place < parts[part].len(),
    ensures
        concat(parts).contains(parts[part][place]),
    decreases parts.len(),
{
    let front = parts.drop_last();
    if part < front.len() {
        elements_of_parts_are_kept(front, part, place);
        let i = choose|i: int| 0 <= i < concat(front).len() && concat(front)[i] == parts[part][place];
        assert(concat(parts)[i] == parts[part][place]);
    } else {
        assert(concat(parts)[concat(front).len() + place] == parts[part][place]);
    }
}

/// What a step reports is among what the steps report together.
proof fn steps_are_all_reported<T>(steps: Seq<Result<T, Seq<ConditionalModel>>>, k: int)
    requires
        0 <= k < steps.len(),
        steps[k] is Err,
    ensures
        partitioned(steps) is Err,
        are_among(steps[k]->Err_0, concat(partitioned(steps)->Err_0)),
{
    let i = errors_of_steps_are_kept(steps, k);
    assert forall|j: int| 0 <= j < steps[k]->Err_0.len() implies concat(errs(steps)).contains(
        #[trigger] steps[k]->Err_0[j],
    ) by {
        elements_of_parts_are_kept(errs(steps), i, j);
    }
}

/// The undefined types of each error are among those of the errors joined.
proof fn joined_keeps_types(errors: Seq<ErrorModel>, k: int)
    requires
        0 <= k < errors.len(),
        errors[k] is TypeNotDefined,
    ensures
        are_among(errors[k]->TypeNotDefined_0, types_not_defined(errors)),
        errors[k]->TypeNotDefined_0.len() <= types_not_defined(errors).len(),
    decreases errors.len(),
{
    let front = errors.drop_last();
    let types = errors[k]->TypeNotDefined_0;
    let all = types_not_defined(errors);
    if k < front.len() {
        joined_keeps_types(front, k);
        assert forall|i: int| 0 <= i < types.len() implies all.contains(#[trigger] types[i]) by {
            assert(types_not_defined(front).contains(types[i]));
            let j = choose|j: int|
                0 <= j < types_not_defined(front).len() && types_not_defined(front)[j] == types[i];
            assert(all[j] == types[i]);
        }
    } else {
        assert forall|i: int| 0 <= i < types.len() implies all.contains(#[trigger] types[i]) by {
            assert(all[types_not_defined(front).len() + i] == types[i]);
        }
    }
}

proof fn among_through(
    some: Seq<ConditionalModel>,
    more: Seq<ConditionalModel>,
    all: Seq<ConditionalModel>,
)
    requires
        are_among(some, more),
        are_among(more, all),
    ensures
        are_among(some, all),
{
    assert forall|i: int| 0 <= i < some.len() implies all.contains(#[trigger] some[i]) by {
        assert(more.contains(some[i]));
        let j = choose|j: int| 0 <= j < more.len() && more[j] == some[i];
        assert(all.contains(more[j]));
    }
}

/// Undefined types are all reported at once: whatever is wrong besides, the error of
/// a namespace reports the undefined reference of each common type and all those of
/// each entity type that cannot be resolved.
pub proof fn undefined_types_are_all_reported(
    definition: NamespaceModel<ConditionalModel, ConditionalModel>,
    defs: DefsModel,
)
    ensures
        forall|i: int|
            #![trigger definition.common_types[i]]
            0 <= i < definition.common_types.len() && type_resolved(
                definition.common_types[i].1,
                defs,
            ) is Err ==> {
                &&& namespace_resolved(definition, defs) matches Err(
                    ErrorModel::TypeNotDefined(references),
                )
                &&& are_among(
                    type_resolved(definition.common_types[i].1, defs)->Err_0,
                    references,
                )
            },
        forall|i: int|
            #![trigger definition.entity_types[i]]
            0 <= i < definition.entity_types.len() && fragment_resolved(
                definition.entity_types[i].1,
                defs,
            ) is Err ==> {
                &&& namespace_resolved(definition, defs) matches Err(
                    ErrorModel::TypeNotDefined(references),
                )
                &&& are_among(
                    fragment_resolved(definition.entity_types[i].1, defs)->Err_0,
                    references,
                )
            },
{
    let c = common_type_steps(definition.common_types, defs);
    let e = entity_type_steps(definition.entity_types, defs);
    let common = err_of(undefined_types(common_types_resolved(definition.common_types, defs)));
    let entity = err_of(undefined_types(entity_types_resolved(definition.entity_types, defs)));
    let action = err_of(actions_resolved(definition.actions, defs));
    let all = common + entity + action;
    assert forall|i: int|
        #![trigger definition.common_types[i]]
        0 <= i < definition.common_types.len() && type_resolved(
            definition.common_types[i].1,
            defs,
        ) is Err implies {
        &&& namespace_resolved(definition, defs) matches Err(ErrorModel::TypeNotDefined(references))
        &&& are_among(type_resolved(definition.common_types[i].1, defs)->Err_0, references)
    } by {
        assert(c[i] is Err);
        steps_are_all_reported(c, i);
        let reported = concat(partitioned(c)->Err_0);
        assert(all[0] == ErrorModel::TypeNotDefined(reported));
        joined_keeps_types(all, 0);
        type_reports_undefined_only(definition.common_types[i].1, defs);
        assert(reported.contains(c[i]->Err_0[0]));
        among_through(c[i]->Err_0, reported, types_not_defined(all));
    }
    assert forall|i: int|
        #![trigger definition.entity_types[i]]
        0 <= i < definition.entity_types.len() && fragment_resolved(
            definition.entity_types[i].1,
            defs,
        ) is Err implies {
        &&& namespace_resolved(definition, defs) matches Err(ErrorModel::TypeNotDefined(references))
        &&& are_among(fragment_resolved(definition.entity_types[i].1, defs)->Err_0, references)
    } by {
        assert(e[i] is Err);
        steps_are_all_reported(e, i);
        let reported = concat(partitioned(e)->Err_0);
        let k = common.len() as int;
        assert(all[k] == ErrorModel::TypeNotDefined(reported));
        joined_keeps_types(all, k);
        fragment_reports_undefined_only(definition.entity_types[i].1, defs);
        assert(reported.contains(e[i]->Err_0[0]));
        among_through(e[i]->Err_0, reported, types_not_defined(all));
    }
}

} // verus!
