//! What is reported where several things are wrong.

use crate::action_uid::ActionUidModel;
use crate::actions::{action_fragment_resolved, action_steps, actions_resolved, ActionFragmentModel};
use crate::common_types::{common_type_steps, common_types_resolved};
use crate::defs::DefsModel;
use crate::entity_types::{
    entity_type_steps, entity_types_resolved, fragment_resolved, FragmentModel,
};
use crate::err::{actions_not_defined, joined, types_not_defined, undefined_types, ErrorModel};
use crate::json_schema::{type_resolved, SchemaType};
use crate::laws::lists::{failed, failures_are_kept_in_order, nothing_is_lost_by_joining};
use crate::names::{NameModel, UidModel};
use crate::namespace_def::{namespace_resolved, NamespaceModel};
use crate::outcome::{concat, err_of, errs, partitioned, partitioned_ok};
use crate::raw_name::ConditionalModel;
use vstd::prelude::*;

verus! {

/// Lists one behind the other are what they are as one list.
pub proof fn lists_are_joined_in_order<E>(parts: Seq<Seq<E>>)
    ensures
        concat(parts) =~= parts.flatten(),
    decreases parts.len(),
{
    joined_from_the_end(parts);
    parts.lemma_flatten_and_flatten_alt_are_equivalent();
}

proof fn joined_from_the_end<E>(parts: Seq<Seq<E>>)
    ensures
        concat(parts) =~= parts.flatten_alt(),
    decreases parts.len(),
{
    if parts.len() > 0 {
        joined_from_the_end(parts.drop_last());
    }
}

/// Whether an error reports undefined types.
pub open spec fn reports_types() -> spec_fn(ErrorModel) -> bool {
    |error: ErrorModel| error is TypeNotDefined
}

/// Whether an error reports undefined actions.
pub open spec fn reports_actions() -> spec_fn(ErrorModel) -> bool {
    |error: ErrorModel| error is ActionNotDefined
}

/// The undefined types that errors report, one error behind the other.
pub open spec fn all_types(errors: Seq<ErrorModel>) -> Seq<ConditionalModel> {
    errors.filter(reports_types()).map_values(
        |error: ErrorModel| error->TypeNotDefined_0,
    ).flatten()
}

/// The undefined actions that errors report, one error behind the other.
pub open spec fn all_actions(errors: Seq<ErrorModel>) -> Seq<ActionUidModel<ConditionalModel>> {
    errors.filter(reports_actions()).map_values(
        |error: ErrorModel| error->ActionNotDefined_0,
    ).flatten()
}

proof fn types_are_picked(errors: Seq<ErrorModel>)
    ensures
        types_not_defined(errors) =~= concat(
            errors.filter(reports_types()).map_values(
                |error: ErrorModel| error->TypeNotDefined_0,
            ),
        ),
    decreases errors.len(),
{
    reveal(Seq::filter);
    if errors.len() > 0 {
        let f = |error: ErrorModel| error->TypeNotDefined_0;
        let front = errors.drop_last();
        types_are_picked(front);
        if errors.last() is TypeNotDefined {
            let all = errors.filter(reports_types()).map_values(f);
            assert(all.drop_last() =~= front.filter(reports_types()).map_values(f));
        }
    }
}

proof fn actions_are_picked(errors: Seq<ErrorModel>)
    ensures
        actions_not_defined(errors) =~= concat(
            errors.filter(reports_actions()).map_values(
                |error: ErrorModel| error->ActionNotDefined_0,
            ),
        ),
    decreases errors.len(),
{
    reveal(Seq::filter);
    if errors.len() > 0 {
        let f = |error: ErrorModel| error->ActionNotDefined_0;
        let front = errors.drop_last();
        actions_are_picked(front);
        if errors.last() is ActionNotDefined {
            let all = errors.filter(reports_actions()).map_values(f);
            assert(all.drop_last() =~= front.filter(reports_actions()).map_values(f));
        }
    }
}

/// Several errors as one report all the undefined types that they report, in order; or,
/// where there are none, all the undefined actions; or else they are the first of them.
pub proof fn errors_are_joined(errors: Seq<ErrorModel>)
    ensures
        joined(errors) == if all_types(errors).len() > 0 {
            ErrorModel::TypeNotDefined(all_types(errors))
        } else if all_actions(errors).len() > 0 {
            ErrorModel::ActionNotDefined(all_actions(errors))
        } else {
            errors[0]
        },
{
    types_are_picked(errors);
    actions_are_picked(errors);
    lists_are_joined_in_order(
        errors.filter(reports_types()).map_values(|error: ErrorModel| error->TypeNotDefined_0),
    );
    lists_are_joined_in_order(
        errors.filter(reports_actions()).map_values(|error: ErrorModel| error->ActionNotDefined_0),
    );
}

/// The undefined types of errors are those of each of them.
proof fn types_of_each(errors: Seq<ErrorModel>)
    ensures
        forall|c: ConditionalModel| #[trigger]
            types_not_defined(errors).contains(c) <==> exists|k: int|
                0 <= k < errors.len() && is_reported_type(#[trigger] errors[k], c),
    decreases errors.len(),
{
    if errors.len() > 0 {
        let front = errors.drop_last();
        let all = types_not_defined(errors);
        let before = types_not_defined(front);
        types_of_each(front);
        assert forall|c: ConditionalModel| #[trigger] all.contains(c) <==> exists|k: int|
            0 <= k < errors.len() && is_reported_type(#[trigger] errors[k], c) by {
            if all.contains(c) {
                let i = choose|i: int| 0 <= i < all.len() && all[i] == c;
                if i < before.len() {
                    assert(before[i] == c);
                    assert(before.contains(c));
                    let k = choose|k: int|
                        0 <= k < front.len() && is_reported_type(#[trigger] front[k], c);
                    assert(is_reported_type(errors[k], c));
                } else {
                    assert(errors.last()->TypeNotDefined_0[i - before.len()] == c);
                    assert(is_reported_type(errors[errors.len() - 1], c));
                }
            }
            if exists|k: int| 0 <= k < errors.len() && is_reported_type(#[trigger] errors[k], c) {
                let k = choose|k: int|
                    0 <= k < errors.len() && is_reported_type(#[trigger] errors[k], c);
                if k < front.len() {
                    assert(is_reported_type(front[k], c));
                    assert(before.contains(c));
                    let i = choose|i: int| 0 <= i < before.len() && before[i] == c;
                    assert(all[i] == c);
                } else {
                    let last = errors.last()->TypeNotDefined_0;
                    let i = choose|i: int| 0 <= i < last.len() && last[i] == c;
                    assert(all[before.len() + i] == c);
                }
            }
        }
    }
}

/// The undefined actions of errors are those of each of them.
proof fn actions_of_each(errors: Seq<ErrorModel>)
    ensures
        forall|c: ActionUidModel<ConditionalModel>| #[trigger]
            actions_not_defined(errors).contains(c) <==> exists|k: int|
                0 <= k < errors.len() && is_reported_action(#[trigger] errors[k], c),
    decreases errors.len(),
{
    if errors.len() > 0 {
        let front = errors.drop_last();
        let all = actions_not_defined(errors);
        let before = actions_not_defined(front);
        actions_of_each(front);
        assert forall|c: ActionUidModel<ConditionalModel>| #[trigger]
            all.contains(c) <==> exists|k: int|
                0 <= k < errors.len() && is_reported_action(#[trigger] errors[k], c) by {
            if all.contains(c) {
                let i = choose|i: int| 0 <= i < all.len() && all[i] == c;
                if i < before.len() {
                    assert(before[i] == c);
                    assert(before.contains(c));
                    let k = choose|k: int|
                        0 <= k < front.len() && is_reported_action(#[trigger] front[k], c);
                    assert(is_reported_action(errors[k], c));
                } else {
                    assert(errors.last()->ActionNotDefined_0[i - before.len()] == c);
                    assert(is_reported_action(errors[errors.len() - 1], c));
                }
            }
            if exists|k: int| 0 <= k < errors.len() && is_reported_action(#[trigger] errors[k], c) {
                let k = choose|k: int|
                    0 <= k < errors.len() && is_reported_action(#[trigger] errors[k], c);
                if k < front.len() {
                    assert(is_reported_action(front[k], c));
                    assert(before.contains(c));
                    let i = choose|i: int| 0 <= i < before.len() && before[i] == c;
                    assert(all[i] == c);
                } else {
                    let last = errors.last()->ActionNotDefined_0;
                    let i = choose|i: int| 0 <= i < last.len() && last[i] == c;
                    assert(all[before.len() + i] == c);
                }
            }
        }
    }
}

/// Whether an error reports a type as not defined.
pub open spec fn is_reported_type(error: ErrorModel, c: ConditionalModel) -> bool {
    error matches ErrorModel::TypeNotDefined(reported) && reported.contains(c)
}

/// Whether an error reports an action as not defined.
pub open spec fn is_reported_action(
    error: ErrorModel,
    c: ActionUidModel<ConditionalModel>,
) -> bool {
    error matches ErrorModel::ActionNotDefined(reported) && reported.contains(c)
}

/// Whether a step found that a type is not defined.
pub open spec fn finds_undefined<T>(
    step: Result<T, Seq<ConditionalModel>>,
    c: ConditionalModel,
) -> bool {
    step matches Err(reported) && reported.contains(c)
}

/// Whether a step that can fail otherwise as well found that a type is not defined.
pub open spec fn finds_undefined_type<T>(step: Result<T, ErrorModel>, c: ConditionalModel) -> bool {
    step matches Err(error) && is_reported_type(error, c)
}

/// Whether a step found that an action is not defined.
pub open spec fn finds_undefined_action<T>(
    step: Result<T, ErrorModel>,
    c: ActionUidModel<ConditionalModel>,
) -> bool {
    step matches Err(error) && is_reported_action(error, c)
}

/// Whether a type is not defined that some part of a definition refers to.
pub open spec fn is_undefined_type_in(
    definition: NamespaceModel<ConditionalModel, ConditionalModel>,
    c: ConditionalModel,
    defs: DefsModel,
) -> bool {
    ||| exists|i: int|
        0 <= i < definition.common_types.len() && finds_undefined(
            type_resolved((#[trigger] definition.common_types[i]).1, defs),
            c,
        )
    ||| exists|i: int|
        0 <= i < definition.entity_types.len() && finds_undefined(
            fragment_resolved((#[trigger] definition.entity_types[i]).1, defs),
            c,
        )
    ||| exists|i: int|
        0 <= i < definition.actions.len() && finds_undefined_type(
            action_fragment_resolved((#[trigger] definition.actions[i]).1, defs),
            c,
        )
}

/// Whether an action is not defined that some part of a definition refers to.
pub open spec fn is_undefined_action_in(
    definition: NamespaceModel<ConditionalModel, ConditionalModel>,
    c: ActionUidModel<ConditionalModel>,
    defs: DefsModel,
) -> bool {
    exists|i: int|
        0 <= i < definition.actions.len() && finds_undefined_action(
            action_fragment_resolved((#[trigger] definition.actions[i]).1, defs),
            c,
        )
}

/// The errors of steps are those of each of them.
proof fn errors_of_each<T, E>(steps: Seq<Result<T, E>>)
    ensures
        forall|e: E| #[trigger]
            errs(steps).contains(e) <==> exists|k: int|
                0 <= k < steps.len() && #[trigger] steps[k] == Err::<T, E>(e),
    decreases steps.len(),
{
    if steps.len() > 0 {
        let front = steps.drop_last();
        let all = errs(steps);
        let before = errs(front);
        errors_of_each(front);
        assert forall|e: E| #[trigger] all.contains(e) <==> exists|k: int|
            0 <= k < steps.len() && #[trigger] steps[k] == Err::<T, E>(e) by {
            if all.contains(e) {
                let i = choose|i: int| 0 <= i < all.len() && all[i] == e;
                if i < before.len() {
                    assert(before[i] == e);
                    assert(before.contains(e));
                    let k = choose|k: int|
                        0 <= k < front.len() && #[trigger] front[k] == Err::<T, E>(e);
                    assert(steps[k] == Err::<T, E>(e));
                } else {
                    assert(steps[steps.len() - 1] == Err::<T, E>(e));
                }
            }
            if exists|k: int| 0 <= k < steps.len() && #[trigger] steps[k] == Err::<T, E>(e) {
                let k = choose|k: int|
                    0 <= k < steps.len() && #[trigger] steps[k] == Err::<T, E>(e);
                if k < front.len() {
                    assert(front[k] == Err::<T, E>(e));
                    assert(before.contains(e));
                    let i = choose|i: int| 0 <= i < before.len() && before[i] == e;
                    assert(all[i] == e);
                } else {
                    assert(all[all.len() - 1] == e);
                }
            }
        }
    }
}

/// Of several things that refer to types, exactly what each of them refers to and is not
/// defined is reported.
proof fn undefined_of_each<T>(steps: Seq<Result<T, Seq<ConditionalModel>>>)
    ensures
        forall|c: ConditionalModel| #[trigger]
            concat(errs(steps)).contains(c) <==> exists|k: int|
                0 <= k < steps.len() && finds_undefined(#[trigger] steps[k], c),
{
    let all = errs(steps);
    errors_of_each(steps);
    nothing_is_lost_by_joining(all);
    assert forall|c: ConditionalModel| #[trigger] concat(all).contains(c) <==> exists|k: int|
        0 <= k < steps.len() && finds_undefined(#[trigger] steps[k], c) by {
        if concat(all).contains(c) {
            let i = choose|i: int| 0 <= i < all.len() && (#[trigger] all[i]).contains(c);
            assert(all.contains(all[i]));
            let k = choose|k: int|
                0 <= k < steps.len() && #[trigger] steps[k] == Err::<T, Seq<ConditionalModel>>(
                    all[i],
                );
            assert(finds_undefined(steps[k], c));
        }
        if exists|k: int| 0 <= k < steps.len() && finds_undefined(#[trigger] steps[k], c) {
            let k = choose|k: int| 0 <= k < steps.len() && finds_undefined(#[trigger] steps[k], c);
            let e = steps[k]->Err_0;
            assert(steps[k] == Err::<T, Seq<ConditionalModel>>(e));
            assert(all.contains(e));
            let i = choose|i: int| 0 <= i < all.len() && all[i] == e;
            assert(all[i].contains(c));
        }
    }
}

/// Common types report exactly the references in each of them that stand for nothing.
pub proof fn common_types_report_each(
    types: Seq<(NameModel, SchemaType<ConditionalModel>)>,
    defs: DefsModel,
)
    ensures
        common_types_resolved(types, defs) is Ok <==> forall|i: int|
            0 <= i < types.len() ==> type_resolved((#[trigger] types[i]).1, defs) is Ok,
        common_types_resolved(types, defs) matches Err(reported) ==> forall|c: ConditionalModel|
            #[trigger]
            reported.contains(c) <==> exists|i: int|
                0 <= i < types.len() && finds_undefined(
                    type_resolved((#[trigger] types[i]).1, defs),
                    c,
                ),
{
    let steps = common_type_steps(types, defs);
    partitioned_ok(steps);
    undefined_of_each(steps);
    assert forall|i: int| 0 <= i < types.len() implies ((#[trigger] steps[i]) is Ok
        <==> type_resolved(types[i].1, defs) is Ok) by {}
    if partitioned(steps) is Ok {
        assert forall|i: int| 0 <= i < types.len() implies type_resolved(
            (#[trigger] types[i]).1,
            defs,
        ) is Ok by {
            assert(steps[i] is Ok);
        }
    } else {
        let reported = common_types_resolved(types, defs)->Err_0;
        assert forall|c: ConditionalModel| #[trigger] reported.contains(c) <==> exists|i: int|
            0 <= i < types.len() && finds_undefined(
                type_resolved((#[trigger] types[i]).1, defs),
                c,
            ) by {
            if reported.contains(c) {
                let k = choose|k: int| 0 <= k < steps.len() && finds_undefined(#[trigger] steps[k], c);
                assert(finds_undefined(type_resolved(types[k].1, defs), c));
            }
            if exists|i: int|
                0 <= i < types.len() && finds_undefined(
                    type_resolved((#[trigger] types[i]).1, defs),
                    c,
                ) {
                let i = choose|i: int|
                    0 <= i < types.len() && finds_undefined(
                        type_resolved((#[trigger] types[i]).1, defs),
                        c,
                    );
                assert(finds_undefined(steps[i], c));
            }
        }
    }
}

/// Entity types report exactly what is reported of each of them.
pub proof fn entity_types_report_each(
    types: Seq<(NameModel, FragmentModel<ConditionalModel>)>,
    defs: DefsModel,
)
    ensures
        entity_types_resolved(types, defs) is Ok <==> forall|i: int|
            0 <= i < types.len() ==> fragment_resolved((#[trigger] types[i]).1, defs) is Ok,
        entity_types_resolved(types, defs) matches Err(reported) ==> forall|c: ConditionalModel|
            #[trigger]
            reported.contains(c) <==> exists|i: int|
                0 <= i < types.len() && finds_undefined(
                    fragment_resolved((#[trigger] types[i]).1, defs),
                    c,
                ),
{
    let steps = entity_type_steps(types, defs);
    partitioned_ok(steps);
    undefined_of_each(steps);
    assert forall|i: int| 0 <= i < types.len() implies ((#[trigger] steps[i]) is Ok
        <==> fragment_resolved(types[i].1, defs) is Ok) by {}
    if partitioned(steps) is Ok {
        assert forall|i: int| 0 <= i < types.len() implies fragment_resolved(
            (#[trigger] types[i]).1,
            defs,
        ) is Ok by {
            assert(steps[i] is Ok);
        }
    } else {
        let reported = entity_types_resolved(types, defs)->Err_0;
        assert forall|c: ConditionalModel| #[trigger] reported.contains(c) <==> exists|i: int|
            0 <= i < types.len() && finds_undefined(
                fragment_resolved((#[trigger] types[i]).1, defs),
                c,
            ) by {
            if reported.contains(c) {
                let k = choose|k: int| 0 <= k < steps.len() && finds_undefined(#[trigger] steps[k], c);
                assert(finds_undefined(fragment_resolved(types[k].1, defs), c));
            }
            if exists|i: int|
                0 <= i < types.len() && finds_undefined(
                    fragment_resolved((#[trigger] types[i]).1, defs),
                    c,
                ) {
                let i = choose|i: int|
                    0 <= i < types.len() && finds_undefined(
                        fragment_resolved((#[trigger] types[i]).1, defs),
                        c,
                    );
                assert(finds_undefined(steps[i], c));
            }
        }
    }
}

/// Actions can be resolved exactly where each of them can. Otherwise the error is that of
/// all of them together.
pub proof fn actions_report_each(
    actions: Seq<(UidModel, ActionFragmentModel<ConditionalModel, ConditionalModel>)>,
    defs: DefsModel,
)
    ensures
        actions_resolved(actions, defs) is Ok <==> forall|i: int|
            0 <= i < actions.len() ==> action_fragment_resolved(
                (#[trigger] actions[i]).1,
                defs,
            ) is Ok,
        actions_resolved(actions, defs) matches Err(error) ==> match error {
            ErrorModel::TypeNotDefined(reported) => forall|c: ConditionalModel| #[trigger]
                reported.contains(c) <==> exists|i: int|
                    0 <= i < actions.len() && finds_undefined_type(
                        action_fragment_resolved((#[trigger] actions[i]).1, defs),
                        c,
                    ),
            ErrorModel::ActionNotDefined(reported) => {
                &&& forall|c: ActionUidModel<ConditionalModel>| #[trigger]
                    reported.contains(c) <==> exists|i: int|
                        0 <= i < actions.len() && finds_undefined_action(
                            action_fragment_resolved((#[trigger] actions[i]).1, defs),
                            c,
                        )
                &&& forall|i: int, c: ConditionalModel|
                    0 <= i < actions.len() ==> !#[trigger] finds_undefined_type(
                        action_fragment_resolved(actions[i].1, defs),
                        c,
                    )
            },
            _ => {
                &&& exists|i: int|
                    0 <= i < actions.len() && action_fragment_resolved(
                        (#[trigger] actions[i]).1,
                        defs,
                    ) == Err::<ActionFragmentModel<NameModel, NameModel>, ErrorModel>(error)
                &&& forall|i: int, c: ConditionalModel|
                    0 <= i < actions.len() ==> !#[trigger] finds_undefined_type(
                        action_fragment_resolved(actions[i].1, defs),
                        c,
                    )
                &&& forall|i: int, c: ActionUidModel<ConditionalModel>|
                    0 <= i < actions.len() ==> !#[trigger] finds_undefined_action(
                        action_fragment_resolved(actions[i].1, defs),
                        c,
                    )
            },
        },
{
    let steps = action_steps(actions, defs);
    partitioned_ok(steps);
    assert forall|i: int| 0 <= i < actions.len() implies ((#[trigger] steps[i]) is Ok
        <==> action_fragment_resolved(actions[i].1, defs) is Ok) by {}
    if partitioned(steps) is Ok {
        assert forall|i: int| 0 <= i < actions.len() implies action_fragment_resolved(
            (#[trigger] actions[i]).1,
            defs,
        ) is Ok by {
            assert(steps[i] is Ok);
        }
    } else {
        actions_report_together(actions, defs);
    }
}

/// The errors of several actions.
proof fn actions_report_together(
    actions: Seq<(UidModel, ActionFragmentModel<ConditionalModel, ConditionalModel>)>,
    defs: DefsModel,
)
    ensures
        forall|c: ConditionalModel| #[trigger]
            types_not_defined(errs(action_steps(actions, defs))).contains(c) <==> exists|i: int|
                0 <= i < actions.len() && finds_undefined_type(
                    action_fragment_resolved((#[trigger] actions[i]).1, defs),
                    c,
                ),
        forall|c: ActionUidModel<ConditionalModel>| #[trigger]
            actions_not_defined(errs(action_steps(actions, defs))).contains(c) <==> exists|i: int|
                0 <= i < actions.len() && finds_undefined_action(
                    action_fragment_resolved((#[trigger] actions[i]).1, defs),
                    c,
                ),
        errs(action_steps(actions, defs)).len() > 0 ==> exists|i: int|
            0 <= i < actions.len() && action_fragment_resolved((#[trigger] actions[i]).1, defs)
                == Err::<ActionFragmentModel<NameModel, NameModel>, ErrorModel>(
                errs(action_steps(actions, defs))[0],
            ),
        types_not_defined(errs(action_steps(actions, defs))).len() == 0 ==> forall|
            i: int,
            c: ConditionalModel,
        |
            0 <= i < actions.len() ==> !#[trigger] finds_undefined_type(
                action_fragment_resolved(actions[i].1, defs),
                c,
            ),
        actions_not_defined(errs(action_steps(actions, defs))).len() == 0 ==> forall|
            i: int,
            c: ActionUidModel<ConditionalModel>,
        |
            0 <= i < actions.len() ==> !#[trigger] finds_undefined_action(
                action_fragment_resolved(actions[i].1, defs),
                c,
            ),
{
    let steps = action_steps(actions, defs);
    let all = errs(steps);
    errors_of_each(steps);
    types_of_each(all);
    actions_of_each(all);
    assert forall|c: ConditionalModel| #[trigger]
        types_not_defined(all).contains(c) <==> exists|i: int|
            0 <= i < actions.len() && finds_undefined_type(
                action_fragment_resolved((#[trigger] actions[i]).1, defs),
                c,
            ) by {
        if types_not_defined(all).contains(c) {
            let j = choose|j: int| 0 <= j < all.len() && is_reported_type(#[trigger] all[j], c);
            assert(all.contains(all[j]));
            let k = choose|k: int|
                0 <= k < steps.len() && #[trigger] steps[k] == Err::<
                    (UidModel, ActionFragmentModel<NameModel, NameModel>),
                    ErrorModel,
                >(all[j]);
            assert(finds_undefined_type(action_fragment_resolved(actions[k].1, defs), c));
        }
        if exists|i: int|
            0 <= i < actions.len() && finds_undefined_type(
                action_fragment_resolved((#[trigger] actions[i]).1, defs),
                c,
            ) {
            let i = choose|i: int|
                0 <= i < actions.len() && finds_undefined_type(
                    action_fragment_resolved((#[trigger] actions[i]).1, defs),
                    c,
                );
            let e = action_fragment_resolved(actions[i].1, defs)->Err_0;
            assert(steps[i] == Err::<
                (UidModel, ActionFragmentModel<NameModel, NameModel>),
                ErrorModel,
            >(e));
            assert(all.contains(e));
            let j = choose|j: int| 0 <= j < all.len() && all[j] == e;
            assert(is_reported_type(all[j], c));
        }
    }
    assert forall|c: ActionUidModel<ConditionalModel>| #[trigger]
        actions_not_defined(all).contains(c) <==> exists|i: int|
            0 <= i < actions.len() && finds_undefined_action(
                action_fragment_resolved((#[trigger] actions[i]).1, defs),
                c,
            ) by {
        if actions_not_defined(all).contains(c) {
            let j = choose|j: int| 0 <= j < all.len() && is_reported_action(#[trigger] all[j], c);
            assert(all.contains(all[j]));
            let k = choose|k: int|
                0 <= k < steps.len() && #[trigger] steps[k] == Err::<
                    (UidModel, ActionFragmentModel<NameModel, NameModel>),
                    ErrorModel,
                >(all[j]);
            assert(finds_undefined_action(action_fragment_resolved(actions[k].1, defs), c));
        }
        if exists|i: int|
            0 <= i < actions.len() && finds_undefined_action(
                action_fragment_resolved((#[trigger] actions[i]).1, defs),
                c,
            ) {
            let i = choose|i: int|
                0 <= i < actions.len() && finds_undefined_action(
                    action_fragment_resolved((#[trigger] actions[i]).1, defs),
                    c,
                );
            let e = action_fragment_resolved(actions[i].1, defs)->Err_0;
            assert(steps[i] == Err::<
                (UidModel, ActionFragmentModel<NameModel, NameModel>),
                ErrorModel,
            >(e));
            assert(all.contains(e));
            let j = choose|j: int| 0 <= j < all.len() && all[j] == e;
            assert(is_reported_action(all[j], c));
        }
    }
    if all.len() > 0 {
        assert(all.contains(all[0]));
        let k = choose|k: int|
            0 <= k < steps.len() && #[trigger] steps[k] == Err::<
                (UidModel, ActionFragmentModel<NameModel, NameModel>),
                ErrorModel,
            >(all[0]);
        assert(action_fragment_resolved(actions[k].1, defs) == Err::<
            ActionFragmentModel<NameModel, NameModel>,
            ErrorModel,
        >(all[0]));
    }
    if types_not_defined(all).len() == 0 {
        assert forall|i: int, c: ConditionalModel|
            0 <= i < actions.len() implies !#[trigger] finds_undefined_type(
            action_fragment_resolved(actions[i].1, defs),
            c,
        ) by {
            assert(!types_not_defined(all).contains(c));
        }
    }
    if actions_not_defined(all).len() == 0 {
        assert forall|i: int, c: ActionUidModel<ConditionalModel>|
            0 <= i < actions.len() implies !#[trigger] finds_undefined_action(
            action_fragment_resolved(actions[i].1, defs),
            c,
        ) by {
            assert(!actions_not_defined(all).contains(c));
        }
    }
}

/// A namespace can be resolved exactly where every part of it can. Otherwise all types
/// that some part refers to and that are not defined are reported, and nothing else; or,
/// where there are none, all such actions; or else what is wrong with one of the actions.
pub proof fn namespace_reports_each(
    definition: NamespaceModel<ConditionalModel, ConditionalModel>,
    defs: DefsModel,
)
    ensures
        namespace_resolved(definition, defs) is Ok <==> {
            &&& forall|i: int|
                0 <= i < definition.common_types.len() ==> type_resolved(
                    (#[trigger] definition.common_types[i]).1,
                    defs,
                ) is Ok
            &&& forall|i: int|
                0 <= i < definition.entity_types.len() ==> fragment_resolved(
                    (#[trigger] definition.entity_types[i]).1,
                    defs,
                ) is Ok
            &&& forall|i: int|
                0 <= i < definition.actions.len() ==> action_fragment_resolved(
                    (#[trigger] definition.actions[i]).1,
                    defs,
                ) is Ok
        },
        namespace_resolved(definition, defs) matches Err(error) ==> match error {
            ErrorModel::TypeNotDefined(reported) => forall|c: ConditionalModel| #[trigger]
                reported.contains(c) <==> is_undefined_type_in(definition, c, defs),
            ErrorModel::ActionNotDefined(reported) => {
                &&& forall|c: ConditionalModel| !#[trigger] is_undefined_type_in(definition, c, defs)
                &&& forall|c: ActionUidModel<ConditionalModel>| #[trigger]
                    reported.contains(c) <==> is_undefined_action_in(definition, c, defs)
            },
            _ => {
                &&& forall|c: ConditionalModel| !#[trigger] is_undefined_type_in(definition, c, defs)
                &&& forall|c: ActionUidModel<ConditionalModel>|
                    !#[trigger] is_undefined_action_in(definition, c, defs)
                &&& exists|i: int|
                    0 <= i < definition.actions.len() && action_fragment_resolved(
                        (#[trigger] definition.actions[i]).1,
                        defs,
                    ) == Err::<ActionFragmentModel<NameModel, NameModel>, ErrorModel>(error)
            },
        },
{
    let common_types = common_types_resolved(definition.common_types, defs);
    let entity_types = entity_types_resolved(definition.entity_types, defs);
    let actions = actions_resolved(definition.actions, defs);
    common_types_report_each(definition.common_types, defs);
    entity_types_report_each(definition.entity_types, defs);
    actions_report_each(definition.actions, defs);
    if let Err(error) = namespace_resolved(definition, defs) {
        let a = undefined_types(common_types);
        let b = undefined_types(entity_types);
        let errors = err_of(a) + err_of(b) + err_of(actions);
        errors_of_three(a, b, actions);
        types_of_each(errors);
        actions_of_each(errors);
        assert forall|x: ConditionalModel| #[trigger]
            is_undefined_type_in(definition, x, defs) <==> types_not_defined(errors).contains(x) by {
            undefined_type_is_of_a_part(definition, x, defs);
        }
        if types_not_defined(errors).len() == 0 {
            assert forall|x: ConditionalModel| !#[trigger] is_undefined_type_in(
                definition,
                x,
                defs,
            ) by {
                assert(!types_not_defined(errors).contains(x));
            }
            assert forall|x: ConditionalModel| !is_reported_type(errors[0], x) by {
                assert(!types_not_defined(errors).contains(x));
            }
            assert forall|x: ActionUidModel<ConditionalModel>| #[trigger]
                actions_not_defined(errors).contains(x) <==> finds_undefined_action(actions, x) by {
                assert(!finds_undefined_action(a, x));
                assert(!finds_undefined_action(b, x));
            }
            if actions_not_defined(errors).len() > 0 {
                let x = actions_not_defined(errors)[0];
                assert(actions_not_defined(errors).contains(x));
                assert(finds_undefined_action(actions, x));
                assert forall|x: ActionUidModel<ConditionalModel>| #[trigger]
                    actions_not_defined(errors).contains(x) <==> is_undefined_action_in(
                        definition,
                        x,
                        defs,
                    ) by {}
            } else {
                assert(error == errors[0]);
                match error {
                    ErrorModel::TypeNotDefined(reported) => {
                        assert forall|x: ConditionalModel| #[trigger]
                            reported.contains(x) <==> is_undefined_type_in(definition, x, defs) by {
                            assert(!is_reported_type(errors[0], x));
                            assert(!is_undefined_type_in(definition, x, defs));
                        }
                    },
                    _ => {
                        assert(a is Ok && b is Ok);
                        assert(actions == Err::<
                            Seq<(UidModel, ActionFragmentModel<NameModel, NameModel>)>,
                            ErrorModel,
                        >(error));
                        if !(error is ActionNotDefined) {
                            assert forall|x: ActionUidModel<ConditionalModel>|
                                !#[trigger] is_undefined_action_in(definition, x, defs) by {
                                assert forall|i: int|
                                    0 <= i < definition.actions.len() implies !finds_undefined_action(
                                    action_fragment_resolved(
                                        (#[trigger] definition.actions[i]).1,
                                        defs,
                                    ),
                                    x,
                                ) by {}
                            }
                        }
                    },
                }
            }
        }
    }
}

/// The errors of three steps are those of each of them.
proof fn errors_of_three<A, B, C>(
    a: Result<A, ErrorModel>,
    b: Result<B, ErrorModel>,
    c: Result<C, ErrorModel>,
)
    ensures
        ({
            let errors = err_of(a) + err_of(b) + err_of(c);
            &&& forall|x: ConditionalModel|
                (exists|k: int| 0 <= k < errors.len() && is_reported_type(#[trigger] errors[k], x))
                    <==> #[trigger] finds_undefined_type(a, x) || finds_undefined_type(b, x)
                    || finds_undefined_type(c, x)
            &&& forall|x: ActionUidModel<ConditionalModel>|
                (exists|k: int| 0 <= k < errors.len() && is_reported_action(#[trigger] errors[k], x))
                    <==> #[trigger] finds_undefined_action(a, x) || finds_undefined_action(b, x)
                    || finds_undefined_action(c, x)
        }),
{
    let errors = err_of(a) + err_of(b) + err_of(c);
    if a is Err {
        assert(errors[0] == a->Err_0);
    }
    if b is Err {
        assert(errors[err_of(a).len() as int] == b->Err_0);
    }
    if c is Err {
        assert(errors[errors.len() - 1] == c->Err_0);
    }
    assert forall|x: ConditionalModel|
        (exists|k: int| 0 <= k < errors.len() && is_reported_type(#[trigger] errors[k], x))
            <==> #[trigger] finds_undefined_type(a, x) || finds_undefined_type(b, x)
            || finds_undefined_type(c, x) by {
        if finds_undefined_type(a, x) {
            assert(is_reported_type(errors[0], x));
        }
        if finds_undefined_type(b, x) {
            assert(is_reported_type(errors[err_of(a).len() as int], x));
        }
        if finds_undefined_type(c, x) {
            assert(is_reported_type(errors[errors.len() - 1], x));
        }
    }
    assert forall|x: ActionUidModel<ConditionalModel>|
        (exists|k: int| 0 <= k < errors.len() && is_reported_action(#[trigger] errors[k], x))
            <==> #[trigger] finds_undefined_action(a, x) || finds_undefined_action(b, x)
            || finds_undefined_action(c, x) by {
        if finds_undefined_action(a, x) {
            assert(is_reported_action(errors[0], x));
        }
        if finds_undefined_action(b, x) {
            assert(is_reported_action(errors[err_of(a).len() as int], x));
        }
        if finds_undefined_action(c, x) {
            assert(is_reported_action(errors[errors.len() - 1], x));
        }
    }
}

/// A type is not defined that a definition refers to exactly where its common types, its
/// entity types or its actions report it.
proof fn undefined_type_is_of_a_part(
    definition: NamespaceModel<ConditionalModel, ConditionalModel>,
    x: ConditionalModel,
    defs: DefsModel,
)
    ensures
        is_undefined_type_in(definition, x, defs) <==> {
            ||| finds_undefined_type(
                undefined_types(common_types_resolved(definition.common_types, defs)),
                x,
            )
            ||| finds_undefined_type(
                undefined_types(entity_types_resolved(definition.entity_types, defs)),
                x,
            )
            ||| finds_undefined_type(actions_resolved(definition.actions, defs), x)
        },
{
    common_types_report_each(definition.common_types, defs);
    entity_types_report_each(definition.entity_types, defs);
    actions_report_each(definition.actions, defs);
    if exists|i: int|
        0 <= i < definition.actions.len() && finds_undefined_type(
            action_fragment_resolved((#[trigger] definition.actions[i]).1, defs),
            x,
        ) {
        let i = choose|i: int|
            0 <= i < definition.actions.len() && finds_undefined_type(
                action_fragment_resolved((#[trigger] definition.actions[i]).1, defs),
                x,
            );
        assert(action_fragment_resolved(definition.actions[i].1, defs) is Err);
        assert(finds_undefined_type(actions_resolved(definition.actions, defs), x));
    }
}

/// What a step found not to be defined.
pub open spec fn found_undefined<T>() -> spec_fn(Result<T, Seq<ConditionalModel>>) -> Seq<
    ConditionalModel,
> {
    |step: Result<T, Seq<ConditionalModel>>|
        match step {
            Ok(_) => Seq::empty(),
            Err(reported) => reported,
        }
}

/// What several steps found not to be defined, one step behind the other.
proof fn undefined_in_order<T>(steps: Seq<Result<T, Seq<ConditionalModel>>>)
    ensures
        concat(errs(steps)) =~= steps.map_values(found_undefined::<T>()).flatten(),
    decreases steps.len(),
{
    let each = steps.map_values(found_undefined::<T>());
    lists_are_joined_in_order(each);
    if steps.len() > 0 {
        let front = steps.drop_last();
        undefined_in_order(front);
        lists_are_joined_in_order(front.map_values(found_undefined::<T>()));
        assert(each.drop_last() =~= front.map_values(found_undefined::<T>()));
        if steps.last() is Err {
            assert(errs(steps).drop_last() =~= errs(front));
        }
    }
}

/// What is not defined is reported in the order in which it is referred to: of the common
/// types one behind the other, and likewise of the entity types.
pub proof fn undefined_types_are_reported_in_order(
    common_types: Seq<(NameModel, SchemaType<ConditionalModel>)>,
    entity_types: Seq<(NameModel, FragmentModel<ConditionalModel>)>,
    defs: DefsModel,
)
    ensures
        common_types_resolved(common_types, defs) matches Err(reported) ==> reported =~= Seq::new(
            common_types.len(),
            |i: int| type_resolved(common_types[i].1, defs),
        ).map_values(found_undefined()).flatten(),
        entity_types_resolved(entity_types, defs) matches Err(reported) ==> reported =~= Seq::new(
            entity_types.len(),
            |i: int| fragment_resolved(entity_types[i].1, defs),
        ).map_values(found_undefined()).flatten(),
{
    let a = common_type_steps(common_types, defs);
    let b = entity_type_steps(entity_types, defs);
    undefined_in_order(a);
    undefined_in_order(b);
    assert(a.map_values(found_undefined()) =~= Seq::new(
        common_types.len(),
        |i: int| type_resolved(common_types[i].1, defs),
    ).map_values(found_undefined()));
    assert(b.map_values(found_undefined()) =~= Seq::new(
        entity_types.len(),
        |i: int| fragment_resolved(entity_types[i].1, defs),
    ).map_values(found_undefined()));
}

/// The errors of several steps, in order.
pub open spec fn errors_in_order<T>(steps: Seq<Result<T, ErrorModel>>) -> Seq<ErrorModel> {
    steps.filter(failed::<T, ErrorModel>()).map_values(|step: Result<T, ErrorModel>| step->Err_0)
}

/// The errors of steps do not depend on their values.
proof fn same_errors<T, U>(a: Seq<Result<T, ErrorModel>>, b: Seq<Result<U, ErrorModel>>)
    requires
        a.len() == b.len(),
        forall|i: int|
            0 <= i < a.len() ==> match (#[trigger] a[i], b[i]) {
                (Ok(_), Ok(_)) => true,
                (Err(x), Err(y)) => x == y,
                _ => false,
            },
    ensures
        errs(a) =~= errs(b),
    decreases a.len(),
{
    if a.len() > 0 {
        assert forall|i: int| 0 <= i < a.len() - 1 implies match (
            #[trigger] a.drop_last()[i],
            b.drop_last()[i],
        ) {
            (Ok(_), Ok(_)) => true,
            (Err(x), Err(y)) => x == y,
            _ => false,
        } by {
            assert(a[i] == a.drop_last()[i]);
        }
        same_errors(a.drop_last(), b.drop_last());
        assert(a[a.len() - 1] == a.last());
    }
}

/// What is wrong with several actions is joined in the order in which they come.
pub proof fn actions_report_in_order(
    actions: Seq<(UidModel, ActionFragmentModel<ConditionalModel, ConditionalModel>)>,
    defs: DefsModel,
)
    ensures
        actions_resolved(actions, defs) matches Err(error) ==> error == joined(
            errors_in_order(
                Seq::new(actions.len(), |i: int| action_fragment_resolved(actions[i].1, defs)),
            ),
        ),
{
    let steps = action_steps(actions, defs);
    let plain = Seq::new(actions.len(), |i: int| action_fragment_resolved(actions[i].1, defs));
    same_errors(steps, plain);
    failures_are_kept_in_order(plain);
}

/// What is wrong with a namespace is joined in one order: the undefined types that its
/// common types refer to, those that its entity types do, and what is wrong with its
/// actions.
pub proof fn namespace_reports_in_order(
    definition: NamespaceModel<ConditionalModel, ConditionalModel>,
    defs: DefsModel,
)
    ensures
        namespace_resolved(definition, defs) matches Err(error) ==> {
            let first = match common_types_resolved(definition.common_types, defs) {
                Ok(_) => Seq::empty(),
                Err(reported) => seq![ErrorModel::TypeNotDefined(reported)],
            };
            let second = match entity_types_resolved(definition.entity_types, defs) {
                Ok(_) => Seq::empty(),
                Err(reported) => seq![ErrorModel::TypeNotDefined(reported)],
            };
            let third = match actions_resolved(definition.actions, defs) {
                Ok(_) => Seq::empty(),
                Err(cause) => seq![cause],
            };
            error == joined(first + second + third)
        },
{
}

} // verus!
