//! What becomes of a namespace when its references are resolved.

use crate::action_uid::{
    action_resolved, first_defined_action_found, is_defined_action, ActionEntityUID,
};
use crate::actions::{
    action_fragment_resolved, action_steps, actions_found, actions_keep_names, raw_action,
    ActionFragmentModel,
};
use crate::apply_spec::{apply_spec_resolved, entity_types_found, ApplySpecModel};
use crate::common_types::{common_type_steps, common_types_keep_names};
use crate::declarations::{ActionTypeModel, EntityDeclarationModel, EntityKindModel};
use crate::defs::DefsModel;
use crate::entity_types::{
    entity_references, entity_type_steps, entity_types_keep_names, fragment_resolved, parents_of,
    raw_fragment, references_resolved, undeclared, FragmentModel,
};
use crate::keyed::{distinct, distinct_keeps_keys, has_key, key_set, names_of, Keyed};
use crate::laws::references::{each_reference, resolves, type_resolves_where_references_do};
use crate::names::{EntityType, InternalName, LocModel, NameModel, UidModel};
use crate::namespace_def::{namespace_resolved, NamespaceModel};
use crate::outcome::{errs, oks, partitioned, partitioned_ok};
use crate::raw_name::{
    first_defined_found, resolved, ConditionalModel, ConditionalName, ReferenceType,
};
use crate::value::RestrictedEvaluator;
use vstd::prelude::*;

verus! {

/// Resolving references leaves the namespace as it is, and everything stays declared
/// under the same names in the same order. So nothing is declared twice afterwards
/// where nothing was before.
pub proof fn declared_names_are_kept(
    definition: NamespaceModel<ConditionalModel, ConditionalModel>,
    defs: DefsModel,
)
    ensures
        namespace_resolved(definition, defs) matches Ok(r) ==> {
            &&& r.namespace == definition.namespace
            &&& names_of(r.common_types) == names_of(definition.common_types)
            &&& names_of(r.entity_types) == names_of(definition.entity_types)
            &&& names_of(r.actions) == names_of(definition.actions)
        },
{
    common_types_keep_names(definition.common_types, defs);
    entity_types_keep_names(definition.entity_types, defs);
    actions_keep_names(definition.actions, defs);
}

/// Which namespace a definition is of is informational only: what becomes of the
/// declarations, or which error comes of them, does not depend on it.
pub proof fn namespace_is_informational(
    definition: NamespaceModel<ConditionalModel, ConditionalModel>,
    other: Option<NameModel>,
    defs: DefsModel,
)
    ensures
        namespace_resolved(NamespaceModel { namespace: other, ..definition }, defs) == (
        match namespace_resolved(definition, defs) {
            Ok(r) => Ok(NamespaceModel { namespace: other, ..r }),
            Err(error) => Err(error),
        }),
{
}

/// What is defined as an entity type is none of the undeclared ones.
proof fn undeclared_is_empty(names: Seq<NameModel>, defs: DefsModel)
    ensures
        undeclared(names, defs).len() == 0 <==> forall|i: int|
            0 <= i < names.len() ==> defs.entity.contains((#[trigger] names[i]).components()),
    decreases names.len(),
{
    if names.len() > 0 {
        let front = names.drop_last();
        undeclared_is_empty(front, defs);
        assert forall|i: int| 0 <= i < front.len() implies #[trigger] names[i] == front[i] by {}
        if undeclared(names, defs).len() == 0 {
            assert forall|i: int| 0 <= i < names.len() implies defs.entity.contains(
                (#[trigger] names[i]).components(),
            ) by {
                if i < front.len() {
                    assert(defs.entity.contains(front[i].components()));
                }
            }
        } else if forall|i: int|
            0 <= i < names.len() ==> defs.entity.contains((#[trigger] names[i]).components()) {
            assert forall|i: int| 0 <= i < front.len() implies defs.entity.contains(
                (#[trigger] front[i]).components(),
            ) by {
                assert(defs.entity.contains(names[i].components()));
            }
            assert(defs.entity.contains(names[names.len() - 1].components()));
        }
    }
}

/// Once a fragment of an entity type is resolved, every parent in it is an entity
/// type that is defined, and no parent occurs twice.
pub proof fn resolved_parents_are_entity_types(
    fragment: FragmentModel<ConditionalModel>,
    defs: DefsModel,
)
    ensures
        fragment_resolved(fragment, defs) matches Ok(FragmentModel::Standard { parents, .. }) ==> {
            &&& forall|i: int|
                0 <= i < parents.len() ==> defs.entity.contains(
                    (#[trigger] parents[i]).components(),
                )
            &&& forall|i: int, j: int|
                0 <= i < j < parents.len() ==> (#[trigger] parents[i]).components() != (
                #[trigger] parents[j]).components()
        },
{
    if let Ok(FragmentModel::Standard { parents, .. }) = fragment_resolved(fragment, defs) {
        let steps = references_resolved(fragment->parents, defs);
        let names = partitioned(steps)->Ok_0;
        undeclared_is_empty(parents, defs);
        distinct_keeps_keys::<InternalName>(names);
        assert forall|i: int, j: int| 0 <= i < j < parents.len() implies (
        #[trigger] parents[i]).components() != (#[trigger] parents[j]).components() by {
            assert(InternalName::key(parents[i]) != InternalName::key(parents[j]));
        }
    }
}

/// The entities of an entity type that lists them stay as they are.
pub proof fn listed_entities_are_kept(choices: Seq<Seq<char>>, defs: DefsModel)
    ensures
        fragment_resolved(FragmentModel::Enum(choices), defs) == Ok::<
            FragmentModel<NameModel>,
            Seq<ConditionalModel>,
        >(FragmentModel::Enum(choices)),
{
}

/// The keys of what is left of a sequence are those of its elements.
proof fn distinct_elements_have_keys<T: Keyed>(s: Seq<T::M>, i: int) -> (j: int)
    requires
        0 <= i < distinct::<T>(s).len(),
    ensures
        0 <= j < s.len(),
        s[j] == distinct::<T>(s)[i],
{
    distinct_keeps_keys::<T>(s);
    assert(s.contains(distinct::<T>(s)[i]));
    choose|j: int| 0 <= j < s.len() && s[j] == distinct::<T>(s)[i]
}

/// Once a fragment of an action is resolved, every action that it is a member of is
/// defined. What was declared of the action besides references stays as it is.
pub proof fn resolved_action_parents_are_defined(
    fragment: ActionFragmentModel<ConditionalModel, ConditionalModel>,
    defs: DefsModel,
)
    ensures
        action_fragment_resolved(fragment, defs) matches Ok(r) ==> {
            &&& forall|i: int|
                0 <= i < r.parents.len() ==> is_defined_action(
                    (#[trigger] r.parents[i]).id,
                    r.parents[i].ty,
                    defs,
                )
            &&& r.attribute_types == fragment.attribute_types
            &&& r.attributes == fragment.attributes
            &&& r.loc == fragment.loc
        },
{
    if let Ok(r) = action_fragment_resolved(fragment, defs) {
        let steps = actions_found(fragment.parents, defs);
        let found = partitioned(steps)->Ok_0;
        partitioned_ok(steps);
        assert forall|i: int| 0 <= i < r.parents.len() implies is_defined_action(
            (#[trigger] r.parents[i]).id,
            r.parents[i].ty,
            defs,
        ) by {
            let j = distinct_elements_have_keys::<ActionEntityUID<InternalName>>(found, i);
            let action = fragment.parents[j];
            assert(steps[j] is Ok);
            first_defined_action_found(action.id, action.ty.possibilities, defs);
        }
    }
}

/// That a reference may only be to an entity type.
pub open spec fn to_entity_types(references: Seq<ConditionalModel>) -> bool {
    forall|i: int|
        0 <= i < references.len() ==> (#[trigger] references[i]).reference_type
            == ReferenceType::Entity
}

/// That each name is that of an entity type that is defined, and does not have the
/// reserved identifier in it.
pub open spec fn are_entity_types(names: Seq<NameModel>, defs: DefsModel) -> bool {
    forall|i: int|
        0 <= i < names.len() ==> defs.entity.contains((#[trigger] names[i]).components())
            && !names[i].is_reserved()
}

proof fn found_entity_types_are_defined(references: Seq<ConditionalModel>, defs: DefsModel)
    requires
        to_entity_types(references),
        errs(entity_types_found(references, defs)).len() == 0,
    ensures
        are_entity_types(
            distinct::<EntityType>(oks(entity_types_found(references, defs))),
            defs,
        ),
{
    let steps = entity_types_found(references, defs);
    partitioned_ok(steps);
    let names = distinct::<EntityType>(oks(steps));
    assert forall|i: int| 0 <= i < names.len() implies defs.entity.contains(
        (#[trigger] names[i]).components(),
    ) && !names[i].is_reserved() by {
        let j = distinct_elements_have_keys::<EntityType>(oks(steps), i);
        assert(steps[j] is Ok);
        assert(references[j].reference_type == ReferenceType::Entity);
        first_defined_found(references[j].possibilities, references[j].reference_type, defs);
    }
}

/// Once it is resolved what an action applies to, these are entity types that are
/// defined, where the references were to entity types.
pub proof fn resolved_apply_spec_is_defined(
    spec: ApplySpecModel<ConditionalModel>,
    defs: DefsModel,
)
    requires
        to_entity_types(spec.principals),
        to_entity_types(spec.resources),
    ensures
        apply_spec_resolved(spec, defs) matches Ok(r) ==> are_entity_types(r.principals, defs)
            && are_entity_types(r.resources, defs),
{
    if apply_spec_resolved(spec, defs) is Ok {
        found_entity_types_are_defined(spec.principals, defs);
        found_entity_types_are_defined(spec.resources, defs);
    }
}

/// What is left of references to entity types is still to entity types.
proof fn distinct_are_to_entity_types(names: Seq<NameModel>, namespace: Option<NameModel>)
    ensures
        to_entity_types(distinct::<ConditionalName>(entity_references(names, namespace))),
{
    let references = entity_references(names, namespace);
    let kept = distinct::<ConditionalName>(references);
    assert forall|i: int| 0 <= i < kept.len() implies (#[trigger] kept[i]).reference_type
        == ReferenceType::Entity by {
        let j = distinct_elements_have_keys::<ConditionalName>(references, i);
    }
}

/// The parents of a declared entity type are references to entity types. So they do
/// not dangle once they are resolved: a parent that stands for something stands for
/// an entity type.
pub proof fn declared_parents_do_not_dangle(
    declaration: EntityDeclarationModel<NameModel>,
    namespace: Option<NameModel>,
    defs: DefsModel,
)
    ensures
        ({
            let parents = parents_of(raw_fragment(declaration, namespace));
            &&& to_entity_types(parents)
            &&& partitioned(references_resolved(parents, defs)) matches Ok(names) ==> undeclared(
                distinct::<InternalName>(names),
                defs,
            ).len() == 0
        }),
{
    let parents = parents_of(raw_fragment(declaration, namespace));
    if let EntityKindModel::Standard { member_of_types, .. } = declaration.kind {
        distinct_are_to_entity_types(member_of_types, namespace);
    }
    let steps = references_resolved(parents, defs);
    partitioned_ok(steps);
    if let Ok(names) = partitioned(steps) {
        let kept = distinct::<InternalName>(names);
        undeclared_is_empty(kept, defs);
        assert forall|i: int| 0 <= i < kept.len() implies defs.entity.contains(
            (#[trigger] kept[i]).components(),
        ) by {
            let j = distinct_elements_have_keys::<InternalName>(names, i);
            assert(steps[j] is Ok);
            assert(parents[j].reference_type == ReferenceType::Entity);
            first_defined_found(parents[j].possibilities, parents[j].reference_type, defs);
        }
    }
}

/// What a declared action applies to are references to entity types. So these are
/// entity types that are defined once they are resolved.
pub proof fn declared_actions_apply_to_entity_types<E: RestrictedEvaluator>(
    uid: UidModel,
    action: ActionTypeModel<NameModel>,
    namespace: Option<NameModel>,
    evaluator: E,
    loc: Option<LocModel>,
    defs: DefsModel,
)
    ensures
        raw_action(uid, action, namespace, evaluator, loc) matches Ok(fragment) ==> {
            &&& to_entity_types(fragment.applies_to.principals)
            &&& to_entity_types(fragment.applies_to.resources)
            &&& action_fragment_resolved(fragment, defs) matches Ok(r) ==> are_entity_types(
                r.applies_to.principals,
                defs,
            ) && are_entity_types(r.applies_to.resources, defs)
        },
{
    if let Some(applies_to) = action.applies_to {
        distinct_are_to_entity_types(applies_to.principal_types, namespace);
        distinct_are_to_entity_types(applies_to.resource_types, namespace);
    }
    if let Ok(fragment) = raw_action(uid, action, namespace, evaluator, loc) {
        resolved_apply_spec_is_defined(fragment.applies_to, defs);
    }
}

/// Whether each parent of a fragment stands for an entity type, and each reference
/// in its attributes and tags for something.
pub open spec fn fragment_is_resolvable(
    fragment: FragmentModel<ConditionalModel>,
    defs: DefsModel,
) -> bool {
    match fragment {
        FragmentModel::Enum(_) => true,
        FragmentModel::Standard { attributes, parents, tags } => {
            &&& each_reference(attributes, resolves(defs))
            &&& tags matches Some(tags) ==> each_reference(tags, resolves(defs))
            &&& forall|i: int|
                0 <= i < parents.len() ==> (resolved(#[trigger] parents[i], defs) matches Ok(name)
                    && defs.entity.contains(name.components()))
        },
    }
}

/// The references of a fragment of an entity type can be resolved exactly where each
/// stands for something and the parents for entity types.
pub proof fn fragment_resolves_where_references_do(
    fragment: FragmentModel<ConditionalModel>,
    defs: DefsModel,
)
    ensures
        fragment_resolved(fragment, defs) is Ok <==> fragment_is_resolvable(fragment, defs),
{
    if let FragmentModel::Standard { attributes, parents, tags } = fragment {
        type_resolves_where_references_do(attributes, defs);
        if let Some(tags) = tags {
            type_resolves_where_references_do(tags, defs);
        }
        let steps = references_resolved(parents, defs);
        partitioned_ok(steps);
        if let Ok(names) = partitioned(steps) {
            let kept = distinct::<InternalName>(names);
            undeclared_is_empty(kept, defs);
            distinct_keeps_keys::<InternalName>(names);
            if fragment_resolved(fragment, defs) is Ok {
                assert forall|i: int| 0 <= i < parents.len() implies (resolved(
                    #[trigger] parents[i],
                    defs,
                ) matches Ok(name) && defs.entity.contains(name.components())) by {
                    assert(steps[i] == Ok::<NameModel, Seq<ConditionalModel>>(names[i]));
                    let key = InternalName::key(names[i]);
                    assert(has_key::<InternalName>(names, key));
                    assert(key_set::<InternalName>(names).contains(key));
                    assert(has_key::<InternalName>(kept, key));
                    let j = choose|j: int|
                        0 <= j < kept.len() && InternalName::key(#[trigger] kept[j]) == key;
                    assert(defs.entity.contains(kept[j].components()));
                }
            }
            if fragment_is_resolvable(fragment, defs) {
                assert forall|i: int| 0 <= i < kept.len() implies defs.entity.contains(
                    (#[trigger] kept[i]).components(),
                ) by {
                    let j = distinct_elements_have_keys::<InternalName>(names, i);
                    assert(steps[j] == Ok::<NameModel, Seq<ConditionalModel>>(names[j]));
                    assert(resolved(parents[j], defs) is Ok);
                }
            }
        } else if fragment_is_resolvable(fragment, defs) {
            assert forall|i: int| 0 <= i < steps.len() implies (#[trigger] steps[i]) is Ok by {
                assert(resolved(parents[i], defs) is Ok);
            }
        }
    }
}

/// Whether each reference to an entity type stands for one without the reserved
/// identifier in its name.
pub open spec fn are_resolvable(references: Seq<ConditionalModel>, defs: DefsModel) -> bool {
    forall|i: int|
        0 <= i < references.len() ==> (resolved(#[trigger] references[i], defs) matches Ok(name)
            && !name.is_reserved())
}

proof fn entity_types_are_found(references: Seq<ConditionalModel>, defs: DefsModel)
    ensures
        errs(entity_types_found(references, defs)).len() == 0 <==> are_resolvable(references, defs),
{
    let steps = entity_types_found(references, defs);
    partitioned_ok(steps);
    if are_resolvable(references, defs) {
        assert forall|i: int| 0 <= i < steps.len() implies (#[trigger] steps[i]) is Ok by {
            assert(resolved(references[i], defs) is Ok);
        }
    }
    if partitioned(steps) is Ok {
        assert forall|i: int| 0 <= i < references.len() implies (resolved(
            #[trigger] references[i],
            defs,
        ) matches Ok(name) && !name.is_reserved()) by {
            assert(steps[i] is Ok);
        }
    }
}

/// Whether each reference in a fragment of an action stands for something.
pub open spec fn action_is_resolvable(
    fragment: ActionFragmentModel<ConditionalModel, ConditionalModel>,
    defs: DefsModel,
) -> bool {
    &&& each_reference(fragment.context, resolves(defs))
    &&& are_resolvable(fragment.applies_to.principals, defs)
    &&& are_resolvable(fragment.applies_to.resources, defs)
    &&& forall|i: int|
        0 <= i < fragment.parents.len() ==> action_resolved(
            #[trigger] fragment.parents[i],
            defs,
        ) is Ok
}

/// The references of a fragment of an action can be resolved exactly where each
/// stands for something.
pub proof fn action_resolves_where_references_do(
    fragment: ActionFragmentModel<ConditionalModel, ConditionalModel>,
    defs: DefsModel,
)
    ensures
        action_fragment_resolved(fragment, defs) is Ok <==> action_is_resolvable(fragment, defs),
{
    type_resolves_where_references_do(fragment.context, defs);
    entity_types_are_found(fragment.applies_to.principals, defs);
    entity_types_are_found(fragment.applies_to.resources, defs);
    let steps = actions_found(fragment.parents, defs);
    partitioned_ok(steps);
    if partitioned(steps) is Ok {
        assert forall|i: int| 0 <= i < fragment.parents.len() implies action_resolved(
            #[trigger] fragment.parents[i],
            defs,
        ) is Ok by {
            assert(steps[i] is Ok);
        }
    }
    if action_is_resolvable(fragment, defs) {
        assert forall|i: int| 0 <= i < steps.len() implies (#[trigger] steps[i]) is Ok by {
            assert(action_resolved(fragment.parents[i], defs) is Ok);
        }
    }
}

/// A namespace can be fully qualified exactly where every reference in it stands for
/// something: in the common types, in the entity types, whose parents have to be
/// entity types, and in the actions.
pub proof fn namespace_resolves_where_references_do(
    definition: NamespaceModel<ConditionalModel, ConditionalModel>,
    defs: DefsModel,
)
    ensures
        namespace_resolved(definition, defs) is Ok <==> {
            &&& forall|i: int|
                0 <= i < definition.common_types.len() ==> each_reference(
                    (#[trigger] definition.common_types[i]).1,
                    resolves(defs),
                )
            &&& forall|i: int|
                0 <= i < definition.entity_types.len() ==> fragment_is_resolvable(
                    (#[trigger] definition.entity_types[i]).1,
                    defs,
                )
            &&& forall|i: int|
                0 <= i < definition.actions.len() ==> action_is_resolvable(
                    (#[trigger] definition.actions[i]).1,
                    defs,
                )
        },
{
    let c = common_type_steps(definition.common_types, defs);
    partitioned_ok(c);
    assert forall|i: int| 0 <= i < c.len() implies ((#[trigger] c[i]) is Ok <==> each_reference(
        definition.common_types[i].1,
        resolves(defs),
    )) by {
        type_resolves_where_references_do(definition.common_types[i].1, defs);
    }
    if partitioned(c) is Ok {
        assert forall|i: int| 0 <= i < definition.common_types.len() implies each_reference(
            (#[trigger] definition.common_types[i]).1,
            resolves(defs),
        ) by {
            assert(c[i] is Ok);
        }
    }
    let e = entity_type_steps(definition.entity_types, defs);
    partitioned_ok(e);
    assert forall|i: int| 0 <= i < e.len() implies ((#[trigger] e[i]) is Ok
        <==> fragment_is_resolvable(definition.entity_types[i].1, defs)) by {
        fragment_resolves_where_references_do(definition.entity_types[i].1, defs);
    }
    if partitioned(e) is Ok {
        assert forall|i: int| 0 <= i < definition.entity_types.len() implies fragment_is_resolvable(
            (#[trigger] definition.entity_types[i]).1,
            defs,
        ) by {
            assert(e[i] is Ok);
        }
    }
    let a = action_steps(definition.actions, defs);
    partitioned_ok(a);
    assert forall|i: int| 0 <= i < a.len() implies ((#[trigger] a[i]) is Ok
        <==> action_is_resolvable(definition.actions[i].1, defs)) by {
        action_resolves_where_references_do(definition.actions[i].1, defs);
    }
    if partitioned(a) is Ok {
        assert forall|i: int| 0 <= i < definition.actions.len() implies action_is_resolvable(
            (#[trigger] definition.actions[i]).1,
            defs,
        ) by {
            assert(a[i] is Ok);
        }
    }
    let common = forall|i: int|
        0 <= i < definition.common_types.len() ==> each_reference(
            (#[trigger] definition.common_types[i]).1,
            resolves(defs),
        );
    if common {
        assert forall|i: int| 0 <= i < c.len() implies (#[trigger] c[i]) is Ok by {
            assert(each_reference(definition.common_types[i].1, resolves(defs)));
        }
    }
    let entity = forall|i: int|
        0 <= i < definition.entity_types.len() ==> fragment_is_resolvable(
            (#[trigger] definition.entity_types[i]).1,
            defs,
        );
    if entity {
        assert forall|i: int| 0 <= i < e.len() implies (#[trigger] e[i]) is Ok by {
            assert(fragment_is_resolvable(definition.entity_types[i].1, defs));
        }
    }
    let action = forall|i: int|
        0 <= i < definition.actions.len() ==> action_is_resolvable(
            (#[trigger] definition.actions[i]).1,
            defs,
        );
    if action {
        assert forall|i: int| 0 <= i < a.len() implies (#[trigger] a[i]) is Ok by {
            assert(action_is_resolvable(definition.actions[i].1, defs));
        }
    }
}

} // verus!
