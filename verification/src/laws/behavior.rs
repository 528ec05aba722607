//! What may be declared of actions.

use crate::action_attributes::{
    attribute_conversions, has_json_type, json_type, json_type_exists, typed_is_expressible,
};
use crate::action_uid::{action_entity_type, ActionEntityUID};
use crate::actions::{
    action_declarations, action_references, declared_action, or_empty, raw_action,
    ActionFragmentModel,
};
use crate::declarations::{
    empty_record, ActionBehavior, ActionTypeModel, ApplyModel, DefinitionModel,
    EntityDeclarationModel, EntityKindModel,
};
use crate::entity_types::{entity_references, parents_of, raw_fragment};
use crate::json_schema::SchemaType;
use crate::keyed::{distinct, distinct_keeps_keys, has_key, key_set, Keyed};
use crate::laws::declared::{actions_are_declared_once, entity_types_are_declared_once};
use crate::names::{reserved_id, LocModel, NameModel, UidModel};
use crate::namespace_def::{
    behavior_checked, definition_processed, with_attributes, without_attributes,
};
use crate::raw_name::{ConditionalModel, ConditionalName};
use crate::sorting::{in_order, text_order, text_order_is_total};
use crate::value::{json_expr, JsonModel, RestrictedEvaluator};
use vstd::prelude::*;

verus! {

/// Which actions have attributes is told of each by itself.
proof fn with_attributes_of_both<N>(
    a: Seq<(Seq<char>, ActionTypeModel<N>)>,
    b: Seq<(Seq<char>, ActionTypeModel<N>)>,
)
    ensures
        with_attributes(a + b) == with_attributes(a) + with_attributes(b),
    decreases b.len(),
{
    if b.len() == 0 {
        assert(a + b =~= a);
        assert(with_attributes(a) + with_attributes(b) =~= with_attributes(a));
    } else {
        with_attributes_of_both(a, b.drop_last());
        assert((a + b).drop_last() =~= a + b.drop_last());
        assert(with_attributes(a + b) =~= with_attributes(a) + with_attributes(b));
    }
}

/// The actions with attributes are the same, each as often, in whatever order the
/// actions are.
proof fn with_attributes_in_any_order<N>(
    a: Seq<(Seq<char>, ActionTypeModel<N>)>,
    b: Seq<(Seq<char>, ActionTypeModel<N>)>,
)
    requires
        a.to_multiset() == b.to_multiset(),
    ensures
        with_attributes(a).to_multiset() == with_attributes(b).to_multiset(),
    decreases a.len(),
{
    broadcast use vstd::seq_lib::group_to_multiset_ensures;
    broadcast use vstd::multiset::group_multiset_axioms;

    if a.len() == 0 {
        assert(b.len() == 0) by {
            assert(a.to_multiset().len() == 0);
            assert(b.to_multiset().len() == b.len());
        }
    } else {
        let last = a.last();
        let front = a.drop_last();
        assert(a =~= front.push(last));
        assert(a.to_multiset() =~= front.to_multiset().insert(last));
        assert(b.to_multiset().count(last) > 0);
        assert(b.contains(last));
        let k = choose|k: int| 0 <= k < b.len() && b[k] == last;
        let before = b.take(k);
        let behind = b.skip(k + 1);
        let rest = before + behind;
        assert(b =~= before + (seq![last] + behind));
        assert(rest =~= b.remove(k));
        assert(rest.to_multiset() =~= b.to_multiset().remove(last));
        assert(front.to_multiset() =~= rest.to_multiset());
        with_attributes_in_any_order(front, rest);
        with_attributes_of_both(before, seq![last] + behind);
        with_attributes_of_both(seq![last], behind);
        with_attributes_of_both(before, behind);
        let one = with_attributes(seq![last]);
        reveal_with_fuel(with_attributes, 2);
        assert(seq![last].drop_last() =~= Seq::empty());
        let x = with_attributes(before);
        let y = with_attributes(behind);
        vstd::seq_lib::lemma_multiset_commutative(x, one + y);
        vstd::seq_lib::lemma_multiset_commutative(one, y);
        vstd::seq_lib::lemma_multiset_commutative(x, y);
        assert(with_attributes(b).to_multiset() =~= x.to_multiset().add(
            one.to_multiset().add(y.to_multiset()),
        ));
        assert(with_attributes(rest).to_multiset() =~= x.to_multiset().add(y.to_multiset()));
        if last.1.attributes is Some {
            assert(one =~= seq![last.0]);
            assert(one =~= Seq::<Seq<char>>::empty().push(last.0));
            assert(one.to_multiset() =~= Seq::<Seq<char>>::empty().to_multiset().insert(last.0));
            assert(with_attributes(a) == with_attributes(front).push(last.0));
            assert(with_attributes(a).to_multiset() =~= with_attributes(
                front,
            ).to_multiset().insert(last.0));
        } else {
            assert(one =~= Seq::empty());
        }
        assert(with_attributes(a).to_multiset() =~= with_attributes(b).to_multiset());
    }
}

/// The error for attributes of actions does not depend on the order in which the
/// actions are declared.
pub proof fn prohibited_attributes_are_reported_in_order<N>(
    definition: DefinitionModel<N>,
    other: DefinitionModel<N>,
)
    requires
        definition.entity_types == other.entity_types,
        definition.actions.to_multiset() == other.actions.to_multiset(),
    ensures
        behavior_checked(definition, ActionBehavior::ProhibitAttributes) == behavior_checked(
            other,
            ActionBehavior::ProhibitAttributes,
        ),
{
    broadcast use vstd::seq_lib::group_to_multiset_ensures;

    let a = with_attributes(definition.actions);
    let b = with_attributes(other.actions);
    with_attributes_in_any_order(definition.actions, other.actions);
    assert(a.len() == a.to_multiset().len());
    assert(b.len() == b.to_multiset().len());
    text_order_is_total();
    a.lemma_sort_by_ensures(text_order());
    b.lemma_sort_by_ensures(text_order());
    vstd::seq_lib::lemma_sorted_unique(in_order(a), in_order(b), text_order());
}

/// Where attributes are prohibited, no action with attributes gets through, and none
/// that gets through has any.
pub proof fn prohibited_attributes_do_not_get_through<E: RestrictedEvaluator>(
    namespace: Option<NameModel>,
    definition: DefinitionModel<NameModel>,
    evaluator: E,
)
    ensures
        definition_processed(
            namespace,
            definition,
            ActionBehavior::ProhibitAttributes,
            evaluator,
        ) matches Ok(r) ==> forall|i: int|
            0 <= i < definition.actions.len() ==> {
                &&& (#[trigger] definition.actions[i]).1.attributes is None
                &&& r.actions[i].1.attribute_types.len() == 0
                &&& r.actions[i].1.attributes.len() == 0
            },
{
    if let Ok(r) = definition_processed(
        namespace,
        definition,
        ActionBehavior::ProhibitAttributes,
        evaluator,
    ) {
        actions_are_declared_once(definition.actions, namespace, evaluator);
        assert forall|i: int| 0 <= i < definition.actions.len() implies {
            &&& (#[trigger] definition.actions[i]).1.attributes is None
            &&& r.actions[i].1.attribute_types.len() == 0
            &&& r.actions[i].1.attributes.len() == 0
        } by {
            without_attributes(definition.actions, i);
            assert(r.actions[i].0.eid == definition.actions[i].0);
        }
    }
}

/// No entity type that gets through has the name kept for actions.
pub proof fn action_type_is_not_declared<E: RestrictedEvaluator>(
    namespace: Option<NameModel>,
    definition: DefinitionModel<NameModel>,
    action_behavior: ActionBehavior,
    evaluator: E,
)
    requires
        forall|i: int|
            0 <= i < definition.entity_types.len() ==> (#[trigger] definition.entity_types[i]).0
                != reserved_id(),
    ensures
        definition_processed(namespace, definition, action_behavior, evaluator) matches Ok(r)
            ==> forall|i: int|
            0 <= i < r.entity_types.len() ==> (#[trigger] r.entity_types[i]).0.id
                != action_entity_type(),
{
    if let Ok(r) = definition_processed(namespace, definition, action_behavior, evaluator) {
        entity_types_are_declared_once(definition.entity_types, namespace);
        assert forall|i: int| 0 <= i < r.entity_types.len() implies (
        #[trigger] r.entity_types[i]).0.id != action_entity_type() by {
            assert(definition.entity_types[i].0 != action_entity_type());
        }
    }
}

/// Whatever cannot be written as an expression has no type as an attribute of an
/// action.
pub proof fn inexpressible_values_have_no_type(v: JsonModel, uid: UidModel)
    requires
        json_expr(v) is Err,
    ensures
        json_type(v, uid) is Err,
{
    json_type_exists(v, uid);
    if has_json_type(v) {
        typed_is_expressible(v);
    }
}

/// Where attributes are prohibited, it does not matter how they would be evaluated,
/// and so not which extensions there are.
pub proof fn prohibited_attributes_are_not_evaluated<E: RestrictedEvaluator, F: RestrictedEvaluator>(
    namespace: Option<NameModel>,
    definition: DefinitionModel<NameModel>,
    evaluator: E,
    other: F,
)
    ensures
        definition_processed(namespace, definition, ActionBehavior::ProhibitAttributes, evaluator)
            == definition_processed(
            namespace,
            definition,
            ActionBehavior::ProhibitAttributes,
            other,
        ),
{
    if behavior_checked(definition, ActionBehavior::ProhibitAttributes) is Ok {
        let a = action_declarations(definition.actions, namespace, evaluator);
        let b = action_declarations(definition.actions, namespace, other);
        assert forall|i: int| 0 <= i < a.len() implies #[trigger] a[i] == b[i] by {
            without_attributes(definition.actions, i);
            if let Ok(uid) = declared_action(definition.actions[i].0, namespace) {
                assert(attribute_conversions(Seq::empty(), uid, evaluator) =~= Seq::empty());
                assert(attribute_conversions(Seq::empty(), uid, other) =~= Seq::empty());
            }
        }
        assert(a =~= b);
    }
}

/// Whether two lists hold the same, in whatever order and however often.
pub open spec fn same_elements<T>(a: Seq<T>, b: Seq<T>) -> bool {
    forall|x: T| #[trigger] a.contains(x) <==> b.contains(x)
}

/// What is left of references that are the same but for order and repetition has the
/// same keys.
proof fn same_keys<T: Keyed>(a: Seq<T::M>, b: Seq<T::M>)
    requires
        forall|i: int| 0 <= i < a.len() ==> b.contains(#[trigger] a[i]),
        forall|i: int| 0 <= i < b.len() ==> a.contains(#[trigger] b[i]),
    ensures
        key_set::<T>(distinct::<T>(a)) == key_set::<T>(distinct::<T>(b)),
{
    distinct_keeps_keys::<T>(a);
    distinct_keeps_keys::<T>(b);
    assert forall|k: T::K| has_key::<T>(a, k) == has_key::<T>(b, k) by {
        if has_key::<T>(a, k) {
            let i = choose|i: int| 0 <= i < a.len() && T::key(#[trigger] a[i]) == k;
            assert(b.contains(a[i]));
            let j = choose|j: int| 0 <= j < b.len() && b[j] == a[i];
            assert(T::key(b[j]) == k);
        }
        if has_key::<T>(b, k) {
            let i = choose|i: int| 0 <= i < b.len() && T::key(#[trigger] b[i]) == k;
            assert(a.contains(b[i]));
            let j = choose|j: int| 0 <= j < a.len() && a[j] == b[i];
            assert(T::key(a[j]) == k);
        }
    }
    assert(key_set::<T>(a) =~= key_set::<T>(b));
}

proof fn same_entity_references(
    a: Seq<NameModel>,
    b: Seq<NameModel>,
    namespace: Option<NameModel>,
)
    requires
        same_elements(a, b),
    ensures
        key_set::<ConditionalName>(distinct::<ConditionalName>(entity_references(a, namespace)))
            == key_set::<ConditionalName>(
            distinct::<ConditionalName>(entity_references(b, namespace)),
        ),
{
    let x = entity_references(a, namespace);
    let y = entity_references(b, namespace);
    assert forall|i: int| 0 <= i < x.len() implies y.contains(#[trigger] x[i]) by {
        assert(a.contains(a[i]));
        let j = choose|j: int| 0 <= j < b.len() && b[j] == a[i];
        assert(y[j] == x[i]);
    }
    assert forall|i: int| 0 <= i < y.len() implies x.contains(#[trigger] y[i]) by {
        assert(b.contains(b[i]));
        assert(a.contains(b[i]));
        let j = choose|j: int| 0 <= j < a.len() && a[j] == b[i];
        assert(x[j] == y[i]);
    }
    same_keys::<ConditionalName>(x, y);
}

/// What an action applies to, with what holds where it does not say.
pub open spec fn applies_to_or_nothing(applies_to: Option<ApplyModel<NameModel>>) -> ApplyModel<
    NameModel,
> {
    match applies_to {
        Some(applies_to) => applies_to,
        None => ApplyModel {
            resource_types: Seq::empty(),
            principal_types: Seq::empty(),
            context: empty_record(),
        },
    }
}

/// Whether two declarations of actions say the same: the lists of parents, principals
/// and resources hold the same in whatever order and however often, and what is not
/// said counts as empty.
pub open spec fn same_declaration(
    a: ActionTypeModel<NameModel>,
    b: ActionTypeModel<NameModel>,
) -> bool {
    let x = applies_to_or_nothing(a.applies_to);
    let y = applies_to_or_nothing(b.applies_to);
    &&& or_empty(a.attributes) == or_empty(b.attributes)
    &&& same_elements(or_empty(a.member_of), or_empty(b.member_of))
    &&& same_elements(x.principal_types, y.principal_types)
    &&& same_elements(x.resource_types, y.resource_types)
    &&& x.context == y.context
}

/// Whether two fragments are the same, with what the action applies to and its
/// parents taken as sets.
pub open spec fn same_fragment(
    f: ActionFragmentModel<ConditionalModel, ConditionalModel>,
    g: ActionFragmentModel<ConditionalModel, ConditionalModel>,
) -> bool {
    &&& f.context == g.context
    &&& key_set::<ConditionalName>(f.applies_to.principals) == key_set::<ConditionalName>(
        g.applies_to.principals,
    )
    &&& key_set::<ConditionalName>(f.applies_to.resources) == key_set::<ConditionalName>(
        g.applies_to.resources,
    )
    &&& key_set::<ActionEntityUID<ConditionalName>>(f.parents) == key_set::<
        ActionEntityUID<ConditionalName>,
    >(g.parents)
    &&& f.attribute_types == g.attribute_types
    &&& f.attributes == g.attributes
    &&& f.loc == g.loc
}

/// Declarations of an action that say the same give the same fragment or the same
/// error: neither the order in the lists of parents, principals and resources matters,
/// nor whether something is listed more than once, nor whether a list is empty or not
/// there at all.
pub proof fn same_declarations_give_the_same<E: RestrictedEvaluator>(
    uid: UidModel,
    a: ActionTypeModel<NameModel>,
    b: ActionTypeModel<NameModel>,
    namespace: Option<NameModel>,
    evaluator: E,
    loc: Option<LocModel>,
)
    requires
        same_declaration(a, b),
    ensures
        (match (
            raw_action(uid, a, namespace, evaluator, loc),
            raw_action(uid, b, namespace, evaluator, loc),
        ) {
            (Ok(f), Ok(g)) => same_fragment(f, g),
            (Err(e), Err(d)) => e == d,
            _ => false,
        }),
{
    let x = applies_to_or_nothing(a.applies_to);
    let y = applies_to_or_nothing(b.applies_to);
    same_entity_references(x.principal_types, y.principal_types, namespace);
    same_entity_references(x.resource_types, y.resource_types, namespace);
    assert(entity_references(Seq::empty(), namespace) =~= Seq::empty());
    assert(distinct::<ConditionalName>(Seq::empty()) =~= Seq::empty());
    let p = action_references(or_empty(a.member_of), namespace);
    let q = action_references(or_empty(b.member_of), namespace);
    let m = or_empty(a.member_of);
    let n = or_empty(b.member_of);
    assert forall|i: int| 0 <= i < p.len() implies q.contains(#[trigger] p[i]) by {
        assert(m.contains(m[i]));
        let j = choose|j: int| 0 <= j < n.len() && n[j] == m[i];
        assert(q[j] == p[i]);
    }
    assert forall|i: int| 0 <= i < q.len() implies p.contains(#[trigger] q[i]) by {
        assert(n.contains(n[i]));
        assert(m.contains(n[i]));
        let j = choose|j: int| 0 <= j < m.len() && m[j] == n[i];
        assert(p[j] == q[i]);
    }
    same_keys::<ActionEntityUID<ConditionalName>>(p, q);
}

/// The parents of an entity type are the same, as a set, in whatever order and however
/// often they are listed.
pub proof fn listed_parents_are_a_set(
    a: Seq<NameModel>,
    b: Seq<NameModel>,
    shape: SchemaType<NameModel>,
    tags: Option<SchemaType<NameModel>>,
    loc: Option<LocModel>,
    namespace: Option<NameModel>,
)
    requires
        same_elements(a, b),
    ensures
        ({
            let f = raw_fragment(
                EntityDeclarationModel {
                    kind: EntityKindModel::Standard { member_of_types: a, shape, tags },
                    loc,
                },
                namespace,
            );
            let g = raw_fragment(
                EntityDeclarationModel {
                    kind: EntityKindModel::Standard { member_of_types: b, shape, tags },
                    loc,
                },
                namespace,
            );
            &&& f->attributes == g->attributes
            &&& f->tags == g->tags
            &&& key_set::<ConditionalName>(parents_of(f)) == key_set::<ConditionalName>(
                parents_of(g),
            )
        }),
{
    same_entity_references(a, b, namespace);
}

} // verus!
