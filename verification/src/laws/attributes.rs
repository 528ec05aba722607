//! In a record no attribute occurs twice, and it stays that way.

use crate::action_attributes::{
    attribute_conversions, attributes_converted, converted_attribute,
    converted_attributes_are_in_order, json_field_types, json_type,
};
use crate::conversion::denoted;
use crate::err::ErrorModel;
use crate::json_schema::{type_qualified, type_resolved, SchemaType, VariantModel};
use crate::defs::DefsModel;
use crate::keyed::{entry_at_found, names_of};
use crate::laws::conversion::record_denotes_its_attributes;
use crate::laws::references::{
    making_references_keeps_the_rest, resolving_keeps_the_rest, same_but_for_references,
};
use crate::names::{InternalName, NameModel, UidModel};
use crate::outcome::{collected, collected_ok};
use crate::sorting::{
    by_name, by_name_is_ordered, by_name_keeps_entries, in_name_order, not_behind, text_order,
    text_order_is_total,
};
use crate::types::TypeModel;
use crate::value::{named, JsonModel, PartialValueModel, RestrictedEvaluator};
use vstd::prelude::*;

verus! {

/// Whether no two entries have the same name.
pub open spec fn no_name_twice<V>(entries: Seq<(Seq<char>, V)>) -> bool {
    forall|i: int, j: int|
        0 <= i < j < entries.len() ==> (#[trigger] entries[i]).0 != (#[trigger] entries[j]).0
}

/// Whether no record in a type of a schema has an attribute twice.
pub open spec fn attributes_once<N>(t: SchemaType<N>) -> bool
    decreases t,
{
    match t {
        SchemaType::Type { ty: VariantModel::SetOf { element }, .. } => attributes_once(*element),
        SchemaType::Type { ty: VariantModel::Record(record), .. } => {
            &&& no_name_twice(record.attributes)
            &&& forall|i: int|
                0 <= i < record.attributes.len() ==> attributes_once(
                    (#[trigger] record.attributes[i]).1.ty,
                )
        },
        _ => true,
    }
}

/// Whether no record in a type has an attribute twice.
pub open spec fn type_attributes_once(t: TypeModel) -> bool
    decreases t,
{
    match t {
        TypeModel::SetOf(Some(element)) => type_attributes_once(*element),
        TypeModel::Record { attrs, .. } => {
            &&& no_name_twice(attrs)
            &&& forall|i: int|
                0 <= i < attrs.len() ==> type_attributes_once((#[trigger] attrs[i]).1.ty)
        },
        _ => true,
    }
}

/// Whether no record in a value has an attribute twice.
pub open spec fn value_attributes_once(v: JsonModel) -> bool
    decreases v,
{
    match v {
        JsonModel::SetOf(items) => forall|i: int|
            0 <= i < items.len() ==> value_attributes_once(#[trigger] items[i]),
        JsonModel::Record(fields) => {
            &&& no_name_twice(fields)
            &&& forall|i: int|
                0 <= i < fields.len() ==> value_attributes_once((#[trigger] fields[i]).1)
        },
        _ => true,
    }
}

/// What differs in nothing but references has the same attributes.
proof fn same_attributes<N, M>(a: SchemaType<N>, b: SchemaType<M>)
    requires
        same_but_for_references(a, b),
        attributes_once(a),
    ensures
        attributes_once(b),
    decreases a,
{
    match (a, b) {
        (
            SchemaType::Type { ty: VariantModel::SetOf { element: a }, .. },
            SchemaType::Type { ty: VariantModel::SetOf { element: b }, .. },
        ) => {
            same_attributes(*a, *b);
        },
        (
            SchemaType::Type { ty: VariantModel::Record(a), .. },
            SchemaType::Type { ty: VariantModel::Record(b), .. },
        ) => {
            assert forall|i: int, j: int| 0 <= i < j < b.attributes.len() implies (
            #[trigger] b.attributes[i]).0 != (#[trigger] b.attributes[j]).0 by {
                assert(a.attributes[i].0 != a.attributes[j].0);
            }
            assert forall|i: int| 0 <= i < b.attributes.len() implies attributes_once(
                (#[trigger] b.attributes[i]).1.ty,
            ) by {
                assert(attributes_once(a.attributes[i].1.ty));
                same_attributes(a.attributes[i].1.ty, b.attributes[i].1.ty);
            }
        },
        _ => {},
    }
}

/// Where no attribute occurs twice in a record, none does once references are made,
/// nor once they are resolved.
pub proof fn references_keep_attributes_once(
    t: SchemaType<NameModel>,
    namespace: Option<NameModel>,
    defs: DefsModel,
)
    requires
        attributes_once(t),
    ensures
        attributes_once(type_qualified(t, namespace)),
        type_resolved(type_qualified(t, namespace), defs) matches Ok(r) ==> attributes_once(r),
{
    let references = type_qualified(t, namespace);
    making_references_keeps_the_rest(t, namespace);
    same_attributes(t, references);
    resolving_keeps_the_rest(references, defs);
    if let Ok(r) = type_resolved(references, defs) {
        same_attributes(references, r);
    }
}

/// Where no attribute occurs twice in a record, none does in what is denoted.
pub proof fn denoted_types_keep_attributes_once(
    t: SchemaType<NameModel>,
    table: Seq<(NameModel, TypeModel)>,
)
    requires
        attributes_once(t),
        forall|i: int| 0 <= i < table.len() ==> type_attributes_once((#[trigger] table[i]).1),
    ensures
        denoted(t, table) matches Ok(r) ==> type_attributes_once(r),
    decreases t,
{
    match t {
        SchemaType::CommonTypeRef { name, .. } => {
            entry_at_found::<InternalName, TypeModel>(table, name.components());
        },
        SchemaType::Type { ty, loc } => match ty {
            VariantModel::SetOf { element } => {
                denoted_types_keep_attributes_once(*element, table);
            },
            VariantModel::Record(record) => {
                record_denotes_its_attributes(record, loc, table);
                if let Ok(r) = denoted(t, table) {
                    let attrs = r->attrs;
                    assert forall|i: int, j: int| 0 <= i < j < attrs.len() implies (
                    #[trigger] attrs[i]).0 != (#[trigger] attrs[j]).0 by {
                        assert(record.attributes[i].0 != record.attributes[j].0);
                    }
                    assert forall|i: int| 0 <= i < attrs.len() implies type_attributes_once(
                        (#[trigger] attrs[i]).1.ty,
                    ) by {
                        assert(attributes_once(record.attributes[i].1.ty));
                        denoted_types_keep_attributes_once(record.attributes[i].1.ty, table);
                    }
                }
            },
            VariantModel::EntityOrCommon { name } => {
                entry_at_found::<InternalName, TypeModel>(table, name.components());
            },
            _ => {},
        },
    }
}

/// Where no attribute occurs twice in a record of a value, none does in its type.
pub proof fn value_types_keep_attributes_once(v: JsonModel, uid: UidModel)
    requires
        value_attributes_once(v),
    ensures
        json_type(v, uid) matches Ok(t) ==> type_attributes_once(t),
    decreases v,
{
    match v {
        JsonModel::SetOf(items) => {
            if items.len() > 0 {
                assert(value_attributes_once(items[0]));
                value_types_keep_attributes_once(items[0], uid);
            }
        },
        JsonModel::Record(fields) => {
            let steps = json_field_types(fields, uid);
            collected_ok(steps);
            if let Ok(types) = collected(steps) {
                let attrs = json_type(v, uid)->Ok_0->attrs;
                assert forall|i: int| 0 <= i < fields.len() implies {
                    &&& (#[trigger] attrs[i]).0 == fields[i].0
                    &&& type_attributes_once(attrs[i].1.ty)
                } by {
                    assert(steps[i] == Ok::<(Seq<char>, TypeModel), ErrorModel>(types[i]));
                    assert(steps[i] == named(fields[i].0, json_type(fields[i].1, uid)));
                    assert(value_attributes_once(fields[i].1));
                    value_types_keep_attributes_once(fields[i].1, uid);
                }
                assert forall|i: int, j: int| 0 <= i < j < attrs.len() implies (
                #[trigger] attrs[i]).0 != (#[trigger] attrs[j]).0 by {
                    assert(fields[i].0 != fields[j].0);
                }
            }
        },
        _ => {},
    }
}

/// What each attribute of an action is converted to stands under its name.
proof fn conversions_keep_names<E: RestrictedEvaluator>(
    attributes: Seq<(Seq<char>, JsonModel)>,
    uid: UidModel,
    evaluator: E,
)
    ensures
        collected(attribute_conversions(attributes, uid, evaluator)) is Ok <==> forall|i: int|
            0 <= i < attributes.len() ==> converted_attribute(
                (#[trigger] attributes[i]).0,
                attributes[i].1,
                uid,
                evaluator,
            ) is Ok,
        collected(attribute_conversions(attributes, uid, evaluator)) matches Ok(entries) ==> {
            &&& entries.len() == attributes.len()
            &&& forall|i: int|
                0 <= i < attributes.len() ==> (#[trigger] entries[i]).0 == attributes[i].0
            &&& forall|i: int|
                0 <= i < attributes.len() ==> converted_attribute(
                    (#[trigger] attributes[i]).0,
                    attributes[i].1,
                    uid,
                    evaluator,
                ) == Ok::<(Seq<char>, (TypeModel, PartialValueModel)), ErrorModel>(entries[i])
        },
{
    let steps = attribute_conversions(attributes, uid, evaluator);
    collected_ok(steps);
    assert forall|i: int| 0 <= i < attributes.len() implies (#[trigger] steps[i])
        == converted_attribute(attributes[i].0, attributes[i].1, uid, evaluator) by {}
    match collected(steps) {
        Ok(entries) => {
            assert forall|i: int| 0 <= i < attributes.len() implies converted_attribute(
                (#[trigger] attributes[i]).0,
                attributes[i].1,
                uid,
                evaluator,
            ) == Ok::<(Seq<char>, (TypeModel, PartialValueModel)), ErrorModel>(entries[i]) by {
                assert(steps[i] is Ok);
            }
            assert forall|i: int| 0 <= i < attributes.len() implies (#[trigger] entries[i]).0
                == attributes[i].0 by {
                assert(steps[i] is Ok);
            }
        },
        Err(_) => {
            let k = choose|k: int| 0 <= k < steps.len() && !((#[trigger] steps[k]) is Ok);
            assert(attributes[k] == attributes[k]);
        },
    }
}

/// The attributes of an action have types and values under the names under which
/// they are written, in the order of these and each once.
pub proof fn converted_attributes_keep_names<E: RestrictedEvaluator>(
    attributes: Seq<(Seq<char>, JsonModel)>,
    uid: UidModel,
    evaluator: E,
)
    ensures
        attributes_converted(attributes, uid, evaluator) matches Ok((types, values)) ==> {
            &&& in_name_order(types)
            &&& in_name_order(values)
            &&& names_of(types) == names_of(values)
            &&& forall|i: int|
                0 <= i < values.len() ==> names_of(attributes).contains((#[trigger] values[i]).0)
            &&& no_name_twice(attributes) ==> values.len() == attributes.len()
        },
{
    conversions_keep_names(attributes, uid, evaluator);
    if let Ok(entries) = collected(attribute_conversions(attributes, uid, evaluator)) {
        let ordered = by_name(entries);
        by_name_is_ordered(entries);
        converted_attributes_are_in_order(attributes, uid, evaluator);
        let (types, values) = attributes_converted(attributes, uid, evaluator)->Ok_0;
        assert forall|i: int| 0 <= i < values.len() implies names_of(attributes).contains(
            (#[trigger] values[i]).0,
        ) by {
            assert(entries.contains(ordered[i]));
            let j = choose|j: int| 0 <= j < entries.len() && entries[j] == ordered[i];
            assert(names_of(attributes)[j] == values[i].0);
        }
        if no_name_twice(attributes) {
            assert forall|i: int, j: int| 0 <= i < j < entries.len() implies (
            #[trigger] entries[i]).0 != (#[trigger] entries[j]).0 by {
                assert(attributes[i].0 != attributes[j].0);
            }
            by_name_keeps_entries(entries);
        }
    }
}

/// Entries in the order of their names are told by which entries there are.
proof fn ordered_entries_are_unique<V>(x: Seq<(Seq<char>, V)>, y: Seq<(Seq<char>, V)>)
    requires
        in_name_order(x),
        in_name_order(y),
        forall|e: (Seq<char>, V)| #[trigger] x.contains(e) <==> y.contains(e),
    ensures
        x == y,
    decreases x.len(),
{
    if x.len() == 0 {
        if y.len() > 0 {
            assert(y.contains(y[0]));
            assert(x.contains(y[0]));
        }
        assert(x =~= y);
    } else {
        assert(x.contains(x.last()));
        let j = choose|j: int| 0 <= j < y.len() && y[j] == x.last();
        assert(y.contains(y.last()));
        assert(x.contains(y.last()));
        let i = choose|i: int| 0 <= i < x.len() && x[i] == y.last();
        if j < y.len() - 1 {
            assert(not_behind(y[j].0, y[y.len() - 1].0));
            if i < x.len() - 1 {
                assert(not_behind(x[i].0, x[x.len() - 1].0));
                text_order_is_total();
                assert(text_order()(x.last().0, y.last().0));
                assert(text_order()(y.last().0, x.last().0));
                assert(y[j].0 != y[y.len() - 1].0);
            }
        }
        assert(x.last() == y.last());
        let a = x.drop_last();
        let b = y.drop_last();
        assert forall|e: (Seq<char>, V)| #[trigger] a.contains(e) <==> b.contains(e) by {
            if a.contains(e) {
                let k = choose|k: int| 0 <= k < a.len() && a[k] == e;
                assert(x[k] == e);
                assert(x.contains(e));
                assert(x[k].0 != x[x.len() - 1].0);
                let l = choose|l: int| 0 <= l < y.len() && y[l] == e;
                assert(b[l] == e);
            }
            if b.contains(e) {
                let k = choose|k: int| 0 <= k < b.len() && b[k] == e;
                assert(y[k] == e);
                assert(y.contains(e));
                assert(x.contains(e));
                assert(y[k].0 != y[y.len() - 1].0);
                let l = choose|l: int| 0 <= l < x.len() && x[l] == e;
                assert(a[l] == e);
            }
        }
        assert forall|k: int, l: int| 0 <= k < l < a.len() implies not_behind(
            (#[trigger] a[k]).0,
            (#[trigger] a[l]).0,
        ) && a[k].0 != a[l].0 by {
            assert(x[k].0 != x[l].0);
        }
        assert forall|k: int, l: int| 0 <= k < l < b.len() implies not_behind(
            (#[trigger] b[k]).0,
            (#[trigger] b[l]).0,
        ) && b[k].0 != b[l].0 by {
            assert(y[k].0 != y[l].0);
        }
        ordered_entries_are_unique(a, b);
        assert(x =~= a.push(x.last()));
        assert(y =~= b.push(y.last()));
    }
}

/// What each of the attributes in one order is converted to is among what those in
/// another order are.
proof fn conversions_are_among<E: RestrictedEvaluator>(
    attributes: Seq<(Seq<char>, JsonModel)>,
    other: Seq<(Seq<char>, JsonModel)>,
    uid: UidModel,
    evaluator: E,
)
    requires
        forall|i: int| 0 <= i < attributes.len() ==> other.contains(#[trigger] attributes[i]),
        collected(attribute_conversions(other, uid, evaluator)) is Ok,
    ensures
        collected(attribute_conversions(attributes, uid, evaluator)) is Ok,
        ({
            let a = collected(attribute_conversions(attributes, uid, evaluator))->Ok_0;
            let b = collected(attribute_conversions(other, uid, evaluator))->Ok_0;
            forall|i: int| 0 <= i < a.len() ==> b.contains(#[trigger] a[i])
        }),
{
    conversions_keep_names(attributes, uid, evaluator);
    conversions_keep_names(other, uid, evaluator);
    let b = collected(attribute_conversions(other, uid, evaluator))->Ok_0;
    assert forall|i: int| 0 <= i < attributes.len() implies converted_attribute(
        (#[trigger] attributes[i]).0,
        attributes[i].1,
        uid,
        evaluator,
    ) is Ok by {
        assert(other.contains(attributes[i]));
        let j = choose|j: int| 0 <= j < other.len() && other[j] == attributes[i];
        assert(converted_attribute(other[j].0, other[j].1, uid, evaluator) is Ok);
    }
    let a = collected(attribute_conversions(attributes, uid, evaluator))->Ok_0;
    assert forall|i: int| 0 <= i < a.len() implies b.contains(#[trigger] a[i]) by {
        assert(other.contains(attributes[i]));
        let j = choose|j: int| 0 <= j < other.len() && other[j] == attributes[i];
        assert(converted_attribute(attributes[i].0, attributes[i].1, uid, evaluator)
            == converted_attribute(other[j].0, other[j].1, uid, evaluator));
        assert(b[j] == a[i]);
    }
}

/// The order in which the attributes of an action are written does not matter:
/// where those in one order have types and values, those in another have the same.
pub proof fn attributes_convert_in_any_order<E: RestrictedEvaluator>(
    attributes: Seq<(Seq<char>, JsonModel)>,
    other: Seq<(Seq<char>, JsonModel)>,
    uid: UidModel,
    evaluator: E,
)
    requires
        no_name_twice(attributes),
        no_name_twice(other),
        forall|i: int| 0 <= i < attributes.len() ==> other.contains(#[trigger] attributes[i]),
        forall|i: int| 0 <= i < other.len() ==> attributes.contains(#[trigger] other[i]),
    ensures
        attributes_converted(attributes, uid, evaluator) is Ok <==> attributes_converted(
            other,
            uid,
            evaluator,
        ) is Ok,
        attributes_converted(attributes, uid, evaluator) is Ok ==> attributes_converted(
            attributes,
            uid,
            evaluator,
        ) == attributes_converted(other, uid, evaluator),
{
    let one = collected(attribute_conversions(attributes, uid, evaluator));
    let two = collected(attribute_conversions(other, uid, evaluator));
    if one is Ok || two is Ok {
        if one is Ok {
            conversions_are_among(other, attributes, uid, evaluator);
        } else {
            conversions_are_among(attributes, other, uid, evaluator);
        }
        conversions_are_among(other, attributes, uid, evaluator);
        conversions_are_among(attributes, other, uid, evaluator);
        conversions_keep_names(attributes, uid, evaluator);
        conversions_keep_names(other, uid, evaluator);
        let a = one->Ok_0;
        let b = two->Ok_0;
        assert forall|i: int, j: int| 0 <= i < j < a.len() implies (#[trigger] a[i]).0 != (
        #[trigger] a[j]).0 by {
            assert(attributes[i].0 != attributes[j].0);
        }
        assert forall|i: int, j: int| 0 <= i < j < b.len() implies (#[trigger] b[i]).0 != (
        #[trigger] b[j]).0 by {
            assert(other[i].0 != other[j].0);
        }
        let x = by_name(a);
        let y = by_name(b);
        by_name_is_ordered(a);
        by_name_is_ordered(b);
        by_name_keeps_entries(a);
        by_name_keeps_entries(b);
        assert forall|e: (Seq<char>, (TypeModel, PartialValueModel))| #[trigger]
            x.contains(e) <==> y.contains(e) by {
            if x.contains(e) {
                let i = choose|i: int| 0 <= i < x.len() && x[i] == e;
                assert(a.contains(x[i]));
                let j = choose|j: int| 0 <= j < a.len() && a[j] == e;
                assert(b.contains(a[j]));
                let k = choose|k: int| 0 <= k < b.len() && b[k] == e;
                assert(y.contains(b[k]));
            }
            if y.contains(e) {
                let i = choose|i: int| 0 <= i < y.len() && y[i] == e;
                assert(b.contains(y[i]));
                let j = choose|j: int| 0 <= j < b.len() && b[j] == e;
                assert(a.contains(b[j]));
                let k = choose|k: int| 0 <= k < a.len() && a[k] == e;
                assert(x.contains(a[k]));
            }
        }
        ordered_entries_are_unique(x, y);
    }
}

} // verus!
