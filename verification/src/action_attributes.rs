//! The attributes of actions: their types and their values.

use crate::err::{
    ActionAttrEvalError, ActionAttributesContainEmptySetError, EntityAttrEvaluationError,
    ErrorModel, SchemaError, UnsupportedActionAttributeError,
};
use crate::keyed::names_of;
use crate::model::Model;
use crate::names::{EntityUID, UidModel};
use crate::outcome::{collected, collected_ok, collected_prefix, collected_push};
use crate::sorting::{by_name, by_name_is_ordered, in_name_order, insert_by_name, not_behind};
use crate::text::{smol, smol_clone};
use crate::types::{
    all_required, AttributeTypeModel, Attributes, OpenTag, Primitive, Type, TypeModel,
};
use crate::value::{
    json_expr, json_exprs, json_field_exprs, json_models, named, why_any_inexpressible,
    CedarValueJson, JsonDeserializationError, JsonModel, PartialValue, PartialValueModel,
    RestrictedEvaluator,
};
use smol_str::SmolStr;
use vstd::prelude::*;

verus! {

broadcast use crate::model::group_models;

/// A form of attribute that has no type, with the words for it.
pub open spec fn unsupported(uid: UidModel, attr: Seq<char>) -> ErrorModel {
    ErrorModel::UnsupportedActionAttribute { uid, attr }
}

/// The error for a value that is no expression.
pub open spec fn inexpressible(uid: UidModel, reason: JsonDeserializationError) -> ErrorModel {
    match reason {
        JsonDeserializationError::Null => unsupported(uid, "null"@),
        JsonDeserializationError::ExprTag => unsupported(uid, "expression escape (`__expr`)"@),
    }
}

/// The type of an attribute of the action `uid`. That of a set is told by its first
/// element; the others need not have that type, nor any, but they have to be
/// expressions.
pub open spec fn json_type(v: JsonModel, uid: UidModel) -> Result<TypeModel, ErrorModel>
    decreases v,
{
    match v {
        JsonModel::Bool(_) => Ok(TypeModel::Primitive(Primitive::Bool)),
        JsonModel::Long(_) => Ok(TypeModel::Primitive(Primitive::Long)),
        JsonModel::String(_) => Ok(TypeModel::Primitive(Primitive::String)),
        JsonModel::Record(fields) => match collected(json_field_types(fields, uid)) {
            Ok(types) => Ok(
                TypeModel::Record {
                    attrs: all_required(types),
                    open: OpenTag::ClosedAttributes,
                },
            ),
            Err(error) => Err(error),
        },
        JsonModel::SetOf(items) => if items.len() == 0 {
            Err(ErrorModel::ActionAttributesContainEmptySet(uid))
        } else {
            match json_type(items[0], uid) {
                Ok(element) => match collected(json_exprs(items)) {
                    Ok(_) => Ok(TypeModel::SetOf(Some(Box::new(element)))),
                    Err(reason) => Err(inexpressible(uid, reason)),
                },
                Err(error) => Err(error),
            }
        },
        JsonModel::EntityEscape(_) => Err(unsupported(uid, "entity escape (`__entity`)"@)),
        JsonModel::ExprEscape(_) => Err(unsupported(uid, "expression escape (`__expr`)"@)),
        JsonModel::ExtnEscape { .. } => Err(
            unsupported(uid, "extension function escape (`__extn`)"@),
        ),
        JsonModel::Null => Err(unsupported(uid, "null"@)),
    }
}

/// The types of the attributes of a record.
pub open spec fn json_field_types(fields: Seq<(Seq<char>, JsonModel)>, uid: UidModel) -> Seq<
    Result<(Seq<char>, TypeModel), ErrorModel>,
>
    decreases fields,
{
    Seq::new(
        fields.len(),
        |i: int|
            if 0 <= i < fields.len() {
                named(fields[i].0, json_type(fields[i].1, uid))
            } else {
                arbitrary()
            },
    )
}

/// Whether a value has a type as an attribute of an action.
pub open spec fn has_json_type(v: JsonModel) -> bool
    decreases v,
{
    match v {
        JsonModel::Bool(_) => true,
        JsonModel::Long(_) => true,
        JsonModel::String(_) => true,
        JsonModel::Record(fields) => forall|i: int|
            0 <= i < fields.len() ==> has_json_type((#[trigger] fields[i]).1),
        JsonModel::SetOf(items) => items.len() > 0 && has_json_type(items[0]) && collected(
            json_exprs(items),
        ) is Ok,
        _ => false,
    }
}

/// The type and the value of the attribute `name` of the action `uid`.
pub open spec fn converted_attribute<E: RestrictedEvaluator>(
    name: Seq<char>,
    v: JsonModel,
    uid: UidModel,
    evaluator: E,
) -> Result<(Seq<char>, (TypeModel, PartialValueModel)), ErrorModel> {
    match json_type(v, uid) {
        Err(error) => Err(error),
        Ok(ty) => match evaluator.evaluated(json_expr(v)->Ok_0) {
            Ok(value) => Ok((name, (ty, value))),
            Err(err) => Err(
                ErrorModel::ActionAttrEval { uid, attr_or_tag: name, was_attr: true, err },
            ),
        },
    }
}

/// The types and values of attributes of the action `uid`.
pub open spec fn attribute_conversions<E: RestrictedEvaluator>(
    attributes: Seq<(Seq<char>, JsonModel)>,
    uid: UidModel,
    evaluator: E,
) -> Seq<Result<(Seq<char>, (TypeModel, PartialValueModel)), ErrorModel>> {
    Seq::new(
        attributes.len(),
        |i: int| converted_attribute(attributes[i].0, attributes[i].1, uid, evaluator),
    )
}

/// The types of converted attributes.
pub open spec fn types_of(entries: Seq<(Seq<char>, (TypeModel, PartialValueModel))>) -> Seq<
    (Seq<char>, TypeModel),
> {
    Seq::new(entries.len(), |i: int| (entries[i].0, entries[i].1.0))
}

/// The values of converted attributes.
pub open spec fn values_of(entries: Seq<(Seq<char>, (TypeModel, PartialValueModel))>) -> Seq<
    (Seq<char>, PartialValueModel),
> {
    Seq::new(entries.len(), |i: int| (entries[i].0, entries[i].1.1))
}

/// The types of attributes of the action `uid`, which all have to be there, and
/// their values, both in the order of the names and no name twice.
pub open spec fn attributes_converted<E: RestrictedEvaluator>(
    attributes: Seq<(Seq<char>, JsonModel)>,
    uid: UidModel,
    evaluator: E,
) -> Result<
    (Seq<(Seq<char>, AttributeTypeModel)>, Seq<(Seq<char>, PartialValueModel)>),
    ErrorModel,
> {
    match collected(attribute_conversions(attributes, uid, evaluator)) {
        Ok(entries) => Ok(
            (all_required(types_of(by_name(entries))), values_of(by_name(entries))),
        ),
        Err(error) => Err(error),
    }
}

/// A value that has a type as an attribute of an action can be written as an
/// expression.
pub proof fn typed_is_expressible(v: JsonModel)
    requires
        has_json_type(v),
    ensures
        json_expr(v) is Ok,
    decreases v,
{
    if let JsonModel::Record(fields) = v {
        let steps = json_field_exprs(fields);
        collected_ok(steps);
        assert forall|i: int| 0 <= i < steps.len() implies (#[trigger] steps[i]) is Ok by {
            assert(has_json_type(fields[i].1));
            typed_is_expressible(fields[i].1);
            assert(steps[i] == named(fields[i].0, json_expr(fields[i].1)));
        }
    }
}

/// `json_type` succeeds exactly where `has_json_type` says so.
pub proof fn json_type_exists(v: JsonModel, uid: UidModel)
    ensures
        json_type(v, uid) is Ok <==> has_json_type(v),
    decreases v,
{
    match v {
        JsonModel::Record(fields) => {
            let steps = json_field_types(fields, uid);
            assert(json_type(v, uid) is Ok <==> collected(steps) is Ok);
            collected_ok(steps);
            assert forall|i: int| 0 <= i < fields.len() implies (steps[i] is Ok <==> has_json_type(
                (#[trigger] fields[i]).1,
            )) by {
                json_type_exists(fields[i].1, uid);
                assert(steps[i] == named(fields[i].0, json_type(fields[i].1, uid)));
            }
            if has_json_type(v) {
                assert forall|i: int| 0 <= i < steps.len() implies (#[trigger] steps[i]) is Ok by {
                    assert(has_json_type(fields[i].1));
                }
            }
            if collected(steps) is Ok {
                assert forall|i: int| 0 <= i < fields.len() implies has_json_type(
                    (#[trigger] fields[i]).1,
                ) by {
                    assert(steps[i] is Ok);
                }
            }
        },
        JsonModel::SetOf(items) => {
            if items.len() > 0 {
                json_type_exists(items[0], uid);
            }
        },
        _ => {},
    }
}

/// The types and values of the attributes of an action are in the order of the names,
/// each once, and under the same names.
pub proof fn converted_attributes_are_in_order<E: RestrictedEvaluator>(
    attributes: Seq<(Seq<char>, JsonModel)>,
    uid: UidModel,
    evaluator: E,
)
    ensures
        attributes_converted(attributes, uid, evaluator) matches Ok((types, values)) ==> {
            &&& in_name_order(types)
            &&& in_name_order(values)
            &&& names_of(types) == names_of(values)
        },
{
    if let Ok(entries) = collected(attribute_conversions(attributes, uid, evaluator)) {
        let ordered = by_name(entries);
        by_name_is_ordered(entries);
        let (types, values) = attributes_converted(attributes, uid, evaluator)->Ok_0;
        assert forall|i: int, j: int| 0 <= i < j < ordered.len() implies not_behind(
            (#[trigger] types[i]).0,
            (#[trigger] types[j]).0,
        ) && types[i].0 != types[j].0 by {
            assert(ordered[i].0 != ordered[j].0);
        }
        assert forall|i: int, j: int| 0 <= i < j < ordered.len() implies not_behind(
            (#[trigger] values[i]).0,
            (#[trigger] values[j]).0,
        ) && values[i].0 != values[j].0 by {
            assert(ordered[i].0 != ordered[j].0);
        }
        assert(names_of(types) =~= names_of(values));
    }
}

/// The type of an attribute of an action.
pub fn jsonval_to_type_helper(v: &CedarValueJson, action_id: &EntityUID) -> (r: Result<
    Type,
    SchemaError,
>)
    ensures
        r.model() == json_type(v.model(), action_id.model()),
    decreases v,
{
    proof {
        json_models();
    }
    match v {
        CedarValueJson::Bool(_) => Ok(Type::primitive_boolean()),
        CedarValueJson::Long(_) => Ok(Type::primitive_long()),
        CedarValueJson::String(_) => Ok(Type::primitive_string()),
        CedarValueJson::Record(fields) => match field_types(fields, action_id) {
            Ok(required_attrs) => Ok(
                Type::record_with_required_attributes(required_attrs, OpenTag::ClosedAttributes),
            ),
            Err(e) => Err(e),
        },
        CedarValueJson::SetOf(items) => {
            if items.len() == 0 {
                return Err(
                    SchemaError::ActionAttributesContainEmptySet(
                        ActionAttributesContainEmptySetError { uid: action_id.clone() },
                    ),
                );
            }
            proof {
                assert(decreases_to!(v => *items));
                assert(decreases_to!(items => items@));
                assert(decreases_to!(items@ => items@[0]));
                assert(items.model()[0] == items@[0].model());
            }
            // Sets with elements of different types are not rejected here.
            match jsonval_to_type_helper(&items[0], action_id) {
                Ok(t) => match why_any_inexpressible(items) {
                    None => Ok(Type::SetOf { element_type: Some(Box::new(t)) }),
                    Some(JsonDeserializationError::Null) => Err(
                        unsupported_attribute(action_id, "null"),
                    ),
                    Some(JsonDeserializationError::ExprTag) => Err(
                        unsupported_attribute(action_id, "expression escape (`__expr`)"),
                    ),
                },
                Err(e) => Err(e),
            }
        },
        CedarValueJson::EntityEscape { entity: _ } => Err(
            unsupported_attribute(action_id, "entity escape (`__entity`)"),
        ),
        CedarValueJson::ExprEscape { expr: _ } => Err(
            unsupported_attribute(action_id, "expression escape (`__expr`)"),
        ),
        CedarValueJson::ExtnEscape { extn: _ } => Err(
            unsupported_attribute(action_id, "extension function escape (`__extn`)"),
        ),
        CedarValueJson::Null => Err(unsupported_attribute(action_id, "null")),
    }
}

/// The error for a form of attribute that has no type.
fn unsupported_attribute(action_id: &EntityUID, attr: &str) -> (r: SchemaError)
    ensures
        r.model() == unsupported(action_id.model(), attr@),
{
    SchemaError::UnsupportedActionAttribute(
        UnsupportedActionAttributeError { uid: action_id.clone(), attr: smol(attr) },
    )
}

/// The types of the attributes of a record; the first failure stops.
fn field_types(fields: &Vec<(SmolStr, CedarValueJson)>, action_id: &EntityUID) -> (r: Result<
    Vec<(SmolStr, Type)>,
    SchemaError,
>)
    ensures
        r.model() == collected(json_field_types(fields.model(), action_id.model())),
    decreases fields,
{
    let ghost steps = json_field_types(fields.model(), action_id.model());
    let mut out: Vec<(SmolStr, Type)> = Vec::new();
    let mut i: usize = 0;
    proof {
        assert(steps.take(0) =~= Seq::empty());
    }
    while i < fields.len()
        invariant
            i <= fields@.len(),
            steps == json_field_types(fields.model(), action_id.model()),
            collected(steps.take(i as int)) == Ok::<Seq<(Seq<char>, TypeModel)>, ErrorModel>(
                out.model(),
            ),
        decreases fields@.len() - i,
    {
        proof {
            assert(decreases_to!(fields => fields@));
            assert(decreases_to!(fields@ => fields@[i as int]));
            assert(decreases_to!(fields@[i as int] => fields@[i as int].1));
            assert(fields.model()[i as int] == fields@[i as int].model());
            collected_push(steps, i as int);
        }
        match jsonval_to_type_helper(&fields[i].1, action_id) {
            Ok(ty) => out.push((smol_clone(&fields[i].0), ty)),
            Err(e) => {
                proof {
                    collected_prefix(steps, i + 1);
                }
                return Err(e);
            },
        }
        i = i + 1;
    }
    proof {
        assert(steps.take(i as int) =~= steps);
    }
    Ok(out)
}

/// Separates the types of converted attributes from their values.
fn split_attributes(entries: Vec<(SmolStr, (Type, PartialValue))>) -> (r: (
    Vec<(SmolStr, Type)>,
    Vec<(SmolStr, PartialValue)>,
))
    ensures
        r.0.model() == types_of(entries.model()),
        r.1.model() == values_of(entries.model()),
{
    let ghost all = entries@;
    let mut types: Vec<(SmolStr, Type)> = Vec::new();
    let mut values: Vec<(SmolStr, PartialValue)> = Vec::new();
    for entry in it: entries
        invariant
            it.seq() == all,
            all == entries@,
            types@.len() == it.index(),
            values@.len() == it.index(),
            forall|i: int|
                #![trigger types@[i]]
                0 <= i < types@.len() ==> types@[i].model() == types_of(entries.model())[i],
            forall|i: int|
                #![trigger values@[i]]
                0 <= i < values@.len() ==> values@[i].model() == values_of(entries.model())[i],
    {
        let ghost i = it.index() as int;
        assert(entries.model()[i] == entry.model());
        let (name, (ty, value)) = entry;
        types.push((smol_clone(&name), ty));
        values.push((name, value));
    }
    assert(types.model() =~= types_of(entries.model()));
    assert(values.model() =~= values_of(entries.model()));
    (types, values)
}

/// The types of attributes of an action, which all have to be there, and their
/// values; the first failure stops.
pub fn convert_attr_jsonval_map_to_attributes<E: RestrictedEvaluator>(
    m: Vec<(SmolStr, CedarValueJson)>,
    action_id: &EntityUID,
    evaluator: &E,
) -> (r: Result<(Attributes, Vec<(SmolStr, PartialValue)>), SchemaError>)
    ensures
        r.model() == attributes_converted(m.model(), action_id.model(), *evaluator),
{
    let ghost all = m@;
    let ghost uid = action_id.model();
    let ghost steps = attribute_conversions(m.model(), uid, *evaluator);
    let ghost mut done: Seq<(Seq<char>, (TypeModel, PartialValueModel))> = Seq::empty();
    let mut entries: Vec<(SmolStr, (Type, PartialValue))> = Vec::new();
    proof {
        assert(steps.take(0) =~= Seq::empty());
    }
    for entry in it: m
        invariant
            it.seq() == all,
            all == m@,
            uid == action_id.model(),
            steps == attribute_conversions(m.model(), uid, *evaluator),
            collected(steps.take(it.index() as int)) == Ok::<
                Seq<(Seq<char>, (TypeModel, PartialValueModel))>,
                ErrorModel,
            >(done),
            entries.model() == by_name(done),
    {
        let ghost i = it.index() as int;
        let (k, v) = entry;
        proof {
            assert(m.model()[i] == entry.model());
            collected_push(steps, i);
            if collected(steps.take(i + 1)) is Err {
                collected_prefix(steps, i + 1);
            }
            json_type_exists(v.model(), uid);
        }
        let ty = match jsonval_to_type_helper(&v, action_id) {
            Ok(ty) => ty,
            Err(e) => return Err(e),
        };
        proof {
            typed_is_expressible(v.model());
        }
        let e = v.into_expr().unwrap();
        match evaluator.partial_interpret(e) {
            Ok(pv) => {
                proof {
                    let next = (k.model(), (ty.model(), pv.model()));
                    assert(done.push(next).drop_last() =~= done);
                    done = done.push(next);
                }
                insert_by_name(&mut entries, k, (ty, pv));
            },
            Err(err) => {
                return Err(
                    SchemaError::ActionAttrEval(
                        ActionAttrEvalError(
                            EntityAttrEvaluationError {
                                uid: action_id.clone(),
                                attr_or_tag: k,
                                was_attr: true,
                                err,
                            },
                        ),
                    ),
                );
            },
        }
    }
    proof {
        assert(steps.take(all.len() as int) =~= steps);
    }
    let (attr_types, attr_values) = split_attributes(entries);
    Ok((Attributes::with_required_attributes(attr_types), attr_values))
}

} // verus!
