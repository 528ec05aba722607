//! What the values of attributes are written as, and the types and values they have.

use crate::action_attributes::{
    attribute_conversions, attributes_converted, converted_attribute, json_field_types, json_type,
};
use crate::err::ErrorModel;
use crate::names::UidModel;
use crate::outcome::{collected, collected_first, collected_ok};
use crate::sorting::{by_name, has_name, is_last_under_its_name, last_of_each_name_stays};
use crate::types::{AttributeTypeModel, OpenTag, Primitive, TypeModel};
use crate::value::{
    expr_value, expr_values, field_values, json_expr, json_exprs, json_field_exprs, named,
    EvaluationErrorModel, ExprModel, JsonDeserializationError, JsonModel, LiteralModel,
    PartialValueModel, RestrictedEvaluator, ValueModel,
};
use vstd::prelude::*;

verus! {

/// Whether an expression is a value, part by part.
pub open spec fn writes(v: JsonModel, e: ExprModel) -> bool
    decreases v,
{
    match (v, e) {
        (JsonModel::Bool(a), ExprModel::Lit(LiteralModel::Bool(b))) => a == b,
        (JsonModel::Long(a), ExprModel::Lit(LiteralModel::Long(b))) => a == b,
        (JsonModel::String(a), ExprModel::Lit(LiteralModel::String(b))) => a == b,
        (JsonModel::EntityEscape(a), ExprModel::Lit(LiteralModel::EntityUID(b))) => a == b,
        (JsonModel::SetOf(a), ExprModel::SetOf(b)) => {
            &&& a.len() == b.len()
            &&& forall|i: int| 0 <= i < a.len() ==> writes(#[trigger] a[i], b[i])
        },
        (JsonModel::Record(a), ExprModel::Record(b)) => {
            &&& a.len() == b.len()
            &&& forall|i: int|
                0 <= i < a.len() ==> (#[trigger] a[i]).0 == b[i].0 && writes(a[i].1, b[i].1)
        },
        (JsonModel::ExtnEscape { ext_fn, args: a }, ExprModel::Call { name, args: b }) => {
            &&& ext_fn == name
            &&& a.len() == b.len()
            &&& forall|i: int| 0 <= i < a.len() ==> writes(#[trigger] a[i], b[i])
        },
        _ => false,
    }
}

/// Whether neither a null nor an expression escape is anywhere in a value.
pub open spec fn is_plain(v: JsonModel) -> bool
    decreases v,
{
    match v {
        JsonModel::Null => false,
        JsonModel::ExprEscape(_) => false,
        JsonModel::SetOf(items) => forall|i: int|
            0 <= i < items.len() ==> is_plain(#[trigger] items[i]),
        JsonModel::Record(fields) => forall|i: int|
            0 <= i < fields.len() ==> is_plain((#[trigger] fields[i]).1),
        JsonModel::ExtnEscape { args, .. } => forall|i: int|
            0 <= i < args.len() ==> is_plain(#[trigger] args[i]),
        _ => true,
    }
}

/// Whether `reason` is for the first null or expression escape in a value.
pub open spec fn is_first_reason(v: JsonModel, reason: JsonDeserializationError) -> bool
    decreases v,
{
    match v {
        JsonModel::Null => reason == JsonDeserializationError::Null,
        JsonModel::ExprEscape(_) => reason == JsonDeserializationError::ExprTag,
        JsonModel::SetOf(items) => exists|k: int|
            0 <= k < items.len() && is_first_reason(#[trigger] items[k], reason) && forall|i: int|
                0 <= i < k ==> is_plain(#[trigger] items[i]),
        JsonModel::Record(fields) => exists|k: int|
            0 <= k < fields.len() && is_first_reason((#[trigger] fields[k]).1, reason) && forall|
                i: int,
            |
                0 <= i < k ==> is_plain((#[trigger] fields[i]).1),
        JsonModel::ExtnEscape { args, .. } => exists|k: int|
            0 <= k < args.len() && is_first_reason(#[trigger] args[k], reason) && forall|i: int|
                0 <= i < k ==> is_plain(#[trigger] args[i]),
        _ => false,
    }
}

/// Several values as expressions.
proof fn items_are_written(items: Seq<JsonModel>)
    ensures
        collected(json_exprs(items)) matches Ok(e) ==> e.len() == items.len() && forall|i: int|
            0 <= i < items.len() ==> writes(#[trigger] items[i], e[i]),
        collected(json_exprs(items)) is Ok <==> forall|i: int|
            0 <= i < items.len() ==> is_plain(#[trigger] items[i]),
        collected(json_exprs(items)) matches Err(reason) ==> exists|k: int|
            0 <= k < items.len() && is_first_reason(#[trigger] items[k], reason) && forall|i: int|
                0 <= i < k ==> is_plain(#[trigger] items[i]),
    decreases items, 1int,
{
    let steps = json_exprs(items);
    collected_ok(steps);
    assert forall|i: int| 0 <= i < items.len() implies {
        &&& steps[i] == json_expr(#[trigger] items[i])
        &&& json_expr(items[i]) matches Ok(e) ==> writes(items[i], e)
        &&& json_expr(items[i]) is Ok <==> is_plain(items[i])
        &&& json_expr(items[i]) matches Err(reason) ==> is_first_reason(items[i], reason)
    } by {
        value_is_written(items[i]);
    }
    match collected(steps) {
        Ok(e) => {
            assert forall|i: int| 0 <= i < items.len() implies writes(#[trigger] items[i], e[i])
                && is_plain(items[i]) by {
                assert(steps[i] == Ok::<ExprModel, JsonDeserializationError>(e[i]));
            }
        },
        Err(reason) => {
            let k = collected_first(steps);
            assert(is_first_reason(items[k], reason));
            assert(!is_plain(items[k]));
            assert forall|i: int| 0 <= i < k implies is_plain(#[trigger] items[i]) by {
                assert(steps[i] is Ok);
            }
        },
    }
}

/// A value is written as the expression that it is, part by part, unless a null or an
/// expression escape is somewhere in it; then the first of these is the reason.
pub proof fn value_is_written(v: JsonModel)
    ensures
        json_expr(v) matches Ok(e) ==> writes(v, e),
        json_expr(v) is Ok <==> is_plain(v),
        json_expr(v) matches Err(reason) ==> is_first_reason(v, reason),
    decreases v, 0int,
{
    match v {
        JsonModel::SetOf(items) => {
            items_are_written(items);
        },
        JsonModel::ExtnEscape { args, .. } => {
            items_are_written(args);
        },
        JsonModel::Record(fields) => {
            let steps = json_field_exprs(fields);
            collected_ok(steps);
            assert forall|i: int| 0 <= i < fields.len() implies {
                &&& steps[i] == named((#[trigger] fields[i]).0, json_expr(fields[i].1))
                &&& json_expr(fields[i].1) matches Ok(e) ==> writes(fields[i].1, e)
                &&& json_expr(fields[i].1) is Ok <==> is_plain(fields[i].1)
                &&& json_expr(fields[i].1) matches Err(reason) ==> is_first_reason(
                    fields[i].1,
                    reason,
                )
            } by {
                value_is_written(fields[i].1);
            }
            match collected(steps) {
                Ok(e) => {
                    assert forall|i: int| 0 <= i < fields.len() implies {
                        &&& (#[trigger] fields[i]).0 == e[i].0
                        &&& writes(fields[i].1, e[i].1)
                        &&& is_plain(fields[i].1)
                    } by {
                        assert(steps[i] == Ok::<(Seq<char>, ExprModel), JsonDeserializationError>(
                            e[i],
                        ));
                    }
                },
                Err(reason) => {
                    let k = collected_first(steps);
                    assert(is_first_reason(fields[k].1, reason));
                    assert(!is_plain(fields[k].1));
                    assert forall|i: int| 0 <= i < k implies is_plain(
                        (#[trigger] fields[i]).1,
                    ) by {
                        assert(steps[i] is Ok);
                    }
                },
            }
        },
        _ => {},
    }
}

/// Whether a type is that of a value as an attribute of an action: of each part of a
/// record its own, under its name, all of which have to be there and no others may, and
/// of a set that of its first element.
pub open spec fn is_typed(v: JsonModel, t: TypeModel) -> bool
    decreases v,
{
    match v {
        JsonModel::Bool(_) => t == TypeModel::Primitive(Primitive::Bool),
        JsonModel::Long(_) => t == TypeModel::Primitive(Primitive::Long),
        JsonModel::String(_) => t == TypeModel::Primitive(Primitive::String),
        JsonModel::Record(fields) => {
            &&& t matches TypeModel::Record { attrs, open }
            &&& open == OpenTag::ClosedAttributes
            &&& attrs.len() == fields.len()
            &&& forall|i: int|
                0 <= i < fields.len() ==> {
                    &&& (#[trigger] fields[i]).0 == attrs[i].0
                    &&& attrs[i].1.required
                    &&& is_typed(fields[i].1, attrs[i].1.ty)
                }
        },
        JsonModel::SetOf(items) => {
            &&& t matches TypeModel::SetOf(Some(element))
            &&& items.len() > 0
            &&& is_typed(items[0], *element)
        },
        _ => false,
    }
}

/// Whether a value tells its type: it is a boolean, an integer or a string, a record of
/// values that do, or a set that is not empty, whose first element does, and which holds
/// no null and no expression escape.
pub open spec fn tells_type(v: JsonModel) -> bool
    decreases v,
{
    match v {
        JsonModel::Bool(_) => true,
        JsonModel::Long(_) => true,
        JsonModel::String(_) => true,
        JsonModel::Record(fields) => forall|i: int|
            0 <= i < fields.len() ==> tells_type((#[trigger] fields[i]).1),
        JsonModel::SetOf(items) => {
            &&& items.len() > 0
            &&& tells_type(items[0])
            &&& forall|i: int| 0 <= i < items.len() ==> is_plain(#[trigger] items[i])
        },
        _ => false,
    }
}

/// Whether `error` reports, of the action `uid`, an attribute of a form that is not
/// supported, with those words for it.
pub open spec fn says(error: ErrorModel, uid: UidModel, words: Seq<char>) -> bool {
    error matches ErrorModel::UnsupportedActionAttribute { uid: action, attr } && action == uid
        && attr == words
}

/// Whether `error` reports the first part of a value that keeps it from having a type.
pub open spec fn reports_untyped(v: JsonModel, error: ErrorModel, uid: UidModel) -> bool
    decreases v,
{
    match v {
        JsonModel::Null => says(error, uid, "null"@),
        JsonModel::EntityEscape(_) => says(error, uid, "entity escape (`__entity`)"@),
        JsonModel::ExprEscape(_) => says(error, uid, "expression escape (`__expr`)"@),
        JsonModel::ExtnEscape { .. } => says(error, uid, "extension function escape (`__extn`)"@),
        JsonModel::Record(fields) => exists|k: int|
            0 <= k < fields.len() && reports_untyped((#[trigger] fields[k]).1, error, uid)
                && forall|i: int| 0 <= i < k ==> tells_type((#[trigger] fields[i]).1),
        JsonModel::SetOf(items) => if items.len() == 0 {
            error == ErrorModel::ActionAttributesContainEmptySet(uid)
        } else if !tells_type(items[0]) {
            reports_untyped(items[0], error, uid)
        } else {
            ||| says(error, uid, "null"@) && is_first_reason(v, JsonDeserializationError::Null)
            ||| says(error, uid, "expression escape (`__expr`)"@) && is_first_reason(
                v,
                JsonDeserializationError::ExprTag,
            )
        },
        _ => false,
    }
}

/// The type of a value is that of its form, part by part. It has one exactly where it
/// tells its type; otherwise the first part that does not is reported.
pub proof fn values_have_their_types(v: JsonModel, uid: UidModel)
    ensures
        json_type(v, uid) matches Ok(t) ==> is_typed(v, t),
        json_type(v, uid) is Ok <==> tells_type(v),
        json_type(v, uid) matches Err(error) ==> reports_untyped(v, error, uid),
    decreases v,
{
    match v {
        JsonModel::SetOf(items) => {
            if items.len() > 0 {
                values_have_their_types(items[0], uid);
                items_are_written(items);
            }
        },
        JsonModel::Record(fields) => {
            let steps = json_field_types(fields, uid);
            collected_ok(steps);
            assert forall|i: int| 0 <= i < fields.len() implies {
                &&& steps[i] == named((#[trigger] fields[i]).0, json_type(fields[i].1, uid))
                &&& json_type(fields[i].1, uid) matches Ok(t) ==> is_typed(fields[i].1, t)
                &&& json_type(fields[i].1, uid) is Ok <==> tells_type(fields[i].1)
                &&& json_type(fields[i].1, uid) matches Err(error) ==> reports_untyped(
                    fields[i].1,
                    error,
                    uid,
                )
            } by {
                values_have_their_types(fields[i].1, uid);
            }
            match collected(steps) {
                Ok(types) => {
                    assert forall|i: int| 0 <= i < fields.len() implies {
                        &&& (#[trigger] fields[i]).0 == types[i].0
                        &&& is_typed(fields[i].1, types[i].1)
                        &&& tells_type(fields[i].1)
                    } by {
                        assert(steps[i] == Ok::<(Seq<char>, TypeModel), ErrorModel>(types[i]));
                    }
                },
                Err(error) => {
                    let k = collected_first(steps);
                    assert(reports_untyped(fields[k].1, error, uid));
                    assert(!tells_type(fields[k].1));
                    assert forall|i: int| 0 <= i < k implies tells_type(
                        (#[trigger] fields[i]).1,
                    ) by {
                        assert(steps[i] is Ok);
                    }
                },
            }
        },
        _ => {},
    }
}

/// A value that tells its type holds no null and no expression escape.
pub proof fn typed_values_are_plain(v: JsonModel)
    requires
        tells_type(v),
    ensures
        is_plain(v),
    decreases v,
{
    if let JsonModel::Record(fields) = v {
        assert forall|i: int| 0 <= i < fields.len() implies is_plain((#[trigger] fields[i]).1) by {
            typed_values_are_plain(fields[i].1);
        }
    }
}

/// Whether an expression has a value, part by part.
pub open spec fn has_value(e: ExprModel, v: ValueModel) -> bool
    decreases e,
{
    match (e, v) {
        (ExprModel::Lit(a), ValueModel::Lit(b)) => a == b,
        (ExprModel::SetOf(a), ValueModel::SetOf(b)) => {
            &&& a.len() == b.len()
            &&& forall|i: int| 0 <= i < a.len() ==> has_value(#[trigger] a[i], b[i])
        },
        (ExprModel::Record(a), ValueModel::Record(b)) => {
            &&& a.len() == b.len()
            &&& forall|i: int|
                0 <= i < a.len() ==> (#[trigger] a[i]).0 == b[i].0 && has_value(a[i].1, b[i].1)
        },
        _ => false,
    }
}

/// Whether no function is called anywhere in an expression.
pub open spec fn calls_nothing(e: ExprModel) -> bool
    decreases e,
{
    match e {
        ExprModel::Lit(_) => true,
        ExprModel::SetOf(items) => forall|i: int|
            0 <= i < items.len() ==> calls_nothing(#[trigger] items[i]),
        ExprModel::Record(fields) => forall|i: int|
            0 <= i < fields.len() ==> calls_nothing((#[trigger] fields[i]).1),
        ExprModel::Call { .. } => false,
    }
}

/// Whether `error` reports the first function that is called in an expression, the
/// arguments of a call before the call itself.
pub open spec fn reports_first_call(e: ExprModel, error: EvaluationErrorModel) -> bool
    decreases e,
{
    match e {
        ExprModel::Lit(_) => false,
        ExprModel::SetOf(items) => exists|k: int|
            0 <= k < items.len() && reports_first_call(#[trigger] items[k], error) && forall|i: int|
                0 <= i < k ==> calls_nothing(#[trigger] items[i]),
        ExprModel::Record(fields) => exists|k: int|
            0 <= k < fields.len() && reports_first_call((#[trigger] fields[k]).1, error) && forall|
                i: int,
            |
                0 <= i < k ==> calls_nothing((#[trigger] fields[i]).1),
        ExprModel::Call { name, args } => {
            ||| (forall|i: int| 0 <= i < args.len() ==> calls_nothing(#[trigger] args[i])) && error
                == EvaluationErrorModel::UnknownExtensionFunction(name)
            ||| exists|k: int|
                0 <= k < args.len() && reports_first_call(#[trigger] args[k], error) && forall|i: int|
                    0 <= i < k ==> calls_nothing(#[trigger] args[i])
        },
    }
}

/// The values of several expressions.
proof fn items_are_evaluated(items: Seq<ExprModel>)
    ensures
        collected(expr_values(items)) matches Ok(v) ==> v.len() == items.len() && forall|i: int|
            0 <= i < items.len() ==> has_value(#[trigger] items[i], v[i]),
        collected(expr_values(items)) is Ok <==> forall|i: int|
            0 <= i < items.len() ==> calls_nothing(#[trigger] items[i]),
        collected(expr_values(items)) matches Err(error) ==> exists|k: int|
            0 <= k < items.len() && reports_first_call(#[trigger] items[k], error) && forall|i: int|
                0 <= i < k ==> calls_nothing(#[trigger] items[i]),
    decreases items, 1int,
{
    let steps = expr_values(items);
    collected_ok(steps);
    assert forall|i: int| 0 <= i < items.len() implies {
        &&& steps[i] == expr_value(#[trigger] items[i])
        &&& expr_value(items[i]) matches Ok(v) ==> has_value(items[i], v)
        &&& expr_value(items[i]) is Ok <==> calls_nothing(items[i])
        &&& expr_value(items[i]) matches Err(error) ==> reports_first_call(items[i], error)
    } by {
        expression_is_evaluated(items[i]);
    }
    match collected(steps) {
        Ok(v) => {
            assert forall|i: int| 0 <= i < items.len() implies has_value(#[trigger] items[i], v[i])
                && calls_nothing(items[i]) by {
                assert(steps[i] == Ok::<ValueModel, EvaluationErrorModel>(v[i]));
            }
        },
        Err(error) => {
            let k = collected_first(steps);
            assert(reports_first_call(items[k], error));
            assert(!calls_nothing(items[k]));
            assert forall|i: int| 0 <= i < k implies calls_nothing(#[trigger] items[i]) by {
                assert(steps[i] is Ok);
            }
        },
    }
}

/// Without extensions an expression has the value that it writes, part by part, unless a
/// function is called somewhere in it; then the first such call is reported.
pub proof fn expression_is_evaluated(e: ExprModel)
    ensures
        expr_value(e) matches Ok(v) ==> has_value(e, v),
        expr_value(e) is Ok <==> calls_nothing(e),
        expr_value(e) matches Err(error) ==> reports_first_call(e, error),
    decreases e, 0int,
{
    match e {
        ExprModel::SetOf(items) => {
            items_are_evaluated(items);
        },
        ExprModel::Call { args, .. } => {
            items_are_evaluated(args);
        },
        ExprModel::Record(fields) => {
            let steps = field_values(fields);
            collected_ok(steps);
            assert forall|i: int| 0 <= i < fields.len() implies {
                &&& steps[i] == named((#[trigger] fields[i]).0, expr_value(fields[i].1))
                &&& expr_value(fields[i].1) matches Ok(v) ==> has_value(fields[i].1, v)
                &&& expr_value(fields[i].1) is Ok <==> calls_nothing(fields[i].1)
                &&& expr_value(fields[i].1) matches Err(error) ==> reports_first_call(
                    fields[i].1,
                    error,
                )
            } by {
                expression_is_evaluated(fields[i].1);
            }
            match collected(steps) {
                Ok(v) => {
                    assert forall|i: int| 0 <= i < fields.len() implies {
                        &&& (#[trigger] fields[i]).0 == v[i].0
                        &&& has_value(fields[i].1, v[i].1)
                        &&& calls_nothing(fields[i].1)
                    } by {
                        assert(steps[i] == Ok::<(Seq<char>, ValueModel), EvaluationErrorModel>(
                            v[i],
                        ));
                    }
                },
                Err(error) => {
                    let k = collected_first(steps);
                    assert(reports_first_call(fields[k].1, error));
                    assert(!calls_nothing(fields[k].1));
                    assert forall|i: int| 0 <= i < k implies calls_nothing(
                        (#[trigger] fields[i]).1,
                    ) by {
                        assert(steps[i] is Ok);
                    }
                },
            }
        },
        _ => {},
    }
}

/// Whether the expression that is an attribute has a value.
pub open spec fn is_evaluated<E: RestrictedEvaluator>(
    v: JsonModel,
    value: PartialValueModel,
    evaluator: E,
) -> bool {
    exists|e: ExprModel| #[trigger]
        writes(v, e) && evaluator.evaluated(e) == Ok::<PartialValueModel, EvaluationErrorModel>(
            value,
        )
}

/// Whether the expression that is an attribute has no value, for that reason.
pub open spec fn is_not_evaluated<E: RestrictedEvaluator>(
    v: JsonModel,
    err: EvaluationErrorModel,
    evaluator: E,
) -> bool {
    exists|e: ExprModel| #[trigger]
        writes(v, e) && evaluator.evaluated(e) == Err::<PartialValueModel, EvaluationErrorModel>(
            err,
        )
}

/// Whether an attribute can be converted: it tells its type, and the expression that it
/// is has a value.
pub open spec fn converts<E: RestrictedEvaluator>(v: JsonModel, evaluator: E) -> bool {
    tells_type(v) && exists|value: PartialValueModel| #[trigger] is_evaluated(v, value, evaluator)
}

/// A value is written as one expression only.
proof fn written_once(v: JsonModel, a: ExprModel, b: ExprModel)
    requires
        writes(v, a),
        writes(v, b),
    ensures
        a == b,
    decreases v,
{
    match (v, a, b) {
        (JsonModel::SetOf(items), ExprModel::SetOf(x), ExprModel::SetOf(y)) => {
            assert forall|i: int| 0 <= i < items.len() implies x[i] == y[i] by {
                assert(writes(items[i], x[i]));
                written_once(items[i], x[i], y[i]);
            }
            assert(x =~= y);
        },
        (JsonModel::Record(fields), ExprModel::Record(x), ExprModel::Record(y)) => {
            assert forall|i: int| 0 <= i < fields.len() implies x[i] == y[i] by {
                assert(fields[i].0 == x[i].0);
                written_once(fields[i].1, x[i].1, y[i].1);
            }
            assert(x =~= y);
        },
        (
            JsonModel::ExtnEscape { args, .. },
            ExprModel::Call { args: x, .. },
            ExprModel::Call { args: y, .. },
        ) => {
            assert forall|i: int| 0 <= i < args.len() implies x[i] == y[i] by {
                assert(writes(args[i], x[i]));
                written_once(args[i], x[i], y[i]);
            }
            assert(x =~= y);
        },
        _ => {},
    }
}

/// An attribute is converted to its type and to the value of the expression that it is.
/// Where it has no type, this is reported; or else that the expression has no value,
/// with the name of the attribute.
pub proof fn attribute_is_converted<E: RestrictedEvaluator>(
    name: Seq<char>,
    v: JsonModel,
    uid: UidModel,
    evaluator: E,
)
    ensures
        (match converted_attribute(name, v, uid, evaluator) {
            Ok(entry) => {
                &&& entry.0 == name
                &&& is_typed(v, entry.1.0)
                &&& is_evaluated(v, entry.1.1, evaluator)
                &&& converts(v, evaluator)
            },
            Err(error) => {
                &&& !converts(v, evaluator)
                &&& reports_unconverted(name, v, uid, error, evaluator)
            },
        }),
{
    values_have_their_types(v, uid);
    if tells_type(v) {
        typed_values_are_plain(v);
        value_is_written(v);
        let e = json_expr(v)->Ok_0;
        assert(writes(v, e));
        match evaluator.evaluated(e) {
            Ok(value) => {
                assert(is_evaluated(v, value, evaluator));
            },
            Err(err) => {
                assert(is_not_evaluated(v, err, evaluator));
                assert forall|value: PartialValueModel| !#[trigger] is_evaluated(
                    v,
                    value,
                    evaluator,
                ) by {
                    if is_evaluated(v, value, evaluator) {
                        let other = choose|other: ExprModel| #[trigger]
                            writes(v, other) && evaluator.evaluated(other) == Ok::<
                                PartialValueModel,
                                EvaluationErrorModel,
                            >(value);
                        written_once(v, e, other);
                    }
                }
            },
        }
    }
}

/// Whether `error` reports what keeps the attribute `name` from being converted.
pub open spec fn reports_unconverted<E: RestrictedEvaluator>(
    name: Seq<char>,
    v: JsonModel,
    uid: UidModel,
    error: ErrorModel,
    evaluator: E,
) -> bool {
    if tells_type(v) {
        error matches ErrorModel::ActionAttrEval { uid: action, attr_or_tag, was_attr, err }
            && action == uid && attr_or_tag == name && was_attr && is_not_evaluated(
            v,
            err,
            evaluator,
        )
    } else {
        reports_untyped(v, error, uid)
    }
}

/// Whether a type and a value under a name are those of the last attribute of that name.
pub open spec fn is_of_attribute<E: RestrictedEvaluator>(
    attributes: Seq<(Seq<char>, JsonModel)>,
    typed: (Seq<char>, AttributeTypeModel),
    valued: (Seq<char>, PartialValueModel),
    evaluator: E,
) -> bool {
    &&& typed.0 == valued.0
    &&& typed.1.required
    &&& exists|i: int|
        0 <= i < attributes.len() && (#[trigger] attributes[i]).0 == typed.0 && is_typed(
            attributes[i].1,
            typed.1.ty,
        ) && is_evaluated(attributes[i].1, valued.1, evaluator) && forall|h: int|
            i < h < attributes.len() ==> (#[trigger] attributes[h]).0 != typed.0
}

/// The attributes of an action are converted where each of them can be: to one type and
/// one value under each name, those of the attribute of that name, and all of them have
/// to be there. Otherwise the first that cannot be converted is reported.
pub proof fn attributes_are_converted<E: RestrictedEvaluator>(
    attributes: Seq<(Seq<char>, JsonModel)>,
    uid: UidModel,
    evaluator: E,
)
    ensures
        attributes_converted(attributes, uid, evaluator) is Ok <==> forall|i: int|
            0 <= i < attributes.len() ==> converts((#[trigger] attributes[i]).1, evaluator),
        attributes_converted(attributes, uid, evaluator) matches Ok((types, values)) ==> {
            &&& types.len() == values.len()
            &&& forall|j: int|
                0 <= j < types.len() ==> #[trigger] is_of_attribute(
                    attributes,
                    types[j],
                    values[j],
                    evaluator,
                )
            &&& forall|i: int|
                0 <= i < attributes.len() ==> #[trigger] has_name(types, attributes[i].0)
        },
        attributes_converted(attributes, uid, evaluator) matches Err(error) ==> exists|k: int|
            0 <= k < attributes.len() && reports_unconverted(
                (#[trigger] attributes[k]).0,
                attributes[k].1,
                uid,
                error,
                evaluator,
            ) && forall|i: int|
                0 <= i < k ==> converts((#[trigger] attributes[i]).1, evaluator),
{
    let steps = attribute_conversions(attributes, uid, evaluator);
    collected_ok(steps);
    assert forall|i: int| 0 <= i < attributes.len() implies {
        &&& (#[trigger] steps[i]) is Ok <==> converts(attributes[i].1, evaluator)
        &&& steps[i] matches Err(error) ==> reports_unconverted(
            attributes[i].0,
            attributes[i].1,
            uid,
            error,
            evaluator,
        )
    } by {
        attribute_is_converted(attributes[i].0, attributes[i].1, uid, evaluator);
    }
    match collected(steps) {
        Err(error) => {
            let k = collected_first(steps);
            assert(steps[k] is Err);
            assert(reports_unconverted(attributes[k].0, attributes[k].1, uid, error, evaluator));
            assert(!converts(attributes[k].1, evaluator));
            assert forall|i: int| 0 <= i < k implies converts(
                (#[trigger] attributes[i]).1,
                evaluator,
            ) by {
                assert(steps[i] is Ok);
            }
        },
        Ok(entries) => {
            let sorted = by_name(entries);
            let (types, values) = attributes_converted(attributes, uid, evaluator)->Ok_0;
            last_of_each_name_stays(entries);
            assert forall|i: int| 0 <= i < attributes.len() implies {
                &&& (#[trigger] entries[i]).0 == attributes[i].0
                &&& is_typed(attributes[i].1, entries[i].1.0)
                &&& is_evaluated(attributes[i].1, entries[i].1.1, evaluator)
                &&& converts(attributes[i].1, evaluator)
            } by {
                attribute_is_converted(attributes[i].0, attributes[i].1, uid, evaluator);
                assert(steps[i] == Ok::<
                    (Seq<char>, (TypeModel, PartialValueModel)),
                    ErrorModel,
                >(entries[i]));
            }
            assert forall|i: int| 0 <= i < attributes.len() implies converts(
                (#[trigger] attributes[i]).1,
                evaluator,
            ) by {
                assert(entries[i].0 == attributes[i].0);
            }
            assert forall|j: int| 0 <= j < types.len() implies #[trigger] is_of_attribute(
                attributes,
                types[j],
                values[j],
                evaluator,
            ) by {
                assert(is_last_under_its_name(entries, sorted[j]));
                let i = choose|i: int|
                    0 <= i < entries.len() && #[trigger] entries[i] == sorted[j] && forall|h: int|
                        i < h < entries.len() ==> (#[trigger] entries[h]).0 != sorted[j].0;
                assert(attributes[i].0 == types[j].0);
                assert forall|h: int| i < h < attributes.len() implies (#[trigger] attributes[h]).0
                    != types[j].0 by {
                    assert(entries[h].0 != sorted[j].0);
                }
            }
            assert forall|i: int| 0 <= i < attributes.len() implies #[trigger] has_name(
                types,
                attributes[i].0,
            ) by {
                assert(entries[i].0 == attributes[i].0);
                assert(has_name(sorted, entries[i].0));
                let j = choose|j: int|
                    0 <= j < sorted.len() && (#[trigger] sorted[j]).0 == entries[i].0;
                assert(types[j].0 == attributes[i].0);
            }
        },
    }
}

} // verus!
