//! Attribute values: as they are written, as expressions, and as what these
//! evaluate to.

use crate::model::{Duplicate, Model};
use crate::names::{EntityUID, Name, NameModel, UidModel};
use crate::outcome::{collected, collected_prefix, collected_push};
use crate::text::{chars_of, smol_clone};
use smol_str::SmolStr;
use vstd::prelude::*;

verus! {

broadcast use crate::model::group_models;

/// A value as it is written.
#[derive(Debug, PartialEq, Eq)]
pub enum CedarValueJson {
    Null,
    Bool(bool),
    Long(i64),
    String(SmolStr),
    SetOf(Vec<CedarValueJson>),
    /// The attributes of a record, each under its name. No name occurs twice.
    Record(Vec<(SmolStr, CedarValueJson)>),
    /// An entity.
    EntityEscape { entity: EntityUID },
    /// An arbitrary expression, as text.
    ExprEscape { expr: SmolStr },
    /// A call of an extension function.
    ExtnEscape { extn: FnAndArgs },
}

/// An extension function and its arguments.
#[derive(Debug, PartialEq, Eq)]
pub struct FnAndArgs {
    pub ext_fn: Name,
    pub args: Vec<CedarValueJson>,
}

/// A value that is written in an expression as such.
#[derive(Debug, PartialEq, Eq)]
pub enum Literal {
    Bool(bool),
    Long(i64),
    String(SmolStr),
    EntityUID(EntityUID),
}

/// An expression made of literals, sets, records and calls of extension functions.
#[derive(Debug, PartialEq, Eq)]
pub enum RestrictedExpr {
    Lit(Literal),
    SetOf(Vec<RestrictedExpr>),
    Record(Vec<(SmolStr, RestrictedExpr)>),
    Call { name: Name, args: Vec<RestrictedExpr> },
}

/// A value. In a set, neither the order nor how often an element is listed
/// carries any meaning.
#[derive(Debug, PartialEq, Eq)]
pub enum Value {
    Lit(Literal),
    SetOf(Vec<Value>),
    Record(Vec<(SmolStr, Value)>),
    /// A value of an extension type, and the text that stands for it.
    Extension { typename: Name, text: SmolStr },
}

/// What an expression evaluates to: a value, or, where that is not known yet, an
/// expression that remains to be evaluated.
#[derive(Debug, PartialEq, Eq)]
pub enum PartialValue {
    Value(Value),
    Residual(RestrictedExpr),
}

/// Why a value is no expression.
#[derive(Debug, Clone, Copy, PartialEq, Eq, Structural)]
pub enum JsonDeserializationError {
    /// There is no expression for `null`.
    Null,
    /// Arbitrary expressions are not accepted.
    ExprTag,
}

impl Model for JsonDeserializationError {
    type M = JsonDeserializationError;

    open spec fn model(&self) -> JsonDeserializationError {
        *self
    }
}

/// Why an expression could not be evaluated.
#[derive(Debug, PartialEq, Eq)]
pub enum EvaluationError {
    /// There is no extension function of that name.
    UnknownExtensionFunction(Name),
    /// An extension function of that name failed.
    FailedExtensionFunction { name: Name, message: SmolStr },
}

#[verifier::ext_equal]
pub enum JsonModel {
    Null,
    Bool(bool),
    Long(i64),
    String(Seq<char>),
    SetOf(Seq<JsonModel>),
    Record(Seq<(Seq<char>, JsonModel)>),
    EntityEscape(UidModel),
    ExprEscape(Seq<char>),
    ExtnEscape { ext_fn: NameModel, args: Seq<JsonModel> },
}

#[verifier::ext_equal]
pub enum LiteralModel {
    Bool(bool),
    Long(i64),
    String(Seq<char>),
    EntityUID(UidModel),
}

#[verifier::ext_equal]
pub enum ExprModel {
    Lit(LiteralModel),
    SetOf(Seq<ExprModel>),
    Record(Seq<(Seq<char>, ExprModel)>),
    Call { name: NameModel, args: Seq<ExprModel> },
}

#[verifier::ext_equal]
pub enum ValueModel {
    Lit(LiteralModel),
    SetOf(Seq<ValueModel>),
    Record(Seq<(Seq<char>, ValueModel)>),
    Extension { typename: NameModel, text: Seq<char> },
}

#[verifier::ext_equal]
pub enum PartialValueModel {
    Value(ValueModel),
    Residual(ExprModel),
}

#[verifier::ext_equal]
pub enum EvaluationErrorModel {
    UnknownExtensionFunction(NameModel),
    FailedExtensionFunction { name: NameModel, message: Seq<char> },
}

pub open spec fn json_model(v: CedarValueJson) -> JsonModel
    decreases v,
{
    match v {
        CedarValueJson::Null => JsonModel::Null,
        CedarValueJson::Bool(b) => JsonModel::Bool(b),
        CedarValueJson::Long(n) => JsonModel::Long(n),
        CedarValueJson::String(s) => JsonModel::String(chars_of(s)),
        CedarValueJson::SetOf(items) => JsonModel::SetOf(
            Seq::new(
                items@.len(),
                |i: int|
                    if 0 <= i < items@.len() {
                        json_model(items@[i])
                    } else {
                        arbitrary()
                    },
            ),
        ),
        CedarValueJson::Record(fields) => JsonModel::Record(
            Seq::new(
                fields@.len(),
                |i: int|
                    if 0 <= i < fields@.len() {
                        (chars_of(fields@[i].0), json_model(fields@[i].1))
                    } else {
                        arbitrary()
                    },
            ),
        ),
        CedarValueJson::EntityEscape { entity } => JsonModel::EntityEscape(entity.model()),
        CedarValueJson::ExprEscape { expr } => JsonModel::ExprEscape(chars_of(expr)),
        CedarValueJson::ExtnEscape { extn } => JsonModel::ExtnEscape {
            ext_fn: extn.ext_fn.model(),
            args: Seq::new(
                extn.args@.len(),
                |i: int|
                    if 0 <= i < extn.args@.len() {
                        json_model(extn.args@[i])
                    } else {
                        arbitrary()
                    },
            ),
        },
    }
}

impl Model for CedarValueJson {
    type M = JsonModel;

    open spec fn model(&self) -> JsonModel {
        json_model(*self)
    }
}

/// The models of values with others inside them.
pub proof fn json_models()
    ensures
        forall|items: Vec<CedarValueJson>|
            #[trigger] CedarValueJson::SetOf(items).model() == JsonModel::SetOf(items.model()),
        forall|fields: Vec<(SmolStr, CedarValueJson)>|
            #[trigger] CedarValueJson::Record(fields).model() == JsonModel::Record(fields.model()),
        forall|extn: FnAndArgs|
            #[trigger] (CedarValueJson::ExtnEscape { extn }).model() == (JsonModel::ExtnEscape {
                ext_fn: extn.ext_fn.model(),
                args: extn.args.model(),
            }),
{
    assert forall|items: Vec<CedarValueJson>| #[trigger]
        CedarValueJson::SetOf(items).model() == JsonModel::SetOf(items.model()) by {
        assert(CedarValueJson::SetOf(items).model()->SetOf_0 =~= items.model());
    }
    assert forall|fields: Vec<(SmolStr, CedarValueJson)>| #[trigger]
        CedarValueJson::Record(fields).model() == JsonModel::Record(fields.model()) by {
        assert(CedarValueJson::Record(fields).model()->Record_0 =~= fields.model());
    }
    assert forall|extn: FnAndArgs| #[trigger]
        (CedarValueJson::ExtnEscape { extn }).model() == (JsonModel::ExtnEscape {
            ext_fn: extn.ext_fn.model(),
            args: extn.args.model(),
        }) by {
        assert((CedarValueJson::ExtnEscape { extn }).model()->args =~= extn.args.model());
    }
}

impl Model for Literal {
    type M = LiteralModel;

    open spec fn model(&self) -> LiteralModel {
        match *self {
            Literal::Bool(b) => LiteralModel::Bool(b),
            Literal::Long(n) => LiteralModel::Long(n),
            Literal::String(s) => LiteralModel::String(chars_of(s)),
            Literal::EntityUID(uid) => LiteralModel::EntityUID(uid.model()),
        }
    }
}

pub open spec fn expr_model(e: RestrictedExpr) -> ExprModel
    decreases e,
{
    match e {
        RestrictedExpr::Lit(literal) => ExprModel::Lit(literal.model()),
        RestrictedExpr::SetOf(items) => ExprModel::SetOf(
            Seq::new(
                items@.len(),
                |i: int|
                    if 0 <= i < items@.len() {
                        expr_model(items@[i])
                    } else {
                        arbitrary()
                    },
            ),
        ),
        RestrictedExpr::Record(fields) => ExprModel::Record(
            Seq::new(
                fields@.len(),
                |i: int|
                    if 0 <= i < fields@.len() {
                        (chars_of(fields@[i].0), expr_model(fields@[i].1))
                    } else {
                        arbitrary()
                    },
            ),
        ),
        RestrictedExpr::Call { name, args } => ExprModel::Call {
            name: name.model(),
            args: Seq::new(
                args@.len(),
                |i: int|
                    if 0 <= i < args@.len() {
                        expr_model(args@[i])
                    } else {
                        arbitrary()
                    },
            ),
        },
    }
}

impl Model for RestrictedExpr {
    type M = ExprModel;

    open spec fn model(&self) -> ExprModel {
        expr_model(*self)
    }
}

/// The models of expressions with others inside them.
pub proof fn expr_models()
    ensures
        forall|items: Vec<RestrictedExpr>|
            #[trigger] RestrictedExpr::SetOf(items).model() == ExprModel::SetOf(items.model()),
        forall|fields: Vec<(SmolStr, RestrictedExpr)>|
            #[trigger] RestrictedExpr::Record(fields).model() == ExprModel::Record(fields.model()),
        forall|name: Name, args: Vec<RestrictedExpr>|
            #[trigger] (RestrictedExpr::Call { name, args }).model() == (ExprModel::Call {
                name: name.model(),
                args: args.model(),
            }),
{
    assert forall|items: Vec<RestrictedExpr>| #[trigger]
        RestrictedExpr::SetOf(items).model() == ExprModel::SetOf(items.model()) by {
        assert(RestrictedExpr::SetOf(items).model()->SetOf_0 =~= items.model());
    }
    assert forall|fields: Vec<(SmolStr, RestrictedExpr)>| #[trigger]
        RestrictedExpr::Record(fields).model() == ExprModel::Record(fields.model()) by {
        assert(RestrictedExpr::Record(fields).model()->Record_0 =~= fields.model());
    }
    assert forall|name: Name, args: Vec<RestrictedExpr>| #[trigger]
        (RestrictedExpr::Call { name, args }).model() == (ExprModel::Call {
            name: name.model(),
            args: args.model(),
        }) by {
        assert((RestrictedExpr::Call { name, args }).model()->args =~= args.model());
    }
}

pub open spec fn value_model(v: Value) -> ValueModel
    decreases v,
{
    match v {
        Value::Lit(literal) => ValueModel::Lit(literal.model()),
        Value::SetOf(items) => ValueModel::SetOf(
            Seq::new(
                items@.len(),
                |i: int|
                    if 0 <= i < items@.len() {
                        value_model(items@[i])
                    } else {
                        arbitrary()
                    },
            ),
        ),
        Value::Record(fields) => ValueModel::Record(
            Seq::new(
                fields@.len(),
                |i: int|
                    if 0 <= i < fields@.len() {
                        (chars_of(fields@[i].0), value_model(fields@[i].1))
                    } else {
                        arbitrary()
                    },
            ),
        ),
        Value::Extension { typename, text } => ValueModel::Extension {
            typename: typename.model(),
            text: chars_of(text),
        },
    }
}

impl Model for Value {
    type M = ValueModel;

    open spec fn model(&self) -> ValueModel {
        value_model(*self)
    }
}

/// The models of values with others inside them.
pub proof fn value_models()
    ensures
        forall|items: Vec<Value>|
            #[trigger] Value::SetOf(items).model() == ValueModel::SetOf(items.model()),
        forall|fields: Vec<(SmolStr, Value)>|
            #[trigger] Value::Record(fields).model() == ValueModel::Record(fields.model()),
{
    assert forall|items: Vec<Value>| #[trigger]
        Value::SetOf(items).model() == ValueModel::SetOf(items.model()) by {
        assert(Value::SetOf(items).model()->SetOf_0 =~= items.model());
    }
    assert forall|fields: Vec<(SmolStr, Value)>| #[trigger]
        Value::Record(fields).model() == ValueModel::Record(fields.model()) by {
        assert(Value::Record(fields).model()->Record_0 =~= fields.model());
    }
}

impl Clone for Literal {
    fn clone(&self) -> (r: Self)
        ensures
            r.model() == self.model(),
    {
        match self {
            Literal::Bool(b) => Literal::Bool(*b),
            Literal::Long(n) => Literal::Long(*n),
            Literal::String(s) => Literal::String(smol_clone(s)),
            Literal::EntityUID(uid) => Literal::EntityUID(uid.clone()),
        }
    }
}

/// Copies of expressions.
fn clone_exprs(items: &Vec<RestrictedExpr>) -> (r: Vec<RestrictedExpr>)
    ensures
        r.model() == items.model(),
    decreases items,
{
    let mut out: Vec<RestrictedExpr> = Vec::new();
    let mut i: usize = 0;
    while i < items.len()
        invariant
            i <= items@.len(),
            out@.len() == i,
            forall|j: int| 0 <= j < i ==> (#[trigger] out@[j]).model() == items@[j].model(),
        decreases items@.len() - i,
    {
        proof {
            assert(decreases_to!(items => items@));
            assert(decreases_to!(items@ => items@[i as int]));
        }
        out.push(items[i].clone());
        i = i + 1;
    }
    assert(out.model() =~= items.model());
    out
}

/// Copies of the attributes of a record.
fn clone_expr_fields(fields: &Vec<(SmolStr, RestrictedExpr)>) -> (r: Vec<(SmolStr, RestrictedExpr)>)
    ensures
        r.model() == fields.model(),
    decreases fields,
{
    let mut out: Vec<(SmolStr, RestrictedExpr)> = Vec::new();
    let mut i: usize = 0;
    while i < fields.len()
        invariant
            i <= fields@.len(),
            out@.len() == i,
            forall|j: int|
                #![trigger out@[j]]
                0 <= j < i ==> out@[j].model() == fields@[j].model(),
        decreases fields@.len() - i,
    {
        proof {
            assert(decreases_to!(fields => fields@));
            assert(decreases_to!(fields@ => fields@[i as int]));
            assert(decreases_to!(fields@[i as int] => fields@[i as int].1));
        }
        out.push((smol_clone(&fields[i].0), fields[i].1.clone()));
        i = i + 1;
    }
    assert(out.model() =~= fields.model());
    out
}

impl Clone for RestrictedExpr {
    fn clone(&self) -> (r: Self)
        ensures
            r.model() == self.model(),
        decreases self,
    {
        proof {
            expr_models();
        }
        match self {
            RestrictedExpr::Lit(literal) => RestrictedExpr::Lit(literal.clone()),
            RestrictedExpr::SetOf(items) => RestrictedExpr::SetOf(clone_exprs(items)),
            RestrictedExpr::Record(fields) => RestrictedExpr::Record(clone_expr_fields(fields)),
            RestrictedExpr::Call { name, args } => RestrictedExpr::Call {
                name: name.clone(),
                args: clone_exprs(args),
            },
        }
    }
}

/// Copies of values.
fn clone_values(items: &Vec<Value>) -> (r: Vec<Value>)
    ensures
        r.model() == items.model(),
    decreases items,
{
    let mut out: Vec<Value> = Vec::new();
    let mut i: usize = 0;
    while i < items.len()
        invariant
            i <= items@.len(),
            out@.len() == i,
            forall|j: int| 0 <= j < i ==> (#[trigger] out@[j]).model() == items@[j].model(),
        decreases items@.len() - i,
    {
        proof {
            assert(decreases_to!(items => items@));
            assert(decreases_to!(items@ => items@[i as int]));
        }
        out.push(items[i].clone());
        i = i + 1;
    }
    assert(out.model() =~= items.model());
    out
}

/// Copies of the attributes of a record, each under its name.
fn clone_value_fields(fields: &Vec<(SmolStr, Value)>) -> (r: Vec<(SmolStr, Value)>)
    ensures
        r.model() == fields.model(),
    decreases fields,
{
    let mut out: Vec<(SmolStr, Value)> = Vec::new();
    let mut i: usize = 0;
    while i < fields.len()
        invariant
            i <= fields@.len(),
            out@.len() == i,
            forall|j: int|
                #![trigger out@[j]]
                0 <= j < i ==> out@[j].model() == fields@[j].model(),
        decreases fields@.len() - i,
    {
        proof {
            assert(decreases_to!(fields => fields@));
            assert(decreases_to!(fields@ => fields@[i as int]));
            assert(decreases_to!(fields@[i as int] => fields@[i as int].1));
        }
        out.push((smol_clone(&fields[i].0), fields[i].1.clone()));
        i = i + 1;
    }
    assert(out.model() =~= fields.model());
    out
}

impl Clone for Value {
    fn clone(&self) -> (r: Self)
        ensures
            r.model() == self.model(),
        decreases self,
    {
        proof {
            value_models();
        }
        match self {
            Value::Lit(literal) => Value::Lit(literal.clone()),
            Value::SetOf(items) => Value::SetOf(clone_values(items)),
            Value::Record(fields) => Value::Record(clone_value_fields(fields)),
            Value::Extension { typename, text } => Value::Extension {
                typename: typename.clone(),
                text: smol_clone(text),
            },
        }
    }
}

impl Clone for PartialValue {
    fn clone(&self) -> (r: Self)
        ensures
            r.model() == self.model(),
    {
        match self {
            PartialValue::Value(value) => PartialValue::Value(value.clone()),
            PartialValue::Residual(expr) => PartialValue::Residual(expr.clone()),
        }
    }
}

impl Duplicate for PartialValue {
    fn duplicate(&self) -> (r: Self) {
        self.clone()
    }
}

impl Model for PartialValue {
    type M = PartialValueModel;

    open spec fn model(&self) -> PartialValueModel {
        match *self {
            PartialValue::Value(value) => PartialValueModel::Value(value.model()),
            PartialValue::Residual(expr) => PartialValueModel::Residual(expr.model()),
        }
    }
}

impl Model for EvaluationError {
    type M = EvaluationErrorModel;

    open spec fn model(&self) -> EvaluationErrorModel {
        match *self {
            EvaluationError::UnknownExtensionFunction(name) => {
                EvaluationErrorModel::UnknownExtensionFunction(name.model())
            },
            EvaluationError::FailedExtensionFunction { name, message } => {
                EvaluationErrorModel::FailedExtensionFunction {
                    name: name.model(),
                    message: chars_of(message),
                }
            },
        }
    }
}

/// What came of a step, under the given name.
pub open spec fn named<T, E>(name: Seq<char>, step: Result<T, E>) -> Result<(Seq<char>, T), E> {
    match step {
        Ok(value) => Ok((name, value)),
        Err(error) => Err(error),
    }
}

/// The expression that a value is written for. There is none for a value with
/// `null` or an arbitrary expression in it.
pub open spec fn json_expr(v: JsonModel) -> Result<ExprModel, JsonDeserializationError>
    decreases v,
{
    match v {
        JsonModel::Null => Err(JsonDeserializationError::Null),
        JsonModel::Bool(b) => Ok(ExprModel::Lit(LiteralModel::Bool(b))),
        JsonModel::Long(n) => Ok(ExprModel::Lit(LiteralModel::Long(n))),
        JsonModel::String(s) => Ok(ExprModel::Lit(LiteralModel::String(s))),
        JsonModel::SetOf(items) => match collected(json_exprs(items)) {
            Ok(items) => Ok(ExprModel::SetOf(items)),
            Err(error) => Err(error),
        },
        JsonModel::Record(fields) => match collected(json_field_exprs(fields)) {
            Ok(fields) => Ok(ExprModel::Record(fields)),
            Err(error) => Err(error),
        },
        JsonModel::EntityEscape(uid) => Ok(ExprModel::Lit(LiteralModel::EntityUID(uid))),
        JsonModel::ExprEscape(_) => Err(JsonDeserializationError::ExprTag),
        JsonModel::ExtnEscape { ext_fn, args } => match collected(json_exprs(args)) {
            Ok(args) => Ok(ExprModel::Call { name: ext_fn, args }),
            Err(error) => Err(error),
        },
    }
}

pub open spec fn json_exprs(items: Seq<JsonModel>) -> Seq<
    Result<ExprModel, JsonDeserializationError>,
>
    decreases items,
{
    Seq::new(
        items.len(),
        |i: int|
            if 0 <= i < items.len() {
                json_expr(items[i])
            } else {
                arbitrary()
            },
    )
}

pub open spec fn json_field_exprs(fields: Seq<(Seq<char>, JsonModel)>) -> Seq<
    Result<(Seq<char>, ExprModel), JsonDeserializationError>,
>
    decreases fields,
{
    Seq::new(
        fields.len(),
        |i: int|
            if 0 <= i < fields.len() {
                named(fields[i].0, json_expr(fields[i].1))
            } else {
                arbitrary()
            },
    )
}

/// The expressions that values are written for; the first failure stops.
fn exprs_of(items: Vec<CedarValueJson>) -> (r: Result<Vec<RestrictedExpr>, JsonDeserializationError>)
    ensures
        r.model() == collected(json_exprs(items.model())),
    decreases items,
{
    let ghost all = items@;
    let ghost steps = json_exprs(items.model());
    let mut out: Vec<RestrictedExpr> = Vec::new();
    proof {
        assert(steps.take(0) =~= Seq::empty());
    }
    for item in it: items
        invariant
            it.seq() == all,
            all == items@,
            steps == json_exprs(items.model()),
            collected(steps.take(it.index() as int)) == Ok::<
                Seq<ExprModel>,
                JsonDeserializationError,
            >(out.model()),
    {
        let ghost i = it.index() as int;
        proof {
            assert(decreases_to!(items => items@));
            assert(decreases_to!(items@ => items@[i]));
            assert(items.model()[i] == item.model());
            collected_push(steps, i);
        }
        match item.into_expr() {
            Ok(expr) => out.push(expr),
            Err(e) => {
                proof {
                    collected_prefix(steps, i + 1);
                }
                return Err(e);
            },
        }
    }
    proof {
        assert(steps.take(all.len() as int) =~= steps);
    }
    Ok(out)
}

/// The expressions that the attributes of a record are written for; the first
/// failure stops.
fn field_exprs_of(fields: Vec<(SmolStr, CedarValueJson)>) -> (r: Result<
    Vec<(SmolStr, RestrictedExpr)>,
    JsonDeserializationError,
>)
    ensures
        r.model() == collected(json_field_exprs(fields.model())),
    decreases fields,
{
    let ghost all = fields@;
    let ghost steps = json_field_exprs(fields.model());
    let mut out: Vec<(SmolStr, RestrictedExpr)> = Vec::new();
    proof {
        assert(steps.take(0) =~= Seq::empty());
    }
    for field in it: fields
        invariant
            it.seq() == all,
            all == fields@,
            steps == json_field_exprs(fields.model()),
            collected(steps.take(it.index() as int)) == Ok::<
                Seq<(Seq<char>, ExprModel)>,
                JsonDeserializationError,
            >(out.model()),
    {
        let ghost i = it.index() as int;
        let (name, value) = field;
        proof {
            assert(decreases_to!(fields => fields@));
            assert(decreases_to!(fields@ => fields@[i]));
            assert(decreases_to!(fields@[i] => fields@[i].1));
            assert(fields.model()[i] == field.model());
            collected_push(steps, i);
        }
        match value.into_expr() {
            Ok(expr) => out.push((name, expr)),
            Err(e) => {
                proof {
                    collected_prefix(steps, i + 1);
                }
                return Err(e);
            },
        }
    }
    proof {
        assert(steps.take(all.len() as int) =~= steps);
    }
    Ok(out)
}

impl CedarValueJson {
    /// The expression that the value is written for.
    pub fn into_expr(self) -> (r: Result<RestrictedExpr, JsonDeserializationError>)
        ensures
            r.model() == json_expr(self.model()),
        decreases self,
    {
        proof {
            json_models();
            expr_models();
        }
        match self {
            CedarValueJson::Null => Err(JsonDeserializationError::Null),
            CedarValueJson::Bool(b) => Ok(RestrictedExpr::Lit(Literal::Bool(b))),
            CedarValueJson::Long(n) => Ok(RestrictedExpr::Lit(Literal::Long(n))),
            CedarValueJson::String(s) => Ok(RestrictedExpr::Lit(Literal::String(s))),
            CedarValueJson::SetOf(items) => match exprs_of(items) {
                Ok(items) => Ok(RestrictedExpr::SetOf(items)),
                Err(e) => Err(e),
            },
            CedarValueJson::Record(fields) => match field_exprs_of(fields) {
                Ok(fields) => Ok(RestrictedExpr::Record(fields)),
                Err(e) => Err(e),
            },
            CedarValueJson::EntityEscape { entity } => Ok(
                RestrictedExpr::Lit(Literal::EntityUID(entity)),
            ),
            CedarValueJson::ExprEscape { expr: _ } => Err(JsonDeserializationError::ExprTag),
            CedarValueJson::ExtnEscape { extn } => match exprs_of(extn.args) {
                Ok(args) => Ok(RestrictedExpr::Call { name: extn.ext_fn, args }),
                Err(e) => Err(e),
            },
        }
    }
}

/// Why one of several values is no expression, if one is none: the first of these
/// tells.
pub fn why_any_inexpressible(items: &Vec<CedarValueJson>) -> (r: Option<JsonDeserializationError>)
    ensures
        (match collected(json_exprs(items.model())) {
            Ok(_) => r is None,
            Err(e) => r == Some(e),
        }),
    decreases items,
{
    let ghost steps = json_exprs(items.model());
    proof {
        assert(steps.take(0) =~= Seq::empty());
    }
    let mut i: usize = 0;
    while i < items.len()
        invariant
            i <= items@.len(),
            steps == json_exprs(items.model()),
            collected(steps.take(i as int)) is Ok,
        decreases items@.len() - i,
    {
        proof {
            assert(decreases_to!(items => items@));
            assert(decreases_to!(items@ => items@[i as int]));
            assert(items.model()[i as int] == items@[i as int].model());
            collected_push(steps, i as int);
        }
        let reason = why_inexpressible(&items[i]);
        if reason.is_some() {
            proof {
                collected_prefix(steps, i + 1);
            }
            return reason;
        }
        i = i + 1;
    }
    proof {
        assert(steps.take(i as int) =~= steps);
    }
    None
}

/// Why a value is no expression, if it is none.
pub fn why_inexpressible(v: &CedarValueJson) -> (r: Option<JsonDeserializationError>)
    ensures
        (match json_expr(v.model()) {
            Ok(_) => r is None,
            Err(e) => r == Some(e),
        }),
    decreases v,
{
    proof {
        json_models();
    }
    match v {
        CedarValueJson::Null => Some(JsonDeserializationError::Null),
        CedarValueJson::ExprEscape { expr: _ } => Some(JsonDeserializationError::ExprTag),
        CedarValueJson::SetOf(items) => {
            proof {
                assert(decreases_to!(v => *items));
            }
            why_any_inexpressible(items)
        },
        CedarValueJson::Record(fields) => {
            let ghost steps = json_field_exprs(fields.model());
            proof {
                assert(steps.take(0) =~= Seq::empty());
            }
            let mut i: usize = 0;
            while i < fields.len()
                invariant
                    i <= fields@.len(),
                    *v == CedarValueJson::Record(*fields),
                    v.model() == JsonModel::Record(fields.model()),
                    steps == json_field_exprs(fields.model()),
                    collected(steps.take(i as int)) is Ok,
                decreases fields@.len() - i,
            {
                proof {
                    assert(decreases_to!(v => *fields));
                    assert(decreases_to!(fields => fields@));
                    assert(decreases_to!(fields@ => fields@[i as int]));
                    assert(decreases_to!(fields@[i as int] => fields@[i as int].1));
                    assert(fields.model()[i as int] == fields@[i as int].model());
                    collected_push(steps, i as int);
                }
                let reason = why_inexpressible(&fields[i].1);
                if reason.is_some() {
                    proof {
                        collected_prefix(steps, i + 1);
                    }
                    return reason;
                }
                i = i + 1;
            }
            proof {
                assert(steps.take(i as int) =~= steps);
            }
            None
        },
        CedarValueJson::ExtnEscape { extn } => {
            proof {
                assert(decreases_to!(v => *extn));
                assert(decreases_to!(extn => extn.args));
            }
            why_any_inexpressible(&extn.args)
        },
        _ => None,
    }
}

/// Evaluates expressions. What a call of an extension function evaluates to
/// depends on the extensions that an evaluator knows.
pub trait RestrictedEvaluator {
    spec fn evaluated(&self, expr: ExprModel) -> Result<PartialValueModel, EvaluationErrorModel>;

    fn partial_interpret(&self, expr: RestrictedExpr) -> (r: Result<PartialValue, EvaluationError>)
        ensures
            r.model() == self.evaluated(expr.model()),
    ;
}

/// An evaluator that knows no extensions.
#[derive(Debug, Clone, Copy)]
pub struct NoExtensions;

/// The value of an expression where there are no extension functions: the
/// arguments of a call are evaluated before the function is found to be missing.
pub open spec fn expr_value(e: ExprModel) -> Result<ValueModel, EvaluationErrorModel>
    decreases e,
{
    match e {
        ExprModel::Lit(literal) => Ok(ValueModel::Lit(literal)),
        ExprModel::SetOf(items) => match collected(expr_values(items)) {
            Ok(items) => Ok(ValueModel::SetOf(items)),
            Err(error) => Err(error),
        },
        ExprModel::Record(fields) => match collected(field_values(fields)) {
            Ok(fields) => Ok(ValueModel::Record(fields)),
            Err(error) => Err(error),
        },
        ExprModel::Call { name, args } => match collected(expr_values(args)) {
            Ok(_) => Err(EvaluationErrorModel::UnknownExtensionFunction(name)),
            Err(error) => Err(error),
        },
    }
}

pub open spec fn expr_values(items: Seq<ExprModel>) -> Seq<Result<ValueModel, EvaluationErrorModel>>
    decreases items,
{
    Seq::new(
        items.len(),
        |i: int|
            if 0 <= i < items.len() {
                expr_value(items[i])
            } else {
                arbitrary()
            },
    )
}

pub open spec fn field_values(fields: Seq<(Seq<char>, ExprModel)>) -> Seq<
    Result<(Seq<char>, ValueModel), EvaluationErrorModel>,
>
    decreases fields,
{
    Seq::new(
        fields.len(),
        |i: int|
            if 0 <= i < fields.len() {
                named(fields[i].0, expr_value(fields[i].1))
            } else {
                arbitrary()
            },
    )
}

/// The values of expressions; the first failure stops.
fn values_of(items: Vec<RestrictedExpr>) -> (r: Result<Vec<Value>, EvaluationError>)
    ensures
        r.model() == collected(expr_values(items.model())),
    decreases items,
{
    let ghost all = items@;
    let ghost steps = expr_values(items.model());
    let mut out: Vec<Value> = Vec::new();
    proof {
        assert(steps.take(0) =~= Seq::empty());
    }
    for item in it: items
        invariant
            it.seq() == all,
            all == items@,
            steps == expr_values(items.model()),
            collected(steps.take(it.index() as int)) == Ok::<
                Seq<ValueModel>,
                EvaluationErrorModel,
            >(out.model()),
    {
        let ghost i = it.index() as int;
        proof {
            assert(decreases_to!(items => items@));
            assert(decreases_to!(items@ => items@[i]));
            assert(items.model()[i] == item.model());
            collected_push(steps, i);
        }
        match value_of(item) {
            Ok(value) => out.push(value),
            Err(e) => {
                proof {
                    collected_prefix(steps, i + 1);
                }
                return Err(e);
            },
        }
    }
    proof {
        assert(steps.take(all.len() as int) =~= steps);
    }
    Ok(out)
}

/// The values of the attributes of a record; the first failure stops.
fn field_values_of(fields: Vec<(SmolStr, RestrictedExpr)>) -> (r: Result<
    Vec<(SmolStr, Value)>,
    EvaluationError,
>)
    ensures
        r.model() == collected(field_values(fields.model())),
    decreases fields,
{
    let ghost all = fields@;
    let ghost steps = field_values(fields.model());
    let mut out: Vec<(SmolStr, Value)> = Vec::new();
    proof {
        assert(steps.take(0) =~= Seq::empty());
    }
    for field in it: fields
        invariant
            it.seq() == all,
            all == fields@,
            steps == field_values(fields.model()),
            collected(steps.take(it.index() as int)) == Ok::<
                Seq<(Seq<char>, ValueModel)>,
                EvaluationErrorModel,
            >(out.model()),
    {
        let ghost i = it.index() as int;
        let (name, expr) = field;
        proof {
            assert(decreases_to!(fields => fields@));
            assert(decreases_to!(fields@ => fields@[i]));
            assert(decreases_to!(fields@[i] => fields@[i].1));
            assert(fields.model()[i] == field.model());
            collected_push(steps, i);
        }
        match value_of(expr) {
            Ok(value) => out.push((name, value)),
            Err(e) => {
                proof {
                    collected_prefix(steps, i + 1);
                }
                return Err(e);
            },
        }
    }
    proof {
        assert(steps.take(all.len() as int) =~= steps);
    }
    Ok(out)
}

/// The value of an expression where there are no extension functions.
fn value_of(expr: RestrictedExpr) -> (r: Result<Value, EvaluationError>)
    ensures
        r.model() == expr_value(expr.model()),
    decreases expr,
{
    proof {
        expr_models();
        value_models();
    }
    match expr {
        RestrictedExpr::Lit(literal) => Ok(Value::Lit(literal)),
        RestrictedExpr::SetOf(items) => match values_of(items) {
            Ok(items) => Ok(Value::SetOf(items)),
            Err(e) => Err(e),
        },
        RestrictedExpr::Record(fields) => match field_values_of(fields) {
            Ok(fields) => Ok(Value::Record(fields)),
            Err(e) => Err(e),
        },
        RestrictedExpr::Call { name, args } => match values_of(args) {
            Ok(_) => Err(EvaluationError::UnknownExtensionFunction(name)),
            Err(e) => Err(e),
        },
    }
}

impl RestrictedEvaluator for NoExtensions {
    open spec fn evaluated(&self, expr: ExprModel) -> Result<
        PartialValueModel,
        EvaluationErrorModel,
    > {
        match expr_value(expr) {
            Ok(value) => Ok(PartialValueModel::Value(value)),
            Err(error) => Err(error),
        }
    }

    fn partial_interpret(&self, expr: RestrictedExpr) -> (r: Result<PartialValue, EvaluationError>) {
        match value_of(expr) {
            Ok(value) => Ok(PartialValue::Value(value)),
            Err(e) => Err(e),
        }
    }
}

} // verus!
