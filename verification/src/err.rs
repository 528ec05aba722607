//! What can be wrong with a schema.

use crate::action_uid::{ActionEntityUID, ActionUidModel};
use crate::model::{models, Model};
use crate::names::{
    EntityType, EntityUID, InternalName, Name, NameModel, ReservedNameError, UidModel,
};
use crate::nonempty_list::{elements, extend_list};
use crate::outcome::{concat, concat_one};
use crate::raw_name::{ConditionalModel, ConditionalName};
use crate::text::chars_of;
use crate::value::{EvaluationError, EvaluationErrorModel};
use nonempty::NonEmpty;
use smol_str::SmolStr;
use vstd::prelude::*;

verus! {

broadcast use crate::model::group_models;

/// References that stand for nothing that is defined.
#[derive(Debug, PartialEq, Eq)]
pub struct TypeNotDefinedError {
    pub undefined_types: NonEmpty<ConditionalName>,
}

/// References to actions that are not defined.
#[derive(Debug, PartialEq, Eq)]
pub struct ActionNotDefinedError(pub NonEmpty<ActionEntityUID<ConditionalName>>);

/// An entity type that is declared more than once.
#[derive(Debug, PartialEq, Eq)]
pub struct DuplicateEntityTypeError {
    pub ty: EntityType,
}

/// A common type that is declared more than once.
#[derive(Debug, PartialEq, Eq)]
pub struct DuplicateCommonTypeError {
    pub ty: InternalName,
}

/// An action that is declared more than once.
#[derive(Debug, PartialEq, Eq)]
pub struct DuplicateActionError(pub SmolStr);

/// An entity type that has the name kept for actions.
#[derive(Debug, PartialEq, Eq)]
pub struct ActionEntityTypeDeclaredError {}

/// Something that can be written in a schema and is not supported.
#[derive(Debug, PartialEq, Eq)]
pub enum UnsupportedFeature {
    /// Records and entities with attributes beyond the declared ones.
    OpenRecordsAndEntities,
    /// Attributes on actions; the names of the actions that have some.
    ActionAttributes(Vec<String>),
}

#[derive(Debug, PartialEq, Eq)]
pub struct UnsupportedFeatureError(pub UnsupportedFeature);

/// An action with an empty set among its attributes, whose type cannot be told.
#[derive(Debug, PartialEq, Eq)]
pub struct ActionAttributesContainEmptySetError {
    pub uid: EntityUID,
}

/// An action with an attribute of a form that has no type.
#[derive(Debug, PartialEq, Eq)]
pub struct UnsupportedActionAttributeError {
    pub uid: EntityUID,
    pub attr: SmolStr,
}

/// An attribute or tag of an entity that could not be evaluated.
#[derive(Debug, PartialEq, Eq)]
pub struct EntityAttrEvaluationError {
    pub uid: EntityUID,
    pub attr_or_tag: SmolStr,
    /// Whether it was an attribute.
    pub was_attr: bool,
    pub err: EvaluationError,
}

#[derive(Debug, PartialEq, Eq)]
pub struct ActionAttrEvalError(pub EntityAttrEvaluationError);

/// An extension type that does not exist.
#[derive(Debug, PartialEq, Eq)]
pub struct UnknownExtensionTypeError {
    pub actual: Name,
    /// The extension type that may have been meant.
    pub suggested_replacement: Option<String>,
}

/// What can be wrong with a schema.
#[derive(Debug, PartialEq, Eq)]
pub enum SchemaError {
    TypeNotDefined(TypeNotDefinedError),
    ActionNotDefined(ActionNotDefinedError),
    DuplicateEntityType(DuplicateEntityTypeError),
    DuplicateCommonType(DuplicateCommonTypeError),
    DuplicateAction(DuplicateActionError),
    ActionEntityTypeDeclared(ActionEntityTypeDeclaredError),
    UnsupportedFeature(UnsupportedFeatureError),
    ActionAttributesContainEmptySet(ActionAttributesContainEmptySetError),
    UnsupportedActionAttribute(UnsupportedActionAttributeError),
    ActionAttrEval(ActionAttrEvalError),
    UnknownExtensionType(UnknownExtensionTypeError),
    ReservedName(ReservedNameError),
}

#[verifier::ext_equal]
pub enum ErrorModel {
    TypeNotDefined(Seq<ConditionalModel>),
    ActionNotDefined(Seq<ActionUidModel<ConditionalModel>>),
    DuplicateEntityType(NameModel),
    DuplicateCommonType(NameModel),
    DuplicateAction(Seq<char>),
    ActionEntityTypeDeclared,
    OpenRecordsAndEntities,
    ActionAttributes(Seq<Seq<char>>),
    ActionAttributesContainEmptySet(UidModel),
    UnsupportedActionAttribute { uid: UidModel, attr: Seq<char> },
    ActionAttrEval { uid: UidModel, attr_or_tag: Seq<char>, was_attr: bool, err: EvaluationErrorModel },
    UnknownExtensionType { actual: NameModel, suggested_replacement: Option<Seq<char>> },
    ReservedName(NameModel),
}

impl Model for TypeNotDefinedError {
    type M = Seq<ConditionalModel>;

    open spec fn model(&self) -> Seq<ConditionalModel> {
        self.undefined_types.model()
    }
}

impl Model for ActionNotDefinedError {
    type M = Seq<ActionUidModel<ConditionalModel>>;

    open spec fn model(&self) -> Seq<ActionUidModel<ConditionalModel>> {
        self.0.model()
    }
}

impl Model for SchemaError {
    type M = ErrorModel;

    open spec fn model(&self) -> ErrorModel {
        match *self {
            SchemaError::TypeNotDefined(e) => ErrorModel::TypeNotDefined(e.model()),
            SchemaError::ActionNotDefined(e) => ErrorModel::ActionNotDefined(e.model()),
            SchemaError::DuplicateEntityType(e) => ErrorModel::DuplicateEntityType(e.ty.model()),
            SchemaError::DuplicateCommonType(e) => ErrorModel::DuplicateCommonType(e.ty.model()),
            SchemaError::DuplicateAction(e) => ErrorModel::DuplicateAction(chars_of(e.0)),
            SchemaError::ActionEntityTypeDeclared(_) => ErrorModel::ActionEntityTypeDeclared,
            SchemaError::UnsupportedFeature(e) => match e.0 {
                UnsupportedFeature::OpenRecordsAndEntities => ErrorModel::OpenRecordsAndEntities,
                UnsupportedFeature::ActionAttributes(names) => ErrorModel::ActionAttributes(
                    names.model(),
                ),
            },
            SchemaError::ActionAttributesContainEmptySet(e) => {
                ErrorModel::ActionAttributesContainEmptySet(e.uid.model())
            },
            SchemaError::UnsupportedActionAttribute(e) => ErrorModel::UnsupportedActionAttribute {
                uid: e.uid.model(),
                attr: chars_of(e.attr),
            },
            SchemaError::ActionAttrEval(e) => ErrorModel::ActionAttrEval {
                uid: e.0.uid.model(),
                attr_or_tag: chars_of(e.0.attr_or_tag),
                was_attr: e.0.was_attr,
                err: e.0.err.model(),
            },
            SchemaError::UnknownExtensionType(e) => ErrorModel::UnknownExtensionType {
                actual: e.actual.model(),
                suggested_replacement: e.suggested_replacement.model(),
            },
            SchemaError::ReservedName(e) => ErrorModel::ReservedName(e.model()),
        }
    }
}

/// A step that fails only because of undefined types, as a step of a schema.
pub open spec fn undefined_types<T>(step: Result<T, Seq<ConditionalModel>>) -> Result<
    T,
    ErrorModel,
> {
    match step {
        Ok(value) => Ok(value),
        Err(undefined) => Err(ErrorModel::TypeNotDefined(undefined)),
    }
}

/// The undefined types that the given errors report, in order.
pub open spec fn types_not_defined(errors: Seq<ErrorModel>) -> Seq<ConditionalModel>
    decreases errors.len(),
{
    if errors.len() == 0 {
        Seq::empty()
    } else {
        match errors.last() {
            ErrorModel::TypeNotDefined(undefined) => types_not_defined(errors.drop_last())
                + undefined,
            _ => types_not_defined(errors.drop_last()),
        }
    }
}

/// The undefined actions that the given errors report, in order.
pub open spec fn actions_not_defined(errors: Seq<ErrorModel>) -> Seq<
    ActionUidModel<ConditionalModel>,
>
    decreases errors.len(),
{
    if errors.len() == 0 {
        Seq::empty()
    } else {
        match errors.last() {
            ErrorModel::ActionNotDefined(undefined) => actions_not_defined(errors.drop_last())
                + undefined,
            _ => actions_not_defined(errors.drop_last()),
        }
    }
}

/// Several errors as one: all the undefined types, if there are any; all the
/// undefined actions, if there are no undefined types; the first error otherwise.
pub open spec fn joined(errors: Seq<ErrorModel>) -> ErrorModel {
    if types_not_defined(errors).len() > 0 {
        ErrorModel::TypeNotDefined(types_not_defined(errors))
    } else if actions_not_defined(errors).len() > 0 {
        ErrorModel::ActionNotDefined(actions_not_defined(errors))
    } else {
        errors[0]
    }
}

/// All the values of steps, or their errors as one.
pub open spec fn partition_joined<T>(steps: Result<Seq<T>, Seq<ErrorModel>>) -> Result<
    Seq<T>,
    ErrorModel,
> {
    match steps {
        Ok(values) => Ok(values),
        Err(errors) => Err(joined(errors)),
    }
}

/// All the values of steps that fail only because of undefined types, or all the
/// undefined types.
pub open spec fn partition_undefined<T, C>(steps: Result<Seq<T>, Seq<Seq<C>>>) -> Result<
    Seq<T>,
    Seq<C>,
> {
    match steps {
        Ok(values) => Ok(values),
        Err(errors) => Err(concat(errors)),
    }
}

impl TypeNotDefinedError {
    /// Several errors as one, with the undefined types of all of them.
    pub fn join_nonempty(errs: NonEmpty<TypeNotDefinedError>) -> (r: Self)
        ensures
            r.model() == concat(errs.model()),
    {
        let ghost all = errs.model();
        let ghost rest = errs.tail@;
        let mut undefined_types = errs.head.undefined_types;
        proof {
            assert(all =~= seq![errs.head.model()] + models(rest));
            assert(all.take(1) =~= seq![errs.head.model()]);
            concat_one(errs.head.model());
        }
        for e in it: errs.tail
            invariant
                it.seq() == rest,
                all == seq![errs.head.model()] + models(rest),
                undefined_types.model() == concat(all.take(it.index() + 1)),
        {
            let ghost i = it.index() as int;
            proof {
                assert(all.take(i + 2).drop_last() =~= all.take(i + 1));
                assert(all.take(i + 2).last() == e.model());
            }
            extend_list(&mut undefined_types, e.undefined_types);
        }
        proof {
            assert(all.take(all.len() as int) =~= all);
        }
        TypeNotDefinedError { undefined_types }
    }
}

impl ActionNotDefinedError {
    /// Several errors as one, with the undefined actions of all of them.
    pub fn join_nonempty(errs: NonEmpty<ActionNotDefinedError>) -> (r: Self)
        ensures
            r.model() == concat(errs.model()),
    {
        let ghost all = errs.model();
        let ghost rest = errs.tail@;
        let mut undefined = errs.head.0;
        proof {
            assert(all =~= seq![errs.head.model()] + models(rest));
            assert(all.take(1) =~= seq![errs.head.model()]);
            concat_one(errs.head.model());
        }
        for e in it: errs.tail
            invariant
                it.seq() == rest,
                all == seq![errs.head.model()] + models(rest),
                undefined.model() == concat(all.take(it.index() + 1)),
        {
            let ghost i = it.index() as int;
            proof {
                assert(all.take(i + 2).drop_last() =~= all.take(i + 1));
                assert(all.take(i + 2).last() == e.model());
            }
            extend_list(&mut undefined, e.0);
        }
        proof {
            assert(all.take(all.len() as int) =~= all);
        }
        ActionNotDefinedError(undefined)
    }
}

/// Moves the elements of a list behind those of a vector.
fn append_list<T>(items: &mut Vec<T>, list: NonEmpty<T>)
    ensures
        final(items)@ == old(items)@ + elements(list),
{
    let mut tail = list.tail;
    items.push(list.head);
    items.append(&mut tail);
    assert(items@ =~= old(items)@ + elements(list));
}

impl SchemaError {
    /// Several errors as one. Not all of them can be kept: undefined types are
    /// reported before undefined actions, and these before anything else, of which
    /// only the first is.
    pub fn join_nonempty(errs: NonEmpty<SchemaError>) -> (r: Self)
        ensures
            r.model() == joined(errs.model()),
    {
        let mut all: Vec<SchemaError> = Vec::new();
        append_list(&mut all, errs);
        let ghost errors = all@;
        assert(errors =~= elements(errs));
        let mut types: Vec<ConditionalName> = Vec::new();
        let mut actions: Vec<ActionEntityUID<ConditionalName>> = Vec::new();
        let mut first: Option<SchemaError> = None;
        for e in it: all
            invariant
                it.seq() == errors,
                types.model() == types_not_defined(models(errors.take(it.index() as int))),
                actions.model() == actions_not_defined(models(errors.take(it.index() as int))),
                types@.len() == 0 && actions@.len() == 0 ==> (match first {
                    Some(other) => it.index() > 0 && other == errors[0],
                    None => it.index() == 0,
                }),
        {
            let ghost i = it.index() as int;
            proof {
                assert(errors.take(i + 1) =~= errors.take(i).push(e));
                assert(models(errors.take(i + 1)).drop_last() =~= models(errors.take(i)));
                assert(models(errors.take(i + 1)).last() == e.model());
            }
            match e {
                SchemaError::TypeNotDefined(error) => {
                    append_list(&mut types, error.undefined_types);
                },
                SchemaError::ActionNotDefined(error) => {
                    append_list(&mut actions, error.0);
                },
                other => {
                    if first.is_none() {
                        first = Some(other);
                    }
                },
            }
        }
        proof {
            assert(errors.take(errors.len() as int) =~= errors);
        }
        match NonEmpty::from_vec(types) {
            Some(undefined_types) => SchemaError::TypeNotDefined(
                TypeNotDefinedError { undefined_types },
            ),
            None => match NonEmpty::from_vec(actions) {
                Some(undefined) => SchemaError::ActionNotDefined(ActionNotDefinedError(undefined)),
                None => first.unwrap(),
            },
        }
    }
}

} // verus!
