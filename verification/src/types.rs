//! The types that a validator works with.

use crate::model::Model;
use crate::names::{EntityType, Name, NameModel};
use crate::text::{chars_of, smol_clone};
use smol_str::SmolStr;
use vstd::prelude::*;

verus! {

broadcast use crate::model::group_models;

#[derive(Debug, Clone, Copy, PartialEq, Eq, Structural)]
pub enum Primitive {
    Bool,
    Long,
    String,
}

/// Whether a record may have attributes beyond those that its type lists.
#[derive(Debug, Clone, Copy, PartialEq, Eq, Structural)]
pub enum OpenTag {
    OpenAttributes,
    ClosedAttributes,
}

/// The type of an expression.
#[derive(Debug, PartialEq, Eq)]
pub enum Type {
    /// A boolean, an integer or a string.
    Primitive { primitive_type: Primitive },
    /// A set, with the type of its elements where it is known.
    SetOf { element_type: Option<Box<Type>> },
    /// An entity or a record.
    EntityOrRecord(EntityRecordKind),
    /// A value of an extension type.
    ExtensionType { name: Name },
}

#[derive(Debug, PartialEq, Eq)]
pub enum EntityRecordKind {
    /// A record with the given attributes.
    Record { attrs: Attributes, open_attributes: OpenTag },
    /// An entity of the given type.
    Entity(EntityType),
}

/// The attributes of a record, each under its name. No name occurs twice.
#[derive(Debug, PartialEq, Eq)]
pub struct Attributes {
    pub attrs: Vec<(SmolStr, AttributeType)>,
}

/// The type of an attribute, and whether the attribute has to be there.
#[derive(Debug, PartialEq, Eq)]
pub struct AttributeType {
    pub attr_type: Type,
    pub is_required: bool,
}

/// The type that a part of a schema denotes.
#[derive(Debug, PartialEq, Eq)]
pub struct ValidatorType {
    pub ty: Type,
}

#[verifier::ext_equal]
pub enum TypeModel {
    Primitive(Primitive),
    SetOf(Option<Box<TypeModel>>),
    Record { attrs: Seq<(Seq<char>, AttributeTypeModel)>, open: OpenTag },
    Entity(NameModel),
    Extension(NameModel),
}

#[verifier::ext_equal]
pub struct AttributeTypeModel {
    pub ty: TypeModel,
    pub required: bool,
}

pub open spec fn type_model(t: Type) -> TypeModel
    decreases t,
{
    match t {
        Type::Primitive { primitive_type } => TypeModel::Primitive(primitive_type),
        Type::SetOf { element_type } => TypeModel::SetOf(
            match element_type {
                Some(element) => Some(Box::new(type_model(*element))),
                None => None,
            },
        ),
        Type::EntityOrRecord(EntityRecordKind::Record { attrs, open_attributes }) => {
            TypeModel::Record {
                attrs: Seq::new(
                    attrs.attrs@.len(),
                    |i: int|
                        if 0 <= i < attrs.attrs@.len() {
                            (
                                chars_of(attrs.attrs@[i].0),
                                AttributeTypeModel {
                                    ty: type_model(attrs.attrs@[i].1.attr_type),
                                    required: attrs.attrs@[i].1.is_required,
                                },
                            )
                        } else {
                            arbitrary()
                        },
                ),
                open: open_attributes,
            }
        },
        Type::EntityOrRecord(EntityRecordKind::Entity(name)) => TypeModel::Entity(name.model()),
        Type::ExtensionType { name } => TypeModel::Extension(name.model()),
    }
}

impl Model for Type {
    type M = TypeModel;

    open spec fn model(&self) -> TypeModel {
        type_model(*self)
    }
}

impl Model for AttributeType {
    type M = AttributeTypeModel;

    open spec fn model(&self) -> AttributeTypeModel {
        AttributeTypeModel { ty: self.attr_type.model(), required: self.is_required }
    }
}

impl Model for Attributes {
    type M = Seq<(Seq<char>, AttributeTypeModel)>;

    open spec fn model(&self) -> Seq<(Seq<char>, AttributeTypeModel)> {
        self.attrs.model()
    }
}

impl Model for ValidatorType {
    type M = TypeModel;

    open spec fn model(&self) -> TypeModel {
        self.ty.model()
    }
}

/// Attributes that all have to be there.
pub open spec fn all_required(attrs: Seq<(Seq<char>, TypeModel)>) -> Seq<
    (Seq<char>, AttributeTypeModel),
> {
    Seq::new(
        attrs.len(),
        |i: int| (attrs[i].0, AttributeTypeModel { ty: attrs[i].1, required: true }),
    )
}

impl AttributeType {
    pub fn new(attr_type: Type, is_required: bool) -> (r: Self)
        ensures
            r.model() == (AttributeTypeModel { ty: attr_type.model(), required: is_required }),
    {
        AttributeType { attr_type, is_required }
    }
}

impl Clone for AttributeType {
    fn clone(&self) -> (r: Self)
        ensures
            r.model() == self.model(),
        decreases self,
    {
        AttributeType { attr_type: self.attr_type.clone(), is_required: self.is_required }
    }
}

impl Attributes {
    /// Attributes of the given types.
    pub fn with_attributes(attrs: Vec<(SmolStr, AttributeType)>) -> (r: Self)
        ensures
            r.model() == attrs.model(),
    {
        Attributes { attrs }
    }

    /// Attributes of the given types that all have to be there.
    pub fn with_required_attributes(attrs: Vec<(SmolStr, Type)>) -> (r: Self)
        ensures
            r.model() == all_required(attrs.model()),
    {
        let ghost all = attrs@;
        let mut out: Vec<(SmolStr, AttributeType)> = Vec::new();
        for entry in it: attrs
            invariant
                it.seq() == all,
                out@.len() == it.index(),
                forall|i: int|
                    #![trigger out@[i]]
                    0 <= i < out@.len() ==> out@[i].model() == all_required(attrs.model())[i],
                all == attrs@,
        {
            let (name, ty) = entry;
            out.push((name, AttributeType::new(ty, true)));
        }
        assert(out.model() =~= all_required(attrs.model()));
        Attributes { attrs: out }
    }
}

impl Clone for Attributes {
    fn clone(&self) -> (r: Self)
        ensures
            r.model() == self.model(),
        decreases self,
    {
        let mut out: Vec<(SmolStr, AttributeType)> = Vec::new();
        let mut i: usize = 0;
        while i < self.attrs.len()
            invariant
                i <= self.attrs@.len(),
                out@.len() == i,
                forall|j: int|
                    #![trigger out@[j]]
                    0 <= j < i ==> out@[j].model() == self.attrs@[j].model(),
            decreases self.attrs@.len() - i,
        {
            proof {
                let a = self.attrs;
                assert(decreases_to!(self => self.attrs));
                assert(decreases_to!(self.attrs => self.attrs@));
                assert(decreases_to!(self.attrs@ => self.attrs@[i as int]));
                assert(decreases_to!(self.attrs@[i as int] => self.attrs@[i as int].1));
            }
            out.push((smol_clone(&self.attrs[i].0), self.attrs[i].1.clone()));
            i = i + 1;
        }
        assert(out.model() =~= self.attrs.model());
        Attributes { attrs: out }
    }
}

impl Clone for Type {
    fn clone(&self) -> (r: Self)
        ensures
            r.model() == self.model(),
        decreases self,
    {
        match self {
            Type::Primitive { primitive_type } => Type::Primitive {
                primitive_type: *primitive_type,
            },
            Type::SetOf { element_type } => {
                match element_type {
                    Some(element) => Type::SetOf {
                        element_type: Some(Box::new((**element).clone())),
                    },
                    None => Type::SetOf { element_type: None },
                }
            },
            Type::EntityOrRecord(EntityRecordKind::Record { attrs, open_attributes }) => {
                let copy = attrs.clone();
                let r = Type::EntityOrRecord(
                    EntityRecordKind::Record { attrs: copy, open_attributes: *open_attributes },
                );
                proof {
                    record_model(copy, *open_attributes);
                    record_model(*attrs, *open_attributes);
                }
                r
            },
            Type::EntityOrRecord(EntityRecordKind::Entity(name)) => Type::EntityOrRecord(
                EntityRecordKind::Entity(name.clone()),
            ),
            Type::ExtensionType { name } => Type::ExtensionType { name: name.clone() },
        }
    }
}

impl Clone for ValidatorType {
    fn clone(&self) -> (r: Self)
        ensures
            r.model() == self.model(),
    {
        ValidatorType { ty: self.ty.clone() }
    }
}

/// The model of a record type in terms of the model of its attributes.
pub proof fn record_model(attrs: Attributes, open: OpenTag)
    ensures
        type_model(
            Type::EntityOrRecord(EntityRecordKind::Record { attrs, open_attributes: open }),
        ) == (TypeModel::Record { attrs: attrs.model(), open }),
{
    let t = Type::EntityOrRecord(EntityRecordKind::Record { attrs, open_attributes: open });
    assert(type_model(t)->attrs =~= attrs.model());
}

impl Type {
    pub fn primitive_boolean() -> (r: Type)
        ensures
            r.model() == TypeModel::Primitive(Primitive::Bool),
    {
        Type::Primitive { primitive_type: Primitive::Bool }
    }

    pub fn primitive_long() -> (r: Type)
        ensures
            r.model() == TypeModel::Primitive(Primitive::Long),
    {
        Type::Primitive { primitive_type: Primitive::Long }
    }

    pub fn primitive_string() -> (r: Type)
        ensures
            r.model() == TypeModel::Primitive(Primitive::String),
    {
        Type::Primitive { primitive_type: Primitive::String }
    }

    /// The type of sets of elements of the given type.
    pub fn set(element: Type) -> (r: Type)
        ensures
            r.model() == TypeModel::SetOf(Some(Box::new(element.model()))),
    {
        Type::SetOf { element_type: Some(Box::new(element)) }
    }

    /// The type of entities of the given entity type.
    pub fn named_entity_reference(name: EntityType) -> (r: Type)
        ensures
            r.model() == TypeModel::Entity(name.model()),
    {
        Type::EntityOrRecord(EntityRecordKind::Entity(name))
    }

    /// The type of values of the given extension type.
    pub fn extension(name: Name) -> (r: Type)
        ensures
            r.model() == TypeModel::Extension(name.model()),
    {
        Type::ExtensionType { name }
    }

    pub fn record_with_attributes(attrs: Attributes, open_attributes: OpenTag) -> (r: Type)
        ensures
            r.model() == (TypeModel::Record { attrs: attrs.model(), open: open_attributes }),
    {
        proof {
            record_model(attrs, open_attributes);
        }
        Type::EntityOrRecord(EntityRecordKind::Record { attrs, open_attributes })
    }

    pub fn record_with_required_attributes(
        attrs: Vec<(SmolStr, Type)>,
        open_attributes: OpenTag,
    ) -> (r: Type)
        ensures
            r.model() == (TypeModel::Record {
                attrs: all_required(attrs.model()),
                open: open_attributes,
            }),
    {
        Type::record_with_attributes(Attributes::with_required_attributes(attrs), open_attributes)
    }
}

} // verus!
