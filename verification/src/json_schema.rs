//! The parts of a schema as they are written.
//!
//! The parameter `N` is the type of the references to entity types and common
//! types: [`RawName`] as they were written, [`ConditionalName`] while it is open
//! what they stand for, [`InternalName`] once that is settled.

use crate::defs::{AllDefs, DefsModel};
use crate::err::TypeNotDefinedError;
use crate::model::{Duplicate, Model};
use crate::names::{
    clone_loc, namespace_model, InternalName, LocModel, MaybeLoc, NameModel, UnreservedId,
};
use crate::outcome::{collected, collected_prefix, collected_push};
use crate::raw_name::{
    conditional, resolved, ConditionalModel, ConditionalName, RawName, ReferenceType,
};
use crate::text::{chars_of, smol_clone};
use smol_str::SmolStr;
use vstd::prelude::*;

verus! {

broadcast use crate::model::group_models;

/// A type as a schema writes it.
#[derive(Debug, PartialEq, Eq)]
pub enum Type<N> {
    /// One of the forms of types that the schema language has.
    Type { ty: TypeVariant<N>, loc: MaybeLoc },
    /// A reference to a common type.
    CommonTypeRef { name: N, loc: MaybeLoc },
}

/// The forms of types that the schema language has.
#[derive(Debug, PartialEq, Eq)]
#[allow(inconsistent_fields)]
pub enum TypeVariant<N> {
    String,
    Long,
    Boolean,
    SetOf { element: Box<Type<N>> },
    Record(RecordType<N>),
    /// A reference to an entity type.
    Entity { name: N },
    /// A reference to an entity type or a common type.
    EntityOrCommon { name: N },
    /// A reference to an extension type.
    Extension { name: UnreservedId },
}

/// The type of a record.
#[derive(Debug, PartialEq, Eq)]
pub struct RecordType<N> {
    /// The attributes, each under its name. No name occurs twice.
    pub attributes: Vec<(SmolStr, TypeOfAttribute<N>)>,
    /// Whether there may be further attributes.
    pub additional_attributes: bool,
}

/// The type of an attribute.
#[derive(Debug, PartialEq, Eq)]
pub struct TypeOfAttribute<N> {
    pub ty: Type<N>,
    /// Whether the attribute has to be there.
    pub required: bool,
}

#[verifier::ext_equal]
pub enum SchemaType<N> {
    Type { ty: VariantModel<N>, loc: Option<LocModel> },
    CommonTypeRef { name: N, loc: Option<LocModel> },
}

#[verifier::ext_equal]
#[allow(inconsistent_fields)]
pub enum VariantModel<N> {
    String,
    Long,
    Boolean,
    SetOf { element: Box<SchemaType<N>> },
    Record(RecordModel<N>),
    Entity { name: N },
    EntityOrCommon { name: N },
    Extension { name: Seq<char> },
}

#[verifier::ext_equal]
pub struct RecordModel<N> {
    pub attributes: Seq<(Seq<char>, AttributeModel<N>)>,
    pub additional_attributes: bool,
}

#[verifier::ext_equal]
pub struct AttributeModel<N> {
    pub ty: SchemaType<N>,
    pub required: bool,
}

pub open spec fn schema_type<N: Model>(t: Type<N>) -> SchemaType<N::M>
    decreases t,
{
    match t {
        Type::CommonTypeRef { name, loc } => SchemaType::CommonTypeRef {
            name: name.model(),
            loc: loc.model(),
        },
        Type::Type { ty, loc } => SchemaType::Type {
            ty: match ty {
                TypeVariant::String => VariantModel::String,
                TypeVariant::Long => VariantModel::Long,
                TypeVariant::Boolean => VariantModel::Boolean,
                TypeVariant::SetOf { element } => VariantModel::SetOf {
                    element: Box::new(schema_type(*element)),
                },
                TypeVariant::Record(record) => VariantModel::Record(
                    RecordModel {
                        attributes: Seq::new(
                            record.attributes@.len(),
                            |i: int|
                                if 0 <= i < record.attributes@.len() {
                                    (
                                        chars_of(record.attributes@[i].0),
                                        AttributeModel {
                                            ty: schema_type(record.attributes@[i].1.ty),
                                            required: record.attributes@[i].1.required,
                                        },
                                    )
                                } else {
                                    arbitrary()
                                },
                        ),
                        additional_attributes: record.additional_attributes,
                    },
                ),
                TypeVariant::Entity { name } => VariantModel::Entity { name: name.model() },
                TypeVariant::EntityOrCommon { name } => VariantModel::EntityOrCommon {
                    name: name.model(),
                },
                TypeVariant::Extension { name } => VariantModel::Extension { name: name.model() },
            },
            loc: loc.model(),
        },
    }
}

impl<N: Model> Model for Type<N> {
    type M = SchemaType<N::M>;

    open spec fn model(&self) -> SchemaType<N::M> {
        schema_type(*self)
    }
}

impl<N: Model> Model for TypeVariant<N> {
    type M = VariantModel<N::M>;

    open spec fn model(&self) -> VariantModel<N::M> {
        schema_type(Type::Type { ty: *self, loc: None })->ty
    }
}

impl<N: Model> Model for TypeOfAttribute<N> {
    type M = AttributeModel<N::M>;

    open spec fn model(&self) -> AttributeModel<N::M> {
        AttributeModel { ty: self.ty.model(), required: self.required }
    }
}

impl<N: Model> Model for RecordType<N> {
    type M = RecordModel<N::M>;

    open spec fn model(&self) -> RecordModel<N::M> {
        RecordModel {
            attributes: self.attributes.model(),
            additional_attributes: self.additional_attributes,
        }
    }
}

/// The model of a record type as a form of type.
pub proof fn record_variant_model<N: Model>(record: RecordType<N>)
    ensures
        TypeVariant::Record(record).model() == VariantModel::Record(record.model()),
{
    let ty = TypeVariant::Record(record).model();
    assert(ty->Record_0.attributes =~= record.model().attributes);
}

impl<N: Duplicate> Clone for Type<N> {
    fn clone(&self) -> (r: Self)
        ensures
            r.model() == self.model(),
        decreases self,
    {
        match self {
            Type::Type { ty, loc } => Type::Type { ty: ty.clone(), loc: clone_loc(loc) },
            Type::CommonTypeRef { name, loc } => Type::CommonTypeRef {
                name: name.duplicate(),
                loc: clone_loc(loc),
            },
        }
    }
}

impl<N: Duplicate> Duplicate for Type<N> {
    fn duplicate(&self) -> (r: Self) {
        self.clone()
    }
}

impl<N: Duplicate> Clone for TypeVariant<N> {
    fn clone(&self) -> (r: Self)
        ensures
            r.model() == self.model(),
        decreases self,
    {
        match self {
            TypeVariant::String => TypeVariant::String,
            TypeVariant::Long => TypeVariant::Long,
            TypeVariant::Boolean => TypeVariant::Boolean,
            TypeVariant::SetOf { element } => TypeVariant::SetOf {
                element: Box::new((**element).clone()),
            },
            TypeVariant::Record(record) => {
                let copy = record.clone();
                proof {
                    record_variant_model(*record);
                    record_variant_model(copy);
                }
                TypeVariant::Record(copy)
            },
            TypeVariant::Entity { name } => TypeVariant::Entity { name: name.duplicate() },
            TypeVariant::EntityOrCommon { name } => TypeVariant::EntityOrCommon {
                name: name.duplicate(),
            },
            TypeVariant::Extension { name } => TypeVariant::Extension { name: name.clone() },
        }
    }
}

impl<N: Duplicate> Clone for RecordType<N> {
    fn clone(&self) -> (r: Self)
        ensures
            r.model() == self.model(),
        decreases self,
    {
        let mut out: Vec<(SmolStr, TypeOfAttribute<N>)> = Vec::new();
        let mut i: usize = 0;
        while i < self.attributes.len()
            invariant
                i <= self.attributes@.len(),
                out@.len() == i,
                forall|j: int|
                    #![trigger out@[j]]
                    0 <= j < i ==> out@[j].model() == self.attributes@[j].model(),
            decreases self.attributes@.len() - i,
        {
            proof {
                assert(decreases_to!(self => self.attributes));
                assert(decreases_to!(self.attributes => self.attributes@));
                assert(decreases_to!(self.attributes@ => self.attributes@[i as int]));
                assert(decreases_to!(self.attributes@[i as int] => self.attributes@[i as int].1));
            }
            out.push((smol_clone(&self.attributes[i].0), self.attributes[i].1.clone()));
            i = i + 1;
        }
        assert(out.model() =~= self.attributes.model());
        RecordType { attributes: out, additional_attributes: self.additional_attributes }
    }
}

impl<N: Duplicate> Clone for TypeOfAttribute<N> {
    fn clone(&self) -> (r: Self)
        ensures
            r.model() == self.model(),
        decreases self,
    {
        TypeOfAttribute { ty: self.ty.clone(), required: self.required }
    }
}

/// The same type, with each reference made as it is meant inside `namespace`.
pub open spec fn type_qualified(
    t: SchemaType<NameModel>,
    namespace: Option<NameModel>,
) -> SchemaType<ConditionalModel>
    decreases t,
{
    match t {
        SchemaType::CommonTypeRef { name, loc } => SchemaType::CommonTypeRef {
            name: conditional(name, namespace, ReferenceType::Common),
            loc,
        },
        SchemaType::Type { ty, loc } => SchemaType::Type {
            ty: match ty {
                VariantModel::String => VariantModel::String,
                VariantModel::Long => VariantModel::Long,
                VariantModel::Boolean => VariantModel::Boolean,
                VariantModel::SetOf { element } => VariantModel::SetOf {
                    element: Box::new(type_qualified(*element, namespace)),
                },
                VariantModel::Record(record) => VariantModel::Record(
                    RecordModel {
                        attributes: Seq::new(
                            record.attributes.len(),
                            |i: int|
                                if 0 <= i < record.attributes.len() {
                                    (
                                        record.attributes[i].0,
                                        AttributeModel {
                                            ty: type_qualified(
                                                record.attributes[i].1.ty,
                                                namespace,
                                            ),
                                            required: record.attributes[i].1.required,
                                        },
                                    )
                                } else {
                                    arbitrary()
                                },
                        ),
                        additional_attributes: record.additional_attributes,
                    },
                ),
                VariantModel::Entity { name } => VariantModel::Entity {
                    name: conditional(name, namespace, ReferenceType::Entity),
                },
                VariantModel::EntityOrCommon { name } => VariantModel::EntityOrCommon {
                    name: conditional(name, namespace, ReferenceType::CommonOrEntity),
                },
                VariantModel::Extension { name } => VariantModel::Extension { name },
            },
            loc,
        },
    }
}

pub open spec fn variant_qualified(
    ty: VariantModel<NameModel>,
    namespace: Option<NameModel>,
) -> VariantModel<ConditionalModel> {
    type_qualified(SchemaType::Type { ty, loc: None }, namespace)->ty
}

pub open spec fn record_qualified(
    record: RecordModel<NameModel>,
    namespace: Option<NameModel>,
) -> RecordModel<ConditionalModel> {
    variant_qualified(VariantModel::Record(record), namespace)->Record_0
}

/// The same type, with each reference replaced by what it stands for; or, where
/// one stands for nothing, the first such reference.
pub open spec fn type_resolved(t: SchemaType<ConditionalModel>, defs: DefsModel) -> Result<
    SchemaType<NameModel>,
    Seq<ConditionalModel>,
>
    decreases t,
{
    match t {
        SchemaType::CommonTypeRef { name, loc } => match resolved(name, defs) {
            Ok(name) => Ok(SchemaType::CommonTypeRef { name, loc }),
            Err(undefined) => Err(undefined),
        },
        SchemaType::Type { ty, loc } => match ty {
            VariantModel::String => Ok(SchemaType::Type { ty: VariantModel::String, loc }),
            VariantModel::Long => Ok(SchemaType::Type { ty: VariantModel::Long, loc }),
            VariantModel::Boolean => Ok(SchemaType::Type { ty: VariantModel::Boolean, loc }),
            VariantModel::SetOf { element } => match type_resolved(*element, defs) {
                Ok(e) => Ok(
                    SchemaType::Type { ty: VariantModel::SetOf { element: Box::new(e) }, loc },
                ),
                Err(undefined) => Err(undefined),
            },
            VariantModel::Record(record) => match collected(
                attributes_resolved(record.attributes, defs),
            ) {
                Ok(attributes) => Ok(
                    SchemaType::Type {
                        ty: VariantModel::Record(
                            RecordModel {
                                attributes,
                                additional_attributes: record.additional_attributes,
                            },
                        ),
                        loc,
                    },
                ),
                Err(undefined) => Err(undefined),
            },
            VariantModel::Entity { name } => match resolved(name, defs) {
                Ok(name) => Ok(SchemaType::Type { ty: VariantModel::Entity { name }, loc }),
                Err(undefined) => Err(undefined),
            },
            VariantModel::EntityOrCommon { name } => match resolved(name, defs) {
                Ok(name) => Ok(
                    SchemaType::Type { ty: VariantModel::EntityOrCommon { name }, loc },
                ),
                Err(undefined) => Err(undefined),
            },
            VariantModel::Extension { name } => Ok(
                SchemaType::Type { ty: VariantModel::Extension { name }, loc },
            ),
        },
    }
}

/// An attribute of the given name whose type is what came of a step.
pub open spec fn named_attribute<N, E>(
    name: Seq<char>,
    ty: Result<SchemaType<N>, E>,
    required: bool,
) -> Result<(Seq<char>, AttributeModel<N>), E> {
    match ty {
        Ok(ty) => Ok((name, AttributeModel { ty, required })),
        Err(error) => Err(error),
    }
}

pub open spec fn variant_resolved(ty: VariantModel<ConditionalModel>, defs: DefsModel) -> Result<
    VariantModel<NameModel>,
    Seq<ConditionalModel>,
> {
    match type_resolved(SchemaType::Type { ty, loc: None }, defs) {
        Ok(t) => Ok(t->ty),
        Err(undefined) => Err(undefined),
    }
}

pub open spec fn record_resolved(record: RecordModel<ConditionalModel>, defs: DefsModel) -> Result<
    RecordModel<NameModel>,
    Seq<ConditionalModel>,
> {
    match variant_resolved(VariantModel::Record(record), defs) {
        Ok(ty) => Ok(ty->Record_0),
        Err(undefined) => Err(undefined),
    }
}

/// What becomes of each attribute of a record when references are resolved.
pub open spec fn attributes_resolved(
    attributes: Seq<(Seq<char>, AttributeModel<ConditionalModel>)>,
    defs: DefsModel,
) -> Seq<Result<(Seq<char>, AttributeModel<NameModel>), Seq<ConditionalModel>>>
    decreases attributes,
{
    Seq::new(
        attributes.len(),
        |i: int|
            if 0 <= i < attributes.len() {
                named_attribute(
                    attributes[i].0,
                    type_resolved(attributes[i].1.ty, defs),
                    attributes[i].1.required,
                )
            } else {
                arbitrary()
            },
    )
}

/// What becomes of one attribute when references are resolved.
pub proof fn attribute_resolved(
    attributes: Seq<(Seq<char>, AttributeModel<ConditionalModel>)>,
    defs: DefsModel,
    i: int,
)
    requires
        0 <= i < attributes.len(),
    ensures
        attributes_resolved(attributes, defs).len() == attributes.len(),
        attributes_resolved(attributes, defs)[i] == named_attribute(
            attributes[i].0,
            type_resolved(attributes[i].1.ty, defs),
            attributes[i].1.required,
        ),
{
}

impl Type<RawName> {
    /// Makes each reference as it is meant inside the given namespace.
    pub fn conditionally_qualify_type_references(self, namespace: Option<&InternalName>) -> (r: Type<
        ConditionalName,
    >)
        ensures
            r.model() == type_qualified(self.model(), namespace_model(namespace)),
        decreases self,
    {
        match self {
            Type::Type { ty, loc } => Type::Type {
                ty: ty.conditionally_qualify_type_references(namespace),
                loc,
            },
            Type::CommonTypeRef { name, loc } => Type::CommonTypeRef {
                name: name.conditionally_qualify_with(namespace, ReferenceType::Common),
                loc,
            },
        }
    }
}

impl TypeVariant<RawName> {
    /// Makes each reference as it is meant inside the given namespace.
    pub fn conditionally_qualify_type_references(self, namespace: Option<&InternalName>) -> (r:
        TypeVariant<ConditionalName>)
        ensures
            r.model() == variant_qualified(self.model(), namespace_model(namespace)),
        decreases self,
    {
        match self {
            TypeVariant::String => TypeVariant::String,
            TypeVariant::Long => TypeVariant::Long,
            TypeVariant::Boolean => TypeVariant::Boolean,
            TypeVariant::SetOf { element } => TypeVariant::SetOf {
                element: Box::new((*element).conditionally_qualify_type_references(namespace)),
            },
            TypeVariant::Record(record) => {
                let qualified = record.conditionally_qualify_type_references(namespace);
                proof {
                    record_variant_model(record);
                    record_variant_model(qualified);
                }
                TypeVariant::Record(qualified)
            },
            TypeVariant::Entity { name } => TypeVariant::Entity {
                name: name.conditionally_qualify_with(namespace, ReferenceType::Entity),
            },
            TypeVariant::EntityOrCommon { name } => TypeVariant::EntityOrCommon {
                name: name.conditionally_qualify_with(
                    namespace,
                    ReferenceType::CommonOrEntity,
                ),
            },
            TypeVariant::Extension { name } => TypeVariant::Extension { name },
        }
    }
}

impl RecordType<RawName> {
    /// Makes each reference as it is meant inside the given namespace.
    pub fn conditionally_qualify_type_references(self, namespace: Option<&InternalName>) -> (r:
        RecordType<ConditionalName>)
        ensures
            r.model() == record_qualified(self.model(), namespace_model(namespace)),
        decreases self,
    {
        let ghost all = self.attributes@;
        let ghost result = record_qualified(self.model(), namespace_model(namespace));
        let mut out: Vec<(SmolStr, TypeOfAttribute<ConditionalName>)> = Vec::new();
        for entry in it: self.attributes
            invariant
                it.seq() == all,
                all == self.attributes@,
                result == record_qualified(self.model(), namespace_model(namespace)),
                out@.len() == it.index(),
                forall|i: int|
                    #![trigger out@[i]]
                    0 <= i < out@.len() ==> out@[i].model() == result.attributes[i],
        {
            let ghost i = it.index() as int;
            let (name, attribute) = entry;
            proof {
                assert(decreases_to!(self => self.attributes));
                assert(decreases_to!(self.attributes => self.attributes@));
                assert(decreases_to!(self.attributes@ => self.attributes@[i]));
                assert(decreases_to!(self.attributes@[i] => self.attributes@[i].1));
                assert(decreases_to!(self.attributes@[i].1 => self.attributes@[i].1.ty));
                assert(self.model().attributes[i] == entry.model());
            }
            out.push(
                (
                    name,
                    TypeOfAttribute {
                        ty: attribute.ty.conditionally_qualify_type_references(namespace),
                        required: attribute.required,
                    },
                ),
            );
        }
        let r = RecordType {
            attributes: out,
            additional_attributes: self.additional_attributes,
        };
        assert(r.model().attributes =~= result.attributes);
        r
    }
}

impl Type<ConditionalName> {
    /// Replaces each reference by what it stands for.
    ///
    /// `all_defs` needs to contain the full set of all fully-qualified typenames
    /// and actions that are defined in the schema (in all schema fragments).
    pub fn fully_qualify_type_references(self, all_defs: &AllDefs) -> (r: Result<
        Type<InternalName>,
        TypeNotDefinedError,
    >)
        ensures
            r.model() == type_resolved(self.model(), all_defs.model()),
        decreases self,
    {
        match self {
            Type::Type { ty, loc } => match ty.fully_qualify_type_references(all_defs) {
                Ok(ty) => Ok(Type::Type { ty, loc }),
                Err(e) => Err(e),
            },
            Type::CommonTypeRef { name, loc } => match name.resolve(all_defs) {
                Ok(name) => Ok(Type::CommonTypeRef { name, loc }),
                Err(e) => Err(e),
            },
        }
    }
}

impl TypeVariant<ConditionalName> {
    /// Replaces each reference by what it stands for.
    pub fn fully_qualify_type_references(self, all_defs: &AllDefs) -> (r: Result<
        TypeVariant<InternalName>,
        TypeNotDefinedError,
    >)
        ensures
            r.model() == variant_resolved(self.model(), all_defs.model()),
        decreases self,
    {
        match self {
            TypeVariant::String => Ok(TypeVariant::String),
            TypeVariant::Long => Ok(TypeVariant::Long),
            TypeVariant::Boolean => Ok(TypeVariant::Boolean),
            TypeVariant::SetOf { element } => match (*element).fully_qualify_type_references(
                all_defs,
            ) {
                Ok(element) => Ok(TypeVariant::SetOf { element: Box::new(element) }),
                Err(e) => Err(e),
            },
            TypeVariant::Record(record) => {
                proof {
                    record_variant_model(record);
                }
                match record.fully_qualify_type_references(all_defs) {
                    Ok(resolved) => {
                        proof {
                            record_variant_model(resolved);
                        }
                        Ok(TypeVariant::Record(resolved))
                    },
                    Err(e) => Err(e),
                }
            },
            TypeVariant::Entity { name } => match name.resolve(all_defs) {
                Ok(name) => Ok(TypeVariant::Entity { name }),
                Err(e) => Err(e),
            },
            TypeVariant::EntityOrCommon { name } => match name.resolve(all_defs) {
                Ok(name) => Ok(TypeVariant::EntityOrCommon { name }),
                Err(e) => Err(e),
            },
            TypeVariant::Extension { name } => Ok(TypeVariant::Extension { name }),
        }
    }
}

impl RecordType<ConditionalName> {
    /// Replaces each reference by what it stands for.
    pub fn fully_qualify_type_references(self, all_defs: &AllDefs) -> (r: Result<
        RecordType<InternalName>,
        TypeNotDefinedError,
    >)
        ensures
            r.model() == record_resolved(self.model(), all_defs.model()),
        decreases self,
    {
        let ghost all = self.attributes@;
        let ghost steps = attributes_resolved(self.model().attributes, all_defs.model());
        let mut out: Vec<(SmolStr, TypeOfAttribute<InternalName>)> = Vec::new();
        proof {
            assert(steps.take(0) =~= Seq::empty());
        }
        for entry in it: self.attributes
            invariant
                it.seq() == all,
                all == self.attributes@,
                steps == attributes_resolved(self.model().attributes, all_defs.model()),
                collected(steps) matches Err(e) ==> record_resolved(self.model(), all_defs.model())
                    == Err::<RecordModel<NameModel>, Seq<ConditionalModel>>(e),
                collected(steps.take(it.index() as int)) == Ok::<
                    Seq<(Seq<char>, AttributeModel<NameModel>)>,
                    Seq<ConditionalModel>,
                >(out.model()),
        {
            let ghost i = it.index() as int;
            let (name, attribute) = entry;
            proof {
                assert(decreases_to!(self => self.attributes));
                assert(decreases_to!(self.attributes => self.attributes@));
                assert(decreases_to!(self.attributes@ => self.attributes@[i]));
                assert(decreases_to!(self.attributes@[i] => self.attributes@[i].1));
                assert(decreases_to!(self.attributes@[i].1 => self.attributes@[i].1.ty));
                assert(self.model().attributes[i] == entry.model());
                attribute_resolved(self.model().attributes, all_defs.model(), i);
                collected_push(steps, i);
            }
            match attribute.ty.fully_qualify_type_references(all_defs) {
                Ok(ty) => {
                    out.push((name, TypeOfAttribute { ty, required: attribute.required }));
                },
                Err(e) => {
                    proof {
                        collected_prefix(steps, i + 1);
                    }
                    return Err(e);
                },
            }
        }
        proof {
            assert(steps.take(all.len() as int) =~= steps);
        }
        Ok(
            RecordType {
                attributes: out,
                additional_attributes: self.additional_attributes,
            },
        )
    }
}

} // verus!
