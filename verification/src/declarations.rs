//! The declarations of a schema as they are written.

use crate::action_uid::{ActionRef, ActionRefModel};
use crate::defs::AllDefs;
use crate::err::TypeNotDefinedError;
use crate::json_schema::{
    record_variant_model, type_qualified, type_resolved, RecordModel, RecordType, SchemaType, Type,
    TypeVariant, VariantModel,
};
use crate::model::{Duplicate, Model};
use crate::names::{namespace_model, CommonTypeId, InternalName, LocModel, MaybeLoc, UnreservedId};
use crate::raw_name::{ConditionalName, RawName};
use crate::value::{CedarValueJson, JsonModel};
use nonempty::NonEmpty;
use smol_str::SmolStr;
use vstd::prelude::*;

verus! {

broadcast use crate::model::group_models;

/// The type of the attributes of an entity or of a context: a record, or a
/// reference to a common type that is one.
#[derive(Debug, PartialEq, Eq)]
pub struct AttributesOrContext<N>(pub Type<N>);

impl<N: Model> Model for AttributesOrContext<N> {
    type M = SchemaType<N::M>;

    open spec fn model(&self) -> SchemaType<N::M> {
        self.0.model()
    }
}

/// The type of records without attributes.
pub open spec fn empty_record<N>() -> SchemaType<N> {
    SchemaType::Type {
        ty: VariantModel::Record(
            RecordModel { attributes: Seq::empty(), additional_attributes: false },
        ),
        loc: None,
    }
}

impl<N: Model> Default for AttributesOrContext<N> {
    /// The type of records without attributes.
    fn default() -> (r: Self)
        ensures
            r.model() == empty_record::<N::M>(),
    {
        let record = RecordType { attributes: Vec::new(), additional_attributes: false };
        proof {
            record_variant_model(record);
        }
        AttributesOrContext(Type::Type { ty: TypeVariant::Record(record), loc: None })
    }
}

impl<N: Model> AttributesOrContext<N> {
    /// The type itself.
    pub fn into_inner(self) -> (r: Type<N>)
        ensures
            r.model() == self.model(),
    {
        self.0
    }
}

impl<N: Duplicate> Clone for AttributesOrContext<N> {
    fn clone(&self) -> (r: Self)
        ensures
            r.model() == self.model(),
    {
        AttributesOrContext(self.0.clone())
    }
}

impl AttributesOrContext<RawName> {
    /// Makes each reference as it is meant inside the given namespace.
    pub fn conditionally_qualify_type_references(self, namespace: Option<&InternalName>) -> (r:
        AttributesOrContext<ConditionalName>)
        ensures
            r.model() == type_qualified(self.model(), namespace_model(namespace)),
    {
        AttributesOrContext(self.0.conditionally_qualify_type_references(namespace))
    }
}

impl AttributesOrContext<ConditionalName> {
    /// Replaces each reference by what it stands for.
    pub fn fully_qualify_type_references(self, all_defs: &AllDefs) -> (r: Result<
        AttributesOrContext<InternalName>,
        TypeNotDefinedError,
    >)
        ensures
            r.model() == type_resolved(self.model(), all_defs.model()),
    {
        match self.0.fully_qualify_type_references(all_defs) {
            Ok(ty) => Ok(AttributesOrContext(ty)),
            Err(e) => Err(e),
        }
    }
}

/// A declaration of a common type.
#[derive(Debug, PartialEq, Eq)]
pub struct CommonType<N> {
    pub ty: Type<N>,
    pub loc: MaybeLoc,
}

#[verifier::ext_equal]
pub struct CommonTypeModel<N> {
    pub ty: SchemaType<N>,
    pub loc: Option<LocModel>,
}

impl<N: Model> Model for CommonType<N> {
    type M = CommonTypeModel<N::M>;

    open spec fn model(&self) -> CommonTypeModel<N::M> {
        CommonTypeModel { ty: self.ty.model(), loc: self.loc.model() }
    }
}

/// A declaration of an entity type.
#[derive(Debug, PartialEq, Eq)]
pub struct EntityTypeDeclaration<N> {
    pub kind: EntityTypeKind<N>,
    pub loc: MaybeLoc,
}

#[derive(Debug, PartialEq, Eq)]
pub enum EntityTypeKind<N> {
    Standard(StandardEntityType<N>),
    /// An entity type whose entities are listed.
    Enum { choices: NonEmpty<SmolStr> },
}

#[derive(Debug, PartialEq, Eq)]
pub struct StandardEntityType<N> {
    /// The entity types that entities of this one can be members of.
    pub member_of_types: Vec<N>,
    /// The attributes.
    pub shape: AttributesOrContext<N>,
    /// The type of the tags, where there may be any.
    pub tags: Option<Type<N>>,
}

#[verifier::ext_equal]
pub struct EntityDeclarationModel<N> {
    pub kind: EntityKindModel<N>,
    pub loc: Option<LocModel>,
}

#[verifier::ext_equal]
pub enum EntityKindModel<N> {
    Standard { member_of_types: Seq<N>, shape: SchemaType<N>, tags: Option<SchemaType<N>> },
    Enum { choices: Seq<Seq<char>> },
}

impl<N: Model> Model for EntityTypeKind<N> {
    type M = EntityKindModel<N::M>;

    open spec fn model(&self) -> EntityKindModel<N::M> {
        match self {
            EntityTypeKind::Standard(ty) => EntityKindModel::Standard {
                member_of_types: ty.member_of_types.model(),
                shape: ty.shape.model(),
                tags: ty.tags.model(),
            },
            EntityTypeKind::Enum { choices } => EntityKindModel::Enum { choices: choices.model() },
        }
    }
}

impl<N: Model> Model for EntityTypeDeclaration<N> {
    type M = EntityDeclarationModel<N::M>;

    open spec fn model(&self) -> EntityDeclarationModel<N::M> {
        EntityDeclarationModel { kind: self.kind.model(), loc: self.loc.model() }
    }
}

/// What an action applies to, as a schema writes it.
#[derive(Debug, PartialEq, Eq)]
pub struct ApplySpec<N> {
    pub resource_types: Vec<N>,
    pub principal_types: Vec<N>,
    pub context: AttributesOrContext<N>,
}

#[verifier::ext_equal]
pub struct ApplyModel<N> {
    pub resource_types: Seq<N>,
    pub principal_types: Seq<N>,
    pub context: SchemaType<N>,
}

impl<N: Model> Model for ApplySpec<N> {
    type M = ApplyModel<N::M>;

    open spec fn model(&self) -> ApplyModel<N::M> {
        ApplyModel {
            resource_types: self.resource_types.model(),
            principal_types: self.principal_types.model(),
            context: self.context.model(),
        }
    }
}

/// A declaration of an action.
#[derive(Debug, PartialEq, Eq)]
pub struct ActionType<N> {
    /// The attributes, each under its name. No name occurs twice.
    pub attributes: Option<Vec<(SmolStr, CedarValueJson)>>,
    pub applies_to: Option<ApplySpec<N>>,
    /// The actions that this one is a member of.
    pub member_of: Option<Vec<ActionRef<N>>>,
    pub loc: MaybeLoc,
}

#[verifier::ext_equal]
pub struct ActionTypeModel<N> {
    pub attributes: Option<Seq<(Seq<char>, JsonModel)>>,
    pub applies_to: Option<ApplyModel<N>>,
    pub member_of: Option<Seq<ActionRefModel<N>>>,
    pub loc: Option<LocModel>,
}

impl<N: Model> Model for ActionType<N> {
    type M = ActionTypeModel<N::M>;

    open spec fn model(&self) -> ActionTypeModel<N::M> {
        ActionTypeModel {
            attributes: self.attributes.model(),
            applies_to: self.applies_to.model(),
            member_of: self.member_of.model(),
            loc: self.loc.model(),
        }
    }
}

/// The definition of a namespace, as a schema writes it.
#[derive(Debug, PartialEq, Eq)]
pub struct NamespaceDefinition<N> {
    pub common_types: Vec<(CommonTypeId, CommonType<N>)>,
    pub entity_types: Vec<(UnreservedId, EntityTypeDeclaration<N>)>,
    pub actions: Vec<(SmolStr, ActionType<N>)>,
}

#[verifier::ext_equal]
pub struct DefinitionModel<N> {
    pub common_types: Seq<(Seq<char>, CommonTypeModel<N>)>,
    pub entity_types: Seq<(Seq<char>, EntityDeclarationModel<N>)>,
    pub actions: Seq<(Seq<char>, ActionTypeModel<N>)>,
}

impl<N: Model> Model for NamespaceDefinition<N> {
    type M = DefinitionModel<N::M>;

    open spec fn model(&self) -> DefinitionModel<N::M> {
        DefinitionModel {
            common_types: self.common_types.model(),
            entity_types: self.entity_types.model(),
            actions: self.actions.model(),
        }
    }
}

/// What may be declared of actions.
#[derive(Debug, Clone, Copy, PartialEq, Eq, Structural)]
pub enum ActionBehavior {
    /// Actions may have attributes.
    PermitAttributes,
    /// Actions may not have attributes.
    ProhibitAttributes,
}

impl Default for ActionBehavior {
    /// Actions may not have attributes.
    fn default() -> (r: Self)
        ensures
            r == ActionBehavior::ProhibitAttributes,
    {
        ActionBehavior::ProhibitAttributes
    }
}

} // verus!
