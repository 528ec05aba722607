//! That what the library works on is seen as it is: nothing in it is passed over.

use crate::declarations::{
    ActionType, ApplySpec, CommonType, EntityKindModel, EntityTypeDeclaration, EntityTypeKind,
    NamespaceDefinition,
};
use crate::defs::AllDefs;
use crate::entity_types::{EntityTypeFragment, FragmentModel};
use crate::json_schema::{SchemaType, Type, TypeVariant, VariantModel};
use crate::keyed::{has_key, Keyed};
use crate::laws::fragments::{same_name, same_name_same_components};
use crate::model::Model;
use crate::names::{EntityUID, InternalName, NameModel, UidModel};
use crate::text::chars_of;
use crate::types::{self, EntityRecordKind, TypeModel};
use crate::value::{
    expr_models, json_models, value_models, CedarValueJson, ExprModel, JsonModel, Literal,
    LiteralModel, PartialValue, PartialValueModel, RestrictedExpr, Value, ValueModel,
};
use vstd::prelude::*;

verus! {

broadcast use crate::model::group_models;

/// What is defined as an entity type, a common type or an action is what is listed as such,
/// and nothing else.
pub proof fn definitions_are_those_listed(defs: AllDefs, name: NameModel, eid: Seq<char>)
    ensures
        defs.model().entity.contains(name.path.push(name.id)) <==> exists|i: int|
            0 <= i < defs.entity_defs@.len() && same_name(
                (#[trigger] defs.entity_defs@[i]).model(),
                name,
            ),
        defs.model().common.contains(name.path.push(name.id)) <==> exists|i: int|
            0 <= i < defs.common_defs@.len() && same_name(
                (#[trigger] defs.common_defs@[i]).model(),
                name,
            ),
        defs.model().action.contains((name.path.push(name.id), eid)) <==> exists|i: int|
            0 <= i < defs.action_defs@.len() && same_name(
                (#[trigger] defs.action_defs@[i]).model().ty,
                name,
            ) && defs.action_defs@[i].model().eid == eid,
{
    listed_where_the_key_is(defs.entity_defs, name);
    listed_where_the_key_is(defs.common_defs, name);
    let m = defs.action_defs.model();
    let key = (name.path.push(name.id), eid);
    if has_key::<EntityUID>(m, key) {
        let i = choose|i: int| 0 <= i < m.len() && EntityUID::key(#[trigger] m[i]) == key;
        assert(m[i] == defs.action_defs@[i].model());
        same_name_same_components(m[i].ty, name);
    }
    if exists|i: int|
        0 <= i < defs.action_defs@.len() && same_name(
            (#[trigger] defs.action_defs@[i]).model().ty,
            name,
        ) && defs.action_defs@[i].model().eid == eid {
        let i = choose|i: int|
            0 <= i < defs.action_defs@.len() && same_name(
                (#[trigger] defs.action_defs@[i]).model().ty,
                name,
            ) && defs.action_defs@[i].model().eid == eid;
        assert(m[i] == defs.action_defs@[i].model());
        same_name_same_components(m[i].ty, name);
        assert(EntityUID::key(m[i]) == key);
    }
}

proof fn listed_where_the_key_is(names: Vec<InternalName>, name: NameModel)
    ensures
        has_key::<InternalName>(names.model(), name.path.push(name.id)) <==> exists|i: int|
            0 <= i < names@.len() && same_name((#[trigger] names@[i]).model(), name),
{
    let m = names.model();
    let key = name.path.push(name.id);
    if has_key::<InternalName>(m, key) {
        let i = choose|i: int| 0 <= i < m.len() && InternalName::key(#[trigger] m[i]) == key;
        assert(m[i] == names@[i].model());
        same_name_same_components(m[i], name);
    }
    if exists|i: int| 0 <= i < names@.len() && same_name((#[trigger] names@[i]).model(), name) {
        let i = choose|i: int|
            0 <= i < names@.len() && same_name((#[trigger] names@[i]).model(), name);
        assert(m[i] == names@[i].model());
        same_name_same_components(m[i], name);
        assert(InternalName::key(m[i]) == key);
    }
}

/// A name is seen with its path, its identifier and its place; an entity with its type and
/// its identifier.
pub proof fn names_are_seen_as_they_are(name: InternalName, uid: EntityUID)
    ensures
        name.model().path == name.path.model(),
        name.model().id == chars_of(name.id.text),
        name.model().loc == name.loc.model(),
        uid.model() == (UidModel { ty: uid.ty.model(), eid: chars_of(uid.eid) }),
{
}

/// A type of a schema is seen in its form, with all its parts.
pub proof fn types_are_seen_as_written<N: Model>(t: Type<N>)
    ensures
        (match t {
            Type::CommonTypeRef { name, loc } => t.model() == (SchemaType::CommonTypeRef {
                name: name.model(),
                loc: loc.model(),
            }),
            Type::Type { ty, loc } => {
                &&& t.model() == (SchemaType::Type { ty: ty.model(), loc: loc.model() })
                &&& match ty {
                    TypeVariant::String => ty.model() == VariantModel::<N::M>::String,
                    TypeVariant::Long => ty.model() == VariantModel::<N::M>::Long,
                    TypeVariant::Boolean => ty.model() == VariantModel::<N::M>::Boolean,
                    TypeVariant::SetOf { element } => ty.model() == (VariantModel::SetOf {
                        element: Box::new(element.model()),
                    }),
                    TypeVariant::Record(record) => {
                        &&& ty.model() matches VariantModel::Record(seen)
                        &&& seen.additional_attributes == record.additional_attributes
                        &&& seen.attributes.len() == record.attributes@.len()
                        &&& forall|i: int|
                            0 <= i < seen.attributes.len() ==> {
                                &&& (#[trigger] seen.attributes[i]).0 == chars_of(
                                    record.attributes@[i].0,
                                )
                                &&& seen.attributes[i].1.ty == record.attributes@[i].1.ty.model()
                                &&& seen.attributes[i].1.required
                                    == record.attributes@[i].1.required
                            }
                    },
                    TypeVariant::Entity { name } => ty.model() == (VariantModel::Entity {
                        name: name.model(),
                    }),
                    TypeVariant::EntityOrCommon { name } => ty.model() == (
                    VariantModel::EntityOrCommon { name: name.model() }),
                    TypeVariant::Extension { name } => ty.model() == (VariantModel::<
                        N::M,
                    >::Extension { name: name.model() }),
                }
            },
        }),
{
}

/// A type of the validator is seen in its form, with all its parts.
pub proof fn validator_types_are_seen_as_they_are(t: types::Type)
    ensures
        (match t {
            types::Type::Primitive { primitive_type } => t.model() == TypeModel::Primitive(
                primitive_type,
            ),
            types::Type::SetOf { element_type: Some(element) } => t.model() == TypeModel::SetOf(
                Some(Box::new(element.model())),
            ),
            types::Type::SetOf { element_type: None } => t.model() == TypeModel::SetOf(None),
            types::Type::EntityOrRecord(EntityRecordKind::Record { attrs, open_attributes }) => {
                &&& t.model() matches TypeModel::Record { attrs: seen, open }
                &&& open == open_attributes
                &&& seen.len() == attrs.attrs@.len()
                &&& forall|i: int|
                    0 <= i < seen.len() ==> {
                        &&& (#[trigger] seen[i]).0 == chars_of(attrs.attrs@[i].0)
                        &&& seen[i].1.ty == attrs.attrs@[i].1.attr_type.model()
                        &&& seen[i].1.required == attrs.attrs@[i].1.is_required
                    }
            },
            types::Type::EntityOrRecord(EntityRecordKind::Entity(name)) => t.model()
                == TypeModel::Entity(name.model()),
            types::Type::ExtensionType { name } => t.model() == TypeModel::Extension(name.model()),
        }),
{
}

/// What is declared is seen with all that is written: common types, entity types and actions,
/// each with its parts and its place.
pub proof fn declarations_are_seen_as_written<N: Model>(
    common_type: CommonType<N>,
    entity_type: EntityTypeDeclaration<N>,
    applies_to: ApplySpec<N>,
    action: ActionType<N>,
    definition: NamespaceDefinition<N>,
)
    ensures
        common_type.model().ty == common_type.ty.model(),
        common_type.model().loc == common_type.loc.model(),
        entity_type.model().loc == entity_type.loc.model(),
        (match entity_type.kind {
            EntityTypeKind::Enum { choices } => entity_type.model().kind == (EntityKindModel::<
                N::M,
            >::Enum { choices: choices.model() }),
            EntityTypeKind::Standard(ty) => entity_type.model().kind == (
            EntityKindModel::Standard {
                member_of_types: ty.member_of_types.model(),
                shape: ty.shape.0.model(),
                tags: ty.tags.model(),
            }),
        }),
        applies_to.model().principal_types == applies_to.principal_types.model(),
        applies_to.model().resource_types == applies_to.resource_types.model(),
        applies_to.model().context == applies_to.context.0.model(),
        action.model().attributes == action.attributes.model(),
        action.model().applies_to == action.applies_to.model(),
        action.model().member_of == action.member_of.model(),
        action.model().loc == action.loc.model(),
        definition.model().common_types == definition.common_types.model(),
        definition.model().entity_types == definition.entity_types.model(),
        definition.model().actions == definition.actions.model(),
{
}

/// A fragment is seen with its attributes, its parents and its tags, or its choices.
pub proof fn fragments_are_seen_as_they_are<N: Model>(fragment: EntityTypeFragment<N>)
    ensures
        (match fragment {
            EntityTypeFragment::Standard { attributes, parents, tags } => fragment.model() == (
            FragmentModel::Standard {
                attributes: attributes.0.model(),
                parents: parents.model(),
                tags: tags.model(),
            }),
            EntityTypeFragment::Enum(choices) => fragment.model() == FragmentModel::<N::M>::Enum(
                choices.model(),
            ),
        }),
{
}

/// A literal is seen as what it is.
pub proof fn literals_are_seen_as_they_are(literal: Literal)
    ensures
        (match literal {
            Literal::Bool(b) => literal.model() == LiteralModel::Bool(b),
            Literal::Long(n) => literal.model() == LiteralModel::Long(n),
            Literal::String(s) => literal.model() == LiteralModel::String(chars_of(s)),
            Literal::EntityUID(uid) => literal.model() == LiteralModel::EntityUID(uid.model()),
        }),
{
}

/// A value as it is written, an expression and a value are seen in their forms, with all
/// their parts.
pub proof fn values_are_seen_as_they_are(
    json: CedarValueJson,
    expr: RestrictedExpr,
    value: Value,
    partial: PartialValue,
)
    ensures
        (match json {
            CedarValueJson::Null => json.model() == JsonModel::Null,
            CedarValueJson::Bool(b) => json.model() == JsonModel::Bool(b),
            CedarValueJson::Long(n) => json.model() == JsonModel::Long(n),
            CedarValueJson::String(s) => json.model() == JsonModel::String(chars_of(s)),
            CedarValueJson::SetOf(items) => json.model() == JsonModel::SetOf(items.model()),
            CedarValueJson::Record(fields) => json.model() == JsonModel::Record(fields.model()),
            CedarValueJson::EntityEscape { entity } => json.model() == JsonModel::EntityEscape(
                entity.model(),
            ),
            CedarValueJson::ExprEscape { expr } => json.model() == JsonModel::ExprEscape(
                chars_of(expr),
            ),
            CedarValueJson::ExtnEscape { extn } => json.model() == (JsonModel::ExtnEscape {
                ext_fn: extn.ext_fn.model(),
                args: extn.args.model(),
            }),
        }),
        (match expr {
            RestrictedExpr::Lit(literal) => expr.model() == ExprModel::Lit(literal.model()),
            RestrictedExpr::SetOf(items) => expr.model() == ExprModel::SetOf(items.model()),
            RestrictedExpr::Record(fields) => expr.model() == ExprModel::Record(fields.model()),
            RestrictedExpr::Call { name, args } => expr.model() == (ExprModel::Call {
                name: name.model(),
                args: args.model(),
            }),
        }),
        (match value {
            Value::Lit(literal) => value.model() == ValueModel::Lit(literal.model()),
            Value::SetOf(items) => value.model() == ValueModel::SetOf(items.model()),
            Value::Record(fields) => value.model() == ValueModel::Record(fields.model()),
            Value::Extension { typename, text } => value.model() == (ValueModel::Extension {
                typename: typename.model(),
                text: chars_of(text),
            }),
        }),
        (match partial {
            PartialValue::Value(value) => partial.model() == PartialValueModel::Value(
                value.model(),
            ),
            PartialValue::Residual(expr) => partial.model() == PartialValueModel::Residual(
                expr.model(),
            ),
        }),
{
    json_models();
    expr_models();
    value_models();
}

} // verus!
