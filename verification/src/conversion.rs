//! From the types of a schema, with full names, to those that a validator works
//! with.

use crate::err::{
    ErrorModel, SchemaError, TypeNotDefinedError, UnknownExtensionTypeError, UnsupportedFeature,
    UnsupportedFeatureError,
};
use crate::extensions::{texts_of, Extensions};
use crate::fuzzy_match::{fuzzy_search, suggestion};
use crate::json_schema::{
    record_variant_model, AttributeModel, RecordType, SchemaType, Type, TypeOfAttribute,
    TypeVariant, VariantModel,
};
use crate::keyed::{entry_at, has_key, position};
use crate::model::Model;
use crate::names::{
    entity_type_of, internal_name_to_entity_type, simple_name, InternalName, LocModel, MaybeLoc,
    Name, NameModel,
};
use crate::outcome::{collected, collected_prefix, collected_push};
use crate::raw_name::{unconditional, ConditionalName, ReferenceType};
use crate::text::chars_of;
use crate::types;
use crate::types::{
    AttributeType, AttributeTypeModel, Attributes, OpenTag, Primitive, TypeModel, ValidatorType,
};
use crate::unresolved::{CommonTypeTable, WithUnresolvedCommonTypeRefs};
use nonempty::NonEmpty;
use smol_str::SmolStr;
use vstd::prelude::*;

verus! {

broadcast use crate::model::group_models;

/// Whether a type can be converted, and if not, why not: the first open record,
/// entity type with the reserved identifier in its name or unknown extension type in
/// it.
pub open spec fn convertible(t: SchemaType<NameModel>, extensions: Seq<NameModel>) -> Result<
    (),
    ErrorModel,
>
    decreases t,
{
    match t {
        SchemaType::CommonTypeRef { .. } => Ok(()),
        SchemaType::Type { ty, .. } => match ty {
            VariantModel::SetOf { element } => convertible(*element, extensions),
            VariantModel::Record(record) => if record.additional_attributes {
                Err(ErrorModel::OpenRecordsAndEntities)
            } else {
                match collected(attributes_convertible(record.attributes, extensions)) {
                    Ok(_) => Ok(()),
                    Err(error) => Err(error),
                }
            },
            VariantModel::Entity { name } => match entity_type_of(name) {
                Ok(_) => Ok(()),
                Err(name) => Err(ErrorModel::ReservedName(name)),
            },
            VariantModel::Extension { name } => if has_key::<Name>(
                extensions,
                simple_name(name, None).components(),
            ) {
                Ok(())
            } else {
                Err(
                    ErrorModel::UnknownExtensionType {
                        actual: simple_name(name, None),
                        suggested_replacement: suggestion(
                            simple_name(name, None).text(),
                            texts_of(extensions),
                        ),
                    },
                )
            },
            _ => Ok(()),
        },
    }
}

/// Whether the type of each attribute can be converted.
pub open spec fn attributes_convertible(
    attributes: Seq<(Seq<char>, AttributeModel<NameModel>)>,
    extensions: Seq<NameModel>,
) -> Seq<Result<(), ErrorModel>>
    decreases attributes,
{
    Seq::new(
        attributes.len(),
        |i: int|
            if 0 <= i < attributes.len() {
                convertible(attributes[i].1.ty, extensions)
            } else {
                arbitrary()
            },
    )
}

/// Whether the common types are needed to tell what a type denotes.
pub open spec fn needs_common_types(t: SchemaType<NameModel>) -> bool
    decreases t,
{
    match t {
        SchemaType::CommonTypeRef { .. } => true,
        SchemaType::Type { ty, .. } => match ty {
            VariantModel::SetOf { element } => needs_common_types(*element),
            VariantModel::Record(_) => true,
            VariantModel::EntityOrCommon { .. } => true,
            _ => false,
        },
    }
}

/// The place that is kept for a type that was written at `loc`. None is kept for
/// records and extension types.
pub open spec fn kept_place(t: SchemaType<NameModel>, loc: Option<LocModel>) -> Option<LocModel>
    decreases t,
{
    match t {
        SchemaType::CommonTypeRef { .. } => loc,
        SchemaType::Type { ty, .. } => match ty {
            VariantModel::SetOf { element } => kept_place(*element, loc),
            VariantModel::Record(_) => None,
            VariantModel::Extension { .. } => None,
            _ => loc,
        },
    }
}

/// The error for a reference to a common type that is not in the table.
pub open spec fn missing_common_type(name: NameModel) -> ErrorModel {
    ErrorModel::TypeNotDefined(seq![unconditional(name, ReferenceType::Common)])
}

/// The type that a type of a schema denotes where the common types are those of
/// `table`. A reference to a common type that is not among them is not defined; one
/// that may be to an entity type as well is taken to be to that.
pub open spec fn denoted(
    t: SchemaType<NameModel>,
    table: Seq<(NameModel, TypeModel)>,
) -> Result<TypeModel, ErrorModel>
    decreases t,
{
    match t {
        SchemaType::CommonTypeRef { name, .. } => match entry_at::<InternalName, TypeModel>(
            table,
            name.components(),
        ) {
            Some((_, ty)) => Ok(ty),
            None => Err(missing_common_type(name)),
        },
        SchemaType::Type { ty, .. } => match ty {
            VariantModel::String => Ok(TypeModel::Primitive(Primitive::String)),
            VariantModel::Long => Ok(TypeModel::Primitive(Primitive::Long)),
            VariantModel::Boolean => Ok(TypeModel::Primitive(Primitive::Bool)),
            VariantModel::SetOf { element } => match denoted(*element, table) {
                Ok(element) => Ok(TypeModel::SetOf(Some(Box::new(element)))),
                Err(error) => Err(error),
            },
            VariantModel::Record(record) => match collected(
                attributes_denoted(record.attributes, table),
            ) {
                Ok(attrs) => Ok(
                    TypeModel::Record { attrs, open: open_tag(record.additional_attributes) },
                ),
                Err(error) => Err(error),
            },
            VariantModel::Entity { name } => Ok(TypeModel::Entity(name)),
            VariantModel::EntityOrCommon { name } => match entry_at::<InternalName, TypeModel>(
                table,
                name.components(),
            ) {
                Some((_, ty)) => Ok(ty),
                None => match entity_type_of(name) {
                    Ok(name) => Ok(TypeModel::Entity(name)),
                    Err(name) => Err(ErrorModel::ReservedName(name)),
                },
            },
            VariantModel::Extension { name } => Ok(TypeModel::Extension(simple_name(name, None))),
        },
    }
}

/// What each attribute denotes.
pub open spec fn attributes_denoted(
    attributes: Seq<(Seq<char>, AttributeModel<NameModel>)>,
    table: Seq<(NameModel, TypeModel)>,
) -> Seq<Result<(Seq<char>, AttributeTypeModel), ErrorModel>>
    decreases attributes,
{
    Seq::new(
        attributes.len(),
        |i: int|
            if 0 <= i < attributes.len() {
                typed_attribute(
                    attributes[i].0,
                    denoted(attributes[i].1.ty, table),
                    attributes[i].1.required,
                )
            } else {
                arbitrary()
            },
    )
}

/// An attribute of the given name whose type is what came of a step.
pub open spec fn typed_attribute(
    name: Seq<char>,
    ty: Result<TypeModel, ErrorModel>,
    required: bool,
) -> Result<(Seq<char>, AttributeTypeModel), ErrorModel> {
    match ty {
        Ok(ty) => Ok((name, AttributeTypeModel { ty, required })),
        Err(error) => Err(error),
    }
}

/// Whether records with or without further attributes are meant.
pub open spec fn open_tag(additional_attributes: bool) -> OpenTag {
    if additional_attributes {
        OpenTag::OpenAttributes
    } else {
        OpenTag::ClosedAttributes
    }
}

/// Whether `w` becomes what `t` denotes, whatever the common types are.
pub open spec fn becomes(
    w: WithUnresolvedCommonTypeRefs<ValidatorType>,
    t: SchemaType<NameModel>,
) -> bool {
    &&& forall|d: &CommonTypeTable| #[trigger] w.accepts(d)
    &&& forall|d: &CommonTypeTable, x: Result<ValidatorType, SchemaError>| #[trigger]
        w.yields(d, x) ==> x.model() == denoted(t, d.model())
}

/// Whether `w` becomes what the attributes denote, whatever the common types are.
pub open spec fn attributes_become(
    w: WithUnresolvedCommonTypeRefs<Attributes>,
    attributes: Seq<(Seq<char>, AttributeModel<NameModel>)>,
) -> bool {
    &&& forall|d: &CommonTypeTable| #[trigger] w.accepts(d)
    &&& forall|d: &CommonTypeTable, x: Result<Attributes, SchemaError>| #[trigger]
        w.yields(d, x) ==> x.model() == collected(attributes_denoted(attributes, d.model()))
}

/// Convert a schema type (with fully-qualified names) into the type used by the
/// validator.
///
/// Conversion can fail if an entity type name is reserved or an extension type is
/// unknown. It will also fail for open records, which can be written in a schema
/// but are not supported.
pub fn try_jsonschema_type_into_validator_type(
    schema_ty: Type<InternalName>,
    extensions: &Extensions,
    loc: MaybeLoc,
) -> (r: Result<WithUnresolvedCommonTypeRefs<ValidatorType>, SchemaError>)
    ensures
        (match r {
            Ok(w) => {
                &&& convertible(schema_ty.model(), extensions.model()) == Ok::<(), ErrorModel>(())
                &&& w.is_unresolved() == needs_common_types(schema_ty.model())
                &&& w.place() == kept_place(schema_ty.model(), loc.model())
                &&& becomes(w, schema_ty.model())
            },
            Err(e) => convertible(schema_ty.model(), extensions.model()) == Err::<(), ErrorModel>(
                e.model(),
            ),
        }),
    decreases schema_ty,
{
    let ghost t = schema_ty.model();
    match schema_ty {
        Type::Type { ty: TypeVariant::String, .. } => Ok(
            WithUnresolvedCommonTypeRefs::WithoutUnresolved(
                ValidatorType { ty: types::Type::primitive_string() },
                loc,
            ),
        ),
        Type::Type { ty: TypeVariant::Long, .. } => Ok(
            WithUnresolvedCommonTypeRefs::WithoutUnresolved(
                ValidatorType { ty: types::Type::primitive_long() },
                loc,
            ),
        ),
        Type::Type { ty: TypeVariant::Boolean, .. } => Ok(
            WithUnresolvedCommonTypeRefs::WithoutUnresolved(
                ValidatorType { ty: types::Type::primitive_boolean() },
                loc,
            ),
        ),
        Type::Type { ty: TypeVariant::SetOf { element }, .. } => {
            let ghost inner = element.model();
            let element = match try_jsonschema_type_into_validator_type(*element, extensions, loc) {
                Ok(element) => element,
                Err(e) => return Err(e),
            };
            let set = |vt: ValidatorType| -> (r: ValidatorType)
                ensures
                    r.model() == TypeModel::SetOf(Some(Box::new(vt.model()))),
                { ValidatorType { ty: types::Type::set(vt.ty) } };
            let w = element.map(set);
            proof {
                assert forall|d: &CommonTypeTable, x: Result<ValidatorType, SchemaError>| #[trigger]
                    w.yields(d, x) implies x.model() == denoted(t, d.model()) by {
                    match x {
                        Ok(u) => {
                            let v = choose|v: ValidatorType| #[trigger]
                                element.yields(d, Ok(v)) && call_ensures(set, (v,), u);
                            assert(Ok::<ValidatorType, SchemaError>(v).model() == denoted(
                                inner,
                                d.model(),
                            ));
                        },
                        Err(e) => {
                            assert(element.yields(d, Err(e)));
                        },
                    }
                }
            }
            Ok(w)
        },
        Type::Type { ty: TypeVariant::Record(rty), .. } => {
            proof {
                record_variant_model(rty);
            }
            try_record_type_into_validator_type(rty, extensions, loc)
        },
        Type::Type { ty: TypeVariant::Entity { name }, .. } => {
            match internal_name_to_entity_type(name) {
                Ok(ety) => Ok(
                    WithUnresolvedCommonTypeRefs::WithoutUnresolved(
                        ValidatorType { ty: types::Type::named_entity_reference(ety) },
                        loc,
                    ),
                ),
                Err(e) => Err(SchemaError::ReservedName(e)),
            }
        },
        Type::Type { ty: TypeVariant::Extension { name }, .. } => {
            let extension_type_name = Name::unqualified_name(name);
            if extensions.has_type(&extension_type_name) {
                Ok(
                    WithUnresolvedCommonTypeRefs::from(types::Type::extension(extension_type_name)),
                )
            } else {
                let suggested_replacement = fuzzy_search(
                    extension_type_name.to_string().as_str(),
                    &extensions.type_names(),
                );
                Err(
                    SchemaError::UnknownExtensionType(
                        UnknownExtensionTypeError {
                            actual: extension_type_name,
                            suggested_replacement,
                        },
                    ),
                )
            }
        },
        Type::CommonTypeRef { name, .. } => {
            let find = move |common_type_defs: &CommonTypeTable| -> (r: Result<
                ValidatorType,
                SchemaError,
            >)
                ensures
                    r.model() == denoted(t, common_type_defs.model()),
            {
                match position(common_type_defs, &name) {
                    Some(i) => Ok(common_type_defs[i].1.clone()),
                    // Whether the type is defined has been looked at before, when
                    // the reference was resolved, so there should always be one
                    // where the table holds all the common types.
                    None => {
                        let e = TypeNotDefinedError {
                            undefined_types: NonEmpty::new(
                                ConditionalName::unconditional(name, ReferenceType::Common),
                            ),
                        };
                        assert(e.model() =~= seq![
                            unconditional(name.model(), ReferenceType::Common),
                        ]);
                        Err(SchemaError::TypeNotDefined(e))
                    },
                }
            };
            Ok(WithUnresolvedCommonTypeRefs::new(find, loc))
        },
        Type::Type { ty: TypeVariant::EntityOrCommon { name }, .. } => {
            let find = move |common_type_defs: &CommonTypeTable| -> (r: Result<
                ValidatorType,
                SchemaError,
            >)
                ensures
                    r.model() == denoted(t, common_type_defs.model()),
            {
                // First check if it's a common type, because in the edge case where
                // the name is both a valid common type name and a valid entity type
                // name, we give preference to the common type.
                match position(common_type_defs, &name) {
                    Some(i) => Ok(common_type_defs[i].1.clone()),
                    None => match internal_name_to_entity_type(name) {
                        Ok(ety) => Ok(
                            ValidatorType { ty: types::Type::named_entity_reference(ety) },
                        ),
                        Err(e) => Err(SchemaError::ReservedName(e)),
                    },
                }
            };
            Ok(WithUnresolvedCommonTypeRefs::new(find, loc))
        },
    }
}

/// Convert a record type (with fully qualified names) into the type used by the
/// validator.
pub fn try_record_type_into_validator_type(
    rty: RecordType<InternalName>,
    extensions: &Extensions,
    loc: MaybeLoc,
) -> (r: Result<WithUnresolvedCommonTypeRefs<ValidatorType>, SchemaError>)
    ensures
        ({
            let t = SchemaType::Type { ty: VariantModel::Record(rty.model()), loc: None };
            match r {
                Ok(w) => {
                    &&& convertible(t, extensions.model()) == Ok::<(), ErrorModel>(())
                    &&& w.is_unresolved()
                    &&& w.place() is None
                    &&& becomes(w, t)
                },
                Err(e) => convertible(t, extensions.model()) == Err::<(), ErrorModel>(e.model()),
            }
        }),
    decreases rty,
{
    let ghost t = SchemaType::Type { ty: VariantModel::Record(rty.model()), loc: None };
    let ghost attributes = rty.model().attributes;
    if rty.additional_attributes {
        return Err(
            SchemaError::UnsupportedFeature(
                UnsupportedFeatureError(UnsupportedFeature::OpenRecordsAndEntities),
            ),
        );
    }
    let attrs = match parse_record_attributes(rty.attributes, extensions, None) {
        Ok(attrs) => attrs,
        Err(e) => return Err(e),
    };
    let additional_attributes = rty.additional_attributes;
    let record = move |attrs: Attributes| -> (r: ValidatorType)
        ensures
            r.model() == (TypeModel::Record {
                attrs: attrs.model(),
                open: open_tag(additional_attributes),
            }),
        {
            ValidatorType {
                ty: types::Type::record_with_attributes(
                    attrs,
                    if additional_attributes {
                        OpenTag::OpenAttributes
                    } else {
                        OpenTag::ClosedAttributes
                    },
                ),
            }
        };
    let w = attrs.map(record);
    proof {
        assert forall|d: &CommonTypeTable, x: Result<ValidatorType, SchemaError>| #[trigger]
            w.yields(d, x) implies x.model() == denoted(t, d.model()) by {
            match x {
                Ok(u) => {
                    let v = choose|v: Attributes| #[trigger]
                        attrs.yields(d, Ok(v)) && call_ensures(record, (v,), u);
                    assert(Ok::<Attributes, SchemaError>(v).model() == collected(
                        attributes_denoted(attributes, d.model()),
                    ));
                },
                Err(e) => {
                    assert(attrs.yields(d, Err(e)));
                },
            }
        }
    }
    Ok(w)
}

/// An attribute whose type is settled only once the common types are known, and
/// whether it has to be there.
type UnresolvedAttribute = (SmolStr, (WithUnresolvedCommonTypeRefs<ValidatorType>, bool));

/// Whether `entry` becomes what `attribute` denotes.
spec fn attribute_becomes(
    entry: UnresolvedAttribute,
    attribute: (Seq<char>, AttributeModel<NameModel>),
) -> bool {
    &&& chars_of(entry.0) == attribute.0
    &&& entry.1.1 == attribute.1.required
    &&& becomes(entry.1.0, attribute.1.ty)
}

/// Settles the types of attributes; the first failure stops.
fn resolve_attributes(
    attrs: Vec<UnresolvedAttribute>,
    common_type_defs: &CommonTypeTable,
    Ghost(attributes): Ghost<Seq<(Seq<char>, AttributeModel<NameModel>)>>,
) -> (r: Result<Attributes, SchemaError>)
    requires
        attrs@.len() == attributes.len(),
        forall|i: int|
            0 <= i < attributes.len() ==> attribute_becomes(#[trigger] attrs@[i], attributes[i]),
    ensures
        r.model() == collected(attributes_denoted(attributes, common_type_defs.model())),
{
    let ghost all = attrs@;
    let ghost steps = attributes_denoted(attributes, common_type_defs.model());
    let mut out: Vec<(SmolStr, AttributeType)> = Vec::new();
    proof {
        assert(steps.take(0) =~= Seq::empty());
    }
    for entry in it: attrs
        invariant
            it.seq() == all,
            all.len() == attributes.len(),
            forall|i: int|
                0 <= i < attributes.len() ==> attribute_becomes(#[trigger] all[i], attributes[i]),
            steps == attributes_denoted(attributes, common_type_defs.model()),
            collected(steps.take(it.index() as int)) == Ok::<
                Seq<(Seq<char>, AttributeTypeModel)>,
                ErrorModel,
            >(out.model()),
    {
        let ghost i = it.index() as int;
        let (name, (ty, is_required)) = entry;
        proof {
            assert(attribute_becomes(all[i], attributes[i]));
            collected_push(steps, i);
        }
        match ty.resolve_common_type_refs(common_type_defs) {
            Ok(ty) => out.push((name, AttributeType::new(ty.ty, is_required))),
            Err(e) => {
                proof {
                    collected_prefix(steps, i + 1);
                }
                return Err(e);
            },
        }
    }
    proof {
        assert(steps.take(all.len() as int) =~= steps);
    }
    Ok(Attributes::with_attributes(out))
}

/// Given the attributes of a record type (with fully-qualified names), convert the
/// types of the attributes into those used by the validator. Even where none of them
/// needs the common types, they are settled only with these.
pub fn parse_record_attributes(
    attrs: Vec<(SmolStr, TypeOfAttribute<InternalName>)>,
    extensions: &Extensions,
    loc: MaybeLoc,
) -> (r: Result<WithUnresolvedCommonTypeRefs<Attributes>, SchemaError>)
    ensures
        ({
            let steps = attributes_convertible(attrs.model(), extensions.model());
            match r {
                Ok(w) => {
                    &&& collected(steps) is Ok
                    &&& w.is_unresolved()
                    &&& w.place() == loc.model()
                    &&& attributes_become(w, attrs.model())
                },
                Err(e) => collected(steps) == Err::<Seq<()>, ErrorModel>(e.model()),
            }
        }),
    decreases attrs,
{
    let ghost all = attrs@;
    let ghost attributes = attrs.model();
    let ghost steps = attributes_convertible(attributes, extensions.model());
    let mut attrs_with_common_type_refs: Vec<UnresolvedAttribute> = Vec::new();
    proof {
        assert(steps.take(0) =~= Seq::empty());
    }
    for entry in it: attrs
        invariant
            it.seq() == all,
            all == attrs@,
            attributes == attrs.model(),
            steps == attributes_convertible(attributes, extensions.model()),
            collected(steps.take(it.index() as int)) is Ok,
            attrs_with_common_type_refs@.len() == it.index(),
            forall|i: int|
                0 <= i < it.index() ==> attribute_becomes(
                    #[trigger] attrs_with_common_type_refs@[i],
                    attributes[i],
                ),
    {
        let ghost i = it.index() as int;
        let (name, attribute) = entry;
        let required = attribute.required;
        proof {
            assert(decreases_to!(attrs => attrs@));
            assert(decreases_to!(attrs@ => attrs@[i]));
            assert(decreases_to!(attrs@[i] => attrs@[i].1));
            assert(decreases_to!(attrs@[i].1 => attrs@[i].1.ty));
            assert(attributes[i] == entry.model());
            collected_push(steps, i);
        }
        match try_jsonschema_type_into_validator_type(attribute.ty, extensions, None) {
            Ok(ty) => attrs_with_common_type_refs.push((name, (ty, required))),
            Err(e) => {
                proof {
                    collected_prefix(steps, i + 1);
                }
                return Err(e);
            },
        }
    }
    proof {
        assert(steps.take(all.len() as int) =~= steps);
    }
    let resolve = move |common_type_defs: &CommonTypeTable| -> (r: Result<Attributes, SchemaError>)
        ensures
            r.model() == collected(attributes_denoted(attributes, common_type_defs.model())),
        {
            resolve_attributes(attrs_with_common_type_refs, common_type_defs, Ghost(attributes))
        };
    Ok(WithUnresolvedCommonTypeRefs::new(resolve, loc))
}

} // verus!
