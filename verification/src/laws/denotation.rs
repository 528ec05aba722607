//! What the types of a schema denote, and which of them denote something.

use crate::conversion::{
    attributes_become, attributes_convertible, attributes_denoted, becomes, convertible, denoted,
    kept_place, needs_common_types, typed_attribute,
};
use crate::err::{ErrorModel, SchemaError};
use crate::extensions::texts_of;
use crate::fuzzy_match::suggestion;
use crate::json_schema::{AttributeModel, SchemaType, VariantModel};
use crate::keyed::{entry_at, has_key, Keyed};
use crate::laws::action_fragments::holds_reserved;
use crate::laws::fragments::{same_name, same_name_same_components};
use crate::laws::qualification::is_made;
use crate::model::Model;
use crate::names::{simple_name, InternalName, LocModel, Name, NameModel};
use crate::outcome::{collected, collected_first, collected_ok};
use crate::raw_name::ReferenceType;
use crate::types::{AttributeTypeModel, Attributes, OpenTag, Primitive, TypeModel, ValidatorType};
use crate::unresolved::{CommonTypeTable, WithUnresolvedCommonTypeRefs};
use vstd::prelude::*;

verus! {

/// Whether `ty` is what the first entry of a table under that name holds.
pub open spec fn is_entry(
    table: Seq<(NameModel, TypeModel)>,
    name: NameModel,
    ty: TypeModel,
) -> bool {
    exists|i: int|
        0 <= i < table.len() && same_name((#[trigger] table[i]).0, name) && table[i].1 == ty
            && forall|j: int| 0 <= j < i ==> !same_name((#[trigger] table[j]).0, name)
}

/// Whether a table has no entry under a name.
pub open spec fn is_missing(table: Seq<(NameModel, TypeModel)>, name: NameModel) -> bool {
    forall|j: int| 0 <= j < table.len() ==> !same_name((#[trigger] table[j]).0, name)
}

/// Whether `r` is a type of the kind that `t` is, with parts that the parts of `t`
/// denote: a primitive type for its name, a set for a set, whatever its elements are, a
/// record with the same attributes for a record, an entity or extension type of the
/// same name. A reference to a common type stands for what the table says; one that may
/// be to an entity type as well is to that where the table says nothing.
pub open spec fn denotes(
    t: SchemaType<NameModel>,
    r: TypeModel,
    table: Seq<(NameModel, TypeModel)>,
) -> bool
    decreases t,
{
    match t {
        SchemaType::CommonTypeRef { name, .. } => is_entry(table, name, r),
        SchemaType::Type { ty, .. } => match ty {
            VariantModel::String => r == TypeModel::Primitive(Primitive::String),
            VariantModel::Long => r == TypeModel::Primitive(Primitive::Long),
            VariantModel::Boolean => r == TypeModel::Primitive(Primitive::Bool),
            VariantModel::SetOf { element } => {
                r matches TypeModel::SetOf(Some(inner)) && denotes(*element, *inner, table)
            },
            VariantModel::Record(record) => {
                &&& r matches TypeModel::Record { attrs, open }
                &&& (open == OpenTag::OpenAttributes <==> record.additional_attributes)
                &&& attrs.len() == record.attributes.len()
                &&& forall|i: int|
                    0 <= i < record.attributes.len() ==> {
                        &&& (#[trigger] record.attributes[i]).0 == attrs[i].0
                        &&& record.attributes[i].1.required == attrs[i].1.required
                        &&& denotes(record.attributes[i].1.ty, attrs[i].1.ty, table)
                    }
            },
            VariantModel::Entity { name } => r == TypeModel::Entity(name),
            VariantModel::EntityOrCommon { name } => {
                ||| is_entry(table, name, r)
                ||| is_missing(table, name) && !holds_reserved(name) && r == TypeModel::Entity(name)
            },
            VariantModel::Extension { name } => {
                r matches TypeModel::Extension(n) && n.path.len() == 0 && n.id == name && n.loc is None
            },
        },
    }
}

/// Whether each reference in a type to something that may be a common type stands for
/// one of the table, or else may be to an entity type and is not reserved.
pub open spec fn all_denote(t: SchemaType<NameModel>, table: Seq<(NameModel, TypeModel)>) -> bool
    decreases t,
{
    match t {
        SchemaType::CommonTypeRef { name, .. } => !is_missing(table, name),
        SchemaType::Type { ty, .. } => match ty {
            VariantModel::SetOf { element } => all_denote(*element, table),
            VariantModel::Record(record) => forall|i: int|
                0 <= i < record.attributes.len() ==> all_denote(
                    (#[trigger] record.attributes[i]).1.ty,
                    table,
                ),
            VariantModel::EntityOrCommon { name } => !is_missing(table, name) || !holds_reserved(
                name,
            ),
            _ => true,
        },
    }
}

/// Whether `error` reports the first reference in a type that stands for nothing.
pub open spec fn reports_first_missing(
    t: SchemaType<NameModel>,
    error: ErrorModel,
    table: Seq<(NameModel, TypeModel)>,
) -> bool
    decreases t,
{
    match t {
        SchemaType::CommonTypeRef { name, .. } => {
            &&& is_missing(table, name)
            &&& error matches ErrorModel::TypeNotDefined(reported)
            &&& reported.len() == 1
            &&& is_made(name, reported[0], ReferenceType::Common, None)
        },
        SchemaType::Type { ty, .. } => match ty {
            VariantModel::SetOf { element } => reports_first_missing(*element, error, table),
            VariantModel::Record(record) => exists|k: int|
                0 <= k < record.attributes.len() && reports_first_missing(
                    (#[trigger] record.attributes[k]).1.ty,
                    error,
                    table,
                ) && forall|i: int|
                    0 <= i < k ==> all_denote((#[trigger] record.attributes[i]).1.ty, table),
            VariantModel::EntityOrCommon { name } => {
                &&& is_missing(table, name)
                &&& holds_reserved(name)
                &&& error == ErrorModel::ReservedName(name)
            },
            _ => false,
        },
    }
}

/// What a table holds under a name.
proof fn entry_is_first(table: Seq<(NameModel, TypeModel)>, name: NameModel)
    ensures
        entry_at::<InternalName, TypeModel>(table, name.components()) matches Some(entry)
            ==> is_entry(table, name, entry.1),
        entry_at::<InternalName, TypeModel>(table, name.components()) is None <==> is_missing(
            table,
            name,
        ),
    decreases table.len(),
{
    if table.len() > 0 {
        let rest = table.skip(1);
        same_name_same_components(table[0].0, name);
        entry_is_first(rest, name);
        if !same_name(table[0].0, name) {
            if let Some(entry) = entry_at::<InternalName, TypeModel>(table, name.components()) {
                let i = choose|i: int|
                    0 <= i < rest.len() && same_name((#[trigger] rest[i]).0, name) && rest[i].1
                        == entry.1 && forall|j: int|
                        0 <= j < i ==> !same_name((#[trigger] rest[j]).0, name);
                assert(table[i + 1] == rest[i]);
                assert forall|j: int| 0 <= j < i + 1 implies !same_name(
                    (#[trigger] table[j]).0,
                    name,
                ) by {
                    if j > 0 {
                        assert(table[j] == rest[j - 1]);
                        assert(!same_name(rest[j - 1].0, name));
                    }
                }
                assert(is_entry(table, name, entry.1));
            } else {
                assert forall|j: int| 0 <= j < table.len() implies !same_name(
                    (#[trigger] table[j]).0,
                    name,
                ) by {
                    if j > 0 {
                        assert(table[j] == rest[j - 1]);
                        assert(!same_name(rest[j - 1].0, name));
                    }
                }
            }
            if is_missing(table, name) {
                assert forall|j: int| 0 <= j < rest.len() implies !same_name(
                    (#[trigger] rest[j]).0,
                    name,
                ) by {
                    assert(!same_name(table[j + 1].0, name));
                }
            }
        } else {
            assert(is_entry(table, name, table[0].1));
        }
    }
}

/// A step of what attributes denote.
proof fn attribute_denoted(
    attributes: Seq<(Seq<char>, AttributeModel<NameModel>)>,
    table: Seq<(NameModel, TypeModel)>,
    i: int,
)
    requires
        0 <= i < attributes.len(),
    ensures
        attributes_denoted(attributes, table)[i] == typed_attribute(
            attributes[i].0,
            denoted(attributes[i].1.ty, table),
            attributes[i].1.required,
        ),
        attributes_denoted(attributes, table).len() == attributes.len(),
{
}

/// A type of a schema denotes a type of its own kind, part by part.
pub proof fn types_denote_their_kind(
    t: SchemaType<NameModel>,
    table: Seq<(NameModel, TypeModel)>,
)
    ensures
        denoted(t, table) matches Ok(r) ==> denotes(t, r, table),
    decreases t,
{
    match t {
        SchemaType::CommonTypeRef { name, .. } => {
            entry_is_first(table, name);
        },
        SchemaType::Type { ty, .. } => match ty {
            VariantModel::SetOf { element } => {
                types_denote_their_kind(*element, table);
            },
            VariantModel::Record(record) => {
                let steps = attributes_denoted(record.attributes, table);
                collected_ok(steps);
                if let Ok(attrs) = collected(steps) {
                    assert forall|i: int| 0 <= i < record.attributes.len() implies {
                        &&& (#[trigger] record.attributes[i]).0 == attrs[i].0
                        &&& record.attributes[i].1.required == attrs[i].1.required
                        &&& denotes(record.attributes[i].1.ty, attrs[i].1.ty, table)
                    } by {
                        types_denote_their_kind(record.attributes[i].1.ty, table);
                        attribute_denoted(record.attributes, table, i);
                        assert(steps[i] == Ok::<(Seq<char>, AttributeTypeModel), ErrorModel>(
                            attrs[i],
                        ));
                    }
                }
            },
            VariantModel::EntityOrCommon { name } => {
                entry_is_first(table, name);
            },
            _ => {},
        },
    }
}

/// A set denotes something exactly where its elements do, and then the set of what they
/// denote; where they do not, what is wrong with them is wrong with it.
pub proof fn sets_denote_sets(
    element: SchemaType<NameModel>,
    loc: Option<LocModel>,
    table: Seq<(NameModel, TypeModel)>,
)
    ensures
        ({
            let t = SchemaType::Type {
                ty: VariantModel::SetOf { element: Box::new(element) },
                loc,
            };
            match (denoted(element, table), denoted(t, table)) {
                (Ok(inner), Ok(TypeModel::SetOf(Some(kept)))) => *kept == inner,
                (Err(cause), Err(error)) => error == cause,
                _ => false,
            }
        }),
{
}

/// A type of a schema denotes something exactly where each reference in it stands for
/// something. Otherwise the first that does not is reported.
pub proof fn missing_types_are_reported(
    t: SchemaType<NameModel>,
    table: Seq<(NameModel, TypeModel)>,
)
    ensures
        denoted(t, table) is Ok <==> all_denote(t, table),
        denoted(t, table) matches Err(error) ==> reports_first_missing(t, error, table),
    decreases t,
{
    match t {
        SchemaType::CommonTypeRef { name, .. } => {
            entry_is_first(table, name);
        },
        SchemaType::Type { ty, .. } => match ty {
            VariantModel::SetOf { element } => {
                missing_types_are_reported(*element, table);
            },
            VariantModel::Record(record) => {
                let steps = attributes_denoted(record.attributes, table);
                collected_ok(steps);
                assert forall|i: int| 0 <= i < record.attributes.len() implies {
                    &&& (#[trigger] steps[i]) is Ok <==> all_denote(
                        record.attributes[i].1.ty,
                        table,
                    )
                    &&& steps[i] matches Err(error) ==> reports_first_missing(
                        record.attributes[i].1.ty,
                        error,
                        table,
                    )
                } by {
                    missing_types_are_reported(record.attributes[i].1.ty, table);
                    attribute_denoted(record.attributes, table, i);
                }
                if collected(steps) is Ok {
                    assert forall|i: int| 0 <= i < record.attributes.len() implies all_denote(
                        (#[trigger] record.attributes[i]).1.ty,
                        table,
                    ) by {
                        assert(steps[i] is Ok);
                    }
                } else {
                    let k = collected_first(steps);
                    assert(steps[k] is Err);
                    assert forall|i: int| 0 <= i < k implies all_denote(
                        (#[trigger] record.attributes[i]).1.ty,
                        table,
                    ) by {
                        assert(steps[i] is Ok);
                    }
                    assert(reports_first_missing(
                        record.attributes[k].1.ty,
                        steps[k]->Err_0,
                        table,
                    ));
                    assert(!all_denote(record.attributes[k].1.ty, table));
                }
            },
            VariantModel::EntityOrCommon { name } => {
                entry_is_first(table, name);
            },
            _ => {},
        },
    }
}

/// What a converted type becomes once the common types are known is the type that it
/// denotes, of its own kind and part by part.
pub proof fn converted_types_become_their_kind(
    w: WithUnresolvedCommonTypeRefs<ValidatorType>,
    t: SchemaType<NameModel>,
    table: &CommonTypeTable,
    x: Result<ValidatorType, SchemaError>,
)
    requires
        becomes(w, t),
    ensures
        w.accepts(table),
        w.yields(table, x) ==> match x.model() {
            Ok(r) => denotes(t, r, table.model()),
            Err(error) => reports_first_missing(t, error, table.model()),
        },
{
    types_denote_their_kind(t, table.model());
    missing_types_are_reported(t, table.model());
}

/// What converted attributes become once the common types are known is one attribute
/// for each, under its name, required where it was, and of the type that its own
/// denotes.
pub proof fn converted_attributes_become_their_kind(
    w: WithUnresolvedCommonTypeRefs<Attributes>,
    attributes: Seq<(Seq<char>, AttributeModel<NameModel>)>,
    table: &CommonTypeTable,
    x: Result<Attributes, SchemaError>,
)
    requires
        attributes_become(w, attributes),
    ensures
        w.accepts(table),
        w.yields(table, x) ==> match x.model() {
            Ok(r) => {
                &&& r.len() == attributes.len()
                &&& forall|i: int|
                    0 <= i < attributes.len() ==> {
                        &&& (#[trigger] attributes[i]).0 == r[i].0
                        &&& attributes[i].1.required == r[i].1.required
                        &&& denotes(attributes[i].1.ty, r[i].1.ty, table.model())
                    }
            },
            Err(error) => exists|k: int|
                0 <= k < attributes.len() && reports_first_missing(
                    (#[trigger] attributes[k]).1.ty,
                    error,
                    table.model(),
                ) && forall|i: int|
                    0 <= i < k ==> all_denote((#[trigger] attributes[i]).1.ty, table.model()),
        },
{
    let m = table.model();
    let steps = attributes_denoted(attributes, m);
    collected_ok(steps);
    if w.yields(table, x) {
        match x.model() {
            Ok(r) => {
                assert forall|i: int| 0 <= i < attributes.len() implies {
                    &&& (#[trigger] attributes[i]).0 == r[i].0
                    &&& attributes[i].1.required == r[i].1.required
                    &&& denotes(attributes[i].1.ty, r[i].1.ty, m)
                } by {
                    types_denote_their_kind(attributes[i].1.ty, m);
                    attribute_denoted(attributes, m, i);
                    assert(steps[i] == Ok::<(Seq<char>, AttributeTypeModel), ErrorModel>(r[i]));
                }
            },
            Err(error) => {
                let k = collected_first(steps);
                attribute_denoted(attributes, m, k);
                missing_types_are_reported(attributes[k].1.ty, m);
                assert(reports_first_missing(attributes[k].1.ty, error, m));
                assert forall|i: int| 0 <= i < k implies all_denote(
                    (#[trigger] attributes[i]).1.ty,
                    m,
                ) by {
                    assert(steps[i] is Ok);
                    attribute_denoted(attributes, m, i);
                    missing_types_are_reported(attributes[i].1.ty, m);
                }
            },
        }
    }
}

/// Whether there is an extension type of that name.
pub open spec fn is_known(name: Seq<char>, extensions: Seq<NameModel>) -> bool {
    exists|i: int|
        0 <= i < extensions.len() && (#[trigger] extensions[i]).path.len() == 0 && extensions[i].id
            == name
}

/// Whether a type holds no open record, no entity type of a reserved name and no unknown
/// extension type.
pub open spec fn can_be_converted(t: SchemaType<NameModel>, extensions: Seq<NameModel>) -> bool
    decreases t,
{
    match t {
        SchemaType::CommonTypeRef { .. } => true,
        SchemaType::Type { ty, .. } => match ty {
            VariantModel::SetOf { element } => can_be_converted(*element, extensions),
            VariantModel::Record(record) => {
                &&& !record.additional_attributes
                &&& forall|i: int|
                    0 <= i < record.attributes.len() ==> can_be_converted(
                        (#[trigger] record.attributes[i]).1.ty,
                        extensions,
                    )
            },
            VariantModel::Entity { name } => !holds_reserved(name),
            VariantModel::Extension { name } => is_known(name, extensions),
            _ => true,
        },
    }
}

/// Whether `error` reports the first part of a type that cannot be converted. An open
/// record is reported before what is in it. With an unknown extension type goes the
/// known one that may have been meant.
pub open spec fn reports_first_obstacle(
    t: SchemaType<NameModel>,
    error: ErrorModel,
    extensions: Seq<NameModel>,
) -> bool
    decreases t,
{
    match t {
        SchemaType::CommonTypeRef { .. } => false,
        SchemaType::Type { ty, .. } => match ty {
            VariantModel::SetOf { element } => reports_first_obstacle(*element, error, extensions),
            VariantModel::Record(record) => if record.additional_attributes {
                error == ErrorModel::OpenRecordsAndEntities
            } else {
                exists|k: int|
                    0 <= k < record.attributes.len() && reports_first_obstacle(
                        (#[trigger] record.attributes[k]).1.ty,
                        error,
                        extensions,
                    ) && forall|i: int|
                        0 <= i < k ==> can_be_converted(
                            (#[trigger] record.attributes[i]).1.ty,
                            extensions,
                        )
            },
            VariantModel::Entity { name } => holds_reserved(name) && error
                == ErrorModel::ReservedName(name),
            VariantModel::Extension { name } => {
                &&& !is_known(name, extensions)
                &&& error matches ErrorModel::UnknownExtensionType { actual, suggested_replacement }
                &&& actual.path.len() == 0
                &&& actual.id == name
                &&& actual.loc is None
                &&& suggested_replacement == suggestion(
                    name,
                    Seq::new(extensions.len(), |i: int| extensions[i].text()),
                )
            },
            _ => false,
        },
    }
}

/// A type can be converted exactly where it holds no open record, no entity type of a
/// reserved name and no unknown extension type. Otherwise the first of these is
/// reported.
pub proof fn obstacles_are_reported(t: SchemaType<NameModel>, extensions: Seq<NameModel>)
    ensures
        convertible(t, extensions) is Ok <==> can_be_converted(t, extensions),
        convertible(t, extensions) matches Err(error) ==> reports_first_obstacle(
            t,
            error,
            extensions,
        ),
    decreases t,
{
    if let SchemaType::Type { ty, .. } = t {
        match ty {
            VariantModel::SetOf { element } => {
                obstacles_are_reported(*element, extensions);
            },
            VariantModel::Record(record) => {
                let steps = attributes_convertible(record.attributes, extensions);
                collected_ok(steps);
                assert forall|i: int| 0 <= i < record.attributes.len() implies {
                    &&& (#[trigger] steps[i]) is Ok <==> can_be_converted(
                        record.attributes[i].1.ty,
                        extensions,
                    )
                    &&& steps[i] matches Err(error) ==> reports_first_obstacle(
                        record.attributes[i].1.ty,
                        error,
                        extensions,
                    )
                } by {
                    obstacles_are_reported(record.attributes[i].1.ty, extensions);
                    attribute_convertible(record.attributes, extensions, i);
                }
                if collected(steps) is Ok {
                    assert forall|i: int| 0 <= i < record.attributes.len() implies can_be_converted(
                        (#[trigger] record.attributes[i]).1.ty,
                        extensions,
                    ) by {
                        assert(steps[i] is Ok);
                    }
                } else {
                    let k = collected_first(steps);
                    assert(steps[k] is Err);
                    assert forall|i: int| 0 <= i < k implies can_be_converted(
                        (#[trigger] record.attributes[i]).1.ty,
                        extensions,
                    ) by {
                        assert(steps[i] is Ok);
                    }
                    assert(reports_first_obstacle(
                        record.attributes[k].1.ty,
                        steps[k]->Err_0,
                        extensions,
                    ));
                    assert(!can_be_converted(record.attributes[k].1.ty, extensions));
                }
            },
            VariantModel::Extension { name } => {
                known_where_it_has_the_key(name, extensions);
                text_of_simple_name(name);
                assert(texts_of(extensions) =~= Seq::new(
                    extensions.len(),
                    |i: int| extensions[i].text(),
                ));
            },
            _ => {},
        }
    }
}

/// A step of whether attributes can be converted.
proof fn attribute_convertible(
    attributes: Seq<(Seq<char>, AttributeModel<NameModel>)>,
    extensions: Seq<NameModel>,
    i: int,
)
    requires
        0 <= i < attributes.len(),
    ensures
        attributes_convertible(attributes, extensions)[i] == convertible(
            attributes[i].1.ty,
            extensions,
        ),
        attributes_convertible(attributes, extensions).len() == attributes.len(),
{
}

/// The name of an extension type is among those that are known exactly where its key is.
proof fn known_where_it_has_the_key(name: Seq<char>, extensions: Seq<NameModel>)
    ensures
        is_known(name, extensions) <==> has_key::<Name>(
            extensions,
            simple_name(name, None).components(),
        ),
{
    let simple = simple_name(name, None);
    if is_known(name, extensions) {
        let i = choose|i: int|
            0 <= i < extensions.len() && (#[trigger] extensions[i]).path.len() == 0
                && extensions[i].id == name;
        assert(extensions[i].path =~= simple.path);
        assert(Name::key(extensions[i]) == simple.components());
    }
    if has_key::<Name>(extensions, simple.components()) {
        let i = choose|i: int|
            0 <= i < extensions.len() && Name::key(#[trigger] extensions[i])
                == simple.components();
        same_name_same_components(extensions[i], simple);
    }
}

/// A name without a namespace reads as its identifier.
pub proof fn text_of_simple_name(name: Seq<char>)
    ensures
        simple_name(name, None).text() =~= name,
{
}

/// The common types are needed to tell what records and references that may be to common
/// types denote, and sets of them, and nothing else. The place is kept of all but records
/// and extension types, and sets of them.
pub proof fn sets_are_like_their_elements(t: SchemaType<NameModel>, loc: Option<LocModel>)
    ensures
        (match t {
            SchemaType::CommonTypeRef { .. } => needs_common_types(t) && kept_place(t, loc) == loc,
            SchemaType::Type { ty, .. } => match ty {
                VariantModel::SetOf { element } => {
                    &&& needs_common_types(t) == needs_common_types(*element)
                    &&& kept_place(t, loc) == kept_place(*element, loc)
                },
                VariantModel::Record(_) => needs_common_types(t) && kept_place(t, loc) is None,
                VariantModel::Extension { .. } => !needs_common_types(t) && kept_place(
                    t,
                    loc,
                ) is None,
                VariantModel::EntityOrCommon { .. } => needs_common_types(t) && kept_place(t, loc)
                    == loc,
                _ => !needs_common_types(t) && kept_place(t, loc) == loc,
            },
        }),
{
}

} // verus!
