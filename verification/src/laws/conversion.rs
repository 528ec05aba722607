//! What the types of a schema denote.

use crate::conversion::{
    attributes_convertible, attributes_denoted, convertible, denoted, needs_common_types,
    typed_attribute,
};
use crate::defs::DefsModel;
use crate::err::ErrorModel;
use crate::json_schema::{
    AttributeModel, type_qualified, type_resolved, RecordModel, SchemaType, VariantModel,
};
use crate::keyed::{entry_at, entry_at_found, has_key, names_of};
use crate::laws::references::{
    defined, each_reference, references_are_made_to_fit, resolved_references_are_defined,
};
use crate::names::{InternalName, LocModel, NameModel};
use crate::outcome::{collected, collected_first, collected_ok};
use crate::raw_name::{unconditional, ReferenceType};
use crate::types::{AttributeTypeModel, OpenTag, TypeModel};
use vstd::prelude::*;

verus! {

/// What does not need the common types denotes the same whatever these are.
pub proof fn common_types_do_not_matter_elsewhere(
    t: SchemaType<NameModel>,
    table: Seq<(NameModel, TypeModel)>,
    other: Seq<(NameModel, TypeModel)>,
)
    requires
        !needs_common_types(t),
    ensures
        denoted(t, table) == denoted(t, other),
    decreases t,
{
    if let SchemaType::Type { ty, .. } = t {
        if let VariantModel::SetOf { element } = ty {
            common_types_do_not_matter_elsewhere(*element, table, other);
        }
    }
}

/// A name that may be that of a common type or of an entity type denotes the common
/// type where there is one, whether or not there is an entity type of that name.
pub proof fn common_type_is_preferred(
    name: NameModel,
    loc: Option<LocModel>,
    table: Seq<(NameModel, TypeModel)>,
)
    requires
        has_key::<InternalName>(names_of(table), name.components()),
    ensures
        denoted(
            SchemaType::Type { ty: VariantModel::EntityOrCommon { name }, loc },
            table,
        ) == denoted(SchemaType::CommonTypeRef { name, loc }, table),
        exists|i: int|
            0 <= i < table.len() && (#[trigger] table[i]).0.components() == name.components()
                && denoted(SchemaType::CommonTypeRef { name, loc }, table) == Ok::<
                TypeModel,
                ErrorModel,
            >(table[i].1),
{
    entry_at_found::<InternalName, TypeModel>(table, name.components());
    let e = entry_at::<InternalName, TypeModel>(table, name.components())->0;
    let i = choose|i: int| 0 <= i < table.len() && table[i] == e;
    assert(table[i].0.components() == name.components());
}

/// A reference to a common type that the table does not hold is reported as not
/// defined, under its name.
pub proof fn missing_common_type_is_not_defined(
    name: NameModel,
    loc: Option<LocModel>,
    table: Seq<(NameModel, TypeModel)>,
)
    requires
        !has_key::<InternalName>(names_of(table), name.components()),
    ensures
        denoted(SchemaType::CommonTypeRef { name, loc }, table) == Err::<TypeModel, ErrorModel>(
            ErrorModel::TypeNotDefined(seq![unconditional(name, ReferenceType::Common)]),
        ),
{
    entry_at_found::<InternalName, TypeModel>(table, name.components());
}

/// A type in which every reference is to something that is defined denotes a type,
/// where the table holds all the common types that are defined and no entity type
/// with the reserved identifier in its name is.
pub proof fn defined_references_denote(
    t: SchemaType<NameModel>,
    defs: DefsModel,
    table: Seq<(NameModel, TypeModel)>,
)
    requires
        each_reference(t, defined(defs)),
        forall|name: NameModel| #[trigger]
            defs.common.contains(name.components()) ==> has_key::<InternalName>(
                names_of(table),
                name.components(),
            ),
        forall|name: NameModel| #[trigger]
            defs.entity.contains(name.components()) ==> !name.is_reserved(),
    ensures
        denoted(t, table) is Ok,
    decreases t,
{
    match t {
        SchemaType::CommonTypeRef { name, loc } => {
            assert(defs.common.contains(name.components()));
            entry_at_found::<InternalName, TypeModel>(table, name.components());
        },
        SchemaType::Type { ty, loc } => match ty {
            VariantModel::SetOf { element } => {
                defined_references_denote(*element, defs, table);
            },
            VariantModel::Record(record) => {
                let steps = attributes_denoted(record.attributes, table);
                assert forall|i: int| 0 <= i < steps.len() implies (#[trigger] steps[i]) is Ok by {
                    assert(each_reference(record.attributes[i].1.ty, defined(defs)));
                    defined_references_denote(record.attributes[i].1.ty, defs, table);
                }
                collected_ok(steps);
            },
            VariantModel::EntityOrCommon { name } => {
                entry_at_found::<InternalName, TypeModel>(table, name.components());
                if !defs.common.contains(name.components()) {
                    assert(defs.entity.contains(name.components()));
                }
            },
            _ => {},
        },
    }
}

/// A type that could be fully qualified denotes a type, where the table holds all
/// the common types that are defined and no entity type with the reserved
/// identifier in its name is: that a common type is missing comes to light when
/// references are resolved, and not later.
pub proof fn resolved_types_denote(
    t: SchemaType<NameModel>,
    namespace: Option<NameModel>,
    defs: DefsModel,
    table: Seq<(NameModel, TypeModel)>,
)
    requires
        forall|name: NameModel| #[trigger]
            defs.common.contains(name.components()) ==> has_key::<InternalName>(
                names_of(table),
                name.components(),
            ),
        forall|name: NameModel| #[trigger]
            defs.entity.contains(name.components()) ==> !name.is_reserved(),
    ensures
        type_resolved(type_qualified(t, namespace), defs) matches Ok(r) ==> denoted(r, table) is Ok,
{
    let references = type_qualified(t, namespace);
    if let Ok(r) = type_resolved(references, defs) {
        references_are_made_to_fit(t, namespace);
        resolved_references_are_defined(references, defs);
        defined_references_denote(r, defs, table);
    }
}

/// The type that a record denotes has the attributes that are written, in that
/// order, each under its name and required where it is written so, and no others
/// unless further ones are allowed.
pub proof fn record_denotes_its_attributes(
    record: RecordModel<NameModel>,
    loc: Option<LocModel>,
    table: Seq<(NameModel, TypeModel)>,
)
    ensures
        denoted(SchemaType::Type { ty: VariantModel::Record(record), loc }, table) matches Ok(r)
            ==> {
            &&& r is Record
            &&& r->open == OpenTag::OpenAttributes <==> record.additional_attributes
            &&& r->attrs.len() == record.attributes.len()
            &&& forall|i: int|
                0 <= i < record.attributes.len() ==> {
                    &&& r->attrs[i].0 == (#[trigger] record.attributes[i]).0
                    &&& r->attrs[i].1.required == record.attributes[i].1.required
                    &&& denoted(record.attributes[i].1.ty, table) == Ok::<TypeModel, ErrorModel>(
                        r->attrs[i].1.ty,
                    )
                }
        },
{
    let steps = attributes_denoted(record.attributes, table);
    collected_ok(steps);
    if let Ok(attrs) = collected(steps) {
        assert forall|i: int| 0 <= i < record.attributes.len() implies {
            &&& attrs[i].0 == (#[trigger] record.attributes[i]).0
            &&& attrs[i].1.required == record.attributes[i].1.required
            &&& denoted(record.attributes[i].1.ty, table) == Ok::<TypeModel, ErrorModel>(
                attrs[i].1.ty,
            )
        } by {
            assert(steps[i] == Ok::<(Seq<char>, AttributeTypeModel), ErrorModel>(attrs[i]));
            assert(steps[i] == typed_attribute(
                record.attributes[i].0,
                denoted(record.attributes[i].1.ty, table),
                record.attributes[i].1.required,
            ));
        }
    }
}

/// The attributes of a record denote something exactly where each does. Where some
/// do not, the error is that of the first of these.
pub proof fn attributes_fail_at_the_first(
    attributes: Seq<(Seq<char>, AttributeModel<NameModel>)>,
    table: Seq<(NameModel, TypeModel)>,
)
    ensures
        ({
            let whole = collected(attributes_denoted(attributes, table));
            &&& whole is Ok <==> forall|i: int|
                0 <= i < attributes.len() ==> denoted(
                    (#[trigger] attributes[i]).1.ty,
                    table,
                ) is Ok
            &&& whole matches Err(error) ==> exists|k: int|
                0 <= k < attributes.len() && denoted(
                    (#[trigger] attributes[k]).1.ty,
                    table,
                ) == Err::<TypeModel, ErrorModel>(error) && forall|i: int|
                    0 <= i < k ==> denoted((#[trigger] attributes[i]).1.ty, table) is Ok
            &&& attributes.len() == 0 ==> whole == Ok::<
                Seq<(Seq<char>, AttributeTypeModel)>,
                ErrorModel,
            >(Seq::empty())
        }),
{
    let steps = attributes_denoted(attributes, table);
    collected_ok(steps);
    assert forall|i: int| 0 <= i < attributes.len() implies (#[trigger] steps[i])
        == typed_attribute(
        attributes[i].0,
        denoted(attributes[i].1.ty, table),
        attributes[i].1.required,
    ) by {}
    if collected(steps) is Ok {
        assert forall|i: int| 0 <= i < attributes.len() implies denoted(
            (#[trigger] attributes[i]).1.ty,
            table,
        ) is Ok by {
            assert(steps[i] is Ok);
        }
    } else {
        let k = collected_first(steps);
        assert forall|i: int| 0 <= i < k implies denoted(
            (#[trigger] attributes[i]).1.ty,
            table,
        ) is Ok by {
            assert(steps[i] is Ok);
        }
        assert(denoted(attributes[k].1.ty, table) is Err);
    }
}

/// Whether no record in a type may have further attributes.
pub open spec fn is_closed(t: TypeModel) -> bool
    decreases t,
{
    match t {
        TypeModel::SetOf(Some(element)) => is_closed(*element),
        TypeModel::Record { attrs, open } => {
            &&& open == OpenTag::ClosedAttributes
            &&& forall|i: int| 0 <= i < attrs.len() ==> is_closed((#[trigger] attrs[i]).1.ty)
        },
        _ => true,
    }
}

/// No record that may have further attributes comes out of a conversion.
pub proof fn converted_types_are_closed(
    t: SchemaType<NameModel>,
    extensions: Seq<NameModel>,
    table: Seq<(NameModel, TypeModel)>,
)
    requires
        convertible(t, extensions) is Ok,
        forall|i: int| 0 <= i < table.len() ==> is_closed((#[trigger] table[i]).1),
    ensures
        denoted(t, table) matches Ok(r) ==> is_closed(r),
    decreases t,
{
    match t {
        SchemaType::CommonTypeRef { name, loc } => {
            entry_at_found::<InternalName, TypeModel>(table, name.components());
        },
        SchemaType::Type { ty, loc } => match ty {
            VariantModel::SetOf { element } => {
                converted_types_are_closed(*element, extensions, table);
            },
            VariantModel::Record(record) => {
                let steps = attributes_convertible(record.attributes, extensions);
                collected_ok(steps);
                record_denotes_its_attributes(record, loc, table);
                if let Ok(r) = denoted(t, table) {
                    assert forall|i: int| 0 <= i < r->attrs.len() implies is_closed(
                        (#[trigger] r->attrs[i]).1.ty,
                    ) by {
                        assert(steps[i] is Ok);
                        assert(steps[i] == convertible(record.attributes[i].1.ty, extensions));
                        converted_types_are_closed(record.attributes[i].1.ty, extensions, table);
                    }
                }
            },
            VariantModel::EntityOrCommon { name } => {
                entry_at_found::<InternalName, TypeModel>(table, name.components());
            },
            _ => {},
        },
    }
}

} // verus!
