//! What references stand for.

use crate::defs::DefsModel;
use crate::json_schema::{
    attribute_resolved, attributes_resolved, type_qualified, type_resolved, AttributeModel,
    SchemaType, VariantModel,
};
use crate::names::{qualified, NameModel};
use crate::outcome::{collected, collected_ok};
use crate::raw_name::{
    conditional, first_defined, first_defined_found, is_defined_as, resolved, ConditionalModel,
    ReferenceType,
};
use vstd::prelude::*;

verus! {

/// Whether `p` holds of every reference in a type, each with what it has to refer
/// to where it stands.
pub open spec fn each_reference<N>(t: SchemaType<N>, p: spec_fn(N, ReferenceType) -> bool) -> bool
    decreases t,
{
    match t {
        SchemaType::CommonTypeRef { name, .. } => p(name, ReferenceType::Common),
        SchemaType::Type { ty, .. } => match ty {
            VariantModel::SetOf { element } => each_reference(*element, p),
            VariantModel::Record(record) => forall|i: int|
                0 <= i < record.attributes.len() ==> each_reference(
                    (#[trigger] record.attributes[i]).1.ty,
                    p,
                ),
            VariantModel::Entity { name } => p(name, ReferenceType::Entity),
            VariantModel::EntityOrCommon { name } => p(name, ReferenceType::CommonOrEntity),
            _ => true,
        },
    }
}

/// That a reference stands for something.
pub open spec fn resolves(defs: DefsModel) -> spec_fn(ConditionalModel, ReferenceType) -> bool {
    |reference: ConditionalModel, kind: ReferenceType| resolved(reference, defs) is Ok
}

/// That a reference may refer to just what it has to refer to where it stands.
pub open spec fn fits() -> spec_fn(ConditionalModel, ReferenceType) -> bool {
    |reference: ConditionalModel, kind: ReferenceType| reference.reference_type == kind
}

/// That a name is defined as what it has to refer to where it stands.
pub open spec fn defined(defs: DefsModel) -> spec_fn(NameModel, ReferenceType) -> bool {
    |name: NameModel, kind: ReferenceType| is_defined_as(name, kind, defs)
}

/// A type can be fully qualified exactly where every reference in it stands for
/// something.
pub proof fn type_resolves_where_references_do(t: SchemaType<ConditionalModel>, defs: DefsModel)
    ensures
        type_resolved(t, defs) is Ok <==> each_reference(t, resolves(defs)),
    decreases t,
{
    if let SchemaType::Type { ty, loc } = t {
        match ty {
            VariantModel::SetOf { element } => {
                type_resolves_where_references_do(*element, defs);
            },
            VariantModel::Record(record) => {
                let steps = attributes_resolved(record.attributes, defs);
                collected_ok(steps);
                assert forall|i: int| 0 <= i < record.attributes.len() implies (steps[i] is Ok
                    <==> each_reference((#[trigger] record.attributes[i]).1.ty, resolves(defs))) by {
                    type_resolves_where_references_do(record.attributes[i].1.ty, defs);
                    attribute_resolved(record.attributes, defs, i);
                }
                if each_reference(t, resolves(defs)) {
                    assert forall|i: int| 0 <= i < steps.len() implies (
                    #[trigger] steps[i]) is Ok by {
                        assert(each_reference(record.attributes[i].1.ty, resolves(defs)));
                    }
                }
                if collected(steps) is Ok {
                    assert forall|i: int| 0 <= i < record.attributes.len() implies each_reference(
                        (#[trigger] record.attributes[i]).1.ty,
                        resolves(defs),
                    ) by {
                        assert(steps[i] is Ok);
                    }
                }
            },
            _ => {},
        }
    }
}

/// References are made with what they have to refer to where they stand.
pub proof fn references_are_made_to_fit(t: SchemaType<NameModel>, namespace: Option<NameModel>)
    ensures
        each_reference(type_qualified(t, namespace), fits()),
    decreases t,
{
    if let SchemaType::Type { ty, loc } = t {
        match ty {
            VariantModel::SetOf { element } => {
                references_are_made_to_fit(*element, namespace);
            },
            VariantModel::Record(record) => {
                let q = type_qualified(t, namespace)->ty->Record_0;
                assert forall|i: int| 0 <= i < q.attributes.len() implies each_reference(
                    (#[trigger] q.attributes[i]).1.ty,
                    fits(),
                ) by {
                    references_are_made_to_fit(record.attributes[i].1.ty, namespace);
                }
            },
            _ => {},
        }
    }
}

/// Once a type is fully qualified, every reference in it is to something that is
/// defined as what the reference has to be to.
pub proof fn resolved_references_are_defined(t: SchemaType<ConditionalModel>, defs: DefsModel)
    requires
        each_reference(t, fits()),
    ensures
        type_resolved(t, defs) matches Ok(r) ==> each_reference(r, defined(defs)),
    decreases t,
{
    match t {
        SchemaType::CommonTypeRef { name, loc } => {
            first_defined_found(name.possibilities, name.reference_type, defs);
        },
        SchemaType::Type { ty, loc } => match ty {
            VariantModel::SetOf { element } => {
                resolved_references_are_defined(*element, defs);
            },
            VariantModel::Record(record) => {
                let steps = attributes_resolved(record.attributes, defs);
                collected_ok(steps);
                if let Ok(attributes) = collected(steps) {
                    assert forall|i: int| 0 <= i < attributes.len() implies each_reference(
                        (#[trigger] attributes[i]).1.ty,
                        defined(defs),
                    ) by {
                        assert(each_reference(record.attributes[i].1.ty, fits()));
                        resolved_references_are_defined(record.attributes[i].1.ty, defs);
                        attribute_resolved(record.attributes, defs, i);
                    }
                }
            },
            VariantModel::Entity { name } => {
                first_defined_found(name.possibilities, name.reference_type, defs);
            },
            VariantModel::EntityOrCommon { name } => {
                first_defined_found(name.possibilities, name.reference_type, defs);
            },
            _ => {},
        },
    }
}

/// Inside a namespace, a name without one stands for what is defined under it
/// there, and for what is defined under it in the empty namespace only where
/// nothing is.
pub proof fn namespace_comes_first(
    name: NameModel,
    namespace: NameModel,
    kind: ReferenceType,
    defs: DefsModel,
)
    requires
        name.path.len() == 0,
    ensures
        ({
            let inside = qualified(name, Some(namespace));
            let reference = conditional(name, Some(namespace), kind);
            resolved(reference, defs) == (if is_defined_as(inside, kind, defs) {
                Ok::<NameModel, Seq<ConditionalModel>>(inside)
            } else if is_defined_as(name, kind, defs) {
                Ok::<NameModel, Seq<ConditionalModel>>(name)
            } else {
                Err::<NameModel, Seq<ConditionalModel>>(seq![reference])
            })
        }),
{
    let possibilities = conditional(name, Some(namespace), kind).possibilities;
    reveal_with_fuel(first_defined, 3);
    assert(possibilities[0] == qualified(name, Some(namespace)));
    assert(possibilities.skip(1)[0] == name);
}

/// A name with a namespace, and any name inside the empty one, stands for what is
/// defined under just that name.
pub proof fn full_name_stands_for_itself(
    name: NameModel,
    namespace: Option<NameModel>,
    kind: ReferenceType,
    defs: DefsModel,
)
    requires
        name.path.len() > 0 || namespace is None,
    ensures
        resolved(conditional(name, namespace, kind), defs) == (if is_defined_as(name, kind, defs) {
            Ok::<NameModel, Seq<ConditionalModel>>(name)
        } else {
            Err::<NameModel, Seq<ConditionalModel>>(seq![conditional(name, namespace, kind)])
        }),
{
    reveal_with_fuel(first_defined, 2);
}

/// Whether two types differ in nothing but their references.
pub open spec fn same_but_for_references<N, M>(a: SchemaType<N>, b: SchemaType<M>) -> bool
    decreases a,
{
    match (a, b) {
        (
            SchemaType::CommonTypeRef { loc: a_loc, .. },
            SchemaType::CommonTypeRef { loc: b_loc, .. },
        ) => a_loc == b_loc,
        (SchemaType::Type { ty: a, loc: a_loc }, SchemaType::Type { ty: b, loc: b_loc }) => {
            &&& a_loc == b_loc
            &&& match (a, b) {
                (VariantModel::String, VariantModel::String) => true,
                (VariantModel::Long, VariantModel::Long) => true,
                (VariantModel::Boolean, VariantModel::Boolean) => true,
                (VariantModel::SetOf { element: a }, VariantModel::SetOf { element: b }) => {
                    same_but_for_references(*a, *b)
                },
                (VariantModel::Record(a), VariantModel::Record(b)) => {
                    &&& a.additional_attributes == b.additional_attributes
                    &&& a.attributes.len() == b.attributes.len()
                    &&& forall|i: int|
                        0 <= i < a.attributes.len() ==> {
                            &&& (#[trigger] a.attributes[i]).0 == b.attributes[i].0
                            &&& a.attributes[i].1.required == b.attributes[i].1.required
                            &&& same_but_for_references(
                                a.attributes[i].1.ty,
                                b.attributes[i].1.ty,
                            )
                        }
                },
                (VariantModel::Entity { .. }, VariantModel::Entity { .. }) => true,
                (VariantModel::EntityOrCommon { .. }, VariantModel::EntityOrCommon { .. }) => true,
                (VariantModel::Extension { name: a }, VariantModel::Extension { name: b }) => {
                    a == b
                },
                _ => false,
            }
        },
        _ => false,
    }
}

/// Making the references of a type changes nothing else in it.
pub proof fn making_references_keeps_the_rest(
    t: SchemaType<NameModel>,
    namespace: Option<NameModel>,
)
    ensures
        same_but_for_references(t, type_qualified(t, namespace)),
    decreases t,
{
    if let SchemaType::Type { ty, loc } = t {
        match ty {
            VariantModel::SetOf { element } => {
                making_references_keeps_the_rest(*element, namespace);
            },
            VariantModel::Record(record) => {
                let q = type_qualified(t, namespace)->ty->Record_0;
                assert forall|i: int| 0 <= i < record.attributes.len() implies {
                    &&& (#[trigger] record.attributes[i]).0 == q.attributes[i].0
                    &&& record.attributes[i].1.required == q.attributes[i].1.required
                    &&& same_but_for_references(
                        record.attributes[i].1.ty,
                        q.attributes[i].1.ty,
                    )
                } by {
                    making_references_keeps_the_rest(record.attributes[i].1.ty, namespace);
                }
            },
            _ => {},
        }
    }
}

/// Fully qualifying a type changes nothing but the references in it.
pub proof fn resolving_keeps_the_rest(t: SchemaType<ConditionalModel>, defs: DefsModel)
    ensures
        type_resolved(t, defs) matches Ok(r) ==> same_but_for_references(t, r),
    decreases t,
{
    if let SchemaType::Type { ty, loc } = t {
        match ty {
            VariantModel::SetOf { element } => {
                resolving_keeps_the_rest(*element, defs);
            },
            VariantModel::Record(record) => {
                let steps = attributes_resolved(record.attributes, defs);
                collected_ok(steps);
                if let Ok(attributes) = collected(steps) {
                    assert forall|i: int| 0 <= i < record.attributes.len() implies {
                        &&& (#[trigger] record.attributes[i]).0 == attributes[i].0
                        &&& record.attributes[i].1.required == attributes[i].1.required
                        &&& same_but_for_references(
                            record.attributes[i].1.ty,
                            attributes[i].1.ty,
                        )
                    } by {
                        resolving_keeps_the_rest(record.attributes[i].1.ty, defs);
                        attribute_resolved(record.attributes, defs, i);
                        assert(steps[i] == Ok::<
                            (Seq<char>, AttributeModel<NameModel>),
                            Seq<ConditionalModel>,
                        >(attributes[i]));
                    }
                }
            },
            _ => {},
        }
    }
}

} // verus!
