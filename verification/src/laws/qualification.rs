//! What becomes of the references in a type, place by place.

use crate::defs::DefsModel;
use crate::json_schema::{
    attribute_resolved, attributes_resolved, type_qualified, type_resolved, AttributeModel,
    SchemaType, VariantModel,
};
use crate::names::{qualified, NameModel};
use crate::outcome::{collected, collected_first, collected_ok};
use crate::raw_name::{
    conditional, first_defined, resolved, unconditional, ConditionalModel, ReferenceType,
};
use vstd::prelude::*;

verus! {

/// Whether two types are built alike, and `p` holds of the two references at each
/// place, with what is referred to there.
pub open spec fn corresponds<N, M>(
    a: SchemaType<N>,
    b: SchemaType<M>,
    p: spec_fn(N, M, ReferenceType) -> bool,
) -> bool
    decreases a,
{
    match (a, b) {
        (
            SchemaType::CommonTypeRef { name: x, loc: x_loc },
            SchemaType::CommonTypeRef { name: y, loc: y_loc },
        ) => x_loc == y_loc && p(x, y, ReferenceType::Common),
        (SchemaType::Type { ty: a, loc: a_loc }, SchemaType::Type { ty: b, loc: b_loc }) => {
            &&& a_loc == b_loc
            &&& match (a, b) {
                (VariantModel::String, VariantModel::String) => true,
                (VariantModel::Long, VariantModel::Long) => true,
                (VariantModel::Boolean, VariantModel::Boolean) => true,
                (VariantModel::SetOf { element: a }, VariantModel::SetOf { element: b }) => {
                    corresponds(*a, *b, p)
                },
                (VariantModel::Record(a), VariantModel::Record(b)) => {
                    &&& a.additional_attributes == b.additional_attributes
                    &&& a.attributes.len() == b.attributes.len()
                    &&& forall|i: int|
                        0 <= i < a.attributes.len() ==> {
                            &&& (#[trigger] a.attributes[i]).0 == b.attributes[i].0
                            &&& a.attributes[i].1.required == b.attributes[i].1.required
                            &&& corresponds(a.attributes[i].1.ty, b.attributes[i].1.ty, p)
                        }
                },
                (VariantModel::Entity { name: x }, VariantModel::Entity { name: y }) => p(
                    x,
                    y,
                    ReferenceType::Entity,
                ),
                (
                    VariantModel::EntityOrCommon { name: x },
                    VariantModel::EntityOrCommon { name: y },
                ) => p(x, y, ReferenceType::CommonOrEntity),
                (VariantModel::Extension { name: x }, VariantModel::Extension { name: y }) => {
                    x == y
                },
                _ => false,
            }
        },
        _ => false,
    }
}

/// Whether `full` is `name` with `namespace` in front.
pub open spec fn is_inside(full: NameModel, name: NameModel, namespace: NameModel) -> bool {
    &&& full.path == namespace.path.push(namespace.id)
    &&& full.id == name.id
    &&& full.loc == name.loc
}

/// Whether `reference` is the one that `name` makes inside `namespace`: to that name
/// in the namespace, or else to it in the empty one; a name that has a namespace can
/// only stand for itself.
pub open spec fn is_made(
    name: NameModel,
    reference: ConditionalModel,
    kind: ReferenceType,
    namespace: Option<NameModel>,
) -> bool {
    &&& reference.raw == name
    &&& reference.reference_type == kind
    &&& match namespace {
        Some(ns) if name.path.len() == 0 => {
            &&& reference.possibilities.len() == 2
            &&& is_inside(reference.possibilities[0], name, ns)
            &&& reference.possibilities[1] == name
        },
        _ => {
            &&& reference.possibilities.len() == 1
            &&& reference.possibilities[0] == name
        },
    }
}

/// `is_made` of the two references at a place.
pub open spec fn made_in(namespace: Option<NameModel>) -> spec_fn(
    NameModel,
    ConditionalModel,
    ReferenceType,
) -> bool {
    |name: NameModel, reference: ConditionalModel, kind: ReferenceType|
        is_made(name, reference, kind, namespace)
}

/// Whether something that a reference of that kind may be to is defined as `name`.
pub open spec fn counts(name: NameModel, kind: ReferenceType, defs: DefsModel) -> bool {
    match kind {
        ReferenceType::Common => defs.common.contains(name.path.push(name.id)),
        ReferenceType::Entity => defs.entity.contains(name.path.push(name.id)),
        ReferenceType::CommonOrEntity => {
            ||| defs.common.contains(name.path.push(name.id))
            ||| defs.entity.contains(name.path.push(name.id))
        },
    }
}

/// Whether `name` is the first of the names that `reference` may stand for under which
/// something is defined that it may be to.
pub open spec fn is_found(reference: ConditionalModel, name: NameModel, defs: DefsModel) -> bool {
    exists|k: int|
        0 <= k < reference.possibilities.len() && #[trigger] reference.possibilities[k] == name
            && counts(name, reference.reference_type, defs) && forall|i: int|
            0 <= i < k ==> !counts(
                #[trigger] reference.possibilities[i],
                reference.reference_type,
                defs,
            )
}

/// Whether nothing is defined that `reference` may stand for.
pub open spec fn is_lost(reference: ConditionalModel, defs: DefsModel) -> bool {
    forall|i: int|
        0 <= i < reference.possibilities.len() ==> !counts(
            #[trigger] reference.possibilities[i],
            reference.reference_type,
            defs,
        )
}

/// `is_found` of the two references at a place.
pub open spec fn found_in(defs: DefsModel) -> spec_fn(
    ConditionalModel,
    NameModel,
    ReferenceType,
) -> bool {
    |reference: ConditionalModel, name: NameModel, kind: ReferenceType|
        is_found(reference, name, defs)
}

/// Whether `meant` is what `name`, written inside `namespace`, stands for: what is
/// defined under it in the namespace, or else in the empty one.
pub open spec fn is_meant(
    name: NameModel,
    meant: NameModel,
    kind: ReferenceType,
    namespace: Option<NameModel>,
    defs: DefsModel,
) -> bool {
    match namespace {
        Some(ns) if name.path.len() == 0 => {
            ||| is_inside(meant, name, ns) && counts(meant, kind, defs)
            ||| meant == name && counts(name, kind, defs) && forall|full: NameModel| #[trigger]
                is_inside(full, name, ns) ==> !counts(full, kind, defs)
        },
        _ => meant == name && counts(name, kind, defs),
    }
}

/// `is_meant` of the two references at a place.
pub open spec fn meant_in(namespace: Option<NameModel>, defs: DefsModel) -> spec_fn(
    NameModel,
    NameModel,
    ReferenceType,
) -> bool {
    |name: NameModel, meant: NameModel, kind: ReferenceType|
        is_meant(name, meant, kind, namespace, defs)
}

/// The reference that a name makes inside a namespace may stand for that name in the
/// namespace, or else for it in the empty one; a name that has a namespace, and any
/// name in the empty one, may stand for itself only.
pub proof fn reference_is_made(
    name: NameModel,
    namespace: Option<NameModel>,
    kind: ReferenceType,
)
    ensures
        is_made(name, conditional(name, namespace, kind), kind, namespace),
{
}

/// A reference to one name only may stand for just that name.
pub proof fn unconditional_stands_for_itself(name: NameModel, kind: ReferenceType)
    ensures
        unconditional(name, kind).possibilities =~= seq![name],
        unconditional(name, kind).reference_type == kind,
        unconditional(name, kind).raw == name,
{
}

/// The place of what `first_defined` finds.
proof fn first_defined_place(names: Seq<NameModel>, kind: ReferenceType, defs: DefsModel) -> (k: int)
    ensures
        first_defined(names, kind, defs) is Some ==> {
            &&& 0 <= k < names.len()
            &&& names[k] == first_defined(names, kind, defs)->0
            &&& counts(names[k], kind, defs)
            &&& forall|i: int| 0 <= i < k ==> !counts(#[trigger] names[i], kind, defs)
        },
        first_defined(names, kind, defs) is None ==> forall|i: int|
            0 <= i < names.len() ==> !counts(#[trigger] names[i], kind, defs),
    decreases names.len(),
{
    if names.len() == 0 {
        0
    } else if counts(names[0], kind, defs) {
        0
    } else {
        let rest = names.skip(1);
        let k = first_defined_place(rest, kind, defs);
        assert forall|i: int| 0 < i < names.len() implies #[trigger] names[i] == rest[i - 1] by {}
        if first_defined(names, kind, defs) is Some {
            assert forall|i: int| 0 <= i < k + 1 implies !counts(#[trigger] names[i], kind, defs) by {
                if i > 0 {
                    assert(!counts(rest[i - 1], kind, defs));
                }
            }
        } else {
            assert forall|i: int| 0 <= i < names.len() implies !counts(
                #[trigger] names[i],
                kind,
                defs,
            ) by {
                if i > 0 {
                    assert(!counts(rest[i - 1], kind, defs));
                }
            }
        }
        k + 1
    }
}

/// A reference is resolved to the first of the names that it may stand for under which
/// something is defined that it may be to. Where there is none, the reference itself,
/// and nothing else, is reported.
pub proof fn reference_is_found(reference: ConditionalModel, defs: DefsModel)
    ensures
        resolved(reference, defs) matches Ok(name) ==> is_found(reference, name, defs),
        resolved(reference, defs) is Err <==> is_lost(reference, defs),
        resolved(reference, defs) matches Err(reported) ==> reported =~= seq![reference],
{
    let names = reference.possibilities;
    let k = first_defined_place(names, reference.reference_type, defs);
    if resolved(reference, defs) is Ok {
        assert(names[k] == resolved(reference, defs)->Ok_0);
    }
}

/// A reference stands for one name at most.
pub proof fn found_name_is_unique(
    reference: ConditionalModel,
    a: NameModel,
    b: NameModel,
    defs: DefsModel,
)
    requires
        is_found(reference, a, defs),
        is_found(reference, b, defs),
    ensures
        a == b,
{
    let k = choose|k: int|
        0 <= k < reference.possibilities.len() && #[trigger] reference.possibilities[k] == a
            && counts(a, reference.reference_type, defs) && forall|i: int|
            0 <= i < k ==> !counts(
                #[trigger] reference.possibilities[i],
                reference.reference_type,
                defs,
            );
    let l = choose|l: int|
        0 <= l < reference.possibilities.len() && #[trigger] reference.possibilities[l] == b
            && counts(b, reference.reference_type, defs) && forall|i: int|
            0 <= i < l ==> !counts(
                #[trigger] reference.possibilities[i],
                reference.reference_type,
                defs,
            );
    if k < l {
        assert(!counts(reference.possibilities[k], reference.reference_type, defs));
    }
    if l < k {
        assert(!counts(reference.possibilities[l], reference.reference_type, defs));
    }
}

/// A name as it stands inside a namespace that it has to be in: one without a
/// namespace gets that one in front, any other stays as it is.
pub proof fn qualified_name_is_inside(name: NameModel, namespace: Option<NameModel>)
    ensures
        (match namespace {
            Some(ns) if name.path.len() == 0 => is_inside(qualified(name, namespace), name, ns),
            _ => qualified(name, namespace) == name,
        }),
{
}

/// A type whose references are made inside a namespace is built like the one that was
/// written, and at each place stands the reference that the name written there makes
/// inside the namespace, to what is referred to at that place.
pub proof fn references_are_made_in_place(t: SchemaType<NameModel>, namespace: Option<NameModel>)
    ensures
        corresponds(t, type_qualified(t, namespace), made_in(namespace)),
    decreases t,
{
    if let SchemaType::Type { ty, loc } = t {
        match ty {
            VariantModel::SetOf { element } => {
                references_are_made_in_place(*element, namespace);
            },
            VariantModel::Record(record) => {
                let q = type_qualified(t, namespace)->ty->Record_0;
                assert forall|i: int| 0 <= i < record.attributes.len() implies {
                    &&& (#[trigger] record.attributes[i]).0 == q.attributes[i].0
                    &&& record.attributes[i].1.required == q.attributes[i].1.required
                    &&& corresponds(
                        record.attributes[i].1.ty,
                        q.attributes[i].1.ty,
                        made_in(namespace),
                    )
                } by {
                    references_are_made_in_place(record.attributes[i].1.ty, namespace);
                }
            },
            _ => {},
        }
    }
}

/// A type that is fully qualified is built like the one before, and at each place
/// stands what the reference at that place is resolved to.
pub proof fn references_are_resolved_in_place(t: SchemaType<ConditionalModel>, defs: DefsModel)
    ensures
        type_resolved(t, defs) matches Ok(r) ==> corresponds(t, r, found_in(defs)),
    decreases t,
{
    match t {
        SchemaType::CommonTypeRef { name, loc } => {
            reference_is_found(name, defs);
        },
        SchemaType::Type { ty, loc } => match ty {
            VariantModel::SetOf { element } => {
                references_are_resolved_in_place(*element, defs);
            },
            VariantModel::Record(record) => {
                let steps = attributes_resolved(record.attributes, defs);
                collected_ok(steps);
                if let Ok(attributes) = collected(steps) {
                    assert forall|i: int| 0 <= i < record.attributes.len() implies {
                        &&& (#[trigger] record.attributes[i]).0 == attributes[i].0
                        &&& record.attributes[i].1.required == attributes[i].1.required
                        &&& corresponds(
                            record.attributes[i].1.ty,
                            attributes[i].1.ty,
                            found_in(defs),
                        )
                    } by {
                        references_are_resolved_in_place(record.attributes[i].1.ty, defs);
                        attribute_resolved(record.attributes, defs, i);
                        assert(steps[i] == Ok::<
                            (Seq<char>, AttributeModel<NameModel>),
                            Seq<ConditionalModel>,
                        >(attributes[i]));
                    }
                }
            },
            VariantModel::Entity { name } => {
                reference_is_found(name, defs);
            },
            VariantModel::EntityOrCommon { name } => {
                reference_is_found(name, defs);
            },
            _ => {},
        },
    }
}

/// What a reference that was made inside a namespace is found to be is what the name
/// means there.
proof fn found_is_meant(
    name: NameModel,
    reference: ConditionalModel,
    found: NameModel,
    kind: ReferenceType,
    namespace: Option<NameModel>,
    defs: DefsModel,
)
    requires
        is_made(name, reference, kind, namespace),
        is_found(reference, found, defs),
    ensures
        is_meant(name, found, kind, namespace, defs),
{
    let k = choose|k: int|
        0 <= k < reference.possibilities.len() && #[trigger] reference.possibilities[k] == found
            && counts(found, reference.reference_type, defs) && forall|i: int|
            0 <= i < k ==> !counts(
                #[trigger] reference.possibilities[i],
                reference.reference_type,
                defs,
            );
    if let Some(ns) = namespace {
        if name.path.len() == 0 && k == 1 {
            let inside = reference.possibilities[0];
            assert(!counts(inside, kind, defs));
            assert forall|full: NameModel| #[trigger] is_inside(full, name, ns) implies !counts(
                full,
                kind,
                defs,
            ) by {
                assert(full == inside);
            }
        }
    }
}

/// Two correspondences one behind the other.
proof fn made_then_found_is_meant(
    a: SchemaType<NameModel>,
    b: SchemaType<ConditionalModel>,
    c: SchemaType<NameModel>,
    namespace: Option<NameModel>,
    defs: DefsModel,
)
    requires
        corresponds(a, b, made_in(namespace)),
        corresponds(b, c, found_in(defs)),
    ensures
        corresponds(a, c, meant_in(namespace, defs)),
    decreases a,
{
    match (a, b, c) {
        (
            SchemaType::CommonTypeRef { name: x, .. },
            SchemaType::CommonTypeRef { name: y, .. },
            SchemaType::CommonTypeRef { name: z, .. },
        ) => {
            found_is_meant(x, y, z, ReferenceType::Common, namespace, defs);
        },
        (
            SchemaType::Type { ty: a, .. },
            SchemaType::Type { ty: b, .. },
            SchemaType::Type { ty: c, .. },
        ) => match (a, b, c) {
            (
                VariantModel::SetOf { element: a },
                VariantModel::SetOf { element: b },
                VariantModel::SetOf { element: c },
            ) => {
                made_then_found_is_meant(*a, *b, *c, namespace, defs);
            },
            (VariantModel::Record(a), VariantModel::Record(b), VariantModel::Record(c)) => {
                assert forall|i: int| 0 <= i < a.attributes.len() implies {
                    &&& (#[trigger] a.attributes[i]).0 == c.attributes[i].0
                    &&& a.attributes[i].1.required == c.attributes[i].1.required
                    &&& corresponds(
                        a.attributes[i].1.ty,
                        c.attributes[i].1.ty,
                        meant_in(namespace, defs),
                    )
                } by {
                    assert(a.attributes[i].0 == b.attributes[i].0);
                    assert(b.attributes[i].0 == c.attributes[i].0);
                    made_then_found_is_meant(
                        a.attributes[i].1.ty,
                        b.attributes[i].1.ty,
                        c.attributes[i].1.ty,
                        namespace,
                        defs,
                    );
                }
            },
            (
                VariantModel::Entity { name: x },
                VariantModel::Entity { name: y },
                VariantModel::Entity { name: z },
            ) => {
                found_is_meant(x, y, z, ReferenceType::Entity, namespace, defs);
            },
            (
                VariantModel::EntityOrCommon { name: x },
                VariantModel::EntityOrCommon { name: y },
                VariantModel::EntityOrCommon { name: z },
            ) => {
                found_is_meant(x, y, z, ReferenceType::CommonOrEntity, namespace, defs);
            },
            _ => {},
        },
        _ => {},
    }
}

/// A type written inside a namespace comes out of both steps built as it was written,
/// and each name in it as what it means there: what is defined under it in the
/// namespace, or else in the empty one, and of the kind that is referred to at its
/// place.
pub proof fn written_names_are_what_they_mean(
    t: SchemaType<NameModel>,
    namespace: Option<NameModel>,
    defs: DefsModel,
)
    ensures
        type_resolved(type_qualified(t, namespace), defs) matches Ok(r) ==> corresponds(
            t,
            r,
            meant_in(namespace, defs),
        ),
{
    let references = type_qualified(t, namespace);
    if let Ok(r) = type_resolved(references, defs) {
        references_are_made_in_place(t, namespace);
        references_are_resolved_in_place(references, defs);
        made_then_found_is_meant(t, references, r, namespace, defs);
    }
}

/// Whether each reference in a type stands for something.
pub open spec fn none_lost(t: SchemaType<ConditionalModel>, defs: DefsModel) -> bool
    decreases t,
{
    match t {
        SchemaType::CommonTypeRef { name, .. } => !is_lost(name, defs),
        SchemaType::Type { ty, .. } => match ty {
            VariantModel::SetOf { element } => none_lost(*element, defs),
            VariantModel::Record(record) => forall|i: int|
                0 <= i < record.attributes.len() ==> none_lost(
                    (#[trigger] record.attributes[i]).1.ty,
                    defs,
                ),
            VariantModel::Entity { name } => !is_lost(name, defs),
            VariantModel::EntityOrCommon { name } => !is_lost(name, defs),
            _ => true,
        },
    }
}

/// Whether `reference` is the first in a type, in the order in which they are written,
/// that stands for nothing.
pub open spec fn is_first_lost(
    t: SchemaType<ConditionalModel>,
    reference: ConditionalModel,
    defs: DefsModel,
) -> bool
    decreases t,
{
    match t {
        SchemaType::CommonTypeRef { name, .. } => name == reference && is_lost(name, defs),
        SchemaType::Type { ty, .. } => match ty {
            VariantModel::SetOf { element } => is_first_lost(*element, reference, defs),
            VariantModel::Record(record) => exists|k: int|
                0 <= k < record.attributes.len() && is_first_lost(
                    (#[trigger] record.attributes[k]).1.ty,
                    reference,
                    defs,
                ) && forall|i: int|
                    0 <= i < k ==> none_lost((#[trigger] record.attributes[i]).1.ty, defs),
            VariantModel::Entity { name } => name == reference && is_lost(name, defs),
            VariantModel::EntityOrCommon { name } => name == reference && is_lost(name, defs),
            _ => false,
        },
    }
}

/// A type can be fully qualified exactly where no reference in it stands for nothing.
/// Where one does, the first such reference, and nothing else, is reported.
pub proof fn lost_references_are_reported(t: SchemaType<ConditionalModel>, defs: DefsModel)
    ensures
        type_resolved(t, defs) is Ok <==> none_lost(t, defs),
        type_resolved(t, defs) matches Err(reported) ==> reported.len() == 1 && is_first_lost(
            t,
            reported[0],
            defs,
        ),
    decreases t,
{
    match t {
        SchemaType::CommonTypeRef { name, loc } => {
            reference_is_found(name, defs);
        },
        SchemaType::Type { ty, loc } => match ty {
            VariantModel::SetOf { element } => {
                lost_references_are_reported(*element, defs);
            },
            VariantModel::Record(record) => {
                let steps = attributes_resolved(record.attributes, defs);
                collected_ok(steps);
                assert forall|i: int| 0 <= i < record.attributes.len() implies {
                    &&& (#[trigger] steps[i]) is Ok <==> none_lost(record.attributes[i].1.ty, defs)
                    &&& steps[i] is Err ==> steps[i]->Err_0.len() == 1 && is_first_lost(
                        record.attributes[i].1.ty,
                        steps[i]->Err_0[0],
                        defs,
                    )
                } by {
                    lost_references_are_reported(record.attributes[i].1.ty, defs);
                    attribute_resolved(record.attributes, defs, i);
                }
                if collected(steps) is Ok {
                    assert forall|i: int| 0 <= i < record.attributes.len() implies none_lost(
                        (#[trigger] record.attributes[i]).1.ty,
                        defs,
                    ) by {
                        assert(steps[i] is Ok);
                    }
                } else {
                    let k = collected_first(steps);
                    assert(steps[k] is Err);
                    assert forall|i: int| 0 <= i < k implies none_lost(
                        (#[trigger] record.attributes[i]).1.ty,
                        defs,
                    ) by {
                        assert(steps[i] is Ok);
                    }
                    let reported = steps[k]->Err_0;
                    assert(is_first_lost(record.attributes[k].1.ty, reported[0], defs));
                    assert(!none_lost(record.attributes[k].1.ty, defs));
                }
            },
            VariantModel::Entity { name } => {
                reference_is_found(name, defs);
            },
            VariantModel::EntityOrCommon { name } => {
                reference_is_found(name, defs);
            },
            _ => {},
        },
    }
}

} // verus!
