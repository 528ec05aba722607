//! What a fragment says of what was declared, and what becomes of it.

use crate::declarations::{EntityDeclarationModel, EntityKindModel};
use crate::defs::DefsModel;
use crate::entity_types::{
    entity_references, fragment_resolved, raw_fragment, references_resolved, tags_resolved,
    undeclared, undefined_in, FragmentModel,
};
use crate::err::partition_undefined;
use crate::json_schema::{type_resolved, SchemaType};
use crate::keyed::{distinct, Keyed};
use crate::laws::lists::{distinct_is_one_each, is_among, is_first_of, none_is_picked, one_each};
use crate::laws::qualification::{
    corresponds, counts, found_in, found_name_is_unique, is_first_lost, is_found, is_lost, is_made,
    lost_references_are_reported, made_in, none_lost, reference_is_found, reference_is_made,
    references_are_made_in_place, references_are_resolved_in_place,
};
use crate::names::{InternalName, NameModel};
use crate::outcome::{concat, errs, partitioned, partitioned_ok};
use crate::raw_name::{resolved, ConditionalModel, ConditionalName, ReferenceType};
use vstd::prelude::*;

verus! {

/// Whether two names are the same, wherever they were written.
pub open spec fn same_name(a: NameModel, b: NameModel) -> bool {
    a.path == b.path && a.id == b.id
}

/// `same_name` as a relation.
pub open spec fn same_names() -> spec_fn(NameModel, NameModel) -> bool {
    |a: NameModel, b: NameModel| same_name(a, b)
}

/// Whether two references are the same, wherever they were written.
pub open spec fn same_reference(a: ConditionalModel, b: ConditionalModel) -> bool {
    &&& a.reference_type == b.reference_type
    &&& same_name(a.raw, b.raw)
    &&& a.possibilities.len() == b.possibilities.len()
    &&& forall|i: int|
        0 <= i < a.possibilities.len() ==> same_name(
            #[trigger] a.possibilities[i],
            b.possibilities[i],
        )
}

/// `same_reference` as a relation.
pub open spec fn same_references() -> spec_fn(ConditionalModel, ConditionalModel) -> bool {
    |a: ConditionalModel, b: ConditionalModel| same_reference(a, b)
}

/// Whether a reference is the one to an entity type that a name makes inside
/// `namespace`.
pub open spec fn entity_made_in(namespace: Option<NameModel>) -> spec_fn(
    NameModel,
    ConditionalModel,
) -> bool {
    |name: NameModel, reference: ConditionalModel|
        is_made(name, reference, ReferenceType::Entity, namespace)
}

/// Whether a name is what a reference stands for.
pub open spec fn stands_for(defs: DefsModel) -> spec_fn(ConditionalModel, NameModel) -> bool {
    |reference: ConditionalModel, name: NameModel| is_found(reference, name, defs)
}

/// Names are the same where their components are.
pub proof fn same_name_same_components(a: NameModel, b: NameModel)
    ensures
        same_name(a, b) <==> a.components() == b.components(),
        same_name(a, b) <==> a.path.push(a.id) == b.path.push(b.id),
{
    if a.components() == b.components() {
        assert(a.components().drop_last() =~= a.path);
        assert(b.components().drop_last() =~= b.path);
        assert(a.components().last() == a.id);
        assert(b.components().last() == b.id);
    }
}

/// References are the same where their keys are.
pub proof fn same_reference_same_key(a: ConditionalModel, b: ConditionalModel)
    ensures
        same_reference(a, b) <==> ConditionalName::key(a) == ConditionalName::key(b),
{
    same_name_same_components(a.raw, b.raw);
    assert forall|i: int|
        0 <= i < a.possibilities.len() && i < b.possibilities.len() implies (same_name(
        #[trigger] a.possibilities[i],
        b.possibilities[i],
    ) <==> a.possibilities[i].components() == b.possibilities[i].components()) by {
        same_name_same_components(a.possibilities[i], b.possibilities[i]);
    }
    let x = ConditionalName::key(a).possibilities;
    let y = ConditionalName::key(b).possibilities;
    if same_reference(a, b) {
        assert(x =~= y);
    }
    if ConditionalName::key(a) == ConditionalName::key(b) {
        assert(x.len() == y.len());
        assert forall|i: int| 0 <= i < a.possibilities.len() implies same_name(
            #[trigger] a.possibilities[i],
            b.possibilities[i],
        ) by {
            assert(x[i] == y[i]);
        }
    }
}

/// A name makes one reference only.
pub proof fn made_reference_is_unique(
    name: NameModel,
    a: ConditionalModel,
    b: ConditionalModel,
    kind: ReferenceType,
    namespace: Option<NameModel>,
)
    requires
        is_made(name, a, kind, namespace),
        is_made(name, b, kind, namespace),
    ensures
        a == b,
{
    assert(a.possibilities =~= b.possibilities);
}

/// The references to entity types that names make inside a namespace, none twice, are
/// those that they make: all of them, and nothing else.
pub proof fn each_name_makes_its_reference(names: Seq<NameModel>, namespace: Option<NameModel>)
    ensures
        one_each(
            names,
            distinct::<ConditionalName>(entity_references(names, namespace)),
            entity_made_in(namespace),
            same_references(),
        ),
{
    let s = entity_references(names, namespace);
    let p = entity_made_in(namespace);
    assert forall|i: int| 0 <= i < names.len() implies p(#[trigger] names[i], s[i]) by {
        reference_is_made(names[i], namespace, ReferenceType::Entity);
    }
    assert forall|i: int, c: ConditionalModel|
        0 <= i < names.len() && #[trigger] p(names[i], c) implies c == s[i] by {
        reference_is_made(names[i], namespace, ReferenceType::Entity);
        made_reference_is_unique(names[i], c, s[i], ReferenceType::Entity, namespace);
    }
    assert forall|a: ConditionalModel, b: ConditionalModel| #[trigger]
        same_references()(a, b) <==> ConditionalName::key(a) == ConditionalName::key(b) by {
        same_reference_same_key(a, b);
    }
    distinct_is_one_each::<NameModel, ConditionalName>(names, s, p, same_references());
}

/// Whether an optional type is there where another is, and then built like it with `p`
/// of the references.
pub open spec fn optional_corresponds<N, M>(
    a: Option<SchemaType<N>>,
    b: Option<SchemaType<M>>,
    p: spec_fn(N, M, ReferenceType) -> bool,
) -> bool {
    match (a, b) {
        (None, None) => true,
        (Some(a), Some(b)) => corresponds(a, b, p),
        _ => false,
    }
}

/// Whether a fragment says what a declaration does inside `namespace`: the choices as
/// they are written, or the attributes, the parents and the tags, each name in them
/// with the reference that it makes.
pub open spec fn declares(
    declaration: EntityDeclarationModel<NameModel>,
    fragment: FragmentModel<ConditionalModel>,
    namespace: Option<NameModel>,
) -> bool {
    match (declaration.kind, fragment) {
        (EntityKindModel::Enum { choices }, FragmentModel::Enum(kept)) => choices == kept,
        (
            EntityKindModel::Standard { member_of_types, shape, tags: written },
            FragmentModel::Standard { attributes, parents, tags },
        ) => {
            &&& corresponds(shape, attributes, made_in(namespace))
            &&& one_each(member_of_types, parents, entity_made_in(namespace), same_references())
            &&& optional_corresponds(written, tags, made_in(namespace))
        },
        _ => false,
    }
}

/// A fragment says what was declared: whatever else is declared with them, the
/// attributes and the tags are built as they were written, and the parents are those
/// that were listed.
pub proof fn fragment_says_what_is_declared(
    declaration: EntityDeclarationModel<NameModel>,
    namespace: Option<NameModel>,
)
    ensures
        declares(declaration, raw_fragment(declaration, namespace), namespace),
{
    if let EntityKindModel::Standard { member_of_types, shape, tags } = declaration.kind {
        references_are_made_in_place(shape, namespace);
        each_name_makes_its_reference(member_of_types, namespace);
        if let Some(tags) = tags {
            references_are_made_in_place(tags, namespace);
        }
    }
}

/// Whether a fragment is another with each reference replaced by what it stands for.
pub open spec fn is_fragment_resolved(
    before: FragmentModel<ConditionalModel>,
    after: FragmentModel<NameModel>,
    defs: DefsModel,
) -> bool {
    match (before, after) {
        (FragmentModel::Enum(choices), FragmentModel::Enum(kept)) => choices == kept,
        (
            FragmentModel::Standard { attributes: a, parents: listed, tags: s },
            FragmentModel::Standard { attributes: b, parents, tags: t },
        ) => {
            &&& corresponds(a, b, found_in(defs))
            &&& one_each(listed, parents, stands_for(defs), same_names())
            &&& optional_corresponds(s, t, found_in(defs))
        },
        _ => false,
    }
}

/// The names that references stand for, none twice, are those that they stand for: all
/// of them, and nothing else.
pub proof fn each_reference_is_found(references: Seq<ConditionalModel>, defs: DefsModel)
    ensures
        partition_undefined(partitioned(references_resolved(references, defs))) matches Ok(names)
            ==> one_each(
            references,
            distinct::<InternalName>(names),
            stands_for(defs),
            same_names(),
        ) && forall|i: int|
            0 <= i < references.len() ==> names.len() == references.len() && is_found(
                #[trigger] references[i],
                names[i],
                defs,
            ),
{
    let steps = references_resolved(references, defs);
    partitioned_ok(steps);
    if let Ok(names) = partition_undefined(partitioned(steps)) {
        let p = stands_for(defs);
        assert forall|i: int| 0 <= i < references.len() implies p(
            #[trigger] references[i],
            names[i],
        ) by {
            reference_is_found(references[i], defs);
            assert(steps[i] == Ok::<NameModel, Seq<ConditionalModel>>(names[i]));
        }
        assert forall|i: int, c: NameModel|
            0 <= i < references.len() && #[trigger] p(references[i], c) implies c == names[i] by {
            assert(p(references[i], names[i]));
            found_name_is_unique(references[i], c, names[i], defs);
        }
        assert forall|a: NameModel, b: NameModel| #[trigger]
            same_names()(a, b) <==> InternalName::key(a) == InternalName::key(b) by {
            same_name_same_components(a, b);
        }
        distinct_is_one_each::<ConditionalModel, InternalName>(
            references,
            names,
            p,
            same_names(),
        );
        assert forall|i: int| 0 <= i < references.len() implies is_found(
            #[trigger] references[i],
            names[i],
            defs,
        ) by {
            assert(p(references[i], names[i]));
        }
    }
}

/// A fragment that is fully qualified has the attributes, the parents and the tags that
/// it had before, all of them, each with its references replaced by what they stand
/// for.
pub proof fn fragment_is_resolved_in_place(
    fragment: FragmentModel<ConditionalModel>,
    defs: DefsModel,
)
    ensures
        fragment_resolved(fragment, defs) matches Ok(r) ==> is_fragment_resolved(fragment, r, defs),
{
    if let FragmentModel::Standard { attributes, parents, tags } = fragment {
        references_are_resolved_in_place(attributes, defs);
        each_reference_is_found(parents, defs);
        if let Some(tags) = tags {
            references_are_resolved_in_place(tags, defs);
        }
    }
}

/// Whether a reference stands for nothing.
pub open spec fn lost(defs: DefsModel) -> spec_fn(ConditionalModel) -> bool {
    |reference: ConditionalModel| is_lost(reference, defs)
}

/// Of references that are resolved together, those that stand for nothing are reported:
/// all of them, in order, and nothing else.
pub proof fn all_lost_references_are_reported(references: Seq<ConditionalModel>, defs: DefsModel)
    ensures
        concat(errs(references_resolved(references, defs))) =~= references.filter(lost(defs)),
        partition_undefined(partitioned(references_resolved(references, defs))) matches Err(
            reported,
        ) ==> reported =~= references.filter(lost(defs)),
        partition_undefined(partitioned(references_resolved(references, defs))) is Err <==> exists|
            i: int,
        |
            0 <= i < references.len() && is_lost(#[trigger] references[i], defs),
    decreases references.len(),
{
    reveal(Seq::filter);
    let steps = references_resolved(references, defs);
    partitioned_ok(steps);
    assert forall|i: int| 0 <= i < references.len() implies ((#[trigger] steps[i]) is Err
        <==> is_lost(references[i], defs)) by {
        reference_is_found(references[i], defs);
    }
    if partitioned(steps) is Err {
        let i = choose|i: int| 0 <= i < steps.len() && (#[trigger] steps[i]) is Err;
        assert(is_lost(references[i], defs));
    } else {
        assert forall|i: int| 0 <= i < references.len() implies !is_lost(
            #[trigger] references[i],
            defs,
        ) by {
            assert(steps[i] is Ok);
        }
    }
    if references.len() > 0 {
        let front = references.drop_last();
        all_lost_references_are_reported(front, defs);
        assert(steps.drop_last() =~= references_resolved(front, defs));
        reference_is_found(references.last(), defs);
        assert(steps.last() == resolved(references.last(), defs));
        if steps.last() is Err {
            let all = errs(steps);
            assert(all.drop_last() =~= errs(steps.drop_last()));
            assert(all.last() =~= seq![references.last()]);
        }
    }
}

/// Whether what is reported of a type is the first reference in it that stands for
/// nothing, or nothing where there is none.
pub open spec fn reports_first(
    t: SchemaType<ConditionalModel>,
    reported: Seq<ConditionalModel>,
    defs: DefsModel,
) -> bool {
    if none_lost(t, defs) {
        reported.len() == 0
    } else {
        reported.len() == 1 && is_first_lost(t, reported[0], defs)
    }
}

/// `reports_first` of a type that need not be there.
pub open spec fn optional_reports_first(
    t: Option<SchemaType<ConditionalModel>>,
    reported: Seq<ConditionalModel>,
    defs: DefsModel,
) -> bool {
    match t {
        None => reported.len() == 0,
        Some(t) => reports_first(t, reported, defs),
    }
}

/// Whether a parent is found, but as no entity type.
pub open spec fn dangles(reference: ConditionalModel, defs: DefsModel) -> bool {
    exists|name: NameModel| #[trigger]
        is_found(reference, name, defs) && !counts(name, ReferenceType::Entity, defs)
}

/// Whether `reported` are references to the entity types that the parents which dangle
/// would have to be, and nothing else.
pub open spec fn reports_dangling(
    parents: Seq<ConditionalModel>,
    reported: Seq<ConditionalModel>,
    defs: DefsModel,
) -> bool {
    &&& forall|i: int|
        0 <= i < parents.len() && dangles(#[trigger] parents[i], defs) ==> exists|
            j: int,
            name: NameModel,
        |
            0 <= j < reported.len() && #[trigger] is_found(parents[i], name, defs) && same_name(
                (#[trigger] reported[j]).raw,
                name,
            )
    &&& forall|j: int|
        0 <= j < reported.len() ==> {
            &&& is_made(
                (#[trigger] reported[j]).raw,
                reported[j],
                ReferenceType::Entity,
                None,
            )
            &&& !counts(reported[j].raw, ReferenceType::Entity, defs)
            &&& exists|i: int|
                0 <= i < parents.len() && is_found(#[trigger] parents[i], reported[j].raw, defs)
        }
}

/// What `undeclared` gives, in terms of the names.
proof fn undeclared_are_dangling(names: Seq<NameModel>, defs: DefsModel)
    ensures
        forall|i: int|
            0 <= i < names.len() && !counts(#[trigger] names[i], ReferenceType::Entity, defs)
                ==> exists|j: int|
                0 <= j < undeclared(names, defs).len() && (#[trigger] undeclared(
                    names,
                    defs,
                )[j]).raw == names[i],
        forall|j: int|
            0 <= j < undeclared(names, defs).len() ==> {
                let c = #[trigger] undeclared(names, defs)[j];
                &&& is_made(c.raw, c, ReferenceType::Entity, None)
                &&& !counts(c.raw, ReferenceType::Entity, defs)
                &&& names.contains(c.raw)
            },
    decreases names.len(),
{
    if names.len() > 0 {
        let front = names.drop_last();
        let all = undeclared(names, defs);
        let before = undeclared(front, defs);
        undeclared_are_dangling(front, defs);
        assert forall|i: int|
            0 <= i < names.len() && !counts(
                #[trigger] names[i],
                ReferenceType::Entity,
                defs,
            ) implies exists|j: int| 0 <= j < all.len() && (#[trigger] all[j]).raw == names[i] by {
            if i < front.len() {
                assert(!counts(front[i], ReferenceType::Entity, defs));
                let j = choose|j: int| 0 <= j < before.len() && (#[trigger] before[j]).raw == front[i];
                assert(all[j] == before[j]);
            } else {
                assert(all[all.len() - 1].raw == names[i]);
            }
        }
        assert forall|j: int| 0 <= j < all.len() implies {
            let c = #[trigger] all[j];
            &&& is_made(c.raw, c, ReferenceType::Entity, None)
            &&& !counts(c.raw, ReferenceType::Entity, defs)
            &&& names.contains(c.raw)
        } by {
            if j < before.len() {
                assert(all[j] == before[j]);
                assert(front.contains(before[j].raw));
                let i = choose|i: int| 0 <= i < front.len() && front[i] == before[j].raw;
                assert(names[i] == all[j].raw);
            } else {
                assert(names[names.len() - 1] == all[j].raw);
            }
        }
    }
}

/// What is reported of parents of which each stands for something.
proof fn dangling_parents_are_reported(
    parents: Seq<ConditionalModel>,
    kept: Seq<NameModel>,
    defs: DefsModel,
)
    requires
        one_each(parents, kept, stands_for(defs), same_names()),
    ensures
        reports_dangling(parents, undeclared(kept, defs), defs),
        undeclared(kept, defs).len() == 0 <==> forall|i: int|
            0 <= i < parents.len() ==> !dangles(#[trigger] parents[i], defs),
{
    let p = stands_for(defs);
    let dangling = undeclared(kept, defs);
    undeclared_are_dangling(kept, defs);
    assert forall|i: int| 0 <= i < parents.len() && dangles(#[trigger] parents[i], defs) implies exists|
        j: int,
        name: NameModel,
    |
        0 <= j < dangling.len() && #[trigger] is_found(parents[i], name, defs) && same_name(
            (#[trigger] dangling[j]).raw,
            name,
        ) by {
        let name = choose|name: NameModel| #[trigger]
            is_found(parents[i], name, defs) && !counts(name, ReferenceType::Entity, defs);
        assert(is_among(parents[i], kept, p, same_names()));
        let (c, k) = choose|c: NameModel, k: int|
            0 <= k < kept.len() && #[trigger] p(parents[i], c) && same_names()(
                c,
                #[trigger] kept[k],
            );
        found_name_is_unique(parents[i], c, name, defs);
        assert(same_name(name, kept[k]));
        assert(!counts(kept[k], ReferenceType::Entity, defs));
        let j = choose|j: int| 0 <= j < dangling.len() && (#[trigger] dangling[j]).raw == kept[k];
        assert(same_name(dangling[j].raw, name));
    }
    assert forall|j: int| 0 <= j < dangling.len() implies exists|i: int|
        0 <= i < parents.len() && is_found(
            #[trigger] parents[i],
            (#[trigger] dangling[j]).raw,
            defs,
        ) by {
        assert(kept.contains(dangling[j].raw));
        let k = choose|k: int| 0 <= k < kept.len() && kept[k] == dangling[j].raw;
        assert(is_first_of(parents, kept[k], p, same_names()));
        let i = choose|i: int| 0 <= i < parents.len() && p(#[trigger] parents[i], kept[k]);
        assert(is_found(parents[i], dangling[j].raw, defs));
    }
    if dangling.len() > 0 {
        let i = choose|i: int|
            0 <= i < parents.len() && is_found(#[trigger] parents[i], dangling[0].raw, defs);
        assert(dangles(parents[i], defs));
    }
}

/// Whether `reported` are, one behind the other, the parents that are no entity types,
/// the first reference in the attributes that stands for nothing, and that in the tags.
pub open spec fn reports_rest(
    attributes: SchemaType<ConditionalModel>,
    parents: Seq<ConditionalModel>,
    tags: Option<SchemaType<ConditionalModel>>,
    reported: Seq<ConditionalModel>,
    defs: DefsModel,
) -> bool {
    exists|
        dangling: Seq<ConditionalModel>,
        first: Seq<ConditionalModel>,
        second: Seq<ConditionalModel>,
    |
        reported == #[trigger] (dangling + first + second) && reports_dangling(
            parents,
            dangling,
            defs,
        ) && reports_first(attributes, first, defs) && optional_reports_first(tags, second, defs)
}

/// A fragment can be fully qualified exactly where each parent stands for an entity
/// type, and no reference in the attributes or the tags stands for nothing. Where
/// parents stand for nothing, these are reported. Otherwise the parents that are no
/// entity types are, and the first reference in the attributes, and that in the tags,
/// which stands for nothing.
pub proof fn fragment_reports_what_is_lost(
    attributes: SchemaType<ConditionalModel>,
    parents: Seq<ConditionalModel>,
    tags: Option<SchemaType<ConditionalModel>>,
    defs: DefsModel,
)
    ensures
        ({
            let r = fragment_resolved(FragmentModel::Standard { attributes, parents, tags }, defs);
            &&& r is Ok <==> {
                &&& none_lost(attributes, defs)
                &&& tags matches Some(tags) ==> none_lost(tags, defs)
                &&& forall|i: int|
                    0 <= i < parents.len() ==> !is_lost(#[trigger] parents[i], defs)
                &&& forall|i: int|
                    0 <= i < parents.len() ==> !dangles(#[trigger] parents[i], defs)
            }
            &&& r matches Err(reported) ==> if parents.filter(lost(defs)).len() > 0 {
                reported =~= parents.filter(lost(defs))
            } else {
                reports_rest(attributes, parents, tags, reported, defs)
            }
        }),
{
    let steps = references_resolved(parents, defs);
    all_lost_references_are_reported(parents, defs);
    each_reference_is_found(parents, defs);
    lost_references_are_reported(attributes, defs);
    if let Some(tags) = tags {
        lost_references_are_reported(tags, defs);
    }
    none_is_picked(parents, lost(defs));
    match partition_undefined(partitioned(steps)) {
        Err(reported) => {
            let i = choose|i: int| 0 <= i < parents.len() && is_lost(#[trigger] parents[i], defs);
            assert(lost(defs)(parents[i]));
        },
        Ok(names) => {
            assert forall|i: int| 0 <= i < parents.len() implies !lost(defs)(
                #[trigger] parents[i],
            ) by {}
            let kept = distinct::<InternalName>(names);
            let dangling = undeclared(kept, defs);
            dangling_parents_are_reported(parents, kept, defs);
            let first = undefined_in(type_resolved(attributes, defs));
            let second = undefined_in(tags_resolved(tags, defs));
            assert(reports_first(attributes, first, defs));
            assert(optional_reports_first(tags, second, defs));
            let all = dangling + first + second;
            assert(reports_rest(attributes, parents, tags, all, defs));
        },
    }
}

/// An enumerated entity type has nothing to resolve: its choices stay as they are.
pub proof fn choices_are_kept(choices: Seq<Seq<char>>, defs: DefsModel)
    ensures
        fragment_resolved(FragmentModel::Enum(choices), defs) == Ok::<
            FragmentModel<NameModel>,
            Seq<ConditionalModel>,
        >(FragmentModel::Enum(choices)),
{
}

} // verus!
