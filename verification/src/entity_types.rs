//! The entity types that are declared in a namespace.

use crate::declarations::{
    AttributesOrContext, EntityDeclarationModel, EntityKindModel, EntityTypeDeclaration,
    EntityTypeKind,
};
use crate::defs::{AllDefs, DefsModel};
use crate::err::{
    partition_undefined, DuplicateEntityTypeError, ErrorModel, SchemaError, TypeNotDefinedError,
};
use crate::gathered::{gathered, gathered_ok, gathered_prefix, gathered_push, Declaration};
use crate::json_schema::{type_qualified, type_resolved, SchemaType, Type};
use crate::keyed::{
    all_distinct, distinct, distinct_keeps_keys, keep_distinct, names_of, position, Keyed,
};
use crate::model::{Duplicate, Model};
use crate::names::{
    clone_loc, entity_type_of, internal_name_to_entity_type, namespace_model, qualified,
    simple_name, EntityType, InternalName, NameModel, UnreservedId,
};
use crate::nonempty_list::{collect_list, extend_list};
use crate::outcome::{concat_one, partition_nonempty, partitioned, partitioned_ok};
use crate::raw_name::{
    conditional, resolved, unconditional, ConditionalModel, ConditionalName, RawName, ReferenceType,
};
use nonempty::NonEmpty;
use smol_str::SmolStr;
use vstd::prelude::*;

verus! {

broadcast use crate::model::group_models;

/// What a declaration of an entity type says.
///
/// References to entity types and common types may or may not be fully qualified
/// yet, depending on `N`, and may be to types that are declared elsewhere or
/// nowhere.
#[derive(Debug)]
pub enum EntityTypeFragment<N> {
    Standard {
        /// The attributes of the entities.
        attributes: AttributesOrContext<N>,
        /// The entity types that entities of this one can be members of. None
        /// occurs twice.
        parents: Vec<N>,
        /// The type of the tags. `None` means that there are no tags on this entity
        /// type.
        tags: Option<Type<N>>,
    },
    /// The identifiers of all the entities of the type.
    Enum(NonEmpty<SmolStr>),
}

#[verifier::ext_equal]
pub enum FragmentModel<N> {
    Standard { attributes: SchemaType<N>, parents: Seq<N>, tags: Option<SchemaType<N>> },
    Enum(Seq<Seq<char>>),
}

impl<N: Model> Model for EntityTypeFragment<N> {
    type M = FragmentModel<N::M>;

    open spec fn model(&self) -> FragmentModel<N::M> {
        match self {
            EntityTypeFragment::Standard { attributes, parents, tags } => FragmentModel::Standard {
                attributes: attributes.model(),
                parents: parents.model(),
                tags: tags.model(),
            },
            EntityTypeFragment::Enum(choices) => FragmentModel::Enum(choices.model()),
        }
    }
}

impl<N: Duplicate> Clone for EntityTypeFragment<N> {
    fn clone(&self) -> (r: Self)
        ensures
            r.model() == self.model(),
    {
        match self {
            EntityTypeFragment::Standard { attributes, parents, tags } => {
                EntityTypeFragment::Standard {
                    attributes: attributes.clone(),
                    parents: parents.duplicate(),
                    tags: tags.duplicate(),
                }
            },
            EntityTypeFragment::Enum(choices) => EntityTypeFragment::Enum(choices.duplicate()),
        }
    }
}

impl<N: Duplicate> Duplicate for EntityTypeFragment<N> {
    fn duplicate(&self) -> (r: Self) {
        self.clone()
    }
}

impl<N: Keyed> EntityTypeFragment<N> {
    /// No parent is listed twice.
    pub open spec fn well_formed(&self) -> bool {
        all_distinct::<N>(parents_of(self.model()))
    }
}

/// The parents that a fragment lists.
pub open spec fn parents_of<N>(fragment: FragmentModel<N>) -> Seq<N> {
    match fragment {
        FragmentModel::Standard { parents, .. } => parents,
        FragmentModel::Enum(_) => Seq::empty(),
    }
}

/// The references to entity types that `names` make inside `namespace`.
pub open spec fn entity_references(
    names: Seq<NameModel>,
    namespace: Option<NameModel>,
) -> Seq<ConditionalModel> {
    Seq::new(
        names.len(),
        |i: int| conditional(names[i], namespace, ReferenceType::Entity),
    )
}

/// What a declaration says inside `namespace`.
pub open spec fn raw_fragment(
    declaration: EntityDeclarationModel<NameModel>,
    namespace: Option<NameModel>,
) -> FragmentModel<ConditionalModel> {
    match declaration.kind {
        EntityKindModel::Enum { choices } => FragmentModel::Enum(choices),
        EntityKindModel::Standard { member_of_types, shape, tags } => FragmentModel::Standard {
            attributes: type_qualified(shape, namespace),
            parents: distinct::<ConditionalName>(entity_references(member_of_types, namespace)),
            tags: match tags {
                Some(tags) => Some(type_qualified(tags, namespace)),
                None => None,
            },
        },
    }
}

/// What becomes of each reference when it is resolved.
pub open spec fn references_resolved(
    references: Seq<ConditionalModel>,
    defs: DefsModel,
) -> Seq<Result<NameModel, Seq<ConditionalModel>>> {
    Seq::new(references.len(), |i: int| resolved(references[i], defs))
}

/// Those of `names` that are not defined as entity types, as references to entity
/// types.
pub open spec fn undeclared(names: Seq<NameModel>, defs: DefsModel) -> Seq<ConditionalModel>
    decreases names.len(),
{
    if names.len() == 0 {
        Seq::empty()
    } else if defs.entity.contains(names.last().components()) {
        undeclared(names.drop_last(), defs)
    } else {
        undeclared(names.drop_last(), defs).push(
            unconditional(names.last(), ReferenceType::Entity),
        )
    }
}

/// The references that a step found to stand for nothing.
pub open spec fn undefined_in<T>(step: Result<T, Seq<ConditionalModel>>) -> Seq<ConditionalModel> {
    match step {
        Ok(_) => Seq::empty(),
        Err(undefined) => undefined,
    }
}

/// An optional type with its references resolved.
pub open spec fn tags_resolved(tags: Option<SchemaType<ConditionalModel>>, defs: DefsModel) -> Result<
    Option<SchemaType<NameModel>>,
    Seq<ConditionalModel>,
> {
    match tags {
        None => Ok(None),
        Some(tags) => match type_resolved(tags, defs) {
            Ok(tags) => Ok(Some(tags)),
            Err(undefined) => Err(undefined),
        },
    }
}

/// A fragment with its references resolved. Where parents stand for nothing, these
/// are the error. Otherwise the parents that are no entity types are, with the
/// first undefined reference in the attributes and that in the tags behind them.
pub open spec fn fragment_resolved(
    fragment: FragmentModel<ConditionalModel>,
    defs: DefsModel,
) -> Result<FragmentModel<NameModel>, Seq<ConditionalModel>> {
    match fragment {
        FragmentModel::Enum(choices) => Ok(FragmentModel::Enum(choices)),
        FragmentModel::Standard { attributes, parents, tags } => {
            match partition_undefined(partitioned(references_resolved(parents, defs))) {
                Err(undefined) => Err(undefined),
                Ok(names) => fragment_with_parents(
                    type_resolved(attributes, defs),
                    distinct::<InternalName>(names),
                    tags_resolved(tags, defs),
                    defs,
                ),
            }
        },
    }
}

/// A fragment, given its parents and what became of its attributes and tags.
pub open spec fn fragment_with_parents(
    attributes: Result<SchemaType<NameModel>, Seq<ConditionalModel>>,
    parents: Seq<NameModel>,
    tags: Result<Option<SchemaType<NameModel>>, Seq<ConditionalModel>>,
    defs: DefsModel,
) -> Result<FragmentModel<NameModel>, Seq<ConditionalModel>> {
    if attributes is Ok && tags is Ok && undeclared(parents, defs).len() == 0 {
        Ok(
            FragmentModel::Standard {
                attributes: attributes->Ok_0,
                parents,
                tags: tags->Ok_0,
            },
        )
    } else {
        Err(undeclared(parents, defs) + undefined_in(attributes) + undefined_in(tags))
    }
}

/// Those of `names` that are not defined as entity types, as references to entity
/// types.
fn undeclared_parents(names: &Vec<InternalName>, all_defs: &AllDefs) -> (r: Option<
    NonEmpty<ConditionalName>,
>)
    ensures
        r is None <==> undeclared(names.model(), all_defs.model()).len() == 0,
        r matches Some(list) ==> list.model() == undeclared(names.model(), all_defs.model()),
{
    let ghost all = names.model();
    let mut out: Vec<ConditionalName> = Vec::new();
    let mut i: usize = 0;
    while i < names.len()
        invariant
            i <= names@.len(),
            all == names.model(),
            out.model() == undeclared(all.take(i as int), all_defs.model()),
        decreases names@.len() - i,
    {
        proof {
            assert(all.take(i + 1).drop_last() =~= all.take(i as int));
            assert(all.take(i + 1).last() == names@[i as int].model());
        }
        if !all_defs.is_defined_as_entity(&names[i]) {
            out.push(ConditionalName::unconditional(names[i].clone(), ReferenceType::Entity));
        }
        i = i + 1;
    }
    proof {
        assert(all.take(i as int) =~= all);
    }
    collect_list(out)
}

impl<N: Model> EntityTypeFragment<N> {
    /// The parents that the fragment lists.
    pub fn parents(&self) -> (r: Vec<&N>)
        ensures
            r.model() == parents_of(self.model()),
    {
        let mut out: Vec<&N> = Vec::new();
        match self {
            EntityTypeFragment::Standard { parents, .. } => {
                let mut i: usize = 0;
                while i < parents.len()
                    invariant
                        i <= parents@.len(),
                        out@.len() == i,
                        forall|j: int|
                            0 <= j < i ==> (#[trigger] out@[j]).model() == parents@[j].model(),
                    decreases parents@.len() - i,
                {
                    out.push(&parents[i]);
                    i = i + 1;
                }
                assert(out.model() =~= parents.model());
            },
            EntityTypeFragment::Enum(_) => {},
        }
        out
    }
}

impl EntityTypeFragment<ConditionalName> {
    /// What a declaration says inside the given namespace.
    pub fn from_raw_entity_type(
        schema_file_type: EntityTypeDeclaration<RawName>,
        schema_namespace: Option<&InternalName>,
    ) -> (r: Self)
        ensures
            r.model() == raw_fragment(schema_file_type.model(), namespace_model(schema_namespace)),
            r.well_formed(),
    {
        match schema_file_type.kind {
            EntityTypeKind::Enum { choices } => EntityTypeFragment::Enum(choices),
            EntityTypeKind::Standard(ty) => {
                let attributes = ty.shape.conditionally_qualify_type_references(schema_namespace);
                let references = entity_type_references(ty.member_of_types, schema_namespace);
                let tags = match ty.tags {
                    Some(tags) => Some(tags.conditionally_qualify_type_references(schema_namespace)),
                    None => None,
                };
                EntityTypeFragment::Standard {
                    attributes,
                    parents: keep_distinct(references),
                    tags,
                }
            },
        }
    }

    /// Replaces each reference in the fragment by what it stands for.
    ///
    /// `all_defs` needs to contain the full set of all fully-qualified typenames
    /// and actions that are defined in the schema (in all schema fragments).
    pub fn fully_qualify_type_references(self, all_defs: &AllDefs) -> (r: Result<
        EntityTypeFragment<InternalName>,
        TypeNotDefinedError,
    >)
        ensures
            r.model() == fragment_resolved(self.model(), all_defs.model()),
            r matches Ok(fragment) ==> fragment.well_formed(),
    {
        match self {
            EntityTypeFragment::Enum(choices) => Ok(EntityTypeFragment::Enum(choices)),
            EntityTypeFragment::Standard { attributes, parents, tags } => {
                let fully_qual_attributes = attributes.fully_qualify_type_references(all_defs);
                let parents = match resolve_all(parents, all_defs) {
                    Ok(names) => keep_distinct(names),
                    Err(e) => return Err(e),
                };
                let fully_qual_tags = match tags {
                    Some(tags) => match tags.fully_qualify_type_references(all_defs) {
                        Ok(tags) => Ok(Some(tags)),
                        Err(e) => Err(e),
                    },
                    None => Ok(None),
                };
                // Now is the time to check whether any parents are dangling, i.e.,
                // refer to entity types that are not declared in any fragment.
                let undeclared_parents = undeclared_parents(&parents, all_defs);
                let ghost dangling = undeclared(parents.model(), all_defs.model());
                proof {
                    assert(Seq::<ConditionalModel>::empty() + undefined_in(
                        fully_qual_attributes.model(),
                    ) =~= undefined_in(fully_qual_attributes.model()));
                    assert(dangling + Seq::<ConditionalModel>::empty() =~= dangling);
                    assert(dangling.len() == 0 ==> dangling =~= Seq::empty());
                }
                match (fully_qual_attributes, fully_qual_tags, undeclared_parents) {
                    (Ok(attributes), Ok(tags), None) => Ok(
                        EntityTypeFragment::Standard { attributes, parents, tags },
                    ),
                    (Ok(_), Ok(_), Some(undeclared)) => Err(
                        TypeNotDefinedError { undefined_types: undeclared },
                    ),
                    (Err(e), Ok(_), None) => {
                        assert(e.model() + Seq::<ConditionalModel>::empty() =~= e.model());
                        Err(e)
                    },
                    (Ok(_), Err(e), None) => {
                        assert(Seq::<ConditionalModel>::empty() + e.model() =~= e.model());
                        Err(e)
                    },
                    (Err(e1), Err(e2), None) => {
                        let mut both = NonEmpty::new(e1);
                        both.push(e2);
                        proof {
                            assert(both.model() =~= seq![e1.model(), e2.model()]);
                            assert(seq![e1.model(), e2.model()].drop_last() =~= seq![e1.model()]);
                            concat_one(e1.model());
                        }
                        Err(TypeNotDefinedError::join_nonempty(both))
                    },
                    (Err(e), Ok(_), Some(mut undeclared)) => {
                        extend_list(&mut undeclared, e.undefined_types);
                        assert(dangling + e.model() + Seq::<ConditionalModel>::empty() =~= dangling
                            + e.model());
                        Err(TypeNotDefinedError { undefined_types: undeclared })
                    },
                    (Ok(_), Err(e), Some(mut undeclared)) => {
                        extend_list(&mut undeclared, e.undefined_types);
                        Err(TypeNotDefinedError { undefined_types: undeclared })
                    },
                    (Err(e1), Err(e2), Some(mut undeclared)) => {
                        extend_list(&mut undeclared, e1.undefined_types);
                        extend_list(&mut undeclared, e2.undefined_types);
                        Err(TypeNotDefinedError { undefined_types: undeclared })
                    },
                }
            },
        }
    }
}

/// The references to entity types that names make inside the given namespace.
pub fn entity_type_references(names: Vec<RawName>, namespace: Option<&InternalName>) -> (r: Vec<
    ConditionalName,
>)
    ensures
        r.model() == entity_references(names.model(), namespace_model(namespace)),
{
    let ghost all = names@;
    let ghost result = entity_references(names.model(), namespace_model(namespace));
    let mut out: Vec<ConditionalName> = Vec::new();
    for name in it: names
        invariant
            it.seq() == all,
            all == names@,
            result == entity_references(names.model(), namespace_model(namespace)),
            out@.len() == it.index(),
            forall|i: int|
                #![trigger out@[i]]
                0 <= i < out@.len() ==> out@[i].model() == result[i],
    {
        let ghost i = it.index() as int;
        assert(names.model()[i] == name.model());
        out.push(name.conditionally_qualify_with(namespace, ReferenceType::Entity));
    }
    assert(out.model() =~= result);
    out
}

/// Resolves references: all that they stand for, or all those that stand for
/// nothing.
fn resolve_all(references: Vec<ConditionalName>, all_defs: &AllDefs) -> (r: Result<
    Vec<InternalName>,
    TypeNotDefinedError,
>)
    ensures
        r.model() == partition_undefined(
            partitioned(references_resolved(references.model(), all_defs.model())),
        ),
{
    let ghost all = references@;
    let ghost steps = references_resolved(references.model(), all_defs.model());
    let mut results: Vec<Result<InternalName, TypeNotDefinedError>> = Vec::new();
    for reference in it: references
        invariant
            it.seq() == all,
            all == references@,
            steps == references_resolved(references.model(), all_defs.model()),
            results@.len() == it.index(),
            forall|i: int|
                #![trigger results@[i]]
                0 <= i < results@.len() ==> results@[i].model() == steps[i],
    {
        let ghost i = it.index() as int;
        assert(references.model()[i] == reference.model());
        results.push(reference.resolve(all_defs));
    }
    assert(results.model() =~= steps);
    match partition_nonempty(results) {
        Ok(names) => Ok(names),
        Err(errs) => Err(TypeNotDefinedError::join_nonempty(errs)),
    }
}

/// The entity types that are declared, each under its full name. The names are
/// fully qualified; whether the references inside the fragments are depends on `N`.
/// No entity type is declared twice, and none lists a parent twice.
#[derive(Debug)]
pub struct EntityTypesDef<N: Keyed> {
    defs: Vec<(EntityType, EntityTypeFragment<N>)>,
}

impl<N: Keyed> Model for EntityTypesDef<N> {
    type M = Seq<(NameModel, FragmentModel<N::M>)>;

    closed spec fn model(&self) -> Seq<(NameModel, FragmentModel<N::M>)> {
        self.defs.model()
    }
}

/// Whether no entity type is declared twice, and none lists a parent twice.
pub open spec fn entity_types_once<N: Keyed>(defs: Seq<(NameModel, FragmentModel<N::M>)>) -> bool {
    &&& all_distinct::<EntityType>(names_of(defs))
    &&& forall|i: int|
        0 <= i < defs.len() ==> all_distinct::<N>(parents_of((#[trigger] defs[i]).1))
}

impl<N: Keyed + Duplicate> Clone for EntityTypesDef<N> {
    fn clone(&self) -> (r: Self)
        ensures
            r.model() == self.model(),
    {
        proof {
            use_type_invariant(self);
        }
        EntityTypesDef { defs: self.defs.duplicate() }
    }
}

impl<N: Keyed> EntityTypesDef<N> {
    #[verifier::type_invariant]
    spec fn is_well_formed(self) -> bool {
        entity_types_once::<N>(self.model())
    }

    /// No entity types.
    pub fn new() -> (r: Self)
        ensures
            r.model() == Seq::<(NameModel, FragmentModel<N::M>)>::empty(),
    {
        EntityTypesDef { defs: Vec::new() }
    }

    /// The entity types, each under its full name.
    pub fn defs(&self) -> (r: &Vec<(EntityType, EntityTypeFragment<N>)>)
        ensures
            r.model() == self.model(),
            entity_types_once::<N>(r.model()),
    {
        proof {
            use_type_invariant(self);
        }
        &self.defs
    }
}

/// Two declarations of the same entity type: the name is that of the first.
pub open spec fn duplicate_entity_type() -> spec_fn(NameModel, NameModel) -> ErrorModel {
    |earlier: NameModel, later: NameModel| ErrorModel::DuplicateEntityType(earlier)
}

/// The entity type of a name, as a step of a schema.
pub open spec fn declared_entity_type(name: NameModel) -> Result<NameModel, ErrorModel> {
    match entity_type_of(name) {
        Ok(name) => Ok(name),
        Err(name) => Err(ErrorModel::ReservedName(name)),
    }
}

/// The declarations of entity types inside `namespace`. The name of a declaration
/// is always prefixed by the namespace.
pub open spec fn entity_type_declarations(
    types: Seq<(Seq<char>, EntityDeclarationModel<NameModel>)>,
    namespace: Option<NameModel>,
) -> Seq<Declaration<NameModel, FragmentModel<ConditionalModel>, ErrorModel>> {
    Seq::new(
        types.len(),
        |i: int|
            (
                declared_entity_type(
                    qualified(simple_name(types[i].0, types[i].1.loc), namespace),
                ),
                Ok(raw_fragment(types[i].1, namespace)),
            ),
    )
}

/// The entity types of `types` inside `namespace`.
pub open spec fn raw_entity_types(
    types: Seq<(Seq<char>, EntityDeclarationModel<NameModel>)>,
    namespace: Option<NameModel>,
) -> Result<Seq<(NameModel, FragmentModel<ConditionalModel>)>, ErrorModel> {
    gathered::<EntityType, FragmentModel<ConditionalModel>, ErrorModel>(
        entity_type_declarations(types, namespace),
        duplicate_entity_type(),
    )
}

/// What becomes of each entity type when references are resolved.
pub open spec fn entity_type_steps(
    defs: Seq<(NameModel, FragmentModel<ConditionalModel>)>,
    all_defs: DefsModel,
) -> Seq<Result<(NameModel, FragmentModel<NameModel>), Seq<ConditionalModel>>> {
    Seq::new(
        defs.len(),
        |i: int|
            match fragment_resolved(defs[i].1, all_defs) {
                Ok(fragment) => Ok((defs[i].0, fragment)),
                Err(undefined) => Err(undefined),
            },
    )
}

/// The entity types with their references resolved, or all the references that
/// stand for nothing.
pub open spec fn entity_types_resolved(
    defs: Seq<(NameModel, FragmentModel<ConditionalModel>)>,
    all_defs: DefsModel,
) -> Result<Seq<(NameModel, FragmentModel<NameModel>)>, Seq<ConditionalModel>> {
    partition_undefined(partitioned(entity_type_steps(defs, all_defs)))
}

/// No parent is listed twice in what a declaration says.
proof fn raw_parents_are_distinct(
    declaration: EntityDeclarationModel<NameModel>,
    namespace: Option<NameModel>,
)
    ensures
        all_distinct::<ConditionalName>(parents_of(raw_fragment(declaration, namespace))),
{
    if let EntityKindModel::Standard { member_of_types, .. } = declaration.kind {
        distinct_keeps_keys::<ConditionalName>(entity_references(member_of_types, namespace));
    }
}

/// No parent is listed twice once references are resolved.
proof fn resolved_parents_are_distinct(fragment: FragmentModel<ConditionalModel>, defs: DefsModel)
    ensures
        fragment_resolved(fragment, defs) matches Ok(r) ==> all_distinct::<InternalName>(
            parents_of(r),
        ),
{
    if let FragmentModel::Standard { parents, .. } = fragment {
        if let Ok(names) = partitioned(references_resolved(parents, defs)) {
            distinct_keeps_keys::<InternalName>(names);
        }
    }
}

/// Entity types stay declared under the same names when references are resolved.
pub proof fn entity_types_keep_names(
    defs: Seq<(NameModel, FragmentModel<ConditionalModel>)>,
    all_defs: DefsModel,
)
    ensures
        entity_types_resolved(defs, all_defs) matches Ok(r) ==> names_of(r) == names_of(defs),
{
    let steps = entity_type_steps(defs, all_defs);
    partitioned_ok(steps);
    if let Ok(r) = entity_types_resolved(defs, all_defs) {
        assert forall|i: int| 0 <= i < steps.len() implies #[trigger] r[i].0 == defs[i].0 by {
            assert(steps[i] is Ok);
        }
        assert(names_of(r) =~= names_of(defs));
    }
}

impl EntityTypesDef<ConditionalName> {
    /// The entity types of `schema_files_types`, which are declared inside
    /// `schema_namespace`.
    pub fn from_raw_entity_types(
        schema_files_types: Vec<(UnreservedId, EntityTypeDeclaration<RawName>)>,
        schema_namespace: Option<&InternalName>,
    ) -> (r: Result<Self, SchemaError>)
        ensures
            r.model() == raw_entity_types(
                schema_files_types.model(),
                namespace_model(schema_namespace),
            ),
            r matches Ok(defs) ==> entity_types_once::<ConditionalName>(defs.model()),
    {
        let ghost all = schema_files_types@;
        let ghost ns = namespace_model(schema_namespace);
        let ghost declarations = entity_type_declarations(schema_files_types.model(), ns);
        let mut defs: Vec<(EntityType, EntityTypeFragment<ConditionalName>)> = Vec::new();
        proof {
            gathered_ok::<EntityType, FragmentModel<ConditionalModel>, ErrorModel>(
                declarations,
                duplicate_entity_type(),
            );
            assert(declarations.take(0) =~= Seq::empty());
        }
        for entry in it: schema_files_types
            invariant
                it.seq() == all,
                all == schema_files_types@,
                ns == namespace_model(schema_namespace),
                declarations == entity_type_declarations(schema_files_types.model(), ns),
                gathered::<EntityType, FragmentModel<ConditionalModel>, ErrorModel>(
                    declarations.take(it.index() as int),
                    duplicate_entity_type(),
                ) == Ok::<Seq<(NameModel, FragmentModel<ConditionalModel>)>, ErrorModel>(
                    defs.model(),
                ),
        {
            let ghost i = it.index() as int;
            let (id, entity_type) = entry;
            proof {
                assert(schema_files_types.model()[i] == entry.model());
                gathered_push::<EntityType, FragmentModel<ConditionalModel>, ErrorModel>(
                    declarations,
                    duplicate_entity_type(),
                    i,
                );
            }
            // The name of a declaration is always (unconditionally) prefixed by the
            // current namespace.
            let name = RawName::new_from_unreserved(
                id,
                clone_loc(&entity_type.loc),
            ).qualify_with(schema_namespace);
            let ety = match internal_name_to_entity_type(name) {
                Ok(ety) => ety,
                Err(e) => {
                    proof {
                        gathered_prefix::<EntityType, FragmentModel<ConditionalModel>, ErrorModel>(
                            declarations,
                            duplicate_entity_type(),
                            i + 1,
                        );
                    }
                    return Err(SchemaError::ReservedName(e));
                },
            };
            match position(&defs, &ety) {
                None => {
                    defs.push(
                        (
                            ety,
                            EntityTypeFragment::from_raw_entity_type(entity_type, schema_namespace),
                        ),
                    );
                },
                Some(earlier) => {
                    proof {
                        gathered_prefix::<EntityType, FragmentModel<ConditionalModel>, ErrorModel>(
                            declarations,
                            duplicate_entity_type(),
                            i + 1,
                        );
                    }
                    return Err(
                        SchemaError::DuplicateEntityType(
                            DuplicateEntityTypeError { ty: defs[earlier].0.clone() },
                        ),
                    );
                },
            }
        }
        proof {
            assert(declarations.take(all.len() as int) =~= declarations);
            assert forall|i: int| 0 <= i < defs.model().len() implies all_distinct::<
                ConditionalName,
            >(parents_of((#[trigger] defs.model()[i]).1)) by {
                assert(declarations[i].1 is Ok);
                raw_parents_are_distinct(schema_files_types.model()[i].1, ns);
            }
        }
        Ok(EntityTypesDef { defs })
    }

    /// Replaces each reference in the entity types by what it stands for.
    ///
    /// `all_defs` needs to contain the full set of all fully-qualified typenames
    /// and actions that are defined in the schema (in all schema fragments).
    pub fn fully_qualify_type_references(self, all_defs: &AllDefs) -> (r: Result<
        EntityTypesDef<InternalName>,
        TypeNotDefinedError,
    >)
        ensures
            r.model() == entity_types_resolved(self.model(), all_defs.model()),
            r matches Ok(defs) ==> entity_types_once::<InternalName>(defs.model()),
    {
        proof {
            use_type_invariant(&self);
        }
        let ghost all = self.defs@;
        let ghost steps = entity_type_steps(self.model(), all_defs.model());
        let mut results: Vec<
            Result<(EntityType, EntityTypeFragment<InternalName>), TypeNotDefinedError>,
        > = Vec::new();
        for entry in it: self.defs
            invariant
                it.seq() == all,
                all == self.defs@,
                steps == entity_type_steps(self.model(), all_defs.model()),
                results@.len() == it.index(),
                forall|i: int|
                    #![trigger results@[i]]
                    0 <= i < results@.len() ==> results@[i].model() == steps[i],
        {
            let ghost i = it.index() as int;
            proof {
                assert(self.model()[i] == entry.model());
            }
            let (ety, fragment) = entry;
            results.push(
                match fragment.fully_qualify_type_references(all_defs) {
                    Ok(fragment) => Ok((ety, fragment)),
                    Err(e) => Err(e),
                },
            );
        }
        assert(results.model() =~= steps);
        proof {
            entity_types_keep_names(self.model(), all_defs.model());
            partitioned_ok(steps);
            if let Ok(r) = entity_types_resolved(self.model(), all_defs.model()) {
                assert forall|i: int| 0 <= i < r.len() implies all_distinct::<InternalName>(
                    parents_of((#[trigger] r[i]).1),
                ) by {
                    assert(steps[i] is Ok);
                    resolved_parents_are_distinct(self.model()[i].1, all_defs.model());
                }
            }
        }
        match partition_nonempty(results) {
            Ok(defs) => Ok(EntityTypesDef { defs }),
            Err(errs) => Err(TypeNotDefinedError::join_nonempty(errs)),
        }
    }
}

} // verus!
