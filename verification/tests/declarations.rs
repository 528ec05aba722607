use cedar_schema::common_types::CommonTypeDefs;
use cedar_schema::declarations::{
    AttributesOrContext, CommonType, EntityTypeDeclaration, EntityTypeKind, StandardEntityType,
};
use cedar_schema::defs::AllDefs;
use cedar_schema::entity_types::{EntityTypeFragment, EntityTypesDef};
use cedar_schema::err::{SchemaError, TypeNotDefinedError};
use cedar_schema::json_schema::{RecordType, Type, TypeOfAttribute, TypeVariant};
use cedar_schema::names::{
    CommonTypeId, EntityType, EntityUID, Id, InternalName, Loc, MaybeLoc, Name, UnreservedId,
};
use cedar_schema::raw_name::{ConditionalName, RawName, ReferenceType};
use nonempty::NonEmpty;
use smol_str::SmolStr;

fn ident(text: &str) -> Id {
    Id::new(SmolStr::new(text))
}

fn unreserved(text: &str) -> UnreservedId {
    UnreservedId::new(ident(text)).unwrap()
}

fn name(components: &[&str]) -> InternalName {
    let (last, path) = components.split_last().unwrap();
    InternalName::new(ident(last), path.iter().map(|c| ident(c)).collect(), None)
}

fn raw(components: &[&str]) -> RawName {
    RawName(name(components))
}

fn written<N>(ty: TypeVariant<N>) -> Type<N> {
    Type::Type { ty, loc: None }
}

fn common_ref(components: &[&str]) -> Type<RawName> {
    Type::CommonTypeRef { name: raw(components), loc: None }
}

fn entity_ref(components: &[&str]) -> Type<RawName> {
    written(TypeVariant::Entity { name: raw(components) })
}

fn either_ref(components: &[&str]) -> Type<RawName> {
    written(TypeVariant::EntityOrCommon { name: raw(components) })
}

fn set(element: Type<RawName>) -> Type<RawName> {
    written(TypeVariant::SetOf { element: Box::new(element) })
}

fn record(attributes: Vec<(&str, Type<RawName>)>) -> Type<RawName> {
    written(TypeVariant::Record(RecordType {
        attributes: attributes
            .into_iter()
            .map(|(k, ty)| (SmolStr::new(k), TypeOfAttribute { ty, required: true }))
            .collect(),
        additional_attributes: false,
    }))
}

fn place(start: usize) -> MaybeLoc {
    Some(Box::new(Loc { start, end: start + 1, src: SmolStr::new("type T = Long; type T = Long;") }))
}

fn common_type(id: &str, ty: Type<RawName>, loc: MaybeLoc) -> (CommonTypeId, CommonType<RawName>) {
    (CommonTypeId::unchecked(unreserved(id)), CommonType { ty, loc })
}

fn standard(
    id: &str,
    member_of_types: Vec<RawName>,
    shape: Type<RawName>,
    tags: Option<Type<RawName>>,
) -> (UnreservedId, EntityTypeDeclaration<RawName>) {
    (
        unreserved(id),
        EntityTypeDeclaration {
            kind: EntityTypeKind::Standard(StandardEntityType {
                member_of_types,
                shape: AttributesOrContext(shape),
                tags,
            }),
            loc: place(4),
        },
    )
}

fn entity_type(components: &[&str]) -> EntityType {
    EntityType(Name::try_from_internal(name(components)).unwrap())
}

fn defs(entity: Vec<InternalName>, common: Vec<InternalName>) -> AllDefs {
    AllDefs { entity_defs: entity, common_defs: common, action_defs: Vec::new() }
}

fn reference(components: &[&str], namespace: Option<&InternalName>, kind: ReferenceType) -> ConditionalName {
    raw(components).conditionally_qualify_with(namespace, kind)
}

fn undefined(error: TypeNotDefinedError) -> Vec<ConditionalName> {
    error.undefined_types.into_iter().collect()
}

#[test]
fn references_prefer_the_current_namespace() {
    let a = name(&["A"]);
    let user = || reference(&["User"], Some(&a), ReferenceType::Entity);
    assert_eq!(
        user().possibilities,
        NonEmpty { head: name(&["A", "User"]), tail: vec![name(&["User"])] }
    );
    let both = defs(vec![name(&["User"]), name(&["A", "User"])], vec![]);
    assert_eq!(user().resolve(&both).unwrap(), name(&["A", "User"]));
    let outer = defs(vec![name(&["User"])], vec![]);
    assert_eq!(user().resolve(&outer).unwrap(), name(&["User"]));
    let neither = defs(vec![name(&["B", "User"])], vec![name(&["User"])]);
    assert_eq!(undefined(user().resolve(&neither).unwrap_err()), vec![user()]);
}

#[test]
fn references_with_a_namespace_stay_in_it() {
    let a = name(&["A"]);
    let user = || reference(&["B", "User"], Some(&a), ReferenceType::Entity);
    assert_eq!(user().possibilities, NonEmpty::new(name(&["B", "User"])));
    assert_eq!(
        user().resolve(&defs(vec![name(&["B", "User"])], vec![])).unwrap(),
        name(&["B", "User"])
    );
    assert!(user().resolve(&defs(vec![name(&["A", "B", "User"]), name(&["User"])], vec![])).is_err());
    let outside = reference(&["User"], None, ReferenceType::Entity);
    assert_eq!(outside.possibilities, NonEmpty::new(name(&["User"])));
}

#[test]
fn references_are_to_the_right_kind() {
    let kinds = defs(vec![name(&["E"])], vec![name(&["C"])]);
    let found = |n: &str, kind| reference(&[n], None, kind).resolve(&kinds).is_ok();
    assert!(found("E", ReferenceType::Entity) && !found("E", ReferenceType::Common));
    assert!(found("C", ReferenceType::Common) && !found("C", ReferenceType::Entity));
    assert!(found("E", ReferenceType::CommonOrEntity) && found("C", ReferenceType::CommonOrEntity));
    // An entity type in the current namespace comes before a common type outside of it.
    let a = name(&["A"]);
    let mixed = defs(vec![name(&["A", "T"])], vec![name(&["T"])]);
    assert_eq!(
        reference(&["T"], Some(&a), ReferenceType::CommonOrEntity).resolve(&mixed).unwrap(),
        name(&["A", "T"])
    );
}

#[test]
fn common_types_are_declared_in_the_namespace() {
    let a = name(&["A"]);
    let declared = CommonTypeDefs::from_raw_common_types(
        vec![
            common_type("T", written(TypeVariant::Long), place(5)),
            common_type("U", set(common_ref(&["T"])), None),
        ],
        Some(&a),
    )
    .unwrap();
    let names: Vec<_> = declared.defs().iter().map(|d| d.0.clone()).collect();
    assert_eq!(names, vec![name(&["A", "T"]), name(&["A", "U"])]);
    assert_eq!(names[0].loc, place(5));
    let element = Type::CommonTypeRef {
        name: reference(&["T"], Some(&a), ReferenceType::Common),
        loc: None,
    };
    assert_eq!(declared.defs()[1].1, written(TypeVariant::SetOf { element: Box::new(element) }));
}

#[test]
fn common_types_are_not_declared_twice() {
    let twice = vec![
        common_type("T", written(TypeVariant::Long), place(5)),
        common_type("U", written(TypeVariant::Long), place(6)),
        common_type("T", written(TypeVariant::String), place(20)),
        common_type("U", written(TypeVariant::Long), place(30)),
    ];
    match CommonTypeDefs::from_raw_common_types(twice, None).unwrap_err() {
        SchemaError::DuplicateCommonType(e) => {
            assert_eq!(e.ty, name(&["T"]));
            assert_eq!(e.ty.loc, place(5));
        }
        other => panic!("{:?}", other),
    }
}

#[test]
fn one_typedef_is_declared_as_a_list_of_one() {
    let a = name(&["A", "B"]);
    let typedef = || (unreserved("T"), written::<ConditionalName>(TypeVariant::Boolean));
    let one = CommonTypeDefs::from_conditionalname_typedef(typedef(), Some(&a));
    let list = CommonTypeDefs::from_conditionalname_typedefs(vec![typedef()], Some(&a)).unwrap();
    assert_eq!(one.defs(), list.defs());
    assert_eq!(*one.defs(), vec![(name(&["A", "B", "T"]), written(TypeVariant::Boolean))]);
    match CommonTypeDefs::from_conditionalname_typedefs(vec![typedef(), typedef()], None).unwrap_err() {
        SchemaError::DuplicateCommonType(e) => assert_eq!(e.ty, name(&["T"])),
        other => panic!("{:?}", other),
    }
}

#[test]
fn common_types_are_resolved_keeping_all_but_references() {
    let a = name(&["A"]);
    let declared = CommonTypeDefs::from_raw_common_types(
        vec![
            common_type("T", record(vec![("x", either_ref(&["User"])), ("y", set(common_ref(&["U"])))]), None),
            common_type("U", entity_ref(&["B", "Group"]), None),
        ],
        Some(&a),
    )
    .unwrap();
    let all = defs(
        vec![name(&["User"]), name(&["B", "Group"])],
        vec![name(&["A", "T"]), name(&["A", "U"])],
    );
    let resolved = declared.fully_qualify_type_references(&all).unwrap();
    let expected = written(TypeVariant::Record(RecordType {
        attributes: vec![
            (
                SmolStr::new("x"),
                TypeOfAttribute {
                    ty: written(TypeVariant::EntityOrCommon { name: name(&["User"]) }),
                    required: true,
                },
            ),
            (
                SmolStr::new("y"),
                TypeOfAttribute {
                    ty: written(TypeVariant::SetOf {
                        element: Box::new(Type::CommonTypeRef { name: name(&["A", "U"]), loc: None }),
                    }),
                    required: true,
                },
            ),
        ],
        additional_attributes: false,
    }));
    assert_eq!(resolved.defs()[0], (name(&["A", "T"]), expected));
    assert_eq!(
        resolved.defs()[1],
        (name(&["A", "U"]), written(TypeVariant::Entity { name: name(&["B", "Group"]) }))
    );
}

#[test]
fn undefined_references_of_all_common_types_are_reported() {
    let declared = CommonTypeDefs::from_raw_common_types(
        vec![
            common_type("T", record(vec![("x", entity_ref(&["P"])), ("y", entity_ref(&["Q"]))]), None),
            common_type("U", written(TypeVariant::Long), None),
            common_type("V", set(common_ref(&["R"])), None),
        ],
        None,
    )
    .unwrap();
    // Of each common type the first undefined reference is reported.
    assert_eq!(
        undefined(declared.fully_qualify_type_references(&defs(vec![], vec![])).unwrap_err()),
        vec![
            reference(&["P"], None, ReferenceType::Entity),
            reference(&["R"], None, ReferenceType::Common),
        ]
    );
}

#[test]
fn entity_types_are_declared_in_the_namespace() {
    let a = name(&["A"]);
    let group = raw(&["Group"]);
    let declared = EntityTypesDef::from_raw_entity_types(
        vec![
            standard("User", vec![group.clone(), raw(&["B", "Org"]), group], record(vec![]), Some(common_ref(&["T"]))),
            (
                unreserved("Color"),
                EntityTypeDeclaration {
                    kind: EntityTypeKind::Enum {
                        choices: NonEmpty { head: SmolStr::new("red"), tail: vec![SmolStr::new("blue")] },
                    },
                    loc: None,
                },
            ),
        ],
        Some(&a),
    )
    .unwrap();
    assert_eq!(declared.defs()[0].0, entity_type(&["A", "User"]));
    assert_eq!(declared.defs()[0].0 .0.as_internal().loc, place(4));
    assert_eq!(declared.defs()[1].0, entity_type(&["A", "Color"]));
    // A parent that is listed twice is kept once.
    assert_eq!(
        declared.defs()[0].1.parents(),
        vec![
            &reference(&["Group"], Some(&a), ReferenceType::Entity),
            &reference(&["B", "Org"], Some(&a), ReferenceType::Entity),
        ]
    );
    assert!(declared.defs()[1].1.parents().is_empty());
    match &declared.defs()[1].1 {
        EntityTypeFragment::Enum(choices) => assert_eq!(choices.len(), 2),
        other => panic!("{:?}", other),
    }
    match &declared.defs()[0].1 {
        EntityTypeFragment::Standard { tags, .. } => assert_eq!(
            *tags,
            Some(Type::CommonTypeRef {
                name: reference(&["T"], Some(&a), ReferenceType::Common),
                loc: None
            })
        ),
        other => panic!("{:?}", other),
    }
}

#[test]
fn entity_types_are_not_declared_twice_nor_reserved() {
    let twice = vec![
        standard("User", vec![], record(vec![]), None),
        standard("User", vec![], record(vec![]), None),
    ];
    match EntityTypesDef::from_raw_entity_types(twice, Some(&name(&["A"]))).unwrap_err() {
        SchemaError::DuplicateEntityType(e) => assert_eq!(e.ty, entity_type(&["A", "User"])),
        other => panic!("{:?}", other),
    }
    let one = vec![standard("User", vec![], record(vec![]), None)];
    match EntityTypesDef::from_raw_entity_types(one, Some(&name(&["A", "__cedar"]))).unwrap_err() {
        SchemaError::ReservedName(e) => assert_eq!(e.0, name(&["A", "__cedar", "User"])),
        other => panic!("{:?}", other),
    }
    let none = EntityTypesDef::from_raw_entity_types(vec![], Some(&name(&["__cedar"]))).unwrap();
    assert!(none.defs().is_empty());
    assert!(EntityTypesDef::<InternalName>::new().defs().is_empty());
}

#[test]
fn entity_types_are_resolved_keeping_their_names() {
    let a = name(&["A"]);
    let declared = EntityTypesDef::from_raw_entity_types(
        vec![standard(
            "User",
            vec![raw(&["Group"]), raw(&["A", "Group"])],
            record(vec![("x", either_ref(&["T"]))]),
            Some(set(written(TypeVariant::String))),
        )],
        Some(&a),
    )
    .unwrap();
    let all = defs(vec![name(&["A", "Group"]), name(&["A", "User"])], vec![name(&["T"])]);
    let resolved = declared.fully_qualify_type_references(&all).unwrap();
    assert_eq!(resolved.defs()[0].0, entity_type(&["A", "User"]));
    match &resolved.defs()[0].1 {
        EntityTypeFragment::Standard { attributes, parents, tags } => {
            // Both references stand for the same entity type.
            assert_eq!(*parents, vec![name(&["A", "Group"])]);
            assert!(all.is_defined_as_entity(&parents[0]));
            assert_eq!(
                *tags,
                Some(written(TypeVariant::SetOf { element: Box::new(written(TypeVariant::String)) }))
            );
            match &attributes.0 {
                Type::Type { ty: TypeVariant::Record(record), .. } => assert_eq!(
                    record.attributes[0].1.ty,
                    written(TypeVariant::EntityOrCommon { name: name(&["T"]) })
                ),
                other => panic!("{:?}", other),
            }
        }
        other => panic!("{:?}", other),
    }
}

fn fragment(
    parents: Vec<ConditionalName>,
    attributes: Type<RawName>,
    tags: Option<Type<RawName>>,
) -> EntityTypeFragment<ConditionalName> {
    EntityTypeFragment::Standard {
        attributes: AttributesOrContext(attributes.conditionally_qualify_type_references(None)),
        parents,
        tags: tags.map(|t| t.conditionally_qualify_type_references(None)),
    }
}

fn long() -> Type<RawName> {
    written(TypeVariant::Long)
}

fn broken(text: &str) -> Type<RawName> {
    entity_ref(&[text])
}

fn report(f: EntityTypeFragment<ConditionalName>, all: &AllDefs) -> Vec<ConditionalName> {
    undefined(f.fully_qualify_type_references(all).unwrap_err())
}

#[test]
fn undefined_references_of_entity_types_are_reported() {
    let all = defs(vec![name(&["G"])], vec![name(&["C"])]);
    let to = |n: &str| reference(&[n], None, ReferenceType::Entity);
    // A parent that turns out to be a common type is no entity type.
    let stray = || reference(&["C"], None, ReferenceType::CommonOrEntity);
    let dangling = || ConditionalName::unconditional(name(&["C"]), ReferenceType::Entity);
    let good = || to("G");

    assert!(fragment(vec![good()], long(), Some(long())).fully_qualify_type_references(&all).is_ok());
    assert!(fragment(vec![good()], long(), None).fully_qualify_type_references(&all).is_ok());
    // Parents that stand for nothing are reported alone.
    assert_eq!(report(fragment(vec![to("X"), good(), to("Y")], broken("P"), Some(broken("Q"))), &all), vec![to("X"), to("Y")]);
    assert_eq!(report(fragment(vec![stray()], long(), None), &all), vec![dangling()]);
    assert_eq!(report(fragment(vec![good()], broken("P"), Some(long())), &all), vec![to("P")]);
    assert_eq!(report(fragment(vec![good()], long(), Some(broken("Q"))), &all), vec![to("Q")]);
    assert_eq!(report(fragment(vec![good()], broken("P"), Some(broken("Q"))), &all), vec![to("P"), to("Q")]);
    assert_eq!(report(fragment(vec![stray()], broken("P"), None), &all), vec![dangling(), to("P")]);
    assert_eq!(report(fragment(vec![stray()], long(), Some(broken("Q"))), &all), vec![dangling(), to("Q")]);
    assert_eq!(
        report(fragment(vec![stray(), good()], broken("P"), Some(broken("Q"))), &all),
        vec![dangling(), to("P"), to("Q")]
    );
}

#[test]
fn listed_entities_stay_as_they_are() {
    let choices = NonEmpty { head: SmolStr::new("red"), tail: vec![SmolStr::new("blue")] };
    let f: EntityTypeFragment<ConditionalName> = EntityTypeFragment::Enum(choices.clone());
    match f.fully_qualify_type_references(&defs(vec![], vec![])).unwrap() {
        EntityTypeFragment::Enum(kept) => assert_eq!(kept, choices),
        other => panic!("{:?}", other),
    }
}

#[test]
fn definitions_are_looked_up_by_components() {
    let all = AllDefs {
        entity_defs: vec![name(&["A", "User"])],
        common_defs: vec![name(&["A", "T"])],
        action_defs: vec![EntityUID { ty: entity_type(&["A", "Action"]), eid: SmolStr::new("view") }],
    };
    assert!(all.is_defined_as_entity(&name(&["A", "User"])) && !all.is_defined_as_entity(&name(&["A", "T"])));
    assert!(all.is_defined_as_common(&name(&["A", "T"])) && !all.is_defined_as_common(&name(&["T"])));
    let view = EntityUID { ty: entity_type(&["A", "Action"]), eid: SmolStr::new("view") };
    let edit = EntityUID { ty: entity_type(&["A", "Action"]), eid: SmolStr::new("edit") };
    assert!(all.is_defined_as_action(&view) && !all.is_defined_as_action(&edit));
}

#[test]
fn copies_are_the_same() {
    let a = name(&["A"]);
    let common = CommonTypeDefs::from_raw_common_types(
        vec![
            common_type("T", record(vec![("x", either_ref(&["User"])), ("y", set(common_ref(&["U"])))]), place(5)),
            common_type("U", entity_ref(&["B", "Group"]), None),
        ],
        Some(&a),
    )
    .unwrap();
    assert_eq!(common.clone().defs(), common.defs());
    assert_eq!(common.clone().defs()[0].0.loc, place(5));
    let entity = EntityTypesDef::from_raw_entity_types(
        vec![standard("User", vec![raw(&["Group"])], record(vec![]), Some(common_ref(&["T"])))],
        Some(&a),
    )
    .unwrap();
    let copy = entity.clone();
    assert_eq!(copy.defs()[0].0, entity.defs()[0].0);
    assert_eq!(copy.defs()[0].1.parents(), entity.defs()[0].1.parents());
    assert_eq!(format!("{:?}", copy), format!("{:?}", entity));
}

#[test]
fn parents_are_a_set() {
    let parents = |names: &[&str]| {
        let listed = names.iter().map(|n| raw(&[n])).collect();
        let declared =
            EntityTypesDef::from_raw_entity_types(vec![standard("User", listed, long(), None)], None).unwrap();
        let mut found: Vec<String> =
            declared.defs()[0].1.parents().into_iter().map(|p| p.raw.0.to_string()).collect();
        found.sort();
        found
    };
    assert_eq!(parents(&["G", "H"]), vec!["G", "H"]);
    assert_eq!(parents(&["H", "G", "H", "G"]), vec!["G", "H"]);
}
