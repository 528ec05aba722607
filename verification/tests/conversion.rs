use cedar_schema::conversion::{
    parse_record_attributes, try_jsonschema_type_into_validator_type,
    try_record_type_into_validator_type,
};
use cedar_schema::defs::AllDefs;
use cedar_schema::err::{SchemaError, TypeNotDefinedError, UnsupportedFeature};
use cedar_schema::extensions::Extensions;
use cedar_schema::fuzzy_match::fuzzy_search;
use cedar_schema::json_schema;
use cedar_schema::json_schema::{RecordType, TypeOfAttribute, TypeVariant};
use cedar_schema::names::{
    internal_name_to_entity_type, Id, InternalName, Loc, MaybeLoc, Name, UnreservedId,
};
use cedar_schema::raw_name::{ConditionalName, RawName, ReferenceType};
use cedar_schema::types::{AttributeType, Attributes, EntityRecordKind, OpenTag, Type, ValidatorType};
use cedar_schema::unresolved::WithUnresolvedCommonTypeRefs;
use nonempty::NonEmpty;
use smol_str::SmolStr;

type SchemaType = json_schema::Type<InternalName>;

fn ident(text: &str) -> Id {
    Id::new(SmolStr::new(text))
}

fn name(components: &[&str]) -> InternalName {
    let (last, path) = components.split_last().unwrap();
    InternalName::new(ident(last), path.iter().map(|c| ident(c)).collect(), None)
}

fn written(ty: TypeVariant<InternalName>) -> SchemaType {
    json_schema::Type::Type { ty, loc: None }
}

fn common(components: &[&str]) -> SchemaType {
    json_schema::Type::CommonTypeRef { name: name(components), loc: None }
}

fn either(components: &[&str]) -> SchemaType {
    written(TypeVariant::EntityOrCommon { name: name(components) })
}

fn entity(components: &[&str]) -> SchemaType {
    written(TypeVariant::Entity { name: name(components) })
}

fn extension(text: &str) -> SchemaType {
    written(TypeVariant::Extension { name: UnreservedId::new(ident(text)).unwrap() })
}

fn set(element: SchemaType) -> SchemaType {
    written(TypeVariant::SetOf { element: Box::new(element) })
}

fn record(attributes: Vec<(&str, SchemaType, bool)>, open: bool) -> RecordType<InternalName> {
    RecordType {
        attributes: attributes
            .into_iter()
            .map(|(k, ty, required)| (SmolStr::new(k), TypeOfAttribute { ty, required }))
            .collect(),
        additional_attributes: open,
    }
}

fn place() -> MaybeLoc {
    Some(Box::new(Loc { start: 3, end: 9, src: SmolStr::new("type T = Long;") }))
}

fn table() -> Vec<(InternalName, ValidatorType)> {
    vec![
        (name(&["A", "T"]), ValidatorType { ty: Type::primitive_long() }),
        (name(&["User"]), ValidatorType { ty: Type::primitive_boolean() }),
        (name(&["A", "T"]), ValidatorType { ty: Type::primitive_string() }),
    ]
}

fn convert(ty: SchemaType) -> WithUnresolvedCommonTypeRefs<ValidatorType> {
    try_jsonschema_type_into_validator_type(ty, &Extensions::all_available(), place())
        .ok()
        .unwrap()
}

fn refuse(ty: SchemaType) -> SchemaError {
    try_jsonschema_type_into_validator_type(ty, &Extensions::all_available(), place())
        .err()
        .unwrap()
}

fn denoted(ty: SchemaType) -> Result<Type, SchemaError> {
    convert(ty).resolve_common_type_refs(&table()).map(|vt| vt.ty)
}

fn is_settled(w: &WithUnresolvedCommonTypeRefs<ValidatorType>) -> bool {
    matches!(w, WithUnresolvedCommonTypeRefs::WithoutUnresolved(_, _))
}

fn not_defined(components: &[&str]) -> SchemaError {
    SchemaError::TypeNotDefined(TypeNotDefinedError {
        undefined_types: NonEmpty::new(ConditionalName::unconditional(
            name(components),
            ReferenceType::Common,
        )),
    })
}

fn entity_type(components: &[&str]) -> Type {
    Type::named_entity_reference(internal_name_to_entity_type(name(components)).unwrap())
}

#[test]
fn primitive_types_denote_themselves() {
    assert_eq!(denoted(written(TypeVariant::String)), Ok(Type::primitive_string()));
    assert_eq!(denoted(written(TypeVariant::Long)), Ok(Type::primitive_long()));
    assert_eq!(denoted(written(TypeVariant::Boolean)), Ok(Type::primitive_boolean()));
    let w = convert(written(TypeVariant::Long));
    assert!(is_settled(&w));
    assert_eq!(w.loc(), place().as_deref());
}

#[test]
fn common_types_do_not_matter_to_settled_types() {
    let nested = || set(set(entity(&["A", "User"])));
    let w = convert(nested());
    assert!(is_settled(&w));
    assert_eq!(w.loc(), place().as_deref());
    let expected = Type::set(Type::set(entity_type(&["A", "User"])));
    assert_eq!(w.resolve_common_type_refs(&Vec::new()).unwrap().ty, expected.clone());
    assert_eq!(denoted(nested()), Ok(expected));
}

#[test]
fn entity_types_with_the_reserved_identifier_are_refused() {
    match refuse(entity(&["__cedar", "User"])) {
        SchemaError::ReservedName(e) => assert_eq!(e.0, name(&["__cedar", "User"])),
        other => panic!("{:?}", other),
    }
}

#[test]
fn common_types_are_looked_up() {
    let w = convert(common(&["A", "T"]));
    assert!(!is_settled(&w));
    assert_eq!(w.loc(), place().as_deref());
    assert_eq!(denoted(common(&["A", "T"])), Ok(Type::primitive_long()));
    assert_eq!(denoted(set(common(&["User"]))), Ok(Type::set(Type::primitive_boolean())));
}

#[test]
fn missing_common_types_are_reported() {
    assert_eq!(denoted(set(common(&["A", "U"]))), Err(not_defined(&["A", "U"])));
    let w = try_jsonschema_type_into_validator_type(common(&["N", "T"]), &Extensions::none(), None)
        .ok()
        .unwrap();
    assert_eq!(w.resolve_common_type_refs(&Vec::new()), Err(not_defined(&["N", "T"])));
}

#[test]
fn common_types_are_preferred_to_entity_types() {
    assert_eq!(denoted(either(&["User"])), denoted(common(&["User"])));
    assert_eq!(denoted(either(&["User"])), Ok(Type::primitive_boolean()));
    assert_eq!(denoted(either(&["A", "Group"])), Ok(entity_type(&["A", "Group"])));
    match denoted(either(&["__cedar", "Group"])) {
        Err(SchemaError::ReservedName(e)) => assert_eq!(e.0, name(&["__cedar", "Group"])),
        other => panic!("{:?}", other),
    }
    assert!(!is_settled(&convert(either(&["A", "Group"]))));
}

#[test]
fn extension_types_have_to_exist() {
    let w = convert(extension("ipaddr"));
    assert!(is_settled(&w));
    assert_eq!(w.loc(), None);
    let ipaddr = Name::unqualified_name(UnreservedId::new(ident("ipaddr")).unwrap());
    assert_eq!(denoted(extension("ipaddr")), Ok(Type::extension(ipaddr)));
    match refuse(extension("decimel")) {
        SchemaError::UnknownExtensionType(e) => {
            assert_eq!(e.actual.to_string(), "decimel");
            assert_eq!(e.suggested_replacement, Some("decimal".to_string()));
        }
        other => panic!("{:?}", other),
    }
    let none = Extensions::none();
    match try_jsonschema_type_into_validator_type(extension("decimal"), &none, None).err().unwrap() {
        SchemaError::UnknownExtensionType(e) => assert_eq!(e.suggested_replacement, None),
        other => panic!("{:?}", other),
    }
}

#[test]
fn records_denote_their_attributes() {
    let rty = record(
        vec![
            ("age", written(TypeVariant::Long), true),
            ("home", common(&["A", "T"]), false),
            ("boss", set(either(&["A", "User"])), true),
        ],
        false,
    );
    let w = try_record_type_into_validator_type(rty, &Extensions::none(), place()).ok().unwrap();
    assert!(!is_settled(&w));
    assert_eq!(w.loc(), None);
    let expected = Type::EntityOrRecord(EntityRecordKind::Record {
        attrs: Attributes {
            attrs: vec![
                (SmolStr::new("age"), AttributeType::new(Type::primitive_long(), true)),
                (SmolStr::new("home"), AttributeType::new(Type::primitive_long(), false)),
                (SmolStr::new("boss"), AttributeType::new(Type::set(entity_type(&["A", "User"])), true)),
            ],
        },
        open_attributes: OpenTag::ClosedAttributes,
    });
    assert_eq!(w.resolve_common_type_refs(&table()).unwrap().ty, expected);
}

#[test]
fn the_first_attribute_that_cannot_be_converted_is_reported() {
    let rty = record(
        vec![
            ("a", common(&["A", "Missing"]), true),
            ("b", entity(&["__cedar", "First"]), true),
            ("c", entity(&["__cedar", "Second"]), true),
        ],
        false,
    );
    match refuse(written(TypeVariant::Record(rty))) {
        SchemaError::ReservedName(e) => assert_eq!(e.0, name(&["__cedar", "First"])),
        other => panic!("{:?}", other),
    }
    let rty = record(
        vec![
            ("a", written(TypeVariant::Long), true),
            ("b", common(&["A", "First"]), true),
            ("c", common(&["A", "Second"]), true),
        ],
        false,
    );
    assert_eq!(denoted(written(TypeVariant::Record(rty))), Err(not_defined(&["A", "First"])));
}

#[test]
fn open_records_are_refused_wherever_they_are() {
    let open = || written(TypeVariant::Record(record(vec![], true)));
    let inside = written(TypeVariant::Record(record(vec![("a", set(open()), true)], false)));
    for ty in [open(), set(open()), inside] {
        match refuse(ty) {
            SchemaError::UnsupportedFeature(e) => {
                assert_eq!(e.0, UnsupportedFeature::OpenRecordsAndEntities);
            }
            other => panic!("{:?}", other),
        }
    }
}

#[test]
fn map_applies_to_what_comes_out() {
    let settled = WithUnresolvedCommonTypeRefs::WithoutUnresolved(20u32, place()).map(|n| n + 1);
    assert!(matches!(settled, WithUnresolvedCommonTypeRefs::WithoutUnresolved(21, _)));
    assert_eq!(settled.loc(), place().as_deref());

    let pending = WithUnresolvedCommonTypeRefs::new(
        |defs: &Vec<(InternalName, ValidatorType)>| Ok(defs.len()),
        place(),
    )
    .map(|n| n * 10);
    assert!(matches!(pending, WithUnresolvedCommonTypeRefs::WithUnresolved(_, _)));
    assert_eq!(pending.loc(), place().as_deref());
    assert_eq!(pending.resolve_common_type_refs(&table()).unwrap(), 30);

    let failed = convert(common(&["Missing"])).map(|_| 1u8);
    assert_eq!(failed.resolve_common_type_refs(&table()), Err(not_defined(&["Missing"])));
}

#[test]
fn values_convert_into_settled_ones() {
    let w = WithUnresolvedCommonTypeRefs::from(7u8);
    assert_eq!(w.loc(), None);
    assert_eq!(w.resolve_common_type_refs(&Vec::new()).unwrap(), 7);
    let w: WithUnresolvedCommonTypeRefs<ValidatorType> = Type::primitive_long().into();
    assert_eq!(w.resolve_common_type_refs(&Vec::new()).unwrap().ty, Type::primitive_long());
}

#[test]
fn the_nearest_word_is_suggested() {
    let words: Vec<String> =
        ["ipaddr", "decimal", "datetime", "duration"].iter().map(|w| w.to_string()).collect();
    assert_eq!(fuzzy_search("ip", &words), Some("ipaddr".to_string()));
    assert_eq!(fuzzy_search("datetim", &words), Some("datetime".to_string()));
    assert_eq!(fuzzy_search("duratoin", &words), Some("duration".to_string()));
    // "abcd" and "abce" are at the same distance from "abcf": the first is taken.
    let tie = vec!["zzzz".to_string(), "abcd".to_string(), "abce".to_string()];
    assert_eq!(fuzzy_search("abcf", &tie), Some("abcd".to_string()));
    assert_eq!(fuzzy_search("", &words), None);
    assert_eq!(fuzzy_search("ip", &Vec::new()), None);
    assert_eq!(fuzzy_search("ip", &vec!["".to_string()]), Some("".to_string()));
}

#[test]
fn unresolved_values_are_not_shown() {
    let settled = WithUnresolvedCommonTypeRefs::from(7u8);
    assert_eq!(settled.debug_text(|n| format!("{:?}", n)), "WithoutUnresolved(7)");
    let pending = convert(common(&["A", "T"]));
    assert_eq!(pending.debug_text(|vt| format!("{:?}", vt)), "WithUnresolved");
}

#[test]
fn resolved_types_denote() {
    let namespace = name(&["A"]);
    let raw = json_schema::Type::Type {
        ty: TypeVariant::SetOf {
            element: Box::new(json_schema::Type::CommonTypeRef {
                name: RawName(name(&["T"])),
                loc: None,
            }),
        },
        loc: None,
    };
    let all = AllDefs {
        entity_defs: vec![],
        common_defs: vec![name(&["A", "T"]), name(&["User"])],
        action_defs: vec![],
    };
    let resolved = raw
        .conditionally_qualify_type_references(Some(&namespace))
        .fully_qualify_type_references(&all)
        .unwrap();
    assert_eq!(resolved, set(common(&["A", "T"])));
    assert_eq!(denoted(resolved), Ok(Type::set(Type::primitive_long())));
}

#[test]
fn attributes_of_records_are_settled_late() {
    let attributes = |items: Vec<(&str, SchemaType, bool)>| {
        parse_record_attributes(record(items, false).attributes, &Extensions::none(), place())
    };
    let empty = attributes(vec![]).ok().unwrap();
    assert!(matches!(empty, WithUnresolvedCommonTypeRefs::WithUnresolved(_, _)));
    assert_eq!(empty.loc(), place().as_deref());
    assert_eq!(empty.resolve_common_type_refs(&table()).unwrap().attrs, vec![]);
    let late = attributes(vec![
        ("a", written(TypeVariant::Long), true),
        ("b", common(&["P"]), true),
        ("c", common(&["Q"]), true),
    ]);
    assert_eq!(
        late.ok().unwrap().resolve_common_type_refs(&table()),
        Err(not_defined(&["P"]))
    );
}
