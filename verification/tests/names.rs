use cedar_schema::names::{
    internal_name_to_entity_type, CommonTypeId, Id, InternalName, Loc, Name, UnreservedId,
};
use cedar_schema::raw_name::RawName;
use smol_str::SmolStr;

fn ident(text: &str) -> Id {
    Id::new(SmolStr::new(text))
}

fn name(components: &[&str]) -> InternalName {
    let (last, path) = components.split_last().unwrap();
    InternalName::new(ident(last), path.iter().map(|c| ident(c)).collect(), None)
}

#[test]
fn reserved_identifier_is_told_apart() {
    assert!(ident("__cedar").is_reserved());
    assert!(!ident("cedar").is_reserved());
    assert!(!ident("__cedar_").is_reserved());
}

#[test]
fn unreserved_id_refuses_the_reserved_identifier() {
    let error = UnreservedId::new(ident("__cedar")).unwrap_err();
    assert_eq!(error.0, name(&["__cedar"]));
    let id = UnreservedId::new(ident("User")).unwrap();
    assert_eq!(id.as_str(), "User");
    assert_eq!(id.clone().into_id(), ident("User"));
    assert_eq!(CommonTypeId::unchecked(id).into_unreserved().as_str(), "User");
}

#[test]
fn names_are_written_with_separators() {
    assert_eq!(name(&["A", "B", "User"]).to_string(), "A::B::User");
    assert_eq!(name(&["User"]).to_string(), "User");
}

#[test]
fn names_are_equal_wherever_they_were_written() {
    let here = Some(Box::new(Loc { start: 1, end: 5, src: SmolStr::new("entity User;") }));
    let there = InternalName::new(ident("User"), vec![ident("A")], here);
    assert_eq!(there, name(&["A", "User"]));
    assert_eq!(there.clone(), there);
    assert_eq!(there.clone().loc.unwrap().end, 5);
    assert_ne!(there, name(&["User"]));
    assert_ne!(there, name(&["B", "User"]));
    assert_ne!(there, name(&["A", "Group"]));
}

#[test]
fn only_names_without_a_namespace_are_qualified() {
    let namespace = name(&["A", "B"]);
    assert_eq!(name(&["User"]).qualify_with(Some(&namespace)), name(&["A", "B", "User"]));
    assert_eq!(name(&["C", "User"]).qualify_with(Some(&namespace)), name(&["C", "User"]));
    assert_eq!(name(&["User"]).qualify_with(None), name(&["User"]));
    assert_eq!(RawName(name(&["User"])).qualify_with(Some(&namespace)), name(&["A", "B", "User"]));
}

#[test]
fn reserved_names_are_no_entity_types() {
    assert!(name(&["__cedar", "User"]).is_reserved());
    assert!(name(&["A", "__cedar"]).is_reserved());
    assert!(!name(&["A", "User"]).is_reserved());
    let error = internal_name_to_entity_type(name(&["A", "__cedar", "User"])).unwrap_err();
    assert_eq!(error.0, name(&["A", "__cedar", "User"]));
    let ety = internal_name_to_entity_type(name(&["A", "User"])).unwrap();
    assert_eq!(*ety.0.as_internal(), name(&["A", "User"]));
    assert_eq!(ety.0.to_string(), "A::User");
    assert!(Name::try_from_internal(name(&["__cedar"])).is_err());
}
