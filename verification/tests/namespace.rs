use cedar_schema::declarations::{
    ActionBehavior, ActionType, AttributesOrContext, CommonType, EntityTypeDeclaration,
    EntityTypeKind, NamespaceDefinition, StandardEntityType,
};
use cedar_schema::defs::AllDefs;
use cedar_schema::err::{SchemaError, UnsupportedFeature};
use cedar_schema::json_schema::{Type, TypeVariant};
use cedar_schema::names::{
    CommonTypeId, EntityType, EntityUID, Id, InternalName, Name, UnreservedId,
};
use cedar_schema::namespace_def::ValidatorNamespaceDef;
use cedar_schema::raw_name::{ConditionalName, RawName, ReferenceType};
use cedar_schema::action_uid::ActionRef;
use cedar_schema::value::{
    CedarValueJson, EvaluationError, EvaluationErrorModel, ExprModel, NoExtensions, PartialValue,
    PartialValueModel, RestrictedEvaluator, RestrictedExpr,
};
use smol_str::SmolStr;

type Unresolved = ValidatorNamespaceDef<ConditionalName, ConditionalName>;

fn ident(text: &str) -> Id {
    Id::new(SmolStr::new(text))
}

fn unreserved(text: &str) -> UnreservedId {
    UnreservedId::new(ident(text)).unwrap()
}

fn name(components: &[&str]) -> InternalName {
    let (last, path) = components.split_last().unwrap();
    InternalName::new(ident(last), path.iter().map(|c| ident(c)).collect(), None)
}

fn raw(components: &[&str]) -> RawName {
    RawName(name(components))
}

fn action(components: &[&str], eid: &str) -> EntityUID {
    EntityUID {
        ty: EntityType(Name::try_from_internal(name(components)).unwrap()),
        eid: SmolStr::new(eid),
    }
}

fn common_ref(components: &[&str]) -> Type<RawName> {
    Type::CommonTypeRef { name: raw(components), loc: None }
}

fn entity(id: &str, parents: Vec<RawName>, shape: Type<RawName>) -> (UnreservedId, EntityTypeDeclaration<RawName>) {
    (
        unreserved(id),
        EntityTypeDeclaration {
            kind: EntityTypeKind::Standard(StandardEntityType {
                member_of_types: parents,
                shape: AttributesOrContext(shape),
                tags: None,
            }),
            loc: None,
        },
    )
}

fn plain(id: &str) -> (SmolStr, ActionType<RawName>) {
    (
        SmolStr::new(id),
        ActionType { attributes: None, applies_to: None, member_of: None, loc: None },
    )
}

fn with_attributes(id: &str, attributes: Vec<(&str, CedarValueJson)>) -> (SmolStr, ActionType<RawName>) {
    let (id, ty) = plain(id);
    let attributes = attributes.into_iter().map(|(k, v)| (SmolStr::new(k), v)).collect();
    (id, ActionType { attributes: Some(attributes), ..ty })
}

fn long() -> Type<RawName> {
    Type::Type { ty: TypeVariant::Long, loc: None }
}

fn common(id: &str, ty: Type<RawName>) -> (CommonTypeId, CommonType<RawName>) {
    (CommonTypeId::unchecked(unreserved(id)), CommonType { ty, loc: None })
}

fn definition() -> NamespaceDefinition<RawName> {
    NamespaceDefinition {
        common_types: vec![common("T", long()), common("U", common_ref(&["T"]))],
        entity_types: vec![
            entity("User", vec![raw(&["Group"])], common_ref(&["U"])),
            entity("Group", vec![], AttributesOrContext::<RawName>::default().into_inner()),
        ],
        actions: vec![plain("view"), plain("edit")],
    }
}

fn process(
    namespace: Option<InternalName>,
    def: NamespaceDefinition<RawName>,
    behavior: ActionBehavior,
) -> Result<Unresolved, SchemaError> {
    ValidatorNamespaceDef::from_namespace_definition(namespace, def, behavior, &NoExtensions)
}

fn all_of(def: &Unresolved) -> AllDefs {
    AllDefs {
        entity_defs: def.all_declared_entity_type_names().into_iter().cloned().collect(),
        common_defs: def.all_declared_common_type_names().into_iter().cloned().collect(),
        action_defs: def.all_declared_action_names().into_iter().cloned().collect(),
    }
}

#[test]
fn a_namespace_declares_names_with_its_own_in_front() {
    let def = process(Some(name(&["A", "B"])), definition(), ActionBehavior::default()).unwrap();
    assert_eq!(def.namespace(), Some(&name(&["A", "B"])));
    assert_eq!(
        def.all_declared_common_type_names(),
        vec![&name(&["A", "B", "T"]), &name(&["A", "B", "U"])]
    );
    assert_eq!(
        def.all_declared_entity_type_names(),
        vec![&name(&["A", "B", "User"]), &name(&["A", "B", "Group"])]
    );
    assert_eq!(
        def.all_declared_action_names(),
        vec![&action(&["A", "B", "Action"], "view"), &action(&["A", "B", "Action"], "edit")]
    );
}

#[test]
fn the_empty_namespace_has_no_name() {
    let def: Unresolved = definition().try_into().unwrap();
    assert_eq!(def.namespace(), None);
    assert_eq!(def.all_declared_common_type_names(), vec![&name(&["T"]), &name(&["U"])]);
    assert_eq!(def.all_declared_action_names()[1], &action(&["Action"], "edit"));
}

#[test]
fn a_namespace_is_resolved_keeping_its_names() {
    let def = process(Some(name(&["A"])), definition(), ActionBehavior::default()).unwrap();
    let all = all_of(&def);
    let resolved = def.fully_qualify_type_references(&all).unwrap();
    assert_eq!(resolved.namespace(), Some(&name(&["A"])));
    assert_eq!(resolved.all_declared_common_type_names(), all.common_defs.iter().collect::<Vec<_>>());
    assert_eq!(resolved.all_declared_entity_type_names(), all.entity_defs.iter().collect::<Vec<_>>());
    assert_eq!(resolved.all_declared_action_names(), all.action_defs.iter().collect::<Vec<_>>());
    assert_eq!(
        resolved.common_types().defs()[1].1,
        Type::CommonTypeRef { name: name(&["A", "T"]), loc: None }
    );
    assert_eq!(resolved.entity_types().defs()[0].1.parents(), vec![&name(&["A", "Group"])]);
}

#[test]
fn which_namespace_it_is_does_not_matter_to_references() {
    let all = AllDefs {
        entity_defs: vec![],
        common_defs: vec![name(&["A", "T"]), name(&["B", "T"])],
        action_defs: vec![],
    };
    let resolved = |namespace: &[&str]| {
        let reference = common_ref(&["T"]).conditionally_qualify_type_references(Some(&name(&["A"])));
        let def = ValidatorNamespaceDef::from_common_type_def(
            Some(name(namespace)),
            (unreserved("U"), reference),
        );
        let r = def.fully_qualify_type_references(&all).unwrap();
        assert_eq!(r.namespace(), Some(&name(namespace)));
        r.common_types().defs()[0].1.clone()
    };
    assert_eq!(resolved(&["A"]), Type::CommonTypeRef { name: name(&["A", "T"]), loc: None });
    assert_eq!(resolved(&["B"]), resolved(&["A"]));
}

#[test]
fn a_copy_of_a_namespace_resolves_to_the_same() {
    let def = process(Some(name(&["A"])), definition(), ActionBehavior::default()).unwrap();
    let all = all_of(&def);
    let copy = def.clone();
    assert_eq!(copy.namespace(), def.namespace());
    assert_eq!(format!("{:?}", copy), format!("{:?}", def));
    let a = copy.fully_qualify_type_references(&all).unwrap();
    let b = def.fully_qualify_type_references(&all).unwrap();
    assert_eq!(format!("{:?}", a), format!("{:?}", b));
}

struct Refusing;

impl RestrictedEvaluator for Refusing {
    fn evaluated(&self, _: ExprModel) -> Result<PartialValueModel, EvaluationErrorModel> {
        unreachable!()
    }

    fn partial_interpret(&self, _: RestrictedExpr) -> Result<PartialValue, EvaluationError> {
        panic!("nothing is evaluated")
    }
}

#[test]
fn prohibited_attributes_are_not_evaluated() {
    let def = ValidatorNamespaceDef::from_namespace_definition(
        None,
        definition(),
        ActionBehavior::ProhibitAttributes,
        &Refusing,
    )
    .unwrap();
    let same = process(None, definition(), ActionBehavior::ProhibitAttributes).unwrap();
    assert_eq!(format!("{:?}", def), format!("{:?}", same));
    let mut def = definition();
    def.actions.push(with_attributes("own", vec![("level", CedarValueJson::Long(3))]));
    let refused = ValidatorNamespaceDef::from_namespace_definition(
        None,
        def,
        ActionBehavior::ProhibitAttributes,
        &Refusing,
    );
    assert!(matches!(refused, Err(SchemaError::UnsupportedFeature(_))));
}

#[test]
fn permitted_attributes_have_to_be_expressions() {
    let mut def = definition();
    let mixed = CedarValueJson::SetOf(vec![CedarValueJson::Long(1), CedarValueJson::Null]);
    def.actions.push(with_attributes("own", vec![("a", mixed)]));
    match process(None, def, ActionBehavior::PermitAttributes).unwrap_err() {
        SchemaError::UnsupportedActionAttribute(e) => assert_eq!(e.attr, "null"),
        other => panic!("{:?}", other),
    }
}

#[test]
fn undefined_types_of_a_namespace_are_all_reported() {
    let mut def = definition();
    def.common_types.push(common("V", common_ref(&["NoSuch"])));
    def.entity_types.push(entity("Bot", vec![raw(&["NoParent"])], long()));
    def.actions[0].1.member_of = Some(vec![ActionRef::default_type(SmolStr::new("none"))]);
    let def = process(None, def, ActionBehavior::default()).unwrap();
    let all = all_of(&def);
    match def.fully_qualify_type_references(&all).unwrap_err() {
        SchemaError::TypeNotDefined(e) => {
            let reported: Vec<_> = e.undefined_types.into_iter().collect();
            assert_eq!(
                reported,
                vec![
                    raw(&["NoSuch"]).conditionally_qualify_with(None, ReferenceType::Common),
                    raw(&["NoParent"]).conditionally_qualify_with(None, ReferenceType::Entity),
                ]
            );
            for reference in reported {
                assert!(reference.resolve(&all).is_err());
            }
        }
        other => panic!("{:?}", other),
    }
}

#[test]
fn undefined_actions_are_reported_where_all_types_are_defined() {
    let mut def = definition();
    def.actions[0].1.member_of = Some(vec![ActionRef::default_type(SmolStr::new("none"))]);
    def.actions[1].1.member_of = Some(vec![ActionRef::default_type(SmolStr::new("view"))]);
    let def = process(Some(name(&["A"])), def, ActionBehavior::default()).unwrap();
    let all = all_of(&def);
    match def.fully_qualify_type_references(&all).unwrap_err() {
        SchemaError::ActionNotDefined(e) => {
            assert_eq!(e.0.len(), 1);
            assert_eq!(e.0.head.id, "none");
        }
        other => panic!("{:?}", other),
    }
}

#[test]
fn the_name_kept_for_actions_is_no_entity_type() {
    let mut def = definition();
    def.entity_types.push(entity("Action", vec![], long()));
    def.actions.push(with_attributes("own", vec![]));
    match process(Some(name(&["A"])), def, ActionBehavior::ProhibitAttributes).unwrap_err() {
        SchemaError::ActionEntityTypeDeclared(_) => {}
        other => panic!("{:?}", other),
    }
    // Other names are not touched by this.
    let mut def = definition();
    def.entity_types.push(entity("Actions", vec![], long()));
    assert!(process(None, def, ActionBehavior::ProhibitAttributes).is_ok());
}

#[test]
fn prohibited_attributes_are_reported_in_order() {
    let report = |ids: &[&str]| {
        let mut def = definition();
        for id in ids {
            def.actions.push(with_attributes(id, vec![]));
        }
        match process(None, def, ActionBehavior::ProhibitAttributes).unwrap_err() {
            SchemaError::UnsupportedFeature(e) => match e.0 {
                UnsupportedFeature::ActionAttributes(names) => names,
                other => panic!("{:?}", other),
            },
            other => panic!("{:?}", other),
        }
    };
    assert_eq!(report(&["own", "delete", "dela"]), vec!["dela", "delete", "own"]);
    assert_eq!(report(&["dela", "own", "delete"]), vec!["dela", "delete", "own"]);
    assert_eq!(report(&["\u{e9}tat", "zone", "Own", ""]), vec!["", "Own", "zone", "\u{e9}tat"]);
}

#[test]
fn permitted_attributes_are_kept() {
    let mut def = definition();
    def.actions.push(with_attributes("own", vec![("level", CedarValueJson::Long(3))]));
    let def = process(None, def, ActionBehavior::PermitAttributes).unwrap();
    assert_eq!(def.actions().actions()[2].1.attributes().len(), 1);
    assert!(def.actions().actions()[0].1.attributes().is_empty());
}

#[test]
fn the_first_thing_that_is_wrong_is_reported() {
    let broken = |common_twice: bool, action_twice: bool| {
        let mut def = definition();
        def.entity_types.push(entity("User", vec![], long()));
        if action_twice {
            def.actions.push(plain("view"));
        }
        if common_twice {
            def.common_types.push(common("T", long()));
        }
        process(None, def, ActionBehavior::default()).unwrap_err()
    };
    assert!(matches!(broken(true, true), SchemaError::DuplicateCommonType(_)));
    assert!(matches!(broken(false, true), SchemaError::DuplicateAction(_)));
    assert!(matches!(broken(false, false), SchemaError::DuplicateEntityType(_)));
}

#[test]
fn a_namespace_may_hold_typedefs_only() {
    let typedef = |id: &str| {
        (unreserved(id), Type::<ConditionalName>::Type { ty: TypeVariant::Boolean, loc: None })
    };
    let many = ValidatorNamespaceDef::from_common_type_defs(
        Some(name(&["A"])),
        vec![typedef("T"), typedef("U")],
    )
    .unwrap();
    assert_eq!(many.all_declared_common_type_names(), vec![&name(&["A", "T"]), &name(&["A", "U"])]);
    assert!(many.all_declared_entity_type_names().is_empty());
    assert!(many.all_declared_action_names().is_empty());

    let one = ValidatorNamespaceDef::from_common_type_def(Some(name(&["A"])), typedef("T"));
    let list =
        ValidatorNamespaceDef::from_common_type_defs(Some(name(&["A"])), vec![typedef("T")]).unwrap();
    assert_eq!(one.namespace(), list.namespace());
    assert_eq!(one.common_types().defs(), list.common_types().defs());

    match ValidatorNamespaceDef::from_common_type_defs(None, vec![typedef("T"), typedef("T")]).unwrap_err() {
        SchemaError::DuplicateCommonType(e) => assert_eq!(e.ty, name(&["T"])),
        other => panic!("{:?}", other),
    }
}
