use cedar_schema::action_attributes::{convert_attr_jsonval_map_to_attributes, jsonval_to_type_helper};
use cedar_schema::action_uid::{ActionEntityUID, ActionRef};
use cedar_schema::actions::{ActionFragment, ActionsDef};
use cedar_schema::declarations::{ActionType, ApplySpec, AttributesOrContext};
use cedar_schema::defs::AllDefs;
use cedar_schema::err::SchemaError;
use cedar_schema::json_schema;
use cedar_schema::json_schema::{RecordType, TypeVariant};
use cedar_schema::names::{EntityType, EntityUID, Id, InternalName, Loc, Name};
use cedar_schema::raw_name::{ConditionalName, RawName, ReferenceType};
use cedar_schema::types::{OpenTag, Type};
use cedar_schema::value::{
    CedarValueJson, EvaluationError, FnAndArgs, JsonDeserializationError, Literal, NoExtensions,
    PartialValue, RestrictedEvaluator, RestrictedExpr, Value, why_inexpressible,
};
use smol_str::SmolStr;

fn ident(text: &str) -> Id {
    Id::new(SmolStr::new(text))
}

fn name(components: &[&str]) -> InternalName {
    let (last, path) = components.split_last().unwrap();
    InternalName::new(ident(last), path.iter().map(|c| ident(c)).collect(), None)
}

fn raw(components: &[&str]) -> RawName {
    RawName(name(components))
}

fn entity_type(components: &[&str]) -> EntityType {
    EntityType(Name::try_from_internal(name(components)).unwrap())
}

fn action(components: &[&str], eid: &str) -> EntityUID {
    EntityUID { ty: entity_type(components), eid: SmolStr::new(eid) }
}

fn view() -> EntityUID {
    action(&["Action"], "view")
}

fn text(s: &str) -> CedarValueJson {
    CedarValueJson::String(SmolStr::new(s))
}

fn call(function: &str) -> CedarValueJson {
    CedarValueJson::ExtnEscape {
        extn: FnAndArgs {
            ext_fn: Name::try_from_internal(name(&[function])).unwrap(),
            args: vec![text("10.0.0.1")],
        },
    }
}

fn expr() -> CedarValueJson {
    CedarValueJson::ExprEscape { expr: SmolStr::new("1 + 1") }
}

fn entity() -> CedarValueJson {
    CedarValueJson::EntityEscape { entity: action(&["User"], "alice") }
}

fn fields<T>(items: Vec<(&str, T)>) -> Vec<(SmolStr, T)> {
    items.into_iter().map(|(k, v)| (SmolStr::new(k), v)).collect()
}

fn context() -> json_schema::Type<RawName> {
    json_schema::Type::CommonTypeRef { name: raw(&["Ctx"]), loc: None }
}

fn plain() -> ActionType<RawName> {
    ActionType { attributes: None, applies_to: None, member_of: None, loc: None }
}

fn with_attributes(attributes: Vec<(&str, CedarValueJson)>) -> ActionType<RawName> {
    ActionType { attributes: Some(fields(attributes)), ..plain() }
}

fn reference(components: &[&str], namespace: Option<&InternalName>) -> ConditionalName {
    raw(components).conditionally_qualify_with(namespace, ReferenceType::Entity)
}

fn member(id: &str, ty: Option<&[&str]>) -> ActionRef<RawName> {
    ActionRef { id: SmolStr::new(id), ty: ty.map(raw) }
}

#[test]
fn attributes_have_the_types_of_their_values() {
    let ty = |v| jsonval_to_type_helper(&v, &view()).unwrap();
    assert_eq!(ty(CedarValueJson::Bool(true)), Type::primitive_boolean());
    assert_eq!(ty(CedarValueJson::Long(3)), Type::primitive_long());
    assert_eq!(ty(text("x")), Type::primitive_string());
    assert_eq!(
        ty(CedarValueJson::SetOf(vec![CedarValueJson::SetOf(vec![CedarValueJson::Long(1)])])),
        Type::set(Type::set(Type::primitive_long()))
    );
    assert_eq!(
        ty(CedarValueJson::Record(fields(vec![
            ("a", CedarValueJson::Long(1)),
            ("b", CedarValueJson::Record(vec![])),
        ]))),
        Type::record_with_required_attributes(
            fields(vec![
                ("a", Type::primitive_long()),
                ("b", Type::record_with_required_attributes(vec![], OpenTag::ClosedAttributes)),
            ]),
            OpenTag::ClosedAttributes
        )
    );
    // The first element of a set tells its type; the others need not have it, nor any.
    assert_eq!(
        ty(CedarValueJson::SetOf(vec![CedarValueJson::Long(1), text("x"), entity(), call("ip")])),
        Type::set(Type::primitive_long())
    );
}

#[test]
fn some_values_have_no_type() {
    let unsupported = |v, words: &str| match jsonval_to_type_helper(&v, &view()).unwrap_err() {
        SchemaError::UnsupportedActionAttribute(e) => {
            assert_eq!(e.uid, view());
            assert_eq!(e.attr, words);
        }
        other => panic!("{:?}", other),
    };
    unsupported(entity(), "entity escape (`__entity`)");
    unsupported(expr(), "expression escape (`__expr`)");
    unsupported(call("ip"), "extension function escape (`__extn`)");
    unsupported(CedarValueJson::Null, "null");
    unsupported(CedarValueJson::SetOf(vec![CedarValueJson::Null, CedarValueJson::Long(1)]), "null");
    unsupported(
        CedarValueJson::Record(fields(vec![
            ("a", CedarValueJson::Long(1)),
            ("b", expr()),
            ("c", CedarValueJson::Null),
        ])),
        "expression escape (`__expr`)",
    );
    // Whatever is no expression is refused, wherever it stands.
    unsupported(CedarValueJson::SetOf(vec![CedarValueJson::Long(1), CedarValueJson::Null]), "null");
    unsupported(
        CedarValueJson::SetOf(vec![
            CedarValueJson::Long(1),
            CedarValueJson::Record(fields(vec![("a", expr())])),
            CedarValueJson::Null,
        ]),
        "expression escape (`__expr`)",
    );
    match jsonval_to_type_helper(&CedarValueJson::SetOf(vec![]), &view()).unwrap_err() {
        SchemaError::ActionAttributesContainEmptySet(e) => assert_eq!(e.uid, view()),
        other => panic!("{:?}", other),
    }
}

#[test]
fn values_are_written_as_expressions() {
    assert_eq!(
        CedarValueJson::SetOf(vec![CedarValueJson::Bool(true), entity()]).into_expr(),
        Ok(RestrictedExpr::SetOf(vec![
            RestrictedExpr::Lit(Literal::Bool(true)),
            RestrictedExpr::Lit(Literal::EntityUID(action(&["User"], "alice"))),
        ]))
    );
    assert_eq!(
        call("ip").into_expr(),
        Ok(RestrictedExpr::Call {
            name: Name::try_from_internal(name(&["ip"])).unwrap(),
            args: vec![RestrictedExpr::Lit(Literal::String(SmolStr::new("10.0.0.1")))],
        })
    );
    assert_eq!(CedarValueJson::Null.into_expr(), Err(JsonDeserializationError::Null));
    assert_eq!(expr().into_expr(), Err(JsonDeserializationError::ExprTag));
}

#[test]
fn typed_values_are_expressible() {
    let good = || CedarValueJson::Record(fields(vec![("a", CedarValueJson::SetOf(vec![text("x"), entity()]))]));
    assert!(jsonval_to_type_helper(&good(), &view()).is_ok());
    assert_eq!(why_inexpressible(&good()), None);
    assert!(good().into_expr().is_ok());
    let bad = || CedarValueJson::SetOf(vec![CedarValueJson::Long(1), CedarValueJson::Null]);
    assert!(jsonval_to_type_helper(&bad(), &view()).is_err());
    assert_eq!(why_inexpressible(&bad()), Some(JsonDeserializationError::Null));
    assert_eq!(bad().into_expr(), Err(JsonDeserializationError::Null));
    let nested = || CedarValueJson::ExtnEscape {
        extn: FnAndArgs {
            ext_fn: Name::try_from_internal(name(&["ip"])).unwrap(),
            args: vec![text("x"), expr(), CedarValueJson::Null],
        },
    };
    assert_eq!(why_inexpressible(&nested()), Some(JsonDeserializationError::ExprTag));
    assert_eq!(nested().into_expr(), Err(JsonDeserializationError::ExprTag));
}

#[test]
fn expressions_are_evaluated_without_extensions() {
    let value = |v: CedarValueJson| NoExtensions.partial_interpret(v.into_expr().unwrap());
    assert_eq!(
        value(CedarValueJson::Record(fields(vec![("a", CedarValueJson::SetOf(vec![text("x")]))]))),
        Ok(PartialValue::Value(Value::Record(fields(vec![(
            "a",
            Value::SetOf(vec![Value::Lit(Literal::String(SmolStr::new("x")))])
        )]))))
    );
    let missing = |n: &str| {
        Err(EvaluationError::UnknownExtensionFunction(Name::try_from_internal(name(&[n])).unwrap()))
    };
    assert_eq!(value(CedarValueJson::SetOf(vec![call("ip"), call("decimal")])), missing("ip"));
    assert_eq!(value(call("decimal")), missing("decimal"));
}

#[test]
fn attributes_are_converted() {
    let (types, values) = convert_attr_jsonval_map_to_attributes(
        fields(vec![("level", CedarValueJson::Long(3)), ("tag", text("x"))]),
        &view(),
        &NoExtensions,
    )
    .unwrap();
    assert_eq!(types.attrs[0].0, "level");
    assert_eq!(types.attrs[0].1.attr_type, Type::primitive_long());
    assert!(types.attrs[0].1.is_required);
    assert_eq!(types.attrs[1].1.attr_type, Type::primitive_string());
    assert_eq!(
        values,
        fields(vec![
            ("level", PartialValue::Value(Value::Lit(Literal::Long(3)))),
            ("tag", PartialValue::Value(Value::Lit(Literal::String(SmolStr::new("x"))))),
        ])
    );
}

#[test]
fn attributes_are_in_the_order_of_their_names() {
    let convert = |names: &[&str]| {
        let attributes = names.iter().enumerate().map(|(i, n)| (*n, CedarValueJson::Long(i as i64)));
        let (types, values) = convert_attr_jsonval_map_to_attributes(
            fields(attributes.collect()),
            &view(),
            &NoExtensions,
        )
        .unwrap();
        let type_names: Vec<String> = types.attrs.iter().map(|a| a.0.to_string()).collect();
        let value_names: Vec<String> = values.iter().map(|a| a.0.to_string()).collect();
        assert_eq!(type_names, value_names);
        (value_names, values)
    };
    assert_eq!(convert(&["tag", "level", "Tag", "", "\u{e9}"]).0, vec!["", "Tag", "level", "tag", "\u{e9}"]);
    // Of two under the same name the last counts.
    let (names, values) = convert(&["b", "a", "b"]);
    assert_eq!(names, vec!["a", "b"]);
    assert_eq!(values[1].1, PartialValue::Value(Value::Lit(Literal::Long(2))));
    let bad = fields(vec![(
        "a",
        CedarValueJson::SetOf(vec![CedarValueJson::Long(1), CedarValueJson::Null]),
    )]);
    assert!(matches!(
        convert_attr_jsonval_map_to_attributes(bad, &view(), &NoExtensions),
        Err(SchemaError::UnsupportedActionAttribute(_))
    ));
}

#[test]
fn attributes_that_cannot_be_evaluated_are_reported() {
    let attributes = fields(vec![
        ("ok", CedarValueJson::Long(3)),
        ("peers", CedarValueJson::SetOf(vec![text("x"), call("ip")])),
        ("none", CedarValueJson::Null),
    ]);
    match convert_attr_jsonval_map_to_attributes(attributes, &view(), &NoExtensions).unwrap_err() {
        SchemaError::ActionAttrEval(e) => {
            assert_eq!(e.0.uid, view());
            assert_eq!(e.0.attr_or_tag, "peers");
            assert!(e.0.was_attr);
            assert!(matches!(e.0.err, EvaluationError::UnknownExtensionFunction(_)));
        }
        other => panic!("{:?}", other),
    }
}

#[test]
fn actions_are_declared_in_the_namespace() {
    let a = name(&["A"]);
    let place = Some(Box::new(Loc { start: 7, end: 11, src: SmolStr::new("action view;") }));
    let declared = ActionsDef::from_raw_actions(
        vec![
            (
                SmolStr::new("view"),
                ActionType {
                    attributes: Some(fields(vec![("level", CedarValueJson::Long(3))])),
                    applies_to: Some(ApplySpec {
                        resource_types: vec![raw(&["Photo"])],
                        principal_types: vec![raw(&["User"]), raw(&["B", "Bot"]), raw(&["User"])],
                        context: AttributesOrContext(context()),
                    }),
                    member_of: Some(vec![
                        member("all", None),
                        member("all", Some(&["B", "Action"])),
                        member("all", Some(&["Action"])),
                    ]),
                    loc: place.clone(),
                },
            ),
            (SmolStr::new("edit"), plain()),
        ],
        Some(&a),
        &NoExtensions,
    )
    .unwrap();
    assert_eq!(declared.actions()[0].0, action(&["A", "Action"], "view"));
    assert_eq!(declared.actions()[1].0, action(&["A", "Action"], "edit"));
    let f = &declared.actions()[0].1;
    assert_eq!(
        *f.context(),
        json_schema::Type::CommonTypeRef {
            name: raw(&["Ctx"]).conditionally_qualify_with(Some(&a), ReferenceType::Common),
            loc: None
        }
    );
    assert_eq!(
        *f.applies_to().applicable_principal_types(),
        vec![reference(&["User"], Some(&a)), reference(&["B", "Bot"], Some(&a))]
    );
    assert_eq!(*f.applies_to().applicable_resource_types(), vec![reference(&["Photo"], Some(&a))]);
    // A parent without a type has the type of actions, so the first and the last are the same.
    assert_eq!(
        *f.parents(),
        vec![
            ActionEntityUID { id: SmolStr::new("all"), ty: reference(&["Action"], Some(&a)) },
            ActionEntityUID { id: SmolStr::new("all"), ty: reference(&["B", "Action"], Some(&a)) },
        ]
    );
    assert_eq!(f.attribute_types().attrs.len(), 1);
    assert_eq!(f.attributes()[0].0, "level");
    assert_eq!(f.loc(), place.as_deref());
    // An action that says nothing applies to nothing.
    let g = &declared.actions()[1].1;
    assert_eq!(
        *g.context(),
        json_schema::Type::Type {
            ty: TypeVariant::Record(RecordType { attributes: vec![], additional_attributes: false }),
            loc: None
        }
    );
    assert!(g.applies_to().applicable_principal_types().is_empty());
    assert!(g.applies_to().applicable_resource_types().is_empty());
    assert!(g.parents().is_empty() && g.attributes().is_empty() && g.loc().is_none());
}

#[test]
fn actions_are_not_declared_twice_nor_reserved() {
    let twice = vec![
        (SmolStr::new("view"), plain()),
        (SmolStr::new("edit"), plain()),
        (SmolStr::new("edit"), with_attributes(vec![("x", CedarValueJson::Null)])),
    ];
    match ActionsDef::from_raw_actions(twice, None, &NoExtensions).unwrap_err() {
        SchemaError::DuplicateAction(e) => assert_eq!(e.0, "edit"),
        other => panic!("{:?}", other),
    }
    let one = vec![(SmolStr::new("view"), plain())];
    match ActionsDef::from_raw_actions(one, Some(&name(&["__cedar"])), &NoExtensions).unwrap_err() {
        SchemaError::ReservedName(e) => assert_eq!(e.0, name(&["__cedar", "Action"])),
        other => panic!("{:?}", other),
    }
    let bad = vec![(SmolStr::new("view"), with_attributes(vec![("x", CedarValueJson::Null)]))];
    match ActionsDef::from_raw_actions(bad, Some(&name(&["A"])), &NoExtensions).unwrap_err() {
        SchemaError::UnsupportedActionAttribute(e) => {
            assert_eq!(e.uid, action(&["A", "Action"], "view"));
        }
        other => panic!("{:?}", other),
    }
    assert!(ActionsDef::<InternalName, EntityType>::new().actions().is_empty());
}

fn declaration(
    context: json_schema::Type<RawName>,
    principals: Vec<RawName>,
    resources: Vec<RawName>,
    parents: Vec<ActionRef<RawName>>,
) -> ActionType<RawName> {
    ActionType {
        attributes: Some(fields(vec![("level", CedarValueJson::Long(3))])),
        applies_to: Some(ApplySpec {
            resource_types: resources,
            principal_types: principals,
            context: AttributesOrContext(context),
        }),
        member_of: Some(parents),
        loc: None,
    }
}

fn fragment_of(
    declaration: ActionType<RawName>,
    namespace: Option<&InternalName>,
) -> ActionFragment<ConditionalName, ConditionalName> {
    ActionFragment::from_raw_action(&view(), declaration, namespace, &NoExtensions, None).unwrap()
}

fn fragment(
    context: json_schema::Type<RawName>,
    principals: Vec<RawName>,
    resources: Vec<RawName>,
    parents: Vec<ActionRef<RawName>>,
) -> ActionFragment<ConditionalName, ConditionalName> {
    fragment_of(declaration(context, principals, resources, parents), None)
}

fn all_defs() -> AllDefs {
    AllDefs {
        entity_defs: vec![
            name(&["User"]),
            name(&["Photo"]),
            name(&["A", "Photo"]),
            name(&["__cedar", "Bot"]),
        ],
        common_defs: vec![name(&["Ctx"])],
        action_defs: vec![action(&["Action"], "all")],
    }
}

#[test]
fn actions_are_resolved() {
    let f = fragment_of(
        declaration(
            context(),
            vec![raw(&["User"])],
            vec![raw(&["Photo"]), raw(&["A", "Photo"])],
            vec![member("all", None)],
        ),
        Some(&name(&["A"])),
    );
    let types = f.attribute_types().clone();
    let r = f.fully_qualify_type_references(&all_defs()).unwrap();
    assert_eq!(*r.context(), json_schema::Type::CommonTypeRef { name: name(&["Ctx"]), loc: None });
    assert_eq!(*r.applies_to().applicable_principal_types(), vec![entity_type(&["User"])]);
    // Two references that stand for the same entity type are one afterwards.
    assert_eq!(*r.applies_to().applicable_resource_types(), vec![entity_type(&["A", "Photo"])]);
    assert_eq!(
        *r.parents(),
        vec![ActionEntityUID { id: SmolStr::new("all"), ty: name(&["Action"]) }]
    );
    assert_eq!(*r.attribute_types(), types);
    assert_eq!(r.attributes()[0].0, "level");
    assert_eq!(format!("{:?}", r.clone()), format!("{:?}", r));
}

#[test]
fn declarations_that_say_the_same_give_the_same() {
    let as_sets = |d: ActionType<RawName>| {
        let f = fragment_of(d, None);
        let sorted = |names: &Vec<ConditionalName>| {
            let mut texts: Vec<String> = names.iter().map(|n| n.raw.0.to_string()).collect();
            texts.sort();
            texts
        };
        let mut parents: Vec<String> = f.parents().iter().map(|p| p.id.to_string()).collect();
        parents.sort();
        (
            f.context().clone(),
            sorted(f.applies_to().applicable_principal_types()),
            sorted(f.applies_to().applicable_resource_types()),
            parents,
            f.attribute_types().clone(),
            f.attributes().clone(),
        )
    };
    let one = declaration(
        context(),
        vec![raw(&["P"]), raw(&["Q"])],
        vec![raw(&["R"])],
        vec![member("x", None), member("y", None)],
    );
    let other = declaration(
        context(),
        vec![raw(&["Q"]), raw(&["P"]), raw(&["Q"])],
        vec![raw(&["R"]), raw(&["R"])],
        vec![member("y", None), member("x", None), member("y", None)],
    );
    assert_eq!(as_sets(one), as_sets(other));
    let empty = ActionType {
        attributes: Some(vec![]),
        applies_to: Some(ApplySpec {
            resource_types: vec![],
            principal_types: vec![],
            context: AttributesOrContext::default(),
        }),
        member_of: Some(vec![]),
        loc: None,
    };
    assert_eq!(as_sets(plain()), as_sets(empty));
}

#[test]
fn undefined_references_of_actions_are_reported_in_turn() {
    let bad_context =
        json_schema::Type::CommonTypeRef { name: raw(&["NoCtx"]), loc: None };
    let resolve = |f: ActionFragment<ConditionalName, ConditionalName>| {
        f.fully_qualify_type_references(&all_defs()).unwrap_err()
    };
    let bad = |n: &str| reference(&[n], None);
    let types = |e: SchemaError| match e {
        SchemaError::TypeNotDefined(e) => e.undefined_types.into_iter().collect::<Vec<_>>(),
        other => panic!("{:?}", other),
    };
    // The context comes first, then what the action applies to, then its parents.
    let f = fragment(bad_context, vec![raw(&["P"])], vec![], vec![member("none", None)]);
    assert_eq!(
        types(resolve(f)),
        vec![raw(&["NoCtx"]).conditionally_qualify_with(None, ReferenceType::Common)]
    );
    let f = fragment(context(), vec![raw(&["P"])], vec![raw(&["Q"])], vec![member("none", None)]);
    assert_eq!(types(resolve(f)), vec![bad("P"), bad("Q")]);
    let f = fragment(context(), vec![], vec![raw(&["Q"])], vec![]);
    assert_eq!(types(resolve(f)), vec![bad("Q")]);
    let f = fragment(
        context(),
        vec![],
        vec![],
        vec![member("none", None), member("all", None), member("all", Some(&["B", "Action"]))],
    );
    match resolve(f) {
        SchemaError::ActionNotDefined(e) => assert_eq!(
            e.0.into_iter().collect::<Vec<_>>(),
            vec![
                ActionEntityUID { id: SmolStr::new("none"), ty: reference(&["Action"], None) },
                ActionEntityUID { id: SmolStr::new("all"), ty: reference(&["B", "Action"], None) },
            ]
        ),
        other => panic!("{:?}", other),
    }
}

#[test]
fn reserved_entity_types_are_not_applied_to() {
    let bot = || raw(&["__cedar", "Bot"]);
    let f = fragment(context(), vec![bot()], vec![], vec![]);
    match f.fully_qualify_type_references(&all_defs()).unwrap_err() {
        SchemaError::ReservedName(e) => assert_eq!(e.0, name(&["__cedar", "Bot"])),
        other => panic!("{:?}", other),
    }
    // Undefined types are reported rather than anything else.
    let f = fragment(context(), vec![bot()], vec![raw(&["Q"])], vec![]);
    assert!(matches!(
        f.fully_qualify_type_references(&all_defs()).unwrap_err(),
        SchemaError::TypeNotDefined(_)
    ));
}

#[test]
fn errors_of_actions_are_joined() {
    let declare = |actions: Vec<(&str, ActionType<RawName>)>| {
        ActionsDef::from_raw_actions(fields(actions), None, &NoExtensions).unwrap()
    };
    let declared = declare(vec![("view", plain()), ("edit", plain()), ("own", plain())]);
    let copy = declared.clone();
    let names: Vec<_> = declared.actions().iter().map(|a| a.0.clone()).collect();
    let resolved = declared.fully_qualify_type_references(&all_defs()).unwrap();
    assert_eq!(resolved.actions().iter().map(|a| a.0.clone()).collect::<Vec<_>>(), names);
    assert_eq!(copy.actions().iter().map(|a| a.0.clone()).collect::<Vec<_>>(), names);

    let declared = declare(vec![
        ("view", declaration(context(), vec![], vec![], vec![member("one", None)])),
        ("edit", declaration(context(), vec![], vec![], vec![])),
        ("own", declaration(context(), vec![], vec![], vec![member("two", None)])),
    ]);
    match declared.fully_qualify_type_references(&all_defs()).unwrap_err() {
        SchemaError::ActionNotDefined(e) => {
            assert_eq!(e.0.iter().map(|a| a.id.as_str()).collect::<Vec<_>>(), vec!["one", "two"]);
        }
        other => panic!("{:?}", other),
    }
    let declared = declare(vec![
        ("view", declaration(context(), vec![], vec![], vec![member("one", None)])),
        ("edit", declaration(context(), vec![raw(&["P"])], vec![], vec![])),
    ]);
    match declared.fully_qualify_type_references(&all_defs()).unwrap_err() {
        SchemaError::TypeNotDefined(e) => assert_eq!(e.undefined_types.len(), 1),
        other => panic!("{:?}", other),
    }
}
