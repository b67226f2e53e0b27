//! Families, their methods, and requirements.
use aven_check::alpha::{alpha_equivalent_type, named_method_schemes_alpha_equivalent};
use aven_check::attachments::{
    lower_builtin_method_attachments, lower_builtin_owner_pattern, AttachmentIssue,
    MethodAttachment,
};
use aven_check::builtin_methods::{builtin_members, operator_operand_fits, BuiltinType};
use aven_check::collections::{StringMap, StringSet};
use aven_check::families::{
    lower_family_methods, lower_named_family_methods, DeclaredMethod, DeclaredParam, FamilyIssue,
    FamilyProvider,
};
use aven_check::inherited::{effective_base_methods, lift_inherited_method};
use aven_check::lookup::{
    attached_builtin_method_required_owner, attached_builtin_method_signature,
    exact_method_signature, is_parameterized_type_constructor_name, unbound_method_owner_name,
    MethodEnvironment,
};
use aven_check::methods::{
    BuiltinMethodType, MethodPredicate, NamedFamilyType, NamedMethodOrigin, NamedMethodType,
};
use aven_check::obligations::{
    assumption_may_entail, deduplicate_predicates, obligation_step, predicate_is_relational,
    qualify_scheme, snapshot_integer_divisor_evidence, ObligationLedger, ObligationStep,
};
use aven_check::owners::{
    builtin_owner_arity, builtin_owner_head, builtin_owner_patterns_overlap,
    intrinsic_builtin_method_collides, owner_pattern_bindings, primitive_family_base_is_supported,
    IntrinsicMethodNames,
};
use aven_check::providers::{
    canonicalize_named_family_aliases, check_named_family_declaration, declared_method_sources,
    family_data_fields, method_body_params, named_family_owner_key, named_family_provider_entries,
    prepare_named_families, AliasDeclaration, DataField, EntryAction, ModuleIdentity,
    ProviderDeclaration, ProviderIssue, ProviderShape,
};
use aven_check::requirements::{
    discharge_known_method_predicate, method_predicate_is_entailed, requirement_candidate,
    resolve_method_predicate, Discharge,
};
use aven_check::rows::{apply1, literal_type};
use aven_check::schemes::TypeScheme;
use aven_check::span::Span;
use aven_check::syntax::{Expr, ExprKind, Param, RecordEntry};
use aven_check::type_ops::named_builtin;
use aven_check::types::{Literal, Row, RowEntry, RowTail, Type};

fn integer() -> Type {
    named_builtin("Int")
}

fn text() -> Type {
    named_builtin("Text")
}

fn variable(name: &str) -> Type {
    Type::Variable(name.to_string())
}

fn declared(name: &str, params: Vec<Option<Type>>, result: Type) -> DeclaredMethod {
    DeclaredMethod {
        name: name.to_string(),
        name_span: Span::new(1, 2),
        params: params
            .into_iter()
            .map(|ty| DeclaredParam {
                name_span: Span::new(3, 4),
                ty,
            })
            .collect(),
        result,
        constraints: vec![],
    }
}

fn data(fields: &[&str]) -> Row {
    Row {
        entries: fields
            .iter()
            .map(|name| RowEntry::Field {
                name: name.to_string(),
                ty: integer(),
            })
            .collect(),
        tail: RowTail::Closed,
    }
}

fn method(params: Vec<Type>, result: Type) -> NamedMethodType {
    NamedMethodType {
        params,
        result,
        constraints: vec![],
        variables: vec![],
        origin: NamedMethodOrigin::Declared,
    }
}

fn predicate(candidate: Type, member: &str) -> MethodPredicate {
    MethodPredicate {
        candidate,
        member: member.to_string(),
        params: vec![],
        result: text(),
        operator_span: Span::new(0, 1),
        divisor_context: None,
        binding: None,
        call_span: None,
        obligation_id: None,
    }
}

fn no_intrinsics() -> IntrinsicMethodNames {
    IntrinsicMethodNames {
        array: vec![],
        map: vec![],
        set: vec![],
        text: vec!["trim".to_string()],
    }
}

#[test]
fn declared_methods_are_lowered() {
    let (methods, issues) = lower_family_methods(
        &data(&["x"]),
        &StringMap::new(),
        &vec![declared("size", vec![Some(integer())], text())],
    );
    assert!(issues.is_empty());
    assert_eq!(methods.get("size").unwrap().params, vec![integer()]);
}

#[test]
fn wrong_methods_are_refused() {
    let (methods, issues) = lower_family_methods(
        &data(&["x"]),
        &StringMap::new(),
        &vec![
            declared("Size", vec![], text()),
            declared("x", vec![], text()),
            declared("untyped", vec![None], text()),
            declared("twice", vec![], text()),
            declared("twice", vec![], text()),
        ],
    );
    assert!(matches!(
        &issues[..],
        [
            FamilyIssue::UppercaseMethod { .. },
            FamilyIssue::FieldConflict { name: field, .. },
            FamilyIssue::UntypedParameter { .. },
            FamilyIssue::DuplicateMethod { name: twice, .. }
        ] if field == "x" && twice == "twice"
    ));
    assert!(methods.get("x").is_none());
    assert!(methods.get("twice").is_some());
}

#[test]
fn overrides_keep_the_inherited_signature() {
    let mut inherited = StringMap::new();
    inherited.insert(
        "abs".to_string(),
        NamedMethodType {
            origin: NamedMethodOrigin::Inherited {
                base_owner: integer(),
                base_member: "abs".to_string(),
                lifted_params: vec![],
                lifted_result: false,
            },
            ..method(vec![], integer())
        },
    );
    let (methods, issues) =
        lower_family_methods(&data(&[]), &inherited, &vec![declared("abs", vec![], integer())]);
    assert!(issues.is_empty());
    assert!(matches!(
        methods.get("abs").unwrap().origin,
        NamedMethodOrigin::Override { .. }
    ));
    let (_, issues) =
        lower_family_methods(&data(&[]), &inherited, &vec![declared("abs", vec![], text())]);
    assert!(matches!(&issues[..], [FamilyIssue::OverrideMismatch { .. }]));
}

#[test]
fn methods_go_to_the_family_of_their_provider() {
    let mut families = StringMap::new();
    for owner in ["A", "B"] {
        families.insert(
            owner.to_string(),
            NamedFamilyType {
                owner: owner.to_string(),
                data: data(&[]),
                defaulted_fields: StringSet::new(),
                primitive_base: None,
                methods: StringMap::new(),
            },
        );
    }
    let issues = lower_named_family_methods(
        &mut families,
        &vec![FamilyProvider {
            owner: "A".to_string(),
            methods: vec![declared("size", vec![], integer())],
        }],
    );
    assert!(issues.is_empty());
    assert!(families.get("A").unwrap().methods.contains_key("size"));
    assert!(!families.get("B").unwrap().methods.contains_key("size"));
}

#[test]
fn owners_of_families_differ_by_module() {
    let here = named_family_owner_key(&ModuleIdentity::Current, "User");
    let there = named_family_owner_key(&ModuleIdentity::Path("a".to_string()), "User");
    let other = named_family_owner_key(&ModuleIdentity::Specifier("a".to_string()), "User");
    assert_ne!(here, there);
    assert_ne!(there, other);
}

#[test]
fn providers_become_families() {
    let mut owners = StringMap::new();
    let mut families = StringMap::new();
    let mut definitions = StringMap::new();
    let field = |name: &str, defaulted: bool| DataField {
        name: name.to_string(),
        name_span: Span::new(0, 1),
        ty: text(),
        defaulted,
    };
    let issues = prepare_named_families(
        &ModuleIdentity::Current,
        &vec![
            ProviderDeclaration {
                name: "User".to_string(),
                shape: ProviderShape::Record {
                    fields: vec![field("name", false), field("mail", true)],
                },
            },
            ProviderDeclaration {
                name: "Age".to_string(),
                shape: ProviderShape::Primitive {
                    base: integer(),
                    base_span: Span::new(0, 1),
                },
            },
        ],
        &vec![],
        &mut owners,
        &mut families,
        &mut definitions,
    );
    assert!(issues.is_empty());
    let user = families.get(owners.get("User").unwrap()).unwrap();
    assert_eq!(user.data.entries.len(), 2);
    assert!(user.defaulted_fields.contains("mail"));
    let age = families.get(owners.get("Age").unwrap()).unwrap();
    assert_eq!(age.primitive_base, Some(integer()));
    assert!(age.methods.contains_key("abs"));
    assert!(definitions.contains_key("User"));
}

#[test]
fn bases_and_fields_of_providers_are_checked() {
    let mut owners = StringMap::new();
    let mut families = StringMap::new();
    let mut definitions = StringMap::new();
    let field = || DataField {
        name: "x".to_string(),
        name_span: Span::new(0, 1),
        ty: text(),
        defaulted: false,
    };
    let issues = prepare_named_families(
        &ModuleIdentity::Current,
        &vec![
            ProviderDeclaration {
                name: "A".to_string(),
                shape: ProviderShape::Record {
                    fields: vec![field(), field()],
                },
            },
            ProviderDeclaration {
                name: "B".to_string(),
                shape: ProviderShape::Primitive {
                    base: named_builtin("Instant"),
                    base_span: Span::new(0, 1),
                },
            },
        ],
        &vec![],
        &mut owners,
        &mut families,
        &mut definitions,
    );
    assert!(issues
        .iter()
        .any(|issue| matches!(issue, ProviderIssue::RepeatedField { name, .. } if name == "x")));
    assert!(issues
        .iter()
        .any(|issue| matches!(issue, ProviderIssue::UnsupportedBase { .. })));
    assert!(primitive_family_base_is_supported(&integer()));
    assert!(!primitive_family_base_is_supported(&named_builtin("Instant")));
    assert!(primitive_family_base_is_supported(&apply1("Array", integer())));
}

#[test]
fn aliases_stand_for_the_owner() {
    let mut owners = StringMap::new();
    owners.insert("User".to_string(), "module:User".to_string());
    let mut definitions = StringMap::new();
    definitions.insert("Person".to_string(), named_builtin("User"));
    canonicalize_named_family_aliases(
        &mut owners,
        &mut definitions,
        &vec![AliasDeclaration {
            name: "Person".to_string(),
            target: "User".to_string(),
        }],
    );
    assert_eq!(owners.get("Person"), Some(&"module:User".to_string()));
}

fn expr(kind: ExprKind) -> Expr {
    Expr {
        kind,
        span: Span::new(5, 6),
    }
}

fn method_entry(name: &str, value: Expr) -> RecordEntry {
    RecordEntry::Method {
        name: name.to_string(),
        name_span: Span::new(0, 1),
        value: Box::new(value),
        span: Span::new(0, 9),
    }
}

fn body_of_one(result: Option<Box<Expr>>) -> Expr {
    expr(ExprKind::Group(Box::new(expr(ExprKind::Lambda {
        params: vec![Param {
            name: "step".to_string(),
            name_span: Span::new(7, 8),
            comptime: false,
            annotation: None,
            default: None,
        }],
        return_annotation: result,
        requirements: vec![],
        body: Box::new(expr(ExprKind::Null)),
    }))))
}

fn provider_record() -> Vec<RecordEntry> {
    vec![
        method_entry(
            "size",
            expr(ExprKind::Arrow {
                params: vec![],
                result: Box::new(expr(ExprKind::Null)),
            }),
        ),
        RecordEntry::Field {
            name: "x".to_string(),
            name_span: Span::new(0, 1),
            value: Box::new(expr(ExprKind::Name("Int".to_string()))),
            overwrite: false,
            span: Span::new(0, 3),
        },
        RecordEntry::Open {
            span: Span::new(2, 3),
        },
        RecordEntry::Element(Box::new(expr(ExprKind::Null))),
        method_entry(
            "grow",
            body_of_one(Some(Box::new(expr(ExprKind::Name("Int".to_string()))))),
        ),
        method_entry("plain", body_of_one(None)),
        RecordEntry::FieldDefault {
            name: "y".to_string(),
            name_span: Span::new(0, 1),
            annotation: Box::new(expr(ExprKind::Name("Int".to_string()))),
            default: Box::new(expr(ExprKind::Null)),
            span: Span::new(0, 3),
        },
        RecordEntry::Field {
            name: "z".to_string(),
            name_span: Span::new(0, 1),
            value: Box::new(expr(ExprKind::Null)),
            overwrite: true,
            span: Span::new(0, 3),
        },
    ]
}

#[test]
fn entries_of_providers_are_checked() {
    let entries = provider_record();
    let actions = check_named_family_declaration(None, &entries);
    assert_eq!(actions.len(), 8);
    assert!(matches!(
        &actions[0],
        EntryAction::RejectSlot { name: "size", .. }
    ));
    assert!(matches!(&actions[1], EntryAction::Accept));
    assert!(matches!(
        &actions[2],
        EntryAction::RejectTransform { span } if *span == Span::new(2, 3)
    ));
    assert!(matches!(
        &actions[3],
        EntryAction::RejectValue { span } if *span == Span::new(5, 6)
    ));
    assert!(matches!(&actions[4], EntryAction::Accept));
    assert!(matches!(&actions[6], EntryAction::CheckDefault { .. }));
    assert!(matches!(
        &actions[7],
        EntryAction::RejectOverride { name: "z", .. }
    ));
}

#[test]
fn bodies_are_checked_against_their_signatures() {
    let entries = provider_record();
    let mut methods = StringMap::new();
    methods.insert("grow".to_string(), method(vec![integer()], text()));
    let family = NamedFamilyType {
        owner: "Age".to_string(),
        data: data(&[]),
        defaulted_fields: StringSet::new(),
        primitive_base: Some(integer()),
        methods,
    };
    let actions = check_named_family_declaration(Some(&family), &entries);
    assert!(matches!(&actions[1], EntryAction::RejectData { .. }));
    assert!(matches!(&actions[6], EntryAction::RejectData { .. }));
    match &actions[4] {
        EntryAction::CheckBody {
            signature, params, ..
        } => {
            assert_eq!(signature.result, text());
            let locals = method_body_params(params, &signature.params);
            assert_eq!(locals.len(), 1);
            assert_eq!(locals[0].name, "step");
            assert_eq!(locals[0].span, Span::new(7, 8));
            assert_eq!(locals[0].ty, integer());
        }
        other => panic!("{:?}", other),
    }
    assert!(matches!(&actions[5], EntryAction::Accept));
}

#[test]
fn sources_of_providers_are_listed() {
    let value = expr(ExprKind::Record(provider_record()));
    assert!(named_family_provider_entries(&value, false).is_none());
    let entries = named_family_provider_entries(&value, true).unwrap();
    let fields = family_data_fields(entries);
    assert_eq!(fields.len(), 2);
    assert_eq!((fields[0].name, fields[0].defaulted), ("x", false));
    assert_eq!((fields[1].name, fields[1].defaulted), ("y", true));
    let methods = declared_method_sources(entries);
    assert_eq!(methods.len(), 1);
    assert_eq!(methods[0].name, "grow");
    assert_eq!(methods[0].params.len(), 1);
}

#[test]
fn inherited_methods_are_lifted_to_the_family() {
    let base = method(vec![integer(), text()], integer());
    let lifted = lift_inherited_method(&base, &integer(), &named_builtin("Age"));
    assert_eq!(lifted.params, vec![named_builtin("Age"), text()]);
    assert_eq!(lifted.result, named_builtin("Age"));
    let methods = effective_base_methods(&integer(), &vec![]);
    assert!(methods.iter().any(|(name, _)| name == "abs"));
    assert_eq!(
        methods.len(),
        builtin_members(BuiltinType::Int).len()
    );
}

#[test]
fn renamed_variables_make_no_difference() {
    let left = Type::Tuple(vec![variable("a"), variable("b"), variable("a")]);
    let right = Type::Tuple(vec![variable("x"), variable("y"), variable("x")]);
    let collapsed = Type::Tuple(vec![variable("x"), variable("x"), variable("x")]);
    assert!(alpha_equivalent_type(
        &left,
        &right,
        &mut StringMap::new(),
        &mut StringMap::new()
    ));
    assert!(!alpha_equivalent_type(
        &left,
        &collapsed,
        &mut StringMap::new(),
        &mut StringMap::new()
    ));
    assert!(named_method_schemes_alpha_equivalent(
        &method(vec![variable("a")], variable("a")),
        &method(vec![variable("b")], variable("b"))
    ));
    assert!(!named_method_schemes_alpha_equivalent(
        &method(vec![variable("a")], variable("a")),
        &method(vec![], variable("b"))
    ));
}

fn attachment(owner: Type, members: Vec<DeclaredMethod>) -> MethodAttachment {
    MethodAttachment {
        owner,
        owner_span: Span::new(0, 5),
        members,
    }
}

#[test]
fn trusted_modules_attach_methods() {
    let mut methods = vec![];
    let issues = lower_builtin_method_attachments(
        &mut methods,
        &vec![attachment(
            apply1("Array", variable("a")),
            vec![declared("first", vec![], variable("a"))],
        )],
        true,
        &no_intrinsics(),
    );
    assert!(issues.is_empty());
    assert_eq!(methods.len(), 1);
    assert_eq!(methods[0].owner_variables, vec!["a"]);
    let signature =
        attached_builtin_method_signature(&methods, &apply1("Array", integer()), "first", 0).unwrap();
    assert_eq!(signature.result, integer());
    assert!(
        attached_builtin_method_signature(&methods, &apply1("Set", integer()), "first", 0).is_none()
    );
    let overlapping = lower_builtin_method_attachments(
        &mut methods,
        &vec![attachment(
            apply1("Array", integer()),
            vec![declared("first", vec![], integer())],
        )],
        true,
        &no_intrinsics(),
    );
    assert!(matches!(&overlapping[..], [AttachmentIssue::Overlap { .. }]));
    assert_eq!(methods.len(), 1);
}

#[test]
fn other_attachments_are_refused() {
    let mut methods = vec![];
    let issues = lower_builtin_method_attachments(
        &mut methods,
        &vec![attachment(integer(), vec![declared("f", vec![], integer())])],
        false,
        &no_intrinsics(),
    );
    assert!(matches!(&issues[..], [AttachmentIssue::Untrusted { .. }]));
    assert!(methods.is_empty());
    let issues = lower_builtin_method_attachments(
        &mut methods,
        &vec![
            attachment(text(), vec![declared("trim", vec![], text())]),
            attachment(text(), vec![declared("f", vec![None], text())]),
        ],
        true,
        &no_intrinsics(),
    );
    assert!(matches!(
        &issues[..],
        [
            AttachmentIssue::Intrinsic { member, .. },
            AttachmentIssue::UntypedParameter { .. }
        ] if member == "trim"
    ));
    assert!(methods.is_empty());
    let span = Span::new(0, 1);
    assert!(matches!(
        lower_builtin_owner_pattern(&named_builtin("User"), span),
        Err(AttachmentIssue::UnknownOwner { .. })
    ));
    assert!(matches!(
        lower_builtin_owner_pattern(&named_builtin("Array"), span),
        Err(AttachmentIssue::WrongArity { arity: 1, found: 0, .. })
    ));
    assert!(matches!(
        lower_builtin_owner_pattern(&Type::Tuple(vec![]), span),
        Err(AttachmentIssue::InvalidOwner { .. })
    ));
    assert_eq!(
        lower_builtin_owner_pattern(&apply1("Set", variable("x")), span).ok(),
        Some(vec!["x".to_string()])
    );
}

#[test]
fn owners_match_patterns() {
    let mut variables = StringSet::new();
    variables.insert("a".to_string());
    let bindings = owner_pattern_bindings(
        &apply1("Array", variable("a")),
        &apply1("Array", integer()),
        &variables,
    )
    .unwrap();
    assert_eq!(bindings.get("a"), Some(&integer()));
    assert!(owner_pattern_bindings(
        &apply1("Array", variable("a")),
        &apply1("Set", integer()),
        &variables
    )
    .is_none());
    assert_eq!(builtin_owner_head(&apply1("Array", integer())), Some("Array"));
    assert_eq!(builtin_owner_arity("Map"), Some(2));
    assert_eq!(builtin_owner_arity("User"), None);
    assert!(builtin_owner_patterns_overlap(
        &apply1("Array", variable("a")),
        &apply1("Array", integer())
    ));
    assert!(!builtin_owner_patterns_overlap(
        &apply1("Array", text()),
        &apply1("Array", integer())
    ));
    assert!(intrinsic_builtin_method_collides(&text(), "trim", &no_intrinsics()));
    assert!(!intrinsic_builtin_method_collides(&integer(), "trim", &no_intrinsics()));
    assert!(operator_operand_fits(&integer(), &named_builtin("Float")));
    assert!(!operator_operand_fits(&named_builtin("Float"), &integer()));
}

fn environment() -> MethodEnvironment {
    let mut methods = StringMap::new();
    methods.insert("greet".to_string(), method(vec![], text()));
    let mut families = StringMap::new();
    families.insert(
        "module:User".to_string(),
        NamedFamilyType {
            owner: "module:User".to_string(),
            data: data(&[]),
            defaulted_fields: StringSet::new(),
            primitive_base: None,
            methods,
        },
    );
    let mut aliases = StringMap::new();
    aliases.insert("User".to_string(), "module:User".to_string());
    aliases.insert("module:User".to_string(), "module:User".to_string());
    MethodEnvironment {
        aliases,
        families,
        attached: vec![],
    }
}

#[test]
fn methods_are_looked_up_by_owner() {
    let env = environment();
    let signature = exact_method_signature(&env, &named_builtin("module:User"), "greet", 0).unwrap();
    assert_eq!(signature.result, text());
    assert!(exact_method_signature(&env, &named_builtin("module:User"), "abs", 0).is_none());
    assert!(exact_method_signature(&env, &integer(), "abs", 0).is_some());
    let one = literal_type(Literal::Number("1".to_string()));
    assert!(exact_method_signature(&env, &one, "abs", 0).is_some());
    assert_eq!(
        unbound_method_owner_name(&env.aliases, "User"),
        Some("module:User".to_string())
    );
    assert!(is_parameterized_type_constructor_name("Array", false, None, false));
    assert!(!is_parameterized_type_constructor_name("Array", true, None, false));
}

#[test]
fn attached_methods_ask_for_their_owner() {
    let attached = vec![BuiltinMethodType {
        owner: apply1("Array", text()),
        owner_variables: vec![],
        member: "joined".to_string(),
        params: vec![],
        result: text(),
        constraints: vec![],
        owner_span: Span::new(0, 1),
        member_span: Span::new(0, 1),
    }];
    assert_eq!(
        attached_builtin_method_required_owner(&attached, &apply1("Array", integer()), "joined"),
        Some(apply1("Array", text()))
    );
    assert_eq!(
        attached_builtin_method_required_owner(&attached, &apply1("Set", integer()), "joined"),
        None
    );
}

#[test]
fn obligations_are_numbered_and_taken_back() {
    let mut ledger = ObligationLedger::new();
    ledger.push_new_method_obligations(vec![predicate(Type::Meta(1), "f")]);
    let marker = ledger.method_obligation_marker();
    assert_eq!(marker, 1);
    ledger.push_new_method_obligations(vec![
        predicate(Type::Meta(2), "g"),
        predicate(Type::Meta(3), "h"),
    ]);
    let since = ledger.take_method_obligations_since(marker);
    assert_eq!(since.len(), 2);
    assert_eq!(since[0].obligation_id, Some(1));
    assert_eq!(ledger.obligations.len(), 1);
    assert_eq!(ledger.method_obligation_marker(), 3);
}

#[test]
fn requirements_that_are_not_stated_are_missing() {
    let mut ledger = ObligationLedger::new();
    ledger.push_new_method_obligations(vec![predicate(Type::Meta(1), "f")]);
    let missing = ledger.finalize_lambda_requirements(0, true, vec![predicate(Type::Meta(2), "g")]);
    assert_eq!(missing.len(), 1);
    assert_eq!(missing[0].member, "f");
    assert_eq!(ledger.obligations.len(), 1);
    assert_eq!(ledger.obligations[0].member, "g");
    let mut ledger = ObligationLedger::new();
    ledger.push_new_method_obligations(vec![predicate(Type::Meta(1), "f")]);
    let missing = ledger.finalize_lambda_requirements(0, false, vec![]);
    assert!(missing.is_empty());
    assert_eq!(ledger.obligations.len(), 1);
}

#[test]
fn operators_make_obligations() {
    let mut ledger = ObligationLedger::new();
    ledger.add_operator_obligation(
        Type::Meta(1),
        "+",
        Type::Meta(1),
        Type::Meta(2),
        Span::new(4, 5),
        None,
    );
    let obligation = &ledger.obligations[0];
    assert_eq!(obligation.member, "+");
    assert_eq!(obligation.params, vec![Type::Meta(1)]);
    assert_eq!(obligation.operator_span, Span::new(4, 5));
    ledger.push_method_obligations_at(vec![predicate(Type::Meta(3), "f")], Span::new(8, 9));
    assert_eq!(ledger.obligations[1].call_span, Some(Span::new(8, 9)));
}

#[test]
fn open_requirements_wait_for_their_candidate() {
    assert_eq!(obligation_step(&Type::Meta(1), true), ObligationStep::Keep);
    assert_eq!(obligation_step(&Type::Deferred, false), ObligationStep::Keep);
    assert_eq!(obligation_step(&Type::Deferred, true), ObligationStep::ReportUnresolved);
    assert_eq!(obligation_step(&integer(), false), ObligationStep::Discharge);
    let mut ledger = ObligationLedger::new();
    ledger.push_new_method_obligations(vec![
        predicate(Type::Meta(1), "f"),
        predicate(integer(), "g"),
        predicate(Type::Meta(2), "h"),
    ]);
    let pending = ledger.take_pending();
    assert_eq!(pending.len(), 3);
    assert!(ledger.obligations.is_empty());
    for (index, obligation) in pending.into_iter().enumerate() {
        let open = ledger.simplify_method_obligation(obligation, index == 2, false);
        assert_eq!(open.is_some(), index == 1);
    }
    assert_eq!(ledger.obligations.len(), 1);
    assert_eq!(ledger.obligations[0].member, "f");
    assert!(assumption_may_entail(
        &predicate(Type::Meta(1), "f"),
        &predicate(Type::Meta(1), "f")
    ));
    assert!(!assumption_may_entail(
        &predicate(Type::Meta(1), "f"),
        &predicate(Type::Meta(1), "g")
    ));
}

#[test]
fn requirements_are_kept_once() {
    let kept = deduplicate_predicates(vec![
        predicate(Type::Meta(1), "f"),
        predicate(Type::Meta(1), "f"),
        predicate(Type::Meta(2), "f"),
    ]);
    assert_eq!(kept.len(), 2);
    assert!(!predicate_is_relational(&predicate(Type::Meta(1), "f")));
    assert!(predicate_is_relational(&MethodPredicate {
        params: vec![Type::Meta(2)],
        ..predicate(Type::Meta(1), "f")
    }));
}

#[test]
fn schemes_are_qualified_by_requirements() {
    let scheme = TypeScheme {
        vars: vec![1],
        row_vars: vec![],
        row_merges: vec![],
        predicates: vec![],
        ty: Type::Meta(1),
    };
    let qualified = qualify_scheme(
        scheme,
        vec![predicate(Type::Meta(1), "f"), predicate(Type::Meta(2), "g")],
        Some("total"),
        &vec![],
    );
    assert_eq!(qualified.ambiguous, Some(2));
    assert_eq!(qualified.scheme.predicates.len(), 1);
    assert_eq!(qualified.scheme.predicates[0].binding, Some("total".to_string()));
    assert_eq!(qualified.scheme.vars, vec![1]);
}

#[test]
fn evidence_of_divisors_is_closed() {
    let open = Type::Variant(Row {
        entries: vec![RowEntry::Literal {
            value: Literal::Number("2".to_string()),
        }],
        tail: RowTail::Var(4),
    });
    assert_eq!(
        snapshot_integer_divisor_evidence(open),
        literal_type(Literal::Number("2".to_string()))
    );
    assert_eq!(snapshot_integer_divisor_evidence(integer()), integer());
}

#[test]
fn requirements_are_discharged_by_methods() {
    let env = environment();
    let greet = exact_method_signature(&env, &named_builtin("module:User"), "greet", 0);
    let wanted = predicate(named_builtin("module:User"), "greet");
    assert!(matches!(discharge_known_method_predicate(None, &wanted), Discharge::Missing));
    match discharge_known_method_predicate(greet.as_ref(), &wanted) {
        Discharge::Unify(goals) => assert_eq!(goals, vec![(text(), text())]),
        other => panic!("{other:?}"),
    }
    let more = MethodPredicate {
        params: vec![integer()],
        ..predicate(named_builtin("module:User"), "greet")
    };
    assert!(matches!(
        discharge_known_method_predicate(greet.as_ref(), &more),
        Discharge::Mismatch
    ));
    assert!(method_predicate_is_entailed(&wanted, &wanted).is_some());
    assert!(method_predicate_is_entailed(&wanted, &more).is_none());
    let literal = predicate(literal_type(Literal::Bool(true)), "f");
    assert_eq!(resolve_method_predicate(literal).candidate, named_builtin("Bool"));
}

#[test]
fn candidates_of_requirements_are_shared() {
    let mut outer = StringMap::new();
    outer.insert("a".to_string(), Type::Meta(1));
    let mut scopes = vec![outer, StringMap::new()];
    assert_eq!(requirement_candidate(&mut scopes, "a", false, 5), Type::Meta(1));
    assert_eq!(requirement_candidate(&mut scopes, "b", false, 5), Type::Meta(5));
    assert_eq!(requirement_candidate(&mut scopes, "b", false, 6), Type::Meta(5));
    assert_eq!(requirement_candidate(&mut scopes, "c", true, 6), variable("c"));
}
