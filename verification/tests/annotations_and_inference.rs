//! Types that are written, inferred and compared.
use aven_check::annotations::{lower_annotation, AnnotationEvent, AnnotationFacts, Definitions};
use aven_check::artifacts::{
    comptime_binding_is_artifact, literal_operation_value_shape, literal_or_tag_value_shape,
    runtime_rhs_is_artifact, ArtifactTable, ComptimeRhs,
};
use aven_check::collections::{StringMap, StringSet};
use aven_check::diagnostics::Diagnostic;
use aven_check::comparison::{
    check_literal_value_against_variant, check_named_type_against_variant,
    check_result_variant_type_against_result, check_type_against_type, check_variant_tags,
    check_variant_type_against_type, compare_record, ComparisonContext, LiteralStep, NamedStep,
    PresentField, RecordFinding, RequiredField, ResultFinding, TagFinding, TypeStep, VariantStep,
};
use aven_check::declarations::{
    check_declaration, check_local_spread_binding, check_top_level_spread_binding,
    closed_spread_row, collect_top_level_environment, publication_step,
    record_inferred_type, report_missing_record_pattern_fields_in_expr,
    report_unresolved_runtime_binding_if_stuck, DeclarationFacts,
    DeclarationPhase, DeclarationStep, Publication, PublicationFacts, SpreadField, StuckFacts,
};
use aven_check::heads::{prelowered_names, resolve_prelowered_type_head, DefinitionAnswer};
use aven_check::inference::{
    export_type, infer, infer_lambda, inference_rule, infer_set_union_part_type, infer_top_level_qualified_type_for_output,
    lambda_param_steps, lambda_result_type, local_binding_type, required_arity, Fresh,
    InferenceEvent, InferenceFacts, InferenceRule, OutputStep, ParamStep, TopLevel, TopLevelFacts, TopLevelStep,
};
use aven_check::knowledge::{
    knowledge_is_in_scope, knowledge_satisfies, EvaluatedValue, ExecutionContext, Knowledge, Known,
    NumberForm,
};
use aven_check::lookup::MethodEnvironment;
use aven_check::normalize::RecursiveTypes;
use aven_check::publication::{build_value_types, start_value_types, PublishedDeclaration};
use aven_check::requirements::{
    requirement_predicates, validate_named_requirement, Candidate, RequirementEvent,
    StatedRequirement,
};
use aven_check::rows::{apply1, literal_type, LocalValueType};
use aven_check::schemes::TypeScheme;
use aven_check::span::Span;
use aven_check::specialization::{
    lower_zero_argument_type_definition, productive_members, runtime_binding_reference,
    CycleMember, DefinitionStart, Evaluation, EvaluationResult, Finished, Productivity,
    SpecializationStack,
};
use aven_check::syntax::{
    describe_receiver_expr, final_value_expr, is_collection_type_sugar, literal_set_elements,
    pipe_call_expr, static_integer_literal_is_zero, value_set_union_parts, Expr, ExprKind, Item,
    Param, RecordEntry, SetUnionPart,
};
use aven_check::type_ops::named_builtin;
use aven_check::types::{Literal, RecursiveTypeId, Row, RowEntry, RowTail, Type};
use aven_check::values::{
    check_primitive_family_literal_branding, check_result_constructor_value_against,
    check_value_against, check_value_against_slot_record, check_variant_value_against, Branding,
    ResultStep, SlotStep, TagStep, ValueStep,
};

fn at(kind: ExprKind, start: usize) -> Expr {
    Expr {
        kind,
        span: Span::new(start, start + 1),
    }
}

fn expr(kind: ExprKind) -> Expr {
    at(kind, 0)
}

fn name(text: &str) -> Expr {
    expr(ExprKind::Name(text.to_string()))
}

fn of_type(text: &str) -> Expr {
    expr(ExprKind::ComptimeName(text.to_string()))
}

fn number(text: &str) -> Expr {
    expr(ExprKind::Literal(Literal::Number(text.to_string())))
}

fn integer() -> Type {
    named_builtin("Int")
}

fn text() -> Type {
    named_builtin("Text")
}

fn field(name: &str, value: Expr) -> RecordEntry {
    RecordEntry::Field {
        name: name.to_string(),
        name_span: Span::new(0, 1),
        value: Box::new(value),
        overwrite: false,
        span: Span::new(0, 1),
    }
}

fn record(fields: &[(&str, Type)]) -> Row {
    Row {
        entries: fields
            .iter()
            .map(|(name, ty)| RowEntry::Field {
                name: name.to_string(),
                ty: ty.clone(),
            })
            .collect(),
        tail: RowTail::Closed,
    }
}

fn tags(entries: Vec<(&str, Vec<Type>)>) -> Row {
    Row {
        entries: entries
            .into_iter()
            .map(|(name, payload)| RowEntry::Tag {
                name: name.to_string(),
                payload,
            })
            .collect(),
        tail: RowTail::Closed,
    }
}

fn definitions() -> Definitions {
    let mut known_types = StringSet::new();
    for name in ["Int", "Text", "Array"] {
        known_types.insert(name.to_string());
    }
    Definitions {
        types: StringMap::new(),
        recursive: RecursiveTypes { entries: vec![] },
        builtin_types: vec!["Int".to_string(), "Text".to_string(), "Array".to_string()],
        known_types,
    }
}

fn annotation_facts() -> AnnotationFacts {
    AnnotationFacts {
        reified: StringMap::new(),
        plain_types: StringMap::new(),
        comptime_functions: StringSet::new(),
        comptime_names: StringSet::new(),
        imported_names: StringSet::new(),
        modules: StringMap::new(),
        applications: vec![],
        labels: vec![],
        label_sets: StringMap::new(),
        iterations: vec![],
    }
}

fn lower(annotation: &Expr) -> (Type, usize) {
    let mut next = 0;
    let mut events = vec![];
    let ty = lower_annotation(
        annotation,
        &definitions(),
        &annotation_facts(),
        &mut next,
        &mut events,
    );
    (ty, events.len())
}

fn size_requirement(result: Expr) -> Expr {
    expr(ExprKind::Record(vec![
        RecordEntry::Method {
            name: "size".to_string(),
            name_span: Span::new(0, 1),
            value: Box::new(expr(ExprKind::Arrow {
                params: vec![name("a")],
                result: Box::new(result),
            })),
            span: Span::new(0, 1),
        },
        RecordEntry::Open {
            span: Span::new(2, 3),
        },
    ]))
}

#[test]
fn requirements_ask_for_methods() {
    let mut bounds = StringMap::new();
    bounds.insert("Sized".to_string(), size_requirement(of_type("Int")));
    let bound = of_type("Sized");
    let unknown = of_type("Nothing");
    let requirements = vec![
        StatedRequirement {
            candidate: Candidate {
                name: "a".to_string(),
                ty: Type::Meta(3),
            },
            bound: &bound,
        },
        StatedRequirement {
            candidate: Candidate {
                name: "b".to_string(),
                ty: Type::Meta(4),
            },
            bound: &unknown,
        },
    ];
    let list = requirement_predicates(&requirements, &bounds, &definitions(), &annotation_facts(), 0);
    assert_eq!(list.predicates.len(), 1);
    assert_eq!(list.predicates[0].member, "size");
    assert_eq!(list.predicates[0].candidate, Type::Meta(3));
    assert_eq!(list.predicates[0].params, vec![Type::Meta(3)]);
    assert_eq!(list.predicates[0].result, integer());
    assert!(matches!(
        &list.events[..],
        [RequirementEvent::Unknown { name: "Nothing", .. }]
    ));
}

#[test]
fn requirements_with_names_are_about_one_type() {
    let related = size_requirement(of_type("Int"));
    let known = definitions();
    let facts = annotation_facts();
    let bounds = StringMap::new();
    let (events, rejected) = validate_named_requirement(&related, &bounds, &known, &facts, 0);
    assert!(events.is_empty());
    assert_eq!(rejected.len(), 1);
    assert_eq!(rejected[0].member, "size");
    let other = number("1");
    let (events, rejected) = validate_named_requirement(&other, &bounds, &known, &facts, 0);
    assert!(matches!(&events[..], [RequirementEvent::InvalidBound { .. }]));
    assert!(rejected.is_empty());
}

#[test]
fn annotations_are_read_as_types() {
    assert_eq!(lower(&of_type("Int")), (integer(), 0));
    assert_eq!(lower(&name("a")), (Type::Variable("a".to_string()), 0));
    let optional = expr(ExprKind::Optional(Box::new(of_type("Int"))));
    assert_eq!(lower(&optional).0, Type::Optional(Box::new(integer())));
    let arrow = expr(ExprKind::Arrow {
        params: vec![of_type("Int")],
        result: Box::new(of_type("Text")),
    });
    assert_eq!(
        lower(&arrow).0,
        Type::Function {
            params: vec![integer()],
            result: Box::new(text()),
            required: 1
        }
    );
    let whole = expr(ExprKind::Record(vec![
        field("x", of_type("Int")),
        field("y", of_type("Text")),
    ]));
    assert_eq!(
        lower(&whole).0,
        Type::Record(record(&[("x", integer()), ("y", text())]))
    );
}

#[test]
fn unknown_names_and_repeated_fields_are_said() {
    let mut next = 0;
    let mut events = vec![];
    let unknown = of_type("Missing");
    let ty = lower_annotation(
        &unknown,
        &definitions(),
        &annotation_facts(),
        &mut next,
        &mut events,
    );
    assert_eq!(ty, named_builtin("Missing"));
    assert!(matches!(
        &events[..],
        [AnnotationEvent::UnknownType { name: "Missing", .. }]
    ));
    let twice = expr(ExprKind::Record(vec![
        field("x", of_type("Int")),
        field("x", of_type("Text")),
    ]));
    let mut events = vec![];
    let ty = lower_annotation(
        &twice,
        &definitions(),
        &annotation_facts(),
        &mut next,
        &mut events,
    );
    assert_eq!(ty, Type::Deferred);
    assert!(events
        .iter()
        .any(|event| matches!(event, AnnotationEvent::RowIssue { .. })));
}

#[test]
fn tails_of_spread_annotations_are_merged() {
    let open = |tail: u32| {
        Type::Record(Row {
            entries: vec![],
            tail: RowTail::Var(tail),
        })
    };
    let mut known = definitions();
    known.types.insert("Left".to_string(), open(1));
    known.types.insert("Right".to_string(), open(2));
    known.known_types.insert("Left".to_string());
    known.known_types.insert("Right".to_string());
    let spread = |name: &str, overwrite: bool| RecordEntry::Spread {
        value: Box::new(of_type(name)),
        overwrite,
        span: Span::new(0, 1),
    };
    for overwrite in [false, true] {
        let both = expr(ExprKind::Record(vec![
            spread("Left", true),
            spread("Right", overwrite),
        ]));
        let mut next = 20;
        let mut events = vec![];
        lower_annotation(&both, &known, &annotation_facts(), &mut next, &mut events);
        let merges: Vec<_> = events
            .iter()
            .filter_map(|event| match event {
                AnnotationEvent::MergeTails { merge, .. } => {
                    Some((merge.left, merge.right, merge.overwrite))
                }
                _ => None,
            })
            .collect();
        assert_eq!(merges, vec![(1, 2, overwrite)]);
    }
}

fn no_answers() -> InferenceFacts {
    InferenceFacts {
        definitions: StringMap::new(),
        rules: vec![],
        answers: vec![],
        misfits: vec![],
    }
}

#[test]
fn literals_have_types_that_may_widen() {
    let mut fresh = Fresh { meta: 0, tail: 3 };
    let mut events = vec![];
    let one = number("1");
    let ty = infer(&one, &no_answers(), &mut fresh, &mut events);
    assert_eq!(
        ty,
        Type::Variant(Row {
            entries: vec![RowEntry::Literal {
                value: Literal::Number("1".to_string())
            }],
            tail: RowTail::Var(3),
        })
    );
    assert_eq!(fresh.tail, 4);
    assert!(matches!(&events[..], [InferenceEvent::Record { .. }]));
}

#[test]
fn records_and_collections_are_inferred_from_their_parts() {
    let facts = InferenceFacts {
        answers: vec![(Span::new(5, 6), integer())],
        ..no_answers()
    };
    let mut fresh = Fresh { meta: 0, tail: 0 };
    let mut events = vec![];
    let whole = expr(ExprKind::Record(vec![field(
        "x",
        at(ExprKind::Name("a".to_string()), 5),
    )]));
    let ty = infer(&whole, &facts, &mut fresh, &mut events);
    assert_eq!(ty, Type::Record(record(&[("x", integer())])));
    let array = expr(ExprKind::Array(vec![RecordEntry::Element(Box::new(at(
        ExprKind::Name("a".to_string()),
        5,
    )))]));
    let mut events = vec![];
    let ty = infer(&array, &facts, &mut fresh, &mut events);
    assert_eq!(ty, apply1("Array", Type::Meta(0)));
    assert!(events
        .iter()
        .any(|event| matches!(event, InferenceEvent::Unify { .. })));
    let misfit = InferenceFacts {
        answers: vec![(Span::new(5, 6), integer())],
        misfits: vec![Span::new(5, 6)],
        ..no_answers()
    };
    let mut events = vec![];
    assert_eq!(infer(&array, &misfit, &mut fresh, &mut events), Type::Deferred);
}

fn param(name: &str, annotation: bool, default: bool) -> Param {
    Param {
        name: name.to_string(),
        name_span: Span::new(0, 1),
        comptime: false,
        annotation: annotation.then_some(Box::new(of_type("Int"))),
        default: default.then_some(Box::new(number("1"))),
    }
}

#[test]
fn parameters_are_bound_after_their_defaults() {
    let params = vec![param("x", true, false), param("y", false, true)];
    assert_eq!(required_arity(&params), 1);
    let steps = lambda_param_steps(&params);
    assert!(matches!(
        &steps[..],
        [
            ParamStep::Annotated(_),
            ParamStep::Bind("x"),
            ParamStep::Unknown,
            ParamStep::UnifyDefault(_),
            ParamStep::Bind("y")
        ]
    ));
    assert_eq!(
        infer_lambda(&params, vec![integer(), text()], text()),
        Type::Function {
            params: vec![integer(), text()],
            result: Box::new(text()),
            required: 1
        }
    );
    assert_eq!(
        lambda_result_type(Some(integer()), Type::Meta(1), true, &Type::Meta(1), &integer()),
        integer()
    );
    assert_eq!(
        lambda_result_type(None, text(), false, &text(), &Type::Deferred),
        text()
    );
}

#[test]
fn names_at_the_top_level_are_inferred_once() {
    let mut top = TopLevel {
        memo: StringMap::new(),
        in_progress: StringSet::new(),
    };
    let facts = || TopLevelFacts {
        is_bound: true,
        is_pattern_bound: false,
        annotation: None,
        is_imported: false,
    };
    assert!(matches!(top.infer_top_level("x", facts()), TopLevelStep::InferBinding));
    assert!(matches!(top.infer_top_level("x", facts()), TopLevelStep::InProgress));
    top.finish_top_level("x", TypeScheme::mono(integer()));
    assert!(matches!(top.infer_top_level("x", facts()), TopLevelStep::Known));
    let unbound = TopLevelFacts {
        is_bound: false,
        ..facts()
    };
    assert!(matches!(top.infer_top_level("y", unbound), TopLevelStep::Unbound));
    let annotated = TopLevelFacts {
        annotation: Some(text()),
        ..facts()
    };
    assert!(matches!(
        top.infer_top_level("z", annotated),
        TopLevelStep::Annotated(ty) if ty == text()
    ));
}

#[test]
fn exported_types_name_their_variables() {
    assert_eq!(
        export_type(&Type::Tuple(vec![Type::Meta(7), Type::Meta(9)]), &vec![9, 7], &vec![]),
        Type::Tuple(vec![
            Type::Variable("b".to_string()),
            Type::Variable("a".to_string())
        ])
    );
    assert!(matches!(
        infer_top_level_qualified_type_for_output(&TypeScheme::mono(integer())),
        OutputStep::KeepIfResolved
    ));
    assert!(matches!(
        infer_top_level_qualified_type_for_output(&TypeScheme::mono(Type::Variable(
            "a".to_string()
        ))),
        OutputStep::Normalize
    ));
    assert!(matches!(
        local_binding_type(Some(integer()), TypeScheme::mono(text())),
        LocalValueType::Known(ty) if ty == integer()
    ));
    assert!(matches!(
        local_binding_type(None, TypeScheme::mono(Type::Deferred)),
        LocalValueType::Unknown
    ));
    assert_eq!(infer_set_union_part_type(&integer(), true), integer());
}

fn context() -> ComparisonContext {
    let mut known_types = StringSet::new();
    known_types.insert("Int".to_string());
    known_types.insert("Text".to_string());
    let mut rigid = StringSet::new();
    rigid.insert("r".to_string());
    ComparisonContext {
        known_types,
        family_owners: StringSet::new(),
        family_bases: StringMap::new(),
        family_data: StringMap::new(),
        rigid,
        recursive: RecursiveTypes { entries: vec![] },
        active: vec![],
    }
}

#[test]
fn types_are_compared_by_their_form() {
    let context = context();
    assert!(matches!(
        check_type_against_type(&context, &integer(), &integer(), true),
        TypeStep::Accept
    ));
    assert!(matches!(
        check_type_against_type(&context, &integer(), &text(), true),
        TypeStep::Mismatch { .. }
    ));
    assert!(matches!(
        check_type_against_type(&context, &integer(), &Type::Optional(Box::new(integer())), true),
        TypeStep::Mismatch { .. }
    ));
    let pair = Type::Tuple(vec![integer(), text()]);
    let single = Type::Tuple(vec![integer()]);
    assert!(matches!(
        check_type_against_type(&context, &pair, &single, true),
        TypeStep::TupleArity {
            expected: 2,
            found: 1
        }
    ));
    assert!(matches!(
        check_type_against_type(&context, &Type::Variable("r".to_string()), &integer(), true),
        TypeStep::RigidVariable(name) if name == "r"
    ));
    assert!(matches!(
        check_type_against_type(
            &context,
            &Type::Record(record(&[("x", integer())])),
            &Type::Record(record(&[])),
            true
        ),
        TypeStep::Records
    ));
}

#[test]
fn variants_are_compared_tag_by_tag() {
    let expected = tags(vec![("A", vec![integer()]), ("B", vec![])]);
    let actual = tags(vec![("A", vec![text()])]);
    assert!(matches!(
        check_variant_type_against_type(&expected, &actual),
        VariantStep::Tags { .. }
    ));
    assert!(matches!(
        &check_variant_tags(&expected, &actual)[..],
        [TagFinding::Compare(goals)] if *goals == vec![(integer(), text())]
    ));
    assert!(matches!(
        &check_variant_tags(&expected, &tags(vec![("C", vec![])]))[..],
        [TagFinding::UnknownTag(tag)] if tag == "C"
    ));
    assert!(matches!(
        &check_variant_tags(&expected, &tags(vec![("B", vec![integer()])]))[..],
        [TagFinding::PayloadArity {
            expected: 0,
            found: 1,
            ..
        }]
    ));
    let open = Row {
        tail: RowTail::Open,
        ..tags(vec![("A", vec![integer()])])
    };
    assert!(matches!(
        check_variant_type_against_type(&expected, &open),
        VariantStep::OpenNotAssignable
    ));
    let literals = match literal_type(Literal::Number("1".to_string())) {
        Type::Variant(row) => row,
        other => panic!("{other:?}"),
    };
    assert!(matches!(
        check_variant_type_against_type(&expected, &literals),
        VariantStep::KindMismatch
    ));
    assert_eq!(
        check_literal_value_against_variant(&literals, &Literal::Number("1".to_string())),
        LiteralStep::Accept
    );
    assert_eq!(
        check_literal_value_against_variant(&literals, &Literal::Number("2".to_string())),
        LiteralStep::NotInUnion
    );
    assert!(matches!(
        check_named_type_against_variant(&literals, "Int"),
        NamedStep::WideValue
    ));
    assert!(matches!(
        check_named_type_against_variant(&literals, "Text"),
        NamedStep::Mismatch
    ));
    let ok = tags(vec![("Ok", vec![integer()])]);
    assert!(matches!(
        &check_result_variant_type_against_result(&text(), &text(), &ok)[..],
        [ResultFinding::Compare(expected, actual)] if *expected == text() && *actual == integer()
    ));
}

#[test]
fn records_are_compared_field_by_field() {
    let required = vec![
        RequiredField {
            name: "x".to_string(),
            optional: false,
        },
        RequiredField {
            name: "y".to_string(),
            optional: true,
        },
    ];
    let present = vec![PresentField {
        name: "z".to_string(),
        compared: true,
        checked_alone: false,
    }];
    let findings = compare_record(&required, false, &present, true, true);
    assert!(findings
        .iter()
        .any(|finding| matches!(finding, RecordFinding::Missing { required: 0 })));
    assert!(findings
        .iter()
        .any(|finding| matches!(finding, RecordFinding::Unexpected { present: 0 })));
    assert!(!findings
        .iter()
        .any(|finding| matches!(finding, RecordFinding::Missing { required: 1 })));
    assert!(compare_record(&required, true, &present, true, false)
        .iter()
        .all(|finding| !matches!(finding, RecordFinding::Unexpected { .. })));
}

#[test]
fn values_are_held_against_types_by_their_form() {
    let tuple = expr(ExprKind::Tuple(vec![number("1")]));
    let pair = Type::Tuple(vec![integer(), text()]);
    assert!(matches!(
        check_value_against(&pair, &tuple, false, true, Branding::NoLiteral),
        ValueStep::TupleArity {
            expected: 2,
            found: 1
        }
    ));
    let row = Type::Record(record(&[("x", integer())]));
    let value = expr(ExprKind::Record(vec![]));
    assert!(matches!(
        check_value_against(&row, &value, false, true, Branding::NoLiteral),
        ValueStep::Record { .. }
    ));
    let group = expr(ExprKind::Group(Box::new(number("1"))));
    assert!(matches!(
        check_value_against(&integer(), &group, false, true, Branding::NoLiteral),
        ValueStep::Inner(_)
    ));
    let variant = tags(vec![("A", vec![integer()])]);
    assert!(matches!(
        check_variant_value_against(&variant, "A", 1),
        TagStep::Payload(_)
    ));
    assert!(matches!(
        check_variant_value_against(&variant, "A", 2),
        TagStep::PayloadArity {
            expected: 1,
            found: 2
        }
    ));
    assert!(matches!(
        check_variant_value_against(&variant, "B", 0),
        TagStep::UnknownTag
    ));
    assert!(matches!(
        check_result_constructor_value_against(&integer(), &text(), "Err", 1),
        ResultStep::Payload(ty) if ty == text()
    ));
    assert_eq!(
        check_primitive_family_literal_branding(&number("1"), &integer(), &Type::Deferred),
        Branding::Brand
    );
    assert_eq!(
        check_primitive_family_literal_branding(&number("1"), &text(), &Type::Deferred),
        Branding::Mismatch
    );
    assert_eq!(
        check_primitive_family_literal_branding(&name("x"), &integer(), &integer()),
        Branding::NoLiteral
    );
}

#[test]
fn values_need_the_methods_that_are_asked_for() {
    let env = MethodEnvironment {
        aliases: StringMap::new(),
        families: StringMap::new(),
        attached: vec![],
    };
    let open = Row {
        tail: RowTail::Open,
        ..record(&[])
    };
    assert!(matches!(
        check_value_against_slot_record(&env, &StringMap::new(), &integer(), &open, &record(&[])),
        SlotStep::OpenTarget
    ));
    let slots = record(&[(
        "toText",
        Type::Function {
            params: vec![],
            result: Box::new(text()),
            required: 0,
        },
    )]);
    match check_value_against_slot_record(&env, &StringMap::new(), &integer(), &record(&[]), &slots)
    {
        SlotStep::Require { methods, .. } => {
            assert_eq!(methods.len(), 1);
            assert_eq!(methods[0].name, "toText");
            assert_eq!(methods[0].result, text());
        }
        other => panic!("{other:?}"),
    }
}

#[test]
fn declarations_are_checked_by_their_phase() {
    let value = number("1");
    let facts = DeclarationFacts {
        name: "x",
        phase: DeclarationPhase::Runtime,
        value: Some(&value),
        family_owner: None,
        is_requirement_row: false,
        has_annotation: true,
        is_import: false,
        runtime_alias: None,
        has_scheme: false,
        has_final_type: false,
    };
    let steps = check_declaration(&facts);
    assert!(steps
        .iter()
        .any(|step| matches!(step, DeclarationStep::CheckAgainstAnnotation)));
    assert!(steps
        .iter()
        .any(|step| matches!(step, DeclarationStep::CheckLiftability)));
    let family = DeclarationFacts {
        family_owner: Some("User"),
        phase: DeclarationPhase::Comptime,
        ..facts
    };
    assert!(matches!(
        check_declaration(&family)[0],
        DeclarationStep::CheckFamily("User")
    ));
}

#[test]
fn names_that_are_declared_twice_are_not_found() {
    let positions =
        collect_top_level_environment(&vec!["a".to_string(), "b".to_string(), "a".to_string()]);
    assert_eq!(positions.get("a"), Some(&None));
    assert_eq!(positions.get("b"), Some(&Some(1)));
}

#[test]
fn spread_records_bind_their_fields() {
    let row = record(&[("x", integer()), ("y", text())]);
    assert_eq!(closed_spread_row(Type::Record(row.clone())), Some(row.clone()));
    assert_eq!(closed_spread_row(integer()), None);
    let mut visible = StringSet::new();
    visible.insert("y".to_string());
    let fields = check_local_spread_binding(&row, false, &mut visible);
    assert!(matches!(
        &fields[..],
        [SpreadField::Bind { .. }, SpreadField::Duplicate { name }, ..] if name == "y"
    ));
    let mut declared = StringSet::new();
    declared.insert("x".to_string());
    let mut spread = StringSet::new();
    assert_eq!(
        check_top_level_spread_binding(&row, &declared, &mut spread),
        vec!["x".to_string()]
    );
    assert!(spread.contains("y"));
}

#[test]
fn patterns_name_fields_that_are_there() {
    let pattern = expr(ExprKind::Record(vec![
        field("point", expr(ExprKind::Record(vec![field("z", name("a"))]))),
        field("other", name("b")),
    ]));
    let row = record(&[("point", Type::Record(record(&[("x", integer())])))]);
    let mut missing = vec![];
    report_missing_record_pattern_fields_in_expr(&pattern, &row, &StringMap::new(), &mut missing);
    let names: Vec<&str> = missing.iter().map(|field| field.name.as_str()).collect();
    assert_eq!(names, vec!["z", "other"]);
}

#[test]
fn types_are_published_when_they_are_known() {
    let start = start_value_types(
        vec![
            ("x".to_string(), TypeScheme::mono(integer())),
            ("y".to_string(), TypeScheme::mono(text())),
        ],
        &vec!["x".to_string(), "z".to_string()],
        vec![
            ("x".to_string(), TypeScheme::mono(text())),
            ("w".to_string(), TypeScheme::mono(text())),
        ],
    );
    assert!(matches!(start.get("x"), Some(None)));
    assert!(matches!(start.get("y"), Some(Some(_))));
    assert!(matches!(start.get("w"), Some(Some(_))));
    let value = number("1");
    let facts = PublicationFacts {
        name: "x",
        value: Some(&value),
        is_method_row: false,
        is_pattern_bound: false,
        annotation: None,
        definition: None,
    };
    assert!(matches!(publication_step(&facts), Publication::Infer));
    let unbound = PublicationFacts {
        value: None,
        ..facts
    };
    assert!(matches!(publication_step(&unbound), Publication::Skip));
    let published = |name: &'static str, ty: Type| PublishedDeclaration {
        facts: PublicationFacts {
            name,
            value: Some(&value),
            is_method_row: false,
            is_pattern_bound: false,
            annotation: None,
            definition: None,
        },
        scheme: Some(TypeScheme::mono(ty)),
    };
    let types = build_value_types(
        start,
        vec![published("x", Type::Deferred), published("z", integer())],
    );
    assert!(matches!(types.get("x"), Some(None)));
    assert!(matches!(types.get("z"), Some(Some(scheme)) if scheme.ty == integer()));
    let mut inferred = vec![];
    record_inferred_type(&mut inferred, Span::new(0, 1), Type::Deferred);
    record_inferred_type(&mut inferred, Span::new(0, 1), integer());
    assert_eq!(inferred.len(), 1);
}

#[test]
fn types_that_cannot_be_found_are_reported() {
    let facts = StuckFacts {
        reporting: true,
        was_reported: false,
        awaits_host_argument: false,
        uses_open_rest: false,
        is_artifact: false,
    };
    let none = StringSet::new();
    let value = number("1");
    assert!(report_unresolved_runtime_binding_if_stuck(&value, &Type::Deferred, &none, facts));
    assert!(!report_unresolved_runtime_binding_if_stuck(&value, &integer(), &none, facts));
    assert!(!report_unresolved_runtime_binding_if_stuck(
        &name("_"),
        &Type::Deferred,
        &none,
        facts
    ));
    let mut overloaded = StringSet::new();
    overloaded.insert("f".to_string());
    let call = expr(ExprKind::Call {
        callee: Box::new(name("f")),
        args: vec![],
    });
    assert!(!report_unresolved_runtime_binding_if_stuck(
        &call,
        &Type::Deferred,
        &overloaded,
        facts
    ));
}

#[test]
fn names_stand_for_types_through_other_names() {
    let mut names = StringSet::new();
    let mut values = StringMap::new();
    for (name, rhs) in [
        ("A", ComptimeRhs::Reference("B".to_string())),
        ("B", ComptimeRhs::Reference("Known".to_string())),
        ("C", ComptimeRhs::Reference("C".to_string())),
        ("D", ComptimeRhs::Value),
    ] {
        names.insert(name.to_string());
        values.insert(name.to_string(), rhs);
    }
    let mut known_types = StringSet::new();
    known_types.insert("Known".to_string());
    let table = ArtifactTable {
        names,
        values,
        known_types,
    };
    let mut known = StringMap::new();
    let none = StringSet::new();
    assert!(comptime_binding_is_artifact(&table, "A", &none, &mut known));
    assert_eq!(known.get("B"), Some(&true));
    assert!(!comptime_binding_is_artifact(&table, "C", &none, &mut known));
    assert!(!comptime_binding_is_artifact(&table, "D", &none, &mut known));
    let reference = of_type("A");
    assert!(runtime_rhs_is_artifact(
        &table,
        &reference,
        &ComptimeRhs::Value,
        false,
        &mut known
    ));
    assert!(literal_or_tag_value_shape(&number("1")));
    assert!(!literal_or_tag_value_shape(&of_type("A")));
    assert!(!literal_operation_value_shape(&number("1")));
}

#[test]
fn values_are_known_where_they_are_read() {
    assert!(knowledge_is_in_scope(
        ExecutionContext::RuntimeKnown(1),
        ExecutionContext::RuntimeKnown(2)
    ));
    assert!(!knowledge_is_in_scope(
        ExecutionContext::RuntimeKnown(2),
        ExecutionContext::RuntimeKnown(1)
    ));
    let mut knowledge = Knowledge::new(ExecutionContext::RuntimeKnown(0));
    knowledge.record_known(Span::new(0, 1), Known::Number("1".to_string()));
    let one = number("1");
    assert!(matches!(
        knowledge.known_for_expression(&one),
        Some(Known::Number(text)) if text == "1"
    ));
    knowledge.propagate_module_binding_knowledge("x", &one);
    let named = at(ExprKind::Name("x".to_string()), 8);
    assert!(knowledge.known_for_expression(&named).is_some());
    knowledge.push_scope();
    let unknown = at(ExprKind::Name("unknown".to_string()), 20);
    knowledge.propagate_local_binding_knowledge("x", &unknown);
    assert!(knowledge.known_for_expression(&named).is_none());
    knowledge.pop_scope();
    assert!(knowledge.known_for_expression(&named).is_some());
}

#[test]
fn known_values_satisfy_types() {
    let form = NumberForm {
        finite: true,
        fits: StringSet::new(),
    };
    assert!(knowledge_satisfies(&Known::Text("a".to_string()), &text(), &form));
    assert!(!knowledge_satisfies(&Known::Text("a".to_string()), &integer(), &form));
    assert!(knowledge_satisfies(&Known::Bool(true), &named_builtin("Bool"), &form));
    let optional = Type::Optional(Box::new(text()));
    assert!(knowledge_satisfies(&Known::Text("a".to_string()), &optional, &form));
    assert!(!knowledge_satisfies(&Known::Undefined, &optional, &form));
    let only_a = Type::Variant(Row {
        entries: vec![RowEntry::Literal {
            value: Literal::String("a".to_string()),
        }],
        tail: RowTail::Closed,
    });
    assert!(knowledge_satisfies(&Known::Text("a".to_string()), &only_a, &form));
    assert!(!knowledge_satisfies(&Known::Text("b".to_string()), &only_a, &form));
    assert!(matches!(
        Known::from_value(&EvaluatedValue::Bool(true)),
        Some(Known::Bool(true))
    ));
    assert!(Known::from_value(&EvaluatedValue::Other).is_none());
}

fn evaluated(ty: Type) -> EvaluationResult {
    EvaluationResult {
        evaluation: Evaluation::Reified(ty),
        diagnostics: vec![],
    }
}

#[test]
fn evaluations_that_meet_themselves_form_a_cycle() {
    let mut stack = SpecializationStack::new();
    let id = RecursiveTypeId(1);
    let span = Span::new(0, 1);
    assert!(matches!(
        stack.evaluate_prelowered_type_definition("List", "List", id, span, 8),
        DefinitionStart::Resolve
    ));
    assert!(stack.specialization_is_active("List"));
    match stack.evaluate_prelowered_type_definition("List", "List", id, span, 8) {
        DefinitionStart::Answer(result) => {
            assert!(matches!(
                result.evaluation,
                Evaluation::Reified(Type::Recursive(RecursiveTypeId(1)))
            ));
        }
        other => panic!("{other:?}"),
    }
    assert!(matches!(
        stack.finish_specialization("List", evaluated(Type::Tuple(vec![Type::Recursive(id)]))),
        Finished::Cycle { .. }
    ));
    assert!(!stack.specialization_is_active("List"));
}

#[test]
fn evaluations_are_finished_once() {
    let mut stack = SpecializationStack::new();
    let span = Span::new(0, 1);
    assert!(stack.begin_specialization("Pair", "Pair", RecursiveTypeId(2), span, 8));
    assert!(matches!(
        stack.finish_specialization("Pair", evaluated(integer())),
        Finished::Result(_)
    ));
    assert!(stack.cached_specialization("Pair").is_some());
    assert!(matches!(
        stack.evaluate_prelowered_type_definition("Pair", "Pair", RecursiveTypeId(2), span, 8),
        DefinitionStart::Answer(_)
    ));
    assert!(matches!(
        stack.evaluate_prelowered_type_definition("Deep", "Deep", RecursiveTypeId(3), span, 0),
        DefinitionStart::LimitReached
    ));
}

#[test]
fn recursive_types_must_be_productive() {
    let first = RecursiveTypeId(1);
    let second = RecursiveTypeId(2);
    let flags = productive_members(&vec![
        CycleMember {
            id: first,
            formula: Productivity::Any(vec![
                Productivity::Always,
                Productivity::Reference(second),
            ]),
        },
        CycleMember {
            id: second,
            formula: Productivity::All(vec![Productivity::Reference(first)]),
        },
        CycleMember {
            id: RecursiveTypeId(3),
            formula: Productivity::Reference(RecursiveTypeId(3)),
        },
    ]);
    assert_eq!(flags, vec![true, true, false]);
}

#[test]
fn expressions_go_by_their_rules() {
    let bar = |operator: &str| {
        expr(ExprKind::Binary {
            left: Box::new(expr(ExprKind::Null)),
            operator: operator.to_string(),
            operator_span: Span::new(0, 1),
            right: Box::new(expr(ExprKind::Null)),
        })
    };
    assert_eq!(inference_rule(&bar("|")), InferenceRule::SetUnion);
    assert_eq!(inference_rule(&bar("+")), InferenceRule::Binary);
    assert_eq!(inference_rule(&expr(ExprKind::Null)), InferenceRule::Form);
}

#[test]
fn definitions_stand_for_what_they_came_to() {
    let mut definitions = StringSet::new();
    definitions.insert("Age".to_string());
    let head = Type::Tuple(vec![
        apply1("Array", named_builtin("Age")),
        named_builtin("Text"),
        named_builtin("Age"),
    ]);
    assert_eq!(prelowered_names(&head, &definitions), vec!["Age", "Age"]);
    let answers = vec![
        DefinitionAnswer {
            ty: Some(integer()),
            diagnostics: vec![Diagnostic::error("first".to_string())],
        },
        DefinitionAnswer {
            ty: None,
            diagnostics: vec![Diagnostic::error("second".to_string())],
        },
    ];
    let (resolved, messages) = resolve_prelowered_type_head(&head, &definitions, &answers);
    assert_eq!(
        resolved,
        Type::Tuple(vec![
            apply1("Array", integer()),
            named_builtin("Text"),
            named_builtin("Age"),
        ])
    );
    assert_eq!(messages.len(), 2);
    assert_eq!(messages[0].message, "first");
    assert_eq!(messages[1].message, "second");
    let none = StringSet::new();
    assert_eq!(resolve_prelowered_type_head(&head, &none, &vec![]).0, head);
    assert_eq!(lower_zero_argument_type_definition(Evaluation::Value), None);
    assert_eq!(
        lower_zero_argument_type_definition(Evaluation::Unsupported),
        Some(Type::Deferred)
    );
    let mut names = StringSet::new();
    names.insert("x".to_string());
    let message =
        runtime_binding_reference("x", Span::new(0, 1), &names, &StringSet::new()).unwrap();
    assert_eq!(
        message.message,
        "runtime binding `x` cannot be used while specializing a comptime function"
    );
    assert!(runtime_binding_reference("x", Span::new(0, 1), &names, &names).is_none());
    assert!(
        runtime_binding_reference("y", Span::new(0, 1), &names, &StringSet::new()).is_none()
    );
}

#[test]
fn expressions_are_read_without_types() {
    let piped = pipe_call_expr(number("1"), name("f"));
    assert!(matches!(piped.kind, ExprKind::Call { .. }));
    assert_eq!(static_integer_literal_is_zero(&number("0")), Some(true));
    assert_eq!(static_integer_literal_is_zero(&number("3")), Some(false));
    assert_eq!(static_integer_literal_is_zero(&name("n")), None);
    let block = expr(ExprKind::Block(vec![Item::Expr(Box::new(number("7")))]));
    assert!(matches!(
        final_value_expr(&block).map(|value| &value.kind),
        Some(ExprKind::Literal(_))
    ));
    let access = expr(ExprKind::FieldAccess {
        receiver: Box::new(name("user")),
        field: "name".to_string(),
        field_span: Span::new(0, 1),
        null_safe: false,
    });
    assert_eq!(describe_receiver_expr(&access), Some("user.name".to_string()));
    let entries = vec![RecordEntry::Element(Box::new(number("1")))];
    assert_eq!(literal_set_elements(&entries).map(|elements| elements.len()), Some(1));
    let sugar = at(ExprKind::ComptimeName("Array".to_string()), 10);
    assert!(is_collection_type_sugar(&sugar, &vec![of_type("Int")]));
    assert!(!is_collection_type_sugar(&of_type("Array"), &vec![of_type("Int")]));
    let union = expr(ExprKind::Binary {
        left: Box::new(expr(ExprKind::SetLiteral(entries))),
        operator: "|".to_string(),
        operator_span: Span::new(0, 1),
        right: Box::new(name("others")),
    });
    let parts = value_set_union_parts(&union).unwrap();
    assert!(matches!(
        &parts[..],
        [SetUnionPart::Element(_), SetUnionPart::Operand(_)]
    ));
}
