//! Comparisons, checks of values and operations that are carried through to the end.
use aven_check::alpha::{alpha_equivalent_type, named_method_schemes_alpha_equivalent};
use aven_check::binary_operations::{
    infer_binary_operation, OperandAnswers, Operation, OperationOutcome, OperationReport,
    OperatorContext, TypedOperation,
};
use aven_check::collections::{StringMap, StringSet};
use aven_check::comparison::{ComparisonContext, Written};
use aven_check::comparison_reports::{
    event_after, finding_after, report_findings, report_value_event, report_value_events,
};
use aven_check::comparison_levels::count_levels;
use aven_check::conformance::{
    compare_types, resolve_variant_row, ComparisonFacts, ComparisonFinding,
};
use aven_check::folding::{quote_string_literal, FloatFold};
use aven_check::arms::ArmBody;
use aven_check::diagnostics::DiagnosticLog;
use aven_check::equality::{equality_compatibility, EqualityCompatibility, TypeContext};
use aven_check::expression_rules::{
    BinaryUse, CallUse, ElementFinding, FieldUse, IndexUse, LambdaUse, MatchUse, RuleEvent,
    RuleFacts, UnaryUse,
};
use aven_check::inference::{infer, Fresh, InferenceEvent, InferenceFacts};
use aven_check::lookup::MethodEnvironment;
use aven_check::methods::{MethodConstraint, NamedMethodOrigin, NamedMethodType};
use aven_check::normalize::RecursiveTypes;
use aven_check::notation::NotationTable;
use aven_check::operators::DivisorVerdict;
use aven_check::owners::owner_pattern_matches;
use aven_check::nesting::count_nesting;
use aven_check::rows::{apply1, literal_type};
use aven_check::span::Span;
use aven_check::syntax::{Expr, ExprKind, MatchArm, Param, PropagationMode, RecordEntry};
use aven_check::type_ops::named_builtin;
use aven_check::types::{Literal, RecursiveTypeId, Row, RowEntry, RowTail, Type};
use aven_check::value_checks::{check_value, ValueContext, ValueEvent};
use aven_check::value_levels::{count_value_levels, count_value_nesting};

fn integer() -> Type {
    named_builtin("Int")
}

fn text() -> Type {
    named_builtin("Text")
}

fn variable(name: &str) -> Type {
    Type::Variable(name.to_string())
}

fn expr(kind: ExprKind) -> Expr {
    Expr {
        kind,
        span: Span::new(4, 5),
    }
}

fn number(digits: &str) -> Expr {
    expr(ExprKind::Literal(Literal::Number(digits.to_string())))
}

fn row(fields: &[(&str, Type)]) -> Row {
    Row {
        entries: fields
            .iter()
            .map(|(name, ty)| RowEntry::Field {
                name: name.to_string(),
                ty: ty.clone(),
            })
            .collect(),
        tail: RowTail::Closed,
    }
}

fn record(fields: &[(&str, Type)]) -> Type {
    Type::Record(row(fields))
}

fn tags(entries: Vec<(&str, Vec<Type>)>) -> Row {
    Row {
        entries: entries
            .into_iter()
            .map(|(name, payload)| RowEntry::Tag {
                name: name.to_string(),
                payload,
            })
            .collect(),
        tail: RowTail::Closed,
    }
}

fn field(name: &str, value: Expr) -> RecordEntry {
    RecordEntry::Field {
        name: name.to_string(),
        name_span: Span::new(0, 1),
        value: Box::new(value),
        overwrite: false,
        span: Span::new(0, 1),
    }
}

fn comparison() -> ComparisonContext {
    let mut known_types = StringSet::new();
    known_types.insert("Int".to_string());
    known_types.insert("Text".to_string());
    let mut rigid = StringSet::new();
    rigid.insert("r".to_string());
    ComparisonContext {
        known_types,
        family_owners: StringSet::new(),
        family_bases: StringMap::new(),
        family_data: StringMap::new(),
        rigid,
        recursive: RecursiveTypes { entries: vec![] },
        active: vec![],
    }
}

fn facts() -> ComparisonFacts {
    ComparisonFacts {
        mismatched_names: vec![("Int".to_string(), "Text".to_string())],
        rows: vec![],
        definitions: StringMap::new(),
    }
}

fn found(context: &mut ComparisonContext, expected: &Type, actual: &Type) -> Vec<ComparisonFinding> {
    let mut findings = vec![];
    compare_types(context, &facts(), expected, actual, 20, &mut findings);
    findings
}

#[test]
fn comparisons_go_down_to_the_difference() {
    let mut context = comparison();
    let deep = |inner: Type| {
        record(&[(
            "items",
            Type::Tuple(vec![text(), apply1("Array", record(&[("x", inner)]))]),
        )])
    };
    assert!(found(&mut context, &deep(integer()), &deep(integer())).is_empty());
    assert!(matches!(
        &found(&mut context, &deep(integer()), &deep(text()))[..],
        [ComparisonFinding::Mismatch { expected, actual, .. }]
            if *expected == integer() && *actual == text()
    ));
    let missing = record(&[("a", record(&[("x", integer()), ("y", text())]))]);
    let there = record(&[("a", record(&[("x", text())]))]);
    let findings = found(&mut context, &missing, &there);
    assert_eq!(findings.len(), 2);
    assert!(findings
        .iter()
        .any(|finding| matches!(finding, ComparisonFinding::MissingField(name) if name == "y")));
    assert!(matches!(
        &found(
            &mut context,
            &Type::Tuple(vec![integer()]),
            &Type::Tuple(vec![integer(), text()])
        )[..],
        [ComparisonFinding::TupleArity {
            expected: 1,
            found: 2
        }]
    ));
    assert!(matches!(
        &found(&mut context, &Type::Tuple(vec![variable("r")]), &Type::Tuple(vec![integer()]))[..],
        [ComparisonFinding::RigidVariable { name, .. }] if name == "r"
    ));
}

#[test]
fn comparisons_of_variants_look_at_tags_and_literals() {
    let mut context = comparison();
    let expected = Type::Variant(tags(vec![("A", vec![integer()]), ("B", vec![])]));
    let unknown = Type::Variant(tags(vec![("C", vec![])]));
    let findings = found(&mut context, &expected, &unknown);
    assert!(findings
        .iter()
        .any(|finding| matches!(finding, ComparisonFinding::UnknownTag(tag) if tag == "C")));
    let payload = Type::Variant(tags(vec![("A", vec![text()])]));
    let findings = found(&mut context, &expected, &payload);
    assert!(findings
        .iter()
        .any(|finding| matches!(finding, ComparisonFinding::Mismatch { .. })));
    let one = literal_type(Literal::Number("1".to_string()));
    let two = literal_type(Literal::Number("2".to_string()));
    let findings = found(&mut context, &one, &two);
    assert!(findings
        .iter()
        .any(|finding| matches!(finding, ComparisonFinding::NotInUnion { .. })));
    let resolved = ComparisonFacts {
        rows: vec![(tags(vec![("A", vec![])]), tags(vec![("B", vec![])]))],
        ..facts()
    };
    assert_eq!(
        resolve_variant_row(&resolved, &tags(vec![("A", vec![])])),
        tags(vec![("B", vec![])])
    );
    assert_eq!(
        resolve_variant_row(&resolved, &tags(vec![("C", vec![])])),
        tags(vec![("C", vec![])])
    );
}

#[test]
fn recursive_types_are_compared_once() {
    let mut context = comparison();
    let id = RecursiveTypeId(1);
    let list = record(&[("next", Type::Recursive(id)), ("value", integer())]);
    context.recursive = RecursiveTypes {
        entries: vec![(id, list)],
    };
    let good = record(&[("next", Type::Recursive(id)), ("value", integer())]);
    assert!(found(&mut context, &Type::Recursive(id), &good).is_empty());
    let bad = record(&[("next", Type::Recursive(id)), ("value", text())]);
    assert!(matches!(
        &found(&mut context, &Type::Recursive(id), &bad)[..],
        [ComparisonFinding::Mismatch { .. }]
    ));
    assert!(context.active.is_empty());
    let mut findings = vec![];
    compare_types(&mut context, &facts(), &integer(), &text(), 0, &mut findings);
    assert!(matches!(&findings[..], [ComparisonFinding::Unfinished { .. }]));
}

fn values() -> ValueContext {
    let mut comparison = comparison();
    comparison
        .family_bases
        .insert("Age".to_string(), integer());
    comparison.family_owners.insert("Age".to_string());
    let mut aliases = StringMap::new();
    aliases.insert("Age".to_string(), "module:Age".to_string());
    ValueContext {
        comparison,
        facts: facts(),
        aliases,
        places: vec![],
        selections: StringSet::new(),
        locals: StringSet::new(),
        bindings: StringSet::new(),
        values: StringSet::new(),
    }
}

fn checked<'a>(expected: &Type, value: &'a Expr) -> Vec<ValueEvent<'a>> {
    let mut events = vec![];
    check_value(&mut values(), expected, value, 20, &mut events);
    events
}

#[test]
fn values_are_checked_part_by_part() {
    let one = literal_type(Literal::Number("1".to_string()));
    let pair = Type::Tuple(vec![one.clone(), one.clone()]);
    let value = expr(ExprKind::Tuple(vec![
        number("1"),
        expr(ExprKind::Group(Box::new(number("2")))),
    ]));
    assert!(matches!(
        &checked(&pair, &value)[..],
        [ValueEvent::LiteralNotInUnion { .. }]
    ));
    let short = expr(ExprKind::Tuple(vec![number("1")]));
    assert!(matches!(
        &checked(&pair, &short)[..],
        [
            ValueEvent::TupleArity {
                expected: 2,
                found: 1,
                ..
            },
            ValueEvent::Check(_)
        ]
    ));
    let person = record(&[("id", one.clone()), ("name", text())]);
    let value = expr(ExprKind::Record(vec![
        field("id", number("2")),
        field("age", number("3")),
    ]));
    let events = checked(&person, &value);
    assert!(matches!(&events[0], ValueEvent::Markers { record: true, .. }));
    assert!(events
        .iter()
        .any(|event| matches!(event, ValueEvent::LiteralNotInUnion { .. })));
    assert!(events
        .iter()
        .any(|event| matches!(event, ValueEvent::MissingField { name, .. } if name == "name")));
    assert!(events
        .iter()
        .any(|event| matches!(event, ValueEvent::UnexpectedField { name, .. } if name == "age")));
    let optional = Type::Optional(Box::new(one));
    assert!(checked(&optional, &expr(ExprKind::Undefined)).is_empty());
    assert!(matches!(
        &checked(&optional, &number("2"))[..],
        [ValueEvent::LiteralNotInUnion { .. }]
    ));
    assert!(matches!(
        &checked(&integer(), &expr(ExprKind::Name("x".to_string())))[..],
        [ValueEvent::Name { .. }]
    ));
    let mut events = vec![];
    let value = number("1");
    check_value(&mut values(), &integer(), &value, 0, &mut events);
    assert!(matches!(&events[..], [ValueEvent::Unfinished { .. }]));
}

#[test]
fn literals_become_values_of_families() {
    let age = named_builtin("Age");
    assert!(matches!(
        &checked(&age, &number("4"))[..],
        [ValueEvent::Brand { owner, .. }] if owner == "module:Age"
    ));
    let word = expr(ExprKind::Literal(Literal::String("\"x\"".to_string())));
    assert!(matches!(
        &checked(&age, &word)[..],
        [ValueEvent::BrandMismatch { found, .. }] if found == "Text"
    ));
    assert!(matches!(
        &checked(&integer(), &number("4"))[..],
        [ValueEvent::LiteralOfName { name, .. }] if name == "Int"
    ));
}

#[test]
fn constructors_are_checked_with_their_payloads() {
    let one = literal_type(Literal::Number("1".to_string()));
    let shape = Type::Variant(tags(vec![("Circle", vec![one.clone()]), ("Point", vec![])]));
    let call = |tag: &str, args: Vec<Expr>| {
        expr(ExprKind::Call {
            callee: Box::new(expr(ExprKind::Tag(tag.to_string()))),
            args,
        })
    };
    let circle = call("Circle", vec![number("1")]);
    assert!(checked(&shape, &circle).is_empty());
    let wide = call("Circle", vec![number("2")]);
    assert!(matches!(
        &checked(&shape, &wide)[..],
        [ValueEvent::LiteralNotInUnion { .. }]
    ));
    let many = call("Circle", vec![number("1"), number("1")]);
    assert!(checked(&shape, &many)
        .iter()
        .any(|event| matches!(event, ValueEvent::PayloadArity { expected: 1, found: 2, .. })));
    let square = expr(ExprKind::Tag("Square".to_string()));
    assert!(checked(&shape, &square)
        .iter()
        .any(|event| matches!(event, ValueEvent::UnknownTag { tag: "Square", .. })));
    let list = apply1("Array", one);
    let array = expr(ExprKind::Array(vec![RecordEntry::Element(Box::new(number("2")))]));
    let events = checked(&list, &array);
    assert!(matches!(&events[0], ValueEvent::Markers { record: false, .. }));
    assert!(events
        .iter()
        .any(|event| matches!(event, ValueEvent::LiteralNotInUnion { .. })));
}

fn operators() -> OperatorContext {
    OperatorContext {
        in_dependency: false,
        custom_operator: false,
        method_operator: true,
        definitions: StringMap::new(),
        recursive: RecursiveTypes { entries: vec![] },
        family_names: StringSet::new(),
        family_bases: StringMap::new(),
        methods: MethodEnvironment {
            aliases: StringMap::new(),
            families: StringMap::new(),
            attached: vec![],
        },
        named: vec![],
        parameters: vec![],
        levels: 10,
    }
}

fn known(left: &Type, right: &Type) -> OperandAnswers {
    OperandAnswers {
        left: left.clone(),
        right: right.clone(),
        left_default: left.clone(),
        right_default: right.clone(),
        left_is_number: false,
        right_is_number: false,
        left_text: String::new(),
        right_text: String::new(),
        takes_right: false,
        unified: !matches!(left, Type::Meta(_)),
        compared: !matches!(left, Type::Meta(_)),
        right_fits_payload: true,
        payload_fits_right: true,
        left_afterwards: left.clone(),
        left_settled: left.clone(),
        right_settled: right.clone(),
        left_depends_on_param: false,
        right_depends_on_param: false,
    }
}

fn operate(
    context: &OperatorContext,
    operator: &str,
    left: &Type,
    right: &Type,
    fresh: &mut Fresh,
) -> OperationOutcome {
    let first = expr(ExprKind::Name("a".to_string()));
    let second = number("0");
    let operation = Operation {
        operator,
        operator_span: Span::new(2, 3),
        left: &first,
        right: &second,
        left_type: left,
        right_type: right,
    };
    let float = FloatFold {
        arithmetic: None,
        order: None,
    };
    infer_binary_operation(context, &operation, &known(left, right), &float, fresh)
}

fn typed(outcome: OperationOutcome) -> TypedOperation {
    match outcome {
        OperationOutcome::Typed(typed) => typed,
        other => panic!("{other:?}"),
    }
}

#[test]
fn operations_have_the_types_of_their_rules() {
    let context = operators();
    let mut fresh = Fresh { meta: 7, tail: 3 };
    let sum = typed(operate(&context, "+", &integer(), &integer(), &mut fresh));
    assert_eq!(sum.result, integer());
    assert!(matches!(sum.report, OperationReport::Nothing));
    let equal = typed(operate(&context, "==", &text(), &text(), &mut fresh));
    assert_eq!(equal.result, named_builtin("Bool"));
    let two = literal_type(Literal::Number("2".to_string()));
    let three = literal_type(Literal::Number("3".to_string()));
    let folded = typed(operate(&context, "*", &two, &three, &mut fresh));
    assert_eq!(
        folded.result,
        Type::Variant(Row {
            entries: vec![RowEntry::Literal {
                value: Literal::Number("6".to_string())
            }],
            tail: RowTail::Var(3),
        })
    );
    assert_eq!(fresh.tail, 4);
    let divided = typed(operate(&context, "/", &integer(), &integer(), &mut fresh));
    assert_eq!(divided.divisor, DivisorVerdict::Zero { written: true });
}

#[test]
fn operations_that_no_rule_types_are_reported() {
    let context = operators();
    let mut fresh = Fresh { meta: 7, tail: 3 };
    let wrong = typed(operate(&context, "-", &text(), &record(&[]), &mut fresh));
    assert!(matches!(
        wrong.report,
        OperationReport::UndefinedOperator { left, right } if left == text() && right == record(&[])
    ));
    assert!(wrong.forgets);
    let function = Type::Function {
        params: vec![],
        result: Box::new(integer()),
        required: 0,
    };
    let compared = typed(operate(&context, "==", &integer(), &function, &mut fresh));
    assert_eq!(compared.result, named_builtin("Bool"));
    assert!(matches!(
        compared.report,
        OperationReport::ComparedFunctions { left: false }
    ));
    assert!(matches!(
        operate(&context, "|>", &integer(), &integer(), &mut fresh),
        OperationOutcome::Pipe
    ));
    let dependency = OperatorContext {
        in_dependency: true,
        custom_operator: true,
        ..operators()
    };
    assert!(matches!(
        operate(&dependency, "<+>", &integer(), &integer(), &mut fresh),
        OperationOutcome::CustomInfix
    ));
    let shallow = OperatorContext {
        levels: 0,
        ..operators()
    };
    let nested = record(&[("x", integer())]);
    assert!(matches!(
        operate(&shallow, "==", &nested, &nested, &mut fresh),
        OperationOutcome::Unfinished
    ));
}

#[test]
fn operations_on_unknown_types_wait_for_a_method() {
    let context = operators();
    let mut fresh = Fresh { meta: 7, tail: 3 };
    let waiting = typed(operate(
        &context,
        "+",
        &Type::Meta(1),
        &integer(),
        &mut fresh,
    ));
    assert_eq!(waiting.obligations.len(), 1);
    assert_eq!(waiting.obligations[0].member, "+");
    assert_eq!(waiting.obligations[0].candidate, Type::Meta(1));
}

#[test]
fn failed_comparisons_keep_what_was_bound() {
    let mut forward = StringMap::new();
    let mut reverse = StringMap::new();
    assert!(!alpha_equivalent_type(
        &Type::Tuple(vec![variable("a"), variable("b")]),
        &Type::Tuple(vec![variable("c"), variable("c")]),
        &mut forward,
        &mut reverse
    ));
    assert_eq!(forward.get("a").map(String::as_str), Some("c"));
    assert!(!forward.contains_key("b"));
    assert_eq!(reverse.get("c").map(String::as_str), Some("a"));
    let mut names = StringSet::new();
    names.insert("a".to_string());
    names.insert("z".to_string());
    let mut bindings = StringMap::new();
    assert!(!owner_pattern_matches(
        &Type::Tuple(vec![variable("a"), variable("b"), variable("z")]),
        &Type::Tuple(vec![integer(), text(), text()]),
        &names,
        &mut bindings
    ));
    assert_eq!(bindings.get("a"), Some(&integer()));
    assert!(!bindings.contains_key("b"));
    assert!(!bindings.contains_key("z"));
}

fn constraint(candidate: &str, member: &str) -> MethodConstraint {
    MethodConstraint {
        candidate: variable(candidate),
        member: member.to_string(),
        params: vec![],
        result: integer(),
    }
}

fn scheme(names: [&str; 2], constraints: Vec<MethodConstraint>) -> NamedMethodType {
    NamedMethodType {
        variables: names.iter().map(|name| name.to_string()).collect(),
        params: vec![variable(names[0])],
        result: variable(names[1]),
        constraints,
        origin: NamedMethodOrigin::Declared,
    }
}

#[test]
fn constraints_may_be_listed_in_another_order() {
    let inherited = scheme(["a", "b"], vec![constraint("a", "size"), constraint("b", "hash")]);
    let renamed = scheme(["x", "y"], vec![constraint("x", "size"), constraint("y", "hash")]);
    let permuted = scheme(["x", "y"], vec![constraint("y", "hash"), constraint("x", "size")]);
    let crossed = scheme(["x", "y"], vec![constraint("y", "size"), constraint("x", "hash")]);
    let fewer = scheme(["x", "y"], vec![constraint("x", "size")]);
    assert!(named_method_schemes_alpha_equivalent(&inherited, &renamed));
    assert!(named_method_schemes_alpha_equivalent(&inherited, &permuted));
    assert!(!named_method_schemes_alpha_equivalent(&inherited, &crossed));
    assert!(!named_method_schemes_alpha_equivalent(&inherited, &fewer));
}

#[test]
fn texts_are_written_as_literals_that_tell_them_apart() {
    assert_eq!(quote_string_literal("a\\n"), "\"a\\\\n\"");
    assert_eq!(quote_string_literal("a\n"), "\"a\\n\"");
    assert_eq!(quote_string_literal("\u{1}f"), "\"\\u{1}f\"");
    assert_eq!(quote_string_literal("\u{1f}"), "\"\\u{1f}\"");
    assert_eq!(quote_string_literal("\u{7f}\t\r"), "\"\\u{7f}\\t\\r\"");
    assert_eq!(quote_string_literal("naïve"), "\"naïve\"");
    assert_eq!(quote_string_literal(""), "\"\"");
}

fn at(kind: ExprKind, start: usize) -> Expr {
    Expr {
        kind,
        span: Span::new(start, start + 1),
    }
}

fn named(name: &str, start: usize) -> Expr {
    at(ExprKind::Name(name.to_string()), start)
}

fn knowing(answers: Vec<(Span, Type)>, rules: Vec<(Span, RuleFacts)>) -> InferenceFacts {
    InferenceFacts {
        definitions: StringMap::new(),
        rules,
        answers,
        misfits: vec![],
    }
}

fn inferred<'a>(expr: &'a Expr, facts: &InferenceFacts) -> (Type, Vec<InferenceEvent<'a>>) {
    let mut fresh = Fresh { meta: 7, tail: 3 };
    let mut events = vec![];
    let ty = infer(expr, facts, &mut fresh, &mut events);
    (ty, events)
}

#[test]
fn operators_are_inferred_through_their_operands() {
    let sum = at(
        ExprKind::Binary {
            left: Box::new(named("a", 1)),
            operator: "+".to_string(),
            operator_span: Span::new(2, 3),
            right: Box::new(named("b", 3)),
        },
        0,
    );
    let binary = || {
        RuleFacts::Binary(BinaryUse {
            context: operators(),
            answers: known(&integer(), &integer()),
            float: FloatFold {
                arithmetic: None,
                order: None,
            },
        })
    };
    let places = || {
        vec![
            (Span::new(1, 2), integer()),
            (Span::new(3, 4), integer()),
        ]
    };
    let facts = knowing(places(), vec![(Span::new(0, 1), binary())]);
    let (ty, events) = inferred(&sum, &facts);
    assert_eq!(ty, integer());
    assert!(events.iter().any(|event| matches!(
        event,
        InferenceEvent::Rule {
            event: RuleEvent::Operation(OperationOutcome::Typed(_)),
            ..
        }
    )));
    let mut last = Fresh {
        meta: u32::MAX,
        tail: 3,
    };
    let mut events = vec![];
    assert_eq!(infer(&sum, &facts, &mut last, &mut events), Type::Deferred);
    assert!(events.iter().any(|event| matches!(
        event,
        InferenceEvent::Rule {
            event: RuleEvent::OutOfNumbers,
            ..
        }
    )));
    let negated = at(
        ExprKind::Unary {
            operator: "-".to_string(),
            operator_span: Span::new(8, 9),
            value: Box::new(named("a", 1)),
        },
        9,
    );
    let unary = |value: Type| {
        vec![(
            Span::new(9, 10),
            RuleFacts::Unary(UnaryUse {
                settled: value.clone(),
                value,
                base: None,
                is_number: false,
                unified: false,
                float: None,
            }),
        )]
    };
    let (ty, _) = inferred(&negated, &knowing(places(), unary(integer())));
    assert_eq!(ty, integer());
    let two = literal_type(Literal::Number("2".to_string()));
    let (ty, _) = inferred(&negated, &knowing(places(), unary(two)));
    assert!(matches!(
        ty,
        Type::Variant(row) if row.entries == vec![RowEntry::Literal {
            value: Literal::Number("-2".to_string())
        }]
    ));
    let (ty, events) = inferred(&negated, &knowing(places(), unary(text())));
    assert_eq!(ty, Type::Deferred);
    assert!(events.iter().any(|event| matches!(
        event,
        InferenceEvent::Rule {
            event: RuleEvent::Unary {
                forgets: true,
                undefined: Some(_),
                ..
            },
            ..
        }
    )));
}

#[test]
fn parts_of_values_are_inferred_through_their_rules() {
    let places = || vec![(Span::new(1, 2), integer()), (Span::new(3, 4), integer())];
    let index = at(
        ExprKind::Index {
            callee: Box::new(named("a", 1)),
            args: vec![named("i", 3)],
        },
        0,
    );
    let of = |receiver: Type, label: Option<&str>| {
        knowing(
            places(),
            vec![(
                Span::new(0, 1),
                RuleFacts::Index(IndexUse {
                    receiver,
                    label: label.map(str::to_string),
                    depends_on_parameter: false,
                }),
            )],
        )
    };
    let (ty, events) = inferred(&index, &of(apply1("Array", text()), None));
    assert_eq!(ty, Type::Optional(Box::new(text())));
    assert!(events.iter().any(|event| matches!(
        event,
        InferenceEvent::Rule {
            event: RuleEvent::Argument { expected, .. },
            ..
        } if *expected == integer()
    )));
    let (ty, _) = inferred(&index, &of(record(&[("x", text())]), Some("x")));
    assert_eq!(ty, text());
    let (ty, events) = inferred(&index, &of(record(&[]), Some("x")));
    assert_eq!(ty, Type::Deferred);
    assert!(events.iter().any(|event| matches!(
        event,
        InferenceEvent::Rule {
            event: RuleEvent::Indexed(ElementFinding::MissingField(label)),
            ..
        } if label == "x"
    )));
    let access = at(
        ExprKind::FieldAccess {
            receiver: Box::new(named("a", 1)),
            field: "x".to_string(),
            field_span: Span::new(2, 3),
            null_safe: false,
        },
        0,
    );
    let reading = |receiver: Type| {
        knowing(
            places(),
            vec![(
                Span::new(0, 1),
                RuleFacts::Field(FieldUse {
                    methods: operators().methods,
                    family_data: StringMap::new(),
                    receiver,
                    whole: None,
                    inner: None,
                    unified: true,
                }),
            )],
        )
    };
    let (ty, _) = inferred(&access, &reading(record(&[("x", text())])));
    assert_eq!(ty, Type::Meta(7));
    let (ty, _) = inferred(&access, &reading(Type::Optional(Box::new(record(&[])))));
    assert_eq!(ty, Type::Optional(Box::new(Type::Meta(7))));
    let propagated = at(
        ExprKind::Propagate {
            value: Box::new(named("a", 1)),
            operator_span: Span::new(2, 3),
            mode: PropagationMode::ReturnError,
        },
        0,
    );
    let result = Type::Apply {
        callee: Box::new(named_builtin("Result")),
        args: vec![integer(), text()],
    };
    let facts = knowing(places(), vec![(Span::new(0, 1), RuleFacts::Propagate(result))]);
    let (ty, events) = inferred(&propagated, &facts);
    assert_eq!(ty, integer());
    assert!(events.iter().any(|event| matches!(
        event,
        InferenceEvent::Rule {
            event: RuleEvent::Propagated { error: Some(error) },
            ..
        } if *error == text()
    )));
}

#[test]
fn calls_and_functions_are_inferred_through_their_rules() {
    let places = || vec![(Span::new(1, 2), integer()), (Span::new(3, 4), integer())];
    let call = at(
        ExprKind::Call {
            callee: Box::new(named("f", 1)),
            args: vec![named("x", 3)],
        },
        0,
    );
    let function = Type::Function {
        params: vec![integer()],
        result: Box::new(text()),
        required: 1,
    };
    let calling = |callee: Type| {
        knowing(
            places(),
            vec![(
                Span::new(0, 1),
                RuleFacts::Call(CallUse {
                    callee,
                    args: vec![integer()],
                    unified: false,
                    result: text(),
                    handled: None,
                }),
            )],
        )
    };
    assert_eq!(inferred(&call, &calling(function.clone())).0, text());
    assert_eq!(inferred(&call, &calling(Type::Meta(1))).0, Type::Deferred);
    let tag = at(
        ExprKind::Call {
            callee: Box::new(at(ExprKind::Tag("Some".to_string()), 1)),
            args: vec![named("x", 3)],
        },
        0,
    );
    let facts = knowing(
        places(),
        vec![(Span::new(0, 1), RuleFacts::Constructor(vec![integer()]))],
    );
    assert_eq!(
        inferred(&tag, &facts).0,
        Type::Variant(tags(vec![("Some", vec![integer()])]))
    );
    let lambda = at(
        ExprKind::Lambda {
            params: vec![Param {
                name: "x".to_string(),
                name_span: Span::new(1, 2),
                comptime: false,
                annotation: None,
                default: None,
            }],
            return_annotation: None,
            requirements: vec![],
            body: Box::new(named("x", 3)),
        },
        0,
    );
    let facts = knowing(
        places(),
        vec![(
            Span::new(0, 1),
            RuleFacts::Lambda(LambdaUse {
                annotations: vec![None],
                annotation: None,
                body: None,
                fits: false,
                resolved_body: Type::Deferred,
                resolved_annotation: Type::Deferred,
            }),
        )],
    );
    assert_eq!(
        inferred(&lambda, &facts).0,
        Type::Function {
            params: vec![Type::Meta(7)],
            result: Box::new(integer()),
            required: 1,
        }
    );
    let arm = |start: usize| MatchArm {
        pattern: Box::new(named("p", 20)),
        guards: vec![],
        body: Box::new(named("b", start)),
    };
    let matching = at(
        ExprKind::Match {
            subject: Box::new(named("s", 1)),
            arms: vec![arm(3), arm(3)],
        },
        0,
    );
    let body = |fits: bool| ArmBody {
        ty: integer(),
        payloads_fit: true,
        fits,
        result: integer(),
    };
    let matched = |selected: Option<usize>, fits: bool| {
        knowing(
            places(),
            vec![(
                Span::new(0, 1),
                RuleFacts::Match(MatchUse {
                    selected,
                    bodies: vec![body(true), body(fits)],
                }),
            )],
        )
    };
    assert_eq!(inferred(&matching, &matched(None, true)).0, Type::Meta(7));
    assert_eq!(inferred(&matching, &matched(None, false)).0, Type::Deferred);
    assert_eq!(inferred(&matching, &matched(Some(1), false)).0, integer());
}

#[test]
fn findings_are_said_unless_they_are_taken_back() {
    let notation = NotationTable {
        rendered: vec![(integer(), "Int".to_string()), (text(), "Text".to_string())],
        inferred: vec![],
        otherwise: "?".to_string(),
    };
    let findings = vec![
        ComparisonFinding::UnlessUnified {
            expected: tags(vec![]),
            actual: tags(vec![]),
            count: 1,
        },
        ComparisonFinding::UnknownTag("A".to_string()),
        ComparisonFinding::Mismatch {
            expected: integer(),
            expected_as: Written::AsType,
            actual: text(),
            actual_as: Written::AsName,
        },
        ComparisonFinding::MissingField("x".to_string()),
        ComparisonFinding::Unify {
            expected: integer(),
            actual: text(),
            instantiated: false,
        },
        ComparisonFinding::NotInUnion {
            literal: Literal::Number("2".to_string()),
            expected: match literal_type(Literal::Number("1".to_string())) {
                Type::Variant(row) => row,
                other => panic!("{other:?}"),
            },
        },
    ];
    let said = |unified: Vec<bool>| {
        let mut log = DiagnosticLog::new();
        report_findings(&mut log, &notation, &findings, &unified, Span::new(1, 2));
        log.diagnostics
            .iter()
            .map(|diagnostic| diagnostic.message.clone())
            .collect::<Vec<_>>()
    };
    assert_eq!(
        said(vec![false, false, false, false, true, false]),
        vec![
            "unexpected variant tag `A`",
            "missing field `x`",
            "literal 2 is not one of 1",
        ]
    );
    assert_eq!(
        said(vec![true, false, false, false, true, false]),
        vec![
            "expected `Int`, found `Text`",
            "missing field `x`",
            "literal 2 is not one of 1",
        ]
    );
    let mut log = DiagnosticLog::new();
    report_findings(
        &mut log,
        &notation,
        &vec![ComparisonFinding::Unify {
            expected: integer(),
            actual: text(),
            instantiated: true,
        }],
        &vec![false],
        Span::new(1, 2),
    );
    assert_eq!(log.diagnostics.len(), 1);
    assert_eq!(log.diagnostics[0].message, "expected `Int`, found `Text`");
}

#[test]
fn types_without_references_are_compared_at_their_depth() {
    let definitions = StringMap::new();
    let recursive = RecursiveTypes { entries: vec![] };
    let context = TypeContext {
        definitions: &definitions,
        recursive: &recursive,
    };
    let nested = Type::Tuple(vec![apply1("Array", record(&[("x", integer())]))]);
    assert_eq!(
        equality_compatibility(&nested, &nested, &context, 4),
        Some(EqualityCompatibility::Comparable)
    );
    assert_eq!(equality_compatibility(&nested, &nested, &context, 2), None);
}

#[test]
fn misfits_of_values_are_said_where_they_stand() {
    let notation = NotationTable {
        rendered: vec![(named_builtin("Age"), "Age".to_string())],
        inferred: vec![],
        otherwise: "?".to_string(),
    };
    let said = |expected: &Type, value: &Expr| {
        let mut log = DiagnosticLog::new();
        for event in &checked(expected, value) {
            report_value_event(&mut log, &notation, event, false);
        }
        log.diagnostics
            .iter()
            .map(|diagnostic| diagnostic.message.clone())
            .collect::<Vec<_>>()
    };
    let word = expr(ExprKind::Literal(Literal::String("\"x\"".to_string())));
    assert_eq!(
        said(&named_builtin("Age"), &word),
        vec!["expected `Age`, found `Text`"]
    );
    let one = literal_type(Literal::Number("1".to_string()));
    let value = expr(ExprKind::Record(vec![
        field("id", number("2")),
        field("age", number("3")),
    ]));
    let messages = said(&record(&[("id", one), ("name", text())]), &value);
    assert_eq!(messages.len(), 3);
    for message in [
        "literal 2 is not one of 1",
        "missing field `name`",
        "unexpected field `age`",
    ] {
        assert!(messages.iter().any(|said| said == message));
    }
    let shape = Type::Variant(tags(vec![("Point", vec![])]));
    assert_eq!(
        said(&shape, &number("1")),
        vec!["expected `?`, found a number literal"]
    );
}

#[test]
fn misfits_of_variants_are_taken_back_where_they_unify() {
    let notation = NotationTable {
        rendered: vec![],
        inferred: vec![],
        otherwise: "?".to_string(),
    };
    let events = || {
        let place = |finding: ComparisonFinding| ValueEvent::Found {
            finding,
            span: Span::new(1, 2),
        };
        vec![
            place(ComparisonFinding::UnlessUnified {
                expected: tags(vec![]),
                actual: tags(vec![]),
                count: 1,
            }),
            place(ComparisonFinding::UnknownTag("A".to_string())),
            place(ComparisonFinding::MissingField("x".to_string())),
        ]
    };
    let said = |unified: bool| {
        let mut log = DiagnosticLog::new();
        report_value_events(&mut log, &notation, &events(), &vec![unified]);
        log.diagnostics.len()
    };
    assert_eq!(said(false), 2);
    assert_eq!(said(true), 1);
}

fn no_words() -> NotationTable {
    NotationTable {
        rendered: vec![],
        inferred: vec![],
        otherwise: "?".to_string(),
    }
}

#[test]
fn findings_without_words_are_handed_back() {
    let findings = vec![
        ComparisonFinding::RigidVariable {
            name: "r".to_string(),
            expected: variable("r"),
            actual: integer(),
        },
        ComparisonFinding::MissingField("x".to_string()),
        ComparisonFinding::UnlessUnified {
            expected: tags(vec![]),
            actual: tags(vec![]),
            count: 1,
        },
        ComparisonFinding::Unfinished {
            expected: integer(),
            actual: text(),
        },
    ];
    let unsaid = |unified: Vec<bool>| {
        let mut log = DiagnosticLog::new();
        let unsaid = report_findings(&mut log, &no_words(), &findings, &unified, Span::new(1, 2));
        assert_eq!(log.diagnostics.len(), 1);
        unsaid
    };
    assert_eq!(unsaid(vec![false; 4]), vec![0, 3]);
    assert_eq!(unsaid(vec![false, false, true, false]), vec![0]);
    assert_eq!(finding_after(&findings, 2, true), 4);
    assert_eq!(finding_after(&findings, 2, false), 3);
    assert_eq!(finding_after(&findings, 0, true), 1);
}

#[test]
fn comparisons_hand_back_rigid_variables() {
    let mut context = comparison();
    let findings = found(&mut context, &variable("r"), &integer());
    let mut log = DiagnosticLog::new();
    let unsaid = report_findings(&mut log, &no_words(), &findings, &vec![], Span::new(1, 2));
    assert!(log.diagnostics.is_empty());
    assert!(matches!(
        unsaid.iter().map(|position| &findings[*position]).collect::<Vec<_>>()[..],
        [ComparisonFinding::RigidVariable { .. }]
    ));
}

#[test]
fn events_without_words_are_handed_back() {
    let mut events = vec![];
    let value = number("1");
    check_value(&mut values(), &integer(), &value, 0, &mut events);
    let mut log = DiagnosticLog::new();
    assert_eq!(report_value_events(&mut log, &no_words(), &events, &vec![false]), vec![0]);
    assert!(log.diagnostics.is_empty());
    assert_eq!(event_after(&events, 0, false), 1);
}

#[test]
fn nesting_is_counted() {
    assert_eq!(count_nesting(&integer()), Some(1));
    assert_eq!(count_nesting(&Type::Optional(Box::new(integer()))), Some(2));
    assert_eq!(count_nesting(&record(&[])), Some(1));
    assert_eq!(count_nesting(&record(&[("x", integer()), ("y", apply1("Array", text()))])), Some(3));
    assert_eq!(
        count_nesting(&Type::Function {
            params: vec![record(&[("x", integer())])],
            result: Box::new(integer()),
            required: 1,
        }),
        Some(3)
    );
    assert_eq!(
        count_nesting(&Type::SlotRecord {
            data: Box::new(row(&[("x", integer())])),
            slots: Box::new(row(&[])),
        }),
        Some(3)
    );
}

#[test]
fn counted_levels_finish_comparisons() {
    let mut context = comparison();
    let nested = record(&[("x", Type::Tuple(vec![integer()]))]);
    assert_eq!(count_levels(&context, &nested, &integer()), Some(4));
    let id = RecursiveTypeId(1);
    let list = record(&[("next", Type::Recursive(id)), ("value", integer())]);
    context.recursive = RecursiveTypes {
        entries: vec![(id, list.clone())],
    };
    let levels = count_levels(&context, &Type::Recursive(id), &list).unwrap();
    assert_eq!(levels, 1 + 2 + 2 * 3);
    for (expected, actual) in [
        (Type::Recursive(id), list.clone()),
        (list.clone(), Type::Recursive(id)),
        (Type::Recursive(id), Type::Recursive(id)),
        (nested.clone(), nested),
    ] {
        let levels = count_levels(&context, &expected, &actual).unwrap();
        let mut findings = vec![];
        compare_types(&mut context, &facts(), &expected, &actual, levels, &mut findings);
        assert!(findings.is_empty());
    }
    context.active = vec![id];
    assert_eq!(count_levels(&context, &Type::Recursive(id), &integer()), Some(2));
}

#[test]
fn values_are_checked_at_the_levels_of_type_and_value() {
    let one = literal_type(Literal::Number("1".to_string()));
    let pair = Type::Tuple(vec![one]);
    let value = expr(ExprKind::Tuple(vec![number("1")]));
    let unfinished = |levels: usize| {
        let mut events = vec![];
        check_value(&mut values(), &pair, &value, levels, &mut events);
        events
            .iter()
            .any(|event| matches!(event, ValueEvent::Unfinished { .. }))
    };
    assert_eq!(count_value_nesting(&value), Some(2));
    let levels = count_value_levels(&values(), &pair, &value).unwrap();
    assert_eq!(levels, 2 + 2 + 1);
    assert!(unfinished(1));
    assert!(!unfinished(levels));
    assert!(!unfinished(levels + 5));
}

#[test]
fn nesting_of_values_is_counted() {
    assert_eq!(count_value_nesting(&number("1")), Some(1));
    let grouped = expr(ExprKind::Group(Box::new(number("1"))));
    assert_eq!(count_value_nesting(&grouped), Some(2));
    let deep = expr(ExprKind::Record(vec![
        field("x", number("1")),
        field("y", expr(ExprKind::Array(vec![RecordEntry::Element(Box::new(grouped))]))),
    ]));
    assert_eq!(count_value_nesting(&deep), Some(4));
}

#[test]
fn more_levels_find_the_same_in_values() {
    let one = literal_type(Literal::Number("1".to_string()));
    let value = expr(ExprKind::Record(vec![field("id", number("2"))]));
    let expected = record(&[("id", one), ("name", text())]);
    let messages = |levels: usize| {
        let mut events = vec![];
        check_value(&mut values(), &expected, &value, levels, &mut events);
        format!("{events:?}")
    };
    let levels = count_value_levels(&values(), &expected, &value).unwrap();
    assert_eq!(messages(levels), messages(levels + 1));
    assert_eq!(messages(levels), messages(100));
    assert_ne!(messages(levels), messages(1));
}

#[test]
fn families_that_refer_to_themselves_are_compared_to_the_end() {
    let mut context = comparison();
    let tree = |inner: Type| record(&[("left", Type::Optional(Box::new(inner))), ("size", integer())]);
    context
        .family_data
        .insert("Tree".to_string(), tree(named_builtin("Tree")));
    context.family_owners.insert("Tree".to_string());
    let shape = tree(tree(tree(record(&[]))));
    let levels = 3 * count_levels(&context, &shape, &named_builtin("Tree")).unwrap();
    assert_eq!(levels, 3 * (7 + 1));
    let mut findings = vec![];
    compare_types(
        &mut context,
        &facts(),
        &shape,
        &named_builtin("Tree"),
        levels,
        &mut findings,
    );
    assert!(findings.is_empty());
    let wrong = tree(tree(record(&[("depth", integer())])));
    let levels = 3 * count_levels(&context, &wrong, &named_builtin("Tree")).unwrap();
    let mut findings = vec![];
    compare_types(
        &mut context,
        &facts(),
        &wrong,
        &named_builtin("Tree"),
        levels,
        &mut findings,
    );
    assert!(matches!(
        &findings[..],
        [ComparisonFinding::MissingField(name)] if name == "depth"
    ));
}

#[test]
fn one_settled_side_is_enough_to_compare_values() {
    let definitions = StringMap::new();
    let id = RecursiveTypeId(1);
    let endless = apply1("Array", Type::Recursive(id));
    let recursive = RecursiveTypes {
        entries: vec![(id, endless.clone())],
    };
    let context = TypeContext {
        definitions: &definitions,
        recursive: &recursive,
    };
    let settled = apply1("Array", apply1("Array", integer()));
    let levels = count_nesting(&settled).unwrap();
    assert_eq!(levels, 3);
    for (left, right) in [(&settled, &endless), (&endless, &settled)] {
        assert_eq!(
            equality_compatibility(left, right, &context, levels),
            Some(EqualityCompatibility::Mismatched)
        );
    }
}

#[test]
fn operations_on_records_end_at_the_levels_of_their_fields() {
    let mut fresh = Fresh { meta: 1, tail: 1 };
    let nested = record(&[("x", Type::Tuple(vec![integer()]))]);
    for (levels, ends) in [(0, false), (1, false), (2, true)] {
        let context = OperatorContext {
            levels,
            ..operators()
        };
        let outcome = operate(&context, "==", &nested, &nested, &mut fresh);
        assert_eq!(!matches!(outcome, OperationOutcome::Unfinished), ends);
    }
}
