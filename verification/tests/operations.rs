//! Operators, literals that are folded, and comparisons.
use aven_check::collections::StringMap;
use aven_check::equality::{
    equality_base_kind, equality_compatibility, EqualityBaseKind, EqualityCompatibility,
    TypeContext,
};
use aven_check::folding::{
    compare_ordering, fold_binary_literals, fold_int_arithmetic, fold_number_arithmetic,
    fold_number_comparison, fold_number_negation, fold_unary_literal, parse_integer_literal,
    quote_string_literal, FloatFold, NumberOrder,
};
use aven_check::methods::MethodSignature;
use aven_check::normalize::RecursiveTypes;
use aven_check::operators::{
    check_integer_divisor, close_binary, coalesce_fallback_is_dead, infer_binary,
    infer_binary_type, infer_equality_type, infer_null_coalesce_type, infer_numeric_binary_type,
    infer_same_named_binary_type, infer_unary, integer_divisor_parameter_index,
    integer_literal_text_is_zero, invalid_binary_result_type, invalid_unary, operator_kind,
    static_integer_divisor_type_is_zero, widen_equality_operand, widen_numeric_operand, BinaryEnd,
    BinaryFacts, BinaryStep, ClosingFacts, DivisorVerdict, InvalidOperation, NumericOperand,
    OperandFacts, OperandRule, OperatorKind, PendingResult,
};
use aven_check::rows::{apply1, literal_type};
use aven_check::span::Span;
use aven_check::syntax::{Expr, ExprKind};
use aven_check::type_ops::named_builtin;
use aven_check::types::{Literal, Row, RowEntry, RowTail, Type};

fn number(text: &str) -> Literal {
    Literal::Number(text.to_string())
}

fn no_float() -> FloatFold {
    FloatFold {
        arithmetic: None,
        order: None,
    }
}

#[test]
fn integers_are_folded_exactly() {
    assert_eq!(fold_int_arithmetic("+", 2, 3), Some(5));
    assert_eq!(fold_int_arithmetic("-", 2, 3), Some(-1));
    assert_eq!(fold_int_arithmetic("*", 4, -3), Some(-12));
    assert_eq!(fold_int_arithmetic("/", -7, 2), Some(-3));
    assert_eq!(fold_int_arithmetic("/", 7, 0), None);
    assert_eq!(fold_int_arithmetic("+", i64::MAX, 1), None);
    assert_eq!(fold_int_arithmetic("/", i64::MIN, -1), None);
    assert_eq!(fold_int_arithmetic("%", 7, 2), None);
    assert_eq!(
        fold_number_arithmetic("+", "1_000", "1", &None),
        Some(number("1001"))
    );
    assert_eq!(parse_integer_literal("1_0"), Some(10));
    assert_eq!(parse_integer_literal("1.0"), None);
}

#[test]
fn mixed_numbers_are_not_folded() {
    assert_eq!(fold_number_arithmetic("+", "1", "1.5", &Some("2.5".to_string())), None);
    assert_eq!(
        fold_number_arithmetic("+", "1.0", "1.5", &Some("2.5".to_string())),
        Some(number("2.5"))
    );
    assert_eq!(fold_number_comparison("<", "1", "1.5", Some(NumberOrder::Less)), None);
    assert_eq!(
        fold_number_comparison("<", "1.0", "1.5", Some(NumberOrder::Less)),
        Some(true)
    );
    assert_eq!(fold_number_comparison("<", "2", "10", None), Some(true));
    assert_eq!(fold_number_comparison(">=", "2", "10", None), Some(false));
}

#[test]
fn negation_of_integers_undoes_itself() {
    assert_eq!(fold_number_negation("5", &None), Some(number("-5")));
    assert_eq!(fold_number_negation("-5", &None), Some(number("5")));
    assert_eq!(fold_number_negation("-9223372036854775808", &None), None);
    assert_eq!(
        fold_number_negation("1.5", &Some("-1.5".to_string())),
        Some(number("-1.5"))
    );
}

#[test]
fn opposite_comparisons_are_opposite() {
    for order in [NumberOrder::Less, NumberOrder::Equal, NumberOrder::Greater] {
        assert_ne!(compare_ordering("<", order), compare_ordering(">=", order));
        assert_ne!(compare_ordering(">", order), compare_ordering("<=", order));
        assert_ne!(compare_ordering("==", order), compare_ordering("!=", order));
        assert!(!compare_ordering("+", order));
    }
    assert!(compare_ordering("<", NumberOrder::Less));
}

#[test]
fn literals_of_one_kind_are_folded() {
    let text = |text: &str| Literal::String(text.to_string());
    assert_eq!(
        fold_binary_literals("+", &text("\"a\""), &text("\"b\""), "a", "b", &no_float()),
        Some(text("\"ab\""))
    );
    assert_eq!(
        fold_binary_literals("==", &text("\"a\""), &text("\"b\""), "a", "b", &no_float()),
        Some(Literal::Bool(false))
    );
    assert_eq!(
        fold_binary_literals(
            "&&",
            &Literal::Bool(true),
            &Literal::Bool(false),
            "",
            "",
            &no_float()
        ),
        Some(Literal::Bool(false))
    );
    assert_eq!(
        fold_binary_literals("+", &number("1"), &text("\"b\""), "", "b", &no_float()),
        None
    );
    assert_eq!(
        fold_unary_literal("!", &Literal::Bool(true), &None),
        Some(Literal::Bool(false))
    );
    assert_eq!(fold_unary_literal("-", &number("3"), &None), Some(number("-3")));
    assert_eq!(quote_string_literal("a\"b"), "\"a\\\"b\"");
}

#[test]
fn operators_go_by_groups() {
    assert_eq!(operator_kind("+"), OperatorKind::Add);
    assert_eq!(operator_kind("^"), OperatorKind::Numeric);
    assert_eq!(operator_kind("<="), OperatorKind::Numeric);
    assert_eq!(operator_kind("!="), OperatorKind::Equality);
    assert_eq!(operator_kind("||"), OperatorKind::Logical);
    assert_eq!(operator_kind("??"), OperatorKind::Coalesce);
    assert_eq!(operator_kind("<>"), OperatorKind::Other);
}

#[test]
fn numbers_are_added_with_promotion() {
    let int = named_builtin("Int");
    let float = named_builtin("Float");
    assert!(matches!(
        infer_numeric_binary_type("+", &int, &float, false),
        OperandRule::Accept(ty) if ty == float
    ));
    assert!(matches!(
        infer_numeric_binary_type("<", &int, &int, false),
        OperandRule::Accept(ty) if ty == named_builtin("Bool")
    ));
    assert!(matches!(
        infer_numeric_binary_type("+", &named_builtin("Text"), &int, false),
        OperandRule::Reject
    ));
    assert!(matches!(
        infer_same_named_binary_type(&named_builtin("Bool"), &named_builtin("Bool"), "Bool"),
        OperandRule::Accept(_)
    ));
}

#[test]
fn unary_operators_take_numbers_and_truth_values() {
    assert!(matches!(
        infer_unary("-", &named_builtin("Int"), false),
        OperandRule::Accept(ty) if ty == named_builtin("Int")
    ));
    assert!(matches!(
        infer_unary("!", &Type::Meta(1), false),
        OperandRule::UnifyLeft { .. }
    ));
    assert!(matches!(
        infer_unary("!", &named_builtin("Int"), false),
        OperandRule::Reject
    ));
    assert_eq!(invalid_unary("-", &Type::Meta(1)), None);
    assert_eq!(invalid_unary("!", &named_builtin("Int")), Some(Type::Deferred));
}

#[test]
fn divisors_must_not_be_zero() {
    let int = named_builtin("Int");
    assert!(integer_literal_text_is_zero("0_0"));
    assert!(!integer_literal_text_is_zero("10"));
    assert!(matches!(
        check_integer_divisor("/", true, Some(true), &int),
        DivisorVerdict::Zero { written: true }
    ));
    assert!(matches!(
        check_integer_divisor("/", true, None, &literal_type(number("2"))),
        DivisorVerdict::NonZero
    ));
    assert!(matches!(
        check_integer_divisor("%", true, None, &int),
        DivisorVerdict::MayBeZero
    ));
    assert!(matches!(
        check_integer_divisor("+", true, Some(true), &int),
        DivisorVerdict::NotChecked
    ));
    assert_eq!(
        static_integer_divisor_type_is_zero(&literal_type(number("0"))),
        Some(true)
    );
    assert_eq!(static_integer_divisor_type_is_zero(&int), None);
}

#[test]
fn divisors_that_are_parameters_are_found_innermost_first() {
    let mut outer = StringMap::new();
    outer.insert("n".to_string(), 0usize);
    let mut inner = StringMap::new();
    inner.insert("n".to_string(), 2usize);
    let name = Expr {
        kind: ExprKind::Name("n".to_string()),
        span: Span::new(0, 1),
    };
    assert_eq!(integer_divisor_parameter_index(&name, &vec![outer, inner]), Some(2));
    assert_eq!(integer_divisor_parameter_index(&name, &vec![]), None);
}

#[test]
fn fallbacks_that_are_never_used_are_found() {
    let optional = Type::Optional(Box::new(named_builtin("Int")));
    assert!(!coalesce_fallback_is_dead(&optional, false));
    assert!(coalesce_fallback_is_dead(&named_builtin("Int"), false));
    assert!(!coalesce_fallback_is_dead(&named_builtin("Int"), true));
    assert_eq!(
        infer_null_coalesce_type(&optional, &named_builtin("Int"), true, true),
        Some(named_builtin("Int"))
    );
}

#[test]
fn binary_operations_are_planned_in_order() {
    let int = named_builtin("Int");
    let facts = |operator: &'static str| BinaryFacts {
        operator,
        in_dependency: false,
        custom_operator: false,
        method_operator: true,
        left: &int,
        right: &int,
        left_is_family: false,
        family_method: None,
        right_has_base: false,
        right_span: Span::new(0, 1),
        folded: None,
    };
    assert!(matches!(
        infer_binary(&facts("+")).step,
        BinaryStep::Rules(OperatorKind::Add)
    ));
    assert!(matches!(infer_binary(&facts("|>")).step, BinaryStep::Pipe));
    let custom = BinaryFacts {
        in_dependency: true,
        custom_operator: true,
        ..facts("<>")
    };
    assert!(matches!(infer_binary(&custom).step, BinaryStep::RejectCustomInfix));
    let method = MethodSignature {
        params: vec![named_builtin("Age")],
        result: named_builtin("Text"),
        predicates: vec![],
    };
    let family = BinaryFacts {
        left_is_family: true,
        family_method: Some(&method),
        ..facts("+")
    };
    match infer_binary(&family).step {
        BinaryStep::FamilyMethod { method, param } => {
            assert_eq!(method.result, named_builtin("Text"));
            assert_eq!(param, Some(&named_builtin("Age")));
        }
        other => panic!("{:?}", other),
    }
    assert!(infer_binary(&family).checks_divisor);
    assert!(!infer_binary(&facts("|>")).checks_divisor);
    let folded = BinaryFacts {
        folded: Some(number("3")),
        right_has_base: true,
        ..facts("+")
    };
    let plan = infer_binary(&folded);
    assert!(plan.widens_right);
    assert!(matches!(plan.step, BinaryStep::Folded(literal) if literal == number("3")));
    let function = Type::Function {
        params: vec![],
        result: Box::new(named_builtin("Int")),
        required: 0,
    };
    let functions = BinaryFacts {
        right: &function,
        ..facts("==")
    };
    assert!(matches!(
        infer_binary(&functions).step,
        BinaryStep::CompareFunctions { left: false }
    ));
}

fn operands<'a>(operator: &'a str, left: &'a Type, right: &'a Type) -> OperandFacts<'a> {
    OperandFacts {
        operator,
        family_result: None,
        left,
        right,
        left_base: None,
        right_base: None,
        left_is_number: false,
        right_is_number: false,
        records: EqualityCompatibility::Unknown,
        right_fits_payload: false,
        payload_fits_right: false,
    }
}

#[test]
fn operators_go_by_their_rules() {
    let int = named_builtin("Int");
    let text = named_builtin("Text");
    let word = literal_type(Literal::String("a".to_string()));
    let one = literal_type(number("1"));
    let mut next = 7;
    let typing = infer_binary_type(&operands("+", &word, &text), &mut next);
    assert!(matches!(typing.rule, OperandRule::Accept(ty) if ty == named_builtin("Text")));
    assert_eq!(next, 7);
    let typing = infer_binary_type(&operands("*", &one, &int), &mut next);
    assert_eq!(typing.left, Type::Meta(7));
    assert_eq!(next, 8);
    assert!(matches!(
        typing.rule,
        OperandRule::UnifyLeft { with, result }
            if with == named_builtin("Int") && result == named_builtin("Int")
    ));
    let typing = infer_binary_type(&operands("==", &one, &one), &mut next);
    assert!(matches!(typing.rule, OperandRule::UnifyOperands { result: Some(_) }));
    assert_eq!(next, 10);
    let typing = infer_binary_type(&operands("&&", &int, &text), &mut next);
    assert!(matches!(typing.rule, OperandRule::Reject));
    let age = OperandFacts {
        family_result: Some(&text),
        ..operands("<>", &int, &int)
    };
    let typing = infer_binary_type(&age, &mut next);
    assert!(matches!(typing.rule, OperandRule::Accept(ty) if ty == named_builtin("Text")));
    let fallback = OperandFacts {
        payload_fits_right: true,
        ..operands("??", &int, &text)
    };
    let typing = infer_binary_type(&fallback, &mut next);
    assert!(matches!(typing.rule, OperandRule::Accept(ty) if ty == named_builtin("Text")));
}

fn closing<'a>(operator: &'a str, left: &'a Type, right: &'a Type) -> ClosingFacts<'a> {
    ClosingFacts {
        operator,
        method_operator: true,
        ruled: None,
        left,
        right,
        both_unknown_and_unnamed: false,
        left_afterwards: left,
        settled_left: left,
        settled_right: right,
        records: EqualityCompatibility::Mismatched,
        left_depends_on_param: false,
        right_depends_on_param: false,
    }
}

#[test]
fn binary_operations_are_closed() {
    let int = named_builtin("Int");
    let text = named_builtin("Text");
    let unknown = Type::Meta(0);
    let outcome = close_binary(ClosingFacts {
        ruled: Some(named_builtin("Int")),
        ..closing("??", &int, &int)
    });
    assert!(matches!(outcome.end, BinaryEnd::Ruled(ty) if ty == named_builtin("Int")));
    assert!(outcome.reports_dead_fallback);
    let outcome = close_binary(closing("<", &unknown, &int));
    assert!(matches!(
        outcome.end,
        BinaryEnd::Pending(operation) if operation.result == PendingResult::Bool
    ));
    let outcome = close_binary(closing("+", &int, &text));
    assert!(matches!(
        outcome.end,
        BinaryEnd::Invalid(InvalidOperation::Undefined(ty)) if ty == named_builtin("Int")
    ));
    assert!(outcome.checks_divisor);
    let record = Type::Record(Row {
        entries: vec![],
        tail: RowTail::Closed,
    });
    let outcome = close_binary(ClosingFacts {
        method_operator: false,
        right_depends_on_param: true,
        ..closing("==", &record, &record)
    });
    assert!(matches!(
        outcome.end,
        BinaryEnd::Invalid(InvalidOperation::Comparable)
    ));
    assert!(!outcome.checks_divisor);
}

#[test]
fn number_literals_count_as_unknown_numbers() {
    assert!(matches!(
        widen_numeric_operand(&literal_type(number("1")), None),
        NumericOperand::FreshNumeric
    ));
    assert!(matches!(
        widen_numeric_operand(&literal_type(number("1.5")), None),
        NumericOperand::Known(ty) if ty == named_builtin("Float")
    ));
    assert!(matches!(
        widen_numeric_operand(&named_builtin("Age"), Some(named_builtin("Int"))),
        NumericOperand::Known(ty) if ty == named_builtin("Int")
    ));
}

#[test]
fn operands_of_equality_widen_inside_types() {
    let mut next = 4;
    let array = apply1("Array", literal_type(number("1")));
    assert_eq!(
        widen_equality_operand(&array, &mut next),
        apply1("Array", Type::Meta(4))
    );
    assert_eq!(next, 5);
    assert_eq!(
        widen_equality_operand(&literal_type(Literal::Bool(true)), &mut next),
        named_builtin("Bool")
    );
    assert_eq!(next, 5);
}

#[test]
fn comparable_types_are_compared() {
    let definitions = StringMap::new();
    let recursive = RecursiveTypes { entries: vec![] };
    let context = TypeContext {
        definitions: &definitions,
        recursive: &recursive,
    };
    let record = |ty: &str| {
        Type::Record(Row {
            entries: vec![RowEntry::Field {
                name: "x".to_string(),
                ty: named_builtin(ty),
            }],
            tail: RowTail::Closed,
        })
    };
    assert_eq!(
        equality_compatibility(&record("Int"), &record("Int"), &context, 8),
        Some(EqualityCompatibility::Comparable)
    );
    assert_eq!(
        equality_compatibility(&record("Int"), &record("Text"), &context, 8),
        Some(EqualityCompatibility::Mismatched)
    );
    assert_eq!(
        equality_base_kind(&literal_type(number("1"))),
        Some(EqualityBaseKind::Number)
    );
    assert_eq!(equality_base_kind(&named_builtin("User")), None);
    assert!(matches!(
        infer_equality_type(
            &named_builtin("Int"),
            &named_builtin("Text"),
            false,
            EqualityCompatibility::Unknown
        ),
        OperandRule::CompareTypes
    ));
}

#[test]
fn operations_that_are_not_defined_still_have_a_type() {
    let int = named_builtin("Int");
    let text = named_builtin("Text");
    assert_eq!(invalid_binary_result_type("<", &int, &text), named_builtin("Bool"));
    assert_eq!(invalid_binary_result_type("&&", &int, &text), named_builtin("Bool"));
}
