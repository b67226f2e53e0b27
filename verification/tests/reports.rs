//! What is said of a module, and when it is said once.
use aven_check::attachments::AttachmentIssue;
use aven_check::diagnostics::{Code, Diagnostic, DiagnosticLog, Severity};
use aven_check::families::FamilyIssue;
use aven_check::findings::{attachment_diagnostic, entry_diagnostic, family_diagnostic};
use aven_check::matches::MatchGap;
use aven_check::methods::MethodPredicate;
use aven_check::notation::{
    render_method_signature, render_predicate_requirement, NotationTable, TypeNotation,
};
use aven_check::patterns::OrPatternBindingMismatch;
use aven_check::providers::{BaseProblem, EntryAction, ProviderIssue};
use aven_check::reports::list_names;
use aven_check::row_edits::{DuplicateRowLabelContext, RowIssue};
use aven_check::rows::{result_type, EmptyValue, VariantEntryKind};
use aven_check::span::Span;
use aven_check::syntax::{Expr, ExprKind};
use aven_check::type_ops::named_builtin;
use aven_check::types::{Literal, Type};

const HERE: Span = Span { start: 4, end: 9 };

fn said(report: impl Fn(&mut DiagnosticLog)) -> Diagnostic {
    let mut log = DiagnosticLog::new();
    report(&mut log);
    assert_eq!(log.diagnostics.len(), 1);
    log.diagnostics.remove(0)
}

fn check(report: impl Fn(&mut DiagnosticLog), message: &str, code: Code) {
    let diagnostic = said(report);
    assert_eq!(diagnostic.message, message);
    assert_eq!(diagnostic.code, Some(code));
    assert_eq!(diagnostic.labels[0].span, HERE);
}

fn notation() -> NotationTable {
    NotationTable {
        rendered: vec![
            (named_builtin("Int"), "Int".to_string()),
            (named_builtin("Text"), "Text".to_string()),
        ],
        inferred: vec![
            (named_builtin("Int"), "Int".to_string()),
            (named_builtin("Text"), "Text".to_string()),
        ],
        otherwise: "_".to_string(),
    }
}

#[test]
fn mismatches_name_both_types() {
    let diagnostic = said(|log| log.report_type_mismatch("Int", "Text", HERE));
    assert_eq!(diagnostic.severity, Severity::Error);
    assert_eq!(diagnostic.code, Some(Code::TypeMismatch));
    assert!(diagnostic.labels[0].text.contains("Int") || diagnostic.message.contains("Int"));
}

#[test]
fn missing_and_unexpected_fields_are_named() {
    check(
        |log| log.report_missing_field("name", HERE),
        "missing field `name`",
        Code::TypeMissingField,
    );
    check(
        |log| log.report_unexpected_field("name", HERE),
        "unexpected field `name`",
        Code::TypeUnexpectedField,
    );
}

#[test]
fn names_that_are_not_bound_are_said_once() {
    let mut log = DiagnosticLog::new();
    log.report_unbound_name("x", HERE);
    log.report_unbound_name("x", HERE);
    assert_eq!(log.diagnostics.len(), 1);
    assert_eq!(log.diagnostics[0].code, Some(Code::NameUnbound));
    log.report_unbound_name("x", Span::new(20, 21));
    assert_eq!(log.diagnostics.len(), 2);
}

#[test]
fn imports_are_said_once() {
    let mut log = DiagnosticLog::new();
    log.report_unresolved_import("./a", HERE);
    log.report_unresolved_import("./a", HERE);
    assert_eq!(log.diagnostics.len(), 1);
    assert_eq!(log.diagnostics[0].code, Some(Code::ModuleUnresolvedImport));
    assert_eq!(
        said(|log| log.report_dynamic_import(HERE)).code,
        Some(Code::ModuleDynamicImport)
    );
    assert_eq!(
        said(|log| log.report_unsupported_import_root("/etc", HERE)).code,
        Some(Code::ModuleUnsupportedRoot)
    );
}

#[test]
fn results_that_are_not_used_are_a_warning() {
    let diagnostic = said(|log| log.report_unused_result(HERE));
    assert_eq!(diagnostic.severity, Severity::Warning);
    assert_eq!(diagnostic.message, "unused `Result`");
    assert_eq!(diagnostic.labels[0].text, "this `Result` is unused");
    assert_eq!(diagnostic.code, Some(Code::TypeUnusedResult));
}

#[test]
fn arms_that_differ_are_named() {
    let diagnostic = said(|log| {
        log.report_incompatible_match_arm_type_conflict("Int", "Text", HERE)
    });
    assert_eq!(diagnostic.message, "match arms produce incompatible types");
    assert_eq!(diagnostic.labels[0].text, "this arm produces `Text`");
    assert_eq!(
        diagnostic.notes,
        vec![
            "earlier arms produce `Int`; make all arms produce the same type, or annotate the match result type"
        ]
    );
}

#[test]
fn codes_belong_to_their_reports() {
    let one = Literal::Number("1".to_string());
    let cases: Vec<(Diagnostic, Code)> = vec![
        (
            said(|log| log.report_lowercase_variant_tag("ok", HERE)),
            Code::TypeLowercaseVariantTag,
        ),
        (
            said(|log| log.report_non_liftable_into_runtime(HERE)),
            Code::ComptimeNonLiftableIntoRuntime,
        ),
        (
            said(|log| log.report_comptime_evaluation_unsupported(HERE)),
            Code::ComptimeEvaluationUnsupported,
        ),
        (
            said(|log| log.report_unresolved_binding(HERE)),
            Code::TypeUnresolvedBinding,
        ),
        (
            said(|log| log.report_spread_shape_unknown(HERE)),
            Code::TypeSpreadShapeUnknown,
        ),
        (
            said(|log| log.report_duplicate_local_from_spread("x", HERE)),
            Code::NameDuplicateLocal,
        ),
        (
            said(|log| log.report_duplicate_declaration_from_spread("x", HERE)),
            Code::NameDuplicateDeclaration,
        ),
        (
            said(|log| log.report_propagate_needs_result(HERE)),
            Code::TypePropagateNeedsResult,
        ),
        (
            said(|log| log.report_propagate_not_result(HERE)),
            Code::TypePropagateNotResult,
        ),
        (
            said(|log| log.report_tuple_index_not_comptime(HERE)),
            Code::TypeTupleIndexNotComptime,
        ),
        (
            said(|log| log.report_tuple_index_out_of_range(HERE, 3, 2)),
            Code::TypeTupleIndexOutOfRange,
        ),
        (
            said(|log| log.report_literal_not_in_union(&one, &vec![], HERE)),
            Code::TypeLiteralNotInUnion,
        ),
        (
            said(|log| log.report_wide_value_into_literal_union("1 | 2", "Int", HERE)),
            Code::TypeWideValueIntoLiteralUnion,
        ),
        (
            said(|log| log.report_open_variant_not_assignable(HERE)),
            Code::TypeOpenVariantNotAssignable,
        ),
        (
            said(|log| log.report_open_variant_non_exhaustive(HERE)),
            Code::TypeNonExhaustiveMatch,
        ),
        (
            said(|log| log.report_unreachable_literal_match_arm(&one, HERE)),
            Code::TypeUnreachableMatchArm,
        ),
        (
            said(|log| log.report_missing_empty_match_values(&vec![EmptyValue::Null], HERE)),
            Code::TypeNonExhaustiveMatch,
        ),
        (
            said(|log| log.report_redundant_undefined_field(HERE, "-x")),
            Code::RecordRedundantUndefined,
        ),
        (
            said(|log| log.report_replace_absent_field("x", HERE)),
            Code::TypeReplaceAbsentField,
        ),
        (
            said(|log| log.report_delete_absent_field("x", HERE)),
            Code::TypeDeleteAbsentField,
        ),
        (
            said(|log| log.report_rename_absent_field("x", HERE)),
            Code::TypeRenameAbsentField,
        ),
        (
            said(|log| log.report_custom_infix_in_dependency("<>", HERE)),
            Code::ParseCustomInfixNotRoot,
        ),
        (
            said(|log| log.report_decode_missing_format("`Json`", HERE)),
            Code::TypeDecodeFormat,
        ),
        (
            said(|log| log.report_encode_invalid_format("`Json`", HERE)),
            Code::TypeEncodeFormat,
        ),
        (
            said(|log| log.report_unbound_method_parameterized_owner("Array", "map", HERE)),
            Code::TypeUnboundMethodParameterizedOwner,
        ),
        (
            said(|log| log.report_closed_requirement(HERE)),
            Code::ParseMissingMethodBoundOpen,
        ),
        (
            said(|log| log.report_unknown_type_name("Missing", HERE)),
            Code::TypeUnknownName,
        ),
        (
            said(|log| log.report_division_by_zero("this is zero", "div", HERE)),
            Code::TypeDivisionByZero,
        ),
        (
            said(|log| log.report_divisor_not_static("div", HERE)),
            Code::TypeDivisorNotStatic,
        ),
        (
            said(|log| log.report_coalesce_never_empty("Int", HERE)),
            Code::TypeCoalesceNeverEmpty,
        ),
        (
            said(|log| log.report_empty_field_access("user", "`null`", HERE)),
            Code::TypeUnguardedEmptyAccess,
        ),
    ];
    for (diagnostic, code) in cases {
        assert_eq!(diagnostic.code, Some(code), "{}", diagnostic.message);
        assert_eq!(diagnostic.labels[0].span, HERE, "{}", diagnostic.message);
        assert!(!diagnostic.message.is_empty());
    }
}

#[test]
fn alternatives_that_bind_other_names_are_said() {
    let diagnostic = said(|log| {
        log.report_or_pattern_binding_mismatch(&OrPatternBindingMismatch {
            span: HERE,
            names: vec!["a".to_string(), "b".to_string()],
        })
    });
    assert_eq!(diagnostic.code, Some(Code::TypeOrPatternBindingMismatch));
    assert_eq!(list_names(&vec!["a".to_string(), "b".to_string()]), "`a`, `b`");
}

#[test]
fn gaps_of_matches_are_said() {
    let mut log = DiagnosticLog::new();
    log.report_match_gap(&MatchGap::Covered, HERE);
    assert!(log.diagnostics.is_empty());
    log.report_match_gap(&MatchGap::MissingTags(vec!["A".to_string()]), HERE);
    log.report_match_gap(
        &MatchGap::MissingLiterals(vec![Literal::Bool(true)]),
        Span::new(20, 22),
    );
    log.report_match_gap(&MatchGap::OpenVariant, Span::new(30, 32));
    assert_eq!(log.diagnostics.len(), 3);
    assert!(log
        .diagnostics
        .iter()
        .all(|diagnostic| diagnostic.code == Some(Code::TypeNonExhaustiveMatch)));
}

#[test]
fn issues_of_rows_are_said() {
    let mut log = DiagnosticLog::new();
    for (index, issue) in [
        RowIssue::ReplaceAbsent("x".to_string()),
        RowIssue::Duplicate {
            label: "x".to_string(),
            context: DuplicateRowLabelContext::Spread,
        },
        RowIssue::DeleteAbsent("x".to_string()),
        RowIssue::RenameAbsent("x".to_string()),
        RowIssue::RenameTargetPresent {
            from: "x".to_string(),
            to: "y".to_string(),
        },
        RowIssue::MixedEntries(VariantEntryKind::Tag),
    ]
    .iter()
    .enumerate()
    {
        log.report_row_issue(issue, Span::new(index, index + 1));
    }
    let codes: Vec<Option<Code>> = log.diagnostics.iter().map(|found| found.code).collect();
    assert_eq!(codes.len(), 6);
    assert_eq!(codes[0], Some(Code::TypeReplaceAbsentField));
    assert_eq!(codes[2], Some(Code::TypeDeleteAbsentField));
    assert_eq!(codes[3], Some(Code::TypeRenameAbsentField));
    assert_eq!(codes[5], Some(Code::TypeMixedVariantEntries));
}

#[test]
fn issues_of_families_are_said() {
    let diagnostic = family_diagnostic(
        &notation(),
        &FamilyIssue::DuplicateMethod {
            name: "size".to_string(),
            span: HERE,
        },
    );
    assert_eq!(diagnostic.message, "duplicate method `size`");
    assert_eq!(diagnostic.labels[0].text, "method already declared");
    let diagnostic = family_diagnostic(
        &notation(),
        &FamilyIssue::FieldConflict {
            name: "x".to_string(),
            span: HERE,
        },
    );
    assert_eq!(
        diagnostic.message,
        "method `x` conflicts with a data field of the same name"
    );
    let mut log = DiagnosticLog::new();
    log.report_provider_issue(&ProviderIssue::RepeatedField {
        name: "x".to_string(),
        span: HERE,
    });
    log.report_provider_issue(&ProviderIssue::UnsupportedBase {
        problem: BaseProblem::Scalar,
        span: Span::new(20, 21),
    });
    assert_eq!(log.diagnostics.len(), 2);
}

#[test]
fn issues_of_attachments_and_entries_are_said() {
    for issue in [
        AttachmentIssue::Untrusted { span: HERE },
        AttachmentIssue::InvalidOwner { span: HERE },
        AttachmentIssue::UnknownOwner {
            head: "User".to_string(),
            span: HERE,
        },
        AttachmentIssue::WrongArity {
            head: "Array".to_string(),
            arity: 1,
            found: 2,
            span: HERE,
        },
        AttachmentIssue::UntypedParameter { span: HERE },
        AttachmentIssue::Overlap {
            member: "f".to_string(),
            span: HERE,
            previous: Span::new(0, 1),
        },
        AttachmentIssue::Intrinsic {
            member: "trim".to_string(),
            span: HERE,
        },
    ] {
        let diagnostic = attachment_diagnostic(&issue);
        assert_eq!(diagnostic.labels[0].span, HERE);
        assert_eq!(diagnostic.severity, Severity::Error);
    }
    assert!(entry_diagnostic(&EntryAction::Accept).is_none());
    let slot = entry_diagnostic(&EntryAction::RejectSlot {
        name: "size",
        span: HERE,
    });
    assert_eq!(
        slot.unwrap().message,
        "instance-carried method slot `size` is not supported"
    );
    assert!(entry_diagnostic(&EntryAction::RejectTransform { span: HERE }).is_some());
    assert!(entry_diagnostic(&EntryAction::RejectValue { span: HERE }).is_some());
    assert_eq!(
        said(|log| log.report_nested_attachment(HERE)).message,
        "builtin method attachments are top-level declarations"
    );
    assert_eq!(
        said(|log| log.report_attachment_without_body("f", HERE)).message,
        "builtin method slot `f` requires a source implementation"
    );
}

#[test]
fn operands_and_divisors_are_said() {
    let int_type = named_builtin("Int");
    let text_type = named_builtin("Text");
    let diagnostic = said(|log| {
        log.report_invalid_operator_operands(&notation(), "-", &int_type, &text_type, HERE)
    });
    assert_eq!(diagnostic.code, Some(Code::TypeInvalidOperatorOperands));
    assert!(diagnostic.message.contains('-'));
    let mut log = DiagnosticLog::new();
    log.maybe_report_integer_divisor("/", true, Some(false), &int_type, HERE);
    assert!(log.diagnostics.is_empty());
    log.maybe_report_integer_divisor("/", true, Some(true), &int_type, HERE);
    assert_eq!(log.diagnostics[0].code, Some(Code::TypeDivisionByZero));
    let mut log = DiagnosticLog::new();
    log.maybe_report_integer_divisor("%", true, None, &int_type, HERE);
    assert_eq!(log.diagnostics[0].code, Some(Code::TypeDivisorNotStatic));
    let mut log = DiagnosticLog::new();
    log.maybe_report_coalesce_never_empty(&notation(), &int_type, HERE, false);
    assert_eq!(log.diagnostics[0].code, Some(Code::TypeCoalesceNeverEmpty));
    let mut log = DiagnosticLog::new();
    log.maybe_report_coalesce_never_empty(&notation(), &int_type, HERE, true);
    assert!(log.diagnostics.is_empty());
}

#[test]
fn empty_receivers_are_said() {
    let receiver = Expr {
        kind: ExprKind::Name("user".to_string()),
        span: Span::new(0, 4),
    };
    let diagnostic = said(|log| {
        log.report_unguarded_empty_field_access(&receiver, HERE, &vec![EmptyValue::Undefined])
    });
    assert_eq!(diagnostic.code, Some(Code::TypeUnguardedEmptyAccess));
    let mut log = DiagnosticLog::new();
    log.check_type_name("Int", HERE, true);
    assert!(log.diagnostics.is_empty());
    log.check_type_name("Missing", HERE, false);
    assert_eq!(log.diagnostics[0].code, Some(Code::TypeUnknownName));
}

#[test]
fn requirements_are_written_with_their_types() {
    let wanted = MethodPredicate {
        candidate: Type::Meta(1),
        member: "size".to_string(),
        params: vec![named_builtin("Text")],
        result: named_builtin("Int"),
        operator_span: HERE,
        divisor_context: None,
        binding: None,
        call_span: None,
        obligation_id: None,
    };
    assert_eq!(
        render_method_signature(
            &notation(),
            &vec![named_builtin("Text")],
            &named_builtin("Int")
        ),
        "Text -> Int"
    );
    assert!(render_predicate_requirement(&notation(), &wanted).contains("size"));
    assert_eq!(notation().render(&Type::Meta(9)), "_");
    let diagnostic =
        said(|log| log.report_missing_method(&notation(), &named_builtin("Int"), &wanted));
    assert!(diagnostic.message.contains("size"));
    let ambiguous = said(|log| log.report_ambiguous_method_scheme(Some("f"), 1, &vec![]));
    assert!(!ambiguous.message.is_empty());
}

#[test]
fn repeated_reports_are_dropped() {
    let mut log = DiagnosticLog::new();
    let wrong = || {
        Diagnostic::error("wrong".to_string())
            .with_code(Code::TypeMismatch)
            .with_label(HERE, "here".to_string())
    };
    log.push(wrong());
    log.push(wrong());
    log.push(Diagnostic::error("bare".to_string()));
    log.push(Diagnostic::error("bare".to_string()));
    log.deduplicate_diagnostics_since(0);
    let kept: Vec<&str> = log
        .diagnostics
        .iter()
        .map(|diagnostic| diagnostic.message.as_str())
        .collect();
    assert_eq!(kept.iter().filter(|message| **message == "wrong").count(), 1);
    let before = log.diagnostics.len();
    log.push_unique_diagnostic(wrong());
    assert_eq!(log.diagnostics.len(), before);
}

#[test]
fn restoring_forgets_what_was_said_since() {
    let mut log = DiagnosticLog::new();
    log.report_missing_field("a", HERE);
    let snapshot = log.diagnostic_snapshot();
    log.report_missing_field("b", Span::new(20, 21));
    log.report_unbound_name("x", Span::new(30, 31));
    log.restore_diagnostic_snapshot(snapshot);
    assert_eq!(log.diagnostics.len(), 1);
    log.report_unbound_name("x", Span::new(30, 31));
    assert_eq!(log.diagnostics.len(), 2);
}

#[test]
fn results_are_not_dropped_and_only_results_are_passed_on() {
    let result = result_type(named_builtin("Int"), named_builtin("Text"));
    check(
        |log| log.report_unused_result_if_dropped(&result, HERE),
        "unused `Result`",
        Code::TypeUnusedResult,
    );
    check(
        |log| {
            log.report_propagate_not_result_if_concrete(&named_builtin("Int"), HERE);
            log.report_propagate_not_result_if_concrete(&named_builtin("Int"), HERE);
        },
        "propagation operator requires a `Result` value",
        Code::TypePropagateNotResult,
    );
    let mut log = DiagnosticLog::new();
    log.report_unused_result_if_dropped(&named_builtin("Int"), HERE);
    log.report_propagate_not_result_if_concrete(&result, HERE);
    log.report_propagate_not_result_if_concrete(&Type::Deferred, HERE);
    assert!(log.diagnostics.is_empty());
}
