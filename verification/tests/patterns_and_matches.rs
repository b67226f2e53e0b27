//! Patterns, the arms of a match, and what they cover.
use aven_check::arms::{
    check_match_arms, combine_match_arm_body_types, infer_match, matched_type,
    merged_pattern_local_types, report_incompatible_match_arm_results, ArmBody,
    MatchArmCombination, MatchPlan, MatchStep,
};
use aven_check::collections::{StringMap, StringSet};
use aven_check::matches::{check_match_exhaustiveness, MatchGap};
use aven_check::patterns::{
    arm_covered_tags, collect_flat_or_pattern_binding_mismatches, collect_known_pattern_types,
    collect_record_pattern_rest_binders, comptime_selected_match_arm, flatten_or_alternatives,
    import_pattern_source_for_binder, is_catch_all_pattern, pure_tag_pattern,
    type_export_pattern_binders, BoundAlternative,
};
use aven_check::rows::{literal_type, ComptimeValue, EmptyValue, LocalValueType};
use aven_check::span::Span;
use aven_check::syntax::{Expr, ExprKind, MatchArm, RecordEntry};
use aven_check::type_ops::named_builtin;
use aven_check::types::{Literal, Row, RowEntry, RowTail, Type};

fn expr(kind: ExprKind) -> Expr {
    Expr {
        kind,
        span: Span::new(0, 1),
    }
}

fn name(text: &str) -> Expr {
    expr(ExprKind::Name(text.to_string()))
}

fn tag(text: &str) -> Expr {
    expr(ExprKind::Tag(text.to_string()))
}

fn number(text: &str) -> Literal {
    Literal::Number(text.to_string())
}

fn literal(text: &str) -> Expr {
    expr(ExprKind::Literal(number(text)))
}

fn call(callee: Expr, args: Vec<Expr>) -> Expr {
    expr(ExprKind::Call {
        callee: Box::new(callee),
        args,
    })
}

fn or(left: Expr, right: Expr) -> Expr {
    expr(ExprKind::Binary {
        left: Box::new(left),
        operator: "|".to_string(),
        operator_span: Span::new(0, 1),
        right: Box::new(right),
    })
}

fn group(inner: Expr) -> Expr {
    expr(ExprKind::Group(Box::new(inner)))
}

fn arm(pattern: Expr) -> MatchArm {
    MatchArm {
        pattern: Box::new(pattern),
        guards: vec![],
        body: Box::new(name("body")),
    }
}

fn tags(entries: Vec<(&str, Vec<Type>)>) -> Type {
    Type::Variant(Row {
        entries: entries
            .into_iter()
            .map(|(name, payload)| RowEntry::Tag {
                name: name.to_string(),
                payload,
            })
            .collect(),
        tail: RowTail::Closed,
    })
}

fn shorthand(name: &str) -> RecordEntry {
    RecordEntry::Shorthand {
        name: name.to_string(),
        name_span: Span::new(0, 1),
        span: Span::new(0, 1),
    }
}

fn rename(from: &str, to: &str) -> RecordEntry {
    RecordEntry::Rename {
        from: from.to_string(),
        from_span: Span::new(0, 1),
        to: to.to_string(),
        span: Span::new(0, 1),
    }
}

fn rest(binder: &str) -> RecordEntry {
    RecordEntry::Spread {
        value: Box::new(name(binder)),
        overwrite: false,
        span: Span::new(0, 1),
    }
}

#[test]
fn grouping_does_not_change_alternatives() {
    let flat = or(or(tag("A"), tag("B")), tag("C"));
    let grouped = or(tag("A"), group(or(tag("B"), tag("C"))));
    assert_eq!(flatten_or_alternatives(&flat).len(), 3);
    assert_eq!(flatten_or_alternatives(&grouped).len(), 3);
    assert_eq!(arm_covered_tags(&flat), vec!["A", "B", "C"]);
    assert_eq!(arm_covered_tags(&grouped), vec!["A", "B", "C"]);
}

#[test]
fn payload_patterns_cover_their_tag_only_if_they_take_everything() {
    assert!(is_catch_all_pattern(&name("x")));
    assert!(is_catch_all_pattern(&name("_")));
    assert!(!is_catch_all_pattern(&tag("A")));
    assert_eq!(pure_tag_pattern(&tag("A")), Some(("A", 0)));
    assert_eq!(pure_tag_pattern(&call(tag("A"), vec![name("x")])), Some(("A", 1)));
    assert_eq!(pure_tag_pattern(&name("x")), None);
}

#[test]
fn uncovered_tags_are_listed() {
    let subject = tags(vec![("A", vec![]), ("B", vec![]), ("C", vec![])]);
    let definitions = StringMap::new();
    let some = check_match_exhaustiveness(&vec![arm(tag("B"))], &subject, &definitions);
    assert!(matches!(some.gap, MatchGap::MissingTags(names) if names == vec!["A", "C"]));
    let all = check_match_exhaustiveness(
        &vec![arm(or(tag("A"), tag("B"))), arm(tag("C"))],
        &subject,
        &definitions,
    );
    assert!(matches!(all.gap, MatchGap::Covered));
    let default = check_match_exhaustiveness(&vec![arm(name("_"))], &subject, &definitions);
    assert!(matches!(default.gap, MatchGap::Covered));
    let guarded = MatchArm {
        guards: vec![name("maybe")],
        ..arm(name("_"))
    };
    let found = check_match_exhaustiveness(&vec![guarded], &subject, &definitions);
    assert!(matches!(found.gap, MatchGap::MissingTags(names) if names.len() == 3));
}

#[test]
fn uncovered_literals_and_empties_are_listed() {
    let literals = Type::Variant(Row {
        entries: vec![
            RowEntry::Literal { value: number("1") },
            RowEntry::Literal { value: number("2") },
        ],
        tail: RowTail::Closed,
    });
    let definitions = StringMap::new();
    let found = check_match_exhaustiveness(&vec![arm(literal("1"))], &literals, &definitions);
    assert!(matches!(found.gap, MatchGap::MissingLiterals(missing) if missing == vec![number("2")]));
    let unreachable = check_match_exhaustiveness(
        &vec![arm(literal("1")), arm(literal("2")), arm(literal("3"))],
        &literals,
        &definitions,
    );
    assert_eq!(unreachable.unreachable.len(), 1);
    assert_eq!(unreachable.unreachable[0].0, number("3"));
    let optional = Type::Optional(Box::new(tags(vec![("A", vec![])])));
    let empties = check_match_exhaustiveness(&vec![arm(tag("A"))], &optional, &definitions);
    assert_eq!(empties.missing_empty, vec![EmptyValue::Undefined]);
    let open = Type::Variant(Row {
        entries: vec![],
        tail: RowTail::Open,
    });
    let gap = check_match_exhaustiveness(&vec![arm(tag("A"))], &open, &definitions);
    assert!(matches!(gap.gap, MatchGap::OpenVariant));
}

#[test]
fn arms_are_selected_by_a_known_value() {
    let arms = vec![arm(literal("1")), arm(literal("2")), arm(name("_"))];
    let two = ComptimeValue::Literal(number("2"));
    assert_eq!(comptime_selected_match_arm(&arms, &two), Some(1));
    let nine = ComptimeValue::Literal(number("9"));
    assert_eq!(comptime_selected_match_arm(&arms, &nine), Some(2));
    let labels = ComptimeValue::LabelSet(vec![]);
    assert_eq!(comptime_selected_match_arm(&arms, &labels), None);
}

#[test]
fn patterns_give_names_the_types_of_what_they_match() {
    let definitions = StringMap::new();
    let mut known = StringMap::new();
    let subject = tags(vec![("Ok", vec![named_builtin("Int")])]);
    collect_known_pattern_types(
        &definitions,
        &call(tag("Ok"), vec![name("value")]),
        &subject,
        &mut known,
    );
    assert_eq!(known.get("value"), Some(&named_builtin("Int")));
    let record = Type::Record(Row {
        entries: vec![
            RowEntry::Field {
                name: "x".to_string(),
                ty: named_builtin("Int"),
            },
            RowEntry::Field {
                name: "y".to_string(),
                ty: named_builtin("Text"),
            },
        ],
        tail: RowTail::Closed,
    });
    let mut known = StringMap::new();
    let pattern = expr(ExprKind::Record(vec![rename("x", "left"), rest("others")]));
    collect_known_pattern_types(&definitions, &pattern, &record, &mut known);
    assert_eq!(known.get("left"), Some(&named_builtin("Int")));
    assert_eq!(known.get("x"), None);
    assert_eq!(
        known.get("others"),
        Some(&Type::Record(Row {
            entries: vec![RowEntry::Field {
                name: "y".to_string(),
                ty: named_builtin("Text"),
            }],
            tail: RowTail::Closed,
        }))
    );
}

fn known(locals: &[(String, LocalValueType)]) -> Vec<(&str, Option<&Type>)> {
    locals
        .iter()
        .map(|(name, local)| match local {
            LocalValueType::Known(ty) => (name.as_str(), Some(ty)),
            _ => (name.as_str(), None),
        })
        .collect()
}

#[test]
fn alternatives_agree_on_the_types_of_names() {
    let definitions = StringMap::new();
    let subject = tags(vec![
        ("A", vec![named_builtin("Int")]),
        ("B", vec![named_builtin("Int")]),
        ("C", vec![named_builtin("Text")]),
    ]);
    let one = |tag_name: &str| call(tag(tag_name), vec![name("n")]);
    let names = vec![vec!["n".to_string()], vec!["n".to_string()]];
    let same = or(one("A"), one("B"));
    let locals = merged_pattern_local_types(&definitions, &same, Some(&subject), &names);
    assert_eq!(known(&locals), vec![("n", Some(&named_builtin("Int")))]);
    let other = or(one("A"), one("C"));
    let locals = merged_pattern_local_types(&definitions, &other, Some(&subject), &names);
    assert_eq!(known(&locals), vec![("n", None)]);
    let single = one("C");
    let locals = merged_pattern_local_types(
        &definitions,
        &single,
        Some(&subject),
        &vec![vec!["n".to_string()]],
    );
    assert_eq!(known(&locals), vec![("n", Some(&named_builtin("Text")))]);
    let unknown = merged_pattern_local_types(
        &definitions,
        &or(name("b"), name("a")),
        None,
        &vec![vec!["b".to_string()], vec!["a".to_string()]],
    );
    assert_eq!(known(&unknown), vec![("a", None), ("b", None)]);
}

#[test]
fn alternatives_must_bind_the_same_names() {
    let alternative = |names: &[&str], start: usize| BoundAlternative {
        span: Span::new(start, start + 1),
        names: names.iter().map(|name| name.to_string()).collect(),
    };
    let mismatches = collect_flat_or_pattern_binding_mismatches(&vec![
        alternative(&["b", "a"], 0),
        alternative(&["a", "b"], 2),
        alternative(&["b", "c"], 4),
    ]);
    assert_eq!(mismatches.len(), 1);
    assert_eq!(mismatches[0].span, Span::new(4, 5));
    assert_eq!(mismatches[0].names, vec!["a", "c"]);
}

#[test]
fn record_patterns_name_what_they_take() {
    let pattern = expr(ExprKind::Record(vec![
        shorthand("User"),
        rename("Group", "Team"),
        rest("others"),
        rest("_"),
    ]));
    let mut binders = vec![];
    collect_record_pattern_rest_binders(&pattern, &mut binders);
    assert_eq!(binders, vec!["others"]);
    assert_eq!(import_pattern_source_for_binder(&pattern, "Team"), Some("Group"));
    assert_eq!(import_pattern_source_for_binder(&pattern, "User"), Some("User"));
    assert_eq!(import_pattern_source_for_binder(&pattern, "Group"), None);
    let mut exports = StringSet::new();
    exports.insert("Group".to_string());
    let types = type_export_pattern_binders(&pattern, &exports);
    assert!(types.contains("Team"));
    assert!(!types.contains("User"));
}

fn body(ty: Type, fits: bool) -> ArmBody {
    ArmBody {
        result: ty.clone(),
        ty,
        payloads_fit: fits,
        fits,
    }
}

#[test]
fn variants_of_arms_are_united() {
    let bodies = vec![
        body(tags(vec![("A", vec![])]), true),
        body(tags(vec![("B", vec![named_builtin("Int")])]), true),
    ];
    let combined = combine_match_arm_body_types(&bodies, Type::Meta(1));
    assert_eq!(
        matched_type(combined),
        tags(vec![("A", vec![]), ("B", vec![named_builtin("Int")])])
    );
    let conflict = combine_match_arm_body_types(
        &vec![
            body(tags(vec![("A", vec![])]), true),
            body(literal_type(number("1")), true),
        ],
        Type::Meta(1),
    );
    assert!(matches!(
        &conflict,
        MatchArmCombination::Conflict { arm: 1, earlier } if *earlier == tags(vec![("A", vec![])])
    ));
    assert_eq!(matched_type(conflict), Type::Deferred);
    let payloads = combine_match_arm_body_types(
        &vec![
            body(tags(vec![("A", vec![named_builtin("Int")])]), true),
            body(tags(vec![("A", vec![named_builtin("Text")])]), false),
        ],
        Type::Meta(1),
    );
    assert!(matches!(payloads, MatchArmCombination::Conflict { arm: 1, .. }));
}

#[test]
fn other_arms_must_produce_one_type() {
    let fits = combine_match_arm_body_types(
        &vec![body(named_builtin("Int"), true), body(named_builtin("Int"), true)],
        Type::Meta(1),
    );
    assert!(matches!(fits, MatchArmCombination::Joined(Type::Meta(1))));
    let differs = combine_match_arm_body_types(
        &vec![body(named_builtin("Int"), true), body(named_builtin("Text"), false)],
        Type::Meta(1),
    );
    assert!(matches!(
        differs,
        MatchArmCombination::Conflict { arm: 1, earlier } if earlier == named_builtin("Int")
    ));
    assert!(report_incompatible_match_arm_results(
        2,
        false,
        false,
        &named_builtin("Int"),
        &named_builtin("Text")
    ));
    assert!(!report_incompatible_match_arm_results(
        1,
        false,
        false,
        &named_builtin("Int"),
        &named_builtin("Text")
    ));
    assert!(!report_incompatible_match_arm_results(
        2,
        false,
        false,
        &Type::Meta(1),
        &named_builtin("Text")
    ));
}

#[test]
fn matches_are_checked_arm_by_arm() {
    let subject = name("subject");
    let arms = vec![
        MatchArm {
            guards: vec![name("guard")],
            ..arm(tag("A"))
        },
        arm(name("_")),
    ];
    let steps = check_match_arms(&subject, &arms, false);
    assert!(matches!(
        &steps[..],
        [
            MatchStep::Subject(_),
            MatchStep::Open(_),
            MatchStep::Guard(_),
            MatchStep::CheckBody(_),
            MatchStep::Close,
            MatchStep::Open(_),
            MatchStep::CheckBody(_),
            MatchStep::Close,
            MatchStep::CompareResults
        ]
    ));
    let steps = check_match_arms(&subject, &arms[1..].iter().map(|_| arm(name("_"))).collect(), true)
        .len();
    assert_eq!(steps, 4);
    assert_eq!(infer_match(0, None), MatchPlan::Deferred);
    assert_eq!(infer_match(2, Some(1)), MatchPlan::Selected(1));
    assert_eq!(infer_match(2, None), MatchPlan::All);
}
