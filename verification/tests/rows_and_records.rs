//! Rows, their edits, and record values.
use aven_check::collections::StringMap;
use aven_check::records::{infer_record_entries, EntryEffect};
use aven_check::row_edits::{
    fold_row_entry, fold_unrolled_iteration_body, plan_row_entry, BodyStep,
    DuplicateRowLabelContext, EntryPlan, RowEdit, RowIssue, RowKind, TailMerge,
};
use aven_check::rows::{
    apply1, builtin_type_statics, empty_variant_type, is_result_type, label_literal, literal_type,
    peel_empty_values, render_empty_values, result_type, result_type_args, rewrap_empty_values,
    row_entry_index, row_field_type, single_tag_payload_type, string_literal_label,
    variant_payload_lookup, EmptyValue, LabelReflection,
};
use aven_check::span::Span;
use aven_check::syntax::{Expr, ExprKind, RecordEntry};
use aven_check::type_ops::named_builtin;
use aven_check::types::{Literal, Row, RowEntry, RowTail, Type};

fn field(name: &str, ty: &str) -> RowEntry {
    RowEntry::Field {
        name: name.to_string(),
        ty: named_builtin(ty),
    }
}

fn tag(name: &str, payload: Vec<Type>) -> RowEntry {
    RowEntry::Tag {
        name: name.to_string(),
        payload,
    }
}

fn closed(entries: Vec<RowEntry>) -> Row {
    Row {
        entries,
        tail: RowTail::Closed,
    }
}

fn point() -> Row {
    closed(vec![field("x", "Int"), field("y", "Int")])
}

fn edit(row: Row, edit: RowEdit) -> Result<Row, Vec<RowIssue>> {
    let outcome = fold_row_entry(row, edit, &StringMap::new(), 9);
    outcome.row.ok_or(outcome.issues)
}

#[test]
fn labels_are_found_in_rows() {
    let row = point();
    assert_eq!(row_entry_index(&row.entries, "y"), Some(1));
    assert_eq!(row_entry_index(&row.entries, "z"), None);
    assert_eq!(row_field_type(&row, "x"), Some(&named_builtin("Int")));
    let variant = closed(vec![tag("Ok", vec![named_builtin("Int")])]);
    assert_eq!(row_field_type(&variant, "Ok"), None);
    assert!(matches!(variant_payload_lookup(&variant, "Ok"), Some(Some(_))));
}

#[test]
fn adding_a_label_twice_is_refused() {
    let issues = edit(
        point(),
        RowEdit::Add {
            entry: field("x", "Text"),
            context: DuplicateRowLabelContext::RecordAdd,
        },
    )
    .unwrap_err();
    assert!(matches!(
        &issues[..],
        [RowIssue::Duplicate { label, context: DuplicateRowLabelContext::RecordAdd }] if label == "x"
    ));
}

#[test]
fn replacing_needs_the_field_in_a_closed_row() {
    let row = edit(
        point(),
        RowEdit::Replace {
            name: "y".to_string(),
            ty: named_builtin("Text"),
        },
    )
    .unwrap();
    assert_eq!(row, closed(vec![field("x", "Int"), field("y", "Text")]));
    let issues = edit(
        point(),
        RowEdit::Replace {
            name: "z".to_string(),
            ty: named_builtin("Text"),
        },
    )
    .unwrap_err();
    assert!(matches!(&issues[..], [RowIssue::ReplaceAbsent(name)] if name == "z"));
}

#[test]
fn deleting_undoes_adding_a_field() {
    let added = edit(
        point(),
        RowEdit::Add {
            entry: field("z", "Int"),
            context: DuplicateRowLabelContext::RecordAdd,
        },
    )
    .unwrap();
    let deleted = edit(
        added,
        RowEdit::Delete {
            labels: vec!["z".to_string()],
        },
    )
    .unwrap();
    assert_eq!(deleted, point());
    let issues = edit(
        point(),
        RowEdit::Delete {
            labels: vec!["z".to_string()],
        },
    )
    .unwrap_err();
    assert!(matches!(&issues[..], [RowIssue::DeleteAbsent(name)] if name == "z"));
}

#[test]
fn renaming_back_undoes_renaming_a_field() {
    let renamed = edit(
        point(),
        RowEdit::Rename {
            from: "x".to_string(),
            to: "z".to_string(),
        },
    )
    .unwrap();
    assert_eq!(renamed, closed(vec![field("z", "Int"), field("y", "Int")]));
    let back = edit(
        renamed,
        RowEdit::Rename {
            from: "z".to_string(),
            to: "x".to_string(),
        },
    )
    .unwrap();
    assert_eq!(back, point());
    let absent = edit(
        point(),
        RowEdit::Rename {
            from: "a".to_string(),
            to: "b".to_string(),
        },
    )
    .unwrap_err();
    assert!(matches!(&absent[..], [RowIssue::RenameAbsent(_)]));
    let present = edit(
        point(),
        RowEdit::Rename {
            from: "x".to_string(),
            to: "y".to_string(),
        },
    )
    .unwrap_err();
    assert!(matches!(&present[..], [RowIssue::RenameTargetPresent { .. }]));
}

#[test]
fn variants_hold_one_kind_of_entry() {
    let issues = edit(
        closed(vec![tag("A", vec![])]),
        RowEdit::AddVariant {
            entry: RowEntry::Literal {
                value: Literal::Number("1".to_string()),
            },
        },
    )
    .unwrap_err();
    assert!(matches!(&issues[..], [RowIssue::MixedEntries(_)]));
}

#[test]
fn spreading_keeps_labels_distinct() {
    let issues = edit(
        point(),
        RowEdit::Merge {
            source: closed(vec![field("x", "Text")]),
            overwrite: false,
            kind: RowKind::Record,
        },
    )
    .unwrap_err();
    assert!(matches!(
        &issues[..],
        [RowIssue::Duplicate { context: DuplicateRowLabelContext::Spread, .. }]
    ));
    let merged = edit(
        point(),
        RowEdit::Merge {
            source: closed(vec![field("x", "Text"), field("z", "Int")]),
            overwrite: true,
            kind: RowKind::Record,
        },
    )
    .unwrap();
    assert_eq!(
        merged,
        closed(vec![field("x", "Text"), field("y", "Int"), field("z", "Int")])
    );
}

#[test]
fn opening_a_row_lets_it_have_more() {
    let row = edit(point(), RowEdit::Open).unwrap();
    assert_eq!(row.tail, RowTail::Open);
}

#[test]
fn record_values_stop_at_the_first_refused_entry() {
    let add = |name: &str| EntryEffect::Edit {
        edit: RowEdit::Add {
            entry: field(name, "Int"),
            context: DuplicateRowLabelContext::RecordValueAdd,
        },
        fresh: 0,
    };
    let record = infer_record_entries(vec![add("x"), EntryEffect::Skip, add("y")], &StringMap::new());
    assert_eq!(record.ty, Type::Record(point()));
    assert_eq!(record.stopped, None);
    let stopped = infer_record_entries(vec![add("x"), add("x"), add("y")], &StringMap::new());
    assert_eq!(stopped.ty, Type::Deferred);
    assert_eq!(stopped.stopped, Some(1));
    assert!(matches!(&stopped.issues[..], [RowIssue::Duplicate { .. }]));
    let refused = infer_record_entries(vec![EntryEffect::Refuse], &StringMap::new());
    assert_eq!(refused.stopped, Some(0));
    assert!(refused.issues.is_empty());
}

fn spread_of(entries: Vec<RowEntry>, tail: RowTail, overwrite: bool, fresh: u32) -> EntryEffect {
    EntryEffect::Edit {
        edit: RowEdit::Merge {
            source: Row { entries, tail },
            overwrite,
            kind: RowKind::Record,
        },
        fresh,
    }
}

fn optional_field(name: &str, ty: &str) -> RowEntry {
    RowEntry::Field {
        name: name.to_string(),
        ty: Type::Optional(Box::new(named_builtin(ty))),
    }
}

#[test]
fn patches_of_records_are_compared_with_their_fields() {
    let named = EntryEffect::Edit {
        edit: RowEdit::Add {
            entry: field("name", "Text"),
            context: DuplicateRowLabelContext::RecordValueAdd,
        },
        fresh: 0,
    };
    let patch = spread_of(vec![optional_field("name", "Int")], RowTail::Closed, true, 0);
    let record = infer_record_entries(vec![named, patch], &StringMap::new());
    assert_eq!(record.ty, Type::Record(closed(vec![field("name", "Text")])));
    assert_eq!(
        record.goals,
        vec![(1, named_builtin("Text"), named_builtin("Int"))]
    );
    assert!(record.merges.is_empty());
}

#[test]
fn goals_before_a_refused_entry_are_kept() {
    let add = |name: &str| EntryEffect::Edit {
        edit: RowEdit::Add {
            entry: field(name, "Int"),
            context: DuplicateRowLabelContext::RecordValueAdd,
        },
        fresh: 0,
    };
    let patch = spread_of(vec![optional_field("x", "Int")], RowTail::Closed, true, 0);
    let late = spread_of(vec![optional_field("x", "Text")], RowTail::Closed, true, 0);
    let record = infer_record_entries(
        vec![add("x"), patch, EntryEffect::Refuse, late],
        &StringMap::new(),
    );
    assert_eq!(record.stopped, Some(2));
    assert_eq!(
        record.goals,
        vec![(1, named_builtin("Int"), named_builtin("Int"))]
    );
}

#[test]
fn unknown_tails_of_spreads_are_merged() {
    for overwrite in [false, true] {
        let record = infer_record_entries(
            vec![
                spread_of(vec![], RowTail::Var(3), true, 10),
                EntryEffect::Skip,
                spread_of(vec![], RowTail::Var(4), overwrite, 11),
            ],
            &StringMap::new(),
        );
        assert_eq!(
            record.merges,
            vec![(
                2,
                TailMerge {
                    left: 3,
                    right: 4,
                    merged: 11,
                    overwrite
                }
            )]
        );
        assert!(matches!(
            record.ty,
            Type::Record(Row {
                tail: RowTail::Var(11),
                ..
            })
        ));
    }
}

#[test]
fn entries_are_planned_by_the_kind_of_row() {
    let span = Span::new(0, 1);
    let open = RecordEntry::Open { span };
    assert!(matches!(plan_row_entry(&open, RowKind::Record, false, true), EntryPlan::Open));
    assert!(matches!(plan_row_entry(&open, RowKind::Record, true, true), EntryPlan::Refuse));
    let delete = RecordEntry::Delete {
        name: "x".to_string(),
        span,
    };
    assert!(matches!(
        plan_row_entry(&delete, RowKind::Record, false, true),
        EntryPlan::Delete { name: "x" }
    ));
    assert!(matches!(plan_row_entry(&delete, RowKind::Record, false, false), EntryPlan::Refuse));
    let undefined = RecordEntry::Field {
        name: "x".to_string(),
        name_span: span,
        value: Box::new(Expr {
            kind: ExprKind::Undefined,
            span,
        }),
        overwrite: false,
        span,
    };
    assert!(matches!(plan_row_entry(&undefined, RowKind::Record, true, true), EntryPlan::Skip));
    assert!(matches!(
        plan_row_entry(&undefined, RowKind::Variant, true, true),
        EntryPlan::Refuse
    ));
}

#[test]
fn guards_decide_whether_a_body_is_added() {
    assert_eq!(fold_unrolled_iteration_body(None), BodyStep::Add);
    assert_eq!(fold_unrolled_iteration_body(Some(Some(true))), BodyStep::Add);
    assert_eq!(fold_unrolled_iteration_body(Some(Some(false))), BodyStep::Skip);
    assert_eq!(fold_unrolled_iteration_body(Some(None)), BodyStep::LookThenRefuse);
}

#[test]
fn wrapping_undoes_peeling_empties() {
    let ty = Type::Optional(Box::new(Type::Nullable(Box::new(named_builtin("Int")))));
    let (empties, payload) = peel_empty_values(&ty);
    assert_eq!(empties, vec![EmptyValue::Undefined, EmptyValue::Null]);
    assert_eq!(payload, &named_builtin("Int"));
    assert_eq!(rewrap_empty_values(payload.clone(), &empties), ty);
    assert_eq!(render_empty_values(&vec![EmptyValue::Null]), "`null`");
}

#[test]
fn results_are_made_of_two_types() {
    let ty = result_type(named_builtin("Int"), named_builtin("Text"));
    assert_eq!(
        result_type_args(&ty),
        Some((&named_builtin("Int"), &named_builtin("Text")))
    );
    assert!(is_result_type(&ty));
    assert!(!is_result_type(&apply1("Array", named_builtin("Int"))));
    assert_eq!(empty_variant_type(), Type::Variant(closed(vec![])));
    let ok = Type::Variant(closed(vec![tag("Ok", vec![named_builtin("Int")])]));
    assert_eq!(single_tag_payload_type(&ok, "Ok"), Some(named_builtin("Int")));
    assert_eq!(single_tag_payload_type(&ok, "Err"), None);
}

#[test]
fn labels_are_double_quoted_texts() {
    assert_eq!(
        string_literal_label("\"name\"", "name".to_string()),
        Some("name".to_string())
    );
    assert_eq!(string_literal_label("'name'", "name".to_string()), None);
    assert_eq!(string_literal_label("\"", String::new()), None);
    assert_eq!(label_literal("name"), Literal::String("\"name\"".to_string()));
    assert_eq!(
        literal_type(Literal::Bool(true)),
        Type::Variant(closed(vec![RowEntry::Literal {
            value: Literal::Bool(true)
        }]))
    );
    assert_eq!(LabelReflection::from_name("keysOf"), Some(LabelReflection::KeysOf));
    assert_eq!(LabelReflection::from_name("tagsOf"), Some(LabelReflection::TagsOf));
    assert_eq!(LabelReflection::from_name("keys"), None);
}

#[test]
fn maps_carry_statics() {
    let statics = builtin_type_statics();
    let map = statics.iter().find(|(name, _)| name == "Map").unwrap();
    let members: Vec<&str> = map.1.iter().map(|(name, _)| name.as_str()).collect();
    assert!(members.contains(&"empty"));
    assert!(members.contains(&"from"));
}
