//! Bodies, blocks and the order in which modules are checked.
use aven_check::arguments::{
    imported_field, unknown_argument_function, ArgumentCheck, ArgumentStep, IndexFallback,
    check_call_arg_types_against_params, check_unevaluable_lowercase_comptime_arguments,
    check_value_index_arg, comptime_known_label, comptime_known_label_set,
    concrete_label_set_members, evaluate_comptime_param_argument,
    evaluate_record_selection_labels, host_comptime_fn, infer_record_selection_subject,
    local_comptime_function_definitions, lookup_comptime_function_export,
    report_propagated_errors_against_annotation, report_static_member_arity_mismatch,
    static_import_specifier_for_receiver, static_member_scheme, AnnotatedArgument, ArgumentFacts,
    FunctionSource, LabelSource, SetElement,
};
use aven_check::baked::{HostComptimeParam, ModuleImports};
use aven_check::bodies::{
    check_block_against, check_collection_entries_against, check_items,
    check_lambda_against_function, check_literal_record_shorthands, check_local_binding,
    check_record_value_against, check_value_against_declared_type, compare_lambda_types,
    infer_block,
    is_rigid_type_var, lambda_body_is_reported, resolve_inline_lambda_annotation_variables,
    BindingStep, BlockBinding, BlockStep, CollectionStep, LambdaStep, LocalBinding, MergedItem,
    RecordCheck,
};
use aven_check::collections::{StringMap, StringSet};
use aven_check::declarations::{
    record_expr_type, record_local_value_type, record_scheme_type, ShownScheme,
};
use aven_check::diagnostics::{Code, Diagnostic, DiagnosticLog, PropagationSite};
use aven_check::methods::{BuiltinMethodType, MethodPredicate, NamedFamilyType};
use aven_check::modules::{
    attached_method_variables, binding_value_had_prior_diagnostic,
    binding_value_is_host_comptime_runtime_arg_deferral,
    binding_value_is_open_record_rest_match_unknown, build_statics, check_builtin_method_attachment,
    check_comptime_binding_evaluation_support, check_module, collect_top_level_pattern_bindings,
    define_pattern_binding, generalize_with_row_merges, insert_top_level_spread_types,
    AttachmentCheck, EvaluationFacts, FamilyTable, ImportedPattern, ModuleItem,
    ModuleStep, PatternSite, ValuePlaces, ValueTable,
};
use aven_check::rows::{result_type, ComptimeValue, LabelReflection, LocalValueType};
use aven_check::same::QualifiedType;
use aven_check::schemes::{RowMerge, RowMergeSource, TypeScheme};
use aven_check::span::Span;
use aven_check::syntax::{expr_name, Expr, ExprKind, MatchArm, Param, RecordEntry};
use aven_check::type_ops::named_builtin;
use aven_check::values::record_slot_reification;
use aven_check::types::{Literal, Row, RowEntry, RowTail, Type};

fn expr(kind: ExprKind) -> Expr {
    Expr {
        kind,
        span: Span::new(0, 1),
    }
}

fn name(text: &str) -> Expr {
    expr(ExprKind::Name(text.to_string()))
}

fn variable(name: &str) -> Type {
    Type::Variable(name.to_string())
}

fn lambda() -> Expr {
    expr(ExprKind::Lambda {
        params: vec![],
        return_annotation: None,
        requirements: vec![],
        body: Box::new(name("body")),
    })
}

fn param(name: &str, annotation: Option<Expr>) -> Param {
    Param {
        name: name.to_string(),
        name_span: Span::new(0, 1),
        comptime: false,
        annotation: annotation.map(Box::new),
        default: None,
    }
}

fn field_entry(name: &str, value: Expr) -> RecordEntry {
    RecordEntry::Field {
        name: name.to_string(),
        name_span: Span::new(0, 1),
        value: Box::new(value),
        overwrite: false,
        span: Span::new(0, 1),
    }
}

fn shorthand(name: &str) -> RecordEntry {
    RecordEntry::Shorthand {
        name: name.to_string(),
        name_span: Span::new(5, 6),
        span: Span::new(5, 6),
    }
}

fn record_row(fields: &[(&str, &str)], tail: RowTail) -> Row {
    Row {
        entries: fields
            .iter()
            .map(|(name, ty)| RowEntry::Field {
                name: name.to_string(),
                ty: named_builtin(ty),
            })
            .collect(),
        tail,
    }
}

#[test]
fn functions_with_variables_are_checked_rigidly() {
    let generic = Type::Function {
        params: vec![variable("b"), variable("a")],
        result: Box::new(variable("a")),
        required: 2,
    };
    assert_eq!(
        check_value_against_declared_type(&generic),
        Some(vec!["a".to_string(), "b".to_string()])
    );
    assert_eq!(check_value_against_declared_type(&variable("a")), None);
    let mut scope = StringSet::new();
    scope.insert("a".to_string());
    assert!(is_rigid_type_var(&vec![StringSet::new(), scope], "a"));
    assert!(!is_rigid_type_var(&vec![], "a"));
}

#[test]
fn variables_of_inner_annotations_are_shared() {
    let mut rigid = StringSet::new();
    rigid.insert("r".to_string());
    let mut outer = StringMap::new();
    outer.insert("a".to_string(), Type::Meta(1));
    let mut scopes = vec![outer, StringMap::new()];
    let ty = Type::Tuple(vec![variable("a"), variable("b"), variable("r"), variable("b")]);
    let (resolved, next) =
        resolve_inline_lambda_annotation_variables(&ty, &mut scopes, &vec![rigid], 7);
    assert_eq!(
        resolved,
        Type::Tuple(vec![Type::Meta(1), Type::Meta(7), variable("r"), Type::Meta(7)])
    );
    assert_eq!(next, 8);
    assert_eq!(scopes[1].get("b"), Some(&Type::Meta(7)));
    assert_eq!(scopes[0].get("b"), None);
}

#[test]
fn annotations_of_parameters_take_what_is_expected() {
    let params = vec![param("x", Some(name("Int"))), param("y", None), param("z", Some(name("a")))];
    let annotation = name("Text");
    let annotations = vec![named_builtin("Int"), Type::Deferred, Type::Meta(3)];
    let expected = vec![named_builtin("Float"), named_builtin("Bool"), named_builtin("Bool")];
    let types = compare_lambda_types(
        &params,
        Some(&annotation),
        &annotations,
        &named_builtin("Text"),
        &expected,
        &Type::Meta(8),
    );
    let compared: Vec<_> = types
        .compared
        .iter()
        .map(|pair| (pair.expected.clone(), pair.actual.clone(), pair.unified))
        .collect();
    assert_eq!(
        compared,
        vec![
            (named_builtin("Int"), named_builtin("Float"), false),
            (Type::Meta(3), named_builtin("Bool"), true),
            (Type::Meta(8), named_builtin("Text"), false),
        ]
    );
    assert_eq!(
        types.params,
        vec![named_builtin("Int"), named_builtin("Bool"), Type::Meta(3)]
    );
    assert_eq!(types.body, named_builtin("Text"));
    assert!(!types.inline_metas);
    let types = compare_lambda_types(
        &params,
        None,
        &annotations,
        &Type::Deferred,
        &expected,
        &Type::Meta(8),
    );
    assert_eq!(types.compared.len(), 2);
    assert_eq!(types.body, Type::Meta(8));
}

#[test]
fn functions_are_held_against_function_types() {
    let params = vec![param("x", Some(name("Int"))), param("y", None)];
    let annotation = name("Text");
    let steps = check_lambda_against_function(&params, Some(&annotation), 2);
    assert!(matches!(
        &steps[..],
        [
            LambdaStep::CompareParam { param: 0, .. },
            LambdaStep::TakeParam { param: 1 },
            LambdaStep::CompareResult(_),
            LambdaStep::Body
        ]
    ));
    let steps = check_lambda_against_function(&params, None, 3);
    assert!(matches!(
        &steps[..],
        [LambdaStep::Arity {
            expected: 3,
            found: 2
        }]
    ));
    assert!(lambda_body_is_reported(true, true, false));
    assert!(!lambda_body_is_reported(true, true, true));
    assert!(!lambda_body_is_reported(false, true, false));
}

#[test]
fn literals_are_held_against_types_entry_by_entry() {
    let entries = vec![
        RecordEntry::Element(Box::new(name("x"))),
        RecordEntry::Spread {
            value: Box::new(name("xs")),
            overwrite: false,
            span: Span::new(0, 1),
        },
        RecordEntry::Open {
            span: Span::new(0, 1),
        },
    ];
    let steps = check_collection_entries_against(&entries);
    assert!(matches!(
        &steps[..],
        [
            CollectionStep::Element(_),
            CollectionStep::Whole(_),
            CollectionStep::Walk(_)
        ]
    ));
    let row = record_row(&[("x", "Int")], RowTail::Closed);
    let listed = vec![field_entry("x", name("a")), shorthand("y")];
    match check_record_value_against(&row, &listed) {
        RecordCheck::Compare(fields) => {
            assert_eq!(fields.len(), 2);
            assert_eq!(
                check_literal_record_shorthands(&fields),
                vec![("y", Span::new(5, 6))]
            );
        }
        other => panic!("{other:?}"),
    }
    assert!(matches!(check_record_value_against(&row, &entries), RecordCheck::Infer));
    let tags = Row {
        entries: vec![RowEntry::Tag {
            name: "A".to_string(),
            payload: vec![],
        }],
        tail: RowTail::Closed,
    };
    assert!(matches!(check_record_value_against(&tags, &listed), RecordCheck::Walk));
}

#[test]
fn only_the_last_value_of_a_block_is_kept() {
    let first = name("first");
    let last = name("last");
    let value = name("value");
    let items = vec![
        MergedItem::Binding(LocalBinding {
            name: "x",
            name_span: Span::new(0, 1),
            signature: None,
            annotation: None,
            value: &value,
        }),
        MergedItem::Expr(&first),
        MergedItem::MethodAttachment {
            span: Span::new(3, 4),
        },
        MergedItem::Expr(&last),
    ];
    let steps = check_items(&items);
    assert!(matches!(
        &steps[..],
        [
            BlockStep::Open,
            BlockStep::Binding(LocalBinding { name: "x", .. }),
            BlockStep::Dropped(_),
            BlockStep::Value(_),
            BlockStep::NestedAttachment { .. },
            BlockStep::Value(_),
            BlockStep::Close
        ]
    ));
    let steps = check_block_against(&items);
    assert!(matches!(
        &steps[..],
        [
            BlockStep::Open,
            BlockStep::Binding(_),
            BlockStep::Dropped(_),
            BlockStep::Value(_),
            BlockStep::Against(_),
            BlockStep::Close
        ]
    ));
    let plan = infer_block(&items);
    assert!(matches!(&plan.bindings[..], [BlockBinding::Inferred { name: "x", .. }]));
    assert!(plan.result.is_some());
    assert!(infer_block(&vec![]).result.is_none());
}

#[test]
fn local_names_are_checked_in_steps() {
    let value = name("value");
    let first = name("First");
    let second = name("Second");
    let plain = LocalBinding {
        name: "x",
        name_span: Span::new(0, 1),
        signature: None,
        annotation: None,
        value: &value,
    };
    let steps = check_local_binding(&plain);
    assert!(matches!(
        &steps[..],
        [
            BindingStep::CheckLiftability(_),
            BindingStep::Infer(_),
            BindingStep::CheckValue(_),
            BindingStep::ReportIfStuck(_),
            BindingStep::RecordInferred { .. },
            BindingStep::Define("x")
        ]
    ));
    let declared = LocalBinding {
        signature: Some(&first),
        annotation: Some(&second),
        ..plain
    };
    let steps = check_local_binding(&declared);
    assert_eq!(steps.len(), 6);
    assert!(matches!(
        &steps[3],
        BindingStep::CheckAgainst { annotation, .. } if std::ptr::eq(*annotation, &first)
    ));
    assert!(matches!(&steps[4], BindingStep::RecordDeclared { .. }));
}

#[test]
fn modules_check_declarations_first() {
    let value = name("value");
    let items = vec![
        ModuleItem::Expr(&value),
        ModuleItem::Declared,
        ModuleItem::SpreadBinding { value: &value },
        ModuleItem::Expr(&value),
    ];
    let steps = check_module(2, &items);
    assert!(matches!(
        &steps[..],
        [
            ModuleStep::Declaration(0),
            ModuleStep::Declaration(1),
            ModuleStep::Dropped(_),
            ModuleStep::Value(_),
            ModuleStep::SpreadBinding { .. },
            ModuleStep::Value(_),
            ModuleStep::Result(_)
        ]
    ));
}

fn family(owner: &str) -> NamedFamilyType {
    NamedFamilyType {
        owner: owner.to_string(),
        data: record_row(&[], RowTail::Closed),
        defaulted_fields: StringSet::new(),
        primitive_base: None,
        methods: StringMap::new(),
    }
}

#[test]
fn imported_families_are_known_by_their_names() {
    let mut exported = StringMap::new();
    exported.insert("User".to_string(), family("module:User"));
    let mut exports = StringMap::new();
    exports.insert("users".to_string(), exported);
    let pattern = expr(ExprKind::Record(vec![RecordEntry::Rename {
        from: "User".to_string(),
        from_span: Span::new(0, 1),
        to: "Person".to_string(),
        span: Span::new(0, 1),
    }]));
    let mut table = FamilyTable {
        aliases: StringMap::new(),
        families: StringMap::new(),
    };
    table.seed_imported_named_families(
        &vec![ImportedPattern {
            specifier: Some("users"),
            pattern: &pattern,
        }],
        &exports,
    );
    assert_eq!(table.aliases.get("Person"), Some(&"module:User".to_string()));
    assert_eq!(table.aliases.get("module:User"), Some(&"module:User".to_string()));
    assert!(table.families.contains_key("module:User"));
    assert_eq!(
        table.named_family_constructor_owner(&name("Person")),
        Some("module:User".to_string())
    );
    assert_eq!(table.named_family_constructor_owner(&name("User")), None);
}

#[test]
fn statics_of_the_host_are_added_to_builtin_ones() {
    let member = |name: &str, ty: &str| (name.to_string(), named_builtin(ty));
    let statics = build_statics(&vec![
        ("Map".to_string(), vec![member("empty", "Int"), member("from", "Int")]),
        ("Map".to_string(), vec![member("from", "Text")]),
        ("Clock".to_string(), vec![member("now", "Int")]),
    ]);
    let map = statics.get("Map").unwrap();
    assert_eq!(map.get("empty"), Some(&named_builtin("Int")));
    assert_eq!(map.get("from"), Some(&named_builtin("Text")));
    assert_eq!(
        static_member_scheme(&statics, "Clock", "now", false),
        Some(&named_builtin("Int"))
    );
    assert_eq!(static_member_scheme(&statics, "Clock", "now", true), None);
    assert_eq!(static_member_scheme(&statics, "Clock", "later", false), None);
}

#[test]
fn spread_fields_do_not_replace_published_types() {
    let mut types = StringMap::new();
    types.insert("x".to_string(), None);
    insert_top_level_spread_types(
        &mut types,
        vec![
            ("x".to_string(), TypeScheme::mono(named_builtin("Int"))),
            ("y".to_string(), TypeScheme::mono(named_builtin("Text"))),
            ("y".to_string(), TypeScheme::mono(named_builtin("Bool"))),
        ],
    );
    assert!(matches!(types.get("x"), Some(None)));
    assert!(matches!(types.get("y"), Some(Some(scheme)) if scheme.ty == named_builtin("Text")));
}

#[test]
fn the_last_pattern_binds_a_name() {
    let sites = vec![vec!["a".to_string(), "b".to_string()], vec!["a".to_string()]];
    assert_eq!(collect_top_level_pattern_bindings(&sites, "a"), Some(1));
    assert_eq!(collect_top_level_pattern_bindings(&sites, "b"), Some(0));
    assert_eq!(collect_top_level_pattern_bindings(&sites, "c"), None);
}

fn attached(member_span: Span) -> BuiltinMethodType {
    BuiltinMethodType {
        owner: Type::Apply {
            callee: Box::new(named_builtin("Array")),
            args: vec![variable("b")],
        },
        owner_variables: vec!["b".to_string()],
        member: "first".to_string(),
        params: vec![variable("a")],
        result: variable("c"),
        constraints: vec![],
        owner_span: Span::new(0, 5),
        member_span,
    }
}

#[test]
fn attached_methods_are_checked_where_they_were_attached() {
    let method = |name: &str, span: Span, value: Expr| RecordEntry::Method {
        name: name.to_string(),
        name_span: span,
        value: Box::new(value),
        span,
    };
    let members = vec![
        method("first", Span::new(10, 15), lambda()),
        method("second", Span::new(20, 25), name("Int")),
        method("third", Span::new(30, 35), lambda()),
        shorthand("x"),
    ];
    let methods = vec![attached(Span::new(10, 15))];
    let checks = check_builtin_method_attachment(true, Span::new(0, 5), &members, &methods);
    assert!(matches!(
        &checks[..],
        [
            AttachmentCheck::Body { method: 0, .. },
            AttachmentCheck::NoBody { name: "second", .. },
            AttachmentCheck::Unsupported { .. }
        ]
    ));
    assert!(check_builtin_method_attachment(false, Span::new(0, 5), &members, &methods).is_empty());
    assert!(check_builtin_method_attachment(true, Span::new(1, 5), &members, &methods).is_empty());
    assert_eq!(attached_method_variables(&methods[0]), vec!["a", "b", "c"]);
}

#[test]
fn types_of_patterns_are_noted_at_their_places() {
    let site = |name: &str, start: usize, comptime: bool| PatternSite {
        name: name.to_string(),
        span: Span::new(start, start + 1),
        comptime,
    };
    let locals = vec![
        ("a".to_string(), LocalValueType::Unknown),
        ("B".to_string(), LocalValueType::Unknown),
    ];
    let sites = vec![site("B", 4, true), site("a", 6, false), site("a", 8, false)];
    assert_eq!(
        define_pattern_binding(&locals, &sites),
        vec![
            (Span::new(6, 7), 0),
            (Span::new(8, 9), 0),
            (Span::new(4, 5), 1)
        ]
    );
    let mut log = DiagnosticLog::new();
    log.report_unsupported_uppercase_pattern_binders(&sites, &StringSet::new());
    assert_eq!(log.diagnostics.len(), 1);
    assert_eq!(
        log.diagnostics[0].code,
        Some(Code::TypeUppercasePatternBinderUnsupported)
    );
    let mut imported = StringSet::new();
    imported.insert("B".to_string());
    let mut log = DiagnosticLog::new();
    log.report_unsupported_uppercase_pattern_binders(&sites, &imported);
    assert!(log.diagnostics.is_empty());
}

#[test]
fn values_that_cannot_be_evaluated_are_reported() {
    let facts = EvaluationFacts {
        makes_type: true,
        evaluated: false,
        selects_fields: false,
        has_findings: false,
    };
    assert!(check_comptime_binding_evaluation_support(&name("x"), facts));
    let evaluated = EvaluationFacts {
        evaluated: true,
        ..facts
    };
    assert!(!check_comptime_binding_evaluation_support(&name("x"), evaluated));
    let value = expr(ExprKind::Call {
        callee: Box::new(name("host")),
        args: vec![name("a"), name("b")],
    });
    let awaits = |value: &Expr, params: Vec<HostComptimeParam>| {
        binding_value_is_host_comptime_runtime_arg_deferral(
            value,
            Some(&params),
            &vec![true, false],
        )
    };
    assert!(awaits(&value, vec![HostComptimeParam::Value(1)]));
    assert!(!awaits(&name("x"), vec![HostComptimeParam::Value(1)]));
    assert!(!awaits(
        &value,
        vec![HostComptimeParam::Value(0), HostComptimeParam::TypeOf(5)]
    ));
    assert!(awaits(&value, vec![HostComptimeParam::TypeOf(0)]));
    assert!(!binding_value_is_host_comptime_runtime_arg_deferral(&value, None, &vec![]));
}

#[test]
fn the_rest_of_an_open_record_is_unknown() {
    let pattern = expr(ExprKind::Record(vec![RecordEntry::Spread {
        value: Box::new(name("others")),
        overwrite: false,
        span: Span::new(0, 1),
    }]));
    let arms = vec![MatchArm {
        pattern: Box::new(pattern),
        guards: vec![],
        body: Box::new(name("others")),
    }];
    let open = record_row(&[], RowTail::Open);
    let closed = record_row(&[], RowTail::Closed);
    let uses = vec![vec!["others".to_string()]];
    let ignores = vec![vec!["x".to_string()]];
    assert!(binding_value_is_open_record_rest_match_unknown(Some(&open), &arms, &uses));
    assert!(!binding_value_is_open_record_rest_match_unknown(Some(&open), &arms, &ignores));
    assert!(!binding_value_is_open_record_rest_match_unknown(Some(&closed), &arms, &uses));
    assert!(!binding_value_is_open_record_rest_match_unknown(None, &arms, &uses));
}

#[test]
fn reports_on_used_names_explain_a_value() {
    let places = |span: Span, references: &[&str]| ValuePlaces {
        spans: vec![span],
        references: references.iter().map(|name| name.to_string()).collect(),
    };
    let mut names = StringSet::new();
    let mut values = StringMap::new();
    for (name, span, references) in [
        ("a", Span::new(0, 10), vec!["b"]),
        ("b", Span::new(10, 20), vec!["a"]),
    ] {
        names.insert(name.to_string());
        values.insert(name.to_string(), places(span, &references));
    }
    let table = ValueTable { names, values };
    let value = places(Span::new(30, 40), &["a"]);
    let at = |start: usize| {
        Diagnostic::error("wrong".to_string())
            .with_label(Span::new(start, start + 1), "here".to_string())
    };
    assert!(binding_value_had_prior_diagnostic(&table, &value, &vec![at(35)], 1));
    assert!(binding_value_had_prior_diagnostic(&table, &value, &vec![at(15)], 1));
    assert!(!binding_value_had_prior_diagnostic(&table, &value, &vec![at(25)], 1));
    assert!(!binding_value_had_prior_diagnostic(&table, &value, &vec![at(35)], 0));
}

#[test]
fn variables_of_merged_rows_are_listed_once() {
    let scheme = TypeScheme {
        vars: vec![4],
        row_vars: vec![1, 2],
        row_merges: vec![],
        predicates: vec![],
        ty: Type::Meta(4),
    };
    let merges = vec![
        RowMerge {
            result: 5,
            sources: vec![merged(vec![1, 6], true), merged(vec![5, 7], false)],
        },
        RowMerge {
            result: 7,
            sources: vec![merged(vec![8], true)],
        },
    ];
    let whole = generalize_with_row_merges(scheme, merges);
    assert_eq!(whole.row_vars, vec![1, 2, 5, 6, 7, 8]);
    assert_eq!(whole.vars, vec![4]);
    assert_eq!(whole.ty, Type::Meta(4));
    assert_eq!(whole.row_merges.len(), 2);
    assert_eq!(whole.row_merges[0].result, 5);
    assert!(whole.row_merges[0].sources[0].overwrite);
    assert!(!whole.row_merges[0].sources[1].overwrite);
    assert_eq!(whole.row_merges[0].sources[1].variables, vec![5, 7]);
    assert_eq!(whole.row_merges[1].result, 7);
    assert_eq!(whole.row_merges[1].sources.len(), 1);
}

fn merged(variables: Vec<u32>, overwrite: bool) -> RowMergeSource {
    RowMergeSource {
        row: Row {
            entries: vec![],
            tail: RowTail::Var(variables[0]),
        },
        overwrite,
        span: Span::new(3, 4),
        variables,
    }
}

fn scope(name: &str, value: ComptimeValue) -> StringMap<ComptimeValue> {
    let mut scope = StringMap::new();
    scope.insert(name.to_string(), value);
    scope
}

#[test]
fn labels_come_from_values_sets_and_types() {
    let scopes = vec![
        scope("key", ComptimeValue::Literal(Literal::String("\"x\"".to_string()))),
        scope("keys", ComptimeValue::LabelSet(vec!["a".to_string()])),
    ];
    assert_eq!(comptime_known_label(&name("key"), &scopes), Some("\"x\""));
    assert_eq!(comptime_known_label(&name("keys"), &scopes), None);
    let written = expr(ExprKind::Literal(Literal::String("\"y\"".to_string())));
    assert_eq!(comptime_known_label(&written, &scopes), Some("\"y\""));
    assert!(matches!(
        comptime_known_label_set(&name("keys"), &scopes),
        LabelSource::Labels(labels) if labels == &vec!["a".to_string()]
    ));
    let set = expr(ExprKind::SetLiteral(vec![]));
    assert!(matches!(comptime_known_label_set(&set, &scopes), LabelSource::Elements(_)));
    let reflection = expr(ExprKind::Call {
        callee: Box::new(name("keysOf")),
        args: vec![name("User")],
    });
    assert!(matches!(
        comptime_known_label_set(&reflection, &scopes),
        LabelSource::Reflected(LabelReflection::KeysOf, _)
    ));
    assert!(matches!(
        comptime_known_label_set(&name("other"), &scopes),
        LabelSource::Unknown
    ));
}

#[test]
fn sets_of_labels_are_read_if_every_element_is_a_text() {
    let element = |text: Option<&str>| SetElement {
        value: text.map(|text| ComptimeValue::Literal(Literal::String(format!("\"{text}\"")))),
        decoded: text.unwrap_or("").to_string(),
        span: Span::new(2, 3),
    };
    let members = concrete_label_set_members(vec![element(Some("a")), element(Some("b"))]).unwrap();
    assert_eq!(members[1].label, "b");
    assert_eq!(members[1].literal, Literal::String("\"b\"".to_string()));
    assert!(concrete_label_set_members(vec![element(Some("a")), element(None)]).is_none());
    let number = SetElement {
        value: Some(ComptimeValue::Literal(Literal::Number("1".to_string()))),
        decoded: "1".to_string(),
        span: Span::new(2, 3),
    };
    assert!(concrete_label_set_members(vec![number]).is_none());
}

#[test]
fn arguments_have_the_value_that_is_found_first() {
    let none = || ArgumentFacts {
        computes: false,
        value: None,
        members: None,
        ty: None,
    };
    assert!(evaluate_comptime_param_argument(none()).is_none());
    let computes = ArgumentFacts {
        computes: true,
        value: Some(ComptimeValue::Bool(true)),
        ..none()
    };
    assert!(evaluate_comptime_param_argument(computes).is_none());
    let typed = ArgumentFacts {
        ty: Some(named_builtin("Int")),
        ..none()
    };
    assert!(matches!(
        evaluate_comptime_param_argument(typed).unwrap().value,
        ComptimeValue::ReifiedType(_)
    ));
    let listed = ArgumentFacts {
        members: concrete_label_set_members(vec![]),
        ty: Some(named_builtin("Int")),
        ..none()
    };
    assert!(matches!(
        evaluate_comptime_param_argument(listed).unwrap().value,
        ComptimeValue::LabelSet(labels) if labels.is_empty()
    ));
    assert_eq!(
        evaluate_record_selection_labels(
            None,
            Some(vec!["a".to_string()]),
            Some(ComptimeValue::LabelSet(vec!["b".to_string()]))
        ),
        Some(vec!["a".to_string()])
    );
    assert_eq!(
        evaluate_record_selection_labels(Some(ComptimeValue::Bool(true)), None, None),
        None
    );
    assert_eq!(
        infer_record_selection_subject(Type::Meta(1), false, Some(named_builtin("User"))),
        named_builtin("User")
    );
}

#[test]
fn statics_are_called_with_their_number_of_arguments() {
    let function = Type::Function {
        params: vec![named_builtin("Int"), named_builtin("Int")],
        result: Box::new(named_builtin("Int")),
        required: 1,
    };
    assert_eq!(report_static_member_arity_mismatch(Some(&function), false, 2), None);
    assert_eq!(
        report_static_member_arity_mismatch(Some(&function), false, 0),
        Some((1, 2))
    );
    assert_eq!(report_static_member_arity_mismatch(Some(&function), true, 0), None);
    let mut functions = StringMap::new();
    functions.insert("lookup".to_string(), 3u8);
    assert_eq!(host_comptime_fn(&functions, "lookup", false), Some(&3));
    assert_eq!(host_comptime_fn(&functions, "lookup", true), None);
}

#[test]
fn functions_are_found_here_before_other_modules() {
    let mut names = StringSet::new();
    names.insert("make".to_string());
    let mut exports = StringMap::new();
    exports.insert("tools".to_string(), names);
    let pattern = expr(ExprKind::Record(vec![RecordEntry::Rename {
        from: "make".to_string(),
        from_span: Span::new(0, 1),
        to: "build".to_string(),
        span: Span::new(0, 1),
    }]));
    let function = lambda();
    assert!(matches!(
        lookup_comptime_function_export("build", Some(&function), None, None, &exports),
        Some(FunctionSource::Local(_))
    ));
    assert!(matches!(
        lookup_comptime_function_export("build", None, Some("tools"), Some(&pattern), &exports),
        Some(FunctionSource::Imported {
            specifier: "tools",
            source: "make"
        })
    ));
    assert!(
        lookup_comptime_function_export("make", None, Some("tools"), Some(&pattern), &exports)
            .is_none()
    );
    assert_eq!(
        local_comptime_function_definitions(
            &vec!["Make".to_string(), "make".to_string(), "Size".to_string()],
            &vec![Some(&function), Some(&function), None]
        ),
        vec![0]
    );
    let mut modules = StringMap::new();
    modules.insert("tools".to_string(), "./tools".to_string());
    assert_eq!(
        static_import_specifier_for_receiver(&name("tools"), None, false, &modules),
        Some("./tools")
    );
    assert_eq!(
        static_import_specifier_for_receiver(&name("tools"), None, true, &modules),
        None
    );
    assert_eq!(
        static_import_specifier_for_receiver(&name("tools"), Some("./other"), true, &modules),
        Some("./other")
    );
    let mut fields = StringMap::new();
    fields.insert(
        "size".to_string(),
        QualifiedType {
            ty: named_builtin("Int"),
            constraints: vec![],
        },
    );
    let mut imports = ModuleImports::new();
    imports.qualified_exports.insert("./tools".to_string(), fields);
    let found = imported_field(&imports, &name("tools"), None, false, &modules, "size");
    assert_eq!(found.map(|export| &export.ty), Some(&named_builtin("Int")));
    assert!(imported_field(&imports, &name("tools"), None, true, &modules, "size").is_none());
    assert!(imported_field(&imports, &name("tools"), None, false, &modules, "other").is_none());
}

#[test]
fn arguments_that_do_not_fit_are_checked() {
    let args = vec![name("a"), name("b")];
    let types = vec![named_builtin("Int"), named_builtin("Text")];
    let params = vec![named_builtin("Int"), named_builtin("Int"), named_builtin("Int")];
    let mut check = ArgumentCheck::new();
    let step = check_call_arg_types_against_params(&args, &types, &params, check);
    assert!(matches!(step, ArgumentStep::Unify { actual, .. } if *actual == named_builtin("Int")));
    check = check.answer(true);
    let step = check_call_arg_types_against_params(&args, &types, &params, check);
    assert!(matches!(step, ArgumentStep::Unify { actual, .. } if *actual == named_builtin("Text")));
    check = check.answer(false);
    let step = check_call_arg_types_against_params(&args, &types, &params, check);
    assert!(matches!(step, ArgumentStep::Check { arg, .. } if expr_name(arg) == Some("b")));
    let step = check_call_arg_types_against_params(&args, &types, &params, check.answer(true));
    assert!(matches!(step, ArgumentStep::Done { all_match: true }));
    let step = check_call_arg_types_against_params(&args, &types, &params, check.answer(false));
    assert!(matches!(step, ArgumentStep::Done { all_match: false }));
}

#[test]
fn arguments_that_cannot_be_evaluated_are_checked_as_values() {
    let argument = |evaluated: bool| AnnotatedArgument {
        depends_on_parameter: false,
        evaluated,
    };
    let mut params = vec![param("a", None), param("b", None)];
    params[0].comptime = true;
    params[1].comptime = true;
    let arguments = vec![argument(true), argument(false), argument(false)];
    let checked = check_unevaluable_lowercase_comptime_arguments(Some(&params), false, &arguments);
    assert_eq!(checked, vec![1]);
    let makes_type = check_unevaluable_lowercase_comptime_arguments(Some(&params), true, &arguments);
    assert!(makes_type.is_empty());
    assert!(check_unevaluable_lowercase_comptime_arguments(None, false, &arguments).is_empty());
    assert_eq!(unknown_argument_function(&name("make"), false, true), Some("make"));
    assert_eq!(unknown_argument_function(&lambda(), false, true), Some("comptime function"));
    assert_eq!(unknown_argument_function(&name("make"), true, true), None);
}

#[test]
fn integer_indexes_are_widened() {
    assert!(check_value_index_arg(&named_builtin("Int")).widened);
    assert_eq!(
        check_value_index_arg(&named_builtin("Text")).fallback,
        IndexFallback::CheckValue
    );
}

#[test]
fn propagated_errors_are_held_against_the_annotated_error() {
    let sites = vec![PropagationSite {
        span: Span::new(4, 5),
        error_ty: named_builtin("Text"),
    }];
    let result = result_type(named_builtin("Int"), named_builtin("Bool"));
    let comparisons = report_propagated_errors_against_annotation(&result, &sites);
    assert_eq!(comparisons.len(), 1);
    assert_eq!(comparisons[0].expected, &named_builtin("Bool"));
    assert_eq!(comparisons[0].actual, &named_builtin("Text"));
    assert!(report_propagated_errors_against_annotation(&named_builtin("Int"), &sites).is_empty());
}

#[test]
fn records_with_methods_name_their_fields_and_methods() {
    let data = record_row(&[("name", "Text"), ("age", "Int")], RowTail::Closed);
    let slots = record_row(&[("show", "Text")], RowTail::Closed);
    let target = record_slot_reification(&data, &slots);
    assert_eq!(target.fields, vec!["name".to_string(), "age".to_string()]);
    assert_eq!(target.slots, vec!["show".to_string()]);
}

#[test]
fn types_of_expressions_are_noted_if_they_are_resolved() {
    let mut types = vec![];
    let place = Span { start: 3, end: 8 };
    record_expr_type(&mut types, place, named_builtin("Int"));
    record_expr_type(&mut types, place, Type::Meta(1));
    record_expr_type(&mut types, Span { start: 8, end: 8 }, named_builtin("Int"));
    assert_eq!(types.len(), 1);
    assert_eq!(types[0].name_span, place);
    assert_eq!(types[0].ty, named_builtin("Int"));
}

#[test]
fn schemes_are_written_out_if_they_require_methods() {
    let place = Span { start: 3, end: 8 };
    let shown = || ShownScheme {
        ty: variable("a"),
        text: "a where a has show".to_string(),
    };
    let mut scheme = TypeScheme::mono(Type::Meta(1));
    let mut types = vec![];
    record_scheme_type(&mut types, place, &scheme, shown());
    assert_eq!(types[0].ty, variable("a"));
    assert_eq!(types[0].qualified, None);
    scheme.predicates.push(MethodPredicate {
        candidate: Type::Meta(1),
        member: "show".to_string(),
        params: vec![],
        result: named_builtin("Text"),
        operator_span: place,
        divisor_context: None,
        binding: None,
        call_span: None,
        obligation_id: None,
    });
    record_local_value_type(&mut types, place, LocalValueType::Scheme(scheme), shown());
    assert_eq!(types[1].qualified, Some("a where a has show".to_string()));
    record_local_value_type(&mut types, place, LocalValueType::Unknown, shown());
    record_local_value_type(&mut types, place, LocalValueType::Known(Type::Deferred), shown());
    record_local_value_type(
        &mut types,
        place,
        LocalValueType::Known(named_builtin("Int")),
        shown(),
    );
    assert_eq!(types.len(), 3);
    assert_eq!(types[2].ty, named_builtin("Int"));
}
