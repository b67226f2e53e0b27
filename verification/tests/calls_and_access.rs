//! Calls, fields, indexes and values that are known at compile time.
use aven_check::access::{
    comptime_known_tuple_index, infer_name_reference, infer_record_index, infer_tuple_index,
    infer_value_index, parse_usize, receiver_type_carries_member, set_operand_element_type,
    IndexStep, LocalFact, NameFacts, NameMeaning, RecordElement, TupleElement,
};
use aven_check::baked::HostComptimeParam;
use aven_check::calls::{
    apply_propagation_context_to_body_type, call_form, constructor_data_row,
    constructor_fields_are_exact,
    format_call, import_outcome, infer_call, infer_import_call,
    infer_or_else_single_constructor_result, infer_propagate, infer_variant_constructor,
    inferred_return_type_fits_annotation, known_call_type, record_propagation_site,
    to_result_call_type,
    union_propagated_error_types, wider_error_type, CallForm, CallForms, CallPlan, ErrorUnion,
    ImportOutcome, ImportStep, PropagateStep, PropagatedBody, ReturnFit,
};
use aven_check::collections::{StringMap, StringSet};
use aven_check::comparison::LiteralStep;
use aven_check::comptime_calls::{
    check_comptime_argument_domain, collect_comptime_type_bindings, comptime_argument_step,
    comptime_callee_name, comptime_param_function, current_comptime_value_bindings,
    format_member_hint, format_member_name, host_comptime_args_match_params,
    infer_record_selection_builtin_call, is_runtime_computation_call, lookup_comptime_value,
    method_view_arg_type, static_member_wins, unresolved_comptime_param_is_in_scope, ArgumentStep,
    is_unshadowed_record_selection_builtin_call, selection_subject_step, selection_type,
    SelectionStep, SubjectStep,
};
use aven_check::diagnostics::PropagationSite;
use aven_check::method_calls::{
    body_parameter_types, call_route, constructor_argument, format_method_member_type,
    infer_comptime_param_call, infer_host_comptime_call, infer_map_constructor_call,
    infer_named_family_constructor, infer_named_or_constrained_method_call,
    infer_slot_conversion_call, infer_text_decode_call, infer_value_encode_call,
    required_method_call, value_encode_sugar_receiver, CallRoute, ConstructorFit, ConstructorStep,
    FormatStep, HostArguments, MemberArity, MethodCall, ParamCall, ParamFacts, RouteFacts,
};
use aven_check::methods::{MethodSignature, NamedFamilyType};
use aven_check::rows::{apply1, apply2, literal_type, result_type, ComptimeValue};
use aven_check::span::Span;
use aven_check::syntax::{expr_name, Expr, ExprKind, Param, PropagationMode};
use aven_check::type_ops::named_builtin;
use aven_check::types::{Literal, Row, RowEntry, RowTail, Type};

fn expr(kind: ExprKind) -> Expr {
    Expr {
        kind,
        span: Span::new(0, 1),
    }
}

fn name(text: &str) -> Expr {
    expr(ExprKind::Name(text.to_string()))
}

fn tag(text: &str) -> Expr {
    expr(ExprKind::Tag(text.to_string()))
}

fn number(text: &str) -> Expr {
    expr(ExprKind::Literal(Literal::Number(text.to_string())))
}

fn access(receiver: Expr, field: &str) -> Expr {
    expr(ExprKind::FieldAccess {
        receiver: Box::new(receiver),
        field: field.to_string(),
        field_span: Span::new(4, 5),
        null_safe: false,
    })
}

fn call(callee: Expr, args: Vec<Expr>) -> Expr {
    expr(ExprKind::Call {
        callee: Box::new(callee),
        args,
    })
}

fn integer() -> Type {
    named_builtin("Int")
}

fn text() -> Type {
    named_builtin("Text")
}

fn fields(fields: &[(&str, Type)]) -> Row {
    Row {
        entries: fields
            .iter()
            .map(|(name, ty)| RowEntry::Field {
                name: name.to_string(),
                ty: ty.clone(),
            })
            .collect(),
        tail: RowTail::Closed,
    }
}

fn tags(entries: Vec<(&str, Vec<Type>)>) -> Type {
    Type::Variant(Row {
        entries: entries
            .into_iter()
            .map(|(name, payload)| RowEntry::Tag {
                name: name.to_string(),
                payload,
            })
            .collect(),
        tail: RowTail::Closed,
    })
}

#[test]
fn names_mean_the_nearest_thing() {
    let none = NameFacts {
        local: None,
        family: false,
        top_level: false,
        published: None,
        receiver: false,
        builtin: false,
    };
    assert_eq!(infer_name_reference("x", none), NameMeaning::Unbound);
    assert_eq!(infer_name_reference("_", none), NameMeaning::Unknown);
    let everything = NameFacts {
        local: Some(LocalFact::Scheme),
        family: true,
        top_level: true,
        published: Some(true),
        receiver: true,
        builtin: true,
    };
    assert_eq!(infer_name_reference("x", everything), NameMeaning::LocalScheme);
    let top = NameFacts {
        local: None,
        family: false,
        ..everything
    };
    assert_eq!(infer_name_reference("x", top), NameMeaning::TopLevel);
    let global = NameFacts {
        top_level: false,
        ..top
    };
    assert_eq!(infer_name_reference("x", global), NameMeaning::Global);
    let overloaded = NameFacts {
        published: Some(false),
        ..global
    };
    assert_eq!(infer_name_reference("x", overloaded), NameMeaning::Unknown);
    let receiver = NameFacts {
        published: None,
        ..global
    };
    assert_eq!(infer_name_reference("x", receiver), NameMeaning::MissingReceiver);
}

#[test]
fn tuples_are_indexed_by_literals() {
    assert_eq!(parse_usize("12"), Some(12));
    assert_eq!(parse_usize("-1"), None);
    assert_eq!(comptime_known_tuple_index(&number("1")), Some(1));
    assert_eq!(comptime_known_tuple_index(&name("i")), None);
    let elements = vec![integer(), text()];
    assert!(matches!(
        infer_tuple_index(&elements, &number("1")),
        TupleElement::Found(ty) if ty == text()
    ));
    assert!(matches!(
        infer_tuple_index(&elements, &number("2")),
        TupleElement::OutOfRange {
            index: 2,
            length: 2
        }
    ));
    assert!(matches!(
        infer_tuple_index(&elements, &name("i")),
        TupleElement::NotKnown
    ));
}

#[test]
fn records_and_collections_are_indexed() {
    let row = fields(&[("x", integer())]);
    assert!(matches!(
        infer_record_index(&row, Some("x"), false),
        RecordElement::Found(ty) if ty == integer()
    ));
    assert!(matches!(
        infer_record_index(&row, Some("y"), false),
        RecordElement::Missing
    ));
    assert!(matches!(infer_record_index(&row, None, true), RecordElement::Pending));
    assert!(matches!(infer_record_index(&row, None, false), RecordElement::NotKnown));
    assert!(matches!(
        infer_value_index(apply1("Array", text())),
        IndexStep::Element { index, .. } if index == integer()
    ));
    assert!(matches!(
        infer_value_index(apply2("Map", text(), integer())),
        IndexStep::Element { index, .. } if index == text()
    ));
    assert!(matches!(infer_value_index(Type::Deferred), IndexStep::Unknown));
    assert!(matches!(infer_value_index(integer()), IndexStep::NotIndexable));
    let definitions = StringMap::new();
    assert_eq!(
        set_operand_element_type(&apply1("Set", integer()), &definitions),
        Some(integer())
    );
    assert_eq!(set_operand_element_type(&integer(), &definitions), None);
    assert!(receiver_type_carries_member(&Type::Record(row), "x", false, false));
    assert!(!receiver_type_carries_member(&integer(), "x", false, false));
}

#[test]
fn functions_take_their_parameters_in_order() {
    let callee = Type::Function {
        params: vec![integer(), text()],
        result: Box::new(named_builtin("Bool")),
        required: 1,
    };
    match infer_call(&callee, vec![Type::Meta(1)], 9) {
        CallPlan::Known { goals, result } => {
            assert_eq!(goals, vec![(integer(), Type::Meta(1))]);
            assert_eq!(result, named_builtin("Bool"));
        }
        other => panic!("{other:?}"),
    }
    assert!(matches!(
        infer_call(&Type::Meta(3), vec![integer()], 9),
        CallPlan::Unify { result: Type::Meta(9), .. }
    ));
}

#[test]
fn variants_are_made_by_their_tags() {
    match infer_variant_constructor("Some", vec![integer()]) {
        Type::Variant(row) => {
            assert_eq!(
                row.entries,
                vec![RowEntry::Tag {
                    name: "Some".to_string(),
                    payload: vec![integer()]
                }]
            );
        }
        other => panic!("{other:?}"),
    }
}

#[test]
fn recovering_leaves_no_error() {
    let receiver = result_type(integer(), text());
    let ok = tags(vec![("Ok", vec![integer()])]);
    let recovered = infer_or_else_single_constructor_result(&receiver, &ok).unwrap();
    assert_eq!(
        recovered,
        result_type(integer(), Type::Variant(fields(&[])))
    );
    assert_eq!(infer_or_else_single_constructor_result(&receiver, &integer()), None);
}

#[test]
fn imports_are_written_out() {
    let specifier = expr(ExprKind::Literal(Literal::String("\"./a\"".to_string())));
    let args = vec![specifier];
    assert!(matches!(
        infer_import_call(&name("import"), &args),
        ImportStep::Static { .. }
    ));
    let dynamic = vec![name("path")];
    assert!(matches!(
        infer_import_call(&name("import"), &dynamic),
        ImportStep::Dynamic(_)
    ));
    assert!(matches!(infer_import_call(&name("other"), &args), ImportStep::NoImport));
    assert_eq!(import_outcome(Some(true), true), ImportOutcome::Type);
    assert_eq!(import_outcome(Some(false), true), ImportOutcome::Unknown);
    assert_eq!(import_outcome(None, true), ImportOutcome::Unresolved);
    assert_eq!(import_outcome(None, false), ImportOutcome::UnsupportedRoot);
}

#[test]
fn formats_take_the_place_of_the_receiver() {
    let callee = access(name("value"), "encode");
    let (callee, args) = format_call(callee, vec![name("Json"), name("x")], "Json", "encode");
    match callee.kind {
        ExprKind::FieldAccess { receiver, field, .. } => {
            assert!(matches!(receiver.kind, ExprKind::Name(name) if name == "Json"));
            assert_eq!(field, "encode");
        }
        other => panic!("{other:?}"),
    }
    assert_eq!(args.len(), 2);
    assert!(matches!(&args[0].kind, ExprKind::Name(name) if name == "value"));
    assert!(matches!(&args[1].kind, ExprKind::Name(name) if name == "x"));
}

#[test]
fn propagation_unwraps_results() {
    let result = result_type(integer(), text());
    match infer_propagate(&result, PropagationMode::ReturnError) {
        PropagateStep::Unwrap { value, error } => {
            assert_eq!(value, integer());
            assert_eq!(error, Some(text()));
        }
        other => panic!("{other:?}"),
    }
    assert!(matches!(
        infer_propagate(&result, PropagationMode::Panic),
        PropagateStep::Unwrap { error: None, .. }
    ));
    assert!(matches!(
        infer_propagate(&integer(), PropagationMode::Panic),
        PropagateStep::NoResult { report: true }
    ));
    assert!(matches!(
        infer_propagate(&Type::Meta(1), PropagationMode::Panic),
        PropagateStep::NoResult { report: false }
    ));
}

#[test]
fn sites_of_propagation_are_recorded_once() {
    let mut sites: Vec<PropagationSite> = vec![];
    record_propagation_site(&mut sites, Span::new(1, 2), text());
    record_propagation_site(&mut sites, Span::new(1, 2), integer());
    record_propagation_site(&mut sites, Span::new(3, 4), integer());
    assert_eq!(sites.len(), 2);
    assert_eq!(sites[0].error_ty, text());
    let body = name("body");
    let result = result_type(integer(), tags(vec![("A", vec![])]));
    match apply_propagation_context_to_body_type(&body, &result, &sites) {
        PropagatedBody::Result { ok_ty, errors } => {
            assert_eq!(ok_ty, integer());
            assert_eq!(errors.len(), 3);
        }
        other => panic!("{other:?}"),
    }
    assert!(matches!(
        apply_propagation_context_to_body_type(&body, &integer(), &vec![]),
        PropagatedBody::Unchanged
    ));
}

#[test]
fn errors_are_united() {
    match union_propagated_error_types(vec![tags(vec![("A", vec![])]), tags(vec![("B", vec![])])]) {
        ErrorUnion::Variants { ty, goals } => {
            assert_eq!(ty, tags(vec![("A", vec![]), ("B", vec![])]));
            assert!(goals.is_empty());
        }
        other => panic!("{other:?}"),
    }
    assert!(matches!(
        union_propagated_error_types(vec![text()]),
        ErrorUnion::Known(ty) if ty == text()
    ));
    assert_eq!(wider_error_type(integer(), text(), true, false), Some(integer()));
    assert_eq!(wider_error_type(integer(), text(), false, true), Some(text()));
    assert_eq!(wider_error_type(integer(), text(), false, false), None);
}

#[test]
fn results_fit_annotations_part_by_part() {
    let expected = result_type(integer(), text());
    assert!(matches!(
        inferred_return_type_fits_annotation(&expected, &result_type(Type::Meta(1), text())),
        ReturnFit::Results { .. }
    ));
    assert!(matches!(
        inferred_return_type_fits_annotation(&expected, &tags(vec![("Ok", vec![integer()])])),
        ReturnFit::Boundary
    ));
    assert!(matches!(
        inferred_return_type_fits_annotation(&integer(), &text()),
        ReturnFit::Unify
    ));
    let to_result = access(name("value"), "toResult");
    assert!(to_result_call_type(&to_result, &vec![text()], &result_type(integer(), text())).is_some());
    assert_eq!(to_result_call_type(&name("f"), &vec![text()], &result_type(integer(), text())), None);
    assert_eq!(
        known_call_type(&to_result, &vec![text()], result_type(integer(), integer()), None),
        result_type(integer(), text())
    );
    assert_eq!(
        known_call_type(&name("f"), &vec![], integer(), Some(text())),
        text()
    );
    assert_eq!(known_call_type(&name("f"), &vec![], integer(), None), integer());
}

#[test]
fn maps_and_conversions_have_their_own_rules() {
    let from = Type::Function {
        params: vec![integer()],
        result: Box::new(text()),
        required: 1,
    };
    let found = infer_map_constructor_call(&name("Map"), 1, false, Some(&from));
    assert_eq!(found, Some(&from));
    assert!(infer_map_constructor_call(&name("Map"), 1, true, Some(&from)).is_none());
    assert!(infer_map_constructor_call(&name("Map"), 2, false, Some(&from)).is_none());
    assert!(infer_map_constructor_call(&name("Set"), 1, false, Some(&from)).is_none());
    let slots = Type::SlotRecord {
        data: Box::new(Row {
            entries: vec![],
            tail: RowTail::Closed,
        }),
        slots: Box::new(Row {
            entries: vec![],
            tail: RowTail::Closed,
        }),
    };
    let to = access(name("x"), "to");
    assert!(infer_slot_conversion_call(&to, 1, Some(&slots)).is_some());
    assert!(infer_slot_conversion_call(&to, 1, Some(&integer())).is_none());
    assert!(infer_slot_conversion_call(&access(name("x"), "from"), 1, Some(&slots)).is_none());
}

fn user() -> NamedFamilyType {
    let mut defaulted = StringSet::new();
    defaulted.insert("age".to_string());
    NamedFamilyType {
        owner: "User".to_string(),
        data: fields(&[("name", text()), ("age", integer())]),
        defaulted_fields: defaulted,
        primitive_base: None,
        methods: StringMap::new(),
    }
}

#[test]
fn families_are_constructed_from_their_fields() {
    let family = user();
    let row = constructor_data_row(&family.data, &family.defaulted_fields);
    assert_eq!(
        row,
        fields(&[("name", text()), ("age", Type::Optional(Box::new(integer())))])
    );
    let definitions = StringMap::new();
    let exact = fields(&[("name", text())]);
    assert!(constructor_fields_are_exact(
        &exact,
        &family.data,
        &family.defaulted_fields,
        &definitions
    ));
    let extra = fields(&[("name", text()), ("mail", text())]);
    assert!(!constructor_fields_are_exact(
        &extra,
        &family.data,
        &family.defaulted_fields,
        &definitions
    ));
    assert!(matches!(
        constructor_argument(&family, &Type::Record(exact), &definitions),
        ConstructorFit::Compare(compared) if compared == row
    ));
    assert!(matches!(
        constructor_argument(&family, &Type::Record(extra), &definitions),
        ConstructorFit::Inexact
    ));
    assert!(matches!(
        constructor_argument(&family, &integer(), &definitions),
        ConstructorFit::Inexact
    ));
}

#[test]
fn constructors_take_one_argument() {
    let family = user();
    assert!(matches!(
        infer_named_family_constructor(&family, &vec![]),
        ConstructorStep::Arity { found: 0 }
    ));
    let record = vec![expr(ExprKind::Record(vec![]))];
    assert!(matches!(
        infer_named_family_constructor(&family, &record),
        ConstructorStep::CheckRecord { .. }
    ));
    let value = vec![name("value")];
    assert!(matches!(
        infer_named_family_constructor(&family, &value),
        ConstructorStep::Infer(_)
    ));
    let based = NamedFamilyType {
        primitive_base: Some(integer()),
        ..user()
    };
    assert!(matches!(
        infer_named_family_constructor(&based, &value),
        ConstructorStep::CheckBase(base) if *base == integer()
    ));
}

fn no_facts() -> RouteFacts {
    RouteFacts {
        is_family: false,
        argument_asks_for_methods: false,
        receiver_is_text: false,
        receiver_has_member: false,
        selects_fields: false,
        map_is_shadowed: false,
        map_takes_one: true,
        is_host_function: false,
        is_comptime_function: false,
        has_method: false,
    }
}

#[test]
fn calls_are_routed_in_order() {
    let none = no_facts();
    assert_eq!(call_route(&tag("Ok"), 1, none), CallRoute::VariantConstructor);
    let family = RouteFacts {
        is_family: true,
        is_host_function: true,
        ..none
    };
    assert_eq!(call_route(&name("User"), 1, family), CallRoute::FamilyConstructor);
    assert_eq!(call_route(&name("import"), 1, none), CallRoute::Import);
    let slots = RouteFacts {
        argument_asks_for_methods: true,
        ..none
    };
    assert_eq!(call_route(&access(name("x"), "to"), 1, slots), CallRoute::SlotConversion);
    assert_eq!(call_route(&access(name("x"), "to"), 2, slots), CallRoute::Function);
    let text_receiver = RouteFacts {
        receiver_is_text: true,
        ..none
    };
    assert_eq!(
        call_route(&access(name("x"), "decode"), 1, text_receiver),
        CallRoute::TextDecode
    );
    assert_eq!(call_route(&access(name("x"), "encode"), 1, none), CallRoute::ValueEncode);
    let member = RouteFacts {
        receiver_has_member: true,
        ..none
    };
    assert_eq!(call_route(&access(name("x"), "encode"), 1, member), CallRoute::Function);
    assert_eq!(call_route(&name("Map"), 1, none), CallRoute::MapConstructor);
    assert_eq!(call_route(&name("Map"), 2, none), CallRoute::Function);
    let shadowed = RouteFacts {
        map_is_shadowed: true,
        ..none
    };
    assert_eq!(call_route(&name("Map"), 1, shadowed), CallRoute::Function);
    let selection = RouteFacts {
        selects_fields: true,
        ..none
    };
    assert_eq!(call_route(&name("pick"), 2, selection), CallRoute::RecordSelection);
    let host = RouteFacts {
        is_host_function: true,
        is_comptime_function: true,
        ..none
    };
    assert_eq!(call_route(&name("lookup"), 1, host), CallRoute::HostFunction);
    let comptime = RouteFacts {
        is_comptime_function: true,
        has_method: true,
        ..none
    };
    assert_eq!(call_route(&access(name("x"), "f"), 1, comptime), CallRoute::ComptimeFunction);
    let method = RouteFacts {
        has_method: true,
        ..none
    };
    assert_eq!(call_route(&access(name("x"), "f"), 1, method), CallRoute::Method);
    assert_eq!(call_route(&name("f"), 1, method), CallRoute::Function);
}

#[test]
fn methods_are_called_with_their_number_of_arguments() {
    let signature = MethodSignature {
        params: vec![integer()],
        result: text(),
        predicates: vec![],
    };
    assert!(matches!(
        infer_named_or_constrained_method_call(&integer(), "f", 1, Some(&signature), &vec![], None),
        MethodCall::CheckArguments
    ));
    assert!(matches!(
        infer_named_or_constrained_method_call(&integer(), "f", 2, Some(&signature), &vec![], None),
        MethodCall::Arity {
            expected: 1,
            found: 2
        }
    ));
    assert!(matches!(
        infer_named_or_constrained_method_call(&integer(), "f", 1, None, &vec![], None),
        MethodCall::NoMethod
    ));
    assert!(matches!(
        infer_named_or_constrained_method_call(&integer(), "f", 1, None, &vec![], Some(text())),
        MethodCall::WrongReceiver(owner) if owner == text()
    ));
    let assumed = required_method_call(integer(), "f", vec![], text(), Span::new(0, 1));
    assert_eq!(assumed.member, "f");
    assert_eq!(assumed.obligation_id, None);
    assert!(matches!(
        infer_named_or_constrained_method_call(&integer(), "f", 1, None, &vec![assumed], None),
        MethodCall::Require
    ));
}

#[test]
fn formats_are_needed_to_decode_and_encode() {
    let args = vec![name("Json"), name("x")];
    assert!(matches!(infer_text_decode_call(&vec![], None), FormatStep::Missing));
    assert!(matches!(infer_text_decode_call(&args, None), FormatStep::Invalid(_)));
    assert!(matches!(
        infer_text_decode_call(&args, Some("Json")),
        FormatStep::Call("Json")
    ));
    let arity = MemberArity {
        required: 1,
        total: 1,
    };
    assert!(matches!(
        infer_value_encode_call(&args, Some("Json"), Some(arity)),
        FormatStep::Arity {
            required: 1,
            total: 1,
            found: 2
        }
    ));
    assert!(matches!(
        infer_value_encode_call(&args, Some("Json"), None),
        FormatStep::Call("Json")
    ));
    let callee = access(name("x"), "encode");
    assert!(value_encode_sugar_receiver(&callee, false, false).is_some());
    assert!(value_encode_sugar_receiver(&callee, true, false).is_none());
    assert_eq!(
        format_method_member_type("Json", vec![integer()], text()),
        Type::Function {
            params: vec![named_builtin("Json"), integer()],
            result: Box::new(text()),
            required: 2,
        }
    );
    assert_eq!(method_view_arg_type(&name("x"), 0), named_builtin("x"));
    assert_eq!(
        method_view_arg_type(&number("1"), 1),
        Type::Variable("arg2".to_string())
    );
}

#[test]
fn host_functions_get_values_and_types() {
    let mut definitions = StringMap::new();
    definitions.insert("User".to_string(), integer());
    let args = vec![name("User"), number("2")];
    let params = vec![
        HostComptimeParam::Value(0),
        HostComptimeParam::TypeOf(1),
        HostComptimeParam::Value(2),
    ];
    let given = || {
        vec![
            Some(ComptimeValue::ReifiedType(integer())),
            Some(ComptimeValue::ReifiedType(text())),
            None,
        ]
    };
    match infer_host_comptime_call(&params, given(), &args, 2, &definitions, Span::new(8, 9)) {
        HostArguments::Known { values, place } => {
            assert_eq!(values.len(), 2);
            assert!(matches!(&values[0], ComptimeValue::ReifiedType(ty) if *ty == named_builtin("User")));
            assert!(matches!(&values[1], ComptimeValue::ReifiedType(ty) if *ty == text()));
            assert_eq!(place, args[1].span);
        }
        other => panic!("{other:?}"),
    }
    assert!(matches!(
        infer_host_comptime_call(&params, given(), &args, 3, &definitions, Span::new(8, 9)),
        HostArguments::Deferred
    ));
    assert!(matches!(
        infer_host_comptime_call(
            &vec![HostComptimeParam::Value(0)],
            vec![None],
            &args,
            1,
            &definitions,
            Span::new(8, 9)
        ),
        HostArguments::Deferred
    ));
    assert!(host_comptime_args_match_params(
        &vec![HostComptimeParam::Value(0)],
        &vec![integer()],
        &vec![true]
    ));
}

fn param_facts(comptime: bool, value: Option<ComptimeValue>) -> ParamFacts {
    ParamFacts {
        name: "p".to_string(),
        comptime,
        fits: true,
        actual: text(),
        value,
        value_type: integer(),
        domain: None,
        depends_on_parameter: false,
    }
}

#[test]
fn functions_at_compile_time_need_their_values() {
    let known = || Some(ComptimeValue::Bool(true));
    let params = vec![param_facts(true, known()), param_facts(false, None)];
    assert!(matches!(infer_comptime_param_call(&params, 2, false), ParamCall::Body));
    assert_eq!(
        body_parameter_types(&params),
        vec![("p".to_string(), integer()), ("p".to_string(), text())]
    );
    assert!(matches!(
        infer_comptime_param_call(&params, 1, false),
        ParamCall::Arity {
            expected: 2,
            found: 1
        }
    ));
    let unknown = vec![param_facts(true, None)];
    assert!(matches!(
        infer_comptime_param_call(&unknown, 1, false),
        ParamCall::CheckValue { argument: 0 }
    ));
    assert!(matches!(infer_comptime_param_call(&unknown, 1, true), ParamCall::Deferred));
    let misfit = vec![
        param_facts(true, None),
        ParamFacts {
            fits: false,
            ..param_facts(false, None)
        },
    ];
    assert!(matches!(infer_comptime_param_call(&misfit, 2, false), ParamCall::Deferred));
    let refused = vec![ParamFacts {
        domain: Some(literal_type(Literal::Number("1".to_string()))),
        ..param_facts(
            true,
            Some(ComptimeValue::Literal(Literal::Number("2".to_string()))),
        )
    }];
    assert!(matches!(
        infer_comptime_param_call(&refused, 1, false),
        ParamCall::Refused { argument: 0, .. }
    ));
}

#[test]
fn literals_of_arguments_are_among_those_admitted() {
    let row = match literal_type(Literal::Number("1".to_string())) {
        Type::Variant(row) => row,
        other => panic!("{other:?}"),
    };
    let one = ComptimeValue::Literal(Literal::Number("1".to_string()));
    let two = ComptimeValue::Literal(Literal::Number("2".to_string()));
    assert!(matches!(
        &check_comptime_argument_domain(&row, &one)[..],
        [LiteralStep::Accept]
    ));
    assert!(matches!(
        &check_comptime_argument_domain(&row, &two)[..],
        [LiteralStep::NotInUnion]
    ));
    assert_eq!(comptime_argument_step(true, false, false, false), ArgumentStep::Use);
    assert_eq!(comptime_argument_step(false, false, false, true), ArgumentStep::Defer);
}

#[test]
fn inner_values_hide_outer_ones() {
    let mut outer = StringMap::new();
    outer.insert("x".to_string(), ComptimeValue::Bool(true));
    outer.insert("y".to_string(), ComptimeValue::Bool(true));
    let mut inner = StringMap::new();
    inner.insert("x".to_string(), ComptimeValue::Bool(false));
    let scopes = vec![outer, inner];
    assert!(matches!(
        lookup_comptime_value(&scopes, "x"),
        Some(ComptimeValue::Bool(false))
    ));
    let bindings = current_comptime_value_bindings(&scopes);
    assert!(matches!(bindings.get("x"), Some(ComptimeValue::Bool(false))));
    assert!(matches!(bindings.get("y"), Some(ComptimeValue::Bool(true))));
    let mut params = StringSet::new();
    params.insert("n".to_string());
    params.insert("x".to_string());
    let params = vec![params];
    assert!(unresolved_comptime_param_is_in_scope(&scopes, &params, "n"));
    assert!(!unresolved_comptime_param_is_in_scope(&scopes, &params, "x"));
    assert!(!unresolved_comptime_param_is_in_scope(&scopes, &params, "z"));
}

#[test]
fn functions_that_make_types_know_all_their_parameters() {
    let params = |flags: &[bool]| -> Vec<Param> {
        flags
            .iter()
            .map(|flag| Param {
                name: "x".to_string(),
                name_span: Span::new(0, 1),
                comptime: *flag,
                annotation: None,
                default: None,
            })
            .collect()
    };
    let known = |callee: &str, flags: &[bool]| -> Option<Vec<bool>> {
        comptime_param_function(&name(callee), Some(params(flags)))
            .map(|params| params.iter().map(|param| param.comptime).collect())
    };
    assert_eq!(known("Make", &[false, true]), Some(vec![true, true]));
    assert_eq!(known("make", &[false, true]), Some(vec![false, true]));
    assert_eq!(known("make", &[false]), None);
    assert!(comptime_param_function(&name("Make"), None).is_none());
    let runtime = params(&[false]);
    let comptime = params(&[false, true]);
    assert!(is_runtime_computation_call(&call(name("bad"), vec![]), Some(&runtime)));
    assert!(!is_runtime_computation_call(&call(name("bad"), vec![]), Some(&comptime)));
    assert!(!is_runtime_computation_call(&call(name("Bad"), vec![]), Some(&runtime)));
    assert!(!is_runtime_computation_call(&call(name("bad"), vec![]), None));
    assert!(!is_runtime_computation_call(&name("bad"), Some(&runtime)));
}

#[test]
fn parameters_bind_the_types_of_arguments() {
    let mut bindings = StringMap::new();
    let annotation = expr(ExprKind::Tuple(vec![name("a"), name("b")]));
    collect_comptime_type_bindings(
        &annotation,
        &Type::Tuple(vec![integer(), text()]),
        &mut bindings,
    );
    assert_eq!(bindings.get("a"), Some(&integer()));
    assert_eq!(bindings.get("b"), Some(&text()));
}

#[test]
fn registered_members_have_dotted_names() {
    let mut registered = StringSet::new();
    registered.insert("Json.encode".to_string());
    let member = access(name("Json"), "encode");
    assert_eq!(
        comptime_callee_name(&member, false, &registered),
        Some("Json.encode".to_string())
    );
    assert_eq!(
        comptime_callee_name(&name("lookup"), false, &registered),
        Some("lookup".to_string())
    );
    assert!(static_member_wins(&name("Json"), "encode", false, false, &registered));
    assert!(!static_member_wins(&name("Json"), "encode", false, true, &registered));
    assert_eq!(
        format_member_name(&name("Json"), "encode", false, false, &registered),
        Some("Json")
    );
    assert_eq!(
        format_member_name(&name("Xml"), "encode", false, false, &registered),
        None
    );
    let hint = format_member_hint(&vec!["Json".to_string(), "Csv".to_string()]);
    assert!(hint.contains("`Json`"));
}

#[test]
fn fields_are_selected_from_records() {
    let mut selections = StringSet::new();
    selections.insert("pick".to_string());
    let none = StringSet::new();
    let args = vec![name("user"), name("labels")];
    let step =
        infer_record_selection_builtin_call(&name("pick"), &args, &selections, false, &none, &none);
    assert!(matches!(
        step,
        SelectionStep::Subject { labels, .. } if expr_name(labels) == Some("labels")
    ));
    let few = vec![name("user")];
    assert!(matches!(
        infer_record_selection_builtin_call(&name("pick"), &few, &selections, false, &none, &none),
        SelectionStep::Defer
    ));
    assert!(matches!(
        infer_record_selection_builtin_call(&name("pick"), &args, &selections, true, &none, &none),
        SelectionStep::NoSelection
    ));
    assert!(matches!(
        infer_record_selection_builtin_call(&name("other"), &args, &selections, false, &none, &none),
        SelectionStep::NoSelection
    ));
    let value = call(name("pick"), vec![]);
    assert!(is_unshadowed_record_selection_builtin_call(&value, &selections, &none, &none));
    assert!(!is_unshadowed_record_selection_builtin_call(&value, &selections, &selections, &none));
    let record = Type::Record(fields(&[("x", integer())]));
    assert_eq!(selection_subject_step(&record, false), SubjectStep::Select);
    assert_eq!(selection_subject_step(&integer(), false), SubjectStep::Report);
    assert_eq!(selection_subject_step(&Type::Meta(1), true), SubjectStep::Defer);
    assert_eq!(selection_type(true, Some(integer())), integer());
    assert_eq!(selection_type(false, Some(integer())), Type::Deferred);
}

fn answering(count: usize) -> CallForms {
    let answers: Vec<bool> = (0..9).map(|index| index >= count).collect();
    CallForms {
        import: answers[0],
        slot_conversion: answers[1],
        decode: answers[2],
        encode: answers[3],
        selection: answers[4],
        map_constructor: answers[5],
        host: answers[6],
        compile_time: answers[7],
        method: answers[8],
    }
}

#[test]
fn forms_of_calls_are_tried_in_order() {
    let mut owners = StringMap::new();
    owners.insert("User".to_string(), "module:User".to_string());
    let plain = name("f");
    let first = |count: usize| format!("{:?}", call_form(&plain, &owners, answering(count)));
    assert_eq!(
        (0..10).map(first).collect::<Vec<_>>(),
        vec![
            "Import",
            "SlotConversion",
            "Decode",
            "Encode",
            "Selection",
            "MapConstructor",
            "Host",
            "CompileTime",
            "Method",
            "Function",
        ]
    );
    let tagged = tag("Ok");
    assert!(matches!(
        call_form(&tagged, &owners, answering(0)),
        CallForm::Tag("Ok")
    ));
    let family = name("User");
    assert!(matches!(
        call_form(&family, &owners, answering(0)),
        CallForm::Family("module:User")
    ));
}
