//! Texts, names, types and their normal forms.
use aven_check::collections::{insert_name, text_precedes, StringMap, StringSet};
use aven_check::normalize::{
    normalize, normalize_for_demand, reflection_subject_is_unresolved, strip_nullable,
    strip_optional, take_nullable, type_admits_undefined, unfold_recursive_type_once,
    RecursiveTypes,
};
use aven_check::schemes::{
    export_generic_name, instantiate_type_variables, scheme_from_global, type_variable_order,
};
use aven_check::span::Span;
use aven_check::text::{
    begins_lowercase, begins_uppercase, concat3, join, parse_i64, remove_separators, same_text,
    signed_text, texts_contain, unsigned_text,
};
use aven_check::type_ops::{
    free_metas, is_float_literal_text, is_resolved_value_type, literal_variant_base, named_builtin,
    numeric_type_name, type_contains_deferred, type_variable_names, widen_literal_method_owner,
    LiteralBase,
};
use aven_check::types::{Literal, RecursiveTypeId, Row, RowEntry, RowTail, Type};

fn named(name: &str) -> Type {
    named_builtin(name)
}

fn variable(name: &str) -> Type {
    Type::Variable(name.to_string())
}

fn number(text: &str) -> RowEntry {
    RowEntry::Literal {
        value: Literal::Number(text.to_string()),
    }
}

fn variant(entries: Vec<RowEntry>) -> Type {
    Type::Variant(Row {
        entries,
        tail: RowTail::Closed,
    })
}

fn function(params: Vec<Type>, result: Type) -> Type {
    let required = params.len();
    Type::Function {
        params,
        result: Box::new(result),
        required,
    }
}

#[test]
fn initial_letters_decide_the_case_of_a_name() {
    assert!(begins_uppercase("User"));
    assert!(begins_uppercase("Éclair"));
    assert!(!begins_uppercase("user"));
    assert!(!begins_uppercase("_User"));
    assert!(!begins_uppercase(""));
    assert!(begins_lowercase("user"));
    assert!(begins_lowercase("éclair"));
    assert!(!begins_lowercase("User"));
    assert!(!begins_lowercase("1"));
    assert!(!begins_lowercase(""));
}

#[test]
fn texts_are_compared_and_joined() {
    assert!(same_text("a", "a"));
    assert!(!same_text("a", "b"));
    assert_eq!(concat3("a", "", "c"), "ac");
    let parts = vec!["x".to_string(), "y".to_string(), "z".to_string()];
    assert_eq!(join(&parts, ", "), "x, y, z");
    assert_eq!(join(&vec![], ", "), "");
    assert!(texts_contain(&parts, "y"));
    assert!(!texts_contain(&parts, "w"));
}

#[test]
fn numerals_are_written_and_read() {
    assert_eq!(unsigned_text(0), "0");
    assert_eq!(unsigned_text(18446744073709551615), "18446744073709551615");
    assert_eq!(signed_text(-9223372036854775808), "-9223372036854775808");
    assert_eq!(signed_text(42), "42");
    assert_eq!(parse_i64("42"), Some(42));
    assert_eq!(parse_i64("-7"), Some(-7));
    assert_eq!(parse_i64("9223372036854775807"), Some(i64::MAX));
    assert_eq!(parse_i64("9223372036854775808"), None);
    assert_eq!(parse_i64(""), None);
    assert_eq!(parse_i64("1x"), None);
    assert_eq!(remove_separators("1_000_000"), "1000000");
}

#[test]
fn spans_cover_and_merge() {
    let outer = Span::new(2, 9);
    assert!(outer.contains(Span::new(3, 9)));
    assert!(!outer.contains(Span::new(1, 4)));
    assert_eq!(Span::new(4, 6).merge(Span::new(1, 5)), Span::new(1, 6));
    assert!(Span::point(3).is_empty());
    assert!(!outer.is_empty());
}

#[test]
fn later_bindings_replace_earlier_ones() {
    let mut map: StringMap<u8> = StringMap::new();
    map.insert("a".to_string(), 1);
    map.insert("b".to_string(), 2);
    map.insert("a".to_string(), 3);
    assert_eq!(map.get("a"), Some(&3));
    assert_eq!(map.get("b"), Some(&2));
    assert_eq!(map.get("c"), None);
    assert!(map.contains_key("b"));
}

#[test]
fn sets_hold_a_name_once() {
    let mut set = StringSet::new();
    assert!(set.insert("a".to_string()));
    assert!(!set.insert("a".to_string()));
    assert!(set.contains("a"));
    set.remove("a");
    assert!(!set.contains("a"));
}

#[test]
fn names_are_kept_in_order() {
    assert!(text_precedes("a", "ab"));
    assert!(text_precedes("ab", "b"));
    assert!(!text_precedes("b", "b"));
    let mut names = vec![];
    for name in ["c", "a", "b", "a"] {
        insert_name(&mut names, name);
    }
    assert_eq!(names, vec!["a", "b", "c"]);
}

#[test]
fn literals_widen_to_their_base() {
    let one = Row {
        entries: vec![number("1"), number("2")],
        tail: RowTail::Open,
    };
    assert_eq!(literal_variant_base(&one), Some(LiteralBase::Number));
    assert_eq!(widen_literal_method_owner(&variant(vec![number("1")])), named("Int"));
    assert_eq!(widen_literal_method_owner(&variant(vec![number("1.5")])), named("Float"));
    let text = RowEntry::Literal {
        value: Literal::String("\"a\"".to_string()),
    };
    assert_eq!(widen_literal_method_owner(&variant(vec![text])), named("Text"));
    assert_eq!(widen_literal_method_owner(&named("User")), named("User"));
    assert!(is_float_literal_text("1.5"));
    assert!(!is_float_literal_text("15"));
    assert_eq!(numeric_type_name(&named("Int")), Some("Int"));
    assert_eq!(numeric_type_name(&named("Text")), None);
}

#[test]
fn unknown_parts_are_found_anywhere() {
    let nested = Type::Tuple(vec![named("Int"), Type::Optional(Box::new(Type::Deferred))]);
    assert!(type_contains_deferred(&nested));
    assert!(!type_contains_deferred(&named("Int")));
    assert!(!is_resolved_value_type(&nested));
    assert!(is_resolved_value_type(&named("Int")));
    assert!(!is_resolved_value_type(&Type::Meta(1)));
    assert_eq!(free_metas(&Type::Tuple(vec![Type::Meta(3), Type::Meta(1)])), vec![3, 1]);
}

#[test]
fn type_variables_are_listed() {
    let ty = function(vec![variable("b"), variable("a")], variable("b"));
    assert_eq!(type_variable_names(&ty), vec!["a", "b"]);
    assert_eq!(type_variable_order(&ty), vec!["b", "a"]);
}

#[test]
fn normal_forms_replace_names_and_merge_empties() {
    let mut definitions = StringMap::new();
    definitions.insert("Age".to_string(), named("Int"));
    definitions.insert("MaybeAge".to_string(), Type::Optional(Box::new(named("Age"))));
    definitions.insert("Loop".to_string(), Type::Tuple(vec![named("Loop")]));
    assert_eq!(normalize(&named("Age"), &definitions), named("Int"));
    let twice = Type::Optional(Box::new(named("MaybeAge")));
    assert_eq!(
        normalize(&twice, &definitions),
        Type::Optional(Box::new(named("Int")))
    );
    assert_eq!(
        normalize(&named("Loop"), &definitions),
        Type::Tuple(vec![named("Loop")])
    );
    assert_eq!(normalize(&named("Other"), &definitions), named("Other"));
    assert!(type_admits_undefined(&named("MaybeAge"), &definitions));
    assert!(!type_admits_undefined(&named("Age"), &definitions));
    assert_eq!(strip_optional(&named("MaybeAge"), &definitions), named("Int"));
    let nullable = Type::Nullable(Box::new(named("Age")));
    assert_eq!(strip_nullable(&nullable, &definitions), named("Int"));
    assert_eq!(take_nullable(&named("Age"), &definitions), named("Int"));
}

#[test]
fn recursive_types_unfold_once() {
    let id = RecursiveTypeId(7);
    let head = Type::Tuple(vec![Type::Recursive(id)]);
    let recursive = RecursiveTypes {
        entries: vec![(id, head.clone())],
    };
    assert_eq!(unfold_recursive_type_once(&Type::Recursive(id), &recursive), head);
    let unknown = Type::Recursive(RecursiveTypeId(8));
    assert_eq!(unfold_recursive_type_once(&unknown, &recursive), unknown);
    let wrapped = Type::Optional(Box::new(Type::Recursive(id)));
    assert_eq!(
        normalize_for_demand(&wrapped, &StringMap::new(), &recursive),
        Type::Optional(Box::new(head))
    );
}

#[test]
fn only_builtin_names_are_resolved_subjects() {
    let builtins = vec!["Int".to_string()];
    assert!(!reflection_subject_is_unresolved(&named("Int"), &builtins));
    assert!(reflection_subject_is_unresolved(&named("User"), &builtins));
    assert!(reflection_subject_is_unresolved(&Type::Deferred, &builtins));
}

#[test]
fn globals_are_quantified_in_order() {
    let ty = function(vec![variable("b"), variable("a")], variable("b"));
    let scheme = scheme_from_global(&ty, 10);
    assert_eq!(scheme.vars, vec![10, 11]);
    assert_eq!(
        scheme.ty,
        function(vec![Type::Meta(10), Type::Meta(11)], Type::Meta(10))
    );
}

#[test]
fn rigid_variables_are_not_instantiated() {
    let mut metas = StringMap::new();
    metas.insert("a".to_string(), Type::Meta(1));
    let mut rigid = StringSet::new();
    rigid.insert("r".to_string());
    let ty = Type::Tuple(vec![variable("a"), variable("b"), variable("r")]);
    let (instantiated, next) = instantiate_type_variables(&ty, &mut metas, &rigid, 5);
    assert_eq!(
        instantiated,
        Type::Tuple(vec![Type::Meta(1), Type::Meta(5), variable("r")])
    );
    assert_eq!(next, 6);
    assert_eq!(metas.get("b"), Some(&Type::Meta(5)));
}

#[test]
fn exported_variables_are_letters_and_then_numbered() {
    assert_eq!(export_generic_name(0), "a");
    assert_eq!(export_generic_name(25), "z");
    assert_eq!(export_generic_name(26), "t26");
}
