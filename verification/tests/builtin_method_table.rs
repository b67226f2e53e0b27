//! The table of methods of builtin types.
use aven_check::builtin_methods::{
    builtin_method_signature, builtin_methods, resolve_builtin_operator_signature,
};
use aven_check::methods::MethodSignature;
use aven_check::type_ops::named_builtin;
use aven_check::types::Type;

const ARITHMETIC: &[&str] = &["+", "-", "*", "/", "%", "^"];
const COMPARISONS: &[&str] = &["<", "<=", ">", ">="];

#[test]
fn table_contains_exact_current_builtin_operator_methods() {
    for (owner, arithmetic_result) in [("Int", "Int"), ("Float", "Float")] {
        for member in ARITHMETIC {
            assert_signature(owner, member, owner, arithmetic_result);
        }
        for member in COMPARISONS {
            assert_signature(owner, member, owner, "Bool");
        }
    }

    assert_signature("Text", "+", "Text", "Text");
    assert_optional_signature("Int", "div", "Int", "Int");
    assert_optional_signature("Int", "mod", "Int", "Int");
    assert_nullary_signature("Float", "isFinite", "Bool");
    assert_nullary_signature("Float", "isNaN", "Bool");
    assert_nullary_signature("Float", "isInfinite", "Bool");
    assert_signature("Float", "ieeeEquals", "Float", "Bool");
    for owner in ["Int", "Float", "Bool", "Text"] {
        assert_nullary_signature(owner, "toText", "Text");
    }
    assert_signature("Int", "toGrouped", "Text", "Text");
    assert_signature("Float", "toFixed", "Int", "Text");
    assert_nullary_signature("Int", "abs", "Int");
    assert_signature("Int", "min", "Int", "Int");
    assert_signature("Int", "max", "Int", "Int");
    assert_nullary_signature("Int", "sign", "Int");
    assert_nullary_signature("Int", "toFloat", "Float");
    assert_signature("Int", "pow", "Int", "Int");
    assert_nullary_signature("Float", "abs", "Float");
    assert_signature("Float", "min", "Float", "Float");
    assert_signature("Float", "max", "Float", "Float");
    assert_signature("Float", "pow", "Float", "Float");
    assert_nullary_signature("Float", "round", "Float");
    assert_nullary_signature("Float", "floor", "Float");
    assert_nullary_signature("Float", "ceil", "Float");
    assert_nullary_signature("Float", "truncate", "Float");
    assert_nullary_signature("Float", "sqrt", "Float");
    assert_eq!(builtin_methods().len(), 50);
}

#[test]
fn table_does_not_claim_unsupported_builtin_or_temporal_methods() {
    for owner in [
        "Bool", "Text", "Instant", "Duration", "Date", "Time", "DateTime",
    ] {
        for member in ARITHMETIC.iter().chain(COMPARISONS) {
            if owner == "Text" && *member == "+" {
                continue;
            }
            assert_eq!(
                builtin_method_signature(&named_builtin(owner), member),
                None,
                "{owner}.{member} unexpectedly exists"
            );
        }
    }
    assert_eq!(builtin_method_signature(&named_builtin("Int"), "=="), None);
}

#[test]
fn concrete_resolution_applies_only_int_to_float_promotion() {
    let int = named_builtin("Int");
    let float = named_builtin("Float");

    for member in ARITHMETIC.iter().chain(COMPARISONS) {
        let expected_result = if COMPARISONS.contains(member) {
            named_builtin("Bool")
        } else {
            float.clone()
        };
        for (left, right) in [(&int, &float), (&float, &int)] {
            assert_eq!(
                resolve_builtin_operator_signature(left, member, right),
                Some(MethodSignature {
                    params: vec![float.clone()],
                    result: expected_result.clone(),
                    predicates: Vec::new(),
                })
            );
        }
    }

    assert_eq!(
        resolve_builtin_operator_signature(&named_builtin("Text"), "+", &named_builtin("Int")),
        None
    );
}

fn assert_signature(owner: &str, member: &str, param: &str, result: &str) {
    assert_eq!(
        builtin_method_signature(&named_builtin(owner), member),
        Some(MethodSignature {
            params: vec![named_builtin(param)],
            result: named_builtin(result),
            predicates: Vec::new(),
        })
    );
}

fn assert_optional_signature(owner: &str, member: &str, param: &str, result: &str) {
    assert_eq!(
        builtin_method_signature(&named_builtin(owner), member),
        Some(MethodSignature {
            params: vec![named_builtin(param)],
            result: Type::Optional(Box::new(named_builtin(result))),
            predicates: Vec::new(),
        })
    );
}

fn assert_nullary_signature(owner: &str, member: &str, result: &str) {
    assert_eq!(
        builtin_method_signature(&named_builtin(owner), member),
        Some(MethodSignature {
            params: vec![],
            result: named_builtin(result),
            predicates: Vec::new(),
        })
    );
}
