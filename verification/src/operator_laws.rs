//! What operators make of their operands.
use crate::builtin_methods::{builtin_method, builtin_signature, BuiltinResult, BuiltinType};
use crate::equality::EqualityCompatibility;
use crate::operators::{
    binary_typing, can_be_empty, divisor_type_is_zero, divisor_verdict, fallback_is_dead,
    invalid_result, invalid_unary_result, is_int_operand, pending, unary_rule, DivisorVerdict,
    SpecOperands, SpecRule, SpecTyping,
};
use crate::rows::{peeled_values, with_empty, EmptyValue};
use crate::type_ops::{float_text, resolved, row_base, row_has_base, LiteralBase};
use crate::types::{SpecRowEntry, SpecType};
use vstd::prelude::*;

verus! {

/// How the names of the operators and of the builtin types are spelled.
pub proof fn spellings()
    ensures
        "+"@.len() == 1 && "+"@[0] == '+',
        "-"@.len() == 1 && "-"@[0] == '-',
        "*"@.len() == 1 && "*"@[0] == '*',
        "/"@.len() == 1 && "/"@[0] == '/',
        "%"@.len() == 1 && "%"@[0] == '%',
        "^"@.len() == 1 && "^"@[0] == '^',
        "!"@.len() == 1 && "!"@[0] == '!',
        "<"@.len() == 1 && "<"@[0] == '<',
        ">"@.len() == 1 && ">"@[0] == '>',
        "<="@.len() == 2 && "<="@[0] == '<',
        ">="@.len() == 2 && ">="@[0] == '>',
        "=="@.len() == 2 && "=="@[0] == '=',
        "!="@.len() == 2 && "!="@[0] == '!',
        "&&"@.len() == 2 && "&&"@[0] == '&',
        "||"@.len() == 2 && "||"@[0] == '|',
        "??"@.len() == 2 && "??"@[0] == '?',
        "Int"@.len() == 3,
        "Float"@.len() == 5,
        "Undefined"@.len() == 9,
        "Text"@.len() == 4 && "Text"@[0] == 'T',
        "Bool"@.len() == 4 && "Bool"@[0] == 'B',
        "Null"@.len() == 4 && "Null"@[0] == 'N',
{
    reveal_strlit("+");
    reveal_strlit("-");
    reveal_strlit("*");
    reveal_strlit("/");
    reveal_strlit("%");
    reveal_strlit("^");
    reveal_strlit("!");
    reveal_strlit("<");
    reveal_strlit(">");
    reveal_strlit("<=");
    reveal_strlit(">=");
    reveal_strlit("==");
    reveal_strlit("!=");
    reveal_strlit("&&");
    reveal_strlit("||");
    reveal_strlit("??");
    reveal_strlit("Int");
    reveal_strlit("Float");
    reveal_strlit("Undefined");
    reveal_strlit("Text");
    reveal_strlit("Bool");
    reveal_strlit("Null");
}

/// The operators that make a number of two numbers.
pub open spec fn computes(operator: Seq<char>) -> bool {
    seq!["+"@, "-"@, "*"@, "/"@, "%"@, "^"@].contains(operator)
}

/// The operators that put two numbers in order.
pub open spec fn orders(operator: Seq<char>) -> bool {
    seq!["<"@, "<="@, ">"@, ">="@].contains(operator)
}

/// The operators that ask whether two values are equal.
pub open spec fn equates(operator: Seq<char>) -> bool {
    seq!["=="@, "!="@].contains(operator)
}

/// The operators on truth values.
pub open spec fn connects(operator: Seq<char>) -> bool {
    seq!["&&"@, "||"@].contains(operator)
}

/// The operators of each group.
pub proof fn groups_of_operators(operator: Seq<char>)
    ensures
        computes(operator) <==> operator == "+"@ || operator == "-"@ || operator == "*"@ || operator
            == "/"@ || operator == "%"@ || operator == "^"@,
        orders(operator) <==> operator == "<"@ || operator == "<="@ || operator == ">"@ || operator
            == ">="@,
        equates(operator) <==> operator == "=="@ || operator == "!="@,
        connects(operator) <==> operator == "&&"@ || operator == "||"@,
{
    let a = seq!["+"@, "-"@, "*"@, "/"@, "%"@, "^"@];
    let b = seq!["<"@, "<="@, ">"@, ">="@];
    let c = seq!["=="@, "!="@];
    let d = seq!["&&"@, "||"@];
    assert(a[0] == "+"@ && a[1] == "-"@ && a[2] == "*"@ && a[3] == "/"@ && a[4] == "%"@ && a[5]
        == "^"@);
    assert(b[0] == "<"@ && b[1] == "<="@ && b[2] == ">"@ && b[3] == ">="@);
    assert(c[0] == "=="@ && c[1] == "!="@);
    assert(d[0] == "&&"@ && d[1] == "||"@);
}

/// The type of a name.
pub open spec fn named(name: Seq<char>) -> SpecType {
    SpecType::Named(name)
}

/// Whether a type is `Int` or `Float`.
pub open spec fn is_number_type(ty: SpecType) -> bool {
    ty == named("Int"@) || ty == named("Float"@)
}

/// Whether a type lists texts and nothing else.
pub open spec fn lists_texts(ty: SpecType) -> bool {
    ty is Variant && ty->Variant_0.entries.len() > 0 && forall|i: int|
        0 <= i < ty->Variant_0.entries.len() ==> #[trigger] ty->Variant_0.entries[i] is Literal
            && ty->Variant_0.entries[i]->Literal_value is String
}

/// Whether a type lists truth values and nothing else.
pub open spec fn lists_truth_values(ty: SpecType) -> bool {
    ty is Variant && ty->Variant_0.entries.len() > 0 && forall|i: int|
        0 <= i < ty->Variant_0.entries.len() ==> #[trigger] ty->Variant_0.entries[i] is Literal
            && ty->Variant_0.entries[i]->Literal_value is Bool
}

/// Whether a type lists numbers and nothing else.
pub open spec fn lists_numbers(ty: SpecType) -> bool {
    ty is Variant && ty->Variant_0.entries.len() > 0 && forall|i: int|
        0 <= i < ty->Variant_0.entries.len() ==> #[trigger] ty->Variant_0.entries[i] is Literal
            && ty->Variant_0.entries[i]->Literal_value is Number
}

/// Whether a number is written with a point or an exponent.
pub open spec fn is_written_with_a_point(entry: SpecRowEntry) -> bool {
    entry is Literal && entry->Literal_value is Number && exists|i: int|
        0 <= i < entry->Literal_value->Number_0.len() && ((
        #[trigger] entry->Literal_value->Number_0[i]) == '.' || entry->Literal_value->Number_0[i]
            == 'e' || entry->Literal_value->Number_0[i] == 'E')
}

/// Whether a type lists a number that is written with a point or an exponent.
pub open spec fn lists_a_point(ty: SpecType) -> bool {
    exists|i: int|
        0 <= i < ty->Variant_0.entries.len() && is_written_with_a_point(
            #[trigger] ty->Variant_0.entries[i],
        )
}

/// Rows of literals have the base of their literals.
pub proof fn literals_have_their_base(ty: SpecType)
    ensures
        lists_texts(ty) ==> row_base(ty->Variant_0) == Some(LiteralBase::Text),
        lists_truth_values(ty) ==> row_base(ty->Variant_0) == Some(LiteralBase::Bool),
        lists_numbers(ty) ==> row_base(ty->Variant_0) == Some(LiteralBase::Number),
        ty is Variant && row_base(ty->Variant_0) is Some ==> lists_texts(ty) || lists_truth_values(
            ty,
        ) || lists_numbers(ty),
{
    if ty is Variant && ty->Variant_0.entries.len() > 0 {
        let row = ty->Variant_0;
        let first = row.entries[0];
        if lists_texts(ty) {
            assert(row_has_base(row, LiteralBase::Text));
        }
        if lists_truth_values(ty) {
            assert(crate::type_ops::entry_has_base(first, LiteralBase::Bool));
            assert(!row_has_base(row, LiteralBase::Text));
            assert(row_has_base(row, LiteralBase::Bool));
        }
        if lists_numbers(ty) {
            assert(crate::type_ops::entry_has_base(first, LiteralBase::Number));
            assert(!row_has_base(row, LiteralBase::Text));
            assert(!row_has_base(row, LiteralBase::Bool));
            assert(row_has_base(row, LiteralBase::Number));
        }
        if row_has_base(row, LiteralBase::Text) {
            assert forall|i: int| 0 <= i < row.entries.len() implies #[trigger] row.entries[i]
                is Literal && row.entries[i]->Literal_value is String by {
                assert(crate::type_ops::entry_has_base(row.entries[i], LiteralBase::Text));
            }
        }
        if row_has_base(row, LiteralBase::Bool) {
            assert forall|i: int| 0 <= i < row.entries.len() implies #[trigger] row.entries[i]
                is Literal && row.entries[i]->Literal_value is Bool by {
                assert(crate::type_ops::entry_has_base(row.entries[i], LiteralBase::Bool));
            }
        }
        if row_has_base(row, LiteralBase::Number) {
            assert forall|i: int| 0 <= i < row.entries.len() implies #[trigger] row.entries[i]
                is Literal && row.entries[i]->Literal_value is Number by {
                assert(crate::type_ops::entry_has_base(row.entries[i], LiteralBase::Number));
            }
        }
    }
}

/// A type lists floating-point numbers exactly where one is written with a point or an exponent.
pub proof fn points_make_floats(ty: SpecType)
    requires
        ty is Variant,
    ensures
        crate::type_ops::lists_float(ty->Variant_0) == lists_a_point(ty),
{
    let row = ty->Variant_0;
    assert forall|i: int| 0 <= i < row.entries.len() implies crate::type_ops::float_entry(
        #[trigger] row.entries[i],
    ) == is_written_with_a_point(row.entries[i]) by {
        if row.entries[i] is Literal && row.entries[i]->Literal_value is Number {
            let text = row.entries[i]->Literal_value->Number_0;
            if float_text(text) {
                if text.contains('.') {
                    let k = choose|k: int| 0 <= k < text.len() && text[k] == '.';
                    assert(text[k] == '.');
                } else if text.contains('e') {
                    let k = choose|k: int| 0 <= k < text.len() && text[k] == 'e';
                    assert(text[k] == 'e');
                } else {
                    let k = choose|k: int| 0 <= k < text.len() && text[k] == 'E';
                    assert(text[k] == 'E');
                }
            }
            if is_written_with_a_point(row.entries[i]) {
                let k = choose|k: int|
                    0 <= k < text.len() && ((#[trigger] text[k]) == '.' || text[k] == 'e' || text[k]
                        == 'E');
                assert(text.contains(text[k]));
            }
        }
    }
    if crate::type_ops::lists_float(row) {
        let i = choose|i: int|
            0 <= i < row.entries.len() && crate::type_ops::float_entry(#[trigger] row.entries[i]);
        assert(is_written_with_a_point(ty->Variant_0.entries[i]));
    }
    if lists_a_point(ty) {
        let i = choose|i: int|
            0 <= i < ty->Variant_0.entries.len() && is_written_with_a_point(
                #[trigger] ty->Variant_0.entries[i],
            );
        assert(crate::type_ops::float_entry(row.entries[i]));
    }
}

/// What the builtin numbers answer to operators.
proof fn builtin_answers(operator: Seq<char>)
    ensures
        computes(operator) ==> builtin_method(BuiltinType::Int, operator) == Some(
            (seq![BuiltinType::Int], BuiltinResult::Plain(BuiltinType::Int)),
        ) && builtin_method(BuiltinType::Float, operator) == Some(
            (seq![BuiltinType::Float], BuiltinResult::Plain(BuiltinType::Float)),
        ),
        orders(operator) ==> builtin_method(BuiltinType::Int, operator) == Some(
            (seq![BuiltinType::Int], BuiltinResult::Plain(BuiltinType::Bool)),
        ) && builtin_method(BuiltinType::Float, operator) == Some(
            (seq![BuiltinType::Float], BuiltinResult::Plain(BuiltinType::Bool)),
        ),
        BuiltinType::of(named("Int"@)) == Some(BuiltinType::Int),
        BuiltinType::of(named("Float"@)) == Some(BuiltinType::Float),
{
    spellings();
    groups_of_operators(operator);
    reveal_strlit("min");
    reveal_strlit("max");
    reveal_strlit("pow");
}

proof fn number_signatures(operator: Seq<char>, ty: SpecType)
    requires
        is_number_type(ty),
        computes(operator) || orders(operator),
    ensures
        builtin_signature(ty, operator) is Some,
        builtin_signature(ty, operator)->0.params =~= seq![ty],
        builtin_signature(ty, operator)->0.result == (if computes(operator) {
            ty
        } else {
            named("Bool"@)
        }),
{
    spellings();
    groups_of_operators(operator);
    builtin_answers(operator);
}

/// Where no family decides, numbers give a number: `Float` where one of the two is, and `Int`
/// otherwise. Put in order, they give a truth value.
pub proof fn numbers_give_numbers(facts: SpecOperands, next: int)
    requires
        facts.family_result is None,
        facts.left_base is None,
        facts.right_base is None,
        is_number_type(facts.left),
        is_number_type(facts.right),
        computes(facts.operator) || orders(facts.operator),
    ensures
        binary_typing(facts, next).0 == (SpecTyping {
            left: facts.left,
            right: facts.right,
            rule: SpecRule::Accept(
                if orders(facts.operator) {
                    named("Bool"@)
                } else if facts.left == named("Float"@) || facts.right == named("Float"@) {
                    named("Float"@)
                } else {
                    named("Int"@)
                },
            ),
        }),
        binary_typing(facts, next).1 == next,
{
    let float = named("Float"@);
    let whole = named("Int"@);
    spellings();
    groups_of_operators(facts.operator);
    number_signatures(facts.operator, facts.left);
    number_signatures(facts.operator, facts.right);
    number_signatures(facts.operator, float);
    builtin_answers(facts.operator);
    assert(seq![whole][0] == whole);
    assert(seq![float][0] == float);
    assert(BuiltinType::Float.named() == float);
}

/// An operand that is not known takes the type of the other one, where that is a number.
pub proof fn unknown_operands_take_the_other_number(facts: SpecOperands, next: int)
    requires
        facts.family_result is None,
        facts.left_base is None,
        facts.right_base is None,
        computes(facts.operator) || orders(facts.operator),
    ensures
        facts.left is Meta && is_number_type(facts.right) ==> binary_typing(facts, next).0.rule == (
        SpecRule::UnifyLeft {
            with: facts.right,
            result: if orders(facts.operator) {
                named("Bool"@)
            } else {
                facts.right
            },
        }),
        is_number_type(facts.left) && facts.right is Meta ==> binary_typing(facts, next).0.rule == (
        SpecRule::UnifyRight {
            with: facts.left,
            result: if orders(facts.operator) {
                named("Bool"@)
            } else {
                facts.left
            },
        }),
        facts.left is Meta && facts.right is Meta && (facts.left_is_number
            || facts.right_is_number) ==> binary_typing(facts, next).0.rule == (
        SpecRule::UnifyOperands {
            result: if orders(facts.operator) {
                Some(named("Bool"@))
            } else {
                None
            },
        }),
        facts.left is Meta && facts.right is Meta && !facts.left_is_number
            && !facts.right_is_number ==> binary_typing(facts, next).0.rule is Reject,
{
    let float = named("Float"@);
    let whole = named("Int"@);
    spellings();
    groups_of_operators(facts.operator);
    number_signatures(facts.operator, whole);
    number_signatures(facts.operator, float);
    builtin_answers(facts.operator);
    assert(seq![whole][0] == whole);
    assert(seq![float][0] == float);
}

/// Number literals count as an unknown number, which takes the type of the other operand; a
/// single one that is written with a point counts as `Float`.
pub proof fn number_literals_count_as_numbers(facts: SpecOperands, next: int)
    requires
        facts.family_result is None,
        facts.left_base is None,
        facts.right_base is None,
        computes(facts.operator) || orders(facts.operator),
        lists_numbers(facts.left),
        !(facts.left->Variant_0.tail is Open),
        is_number_type(facts.right),
    ensures
        ({
            let typing = binary_typing(facts, next);
            let result = if orders(facts.operator) {
                named("Bool"@)
            } else {
                facts.right
            };
            if facts.left->Variant_0.entries.len() == 1 && lists_a_point(facts.left) {
                &&& typing.0.left == named("Float"@)
                &&& typing.0.rule == SpecRule::Accept(
                    if orders(facts.operator) {
                        named("Bool"@)
                    } else {
                        named("Float"@)
                    },
                )
                &&& typing.1 == next
            } else {
                &&& typing.0.left == SpecType::Meta(next as u32)
                &&& typing.0.rule == SpecRule::UnifyLeft { with: facts.right, result }
                &&& typing.1 == next + 1
            }
        }),
{
    let float = named("Float"@);
    let whole = named("Int"@);
    spellings();
    groups_of_operators(facts.operator);
    number_signatures(facts.operator, whole);
    number_signatures(facts.operator, float);
    builtin_answers(facts.operator);
    literals_have_their_base(facts.left);
    points_make_floats(facts.left);
    assert(seq![whole][0] == whole);
    assert(seq![float][0] == float);
    assert(BuiltinType::Float.named() == float);
    if facts.left->Variant_0.entries.len() == 1 {
        let entry = facts.left->Variant_0.entries[0];
        assert(entry is Literal && entry->Literal_value is Number);
        if lists_a_point(facts.left) {
            assert(is_written_with_a_point(entry));
        }
        if float_text(entry->Literal_value->Number_0) {
            assert(crate::type_ops::float_entry(entry));
        }
        if crate::type_ops::lists_float(facts.left->Variant_0) {
            assert(crate::type_ops::float_entry(entry));
        }
    }
}

/// `+` joins two texts. A text and a number are not added, and no other operator computes with
/// texts.
pub proof fn texts_are_joined(facts: SpecOperands, next: int)
    requires
        facts.family_result is None,
        facts.left_base is None,
        facts.right_base is None,
        facts.left == named("Text"@) || lists_texts(facts.left),
    ensures
        facts.operator == "+"@ && (facts.right == named("Text"@) || lists_texts(facts.right))
            ==> binary_typing(facts, next).0.rule == SpecRule::Accept(named("Text"@)),
        facts.operator == "+"@ && facts.right is Meta ==> binary_typing(facts, next).0.rule == (
        SpecRule::UnifyRight { with: named("Text"@), result: named("Text"@) }),
        facts.operator == "+"@ && is_number_type(facts.right) ==> binary_typing(
            facts,
            next,
        ).0.rule is Reject,
        facts.operator != "+"@ && (computes(facts.operator) || orders(facts.operator) || connects(
            facts.operator,
        )) ==> binary_typing(facts, next).0.rule is Reject,
{
    spellings();
    groups_of_operators(facts.operator);
    literals_have_their_base(facts.left);
    literals_have_their_base(facts.right);
}

/// The operators on truth values take truth values and give one; they take nothing else.
pub proof fn truth_values_are_connected(facts: SpecOperands, next: int)
    requires
        facts.family_result is None,
        facts.left_base is None,
        facts.right_base is None,
        connects(facts.operator),
    ensures
        ({
            let left = facts.left == named("Bool"@) || lists_truth_values(facts.left);
            let right = facts.right == named("Bool"@) || lists_truth_values(facts.right);
            let answer = named("Bool"@);
            let rule = binary_typing(facts, next).0.rule;
            &&& left && right ==> rule == SpecRule::Accept(answer)
            &&& left && facts.right is Meta ==> rule == (SpecRule::UnifyRight {
                with: answer,
                result: answer,
            })
            &&& facts.left is Meta && right ==> rule == (SpecRule::UnifyLeft {
                with: answer,
                result: answer,
            })
            &&& !left && !(facts.left is Meta) ==> rule is Reject
            &&& !right && !(facts.right is Meta) ==> rule is Reject
        }),
{
    spellings();
    groups_of_operators(facts.operator);
    literals_have_their_base(facts.left);
    literals_have_their_base(facts.right);
}

/// A method of the left operand's family decides before everything else.
pub proof fn methods_of_families_decide(facts: SpecOperands, next: int, result: SpecType)
    requires
        facts.family_result == Some(result),
    ensures
        binary_typing(facts, next).0 == (SpecTyping {
            left: facts.left,
            right: facts.right,
            rule: SpecRule::Accept(result),
        }),
        binary_typing(facts, next).1 == next,
{
}

/// A value of a family on a builtin type counts as a value of that type, for the operators on
/// numbers, texts and truth values.
pub proof fn families_count_as_their_base(facts: SpecOperands, next: int, name: Seq<char>)
    requires
        facts.family_result is None,
        computes(facts.operator) || orders(facts.operator) || connects(facts.operator),
    ensures
        facts.left_base == Some(named(name)) ==> binary_typing(facts, next) == binary_typing(
            SpecOperands { left: named(name), left_base: None, ..facts },
            next,
        ),
        facts.right_base == Some(named(name)) ==> binary_typing(facts, next) == binary_typing(
            SpecOperands { right: named(name), right_base: None, ..facts },
            next,
        ),
{
    spellings();
    groups_of_operators(facts.operator);
}

/// Whatever a test for equality asks for, it gives a truth value.
pub proof fn equality_gives_a_truth_value(facts: SpecOperands, next: int)
    requires
        facts.family_result is None,
        equates(facts.operator),
    ensures
        match binary_typing(facts, next).0.rule {
            SpecRule::Accept(ty) => ty == named("Bool"@),
            SpecRule::UnifyOperands { result } => result == Some(named("Bool"@)),
            SpecRule::UnifyLeft { with, result } => result == named("Bool"@) && with
                == binary_typing(facts, next).0.right,
            SpecRule::UnifyRight { with, result } => result == named("Bool"@) && with
                == binary_typing(facts, next).0.left,
            _ => true,
        },
{
    spellings();
    groups_of_operators(facts.operator);
}

/// Two numbers can be compared, and so can two records unless their fields do not fit. Other
/// known types are compared with each other.
pub proof fn known_operands_are_compared(facts: SpecOperands, next: int)
    requires
        facts.family_result is None,
        equates(facts.operator),
    ensures
        is_number_type(facts.left) && is_number_type(facts.right) ==> binary_typing(
            facts,
            next,
        ).0.rule == SpecRule::Accept(named("Bool"@)),
        facts.left is Record && facts.right is Record ==> binary_typing(facts, next).0.rule == (
        if facts.records == EqualityCompatibility::Mismatched {
            SpecRule::Reject
        } else {
            SpecRule::Accept(named("Bool"@))
        }),
        facts.left is Named && facts.right is Named && !(is_number_type(facts.left)
            && is_number_type(facts.right)) ==> binary_typing(facts, next).0.rule
            is CompareTypes,
        facts.left is Named && lists_texts(facts.right) ==> binary_typing(facts, next).0 == (
        SpecTyping { left: facts.left, right: named("Text"@), rule: SpecRule::CompareTypes }),
        facts.left is Meta && facts.right is Named ==> binary_typing(facts, next).0.rule == (
        SpecRule::UnifyLeft { with: facts.right, result: named("Bool"@) }),
        facts.left is Named && facts.right is Meta ==> binary_typing(facts, next).0.rule == (
        SpecRule::UnifyRight { with: facts.left, result: named("Bool"@) }),
{
    spellings();
    groups_of_operators(facts.operator);
    literals_have_their_base(facts.right);
    assert(facts.left is Named ==> resolved(facts.left));
    assert(facts.right is Named ==> resolved(facts.right));
    assert(resolved(named("Text"@)));
    assert(resolved(named("Bool"@)));
    assert(resolved(named("Float"@)));
}

/// `??` gives what the left operand holds where the right one fits that, and otherwise the
/// right operand where what the left holds fits it.
pub proof fn fallbacks_stand_for_what_is_absent(facts: SpecOperands, next: int, inner: SpecType)
    requires
        facts.family_result is None,
        facts.operator == "??"@,
        facts.left == SpecType::Optional(Box::new(inner)) || facts.left == SpecType::Nullable(
            Box::new(inner),
        ),
        !(inner is Optional),
        !(inner is Nullable),
    ensures
        binary_typing(facts, next).0.rule == (if facts.right_fits_payload {
            SpecRule::Accept(inner)
        } else if facts.payload_fits_right {
            SpecRule::Accept(facts.right)
        } else {
            SpecRule::Reject
        }),
{
    spellings();
    reveal_with_fuel(crate::rows::peeled_payload, 3);
}

/// No other operator takes operands by itself.
pub proof fn other_operators_are_refused(facts: SpecOperands, next: int)
    requires
        facts.family_result is None,
        !computes(facts.operator),
        !orders(facts.operator),
        !equates(facts.operator),
        !connects(facts.operator),
        facts.operator != "??"@,
    ensures
        binary_typing(facts, next).0.rule is Reject,
{
    spellings();
    groups_of_operators(facts.operator);
}

proof fn empty_values_are_kept(ty: SpecType, seen: Seq<EmptyValue>)
    ensures
        peeled_values(ty, seen).len() >= seen.len(),
    decreases ty,
{
    match ty {
        SpecType::Optional(inner) => {
            empty_values_are_kept(*inner, with_empty(seen, EmptyValue::Undefined));
        },
        SpecType::Nullable(inner) => {
            empty_values_are_kept(*inner, with_empty(seen, EmptyValue::Null));
        },
        _ => {},
    }
}

/// The fallback of `??` is never used exactly where the left operand is known and cannot be
/// empty.
pub proof fn fallbacks_are_dead_where_nothing_is_absent(left: SpecType, depends: bool)
    ensures
        left is Optional ==> can_be_empty(left) && !fallback_is_dead(left, depends),
        left is Nullable ==> can_be_empty(left) && !fallback_is_dead(left, depends),
        left is Named ==> (can_be_empty(left) <==> left == named("Null"@) || left == named(
            "Undefined"@,
        )),
        left is Named && !depends ==> fallback_is_dead(left, depends) == !can_be_empty(left),
        depends ==> !fallback_is_dead(left, depends),
        left is Meta ==> !fallback_is_dead(left, depends),
{
    spellings();
    if left is Optional || left is Nullable {
        let none = Seq::<EmptyValue>::empty();
        let first = if left is Optional {
            EmptyValue::Undefined
        } else {
            EmptyValue::Null
        };
        let inner = if left is Optional {
            *left->Optional_0
        } else {
            *left->Nullable_0
        };
        empty_values_are_kept(inner, with_empty(none, first));
    }
    assert(left is Named ==> resolved(left));
    assert(left is Meta ==> !resolved(left));
}

/// A minus keeps the type of a number and takes nothing else; a negation takes a truth value.
pub proof fn unary_operators_keep_the_type(operator: Seq<char>, value: SpecType, numeric: bool)
    ensures
        operator == "-"@ ==> unary_rule(operator, value, numeric) == (if is_number_type(value)
            || numeric {
            SpecRule::Accept(value)
        } else {
            SpecRule::Reject
        }),
        operator == "!"@ && value == named("Bool"@) ==> unary_rule(operator, value, numeric)
            == SpecRule::Accept(value),
        operator == "!"@ && value is Meta ==> unary_rule(operator, value, numeric) == (
        SpecRule::UnifyLeft { with: named("Bool"@), result: named("Bool"@) }),
        operator == "!"@ && !(value is Meta) && value != named("Bool"@) ==> unary_rule(
            operator,
            value,
            numeric,
        ) is Reject,
        operator != "-"@ && operator != "!"@ ==> unary_rule(operator, value, numeric) is Reject,
{
    spellings();
}

/// Whether a type is a number's, by name or by its literals.
pub open spec fn is_numbers(ty: SpecType) -> bool {
    is_number_type(ty) || lists_numbers(ty)
}

/// Whether a type is that of a number with a point, by name or by its literals.
pub open spec fn is_floats(ty: SpecType) -> bool {
    ty == named("Float"@) || lists_numbers(ty) && lists_a_point(ty)
}

/// A refused operation still has a type where one is plain: a test gives a truth value, and an
/// operator that computes gives the number that one operand is.
pub proof fn refused_operations_have_a_type(
    operator: Seq<char>,
    left: SpecType,
    right: SpecType,
)
    ensures
        orders(operator) || equates(operator) || connects(operator) ==> invalid_result(
            operator,
            left,
            right,
        ) == named("Bool"@),
        computes(operator) ==> invalid_result(operator, left, right) == (if is_floats(left)
            || is_floats(right) {
            named("Float"@)
        } else if is_numbers(left) || is_numbers(right) {
            named("Int"@)
        } else if operator == "+"@ && (left == named("Text"@) || lists_texts(left) || right
            == named("Text"@) || lists_texts(right)) {
            named("Text"@)
        } else {
            SpecType::Deferred
        }),
        operator == "??"@ ==> invalid_result(operator, left, right) is Deferred,
        invalid_result(operator, left, right) == invalid_result(operator, right, left),
{
    spellings();
    groups_of_operators(operator);
    literals_have_their_base(left);
    literals_have_their_base(right);
    if left is Variant {
        points_make_floats(left);
    }
    if right is Variant {
        points_make_floats(right);
    }
}

/// A refused minus still has the type of a number where its operand is one.
pub proof fn refused_signs_have_a_type(value: SpecType)
    requires
        resolved(value),
        !crate::operators::has_open_row(value),
    ensures
        invalid_unary_result("-"@, value) == Some(
            if is_floats(value) {
                named("Float"@)
            } else if is_numbers(value) {
                named("Int"@)
            } else {
                SpecType::Deferred
            },
        ),
        invalid_unary_result("!"@, value) == Some(SpecType::Deferred),
{
    spellings();
    literals_have_their_base(value);
    if value is Variant {
        points_make_floats(value);
    }
}

/// Whether a literal is an integer written with zeros alone.
pub open spec fn is_written_zero(entry: SpecRowEntry) -> bool {
    forall|i: int|
        0 <= i < entry->Literal_value->Number_0.len() ==> ((
        #[trigger] entry->Literal_value->Number_0[i]) == '0' || entry->Literal_value->Number_0[i]
            == '_')
}

/// Only the division of integers asks for its divisor. What is written decides; then the type,
/// where it lists integers that are all zero, or none of which is.
pub proof fn divisors_are_looked_at(
    operator: Seq<char>,
    both_int: bool,
    written: Option<bool>,
    right: SpecType,
)
    ensures
        (operator != "/"@ && operator != "%"@) || !both_int ==> divisor_verdict(
            operator,
            both_int,
            written,
            right,
        ) is NotChecked,
        (operator == "/"@ || operator == "%"@) && both_int ==> ({
            let verdict = divisor_verdict(operator, both_int, written, right);
            &&& written == Some(true) ==> verdict == (DivisorVerdict::Zero { written: true })
            &&& written == Some(false) ==> verdict is NonZero
            &&& written is None && !lists_numbers(right) ==> verdict is MayBeZero
            &&& written is None && lists_numbers(right) && right->Variant_0.tail is Open
                ==> verdict is MayBeZero
            &&& written is None && lists_numbers(right) && lists_a_point(right) ==> verdict
                is MayBeZero
            &&& written is None && lists_numbers(right) && !lists_a_point(right) && !(
            right->Variant_0.tail is Open) ==> {
                &&& verdict == (DivisorVerdict::Zero { written: false }) <==> forall|i: int|
                    0 <= i < right->Variant_0.entries.len() ==> is_written_zero(
                        #[trigger] right->Variant_0.entries[i],
                    )
                &&& verdict is NonZero <==> forall|i: int|
                    0 <= i < right->Variant_0.entries.len() ==> !is_written_zero(
                        #[trigger] right->Variant_0.entries[i],
                    )
                &&& verdict is MayBeZero || verdict is NonZero || verdict is Zero
            }
        }),
{
    spellings();
    literals_have_their_base(right);
    if right is Variant {
        let row = right->Variant_0;
        points_make_floats(right);
        assert forall|i: int| 0 <= i < row.entries.len() && lists_numbers(right) implies
            crate::operators::is_integer_entry(#[trigger] row.entries[i]) == !crate::type_ops::float_entry(row.entries[i])
            && crate::operators::is_zero_entry(row.entries[i]) == (!crate::type_ops::float_entry(row.entries[i]) && is_written_zero(row.entries[i])) by {
        }
        if lists_numbers(right) && crate::type_ops::lists_float(row) {
            let i = choose|i: int|
                0 <= i < row.entries.len() && crate::type_ops::float_entry(
                    #[trigger] row.entries[i],
                );
            assert(!crate::operators::is_integer_entry(row.entries[i]));
            assert(divisor_type_is_zero(right) is None);
        }
        if lists_numbers(right) && !crate::type_ops::lists_float(row) {
            assert forall|i: int| 0 <= i < row.entries.len() implies
                crate::operators::is_integer_entry(#[trigger] row.entries[i]) by {
                assert(!crate::type_ops::float_entry(row.entries[i]));
            }
            if forall|i: int|
                0 <= i < row.entries.len() ==> is_written_zero(#[trigger] row.entries[i]) {
                assert forall|i: int| 0 <= i < row.entries.len() implies
                    crate::operators::is_zero_entry(#[trigger] row.entries[i]) by {
                    assert(is_written_zero(row.entries[i]));
                }
            }
            if forall|i: int|
                0 <= i < row.entries.len() ==> crate::operators::is_zero_entry(
                    #[trigger] row.entries[i],
                ) {
                assert forall|i: int| 0 <= i < row.entries.len() implies is_written_zero(
                    #[trigger] right->Variant_0.entries[i],
                ) by {
                    assert(crate::operators::is_zero_entry(row.entries[i]));
                }
                assert(is_written_zero(right->Variant_0.entries[0]));
            }
            if forall|i: int|
                0 <= i < row.entries.len() ==> !is_written_zero(#[trigger] row.entries[i]) {
                assert(!is_written_zero(row.entries[0]));
                assert forall|i: int| 0 <= i < row.entries.len() implies
                    !crate::operators::is_zero_entry(#[trigger] row.entries[i]) by {
                    assert(!is_written_zero(row.entries[i]));
                }
            }
            if forall|i: int|
                0 <= i < row.entries.len() ==> !crate::operators::is_zero_entry(
                    #[trigger] row.entries[i],
                ) {
                assert(!crate::operators::is_zero_entry(row.entries[0]));
                assert forall|i: int| 0 <= i < row.entries.len() implies !is_written_zero(
                    #[trigger] right->Variant_0.entries[i],
                ) by {
                    assert(!crate::operators::is_zero_entry(row.entries[i]));
                }
            }
        }
    }
}

/// An operand is an integer by its name, by its family or by its literals.
pub proof fn integers_are_operands(ty: SpecType, base: Option<SpecType>)
    ensures
        is_int_operand(ty, base) <==> ty == named("Int"@) || base == Some(named("Int"@)) || (
        lists_numbers(ty) && !lists_a_point(ty)),
{
    spellings();
    literals_have_their_base(ty);
    if ty is Variant {
        points_make_floats(ty);
    }
}

/// An operation waits exactly where the left operand is not known and the operator is a method.
/// It gives a truth value where it puts in order, and the left operand's type where both
/// operands are taken for one type.
pub proof fn operations_wait_for_unknown_operands(
    operator: Seq<char>,
    is_method: bool,
    left: SpecType,
    one_type: bool,
)
    ensures
        pending(operator, is_method, left, one_type) is Some <==> is_method && (left is Meta || left
            is Variable || left is Deferred),
        match pending(operator, is_method, left, one_type) {
            Some(waiting) => {
                &&& waiting.homogeneous == one_type
                &&& waiting.checks_divisor == (operator == "/"@ || operator == "%"@)
                &&& left is Deferred <==> waiting.result is Deferred
                &&& !(left is Deferred) && orders(operator) <==> waiting.result is Bool
                &&& !(left is Deferred) && !orders(operator) && one_type <==> waiting.result
                    is LeftOperand
            },
            None => true,
        },
{
    spellings();
    groups_of_operators(operator);
}

} // verus!
