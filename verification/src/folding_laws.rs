//! What folding operators on literals is for.
use crate::folding::{
    folded_binary, folded_unary, integer_numeral_reads_back, quoted, FloatFold,
};
use crate::text::signed_decimal;
use crate::type_ops::float_text;
use crate::types::SpecLiteral;
use vstd::prelude::*;

verus! {

/// The text of each operator differs from the others.
proof fn operators_differ()
    ensures
        "&&"@ != "||"@,
        "&&"@ != "=="@,
        "&&"@ != "!="@,
        "||"@ != "=="@,
        "||"@ != "!="@,
        "=="@ != "!="@,
        "+"@ != "-"@,
        "+"@ != "*"@,
        "+"@ != "/"@,
        "-"@ != "*"@,
        "-"@ != "/"@,
        "*"@ != "/"@,
        "=="@ != "<"@,
        "=="@ != "<="@,
        "=="@ != ">"@,
        "=="@ != ">="@,
        "!="@ != "<"@,
        "!="@ != "<="@,
        "!="@ != ">"@,
        "!="@ != ">="@,
        "<"@ != "<="@,
        "<"@ != ">"@,
        "<"@ != ">="@,
        "<="@ != ">"@,
        "<="@ != ">="@,
        ">"@ != ">="@,
        "+"@ != "=="@,
        "+"@ != "!="@,
        "+"@ != "<"@,
        "+"@ != "<="@,
        "+"@ != ">"@,
        "+"@ != ">="@,
        "-"@ != "=="@,
        "-"@ != "!="@,
        "-"@ != "<"@,
        "-"@ != "<="@,
        "-"@ != ">"@,
        "-"@ != ">="@,
        "*"@ != "=="@,
        "*"@ != "!="@,
        "*"@ != "<"@,
        "*"@ != "<="@,
        "*"@ != ">"@,
        "*"@ != ">="@,
        "/"@ != "=="@,
        "/"@ != "!="@,
        "/"@ != "<"@,
        "/"@ != "<="@,
        "/"@ != ">"@,
        "/"@ != ">="@,
        "!"@ != "-"@,
{
    reveal_strlit("&&");
    reveal_strlit("||");
    reveal_strlit("==");
    reveal_strlit("!=");
    reveal_strlit("+");
    reveal_strlit("-");
    reveal_strlit("*");
    reveal_strlit("/");
    reveal_strlit("<");
    reveal_strlit("<=");
    reveal_strlit(">");
    reveal_strlit(">=");
    reveal_strlit("!");
    assert("&&"@[0] == '&' && "||"@[0] == '|' && "=="@[0] == '=' && "!="@[0] == '!');
    assert("+"@[0] == '+' && "-"@[0] == '-' && "*"@[0] == '*' && "/"@[0] == '/');
    assert("<"@[0] == '<' && "<="@[0] == '<' && ">"@[0] == '>' && ">="@[0] == '>');
    assert("!"@[0] == '!');
    assert("+"@.len() == 1 && "-"@.len() == 1 && "*"@.len() == 1 && "/"@.len() == 1);
    assert("=="@.len() == 2 && "!="@.len() == 2);
    assert("<"@.len() == 1 && "<="@.len() == 2 && ">"@.len() == 1 && ">="@.len() == 2);
}

// ---------------------------------------------------------------------------
// Truth values
// ---------------------------------------------------------------------------
/// Of two truth values, `&&` holds where both do, `||` where one does, `==` where they are the
/// same and `!=` where they are not.
pub proof fn truth_values_fold(
    left: bool,
    right: bool,
    left_text: Seq<char>,
    right_text: Seq<char>,
    float: FloatFold,
)
    ensures
        ({
            let fold = |operator: Seq<char>|
                folded_binary(
                    operator,
                    SpecLiteral::Bool(left),
                    SpecLiteral::Bool(right),
                    left_text,
                    right_text,
                    float,
                );
            &&& (fold("&&"@) == Some(SpecLiteral::Bool(true)) <==> left && right)
            &&& (fold("&&"@) == Some(SpecLiteral::Bool(false)) <==> !left || !right)
            &&& (fold("||"@) == Some(SpecLiteral::Bool(true)) <==> left || right)
            &&& (fold("||"@) == Some(SpecLiteral::Bool(false)) <==> !left && !right)
            &&& (fold("=="@) == Some(SpecLiteral::Bool(true)) <==> left == right)
            &&& (fold("=="@) == Some(SpecLiteral::Bool(false)) <==> left != right)
            &&& (fold("!="@) == Some(SpecLiteral::Bool(true)) <==> left != right)
            &&& (fold("!="@) == Some(SpecLiteral::Bool(false)) <==> left == right)
            &&& forall|operator: Seq<char>|
                operator != "&&"@ && operator != "||"@ && operator != "=="@ && operator != "!="@
                    ==> #[trigger] fold(operator) is None
        }),
{
    operators_differ();
}

/// `!` swaps the truth values, and no other operator takes one.
pub proof fn negation_swaps_truth_values(
    operator: Seq<char>,
    value: bool,
    float: Option<Seq<char>>,
)
    ensures
        operator == "!"@ ==> folded_unary(operator, SpecLiteral::Bool(value), float) == Some(
            SpecLiteral::Bool(if value {
                false
            } else {
                true
            }),
        ),
        operator != "!"@ ==> folded_unary(operator, SpecLiteral::Bool(value), float) is None,
{
}

/// `||` and `&&` are each other's dual: `a || b` is `!(!a && !b)`.
pub proof fn connectives_are_dual(
    left: bool,
    right: bool,
    left_text: Seq<char>,
    right_text: Seq<char>,
    float: FloatFold,
)
    ensures
        ({
            let fold = |operator: Seq<char>, a: SpecLiteral, b: SpecLiteral|
                folded_binary(operator, a, b, left_text, right_text, float);
            let not = |a: SpecLiteral| folded_unary("!"@, a, None);
            let a = SpecLiteral::Bool(left);
            let b = SpecLiteral::Bool(right);
            &&& not(a) is Some && not(b) is Some
            &&& fold("&&"@, not(a)->0, not(b)->0) is Some
            &&& fold("||"@, a, b) == not(fold("&&"@, not(a)->0, not(b)->0)->0)
            &&& fold("&&"@, a, b) == not(fold("||"@, not(a)->0, not(b)->0)->0)
            &&& fold("||"@, a, b) == fold("||"@, b, a)
            &&& fold("&&"@, a, b) == fold("&&"@, b, a)
        }),
{
    operators_differ();
}

// ---------------------------------------------------------------------------
// Texts
// ---------------------------------------------------------------------------
/// `+` joins two texts, the left one first; `==` and `!=` tell whether they are the same. No
/// other operator takes texts.
pub proof fn texts_fold(
    left: Seq<char>,
    right: Seq<char>,
    left_text: Seq<char>,
    right_text: Seq<char>,
    float: FloatFold,
)
    ensures
        ({
            let fold = |operator: Seq<char>|
                folded_binary(
                    operator,
                    SpecLiteral::String(left),
                    SpecLiteral::String(right),
                    left_text,
                    right_text,
                    float,
                );
            &&& fold("+"@) == Some(
                SpecLiteral::String(
                    quoted(
                        Seq::new(
                            left_text.len() + right_text.len(),
                            |i: int|
                                if i < left_text.len() {
                                    left_text[i]
                                } else {
                                    right_text[i - left_text.len()]
                                },
                        ),
                    ),
                ),
            )
            &&& (fold("=="@) == Some(SpecLiteral::Bool(true)) <==> left_text == right_text)
            &&& (fold("=="@) == Some(SpecLiteral::Bool(false)) <==> left_text != right_text)
            &&& (fold("!="@) == Some(SpecLiteral::Bool(true)) <==> left_text != right_text)
            &&& (fold("!="@) == Some(SpecLiteral::Bool(false)) <==> left_text == right_text)
            &&& forall|operator: Seq<char>|
                operator != "+"@ && operator != "=="@ && operator != "!="@ ==> #[trigger] fold(
                    operator,
                ) is None
        }),
{
    operators_differ();
    assert(Seq::new(
        left_text.len() + right_text.len(),
        |i: int|
            if i < left_text.len() {
                left_text[i]
            } else {
                right_text[i - left_text.len()]
            },
    ) =~= left_text + right_text);
}

// ---------------------------------------------------------------------------
// Integers
// ---------------------------------------------------------------------------
/// The literal of an integer.
pub open spec fn integer_literal(value: int) -> SpecLiteral {
    SpecLiteral::Number(signed_decimal(value))
}

/// Whether an integer can be the value of a literal.
pub open spec fn has_literal(value: int) -> bool {
    -0x8000_0000_0000_0000 <= value <= 0x7fff_ffff_ffff_ffff
}

/// Integers are added, subtracted and multiplied exactly, as long as the result has a literal.
pub proof fn integers_fold(
    left: int,
    right: int,
    left_text: Seq<char>,
    right_text: Seq<char>,
    float: FloatFold,
)
    requires
        has_literal(left),
        has_literal(right),
    ensures
        ({
            let fold = |operator: Seq<char>|
                folded_binary(
                    operator,
                    integer_literal(left),
                    integer_literal(right),
                    left_text,
                    right_text,
                    float,
                );
            &&& fold("+"@) == (if has_literal(left + right) {
                Some(integer_literal(left + right))
            } else {
                None
            })
            &&& fold("-"@) == (if has_literal(left - right) {
                Some(integer_literal(left - right))
            } else {
                None
            })
            &&& fold("*"@) == (if has_literal(left * right) {
                Some(integer_literal(left * right))
            } else {
                None
            })
        }),
{
    operators_differ();
    integer_numeral_reads_back(left);
    integer_numeral_reads_back(right);
}

/// Whether a number is a quotient of two integers that is rounded towards zero.
pub open spec fn is_quotient(left: int, right: int, quotient: int) -> bool {
    let rest = left - quotient * right;
    &&& -size(right) < rest < size(right)
    &&& rest > 0 ==> left > 0
    &&& rest < 0 ==> left < 0
}

pub open spec fn size(value: int) -> int {
    if value < 0 {
        0 - value
    } else {
        value
    }
}

proof fn quotients_are_rounded(left: int, right: int)
    requires
        right != 0,
    ensures
        is_quotient(left, right, crate::folding::truncated_quotient(left, right)),
{
    let a = crate::folding::abs(left);
    let b = crate::folding::abs(right);
    let m = a / b;
    assert(a == m * b + a % b && 0 <= a % b < b) by (nonlinear_arith)
        requires
            b > 0,
            m == a / b,
    ;
    let q = crate::folding::truncated_quotient(left, right);
    let r = a % b;
    if left >= 0 {
        if right > 0 {
            assert(q * right == m * b);
        } else {
            assert(q * right == m * b) by (nonlinear_arith)
                requires
                    q == -m,
                    right == -b,
            ;
        }
        assert(left - q * right == r);
    } else {
        if right > 0 {
            assert(q * right == -(m * b)) by (nonlinear_arith)
                requires
                    q == -m,
                    right == b,
            ;
        } else {
            assert(q * right == -(m * b)) by (nonlinear_arith)
                requires
                    q == m,
                    right == -b,
            ;
        }
        assert(left - q * right == -r);
    }
}

/// Integers are divided with the quotient rounded towards zero. Nothing is divided by zero, and
/// a quotient has a literal or there is none.
pub proof fn integers_divide(
    left: int,
    right: int,
    left_text: Seq<char>,
    right_text: Seq<char>,
    float: FloatFold,
)
    requires
        has_literal(left),
        has_literal(right),
    ensures
        ({
            let divided = folded_binary(
                "/"@,
                integer_literal(left),
                integer_literal(right),
                left_text,
                right_text,
                float,
            );
            &&& right == 0 ==> divided is None
            &&& right != 0 ==> exists|quotient: int| #[trigger]
                is_quotient(left, right, quotient) && divided == (if has_literal(quotient) {
                    Some(integer_literal(quotient))
                } else {
                    None
                })
        }),
{
    operators_differ();
    integer_numeral_reads_back(left);
    integer_numeral_reads_back(right);
    if right != 0 {
        quotients_are_rounded(left, right);
        assert(is_quotient(left, right, crate::folding::truncated_quotient(left, right)));
    }
}

/// Integers are compared by their values.
pub proof fn integers_compare(
    left: int,
    right: int,
    left_text: Seq<char>,
    right_text: Seq<char>,
    float: FloatFold,
)
    requires
        has_literal(left),
        has_literal(right),
    ensures
        ({
            let fold = |operator: Seq<char>|
                folded_binary(
                    operator,
                    integer_literal(left),
                    integer_literal(right),
                    left_text,
                    right_text,
                    float,
                );
            &&& fold("=="@) == Some(SpecLiteral::Bool(left == right))
            &&& fold("!="@) == Some(SpecLiteral::Bool(left != right))
            &&& fold("<"@) == Some(SpecLiteral::Bool(left < right))
            &&& fold("<="@) == Some(SpecLiteral::Bool(left <= right))
            &&& fold(">"@) == Some(SpecLiteral::Bool(left > right))
            &&& fold(">="@) == Some(SpecLiteral::Bool(left >= right))
        }),
{
    operators_differ();
    integer_numeral_reads_back(left);
    integer_numeral_reads_back(right);
}

/// `-` negates an integer, as long as the result has a literal; no other operator takes one.
pub proof fn integers_are_negated(operator: Seq<char>, value: int, float: Option<Seq<char>>)
    requires
        has_literal(value),
    ensures
        operator == "-"@ ==> folded_unary(operator, integer_literal(value), float) == (
        if has_literal(0 - value) {
            Some(integer_literal(0 - value))
        } else {
            None
        }),
        operator != "-"@ ==> folded_unary(operator, integer_literal(value), float) is None,
{
    integer_numeral_reads_back(value);
}

// ---------------------------------------------------------------------------
// Floating-point numbers and other literals
// ---------------------------------------------------------------------------
/// Of two floating-point numbers the result is the one that is given, and comparisons go by how
/// the numbers compare.
pub proof fn floating_numbers_fold(
    operator: Seq<char>,
    left: Seq<char>,
    right: Seq<char>,
    left_text: Seq<char>,
    right_text: Seq<char>,
    float: FloatFold,
)
    requires
        float_text(left),
        float_text(right),
    ensures
        ({
            let fold = |operator: Seq<char>|
                folded_binary(
                    operator,
                    SpecLiteral::Number(left),
                    SpecLiteral::Number(right),
                    left_text,
                    right_text,
                    float,
                );
            &&& operator == "+"@ || operator == "-"@ || operator == "*"@ || operator == "/"@
                ==> fold(operator) == (match float.arithmetic {
                Some(text) => Some(SpecLiteral::Number(text@)),
                None => None,
            })
            &&& float.order is None && (operator == "=="@ || operator == "!="@ || operator == "<"@
                || operator == "<="@ || operator == ">"@ || operator == ">="@) ==> fold(operator)
                is None
            &&& float.order matches Some(order) ==> {
                &&& fold("=="@) == Some(SpecLiteral::Bool(order is Equal))
                &&& fold("!="@) == Some(SpecLiteral::Bool(order is Less || order is Greater))
                &&& fold("<"@) == Some(SpecLiteral::Bool(order is Less))
                &&& fold("<="@) == Some(SpecLiteral::Bool(order is Less || order is Equal))
                &&& fold(">"@) == Some(SpecLiteral::Bool(order is Greater))
                &&& fold(">="@) == Some(SpecLiteral::Bool(order is Greater || order is Equal))
            }
        }),
{
    operators_differ();
}

/// Literals of different kinds are not folded, nor an integer with a floating-point number.
pub proof fn mixed_literals_do_not_fold(
    operator: Seq<char>,
    left: SpecLiteral,
    right: SpecLiteral,
    left_text: Seq<char>,
    right_text: Seq<char>,
    float: FloatFold,
)
    requires
        ({
            ||| left is Bool != right is Bool
            ||| left is String != right is String
            ||| left is Number != right is Number
            ||| left is Regex
            ||| left is Number && right is Number && float_text(left->Number_0) != float_text(
                right->Number_0,
            )
        }),
    ensures
        folded_binary(operator, left, right, left_text, right_text, float) is None,
{
}

} // verus!
