//! Operations on literals whose result is a literal.
use crate::text::{
    numeral_value, parse_i64, remove_separators, same_text, signed_decimal, signed_text,
    without_separators,
};
use crate::type_ops::{float_text, is_float_literal_text};
use crate::types::{Literal, SpecLiteral};
use vstd::prelude::*;

verus! {

/// How two numbers compare.
#[derive(Debug, Clone, Copy, PartialEq, Eq, Structural)]
pub enum NumberOrder {
    Less,
    Equal,
    Greater,
}

/// What an operation on two floating-point literals gives: the literal of its
/// result, and how the operands compare.
#[derive(Debug)]
pub struct FloatFold {
    pub arithmetic: Option<String>,
    pub order: Option<NumberOrder>,
}

/// What an optional literal denotes.
pub open spec fn literal_view(literal: Option<Literal>) -> Option<SpecLiteral> {
    match literal {
        Some(literal) => Some(literal@),
        None => None,
    }
}

// ---------------------------------------------------------------------------
// Integers
// ---------------------------------------------------------------------------
/// The integer that a numeral without a point or an exponent writes, if it fits
/// 64 bits.
pub open spec fn integer_of(text: Seq<char>) -> Option<int> {
    if float_text(text) {
        None
    } else {
        match numeral_value(without_separators(text)) {
            Some(value) => if i64::MIN <= value <= i64::MAX {
                Some(value)
            } else {
                None
            },
            None => None,
        }
    }
}

/// Read an integer literal.
pub fn parse_integer_literal(text: &str) -> (value: Option<i64>)
    ensures
        match value {
            Some(value) => integer_of(text@) == Some(value as int),
            None => integer_of(text@) is None,
        },
{
    if is_float_literal_text(text) {
        return None;
    }
    let plain = remove_separators(text);
    parse_i64(plain.as_str())
}

/// The quotient of two integers, rounded towards zero.
pub open spec fn truncated_quotient(left: int, right: int) -> int {
    let magnitude = abs(left) / abs(right);
    if (left < 0) == (right < 0) {
        magnitude
    } else {
        -magnitude
    }
}

pub open spec fn abs(value: int) -> int {
    if value < 0 {
        -value
    } else {
        value
    }
}

/// An integer, if it fits 64 bits.
pub open spec fn fitting(value: int) -> Option<int> {
    if i64::MIN <= value <= i64::MAX {
        Some(value)
    } else {
        None
    }
}

/// The exact result of an integer operation, if there is one that fits.
pub open spec fn int_result(operator: Seq<char>, left: int, right: int) -> Option<int> {
    if operator == "+"@ {
        fitting(left + right)
    } else if operator == "-"@ {
        fitting(left - right)
    } else if operator == "*"@ {
        fitting(left * right)
    } else if operator == "/"@ {
        if right == 0 {
            None
        } else {
            fitting(truncated_quotient(left, right))
        }
    } else {
        None
    }
}

fn magnitude(value: i64) -> (result: u64)
    ensures
        result == abs(value as int),
{
    if value == i64::MIN {
        9223372036854775808
    } else if value < 0 {
        (-value) as u64
    } else {
        value as u64
    }
}

fn divide(left: i64, right: i64) -> (quotient: Option<i64>)
    requires
        right != 0,
    ensures
        match quotient {
            Some(quotient) => quotient == truncated_quotient(left as int, right as int),
            None => fitting(truncated_quotient(left as int, right as int)) is None,
        },
{
    let dividend: u64 = magnitude(left);
    let divisor: u64 = magnitude(right);
    let result: u64 = dividend / divisor;
    assert(result == abs(left as int) / abs(right as int));
    assert(result <= dividend) by (nonlinear_arith)
        requires
            result == dividend / divisor,
            divisor > 0,
    ;
    if (left < 0) == (right < 0) {
        if result <= 9223372036854775807 {
            Some(result as i64)
        } else {
            None
        }
    } else if result == 9223372036854775808 {
        Some(i64::MIN)
    } else {
        Some(-(result as i64))
    }
}

/// Apply an integer operation.
pub fn fold_int_arithmetic(operator: &str, left: i64, right: i64) -> (result: Option<i64>)
    ensures
        match result {
            Some(result) => int_result(operator@, left as int, right as int) == Some(
                result as int,
            ),
            None => int_result(operator@, left as int, right as int) is None,
        },
{
    proof {
        arithmetic_operators_differ();
    }
    if same_text(operator, "+") {
        left.checked_add(right)
    } else if same_text(operator, "-") {
        left.checked_sub(right)
    } else if same_text(operator, "*") {
        left.checked_mul(right)
    } else if same_text(operator, "/") {
        if right == 0 {
            None
        } else {
            divide(left, right)
        }
    } else {
        None
    }
}

proof fn arithmetic_operators_differ()
    ensures
        "+"@ != "-"@,
        "+"@ != "*"@,
        "+"@ != "/"@,
        "-"@ != "*"@,
        "-"@ != "/"@,
        "*"@ != "/"@,
{
    reveal_strlit("+");
    reveal_strlit("-");
    reveal_strlit("*");
    reveal_strlit("/");
    assert("+"@[0] == '+');
    assert("-"@[0] == '-');
    assert("*"@[0] == '*');
    assert("/"@[0] == '/');
}

// ---------------------------------------------------------------------------
// Numbers
// ---------------------------------------------------------------------------
/// The literal that an operation on two number literals gives. Integers and
/// floating-point numbers do not mix; what the operation gives on the latter is
/// an argument.
pub open spec fn folded_arithmetic(
    operator: Seq<char>,
    left: Seq<char>,
    right: Seq<char>,
    float: Option<Seq<char>>,
) -> Option<SpecLiteral> {
    if float_text(left) && float_text(right) {
        match float {
            Some(text) => Some(SpecLiteral::Number(text)),
            None => None,
        }
    } else {
        match (integer_of(left), integer_of(right)) {
            (Some(left), Some(right)) => match int_result(operator, left, right) {
                Some(value) => Some(SpecLiteral::Number(signed_decimal(value))),
                None => None,
            },
            _ => None,
        }
    }
}

/// Apply an operation to two number literals. `float` is what it gives if both
/// are floating-point numbers.
pub fn fold_number_arithmetic(
    operator: &str,
    left: &str,
    right: &str,
    float: &Option<String>,
) -> (literal: Option<Literal>)
    ensures
        literal_view(literal) == folded_arithmetic(
            operator@,
            left@,
            right@,
            crate::methods::text_view(*float),
        ),
{
    if is_float_literal_text(left) && is_float_literal_text(right) {
        return match float {
            Some(text) => Some(Literal::Number(text.clone())),
            None => None,
        };
    }
    match (parse_integer_literal(left), parse_integer_literal(right)) {
        (Some(left), Some(right)) => match fold_int_arithmetic(operator, left, right) {
            Some(value) => Some(Literal::Number(signed_text(value))),
            None => None,
        },
        _ => None,
    }
}

/// The literal of a negated number.
pub open spec fn folded_negation(value: Seq<char>, float: Option<Seq<char>>) -> Option<
    SpecLiteral,
> {
    if float_text(value) {
        match float {
            Some(text) => Some(SpecLiteral::Number(text)),
            None => None,
        }
    } else {
        match integer_of(value) {
            Some(value) => match fitting(-value) {
                Some(negated) => Some(SpecLiteral::Number(signed_decimal(negated))),
                None => None,
            },
            None => None,
        }
    }
}

/// Negate a number literal. `float` is the result if it is a floating-point
/// number.
pub fn fold_number_negation(value: &str, float: &Option<String>) -> (literal: Option<Literal>)
    ensures
        literal_view(literal) == folded_negation(value@, crate::methods::text_view(*float)),
{
    if is_float_literal_text(value) {
        return match float {
            Some(text) => Some(Literal::Number(text.clone())),
            None => None,
        };
    }
    match parse_integer_literal(value) {
        Some(value) => if value == i64::MIN {
            None
        } else {
            Some(Literal::Number(signed_text(-value)))
        },
        None => None,
    }
}

/// How two integers compare.
pub open spec fn order_of(left: int, right: int) -> NumberOrder {
    if left < right {
        NumberOrder::Less
    } else if left == right {
        NumberOrder::Equal
    } else {
        NumberOrder::Greater
    }
}

/// Whether an operator of equality holds.
pub open spec fn equality_holds(operator: Seq<char>, equal: bool) -> bool {
    if operator == "=="@ {
        equal
    } else {
        !equal
    }
}

/// Whether an operator of equality holds.
pub fn compare_equal(operator: &str, equal: bool) -> (holds: bool)
    ensures
        holds == equality_holds(operator@, equal),
{
    if same_text(operator, "==") {
        equal
    } else {
        !equal
    }
}

/// Whether a comparison holds of two numbers that compare in a way.
pub open spec fn comparison_holds(operator: Seq<char>, order: NumberOrder) -> bool {
    if operator == "=="@ {
        order is Equal
    } else if operator == "!="@ {
        !(order is Equal)
    } else if operator == "<"@ {
        order is Less
    } else if operator == "<="@ {
        !(order is Greater)
    } else if operator == ">"@ {
        order is Greater
    } else if operator == ">="@ {
        !(order is Less)
    } else {
        false
    }
}

/// Whether a comparison holds of two numbers that compare in a way.
pub fn compare_ordering(operator: &str, order: NumberOrder) -> (holds: bool)
    ensures
        holds == comparison_holds(operator@, order),
{
    if same_text(operator, "==") || same_text(operator, "!=") {
        compare_equal(operator, order == NumberOrder::Equal)
    } else if same_text(operator, "<") {
        order == NumberOrder::Less
    } else if same_text(operator, "<=") {
        order != NumberOrder::Greater
    } else if same_text(operator, ">") {
        order == NumberOrder::Greater
    } else if same_text(operator, ">=") {
        order != NumberOrder::Less
    } else {
        false
    }
}

/// What a comparison of two number literals gives.
pub open spec fn folded_comparison(
    operator: Seq<char>,
    left: Seq<char>,
    right: Seq<char>,
    float: Option<NumberOrder>,
) -> Option<bool> {
    if float_text(left) && float_text(right) {
        match float {
            Some(order) => Some(comparison_holds(operator, order)),
            None => None,
        }
    } else {
        match (integer_of(left), integer_of(right)) {
            (Some(left), Some(right)) => Some(comparison_holds(operator, order_of(left, right))),
            _ => None,
        }
    }
}

/// Compare two number literals. `float` is how they compare if both are
/// floating-point numbers.
pub fn fold_number_comparison(
    operator: &str,
    left: &str,
    right: &str,
    float: Option<NumberOrder>,
) -> (holds: Option<bool>)
    ensures
        holds == folded_comparison(operator@, left@, right@, float),
{
    if is_float_literal_text(left) && is_float_literal_text(right) {
        return match float {
            Some(order) => Some(compare_ordering(operator, order)),
            None => None,
        };
    }
    match (parse_integer_literal(left), parse_integer_literal(right)) {
        (Some(left), Some(right)) => {
            let order = if left < right {
                NumberOrder::Less
            } else if left == right {
                NumberOrder::Equal
            } else {
                NumberOrder::Greater
            };
            Some(compare_ordering(operator, order))
        },
        _ => None,
    }
}

// ---------------------------------------------------------------------------
// Texts
// ---------------------------------------------------------------------------
/// Whether a character is a control code.
pub open spec fn is_control(c: char) -> bool {
    (c as u32) < 32 || 127 <= (c as u32) <= 159
}

/// The hexadecimal digit with a value.
pub open spec fn hex_char(value: int) -> char {
    if value < 10 {
        (48 + value) as char
    } else {
        (87 + value) as char
    }
}

/// The hexadecimal numeral of a natural number, without leading zeros.
pub open spec fn hexadecimal(value: nat) -> Seq<char>
    decreases value,
{
    if value < 16 {
        seq![hex_char(value as int)]
    } else {
        hexadecimal(value / 16).push(hex_char((value % 16) as int))
    }
}

fn push_hex(text: &mut String, value: u32)
    requires
        value < 16,
    ensures
        final(text)@ == old(text)@.push(hex_char(value as int)),
{
    let digits: &str = "0123456789abcdef";
    proof {
        reveal_strlit("0123456789abcdef");
    }
    text.append(digits.substring_char(value as usize, value as usize + 1));
    assert(digits@.subrange(value as int, value + 1) =~= seq![hex_char(value as int)]);
    assert(text@ =~= old(text)@.push(hex_char(value as int)));
}

fn hex_text(value: u32) -> (text: String)
    ensures
        text@ == hexadecimal(value as nat),
    decreases value,
{
    if value < 16 {
        let mut text: String = String::new();
        push_hex(&mut text, value);
        assert(text@ =~= hexadecimal(value as nat));
        text
    } else {
        let mut text: String = hex_text(value / 16);
        push_hex(&mut text, value % 16);
        text
    }
}

/// How a character is written in a text literal.
pub open spec fn escaped(c: char) -> Seq<char> {
    if c == '"' {
        "\\\""@
    } else if c == '\\' {
        "\\\\"@
    } else if c == '\n' {
        "\\n"@
    } else if c == '\r' {
        "\\r"@
    } else if c == '\t' {
        "\\t"@
    } else if is_control(c) {
        "\\u{"@ + hexadecimal(c as nat) + "}"@
    } else {
        seq![c]
    }
}

/// How the characters of a text are written in a text literal.
pub open spec fn all_escaped(text: Seq<char>) -> Seq<char>
    decreases text.len(),
{
    if text.len() == 0 {
        Seq::empty()
    } else {
        all_escaped(text.drop_last()) + escaped(text.last())
    }
}

/// The text literal that writes a text.
pub open spec fn quoted(text: Seq<char>) -> Seq<char> {
    "\""@ + all_escaped(text) + "\""@
}

/// Write a text as a text literal.
pub fn quote_string_literal(value: &str) -> (literal: String)
    ensures
        literal@ == quoted(value@),
{
    let length: usize = value.unicode_len();
    let mut literal: String = "\"".to_owned();
    let mut index: usize = 0;
    assert(literal@ =~= "\""@ + all_escaped(value@.take(0)));
    while index < length
        invariant
            index <= length,
            length == value@.len(),
            literal@ == "\""@ + all_escaped(value@.take(index as int)),
        decreases length - index,
    {
        let c: char = value.get_char(index);
        let ghost before = literal@;
        proof {
            let longer = value@.take(index + 1);
            assert(longer.drop_last() =~= value@.take(index as int));
            assert(longer.last() == c);
        }
        if c == '"' {
            literal.append("\\\"");
        } else if c == '\\' {
            literal.append("\\\\");
        } else if c == '\n' {
            literal.append("\\n");
        } else if c == '\r' {
            literal.append("\\r");
        } else if c == '\t' {
            literal.append("\\t");
        } else {
            let code: u32 = c as u32;
            if code < 32 || (127 <= code && code <= 159) {
                literal.append("\\u{");
                let digits = hex_text(code);
                literal.append(digits.as_str());
                literal.append("}");
                assert(literal@ =~= before + escaped(c));
            } else {
                literal.append(value.substring_char(index, index + 1));
                assert(value@.subrange(index as int, index + 1) =~= seq![c]);
            }
        }
        assert(literal@ =~= before + escaped(c));
        assert(literal@ =~= "\""@ + all_escaped(value@.take(index + 1)));
        index += 1;
    }
    assert(value@.take(length as int) =~= value@);
    literal.append("\"");
    literal
}

/// Whether a character stands for itself in a text literal.
pub open spec fn is_plain(c: char) -> bool {
    c != '"' && c != '\\' && !is_control(c)
}

/// The numeral of a control code: a digit or two.
proof fn control_numeral(c: char)
    requires
        is_control(c),
    ensures
        hexadecimal(c as nat) =~= (if (c as nat) < 16 {
            seq![hex_char(c as int)]
        } else {
            seq![hex_char((c as nat / 16) as int), hex_char((c as nat % 16) as int)]
        }),
{
    if (c as nat) >= 16 {
        assert(c as nat / 16 < 16);
        assert(hexadecimal(c as nat / 16) =~= seq![hex_char((c as nat / 16) as int)]);
    }
}

/// A character that does not stand for itself is written as a backslash and a letter that
/// tells it, or as the numeral of its code.
proof fn escape_shape(c: char)
    ensures
        is_plain(c) ==> escaped(c) =~= seq![c],
        c == '"' ==> escaped(c) =~= seq!['\\', '"'],
        c == '\\' ==> escaped(c) =~= seq!['\\', '\\'],
        c == '\n' ==> escaped(c) =~= seq!['\\', 'n'],
        c == '\r' ==> escaped(c) =~= seq!['\\', 'r'],
        c == '\t' ==> escaped(c) =~= seq!['\\', 't'],
        is_control(c) && c != '\n' && c != '\r' && c != '\t' ==> escaped(c) =~= seq![
            '\\',
            'u',
            '{',
        ] + hexadecimal(c as nat) + seq!['}'],
{
    reveal_strlit("\\\"");
    reveal_strlit("\\\\");
    reveal_strlit("\\n");
    reveal_strlit("\\r");
    reveal_strlit("\\t");
    reveal_strlit("\\u{");
    reveal_strlit("}");
    assert("\\u{"@ =~= seq!['\\', 'u', '{']);
    assert("}"@ =~= seq!['}']);
}

/// Texts are escaped piece by piece, and plain characters are copied unchanged.
pub proof fn texts_are_escaped_in_order(before: Seq<char>, after: Seq<char>)
    ensures
        all_escaped(before + after) == all_escaped(before) + all_escaped(after),
        (forall|i: int| 0 <= i < after.len() ==> is_plain(#[trigger] after[i])) ==> all_escaped(
            after,
        ) == after,
    decreases after.len(),
{
    if after.len() == 0 {
        assert(before + after =~= before);
        assert(all_escaped(before) + all_escaped(after) =~= all_escaped(before));
        assert(all_escaped(after) =~= after);
    } else {
        let both = before + after;
        assert(both.drop_last() =~= before + after.drop_last());
        assert(both.last() == after.last());
        texts_are_escaped_in_order(before, after.drop_last());
        assert(all_escaped(both) =~= all_escaped(before) + all_escaped(after));
        if forall|i: int| 0 <= i < after.len() ==> is_plain(#[trigger] after[i]) {
            assert(is_plain(after[after.len() - 1]));
            escape_shape(after.last());
            assert forall|i: int| 0 <= i < after.drop_last().len() implies is_plain(
                #[trigger] after.drop_last()[i],
            ) by {
                assert(is_plain(after[i]));
            }
            assert(all_escaped(after) =~= after);
        }
    }
}

/// Written after each other, two characters are told apart by how they begin.
proof fn escapes_are_told_apart(one: char, rest: Seq<char>, other: char, other_rest: Seq<char>)
    requires
        escaped(one) + rest == escaped(other) + other_rest,
    ensures
        one == other,
        rest == other_rest,
{
    let text = escaped(one) + rest;
    escape_shape(one);
    escape_shape(other);
    if is_control(one) {
        control_numeral(one);
    }
    if is_control(other) {
        control_numeral(other);
    }
    assert(text[0] == escaped(one)[0]);
    assert(text[0] == escaped(other)[0]);
    if !is_plain(one) {
        assert(!is_plain(other));
        assert(text[1] == escaped(one)[1]);
        assert(text[1] == escaped(other)[1]);
        if is_control(one) && one != '\n' && one != '\r' && one != '\t' {
            assert(text[3] == escaped(one)[3]);
            assert(text[3] == escaped(other)[3]);
            assert(text[4] == escaped(one)[4]);
            assert(text[4] == escaped(other)[4]);
            if (one as nat) >= 16 || (other as nat) >= 16 {
                assert(text[4] == hex_char((one as nat % 16) as int) || text[4] == '}');
                assert((one as nat) >= 16 && (other as nat) >= 16);
            }
        }
    }
    assert(one == other);
    let length = escaped(one).len() as int;
    assert(rest =~= text.skip(length));
    assert(other_rest =~= text.skip(length));
}

proof fn escaped_texts_differ(one: Seq<char>, other: Seq<char>)
    requires
        all_escaped(one) == all_escaped(other),
    ensures
        one == other,
    decreases one.len(),
{
    if one.len() > 0 {
        texts_are_escaped_in_order(one.take(1), one.skip(1));
        assert(one.take(1) + one.skip(1) =~= one);
        single_escape(one[0]);
        assert(one.take(1) =~= seq![one[0]]);
        escape_is_not_empty(one[0]);
        assert(all_escaped(one).len() > 0);
    }
    if other.len() > 0 {
        texts_are_escaped_in_order(other.take(1), other.skip(1));
        assert(other.take(1) + other.skip(1) =~= other);
        single_escape(other[0]);
        assert(other.take(1) =~= seq![other[0]]);
        escape_is_not_empty(other[0]);
        assert(all_escaped(other).len() > 0);
    }
    if one.len() > 0 {
        assert(other.len() > 0);
        escapes_are_told_apart(
            one[0],
            all_escaped(one.skip(1)),
            other[0],
            all_escaped(other.skip(1)),
        );
        escaped_texts_differ(one.skip(1), other.skip(1));
        assert(one =~= seq![one[0]] + one.skip(1));
        assert(other =~= seq![other[0]] + other.skip(1));
    } else {
        assert(one =~= other);
    }
}

proof fn single_escape(c: char)
    ensures
        all_escaped(seq![c]) == escaped(c),
{
    let text = seq![c];
    assert(text.drop_last() =~= Seq::<char>::empty());
    assert(all_escaped(text.drop_last()) =~= Seq::<char>::empty());
    assert(all_escaped(text) =~= escaped(c));
}

proof fn escape_is_not_empty(c: char)
    ensures
        escaped(c).len() > 0,
{
    escape_shape(c);
}

/// Different texts are written as different literals.
pub proof fn literals_tell_texts_apart(one: Seq<char>, other: Seq<char>)
    requires
        quoted(one) == quoted(other),
    ensures
        one == other,
{
    reveal_strlit("\"");
    let text = quoted(one);
    let end = text.len() - 1;
    assert(all_escaped(one) =~= text.subrange(1, end));
    assert(all_escaped(other) =~= text.subrange(1, end));
    escaped_texts_differ(one, other);
}

proof fn escape_is_harmless(c: char)
    ensures
        forall|i: int| 0 <= i < escaped(c).len() ==> !is_control(#[trigger] escaped(c)[i]),
        forall|i: int|
            0 <= i < escaped(c).len() && #[trigger] escaped(c)[i] == '"' ==> i > 0 && escaped(
                c,
            )[i - 1] == '\\',
{
    escape_shape(c);
    if is_control(c) {
        control_numeral(c);
    }
}

proof fn escaped_text_is_harmless(text: Seq<char>)
    ensures
        forall|i: int| 0 <= i < all_escaped(text).len() ==> !is_control(#[trigger] all_escaped(text)[i]),
        forall|i: int|
            0 <= i < all_escaped(text).len() && #[trigger] all_escaped(text)[i] == '"' ==> i > 0
                && all_escaped(text)[i - 1] == '\\',
    decreases text.len(),
{
    if text.len() > 0 {
        escaped_text_is_harmless(text.drop_last());
        escape_is_harmless(text.last());
        let earlier = all_escaped(text.drop_last());
        let last = escaped(text.last());
        assert(all_escaped(text) == earlier + last);
        assert forall|i: int| 0 <= i < all_escaped(text).len() implies !is_control(
            #[trigger] all_escaped(text)[i],
        ) && (all_escaped(text)[i] == '"' ==> i > 0 && all_escaped(text)[i - 1] == '\\') by {
            if i < earlier.len() {
                assert(all_escaped(text)[i] == earlier[i]);
            } else {
                assert(all_escaped(text)[i] == last[i - earlier.len()]);
            }
        }
    }
}

/// A text literal begins and ends with a quotation mark, holds no control code, and writes a
/// backslash before every quotation mark inside.
pub proof fn literals_are_closed(text: Seq<char>)
    ensures
        quoted(text).len() >= 2,
        quoted(text).first() == '"',
        quoted(text).last() == '"',
        forall|i: int| 0 <= i < quoted(text).len() ==> !is_control(#[trigger] quoted(text)[i]),
        forall|i: int|
            0 < i < quoted(text).len() - 1 && #[trigger] quoted(text)[i] == '"' ==> i > 1 && quoted(
                text,
            )[i - 1] == '\\',
{
    reveal_strlit("\"");
    escaped_text_is_harmless(text);
    let inner = all_escaped(text);
    assert forall|i: int| 0 < i < quoted(text).len() - 1 implies #[trigger] quoted(text)[i]
        == inner[i - 1] by {}
    assert forall|i: int|
        0 < i < quoted(text).len() - 1 && #[trigger] quoted(text)[i] == '"' implies i > 1 && quoted(
        text,
    )[i - 1] == '\\' by {
        assert(inner[i - 1] == '"');
        assert(quoted(text)[i - 1] == inner[i - 2]);
    }
    assert forall|i: int| 0 <= i < quoted(text).len() implies !is_control(
        #[trigger] quoted(text)[i],
    ) by {
        if 0 < i < quoted(text).len() - 1 {
            assert(quoted(text)[i] == inner[i - 1]);
        }
    }
}

// ---------------------------------------------------------------------------
// Literals
// ---------------------------------------------------------------------------
pub open spec fn is_arithmetic_operator(operator: Seq<char>) -> bool {
    operator == "+"@ || operator == "-"@ || operator == "*"@ || operator == "/"@
}

pub open spec fn is_equality_operator(operator: Seq<char>) -> bool {
    operator == "=="@ || operator == "!="@
}

pub open spec fn is_comparison_operator(operator: Seq<char>) -> bool {
    is_equality_operator(operator) || operator == "<"@ || operator == "<="@ || operator == ">"@
        || operator == ">="@
}

fn arithmetic_operator(operator: &str) -> (arithmetic: bool)
    ensures
        arithmetic == is_arithmetic_operator(operator@),
{
    same_text(operator, "+") || same_text(operator, "-") || same_text(operator, "*") || same_text(
        operator,
        "/",
    )
}

/// Whether an operator tests two values for equality.
pub fn equality_operator(operator: &str) -> (equality: bool)
    ensures
        equality == is_equality_operator(operator@),
{
    same_text(operator, "==") || same_text(operator, "!=")
}

fn comparison_operator(operator: &str) -> (comparison: bool)
    ensures
        comparison == is_comparison_operator(operator@),
{
    equality_operator(operator) || same_text(operator, "<") || same_text(operator, "<=")
        || same_text(operator, ">") || same_text(operator, ">=")
}

/// The literal that an operation on two literals gives. `left_text` and
/// `right_text` are what text literals decode to, `float` what the operation
/// gives on floating-point numbers.
pub open spec fn folded_binary(
    operator: Seq<char>,
    left: SpecLiteral,
    right: SpecLiteral,
    left_text: Seq<char>,
    right_text: Seq<char>,
    float: FloatFold,
) -> Option<SpecLiteral> {
    match (left, right) {
        (SpecLiteral::Bool(left), SpecLiteral::Bool(right)) => if operator == "&&"@ {
            Some(SpecLiteral::Bool(left && right))
        } else if operator == "||"@ {
            Some(SpecLiteral::Bool(left || right))
        } else if is_equality_operator(operator) {
            Some(SpecLiteral::Bool(equality_holds(operator, left == right)))
        } else {
            None
        },
        (SpecLiteral::String(_), SpecLiteral::String(_)) => if operator == "+"@ {
            Some(SpecLiteral::String(quoted(left_text + right_text)))
        } else if is_equality_operator(operator) {
            Some(SpecLiteral::Bool(equality_holds(operator, left_text == right_text)))
        } else {
            None
        },
        (SpecLiteral::Number(left), SpecLiteral::Number(right)) => if is_arithmetic_operator(
            operator,
        ) {
            folded_arithmetic(
                operator,
                left,
                right,
                crate::methods::text_view(float.arithmetic),
            )
        } else if is_comparison_operator(operator) {
            match folded_comparison(operator, left, right, float.order) {
                Some(holds) => Some(SpecLiteral::Bool(holds)),
                None => None,
            }
        } else {
            None
        },
        _ => None,
    }
}

/// Apply an operator to two literals.
pub fn fold_binary_literals(
    operator: &str,
    left: &Literal,
    right: &Literal,
    left_text: &str,
    right_text: &str,
    float: &FloatFold,
) -> (literal: Option<Literal>)
    ensures
        literal_view(literal) == folded_binary(
            operator@,
            left@,
            right@,
            left_text@,
            right_text@,
            *float,
        ),
{
    match (left, right) {
        (Literal::Bool(left), Literal::Bool(right)) => if same_text(operator, "&&") {
            Some(Literal::Bool(*left && *right))
        } else if same_text(operator, "||") {
            Some(Literal::Bool(*left || *right))
        } else if equality_operator(operator) {
            Some(Literal::Bool(compare_equal(operator, *left == *right)))
        } else {
            None
        },
        (Literal::String(_), Literal::String(_)) => if same_text(operator, "+") {
            let mut text = left_text.to_owned();
            text.append(right_text);
            Some(Literal::String(quote_string_literal(text.as_str())))
        } else if equality_operator(operator) {
            let equal = same_text(left_text, right_text);
            Some(Literal::Bool(compare_equal(operator, equal)))
        } else {
            None
        },
        (Literal::Number(left), Literal::Number(right)) => if arithmetic_operator(operator) {
            fold_number_arithmetic(operator, left.as_str(), right.as_str(), &float.arithmetic)
        } else if comparison_operator(operator) {
            match fold_number_comparison(operator, left.as_str(), right.as_str(), float.order) {
                Some(holds) => Some(Literal::Bool(holds)),
                None => None,
            }
        } else {
            None
        },
        _ => None,
    }
}

/// The literal that a unary operation on a literal gives.
pub open spec fn folded_unary(
    operator: Seq<char>,
    value: SpecLiteral,
    float: Option<Seq<char>>,
) -> Option<SpecLiteral> {
    match value {
        SpecLiteral::Bool(value) => if operator == "!"@ {
            Some(SpecLiteral::Bool(!value))
        } else {
            None
        },
        SpecLiteral::Number(value) => if operator == "-"@ {
            folded_negation(value, float)
        } else {
            None
        },
        _ => None,
    }
}

/// Apply a unary operator to a literal. `float` is the negated literal if it is
/// a floating-point number.
pub fn fold_unary_literal(operator: &str, value: &Literal, float: &Option<String>) -> (literal:
    Option<Literal>)
    ensures
        literal_view(literal) == folded_unary(
            operator@,
            value@,
            crate::methods::text_view(*float),
        ),
{
    match value {
        Literal::Bool(value) => if same_text(operator, "!") {
            Some(Literal::Bool(!*value))
        } else {
            None
        },
        Literal::Number(value) => if same_text(operator, "-") {
            fold_number_negation(value.as_str(), float)
        } else {
            None
        },
        _ => None,
    }
}

// ---------------------------------------------------------------------------
// Laws
// ---------------------------------------------------------------------------
/// Two integers with numerals fold to the numeral of the exact result.
pub proof fn integer_literals_fold_exactly(
    operator: Seq<char>,
    left: int,
    right: int,
    float: Option<Seq<char>>,
)
    requires
        fitting(left) is Some,
        fitting(right) is Some,
    ensures
        folded_arithmetic(operator, signed_decimal(left), signed_decimal(right), float) == (
        match int_result(operator, left, right) {
            Some(value) => Some(SpecLiteral::Number(signed_decimal(value))),
            None => None,
        }),
{
    integer_numeral_reads_back(left);
    integer_numeral_reads_back(right);
}

/// The numeral of an integer that fits is an integer literal of that integer.
pub proof fn integer_numeral_reads_back(value: int)
    requires
        fitting(value) is Some,
    ensures
        integer_of(signed_decimal(value)) == Some(value),
        !float_text(signed_decimal(value)),
{
    let text = signed_decimal(value);
    crate::text::numeral_of_integer_reads_back(value);
    let magnitude = if value < 0 {
        (-value) as nat
    } else {
        value as nat
    };
    crate::text::decimal_is_digits(magnitude);
    assert forall|i: int| 0 <= i < text.len() implies text[i] != '.' && text[i] != 'e' && text[i]
        != 'E' && text[i] != '_' by {
        if value < 0 {
            if i > 0 {
                assert(crate::text::is_digit(crate::text::decimal(magnitude)[i - 1]));
            }
        } else {
            assert(crate::text::is_digit(crate::text::decimal(magnitude)[i]));
        }
    }
    no_separators_to_remove(text);
}

proof fn no_separators_to_remove(text: Seq<char>)
    requires
        forall|i: int| 0 <= i < text.len() ==> text[i] != '_',
    ensures
        without_separators(text) == text,
    decreases text.len(),
{
    if text.len() > 0 {
        no_separators_to_remove(text.drop_last());
        assert(text.drop_last().push(text.last()) =~= text);
    } else {
        assert(text =~= Seq::empty());
    }
}

/// Exactly one of `==` and `!=`, `<` and `>=`, `>` and `<=` holds of two numbers.
pub proof fn comparisons_are_complementary(order: NumberOrder)
    ensures
        comparison_holds("=="@, order) != comparison_holds("!="@, order),
        comparison_holds("<"@, order) != comparison_holds(">="@, order),
        comparison_holds(">"@, order) != comparison_holds("<="@, order),
{
    comparison_operators_differ();
}

proof fn comparison_operators_differ()
    ensures
        "=="@ != "!="@,
        "=="@ != "<"@,
        "=="@ != "<="@,
        "=="@ != ">"@,
        "=="@ != ">="@,
        "!="@ != "<"@,
        "!="@ != "<="@,
        "!="@ != ">"@,
        "!="@ != ">="@,
        "<"@ != "<="@,
        "<"@ != ">"@,
        "<"@ != ">="@,
        "<="@ != ">"@,
        "<="@ != ">="@,
        ">"@ != ">="@,
{
    reveal_strlit("==");
    reveal_strlit("!=");
    reveal_strlit("<");
    reveal_strlit("<=");
    reveal_strlit(">");
    reveal_strlit(">=");
    assert("=="@.len() == 2 && "=="@[0] == '=');
    assert("!="@.len() == 2 && "!="@[0] == '!');
    assert("<"@.len() == 1 && "<"@[0] == '<');
    assert("<="@.len() == 2 && "<="@[0] == '<');
    assert(">"@.len() == 1 && ">"@[0] == '>');
    assert(">="@.len() == 2 && ">="@[0] == '>');
}

/// Negating an integer literal twice gives its number back, if it can be negated
/// at all.
pub proof fn negation_undoes_itself(value: int)
    requires
        fitting(value) is Some,
        fitting(-value) is Some,
    ensures
        folded_negation(signed_decimal(value), None) == Some(
            SpecLiteral::Number(signed_decimal(-value)),
        ),
        folded_negation(signed_decimal(-value), None) == Some(
            SpecLiteral::Number(signed_decimal(value)),
        ),
{
    integer_numeral_reads_back(value);
    integer_numeral_reads_back(-value);
}

} // verus!
