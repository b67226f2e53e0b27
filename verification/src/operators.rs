//! The operands and results of operators.
use crate::builtin_methods::{
    builtin_method_signature, builtin_signature, operator_signature,
    resolve_builtin_operator_signature,
};
use crate::collections::StringMap;
use crate::equality::EqualityCompatibility;
use crate::folding::{
    equality_operator, fold_binary_literals, folded_binary, is_equality_operator, literal_view,
    FloatFold,
};
use crate::methods::MethodSignature;
use crate::notation::TypeNotation;
use crate::rows::{peel_empty_values, peeled_payload, peeled_values};
use crate::span::Span;
use crate::syntax::{ungroup_expr, ungrouped, Expr, ExprKind};
use crate::text::same_text;
use crate::type_ops::{
    float_text, is_float_literal_text, is_meta_type, is_named, is_numeric, is_resolved_value_type,
    lists_float, literal_variant_base, named_builtin, numeric_type_name, resolved, row_base,
    row_lists_float, LiteralBase,
};
use crate::types::{
    types_view, Literal, Row, RowEntry, RowTail, SpecLiteral, SpecRow, SpecRowEntry, SpecType, Type,
};
use vstd::prelude::*;

verus! {

// ---------------------------------------------------------------------------
// Operands
// ---------------------------------------------------------------------------
/// Whether a type is one of literals of a base.
pub open spec fn has_literal_base(ty: SpecType, base: LiteralBase) -> bool {
    ty is Variant && row_base(ty->Variant_0) == Some(base)
}

fn literals_have_base(ty: &Type, base: LiteralBase) -> (has: bool)
    ensures
        has == has_literal_base(ty@, base),
{
    match ty {
        Type::Variant(row) => match literal_variant_base(row) {
            Some(found) => found == base,
            None => false,
        },
        _ => false,
    }
}

/// Whether an operand is a text.
pub open spec fn is_text_operand(ty: SpecType) -> bool {
    ty == SpecType::Named("Text"@) || has_literal_base(ty, LiteralBase::Text)
}

/// Whether an operand is a text.
pub fn binary_operand_is_text(ty: &Type) -> (text: bool)
    ensures
        text == is_text_operand(ty@),
{
    is_named(ty, "Text") || literals_have_base(ty, LiteralBase::Text)
}

/// Whether an operand is a number.
pub open spec fn is_numeric_operand(ty: SpecType) -> bool {
    is_numeric(ty) || has_literal_base(ty, LiteralBase::Number)
}

/// Whether an operand is a number.
pub fn binary_operand_is_numeric(ty: &Type) -> (numeric: bool)
    ensures
        numeric == is_numeric_operand(ty@),
{
    numeric_type_name(ty).is_some() || literals_have_base(ty, LiteralBase::Number)
}

/// Whether an operand is a floating-point number.
pub open spec fn is_float_operand(ty: SpecType) -> bool {
    ty == SpecType::Named("Float"@) || (has_literal_base(ty, LiteralBase::Number) && lists_float(
        ty->Variant_0,
    ))
}

/// Whether an operand is a floating-point number.
pub fn binary_operand_is_float(ty: &Type) -> (float: bool)
    ensures
        float == is_float_operand(ty@),
{
    if is_named(ty, "Float") {
        return true;
    }
    match ty {
        Type::Variant(row) => literals_have_base(ty, LiteralBase::Number) && row_lists_float(row),
        _ => false,
    }
}

/// How an operand's type is written in a message: a literal by its base.
pub open spec fn operand_text<N: TypeNotation>(notation: &N, ty: SpecType) -> Seq<char> {
    if is_text_operand(ty) {
        "Text"@
    } else if is_numeric_operand(ty) {
        if is_float_operand(ty) {
            "Float"@
        } else {
            "Int"@
        }
    } else if has_literal_base(ty, LiteralBase::Bool) {
        "Bool"@
    } else {
        notation.inferred_text_of(ty)
    }
}

/// Write an operand's type.
pub fn operator_operand_type<N: TypeNotation>(notation: &N, ty: &Type) -> (text: String)
    ensures
        text@ == operand_text(notation, ty@),
{
    if binary_operand_is_text(ty) {
        "Text".to_owned()
    } else if binary_operand_is_numeric(ty) {
        if binary_operand_is_float(ty) {
            "Float".to_owned()
        } else {
            "Int".to_owned()
        }
    } else if literals_have_base(ty, LiteralBase::Bool) {
        "Bool".to_owned()
    } else {
        notation.render_inferred(ty)
    }
}

/// What an operator asks of its operands, as a note says it.
pub open spec fn operand_note(operator: Seq<char>) -> Seq<char> {
    if operator == "+"@ {
        "`+` accepts two numbers or two Text values"@
    } else if is_plain_arithmetic(operator) || is_order_operator(operator) {
        "this operator accepts numeric operands"@
    } else if is_equality_operator(operator) {
        "both operands must have compatible types"@
    } else if is_bool_operator(operator) || operator == "!"@ {
        "this operator accepts Bool operands"@
    } else {
        "use operands supported by this operator"@
    }
}

pub open spec fn is_plain_arithmetic(operator: Seq<char>) -> bool {
    operator == "-"@ || operator == "*"@ || operator == "/"@ || operator == "%"@ || operator
        == "^"@
}

pub open spec fn is_order_operator(operator: Seq<char>) -> bool {
    operator == "<"@ || operator == "<="@ || operator == ">"@ || operator == ">="@
}

pub open spec fn is_bool_operator(operator: Seq<char>) -> bool {
    operator == "&&"@ || operator == "||"@
}

fn plain_arithmetic(operator: &str) -> (arithmetic: bool)
    ensures
        arithmetic == is_plain_arithmetic(operator@),
{
    same_text(operator, "-") || same_text(operator, "*") || same_text(operator, "/") || same_text(
        operator,
        "%",
    ) || same_text(operator, "^")
}

fn order_operator(operator: &str) -> (order: bool)
    ensures
        order == is_order_operator(operator@),
{
    same_text(operator, "<") || same_text(operator, "<=") || same_text(operator, ">")
        || same_text(operator, ">=")
}

fn bool_operator(operator: &str) -> (logical: bool)
    ensures
        logical == is_bool_operator(operator@),
{
    same_text(operator, "&&") || same_text(operator, "||")
}

/// What an operator asks of its operands.
pub fn operator_operand_note(operator: &str) -> (note: &'static str)
    ensures
        note@ == operand_note(operator@),
{
    if same_text(operator, "+") {
        "`+` accepts two numbers or two Text values"
    } else if plain_arithmetic(operator) || order_operator(operator) {
        "this operator accepts numeric operands"
    } else if equality_operator(operator) {
        "both operands must have compatible types"
    } else if bool_operator(operator) || same_text(operator, "!") {
        "this operator accepts Bool operands"
    } else {
        "use operands supported by this operator"
    }
}

// ---------------------------------------------------------------------------
// Open rows
// ---------------------------------------------------------------------------
/// Whether a type has a row that may hold more than it lists. A type of literals
/// does not count.
pub open spec fn has_open_row(ty: SpecType) -> bool
    decreases ty,
{
    match ty {
        SpecType::Apply { callee, args } => has_open_row(*callee) || some_has_open_row(args),
        SpecType::Function { params, result, .. } => some_has_open_row(params) || has_open_row(
            *result,
        ),
        SpecType::Optional(inner) => has_open_row(*inner),
        SpecType::Nullable(inner) => has_open_row(*inner),
        SpecType::Tuple(items) => some_has_open_row(items),
        SpecType::Variant(row) => row_base(row) is None && row_is_open(row),
        SpecType::Record(row) => row_is_open(row),
        SpecType::SlotRecord { data, slots } => row_is_open(*data) || row_is_open(*slots),
        _ => false,
    }
}

pub open spec fn some_has_open_row(types: Seq<SpecType>) -> bool
    decreases types,
{
    exists|i: int| 0 <= i < types.len() && has_open_row(#[trigger] types[i])
}

pub open spec fn entry_has_open_row(entry: SpecRowEntry) -> bool
    decreases entry,
{
    match entry {
        SpecRowEntry::Field { ty, .. } => has_open_row(ty),
        SpecRowEntry::Tag { payload, .. } => some_has_open_row(payload),
        SpecRowEntry::Literal { .. } => false,
    }
}

pub open spec fn row_is_open(row: SpecRow) -> bool
    decreases row,
{
    row.tail is Open || exists|i: int|
        0 <= i < row.entries.len() && entry_has_open_row(#[trigger] row.entries[i])
}

/// Whether a type has a row that may hold more than it lists.
pub fn type_has_open_row(ty: &Type) -> (open: bool)
    ensures
        open == has_open_row(ty@),
    decreases ty,
{
    match ty {
        Type::Apply { callee, args } => type_has_open_row(callee) || some_type_has_open_row(args),
        Type::Function { params, result, .. } => some_type_has_open_row(params)
            || type_has_open_row(result),
        Type::Optional(inner) => type_has_open_row(inner),
        Type::Nullable(inner) => type_has_open_row(inner),
        Type::Tuple(items) => some_type_has_open_row(items),
        Type::Variant(row) => literal_variant_base(row).is_none() && row_may_hold_more(row),
        Type::Record(row) => row_may_hold_more(row),
        Type::SlotRecord { data, slots } => row_may_hold_more(data) || row_may_hold_more(slots),
        _ => false,
    }
}

fn some_type_has_open_row(types: &Vec<Type>) -> (open: bool)
    ensures
        open == some_has_open_row(types_view(types@)),
    decreases types,
{
    let mut index: usize = 0;
    while index < types.len()
        invariant
            index <= types.len(),
            forall|i: int| 0 <= i < index ==> !has_open_row(#[trigger] types_view(types@)[i]),
        decreases types.len() - index,
    {
        if type_has_open_row(&types[index]) {
            assert(types_view(types@)[index as int] == types@[index as int]@);
            return true;
        }
        index += 1;
    }
    false
}

fn row_may_hold_more(row: &Row) -> (open: bool)
    ensures
        open == row_is_open(row@),
    decreases row,
{
    assert(row@.tail == row.tail);
    if matches!(row.tail, RowTail::Open) {
        return true;
    }
    let mut index: usize = 0;
    while index < row.entries.len()
        invariant
            index <= row.entries.len(),
            !(row@.tail is Open),
            forall|i: int| 0 <= i < index ==> !entry_has_open_row(#[trigger] row@.entries[i]),
        decreases row.entries.len() - index,
    {
        assert(row@.entries[index as int] == row.entries@[index as int]@);
        let open = match &row.entries[index] {
            RowEntry::Field { ty, .. } => type_has_open_row(ty),
            RowEntry::Tag { payload, .. } => some_type_has_open_row(payload),
            RowEntry::Literal { .. } => false,
        };
        if open {
            assert(entry_has_open_row(row@.entries[index as int]));
            return true;
        }
        index += 1;
    }
    false
}

/// Whether an operand's type is known well enough for a verdict.
pub fn is_resolved_operator_operand(ty: &Type) -> (is_resolved: bool)
    ensures
        is_resolved == (resolved(ty@) && !has_open_row(ty@)),
{
    is_resolved_value_type(ty) && !type_has_open_row(ty)
}

/// Whether the left operand of `??` can be empty.
pub open spec fn can_be_empty(ty: SpecType) -> bool {
    peeled_values(ty, Seq::empty()).len() > 0 || peeled_payload(ty) == SpecType::Named("Null"@)
        || peeled_payload(ty) == SpecType::Named("Undefined"@)
}

/// Whether the left operand of `??` can be empty.
pub fn coalesce_left_can_be_empty(ty: &Type) -> (empty: bool)
    ensures
        empty == can_be_empty(ty@),
{
    let (empties, core) = peel_empty_values(ty);
    if empties.len() > 0 {
        return true;
    }
    is_named(core, "Null") || is_named(core, "Undefined")
}

/// Whether `??` has a fallback that is never used.
pub open spec fn fallback_is_dead(left: SpecType, depends_on_comptime_param: bool) -> bool {
    !depends_on_comptime_param && resolved(left) && !has_open_row(left) && !can_be_empty(left)
}

/// Whether `??` has a fallback that is never used.
pub fn coalesce_fallback_is_dead(left: &Type, depends_on_comptime_param: bool) -> (dead: bool)
    ensures
        dead == fallback_is_dead(left@, depends_on_comptime_param),
{
    !depends_on_comptime_param && is_resolved_operator_operand(left)
        && !coalesce_left_can_be_empty(left)
}

// ---------------------------------------------------------------------------
// Literals as types
// ---------------------------------------------------------------------------
/// Whether a type is the variant without members.
pub fn is_empty_closed_variant(ty: &Type) -> (empty: bool)
    ensures
        empty == (ty@ is Variant && ty@->Variant_0.tail is Closed
            && ty@->Variant_0.entries.len() == 0),
{
    match ty {
        Type::Variant(row) => {
            assert(row@.tail == row.tail);
            assert(row@.entries.len() == row.entries.len());
            matches!(row.tail, RowTail::Closed) && row.entries.len() == 0
        },
        _ => false,
    }
}

/// The literal of a type that lists one, unless it is open.
pub open spec fn only_literal(ty: SpecType) -> Option<SpecLiteral> {
    match ty {
        SpecType::Variant(row) => if row.tail is Open || row.entries.len() != 1 {
            None
        } else {
            match row.entries[0] {
                SpecRowEntry::Literal { value } => Some(value),
                _ => None,
            }
        },
        _ => None,
    }
}

/// The literal of a type that lists one, unless it is open.
pub fn singleton_literal_type(ty: &Type) -> (literal: Option<&Literal>)
    ensures
        match literal {
            Some(literal) => only_literal(ty@) == Some(literal@),
            None => only_literal(ty@) is None,
        },
{
    match ty {
        Type::Variant(row) => {
            assert(row@.tail == row.tail);
            assert(row@.entries.len() == row.entries.len());
            if matches!(row.tail, RowTail::Open) || row.entries.len() != 1 {
                return None;
            }
            assert(row@.entries[0] == row.entries@[0]@);
            match &row.entries[0] {
                RowEntry::Literal { value } => Some(value),
                _ => None,
            }
        },
        _ => None,
    }
}

/// The literal that an operator gives on operands of singleton types.
pub fn fold_binary_literal(
    operator: &str,
    left: &Type,
    right: &Type,
    left_text: &str,
    right_text: &str,
    float: &FloatFold,
) -> (literal: Option<Literal>)
    ensures
        literal_view(literal) == (match (only_literal(left@), only_literal(right@)) {
            (Some(left), Some(right)) => folded_binary(
                operator@,
                left,
                right,
                left_text@,
                right_text@,
                *float,
            ),
            _ => None,
        }),
{
    match (singleton_literal_type(left), singleton_literal_type(right)) {
        (Some(left), Some(right)) => fold_binary_literals(
            operator,
            left,
            right,
            left_text,
            right_text,
            float,
        ),
        _ => None,
    }
}

// ---------------------------------------------------------------------------
// Divisors
// ---------------------------------------------------------------------------
/// Whether an integer literal is zero: it consists of zeros and separators.
pub open spec fn is_zero_text(text: Seq<char>) -> bool {
    forall|i: int| 0 <= i < text.len() ==> (#[trigger] text[i]) == '0' || text[i] == '_'
}

/// Whether an integer literal is zero.
pub fn integer_literal_text_is_zero(number: &str) -> (zero: bool)
    ensures
        zero == is_zero_text(number@),
{
    let length: usize = number.unicode_len();
    let mut index: usize = 0;
    while index < length
        invariant
            index <= length,
            length == number@.len(),
            forall|i: int|
                0 <= i < index ==> (#[trigger] number@[i]) == '0' || number@[i] == '_',
        decreases length - index,
    {
        let c: char = number.get_char(index);
        if c != '0' && c != '_' {
            assert(number@[index as int] == c);
            return false;
        }
        index += 1;
    }
    true
}

/// Whether an entry is an integer literal.
pub open spec fn is_integer_entry(entry: SpecRowEntry) -> bool {
    entry is Literal && entry->Literal_value is Number && !float_text(
        entry->Literal_value->Number_0,
    )
}

/// Whether an entry is an integer literal for zero.
pub open spec fn is_zero_entry(entry: SpecRowEntry) -> bool {
    is_integer_entry(entry) && is_zero_text(entry->Literal_value->Number_0)
}

/// Whether a divisor's type says that it is zero, or that it is not. A type says
/// so if it lists integer literals that are all zero, or all not, and if it is
/// not open.
pub open spec fn divisor_type_is_zero(ty: SpecType) -> Option<bool> {
    match ty {
        SpecType::Variant(row) => if row.tail is Open || row.entries.len() == 0 || row_base(row)
            != Some(LiteralBase::Number) || exists|i: int|
            0 <= i < row.entries.len() && !is_integer_entry(#[trigger] row.entries[i]) {
            None
        } else if forall|i: int|
            0 <= i < row.entries.len() ==> is_zero_entry(#[trigger] row.entries[i]) {
            Some(true)
        } else if forall|i: int|
            0 <= i < row.entries.len() ==> !is_zero_entry(#[trigger] row.entries[i]) {
            Some(false)
        } else {
            None
        },
        _ => None,
    }
}

/// Whether a divisor's type says that it is zero, or that it is not.
pub fn static_integer_divisor_type_is_zero(ty: &Type) -> (zero: Option<bool>)
    ensures
        zero == divisor_type_is_zero(ty@),
{
    let row = match ty {
        Type::Variant(row) => row,
        _ => {
            return None;
        },
    };
    assert(row@.tail == row.tail);
    assert(row@.entries.len() == row.entries.len());
    if matches!(row.tail, RowTail::Open) || row.entries.len() == 0 {
        return None;
    }
    match literal_variant_base(row) {
        Some(LiteralBase::Number) => {},
        _ => {
            return None;
        },
    }
    let mut saw_zero = false;
    let mut saw_nonzero = false;
    let mut index: usize = 0;
    while index < row.entries.len()
        invariant
            index <= row.entries.len(),
            ty@ == SpecType::Variant(row@),
            row@.entries.len() == row.entries.len(),
            forall|i: int| 0 <= i < index ==> is_integer_entry(#[trigger] row@.entries[i]),
            saw_zero == exists|i: int| 0 <= i < index && is_zero_entry(#[trigger] row@.entries[i]),
            saw_nonzero == exists|i: int|
                0 <= i < index && !is_zero_entry(#[trigger] row@.entries[i]),
        decreases row.entries.len() - index,
    {
        assert(row@.entries[index as int] == row.entries@[index as int]@);
        let number = match &row.entries[index] {
            RowEntry::Literal { value } => match value {
                Literal::Number(number) => number,
                _ => {
                    assert(!is_integer_entry(row@.entries[index as int]));
                    return None;
                },
            },
            _ => {
                assert(!is_integer_entry(row@.entries[index as int]));
                return None;
            },
        };
        if is_float_literal_text(number.as_str()) {
            assert(!is_integer_entry(row@.entries[index as int]));
            return None;
        }
        if integer_literal_text_is_zero(number.as_str()) {
            assert(is_zero_entry(row@.entries[index as int]));
            saw_zero = true;
        } else {
            assert(!is_zero_entry(row@.entries[index as int]));
            saw_nonzero = true;
        }
        index += 1;
    }
    assert(is_zero_entry(row@.entries[0]) || !is_zero_entry(row@.entries[0]));
    if saw_zero && !saw_nonzero {
        Some(true)
    } else if !saw_zero && saw_nonzero {
        Some(false)
    } else {
        None
    }
}

/// Whether an operand is an integer: the type `Int`, a family on it, or integer
/// literals.
pub open spec fn is_int_operand(ty: SpecType, family_base: Option<SpecType>) -> bool {
    ty == SpecType::Named("Int"@) || family_base == Some(SpecType::Named("Int"@)) || (
    has_literal_base(ty, LiteralBase::Number) && !lists_float(ty->Variant_0))
}

/// Whether an operand is an integer. `family_base` is the builtin base of the
/// family that the type names, if it names one.
pub fn operator_operand_resolves_to_int(ty: &Type, family_base: Option<&Type>) -> (is_int: bool)
    ensures
        is_int == is_int_operand(ty@, crate::rows::type_view(family_base)),
{
    if is_named(ty, "Int") {
        return true;
    }
    if let Some(base) = family_base {
        if is_named(base, "Int") {
            return true;
        }
    }
    match ty {
        Type::Variant(row) => literals_have_base(ty, LiteralBase::Number) && !row_lists_float(row),
        _ => false,
    }
}

/// What is known of the divisor of an integer division.
#[derive(Debug, Clone, Copy, PartialEq, Eq, Structural)]
pub enum DivisorVerdict {
    /// The operation is no integer division.
    NotChecked,
    /// The divisor is not zero.
    NonZero,
    /// The divisor is zero, by its literal or by its type.
    Zero { written: bool },
    /// The divisor may be zero.
    MayBeZero,
}

/// What is known of the divisor of an integer division. What is written decides
/// before the type.
pub open spec fn divisor_verdict(
    operator: Seq<char>,
    both_int: bool,
    literal_is_zero: Option<bool>,
    right: SpecType,
) -> DivisorVerdict {
    if !(operator == "/"@ || operator == "%"@) || !both_int {
        DivisorVerdict::NotChecked
    } else {
        match literal_is_zero {
            Some(true) => DivisorVerdict::Zero { written: true },
            Some(false) => DivisorVerdict::NonZero,
            None => match divisor_type_is_zero(right) {
                Some(true) => DivisorVerdict::Zero { written: false },
                Some(false) => DivisorVerdict::NonZero,
                None => DivisorVerdict::MayBeZero,
            },
        }
    }
}

/// What is known of the divisor of an integer division.
pub fn check_integer_divisor(
    operator: &str,
    both_int: bool,
    literal_is_zero: Option<bool>,
    right: &Type,
) -> (verdict: DivisorVerdict)
    ensures
        verdict == divisor_verdict(operator@, both_int, literal_is_zero, right@),
{
    if !(same_text(operator, "/") || same_text(operator, "%")) || !both_int {
        return DivisorVerdict::NotChecked;
    }
    match literal_is_zero {
        Some(true) => DivisorVerdict::Zero { written: true },
        Some(false) => DivisorVerdict::NonZero,
        None => match static_integer_divisor_type_is_zero(right) {
            Some(true) => DivisorVerdict::Zero { written: false },
            Some(false) => DivisorVerdict::NonZero,
            None => DivisorVerdict::MayBeZero,
        },
    }
}

// ---------------------------------------------------------------------------
// Rules for operands
// ---------------------------------------------------------------------------
/// What an operator makes of its operands.
#[derive(Debug)]
#[allow(inconsistent_fields)]
pub enum OperandRule {
    /// The operator is not defined for them.
    Reject,
    /// The result.
    Accept(Type),
    /// The operands must have one type, which is the result unless one is given.
    UnifyOperands { result: Option<Type> },
    /// The left operand must have a type.
    UnifyLeft { with: Type, result: Type },
    /// The right operand must have a type.
    UnifyRight { with: Type, result: Type },
    /// The operands can be compared if their types unify, are written alike, or
    /// one fits the other.
    CompareTypes,
}

/// What an operator makes of its operands.
#[allow(inconsistent_fields)]
pub ghost enum SpecRule {
    Reject,
    Accept(SpecType),
    UnifyOperands { result: Option<SpecType> },
    UnifyLeft { with: SpecType, result: SpecType },
    UnifyRight { with: SpecType, result: SpecType },
    CompareTypes,
}

impl OperandRule {
    pub open spec fn view(&self) -> SpecRule {
        match self {
            OperandRule::Reject => SpecRule::Reject,
            OperandRule::Accept(ty) => SpecRule::Accept(ty@),
            OperandRule::UnifyOperands { result } => SpecRule::UnifyOperands {
                result: match result {
                    Some(ty) => Some(ty@),
                    None => None,
                },
            },
            OperandRule::UnifyLeft { with, result } => SpecRule::UnifyLeft {
                with: with@,
                result: result@,
            },
            OperandRule::UnifyRight { with, result } => SpecRule::UnifyRight {
                with: with@,
                result: result@,
            },
            OperandRule::CompareTypes => SpecRule::CompareTypes,
        }
    }
}

/// What an operator on numbers makes of its operands. `numeric` says that one of
/// two unknown operands is known to be a number.
pub open spec fn numeric_rule(
    operator: Seq<char>,
    left: SpecType,
    right: SpecType,
    numeric: bool,
) -> SpecRule {
    if left is Meta && right is Meta && numeric {
        match builtin_signature(SpecType::Named("Int"@), operator) {
            Some(signature) => SpecRule::UnifyOperands {
                result: if signature.result == SpecType::Named("Int"@) {
                    None
                } else {
                    Some(signature.result)
                },
            },
            None => SpecRule::Reject,
        }
    } else if is_numeric(left) && is_numeric(right) {
        match operator_signature(left, operator, right) {
            Some(signature) => SpecRule::Accept(signature.result),
            None => SpecRule::Reject,
        }
    } else if left is Meta && is_numeric(right) {
        match operator_signature(right, operator, right) {
            Some(signature) => SpecRule::UnifyLeft { with: right, result: signature.result },
            None => SpecRule::Reject,
        }
    } else if is_numeric(left) && right is Meta {
        match operator_signature(left, operator, left) {
            Some(signature) => SpecRule::UnifyRight { with: left, result: signature.result },
            None => SpecRule::Reject,
        }
    } else {
        SpecRule::Reject
    }
}

/// What an operator on numbers makes of its operands.
pub fn infer_numeric_binary_type(operator: &str, left: &Type, right: &Type, numeric: bool) -> (rule:
    OperandRule)
    ensures
        rule@ == numeric_rule(operator@, left@, right@, numeric),
{
    if is_meta_type(left) && is_meta_type(right) && numeric {
        let int_type = named_builtin("Int");
        return match builtin_method_signature(&int_type, operator) {
            Some(signature) => OperandRule::UnifyOperands {
                result: if signature.result == int_type {
                    None
                } else {
                    Some(signature.result)
                },
            },
            None => OperandRule::Reject,
        };
    }
    let left_numeric = numeric_type_name(left).is_some();
    let right_numeric = numeric_type_name(right).is_some();
    if left_numeric && right_numeric {
        match resolve_builtin_operator_signature(left, operator, right) {
            Some(signature) => OperandRule::Accept(signature.result),
            None => OperandRule::Reject,
        }
    } else if is_meta_type(left) && right_numeric {
        match resolve_builtin_operator_signature(right, operator, right) {
            Some(signature) => OperandRule::UnifyLeft {
                with: right.clone(),
                result: signature.result,
            },
            None => OperandRule::Reject,
        }
    } else if left_numeric && is_meta_type(right) {
        match resolve_builtin_operator_signature(left, operator, left) {
            Some(signature) => OperandRule::UnifyRight {
                with: left.clone(),
                result: signature.result,
            },
            None => OperandRule::Reject,
        }
    } else {
        OperandRule::Reject
    }
}

/// What an operator on one builtin type makes of its operands.
pub open spec fn same_named_rule(left: SpecType, right: SpecType, name: Seq<char>) -> SpecRule {
    let named = SpecType::Named(name);
    if left == named && right == named {
        SpecRule::Accept(named)
    } else if left is Meta && right == named {
        SpecRule::UnifyLeft { with: named, result: named }
    } else if left == named && right is Meta {
        SpecRule::UnifyRight { with: named, result: named }
    } else {
        SpecRule::Reject
    }
}

/// What an operator on one builtin type makes of its operands.
pub fn infer_same_named_binary_type(left: &Type, right: &Type, name: &str) -> (rule: OperandRule)
    ensures
        rule@ == same_named_rule(left@, right@, name@),
{
    let left_named = is_named(left, name);
    let right_named = is_named(right, name);
    if left_named && right_named {
        OperandRule::Accept(named_builtin(name))
    } else if is_meta_type(left) && right_named {
        OperandRule::UnifyLeft { with: named_builtin(name), result: named_builtin(name) }
    } else if left_named && is_meta_type(right) {
        OperandRule::UnifyRight { with: named_builtin(name), result: named_builtin(name) }
    } else {
        OperandRule::Reject
    }
}

/// What a test for equality makes of its operands. `records` says whether two
/// records can be compared.
pub open spec fn equality_rule(
    left: SpecType,
    right: SpecType,
    numeric: bool,
    records: EqualityCompatibility,
) -> SpecRule {
    let answer = SpecType::Named("Bool"@);
    if left is Record && right is Record {
        if records is Mismatched {
            SpecRule::Reject
        } else {
            SpecRule::Accept(answer)
        }
    } else if left is Meta && right is Meta {
        if numeric {
            SpecRule::UnifyOperands { result: Some(answer) }
        } else {
            SpecRule::Reject
        }
    } else if is_numeric(left) && is_numeric(right) {
        SpecRule::Accept(answer)
    } else if left is Meta && resolved(right) {
        SpecRule::UnifyLeft { with: right, result: answer }
    } else if right is Meta && resolved(left) {
        SpecRule::UnifyRight { with: left, result: answer }
    } else if resolved(left) && resolved(right) {
        SpecRule::CompareTypes
    } else {
        SpecRule::Reject
    }
}

/// What a test for equality makes of its operands.
pub fn infer_equality_type(
    left: &Type,
    right: &Type,
    numeric: bool,
    records: EqualityCompatibility,
) -> (rule: OperandRule)
    ensures
        rule@ == equality_rule(left@, right@, numeric, records),
{
    if let (Type::Record(_), Type::Record(_)) = (left, right) {
        return if records == EqualityCompatibility::Mismatched {
            OperandRule::Reject
        } else {
            OperandRule::Accept(named_builtin("Bool"))
        };
    }
    let left_meta = is_meta_type(left);
    let right_meta = is_meta_type(right);
    if left_meta && right_meta {
        if numeric {
            OperandRule::UnifyOperands { result: Some(named_builtin("Bool")) }
        } else {
            OperandRule::Reject
        }
    } else if numeric_type_name(left).is_some() && numeric_type_name(right).is_some() {
        OperandRule::Accept(named_builtin("Bool"))
    } else if left_meta && is_resolved_value_type(right) {
        OperandRule::UnifyLeft { with: right.clone(), result: named_builtin("Bool") }
    } else if right_meta && is_resolved_value_type(left) {
        OperandRule::UnifyRight { with: left.clone(), result: named_builtin("Bool") }
    } else if is_resolved_value_type(left) && is_resolved_value_type(right) {
        OperandRule::CompareTypes
    } else {
        OperandRule::Reject
    }
}

/// What an operand counts as for an operator on numbers.
#[derive(Debug)]
pub enum NumericOperand {
    /// A type.
    Known(Type),
    /// An unknown number.
    FreshNumeric,
}

/// What an operand counts as for an operator on numbers: a family as its base,
/// and number literals as unknown numbers, but a single floating-point literal
/// as `Float`.
pub fn widen_numeric_operand(ty: &Type, family_base: Option<Type>) -> (operand: NumericOperand)
    ensures
        match operand {
            NumericOperand::Known(known) => {
                if family_base is Some {
                    known@ == family_base->0@
                } else if has_literal_base(ty@, LiteralBase::Number) {
                    known@ == SpecType::Named("Float"@) && is_float_singleton(ty@)
                } else {
                    known@ == ty@
                }
            },
            NumericOperand::FreshNumeric => family_base is None && has_literal_base(
                ty@,
                LiteralBase::Number,
            ) && !is_float_singleton(ty@),
        },
{
    if let Some(base) = family_base {
        return NumericOperand::Known(base);
    }
    if literals_have_base(ty, LiteralBase::Number) {
        if let Some(literal) = singleton_literal_type(ty) {
            if let Literal::Number(number) = literal {
                if is_float_literal_text(number.as_str()) {
                    return NumericOperand::Known(named_builtin("Float"));
                }
            }
        }
        return NumericOperand::FreshNumeric;
    }
    NumericOperand::Known(ty.clone())
}

/// Whether a type is that of a single floating-point literal.
pub open spec fn is_float_singleton(ty: SpecType) -> bool {
    match only_literal(ty) {
        Some(SpecLiteral::Number(text)) => float_text(text),
        _ => false,
    }
}

/// What an operand counts as for an operator on one builtin type.
pub open spec fn widened_to_named(
    ty: SpecType,
    name: Seq<char>,
    family_base: Option<SpecType>,
) -> SpecType {
    match family_base {
        Some(base) => base,
        None => if name == "Text"@ && has_literal_base(ty, LiteralBase::Text) {
            SpecType::Named("Text"@)
        } else if name == "Bool"@ && has_literal_base(ty, LiteralBase::Bool) {
            SpecType::Named("Bool"@)
        } else {
            ty
        },
    }
}

/// What an operand counts as for an operator on one builtin type: a family as its
/// base, and literals of the type as the type.
pub fn widen_same_named_operand(ty: &Type, name: &str, family_base: Option<Type>) -> (widened: Type)
    ensures
        widened@ == widened_to_named(ty@, name@, crate::rows::owned_type_view(family_base)),
{
    if let Some(base) = family_base {
        return base;
    }
    if same_text(name, "Text") && literals_have_base(ty, LiteralBase::Text) {
        return named_builtin("Text");
    }
    if same_text(name, "Bool") && literals_have_base(ty, LiteralBase::Bool) {
        return named_builtin("Bool");
    }
    ty.clone()
}

/// What an operand counts as for `==`, with the first unknown type that is not in use
/// then: literals count as their base, and number literals as an unknown number.
pub open spec fn equality_operand(ty: SpecType, next: int) -> (SpecType, int)
    decreases ty, 0nat,
{
    match ty {
        SpecType::Variant(row) => match row_base(row) {
            Some(LiteralBase::Bool) => (SpecType::Named("Bool"@), next),
            Some(LiteralBase::Text) => (SpecType::Named("Text"@), next),
            Some(LiteralBase::Number) => if is_float_singleton(ty) {
                (SpecType::Named("Float"@), next)
            } else {
                (SpecType::Meta(next as u32), next + 1)
            },
            None => (ty, next),
        },
        SpecType::Apply { callee, args } => {
            let after = equality_operands(args, next, args.len());
            (SpecType::Apply { callee, args: after.0 }, after.1)
        },
        _ => (ty, next),
    }
}

/// What the first arguments of a type count as for `==`.
pub open spec fn equality_operands(args: Seq<SpecType>, next: int, count: nat) -> (
    Seq<SpecType>,
    int,
)
    decreases args, count,
{
    if count == 0 || count > args.len() {
        (Seq::empty(), next)
    } else {
        let earlier = equality_operands(args, next, (count - 1) as nat);
        let last = equality_operand(args[count - 1], earlier.1);
        (earlier.0.push(last.0), last.1)
    }
}

pub proof fn equality_numbers_grow(ty: SpecType, next: int)
    ensures
        equality_operand(ty, next).1 >= next,
    decreases ty, 0nat,
{
    match ty {
        SpecType::Apply { callee, args } => {
            equality_numbers_grow_to(args, next, 0, args.len());
        },
        _ => {},
    }
}

proof fn equality_numbers_grow_to(args: Seq<SpecType>, next: int, few: nat, many: nat)
    requires
        few <= many <= args.len(),
    ensures
        equality_operands(args, next, few).1 <= equality_operands(args, next, many).1,
    decreases args, many,
{
    if few < many {
        equality_numbers_grow_to(args, next, few, (many - 1) as nat);
        equality_numbers_grow(
            args[many - 1],
            equality_operands(args, next, (many - 1) as nat).1,
        );
    }
}

/// Count on from the first unknown type that is not in use to the first that is not after an
/// operand of `==` is looked at; no number where they run out.
pub fn count_equality_operand(ty: &Type, next: u32) -> (after: Option<u32>)
    ensures
        match after {
            Some(after) => equality_operand(ty@, next as int).1 == after,
            None => equality_operand(ty@, next as int).1 > u32::MAX,
        },
    decreases ty,
{
    match ty {
        Type::Variant(row) => {
            assert(ty@ == SpecType::Variant(row@));
            match literal_variant_base(row) {
                Some(LiteralBase::Number) => match widen_numeric_operand(ty, None) {
                    NumericOperand::Known(_) => Some(next),
                    NumericOperand::FreshNumeric => next.checked_add(1),
                },
                _ => Some(next),
            }
        },
        Type::Apply { callee: _, args } => count_equality_operands(args, next),
        _ => Some(next),
    }
}

fn count_equality_operands(args: &Vec<Type>, next: u32) -> (after: Option<u32>)
    ensures
        match after {
            Some(after) => equality_operands(types_view(args@), next as int, args@.len()).1 == after,
            None => equality_operands(types_view(args@), next as int, args@.len()).1 > u32::MAX,
        },
    decreases args,
{
    let ghost all = types_view(args@);
    assert(all.len() == args@.len());
    let mut after: u32 = next;
    let mut index: usize = 0;
    while index < args.len()
        invariant
            index <= args.len(),
            all == types_view(args@),
            all.len() == args@.len(),
            after == equality_operands(all, next as int, index as nat).1,
        decreases args.len() - index,
    {
        assert(all[index as int] == args@[index as int]@);
        match count_equality_operand(&args[index], after) {
            Some(number) => {
                after = number;
            },
            None => {
                proof {
                    equality_numbers_grow_to(all, next as int, (index + 1) as nat, all.len());
                }
                return None;
            },
        }
        index += 1;
    }
    Some(after)
}

/// What an operand counts as for `==`. Unknown numbers are numbered from `next` on.
pub fn widen_equality_operand(ty: &Type, next: &mut u32) -> (widened: Type)
    requires
        equality_operand(ty@, *old(next) as int).1 <= u32::MAX,
    ensures
        (widened@, *final(next) as int) == equality_operand(ty@, *old(next) as int),
    decreases ty,
{
    match ty {
        Type::Variant(row) => {
            assert(ty@ == SpecType::Variant(row@));
            match literal_variant_base(row) {
                Some(LiteralBase::Bool) => named_builtin("Bool"),
                Some(LiteralBase::Text) => named_builtin("Text"),
                Some(LiteralBase::Number) => match widen_numeric_operand(ty, None) {
                    NumericOperand::Known(known) => known,
                    NumericOperand::FreshNumeric => {
                        let number: u32 = *next;
                        *next = number + 1;
                        Type::Meta(number)
                    },
                },
                None => ty.clone(),
            }
        },
        Type::Apply { callee, args } => {
            let widened = widen_equality_operands(args, next);
            Type::Apply { callee: callee.clone(), args: widened }
        },
        _ => ty.clone(),
    }
}

fn widen_equality_operands(args: &Vec<Type>, next: &mut u32) -> (widened: Vec<Type>)
    requires
        equality_operands(types_view(args@), *old(next) as int, args@.len()).1 <= u32::MAX,
    ensures
        (types_view(widened@), *final(next) as int) == equality_operands(
            types_view(args@),
            *old(next) as int,
            args@.len(),
        ),
    decreases args,
{
    let ghost all = types_view(args@);
    let ghost start = *next as int;
    let mut widened: Vec<Type> = Vec::new();
    let mut index: usize = 0;
    assert(types_view(widened@) =~= Seq::empty());
    while index < args.len()
        invariant
            index <= args.len(),
            all == types_view(args@),
            equality_operands(all, start, all.len()).1 <= u32::MAX,
            (types_view(widened@), *next as int) == equality_operands(all, start, index as nat),
        decreases args.len() - index,
    {
        proof {
            equality_numbers_grow_to(all, start, (index + 1) as nat, all.len());
        }
        assert(all[index as int] == args@[index as int]@);
        let ghost earlier = types_view(widened@);
        let part = widen_equality_operand(&args[index], next);
        widened.push(part);
        assert(types_view(widened@) =~= earlier.push(part@));
        index += 1;
    }
    widened
}

/// The position of a parameter of the innermost function that has one of that name.
pub open spec fn parameter_position(scopes: Seq<StringMap<usize>>, name: Seq<char>) -> Option<usize>
    decreases scopes.len(),
{
    if scopes.len() == 0 {
        None
    } else if scopes.last()@.contains_key(name) {
        Some(scopes.last()@[name])
    } else {
        parameter_position(scopes.drop_last(), name)
    }
}

/// The position of the parameter that a divisor is, if it is one.
pub fn integer_divisor_parameter_index(right: &Expr, scopes: &Vec<StringMap<usize>>) -> (position: Option<
    usize,
>)
    ensures
        position == (match ungrouped(*right).kind {
            ExprKind::Name(name) => parameter_position(scopes@, name@),
            _ => None,
        }),
{
    let name = match &ungroup_expr(right).kind {
        ExprKind::Name(name) => name.as_str(),
        _ => {
            return None;
        },
    };
    let ghost all = scopes@;
    let mut index: usize = scopes.len();
    assert(all.take(all.len() as int) =~= all);
    while index > 0
        invariant
            index <= scopes.len(),
            all == scopes@,
            ungrouped(*right).kind is Name,
            ungrouped(*right).kind->Name_0@ == name@,
            parameter_position(all, name@) == parameter_position(all.take(index as int), name@),
        decreases index,
    {
        index -= 1;
        proof {
            let longer = all.take(index + 1);
            assert(longer.drop_last() =~= all.take(index as int));
            assert(longer.last() == scopes@[index as int]);
        }
        if let Some(position) = scopes[index].get(name) {
            return Some(*position);
        }
    }
    None
}

/// The group of rules that an operator goes by.
#[derive(Debug, Clone, Copy, PartialEq, Eq, Structural)]
pub enum OperatorKind {
    /// `+`: numbers, and then texts.
    Add,
    /// The other operators on numbers.
    Numeric,
    Equality,
    Logical,
    Coalesce,
    Other,
}

/// The group of rules that an operator goes by.
pub open spec fn kind_of(operator: Seq<char>) -> OperatorKind {
    if operator == "+"@ {
        OperatorKind::Add
    } else if is_plain_arithmetic(operator) || is_order_operator(operator) {
        OperatorKind::Numeric
    } else if is_equality_operator(operator) {
        OperatorKind::Equality
    } else if is_bool_operator(operator) {
        OperatorKind::Logical
    } else if operator == "??"@ {
        OperatorKind::Coalesce
    } else {
        OperatorKind::Other
    }
}

/// The group of rules that an operator goes by.
pub fn operator_kind(operator: &str) -> (kind: OperatorKind)
    ensures
        kind == kind_of(operator@),
{
    if same_text(operator, "+") {
        OperatorKind::Add
    } else if plain_arithmetic(operator) || order_operator(operator) {
        OperatorKind::Numeric
    } else if equality_operator(operator) {
        OperatorKind::Equality
    } else if bool_operator(operator) {
        OperatorKind::Logical
    } else if same_text(operator, "??") {
        OperatorKind::Coalesce
    } else {
        OperatorKind::Other
    }
}

// ---------------------------------------------------------------------------
// Rules for operators
// ---------------------------------------------------------------------------
/// What an operand counts as for an operator on numbers, with the first unknown type
/// that is not in use then.
pub open spec fn numeric_operand(ty: SpecType, base: Option<SpecType>, next: int) -> (
    SpecType,
    int,
) {
    match base {
        Some(base) => (base, next),
        None => if has_literal_base(ty, LiteralBase::Number) {
            if is_float_singleton(ty) {
                (SpecType::Named("Float"@), next)
            } else {
                (SpecType::Meta(next as u32), next + 1)
            }
        } else {
            (ty, next)
        },
    }
}

/// Whether an operand is a literal that counts as an unknown number.
pub open spec fn is_unknown_number(ty: SpecType) -> bool {
    has_literal_base(ty, LiteralBase::Number) && !is_float_singleton(ty)
}

/// What is known of the operands of an operator.
pub struct OperandFacts<'a> {
    pub operator: &'a str,
    /// The result of the method that the family of the left operand has for the
    /// operator, where the method takes the right operand.
    pub family_result: Option<&'a Type>,
    /// The types of the operands.
    pub left: &'a Type,
    pub right: &'a Type,
    /// The builtin bases of the operands' families.
    pub left_base: Option<&'a Type>,
    pub right_base: Option<&'a Type>,
    /// Whether an operand is an unknown number.
    pub left_is_number: bool,
    pub right_is_number: bool,
    /// Whether two records can be compared.
    pub records: EqualityCompatibility,
    /// Whether the right operand fits what the left holds if it is not empty.
    pub right_fits_payload: bool,
    /// Whether what the left operand holds fits the right one.
    pub payload_fits_right: bool,
}

/// What is known of the operands of an operator.
pub ghost struct SpecOperands {
    pub operator: Seq<char>,
    pub family_result: Option<SpecType>,
    pub left: SpecType,
    pub right: SpecType,
    pub left_base: Option<SpecType>,
    pub right_base: Option<SpecType>,
    pub left_is_number: bool,
    pub right_is_number: bool,
    pub records: EqualityCompatibility,
    pub right_fits_payload: bool,
    pub payload_fits_right: bool,
}

impl<'a> OperandFacts<'a> {
    pub open spec fn view(&self) -> SpecOperands {
        SpecOperands {
            operator: self.operator@,
            family_result: base_view(self.family_result),
            left: self.left@,
            right: self.right@,
            left_base: base_view(self.left_base),
            right_base: base_view(self.right_base),
            left_is_number: self.left_is_number,
            right_is_number: self.right_is_number,
            records: self.records,
            right_fits_payload: self.right_fits_payload,
            payload_fits_right: self.payload_fits_right,
        }
    }
}

/// What the operands of an operator count as, and what the operator makes of them.
#[derive(Debug)]
pub struct BinaryTyping {
    pub left: Type,
    pub right: Type,
    pub rule: OperandRule,
}

/// What the operands of an operator count as, and what the operator makes of them.
pub ghost struct SpecTyping {
    pub left: SpecType,
    pub right: SpecType,
    pub rule: SpecRule,
}

impl BinaryTyping {
    pub open spec fn view(&self) -> SpecTyping {
        SpecTyping { left: self.left@, right: self.right@, rule: self.rule@ }
    }
}

pub open spec fn base_view(base: Option<&Type>) -> Option<SpecType> {
    match base {
        Some(base) => Some(base@),
        None => None,
    }
}

/// How an operator on numbers types its operands, with the first unknown type that
/// is not in use then.
pub open spec fn numeric_typing(facts: SpecOperands, next: int) -> (SpecTyping, int) {
    let left = numeric_operand(facts.left, facts.left_base, next);
    let right = numeric_operand(facts.right, facts.right_base, left.1);
    let numeric = facts.left_is_number || facts.right_is_number || (facts.left_base is None
        && is_unknown_number(facts.left)) || (facts.right_base is None && is_unknown_number(
        facts.right,
    ));
    (
        SpecTyping {
            left: left.0,
            right: right.0,
            rule: numeric_rule(facts.operator, left.0, right.0, numeric),
        },
        right.1,
    )
}

/// How an operator on one builtin type types its operands.
pub open spec fn same_named_typing(facts: SpecOperands, name: Seq<char>) -> SpecTyping {
    let left = widened_to_named(facts.left, name, facts.left_base);
    let right = widened_to_named(facts.right, name, facts.right_base);
    SpecTyping { left, right, rule: same_named_rule(left, right, name) }
}

/// How a test for equality types its operands.
pub open spec fn equality_typing(facts: SpecOperands, next: int) -> (SpecTyping, int) {
    let left = equality_operand(facts.left, next);
    let right = equality_operand(facts.right, left.1);
    let numeric = facts.left_is_number || facts.right_is_number || is_unknown_number(facts.left)
        || is_unknown_number(facts.right);
    (
        SpecTyping {
            left: left.0,
            right: right.0,
            rule: equality_rule(left.0, right.0, numeric, facts.records),
        },
        right.1,
    )
}

/// How `??` types its operands.
pub open spec fn coalesce_rule(facts: SpecOperands) -> SpecRule {
    if facts.right_fits_payload {
        SpecRule::Accept(peeled_payload(facts.left))
    } else if facts.payload_fits_right {
        SpecRule::Accept(facts.right)
    } else {
        SpecRule::Reject
    }
}

/// How an operator types its operands, with the first unknown type that is not in use
/// then: a family's method decides first, and `+` on numbers before `+` on texts.
pub open spec fn binary_typing(facts: SpecOperands, next: int) -> (SpecTyping, int) {
    let plain = |rule: SpecRule|
        (SpecTyping { left: facts.left, right: facts.right, rule }, next);
    match facts.family_result {
        Some(result) => plain(SpecRule::Accept(result)),
        None => match kind_of(facts.operator) {
            OperatorKind::Add => {
                let numbers = numeric_typing(facts, next);
                if numbers.0.rule is Reject {
                    (same_named_typing(facts, "Text"@), numbers.1)
                } else {
                    numbers
                }
            },
            OperatorKind::Numeric => numeric_typing(facts, next),
            OperatorKind::Equality => equality_typing(facts, next),
            OperatorKind::Logical => (same_named_typing(facts, "Bool"@), next),
            OperatorKind::Coalesce => plain(coalesce_rule(facts)),
            OperatorKind::Other => plain(SpecRule::Reject),
        },
    }
}

/// Copy the base of a family.
pub fn clone_base(base: Option<&Type>) -> (copied: Option<Type>)
    ensures
        crate::rows::owned_type_view(copied) == base_view(base),
{
    match base {
        Some(base) => Some(base.clone()),
        None => None,
    }
}

/// What an operand counts as for an operator on numbers. Unknown numbers are numbered
/// from `next` on.
pub fn number_operand(ty: &Type, base: Option<&Type>, next: &mut u32) -> (operand: Type)
    requires
        numeric_operand(ty@, base_view(base), *old(next) as int).1 <= u32::MAX,
    ensures
        (operand@, *final(next) as int) == numeric_operand(
            ty@,
            base_view(base),
            *old(next) as int,
        ),
{
    match widen_numeric_operand(ty, clone_base(base)) {
        NumericOperand::Known(known) => known,
        NumericOperand::FreshNumeric => {
            let number: u32 = *next;
            *next = number + 1;
            Type::Meta(number)
        },
    }
}

/// Find out whether an operand is a literal that counts as an unknown number.
pub fn counts_as_unknown_number(ty: &Type) -> (unknown: bool)
    ensures
        unknown == is_unknown_number(ty@),
{
    matches!(widen_numeric_operand(ty, None), NumericOperand::FreshNumeric)
}

fn infer_numbers(facts: &OperandFacts<'_>, next: &mut u32) -> (typing: BinaryTyping)
    requires
        *old(next) <= u32::MAX - 2,
    ensures
        (typing@, *final(next) as int) == numeric_typing(facts@, *old(next) as int),
{
    let left = number_operand(facts.left, facts.left_base, next);
    let right = number_operand(facts.right, facts.right_base, next);
    let numeric = facts.left_is_number || facts.right_is_number || (facts.left_base.is_none()
        && counts_as_unknown_number(facts.left)) || (facts.right_base.is_none()
        && counts_as_unknown_number(facts.right));
    let rule = infer_numeric_binary_type(facts.operator, &left, &right, numeric);
    BinaryTyping { left, right, rule }
}

fn infer_same_named(facts: &OperandFacts<'_>, name: &str) -> (typing: BinaryTyping)
    ensures
        typing@ == same_named_typing(facts@, name@),
{
    let left = widen_same_named_operand(facts.left, name, clone_base(facts.left_base));
    let right = widen_same_named_operand(facts.right, name, clone_base(facts.right_base));
    let rule = infer_same_named_binary_type(&left, &right, name);
    BinaryTyping { left, right, rule }
}

/// Say how an operator types its operands. Unknown numbers are numbered from `next`
/// on.
pub fn infer_binary_type(facts: &OperandFacts<'_>, next: &mut u32) -> (typing: BinaryTyping)
    requires
        *old(next) <= u32::MAX - 2,
        equality_typing(facts@, *old(next) as int).1 <= u32::MAX,
    ensures
        (typing@, *final(next) as int) == binary_typing(facts@, *old(next) as int),
{
    if let Some(result) = facts.family_result {
        return BinaryTyping {
            left: facts.left.clone(),
            right: facts.right.clone(),
            rule: OperandRule::Accept(result.clone()),
        };
    }
    match operator_kind(facts.operator) {
        OperatorKind::Add => {
            let numbers = infer_numbers(facts, next);
            match numbers.rule {
                OperandRule::Reject => infer_same_named(facts, "Text"),
                _ => numbers,
            }
        },
        OperatorKind::Numeric => infer_numbers(facts, next),
        OperatorKind::Equality => {
            proof {
                let after = equality_operand(facts.left@, *next as int).1;
                equality_numbers_grow(facts.right@, after);
            }
            let left = widen_equality_operand(facts.left, next);
            let right = widen_equality_operand(facts.right, next);
            let numeric = facts.left_is_number || facts.right_is_number
                || counts_as_unknown_number(facts.left) || counts_as_unknown_number(facts.right);
            let rule = infer_equality_type(&left, &right, numeric, facts.records);
            BinaryTyping { left, right, rule }
        },
        OperatorKind::Logical => infer_same_named(facts, "Bool"),
        OperatorKind::Coalesce => {
            let rule = match infer_null_coalesce_type(
                facts.left,
                facts.right,
                facts.right_fits_payload,
                facts.payload_fits_right,
            ) {
                Some(ty) => OperandRule::Accept(ty),
                None => OperandRule::Reject,
            };
            BinaryTyping { left: facts.left.clone(), right: facts.right.clone(), rule }
        },
        OperatorKind::Other => BinaryTyping {
            left: facts.left.clone(),
            right: facts.right.clone(),
            rule: OperandRule::Reject,
        },
    }
}

// ---------------------------------------------------------------------------
// Binary operations
// ---------------------------------------------------------------------------
/// What is known before a binary operation is typed.
pub struct BinaryFacts<'a> {
    pub operator: &'a str,
    /// The module is a dependency.
    pub in_dependency: bool,
    /// The operator is a custom one.
    pub custom_operator: bool,
    /// The operator is one that types can define as a method.
    pub method_operator: bool,
    /// The types of the operands.
    pub left: &'a Type,
    pub right: &'a Type,
    /// The left operand belongs to a named family.
    pub left_is_family: bool,
    /// The family's method for the operator.
    pub family_method: Option<&'a MethodSignature>,
    /// The right operand belongs to a family on a builtin base.
    pub right_has_base: bool,
    pub right_span: Span,
    /// What the operation on literals gives.
    pub folded: Option<Literal>,
}

/// How a binary operation is typed.
#[derive(Debug)]
pub enum BinaryStep<'a> {
    /// Custom operators are not written between operands here.
    RejectCustomInfix,
    /// The right operand is called with the left.
    Pipe,
    /// The method of the left operand's family decides; the right operand is checked
    /// against its parameter if it has just one.
    FamilyMethod { method: &'a MethodSignature, param: Option<&'a Type> },
    /// The result is a literal.
    Folded(Literal),
    /// Functions are not compared; the left operand is one, or else the right.
    CompareFunctions { left: bool },
    /// The rules for the operator decide.
    Rules(OperatorKind),
}

/// How a binary operation is typed, whether the right operand counts as the base of
/// its family, and whether the divisor is looked at.
#[derive(Debug)]
pub struct BinaryPlan<'a> {
    pub step: BinaryStep<'a>,
    pub widens_right: bool,
    pub checks_divisor: bool,
}

/// What decides a binary operation.
pub open spec fn is_planned(facts: &BinaryFacts<'_>, plan: &BinaryPlan<'_>) -> bool {
    let operator = facts.operator@;
    if facts.in_dependency && facts.custom_operator {
        plan.step is RejectCustomInfix && !plan.widens_right && !plan.checks_divisor
    } else if operator == "|>"@ {
        plan.step is Pipe && !plan.widens_right && !plan.checks_divisor
    } else if facts.method_operator && facts.left_is_family && facts.family_method is Some {
        &&& plan.step is FamilyMethod
        &&& *plan.step->method == *facts.family_method->0
        &&& base_view(plan.step->param) == (if facts.family_method->0@.params.len() == 1 {
            Some(facts.family_method->0@.params[0])
        } else {
            None
        })
        &&& !plan.widens_right
        &&& plan.checks_divisor
    } else {
        &&& plan.checks_divisor
        &&& plan.widens_right == (!facts.left_is_family && facts.right_has_base
            && facts.right_span.start != facts.right_span.end)
        &&& if facts.folded is Some {
            plan.step is Folded && plan.step->Folded_0@ == facts.folded->0@
        } else if is_equality_operator(operator) && (facts.left@ is Function
            || facts.right@ is Function) {
            plan.step == (BinaryStep::CompareFunctions { left: facts.left@ is Function })
        } else {
            plan.step == BinaryStep::Rules(kind_of(operator))
        }
    }
}

/// Decide how a binary operation is typed.
pub fn infer_binary<'a>(facts: &BinaryFacts<'a>) -> (plan: BinaryPlan<'a>)
    ensures
        is_planned(facts, &plan),
{
    if facts.in_dependency && facts.custom_operator {
        return BinaryPlan {
            step: BinaryStep::RejectCustomInfix,
            widens_right: false,
            checks_divisor: false,
        };
    }
    if same_text(facts.operator, "|>") {
        return BinaryPlan { step: BinaryStep::Pipe, widens_right: false, checks_divisor: false };
    }
    if facts.method_operator && facts.left_is_family {
        if let Some(method) = facts.family_method {
            let param = if method.params.len() == 1 {
                Some(&method.params[0])
            } else {
                None
            };
            assert(types_view(method.params@).len() == method.params.len());
            return BinaryPlan {
                step: BinaryStep::FamilyMethod { method, param },
                widens_right: false,
                checks_divisor: true,
            };
        }
    }
    let widens_right = !facts.left_is_family && facts.right_has_base && facts.right_span.start
        != facts.right_span.end;
    if let Some(literal) = &facts.folded {
        return BinaryPlan {
            step: BinaryStep::Folded(literal.clone()),
            widens_right,
            checks_divisor: true,
        };
    }
    if equality_operator(facts.operator) {
        let left_function = matches!(facts.left, Type::Function { .. });
        let right_function = matches!(facts.right, Type::Function { .. });
        if left_function || right_function {
            return BinaryPlan {
                step: BinaryStep::CompareFunctions { left: left_function },
                widens_right,
                checks_divisor: true,
            };
        }
    }
    BinaryPlan {
        step: BinaryStep::Rules(operator_kind(facts.operator)),
        widens_right,
        checks_divisor: true,
    }
}

/// The result of an operation whose operands are not known yet.
#[derive(Debug, Clone, Copy, PartialEq, Eq, Structural)]
pub enum PendingResult {
    Deferred,
    Bool,
    /// The type of the left operand.
    LeftOperand,
    /// A type that is not known yet.
    Fresh,
}

/// What an operation on unknown operands requires.
#[derive(Debug, Clone, Copy, PartialEq, Eq, Structural)]
pub struct PendingOperation {
    /// Both operands must have one type.
    pub homogeneous: bool,
    pub result: PendingResult,
    /// The divisor is checked once the operands are known.
    pub checks_divisor: bool,
}

/// What an operation on unknown operands requires. `left` is the normal form of
/// the left operand's type; the operands are taken for one type if both are
/// unknown and no annotation names either.
pub open spec fn pending(
    operator: Seq<char>,
    method_operator: bool,
    left: SpecType,
    both_unknown_and_unnamed: bool,
) -> Option<PendingOperation> {
    if method_operator && (left is Meta || left is Variable || left is Deferred) {
        Some(
            PendingOperation {
                homogeneous: both_unknown_and_unnamed,
                result: if left is Deferred {
                    PendingResult::Deferred
                } else if is_order_operator(operator) {
                    PendingResult::Bool
                } else if both_unknown_and_unnamed {
                    PendingResult::LeftOperand
                } else {
                    PendingResult::Fresh
                },
                checks_divisor: operator == "/"@ || operator == "%"@,
            },
        )
    } else {
        None
    }
}

/// What an operation on unknown operands requires.
pub fn pending_operation(
    operator: &str,
    method_operator: bool,
    left: &Type,
    both_unknown_and_unnamed: bool,
) -> (operation: Option<PendingOperation>)
    ensures
        operation == pending(operator@, method_operator, left@, both_unknown_and_unnamed),
{
    let deferred = matches!(left, Type::Deferred);
    let unknown = deferred || matches!(left, Type::Meta(_)) || matches!(left, Type::Variable(_));
    if !method_operator || !unknown {
        return None;
    }
    let result = if deferred {
        PendingResult::Deferred
    } else if order_operator(operator) {
        PendingResult::Bool
    } else if both_unknown_and_unnamed {
        PendingResult::LeftOperand
    } else {
        PendingResult::Fresh
    };
    Some(
        PendingOperation {
            homogeneous: both_unknown_and_unnamed,
            result,
            checks_divisor: same_text(operator, "/") || same_text(operator, "%"),
        },
    )
}

/// The type of an operation that is not defined for its operands.
pub open spec fn invalid_result(
    operator: Seq<char>,
    left: SpecType,
    right: SpecType,
) -> SpecType {
    if is_order_operator(operator) || is_equality_operator(operator) || is_bool_operator(
        operator,
    ) {
        SpecType::Named("Bool"@)
    } else if operator == "+"@ || is_plain_arithmetic(operator) {
        if is_float_operand(left) || is_float_operand(right) {
            SpecType::Named("Float"@)
        } else if is_numeric_operand(left) || is_numeric_operand(right) {
            SpecType::Named("Int"@)
        } else if operator == "+"@ && (is_text_operand(left) || is_text_operand(right)) {
            SpecType::Named("Text"@)
        } else {
            SpecType::Deferred
        }
    } else {
        SpecType::Deferred
    }
}

/// The type of an operation that is not defined for its operands.
pub fn invalid_binary_result_type(operator: &str, left: &Type, right: &Type) -> (ty: Type)
    ensures
        ty@ == invalid_result(operator@, left@, right@),
{
    if order_operator(operator) || equality_operator(operator) || bool_operator(operator) {
        return named_builtin("Bool");
    }
    let add = same_text(operator, "+");
    if add || plain_arithmetic(operator) {
        if binary_operand_is_float(left) || binary_operand_is_float(right) {
            return named_builtin("Float");
        }
        if binary_operand_is_numeric(left) || binary_operand_is_numeric(right) {
            return named_builtin("Int");
        }
        if add && (binary_operand_is_text(left) || binary_operand_is_text(right)) {
            return named_builtin("Text");
        }
    }
    Type::Deferred
}

/// What is said of an operation that no rule types.
#[derive(Debug)]
pub enum InvalidOperation {
    /// The operands are not known well enough.
    Defer,
    /// The records can be compared after all.
    Comparable,
    /// The fallback of `??` has the wrong type; the type of the operation.
    WrongFallback(Type),
    /// The operator is not defined for the operands; the type of the operation.
    Undefined(Type),
}

/// What is said of an operation that no rule types. `records` says whether two
/// records can be compared, and `depends_on_comptime_param` that an operand's
/// type depends on a parameter without a value.
pub open spec fn is_invalid_as(
    operator: Seq<char>,
    left: SpecType,
    right: SpecType,
    records: EqualityCompatibility,
    depends_on_comptime_param: bool,
    verdict: InvalidOperation,
) -> bool {
    if !resolved(left) || has_open_row(left) || !resolved(right) || has_open_row(right) {
        verdict is Defer
    } else if is_equality_operator(operator) && left is Record && right is Record && (
    !(records is Mismatched) || depends_on_comptime_param) {
        verdict is Comparable
    } else if operator == "??"@ {
        verdict is WrongFallback && verdict->WrongFallback_0@ == invalid_result(
            operator,
            left,
            right,
        )
    } else {
        verdict is Undefined && verdict->Undefined_0@ == invalid_result(operator, left, right)
    }
}

/// What is said of an operation that no rule types.
pub fn invalid_binary(
    operator: &str,
    left: &Type,
    right: &Type,
    records: EqualityCompatibility,
    depends_on_comptime_param: bool,
) -> (verdict: InvalidOperation)
    ensures
        is_invalid_as(operator@, left@, right@, records, depends_on_comptime_param, verdict),
{
    if !is_resolved_operator_operand(left) || !is_resolved_operator_operand(right) {
        return InvalidOperation::Defer;
    }
    if equality_operator(operator) {
        if let (Type::Record(_), Type::Record(_)) = (left, right) {
            if records != EqualityCompatibility::Mismatched || depends_on_comptime_param {
                return InvalidOperation::Comparable;
            }
        }
    }
    let ty = invalid_binary_result_type(operator, left, right);
    if same_text(operator, "??") {
        InvalidOperation::WrongFallback(ty)
    } else {
        InvalidOperation::Undefined(ty)
    }
}

/// What is known once the rules for an operator were tried.
pub struct ClosingFacts<'a> {
    pub operator: &'a str,
    /// The operator is one that types can define as a method.
    pub method_operator: bool,
    /// What the rules gave.
    pub ruled: Option<Type>,
    /// The normal forms of the operands' types.
    pub left: &'a Type,
    pub right: &'a Type,
    /// Whether both operands are unknown and no annotation names either.
    pub both_unknown_and_unnamed: bool,
    /// The normal form of the left operand's type once the operation is typed.
    pub left_afterwards: &'a Type,
    /// The normal forms with unknown numbers settled.
    pub settled_left: &'a Type,
    pub settled_right: &'a Type,
    /// Whether two records can be compared.
    pub records: EqualityCompatibility,
    /// Whether the left or the right operand depends on a parameter without a value.
    pub left_depends_on_param: bool,
    pub right_depends_on_param: bool,
}

/// How a binary operation that the rules were tried on ends.
#[derive(Debug)]
pub enum BinaryEnd {
    /// The rules gave the type.
    Ruled(Type),
    /// The operands are not known yet.
    Pending(PendingOperation),
    /// No rule types the operation, and what the attempt found is forgotten.
    Invalid(InvalidOperation),
}

/// How a binary operation ends, and which checks follow: whether the fallback of `??`
/// is dead, and the divisor once more.
#[derive(Debug)]
pub struct BinaryOutcome {
    pub end: BinaryEnd,
    pub reports_dead_fallback: bool,
    pub checks_divisor: bool,
}

/// Whether an outcome is that of an operation that the rules were tried on. Records
/// that can be compared after all end the operation at once.
pub open spec fn is_closed(facts: &ClosingFacts<'_>, outcome: &BinaryOutcome) -> bool {
    let operator = facts.operator@;
    let waiting = pending(
        operator,
        facts.method_operator,
        facts.left@,
        facts.both_unknown_and_unnamed,
    );
    let goes_on = !(outcome.end is Invalid && outcome.end->Invalid_0 is Comparable);
    &&& match facts.ruled {
        Some(ty) => outcome.end is Ruled && outcome.end->Ruled_0@ == ty@,
        None => match waiting {
            Some(operation) => outcome.end == BinaryEnd::Pending(operation),
            None => outcome.end is Invalid && is_invalid_as(
                operator,
                facts.settled_left@,
                facts.settled_right@,
                facts.records,
                facts.left_depends_on_param || facts.right_depends_on_param,
                outcome.end->Invalid_0,
            ),
        },
    }
    &&& outcome.checks_divisor == goes_on
    &&& outcome.reports_dead_fallback == (goes_on && operator == "??"@ && fallback_is_dead(
        facts.left_afterwards@,
        facts.left_depends_on_param,
    ))
}

/// End a binary operation that the rules were tried on.
pub fn close_binary(facts: ClosingFacts<'_>) -> (outcome: BinaryOutcome)
    ensures
        is_closed(&facts, &outcome),
{
    let end = match facts.ruled {
        Some(ty) => BinaryEnd::Ruled(ty),
        None => match pending_operation(
            facts.operator,
            facts.method_operator,
            facts.left,
            facts.both_unknown_and_unnamed,
        ) {
            Some(operation) => BinaryEnd::Pending(operation),
            None => BinaryEnd::Invalid(
                invalid_binary(
                    facts.operator,
                    facts.settled_left,
                    facts.settled_right,
                    facts.records,
                    facts.left_depends_on_param || facts.right_depends_on_param,
                ),
            ),
        },
    };
    let goes_on = !matches!(end, BinaryEnd::Invalid(InvalidOperation::Comparable));
    let reports_dead_fallback = goes_on && same_text(facts.operator, "??")
        && coalesce_fallback_is_dead(facts.left_afterwards, facts.left_depends_on_param);
    BinaryOutcome { end, reports_dead_fallback, checks_divisor: goes_on }
}

/// The type of `??`: the payload of the left operand if the right fits it, and
/// otherwise the right operand's type if the payload fits that.
pub fn infer_null_coalesce_type(
    left: &Type,
    right: &Type,
    right_fits_payload: bool,
    payload_fits_right: bool,
) -> (ty: Option<Type>)
    ensures
        crate::rows::owned_type_view(ty) == (if right_fits_payload {
            Some(peeled_payload(left@))
        } else if payload_fits_right {
            Some(right@)
        } else {
            None
        }),
{
    if right_fits_payload {
        let (_, payload) = peel_empty_values(left);
        Some(payload.clone())
    } else if payload_fits_right {
        Some(right.clone())
    } else {
        None
    }
}

// ---------------------------------------------------------------------------
// Unary operations
// ---------------------------------------------------------------------------
/// What a unary operator makes of its operand.
pub open spec fn unary_rule(operator: Seq<char>, value: SpecType, numeric: bool) -> SpecRule {
    if operator == "-"@ {
        if is_numeric(value) || numeric {
            SpecRule::Accept(value)
        } else {
            SpecRule::Reject
        }
    } else if operator == "!"@ {
        if value == SpecType::Named("Bool"@) {
            SpecRule::Accept(value)
        } else if value is Meta {
            SpecRule::UnifyLeft {
                with: SpecType::Named("Bool"@),
                result: SpecType::Named("Bool"@),
            }
        } else {
            SpecRule::Reject
        }
    } else {
        SpecRule::Reject
    }
}

/// What a unary operator makes of its operand. `numeric` says that an unknown
/// operand is known to be a number.
pub fn infer_unary(operator: &str, value: &Type, numeric: bool) -> (rule: OperandRule)
    ensures
        rule@ == unary_rule(operator@, value@, numeric),
{
    if same_text(operator, "-") {
        if numeric_type_name(value).is_some() || numeric {
            OperandRule::Accept(value.clone())
        } else {
            OperandRule::Reject
        }
    } else if same_text(operator, "!") {
        if is_named(value, "Bool") {
            OperandRule::Accept(named_builtin("Bool"))
        } else if is_meta_type(value) {
            OperandRule::UnifyLeft { with: named_builtin("Bool"), result: named_builtin("Bool") }
        } else {
            OperandRule::Reject
        }
    } else {
        OperandRule::Reject
    }
}

/// The type of a unary operation that is not defined for its operand; none where
/// the operand is not known well enough to say so.
pub open spec fn invalid_unary_result(operator: Seq<char>, value: SpecType) -> Option<SpecType> {
    if !resolved(value) || has_open_row(value) {
        None
    } else if operator == "-"@ && is_float_operand(value) {
        Some(SpecType::Named("Float"@))
    } else if operator == "-"@ && is_numeric_operand(value) {
        Some(SpecType::Named("Int"@))
    } else {
        Some(SpecType::Deferred)
    }
}

/// The type of a unary operation that is not defined for its operand.
pub fn invalid_unary(operator: &str, value: &Type) -> (ty: Option<Type>)
    ensures
        crate::rows::owned_type_view(ty) == invalid_unary_result(operator@, value@),
{
    if !is_resolved_operator_operand(value) {
        return None;
    }
    let minus = same_text(operator, "-");
    if minus && binary_operand_is_float(value) {
        Some(named_builtin("Float"))
    } else if minus && binary_operand_is_numeric(value) {
        Some(named_builtin("Int"))
    } else {
        Some(Type::Deferred)
    }
}

// ---------------------------------------------------------------------------
// Laws
// ---------------------------------------------------------------------------
/// A divisor that its type accepts is not zero: no member of the type is.
pub proof fn accepted_divisors_are_not_zero(row: SpecRow, index: int)
    requires
        divisor_type_is_zero(SpecType::Variant(row)) == Some(false),
        0 <= index < row.entries.len(),
    ensures
        is_integer_entry(row.entries[index]),
        !is_zero_entry(row.entries[index]),
{
}

/// The rule for numbers gives the result that the builtin method has on the
/// promoted operands.
pub proof fn numeric_rule_follows_the_methods(
    operator: Seq<char>,
    left: SpecType,
    right: SpecType,
    numeric: bool,
)
    requires
        is_numeric(left),
        is_numeric(right),
    ensures
        numeric_rule(operator, left, right, numeric) == (match operator_signature(
            left,
            operator,
            right,
        ) {
            Some(signature) => SpecRule::Accept(signature.result),
            None => SpecRule::Reject,
        }),
{
}

} // verus!
