//! Expressions, and what can be read off them without types.
use crate::operators::{integer_literal_text_is_zero, is_zero_text};
use crate::span::Span;
use crate::text::{begins_uppercase, joined, same_text, starts_uppercase};
use crate::type_ops::{float_text, is_float_literal_text};
use crate::types::Literal;
use vstd::prelude::*;

verus! {

/// An expression, a pattern or a type annotation.
#[derive(Debug)]
pub struct Expr {
    pub kind: ExprKind,
    pub span: Span,
}

/// How an error of a propagated result is handled.
#[derive(Debug, Clone, Copy, PartialEq, Eq, Structural)]
pub enum PropagationMode {
    ReturnError,
    Panic,
}

#[derive(Debug)]
#[allow(inconsistent_fields)]
pub enum ExprKind {
    Missing,
    Name(String),
    ComptimeName(String),
    Tag(String),
    Literal(Literal),
    Null,
    Undefined,
    Group(Box<Expr>),
    Tuple(Vec<Expr>),
    Array(Vec<RecordEntry>),
    Record(Vec<RecordEntry>),
    SetLiteral(Vec<RecordEntry>),
    Call { callee: Box<Expr>, args: Vec<Expr> },
    Index { callee: Box<Expr>, args: Vec<Expr> },
    FieldAccess { receiver: Box<Expr>, field: String, field_span: Span, null_safe: bool },
    Binary { left: Box<Expr>, operator: String, operator_span: Span, right: Box<Expr> },
    Unary { operator: String, operator_span: Span, value: Box<Expr> },
    Arrow { params: Vec<Expr>, result: Box<Expr> },
    Optional(Box<Expr>),
    Nullable(Box<Expr>),
    NonNull(Box<Expr>),
    PrimitiveFamily { base: Box<Expr>, entries: Vec<RecordEntry> },
    Lambda {
        params: Vec<Param>,
        return_annotation: Option<Box<Expr>>,
        requirements: Vec<Expr>,
        body: Box<Expr>,
    },
    Match { subject: Box<Expr>, arms: Vec<MatchArm> },
    Block(Vec<Item>),
    Interpolation(Vec<InterpolationSegment>),
    Propagate { value: Box<Expr>, operator_span: Span, mode: PropagationMode },
}

/// A parameter of a function.
#[derive(Debug)]
pub struct Param {
    pub name: String,
    pub name_span: Span,
    pub comptime: bool,
    pub annotation: Option<Box<Expr>>,
    pub default: Option<Box<Expr>>,
}

/// An arm of a match.
#[derive(Debug)]
pub struct MatchArm {
    pub pattern: Box<Expr>,
    pub guards: Vec<Expr>,
    pub body: Box<Expr>,
}

/// A statement of a block.
#[derive(Debug)]
pub enum Item {
    Expr(Box<Expr>),
    Binding { name: String, value: Box<Expr> },
    PatternBinding { pattern: Box<Expr>, value: Box<Expr> },
    Signature { name: String, annotation: Box<Expr> },
    SpreadBinding { value: Box<Expr> },
}

/// A part of an interpolated text.
#[derive(Debug)]
pub enum InterpolationSegment {
    Text(String),
    Expr(Box<Expr>),
}

/// An entry of a record, a set or an array.
#[derive(Debug)]
pub enum RecordEntry {
    Field { name: String, name_span: Span, value: Box<Expr>, overwrite: bool, span: Span },
    FieldComputed { key: Box<Expr>, value: Box<Expr>, span: Span },
    FieldDefault {
        name: String,
        name_span: Span,
        annotation: Box<Expr>,
        default: Box<Expr>,
        span: Span,
    },
    Method { name: String, name_span: Span, value: Box<Expr>, span: Span },
    Shorthand { name: String, name_span: Span, span: Span },
    Spread { value: Box<Expr>, overwrite: bool, span: Span },
    Delete { name: String, span: Span },
    DeleteComputed { key: Box<Expr>, span: Span },
    Rename { from: String, from_span: Span, to: String, span: Span },
    Iteration {
        source: Box<Expr>,
        binder: String,
        guard: Option<Box<Expr>>,
        body: Vec<RecordEntry>,
        span: Span,
    },
    Open { span: Span },
    Element(Box<Expr>),
}

/// The expressions behind references.
pub open spec fn exprs_view(exprs: Seq<&Expr>) -> Seq<Expr> {
    Seq::new(exprs.len(), |i: int| *exprs[i])
}

// ---------------------------------------------------------------------------
// Groups and names
// ---------------------------------------------------------------------------
/// The expression inside all groups.
pub open spec fn ungrouped(expr: Expr) -> Expr
    decreases expr,
{
    match expr.kind {
        ExprKind::Group(inner) => ungrouped(*inner),
        _ => expr,
    }
}

/// The expression inside all groups.
pub fn ungroup_expr(expr: &Expr) -> (inner: &Expr)
    ensures
        *inner == ungrouped(*expr),
    decreases expr,
{
    match &expr.kind {
        ExprKind::Group(inner) => ungroup_expr(inner),
        _ => expr,
    }
}

fn take_ungrouped(expr: Expr) -> (inner: Expr)
    ensures
        inner == ungrouped(expr),
    decreases expr,
{
    match expr {
        Expr { kind: ExprKind::Group(inner), span: _ } => take_ungrouped(*inner),
        _ => expr,
    }
}

/// The text behind a reference, if there is one.
pub open spec fn text_view(text: Option<&str>) -> Option<Seq<char>> {
    match text {
        Some(text) => Some(text@),
        None => None,
    }
}

/// The name that an expression is.
pub open spec fn name_of(expr: Expr) -> Option<Seq<char>> {
    match ungrouped(expr).kind {
        ExprKind::Name(name) => Some(name@),
        _ => None,
    }
}

/// The name that an expression is.
pub fn expr_name(expr: &Expr) -> (name: Option<&str>)
    ensures
        text_view(name) == name_of(*expr),
{
    match &ungroup_expr(expr).kind {
        ExprKind::Name(name) => Some(name.as_str()),
        _ => None,
    }
}

/// The name of what is called, upper or lower case.
pub open spec fn callee_name(callee: Expr) -> Option<Seq<char>> {
    match ungrouped(callee).kind {
        ExprKind::Name(name) => Some(name@),
        ExprKind::ComptimeName(name) => Some(name@),
        _ => None,
    }
}

/// The name of what is called.
pub fn call_callee_name(callee: &Expr) -> (name: Option<&str>)
    ensures
        text_view(name) == callee_name(*callee),
{
    match &ungroup_expr(callee).kind {
        ExprKind::Name(name) => Some(name.as_str()),
        ExprKind::ComptimeName(name) => Some(name.as_str()),
        _ => None,
    }
}

/// Whether an indexed type is written as an element type and brackets behind it:
/// its constructor then comes after its argument.
pub open spec fn is_sugar(callee: Expr, args: Seq<Expr>) -> bool {
    ungrouped(callee).kind is ComptimeName && (ungrouped(callee).kind->ComptimeName_0@ == "Array"@
        || ungrouped(callee).kind->ComptimeName_0@ == "Set"@) && args.len() == 1
        && callee.span.start >= args[0].span.end
}

/// Whether an indexed type is written as an element type and brackets behind it.
pub fn is_collection_type_sugar(callee: &Expr, args: &Vec<Expr>) -> (sugar: bool)
    ensures
        sugar == is_sugar(*callee, args@),
{
    match &ungroup_expr(callee).kind {
        ExprKind::ComptimeName(name) => (same_text(name.as_str(), "Array") || same_text(
            name.as_str(),
            "Set",
        )) && args.len() == 1 && callee.span.start >= args[0].span.end,
        _ => false,
    }
}

/// The span of an entry.
pub open spec fn entry_span(member: RecordEntry) -> Span {
    match member {
        RecordEntry::Field { span, .. } => span,
        RecordEntry::FieldComputed { span, .. } => span,
        RecordEntry::FieldDefault { span, .. } => span,
        RecordEntry::Method { span, .. } => span,
        RecordEntry::Shorthand { span, .. } => span,
        RecordEntry::Spread { span, .. } => span,
        RecordEntry::Delete { span, .. } => span,
        RecordEntry::DeleteComputed { span, .. } => span,
        RecordEntry::Rename { span, .. } => span,
        RecordEntry::Iteration { span, .. } => span,
        RecordEntry::Open { span } => span,
        RecordEntry::Element(expr) => expr.span,
    }
}

/// The span of a member of a method attachment.
pub fn builtin_attachment_member_span(member: &RecordEntry) -> (span: Span)
    ensures
        span == entry_span(*member),
{
    match member {
        RecordEntry::Field { span, .. } => *span,
        RecordEntry::FieldComputed { span, .. } => *span,
        RecordEntry::FieldDefault { span, .. } => *span,
        RecordEntry::Method { span, .. } => *span,
        RecordEntry::Shorthand { span, .. } => *span,
        RecordEntry::Spread { span, .. } => *span,
        RecordEntry::Delete { span, .. } => *span,
        RecordEntry::DeleteComputed { span, .. } => *span,
        RecordEntry::Rename { span, .. } => *span,
        RecordEntry::Iteration { span, .. } => *span,
        RecordEntry::Open { span } => *span,
        RecordEntry::Element(expr) => expr.span,
    }
}

// ---------------------------------------------------------------------------
// Calls
// ---------------------------------------------------------------------------
/// Whether a call turns a value into a result.
pub fn is_to_result_call(callee: &Expr) -> (is_call: bool)
    ensures
        is_call == (ungrouped(*callee).kind is FieldAccess
            && ungrouped(*callee).kind->FieldAccess_field@ == "toResult"@),
{
    match &ungroup_expr(callee).kind {
        ExprKind::FieldAccess { field, .. } => same_text(field.as_str(), "toResult"),
        _ => false,
    }
}

/// The call that a piped value stands for: the value becomes the first argument
/// of the call behind the pipe, or the only argument of what stands there.
pub open spec fn is_piped_call(value: Expr, target: Expr, call: Expr) -> bool {
    &&& call.span == value.span.merged(target.span)
    &&& call.kind is Call
    &&& match ungrouped(target).kind {
        ExprKind::Call { callee, args } => call.kind->Call_callee == callee
            && call.kind->Call_args@ == seq![value] + args@,
        _ => *call.kind->Call_callee == target && call.kind->Call_args@ == seq![value],
    }
}

/// The call that a piped value stands for.
pub fn pipe_call_expr(value: Expr, target: Expr) -> (call: Expr)
    ensures
        is_piped_call(value, target, call),
{
    let span = value.span.merge(target.span);
    let is_call = matches!(&ungroup_expr(&target).kind, ExprKind::Call { .. });
    let mut args: Vec<Expr> = Vec::new();
    args.push(value);
    if !is_call {
        return Expr { kind: ExprKind::Call { callee: Box::new(target), args }, span };
    }
    match take_ungrouped(target) {
        Expr { kind: ExprKind::Call { callee, args: mut trailing }, span: _ } => {
            args.append(&mut trailing);
            Expr { kind: ExprKind::Call { callee, args }, span }
        },
        other => Expr { kind: ExprKind::Call { callee: Box::new(other), args }, span },
    }
}

/// Whether a call imports a module.
pub open spec fn is_import(expr: Expr) -> bool {
    match ungrouped(expr).kind {
        ExprKind::Call { callee, .. } => name_of(*callee) == Some("import"@),
        _ => false,
    }
}

/// Whether an expression is an import with any specifier, the shape whose value
/// is the record of a module and never a type.
pub fn is_import_call(expr: &Expr) -> (import: bool)
    ensures
        import == is_import(*expr),
{
    match &ungroup_expr(expr).kind {
        ExprKind::Call { callee, .. } => match expr_name(callee) {
            Some(name) => same_text(name, "import"),
            None => false,
        },
        _ => false,
    }
}

/// The tag of a result that is constructed.
pub open spec fn result_tag(callee: Expr) -> Option<Seq<char>> {
    match ungrouped(callee).kind {
        ExprKind::Tag(tag) => if tag@ == "Ok"@ || tag@ == "Err"@ {
            Some(tag@)
        } else {
            None
        },
        _ => None,
    }
}

/// The tag of a result that is constructed.
pub fn result_constructor_tag(callee: &Expr) -> (tag: Option<&str>)
    ensures
        text_view(tag) == result_tag(*callee),
{
    match &ungroup_expr(callee).kind {
        ExprKind::Tag(tag) => if same_text(tag.as_str(), "Ok") || same_text(tag.as_str(), "Err") {
            Some(tag.as_str())
        } else {
            None
        },
        _ => None,
    }
}

// ---------------------------------------------------------------------------
// Values
// ---------------------------------------------------------------------------
/// Whether a value is written as an integer literal, with signs before it, and
/// then whether it is zero.
pub open spec fn literal_is_zero(expr: Expr) -> Option<bool>
    decreases expr,
{
    match expr.kind {
        ExprKind::Group(inner) => literal_is_zero(*inner),
        ExprKind::Literal(Literal::Number(number)) => if float_text(number@) {
            None
        } else {
            Some(is_zero_text(number@))
        },
        ExprKind::Unary { operator, value, .. } => if operator@ == "-"@ {
            literal_is_zero(*value)
        } else {
            None
        },
        _ => None,
    }
}

/// Whether an integer literal is zero.
pub fn static_integer_literal_is_zero(expr: &Expr) -> (zero: Option<bool>)
    ensures
        zero == literal_is_zero(*expr),
    decreases expr,
{
    match &expr.kind {
        ExprKind::Group(inner) => static_integer_literal_is_zero(inner),
        ExprKind::Literal(Literal::Number(number)) => if is_float_literal_text(number.as_str()) {
            None
        } else {
            Some(integer_literal_text_is_zero(number.as_str()))
        },
        ExprKind::Unary { operator, value, .. } => if same_text(operator.as_str(), "-") {
            static_integer_literal_is_zero(value)
        } else {
            None
        },
        _ => None,
    }
}

/// Whether a value is checked against the payload of a type that admits empty
/// values.
pub fn peels_optional_or_nullable_expected(value: &Expr) -> (peels: bool)
    ensures
        peels == (value.kind is Literal || value.kind is Tuple || value.kind is Record
            || value.kind is Tag || value.kind is Array || value.kind is SetLiteral),
{
    matches!(value.kind, ExprKind::Literal(_)) || matches!(value.kind, ExprKind::Tuple(_))
        || matches!(value.kind, ExprKind::Record(_)) || matches!(value.kind, ExprKind::Tag(_))
        || matches!(value.kind, ExprKind::Array(_)) || matches!(value.kind, ExprKind::SetLiteral(_))
}

/// Whether the right side of a binding must be evaluated at compile time: it
/// computes, and is not a type application.
pub open spec fn needs_evaluation(value: Expr) -> bool {
    match ungrouped(value).kind {
        ExprKind::Call { callee, .. } => !(callee_name(*callee) is Some && starts_uppercase(
            callee_name(*callee)->0,
        )),
        ExprKind::Binary { .. } => true,
        ExprKind::Unary { .. } => true,
        ExprKind::FieldAccess { .. } => true,
        ExprKind::Propagate { .. } => true,
        ExprKind::Match { .. } => true,
        ExprKind::Block(_) => true,
        ExprKind::Lambda { .. } => true,
        ExprKind::Interpolation(_) => true,
        _ => false,
    }
}

/// Whether the right side of a binding must be evaluated at compile time.
pub fn comptime_rhs_needs_evaluation(value: &Expr) -> (needs: bool)
    ensures
        needs == needs_evaluation(*value),
{
    match &ungroup_expr(value).kind {
        ExprKind::Call { callee, .. } => match call_callee_name(callee) {
            Some(name) => !begins_uppercase(name),
            None => true,
        },
        ExprKind::Binary { .. } => true,
        ExprKind::Unary { .. } => true,
        ExprKind::FieldAccess { .. } => true,
        ExprKind::Propagate { .. } => true,
        ExprKind::Match { .. } => true,
        ExprKind::Block(_) => true,
        ExprKind::Lambda { .. } => true,
        ExprKind::Interpolation(_) => true,
        _ => false,
    }
}

/// The expression whose value a block has.
pub open spec fn final_value(expr: Expr) -> Option<Expr>
    decreases expr,
{
    match expr.kind {
        ExprKind::Group(inner) => final_value(*inner),
        ExprKind::Block(items) => if items@.len() == 0 {
            None
        } else {
            match items@[items@.len() - 1] {
                Item::Expr(last) => final_value(*last),
                _ => None,
            }
        },
        _ => Some(expr),
    }
}

/// The expression whose value a block has.
pub fn final_value_expr(expr: &Expr) -> (value: Option<&Expr>)
    ensures
        match value {
            Some(value) => final_value(*expr) == Some(*value),
            None => final_value(*expr) is None,
        },
    decreases expr,
{
    match &expr.kind {
        ExprKind::Group(inner) => final_value_expr(inner),
        ExprKind::Block(items) => if items.len() == 0 {
            None
        } else {
            match &items[items.len() - 1] {
                Item::Expr(last) => final_value_expr(last),
                _ => None,
            }
        },
        _ => Some(expr),
    }
}

/// Where the value of an expression comes from.
pub fn final_result_span(expr: &Expr) -> (span: Span)
    ensures
        span == (match final_value(*expr) {
            Some(value) => value.span,
            None => expr.span,
        }),
{
    match final_value_expr(expr) {
        Some(value) => value.span,
        None => expr.span,
    }
}

/// A field of a record value.
#[derive(Debug)]
pub struct ValueRecordField<'a> {
    pub name: &'a str,
    pub name_span: Span,
    pub value: Option<&'a Expr>,
}

/// Whether an entry adds a field under a written name.
pub open spec fn adds_field(entry: RecordEntry) -> bool {
    match entry {
        RecordEntry::Field { overwrite, .. } => !overwrite,
        RecordEntry::Shorthand { .. } => true,
        _ => false,
    }
}

/// The name of the field that an entry adds.
pub open spec fn added_name(entry: RecordEntry) -> Seq<char> {
    match entry {
        RecordEntry::Field { name, .. } => name@,
        RecordEntry::Shorthand { name, .. } => name@,
        _ => Seq::empty(),
    }
}

/// Whether a record lists its fields, each once.
pub open spec fn lists_fields(entries: Seq<RecordEntry>) -> bool {
    &&& forall|i: int| 0 <= i < entries.len() ==> adds_field(#[trigger] entries[i])
    &&& forall|i: int, j: int|
        0 <= i < j < entries.len() ==> added_name(#[trigger] entries[i]) != added_name(
            #[trigger] entries[j],
        )
}

/// Whether a field is the one that an entry adds.
pub open spec fn is_added_field(entry: RecordEntry, field: ValueRecordField<'_>) -> bool {
    match entry {
        RecordEntry::Field { name, name_span, value, .. } => field.name@ == name@
            && field.name_span == name_span && field.value == Some(&*value),
        RecordEntry::Shorthand { name, name_span, .. } => field.name@ == name@ && field.name_span
            == name_span && field.value is None,
        _ => false,
    }
}

fn names_field(fields: &Vec<ValueRecordField<'_>>, name: &str) -> (found: bool)
    ensures
        found == exists|i: int| 0 <= i < fields@.len() && (#[trigger] fields@[i]).name@ == name@,
{
    let mut index: usize = 0;
    while index < fields.len()
        invariant
            index <= fields.len(),
            forall|i: int| 0 <= i < index ==> (#[trigger] fields@[i]).name@ != name@,
        decreases fields.len() - index,
    {
        if same_text(fields[index].name, name) {
            return true;
        }
        index += 1;
    }
    false
}

/// The fields of a record that lists them, each once.
pub fn literal_record_value<'a>(entries: &'a Vec<RecordEntry>) -> (fields: Option<
    Vec<ValueRecordField<'a>>,
>)
    ensures
        match fields {
            Some(fields) => lists_fields(entries@) && fields@.len() == entries@.len() && forall|
                i: int,
            |
                0 <= i < fields@.len() ==> is_added_field(entries@[i], #[trigger] fields@[i]),
            None => !lists_fields(entries@),
        },
{
    let mut fields: Vec<ValueRecordField<'a>> = Vec::new();
    let mut index: usize = 0;
    while index < entries.len()
        invariant
            index <= entries.len(),
            fields@.len() == index,
            forall|i: int| 0 <= i < index ==> adds_field(#[trigger] entries@[i]),
            forall|i: int|
                0 <= i < index ==> is_added_field(entries@[i], #[trigger] fields@[i])
                    && fields@[i].name@ == added_name(entries@[i]),
            forall|i: int, j: int|
                0 <= i < j < index ==> added_name(#[trigger] entries@[i]) != added_name(
                    #[trigger] entries@[j],
                ),
        decreases entries.len() - index,
    {
        let field = match &entries[index] {
            RecordEntry::Field { name, name_span, value, overwrite, .. } => {
                if *overwrite {
                    assert(!adds_field(entries@[index as int]));
                    return None;
                }
                ValueRecordField { name: name.as_str(), name_span: *name_span, value: Some(value) }
            },
            RecordEntry::Shorthand { name, name_span, .. } => ValueRecordField {
                name: name.as_str(),
                name_span: *name_span,
                value: None,
            },
            _ => {
                assert(!adds_field(entries@[index as int]));
                return None;
            },
        };
        if names_field(&fields, field.name) {
            proof {
                let i = choose|i: int|
                    0 <= i < fields@.len() && (#[trigger] fields@[i]).name@ == field.name@;
                assert(added_name(entries@[i]) == added_name(entries@[index as int]));
            }
            return None;
        }
        assert forall|i: int| 0 <= i < index implies added_name(#[trigger] entries@[i])
            != added_name(entries@[index as int]) by {
            assert(fields@[i].name@ != field.name@);
        }
        fields.push(field);
        index += 1;
    }
    Some(fields)
}

/// The elements of a set that lists them.
pub fn literal_set_elements<'a>(entries: &'a Vec<RecordEntry>) -> (elements: Option<Vec<&'a Expr>>)
    ensures
        match elements {
            Some(elements) => elements@.len() == entries@.len() && forall|i: int|
                0 <= i < entries@.len() ==> #[trigger] entries@[i] is Element
                    && *entries@[i]->Element_0 == *elements@[i],
            None => exists|i: int|
                0 <= i < entries@.len() && !(#[trigger] entries@[i] is Element),
        },
{
    let mut elements: Vec<&'a Expr> = Vec::new();
    let mut index: usize = 0;
    while index < entries.len()
        invariant
            index <= entries.len(),
            elements@.len() == index,
            forall|i: int|
                0 <= i < index ==> #[trigger] entries@[i] is Element && *entries@[i]->Element_0
                    == *elements@[i],
        decreases entries.len() - index,
    {
        match &entries[index] {
            RecordEntry::Element(value) => {
                elements.push(value);
            },
            _ => {
                assert(!(entries@[index as int] is Element));
                return None;
            },
        }
        index += 1;
    }
    Some(elements)
}

/// Whether all entries of a set are elements.
pub open spec fn lists_elements(entries: Seq<RecordEntry>) -> bool {
    forall|i: int| 0 <= i < entries.len() ==> #[trigger] entries[i] is Element
}

/// A part of a union of sets: a set, or an element of one.
#[derive(Debug, Clone, Copy)]
pub enum SetUnionPart<'a> {
    Operand(&'a Expr),
    Element(&'a Expr),
}

/// A part of a union of sets.
pub ghost enum SpecUnionPart {
    Operand(Expr),
    Element(Expr),
}

pub open spec fn parts_view(parts: Seq<SetUnionPart<'_>>) -> Seq<SpecUnionPart> {
    Seq::new(
        parts.len(),
        |i: int|
            match parts[i] {
                SetUnionPart::Operand(expr) => SpecUnionPart::Operand(*expr),
                SetUnionPart::Element(expr) => SpecUnionPart::Element(*expr),
            },
    )
}

impl<'a> SetUnionPart<'a> {
    /// The expression of the part.
    pub fn expr(self) -> (expr: &'a Expr)
        ensures
            match self {
                SetUnionPart::Operand(part) => expr == part,
                SetUnionPart::Element(part) => expr == part,
            },
    {
        match self {
            SetUnionPart::Operand(expr) => expr,
            SetUnionPart::Element(expr) => expr,
        }
    }

    /// Whether the part stands for a set of one element.
    pub fn promotes_singleton(self) -> (promotes: bool)
        ensures
            promotes == (self is Element),
    {
        matches!(self, SetUnionPart::Element(_))
    }
}

/// Whether an expression is a union.
pub open spec fn is_union(expr: Expr) -> bool
    decreases expr,
{
    match expr.kind {
        ExprKind::Group(inner) => is_union(*inner),
        ExprKind::Binary { operator, .. } => operator@ == "|"@,
        _ => false,
    }
}

/// Whether an expression is a union.
pub fn is_union_expr(expr: &Expr) -> (union: bool)
    ensures
        union == is_union(*expr),
    decreases expr,
{
    match &expr.kind {
        ExprKind::Group(inner) => is_union_expr(inner),
        ExprKind::Binary { operator, .. } => same_text(operator.as_str(), "|"),
        _ => false,
    }
}

/// The elements of a set as parts of a union.
pub open spec fn element_parts(entries: Seq<RecordEntry>) -> Seq<SpecUnionPart> {
    entries.map_values(|entry: RecordEntry| SpecUnionPart::Element(*entry->Element_0))
}

/// The set that an expression is written as.
pub open spec fn written_set(expr: Expr) -> Option<Seq<RecordEntry>> {
    match ungrouped(expr).kind {
        ExprKind::SetLiteral(entries) => Some(entries@),
        _ => None,
    }
}

/// The parts of a union of sets. There are none where a set does not list its
/// elements.
pub open spec fn union_parts(expr: Expr) -> Option<Seq<SpecUnionPart>>
    decreases expr,
{
    if is_union(expr) {
        match expr.kind {
            ExprKind::Group(inner) => union_parts(*inner),
            ExprKind::Binary { left, right, .. } => match (
                union_parts(*left),
                union_parts(*right),
            ) {
                (Some(before), Some(after)) => Some(before + after),
                _ => None,
            },
            _ => None,
        }
    } else {
        match written_set(expr) {
            Some(entries) => if lists_elements(entries) {
                Some(element_parts(entries))
            } else {
                None
            },
            None => Some(seq![SpecUnionPart::Operand(expr)]),
        }
    }
}

/// The parts of a union of sets.
pub fn value_set_union_parts<'a>(expr: &'a Expr) -> (parts: Option<Vec<SetUnionPart<'a>>>)
    ensures
        match parts {
            Some(parts) => union_parts(*expr) == Some(parts_view(parts@)),
            None => union_parts(*expr) is None,
        },
    decreases expr,
{
    if is_union_expr(expr) {
        match &expr.kind {
            ExprKind::Group(inner) => value_set_union_parts(inner),
            ExprKind::Binary { left, right, .. } => {
                let mut before = match value_set_union_parts(left) {
                    Some(parts) => parts,
                    None => {
                        return None;
                    },
                };
                let mut after = match value_set_union_parts(right) {
                    Some(parts) => parts,
                    None => {
                        return None;
                    },
                };
                let ghost first = parts_view(before@);
                let ghost second = parts_view(after@);
                before.append(&mut after);
                assert(parts_view(before@) =~= first + second);
                Some(before)
            },
            _ => None,
        }
    } else {
        let mut parts: Vec<SetUnionPart<'a>> = Vec::new();
        match &ungroup_expr(expr).kind {
            ExprKind::SetLiteral(entries) => match literal_set_elements(entries) {
                Some(elements) => {
                    let mut index: usize = 0;
                    while index < elements.len()
                        invariant
                            index <= elements.len(),
                            elements@.len() == entries@.len(),
                            forall|i: int|
                                0 <= i < entries@.len() ==> #[trigger] entries@[i] is Element
                                    && *entries@[i]->Element_0 == *elements@[i],
                            parts_view(parts@) == element_parts(entries@).take(index as int),
                        decreases elements.len() - index,
                    {
                        let ghost earlier = parts_view(parts@);
                        parts.push(SetUnionPart::Element(elements[index]));
                        assert(entries@[index as int] is Element);
                        assert(parts_view(parts@) =~= earlier.push(
                            SpecUnionPart::Element(*entries@[index as int]->Element_0),
                        ));
                        assert(parts_view(parts@) =~= element_parts(entries@).take(index + 1));
                        index += 1;
                    }
                    assert(element_parts(entries@).take(index as int) =~= element_parts(entries@));
                    Some(parts)
                },
                None => None,
            },
            _ => {
                parts.push(SetUnionPart::Operand(expr));
                assert(parts_view(parts@) =~= seq![SpecUnionPart::Operand(*expr)]);
                Some(parts)
            },
        }
    }
}

// ---------------------------------------------------------------------------
// Annotations of unions
// ---------------------------------------------------------------------------
/// An entry of a union annotation: one of a set, or a part of the union.
#[derive(Debug, Clone, Copy)]
pub enum UnionEntry<'a> {
    Listed(&'a RecordEntry),
    Part(&'a Expr),
}

/// An entry of a union annotation.
pub ghost enum SpecUnionEntry {
    Listed(RecordEntry),
    Part(Expr),
}

pub open spec fn union_entries_view(entries: Seq<UnionEntry<'_>>) -> Seq<SpecUnionEntry> {
    Seq::new(
        entries.len(),
        |i: int|
            match entries[i] {
                UnionEntry::Listed(entry) => SpecUnionEntry::Listed(*entry),
                UnionEntry::Part(expr) => SpecUnionEntry::Part(*expr),
            },
    )
}

/// The entries of a set.
pub open spec fn listed_entries(entries: Seq<RecordEntry>) -> Seq<SpecUnionEntry> {
    entries.map_values(|entry: RecordEntry| SpecUnionEntry::Listed(entry))
}

/// The entries of a union annotation, from left to right.
pub open spec fn union_entries(expr: Expr) -> Seq<SpecUnionEntry>
    decreases expr,
{
    if is_union(expr) {
        match expr.kind {
            ExprKind::Group(inner) => union_entries(*inner),
            ExprKind::Binary { left, right, .. } => union_entries(*left) + union_entries(*right),
            _ => Seq::empty(),
        }
    } else {
        match written_set(expr) {
            Some(entries) => listed_entries(entries),
            None => seq![SpecUnionEntry::Part(expr)],
        }
    }
}

/// The entries of a union annotation, from left to right.
pub fn union_annotation_entries<'a>(expr: &'a Expr) -> (entries: Vec<UnionEntry<'a>>)
    ensures
        union_entries_view(entries@) == union_entries(*expr),
    decreases expr,
{
    let mut entries: Vec<UnionEntry<'a>> = Vec::new();
    if is_union_expr(expr) {
        match &expr.kind {
            ExprKind::Group(inner) => {
                return union_annotation_entries(inner);
            },
            ExprKind::Binary { left, right, .. } => {
                let mut before = union_annotation_entries(left);
                let mut after = union_annotation_entries(right);
                let ghost first = union_entries_view(before@);
                let ghost second = union_entries_view(after@);
                before.append(&mut after);
                assert(union_entries_view(before@) =~= first + second);
                return before;
            },
            _ => {
                assert(union_entries_view(entries@) =~= Seq::empty());
                return entries;
            },
        }
    }
    match &ungroup_expr(expr).kind {
        ExprKind::SetLiteral(listed) => {
            let mut index: usize = 0;
            while index < listed.len()
                invariant
                    index <= listed.len(),
                    union_entries_view(entries@) == listed_entries(listed@).take(index as int),
                decreases listed.len() - index,
            {
                let ghost earlier = union_entries_view(entries@);
                entries.push(UnionEntry::Listed(&listed[index]));
                assert(union_entries_view(entries@) =~= earlier.push(
                    SpecUnionEntry::Listed(listed@[index as int]),
                ));
                assert(union_entries_view(entries@) =~= listed_entries(listed@).take(index + 1));
                index += 1;
            }
            assert(listed_entries(listed@).take(index as int) =~= listed_entries(listed@));
        },
        _ => {
            entries.push(UnionEntry::Part(expr));
            assert(union_entries_view(entries@) =~= seq![SpecUnionEntry::Part(*expr)]);
        },
    }
    entries
}

// ---------------------------------------------------------------------------
// Descriptions
// ---------------------------------------------------------------------------
/// How an index is written in a message.
pub open spec fn index_text(expr: Expr) -> Option<Seq<char>> {
    match ungrouped(expr).kind {
        ExprKind::Literal(Literal::Number(number)) => Some(number@),
        ExprKind::Literal(Literal::String(text)) => Some("\""@ + text@ + "\""@),
        ExprKind::Name(name) => Some(name@),
        ExprKind::ComptimeName(name) => Some(name@),
        _ => None,
    }
}

/// The texts of the first indices, if all can be written.
pub open spec fn index_texts(args: Seq<Expr>, count: nat) -> Option<Seq<Seq<char>>>
    decreases count,
{
    if count == 0 {
        Some(Seq::empty())
    } else {
        match (index_texts(args, (count - 1) as nat), index_text(args[count - 1])) {
            (Some(texts), Some(text)) => Some(texts.push(text)),
            _ => None,
        }
    }
}

/// How a receiver is written in a message. Shapes that are not worth naming have
/// no text.
pub open spec fn receiver_text(expr: Expr) -> Option<Seq<char>>
    decreases expr,
{
    match expr.kind {
        ExprKind::Group(inner) => receiver_text(*inner),
        ExprKind::Name(name) => Some(name@),
        ExprKind::ComptimeName(name) => Some(name@),
        ExprKind::FieldAccess { receiver, field, null_safe, .. } => match receiver_text(
            *receiver,
        ) {
            Some(text) => Some(
                text + (if null_safe {
                    "?."@
                } else {
                    "."@
                }) + field@,
            ),
            None => None,
        },
        ExprKind::Index { callee, args } => match (
            receiver_text(*callee),
            index_texts(args@, args@.len()),
        ) {
            (Some(text), Some(texts)) => Some(text + "["@ + joined(texts, ", "@) + "]"@),
            _ => None,
        },
        _ => None,
    }
}

pub open spec fn string_view(text: Option<String>) -> Option<Seq<char>> {
    match text {
        Some(text) => Some(text@),
        None => None,
    }
}

/// How an index is written in a message.
pub fn describe_index_arg(expr: &Expr) -> (text: Option<String>)
    ensures
        string_view(text) == index_text(*expr),
{
    match &ungroup_expr(expr).kind {
        ExprKind::Literal(Literal::Number(number)) => Some(number.clone()),
        ExprKind::Literal(Literal::String(text)) => Some(
            crate::text::concat3("\"", text.as_str(), "\""),
        ),
        ExprKind::Name(name) => Some(name.clone()),
        ExprKind::ComptimeName(name) => Some(name.clone()),
        _ => None,
    }
}

/// How a receiver is written in a message.
pub fn describe_receiver_expr(expr: &Expr) -> (text: Option<String>)
    ensures
        string_view(text) == receiver_text(*expr),
    decreases expr,
{
    match &expr.kind {
        ExprKind::Group(inner) => describe_receiver_expr(inner),
        ExprKind::Name(name) => Some(name.clone()),
        ExprKind::ComptimeName(name) => Some(name.clone()),
        ExprKind::FieldAccess { receiver, field, null_safe, .. } => {
            let operator = if *null_safe {
                "?."
            } else {
                "."
            };
            match describe_receiver_expr(receiver) {
                Some(text) => Some(
                    crate::text::concat3(text.as_str(), operator, field.as_str()),
                ),
                None => None,
            }
        },
        ExprKind::Index { callee, args } => {
            let text = match describe_receiver_expr(callee) {
                Some(text) => text,
                None => {
                    return None;
                },
            };
            let mut texts: Vec<String> = Vec::new();
            let mut index: usize = 0;
            assert(crate::text::texts_view(texts@) =~= Seq::empty());
            while index < args.len()
                invariant
                    index <= args.len(),
                    *expr == (Expr {
                        kind: ExprKind::Index { callee: *callee, args: *args },
                        span: expr.span,
                    }),
                    index_texts(args@, index as nat) == Some(
                        crate::text::texts_view(texts@),
                    ),
                decreases args.len() - index,
            {
                match describe_index_arg(&args[index]) {
                    Some(part) => {
                        let ghost earlier = crate::text::texts_view(texts@);
                        texts.push(part);
                        assert(crate::text::texts_view(texts@) =~= earlier.push(part@));
                    },
                    None => {
                        proof {
                            missing_index(args@, (index + 1) as nat, args@.len());
                        }
                        return None;
                    },
                }
                index += 1;
            }
            let inside = crate::text::join(&texts, ", ");
            let mut described = crate::text::concat3(text.as_str(), "[", inside.as_str());
            described.append("]");
            Some(described)
        },
        _ => None,
    }
}

proof fn missing_index(args: Seq<Expr>, few: nat, many: nat)
    requires
        few <= many,
        index_texts(args, few) is None,
    ensures
        index_texts(args, many) is None,
    decreases many,
{
    if few < many {
        missing_index(args, few, (many - 1) as nat);
    }
}

} // verus!
