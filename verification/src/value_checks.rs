//! Values that are held against types, carried through to everything that is found and
//! everything that is asked.
use crate::collections::{StringMap, StringSet};
use crate::comparison::{
    added_value, check_literal_value_against_variant, compare_record_value, literal_step,
    literal_type_name, primitive_literal_base_name, record_value_findings, ComparisonContext,
    LiteralStep, RecordFinding, SpecComparison,
};
use crate::comptime_calls::{infer_record_selection_builtin_call, names_selection, SelectionStep};
use crate::conformance::{
    compare_types, comparison_findings, found_view, resolve_variant_row, resolved_row,
    ComparisonFacts, ComparisonFinding, SpecComparisonFacts, SpecComparisonFinding,
};
use crate::collections::names_view;
use crate::normalize::{unfold_recursive_type_once, unfolded_once};
use crate::rows::{
    all_fields, all_tags, last_payload, lists_literal, result_parts, result_type_args,
};
use crate::span::Span;
use crate::syntax::{
    added_name, lists_fields, result_tag, ungroup_expr, ungrouped, Expr, ExprKind, Item,
    RecordEntry,
};
use crate::types::{
    types_view, Literal, RecursiveTypeId, Row, RowEntry, RowTail, SpecLiteral, SpecRow,
    SpecRowEntry, SpecType, Type,
};
use crate::values::{
    check_primitive_family_literal_branding, check_result_constructor_value_against,
    check_value_against, check_variant_value_against, element_of, is_written_out, listed_alone,
    value_branding, Branding, ResultStep, TagStep, ValueStep,
};
use vstd::prelude::*;

verus! {

// ---------------------------------------------------------------------------
// What value checks go by
// ---------------------------------------------------------------------------
/// What a check of a value goes by.
pub struct ValueContext {
    pub comparison: ComparisonContext,
    pub facts: ComparisonFacts,
    /// The owners of the families, by the names that they go by.
    pub aliases: StringMap<String>,
    /// The types that names have, by their places.
    pub places: Vec<(Span, Type)>,
    /// The names of the functions that select fields.
    pub selections: StringSet,
    /// The names that are bound locally, at the top level, and as values from outside.
    pub locals: StringSet,
    pub bindings: StringSet,
    pub values: StringSet,
}

/// What a check of a value goes by.
pub ghost struct SpecValueContext {
    pub comparison: SpecComparison,
    pub facts: SpecComparisonFacts,
    pub aliases: Map<Seq<char>, Seq<char>>,
    pub places: Seq<(Span, SpecType)>,
    pub selections: Set<Seq<char>>,
    pub locals: Set<Seq<char>>,
    pub bindings: Set<Seq<char>>,
    pub values: Set<Seq<char>>,
}

pub open spec fn places_view(places: Seq<(Span, Type)>) -> Seq<(Span, SpecType)> {
    Seq::new(places.len(), |i: int| (places[i].0, places[i].1@))
}

impl ValueContext {
    pub open spec fn view(&self) -> SpecValueContext {
        SpecValueContext {
            comparison: self.comparison@,
            facts: self.facts@,
            aliases: names_view(self.aliases@),
            places: places_view(self.places@),
            selections: self.selections@,
            locals: self.locals@,
            bindings: self.bindings@,
            values: self.values@,
        }
    }
}

impl SpecValueContext {
    /// The recursive references that are being looked at.
    pub open spec fn active(self) -> Seq<RecursiveTypeId> {
        self.comparison.active
    }

    /// With one more recursive reference that is being looked at.
    pub open spec fn entering(self, id: RecursiveTypeId) -> SpecValueContext {
        SpecValueContext {
            comparison: SpecComparison {
                active: self.comparison.active.push(id),
                ..self.comparison
            },
            ..self
        }
    }
}

/// The type that a name has at a place, from a position of a table on. It is not known where
/// the table does not list it.
pub open spec fn type_at(places: Seq<(Span, SpecType)>, span: Span, from: int) -> SpecType
    decreases places.len() - from,
{
    if from >= places.len() {
        SpecType::Deferred
    } else if places[from].0 == span {
        places[from].1
    } else {
        type_at(places, span, from + 1)
    }
}

fn find_type(places: &Vec<(Span, Type)>, span: Span) -> (ty: Type)
    ensures
        ty@ == type_at(places_view(places@), span, 0),
{
    let ghost all = places_view(places@);
    let mut index: usize = 0;
    while index < places.len()
        invariant
            index <= places.len(),
            all == places_view(places@),
            type_at(all, span, 0) == type_at(all, span, index as int),
        decreases places.len() - index,
    {
        assert(all[index as int] == (places@[index as int].0, places@[index as int].1@));
        if places[index].0 == span {
            return places[index].1.clone();
        }
        index += 1;
    }
    Type::Deferred
}

/// The owner and the builtin base of the family that a type names.
pub open spec fn primitive_family(context: SpecValueContext, ty: SpecType) -> Option<
    (Seq<char>, SpecType),
> {
    match ty {
        SpecType::Named(name) => if context.aliases.contains_key(name)
            && context.comparison.family_bases.contains_key(name) {
            Some((context.aliases[name], context.comparison.family_bases[name]))
        } else {
            None
        },
        _ => None,
    }
}

fn find_primitive_family(context: &ValueContext, ty: &Type) -> (family: Option<(String, Type)>)
    ensures
        match family {
            Some((owner, base)) => primitive_family(context@, ty@) == Some((owner@, base@)),
            None => primitive_family(context@, ty@) is None,
        },
{
    match ty {
        Type::Named(name) => {
            match (
                context.aliases.get(name.as_str()),
                context.comparison.family_bases.get(name.as_str()),
            ) {
                (Some(owner), Some(base)) => Some((owner.clone(), base.clone())),
                _ => None,
            }
        },
        _ => None,
    }
}

/// The literal that a value is, or that a name stands for.
pub open spec fn literal_behind(value: Expr, actual: SpecType) -> Option<SpecLiteral> {
    match ungrouped(value).kind {
        ExprKind::Literal(literal) => Some(literal@),
        _ => listed_alone(actual),
    }
}

fn find_literal(value: &Expr, actual: &Type) -> (literal: Option<Literal>)
    ensures
        match literal {
            Some(literal) => literal_behind(*value, actual@) == Some(literal@),
            None => literal_behind(*value, actual@) is None,
        },
{
    if let ExprKind::Literal(literal) = &ungroup_expr(value).kind {
        return Some(literal.clone());
    }
    if let Type::Variant(row) = actual {
        assert(row@.entries.len() == row.entries.len());
        if row.entries.len() == 1 {
            assert(row@.entries[0] == row.entries@[0]@);
            if let RowEntry::Literal { value: literal } = &row.entries[0] {
                return Some(literal.clone());
            }
        }
    }
    None
}

/// What a value is for the family that a type names.
pub open spec fn branding_for(context: SpecValueContext, expected: SpecType, value: Expr) -> Branding {
    match primitive_family(context, expected) {
        Some((_, base)) => value_branding(value, base, type_at(context.places, value.span, 0)),
        None => Branding::NoLiteral,
    }
}

// ---------------------------------------------------------------------------
// What is found and asked
// ---------------------------------------------------------------------------
/// What a check of a value finds, or what it asks for. The recursive references that are
/// being looked at go along with what is asked.
#[derive(Debug)]
#[allow(inconsistent_fields)]
pub enum ValueEvent<'a> {
    /// The value is checked by itself, and its type is compared.
    Infer { value: &'a Expr, expected: Type, active: Vec<RecursiveTypeId> },
    /// The type of a name is compared.
    Name { value: &'a Expr, expected: Type, active: Vec<RecursiveTypeId> },
    /// A function is held against a function type.
    Lambda { value: &'a Expr, expected: Type, active: Vec<RecursiveTypeId> },
    /// The arms of a match are held against the type.
    Match { value: &'a Expr, expected: Type, active: Vec<RecursiveTypeId> },
    /// The methods that the type asks for are looked for.
    Slots { value: &'a Expr, expected: Type, active: Vec<RecursiveTypeId> },
    /// The type of a selection of fields is compared.
    Select {
        value: &'a Expr,
        subject: &'a Expr,
        labels: &'a Expr,
        expected: Type,
        active: Vec<RecursiveTypeId>,
    },
    /// A scope is opened, and the statements before the last value are checked in it.
    OpenBlock(&'a Vec<Item>),
    CloseBlock,
    /// A value is checked by itself.
    Check(&'a Expr),
    /// The values of an entry are checked by themselves.
    Walk(&'a RecordEntry),
    /// A field is written by its name alone.
    CheckName { name: &'a str, span: Span },
    /// Entries that a record or a collection may not have are looked for.
    Markers { entries: &'a Vec<RecordEntry>, record: bool },
    /// The type of a record is found and compared.
    InferRecord {
        value: &'a Expr,
        entries: &'a Vec<RecordEntry>,
        expected: Type,
        active: Vec<RecursiveTypeId>,
    },
    /// A literal becomes a value of a family.
    Brand { owner: String, span: Span },
    /// A literal is of another type than the base of the family.
    BrandMismatch { expected: Type, found: String, span: Span },
    /// A literal is of the kind that a known type holds, or of another one.
    LiteralOfName { value: &'a Expr, name: String },
    /// A literal stands where a variant has tags.
    LiteralMismatch { row: Row, literal: &'a Literal, span: Span },
    LiteralNotInUnion { row: Row, literal: &'a Literal, span: Span },
    TupleArity { expected: usize, found: usize, span: Span },
    /// A tag stands where a variant lists literals.
    TagKindMismatch { row: Row, tag: &'a str, span: Span },
    UnknownTag { tag: &'a str, span: Span },
    PayloadArity { tag: &'a str, expected: usize, found: usize, span: Span },
    /// A constructor does not fit a result.
    ResultMismatch { expected: Type, actual: Type, span: Span },
    MissingField { name: String, span: Span },
    UnexpectedField { name: String, span: Span },
    /// What the comparison of two types found.
    Found { finding: ComparisonFinding, span: Span },
    /// The value is nested more deeply than the check goes.
    Unfinished { value: &'a Expr, expected: Type },
}

/// What a check of a value finds, or what it asks for.
#[allow(inconsistent_fields)]
pub ghost enum SpecValueEvent {
    Infer { value: Expr, expected: SpecType, active: Seq<RecursiveTypeId> },
    Name { value: Expr, expected: SpecType, active: Seq<RecursiveTypeId> },
    Lambda { value: Expr, expected: SpecType, active: Seq<RecursiveTypeId> },
    Match { value: Expr, expected: SpecType, active: Seq<RecursiveTypeId> },
    Slots { value: Expr, expected: SpecType, active: Seq<RecursiveTypeId> },
    Select {
        value: Expr,
        subject: Expr,
        labels: Expr,
        expected: SpecType,
        active: Seq<RecursiveTypeId>,
    },
    OpenBlock(Seq<Item>),
    CloseBlock,
    Check(Expr),
    Walk(RecordEntry),
    CheckName { name: Seq<char>, span: Span },
    Markers { entries: Seq<RecordEntry>, record: bool },
    InferRecord {
        value: Expr,
        entries: Seq<RecordEntry>,
        expected: SpecType,
        active: Seq<RecursiveTypeId>,
    },
    Brand { owner: Seq<char>, span: Span },
    BrandMismatch { expected: SpecType, found: Seq<char>, span: Span },
    LiteralOfName { value: Expr, name: Seq<char> },
    LiteralMismatch { row: SpecRow, literal: SpecLiteral, span: Span },
    LiteralNotInUnion { row: SpecRow, literal: SpecLiteral, span: Span },
    TupleArity { expected: nat, found: nat, span: Span },
    TagKindMismatch { row: SpecRow, tag: Seq<char>, span: Span },
    UnknownTag { tag: Seq<char>, span: Span },
    PayloadArity { tag: Seq<char>, expected: nat, found: nat, span: Span },
    ResultMismatch { expected: SpecType, actual: SpecType, span: Span },
    MissingField { name: Seq<char>, span: Span },
    UnexpectedField { name: Seq<char>, span: Span },
    Found { finding: SpecComparisonFinding, span: Span },
    Unfinished { value: Expr, expected: SpecType },
}

impl<'a> ValueEvent<'a> {
    pub open spec fn view(&self) -> SpecValueEvent {
        match self {
            ValueEvent::Infer { value, expected, active } => SpecValueEvent::Infer {
                value: **value,
                expected: expected@,
                active: active@,
            },
            ValueEvent::Name { value, expected, active } => SpecValueEvent::Name {
                value: **value,
                expected: expected@,
                active: active@,
            },
            ValueEvent::Lambda { value, expected, active } => SpecValueEvent::Lambda {
                value: **value,
                expected: expected@,
                active: active@,
            },
            ValueEvent::Match { value, expected, active } => SpecValueEvent::Match {
                value: **value,
                expected: expected@,
                active: active@,
            },
            ValueEvent::Slots { value, expected, active } => SpecValueEvent::Slots {
                value: **value,
                expected: expected@,
                active: active@,
            },
            ValueEvent::Select { value, subject, labels, expected, active } =>
                SpecValueEvent::Select {
                value: **value,
                subject: **subject,
                labels: **labels,
                expected: expected@,
                active: active@,
            },
            ValueEvent::OpenBlock(items) => SpecValueEvent::OpenBlock(items@),
            ValueEvent::CloseBlock => SpecValueEvent::CloseBlock,
            ValueEvent::Check(value) => SpecValueEvent::Check(**value),
            ValueEvent::Walk(entry) => SpecValueEvent::Walk(**entry),
            ValueEvent::CheckName { name, span } => SpecValueEvent::CheckName {
                name: name@,
                span: *span,
            },
            ValueEvent::Markers { entries, record } => SpecValueEvent::Markers {
                entries: entries@,
                record: *record,
            },
            ValueEvent::InferRecord { value, entries, expected, active } =>
                SpecValueEvent::InferRecord {
                value: **value,
                entries: entries@,
                expected: expected@,
                active: active@,
            },
            ValueEvent::Brand { owner, span } => SpecValueEvent::Brand {
                owner: owner@,
                span: *span,
            },
            ValueEvent::BrandMismatch { expected, found, span } => SpecValueEvent::BrandMismatch {
                expected: expected@,
                found: found@,
                span: *span,
            },
            ValueEvent::LiteralOfName { value, name } => SpecValueEvent::LiteralOfName {
                value: **value,
                name: name@,
            },
            ValueEvent::LiteralMismatch { row, literal, span } => SpecValueEvent::LiteralMismatch {
                row: row@,
                literal: literal@,
                span: *span,
            },
            ValueEvent::LiteralNotInUnion { row, literal, span } =>
                SpecValueEvent::LiteralNotInUnion {
                row: row@,
                literal: literal@,
                span: *span,
            },
            ValueEvent::TupleArity { expected, found, span } => SpecValueEvent::TupleArity {
                expected: *expected as nat,
                found: *found as nat,
                span: *span,
            },
            ValueEvent::TagKindMismatch { row, tag, span } => SpecValueEvent::TagKindMismatch {
                row: row@,
                tag: tag@,
                span: *span,
            },
            ValueEvent::UnknownTag { tag, span } => SpecValueEvent::UnknownTag {
                tag: tag@,
                span: *span,
            },
            ValueEvent::PayloadArity { tag, expected, found, span } =>
                SpecValueEvent::PayloadArity {
                tag: tag@,
                expected: *expected as nat,
                found: *found as nat,
                span: *span,
            },
            ValueEvent::ResultMismatch { expected, actual, span } =>
                SpecValueEvent::ResultMismatch {
                expected: expected@,
                actual: actual@,
                span: *span,
            },
            ValueEvent::MissingField { name, span } => SpecValueEvent::MissingField {
                name: name@,
                span: *span,
            },
            ValueEvent::UnexpectedField { name, span } => SpecValueEvent::UnexpectedField {
                name: name@,
                span: *span,
            },
            ValueEvent::Found { finding, span } => SpecValueEvent::Found {
                finding: finding@,
                span: *span,
            },
            ValueEvent::Unfinished { value, expected } => SpecValueEvent::Unfinished {
                value: **value,
                expected: expected@,
            },
        }
    }
}

pub open spec fn events_view(events: Seq<ValueEvent<'_>>) -> Seq<SpecValueEvent> {
    Seq::new(events.len(), |i: int| events[i]@)
}

// ---------------------------------------------------------------------------
// The check
// ---------------------------------------------------------------------------
/// Values that are checked by themselves.
pub open spec fn check_events(values: Seq<Expr>) -> Seq<SpecValueEvent> {
    values.map_values(|value: Expr| SpecValueEvent::Check(value))
}

/// Entries whose values are checked by themselves.
pub open spec fn walk_events(entries: Seq<RecordEntry>) -> Seq<SpecValueEvent> {
    entries.map_values(|entry: RecordEntry| SpecValueEvent::Walk(entry))
}

/// What the comparison of types found at a place.
pub open spec fn found_events(findings: Seq<SpecComparisonFinding>, span: Span) -> Seq<
    SpecValueEvent,
> {
    findings.map_values(|finding: SpecComparisonFinding| SpecValueEvent::Found { finding, span })
}

/// The names that the first entries write as fields by themselves.
pub open spec fn shorthand_events(entries: Seq<RecordEntry>, count: nat) -> Seq<SpecValueEvent>
    decreases count,
{
    if count == 0 || count > entries.len() {
        Seq::empty()
    } else {
        let earlier = shorthand_events(entries, (count - 1) as nat);
        match entries[count - 1] {
            RecordEntry::Shorthand { name, name_span, .. } => earlier.push(
                SpecValueEvent::CheckName { name: name@, span: name_span },
            ),
            _ => earlier,
        }
    }
}

/// The place of the name of the field that an entry adds.
pub open spec fn added_span(entry: RecordEntry) -> Span {
    match entry {
        RecordEntry::Field { name_span, .. } => name_span,
        RecordEntry::Shorthand { name_span, .. } => name_span,
        _ => Span { start: 0, end: 0 },
    }
}

/// What is found about a literal that stands for a variant.
pub open spec fn literal_events(row: SpecRow, literal: SpecLiteral, span: Span) -> Seq<
    SpecValueEvent,
> {
    match literal_step(row, literal) {
        LiteralStep::Accept => Seq::empty(),
        LiteralStep::Mismatch => seq![SpecValueEvent::LiteralMismatch { row, literal, span }],
        LiteralStep::NotInUnion => seq![
            SpecValueEvent::LiteralNotInUnion { row, literal, span },
        ],
    }
}

/// Everything that is found and asked where a value is held against a type. Values that are
/// nested more deeply than `levels` are left.
pub open spec fn value_events(
    context: SpecValueContext,
    expected: SpecType,
    value: Expr,
    levels: nat,
) -> Seq<SpecValueEvent>
    decreases levels, 0nat, 0nat,
{
    if levels == 0 {
        seq![SpecValueEvent::Unfinished { value, expected }]
    } else {
        let below = (levels - 1) as nat;
        if expected is SlotRecord {
            match value.kind {
                ExprKind::Group(inner) => value_events(context, expected, *inner, below),
                ExprKind::Block(items) => block_events(context, expected, items@, below),
                ExprKind::Match { .. } => seq![
                    SpecValueEvent::Match { value, expected, active: context.active() },
                ],
                _ => seq![SpecValueEvent::Slots { value, expected, active: context.active() }],
            }
        } else if expected is Recursive && !(value.kind is Name || value.kind is ComptimeName) {
            let id = expected->Recursive_0;
            let unfolded = unfolded_once(expected, context.comparison.recursive);
            if context.active().contains(id) {
                Seq::empty()
            } else if unfolded != expected {
                value_events(context.entering(id), unfolded, value, below)
            } else {
                branded_events(context, expected, value, below)
            }
        } else {
            branded_events(context, expected, value, below)
        }
    }
}

/// What is found and asked where a value is held against a type that may be a family: a
/// literal is looked at first.
pub open spec fn branded_events(
    context: SpecValueContext,
    expected: SpecType,
    value: Expr,
    levels: nat,
) -> Seq<SpecValueEvent>
    decreases levels, 4nat, 0nat,
{
    let (owner, base) = primitive_family(context, expected)->0;
    let actual = type_at(context.places, value.span, 0);
    match branding_for(context, expected, value) {
        Branding::Brand => seq![
            SpecValueEvent::Brand { owner, span: value.span },
        ],
        Branding::Mismatch => seq![
            SpecValueEvent::BrandMismatch {
                expected,
                found: literal_type_name(literal_behind(value, actual)->0)->0,
                span: value.span,
            },
        ],
        Branding::CheckBase => if ungrouped(value).kind is Literal {
            value_events(context, base, value, levels)
        } else {
            found_events(
                comparison_findings(
                    context.comparison,
                    context.facts,
                    base,
                    actual,
                    levels,
                ),
                value.span,
            )
        },
        Branding::NoLiteral => plain_events(context, expected, value, levels),
    }
}

/// What is found and asked where a value is held against a type that is not recursive and
/// asks for no methods.
pub open spec fn plain_events(
    context: SpecValueContext,
    expected: SpecType,
    value: Expr,
    levels: nat,
) -> Seq<SpecValueEvent>
    decreases levels, 3nat, 0nat,
{
    let active = context.active();
    match value.kind {
        ExprKind::Group(inner) => value_events(context, expected, *inner, levels),
        ExprKind::Block(items) => block_events(context, expected, items@, levels),
        ExprKind::Lambda { .. } => if expected is Function {
            seq![SpecValueEvent::Lambda { value, expected, active }]
        } else {
            seq![SpecValueEvent::Infer { value, expected, active }]
        },
        ExprKind::Name(_) => seq![SpecValueEvent::Name { value, expected, active }],
        ExprKind::ComptimeName(_) => seq![SpecValueEvent::Name { value, expected, active }],
        _ => if expected is Optional && value.kind is Undefined {
            Seq::empty()
        } else if expected is Nullable && value.kind is Null {
            Seq::empty()
        } else if expected is Optional && is_written_out(value) {
            value_events(context, *expected->Optional_0, value, levels)
        } else if expected is Nullable && is_written_out(value) {
            value_events(context, *expected->Nullable_0, value, levels)
        } else {
            shape_events(context, expected, value, levels)
        },
    }
}

/// What is found and asked from the shapes of a value and of a type.
pub open spec fn shape_events(
    context: SpecValueContext,
    expected: SpecType,
    value: Expr,
    levels: nat,
) -> Seq<SpecValueEvent>
    decreases levels, 2nat, 0nat,
{
    let active = context.active();
    let inferred = seq![SpecValueEvent::Infer { value, expected, active }];
    match (value.kind, expected) {
        (ExprKind::Literal(_), SpecType::Named(name)) => if context.comparison.known_types.contains(
            name,
        ) {
            seq![SpecValueEvent::LiteralOfName { value, name }]
        } else {
            Seq::empty()
        },
        (ExprKind::Literal(literal), SpecType::Variant(row)) => literal_events(
            resolved_row(context.facts, row),
            literal@,
            value.span,
        ),
        (ExprKind::Tuple(elements), SpecType::Tuple(types)) => if elements@.len() != types.len() {
            seq![
                SpecValueEvent::TupleArity {
                    expected: types.len(),
                    found: elements@.len(),
                    span: value.span,
                },
            ] + check_events(elements@)
        } else {
            list_events(context, types, elements@, types.len(), levels)
        },
        (ExprKind::Record(entries), SpecType::Record(row)) => seq![
            SpecValueEvent::Markers { entries: entries@, record: true },
        ] + (if !all_fields(row) {
            walk_events(entries@)
        } else if lists_fields(entries@) {
            shorthand_events(entries@, entries@.len()) + fields_events(
                context,
                row,
                entries@,
                value.span,
                record_value_findings(row, entries@, context.facts.definitions),
                levels,
            )
        } else {
            seq![SpecValueEvent::InferRecord { value, entries: entries@, expected, active }]
                + walk_events(entries@)
        }),
        (ExprKind::Tag(tag), SpecType::Variant(row)) => tag_events(
            context,
            row,
            tag@,
            Seq::empty(),
            value.span,
            levels,
        ),
        (ExprKind::Call { callee, args }, _) => if result_parts(expected) is Some {
            match result_tag(*callee) {
                Some(tag) => result_events(context, expected, tag, args@, value.span, levels),
                None => inferred,
            }
        } else {
            match (callee.kind, expected) {
                (ExprKind::Tag(tag), SpecType::Variant(row)) => tag_events(
                    context,
                    row,
                    tag@,
                    args@,
                    value.span,
                    levels,
                ),
                _ => call_events(context, expected, value, *callee, args@),
            }
        },
        (ExprKind::Match { .. }, _) => seq![SpecValueEvent::Match { value, expected, active }],
        (ExprKind::Array(entries), _) => match element_of(expected, "Array"@) {
            Some(element) => seq![SpecValueEvent::Markers { entries: entries@, record: false }]
                + collection_events(
                context,
                expected,
                element,
                entries@,
                entries@.len(),
                levels,
            ),
            None => inferred,
        },
        (ExprKind::SetLiteral(entries), _) => match element_of(expected, "Set"@) {
            Some(element) => seq![SpecValueEvent::Markers { entries: entries@, record: false }]
                + collection_events(
                context,
                expected,
                element,
                entries@,
                entries@.len(),
                levels,
            ),
            None => inferred,
        },
        _ => inferred,
    }
}

/// What is found and asked for a call that constructs nothing: it may select fields.
pub open spec fn call_events(
    context: SpecValueContext,
    expected: SpecType,
    value: Expr,
    callee: Expr,
    args: Seq<Expr>,
) -> Seq<SpecValueEvent> {
    let active = context.active();
    let is_local = match crate::syntax::name_of(callee) {
        Some(name) => context.locals.contains(name),
        None => false,
    };
    if !names_selection(callee, context.selections, is_local, context.bindings, context.values) {
        seq![SpecValueEvent::Infer { value, expected, active }]
    } else if args.len() != 2 {
        Seq::empty()
    } else {
        seq![
            SpecValueEvent::Select { value, subject: args[0], labels: args[1], expected, active },
        ]
    }
}

/// What is found and asked where a block is held against a type: its last value is.
pub open spec fn block_events(
    context: SpecValueContext,
    expected: SpecType,
    items: Seq<Item>,
    levels: nat,
) -> Seq<SpecValueEvent>
    decreases levels, 1nat, 0nat,
{
    let last = if items.len() > 0 {
        match items.last() {
            Item::Expr(value) => value_events(context, expected, *value, levels),
            _ => Seq::empty(),
        }
    } else {
        Seq::empty()
    };
    seq![SpecValueEvent::OpenBlock(items)] + last + seq![SpecValueEvent::CloseBlock]
}

/// What is found and asked where the first values of a list are held against types.
pub open spec fn list_events(
    context: SpecValueContext,
    types: Seq<SpecType>,
    values: Seq<Expr>,
    count: nat,
    levels: nat,
) -> Seq<SpecValueEvent>
    decreases levels, 1nat, count,
{
    if count == 0 {
        Seq::empty()
    } else {
        list_events(context, types, values, (count - 1) as nat, levels) + value_events(
            context,
            types[count - 1],
            values[count - 1],
            levels,
        )
    }
}

/// What is found and asked where the fields of a record are held against a record type.
pub open spec fn fields_events(
    context: SpecValueContext,
    row: SpecRow,
    entries: Seq<RecordEntry>,
    span: Span,
    findings: Seq<RecordFinding>,
    levels: nat,
) -> Seq<SpecValueEvent>
    decreases levels, 1nat, findings.len(),
{
    if findings.len() == 0 {
        Seq::empty()
    } else {
        fields_events(context, row, entries, span, findings.drop_last(), levels) + (
        match findings.last() {
            RecordFinding::Compare { required, present } => value_events(
                context,
                row.entries[required as int]->Field_ty,
                added_value(entries[present as int])->0,
                levels,
            ),
            RecordFinding::Missing { required } => seq![
                SpecValueEvent::MissingField {
                    name: row.entries[required as int]->Field_name,
                    span,
                },
            ],
            RecordFinding::Unexpected { present } => seq![
                SpecValueEvent::UnexpectedField {
                    name: added_name(entries[present as int]),
                    span: added_span(entries[present as int]),
                },
            ],
            RecordFinding::CheckAlone { present } => seq![
                SpecValueEvent::Check(added_value(entries[present as int])->0),
            ],
        })
    }
}

/// What is found and asked where a tag with arguments is held against a variant.
pub open spec fn tag_events(
    context: SpecValueContext,
    row: SpecRow,
    tag: Seq<char>,
    args: Seq<Expr>,
    span: Span,
    levels: nat,
) -> Seq<SpecValueEvent>
    decreases levels, 1nat, args.len() + 1,
{
    if !all_tags(row) {
        (if lists_literal(row) {
            seq![SpecValueEvent::TagKindMismatch { row, tag, span }]
        } else {
            Seq::empty()
        }) + check_events(args)
    } else {
        match last_payload(row.entries, tag) {
            None => (if row.tail is Closed {
                seq![SpecValueEvent::UnknownTag { tag, span }]
            } else {
                Seq::empty()
            }) + check_events(args),
            Some(payload) => if payload.len() != args.len() {
                seq![
                    SpecValueEvent::PayloadArity {
                        tag,
                        expected: payload.len(),
                        found: args.len(),
                        span,
                    },
                ] + check_events(args)
            } else {
                list_events(context, payload, args, args.len(), levels)
            },
        }
    }
}

/// The type of a constructor of a result with arguments.
pub open spec fn constructor_type(tag: Seq<char>, count: nat) -> SpecType {
    SpecType::Variant(
        SpecRow {
            entries: seq![
                SpecRowEntry::Tag {
                    name: tag,
                    payload: Seq::new(count, |i: int| SpecType::Deferred),
                },
            ],
            tail: RowTail::Closed,
        },
    )
}

/// What is found and asked where a constructor of a result is held against a result type.
pub open spec fn result_events(
    context: SpecValueContext,
    expected: SpecType,
    tag: Seq<char>,
    args: Seq<Expr>,
    span: Span,
    levels: nat,
) -> Seq<SpecValueEvent>
    decreases levels, 1nat, 0nat,
{
    let (ok_ty, error_ty) = result_parts(expected)->0;
    if (tag == "Ok"@ || tag == "Err"@) && args.len() == 1 {
        value_events(
            context,
            if tag == "Ok"@ {
                ok_ty
            } else {
                error_ty
            },
            args[0],
            levels,
        )
    } else {
        seq![
            SpecValueEvent::ResultMismatch {
                expected,
                actual: constructor_type(tag, args.len()),
                span,
            },
        ] + check_events(args)
    }
}

/// What is found and asked where the first entries of an array or a set are held against a
/// collection type.
pub open spec fn collection_events(
    context: SpecValueContext,
    expected: SpecType,
    element: SpecType,
    entries: Seq<RecordEntry>,
    count: nat,
    levels: nat,
) -> Seq<SpecValueEvent>
    decreases levels, 1nat, count,
{
    if count == 0 {
        Seq::empty()
    } else {
        collection_events(context, expected, element, entries, (count - 1) as nat, levels) + (
        match entries[count - 1] {
            RecordEntry::Element(value) => value_events(context, element, *value, levels),
            RecordEntry::Spread { value, .. } => value_events(context, expected, *value, levels),
            _ => seq![SpecValueEvent::Walk(entries[count - 1])],
        })
    }
}

/// Note one event.
fn push_event<'a>(events: &mut Vec<ValueEvent<'a>>, event: ValueEvent<'a>)
    ensures
        events_view(final(events)@) == events_view(old(events)@) + seq![event@],
{
    let ghost before = events_view(events@);
    events.push(event);
    assert(events_view(events@) =~= before + seq![event@]);
}

proof fn nothing_is_added(events: Seq<SpecValueEvent>)
    ensures
        events + Seq::<SpecValueEvent>::empty() == events,
{
    assert(events + Seq::<SpecValueEvent>::empty() =~= events);
}

proof fn additions_associate(
    first: Seq<SpecValueEvent>,
    second: Seq<SpecValueEvent>,
    third: Seq<SpecValueEvent>,
)
    ensures
        first + second + third == first + (second + third),
{
    assert(first + second + third =~= first + (second + third));
}

fn copy_active(active: &Vec<RecursiveTypeId>) -> (copied: Vec<RecursiveTypeId>)
    ensures
        copied@ == active@,
{
    let mut copied: Vec<RecursiveTypeId> = Vec::new();
    let mut index: usize = 0;
    while index < active.len()
        invariant
            index <= active.len(),
            copied@ == active@.take(index as int),
        decreases active.len() - index,
    {
        copied.push(active[index]);
        assert(copied@ =~= active@.take(index + 1));
        index += 1;
    }
    assert(active@.take(active@.len() as int) =~= active@);
    copied
}

fn check_all<'a>(values: &'a Vec<Expr>, events: &mut Vec<ValueEvent<'a>>)
    ensures
        events_view(final(events)@) == events_view(old(events)@) + check_events(values@),
{
    let ghost before = events_view(events@);
    let mut index: usize = 0;
    assert(before + check_events(values@.take(0)) =~= before);
    while index < values.len()
        invariant
            index <= values.len(),
            events_view(events@) == before + check_events(values@.take(index as int)),
        decreases values.len() - index,
    {
        push_event(events, ValueEvent::Check(&values[index]));
        assert(events_view(events@) =~= before + check_events(values@.take(index + 1)));
        index += 1;
    }
    assert(values@.take(values@.len() as int) =~= values@);
}

fn walk_all<'a>(entries: &'a Vec<RecordEntry>, events: &mut Vec<ValueEvent<'a>>)
    ensures
        events_view(final(events)@) == events_view(old(events)@) + walk_events(entries@),
{
    let ghost before = events_view(events@);
    let mut index: usize = 0;
    assert(before + walk_events(entries@.take(0)) =~= before);
    while index < entries.len()
        invariant
            index <= entries.len(),
            events_view(events@) == before + walk_events(entries@.take(index as int)),
        decreases entries.len() - index,
    {
        push_event(events, ValueEvent::Walk(&entries[index]));
        assert(events_view(events@) =~= before + walk_events(entries@.take(index + 1)));
        index += 1;
    }
    assert(entries@.take(entries@.len() as int) =~= entries@);
}

fn note_found<'a>(
    findings: Vec<ComparisonFinding>,
    span: Span,
    events: &mut Vec<ValueEvent<'a>>,
)
    ensures
        events_view(final(events)@) == events_view(old(events)@) + found_events(
            found_view(findings@),
            span,
        ),
{
    let ghost all = found_view(findings@);
    let ghost before = events_view(events@);
    let mut rest = findings;
    let ghost mut done: int = 0;
    assert(rest@ =~= findings@.skip(0));
    assert(before + found_events(all.take(0), span) =~= before);
    while rest.len() > 0
        invariant
            0 <= done <= findings@.len(),
            all == found_view(findings@),
            rest@ == findings@.skip(done),
            events_view(events@) == before + found_events(all.take(done), span),
        decreases rest.len(),
    {
        let finding = rest.remove(0);
        assert(finding == findings@[done]);
        assert(all[done] == finding@);
        push_event(events, ValueEvent::Found { finding, span });
        proof {
            assert(rest@ =~= findings@.skip(done + 1));
            assert(events_view(events@) =~= before + found_events(all.take(done + 1), span));
            done = done + 1;
        }
    }
    assert(all.take(all.len() as int) =~= all);
}

fn note_shorthands<'a>(entries: &'a Vec<RecordEntry>, events: &mut Vec<ValueEvent<'a>>)
    ensures
        events_view(final(events)@) == events_view(old(events)@) + shorthand_events(
            entries@,
            entries@.len(),
        ),
{
    let ghost before = events_view(events@);
    let mut index: usize = 0;
    assert(before + shorthand_events(entries@, 0) =~= before);
    while index < entries.len()
        invariant
            index <= entries.len(),
            events_view(events@) == before + shorthand_events(entries@, index as nat),
        decreases entries.len() - index,
    {
        if let RecordEntry::Shorthand { name, name_span, .. } = &entries[index] {
            push_event(events, ValueEvent::CheckName { name: name.as_str(), span: *name_span });
        }
        assert(events_view(events@) =~= before + shorthand_events(entries@, (index + 1) as nat));
        index += 1;
    }
}

/// The arguments of a tag.
pub open spec fn args_of(args: Option<&Vec<Expr>>) -> Seq<Expr> {
    match args {
        Some(args) => args@,
        None => Seq::empty(),
    }
}

fn check_args<'a>(args: Option<&'a Vec<Expr>>, events: &mut Vec<ValueEvent<'a>>)
    ensures
        events_view(final(events)@) == events_view(old(events)@) + check_events(args_of(args)),
{
    match args {
        Some(args) => check_all(args, events),
        None => {
            assert(events_view(events@) + check_events(Seq::empty()) =~= events_view(events@));
        },
    }
}

fn check_literal<'a>(
    facts: &ComparisonFacts,
    row: &Row,
    literal: &'a Literal,
    span: Span,
    events: &mut Vec<ValueEvent<'a>>,
)
    ensures
        events_view(final(events)@) == events_view(old(events)@) + literal_events(
            resolved_row(facts@, row@),
            literal@,
            span,
        ),
{
    proof {
        nothing_is_added(events_view(events@));
    }
    let row = resolve_variant_row(facts, row);
    match check_literal_value_against_variant(&row, literal) {
        LiteralStep::Accept => {},
        LiteralStep::Mismatch => push_event(
            events,
            ValueEvent::LiteralMismatch { row, literal, span },
        ),
        LiteralStep::NotInUnion => push_event(
            events,
            ValueEvent::LiteralNotInUnion { row, literal, span },
        ),
    }
}

fn check_call<'a>(
    context: &ValueContext,
    expected: &Type,
    value: &'a Expr,
    callee: &'a Expr,
    args: &'a Vec<Expr>,
    events: &mut Vec<ValueEvent<'a>>,
)
    ensures
        events_view(final(events)@) == events_view(old(events)@) + call_events(
            context@,
            expected@,
            *value,
            *callee,
            args@,
        ),
{
    proof {
        nothing_is_added(events_view(events@));
    }
    let is_local = match crate::syntax::expr_name(callee) {
        Some(name) => context.locals.contains(name),
        None => false,
    };
    match infer_record_selection_builtin_call(
        callee,
        args,
        &context.selections,
        is_local,
        &context.bindings,
        &context.values,
    ) {
        SelectionStep::NoSelection => push_event(
            events,
            ValueEvent::Infer {
                value,
                expected: expected.clone(),
                active: copy_active(&context.comparison.active),
            },
        ),
        SelectionStep::Defer => {},
        SelectionStep::Subject { subject, labels } => push_event(
            events,
            ValueEvent::Select {
                value,
                subject,
                labels,
                expected: expected.clone(),
                active: copy_active(&context.comparison.active),
            },
        ),
    }
}

/// Hold a value against a type, and note everything that is found and asked.
///
/// A check that comes to no end within `levels` says so where it stops; `count_value_levels`
/// counts levels that are enough.
#[verifier::rlimit(60)]
pub fn check_value<'a>(
    context: &mut ValueContext,
    expected: &Type,
    value: &'a Expr,
    levels: usize,
    events: &mut Vec<ValueEvent<'a>>,
)
    ensures
        final(context)@ == old(context)@,
        events_view(final(events)@) == events_view(old(events)@) + value_events(
            old(context)@,
            expected@,
            *value,
            levels as nat,
        ),
    decreases levels, 0nat,
{
    let ghost before = events_view(events@);
    let ghost outer = context@;
    proof {
        nothing_is_added(before);
    }
    if levels == 0 {
        push_event(events, ValueEvent::Unfinished { value, expected: expected.clone() });
        return;
    }
    let below: usize = levels - 1;
    let mut is_active = false;
    let mut unfolded = Type::Deferred;
    let mut unfolds = false;
    if let Type::Recursive(id) = expected {
        is_active = crate::comparison::is_active(&context.comparison.active, *id);
        unfolded = unfold_recursive_type_once(expected, &context.comparison.recursive);
        unfolds = !unfolded.equals(expected);
    }
    let family = find_primitive_family(context, expected);
    let actual = find_type(&context.places, value.span);
    let branding = match &family {
        Some((_, base)) => check_primitive_family_literal_branding(value, base, &actual),
        None => Branding::NoLiteral,
    };
    assert(branding == branding_for(outer, expected@, *value));
    let ghost branded = branded_events(outer, expected@, *value, below as nat);
    let ghost plain = plain_events(outer, expected@, *value, below as nat);
    let ghost shaped = shape_events(outer, expected@, *value, below as nat);
    assert(branding is NoLiteral ==> branded == plain);
    assert(value.kind is Group ==> plain == value_events(
        outer,
        expected@,
        *value.kind->Group_0,
        below as nat,
    ));
    assert(value.kind is Literal && expected@ is Named && !outer.comparison.known_types.contains(
        expected@->Named_0,
    ) ==> shaped =~= Seq::empty());
    match check_value_against(expected, value, is_active, unfolds, branding) {
        ValueStep::Accept => {},
        ValueStep::Brand => {
            if let Some((owner, _)) = family {
                push_event(events, ValueEvent::Brand { owner, span: value.span });
            }
        },
        ValueStep::BrandMismatch => {
            if let Some(literal) = find_literal(value, &actual) {
                if let Some(found) = primitive_literal_base_name(&literal) {
                    push_event(
                        events,
                        ValueEvent::BrandMismatch {
                            expected: expected.clone(),
                            found: found.to_owned(),
                            span: value.span,
                        },
                    );
                }
            }
        },
        ValueStep::CheckBase => {
            if let Some((_, base)) = family {
                if let ExprKind::Literal(_) = &ungroup_expr(value).kind {
                    check_value(context, &base, value, below, events);
                } else {
                    let mut findings: Vec<ComparisonFinding> = Vec::new();
                    compare_types(
                        &mut context.comparison,
                        &context.facts,
                        &base,
                        &actual,
                        below,
                        &mut findings,
                    );
                    assert(found_view(findings@) =~= comparison_findings(
                        outer.comparison,
                        outer.facts,
                        base@,
                        actual@,
                        below as nat,
                    ));
                    note_found(findings, value.span, events);
                }
            }
        },
        ValueStep::Inner(inner) => check_value(context, expected, inner, below, events),
        ValueStep::Block(items) => check_block(context, expected, items, below, events),
        ValueStep::Match { .. } => push_event(
            events,
            ValueEvent::Match {
                value,
                expected: expected.clone(),
                active: copy_active(&context.comparison.active),
            },
        ),
        ValueStep::Slots => push_event(
            events,
            ValueEvent::Slots {
                value,
                expected: expected.clone(),
                active: copy_active(&context.comparison.active),
            },
        ),
        ValueStep::Name(_) => push_event(
            events,
            ValueEvent::Name {
                value,
                expected: expected.clone(),
                active: copy_active(&context.comparison.active),
            },
        ),
        ValueStep::Unfold(id) => {
            context.comparison.active.push(id);
            assert(context@ == outer.entering(id));
            check_value(context, &unfolded, value, below, events);
            let _ = context.comparison.active.pop();
            assert(outer.comparison.active.push(id).drop_last() =~= outer.comparison.active);
            assert(context@ == outer);
        },
        ValueStep::Lambda => push_event(
            events,
            ValueEvent::Lambda {
                value,
                expected: expected.clone(),
                active: copy_active(&context.comparison.active),
            },
        ),
        ValueStep::Peel(inner) => check_value(context, inner, value, below, events),
        ValueStep::LiteralAgainstName => {
            if let Type::Named(name) = expected {
                if context.comparison.known_types.contains(name.as_str()) {
                    push_event(events, ValueEvent::LiteralOfName { value, name: name.clone() });
                }
            }
        },
        ValueStep::LiteralAgainstVariant => {
            if let (ExprKind::Literal(literal), Type::Variant(row)) = (&value.kind, expected) {
                check_literal(&context.facts, row, literal, value.span, events);
            }
        },
        ValueStep::TupleArity { expected: expected_len, found } => {
            if let ExprKind::Tuple(elements) = &value.kind {
                push_event(
                    events,
                    ValueEvent::TupleArity { expected: expected_len, found, span: value.span },
                );
                let ghost first = events_view(events@);
                check_all(elements, events);
                proof {
                    additions_associate(
                        before,
                        seq![
                            SpecValueEvent::TupleArity {
                                expected: expected_len as nat,
                                found: found as nat,
                                span: value.span,
                            },
                        ],
                        check_events(elements@),
                    );
                }
            }
        },
        ValueStep::Tuple { elements, types } => {
            assert(types_view(types@).len() == types.len());
            check_list(context, types, elements, below, events);
        },
        ValueStep::Record { row, entries } => {
            check_record(context, expected, row, value, entries, below, events);
        },
        ValueStep::Tag { row, tag, args } => {
            check_tag(context, row, tag, args, value.span, below, events);
        },
        ValueStep::ResultTag { tag, args } => {
            check_result(context, expected, tag, args, value.span, below, events);
        },
        ValueStep::Call => {
            if let ExprKind::Call { callee, args } = &value.kind {
                check_call(context, expected, value, callee, args, events);
            }
        },
        ValueStep::Collection { element, entries } => {
            let ghost first = SpecValueEvent::Markers { entries: entries@, record: false };
            push_event(events, ValueEvent::Markers { entries, record: false });
            check_collection(context, expected, element, entries, below, events);
            proof {
                additions_associate(
                    before,
                    seq![first],
                    collection_events(
                        outer,
                        expected@,
                        element@,
                        entries@,
                        entries@.len(),
                        below as nat,
                    ),
                );
            }
        },
        ValueStep::Infer => push_event(
            events,
            ValueEvent::Infer {
                value,
                expected: expected.clone(),
                active: copy_active(&context.comparison.active),
            },
        ),
    }
}

fn check_block<'a>(
    context: &mut ValueContext,
    expected: &Type,
    items: &'a Vec<Item>,
    levels: usize,
    events: &mut Vec<ValueEvent<'a>>,
)
    ensures
        final(context)@ == old(context)@,
        events_view(final(events)@) == events_view(old(events)@) + block_events(
            old(context)@,
            expected@,
            items@,
            levels as nat,
        ),
    decreases levels, 1nat,
{
    let ghost before = events_view(events@);
    push_event(events, ValueEvent::OpenBlock(items));
    let ghost opened = events_view(events@);
    proof {
        nothing_is_added(opened);
    }
    if items.len() > 0 {
        assert(items@.last() == items@[items@.len() - 1]);
        if let Item::Expr(value) = &items[items.len() - 1] {
            check_value(context, expected, value, levels, events);
        }
    }
    let ghost inner = if items@.len() > 0 {
        match items@.last() {
            Item::Expr(value) => value_events(
                old(context)@,
                expected@,
                *value,
                levels as nat,
            ),
            _ => Seq::empty(),
        }
    } else {
        Seq::empty()
    };
    assert(events_view(events@) =~= opened + inner);
    push_event(events, ValueEvent::CloseBlock);
    assert(events_view(events@) =~= before + (seq![SpecValueEvent::OpenBlock(items@)] + inner
        + seq![SpecValueEvent::CloseBlock]));
}

fn check_list<'a>(
    context: &mut ValueContext,
    types: &Vec<Type>,
    values: &'a Vec<Expr>,
    levels: usize,
    events: &mut Vec<ValueEvent<'a>>,
)
    requires
        types@.len() == values@.len(),
    ensures
        final(context)@ == old(context)@,
        events_view(final(events)@) == events_view(old(events)@) + list_events(
            old(context)@,
            types_view(types@),
            values@,
            types@.len(),
            levels as nat,
        ),
    decreases levels, 1nat,
{
    let ghost before = events_view(events@);
    let ghost outer = context@;
    let ghost all = types_view(types@);
    let mut index: usize = 0;
    assert(before + list_events(outer, all, values@, 0, levels as nat) =~= before);
    while index < values.len()
        invariant
            index <= values.len(),
            types@.len() == values@.len(),
            all == types_view(types@),
            context@ == outer,
            events_view(events@) == before + list_events(
                outer,
                all,
                values@,
                index as nat,
                levels as nat,
            ),
        decreases values.len() - index,
    {
        assert(all[index as int] == types@[index as int]@);
        check_value(context, &types[index], &values[index], levels, events);
        assert(events_view(events@) =~= before + list_events(
            outer,
            all,
            values@,
            (index + 1) as nat,
            levels as nat,
        ));
        index += 1;
    }
}

fn check_tag<'a>(
    context: &mut ValueContext,
    row: &Row,
    tag: &'a str,
    args: Option<&'a Vec<Expr>>,
    span: Span,
    levels: usize,
    events: &mut Vec<ValueEvent<'a>>,
)
    ensures
        final(context)@ == old(context)@,
        events_view(final(events)@) == events_view(old(events)@) + tag_events(
            old(context)@,
            row@,
            tag@,
            args_of(args),
            span,
            levels as nat,
        ),
    decreases levels, 2nat,
{
    let ghost before = events_view(events@);
    let ghost checked = check_events(args_of(args));
    assert(row@.tail == row.tail);
    let count: usize = match args {
        Some(args) => args.len(),
        None => 0,
    };
    match check_variant_value_against(row, tag, count) {
        TagStep::KindMismatch => {
            push_event(events, ValueEvent::TagKindMismatch { row: row.clone(), tag, span });
            check_args(args, events);
            proof {
                let first = seq![SpecValueEvent::TagKindMismatch { row: row@, tag: tag@, span }];
                additions_associate(before, first, checked);
            }
        },
        TagStep::UnknownTag => {
            push_event(events, ValueEvent::UnknownTag { tag, span });
            check_args(args, events);
            proof {
                let first = seq![SpecValueEvent::UnknownTag { tag: tag@, span }];
                additions_associate(before, first, checked);
            }
        },
        TagStep::PayloadArity { expected, found } => {
            push_event(events, ValueEvent::PayloadArity { tag, expected, found, span });
            check_args(args, events);
            proof {
                let first = seq![
                    SpecValueEvent::PayloadArity {
                        tag: tag@,
                        expected: expected as nat,
                        found: found as nat,
                        span,
                    },
                ];
                additions_associate(before, first, checked);
            }
        },
        TagStep::Payload(payload) => {
            assert(types_view(payload@).len() == payload.len());
            match args {
                Some(args) => check_list(context, payload, args, levels, events),
                None => {
                    proof {
                        nothing_is_added(before);
                    }
                },
            }
        },
        TagStep::Unknown => {
            check_args(args, events);
            assert(Seq::<SpecValueEvent>::empty() + checked =~= checked);
        },
    }
}

fn check_result<'a>(
    context: &mut ValueContext,
    expected: &Type,
    tag: &'a str,
    args: &'a Vec<Expr>,
    span: Span,
    levels: usize,
    events: &mut Vec<ValueEvent<'a>>,
)
    requires
        result_parts(expected@) is Some,
    ensures
        final(context)@ == old(context)@,
        events_view(final(events)@) == events_view(old(events)@) + result_events(
            old(context)@,
            expected@,
            tag@,
            args@,
            span,
            levels as nat,
        ),
    decreases levels, 2nat,
{
    let ghost before = events_view(events@);
    if let Some((ok_ty, error_ty)) = result_type_args(expected) {
        match check_result_constructor_value_against(ok_ty, error_ty, tag, args.len()) {
            ResultStep::Payload(payload) => {
                check_value(context, &payload, &args[0], levels, events);
            },
            ResultStep::Mismatch(actual) => {
                let ghost first = seq![
                    SpecValueEvent::ResultMismatch { expected: expected@, actual: actual@, span },
                ];
                assert(actual@ == constructor_type(tag@, args@.len()));
                push_event(
                    events,
                    ValueEvent::ResultMismatch { expected: expected.clone(), actual, span },
                );
                check_all(args, events);
                proof {
                    additions_associate(before, first, check_events(args@));
                }
            },
        }
    }
}

fn check_collection<'a>(
    context: &mut ValueContext,
    expected: &Type,
    element: &Type,
    entries: &'a Vec<RecordEntry>,
    levels: usize,
    events: &mut Vec<ValueEvent<'a>>,
)
    ensures
        final(context)@ == old(context)@,
        events_view(final(events)@) == events_view(old(events)@) + collection_events(
            old(context)@,
            expected@,
            element@,
            entries@,
            entries@.len(),
            levels as nat,
        ),
    decreases levels, 1nat,
{
    let ghost before = events_view(events@);
    let ghost outer = context@;
    let mut index: usize = 0;
    assert(before + collection_events(outer, expected@, element@, entries@, 0, levels as nat)
        =~= before);
    while index < entries.len()
        invariant
            index <= entries.len(),
            context@ == outer,
            events_view(events@) == before + collection_events(
                outer,
                expected@,
                element@,
                entries@,
                index as nat,
                levels as nat,
            ),
        decreases entries.len() - index,
    {
        match &entries[index] {
            RecordEntry::Element(value) => {
                check_value(context, element, value, levels, events);
            },
            RecordEntry::Spread { value, .. } => {
                check_value(context, expected, value, levels, events);
            },
            _ => push_event(events, ValueEvent::Walk(&entries[index])),
        }
        assert(events_view(events@) =~= before + collection_events(
            outer,
            expected@,
            element@,
            entries@,
            (index + 1) as nat,
            levels as nat,
        ));
        index += 1;
    }
}

/// Whether a finding names fields that are asked for and entries that are there, with values
/// where they are looked at.
spec fn is_in_place(finding: RecordFinding, asked: nat, entries: Seq<RecordEntry>) -> bool {
    match finding {
        RecordFinding::Compare { required, present } => required < asked && present
            < entries.len() && added_value(entries[present as int]) is Some,
        RecordFinding::Missing { required } => required < asked,
        RecordFinding::Unexpected { present } => present < entries.len(),
        RecordFinding::CheckAlone { present } => present < entries.len() && added_value(
            entries[present as int],
        ) is Some,
    }
}

proof fn asked_fields_are_in_place(
    expected: Seq<SpecRowEntry>,
    entries: Seq<RecordEntry>,
    definitions: Map<Seq<char>, SpecType>,
    count: nat,
)
    requires
        count <= expected.len() <= usize::MAX,
        entries.len() <= usize::MAX,
    ensures
        forall|i: int|
            0 <= i < crate::comparison::asked_field_findings(
                expected,
                entries,
                definitions,
                count,
            ).len() ==> is_in_place(
                #[trigger] crate::comparison::asked_field_findings(
                    expected,
                    entries,
                    definitions,
                    count,
                )[i],
                expected.len(),
                entries,
            ),
    decreases count,
{
    if count > 0 {
        asked_fields_are_in_place(expected, entries, definitions, (count - 1) as nat);
        let names = crate::comparison::added_names(entries);
        crate::comparison::position_is_in_range(names, expected[count - 1]->Field_name);
        let earlier = crate::comparison::asked_field_findings(
            expected,
            entries,
            definitions,
            (count - 1) as nat,
        );
        let all = crate::comparison::asked_field_findings(expected, entries, definitions, count);
        assert forall|i: int| 0 <= i < all.len() implies is_in_place(
            #[trigger] all[i],
            expected.len(),
            entries,
        ) by {
            if i < earlier.len() {
                assert(all[i] == earlier[i]);
            }
        }
    }
}

proof fn other_fields_are_in_place(expected: SpecRow, entries: Seq<RecordEntry>, count: nat)
    requires
        count <= entries.len() <= usize::MAX,
    ensures
        forall|i: int|
            0 <= i < crate::comparison::other_field_findings(expected, entries, count).len()
                ==> is_in_place(
                #[trigger] crate::comparison::other_field_findings(expected, entries, count)[i],
                expected.entries.len(),
                entries,
            ),
    decreases count,
{
    if count > 0 {
        other_fields_are_in_place(expected, entries, (count - 1) as nat);
        let earlier = crate::comparison::other_field_findings(
            expected,
            entries,
            (count - 1) as nat,
        );
        let all = crate::comparison::other_field_findings(expected, entries, count);
        assert forall|i: int| 0 <= i < all.len() implies is_in_place(
            #[trigger] all[i],
            expected.entries.len(),
            entries,
        ) by {
            if i < earlier.len() {
                assert(all[i] == earlier[i]);
            }
        }
    }
}

fn check_record<'a>(
    context: &mut ValueContext,
    expected: &Type,
    row: &Row,
    value: &'a Expr,
    entries: &'a Vec<RecordEntry>,
    levels: usize,
    events: &mut Vec<ValueEvent<'a>>,
)
    requires
        value.kind == ExprKind::Record(*entries),
        expected@ == SpecType::Record(row@),
    ensures
        final(context)@ == old(context)@,
        events_view(final(events)@) == events_view(old(events)@) + shape_events(
            old(context)@,
            expected@,
            *value,
            levels as nat,
        ),
    decreases levels, 2nat,
{
    let ghost before = events_view(events@);
    let ghost outer = context@;
    let ghost first = seq![SpecValueEvent::Markers { entries: entries@, record: true }];
    push_event(events, ValueEvent::Markers { entries, record: true });
    match crate::bodies::check_record_value_against(row, entries) {
        crate::bodies::RecordCheck::Walk => {
            walk_all(entries, events);
            proof {
                additions_associate(before, first, walk_events(entries@));
            }
        },
        crate::bodies::RecordCheck::Compare(_) => {
            note_shorthands(entries, events);
            let ghost names = shorthand_events(entries@, entries@.len());
            if let Some(findings) = compare_record_value(row, entries, &context.facts.definitions) {
                proof {
                    assert(row@.entries.len() == row.entries.len());
                    assert(entries@.len() == entries.len());
                    asked_fields_are_in_place(
                        row@.entries,
                        entries@,
                        outer.facts.definitions,
                        row@.entries.len(),
                    );
                    other_fields_are_in_place(row@, entries@, entries@.len());
                    let asked = crate::comparison::asked_field_findings(
                        row@.entries,
                        entries@,
                        outer.facts.definitions,
                        row@.entries.len(),
                    );
                    let other = crate::comparison::other_field_findings(
                        row@,
                        entries@,
                        entries@.len(),
                    );
                    assert(findings@ == asked + other);
                    assert forall|i: int| 0 <= i < findings@.len() implies is_in_place(
                        #[trigger] findings@[i],
                        row@.entries.len(),
                        entries@,
                    ) by {
                        if i < asked.len() {
                            assert(findings@[i] == asked[i]);
                        } else {
                            assert(findings@[i] == other[i - asked.len()]);
                        }
                    }
                }
                check_fields(context, row, entries, value.span, &findings, levels, events);
                proof {
                    let fields = fields_events(
                        outer,
                        row@,
                        entries@,
                        value.span,
                        findings@,
                        levels as nat,
                    );
                    assert(before + first + names + fields =~= before + (first + (names
                        + fields)));
                }
            }
        },
        crate::bodies::RecordCheck::Infer => {
            let ghost asked = seq![
                SpecValueEvent::InferRecord {
                    value: *value,
                    entries: entries@,
                    expected: expected@,
                    active: outer.active(),
                },
            ];
            push_event(
                events,
                ValueEvent::InferRecord {
                    value,
                    entries,
                    expected: expected.clone(),
                    active: copy_active(&context.comparison.active),
                },
            );
            walk_all(entries, events);
            proof {
                let walked = walk_events(entries@);
                assert(before + first + asked + walked =~= before + (first + (asked + walked)));
            }
        },
    }
}

fn check_fields<'a>(
    context: &mut ValueContext,
    row: &Row,
    entries: &'a Vec<RecordEntry>,
    span: Span,
    findings: &Vec<RecordFinding>,
    levels: usize,
    events: &mut Vec<ValueEvent<'a>>,
)
    requires
        all_fields(row@),
        lists_fields(entries@),
        forall|i: int|
            0 <= i < findings.len() ==> is_in_place(
                #[trigger] findings@[i],
                row@.entries.len(),
                entries@,
            ),
    ensures
        final(context)@ == old(context)@,
        events_view(final(events)@) == events_view(old(events)@) + fields_events(
            old(context)@,
            row@,
            entries@,
            span,
            findings@,
            levels as nat,
        ),
    decreases levels, 1nat,
{
    let ghost all = findings@;
    let ghost before = events_view(events@);
    let ghost outer = context@;
    assert(row@.entries.len() == row.entries.len());
    let mut index: usize = 0;
    assert(before + fields_events(outer, row@, entries@, span, all.take(0), levels as nat)
        =~= before);
    while index < findings.len()
        invariant
            index <= findings.len(),
            all == findings@,
            context@ == outer,
            all_fields(row@),
            lists_fields(entries@),
            row@.entries.len() == row.entries.len(),
            forall|i: int|
                0 <= i < findings.len() ==> is_in_place(
                    #[trigger] findings@[i],
                    row@.entries.len(),
                    entries@,
                ),
            events_view(events@) == before + fields_events(
                outer,
                row@,
                entries@,
                span,
                all.take(index as int),
                levels as nat,
            ),
        decreases findings.len() - index,
    {
        let ghost longer = all.take(index + 1);
        assert(longer.drop_last() =~= all.take(index as int));
        assert(longer.last() == findings@[index as int]);
        assert(is_in_place(findings@[index as int], row@.entries.len(), entries@));
        match findings[index] {
            RecordFinding::Compare { required, present } => {
                assert(row@.entries[required as int] == row.entries@[required as int]@);
                assert(row@.entries[required as int] is Field);
                if let RowEntry::Field { ty, .. } = &row.entries[required] {
                    if let RecordEntry::Field { value, .. } = &entries[present] {
                        check_value(context, ty, value, levels, events);
                    }
                }
            },
            RecordFinding::Missing { required } => {
                assert(row@.entries[required as int] == row.entries@[required as int]@);
                assert(row@.entries[required as int] is Field);
                if let RowEntry::Field { name, .. } = &row.entries[required] {
                    push_event(events, ValueEvent::MissingField { name: name.clone(), span });
                }
            },
            RecordFinding::Unexpected { present } => {
                assert(crate::syntax::adds_field(entries@[present as int]));
                match &entries[present] {
                    RecordEntry::Field { name, name_span, .. } => push_event(
                        events,
                        ValueEvent::UnexpectedField { name: name.clone(), span: *name_span },
                    ),
                    RecordEntry::Shorthand { name, name_span, .. } => push_event(
                        events,
                        ValueEvent::UnexpectedField { name: name.clone(), span: *name_span },
                    ),
                    _ => {},
                }
            },
            RecordFinding::CheckAlone { present } => {
                if let RecordEntry::Field { value, .. } = &entries[present] {
                    push_event(events, ValueEvent::Check(value));
                }
            },
        }
        assert(events_view(events@) =~= before + fields_events(
            outer,
            row@,
            entries@,
            span,
            longer,
            levels as nat,
        ));
        index += 1;
    }
    assert(all.take(all.len() as int) =~= all);
}

} // verus!
