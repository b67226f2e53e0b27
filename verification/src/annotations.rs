//! The types that annotations stand for.
//!
//! What is computed at compile time comes in as facts: what a name stands for, what
//! an application evaluates to, which labels a key has. What is to be said or looked
//! at goes out as events, in order.
use crate::access::{infer_tuple_index, tuple_index, TupleElement};
use crate::collections::{StringMap, StringSet};
use crate::normalize::{
    normal_form, normalize, strip_optional, take_nullable, unfold_recursive_type_once,
    unfolded_once, without_nullable, without_optional, RecursiveTypes,
};
use crate::row_edits::{
    annotation_row_source, annotation_source, edited, fold_row_entry, lower_variant_tag,
    DuplicateRowLabelContext, RowEdit, RowIssue, RowKind, RowOutcome, SpecOutcome, SpecRowEdit,
    SpecRowIssue, TagPlan, TailMerge,
};
use crate::rows::{field_type, row_field_type};
use crate::span::Span;
use crate::syntax::{
    call_callee_name, callee_name, is_collection_type_sugar, is_sugar, is_union, ungroup_expr,
    ungrouped, union_annotation_entries, union_entries, union_entries_view, written_set, Expr,
    ExprKind, RecordEntry, SpecUnionEntry, UnionEntry,
};
use crate::text::{begins_uppercase, same_text, starts_uppercase, texts_contain, texts_view};
use crate::type_ops::type_map_view;
use crate::types::{
    types_view, Literal, Row, RowEntry, RowTail, SpecRow, SpecRowEntry, SpecType, Type,
};
use vstd::prelude::*;

verus! {

// ---------------------------------------------------------------------------
// Facts
// ---------------------------------------------------------------------------
/// The types that are known by name.
#[derive(Debug)]
pub struct Definitions {
    pub types: StringMap<Type>,
    pub recursive: RecursiveTypes,
    pub builtin_types: Vec<String>,
    /// The names that may stand in an annotation.
    pub known_types: StringSet,
}

impl Definitions {
    pub open spec fn map(&self) -> Map<Seq<char>, SpecType> {
        type_map_view(self.types@)
    }
}

/// What is known at compile time where an annotation stands. Expressions are told
/// apart by their places.
#[derive(Debug)]
pub struct AnnotationFacts {
    /// What names stand for in the position of a type.
    pub reified: StringMap<Type>,
    /// What types without parameters evaluate to, if to a type.
    pub plain_types: StringMap<Option<Type>>,
    /// The names of functions that can be evaluated.
    pub comptime_functions: StringSet,
    /// The names that have a value.
    pub comptime_names: StringSet,
    /// The names that are imported from modules.
    pub imported_names: StringSet,
    /// The types that modules export, by the names that are bound to the modules.
    pub modules: StringMap<StringMap<Type>>,
    /// The types that applications evaluate to.
    pub applications: Vec<(Span, Type)>,
    /// The labels that keys stand for.
    pub labels: Vec<(Span, String)>,
    /// The labels that names stand for.
    pub label_sets: StringMap<Vec<String>>,
    /// The rounds of iterations over known labels.
    pub iterations: Vec<(Span, Vec<Round>)>,
}

/// What is known in one round of an iteration.
#[derive(Debug)]
pub struct Round {
    /// Whether the guard holds, if that is known.
    pub guard: Option<bool>,
    pub facts: AnnotationFacts,
}

/// The position of the first entry for a place.
pub open spec fn place_position<T>(entries: Seq<(Span, T)>, span: Span, from: int) -> Option<int>
    decreases entries.len() - from,
{
    if from < 0 || from >= entries.len() {
        None
    } else if entries[from].0 == span {
        Some(from)
    } else {
        place_position(entries, span, from + 1)
    }
}

/// Find what stands at a place.
pub fn find_place<T>(entries: &Vec<(Span, T)>, span: Span) -> (found: Option<&T>)
    ensures
        match place_position(entries@, span, 0) {
            Some(position) => 0 <= position < entries.len() && found == Some(
                &entries@[position].1,
            ),
            None => found is None,
        },
{
    let mut index: usize = 0;
    while index < entries.len()
        invariant
            index <= entries.len(),
            place_position(entries@, span, 0) == place_position(entries@, span, index as int),
        decreases entries.len() - index,
    {
        if entries[index].0 == span {
            return Some(&entries[index].1);
        }
        index += 1;
    }
    None
}

impl AnnotationFacts {
    /// The type that an application evaluates to.
    pub open spec fn application(&self, span: Span) -> Option<SpecType> {
        match place_position(self.applications@, span, 0) {
            Some(position) => Some(self.applications@[position].1@),
            None => None,
        }
    }

    /// The label that a key stands for.
    pub open spec fn label(&self, key: Expr) -> Option<Seq<char>> {
        match place_position(self.labels@, key.span, 0) {
            Some(position) => Some(self.labels@[position].1@),
            None => None,
        }
    }

    /// The rounds of an iteration.
    pub open spec fn rounds(&self, span: Span) -> Option<Seq<Round>> {
        match place_position(self.iterations@, span, 0) {
            Some(position) => Some(self.iterations@[position].1@),
            None => None,
        }
    }

    /// The labels that a name removes: those that it stands for, or its own.
    pub open spec fn deleted(&self, name: Seq<char>) -> Seq<Seq<char>> {
        if self.label_sets@.contains_key(name) {
            texts_view(self.label_sets@[name]@)
        } else {
            seq![name]
        }
    }
}

// ---------------------------------------------------------------------------
// Events
// ---------------------------------------------------------------------------
/// What is to be said or looked at on the way.
#[derive(Debug)]
#[allow(inconsistent_fields)]
pub enum AnnotationEvent<'a> {
    /// A type name that is not known.
    UnknownType { name: &'a str, span: Span },
    /// A type that is applied in brackets.
    BracketApplication { span: Span },
    /// A type that a module does not export.
    UnknownModuleType { name: &'a str, span: Span },
    /// An application of an imported name that cannot be evaluated.
    Unexpandable { name: &'a str, span: Span },
    LowercaseTag { name: &'a str, span: Span },
    RowIssue { issue: RowIssue, span: Span },
    /// The type that a spread may put in place of a field's is held against it.
    Compare { expected: Type, actual: Type, span: Span },
    /// A tail stands for the merging of two others.
    MergeTails { merge: TailMerge, span: Span },
    IndexNotKnown { span: Span },
    IndexOutOfRange { span: Span, index: usize, length: usize },
    /// A type without parameters is evaluated.
    EvaluateName { name: &'a str, span: Span },
    /// The arguments of a function at compile time are looked at.
    CheckArguments(&'a Expr),
    /// An application is evaluated.
    Evaluate(&'a Expr),
    /// A value is checked.
    CheckValue(&'a Expr),
    /// The parts of an expression that is no type are read as annotations.
    LookInside(&'a Expr),
}

/// What is to be said or looked at on the way.
#[allow(inconsistent_fields)]
pub ghost enum SpecEvent {
    UnknownType { name: Seq<char>, span: Span },
    BracketApplication { span: Span },
    UnknownModuleType { name: Seq<char>, span: Span },
    Unexpandable { name: Seq<char>, span: Span },
    LowercaseTag { name: Seq<char>, span: Span },
    RowIssue { issue: SpecRowIssue, span: Span },
    Compare { expected: SpecType, actual: SpecType, span: Span },
    MergeTails { merge: TailMerge, span: Span },
    IndexNotKnown { span: Span },
    IndexOutOfRange { span: Span, index: nat, length: nat },
    EvaluateName { name: Seq<char>, span: Span },
    CheckArguments(Expr),
    Evaluate(Expr),
    CheckValue(Expr),
    LookInside(Expr),
}

impl AnnotationEvent<'_> {
    pub open spec fn view(&self) -> SpecEvent {
        match self {
            AnnotationEvent::UnknownType { name, span } => SpecEvent::UnknownType {
                name: name@,
                span: *span,
            },
            AnnotationEvent::BracketApplication { span } => SpecEvent::BracketApplication {
                span: *span,
            },
            AnnotationEvent::UnknownModuleType { name, span } => SpecEvent::UnknownModuleType {
                name: name@,
                span: *span,
            },
            AnnotationEvent::Unexpandable { name, span } => SpecEvent::Unexpandable {
                name: name@,
                span: *span,
            },
            AnnotationEvent::LowercaseTag { name, span } => SpecEvent::LowercaseTag {
                name: name@,
                span: *span,
            },
            AnnotationEvent::RowIssue { issue, span } => SpecEvent::RowIssue {
                issue: issue@,
                span: *span,
            },
            AnnotationEvent::Compare { expected, actual, span } => SpecEvent::Compare {
                expected: expected@,
                actual: actual@,
                span: *span,
            },
            AnnotationEvent::MergeTails { merge, span } => SpecEvent::MergeTails {
                merge: *merge,
                span: *span,
            },
            AnnotationEvent::IndexNotKnown { span } => SpecEvent::IndexNotKnown { span: *span },
            AnnotationEvent::IndexOutOfRange { span, index, length } => {
                SpecEvent::IndexOutOfRange {
                    span: *span,
                    index: *index as nat,
                    length: *length as nat,
                }
            },
            AnnotationEvent::EvaluateName { name, span } => SpecEvent::EvaluateName {
                name: name@,
                span: *span,
            },
            AnnotationEvent::CheckArguments(expr) => SpecEvent::CheckArguments(**expr),
            AnnotationEvent::Evaluate(expr) => SpecEvent::Evaluate(**expr),
            AnnotationEvent::CheckValue(expr) => SpecEvent::CheckValue(**expr),
            AnnotationEvent::LookInside(expr) => SpecEvent::LookInside(**expr),
        }
    }
}

pub open spec fn events_view(events: Seq<AnnotationEvent<'_>>) -> Seq<SpecEvent> {
    Seq::new(events.len(), |i: int| events[i]@)
}

fn emit<'a>(events: &mut Vec<AnnotationEvent<'a>>, event: AnnotationEvent<'a>)
    ensures
        events_view(final(events)@) == events_view(old(events)@) + seq![event@],
{
    events.push(event);
    assert(events_view(events@) =~= events_view(old(events)@) + seq![event@]);
}

// ---------------------------------------------------------------------------
// The meaning of annotations
// ---------------------------------------------------------------------------
/// What an annotation comes to: its type, what is said on the way, and the number
/// of the next unknown tail.
pub ghost struct Lowering {
    pub ty: SpecType,
    pub events: Seq<SpecEvent>,
    pub next: u32,
}

/// What some annotations come to.
pub ghost struct ListLowering {
    pub types: Seq<SpecType>,
    pub events: Seq<SpecEvent>,
    pub next: u32,
}

/// What a tag of a variant annotation comes to.
pub ghost struct TagLowering {
    pub entry: Option<SpecRowEntry>,
    pub events: Seq<SpecEvent>,
    pub next: u32,
}

/// What the entries of a row come to: the row, unless it has no type.
pub ghost struct Folding {
    pub row: Option<SpecRow>,
    pub events: Seq<SpecEvent>,
    pub next: u32,
}

/// What is said of entries whose row has no type.
pub ghost struct Deferral {
    pub events: Seq<SpecEvent>,
    pub next: u32,
}

pub open spec fn plain(ty: SpecType, next: u32) -> Lowering {
    Lowering { ty, events: Seq::empty(), next }
}

/// The number after a number. The numbers begin anew after the last.
pub open spec fn successor(number: u32) -> u32 {
    if number == u32::MAX {
        0
    } else {
        (number + 1) as u32
    }
}

/// The type that a name stands for where it is indexed.
pub open spec fn indexed_type(callee: Expr, known: Definitions, facts: AnnotationFacts) -> Option<
    SpecType,
> {
    match callee_name(callee) {
        Some(name) => if facts.reified@.contains_key(name) {
            Some(facts.reified@[name]@)
        } else if known.types@.contains_key(name) {
            Some(known.types@[name]@)
        } else {
            None
        },
        None => None,
    }
}

/// What an index of a type comes to: the type of an element or a field. Other
/// types are applied instead.
pub open spec fn type_index(
    callee: Expr,
    args: Seq<Expr>,
    known: Definitions,
    facts: AnnotationFacts,
    next: u32,
) -> Option<Lowering> {
    match indexed_type(callee, known, facts) {
        None => None,
        Some(subject) => if args.len() != 1 {
            Some(plain(SpecType::Deferred, next))
        } else {
            match unfolded_once(normal_form(subject, known.map()), known.recursive) {
                SpecType::Tuple(items) => match tuple_index(args[0]) {
                    None => Some(
                        Lowering {
                            ty: SpecType::Deferred,
                            events: seq![SpecEvent::IndexNotKnown { span: args[0].span }],
                            next,
                        },
                    ),
                    Some(index) => if index < items.len() {
                        Some(plain(items[index as int], next))
                    } else {
                        Some(
                            Lowering {
                                ty: SpecType::Deferred,
                                events: seq![
                                    SpecEvent::IndexOutOfRange {
                                        span: args[0].span,
                                        index,
                                        length: items.len(),
                                    },
                                ],
                                next,
                            },
                        )
                    },
                },
                SpecType::Record(row) => if row.tail is Closed {
                    match facts.label(args[0]) {
                        Some(label) => match field_type(row, label) {
                            Some(ty) => Some(plain(ty, next)),
                            None => Some(plain(SpecType::Deferred, next)),
                        },
                        None => Some(plain(SpecType::Deferred, next)),
                    }
                } else {
                    Some(plain(SpecType::Deferred, next))
                },
                _ => None,
            }
        },
    }
}

/// Whether what is called is a type constructor.
pub open spec fn is_constructor(callee: Expr, known: Definitions) -> bool {
    match callee_name(callee) {
        Some(name) => texts_view(known.builtin_types@).contains(name)
            || known.known_types@.contains(name) || starts_uppercase(name),
        None => false,
    }
}

/// Whether what is called is a function that can be evaluated and makes types.
pub open spec fn is_type_function(callee: Expr, facts: AnnotationFacts) -> bool {
    match callee_name(callee) {
        Some(name) => starts_uppercase(name) && facts.comptime_functions@.contains(name),
        None => false,
    }
}

/// The first arguments that are no names with a value: they are checked.
pub open spec fn checked_args(args: Seq<Expr>, facts: AnnotationFacts, count: nat) -> Seq<SpecEvent>
    decreases count,
{
    if count == 0 || count > args.len() {
        Seq::empty()
    } else {
        let earlier = checked_args(args, facts, (count - 1) as nat);
        match callee_name(args[count - 1]) {
            Some(name) => if facts.comptime_names@.contains(name) {
                earlier
            } else {
                earlier.push(SpecEvent::CheckValue(args[count - 1]))
            },
            None => earlier.push(SpecEvent::CheckValue(args[count - 1])),
        }
    }
}

/// The module whose type a field access names.
pub open spec fn module_name(receiver: Expr, facts: AnnotationFacts) -> Option<Seq<char>> {
    match ungrouped(receiver).kind {
        ExprKind::Name(name) => if facts.modules@.contains_key(name@) {
            Some(name@)
        } else {
            None
        },
        _ => None,
    }
}

/// What is said of a step in writing a row.
pub open spec fn outcome_events(outcome: SpecOutcome, span: Span) -> Seq<SpecEvent> {
    outcome.goals.map_values(
        |goal: (SpecType, SpecType)|
            SpecEvent::Compare { expected: goal.0, actual: goal.1, span },
    ) + outcome.issues.map_values(|issue: SpecRowIssue| SpecEvent::RowIssue { issue, span }) + (
    match outcome.merged_tails {
        Some(merge) => seq![SpecEvent::MergeTails { merge, span }],
        None => Seq::empty(),
    })
}

/// What comes of a step in writing a row, after what was said before.
pub open spec fn stepped(
    before: Seq<SpecEvent>,
    row: SpecRow,
    edit: SpecRowEdit,
    known: Definitions,
    span: Span,
    next: u32,
) -> Folding {
    let outcome = edited(row, edit, known.map(), next);
    Folding {
        row: outcome.row,
        events: before + outcome_events(outcome, span),
        next: if outcome.merged_tails is Some {
            successor(next)
        } else {
            next
        },
    }
}

/// A field that is added to a record.
pub open spec fn added_field(name: Seq<char>, ty: SpecType) -> SpecRowEdit {
    SpecRowEdit::Add {
        entry: SpecRowEntry::Field { name, ty },
        context: DuplicateRowLabelContext::RecordAdd,
    }
}

pub open spec fn empty_row() -> SpecRow {
    SpecRow { entries: Seq::empty(), tail: RowTail::Closed }
}

/// The type that a row comes to.
pub open spec fn row_type(folding: Folding, kind: RowKind) -> Lowering {
    Lowering {
        ty: match folding.row {
            Some(row) => match kind {
                RowKind::Record => SpecType::Record(row),
                RowKind::Variant => SpecType::Variant(row),
            },
            None => SpecType::Deferred,
        },
        events: folding.events,
        next: folding.next,
    }
}

/// The pair that an element of a record is.
pub open spec fn pair_of(value: Expr) -> Option<(Expr, Expr)>
    decreases value,
{
    match value.kind {
        ExprKind::Group(inner) => pair_of(*inner),
        ExprKind::Tuple(items) => if items@.len() == 2 {
            Some((items@[0], items@[1]))
        } else {
            None
        },
        _ => None,
    }
}

/// The second part of a pair is smaller than the whole.
pub proof fn pairs_are_smaller(value: Expr)
    requires
        pair_of(value) is Some,
    ensures
        decreases_to!(value => (pair_of(value)->0).1),
    decreases value,
{
    match value.kind {
        ExprKind::Group(inner) => {
            pairs_are_smaller(*inner);
        },
        ExprKind::Tuple(items) => {
            assert(decreases_to!(value => items@));
            assert(decreases_to!(items@ => items@[1]));
        },
        _ => {},
    }
}

proof fn set_entries_are_smaller(annotation: Expr, index: int)
    requires
        written_set(annotation) is Some,
        0 <= index < written_set(annotation)->0.len(),
    ensures
        decreases_to!(annotation => written_set(annotation)->0[index]),
    decreases annotation,
{
    match annotation.kind {
        ExprKind::Group(inner) => {
            set_entries_are_smaller(*inner, index);
        },
        ExprKind::SetLiteral(entries) => {
            assert(decreases_to!(annotation => entries@));
            assert(decreases_to!(entries@ => entries@[index]));
        },
        _ => {},
    }
}

/// The entries of a union are smaller than it is.
pub proof fn union_entries_are_smaller(annotation: Expr, index: int)
    requires
        is_union(annotation) || written_set(annotation) is Some,
        0 <= index < union_entries(annotation).len(),
    ensures
        match union_entries(annotation)[index] {
            SpecUnionEntry::Listed(entry) => decreases_to!(annotation => entry),
            SpecUnionEntry::Part(expr) => decreases_to!(annotation => expr),
        },
    decreases annotation,
{
    if is_union(annotation) {
        match annotation.kind {
            ExprKind::Group(inner) => {
                union_entries_are_smaller(*inner, index);
            },
            ExprKind::Binary { left, right, .. } => {
                let before = union_entries(*left);
                if index < before.len() {
                    if is_union(*left) || written_set(*left) is Some {
                        union_entries_are_smaller(*left, index);
                    }
                } else {
                    assert(union_entries(annotation)[index] == union_entries(*right)[index
                        - before.len()]);
                    if is_union(*right) || written_set(*right) is Some {
                        union_entries_are_smaller(*right, index - before.len());
                    }
                }
            },
            _ => {},
        }
    } else {
        set_entries_are_smaller(annotation, index);
    }
}

/// What an annotation comes to.
pub open spec fn lowered(
    annotation: Expr,
    known: Definitions,
    facts: AnnotationFacts,
    next: u32,
) -> Lowering
    decreases annotation, 2nat, 0nat,
{
    match annotation.kind {
        ExprKind::ComptimeName(name) => if facts.reified@.contains_key(name@) {
            plain(facts.reified@[name@]@, next)
        } else {
            let evaluated = if facts.plain_types@.contains_key(name@) {
                seq![SpecEvent::EvaluateName { name: name@, span: annotation.span }]
            } else {
                Seq::empty()
            };
            if facts.plain_types@.contains_key(name@) && facts.plain_types@[name@] is Some {
                Lowering { ty: facts.plain_types@[name@]->0@, events: evaluated, next }
            } else {
                Lowering {
                    ty: SpecType::Named(name@),
                    events: evaluated + (if known.known_types@.contains(name@) {
                        Seq::empty()
                    } else {
                        seq![SpecEvent::UnknownType { name: name@, span: annotation.span }]
                    }),
                    next,
                }
            }
        },
        ExprKind::Name(name) => if facts.reified@.contains_key(name@) {
            plain(facts.reified@[name@]@, next)
        } else {
            plain(SpecType::Variable(name@), next)
        },
        ExprKind::Group(inner) => lowered(*inner, known, facts, next),
        ExprKind::Index { callee, args } => match type_index(*callee, args@, known, facts, next) {
            Some(lowering) => lowering,
            None => {
                let said = if is_sugar(*callee, args@) {
                    Seq::empty()
                } else {
                    seq![SpecEvent::BracketApplication { span: annotation.span }]
                };
                let constructor = lowered(*callee, known, facts, next);
                let list = lowered_all(args@, known, facts, constructor.next, args@.len());
                Lowering {
                    ty: SpecType::Apply { callee: Box::new(constructor.ty), args: list.types },
                    events: said + constructor.events + list.events,
                    next: list.next,
                }
            },
        },
        ExprKind::Optional(inner) => {
            let payload = lowered(*inner, known, facts, next);
            Lowering { ty: SpecType::Optional(Box::new(payload.ty)), ..payload }
        },
        ExprKind::Nullable(inner) => {
            let payload = lowered(*inner, known, facts, next);
            Lowering { ty: SpecType::Nullable(Box::new(payload.ty)), ..payload }
        },
        ExprKind::NonNull(inner) => {
            let whole = lowered(*inner, known, facts, next);
            Lowering {
                ty: without_nullable(normal_form(whole.ty, known.map()), known.map()),
                ..whole
            }
        },
        ExprKind::Unary { operator, value, .. } => if operator@ == "!"@ {
            let whole = lowered(*value, known, facts, next);
            Lowering { ty: without_optional(normal_form(whole.ty, known.map())), ..whole }
        } else {
            looked(annotation, next)
        },
        ExprKind::Arrow { params, result } => {
            let list = lowered_all(params@, known, facts, next, params@.len());
            let end = lowered(*result, known, facts, list.next);
            Lowering {
                ty: SpecType::Function {
                    params: list.types,
                    result: Box::new(end.ty),
                    required: params@.len(),
                },
                events: list.events + end.events,
                next: end.next,
            }
        },
        ExprKind::Tuple(items) => {
            let list = lowered_all(items@, known, facts, next, items@.len());
            Lowering { ty: SpecType::Tuple(list.types), events: list.events, next: list.next }
        },
        ExprKind::Record(entries) => row_type(
            folded_rows(
                entries@,
                RowKind::Record,
                known,
                facts,
                empty_row(),
                next,
                entries@.len(),
            ),
            RowKind::Record,
        ),
        ExprKind::SetLiteral(entries) => row_type(
            folded_rows(
                entries@,
                RowKind::Variant,
                known,
                facts,
                empty_row(),
                next,
                entries@.len(),
            ),
            RowKind::Variant,
        ),
        ExprKind::FieldAccess { receiver, field, field_span, .. } => match module_name(
            *receiver,
            facts,
        ) {
            Some(module) => if facts.modules@[module]@.contains_key(field@) {
                plain(facts.modules@[module]@[field@]@, next)
            } else {
                Lowering {
                    ty: SpecType::Deferred,
                    events: seq![
                        SpecEvent::UnknownModuleType { name: field@, span: field_span },
                    ],
                    next,
                }
            },
            None => looked(annotation, next),
        },
        ExprKind::Binary { operator, .. } => if operator@ == "|"@ {
            row_type(
                folded_union(annotation, known, facts, next, union_entries(annotation).len()),
                RowKind::Variant,
            )
        } else {
            looked(annotation, next)
        },
        ExprKind::Literal(literal) => if literal is Regex {
            looked(annotation, next)
        } else {
            single(tag_lowered(annotation, known, facts, next), known, annotation.span)
        },
        ExprKind::Tag(_) => single(
            tag_lowered(annotation, known, facts, next),
            known,
            annotation.span,
        ),
        ExprKind::Call { callee, args } => if callee.kind is Tag {
            single(tag_lowered(annotation, known, facts, next), known, annotation.span)
        } else if is_constructor(*callee, known) && !is_type_function(*callee, facts) {
            let constructor = lowered(*callee, known, facts, next);
            let list = lowered_all(args@, known, facts, constructor.next, args@.len());
            Lowering {
                ty: SpecType::Apply { callee: Box::new(constructor.ty), args: list.types },
                events: constructor.events + list.events,
                next: list.next,
            }
        } else {
            evaluated_call(annotation, *callee, args@, facts, next)
        },
        ExprKind::Missing => plain(SpecType::Deferred, next),
        _ => looked(annotation, next),
    }
}

/// An expression that is no type.
pub open spec fn looked(annotation: Expr, next: u32) -> Lowering {
    Lowering {
        ty: SpecType::Deferred,
        events: seq![SpecEvent::LookInside(annotation)],
        next,
    }
}

/// A variant of one entry.
pub open spec fn single(tag: TagLowering, known: Definitions, span: Span) -> Lowering {
    row_type(
        match tag.entry {
            Some(entry) => stepped(
                tag.events,
                empty_row(),
                SpecRowEdit::AddVariant { entry },
                known,
                span,
                tag.next,
            ),
            None => Folding { row: None, events: tag.events, next: tag.next },
        },
        RowKind::Variant,
    )
}

/// What an application of a function at compile time comes to.
pub open spec fn evaluated_call(
    annotation: Expr,
    callee: Expr,
    args: Seq<Expr>,
    facts: AnnotationFacts,
    next: u32,
) -> Lowering {
    let said = if is_type_function(callee, facts) {
        seq![SpecEvent::Evaluate(annotation)]
    } else {
        seq![SpecEvent::CheckArguments(annotation), SpecEvent::Evaluate(annotation)]
    };
    match facts.application(annotation.span) {
        Some(ty) => Lowering {
            ty,
            events: if is_type_function(callee, facts) {
                said + checked_args(args, facts, args.len())
            } else {
                said
            },
            next,
        },
        None => Lowering {
            ty: SpecType::Deferred,
            events: said + (match callee_name(callee) {
                Some(name) => if facts.imported_names@.contains(name) {
                    seq![SpecEvent::Unexpandable { name, span: annotation.span }]
                } else {
                    Seq::empty()
                },
                None => Seq::empty(),
            }) + seq![SpecEvent::LookInside(annotation)],
            next,
        },
    }
}

/// What the first annotations come to.
pub open spec fn lowered_all(
    items: Seq<Expr>,
    known: Definitions,
    facts: AnnotationFacts,
    next: u32,
    count: nat,
) -> ListLowering
    decreases items, 0nat, count,
{
    if count == 0 || count > items.len() {
        ListLowering { types: Seq::empty(), events: Seq::empty(), next }
    } else {
        let earlier = lowered_all(items, known, facts, next, (count - 1) as nat);
        let last = lowered(items[count - 1], known, facts, earlier.next);
        ListLowering {
            types: earlier.types.push(last.ty),
            events: earlier.events + last.events,
            next: last.next,
        }
    }
}

/// What a tag of a variant annotation comes to.
pub open spec fn tag_lowered(
    tag: Expr,
    known: Definitions,
    facts: AnnotationFacts,
    next: u32,
) -> TagLowering
    decreases tag, 1nat, 0nat,
{
    match tag.kind {
        ExprKind::Tag(name) => TagLowering {
            entry: Some(SpecRowEntry::Tag { name: name@, payload: Seq::empty() }),
            events: Seq::empty(),
            next,
        },
        ExprKind::Name(name) => TagLowering {
            entry: Some(SpecRowEntry::Tag { name: name@, payload: Seq::empty() }),
            events: seq![SpecEvent::LowercaseTag { name: name@, span: tag.span }],
            next,
        },
        ExprKind::Literal(literal) => if literal is Regex {
            unread_tag(tag, next)
        } else {
            TagLowering {
                entry: Some(SpecRowEntry::Literal { value: literal@ }),
                events: Seq::empty(),
                next,
            }
        },
        ExprKind::Call { callee, args } => match callee.kind {
            ExprKind::Tag(name) => {
                let list = lowered_all(args@, known, facts, next, args@.len());
                TagLowering {
                    entry: Some(SpecRowEntry::Tag { name: name@, payload: list.types }),
                    events: list.events,
                    next: list.next,
                }
            },
            ExprKind::Name(name) => {
                let list = lowered_all(args@, known, facts, next, args@.len());
                TagLowering {
                    entry: Some(SpecRowEntry::Tag { name: name@, payload: list.types }),
                    events: seq![SpecEvent::LowercaseTag { name: name@, span: callee.span }]
                        + list.events,
                    next: list.next,
                }
            },
            _ => unread_tag(tag, next),
        },
        _ => unread_tag(tag, next),
    }
}

/// An element of a variant annotation that is no tag.
pub open spec fn unread_tag(tag: Expr, next: u32) -> TagLowering {
    TagLowering { entry: None, events: seq![SpecEvent::LookInside(tag)], next }
}

/// What the first entries of a row come to. Once the row has no type, what the
/// others hold is still looked at.
pub open spec fn folded_rows(
    entries: Seq<RecordEntry>,
    kind: RowKind,
    known: Definitions,
    facts: AnnotationFacts,
    row: SpecRow,
    next: u32,
    count: nat,
) -> Folding
    decreases entries, 0nat, count,
{
    if count == 0 || count > entries.len() {
        Folding { row: Some(row), events: Seq::empty(), next }
    } else {
        let earlier = folded_rows(entries, kind, known, facts, row, next, (count - 1) as nat);
        match earlier.row {
            Some(row) => {
                let last = folded_entry(
                    entries[count - 1],
                    kind,
                    known,
                    facts,
                    row,
                    earlier.next,
                );
                Folding { events: earlier.events + last.events, ..last }
            },
            None => {
                let last = deferred(entries[count - 1], kind, known, facts, earlier.next);
                Folding { row: None, events: earlier.events + last.events, next: last.next }
            },
        }
    }
}

/// What an entry makes of a row.
pub open spec fn folded_entry(
    entry: RecordEntry,
    kind: RowKind,
    known: Definitions,
    facts: AnnotationFacts,
    row: SpecRow,
    next: u32,
) -> Folding
    decreases entry, 1nat, 0nat,
{
    let unread = Folding { row: None, events: Seq::empty(), next };
    let looked_at = {
        let deferral = deferred(entry, kind, known, facts, next);
        Folding { row: None, events: deferral.events, next: deferral.next }
    };
    match entry {
        RecordEntry::Field { name, value, overwrite, span, .. } => if kind is Variant {
            unread
        } else {
            let ty = lowered(*value, known, facts, next);
            stepped(
                ty.events,
                row,
                if overwrite {
                    SpecRowEdit::Replace { name: name@, ty: ty.ty }
                } else {
                    added_field(name@, ty.ty)
                },
                known,
                span,
                ty.next,
            )
        },
        RecordEntry::FieldComputed { key, value, span } => match facts.label(*key) {
            None => looked_at,
            Some(label) => {
                let ty = lowered(*value, known, facts, next);
                if kind is Variant {
                    Folding { row: None, events: ty.events, next: ty.next }
                } else {
                    stepped(ty.events, row, added_field(label, ty.ty), known, span, ty.next)
                }
            },
        },
        RecordEntry::Delete { name, span } => stepped(
            Seq::empty(),
            row,
            SpecRowEdit::Delete { labels: facts.deleted(name@) },
            known,
            span,
            next,
        ),
        RecordEntry::DeleteComputed { key, span } => match facts.label(*key) {
            Some(label) => if row.tail is Closed {
                stepped(
                    Seq::empty(),
                    row,
                    SpecRowEdit::Delete { labels: seq![label] },
                    known,
                    span,
                    next,
                )
            } else {
                looked_at
            },
            None => looked_at,
        },
        RecordEntry::Rename { from, to, span, .. } => stepped(
            Seq::empty(),
            row,
            SpecRowEdit::Rename { from: from@, to: to@ },
            known,
            span,
            next,
        ),
        RecordEntry::Spread { value, overwrite, span } => {
            let ty = lowered(*value, known, facts, next);
            match annotation_source(normal_form(ty.ty, known.map()), kind) {
                Some(source) => stepped(
                    ty.events,
                    row,
                    SpecRowEdit::Merge { source, overwrite, kind },
                    known,
                    span,
                    ty.next,
                ),
                None => Folding { row: None, events: ty.events, next: ty.next },
            }
        },
        RecordEntry::Open { span } => stepped(
            Seq::empty(),
            row,
            SpecRowEdit::Open,
            known,
            span,
            next,
        ),
        RecordEntry::Iteration { span, .. } => match (kind, facts.rounds(span)) {
            (RowKind::Record, Some(rounds)) => iterated(
                entry,
                rounds,
                known,
                facts,
                row,
                next,
                rounds.len(),
            ),
            _ => looked_at,
        },
        RecordEntry::Element(value) => match kind {
            RowKind::Variant => {
                let tag = tag_lowered(*value, known, facts, next);
                match tag.entry {
                    Some(entry) => stepped(
                        tag.events,
                        row,
                        SpecRowEdit::AddVariant { entry },
                        known,
                        value.span,
                        tag.next,
                    ),
                    None => Folding { row: None, events: tag.events, next: tag.next },
                }
            },
            RowKind::Record => {
                proof {
                    if pair_of(*value) is Some {
                        pairs_are_smaller(*value);
                    }
                }
                match pair_of(*value) {
                    Some((key, field)) => match facts.label(key) {
                        Some(label) => {
                            let ty = lowered(field, known, facts, next);
                            stepped(
                                ty.events,
                                row,
                                added_field(label, ty.ty),
                                known,
                                value.span,
                                ty.next,
                            )
                        },
                        None => looked_at,
                    },
                    None => looked_at,
                }
            },
        },
        _ => unread,
    }
}

/// What the first rounds of an iteration make of a row.
pub open spec fn iterated(
    entry: RecordEntry,
    rounds: Seq<Round>,
    known: Definitions,
    facts: AnnotationFacts,
    row: SpecRow,
    next: u32,
    count: nat,
) -> Folding
    decreases entry, 0nat, count,
{
    if count == 0 || count > rounds.len() || !(entry is Iteration) {
        Folding { row: Some(row), events: Seq::empty(), next }
    } else {
        let earlier = iterated(entry, rounds, known, facts, row, next, (count - 1) as nat);
        match earlier.row {
            None => earlier,
            Some(row) => {
                let round = rounds[count - 1];
                let body = entry->body@;
                match (entry->guard, round.guard) {
                    (Some(_), Some(false)) => earlier,
                    (Some(guard), None) => {
                        let condition = lowered(*guard, known, round.facts, earlier.next);
                        let rest = deferred_rows(
                            body,
                            RowKind::Record,
                            known,
                            round.facts,
                            condition.next,
                            body.len(),
                        );
                        Folding {
                            row: None,
                            events: earlier.events + condition.events + rest.events,
                            next: rest.next,
                        }
                    },
                    _ => {
                        let last = folded_rows(
                            body,
                            RowKind::Record,
                            known,
                            round.facts,
                            row,
                            earlier.next,
                            body.len(),
                        );
                        Folding { events: earlier.events + last.events, ..last }
                    },
                }
            },
        }
    }
}

/// What is said of an entry whose row has no type.
pub open spec fn deferred(
    entry: RecordEntry,
    kind: RowKind,
    known: Definitions,
    facts: AnnotationFacts,
    next: u32,
) -> Deferral
    decreases entry, 0nat, 0nat,
{
    match entry {
        RecordEntry::Field { value, .. } => said_of(lowered(*value, known, facts, next)),
        RecordEntry::Spread { value, .. } => said_of(lowered(*value, known, facts, next)),
        RecordEntry::DeleteComputed { key, .. } => said_of(lowered(*key, known, facts, next)),
        RecordEntry::FieldComputed { key, value, .. } => {
            let first = lowered(*key, known, facts, next);
            let second = lowered(*value, known, facts, first.next);
            Deferral { events: first.events + second.events, next: second.next }
        },
        RecordEntry::Element(value) => match kind {
            RowKind::Record => said_of(lowered(*value, known, facts, next)),
            RowKind::Variant => {
                let tag = tag_lowered(*value, known, facts, next);
                Deferral { events: tag.events, next: tag.next }
            },
        },
        RecordEntry::Iteration { source, guard, body, .. } => {
            let first = lowered(*source, known, facts, next);
            let second = match guard {
                Some(guard) => said_of(lowered(*guard, known, facts, first.next)),
                None => Deferral { events: Seq::empty(), next: first.next },
            };
            let rest = deferred_rows(body@, kind, known, facts, second.next, body@.len());
            Deferral { events: first.events + second.events + rest.events, next: rest.next }
        },
        _ => Deferral { events: Seq::empty(), next },
    }
}

pub open spec fn said_of(lowering: Lowering) -> Deferral {
    Deferral { events: lowering.events, next: lowering.next }
}

/// What is said of the first entries whose row has no type.
pub open spec fn deferred_rows(
    entries: Seq<RecordEntry>,
    kind: RowKind,
    known: Definitions,
    facts: AnnotationFacts,
    next: u32,
    count: nat,
) -> Deferral
    decreases entries, 0nat, count,
{
    if count == 0 || count > entries.len() {
        Deferral { events: Seq::empty(), next }
    } else {
        let earlier = deferred_rows(entries, kind, known, facts, next, (count - 1) as nat);
        let last = deferred(entries[count - 1], kind, known, facts, earlier.next);
        Deferral { events: earlier.events + last.events, next: last.next }
    }
}

/// What the first entries of a union come to.
pub open spec fn folded_union(
    annotation: Expr,
    known: Definitions,
    facts: AnnotationFacts,
    next: u32,
    count: nat,
) -> Folding
    decreases annotation, 1nat, count,
    when is_union(annotation)
{
    if count == 0 || count > union_entries(annotation).len() {
        Folding { row: Some(empty_row()), events: Seq::empty(), next }
    } else {
        let earlier = folded_union(annotation, known, facts, next, (count - 1) as nat);
        proof {
            union_entries_are_smaller(annotation, count - 1);
        }
        match union_entries(annotation)[count - 1] {
            SpecUnionEntry::Listed(entry) => match earlier.row {
                Some(row) => {
                    let last = folded_entry(
                        entry,
                        RowKind::Variant,
                        known,
                        facts,
                        row,
                        earlier.next,
                    );
                    Folding { events: earlier.events + last.events, ..last }
                },
                None => {
                    let last = deferred(entry, RowKind::Variant, known, facts, earlier.next);
                    Folding { row: None, events: earlier.events + last.events, next: last.next }
                },
            },
            SpecUnionEntry::Part(expr) => {
                let tag = tag_lowered(expr, known, facts, earlier.next);
                match (earlier.row, tag.entry) {
                    (Some(row), Some(entry)) => stepped(
                        earlier.events + tag.events,
                        row,
                        SpecRowEdit::AddVariant { entry },
                        known,
                        expr.span,
                        tag.next,
                    ),
                    _ => Folding {
                        row: None,
                        events: earlier.events + tag.events,
                        next: tag.next,
                    },
                }
            },
        }
    }
}

// ---------------------------------------------------------------------------
// Reading annotations
// ---------------------------------------------------------------------------
fn advance(next: &mut u32)
    ensures
        *final(next) == successor(*old(next)),
{
    if *next == u32::MAX {
        *next = 0;
    } else {
        *next = *next + 1;
    }
}

/// Take a step in writing a row, and say what is to be said of it.
fn take_step<'a>(
    row: Row,
    edit: RowEdit,
    known: &Definitions,
    span: Span,
    next: &mut u32,
    events: &mut Vec<AnnotationEvent<'a>>,
) -> (after: Option<Row>)
    ensures
        ({
            let folding = stepped(
                events_view(old(events)@),
                row@,
                edit@,
                *known,
                span,
                *old(next),
            );
            &&& crate::rows::owned_row_view(after) == folding.row
            &&& events_view(final(events)@) == folding.events
            &&& *final(next) == folding.next
        }),
{
    let ghost before = events_view(events@);
    let RowOutcome { row: after, issues, goals, merged_tails } = fold_row_entry(
        row,
        edit,
        &known.types,
        *next,
    );
    let ghost outcome = edited(row@, edit@, known.map(), *next);
    let ghost compared = outcome.goals.map_values(
        |goal: (SpecType, SpecType)|
            SpecEvent::Compare { expected: goal.0, actual: goal.1, span },
    );
    let ghost said = outcome.issues.map_values(
        |issue: SpecRowIssue| SpecEvent::RowIssue { issue, span },
    );
    assert(crate::comparison::pairs_view(goals@) == outcome.goals);
    assert(crate::row_edits::row_issues_view(issues@) == outcome.issues);
    let mut goals = goals;
    let mut issues = issues;
    let mut index: usize = 0;
    assert(before + compared.take(0) =~= before);
    while index < goals.len()
        invariant
            index <= goals.len(),
            crate::comparison::pairs_view(goals@) == outcome.goals,
            compared == outcome.goals.map_values(
                |goal: (SpecType, SpecType)|
                    SpecEvent::Compare { expected: goal.0, actual: goal.1, span },
            ),
            events_view(events@) == before + compared.take(index as int),
        decreases goals.len() - index,
    {
        let expected = goals[index].0.clone();
        let actual = goals[index].1.clone();
        assert(outcome.goals[index as int] == (goals@[index as int].0@, goals@[index as int].1@));
        emit(events, AnnotationEvent::Compare { expected, actual, span });
        assert(before + compared.take(index + 1) =~= (before + compared.take(index as int))
            + seq![compared[index as int]]);
        index += 1;
    }
    assert(compared.take(index as int) =~= compared);
    let ghost middle = before + compared;
    assert(middle + said.take(0) =~= middle);
    let mut done: usize = 0;
    let ghost count = issues.len();
    while issues.len() > 0
        invariant
            count == outcome.issues.len(),
            done + issues.len() == count,
            forall|i: int| 0 <= i < issues.len() ==> (#[trigger] issues@[i])@
                == outcome.issues[done + i],
            said == outcome.issues.map_values(
                |issue: SpecRowIssue| SpecEvent::RowIssue { issue, span },
            ),
            events_view(events@) == middle + said.take(done as int),
        decreases issues.len(),
    {
        let ghost all = issues@;
        let issue = issues.remove(0);
        assert(issue@ == outcome.issues[done as int]);
        assert forall|i: int| 0 <= i < issues.len() implies (#[trigger] issues@[i])@
            == outcome.issues[done + 1 + i] by {
            assert(issues@[i] == all[i + 1]);
        }
        emit(events, AnnotationEvent::RowIssue { issue, span });
        assert(middle + said.take(done + 1) =~= (middle + said.take(done as int))
            + seq![said[done as int]]);
        done += 1;
    }
    assert(said.take(done as int) =~= said);
    if let Some(merge) = merged_tails {
        emit(events, AnnotationEvent::MergeTails { merge, span });
        advance(next);
    }
    assert(events_view(events@) =~= before + outcome_events(outcome, span));
    after
}

/// Whether what is called is a type constructor.
pub fn is_type_application_callee(callee: &Expr, known: &Definitions) -> (constructor: bool)
    ensures
        constructor == is_constructor(*callee, *known),
{
    match call_callee_name(callee) {
        Some(name) => texts_contain(&known.builtin_types, name) || known.known_types.contains(name)
            || begins_uppercase(name),
        None => false,
    }
}

/// Whether what is called is a function that can be evaluated and makes types.
pub fn is_uppercase_comptime_function_callee(callee: &Expr, facts: &AnnotationFacts) -> (function: bool)
    ensures
        function == is_type_function(*callee, *facts),
{
    match call_callee_name(callee) {
        Some(name) => begins_uppercase(name) && facts.comptime_functions.contains(name),
        None => false,
    }
}

fn known_label<'f>(key: &Expr, facts: &'f AnnotationFacts) -> (label: Option<&'f String>)
    ensures
        match facts.label(*key) {
            Some(text) => label is Some && label->0@ == text,
            None => label is None,
        },
{
    find_place(&facts.labels, key.span)
}

/// The type of an element or a field of a type that is indexed.
pub fn lower_comptime_type_index<'a>(
    callee: &Expr,
    args: &'a Vec<Expr>,
    known: &Definitions,
    facts: &AnnotationFacts,
    next: u32,
    events: &mut Vec<AnnotationEvent<'a>>,
) -> (ty: Option<Type>)
    ensures
        match type_index(*callee, args@, *known, *facts, next) {
            Some(lowering) => ty is Some && ty->0@ == lowering.ty && events_view(final(events)@)
                == events_view(old(events)@) + lowering.events,
            None => ty is None && final(events)@ == old(events)@,
        },
{
    let ghost before = events_view(events@);
    assert(before + Seq::<SpecEvent>::empty() =~= before);
    let name = match call_callee_name(callee) {
        Some(name) => name,
        None => {
            return None;
        },
    };
    let subject = match facts.reified.get(name) {
        Some(ty) => ty,
        None => match known.types.get(name) {
            Some(ty) => ty,
            None => {
                return None;
            },
        },
    };
    if args.len() != 1 {
        return Some(Type::Deferred);
    }
    let normal = normalize(subject, &known.types);
    match unfold_recursive_type_once(&normal, &known.recursive) {
        Type::Tuple(items) => {
            assert(types_view(items@).len() == items.len());
            match infer_tuple_index(&items, &args[0]) {
                TupleElement::Found(ty) => {
                    assert(types_view(items@)[tuple_index(args@[0])->0 as int] == ty@);
                    Some(ty)
                },
                TupleElement::NotKnown => {
                    emit(events, AnnotationEvent::IndexNotKnown { span: args[0].span });
                    Some(Type::Deferred)
                },
                TupleElement::OutOfRange { index, length } => {
                    emit(
                        events,
                        AnnotationEvent::IndexOutOfRange { span: args[0].span, index, length },
                    );
                    Some(Type::Deferred)
                },
            }
        },
        Type::Record(row) => {
            assert(row@.tail == row.tail);
            if !matches!(row.tail, RowTail::Closed) {
                return Some(Type::Deferred);
            }
            match known_label(&args[0], facts) {
                Some(label) => match row_field_type(&row, label.as_str()) {
                    Some(ty) => Some(ty.clone()),
                    None => Some(Type::Deferred),
                },
                None => Some(Type::Deferred),
            }
        },
        _ => None,
    }
}

fn pair_parts<'a>(value: &'a Expr) -> (pair: Option<(&'a Expr, &'a Expr)>)
    ensures
        match pair_of(*value) {
            Some((key, field)) => pair is Some && *(pair->0).0 == key && *(pair->0).1 == field,
            None => pair is None,
        },
    decreases value,
{
    match &value.kind {
        ExprKind::Group(inner) => pair_parts(inner),
        ExprKind::Tuple(items) => if items.len() == 2 {
            Some((&items[0], &items[1]))
        } else {
            None
        },
        _ => None,
    }
}

fn check_args<'a>(
    args: &'a Vec<Expr>,
    facts: &AnnotationFacts,
    events: &mut Vec<AnnotationEvent<'a>>,
)
    ensures
        events_view(final(events)@) == events_view(old(events)@) + checked_args(
            args@,
            *facts,
            args@.len(),
        ),
{
    let ghost before = events_view(events@);
    let mut index: usize = 0;
    assert(before + checked_args(args@, *facts, 0) =~= before);
    while index < args.len()
        invariant
            index <= args.len(),
            events_view(events@) == before + checked_args(args@, *facts, index as nat),
        decreases args.len() - index,
    {
        let bound = match call_callee_name(&args[index]) {
            Some(name) => facts.comptime_names.contains(name),
            None => false,
        };
        if !bound {
            emit(events, AnnotationEvent::CheckValue(&args[index]));
        }
        assert(events_view(events@) =~= before + checked_args(args@, *facts, (index + 1) as nat));
        index += 1;
    }
}

fn evaluate_call<'a>(
    annotation: &'a Expr,
    callee: &'a Expr,
    args: &'a Vec<Expr>,
    facts: &AnnotationFacts,
    next: u32,
    events: &mut Vec<AnnotationEvent<'a>>,
) -> (ty: Type)
    ensures
        ty@ == evaluated_call(*annotation, *callee, args@, *facts, next).ty,
        events_view(final(events)@) == events_view(old(events)@) + evaluated_call(
            *annotation,
            *callee,
            args@,
            *facts,
            next,
        ).events,
{
    let ghost before = events_view(events@);
    let function = is_uppercase_comptime_function_callee(callee, facts);
    if !function {
        emit(events, AnnotationEvent::CheckArguments(annotation));
    }
    emit(events, AnnotationEvent::Evaluate(annotation));
    let ghost said = if is_type_function(*callee, *facts) {
        seq![SpecEvent::Evaluate(*annotation)]
    } else {
        seq![SpecEvent::CheckArguments(*annotation), SpecEvent::Evaluate(*annotation)]
    };
    assert(events_view(events@) =~= before + said);
    match find_place(&facts.applications, annotation.span) {
        Some(ty) => {
            if function {
                check_args(args, facts, events);
                assert(events_view(events@) =~= before + (said + checked_args(
                    args@,
                    *facts,
                    args@.len(),
                )));
            }
            ty.clone()
        },
        None => {
            if let Some(name) = call_callee_name(callee) {
                if facts.imported_names.contains(name) {
                    emit(events, AnnotationEvent::Unexpandable { name, span: annotation.span });
                }
            }
            emit(events, AnnotationEvent::LookInside(annotation));
            assert(events_view(events@) =~= before + evaluated_call(
                *annotation,
                *callee,
                args@,
                *facts,
                next,
            ).events);
            Type::Deferred
        },
    }
}

fn look<'a>(annotation: &'a Expr, events: &mut Vec<AnnotationEvent<'a>>) -> (ty: Type)
    ensures
        ty@ == SpecType::Deferred,
        events_view(final(events)@) == events_view(old(events)@) + seq![
            SpecEvent::LookInside(*annotation),
        ],
{
    emit(events, AnnotationEvent::LookInside(annotation));
    Type::Deferred
}

fn finish_row(row: Option<Row>, kind: RowKind) -> (ty: Type)
    ensures
        forall|folding: Folding| #[trigger]
            row_type(folding, kind).ty == ty@ || folding.row != crate::rows::owned_row_view(row),
{
    match row {
        Some(row) => match kind {
            RowKind::Record => Type::Record(row),
            RowKind::Variant => Type::Variant(row),
        },
        None => Type::Deferred,
    }
}

fn start_row() -> (row: Row)
    ensures
        row@ == empty_row(),
{
    let row = Row { entries: Vec::new(), tail: RowTail::Closed };
    assert(row@.entries =~= Seq::empty());
    assert(row@.tail == RowTail::Closed);
    row
}

/// Find the type that an annotation stands for. `next` is the number of the next
/// unknown tail.
pub fn lower_annotation<'a>(
    annotation: &'a Expr,
    known: &Definitions,
    facts: &AnnotationFacts,
    next: &mut u32,
    events: &mut Vec<AnnotationEvent<'a>>,
) -> (ty: Type)
    ensures
        ty@ == lowered(*annotation, *known, *facts, *old(next)).ty,
        events_view(final(events)@) == events_view(old(events)@) + lowered(
            *annotation,
            *known,
            *facts,
            *old(next),
        ).events,
        *final(next) == lowered(*annotation, *known, *facts, *old(next)).next,
    decreases annotation, 2nat, 0nat,
{
    let ghost before = events_view(events@);
    let ghost first = *next;
    let ghost whole = lowered(*annotation, *known, *facts, first);
    assert(before + Seq::<SpecEvent>::empty() =~= before);
    match &annotation.kind {
        ExprKind::ComptimeName(name) => {
            if let Some(ty) = facts.reified.get(name.as_str()) {
                return ty.clone();
            }
            if let Some(evaluated) = facts.plain_types.get(name.as_str()) {
                emit(
                    events,
                    AnnotationEvent::EvaluateName { name: name.as_str(), span: annotation.span },
                );
                if let Some(ty) = evaluated {
                    return ty.clone();
                }
            }
            if !known.known_types.contains(name.as_str()) {
                emit(
                    events,
                    AnnotationEvent::UnknownType { name: name.as_str(), span: annotation.span },
                );
            }
            assert(events_view(events@) =~= before + whole.events);
            Type::Named(name.clone())
        },
        ExprKind::Name(name) => match facts.reified.get(name.as_str()) {
            Some(ty) => ty.clone(),
            None => Type::Variable(name.clone()),
        },
        ExprKind::Group(inner) => lower_annotation(inner, known, facts, next, events),
        ExprKind::Index { callee, args } => {
            if let Some(ty) = lower_comptime_type_index(callee, args, known, facts, *next, events) {
                return ty;
            }
            if !is_collection_type_sugar(callee, args) {
                emit(events, AnnotationEvent::BracketApplication { span: annotation.span });
            }
            let constructor = lower_annotation(callee, known, facts, next, events);
            let types = lower_annotations(args, known, facts, next, events);
            assert(events_view(events@) =~= before + whole.events);
            Type::Apply { callee: Box::new(constructor), args: types }
        },
        ExprKind::Optional(inner) => Type::Optional(
            Box::new(lower_annotation(inner, known, facts, next, events)),
        ),
        ExprKind::Nullable(inner) => Type::Nullable(
            Box::new(lower_annotation(inner, known, facts, next, events)),
        ),
        ExprKind::NonNull(inner) => {
            let ty = lower_annotation(inner, known, facts, next, events);
            take_nullable(&ty, &known.types)
        },
        ExprKind::Unary { operator, value, .. } => if same_text(operator.as_str(), "!") {
            let ty = lower_annotation(value, known, facts, next, events);
            strip_optional(&ty, &known.types)
        } else {
            look(annotation, events)
        },
        ExprKind::Arrow { params, result } => {
            let types = lower_annotations(params, known, facts, next, events);
            let required: usize = types.len();
            assert(types_view(types@).len() == types.len());
            proof {
                list_is_whole(params@, *known, *facts, first, params@.len());
            }
            let end = lower_annotation(result, known, facts, next, events);
            assert(events_view(events@) =~= before + whole.events);
            Type::Function { params: types, result: Box::new(end), required }
        },
        ExprKind::Tuple(items) => Type::Tuple(
            lower_annotations(items, known, facts, next, events),
        ),
        ExprKind::Record(entries) => lower_row_entries(
            entries,
            RowKind::Record,
            known,
            facts,
            next,
            events,
        ),
        ExprKind::SetLiteral(entries) => lower_row_entries(
            entries,
            RowKind::Variant,
            known,
            facts,
            next,
            events,
        ),
        ExprKind::FieldAccess { receiver, field, field_span, .. } => {
            if let ExprKind::Name(name) = &ungroup_expr(receiver).kind {
                if let Some(exports) = facts.modules.get(name.as_str()) {
                    if let Some(ty) = exports.get(field.as_str()) {
                        return ty.clone();
                    }
                    emit(
                        events,
                        AnnotationEvent::UnknownModuleType {
                            name: field.as_str(),
                            span: *field_span,
                        },
                    );
                    return Type::Deferred;
                }
            }
            look(annotation, events)
        },
        ExprKind::Binary { operator, .. } => if same_text(operator.as_str(), "|") {
            lower_union_annotation(annotation, known, facts, next, events)
        } else {
            look(annotation, events)
        },
        ExprKind::Literal(literal) => if matches!(literal, Literal::Regex(_)) {
            look(annotation, events)
        } else {
            lower_singleton_variant_annotation(annotation, known, facts, next, events)
        },
        ExprKind::Tag(_) => lower_singleton_variant_annotation(
            annotation,
            known,
            facts,
            next,
            events,
        ),
        ExprKind::Call { callee, args } => {
            if matches!(callee.kind, ExprKind::Tag(_)) {
                return lower_singleton_variant_annotation(annotation, known, facts, next, events);
            }
            if is_type_application_callee(callee, known)
                && !is_uppercase_comptime_function_callee(callee, facts) {
                let constructor = lower_annotation(callee, known, facts, next, events);
                let types = lower_annotations(args, known, facts, next, events);
                assert(events_view(events@) =~= before + whole.events);
                return Type::Apply { callee: Box::new(constructor), args: types };
            }
            evaluate_call(annotation, callee, args, facts, *next, events)
        },
        ExprKind::Missing => Type::Deferred,
        _ => look(annotation, events),
    }
}

proof fn list_is_whole(
    items: Seq<Expr>,
    known: Definitions,
    facts: AnnotationFacts,
    next: u32,
    count: nat,
)
    requires
        count <= items.len(),
    ensures
        lowered_all(items, known, facts, next, count).types.len() == count,
    decreases count,
{
    if count > 0 {
        list_is_whole(items, known, facts, next, (count - 1) as nat);
    }
}

/// Find the types that annotations stand for.
pub fn lower_annotations<'a>(
    items: &'a Vec<Expr>,
    known: &Definitions,
    facts: &AnnotationFacts,
    next: &mut u32,
    events: &mut Vec<AnnotationEvent<'a>>,
) -> (types: Vec<Type>)
    ensures
        types_view(types@) == lowered_all(
            items@,
            *known,
            *facts,
            *old(next),
            items@.len(),
        ).types,
        events_view(final(events)@) == events_view(old(events)@) + lowered_all(
            items@,
            *known,
            *facts,
            *old(next),
            items@.len(),
        ).events,
        *final(next) == lowered_all(items@, *known, *facts, *old(next), items@.len()).next,
    decreases items, 0nat, 0nat,
{
    let ghost before = events_view(events@);
    let ghost first = *next;
    let mut types: Vec<Type> = Vec::new();
    let mut index: usize = 0;
    assert(types_view(types@) =~= Seq::empty());
    assert(before + Seq::<SpecEvent>::empty() =~= before);
    while index < items.len()
        invariant
            index <= items.len(),
            before == events_view(old(events)@),
            first == *old(next),
            types_view(types@) == lowered_all(items@, *known, *facts, first, index as nat).types,
            events_view(events@) == before + lowered_all(
                items@,
                *known,
                *facts,
                first,
                index as nat,
            ).events,
            *next == lowered_all(items@, *known, *facts, first, index as nat).next,
        decreases items.len() - index,
    {
        let ghost earlier = types_view(types@);
        let ty = lower_annotation(&items[index], known, facts, next, events);
        types.push(ty);
        assert(types_view(types@) =~= earlier.push(ty@));
        assert(events_view(events@) =~= before + lowered_all(
            items@,
            *known,
            *facts,
            first,
            (index + 1) as nat,
        ).events);
        index += 1;
    }
    types
}

/// Read a tag of a variant annotation.
fn read_tag<'a>(
    tag: &'a Expr,
    known: &Definitions,
    facts: &AnnotationFacts,
    next: &mut u32,
    events: &mut Vec<AnnotationEvent<'a>>,
) -> (entry: Option<RowEntry>)
    ensures
        match tag_lowered(*tag, *known, *facts, *old(next)).entry {
            Some(whole) => entry is Some && entry->0@ == whole,
            None => entry is None,
        },
        events_view(final(events)@) == events_view(old(events)@) + tag_lowered(
            *tag,
            *known,
            *facts,
            *old(next),
        ).events,
        *final(next) == tag_lowered(*tag, *known, *facts, *old(next)).next,
    decreases tag, 1nat, 0nat,
{
    let ghost before = events_view(events@);
    let ghost whole = tag_lowered(*tag, *known, *facts, *next);
    assert(before + Seq::<SpecEvent>::empty() =~= before);
    match lower_variant_tag(tag) {
        TagPlan::Tag { name, payload, lowercase } => {
            if lowercase {
                let span = match &tag.kind {
                    ExprKind::Call { callee, .. } => callee.span,
                    _ => tag.span,
                };
                emit(events, AnnotationEvent::LowercaseTag { name, span });
            }
            let types: Vec<Type> = match &tag.kind {
                ExprKind::Call { args, .. } => lower_annotations(args, known, facts, next, events),
                _ => Vec::new(),
            };
            assert(tag.kind is Call || types_view(types@) =~= Seq::empty());
            assert(events_view(events@) =~= before + whole.events);
            let entry = RowEntry::Tag { name: name.to_owned(), payload: types };
            assert(entry@ == whole.entry->0);
            Some(entry)
        },
        TagPlan::Literal(literal) => {
            let entry = RowEntry::Literal { value: literal.clone() };
            Some(entry)
        },
        TagPlan::Look => {
            emit(events, AnnotationEvent::LookInside(tag));
            None
        },
    }
}

/// Find the variant of one entry that an annotation stands for.
pub fn lower_singleton_variant_annotation<'a>(
    annotation: &'a Expr,
    known: &Definitions,
    facts: &AnnotationFacts,
    next: &mut u32,
    events: &mut Vec<AnnotationEvent<'a>>,
) -> (ty: Type)
    ensures
        ({
            let whole = single(
                tag_lowered(*annotation, *known, *facts, *old(next)),
                *known,
                annotation.span,
            );
            &&& ty@ == whole.ty
            &&& events_view(final(events)@) == events_view(old(events)@) + whole.events
            &&& *final(next) == whole.next
        }),
    decreases annotation, 1nat, 1nat,
{
    let ghost before = events_view(events@);
    let ghost tag = tag_lowered(*annotation, *known, *facts, *next);
    let ghost whole = single(tag, *known, annotation.span);
    match read_tag(annotation, known, facts, next, events) {
        Some(entry) => {
            let row = take_step(
                start_row(),
                RowEdit::AddVariant { entry },
                known,
                annotation.span,
                next,
                events,
            );
            assert(events_view(events@) =~= before + whole.events);
            finish_row(row, RowKind::Variant)
        },
        None => Type::Deferred,
    }
}

/// Find the type that the entries of a row stand for.
pub fn lower_row_entries<'a>(
    entries: &'a Vec<RecordEntry>,
    kind: RowKind,
    known: &Definitions,
    facts: &AnnotationFacts,
    next: &mut u32,
    events: &mut Vec<AnnotationEvent<'a>>,
) -> (ty: Type)
    ensures
        ({
            let whole = row_type(
                folded_rows(
                    entries@,
                    kind,
                    *known,
                    *facts,
                    empty_row(),
                    *old(next),
                    entries@.len(),
                ),
                kind,
            );
            &&& ty@ == whole.ty
            &&& events_view(final(events)@) == events_view(old(events)@) + whole.events
            &&& *final(next) == whole.next
        }),
    decreases entries, 0nat, 1nat,
{
    let row = fold_row_entries(entries, kind, known, facts, start_row(), next, events);
    finish_row(row, kind)
}

/// Write the entries of a row.
pub fn fold_row_entries<'a>(
    entries: &'a Vec<RecordEntry>,
    kind: RowKind,
    known: &Definitions,
    facts: &AnnotationFacts,
    row: Row,
    next: &mut u32,
    events: &mut Vec<AnnotationEvent<'a>>,
) -> (folded: Option<Row>)
    ensures
        ({
            let whole = folded_rows(
                entries@,
                kind,
                *known,
                *facts,
                row@,
                *old(next),
                entries@.len(),
            );
            &&& crate::rows::owned_row_view(folded) == whole.row
            &&& events_view(final(events)@) == events_view(old(events)@) + whole.events
            &&& *final(next) == whole.next
        }),
    decreases entries, 0nat, 0nat,
{
    let ghost before = events_view(events@);
    let ghost first = *next;
    let ghost start = row@;
    let mut folded: Option<Row> = Some(row);
    let mut index: usize = 0;
    assert(before + Seq::<SpecEvent>::empty() =~= before);
    while index < entries.len()
        invariant
            index <= entries.len(),
            before == events_view(old(events)@),
            first == *old(next),
            start == row@,
            ({
                let whole = folded_rows(
                    entries@,
                    kind,
                    *known,
                    *facts,
                    start,
                    first,
                    index as nat,
                );
                &&& crate::rows::owned_row_view(folded) == whole.row
                &&& events_view(events@) == before + whole.events
                &&& *next == whole.next
            }),
        decreases entries.len() - index,
    {
        folded = match folded {
            Some(row) => write_entry(&entries[index], kind, known, facts, row, next, events),
            None => {
                read_deferred(&entries[index], kind, known, facts, next, events);
                None
            },
        };
        assert(events_view(events@) =~= before + folded_rows(
            entries@,
            kind,
            *known,
            *facts,
            start,
            first,
            (index + 1) as nat,
        ).events);
        index += 1;
    }
    folded
}

fn add_field<'a>(
    name: &str,
    value: &'a Expr,
    span: Span,
    known: &Definitions,
    facts: &AnnotationFacts,
    row: Row,
    next: &mut u32,
    events: &mut Vec<AnnotationEvent<'a>>,
) -> (after: Option<Row>)
    ensures
        ({
            let ty = lowered(*value, *known, *facts, *old(next));
            let whole = stepped(
                ty.events,
                row@,
                added_field(name@, ty.ty),
                *known,
                span,
                ty.next,
            );
            &&& crate::rows::owned_row_view(after) == whole.row
            &&& events_view(final(events)@) == events_view(old(events)@) + whole.events
            &&& *final(next) == whole.next
        }),
    decreases value, 3nat, 0nat,
{
    let ghost before = events_view(events@);
    let ghost lowering = lowered(*value, *known, *facts, *next);
    let ty = lower_annotation(value, known, facts, next, events);
    let entry = RowEntry::Field { name: name.to_owned(), ty };
    let edit = RowEdit::Add { entry, context: DuplicateRowLabelContext::RecordAdd };
    assert(edit@ == added_field(name@, lowering.ty));
    let after = take_step(row, edit, known, span, next, events);
    assert(events_view(events@) =~= before + stepped(
        lowering.events,
        row@,
        added_field(name@, lowering.ty),
        *known,
        span,
        lowering.next,
    ).events);
    after
}

/// Write one entry of a row.
fn write_entry<'a>(
    entry: &'a RecordEntry,
    kind: RowKind,
    known: &Definitions,
    facts: &AnnotationFacts,
    row: Row,
    next: &mut u32,
    events: &mut Vec<AnnotationEvent<'a>>,
) -> (after: Option<Row>)
    ensures
        ({
            let whole = folded_entry(*entry, kind, *known, *facts, row@, *old(next));
            &&& crate::rows::owned_row_view(after) == whole.row
            &&& events_view(final(events)@) == events_view(old(events)@) + whole.events
            &&& *final(next) == whole.next
        }),
    decreases entry, 1nat, 0nat,
{
    let ghost before = events_view(events@);
    let ghost first = *next;
    let ghost whole = folded_entry(*entry, kind, *known, *facts, row@, first);
    assert(before + Seq::<SpecEvent>::empty() =~= before);
    assert(row@.tail == row.tail);
    let variant = matches!(kind, RowKind::Variant);
    match entry {
        RecordEntry::Field { name, value, overwrite, span, .. } => {
            if variant {
                return None;
            }
            if !*overwrite {
                return add_field(name.as_str(), value, *span, known, facts, row, next, events);
            }
            let ty = lower_annotation(value, known, facts, next, events);
            let after = take_step(
                row,
                RowEdit::Replace { name: name.clone(), ty },
                known,
                *span,
                next,
                events,
            );
            assert(events_view(events@) =~= before + whole.events);
            after
        },
        RecordEntry::FieldComputed { key, value, span } => match known_label(key, facts) {
            None => {
                read_deferred(entry, kind, known, facts, next, events);
                None
            },
            Some(label) => {
                if variant {
                    lower_annotation(value, known, facts, next, events);
                    return None;
                }
                add_field(label.as_str(), value, *span, known, facts, row, next, events)
            },
        },
        RecordEntry::Delete { name, span } => {
            let labels: Vec<String> = match facts.label_sets.get(name.as_str()) {
                Some(labels) => crate::text::clone_texts(labels),
                None => {
                    let mut labels: Vec<String> = Vec::new();
                    labels.push(name.clone());
                    assert(texts_view(labels@) =~= seq![name@]);
                    labels
                },
            };
            let after = take_step(row, RowEdit::Delete { labels }, known, *span, next, events);
            assert(events_view(events@) =~= before + whole.events);
            after
        },
        RecordEntry::DeleteComputed { key, span } => match known_label(key, facts) {
            Some(label) => {
                if !matches!(row.tail, RowTail::Closed) {
                    read_deferred(entry, kind, known, facts, next, events);
                    return None;
                }
                let mut labels: Vec<String> = Vec::new();
                labels.push(label.clone());
                assert(texts_view(labels@) =~= seq![label@]);
                let after = take_step(row, RowEdit::Delete { labels }, known, *span, next, events);
                assert(events_view(events@) =~= before + whole.events);
                after
            },
            None => {
                read_deferred(entry, kind, known, facts, next, events);
                None
            },
        },
        RecordEntry::Rename { from, to, span, .. } => {
            let after = take_step(
                row,
                RowEdit::Rename { from: from.clone(), to: to.clone() },
                known,
                *span,
                next,
                events,
            );
            assert(events_view(events@) =~= before + whole.events);
            after
        },
        RecordEntry::Spread { value, overwrite, span } => {
            let ty = lower_annotation(value, known, facts, next, events);
            match annotation_row_source(&ty, kind, &known.types) {
                Some(source) => {
                    let after = take_step(
                        row,
                        RowEdit::Merge { source, overwrite: *overwrite, kind },
                        known,
                        *span,
                        next,
                        events,
                    );
                    assert(events_view(events@) =~= before + whole.events);
                    after
                },
                None => None,
            }
        },
        RecordEntry::Open { span } => {
            let after = take_step(row, RowEdit::Open, known, *span, next, events);
            assert(events_view(events@) =~= before + whole.events);
            after
        },
        RecordEntry::Iteration { span, .. } => {
            if !variant {
                if let Some(rounds) = find_place(&facts.iterations, *span) {
                    return fold_iteration_entry(
                        entry,
                        rounds,
                        known,
                        facts,
                        row,
                        next,
                        events,
                    );
                }
            }
            read_deferred(entry, kind, known, facts, next, events);
            None
        },
        RecordEntry::Element(value) => {
            if variant {
                return match read_tag(value, known, facts, next, events) {
                    Some(entry) => {
                        let after = take_step(
                            row,
                            RowEdit::AddVariant { entry },
                            known,
                            value.span,
                            next,
                            events,
                        );
                        assert(events_view(events@) =~= before + whole.events);
                        after
                    },
                    None => None,
                };
            }
            if let Some((key, field)) = pair_parts(value) {
                proof {
                    pairs_are_smaller(**value);
                }
                if let Some(label) = known_label(key, facts) {
                    return add_field(
                        label.as_str(),
                        field,
                        value.span,
                        known,
                        facts,
                        row,
                        next,
                        events,
                    );
                }
            }
            read_deferred(entry, kind, known, facts, next, events);
            None
        },
        _ => None,
    }
}

/// Write the entries of an iteration, once for each label.
pub fn fold_iteration_entry<'a>(
    entry: &'a RecordEntry,
    rounds: &Vec<Round>,
    known: &Definitions,
    facts: &AnnotationFacts,
    row: Row,
    next: &mut u32,
    events: &mut Vec<AnnotationEvent<'a>>,
) -> (after: Option<Row>)
    ensures
        ({
            let whole = iterated(
                *entry,
                rounds@,
                *known,
                *facts,
                row@,
                *old(next),
                rounds@.len(),
            );
            &&& crate::rows::owned_row_view(after) == whole.row
            &&& events_view(final(events)@) == events_view(old(events)@) + whole.events
            &&& *final(next) == whole.next
        }),
    decreases entry, 0nat, 0nat,
{
    let ghost before = events_view(events@);
    let ghost first = *next;
    let ghost start = row@;
    assert(before + Seq::<SpecEvent>::empty() =~= before);
    let (guard, body): (&'a Option<Box<Expr>>, &'a Vec<RecordEntry>) = match entry {
        RecordEntry::Iteration { guard, body, .. } => (guard, body),
        _ => {
            return Some(row);
        },
    };
    let mut current = row;
    let mut index: usize = 0;
    while index < rounds.len()
        invariant
            index <= rounds.len(),
            before == events_view(old(events)@),
            first == *old(next),
            start == row@,
            entry is Iteration,
            entry->guard == *guard,
            entry->body == *body,
            decreases_to!(entry => body),
            guard is Some ==> decreases_to!(entry => *guard->0),
            ({
                let whole = iterated(
                    *entry,
                    rounds@,
                    *known,
                    *facts,
                    start,
                    first,
                    index as nat,
                );
                &&& Some(current@) == whole.row
                &&& events_view(events@) == before + whole.events
                &&& *next == whole.next
            }),
        decreases rounds.len() - index,
    {
        let round = &rounds[index];
        let ghost now = iterated(*entry, rounds@, *known, *facts, start, first, (index + 1) as nat);
        let skip = match (guard, round.guard) {
            (Some(_), Some(false)) => true,
            _ => false,
        };
        if skip {
            index += 1;
        } else {
            let unknown = guard.is_some() && round.guard.is_none();
            if unknown {
                if let Some(guard) = guard {
                    lower_annotation(guard, known, &round.facts, next, events);
                }
                read_deferred_rows(body, RowKind::Record, known, &round.facts, next, events);
                assert(events_view(events@) =~= before + now.events);
                proof {
                    stopped_iterations_stay(
                        *entry,
                        rounds@,
                        *known,
                        *facts,
                        start,
                        first,
                        (index + 1) as nat,
                        rounds@.len(),
                    );
                }
                return None;
            }
            match fold_row_entries(
                body,
                RowKind::Record,
                known,
                &round.facts,
                current,
                next,
                events,
            ) {
                Some(after) => {
                    current = after;
                    assert(events_view(events@) =~= before + now.events);
                    index += 1;
                },
                None => {
                    assert(events_view(events@) =~= before + now.events);
                    proof {
                        stopped_iterations_stay(
                            *entry,
                            rounds@,
                            *known,
                            *facts,
                            start,
                            first,
                            (index + 1) as nat,
                            rounds@.len(),
                        );
                    }
                    return None;
                },
            }
        }
    }
    Some(current)
}

proof fn stopped_iterations_stay(
    entry: RecordEntry,
    rounds: Seq<Round>,
    known: Definitions,
    facts: AnnotationFacts,
    row: SpecRow,
    next: u32,
    count: nat,
    more: nat,
)
    requires
        iterated(entry, rounds, known, facts, row, next, count).row is None,
        count <= more <= rounds.len(),
    ensures
        iterated(entry, rounds, known, facts, row, next, more) == iterated(
            entry,
            rounds,
            known,
            facts,
            row,
            next,
            count,
        ),
    decreases more,
{
    if count < more {
        stopped_iterations_stay(
            entry,
            rounds,
            known,
            facts,
            row,
            next,
            count,
            (more - 1) as nat,
        );
    }
}

/// Look at what an entry holds whose row has no type.
fn read_deferred<'a>(
    entry: &'a RecordEntry,
    kind: RowKind,
    known: &Definitions,
    facts: &AnnotationFacts,
    next: &mut u32,
    events: &mut Vec<AnnotationEvent<'a>>,
)
    ensures
        events_view(final(events)@) == events_view(old(events)@) + deferred(
            *entry,
            kind,
            *known,
            *facts,
            *old(next),
        ).events,
        *final(next) == deferred(*entry, kind, *known, *facts, *old(next)).next,
    decreases entry, 0nat, 0nat,
{
    let ghost before = events_view(events@);
    let ghost whole = deferred(*entry, kind, *known, *facts, *next);
    assert(before + Seq::<SpecEvent>::empty() =~= before);
    match entry {
        RecordEntry::Field { value, .. } => {
            lower_annotation(value, known, facts, next, events);
        },
        RecordEntry::Spread { value, .. } => {
            lower_annotation(value, known, facts, next, events);
        },
        RecordEntry::DeleteComputed { key, .. } => {
            lower_annotation(key, known, facts, next, events);
        },
        RecordEntry::FieldComputed { key, value, .. } => {
            lower_annotation(key, known, facts, next, events);
            lower_annotation(value, known, facts, next, events);
            assert(events_view(events@) =~= before + whole.events);
        },
        RecordEntry::Element(value) => match kind {
            RowKind::Record => {
                lower_annotation(value, known, facts, next, events);
            },
            RowKind::Variant => {
                read_tag(value, known, facts, next, events);
            },
        },
        RecordEntry::Iteration { source, guard, body, .. } => {
            let ghost first = lowered(**source, *known, *facts, *next);
            lower_annotation(source, known, facts, next, events);
            let ghost second = match guard {
                Some(guard) => said_of(lowered(**guard, *known, *facts, first.next)),
                None => Deferral { events: Seq::empty(), next: first.next },
            };
            if let Some(guard) = guard {
                lower_annotation(guard, known, facts, next, events);
            }
            assert(events_view(events@) =~= before + (first.events + second.events));
            let ghost rest = deferred_rows(
                body@,
                kind,
                *known,
                *facts,
                second.next,
                body@.len(),
            );
            read_deferred_rows(body, kind, known, facts, next, events);
            assert(events_view(events@) =~= before + (first.events + second.events + rest.events));
        },
        _ => {},
    }
}

/// Look at what entries hold whose row has no type.
fn read_deferred_rows<'a>(
    entries: &'a Vec<RecordEntry>,
    kind: RowKind,
    known: &Definitions,
    facts: &AnnotationFacts,
    next: &mut u32,
    events: &mut Vec<AnnotationEvent<'a>>,
)
    ensures
        events_view(final(events)@) == events_view(old(events)@) + deferred_rows(
            entries@,
            kind,
            *known,
            *facts,
            *old(next),
            entries@.len(),
        ).events,
        *final(next) == deferred_rows(
            entries@,
            kind,
            *known,
            *facts,
            *old(next),
            entries@.len(),
        ).next,
    decreases entries, 0nat, 0nat,
{
    let ghost before = events_view(events@);
    let ghost first = *next;
    let mut index: usize = 0;
    assert(before + Seq::<SpecEvent>::empty() =~= before);
    while index < entries.len()
        invariant
            index <= entries.len(),
            before == events_view(old(events)@),
            first == *old(next),
            ({
                let whole = deferred_rows(entries@, kind, *known, *facts, first, index as nat);
                &&& events_view(events@) == before + whole.events
                &&& *next == whole.next
            }),
        decreases entries.len() - index,
    {
        read_deferred(&entries[index], kind, known, facts, next, events);
        assert(events_view(events@) =~= before + deferred_rows(
            entries@,
            kind,
            *known,
            *facts,
            first,
            (index + 1) as nat,
        ).events);
        index += 1;
    }
}

/// Find the variant that a union annotation stands for.
pub fn lower_union_annotation<'a>(
    annotation: &'a Expr,
    known: &Definitions,
    facts: &AnnotationFacts,
    next: &mut u32,
    events: &mut Vec<AnnotationEvent<'a>>,
) -> (ty: Type)
    requires
        is_union(*annotation),
    ensures
        ({
            let whole = row_type(
                folded_union(
                    *annotation,
                    *known,
                    *facts,
                    *old(next),
                    union_entries(*annotation).len(),
                ),
                RowKind::Variant,
            );
            &&& ty@ == whole.ty
            &&& events_view(final(events)@) == events_view(old(events)@) + whole.events
            &&& *final(next) == whole.next
        }),
    decreases annotation, 1nat, 0nat,
{
    let ghost before = events_view(events@);
    let ghost first = *next;
    let entries = union_annotation_entries(annotation);
    let ghost all = union_entries(*annotation);
    let mut folded: Option<Row> = Some(start_row());
    let mut index: usize = 0;
    assert(before + Seq::<SpecEvent>::empty() =~= before);
    assert(all.len() == entries.len());
    while index < entries.len()
        invariant
            index <= entries.len(),
            is_union(*annotation),
            before == events_view(old(events)@),
            first == *old(next),
            all == union_entries(*annotation),
            all == union_entries_view(entries@),
            all.len() == entries.len(),
            ({
                let whole = folded_union(*annotation, *known, *facts, first, index as nat);
                &&& crate::rows::owned_row_view(folded) == whole.row
                &&& events_view(events@) == before + whole.events
                &&& *next == whole.next
            }),
        decreases entries.len() - index,
    {
        proof {
            union_entries_are_smaller(*annotation, index as int);
        }
        let ghost now = folded_union(*annotation, *known, *facts, first, (index + 1) as nat);
        match entries[index] {
            UnionEntry::Listed(entry) => {
                assert(all[index as int] == SpecUnionEntry::Listed(*entry));
                folded = match folded {
                    Some(row) => write_entry(
                        entry,
                        RowKind::Variant,
                        known,
                        facts,
                        row,
                        next,
                        events,
                    ),
                    None => {
                        read_deferred(entry, RowKind::Variant, known, facts, next, events);
                        None
                    },
                };
            },
            UnionEntry::Part(expr) => {
                assert(all[index as int] == SpecUnionEntry::Part(*expr));
                let tag = read_tag(expr, known, facts, next, events);
                folded = match (folded, tag) {
                    (Some(row), Some(entry)) => take_step(
                        row,
                        RowEdit::AddVariant { entry },
                        known,
                        expr.span,
                        next,
                        events,
                    ),
                    _ => None,
                };
            },
        }
        assert(events_view(events@) =~= before + now.events);
        index += 1;
    }
    finish_row(folded, RowKind::Variant)
}

} // verus!
