//! What patterns match and bind.
use crate::collections::{insert_name, increasing, StringMap, StringSet};
use crate::rows::{
    field_type, known_payload, label_of, literal_variant_payload, name_is_placeholder,
    row_entry_label, row_field_type, subject_row, subject_variant_row, ComptimeValue, EmptyValue,
};
use crate::span::Span;
use crate::syntax::{
    exprs_view, is_union, is_union_expr, text_view, ungroup_expr, ungrouped, Expr, ExprKind,
    MatchArm, RecordEntry,
};
use crate::text::{same_text, texts_contain, texts_view};
use crate::type_ops::{
    is_resolved_value_type, is_variable, resolved, some_node, type_contains_variable,
    type_map_view,
};
use crate::types::{
    types_view, Literal, Row, RowEntry, RowTail, SpecLiteral, SpecRow, SpecRowEntry, SpecType, Type,
};
use vstd::prelude::*;

verus! {

// ---------------------------------------------------------------------------
// Alternatives
// ---------------------------------------------------------------------------
/// The alternatives of a pattern, from left to right.
pub open spec fn or_alternatives(pattern: Expr) -> Seq<Expr>
    decreases pattern,
{
    if is_union(pattern) {
        match pattern.kind {
            ExprKind::Group(inner) => or_alternatives(*inner),
            ExprKind::Binary { left, right, .. } => or_alternatives(*left) + or_alternatives(
                *right,
            ),
            _ => Seq::empty(),
        }
    } else {
        seq![pattern]
    }
}

/// The alternatives of a pattern, from left to right.
pub fn flatten_or_alternatives<'a>(pattern: &'a Expr) -> (alternatives: Vec<&'a Expr>)
    ensures
        exprs_view(alternatives@) == or_alternatives(*pattern),
    decreases pattern,
{
    let mut alternatives: Vec<&'a Expr> = Vec::new();
    if is_union_expr(pattern) {
        match &pattern.kind {
            ExprKind::Group(inner) => {
                return flatten_or_alternatives(inner);
            },
            ExprKind::Binary { left, right, .. } => {
                let mut before = flatten_or_alternatives(left);
                let mut after = flatten_or_alternatives(right);
                let ghost first = exprs_view(before@);
                let ghost second = exprs_view(after@);
                before.append(&mut after);
                assert(exprs_view(before@) =~= first + second);
                return before;
            },
            _ => {
                assert(exprs_view(alternatives@) =~= Seq::empty());
                return alternatives;
            },
        }
    }
    alternatives.push(pattern);
    assert(exprs_view(alternatives@) =~= seq![*pattern]);
    alternatives
}

/// The empty value that a pattern is.
pub open spec fn empty_of(pattern: Expr) -> Option<EmptyValue> {
    match ungrouped(pattern).kind {
        ExprKind::Undefined => Some(EmptyValue::Undefined),
        ExprKind::Null => Some(EmptyValue::Null),
        _ => None,
    }
}

/// The empty value that a pattern is.
pub fn empty_value_pattern(pattern: &Expr) -> (value: Option<EmptyValue>)
    ensures
        value == empty_of(*pattern),
{
    match &ungroup_expr(pattern).kind {
        ExprKind::Undefined => Some(EmptyValue::Undefined),
        ExprKind::Null => Some(EmptyValue::Null),
        _ => None,
    }
}

/// Whether a pattern is the placeholder.
pub open spec fn is_underscore(pattern: Expr) -> bool {
    ungrouped(pattern).kind is Name && ungrouped(pattern).kind->Name_0@ == "_"@
}

/// Whether a pattern is the placeholder.
pub fn is_underscore_pattern(pattern: &Expr) -> (underscore: bool)
    ensures
        underscore == is_underscore(*pattern),
{
    match &ungroup_expr(pattern).kind {
        ExprKind::Name(name) => name_is_placeholder(name.as_str()),
        _ => false,
    }
}

/// Whether a pattern matches everything.
pub fn is_catch_all_pattern(pattern: &Expr) -> (catch_all: bool)
    ensures
        catch_all == (ungrouped(*pattern).kind is Name),
{
    matches!(&ungroup_expr(pattern).kind, ExprKind::Name(_))
}

/// Whether an alternative of a pattern matches everything.
pub open spec fn has_catch_all(pattern: Expr) -> bool {
    exists|i: int|
        0 <= i < or_alternatives(pattern).len() && ungrouped(
            #[trigger] or_alternatives(pattern)[i],
        ).kind is Name
}

/// Whether an alternative of a pattern matches everything.
pub fn pattern_has_catch_all_alternative(pattern: &Expr) -> (found: bool)
    ensures
        found == has_catch_all(*pattern),
{
    let alternatives = flatten_or_alternatives(pattern);
    let ghost all = or_alternatives(*pattern);
    let mut index: usize = 0;
    while index < alternatives.len()
        invariant
            index <= alternatives.len(),
            all == exprs_view(alternatives@),
            all == or_alternatives(*pattern),
            forall|i: int| 0 <= i < index ==> !(ungrouped(#[trigger] all[i]).kind is Name),
        decreases alternatives.len() - index,
    {
        assert(all[index as int] == *alternatives@[index as int]);
        if is_catch_all_pattern(alternatives[index]) {
            return true;
        }
        index += 1;
    }
    false
}

/// Whether an alternative of a pattern is the placeholder.
pub open spec fn has_underscore(pattern: Expr) -> bool {
    exists|i: int|
        0 <= i < or_alternatives(pattern).len() && is_underscore(
            #[trigger] or_alternatives(pattern)[i],
        )
}

/// Whether an alternative of a pattern is the placeholder.
pub fn pattern_has_underscore_alternative(pattern: &Expr) -> (found: bool)
    ensures
        found == has_underscore(*pattern),
{
    let alternatives = flatten_or_alternatives(pattern);
    let ghost all = or_alternatives(*pattern);
    let mut index: usize = 0;
    while index < alternatives.len()
        invariant
            index <= alternatives.len(),
            all == exprs_view(alternatives@),
            all == or_alternatives(*pattern),
            forall|i: int| 0 <= i < index ==> !is_underscore(#[trigger] all[i]),
        decreases alternatives.len() - index,
    {
        assert(all[index as int] == *alternatives@[index as int]);
        if is_underscore_pattern(alternatives[index]) {
            return true;
        }
        index += 1;
    }
    false
}

/// The empty values of alternatives, in order.
pub open spec fn empty_values_of(alternatives: Seq<Expr>) -> Seq<EmptyValue>
    decreases alternatives.len(),
{
    if alternatives.len() == 0 {
        Seq::empty()
    } else {
        let earlier = empty_values_of(alternatives.drop_last());
        match empty_of(alternatives.last()) {
            Some(value) => earlier.push(value),
            None => earlier,
        }
    }
}

/// The empty values that a pattern covers.
pub fn arm_covered_empty_values(pattern: &Expr) -> (values: Vec<EmptyValue>)
    ensures
        values@ == empty_values_of(or_alternatives(*pattern)),
{
    let alternatives = flatten_or_alternatives(pattern);
    let ghost all = or_alternatives(*pattern);
    let mut values: Vec<EmptyValue> = Vec::new();
    let mut index: usize = 0;
    while index < alternatives.len()
        invariant
            index <= alternatives.len(),
            all == exprs_view(alternatives@),
            values@ == empty_values_of(all.take(index as int)),
        decreases alternatives.len() - index,
    {
        proof {
            let longer = all.take(index + 1);
            assert(longer.drop_last() =~= all.take(index as int));
            assert(longer.last() == *alternatives@[index as int]);
        }
        if let Some(value) = empty_value_pattern(alternatives[index]) {
            values.push(value);
        }
        index += 1;
    }
    assert(all.take(all.len() as int) =~= all);
    values
}

/// The tag of a variant that a pattern names.
pub open spec fn tag_named(pattern: Expr) -> Option<Seq<char>> {
    match ungrouped(pattern).kind {
        ExprKind::Tag(tag) => Some(tag@),
        ExprKind::Call { callee, .. } => match callee.kind {
            ExprKind::Tag(tag) => Some(tag@),
            _ => None,
        },
        _ => None,
    }
}

/// The tag of a variant that a pattern names.
pub fn variant_pattern_tag(pattern: &Expr) -> (tag: Option<&str>)
    ensures
        text_view(tag) == tag_named(*pattern),
{
    match &ungroup_expr(pattern).kind {
        ExprKind::Tag(tag) => Some(tag.as_str()),
        ExprKind::Call { callee, .. } => match &callee.kind {
            ExprKind::Tag(tag) => Some(tag.as_str()),
            _ => None,
        },
        _ => None,
    }
}

/// The number of payload patterns behind a tag.
pub open spec fn tag_arity(pattern: Expr) -> nat {
    match ungrouped(pattern).kind {
        ExprKind::Call { args, .. } => args@.len(),
        _ => 0,
    }
}

/// The tag that a pattern names, and the number of payload patterns behind it.
pub fn pure_tag_pattern(pattern: &Expr) -> (tag: Option<(&str, usize)>)
    ensures
        match tag {
            Some((tag, arity)) => tag_named(*pattern) == Some(tag@) && arity == tag_arity(
                *pattern,
            ),
            None => tag_named(*pattern) is None,
        },
{
    match &ungroup_expr(pattern).kind {
        ExprKind::Tag(tag) => Some((tag.as_str(), 0)),
        ExprKind::Call { callee, args } => match &callee.kind {
            ExprKind::Tag(tag) => Some((tag.as_str(), args.len())),
            _ => None,
        },
        _ => None,
    }
}

pub open spec fn names_of_refs(names: Seq<&str>) -> Seq<Seq<char>> {
    Seq::new(names.len(), |i: int| names[i]@)
}

/// The tags of alternatives, in order.
pub open spec fn tags_named(alternatives: Seq<Expr>) -> Seq<Seq<char>>
    decreases alternatives.len(),
{
    if alternatives.len() == 0 {
        Seq::empty()
    } else {
        let earlier = tags_named(alternatives.drop_last());
        match tag_named(alternatives.last()) {
            Some(tag) => earlier.push(tag),
            None => earlier,
        }
    }
}

/// The tags that a pattern covers.
pub fn arm_covered_tags<'a>(pattern: &'a Expr) -> (tags: Vec<&'a str>)
    ensures
        names_of_refs(tags@) == tags_named(or_alternatives(*pattern)),
{
    let alternatives = flatten_or_alternatives(pattern);
    let ghost all = or_alternatives(*pattern);
    let mut tags: Vec<&'a str> = Vec::new();
    let mut index: usize = 0;
    assert(names_of_refs(tags@) =~= Seq::empty());
    while index < alternatives.len()
        invariant
            index <= alternatives.len(),
            all == exprs_view(alternatives@),
            names_of_refs(tags@) == tags_named(all.take(index as int)),
        decreases alternatives.len() - index,
    {
        proof {
            let longer = all.take(index + 1);
            assert(longer.drop_last() =~= all.take(index as int));
            assert(longer.last() == *alternatives@[index as int]);
        }
        if let Some(tag) = variant_pattern_tag(alternatives[index]) {
            let ghost earlier = names_of_refs(tags@);
            tags.push(tag);
            assert(names_of_refs(tags@) =~= earlier.push(tag@));
        }
        index += 1;
    }
    assert(all.take(all.len() as int) =~= all);
    tags
}

/// The literal that a pattern is, with its place.
pub open spec fn literal_named(pattern: Expr) -> Option<(SpecLiteral, Span)> {
    match ungrouped(pattern).kind {
        ExprKind::Literal(literal) => if literal is Regex {
            None
        } else {
            Some((literal@, ungrouped(pattern).span))
        },
        _ => None,
    }
}

/// The literal that a pattern is, with its place.
pub fn literal_pattern_value(pattern: &Expr) -> (value: Option<(&Literal, Span)>)
    ensures
        match value {
            Some((literal, span)) => literal_named(*pattern) == Some((literal@, span)),
            None => literal_named(*pattern) is None,
        },
{
    let inner = ungroup_expr(pattern);
    match &inner.kind {
        ExprKind::Literal(literal) => if matches!(literal, Literal::Regex(_)) {
            None
        } else {
            Some((literal, inner.span))
        },
        _ => None,
    }
}

pub open spec fn placed_literals(literals: Seq<(&Literal, Span)>) -> Seq<(SpecLiteral, Span)> {
    Seq::new(literals.len(), |i: int| (literals[i].0@, literals[i].1))
}

/// The literals of alternatives, in order.
pub open spec fn literals_named(alternatives: Seq<Expr>) -> Seq<(SpecLiteral, Span)>
    decreases alternatives.len(),
{
    if alternatives.len() == 0 {
        Seq::empty()
    } else {
        let earlier = literals_named(alternatives.drop_last());
        match literal_named(alternatives.last()) {
            Some(literal) => earlier.push(literal),
            None => earlier,
        }
    }
}

/// The literals that a pattern covers, with their places.
pub fn arm_covered_literals<'a>(pattern: &'a Expr) -> (literals: Vec<(&'a Literal, Span)>)
    ensures
        placed_literals(literals@) == literals_named(or_alternatives(*pattern)),
{
    let alternatives = flatten_or_alternatives(pattern);
    let ghost all = or_alternatives(*pattern);
    let mut literals: Vec<(&'a Literal, Span)> = Vec::new();
    let mut index: usize = 0;
    assert(placed_literals(literals@) =~= Seq::empty());
    while index < alternatives.len()
        invariant
            index <= alternatives.len(),
            all == exprs_view(alternatives@),
            placed_literals(literals@) == literals_named(all.take(index as int)),
        decreases alternatives.len() - index,
    {
        proof {
            let longer = all.take(index + 1);
            assert(longer.drop_last() =~= all.take(index as int));
            assert(longer.last() == *alternatives@[index as int]);
        }
        if let Some((literal, span)) = literal_pattern_value(alternatives[index]) {
            let ghost earlier = placed_literals(literals@);
            literals.push((literal, span));
            assert(placed_literals(literals@) =~= earlier.push((literal@, span)));
        }
        index += 1;
    }
    assert(all.take(all.len() as int) =~= all);
    literals
}

/// Whether an unguarded arm covers an empty value.
pub open spec fn arm_covers_empty(arm: MatchArm, value: EmptyValue) -> bool {
    arm.guards@.len() == 0 && (empty_values_of(or_alternatives(*arm.pattern)).contains(value)
        || has_underscore(*arm.pattern))
}

/// Whether some arm covers an empty value.
pub fn empty_value_is_covered(arms: &Vec<MatchArm>, value: EmptyValue) -> (covered: bool)
    ensures
        covered == exists|i: int|
            0 <= i < arms@.len() && arm_covers_empty(#[trigger] arms@[i], value),
{
    let mut index: usize = 0;
    while index < arms.len()
        invariant
            index <= arms.len(),
            forall|i: int| 0 <= i < index ==> !arm_covers_empty(#[trigger] arms@[i], value),
        decreases arms.len() - index,
    {
        let arm = &arms[index];
        if arm.guards.len() == 0 {
            let values = arm_covered_empty_values(&arm.pattern);
            let mut listed = false;
            let mut position: usize = 0;
            while position < values.len()
                invariant
                    position <= values.len(),
                    listed == exists|i: int| 0 <= i < position && values@[i] == value,
                decreases values.len() - position,
            {
                if values[position] == value {
                    listed = true;
                }
                position += 1;
            }
            if listed || pattern_has_underscore_alternative(&arm.pattern) {
                assert(arm_covers_empty(arms@[index as int], value));
                return true;
            }
        }
        assert(!arm_covers_empty(arms@[index as int], value));
        index += 1;
    }
    false
}

// ---------------------------------------------------------------------------
// Values known at compile time
// ---------------------------------------------------------------------------
/// Whether a pattern matches a value that is known at compile time.
pub open spec fn matches_value(pattern: Expr, value: ComptimeValue) -> bool {
    match ungrouped(pattern).kind {
        ExprKind::Name(_) => true,
        ExprKind::Literal(literal) => match value {
            ComptimeValue::Bool(value) => literal@ == SpecLiteral::Bool(value),
            ComptimeValue::Literal(value) => literal@ == value@,
            _ => false,
        },
        _ => false,
    }
}

/// Whether a pattern matches a value that is known at compile time.
pub fn pattern_matches_comptime_value(pattern: &Expr, value: &ComptimeValue) -> (matching: bool)
    ensures
        matching == matches_value(*pattern, *value),
{
    match (&ungroup_expr(pattern).kind, value) {
        (ExprKind::Name(_), _) => true,
        (ExprKind::Literal(literal), ComptimeValue::Bool(value)) => match literal {
            Literal::Bool(literal) => *literal == *value,
            _ => false,
        },
        (ExprKind::Literal(literal), ComptimeValue::Literal(value)) => *literal == *value,
        _ => false,
    }
}

/// The first arm that matches a value, from a position on.
pub open spec fn first_match(arms: Seq<MatchArm>, value: ComptimeValue, from: int) -> Option<int>
    decreases arms.len() - from,
{
    if from < 0 || from >= arms.len() {
        None
    } else if matches_value(*arms[from].pattern, value) {
        Some(from)
    } else {
        first_match(arms, value, from + 1)
    }
}

/// The arm that a subject selects whose value is known at compile time: the
/// first that matches a literal. Types and label sets select none.
pub fn comptime_selected_match_arm(arms: &Vec<MatchArm>, value: &ComptimeValue) -> (selected: Option<
    usize,
>)
    ensures
        match selected {
            Some(index) => (value is Literal || value is Bool) && first_match(arms@, *value, 0)
                == Some(index as int) && index < arms@.len(),
            None => !(value is Literal || value is Bool) || first_match(arms@, *value, 0) is None,
        },
{
    if !matches!(value, ComptimeValue::Literal(_)) && !matches!(value, ComptimeValue::Bool(_)) {
        return None;
    }
    let mut index: usize = 0;
    while index < arms.len()
        invariant
            index <= arms.len(),
            value is Literal || value is Bool,
            first_match(arms@, *value, 0) == first_match(arms@, *value, index as int),
        decreases arms.len() - index,
    {
        if pattern_matches_comptime_value(&arms[index].pattern, value) {
            return Some(index);
        }
        index += 1;
    }
    None
}

// ---------------------------------------------------------------------------
// Record patterns
// ---------------------------------------------------------------------------
/// The label that an entry of a record pattern matches.
pub open spec fn matched_label(entry: RecordEntry) -> Option<Seq<char>> {
    match entry {
        RecordEntry::Field { name, .. } => Some(name@),
        RecordEntry::Shorthand { name, .. } => Some(name@),
        RecordEntry::Rename { from, .. } => Some(from@),
        _ => None,
    }
}

/// The label that an entry of a record pattern matches.
pub fn record_pattern_label(entry: &RecordEntry) -> (label: Option<&str>)
    ensures
        text_view(label) == matched_label(*entry),
{
    match entry {
        RecordEntry::Field { name, .. } => Some(name.as_str()),
        RecordEntry::Shorthand { name, .. } => Some(name.as_str()),
        RecordEntry::Rename { from, .. } => Some(from.as_str()),
        _ => None,
    }
}

/// Whether an entry of a record pattern matches a label.
pub open spec fn some_label_matches(entries: Seq<RecordEntry>, label: Seq<char>) -> bool {
    exists|i: int|
        0 <= i < entries.len() && matched_label(#[trigger] entries[i]) == Some(label)
}

fn label_is_matched(entries: &Vec<RecordEntry>, label: &str) -> (found: bool)
    ensures
        found == some_label_matches(entries@, label@),
{
    let mut index: usize = 0;
    while index < entries.len()
        invariant
            index <= entries.len(),
            forall|i: int|
                0 <= i < index ==> matched_label(#[trigger] entries@[i]) != Some(label@),
        decreases entries.len() - index,
    {
        if let Some(name) = record_pattern_label(&entries[index]) {
            if same_text(name, label) {
                assert(matched_label(entries@[index as int]) == Some(label@));
                return true;
            }
        }
        index += 1;
    }
    false
}

/// The name that the rest of a record is bound to by an entry.
pub open spec fn rest_binder(entry: RecordEntry) -> Option<Seq<char>> {
    match entry {
        RecordEntry::Spread { value, .. } => match value.kind {
            ExprKind::Name(name) => if name@ == "_"@ {
                None
            } else {
                Some(name@)
            },
            _ => None,
        },
        _ => None,
    }
}

/// The names that the rest of a record is bound to, in order.
pub open spec fn rest_binders(entries: Seq<RecordEntry>) -> Seq<Seq<char>>
    decreases entries.len(),
{
    if entries.len() == 0 {
        Seq::empty()
    } else {
        let earlier = rest_binders(entries.drop_last());
        match rest_binder(entries.last()) {
            Some(name) => earlier.push(name),
            None => earlier,
        }
    }
}

/// The names that the rest of a record is bound to by a pattern.
pub open spec fn pattern_rest_binders(pattern: Expr) -> Seq<Seq<char>> {
    match ungrouped(pattern).kind {
        ExprKind::Record(entries) => rest_binders(entries@),
        _ => Seq::empty(),
    }
}

/// Add the names that the rest of a record is bound to by a pattern.
pub fn collect_record_pattern_rest_binders(pattern: &Expr, binders: &mut Vec<String>)
    ensures
        texts_view(final(binders)@) == texts_view(old(binders)@) + pattern_rest_binders(*pattern),
{
    let ghost before = texts_view(binders@);
    match &ungroup_expr(pattern).kind {
        ExprKind::Record(entries) => {
            let mut index: usize = 0;
            assert(texts_view(binders@) =~= before + rest_binders(entries@.take(0)));
            while index < entries.len()
                invariant
                    index <= entries.len(),
                    before == texts_view(old(binders)@),
                    texts_view(binders@) == before + rest_binders(entries@.take(index as int)),
                decreases entries.len() - index,
            {
                proof {
                    let longer = entries@.take(index + 1);
                    assert(longer.drop_last() =~= entries@.take(index as int));
                    assert(longer.last() == entries@[index as int]);
                }
                let ghost earlier = texts_view(binders@);
                if let RecordEntry::Spread { value, .. } = &entries[index] {
                    if let ExprKind::Name(name) = &value.kind {
                        if !name_is_placeholder(name.as_str()) {
                            binders.push(name.clone());
                            assert(texts_view(binders@) =~= earlier.push(name@));
                        }
                    }
                }
                assert(texts_view(binders@) =~= before + rest_binders(entries@.take(index + 1)));
                index += 1;
            }
            assert(entries@.take(entries@.len() as int) =~= entries@);
        },
        _ => {
            assert(texts_view(binders@) =~= before + Seq::empty());
        },
    }
}

/// The export that a binder of a record pattern takes from a module, from a
/// position on.
pub open spec fn source_for_binder(entries: Seq<RecordEntry>, binder: Seq<char>, from: int) -> Option<
    Seq<char>,
>
    decreases entries.len() - from,
{
    if from < 0 || from >= entries.len() {
        None
    } else {
        match entries[from] {
            RecordEntry::Shorthand { name, .. } => if name@ == binder {
                Some(name@)
            } else {
                source_for_binder(entries, binder, from + 1)
            },
            RecordEntry::Rename { from: source, to, .. } => if to@ == binder {
                Some(source@)
            } else {
                source_for_binder(entries, binder, from + 1)
            },
            _ => source_for_binder(entries, binder, from + 1),
        }
    }
}

/// The export that a binder of a record pattern takes from a module.
pub fn import_pattern_source_for_binder<'a>(pattern: &'a Expr, binder: &str) -> (source: Option<
    &'a str,
>)
    ensures
        text_view(source) == (match ungrouped(*pattern).kind {
            ExprKind::Record(entries) => source_for_binder(entries@, binder@, 0),
            _ => None,
        }),
{
    match &ungroup_expr(pattern).kind {
        ExprKind::Record(entries) => {
            let mut index: usize = 0;
            while index < entries.len()
                invariant
                    index <= entries.len(),
                    ungrouped(*pattern).kind == ExprKind::Record(*entries),
                    source_for_binder(entries@, binder@, 0) == source_for_binder(
                        entries@,
                        binder@,
                        index as int,
                    ),
                decreases entries.len() - index,
            {
                match &entries[index] {
                    RecordEntry::Shorthand { name, .. } => {
                        if same_text(name.as_str(), binder) {
                            return Some(name.as_str());
                        }
                    },
                    RecordEntry::Rename { from, to, .. } => {
                        if same_text(to.as_str(), binder) {
                            return Some(from.as_str());
                        }
                    },
                    _ => {},
                }
                index += 1;
            }
            None
        },
        _ => None,
    }
}

/// Whether an entry binds a name to an export of a kind.
pub open spec fn binds_export(
    entry: RecordEntry,
    exports: Set<Seq<char>>,
    binder: Seq<char>,
) -> bool {
    match entry {
        RecordEntry::Shorthand { name, .. } => name@ == binder && exports.contains(name@),
        RecordEntry::Rename { from, to, .. } => to@ == binder && exports.contains(from@),
        _ => false,
    }
}

/// The names that a pattern binds to exports of a module that are types or
/// functions on types.
pub fn type_export_pattern_binders(pattern: &Expr, exports: &StringSet) -> (binders: StringSet)
    ensures
        forall|binder: Seq<char>| #[trigger]
            binders@.contains(binder) == (ungrouped(*pattern).kind is Record && exists|i: int|
                0 <= i < ungrouped(*pattern).kind->Record_0@.len() && binds_export(
                    #[trigger] ungrouped(*pattern).kind->Record_0@[i],
                    exports@,
                    binder,
                )),
{
    let mut binders = StringSet::new();
    match &ungroup_expr(pattern).kind {
        ExprKind::Record(entries) => {
            let mut index: usize = 0;
            while index < entries.len()
                invariant
                    index <= entries.len(),
                    forall|binder: Seq<char>| #[trigger]
                        binders@.contains(binder) == exists|i: int|
                            0 <= i < index && binds_export(
                                #[trigger] entries@[i],
                                exports@,
                                binder,
                            ),
                decreases entries.len() - index,
            {
                let ghost earlier = binders@;
                match &entries[index] {
                    RecordEntry::Shorthand { name, .. } => {
                        if exports.contains(name.as_str()) {
                            binders.insert(name.clone());
                        }
                    },
                    RecordEntry::Rename { from, to, .. } => {
                        if exports.contains(from.as_str()) {
                            binders.insert(to.clone());
                        }
                    },
                    _ => {},
                }
                assert forall|binder: Seq<char>| #[trigger] binders@.contains(binder) == exists|
                    i: int,
                |
                    0 <= i < index + 1 && binds_export(
                        #[trigger] entries@[i],
                        exports@,
                        binder,
                    ) by {
                    assert(binders@.contains(binder) == (earlier.contains(binder) || binds_export(
                        entries@[index as int],
                        exports@,
                        binder,
                    )));
                    if earlier.contains(binder) {
                        let i = choose|i: int|
                            0 <= i < index && binds_export(
                                #[trigger] entries@[i],
                                exports@,
                                binder,
                            );
                        assert(binds_export(entries@[i], exports@, binder));
                    }
                }
                index += 1;
            }
        },
        _ => {},
    }
    binders
}

// ---------------------------------------------------------------------------
// Types that patterns know
// ---------------------------------------------------------------------------
/// Whether a name of a pattern can be given a type.
pub open spec fn is_bindable(ty: SpecType) -> bool {
    resolved(ty) || some_node(ty, is_variable())
}

/// The entries of a row that a record pattern leaves.
pub open spec fn unmatched_entries(
    row: Seq<SpecRowEntry>,
    entries: Seq<RecordEntry>,
) -> Seq<SpecRowEntry>
    decreases row.len(),
{
    if row.len() == 0 {
        Seq::empty()
    } else {
        let earlier = unmatched_entries(row.drop_last(), entries);
        if some_label_matches(entries, label_of(row.last())) {
            earlier
        } else {
            earlier.push(row.last())
        }
    }
}

/// The types that a pattern gives names where a type is expected, added to those
/// already given.
pub open spec fn pattern_types(
    definitions: Map<Seq<char>, SpecType>,
    pattern: Expr,
    expected: SpecType,
    known: Map<Seq<char>, SpecType>,
) -> Map<Seq<char>, SpecType>
    decreases pattern, expected, 0nat,
{
    if pattern.kind is Group {
        pattern_types(definitions, *pattern.kind->Group_0, expected, known)
    } else if expected is Optional && empty_of(pattern) != Some(EmptyValue::Undefined) {
        pattern_types(definitions, pattern, *expected->Optional_0, known)
    } else if expected is Nullable && empty_of(pattern) != Some(EmptyValue::Null) {
        pattern_types(definitions, pattern, *expected->Nullable_0, known)
    } else {
        match pattern.kind {
            ExprKind::Name(name) => if name@ != "_"@ && (is_bindable(expected)
                || expected is Meta) {
                known.insert(name@, expected)
            } else {
                known
            },
            ExprKind::Binary { left, operator, right, .. } => if operator@ == "|"@ {
                pattern_types(
                    definitions,
                    *right,
                    expected,
                    pattern_types(definitions, *left, expected, known),
                )
            } else {
                known
            },
            ExprKind::Call { callee, args } => match callee.kind {
                ExprKind::Tag(tag) => match subject_row(expected, definitions) {
                    Some(row) => match known_payload(row, tag@) {
                        Some(payload) => if payload.len() == args@.len() {
                            payload_types(definitions, args@, payload, known, args@.len())
                        } else {
                            known
                        },
                        None => known,
                    },
                    None => known,
                },
                _ => known,
            },
            ExprKind::Record(entries) => match expected {
                SpecType::Record(row) => record_types(
                    definitions,
                    entries@,
                    row,
                    known,
                    entries@.len(),
                ),
                _ => known,
            },
            _ => known,
        }
    }
}

/// The types that the first payload patterns give names.
pub open spec fn payload_types(
    definitions: Map<Seq<char>, SpecType>,
    args: Seq<Expr>,
    payload: Seq<SpecType>,
    known: Map<Seq<char>, SpecType>,
    count: nat,
) -> Map<Seq<char>, SpecType>
    decreases args, SpecType::Deferred, count,
{
    if count == 0 || count > args.len() {
        known
    } else {
        pattern_types(
            definitions,
            args[count - 1],
            payload[count - 1],
            payload_types(definitions, args, payload, known, (count - 1) as nat),
        )
    }
}

/// The types that the first entries of a record pattern give names.
pub open spec fn record_types(
    definitions: Map<Seq<char>, SpecType>,
    entries: Seq<RecordEntry>,
    row: SpecRow,
    known: Map<Seq<char>, SpecType>,
    count: nat,
) -> Map<Seq<char>, SpecType>
    decreases entries, SpecType::Deferred, count,
{
    if count == 0 || count > entries.len() {
        known
    } else {
        let earlier = record_types(definitions, entries, row, known, (count - 1) as nat);
        match entries[count - 1] {
            RecordEntry::Field { name, value, .. } => match field_type(row, name@) {
                Some(ty) => pattern_types(definitions, *value, ty, earlier),
                None => earlier,
            },
            RecordEntry::Shorthand { name, .. } => match field_type(row, name@) {
                Some(ty) => if is_bindable(ty) {
                    earlier.insert(name@, ty)
                } else {
                    earlier
                },
                None => earlier,
            },
            RecordEntry::Rename { from, to, .. } => match field_type(row, from@) {
                Some(ty) => if is_bindable(ty) {
                    earlier.insert(to@, ty)
                } else {
                    earlier
                },
                None => earlier,
            },
            RecordEntry::Spread { value, .. } => match rest_binder(entries[count - 1]) {
                Some(name) => if row.tail is Closed {
                    earlier.insert(
                        name,
                        SpecType::Record(
                            SpecRow {
                                entries: unmatched_entries(row.entries, entries),
                                tail: RowTail::Closed,
                            },
                        ),
                    )
                } else {
                    earlier
                },
                None => earlier,
            },
            _ => earlier,
        }
    }
}

fn insert_type(known: &mut StringMap<Type>, name: &String, ty: Type)
    ensures
        type_map_view(final(known)@) == type_map_view(old(known)@).insert(name@, ty@),
{
    known.insert(name.clone(), ty);
    assert(type_map_view(known@) =~= type_map_view(old(known)@).insert(name@, ty@));
}

fn bindable(ty: &Type) -> (is: bool)
    ensures
        is == is_bindable(ty@),
{
    is_resolved_value_type(ty) || type_contains_variable(ty)
}

fn remaining_record(row: &Row, entries: &Vec<RecordEntry>) -> (rest: Type)
    ensures
        rest@ == SpecType::Record(
            (SpecRow {
                entries: unmatched_entries(row@.entries, entries@),
                tail: RowTail::Closed,
            }),
        ),
{
    let ghost all = row@.entries;
    let mut rest: Vec<RowEntry> = Vec::new();
    let mut index: usize = 0;
    assert(crate::types::entries_view(rest@) =~= Seq::empty());
    while index < row.entries.len()
        invariant
            index <= row.entries.len(),
            all == row@.entries,
            all.len() == row.entries.len(),
            crate::types::entries_view(rest@) == unmatched_entries(
                all.take(index as int),
                entries@,
            ),
        decreases row.entries.len() - index,
    {
        proof {
            let longer = all.take(index + 1);
            assert(longer.drop_last() =~= all.take(index as int));
            assert(longer.last() == row.entries@[index as int]@);
        }
        let ghost earlier = crate::types::entries_view(rest@);
        if !label_is_matched(entries, row_entry_label(&row.entries[index])) {
            rest.push(row.entries[index].clone());
            assert(crate::types::entries_view(rest@) =~= earlier.push(
                row.entries@[index as int]@,
            ));
        }
        index += 1;
    }
    assert(all.take(all.len() as int) =~= all);
    let record = Row { entries: rest, tail: RowTail::Closed };
    assert(record@.entries == crate::types::entries_view(rest@));
    assert(record@.tail == RowTail::Closed);
    Type::Record(record)
}

/// Add the types that a pattern gives names where a type is expected.
pub fn collect_known_pattern_types(
    definitions: &StringMap<Type>,
    pattern: &Expr,
    expected: &Type,
    known: &mut StringMap<Type>,
)
    ensures
        type_map_view(final(known)@) == pattern_types(
            type_map_view(definitions@),
            *pattern,
            expected@,
            type_map_view(old(known)@),
        ),
    decreases pattern, expected,
{
    if let ExprKind::Group(inner) = &pattern.kind {
        collect_known_pattern_types(definitions, inner, expected, known);
        return;
    }
    if let Type::Optional(inner) = expected {
        if !matches!(empty_value_pattern(pattern), Some(EmptyValue::Undefined)) {
            collect_known_pattern_types(definitions, pattern, inner, known);
            return;
        }
    }
    if let Type::Nullable(inner) = expected {
        if !matches!(empty_value_pattern(pattern), Some(EmptyValue::Null)) {
            collect_known_pattern_types(definitions, pattern, inner, known);
            return;
        }
    }
    match &pattern.kind {
        ExprKind::Name(name) => {
            if !name_is_placeholder(name.as_str()) && (bindable(expected) || matches!(
                expected,
                Type::Meta(_)
            )) {
                insert_type(known, name, expected.clone());
            }
        },
        ExprKind::Binary { left, operator, right, .. } => {
            if same_text(operator.as_str(), "|") {
                collect_known_pattern_types(definitions, left, expected, known);
                collect_known_pattern_types(definitions, right, expected, known);
            }
        },
        ExprKind::Call { callee, args } => {
            if let ExprKind::Tag(tag) = &callee.kind {
                if let Some(row) = subject_variant_row(expected, definitions) {
                    if let Some(payload) = literal_variant_payload(&row, tag.as_str()) {
                        assert(types_view(payload@).len() == payload.len());
                        if payload.len() == args.len() {
                            collect_known_payload_types(definitions, args, payload, known);
                        }
                    }
                }
            }
        },
        ExprKind::Record(entries) => {
            if let Type::Record(row) = expected {
                collect_known_record_pattern_types(definitions, entries, row, known);
            }
        },
        _ => {},
    }
}

fn collect_known_payload_types(
    definitions: &StringMap<Type>,
    args: &Vec<Expr>,
    payload: &Vec<Type>,
    known: &mut StringMap<Type>,
)
    requires
        args.len() == payload.len(),
    ensures
        type_map_view(final(known)@) == payload_types(
            type_map_view(definitions@),
            args@,
            types_view(payload@),
            type_map_view(old(known)@),
            args@.len(),
        ),
    decreases args, Type::Deferred,
{
    let ghost before = type_map_view(known@);
    let mut index: usize = 0;
    while index < args.len()
        invariant
            index <= args.len(),
            args.len() == payload.len(),
            before == type_map_view(old(known)@),
            type_map_view(known@) == payload_types(
                type_map_view(definitions@),
                args@,
                types_view(payload@),
                before,
                index as nat,
            ),
        decreases args.len() - index,
    {
        assert(types_view(payload@)[index as int] == payload@[index as int]@);
        collect_known_pattern_types(definitions, &args[index], &payload[index], known);
        index += 1;
    }
}

/// Add the types that a record pattern gives names.
pub fn collect_known_record_pattern_types(
    definitions: &StringMap<Type>,
    entries: &Vec<RecordEntry>,
    row: &Row,
    known: &mut StringMap<Type>,
)
    ensures
        type_map_view(final(known)@) == record_types(
            type_map_view(definitions@),
            entries@,
            row@,
            type_map_view(old(known)@),
            entries@.len(),
        ),
    decreases entries, Type::Deferred,
{
    let ghost before = type_map_view(known@);
    assert(row@.tail == row.tail);
    let mut index: usize = 0;
    while index < entries.len()
        invariant
            index <= entries.len(),
            row@.tail == row.tail,
            before == type_map_view(old(known)@),
            type_map_view(known@) == record_types(
                type_map_view(definitions@),
                entries@,
                row@,
                before,
                index as nat,
            ),
        decreases entries.len() - index,
    {
        match &entries[index] {
            RecordEntry::Field { name, value, .. } => {
                if let Some(ty) = row_field_type(row, name.as_str()) {
                    collect_known_pattern_types(definitions, value, ty, known);
                }
            },
            RecordEntry::Shorthand { name, .. } => {
                if let Some(ty) = row_field_type(row, name.as_str()) {
                    if bindable(ty) {
                        insert_type(known, name, ty.clone());
                    }
                }
            },
            RecordEntry::Rename { from, to, .. } => {
                if let Some(ty) = row_field_type(row, from.as_str()) {
                    if bindable(ty) {
                        insert_type(known, to, ty.clone());
                    }
                }
            },
            RecordEntry::Spread { value, .. } => {
                if let ExprKind::Name(name) = &value.kind {
                    if !name_is_placeholder(name.as_str()) && matches!(row.tail, RowTail::Closed) {
                        insert_type(known, name, remaining_record(row, entries));
                    }
                }
            },
            _ => {},
        }
        index += 1;
    }
}

// ---------------------------------------------------------------------------
// Names that alternatives bind
// ---------------------------------------------------------------------------
/// An alternative of a pattern, with the names that it binds in order.
#[derive(Debug)]
pub struct BoundAlternative {
    pub span: Span,
    pub names: Vec<String>,
}

/// Names that only one of two alternatives binds.
#[derive(Debug)]
pub struct OrPatternBindingMismatch {
    pub span: Span,
    pub names: Vec<String>,
}

/// The names that an alternative binds.
pub open spec fn bound_names(alternative: BoundAlternative) -> Set<Seq<char>> {
    texts_view(alternative.names@).to_set()
}

/// The names that only one of two alternatives binds.
pub open spec fn unshared(first: Set<Seq<char>>, second: Set<Seq<char>>) -> Set<Seq<char>> {
    first.difference(second).union(second.difference(first))
}

/// Whether a mismatch reports the names that an alternative does not share.
pub open spec fn is_mismatch(
    first: BoundAlternative,
    alternative: BoundAlternative,
    mismatch: OrPatternBindingMismatch,
) -> bool {
    &&& mismatch.span == alternative.span
    &&& increasing(texts_view(mismatch.names@))
    &&& texts_view(mismatch.names@).to_set() == unshared(
        bound_names(first),
        bound_names(alternative),
    )
}

/// The positions of the alternatives that do not bind the names of the first,
/// up to a position.
pub open spec fn mismatched(alternatives: Seq<BoundAlternative>, count: nat) -> Seq<int>
    decreases count,
{
    if count == 0 {
        Seq::empty()
    } else {
        let earlier = mismatched(alternatives, (count - 1) as nat);
        if bound_names(alternatives[count - 1]) == bound_names(alternatives[0]) {
            earlier
        } else {
            earlier.push(count - 1)
        }
    }
}

fn insert_missing(names: &mut Vec<String>, from: &Vec<String>, other: &Vec<String>)
    requires
        increasing(texts_view(old(names)@)),
    ensures
        increasing(texts_view(final(names)@)),
        texts_view(final(names)@).to_set() == texts_view(old(names)@).to_set().union(
            texts_view(from@).to_set().difference(texts_view(other@).to_set()),
        ),
{
    let ghost all = texts_view(from@);
    let ghost before = texts_view(names@).to_set();
    let ghost removed = texts_view(other@).to_set();
    let mut index: usize = 0;
    assert(all.take(0).to_set().difference(removed) =~= Set::empty());
    assert(texts_view(names@).to_set() =~= before.union(
        all.take(0).to_set().difference(removed),
    ));
    while index < from.len()
        invariant
            index <= from.len(),
            all == texts_view(from@),
            removed == texts_view(other@).to_set(),
            increasing(texts_view(names@)),
            texts_view(names@).to_set() == before.union(
                all.take(index as int).to_set().difference(removed),
            ),
        decreases from.len() - index,
    {
        let ghost earlier = texts_view(names@).to_set();
        let ghost shorter = all.take(index as int);
        let ghost name = all[index as int];
        assert(all.take(index + 1) =~= shorter.push(name));
        assert forall|x: Seq<char>| #[trigger]
            all.take(index + 1).to_set().contains(x) == (shorter.to_set().contains(x) || x
            == name) by {
            if shorter.contains(x) {
                let i = choose|i: int| 0 <= i < shorter.len() && shorter[i] == x;
                assert(all.take(index + 1)[i] == x);
            }
            if x == name {
                assert(all.take(index + 1)[index as int] == x);
            }
        }
        if !texts_contain(other, from[index].as_str()) {
            insert_name(names, from[index].as_str());
        }
        assert(texts_view(names@).to_set() =~= before.union(
            all.take(index + 1).to_set().difference(removed),
        ));
        index += 1;
    }
    assert(all.take(all.len() as int) =~= all);
}

/// The alternatives that do not bind the names of the first one, with the names
/// that are not shared in order.
pub fn collect_flat_or_pattern_binding_mismatches(alternatives: &Vec<BoundAlternative>) -> (mismatches:
    Vec<OrPatternBindingMismatch>)
    ensures
        mismatches@.len() == mismatched(alternatives@, alternatives@.len()).len(),
        forall|i: int|
            0 <= i < mismatches@.len() ==> is_mismatch(
                alternatives@[0],
                alternatives@[mismatched(alternatives@, alternatives@.len())[i]],
                #[trigger] mismatches@[i],
            ),
{
    let mut mismatches: Vec<OrPatternBindingMismatch> = Vec::new();
    let mut index: usize = 0;
    while index < alternatives.len()
        invariant
            index <= alternatives.len(),
            mismatches@.len() == mismatched(alternatives@, index as nat).len(),
            forall|i: int|
                0 <= i < mismatches@.len() ==> is_mismatch(
                    alternatives@[0],
                    alternatives@[mismatched(alternatives@, index as nat)[i]],
                    #[trigger] mismatches@[i],
                ),
        decreases alternatives.len() - index,
    {
        let mut names: Vec<String> = Vec::new();
        let ghost first = bound_names(alternatives@[0]);
        let ghost second = bound_names(alternatives@[index as int]);
        assert(texts_view(names@) =~= Seq::empty());
        assert(texts_view(names@).to_set() =~= Set::empty());
        insert_missing(&mut names, &alternatives[0].names, &alternatives[index].names);
        insert_missing(&mut names, &alternatives[index].names, &alternatives[0].names);
        let ghost found = texts_view(names@);
        assert(found.to_set() =~= unshared(first, second));
        proof {
            if names@.len() == 0 {
                assert forall|x: Seq<char>| first.contains(x) == second.contains(x) by {
                    assert(!found.to_set().contains(x));
                    assert(!unshared(first, second).contains(x));
                }
                assert(first =~= second);
            } else {
                assert(found.to_set().contains(found[0]));
                assert(unshared(first, second).contains(found[0]));
            }
        }
        if names.len() > 0 {
            mismatches.push(OrPatternBindingMismatch { span: alternatives[index].span, names });
        }
        index += 1;
    }
    mismatches
}

// ---------------------------------------------------------------------------
// Laws
// ---------------------------------------------------------------------------
/// The order in which alternatives are grouped does not matter.
pub proof fn grouping_keeps_alternatives(
    left: Expr,
    middle: Expr,
    right: Expr,
    outer: Expr,
    inner: Expr,
    other: Expr,
    rest: Expr,
)
    requires
        inner.kind is Binary && inner.kind->Binary_operator@ == "|"@,
        *inner.kind->Binary_left == left && *inner.kind->Binary_right == middle,
        outer.kind is Binary && outer.kind->Binary_operator@ == "|"@,
        *outer.kind->Binary_left == inner && *outer.kind->Binary_right == right,
        rest.kind is Binary && rest.kind->Binary_operator@ == "|"@,
        *rest.kind->Binary_left == middle && *rest.kind->Binary_right == right,
        other.kind is Binary && other.kind->Binary_operator@ == "|"@,
        *other.kind->Binary_left == left && *other.kind->Binary_right == rest,
    ensures
        or_alternatives(outer) == or_alternatives(other),
{
    reveal_with_fuel(or_alternatives, 3);
    assert(or_alternatives(outer) =~= or_alternatives(left) + or_alternatives(middle)
        + or_alternatives(right));
    assert(or_alternatives(other) =~= or_alternatives(left) + (or_alternatives(middle)
        + or_alternatives(right)));
    assert(or_alternatives(outer) =~= or_alternatives(other));
}

} // verus!
