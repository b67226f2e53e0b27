//! Rows that are written entry by entry: additions, replacements, removals,
//! renamings and spreads.
use crate::collections::StringMap;
use crate::comparison::pairs_view;
use crate::normalize::{normal_form, normalize};
use crate::rows::{
    entry_kind, first_kind, label_of, label_position, label_position_is_first, owned_row_view,
    relabel_row_entry, relabelled, row_entry_index, row_entry_label, row_entry_variant_kind,
    variant_entry_kind, VariantEntryKind,
};
use crate::syntax::{ungroup_expr, ungrouped, Expr, ExprKind, RecordEntry};
use crate::text::texts_view;
use crate::type_ops::type_map_view;
use crate::types::{
    entries_view, Literal, Row, RowEntry, RowTail, SpecRow, SpecRowEntry, SpecType, Type,
};
use vstd::prelude::*;

verus! {

/// Whether a row is that of a record or of a variant.
#[derive(Debug, Clone, Copy, PartialEq, Eq, Structural)]
pub enum RowKind {
    Record,
    Variant,
}

/// Where a label is written twice.
#[derive(Debug, Clone, Copy, PartialEq, Eq, Structural)]
pub enum DuplicateRowLabelContext {
    RecordAdd,
    RecordValueAdd,
    VariantAdd,
    Spread,
}

/// One step in writing a row.
#[derive(Debug)]
#[allow(inconsistent_fields)]
pub enum RowEdit {
    /// Give a field a type, in place of the one that it has.
    Replace { name: String, ty: Type },
    /// Add an entry under a new label.
    Add { entry: RowEntry, context: DuplicateRowLabelContext },
    /// Add an entry of the kind that a variant has.
    AddVariant { entry: RowEntry },
    /// Remove the entries with these labels.
    Delete { labels: Vec<String> },
    Rename { from: String, to: String },
    /// Add the entries of another row.
    Merge { source: Row, overwrite: bool, kind: RowKind },
    /// Let the row have other entries.
    Open,
}

/// One step in writing a row.
#[allow(inconsistent_fields)]
pub ghost enum SpecRowEdit {
    Replace { name: Seq<char>, ty: SpecType },
    Add { entry: SpecRowEntry, context: DuplicateRowLabelContext },
    AddVariant { entry: SpecRowEntry },
    Delete { labels: Seq<Seq<char>> },
    Rename { from: Seq<char>, to: Seq<char> },
    Merge { source: SpecRow, overwrite: bool, kind: RowKind },
    Open,
}

impl RowEdit {
    pub open spec fn view(&self) -> SpecRowEdit {
        match self {
            RowEdit::Replace { name, ty } => SpecRowEdit::Replace { name: name@, ty: ty@ },
            RowEdit::Add { entry, context } => SpecRowEdit::Add {
                entry: entry@,
                context: *context,
            },
            RowEdit::AddVariant { entry } => SpecRowEdit::AddVariant { entry: entry@ },
            RowEdit::Delete { labels } => SpecRowEdit::Delete { labels: texts_view(labels@) },
            RowEdit::Rename { from, to } => SpecRowEdit::Rename { from: from@, to: to@ },
            RowEdit::Merge { source, overwrite, kind } => SpecRowEdit::Merge {
                source: source@,
                overwrite: *overwrite,
                kind: *kind,
            },
            RowEdit::Open => SpecRowEdit::Open,
        }
    }
}

/// What is wrong with a step.
#[derive(Debug)]
pub enum RowIssue {
    ReplaceAbsent(String),
    Duplicate { label: String, context: DuplicateRowLabelContext },
    DeleteAbsent(String),
    RenameAbsent(String),
    RenameTargetPresent { from: String, to: String },
    /// An entry of another kind than the variant has.
    MixedEntries(VariantEntryKind),
}

/// What is wrong with a step.
pub ghost enum SpecRowIssue {
    ReplaceAbsent(Seq<char>),
    Duplicate { label: Seq<char>, context: DuplicateRowLabelContext },
    DeleteAbsent(Seq<char>),
    RenameAbsent(Seq<char>),
    RenameTargetPresent { from: Seq<char>, to: Seq<char> },
    MixedEntries(VariantEntryKind),
}

impl RowIssue {
    pub open spec fn view(&self) -> SpecRowIssue {
        match self {
            RowIssue::ReplaceAbsent(name) => SpecRowIssue::ReplaceAbsent(name@),
            RowIssue::Duplicate { label, context } => SpecRowIssue::Duplicate {
                label: label@,
                context: *context,
            },
            RowIssue::DeleteAbsent(label) => SpecRowIssue::DeleteAbsent(label@),
            RowIssue::RenameAbsent(from) => SpecRowIssue::RenameAbsent(from@),
            RowIssue::RenameTargetPresent { from, to } => SpecRowIssue::RenameTargetPresent {
                from: from@,
                to: to@,
            },
            RowIssue::MixedEntries(kind) => SpecRowIssue::MixedEntries(*kind),
        }
    }
}

pub open spec fn row_issues_view(issues: Seq<RowIssue>) -> Seq<SpecRowIssue> {
    Seq::new(issues.len(), |i: int| issues[i]@)
}

/// A tail that stands for the merging of two others. The second one counts as spread with
/// or without overwriting.
#[derive(Debug, Clone, Copy, PartialEq, Eq, Structural)]
pub struct TailMerge {
    pub left: u32,
    pub right: u32,
    pub merged: u32,
    pub overwrite: bool,
}

/// What comes of a step.
#[derive(Debug)]
pub struct RowOutcome {
    /// The row after the step; none where the step was not possible.
    pub row: Option<Row>,
    pub issues: Vec<RowIssue>,
    /// Types that must be compared: the one that a field has, and the one that a
    /// spread may put in its place.
    pub goals: Vec<(Type, Type)>,
    /// The two unknown tails whose merging the new tail stands for.
    pub merged_tails: Option<TailMerge>,
}

/// What comes of a step.
pub ghost struct SpecOutcome {
    pub row: Option<SpecRow>,
    pub issues: Seq<SpecRowIssue>,
    pub goals: Seq<(SpecType, SpecType)>,
    pub merged_tails: Option<TailMerge>,
}

impl RowOutcome {
    pub open spec fn view(&self) -> SpecOutcome {
        SpecOutcome {
            row: owned_row_view(self.row),
            issues: row_issues_view(self.issues@),
            goals: pairs_view(self.goals@),
            merged_tails: self.merged_tails,
        }
    }
}

// ---------------------------------------------------------------------------
// What a step does
// ---------------------------------------------------------------------------
pub open spec fn changed(entries: Seq<SpecRowEntry>, tail: RowTail) -> SpecOutcome {
    SpecOutcome {
        row: Some(SpecRow { entries, tail }),
        issues: Seq::empty(),
        goals: Seq::empty(),
        merged_tails: None,
    }
}

pub open spec fn refused(issues: Seq<SpecRowIssue>) -> SpecOutcome {
    SpecOutcome { row: None, issues, goals: Seq::empty(), merged_tails: None }
}

/// The entries with an entry at the end, unless its label is taken.
pub open spec fn added(
    row: SpecRow,
    entry: SpecRowEntry,
    context: DuplicateRowLabelContext,
) -> SpecOutcome {
    if label_position(row.entries, label_of(entry), 0) is Some {
        refused(seq![SpecRowIssue::Duplicate { label: label_of(entry), context }])
    } else {
        changed(row.entries.push(entry), row.tail)
    }
}

/// Whether an entry is of another kind than a variant has.
pub open spec fn is_mixed(entries: Seq<SpecRowEntry>, entry: SpecRowEntry) -> bool {
    first_kind(entries, 0) is Some && entry_kind(entry) is Some && first_kind(entries, 0)
        != entry_kind(entry)
}

/// The labels among some that no entry has.
pub open spec fn absent_labels(
    entries: Seq<SpecRowEntry>,
    labels: Seq<Seq<char>>,
) -> Seq<SpecRowIssue>
    decreases labels.len(),
{
    if labels.len() == 0 {
        Seq::empty()
    } else {
        let earlier = absent_labels(entries, labels.drop_last());
        if label_position(entries, labels.last(), 0) is None {
            earlier.push(SpecRowIssue::DeleteAbsent(labels.last()))
        } else {
            earlier
        }
    }
}

/// The entries without the first one of a label.
pub open spec fn without_label(entries: Seq<SpecRowEntry>, label: Seq<char>) -> Seq<SpecRowEntry> {
    match label_position(entries, label, 0) {
        Some(index) => entries.remove(index),
        None => entries,
    }
}

/// The entries without those of some labels.
pub open spec fn without_labels(
    entries: Seq<SpecRowEntry>,
    labels: Seq<Seq<char>>,
) -> Seq<SpecRowEntry>
    decreases labels.len(),
{
    if labels.len() == 0 {
        entries
    } else {
        without_label(without_labels(entries, labels.drop_last()), labels.last())
    }
}

/// The type that a spread may put in place of a field's: the payload of one that
/// may be left out.
pub open spec fn patch_type(
    base: SpecRowEntry,
    incoming: SpecRowEntry,
    definitions: Map<Seq<char>, SpecType>,
) -> Option<SpecType> {
    match (base, incoming) {
        (SpecRowEntry::Field { .. }, SpecRowEntry::Field { ty, .. }) => match normal_form(
            ty,
            definitions,
        ) {
            SpecType::Optional(inner) => Some(*inner),
            _ => None,
        },
        _ => None,
    }
}

/// How far a spread has come.
pub ghost enum Spreading {
    Going { entries: Seq<SpecRowEntry>, goals: Seq<(SpecType, SpecType)> },
    Stopped { issue: SpecRowIssue, goals: Seq<(SpecType, SpecType)> },
}

/// What the first entries of a source row make of a row.
pub open spec fn spread(
    entries: Seq<SpecRowEntry>,
    source: Seq<SpecRowEntry>,
    overwrite: bool,
    kind: RowKind,
    definitions: Map<Seq<char>, SpecType>,
    count: nat,
) -> Spreading
    decreases count,
{
    if count == 0 || count > source.len() {
        Spreading::Going { entries, goals: Seq::empty() }
    } else {
        match spread(entries, source, overwrite, kind, definitions, (count - 1) as nat) {
            Spreading::Stopped { issue, goals } => Spreading::Stopped { issue, goals },
            Spreading::Going { entries: known, goals } => {
                let entry = source[count - 1];
                if kind is Variant && is_mixed(known, entry) {
                    Spreading::Stopped {
                        issue: SpecRowIssue::MixedEntries(entry_kind(entry)->0),
                        goals,
                    }
                } else {
                    match label_position(known, label_of(entry), 0) {
                        None => Spreading::Going { entries: known.push(entry), goals },
                        Some(index) => if kind is Record && patch_type(
                            known[index],
                            entry,
                            definitions,
                        ) is Some {
                            Spreading::Going {
                                entries: known,
                                goals: goals.push(
                                    (
                                        known[index]->Field_ty,
                                        patch_type(known[index], entry, definitions)->0,
                                    ),
                                ),
                            }
                        } else if !overwrite {
                            Spreading::Stopped {
                                issue: SpecRowIssue::Duplicate {
                                    label: label_of(entry),
                                    context: DuplicateRowLabelContext::Spread,
                                },
                                goals,
                            }
                        } else {
                            Spreading::Going { entries: known.update(index, entry), goals }
                        },
                    }
                }
            },
        }
    }
}

/// The tail of a row into which another was spread. Two unknown tails have a new
/// one.
pub open spec fn merged_tail(accumulated: RowTail, incoming: RowTail, fresh: u32) -> RowTail {
    match (accumulated, incoming) {
        (_, RowTail::Closed) => accumulated,
        (RowTail::Closed, _) => incoming,
        (RowTail::Var(left), RowTail::Var(right)) => if left == right {
            RowTail::Var(left)
        } else {
            RowTail::Var(fresh)
        },
        _ => RowTail::Open,
    }
}

/// The unknown tails that need a new one.
pub open spec fn tails_to_merge(
    accumulated: RowTail,
    incoming: RowTail,
    overwrite: bool,
    fresh: u32,
) -> Option<TailMerge> {
    match (accumulated, incoming) {
        (RowTail::Var(left), RowTail::Var(right)) => if left == right {
            None
        } else {
            Some(TailMerge { left, right, merged: fresh, overwrite })
        },
        _ => None,
    }
}

/// What comes of a step in writing a row.
pub open spec fn edited(
    row: SpecRow,
    edit: SpecRowEdit,
    definitions: Map<Seq<char>, SpecType>,
    fresh: u32,
) -> SpecOutcome {
    match edit {
        SpecRowEdit::Replace { name, ty } => {
            let entry = SpecRowEntry::Field { name, ty };
            match label_position(row.entries, name, 0) {
                Some(index) => changed(row.entries.update(index, entry), row.tail),
                None => if row.tail is Closed {
                    refused(seq![SpecRowIssue::ReplaceAbsent(name)])
                } else {
                    changed(row.entries.push(entry), row.tail)
                },
            }
        },
        SpecRowEdit::Add { entry, context } => added(row, entry, context),
        SpecRowEdit::AddVariant { entry } => if is_mixed(row.entries, entry) {
            refused(seq![SpecRowIssue::MixedEntries(entry_kind(entry)->0)])
        } else {
            added(row, entry, DuplicateRowLabelContext::VariantAdd)
        },
        SpecRowEdit::Delete { labels } => if !(row.tail is Closed) {
            refused(Seq::empty())
        } else if absent_labels(row.entries, labels).len() > 0 {
            refused(absent_labels(row.entries, labels))
        } else {
            changed(without_labels(row.entries, labels), row.tail)
        },
        SpecRowEdit::Rename { from, to } => if !(row.tail is Closed) {
            refused(Seq::empty())
        } else {
            match label_position(row.entries, from, 0) {
                None => refused(seq![SpecRowIssue::RenameAbsent(from)]),
                Some(index) => if label_position(row.entries, to, 0) is Some {
                    refused(seq![SpecRowIssue::RenameTargetPresent { from, to }])
                } else {
                    changed(row.entries.update(index, relabelled(row.entries[index], to)), row.tail)
                },
            }
        },
        SpecRowEdit::Merge { source, overwrite, kind } => match spread(
            row.entries,
            source.entries,
            overwrite,
            kind,
            definitions,
            source.entries.len(),
        ) {
            Spreading::Stopped { issue, goals } => SpecOutcome {
                row: None,
                issues: seq![issue],
                goals,
                merged_tails: None,
            },
            Spreading::Going { entries, goals } => SpecOutcome {
                row: Some(
                    SpecRow { entries, tail: merged_tail(row.tail, source.tail, fresh) },
                ),
                issues: Seq::empty(),
                goals,
                merged_tails: tails_to_merge(row.tail, source.tail, overwrite, fresh),
            },
        },
        SpecRowEdit::Open => changed(row.entries, RowTail::Open),
    }
}

// ---------------------------------------------------------------------------
// Taking a step
// ---------------------------------------------------------------------------
fn done(entries: Vec<RowEntry>, tail: RowTail) -> (outcome: RowOutcome)
    ensures
        outcome@ == changed(entries_view(entries@), tail),
{
    let row = Row { entries, tail };
    assert(row@.entries == entries_view(entries@));
    assert(row@.tail == tail);
    let outcome = RowOutcome {
        row: Some(row),
        issues: Vec::new(),
        goals: Vec::new(),
        merged_tails: None,
    };
    assert(row_issues_view(outcome.issues@) =~= Seq::empty());
    assert(pairs_view(outcome.goals@) =~= Seq::empty());
    outcome
}

fn refuse(issues: Vec<RowIssue>) -> (outcome: RowOutcome)
    ensures
        outcome@ == refused(row_issues_view(issues@)),
{
    let outcome = RowOutcome { row: None, issues, goals: Vec::new(), merged_tails: None };
    assert(pairs_view(outcome.goals@) =~= Seq::empty());
    outcome
}

fn refuse_for(issue: RowIssue) -> (outcome: RowOutcome)
    ensures
        outcome@ == refused(seq![issue@]),
{
    let mut issues: Vec<RowIssue> = Vec::new();
    issues.push(issue);
    assert(row_issues_view(issues@) =~= seq![issue@]);
    refuse(issues)
}

fn push_entry(entries: &mut Vec<RowEntry>, entry: RowEntry)
    ensures
        entries_view(final(entries)@) == entries_view(old(entries)@).push(entry@),
{
    entries.push(entry);
    assert(entries_view(entries@) =~= entries_view(old(entries)@).push(entry@));
}

fn set_entry(entries: &mut Vec<RowEntry>, index: usize, entry: RowEntry)
    requires
        index < old(entries).len(),
    ensures
        entries_view(final(entries)@) == entries_view(old(entries)@).update(index as int, entry@),
{
    entries.set(index, entry);
    assert(entries_view(entries@) =~= entries_view(old(entries)@).update(index as int, entry@));
}

fn add_entry(row: Row, entry: RowEntry, context: DuplicateRowLabelContext) -> (outcome: RowOutcome)
    ensures
        outcome@ == added(row@, entry@, context),
{
    assert(row@.entries == entries_view(row.entries@));
    assert(row@.tail == row.tail);
    if row_entry_index(&row.entries, row_entry_label(&entry)).is_some() {
        return refuse_for(
            RowIssue::Duplicate { label: row_entry_label(&entry).to_owned(), context },
        );
    }
    let tail = row.tail;
    let mut entries = row.entries;
    push_entry(&mut entries, entry);
    done(entries, tail)
}

/// The kind of an entry where it is another one than a variant has.
pub fn check_homogeneous_variant_entry(existing: &Vec<RowEntry>, incoming: &RowEntry) -> (mixed: Option<
    VariantEntryKind,
>)
    ensures
        mixed == (if is_mixed(entries_view(existing@), incoming@) {
            entry_kind(incoming@)
        } else {
            None
        }),
{
    match (variant_entry_kind(existing), row_entry_variant_kind(incoming)) {
        (Some(existing), Some(incoming)) => if existing != incoming {
            Some(incoming)
        } else {
            None
        },
        _ => None,
    }
}

/// The entries without the first one of a label.
fn remove_label(entries: &mut Vec<RowEntry>, label: &str)
    ensures
        entries_view(final(entries)@) == without_label(entries_view(old(entries)@), label@),
{
    if let Some(index) = row_entry_index(entries, label) {
        entries.remove(index);
        assert(entries_view(entries@) =~= entries_view(old(entries)@).remove(index as int));
    }
}

fn delete_closed_row_labels(row: Row, labels: &Vec<String>) -> (outcome: RowOutcome)
    requires
        row.tail is Closed,
    ensures
        outcome@ == (if absent_labels(row@.entries, texts_view(labels@)).len() > 0 {
            refused(absent_labels(row@.entries, texts_view(labels@)))
        } else {
            changed(without_labels(row@.entries, texts_view(labels@)), row@.tail)
        }),
{
    let ghost all = texts_view(labels@);
    assert(row@.entries == entries_view(row.entries@));
    assert(row@.tail == row.tail);
    let mut issues: Vec<RowIssue> = Vec::new();
    let mut index: usize = 0;
    assert(row_issues_view(issues@) =~= Seq::empty());
    while index < labels.len()
        invariant
            index <= labels.len(),
            all == texts_view(labels@),
            row@.entries == entries_view(row.entries@),
            row_issues_view(issues@) == absent_labels(row@.entries, all.take(index as int)),
        decreases labels.len() - index,
    {
        proof {
            let longer = all.take(index + 1);
            assert(longer.drop_last() =~= all.take(index as int));
            assert(longer.last() == labels@[index as int]@);
        }
        if row_entry_index(&row.entries, labels[index].as_str()).is_none() {
            let ghost earlier = row_issues_view(issues@);
            issues.push(RowIssue::DeleteAbsent(labels[index].clone()));
            assert(row_issues_view(issues@) =~= earlier.push(
                SpecRowIssue::DeleteAbsent(labels@[index as int]@),
            ));
        }
        index += 1;
    }
    assert(all.take(all.len() as int) =~= all);
    assert(row_issues_view(issues@).len() == issues.len());
    if issues.len() > 0 {
        return refuse(issues);
    }
    let tail = row.tail;
    let ghost start = row@.entries;
    let mut entries = row.entries;
    let mut index: usize = 0;
    while index < labels.len()
        invariant
            index <= labels.len(),
            all == texts_view(labels@),
            entries_view(entries@) == without_labels(start, all.take(index as int)),
        decreases labels.len() - index,
    {
        proof {
            let longer = all.take(index + 1);
            assert(longer.drop_last() =~= all.take(index as int));
            assert(longer.last() == labels@[index as int]@);
        }
        remove_label(&mut entries, labels[index].as_str());
        index += 1;
    }
    done(entries, tail)
}

/// The type that a spread may put in place of a field's.
pub fn merge_optional_record_patch_field(
    base: &RowEntry,
    incoming: &RowEntry,
    definitions: &StringMap<Type>,
) -> (goal: Option<(Type, Type)>)
    ensures
        match goal {
            Some((base_ty, inner)) => base@ is Field && base_ty@ == base@->Field_ty
                && patch_type(base@, incoming@, type_map_view(definitions@)) == Some(inner@),
            None => patch_type(base@, incoming@, type_map_view(definitions@)) is None,
        },
{
    match (base, incoming) {
        (RowEntry::Field { ty: base_ty, .. }, RowEntry::Field { ty, .. }) => match normalize(
            ty,
            definitions,
        ) {
            Type::Optional(inner) => Some((base_ty.clone(), *inner)),
            _ => None,
        },
        _ => None,
    }
}

/// The tail of a row into which another was spread, and the unknown tails whose
/// merging it stands for.
pub fn merge_row_tails(
    accumulated: RowTail,
    incoming: RowTail,
    overwrite: bool,
    fresh: u32,
) -> (merged: (RowTail, Option<TailMerge>))
    ensures
        merged.0 == merged_tail(accumulated, incoming, fresh),
        merged.1 == tails_to_merge(accumulated, incoming, overwrite, fresh),
{
    match (accumulated, incoming) {
        (_, RowTail::Closed) => (accumulated, None),
        (RowTail::Closed, _) => (incoming, None),
        (RowTail::Var(left), RowTail::Var(right)) => if left == right {
            (RowTail::Var(left), None)
        } else {
            (RowTail::Var(fresh), Some(TailMerge { left, right, merged: fresh, overwrite }))
        },
        _ => (RowTail::Open, None),
    }
}

proof fn stops_stay(
    entries: Seq<SpecRowEntry>,
    source: Seq<SpecRowEntry>,
    overwrite: bool,
    kind: RowKind,
    definitions: Map<Seq<char>, SpecType>,
    few: nat,
    many: nat,
)
    requires
        few <= many <= source.len(),
        spread(entries, source, overwrite, kind, definitions, few) is Stopped,
    ensures
        spread(entries, source, overwrite, kind, definitions, many) == spread(
            entries,
            source,
            overwrite,
            kind,
            definitions,
            few,
        ),
    decreases many,
{
    if few < many {
        stops_stay(entries, source, overwrite, kind, definitions, few, (many - 1) as nat);
    }
}

fn stopped(issue: RowIssue, goals: Vec<(Type, Type)>) -> (outcome: RowOutcome)
    ensures
        outcome@ == (SpecOutcome {
            row: None,
            issues: seq![issue@],
            goals: pairs_view(goals@),
            merged_tails: None,
        }),
{
    let mut issues: Vec<RowIssue> = Vec::new();
    issues.push(issue);
    assert(row_issues_view(issues@) =~= seq![issue@]);
    RowOutcome { row: None, issues, goals, merged_tails: None }
}

/// Spread a row into another.
pub fn merge_source_row(
    row: Row,
    source: Row,
    overwrite: bool,
    kind: RowKind,
    definitions: &StringMap<Type>,
    fresh: u32,
) -> (outcome: RowOutcome)
    ensures
        outcome@ == edited(
            row@,
            (SpecRowEdit::Merge { source: source@, overwrite, kind }),
            type_map_view(definitions@),
            fresh,
        ),
{
    let ghost start = row@.entries;
    let ghost given = source@.entries;
    let ghost types = type_map_view(definitions@);
    assert(start == entries_view(row.entries@));
    assert(row@.tail == row.tail);
    assert(given.len() == source.entries.len());
    assert(source@.tail == source.tail);
    let row_tail = row.tail;
    let mut entries = row.entries;
    let mut goals: Vec<(Type, Type)> = Vec::new();
    let mut index: usize = 0;
    assert(pairs_view(goals@) =~= Seq::empty());
    while index < source.entries.len()
        invariant
            index <= source.entries.len(),
            start == row@.entries,
            given == source@.entries,
            given.len() == source.entries.len(),
            types == type_map_view(definitions@),
            spread(start, given, overwrite, kind, types, index as nat) == (Spreading::Going {
                entries: entries_view(entries@),
                goals: pairs_view(goals@),
            }),
        decreases source.entries.len() - index,
    {
        let entry = source.entries[index].clone();
        let ghost known = entries_view(entries@);
        let ghost earlier = pairs_view(goals@);
        assert(given[index as int] == entry@);
        if matches!(kind, RowKind::Variant) {
            if let Some(found) = check_homogeneous_variant_entry(&entries, &entry) {
                proof {
                    stops_stay(
                        start,
                        given,
                        overwrite,
                        kind,
                        types,
                        (index + 1) as nat,
                        given.len(),
                    );
                }
                return stopped(RowIssue::MixedEntries(found), goals);
            }
        }
        match row_entry_index(&entries, row_entry_label(&entry)) {
            None => {
                push_entry(&mut entries, entry);
            },
            Some(position) => {
                assert(known[position as int] == entries@[position as int]@);
                let patch = if matches!(kind, RowKind::Record) {
                    merge_optional_record_patch_field(&entries[position], &entry, definitions)
                } else {
                    None
                };
                match patch {
                    Some(goal) => {
                        goals.push(goal);
                        assert(pairs_view(goals@) =~= earlier.push((goal.0@, goal.1@)));
                    },
                    None => {
                        if !overwrite {
                            proof {
                                stops_stay(
                                    start,
                                    given,
                                    overwrite,
                                    kind,
                                    types,
                                    (index + 1) as nat,
                                    given.len(),
                                );
                            }
                            return stopped(
                                RowIssue::Duplicate {
                                    label: row_entry_label(&entry).to_owned(),
                                    context: DuplicateRowLabelContext::Spread,
                                },
                                goals,
                            );
                        }
                        set_entry(&mut entries, position, entry);
                    },
                }
            },
        }
        index += 1;
    }
    let (tail, merged_tails) = merge_row_tails(row_tail, source.tail, overwrite, fresh);
    let merged = Row { entries, tail };
    assert(merged@.entries == entries_view(entries@));
    assert(merged@.tail == tail);
    let outcome = RowOutcome { row: Some(merged), issues: Vec::new(), goals, merged_tails };
    assert(row_issues_view(outcome.issues@) =~= Seq::empty());
    outcome
}

/// Take a step in writing a row. `fresh` is the unknown tail that a merging of
/// two unknown tails has.
pub fn fold_row_entry(row: Row, edit: RowEdit, definitions: &StringMap<Type>, fresh: u32) -> (outcome:
    RowOutcome)
    ensures
        outcome@ == edited(row@, edit@, type_map_view(definitions@), fresh),
{
    assert(row@.entries == entries_view(row.entries@));
    assert(row@.tail == row.tail);
    match edit {
        RowEdit::Replace { name, ty } => {
            let position = row_entry_index(&row.entries, name.as_str());
            let closed = matches!(row.tail, RowTail::Closed);
            let tail = row.tail;
            let mut entries = row.entries;
            match position {
                Some(index) => {
                    set_entry(&mut entries, index, RowEntry::Field { name, ty });
                    done(entries, tail)
                },
                None => if closed {
                    refuse_for(RowIssue::ReplaceAbsent(name))
                } else {
                    push_entry(&mut entries, RowEntry::Field { name, ty });
                    done(entries, tail)
                },
            }
        },
        RowEdit::Add { entry, context } => add_entry(row, entry, context),
        RowEdit::AddVariant { entry } => match check_homogeneous_variant_entry(
            &row.entries,
            &entry,
        ) {
            Some(kind) => refuse_for(RowIssue::MixedEntries(kind)),
            None => add_entry(row, entry, DuplicateRowLabelContext::VariantAdd),
        },
        RowEdit::Delete { labels } => if !matches!(row.tail, RowTail::Closed) {
            let none: Vec<RowIssue> = Vec::new();
            assert(row_issues_view(none@) =~= Seq::empty());
            refuse(none)
        } else {
            delete_closed_row_labels(row, &labels)
        },
        RowEdit::Rename { from, to } => {
            if !matches!(row.tail, RowTail::Closed) {
                let none: Vec<RowIssue> = Vec::new();
                assert(row_issues_view(none@) =~= Seq::empty());
                return refuse(none);
            }
            match row_entry_index(&row.entries, from.as_str()) {
                None => refuse_for(RowIssue::RenameAbsent(from)),
                Some(index) => {
                    if row_entry_index(&row.entries, to.as_str()).is_some() {
                        return refuse_for(RowIssue::RenameTargetPresent { from, to });
                    }
                    let entry = relabel_row_entry(&row.entries[index], to.as_str());
                    assert(row@.entries[index as int] == row.entries@[index as int]@);
                    let tail = row.tail;
                    let mut entries = row.entries;
                    set_entry(&mut entries, index, entry);
                    done(entries, tail)
                },
            }
        },
        RowEdit::Merge { source, overwrite, kind } => merge_source_row(
            row,
            source,
            overwrite,
            kind,
            definitions,
            fresh,
        ),
        RowEdit::Open => done(row.entries, RowTail::Open),
    }
}

// ---------------------------------------------------------------------------
// Which step an entry asks for
// ---------------------------------------------------------------------------
/// Whether an expression is the missing value.
pub fn is_undefined_value(expr: &Expr) -> (undefined: bool)
    ensures
        undefined == (ungrouped(*expr).kind is Undefined),
{
    matches!(&ungroup_expr(expr).kind, ExprKind::Undefined)
}

/// What an entry of a record or a set asks for. Names stand for expressions whose
/// types or labels are needed first.
#[derive(Debug)]
#[allow(inconsistent_fields)]
pub enum EntryPlan<'a> {
    /// The row has no type.
    Refuse,
    /// The row has no type; what the entry holds is still looked at.
    LookThenRefuse,
    /// The entry adds nothing.
    Skip,
    /// The entry adds nothing; its key is still looked at.
    SkipKey(&'a Expr),
    /// A field gets the type of an expression.
    Field { name: &'a str, value: &'a Expr, overwrite: bool },
    /// A field whose label is computed gets the type of an expression.
    Computed { key: &'a Expr, value: &'a Expr, refused: bool },
    /// The labels that a name stands for, or its own, are removed.
    Delete { name: &'a str },
    DeleteComputed { key: &'a Expr },
    Rename { from: &'a str, to: &'a str },
    Spread { value: &'a Expr, overwrite: bool },
    Open,
    /// The entries of a body are added for each label of a set.
    Iterate { source: &'a Expr, binder: &'a str },
    /// A tag or a literal is added to a variant.
    Tag(&'a Expr),
}

/// The pair that an element of a record must be.
pub open spec fn element_pair(value: Expr) -> Option<(Expr, Expr)> {
    match ungrouped(value).kind {
        ExprKind::Tuple(items) => if items@.len() == 2 {
            Some((items@[0], items@[1]))
        } else {
            None
        },
        _ => None,
    }
}

/// What an entry asks for, in a row of a kind whose tail is closed or not, in
/// an annotation or a value.
pub open spec fn is_planned_entry(
    entry: RecordEntry,
    kind: RowKind,
    is_value: bool,
    closed: bool,
    plan: EntryPlan<'_>,
) -> bool {
    match entry {
        RecordEntry::Field { name, value, overwrite, .. } => if kind is Variant {
            plan is Refuse
        } else if is_value && ungrouped(*value).kind is Undefined {
            plan is Skip
        } else {
            plan is Field && plan->Field_name@ == name@ && *plan->Field_value == *value
                && plan->Field_overwrite == overwrite
        },
        RecordEntry::FieldComputed { key, value, .. } => if kind is Record && is_value
            && ungrouped(*value).kind is Undefined {
            plan is SkipKey && *plan->SkipKey_0 == *key
        } else {
            plan is Computed && *plan->Computed_key == *key && *plan->Computed_value == *value
                && plan->refused == (kind is Variant)
        },
        RecordEntry::Delete { name, .. } => if closed {
            plan is Delete && plan->Delete_name@ == name@
        } else {
            plan is Refuse
        },
        RecordEntry::DeleteComputed { key, .. } => if closed {
            plan is DeleteComputed && *plan->DeleteComputed_key == *key
        } else {
            plan is LookThenRefuse
        },
        RecordEntry::Rename { from, to, .. } => if closed {
            plan is Rename && plan->from@ == from@ && plan->to@ == to@
        } else {
            plan is Refuse
        },
        RecordEntry::Spread { value, overwrite, .. } => if is_value && kind is Variant {
            plan is Refuse
        } else {
            plan is Spread && *plan->Spread_value == *value && plan->Spread_overwrite == overwrite
        },
        RecordEntry::Open { .. } => if is_value {
            plan is Refuse
        } else {
            plan is Open
        },
        RecordEntry::Iteration { source, binder, .. } => if kind is Variant {
            plan is LookThenRefuse
        } else {
            plan is Iterate && *plan->Iterate_source == *source && plan->binder@ == binder@
        },
        RecordEntry::Element(value) => match kind {
            RowKind::Variant => plan is Tag && *plan->Tag_0 == *value,
            RowKind::Record => match element_pair(*value) {
                Some((key, field)) => plan is Computed && *plan->Computed_key == key
                    && *plan->Computed_value == field && !plan->refused,
                None => plan is LookThenRefuse,
            },
        },
        _ => plan is Refuse,
    }
}

/// Decide what an entry asks for.
pub fn plan_row_entry<'a>(entry: &'a RecordEntry, kind: RowKind, is_value: bool, closed: bool) -> (plan:
    EntryPlan<'a>)
    ensures
        is_planned_entry(*entry, kind, is_value, closed, plan),
{
    let variant = matches!(kind, RowKind::Variant);
    match entry {
        RecordEntry::Field { name, value, overwrite, .. } => if variant {
            EntryPlan::Refuse
        } else if is_value && is_undefined_value(value) {
            EntryPlan::Skip
        } else {
            EntryPlan::Field { name: name.as_str(), value, overwrite: *overwrite }
        },
        RecordEntry::FieldComputed { key, value, .. } => if !variant && is_value
            && is_undefined_value(value) {
            EntryPlan::SkipKey(key)
        } else {
            EntryPlan::Computed { key, value, refused: variant }
        },
        RecordEntry::Delete { name, .. } => if closed {
            EntryPlan::Delete { name: name.as_str() }
        } else {
            EntryPlan::Refuse
        },
        RecordEntry::DeleteComputed { key, .. } => if closed {
            EntryPlan::DeleteComputed { key }
        } else {
            EntryPlan::LookThenRefuse
        },
        RecordEntry::Rename { from, to, .. } => if closed {
            EntryPlan::Rename { from: from.as_str(), to: to.as_str() }
        } else {
            EntryPlan::Refuse
        },
        RecordEntry::Spread { value, overwrite, .. } => if is_value && variant {
            EntryPlan::Refuse
        } else {
            EntryPlan::Spread { value, overwrite: *overwrite }
        },
        RecordEntry::Open { .. } => if is_value {
            EntryPlan::Refuse
        } else {
            EntryPlan::Open
        },
        RecordEntry::Iteration { source, binder, .. } => if variant {
            EntryPlan::LookThenRefuse
        } else {
            EntryPlan::Iterate { source, binder: binder.as_str() }
        },
        RecordEntry::Element(value) => if variant {
            EntryPlan::Tag(value)
        } else {
            match &ungroup_expr(value).kind {
                ExprKind::Tuple(items) => if items.len() == 2 {
                    EntryPlan::Computed { key: &items[0], value: &items[1], refused: false }
                } else {
                    EntryPlan::LookThenRefuse
                },
                _ => EntryPlan::LookThenRefuse,
            }
        },
        _ => EntryPlan::Refuse,
    }
}

/// What becomes of the body of an iteration for one label: its entries are added
/// where the guard holds.
#[derive(Debug, Clone, Copy, PartialEq, Eq, Structural)]
pub enum BodyStep {
    Add,
    Skip,
    /// The guard is not known.
    LookThenRefuse,
}

/// Decide what becomes of the body of an iteration. `guard` is none where there is
/// no guard, and otherwise what is known of it.
pub fn fold_unrolled_iteration_body(guard: Option<Option<bool>>) -> (step: BodyStep)
    ensures
        step == (match guard {
            None => BodyStep::Add,
            Some(Some(true)) => BodyStep::Add,
            Some(Some(false)) => BodyStep::Skip,
            Some(None) => BodyStep::LookThenRefuse,
        }),
{
    match guard {
        None => BodyStep::Add,
        Some(Some(true)) => BodyStep::Add,
        Some(Some(false)) => BodyStep::Skip,
        Some(None) => BodyStep::LookThenRefuse,
    }
}

/// How an expression is looked at whose row has no type.
#[derive(Debug, Clone, Copy)]
pub enum Look<'a> {
    Expression(&'a Expr),
    /// As a tag of a variant.
    AsTag(&'a Expr),
}

/// How an expression is looked at whose row has no type.
pub ghost enum SpecLook {
    Expression(Expr),
    AsTag(Expr),
}

pub open spec fn looks_view(looks: Seq<Look<'_>>) -> Seq<SpecLook> {
    Seq::new(
        looks.len(),
        |i: int|
            match looks[i] {
                Look::Expression(expr) => SpecLook::Expression(*expr),
                Look::AsTag(expr) => SpecLook::AsTag(*expr),
            },
    )
}

/// The expressions of an entry that are still looked at, in order.
pub open spec fn entry_looks(entry: RecordEntry, kind: RowKind, is_value: bool) -> Seq<SpecLook>
    decreases entry,
{
    match entry {
        RecordEntry::Field { value, .. } => seq![SpecLook::Expression(*value)],
        RecordEntry::Spread { value, .. } => seq![SpecLook::Expression(*value)],
        RecordEntry::DeleteComputed { key, .. } => seq![SpecLook::Expression(*key)],
        RecordEntry::FieldComputed { key, value, .. } => seq![
            SpecLook::Expression(*key),
            SpecLook::Expression(*value),
        ],
        RecordEntry::Element(value) => if kind is Variant && !is_value {
            seq![SpecLook::AsTag(*value)]
        } else {
            seq![SpecLook::Expression(*value)]
        },
        RecordEntry::Iteration { source, guard, body, .. } => seq![SpecLook::Expression(*source)]
            + (match guard {
            Some(guard) => seq![SpecLook::Expression(*guard)],
            None => Seq::empty(),
        }) + body_looks(body@, kind, is_value, body@.len()),
        _ => Seq::empty(),
    }
}

/// The expressions of the first entries that are still looked at, in order.
pub open spec fn body_looks(
    body: Seq<RecordEntry>,
    kind: RowKind,
    is_value: bool,
    count: nat,
) -> Seq<SpecLook>
    decreases body, count,
{
    if count == 0 || count > body.len() {
        Seq::empty()
    } else {
        body_looks(body, kind, is_value, (count - 1) as nat) + entry_looks(
            body[count - 1],
            kind,
            is_value,
        )
    }
}

fn push_look<'a>(looks: &mut Vec<Look<'a>>, expr: &'a Expr)
    ensures
        looks_view(final(looks)@) == looks_view(old(looks)@) + seq![SpecLook::Expression(*expr)],
{
    looks.push(Look::Expression(expr));
    assert(looks_view(looks@) =~= looks_view(old(looks)@) + seq![SpecLook::Expression(*expr)]);
}

/// Collect the expressions of an entry that are still looked at where its row has
/// no type.
pub fn fold_deferred_row_entry<'a>(
    entry: &'a RecordEntry,
    kind: RowKind,
    is_value: bool,
    looks: &mut Vec<Look<'a>>,
)
    ensures
        looks_view(final(looks)@) == looks_view(old(looks)@) + entry_looks(
            *entry,
            kind,
            is_value,
        ),
    decreases entry, 0nat,
{
    let ghost before = looks_view(looks@);
    match entry {
        RecordEntry::Field { value, .. } => {
            push_look(looks, value);
        },
        RecordEntry::Spread { value, .. } => {
            push_look(looks, value);
        },
        RecordEntry::DeleteComputed { key, .. } => {
            push_look(looks, key);
        },
        RecordEntry::FieldComputed { key, value, .. } => {
            push_look(looks, key);
            push_look(looks, value);
            assert(looks_view(looks@) =~= before + entry_looks(*entry, kind, is_value));
        },
        RecordEntry::Element(value) => {
            if matches!(kind, RowKind::Variant) && !is_value {
                looks.push(Look::AsTag(value));
                assert(looks_view(looks@) =~= before + seq![SpecLook::AsTag(**value)]);
            } else {
                push_look(looks, value);
            }
        },
        RecordEntry::Iteration { source, guard, body, .. } => {
            push_look(looks, source);
            if let Some(guard) = guard {
                push_look(looks, guard);
            }
            fold_deferred_row_entries(body, kind, is_value, looks);
            assert(looks_view(looks@) =~= before + entry_looks(*entry, kind, is_value));
        },
        _ => {
            assert(looks_view(looks@) =~= before + entry_looks(*entry, kind, is_value));
        },
    }
}

fn fold_deferred_row_entries<'a>(
    body: &'a Vec<RecordEntry>,
    kind: RowKind,
    is_value: bool,
    looks: &mut Vec<Look<'a>>,
)
    ensures
        looks_view(final(looks)@) == looks_view(old(looks)@) + body_looks(
            body@,
            kind,
            is_value,
            body@.len(),
        ),
    decreases body, 0nat,
{
    let ghost before = looks_view(looks@);
    let mut index: usize = 0;
    assert(looks_view(looks@) =~= before + body_looks(body@, kind, is_value, 0));
    while index < body.len()
        invariant
            index <= body.len(),
            before == looks_view(old(looks)@),
            looks_view(looks@) == before + body_looks(body@, kind, is_value, index as nat),
        decreases body.len() - index,
    {
        fold_deferred_row_entry(&body[index], kind, is_value, looks);
        assert(looks_view(looks@) =~= before + body_looks(
            body@,
            kind,
            is_value,
            (index + 1) as nat,
        ));
        index += 1;
    }
}

/// How an element of a variant annotation is read.
#[derive(Debug)]
pub enum TagPlan<'a> {
    /// A tag, with the types of its payload; a lower case one is reported.
    Tag { name: &'a str, payload: Option<&'a Vec<Expr>>, lowercase: bool },
    Literal(&'a Literal),
    /// The element is no tag; what it holds is still looked at.
    Look,
}

/// How an element of a variant annotation is read.
pub open spec fn is_tag_plan(tag: Expr, plan: TagPlan<'_>) -> bool {
    match tag.kind {
        ExprKind::Tag(name) => plan is Tag && plan->name@ == name@ && plan->payload is None
            && !plan->lowercase,
        ExprKind::Name(name) => plan is Tag && plan->name@ == name@ && plan->payload is None
            && plan->lowercase,
        ExprKind::Literal(literal) => if literal is Regex {
            plan is Look
        } else {
            plan is Literal && *plan->Literal_0 == literal
        },
        ExprKind::Call { callee, args } => match callee.kind {
            ExprKind::Tag(name) => plan is Tag && plan->name@ == name@ && plan->payload == Some(
                &args,
            ) && !plan->lowercase,
            ExprKind::Name(name) => plan is Tag && plan->name@ == name@ && plan->payload == Some(
                &args,
            ) && plan->lowercase,
            _ => plan is Look,
        },
        _ => plan is Look,
    }
}

/// Decide how an element of a variant annotation is read.
pub fn lower_variant_tag<'a>(tag: &'a Expr) -> (plan: TagPlan<'a>)
    ensures
        is_tag_plan(*tag, plan),
{
    match &tag.kind {
        ExprKind::Tag(name) => TagPlan::Tag { name: name.as_str(), payload: None, lowercase: false },
        ExprKind::Name(name) => TagPlan::Tag { name: name.as_str(), payload: None, lowercase: true },
        ExprKind::Literal(literal) => if matches!(literal, Literal::Regex(_)) {
            TagPlan::Look
        } else {
            TagPlan::Literal(literal)
        },
        ExprKind::Call { callee, args } => match &callee.kind {
            ExprKind::Tag(name) => TagPlan::Tag {
                name: name.as_str(),
                payload: Some(args),
                lowercase: false,
            },
            ExprKind::Name(name) => TagPlan::Tag {
                name: name.as_str(),
                payload: Some(args),
                lowercase: true,
            },
            _ => TagPlan::Look,
        },
        _ => TagPlan::Look,
    }
}

/// The row that a spread annotation brings.
pub open spec fn annotation_source(ty: SpecType, kind: RowKind) -> Option<SpecRow> {
    match ty {
        SpecType::Record(row) => if kind is Record {
            Some(row)
        } else {
            None
        },
        SpecType::Variant(row) => if kind is Variant {
            Some(row)
        } else {
            None
        },
        SpecType::Variable(_) => Some(SpecRow { entries: Seq::empty(), tail: RowTail::Open }),
        _ => None,
    }
}

/// The row that a spread annotation brings. A type variable brings unknown
/// entries.
pub fn annotation_row_source(ty: &Type, kind: RowKind, definitions: &StringMap<Type>) -> (source: Option<
    Row,
>)
    ensures
        owned_row_view(source) == annotation_source(
            normal_form(ty@, type_map_view(definitions@)),
            kind,
        ),
{
    match (normalize(ty, definitions), kind) {
        (Type::Record(row), RowKind::Record) => Some(row),
        (Type::Variant(row), RowKind::Variant) => Some(row),
        (Type::Variable(_), _) => {
            let row = Row { entries: Vec::new(), tail: RowTail::Open };
            assert(row@.entries =~= Seq::empty());
            assert(row@.tail == RowTail::Open);
            Some(row)
        },
        _ => None,
    }
}

/// The row that a spread value brings.
#[derive(Debug)]
pub enum ValueSource {
    Row(Row),
    /// The type is unknown: it must be a record with an unknown tail.
    Unknown,
    NoRecord,
}

/// Find the row that a spread value brings, given its resolved type.
pub fn value_record_source(resolved: &Type, definitions: &StringMap<Type>) -> (source: ValueSource)
    ensures
        match normal_form(resolved@, type_map_view(definitions@)) {
            SpecType::Record(row) => source is Row && source->Row_0@ == row,
            SpecType::Meta(_) => source is Unknown,
            _ => source is NoRecord,
        },
{
    match normalize(resolved, definitions) {
        Type::Record(row) => ValueSource::Row(row),
        Type::Meta(_) => ValueSource::Unknown,
        _ => ValueSource::NoRecord,
    }
}

// ---------------------------------------------------------------------------
// Laws
// ---------------------------------------------------------------------------
/// Whether no two entries of a row have the same label.
pub open spec fn labels_are_distinct(entries: Seq<SpecRowEntry>) -> bool {
    forall|i: int, j: int|
        0 <= i < j < entries.len() ==> label_of(#[trigger] entries[i]) != label_of(
            #[trigger] entries[j],
        )
}

proof fn pushing_keeps_distinct(entries: Seq<SpecRowEntry>, entry: SpecRowEntry)
    requires
        labels_are_distinct(entries),
        label_position(entries, label_of(entry), 0) is None,
    ensures
        labels_are_distinct(entries.push(entry)),
{
    label_position_is_first(entries, label_of(entry), 0);
}

proof fn updating_keeps_distinct(entries: Seq<SpecRowEntry>, index: int, entry: SpecRowEntry)
    requires
        labels_are_distinct(entries),
        0 <= index < entries.len(),
        label_of(entry) == label_of(entries[index]) || label_position(
            entries,
            label_of(entry),
            0,
        ) is None,
    ensures
        labels_are_distinct(entries.update(index, entry)),
{
    label_position_is_first(entries, label_of(entry), 0);
    let after = entries.update(index, entry);
    assert forall|i: int, j: int| 0 <= i < j < after.len() implies label_of(#[trigger] after[i])
        != label_of(#[trigger] after[j]) by {
        assert(label_of(entries[i]) != label_of(entries[j]));
    }
}

proof fn removing_keeps_distinct(entries: Seq<SpecRowEntry>, labels: Seq<Seq<char>>)
    requires
        labels_are_distinct(entries),
    ensures
        labels_are_distinct(without_labels(entries, labels)),
    decreases labels.len(),
{
    if labels.len() > 0 {
        removing_keeps_distinct(entries, labels.drop_last());
        let before = without_labels(entries, labels.drop_last());
        label_position_is_first(before, labels.last(), 0);
        if let Some(index) = label_position(before, labels.last(), 0) {
            let after = before.remove(index);
            assert forall|i: int, j: int| 0 <= i < j < after.len() implies label_of(
                #[trigger] after[i],
            ) != label_of(#[trigger] after[j]) by {
                let first = if i < index {
                    i
                } else {
                    i + 1
                };
                let second = if j < index {
                    j
                } else {
                    j + 1
                };
                assert(label_of(before[first]) != label_of(before[second]));
            }
        }
    }
}

proof fn spreading_keeps_distinct(
    entries: Seq<SpecRowEntry>,
    source: Seq<SpecRowEntry>,
    overwrite: bool,
    kind: RowKind,
    definitions: Map<Seq<char>, SpecType>,
    count: nat,
)
    requires
        labels_are_distinct(entries),
        count <= source.len(),
    ensures
        spread(entries, source, overwrite, kind, definitions, count) is Going
            ==> labels_are_distinct(
            spread(entries, source, overwrite, kind, definitions, count)->entries,
        ),
    decreases count,
{
    if count > 0 {
        let few = (count - 1) as nat;
        spreading_keeps_distinct(entries, source, overwrite, kind, definitions, few);
        if let Spreading::Going { entries: known, goals } = spread(
            entries,
            source,
            overwrite,
            kind,
            definitions,
            few,
        ) {
            let entry = source[count - 1];
            label_position_is_first(known, label_of(entry), 0);
            match label_position(known, label_of(entry), 0) {
                None => {
                    pushing_keeps_distinct(known, entry);
                },
                Some(index) => {
                    updating_keeps_distinct(known, index, entry);
                },
            }
        }
    }
}

/// A row whose labels are distinct keeps them distinct, whatever is done to it.
pub proof fn edits_keep_labels_distinct(
    row: SpecRow,
    edit: SpecRowEdit,
    definitions: Map<Seq<char>, SpecType>,
    fresh: u32,
)
    requires
        labels_are_distinct(row.entries),
    ensures
        edited(row, edit, definitions, fresh).row is Some ==> labels_are_distinct(
            edited(row, edit, definitions, fresh).row->0.entries,
        ),
{
    match edit {
        SpecRowEdit::Replace { name, ty } => {
            let entry = SpecRowEntry::Field { name, ty };
            label_position_is_first(row.entries, name, 0);
            match label_position(row.entries, name, 0) {
                Some(index) => {
                    updating_keeps_distinct(row.entries, index, entry);
                },
                None => {
                    pushing_keeps_distinct(row.entries, entry);
                },
            }
        },
        SpecRowEdit::Add { entry, .. } => {
            if label_position(row.entries, label_of(entry), 0) is None {
                pushing_keeps_distinct(row.entries, entry);
            }
        },
        SpecRowEdit::AddVariant { entry } => {
            if label_position(row.entries, label_of(entry), 0) is None {
                pushing_keeps_distinct(row.entries, entry);
            }
        },
        SpecRowEdit::Delete { labels } => {
            removing_keeps_distinct(row.entries, labels);
        },
        SpecRowEdit::Rename { from, to } => {
            label_position_is_first(row.entries, from, 0);
            if let Some(index) = label_position(row.entries, from, 0) {
                if label_position(row.entries, to, 0) is None {
                    updating_keeps_distinct(
                        row.entries,
                        index,
                        relabelled(row.entries[index], to),
                    );
                }
            }
        },
        SpecRowEdit::Merge { source, overwrite, kind } => {
            spreading_keeps_distinct(
                row.entries,
                source.entries,
                overwrite,
                kind,
                definitions,
                source.entries.len(),
            );
        },
        SpecRowEdit::Open => {},
    }
}

/// Removing an entry that was just added gives the row back.
pub proof fn deleting_undoes_adding(
    row: SpecRow,
    entry: SpecRowEntry,
    context: DuplicateRowLabelContext,
    definitions: Map<Seq<char>, SpecType>,
    fresh: u32,
)
    requires
        row.tail is Closed,
        label_position(row.entries, label_of(entry), 0) is None,
    ensures
        edited(row, SpecRowEdit::Add { entry, context }, definitions, fresh).row is Some,
        edited(
            edited(row, SpecRowEdit::Add { entry, context }, definitions, fresh).row->0,
            SpecRowEdit::Delete { labels: seq![label_of(entry)] },
            definitions,
            fresh,
        ) == changed(row.entries, row.tail),
{
    let label = label_of(entry);
    let longer = row.entries.push(entry);
    let labels = seq![label];
    label_position_is_first(row.entries, label, 0);
    label_position_is_first(longer, label, 0);
    assert(longer[longer.len() - 1] == entry);
    assert forall|i: int| 0 <= i < row.entries.len() implies label_of(#[trigger] longer[i])
        != label by {
        assert(longer[i] == row.entries[i]);
    }
    assert(label_position(longer, label, 0) == Some(longer.len() - 1));
    assert(longer.remove(longer.len() - 1) =~= row.entries);
    assert(labels.drop_last() =~= Seq::empty());
    assert(labels.last() == label);
    reveal_with_fuel(absent_labels, 2);
    reveal_with_fuel(without_labels, 2);
    assert(absent_labels(longer, labels) =~= Seq::empty());
    assert(without_labels(longer, labels) =~= row.entries);
}

/// Renaming a field or a tag back gives the row back.
pub proof fn renaming_back_undoes_renaming(
    row: SpecRow,
    from: Seq<char>,
    to: Seq<char>,
    definitions: Map<Seq<char>, SpecType>,
    fresh: u32,
)
    requires
        row.tail is Closed,
        labels_are_distinct(row.entries),
        label_position(row.entries, from, 0) is Some,
        label_position(row.entries, to, 0) is None,
        !(row.entries[label_position(row.entries, from, 0)->0] is Literal),
    ensures
        edited(row, SpecRowEdit::Rename { from, to }, definitions, fresh).row is Some,
        edited(
            edited(row, SpecRowEdit::Rename { from, to }, definitions, fresh).row->0,
            SpecRowEdit::Rename { from: to, to: from },
            definitions,
            fresh,
        ) == changed(row.entries, row.tail),
{
    label_position_is_first(row.entries, from, 0);
    label_position_is_first(row.entries, to, 0);
    let index = label_position(row.entries, from, 0)->0;
    let renamed = row.entries.update(index, relabelled(row.entries[index], to));
    label_position_is_first(renamed, to, 0);
    label_position_is_first(renamed, from, 0);
    assert(label_of(renamed[index]) == to);
    assert forall|i: int| 0 <= i < renamed.len() && i != index implies label_of(
        #[trigger] renamed[i],
    ) != to && label_of(renamed[i]) != from by {
        assert(renamed[i] == row.entries[i]);
        if i < index {
            assert(label_of(row.entries[i]) != label_of(row.entries[index]));
        } else {
            assert(label_of(row.entries[index]) != label_of(row.entries[i]));
        }
    }
    assert(label_position(renamed, to, 0) == Some(index));
    assert(label_position(renamed, from, 0) is None);
    assert(renamed.update(index, relabelled(renamed[index], from)) =~= row.entries);
}

} // verus!
