//! What the steps in writing a row do to its entries.
use crate::row_edits::{
    absent_labels, edited, labels_are_distinct, spread, without_label, without_labels,
    DuplicateRowLabelContext, RowKind, SpecRowEdit, SpecRowIssue, Spreading,
};
use crate::rows::{
    label_of, label_position, label_position_is_first, last_payload, peeled_payload, peeled_values,
    with_empty, EmptyValue,
};
use crate::types::{RowTail, SpecRow, SpecRowEntry, SpecType};
use vstd::prelude::*;

verus! {

/// Whether an entry of some has a label.
pub open spec fn is_labelled(entries: Seq<SpecRowEntry>, label: Seq<char>) -> bool {
    exists|i: int| 0 <= i < entries.len() && label_of(#[trigger] entries[i]) == label
}

/// Fields and tags are labelled by their names.
pub proof fn names_are_labels(name: Seq<char>, ty: SpecType, payload: Seq<SpecType>)
    ensures
        label_of(SpecRowEntry::Field { name, ty }) == name,
        label_of(SpecRowEntry::Tag { name, payload }) == name,
{
}

proof fn positions_are_of_labels(entries: Seq<SpecRowEntry>, label: Seq<char>)
    ensures
        label_position(entries, label, 0) is Some <==> is_labelled(entries, label),
        label_position(entries, label, 0) is Some ==> 0 <= label_position(entries, label, 0)->0
            < entries.len() && label_of(entries[label_position(entries, label, 0)->0]) == label,
{
    label_position_is_first(entries, label, 0);
    if let Some(index) = label_position(entries, label, 0) {
        assert(label_of(entries[index]) == label);
    }
}

/// Giving a field a type gives that field the type and keeps every other entry where it was. A
/// field that is not there is added, unless the row is closed: then nothing is done.
pub proof fn replacing_changes_one_field(
    row: SpecRow,
    name: Seq<char>,
    ty: SpecType,
    definitions: Map<Seq<char>, SpecType>,
    fresh: u32,
)
    ensures
        ({
            let outcome = edited(row, SpecRowEdit::Replace { name, ty }, definitions, fresh);
            let field = SpecRowEntry::Field { name, ty };
            &&& outcome.row is None <==> row.tail is Closed && !is_labelled(row.entries, name)
            &&& outcome.row is None ==> outcome.issues == seq![SpecRowIssue::ReplaceAbsent(name)]
            &&& outcome.row is Some ==> {
                let entries = outcome.row->0.entries;
                &&& outcome.issues.len() == 0
                &&& outcome.row->0.tail == row.tail
                &&& entries.contains(field)
                &&& entries.len() == (if is_labelled(row.entries, name) {
                    row.entries.len()
                } else {
                    row.entries.len() + 1
                })
                &&& forall|i: int|
                    0 <= i < row.entries.len() && label_of(#[trigger] row.entries[i]) != name
                        ==> entries[i] == row.entries[i]
            }
        }),
{
    let field = SpecRowEntry::Field { name, ty };
    positions_are_of_labels(row.entries, name);
    match label_position(row.entries, name, 0) {
        Some(index) => {
            assert(row.entries.update(index, field)[index] == field);
        },
        None => {
            assert(row.entries.push(field)[row.entries.len() as int] == field);
        },
    }
}

/// An entry is added at the end, unless its label is taken: then nothing is done.
pub proof fn adding_keeps_what_is_there(
    row: SpecRow,
    entry: SpecRowEntry,
    context: DuplicateRowLabelContext,
    definitions: Map<Seq<char>, SpecType>,
    fresh: u32,
)
    ensures
        ({
            let outcome = edited(row, SpecRowEdit::Add { entry, context }, definitions, fresh);
            &&& outcome.row is None <==> is_labelled(row.entries, label_of(entry))
            &&& outcome.row is None ==> outcome.issues == seq![
                SpecRowIssue::Duplicate { label: label_of(entry), context },
            ]
            &&& outcome.row is Some ==> {
                &&& outcome.issues.len() == 0
                &&& outcome.row->0.tail == row.tail
                &&& outcome.row->0.entries.len() == row.entries.len() + 1
                &&& outcome.row->0.entries[row.entries.len() as int] == entry
                &&& forall|i: int|
                    0 <= i < row.entries.len() ==> outcome.row->0.entries[i]
                        == #[trigger] row.entries[i]
            }
        }),
{
    positions_are_of_labels(row.entries, label_of(entry));
}

/// A variant that holds tags takes no literal, and one that holds literals takes no tag;
/// otherwise an entry is added to it as to any row.
pub proof fn variants_are_not_mixed(
    row: SpecRow,
    entry: SpecRowEntry,
    definitions: Map<Seq<char>, SpecType>,
    fresh: u32,
)
    requires
        row.entries.len() > 0,
        entry is Tag || entry is Literal,
    ensures
        ({
            let outcome = edited(row, SpecRowEdit::AddVariant { entry }, definitions, fresh);
            let others = |first: SpecRowEntry| first is Tag && entry is Literal || first is Literal
                && entry is Tag;
            let context = DuplicateRowLabelContext::VariantAdd;
            &&& others(row.entries[0]) ==> outcome.row is None && outcome.issues.len() == 1
                && outcome.issues[0] is MixedEntries
            &&& (row.entries[0] is Tag && entry is Tag || row.entries[0] is Literal && entry
                is Literal) ==> outcome == edited(
                row,
                SpecRowEdit::Add { entry, context },
                definitions,
                fresh,
            )
        }),
{
}

proof fn missing_labels_are_absent(entries: Seq<SpecRowEntry>, labels: Seq<Seq<char>>)
    ensures
        absent_labels(entries, labels).len() > 0 <==> exists|i: int|
            0 <= i < labels.len() && !is_labelled(entries, #[trigger] labels[i]),
    decreases labels.len(),
{
    if labels.len() > 0 {
        let fewer = labels.drop_last();
        missing_labels_are_absent(entries, fewer);
        positions_are_of_labels(entries, labels.last());
        if absent_labels(entries, fewer).len() > 0 {
            let i = choose|i: int|
                0 <= i < fewer.len() && !is_labelled(entries, #[trigger] fewer[i]);
            assert(labels[i] == fewer[i]);
        }
        if !is_labelled(entries, labels.last()) {
            assert(labels[labels.len() - 1] == labels.last());
        }
        if exists|i: int| 0 <= i < labels.len() && !is_labelled(entries, #[trigger] labels[i]) {
            let i = choose|i: int|
                0 <= i < labels.len() && !is_labelled(entries, #[trigger] labels[i]);
            if i < fewer.len() {
                assert(fewer[i] == labels[i]);
            }
        }
    }
}

proof fn one_label_is_removed(
    entries: Seq<SpecRowEntry>,
    label: Seq<char>,
    entry: SpecRowEntry,
)
    requires
        labels_are_distinct(entries),
    ensures
        without_label(entries, label).contains(entry) <==> entries.contains(entry) && label_of(
            entry,
        ) != label,
        labels_are_distinct(without_label(entries, label)),
{
    label_position_is_first(entries, label, 0);
    let after = without_label(entries, label);
    match label_position(entries, label, 0) {
        None => {
            if entries.contains(entry) {
                let i = choose|i: int| 0 <= i < entries.len() && entries[i] == entry;
                assert(label_of(entries[i]) != label);
            }
        },
        Some(index) => {
            if after.contains(entry) {
                let i = choose|i: int| 0 <= i < after.len() && after[i] == entry;
                if i < index {
                    assert(entries[i] == entry);
                } else {
                    assert(entries[i + 1] == entry);
                    assert(label_of(entries[index]) != label_of(entries[i + 1]));
                }
            }
            if entries.contains(entry) && label_of(entry) != label {
                let i = choose|i: int| 0 <= i < entries.len() && entries[i] == entry;
                if i < index {
                    assert(after[i] == entry);
                } else {
                    assert(after[i - 1] == entry);
                }
            }
            assert forall|i: int, j: int| 0 <= i < j < after.len() implies label_of(
                #[trigger] after[i],
            ) != label_of(#[trigger] after[j]) by {
                let first = if i < index {
                    i
                } else {
                    i + 1
                };
                let second = if j < index {
                    j
                } else {
                    j + 1
                };
                assert(label_of(entries[first]) != label_of(entries[second]));
            }
        },
    }
}

proof fn labels_are_removed(
    entries: Seq<SpecRowEntry>,
    labels: Seq<Seq<char>>,
    entry: SpecRowEntry,
)
    requires
        labels_are_distinct(entries),
    ensures
        without_labels(entries, labels).contains(entry) <==> entries.contains(entry)
            && !labels.contains(label_of(entry)),
        labels_are_distinct(without_labels(entries, labels)),
    decreases labels.len(),
{
    if labels.len() > 0 {
        let fewer = labels.drop_last();
        labels_are_removed(entries, fewer, entry);
        one_label_is_removed(without_labels(entries, fewer), labels.last(), entry);
        let label = label_of(entry);
        if fewer.contains(label) {
            let i = choose|i: int| 0 <= i < fewer.len() && fewer[i] == label;
            assert(labels[i] == label);
        }
        if labels.contains(label) && label != labels.last() {
            let i = choose|i: int| 0 <= i < labels.len() && labels[i] == label;
            assert(fewer[i] == label);
        }
        if label == labels.last() {
            assert(labels[labels.len() - 1] == label);
        }
    }
}

/// Removing labels leaves the entries that have none of them. Nothing is done where one of the
/// labels is not there, or where the row may hold more than it lists.
pub proof fn deleting_leaves_the_others(
    row: SpecRow,
    labels: Seq<Seq<char>>,
    entry: SpecRowEntry,
    definitions: Map<Seq<char>, SpecType>,
    fresh: u32,
)
    requires
        labels_are_distinct(row.entries),
    ensures
        ({
            let outcome = edited(row, SpecRowEdit::Delete { labels }, definitions, fresh);
            &&& outcome.row is None <==> !(row.tail is Closed) || exists|i: int|
                0 <= i < labels.len() && !is_labelled(row.entries, #[trigger] labels[i])
            &&& outcome.row is Some ==> {
                &&& outcome.issues.len() == 0
                &&& outcome.row->0.tail == row.tail
                &&& outcome.row->0.entries.contains(entry) <==> row.entries.contains(entry)
                    && !labels.contains(label_of(entry))
            }
        }),
{
    missing_labels_are_absent(row.entries, labels);
    labels_are_removed(row.entries, labels, entry);
}

/// Renaming puts another label on one entry and keeps what it holds, and keeps every other
/// entry where it was. Nothing is done where the label is not there, where the new one is, or
/// where the row may hold more than it lists.
pub proof fn renaming_changes_one_label(
    row: SpecRow,
    from: Seq<char>,
    to: Seq<char>,
    definitions: Map<Seq<char>, SpecType>,
    fresh: u32,
    index: int,
)
    requires
        labels_are_distinct(row.entries),
        0 <= index < row.entries.len(),
    ensures
        ({
            let outcome = edited(row, SpecRowEdit::Rename { from, to }, definitions, fresh);
            let entry = row.entries[index];
            &&& outcome.row is Some <==> row.tail is Closed && is_labelled(row.entries, from)
                && !is_labelled(row.entries, to)
            &&& row.tail is Closed && !is_labelled(row.entries, from) ==> outcome.issues == seq![
                SpecRowIssue::RenameAbsent(from),
            ]
            &&& outcome.row is Some ==> {
                let after = outcome.row->0.entries;
                &&& outcome.row->0.tail == row.tail
                &&& after.len() == row.entries.len()
                &&& label_of(entry) != from ==> after[index] == entry
                &&& label_of(entry) == from && entry is Field ==> after[index] == (
                SpecRowEntry::Field { name: to, ty: entry->Field_ty })
                &&& label_of(entry) == from && entry is Tag ==> after[index] == (
                SpecRowEntry::Tag { name: to, payload: entry->Tag_payload })
            }
        }),
{
    positions_are_of_labels(row.entries, from);
    positions_are_of_labels(row.entries, to);
    if let Some(position) = label_position(row.entries, from, 0) {
        if position != index && label_of(row.entries[index]) == from {
            if position < index {
                assert(label_of(row.entries[position]) != label_of(row.entries[index]));
            } else {
                assert(label_of(row.entries[index]) != label_of(row.entries[position]));
            }
        }
    }
}

/// A row is opened without a change to what it lists.
pub proof fn opening_keeps_the_entries(
    row: SpecRow,
    definitions: Map<Seq<char>, SpecType>,
    fresh: u32,
)
    ensures
        edited(row, SpecRowEdit::Open, definitions, fresh).row == Some(
            SpecRow { entries: row.entries, tail: RowTail::Open },
        ),
{
}

// ---------------------------------------------------------------------------
// Spreading
// ---------------------------------------------------------------------------
/// Whether no label occurs in two lists of entries.
pub open spec fn share_no_label(first: Seq<SpecRowEntry>, second: Seq<SpecRowEntry>) -> bool {
    forall|i: int, k: int|
        0 <= i < first.len() && 0 <= k < second.len() ==> label_of(#[trigger] first[i])
            != label_of(#[trigger] second[k])
}

proof fn apart_rows_are_joined(
    entries: Seq<SpecRowEntry>,
    source: Seq<SpecRowEntry>,
    overwrite: bool,
    definitions: Map<Seq<char>, SpecType>,
    count: nat,
)
    requires
        labels_are_distinct(source),
        share_no_label(entries, source),
        count <= source.len(),
    ensures
        spread(entries, source, overwrite, RowKind::Record, definitions, count) == (
        Spreading::Going { entries: entries + source.take(count as int), goals: Seq::empty() }),
    decreases count,
{
    if count > 0 {
        let few = (count - 1) as nat;
        apart_rows_are_joined(entries, source, overwrite, definitions, few);
        let known = entries + source.take(few as int);
        let entry = source[few as int];
        positions_are_of_labels(known, label_of(entry));
        if is_labelled(known, label_of(entry)) {
            let i = choose|i: int|
                0 <= i < known.len() && label_of(#[trigger] known[i]) == label_of(entry);
            if i < entries.len() {
                assert(label_of(entries[i]) != label_of(source[few as int]));
            } else {
                assert(known[i] == source[i - entries.len()]);
                assert(label_of(source[i - entries.len()]) != label_of(source[few as int]));
            }
        }
        assert(entries + source.take(count as int) =~= known.push(entry));
    } else {
        assert(entries + source.take(0) =~= entries);
    }
}

/// A record takes up another one that has none of its fields: its own fields, and then the
/// other's. It stays closed where both are.
pub proof fn records_apart_are_joined(
    row: SpecRow,
    source: SpecRow,
    overwrite: bool,
    definitions: Map<Seq<char>, SpecType>,
    fresh: u32,
)
    requires
        labels_are_distinct(source.entries),
        share_no_label(row.entries, source.entries),
    ensures
        ({
            let kind = RowKind::Record;
            let outcome = edited(
                row,
                SpecRowEdit::Merge { source, overwrite, kind },
                definitions,
                fresh,
            );
            &&& outcome.row is Some
            &&& outcome.issues.len() == 0
            &&& outcome.goals.len() == 0
            &&& outcome.row->0.entries == row.entries + source.entries
            &&& outcome.row->0.tail is Closed <==> row.tail is Closed && source.tail is Closed
            &&& row.tail is Closed ==> outcome.row->0.tail == source.tail
            &&& source.tail is Closed ==> outcome.row->0.tail == row.tail
        }),
{
    apart_rows_are_joined(
        row.entries,
        source.entries,
        overwrite,
        definitions,
        source.entries.len(),
    );
    assert(source.entries.take(source.entries.len() as int) =~= source.entries);
}

/// A field that both records have must not occur twice: the other's takes its place where it
/// may, and otherwise nothing is done.
pub proof fn shared_fields_are_overwritten(
    row: SpecRow,
    name: Seq<char>,
    ty: SpecType,
    tail: RowTail,
    overwrite: bool,
    definitions: Map<Seq<char>, SpecType>,
    fresh: u32,
    index: int,
)
    requires
        labels_are_distinct(row.entries),
        0 <= index < row.entries.len(),
        row.entries[index] is Field,
        label_of(row.entries[index]) == name,
        !(crate::normalize::normal_form(ty, definitions) is Optional),
    ensures
        ({
            let kind = RowKind::Record;
            let field = SpecRowEntry::Field { name, ty };
            let source = SpecRow { entries: seq![field], tail };
            let outcome = edited(
                row,
                SpecRowEdit::Merge { source, overwrite, kind },
                definitions,
                fresh,
            );
            &&& overwrite ==> outcome.row is Some && outcome.row->0.entries == row.entries.update(
                index,
                field,
            )
            &&& !overwrite ==> outcome.row is None && outcome.issues == seq![
                SpecRowIssue::Duplicate {
                    label: name,
                    context: DuplicateRowLabelContext::Spread,
                },
            ]
        }),
{
    let field = SpecRowEntry::Field { name, ty };
    let source = seq![field];
    reveal_with_fuel(spread, 2);
    positions_are_of_labels(row.entries, name);
    assert(label_of(row.entries[index]) == name);
    let position = label_position(row.entries, name, 0)->0;
    if position < index {
        assert(label_of(row.entries[position]) != label_of(row.entries[index]));
    } else if index < position {
        assert(label_of(row.entries[index]) != label_of(row.entries[position]));
    }
    assert(source.len() == 1);
    assert(source[0] == field);
}

/// A field of the other record that may be left out keeps the one that is there, and asks that
/// what it holds goes together with it.
pub proof fn fields_that_may_be_absent_keep_the_other(
    row: SpecRow,
    name: Seq<char>,
    ty: SpecType,
    inner: SpecType,
    tail: RowTail,
    overwrite: bool,
    definitions: Map<Seq<char>, SpecType>,
    fresh: u32,
    index: int,
)
    requires
        labels_are_distinct(row.entries),
        0 <= index < row.entries.len(),
        row.entries[index] is Field,
        label_of(row.entries[index]) == name,
        crate::normalize::normal_form(ty, definitions) == SpecType::Optional(Box::new(inner)),
    ensures
        ({
            let kind = RowKind::Record;
            let field = SpecRowEntry::Field { name, ty };
            let source = SpecRow { entries: seq![field], tail };
            let outcome = edited(
                row,
                SpecRowEdit::Merge { source, overwrite, kind },
                definitions,
                fresh,
            );
            &&& outcome.row is Some
            &&& outcome.row->0.entries == row.entries
            &&& outcome.goals == seq![(row.entries[index]->Field_ty, inner)]
        }),
{
    let field = SpecRowEntry::Field { name, ty };
    let source = seq![field];
    reveal_with_fuel(spread, 2);
    positions_are_of_labels(row.entries, name);
    assert(label_of(row.entries[index]) == name);
    let position = label_position(row.entries, name, 0)->0;
    if position < index {
        assert(label_of(row.entries[position]) != label_of(row.entries[index]));
    } else if index < position {
        assert(label_of(row.entries[index]) != label_of(row.entries[position]));
    }
    assert(source.len() == 1);
    assert(source[0] == field);
    assert(Seq::<(SpecType, SpecType)>::empty().push((row.entries[index]->Field_ty, inner)) =~= seq![
        (row.entries[index]->Field_ty, inner),
    ]);
}

// ---------------------------------------------------------------------------
// Looking into rows and types
// ---------------------------------------------------------------------------
/// What is known of a field of a record is its type, and of a field that a record does not list
/// nothing.
pub proof fn fields_have_the_types_listed(row: SpecRow, name: Seq<char>, index: int)
    requires
        labels_are_distinct(row.entries),
        0 <= index < row.entries.len(),
        row.entries[index] is Field,
    ensures
        crate::rows::field_type(row, row.entries[index]->Field_name) == Some(
            row.entries[index]->Field_ty,
        ),
        !is_labelled(row.entries, name) ==> crate::rows::field_type(row, name) is None,
{
    let label = row.entries[index]->Field_name;
    positions_are_of_labels(row.entries, label);
    positions_are_of_labels(row.entries, name);
    assert(label_of(row.entries[index]) == label);
    let position = label_position(row.entries, label, 0)->0;
    if position < index {
        assert(label_of(row.entries[position]) != label_of(row.entries[index]));
    } else if index < position {
        assert(label_of(row.entries[index]) != label_of(row.entries[position]));
    }
}

/// A tag holds the payload that the last entry of its name lists.
pub proof fn tags_have_the_payload_listed(
    entries: Seq<SpecRowEntry>,
    entry: SpecRowEntry,
    tag: Seq<char>,
)
    ensures
        entry is Tag && entry->Tag_name == tag ==> last_payload(entries.push(entry), tag) == Some(
            entry->Tag_payload,
        ),
        !(entry is Tag) || entry->Tag_name != tag ==> last_payload(entries.push(entry), tag)
            == last_payload(entries, tag),
        last_payload(Seq::empty(), tag) is None,
{
    assert(entries.push(entry).drop_last() =~= entries);
}

/// Whether a type admits an empty value in one of its outer layers.
pub open spec fn admits(ty: SpecType, value: EmptyValue) -> bool
    decreases ty,
{
    match ty {
        SpecType::Optional(inner) => value is Undefined || admits(*inner, value),
        SpecType::Nullable(inner) => value is Null || admits(*inner, value),
        _ => false,
    }
}

proof fn layers_are_noted(ty: SpecType, seen: Seq<EmptyValue>, value: EmptyValue)
    ensures
        peeled_values(ty, seen).contains(value) <==> seen.contains(value) || admits(ty, value),
    decreases ty,
{
    match ty {
        SpecType::Optional(inner) => {
            let after = with_empty(seen, EmptyValue::Undefined);
            layers_are_noted(*inner, after, value);
            empty_values_are_added(seen, EmptyValue::Undefined, value);
        },
        SpecType::Nullable(inner) => {
            let after = with_empty(seen, EmptyValue::Null);
            layers_are_noted(*inner, after, value);
            empty_values_are_added(seen, EmptyValue::Null, value);
        },
        _ => {},
    }
}

proof fn empty_values_are_added(seen: Seq<EmptyValue>, more: EmptyValue, value: EmptyValue)
    ensures
        with_empty(seen, more).contains(value) <==> seen.contains(value) || value == more,
{
    let after = with_empty(seen, more);
    if after != seen {
        assert(after == seen.push(more));
        assert(after[seen.len() as int] == more);
        if seen.contains(value) {
            let i = choose|i: int| 0 <= i < seen.len() && seen[i] == value;
            assert(after[i] == value);
        }
    }
}

/// Peeling notes the empty values that the layers admit and leaves a type without such a
/// layer; a layer more changes the payload in nothing.
pub proof fn layers_are_peeled(ty: SpecType, value: EmptyValue)
    ensures
        peeled_values(ty, Seq::empty()).contains(value) <==> admits(ty, value),
        !(peeled_payload(ty) is Optional),
        !(peeled_payload(ty) is Nullable),
        peeled_payload(SpecType::Optional(Box::new(ty))) == peeled_payload(ty),
        peeled_payload(SpecType::Nullable(Box::new(ty))) == peeled_payload(ty),
        !(ty is Optional) && !(ty is Nullable) ==> peeled_payload(ty) == ty,
    decreases ty,
{
    layers_are_noted(ty, Seq::empty(), value);
    match ty {
        SpecType::Optional(inner) => {
            layers_are_peeled(*inner, value);
        },
        SpecType::Nullable(inner) => {
            layers_are_peeled(*inner, value);
        },
        _ => {},
    }
}

} // verus!
