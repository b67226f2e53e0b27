//! How many levels a check of a value takes.
use crate::comparison::{added_names, added_value, asked_field_findings, other_field_findings};
use crate::comparison::{position_is_in_range, record_value_findings, RecordFinding};
use crate::comparison_levels::{
    all_end_within, count_unfolding, ends_within, entry_ends_within, nested_types_end, payloads_end,
    row_ends_within,
};
use crate::comparison_steps::entering;
use crate::conformance::{
    comparison_findings, is_finished, more_levels_find_the_same, SpecComparisonFacts,
    SpecComparisonFinding,
};
use crate::family_levels::{levels_to_unfold, names_finish, unfolding_takes_levels, without_data};
use crate::nesting::{
    count_larger, count_more, count_nesting, is_counted, larger, nesting, types_are_countable,
};
use crate::normalize::unfolded_once;
use crate::rows::{all_fields, all_tags, last_payload, result_parts};
use crate::span::Span;
use crate::syntax::{lists_fields, result_tag, ungrouped, Expr, ExprKind, Item, RecordEntry};
use crate::types::{RecursiveTypeId, SpecRow, SpecType, Type};
use crate::value_checks::{
    block_events, branded_events, branding_for, collection_events, fields_events, found_events,
    list_events, plain_events, primitive_family, shape_events, shorthand_events, tag_events,
    type_at, value_events, SpecValueContext, SpecValueEvent, ValueContext,
};
use crate::values::{element_of, is_written_out, Branding};
use vstd::prelude::*;

verus! {

// ---------------------------------------------------------------------------
// How deeply values are nested
// ---------------------------------------------------------------------------
/// How deeply a value is nested, as far as its parts are held against types.
pub open spec fn value_nesting(value: Expr) -> nat
    decreases value, 0nat,
{
    match value.kind {
        ExprKind::Group(inner) => 1 + value_nesting(*inner),
        ExprKind::Block(items) => 1 + item_nesting(items@, items@.len()),
        ExprKind::Tuple(elements) => 1 + nesting_of_values(elements@, elements@.len()),
        ExprKind::Call { args, .. } => 1 + nesting_of_values(args@, args@.len()),
        ExprKind::Record(entries) => 1 + nesting_of_parts(entries@, entries@.len()),
        ExprKind::Array(entries) => 1 + nesting_of_parts(entries@, entries@.len()),
        ExprKind::SetLiteral(entries) => 1 + nesting_of_parts(entries@, entries@.len()),
        _ => 1,
    }
}

/// How deeply the most deeply nested of the first values is nested.
pub open spec fn nesting_of_values(values: Seq<Expr>, count: nat) -> nat
    decreases values, count,
{
    if count == 0 || count > values.len() {
        0
    } else {
        larger(nesting_of_values(values, (count - 1) as nat), value_nesting(values[count - 1]))
    }
}

/// How deeply the most deeply nested of the first values of a block is nested.
pub open spec fn item_nesting(items: Seq<Item>, count: nat) -> nat
    decreases items, count,
{
    if count == 0 || count > items.len() {
        0
    } else {
        let earlier = item_nesting(items, (count - 1) as nat);
        match items[count - 1] {
            Item::Expr(value) => larger(earlier, value_nesting(*value)),
            _ => earlier,
        }
    }
}

/// How deeply the most deeply nested of the first entries is nested.
pub open spec fn nesting_of_parts(entries: Seq<RecordEntry>, count: nat) -> nat
    decreases entries, count,
{
    if count == 0 || count > entries.len() {
        0
    } else {
        let earlier = nesting_of_parts(entries, (count - 1) as nat);
        match entries[count - 1] {
            RecordEntry::Field { value, .. } => larger(earlier, value_nesting(*value)),
            RecordEntry::Element(value) => larger(earlier, value_nesting(*value)),
            RecordEntry::Spread { value, .. } => larger(earlier, value_nesting(*value)),
            _ => earlier,
        }
    }
}

proof fn nesting_bounds_value(values: Seq<Expr>, count: nat, index: int)
    requires
        0 <= index < count <= values.len(),
    ensures
        value_nesting(values[index]) <= nesting_of_values(values, count),
    decreases count,
{
    if index < count - 1 {
        nesting_bounds_value(values, (count - 1) as nat, index);
    }
}

proof fn nesting_bounds_part(entries: Seq<RecordEntry>, count: nat, index: int)
    requires
        0 <= index < count <= entries.len(),
    ensures
        match entries[index] {
            RecordEntry::Field { value, .. } => value_nesting(*value) <= nesting_of_parts(
                entries,
                count,
            ),
            RecordEntry::Element(value) => value_nesting(*value) <= nesting_of_parts(
                entries,
                count,
            ),
            RecordEntry::Spread { value, .. } => value_nesting(*value) <= nesting_of_parts(
                entries,
                count,
            ),
            _ => true,
        },
    decreases count,
{
    if index < count - 1 {
        nesting_bounds_part(entries, (count - 1) as nat, index);
    }
}

// ---------------------------------------------------------------------------
// Checks come to their end
// ---------------------------------------------------------------------------
/// Whether an event says that a check did not come to its end.
pub open spec fn is_unfinished(event: SpecValueEvent) -> bool {
    match event {
        SpecValueEvent::Unfinished { .. } => true,
        SpecValueEvent::Found { finding, .. } => finding is Unfinished,
        _ => false,
    }
}

/// Whether a check came to its end everywhere.
pub open spec fn is_complete(events: Seq<SpecValueEvent>) -> bool {
    forall|i: int| 0 <= i < events.len() ==> !is_unfinished(#[trigger] events[i])
}

proof fn joined_events_are_complete(first: Seq<SpecValueEvent>, second: Seq<SpecValueEvent>)
    requires
        is_complete(first),
        is_complete(second),
    ensures
        is_complete(first + second),
{
    let both = first + second;
    assert forall|i: int| 0 <= i < both.len() implies !is_unfinished(#[trigger] both[i]) by {
        if i < first.len() {
            assert(both[i] == first[i]);
        } else {
            assert(both[i] == second[i - first.len()]);
        }
    }
}

proof fn found_events_are_complete(findings: Seq<SpecComparisonFinding>, span: Span)
    requires
        is_finished(findings),
    ensures
        is_complete(found_events(findings, span)),
{
    let events = found_events(findings, span);
    assert forall|i: int| 0 <= i < events.len() implies !is_unfinished(#[trigger] events[i]) by {
        assert(!(findings[i] is Unfinished));
    }
}

proof fn shorthands_are_complete(entries: Seq<RecordEntry>, count: nat)
    ensures
        is_complete(shorthand_events(entries, count)),
    decreases count,
{
    if count > 0 && count <= entries.len() {
        shorthands_are_complete(entries, (count - 1) as nat);
    }
}

/// Whether the bases of families are names that stand for themselves.
pub open spec fn bases_are_names(context: SpecValueContext) -> bool {
    forall|name: Seq<char>| #[trigger]
        context.comparison.family_bases.contains_key(name) ==> {
            let base = context.comparison.family_bases[name];
            &&& base is Named
            &&& !context.comparison.family_bases.contains_key(base->Named_0)
            &&& !(context.facts.definitions.contains_key(base->Named_0)
                && context.facts.definitions[base->Named_0] is Variant)
        }
}

/// What a check goes by where names and rows stand for themselves.
pub open spec fn no_facts() -> SpecComparisonFacts {
    SpecComparisonFacts {
        mismatched_names: Seq::empty(),
        rows: Seq::empty(),
        definitions: Map::empty(),
    }
}

/// Whether a type comes to an end within a number of levels where it is held against a value.
/// Families, names and rows stand for themselves there.
pub open spec fn ends_for_values(context: SpecValueContext, ty: SpecType, levels: nat) -> bool {
    ends_within(without_data(context.comparison), no_facts(), ty, levels)
}

proof fn entered_contexts_end(context: SpecValueContext, id: RecursiveTypeId)
    requires
        bases_are_names(context),
        !context.comparison.active.contains(id),
        unfolded_once(SpecType::Recursive(id), context.comparison.recursive)
            != SpecType::Recursive(id),
    ensures
        bases_are_names(context.entering(id)),
        without_data(context.entering(id).comparison) == entering(
            without_data(context.comparison),
            id,
        ),
        levels_to_unfold(context.entering(id).comparison) <= levels_to_unfold(context.comparison),
{
    assert(context.entering(id).comparison == entering(context.comparison, id));
    unfolding_takes_levels(context.comparison, id);
}

/// Whether there are levels for what a check is left to do: those of the type, of the value and
/// of recursive types, and one where a family may still be replaced by its base.
spec fn is_affordable(
    context: SpecValueContext,
    expected: SpecType,
    value: Expr,
    types: nat,
    based: bool,
    levels: nat,
) -> bool {
    &&& bases_are_names(context)
    &&& ends_for_values(context, expected, types)
    &&& types + value_nesting(value) + levels_to_unfold(context.comparison) + (if based {
        0nat
    } else {
        1nat
    }) <= levels
    &&& based ==> types == 1 && primitive_family(context, expected) is None && ungrouped(
        value,
    ).kind is Literal
}

proof fn affordable_checks_complete(
    context: SpecValueContext,
    expected: SpecType,
    value: Expr,
    types: nat,
    based: bool,
    levels: nat,
)
    requires
        is_affordable(context, expected, value, types, based, levels),
    ensures
        is_complete(value_events(context, expected, value, levels)),
    decreases levels, 0nat, 0nat,
{
    let below = (levels - 1) as nat;
    if expected is SlotRecord {
        match value.kind {
            ExprKind::Group(inner) => {
                affordable_checks_complete(context, expected, *inner, types, based, below);
            },
            ExprKind::Block(items) => {
                blocks_complete(context, expected, items@, types, below);
            },
            _ => {},
        }
    } else if expected is Recursive && !(value.kind is Name || value.kind is ComptimeName) {
        let id = expected->Recursive_0;
        let unfolded = unfolded_once(expected, context.comparison.recursive);
        if !context.active().contains(id) {
            if unfolded != expected {
                entered_contexts_end(context, id);
                assert(ends_for_values(context.entering(id), unfolded, (types - 1) as nat));
                affordable_checks_complete(
                    context.entering(id),
                    unfolded,
                    value,
                    (types - 1) as nat,
                    false,
                    below,
                );
            } else {
                branded_checks_complete(context, expected, value, types, based, below);
            }
        }
    } else {
        branded_checks_complete(context, expected, value, types, based, below);
    }
}

proof fn branded_checks_complete(
    context: SpecValueContext,
    expected: SpecType,
    value: Expr,
    types: nat,
    based: bool,
    levels: nat,
)
    requires
        is_affordable(context, expected, value, types, based, levels + 1),
    ensures
        is_complete(branded_events(context, expected, value, levels)),
    decreases levels, 4nat, 0nat,
{
    match branding_for(context, expected, value) {
        Branding::CheckBase => {
            let (owner, base) = primitive_family(context, expected)->0;
            let actual = type_at(context.places, value.span, 0);
            assert(context.comparison.family_bases.contains_key(expected->Named_0));
            if ungrouped(value).kind is Literal {
                affordable_checks_complete(context, base, value, 1, true, levels);
            } else {
                names_finish(context.comparison, context.facts, base->Named_0, actual, levels);
                found_events_are_complete(
                    comparison_findings(
                        context.comparison,
                        context.facts,
                        base,
                        actual,
                        levels,
                    ),
                    value.span,
                );
            }
        },
        Branding::NoLiteral => {
            plain_checks_complete(context, expected, value, types, based, levels);
        },
        _ => {},
    }
}

proof fn plain_checks_complete(
    context: SpecValueContext,
    expected: SpecType,
    value: Expr,
    types: nat,
    based: bool,
    levels: nat,
)
    requires
        is_affordable(context, expected, value, types, based, levels + 1),
    ensures
        is_complete(plain_events(context, expected, value, levels)),
    decreases levels, 3nat, 0nat,
{
    match value.kind {
        ExprKind::Group(inner) => {
            affordable_checks_complete(context, expected, *inner, types, based, levels);
        },
        ExprKind::Block(items) => {
            blocks_complete(context, expected, items@, types, levels);
        },
        ExprKind::Lambda { .. } => {},
        ExprKind::Name(_) => {},
        ExprKind::ComptimeName(_) => {},
        _ => if expected is Optional && value.kind is Undefined {
        } else if expected is Nullable && value.kind is Null {
        } else if expected is Optional && is_written_out(value) {
            assert(ends_for_values(context, *expected->Optional_0, (types - 1) as nat));
            affordable_checks_complete(
                context,
                *expected->Optional_0,
                value,
                (types - 1) as nat,
                false,
                levels,
            );
        } else if expected is Nullable && is_written_out(value) {
            assert(ends_for_values(context, *expected->Nullable_0, (types - 1) as nat));
            affordable_checks_complete(
                context,
                *expected->Nullable_0,
                value,
                (types - 1) as nat,
                false,
                levels,
            );
        } else {
            shapes_complete(context, expected, value, types, based, levels);
        },
    }
}

proof fn blocks_complete(
    context: SpecValueContext,
    expected: SpecType,
    items: Seq<Item>,
    types: nat,
    levels: nat,
)
    requires
        bases_are_names(context),
        ends_for_values(context, expected, types),
        types + item_nesting(items, items.len()) + levels_to_unfold(context.comparison) + 1
            <= levels,
    ensures
        is_complete(block_events(context, expected, items, levels)),
    decreases levels, 1nat, 0nat,
{
    let open = seq![SpecValueEvent::OpenBlock(items)];
    let close = seq![SpecValueEvent::CloseBlock];
    let last = if items.len() > 0 {
        match items.last() {
            Item::Expr(value) => value_events(context, expected, *value, levels),
            _ => Seq::empty(),
        }
    } else {
        Seq::empty()
    };
    if items.len() > 0 {
        if let Item::Expr(value) = items.last() {
            assert(value_nesting(*value) <= item_nesting(items, items.len()));
            affordable_checks_complete(context, expected, *value, types, false, levels);
        }
    }
    joined_events_are_complete(open, last);
    joined_events_are_complete(open + last, close);
}

proof fn lists_complete(
    context: SpecValueContext,
    expected: Seq<SpecType>,
    values: Seq<Expr>,
    count: nat,
    types: nat,
    levels: nat,
)
    requires
        count <= expected.len(),
        expected.len() == values.len(),
        bases_are_names(context),
        all_end_within(without_data(context.comparison), no_facts(), expected, types),
        types + nesting_of_values(values, values.len()) + levels_to_unfold(context.comparison) + 1
            <= levels,
    ensures
        is_complete(list_events(context, expected, values, count, levels)),
    decreases levels, 1nat, count,
{
    if count > 0 {
        lists_complete(
            context,
            expected,
            values,
            (count - 1) as nat,
            types,
            levels,
        );
        nesting_bounds_value(values, values.len(), count - 1);
        assert(ends_for_values(context, expected[count - 1], types));
        affordable_checks_complete(
            context,
            expected[count - 1],
            values[count - 1],
            types,
            false,
            levels,
        );
        joined_events_are_complete(
            list_events(context, expected, values, (count - 1) as nat, levels),
            value_events(context, expected[count - 1], values[count - 1], levels),
        );
    }
}

proof fn tags_complete(
    context: SpecValueContext,
    row: SpecRow,
    tag: Seq<char>,
    args: Seq<Expr>,
    span: Span,
    types: nat,
    levels: nat,
)
    requires
        bases_are_names(context),
        row_ends_within(without_data(context.comparison), no_facts(), row, types),
        types + nesting_of_values(args, args.len()) + levels_to_unfold(context.comparison) + 1
            <= levels,
    ensures
        is_complete(tag_events(context, row, tag, args, span, levels)),
    decreases levels, 1nat, args.len() + 1,
{
    if all_tags(row) {
        payloads_end(without_data(context.comparison), no_facts(), row.entries, tag, types);
        if let Some(payload) = last_payload(row.entries, tag) {
            if payload.len() == args.len() {
                lists_complete(context, payload, args, args.len(), types, levels);
            }
        }
    }
}

/// Whether the positions of what is found about a record value are those of fields and of
/// entries with values.
spec fn fields_are_in_range(
    row: SpecRow,
    entries: Seq<RecordEntry>,
    findings: Seq<RecordFinding>,
) -> bool {
    forall|i: int|
        0 <= i < findings.len() ==> match #[trigger] findings[i] {
            RecordFinding::Compare { required, present } => (required as int) < row.entries.len()
                && (present as int) < entries.len() && entries[present as int] is Field,
            _ => true,
        }
}

proof fn asked_fields_are_in_range(
    row: SpecRow,
    entries: Seq<RecordEntry>,
    definitions: Map<Seq<char>, SpecType>,
    count: nat,
)
    requires
        count <= row.entries.len() <= usize::MAX,
        entries.len() <= usize::MAX,
    ensures
        fields_are_in_range(
            row,
            entries,
            asked_field_findings(row.entries, entries, definitions, count),
        ),
    decreases count,
{
    if count > 0 {
        asked_fields_are_in_range(row, entries, definitions, (count - 1) as nat);
        position_is_in_range(added_names(entries), row.entries[count - 1]->Field_name);
    }
}

proof fn other_fields_are_in_range(row: SpecRow, entries: Seq<RecordEntry>, count: nat)
    ensures
        fields_are_in_range(row, entries, other_field_findings(row, entries, count)),
    decreases count,
{
    if count > 0 && count <= entries.len() {
        other_fields_are_in_range(row, entries, (count - 1) as nat);
    }
}

proof fn fields_complete(
    context: SpecValueContext,
    row: SpecRow,
    entries: Seq<RecordEntry>,
    span: Span,
    findings: Seq<RecordFinding>,
    types: nat,
    levels: nat,
)
    requires
        bases_are_names(context),
        all_fields(row),
        row_ends_within(without_data(context.comparison), no_facts(), row, types),
        fields_are_in_range(row, entries, findings),
        types + nesting_of_parts(entries, entries.len()) + levels_to_unfold(context.comparison) + 1
            <= levels,
    ensures
        is_complete(fields_events(context, row, entries, span, findings, levels)),
    decreases levels, 1nat, findings.len(),
{
    if findings.len() > 0 {
        let others = findings.drop_last();
        let last = findings[findings.len() - 1];
        assert forall|i: int| 0 <= i < others.len() implies match #[trigger] others[i] {
            RecordFinding::Compare { required, present } => (required as int) < row.entries.len()
                && (present as int) < entries.len() && entries[present as int] is Field,
            _ => true,
        } by {
            assert(others[i] == findings[i]);
        }
        fields_complete(context, row, entries, span, others, types, levels);
        let whole = fields_events(context, row, entries, span, findings, levels);
        let earlier = fields_events(context, row, entries, span, others, levels);
        let added = whole.skip(earlier.len() as int);
        assert(whole =~= earlier + added);
        if let RecordFinding::Compare { required, present } = last {
            let entry = row.entries[required as int];
            let value = added_value(entries[present as int])->0;
            assert(entry is Field);
            assert(entry_ends_within(
                without_data(context.comparison),
                no_facts(),
                entry,
                types,
            ));
            nesting_bounds_part(entries, entries.len(), present as int);
            affordable_checks_complete(
                context,
                entry->Field_ty,
                value,
                types,
                false,
                levels,
            );
            assert(added =~= value_events(context, entry->Field_ty, value, levels));
        } else {
            assert(added.len() == 1);
            assert(is_complete(added));
        }
        joined_events_are_complete(earlier, added);
    }
}

proof fn collections_complete(
    context: SpecValueContext,
    expected: SpecType,
    element: SpecType,
    entries: Seq<RecordEntry>,
    count: nat,
    types: nat,
    levels: nat,
)
    requires
        count <= entries.len(),
        bases_are_names(context),
        types > 0,
        ends_for_values(context, expected, types),
        ends_for_values(context, element, (types - 1) as nat),
        types + nesting_of_parts(entries, entries.len()) + levels_to_unfold(context.comparison) + 1
            <= levels,
    ensures
        is_complete(collection_events(context, expected, element, entries, count, levels)),
    decreases levels, 1nat, count,
{
    if count > 0 {
        collections_complete(
            context,
            expected,
            element,
            entries,
            (count - 1) as nat,
            types,
            levels,
        );
        nesting_bounds_part(entries, entries.len(), count - 1);
        let earlier = collection_events(
            context,
            expected,
            element,
            entries,
            (count - 1) as nat,
            levels,
        );
        match entries[count - 1] {
            RecordEntry::Element(value) => {
                affordable_checks_complete(
                    context,
                    element,
                    *value,
                    (types - 1) as nat,
                    false,
                    levels,
                );
                joined_events_are_complete(
                    earlier,
                    value_events(context, element, *value, levels),
                );
            },
            RecordEntry::Spread { value, .. } => {
                affordable_checks_complete(
                    context,
                    expected,
                    *value,
                    types,
                    false,
                    levels,
                );
                joined_events_are_complete(
                    earlier,
                    value_events(context, expected, *value, levels),
                );
            },
            _ => {
                joined_events_are_complete(
                    earlier,
                    seq![SpecValueEvent::Walk(entries[count - 1])],
                );
            },
        }
    }
}

proof fn shapes_complete(
    context: SpecValueContext,
    expected: SpecType,
    value: Expr,
    types: nat,
    based: bool,
    levels: nat,
)
    requires
        is_affordable(context, expected, value, types, based, levels + 1),
        !(value.kind is Group),
    ensures
        is_complete(shape_events(context, expected, value, levels)),
    decreases levels, 2nat, 0nat,
{
    let comparison = without_data(context.comparison);
    let facts = no_facts();
    let definitions = context.facts.definitions;
    let inner = (types - 1) as nat;
    match (value.kind, expected) {
        (ExprKind::Tuple(elements), SpecType::Tuple(items)) => {
            if elements@.len() == items.len() {
                assert(all_end_within(comparison, facts, items, inner));
                lists_complete(context, items, elements@, items.len(), inner, levels);
            }
        },
        (ExprKind::Record(entries), SpecType::Record(row)) => {
            let markers = seq![SpecValueEvent::Markers { entries: entries@, record: true }];
            assert(row_ends_within(comparison, facts, row, inner));
            assert(entries@.len() == entries.len());
            if all_fields(row) && lists_fields(entries@) {
                let findings = record_value_findings(row, entries@, definitions);
                let asked = asked_field_findings(
                    row.entries,
                    entries@,
                    definitions,
                    row.entries.len(),
                );
                let others = other_field_findings(row, entries@, entries@.len());
                asked_fields_are_in_range(row, entries@, definitions, row.entries.len());
                other_fields_are_in_range(row, entries@, entries@.len());
                assert forall|i: int| 0 <= i < findings.len() implies match #[trigger] findings[i] {
                    RecordFinding::Compare { required, present } => (required as int)
                        < row.entries.len() && (present as int) < entries@.len()
                        && entries@[present as int] is Field,
                    _ => true,
                } by {
                    if i < asked.len() {
                        assert(findings[i] == asked[i]);
                    } else {
                        assert(findings[i] == others[i - asked.len()]);
                    }
                }
                fields_complete(
                    context,
                    row,
                    entries@,
                    value.span,
                    findings,
                    inner,
                    levels,
                );
                let shorthands = shorthand_events(entries@, entries@.len());
                shorthands_are_complete(entries@, entries@.len());
                let fields = fields_events(
                    context,
                    row,
                    entries@,
                    value.span,
                    findings,
                    levels,
                );
                joined_events_are_complete(shorthands, fields);
                joined_events_are_complete(markers, shorthands + fields);
            }
        },
        (ExprKind::Tag(tag), SpecType::Variant(row)) => {
            assert(row_ends_within(comparison, facts, row, inner));
            tags_complete(
                context,
                row,
                tag@,
                Seq::empty(),
                value.span,
                inner,
                levels,
            );
        },
        (ExprKind::Call { callee, args }, _) => {
            if let Some((ok_ty, error_ty)) = result_parts(expected) {
                assert(all_end_within(comparison, facts, expected->Apply_args, inner));
                assert(ends_within(comparison, facts, expected->Apply_args[0], inner));
                assert(ends_within(comparison, facts, expected->Apply_args[1], inner));
                if let Some(tag) = result_tag(*callee) {
                    if (tag == "Ok"@ || tag == "Err"@) && args@.len() == 1 {
                        nesting_bounds_value(args@, args@.len(), 0);
                        let payload = if tag == "Ok"@ {
                            ok_ty
                        } else {
                            error_ty
                        };
                        affordable_checks_complete(
                            context,
                            payload,
                            args@[0],
                            inner,
                            false,
                            levels,
                        );
                    }
                }
            } else if let (ExprKind::Tag(tag), SpecType::Variant(row)) = (callee.kind, expected) {
                assert(row_ends_within(comparison, facts, row, inner));
                tags_complete(
                    context,
                    row,
                    tag@,
                    args@,
                    value.span,
                    inner,
                    levels,
                );
            }
        },
        (ExprKind::Array(entries), _) => {
            if let Some(element) = element_of(expected, "Array"@) {
                assert(all_end_within(comparison, facts, expected->Apply_args, inner));
                assert(ends_within(comparison, facts, expected->Apply_args[0], inner));
                collections_complete(
                    context,
                    expected,
                    element,
                    entries@,
                    entries@.len(),
                    types,
                    levels,
                );
                joined_events_are_complete(
                    seq![SpecValueEvent::Markers { entries: entries@, record: false }],
                    collection_events(
                        context,
                        expected,
                        element,
                        entries@,
                        entries@.len(),
                        levels,
                    ),
                );
            }
        },
        (ExprKind::SetLiteral(entries), _) => {
            if let Some(element) = element_of(expected, "Set"@) {
                assert(all_end_within(comparison, facts, expected->Apply_args, inner));
                assert(ends_within(comparison, facts, expected->Apply_args[0], inner));
                collections_complete(
                    context,
                    expected,
                    element,
                    entries@,
                    entries@.len(),
                    types,
                    levels,
                );
                joined_events_are_complete(
                    seq![SpecValueEvent::Markers { entries: entries@, record: false }],
                    collection_events(
                        context,
                        expected,
                        element,
                        entries@,
                        entries@.len(),
                        levels,
                    ),
                );
            }
        },
        _ => {},
    }
}

/// A check of a value comes to its end at as many levels as the type, the value and recursive
/// types take together, and one more. The types of names take none.
pub proof fn enough_levels_complete(
    context: SpecValueContext,
    expected: SpecType,
    value: Expr,
    types: nat,
    levels: nat,
)
    requires
        bases_are_names(context),
        ends_for_values(context, expected, types),
        types + value_nesting(value) + levels_to_unfold(context.comparison) + 1 <= levels,
    ensures
        is_complete(value_events(context, expected, value, levels)),
{
    affordable_checks_complete(context, expected, value, types, false, levels);
}

/// How many levels a check of a value takes at most: those of the type and of the value, twice
/// those of recursive types, and one more.
pub open spec fn value_levels_needed(
    context: SpecValueContext,
    expected: SpecType,
    value: Expr,
) -> nat {
    nesting(expected) + value_nesting(value) + 2 * levels_to_unfold(context.comparison) + 1
}

/// A check of a value comes to its end at the levels that are needed, and at any more.
pub proof fn needed_levels_complete(
    context: SpecValueContext,
    expected: Type,
    value: Expr,
    levels: nat,
)
    requires
        bases_are_names(context),
        value_levels_needed(context, expected@, value) <= levels,
    ensures
        is_complete(value_events(context, expected@, value, levels)),
{
    let each = levels_to_unfold(context.comparison);
    types_are_countable(expected);
    nested_types_end(
        without_data(context.comparison),
        no_facts(),
        expected@,
        nesting(expected@) + each,
    );
    enough_levels_complete(context, expected@, value, nesting(expected@) + each, levels);
}

// ---------------------------------------------------------------------------
// More levels
// ---------------------------------------------------------------------------
proof fn parts_are_complete(first: Seq<SpecValueEvent>, second: Seq<SpecValueEvent>)
    requires
        is_complete(first + second),
    ensures
        is_complete(first),
        is_complete(second),
{
    let both = first + second;
    assert forall|i: int| 0 <= i < first.len() implies !is_unfinished(#[trigger] first[i]) by {
        assert(both[i] == first[i]);
    }
    assert forall|i: int| 0 <= i < second.len() implies !is_unfinished(#[trigger] second[i]) by {
        assert(both[i + first.len()] == second[i]);
    }
}

/// What a check finds that comes to its end, it finds at more levels too.
pub proof fn more_levels_check_the_same(
    context: SpecValueContext,
    expected: SpecType,
    value: Expr,
    levels: nat,
    more: nat,
)
    requires
        is_complete(value_events(context, expected, value, levels)),
        levels <= more,
    ensures
        value_events(context, expected, value, more) == value_events(
            context,
            expected,
            value,
            levels,
        ),
    decreases levels, 0nat, 0nat,
{
    if levels == 0 {
        let events = value_events(context, expected, value, levels);
        assert(is_unfinished(events[0]));
    } else {
        let below = (levels - 1) as nat;
        let more_below = (more - 1) as nat;
        if expected is SlotRecord {
            match value.kind {
                ExprKind::Group(inner) => {
                    more_levels_check_the_same(context, expected, *inner, below, more_below);
                },
                ExprKind::Block(items) => {
                    blocks_check_the_same(context, expected, items@, below, more_below);
                },
                _ => {},
            }
        } else if expected is Recursive && !(value.kind is Name || value.kind is ComptimeName) {
            let id = expected->Recursive_0;
            let unfolded = unfolded_once(expected, context.comparison.recursive);
            if !context.active().contains(id) {
                if unfolded != expected {
                    more_levels_check_the_same(
                        context.entering(id),
                        unfolded,
                        value,
                        below,
                        more_below,
                    );
                } else {
                    branded_check_the_same(context, expected, value, below, more_below);
                }
            }
        } else {
            branded_check_the_same(context, expected, value, below, more_below);
        }
    }
}

proof fn branded_check_the_same(
    context: SpecValueContext,
    expected: SpecType,
    value: Expr,
    levels: nat,
    more: nat,
)
    requires
        is_complete(branded_events(context, expected, value, levels)),
        levels <= more,
    ensures
        branded_events(context, expected, value, more) == branded_events(
            context,
            expected,
            value,
            levels,
        ),
    decreases levels, 4nat, 0nat,
{
    match branding_for(context, expected, value) {
        Branding::CheckBase => {
            let (owner, base) = primitive_family(context, expected)->0;
            let actual = type_at(context.places, value.span, 0);
            if ungrouped(value).kind is Literal {
                more_levels_check_the_same(context, base, value, levels, more);
            } else {
                let findings = comparison_findings(
                    context.comparison,
                    context.facts,
                    base,
                    actual,
                    levels,
                );
                let events = found_events(findings, value.span);
                assert forall|i: int| 0 <= i < findings.len() implies !((
                #[trigger] findings[i]) is Unfinished) by {
                    assert(!is_unfinished(events[i]));
                }
                more_levels_find_the_same(
                    context.comparison,
                    context.facts,
                    base,
                    actual,
                    levels,
                    more,
                );
            }
        },
        Branding::NoLiteral => {
            plain_check_the_same(context, expected, value, levels, more);
        },
        _ => {},
    }
}

proof fn plain_check_the_same(
    context: SpecValueContext,
    expected: SpecType,
    value: Expr,
    levels: nat,
    more: nat,
)
    requires
        is_complete(plain_events(context, expected, value, levels)),
        levels <= more,
    ensures
        plain_events(context, expected, value, more) == plain_events(
            context,
            expected,
            value,
            levels,
        ),
    decreases levels, 3nat, 0nat,
{
    match value.kind {
        ExprKind::Group(inner) => {
            more_levels_check_the_same(context, expected, *inner, levels, more);
        },
        ExprKind::Block(items) => {
            blocks_check_the_same(context, expected, items@, levels, more);
        },
        ExprKind::Lambda { .. } => {},
        ExprKind::Name(_) => {},
        ExprKind::ComptimeName(_) => {},
        _ => if expected is Optional && value.kind is Undefined {
        } else if expected is Nullable && value.kind is Null {
        } else if expected is Optional && is_written_out(value) {
            more_levels_check_the_same(context, *expected->Optional_0, value, levels, more);
        } else if expected is Nullable && is_written_out(value) {
            more_levels_check_the_same(context, *expected->Nullable_0, value, levels, more);
        } else {
            shapes_check_the_same(context, expected, value, levels, more);
        },
    }
}

proof fn shapes_check_the_same(
    context: SpecValueContext,
    expected: SpecType,
    value: Expr,
    levels: nat,
    more: nat,
)
    requires
        is_complete(shape_events(context, expected, value, levels)),
        levels <= more,
    ensures
        shape_events(context, expected, value, more) == shape_events(
            context,
            expected,
            value,
            levels,
        ),
    decreases levels, 2nat, 0nat,
{
    match (value.kind, expected) {
        (ExprKind::Tuple(elements), SpecType::Tuple(items)) => {
            if elements@.len() == items.len() {
                lists_check_the_same(context, items, elements@, items.len(), levels, more);
            }
        },
        (ExprKind::Record(entries), SpecType::Record(row)) => {
            if all_fields(row) && lists_fields(entries@) {
                let markers = seq![SpecValueEvent::Markers { entries: entries@, record: true }];
                let shorthands = shorthand_events(entries@, entries@.len());
                let findings = record_value_findings(row, entries@, context.facts.definitions);
                let fields = fields_events(
                    context,
                    row,
                    entries@,
                    value.span,
                    findings,
                    levels,
                );
                parts_are_complete(markers, shorthands + fields);
                parts_are_complete(shorthands, fields);
                fields_check_the_same(
                    context,
                    row,
                    entries@,
                    value.span,
                    findings,
                    levels,
                    more,
                );
            }
        },
        (ExprKind::Tag(tag), SpecType::Variant(row)) => {
            tags_check_the_same(
                context,
                row,
                tag@,
                Seq::empty(),
                value.span,
                levels,
                more,
            );
        },
        (ExprKind::Call { callee, args }, _) => {
            if let Some((ok_ty, error_ty)) = result_parts(expected) {
                if let Some(tag) = result_tag(*callee) {
                    if (tag == "Ok"@ || tag == "Err"@) && args@.len() == 1 {
                        let payload = if tag == "Ok"@ {
                            ok_ty
                        } else {
                            error_ty
                        };
                        more_levels_check_the_same(context, payload, args@[0], levels, more);
                    }
                }
            } else if let (ExprKind::Tag(tag), SpecType::Variant(row)) = (callee.kind, expected) {
                tags_check_the_same(context, row, tag@, args@, value.span, levels, more);
            }
        },
        (ExprKind::Array(entries), _) => {
            if let Some(element) = element_of(expected, "Array"@) {
                parts_are_complete(
                    seq![SpecValueEvent::Markers { entries: entries@, record: false }],
                    collection_events(
                        context,
                        expected,
                        element,
                        entries@,
                        entries@.len(),
                        levels,
                    ),
                );
                collections_check_the_same(
                    context,
                    expected,
                    element,
                    entries@,
                    entries@.len(),
                    levels,
                    more,
                );
            }
        },
        (ExprKind::SetLiteral(entries), _) => {
            if let Some(element) = element_of(expected, "Set"@) {
                parts_are_complete(
                    seq![SpecValueEvent::Markers { entries: entries@, record: false }],
                    collection_events(
                        context,
                        expected,
                        element,
                        entries@,
                        entries@.len(),
                        levels,
                    ),
                );
                collections_check_the_same(
                    context,
                    expected,
                    element,
                    entries@,
                    entries@.len(),
                    levels,
                    more,
                );
            }
        },
        _ => {},
    }
}

proof fn blocks_check_the_same(
    context: SpecValueContext,
    expected: SpecType,
    items: Seq<Item>,
    levels: nat,
    more: nat,
)
    requires
        is_complete(block_events(context, expected, items, levels)),
        levels <= more,
    ensures
        block_events(context, expected, items, more) == block_events(
            context,
            expected,
            items,
            levels,
        ),
    decreases levels, 1nat, 0nat,
{
    if items.len() > 0 {
        if let Item::Expr(value) = items.last() {
            let open = seq![SpecValueEvent::OpenBlock(items)];
            let last = value_events(context, expected, *value, levels);
            parts_are_complete(open + last, seq![SpecValueEvent::CloseBlock]);
            parts_are_complete(open, last);
            more_levels_check_the_same(context, expected, *value, levels, more);
        }
    }
}

proof fn lists_check_the_same(
    context: SpecValueContext,
    types: Seq<SpecType>,
    values: Seq<Expr>,
    count: nat,
    levels: nat,
    more: nat,
)
    requires
        is_complete(list_events(context, types, values, count, levels)),
        levels <= more,
    ensures
        list_events(context, types, values, count, more) == list_events(
            context,
            types,
            values,
            count,
            levels,
        ),
    decreases levels, 1nat, count,
{
    if count > 0 {
        parts_are_complete(
            list_events(context, types, values, (count - 1) as nat, levels),
            value_events(context, types[count - 1], values[count - 1], levels),
        );
        lists_check_the_same(context, types, values, (count - 1) as nat, levels, more);
        more_levels_check_the_same(
            context,
            types[count - 1],
            values[count - 1],
            levels,
            more,
        );
    }
}

proof fn tags_check_the_same(
    context: SpecValueContext,
    row: SpecRow,
    tag: Seq<char>,
    args: Seq<Expr>,
    span: Span,
    levels: nat,
    more: nat,
)
    requires
        is_complete(tag_events(context, row, tag, args, span, levels)),
        levels <= more,
    ensures
        tag_events(context, row, tag, args, span, more) == tag_events(
            context,
            row,
            tag,
            args,
            span,
            levels,
        ),
    decreases levels, 1nat, args.len() + 1,
{
    if all_tags(row) {
        if let Some(payload) = last_payload(row.entries, tag) {
            if payload.len() == args.len() {
                lists_check_the_same(context, payload, args, args.len(), levels, more);
            }
        }
    }
}

proof fn fields_check_the_same(
    context: SpecValueContext,
    row: SpecRow,
    entries: Seq<RecordEntry>,
    span: Span,
    findings: Seq<RecordFinding>,
    levels: nat,
    more: nat,
)
    requires
        is_complete(fields_events(context, row, entries, span, findings, levels)),
        levels <= more,
    ensures
        fields_events(context, row, entries, span, findings, more) == fields_events(
            context,
            row,
            entries,
            span,
            findings,
            levels,
        ),
    decreases levels, 1nat, findings.len(),
{
    if findings.len() > 0 {
        let others = findings.drop_last();
        let earlier = fields_events(context, row, entries, span, others, levels);
        let whole = fields_events(context, row, entries, span, findings, levels);
        let added = whole.skip(earlier.len() as int);
        assert(whole =~= earlier + added);
        parts_are_complete(earlier, added);
        fields_check_the_same(context, row, entries, span, others, levels, more);
        if let RecordFinding::Compare { required, present } = findings.last() {
            let ty = row.entries[required as int]->Field_ty;
            let value = added_value(entries[present as int])->0;
            assert(added =~= value_events(context, ty, value, levels));
            more_levels_check_the_same(context, ty, value, levels, more);
        }
    }
}

proof fn collections_check_the_same(
    context: SpecValueContext,
    expected: SpecType,
    element: SpecType,
    entries: Seq<RecordEntry>,
    count: nat,
    levels: nat,
    more: nat,
)
    requires
        is_complete(collection_events(context, expected, element, entries, count, levels)),
        levels <= more,
    ensures
        collection_events(context, expected, element, entries, count, more) == collection_events(
            context,
            expected,
            element,
            entries,
            count,
            levels,
        ),
    decreases levels, 1nat, count,
{
    if count > 0 {
        let before = (count - 1) as nat;
        let earlier = collection_events(context, expected, element, entries, before, levels);
        let whole = collection_events(context, expected, element, entries, count, levels);
        let added = whole.skip(earlier.len() as int);
        assert(whole =~= earlier + added);
        parts_are_complete(earlier, added);
        collections_check_the_same(context, expected, element, entries, before, levels, more);
        match entries[count - 1] {
            RecordEntry::Element(value) => {
                assert(added =~= value_events(context, element, *value, levels));
                more_levels_check_the_same(context, element, *value, levels, more);
            },
            RecordEntry::Spread { value, .. } => {
                assert(added =~= value_events(context, expected, *value, levels));
                more_levels_check_the_same(context, expected, *value, levels, more);
            },
            _ => {},
        }
    }
}

// ---------------------------------------------------------------------------
// Counting levels
// ---------------------------------------------------------------------------
/// Count how deeply a value is nested; nothing where it is more than can be counted.
pub fn count_value_nesting(value: &Expr) -> (count: Option<usize>)
    ensures
        is_counted(count, value_nesting(*value)),
    decreases value,
{
    match &value.kind {
        ExprKind::Group(inner) => count_more(count_value_nesting(inner), 1),
        ExprKind::Block(items) => count_more(count_item_nesting(items), 1),
        ExprKind::Tuple(elements) => count_more(count_nesting_of_values(elements), 1),
        ExprKind::Call { callee: _, args } => count_more(count_nesting_of_values(args), 1),
        ExprKind::Record(entries) => count_more(count_nesting_of_parts(entries), 1),
        ExprKind::Array(entries) => count_more(count_nesting_of_parts(entries), 1),
        ExprKind::SetLiteral(entries) => count_more(count_nesting_of_parts(entries), 1),
        _ => Some(1),
    }
}

fn count_nesting_of_values(values: &Vec<Expr>) -> (count: Option<usize>)
    ensures
        is_counted(count, nesting_of_values(values@, values@.len())),
    decreases values,
{
    let mut count: Option<usize> = Some(0);
    let mut index: usize = 0;
    while index < values.len()
        invariant
            index <= values.len(),
            is_counted(count, nesting_of_values(values@, index as nat)),
        decreases values.len() - index,
    {
        let next = count_value_nesting(&values[index]);
        let ghost earlier = nesting_of_values(values@, index as nat);
        count = count_larger(count, next);
        assert(is_counted(count, larger(earlier, value_nesting(values@[index as int]))));
        index += 1;
    }
    count
}

fn count_item_nesting(items: &Vec<Item>) -> (count: Option<usize>)
    ensures
        is_counted(count, item_nesting(items@, items@.len())),
    decreases items,
{
    let mut count: Option<usize> = Some(0);
    let mut index: usize = 0;
    while index < items.len()
        invariant
            index <= items.len(),
            is_counted(count, item_nesting(items@, index as nat)),
        decreases items.len() - index,
    {
        if let Item::Expr(value) = &items[index] {
            let next = count_value_nesting(value);
            let ghost earlier = item_nesting(items@, index as nat);
            count = count_larger(count, next);
            assert(is_counted(count, larger(earlier, value_nesting(**value))));
        }
        index += 1;
    }
    count
}

fn count_nesting_of_parts(entries: &Vec<RecordEntry>) -> (count: Option<usize>)
    ensures
        is_counted(count, nesting_of_parts(entries@, entries@.len())),
    decreases entries,
{
    let mut count: Option<usize> = Some(0);
    let mut index: usize = 0;
    while index < entries.len()
        invariant
            index <= entries.len(),
            is_counted(count, nesting_of_parts(entries@, index as nat)),
        decreases entries.len() - index,
    {
        let part: Option<&Box<Expr>> = match &entries[index] {
            RecordEntry::Field { name: _, name_span: _, value, overwrite: _, span: _ } => Some(
                value,
            ),
            RecordEntry::Element(value) => Some(value),
            RecordEntry::Spread { value, overwrite: _, span: _ } => Some(value),
            _ => None,
        };
        if let Some(value) = part {
            let next = count_value_nesting(value);
            let ghost earlier = nesting_of_parts(entries@, index as nat);
            count = count_larger(count, next);
            assert(is_counted(count, larger(earlier, value_nesting(**value))));
        }
        index += 1;
    }
    count
}

/// Count the levels that a check of a value takes at most; nothing where they are more than can
/// be counted.
pub fn count_value_levels(context: &ValueContext, expected: &Type, value: &Expr) -> (count: Option<
    usize,
>)
    ensures
        is_counted(count, value_levels_needed(context@, expected@, *value)),
{
    let unfolding = count_unfolding(&context.comparison.recursive, &context.comparison.active);
    assert(is_counted(unfolding, levels_to_unfold(context@.comparison)));
    match (count_nesting(expected), count_value_nesting(value), unfolding) {
        (Some(types), Some(parts), Some(each)) => {
            let both = count_more(Some(parts), types);
            assert(is_counted(both, (types + parts) as nat));
            let once = count_more(both, each);
            assert(is_counted(once, (each + (types + parts)) as nat));
            let twice = count_more(once, each);
            assert(is_counted(twice, (each + (each + (types + parts))) as nat));
            let count = count_more(twice, 1);
            assert(is_counted(count, (1 + (each + (each + (types + parts)))) as nat));
            count
        },
        _ => None,
    }
}

} // verus!
