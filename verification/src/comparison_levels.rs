//! How many levels a comparison of types takes.
use crate::comparison::{
    base_view, is_active, type_step, ComparisonContext, SpecComparison, SpecStep,
};
use crate::comparison_steps::{
    comparisons_finish_after_others, entering, entry_holds, may_follow, row_holds,
};
use crate::conformance::{
    comparison_findings, is_finished, names_mismatch, resolved_row, SpecComparisonFacts,
};
use crate::nesting::{
    all_countable, count_nesting, entry_is_countable, is_countable, is_counted, nesting,
    nesting_bounds_each, nesting_bounds_entry, nesting_of_first, nesting_of_row, row_is_countable,
    types_are_countable,
};
use crate::normalize::{unfolded_once, unfolding_of, RecursiveTypes};
use crate::rows::last_payload;
use crate::types::{RecursiveTypeId, SpecRow, SpecRowEntry, SpecType, Type};
use vstd::prelude::*;

verus! {

/// Whether whatever a type holds and stands for comes to an end within a number of levels: the
/// parts of the type, the data of the families that it names, the variants that its names
/// are defined as, and what its recursive references unfold to, each once.
pub open spec fn ends_within(
    context: SpecComparison,
    facts: SpecComparisonFacts,
    ty: SpecType,
    levels: nat,
) -> bool
    decreases levels, 0nat,
{
    let below = (levels - 1) as nat;
    &&& levels > 0
    &&& match ty {
        SpecType::Named(name) => {
            &&& context.family_data.contains_key(name) ==> ends_within(
                context,
                facts,
                context.family_data[name],
                below,
            )
            &&& facts.definitions.contains_key(name) && facts.definitions[name] is Variant
                ==> ends_within(context, facts, facts.definitions[name], below)
        },
        SpecType::Recursive(id) => {
            ||| context.active.contains(id)
            ||| unfolded_once(ty, context.recursive) == ty
            ||| ends_within(
                entering(context, id),
                facts,
                unfolded_once(ty, context.recursive),
                below,
            )
        },
        SpecType::Apply { callee, args } => ends_within(context, facts, *callee, below)
            && all_end_within(context, facts, args, below),
        SpecType::Function { params, result, .. } => ends_within(context, facts, *result, below)
            && all_end_within(context, facts, params, below),
        SpecType::Optional(inner) => ends_within(context, facts, *inner, below),
        SpecType::Nullable(inner) => ends_within(context, facts, *inner, below),
        SpecType::Tuple(items) => all_end_within(context, facts, items, below),
        SpecType::Record(row) => row_ends_within(context, facts, row, below),
        SpecType::Variant(row) => row_ends_within(context, facts, row, below) && row_ends_within(
            context,
            facts,
            resolved_row(facts, row),
            below,
        ),
        SpecType::SlotRecord { data, slots } => ends_within(
            context,
            facts,
            SpecType::Record(*data),
            below,
        ) && ends_within(context, facts, SpecType::Record(*slots), below),
        _ => true,
    }
}

pub open spec fn all_end_within(
    context: SpecComparison,
    facts: SpecComparisonFacts,
    types: Seq<SpecType>,
    levels: nat,
) -> bool
    decreases levels, 1nat,
{
    forall|i: int|
        0 <= i < types.len() ==> ends_within(context, facts, #[trigger] types[i], levels)
}

pub open spec fn entry_ends_within(
    context: SpecComparison,
    facts: SpecComparisonFacts,
    entry: SpecRowEntry,
    levels: nat,
) -> bool
    decreases levels, 2nat,
{
    match entry {
        SpecRowEntry::Field { ty, .. } => ends_within(context, facts, ty, levels),
        SpecRowEntry::Tag { payload, .. } => all_end_within(context, facts, payload, levels),
        SpecRowEntry::Literal { .. } => true,
    }
}

/// Whether the types of a row come to an end. A row has no more entries than can be counted.
pub open spec fn row_ends_within(
    context: SpecComparison,
    facts: SpecComparisonFacts,
    row: SpecRow,
    levels: nat,
) -> bool
    decreases levels, 3nat,
{
    &&& row.entries.len() <= usize::MAX
    &&& forall|i: int|
        0 <= i < row.entries.len() ==> entry_ends_within(
            context,
            facts,
            #[trigger] row.entries[i],
            levels,
        )
}

// ---------------------------------------------------------------------------
// More references that are being compared, and more levels
// ---------------------------------------------------------------------------
/// Whether two contexts differ only in that more references are being compared in the second.
pub open spec fn is_deeper(context: SpecComparison, deeper: SpecComparison) -> bool {
    &&& deeper == SpecComparison { active: deeper.active, ..context }
    &&& forall|id: RecursiveTypeId| #[trigger]
        context.active.contains(id) ==> deeper.active.contains(id)
}

pub proof fn entering_is_deeper(context: SpecComparison, id: RecursiveTypeId)
    ensures
        is_deeper(context, entering(context, id)),
        entering(context, id).active.contains(id),
{
    let active = context.active.push(id);
    assert forall|other: RecursiveTypeId| #[trigger]
        context.active.contains(other) implies active.contains(other) by {
        let index = choose|index: int|
            0 <= index < context.active.len() && context.active[index] == other;
        assert(active[index] == other);
    }
    assert(active[context.active.len() as int] == id);
}

/// What comes to an end within some levels does so within more, and where more references are
/// being compared.
pub proof fn ends_stay(
    context: SpecComparison,
    deeper: SpecComparison,
    facts: SpecComparisonFacts,
    ty: SpecType,
    levels: nat,
    more: nat,
)
    requires
        is_deeper(context, deeper),
        levels <= more,
        ends_within(context, facts, ty, levels),
    ensures
        ends_within(deeper, facts, ty, more),
    decreases levels, 0nat,
{
    let below = (levels - 1) as nat;
    let more_below = (more - 1) as nat;
    match ty {
        SpecType::Named(name) => {
            if context.family_data.contains_key(name) {
                ends_stay(context, deeper, facts, context.family_data[name], below, more_below);
            }
            if facts.definitions.contains_key(name) && facts.definitions[name] is Variant {
                ends_stay(context, deeper, facts, facts.definitions[name], below, more_below);
            }
        },
        SpecType::Recursive(id) => {
            let unfolded = unfolded_once(ty, context.recursive);
            if !context.active.contains(id) && unfolded != ty && !deeper.active.contains(id) {
                let inside = entering(context, id);
                let deeper_inside = entering(deeper, id);
                entering_is_deeper(deeper, id);
                assert forall|other: RecursiveTypeId| #[trigger]
                    inside.active.contains(other) implies deeper_inside.active.contains(
                    other,
                ) by {
                    let index = choose|index: int|
                        0 <= index < inside.active.len() && inside.active[index] == other;
                    if index < context.active.len() {
                        assert(context.active[index] == other);
                        assert(context.active.contains(other));
                        assert(deeper.active.contains(other));
                    }
                }
                ends_stay(inside, deeper_inside, facts, unfolded, below, more_below);
            }
        },
        SpecType::Apply { callee, args } => {
            ends_stay(context, deeper, facts, *callee, below, more_below);
            all_ends_stay(context, deeper, facts, args, below, more_below);
        },
        SpecType::Function { params, result, .. } => {
            ends_stay(context, deeper, facts, *result, below, more_below);
            all_ends_stay(context, deeper, facts, params, below, more_below);
        },
        SpecType::Optional(inner) => {
            ends_stay(context, deeper, facts, *inner, below, more_below);
        },
        SpecType::Nullable(inner) => {
            ends_stay(context, deeper, facts, *inner, below, more_below);
        },
        SpecType::Tuple(items) => {
            all_ends_stay(context, deeper, facts, items, below, more_below);
        },
        SpecType::Record(row) => {
            row_ends_stay(context, deeper, facts, row, below, more_below);
        },
        SpecType::Variant(row) => {
            row_ends_stay(context, deeper, facts, row, below, more_below);
            row_ends_stay(context, deeper, facts, resolved_row(facts, row), below, more_below);
        },
        SpecType::SlotRecord { data, slots } => {
            ends_stay(context, deeper, facts, SpecType::Record(*data), below, more_below);
            ends_stay(context, deeper, facts, SpecType::Record(*slots), below, more_below);
        },
        _ => {},
    }
}

proof fn all_ends_stay(
    context: SpecComparison,
    deeper: SpecComparison,
    facts: SpecComparisonFacts,
    types: Seq<SpecType>,
    levels: nat,
    more: nat,
)
    requires
        is_deeper(context, deeper),
        levels <= more,
        all_end_within(context, facts, types, levels),
    ensures
        all_end_within(deeper, facts, types, more),
    decreases levels, 1nat,
{
    assert forall|i: int| 0 <= i < types.len() implies ends_within(
        deeper,
        facts,
        #[trigger] types[i],
        more,
    ) by {
        assert(ends_within(context, facts, types[i], levels));
        ends_stay(context, deeper, facts, types[i], levels, more);
    }
}

proof fn row_ends_stay(
    context: SpecComparison,
    deeper: SpecComparison,
    facts: SpecComparisonFacts,
    row: SpecRow,
    levels: nat,
    more: nat,
)
    requires
        is_deeper(context, deeper),
        levels <= more,
        row_ends_within(context, facts, row, levels),
    ensures
        row_ends_within(deeper, facts, row, more),
    decreases levels, 3nat,
{
    assert forall|i: int| 0 <= i < row.entries.len() implies entry_ends_within(
        deeper,
        facts,
        #[trigger] row.entries[i],
        more,
    ) by {
        assert(entry_ends_within(context, facts, row.entries[i], levels));
        match row.entries[i] {
            SpecRowEntry::Field { ty, .. } => {
                ends_stay(context, deeper, facts, ty, levels, more);
            },
            SpecRowEntry::Tag { payload, .. } => {
                all_ends_stay(context, deeper, facts, payload, levels, more);
            },
            SpecRowEntry::Literal { .. } => {},
        }
    }
}

// ---------------------------------------------------------------------------
// Comparisons come to their end
// ---------------------------------------------------------------------------
/// What a row holds comes to an end where the row does.
pub proof fn held_types_end(
    context: SpecComparison,
    facts: SpecComparisonFacts,
    row: SpecRow,
    ty: SpecType,
    levels: nat,
)
    requires
        row_ends_within(context, facts, row, levels),
        row_holds(row, ty),
    ensures
        ends_within(context, facts, ty, levels),
{
    let index = choose|i: int|
        0 <= i < row.entries.len() && entry_holds(#[trigger] row.entries[i], ty);
    let entry = row.entries[index];
    assert(entry_ends_within(context, facts, entry, levels));
    if let SpecRowEntry::Tag { payload, .. } = entry {
        assert(all_end_within(context, facts, payload, levels));
        let place = choose|place: int| 0 <= place < payload.len() && payload[place] == ty;
        assert(ends_within(context, facts, payload[place], levels));
    }
}

pub proof fn payloads_end(
    context: SpecComparison,
    facts: SpecComparisonFacts,
    entries: Seq<SpecRowEntry>,
    tag: Seq<char>,
    levels: nat,
)
    requires
        forall|i: int|
            0 <= i < entries.len() ==> entry_ends_within(
                context,
                facts,
                #[trigger] entries[i],
                levels,
            ),
    ensures
        last_payload(entries, tag) matches Some(payload) ==> all_end_within(
            context,
            facts,
            payload,
            levels,
        ),
    decreases entries.len(),
{
    if entries.len() > 0 {
        let others = entries.drop_last();
        assert(entry_ends_within(context, facts, entries[entries.len() - 1], levels));
        assert forall|i: int| 0 <= i < others.len() implies entry_ends_within(
            context,
            facts,
            #[trigger] others[i],
            levels,
        ) by {
            assert(others[i] == entries[i]);
        }
        payloads_end(context, facts, others, tag, levels);
    }
}

/// The types that a comparison leads to come to an end: both a level sooner, or one of them
/// where the other stays, or both the other way round.
pub proof fn next_types_end(
    context: SpecComparison,
    facts: SpecComparisonFacts,
    expected: SpecType,
    actual: SpecType,
    inside: SpecComparison,
    next: (SpecType, SpecType),
    left: nat,
    right: nat,
)
    requires
        ends_within(context, facts, expected, left),
        ends_within(context, facts, actual, right),
        may_follow(context, facts, expected, actual, inside, next),
    ensures
        ({
            let left_below = (left - 1) as nat;
            let right_below = (right - 1) as nat;
            ||| ends_within(inside, facts, next.0, left_below) && ends_within(
                inside,
                facts,
                next.1,
                right,
            )
            ||| ends_within(inside, facts, next.0, left) && ends_within(
                inside,
                facts,
                next.1,
                right_below,
            )
            ||| ends_within(inside, facts, next.0, right_below) && ends_within(
                inside,
                facts,
                next.1,
                left_below,
            )
        }),
{
    let left_below = (left - 1) as nat;
    let right_below = (right - 1) as nat;
    match type_step(context, expected, actual, names_mismatch(facts, expected, actual)) {
        SpecStep::Compare(pairs) => {
            let index = choose|i: int| 0 <= i < pairs.len() && pairs[i] == next;
            compared_types_end(context, facts, expected, actual, index, left, right);
        },
        SpecStep::Unfold { id, .. } => {
            entering_is_deeper(context, id);
            if expected is Recursive {
                ends_stay(context, inside, facts, actual, right, right);
            } else {
                ends_stay(context, inside, facts, expected, left, left);
            }
        },
        SpecStep::ResultVariant => {
            let row = actual->Variant_0;
            assert(all_end_within(context, facts, expected->Apply_args, left_below));
            assert(ends_within(context, facts, expected->Apply_args[0], left_below));
            assert(ends_within(context, facts, expected->Apply_args[1], left_below));
            held_types_end(context, facts, row, next.1, right_below);
            ends_stay(context, context, facts, next.1, right_below, right);
        },
        SpecStep::VariantAgainstNamed => {
            let definition = facts.definitions[expected->Named_0];
            let wanted = resolved_row(facts, definition->Variant_0);
            assert(ends_within(context, facts, definition, left_below));
            held_types_end(context, facts, wanted, next.0, (left_below - 1) as nat);
            ends_stay(context, context, facts, next.0, (left_below - 1) as nat, left_below);
            let there = resolved_row(facts, actual->Variant_0);
            held_types_end(context, facts, there, next.1, right_below);
            ends_stay(context, context, facts, next.1, right_below, right);
        },
        SpecStep::Records => {
            held_types_end(context, facts, expected->Record_0, next.0, left_below);
            held_types_end(context, facts, actual->Record_0, next.1, right_below);
            ends_stay(context, context, facts, next.1, right_below, right);
        },
        SpecStep::Variants => {
            let wanted = resolved_row(facts, expected->Variant_0);
            let there = resolved_row(facts, actual->Variant_0);
            held_types_end(context, facts, wanted, next.0, left_below);
            held_types_end(context, facts, there, next.1, right_below);
            ends_stay(context, context, facts, next.1, right_below, right);
        },
        _ => {},
    }
}

proof fn compared_types_end(
    context: SpecComparison,
    facts: SpecComparisonFacts,
    expected: SpecType,
    actual: SpecType,
    index: int,
    left: nat,
    right: nat,
)
    requires
        ends_within(context, facts, expected, left),
        ends_within(context, facts, actual, right),
        ({
            let step = type_step(
                context,
                expected,
                actual,
                names_mismatch(facts, expected, actual),
            );
            step is Compare && 0 <= index < step->Compare_0.len()
        }),
    ensures
        ({
            let step = type_step(
                context,
                expected,
                actual,
                names_mismatch(facts, expected, actual),
            );
            let pair = step->Compare_0[index];
            let left_below = (left - 1) as nat;
            let right_below = (right - 1) as nat;
            ||| ends_within(context, facts, pair.0, left_below) && ends_within(
                context,
                facts,
                pair.1,
                right,
            )
            ||| ends_within(context, facts, pair.0, left) && ends_within(
                context,
                facts,
                pair.1,
                right_below,
            )
            ||| ends_within(context, facts, pair.0, right_below) && ends_within(
                context,
                facts,
                pair.1,
                left_below,
            )
        }),
{
    let left_below = (left - 1) as nat;
    let right_below = (right - 1) as nat;
    let pairs = type_step(
        context,
        expected,
        actual,
        names_mismatch(facts, expected, actual),
    )->Compare_0;
    let pair = pairs[index];
    if expected is Record && base_view(context.family_data, actual) is Some {
        assert(ends_within(context, facts, pair.1, right_below));
    } else if expected is SlotRecord {
        ends_stay(context, context, facts, pair.1, right_below, right);
    } else if expected is Optional {
        if actual is Optional {
            ends_stay(context, context, facts, pair.1, right_below, right);
        }
    } else if expected is Nullable {
        if actual is Nullable {
            ends_stay(context, context, facts, pair.1, right_below, right);
        }
    } else if expected is Tuple {
        let items = expected->Tuple_0;
        let others = actual->Tuple_0;
        assert(all_end_within(context, facts, items, left_below));
        assert(all_end_within(context, facts, others, right_below));
        assert(ends_within(context, facts, items[index], left_below));
        assert(ends_within(context, facts, others[index], right_below));
        ends_stay(context, context, facts, pair.1, right_below, right);
    } else if expected is Function {
        let params = actual->Function_params;
        let others = expected->Function_params;
        assert(all_end_within(context, facts, params, right_below));
        assert(all_end_within(context, facts, others, left_below));
        if index < params.len() {
            assert(pair == (params[index], others[index]));
            assert(ends_within(context, facts, params[index], right_below));
            assert(ends_within(context, facts, others[index], left_below));
        } else {
            ends_stay(context, context, facts, pair.1, right_below, right);
        }
    } else {
        assert(expected is Apply && actual is Apply);
        let args = expected->Apply_args;
        let others = actual->Apply_args;
        assert(all_end_within(context, facts, args, left_below));
        assert(all_end_within(context, facts, others, right_below));
        if index > 0 {
            assert(pair == (args[index - 1], others[index - 1]));
            assert(ends_within(context, facts, args[index - 1], left_below));
            assert(ends_within(context, facts, others[index - 1], right_below));
        }
        ends_stay(context, context, facts, pair.1, right_below, right);
    }
}

/// A comparison comes to its end at as many levels as the two types take together.
pub proof fn enough_levels_finish(
    context: SpecComparison,
    facts: SpecComparisonFacts,
    expected: SpecType,
    actual: SpecType,
    left: nat,
    right: nat,
    levels: nat,
)
    requires
        ends_within(context, facts, expected, left),
        ends_within(context, facts, actual, right),
        left + right <= levels,
    ensures
        is_finished(comparison_findings(context, facts, expected, actual, levels)),
    decreases levels,
{
    let below = (levels - 1) as nat;
    let left_below = (left - 1) as nat;
    let right_below = (right - 1) as nat;
    assert forall|inside: SpecComparison, next: (SpecType, SpecType)| #[trigger]
        may_follow(context, facts, expected, actual, inside, next) implies is_finished(
        comparison_findings(inside, facts, next.0, next.1, below),
    ) by {
        next_types_end(context, facts, expected, actual, inside, next, left, right);
        if ends_within(inside, facts, next.0, left_below) && ends_within(
            inside,
            facts,
            next.1,
            right,
        ) {
            enough_levels_finish(inside, facts, next.0, next.1, left_below, right, below);
        } else if ends_within(inside, facts, next.0, left) && ends_within(
            inside,
            facts,
            next.1,
            right_below,
        ) {
            enough_levels_finish(inside, facts, next.0, next.1, left, right_below, below);
        } else {
            enough_levels_finish(inside, facts, next.0, next.1, right_below, left_below, below);
        }
    }
    if expected is Record {
        assert(row_ends_within(context, facts, expected->Record_0, left_below));
    }
    if actual is Record {
        assert(row_ends_within(context, facts, actual->Record_0, right_below));
    }
    comparisons_finish_after_others(context, facts, expected, actual, levels);
}

// ---------------------------------------------------------------------------
// Counting the levels
// ---------------------------------------------------------------------------
/// How many levels the first recursive types take that are not being compared: each unfolds
/// once on the way to any part.
pub open spec fn unfolding_levels(
    entries: Seq<(RecursiveTypeId, Type)>,
    active: Seq<RecursiveTypeId>,
    count: nat,
) -> nat
    decreases count,
{
    if count == 0 || count > entries.len() {
        0
    } else {
        let earlier = unfolding_levels(entries, active, (count - 1) as nat);
        if active.contains(entries[count - 1].0) {
            earlier
        } else {
            earlier + nesting(entries[count - 1].1@) + 1
        }
    }
}

/// How many levels a comparison takes at most: those of the two types, and for each of them
/// those of the recursive types.
pub open spec fn levels_needed(
    context: SpecComparison,
    expected: SpecType,
    actual: SpecType,
) -> nat {
    let entries = context.recursive.entries@;
    nesting(expected) + nesting(actual) + 2 * unfolding_levels(
        entries,
        context.active,
        entries.len(),
    )
}

/// Whether names and rows stand for themselves: no family has data, no name is defined as a
/// variant, and rows are resolved.
pub open spec fn stands_for_itself(context: SpecComparison, facts: SpecComparisonFacts) -> bool {
    &&& forall|name: Seq<char>| !#[trigger] context.family_data.contains_key(name)
    &&& forall|name: Seq<char>| #[trigger]
        facts.definitions.contains_key(name) ==> !(facts.definitions[name] is Variant)
    &&& facts.rows.len() == 0
}

pub proof fn unfolding_takes_its_levels(
    entries: Seq<(RecursiveTypeId, Type)>,
    active: Seq<RecursiveTypeId>,
    id: RecursiveTypeId,
    count: nat,
)
    requires
        count <= entries.len(),
    ensures
        unfolding_levels(entries, active.push(id), count) <= unfolding_levels(
            entries,
            active,
            count,
        ),
        !active.contains(id) ==> forall|i: int|
            0 <= i < count && (#[trigger] entries[i]).0 == id ==> unfolding_levels(
                entries,
                active.push(id),
                count,
            ) + nesting(entries[i].1@) + 1 <= unfolding_levels(entries, active, count),
    decreases count,
{
    let longer = active.push(id);
    assert(longer[active.len() as int] == id);
    assert(longer.contains(id));
    assert forall|other: RecursiveTypeId| #[trigger] active.contains(other) implies longer.contains(
        other,
    ) by {
        let index = choose|index: int| 0 <= index < active.len() && active[index] == other;
        assert(longer[index] == other);
    }
    if count > 0 {
        unfolding_takes_its_levels(entries, active, id, (count - 1) as nat);
    }
}

pub proof fn unfolding_is_listed(
    entries: Seq<(RecursiveTypeId, Type)>,
    id: RecursiveTypeId,
    from: int,
)
    requires
        0 <= from,
        unfolding_of(entries, id, from) is Some,
    ensures
        exists|i: int|
            from <= i < entries.len() && (#[trigger] entries[i]).0 == id && entries[i].1@
                == unfolding_of(entries, id, from)->0,
    decreases entries.len() - from,
{
    if entries[from].0 != id {
        unfolding_is_listed(entries, id, from + 1);
    }
}

proof fn rows_stand_for_themselves(facts: SpecComparisonFacts, row: SpecRow)
    requires
        facts.rows.len() == 0,
    ensures
        resolved_row(facts, row) == row,
{
}

/// A type comes to an end within as many levels as it is nested and the recursive types
/// take.
pub proof fn nested_types_end(
    context: SpecComparison,
    facts: SpecComparisonFacts,
    ty: SpecType,
    levels: nat,
)
    requires
        stands_for_itself(context, facts),
        is_countable(ty),
        nesting(ty) + unfolding_levels(
            context.recursive.entries@,
            context.active,
            context.recursive.entries@.len(),
        ) <= levels,
    ensures
        ends_within(context, facts, ty, levels),
    decreases
            unfolding_levels(
                context.recursive.entries@,
                context.active,
                context.recursive.entries@.len(),
            ),
            ty,
            0nat,
{
    let entries = context.recursive.entries@;
    let below = (levels - 1) as nat;
    match ty {
        SpecType::Recursive(id) => {
            let unfolded = unfolded_once(ty, context.recursive);
            if !context.active.contains(id) && unfolded != ty {
                unfolding_is_listed(entries, id, 0);
                unfolding_takes_its_levels(entries, context.active, id, entries.len());
                let index = choose|i: int|
                    0 <= i < entries.len() && (#[trigger] entries[i]).0 == id && entries[i].1@
                        == unfolding_of(entries, id, 0)->0;
                types_are_countable(entries[index].1);
                nested_types_end(entering(context, id), facts, unfolded, below);
            }
        },
        SpecType::Apply { callee, args } => {
            nested_types_end(context, facts, *callee, below);
            nested_lists_end(context, facts, args, below);
        },
        SpecType::Function { params, result, .. } => {
            nested_types_end(context, facts, *result, below);
            nested_lists_end(context, facts, params, below);
        },
        SpecType::Optional(inner) => {
            nested_types_end(context, facts, *inner, below);
        },
        SpecType::Nullable(inner) => {
            nested_types_end(context, facts, *inner, below);
        },
        SpecType::Tuple(items) => {
            nested_lists_end(context, facts, items, below);
        },
        SpecType::Record(row) => {
            nested_rows_end(context, facts, row, below);
        },
        SpecType::Variant(row) => {
            rows_stand_for_themselves(facts, row);
            nested_rows_end(context, facts, row, below);
        },
        SpecType::SlotRecord { data, slots } => {
            nested_rows_end(context, facts, *data, (below - 1) as nat);
            nested_rows_end(context, facts, *slots, (below - 1) as nat);
            assert(ends_within(context, facts, SpecType::Record(*data), below));
            assert(ends_within(context, facts, SpecType::Record(*slots), below));
        },
        _ => {},
    }
}

proof fn nested_lists_end(
    context: SpecComparison,
    facts: SpecComparisonFacts,
    types: Seq<SpecType>,
    levels: nat,
)
    requires
        stands_for_itself(context, facts),
        all_countable(types),
        nesting_of_first(types, types.len()) + unfolding_levels(
            context.recursive.entries@,
            context.active,
            context.recursive.entries@.len(),
        ) <= levels,
    ensures
        all_end_within(context, facts, types, levels),
    decreases
            unfolding_levels(
                context.recursive.entries@,
                context.active,
                context.recursive.entries@.len(),
            ),
            types,
            0nat,
{
    assert forall|i: int| 0 <= i < types.len() implies ends_within(
        context,
        facts,
        #[trigger] types[i],
        levels,
    ) by {
        nesting_bounds_each(types, types.len(), i);
        assert(is_countable(types[i]));
        nested_types_end(context, facts, types[i], levels);
    }
}

proof fn nested_rows_end(
    context: SpecComparison,
    facts: SpecComparisonFacts,
    row: SpecRow,
    levels: nat,
)
    requires
        stands_for_itself(context, facts),
        row_is_countable(row),
        nesting_of_row(row) + unfolding_levels(
            context.recursive.entries@,
            context.active,
            context.recursive.entries@.len(),
        ) <= levels,
    ensures
        row_ends_within(context, facts, row, levels),
    decreases
            unfolding_levels(
                context.recursive.entries@,
                context.active,
                context.recursive.entries@.len(),
            ),
            row,
            0nat,
{
    assert forall|i: int| 0 <= i < row.entries.len() implies entry_ends_within(
        context,
        facts,
        #[trigger] row.entries[i],
        levels,
    ) by {
        nesting_bounds_entry(row.entries, row.entries.len(), i);
        assert(entry_is_countable(row.entries[i]));
        match row.entries[i] {
            SpecRowEntry::Field { ty, .. } => {
                nested_types_end(context, facts, ty, levels);
            },
            SpecRowEntry::Tag { payload, .. } => {
                nested_lists_end(context, facts, payload, levels);
            },
            SpecRowEntry::Literal { .. } => {},
        }
    }
}

/// Where names and rows stand for themselves, a comparison comes to its end at the levels
/// that are needed, and at any more: recursive types unfold once each.
pub proof fn needed_levels_suffice(
    context: SpecComparison,
    facts: SpecComparisonFacts,
    expected: Type,
    actual: Type,
    levels: nat,
)
    requires
        stands_for_itself(context, facts),
        levels_needed(context, expected@, actual@) <= levels,
    ensures
        is_finished(comparison_findings(context, facts, expected@, actual@, levels)),
{
    let entries = context.recursive.entries@;
    let each = unfolding_levels(entries, context.active, entries.len());
    types_are_countable(expected);
    types_are_countable(actual);
    nested_types_end(context, facts, expected@, nesting(expected@) + each);
    nested_types_end(context, facts, actual@, nesting(actual@) + each);
    enough_levels_finish(
        context,
        facts,
        expected@,
        actual@,
        nesting(expected@) + each,
        nesting(actual@) + each,
        levels,
    );
}

/// Count the levels that recursive types take that are not being compared.
pub fn count_unfolding(recursive: &RecursiveTypes, active: &Vec<RecursiveTypeId>) -> (count: Option<
    usize,
>)
    ensures
        is_counted(
            count,
            unfolding_levels(recursive.entries@, active@, recursive.entries@.len()),
        ),
{
    let ghost entries = recursive.entries@;
    let mut count: Option<usize> = Some(0);
    let mut index: usize = 0;
    while index < recursive.entries.len()
        invariant
            index <= recursive.entries.len(),
            entries == recursive.entries@,
            is_counted(count, unfolding_levels(entries, active@, index as nat)),
        decreases recursive.entries.len() - index,
    {
        if !is_active(active, recursive.entries[index].0) {
            let next = count_nesting(&recursive.entries[index].1);
            count = match (count, next) {
                (Some(count), Some(next)) => match count.checked_add(next) {
                    Some(sum) => sum.checked_add(1),
                    None => None,
                },
                _ => None,
            };
        }
        index += 1;
    }
    count
}

/// Count the levels that a comparison takes at most; nothing where they are more than can be
/// counted.
pub fn count_levels(context: &ComparisonContext, expected: &Type, actual: &Type) -> (count: Option<
    usize,
>)
    ensures
        is_counted(count, levels_needed(context@, expected@, actual@)),
{
    let unfolding = count_unfolding(&context.recursive, &context.active);
    match (count_nesting(expected), count_nesting(actual), unfolding) {
        (Some(left), Some(right), Some(each)) => {
            let sum = match left.checked_add(right) {
                Some(sum) => sum,
                None => {
                    return None;
                },
            };
            match sum.checked_add(each) {
                Some(sum) => sum.checked_add(each),
                None => None,
            }
        },
        _ => None,
    }
}

} // verus!
