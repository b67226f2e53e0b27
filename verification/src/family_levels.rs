//! How many levels a comparison takes with families whose data refer to families.
use crate::comparison::{base_view, type_step, zipped, SpecComparison, SpecStep};
use crate::comparison_levels::{
    all_end_within, ends_stay, ends_within, entering_is_deeper, held_types_end, levels_needed,
    nested_types_end, next_types_end, row_ends_within, stands_for_itself, unfolding_is_listed,
    unfolding_levels, unfolding_takes_its_levels,
};
use crate::comparison_steps::{
    comparisons_finish_after_others, entering, entry_holds, may_follow, row_holds,
};
use crate::conformance::{
    comparison_findings, is_finished, names_mismatch, resolved_row, row_resolution,
    SpecComparisonFacts,
};
use crate::nesting::{nesting, types_are_countable};
use crate::normalize::unfolded_once;
use crate::types::{RecursiveTypeId, SpecRow, SpecRowEntry, SpecType, Type};
use vstd::prelude::*;

verus! {

// ---------------------------------------------------------------------------
// Types that hold no function
// ---------------------------------------------------------------------------
/// Whether a type holds no function, and no row with more entries than can be counted.
pub open spec fn is_plain(ty: SpecType) -> bool
    decreases ty,
{
    match ty {
        SpecType::Apply { callee, args } => is_plain(*callee) && all_plain(args),
        SpecType::Function { .. } => false,
        SpecType::Optional(inner) => is_plain(*inner),
        SpecType::Nullable(inner) => is_plain(*inner),
        SpecType::Tuple(items) => all_plain(items),
        SpecType::Record(row) => row_is_plain(row),
        SpecType::Variant(row) => row_is_plain(row),
        SpecType::SlotRecord { data, slots } => row_is_plain(*data) && row_is_plain(*slots),
        _ => true,
    }
}

pub open spec fn all_plain(types: Seq<SpecType>) -> bool
    decreases types,
{
    forall|i: int| 0 <= i < types.len() ==> is_plain(#[trigger] types[i])
}

pub open spec fn entry_is_plain(entry: SpecRowEntry) -> bool
    decreases entry,
{
    match entry {
        SpecRowEntry::Field { ty, .. } => is_plain(ty),
        SpecRowEntry::Tag { payload, .. } => all_plain(payload),
        SpecRowEntry::Literal { .. } => true,
    }
}

pub open spec fn row_is_plain(row: SpecRow) -> bool
    decreases row,
{
    &&& row.entries.len() <= usize::MAX
    &&& forall|i: int| 0 <= i < row.entries.len() ==> entry_is_plain(#[trigger] row.entries[i])
}

proof fn held_types_are_plain(row: SpecRow, ty: SpecType)
    requires
        row_is_plain(row),
        row_holds(row, ty),
    ensures
        is_plain(ty),
{
    let index = choose|i: int|
        0 <= i < row.entries.len() && entry_holds(#[trigger] row.entries[i], ty);
    let entry = row.entries[index];
    assert(entry_is_plain(entry));
    if let SpecRowEntry::Tag { payload, .. } = entry {
        assert(all_plain(payload));
        let place = choose|place: int| 0 <= place < payload.len() && payload[place] == ty;
        assert(is_plain(payload[place]));
    }
}

/// Whether what types stand for holds no function: the data of families, which are records, what
/// recursive references unfold to, and what rows resolve to.
pub open spec fn stands_for_plain(context: SpecComparison, facts: SpecComparisonFacts) -> bool {
    &&& forall|name: Seq<char>| #[trigger]
        context.family_data.contains_key(name) ==> context.family_data[name] is Record && is_plain(
            context.family_data[name],
        )
    &&& forall|i: int|
        0 <= i < context.recursive.entries@.len() ==> is_plain(
            (#[trigger] context.recursive.entries@[i]).1@,
        )
    &&& forall|i: int| 0 <= i < facts.rows.len() ==> row_is_plain((#[trigger] facts.rows[i]).1)
}

proof fn resolved_rows_are_plain(rows: Seq<(SpecRow, SpecRow)>, row: SpecRow, from: int)
    requires
        0 <= from,
        row_is_plain(row),
        forall|i: int| 0 <= i < rows.len() ==> row_is_plain((#[trigger] rows[i]).1),
    ensures
        row_is_plain(row_resolution(rows, row, from)),
    decreases rows.len() - from,
{
    if from < rows.len() && rows[from].0 != row {
        resolved_rows_are_plain(rows, row, from + 1);
    }
}

// ---------------------------------------------------------------------------
// Families that stand for themselves
// ---------------------------------------------------------------------------
/// The context where families stand for themselves.
pub open spec fn without_data(context: SpecComparison) -> SpecComparison {
    SpecComparison { family_data: Map::empty(), ..context }
}

/// How many levels recursive types take that are not being compared.
pub open spec fn levels_to_unfold(context: SpecComparison) -> nat {
    let entries = context.recursive.entries@;
    unfolding_levels(entries, context.active, entries.len())
}

pub proof fn unfolding_takes_levels(context: SpecComparison, id: RecursiveTypeId)
    requires
        !context.active.contains(id),
        unfolded_once(SpecType::Recursive(id), context.recursive) != SpecType::Recursive(id),
    ensures
        levels_to_unfold(entering(context, id)) < levels_to_unfold(context),
{
    let entries = context.recursive.entries@;
    unfolding_is_listed(entries, id, 0);
    unfolding_takes_its_levels(entries, context.active, id, entries.len());
}

/// What a comparison with a type that holds no function leads to: the expected type comes to an
/// end a level sooner, or the other one is replaced by the data of a family or by what it
/// unfolds to.
proof fn next_types_are_plain(
    context: SpecComparison,
    facts: SpecComparisonFacts,
    expected: SpecType,
    actual: SpecType,
    inside: SpecComparison,
    next: (SpecType, SpecType),
    left: nat,
)
    requires
        stands_for_plain(context, facts),
        ends_within(without_data(context), facts, expected, left),
        is_plain(actual),
        may_follow(context, facts, expected, actual, inside, next),
    ensures
        is_plain(next.1),
        stands_for_plain(inside, facts),
        levels_to_unfold(inside) <= levels_to_unfold(context),
        ({
            ||| ends_within(without_data(inside), facts, next.0, (left - 1) as nat)
            ||| {
                &&& ends_within(without_data(inside), facts, next.0, left)
                &&& actual is Named
                &&& next.1 is Record
            }
            ||| {
                &&& ends_within(without_data(inside), facts, next.0, left)
                &&& actual is Recursive
                &&& levels_to_unfold(inside) < levels_to_unfold(context)
            }
        }),
{
    let outside = without_data(context);
    let below = (left - 1) as nat;
    match type_step(context, expected, actual, names_mismatch(facts, expected, actual)) {
        SpecStep::Compare(pairs) => {
            let index = choose|i: int| 0 <= i < pairs.len() && pairs[i] == next;
            compared_types_are_plain(context, facts, expected, actual, index, left);
        },
        SpecStep::Unfold { id, .. } => {
            unfolding_takes_levels(context, id);
            entering_is_deeper(outside, id);
            assert(entering(outside, id) == without_data(inside));
            if expected is Recursive {
            } else {
                unfolding_is_listed(context.recursive.entries@, id, 0);
                ends_stay(outside, without_data(inside), facts, expected, left, left);
            }
        },
        SpecStep::ResultVariant => {
            assert(all_end_within(outside, facts, expected->Apply_args, below));
            assert(ends_within(outside, facts, expected->Apply_args[0], below));
            assert(ends_within(outside, facts, expected->Apply_args[1], below));
            held_types_are_plain(actual->Variant_0, next.1);
        },
        SpecStep::VariantAgainstNamed => {
            let definition = facts.definitions[expected->Named_0];
            let wanted = resolved_row(facts, definition->Variant_0);
            assert(ends_within(outside, facts, definition, below));
            held_types_end(outside, facts, wanted, next.0, (below - 1) as nat);
            ends_stay(outside, outside, facts, next.0, (below - 1) as nat, below);
            resolved_rows_are_plain(facts.rows, actual->Variant_0, 0);
            held_types_are_plain(resolved_row(facts, actual->Variant_0), next.1);
        },
        SpecStep::Records => {
            held_types_end(outside, facts, expected->Record_0, next.0, below);
            held_types_are_plain(actual->Record_0, next.1);
        },
        SpecStep::Variants => {
            held_types_end(
                outside,
                facts,
                resolved_row(facts, expected->Variant_0),
                next.0,
                below,
            );
            resolved_rows_are_plain(facts.rows, actual->Variant_0, 0);
            held_types_are_plain(resolved_row(facts, actual->Variant_0), next.1);
        },
        _ => {},
    }
}

proof fn compared_types_are_plain(
    context: SpecComparison,
    facts: SpecComparisonFacts,
    expected: SpecType,
    actual: SpecType,
    index: int,
    left: nat,
)
    requires
        stands_for_plain(context, facts),
        ends_within(without_data(context), facts, expected, left),
        is_plain(actual),
        ({
            let step = type_step(
                context,
                expected,
                actual,
                names_mismatch(facts, expected, actual),
            );
            step is Compare && 0 <= index < step->Compare_0.len()
        }),
    ensures
        ({
            let step = type_step(
                context,
                expected,
                actual,
                names_mismatch(facts, expected, actual),
            );
            let pair = step->Compare_0[index];
            &&& is_plain(pair.1)
            &&& {
                ||| ends_within(without_data(context), facts, pair.0, (left - 1) as nat)
                ||| {
                    &&& ends_within(without_data(context), facts, pair.0, left)
                    &&& actual is Named
                    &&& pair.1 is Record
                }
            }
        }),
{
    let outside = without_data(context);
    let below = (left - 1) as nat;
    let pairs = type_step(
        context,
        expected,
        actual,
        names_mismatch(facts, expected, actual),
    )->Compare_0;
    let pair = pairs[index];
    if expected is Record && base_view(context.family_data, actual) is Some {
        assert(context.family_data.contains_key(actual->Named_0));
    } else if expected is SlotRecord {
        assert(ends_within(outside, facts, pair.0, below));
    } else if expected is Optional {
        assert(ends_within(outside, facts, pair.0, below));
    } else if expected is Nullable {
        assert(ends_within(outside, facts, pair.0, below));
    } else if expected is Tuple {
        let items = expected->Tuple_0;
        let others = actual->Tuple_0;
        assert(pairs == zipped(items, others));
        assert(all_end_within(outside, facts, items, below));
        assert(all_plain(others));
        assert(ends_within(outside, facts, items[index], below));
        assert(is_plain(others[index]));
    } else {
        assert(expected is Apply && actual is Apply);
        let args = expected->Apply_args;
        let others = actual->Apply_args;
        assert(all_end_within(outside, facts, args, below));
        assert(all_plain(others));
        if index > 0 {
            assert(pair == (args[index - 1], others[index - 1]));
            assert(ends_within(outside, facts, args[index - 1], below));
            assert(is_plain(others[index - 1]));
        }
    }
}

// ---------------------------------------------------------------------------
// Comparisons come to their end
// ---------------------------------------------------------------------------
/// A comparison with a type that holds no function comes to its end within levels that the
/// expected type alone bounds, also where families have data that refer to families.
pub proof fn plain_types_finish(
    context: SpecComparison,
    facts: SpecComparisonFacts,
    expected: SpecType,
    actual: SpecType,
    left: nat,
    levels: nat,
)
    requires
        stands_for_plain(context, facts),
        ends_within(without_data(context), facts, expected, left),
        is_plain(actual),
        2 * left + levels_to_unfold(context) + (if actual is Record {
            0nat
        } else {
            1nat
        }) <= levels,
    ensures
        is_finished(comparison_findings(context, facts, expected, actual, levels)),
    decreases levels,
{
    let below = (levels - 1) as nat;
    let left_below = (left - 1) as nat;
    assert forall|inside: SpecComparison, next: (SpecType, SpecType)| #[trigger]
        may_follow(context, facts, expected, actual, inside, next) implies is_finished(
        comparison_findings(inside, facts, next.0, next.1, below),
    ) by {
        next_types_are_plain(context, facts, expected, actual, inside, next, left);
        if ends_within(without_data(inside), facts, next.0, left_below) {
            plain_types_finish(inside, facts, next.0, next.1, left_below, below);
        } else {
            plain_types_finish(inside, facts, next.0, next.1, left, below);
        }
    }
    if expected is Record {
        assert(row_ends_within(without_data(context), facts, expected->Record_0, left_below));
    }
    if actual is Record {
        assert(row_is_plain(actual->Record_0));
    }
    comparisons_finish_after_others(context, facts, expected, actual, levels);
}

/// A comparison comes to its end at twice the levels that the two types take where families stand
/// for themselves, and those that recursive types take: the data of families may refer to
/// families, as long as they hold no function.
pub proof fn families_finish(
    context: SpecComparison,
    facts: SpecComparisonFacts,
    expected: SpecType,
    actual: SpecType,
    left: nat,
    right: nat,
    levels: nat,
)
    requires
        stands_for_plain(context, facts),
        ends_within(without_data(context), facts, expected, left),
        ends_within(without_data(context), facts, actual, right),
        2 * (left + right) + levels_to_unfold(context) <= levels,
    ensures
        is_finished(comparison_findings(context, facts, expected, actual, levels)),
    decreases levels,
{
    let outside = without_data(context);
    let below = (levels - 1) as nat;
    let left_below = (left - 1) as nat;
    let right_below = (right - 1) as nat;
    assert forall|inside: SpecComparison, next: (SpecType, SpecType)| #[trigger]
        may_follow(context, facts, expected, actual, inside, next) implies is_finished(
        comparison_findings(inside, facts, next.0, next.1, below),
    ) by {
        if expected is Record && base_view(context.family_data, actual) is Some {
            assert(context.family_data.contains_key(actual->Named_0));
            families_are_replaced(context, facts, expected, actual, inside, next);
            plain_types_finish(context, facts, expected, next.1, left, below);
        } else {
            steps_stay_without_data(context, facts, expected, actual, inside, next);
            let within = without_data(inside);
            next_types_end(outside, facts, expected, actual, within, next, left, right);
            if ends_within(within, facts, next.0, left_below) && ends_within(
                within,
                facts,
                next.1,
                right,
            ) {
                families_finish(inside, facts, next.0, next.1, left_below, right, below);
            } else if ends_within(within, facts, next.0, left) && ends_within(
                within,
                facts,
                next.1,
                right_below,
            ) {
                families_finish(inside, facts, next.0, next.1, left, right_below, below);
            } else {
                families_finish(inside, facts, next.0, next.1, right_below, left_below, below);
            }
        }
    }
    if expected is Record {
        assert(row_ends_within(outside, facts, expected->Record_0, left_below));
    }
    if actual is Record {
        assert(row_ends_within(outside, facts, actual->Record_0, right_below));
    }
    comparisons_finish_after_others(context, facts, expected, actual, levels);
}

proof fn families_are_replaced(
    context: SpecComparison,
    facts: SpecComparisonFacts,
    expected: SpecType,
    actual: SpecType,
    inside: SpecComparison,
    next: (SpecType, SpecType),
)
    requires
        expected is Record,
        base_view(context.family_data, actual) is Some,
        may_follow(context, facts, expected, actual, inside, next),
    ensures
        inside == context,
        next == (expected, base_view(context.family_data, actual)->0),
{
    if let SpecStep::Compare(pairs) = type_step(
        context,
        expected,
        actual,
        names_mismatch(facts, expected, actual),
    ) {
        let index = choose|i: int| 0 <= i < pairs.len() && pairs[i] == next;
        assert(index == 0);
    }
}

proof fn steps_stay_without_data(
    context: SpecComparison,
    facts: SpecComparisonFacts,
    expected: SpecType,
    actual: SpecType,
    inside: SpecComparison,
    next: (SpecType, SpecType),
)
    requires
        stands_for_plain(context, facts),
        !(expected is Record && base_view(context.family_data, actual) is Some),
        may_follow(context, facts, expected, actual, inside, next),
    ensures
        may_follow(without_data(context), facts, expected, actual, without_data(inside), next),
        stands_for_plain(inside, facts),
        levels_to_unfold(inside) <= levels_to_unfold(context),
{
    let outside = without_data(context);
    let mismatch = names_mismatch(facts, expected, actual);
    assert(type_step(context, expected, actual, mismatch) == type_step(
        outside,
        expected,
        actual,
        mismatch,
    ));
    if let SpecStep::Unfold { id, .. } = type_step(context, expected, actual, mismatch) {
        assert(entering(outside, id) == without_data(inside));
        unfolding_takes_levels(context, id);
    }
}

/// A comparison with a name that is not defined as a variant comes to its end after what
/// recursive types unfold to.
pub proof fn names_finish(
    context: SpecComparison,
    facts: SpecComparisonFacts,
    name: Seq<char>,
    actual: SpecType,
    levels: nat,
)
    requires
        !(facts.definitions.contains_key(name) && facts.definitions[name] is Variant),
        levels_to_unfold(context) < levels,
    ensures
        is_finished(comparison_findings(context, facts, SpecType::Named(name), actual, levels)),
    decreases levels,
{
    let expected = SpecType::Named(name);
    let below = (levels - 1) as nat;
    assert forall|inside: SpecComparison, next: (SpecType, SpecType)| #[trigger]
        may_follow(context, facts, expected, actual, inside, next) implies is_finished(
        comparison_findings(inside, facts, next.0, next.1, below),
    ) by {
        if let SpecStep::Unfold { id, .. } = type_step(
            context,
            expected,
            actual,
            names_mismatch(facts, expected, actual),
        ) {
            unfolding_takes_levels(context, id);
            names_finish(inside, facts, name, next.1, below);
        }
    }
    comparisons_finish_after_others(context, facts, expected, actual, levels);
}

/// A comparison comes to its end at three times the levels that are needed where families stand
/// for themselves, also where they have data, as long as what types stand for holds no function.
pub proof fn needed_levels_suffice_for_families(
    context: SpecComparison,
    facts: SpecComparisonFacts,
    expected: Type,
    actual: Type,
    levels: nat,
)
    requires
        stands_for_itself(without_data(context), facts),
        stands_for_plain(context, facts),
        3 * levels_needed(context, expected@, actual@) <= levels,
    ensures
        is_finished(comparison_findings(context, facts, expected@, actual@, levels)),
{
    let outside = without_data(context);
    let each = levels_to_unfold(context);
    types_are_countable(expected);
    types_are_countable(actual);
    nested_types_end(outside, facts, expected@, nesting(expected@) + each);
    nested_types_end(outside, facts, actual@, nesting(actual@) + each);
    families_finish(
        context,
        facts,
        expected@,
        actual@,
        nesting(expected@) + each,
        nesting(actual@) + each,
        levels,
    );
}

} // verus!
