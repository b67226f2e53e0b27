//! How many levels it takes to tell whether values can be compared for equality.
use crate::equality::{
    compared, demanded, fields_compared, is_array, items_compared, rows_compared,
    EqualityCompatibility, SpecContext,
};
use crate::lookup::slot_type;
use crate::nesting::{
    nesting, nesting_bounds_each, nesting_bounds_entry, nesting_of_entry, nesting_of_first,
    nesting_of_row,
};
use crate::normalize::{
    normal_form, normalized, normalized_all, normalized_entry, normalized_row, unfolding_rule,
};
use crate::rows::{all_fields, peeled_payload};
use crate::type_ops::{mapped, mapped_all, mapped_entry, mapped_row};
use crate::types::{SpecRow, SpecRowEntry, SpecType};
use vstd::prelude::*;

verus! {

// ---------------------------------------------------------------------------
// Types that are answered
// ---------------------------------------------------------------------------
/// Whether the parts of a type that are compared come to an end within a number of levels, with
/// names and recursive references replaced where the structure is asked for.
pub open spec fn answered_within(ty: SpecType, context: SpecContext, levels: nat) -> bool
    decreases levels, 0nat,
{
    let below = (levels - 1) as nat;
    &&& levels > 0
    &&& match demanded(ty, context) {
        SpecType::Record(row) => fields_answered_within(row, context, below),
        SpecType::Tuple(items) => items_answered_within(items, context, below),
        SpecType::Apply { args, .. } => is_array(demanded(ty, context)) && args.len() == 1
            ==> answered_within(args[0], context, below),
        _ => true,
    }
}

pub open spec fn items_answered_within(
    items: Seq<SpecType>,
    context: SpecContext,
    levels: nat,
) -> bool
    decreases levels, 1nat,
{
    forall|i: int| 0 <= i < items.len() ==> answered_within(#[trigger] items[i], context, levels)
}

pub open spec fn fields_answered_within(row: SpecRow, context: SpecContext, levels: nat) -> bool
    decreases levels, 1nat,
{
    forall|i: int|
        0 <= i < row.entries.len() ==> match #[trigger] row.entries[i] {
            SpecRowEntry::Field { ty, .. } => answered_within(ty, context, levels),
            _ => true,
        }
}

/// There is an answer at as many levels as either of two types takes.
pub proof fn enough_levels_answer(
    left: SpecType,
    right: SpecType,
    context: SpecContext,
    levels: nat,
)
    requires
        answered_within(left, context, levels) || answered_within(right, context, levels),
    ensures
        compared(left, right, context, levels) is Some,
    decreases levels, 0int,
{
    let inner = (levels - 1) as nat;
    let left_payload = demanded(left, context);
    let right_payload = demanded(right, context);
    match (left_payload, right_payload) {
        (SpecType::Record(left_row), SpecType::Record(right_row)) => {
            assert(fields_answered_within(left_row, context, inner) || fields_answered_within(
                right_row,
                context,
                inner,
            ));
            enough_levels_answer_rows(left_row, right_row, context, inner);
        },
        (SpecType::Tuple(left_items), SpecType::Tuple(right_items)) => {
            assert(items_answered_within(left_items, context, inner) || items_answered_within(
                right_items,
                context,
                inner,
            ));
            if left_items.len() == right_items.len() {
                enough_levels_answer_items(
                    left_items,
                    right_items,
                    context,
                    inner,
                    0,
                    EqualityCompatibility::Comparable,
                );
            }
        },
        (SpecType::Apply { args, .. }, SpecType::Apply { args: right_args, .. }) => {
            if is_array(left_payload) && is_array(right_payload) && args.len() == 1
                && right_args.len() == 1 {
                enough_levels_answer(args[0], right_args[0], context, inner);
            }
        },
        _ => {},
    }
}

/// There is an answer for records at as many levels as the fields of either take.
pub proof fn enough_levels_answer_rows(
    left: SpecRow,
    right: SpecRow,
    context: SpecContext,
    levels: nat,
)
    requires
        fields_answered_within(left, context, levels) || fields_answered_within(
            right,
            context,
            levels,
        ),
    ensures
        rows_compared(left, right, context, levels) is Some,
    decreases levels, left.entries.len() + 2,
{
    if all_fields(left) && all_fields(right) {
        enough_levels_answer_fields(
            left,
            right,
            context,
            levels,
            0,
            EqualityCompatibility::Comparable,
        );
    }
}

proof fn enough_levels_answer_items(
    left: Seq<SpecType>,
    right: Seq<SpecType>,
    context: SpecContext,
    levels: nat,
    from: int,
    so_far: EqualityCompatibility,
)
    requires
        left.len() == right.len(),
        items_answered_within(left, context, levels) || items_answered_within(
            right,
            context,
            levels,
        ),
    ensures
        items_compared(left, right, context, levels, from, so_far) is Some,
    decreases levels, left.len() - from + 1,
{
    if 0 <= from < left.len() {
        enough_levels_answer(left[from], right[from], context, levels);
        enough_levels_answer_items(
            left,
            right,
            context,
            levels,
            from + 1,
            so_far.both(compared(left[from], right[from], context, levels)->0),
        );
    }
}

proof fn found_fields_are_answered(
    row: SpecRow,
    name: Seq<char>,
    context: SpecContext,
    levels: nat,
    from: int,
)
    requires
        0 <= from,
        fields_answered_within(row, context, levels),
        slot_type(row.entries, name, from) is Some,
    ensures
        answered_within(slot_type(row.entries, name, from)->0, context, levels),
    decreases row.entries.len() - from,
{
    if from < row.entries.len() {
        let entry = row.entries[from];
        if !(entry is Field && entry->Field_name == name) {
            found_fields_are_answered(row, name, context, levels, from + 1);
        }
    }
}

proof fn enough_levels_answer_fields(
    left: SpecRow,
    right: SpecRow,
    context: SpecContext,
    levels: nat,
    from: int,
    so_far: EqualityCompatibility,
)
    requires
        all_fields(left),
        fields_answered_within(left, context, levels) || fields_answered_within(
            right,
            context,
            levels,
        ),
    ensures
        fields_compared(left.entries, right, context, levels, from, so_far) is Some,
    decreases levels, left.entries.len() - from + 1,
{
    if 0 <= from < left.entries.len() {
        let entry = left.entries[from];
        let ty = entry->Field_ty;
        assert(entry is Field);
        match slot_type(right.entries, entry->Field_name, 0) {
            None => {
                enough_levels_answer_fields(left, right, context, levels, from + 1, so_far);
            },
            Some(right_ty) => {
                if fields_answered_within(right, context, levels) {
                    found_fields_are_answered(right, entry->Field_name, context, levels, 0);
                }
                enough_levels_answer(ty, right_ty, context, levels);
                enough_levels_answer_fields(
                    left,
                    right,
                    context,
                    levels,
                    from + 1,
                    so_far.both(compared(ty, right_ty, context, levels)->0),
                );
            },
        }
    }
}

// ---------------------------------------------------------------------------
// Types that refer to nothing
// ---------------------------------------------------------------------------
/// Whether a type is nested no more deeply than a number of levels, and refers to no
/// definition and to no recursive type where its parts are compared.
pub open spec fn settled_within(ty: SpecType, context: SpecContext, levels: nat) -> bool
    decreases ty,
{
    &&& levels > 0
    &&& match ty {
        SpecType::Named(name) => !context.definitions.contains_key(name),
        SpecType::Recursive(_) => false,
        SpecType::Optional(inner) => settled_within(*inner, context, levels),
        SpecType::Nullable(inner) => settled_within(*inner, context, levels),
        SpecType::Tuple(items) => settled_items(items, context, (levels - 1) as nat),
        SpecType::Apply { callee, args } => settled_within(*callee, context, levels)
            && settled_items(args, context, (levels - 1) as nat),
        SpecType::Record(row) => settled_fields(row, context, (levels - 1) as nat),
        _ => true,
    }
}

pub open spec fn settled_items(items: Seq<SpecType>, context: SpecContext, levels: nat) -> bool
    decreases items,
{
    forall|i: int| 0 <= i < items.len() ==> settled_within(#[trigger] items[i], context, levels)
}

pub open spec fn settled_fields(row: SpecRow, context: SpecContext, levels: nat) -> bool
    decreases row,
{
    forall|i: int|
        0 <= i < row.entries.len() ==> settled_field(#[trigger] row.entries[i], context, levels)
}

pub open spec fn settled_field(entry: SpecRowEntry, context: SpecContext, levels: nat) -> bool
    decreases entry,
{
    match entry {
        SpecRowEntry::Field { ty, .. } => settled_within(ty, context, levels),
        _ => true,
    }
}

proof fn normal_forms_stay_settled(
    ty: SpecType,
    context: SpecContext,
    visited: Set<Seq<char>>,
    levels: nat,
)
    requires
        context.definitions.dom().finite(),
        settled_within(ty, context, levels),
    ensures
        settled_within(normalized(ty, context.definitions, visited), context, levels),
    decreases ty,
{
    let definitions = context.definitions;
    match ty {
        SpecType::Optional(inner) => {
            normal_forms_stay_settled(*inner, context, visited, levels);
        },
        SpecType::Nullable(inner) => {
            normal_forms_stay_settled(*inner, context, visited, levels);
            let normal = normalized(*inner, definitions, visited);
            if let SpecType::Optional(payload) = normal {
                assert(settled_within(*payload, context, levels));
                assert(settled_within(SpecType::Nullable(payload), context, levels));
            }
        },
        SpecType::Tuple(items) => {
            normal_items_stay_settled(items, context, visited, (levels - 1) as nat);
        },
        SpecType::Apply { callee, args } => {
            normal_forms_stay_settled(*callee, context, visited, levels);
            normal_items_stay_settled(args, context, visited, (levels - 1) as nat);
        },
        SpecType::Record(row) => {
            normal_fields_stay_settled(row, context, visited, (levels - 1) as nat);
        },
        _ => {},
    }
}

proof fn normal_items_stay_settled(
    items: Seq<SpecType>,
    context: SpecContext,
    visited: Set<Seq<char>>,
    levels: nat,
)
    requires
        context.definitions.dom().finite(),
        settled_items(items, context, levels),
    ensures
        settled_items(normalized_all(items, context.definitions, visited), context, levels),
    decreases items,
{
    let normal = normalized_all(items, context.definitions, visited);
    assert forall|i: int| 0 <= i < normal.len() implies settled_within(
        #[trigger] normal[i],
        context,
        levels,
    ) by {
        assert(settled_within(items[i], context, levels));
        normal_forms_stay_settled(items[i], context, visited, levels);
    }
}

proof fn normal_fields_stay_settled(
    row: SpecRow,
    context: SpecContext,
    visited: Set<Seq<char>>,
    levels: nat,
)
    requires
        context.definitions.dom().finite(),
        settled_fields(row, context, levels),
    ensures
        settled_fields(normalized_row(row, context.definitions, visited), context, levels),
    decreases row,
{
    let normal = normalized_row(row, context.definitions, visited);
    assert forall|i: int| 0 <= i < normal.entries.len() implies settled_field(
        #[trigger] normal.entries[i],
        context,
        levels,
    ) by {
        assert(settled_field(row.entries[i], context, levels));
        normal_field_stays_settled(row.entries[i], context, visited, levels);
    }
}

proof fn normal_field_stays_settled(
    entry: SpecRowEntry,
    context: SpecContext,
    visited: Set<Seq<char>>,
    levels: nat,
)
    requires
        context.definitions.dom().finite(),
        settled_field(entry, context, levels),
    ensures
        settled_field(normalized_entry(entry, context.definitions, visited), context, levels),
    decreases entry,
{
    if let SpecRowEntry::Field { ty, .. } = entry {
        normal_forms_stay_settled(ty, context, visited, levels);
    }
}

proof fn unfolding_keeps_settled(ty: SpecType, context: SpecContext, levels: nat)
    requires
        settled_within(ty, context, levels),
    ensures
        settled_within(
            mapped(ty, unfolding_rule(context.recursive, context.definitions)),
            context,
            levels,
        ),
    decreases ty,
{
    match ty {
        SpecType::Optional(inner) => {
            unfolding_keeps_settled(*inner, context, levels);
        },
        SpecType::Nullable(inner) => {
            unfolding_keeps_settled(*inner, context, levels);
        },
        SpecType::Tuple(items) => {
            unfolding_keeps_settled_items(items, context, (levels - 1) as nat);
        },
        SpecType::Apply { callee, args } => {
            unfolding_keeps_settled(*callee, context, levels);
            unfolding_keeps_settled_items(args, context, (levels - 1) as nat);
        },
        SpecType::Record(row) => {
            unfolding_keeps_settled_fields(row, context, (levels - 1) as nat);
        },
        _ => {},
    }
}

proof fn unfolding_keeps_settled_items(items: Seq<SpecType>, context: SpecContext, levels: nat)
    requires
        settled_items(items, context, levels),
    ensures
        settled_items(
            mapped_all(items, unfolding_rule(context.recursive, context.definitions)),
            context,
            levels,
        ),
    decreases items,
{
    let unfolded = mapped_all(items, unfolding_rule(context.recursive, context.definitions));
    assert forall|i: int| 0 <= i < unfolded.len() implies settled_within(
        #[trigger] unfolded[i],
        context,
        levels,
    ) by {
        assert(settled_within(items[i], context, levels));
        unfolding_keeps_settled(items[i], context, levels);
    }
}

proof fn unfolding_keeps_settled_fields(row: SpecRow, context: SpecContext, levels: nat)
    requires
        settled_fields(row, context, levels),
    ensures
        settled_fields(
            mapped_row(row, unfolding_rule(context.recursive, context.definitions)),
            context,
            levels,
        ),
    decreases row,
{
    let unfolded = mapped_row(row, unfolding_rule(context.recursive, context.definitions));
    assert forall|i: int| 0 <= i < unfolded.entries.len() implies settled_field(
        #[trigger] unfolded.entries[i],
        context,
        levels,
    ) by {
        assert(settled_field(row.entries[i], context, levels));
        unfolding_keeps_settled_field(row.entries[i], context, levels);
    }
}

proof fn unfolding_keeps_settled_field(entry: SpecRowEntry, context: SpecContext, levels: nat)
    requires
        settled_field(entry, context, levels),
    ensures
        settled_field(
            mapped_entry(entry, unfolding_rule(context.recursive, context.definitions)),
            context,
            levels,
        ),
    decreases entry,
{
    if let SpecRowEntry::Field { ty, .. } = entry {
        unfolding_keeps_settled(ty, context, levels);
    }
}

proof fn payloads_stay_settled(ty: SpecType, context: SpecContext, levels: nat)
    requires
        settled_within(ty, context, levels),
    ensures
        settled_within(peeled_payload(ty), context, levels),
    decreases ty,
{
    match ty {
        SpecType::Optional(inner) => {
            payloads_stay_settled(*inner, context, levels);
        },
        SpecType::Nullable(inner) => {
            payloads_stay_settled(*inner, context, levels);
        },
        _ => {},
    }
}

/// A type whose normal form refers to nothing where its parts are compared is answered at as
/// many levels as the normal form is nested.
pub proof fn settled_types_are_answered(ty: SpecType, context: SpecContext, levels: nat)
    requires
        context.definitions.dom().finite(),
        settled_within(normal_form(ty, context.definitions), context, levels),
    ensures
        answered_within(ty, context, levels),
    decreases levels, 0nat,
{
    let inner = (levels - 1) as nat;
    let normal = normal_form(ty, context.definitions);
    unfolding_keeps_settled(normal, context, levels);
    payloads_stay_settled(
        mapped(normal, unfolding_rule(context.recursive, context.definitions)),
        context,
        levels,
    );
    let payload = demanded(ty, context);
    assert(settled_within(payload, context, levels));
    match payload {
        SpecType::Record(row) => {
            assert(settled_fields(row, context, inner));
            settled_fields_are_answered(row, context, inner);
        },
        SpecType::Tuple(items) => {
            assert(settled_items(items, context, inner));
            assert forall|i: int| 0 <= i < items.len() implies answered_within(
                #[trigger] items[i],
                context,
                inner,
            ) by {
                normal_forms_stay_settled(items[i], context, Set::empty(), inner);
                settled_types_are_answered(items[i], context, inner);
            }
            assert(items_answered_within(items, context, inner));
        },
        SpecType::Apply { args, .. } => {
            assert(settled_items(args, context, inner));
            if args.len() == 1 {
                assert(settled_within(args[0], context, inner));
                normal_forms_stay_settled(args[0], context, Set::empty(), inner);
                settled_types_are_answered(args[0], context, inner);
            }
        },
        _ => {},
    }
}

proof fn settled_fields_are_answered(row: SpecRow, context: SpecContext, levels: nat)
    requires
        context.definitions.dom().finite(),
        settled_fields(row, context, levels),
    ensures
        fields_answered_within(row, context, levels),
    decreases levels, 1nat,
{
    assert forall|i: int| 0 <= i < row.entries.len() implies match #[trigger] row.entries[i] {
        SpecRowEntry::Field { ty, .. } => answered_within(ty, context, levels),
        _ => true,
    } by {
        assert(settled_field(row.entries[i], context, levels));
        if let SpecRowEntry::Field { ty, .. } = row.entries[i] {
            normal_forms_stay_settled(ty, context, Set::empty(), levels);
            settled_types_are_answered(ty, context, levels);
        }
    }
}

/// Whether a type refers to no definition and to no recursive type where its parts are
/// compared.
pub open spec fn refers_to_nothing(ty: SpecType, context: SpecContext) -> bool {
    exists|levels: nat| settled_within(ty, context, levels)
}

proof fn nested_types_settle(ty: SpecType, context: SpecContext, some: nat, levels: nat)
    requires
        settled_within(ty, context, some),
        nesting(ty) <= levels,
    ensures
        settled_within(ty, context, levels),
    decreases ty,
{
    let below = (levels - 1) as nat;
    let some_below = (some - 1) as nat;
    match ty {
        SpecType::Optional(inner) => {
            nested_types_settle(*inner, context, some, below);
            more_levels_settle(*inner, context, below, levels);
        },
        SpecType::Nullable(inner) => {
            nested_types_settle(*inner, context, some, below);
            more_levels_settle(*inner, context, below, levels);
        },
        SpecType::Tuple(items) => {
            nested_items_settle(items, context, some_below, below);
        },
        SpecType::Apply { callee, args } => {
            nested_types_settle(*callee, context, some, below);
            more_levels_settle(*callee, context, below, levels);
            nested_items_settle(args, context, some_below, below);
        },
        SpecType::Record(row) => {
            nested_fields_settle(row, context, some_below, below);
        },
        _ => {},
    }
}

proof fn nested_items_settle(items: Seq<SpecType>, context: SpecContext, some: nat, levels: nat)
    requires
        settled_items(items, context, some),
        nesting_of_first(items, items.len()) <= levels,
    ensures
        settled_items(items, context, levels),
    decreases items,
{
    assert forall|i: int| 0 <= i < items.len() implies settled_within(
        #[trigger] items[i],
        context,
        levels,
    ) by {
        nesting_bounds_each(items, items.len(), i);
        nested_types_settle(items[i], context, some, levels);
    }
}

proof fn nested_fields_settle(row: SpecRow, context: SpecContext, some: nat, levels: nat)
    requires
        settled_fields(row, context, some),
        nesting_of_row(row) <= levels,
    ensures
        settled_fields(row, context, levels),
    decreases row,
{
    assert forall|i: int| 0 <= i < row.entries.len() implies settled_field(
        #[trigger] row.entries[i],
        context,
        levels,
    ) by {
        assert(settled_field(row.entries[i], context, some));
        nesting_bounds_entry(row.entries, row.entries.len(), i);
        nested_field_settles(row.entries[i], context, some, levels);
    }
}

proof fn nested_field_settles(entry: SpecRowEntry, context: SpecContext, some: nat, levels: nat)
    requires
        settled_field(entry, context, some),
        nesting_of_entry(entry) <= levels,
    ensures
        settled_field(entry, context, levels),
    decreases entry,
{
    if let SpecRowEntry::Field { ty, .. } = entry {
        nested_types_settle(ty, context, some, levels);
    }
}

proof fn more_levels_settle(ty: SpecType, context: SpecContext, levels: nat, more: nat)
    requires
        settled_within(ty, context, levels),
        levels <= more,
    ensures
        settled_within(ty, context, more),
    decreases ty,
{
    let below = (levels - 1) as nat;
    let more_below = (more - 1) as nat;
    match ty {
        SpecType::Optional(inner) => {
            more_levels_settle(*inner, context, levels, more);
        },
        SpecType::Nullable(inner) => {
            more_levels_settle(*inner, context, levels, more);
        },
        SpecType::Tuple(items) => {
            more_levels_settle_items(items, context, below, more_below);
        },
        SpecType::Apply { callee, args } => {
            more_levels_settle(*callee, context, levels, more);
            more_levels_settle_items(args, context, below, more_below);
        },
        SpecType::Record(row) => {
            assert(settled_fields(row, context, below));
            assert forall|i: int| 0 <= i < row.entries.len() implies settled_field(
                #[trigger] row.entries[i],
                context,
                more_below,
            ) by {
                assert(settled_field(row.entries[i], context, below));
                if let SpecRowEntry::Field { ty: field, .. } = row.entries[i] {
                    more_levels_settle(field, context, below, more_below);
                }
            }
            assert(settled_fields(row, context, more_below));
        },
        _ => {},
    }
}

proof fn more_levels_settle_items(
    items: Seq<SpecType>,
    context: SpecContext,
    levels: nat,
    more: nat,
)
    requires
        settled_items(items, context, levels),
        levels <= more,
    ensures
        settled_items(items, context, more),
    decreases items,
{
    assert forall|i: int| 0 <= i < items.len() implies settled_within(
        #[trigger] items[i],
        context,
        more,
    ) by {
        assert(settled_within(items[i], context, levels));
        more_levels_settle(items[i], context, levels, more);
    }
}

/// The fields of a record are answered at as many levels as their normal forms are nested, where
/// these refer to nothing.
pub proof fn nested_fields_are_answered(row: SpecRow, context: SpecContext, levels: nat)
    requires
        context.definitions.dom().finite(),
        forall|i: int|
            0 <= i < row.entries.len() ==> match #[trigger] row.entries[i] {
                SpecRowEntry::Field { ty, .. } => {
                    let normal = normal_form(ty, context.definitions);
                    refers_to_nothing(normal, context) && nesting(normal) <= levels
                },
                _ => true,
            },
    ensures
        fields_answered_within(row, context, levels),
{
    assert forall|i: int| 0 <= i < row.entries.len() implies match #[trigger] row.entries[i] {
        SpecRowEntry::Field { ty, .. } => answered_within(ty, context, levels),
        _ => true,
    } by {
        if let SpecRowEntry::Field { ty, .. } = row.entries[i] {
            let normal = normal_form(ty, context.definitions);
            let some = choose|some: nat| settled_within(normal, context, some);
            nested_types_settle(normal, context, some, levels);
            settled_types_are_answered(ty, context, levels);
        }
    }
}

/// Two types are answered at as many levels as the normal form of one of them is nested, where
/// that one refers to nothing.
pub proof fn nested_types_are_answered(
    left: SpecType,
    right: SpecType,
    context: SpecContext,
    levels: nat,
)
    requires
        context.definitions.dom().finite(),
        ({
            let normal = normal_form(left, context.definitions);
            refers_to_nothing(normal, context) && nesting(normal) <= levels
        }) || ({
            let normal = normal_form(right, context.definitions);
            refers_to_nothing(normal, context) && nesting(normal) <= levels
        }),
    ensures
        compared(left, right, context, levels) is Some,
{
    let left_normal = normal_form(left, context.definitions);
    let right_normal = normal_form(right, context.definitions);
    if refers_to_nothing(left_normal, context) && nesting(left_normal) <= levels {
        let some = choose|some: nat| settled_within(left_normal, context, some);
        nested_types_settle(left_normal, context, some, levels);
        settled_types_are_answered(left, context, levels);
    } else {
        let some = choose|some: nat| settled_within(right_normal, context, some);
        nested_types_settle(right_normal, context, some, levels);
        settled_types_are_answered(right, context, levels);
    }
    enough_levels_answer(left, right, context, levels);
}

} // verus!
