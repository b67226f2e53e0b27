//! How deeply types are nested.
use crate::types::{
    entries_view, types_view, Row, RowEntry, SpecRow, SpecRowEntry, SpecType, Type,
};
use vstd::prelude::*;

verus! {

pub open spec fn larger(left: nat, right: nat) -> nat {
    if left < right {
        right
    } else {
        left
    }
}

/// How deeply a type is nested. Names and references count as they stand.
pub open spec fn nesting(ty: SpecType) -> nat
    decreases ty, 0nat,
{
    match ty {
        SpecType::Apply { callee, args } => 1 + larger(
            nesting(*callee),
            nesting_of_first(args, args.len()),
        ),
        SpecType::Function { params, result, .. } => 1 + larger(
            nesting(*result),
            nesting_of_first(params, params.len()),
        ),
        SpecType::Optional(inner) => 1 + nesting(*inner),
        SpecType::Nullable(inner) => 1 + nesting(*inner),
        SpecType::Tuple(items) => 1 + nesting_of_first(items, items.len()),
        SpecType::Record(row) => 1 + nesting_of_row(row),
        SpecType::Variant(row) => 1 + nesting_of_row(row),
        SpecType::SlotRecord { data, slots } => 2 + larger(
            nesting_of_row(*data),
            nesting_of_row(*slots),
        ),
        _ => 1,
    }
}

/// How deeply the most deeply nested of the first types is nested.
pub open spec fn nesting_of_first(types: Seq<SpecType>, count: nat) -> nat
    decreases types, count,
{
    if count == 0 || count > types.len() {
        0
    } else {
        larger(nesting_of_first(types, (count - 1) as nat), nesting(types[count - 1]))
    }
}

/// How deeply the types of a row are nested.
pub open spec fn nesting_of_row(row: SpecRow) -> nat
    decreases row, 0nat,
{
    nesting_of_entries(row.entries, row.entries.len())
}

pub open spec fn nesting_of_entries(entries: Seq<SpecRowEntry>, count: nat) -> nat
    decreases entries, count,
{
    if count == 0 || count > entries.len() {
        0
    } else {
        larger(
            nesting_of_entries(entries, (count - 1) as nat),
            nesting_of_entry(entries[count - 1]),
        )
    }
}

pub open spec fn nesting_of_entry(entry: SpecRowEntry) -> nat
    decreases entry, 0nat,
{
    match entry {
        SpecRowEntry::Field { ty, .. } => nesting(ty),
        SpecRowEntry::Tag { payload, .. } => nesting_of_first(payload, payload.len()),
        SpecRowEntry::Literal { .. } => 0,
    }
}

/// Every one of some types is nested no more deeply than the most deeply nested.
pub proof fn nesting_bounds_each(types: Seq<SpecType>, count: nat, index: int)
    requires
        0 <= index < count <= types.len(),
    ensures
        nesting(types[index]) <= nesting_of_first(types, count),
    decreases count,
{
    if index < count - 1 {
        nesting_bounds_each(types, (count - 1) as nat, index);
    }
}

/// Every entry of a row is nested no more deeply than the most deeply nested.
pub proof fn nesting_bounds_entry(entries: Seq<SpecRowEntry>, count: nat, index: int)
    requires
        0 <= index < count <= entries.len(),
    ensures
        nesting_of_entry(entries[index]) <= nesting_of_entries(entries, count),
    decreases count,
{
    if index < count - 1 {
        nesting_bounds_entry(entries, (count - 1) as nat, index);
    }
}

/// Whether a number is counted, or more than can be.
pub open spec fn is_counted(count: Option<usize>, number: nat) -> bool {
    match count {
        Some(count) => count == number,
        None => number > usize::MAX,
    }
}

/// The larger of two counts; nothing where one is more than can be counted.
pub fn count_larger(left: Option<usize>, right: Option<usize>) -> (count: Option<usize>)
    ensures
        forall|l: nat, r: nat|
            is_counted(left, l) && is_counted(right, r) ==> #[trigger] is_counted(
                count,
                larger(l, r),
            ),
{
    match (left, right) {
        (Some(left), Some(right)) => if left < right {
            Some(right)
        } else {
            Some(left)
        },
        _ => None,
    }
}

/// A count with more added to it.
pub fn count_more(count: Option<usize>, more: usize) -> (counted: Option<usize>)
    ensures
        forall|number: nat| is_counted(count, number) ==> #[trigger] is_counted(
            counted,
            (more + number) as nat,
        ),
{
    match count {
        Some(count) => count.checked_add(more),
        None => None,
    }
}

/// Count how deeply a type is nested; nothing where it is more than can be counted.
pub fn count_nesting(ty: &Type) -> (count: Option<usize>)
    ensures
        is_counted(count, nesting(ty@)),
    decreases ty,
{
    match ty {
        Type::Apply { callee, args } => {
            let first = count_nesting(callee);
            let others = count_nesting_of_all(args);
            let inner = count_larger(first, others);
            assert(is_counted(
                inner,
                larger(nesting(callee@), nesting_of_first(types_view(args@), args@.len())),
            ));
            count_more(inner, 1)
        },
        Type::Function { params, result, required: _ } => {
            let first = count_nesting(result);
            let others = count_nesting_of_all(params);
            let inner = count_larger(first, others);
            assert(is_counted(
                inner,
                larger(nesting(result@), nesting_of_first(types_view(params@), params@.len())),
            ));
            count_more(inner, 1)
        },
        Type::Optional(inner) => count_more(count_nesting(inner), 1),
        Type::Nullable(inner) => count_more(count_nesting(inner), 1),
        Type::Tuple(items) => count_more(count_nesting_of_all(items), 1),
        Type::Record(row) => count_more(count_nesting_of_row(row), 1),
        Type::Variant(row) => count_more(count_nesting_of_row(row), 1),
        Type::SlotRecord { data, slots } => {
            let first = count_nesting_of_row(data);
            let others = count_nesting_of_row(slots);
            let inner = count_larger(first, others);
            assert(is_counted(inner, larger(nesting_of_row(data@), nesting_of_row(slots@))));
            count_more(inner, 2)
        },
        _ => Some(1),
    }
}

fn count_nesting_of_all(types: &Vec<Type>) -> (count: Option<usize>)
    ensures
        is_counted(count, nesting_of_first(types_view(types@), types@.len())),
    decreases types,
{
    let ghost all = types_view(types@);
    assert(all.len() == types@.len());
    let mut count: Option<usize> = Some(0);
    let mut index: usize = 0;
    while index < types.len()
        invariant
            index <= types.len(),
            all == types_view(types@),
            all.len() == types@.len(),
            is_counted(count, nesting_of_first(all, index as nat)),
        decreases types.len() - index,
    {
        assert(all[index as int] == types@[index as int]@);
        let next = count_nesting(&types[index]);
        let ghost earlier = nesting_of_first(all, index as nat);
        let ghost last = nesting(all[index as int]);
        count = count_larger(count, next);
        assert(is_counted(count, larger(earlier, last)));
        index += 1;
    }
    count
}

fn count_nesting_of_row(row: &Row) -> (count: Option<usize>)
    ensures
        is_counted(count, nesting_of_row(row@)),
    decreases row,
{
    let ghost all = entries_view(row.entries@);
    assert(row@.entries == all);
    assert(all.len() == row.entries@.len());
    let mut count: Option<usize> = Some(0);
    let mut index: usize = 0;
    while index < row.entries.len()
        invariant
            index <= row.entries.len(),
            all == entries_view(row.entries@),
            all.len() == row.entries@.len(),
            is_counted(count, nesting_of_entries(all, index as nat)),
        decreases row.entries.len() - index,
    {
        assert(all[index as int] == row.entries@[index as int]@);
        let next = match &row.entries[index] {
            RowEntry::Field { name: _, ty } => count_nesting(ty),
            RowEntry::Tag { name: _, payload } => count_nesting_of_all(payload),
            RowEntry::Literal { .. } => Some(0),
        };
        let ghost earlier = nesting_of_entries(all, index as nat);
        let ghost last = nesting_of_entry(all[index as int]);
        assert(is_counted(next, last));
        count = count_larger(count, next);
        assert(is_counted(count, larger(earlier, last)));
        index += 1;
    }
    count
}

// ---------------------------------------------------------------------------
// Rows that can be counted
// ---------------------------------------------------------------------------
/// Whether no row in a type has more entries than can be counted.
pub open spec fn is_countable(ty: SpecType) -> bool
    decreases ty,
{
    match ty {
        SpecType::Apply { callee, args } => is_countable(*callee) && all_countable(args),
        SpecType::Function { params, result, .. } => is_countable(*result) && all_countable(
            params,
        ),
        SpecType::Optional(inner) => is_countable(*inner),
        SpecType::Nullable(inner) => is_countable(*inner),
        SpecType::Tuple(items) => all_countable(items),
        SpecType::Record(row) => row_is_countable(row),
        SpecType::Variant(row) => row_is_countable(row),
        SpecType::SlotRecord { data, slots } => row_is_countable(*data) && row_is_countable(
            *slots,
        ),
        _ => true,
    }
}

pub open spec fn all_countable(types: Seq<SpecType>) -> bool
    decreases types,
{
    forall|i: int| 0 <= i < types.len() ==> is_countable(#[trigger] types[i])
}

pub open spec fn entry_is_countable(entry: SpecRowEntry) -> bool
    decreases entry,
{
    match entry {
        SpecRowEntry::Field { ty, .. } => is_countable(ty),
        SpecRowEntry::Tag { payload, .. } => all_countable(payload),
        SpecRowEntry::Literal { .. } => true,
    }
}

pub open spec fn row_is_countable(row: SpecRow) -> bool
    decreases row,
{
    &&& row.entries.len() <= usize::MAX
    &&& forall|i: int|
        0 <= i < row.entries.len() ==> entry_is_countable(#[trigger] row.entries[i])
}

/// The rows of a type that is there can be counted.
pub proof fn types_are_countable(ty: Type)
    ensures
        is_countable(ty@),
    decreases ty,
{
    match ty {
        Type::Apply { callee, args } => {
            types_are_countable(*callee);
            lists_are_countable(args);
        },
        Type::Function { params, result, .. } => {
            types_are_countable(*result);
            lists_are_countable(params);
        },
        Type::Optional(inner) => {
            types_are_countable(*inner);
        },
        Type::Nullable(inner) => {
            types_are_countable(*inner);
        },
        Type::Tuple(items) => {
            lists_are_countable(items);
        },
        Type::Record(row) => {
            rows_are_countable(row);
        },
        Type::Variant(row) => {
            rows_are_countable(row);
        },
        Type::SlotRecord { data, slots } => {
            rows_are_countable(*data);
            rows_are_countable(*slots);
        },
        _ => {},
    }
}

proof fn lists_are_countable(types: Vec<Type>)
    ensures
        all_countable(types_view(types@)),
    decreases types,
{
    let all = types_view(types@);
    assert forall|i: int| 0 <= i < all.len() implies is_countable(#[trigger] all[i]) by {
        assert(all[i] == types@[i]@);
        types_are_countable(types@[i]);
    }
}

proof fn rows_are_countable(row: Row)
    ensures
        row_is_countable(row@),
    decreases row,
{
    let all = entries_view(row.entries@);
    assert(row@.entries == all);
    assert(all.len() == row.entries.len());
    assert forall|i: int| 0 <= i < all.len() implies entry_is_countable(#[trigger] all[i]) by {
        assert(all[i] == row.entries@[i]@);
        match row.entries@[i] {
            RowEntry::Field { ty, .. } => {
                types_are_countable(ty);
            },
            RowEntry::Tag { payload, .. } => {
                lists_are_countable(payload);
            },
            RowEntry::Literal { .. } => {},
        }
    }
}

} // verus!
