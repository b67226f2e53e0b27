//! Which values can be compared.
use crate::equality::{
    compared, demanded, fields_compared, items_compared, may_be_absent, rows_compared,
    EqualityCompatibility, SpecContext,
};
use crate::lookup::slot_type;
use crate::operator_laws::{lists_numbers, lists_texts, lists_truth_values, named};
use crate::type_ops::resolved;
use crate::types::{SpecRow, SpecRowEntry, SpecType};
use vstd::prelude::*;

verus! {

/// Whether a type is that of truth values.
pub open spec fn holds_truth_values(ty: SpecType) -> bool {
    ty == named("Bool"@) || lists_truth_values(ty)
}

/// Whether a type is that of texts.
pub open spec fn holds_texts(ty: SpecType) -> bool {
    ty == named("Text"@) || lists_texts(ty)
}

/// Whether a type is that of numbers, with a point or without.
pub open spec fn holds_numbers(ty: SpecType) -> bool {
    ty == named("Int"@) || ty == named("Float"@) || lists_numbers(ty)
}

/// Whether a type is that of plain values.
pub open spec fn holds_plain_values(ty: SpecType) -> bool {
    holds_truth_values(ty) || holds_texts(ty) || holds_numbers(ty)
}

proof fn names_differ()
    ensures
        "Bool"@.len() == 4 && "Bool"@[0] == 'B',
        "Text"@.len() == 4 && "Text"@[0] == 'T',
        "Int"@.len() == 3,
        "Float"@.len() == 5,
{
    reveal_strlit("Bool");
    reveal_strlit("Text");
    reveal_strlit("Int");
    reveal_strlit("Float");
}

/// Two plain values can be compared exactly where both are truth values, both texts or both
/// numbers.
pub proof fn plain_values_are_compared_by_kind(
    left: SpecType,
    right: SpecType,
    context: SpecContext,
    levels: nat,
)
    requires
        levels > 0,
        !(left is Recursive && right is Recursive),
        holds_plain_values(demanded(left, context)),
        holds_plain_values(demanded(right, context)),
    ensures
        ({
            let first = demanded(left, context);
            let second = demanded(right, context);
            let same = holds_truth_values(first) && holds_truth_values(second) || holds_texts(first)
                && holds_texts(second) || holds_numbers(first) && holds_numbers(second);
            compared(left, right, context, levels) == Some(
                if same {
                    EqualityCompatibility::Comparable
                } else {
                    EqualityCompatibility::Mismatched
                },
            )
        }),
{
    names_differ();
    let first = demanded(left, context);
    let second = demanded(right, context);
    crate::operator_laws::literals_have_their_base(first);
    crate::operator_laws::literals_have_their_base(second);
    kinds_exclude_each_other(first);
    kinds_exclude_each_other(second);
}

proof fn kinds_exclude_each_other(ty: SpecType)
    ensures
        !(holds_truth_values(ty) && holds_texts(ty)),
        !(holds_truth_values(ty) && holds_numbers(ty)),
        !(holds_texts(ty) && holds_numbers(ty)),
{
    names_differ();
    crate::operator_laws::literals_have_their_base(ty);
}

/// Records, tuples and arrays can be compared with their like alone.
pub proof fn structures_are_compared_with_their_like(
    left: SpecType,
    right: SpecType,
    context: SpecContext,
    levels: nat,
)
    requires
        levels > 0,
        !(left is Recursive && right is Recursive),
        resolved(demanded(left, context)),
        resolved(demanded(right, context)),
    ensures
        ({
            let first = demanded(left, context);
            let second = demanded(right, context);
            let answer = compared(left, right, context, levels);
            let mismatch = Some(EqualityCompatibility::Mismatched);
            &&& first is Record && !(second is Record) ==> answer == mismatch
            &&& second is Record && !(first is Record) ==> answer == mismatch
            &&& first is Tuple && !(second is Tuple) ==> answer == mismatch
            &&& second is Tuple && !(first is Tuple) ==> answer == mismatch
            &&& first is Tuple && second is Tuple && first->Tuple_0.len() != second->Tuple_0.len()
                ==> answer == mismatch
        }),
{
}

/// What is not known is not compared, unless both are plain values.
pub proof fn unknown_types_are_not_compared(
    left: SpecType,
    right: SpecType,
    context: SpecContext,
    levels: nat,
)
    requires
        levels > 0,
        !(left is Recursive && right is Recursive),
        !resolved(demanded(left, context)) || !resolved(demanded(right, context)),
    ensures
        !(holds_plain_values(demanded(left, context)) && holds_plain_values(
            demanded(right, context),
        )) ==> compared(left, right, context, levels) == Some(EqualityCompatibility::Unknown),
{
    names_differ();
    crate::operator_laws::literals_have_their_base(demanded(left, context));
    crate::operator_laws::literals_have_their_base(demanded(right, context));
}

/// Two references to recursive types can be compared exactly where they are the same.
pub proof fn references_are_compared_by_what_they_name(
    left: SpecType,
    right: SpecType,
    context: SpecContext,
    levels: nat,
)
    requires
        levels > 0,
        left is Recursive,
        right is Recursive,
    ensures
        compared(left, right, context, levels) == Some(
            if left == right {
                EqualityCompatibility::Comparable
            } else {
                EqualityCompatibility::Mismatched
            },
        ),
{
}

/// Arrays are compared by their elements.
pub proof fn arrays_are_compared_by_elements(
    left: SpecType,
    right: SpecType,
    first: SpecType,
    second: SpecType,
    context: SpecContext,
    levels: nat,
)
    requires
        levels > 0,
        !(left is Recursive && right is Recursive),
        demanded(left, context) == crate::rows::applied1("Array"@, first),
        demanded(right, context) == crate::rows::applied1("Array"@, second),
        resolved(demanded(left, context)),
        resolved(demanded(right, context)),
    ensures
        compared(left, right, context, levels) == compared(
            first,
            second,
            context,
            (levels - 1) as nat,
        ),
{
    assert(seq![first][0] == first);
    assert(seq![second][0] == second);
}

proof fn items_decide_together(
    left: Seq<SpecType>,
    right: Seq<SpecType>,
    context: SpecContext,
    levels: nat,
    from: int,
    so_far: EqualityCompatibility,
)
    requires
        left.len() == right.len(),
        0 <= from <= left.len(),
        items_compared(left, right, context, levels, from, so_far) is Some,
    ensures
        ({
            let answer = items_compared(left, right, context, levels, from, so_far)->0;
            let at = |i: int| compared(left[i], right[i], context, levels);
            &&& forall|i: int|
                from <= i < left.len() ==> compared(
                    #[trigger] left[i],
                    right[i],
                    context,
                    levels,
                ) is Some
            &&& answer is Comparable <==> so_far is Comparable && forall|i: int|
                from <= i < left.len() ==> compared(
                    #[trigger] left[i],
                    right[i],
                    context,
                    levels,
                ) == Some(EqualityCompatibility::Comparable)
            &&& answer is Mismatched <==> so_far is Mismatched || exists|i: int|
                from <= i < left.len() && compared(#[trigger] left[i], right[i], context, levels)
                    == Some(EqualityCompatibility::Mismatched)
        }),
    decreases left.len() - from,
{
    if from < left.len() {
        let here = compared(left[from], right[from], context, levels)->0;
        items_decide_together(left, right, context, levels, from + 1, so_far.both(here));
        assert forall|i: int| from <= i < left.len() implies compared(
            #[trigger] left[i],
            right[i],
            context,
            levels,
        ) is Some by {
            if i > from {
                assert(from + 1 <= i);
            }
        }
        let answer = items_compared(left, right, context, levels, from, so_far)->0;
        if answer is Comparable {
            assert forall|i: int| from <= i < left.len() implies compared(
                #[trigger] left[i],
                right[i],
                context,
                levels,
            ) == Some(EqualityCompatibility::Comparable) by {
                if i > from {
                    assert(from + 1 <= i);
                }
            }
        }
        if here is Mismatched {
            assert(compared(left[from], right[from], context, levels) == Some(
                EqualityCompatibility::Mismatched,
            ));
        }
        if exists|i: int|
            from <= i < left.len() && compared(#[trigger] left[i], right[i], context, levels)
                == Some(EqualityCompatibility::Mismatched) {
            let i = choose|i: int|
                from <= i < left.len() && compared(#[trigger] left[i], right[i], context, levels)
                    == Some(EqualityCompatibility::Mismatched);
            if i > from {
                assert(from + 1 <= i);
            }
        }
    }
}

/// Tuples of one length can be compared where every element can, and cannot where one element
/// cannot.
pub proof fn tuples_are_compared_by_elements(
    left: SpecType,
    right: SpecType,
    first: Seq<SpecType>,
    second: Seq<SpecType>,
    context: SpecContext,
    levels: nat,
)
    requires
        levels > 0,
        !(left is Recursive && right is Recursive),
        demanded(left, context) == SpecType::Tuple(first),
        demanded(right, context) == SpecType::Tuple(second),
        resolved(demanded(left, context)),
        resolved(demanded(right, context)),
        first.len() == second.len(),
        compared(left, right, context, levels) is Some,
    ensures
        compared(left, right, context, levels) == Some(EqualityCompatibility::Comparable)
            <==> forall|i: int|
            0 <= i < first.len() ==> compared(
                #[trigger] first[i],
                second[i],
                context,
                (levels - 1) as nat,
            ) == Some(EqualityCompatibility::Comparable),
        compared(left, right, context, levels) == Some(EqualityCompatibility::Mismatched)
            <==> exists|i: int|
            0 <= i < first.len() && compared(
                #[trigger] first[i],
                second[i],
                context,
                (levels - 1) as nat,
            ) == Some(EqualityCompatibility::Mismatched),
{
    items_decide_together(
        first,
        second,
        context,
        (levels - 1) as nat,
        0,
        EqualityCompatibility::Comparable,
    );
}

/// Whether a field of one record does not go together with the other record: it must be there
/// and is not, or it is and its type cannot be compared.
pub open spec fn field_is_apart(
    entry: SpecRowEntry,
    other: SpecRow,
    context: SpecContext,
    levels: nat,
) -> bool {
    match slot_type(other.entries, entry->Field_name, 0) {
        None => !may_be_absent(entry->Field_ty, context),
        Some(ty) => compared(entry->Field_ty, ty, context, levels) == Some(
            EqualityCompatibility::Mismatched,
        ),
    }
}

proof fn fields_decide_together(
    entries: Seq<SpecRowEntry>,
    right: SpecRow,
    context: SpecContext,
    levels: nat,
    from: int,
    so_far: EqualityCompatibility,
)
    requires
        0 <= from <= entries.len(),
        !(so_far is Mismatched),
        fields_compared(entries, right, context, levels, from, so_far) is Some,
    ensures
        ({
            let answer = fields_compared(entries, right, context, levels, from, so_far)->0;
            &&& answer is Mismatched <==> exists|i: int|
                from <= i < entries.len() && field_is_apart(
                    #[trigger] entries[i],
                    right,
                    context,
                    levels,
                )
            &&& answer is Comparable ==> so_far is Comparable && forall|i: int|
                from <= i < entries.len() && slot_type(
                    right.entries,
                    (#[trigger] entries[i])->Field_name,
                    0,
                ) is Some ==> compared(
                    entries[i]->Field_ty,
                    slot_type(right.entries, entries[i]->Field_name, 0)->0,
                    context,
                    levels,
                ) == Some(EqualityCompatibility::Comparable)
        }),
    decreases entries.len() - from,
{
    if from < entries.len() {
        let entry = entries[from];
        match slot_type(right.entries, entry->Field_name, 0) {
            None => {
                if may_be_absent(entry->Field_ty, context) {
                    fields_decide_together(entries, right, context, levels, from + 1, so_far);
                    assert(!field_is_apart(entries[from], right, context, levels));
                } else {
                    assert(field_is_apart(entries[from], right, context, levels));
                }
            },
            Some(ty) => {
                let here = compared(entry->Field_ty, ty, context, levels)->0;
                if here is Mismatched {
                    assert(field_is_apart(entries[from], right, context, levels));
                } else {
                    fields_decide_together(
                        entries,
                        right,
                        context,
                        levels,
                        from + 1,
                        so_far.both(here),
                    );
                    assert(!field_is_apart(entries[from], right, context, levels));
                }
            },
        }
        if exists|i: int|
            from <= i < entries.len() && field_is_apart(
                #[trigger] entries[i],
                right,
                context,
                levels,
            ) {
            let i = choose|i: int|
                from <= i < entries.len() && field_is_apart(
                    #[trigger] entries[i],
                    right,
                    context,
                    levels,
                );
            if i > from {
                assert(from + 1 <= i);
            }
        }
        let answer = fields_compared(entries, right, context, levels, from, so_far)->0;
        if answer is Comparable {
            assert forall|i: int|
                from <= i < entries.len() && slot_type(
                    right.entries,
                    (#[trigger] entries[i])->Field_name,
                    0,
                ) is Some implies compared(
                entries[i]->Field_ty,
                slot_type(right.entries, entries[i]->Field_name, 0)->0,
                context,
                levels,
            ) == Some(EqualityCompatibility::Comparable) by {
                if i > from {
                    assert(from + 1 <= i);
                }
            }
        }
    }
}

/// Closed records cannot be compared exactly where a field of the first does not go together
/// with the second, or the second has a field that must be there and that the first lacks.
pub proof fn records_are_compared_by_fields(
    left: SpecRow,
    right: SpecRow,
    context: SpecContext,
    levels: nat,
)
    requires
        left.tail is Closed,
        right.tail is Closed,
        crate::rows::all_fields(left),
        crate::rows::all_fields(right),
        rows_compared(left, right, context, levels) is Some,
    ensures
        ({
            let answer = rows_compared(left, right, context, levels)->0;
            &&& answer is Mismatched <==> (exists|i: int|
                0 <= i < left.entries.len() && field_is_apart(
                    #[trigger] left.entries[i],
                    right,
                    context,
                    levels,
                )) || (exists|i: int|
                0 <= i < right.entries.len() && slot_type(
                    left.entries,
                    (#[trigger] right.entries[i])->Field_name,
                    0,
                ) is None && !may_be_absent(right.entries[i]->Field_ty, context))
            &&& answer is Comparable ==> forall|i: int|
                0 <= i < left.entries.len() && slot_type(
                    right.entries,
                    (#[trigger] left.entries[i])->Field_name,
                    0,
                ) is Some ==> compared(
                    left.entries[i]->Field_ty,
                    slot_type(right.entries, left.entries[i]->Field_name, 0)->0,
                    context,
                    levels,
                ) == Some(EqualityCompatibility::Comparable)
        }),
{
    fields_decide_together(
        left.entries,
        right,
        context,
        levels,
        0,
        EqualityCompatibility::Comparable,
    );
}

/// Records that may hold more than they list are not compared.
pub proof fn open_records_are_not_compared(
    left: SpecRow,
    right: SpecRow,
    context: SpecContext,
    levels: nat,
)
    requires
        !(left.tail is Closed) || !(right.tail is Closed),
    ensures
        rows_compared(left, right, context, levels) == Some(EqualityCompatibility::Unknown),
{
}

/// Other named types can be compared exactly where they are the same.
pub proof fn names_are_compared_by_spelling(
    left: SpecType,
    right: SpecType,
    first: Seq<char>,
    second: Seq<char>,
    context: SpecContext,
    levels: nat,
)
    requires
        levels > 0,
        !(left is Recursive && right is Recursive),
        demanded(left, context) == named(first),
        demanded(right, context) == named(second),
        !holds_plain_values(named(first)),
    ensures
        compared(left, right, context, levels) == Some(
            if first == second {
                EqualityCompatibility::Comparable
            } else {
                EqualityCompatibility::Mismatched
            },
        ),
{
    names_differ();
    assert(resolved(named(first)));
    assert(resolved(named(second)));
}

} // verus!
