//! Equality of types and method schemes up to the names of their variables.
use crate::collections::{names_view, StringMap};
use crate::methods::{MethodConstraint, NamedMethodType, SpecConstraint, SpecMethod};
use crate::type_ops::{
    is_node, some_node, some_node_in, some_node_in_entry, some_node_in_row, variables, variables_in,
};
use crate::types::{types_view, Row, RowEntry, SpecRow, SpecRowEntry, SpecType, Type};
use vstd::prelude::*;

verus! {

/// A partial map from variable names to variable names.
pub type Names = Map<Seq<char>, Seq<char>>;

/// Whether no two names are mapped to one.
pub open spec fn injective(names: Names) -> bool {
    forall|x: Seq<char>, y: Seq<char>|
        #![trigger names.contains_key(x), names.contains_key(y)]
        names.contains_key(x) && names.contains_key(y) && names[x] == names[y] ==> x == y
}

/// Whether the second map agrees with the first wherever the first is defined.
pub open spec fn extends(names: Names, larger: Names) -> bool {
    forall|x: Seq<char>| #[trigger]
        names.contains_key(x) ==> larger.contains_key(x) && larger[x] == names[x]
}

/// Whether two maps undo each other.
pub open spec fn inverse(forward: Names, reverse: Names) -> bool {
    &&& forall|x: Seq<char>| #[trigger]
        forward.contains_key(x) ==> reverse.contains_key(forward[x]) && reverse[forward[x]] == x
    &&& forall|y: Seq<char>| #[trigger]
        reverse.contains_key(y) ==> forward.contains_key(reverse[y]) && forward[reverse[y]] == y
}

/// Whether renaming the variables of the first type gives the second.
pub open spec fn renames(left: SpecType, right: SpecType, names: Names) -> bool
    decreases left,
{
    match (left, right) {
        (SpecType::Variable(x), SpecType::Variable(y)) => names.contains_key(x) && names[x] == y,
        (
            SpecType::Apply { callee: left_callee, args: left_args },
            SpecType::Apply { callee: right_callee, args: right_args },
        ) => renames(*left_callee, *right_callee, names) && renames_all(
            left_args,
            right_args,
            names,
        ),
        (
            SpecType::Function {
                params: left_params,
                result: left_result,
                required: left_required,
            },
            SpecType::Function {
                params: right_params,
                result: right_result,
                required: right_required,
            },
        ) => left_required == right_required && renames_all(left_params, right_params, names)
            && renames(*left_result, *right_result, names),
        (SpecType::Optional(left), SpecType::Optional(right)) => renames(*left, *right, names),
        (SpecType::Nullable(left), SpecType::Nullable(right)) => renames(*left, *right, names),
        (SpecType::Tuple(left), SpecType::Tuple(right)) => renames_all(left, right, names),
        (SpecType::Record(left), SpecType::Record(right)) => renames_row(left, right, names),
        (SpecType::Variant(left), SpecType::Variant(right)) => renames_row(left, right, names),
        (
            SpecType::SlotRecord { data: left_data, slots: left_slots },
            SpecType::SlotRecord { data: right_data, slots: right_slots },
        ) => renames_row(*left_data, *right_data, names) && renames_row(
            *left_slots,
            *right_slots,
            names,
        ),
        _ => left == right,
    }
}

pub open spec fn renames_all(left: Seq<SpecType>, right: Seq<SpecType>, names: Names) -> bool
    decreases left,
{
    &&& left.len() == right.len()
    &&& forall|i: int| 0 <= i < left.len() ==> renames(#[trigger] left[i], right[i], names)
}

pub open spec fn renames_entry(left: SpecRowEntry, right: SpecRowEntry, names: Names) -> bool
    decreases left,
{
    match (left, right) {
        (
            SpecRowEntry::Field { name: left_name, ty: left },
            SpecRowEntry::Field { name: right_name, ty: right },
        ) => left_name == right_name && renames(left, right, names),
        (
            SpecRowEntry::Tag { name: left_name, payload: left },
            SpecRowEntry::Tag { name: right_name, payload: right },
        ) => left_name == right_name && renames_all(left, right, names),
        (SpecRowEntry::Literal { value: left }, SpecRowEntry::Literal { value: right }) => left
            == right,
        _ => false,
    }
}

pub open spec fn renames_row(left: SpecRow, right: SpecRow, names: Names) -> bool
    decreases left,
{
    &&& left.tail == right.tail
    &&& left.entries.len() == right.entries.len()
    &&& forall|i: int|
        0 <= i < left.entries.len() ==> renames_entry(
            #[trigger] left.entries[i],
            right.entries[i],
            names,
        )
}

/// Whether renaming the variables of the first constraint gives the second.
pub open spec fn renames_constraint(
    left: SpecConstraint,
    right: SpecConstraint,
    names: Names,
) -> bool {
    &&& left.member == right.member
    &&& renames(left.candidate, right.candidate, names)
    &&& renames_all(left.params, right.params, names)
    &&& renames(left.result, right.result, names)
}

proof fn renames_extended(left: SpecType, right: SpecType, names: Names, larger: Names)
    requires
        renames(left, right, names),
        extends(names, larger),
    ensures
        renames(left, right, larger),
    decreases left,
{
    match (left, right) {
        (
            SpecType::Apply { callee: left_callee, args: left_args },
            SpecType::Apply { callee: right_callee, args: right_args },
        ) => {
            renames_extended(*left_callee, *right_callee, names, larger);
            renames_all_extended(left_args, right_args, names, larger);
        },
        (
            SpecType::Function { params: left_params, result: left_result, .. },
            SpecType::Function { params: right_params, result: right_result, .. },
        ) => {
            renames_all_extended(left_params, right_params, names, larger);
            renames_extended(*left_result, *right_result, names, larger);
        },
        (SpecType::Optional(left), SpecType::Optional(right)) => {
            renames_extended(*left, *right, names, larger);
        },
        (SpecType::Nullable(left), SpecType::Nullable(right)) => {
            renames_extended(*left, *right, names, larger);
        },
        (SpecType::Tuple(left), SpecType::Tuple(right)) => {
            renames_all_extended(left, right, names, larger);
        },
        (SpecType::Record(left), SpecType::Record(right)) => {
            renames_row_extended(left, right, names, larger);
        },
        (SpecType::Variant(left), SpecType::Variant(right)) => {
            renames_row_extended(left, right, names, larger);
        },
        (
            SpecType::SlotRecord { data: left_data, slots: left_slots },
            SpecType::SlotRecord { data: right_data, slots: right_slots },
        ) => {
            renames_row_extended(*left_data, *right_data, names, larger);
            renames_row_extended(*left_slots, *right_slots, names, larger);
        },
        _ => {},
    }
}

proof fn renames_all_extended(
    left: Seq<SpecType>,
    right: Seq<SpecType>,
    names: Names,
    larger: Names,
)
    requires
        renames_all(left, right, names),
        extends(names, larger),
    ensures
        renames_all(left, right, larger),
    decreases left,
{
    assert forall|i: int| 0 <= i < left.len() implies renames(
        #[trigger] left[i],
        right[i],
        larger,
    ) by {
        renames_extended(left[i], right[i], names, larger);
    }
}

proof fn renames_row_extended(left: SpecRow, right: SpecRow, names: Names, larger: Names)
    requires
        renames_row(left, right, names),
        extends(names, larger),
    ensures
        renames_row(left, right, larger),
    decreases left,
{
    assert forall|i: int| 0 <= i < left.entries.len() implies renames_entry(
        #[trigger] left.entries[i],
        right.entries[i],
        larger,
    ) by {
        renames_entry_extended(left.entries[i], right.entries[i], names, larger);
    }
}

proof fn renames_entry_extended(
    left: SpecRowEntry,
    right: SpecRowEntry,
    names: Names,
    larger: Names,
)
    requires
        renames_entry(left, right, names),
        extends(names, larger),
    ensures
        renames_entry(left, right, larger),
    decreases left,
{
    match (left, right) {
        (
            SpecRowEntry::Field { ty: left, .. },
            SpecRowEntry::Field { ty: right, .. },
        ) => {
            renames_extended(left, right, names, larger);
        },
        (
            SpecRowEntry::Tag { payload: left, .. },
            SpecRowEntry::Tag { payload: right, .. },
        ) => {
            renames_all_extended(left, right, names, larger);
        },
        _ => {},
    }
}

/// What a comparison of two types comes to: whether they are equivalent, and what the two
/// maps hold then.
pub ghost struct Matched {
    pub same: bool,
    pub forward: Names,
    pub reverse: Names,
}

/// A comparison that ends here.
pub open spec fn ends(same: bool, forward: Names, reverse: Names) -> Matched {
    Matched { same, forward, reverse }
}

/// What a comparison of two types comes to. Variables are bound from left to right, and the
/// first difference ends the comparison.
pub open spec fn matched(left: SpecType, right: SpecType, forward: Names, reverse: Names) -> Matched
    decreases left, 0nat,
{
    match (left, right) {
        (SpecType::Variable(x), SpecType::Variable(y)) => if forward.contains_key(x) {
            ends(forward[x] == y, forward, reverse)
        } else if reverse.contains_key(y) {
            ends(false, forward, reverse)
        } else {
            ends(true, forward.insert(x, y), reverse.insert(y, x))
        },
        (
            SpecType::Apply { callee: left_callee, args: left_args },
            SpecType::Apply { callee: right_callee, args: right_args },
        ) => if left_args.len() != right_args.len() {
            ends(false, forward, reverse)
        } else {
            let callee = matched(*left_callee, *right_callee, forward, reverse);
            if callee.same {
                matched_all(left_args, right_args, callee.forward, callee.reverse)
            } else {
                callee
            }
        },
        (
            SpecType::Function {
                params: left_params,
                result: left_result,
                required: left_required,
            },
            SpecType::Function {
                params: right_params,
                result: right_result,
                required: right_required,
            },
        ) => if left_required != right_required {
            ends(false, forward, reverse)
        } else {
            let params = matched_all(left_params, right_params, forward, reverse);
            if params.same {
                matched(*left_result, *right_result, params.forward, params.reverse)
            } else {
                params
            }
        },
        (SpecType::Optional(left), SpecType::Optional(right)) => matched(
            *left,
            *right,
            forward,
            reverse,
        ),
        (SpecType::Nullable(left), SpecType::Nullable(right)) => matched(
            *left,
            *right,
            forward,
            reverse,
        ),
        (SpecType::Tuple(left), SpecType::Tuple(right)) => matched_all(
            left,
            right,
            forward,
            reverse,
        ),
        (SpecType::Record(left), SpecType::Record(right)) => matched_row(
            left,
            right,
            forward,
            reverse,
        ),
        (SpecType::Variant(left), SpecType::Variant(right)) => matched_row(
            left,
            right,
            forward,
            reverse,
        ),
        (
            SpecType::SlotRecord { data: left_data, slots: left_slots },
            SpecType::SlotRecord { data: right_data, slots: right_slots },
        ) => {
            let data = matched_row(*left_data, *right_data, forward, reverse);
            if data.same {
                matched_row(*left_slots, *right_slots, data.forward, data.reverse)
            } else {
                data
            }
        },
        _ => ends(left == right, forward, reverse),
    }
}

/// What a comparison of two lists of types comes to. Lists of other lengths bind nothing.
pub open spec fn matched_all(
    left: Seq<SpecType>,
    right: Seq<SpecType>,
    forward: Names,
    reverse: Names,
) -> Matched
    decreases left, left.len() + 1,
{
    if left.len() != right.len() {
        ends(false, forward, reverse)
    } else {
        matched_first(left, right, left.len(), forward, reverse)
    }
}

/// What a comparison of the first types of two lists comes to.
pub open spec fn matched_first(
    left: Seq<SpecType>,
    right: Seq<SpecType>,
    count: nat,
    forward: Names,
    reverse: Names,
) -> Matched
    decreases left, count,
{
    if count == 0 || count > left.len() {
        ends(true, forward, reverse)
    } else {
        let earlier = matched_first(left, right, (count - 1) as nat, forward, reverse);
        if earlier.same {
            matched(left[count - 1], right[count - 1], earlier.forward, earlier.reverse)
        } else {
            earlier
        }
    }
}

/// What a comparison of two rows comes to. Rows of other lengths or tails bind nothing.
pub open spec fn matched_row(left: SpecRow, right: SpecRow, forward: Names, reverse: Names) -> Matched
    decreases left, 0nat,
{
    if left.tail != right.tail || left.entries.len() != right.entries.len() {
        ends(false, forward, reverse)
    } else {
        matched_entries(left.entries, right.entries, left.entries.len(), forward, reverse)
    }
}

/// What a comparison of the first entries of two rows comes to.
pub open spec fn matched_entries(
    left: Seq<SpecRowEntry>,
    right: Seq<SpecRowEntry>,
    count: nat,
    forward: Names,
    reverse: Names,
) -> Matched
    decreases left, count,
{
    if count == 0 || count > left.len() {
        ends(true, forward, reverse)
    } else {
        let earlier = matched_entries(left, right, (count - 1) as nat, forward, reverse);
        if earlier.same {
            matched_entry(left[count - 1], right[count - 1], earlier.forward, earlier.reverse)
        } else {
            earlier
        }
    }
}

pub open spec fn matched_entry(
    left: SpecRowEntry,
    right: SpecRowEntry,
    forward: Names,
    reverse: Names,
) -> Matched
    decreases left, 0nat,
{
    match (left, right) {
        (
            SpecRowEntry::Field { name: left_name, ty: left },
            SpecRowEntry::Field { name: right_name, ty: right },
        ) => if left_name == right_name {
            matched(left, right, forward, reverse)
        } else {
            ends(false, forward, reverse)
        },
        (
            SpecRowEntry::Tag { name: left_name, payload: left },
            SpecRowEntry::Tag { name: right_name, payload: right },
        ) => if left_name == right_name {
            matched_all(left, right, forward, reverse)
        } else {
            ends(false, forward, reverse)
        },
        (SpecRowEntry::Literal { value: left }, SpecRowEntry::Literal { value: right }) => ends(
            left == right,
            forward,
            reverse,
        ),
        _ => ends(false, forward, reverse),
    }
}

/// What a comparison of two constraints comes to. Other members or numbers of parameters
/// bind nothing.
pub open spec fn matched_constraint(
    left: SpecConstraint,
    right: SpecConstraint,
    forward: Names,
    reverse: Names,
) -> Matched {
    if left.member != right.member || left.params.len() != right.params.len() {
        ends(false, forward, reverse)
    } else {
        let candidate = matched(left.candidate, right.candidate, forward, reverse);
        if !candidate.same {
            candidate
        } else {
            let params = matched_all(
                left.params,
                right.params,
                candidate.forward,
                candidate.reverse,
            );
            if params.same {
                matched(left.result, right.result, params.forward, params.reverse)
            } else {
                params
            }
        }
    }
}

/// Compare two types up to a renaming of variables that extends `forward`.
///
/// The types are equivalent exactly when some one-to-one extension of `forward`
/// renames the first into the second; `forward` is then extended by what every
/// such renaming has to hold, and by nothing else. Where they are not, the maps keep
/// what was bound before the first difference.
pub fn alpha_equivalent_type(
    left: &Type,
    right: &Type,
    forward: &mut StringMap<String>,
    reverse: &mut StringMap<String>,
) -> (equivalent: bool)
    requires
        inverse(names_view(old(forward)@), names_view(old(reverse)@)),
    ensures
        ends(equivalent, names_view(final(forward)@), names_view(final(reverse)@)) == matched(
            left@,
            right@,
            names_view(old(forward)@),
            names_view(old(reverse)@),
        ),
        inverse(names_view(final(forward)@), names_view(final(reverse)@)),
        extends(names_view(old(forward)@), names_view(final(forward)@)),
        equivalent ==> renames(left@, right@, names_view(final(forward)@)),
        forall|names: Names|
            injective(names) && extends(names_view(old(forward)@), names) && #[trigger] renames(
                left@,
                right@,
                names,
            ) ==> equivalent && extends(names_view(final(forward)@), names),
    decreases left,
{
    let ghost before = names_view(forward@);
    match (left, right) {
        (Type::Variable(left_name), Type::Variable(right_name)) => {
            if let Some(bound) = forward.get(left_name.as_str()) {
                assert(before.contains_key(left_name@));
                return *bound == *right_name;
            }
            if reverse.contains_key(right_name.as_str()) {
                proof {
                    let bound = names_view(reverse@)[right_name@];
                    assert(names_view(reverse@).contains_key(right_name@));
                    assert(before.contains_key(bound));
                    assert(!before.contains_key(left_name@));
                }
                return false;
            }
            let ghost before_reverse = names_view(reverse@);
            forward.insert(left_name.clone(), right_name.clone());
            reverse.insert(right_name.clone(), left_name.clone());
            proof {
                let after = names_view(forward@);
                let after_reverse = names_view(reverse@);
                assert(after =~= before.insert(left_name@, right_name@));
                assert(after_reverse =~= before_reverse.insert(right_name@, left_name@));
            }
            true
        },
        (
            Type::Apply { callee: left_callee, args: left_args },
            Type::Apply { callee: right_callee, args: right_args },
        ) => {
            assert forall|names: Names| #[trigger] renames(left@, right@, names) implies renames(
                left_callee@,
                right_callee@,
                names,
            ) && renames_all(types_view(left_args@), types_view(right_args@), names) by {}
            assert(types_view(left_args@).len() == left_args.len());
            assert(types_view(right_args@).len() == right_args.len());
            if left_args.len() != right_args.len() {
                return false;
            }
            if !alpha_equivalent_type(left_callee, right_callee, forward, reverse) {
                return false;
            }
            let ghost middle = names_view(forward@);
            let equivalent = alpha_equivalent_types(left_args, right_args, forward, reverse);
            proof {
                if equivalent {
                    renames_extended(
                        left_callee@,
                        right_callee@,
                        middle,
                        names_view(forward@),
                    );
                }
            }
            equivalent
        },
        (
            Type::Function {
                params: left_params,
                result: left_result,
                required: left_required,
            },
            Type::Function {
                params: right_params,
                result: right_result,
                required: right_required,
            },
        ) => {
            assert forall|names: Names| #[trigger] renames(left@, right@, names) implies *left_required
                == *right_required && renames_all(
                types_view(left_params@),
                types_view(right_params@),
                names,
            ) && renames(left_result@, right_result@, names) by {}
            assert(types_view(left_params@).len() == left_params.len());
            assert(types_view(right_params@).len() == right_params.len());
            assert(types_view(left_params@).len() != types_view(right_params@).len()
                ==> matched_all(
                types_view(left_params@),
                types_view(right_params@),
                before,
                names_view(reverse@),
            ) == ends(false, before, names_view(reverse@)));
            if *left_required != *right_required || left_params.len() != right_params.len() {
                return false;
            }
            if !alpha_equivalent_types(left_params, right_params, forward, reverse) {
                return false;
            }
            let ghost middle = names_view(forward@);
            let equivalent = alpha_equivalent_type(left_result, right_result, forward, reverse);
            proof {
                if equivalent {
                    renames_all_extended(
                        types_view(left_params@),
                        types_view(right_params@),
                        middle,
                        names_view(forward@),
                    );
                }
            }
            equivalent
        },
        (Type::Optional(left_part), Type::Optional(right_part)) => {
            assert forall|names: Names| #[trigger] renames(left@, right@, names) implies renames(
                left_part@,
                right_part@,
                names,
            ) by {}
            alpha_equivalent_type(left_part, right_part, forward, reverse)
        },
        (Type::Nullable(left_part), Type::Nullable(right_part)) => {
            assert forall|names: Names| #[trigger] renames(left@, right@, names) implies renames(
                left_part@,
                right_part@,
                names,
            ) by {}
            alpha_equivalent_type(left_part, right_part, forward, reverse)
        },
        (Type::Tuple(left_part), Type::Tuple(right_part)) => {
            assert forall|names: Names| #[trigger] renames(left@, right@, names) implies renames_all(
                types_view(left_part@),
                types_view(right_part@),
                names,
            ) by {}
            alpha_equivalent_types(left_part, right_part, forward, reverse)
        },
        (Type::Record(left_part), Type::Record(right_part)) => {
            assert forall|names: Names| #[trigger] renames(left@, right@, names) implies renames_row(
                left_part@,
                right_part@,
                names,
            ) by {}
            alpha_equivalent_row(left_part, right_part, forward, reverse)
        },
        (Type::Variant(left_part), Type::Variant(right_part)) => {
            assert forall|names: Names| #[trigger] renames(left@, right@, names) implies renames_row(
                left_part@,
                right_part@,
                names,
            ) by {}
            alpha_equivalent_row(left_part, right_part, forward, reverse)
        },
        (
            Type::SlotRecord { data: left_data, slots: left_slots },
            Type::SlotRecord { data: right_data, slots: right_slots },
        ) => {
            assert forall|names: Names| #[trigger] renames(
                left@,
                right@,
                names,
            ) implies renames_row(left_data@, right_data@, names) && renames_row(
                left_slots@,
                right_slots@,
                names,
            ) by {}
            if !alpha_equivalent_row(left_data, right_data, forward, reverse) {
                return false;
            }
            let ghost middle = names_view(forward@);
            let equivalent = alpha_equivalent_row(left_slots, right_slots, forward, reverse);
            proof {
                if equivalent {
                    renames_row_extended(left_data@, right_data@, middle, names_view(forward@));
                }
            }
            equivalent
        },
        _ => *left == *right,
    }
}

proof fn first_mismatch_ends(
    left: Seq<SpecType>,
    right: Seq<SpecType>,
    few: nat,
    many: nat,
    forward: Names,
    reverse: Names,
)
    requires
        few <= many <= left.len(),
        !matched_first(left, right, few, forward, reverse).same,
    ensures
        matched_first(left, right, many, forward, reverse) == matched_first(
            left,
            right,
            few,
            forward,
            reverse,
        ),
    decreases many,
{
    if few < many {
        first_mismatch_ends(left, right, few, (many - 1) as nat, forward, reverse);
    }
}

proof fn first_entry_mismatch_ends(
    left: Seq<SpecRowEntry>,
    right: Seq<SpecRowEntry>,
    few: nat,
    many: nat,
    forward: Names,
    reverse: Names,
)
    requires
        few <= many <= left.len(),
        !matched_entries(left, right, few, forward, reverse).same,
    ensures
        matched_entries(left, right, many, forward, reverse) == matched_entries(
            left,
            right,
            few,
            forward,
            reverse,
        ),
    decreases many,
{
    if few < many {
        first_entry_mismatch_ends(left, right, few, (many - 1) as nat, forward, reverse);
    }
}

/// Compare two lists of types item by item, as `alpha_equivalent_type` does.
pub fn alpha_equivalent_types(
    left: &Vec<Type>,
    right: &Vec<Type>,
    forward: &mut StringMap<String>,
    reverse: &mut StringMap<String>,
) -> (equivalent: bool)
    requires
        inverse(names_view(old(forward)@), names_view(old(reverse)@)),
    ensures
        ends(equivalent, names_view(final(forward)@), names_view(final(reverse)@)) == matched_all(
            types_view(left@),
            types_view(right@),
            names_view(old(forward)@),
            names_view(old(reverse)@),
        ),
        inverse(names_view(final(forward)@), names_view(final(reverse)@)),
        extends(names_view(old(forward)@), names_view(final(forward)@)),
        equivalent ==> renames_all(
            types_view(left@),
            types_view(right@),
            names_view(final(forward)@),
        ),
        forall|names: Names|
            injective(names) && extends(names_view(old(forward)@), names) && #[trigger] renames_all(
                types_view(left@),
                types_view(right@),
                names,
            ) ==> equivalent && extends(names_view(final(forward)@), names),
    decreases left,
{
    if left.len() != right.len() {
        return false;
    }
    let ghost before = names_view(forward@);
    let ghost before_reverse = names_view(reverse@);
    let ghost lefts = types_view(left@);
    let ghost rights = types_view(right@);
    let mut index: usize = 0;
    while index < left.len()
        invariant
            index <= left.len(),
            left.len() == right.len(),
            lefts == types_view(left@),
            rights == types_view(right@),
            before == names_view(old(forward)@),
            before_reverse == names_view(old(reverse)@),
            ends(true, names_view(forward@), names_view(reverse@)) == matched_first(
                lefts,
                rights,
                index as nat,
                before,
                before_reverse,
            ),
            inverse(names_view(forward@), names_view(reverse@)),
            extends(before, names_view(forward@)),
            forall|i: int|
                0 <= i < index ==> renames(#[trigger] lefts[i], rights[i], names_view(forward@)),
            forall|names: Names|
                injective(names) && extends(before, names) && #[trigger] renames_all(
                    lefts,
                    rights,
                    names,
                ) ==> extends(names_view(forward@), names),
        decreases left.len() - index,
    {
        let ghost middle = names_view(forward@);
        let equivalent = alpha_equivalent_type(&left[index], &right[index], forward, reverse);
        proof {
            assert(lefts[index as int] == left@[index as int]@);
            assert(rights[index as int] == right@[index as int]@);
            assert forall|names: Names|
                injective(names) && extends(before, names) && #[trigger] renames_all(
                    lefts,
                    rights,
                    names,
                ) implies equivalent && extends(names_view(forward@), names) by {
                assert(renames(lefts[index as int], rights[index as int], names));
            }
        }
        if !equivalent {
            proof {
                first_mismatch_ends(lefts, rights, (index + 1) as nat, lefts.len(), before, before_reverse);
            }
            return false;
        }
        proof {
            assert forall|i: int| 0 <= i < index + 1 implies renames(
                #[trigger] lefts[i],
                rights[i],
                names_view(forward@),
            ) by {
                if i < index {
                    renames_extended(lefts[i], rights[i], middle, names_view(forward@));
                }
            }
        }
        index += 1;
    }
    true
}

/// Compare two rows entry by entry, as `alpha_equivalent_type` does.
pub fn alpha_equivalent_row(
    left: &Row,
    right: &Row,
    forward: &mut StringMap<String>,
    reverse: &mut StringMap<String>,
) -> (equivalent: bool)
    requires
        inverse(names_view(old(forward)@), names_view(old(reverse)@)),
    ensures
        ends(equivalent, names_view(final(forward)@), names_view(final(reverse)@)) == matched_row(
            left@,
            right@,
            names_view(old(forward)@),
            names_view(old(reverse)@),
        ),
        inverse(names_view(final(forward)@), names_view(final(reverse)@)),
        extends(names_view(old(forward)@), names_view(final(forward)@)),
        equivalent ==> renames_row(left@, right@, names_view(final(forward)@)),
        forall|names: Names|
            injective(names) && extends(names_view(old(forward)@), names) && #[trigger] renames_row(
                left@,
                right@,
                names,
            ) ==> equivalent && extends(names_view(final(forward)@), names),
    decreases left,
{
    if left.tail != right.tail || left.entries.len() != right.entries.len() {
        return false;
    }
    let ghost before = names_view(forward@);
    let ghost before_reverse = names_view(reverse@);
    let ghost lefts = left@.entries;
    let ghost rights = right@.entries;
    let mut index: usize = 0;
    while index < left.entries.len()
        invariant
            index <= left.entries.len(),
            left.entries.len() == right.entries.len(),
            lefts == left@.entries,
            rights == right@.entries,
            before == names_view(old(forward)@),
            before_reverse == names_view(old(reverse)@),
            left.tail == right.tail,
            ends(true, names_view(forward@), names_view(reverse@)) == matched_entries(
                lefts,
                rights,
                index as nat,
                before,
                before_reverse,
            ),
            inverse(names_view(forward@), names_view(reverse@)),
            extends(before, names_view(forward@)),
            forall|i: int|
                0 <= i < index ==> renames_entry(
                    #[trigger] lefts[i],
                    rights[i],
                    names_view(forward@),
                ),
            forall|names: Names|
                injective(names) && extends(before, names) && #[trigger] renames_row(
                    left@,
                    right@,
                    names,
                ) ==> extends(names_view(forward@), names),
        decreases left.entries.len() - index,
    {
        let ghost middle = names_view(forward@);
        let ghost middle_reverse = names_view(reverse@);
        let equivalent = match (&left.entries[index], &right.entries[index]) {
            (
                RowEntry::Field { name: left_name, ty: left },
                RowEntry::Field { name: right_name, ty: right },
            ) => *left_name == *right_name && alpha_equivalent_type(left, right, forward, reverse),
            (
                RowEntry::Tag { name: left_name, payload: left },
                RowEntry::Tag { name: right_name, payload: right },
            ) => *left_name == *right_name && alpha_equivalent_types(
                left,
                right,
                forward,
                reverse,
            ),
            (RowEntry::Literal { value: left }, RowEntry::Literal { value: right }) => *left
                == *right,
            _ => false,
        };
        proof {
            assert(lefts[index as int] == left.entries@[index as int]@);
            assert(rights[index as int] == right.entries@[index as int]@);
            assert forall|names: Names|
                injective(names) && extends(before, names) && #[trigger] renames_row(
                    left@,
                    right@,
                    names,
                ) implies equivalent && extends(names_view(forward@), names) by {
                assert(renames_entry(lefts[index as int], rights[index as int], names));
                match (left.entries@[index as int], right.entries@[index as int]) {
                    (RowEntry::Field { ty: left_ty, .. }, RowEntry::Field { ty: right_ty, .. }) => {
                        assert(renames(left_ty@, right_ty@, names));
                    },
                    (
                        RowEntry::Tag { payload: left_payload, .. },
                        RowEntry::Tag { payload: right_payload, .. },
                    ) => {
                        assert(renames_all(
                            types_view(left_payload@),
                            types_view(right_payload@),
                            names,
                        ));
                    },
                    _ => {},
                }
            }
        }
        assert(ends(equivalent, names_view(forward@), names_view(reverse@)) == matched_entry(
            lefts[index as int],
            rights[index as int],
            middle,
            middle_reverse,
        ));
        if !equivalent {
            proof {
                first_entry_mismatch_ends(lefts, rights, (index + 1) as nat, lefts.len(), before, before_reverse);
            }
            return false;
        }
        proof {
            assert forall|i: int| 0 <= i < index + 1 implies renames_entry(
                #[trigger] lefts[i],
                rights[i],
                names_view(forward@),
            ) by {
                if i < index {
                    renames_entry_extended(lefts[i], rights[i], middle, names_view(forward@));
                }
            }
        }
        index += 1;
    }
    true
}

/// Compare two constraints, as `alpha_equivalent_type` does.
pub fn alpha_equivalent_constraint(
    left: &MethodConstraint,
    right: &MethodConstraint,
    forward: &mut StringMap<String>,
    reverse: &mut StringMap<String>,
) -> (equivalent: bool)
    requires
        inverse(names_view(old(forward)@), names_view(old(reverse)@)),
    ensures
        ends(equivalent, names_view(final(forward)@), names_view(final(reverse)@)) == matched_constraint(
            left@,
            right@,
            names_view(old(forward)@),
            names_view(old(reverse)@),
        ),
        inverse(names_view(final(forward)@), names_view(final(reverse)@)),
        extends(names_view(old(forward)@), names_view(final(forward)@)),
        equivalent ==> renames_constraint(left@, right@, names_view(final(forward)@)),
        forall|names: Names|
            injective(names) && extends(names_view(old(forward)@), names)
                && #[trigger] renames_constraint(left@, right@, names) ==> equivalent && extends(
                names_view(final(forward)@),
                names,
            ),
{
    if left.member != right.member || left.params.len() != right.params.len() {
        return false;
    }
    if !alpha_equivalent_type(&left.candidate, &right.candidate, forward, reverse) {
        return false;
    }
    let ghost first = names_view(forward@);
    if !alpha_equivalent_types(&left.params, &right.params, forward, reverse) {
        return false;
    }
    let ghost second = names_view(forward@);
    let equivalent = alpha_equivalent_type(&left.result, &right.result, forward, reverse);
    proof {
        if equivalent {
            renames_extended(left.candidate@, right.candidate@, first, names_view(forward@));
            renames_all_extended(
                types_view(left.params@),
                types_view(right.params@),
                second,
                names_view(forward@),
            );
        }
    }
    equivalent
}

// ---------------------------------------------------------------------------
// Method schemes
// ---------------------------------------------------------------------------
/// Whether a one-to-one extension of `names` renames the first constraint into
/// the second.
pub open spec fn aligns(
    left: SpecConstraint,
    right: SpecConstraint,
    names: Names,
    larger: Names,
) -> bool {
    injective(larger) && extends(names, larger) && renames_constraint(left, right, larger)
}

/// Whether a renaming of one constraint into the other is the least one.
pub open spec fn is_alignment(
    left: SpecConstraint,
    right: SpecConstraint,
    names: Names,
    aligned: Names,
) -> bool {
    &&& aligns(left, right, names, aligned)
    &&& forall|larger: Names| #[trigger]
        aligns(left, right, names, larger) ==> extends(aligned, larger)
}

/// Whether some extension of `names` renames one constraint into the other.
pub open spec fn alignable(left: SpecConstraint, right: SpecConstraint, names: Names) -> bool {
    exists|larger: Names| aligns(left, right, names, larger)
}

/// The least extension of `names` that renames one constraint into the other.
pub open spec fn alignment(left: SpecConstraint, right: SpecConstraint, names: Names) -> Names {
    choose|aligned: Names| is_alignment(left, right, names, aligned)
}

proof fn alignment_is(left: SpecConstraint, right: SpecConstraint, names: Names, aligned: Names)
    requires
        is_alignment(left, right, names, aligned),
    ensures
        alignment(left, right, names) == aligned,
{
    let chosen = alignment(left, right, names);
    assert(is_alignment(left, right, names, chosen));
    mutual_extensions_equal(chosen, aligned);
}

proof fn mutual_extensions_equal(left: Names, right: Names)
    requires
        extends(left, right),
        extends(right, left),
    ensures
        left == right,
{
    assert forall|x: Seq<char>| left.contains_key(x) == right.contains_key(x) by {}
    assert(left =~= right);
}

/// Whether a one-to-one map renames the parameters and the result of the first
/// method into those of the second.
pub open spec fn renames_signature(left: SpecMethod, right: SpecMethod, names: Names) -> bool {
    &&& injective(names)
    &&& renames_all(left.params, right.params, names)
    &&& renames(left.result, right.result, names)
}

pub open spec fn is_signature_alignment(
    left: SpecMethod,
    right: SpecMethod,
    aligned: Names,
) -> bool {
    &&& renames_signature(left, right, aligned)
    &&& forall|names: Names| #[trigger]
        renames_signature(left, right, names) ==> extends(aligned, names)
}

/// The least renaming of the parameters and the result.
pub open spec fn signature_alignment(left: SpecMethod, right: SpecMethod) -> Names {
    choose|aligned: Names| is_signature_alignment(left, right, aligned)
}

/// The first constraint at or after a position that aligns with the given one.
pub open spec fn first_alignable(
    constraint: SpecConstraint,
    unmatched: Seq<SpecConstraint>,
    names: Names,
    from: int,
) -> Option<int>
    decreases unmatched.len() - from,
{
    if from < 0 || from >= unmatched.len() {
        None
    } else if alignable(constraint, unmatched[from], names) {
        Some(from)
    } else {
        first_alignable(constraint, unmatched, names, from + 1)
    }
}

/// Whether each constraint in turn can be paired with the first constraint not
/// paired yet that aligns with it.
pub open spec fn constraints_match(
    inherited: Seq<SpecConstraint>,
    unmatched: Seq<SpecConstraint>,
    names: Names,
) -> bool
    decreases inherited.len(),
{
    if inherited.len() == 0 {
        true
    } else {
        match first_alignable(inherited[0], unmatched, names, 0) {
            Some(index) => constraints_match(
                inherited.skip(1),
                unmatched.remove(index),
                alignment(inherited[0], unmatched[index], names),
            ),
            None => false,
        }
    }
}

/// Whether a declared method has the scheme of an inherited one up to the names
/// of its variables.
pub open spec fn schemes_equivalent(inherited: SpecMethod, declared: SpecMethod) -> bool {
    &&& inherited.variables.len() == declared.variables.len()
    &&& inherited.constraints.len() == declared.constraints.len()
    &&& exists|names: Names| renames_signature(inherited, declared, names)
    &&& constraints_match(
        inherited.constraints,
        declared.constraints,
        signature_alignment(inherited, declared),
    )
}

proof fn first_alignable_bounds(
    constraint: SpecConstraint,
    unmatched: Seq<SpecConstraint>,
    names: Names,
    from: int,
)
    requires
        0 <= from,
    ensures
        match first_alignable(constraint, unmatched, names, from) {
            Some(index) => from <= index < unmatched.len() && alignable(
                constraint,
                unmatched[index],
                names,
            ),
            None => forall|i: int|
                from <= i < unmatched.len() ==> !alignable(
                    constraint,
                    #[trigger] unmatched[i],
                    names,
                ),
        },
    decreases unmatched.len() - from,
{
    if from < unmatched.len() && !alignable(constraint, unmatched[from], names) {
        first_alignable_bounds(constraint, unmatched, names, from + 1);
    }
}

/// The constraints at the listed positions.
pub open spec fn selected(constraints: Seq<SpecConstraint>, positions: Seq<usize>) -> Seq<
    SpecConstraint,
> {
    Seq::new(positions.len(), |i: int| constraints[positions[i] as int])
}

/// Whether a declared method has the scheme of an inherited one up to the names
/// of its variables.
pub fn named_method_schemes_alpha_equivalent(
    inherited: &NamedMethodType,
    declared: &NamedMethodType,
) -> (equivalent: bool)
    ensures
        equivalent == schemes_equivalent(inherited@, declared@),
{
    if inherited.params.len() != declared.params.len() || inherited.variables.len()
        != declared.variables.len() || inherited.constraints.len() != declared.constraints.len() {
        assert forall|names: Names| renames_signature(
            inherited@,
            declared@,
            names,
        ) implies inherited.params.len() == declared.params.len() by {}
        return false;
    }
    let mut forward: StringMap<String> = StringMap::new();
    let mut reverse: StringMap<String> = StringMap::new();
    let ghost none = names_view(forward@);
    if !alpha_equivalent_types(&inherited.params, &declared.params, &mut forward, &mut reverse) {
        assert forall|names: Names| !renames_signature(inherited@, declared@, names) by {
            if renames_signature(inherited@, declared@, names) {
                assert(extends(none, names));
            }
        }
        return false;
    }
    let ghost first = names_view(forward@);
    if !alpha_equivalent_type(&inherited.result, &declared.result, &mut forward, &mut reverse) {
        assert forall|names: Names| !renames_signature(inherited@, declared@, names) by {
            if renames_signature(inherited@, declared@, names) {
                assert(extends(none, names));
                assert(extends(first, names));
            }
        }
        return false;
    }
    proof {
        let names = names_view(forward@);
        renames_all_extended(
            inherited@.params,
            declared@.params,
            first,
            names,
        );
        inverse_is_injective(names, names_view(reverse@));
        assert forall|other: Names| #[trigger] renames_signature(
            inherited@,
            declared@,
            other,
        ) implies extends(names, other) by {
            assert(extends(none, other));
            assert(extends(first, other));
        }
        assert(is_signature_alignment(inherited@, declared@, names));
        let chosen = signature_alignment(inherited@, declared@);
        assert(is_signature_alignment(inherited@, declared@, chosen));
        mutual_extensions_equal(chosen, names);
    }

    let mut unmatched: Vec<usize> = Vec::new();
    let mut position: usize = 0;
    while position < declared.constraints.len()
        invariant
            position <= declared.constraints.len(),
            unmatched@.len() == position,
            forall|i: int| 0 <= i < position ==> unmatched@[i] == i,
        decreases declared.constraints.len() - position,
    {
        unmatched.push(position);
        position += 1;
    }
    assert(selected(declared@.constraints, unmatched@) =~= declared@.constraints);
    assert(inherited@.constraints.skip(0) =~= inherited@.constraints);

    let mut index: usize = 0;
    while index < inherited.constraints.len()
        invariant
            index <= inherited.constraints.len(),
            forall|i: int|
                0 <= i < unmatched@.len() ==> (#[trigger] unmatched@[i])
                    < declared.constraints.len(),
            inverse(names_view(forward@), names_view(reverse@)),
            inherited@.variables.len() == declared@.variables.len(),
            inherited@.constraints.len() == declared@.constraints.len(),
            exists|names: Names| renames_signature(inherited@, declared@, names),
            schemes_equivalent(inherited@, declared@) == constraints_match(
                inherited@.constraints.skip(index as int),
                selected(declared@.constraints, unmatched@),
                names_view(forward@),
            ),
        decreases inherited.constraints.len() - index,
    {
        let constraint = &inherited.constraints[index];
        let ghost names = names_view(forward@);
        let ghost rest = inherited@.constraints.skip(index as int);
        let ghost candidates = selected(declared@.constraints, unmatched@);
        proof {
            assert(rest[0] == constraint@);
            assert(rest.skip(1) =~= inherited@.constraints.skip(index + 1));
            inverse_is_injective(names, names_view(reverse@));
        }
        let mut found = false;
        let mut candidate: usize = 0;
        while !found && candidate < unmatched.len()
            invariant
                candidate <= unmatched.len(),
                found ==> candidate < unmatched.len(),
                forall|i: int|
                    0 <= i < unmatched@.len() ==> (#[trigger] unmatched@[i])
                        < declared.constraints.len(),
                candidates == selected(declared@.constraints, unmatched@),
                inverse(names_view(forward@), names_view(reverse@)),
                first_alignable(constraint@, candidates, names, 0) == (if found {
                    Some(candidate as int)
                } else {
                    first_alignable(constraint@, candidates, names, candidate as int)
                }),
                names_view(forward@) == (if found {
                    alignment(constraint@, candidates[candidate as int], names)
                } else {
                    names
                }),
            decreases
                unmatched.len() - candidate,
                if found {
                    0int
                } else {
                    1int
                },
        {
            let declared_constraint = &declared.constraints[unmatched[candidate]];
            let mut candidate_forward = forward.clone();
            let mut candidate_reverse = reverse.clone();
            assert(candidates[candidate as int] == declared_constraint@);
            let equivalent = alpha_equivalent_constraint(
                constraint,
                declared_constraint,
                &mut candidate_forward,
                &mut candidate_reverse,
            );
            if equivalent {
                proof {
                    let aligned = names_view(candidate_forward@);
                    inverse_is_injective(aligned, names_view(candidate_reverse@));
                    assert(aligns(constraint@, declared_constraint@, names, aligned));
                    assert forall|larger: Names| #[trigger] aligns(
                        constraint@,
                        declared_constraint@,
                        names,
                        larger,
                    ) implies extends(aligned, larger) by {
                        assert(renames_constraint(constraint@, declared_constraint@, larger));
                    }
                    alignment_is(constraint@, declared_constraint@, names, aligned);
                }
                forward = candidate_forward;
                reverse = candidate_reverse;
                found = true;
            } else {
                proof {
                    assert forall|larger: Names| !aligns(
                        constraint@,
                        declared_constraint@,
                        names,
                        larger,
                    ) by {
                        if aligns(constraint@, declared_constraint@, names, larger) {
                            assert(renames_constraint(constraint@, declared_constraint@, larger));
                        }
                    }
                }
                candidate += 1;
            }
        }
        if !found {
            return false;
        }
        let ghost before = unmatched@;
        unmatched.remove(candidate);
        proof {
            assert(selected(declared@.constraints, unmatched@) =~= candidates.remove(
                candidate as int,
            ));
        }
        index += 1;
    }
    true
}

proof fn inverse_is_injective(forward: Names, reverse: Names)
    requires
        inverse(forward, reverse),
    ensures
        injective(forward),
{
}

// ---------------------------------------------------------------------------
// Laws
// ---------------------------------------------------------------------------
/// Whether two types are the same up to the names of their variables.
pub open spec fn alpha_equivalent(left: SpecType, right: SpecType) -> bool {
    exists|names: Names| injective(names) && #[trigger] renames(left, right, names)
}

/// Whether a map sends names to themselves.
pub open spec fn is_identity(names: Names) -> bool {
    forall|x: Seq<char>| #[trigger] names.contains_key(x) ==> names[x] == x
}

/// The map that sends every name to itself.
pub open spec fn identity_names() -> Names {
    Map::new(|x: Seq<char>| true, |x: Seq<char>| x)
}

proof fn identity_renames(ty: SpecType)
    ensures
        renames(ty, ty, identity_names()),
    decreases ty,
{
    let names = identity_names();
    match ty {
        SpecType::Apply { callee, args } => {
            identity_renames(*callee);
            identity_renames_all(args);
        },
        SpecType::Function { params, result, .. } => {
            identity_renames_all(params);
            identity_renames(*result);
        },
        SpecType::Optional(inner) => {
            identity_renames(*inner);
        },
        SpecType::Nullable(inner) => {
            identity_renames(*inner);
        },
        SpecType::Tuple(items) => {
            identity_renames_all(items);
        },
        SpecType::Record(row) => {
            identity_renames_row(row);
        },
        SpecType::Variant(row) => {
            identity_renames_row(row);
        },
        SpecType::SlotRecord { data, slots } => {
            identity_renames_row(*data);
            identity_renames_row(*slots);
        },
        _ => {},
    }
}

proof fn identity_renames_all(types: Seq<SpecType>)
    ensures
        renames_all(types, types, identity_names()),
    decreases types,
{
    assert forall|i: int| 0 <= i < types.len() implies renames(
        #[trigger] types[i],
        types[i],
        identity_names(),
    ) by {
        identity_renames(types[i]);
    }
}

proof fn identity_renames_entry(entry: SpecRowEntry)
    ensures
        renames_entry(entry, entry, identity_names()),
    decreases entry,
{
    match entry {
        SpecRowEntry::Field { ty, .. } => {
            identity_renames(ty);
        },
        SpecRowEntry::Tag { payload, .. } => {
            identity_renames_all(payload);
        },
        SpecRowEntry::Literal { .. } => {},
    }
}

proof fn identity_renames_row(row: SpecRow)
    ensures
        renames_row(row, row, identity_names()),
    decreases row,
{
    assert forall|i: int| 0 <= i < row.entries.len() implies renames_entry(
        #[trigger] row.entries[i],
        row.entries[i],
        identity_names(),
    ) by {
        identity_renames_entry(row.entries[i]);
    }
}

/// A type is the same as itself up to the names of its variables.
pub proof fn alpha_equivalence_is_reflexive(ty: SpecType)
    ensures
        alpha_equivalent(ty, ty),
{
    identity_renames(ty);
    assert(injective(identity_names()));
}

/// The map that undoes a one-to-one map.
pub open spec fn inverse_of(names: Names) -> Names {
    Map::new(
        |y: Seq<char>| exists|x: Seq<char>| #[trigger] names.contains_key(x) && names[x] == y,
        |y: Seq<char>| choose|x: Seq<char>| #[trigger] names.contains_key(x) && names[x] == y,
    )
}

proof fn inverse_renames(left: SpecType, right: SpecType, names: Names)
    requires
        injective(names),
        renames(left, right, names),
    ensures
        renames(right, left, inverse_of(names)),
    decreases left,
{
    match (left, right) {
        (SpecType::Variable(x), SpecType::Variable(y)) => {
            assert(names.contains_key(x) && names[x] == y);
            let z = choose|z: Seq<char>| #[trigger] names.contains_key(z) && names[z] == y;
            assert(z == x);
            assert(inverse_of(names).contains_key(y));
        },
        (
            SpecType::Apply { callee: left_callee, args: left_args },
            SpecType::Apply { callee: right_callee, args: right_args },
        ) => {
            inverse_renames(*left_callee, *right_callee, names);
            inverse_renames_all(left_args, right_args, names);
        },
        (
            SpecType::Function { params: left_params, result: left_result, .. },
            SpecType::Function { params: right_params, result: right_result, .. },
        ) => {
            inverse_renames_all(left_params, right_params, names);
            inverse_renames(*left_result, *right_result, names);
        },
        (SpecType::Optional(left), SpecType::Optional(right)) => {
            inverse_renames(*left, *right, names);
        },
        (SpecType::Nullable(left), SpecType::Nullable(right)) => {
            inverse_renames(*left, *right, names);
        },
        (SpecType::Tuple(left), SpecType::Tuple(right)) => {
            inverse_renames_all(left, right, names);
        },
        (SpecType::Record(left), SpecType::Record(right)) => {
            inverse_renames_row(left, right, names);
        },
        (SpecType::Variant(left), SpecType::Variant(right)) => {
            inverse_renames_row(left, right, names);
        },
        (
            SpecType::SlotRecord { data: left_data, slots: left_slots },
            SpecType::SlotRecord { data: right_data, slots: right_slots },
        ) => {
            inverse_renames_row(*left_data, *right_data, names);
            inverse_renames_row(*left_slots, *right_slots, names);
        },
        _ => {},
    }
}

proof fn inverse_renames_all(left: Seq<SpecType>, right: Seq<SpecType>, names: Names)
    requires
        injective(names),
        renames_all(left, right, names),
    ensures
        renames_all(right, left, inverse_of(names)),
    decreases left,
{
    assert forall|i: int| 0 <= i < right.len() implies renames(
        #[trigger] right[i],
        left[i],
        inverse_of(names),
    ) by {
        assert(renames(left[i], right[i], names));
        inverse_renames(left[i], right[i], names);
    }
}

proof fn inverse_renames_entry(left: SpecRowEntry, right: SpecRowEntry, names: Names)
    requires
        injective(names),
        renames_entry(left, right, names),
    ensures
        renames_entry(right, left, inverse_of(names)),
    decreases left,
{
    match (left, right) {
        (SpecRowEntry::Field { ty: left, .. }, SpecRowEntry::Field { ty: right, .. }) => {
            inverse_renames(left, right, names);
        },
        (
            SpecRowEntry::Tag { payload: left, .. },
            SpecRowEntry::Tag { payload: right, .. },
        ) => {
            inverse_renames_all(left, right, names);
        },
        _ => {},
    }
}

proof fn inverse_renames_row(left: SpecRow, right: SpecRow, names: Names)
    requires
        injective(names),
        renames_row(left, right, names),
    ensures
        renames_row(right, left, inverse_of(names)),
    decreases left,
{
    assert forall|i: int| 0 <= i < right.entries.len() implies renames_entry(
        #[trigger] right.entries[i],
        left.entries[i],
        inverse_of(names),
    ) by {
        assert(renames_entry(left.entries[i], right.entries[i], names));
        inverse_renames_entry(left.entries[i], right.entries[i], names);
    }
}

/// Equality up to variable names does not depend on the order of the types.
pub proof fn alpha_equivalence_is_symmetric(left: SpecType, right: SpecType)
    requires
        alpha_equivalent(left, right),
    ensures
        alpha_equivalent(right, left),
{
    let names = choose|names: Names| injective(names) && #[trigger] renames(left, right, names);
    inverse_renames(left, right, names);
    let inverted = inverse_of(names);
    assert forall|x: Seq<char>, y: Seq<char>|
        inverted.contains_key(x) && inverted.contains_key(y) && inverted[x]
            == inverted[y] implies x == y by {
        let a = inverted[x];
        assert(names.contains_key(a) && names[a] == x);
        let b = inverted[y];
        assert(names.contains_key(b) && names[b] == y);
    }
    assert(injective(inverted));
}

proof fn renaming_is_forced(
    left: SpecType,
    right: SpecType,
    names: Names,
    other: Names,
    x: Seq<char>,
)
    requires
        renames(left, right, names),
        renames(left, right, other),
        some_node(left, is_node(SpecType::Variable(x))),
    ensures
        names.contains_key(x),
        other.contains_key(x),
        names[x] == other[x],
    decreases left,
{
    let test = is_node(SpecType::Variable(x));
    match (left, right) {
        (
            SpecType::Apply { callee: left_callee, args: left_args },
            SpecType::Apply { callee: right_callee, args: right_args },
        ) => {
            if some_node(*left_callee, test) {
                renaming_is_forced(*left_callee, *right_callee, names, other, x);
            } else {
                renaming_is_forced_all(left_args, right_args, names, other, x);
            }
        },
        (
            SpecType::Function { params: left_params, result: left_result, .. },
            SpecType::Function { params: right_params, result: right_result, .. },
        ) => {
            if some_node_in(left_params, test) {
                renaming_is_forced_all(left_params, right_params, names, other, x);
            } else {
                renaming_is_forced(*left_result, *right_result, names, other, x);
            }
        },
        (SpecType::Optional(left), SpecType::Optional(right)) => {
            renaming_is_forced(*left, *right, names, other, x);
        },
        (SpecType::Nullable(left), SpecType::Nullable(right)) => {
            renaming_is_forced(*left, *right, names, other, x);
        },
        (SpecType::Tuple(left), SpecType::Tuple(right)) => {
            renaming_is_forced_all(left, right, names, other, x);
        },
        (SpecType::Record(left), SpecType::Record(right)) => {
            renaming_is_forced_row(left, right, names, other, x);
        },
        (SpecType::Variant(left), SpecType::Variant(right)) => {
            renaming_is_forced_row(left, right, names, other, x);
        },
        (
            SpecType::SlotRecord { data: left_data, slots: left_slots },
            SpecType::SlotRecord { data: right_data, slots: right_slots },
        ) => {
            if some_node_in_row(*left_data, test) {
                renaming_is_forced_row(*left_data, *right_data, names, other, x);
            } else {
                renaming_is_forced_row(*left_slots, *right_slots, names, other, x);
            }
        },
        _ => {},
    }
}

proof fn renaming_is_forced_all(
    left: Seq<SpecType>,
    right: Seq<SpecType>,
    names: Names,
    other: Names,
    x: Seq<char>,
)
    requires
        renames_all(left, right, names),
        renames_all(left, right, other),
        some_node_in(left, is_node(SpecType::Variable(x))),
    ensures
        names.contains_key(x),
        other.contains_key(x),
        names[x] == other[x],
    decreases left,
{
    let i = choose|i: int|
        0 <= i < left.len() && some_node(#[trigger] left[i], is_node(SpecType::Variable(x)));
    renaming_is_forced(left[i], right[i], names, other, x);
}

proof fn renaming_is_forced_row(
    left: SpecRow,
    right: SpecRow,
    names: Names,
    other: Names,
    x: Seq<char>,
)
    requires
        renames_row(left, right, names),
        renames_row(left, right, other),
        some_node_in_row(left, is_node(SpecType::Variable(x))),
    ensures
        names.contains_key(x),
        other.contains_key(x),
        names[x] == other[x],
    decreases left,
{
    let i = choose|i: int|
        0 <= i < left.entries.len() && some_node_in_entry(
            #[trigger] left.entries[i],
            is_node(SpecType::Variable(x)),
        );
    renaming_is_forced_entry(left.entries[i], right.entries[i], names, other, x);
}

proof fn renaming_is_forced_entry(
    left: SpecRowEntry,
    right: SpecRowEntry,
    names: Names,
    other: Names,
    x: Seq<char>,
)
    requires
        renames_entry(left, right, names),
        renames_entry(left, right, other),
        some_node_in_entry(left, is_node(SpecType::Variable(x))),
    ensures
        names.contains_key(x),
        other.contains_key(x),
        names[x] == other[x],
    decreases left,
{
    match (left, right) {
        (SpecRowEntry::Field { ty: left, .. }, SpecRowEntry::Field { ty: right, .. }) => {
            renaming_is_forced(left, right, names, other, x);
        },
        (
            SpecRowEntry::Tag { payload: left, .. },
            SpecRowEntry::Tag { payload: right, .. },
        ) => {
            renaming_is_forced_all(left, right, names, other, x);
        },
        _ => {},
    }
}

/// Whether a map is defined on every variable of a type.
pub open spec fn covers(ty: SpecType, kept: Set<Seq<char>>) -> bool {
    forall|x: Seq<char>| some_node(ty, #[trigger] is_node(SpecType::Variable(x))) ==> kept.contains(x)
}

pub open spec fn covers_all(types: Seq<SpecType>, kept: Set<Seq<char>>) -> bool {
    forall|x: Seq<char>|
        some_node_in(types, #[trigger] is_node(SpecType::Variable(x))) ==> kept.contains(x)
}

pub open spec fn covers_row(row: SpecRow, kept: Set<Seq<char>>) -> bool {
    forall|x: Seq<char>|
        some_node_in_row(row, #[trigger] is_node(SpecType::Variable(x))) ==> kept.contains(x)
}

pub open spec fn covers_entry(entry: SpecRowEntry, kept: Set<Seq<char>>) -> bool {
    forall|x: Seq<char>|
        some_node_in_entry(entry, #[trigger] is_node(SpecType::Variable(x))) ==> kept.contains(x)
}

proof fn restricted_renames(
    left: SpecType,
    right: SpecType,
    names: Names,
    kept: Set<Seq<char>>,
)
    requires
        renames(left, right, names),
        covers(left, kept),
    ensures
        renames(left, right, names.restrict(kept)),
    decreases left,
{
    match (left, right) {
        (SpecType::Variable(x), SpecType::Variable(y)) => {
            assert(some_node(left, is_node(SpecType::Variable(x))));
        },
        (
            SpecType::Apply { callee: left_callee, args: left_args },
            SpecType::Apply { callee: right_callee, args: right_args },
        ) => {
            assert(covers(*left_callee, kept));
            assert(covers_all(left_args, kept));
            restricted_renames(*left_callee, *right_callee, names, kept);
            restricted_renames_all(left_args, right_args, names, kept);
        },
        (
            SpecType::Function { params: left_params, result: left_result, .. },
            SpecType::Function { params: right_params, result: right_result, .. },
        ) => {
            assert(covers(*left_result, kept));
            assert(covers_all(left_params, kept));
            restricted_renames_all(left_params, right_params, names, kept);
            restricted_renames(*left_result, *right_result, names, kept);
        },
        (SpecType::Optional(left_part), SpecType::Optional(right_part)) => {
            assert(covers(*left_part, kept));
            restricted_renames(*left_part, *right_part, names, kept);
        },
        (SpecType::Nullable(left_part), SpecType::Nullable(right_part)) => {
            assert(covers(*left_part, kept));
            restricted_renames(*left_part, *right_part, names, kept);
        },
        (SpecType::Tuple(left_part), SpecType::Tuple(right_part)) => {
            assert(covers_all(left_part, kept));
            restricted_renames_all(left_part, right_part, names, kept);
        },
        (SpecType::Record(left_part), SpecType::Record(right_part)) => {
            assert(covers_row(left_part, kept));
            restricted_renames_row(left_part, right_part, names, kept);
        },
        (SpecType::Variant(left_part), SpecType::Variant(right_part)) => {
            assert(covers_row(left_part, kept));
            restricted_renames_row(left_part, right_part, names, kept);
        },
        (
            SpecType::SlotRecord { data: left_data, slots: left_slots },
            SpecType::SlotRecord { data: right_data, slots: right_slots },
        ) => {
            assert(covers_row(*left_data, kept));
            assert(covers_row(*left_slots, kept));
            restricted_renames_row(*left_data, *right_data, names, kept);
            restricted_renames_row(*left_slots, *right_slots, names, kept);
        },
        _ => {},
    }
}

proof fn restricted_renames_all(
    left: Seq<SpecType>,
    right: Seq<SpecType>,
    names: Names,
    kept: Set<Seq<char>>,
)
    requires
        renames_all(left, right, names),
        covers_all(left, kept),
    ensures
        renames_all(left, right, names.restrict(kept)),
    decreases left,
{
    assert forall|i: int| 0 <= i < left.len() implies renames(
        #[trigger] left[i],
        right[i],
        names.restrict(kept),
    ) by {
        assert forall|x: Seq<char>| some_node(
            left[i],
            #[trigger] is_node(SpecType::Variable(x)),
        ) implies kept.contains(x) by {
            assert(some_node_in(left, is_node(SpecType::Variable(x))));
        }
        restricted_renames(left[i], right[i], names, kept);
    }
}

proof fn restricted_renames_row(
    left: SpecRow,
    right: SpecRow,
    names: Names,
    kept: Set<Seq<char>>,
)
    requires
        renames_row(left, right, names),
        covers_row(left, kept),
    ensures
        renames_row(left, right, names.restrict(kept)),
    decreases left,
{
    assert forall|i: int| 0 <= i < left.entries.len() implies renames_entry(
        #[trigger] left.entries[i],
        right.entries[i],
        names.restrict(kept),
    ) by {
        assert forall|x: Seq<char>| some_node_in_entry(
            left.entries[i],
            #[trigger] is_node(SpecType::Variable(x)),
        ) implies kept.contains(x) by {
            assert(some_node_in_row(left, is_node(SpecType::Variable(x))));
        }
        restricted_renames_entry(left.entries[i], right.entries[i], names, kept);
    }
}

proof fn restricted_renames_entry(
    left: SpecRowEntry,
    right: SpecRowEntry,
    names: Names,
    kept: Set<Seq<char>>,
)
    requires
        renames_entry(left, right, names),
        covers_entry(left, kept),
    ensures
        renames_entry(left, right, names.restrict(kept)),
    decreases left,
{
    match (left, right) {
        (SpecRowEntry::Field { ty: left_ty, .. }, SpecRowEntry::Field { ty: right_ty, .. }) => {
            assert(covers(left_ty, kept));
            restricted_renames(left_ty, right_ty, names, kept);
        },
        (
            SpecRowEntry::Tag { payload: left_payload, .. },
            SpecRowEntry::Tag { payload: right_payload, .. },
        ) => {
            assert(covers_all(left_payload, kept));
            restricted_renames_all(left_payload, right_payload, names, kept);
        },
        _ => {},
    }
}

/// The variables of a constraint.
pub open spec fn constraint_variables(constraint: SpecConstraint) -> Set<Seq<char>> {
    variables(constraint.candidate).union(variables_in(constraint.params)).union(
        variables(constraint.result),
    )
}

proof fn alignment_exists(
    left: SpecConstraint,
    right: SpecConstraint,
    names: Names,
    larger: Names,
)
    requires
        aligns(left, right, names, larger),
    ensures
        is_alignment(left, right, names, alignment(left, right, names)),
{
    let kept = names.dom().union(constraint_variables(left));
    let aligned = larger.restrict(kept);
    restricted_renames(left.candidate, right.candidate, larger, kept);
    restricted_renames_all(left.params, right.params, larger, kept);
    restricted_renames(left.result, right.result, larger, kept);
    assert forall|x: Seq<char>, y: Seq<char>|
        aligned.contains_key(x) && aligned.contains_key(y) && aligned[x]
            == aligned[y] implies x == y by {
        assert(larger.contains_key(x) && larger.contains_key(y));
    }
    assert(injective(aligned));
    assert forall|other: Names| #[trigger] aligns(left, right, names, other) implies extends(
        aligned,
        other,
    ) by {
        assert forall|x: Seq<char>| #[trigger] aligned.contains_key(x) implies other.contains_key(x)
            && other[x] == aligned[x] by {
            if names.contains_key(x) {
            } else if variables(left.candidate).contains(x) {
                renaming_is_forced(left.candidate, right.candidate, larger, other, x);
            } else if variables_in(left.params).contains(x) {
                renaming_is_forced_all(left.params, right.params, larger, other, x);
            } else {
                renaming_is_forced(left.result, right.result, larger, other, x);
            }
        }
    }
    assert(is_alignment(left, right, names, aligned));
}

proof fn signature_alignment_exists(left: SpecMethod, right: SpecMethod, names: Names)
    requires
        renames_signature(left, right, names),
    ensures
        is_signature_alignment(left, right, signature_alignment(left, right)),
{
    let kept = variables_in(left.params).union(variables(left.result));
    let aligned = names.restrict(kept);
    restricted_renames_all(left.params, right.params, names, kept);
    restricted_renames(left.result, right.result, names, kept);
    assert forall|x: Seq<char>, y: Seq<char>|
        aligned.contains_key(x) && aligned.contains_key(y) && aligned[x]
            == aligned[y] implies x == y by {
        assert(names.contains_key(x) && names.contains_key(y));
    }
    assert(injective(aligned));
    assert forall|other: Names| #[trigger] renames_signature(left, right, other) implies extends(
        aligned,
        other,
    ) by {
        assert forall|x: Seq<char>| #[trigger] aligned.contains_key(x) implies other.contains_key(x)
            && other[x] == aligned[x] by {
            if variables_in(left.params).contains(x) {
                renaming_is_forced_all(left.params, right.params, names, other, x);
            } else {
                renaming_is_forced(left.result, right.result, names, other, x);
            }
        }
    }
    assert(is_signature_alignment(left, right, aligned));
}

proof fn renames_constraint_extended(
    left: SpecConstraint,
    right: SpecConstraint,
    names: Names,
    larger: Names,
)
    requires
        renames_constraint(left, right, names),
        extends(names, larger),
    ensures
        renames_constraint(left, right, larger),
{
    renames_extended(left.candidate, right.candidate, names, larger);
    renames_all_extended(left.params, right.params, names, larger);
    renames_extended(left.result, right.result, names, larger);
}

proof fn matched_constraints_share_a_renaming(
    inherited: Seq<SpecConstraint>,
    unmatched: Seq<SpecConstraint>,
    names: Names,
) -> (larger: Names)
    requires
        constraints_match(inherited, unmatched, names),
        injective(names),
    ensures
        injective(larger),
        extends(names, larger),
        forall|i: int|
            0 <= i < inherited.len() ==> exists|j: int|
                0 <= j < unmatched.len() && renames_constraint(
                    #[trigger] inherited[i],
                    #[trigger] unmatched[j],
                    larger,
                ),
    decreases inherited.len(),
{
    if inherited.len() == 0 {
        names
    } else {
        first_alignable_bounds(inherited[0], unmatched, names, 0);
        let index = first_alignable(inherited[0], unmatched, names, 0)->0;
        let some = choose|some: Names| aligns(inherited[0], unmatched[index], names, some);
        alignment_exists(inherited[0], unmatched[index], names, some);
        let aligned = alignment(inherited[0], unmatched[index], names);
        let rest = inherited.skip(1);
        let others = unmatched.remove(index);
        let larger = matched_constraints_share_a_renaming(rest, others, aligned);
        renames_constraint_extended(inherited[0], unmatched[index], aligned, larger);
        assert forall|i: int| 0 <= i < inherited.len() implies exists|j: int|
            0 <= j < unmatched.len() && renames_constraint(
                #[trigger] inherited[i],
                #[trigger] unmatched[j],
                larger,
            ) by {
            if i == 0 {
                assert(renames_constraint(inherited[0], unmatched[index], larger));
            } else {
                assert(rest[i - 1] == inherited[i]);
                let j = choose|j: int|
                    0 <= j < others.len() && renames_constraint(rest[i - 1], #[trigger] others[j], larger);
                let k = if j < index {
                    j
                } else {
                    j + 1
                };
                assert(others[j] == unmatched[k]);
                assert(renames_constraint(inherited[i], unmatched[k], larger));
            }
        }
        larger
    }
}

/// Equivalent schemes are related by a single renaming: it renames parameters
/// and result, and each inherited constraint into some declared one.
pub proof fn equivalent_schemes_share_a_renaming(
    inherited: SpecMethod,
    declared: SpecMethod,
) -> (names: Names)
    requires
        schemes_equivalent(inherited, declared),
    ensures
        renames_signature(inherited, declared, names),
        forall|i: int|
            0 <= i < inherited.constraints.len() ==> exists|j: int|
                0 <= j < declared.constraints.len() && renames_constraint(
                    #[trigger] inherited.constraints[i],
                    #[trigger] declared.constraints[j],
                    names,
                ),
{
    let some = choose|names: Names| renames_signature(inherited, declared, names);
    signature_alignment_exists(inherited, declared, some);
    let aligned = signature_alignment(inherited, declared);
    let names = matched_constraints_share_a_renaming(
        inherited.constraints,
        declared.constraints,
        aligned,
    );
    renames_all_extended(inherited.params, declared.params, aligned, names);
    renames_extended(inherited.result, declared.result, aligned, names);
    names
}

proof fn constraints_match_themselves(constraints: Seq<SpecConstraint>, names: Names)
    requires
        is_identity(names),
    ensures
        constraints_match(constraints, constraints, names),
    decreases constraints.len(),
{
    if constraints.len() > 0 {
        let first = constraints[0];
        identity_renames(first.candidate);
        identity_renames_all(first.params);
        identity_renames(first.result);
        assert(extends(names, identity_names()));
        assert(injective(identity_names()));
        assert(aligns(first, first, names, identity_names()));
        alignment_exists(first, first, names, identity_names());
        let aligned = alignment(first, first, names);
        assert(extends(aligned, identity_names()));
        assert(is_identity(aligned));
        assert(constraints.remove(0) =~= constraints.skip(1));
        constraints_match_themselves(constraints.skip(1), aligned);
    }
}

/// A declaration that repeats the inherited scheme is equivalent to it.
pub proof fn scheme_is_equivalent_to_itself(method: SpecMethod)
    ensures
        schemes_equivalent(method, method),
{
    identity_renames_all(method.params);
    identity_renames(method.result);
    assert(injective(identity_names()));
    assert(renames_signature(method, method, identity_names()));
    signature_alignment_exists(method, method, identity_names());
    let aligned = signature_alignment(method, method);
    assert(extends(aligned, identity_names()));
    assert(is_identity(aligned));
    constraints_match_themselves(method.constraints, aligned);
}

// ---------------------------------------------------------------------------
// Renamed schemes
// ---------------------------------------------------------------------------
/// Whether a one-to-one map renames a method into another, with its constraints in order.
pub open spec fn renames_scheme(left: SpecMethod, right: SpecMethod, names: Names) -> bool {
    &&& renames_signature(left, right, names)
    &&& left.variables.len() == right.variables.len()
    &&& left.constraints.len() == right.constraints.len()
    &&& forall|i: int|
        0 <= i < left.constraints.len() ==> renames_constraint(
            #[trigger] left.constraints[i],
            right.constraints[i],
            names,
        )
}

proof fn renamed_constraints_match(
    inherited: Seq<SpecConstraint>,
    declared: Seq<SpecConstraint>,
    names: Names,
    larger: Names,
)
    requires
        injective(larger),
        extends(names, larger),
        inherited.len() == declared.len(),
        forall|i: int|
            0 <= i < inherited.len() ==> renames_constraint(
                #[trigger] inherited[i],
                declared[i],
                larger,
            ),
    ensures
        constraints_match(inherited, declared, names),
    decreases inherited.len(),
{
    if inherited.len() > 0 {
        assert(aligns(inherited[0], declared[0], names, larger));
        alignment_exists(inherited[0], declared[0], names, larger);
        let aligned = alignment(inherited[0], declared[0], names);
        assert(extends(aligned, larger));
        let rest = inherited.skip(1);
        let others = declared.remove(0);
        assert(others =~= declared.skip(1));
        assert forall|i: int| 0 <= i < rest.len() implies renames_constraint(
            #[trigger] rest[i],
            others[i],
            larger,
        ) by {
            assert(rest[i] == inherited[i + 1]);
        }
        renamed_constraints_match(rest, others, aligned, larger);
    }
}

/// A method whose variables are renamed one to one has an equivalent scheme.
pub proof fn renamed_schemes_are_equivalent(method: SpecMethod, renamed: SpecMethod, names: Names)
    requires
        renames_scheme(method, renamed, names),
    ensures
        schemes_equivalent(method, renamed),
{
    signature_alignment_exists(method, renamed, names);
    let aligned = signature_alignment(method, renamed);
    assert(extends(aligned, names));
    renamed_constraints_match(method.constraints, renamed.constraints, aligned, names);
}

proof fn renaming_is_a_function(left: SpecType, one: SpecType, other: SpecType, names: Names)
    requires
        renames(left, one, names),
        renames(left, other, names),
    ensures
        one == other,
    decreases left,
{
    match (left, one, other) {
        (
            SpecType::Apply { callee: left_callee, args: left_args },
            SpecType::Apply { callee: one_callee, args: one_args },
            SpecType::Apply { callee: other_callee, args: other_args },
        ) => {
            renaming_is_a_function(*left_callee, *one_callee, *other_callee, names);
            renaming_is_a_function_all(left_args, one_args, other_args, names);
        },
        (
            SpecType::Function { params: left_params, result: left_result, .. },
            SpecType::Function { params: one_params, result: one_result, .. },
            SpecType::Function { params: other_params, result: other_result, .. },
        ) => {
            renaming_is_a_function_all(left_params, one_params, other_params, names);
            renaming_is_a_function(*left_result, *one_result, *other_result, names);
        },
        (SpecType::Optional(left), SpecType::Optional(one), SpecType::Optional(other)) => {
            renaming_is_a_function(*left, *one, *other, names);
        },
        (SpecType::Nullable(left), SpecType::Nullable(one), SpecType::Nullable(other)) => {
            renaming_is_a_function(*left, *one, *other, names);
        },
        (SpecType::Tuple(left), SpecType::Tuple(one), SpecType::Tuple(other)) => {
            renaming_is_a_function_all(left, one, other, names);
        },
        (SpecType::Record(left), SpecType::Record(one), SpecType::Record(other)) => {
            renaming_is_a_function_row(left, one, other, names);
        },
        (SpecType::Variant(left), SpecType::Variant(one), SpecType::Variant(other)) => {
            renaming_is_a_function_row(left, one, other, names);
        },
        (
            SpecType::SlotRecord { data: left_data, slots: left_slots },
            SpecType::SlotRecord { data: one_data, slots: one_slots },
            SpecType::SlotRecord { data: other_data, slots: other_slots },
        ) => {
            renaming_is_a_function_row(*left_data, *one_data, *other_data, names);
            renaming_is_a_function_row(*left_slots, *one_slots, *other_slots, names);
        },
        _ => {},
    }
}

proof fn renaming_is_a_function_all(
    left: Seq<SpecType>,
    one: Seq<SpecType>,
    other: Seq<SpecType>,
    names: Names,
)
    requires
        renames_all(left, one, names),
        renames_all(left, other, names),
    ensures
        one == other,
    decreases left,
{
    assert forall|i: int| 0 <= i < left.len() implies one[i] == other[i] by {
        assert(renames(left[i], one[i], names));
        assert(renames(left[i], other[i], names));
        renaming_is_a_function(left[i], one[i], other[i], names);
    }
    assert(one =~= other);
}

proof fn renaming_is_a_function_row(left: SpecRow, one: SpecRow, other: SpecRow, names: Names)
    requires
        renames_row(left, one, names),
        renames_row(left, other, names),
    ensures
        one == other,
    decreases left,
{
    assert forall|i: int| 0 <= i < left.entries.len() implies one.entries[i]
        == other.entries[i] by {
        assert(renames_entry(left.entries[i], one.entries[i], names));
        assert(renames_entry(left.entries[i], other.entries[i], names));
        renaming_is_a_function_entry(left.entries[i], one.entries[i], other.entries[i], names);
    }
    assert(one.entries =~= other.entries);
}

proof fn renaming_is_a_function_entry(
    left: SpecRowEntry,
    one: SpecRowEntry,
    other: SpecRowEntry,
    names: Names,
)
    requires
        renames_entry(left, one, names),
        renames_entry(left, other, names),
    ensures
        one == other,
    decreases left,
{
    match (left, one, other) {
        (
            SpecRowEntry::Field { ty: left, .. },
            SpecRowEntry::Field { ty: one, .. },
            SpecRowEntry::Field { ty: other, .. },
        ) => {
            renaming_is_a_function(left, one, other, names);
        },
        (
            SpecRowEntry::Tag { payload: left, .. },
            SpecRowEntry::Tag { payload: one, .. },
            SpecRowEntry::Tag { payload: other, .. },
        ) => {
            renaming_is_a_function_all(left, one, other, names);
        },
        _ => {},
    }
}

proof fn renaming_of_constraints_is_a_function(
    left: SpecConstraint,
    one: SpecConstraint,
    other: SpecConstraint,
    names: Names,
)
    requires
        renames_constraint(left, one, names),
        renames_constraint(left, other, names),
    ensures
        one == other,
{
    renaming_is_a_function(left.candidate, one.candidate, other.candidate, names);
    renaming_is_a_function_all(left.params, one.params, other.params, names);
    renaming_is_a_function(left.result, one.result, other.result, names);
}

/// Where a renaming covers a constraint, an extension renames it no otherwise.
proof fn covered_constraints_need_no_extension(
    left: SpecConstraint,
    right: SpecConstraint,
    names: Names,
    larger: Names,
)
    requires
        injective(names),
        aligns(left, right, names, larger),
        constraint_variables(left).subset_of(names.dom()),
    ensures
        renames_constraint(left, right, names),
        alignment(left, right, names) == names,
{
    let kept = names.dom();
    assert forall|x: Seq<char>| some_node(
        left.candidate,
        #[trigger] is_node(SpecType::Variable(x)),
    ) implies kept.contains(x) by {
        assert(constraint_variables(left).contains(x));
    }
    assert forall|x: Seq<char>| some_node_in(
        left.params,
        #[trigger] is_node(SpecType::Variable(x)),
    ) implies kept.contains(x) by {
        assert(constraint_variables(left).contains(x));
    }
    assert forall|x: Seq<char>| some_node(
        left.result,
        #[trigger] is_node(SpecType::Variable(x)),
    ) implies kept.contains(x) by {
        assert(constraint_variables(left).contains(x));
    }
    restricted_renames(left.candidate, right.candidate, larger, kept);
    restricted_renames_all(left.params, right.params, larger, kept);
    restricted_renames(left.result, right.result, larger, kept);
    assert(larger.restrict(kept) =~= names) by {
        assert forall|x: Seq<char>| names.contains_key(x) implies larger.contains_key(x)
            && larger[x] == names[x] by {}
    }
    assert(aligns(left, right, names, names));
    assert(is_alignment(left, right, names, names));
    alignment_is(left, right, names, names);
}

proof fn permuted_constraints_match(
    inherited: Seq<SpecConstraint>,
    images: Seq<SpecConstraint>,
    unmatched: Seq<SpecConstraint>,
    names: Names,
)
    requires
        injective(names),
        inherited.len() == images.len(),
        images.to_multiset() == unmatched.to_multiset(),
        forall|i: int|
            0 <= i < inherited.len() ==> renames_constraint(
                #[trigger] inherited[i],
                images[i],
                names,
            ) && constraint_variables(inherited[i]).subset_of(names.dom()),
    ensures
        constraints_match(inherited, unmatched, names),
    decreases inherited.len(),
{
    broadcast use vstd::seq_lib::group_to_multiset_ensures;

    if inherited.len() > 0 {
        let first = inherited[0];
        assert(renames_constraint(first, images[0], names));
        assert(images.to_multiset().count(images[0]) > 0) by {
            assert(images.contains(images[0]));
        }
        assert(unmatched.contains(images[0]));
        let place = choose|i: int| 0 <= i < unmatched.len() && unmatched[i] == images[0];
        assert(aligns(first, unmatched[place], names, names));
        assert(alignable(first, unmatched[place], names));
        first_alignable_bounds(first, unmatched, names, 0);
        let index = first_alignable(first, unmatched, names, 0)->0;
        let larger = choose|larger: Names| aligns(first, unmatched[index], names, larger);
        covered_constraints_need_no_extension(first, unmatched[index], names, larger);
        renaming_of_constraints_is_a_function(first, images[0], unmatched[index], names);
        let rest = inherited.skip(1);
        let others = images.skip(1);
        assert(images.remove(0) =~= others);
        assert(others.to_multiset() =~= unmatched.remove(index).to_multiset());
        assert forall|i: int| 0 <= i < rest.len() implies renames_constraint(
            #[trigger] rest[i],
            others[i],
            names,
        ) && constraint_variables(rest[i]).subset_of(names.dom()) by {
            assert(rest[i] == inherited[i + 1]);
        }
        permuted_constraints_match(rest, others, unmatched.remove(index), names);
    }
}

/// The variables of the parameters and the result of a method.
pub open spec fn signature_variables(method: SpecMethod) -> Set<Seq<char>> {
    variables_in(method.params).union(variables(method.result))
}

/// The order of constraints does not matter to the equivalence of a renamed scheme, if every
/// variable of the constraints occurs in the parameters or the result.
pub proof fn permuted_schemes_are_equivalent(
    method: SpecMethod,
    renamed: SpecMethod,
    permuted: SpecMethod,
    names: Names,
)
    requires
        renames_scheme(method, renamed, names),
        permuted.params == renamed.params,
        permuted.result == renamed.result,
        permuted.variables.len() == renamed.variables.len(),
        permuted.constraints.to_multiset() == renamed.constraints.to_multiset(),
        forall|i: int|
            0 <= i < method.constraints.len() ==> constraint_variables(
                #[trigger] method.constraints[i],
            ).subset_of(signature_variables(method)),
    ensures
        schemes_equivalent(method, permuted),
{
    broadcast use vstd::seq_lib::group_to_multiset_ensures;

    assert(renames_signature(method, permuted, names));
    signature_alignment_exists(method, permuted, names);
    let aligned = signature_alignment(method, permuted);
    assert(extends(aligned, names));
    assert forall|x: Seq<char>| signature_variables(method).contains(
        x,
    ) implies #[trigger] aligned.contains_key(x) by {
        if variables_in(method.params).contains(x) {
            renaming_is_forced_all(method.params, permuted.params, aligned, names, x);
        } else {
            renaming_is_forced(method.result, permuted.result, aligned, names, x);
        }
    }
    assert(signature_variables(method).subset_of(aligned.dom()));
    assert forall|i: int| 0 <= i < method.constraints.len() implies renames_constraint(
        #[trigger] method.constraints[i],
        renamed.constraints[i],
        aligned,
    ) && constraint_variables(method.constraints[i]).subset_of(aligned.dom()) by {
        let constraint = method.constraints[i];
        assert(renames_constraint(constraint, renamed.constraints[i], names));
        assert(constraint_variables(constraint).subset_of(signature_variables(method)));
        assert(aligns(constraint, renamed.constraints[i], aligned, names));
        covered_constraints_need_no_extension(
            constraint,
            renamed.constraints[i],
            aligned,
            names,
        );
    }
    permuted_constraints_match(
        method.constraints,
        renamed.constraints,
        permuted.constraints,
        aligned,
    );
    assert(permuted.constraints.len() == permuted.constraints.to_multiset().len());
    assert(renamed.constraints.len() == renamed.constraints.to_multiset().len());
}

/// Schemes with other numbers of parameters, variables or constraints are not equivalent.
pub proof fn schemes_of_other_sizes_differ(inherited: SpecMethod, declared: SpecMethod)
    requires
        inherited.params.len() != declared.params.len() || inherited.variables.len()
            != declared.variables.len() || inherited.constraints.len()
            != declared.constraints.len(),
    ensures
        !schemes_equivalent(inherited, declared),
{
}

} // verus!
