//! What rewriting, searching and normal forms of types are for.
use crate::normalize::{normal_form, normalized, normalized_all, normalized_entry, normalized_row};
use crate::row_laws::admits;
use crate::rows::{peeled_payload, EmptyValue};
use crate::type_ops::{
    is_node, literal_rule, mapped, mapped_all, mapped_entry, mapped_row, metas, metas_in,
    metas_in_entries, metas_in_entry, metas_in_row, resolved, some_node, some_node_in,
    some_node_in_entry, some_node_in_row, substituted, substitution_rule, widened_base,
    widened_owner,
};
use crate::types::{SpecRow, SpecRowEntry, SpecType};
use vstd::prelude::*;

verus! {

// ---------------------------------------------------------------------------
// Parts
// ---------------------------------------------------------------------------
/// Whether an entry of a row holds a type.
pub open spec fn entry_holds(entry: SpecRowEntry, part: SpecType) -> bool {
    ||| entry is Field && entry->Field_ty == part
    ||| entry is Tag && entry->Tag_payload.contains(part)
}

/// Whether a row holds a type.
pub open spec fn row_holds(row: SpecRow, part: SpecType) -> bool {
    exists|i: int| 0 <= i < row.entries.len() && entry_holds(#[trigger] row.entries[i], part)
}

/// Whether a type is made of another one, and of what else there is beside it.
pub open spec fn is_part(ty: SpecType, part: SpecType) -> bool {
    match ty {
        SpecType::Apply { callee, args } => *callee == part || args.contains(part),
        SpecType::Function { params, result, .. } => params.contains(part) || *result == part,
        SpecType::Optional(inner) => *inner == part,
        SpecType::Nullable(inner) => *inner == part,
        SpecType::Tuple(items) => items.contains(part),
        SpecType::Record(row) => row_holds(row, part),
        SpecType::Variant(row) => row_holds(row, part),
        SpecType::SlotRecord { data, slots } => row_holds(*data, part) || row_holds(*slots, part),
        _ => false,
    }
}

proof fn lists_are_searched(types: Seq<SpecType>, test: spec_fn(SpecType) -> bool)
    ensures
        some_node_in(types, test) <==> exists|part: SpecType|
            types.contains(part) && #[trigger] some_node(part, test),
{
    if some_node_in(types, test) {
        let i = choose|i: int| 0 <= i < types.len() && some_node(#[trigger] types[i], test);
        assert(types.contains(types[i]));
        assert(some_node(types[i], test));
    }
    if exists|part: SpecType| types.contains(part) && #[trigger] some_node(part, test) {
        let part = choose|part: SpecType| types.contains(part) && #[trigger] some_node(part, test);
        let i = choose|i: int| 0 <= i < types.len() && types[i] == part;
        assert(some_node(types[i], test));
    }
}

proof fn entries_are_searched(entry: SpecRowEntry, test: spec_fn(SpecType) -> bool)
    ensures
        some_node_in_entry(entry, test) <==> exists|part: SpecType|
            entry_holds(entry, part) && #[trigger] some_node(part, test),
{
    if let SpecRowEntry::Tag { payload, .. } = entry {
        lists_are_searched(payload, test);
        if some_node_in(payload, test) {
            let part = choose|part: SpecType|
                payload.contains(part) && #[trigger] some_node(part, test);
            assert(entry_holds(entry, part) && some_node(part, test));
        }
    }
    if let SpecRowEntry::Field { ty, .. } = entry {
        if some_node(ty, test) {
            assert(entry_holds(entry, ty) && some_node(ty, test));
        }
    }
}

proof fn rows_are_searched(row: SpecRow, test: spec_fn(SpecType) -> bool)
    ensures
        some_node_in_row(row, test) <==> exists|part: SpecType|
            row_holds(row, part) && #[trigger] some_node(part, test),
{
    if some_node_in_row(row, test) {
        let i = choose|i: int|
            0 <= i < row.entries.len() && some_node_in_entry(#[trigger] row.entries[i], test);
        entries_are_searched(row.entries[i], test);
        let part = choose|part: SpecType|
            entry_holds(row.entries[i], part) && #[trigger] some_node(part, test);
        assert(row_holds(row, part) && some_node(part, test));
    }
    if exists|part: SpecType| row_holds(row, part) && #[trigger] some_node(part, test) {
        let part = choose|part: SpecType| row_holds(row, part) && #[trigger] some_node(part, test);
        let i = choose|i: int|
            0 <= i < row.entries.len() && entry_holds(#[trigger] row.entries[i], part);
        entries_are_searched(row.entries[i], test);
        assert(some_node_in_entry(row.entries[i], test));
    }
}

/// A node is found in a type exactly where the type is one, or one is found in a part of it.
pub proof fn searches_reach_every_part(ty: SpecType, test: spec_fn(SpecType) -> bool)
    ensures
        some_node(ty, test) <==> test(ty) || exists|part: SpecType|
            is_part(ty, part) && #[trigger] some_node(part, test),
{
    match ty {
        SpecType::Apply { callee, args } => {
            lists_are_searched(args, test);
            if some_node(*callee, test) {
                assert(is_part(ty, *callee) && some_node(*callee, test));
            }
            if some_node_in(args, test) {
                let part = choose|part: SpecType|
                    args.contains(part) && #[trigger] some_node(part, test);
                assert(is_part(ty, part) && some_node(part, test));
            }
        },
        SpecType::Function { params, result, .. } => {
            lists_are_searched(params, test);
            if some_node(*result, test) {
                assert(is_part(ty, *result) && some_node(*result, test));
            }
            if some_node_in(params, test) {
                let part = choose|part: SpecType|
                    params.contains(part) && #[trigger] some_node(part, test);
                assert(is_part(ty, part) && some_node(part, test));
            }
        },
        SpecType::Optional(inner) => {
            if some_node(*inner, test) {
                assert(is_part(ty, *inner) && some_node(*inner, test));
            }
        },
        SpecType::Nullable(inner) => {
            if some_node(*inner, test) {
                assert(is_part(ty, *inner) && some_node(*inner, test));
            }
        },
        SpecType::Tuple(items) => {
            lists_are_searched(items, test);
            if some_node_in(items, test) {
                let part = choose|part: SpecType|
                    items.contains(part) && #[trigger] some_node(part, test);
                assert(is_part(ty, part) && some_node(part, test));
            }
        },
        SpecType::Record(row) => {
            rows_are_searched(row, test);
            if some_node_in_row(row, test) {
                let part = choose|part: SpecType|
                    row_holds(row, part) && #[trigger] some_node(part, test);
                assert(is_part(ty, part) && some_node(part, test));
            }
        },
        SpecType::Variant(row) => {
            rows_are_searched(row, test);
            if some_node_in_row(row, test) {
                let part = choose|part: SpecType|
                    row_holds(row, part) && #[trigger] some_node(part, test);
                assert(is_part(ty, part) && some_node(part, test));
            }
        },
        SpecType::SlotRecord { data, slots } => {
            rows_are_searched(*data, test);
            rows_are_searched(*slots, test);
            if some_node_in_row(*data, test) {
                let part = choose|part: SpecType|
                    row_holds(*data, part) && #[trigger] some_node(part, test);
                assert(is_part(ty, part) && some_node(part, test));
            }
            if some_node_in_row(*slots, test) {
                let part = choose|part: SpecType|
                    row_holds(*slots, part) && #[trigger] some_node(part, test);
                assert(is_part(ty, part) && some_node(part, test));
            }
        },
        _ => {},
    }
}

/// A type is known exactly where neither it nor a part of it is unknown.
pub proof fn known_types_have_known_parts(ty: SpecType)
    ensures
        resolved(ty) <==> !(ty is Deferred) && !(ty is Variable) && !(ty is Meta) && forall|
            part: SpecType,
        |
            is_part(ty, part) ==> #[trigger] resolved(part),
{
    let test = crate::type_ops::is_unresolved();
    searches_reach_every_part(ty, test);
    assert forall|part: SpecType| #[trigger] resolved(part) == !some_node(part, test) by {
    }
    if resolved(ty) {
        assert forall|part: SpecType| is_part(ty, part) implies #[trigger] resolved(part) by {
            if some_node(part, test) {
                assert(is_part(ty, part) && some_node(part, test));
            }
        }
    } else if !test(ty) {
        let part = choose|part: SpecType| is_part(ty, part) && #[trigger] some_node(part, test);
        assert(!resolved(part));
    }
}

// ---------------------------------------------------------------------------
// Rewriting
// ---------------------------------------------------------------------------
/// What a rule replaces.
pub open spec fn is_replaced(rule: spec_fn(SpecType) -> Option<SpecType>) -> spec_fn(
    SpecType,
) -> bool {
    |node: SpecType| rule(node) is Some
}

/// A type in which a rule replaces nothing stays as it is.
pub proof fn rewriting_keeps_the_rest(ty: SpecType, rule: spec_fn(SpecType) -> Option<SpecType>)
    requires
        !some_node(ty, is_replaced(rule)),
    ensures
        mapped(ty, rule) == ty,
    decreases ty,
{
    let test = is_replaced(rule);
    assert(!test(ty));
    match ty {
        SpecType::Apply { callee, args } => {
            rewriting_keeps_the_rest(*callee, rule);
            rewriting_keeps_lists(args, rule);
        },
        SpecType::Function { params, result, .. } => {
            rewriting_keeps_lists(params, rule);
            rewriting_keeps_the_rest(*result, rule);
        },
        SpecType::Optional(inner) => {
            rewriting_keeps_the_rest(*inner, rule);
        },
        SpecType::Nullable(inner) => {
            rewriting_keeps_the_rest(*inner, rule);
        },
        SpecType::Tuple(items) => {
            rewriting_keeps_lists(items, rule);
        },
        SpecType::Record(row) => {
            rewriting_keeps_rows(row, rule);
        },
        SpecType::Variant(row) => {
            rewriting_keeps_rows(row, rule);
        },
        SpecType::SlotRecord { data, slots } => {
            rewriting_keeps_rows(*data, rule);
            rewriting_keeps_rows(*slots, rule);
        },
        _ => {},
    }
}

proof fn rewriting_keeps_lists(
    types: Seq<SpecType>,
    rule: spec_fn(SpecType) -> Option<SpecType>,
)
    requires
        !some_node_in(types, is_replaced(rule)),
    ensures
        mapped_all(types, rule) == types,
    decreases types,
{
    assert forall|i: int| 0 <= i < types.len() implies mapped(#[trigger] types[i], rule)
        == types[i] by {
        rewriting_keeps_the_rest(types[i], rule);
    }
    assert(mapped_all(types, rule) =~= types);
}

proof fn rewriting_keeps_entries(
    entry: SpecRowEntry,
    rule: spec_fn(SpecType) -> Option<SpecType>,
)
    requires
        !some_node_in_entry(entry, is_replaced(rule)),
    ensures
        mapped_entry(entry, rule) == entry,
    decreases entry,
{
    match entry {
        SpecRowEntry::Field { ty, .. } => {
            rewriting_keeps_the_rest(ty, rule);
        },
        SpecRowEntry::Tag { payload, .. } => {
            rewriting_keeps_lists(payload, rule);
        },
        SpecRowEntry::Literal { .. } => {},
    }
}

proof fn rewriting_keeps_rows(row: SpecRow, rule: spec_fn(SpecType) -> Option<SpecType>)
    requires
        !some_node_in_row(row, is_replaced(rule)),
    ensures
        mapped_row(row, rule) == row,
    decreases row,
{
    assert forall|i: int| 0 <= i < row.entries.len() implies mapped_entry(
        #[trigger] row.entries[i],
        rule,
    ) == row.entries[i] by {
        rewriting_keeps_entries(row.entries[i], rule);
    }
    assert(mapped_row(row, rule).entries =~= row.entries);
}

/// A rewritten type holds nothing of what the rule replaces, where the replacements hold nothing
/// of it and where a node keeps its standing when its parts are rewritten.
pub proof fn rewriting_reaches_every_part(
    ty: SpecType,
    rule: spec_fn(SpecType) -> Option<SpecType>,
    test: spec_fn(SpecType) -> bool,
)
    requires
        forall|node: SpecType| #[trigger]
            rule(node) is Some ==> !some_node(rule(node)->0, test),
        forall|node: SpecType| #[trigger] rule(node) is None ==> !test(node) && !test(
            mapped(node, rule),
        ),
    ensures
        !some_node(mapped(ty, rule), test),
    decreases ty,
{
    if rule(ty) is None {
        assert(!test(mapped(ty, rule)));
        match ty {
            SpecType::Apply { callee, args } => {
                rewriting_reaches_every_part(*callee, rule, test);
                rewriting_reaches_lists(args, rule, test);
            },
            SpecType::Function { params, result, .. } => {
                rewriting_reaches_lists(params, rule, test);
                rewriting_reaches_every_part(*result, rule, test);
            },
            SpecType::Optional(inner) => {
                rewriting_reaches_every_part(*inner, rule, test);
            },
            SpecType::Nullable(inner) => {
                rewriting_reaches_every_part(*inner, rule, test);
            },
            SpecType::Tuple(items) => {
                rewriting_reaches_lists(items, rule, test);
            },
            SpecType::Record(row) => {
                rewriting_reaches_rows(row, rule, test);
            },
            SpecType::Variant(row) => {
                rewriting_reaches_rows(row, rule, test);
            },
            SpecType::SlotRecord { data, slots } => {
                rewriting_reaches_rows(*data, rule, test);
                rewriting_reaches_rows(*slots, rule, test);
            },
            _ => {},
        }
    }
}

proof fn rewriting_reaches_lists(
    types: Seq<SpecType>,
    rule: spec_fn(SpecType) -> Option<SpecType>,
    test: spec_fn(SpecType) -> bool,
)
    requires
        forall|node: SpecType| #[trigger]
            rule(node) is Some ==> !some_node(rule(node)->0, test),
        forall|node: SpecType| #[trigger] rule(node) is None ==> !test(node) && !test(
            mapped(node, rule),
        ),
    ensures
        !some_node_in(mapped_all(types, rule), test),
    decreases types,
{
    let after = mapped_all(types, rule);
    assert forall|i: int| 0 <= i < after.len() implies !some_node(#[trigger] after[i], test) by {
        rewriting_reaches_every_part(types[i], rule, test);
    }
}

proof fn rewriting_reaches_entries(
    entry: SpecRowEntry,
    rule: spec_fn(SpecType) -> Option<SpecType>,
    test: spec_fn(SpecType) -> bool,
)
    requires
        forall|node: SpecType| #[trigger]
            rule(node) is Some ==> !some_node(rule(node)->0, test),
        forall|node: SpecType| #[trigger] rule(node) is None ==> !test(node) && !test(
            mapped(node, rule),
        ),
    ensures
        !some_node_in_entry(mapped_entry(entry, rule), test),
    decreases entry,
{
    match entry {
        SpecRowEntry::Field { ty, .. } => {
            rewriting_reaches_every_part(ty, rule, test);
        },
        SpecRowEntry::Tag { payload, .. } => {
            rewriting_reaches_lists(payload, rule, test);
        },
        SpecRowEntry::Literal { .. } => {},
    }
}

proof fn rewriting_reaches_rows(
    row: SpecRow,
    rule: spec_fn(SpecType) -> Option<SpecType>,
    test: spec_fn(SpecType) -> bool,
)
    requires
        forall|node: SpecType| #[trigger]
            rule(node) is Some ==> !some_node(rule(node)->0, test),
        forall|node: SpecType| #[trigger] rule(node) is None ==> !test(node) && !test(
            mapped(node, rule),
        ),
    ensures
        !some_node_in_row(mapped_row(row, rule), test),
    decreases row,
{
    let after = mapped_row(row, rule).entries;
    assert forall|i: int| 0 <= i < after.len() implies !some_node_in_entry(
        #[trigger] after[i],
        test,
    ) by {
        rewriting_reaches_entries(row.entries[i], rule, test);
    }
}

/// Replacing type variables leaves a type alone that has none of them, and leaves none of them
/// in a type where what stands for them holds none.
pub proof fn variables_are_replaced(
    ty: SpecType,
    bindings: Map<Seq<char>, SpecType>,
    name: Seq<char>,
)
    ensures
        bindings.contains_key(name) ==> substituted(SpecType::Variable(name), bindings)
            == bindings[name],
        (forall|bound: Seq<char>| #[trigger] bindings.contains_key(bound) ==> !some_node(
            ty,
            is_node(SpecType::Variable(bound)),
        )) ==> substituted(ty, bindings) == ty,
        bindings.contains_key(name) && (forall|bound: Seq<char>| #[trigger]
            bindings.contains_key(bound) ==> !some_node(
                bindings[bound],
                is_node(SpecType::Variable(name)),
            )) ==> !some_node(substituted(ty, bindings), is_node(SpecType::Variable(name))),
{
    let rule = substitution_rule(bindings);
    let test = is_node(SpecType::Variable(name));
    if forall|bound: Seq<char>| #[trigger] bindings.contains_key(bound) ==> !some_node(
        ty,
        is_node(SpecType::Variable(bound)),
    ) {
        if some_node(ty, is_replaced(rule)) {
            let node = bound_variables_are_nodes(ty, bindings);
            assert(bindings.contains_key(node));
        }
        rewriting_keeps_the_rest(ty, rule);
    }
    if bindings.contains_key(name) && (forall|bound: Seq<char>| #[trigger]
        bindings.contains_key(bound) ==> !some_node(
            bindings[bound],
            is_node(SpecType::Variable(name)),
        )) {
        assert forall|node: SpecType| #[trigger] rule(node) is Some implies !some_node(
            rule(node)->0,
            test,
        ) by {
            assert(bindings.contains_key(node->Variable_0));
        }
        assert forall|node: SpecType| #[trigger] rule(node) is None implies !test(node) && !test(
            mapped(node, rule),
        ) by {
            assert(rule(SpecType::Variable(name)) is Some);
            if mapped(node, rule) == SpecType::Variable(name) {
                assert(node == SpecType::Variable(name));
            }
        }
        rewriting_reaches_every_part(ty, rule, test);
    }
}

proof fn bound_variables_are_nodes(ty: SpecType, bindings: Map<Seq<char>, SpecType>) -> (name: Seq<
    char,
>)
    requires
        some_node(ty, is_replaced(substitution_rule(bindings))),
    ensures
        bindings.contains_key(name),
        some_node(ty, is_node(SpecType::Variable(name))),
    decreases ty,
{
    let test = is_replaced(substitution_rule(bindings));
    if test(ty) {
        let name = ty->Variable_0;
        assert(is_node(SpecType::Variable(name))(ty));
        name
    } else {
        searches_reach_every_part(ty, test);
        let part = choose|part: SpecType| is_part(ty, part) && #[trigger] some_node(part, test);
        parts_are_smaller(ty, part);
        let name = bound_variables_are_nodes(part, bindings);
        let wanted = is_node(SpecType::Variable(name));
        searches_reach_every_part(ty, wanted);
        assert(is_part(ty, part) && some_node(part, wanted));
        name
    }
}

proof fn rows_are_larger(row: SpecRow, part: SpecType)
    requires
        row_holds(row, part),
    ensures
        decreases_to!(row => part),
{
    let i = choose|i: int|
        0 <= i < row.entries.len() && entry_holds(#[trigger] row.entries[i], part);
    let entry = row.entries[i];
    assert(decreases_to!(row => row.entries));
    assert(decreases_to!(row.entries => row.entries[i]));
    match entry {
        SpecRowEntry::Field { ty, .. } => {
            assert(decreases_to!(entry => entry->Field_ty));
        },
        SpecRowEntry::Tag { payload, .. } => {
            let k = choose|k: int| 0 <= k < payload.len() && payload[k] == part;
            assert(decreases_to!(entry => entry->Tag_payload));
            assert(decreases_to!(payload => payload[k]));
        },
        SpecRowEntry::Literal { .. } => {},
    }
}

proof fn lists_are_larger(types: Seq<SpecType>, part: SpecType)
    requires
        types.contains(part),
    ensures
        decreases_to!(types => part),
{
    let k = choose|k: int| 0 <= k < types.len() && types[k] == part;
    assert(decreases_to!(types => types[k]));
}

/// A part of a type is smaller than the type.
pub proof fn parts_are_smaller(ty: SpecType, part: SpecType)
    requires
        is_part(ty, part),
    ensures
        decreases_to!(ty => part),
{
    match ty {
        SpecType::Apply { callee, args } => {
            assert(decreases_to!(ty => ty->Apply_callee));
            assert(decreases_to!(ty => ty->Apply_args));
            if *callee != part {
                lists_are_larger(args, part);
            }
        },
        SpecType::Function { params, result, .. } => {
            assert(decreases_to!(ty => ty->Function_result));
            assert(decreases_to!(ty => ty->Function_params));
            if *result != part {
                lists_are_larger(params, part);
            }
        },
        SpecType::Optional(inner) => {
            assert(decreases_to!(ty => ty->Optional_0));
        },
        SpecType::Nullable(inner) => {
            assert(decreases_to!(ty => ty->Nullable_0));
        },
        SpecType::Tuple(items) => {
            assert(decreases_to!(ty => ty->Tuple_0));
            lists_are_larger(items, part);
        },
        SpecType::Record(row) => {
            assert(decreases_to!(ty => ty->Record_0));
            rows_are_larger(row, part);
        },
        SpecType::Variant(row) => {
            assert(decreases_to!(ty => ty->Variant_0));
            rows_are_larger(row, part);
        },
        SpecType::SlotRecord { data, slots } => {
            assert(decreases_to!(ty => ty->SlotRecord_data));
            assert(decreases_to!(ty => ty->SlotRecord_slots));
            if row_holds(*data, part) {
                rows_are_larger(*data, part);
            } else {
                rows_are_larger(*slots, part);
            }
        },
        _ => {},
    }
}

// ---------------------------------------------------------------------------
// Literals
// ---------------------------------------------------------------------------
/// A type of literals widens to the builtin type of its literals; every other type dispatches
/// through itself.
pub proof fn literals_widen_to_their_type(ty: SpecType)
    ensures
        crate::operator_laws::lists_texts(ty) ==> widened_owner(ty) == SpecType::Named("Text"@),
        crate::operator_laws::lists_truth_values(ty) ==> widened_owner(ty) == SpecType::Named(
            "Bool"@,
        ),
        crate::operator_laws::lists_numbers(ty) ==> widened_owner(ty) == SpecType::Named(
            if crate::operator_laws::lists_a_point(ty) {
                "Float"@
            } else {
                "Int"@
            },
        ),
        !crate::operator_laws::lists_texts(ty) && !crate::operator_laws::lists_truth_values(ty)
            && !crate::operator_laws::lists_numbers(ty) ==> widened_owner(ty) == ty,
{
    crate::operator_laws::literals_have_their_base(ty);
    if ty is Variant {
        crate::operator_laws::points_make_floats(ty);
    }
}

/// Widening reaches every type of literals within a type.
pub proof fn no_literals_remain_after_widening(ty: SpecType)
    ensures
        !some_node(mapped(ty, literal_rule()), is_replaced(literal_rule())),
{
    let rule = literal_rule();
    let test = is_replaced(rule);
    assert forall|node: SpecType| #[trigger] rule(node) is Some implies !some_node(
        rule(node)->0,
        test,
    ) by {
        let name = rule(node)->0;
        assert(name is Named);
        assert(!test(name));
    }
    assert forall|node: SpecType| #[trigger] rule(node) is None implies !test(node) && !test(
        mapped(node, rule),
    ) by {
        if let SpecType::Variant(row) = node {
            rewriting_keeps_bases(row);
        }
    }
    rewriting_reaches_every_part(ty, rule, test);
}

proof fn rewriting_keeps_bases(row: SpecRow)
    requires
        widened_base(row) is None,
    ensures
        widened_base(mapped_row(row, literal_rule())) is None,
{
    let after = mapped_row(row, literal_rule());
    assert forall|base: crate::type_ops::LiteralBase| #[trigger] crate::type_ops::row_has_base(
        after,
        base,
    ) implies crate::type_ops::row_has_base(row, base) by {
        assert forall|i: int| 0 <= i < row.entries.len() implies crate::type_ops::entry_has_base(
            #[trigger] row.entries[i],
            base,
        ) by {
            assert(crate::type_ops::entry_has_base(after.entries[i], base));
        }
    }
}

// ---------------------------------------------------------------------------
// Unknown types
// ---------------------------------------------------------------------------
proof fn numbers_in_lists(types: Seq<SpecType>, id: u32)
    requires
        forall|i: int|
            0 <= i < types.len() ==> (metas(#[trigger] types[i]).contains(id) <==> some_node(
                types[i],
                is_node(SpecType::Meta(id)),
            )),
    ensures
        metas_in(types).contains(id) <==> some_node_in(types, is_node(SpecType::Meta(id))),
    decreases types.len(),
{
    let test = is_node(SpecType::Meta(id));
    if types.len() > 0 {
        let fewer = types.drop_last();
        let last = types[types.len() - 1];
        assert forall|i: int| 0 <= i < fewer.len() implies (metas(#[trigger] fewer[i]).contains(id)
            <==> some_node(fewer[i], test)) by {
            assert(fewer[i] == types[i]);
        }
        numbers_in_lists(fewer, id);
        joined_lists_contain_both(metas_in(fewer), metas(last), id);
        assert(metas_in(types) == metas_in(fewer) + metas(last));
        if some_node_in(fewer, test) {
            let i = choose|i: int| 0 <= i < fewer.len() && some_node(#[trigger] fewer[i], test);
            assert(some_node(types[i], test));
        }
        if some_node_in(types, test) && !some_node(last, test) {
            let i = choose|i: int| 0 <= i < types.len() && some_node(#[trigger] types[i], test);
            assert(some_node(fewer[i], test));
        }
    }
}

proof fn joined_lists_contain_both(first: Seq<u32>, second: Seq<u32>, id: u32)
    ensures
        (first + second).contains(id) <==> first.contains(id) || second.contains(id),
{
    let both = first + second;
    if first.contains(id) {
        let i = choose|i: int| 0 <= i < first.len() && first[i] == id;
        assert(both[i] == id);
    }
    if second.contains(id) {
        let i = choose|i: int| 0 <= i < second.len() && second[i] == id;
        assert(both[first.len() + i] == id);
    }
    if both.contains(id) {
        let i = choose|i: int| 0 <= i < both.len() && both[i] == id;
        if i < first.len() {
            assert(first[i] == id);
        } else {
            assert(second[i - first.len()] == id);
        }
    }
}

proof fn numbers_in_rows(row: SpecRow, id: u32)
    requires
        forall|part: SpecType| row_holds(row, part) ==> (#[trigger] metas(part).contains(id)
            <==> some_node(part, is_node(SpecType::Meta(id)))),
    ensures
        metas_in_row(row).contains(id) <==> some_node_in_row(row, is_node(SpecType::Meta(id))),
    decreases row.entries.len(),
{
    let test = is_node(SpecType::Meta(id));
    if row.entries.len() > 0 {
        let fewer = SpecRow { entries: row.entries.drop_last(), tail: row.tail };
        let last = row.entries[row.entries.len() - 1];
        assert forall|part: SpecType| row_holds(fewer, part) implies (#[trigger] metas(
            part,
        ).contains(id) <==> some_node(part, test)) by {
            let i = choose|i: int|
                0 <= i < fewer.entries.len() && entry_holds(#[trigger] fewer.entries[i], part);
            assert(entry_holds(row.entries[i], part));
        }
        numbers_in_rows(fewer, id);
        assert forall|part: SpecType| entry_holds(last, part) implies (#[trigger] metas(
            part,
        ).contains(id) <==> some_node(part, test)) by {
            assert(entry_holds(row.entries[row.entries.len() - 1], part));
        }
        if let SpecRowEntry::Tag { payload, .. } = last {
            assert forall|i: int| 0 <= i < payload.len() implies (metas(
                #[trigger] payload[i],
            ).contains(id) <==> some_node(payload[i], test)) by {
                assert(payload.contains(payload[i]));
                assert(entry_holds(last, payload[i]));
            }
            numbers_in_lists(payload, id);
            assert(metas_in_entry(last) == metas_in(payload));
        }
        if let SpecRowEntry::Field { ty, .. } = last {
            assert(entry_holds(last, ty));
            assert(metas(ty).contains(id) <==> some_node(ty, test));
            assert(metas_in_entry(last) == metas(ty));
        }
        if last is Literal {
            assert(metas_in_entry(last) == Seq::<u32>::empty());
        }
        assert(metas_in_entry(last).contains(id) <==> some_node_in_entry(last, test));
        joined_lists_contain_both(metas_in_entries(fewer.entries), metas_in_entry(last), id);
        assert(metas_in_entries(row.entries) == metas_in_entries(fewer.entries) + metas_in_entry(
            last,
        ));
        if some_node_in_row(fewer, test) {
            let i = choose|i: int|
                0 <= i < fewer.entries.len() && some_node_in_entry(
                    #[trigger] fewer.entries[i],
                    test,
                );
            assert(some_node_in_entry(row.entries[i], test));
        }
        if some_node_in_row(row, test) && !some_node_in_entry(last, test) {
            let i = choose|i: int|
                0 <= i < row.entries.len() && some_node_in_entry(#[trigger] row.entries[i], test);
            assert(some_node_in_entry(fewer.entries[i], test));
        }
    }
}

/// The unknown types that are listed of a type are those that occur in it.
pub proof fn unknown_types_are_listed(ty: SpecType, id: u32)
    ensures
        metas(ty).contains(id) <==> some_node(ty, is_node(SpecType::Meta(id))),
    decreases ty,
{
    let test = is_node(SpecType::Meta(id));
    assert forall|part: SpecType| is_part(ty, part) implies (#[trigger] metas(part).contains(id)
        <==> some_node(part, test)) by {
        parts_are_smaller(ty, part);
        unknown_types_are_listed(part, id);
    }
    match ty {
        SpecType::Meta(number) => {
            let numbers = metas(ty);
            assert(numbers == seq![number]);
            assert(numbers[0] == number);
            assert(some_node(ty, test) == test(ty));
            if number == id {
                assert(test(ty));
                assert(numbers.contains(id));
            } else {
                assert(!numbers.contains(id));
                assert(!test(ty));
            }
        },
        SpecType::Apply { callee, args } => {
            assert(is_part(ty, *callee));
            assert forall|i: int| 0 <= i < args.len() implies (metas(#[trigger] args[i]).contains(
                id,
            ) <==> some_node(args[i], test)) by {
                assert(args.contains(args[i]));
                assert(is_part(ty, args[i]));
            }
            numbers_in_lists(args, id);
            joined_lists_contain_both(metas(*callee), metas_in(args), id);
            assert(metas(ty) == metas(*callee) + metas_in(args));
            assert(some_node(ty, test) == (some_node(*callee, test) || some_node_in(args, test)));
        },
        SpecType::Function { params, result, .. } => {
            assert(is_part(ty, *result));
            assert forall|i: int| 0 <= i < params.len() implies (metas(
                #[trigger] params[i],
            ).contains(id) <==> some_node(params[i], test)) by {
                assert(params.contains(params[i]));
                assert(is_part(ty, params[i]));
            }
            numbers_in_lists(params, id);
            joined_lists_contain_both(metas_in(params), metas(*result), id);
            assert(metas(ty) == metas_in(params) + metas(*result));
            assert(some_node(ty, test) == (some_node_in(params, test) || some_node(*result, test)));
        },
        SpecType::Optional(inner) => {
            assert(is_part(ty, *inner));
            assert(metas(*inner).contains(id) <==> some_node(*inner, test));
            assert(metas(ty) == metas(*inner));
            assert(some_node(ty, test) == some_node(*inner, test));
        },
        SpecType::Nullable(inner) => {
            assert(is_part(ty, *inner));
            assert(metas(*inner).contains(id) <==> some_node(*inner, test));
            assert(metas(ty) == metas(*inner));
            assert(some_node(ty, test) == some_node(*inner, test));
        },
        SpecType::Tuple(items) => {
            assert forall|i: int| 0 <= i < items.len() implies (metas(
                #[trigger] items[i],
            ).contains(id) <==> some_node(items[i], test)) by {
                assert(items.contains(items[i]));
                assert(is_part(ty, items[i]));
            }
            numbers_in_lists(items, id);
            assert(metas(ty) == metas_in(items));
            assert(some_node(ty, test) == some_node_in(items, test));
        },
        SpecType::Record(row) => {
            assert forall|part: SpecType| row_holds(row, part) implies (#[trigger] metas(
                part,
            ).contains(id) <==> some_node(part, test)) by {
                assert(is_part(ty, part));
            }
            numbers_in_rows(row, id);
            assert(metas(ty) == metas_in_row(row));
            assert(some_node(ty, test) == some_node_in_row(row, test));
        },
        SpecType::Variant(row) => {
            assert forall|part: SpecType| row_holds(row, part) implies (#[trigger] metas(
                part,
            ).contains(id) <==> some_node(part, test)) by {
                assert(is_part(ty, part));
            }
            numbers_in_rows(row, id);
            assert(metas(ty) == metas_in_row(row));
            assert(some_node(ty, test) == some_node_in_row(row, test));
        },
        SpecType::SlotRecord { data, slots } => {
            assert forall|part: SpecType| row_holds(*data, part) implies (#[trigger] metas(
                part,
            ).contains(id) <==> some_node(part, test)) by {
                assert(is_part(ty, part));
            }
            assert forall|part: SpecType| row_holds(*slots, part) implies (#[trigger] metas(
                part,
            ).contains(id) <==> some_node(part, test)) by {
                assert(is_part(ty, part));
            }
            numbers_in_rows(*data, id);
            numbers_in_rows(*slots, id);
            joined_lists_contain_both(metas_in_row(*data), metas_in_row(*slots), id);
            assert(metas(ty) == metas_in_row(*data) + metas_in_row(*slots));
            assert(some_node(ty, test) == (some_node_in_row(*data, test) || some_node_in_row(
                *slots,
                test,
            )));
        },
        _ => {
            assert(metas(ty) == Seq::<u32>::empty());
            assert(some_node(ty, test) == test(ty));
        },
    }
}

// ---------------------------------------------------------------------------
// Normal forms
// ---------------------------------------------------------------------------
/// What a normal form holds no more of: a name that has a definition, or a layer that is
/// repeated or that stands in the wrong order.
pub open spec fn is_to_be_normalized(definitions: Map<Seq<char>, SpecType>) -> spec_fn(
    SpecType,
) -> bool {
    |node: SpecType|
        match node {
            SpecType::Named(name) => definitions.contains_key(name),
            SpecType::Optional(inner) => *inner is Optional,
            SpecType::Nullable(inner) => *inner is Nullable || *inner is Optional,
            _ => false,
        }
}

/// A type without defined names, and without layers to put in order, is its own normal form.
pub proof fn normal_types_stay(
    ty: SpecType,
    definitions: Map<Seq<char>, SpecType>,
    visited: Set<Seq<char>>,
)
    requires
        definitions.dom().finite(),
        !some_node(ty, is_to_be_normalized(definitions)),
    ensures
        normalized(ty, definitions, visited) == ty,
    decreases ty,
{
    let test = is_to_be_normalized(definitions);
    assert(!test(ty));
    match ty {
        SpecType::Apply { callee, args } => {
            normal_types_stay(*callee, definitions, visited);
            normal_lists_stay(args, definitions, visited);
        },
        SpecType::Function { params, result, .. } => {
            normal_lists_stay(params, definitions, visited);
            normal_types_stay(*result, definitions, visited);
        },
        SpecType::Optional(inner) => {
            normal_types_stay(*inner, definitions, visited);
        },
        SpecType::Nullable(inner) => {
            normal_types_stay(*inner, definitions, visited);
        },
        SpecType::Tuple(items) => {
            normal_lists_stay(items, definitions, visited);
        },
        SpecType::Record(row) => {
            normal_rows_stay(row, definitions, visited);
        },
        SpecType::Variant(row) => {
            normal_rows_stay(row, definitions, visited);
        },
        SpecType::SlotRecord { data, slots } => {
            normal_rows_stay(*data, definitions, visited);
            normal_rows_stay(*slots, definitions, visited);
        },
        _ => {},
    }
}

proof fn normal_lists_stay(
    types: Seq<SpecType>,
    definitions: Map<Seq<char>, SpecType>,
    visited: Set<Seq<char>>,
)
    requires
        definitions.dom().finite(),
        !some_node_in(types, is_to_be_normalized(definitions)),
    ensures
        normalized_all(types, definitions, visited) == types,
    decreases types,
{
    assert forall|i: int| 0 <= i < types.len() implies normalized(
        #[trigger] types[i],
        definitions,
        visited,
    ) == types[i] by {
        normal_types_stay(types[i], definitions, visited);
    }
    assert(normalized_all(types, definitions, visited) =~= types);
}

proof fn normal_entries_stay(
    entry: SpecRowEntry,
    definitions: Map<Seq<char>, SpecType>,
    visited: Set<Seq<char>>,
)
    requires
        definitions.dom().finite(),
        !some_node_in_entry(entry, is_to_be_normalized(definitions)),
    ensures
        normalized_entry(entry, definitions, visited) == entry,
    decreases entry,
{
    match entry {
        SpecRowEntry::Field { ty, .. } => {
            normal_types_stay(ty, definitions, visited);
        },
        SpecRowEntry::Tag { payload, .. } => {
            normal_lists_stay(payload, definitions, visited);
        },
        SpecRowEntry::Literal { .. } => {},
    }
}

proof fn normal_rows_stay(
    row: SpecRow,
    definitions: Map<Seq<char>, SpecType>,
    visited: Set<Seq<char>>,
)
    requires
        definitions.dom().finite(),
        !some_node_in_row(row, is_to_be_normalized(definitions)),
    ensures
        normalized_row(row, definitions, visited) == row,
    decreases row,
{
    assert forall|i: int| 0 <= i < row.entries.len() implies normalized_entry(
        #[trigger] row.entries[i],
        definitions,
        visited,
    ) == row.entries[i] by {
        normal_entries_stay(row.entries[i], definitions, visited);
    }
    assert(normalized_row(row, definitions, visited).entries =~= row.entries);
}

/// A name stands for its definition. A layer that admits an empty value still does in normal
/// form, and a normal form admits no other empty value than the type does.
pub proof fn normal_forms_admit_the_same(
    ty: SpecType,
    definitions: Map<Seq<char>, SpecType>,
    visited: Set<Seq<char>>,
    value: EmptyValue,
)
    requires
        definitions.dom().finite(),
    ensures
        ty is Named && !definitions.contains_key(ty->Named_0) ==> normalized(
            ty,
            definitions,
            visited,
        ) == ty,
        ty is Named && definitions.contains_key(ty->Named_0) && !visited.contains(ty->Named_0)
            ==> normalized(ty, definitions, visited) == normalized(
            definitions[ty->Named_0],
            definitions,
            visited.insert(ty->Named_0),
        ),
        admits(ty, value) ==> admits(normalized(ty, definitions, visited), value),
        !(peeled_payload(ty) is Named) ==> (admits(normalized(ty, definitions, visited), value)
            <==> admits(ty, value)),
        !(peeled_payload(ty) is Named) ==> peeled_payload(normalized(ty, definitions, visited))
            == normalized(peeled_payload(ty), definitions, visited),
    decreases ty,
{
    match ty {
        SpecType::Optional(inner) => {
            normal_forms_admit_the_same(*inner, definitions, visited, value);
            let below = normalized(*inner, definitions, visited);
            if let SpecType::Optional(payload) = below {
                assert(admits(below, EmptyValue::Undefined));
                assert(normalized(ty, definitions, visited) == below);
            }
        },
        SpecType::Nullable(inner) => {
            normal_forms_admit_the_same(*inner, definitions, visited, value);
            let below = normalized(*inner, definitions, visited);
            if let SpecType::Optional(payload) = below {
                let swapped = SpecType::Nullable(payload);
                assert(normalized(ty, definitions, visited) == SpecType::Optional(
                    Box::new(swapped),
                ));
                assert(admits(swapped, value) <==> value is Null || admits(*payload, value));
                assert(peeled_payload(swapped) == peeled_payload(*payload));
                assert(peeled_payload(SpecType::Optional(Box::new(swapped))) == peeled_payload(
                    swapped,
                ));
                assert(peeled_payload(below) == peeled_payload(*payload));
            }
        },
        _ => {},
    }
}

/// The normal form of a type whose definitions are none keeps its form.
pub proof fn names_without_definitions_stay(
    name: Seq<char>,
    definitions: Map<Seq<char>, SpecType>,
)
    requires
        definitions.dom().finite(),
        !definitions.contains_key(name),
    ensures
        normal_form(SpecType::Named(name), definitions) == SpecType::Named(name),
{
}

} // verus!
