//! What schemes quantify over, what methods types have, and what scopes hide.
use crate::lookup::{
    answers, attached_scheme, exact_scheme, first_answer, used_signature, without,
    SpecEnvironment, SpecMethodScheme,
};
use crate::methods::{SpecBuiltinMethod, SpecPredicate};
use crate::obligations::{
    ambiguous_meta, bound_predicates, divisor_evidence, is_rejected, is_relational, is_supported,
    obligation_step_for, predicate_metas, qualified, quantified, quantified_over,
    some_predicate_has, with_call_types, ObligationStep,
};
use crate::schemes::{
    global_scheme, meta_bindings, mono_scheme, occurrences, occurrences_in, occurrences_in_entries,
    occurrences_in_entry, variable_order, with_metas, with_name, SpecScheme,
};
use crate::type_laws::{is_part, parts_are_smaller};
use crate::type_ops::{
    is_node, mapped, mapped_all, mapped_entry, mapped_row, metas, some_node, some_node_in, some_node_in_entry, some_node_in_row, substituted,
};
use crate::types::{RowTail, SpecRow, SpecRowEntry, SpecType};
use vstd::prelude::*;

verus! {

// ---------------------------------------------------------------------------
// Type variables
// ---------------------------------------------------------------------------
proof fn names_are_added(names: Seq<Seq<char>>, more: Seq<char>, name: Seq<char>)
    ensures
        with_name(names, more).contains(name) <==> names.contains(name) || name == more,
        names.no_duplicates() ==> with_name(names, more).no_duplicates(),
{
    let after = with_name(names, more);
    if !names.contains(more) {
        assert(after == names.push(more));
        assert(after[names.len() as int] == more);
        if names.contains(name) {
            let i = choose|i: int| 0 <= i < names.len() && names[i] == name;
            assert(after[i] == name);
        }
        if after.contains(name) && name != more {
            let i = choose|i: int| 0 <= i < after.len() && after[i] == name;
            assert(names[i] == name);
        }
    }
}

proof fn occurrences_are_listed(ty: SpecType, names: Seq<Seq<char>>, name: Seq<char>)
    ensures
        occurrences(ty, names).contains(name) <==> names.contains(name) || some_node(
            ty,
            is_node(SpecType::Variable(name)),
        ),
        names.no_duplicates() ==> occurrences(ty, names).no_duplicates(),
    decreases ty,
{
    let test = is_node(SpecType::Variable(name));
    match ty {
        SpecType::Variable(own) => {
            names_are_added(names, own, name);
            assert(some_node(ty, test) == test(ty));
        },
        SpecType::Apply { callee, args } => {
            occurrences_are_listed(*callee, names, name);
            let after = occurrences(*callee, names);
            occurrences_in_lists(args, after, name);
            assert(occurrences(ty, names) == occurrences_in(args, after));
            assert(some_node(ty, test) == (some_node(*callee, test) || some_node_in(args, test)));
        },
        SpecType::Function { params, result, .. } => {
            occurrences_in_lists(params, names, name);
            let after = occurrences_in(params, names);
            occurrences_are_listed(*result, after, name);
            assert(occurrences(ty, names) == occurrences(*result, after));
            assert(some_node(ty, test) == (some_node_in(params, test) || some_node(
                *result,
                test,
            )));
        },
        SpecType::Optional(inner) => {
            occurrences_are_listed(*inner, names, name);
            assert(some_node(ty, test) == some_node(*inner, test));
        },
        SpecType::Nullable(inner) => {
            occurrences_are_listed(*inner, names, name);
            assert(some_node(ty, test) == some_node(*inner, test));
        },
        SpecType::Tuple(items) => {
            occurrences_in_lists(items, names, name);
            assert(some_node(ty, test) == some_node_in(items, test));
        },
        SpecType::Record(row) => {
            occurrences_in_rows(row, names, name);
            assert(some_node(ty, test) == some_node_in_row(row, test));
        },
        SpecType::Variant(row) => {
            occurrences_in_rows(row, names, name);
            assert(some_node(ty, test) == some_node_in_row(row, test));
        },
        SpecType::SlotRecord { data, slots } => {
            occurrences_in_rows(*data, names, name);
            let after = occurrences_in_entries(data.entries, names);
            occurrences_in_rows(*slots, after, name);
            assert(occurrences(ty, names) == occurrences_in_entries(slots.entries, after));
            assert(some_node(ty, test) == (some_node_in_row(*data, test) || some_node_in_row(
                *slots,
                test,
            )));
        },
        _ => {
            assert(some_node(ty, test) == test(ty));
        },
    }
}

proof fn occurrences_in_lists(types: Seq<SpecType>, names: Seq<Seq<char>>, name: Seq<char>)
    ensures
        occurrences_in(types, names).contains(name) <==> names.contains(name) || some_node_in(
            types,
            is_node(SpecType::Variable(name)),
        ),
        names.no_duplicates() ==> occurrences_in(types, names).no_duplicates(),
    decreases types,
{
    let test = is_node(SpecType::Variable(name));
    if types.len() > 0 {
        let fewer = types.drop_last();
        let last = types[types.len() - 1];
        occurrences_in_lists(fewer, names, name);
        occurrences_are_listed(last, occurrences_in(fewer, names), name);
        assert(occurrences_in(types, names) == occurrences(last, occurrences_in(fewer, names)));
        if some_node_in(fewer, test) {
            let i = choose|i: int| 0 <= i < fewer.len() && some_node(#[trigger] fewer[i], test);
            assert(some_node(types[i], test));
        }
        if some_node_in(types, test) && !some_node(last, test) {
            let i = choose|i: int| 0 <= i < types.len() && some_node(#[trigger] types[i], test);
            assert(some_node(fewer[i], test));
        }
    }
}

proof fn occurrences_in_entry_are_listed(
    entry: SpecRowEntry,
    names: Seq<Seq<char>>,
    name: Seq<char>,
)
    ensures
        occurrences_in_entry(entry, names).contains(name) <==> names.contains(name)
            || some_node_in_entry(entry, is_node(SpecType::Variable(name))),
        names.no_duplicates() ==> occurrences_in_entry(entry, names).no_duplicates(),
    decreases entry,
{
    match entry {
        SpecRowEntry::Field { ty, .. } => {
            occurrences_are_listed(ty, names, name);
        },
        SpecRowEntry::Tag { payload, .. } => {
            occurrences_in_lists(payload, names, name);
        },
        SpecRowEntry::Literal { .. } => {},
    }
}

proof fn occurrences_in_rows(row: SpecRow, names: Seq<Seq<char>>, name: Seq<char>)
    ensures
        occurrences_in_entries(row.entries, names).contains(name) <==> names.contains(name)
            || some_node_in_row(row, is_node(SpecType::Variable(name))),
        names.no_duplicates() ==> occurrences_in_entries(row.entries, names).no_duplicates(),
    decreases row,
{
    occurrences_in_many(row.entries, names, name);
    let test = is_node(SpecType::Variable(name));
    assert(some_node_in_row(row, test) == exists|i: int|
        0 <= i < row.entries.len() && some_node_in_entry(#[trigger] row.entries[i], test));
}

proof fn occurrences_in_many(entries: Seq<SpecRowEntry>, names: Seq<Seq<char>>, name: Seq<char>)
    ensures
        occurrences_in_entries(entries, names).contains(name) <==> names.contains(name) || exists|
            i: int,
        |
            0 <= i < entries.len() && some_node_in_entry(
                #[trigger] entries[i],
                is_node(SpecType::Variable(name)),
            ),
        names.no_duplicates() ==> occurrences_in_entries(entries, names).no_duplicates(),
    decreases entries,
{
    let test = is_node(SpecType::Variable(name));
    if entries.len() > 0 {
        let fewer = entries.drop_last();
        let last = entries[entries.len() - 1];
        occurrences_in_many(fewer, names, name);
        occurrences_in_entry_are_listed(last, occurrences_in_entries(fewer, names), name);
        assert(occurrences_in_entries(entries, names) == occurrences_in_entry(
            last,
            occurrences_in_entries(fewer, names),
        ));
        if exists|i: int|
            0 <= i < fewer.len() && some_node_in_entry(#[trigger] fewer[i], test) {
            let i = choose|i: int|
                0 <= i < fewer.len() && some_node_in_entry(#[trigger] fewer[i], test);
            assert(some_node_in_entry(entries[i], test));
        }
        if exists|i: int|
            0 <= i < entries.len() && some_node_in_entry(#[trigger] entries[i], test) {
            let i = choose|i: int|
                0 <= i < entries.len() && some_node_in_entry(#[trigger] entries[i], test);
            if i < fewer.len() {
                assert(some_node_in_entry(fewer[i], test));
            }
        }
    }
}

/// The type variables of a type are listed each once.
pub proof fn variables_are_listed_once(ty: SpecType, name: Seq<char>)
    ensures
        variable_order(ty).contains(name) <==> some_node(ty, is_node(SpecType::Variable(name))),
        variable_order(ty).no_duplicates(),
{
    occurrences_are_listed(ty, Seq::empty(), name);
}

/// Names get unknown types one after the other.
pub proof fn names_get_numbers_in_order(names: Seq<Seq<char>>, first: int, index: int)
    requires
        names.no_duplicates(),
        0 <= index < names.len(),
    ensures
        meta_bindings(names, first).contains_key(names[index]),
        meta_bindings(names, first)[names[index]] == SpecType::Meta((first + index) as u32),
    decreases names.len(),
{
    if index < names.len() - 1 {
        let fewer = names.drop_last();
        assert(fewer[index] == names[index]);
        assert(fewer.no_duplicates());
        names_get_numbers_in_order(fewer, first, index);
        assert(names[index] != names.last());
    }
}

proof fn only_names_get_numbers(names: Seq<Seq<char>>, first: int, name: Seq<char>)
    ensures
        meta_bindings(names, first).contains_key(name) <==> names.contains(name),
        names.contains(name) ==> meta_bindings(names, first)[name] is Meta,
    decreases names.len(),
{
    if names.len() > 0 {
        let fewer = names.drop_last();
        only_names_get_numbers(fewer, first, name);
        if fewer.contains(name) {
            let i = choose|i: int| 0 <= i < fewer.len() && fewer[i] == name;
            assert(names[i] == name);
        }
        if names.contains(name) && name != names.last() {
            let i = choose|i: int| 0 <= i < names.len() && names[i] == name;
            assert(fewer[i] == name);
        }
        if name == names.last() {
            assert(names[names.len() - 1] == name);
        }
    }
}

/// The scheme of a type quantifies over its type variables and has none left; a type without
/// variables is its own scheme.
pub proof fn schemes_quantify_over_variables(ty: SpecType, first: u32, name: Seq<char>)
    ensures
        !some_node(global_scheme(ty, first).ty, is_node(SpecType::Variable(name))),
        global_scheme(ty, first).vars.len() == variable_order(ty).len(),
        global_scheme(ty, first).predicates.len() == 0,
        variable_order(ty).len() == 0 ==> global_scheme(ty, first).ty == ty,
        mono_scheme(ty).ty == ty,
        mono_scheme(ty).vars.len() == 0,
        mono_scheme(ty).row_vars.len() == 0,
        mono_scheme(ty).predicates.len() == 0,
{
    let names = variable_order(ty);
    let bindings = meta_bindings(names, first as int);
    variables_are_listed_once(ty, name);
    only_names_get_numbers(names, first as int, name);
    crate::type_laws::variables_are_replaced(ty, bindings, name);
    let test = is_node(SpecType::Variable(name));
    assert forall|bound: Seq<char>| #[trigger] bindings.contains_key(bound) implies !some_node(
        bindings[bound],
        test,
    ) by {
        only_names_get_numbers(names, first as int, bound);
        assert(bindings[bound] is Meta);
        assert(some_node(bindings[bound], test) == test(bindings[bound]));
    }
    if !names.contains(name) {
        let rule = crate::type_ops::substitution_rule(bindings);
        variables_do_not_appear(ty, bindings, name);
    }
    if names.len() == 0 {
        assert forall|bound: Seq<char>| #[trigger] bindings.contains_key(bound) implies !some_node(
            ty,
            is_node(SpecType::Variable(bound)),
        ) by {}
        crate::type_laws::variables_are_replaced(ty, bindings, name);
    }
}

proof fn variables_do_not_appear(
    ty: SpecType,
    bindings: Map<Seq<char>, SpecType>,
    name: Seq<char>,
)
    requires
        !some_node(ty, is_node(SpecType::Variable(name))),
        forall|bound: Seq<char>| #[trigger] bindings.contains_key(bound) ==> !some_node(
            bindings[bound],
            is_node(SpecType::Variable(name)),
        ),
    ensures
        !some_node(substituted(ty, bindings), is_node(SpecType::Variable(name))),
{
    let test = is_node(SpecType::Variable(name));
    let more = bindings.insert(name, SpecType::Deferred);
    assert(some_node(SpecType::Deferred, test) == test(SpecType::Deferred));
    assert forall|bound: Seq<char>| #[trigger] more.contains_key(bound) implies !some_node(
        more[bound],
        test,
    ) by {
        if bound != name {
            assert(bindings.contains_key(bound));
        }
    }
    crate::type_laws::variables_are_replaced(ty, more, name);
    absent_names_do_not_matter(ty, bindings, name, SpecType::Deferred);
}

proof fn absent_names_do_not_matter(
    ty: SpecType,
    bindings: Map<Seq<char>, SpecType>,
    name: Seq<char>,
    other: SpecType,
)
    requires
        !some_node(ty, is_node(SpecType::Variable(name))),
    ensures
        substituted(ty, bindings.insert(name, other)) == substituted(ty, bindings),
    decreases ty,
{
    let test = is_node(SpecType::Variable(name));
    let more = bindings.insert(name, other);
    let first = crate::type_ops::substitution_rule(bindings);
    let second = crate::type_ops::substitution_rule(more);
    assert(!test(ty));
    assert forall|part: SpecType| is_part(ty, part) implies #[trigger] mapped(part, second)
        == mapped(part, first) by {
        crate::type_laws::searches_reach_every_part(ty, test);
        if some_node(part, test) {
            assert(is_part(ty, part) && some_node(part, test));
        }
        parts_are_smaller(ty, part);
        absent_names_do_not_matter(part, bindings, name, other);
    }
    assert(first(ty) == second(ty));
    match ty {
        SpecType::Apply { callee, args } => {
            assert(is_part(ty, *callee));
            assert(mapped(*callee, second) == mapped(*callee, first));
            same_lists(ty, args, first, second);
        },
        SpecType::Function { params, result, .. } => {
            assert(is_part(ty, *result));
            assert(mapped(*result, second) == mapped(*result, first));
            same_lists(ty, params, first, second);
        },
        SpecType::Optional(inner) => {
            assert(is_part(ty, *inner));
            assert(mapped(*inner, second) == mapped(*inner, first));
        },
        SpecType::Nullable(inner) => {
            assert(is_part(ty, *inner));
            assert(mapped(*inner, second) == mapped(*inner, first));
        },
        SpecType::Tuple(items) => {
            same_lists(ty, items, first, second);
        },
        SpecType::Record(row) => {
            same_rows(ty, row, first, second);
        },
        SpecType::Variant(row) => {
            same_rows(ty, row, first, second);
        },
        SpecType::SlotRecord { data, slots } => {
            same_rows(ty, *data, first, second);
            same_rows(ty, *slots, first, second);
        },
        _ => {},
    }
}

proof fn same_lists(
    ty: SpecType,
    types: Seq<SpecType>,
    first: spec_fn(SpecType) -> Option<SpecType>,
    second: spec_fn(SpecType) -> Option<SpecType>,
)
    requires
        forall|part: SpecType| types.contains(part) ==> is_part(ty, part),
        forall|part: SpecType| is_part(ty, part) ==> #[trigger] mapped(part, second)
            == mapped(part, first),
    ensures
        mapped_all(types, second) == mapped_all(types, first),
{
    assert forall|i: int| 0 <= i < types.len() implies mapped(
        #[trigger] types[i],
        second,
    ) == mapped(types[i], first) by {
        assert(types.contains(types[i]));
    }
    assert(mapped_all(types, second) =~= mapped_all(
        types,
        first,
    ));
}

proof fn same_rows(
    ty: SpecType,
    row: SpecRow,
    first: spec_fn(SpecType) -> Option<SpecType>,
    second: spec_fn(SpecType) -> Option<SpecType>,
)
    requires
        forall|part: SpecType| crate::type_laws::row_holds(row, part) ==> is_part(ty, part),
        forall|part: SpecType| is_part(ty, part) ==> #[trigger] mapped(part, second)
            == mapped(part, first),
    ensures
        mapped_row(row, second) == mapped_row(row, first),
{
    assert forall|i: int| 0 <= i < row.entries.len() implies mapped_entry(
        #[trigger] row.entries[i],
        second,
    ) == mapped_entry(row.entries[i], first) by {
        let entry = row.entries[i];
        match entry {
            SpecRowEntry::Field { ty: field, .. } => {
                assert(crate::type_laws::entry_holds(row.entries[i], field));
                assert(crate::type_laws::row_holds(row, field));
                assert(mapped(field, second) == mapped(field, first));
                assert(mapped_entry(entry, second) == mapped_entry(entry, first));
            },
            SpecRowEntry::Tag { payload, .. } => {
                assert forall|part: SpecType| payload.contains(part) implies is_part(ty, part) by {
                    assert(crate::type_laws::entry_holds(row.entries[i], part));
                    assert(crate::type_laws::row_holds(row, part));
                }
                same_lists(ty, payload, first, second);
                assert(mapped_entry(entry, second) == mapped_entry(entry, first));
            },
            SpecRowEntry::Literal { .. } => {
                assert(mapped_entry(entry, second) == mapped_entry(entry, first));
            },
        }
    }
    assert(mapped_row(row, second).entries =~= mapped_row(
        row,
        first,
    ).entries);
}

/// A name that has an unknown type keeps it, one that belongs to a declaration gets none, and
/// every other name gets one.
pub proof fn names_keep_their_numbers(
    known: Map<Seq<char>, SpecType>,
    names: Seq<Seq<char>>,
    rigid: Set<Seq<char>>,
    first: int,
    name: Seq<char>,
)
    ensures
        ({
            let after = with_metas(known, names, rigid, first).0;
            &&& known.contains_key(name) ==> after.contains_key(name) && after[name] == known[name]
            &&& rigid.contains(name) && !known.contains_key(name) ==> !after.contains_key(name)
            &&& names.contains(name) && !rigid.contains(name) ==> after.contains_key(name)
            &&& !names.contains(name) && !known.contains_key(name) ==> !after.contains_key(name)
        }),
    decreases names.len(),
{
    if names.len() > 0 {
        let fewer = names.drop_last();
        names_keep_their_numbers(known, fewer, rigid, first, name);
        if fewer.contains(name) {
            let i = choose|i: int| 0 <= i < fewer.len() && fewer[i] == name;
            assert(names[i] == name);
        }
        if names.contains(name) && name != names.last() {
            let i = choose|i: int| 0 <= i < names.len() && names[i] == name;
            assert(fewer[i] == name);
        }
        if name == names.last() {
            assert(names[names.len() - 1] == name);
        }
    }
}

// ---------------------------------------------------------------------------
// Requirements
// ---------------------------------------------------------------------------
/// The unknown types that a scheme comes to quantify over are those that it had and those of a
/// list that its surroundings do not have, each once.
pub proof fn surroundings_are_not_quantified(
    vars: Seq<u32>,
    ids: Seq<u32>,
    env: Seq<u32>,
    id: u32,
)
    ensures
        quantified(vars, ids, env).contains(id) <==> vars.contains(id) || ids.contains(id)
            && !env.contains(id),
        vars.no_duplicates() ==> quantified(vars, ids, env).no_duplicates(),
    decreases ids.len(),
{
    if ids.len() > 0 {
        let fewer = ids.drop_last();
        let earlier = quantified(vars, fewer, env);
        let after = quantified(vars, ids, env);
        surroundings_are_not_quantified(vars, fewer, env, id);
        if fewer.contains(id) {
            let i = choose|i: int| 0 <= i < fewer.len() && fewer[i] == id;
            assert(ids[i] == id);
        }
        if ids.contains(id) && id != ids.last() {
            let i = choose|i: int| 0 <= i < ids.len() && ids[i] == id;
            assert(fewer[i] == id);
        }
        if id == ids.last() {
            assert(ids[ids.len() - 1] == id);
        }
        if after != earlier {
            assert(after == earlier.push(ids.last()));
            assert(after[after.len() - 1] == ids.last());
            if earlier.contains(id) {
                let i = choose|i: int| 0 <= i < earlier.len() && earlier[i] == id;
                assert(after[i] == id);
            }
            if after.contains(id) && id != ids.last() {
                let i = choose|i: int| 0 <= i < after.len() && after[i] == id;
                assert(earlier[i] == id);
            }
        }
    }
}

proof fn ambiguous_types_are_not_in_the_type(
    vars: Seq<u32>,
    ty: SpecType,
    predicates: Seq<SpecPredicate>,
    from: int,
)
    requires
        0 <= from <= vars.len(),
    ensures
        match ambiguous_meta(vars, ty, predicates, from) {
            Some(id) => vars.contains(id) && !metas(ty).contains(id) && some_predicate_has(
                predicates,
                id,
            ),
            None => forall|i: int|
                from <= i < vars.len() ==> metas(ty).contains(#[trigger] vars[i])
                    || !some_predicate_has(predicates, vars[i]),
        },
    decreases vars.len() - from,
{
    if from < vars.len() {
        if !metas(ty).contains(vars[from]) && some_predicate_has(predicates, vars[from]) {
            assert(vars.contains(vars[from]));
        } else {
            ambiguous_types_are_not_in_the_type(vars, ty, predicates, from + 1);
        }
    }
}

/// A qualified scheme keeps its type. It requires nothing that relates other unknown types, and
/// what it rejects does. An unknown type that a requirement has and the type has not is
/// ambiguous; neither the scheme nor a requirement that it keeps has it any more.
pub proof fn qualified_schemes_require_what_they_can(
    scheme: SpecScheme,
    predicates: Seq<SpecPredicate>,
    binding: Option<Seq<char>>,
    env: Seq<u32>,
    index: int,
)
    ensures
        ({
            let whole = qualified(scheme, predicates, binding, env);
            let kept = whole.scheme.predicates;
            &&& whole.scheme.ty == scheme.ty
            &&& 0 <= index < kept.len() ==> !is_relational(kept[index])
            &&& 0 <= index < whole.rejected.len() ==> is_relational(whole.rejected[index])
            &&& whole.ambiguous is Some ==> {
                let id = whole.ambiguous->0;
                &&& !metas(scheme.ty).contains(id)
                &&& !whole.scheme.vars.contains(id)
                &&& 0 <= index < kept.len() ==> !predicate_metas(kept[index]).contains(id)
            }
        }),
{
    broadcast use vstd::seq_lib::group_filter_ensures;

    let whole = qualified(scheme, predicates, binding, env);
    let bound = bound_predicates(predicates, binding);
    let supported = bound.filter(is_supported());
    let vars = quantified_over(scheme.vars, supported, env);
    let kept = whole.scheme.predicates;
    ambiguous_types_are_not_in_the_type(vars, scheme.ty, supported, 0);
    assert forall|i: int| 0 <= i < supported.len() implies !is_relational(
        #[trigger] supported[i],
    ) by {
        bound.lemma_filter_pred(is_supported(), i);
    }
    if 0 <= index < whole.rejected.len() {
        bound.lemma_filter_pred(is_rejected(), index);
    }
    if let Some(id) = whole.ambiguous {
        let lacks = crate::obligations::lacks_meta(id);
        let others = crate::obligations::is_not(id);
        assert(kept == supported.filter(lacks));
        if 0 <= index < kept.len() {
            supported.lemma_filter_pred(lacks, index);
            supported.lemma_filter_contains_rev(lacks, kept[index]);
            let i = choose|i: int| 0 <= i < supported.len() && supported[i] == kept[index];
            assert(!is_relational(supported[i]));
        }
        if whole.scheme.vars.contains(id) {
            let i = choose|i: int|
                0 <= i < whole.scheme.vars.len() && whole.scheme.vars[i] == id;
            vars.lemma_filter_pred(others, i);
        }
    }
}

/// A requirement waits as long as its candidate is not known. Once nothing more will be known,
/// one that is not known is reported; a candidate that is known is looked at.
pub proof fn requirements_wait_for_their_candidate(candidate: SpecType, finalizing: bool)
    ensures
        candidate is Meta || candidate is Variable ==> obligation_step_for(candidate, finalizing)
            == ObligationStep::Keep,
        candidate is Deferred ==> obligation_step_for(candidate, finalizing) == (if finalizing {
            ObligationStep::ReportUnresolved
        } else {
            ObligationStep::Keep
        }),
        crate::type_ops::resolved(candidate) ==> obligation_step_for(candidate, finalizing)
            == ObligationStep::Discharge,
{
    let test = crate::type_ops::is_unresolved();
    assert(candidate is Meta ==> test(candidate));
    assert(candidate is Variable ==> test(candidate));
    assert(candidate is Deferred ==> test(candidate));
}

/// What is known of a divisor are the numbers that its type lists, though more may be unified
/// with it; every other type is as it is.
pub proof fn divisors_keep_their_numbers(ty: SpecType)
    ensures
        crate::operator_laws::lists_numbers(ty) && ty->Variant_0.tail is Var
            ==> divisor_evidence(ty) == SpecType::Variant(
            SpecRow { entries: ty->Variant_0.entries, tail: RowTail::Closed },
        ),
        !crate::operator_laws::lists_numbers(ty) ==> divisor_evidence(ty) == ty,
        ty is Variant && !(ty->Variant_0.tail is Var) ==> divisor_evidence(ty) == ty,
{
    crate::operator_laws::literals_have_their_base(ty);
}

/// A call gives the type of an argument to the requirements that it made and whose divisor the
/// argument is, and changes nothing else.
pub proof fn calls_tell_about_their_divisors(
    predicate: SpecPredicate,
    start: nat,
    end: nat,
    types: Seq<SpecType>,
)
    ensures
        ({
            let after = with_call_types(predicate, start, end, types);
            &&& after.candidate == predicate.candidate
            &&& after.member == predicate.member
            &&& after.params == predicate.params
            &&& after.result == predicate.result
            &&& after.obligation_id == predicate.obligation_id
            &&& predicate.obligation_id is None ==> after == predicate
            &&& predicate.divisor_context is None ==> after == predicate
            &&& predicate.obligation_id is Some && !(start <= predicate.obligation_id->0 < end)
                ==> after == predicate
            &&& predicate.obligation_id is Some && start <= predicate.obligation_id->0 < end
                && predicate.divisor_context is Some
                && (predicate.divisor_context->0).parameter_index is Some
                && (predicate.divisor_context->0).parameter_index->0 < types.len() ==> {
                &&& after.divisor_context is Some
                &&& (after.divisor_context->0).right_type
                    == types[(predicate.divisor_context->0).parameter_index->0 as int]
            }
        }),
{
}

// ---------------------------------------------------------------------------
// Methods
// ---------------------------------------------------------------------------
/// A family has the methods that are listed for it, by whatever name it goes.
pub proof fn families_have_their_methods(
    env: SpecEnvironment,
    name: Seq<char>,
    member: Seq<char>,
)
    requires
        env.aliases.contains_key(name),
        env.families.contains_key(env.aliases[name]),
        env.families[env.aliases[name]].methods.contains_key(member),
    ensures
        ({
            let method = env.families[env.aliases[name]].methods[member];
            let found = exact_scheme(env, SpecType::Named(name), member);
            &&& found is Some
            &&& (found->0).params == method.params
            &&& (found->0).result == method.result
            &&& (found->0).constraints == method.constraints
            &&& (found->0).variables == method.variables
            &&& (found->0).bindings == Map::<Seq<char>, SpecType>::empty()
            &&& (found->0).member == member
        }),
{
}

proof fn first_answers_are_first(
    methods: Seq<SpecBuiltinMethod>,
    owner: SpecType,
    member: Seq<char>,
    from: int,
)
    requires
        0 <= from <= methods.len(),
    ensures
        match first_answer(methods, owner, member, from) {
            Some(index) => from <= index < methods.len() && answers(methods[index], owner, member)
                && forall|i: int|
                from <= i < index ==> !answers(#[trigger] methods[i], owner, member),
            None => forall|i: int|
                from <= i < methods.len() ==> !answers(#[trigger] methods[i], owner, member),
        },
    decreases methods.len() - from,
{
    if from < methods.len() && !answers(methods[from], owner, member) {
        first_answers_are_first(methods, owner, member, from + 1);
    }
}

/// A builtin type that is no family has the first method that is attached to it under a name,
/// and only where none is the one that is built in.
pub proof fn attached_methods_come_first(
    env: SpecEnvironment,
    name: Seq<char>,
    member: Seq<char>,
    index: int,
)
    requires
        !env.aliases.contains_key(name),
    ensures
        ({
            let owner = SpecType::Named(name);
            let found = exact_scheme(env, owner, member);
            &&& 0 <= index < env.attached.len() && answers(env.attached[index], owner, member) && (
            forall|i: int|
                0 <= i < index ==> !answers(#[trigger] env.attached[i], owner, member)) ==> found
                == Some(attached_scheme(env.attached[index], owner))
            &&& (forall|i: int|
                0 <= i < env.attached.len() ==> !answers(
                    #[trigger] env.attached[i],
                    owner,
                    member,
                )) ==> match crate::builtin_methods::builtin_signature(owner, member) {
                Some(signature) => found is Some && (found->0).params == signature.params && (
                found->0).result == signature.result && (found->0).member == member,
                None => found is None,
            }
        }),
{
    let owner = SpecType::Named(name);
    assert(mapped(owner, crate::type_ops::literal_rule()) == owner);
    first_answers_are_first(env.attached, owner, member, 0);
}

/// A method that has no variables is used as it is declared.
pub proof fn plain_methods_are_used_as_declared(scheme: SpecMethodScheme, first: u32)
    requires
        scheme.variables.len() == 0,
        scheme.bindings == Map::<Seq<char>, SpecType>::empty(),
    ensures
        used_signature(scheme, first).params == scheme.params,
        used_signature(scheme, first).result == scheme.result,
        used_signature(scheme, first).predicates.len() == scheme.constraints.len(),
{
    let bindings = crate::lookup::use_bindings(scheme, first);
    assert(bindings =~= Map::<Seq<char>, SpecType>::empty());
    crate::type_laws::variables_are_replaced(scheme.result, bindings, Seq::empty());
    let params = used_signature(scheme, first).params;
    assert(params.len() == scheme.params.len());
    assert forall|i: int| 0 <= i < params.len() implies #[trigger] params[i] == scheme.params[i] by {
        crate::type_laws::variables_are_replaced(scheme.params[i], bindings, Seq::empty());
    }
    assert(params =~= scheme.params);
}

/// Names are taken out of a list where they are in a set, and kept otherwise.
pub proof fn names_are_taken_out(names: Seq<Seq<char>>, removed: Set<Seq<char>>, name: Seq<char>)
    ensures
        without(names, removed).contains(name) <==> names.contains(name) && !removed.contains(name),
    decreases names.len(),
{
    if names.len() > 0 {
        let fewer = names.drop_last();
        let earlier = without(fewer, removed);
        let after = without(names, removed);
        names_are_taken_out(fewer, removed, name);
        if fewer.contains(name) {
            let i = choose|i: int| 0 <= i < fewer.len() && fewer[i] == name;
            assert(names[i] == name);
        }
        if names.contains(name) && name != names.last() {
            let i = choose|i: int| 0 <= i < names.len() && names[i] == name;
            assert(fewer[i] == name);
        }
        if name == names.last() {
            assert(names[names.len() - 1] == name);
        }
        if after != earlier {
            assert(after == earlier.push(names.last()));
            assert(after[after.len() - 1] == names.last());
            if earlier.contains(name) {
                let i = choose|i: int| 0 <= i < earlier.len() && earlier[i] == name;
                assert(after[i] == name);
            }
            if after.contains(name) && name != names.last() {
                let i = choose|i: int| 0 <= i < after.len() && after[i] == name;
                assert(earlier[i] == name);
            }
        }
    }
}

// ---------------------------------------------------------------------------
// Scopes
// ---------------------------------------------------------------------------
/// The innermost scope that has a name decides what the name stands for.
pub proof fn inner_scopes_hide_outer_ones(
    scopes: Seq<Map<Seq<char>, SpecType>>,
    inner: Map<Seq<char>, SpecType>,
    name: Seq<char>,
)
    ensures
        crate::bodies::nearest_type(scopes.push(inner), name) == (if inner.contains_key(name) {
            Some(inner[name])
        } else {
            crate::bodies::nearest_type(scopes, name)
        }),
        crate::bodies::nearest_type(Seq::empty(), name) is None,
{
    assert(scopes.push(inner).drop_last() =~= scopes);
}

} // verus!
