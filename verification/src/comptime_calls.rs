//! Calls that are evaluated while types are checked.
use crate::baked::HostComptimeParam;
use crate::collections::{bound_key_is_listed, increasing, insert_name, StringMap, StringSet};
use crate::comparison::{check_literal_value_against_variant, literal_step, LiteralStep};
use crate::matches::owned_literals_view;
use crate::reports::{list_names, listed};
use crate::rows::{field_type, label_literal, row_field_type, ComptimeValue};
use crate::syntax::{
    call_callee_name, callee_name, expr_name, is_union, name_of, string_view, text_view, ungroup_expr, ungrouped,
    union_annotation_entries, union_entries, union_entries_view, written_set, Expr, ExprKind,
    Param, RecordEntry, SpecUnionEntry, UnionEntry,
};
use crate::text::{
    begins_lowercase, begins_uppercase, concat3, decimal, same_text, starts_lowercase,
    starts_uppercase, texts_view, unsigned_text,
};
use crate::type_ops::{is_resolved_value_type, resolved, type_map_view};
use crate::types::{
    types_view, Literal, Row, RowEntry, SpecLiteral, SpecRow, SpecRowEntry, SpecType, Type,
};
use vstd::prelude::*;

verus! {

// ---------------------------------------------------------------------------
// Values in scope
// ---------------------------------------------------------------------------
/// The value of a name in the innermost scope that has one.
pub open spec fn nearest_value(scopes: Seq<StringMap<ComptimeValue>>, name: Seq<char>) -> Option<
    ComptimeValue,
>
    decreases scopes.len(),
{
    if scopes.len() == 0 {
        None
    } else if scopes.last()@.contains_key(name) {
        Some(scopes.last()@[name])
    } else {
        nearest_value(scopes.drop_last(), name)
    }
}

/// The value of a name in the innermost scope that has one.
pub fn lookup_comptime_value<'a>(scopes: &'a Vec<StringMap<ComptimeValue>>, name: &str) -> (value: Option<
    &'a ComptimeValue,
>)
    ensures
        match value {
            Some(value) => nearest_value(scopes@, name@) == Some(*value),
            None => nearest_value(scopes@, name@) is None,
        },
{
    let ghost all = scopes@;
    let mut index: usize = scopes.len();
    assert(all.take(all.len() as int) =~= all);
    while index > 0
        invariant
            index <= scopes.len(),
            all == scopes@,
            nearest_value(all, name@) == nearest_value(all.take(index as int), name@),
        decreases index,
    {
        index -= 1;
        proof {
            let longer = all.take(index + 1);
            assert(longer.drop_last() =~= all.take(index as int));
            assert(longer.last() == scopes@[index as int]);
        }
        if let Some(value) = scopes[index].get(name) {
            return Some(value);
        }
    }
    None
}

/// The values of all names in scope: an inner scope hides outer ones.
pub fn current_comptime_value_bindings<'a>(scopes: &'a Vec<StringMap<ComptimeValue>>) -> (bindings:
    StringMap<&'a ComptimeValue>)
    ensures
        forall|name: Seq<char>| #[trigger]
            bindings@.contains_key(name) == (nearest_value(scopes@, name) is Some),
        forall|name: Seq<char>| #[trigger]
            bindings@.contains_key(name) ==> nearest_value(scopes@, name) == Some(
                *bindings@[name],
            ),
{
    let ghost all = scopes@;
    let mut bindings: StringMap<&'a ComptimeValue> = StringMap::new();
    let mut index: usize = 0;
    while index < scopes.len()
        invariant
            index <= scopes.len(),
            all == scopes@,
            forall|name: Seq<char>| #[trigger]
                bindings@.contains_key(name) == (nearest_value(all.take(index as int), name)
                    is Some),
            forall|name: Seq<char>| #[trigger]
                bindings@.contains_key(name) ==> nearest_value(all.take(index as int), name)
                    == Some(*bindings@[name]),
        decreases scopes.len() - index,
    {
        let scope = &scopes[index];
        let ghost outer = bindings@;
        let ghost listing = scope.listing();
        let mut position: usize = 0;
        while position < scope.len()
            invariant
                position <= listing.len(),
                listing == scope.listing(),
                forall|name: Seq<char>| #[trigger]
                    bindings@.contains_key(name) == (outer.contains_key(name) || exists|i: int|
                        0 <= i < position && (#[trigger] listing[i]).0@ == name),
                forall|name: Seq<char>| #[trigger]
                    bindings@.contains_key(name) ==> if exists|i: int|
                        0 <= i < position && (#[trigger] listing[i]).0@ == name {
                        scope@.contains_key(name) && *bindings@[name] == scope@[name]
                    } else {
                        bindings@[name] == outer[name]
                    },
            decreases listing.len() - position,
        {
            let name = scope.entry(position).0.as_str();
            let ghost before = bindings@;
            if let Some(value) = scope.get(name) {
                bindings.insert(name.to_owned(), value);
            }
            assert(listing[position as int].0@ == name@);
            assert forall|other: Seq<char>| #[trigger]
                bindings@.contains_key(other) == (outer.contains_key(other) || exists|i: int|
                    0 <= i < position + 1 && (#[trigger] listing[i]).0@ == other) by {
                if exists|i: int| 0 <= i < position && (#[trigger] listing[i]).0@ == other {
                    assert(before.contains_key(other));
                }
                assert(before.contains_key(other) == (outer.contains_key(other) || exists|i: int|
                    0 <= i < position && (#[trigger] listing[i]).0@ == other));
            }
            assert forall|other: Seq<char>| #[trigger]
                bindings@.contains_key(other) implies if exists|i: int|
                0 <= i < position + 1 && (#[trigger] listing[i]).0@ == other {
                scope@.contains_key(other) && *bindings@[other] == scope@[other]
            } else {
                bindings@[other] == outer[other]
            } by {
                if other != name@ {
                    assert(before.contains_key(other));
                }
            }
            position += 1;
        }
        proof {
            scope.listing_denotes();
            let longer = all.take(index + 1);
            assert(longer.drop_last() =~= all.take(index as int));
            assert(longer.last() == *scope);
            assert forall|name: Seq<char>| scope@.contains_key(name) == exists|i: int|
                0 <= i < listing.len() && (#[trigger] listing[i]).0@ == name by {
                if scope@.contains_key(name) {
                    bound_key_is_listed(listing, name);
                }
                if exists|i: int| 0 <= i < listing.len() && (#[trigger] listing[i]).0@ == name {
                    assert(bindings@.contains_key(name));
                }
            }
            assert forall|name: Seq<char>| #[trigger]
                bindings@.contains_key(name) == (nearest_value(longer, name) is Some) by {
                assert(outer.contains_key(name) == (nearest_value(all.take(index as int), name)
                    is Some));
            }
            assert forall|name: Seq<char>| #[trigger]
                bindings@.contains_key(name) implies nearest_value(longer, name) == Some(
                *bindings@[name],
            ) by {
                if !scope@.contains_key(name) {
                    assert(outer.contains_key(name));
                }
            }
        }
        index += 1;
    }
    assert(all.take(all.len() as int) =~= all);
    bindings
}

/// Whether a name is that of a parameter whose value is not known yet.
pub fn unresolved_comptime_param_is_in_scope(
    values: &Vec<StringMap<ComptimeValue>>,
    params: &Vec<StringSet>,
    name: &str,
) -> (unresolved: bool)
    ensures
        unresolved == (nearest_value(values@, name@) is None && exists|i: int|
            0 <= i < params@.len() && (#[trigger] params@[i])@.contains(name@)),
{
    if lookup_comptime_value(values, name).is_some() {
        return false;
    }
    let mut index: usize = 0;
    while index < params.len()
        invariant
            index <= params.len(),
            nearest_value(values@, name@) is None,
            forall|i: int| 0 <= i < index ==> !(#[trigger] params@[i])@.contains(name@),
        decreases params.len() - index,
    {
        if params[index].contains(name) {
            return true;
        }
        index += 1;
    }
    false
}

// ---------------------------------------------------------------------------
// Functions with parameters that are known at compile time
// ---------------------------------------------------------------------------
/// Whether some parameter is known at compile time.
pub open spec fn has_comptime(params: Seq<Param>) -> bool {
    exists|i: int| 0 <= i < params.len() && (#[trigger] params[i]).comptime
}

/// Whether a function is evaluated where it is called: one with an uppercase name,
/// or with a parameter that is known at compile time.
pub open spec fn is_comptime_function(name: Seq<char>, params: Seq<Param>) -> bool {
    starts_uppercase(name) || has_comptime(params)
}

fn some_comptime(params: &Vec<Param>) -> (found: bool)
    ensures
        found == has_comptime(params@),
{
    let mut index: usize = 0;
    while index < params.len()
        invariant
            index <= params.len(),
            forall|i: int| 0 <= i < index ==> !(#[trigger] params@[i]).comptime,
        decreases params.len() - index,
    {
        if params[index].comptime {
            assert(params@[index as int].comptime);
            return true;
        }
        index += 1;
    }
    false
}

/// The parameters of a function that is evaluated where it is called: all of them are
/// known at compile time where its name is uppercase. `params` are those of the function
/// that the callee names.
pub fn comptime_param_function(callee: &Expr, params: Option<Vec<Param>>) -> (known: Option<
    Vec<Param>,
>)
    ensures
        match (callee_name(*callee), params) {
            (Some(name), Some(params)) => if is_comptime_function(name, params@) {
                known is Some && known->0@ == Seq::new(
                    params@.len(),
                    |i: int|
                        Param {
                            comptime: params@[i].comptime || starts_uppercase(name),
                            ..params@[i]
                        },
                )
            } else {
                known is None
            },
            _ => known is None,
        },
{
    let Some(name) = call_callee_name(callee) else {
        return None;
    };
    let Some(params) = params else {
        return None;
    };
    let uppercase = begins_uppercase(name);
    if !uppercase && !some_comptime(&params) {
        return None;
    }
    let ghost all = params@;
    let mut rest = params;
    let mut known: Vec<Param> = Vec::new();
    let ghost mut done: int = 0;
    assert(rest@ =~= all.skip(0));
    while rest.len() > 0
        invariant
            0 <= done <= all.len(),
            rest@ == all.skip(done),
            known@ == Seq::new(
                done as nat,
                |i: int| Param { comptime: all[i].comptime || uppercase, ..all[i] },
            ),
        decreases rest.len(),
    {
        let mut param = rest.remove(0);
        assert(param == all[done]);
        param.comptime = param.comptime || uppercase;
        known.push(param);
        proof {
            assert(rest@ =~= all.skip(done + 1));
            done = done + 1;
            assert(known@ =~= Seq::new(
                done as nat,
                |i: int| Param { comptime: all[i].comptime || uppercase, ..all[i] },
            ));
        }
    }
    assert(done == all.len());
    assert(known@ =~= Seq::new(
        all.len(),
        |i: int| Param { comptime: all[i].comptime || starts_uppercase(name@), ..all[i] },
    ));
    Some(known)
}

/// Whether an expression computes at run time: a call of a function with a
/// lowercase name, none of whose parameters is known at compile time.
pub open spec fn computes_at_run_time(expr: Expr, params: Option<Seq<Param>>) -> bool {
    match ungrouped(expr).kind {
        ExprKind::Call { callee, .. } => match callee_name(*callee) {
            Some(name) => starts_lowercase(name) && params is Some && !has_comptime(params->0),
            None => false,
        },
        _ => false,
    }
}

/// Whether an expression computes at run time. `params` are those of the function that
/// the callee names.
pub fn is_runtime_computation_call(expr: &Expr, params: Option<&Vec<Param>>) -> (computes: bool)
    ensures
        computes == computes_at_run_time(
            *expr,
            match params {
                Some(params) => Some(params@),
                None => None,
            },
        ),
{
    match &ungroup_expr(expr).kind {
        ExprKind::Call { callee, .. } => match (call_callee_name(callee), params) {
            (Some(name), Some(params)) => begins_lowercase(name) && !some_comptime(params),
            _ => false,
        },
        _ => false,
    }
}

/// The literals that a compile-time argument stands for, with their places where
/// they are written out.
pub open spec fn argument_literals(value: ComptimeValue) -> Seq<SpecLiteral> {
    match value {
        ComptimeValue::Literal(literal) => seq![literal@],
        ComptimeValue::Bool(value) => seq![SpecLiteral::Bool(value)],
        ComptimeValue::LabelSet(labels) => Seq::new(
            labels@.len(),
            |i: int| SpecLiteral::String("\""@ + labels@[i]@ + "\""@),
        ),
        ComptimeValue::ReifiedType(_) => Seq::empty(),
    }
}

/// What is found about the literals of an argument.
pub open spec fn domain_steps(row: SpecRow, literals: Seq<SpecLiteral>) -> Seq<LiteralStep> {
    literals.map_values(|literal: SpecLiteral| literal_step(row, literal))
}

fn literals_of_value(value: &ComptimeValue) -> (literals: Vec<Literal>)
    ensures
        owned_literals_view(literals@) == argument_literals(*value),
{
    let mut literals: Vec<Literal> = Vec::new();
    match value {
        ComptimeValue::Literal(literal) => {
            literals.push(literal.clone());
        },
        ComptimeValue::Bool(value) => {
            literals.push(Literal::Bool(*value));
        },
        ComptimeValue::LabelSet(labels) => {
            let mut index: usize = 0;
            while index < labels.len()
                invariant
                    index <= labels.len(),
                    literals.len() == index,
                    forall|i: int|
                        0 <= i < index ==> (#[trigger] literals@[i])@ == SpecLiteral::String(
                            "\""@ + labels@[i]@ + "\""@,
                        ),
                decreases labels.len() - index,
            {
                literals.push(label_literal(labels[index].as_str()));
                index += 1;
            }
        },
        ComptimeValue::ReifiedType(_) => {},
    }
    assert(owned_literals_view(literals@) =~= argument_literals(*value));
    literals
}

/// Hold the literals of a compile-time argument against the literals that its
/// parameter admits.
pub fn check_comptime_argument_domain(row: &Row, value: &ComptimeValue) -> (steps: Vec<LiteralStep>)
    ensures
        steps@ == domain_steps(row@, argument_literals(*value)),
{
    let literals = literals_of_value(value);
    let ghost all = owned_literals_view(literals@);
    let mut steps: Vec<LiteralStep> = Vec::new();
    let mut index: usize = 0;
    while index < literals.len()
        invariant
            index <= literals.len(),
            all == owned_literals_view(literals@),
            steps@ == domain_steps(row@, all).take(index as int),
        decreases literals.len() - index,
    {
        assert(all[index as int] == literals@[index as int]@);
        let ghost earlier = steps@;
        steps.push(check_literal_value_against_variant(row, &literals[index]));
        assert(steps@ =~= earlier.push(literal_step(row@, all[index as int])));
        assert(steps@ =~= domain_steps(row@, all).take(index + 1));
        index += 1;
    }
    assert(domain_steps(row@, all).take(all.len() as int) =~= domain_steps(row@, all));
    steps
}

/// What comes of an argument of a call that is evaluated where it stands.
#[derive(Debug, Clone, Copy, PartialEq, Eq, Structural)]
pub enum ArgumentStep {
    /// The argument is used.
    Use,
    /// The call has no type yet.
    Defer,
    /// The argument is checked as a value, and the call has no type.
    CheckThenDefer,
}

/// Decide what comes of an argument whose parameter is known at compile time.
/// `evaluated` says that its value was found; `refused` that it is not among those
/// that the parameter admits.
pub fn comptime_argument_step(
    evaluated: bool,
    refused: bool,
    uppercase: bool,
    depends_on_parameter: bool,
) -> (step: ArgumentStep)
    ensures
        step == (if !evaluated {
            if uppercase || depends_on_parameter {
                ArgumentStep::Defer
            } else {
                ArgumentStep::CheckThenDefer
            }
        } else if refused && !uppercase {
            ArgumentStep::Defer
        } else {
            ArgumentStep::Use
        }),
{
    if !evaluated {
        if uppercase || depends_on_parameter {
            ArgumentStep::Defer
        } else {
            ArgumentStep::CheckThenDefer
        }
    } else if refused && !uppercase {
        ArgumentStep::Defer
    } else {
        ArgumentStep::Use
    }
}

// ---------------------------------------------------------------------------
// Types that annotations name
// ---------------------------------------------------------------------------
/// The expression of an entry of a union annotation, if it is an element.
pub open spec fn entry_expr(entry: SpecUnionEntry) -> Option<Expr> {
    match entry {
        SpecUnionEntry::Part(expr) => Some(expr),
        SpecUnionEntry::Listed(RecordEntry::Element(expr)) => Some(*expr),
        _ => None,
    }
}

/// The parts of a union annotation are smaller than it is.
pub proof fn union_entries_shrink(annotation: Expr, index: int)
    requires
        is_union(annotation) || written_set(annotation) is Some,
        0 <= index < union_entries(annotation).len(),
        entry_expr(union_entries(annotation)[index]) is Some,
    ensures
        decreases_to!(annotation => entry_expr(union_entries(annotation)[index])->0),
    decreases annotation,
{
    if is_union(annotation) {
        match annotation.kind {
            ExprKind::Group(inner) => {
                union_entries_shrink(*inner, index);
            },
            ExprKind::Binary { left, right, .. } => {
                let before = union_entries(*left);
                if index < before.len() {
                    if is_union(*left) || written_set(*left) is Some {
                        union_entries_shrink(*left, index);
                    }
                } else {
                    assert(union_entries(annotation)[index] == union_entries(*right)[index
                        - before.len()]);
                    if is_union(*right) || written_set(*right) is Some {
                        union_entries_shrink(*right, index - before.len());
                    }
                }
            },
            _ => {},
        }
    } else {
        set_entries_shrink(annotation, index);
    }
}

proof fn set_entries_shrink(annotation: Expr, index: int)
    requires
        written_set(annotation) is Some,
        0 <= index < written_set(annotation)->0.len(),
        written_set(annotation)->0[index] is Element,
    ensures
        decreases_to!(annotation => *written_set(annotation)->0[index]->Element_0),
    decreases annotation,
{
    match annotation.kind {
        ExprKind::Group(inner) => {
            set_entries_shrink(*inner, index);
        },
        ExprKind::SetLiteral(entries) => {
            assert(decreases_to!(entries => entries@));
            assert(decreases_to!(entries@ => entries@[index]));
        },
        _ => {},
    }
}

/// The types that the names of an annotation stand for in a type, added to those
/// already found.
pub open spec fn named_types(
    annotation: Expr,
    actual: SpecType,
    known: Map<Seq<char>, SpecType>,
) -> Map<Seq<char>, SpecType>
    decreases annotation, union_entries(annotation).len() + 1,
{
    match (annotation.kind, actual) {
        (ExprKind::Group(inner), _) => named_types(*inner, actual, known),
        (ExprKind::Name(name), _) => known.insert(name@, actual),
        (
            ExprKind::Index { callee, args },
            SpecType::Apply { callee: actual_callee, args: actual_args },
        ) => if args@.len() == actual_args.len() {
            listed_types(
                args@,
                actual_args,
                named_types(*callee, *actual_callee, known),
                args@.len(),
            )
        } else {
            known
        },
        (ExprKind::Nullable(inner), SpecType::Nullable(actual_inner)) => named_types(
            *inner,
            *actual_inner,
            known,
        ),
        (ExprKind::Optional(inner), SpecType::Optional(actual_inner)) => named_types(
            *inner,
            *actual_inner,
            known,
        ),
        (ExprKind::Tuple(items), SpecType::Tuple(actual_items)) => if items@.len()
            == actual_items.len() {
            listed_types(items@, actual_items, known, items@.len())
        } else {
            known
        },
        (
            ExprKind::Arrow { params, result },
            SpecType::Function { params: actual_params, result: actual_result, .. },
        ) => if params@.len() == actual_params.len() {
            named_types(
                *result,
                *actual_result,
                listed_types(params@, actual_params, known, params@.len()),
            )
        } else {
            known
        },
        (ExprKind::Record(entries), SpecType::Record(row)) => record_named_types(
            entries@,
            row,
            known,
            entries@.len(),
        ),
        (ExprKind::Binary { operator, .. }, SpecType::Variant(row)) => if operator@ == "|"@ {
            variant_named_types(annotation, row, known, union_entries(annotation).len())
        } else {
            known
        },
        (ExprKind::SetLiteral(_), SpecType::Variant(row)) => variant_named_types(
            annotation,
            row,
            known,
            union_entries(annotation).len(),
        ),
        _ => known,
    }
}

/// The types that the names of the first annotations of a list stand for.
pub open spec fn listed_types(
    annotations: Seq<Expr>,
    actual: Seq<SpecType>,
    known: Map<Seq<char>, SpecType>,
    count: nat,
) -> Map<Seq<char>, SpecType>
    decreases annotations, count,
{
    if count == 0 || count > annotations.len() {
        known
    } else {
        named_types(
            annotations[count - 1],
            actual[count - 1],
            listed_types(annotations, actual, known, (count - 1) as nat),
        )
    }
}

/// The types that the names of the first entries of a record stand for.
pub open spec fn record_named_types(
    entries: Seq<RecordEntry>,
    row: SpecRow,
    known: Map<Seq<char>, SpecType>,
    count: nat,
) -> Map<Seq<char>, SpecType>
    decreases entries, count,
{
    if count == 0 || count > entries.len() {
        known
    } else {
        let earlier = record_named_types(entries, row, known, (count - 1) as nat);
        match entries[count - 1] {
            RecordEntry::Field { name, value, .. } => match field_type(row, name@) {
                Some(ty) => named_types(*value, ty, earlier),
                None => earlier,
            },
            RecordEntry::Spread { value, .. } => named_types(
                *value,
                SpecType::Record(row),
                earlier,
            ),
            _ => earlier,
        }
    }
}

/// The types that the names of the first parts of a union stand for.
pub open spec fn variant_named_types(
    annotation: Expr,
    row: SpecRow,
    known: Map<Seq<char>, SpecType>,
    count: nat,
) -> Map<Seq<char>, SpecType>
    decreases annotation, count,
    when is_union(annotation) || written_set(annotation) is Some
{
    if count == 0 || count > union_entries(annotation).len() {
        known
    } else {
        let earlier = variant_named_types(annotation, row, known, (count - 1) as nat);
        proof {
            if entry_expr(union_entries(annotation)[count - 1]) is Some {
                union_entries_shrink(annotation, count - 1);
            }
        }
        match entry_expr(union_entries(annotation)[count - 1]) {
            Some(expr) => if count - 1 < row.entries.len() {
                match (expr.kind, row.entries[count - 1]) {
                    (ExprKind::Call { args, .. }, SpecRowEntry::Tag { payload, .. }) => listed_types(
                        args@,
                        payload,
                        earlier,
                        if args@.len() <= payload.len() {
                            args@.len()
                        } else {
                            payload.len()
                        },
                    ),
                    _ => earlier,
                }
            } else {
                earlier
            },
            None => earlier,
        }
    }
}

fn bind_type(known: &mut StringMap<Type>, name: &String, ty: &Type)
    ensures
        type_map_view(final(known)@) == type_map_view(old(known)@).insert(name@, ty@),
{
    known.insert(name.clone(), ty.clone());
    assert(type_map_view(known@) =~= type_map_view(old(known)@).insert(name@, ty@));
}

/// Add the types that the names of an annotation stand for in a type.
pub fn collect_comptime_type_bindings(
    annotation: &Expr,
    actual: &Type,
    bindings: &mut StringMap<Type>,
)
    ensures
        type_map_view(final(bindings)@) == named_types(
            *annotation,
            actual@,
            type_map_view(old(bindings)@),
        ),
    decreases annotation, 2nat,
{
    match (&annotation.kind, actual) {
        (ExprKind::Group(inner), _) => {
            collect_comptime_type_bindings(inner, actual, bindings);
        },
        (ExprKind::Name(name), _) => {
            bind_type(bindings, name, actual);
        },
        (
            ExprKind::Index { callee, args },
            Type::Apply { callee: actual_callee, args: actual_args },
        ) => {
            assert(types_view(actual_args@).len() == actual_args.len());
            if args.len() == actual_args.len() {
                collect_comptime_type_bindings(callee, actual_callee, bindings);
                collect_listed_types(args, actual_args, args.len(), bindings);
            }
        },
        (ExprKind::Nullable(inner), Type::Nullable(actual_inner)) => {
            collect_comptime_type_bindings(inner, actual_inner, bindings);
        },
        (ExprKind::Optional(inner), Type::Optional(actual_inner)) => {
            collect_comptime_type_bindings(inner, actual_inner, bindings);
        },
        (ExprKind::Tuple(items), Type::Tuple(actual_items)) => {
            assert(types_view(actual_items@).len() == actual_items.len());
            if items.len() == actual_items.len() {
                collect_listed_types(items, actual_items, items.len(), bindings);
            }
        },
        (
            ExprKind::Arrow { params, result },
            Type::Function { params: actual_params, result: actual_result, .. },
        ) => {
            assert(types_view(actual_params@).len() == actual_params.len());
            if params.len() == actual_params.len() {
                collect_listed_types(params, actual_params, params.len(), bindings);
                collect_comptime_type_bindings(result, actual_result, bindings);
            }
        },
        (ExprKind::Record(entries), Type::Record(row)) => {
            collect_record_comptime_type_bindings(entries, row, bindings);
        },
        (ExprKind::Binary { operator, .. }, Type::Variant(row)) => {
            if same_text(operator.as_str(), "|") {
                collect_variant_comptime_type_bindings(annotation, row, bindings);
            }
        },
        (ExprKind::SetLiteral(_), Type::Variant(row)) => {
            collect_variant_comptime_type_bindings(annotation, row, bindings);
        },
        _ => {},
    }
}

fn collect_listed_types(
    annotations: &Vec<Expr>,
    actual: &Vec<Type>,
    count: usize,
    bindings: &mut StringMap<Type>,
)
    requires
        count <= annotations.len(),
        count <= actual.len(),
    ensures
        type_map_view(final(bindings)@) == listed_types(
            annotations@,
            types_view(actual@),
            type_map_view(old(bindings)@),
            count as nat,
        ),
    decreases annotations, 0nat,
{
    let ghost before = type_map_view(bindings@);
    let mut index: usize = 0;
    while index < count
        invariant
            index <= count <= annotations.len(),
            count <= actual.len(),
            before == type_map_view(old(bindings)@),
            type_map_view(bindings@) == listed_types(
                annotations@,
                types_view(actual@),
                before,
                index as nat,
            ),
        decreases count - index,
    {
        assert(types_view(actual@)[index as int] == actual@[index as int]@);
        collect_comptime_type_bindings(&annotations[index], &actual[index], bindings);
        index += 1;
    }
}

fn collect_record_comptime_type_bindings(
    entries: &Vec<RecordEntry>,
    row: &Row,
    bindings: &mut StringMap<Type>,
)
    ensures
        type_map_view(final(bindings)@) == record_named_types(
            entries@,
            row@,
            type_map_view(old(bindings)@),
            entries@.len(),
        ),
    decreases entries, 0nat,
{
    let ghost before = type_map_view(bindings@);
    let whole = Type::Record(row.clone());
    assert(whole@ == SpecType::Record(row@));
    let mut index: usize = 0;
    while index < entries.len()
        invariant
            index <= entries.len(),
            whole@ == SpecType::Record(row@),
            before == type_map_view(old(bindings)@),
            type_map_view(bindings@) == record_named_types(
                entries@,
                row@,
                before,
                index as nat,
            ),
        decreases entries.len() - index,
    {
        match &entries[index] {
            RecordEntry::Field { name, value, .. } => {
                if let Some(ty) = row_field_type(row, name.as_str()) {
                    collect_comptime_type_bindings(value, ty, bindings);
                }
            },
            RecordEntry::Spread { value, .. } => {
                collect_comptime_type_bindings(value, &whole, bindings);
            },
            _ => {},
        }
        index += 1;
    }
}

fn collect_variant_comptime_type_bindings(
    annotation: &Expr,
    row: &Row,
    bindings: &mut StringMap<Type>,
)
    requires
        is_union(*annotation) || written_set(*annotation) is Some,
    ensures
        type_map_view(final(bindings)@) == variant_named_types(
            *annotation,
            row@,
            type_map_view(old(bindings)@),
            union_entries(*annotation).len(),
        ),
    decreases annotation, 1nat,
{
    let entries = union_annotation_entries(annotation);
    let ghost all = union_entries(*annotation);
    let ghost before = type_map_view(bindings@);
    assert(row@.entries.len() == row.entries.len());
    let mut index: usize = 0;
    while index < entries.len()
        invariant
            index <= entries.len(),
            is_union(*annotation) || written_set(*annotation) is Some,
            all == union_entries(*annotation),
            all == union_entries_view(entries@),
            row@.entries.len() == row.entries.len(),
            before == type_map_view(old(bindings)@),
            type_map_view(bindings@) == variant_named_types(
                *annotation,
                row@,
                before,
                index as nat,
            ),
        decreases entries.len() - index,
    {
        let expr: Option<&Expr> = match entries[index] {
            UnionEntry::Part(expr) => Some(expr),
            UnionEntry::Listed(entry) => match entry {
                RecordEntry::Element(expr) => Some(expr),
                _ => None,
            },
        };
        if let Some(expr) = expr {
            assert(entry_expr(all[index as int]) == Some(*expr));
            if index < row.entries.len() {
                assert(row@.entries[index as int] == row.entries@[index as int]@);
                if let (ExprKind::Call { args, .. }, RowEntry::Tag { payload, .. }) = (
                    &expr.kind,
                    &row.entries[index],
                ) {
                    assert(types_view(payload@).len() == payload.len());
                    let count: usize = if args.len() <= payload.len() {
                        args.len()
                    } else {
                        payload.len()
                    };
                    proof {
                        union_entries_shrink(*annotation, index as int);
                        assert(decreases_to!(*expr => expr.kind));
                    }
                    collect_listed_types(args, payload, count, bindings);
                }
            }
        } else {
            assert(entry_expr(all[index as int]) is None);
        }
        index += 1;
    }
}

// ---------------------------------------------------------------------------
// Functions of the host
// ---------------------------------------------------------------------------
/// The key under which a host function is registered: its name, or the name of a
/// record of the host with a field.
pub open spec fn host_key(callee: Expr, receiver_is_bound: bool, registered: Set<Seq<char>>) -> Option<
    Seq<char>,
> {
    match ungrouped(callee).kind {
        ExprKind::Name(name) => Some(name@),
        ExprKind::FieldAccess { receiver, field, null_safe, .. } => if null_safe {
            None
        } else {
            match callee_name(*receiver) {
                Some(name) => if !receiver_is_bound && registered.contains(
                    name + "."@ + field@,
                ) {
                    Some(name + "."@ + field@)
                } else {
                    None
                },
                None => None,
            }
        },
        _ => None,
    }
}

/// The key under which a host function is registered. `receiver_is_bound` says
/// that the program binds the name of the receiver itself.
pub fn comptime_callee_name(callee: &Expr, receiver_is_bound: bool, registered: &StringSet) -> (key: Option<
    String,
>)
    ensures
        string_view(key) == host_key(*callee, receiver_is_bound, registered@),
{
    match &ungroup_expr(callee).kind {
        ExprKind::Name(name) => Some(name.clone()),
        ExprKind::FieldAccess { receiver, field, null_safe, .. } => {
            if *null_safe {
                return None;
            }
            match call_callee_name(receiver) {
                Some(name) => {
                    let key = concat3(name, ".", field.as_str());
                    if !receiver_is_bound && registered.contains(key.as_str()) {
                        Some(key)
                    } else {
                        None
                    }
                },
                None => None,
            }
        },
        _ => None,
    }
}

/// Whether a compile-time parameter of a host function has an argument of its
/// type. One that is left out must be a trailing one.
pub open spec fn host_argument_matches(
    param: HostComptimeParam,
    arg_count: nat,
    params: Seq<SpecType>,
    unifies: Seq<bool>,
) -> bool {
    let index = match param {
        HostComptimeParam::Value(index) => index as int,
        HostComptimeParam::TypeOf(index) => index as int,
    };
    if index >= arg_count {
        index < params.len()
    } else {
        index < params.len() && (params[index] == SpecType::Deferred || unifies[index])
    }
}

/// Whether the compile-time parameters of a host function have arguments of their
/// types. `unifies` says of each argument that its type unifies with that of its
/// parameter.
pub fn host_comptime_args_match_params(
    spec: &Vec<HostComptimeParam>,
    params: &Vec<Type>,
    unifies: &Vec<bool>,
) -> (matching: bool)
    ensures
        matching == forall|i: int|
            0 <= i < spec@.len() ==> host_argument_matches(
                #[trigger] spec@[i],
                unifies@.len(),
                types_view(params@),
                unifies@,
            ),
{
    assert(types_view(params@).len() == params.len());
    let mut index: usize = 0;
    while index < spec.len()
        invariant
            index <= spec.len(),
            types_view(params@).len() == params.len(),
            forall|i: int|
                0 <= i < index ==> host_argument_matches(
                    #[trigger] spec@[i],
                    unifies@.len(),
                    types_view(params@),
                    unifies@,
                ),
        decreases spec.len() - index,
    {
        let position: usize = spec[index].index();
        if position >= params.len() {
            assert(!host_argument_matches(
                spec@[index as int],
                unifies@.len(),
                types_view(params@),
                unifies@,
            ));
            return false;
        }
        assert(types_view(params@)[position as int] == params@[position as int]@);
        if position < unifies.len() && !matches!(params[position], Type::Deferred)
            && !unifies[position] {
            assert(!host_argument_matches(
                spec@[index as int],
                unifies@.len(),
                types_view(params@),
                unifies@,
            ));
            return false;
        }
        index += 1;
    }
    true
}

/// Whether a name carries a member: as a member of a type, or as a function of the
/// host where the program does not bind the name.
pub open spec fn carries_static(
    expr: Expr,
    member: Seq<char>,
    is_static: bool,
    is_bound: bool,
    registered: Set<Seq<char>>,
) -> bool {
    match callee_name(expr) {
        Some(name) => is_static || (!is_bound && registered.contains(name + "."@ + member)),
        None => false,
    }
}

/// Whether a name carries a member.
pub fn static_member_wins(
    receiver: &Expr,
    member: &str,
    is_static: bool,
    is_bound: bool,
    registered: &StringSet,
) -> (wins: bool)
    ensures
        wins == carries_static(*receiver, member@, is_static, is_bound, registered@),
{
    match call_callee_name(receiver) {
        Some(name) => is_static || (!is_bound && registered.contains(
            concat3(name, ".", member).as_str(),
        )),
        None => false,
    }
}

/// The name of the format that an argument is, if it carries a member.
pub fn format_member_name<'a>(
    format: &'a Expr,
    member: &str,
    is_static: bool,
    is_bound: bool,
    registered: &StringSet,
) -> (name: Option<&'a str>)
    ensures
        text_view(name) == (if carries_static(
            *format,
            member@,
            is_static,
            is_bound,
            registered@,
        ) {
            callee_name(*format)
        } else {
            None
        }),
{
    if static_member_wins(format, member, is_static, is_bound, registered) {
        call_callee_name(format)
    } else {
        None
    }
}

/// The formats that a message suggests.
pub open spec fn format_hint(names: Seq<Seq<char>>) -> Seq<char> {
    if names.len() == 0 {
        "`Json`"@
    } else {
        listed(names)
    }
}

/// The formats that a message suggests, in order, each once.
pub fn format_member_hint(formats: &Vec<String>) -> (hint: String)
    ensures
        exists|names: Seq<Seq<char>>|
            increasing(names) && names.to_set() == texts_view(formats@).to_set() && hint@
                == #[trigger] format_hint(names),
{
    let ghost all = texts_view(formats@);
    let mut names: Vec<String> = Vec::new();
    let mut index: usize = 0;
    assert(texts_view(names@).to_set() =~= all.take(0).to_set());
    while index < formats.len()
        invariant
            index <= formats.len(),
            all == texts_view(formats@),
            increasing(texts_view(names@)),
            texts_view(names@).to_set() == all.take(index as int).to_set(),
        decreases formats.len() - index,
    {
        let ghost shorter = all.take(index as int);
        let ghost longer = all.take(index + 1);
        let ghost name = all[index as int];
        assert(longer =~= shorter.push(name));
        assert forall|x: Seq<char>| #[trigger]
            longer.to_set().contains(x) == (shorter.to_set().contains(x) || x == name) by {
            if shorter.contains(x) {
                let i = choose|i: int| 0 <= i < shorter.len() && shorter[i] == x;
                assert(longer[i] == x);
            }
            if x == name {
                assert(longer[index as int] == x);
            }
        }
        insert_name(&mut names, formats[index].as_str());
        assert(texts_view(names@).to_set() =~= longer.to_set());
        index += 1;
    }
    assert(all.take(all.len() as int) =~= all);
    let ghost chosen = texts_view(names@);
    if names.len() == 0 {
        let hint = "`Json`".to_owned();
        assert(hint@ == format_hint(chosen));
        return hint;
    }
    let hint = list_names(&names);
    assert(hint@ == format_hint(chosen));
    hint
}

/// The type that an argument of a method with a format is shown with.
pub open spec fn shown_argument(arg: Expr, index: nat) -> SpecType {
    match callee_name(arg) {
        Some(name) => SpecType::Named(name),
        None => SpecType::Variable("arg"@ + decimal(index + 1)),
    }
}

/// The type that an argument of a method with a format is shown with.
pub fn method_view_arg_type(arg: &Expr, index: usize) -> (ty: Type)
    requires
        index < usize::MAX,
    ensures
        ty@ == shown_argument(*arg, index as nat),
{
    match call_callee_name(arg) {
        Some(name) => Type::Named(name.to_owned()),
        None => {
            let number: usize = index + 1;
            let mut name = "arg".to_owned();
            let digits = unsigned_text(number as u64);
            name.append(digits.as_str());
            Type::Variable(name)
        },
    }
}

// ---------------------------------------------------------------------------
// Selections
// ---------------------------------------------------------------------------
/// What comes of a call that may select fields.
#[derive(Debug)]
#[allow(inconsistent_fields)]
pub enum SelectionStep<'a> {
    /// The call selects nothing.
    NoSelection,
    /// The selection has no type yet.
    Defer,
    /// The type of the subject is asked for, and then the labels.
    Subject { subject: &'a Expr, labels: &'a Expr },
}

/// Whether a program binds the name of a function that selects fields.
pub open spec fn selection_is_shadowed(
    name: Seq<char>,
    is_local: bool,
    bindings: Set<Seq<char>>,
    values: Set<Seq<char>>,
) -> bool {
    is_local || bindings.contains(name) || values.contains(name)
}

/// Whether a program binds the name of a function that selects fields: locally, at the top
/// level, or as a value that is known from outside.
pub fn record_selection_builtin_is_shadowed(
    name: &str,
    is_local: bool,
    bindings: &StringSet,
    values: &StringSet,
) -> (shadowed: bool)
    ensures
        shadowed == selection_is_shadowed(name@, is_local, bindings@, values@),
{
    is_local || bindings.contains(name) || values.contains(name)
}

/// Whether an expression is the name of a function that selects fields and that the
/// program does not bind.
pub open spec fn names_selection(
    callee: Expr,
    selections: Set<Seq<char>>,
    is_local: bool,
    bindings: Set<Seq<char>>,
    values: Set<Seq<char>>,
) -> bool {
    match name_of(callee) {
        Some(name) => selections.contains(name) && !selection_is_shadowed(
            name,
            is_local,
            bindings,
            values,
        ),
        None => false,
    }
}

fn is_selection(
    callee: &Expr,
    selections: &StringSet,
    is_local: bool,
    bindings: &StringSet,
    values: &StringSet,
) -> (selects: bool)
    ensures
        selects == names_selection(*callee, selections@, is_local, bindings@, values@),
{
    match expr_name(callee) {
        Some(name) => selections.contains(name) && !record_selection_builtin_is_shadowed(
            name,
            is_local,
            bindings,
            values,
        ),
        None => false,
    }
}

/// Whether a value at the top level is a call that selects fields. `selections` are the
/// names of the functions that do.
pub fn is_unshadowed_record_selection_builtin_call(
    value: &Expr,
    selections: &StringSet,
    bindings: &StringSet,
    values: &StringSet,
) -> (selects: bool)
    ensures
        selects == match ungrouped(*value).kind {
            ExprKind::Call { callee, .. } => names_selection(
                *callee,
                selections@,
                false,
                bindings@,
                values@,
            ),
            _ => false,
        },
{
    match &ungroup_expr(value).kind {
        ExprKind::Call { callee, .. } => is_selection(callee, selections, false, bindings, values),
        _ => false,
    }
}

/// Decide what comes of a call that may select fields. `selections` are the names of the
/// functions that do.
pub fn infer_record_selection_builtin_call<'a>(
    callee: &Expr,
    args: &'a Vec<Expr>,
    selections: &StringSet,
    is_local: bool,
    bindings: &StringSet,
    values: &StringSet,
) -> (step: SelectionStep<'a>)
    ensures
        step == (if !names_selection(*callee, selections@, is_local, bindings@, values@) {
            SelectionStep::NoSelection
        } else if args.len() != 2 {
            SelectionStep::Defer
        } else {
            SelectionStep::Subject { subject: &args[0], labels: &args[1] }
        }),
{
    if !is_selection(callee, selections, is_local, bindings, values) {
        SelectionStep::NoSelection
    } else if args.len() != 2 {
        SelectionStep::Defer
    } else {
        SelectionStep::Subject { subject: &args[0], labels: &args[1] }
    }
}

/// What follows for the subject of a selection.
#[derive(Debug, Clone, Copy, PartialEq, Eq, Structural)]
pub enum SubjectStep {
    /// The selection has no type yet.
    Defer,
    /// The subject is no record, which is reported; the selection has no type.
    Report,
    /// The labels are asked for.
    Select,
}

/// Decide what follows for the subject of a selection. `unresolved` says that its labels
/// cannot be told yet.
pub fn selection_subject_step(subject: &Type, unresolved: bool) -> (step: SubjectStep)
    ensures
        step == (if unresolved || !resolved(subject@) {
            SubjectStep::Defer
        } else if subject@ is Record {
            SubjectStep::Select
        } else {
            SubjectStep::Report
        }),
{
    if unresolved || !is_resolved_value_type(subject) {
        SubjectStep::Defer
    } else if matches!(subject, Type::Record(_)) {
        SubjectStep::Select
    } else {
        SubjectStep::Report
    }
}

/// The type of a selection: what the labels select, if they are known and can be selected.
pub fn selection_type(labels_known: bool, selected: Option<Type>) -> (ty: Type)
    ensures
        ty == (match selected {
            Some(selected) => if labels_known {
                selected
            } else {
                Type::Deferred
            },
            None => Type::Deferred,
        }),
{
    match selected {
        Some(selected) => if labels_known {
            selected
        } else {
            Type::Deferred
        },
        None => Type::Deferred,
    }
}

} // verus!
