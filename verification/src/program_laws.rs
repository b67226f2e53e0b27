//! What families, functions, blocks and modules are made of.
use crate::bodies::{
    block_steps, item_bindings, items_steps, lambda_steps, lambda_types, MergedItem, SpecBlockStep,
    SpecLambdaStep,
};
use crate::declarations::{entries_missing, environment, missing_fields};
use crate::families::{
    after_declarations, all_typed, has_field, FamilyState, SpecDeclared, SpecFamilyIssue,
};
use crate::knowledge::{known_name, nearest, readable_known, satisfies, SpecKnowledge, SpecProof};
use crate::methods::SpecMethod;
use crate::modules::{module_items_steps, module_steps, ModuleItem, SpecModuleStep};
use crate::owners::{pattern_matches, patterns_match, Bindings};
use crate::rows::field_type;
use crate::syntax::{Expr, Param, RecordEntry};
use crate::text::starts_uppercase;
use crate::types::{SpecRow, SpecType};
use vstd::prelude::*;

verus! {

// ---------------------------------------------------------------------------
// Families
// ---------------------------------------------------------------------------
/// A method whose name begins with a small letter, is no field's and was not declared before,
/// and whose parameters all have types, becomes a method of the family with these types.
pub proof fn declared_methods_are_methods(
    methods: Map<Seq<char>, SpecMethod>,
    data: SpecRow,
    declared: Seq<SpecDeclared>,
    method: SpecDeclared,
)
    requires
        !starts_uppercase(method.name),
        !has_field(data, method.name),
        !after_declarations(methods, data, declared).names.contains(method.name),
        all_typed(method.params),
    ensures
        ({
            let before = after_declarations(methods, data, declared);
            let after = after_declarations(methods, data, declared.push(method));
            let found = after.methods[method.name];
            &&& after.methods.contains_key(method.name)
            &&& found.params.len() == method.params.len()
            &&& forall|i: int|
                0 <= i < found.params.len() ==> Some(#[trigger] found.params[i])
                    == method.params[i].ty
            &&& found.result == method.result
            &&& found.constraints == method.constraints
            &&& after.names == before.names.insert(method.name)
            &&& !before.methods.contains_key(method.name) ==> after.issues == before.issues
                && found.origin is Declared
        }),
{
    assert(declared.push(method).drop_last() =~= declared);
}

/// A declaration that is refused changes no method, and it is said why it is refused.
pub proof fn refused_methods_change_nothing(
    methods: Map<Seq<char>, SpecMethod>,
    data: SpecRow,
    declared: Seq<SpecDeclared>,
    method: SpecDeclared,
)
    ensures
        ({
            let before = after_declarations(methods, data, declared);
            let after = after_declarations(methods, data, declared.push(method));
            let name = method.name;
            let span = method.name_span;
            &&& starts_uppercase(name) ==> after == (FamilyState {
                methods: before.methods,
                names: before.names,
                issues: before.issues.push(SpecFamilyIssue::UppercaseMethod { span }),
            })
            &&& !starts_uppercase(name) && has_field(data, name) ==> after == (FamilyState {
                methods: before.methods,
                names: before.names,
                issues: before.issues.push(SpecFamilyIssue::FieldConflict { name, span }),
            })
            &&& !starts_uppercase(name) && !has_field(data, name) && before.names.contains(name)
                ==> after == (FamilyState {
                methods: before.methods,
                names: before.names,
                issues: before.issues.push(SpecFamilyIssue::DuplicateMethod { name, span }),
            })
            &&& !all_typed(method.params) ==> after.methods == before.methods
            &&& forall|other: Seq<char>|
                other != name ==> #[trigger] after.methods.contains_key(other)
                    == before.methods.contains_key(other) && (before.methods.contains_key(other)
                    ==> after.methods[other] == before.methods[other])
        }),
{
    assert(declared.push(method).drop_last() =~= declared);
}

// ---------------------------------------------------------------------------
// Functions
// ---------------------------------------------------------------------------
/// A parameter has the type of its annotation, and one without takes the type that is expected.
/// The body must have the type that the annotation of the result says, or else the one that is
/// expected.
pub proof fn parameters_take_what_is_expected(
    params: Seq<Param>,
    return_annotation: Option<Expr>,
    annotations: Seq<SpecType>,
    result: SpecType,
    expected: Seq<SpecType>,
    expected_result: SpecType,
    index: int,
)
    requires
        0 <= index < params.len(),
    ensures
        ({
            let types = lambda_types(
                params,
                return_annotation,
                annotations,
                result,
                expected,
                expected_result,
            );
            &&& types.params.len() == params.len()
            &&& params[index].annotation is Some ==> types.params[index] == annotations[index]
            &&& params[index].annotation is None ==> types.params[index] == expected[index]
            &&& return_annotation is Some ==> types.body == result
            &&& return_annotation is None ==> types.body == expected_result
        }),
{
}

/// A function is held against a function type parameter by parameter, then by its result, and
/// then by its body; one with another number of parameters is not looked at further.
pub proof fn functions_are_held_in_order(
    params: Seq<Param>,
    return_annotation: Option<Expr>,
    expected: nat,
    index: int,
)
    ensures
        params.len() != expected ==> lambda_steps(params, return_annotation, expected) == seq![
            SpecLambdaStep::Arity { expected, found: params.len() },
        ],
        params.len() == expected ==> ({
            let steps = lambda_steps(params, return_annotation, expected);
            &&& steps.len() == params.len() + 2
            &&& 0 <= index < params.len() && params[index].annotation is Some ==> steps[index] == (
            SpecLambdaStep::CompareParam {
                param: index as nat,
                annotation: *params[index].annotation->0,
            })
            &&& 0 <= index < params.len() && params[index].annotation is None ==> steps[index] == (
            SpecLambdaStep::TakeParam { param: index as nat })
            &&& return_annotation is Some ==> steps[params.len() as int]
                == SpecLambdaStep::CompareResult(return_annotation->0)
            &&& return_annotation is None ==> steps[params.len() as int]
                == SpecLambdaStep::TakeResult
            &&& steps[(params.len() + 1) as int] == SpecLambdaStep::Body
        }),
{
}

// ---------------------------------------------------------------------------
// Blocks
// ---------------------------------------------------------------------------
/// A block ends in the value of its last item: that value is held against the type that is
/// expected, and where none is it is typed. The scope is opened before everything and closed
/// after it.
pub proof fn blocks_end_in_their_last_value<'a>(
    items: Seq<MergedItem<'a>>,
    value: &'a Expr,
    expected: bool,
)
    ensures
        ({
            let steps = block_steps(items.push(MergedItem::Expr(value)), expected);
            &&& steps.len() >= 3
            &&& steps[0] == SpecBlockStep::Open
            &&& steps[steps.len() - 1] == SpecBlockStep::Close
            &&& steps[steps.len() - 2] == (if expected {
                SpecBlockStep::Against(*value)
            } else {
                SpecBlockStep::Value(*value)
            })
        }),
{
    let all = items.push(MergedItem::Expr(value));
    assert(all[items.len() as int] == MergedItem::Expr(value));
    let few = items_steps(all, expected, items.len());
    let last = crate::bodies::item_steps(MergedItem::Expr(value), true, expected);
    assert(items_steps(all, expected, all.len()) == few + last);
    assert(block_steps(all, expected) == seq![SpecBlockStep::Open] + (few + last) + seq![
        SpecBlockStep::Close,
    ]);
    assert(last.len() == 1);
}

/// A value that is not the last of a block is dropped, and is still typed.
pub proof fn earlier_values_are_dropped<'a>(
    items: Seq<MergedItem<'a>>,
    value: &'a Expr,
    more: MergedItem<'a>,
    expected: bool,
)
    ensures
        ({
            let all = items.push(MergedItem::Expr(value)).push(more);
            let few = items_steps(all, expected, items.len());
            let steps = items_steps(all, expected, (items.len() + 1) as nat);
            &&& steps == few.push(SpecBlockStep::Dropped(*value)).push(
                SpecBlockStep::Value(*value),
            )
        }),
{
    let all = items.push(MergedItem::Expr(value)).push(more);
    assert(all[items.len() as int] == MergedItem::Expr(value));
    let few = items_steps(all, expected, items.len());
    assert(items_steps(all, expected, (items.len() + 1) as nat) =~= few.push(
        SpecBlockStep::Dropped(*value),
    ).push(SpecBlockStep::Value(*value)));
}

/// The names of a block are bound in the order of its items; a value binds none.
pub proof fn blocks_bind_in_order<'a>(items: Seq<MergedItem<'a>>, item: MergedItem<'a>)
    ensures
        ({
            let before = item_bindings(items, items.len());
            let after = item_bindings(items.push(item), (items.len() + 1) as nat);
            &&& item is Expr ==> after == before
            &&& item is MethodAttachment ==> after == before
            &&& item is Binding || item is PatternBinding || item is SpreadBinding || item
                is Signature ==> after.len() == before.len() + 1 && after.take(before.len() as int)
                == before
        }),
{
    more_items_bind_the_same(items, item, items.len());
    let before = item_bindings(items, items.len());
    let after = item_bindings(items.push(item), (items.len() + 1) as nat);
    assert(items.push(item)[items.len() as int] == item);
    if after != before {
        assert(after.take(before.len() as int) =~= before);
    }
}

proof fn more_items_bind_the_same<'a>(
    items: Seq<MergedItem<'a>>,
    item: MergedItem<'a>,
    count: nat,
)
    requires
        count <= items.len(),
    ensures
        item_bindings(items.push(item), count) == item_bindings(items, count),
    decreases count,
{
    if count > 0 {
        more_items_bind_the_same(items, item, (count - 1) as nat);
        assert(items.push(item)[count - 1] == items[count - 1]);
    }
}

// ---------------------------------------------------------------------------
// Modules
// ---------------------------------------------------------------------------
/// The declarations of a module are looked at before everything else, in their order. A value
/// that ends the module is its result.
pub proof fn declarations_come_first<'a>(
    declarations: nat,
    items: Seq<ModuleItem<'a>>,
    value: &'a Expr,
    index: int,
)
    ensures
        ({
            let all = items.push(ModuleItem::Expr(value));
            let steps = module_steps(declarations, all);
            &&& 0 <= index < declarations ==> steps[index] == SpecModuleStep::Declaration(
                index as nat,
            )
            &&& steps.len() >= declarations + 2
            &&& steps[steps.len() - 2] == SpecModuleStep::Value(*value)
            &&& steps[steps.len() - 1] == SpecModuleStep::Result(*value)
        }),
        module_steps(declarations, Seq::empty()).len() == declarations,
{
    let all = items.push(ModuleItem::Expr(value));
    assert(all[items.len() as int] == ModuleItem::Expr(value));
    let few = module_items_steps(all, items.len());
    let last = crate::modules::module_item_steps(ModuleItem::Expr(value), true);
    assert(module_items_steps(all, all.len()) == few + last);
    assert(last.len() == 2);
}

// ---------------------------------------------------------------------------
// Declarations
// ---------------------------------------------------------------------------
/// A record pattern asks for the fields that its entries name: one more entry asks for one more
/// field exactly where the record does not have it.
pub proof fn patterns_ask_for_their_fields(
    shorter: Expr,
    longer: Expr,
    entry: RecordEntry,
    row: SpecRow,
    definitions: Map<Seq<char>, SpecType>,
)
    requires
        shorter.kind is Record,
        longer.kind is Record,
        longer.kind->Record_0@ == shorter.kind->Record_0@.push(entry),
        entry is Shorthand,
    ensures
        ({
            let before = missing_fields(shorter, row, definitions);
            let after = missing_fields(longer, row, definitions);
            let name = entry->Shorthand_name@;
            &&& field_type(row, name) is Some ==> after == before
            &&& field_type(row, name) is None ==> after == before.push(
                (name, entry->Shorthand_name_span),
            )
        }),
{
    let entries = shorter.kind->Record_0@;
    let more = longer.kind->Record_0@;
    more_entries_miss_the_same(entries, entry, row, definitions, entries.len());
    assert(more[entries.len() as int] == entry);
    let before = missing_fields(shorter, row, definitions);
    assert(before == entries_missing(entries, row, definitions, entries.len()));
    assert(missing_fields(longer, row, definitions) == entries_missing(
        more,
        row,
        definitions,
        more.len(),
    ));
    let last = crate::declarations::entry_missing(entry, row, definitions);
    assert(entries_missing(more, row, definitions, more.len()) == before + last);
    if field_type(row, entry->Shorthand_name@) is Some {
        assert(before + last =~= before);
    } else {
        assert(before + last =~= before.push(
            (entry->Shorthand_name@, entry->Shorthand_name_span),
        ));
    }
}

proof fn more_entries_miss_the_same(
    entries: Seq<RecordEntry>,
    entry: RecordEntry,
    row: SpecRow,
    definitions: Map<Seq<char>, SpecType>,
    count: nat,
)
    requires
        count <= entries.len(),
    ensures
        entries_missing(entries.push(entry), row, definitions, count) == entries_missing(
            entries,
            row,
            definitions,
            count,
        ),
    decreases count,
{
    if count > 0 {
        more_entries_miss_the_same(entries, entry, row, definitions, (count - 1) as nat);
        assert(entries.push(entry)[count - 1] == entries[count - 1]);
    }
}

/// A name that is declared once stands for its own value.
pub proof fn names_stand_for_their_values(names: Seq<Seq<char>>, count: nat, index: int)
    requires
        names.no_duplicates(),
        0 <= index < count <= names.len(),
    ensures
        environment(names, count).contains_key(names[index]),
        environment(names, count)[names[index]] == Some(index as nat),
    decreases count,
{
    if index < count - 1 {
        names_stand_for_their_values(names, (count - 1) as nat, index);
        assert(names[index] != names[count - 1]);
    } else {
        later_names_are_not_there(names, (count - 1) as nat, index);
    }
}

proof fn later_names_are_not_there(names: Seq<Seq<char>>, count: nat, index: int)
    requires
        names.no_duplicates(),
        count <= index < names.len(),
    ensures
        !environment(names, count).contains_key(names[index]),
    decreases count,
{
    if count > 0 {
        later_names_are_not_there(names, (count - 1) as nat, index);
        assert(names[index] != names[count - 1]);
    }
}

// ---------------------------------------------------------------------------
// What is known
// ---------------------------------------------------------------------------
/// The innermost binding of a name decides what is known of it; a name that no scope has is
/// that of the module.
pub proof fn inner_names_hide_outer_ones(
    knowledge: SpecKnowledge,
    inner: Map<Seq<char>, Option<SpecProof>>,
    name: Seq<char>,
)
    ensures
        ({
            let deeper = SpecKnowledge { scopes: knowledge.scopes.push(inner), ..knowledge };
            &&& inner.contains_key(name) ==> known_name(deeper, name) == readable_known(
                inner[name],
                knowledge.context,
            )
            &&& !inner.contains_key(name) ==> known_name(deeper, name) == known_name(
                knowledge,
                name,
            )
            &&& knowledge.scopes.len() == 0 && !knowledge.bindings.contains_key(name) ==> known_name(
                knowledge,
                name,
            ) is None
        }),
{
    let deeper = knowledge.scopes.push(inner);
    assert(deeper.drop_last() =~= knowledge.scopes);
    assert(nearest(deeper, name) == (if inner.contains_key(name) {
        Some(inner[name])
    } else {
        nearest(knowledge.scopes, name)
    }));
}

/// A value that stands for a type also stands for the type where it may be absent or null.
pub proof fn values_stand_for_wider_types(
    known: crate::knowledge::SpecKnown,
    expected: SpecType,
    finite: bool,
    fits: Set<Seq<char>>,
)
    ensures
        satisfies(known, SpecType::Optional(Box::new(expected)), finite, fits) == satisfies(
            known,
            expected,
            finite,
            fits,
        ),
        satisfies(known, SpecType::Nullable(Box::new(expected)), finite, fits) == satisfies(
            known,
            expected,
            finite,
            fits,
        ),
        expected is Tuple || expected is Record || expected is Function ==> !satisfies(
            known,
            expected,
            finite,
            fits,
        ),
{
}

// ---------------------------------------------------------------------------
// Owners
// ---------------------------------------------------------------------------
/// A pattern without variables of its own is matched by itself alone.
pub proof fn fixed_patterns_match_themselves(
    pattern: SpecType,
    receiver: SpecType,
    bindings: Bindings,
)
    ensures
        pattern_matches(pattern, receiver, Set::empty(), bindings) <==> pattern == receiver,
    decreases pattern,
{
    match (pattern, receiver) {
        (
            SpecType::Apply { callee, args },
            SpecType::Apply { callee: receiver_callee, args: receiver_args },
        ) => {
            fixed_patterns_match_themselves(*callee, *receiver_callee, bindings);
            fixed_lists_match_themselves(args, receiver_args, bindings);
        },
        (SpecType::Optional(inner), SpecType::Optional(receiver_inner)) => {
            fixed_patterns_match_themselves(*inner, *receiver_inner, bindings);
        },
        (SpecType::Nullable(inner), SpecType::Nullable(receiver_inner)) => {
            fixed_patterns_match_themselves(*inner, *receiver_inner, bindings);
        },
        (SpecType::Tuple(items), SpecType::Tuple(receiver_items)) => {
            fixed_lists_match_themselves(items, receiver_items, bindings);
        },
        _ => {},
    }
}

proof fn fixed_lists_match_themselves(
    patterns: Seq<SpecType>,
    receivers: Seq<SpecType>,
    bindings: Bindings,
)
    ensures
        patterns_match(patterns, receivers, Set::empty(), bindings) <==> patterns == receivers,
    decreases patterns,
{
    assert forall|i: int| 0 <= i < patterns.len() && patterns.len() == receivers.len() implies
        pattern_matches(#[trigger] patterns[i], receivers[i], Set::empty(), bindings) == (
    patterns[i] == receivers[i]) by {
        fixed_patterns_match_themselves(patterns[i], receivers[i], bindings);
    }
    if patterns_match(patterns, receivers, Set::empty(), bindings) {
        assert(patterns =~= receivers);
    }
}

/// A variable of a pattern is matched by whatever stands for it.
pub proof fn variables_match_what_stands_for_them(
    name: Seq<char>,
    receiver: SpecType,
    variables: Set<Seq<char>>,
    bindings: Bindings,
)
    requires
        variables.contains(name),
    ensures
        pattern_matches(SpecType::Variable(name), receiver, variables, bindings)
            <==> bindings.contains_key(name) && bindings[name] == receiver,
{
}

} // verus!
