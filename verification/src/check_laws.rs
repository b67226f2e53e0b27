//! What holding values against types is for.
use crate::comparison::{added_value, asked_field_findings, other_field_findings};
use crate::comparison::{field_names_of, record_value_findings, RecordFinding};
use crate::normalize::normal_form;
use crate::rows::{all_fields, all_literals, all_tags};
use crate::syntax::{lists_fields, ungrouped, Expr, ExprKind, Item, RecordEntry};
use crate::type_ops::{base_of, row_base};
use crate::types::{Literal, RecursiveTypeId, SpecLiteral, SpecRow, SpecRowEntry, SpecType};
use crate::value_checks::{
    added_span, block_events, branded_events, collection_events, fields_events, list_events,
    plain_events, result_events, shape_events, shorthand_events, tag_events, value_events,
    SpecValueContext, SpecValueEvent,
};
use vstd::prelude::*;

verus! {

/// Whether a type names a family with a builtin base.
pub open spec fn is_branded(context: SpecValueContext, ty: SpecType) -> bool {
    ty is Named && context.aliases.contains_key(ty->Named_0)
        && context.comparison.family_bases.contains_key(ty->Named_0)
}

/// Whether some events stand among others, in order and without others between them.
pub open spec fn holds_events(whole: Seq<SpecValueEvent>, part: Seq<SpecValueEvent>) -> bool {
    exists|from: int|
        0 <= from && from + part.len() <= whole.len() && #[trigger] whole.subrange(
            from,
            from + part.len(),
        ) == part
}

proof fn later_events_keep(
    first: Seq<SpecValueEvent>,
    second: Seq<SpecValueEvent>,
    part: Seq<SpecValueEvent>,
)
    ensures
        holds_events(first, part) ==> holds_events(first + second, part),
        holds_events(second, part) ==> holds_events(first + second, part),
        holds_events(part, part),
{
    let both = first + second;
    if holds_events(first, part) {
        let from = choose|from: int|
            0 <= from && from + part.len() <= first.len() && #[trigger] first.subrange(
                from,
                from + part.len(),
            ) == part;
        assert(both.subrange(from, from + part.len()) =~= first.subrange(from, from + part.len()));
    }
    if holds_events(second, part) {
        let from = choose|from: int|
            0 <= from && from + part.len() <= second.len() && #[trigger] second.subrange(
                from,
                from + part.len(),
            ) == part;
        let start = first.len() + from;
        assert(both.subrange(start, start + part.len()) =~= second.subrange(
            from,
            from + part.len(),
        ));
    }
    assert(part.subrange(0int, 0int + part.len()) =~= part);
}

/// Where no family and no recursive type is expected, a value is looked at by its form.
proof fn values_are_looked_at_by_form(
    context: SpecValueContext,
    expected: SpecType,
    value: Expr,
    levels: nat,
)
    requires
        levels > 0,
        !(expected is SlotRecord),
        expected is Recursive ==> value.kind is Name || value.kind is ComptimeName,
        is_branded(context, expected) ==> !(ungrouped(value).kind is Literal) && !(ungrouped(
            value,
        ).kind is Name) && !(ungrouped(value).kind is ComptimeName),
    ensures
        value_events(context, expected, value, levels) == plain_events(
            context,
            expected,
            value,
            (levels - 1) as nat,
        ),
        !(value.kind is Group) && !(value.kind is Block) && !(value.kind is Lambda) && !(
        value.kind is Name) && !(value.kind is ComptimeName) && !(expected is Optional) && !(
        expected is Nullable) ==> value_events(context, expected, value, levels) == shape_events(
            context,
            expected,
            value,
            (levels - 1) as nat,
        ),
{
    let below = (levels - 1) as nat;
    assert(branded_events(context, expected, value, below) == plain_events(
        context,
        expected,
        value,
        below,
    ));
    if !(value.kind is Group) && !(value.kind is Block) && !(value.kind is Lambda) && !(
    value.kind is Name) && !(value.kind is ComptimeName) && !(expected is Optional) && !(
    expected is Nullable) {
        assert(plain_events(context, expected, value, below) == shape_events(
            context,
            expected,
            value,
            below,
        ));
    }
}

// ---------------------------------------------------------------------------
// Values around values
// ---------------------------------------------------------------------------
/// A block is held against a type by its last value: between the events that open and close it
/// stand exactly those of that value.
pub proof fn blocks_hold_their_last_value(
    context: SpecValueContext,
    expected: SpecType,
    block: Expr,
    value: Expr,
    levels: nat,
)
    requires
        levels > 0,
        !(expected is Recursive),
        block.kind is Block,
        block.kind->Block_0@.len() > 0,
        block.kind->Block_0@.last() == Item::Expr(Box::new(value)),
    ensures
        ({
            let events = value_events(context, expected, block, levels);
            let inner = value_events(context, expected, value, (levels - 1) as nat);
            &&& events.len() == inner.len() + 2
            &&& events[0] == SpecValueEvent::OpenBlock(block.kind->Block_0@)
            &&& events[events.len() - 1] == SpecValueEvent::CloseBlock
            &&& events.subrange(1, events.len() - 1) == inner
        }),
{
    let below = (levels - 1) as nat;
    let items = block.kind->Block_0@;
    if !(expected is SlotRecord) {
        assert(ungrouped(block) == block);
        values_are_looked_at_by_form(context, expected, block, levels);
        assert(plain_events(context, expected, block, below) == block_events(
            context,
            expected,
            items,
            below,
        ));
    }
    assert(block_events(context, expected, items, below) == seq![
        SpecValueEvent::OpenBlock(items),
    ] + value_events(context, expected, value, below) + seq![SpecValueEvent::CloseBlock]);
    let events = value_events(context, expected, block, levels);
    let inner = value_events(context, expected, value, (levels - 1) as nat);
    assert(events.subrange(1, events.len() - 1) =~= inner);
}

/// A block without a last value is opened and closed.
pub proof fn blocks_without_a_value_hold_nothing(
    context: SpecValueContext,
    expected: SpecType,
    block: Expr,
    levels: nat,
)
    requires
        levels > 0,
        !(expected is Recursive),
        block.kind is Block,
        block.kind->Block_0@.len() > 0 ==> !(block.kind->Block_0@.last() is Expr),
    ensures
        value_events(context, expected, block, levels) == seq![
            SpecValueEvent::OpenBlock(block.kind->Block_0@),
            SpecValueEvent::CloseBlock,
        ],
{
    let below = (levels - 1) as nat;
    let items = block.kind->Block_0@;
    if !(expected is SlotRecord) {
        assert(ungrouped(block) == block);
        values_are_looked_at_by_form(context, expected, block, levels);
        assert(plain_events(context, expected, block, below) == block_events(
            context,
            expected,
            items,
            below,
        ));
    }
    assert(block_events(context, expected, items, below) =~= seq![
        SpecValueEvent::OpenBlock(items),
    ] + Seq::<SpecValueEvent>::empty() + seq![SpecValueEvent::CloseBlock]);
    assert(value_events(context, expected, block, levels) =~= seq![
        SpecValueEvent::OpenBlock(block.kind->Block_0@),
        SpecValueEvent::CloseBlock,
    ]);
}

/// A group is held against a type as the value in it is.
pub proof fn groups_hold_what_is_in_them(
    context: SpecValueContext,
    expected: SpecType,
    group: Expr,
    levels: nat,
)
    requires
        levels > 0,
        !(expected is Recursive),
        !is_branded(context, expected),
        group.kind is Group,
    ensures
        value_events(context, expected, group, levels) == value_events(
            context,
            expected,
            *group.kind->Group_0,
            (levels - 1) as nat,
        ),
{
    if !(expected is SlotRecord) {
        values_are_looked_at_by_form(context, expected, group, levels);
    }
}

/// A block of one value and a group of it find the same but for opening and closing.
pub proof fn blocks_and_groups_find_the_same(
    context: SpecValueContext,
    expected: SpecType,
    block: Expr,
    group: Expr,
    levels: nat,
)
    requires
        levels > 0,
        !(expected is Recursive),
        !is_branded(context, expected),
        group.kind is Group,
        block.kind is Block,
        block.kind->Block_0@ == seq![Item::Expr(Box::new(*group.kind->Group_0))],
    ensures
        value_events(context, expected, block, levels) == seq![
            SpecValueEvent::OpenBlock(block.kind->Block_0@),
        ] + value_events(context, expected, group, levels) + seq![SpecValueEvent::CloseBlock],
{
    let inner = *group.kind->Group_0;
    assert(block.kind->Block_0@.last() == Item::Expr(Box::new(inner)));
    groups_hold_what_is_in_them(context, expected, group, levels);
    blocks_hold_their_last_value(context, expected, block, inner, levels);
    let events = value_events(context, expected, block, levels);
    let part = value_events(context, expected, inner, (levels - 1) as nat);
    assert(events =~= seq![SpecValueEvent::OpenBlock(block.kind->Block_0@)] + part + seq![
        SpecValueEvent::CloseBlock,
    ]) by {
        assert forall|i: int| 1 <= i < events.len() - 1 implies #[trigger] events[i] == part[i
            - 1] by {
            assert(events.subrange(1, events.len() - 1)[i - 1] == events[i]);
        }
    }
    assert(block.kind->Block_0@.last() == Item::Expr(Box::new(*group.kind->Group_0)));
}

// ---------------------------------------------------------------------------
// Types around types
// ---------------------------------------------------------------------------
/// Whether a value is written out: a literal, a tuple, a record, a tag, an array or a set.
pub open spec fn is_spelled(value: Expr) -> bool {
    match value.kind {
        ExprKind::Literal(_) => true,
        ExprKind::Tuple(_) => true,
        ExprKind::Record(_) => true,
        ExprKind::Tag(_) => true,
        ExprKind::Array(_) => true,
        ExprKind::SetLiteral(_) => true,
        _ => false,
    }
}

/// `undefined` fits an optional type, and a value that is written out fits it as it fits the
/// type in it.
pub proof fn optional_types_take_their_payload(
    context: SpecValueContext,
    inner: SpecType,
    value: Expr,
    levels: nat,
)
    requires
        levels > 0,
    ensures
        ({
            let events = value_events(
                context,
                SpecType::Optional(Box::new(inner)),
                value,
                levels,
            );
            &&& value.kind is Undefined ==> events.len() == 0
            &&& is_spelled(value) ==> events == value_events(
                context,
                inner,
                value,
                (levels - 1) as nat,
            )
            &&& value.kind is Null ==> events == seq![
                SpecValueEvent::Infer {
                    value,
                    expected: SpecType::Optional(Box::new(inner)),
                    active: context.comparison.active,
                },
            ]
        }),
{
    let below = (levels - 1) as nat;
    let expected = SpecType::Optional(Box::new(inner));
    values_are_looked_at_by_form(context, expected, value, levels);
    if value.kind is Null {
        assert(plain_events(context, expected, value, below) == shape_events(
            context,
            expected,
            value,
            below,
        ));
    }
}

/// `null` fits a nullable type, and a value that is written out fits it as it fits the type in
/// it.
pub proof fn nullable_types_take_their_payload(
    context: SpecValueContext,
    inner: SpecType,
    value: Expr,
    levels: nat,
)
    requires
        levels > 0,
    ensures
        ({
            let events = value_events(
                context,
                SpecType::Nullable(Box::new(inner)),
                value,
                levels,
            );
            &&& value.kind is Null ==> events.len() == 0
            &&& is_spelled(value) ==> events == value_events(
                context,
                inner,
                value,
                (levels - 1) as nat,
            )
            &&& value.kind is Undefined ==> events == seq![
                SpecValueEvent::Infer {
                    value,
                    expected: SpecType::Nullable(Box::new(inner)),
                    active: context.comparison.active,
                },
            ]
        }),
{
    let below = (levels - 1) as nat;
    let expected = SpecType::Nullable(Box::new(inner));
    values_are_looked_at_by_form(context, expected, value, levels);
    if value.kind is Undefined {
        assert(plain_events(context, expected, value, below) == shape_events(
            context,
            expected,
            value,
            below,
        ));
    }
}

/// A value is held against what a recursive type unfolds to, once: inside it, the type is taken
/// to fit.
pub proof fn recursive_types_unfold_for_values(
    context: SpecValueContext,
    id: RecursiveTypeId,
    value: Expr,
    levels: nat,
)
    requires
        levels > 0,
        !(value.kind is Name),
        !(value.kind is ComptimeName),
        context.comparison.recursive.unfolding(id) is Some,
        context.comparison.recursive.unfolding(id)->0 != SpecType::Recursive(id),
    ensures
        ({
            let events = value_events(context, SpecType::Recursive(id), value, levels);
            let inside = SpecValueContext {
                comparison: crate::comparison::SpecComparison {
                    active: context.comparison.active.push(id),
                    ..context.comparison
                },
                ..context
            };
            if context.comparison.active.contains(id) {
                events.len() == 0
            } else {
                events == value_events(
                    inside,
                    context.comparison.recursive.unfolding(id)->0,
                    value,
                    (levels - 1) as nat,
                )
            }
        }),
{
}

// ---------------------------------------------------------------------------
// Values that are asked about
// ---------------------------------------------------------------------------
/// The type of a name is compared with the one that is expected.
pub proof fn names_are_compared(
    context: SpecValueContext,
    expected: SpecType,
    value: Expr,
    levels: nat,
)
    requires
        levels > 0,
        !(expected is SlotRecord),
        !is_branded(context, expected),
        value.kind is Name || value.kind is ComptimeName,
    ensures
        value_events(context, expected, value, levels) == seq![
            SpecValueEvent::Name { value, expected, active: context.comparison.active },
        ],
{
    values_are_looked_at_by_form(context, expected, value, levels);
}

/// A function is held against a function type; against another one, its type is inferred.
pub proof fn functions_are_held_against_functions(
    context: SpecValueContext,
    expected: SpecType,
    value: Expr,
    levels: nat,
)
    requires
        levels > 0,
        !(expected is SlotRecord),
        !(expected is Recursive),
        value.kind is Lambda,
    ensures
        ({
            let active = context.comparison.active;
            value_events(context, expected, value, levels) == seq![
                if expected is Function {
                    SpecValueEvent::Lambda { value, expected, active }
                } else {
                    SpecValueEvent::Infer { value, expected, active }
                },
            ]
        }),
{
    values_are_looked_at_by_form(context, expected, value, levels);
}

/// The arms of a match are held against the type.
pub proof fn matches_are_held_by_their_arms(
    context: SpecValueContext,
    expected: SpecType,
    value: Expr,
    levels: nat,
)
    requires
        levels > 0,
        !(expected is Recursive),
        value.kind is Match,
    ensures
        value_events(context, expected, value, levels) == seq![
            SpecValueEvent::Match { value, expected, active: context.comparison.active },
        ],
{
    if !(expected is SlotRecord) {
        match_forms(context, expected, value, levels);
    }
}

proof fn match_forms(
    context: SpecValueContext,
    expected: SpecType,
    value: Expr,
    levels: nat,
)
    requires
        levels > 0,
        !(expected is SlotRecord),
        !(expected is Recursive),
        value.kind is Match || value.kind is Binary || value.kind is Unary
            || value.kind is FieldAccess || value.kind is Index || value.kind is Propagate
            || value.kind is Interpolation,
    ensures
        value_events(context, expected, value, levels) == shape_events(
            context,
            expected,
            value,
            (levels - 1) as nat,
        ),
{
    assert(ungrouped(value) == value);
    values_are_looked_at_by_form(context, expected, value, levels);
    assert(plain_events(context, expected, value, (levels - 1) as nat) == shape_events(
        context,
        expected,
        value,
        (levels - 1) as nat,
    ));
}

/// What is no written-out value, no name, no function, no block, no match and no call is
/// inferred, and its type is compared.
pub proof fn other_values_are_inferred(
    context: SpecValueContext,
    expected: SpecType,
    value: Expr,
    levels: nat,
)
    requires
        levels > 0,
        !(expected is SlotRecord),
        !(expected is Recursive),
        value.kind is Binary || value.kind is Unary || value.kind is FieldAccess
            || value.kind is Index || value.kind is Propagate || value.kind is Interpolation,
    ensures
        value_events(context, expected, value, levels) == seq![
            SpecValueEvent::Infer { value, expected, active: context.comparison.active },
        ],
{
    match_forms(context, expected, value, levels);
}

/// A value that is no block and no match is asked for the methods that a type with methods
/// names.
pub proof fn methods_are_asked_for(
    context: SpecValueContext,
    expected: SpecType,
    value: Expr,
    levels: nat,
)
    requires
        levels > 0,
        expected is SlotRecord,
    ensures
        ({
            let events = value_events(context, expected, value, levels);
            let active = context.comparison.active;
            &&& value.kind is Group ==> events == value_events(
                context,
                expected,
                *value.kind->Group_0,
                (levels - 1) as nat,
            )
            &&& !(value.kind is Group) && !(value.kind is Block) && !(value.kind is Match)
                ==> events == seq![SpecValueEvent::Slots { value, expected, active }]
        }),
{
}

// ---------------------------------------------------------------------------
// Literals
// ---------------------------------------------------------------------------
/// A literal fits a closed union of literals exactly where the union lists it.
pub proof fn literals_fit_unions_that_list_them(
    context: SpecValueContext,
    row: SpecRow,
    value: Expr,
    levels: nat,
)
    requires
        levels > 0,
        value.kind is Literal,
        context.facts.rows.len() == 0,
        all_literals(row),
        row.tail is Closed,
    ensures
        ({
            let literal = value.kind->Literal_0@;
            let events = value_events(context, SpecType::Variant(row), value, levels);
            if exists|i: int|
                0 <= i < row.entries.len() && (#[trigger] row.entries[i])->Literal_value
                    == literal {
                events.len() == 0
            } else {
                events == seq![
                    SpecValueEvent::LiteralNotInUnion { row, literal, span: value.span },
                ]
            }
        }),
{
    values_are_looked_at_by_form(context, SpecType::Variant(row), value, levels);
    let literal = value.kind->Literal_0@;
    let listed = crate::comparison::literals_of(row);
    assert forall|i: int| 0 <= i < row.entries.len() implies #[trigger] row.entries[i]
        is Literal by {}
    if exists|i: int|
        0 <= i < row.entries.len() && (#[trigger] row.entries[i])->Literal_value == literal {
        let index = choose|i: int|
            0 <= i < row.entries.len() && (#[trigger] row.entries[i])->Literal_value == literal;
        assert(listed[index] == literal);
        assert(listed.contains(literal));
        assert(row_base(row) is Some ==> base_of(row.entries[index]->Literal_value) == row_base(
            row,
        ));
    } else if listed.contains(literal) {
        let index = choose|i: int| 0 <= i < listed.len() && listed[i] == literal;
        assert(row.entries[index]->Literal_value == literal);
    }
}

/// A literal does not fit a variant of tags.
pub proof fn literals_do_not_fit_tags(
    context: SpecValueContext,
    row: SpecRow,
    value: Expr,
    levels: nat,
)
    requires
        levels > 0,
        value.kind is Literal,
        context.facts.rows.len() == 0,
        exists|i: int| 0 <= i < row.entries.len() && !((#[trigger] row.entries[i]) is Literal),
    ensures
        value_events(context, SpecType::Variant(row), value, levels) == seq![
            SpecValueEvent::LiteralMismatch {
                row,
                literal: value.kind->Literal_0@,
                span: value.span,
            },
        ],
{
    values_are_looked_at_by_form(context, SpecType::Variant(row), value, levels);
    let index = choose|i: int|
        0 <= i < row.entries.len() && !((#[trigger] row.entries[i]) is Literal);
    assert(!(row.entries[index] is Literal));
}

/// A literal is compared with a known type by its name.
pub proof fn literals_are_compared_with_names(
    context: SpecValueContext,
    name: Seq<char>,
    value: Expr,
    levels: nat,
)
    requires
        levels > 0,
        value.kind is Literal,
        !is_branded(context, SpecType::Named(name)),
    ensures
        value_events(context, SpecType::Named(name), value, levels) == (
        if context.comparison.known_types.contains(name) {
            seq![SpecValueEvent::LiteralOfName { value, name }]
        } else {
            Seq::empty()
        }),
{
    values_are_looked_at_by_form(context, SpecType::Named(name), value, levels);
}

/// The name of the builtin type of a literal.
pub open spec fn builtin_of(literal: SpecLiteral) -> Seq<char> {
    match literal {
        SpecLiteral::Bool(_) => "Bool"@,
        SpecLiteral::String(_) => "Text"@,
        SpecLiteral::Number(text) => if text.contains('.') || text.contains('e') || text.contains(
            'E',
        ) {
            "Float"@
        } else {
            "Int"@
        },
        SpecLiteral::Regex(_) => Seq::empty(),
    }
}

/// A literal becomes a value of a family whose base is the literal's builtin type, and does not
/// fit a family with another base.
pub proof fn literals_become_values_of_families(
    context: SpecValueContext,
    name: Seq<char>,
    value: Expr,
    levels: nat,
)
    requires
        levels > 0,
        value.kind is Literal,
        !(value.kind->Literal_0@ is Regex),
        is_branded(context, SpecType::Named(name)),
    ensures
        ({
            let literal = value.kind->Literal_0@;
            value_events(context, SpecType::Named(name), value, levels) == seq![
                if context.comparison.family_bases[name] == SpecType::Named(builtin_of(literal)) {
                    SpecValueEvent::Brand { owner: context.aliases[name], span: value.span }
                } else {
                    SpecValueEvent::BrandMismatch {
                        expected: SpecType::Named(name),
                        found: builtin_of(literal),
                        span: value.span,
                    }
                },
            ]
        }),
{
    assert(ungrouped(value) == value);
    let below = (levels - 1) as nat;
    let expected = SpecType::Named(name);
    let literal = value.kind->Literal_0@;
    assert(crate::comparison::literal_type_name(literal) == Some(builtin_of(literal)));
    assert(branded_events(context, expected, value, below) == seq![
        if context.comparison.family_bases[name] == SpecType::Named(builtin_of(literal)) {
            SpecValueEvent::Brand { owner: context.aliases[name], span: value.span }
        } else {
            SpecValueEvent::BrandMismatch {
                expected,
                found: builtin_of(literal),
                span: value.span,
            }
        },
    ]);
}

// ---------------------------------------------------------------------------
// Tuples and tags
// ---------------------------------------------------------------------------
/// A tuple of one more element finds what the shorter one finds, and then what that element
/// finds against its type.
pub proof fn tuples_are_held_element_by_element(
    context: SpecValueContext,
    types: Seq<SpecType>,
    ty: SpecType,
    shorter: Expr,
    longer: Expr,
    element: Expr,
    levels: nat,
)
    requires
        levels > 0,
        shorter.kind is Tuple,
        longer.kind is Tuple,
        longer.kind->Tuple_0@ == shorter.kind->Tuple_0@.push(element),
        types.len() == shorter.kind->Tuple_0@.len(),
    ensures
        value_events(context, SpecType::Tuple(types.push(ty)), longer, levels) == value_events(
            context,
            SpecType::Tuple(types),
            shorter,
            levels,
        ) + value_events(context, ty, element, (levels - 1) as nat),
        types.len() == 0 ==> value_events(context, SpecType::Tuple(types), shorter, levels).len()
            == 0,
{
    values_are_looked_at_by_form(context, SpecType::Tuple(types), shorter, levels);
    values_are_looked_at_by_form(context, SpecType::Tuple(types.push(ty)), longer, levels);
    lists_start_alike(
        context,
        types,
        types.push(ty),
        shorter.kind->Tuple_0@,
        longer.kind->Tuple_0@,
        types.len(),
        (levels - 1) as nat,
    );
}

proof fn lists_start_alike(
    context: SpecValueContext,
    types: Seq<SpecType>,
    other_types: Seq<SpecType>,
    values: Seq<Expr>,
    other_values: Seq<Expr>,
    count: nat,
    levels: nat,
)
    requires
        count <= types.len(),
        count <= other_types.len(),
        count <= values.len(),
        count <= other_values.len(),
        forall|i: int| 0 <= i < count ==> types[i] == other_types[i] && values[i] == other_values[i],
    ensures
        list_events(context, types, values, count, levels) == list_events(
            context,
            other_types,
            other_values,
            count,
            levels,
        ),
    decreases count,
{
    if count > 0 {
        lists_start_alike(
            context,
            types,
            other_types,
            values,
            other_values,
            (count - 1) as nat,
            levels,
        );
    }
}

/// A tuple does not fit a tuple type of another length, which is found first.
pub proof fn tuples_of_other_lengths_do_not_fit(
    context: SpecValueContext,
    types: Seq<SpecType>,
    value: Expr,
    levels: nat,
)
    requires
        levels > 0,
        value.kind is Tuple,
        value.kind->Tuple_0@.len() != types.len(),
    ensures
        ({
            let events = value_events(context, SpecType::Tuple(types), value, levels);
            events.len() > 0 && events[0] == SpecValueEvent::TupleArity {
                expected: types.len(),
                found: value.kind->Tuple_0@.len(),
                span: value.span,
            }
        }),
{
    values_are_looked_at_by_form(context, SpecType::Tuple(types), value, levels);
}

/// Whether an entry of a row is the tag of a name.
pub open spec fn is_tag(entry: SpecRowEntry, name: Seq<char>) -> bool {
    entry is Tag && entry->Tag_name == name
}

proof fn only_payload_is_found(entries: Seq<SpecRowEntry>, tag: Seq<char>, index: int)
    requires
        0 <= index < entries.len(),
        is_tag(entries[index], tag),
        forall|i: int| 0 <= i < entries.len() && i != index ==> !is_tag(#[trigger] entries[i], tag),
    ensures
        crate::rows::last_payload(entries, tag) == Some(entries[index]->Tag_payload),
    decreases entries.len(),
{
    let others = entries.drop_last();
    if index < entries.len() - 1 {
        assert forall|i: int| 0 <= i < others.len() && i != index implies !is_tag(
            #[trigger] others[i],
            tag,
        ) by {
            assert(others[i] == entries[i]);
        }
        assert(others[index] == entries[index]);
        only_payload_is_found(others, tag, index);
        assert(!is_tag(entries[entries.len() - 1], tag));
    }
}

proof fn no_payload_is_found(entries: Seq<SpecRowEntry>, tag: Seq<char>)
    requires
        forall|i: int| 0 <= i < entries.len() ==> !is_tag(#[trigger] entries[i], tag),
    ensures
        crate::rows::last_payload(entries, tag) is None,
    decreases entries.len(),
{
    if entries.len() > 0 {
        let others = entries.drop_last();
        assert forall|i: int| 0 <= i < others.len() implies !is_tag(#[trigger] others[i], tag) by {
            assert(others[i] == entries[i]);
        }
        no_payload_is_found(others, tag);
        assert(!is_tag(entries[entries.len() - 1], tag));
    }
}

/// The arguments of a tag are held against its payload as the elements of a tuple are against
/// the types of one; an argument more or less is found first.
pub proof fn tags_are_held_by_their_payload(
    context: SpecValueContext,
    row: SpecRow,
    index: int,
    value: Expr,
    callee: Expr,
    tuple: Expr,
    levels: nat,
)
    requires
        levels > 0,
        0 <= index < row.entries.len(),
        forall|i: int| 0 <= i < row.entries.len() ==> #[trigger] row.entries[i] is Tag,
        forall|i: int|
            0 <= i < row.entries.len() && i != index ==> !is_tag(
                #[trigger] row.entries[i],
                row.entries[index]->Tag_name,
            ),
        callee.kind is Tag,
        callee.kind->Tag_0@ == row.entries[index]->Tag_name,
        value.kind is Call,
        *value.kind->Call_callee == callee,
        tuple.kind is Tuple,
        tuple.kind->Tuple_0@ == value.kind->Call_args@,
    ensures
        ({
            let payload = row.entries[index]->Tag_payload;
            let args = value.kind->Call_args@;
            let events = value_events(context, SpecType::Variant(row), value, levels);
            if payload.len() == args.len() {
                events == value_events(context, SpecType::Tuple(payload), tuple, levels)
            } else {
                events.len() > 0 && events[0] == SpecValueEvent::PayloadArity {
                    tag: callee.kind->Tag_0@,
                    expected: payload.len(),
                    found: args.len(),
                    span: value.span,
                }
            }
        }),
{
    values_are_looked_at_by_form(context, SpecType::Variant(row), value, levels);
    let tag = callee.kind->Tag_0@;
    assert(is_tag(row.entries[index], tag));
    only_payload_is_found(row.entries, tag, index);
    assert(all_tags(row));
    let payload = row.entries[index]->Tag_payload;
    let args = value.kind->Call_args@;
    let below = (levels - 1) as nat;
    values_are_looked_at_by_form(context, SpecType::Tuple(payload), tuple, levels);
    assert(shape_events(context, SpecType::Variant(row), value, below) == tag_events(
        context,
        row,
        tag,
        args,
        value.span,
        below,
    ));
}

/// A tag alone fits a variant that lists it without a payload.
pub proof fn bare_tags_fit(
    context: SpecValueContext,
    row: SpecRow,
    index: int,
    value: Expr,
    levels: nat,
)
    requires
        levels > 0,
        0 <= index < row.entries.len(),
        forall|i: int| 0 <= i < row.entries.len() ==> #[trigger] row.entries[i] is Tag,
        forall|i: int|
            0 <= i < row.entries.len() && i != index ==> !is_tag(
                #[trigger] row.entries[i],
                row.entries[index]->Tag_name,
            ),
        value.kind is Tag,
        value.kind->Tag_0@ == row.entries[index]->Tag_name,
    ensures
        ({
            let payload = row.entries[index]->Tag_payload;
            let events = value_events(context, SpecType::Variant(row), value, levels);
            if payload.len() == 0 {
                events.len() == 0
            } else {
                events.len() > 0 && events[0] == SpecValueEvent::PayloadArity {
                    tag: value.kind->Tag_0@,
                    expected: payload.len(),
                    found: 0,
                    span: value.span,
                }
            }
        }),
{
    values_are_looked_at_by_form(context, SpecType::Variant(row), value, levels);
    let tag = value.kind->Tag_0@;
    assert(is_tag(row.entries[index], tag));
    only_payload_is_found(row.entries, tag, index);
    assert(all_tags(row));
    let below = (levels - 1) as nat;
    let none = Seq::<Expr>::empty();
    let span = value.span;
    assert(shape_events(context, SpecType::Variant(row), value, below) == tag_events(
        context,
        row,
        value.kind->Tag_0@,
        none,
        span,
        below,
    ));
}

/// A tag that a variant does not list fits it only where the variant is not closed.
pub proof fn unknown_tags_are_found(
    context: SpecValueContext,
    row: SpecRow,
    value: Expr,
    levels: nat,
)
    requires
        levels > 0,
        value.kind is Tag,
        forall|i: int|
            0 <= i < row.entries.len() ==> #[trigger] row.entries[i] is Tag && !is_tag(
                row.entries[i],
                value.kind->Tag_0@,
            ),
    ensures
        value_events(context, SpecType::Variant(row), value, levels) == (if row.tail is Closed {
            seq![SpecValueEvent::UnknownTag { tag: value.kind->Tag_0@, span: value.span }]
        } else {
            Seq::empty()
        }),
{
    values_are_looked_at_by_form(context, SpecType::Variant(row), value, levels);
    no_payload_is_found(row.entries, value.kind->Tag_0@);
    assert(all_tags(row));
    let below = (levels - 1) as nat;
    let none = Seq::<Expr>::empty();
    let span = value.span;
    assert(shape_events(context, SpecType::Variant(row), value, below) == tag_events(
        context,
        row,
        value.kind->Tag_0@,
        none,
        span,
        below,
    ));
    assert(value_events(context, SpecType::Variant(row), value, levels) =~= (
    if row.tail is Closed {
        seq![SpecValueEvent::UnknownTag { tag: value.kind->Tag_0@, span: value.span }]
    } else {
        Seq::empty()
    }));
}

/// A value is wrapped in `Ok` or in `Err` where a result is expected, and held against the type
/// of the one or of the other.
pub proof fn results_are_held_by_their_payload(
    context: SpecValueContext,
    ok_ty: SpecType,
    error_ty: SpecType,
    value: Expr,
    callee: Expr,
    levels: nat,
)
    requires
        levels > 0,
        callee.kind is Tag,
        value.kind is Call,
        *value.kind->Call_callee == callee,
        value.kind->Call_args@.len() == 1,
    ensures
        ({
            let expected = SpecType::Apply {
                callee: Box::new(SpecType::Named("Result"@)),
                args: seq![ok_ty, error_ty],
            };
            let argument = value.kind->Call_args@[0];
            let events = value_events(context, expected, value, levels);
            let below = (levels - 1) as nat;
            &&& callee.kind->Tag_0@ == "Ok"@ ==> events == value_events(
                context,
                ok_ty,
                argument,
                below,
            )
            &&& callee.kind->Tag_0@ == "Err"@ ==> events == value_events(
                context,
                error_ty,
                argument,
                below,
            )
        }),
{
    reveal_strlit("Ok");
    reveal_strlit("Err");
    assert("Ok"@.len() == 2 && "Err"@.len() == 3);
    assert(ungrouped(callee) == callee);
    let expected = SpecType::Apply {
        callee: Box::new(SpecType::Named("Result"@)),
        args: seq![ok_ty, error_ty],
    };
    values_are_looked_at_by_form(context, expected, value, levels);
    let below = (levels - 1) as nat;
    let tag = callee.kind->Tag_0@;
    if tag == "Ok"@ || tag == "Err"@ {
        assert(shape_events(context, expected, value, below) == result_events(
            context,
            expected,
            tag,
            value.kind->Call_args@,
            value.span,
            below,
        ));
    }
}

// ---------------------------------------------------------------------------
// Collections
// ---------------------------------------------------------------------------
/// A collection of one more entry finds what the shorter one finds, and then what the entry
/// finds: an element against the type of the elements, what is spread against the type of the
/// collection.
pub proof fn collections_are_held_entry_by_entry(
    context: SpecValueContext,
    element: SpecType,
    shorter: Expr,
    longer: Expr,
    entry: RecordEntry,
    levels: nat,
)
    requires
        levels > 0,
        ({
            ||| shorter.kind is Array && longer.kind is Array && longer.kind->Array_0@
                == shorter.kind->Array_0@.push(entry)
            ||| shorter.kind is SetLiteral && longer.kind is SetLiteral
                && longer.kind->SetLiteral_0@ == shorter.kind->SetLiteral_0@.push(entry)
        }),
    ensures
        ({
            let expected = SpecType::Apply {
                callee: Box::new(
                    SpecType::Named(if longer.kind is Array {
                        "Array"@
                    } else {
                        "Set"@
                    }),
                ),
                args: seq![element],
            };
            let before = value_events(context, expected, shorter, levels);
            let after = value_events(context, expected, longer, levels);
            let below = (levels - 1) as nat;
            &&& before.len() > 0 && before[0] is Markers
            &&& after.len() > 0 && after[0] is Markers
            &&& entry is Element ==> after.skip(1) == before.skip(1) + value_events(
                context,
                element,
                *entry->Element_0,
                below,
            )
            &&& entry is Spread ==> after.skip(1) == before.skip(1) + value_events(
                context,
                expected,
                *entry->Spread_value,
                below,
            )
        }),
{
    let (entries, others) = if longer.kind is Array {
        (shorter.kind->Array_0@, longer.kind->Array_0@)
    } else {
        (shorter.kind->SetLiteral_0@, longer.kind->SetLiteral_0@)
    };
    let expected = SpecType::Apply {
        callee: Box::new(
            SpecType::Named(if longer.kind is Array {
                "Array"@
            } else {
                "Set"@
            }),
        ),
        args: seq![element],
    };
    let below = (levels - 1) as nat;
    collections_start_alike(context, expected, element, entries, others, entries.len(), below);
    let before = value_events(context, expected, shorter, levels);
    let after = value_events(context, expected, longer, levels);
    values_are_looked_at_by_form(context, expected, shorter, levels);
    values_are_looked_at_by_form(context, expected, longer, levels);
    assert(before.skip(1) =~= collection_events(
        context,
        expected,
        element,
        entries,
        entries.len(),
        below,
    ));
    assert(after.skip(1) =~= collection_events(
        context,
        expected,
        element,
        others,
        others.len(),
        below,
    ));
    assert(others[others.len() - 1] == entry);
}

proof fn collections_start_alike(
    context: SpecValueContext,
    expected: SpecType,
    element: SpecType,
    entries: Seq<RecordEntry>,
    others: Seq<RecordEntry>,
    count: nat,
    levels: nat,
)
    requires
        count <= entries.len(),
        count <= others.len(),
        forall|i: int| 0 <= i < count ==> entries[i] == others[i],
    ensures
        collection_events(context, expected, element, entries, count, levels) == collection_events(
            context,
            expected,
            element,
            others,
            count,
            levels,
        ),
    decreases count,
{
    if count > 0 {
        collections_start_alike(
            context,
            expected,
            element,
            entries,
            others,
            (count - 1) as nat,
            levels,
        );
    }
}

// ---------------------------------------------------------------------------
// Records
// ---------------------------------------------------------------------------
/// The name of the field that an entry of a record adds.
pub open spec fn name_of_entry(entry: RecordEntry) -> Seq<char> {
    match entry {
        RecordEntry::Field { name, .. } => name@,
        RecordEntry::Shorthand { name, .. } => name@,
        _ => Seq::empty(),
    }
}

/// The place of the name of the field that an entry of a record adds.
pub open spec fn span_of_entry(entry: RecordEntry) -> crate::span::Span {
    match entry {
        RecordEntry::Field { name_span, .. } => name_span,
        RecordEntry::Shorthand { name_span, .. } => name_span,
        _ => added_span(entry),
    }
}

/// Whether entries add fields, each of another name.
pub open spec fn adds_distinct_fields(entries: Seq<RecordEntry>) -> bool {
    &&& forall|i: int|
        0 <= i < entries.len() ==> (#[trigger] entries[i] is Field && !entries[i]->Field_overwrite)
            || entries[i] is Shorthand
    &&& forall|i: int, j: int|
        0 <= i < j < entries.len() ==> name_of_entry(#[trigger] entries[i]) != name_of_entry(
            #[trigger] entries[j],
        )
}

spec fn event_of(
    context: SpecValueContext,
    row: SpecRow,
    entries: Seq<RecordEntry>,
    span: crate::span::Span,
    finding: RecordFinding,
    levels: nat,
) -> Seq<SpecValueEvent> {
    match finding {
        RecordFinding::Compare { required, present } => value_events(
            context,
            row.entries[required as int]->Field_ty,
            added_value(entries[present as int])->0,
            levels,
        ),
        RecordFinding::Missing { required } => seq![
            SpecValueEvent::MissingField { name: row.entries[required as int]->Field_name, span },
        ],
        RecordFinding::Unexpected { present } => seq![
            SpecValueEvent::UnexpectedField {
                name: crate::syntax::added_name(entries[present as int]),
                span: added_span(entries[present as int]),
            },
        ],
        RecordFinding::CheckAlone { present } => seq![
            SpecValueEvent::Check(added_value(entries[present as int])->0),
        ],
    }
}

proof fn findings_are_held(
    context: SpecValueContext,
    row: SpecRow,
    entries: Seq<RecordEntry>,
    span: crate::span::Span,
    findings: Seq<RecordFinding>,
    finding: RecordFinding,
    levels: nat,
)
    requires
        findings.contains(finding),
    ensures
        holds_events(
            fields_events(context, row, entries, span, findings, levels),
            event_of(context, row, entries, span, finding, levels),
        ),
    decreases findings.len(),
{
    let others = findings.drop_last();
    let last = findings[findings.len() - 1];
    let part = event_of(context, row, entries, span, finding, levels);
    let earlier = fields_events(context, row, entries, span, others, levels);
    let added = event_of(context, row, entries, span, last, levels);
    later_events_keep(earlier, added, part);
    let index = choose|i: int| 0 <= i < findings.len() && findings[i] == finding;
    if index < others.len() {
        assert(others[index] == finding);
        findings_are_held(context, row, entries, span, others, finding, levels);
    }
}

proof fn positions_are_found(entries: Seq<RecordEntry>, count: nat, name: Seq<char>)
    requires
        count <= entries.len(),
        adds_distinct_fields(entries),
    ensures
        match crate::comparison::last_position(
            crate::comparison::added_names(entries).take(count as int),
            name,
        ) {
            Some(position) => 0 <= position < count && name_of_entry(entries[position]) == name,
            None => forall|i: int|
                0 <= i < count ==> name_of_entry(#[trigger] entries[i]) != name,
        },
    decreases count,
{
    if count > 0 {
        let names = crate::comparison::added_names(entries);
        let shorter = names.take(count as int);
        assert(shorter.drop_last() =~= names.take(count - 1));
        assert(shorter.last() == crate::syntax::added_name(entries[count - 1]));
        assert(entries[count - 1] is Field || entries[count - 1] is Shorthand);
        positions_are_found(entries, (count - 1) as nat, name);
    }
}

proof fn asked_fields_are_found(
    row: SpecRow,
    entries: Seq<RecordEntry>,
    definitions: Map<Seq<char>, SpecType>,
    index: int,
    count: nat,
)
    requires
        0 <= index < count <= row.entries.len() <= usize::MAX,
        entries.len() <= usize::MAX,
        adds_distinct_fields(entries),
        row.entries[index] is Field,
    ensures
        ({
            let findings = asked_field_findings(row.entries, entries, definitions, count);
            let name = row.entries[index]->Field_name;
            &&& forall|j: int|
                0 <= j < entries.len() && name_of_entry(#[trigger] entries[j]) == name
                    && entries[j] is Field ==> findings.contains(
                    RecordFinding::Compare { required: index as usize, present: j as usize },
                )
            &&& (forall|j: int|
                0 <= j < entries.len() ==> name_of_entry(#[trigger] entries[j]) != name) && !(
            normal_form(row.entries[index]->Field_ty, definitions) is Optional)
                ==> findings.contains(RecordFinding::Missing { required: index as usize })
        }),
    decreases count,
{
    let name = row.entries[index]->Field_name;
    let names = crate::comparison::added_names(entries);
    let findings = asked_field_findings(row.entries, entries, definitions, count);
    let earlier = asked_field_findings(row.entries, entries, definitions, (count - 1) as nat);
    if index < count - 1 {
        asked_fields_are_found(row, entries, definitions, index, (count - 1) as nat);
        assert forall|finding: RecordFinding| earlier.contains(finding) implies findings.contains(
            finding,
        ) by {
            let place = choose|i: int| 0 <= i < earlier.len() && earlier[i] == finding;
            assert(findings[place] == finding);
        }
    } else {
        assert(names.take(entries.len() as int) =~= names);
        positions_are_found(entries, entries.len(), name);
        assert forall|j: int|
            0 <= j < entries.len() && name_of_entry(#[trigger] entries[j]) == name
                && entries[j] is Field implies findings.contains(
            RecordFinding::Compare { required: index as usize, present: j as usize },
        ) by {
            let position = crate::comparison::last_position(names, name)->0;
            assert(position == j);
            assert(findings[findings.len() - 1] == (RecordFinding::Compare {
                required: index as usize,
                present: j as usize,
            }));
        }
        if crate::comparison::last_position(names, name) is None && !(normal_form(
            row.entries[index]->Field_ty,
            definitions,
        ) is Optional) {
            assert(findings[findings.len() - 1] == (RecordFinding::Missing {
                required: index as usize,
            }));
        }
    }
}

proof fn other_fields_are_found(
    row: SpecRow,
    entries: Seq<RecordEntry>,
    index: int,
    count: nat,
)
    requires
        0 <= index < count <= entries.len() <= usize::MAX,
        entries[index] is Field || entries[index] is Shorthand,
        forall|i: int|
            0 <= i < row.entries.len() ==> (#[trigger] row.entries[i])->Field_name != name_of_entry(
                entries[index],
            ),
    ensures
        ({
            let findings = other_field_findings(row, entries, count);
            &&& !(row.tail is Open) ==> findings.contains(
                RecordFinding::Unexpected { present: index as usize },
            )
            &&& entries[index] is Field ==> findings.contains(
                RecordFinding::CheckAlone { present: index as usize },
            )
        }),
    decreases count,
{
    let findings = other_field_findings(row, entries, count);
    let earlier = other_field_findings(row, entries, (count - 1) as nat);
    if index < count - 1 {
        other_fields_are_found(row, entries, index, (count - 1) as nat);
        assert forall|finding: RecordFinding| earlier.contains(finding) implies findings.contains(
            finding,
        ) by {
            let place = choose|i: int| 0 <= i < earlier.len() && earlier[i] == finding;
            assert(findings[place] == finding);
        }
    } else {
        let names = field_names_of(row.entries);
        let name = crate::syntax::added_name(entries[index]);
        if names.contains(name) {
            let place = choose|i: int| 0 <= i < names.len() && names[i] == name;
            assert(row.entries[place]->Field_name == name);
        }
        if !(row.tail is Open) {
            assert(findings[earlier.len() as int] == (RecordFinding::Unexpected {
                present: index as usize,
            }));
            if entries[index] is Field {
                assert(findings[(earlier.len() + 1) as int] == (RecordFinding::CheckAlone {
                    present: index as usize,
                }));
            }
        } else if entries[index] is Field {
            assert(findings[earlier.len() as int] == (RecordFinding::CheckAlone {
                present: index as usize,
            }));
        }
    }
}

/// A record is held against a record type field by field: the value of a field that the type
/// names is held against the field's type, and a field that is not there is missing unless it
/// may be left out.
pub proof fn records_are_held_field_by_field(
    context: SpecValueContext,
    row: SpecRow,
    value: Expr,
    index: int,
    levels: nat,
)
    requires
        levels > 0,
        value.kind is Record,
        adds_distinct_fields(value.kind->Record_0@),
        0 <= index < row.entries.len() <= usize::MAX,
        forall|i: int| 0 <= i < row.entries.len() ==> #[trigger] row.entries[i] is Field,
    ensures
        ({
            let entries = value.kind->Record_0@;
            let name = row.entries[index]->Field_name;
            let ty = row.entries[index]->Field_ty;
            let events = value_events(context, SpecType::Record(row), value, levels);
            &&& forall|j: int|
                0 <= j < entries.len() && name_of_entry(#[trigger] entries[j]) == name
                    && entries[j] is Field ==> holds_events(
                    events,
                    value_events(context, ty, *entries[j]->Field_value, (levels - 1) as nat),
                )
            &&& (forall|j: int|
                0 <= j < entries.len() ==> name_of_entry(#[trigger] entries[j]) != name) && !(
            normal_form(ty, context.facts.definitions) is Optional) ==> holds_events(
                events,
                seq![SpecValueEvent::MissingField { name, span: value.span }],
            )
        }),
{
    let entries = value.kind->Record_0@;
    assert(entries.len() == value.kind->Record_0.len());
    let below = (levels - 1) as nat;
    let definitions = context.facts.definitions;
    let asked = asked_field_findings(row.entries, entries, definitions, row.entries.len());
    let others = other_field_findings(row, entries, entries.len());
    let findings = record_value_findings(row, entries, definitions);
    assert(lists_fields(entries));
    assert(all_fields(row));
    asked_fields_are_found(row, entries, definitions, index, row.entries.len());
    assert forall|finding: RecordFinding| #[trigger] asked.contains(finding) implies holds_events(
        value_events(context, SpecType::Record(row), value, levels),
        event_of(context, row, entries, value.span, finding, below),
    ) by {
        let place = choose|i: int| 0 <= i < asked.len() && asked[i] == finding;
        assert(findings[place] == finding);
        record_findings_are_held(context, row, value, finding, levels);
    }
    let ty = row.entries[index]->Field_ty;
    let name = row.entries[index]->Field_name;
    assert forall|j: int|
        0 <= j < entries.len() && name_of_entry(#[trigger] entries[j]) == name
            && entries[j] is Field implies holds_events(
        value_events(context, SpecType::Record(row), value, levels),
        value_events(context, ty, *entries[j]->Field_value, below),
    ) by {
        assert(asked.contains(
            RecordFinding::Compare { required: index as usize, present: j as usize },
        ));
    }
    if (forall|j: int| 0 <= j < entries.len() ==> name_of_entry(#[trigger] entries[j]) != name)
        && !(normal_form(ty, definitions) is Optional) {
        assert(asked.contains(RecordFinding::Missing { required: index as usize }));
    }
}

proof fn record_findings_are_held(
    context: SpecValueContext,
    row: SpecRow,
    value: Expr,
    finding: RecordFinding,
    levels: nat,
)
    requires
        levels > 0,
        value.kind is Record,
        lists_fields(value.kind->Record_0@),
        all_fields(row),
        record_value_findings(
            row,
            value.kind->Record_0@,
            context.facts.definitions,
        ).contains(finding),
    ensures
        holds_events(
            value_events(context, SpecType::Record(row), value, levels),
            event_of(
                context,
                row,
                value.kind->Record_0@,
                value.span,
                finding,
                (levels - 1) as nat,
            ),
        ),
{
    let entries = value.kind->Record_0@;
    let below = (levels - 1) as nat;
    let findings = record_value_findings(row, entries, context.facts.definitions);
    let part = event_of(context, row, entries, value.span, finding, below);
    let fields = fields_events(context, row, entries, value.span, findings, below);
    let shorthands = shorthand_events(entries, entries.len());
    let markers = seq![SpecValueEvent::Markers { entries, record: true }];
    values_are_looked_at_by_form(context, SpecType::Record(row), value, levels);
    findings_are_held(context, row, entries, value.span, findings, finding, below);
    later_events_keep(shorthands, fields, part);
    later_events_keep(markers, shorthands + fields, part);
}

/// A field that a record type does not name is not expected, unless the type takes others; its
/// value is looked at by itself.
pub proof fn other_fields_are_not_expected(
    context: SpecValueContext,
    row: SpecRow,
    value: Expr,
    index: int,
    levels: nat,
)
    requires
        levels > 0,
        value.kind is Record,
        adds_distinct_fields(value.kind->Record_0@),
        0 <= index < value.kind->Record_0@.len(),
        forall|i: int|
            0 <= i < row.entries.len() ==> #[trigger] row.entries[i] is Field
                && row.entries[i]->Field_name != name_of_entry(value.kind->Record_0@[index]),
    ensures
        ({
            let entry = value.kind->Record_0@[index];
            let events = value_events(context, SpecType::Record(row), value, levels);
            &&& !(row.tail is Open) ==> holds_events(
                events,
                seq![
                    SpecValueEvent::UnexpectedField {
                        name: name_of_entry(entry),
                        span: span_of_entry(entry),
                    },
                ],
            )
            &&& entry is Field ==> holds_events(
                events,
                seq![SpecValueEvent::Check(*entry->Field_value)],
            )
        }),
{
    let entries = value.kind->Record_0@;
    assert(entries.len() == value.kind->Record_0.len());
    let definitions = context.facts.definitions;
    let asked = asked_field_findings(row.entries, entries, definitions, row.entries.len());
    let others = other_field_findings(row, entries, entries.len());
    let findings = record_value_findings(row, entries, definitions);
    assert(lists_fields(entries));
    assert(all_fields(row));
    assert(entries[index] is Field || entries[index] is Shorthand);
    other_fields_are_found(row, entries, index, entries.len());
    assert forall|finding: RecordFinding| others.contains(finding) implies findings.contains(
        finding,
    ) by {
        let place = choose|i: int| 0 <= i < others.len() && others[i] == finding;
        assert(findings[asked.len() + place] == finding);
    }
    if !(row.tail is Open) {
        record_findings_are_held(
            context,
            row,
            value,
            RecordFinding::Unexpected { present: index as usize },
            levels,
        );
    }
    if entries[index] is Field {
        record_findings_are_held(
            context,
            row,
            value,
            RecordFinding::CheckAlone { present: index as usize },
            levels,
        );
    }
}

} // verus!
