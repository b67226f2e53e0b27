//! What inferring the types of expressions is for.
use crate::expression_rules::{RuleFacts, SpecElementFinding, SpecRuleEvent};
use crate::inference::{
    first_default, inferred, inferred_all, inferred_elements, inferred_fields, inferred_kind,
    inferred_params, Fresh, InferenceFacts, SpecInferenceEvent,
};
use crate::normalize::normal_form;
use crate::span::Span;
use crate::syntax::{lists_fields, Expr, ExprKind, RecordEntry};
use crate::type_ops::type_map_view;
use crate::types::{types_view, RowTail, SpecRow, SpecRowEntry, SpecType};
use vstd::prelude::*;

verus! {

/// The type of an expression is noted at its place, after everything else.
pub proof fn types_are_noted(expr: Expr, facts: InferenceFacts, fresh: Fresh)
    ensures
        ({
            let whole = inferred(expr, facts, fresh);
            whole.events.len() > 0 && whole.events[whole.events.len() - 1]
                == SpecInferenceEvent::Record { span: expr.span, ty: whole.ty }
        }),
{
}

// ---------------------------------------------------------------------------
// Expressions without parts
// ---------------------------------------------------------------------------
/// A literal is of a variant that lists it and may list others. A pattern for texts has no
/// known type.
pub proof fn literals_are_of_their_variant(expr: Expr, facts: InferenceFacts, fresh: Fresh)
    requires
        expr.kind is Literal,
    ensures
        ({
            let literal = expr.kind->Literal_0;
            let whole = inferred(expr, facts, fresh);
            if literal is Regex {
                whole.ty == SpecType::Deferred && whole.fresh == fresh
            } else {
                &&& whole.ty is Variant
                &&& whole.ty->Variant_0.entries.len() == 1
                &&& whole.ty->Variant_0.entries[0] == SpecRowEntry::Literal { value: literal@ }
                &&& whole.ty->Variant_0.tail == RowTail::Var(fresh.tail)
                &&& whole.fresh.meta == fresh.meta
                &&& fresh.tail < u32::MAX ==> whole.fresh.tail == fresh.tail + 1
            }
        }),
{
    let whole = inferred(expr, facts, fresh);
    assert(whole.ty == inferred_kind(expr, facts, fresh).ty);
}

/// `undefined` and `null` are of the types of those names, a tag alone of the closed variant of
/// it, and an interpolated text is a text.
pub proof fn constants_have_their_types(expr: Expr, facts: InferenceFacts, fresh: Fresh)
    ensures
        ({
            let ty = inferred(expr, facts, fresh).ty;
            &&& expr.kind is Undefined ==> ty == SpecType::Named("Undefined"@)
            &&& expr.kind is Null ==> ty == SpecType::Named("Null"@)
            &&& expr.kind is Interpolation ==> ty == SpecType::Named("Text"@)
            &&& expr.kind is Missing ==> ty is Deferred
            &&& expr.kind is Tag ==> {
                &&& ty is Variant
                &&& ty->Variant_0.tail is Closed
                &&& ty->Variant_0.entries.len() == 1
                &&& ty->Variant_0.entries[0] is Tag
                &&& ty->Variant_0.entries[0]->Tag_name == expr.kind->Tag_0@
                &&& ty->Variant_0.entries[0]->Tag_payload.len() == 0
            }
        }),
{
    assert(inferred(expr, facts, fresh).ty == inferred_kind(expr, facts, fresh).ty);
}

/// A name has the type that is given for its place, which is asked for.
pub proof fn names_have_the_types_given(
    expr: Expr,
    facts: InferenceFacts,
    fresh: Fresh,
    index: int,
)
    requires
        expr.kind is Name || expr.kind is ComptimeName,
        0 <= index < facts.answers@.len(),
        facts.answers@[index].0 == expr.span,
        forall|i: int| 0 <= i < index ==> (#[trigger] facts.answers@[i]).0 != expr.span,
    ensures
        inferred(expr, facts, fresh).ty == facts.answers@[index].1@,
        inferred(expr, facts, fresh).fresh == fresh,
        inferred(expr, facts, fresh).events[0] == (SpecInferenceEvent::AskName {
            name: if expr.kind is Name {
                expr.kind->Name_0@
            } else {
                expr.kind->ComptimeName_0@
            },
            span: expr.span,
        }),
{
    first_place_is_found(facts.answers@, expr.span, 0, index);
    assert(inferred_kind(expr, facts, fresh).ty == facts.answers@[index].1@);
}

proof fn first_place_is_found<T>(entries: Seq<(Span, T)>, span: Span, from: int, index: int)
    requires
        0 <= from <= index < entries.len(),
        entries[index].0 == span,
        forall|i: int| 0 <= i < index ==> (#[trigger] entries[i]).0 != span,
    ensures
        crate::annotations::place_position(entries, span, from) == Some(index),
    decreases index - from,
{
    if from < index {
        assert(entries[from].0 != span);
        first_place_is_found(entries, span, from + 1, index);
    }
}

/// A group has the type of what is in it.
pub proof fn groups_have_the_type_in_them(expr: Expr, facts: InferenceFacts, fresh: Fresh)
    requires
        expr.kind is Group,
    ensures
        inferred(expr, facts, fresh).ty == inferred(*expr.kind->Group_0, facts, fresh).ty,
        inferred(expr, facts, fresh).fresh == inferred(*expr.kind->Group_0, facts, fresh).fresh,
{
    assert(inferred_kind(expr, facts, fresh) == inferred(*expr.kind->Group_0, facts, fresh));
}

// ---------------------------------------------------------------------------
// Tuples
// ---------------------------------------------------------------------------
proof fn lists_start_alike(
    items: Seq<Expr>,
    others: Seq<Expr>,
    facts: InferenceFacts,
    fresh: Fresh,
    count: nat,
)
    requires
        count <= items.len(),
        count <= others.len(),
        forall|i: int| 0 <= i < count ==> items[i] == others[i],
    ensures
        inferred_all(items, facts, fresh, count) == inferred_all(others, facts, fresh, count),
    decreases count,
{
    if count > 0 {
        lists_start_alike(items, others, facts, fresh, (count - 1) as nat);
    }
}

/// A tuple of one more element is of the types of the others and of that element.
pub proof fn tuples_are_of_their_elements(
    shorter: Expr,
    longer: Expr,
    element: Expr,
    facts: InferenceFacts,
    fresh: Fresh,
)
    requires
        shorter.kind is Tuple,
        longer.kind is Tuple,
        longer.kind->Tuple_0@ == shorter.kind->Tuple_0@.push(element),
    ensures
        ({
            let before = inferred(shorter, facts, fresh);
            let after = inferred(longer, facts, fresh);
            let last = inferred(element, facts, before.fresh);
            &&& before.ty is Tuple
            &&& after.ty is Tuple
            &&& after.ty->Tuple_0 == before.ty->Tuple_0.push(last.ty)
            &&& after.fresh == last.fresh
            &&& shorter.kind->Tuple_0@.len() == 0 ==> before.ty->Tuple_0.len() == 0
        }),
{
    let items = shorter.kind->Tuple_0@;
    let others = longer.kind->Tuple_0@;
    lists_start_alike(items, others, facts, fresh, items.len());
    assert(others[others.len() - 1] == element);
    let before = inferred_all(items, facts, fresh, items.len());
    let after = inferred_all(others, facts, fresh, others.len());
    assert(inferred_kind(shorter, facts, fresh).ty == SpecType::Tuple(before.types));
    assert(inferred_kind(longer, facts, fresh).ty == SpecType::Tuple(after.types));
}

// ---------------------------------------------------------------------------
// Collections
// ---------------------------------------------------------------------------
/// The entries of a collection literal.
pub open spec fn entries_of(expr: Expr) -> Seq<RecordEntry> {
    match expr.kind {
        ExprKind::Array(entries) => entries@,
        ExprKind::SetLiteral(entries) => entries@,
        _ => Seq::empty(),
    }
}

/// The place of the value that an entry of a collection adds.
pub open spec fn place_of_entry(entry: RecordEntry) -> Span {
    match entry {
        RecordEntry::Element(value) => value.span,
        RecordEntry::Spread { value, .. } => value.span,
        _ => Span { start: 0, end: 0 },
    }
}

/// Whether an entry can stand in a collection and its type goes together with the collection's.
pub open spec fn entry_fits(entry: RecordEntry, facts: InferenceFacts) -> bool {
    (entry is Element || entry is Spread) && !facts.misfits@.contains(place_of_entry(entry))
}

proof fn elements_fit_together(
    entries: Seq<RecordEntry>,
    constructor: Seq<char>,
    meta: u32,
    facts: InferenceFacts,
    fresh: Fresh,
    count: nat,
)
    requires
        count <= entries.len(),
    ensures
        inferred_elements(entries, constructor, meta, facts, fresh, count).fits <==> forall|i: int|
            0 <= i < count ==> entry_fits(#[trigger] entries[i], facts),
    decreases count,
{
    if count > 0 {
        elements_fit_together(entries, constructor, meta, facts, fresh, (count - 1) as nat);
        let earlier = inferred_elements(
            entries,
            constructor,
            meta,
            facts,
            fresh,
            (count - 1) as nat,
        );
        if earlier.fits {
            assert(forall|i: int| 0 <= i < count - 1 ==> entry_fits(#[trigger] entries[i], facts));
        } else {
            let i = choose|i: int| 0 <= i < count - 1 && !entry_fits(#[trigger] entries[i], facts);
            assert(!entry_fits(entries[i], facts));
        }
    }
}

/// An array literal is an array and a set literal is a set, of elements of one new unknown type;
/// nothing is known of one whose elements do not go together.
pub proof fn collections_are_of_their_constructor(
    expr: Expr,
    facts: InferenceFacts,
    fresh: Fresh,
)
    requires
        expr.kind is Array || expr.kind is SetLiteral,
    ensures
        ({
            let entries = entries_of(expr);
            let ty = inferred(expr, facts, fresh).ty;
            if forall|i: int| 0 <= i < entries.len() ==> entry_fits(#[trigger] entries[i], facts) {
                &&& ty is Apply
                &&& expr.kind is Array ==> *ty->Apply_callee == SpecType::Named("Array"@)
                &&& expr.kind is SetLiteral ==> *ty->Apply_callee == SpecType::Named("Set"@)
                &&& ty->Apply_args.len() == 1
                &&& ty->Apply_args[0] == SpecType::Meta(fresh.meta)
            } else {
                ty is Deferred
            }
        }),
{
    let entries = entries_of(expr);
    let constructor = if expr.kind is Array {
        "Array"@
    } else {
        "Set"@
    };
    elements_fit_together(
        entries,
        constructor,
        fresh.meta,
        facts,
        fresh.after_meta(),
        entries.len(),
    );
    assert(inferred_kind(expr, facts, fresh) == crate::inference::collected(
        entries,
        constructor,
        facts,
        fresh,
    ));
}

/// Whether an event asks for the type of an entry to go together with that of its collection:
/// an element with the type of the elements, what is spread with that of the collection.
pub open spec fn asks_to_unify(event: SpecInferenceEvent, entry: RecordEntry, ty: SpecType) -> bool {
    &&& event is Unify
    &&& event->Unify_span == place_of_entry(entry)
    &&& event->whole == (if entry is Element {
        ty->Apply_args[0]
    } else {
        ty
    })
}

proof fn elements_are_unified(
    entries: Seq<RecordEntry>,
    constructor: Seq<char>,
    meta: u32,
    facts: InferenceFacts,
    fresh: Fresh,
    index: int,
    count: nat,
)
    requires
        0 <= index < count <= entries.len(),
        forall|i: int| 0 <= i < count ==> entry_fits(#[trigger] entries[i], facts),
    ensures
        ({
            let events = inferred_elements(entries, constructor, meta, facts, fresh, count).events;
            exists|k: int|
                0 <= k < events.len() && asks_to_unify(
                    #[trigger] events[k],
                    entries[index],
                    crate::inference::collection_of(constructor, meta),
                )
        }),
    decreases count,
{
    elements_fit_together(entries, constructor, meta, facts, fresh, (count - 1) as nat);
    let earlier = inferred_elements(entries, constructor, meta, facts, fresh, (count - 1) as nat);
    let whole = inferred_elements(entries, constructor, meta, facts, fresh, count);
    let ty = crate::inference::collection_of(constructor, meta);
    assert(entry_fits(entries[count - 1], facts));
    if index < count - 1 {
        elements_are_unified(
            entries,
            constructor,
            meta,
            facts,
            fresh,
            index,
            (count - 1) as nat,
        );
        let k = choose|k: int|
            0 <= k < earlier.events.len() && asks_to_unify(
                #[trigger] earlier.events[k],
                entries[index],
                ty,
            );
        assert(whole.events[k] == earlier.events[k]);
    } else {
        assert(asks_to_unify(whole.events[whole.events.len() - 1], entries[index], ty));
    }
}

/// Every entry of a collection is asked to go together with it.
pub proof fn entries_go_together_with_their_collection(
    expr: Expr,
    facts: InferenceFacts,
    fresh: Fresh,
    index: int,
)
    requires
        expr.kind is Array || expr.kind is SetLiteral,
        ({
            let entries = entries_of(expr);
            &&& 0 <= index < entries.len()
            &&& forall|i: int| 0 <= i < entries.len() ==> entry_fits(#[trigger] entries[i], facts)
        }),
    ensures
        ({
            let entries = entries_of(expr);
            let whole = inferred(expr, facts, fresh);
            exists|k: int|
                0 <= k < whole.events.len() && asks_to_unify(
                    #[trigger] whole.events[k],
                    entries[index],
                    whole.ty,
                )
        }),
{
    let entries = entries_of(expr);
    let constructor = if expr.kind is Array {
        "Array"@
    } else {
        "Set"@
    };
    collections_are_of_their_constructor(expr, facts, fresh);
    elements_are_unified(
        entries,
        constructor,
        fresh.meta,
        facts,
        fresh.after_meta(),
        index,
        entries.len(),
    );
    elements_fit_together(
        entries,
        constructor,
        fresh.meta,
        facts,
        fresh.after_meta(),
        entries.len(),
    );
    let kind = inferred_kind(expr, facts, fresh);
    assert(kind == crate::inference::collected(entries, constructor, facts, fresh));
    let ty = crate::inference::collection_of(constructor, fresh.meta);
    let k = choose|k: int|
        0 <= k < kind.events.len() && asks_to_unify(#[trigger] kind.events[k], entries[index], ty);
    let whole = inferred(expr, facts, fresh);
    assert(whole.events[k] == kind.events[k]);
}

// ---------------------------------------------------------------------------
// Records
// ---------------------------------------------------------------------------
proof fn fields_start_alike(
    entries: Seq<RecordEntry>,
    others: Seq<RecordEntry>,
    facts: InferenceFacts,
    fresh: Fresh,
    count: nat,
)
    requires
        count <= entries.len(),
        count <= others.len(),
        forall|i: int| 0 <= i < count ==> entries[i] == others[i],
    ensures
        inferred_fields(entries, facts, fresh, count) == inferred_fields(
            others,
            facts,
            fresh,
            count,
        ),
    decreases count,
{
    if count > 0 {
        fields_start_alike(entries, others, facts, fresh, (count - 1) as nat);
    }
}

/// A record that lists its fields is of a closed record type. One more field adds its name with
/// the type of its value.
pub proof fn records_are_of_their_fields(
    shorter: Expr,
    longer: Expr,
    name: Seq<char>,
    value: Expr,
    facts: InferenceFacts,
    fresh: Fresh,
)
    requires
        shorter.kind is Record,
        longer.kind is Record,
        longer.kind->Record_0@.len() == shorter.kind->Record_0@.len() + 1,
        longer.kind->Record_0@.drop_last() == shorter.kind->Record_0@,
        longer.kind->Record_0@.last() is Field,
        longer.kind->Record_0@.last()->Field_name@ == name,
        *longer.kind->Record_0@.last()->Field_value == value,
        lists_fields(longer.kind->Record_0@),
    ensures
        ({
            let before = inferred(shorter, facts, fresh);
            let after = inferred(longer, facts, fresh);
            let last = inferred(value, facts, before.fresh);
            &&& before.ty is Record && before.ty->Record_0.tail is Closed
            &&& after.ty is Record && after.ty->Record_0.tail is Closed
            &&& after.ty->Record_0.entries == before.ty->Record_0.entries.push(
                SpecRowEntry::Field { name, ty: last.ty },
            )
            &&& after.fresh == last.fresh
            &&& shorter.kind->Record_0@.len() == 0 ==> before.ty->Record_0.entries.len() == 0
        }),
{
    let entries = shorter.kind->Record_0@;
    let others = longer.kind->Record_0@;
    assert forall|i: int| 0 <= i < entries.len() implies entries[i] == others[i] by {
        assert(others.drop_last()[i] == others[i]);
    }
    assert(lists_fields(entries)) by {
        assert forall|i: int| 0 <= i < entries.len() implies crate::syntax::adds_field(
            #[trigger] entries[i],
        ) by {
            assert(crate::syntax::adds_field(others[i]));
        }
        assert forall|i: int, j: int| 0 <= i < j < entries.len() implies crate::syntax::added_name(
            #[trigger] entries[i],
        ) != crate::syntax::added_name(#[trigger] entries[j]) by {
            assert(crate::syntax::added_name(others[i]) != crate::syntax::added_name(others[j]));
        }
    }
    fields_start_alike(entries, others, facts, fresh, entries.len());
    let before = inferred_fields(entries, facts, fresh, entries.len());
    let after = inferred_fields(others, facts, fresh, others.len());
    assert(inferred_kind(shorter, facts, fresh).ty == SpecType::Record(
        SpecRow { entries: before.entries, tail: RowTail::Closed },
    ));
    assert(inferred_kind(longer, facts, fresh).ty == SpecType::Record(
        SpecRow { entries: after.entries, tail: RowTail::Closed },
    ));
}

// ---------------------------------------------------------------------------
// Propagation and indices
// ---------------------------------------------------------------------------
/// A propagated result is of the type of its value; nothing is known of another value.
pub proof fn propagation_takes_the_value(expr: Expr, facts: InferenceFacts, fresh: Fresh)
    requires
        expr.kind is Propagate,
        facts.rule(expr.span) matches Some(RuleFacts::Propagate(_)),
    ensures
        ({
            let known = normal_form(
                (facts.rule(expr.span)->0)->Propagate_0@,
                type_map_view(facts.definitions@),
            );
            let ty = inferred(expr, facts, fresh).ty;
            if known is Apply && *known->Apply_callee == SpecType::Named("Result"@)
                && known->Apply_args.len() == 2 {
                ty == known->Apply_args[0]
            } else {
                ty is Deferred
            }
        }),
{
    assert(inferred(expr, facts, fresh).ty == inferred_kind(expr, facts, fresh).ty);
}

/// An element of an array, which is indexed by an integer, may be absent, and so may a value of
/// a map, which is indexed by a key.
pub proof fn elements_may_be_absent(expr: Expr, facts: InferenceFacts, fresh: Fresh)
    requires
        expr.kind is Index,
        expr.kind->Index_args@.len() == 1,
        facts.rule(expr.span) matches Some(RuleFacts::Index(_)),
    ensures
        ({
            let known = normal_form(
                (facts.rule(expr.span)->0)->Index_0.receiver@,
                type_map_view(facts.definitions@),
            );
            let whole = inferred(expr, facts, fresh);
            let receiver = inferred(*expr.kind->Index_callee, facts, fresh);
            let arg = inferred(expr.kind->Index_args@[0], facts, receiver.fresh);
            let said = whole.events[whole.events.len() - 2];
            &&& known is Apply && *known->Apply_callee == SpecType::Named("Array"@)
                && known->Apply_args.len() == 1 ==> {
                &&& whole.ty is Optional && *whole.ty->Optional_0 == known->Apply_args[0]
                &&& said == SpecInferenceEvent::Rule {
                    span: expr.span,
                    event: SpecRuleEvent::Argument {
                        expected: SpecType::Named("Int"@),
                        actual: arg.ty,
                    },
                }
            }
            &&& known is Apply && *known->Apply_callee == SpecType::Named("Map"@)
                && known->Apply_args.len() == 2 ==> {
                &&& whole.ty is Optional && *whole.ty->Optional_0 == known->Apply_args[1]
                &&& said == SpecInferenceEvent::Rule {
                    span: expr.span,
                    event: SpecRuleEvent::Argument {
                        expected: known->Apply_args[0],
                        actual: arg.ty,
                    },
                }
            }
        }),
{
    let receiver = inferred(*expr.kind->Index_callee, facts, fresh);
    let args = expr.kind->Index_args@;
    let list = inferred_all(args, facts, receiver.fresh, 1);
    reveal_with_fuel(inferred_all, 2);
    let arg = inferred(args[0], facts, receiver.fresh);
    assert(list.types =~= seq![arg.ty]);
    assert(list.types[0] == arg.ty);
    let kind = inferred_kind(expr, facts, fresh);
    let whole = inferred(expr, facts, fresh);
    assert(whole.events.len() == kind.events.len() + 1);
    if kind.events.len() > 0 {
        assert(whole.events[whole.events.len() - 2] == kind.events[kind.events.len() - 1]);
    }
}

/// The position of a tuple that a literal index names has the type of the element there; an
/// index behind the end is found.
pub proof fn positions_have_their_types(
    expr: Expr,
    facts: InferenceFacts,
    fresh: Fresh,
    index: nat,
)
    requires
        expr.kind is Index,
        expr.kind->Index_args@.len() == 1,
        facts.rule(expr.span) matches Some(RuleFacts::Index(_)),
        crate::access::tuple_index(expr.kind->Index_args@[0]) == Some(index),
        normal_form(
            (facts.rule(expr.span)->0)->Index_0.receiver@,
            type_map_view(facts.definitions@),
        ) is Tuple,
    ensures
        ({
            let items = normal_form(
                (facts.rule(expr.span)->0)->Index_0.receiver@,
                type_map_view(facts.definitions@),
            )->Tuple_0;
            let whole = inferred(expr, facts, fresh);
            let said = whole.events[whole.events.len() - 2];
            &&& index < items.len() ==> whole.ty == items[index as int]
            &&& index >= items.len() ==> {
                &&& whole.ty is Deferred
                &&& said == SpecInferenceEvent::Rule {
                    span: expr.span,
                    event: SpecRuleEvent::Indexed(
                        SpecElementFinding::OutOfRange { index, length: items.len() },
                    ),
                }
            }
        }),
{
    let kind = inferred_kind(expr, facts, fresh);
    let whole = inferred(expr, facts, fresh);
    assert(whole.events.len() == kind.events.len() + 1);
    assert(whole.events[whole.events.len() - 2] == kind.events[kind.events.len() - 1]);
}

// ---------------------------------------------------------------------------
// Functions and constructors
// ---------------------------------------------------------------------------
proof fn params_have_types(
    expr: Expr,
    known: crate::expression_rules::LambdaUse,
    facts: InferenceFacts,
    fresh: Fresh,
    count: nat,
)
    requires
        expr.kind is Lambda,
        known.annotations@.len() == expr.kind->Lambda_params@.len(),
        count <= expr.kind->Lambda_params@.len(),
    ensures
        ({
            let params = expr.kind->Lambda_params@;
            let types = inferred_params(params, known, facts, fresh, count).types;
            &&& types.len() == count
            &&& forall|i: int|
                0 <= i < count ==> {
                    &&& params[i].annotation is None ==> (#[trigger] types[i]) is Meta
                    &&& params[i].annotation is Some && known.annotations@[i] is Some ==> types[i]
                        == (known.annotations@[i]->0)@
                }
        }),
    decreases count,
{
    if count > 0 {
        params_have_types(expr, known, facts, fresh, (count - 1) as nat);
    }
}

proof fn first_default_is_first(params: Seq<crate::syntax::Param>, from: int)
    requires
        0 <= from <= params.len(),
    ensures
        from <= first_default(params, from) <= params.len(),
        forall|i: int| from <= i < first_default(params, from) ==> params[i].default is None,
        first_default(params, from) < params.len() ==> params[first_default(
            params,
            from,
        )].default is Some,
    decreases params.len() - from,
{
    if from < params.len() && params[from].default is None {
        first_default_is_first(params, from + 1);
    }
}

/// A function has a parameter type for each parameter, the annotated one or a new unknown one,
/// and needs its parameters up to the first with a default. Without an annotation of the result,
/// the result is of the type of the body.
pub proof fn functions_have_their_parameters(expr: Expr, facts: InferenceFacts, fresh: Fresh)
    requires
        expr.kind is Lambda,
        facts.rule(expr.span) matches Some(RuleFacts::Lambda(_)),
        (facts.rule(expr.span)->0)->Lambda_0.annotations@.len()
            == expr.kind->Lambda_params@.len(),
    ensures
        ({
            let known = (facts.rule(expr.span)->0)->Lambda_0;
            let params = expr.kind->Lambda_params@;
            let ty = inferred(expr, facts, fresh).ty;
            &&& ty is Function
            &&& ty->Function_params.len() == params.len()
            &&& forall|i: int|
                0 <= i < params.len() ==> {
                    &&& params[i].annotation is None ==> (#[trigger] ty->Function_params[i]) is Meta
                    &&& params[i].annotation is Some && known.annotations@[i] is Some
                        ==> ty->Function_params[i] == (known.annotations@[i]->0)@
                }
            &&& ty->required <= params.len()
            &&& forall|i: int| 0 <= i < ty->required ==> params[i].default is None
            &&& ty->required < params.len() ==> params[ty->required as int].default is Some
            &&& known.annotation is None && known.body is Some ==> *ty->Function_result
                == (known.body->0)@
            &&& known.annotation is Some && known.fits ==> *ty->Function_result
                == (known.annotation->0)@
        }),
{
    let known = (facts.rule(expr.span)->0)->Lambda_0;
    let params = expr.kind->Lambda_params@;
    params_have_types(expr, known, facts, fresh, params.len());
    first_default_is_first(params, 0);
    let ty = inferred(expr, facts, fresh).ty;
    assert(ty == inferred_kind(expr, facts, fresh).ty);
    assert(ty->Function_params == inferred_params(params, known, facts, fresh, params.len()).types);
}

/// A tag with known arguments is of the closed variant of the tag with their types.
pub proof fn constructors_are_of_their_tag(expr: Expr, facts: InferenceFacts, fresh: Fresh)
    requires
        expr.kind is Call,
        expr.kind->Call_callee.kind is Tag,
        facts.rule(expr.span) matches Some(RuleFacts::Constructor(_)),
        (facts.rule(expr.span)->0)->Constructor_0@.len() == expr.kind->Call_args@.len(),
        forall|i: int|
            0 <= i < expr.kind->Call_args@.len() ==> !crate::type_ops::some_node(
                #[trigger] types_view((facts.rule(expr.span)->0)->Constructor_0@)[i],
                crate::type_ops::is_deferred(),
            ),
    ensures
        ({
            let payload = types_view((facts.rule(expr.span)->0)->Constructor_0@);
            let ty = inferred(expr, facts, fresh).ty;
            &&& ty is Variant
            &&& ty->Variant_0.tail is Closed
            &&& ty->Variant_0.entries == seq![
                SpecRowEntry::Tag { name: expr.kind->Call_callee.kind->Tag_0@, payload },
            ]
        }),
{
    let payload = types_view((facts.rule(expr.span)->0)->Constructor_0@);
    assert(payload.len() == expr.kind->Call_args@.len());
    assert(inferred(expr, facts, fresh).ty == inferred_kind(expr, facts, fresh).ty);
}

// ---------------------------------------------------------------------------
// Matches
// ---------------------------------------------------------------------------
/// A match whose arm is known has the type of the body of that arm; one without arms has no
/// known type.
pub proof fn matches_have_the_type_of_the_known_arm(
    expr: Expr,
    facts: InferenceFacts,
    fresh: Fresh,
)
    requires
        expr.kind is Match,
        facts.rule(expr.span) matches Some(RuleFacts::Match(_)),
    ensures
        ({
            let known = (facts.rule(expr.span)->0)->Match_0;
            let arms = expr.kind->Match_arms@;
            let subject = inferred(*expr.kind->Match_subject, facts, fresh);
            let whole = inferred(expr, facts, fresh);
            &&& arms.len() == 0 ==> whole.ty is Deferred
            &&& known.bodies@.len() == arms.len() && known.selected is Some && known.selected->0
                < arms.len() ==> whole.ty == inferred(
                *arms[known.selected->0 as int].body,
                facts,
                subject.fresh,
            ).ty
        }),
{
    let known = (facts.rule(expr.span)->0)->Match_0;
    let arms = expr.kind->Match_arms@;
    let subject = inferred(*expr.kind->Match_subject, facts, fresh);
    assert(inferred(expr, facts, fresh).ty == inferred_kind(expr, facts, fresh).ty);
    if let Some(arm) = known.selected {
        if arms.len() > 0 && arm < arms.len() {
            assert(crate::inference::inferred_arm(arms, facts, subject.fresh, arm as int).ty
                == inferred(*arms[arm as int].body, facts, subject.fresh).ty);
        }
    }
}

} // verus!
