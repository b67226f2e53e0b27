//! Laws of what follows where a value is held against a type.
use crate::rows::{applied1, last_payload};
use crate::syntax::{Expr, ExprKind};
use crate::text::texts_view;
use crate::types::{types_view, RowTail, SpecRow, SpecRowEntry, SpecType};
use crate::values::{is_slot_step, is_tag_step, is_value_step, Branding, SlotStep, TagStep, ValueStep};
use vstd::prelude::*;

verus! {

/// An empty value fits the type that admits it, and no other one by itself. What is written out is
/// held against the payload of a type that admits empty values.
pub proof fn empty_values_fit_where_they_are_admitted(
    payload: SpecType,
    value: Expr,
    active: bool,
    unfolds: bool,
    step: ValueStep<'_, '_>,
    other: ValueStep<'_, '_>,
)
    requires
        is_value_step(
            SpecType::Optional(Box::new(payload)),
            value,
            active,
            unfolds,
            Branding::NoLiteral,
            step,
        ),
        is_value_step(
            SpecType::Nullable(Box::new(payload)),
            value,
            active,
            unfolds,
            Branding::NoLiteral,
            other,
        ),
    ensures
        value.kind is Undefined ==> step is Accept && !(other is Accept),
        value.kind is Null ==> other is Accept && !(step is Accept),
        value.kind is Literal || value.kind is Tuple || value.kind is Record || value.kind is Tag
            || value.kind is Array || value.kind is SetLiteral ==> step is Peel && step->Peel_0@
            == payload && other is Peel && other->Peel_0@ == payload,
        !(value.kind is Undefined) ==> !(step is Accept),
        !(value.kind is Null) ==> !(other is Accept),
{
}

/// A tuple is held against a tuple type of its length by its elements, and is told both lengths
/// otherwise; a record is held against a record type; and a collection against the element type
/// of its own constructor. Against anything else their types are compared.
pub proof fn structures_are_held_by_their_parts(
    expected: SpecType,
    element: SpecType,
    value: Expr,
    active: bool,
    unfolds: bool,
    step: ValueStep<'_, '_>,
)
    requires
        !(expected is Optional) && !(expected is Nullable) && !(expected is SlotRecord) && !(
        expected is Recursive),
        is_value_step(expected, value, active, unfolds, Branding::NoLiteral, step),
    ensures
        value.kind matches ExprKind::Tuple(elements) ==> (if expected is Tuple {
            if elements@.len() == expected->Tuple_0.len() {
                step is Tuple && *step->elements == elements && types_view(step->types@)
                    == expected->Tuple_0
            } else {
                step is TupleArity && step->TupleArity_expected == expected->Tuple_0.len()
                    && step->TupleArity_found == elements@.len()
            }
        } else {
            step is Infer
        }),
        value.kind matches ExprKind::Record(entries) ==> (if expected is Record {
            step is Record && step->Record_row@ == expected->Record_0 && *step->Record_entries
                == entries
        } else {
            step is Infer
        }),
        value.kind matches ExprKind::Array(entries) ==> (expected == applied1("Array"@, element)
            ==> step is Collection && step->element@ == element && *step->Collection_entries
            == entries) && (expected == applied1("Set"@, element) || expected is Named ==> step
            is Infer),
        value.kind matches ExprKind::SetLiteral(entries) ==> (expected == applied1(
            "Set"@,
            element,
        ) ==> step is Collection && step->element@ == element && *step->Collection_entries
            == entries) && (expected == applied1("Array"@, element) || expected is Named ==> step
            is Infer),
        value.kind is Lambda ==> (step is Lambda <==> expected is Function) && (step is Infer
            <==> !(expected is Function)),
        value.kind is Literal && expected is Named ==> step is LiteralAgainstName,
        value.kind is Literal && expected is Variant ==> step is LiteralAgainstVariant,
        value.kind is Literal && (expected is Tuple || expected is Record || expected is Function)
            ==> step is Infer,
{
    reveal_strlit("Array");
    reveal_strlit("Set");
    assert("Array"@.len() != "Set"@.len());
}

/// A literal for a family decides before its form does, and a value in a group, in a block or
/// in the arms of a match is looked at inside.
pub proof fn families_decide_on_literals_first(
    expected: SpecType,
    value: Expr,
    active: bool,
    unfolds: bool,
    branding: Branding,
    step: ValueStep<'_, '_>,
)
    requires
        !(expected is SlotRecord) && !(expected is Recursive),
        is_value_step(expected, value, active, unfolds, branding, step),
    ensures
        step is Brand <==> branding == Branding::Brand,
        step is BrandMismatch <==> branding == Branding::Mismatch,
        step is CheckBase <==> branding == Branding::CheckBase,
        branding == Branding::NoLiteral ==> (value.kind matches ExprKind::Group(inner) ==> step
            is Inner && *step->Inner_0 == *inner),
        branding == Branding::NoLiteral ==> (value.kind matches ExprKind::Block(items) ==> step
            is Block && *step->Block_0 == items),
        branding == Branding::NoLiteral ==> (value.kind matches ExprKind::Name(name) ==> step
            is Name && step->Name_0@ == name@),
        branding == Branding::NoLiteral ==> (value.kind matches ExprKind::Match {
            subject,
            arms,
        } ==> step is Match && *step->subject == *subject && *step->arms == arms),
{
}

/// A recursive type is unfolded for a value unless it is being looked at already: it then fits.
pub proof fn recursive_types_are_unfolded_once(
    expected: SpecType,
    value: Expr,
    step: ValueStep<'_, '_>,
    again: ValueStep<'_, '_>,
    branding: Branding,
)
    requires
        expected is Recursive,
        !(value.kind is Name) && !(value.kind is ComptimeName),
        is_value_step(expected, value, false, true, branding, step),
        is_value_step(expected, value, true, true, branding, again),
    ensures
        step == ValueStep::Unfold(expected->Recursive_0),
        again is Accept,
{
}

/// A tag of a variant takes as many arguments as its payload has types. A tag that is not listed
/// does not belong to a closed variant, and may belong to an open one. A variant of literals has
/// no tags.
pub proof fn tags_take_their_payload(
    entries: Seq<SpecRowEntry>,
    tail: RowTail,
    tag: Seq<char>,
    payload: Seq<SpecType>,
    arg_count: nat,
    listed: TagStep<'_>,
    missing: TagStep<'_>,
)
    requires
        forall|i: int|
            0 <= i < entries.len() ==> (#[trigger] entries[i]) is Tag && entries[i]->Tag_name
                != tag,
        is_tag_step(
            SpecRow { entries: entries.push(SpecRowEntry::Tag { name: tag, payload }), tail },
            tag,
            arg_count,
            listed,
        ),
        is_tag_step(SpecRow { entries, tail }, tag, arg_count, missing),
    ensures
        arg_count == payload.len() ==> listed is Payload && types_view(listed->Payload_0@)
            == payload,
        arg_count != payload.len() ==> listed is PayloadArity && listed->expected == payload.len()
            && listed->found == arg_count,
        tail is Closed ==> missing is UnknownTag,
        !(tail is Closed) ==> missing is Unknown,
{
    let more = entries.push(SpecRowEntry::Tag { name: tag, payload });
    assert(more.last() == SpecRowEntry::Tag { name: tag, payload });
    assert(last_payload(more, tag) == Some(payload));
    assert forall|i: int| 0 <= i < more.len() implies (#[trigger] more[i]) is Tag by {
        if i < entries.len() {
            assert(more[i] == entries[i]);
        }
    }
    assert(crate::rows::all_tags(SpecRow { entries: more, tail }));
    unlisted_tags_have_no_payload(entries, tag);
    assert(crate::rows::all_tags(SpecRow { entries, tail }));
}

proof fn unlisted_tags_have_no_payload(entries: Seq<SpecRowEntry>, tag: Seq<char>)
    requires
        forall|i: int|
            0 <= i < entries.len() ==> (#[trigger] entries[i]) is Tag && entries[i]->Tag_name
                != tag,
    ensures
        last_payload(entries, tag) is None,
    decreases entries.len(),
{
    if entries.len() > 0 {
        assert(entries[entries.len() - 1]->Tag_name != tag);
        assert forall|i: int| 0 <= i < entries.drop_last().len() implies (
        #[trigger] entries.drop_last()[i]) is Tag && entries.drop_last()[i]->Tag_name != tag by {
            assert(entries[i] is Tag);
        }
        unlisted_tags_have_no_payload(entries.drop_last(), tag);
    }
}

/// Two types with methods are compared. Of a value of another type nothing can be decided while
/// either the type may ask for more or the value is not known; else its methods are looked for,
/// and its data are compared where a family that is made of fields is asked for fields.
pub proof fn methods_are_looked_for(
    env: crate::lookup::SpecEnvironment,
    family_data: Map<Seq<char>, SpecType>,
    actual: SpecType,
    data: SpecRow,
    slots: SpecRow,
    step: SlotStep,
)
    requires
        is_slot_step(env, family_data, actual, data, slots, step),
    ensures
        step is Compare <==> actual is SlotRecord,
        !(actual is SlotRecord) ==> (step is OpenTarget <==> !(data.tail is Closed) || !(
        slots.tail is Closed)),
        !(actual is SlotRecord) && data.tail is Closed && slots.tail is Closed ==> (step
            is UnknownSource <==> actual is Deferred || actual is Variable || actual is Meta),
        step is Require ==> (step->data is Some <==> data.entries.len() > 0 && actual is Named
            && family_data.contains_key(actual->Named_0) && family_data[actual->Named_0]
            is Record),
        step is Require && step->data is Some ==> step->data->0@ == family_data[actual->Named_0],
        data.entries.len() == 0 ==> !(step is FieldsOfBuiltin),
        step is Require ==> texts_view(step->stored@) == crate::values::stored_slots(
            actual,
            slots.entries,
        ),
{
}

} // verus!
