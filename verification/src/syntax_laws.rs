//! Laws of texts, of places, and of what is read off the form of an expression.
use crate::artifacts::{
    all_value_shapes, holds_value, is_operation_shape, is_value_entry, is_value_shape,
};
use crate::lookup::slot_type;
use crate::operator_laws::{computes, connects, equates, groups_of_operators, orders};
use crate::operators::is_zero_text;
use crate::span::Span;
use crate::syntax::{
    callee_name, final_value, index_text, index_texts, is_import, is_union, literal_is_zero,
    name_of, needs_evaluation, receiver_text, result_tag, ungrouped, union_entries, union_parts,
    Expr, ExprKind, RecordEntry, SpecUnionEntry, SpecUnionPart,
};
use crate::text::{all_digits, digit_char, digits_value, joined, numeral_value, without_separators};
use crate::type_ops::float_text;
use crate::types::{Literal, RowTail, SpecLiteral, SpecRow, SpecRowEntry, SpecType};
use crate::values::{
    branding_of, fields_in_order, required_slots, stored_slots, stores_field, Branding, SpecSlot,
};
use vstd::prelude::*;

verus! {

// ---------------------------------------------------------------------------
// Texts
// ---------------------------------------------------------------------------
/// Texts are joined in order, with the separator between neighbours and nowhere else.
pub proof fn separators_stand_between(
    parts: Seq<Seq<char>>,
    more: Seq<char>,
    separator: Seq<char>,
)
    ensures
        joined(Seq::empty(), separator) == Seq::<char>::empty(),
        joined(seq![more], separator) == more,
        parts.len() > 0 ==> joined(parts.push(more), separator) == joined(parts, separator)
            + separator + more,
{
    assert(parts.push(more).drop_last() =~= parts);
    assert(parts.push(more).last() == more);
}

/// A numeral without its separators has the other characters in order and no separator.
pub proof fn separators_are_dropped(text: Seq<char>, more: Seq<char>)
    ensures
        !without_separators(text).contains('_'),
        !text.contains('_') ==> without_separators(text) == text,
        without_separators(text + more) == without_separators(text) + without_separators(more),
    decreases text.len() + more.len(),
{
    if more.len() > 0 {
        separators_are_dropped(text, more.drop_last());
        assert((text + more).drop_last() =~= text + more.drop_last());
        assert((text + more).last() == more.last());
        assert(without_separators(text + more) =~= without_separators(text) + without_separators(
            more,
        ));
    } else {
        assert(text + more =~= text);
        assert(without_separators(text) + without_separators(more) =~= without_separators(text));
        if text.len() > 0 {
            separators_are_dropped(text.drop_last(), more);
            let plain = without_separators(text.drop_last());
            if text.last() != '_' {
                assert(without_separators(text) == plain.push(text.last()));
                assert forall|i: int|
                    0 <= i < without_separators(text).len() implies without_separators(text)[i]
                    != '_' by {
                    if i < plain.len() {
                        assert(plain.contains(plain[i]));
                    }
                }
                if !text.contains('_') {
                    assert forall|i: int| 0 <= i < text.drop_last().len() implies text.drop_last()[i]
                        != '_' by {
                        assert(text.contains(text[i]));
                    }
                    assert(text.drop_last().push(text.last()) =~= text);
                }
            } else {
                assert(text.contains(text[text.len() - 1]));
            }
        }
    }
}

/// A numeral reads by its digits, from the most significant one on: a digit behind it multiplies
/// its value by ten and is added, zeros before it change nothing, and a sign negates or keeps it.
pub proof fn numerals_read_by_their_digits(text: Seq<char>, digit: int)
    requires
        text.len() > 0,
        all_digits(text),
        0 <= digit < 10,
    ensures
        numeral_value(text) is Some,
        numeral_value(text.push(digit_char(digit))) == Some(10 * numeral_value(text)->0 + digit),
        numeral_value(seq!['0'] + text) == numeral_value(text),
        numeral_value(seq!['-'] + text) == Some(-numeral_value(text)->0),
        numeral_value(seq!['+'] + text) == numeral_value(text),
        numeral_value(text.push('x')) is None,
{
    let longer = text.push(digit_char(digit));
    assert(crate::text::is_digit(digit_char(digit)));
    assert(all_digits(longer));
    assert(longer.drop_last() =~= text);
    assert(crate::text::is_digit(text[0]));
    assert(longer[0] == text[0]);
    leading_zeros_count_nothing(text);
    let padded = seq!['0'] + text;
    assert forall|i: int| 0 <= i < padded.len() implies crate::text::is_digit(
        #[trigger] padded[i],
    ) by {
        if i > 0 {
            assert(padded[i] == text[i - 1]);
        }
    }
    assert((seq!['-'] + text).skip(1) =~= text);
    assert((seq!['+'] + text).skip(1) =~= text);
    let wrong = text.push('x');
    assert(!crate::text::is_digit(wrong[wrong.len() - 1]));
    assert(wrong[0] == text[0]);
}

proof fn leading_zeros_count_nothing(text: Seq<char>)
    ensures
        digits_value(seq!['0'] + text) == digits_value(text),
    decreases text.len(),
{
    let padded = seq!['0'] + text;
    if text.len() == 0 {
        assert(padded.drop_last() =~= Seq::empty());
        assert(digits_value(padded.drop_last()) == 0);
        assert(padded.last() == '0');
    } else {
        leading_zeros_count_nothing(text.drop_last());
        assert(padded.drop_last() =~= seq!['0'] + text.drop_last());
        assert(padded.last() == text.last());
    }
}

// ---------------------------------------------------------------------------
// Places
// ---------------------------------------------------------------------------
/// Two places merge into the smallest that covers both, in either order.
pub proof fn merging_covers_both(left: Span, right: Span, other: Span)
    ensures
        left.merged(right).covers(left),
        left.merged(right).covers(right),
        other.covers(left) && other.covers(right) ==> other.covers(left.merged(right)),
        left.merged(right) == right.merged(left),
        left.merged(left) == left,
{
}

// ---------------------------------------------------------------------------
// Groups and names
// ---------------------------------------------------------------------------
/// Parentheses change nothing of what an expression is.
pub proof fn groups_change_nothing(grouped: Expr)
    requires
        grouped.kind is Group,
    ensures
        ({
            let inner = *grouped.kind->Group_0;
            &&& ungrouped(grouped) == ungrouped(inner)
            &&& !(ungrouped(grouped).kind is Group)
            &&& name_of(grouped) == name_of(inner)
            &&& callee_name(grouped) == callee_name(inner)
            &&& is_import(grouped) == is_import(inner)
            &&& result_tag(grouped) == result_tag(inner)
            &&& literal_is_zero(grouped) == literal_is_zero(inner)
            &&& needs_evaluation(grouped) == needs_evaluation(inner)
            &&& final_value(grouped) == final_value(inner)
            &&& is_union(grouped) == is_union(inner)
            &&& is_union(inner) ==> union_entries(grouped) == union_entries(inner)
            &&& is_union(inner) ==> union_parts(grouped) == union_parts(inner)
            &&& index_text(grouped) == index_text(inner)
            &&& receiver_text(grouped) == receiver_text(inner)
            &&& is_value_shape(grouped) == is_value_shape(inner)
            &&& is_operation_shape(grouped) == is_operation_shape(inner)
        }),
{
    groups_end(grouped);
}

proof fn groups_end(expr: Expr)
    ensures
        !(ungrouped(expr).kind is Group),
    decreases expr,
{
    if let ExprKind::Group(inner) = expr.kind {
        groups_end(*inner);
    }
}

/// A name is read from a name; a name at compile time can be called but is no runtime name; and
/// only `Ok` and `Err` construct results.
pub proof fn names_are_read(expr: Expr)
    ensures
        expr.kind is Name ==> name_of(expr) == Some(expr.kind->Name_0@) && callee_name(expr)
            == name_of(expr),
        expr.kind is ComptimeName ==> name_of(expr) is None && callee_name(expr) == Some(
            expr.kind->ComptimeName_0@,
        ),
        expr.kind is Tag ==> name_of(expr) is None && callee_name(expr) is None && result_tag(expr)
            == (if expr.kind->Tag_0@ == "Ok"@ || expr.kind->Tag_0@ == "Err"@ {
            Some(expr.kind->Tag_0@)
        } else {
            None
        }),
        expr.kind is Call || expr.kind is Literal || expr.kind is FieldAccess ==> name_of(expr)
            is None && callee_name(expr) is None && result_tag(expr) is None,
{
}

/// Whether an integer is written as zero does not depend on its sign. Numbers with a point,
/// other operators and other literals are no such integers.
pub proof fn signs_keep_zeros(expr: Expr)
    ensures
        expr.kind is Unary && expr.kind->Unary_operator@ == "-"@ ==> literal_is_zero(expr)
            == literal_is_zero(*expr.kind->Unary_value),
        expr.kind is Unary && expr.kind->Unary_operator@ != "-"@ ==> literal_is_zero(expr) is None,
        expr.kind matches ExprKind::Literal(Literal::Number(number)) ==> literal_is_zero(expr) == (
        if float_text(number@) {
            None
        } else {
            Some(is_zero_text(number@))
        }),
        expr.kind is Name || expr.kind is Binary || expr.kind is Call ==> literal_is_zero(expr)
            is None,
        expr.kind matches ExprKind::Literal(Literal::String(_)) ==> literal_is_zero(expr) is None,
{
}

/// A block has the value of its last item, if that is an expression.
pub proof fn blocks_have_the_value_of_their_last_item(block: Expr)
    ensures
        block.kind matches ExprKind::Block(items) ==> (items@.len() == 0 ==> final_value(block)
            is None) && (items@.len() > 0 && !(items@.last() is Expr) ==> final_value(block)
            is None) && (items@.len() > 0 && items@.last() is Expr ==> final_value(block)
            == final_value(*items@.last()->Expr_0)),
        !(block.kind is Block) && !(block.kind is Group) ==> final_value(block) == Some(block),
{
}

/// What computes is evaluated at compile time; names, literals, types and collections are not,
/// nor is the application of a constructor.
pub proof fn computations_are_evaluated(value: Expr)
    ensures
        value.kind is Binary || value.kind is Unary || value.kind is Match || value.kind is Block
            || value.kind is Lambda || value.kind is FieldAccess || value.kind is Propagate
            || value.kind is Interpolation ==> needs_evaluation(value),
        value.kind is Name || value.kind is ComptimeName || value.kind is Literal || value.kind
            is Tag || value.kind is Record || value.kind is Array || value.kind is Tuple
            || value.kind is SetLiteral || value.kind is Index ==> !needs_evaluation(value),
        value.kind is Call && callee_name(*value.kind->Call_callee) is None ==> needs_evaluation(
            value,
        ),
        value.kind is Call && callee_name(*value.kind->Call_callee) is Some ==> needs_evaluation(
            value,
        ) == !crate::text::starts_uppercase(callee_name(*value.kind->Call_callee)->0),
{
}

// ---------------------------------------------------------------------------
// Unions
// ---------------------------------------------------------------------------
/// A union lists the parts of its left side and then those of its right side; a set lists its
/// entries in order, and anything else is one part.
pub proof fn unions_list_their_parts_in_order(expr: Expr)
    ensures
        expr.kind is Binary && expr.kind->Binary_operator@ == "|"@ ==> is_union(expr)
            && union_entries(expr) == union_entries(*expr.kind->Binary_left) + union_entries(
            *expr.kind->Binary_right,
        ),
        expr.kind is Binary && expr.kind->Binary_operator@ == "|"@ ==> (union_parts(expr) is Some
            <==> union_parts(*expr.kind->Binary_left) is Some && union_parts(
            *expr.kind->Binary_right,
        ) is Some) && (union_parts(expr) is Some ==> union_parts(expr)->0 == union_parts(
            *expr.kind->Binary_left,
        )->0 + union_parts(*expr.kind->Binary_right)->0),
        expr.kind matches ExprKind::SetLiteral(entries) ==> union_entries(expr).len()
            == entries@.len() && forall|i: int|
            0 <= i < entries@.len() ==> #[trigger] union_entries(expr)[i] == SpecUnionEntry::Listed(
                entries@[i],
            ),
        expr.kind matches ExprKind::SetLiteral(entries) ==> (union_parts(expr) is Some <==> forall|
            i: int,
        |
            0 <= i < entries@.len() ==> #[trigger] entries@[i] is Element),
        expr.kind matches ExprKind::SetLiteral(entries) ==> (union_parts(expr) is Some
            ==> union_parts(expr)->0.len() == entries@.len() && forall|i: int|
            0 <= i < entries@.len() ==> #[trigger] union_parts(expr)->0[i]
                == SpecUnionPart::Element(*entries@[i]->Element_0)),
        expr.kind is Name || expr.kind is ComptimeName || expr.kind is Tag || expr.kind is Call
            || expr.kind is Literal ==> union_entries(expr) == seq![SpecUnionEntry::Part(expr)]
            && union_parts(expr) == Some(seq![SpecUnionPart::Operand(expr)]),
        expr.kind is Binary && expr.kind->Binary_operator@ != "|"@ ==> union_entries(expr)
            == seq![SpecUnionEntry::Part(expr)],
{
}

// ---------------------------------------------------------------------------
// Receivers in messages
// ---------------------------------------------------------------------------
/// A receiver is written as its name, with its fields behind points and its indices in brackets
/// with commas between them; it has no text where a part of it has none.
pub proof fn receivers_are_written(expr: Expr)
    ensures
        expr.kind is Name ==> receiver_text(expr) == Some(expr.kind->Name_0@),
        expr.kind matches ExprKind::FieldAccess { receiver, field, null_safe, .. } ==> (
        receiver_text(*receiver) is None ==> receiver_text(expr) is None) && (receiver_text(
            *receiver,
        ) is Some ==> receiver_text(expr) == Some(
            receiver_text(*receiver)->0 + (if null_safe {
                "?."@
            } else {
                "."@
            }) + field@,
        )),
        expr.kind matches ExprKind::Index { callee, args } ==> (receiver_text(expr) is Some
            <==> receiver_text(*callee) is Some && forall|i: int|
            0 <= i < args@.len() ==> index_text(#[trigger] args@[i]) is Some) && (receiver_text(
            expr,
        ) is Some ==> receiver_text(expr) == Some(
            receiver_text(*callee)->0 + "["@ + joined(
                Seq::new(args@.len(), |i: int| index_text(args@[i])->0),
                ", "@,
            ) + "]"@,
        )),
        expr.kind is Call || expr.kind is Literal ==> receiver_text(expr) is None,
{
    if let ExprKind::Index { callee, args } = expr.kind {
        indices_are_written_in_order(args@, args@.len());
        if index_texts(args@, args@.len()) is Some {
            assert(index_texts(args@, args@.len())->0 =~= Seq::new(
                args@.len(),
                |i: int| index_text(args@[i])->0,
            ));
        }
    }
}

proof fn indices_are_written_in_order(args: Seq<Expr>, count: nat)
    requires
        count <= args.len(),
    ensures
        index_texts(args, count) is Some <==> forall|i: int|
            0 <= i < count ==> index_text(#[trigger] args[i]) is Some,
        index_texts(args, count) is Some ==> index_texts(args, count)->0.len() == count && forall|
            i: int,
        |
            0 <= i < count ==> #[trigger] index_texts(args, count)->0[i] == index_text(args[i])->0,
    decreases count,
{
    if count > 0 {
        indices_are_written_in_order(args, (count - 1) as nat);
        if index_texts(args, count) is None && index_texts(args, (count - 1) as nat) is Some {
            assert(index_text(args[count - 1]) is None);
        }
    }
}

// ---------------------------------------------------------------------------
// Shapes of values
// ---------------------------------------------------------------------------
/// A value has a known shape if it is a literal, a tag, an empty value, or is made of such values
/// alone: a tuple of its items, a tag with its arguments. Names and other computations have none.
pub proof fn shapes_are_made_of_shapes(value: Expr)
    ensures
        value.kind is Literal || value.kind is Tag || value.kind is Undefined || value.kind is Null
            ==> is_value_shape(value),
        value.kind is Name || value.kind is ComptimeName || value.kind is Lambda || value.kind
            is Match || value.kind is FieldAccess || value.kind is Binary || value.kind is Block
            ==> !is_value_shape(value),
        value.kind matches ExprKind::Tuple(items) ==> (is_value_shape(value) <==> forall|i: int|
            0 <= i < items@.len() ==> is_value_shape(#[trigger] items@[i])),
        value.kind matches ExprKind::Call { callee, args } ==> (is_value_shape(value)
            <==> ungrouped(*callee).kind is Tag && forall|i: int|
            0 <= i < args@.len() ==> is_value_shape(#[trigger] args@[i])),
{
    match value.kind {
        ExprKind::Tuple(items) => every_shape_counts(items@, items@.len()),
        ExprKind::Call { args, .. } => every_shape_counts(args@, args@.len()),
        _ => {},
    }
}

proof fn every_shape_counts(items: Seq<Expr>, count: nat)
    requires
        count <= items.len(),
    ensures
        all_value_shapes(items, count) <==> forall|i: int|
            0 <= i < count ==> is_value_shape(#[trigger] items[i]),
    decreases count,
{
    if count > 0 {
        every_shape_counts(items, (count - 1) as nat);
        if !all_value_shapes(items, count) && all_value_shapes(items, (count - 1) as nat) {
            assert(!is_value_shape(items[count - 1]));
        }
    }
}

/// A collection has a known shape if all its entries do, and if it is not made of entries
/// without a value alone.
pub proof fn collections_have_the_shape_of_their_entries(value: Expr, entries: Seq<RecordEntry>)
    requires
        value.kind is Array && value.kind->Array_0@ == entries || value.kind is SetLiteral
            && value.kind->SetLiteral_0@ == entries || value.kind is Record
            && value.kind->Record_0@ == entries,
    ensures
        is_value_shape(value) <==> (forall|i: int|
            0 <= i < entries.len() ==> is_value_entry(#[trigger] entries[i])) && (entries.len()
            == 0 || exists|i: int| 0 <= i < entries.len() && holds_value(#[trigger] entries[i])),
        forall|i: int|
            0 <= i < entries.len() ==> (#[trigger] entries[i] matches RecordEntry::Element(item)
                ==> is_value_entry(entries[i]) == is_value_shape(*item) && holds_value(
                entries[i],
            )),
        forall|i: int|
            0 <= i < entries.len() ==> (#[trigger] entries[i] matches RecordEntry::Field {
                value,
                ..
            } ==> is_value_entry(entries[i]) == is_value_shape(*value) && holds_value(entries[i])),
        forall|i: int|
            0 <= i < entries.len() ==> (#[trigger] entries[i] matches RecordEntry::Spread { .. }
                ==> !holds_value(entries[i])),
{
    every_entry_counts(entries, entries.len());
    assert(is_value_shape(value) == crate::artifacts::are_value_entries(entries));
}

proof fn every_entry_counts(entries: Seq<RecordEntry>, count: nat)
    requires
        count <= entries.len(),
    ensures
        crate::artifacts::all_value_entries(entries, count) <==> forall|i: int|
            0 <= i < count ==> is_value_entry(#[trigger] entries[i]),
    decreases count,
{
    if count > 0 {
        every_entry_counts(entries, (count - 1) as nat);
        if !crate::artifacts::all_value_entries(entries, count)
            && crate::artifacts::all_value_entries(entries, (count - 1) as nat) {
            assert(!is_value_entry(entries[count - 1]));
        }
    }
}

/// An operation on values of a known shape is one on literals if its operator folds (remainders and
/// powers do not); so are
/// operations on such operations. A literal alone is none.
pub proof fn operations_are_made_of_values(value: Expr)
    ensures
        value.kind is Literal || value.kind is Name || value.kind is Call ==> !is_operation_shape(
            value,
        ),
        value.kind matches ExprKind::Unary { operator, value: inner, .. } ==> (is_operation_shape(
            value,
        ) <==> (operator@ == "-"@ || operator@ == "!"@) && (is_value_shape(*inner)
            || is_operation_shape(*inner))),
        value.kind matches ExprKind::Binary { left, operator, right, .. } ==> (is_operation_shape(
            value,
        ) <==> (computes(operator@) && operator@ != "%"@ && operator@ != "^"@
            || orders(operator@) || equates(operator@)
            || connects(operator@)) && (is_value_shape(*left)
            || is_operation_shape(*left)) && (is_value_shape(*right) || is_operation_shape(
            *right,
        ))),
{
    if let ExprKind::Binary { operator, .. } = value.kind {
        groups_of_operators(operator@);
        reveal_strlit("%");
        reveal_strlit("^");
        reveal_strlit("+");
        reveal_strlit("-");
        reveal_strlit("*");
        reveal_strlit("/");
        assert("%"@[0] == '%' && "^"@[0] == '^' && "+"@[0] == '+' && "-"@[0] == '-');
        assert("*"@[0] == '*' && "/"@[0] == '/');
        reveal_strlit("<");
        reveal_strlit(">");
        assert("<"@[0] == '<' && ">"@[0] == '>');
    }
}

// ---------------------------------------------------------------------------
// Literals and families
// ---------------------------------------------------------------------------
/// A literal becomes a value of a family that is made on its own builtin type, and of no other; a
/// pattern of text has no builtin type, and is held against the base.
pub proof fn literals_are_branded_by_their_type(literal: SpecLiteral, base: SpecType)
    ensures
        literal is Bool ==> branding_of(literal, base) == (if base == SpecType::Named("Bool"@) {
            Branding::Brand
        } else {
            Branding::Mismatch
        }),
        literal is String ==> branding_of(literal, base) == (if base == SpecType::Named("Text"@) {
            Branding::Brand
        } else {
            Branding::Mismatch
        }),
        literal is Number && float_text(literal->Number_0) ==> branding_of(literal, base) == (
        if base == SpecType::Named("Float"@) {
            Branding::Brand
        } else {
            Branding::Mismatch
        }),
        literal is Number && !float_text(literal->Number_0) ==> branding_of(literal, base) == (
        if base == SpecType::Named("Int"@) {
            Branding::Brand
        } else {
            Branding::Mismatch
        }),
        literal is Regex ==> branding_of(literal, base) == Branding::CheckBase,
{
}

// ---------------------------------------------------------------------------
// Methods that a type asks for
// ---------------------------------------------------------------------------
/// The fields of a row are listed in order; tags and literals are no fields.
pub proof fn fields_are_listed_in_order(entries: Seq<SpecRowEntry>, entry: SpecRowEntry)
    ensures
        fields_in_order(entries.push(entry)) == (if entry is Field {
            fields_in_order(entries).push(entry->Field_name)
        } else {
            fields_in_order(entries)
        }),
        fields_in_order(Seq::empty()) == Seq::<Seq<char>>::empty(),
{
    assert(entries.push(entry).drop_last() =~= entries);
    assert(entries.push(entry).last() == entry);
}

/// Of a method that is asked for it is said that the value stores it in a field, or it is looked
/// for: one of the two, and with its own types. What is asked for and is no function adds
/// nothing.
pub proof fn methods_are_stored_or_looked_for(
    fields: Seq<SpecRowEntry>,
    tail: RowTail,
    slots: Seq<SpecRowEntry>,
    slot: SpecRowEntry,
)
    ensures
        ({
            let actual = SpecType::Record(SpecRow { entries: fields, tail });
            let stored = stored_slots(actual, slots.push(slot));
            let required = required_slots(actual, slots.push(slot));
            match slot {
                SpecRowEntry::Field { name, ty: SpecType::Function { params, result, .. } } => if exists|
                    i: int,
                |
                    0 <= i < fields.len() && #[trigger] fields[i] is Field && fields[i]->Field_name
                        == name {
                    stored == stored_slots(actual, slots).push(name) && required == required_slots(
                        actual,
                        slots,
                    )
                } else {
                    stored == stored_slots(actual, slots) && required == required_slots(
                        actual,
                        slots,
                    ).push(SpecSlot { name, params, result: *result })
                },
                _ => stored == stored_slots(actual, slots) && required == required_slots(
                    actual,
                    slots,
                ),
            }
        }),
{
    let actual = SpecType::Record(SpecRow { entries: fields, tail });
    assert(slots.push(slot).drop_last() =~= slots);
    assert(slots.push(slot).last() == slot);
    if let SpecRowEntry::Field { name, .. } = slot {
        stored_fields_are_found(fields, name, 0);
        assert(stores_field(actual, name) == (slot_type(fields, name, 0) is Some));
    }
}

proof fn stored_fields_are_found(fields: Seq<SpecRowEntry>, name: Seq<char>, from: int)
    requires
        0 <= from <= fields.len(),
    ensures
        slot_type(fields, name, from) is Some <==> exists|i: int|
            from <= i < fields.len() && #[trigger] fields[i] is Field && fields[i]->Field_name
                == name,
    decreases fields.len() - from,
{
    if from < fields.len() {
        stored_fields_are_found(fields, name, from + 1);
        if fields[from] is Field && fields[from]->Field_name == name {
            assert(slot_type(fields, name, from) is Some);
        }
    }
}

} // verus!
