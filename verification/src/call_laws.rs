//! What calls, reads of fields and elements, and other rules for expressions give.
use crate::access::{
    carries_member, field_step, meaning_of, receiver_core_of, tuple_index, unsigned_value,
    LocalFact, NameFacts, NameMeaning, SpecFieldStep,
};
use crate::arms::ArmBody;
use crate::calls::{
    call_plan, constructed_result, constructor_row, field_names, form_of, handled_result,
    has_exact_fields, inhabited, is_error_union, tagged, takes, to_result_type, CallForms,
    ErrorUnion, SpecCallForm, SpecCallPlan,
};
use crate::expression_rules::{
    call_ruled, index_rule, match_ruled, propagate_ruled, tuple_element, unary_ruled, CallUse,
    IndexRule, IndexUse, SpecElementFinding, SpecRuleEvent, UnaryUse,
};
use crate::operator_laws::is_number_type;
use crate::row_edits::labels_are_distinct;
use crate::row_laws::is_labelled;
use crate::rows::{applied2, label_of, peeled_values, rewrapped, EmptyValue};
use crate::syntax::{Expr, ExprKind, PropagationMode};
use crate::text::{all_digits, digits_value};
use crate::type_ops::{is_deferred, resolved, some_node};
use crate::types::{Literal, SpecRow, SpecRowEntry, SpecType};
use vstd::prelude::*;

verus! {

// ---------------------------------------------------------------------------
// Calls
// ---------------------------------------------------------------------------
/// A call of a function that takes its arguments holds each of them against the parameter at
/// its place, and gives what the function gives. Every other value must be a function of the
/// arguments.
pub proof fn arguments_are_held_against_parameters(
    params: Seq<SpecType>,
    result: SpecType,
    required: nat,
    args: Seq<SpecType>,
    fresh: u32,
)
    ensures
        ({
            let callee = SpecType::Function { params, result: Box::new(result), required };
            let plan = call_plan(callee, args, fresh);
            &&& required <= args.len() <= params.len() ==> {
                &&& plan is Known
                &&& plan->Known_result == result
                &&& plan->Known_goals.len() == args.len()
                &&& forall|i: int|
                    0 <= i < args.len() ==> #[trigger] plan->Known_goals[i] == (params[i], args[i])
            }
            &&& !(required <= args.len() <= params.len()) ==> plan is Unify
        }),
{
}

/// A callee that is not known to take the arguments must be a function of them, and what it
/// gives is not known yet.
pub proof fn unknown_callees_must_be_functions(callee: SpecType, args: Seq<SpecType>, fresh: u32)
    requires
        !(callee is Function),
    ensures
        call_plan(callee, args, fresh) == (SpecCallPlan::Unify {
            callee: SpecType::Function {
                params: args,
                result: Box::new(SpecType::Meta(fresh)),
                required: args.len(),
            },
            result: SpecType::Meta(fresh),
        }),
{
}

/// The type of a call is that of the result where it is known: of the whole that a handler
/// leaves where there is one.
pub proof fn calls_have_the_type_of_the_result(
    callee: Expr,
    args: Seq<SpecType>,
    facts: CallUse,
    fresh: crate::inference::Fresh,
)
    requires
        !(crate::syntax::ungrouped(callee).kind is FieldAccess),
    ensures
        facts.callee@ is Function && takes(facts.callee@, args.len()) && facts.handled is None
            ==> call_ruled(callee, args, facts, fresh).ty == facts.result@ && call_ruled(
            callee,
            args,
            facts,
            fresh,
        ).fresh == fresh,
        facts.callee@ is Function && takes(facts.callee@, args.len()) && facts.handled is Some
            ==> call_ruled(callee, args, facts, fresh).ty == facts.handled->0@,
        !(facts.callee@ is Function) && facts.unified ==> call_ruled(
            callee,
            args,
            facts,
            fresh,
        ).ty == facts.result@,
        !(facts.callee@ is Function) && !facts.unified ==> call_ruled(
            callee,
            args,
            facts,
            fresh,
        ).ty is Deferred,
        call_ruled(callee, args, facts, fresh).event == SpecRuleEvent::Called(
            call_plan(facts.callee@, args, fresh.meta),
        ),
{
}

/// Turning a value into a result keeps what it holds and takes the argument for the error.
pub proof fn errors_are_the_argument(
    callee: Expr,
    error: SpecType,
    ok_ty: SpecType,
    other: SpecType,
)
    requires
        callee.kind is FieldAccess,
        callee.kind->FieldAccess_field@ == "toResult"@,
    ensures
        to_result_type(callee, seq![error], applied2("Result"@, ok_ty, other)) == Some(
            applied2(
                "Result"@,
                ok_ty,
                crate::type_ops::mapped(error, crate::type_ops::literal_rule()),
            ),
        ),
        error is Named ==> to_result_type(callee, seq![error], applied2("Result"@, ok_ty, other))
            == Some(applied2("Result"@, ok_ty, error)),
{
    crate::rows::result_parts_of_result(ok_ty, other);
    assert(seq![error][0] == error);
}

/// A handler that gives errors puts its error in place of the one that it handles; one that
/// gives something else than a result leaves no type.
pub proof fn handlers_replace_the_error(
    ok_ty: SpecType,
    error_ty: SpecType,
    tag: Seq<char>,
    payload: SpecType,
)
    requires
        !some_node(payload, is_deferred()),
    ensures
        tag == "Err"@ ==> handled_result(
            applied2("Result"@, ok_ty, error_ty),
            tagged(tag, seq![payload]),
        ) == Some(applied2("Result"@, ok_ty, payload)),
        tag != "Err"@ && tag != "Ok"@ ==> handled_result(
            applied2("Result"@, ok_ty, error_ty),
            tagged(tag, seq![payload]),
        ) is None,
{
    crate::rows::result_parts_of_result(ok_ty, error_ty);
    let payloads = seq![payload];
    assert(payloads[0] == payload);
    assert forall|i: int| 0 <= i < payloads.len() implies !some_node(
        #[trigger] payloads[i],
        is_deferred(),
    ) by {}
    reveal_strlit("Ok");
    reveal_strlit("Err");
    assert("Ok"@.len() != "Err"@.len());
}

/// A tag with what it holds has a closed variant of that tag alone for its type, unless a part
/// of what it holds is not known.
pub proof fn tags_are_variants_of_their_own(tag: Seq<char>, payload: Seq<SpecType>)
    ensures
        ({
            let ty = tagged(tag, payload);
            &&& ty is Deferred <==> exists|i: int|
                0 <= i < payload.len() && some_node(#[trigger] payload[i], is_deferred())
            &&& !(ty is Deferred) ==> {
                &&& ty is Variant
                &&& ty->Variant_0.tail is Closed
                &&& ty->Variant_0.entries.len() == 1
                &&& ty->Variant_0.entries[0] == (SpecRowEntry::Tag { name: tag, payload })
            }
        }),
{
}

/// A tag is called before everything else, then the constructor of a family; a callee that
/// nothing answers for is called as a function.
pub proof fn tags_and_families_are_called_first(
    callee: Expr,
    aliases: Map<Seq<char>, String>,
    forms: CallForms,
    name: String,
)
    ensures
        callee.kind is Tag ==> form_of(callee, aliases, forms) == SpecCallForm::Tag(
            callee.kind->Tag_0@,
        ),
        callee.kind == ExprKind::Name(name) && aliases.contains_key(name@) ==> form_of(
            callee,
            aliases,
            forms,
        ) == SpecCallForm::Family(aliases[name@]@),
        callee.kind == ExprKind::ComptimeName(name) && aliases.contains_key(name@) ==> form_of(
            callee,
            aliases,
            forms,
        ) == SpecCallForm::Family(aliases[name@]@),
        callee.kind == ExprKind::Name(name) && !aliases.contains_key(name@) && !forms.import
            && !forms.slot_conversion && !forms.decode && !forms.encode && !forms.selection
            && !forms.map_constructor && !forms.host && !forms.compile_time && !forms.method
            ==> form_of(callee, aliases, forms) is Function,
        callee.kind == ExprKind::Name(name) && !aliases.contains_key(name@) && forms.import
            ==> form_of(callee, aliases, forms) is Import,
{
}

/// The constructor of a family takes the data of the family; a field with a default may be
/// left out, and every other field is as it is.
pub proof fn constructors_take_the_data(
    data: SpecRow,
    defaulted: Set<Seq<char>>,
    index: int,
)
    requires
        0 <= index < data.entries.len(),
    ensures
        ({
            let after = constructor_row(data, defaulted);
            let entry = data.entries[index];
            &&& after.tail == data.tail
            &&& after.entries.len() == data.entries.len()
            &&& entry is Field && defaulted.contains(entry->Field_name) ==> after.entries[index]
                == (SpecRowEntry::Field {
                name: entry->Field_name,
                ty: SpecType::Optional(Box::new(entry->Field_ty)),
            })
            &&& !(entry is Field && defaulted.contains(entry->Field_name)) ==> after.entries[index]
                == entry
        }),
{
}

/// A record has the fields that a constructor takes where it has all of them and no other. It
/// may lack one that has a default, and no other that must be there.
pub proof fn constructors_take_no_other_fields(
    actual: SpecRow,
    data: SpecRow,
    defaulted: Set<Seq<char>>,
    definitions: Map<Seq<char>, SpecType>,
    name: Seq<char>,
    ty: SpecType,
)
    ensures
        has_exact_fields(data, data, defaulted, definitions),
        actual.entries.contains(SpecRowEntry::Field { name, ty }) && !field_names(
            data.entries,
        ).contains(name) ==> !has_exact_fields(actual, data, defaulted, definitions),
        data.entries.contains(SpecRowEntry::Field { name, ty }) && !field_names(
            actual.entries,
        ).contains(name) && !defaulted.contains(name) && (forall|i: int|
            0 <= i < data.entries.len() && #[trigger] data.entries[i] is Field
                && data.entries[i]->Field_name == name ==> !(crate::normalize::normal_form(
                data.entries[i]->Field_ty,
                definitions,
            ) is Optional)) ==> !has_exact_fields(actual, data, defaulted, definitions),
{
    let field = SpecRowEntry::Field { name, ty };
    if actual.entries.contains(field) && !field_names(data.entries).contains(name) {
        let i = choose|i: int| 0 <= i < actual.entries.len() && actual.entries[i] == field;
        assert(actual.entries[i] is Field && actual.entries[i]->Field_name == name);
        assert(field_names(actual.entries).contains(name));
    }
    if data.entries.contains(field) && !field_names(actual.entries).contains(name)
        && !defaulted.contains(name) && (forall|i: int|
        0 <= i < data.entries.len() && #[trigger] data.entries[i] is Field
            && data.entries[i]->Field_name == name ==> !(crate::normalize::normal_form(
            data.entries[i]->Field_ty,
            definitions,
        ) is Optional)) {
        let i = choose|i: int| 0 <= i < data.entries.len() && data.entries[i] == field;
        assert(data.entries[i] is Field && data.entries[i]->Field_name == name);
        assert(field_names(data.entries).contains(name));
        assert forall|k: int| 0 <= k < data.entries.len() implies
            !crate::calls::is_optional_field(#[trigger] data.entries[k], definitions, name) by {
        }
        assert(!crate::calls::may_be_left_out(data.entries, defaulted, definitions, name));
    }
}

/// A body that ends in `Ok` gives a result without an error, and one that ends in `Err` a
/// result whose value is not known; blocks and groups end in what they hold last.
pub proof fn bodies_end_in_results(
    body: Expr,
    payload: SpecType,
    tail: crate::types::RowTail,
)
    requires
        body.kind is Call,
        body.kind->Call_args@.len() == 1,
        body.kind->Call_callee.kind is Tag,
    ensures
        ({
            let tag = body.kind->Call_callee.kind->Tag_0@;
            let row = SpecRow {
                entries: seq![SpecRowEntry::Tag { name: tag, payload: seq![payload] }],
                tail,
            };
            let none = SpecType::Variant(
                SpecRow { entries: Seq::empty(), tail: crate::types::RowTail::Closed },
            );
            let result = constructed_result(body, SpecType::Variant(row));
            &&& tag == "Ok"@ ==> result == Some(applied2("Result"@, payload, none))
            &&& tag == "Err"@ ==> result == Some(
                applied2("Result"@, SpecType::Deferred, payload),
            )
            &&& tag != "Ok"@ && tag != "Err"@ ==> result is None
        }),
{
    let tag = body.kind->Call_callee.kind->Tag_0@;
    let entry = SpecRowEntry::Tag { name: tag, payload: seq![payload] };
    let entries = seq![entry];
    reveal_strlit("Ok");
    reveal_strlit("Err");
    assert("Ok"@.len() != "Err"@.len());
    assert(entries[0] == entry);
    assert(seq![payload][0] == payload);
    assert(crate::rows::sole_payload(entries, tag, 0) == Some(payload));
    assert(crate::syntax::final_value(body) == Some(body));
}

// ---------------------------------------------------------------------------
// Names
// ---------------------------------------------------------------------------
/// A local name hides everything else of the name; then come families, names of the module and
/// names of the host. A name that is nothing of this is not bound.
pub proof fn nearer_names_hide_others(name: Seq<char>, facts: NameFacts)
    ensures
        facts.local == Some(LocalFact::Type) <==> meaning_of(name, facts)
            == NameMeaning::LocalType,
        facts.local == Some(LocalFact::Scheme) <==> meaning_of(name, facts)
            == NameMeaning::LocalScheme,
        facts.local == Some(LocalFact::Unknown) ==> meaning_of(name, facts)
            == NameMeaning::Unknown,
        meaning_of(name, facts) == NameMeaning::Family <==> facts.local is None && facts.family,
        meaning_of(name, facts) == NameMeaning::TopLevel <==> facts.local is None && !facts.family
            && facts.top_level,
        meaning_of(name, facts) == NameMeaning::Global <==> facts.local is None && !facts.family
            && !facts.top_level && facts.published == Some(true),
        meaning_of(name, facts) == NameMeaning::Unbound <==> facts.local is None && !facts.family
            && !facts.top_level && facts.published is None && !facts.receiver && !facts.builtin
            && name != "_"@,
        meaning_of(name, facts) == NameMeaning::MissingReceiver <==> facts.local is None
            && !facts.family && !facts.top_level && facts.published is None && facts.receiver,
{
    if let Some(with_scheme) = facts.published {
        if with_scheme {
            assert(facts.published == Some(true));
        } else {
            assert(facts.published == Some(false));
        }
    }
}

// ---------------------------------------------------------------------------
// Fields and elements
// ---------------------------------------------------------------------------
/// A value without a method of the name and without a family's field must be a record with the
/// field, whose type is then that of the read. A value that may be empty is read as what it is
/// otherwise, and the read may be empty in the same way.
pub proof fn fields_are_read_from_records(
    env: crate::lookup::SpecEnvironment,
    families: Map<Seq<char>, SpecType>,
    inner: SpecType,
    field: Seq<char>,
    null_safe: bool,
    first: u32,
    fresh_field: u32,
    fresh_tail: u32,
)
    requires
        inner is Record || inner is Meta,
        crate::lookup::exact_scheme(env, inner, field) is None,
        crate::lookup::exact_scheme(env, SpecType::Optional(Box::new(inner)), field) is None,
        crate::lookup::exact_scheme(env, SpecType::Nullable(Box::new(inner)), field) is None,
    ensures
        ({
            let read = |receiver: SpecType| field_step(
                env,
                families,
                receiver,
                field,
                null_safe,
                None,
                None,
                first,
                fresh_field,
                fresh_tail,
            );
            let plain = read(inner);
            let optional = read(SpecType::Optional(Box::new(inner)));
            let nullable = read(SpecType::Nullable(Box::new(inner)));
            let unknown = SpecType::Meta(fresh_field);
            &&& plain is Unify
            &&& plain->Unify_core == inner
            &&& plain->Unify_ty == unknown
            &&& !plain->Unify_unguarded
            &&& plain->Unify_record is Record
            &&& plain->Unify_record->Record_0.entries == seq![
                SpecRowEntry::Field { name: field, ty: unknown },
            ]
            &&& plain->Unify_record->Record_0.tail == crate::types::RowTail::Var(fresh_tail)
            &&& optional == (SpecFieldStep::Unify {
                core: inner,
                record: plain->Unify_record,
                ty: SpecType::Optional(Box::new(unknown)),
                unguarded: !null_safe,
            })
            &&& nullable == (SpecFieldStep::Unify {
                core: inner,
                record: plain->Unify_record,
                ty: SpecType::Nullable(Box::new(unknown)),
                unguarded: !null_safe,
            })
        }),
{
    let none = Seq::<EmptyValue>::empty();
    let unknown = SpecType::Meta(fresh_field);
    let optional = SpecType::Optional(Box::new(inner));
    let nullable = SpecType::Nullable(Box::new(inner));
    let undefined = seq![EmptyValue::Undefined];
    let null = seq![EmptyValue::Null];
    assert(peeled_values(inner, none) == none);
    assert(none.push(EmptyValue::Undefined) =~= undefined);
    assert(none.push(EmptyValue::Null) =~= null);
    assert(peeled_values(inner, undefined) == undefined);
    assert(peeled_values(inner, null) == null);
    assert(peeled_values(optional, none) == undefined);
    assert(peeled_values(nullable, none) == null);
    assert(crate::rows::peeled_payload(inner) == inner);
    assert(crate::rows::peeled_payload(optional) == inner);
    assert(crate::rows::peeled_payload(nullable) == inner);
    assert(undefined.skip(1) =~= none);
    assert(null.skip(1) =~= none);
    assert(rewrapped(unknown, none) == unknown);
    assert(rewrapped(unknown, undefined) == SpecType::Optional(Box::new(unknown)));
    assert(rewrapped(unknown, null) == SpecType::Nullable(Box::new(unknown)));
}

/// A field of a family's data is read as it is listed.
pub proof fn fields_of_families_are_their_data(
    env: crate::lookup::SpecEnvironment,
    families: Map<Seq<char>, SpecType>,
    name: Seq<char>,
    row: SpecRow,
    index: int,
    null_safe: bool,
    whole: Option<SpecType>,
    inner: Option<SpecType>,
    first: u32,
    fresh_field: u32,
    fresh_tail: u32,
)
    requires
        families.contains_key(name),
        families[name] == SpecType::Record(row),
        labels_are_distinct(row.entries),
        0 <= index < row.entries.len(),
        row.entries[index] is Field,
        crate::lookup::exact_scheme(env, SpecType::Named(name), label_of(row.entries[index]))
            is None,
    ensures
        field_step(
            env,
            families,
            SpecType::Named(name),
            row.entries[index]->Field_name,
            null_safe,
            whole,
            inner,
            first,
            fresh_field,
            fresh_tail,
        ) == (SpecFieldStep::Known { ty: row.entries[index]->Field_ty, unguarded: false }),
        receiver_core_of(SpecType::Named(name), families) == SpecType::Record(row),
{
    slots_are_listed(row.entries, index, 0);
}

proof fn slots_are_listed(entries: Seq<SpecRowEntry>, index: int, from: int)
    requires
        labels_are_distinct(entries),
        0 <= from <= index < entries.len(),
        entries[index] is Field,
    ensures
        crate::lookup::slot_type(entries, entries[index]->Field_name, from) == Some(
            entries[index]->Field_ty,
        ),
    decreases index - from,
{
    if from < index {
        assert(label_of(entries[from]) != label_of(entries[index]));
        slots_are_listed(entries, index, from + 1);
    }
}

/// A value carries the fields that its record lists, also where it may be empty.
pub proof fn records_carry_their_fields(row: SpecRow, member: Seq<char>, index: int)
    requires
        labels_are_distinct(row.entries),
        0 <= index < row.entries.len(),
        row.entries[index] is Field,
    ensures
        carries_member(SpecType::Record(row), row.entries[index]->Field_name, false, false),
        carries_member(
            SpecType::Optional(Box::new(SpecType::Record(row))),
            row.entries[index]->Field_name,
            false,
            false,
        ),
        !carries_member(SpecType::Named(member), member, false, false),
        carries_member(SpecType::Named(member), member, true, false),
        carries_member(SpecType::Named(member), member, false, true),
{
    slots_are_listed(row.entries, index, 0);
    assert(crate::rows::peeled_payload(SpecType::Record(row)) == SpecType::Record(row));
}

/// A numeral is read in the decimal system: one digit more makes ten times the number and the
/// digit.
pub proof fn numerals_are_decimal(text: Seq<char>, digit: char)
    requires
        text.len() > 0,
        all_digits(text),
        '0' <= digit <= '9',
    ensures
        unsigned_value(text) is Some,
        unsigned_value(text.push(digit)) == Some(
            (unsigned_value(text)->0 * 10 + (digit as int - '0' as int)) as nat,
        ),
        unsigned_value(seq![digit]) == Some((digit as int - '0' as int) as nat),
        unsigned_value(Seq::empty()) is None,
{
    let longer = text.push(digit);
    assert(longer.drop_last() =~= text);
    assert(all_digits(longer)) by {
        assert forall|i: int| 0 <= i < longer.len() implies crate::text::is_digit(
            #[trigger] longer[i],
        ) by {
            if i < text.len() {
                assert(crate::text::is_digit(text[i]));
            }
        }
    }
    assert(crate::text::is_digit(text[0]));
    assert(longer[0] == text[0]);
    let one = seq![digit];
    assert(one.drop_last() =~= Seq::<char>::empty());
    assert(digits_value(Seq::<char>::empty()) == 0);
    assert(one[0] == digit);
    assert(all_digits(one));
}

/// An element of a tuple has the type at its place; beyond the last there is none.
pub proof fn tuples_are_read_by_place(items: Seq<SpecType>, arg: Expr)
    ensures
        match tuple_index(arg) {
            Some(place) => tuple_element(items, arg) == (if place < items.len() {
                IndexRule::Known { ty: items[place as int], finding: SpecElementFinding::Nothing }
            } else {
                IndexRule::Known {
                    ty: SpecType::Deferred,
                    finding: SpecElementFinding::OutOfRange { index: place, length: items.len() },
                }
            }),
            None => tuple_element(items, arg) == (IndexRule::Known {
                ty: SpecType::Deferred,
                finding: SpecElementFinding::PositionNotKnown,
            }),
        },
        !(crate::syntax::ungrouped(arg).kind is Literal) ==> tuple_index(arg) is None,
{
}

/// An element of an array is asked for by an integer and one of a map by a key, and either may
/// be absent. What is known and is no collection has no elements.
pub proof fn collections_are_read_by_key(
    key: SpecType,
    value: SpecType,
    other: SpecType,
    facts: IndexUse,
    arg: Expr,
)
    ensures
        index_rule(crate::rows::applied1("Array"@, value), facts, arg) == (IndexRule::Argument {
            index: SpecType::Named("Int"@),
            ty: SpecType::Optional(Box::new(value)),
        }),
        index_rule(applied2("Map"@, key, value), facts, arg) == (IndexRule::Argument {
            index: key,
            ty: SpecType::Optional(Box::new(value)),
        }),
        other is Named || other is Function ==> index_rule(other, facts, arg) == (
        IndexRule::Known {
            ty: SpecType::Deferred,
            finding: if resolved(other) {
                SpecElementFinding::NotIndexable(other)
            } else {
                SpecElementFinding::Nothing
            },
        }),
{
    assert(seq![value][0] == value);
    assert(seq![key, value][0] == key);
    assert(seq![key, value][1] == value);
}

/// A field that a record lists is read by its label; a closed record has no other.
pub proof fn records_are_read_by_label(
    row: SpecRow,
    facts: IndexUse,
    arg: Expr,
    index: int,
    label: String,
)
    requires
        labels_are_distinct(row.entries),
        0 <= index < row.entries.len(),
        row.entries[index] is Field,
        facts.label == Some(label),
    ensures
        label@ == row.entries[index]->Field_name ==> index_rule(
            SpecType::Record(row),
            facts,
            arg,
        ) == (IndexRule::Known {
            ty: row.entries[index]->Field_ty,
            finding: SpecElementFinding::Nothing,
        }),
        !is_labelled(row.entries, label@) && row.tail is Closed ==> index_rule(
            SpecType::Record(row),
            facts,
            arg,
        ) == (IndexRule::Known {
            ty: SpecType::Deferred,
            finding: SpecElementFinding::MissingField(label@),
        }),
{
    crate::row_laws::fields_have_the_types_listed(row, label@, index);
}

// ---------------------------------------------------------------------------
// Other rules
// ---------------------------------------------------------------------------
/// Propagating a result gives its value, and its error leaves the function where it is
/// returned; what is no result gives nothing.
pub proof fn results_are_propagated(
    ok_ty: SpecType,
    error_ty: SpecType,
    other: SpecType,
    mode: PropagationMode,
    fresh: crate::inference::Fresh,
)
    ensures
        propagate_ruled(applied2("Result"@, ok_ty, error_ty), mode, fresh).ty == ok_ty,
        propagate_ruled(applied2("Result"@, ok_ty, error_ty), mode, fresh).event == (
        SpecRuleEvent::Propagated {
            error: if mode is ReturnError {
                Some(error_ty)
            } else {
                None
            },
        }),
        !(other is Apply) ==> propagate_ruled(other, mode, fresh).ty is Deferred && propagate_ruled(
            other,
            mode,
            fresh,
        ).event == (SpecRuleEvent::NotResult { ty: other, report: resolved(other) }),
{
    crate::rows::result_parts_of_result(ok_ty, error_ty);
}

/// A match has the type that its arms give together, and none where they conflict.
pub proof fn matches_have_the_type_of_their_arms(bodies: Seq<ArmBody>, fresh: crate::inference::Fresh)
    ensures
        match crate::arms::combined(bodies, SpecType::Meta(fresh.meta)) {
            crate::arms::SpecCombination::Joined(ty) => match_ruled(bodies, fresh).ty == ty,
            crate::arms::SpecCombination::Conflict { .. } => match_ruled(bodies, fresh).ty
                is Deferred,
        },
{
}

/// A minus before a number has the type of the number, and a negation of a truth value is one.
pub proof fn signs_keep_the_type(
    facts: UnaryUse,
    definitions: Map<Seq<char>, SpecType>,
    fresh: crate::inference::Fresh,
)
    requires
        facts.base is None,
    ensures
        is_number_type(facts.value@) ==> unary_ruled("-"@, facts, definitions, fresh).ty
            == facts.value@,
        facts.value@ == SpecType::Named("Bool"@) ==> unary_ruled("!"@, facts, definitions, fresh).ty
            == facts.value@,
        facts.value@ is Meta && facts.unified ==> unary_ruled(
            "!"@,
            facts,
            definitions,
            fresh,
        ).ty == SpecType::Named("Bool"@),
{
    reveal_strlit("-");
    reveal_strlit("!");
    assert("-"@[0] == '-');
    assert("!"@[0] == '!');
}

// ---------------------------------------------------------------------------
// Errors that leave a function
// ---------------------------------------------------------------------------
/// A variant without members has no values.
pub open spec fn has_no_values(ty: SpecType) -> bool {
    ty matches SpecType::Variant(row) && row.entries.len() == 0 && row.tail is Closed
}

/// A function that no error leaves fails with a type without values; one that errors of a single
/// type leave fails with that type, whatever types without values there are beside it.
pub proof fn errors_of_one_type_stay_of_it(
    types: Seq<SpecType>,
    error: SpecType,
    whole: ErrorUnion,
)
    requires
        forall|i: int|
            0 <= i < types.len() ==> has_no_values(#[trigger] types[i]) || types[i] == error,
        !has_no_values(error),
        is_error_union(types, whole),
    ensures
        whole is Known,
        types.contains(error) ==> whole->Known_0@ == error,
        !types.contains(error) ==> has_no_values(whole->Known_0@),
{
    errors_with_values_are_kept(types, error);
    if types.contains(error) {
        assert(inhabited(types).len() > 0);
    }
}

proof fn errors_with_values_are_kept(types: Seq<SpecType>, error: SpecType)
    requires
        forall|i: int|
            0 <= i < types.len() ==> has_no_values(#[trigger] types[i]) || types[i] == error,
        !has_no_values(error),
    ensures
        forall|i: int| 0 <= i < inhabited(types).len() ==> #[trigger] inhabited(types)[i] == error,
        inhabited(types).len() > 0 <==> types.contains(error),
    decreases types.len(),
{
    if types.len() > 0 {
        let shorter = types.drop_last();
        let last = types[types.len() - 1];
        assert forall|i: int| 0 <= i < shorter.len() implies has_no_values(#[trigger] shorter[i])
            || shorter[i] == error by {
            assert(types[i] == shorter[i]);
        }
        errors_with_values_are_kept(shorter, error);
        if last == error {
            assert(types.contains(types[types.len() - 1]));
        } else {
            assert(has_no_values(types[types.len() - 1]));
            assert(last->Variant_0.entries =~= Seq::empty());
            assert(last == crate::rows::no_variant());
            if types.contains(error) {
                let i = choose|i: int| 0 <= i < types.len() && types[i] == error;
                assert(shorter[i] == error);
            }
            if shorter.contains(error) {
                let i = choose|i: int| 0 <= i < shorter.len() && shorter[i] == error;
                assert(types[i] == error);
            }
        }
    }
}

} // verus!
