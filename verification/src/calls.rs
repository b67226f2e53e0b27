//! Calls: what is called, what it takes, and what it gives.
use crate::collections::{StringMap, StringSet};
use crate::comparison::{pairs_view, zipped};
use crate::diagnostics::{sites_view, PropagationSite, SpecSite};
use crate::matches::{no_arms, union_match_variant_arm_body_types, union_type, with_arm, ArmUnion};
use crate::normalize::{normal_form, type_admits_undefined};
use crate::operators::is_empty_closed_variant;
use crate::rows::{
    empty_variant_type, function_type, no_variant, owned_type_view, plain_function, result_parts,
    result_type, result_type_args, single_tag_payload_type, sole_payload, applied2,
};
use crate::span::Span;
use crate::syntax::{
    call_callee_name, callee_name, final_value, final_value_expr, is_to_result_call, name_of, ungroup_expr, ungrouped, Expr,
    ExprKind, PropagationMode,
};
use crate::text::same_text;
use crate::type_ops::{
    is_deferred, is_resolved_value_type, literal_rule, map_type, mapped, resolved, some_node,
    type_contains_deferred, type_map_view, LiteralWidening,
};
use crate::types::{
    types_view, Literal, Row, RowEntry, RowTail, SpecRow, SpecRowEntry, SpecType, Type,
};
use vstd::prelude::*;

verus! {

// ---------------------------------------------------------------------------
// Forms
// ---------------------------------------------------------------------------
/// The forms of calls that answer for a call. A form is tried only where none before it
/// answers, in the order of the fields.
#[derive(Debug, Clone, Copy, PartialEq, Eq, Structural)]
pub struct CallForms {
    pub import: bool,
    pub slot_conversion: bool,
    pub decode: bool,
    pub encode: bool,
    pub selection: bool,
    pub map_constructor: bool,
    pub host: bool,
    pub compile_time: bool,
    pub method: bool,
}

/// The form that types a call.
#[derive(Debug)]
pub enum CallForm<'a> {
    /// A tag with a payload.
    Tag(&'a str),
    /// The constructor of a family, by its owner.
    Family(&'a str),
    Import,
    SlotConversion,
    Decode,
    Encode,
    Selection,
    MapConstructor,
    Host,
    CompileTime,
    Method,
    /// The callee is a value that is called.
    Function,
}

/// The form that types a call.
pub ghost enum SpecCallForm {
    Tag(Seq<char>),
    Family(Seq<char>),
    Import,
    SlotConversion,
    Decode,
    Encode,
    Selection,
    MapConstructor,
    Host,
    CompileTime,
    Method,
    Function,
}

impl<'a> CallForm<'a> {
    pub open spec fn view(&self) -> SpecCallForm {
        match *self {
            CallForm::Tag(tag) => SpecCallForm::Tag(tag@),
            CallForm::Family(owner) => SpecCallForm::Family(owner@),
            CallForm::Import => SpecCallForm::Import,
            CallForm::SlotConversion => SpecCallForm::SlotConversion,
            CallForm::Decode => SpecCallForm::Decode,
            CallForm::Encode => SpecCallForm::Encode,
            CallForm::Selection => SpecCallForm::Selection,
            CallForm::MapConstructor => SpecCallForm::MapConstructor,
            CallForm::Host => SpecCallForm::Host,
            CallForm::CompileTime => SpecCallForm::CompileTime,
            CallForm::Method => SpecCallForm::Method,
            CallForm::Function => SpecCallForm::Function,
        }
    }
}

/// The owner of the family that a callee names.
pub open spec fn constructor_owner(callee: Expr, aliases: Map<Seq<char>, String>) -> Option<
    Seq<char>,
> {
    match callee_name(callee) {
        Some(name) => if aliases.contains_key(name) {
            Some(aliases[name]@)
        } else {
            None
        },
        None => None,
    }
}

/// The form that types a call: a tag and the constructor of a family come first, and then the
/// first form that answers. A callee that none answers for is called as a value.
pub open spec fn form_of(
    callee: Expr,
    aliases: Map<Seq<char>, String>,
    forms: CallForms,
) -> SpecCallForm {
    if callee.kind is Tag {
        SpecCallForm::Tag(callee.kind->Tag_0@)
    } else if constructor_owner(callee, aliases) is Some {
        SpecCallForm::Family(constructor_owner(callee, aliases)->0)
    } else if forms.import {
        SpecCallForm::Import
    } else if forms.slot_conversion {
        SpecCallForm::SlotConversion
    } else if forms.decode {
        SpecCallForm::Decode
    } else if forms.encode {
        SpecCallForm::Encode
    } else if forms.selection {
        SpecCallForm::Selection
    } else if forms.map_constructor {
        SpecCallForm::MapConstructor
    } else if forms.host {
        SpecCallForm::Host
    } else if forms.compile_time {
        SpecCallForm::CompileTime
    } else if forms.method {
        SpecCallForm::Method
    } else {
        SpecCallForm::Function
    }
}

/// Find the form that types a call.
pub fn call_form<'a>(callee: &'a Expr, aliases: &'a StringMap<String>, forms: CallForms) -> (form:
    CallForm<'a>)
    ensures
        form@ == form_of(*callee, aliases@, forms),
{
    if let ExprKind::Tag(tag) = &callee.kind {
        return CallForm::Tag(tag.as_str());
    }
    if let Some(name) = call_callee_name(callee) {
        if let Some(owner) = aliases.get(name) {
            return CallForm::Family(owner.as_str());
        }
    }
    if forms.import {
        CallForm::Import
    } else if forms.slot_conversion {
        CallForm::SlotConversion
    } else if forms.decode {
        CallForm::Decode
    } else if forms.encode {
        CallForm::Encode
    } else if forms.selection {
        CallForm::Selection
    } else if forms.map_constructor {
        CallForm::MapConstructor
    } else if forms.host {
        CallForm::Host
    } else if forms.compile_time {
        CallForm::CompileTime
    } else if forms.method {
        CallForm::Method
    } else {
        CallForm::Function
    }
}

/// The answers up to a position, and none after it.
pub open spec fn answers_before(forms: CallForms, count: int) -> CallForms {
    CallForms {
        import: forms.import && count > 0,
        slot_conversion: forms.slot_conversion && count > 1,
        decode: forms.decode && count > 2,
        encode: forms.encode && count > 3,
        selection: forms.selection && count > 4,
        map_constructor: forms.map_constructor && count > 5,
        host: forms.host && count > 6,
        compile_time: forms.compile_time && count > 7,
        method: forms.method && count > 8,
    }
}

/// What the forms after the one that is taken answer makes no difference: they need not be
/// tried.
pub proof fn later_forms_are_not_tried(
    callee: Expr,
    aliases: Map<Seq<char>, String>,
    forms: CallForms,
    others: CallForms,
    count: int,
)
    requires
        answers_before(forms, count) == answers_before(others, count),
        !(form_of(callee, aliases, answers_before(forms, count)) is Function),
    ensures
        form_of(callee, aliases, forms) == form_of(callee, aliases, others),
{
}

// ---------------------------------------------------------------------------
// Functions
// ---------------------------------------------------------------------------
/// What a call of a value of some type takes.
#[derive(Debug)]
pub enum CallPlan {
    /// Each argument must fit its parameter, which stands first; the call gives the
    /// result.
    Known { goals: Vec<(Type, Type)>, result: Type },
    /// The callee must be a function of the arguments; the call gives what it
    /// gives.
    Unify { callee: Type, result: Type },
}

/// What a call of a value of some type takes.
pub ghost enum SpecCallPlan {
    Known { goals: Seq<(SpecType, SpecType)>, result: SpecType },
    Unify { callee: SpecType, result: SpecType },
}

impl CallPlan {
    pub open spec fn view(&self) -> SpecCallPlan {
        match self {
            CallPlan::Known { goals, result } => SpecCallPlan::Known {
                goals: pairs_view(goals@),
                result: result@,
            },
            CallPlan::Unify { callee, result } => SpecCallPlan::Unify {
                callee: callee@,
                result: result@,
            },
        }
    }
}

/// Whether a function takes a number of arguments. Trailing ones may be left out.
pub open spec fn takes(callee: SpecType, count: nat) -> bool {
    match callee {
        SpecType::Function { params, required, .. } => required <= count <= params.len(),
        _ => false,
    }
}

/// What a call takes. `fresh` is a metavariable that is not in use.
pub open spec fn call_plan(callee: SpecType, args: Seq<SpecType>, fresh: u32) -> SpecCallPlan {
    if takes(callee, args.len()) {
        SpecCallPlan::Known {
            goals: zipped(callee->Function_params.take(args.len() as int), args),
            result: *callee->Function_result,
        }
    } else {
        SpecCallPlan::Unify {
            callee: plain_function(args, SpecType::Meta(fresh)),
            result: SpecType::Meta(fresh),
        }
    }
}

/// Decide what a call takes.
pub fn infer_call(callee: &Type, args: Vec<Type>, fresh: u32) -> (plan: CallPlan)
    ensures
        plan@ == call_plan(callee@, types_view(args@), fresh),
{
    let ghost given = types_view(args@);
    assert(given.len() == args.len());
    if let Type::Function { params, result, required } = callee {
        assert(types_view(params@).len() == params.len());
        if *required <= args.len() && args.len() <= params.len() {
            let ghost wanted = types_view(params@).take(args.len() as int);
            let mut goals: Vec<(Type, Type)> = Vec::new();
            let mut index: usize = 0;
            assert(pairs_view(goals@) =~= zipped(wanted, given).take(0));
            while index < args.len()
                invariant
                    index <= args.len(),
                    args.len() <= params.len(),
                    given == types_view(args@),
                    wanted == types_view(params@).take(args.len() as int),
                    pairs_view(goals@) == zipped(wanted, given).take(index as int),
                decreases args.len() - index,
            {
                let ghost earlier = pairs_view(goals@);
                assert(given[index as int] == args@[index as int]@);
                assert(wanted[index as int] == params@[index as int]@);
                goals.push((params[index].clone(), args[index].clone()));
                assert(pairs_view(goals@) =~= earlier.push(
                    (wanted[index as int], given[index as int]),
                ));
                assert(pairs_view(goals@) =~= zipped(wanted, given).take(index + 1));
                index += 1;
            }
            assert(zipped(wanted, given).take(args.len() as int) =~= zipped(wanted, given));
            return CallPlan::Known { goals, result: (**result).clone() };
        }
    }
    CallPlan::Unify {
        callee: function_type(args, Type::Meta(fresh)),
        result: Type::Meta(fresh),
    }
}

/// The type of the error that a value is turned into: literals count as their
/// base types.
pub fn widen_to_result_error_type(ty: &Type) -> (widened: Type)
    ensures
        widened@ == mapped(ty@, literal_rule()),
{
    map_type(ty, &LiteralWidening)
}

/// The type of a call that turns a value into a result: the error is the argument.
pub open spec fn to_result_type(
    callee: Expr,
    args: Seq<SpecType>,
    result: SpecType,
) -> Option<SpecType> {
    if ungrouped(callee).kind is FieldAccess && ungrouped(callee).kind->FieldAccess_field@
        == "toResult"@ && args.len() == 1 && result_parts(result) is Some {
        Some(applied2("Result"@, (result_parts(result)->0).0, mapped(args[0], literal_rule())))
    } else {
        None
    }
}

/// The type of a call that turns a value into a result.
pub fn to_result_call_type(callee: &Expr, args: &Vec<Type>, result: &Type) -> (ty: Option<Type>)
    ensures
        owned_type_view(ty) == to_result_type(*callee, types_view(args@), result@),
{
    assert(types_view(args@).len() == args.len());
    if is_to_result_call(callee) && args.len() == 1 {
        assert(types_view(args@)[0] == args@[0]@);
        if let Some((ok_ty, _)) = result_type_args(result) {
            return Some(result_type(ok_ty.clone(), widen_to_result_error_type(&args[0])));
        }
    }
    None
}

/// The type of a call of a known function: that of a value which is turned into a
/// result, or else that of a result whose error is handled, or else the function's own.
pub fn known_call_type(callee: &Expr, args: &Vec<Type>, result: Type, handled: Option<Type>) -> (ty:
    Type)
    ensures
        ty@ == (match to_result_type(*callee, types_view(args@), result@) {
            Some(whole) => whole,
            None => match handled {
                Some(whole) => whole@,
                None => result@,
            },
        }),
{
    match to_result_call_type(callee, args, &result) {
        Some(whole) => whole,
        None => match handled {
            Some(whole) => whole,
            None => result,
        },
    }
}

/// The tag and the payload of a closed variant with one tag that carries one
/// value.
pub open spec fn only_tag(ty: SpecType) -> Option<(Seq<char>, SpecType)> {
    match ty {
        SpecType::Variant(row) => if row.tail is Closed && row.entries.len() == 1 {
            match row.entries[0] {
                SpecRowEntry::Tag { name, payload } => if payload.len() == 1 {
                    Some((name, payload[0]))
                } else {
                    None
                },
                _ => None,
            }
        } else {
            None
        },
        _ => None,
    }
}

/// The type of a result whose error is handled by a function that only ever gives
/// one of the two constructors. One that gives values leaves no error; one that
/// gives errors replaces the error.
pub open spec fn handled_result(receiver: SpecType, handler_result: SpecType) -> Option<SpecType> {
    match (result_parts(receiver), only_tag(handler_result)) {
        (Some((ok_ty, _)), Some((tag, payload))) => if tag == "Ok"@ {
            Some(applied2("Result"@, ok_ty, no_variant()))
        } else if tag == "Err"@ {
            Some(applied2("Result"@, ok_ty, payload))
        } else {
            None
        },
        _ => None,
    }
}

/// The type of a result whose error is handled by a function that only ever gives
/// one of the two constructors.
pub fn infer_or_else_single_constructor_result(receiver: &Type, handler_result: &Type) -> (ty: Option<
    Type,
>)
    ensures
        owned_type_view(ty) == handled_result(receiver@, handler_result@),
{
    let (ok_ty, _) = match result_type_args(receiver) {
        Some(parts) => parts,
        None => {
            return None;
        },
    };
    let row = match handler_result {
        Type::Variant(row) => row,
        _ => {
            return None;
        },
    };
    assert(row@.tail == row.tail);
    assert(row@.entries.len() == row.entries.len());
    if !matches!(row.tail, RowTail::Closed) || row.entries.len() != 1 {
        return None;
    }
    assert(row@.entries[0] == row.entries@[0]@);
    match &row.entries[0] {
        RowEntry::Tag { name, payload } => {
            assert(types_view(payload@).len() == payload.len());
            if payload.len() != 1 {
                return None;
            }
            assert(types_view(payload@)[0] == payload@[0]@);
            if same_text(name.as_str(), "Ok") {
                Some(result_type(ok_ty.clone(), empty_variant_type()))
            } else if same_text(name.as_str(), "Err") {
                Some(result_type(ok_ty.clone(), payload[0].clone()))
            } else {
                None
            }
        },
        _ => None,
    }
}

/// The type of a tag with a payload. It is not known where a part of the payload
/// is not.
pub open spec fn tagged(tag: Seq<char>, payload: Seq<SpecType>) -> SpecType {
    if exists|i: int| 0 <= i < payload.len() && some_node(#[trigger] payload[i], is_deferred()) {
        SpecType::Deferred
    } else {
        SpecType::Variant(
            SpecRow {
                entries: seq![SpecRowEntry::Tag { name: tag, payload }],
                tail: RowTail::Closed,
            },
        )
    }
}

/// The type of a tag with a payload.
pub fn infer_variant_constructor(tag: &str, payload: Vec<Type>) -> (ty: Type)
    ensures
        ty@ == tagged(tag@, types_view(payload@)),
{
    let ghost given = types_view(payload@);
    let mut index: usize = 0;
    while index < payload.len()
        invariant
            index <= payload.len(),
            given == types_view(payload@),
            forall|i: int| 0 <= i < index ==> !some_node(#[trigger] given[i], is_deferred()),
        decreases payload.len() - index,
    {
        assert(given[index as int] == payload@[index as int]@);
        if type_contains_deferred(&payload[index]) {
            return Type::Deferred;
        }
        index += 1;
    }
    let mut entries: Vec<RowEntry> = Vec::new();
    entries.push(RowEntry::Tag { name: tag.to_owned(), payload });
    let row = Row { entries, tail: RowTail::Closed };
    assert(row@.entries =~= seq![SpecRowEntry::Tag { name: tag@, payload: given }]);
    assert(row@.tail == RowTail::Closed);
    Type::Variant(row)
}

// ---------------------------------------------------------------------------
// Constructors of families
// ---------------------------------------------------------------------------
/// The names of the fields of a row.
pub open spec fn field_names(entries: Seq<SpecRowEntry>) -> Set<Seq<char>> {
    Set::new(
        |name: Seq<char>|
            exists|i: int|
                0 <= i < entries.len() && (#[trigger] entries[i]) is Field
                    && entries[i]->Field_name == name,
    )
}

/// The names of the fields of a row.
pub fn record_label_set(row: &Row) -> (names: StringSet)
    ensures
        names@ == field_names(row@.entries),
{
    let ghost all = row@.entries;
    let mut names = StringSet::new();
    let mut index: usize = 0;
    assert(names@ =~= field_names(all.take(0)));
    while index < row.entries.len()
        invariant
            index <= row.entries.len(),
            all == row@.entries,
            all.len() == row.entries.len(),
            names@ == field_names(all.take(index as int)),
        decreases row.entries.len() - index,
    {
        let ghost before = names@;
        let ghost shorter = all.take(index as int);
        let ghost longer = all.take(index + 1);
        assert(all[index as int] == row.entries@[index as int]@);
        if let RowEntry::Field { name, .. } = &row.entries[index] {
            names.insert(name.clone());
        }
        assert forall|name: Seq<char>| field_names(longer).contains(name) == (field_names(
            shorter,
        ).contains(name) || (all[index as int] is Field && all[index as int]->Field_name
            == name)) by {
            if field_names(shorter).contains(name) {
                let i = choose|i: int|
                    0 <= i < shorter.len() && (#[trigger] shorter[i]) is Field
                        && shorter[i]->Field_name == name;
                assert(longer[i] == shorter[i]);
            }
            if all[index as int] is Field && all[index as int]->Field_name == name {
                assert(longer[index as int] == all[index as int]);
            }
            if field_names(longer).contains(name) {
                let i = choose|i: int|
                    0 <= i < longer.len() && (#[trigger] longer[i]) is Field
                        && longer[i]->Field_name == name;
                if i < index {
                    assert(shorter[i] == longer[i]);
                }
            }
        }
        assert(names@ =~= field_names(longer));
        index += 1;
    }
    assert(all.take(all.len() as int) =~= all);
    names
}

/// An entry of the data that a constructor takes: a field with a default may be
/// left out.
pub open spec fn constructor_entry(entry: SpecRowEntry, defaulted: Set<Seq<char>>) -> SpecRowEntry {
    match entry {
        SpecRowEntry::Field { name, ty } => if defaulted.contains(name) {
            SpecRowEntry::Field { name, ty: SpecType::Optional(Box::new(ty)) }
        } else {
            entry
        },
        _ => entry,
    }
}

/// The data that the constructor of a family takes.
pub open spec fn constructor_row(data: SpecRow, defaulted: Set<Seq<char>>) -> SpecRow {
    SpecRow {
        entries: Seq::new(
            data.entries.len(),
            |i: int| constructor_entry(data.entries[i], defaulted),
        ),
        tail: data.tail,
    }
}

/// The data that the constructor of a family takes.
pub fn constructor_data_row(data: &Row, defaulted: &StringSet) -> (row: Row)
    ensures
        row@ == constructor_row(data@, defaulted@),
{
    let ghost wanted = constructor_row(data@, defaulted@).entries;
    let mut entries: Vec<RowEntry> = Vec::new();
    let mut index: usize = 0;
    assert(data@.entries.len() == data.entries.len());
    while index < data.entries.len()
        invariant
            index <= data.entries.len(),
            data@.entries.len() == data.entries.len(),
            wanted == constructor_row(data@, defaulted@).entries,
            entries.len() == index,
            forall|i: int| 0 <= i < index ==> (#[trigger] entries@[i])@ == wanted[i],
        decreases data.entries.len() - index,
    {
        assert(data@.entries[index as int] == data.entries@[index as int]@);
        let entry = match &data.entries[index] {
            RowEntry::Field { name, ty } => if defaulted.contains(name.as_str()) {
                let optional = Type::Optional(Box::new(ty.clone()));
                RowEntry::Field { name: name.clone(), ty: optional }
            } else {
                data.entries[index].clone()
            },
            _ => data.entries[index].clone(),
        };
        entries.push(entry);
        index += 1;
    }
    let row = Row { entries, tail: data.tail };
    assert(row@.entries =~= wanted);
    assert(row@.tail == data@.tail);
    row
}

/// Whether a field of the data may be left out.
pub open spec fn may_be_left_out(
    entries: Seq<SpecRowEntry>,
    defaulted: Set<Seq<char>>,
    definitions: Map<Seq<char>, SpecType>,
    name: Seq<char>,
) -> bool {
    defaulted.contains(name) || exists|i: int|
        0 <= i < entries.len() && is_optional_field(#[trigger] entries[i], definitions, name)
}

/// Whether an entry is a field of a name that may be left out.
pub open spec fn is_optional_field(
    entry: SpecRowEntry,
    definitions: Map<Seq<char>, SpecType>,
    name: Seq<char>,
) -> bool {
    entry is Field && entry->Field_name == name && normal_form(entry->Field_ty, definitions)
        is Optional
}

/// Whether a record has the fields that a constructor takes: no others, and all
/// that may not be left out.
pub open spec fn has_exact_fields(
    actual: SpecRow,
    data: SpecRow,
    defaulted: Set<Seq<char>>,
    definitions: Map<Seq<char>, SpecType>,
) -> bool {
    &&& field_names(actual.entries).subset_of(field_names(data.entries))
    &&& forall|name: Seq<char>| #[trigger]
        field_names(data.entries).contains(name) && !field_names(actual.entries).contains(name)
            ==> may_be_left_out(data.entries, defaulted, definitions, name)
}

fn field_may_be_left_out(
    data: &Row,
    defaulted: &StringSet,
    definitions: &StringMap<Type>,
    name: &str,
) -> (may: bool)
    ensures
        may == may_be_left_out(
            data@.entries,
            defaulted@,
            type_map_view(definitions@),
            name@,
        ),
{
    if defaulted.contains(name) {
        return true;
    }
    let ghost all = data@.entries;
    let ghost types = type_map_view(definitions@);
    let mut index: usize = 0;
    assert(all.len() == data.entries.len());
    while index < data.entries.len()
        invariant
            index <= data.entries.len(),
            all == data@.entries,
            all.len() == data.entries.len(),
            types == type_map_view(definitions@),
            forall|i: int| 0 <= i < index ==> !is_optional_field(#[trigger] all[i], types, name@),
        decreases data.entries.len() - index,
    {
        assert(all[index as int] == data.entries@[index as int]@);
        if let RowEntry::Field { name: field, ty } = &data.entries[index] {
            if same_text(field.as_str(), name) && type_admits_undefined(ty, definitions) {
                assert(is_optional_field(all[index as int], types, name@));
                return true;
            }
        }
        index += 1;
    }
    false
}

/// Whether a record has the fields that a constructor takes.
pub fn constructor_fields_are_exact(
    actual: &Row,
    data: &Row,
    defaulted: &StringSet,
    definitions: &StringMap<Type>,
) -> (exact: bool)
    ensures
        exact == has_exact_fields(actual@, data@, defaulted@, type_map_view(definitions@)),
{
    let given = record_label_set(actual);
    let wanted = record_label_set(data);
    let ghost types = type_map_view(definitions@);
    let mut index: usize = 0;
    assert(actual@.entries.len() == actual.entries.len());
    while index < actual.entries.len()
        invariant
            index <= actual.entries.len(),
            actual@.entries.len() == actual.entries.len(),
            given@ == field_names(actual@.entries),
            wanted@ == field_names(data@.entries),
            forall|i: int|
                0 <= i < index && (#[trigger] actual@.entries[i]) is Field ==> wanted@.contains(
                    actual@.entries[i]->Field_name,
                ),
        decreases actual.entries.len() - index,
    {
        assert(actual@.entries[index as int] == actual.entries@[index as int]@);
        if let RowEntry::Field { name, .. } = &actual.entries[index] {
            if !wanted.contains(name.as_str()) {
                assert(given@.contains(name@));
                return false;
            }
        }
        index += 1;
    }
    assert(given@.subset_of(wanted@));
    let mut index: usize = 0;
    assert(data@.entries.len() == data.entries.len());
    while index < data.entries.len()
        invariant
            index <= data.entries.len(),
            data@.entries.len() == data.entries.len(),
            given@ == field_names(actual@.entries),
            wanted@ == field_names(data@.entries),
            types == type_map_view(definitions@),
            forall|i: int|
                0 <= i < index && (#[trigger] data@.entries[i]) is Field && !given@.contains(
                    data@.entries[i]->Field_name,
                ) ==> may_be_left_out(
                    data@.entries,
                    defaulted@,
                    types,
                    data@.entries[i]->Field_name,
                ),
        decreases data.entries.len() - index,
    {
        assert(data@.entries[index as int] == data.entries@[index as int]@);
        if let RowEntry::Field { name, .. } = &data.entries[index] {
            if !given.contains(name.as_str()) && !field_may_be_left_out(
                data,
                defaulted,
                definitions,
                name.as_str(),
            ) {
                assert(wanted@.contains(name@));
                return false;
            }
        }
        index += 1;
    }
    assert forall|name: Seq<char>| #[trigger]
        field_names(data@.entries).contains(name) && !field_names(
            actual@.entries,
        ).contains(name) implies may_be_left_out(data@.entries, defaulted@, types, name) by {
        let i = choose|i: int|
            0 <= i < data@.entries.len() && (#[trigger] data@.entries[i]) is Field
                && data@.entries[i]->Field_name == name;
        assert(data@.entries[i] is Field);
    }
    true
}

// ---------------------------------------------------------------------------
// Imports
// ---------------------------------------------------------------------------
/// What comes of a call that imports a module.
#[derive(Debug)]
pub enum ImportStep<'a> {
    /// The call imports nothing.
    NoImport,
    /// The module is not known; the place is to blame.
    Dynamic(Span),
    /// The call imports the module of a literal.
    Static { specifier: &'a str, span: Span },
}

/// What comes of a call that imports a module.
pub open spec fn is_import_step(callee: Expr, args: Seq<Expr>, step: ImportStep<'_>) -> bool {
    if name_of(callee) != Some("import"@) {
        step is NoImport
    } else if args.len() != 1 {
        step == ImportStep::Dynamic(callee.span)
    } else {
        match ungrouped(args[0]).kind {
            ExprKind::Literal(Literal::String(raw)) => step is Static && step->specifier@ == raw@
                && step->span == args[0].span,
            _ => step == ImportStep::Dynamic(args[0].span),
        }
    }
}

/// Decide what comes of a call that imports a module.
pub fn infer_import_call<'a>(callee: &Expr, args: &'a Vec<Expr>) -> (step: ImportStep<'a>)
    ensures
        is_import_step(*callee, args@, step),
{
    match crate::syntax::expr_name(callee) {
        Some(name) => {
            if !same_text(name, "import") {
                return ImportStep::NoImport;
            }
        },
        None => {
            return ImportStep::NoImport;
        },
    }
    if args.len() != 1 {
        return ImportStep::Dynamic(callee.span);
    }
    match &ungroup_expr(&args[0]).kind {
        ExprKind::Literal(Literal::String(raw)) => ImportStep::Static {
            specifier: raw.as_str(),
            span: args[0].span,
        },
        _ => ImportStep::Dynamic(args[0].span),
    }
}

/// What an import of a module gives.
#[derive(Debug, Clone, Copy, PartialEq, Eq, Structural)]
pub enum ImportOutcome {
    /// The type of the module.
    Type,
    /// A module whose type is not known.
    Unknown,
    /// A local module that was not found.
    Unresolved,
    /// A module outside of the program.
    UnsupportedRoot,
}

/// Decide what an import gives. `known` says whether the module is known, and then
/// whether its type is; `local` that the specifier names a local module.
pub fn import_outcome(known: Option<bool>, local: bool) -> (outcome: ImportOutcome)
    ensures
        outcome == (match known {
            Some(true) => ImportOutcome::Type,
            Some(false) => ImportOutcome::Unknown,
            None => if local {
                ImportOutcome::Unresolved
            } else {
                ImportOutcome::UnsupportedRoot
            },
        }),
{
    match known {
        Some(true) => ImportOutcome::Type,
        Some(false) => ImportOutcome::Unknown,
        None => if local {
            ImportOutcome::Unresolved
        } else {
            ImportOutcome::UnsupportedRoot
        },
    }
}

// ---------------------------------------------------------------------------
// Formats
// ---------------------------------------------------------------------------
/// The call that a method with a format stands for: `value.encode(Format, ...)` is
/// `Format.encode(value, ...)`.
pub open spec fn is_format_call(
    callee: Expr,
    args: Seq<Expr>,
    format: Seq<char>,
    method: Seq<char>,
    call: (Expr, Vec<Expr>),
) -> bool {
    let access = ungrouped(callee).kind;
    &&& call.0.span == callee.span
    &&& call.0.kind is FieldAccess
    &&& call.0.kind->FieldAccess_field@ == method
    &&& call.0.kind->FieldAccess_field_span == access->FieldAccess_field_span
    &&& !call.0.kind->FieldAccess_null_safe
    &&& call.0.kind->FieldAccess_receiver.kind is Name
    &&& call.0.kind->FieldAccess_receiver.kind->Name_0@ == format
    &&& call.0.kind->FieldAccess_receiver.span == args[0].span
    &&& call.1@ == seq![*access->FieldAccess_receiver] + args.skip(1)
}

fn take_access(expr: Expr) -> (access: Option<(Expr, Span)>)
    ensures
        match access {
            Some((receiver, span)) => ungrouped(expr).kind is FieldAccess && receiver
                == *ungrouped(expr).kind->FieldAccess_receiver && span == ungrouped(
                expr,
            ).kind->FieldAccess_field_span,
            None => !(ungrouped(expr).kind is FieldAccess),
        },
    decreases expr,
{
    match expr {
        Expr { kind: ExprKind::Group(inner), span: _ } => take_access(*inner),
        Expr { kind: ExprKind::FieldAccess { receiver, field_span, .. }, span: _ } => Some(
            (*receiver, field_span),
        ),
        _ => None,
    }
}

/// Build the call that a method with a format stands for.
pub fn format_call(callee: Expr, args: Vec<Expr>, format: &str, method: &str) -> (call: (
    Expr,
    Vec<Expr>,
))
    requires
        ungrouped(callee).kind is FieldAccess,
        args.len() > 0,
    ensures
        is_format_call(callee, args@, format@, method@, call),
{
    let span = callee.span;
    let format_span = args[0].span;
    let mut rest = args;
    let mut given: Vec<Expr> = Vec::new();
    let mut trailing = rest.split_off(1);
    match take_access(callee) {
        Some((receiver, field_span)) => {
            given.push(receiver);
            given.append(&mut trailing);
            assert(given@ =~= seq![receiver] + args@.skip(1));
            let name = Expr { kind: ExprKind::Name(format.to_owned()), span: format_span };
            let access = Expr {
                kind: ExprKind::FieldAccess {
                    receiver: Box::new(name),
                    field: method.to_owned(),
                    field_span,
                    null_safe: false,
                },
                span,
            };
            (access, given)
        },
        None => (Expr { kind: ExprKind::Missing, span }, given),
    }
}

// ---------------------------------------------------------------------------
// Propagated errors
// ---------------------------------------------------------------------------
/// What comes of propagating a value.
#[derive(Debug)]
pub enum PropagateStep {
    /// The value of the result; an error that is returned is recorded.
    Unwrap { value: Type, error: Option<Type> },
    /// The value is no result, which is reported where its type is known.
    NoResult { report: bool },
}

/// Decide what comes of propagating a value of a normal type.
pub fn infer_propagate(value: &Type, mode: PropagationMode) -> (step: PropagateStep)
    ensures
        match result_parts(value@) {
            Some((ok_ty, error_ty)) => step is Unwrap && step->value@ == ok_ty && owned_type_view(
                step->error,
            ) == (if mode is ReturnError {
                Some(error_ty)
            } else {
                None
            }),
            None => step == (PropagateStep::NoResult { report: resolved(value@) }),
        },
{
    match result_type_args(value) {
        Some((ok_ty, error_ty)) => {
            let error = if matches!(mode, PropagationMode::ReturnError) {
                Some(error_ty.clone())
            } else {
                None
            };
            PropagateStep::Unwrap { value: ok_ty.clone(), error }
        },
        None => PropagateStep::NoResult { report: is_resolved_value_type(value) },
    }
}

/// Whether a place is among some sites.
pub open spec fn has_site(sites: Seq<SpecSite>, span: Span) -> bool {
    exists|i: int| 0 <= i < sites.len() && (#[trigger] sites[i]).span == span
}

/// The sites with one more, each place once.
pub open spec fn with_site(sites: Seq<SpecSite>, span: Span, error_ty: SpecType) -> Seq<SpecSite> {
    if has_site(sites, span) {
        sites
    } else {
        sites.push(SpecSite { span, error_ty })
    }
}

/// Record where an error leaves a function.
pub fn record_propagation_site(sites: &mut Vec<PropagationSite>, span: Span, error_ty: Type)
    ensures
        sites_view(final(sites)@) == with_site(sites_view(old(sites)@), span, error_ty@),
{
    let ghost all = sites_view(sites@);
    let mut index: usize = 0;
    while index < sites.len()
        invariant
            index <= sites.len(),
            all == sites_view(sites@),
            all == sites_view(old(sites)@),
            forall|i: int| 0 <= i < index ==> (#[trigger] all[i]).span != span,
        decreases sites.len() - index,
    {
        assert(all[index as int].span == sites@[index as int].span);
        if sites[index].span == span {
            return;
        }
        index += 1;
    }
    sites.push(PropagationSite { span, error_ty });
    assert(sites_view(sites@) =~= all.push(SpecSite { span, error_ty: error_ty@ }));
}

/// The result type of a body that ends in a constructor of a result.
pub open spec fn constructed_result(body: Expr, body_type: SpecType) -> Option<SpecType> {
    match final_value(body) {
        Some(value) => match ungrouped(value).kind {
            ExprKind::Call { callee, args } => if args@.len() != 1 {
                None
            } else {
                match ungrouped(*callee).kind {
                    ExprKind::Tag(tag) => match body_type {
                        SpecType::Variant(row) => match sole_payload(row.entries, tag@, 0) {
                            Some(payload) => if tag@ == "Ok"@ {
                                Some(applied2("Result"@, payload, no_variant()))
                            } else if tag@ == "Err"@ {
                                Some(applied2("Result"@, SpecType::Deferred, payload))
                            } else {
                                None
                            },
                            None => None,
                        },
                        _ => None,
                    },
                    _ => None,
                }
            },
            _ => None,
        },
        None => None,
    }
}

/// The result type of a body that ends in a constructor of a result.
pub fn final_result_constructor_type(body: &Expr, body_type: &Type) -> (ty: Option<Type>)
    ensures
        owned_type_view(ty) == constructed_result(*body, body_type@),
{
    let value = match final_value_expr(body) {
        Some(value) => value,
        None => {
            return None;
        },
    };
    match &ungroup_expr(value).kind {
        ExprKind::Call { callee, args } => {
            if args.len() != 1 {
                return None;
            }
            match &ungroup_expr(callee).kind {
                ExprKind::Tag(tag) => match single_tag_payload_type(body_type, tag.as_str()) {
                    Some(payload) => if same_text(tag.as_str(), "Ok") {
                        Some(result_type(payload, empty_variant_type()))
                    } else if same_text(tag.as_str(), "Err") {
                        Some(result_type(Type::Deferred, payload))
                    } else {
                        None
                    },
                    None => None,
                },
                _ => None,
            }
        },
        _ => None,
    }
}

/// The result type of a body of a normal type.
pub open spec fn body_result(body: Expr, body_type: SpecType) -> Option<SpecType> {
    if result_parts(body_type) is Some {
        Some(body_type)
    } else {
        constructed_result(body, body_type)
    }
}

/// The result type of a body of a normal type.
pub fn propagation_body_result_type(body: &Expr, body_type: &Type) -> (ty: Option<Type>)
    ensures
        owned_type_view(ty) == body_result(*body, body_type@),
{
    if result_type_args(body_type).is_some() {
        return Some(body_type.clone());
    }
    final_result_constructor_type(body, body_type)
}

/// The error types that some are a union of: those that have values.
pub open spec fn inhabited(types: Seq<SpecType>) -> Seq<SpecType>
    decreases types.len(),
{
    if types.len() == 0 {
        Seq::empty()
    } else {
        let earlier = inhabited(types.drop_last());
        if types.last() == no_variant() {
            earlier
        } else {
            earlier.push(types.last())
        }
    }
}

/// The union of variants, with the payloads that must unify; nothing where they do
/// not go together.
pub open spec fn variants_united(types: Seq<SpecType>) -> Option<
    (crate::matches::SpecArmUnion, Seq<(SpecType, SpecType)>),
>
    decreases types.len(),
{
    if types.len() == 0 {
        Some((no_arms(), Seq::empty()))
    } else {
        match (variants_united(types.drop_last()), types.last()) {
            (Some((union, goals)), SpecType::Variant(row)) => match with_arm(union, row) {
                Some((after, more)) => Some((after, goals + more)),
                None => None,
            },
            _ => None,
        }
    }
}

/// How the errors that leave a function are one type.
#[derive(Debug)]
pub enum ErrorUnion {
    Known(Type),
    /// A union of variants, where these payloads unify.
    Variants { ty: Type, goals: Vec<(Type, Type)> },
    /// The variants do not go together.
    Conflict,
    /// Each type must fit the one before it, or that one it.
    Widest(Vec<Type>),
}

/// How the errors that leave a function are one type.
pub open spec fn is_error_union(types: Seq<SpecType>, whole: ErrorUnion) -> bool {
    let kept = inhabited(types);
    if kept.len() == 0 {
        whole is Known && whole->Known_0@ == no_variant()
    } else if forall|i: int| 0 <= i < kept.len() ==> #[trigger] kept[i] == kept[0] {
        whole is Known && whole->Known_0@ == kept[0]
    } else if forall|i: int| 0 <= i < kept.len() ==> #[trigger] kept[i] is Variant {
        match variants_united(kept) {
            Some((united, goals)) => whole is Variants && whole->ty@ == union_type(united)
                && pairs_view(whole->goals@) == goals,
            None => whole is Conflict,
        }
    } else {
        whole is Widest && types_view(whole->Widest_0@) == kept
    }
}

fn keep_inhabited(types: Vec<Type>) -> (kept: Vec<Type>)
    ensures
        types_view(kept@) == inhabited(types_view(types@)),
{
    let ghost all = types_view(types@);
    let mut kept: Vec<Type> = Vec::new();
    let mut index: usize = 0;
    assert(types_view(kept@) =~= Seq::empty());
    while index < types.len()
        invariant
            index <= types.len(),
            all == types_view(types@),
            types_view(kept@) == inhabited(all.take(index as int)),
        decreases types.len() - index,
    {
        proof {
            let longer = all.take(index + 1);
            assert(longer.drop_last() =~= all.take(index as int));
            assert(longer.last() == types@[index as int]@);
        }
        let ghost earlier = types_view(kept@);
        proof {
            if let SpecType::Variant(row) = types@[index as int]@ {
                if row.entries.len() == 0 {
                    assert(row.entries =~= Seq::empty());
                }
            }
        }
        if !is_empty_closed_variant(&types[index]) {
            kept.push(types[index].clone());
            assert(types_view(kept@) =~= earlier.push(types@[index as int]@));
        }
        index += 1;
    }
    assert(all.take(all.len() as int) =~= all);
    kept
}

proof fn conflicts_remain(types: Seq<SpecType>, count: int)
    requires
        0 <= count <= types.len(),
        variants_united(types.take(count)) is None,
    ensures
        variants_united(types) is None,
    decreases types.len() - count,
{
    if count < types.len() {
        let longer = types.take(count + 1);
        assert(longer.drop_last() =~= types.take(count));
        conflicts_remain(types, count + 1);
    } else {
        assert(types.take(count) =~= types);
    }
}

/// Decide how the errors that leave a function are one type, given their normal
/// types.
pub fn union_propagated_error_types(types: Vec<Type>) -> (whole: ErrorUnion)
    ensures
        is_error_union(types_view(types@), whole),
{
    let kept = keep_inhabited(types);
    let ghost all = types_view(kept@);
    assert(all.len() == kept.len());
    if kept.len() == 0 {
        return ErrorUnion::Known(empty_variant_type());
    }
    let mut same = true;
    let mut variants = true;
    let mut index: usize = 0;
    while index < kept.len()
        invariant
            index <= kept.len(),
            kept.len() > 0,
            all == types_view(kept@),
            same == forall|i: int| 0 <= i < index ==> #[trigger] all[i] == all[0],
            variants == forall|i: int| 0 <= i < index ==> #[trigger] all[i] is Variant,
        decreases kept.len() - index,
    {
        assert(all[index as int] == kept@[index as int]@);
        assert(all[0] == kept@[0]@);
        if kept[index] != kept[0] {
            same = false;
        }
        if !matches!(kept[index], Type::Variant(_)) {
            variants = false;
        }
        index += 1;
    }
    if same {
        assert(all[0] == kept@[0]@);
        return ErrorUnion::Known(kept[0].clone());
    }
    if !variants {
        return ErrorUnion::Widest(kept);
    }
    let mut union = ArmUnion::new();
    let mut goals: Vec<(Type, Type)> = Vec::new();
    let mut index: usize = 0;
    assert(pairs_view(goals@) =~= Seq::empty());
    assert(all.take(0) =~= Seq::empty());
    while index < kept.len()
        invariant
            index <= kept.len(),
            all == types_view(kept@),
            all.len() == kept.len(),
            all == inhabited(types_view(types@)),
            all.len() > 0,
            !(forall|i: int| 0 <= i < all.len() ==> #[trigger] all[i] == all[0]),
            forall|i: int| 0 <= i < all.len() ==> #[trigger] all[i] is Variant,
            variants_united(all.take(index as int)) == Some((union@, pairs_view(goals@))),
        decreases kept.len() - index,
    {
        proof {
            let longer = all.take(index + 1);
            assert(longer.drop_last() =~= all.take(index as int));
            assert(longer.last() == kept@[index as int]@);
            assert(all[index as int] is Variant);
        }
        match &kept[index] {
            Type::Variant(row) => match union_match_variant_arm_body_types(union, row) {
                Some((after, mut more)) => {
                    let ghost first = pairs_view(goals@);
                    let ghost second = pairs_view(more@);
                    goals.append(&mut more);
                    assert(pairs_view(goals@) =~= first + second);
                    union = after;
                },
                None => {
                    proof {
                        conflicts_remain(all, index + 1);
                    }
                    return ErrorUnion::Conflict;
                },
            },
            _ => {
                return ErrorUnion::Conflict;
            },
        }
        index += 1;
    }
    assert(all.take(all.len() as int) =~= all);
    ErrorUnion::Variants { ty: union.to_type(), goals }
}

/// The wider of two error types, if one fits the other. `fits` says that the next
/// type fits the one so far, `widens` the other way round.
pub fn wider_error_type(so_far: Type, next: Type, fits: bool, widens: bool) -> (ty: Option<Type>)
    ensures
        owned_type_view(ty) == (if fits {
            Some(so_far@)
        } else if widens {
            Some(next@)
        } else {
            None
        }),
{
    if fits {
        Some(so_far)
    } else if widens {
        Some(next)
    } else {
        None
    }
}

/// What comes of the body of a function that errors leave.
#[derive(Debug)]
pub enum PropagatedBody {
    /// The type of the body as it is.
    Unchanged,
    /// The body must be a result; the place where its value comes from is to
    /// blame.
    NeedsResult,
    /// A result whose error is the union of its own and those that leave.
    Result { ok_ty: Type, errors: Vec<Type> },
}

/// Decide what comes of the body of a function that errors leave, given the normal
/// type of the body.
pub fn apply_propagation_context_to_body_type(
    body: &Expr,
    body_type: &Type,
    sites: &Vec<PropagationSite>,
) -> (outcome: PropagatedBody)
    ensures
        if sites@.len() == 0 {
            outcome is Unchanged
        } else {
            match body_result(*body, body_type@) {
                None => if resolved(body_type@) {
                    outcome is NeedsResult
                } else {
                    outcome is Unchanged
                },
                Some(result) => match result_parts(result) {
                    Some((ok_ty, error_ty)) => outcome is Result && outcome->ok_ty@ == ok_ty
                        && types_view(outcome->errors@) == seq![error_ty] + Seq::new(
                        sites@.len(),
                        |i: int| sites@[i].error_ty@,
                    ),
                    None => outcome is Unchanged,
                },
            }
        },
{
    if sites.len() == 0 {
        return PropagatedBody::Unchanged;
    }
    let result = match propagation_body_result_type(body, body_type) {
        Some(result) => result,
        None => {
            return if is_resolved_value_type(body_type) {
                PropagatedBody::NeedsResult
            } else {
                PropagatedBody::Unchanged
            };
        },
    };
    match result_type_args(&result) {
        Some((ok_ty, error_ty)) => {
            let mut errors: Vec<Type> = Vec::new();
            errors.push(error_ty.clone());
            let ghost wanted = seq![error_ty@] + Seq::new(
                sites@.len(),
                |i: int| sites@[i].error_ty@,
            );
            let mut index: usize = 0;
            while index < sites.len()
                invariant
                    index <= sites.len(),
                    errors.len() == index + 1,
                    wanted == seq![error_ty@] + Seq::new(
                        sites@.len(),
                        |i: int| sites@[i].error_ty@,
                    ),
                    forall|i: int| 0 <= i <= index ==> (#[trigger] errors@[i])@ == wanted[i],
                decreases sites.len() - index,
            {
                errors.push(sites[index].error_ty.clone());
                index += 1;
            }
            assert(types_view(errors@) =~= wanted);
            PropagatedBody::Result { ok_ty: ok_ty.clone(), errors }
        },
        None => PropagatedBody::Unchanged,
    }
}

/// How a return type is held against an annotation.
#[derive(Debug)]
pub enum ReturnFit {
    /// The value types must unify, and the error must fit.
    Results { ok: (Type, Type), error: (Type, Type) },
    /// The type must fit as at any boundary.
    Boundary,
    /// The types must unify.
    Unify,
}

/// Decide how a return type is held against an annotation, both normal.
pub fn inferred_return_type_fits_annotation(expected: &Type, actual: &Type) -> (fit: ReturnFit)
    ensures
        match (result_parts(expected@), result_parts(actual@)) {
            (Some((expected_ok, expected_error)), Some((actual_ok, actual_error))) => {
                &&& fit is Results
                &&& (fit->ok.0@, fit->ok.1@) == (actual_ok, expected_ok)
                &&& (fit->error.0@, fit->error.1@) == (expected_error, actual_error)
            },
            (Some(_), None) => if actual@ is Variant {
                fit is Boundary
            } else {
                fit is Unify
            },
            _ => fit is Unify,
        },
{
    match (result_type_args(expected), result_type_args(actual)) {
        (Some((expected_ok, expected_error)), Some((actual_ok, actual_error))) => {
            let ok = (actual_ok.clone(), expected_ok.clone());
            let error = (expected_error.clone(), actual_error.clone());
            ReturnFit::Results { ok, error }
        },
        (Some(_), None) => if matches!(actual, Type::Variant(_)) {
            ReturnFit::Boundary
        } else {
            ReturnFit::Unify
        },
        _ => ReturnFit::Unify,
    }
}

// ---------------------------------------------------------------------------
// Laws
// ---------------------------------------------------------------------------
/// A function takes as many arguments as it needs, and as it has parameters.
pub proof fn functions_take_their_parameters(params: Seq<SpecType>, result: SpecType)
    ensures
        takes(plain_function(params, result), params.len()),
        forall|count: nat| #[trigger]
            takes(plain_function(params, result), count) ==> count == params.len(),
{
}

/// A handler that only gives values leaves a result that cannot fail.
pub proof fn recovered_results_cannot_fail(
    ok_ty: SpecType,
    error_ty: SpecType,
    payload: SpecType,
)
    ensures
        handled_result(
            applied2("Result"@, ok_ty, error_ty),
            tagged("Ok"@, seq![payload]),
        ) == (if some_node(payload, is_deferred()) {
            None
        } else {
            Some(applied2("Result"@, ok_ty, no_variant()))
        }),
{
    crate::rows::result_parts_of_result(ok_ty, error_ty);
    let payloads = seq![payload];
    assert(payloads[0] == payload);
    if some_node(payload, is_deferred()) {
        assert(some_node(payloads[0], is_deferred()));
    } else {
        assert forall|i: int| 0 <= i < payloads.len() implies !some_node(
            #[trigger] payloads[i],
            is_deferred(),
        ) by {}
    }
}

/// Recording a place twice records it once.
pub proof fn sites_are_recorded_once(
    sites: Seq<SpecSite>,
    span: Span,
    error_ty: SpecType,
    other: SpecType,
)
    ensures
        with_site(with_site(sites, span, error_ty), span, other) == with_site(
            sites,
            span,
            error_ty,
        ),
{
    let once = with_site(sites, span, error_ty);
    if !has_site(sites, span) {
        assert(once[once.len() - 1].span == span);
    }
}

} // verus!
