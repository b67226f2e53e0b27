//! Names, fields and elements: what it takes to know their types.
use crate::collections::StringMap;
use crate::comparison::base_view;
use crate::equality::first_field_type;
use crate::lookup::{
    exact_method_scheme, exact_method_signature, exact_scheme, instantiate_method, slot_type,
    unbound_method_owner_name, unbound_owner, used_signature, MethodEnvironment,
};
use crate::methods::{predicates_view, MethodPredicate, MethodSignature, SpecPredicate};
use crate::normalize::{normal_form, normalize};
use crate::rows::{
    field_type, function_type, is_map_receiver_type, name_is_placeholder, owned_type_view,
    peel_empty_values, peeled_payload, peeled_values, plain_function, rewrap_empty_values,
    rewrapped, row_field_type, EmptyValue,
};
use crate::syntax::{callee_name, ungroup_expr, ungrouped, Expr, ExprKind};
use crate::type_ops::{is_named, is_resolved_value_type, resolved, type_map_view};
use crate::types::{
    types_view, Literal, Row, RowEntry, RowTail, SpecRow, SpecRowEntry, SpecType, Type,
};
use vstd::prelude::*;

verus! {

// ---------------------------------------------------------------------------
// Names
// ---------------------------------------------------------------------------
/// What a name stands for where it is used.
#[derive(Debug, Clone, Copy, PartialEq, Eq, Structural)]
pub enum NameMeaning {
    /// A local name with a type.
    LocalType,
    /// A local name with a scheme, which the use makes anew.
    LocalScheme,
    /// A name whose type is not known.
    Unknown,
    /// A family, which is a type.
    Family,
    /// A name of the module, whose scheme the use makes anew.
    TopLevel,
    /// A name that the host gives, whose scheme the use makes anew.
    Global,
    /// The receiver of a method, where there is none.
    MissingReceiver,
    /// Nothing.
    Unbound,
}

/// What is known of the type of a local name.
#[derive(Debug, Clone, Copy, PartialEq, Eq, Structural)]
pub enum LocalFact {
    Type,
    Scheme,
    Unknown,
}

/// What is known of a name.
#[derive(Debug, Clone, Copy)]
pub struct NameFacts {
    pub local: Option<LocalFact>,
    pub family: bool,
    pub top_level: bool,
    /// Whether the name is published, and then whether its scheme is.
    pub published: Option<bool>,
    /// Whether the name stands for the receiver of a method.
    pub receiver: bool,
    /// Whether the name is that of a builtin value or of a known type.
    pub builtin: bool,
}

/// What a name stands for: the nearest meaning that there is.
pub open spec fn meaning_of(name: Seq<char>, facts: NameFacts) -> NameMeaning {
    match facts.local {
        Some(LocalFact::Type) => NameMeaning::LocalType,
        Some(LocalFact::Scheme) => NameMeaning::LocalScheme,
        Some(LocalFact::Unknown) => NameMeaning::Unknown,
        None => if facts.family {
            NameMeaning::Family
        } else if facts.top_level {
            NameMeaning::TopLevel
        } else if facts.published == Some(true) {
            NameMeaning::Global
        } else if facts.published == Some(false) {
            NameMeaning::Unknown
        } else if facts.receiver {
            NameMeaning::MissingReceiver
        } else if name == "_"@ || facts.builtin {
            NameMeaning::Unknown
        } else {
            NameMeaning::Unbound
        },
    }
}

/// Decide what a name stands for.
pub fn infer_name_reference(name: &str, facts: NameFacts) -> (meaning: NameMeaning)
    ensures
        meaning == meaning_of(name@, facts),
{
    if let Some(local) = facts.local {
        return match local {
            LocalFact::Type => NameMeaning::LocalType,
            LocalFact::Scheme => NameMeaning::LocalScheme,
            LocalFact::Unknown => NameMeaning::Unknown,
        };
    }
    if facts.family {
        return NameMeaning::Family;
    }
    if facts.top_level {
        return NameMeaning::TopLevel;
    }
    if let Some(with_scheme) = facts.published {
        return if with_scheme {
            NameMeaning::Global
        } else {
            NameMeaning::Unknown
        };
    }
    if facts.receiver {
        return NameMeaning::MissingReceiver;
    }
    if name_is_placeholder(name) || facts.builtin {
        return NameMeaning::Unknown;
    }
    NameMeaning::Unbound
}

// ---------------------------------------------------------------------------
// Fields of names
// ---------------------------------------------------------------------------
/// What the field of a name is, before the type of the name is looked at.
#[derive(Debug)]
pub enum NameMember {
    /// A method as a function that takes its receiver first.
    UnboundMethod { ty: Type, predicates: Vec<MethodPredicate> },
    /// A member of a type.
    Static,
    /// A method of a type constructor that takes parameters, which is not known.
    ParameterizedOwner,
    /// An export of a module.
    Imported,
    /// A field of a value.
    OfValue,
}

/// What is known of the field of a name.
#[derive(Debug, Clone, Copy)]
pub struct MemberFacts {
    pub is_static: bool,
    pub parameterized: bool,
    pub imported: bool,
}

/// The method that `Owner.member` names, if the receiver is a name.
pub open spec fn unbound_method(
    env: crate::lookup::SpecEnvironment,
    receiver: Expr,
    field: Seq<char>,
) -> Option<(Seq<char>, crate::lookup::SpecMethodScheme)> {
    match callee_name(receiver) {
        Some(name) => match unbound_owner(env.aliases, name) {
            Some(owner) => match exact_scheme(env, SpecType::Named(owner), field) {
                Some(scheme) => Some((owner, scheme)),
                None => None,
            },
            None => None,
        },
        None => None,
    }
}

/// What the field of a name is.
pub open spec fn is_name_member(
    env: crate::lookup::SpecEnvironment,
    receiver: Expr,
    field: Seq<char>,
    facts: MemberFacts,
    first: u32,
    member: NameMember,
) -> bool {
    match unbound_method(env, receiver, field) {
        Some((owner, scheme)) => {
            let signature = used_signature(scheme, first);
            &&& member is UnboundMethod
            &&& member->ty@ == plain_function(
                seq![SpecType::Named(owner)] + signature.params,
                signature.result,
            )
            &&& predicates_view(member->predicates@) == signature.predicates
        },
        None => if callee_name(receiver) is Some && facts.is_static {
            member is Static
        } else if callee_name(receiver) is Some && facts.parameterized {
            member is ParameterizedOwner
        } else if facts.imported {
            member is Imported
        } else {
            member is OfValue
        },
    }
}

/// Find what the field of a name is. `first` is the first metavariable that is not
/// in use.
pub fn find_name_member(
    env: &MethodEnvironment,
    receiver: &Expr,
    field: &str,
    facts: MemberFacts,
    first: u32,
) -> (member: NameMember)
    requires
        match unbound_method(env@, *receiver, field@) {
            Some((_, scheme)) => first + scheme.variables.len() <= u32::MAX,
            None => true,
        },
    ensures
        is_name_member(env@, *receiver, field@, facts, first, member),
{
    let name = crate::syntax::call_callee_name(receiver);
    if let Some(name) = name {
        if let Some(owner) = unbound_method_owner_name(&env.aliases, name) {
            let owner_type = Type::Named(owner);
            if let Some(scheme) = exact_method_scheme(env, &owner_type, field) {
                let signature = instantiate_method(scheme, first);
                let MethodSignature { params: rest, result, predicates } = signature;
                let mut params: Vec<Type> = Vec::new();
                params.push(owner_type);
                let mut rest = rest;
                let ghost given = types_view(rest@);
                params.append(&mut rest);
                assert(types_view(params@) =~= seq![owner_type@] + given);
                return NameMember::UnboundMethod {
                    ty: function_type(params, result),
                    predicates,
                };
            }
        }
        if facts.is_static {
            return NameMember::Static;
        }
        if facts.parameterized {
            return NameMember::ParameterizedOwner;
        }
    }
    if facts.imported {
        return NameMember::Imported;
    }
    NameMember::OfValue
}

// ---------------------------------------------------------------------------
// Fields of values
// ---------------------------------------------------------------------------
/// The type that a value counts as when its fields are read, without the empty
/// values that it may be. A value of a family counts as its data.
pub open spec fn receiver_core_of(
    receiver: SpecType,
    family_data: Map<Seq<char>, SpecType>,
) -> SpecType {
    let core = peeled_payload(receiver);
    match base_view(family_data, core) {
        Some(data) => data,
        None => core,
    }
}

/// The empty values that a receiver may be, and the type that it counts as
/// otherwise.
pub fn receiver_core(receiver: &Type, family_data: &StringMap<Type>) -> (core: (
    Vec<EmptyValue>,
    Type,
))
    ensures
        core.0@ == peeled_values(receiver@, Seq::empty()),
        core.1@ == receiver_core_of(receiver@, type_map_view(family_data@)),
{
    let (empties, payload) = peel_empty_values(receiver);
    if let Type::Named(name) = payload {
        if let Some(data) = family_data.get(name.as_str()) {
            return (empties, data.clone());
        }
    }
    (empties, payload.clone())
}

/// What it takes to know the type of a field of a value.
#[derive(Debug)]
pub enum FieldStep {
    /// The field is a method, without its receiver.
    Method { ty: Type, predicates: Vec<MethodPredicate> },
    /// The type is known. `unguarded` says that the receiver may be empty and the
    /// access does not say so.
    Known { ty: Type, unguarded: bool },
    /// The field has no type, and what was found out about the receiver is
    /// dropped.
    Drop,
    /// The receiver must be a record with the field; the type of the access is
    /// then known.
    Unify { core: Type, record: Type, ty: Type, unguarded: bool },
}

/// What it takes to know the type of a field of a value.
pub ghost enum SpecFieldStep {
    Method { ty: SpecType, predicates: Seq<SpecPredicate> },
    Known { ty: SpecType, unguarded: bool },
    Drop,
    Unify { core: SpecType, record: SpecType, ty: SpecType, unguarded: bool },
}

impl FieldStep {
    pub open spec fn view(&self) -> SpecFieldStep {
        match self {
            FieldStep::Method { ty, predicates } => SpecFieldStep::Method {
                ty: ty@,
                predicates: predicates_view(predicates@),
            },
            FieldStep::Known { ty, unguarded } => SpecFieldStep::Known {
                ty: ty@,
                unguarded: *unguarded,
            },
            FieldStep::Drop => SpecFieldStep::Drop,
            FieldStep::Unify { core, record, ty, unguarded } => SpecFieldStep::Unify {
                core: core@,
                record: record@,
                ty: ty@,
                unguarded: *unguarded,
            },
        }
    }
}

/// A record with a field of a type that may have others.
pub open spec fn record_with(field: Seq<char>, ty: SpecType, tail: u32) -> SpecType {
    SpecType::Record(
        SpecRow {
            entries: seq![SpecRowEntry::Field { name: field, ty }],
            tail: RowTail::Var(tail),
        },
    )
}

/// The field that the data of a family have.
pub open spec fn family_field(
    receiver: SpecType,
    field: Seq<char>,
    family_data: Map<Seq<char>, SpecType>,
) -> Option<SpecType> {
    match base_view(family_data, receiver) {
        Some(SpecType::Record(row)) => slot_type(row.entries, field, 0),
        _ => None,
    }
}

/// What it takes to know the type of a field of a value. `whole` and `inner` are
/// the types of the methods that a collection has under the name, as a whole and
/// without the empty values.
pub open spec fn field_step(
    env: crate::lookup::SpecEnvironment,
    family_data: Map<Seq<char>, SpecType>,
    receiver: SpecType,
    field: Seq<char>,
    null_safe: bool,
    whole: Option<SpecType>,
    inner: Option<SpecType>,
    first: u32,
    fresh_field: u32,
    fresh_tail: u32,
) -> SpecFieldStep {
    let empties = peeled_values(receiver, Seq::empty());
    let core = receiver_core_of(receiver, family_data);
    let unguarded = empties.len() > 0 && !null_safe;
    match exact_scheme(env, receiver, field) {
        Some(scheme) => {
            let signature = used_signature(scheme, first);
            SpecFieldStep::Method {
                ty: plain_function(signature.params, signature.result),
                predicates: signature.predicates,
            }
        },
        None => match family_field(receiver, field, family_data) {
            Some(ty) => SpecFieldStep::Known { ty, unguarded: false },
            None => match whole {
                Some(ty) => SpecFieldStep::Known { ty, unguarded: false },
                None => match inner {
                    Some(ty) => SpecFieldStep::Known { ty: rewrapped(ty, empties), unguarded },
                    None => if is_map(core) {
                        SpecFieldStep::Drop
                    } else {
                        SpecFieldStep::Unify {
                            core,
                            record: record_with(field, SpecType::Meta(fresh_field), fresh_tail),
                            ty: rewrapped(SpecType::Meta(fresh_field), empties),
                            unguarded,
                        }
                    },
                },
            },
        },
    }
}

/// Whether a type is a map with a key and a value type.
pub open spec fn is_map(ty: SpecType) -> bool {
    match ty {
        SpecType::Apply { callee, args } => args.len() == 2 && *callee == SpecType::Named("Map"@),
        _ => false,
    }
}

/// Decide what it takes to know the type of a field of a value.
pub fn infer_field_access(
    env: &MethodEnvironment,
    family_data: &StringMap<Type>,
    receiver: &Type,
    field: &str,
    null_safe: bool,
    whole: Option<Type>,
    inner: Option<Type>,
    first: u32,
    fresh_field: u32,
    fresh_tail: u32,
) -> (step: FieldStep)
    requires
        match exact_scheme(env@, receiver@, field@) {
            Some(scheme) => first + scheme.variables.len() <= u32::MAX,
            None => true,
        },
    ensures
        step@ == field_step(
            env@,
            type_map_view(family_data@),
            receiver@,
            field@,
            null_safe,
            owned_type_view(whole),
            owned_type_view(inner),
            first,
            fresh_field,
            fresh_tail,
        ),
{
    if let Some(signature) = exact_method_signature(env, receiver, field, first) {
        let MethodSignature { params, result, predicates } = signature;
        return FieldStep::Method { ty: function_type(params, result), predicates };
    }
    if let Type::Named(name) = receiver {
        if let Some(data) = family_data.get(name.as_str()) {
            if let Type::Record(row) = data {
                if let Some(ty) = first_field_type(row, field) {
                    return FieldStep::Known { ty: ty.clone(), unguarded: false };
                }
            }
        }
    }
    if let Some(ty) = whole {
        return FieldStep::Known { ty, unguarded: false };
    }
    let (empties, core) = receiver_core(receiver, family_data);
    let unguarded = empties.len() > 0 && !null_safe;
    if let Some(ty) = inner {
        return FieldStep::Known { ty: rewrap_empty_values(ty, &empties), unguarded };
    }
    if is_map_receiver_type(&core) {
        return FieldStep::Drop;
    }
    let mut entries: Vec<RowEntry> = Vec::new();
    entries.push(RowEntry::Field { name: field.to_owned(), ty: Type::Meta(fresh_field) });
    let row = Row { entries, tail: RowTail::Var(fresh_tail) };
    assert(row@.entries =~= seq![
        SpecRowEntry::Field { name: field@, ty: SpecType::Meta(fresh_field) },
    ]);
    assert(row@.tail == RowTail::Var(fresh_tail));
    let record = Type::Record(row);
    let ty = rewrap_empty_values(Type::Meta(fresh_field), &empties);
    FieldStep::Unify { core, record, ty, unguarded }
}

/// An access through a value that may be empty gives a value that may be empty in
/// the same ways, however the field is found.
pub proof fn empties_are_passed_on(
    family_data: Map<Seq<char>, SpecType>,
    env: crate::lookup::SpecEnvironment,
    receiver: SpecType,
    field: Seq<char>,
    null_safe: bool,
    inner: Option<SpecType>,
    first: u32,
    fresh_field: u32,
    fresh_tail: u32,
)
    requires
        exact_scheme(env, receiver, field) is None,
        family_field(receiver, field, family_data) is None,
        !is_map(receiver_core_of(receiver, family_data)),
    ensures
        ({
            let step = field_step(
                env,
                family_data,
                receiver,
                field,
                null_safe,
                None,
                inner,
                first,
                fresh_field,
                fresh_tail,
            );
            let payload = match inner {
                Some(ty) => ty,
                None => SpecType::Meta(fresh_field),
            };
            let wrapped = rewrapped(payload, peeled_values(receiver, Seq::empty()));
            match step {
                SpecFieldStep::Known { ty, .. } => ty == wrapped,
                SpecFieldStep::Unify { ty, .. } => ty == wrapped,
                _ => false,
            }
        }),
{
}

// ---------------------------------------------------------------------------
// Elements
// ---------------------------------------------------------------------------
/// The number that a tuple is indexed by: a literal without a sign that fits in a
/// machine word.
pub open spec fn tuple_index(expr: Expr) -> Option<nat> {
    match ungrouped(expr).kind {
        ExprKind::Literal(Literal::Number(number)) => match unsigned_value(number@) {
            Some(value) => if value <= usize::MAX {
                Some(value)
            } else {
                None
            },
            None => None,
        },
        _ => None,
    }
}

/// The value of an unsigned numeral: digits, with a plus sign before them or not.
pub open spec fn unsigned_value(text: Seq<char>) -> Option<nat> {
    let digits = if text.len() > 0 && text[0] == '+' {
        text.skip(1)
    } else {
        text
    };
    if digits.len() > 0 && crate::text::all_digits(digits) {
        Some(crate::text::digits_value(digits))
    } else {
        None
    }
}

proof fn digits_grow(digits: Seq<char>, count: int)
    requires
        0 <= count <= digits.len(),
    ensures
        crate::text::digits_value(digits.take(count)) <= crate::text::digits_value(digits),
    decreases digits.len() - count,
{
    if count < digits.len() {
        digits_grow(digits, count + 1);
        let longer = digits.take(count + 1);
        assert(longer.drop_last() =~= digits.take(count));
    } else {
        assert(digits.take(count) =~= digits);
    }
}

/// Read an unsigned numeral.
pub fn parse_usize(text: &str) -> (value: Option<usize>)
    ensures
        match value {
            Some(value) => unsigned_value(text@) == Some(value as nat),
            None => unsigned_value(text@) is None || unsigned_value(text@)->0 > usize::MAX,
        },
{
    let length: usize = text.unicode_len();
    let start: usize = if length > 0 && text.get_char(0) == '+' {
        1
    } else {
        0
    };
    let ghost digits = text@.skip(start as int);
    assert(start == 0 ==> digits =~= text@);
    if start >= length {
        return None;
    }
    let mut value: usize = 0;
    let mut index: usize = start;
    assert(digits.take(0) =~= Seq::empty());
    while index < length
        invariant
            start <= index <= length,
            length == text@.len(),
            start <= 1,
            start == 1 ==> text@.len() > 0 && text@[0] == '+',
            start == 0 ==> !(text@.len() > 0 && text@[0] == '+'),
            digits == text@.skip(start as int),
            digits == (if text@.len() > 0 && text@[0] == '+' {
                text@.skip(1)
            } else {
                text@
            }),
            forall|i: int| 0 <= i < index - start ==> crate::text::is_digit(#[trigger] digits[i]),
            value == crate::text::digits_value(digits.take(index - start)),
        decreases length - index,
    {
        let c: char = text.get_char(index);
        assert(c == digits[index - start]);
        if !(c >= '0' && c <= '9') {
            assert(!crate::text::is_digit(digits[index - start]));
            return None;
        }
        let digit: usize = (c as u32 - 48) as usize;
        proof {
            let longer = digits.take(index - start + 1);
            assert(longer.drop_last() =~= digits.take(index - start));
            assert(longer.last() == c);
            digits_grow(digits, index - start + 1);
        }
        let scaled: usize = match value.checked_mul(10) {
            Some(scaled) => scaled,
            None => {
                return None;
            },
        };
        value = match scaled.checked_add(digit) {
            Some(sum) => sum,
            None => {
                return None;
            },
        };
        index += 1;
    }
    assert(digits.take(length - start) =~= digits);
    Some(value)
}

/// The number that a tuple is indexed by.
pub fn comptime_known_tuple_index(expr: &Expr) -> (index: Option<usize>)
    ensures
        match index {
            Some(index) => tuple_index(*expr) == Some(index as nat),
            None => tuple_index(*expr) is None,
        },
{
    match &ungroup_expr(expr).kind {
        ExprKind::Literal(Literal::Number(number)) => parse_usize(number.as_str()),
        _ => None,
    }
}

/// What comes of indexing a tuple.
#[derive(Debug)]
pub enum TupleElement {
    Found(Type),
    /// The index is not known.
    NotKnown,
    OutOfRange { index: usize, length: usize },
}

/// Find the type of an element of a tuple.
pub fn infer_tuple_index(elements: &Vec<Type>, arg: &Expr) -> (element: TupleElement)
    ensures
        match tuple_index(*arg) {
            None => element is NotKnown,
            Some(index) => if index < elements@.len() {
                element is Found && element->Found_0@ == elements@[index as int]@
            } else {
                element is OutOfRange && element->index == index && element->length
                    == elements@.len()
            },
        },
{
    match comptime_known_tuple_index(arg) {
        None => TupleElement::NotKnown,
        Some(index) => if index < elements.len() {
            TupleElement::Found(elements[index].clone())
        } else {
            TupleElement::OutOfRange { index, length: elements.len() }
        },
    }
}

/// What comes of indexing a record.
#[derive(Debug)]
pub enum RecordElement {
    Found(Type),
    /// The label depends on a parameter that is not known yet.
    Pending,
    NotKnown,
    Missing,
    /// The record may have the field.
    Unknown,
}

/// Find the type of a field of a record by its label, if that is known.
pub fn infer_record_index(row: &Row, label: Option<&str>, depends_on_parameter: bool) -> (element:
    RecordElement)
    ensures
        match label {
            None => if depends_on_parameter {
                element is Pending
            } else {
                element is NotKnown
            },
            Some(label) => match field_type(row@, label@) {
                Some(ty) => element is Found && element->Found_0@ == ty,
                None => if row@.tail is Closed {
                    element is Missing
                } else {
                    element is Unknown
                },
            },
        },
{
    assert(row@.tail == row.tail);
    match label {
        None => if depends_on_parameter {
            RecordElement::Pending
        } else {
            RecordElement::NotKnown
        },
        Some(label) => match row_field_type(row, label) {
            Some(ty) => RecordElement::Found(ty.clone()),
            None => if matches!(row.tail, RowTail::Closed) {
                RecordElement::Missing
            } else {
                RecordElement::Unknown
            },
        },
    }
}

/// What it takes to know the type of an element.
#[derive(Debug)]
pub enum IndexStep {
    Record(Row),
    Tuple(Vec<Type>),
    /// The index must have a type; the element may be missing.
    Element { index: Type, ty: Type },
    NotIndexable,
    Unknown,
}

/// What it takes to know the type of an element of a value of a normal type.
pub open spec fn is_index_step(receiver: SpecType, step: IndexStep) -> bool {
    match receiver {
        SpecType::Record(row) => step is Record && step->Record_0@ == row,
        SpecType::Tuple(items) => step is Tuple && types_view(step->Tuple_0@) == items,
        SpecType::Apply { callee, args } => if args.len() == 1 && *callee == SpecType::Named(
            "Array"@,
        ) {
            step is Element && step->index@ == SpecType::Named("Int"@) && step->ty@
                == SpecType::Optional(Box::new(args[0]))
        } else if args.len() == 2 && *callee == SpecType::Named("Map"@) {
            step is Element && step->index@ == args[0] && step->ty@ == SpecType::Optional(
                Box::new(args[1]),
            )
        } else if resolved(receiver) {
            step is NotIndexable
        } else {
            step is Unknown
        },
        _ => if resolved(receiver) {
            step is NotIndexable
        } else {
            step is Unknown
        },
    }
}

/// Decide what it takes to know the type of an element. An element of an array or
/// a map may be missing.
pub fn infer_value_index(receiver: Type) -> (step: IndexStep)
    ensures
        is_index_step(receiver@, step),
{
    let is_resolved = is_resolved_value_type(&receiver);
    match receiver {
        Type::Record(row) => IndexStep::Record(row),
        Type::Tuple(items) => IndexStep::Tuple(items),
        Type::Apply { callee, args } => {
            assert(types_view(args@).len() == args.len());
            if args.len() == 1 && is_named(&callee, "Array") {
                assert(types_view(args@)[0] == args@[0]@);
                let index = Type::Named("Int".to_owned());
                return IndexStep::Element {
                    index,
                    ty: Type::Optional(Box::new(args[0].clone())),
                };
            }
            if args.len() == 2 && is_named(&callee, "Map") {
                assert(types_view(args@)[0] == args@[0]@);
                assert(types_view(args@)[1] == args@[1]@);
                return IndexStep::Element {
                    index: args[0].clone(),
                    ty: Type::Optional(Box::new(args[1].clone())),
                };
            }
            if is_resolved {
                IndexStep::NotIndexable
            } else {
                IndexStep::Unknown
            }
        },
        _ => if is_resolved {
            IndexStep::NotIndexable
        } else {
            IndexStep::Unknown
        },
    }
}

/// The type of the elements of a set.
pub open spec fn set_element(ty: SpecType) -> Option<SpecType> {
    match ty {
        SpecType::Apply { callee, args } => if args.len() == 1 && *callee == SpecType::Named(
            "Set"@,
        ) {
            Some(args[0])
        } else {
            None
        },
        _ => None,
    }
}

/// The type of the elements of a set, given its resolved type.
pub fn set_operand_element_type(ty: &Type, definitions: &StringMap<Type>) -> (element: Option<Type>)
    ensures
        owned_type_view(element) == set_element(normal_form(ty@, type_map_view(definitions@))),
{
    match normalize(ty, definitions) {
        Type::Apply { callee, args } => {
            assert(types_view(args@).len() == args.len());
            if args.len() == 1 && is_named(&callee, "Set") {
                assert(types_view(args@)[0] == args@[0]@);
                Some(args[0].clone())
            } else {
                None
            }
        },
        _ => None,
    }
}

/// Whether a value carries a member itself: a method of its collection, or a field
/// of its record.
pub open spec fn carries_member(ty: SpecType, member: Seq<char>, whole: bool, inner: bool) -> bool {
    whole || inner || match peeled_payload(ty) {
        SpecType::Record(row) => slot_type(row.entries, member, 0) is Some,
        _ => false,
    }
}

/// Whether a value carries a member itself. `whole` and `inner` say that a
/// collection has a method of the name, as a whole and without the empty values.
pub fn receiver_type_carries_member(ty: &Type, member: &str, whole: bool, inner: bool) -> (carries:
    bool)
    ensures
        carries == carries_member(ty@, member@, whole, inner),
{
    if whole || inner {
        return true;
    }
    let (_, core) = peel_empty_values(ty);
    match core {
        Type::Record(row) => first_field_type(row, member).is_some(),
        _ => false,
    }
}

} // verus!
