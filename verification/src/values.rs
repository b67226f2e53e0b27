//! Values that are held against types.
use crate::collections::StringMap;
use crate::comparison::{
    literal_type_name, primitive_literal_base_name, primitive_literal_matches_base,
};
use crate::equality::first_field_type;
use crate::lookup::{exact_method_scheme, exact_scheme, MethodEnvironment};
use crate::reports::{list_names, listed};
use crate::rows::{
    all_tags, last_payload, lists_literal, result_constructor_type, result_parts, result_type_args,
    row_has_literal_entries, type_view, unknown_shape, variant_payload_lookup,
};
use crate::syntax::{
    peels_optional_or_nullable_expected, result_constructor_tag, result_tag, ungroup_expr,
    ungrouped, Expr, ExprKind, Item, MatchArm, RecordEntry,
};
use crate::text::{same_text, texts_view};
use crate::type_ops::{is_named, type_map_view};
use crate::types::{
    clone_types, types_view, Literal, RecursiveTypeId, Row, RowEntry, RowTail, SpecLiteral, SpecRow,
    SpecRowEntry, SpecType, Type,
};
use vstd::prelude::*;

verus! {

// ---------------------------------------------------------------------------
// Literals of families
// ---------------------------------------------------------------------------
/// What a literal is where a family with a builtin base is expected.
#[derive(Debug, Clone, Copy, PartialEq, Eq, Structural)]
pub enum Branding {
    /// The value is no literal.
    NoLiteral,
    /// The literal becomes a value of the family.
    Brand,
    /// The literal is of another builtin type.
    Mismatch,
    /// The literal has no builtin type: it is held against the base.
    CheckBase,
}

/// What a literal is where a family with a base is expected.
pub open spec fn branding_of(literal: SpecLiteral, base: SpecType) -> Branding {
    match literal_type_name(literal) {
        Some(name) => if base == SpecType::Named(name) {
            Branding::Brand
        } else {
            Branding::Mismatch
        },
        None => Branding::CheckBase,
    }
}

fn brand(literal: &Literal, base: &Type) -> (branding: Branding)
    ensures
        branding == branding_of(literal@, base@),
{
    if primitive_literal_matches_base(literal, base) {
        Branding::Brand
    } else if primitive_literal_base_name(literal).is_some() {
        Branding::Mismatch
    } else {
        Branding::CheckBase
    }
}

/// What a value is where a family with a base is expected. A literal counts, and a
/// name whose type is that of one literal.
pub open spec fn value_branding(value: Expr, base: SpecType, actual: SpecType) -> Branding {
    match ungrouped(value).kind {
        ExprKind::Literal(literal) => branding_of(literal@, base),
        ExprKind::Name(_) => match listed_alone(actual) {
            Some(literal) => branding_of(literal, base),
            None => Branding::NoLiteral,
        },
        ExprKind::ComptimeName(_) => match listed_alone(actual) {
            Some(literal) => branding_of(literal, base),
            None => Branding::NoLiteral,
        },
        _ => Branding::NoLiteral,
    }
}

/// The only entry of a variant, if it is a literal.
pub open spec fn listed_alone(ty: SpecType) -> Option<SpecLiteral> {
    match ty {
        SpecType::Variant(row) => if row.entries.len() == 1 {
            match row.entries[0] {
                SpecRowEntry::Literal { value } => Some(value),
                _ => None,
            }
        } else {
            None
        },
        _ => None,
    }
}

/// Decide what a value is where a family with a base is expected. `actual` is the
/// normal type of the value.
pub fn check_primitive_family_literal_branding(value: &Expr, base: &Type, actual: &Type) -> (branding:
    Branding)
    ensures
        branding == value_branding(*value, base@, actual@),
{
    let is_name = match &ungroup_expr(value).kind {
        ExprKind::Literal(literal) => {
            return brand(literal, base);
        },
        ExprKind::Name(_) => true,
        ExprKind::ComptimeName(_) => true,
        _ => false,
    };
    if !is_name {
        return Branding::NoLiteral;
    }
    if let Type::Variant(row) = actual {
        assert(row@.entries.len() == row.entries.len());
        if row.entries.len() == 1 {
            assert(row@.entries[0] == row.entries@[0]@);
            if let RowEntry::Literal { value: literal } = &row.entries[0] {
                return brand(literal, base);
            }
        }
    }
    Branding::NoLiteral
}

// ---------------------------------------------------------------------------
// Values and types
// ---------------------------------------------------------------------------
/// What follows where a value is held against a type.
#[derive(Debug)]
#[allow(inconsistent_fields)]
pub enum ValueStep<'t, 'a> {
    /// The value fits.
    Accept,
    /// The literal becomes a value of the family.
    Brand,
    /// The literal is of another type than the base of the family.
    BrandMismatch,
    /// The value is held against the base of the family.
    CheckBase,
    /// The inner value is held against the type.
    Inner(&'a Expr),
    /// The last statement of a block is held against the type.
    Block(&'a Vec<Item>),
    /// Each arm of a match is held against the type.
    Match { subject: &'a Expr, arms: &'a Vec<MatchArm> },
    /// The methods that the type asks for are looked for.
    Slots,
    /// The type of a name is compared.
    Name(&'a str),
    /// The value is held against what a recursive type unfolds to.
    Unfold(RecursiveTypeId),
    /// A function is held against a function type.
    Lambda,
    /// The value is held against the payload of the type.
    Peel(&'t Type),
    /// A literal is held against the name of a type.
    LiteralAgainstName,
    LiteralAgainstVariant,
    TupleArity { expected: usize, found: usize },
    /// The elements are held against the types of a tuple.
    Tuple { elements: &'a Vec<Expr>, types: &'t Vec<Type> },
    Record { row: &'t Row, entries: &'a Vec<RecordEntry> },
    /// A tag with arguments is held against a variant.
    Tag { row: &'t Row, tag: &'a str, args: Option<&'a Vec<Expr>> },
    /// A constructor of a result is held against a result.
    ResultTag { tag: &'a str, args: &'a Vec<Expr> },
    /// The call may select fields; otherwise its type is compared.
    Call,
    /// The entries are held against the element type of a collection.
    Collection { element: &'t Type, entries: &'a Vec<RecordEntry> },
    /// The type of the value is compared.
    Infer,
}

/// The element type of a collection.
pub open spec fn element_of(ty: SpecType, constructor: Seq<char>) -> Option<SpecType> {
    match ty {
        SpecType::Apply { callee, args } => if args.len() == 1 && *callee == SpecType::Named(
            constructor,
        ) {
            Some(args[0])
        } else {
            None
        },
        _ => None,
    }
}

/// Whether a value is written in a form that is held against the payload of a type
/// that admits empty values.
pub open spec fn is_written_out(value: Expr) -> bool {
    value.kind is Literal || value.kind is Tuple || value.kind is Record || value.kind is Tag
        || value.kind is Array || value.kind is SetLiteral
}

/// What follows where a value is held against a type that is not recursive and
/// asks for no methods.
pub open spec fn is_plain_value_step(expected: SpecType, value: Expr, step: ValueStep<'_, '_>) -> bool {
    match value.kind {
        ExprKind::Group(inner) => step is Inner && *step->Inner_0 == *inner,
        ExprKind::Block(items) => step is Block && *step->Block_0 == items,
        ExprKind::Lambda { .. } => if expected is Function {
            step is Lambda
        } else {
            step is Infer
        },
        ExprKind::Name(name) => step is Name && step->Name_0@ == name@,
        ExprKind::ComptimeName(name) => step is Name && step->Name_0@ == name@,
        _ => if expected is Optional && value.kind is Undefined {
            step is Accept
        } else if expected is Nullable && value.kind is Null {
            step is Accept
        } else if expected is Optional && is_written_out(value) {
            step is Peel && step->Peel_0@ == *expected->Optional_0
        } else if expected is Nullable && is_written_out(value) {
            step is Peel && step->Peel_0@ == *expected->Nullable_0
        } else {
            is_shape_step(expected, value, step)
        },
    }
}

/// What follows from the shapes of a value and of a type.
pub open spec fn is_shape_step(expected: SpecType, value: Expr, step: ValueStep<'_, '_>) -> bool {
    match (value.kind, expected) {
        (ExprKind::Literal(_), SpecType::Named(_)) => step is LiteralAgainstName,
        (ExprKind::Literal(_), SpecType::Variant(_)) => step is LiteralAgainstVariant,
        (ExprKind::Tuple(elements), SpecType::Tuple(types)) => if elements@.len() != types.len() {
            step is TupleArity && step->TupleArity_expected == types.len()
                && step->TupleArity_found == elements@.len()
        } else {
            step is Tuple && *step->elements == elements && types_view(step->types@) == types
        },
        (ExprKind::Record(entries), SpecType::Record(row)) => step is Record
            && step->Record_row@ == row && *step->Record_entries == entries,
        (ExprKind::Tag(tag), SpecType::Variant(row)) => step is Tag && step->Tag_row@ == row
            && step->Tag_tag@ == tag@ && step->Tag_args is None,
        (ExprKind::Call { callee, args }, _) => if result_parts(expected) is Some {
            match result_tag(*callee) {
                Some(tag) => step is ResultTag && step->ResultTag_tag@ == tag
                    && *step->ResultTag_args == args,
                None => step is Infer,
            }
        } else {
            match (callee.kind, expected) {
                (ExprKind::Tag(tag), SpecType::Variant(row)) => step is Tag && step->Tag_row@
                    == row && step->Tag_tag@ == tag@ && step->Tag_args == Some(&args),
                _ => step is Call,
            }
        },
        (ExprKind::Match { subject, arms }, _) => step is Match && *step->subject == *subject
            && *step->arms == arms,
        (ExprKind::Array(entries), _) => match element_of(expected, "Array"@) {
            Some(element) => step is Collection && step->element@ == element
                && *step->Collection_entries == entries,
            None => step is Infer,
        },
        (ExprKind::SetLiteral(entries), _) => match element_of(expected, "Set"@) {
            Some(element) => step is Collection && step->element@ == element
                && *step->Collection_entries == entries,
            None => step is Infer,
        },
        _ => step is Infer,
    }
}

/// What follows where a value is held against a type that may be a family, after it was
/// looked whether it is a literal of the family.
pub open spec fn is_branded_step(
    expected: SpecType,
    value: Expr,
    branding: Branding,
    step: ValueStep<'_, '_>,
) -> bool {
    match branding {
        Branding::Brand => step is Brand,
        Branding::Mismatch => step is BrandMismatch,
        Branding::CheckBase => step is CheckBase,
        Branding::NoLiteral => is_plain_value_step(expected, value, step),
    }
}

/// What follows where a value is held against a type. `active` says that a
/// recursive type is being looked at already, `unfolds` that it is known what it
/// unfolds to, and `branding` what the value is for the family that the type names.
pub open spec fn is_value_step(
    expected: SpecType,
    value: Expr,
    active: bool,
    unfolds: bool,
    branding: Branding,
    step: ValueStep<'_, '_>,
) -> bool {
    if expected is SlotRecord {
        match value.kind {
            ExprKind::Group(inner) => step is Inner && *step->Inner_0 == *inner,
            ExprKind::Block(items) => step is Block && *step->Block_0 == items,
            ExprKind::Match { subject, arms } => step is Match && *step->subject == *subject
                && *step->arms == arms,
            _ => step is Slots,
        }
    } else if expected is Recursive && !(value.kind is Name || value.kind is ComptimeName) {
        if active {
            step is Accept
        } else if unfolds {
            step == ValueStep::Unfold(expected->Recursive_0)
        } else {
            is_branded_step(expected, value, branding, step)
        }
    } else {
        is_branded_step(expected, value, branding, step)
    }
}

fn collection_element<'a>(ty: &'a Type, constructor: &str) -> (element: Option<&'a Type>)
    ensures
        type_view(element) == element_of(ty@, constructor@),
{
    match ty {
        Type::Apply { callee, args } => {
            assert(types_view(args@).len() == args.len());
            if args.len() == 1 && is_named(callee, constructor) {
                assert(types_view(args@)[0] == args@[0]@);
                Some(&args[0])
            } else {
                None
            }
        },
        _ => None,
    }
}

fn shape_step<'t, 'a>(expected: &'t Type, value: &'a Expr) -> (step: ValueStep<'t, 'a>)
    ensures
        is_shape_step(expected@, *value, step),
{
    match (&value.kind, expected) {
        (ExprKind::Literal(_), Type::Named(_)) => ValueStep::LiteralAgainstName,
        (ExprKind::Literal(_), Type::Variant(_)) => ValueStep::LiteralAgainstVariant,
        (ExprKind::Tuple(elements), Type::Tuple(types)) => {
            assert(types_view(types@).len() == types.len());
            if elements.len() != types.len() {
                ValueStep::TupleArity { expected: types.len(), found: elements.len() }
            } else {
                ValueStep::Tuple { elements, types }
            }
        },
        (ExprKind::Record(entries), Type::Record(row)) => ValueStep::Record { row, entries },
        (ExprKind::Tag(tag), Type::Variant(row)) => ValueStep::Tag {
            row,
            tag: tag.as_str(),
            args: None,
        },
        (ExprKind::Call { callee, args }, _) => {
            if result_type_args(expected).is_some() {
                return match result_constructor_tag(callee) {
                    Some(tag) => ValueStep::ResultTag { tag, args },
                    None => ValueStep::Infer,
                };
            }
            match (&callee.kind, expected) {
                (ExprKind::Tag(tag), Type::Variant(row)) => ValueStep::Tag {
                    row,
                    tag: tag.as_str(),
                    args: Some(args),
                },
                _ => ValueStep::Call,
            }
        },
        (ExprKind::Match { subject, arms }, _) => ValueStep::Match { subject, arms },
        (ExprKind::Array(entries), _) => match collection_element(expected, "Array") {
            Some(element) => ValueStep::Collection { element, entries },
            None => ValueStep::Infer,
        },
        (ExprKind::SetLiteral(entries), _) => match collection_element(expected, "Set") {
            Some(element) => ValueStep::Collection { element, entries },
            None => ValueStep::Infer,
        },
        _ => ValueStep::Infer,
    }
}

fn plain_value_step<'t, 'a>(expected: &'t Type, value: &'a Expr) -> (step: ValueStep<'t, 'a>)
    ensures
        is_plain_value_step(expected@, *value, step),
{
    match &value.kind {
        ExprKind::Group(inner) => {
            return ValueStep::Inner(inner);
        },
        ExprKind::Block(items) => {
            return ValueStep::Block(items);
        },
        ExprKind::Lambda { .. } => {
            return if matches!(expected, Type::Function { .. }) {
                ValueStep::Lambda
            } else {
                ValueStep::Infer
            };
        },
        ExprKind::Name(name) => {
            return ValueStep::Name(name.as_str());
        },
        ExprKind::ComptimeName(name) => {
            return ValueStep::Name(name.as_str());
        },
        _ => {},
    }
    match expected {
        Type::Optional(inner) => {
            if matches!(value.kind, ExprKind::Undefined) {
                return ValueStep::Accept;
            }
            if peels_optional_or_nullable_expected(value) {
                return ValueStep::Peel(inner);
            }
        },
        Type::Nullable(inner) => {
            if matches!(value.kind, ExprKind::Null) {
                return ValueStep::Accept;
            }
            if peels_optional_or_nullable_expected(value) {
                return ValueStep::Peel(inner);
            }
        },
        _ => {},
    }
    shape_step(expected, value)
}

/// Decide what follows where a value is held against a type.
pub fn check_value_against<'t, 'a>(
    expected: &'t Type,
    value: &'a Expr,
    active: bool,
    unfolds: bool,
    branding: Branding,
) -> (step: ValueStep<'t, 'a>)
    ensures
        is_value_step(expected@, *value, active, unfolds, branding, step),
{
    if matches!(expected, Type::SlotRecord { .. }) {
        return match &value.kind {
            ExprKind::Group(inner) => ValueStep::Inner(inner),
            ExprKind::Block(items) => ValueStep::Block(items),
            ExprKind::Match { subject, arms } => ValueStep::Match { subject, arms },
            _ => ValueStep::Slots,
        };
    }
    if let Type::Recursive(id) = expected {
        let is_name = matches!(value.kind, ExprKind::Name(_)) || matches!(
            value.kind,
            ExprKind::ComptimeName(_)
        );
        if !is_name {
            if active {
                return ValueStep::Accept;
            }
            if unfolds {
                return ValueStep::Unfold(*id);
            }
        }
    }
    match branding {
        Branding::Brand => ValueStep::Brand,
        Branding::Mismatch => ValueStep::BrandMismatch,
        Branding::CheckBase => ValueStep::CheckBase,
        Branding::NoLiteral => plain_value_step(expected, value),
    }
}

// ---------------------------------------------------------------------------
// Tags and results
// ---------------------------------------------------------------------------
/// What follows where a tag with arguments is held against a variant.
#[derive(Debug)]
pub enum TagStep<'a> {
    /// The variant lists literals.
    KindMismatch,
    /// The variant has no such tag.
    UnknownTag,
    PayloadArity { expected: usize, found: usize },
    /// The arguments are held against the payload.
    Payload(&'a Vec<Type>),
    /// Nothing is known of the tag.
    Unknown,
}

/// What follows where a tag with arguments is held against a variant.
pub open spec fn is_tag_step(
    row: SpecRow,
    tag: Seq<char>,
    arg_count: nat,
    step: TagStep<'_>,
) -> bool {
    if !all_tags(row) {
        if lists_literal(row) {
            step is KindMismatch
        } else {
            step is Unknown
        }
    } else {
        match last_payload(row.entries, tag) {
            None => if row.tail is Closed {
                step is UnknownTag
            } else {
                step is Unknown
            },
            Some(payload) => if payload.len() != arg_count {
                step is PayloadArity && step->expected == payload.len() && step->found == arg_count
            } else {
                step is Payload && types_view(step->Payload_0@) == payload
            },
        }
    }
}

/// Decide what follows where a tag with arguments is held against a variant.
pub fn check_variant_value_against<'a>(row: &'a Row, tag: &str, arg_count: usize) -> (step: TagStep<
    'a,
>)
    ensures
        is_tag_step(row@, tag@, arg_count as nat, step),
{
    assert(row@.tail == row.tail);
    match variant_payload_lookup(row, tag) {
        None => if row_has_literal_entries(row) {
            TagStep::KindMismatch
        } else {
            TagStep::Unknown
        },
        Some(None) => if matches!(row.tail, RowTail::Closed) {
            TagStep::UnknownTag
        } else {
            TagStep::Unknown
        },
        Some(Some(payload)) => {
            assert(types_view(payload@).len() == payload.len());
            if payload.len() != arg_count {
                TagStep::PayloadArity { expected: payload.len(), found: arg_count }
            } else {
                TagStep::Payload(payload)
            }
        },
    }
}

/// What follows where a constructor of a result is held against a result type.
#[derive(Debug)]
pub enum ResultStep {
    /// The argument is held against a type.
    Payload(Type),
    /// The constructor does not fit; this is its type.
    Mismatch(Type),
}

/// Decide what follows where a constructor of a result is held against a result
/// type.
pub fn check_result_constructor_value_against(
    ok_ty: &Type,
    error_ty: &Type,
    tag: &str,
    arg_count: usize,
) -> (step: ResultStep)
    ensures
        if (tag@ == "Ok"@ || tag@ == "Err"@) && arg_count == 1 {
            step is Payload && step->Payload_0@ == (if tag@ == "Ok"@ {
                ok_ty@
            } else {
                error_ty@
            })
        } else {
            step is Mismatch && step->Mismatch_0@ == SpecType::Variant(
                (SpecRow {
                    entries: seq![
                        (SpecRowEntry::Tag {
                            name: tag@,
                            payload: Seq::new(arg_count as nat, |i: int| SpecType::Deferred),
                        }),
                    ],
                    tail: RowTail::Closed,
                }),
            )
        },
{
    if arg_count == 1 {
        if same_text(tag, "Ok") {
            return ResultStep::Payload(ok_ty.clone());
        }
        if same_text(tag, "Err") {
            return ResultStep::Payload(error_ty.clone());
        }
    }
    ResultStep::Mismatch(result_constructor_type(tag, arg_count))
}

// ---------------------------------------------------------------------------
// Methods that a type asks for
// ---------------------------------------------------------------------------
/// A method that a type asks for.
#[derive(Debug)]
pub struct RequestedSlot {
    pub name: String,
    pub params: Vec<Type>,
    pub result: Type,
}

/// A method that a type asks for.
pub ghost struct SpecSlot {
    pub name: Seq<char>,
    pub params: Seq<SpecType>,
    pub result: SpecType,
}

impl RequestedSlot {
    pub open spec fn view(&self) -> SpecSlot {
        SpecSlot { name: self.name@, params: types_view(self.params@), result: self.result@ }
    }
}

pub open spec fn slots_view(slots: Seq<RequestedSlot>) -> Seq<SpecSlot> {
    Seq::new(slots.len(), |i: int| slots[i]@)
}

/// What follows where a value is held against a type that asks for methods.
#[derive(Debug)]
pub enum SlotStep {
    /// The types are compared.
    Compare,
    /// The type may ask for more.
    OpenTarget,
    /// The owner of the value is not known.
    UnknownSource,
    /// A builtin value has no such fields.
    FieldsOfBuiltin(String),
    /// The data of the value are compared, where there are any; these methods are
    /// looked for, and those that are stored in fields are refused.
    Require { data: Option<Type>, stored: Vec<String>, methods: Vec<RequestedSlot> },
}

/// The names of the fields of a row, in order.
pub open spec fn fields_in_order(entries: Seq<SpecRowEntry>) -> Seq<Seq<char>>
    decreases entries.len(),
{
    if entries.len() == 0 {
        Seq::empty()
    } else {
        let earlier = fields_in_order(entries.drop_last());
        match entries.last() {
            SpecRowEntry::Field { name, .. } => earlier.push(name),
            _ => earlier,
        }
    }
}

/// The names of the fields of a row, in order.
pub fn row_field_names(row: &Row) -> (names: Vec<String>)
    ensures
        texts_view(names@) == fields_in_order(row@.entries),
{
    let ghost all = row@.entries;
    let mut names: Vec<String> = Vec::new();
    let mut index: usize = 0;
    assert(texts_view(names@) =~= Seq::empty());
    while index < row.entries.len()
        invariant
            index <= row.entries.len(),
            all == row@.entries,
            all.len() == row.entries.len(),
            texts_view(names@) == fields_in_order(all.take(index as int)),
        decreases row.entries.len() - index,
    {
        proof {
            let longer = all.take(index + 1);
            assert(longer.drop_last() =~= all.take(index as int));
            assert(longer.last() == row.entries@[index as int]@);
        }
        if let RowEntry::Field { name, .. } = &row.entries[index] {
            let ghost earlier = texts_view(names@);
            names.push(name.clone());
            assert(texts_view(names@) =~= earlier.push(name@));
        }
        index += 1;
    }
    assert(all.take(all.len() as int) =~= all);
    names
}

/// Whether a type has one of the methods that are asked for.
pub open spec fn provides_slot(
    env: crate::lookup::SpecEnvironment,
    actual: SpecType,
    slots: Seq<SpecRowEntry>,
) -> bool {
    exists|i: int|
        0 <= i < slots.len() && (#[trigger] slots[i]) is Field && exact_scheme(
            env,
            actual,
            slots[i]->Field_name,
        ) is Some
}

fn source_provides_slot(env: &MethodEnvironment, actual: &Type, slots: &Row) -> (provides: bool)
    ensures
        provides == provides_slot(env@, actual@, slots@.entries),
{
    let ghost all = slots@.entries;
    let mut index: usize = 0;
    assert(all.len() == slots.entries.len());
    while index < slots.entries.len()
        invariant
            index <= slots.entries.len(),
            all == slots@.entries,
            all.len() == slots.entries.len(),
            forall|i: int|
                0 <= i < index ==> !((#[trigger] all[i]) is Field && exact_scheme(
                    env@,
                    actual@,
                    all[i]->Field_name,
                ) is Some),
        decreases slots.entries.len() - index,
    {
        assert(all[index as int] == slots.entries@[index as int]@);
        if let RowEntry::Field { name, .. } = &slots.entries[index] {
            if exact_method_scheme(env, actual, name.as_str()).is_some() {
                return true;
            }
        }
        index += 1;
    }
    false
}

/// Whether a value stores a field.
pub open spec fn stores_field(actual: SpecType, name: Seq<char>) -> bool {
    match actual {
        SpecType::Record(row) => crate::lookup::slot_type(row.entries, name, 0) is Some,
        _ => false,
    }
}

/// The names of the methods that are asked for and stored in fields, in order.
pub open spec fn stored_slots(actual: SpecType, slots: Seq<SpecRowEntry>) -> Seq<Seq<char>>
    decreases slots.len(),
{
    if slots.len() == 0 {
        Seq::empty()
    } else {
        let earlier = stored_slots(actual, slots.drop_last());
        match slots.last() {
            SpecRowEntry::Field { name, ty } => if ty is Function && stores_field(
                actual,
                name,
            ) {
                earlier.push(name)
            } else {
                earlier
            },
            _ => earlier,
        }
    }
}

/// The methods that are asked for and not stored in fields, in order.
pub open spec fn required_slots(actual: SpecType, slots: Seq<SpecRowEntry>) -> Seq<SpecSlot>
    decreases slots.len(),
{
    if slots.len() == 0 {
        Seq::empty()
    } else {
        let earlier = required_slots(actual, slots.drop_last());
        match slots.last() {
            SpecRowEntry::Field { name, ty } => if ty is Function && !stores_field(
                actual,
                name,
            ) {
                earlier.push(
                    SpecSlot {
                        name,
                        params: ty->Function_params,
                        result: *ty->Function_result,
                    },
                )
            } else {
                earlier
            },
            _ => earlier,
        }
    }
}

/// The names in backticks that a message lists.
pub open spec fn quoted_fields(entries: Seq<SpecRowEntry>) -> Seq<char> {
    listed(fields_in_order(entries))
}

/// What follows where a value of a normal type is held against a type that asks
/// for methods.
pub open spec fn is_slot_step(
    env: crate::lookup::SpecEnvironment,
    family_data: Map<Seq<char>, SpecType>,
    actual: SpecType,
    data: SpecRow,
    slots: SpecRow,
    step: SlotStep,
) -> bool {
    let source = crate::comparison::base_view(family_data, actual);
    if actual is SlotRecord {
        step is Compare
    } else if !(data.tail is Closed) || !(slots.tail is Closed) {
        step is OpenTarget
    } else if unknown_shape(actual) {
        step is UnknownSource
    } else if data.entries.len() > 0 && !(source is Some && source->0 is Record) && provides_slot(
        env,
        actual,
        slots.entries,
    ) {
        step is FieldsOfBuiltin && step->FieldsOfBuiltin_0@ == quoted_fields(data.entries)
    } else {
        &&& step is Require
        &&& crate::rows::owned_type_view(step->data) == (if data.entries.len() > 0
            && source is Some && source->0 is Record {
            source
        } else {
            None
        })
        &&& texts_view(step->stored@) == stored_slots(actual, slots.entries)
        &&& slots_view(step->methods@) == required_slots(actual, slots.entries)
    }
}

fn quote_fields(row: &Row) -> (text: String)
    ensures
        text@ == quoted_fields(row@.entries),
{
    list_names(&row_field_names(row))
}

fn field_is_stored(actual: &Type, name: &str) -> (stored: bool)
    ensures
        stored == stores_field(actual@, name@),
{
    match actual {
        Type::Record(row) => first_field_type(row, name).is_some(),
        _ => false,
    }
}

/// Decide what follows where a value of a normal type is held against a type that
/// asks for methods.
pub fn check_value_against_slot_record(
    env: &MethodEnvironment,
    family_data: &StringMap<Type>,
    actual: &Type,
    data: &Row,
    slots: &Row,
) -> (step: SlotStep)
    ensures
        is_slot_step(
            env@,
            type_map_view(family_data@),
            actual@,
            data@,
            slots@,
            step,
        ),
{
    assert(data@.tail == data.tail);
    assert(slots@.tail == slots.tail);
    assert(data@.entries.len() == data.entries.len());
    if matches!(actual, Type::SlotRecord { .. }) {
        return SlotStep::Compare;
    }
    if !matches!(data.tail, RowTail::Closed) || !matches!(slots.tail, RowTail::Closed) {
        return SlotStep::OpenTarget;
    }
    if matches!(actual, Type::Deferred) || matches!(actual, Type::Variable(_)) || matches!(
        actual,
        Type::Meta(_)
    ) {
        return SlotStep::UnknownSource;
    }
    let mut source: Option<Type> = None;
    if data.entries.len() > 0 {
        if let Type::Named(name) = actual {
            if let Some(found) = family_data.get(name.as_str()) {
                if matches!(found, Type::Record(_)) {
                    source = Some(found.clone());
                }
            }
        }
        if source.is_none() && source_provides_slot(env, actual, slots) {
            return SlotStep::FieldsOfBuiltin(quote_fields(data));
        }
    }
    let ghost all = slots@.entries;
    let mut stored: Vec<String> = Vec::new();
    let mut methods: Vec<RequestedSlot> = Vec::new();
    let mut index: usize = 0;
    assert(texts_view(stored@) =~= Seq::empty());
    assert(slots_view(methods@) =~= Seq::empty());
    assert(all.len() == slots.entries.len());
    while index < slots.entries.len()
        invariant
            index <= slots.entries.len(),
            all == slots@.entries,
            all.len() == slots.entries.len(),
            texts_view(stored@) == stored_slots(actual@, all.take(index as int)),
            slots_view(methods@) == required_slots(actual@, all.take(index as int)),
        decreases slots.entries.len() - index,
    {
        proof {
            let longer = all.take(index + 1);
            assert(longer.drop_last() =~= all.take(index as int));
            assert(longer.last() == slots.entries@[index as int]@);
        }
        if let RowEntry::Field { name, ty } = &slots.entries[index] {
            if let Type::Function { params, result, .. } = ty {
                if field_is_stored(actual, name.as_str()) {
                    let ghost earlier = texts_view(stored@);
                    stored.push(name.clone());
                    assert(texts_view(stored@) =~= earlier.push(name@));
                } else {
                    let ghost earlier = slots_view(methods@);
                    methods.push(
                        RequestedSlot {
                            name: name.clone(),
                            params: clone_types(params),
                            result: (**result).clone(),
                        },
                    );
                    assert(slots_view(methods@) =~= earlier.push(
                        SpecSlot {
                            name: name@,
                            params: types_view(params@),
                            result: result@,
                        },
                    ));
                }
            }
        }
        index += 1;
    }
    assert(all.take(all.len() as int) =~= all);
    SlotStep::Require { data: source, stored, methods }
}

// ---------------------------------------------------------------------------
// Records with methods
// ---------------------------------------------------------------------------
/// The fields and the methods that a value is turned into a record with methods by.
#[derive(Debug)]
pub struct SlotReificationTarget {
    pub fields: Vec<String>,
    pub slots: Vec<String>,
}

/// What a value is turned into a record with methods by: the names of the record's
/// fields and of its methods, in order.
pub fn record_slot_reification(data: &Row, slots: &Row) -> (target: SlotReificationTarget)
    ensures
        texts_view(target.fields@) == fields_in_order(data@.entries),
        texts_view(target.slots@) == fields_in_order(slots@.entries),
{
    SlotReificationTarget { fields: row_field_names(data), slots: row_field_names(slots) }
}

} // verus!
