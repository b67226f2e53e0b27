//! Whether values of two types can be compared for equality.
use crate::collections::StringMap;
use crate::lookup::slot_type;
use crate::normalize::{
    normal_form, normalize, normalize_for_demand, unfolding_rule, RecursiveTypes,
};
use crate::rows::{peel_empty_values, peeled_payload, type_view};
use crate::text::same_text;
use crate::type_ops::{
    is_named, is_resolved_value_type, literal_variant_base, mapped, resolved, row_base,
    type_map_view, LiteralBase,
};
use crate::types::{types_view, Row, RowEntry, RowTail, SpecRow, SpecRowEntry, SpecType, Type};
use vstd::prelude::*;

verus! {

/// Whether values of two types can be compared.
#[derive(Debug, Clone, Copy, PartialEq, Eq, Structural)]
pub enum EqualityCompatibility {
    Comparable,
    Mismatched,
    Unknown,
}

impl EqualityCompatibility {
    /// What two parts say of the whole: a mismatch decides, and then a doubt.
    pub open spec fn both(self, other: EqualityCompatibility) -> EqualityCompatibility {
        if self is Mismatched || other is Mismatched {
            EqualityCompatibility::Mismatched
        } else if self is Unknown || other is Unknown {
            EqualityCompatibility::Unknown
        } else {
            EqualityCompatibility::Comparable
        }
    }

    /// What two parts say of the whole.
    pub fn and(self, other: EqualityCompatibility) -> (whole: EqualityCompatibility)
        ensures
            whole == self.both(other),
    {
        match (self, other) {
            (EqualityCompatibility::Mismatched, _) => EqualityCompatibility::Mismatched,
            (_, EqualityCompatibility::Mismatched) => EqualityCompatibility::Mismatched,
            (EqualityCompatibility::Unknown, _) => EqualityCompatibility::Unknown,
            (_, EqualityCompatibility::Unknown) => EqualityCompatibility::Unknown,
            (EqualityCompatibility::Comparable, EqualityCompatibility::Comparable) => {
                EqualityCompatibility::Comparable
            },
        }
    }

    /// The whole does not depend on the order of its parts.
    pub proof fn both_is_symmetric(self, other: EqualityCompatibility)
        ensures
            self.both(other) == other.both(self),
    {
    }

    /// The whole does not depend on how its parts are grouped.
    pub proof fn both_is_associative(
        self,
        other: EqualityCompatibility,
        third: EqualityCompatibility,
    )
        ensures
            self.both(other).both(third) == self.both(other.both(third)),
    {
    }
}

/// The kind of plain value that a type has.
#[derive(Debug, Clone, Copy, PartialEq, Eq, Structural)]
pub enum EqualityBaseKind {
    Bool,
    Text,
    Number,
}

/// The kind of plain value that a type has.
pub open spec fn base_kind(ty: SpecType) -> Option<EqualityBaseKind> {
    match ty {
        SpecType::Named(name) => if name == "Bool"@ {
            Some(EqualityBaseKind::Bool)
        } else if name == "Text"@ {
            Some(EqualityBaseKind::Text)
        } else if name == "Int"@ || name == "Float"@ {
            Some(EqualityBaseKind::Number)
        } else {
            None
        },
        SpecType::Variant(row) => match row_base(row) {
            Some(LiteralBase::Bool) => Some(EqualityBaseKind::Bool),
            Some(LiteralBase::Text) => Some(EqualityBaseKind::Text),
            Some(LiteralBase::Number) => Some(EqualityBaseKind::Number),
            None => None,
        },
        _ => None,
    }
}

/// The kind of plain value that a type has.
pub fn equality_base_kind(ty: &Type) -> (kind: Option<EqualityBaseKind>)
    ensures
        kind == base_kind(ty@),
{
    match ty {
        Type::Named(name) => if same_text(name.as_str(), "Bool") {
            Some(EqualityBaseKind::Bool)
        } else if same_text(name.as_str(), "Text") {
            Some(EqualityBaseKind::Text)
        } else if same_text(name.as_str(), "Int") || same_text(name.as_str(), "Float") {
            Some(EqualityBaseKind::Number)
        } else {
            None
        },
        Type::Variant(row) => match literal_variant_base(row) {
            Some(LiteralBase::Bool) => Some(EqualityBaseKind::Bool),
            Some(LiteralBase::Text) => Some(EqualityBaseKind::Text),
            Some(LiteralBase::Number) => Some(EqualityBaseKind::Number),
            None => None,
        },
        _ => None,
    }
}

/// Whether a type is the array constructor.
pub fn is_array_constructor(ty: &Type) -> (is_array: bool)
    ensures
        is_array == (ty@ == SpecType::Named("Array"@)),
{
    is_named(ty, "Array")
}

/// The type of the first field of a name.
pub fn first_field_type<'r>(row: &'r Row, field: &str) -> (ty: Option<&'r Type>)
    ensures
        type_view(ty) == slot_type(row@.entries, field@, 0),
{
    let ghost all = row@.entries;
    let mut index: usize = 0;
    while index < row.entries.len()
        invariant
            index <= row.entries.len(),
            all == row@.entries,
            slot_type(all, field@, 0) == slot_type(all, field@, index as int),
        decreases row.entries.len() - index,
    {
        assert(all[index as int] == row.entries@[index as int]@);
        if let RowEntry::Field { name, ty } = &row.entries[index] {
            if same_text(name.as_str(), field) {
                return Some(ty);
            }
        }
        index += 1;
    }
    None
}

/// The definitions that types refer to.
pub struct TypeContext<'a> {
    pub definitions: &'a StringMap<Type>,
    pub recursive: &'a RecursiveTypes,
}

/// The definitions that types refer to.
pub ghost struct SpecContext {
    pub definitions: Map<Seq<char>, SpecType>,
    pub recursive: RecursiveTypes,
}

impl<'a> TypeContext<'a> {
    pub open spec fn view(&self) -> SpecContext {
        SpecContext {
            definitions: type_map_view(self.definitions@),
            recursive: *self.recursive,
        }
    }
}

/// The payload of a type whose structure is asked for.
pub open spec fn demanded(ty: SpecType, context: SpecContext) -> SpecType {
    peeled_payload(
        mapped(
            normal_form(ty, context.definitions),
            unfolding_rule(context.recursive, context.definitions),
        ),
    )
}

fn demand(ty: &Type, context: &TypeContext<'_>) -> (payload: Type)
    ensures
        payload@ == demanded(ty@, context@),
{
    let normal = normalize_for_demand(ty, context.definitions, context.recursive);
    let (_, payload) = peel_empty_values(&normal);
    payload.clone()
}

/// Whether a field of a type may be absent.
pub open spec fn may_be_absent(ty: SpecType, context: SpecContext) -> bool {
    normal_form(ty, context.definitions) is Optional
}

fn field_type_admits_absence(ty: &Type, context: &TypeContext<'_>) -> (absent: bool)
    ensures
        absent == may_be_absent(ty@, context@),
{
    matches!(normalize(ty, context.definitions), Type::Optional(_))
}

pub open spec fn same_or_mismatched(same: bool) -> EqualityCompatibility {
    if same {
        EqualityCompatibility::Comparable
    } else {
        EqualityCompatibility::Mismatched
    }
}

/// Whether values of two types can be compared, as far as a number of levels of
/// nesting tells; no answer where it does not.
pub open spec fn compared(
    left: SpecType,
    right: SpecType,
    context: SpecContext,
    levels: nat,
) -> Option<EqualityCompatibility>
    decreases levels, 0int,
{
    if levels == 0 {
        None
    } else if left is Recursive && right is Recursive {
        Some(same_or_mismatched(left == right))
    } else {
        let inner = (levels - 1) as nat;
        let left_payload = demanded(left, context);
        let right_payload = demanded(right, context);
        match (base_kind(left_payload), base_kind(right_payload)) {
            (Some(left_kind), Some(right_kind)) => Some(
                same_or_mismatched(left_kind == right_kind),
            ),
            _ => if !resolved(left_payload) || !resolved(right_payload) {
                Some(EqualityCompatibility::Unknown)
            } else {
                match (left_payload, right_payload) {
                    (SpecType::Record(left_row), SpecType::Record(right_row)) => rows_compared(
                        left_row,
                        right_row,
                        context,
                        inner,
                    ),
                    (SpecType::Record(_), _) => Some(EqualityCompatibility::Mismatched),
                    (_, SpecType::Record(_)) => Some(EqualityCompatibility::Mismatched),
                    (SpecType::SlotRecord { .. }, SpecType::SlotRecord { .. }) => Some(
                        EqualityCompatibility::Unknown,
                    ),
                    (SpecType::SlotRecord { .. }, _) => Some(EqualityCompatibility::Mismatched),
                    (_, SpecType::SlotRecord { .. }) => Some(EqualityCompatibility::Mismatched),
                    (SpecType::Tuple(left_items), SpecType::Tuple(right_items)) => {
                        if left_items.len() != right_items.len() {
                            Some(EqualityCompatibility::Mismatched)
                        } else {
                            items_compared(
                                left_items,
                                right_items,
                                context,
                                inner,
                                0,
                                EqualityCompatibility::Comparable,
                            )
                        }
                    },
                    (SpecType::Tuple(_), _) => Some(EqualityCompatibility::Mismatched),
                    (_, SpecType::Tuple(_)) => Some(EqualityCompatibility::Mismatched),
                    _ => if is_array(left_payload) && is_array(right_payload) {
                        if left_payload->Apply_args.len() == 1 && right_payload->Apply_args.len()
                            == 1 {
                            compared(
                                left_payload->Apply_args[0],
                                right_payload->Apply_args[0],
                                context,
                                inner,
                            )
                        } else {
                            Some(EqualityCompatibility::Unknown)
                        }
                    } else if is_array(left_payload) || is_array(right_payload) {
                        Some(EqualityCompatibility::Mismatched)
                    } else {
                        Some(leaves_compared(left_payload, right_payload))
                    },
                }
            },
        }
    }
}

/// Whether a type is an array of something.
pub open spec fn is_array(ty: SpecType) -> bool {
    ty is Apply && *ty->Apply_callee == SpecType::Named("Array"@)
}

/// What can be told of types that are neither records, tuples nor arrays.
pub open spec fn leaves_compared(left: SpecType, right: SpecType) -> EqualityCompatibility {
    match (left, right) {
        (SpecType::Named(left_name), SpecType::Named(right_name)) => same_or_mismatched(
            left_name == right_name,
        ),
        (SpecType::Recursive(left_id), SpecType::Recursive(right_id)) => same_or_mismatched(
            left_id == right_id,
        ),
        _ => EqualityCompatibility::Unknown,
    }
}

/// What the items of two lists say of the whole, from a position on.
pub open spec fn items_compared(
    left: Seq<SpecType>,
    right: Seq<SpecType>,
    context: SpecContext,
    levels: nat,
    from: int,
    so_far: EqualityCompatibility,
) -> Option<EqualityCompatibility>
    decreases levels, left.len() - from + 1,
{
    if from < 0 || from >= left.len() {
        Some(so_far)
    } else {
        match compared(left[from], right[from], context, levels) {
            Some(compatibility) => items_compared(
                left,
                right,
                context,
                levels,
                from + 1,
                so_far.both(compatibility),
            ),
            None => None,
        }
    }
}

/// What the fields of a record say of the whole, from a position on. A field that
/// the other record lacks is a mismatch unless it may be absent.
pub open spec fn fields_compared(
    entries: Seq<SpecRowEntry>,
    right: SpecRow,
    context: SpecContext,
    levels: nat,
    from: int,
    so_far: EqualityCompatibility,
) -> Option<EqualityCompatibility>
    decreases levels, entries.len() - from + 1,
{
    if from < 0 || from >= entries.len() {
        Some(so_far)
    } else {
        let name = entries[from]->Field_name;
        let ty = entries[from]->Field_ty;
        match slot_type(right.entries, name, 0) {
            None => if may_be_absent(ty, context) {
                fields_compared(entries, right, context, levels, from + 1, so_far)
            } else {
                Some(EqualityCompatibility::Mismatched)
            },
            Some(right_ty) => match compared(ty, right_ty, context, levels) {
                None => None,
                Some(compatibility) => {
                    let next = so_far.both(compatibility);
                    if next is Mismatched {
                        Some(next)
                    } else {
                        fields_compared(entries, right, context, levels, from + 1, next)
                    }
                },
            },
        }
    }
}

/// Whether a record has a field, of those from a position on, that must be
/// present and that the other record lacks.
pub open spec fn has_unmatched_field(row: SpecRow, other: SpecRow, context: SpecContext) -> bool {
    exists|i: int|
        0 <= i < row.entries.len() && slot_type(
            other.entries,
            (#[trigger] row.entries[i])->Field_name,
            0,
        ) is None && !may_be_absent(row.entries[i]->Field_ty, context)
}

/// Whether values of two record types can be compared.
pub open spec fn rows_compared(
    left: SpecRow,
    right: SpecRow,
    context: SpecContext,
    levels: nat,
) -> Option<EqualityCompatibility>
    decreases levels, left.entries.len() + 2,
{
    if !(left.tail is Closed) || !(right.tail is Closed) || !crate::rows::all_fields(left)
        || !crate::rows::all_fields(right) {
        Some(EqualityCompatibility::Unknown)
    } else {
        match fields_compared(
            left.entries,
            right,
            context,
            levels,
            0,
            EqualityCompatibility::Comparable,
        ) {
            None => None,
            Some(compatibility) => if compatibility is Mismatched || has_unmatched_field(
                right,
                left,
                context,
            ) {
                Some(EqualityCompatibility::Mismatched)
            } else {
                Some(compatibility)
            },
        }
    }
}

/// Whether values of two types can be compared for equality. There is no answer
/// where the types are nested deeper than `levels`.
///
/// A recursive type unfolds anew at every level, so two different ones that hold
/// themselves, compared element by element, come to no end at any level. The bound
/// stops there; where there is an answer, it does not depend on the bound. Where one of the
/// types refers to nothing in normal form, there is an answer at as many levels as that
/// normal form is nested.
pub fn equality_compatibility(
    left: &Type,
    right: &Type,
    context: &TypeContext<'_>,
    levels: usize,
) -> (compatibility: Option<EqualityCompatibility>)
    ensures
        compatibility == compared(left@, right@, context@, levels as nat),
    decreases levels, 0int,
{
    if levels == 0 {
        return None;
    }
    if let (Type::Recursive(left_id), Type::Recursive(right_id)) = (left, right) {
        return Some(
            if *left_id == *right_id {
                EqualityCompatibility::Comparable
            } else {
                EqualityCompatibility::Mismatched
            },
        );
    }
    let inner: usize = levels - 1;
    let left_payload = demand(left, context);
    let right_payload = demand(right, context);
    if let (Some(left_kind), Some(right_kind)) = (
        equality_base_kind(&left_payload),
        equality_base_kind(&right_payload),
    ) {
        return Some(
            if left_kind == right_kind {
                EqualityCompatibility::Comparable
            } else {
                EqualityCompatibility::Mismatched
            },
        );
    }
    if !is_resolved_value_type(&left_payload) || !is_resolved_value_type(&right_payload) {
        return Some(EqualityCompatibility::Unknown);
    }
    match (&left_payload, &right_payload) {
        (Type::Record(left_row), Type::Record(right_row)) => record_equality_compatibility(
            left_row,
            right_row,
            context,
            inner,
        ),
        (Type::Record(_), _) => Some(EqualityCompatibility::Mismatched),
        (_, Type::Record(_)) => Some(EqualityCompatibility::Mismatched),
        (Type::SlotRecord { .. }, Type::SlotRecord { .. }) => Some(EqualityCompatibility::Unknown),
        (Type::SlotRecord { .. }, _) => Some(EqualityCompatibility::Mismatched),
        (_, Type::SlotRecord { .. }) => Some(EqualityCompatibility::Mismatched),
        (Type::Tuple(left_items), Type::Tuple(right_items)) => {
            assert(types_view(left_items@).len() == left_items.len());
            assert(types_view(right_items@).len() == right_items.len());
            equality_sequence_compatibility(left_items, right_items, context, inner)
        },
        (Type::Tuple(_), _) => Some(EqualityCompatibility::Mismatched),
        (_, Type::Tuple(_)) => Some(EqualityCompatibility::Mismatched),
        _ => {
            let left_array = is_array_type(&left_payload);
            let right_array = is_array_type(&right_payload);
            if left_array && right_array {
                if let (
                    Type::Apply { args: left_args, .. },
                    Type::Apply { args: right_args, .. },
                ) = (&left_payload, &right_payload) {
                    assert(types_view(left_args@).len() == left_args.len());
                    assert(types_view(right_args@).len() == right_args.len());
                    if left_args.len() == 1 && right_args.len() == 1 {
                        assert(types_view(left_args@)[0] == left_args@[0]@);
                        assert(types_view(right_args@)[0] == right_args@[0]@);
                        return equality_compatibility(
                            &left_args[0],
                            &right_args[0],
                            context,
                            inner,
                        );
                    }
                }
                Some(EqualityCompatibility::Unknown)
            } else if left_array || right_array {
                Some(EqualityCompatibility::Mismatched)
            } else {
                Some(compare_leaves(&left_payload, &right_payload))
            }
        },
    }
}

fn is_array_type(ty: &Type) -> (array: bool)
    ensures
        array == is_array(ty@),
{
    match ty {
        Type::Apply { callee, .. } => is_array_constructor(callee),
        _ => false,
    }
}

fn compare_leaves(left: &Type, right: &Type) -> (compatibility: EqualityCompatibility)
    ensures
        compatibility == leaves_compared(left@, right@),
{
    match (left, right) {
        (Type::Named(left_name), Type::Named(right_name)) => if same_text(
            left_name.as_str(),
            right_name.as_str(),
        ) {
            EqualityCompatibility::Comparable
        } else {
            EqualityCompatibility::Mismatched
        },
        (Type::Recursive(left_id), Type::Recursive(right_id)) => if *left_id == *right_id {
            EqualityCompatibility::Comparable
        } else {
            EqualityCompatibility::Mismatched
        },
        _ => EqualityCompatibility::Unknown,
    }
}

/// What the items of two lists say of the whole. Lists of different lengths do
/// not match.
pub fn equality_sequence_compatibility(
    left: &Vec<Type>,
    right: &Vec<Type>,
    context: &TypeContext<'_>,
    levels: usize,
) -> (compatibility: Option<EqualityCompatibility>)
    ensures
        compatibility == (if left.len() != right.len() {
            Some(EqualityCompatibility::Mismatched)
        } else {
            items_compared(
                types_view(left@),
                types_view(right@),
                context@,
                levels as nat,
                0,
                EqualityCompatibility::Comparable,
            )
        }),
    decreases levels, left.len() + 3,
{
    if left.len() != right.len() {
        return Some(EqualityCompatibility::Mismatched);
    }
    let ghost left_all = types_view(left@);
    let ghost right_all = types_view(right@);
    let mut so_far = EqualityCompatibility::Comparable;
    let mut index: usize = 0;
    while index < left.len()
        invariant
            index <= left.len(),
            left.len() == right.len(),
            left_all == types_view(left@),
            right_all == types_view(right@),
            items_compared(
                left_all,
                right_all,
                context@,
                levels as nat,
                0,
                EqualityCompatibility::Comparable,
            ) == items_compared(
                left_all,
                right_all,
                context@,
                levels as nat,
                index as int,
                so_far,
            ),
        decreases left.len() - index,
    {
        assert(left_all[index as int] == left@[index as int]@);
        assert(right_all[index as int] == right@[index as int]@);
        match equality_compatibility(&left[index], &right[index], context, levels) {
            Some(compatibility) => {
                so_far = so_far.and(compatibility);
            },
            None => {
                return None;
            },
        }
        index += 1;
    }
    Some(so_far)
}

fn all_entries_are_fields(row: &Row) -> (all: bool)
    ensures
        all == crate::rows::all_fields(row@),
{
    let mut index: usize = 0;
    while index < row.entries.len()
        invariant
            index <= row.entries.len(),
            forall|i: int| 0 <= i < index ==> (#[trigger] row@.entries[i]) is Field,
        decreases row.entries.len() - index,
    {
        assert(row@.entries[index as int] == row.entries@[index as int]@);
        if !matches!(row.entries[index], RowEntry::Field { .. }) {
            return false;
        }
        index += 1;
    }
    true
}

fn compare_fields(left: &Row, right: &Row, context: &TypeContext<'_>, levels: usize) -> (
    compatibility: Option<EqualityCompatibility>)
    requires
        crate::rows::all_fields(left@),
    ensures
        compatibility == fields_compared(
            left@.entries,
            right@,
            context@,
            levels as nat,
            0,
            EqualityCompatibility::Comparable,
        ),
    decreases levels, left.entries.len() + 3,
{
    let ghost all = left@.entries;
    let mut so_far = EqualityCompatibility::Comparable;
    let mut index: usize = 0;
    while index < left.entries.len()
        invariant
            index <= left.entries.len(),
            all == left@.entries,
            crate::rows::all_fields(left@),
            fields_compared(
                all,
                right@,
                context@,
                levels as nat,
                0,
                EqualityCompatibility::Comparable,
            ) == fields_compared(all, right@, context@, levels as nat, index as int, so_far),
        decreases left.entries.len() - index,
    {
        assert(all[index as int] == left.entries@[index as int]@);
        if let RowEntry::Field { name, ty } = &left.entries[index] {
            match first_field_type(right, name.as_str()) {
                None => {
                    if !field_type_admits_absence(ty, context) {
                        return Some(EqualityCompatibility::Mismatched);
                    }
                },
                Some(right_ty) => {
                    match equality_compatibility(ty, right_ty, context, levels) {
                        None => {
                            return None;
                        },
                        Some(compatibility) => {
                            so_far = so_far.and(compatibility);
                            if so_far == EqualityCompatibility::Mismatched {
                                return Some(so_far);
                            }
                        },
                    }
                },
            }
        }
        index += 1;
    }
    Some(so_far)
}

fn lacks_required_field(row: &Row, other: &Row, context: &TypeContext<'_>) -> (lacks: bool)
    requires
        crate::rows::all_fields(row@),
    ensures
        lacks == has_unmatched_field(row@, other@, context@),
{
    let mut index: usize = 0;
    while index < row.entries.len()
        invariant
            index <= row.entries.len(),
            crate::rows::all_fields(row@),
            forall|i: int|
                0 <= i < index ==> !(slot_type(
                    other@.entries,
                    (#[trigger] row@.entries[i])->Field_name,
                    0,
                ) is None && !may_be_absent(row@.entries[i]->Field_ty, context@)),
        decreases row.entries.len() - index,
    {
        assert(row@.entries[index as int] == row.entries@[index as int]@);
        if let RowEntry::Field { name, ty } = &row.entries[index] {
            if first_field_type(other, name.as_str()).is_none() && !field_type_admits_absence(
                ty,
                context,
            ) {
                return true;
            }
        }
        index += 1;
    }
    false
}

/// Whether values of two record types can be compared for equality.
pub fn record_equality_compatibility(
    left: &Row,
    right: &Row,
    context: &TypeContext<'_>,
    levels: usize,
) -> (compatibility: Option<EqualityCompatibility>)
    ensures
        compatibility == rows_compared(left@, right@, context@, levels as nat),
    decreases levels, left.entries.len() + 4,
{
    assert(left@.tail == left.tail);
    assert(right@.tail == right.tail);
    if !matches!(left.tail, RowTail::Closed) || !matches!(right.tail, RowTail::Closed)
        || !all_entries_are_fields(left) || !all_entries_are_fields(right) {
        return Some(EqualityCompatibility::Unknown);
    }
    match compare_fields(left, right, context, levels) {
        None => None,
        Some(compatibility) => if compatibility == EqualityCompatibility::Mismatched
            || lacks_required_field(right, left, context) {
            Some(EqualityCompatibility::Mismatched)
        } else {
            Some(compatibility)
        },
    }
}

// ---------------------------------------------------------------------------
// Laws
// ---------------------------------------------------------------------------
/// An answer that a number of levels of nesting gives, more levels give too.
pub proof fn more_levels_agree(
    left: SpecType,
    right: SpecType,
    context: SpecContext,
    levels: nat,
    more: nat,
)
    requires
        levels <= more,
        compared(left, right, context, levels) is Some,
    ensures
        compared(left, right, context, more) == compared(left, right, context, levels),
    decreases levels, 0int,
{
    let left_payload = demanded(left, context);
    let right_payload = demanded(right, context);
    let inner = (levels - 1) as nat;
    let more_inner = (more - 1) as nat;
    if left is Recursive && right is Recursive {
    } else if base_kind(left_payload) is Some && base_kind(right_payload) is Some {
    } else if !resolved(left_payload) || !resolved(right_payload) {
    } else {
        match (left_payload, right_payload) {
            (SpecType::Record(left_row), SpecType::Record(right_row)) => {
                more_levels_agree_on_rows(left_row, right_row, context, inner, more_inner);
            },
            (SpecType::Tuple(left_items), SpecType::Tuple(right_items)) => {
                more_levels_agree_on_items(
                    left_items,
                    right_items,
                    context,
                    inner,
                    more_inner,
                    0,
                    EqualityCompatibility::Comparable,
                );
            },
            _ => {
                if is_array(left_payload) && is_array(right_payload)
                    && left_payload->Apply_args.len() == 1 && right_payload->Apply_args.len()
                    == 1 {
                    more_levels_agree(
                        left_payload->Apply_args[0],
                        right_payload->Apply_args[0],
                        context,
                        inner,
                        more_inner,
                    );
                }
            },
        }
    }
}

/// An answer on records that a number of levels of nesting gives, more levels give too.
pub proof fn more_levels_agree_on_rows(
    left: SpecRow,
    right: SpecRow,
    context: SpecContext,
    levels: nat,
    more: nat,
)
    requires
        levels <= more,
        rows_compared(left, right, context, levels) is Some,
    ensures
        rows_compared(left, right, context, more) == rows_compared(left, right, context, levels),
    decreases levels, left.entries.len() + 2,
{
    if left.tail is Closed && right.tail is Closed && crate::rows::all_fields(left)
        && crate::rows::all_fields(right) {
        more_levels_agree_on_fields(
            left.entries,
            right,
            context,
            levels,
            more,
            0,
            EqualityCompatibility::Comparable,
        );
    }
}

proof fn more_levels_agree_on_items(
    left: Seq<SpecType>,
    right: Seq<SpecType>,
    context: SpecContext,
    levels: nat,
    more: nat,
    from: int,
    so_far: EqualityCompatibility,
)
    requires
        levels <= more,
        0 <= from,
    ensures
        items_compared(left, right, context, levels, from, so_far) is Some ==> items_compared(
            left,
            right,
            context,
            more,
            from,
            so_far,
        ) == items_compared(left, right, context, levels, from, so_far),
    decreases levels, left.len() - from + 1,
{
    if from < left.len() {
        if let Some(compatibility) = compared(left[from], right[from], context, levels) {
            more_levels_agree(left[from], right[from], context, levels, more);
            more_levels_agree_on_items(
                left,
                right,
                context,
                levels,
                more,
                from + 1,
                so_far.both(compatibility),
            );
        }
    }
}

proof fn more_levels_agree_on_fields(
    entries: Seq<SpecRowEntry>,
    right: SpecRow,
    context: SpecContext,
    levels: nat,
    more: nat,
    from: int,
    so_far: EqualityCompatibility,
)
    requires
        levels <= more,
        0 <= from,
    ensures
        fields_compared(entries, right, context, levels, from, so_far) is Some ==> fields_compared(
            entries,
            right,
            context,
            more,
            from,
            so_far,
        ) == fields_compared(entries, right, context, levels, from, so_far),
    decreases levels, entries.len() - from + 1,
{
    if from < entries.len() {
        let name = entries[from]->Field_name;
        let ty = entries[from]->Field_ty;
        match slot_type(right.entries, name, 0) {
            None => {
                more_levels_agree_on_fields(
                    entries,
                    right,
                    context,
                    levels,
                    more,
                    from + 1,
                    so_far,
                );
            },
            Some(right_ty) => {
                if let Some(compatibility) = compared(ty, right_ty, context, levels) {
                    more_levels_agree(ty, right_ty, context, levels, more);
                    more_levels_agree_on_fields(
                        entries,
                        right,
                        context,
                        levels,
                        more,
                        from + 1,
                        so_far.both(compatibility),
                    );
                }
            },
        }
    }
}

} // verus!
