//! Normal forms of types: names are replaced by their definitions, and the
//! layers that admit empty values are put in order.
use crate::collections::{StringMap, StringSet};
use crate::text::{texts_contain, texts_view};
use crate::type_ops::{
    map_type, mapped, some_node, some_node_in, some_node_in_entry, some_node_in_row, type_map_view,
    TypeRewrite,
};
use crate::types::{
    types_view, RecursiveTypeId, Row, RowEntry, RowTail, SpecLiteral, SpecRow, SpecRowEntry,
    SpecType, Type,
};
use vstd::prelude::*;

verus! {

/// A type that admits `undefined`, once.
pub open spec fn optional_of(inner: SpecType) -> SpecType {
    match inner {
        SpecType::Optional(_) => inner,
        _ => SpecType::Optional(Box::new(inner)),
    }
}

/// A type that admits `null`: the layer goes below one that admits `undefined`,
/// and is not repeated at the outside.
pub open spec fn nullable_of(inner: SpecType) -> SpecType {
    match inner {
        SpecType::Optional(payload) => SpecType::Optional(Box::new(SpecType::Nullable(payload))),
        SpecType::Nullable(_) => inner,
        _ => SpecType::Nullable(Box::new(inner)),
    }
}

/// The normal form of a type. A name that has been replaced by its definition on
/// the way to a node is not replaced there again.
pub open spec fn normalized(
    ty: SpecType,
    definitions: Map<Seq<char>, SpecType>,
    visited: Set<Seq<char>>,
) -> SpecType
    decreases definitions.dom().difference(visited).len(), ty,
    when definitions.dom().finite()
{
    match ty {
        SpecType::Named(name) => if definitions.contains_key(name) && !visited.contains(name) {
            proof {
                unvisited_shrinks(definitions, visited, name);
            }
            normalized(definitions[name], definitions, visited.insert(name))
        } else {
            ty
        },
        SpecType::Apply { callee, args } => SpecType::Apply {
            callee: Box::new(normalized(*callee, definitions, visited)),
            args: normalized_all(args, definitions, visited),
        },
        SpecType::Function { params, result, required } => SpecType::Function {
            params: normalized_all(params, definitions, visited),
            result: Box::new(normalized(*result, definitions, visited)),
            required,
        },
        SpecType::Optional(inner) => optional_of(normalized(*inner, definitions, visited)),
        SpecType::Nullable(inner) => nullable_of(normalized(*inner, definitions, visited)),
        SpecType::Tuple(items) => SpecType::Tuple(normalized_all(items, definitions, visited)),
        SpecType::Record(row) => SpecType::Record(normalized_row(row, definitions, visited)),
        SpecType::Variant(row) => SpecType::Variant(normalized_row(row, definitions, visited)),
        SpecType::SlotRecord { data, slots } => SpecType::SlotRecord {
            data: Box::new(normalized_row(*data, definitions, visited)),
            slots: Box::new(normalized_row(*slots, definitions, visited)),
        },
        _ => ty,
    }
}

pub open spec fn normalized_all(
    types: Seq<SpecType>,
    definitions: Map<Seq<char>, SpecType>,
    visited: Set<Seq<char>>,
) -> Seq<SpecType>
    decreases definitions.dom().difference(visited).len(), types,
    when definitions.dom().finite()
{
    Seq::new(
        types.len(),
        |i: int|
            if 0 <= i < types.len() {
                normalized(types[i], definitions, visited)
            } else {
                SpecType::Deferred
            },
    )
}

pub open spec fn normalized_entry(
    entry: SpecRowEntry,
    definitions: Map<Seq<char>, SpecType>,
    visited: Set<Seq<char>>,
) -> SpecRowEntry
    decreases definitions.dom().difference(visited).len(), entry,
    when definitions.dom().finite()
{
    match entry {
        SpecRowEntry::Field { name, ty } => SpecRowEntry::Field {
            name,
            ty: normalized(ty, definitions, visited),
        },
        SpecRowEntry::Tag { name, payload } => SpecRowEntry::Tag {
            name,
            payload: normalized_all(payload, definitions, visited),
        },
        SpecRowEntry::Literal { value } => SpecRowEntry::Literal { value },
    }
}

pub open spec fn normalized_row(
    row: SpecRow,
    definitions: Map<Seq<char>, SpecType>,
    visited: Set<Seq<char>>,
) -> SpecRow
    decreases definitions.dom().difference(visited).len(), row,
    when definitions.dom().finite()
{
    SpecRow {
        entries: Seq::new(
            row.entries.len(),
            |i: int|
                if 0 <= i < row.entries.len() {
                    normalized_entry(row.entries[i], definitions, visited)
                } else {
                    SpecRowEntry::Literal { value: SpecLiteral::Bool(false) }
                },
        ),
        tail: row.tail,
    }
}

/// Replacing a name leaves fewer names to replace.
pub proof fn unvisited_shrinks(
    definitions: Map<Seq<char>, SpecType>,
    visited: Set<Seq<char>>,
    name: Seq<char>,
)
    requires
        definitions.dom().finite(),
        definitions.contains_key(name),
        !visited.contains(name),
    ensures
        definitions.dom().difference(visited.insert(name)).len() < definitions.dom().difference(
            visited,
        ).len(),
{
    let before = definitions.dom().difference(visited);
    let after = definitions.dom().difference(visited.insert(name));
    assert(after =~= before.remove(name));
    assert(before.contains(name));
}

/// The normal form of a type.
pub open spec fn normal_form(ty: SpecType, definitions: Map<Seq<char>, SpecType>) -> SpecType {
    normalized(ty, definitions, Set::empty())
}

proof fn definitions_are_finite(definitions: &StringMap<Type>)
    ensures
        type_map_view(definitions@).dom().finite(),
{
    definitions.keys_are_finite();
    assert(type_map_view(definitions@).dom() =~= definitions@.dom());
}

/// Bring a type into normal form where some names have been replaced already.
pub fn normalize_with_visited(
    ty: &Type,
    definitions: &StringMap<Type>,
    visited: &StringSet,
) -> (normal: Type)
    ensures
        normal@ == normalized(ty@, type_map_view(definitions@), visited@),
    decreases type_map_view(definitions@).dom().difference(visited@).len(), ty,
{
    proof {
        definitions_are_finite(definitions);
    }
    match ty {
        Type::Named(name) => match definitions.get(name.as_str()) {
            None => Type::Named(name.clone()),
            Some(definition) => if visited.contains(name.as_str()) {
                Type::Named(name.clone())
            } else {
                let mut next_visited = visited.clone();
                next_visited.insert(name.clone());
                proof {
                    unvisited_shrinks(type_map_view(definitions@), visited@, name@);
                }
                normalize_with_visited(definition, definitions, &next_visited)
            },
        },
        Type::Deferred => Type::Deferred,
        Type::Variable(name) => Type::Variable(name.clone()),
        Type::Meta(id) => Type::Meta(*id),
        Type::Recursive(id) => Type::Recursive(*id),
        Type::Apply { callee, args } => Type::Apply {
            callee: Box::new(normalize_with_visited(callee, definitions, visited)),
            args: normalize_types(args, definitions, visited),
        },
        Type::Function { params, result, required } => Type::Function {
            params: normalize_types(params, definitions, visited),
            result: Box::new(normalize_with_visited(result, definitions, visited)),
            required: *required,
        },
        Type::Optional(inner) => {
            let inner_normal = normalize_with_visited(inner, definitions, visited);
            normalize_optional(inner_normal)
        },
        Type::Nullable(inner) => {
            let inner_normal = normalize_with_visited(inner, definitions, visited);
            normalize_nullable(inner_normal)
        },
        Type::Tuple(items) => Type::Tuple(normalize_types(items, definitions, visited)),
        Type::Record(row) => Type::Record(normalize_row(row, definitions, visited)),
        Type::Variant(row) => Type::Variant(normalize_row(row, definitions, visited)),
        Type::SlotRecord { data, slots } => Type::SlotRecord {
            data: Box::new(normalize_row(data, definitions, visited)),
            slots: Box::new(normalize_row(slots, definitions, visited)),
        },
    }
}

/// Let a normal form admit `undefined`.
pub fn normalize_optional(inner: Type) -> (normal: Type)
    ensures
        normal@ == optional_of(inner@),
{
    match inner {
        Type::Optional(payload) => Type::Optional(payload),
        other => Type::Optional(Box::new(other)),
    }
}

/// Let a normal form admit `null`.
pub fn normalize_nullable(inner: Type) -> (normal: Type)
    ensures
        normal@ == nullable_of(inner@),
{
    match inner {
        Type::Optional(payload) => {
            let nullable = Type::Nullable(payload);
            assert(nullable@ == SpecType::Nullable(Box::new(payload@)));
            Type::Optional(Box::new(nullable))
        },
        Type::Nullable(payload) => Type::Nullable(payload),
        other => Type::Nullable(Box::new(other)),
    }
}

/// Bring each type of a list into normal form.
pub fn normalize_types(
    types: &Vec<Type>,
    definitions: &StringMap<Type>,
    visited: &StringSet,
) -> (normal: Vec<Type>)
    ensures
        types_view(normal@) == normalized_all(
            types_view(types@),
            type_map_view(definitions@),
            visited@,
        ),
    decreases type_map_view(definitions@).dom().difference(visited@).len(), types,
{
    proof {
        definitions_are_finite(definitions);
    }
    let mut normal: Vec<Type> = Vec::new();
    let mut index: usize = 0;
    while index < types.len()
        invariant
            index <= types.len(),
            normal.len() == index,
            forall|i: int|
                0 <= i < index ==> (#[trigger] normal@[i])@ == normalized(
                    types@[i]@,
                    type_map_view(definitions@),
                    visited@,
                ),
        decreases types.len() - index,
    {
        normal.push(normalize_with_visited(&types[index], definitions, visited));
        index += 1;
    }
    assert(types_view(normal@) =~= normalized_all(
        types_view(types@),
        type_map_view(definitions@),
        visited@,
    ));
    normal
}

/// Bring the types of a row entry into normal form.
pub fn normalize_row_entry(
    entry: &RowEntry,
    definitions: &StringMap<Type>,
    visited: &StringSet,
) -> (normal: RowEntry)
    ensures
        normal@ == normalized_entry(entry@, type_map_view(definitions@), visited@),
    decreases type_map_view(definitions@).dom().difference(visited@).len(), entry,
{
    proof {
        definitions_are_finite(definitions);
    }
    match entry {
        RowEntry::Field { name, ty } => RowEntry::Field {
            name: name.clone(),
            ty: normalize_with_visited(ty, definitions, visited),
        },
        RowEntry::Tag { name, payload } => RowEntry::Tag {
            name: name.clone(),
            payload: normalize_types(payload, definitions, visited),
        },
        RowEntry::Literal { value } => RowEntry::Literal { value: value.clone() },
    }
}

/// Bring the types of a row into normal form.
pub fn normalize_row(row: &Row, definitions: &StringMap<Type>, visited: &StringSet) -> (normal: Row)
    ensures
        normal@ == normalized_row(row@, type_map_view(definitions@), visited@),
    decreases type_map_view(definitions@).dom().difference(visited@).len(), row,
{
    proof {
        definitions_are_finite(definitions);
    }
    let mut entries: Vec<RowEntry> = Vec::new();
    let mut index: usize = 0;
    while index < row.entries.len()
        invariant
            index <= row.entries.len(),
            entries.len() == index,
            forall|i: int|
                0 <= i < index ==> (#[trigger] entries@[i])@ == normalized_entry(
                    row.entries@[i]@,
                    type_map_view(definitions@),
                    visited@,
                ),
        decreases row.entries.len() - index,
    {
        entries.push(normalize_row_entry(&row.entries[index], definitions, visited));
        index += 1;
    }
    let normal = Row { entries, tail: row.tail };
    assert(normal@.entries =~= normalized_row(
        row@,
        type_map_view(definitions@),
        visited@,
    ).entries);
    normal
}

/// Bring a type into normal form.
pub fn normalize(ty: &Type, definitions: &StringMap<Type>) -> (normal: Type)
    ensures
        normal@ == normal_form(ty@, type_map_view(definitions@)),
{
    let visited = StringSet::new();
    normalize_with_visited(ty, definitions, &visited)
}

/// Whether a type admits `undefined`.
pub fn type_admits_undefined(ty: &Type, definitions: &StringMap<Type>) -> (admits: bool)
    ensures
        admits == (normal_form(ty@, type_map_view(definitions@)) is Optional),
{
    matches!(normalize(ty, definitions), Type::Optional(_))
}

/// A normal form without the layer that admits `undefined`.
pub open spec fn without_optional(normal: SpecType) -> SpecType {
    match normal {
        SpecType::Optional(inner) => *inner,
        _ => normal,
    }
}

/// The values of a type but `undefined`.
pub fn strip_optional(ty: &Type, definitions: &StringMap<Type>) -> (stripped: Type)
    ensures
        stripped@ == without_optional(normal_form(ty@, type_map_view(definitions@))),
{
    match normalize(ty, definitions) {
        Type::Optional(inner) => *inner,
        other => other,
    }
}

/// A normal form without the layer that admits `null`.
pub open spec fn without_nullable(
    normal: SpecType,
    definitions: Map<Seq<char>, SpecType>,
) -> SpecType {
    match normal {
        SpecType::Optional(inner) => SpecType::Optional(
            Box::new(
                match normal_form(*inner, definitions) {
                    SpecType::Nullable(payload) => *payload,
                    other => other,
                },
            ),
        ),
        SpecType::Nullable(inner) => *inner,
        _ => normal,
    }
}

/// Whether the payload of an optional normal form is a name that unfolds to an
/// optional type again.
pub open spec fn endlessly_optional(
    normal: SpecType,
    definitions: Map<Seq<char>, SpecType>,
) -> bool {
    normal is Optional && normal_form(*normal->Optional_0, definitions) is Optional
}

/// Take the layer that admits `null` off a normal form.
pub fn take_nullable(ty: &Type, definitions: &StringMap<Type>) -> (stripped: Type)
    ensures
        stripped@ == without_nullable(
            normal_form(ty@, type_map_view(definitions@)),
            type_map_view(definitions@),
        ),
{
    match normalize(ty, definitions) {
        Type::Optional(inner) => match normalize(&inner, definitions) {
            Type::Nullable(payload) => Type::Optional(payload),
            other => Type::Optional(Box::new(other)),
        },
        Type::Nullable(inner) => *inner,
        other => other,
    }
}

/// The values of a type but `null`.
pub fn strip_nullable(ty: &Type, definitions: &StringMap<Type>) -> (stripped: Type)
    requires
        !endlessly_optional(
            normal_form(ty@, type_map_view(definitions@)),
            type_map_view(definitions@),
        ),
    ensures
        stripped@ == without_nullable(
            normal_form(ty@, type_map_view(definitions@)),
            type_map_view(definitions@),
        ),
{
    take_nullable(ty, definitions)
}

// ---------------------------------------------------------------------------
// Recursive types
// ---------------------------------------------------------------------------
/// The types that recursive references stand for.
#[derive(Debug)]
pub struct RecursiveTypes {
    pub entries: Vec<(RecursiveTypeId, Type)>,
}

/// The type that a recursive reference stands for, from a position on.
pub open spec fn unfolding_of(
    entries: Seq<(RecursiveTypeId, Type)>,
    id: RecursiveTypeId,
    from: int,
) -> Option<SpecType>
    decreases entries.len() - from,
{
    if from >= entries.len() {
        None
    } else if entries[from].0 == id {
        Some(entries[from].1@)
    } else {
        unfolding_of(entries, id, from + 1)
    }
}

impl RecursiveTypes {
    /// The type that a recursive reference stands for.
    pub open spec fn unfolding(&self, id: RecursiveTypeId) -> Option<SpecType> {
        unfolding_of(self.entries@, id, 0)
    }

    /// The type that a recursive reference stands for.
    pub fn get(&self, id: RecursiveTypeId) -> (ty: Option<&Type>)
        ensures
            crate::rows::type_view(ty) == self.unfolding(id),
    {
        let mut index: usize = 0;
        while index < self.entries.len()
            invariant
                index <= self.entries.len(),
                self.unfolding(id) == unfolding_of(self.entries@, id, index as int),
            decreases self.entries.len() - index,
        {
            if self.entries[index].0 == id {
                return Some(&self.entries[index].1);
            }
            index += 1;
        }
        None
    }
}

/// A type with one recursive reference at its root unfolded.
pub open spec fn unfolded_once(ty: SpecType, recursive: RecursiveTypes) -> SpecType {
    match ty {
        SpecType::Recursive(id) => match recursive.unfolding(id) {
            Some(head) => head,
            None => ty,
        },
        _ => ty,
    }
}

/// Unfold one recursive reference where the outer constructor is needed.
pub fn unfold_recursive_type_once(ty: &Type, recursive: &RecursiveTypes) -> (unfolded: Type)
    ensures
        unfolded@ == unfolded_once(ty@, *recursive),
{
    match ty {
        Type::Recursive(id) => match recursive.get(*id) {
            Some(head) => head.clone(),
            None => ty.clone(),
        },
        _ => ty.clone(),
    }
}

/// The rule that replaces each recursive reference by the normal form of what it
/// stands for.
pub open spec fn unfolding_rule(
    recursive: RecursiveTypes,
    definitions: Map<Seq<char>, SpecType>,
) -> spec_fn(SpecType) -> Option<SpecType> {
    |node: SpecType|
        match node {
            SpecType::Recursive(id) => match recursive.unfolding(id) {
                Some(head) => Some(normal_form(head, definitions)),
                None => None,
            },
            _ => None,
        }
}

/// Replaces recursive references by the normal forms of what they stand for.
pub struct Unfolding<'a> {
    pub recursive: &'a RecursiveTypes,
    pub definitions: &'a StringMap<Type>,
}

impl<'a> TypeRewrite for Unfolding<'a> {
    open spec fn rule(&self) -> spec_fn(SpecType) -> Option<SpecType> {
        unfolding_rule(*self.recursive, type_map_view(self.definitions@))
    }

    fn rewrite(&self, node: &Type) -> (replacement: Option<Type>) {
        match node {
            Type::Recursive(id) => match self.recursive.get(*id) {
                Some(head) => Some(normalize(head, self.definitions)),
                None => None,
            },
            _ => None,
        }
    }
}

/// Bring a type into normal form and unfold its recursive references once. The
/// references inside what they stand for remain.
pub fn normalize_for_demand(
    ty: &Type,
    definitions: &StringMap<Type>,
    recursive: &RecursiveTypes,
) -> (normal: Type)
    ensures
        normal@ == mapped(
            normal_form(ty@, type_map_view(definitions@)),
            unfolding_rule(*recursive, type_map_view(definitions@)),
        ),
{
    let normal = normalize(ty, definitions);
    let unfolding = Unfolding { recursive, definitions };
    map_type(&normal, &unfolding)
}

// ---------------------------------------------------------------------------
// Reflection
// ---------------------------------------------------------------------------
/// Whether the labels of a type cannot be told yet.
pub open spec fn labels_unresolved(ty: SpecType, builtins: Seq<Seq<char>>) -> bool
    decreases ty,
{
    match ty {
        SpecType::Deferred | SpecType::Variable(_) | SpecType::Meta(_) => true,
        SpecType::Named(name) => !builtins.contains(name),
        SpecType::Recursive(_) => false,
        SpecType::Apply { callee, args } => labels_unresolved(*callee, builtins)
            || some_labels_unresolved(args, builtins),
        SpecType::Function { params, result, .. } => some_labels_unresolved(params, builtins)
            || labels_unresolved(*result, builtins),
        SpecType::Optional(inner) | SpecType::Nullable(inner) => labels_unresolved(
            *inner,
            builtins,
        ),
        SpecType::Tuple(items) => some_labels_unresolved(items, builtins),
        SpecType::Record(row) => !(row.tail is Closed),
        SpecType::Variant(row) => !(row.tail is Closed) || exists|i: int|
            0 <= i < row.entries.len() && entry_labels_unresolved(
                #[trigger] row.entries[i],
                builtins,
            ),
        SpecType::SlotRecord { data, slots } => !(data.tail is Closed) || !(slots.tail is Closed),
    }
}

pub open spec fn some_labels_unresolved(types: Seq<SpecType>, builtins: Seq<Seq<char>>) -> bool
    decreases types,
{
    exists|i: int| 0 <= i < types.len() && labels_unresolved(#[trigger] types[i], builtins)
}

pub open spec fn entry_labels_unresolved(entry: SpecRowEntry, builtins: Seq<Seq<char>>) -> bool
    decreases entry,
{
    match entry {
        SpecRowEntry::Tag { payload, .. } => some_labels_unresolved(payload, builtins),
        SpecRowEntry::Field { ty, .. } => labels_unresolved(ty, builtins),
        SpecRowEntry::Literal { .. } => false,
    }
}

/// Whether the labels of a type cannot be told yet.
pub fn reflection_subject_is_unresolved(ty: &Type, builtins: &Vec<String>) -> (unresolved: bool)
    ensures
        unresolved == labels_unresolved(ty@, texts_view(builtins@)),
    decreases ty,
{
    match ty {
        Type::Deferred => true,
        Type::Variable(_) => true,
        Type::Meta(_) => true,
        Type::Named(name) => !texts_contain(builtins, name.as_str()),
        Type::Recursive(_) => false,
        Type::Apply { callee, args } => reflection_subject_is_unresolved(callee, builtins)
            || some_subject_is_unresolved(args, builtins),
        Type::Function { params, result, .. } => some_subject_is_unresolved(params, builtins)
            || reflection_subject_is_unresolved(result, builtins),
        Type::Optional(inner) | Type::Nullable(inner) => reflection_subject_is_unresolved(
            inner,
            builtins,
        ),
        Type::Tuple(items) => some_subject_is_unresolved(items, builtins),
        Type::Record(row) => {
            assert(row@.tail == row.tail);
            !matches!(row.tail, RowTail::Closed)
        },
        Type::Variant(row) => {
            assert(row@.tail == row.tail);
            !matches!(row.tail, RowTail::Closed) || some_entry_is_unresolved(row, builtins)
        },
        Type::SlotRecord { data, slots } => {
            assert(data@.tail == data.tail);
            assert(slots@.tail == slots.tail);
            !matches!(data.tail, RowTail::Closed) || !matches!(slots.tail, RowTail::Closed)
        },
    }
}

fn some_subject_is_unresolved(types: &Vec<Type>, builtins: &Vec<String>) -> (unresolved: bool)
    ensures
        unresolved == some_labels_unresolved(types_view(types@), texts_view(builtins@)),
    decreases types,
{
    let mut index: usize = 0;
    while index < types.len()
        invariant
            index <= types.len(),
            forall|i: int|
                0 <= i < index ==> !labels_unresolved(
                    #[trigger] types_view(types@)[i],
                    texts_view(builtins@),
                ),
        decreases types.len() - index,
    {
        if reflection_subject_is_unresolved(&types[index], builtins) {
            assert(types_view(types@)[index as int] == types@[index as int]@);
            return true;
        }
        index += 1;
    }
    false
}

fn some_entry_is_unresolved(row: &Row, builtins: &Vec<String>) -> (unresolved: bool)
    ensures
        unresolved == exists|i: int|
            0 <= i < row@.entries.len() && entry_labels_unresolved(
                #[trigger] row@.entries[i],
                texts_view(builtins@),
            ),
    decreases row,
{
    let mut index: usize = 0;
    while index < row.entries.len()
        invariant
            index <= row.entries.len(),
            forall|i: int|
                0 <= i < index ==> !entry_labels_unresolved(
                    #[trigger] row@.entries[i],
                    texts_view(builtins@),
                ),
        decreases row.entries.len() - index,
    {
        assert(row@.entries[index as int] == row.entries@[index as int]@);
        let unresolved = match &row.entries[index] {
            RowEntry::Tag { payload, .. } => some_subject_is_unresolved(payload, builtins),
            RowEntry::Field { ty, .. } => reflection_subject_is_unresolved(ty, builtins),
            RowEntry::Literal { .. } => false,
        };
        if unresolved {
            assert(entry_labels_unresolved(row@.entries[index as int], texts_view(builtins@)));
            return true;
        }
        index += 1;
    }
    false
}

// ---------------------------------------------------------------------------
// Laws
// ---------------------------------------------------------------------------
/// The condition of a layer that admits an empty value around one that admits
/// `undefined`.
pub open spec fn is_stacked() -> spec_fn(SpecType) -> bool {
    |node: SpecType|
        match node {
            SpecType::Optional(inner) => *inner is Optional,
            SpecType::Nullable(inner) => *inner is Optional,
            _ => false,
        }
}

/// In a normal form no layer that admits an empty value stands around one that
/// admits `undefined`.
pub proof fn normal_forms_are_not_stacked(
    ty: SpecType,
    definitions: Map<Seq<char>, SpecType>,
    visited: Set<Seq<char>>,
)
    requires
        definitions.dom().finite(),
    ensures
        !some_node(normalized(ty, definitions, visited), is_stacked()),
    decreases definitions.dom().difference(visited).len(), ty,
{
    match ty {
        SpecType::Named(name) => {
            if definitions.contains_key(name) && !visited.contains(name) {
                unvisited_shrinks(definitions, visited, name);
                normal_forms_are_not_stacked(definitions[name], definitions, visited.insert(name));
            }
        },
        SpecType::Apply { callee, args } => {
            normal_forms_are_not_stacked(*callee, definitions, visited);
            normal_lists_are_not_stacked(args, definitions, visited);
        },
        SpecType::Function { params, result, .. } => {
            normal_lists_are_not_stacked(params, definitions, visited);
            normal_forms_are_not_stacked(*result, definitions, visited);
        },
        SpecType::Optional(inner) => {
            normal_forms_are_not_stacked(*inner, definitions, visited);
            optional_keeps_order(normalized(*inner, definitions, visited));
        },
        SpecType::Nullable(inner) => {
            normal_forms_are_not_stacked(*inner, definitions, visited);
            nullable_keeps_order(normalized(*inner, definitions, visited));
        },
        SpecType::Tuple(items) => {
            normal_lists_are_not_stacked(items, definitions, visited);
        },
        SpecType::Record(row) => {
            normal_rows_are_not_stacked(row, definitions, visited);
        },
        SpecType::Variant(row) => {
            normal_rows_are_not_stacked(row, definitions, visited);
        },
        SpecType::SlotRecord { data, slots } => {
            normal_rows_are_not_stacked(*data, definitions, visited);
            normal_rows_are_not_stacked(*slots, definitions, visited);
        },
        _ => {},
    }
}

proof fn optional_keeps_order(inner: SpecType)
    requires
        !some_node(inner, is_stacked()),
    ensures
        !some_node(optional_of(inner), is_stacked()),
{
}

proof fn nullable_keeps_order(inner: SpecType)
    requires
        !some_node(inner, is_stacked()),
    ensures
        !some_node(nullable_of(inner), is_stacked()),
{
    if let SpecType::Optional(payload) = inner {
        let nullable = SpecType::Nullable(payload);
        assert(!some_node(*payload, is_stacked()));
        assert(!(is_stacked())(inner));
        assert(!some_node(nullable, is_stacked()));
    }
}

proof fn normal_lists_are_not_stacked(
    types: Seq<SpecType>,
    definitions: Map<Seq<char>, SpecType>,
    visited: Set<Seq<char>>,
)
    requires
        definitions.dom().finite(),
    ensures
        !some_node_in(normalized_all(types, definitions, visited), is_stacked()),
    decreases definitions.dom().difference(visited).len(), types,
{
    let normal = normalized_all(types, definitions, visited);
    assert forall|i: int| 0 <= i < normal.len() implies !some_node(
        #[trigger] normal[i],
        is_stacked(),
    ) by {
        normal_forms_are_not_stacked(types[i], definitions, visited);
    }
}

proof fn normal_rows_are_not_stacked(
    row: SpecRow,
    definitions: Map<Seq<char>, SpecType>,
    visited: Set<Seq<char>>,
)
    requires
        definitions.dom().finite(),
    ensures
        !some_node_in_row(normalized_row(row, definitions, visited), is_stacked()),
    decreases definitions.dom().difference(visited).len(), row,
{
    let normal = normalized_row(row, definitions, visited);
    assert forall|i: int| 0 <= i < normal.entries.len() implies !some_node_in_entry(
        #[trigger] normal.entries[i],
        is_stacked(),
    ) by {
        match row.entries[i] {
            SpecRowEntry::Field { ty, .. } => {
                normal_forms_are_not_stacked(ty, definitions, visited);
            },
            SpecRowEntry::Tag { payload, .. } => {
                normal_lists_are_not_stacked(payload, definitions, visited);
            },
            SpecRowEntry::Literal { .. } => {},
        }
    }
}

/// The condition of a name that has a definition.
pub open spec fn is_defined(definitions: Map<Seq<char>, SpecType>) -> spec_fn(SpecType) -> bool {
    |node: SpecType| node is Named && definitions.contains_key(node->Named_0)
}

/// The condition of a defined name whose rank is not below a bound.
pub open spec fn is_ranked_from(
    definitions: Map<Seq<char>, SpecType>,
    rank: spec_fn(Seq<char>) -> nat,
    bound: nat,
) -> spec_fn(SpecType) -> bool {
    |node: SpecType|
        node is Named && definitions.contains_key(node->Named_0) && rank(node->Named_0) >= bound
}

/// Whether every definition refers only to names of a lower rank.
pub open spec fn well_founded(
    definitions: Map<Seq<char>, SpecType>,
    rank: spec_fn(Seq<char>) -> nat,
) -> bool {
    forall|name: Seq<char>| #[trigger]
        definitions.contains_key(name) ==> !some_node(
            definitions[name],
            is_ranked_from(definitions, rank, rank(name)),
        )
}

proof fn ranked_names_are_replaced(
    ty: SpecType,
    definitions: Map<Seq<char>, SpecType>,
    visited: Set<Seq<char>>,
    rank: spec_fn(Seq<char>) -> nat,
    bound: nat,
)
    requires
        definitions.dom().finite(),
        well_founded(definitions, rank),
        forall|name: Seq<char>| #[trigger] visited.contains(name) ==> bound <= rank(name),
        !some_node(ty, is_ranked_from(definitions, rank, bound)),
    ensures
        !some_node(normalized(ty, definitions, visited), is_defined(definitions)),
    decreases definitions.dom().difference(visited).len(), ty,
{
    let test = is_ranked_from(definitions, rank, bound);
    let defined = is_defined(definitions);
    match ty {
        SpecType::Named(name) => {
            if definitions.contains_key(name) {
                assert(!test(ty));
                assert(!visited.contains(name));
                unvisited_shrinks(definitions, visited, name);
                ranked_names_are_replaced(
                    definitions[name],
                    definitions,
                    visited.insert(name),
                    rank,
                    rank(name),
                );
            }
        },
        SpecType::Apply { callee, args } => {
            ranked_names_are_replaced(*callee, definitions, visited, rank, bound);
            ranked_lists_are_replaced(args, definitions, visited, rank, bound);
        },
        SpecType::Function { params, result, .. } => {
            ranked_lists_are_replaced(params, definitions, visited, rank, bound);
            ranked_names_are_replaced(*result, definitions, visited, rank, bound);
        },
        SpecType::Optional(inner) => {
            ranked_names_are_replaced(*inner, definitions, visited, rank, bound);
            let normal = normalized(*inner, definitions, visited);
            assert(!some_node(optional_of(normal), defined));
        },
        SpecType::Nullable(inner) => {
            ranked_names_are_replaced(*inner, definitions, visited, rank, bound);
            let normal = normalized(*inner, definitions, visited);
            if let SpecType::Optional(payload) = normal {
                assert(!some_node(*payload, defined));
                assert(!some_node(SpecType::Nullable(payload), defined));
            }
            assert(!some_node(nullable_of(normal), defined));
        },
        SpecType::Tuple(items) => {
            ranked_lists_are_replaced(items, definitions, visited, rank, bound);
        },
        SpecType::Record(row) => {
            ranked_rows_are_replaced(row, definitions, visited, rank, bound);
        },
        SpecType::Variant(row) => {
            ranked_rows_are_replaced(row, definitions, visited, rank, bound);
        },
        SpecType::SlotRecord { data, slots } => {
            ranked_rows_are_replaced(*data, definitions, visited, rank, bound);
            ranked_rows_are_replaced(*slots, definitions, visited, rank, bound);
        },
        _ => {},
    }
}

proof fn ranked_lists_are_replaced(
    types: Seq<SpecType>,
    definitions: Map<Seq<char>, SpecType>,
    visited: Set<Seq<char>>,
    rank: spec_fn(Seq<char>) -> nat,
    bound: nat,
)
    requires
        definitions.dom().finite(),
        well_founded(definitions, rank),
        forall|name: Seq<char>| #[trigger] visited.contains(name) ==> bound <= rank(name),
        !some_node_in(types, is_ranked_from(definitions, rank, bound)),
    ensures
        !some_node_in(normalized_all(types, definitions, visited), is_defined(definitions)),
    decreases definitions.dom().difference(visited).len(), types,
{
    let normal = normalized_all(types, definitions, visited);
    assert forall|i: int| 0 <= i < normal.len() implies !some_node(
        #[trigger] normal[i],
        is_defined(definitions),
    ) by {
        assert(!some_node(types[i], is_ranked_from(definitions, rank, bound)));
        ranked_names_are_replaced(types[i], definitions, visited, rank, bound);
    }
}

proof fn ranked_rows_are_replaced(
    row: SpecRow,
    definitions: Map<Seq<char>, SpecType>,
    visited: Set<Seq<char>>,
    rank: spec_fn(Seq<char>) -> nat,
    bound: nat,
)
    requires
        definitions.dom().finite(),
        well_founded(definitions, rank),
        forall|name: Seq<char>| #[trigger] visited.contains(name) ==> bound <= rank(name),
        !some_node_in_row(row, is_ranked_from(definitions, rank, bound)),
    ensures
        !some_node_in_row(normalized_row(row, definitions, visited), is_defined(definitions)),
    decreases definitions.dom().difference(visited).len(), row,
{
    let normal = normalized_row(row, definitions, visited);
    assert forall|i: int| 0 <= i < normal.entries.len() implies !some_node_in_entry(
        #[trigger] normal.entries[i],
        is_defined(definitions),
    ) by {
        assert(!some_node_in_entry(row.entries[i], is_ranked_from(definitions, rank, bound)));
        match row.entries[i] {
            SpecRowEntry::Field { ty, .. } => {
                ranked_names_are_replaced(ty, definitions, visited, rank, bound);
            },
            SpecRowEntry::Tag { payload, .. } => {
                ranked_lists_are_replaced(payload, definitions, visited, rank, bound);
            },
            SpecRowEntry::Literal { .. } => {},
        }
    }
}

/// Where the definitions do not refer to each other in a circle, no defined name
/// remains in a normal form. `bound` is above the rank of each name in the type.
pub proof fn normal_forms_hold_no_defined_name(
    ty: SpecType,
    definitions: Map<Seq<char>, SpecType>,
    rank: spec_fn(Seq<char>) -> nat,
    bound: nat,
)
    requires
        definitions.dom().finite(),
        well_founded(definitions, rank),
        !some_node(ty, is_ranked_from(definitions, rank, bound)),
    ensures
        !some_node(normal_form(ty, definitions), is_defined(definitions)),
{
    ranked_names_are_replaced(ty, definitions, Set::empty(), rank, bound);
}

/// A recursive reference is unfolded once: the references inside what it stands for remain.
pub proof fn references_unfold_once(
    id: RecursiveTypeId,
    definitions: Map<Seq<char>, SpecType>,
    recursive: RecursiveTypes,
)
    requires
        definitions.dom().finite(),
        recursive.unfolding(id) is Some,
    ensures
        mapped(
            normal_form(SpecType::Recursive(id), definitions),
            unfolding_rule(recursive, definitions),
        ) == normal_form(recursive.unfolding(id)->0, definitions),
{
}

} // verus!
