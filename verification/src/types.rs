//! The type language: types, rows, and literals.
use vstd::prelude::*;

verus! {

/// A literal as it is written in source text.
#[derive(Debug)]
pub enum Literal {
    Bool(bool),
    Number(String),
    String(String),
    Regex(String),
}

/// The identity of a recursive type.
#[derive(Debug, Clone, Copy, PartialEq, Eq, Structural)]
pub struct RecursiveTypeId(pub u64);

/// What a row may hold beyond its listed entries.
#[derive(Debug, Clone, Copy, PartialEq, Eq, Structural)]
pub enum RowTail {
    Closed,
    Open,
    Var(u32),
}

#[derive(Debug)]
pub enum RowEntry {
    Field { name: String, ty: Type },
    Tag { name: String, payload: Vec<Type> },
    Literal { value: Literal },
}

#[derive(Debug)]
pub struct Row {
    pub entries: Vec<RowEntry>,
    pub tail: RowTail,
}

#[derive(Debug)]
pub enum Type {
    Deferred,
    Named(String),
    Variable(String),
    Meta(u32),
    Recursive(RecursiveTypeId),
    Apply { callee: Box<Type>, args: Vec<Type> },
    Function { params: Vec<Type>, result: Box<Type>, required: usize },
    Optional(Box<Type>),
    Nullable(Box<Type>),
    Tuple(Vec<Type>),
    Record(Row),
    Variant(Row),
    SlotRecord { data: Box<Row>, slots: Box<Row> },
}

pub ghost enum SpecLiteral {
    Bool(bool),
    Number(Seq<char>),
    String(Seq<char>),
    Regex(Seq<char>),
}

pub ghost enum SpecRowEntry {
    Field { name: Seq<char>, ty: SpecType },
    Tag { name: Seq<char>, payload: Seq<SpecType> },
    Literal { value: SpecLiteral },
}

pub ghost struct SpecRow {
    pub entries: Seq<SpecRowEntry>,
    pub tail: RowTail,
}

pub ghost enum SpecType {
    Deferred,
    Named(Seq<char>),
    Variable(Seq<char>),
    Meta(u32),
    Recursive(RecursiveTypeId),
    Apply { callee: Box<SpecType>, args: Seq<SpecType> },
    Function { params: Seq<SpecType>, result: Box<SpecType>, required: nat },
    Optional(Box<SpecType>),
    Nullable(Box<SpecType>),
    Tuple(Seq<SpecType>),
    Record(SpecRow),
    Variant(SpecRow),
    SlotRecord { data: Box<SpecRow>, slots: Box<SpecRow> },
}

impl Literal {
    pub open spec fn view(&self) -> SpecLiteral {
        match self {
            Literal::Bool(value) => SpecLiteral::Bool(*value),
            Literal::Number(text) => SpecLiteral::Number(text@),
            Literal::String(text) => SpecLiteral::String(text@),
            Literal::Regex(text) => SpecLiteral::Regex(text@),
        }
    }
}

pub open spec fn types_view(types: Seq<Type>) -> Seq<SpecType>
    decreases types,
{
    Seq::new(
        types.len(),
        |i: int|
            if 0 <= i < types.len() {
                types[i].view()
            } else {
                SpecType::Deferred
            },
    )
}

pub open spec fn entries_view(entries: Seq<RowEntry>) -> Seq<SpecRowEntry>
    decreases entries,
{
    Seq::new(
        entries.len(),
        |i: int|
            if 0 <= i < entries.len() {
                entries[i].view()
            } else {
                SpecRowEntry::Literal { value: SpecLiteral::Bool(false) }
            },
    )
}

impl RowEntry {
    pub open spec fn view(&self) -> SpecRowEntry
        decreases self,
    {
        match self {
            RowEntry::Field { name, ty } => SpecRowEntry::Field { name: name@, ty: ty.view() },
            RowEntry::Tag { name, payload } => SpecRowEntry::Tag {
                name: name@,
                payload: types_view(payload@),
            },
            RowEntry::Literal { value } => SpecRowEntry::Literal { value: value.view() },
        }
    }
}

impl Row {
    pub open spec fn view(&self) -> SpecRow
        decreases self,
    {
        SpecRow { entries: entries_view(self.entries@), tail: self.tail }
    }
}

impl Type {
    pub open spec fn view(&self) -> SpecType
        decreases self,
    {
        match self {
            Type::Deferred => SpecType::Deferred,
            Type::Named(name) => SpecType::Named(name@),
            Type::Variable(name) => SpecType::Variable(name@),
            Type::Meta(id) => SpecType::Meta(*id),
            Type::Recursive(id) => SpecType::Recursive(*id),
            Type::Apply { callee, args } => SpecType::Apply {
                callee: Box::new(callee.view()),
                args: types_view(args@),
            },
            Type::Function { params, result, required } => SpecType::Function {
                params: types_view(params@),
                result: Box::new(result.view()),
                required: *required as nat,
            },
            Type::Optional(inner) => SpecType::Optional(Box::new(inner.view())),
            Type::Nullable(inner) => SpecType::Nullable(Box::new(inner.view())),
            Type::Tuple(items) => SpecType::Tuple(types_view(items@)),
            Type::Record(row) => SpecType::Record(row.view()),
            Type::Variant(row) => SpecType::Variant(row.view()),
            Type::SlotRecord { data, slots } => SpecType::SlotRecord {
                data: Box::new(data.view()),
                slots: Box::new(slots.view()),
            },
        }
    }
}

impl Clone for Literal {
    fn clone(&self) -> (copied: Literal)
        ensures
            copied@ == self@,
    {
        match self {
            Literal::Bool(value) => Literal::Bool(*value),
            Literal::Number(text) => Literal::Number(text.clone()),
            Literal::String(text) => Literal::String(text.clone()),
            Literal::Regex(text) => Literal::Regex(text.clone()),
        }
    }
}

pub fn clone_types(types: &Vec<Type>) -> (copied: Vec<Type>)
    ensures
        types_view(copied@) == types_view(types@),
    decreases types,
{
    let mut copied: Vec<Type> = Vec::new();
    let mut index: usize = 0;
    while index < types.len()
        invariant
            index <= types.len(),
            copied.len() == index,
            forall|i: int| 0 <= i < index ==> copied@[i].view() == types@[i].view(),
        decreases types.len() - index,
    {
        copied.push(types[index].clone());
        index += 1;
    }
    copied
}

pub fn clone_entries(entries: &Vec<RowEntry>) -> (copied: Vec<RowEntry>)
    ensures
        entries_view(copied@) == entries_view(entries@),
    decreases entries,
{
    let mut copied: Vec<RowEntry> = Vec::new();
    let mut index: usize = 0;
    while index < entries.len()
        invariant
            index <= entries.len(),
            copied.len() == index,
            forall|i: int| 0 <= i < index ==> copied@[i].view() == entries@[i].view(),
        decreases entries.len() - index,
    {
        copied.push(entries[index].clone());
        index += 1;
    }
    copied
}

impl Clone for RowEntry {
    fn clone(&self) -> (copied: RowEntry)
        ensures
            copied@ == self@,
        decreases self,
    {
        match self {
            RowEntry::Field { name, ty } => RowEntry::Field { name: name.clone(), ty: ty.clone() },
            RowEntry::Tag { name, payload } => RowEntry::Tag {
                name: name.clone(),
                payload: clone_types(payload),
            },
            RowEntry::Literal { value } => RowEntry::Literal { value: value.clone() },
        }
    }
}

impl Clone for Row {
    fn clone(&self) -> (copied: Row)
        ensures
            copied@ == self@,
        decreases self,
    {
        Row { entries: clone_entries(&self.entries), tail: self.tail }
    }
}

impl Clone for Type {
    fn clone(&self) -> (copied: Type)
        ensures
            copied@ == self@,
        decreases self,
    {
        match self {
            Type::Deferred => Type::Deferred,
            Type::Named(name) => Type::Named(name.clone()),
            Type::Variable(name) => Type::Variable(name.clone()),
            Type::Meta(id) => Type::Meta(*id),
            Type::Recursive(id) => Type::Recursive(*id),
            Type::Apply { callee, args } => Type::Apply {
                callee: Box::new((**callee).clone()),
                args: clone_types(args),
            },
            Type::Function { params, result, required } => Type::Function {
                params: clone_types(params),
                result: Box::new((**result).clone()),
                required: *required,
            },
            Type::Optional(inner) => Type::Optional(Box::new((**inner).clone())),
            Type::Nullable(inner) => Type::Nullable(Box::new((**inner).clone())),
            Type::Tuple(items) => Type::Tuple(clone_types(items)),
            Type::Record(row) => Type::Record(row.clone()),
            Type::Variant(row) => Type::Variant(row.clone()),
            Type::SlotRecord { data, slots } => Type::SlotRecord {
                data: Box::new((**data).clone()),
                slots: Box::new((**slots).clone()),
            },
        }
    }
}

impl Literal {
    /// Whether two literals are written alike.
    pub fn equals(&self, other: &Literal) -> (same: bool)
        ensures
            same == (self@ == other@),
    {
        match (self, other) {
            (Literal::Bool(left), Literal::Bool(right)) => *left == *right,
            (Literal::Number(left), Literal::Number(right)) => *left == *right,
            (Literal::String(left), Literal::String(right)) => *left == *right,
            (Literal::Regex(left), Literal::Regex(right)) => *left == *right,
            _ => false,
        }
    }
}

impl PartialEq for Literal {
    fn eq(&self, other: &Literal) -> (same: bool) {
        self.equals(other)
    }
}

impl vstd::std_specs::cmp::PartialEqSpecImpl for Literal {
    open spec fn obeys_eq_spec() -> bool {
        true
    }

    open spec fn eq_spec(&self, other: &Literal) -> bool {
        self@ == other@
    }
}

impl Eq for Literal {

}

/// Whether two lists of types are equal item by item.
pub fn same_types(left: &Vec<Type>, right: &Vec<Type>) -> (same: bool)
    ensures
        same == (types_view(left@) == types_view(right@)),
    decreases left,
{
    if left.len() != right.len() {
        assert(types_view(left@).len() != types_view(right@).len());
        return false;
    }
    let mut index: usize = 0;
    while index < left.len()
        invariant
            index <= left.len(),
            left.len() == right.len(),
            forall|i: int| 0 <= i < index ==> left@[i]@ == right@[i]@,
        decreases left.len() - index,
    {
        if !left[index].equals(&right[index]) {
            assert(types_view(left@)[index as int] != types_view(right@)[index as int]);
            return false;
        }
        index += 1;
    }
    assert(types_view(left@) =~= types_view(right@));
    true
}

/// Whether two lists of row entries are equal item by item.
pub fn same_entries(left: &Vec<RowEntry>, right: &Vec<RowEntry>) -> (same: bool)
    ensures
        same == (entries_view(left@) == entries_view(right@)),
    decreases left,
{
    if left.len() != right.len() {
        assert(entries_view(left@).len() != entries_view(right@).len());
        return false;
    }
    let mut index: usize = 0;
    while index < left.len()
        invariant
            index <= left.len(),
            left.len() == right.len(),
            forall|i: int| 0 <= i < index ==> left@[i]@ == right@[i]@,
        decreases left.len() - index,
    {
        if !left[index].equals(&right[index]) {
            assert(entries_view(left@)[index as int] != entries_view(right@)[index as int]);
            return false;
        }
        index += 1;
    }
    assert(entries_view(left@) =~= entries_view(right@));
    true
}

impl RowEntry {
    /// Whether two row entries say the same.
    pub fn equals(&self, other: &RowEntry) -> (same: bool)
        ensures
            same == (self@ == other@),
        decreases self,
    {
        match (self, other) {
            (
                RowEntry::Field { name: left_name, ty: left },
                RowEntry::Field { name: right_name, ty: right },
            ) => *left_name == *right_name && left.equals(right),
            (
                RowEntry::Tag { name: left_name, payload: left },
                RowEntry::Tag { name: right_name, payload: right },
            ) => *left_name == *right_name && same_types(left, right),
            (RowEntry::Literal { value: left }, RowEntry::Literal { value: right }) => left.equals(
                right,
            ),
            _ => false,
        }
    }
}

impl PartialEq for RowEntry {
    fn eq(&self, other: &RowEntry) -> (same: bool) {
        self.equals(other)
    }
}

impl vstd::std_specs::cmp::PartialEqSpecImpl for RowEntry {
    open spec fn obeys_eq_spec() -> bool {
        true
    }

    open spec fn eq_spec(&self, other: &RowEntry) -> bool {
        self@ == other@
    }
}

impl Eq for RowEntry {

}

impl Row {
    /// Whether two rows say the same.
    pub fn equals(&self, other: &Row) -> (same: bool)
        ensures
            same == (self@ == other@),
        decreases self,
    {
        self.tail == other.tail && same_entries(&self.entries, &other.entries)
    }
}

impl PartialEq for Row {
    fn eq(&self, other: &Row) -> (same: bool) {
        self.equals(other)
    }
}

impl vstd::std_specs::cmp::PartialEqSpecImpl for Row {
    open spec fn obeys_eq_spec() -> bool {
        true
    }

    open spec fn eq_spec(&self, other: &Row) -> bool {
        self@ == other@
    }
}

impl Eq for Row {

}

impl Type {
    /// Whether two types say the same.
    pub fn equals(&self, other: &Type) -> (same: bool)
        ensures
            same == (self@ == other@),
        decreases self,
    {
        match (self, other) {
            (Type::Deferred, Type::Deferred) => true,
            (Type::Named(left), Type::Named(right)) => *left == *right,
            (Type::Variable(left), Type::Variable(right)) => *left == *right,
            (Type::Meta(left), Type::Meta(right)) => *left == *right,
            (Type::Recursive(left), Type::Recursive(right)) => *left == *right,
            (
                Type::Apply { callee: left_callee, args: left },
                Type::Apply { callee: right_callee, args: right },
            ) => left_callee.equals(right_callee) && same_types(left, right),
            (
                Type::Function { params: left, result: left_result, required: left_required },
                Type::Function { params: right, result: right_result, required: right_required },
            ) => *left_required == *right_required && same_types(left, right) && left_result.equals(
                right_result,
            ),
            (Type::Optional(left), Type::Optional(right)) => left.equals(right),
            (Type::Nullable(left), Type::Nullable(right)) => left.equals(right),
            (Type::Tuple(left), Type::Tuple(right)) => same_types(left, right),
            (Type::Record(left), Type::Record(right)) => left.equals(right),
            (Type::Variant(left), Type::Variant(right)) => left.equals(right),
            (
                Type::SlotRecord { data: left_data, slots: left_slots },
                Type::SlotRecord { data: right_data, slots: right_slots },
            ) => left_data.equals(right_data) && left_slots.equals(right_slots),
            _ => false,
        }
    }
}

impl PartialEq for Type {
    fn eq(&self, other: &Type) -> (same: bool) {
        self.equals(other)
    }
}

impl vstd::std_specs::cmp::PartialEqSpecImpl for Type {
    open spec fn obeys_eq_spec() -> bool {
        true
    }

    open spec fn eq_spec(&self, other: &Type) -> bool {
        self@ == other@
    }
}

impl Eq for Type {

}

} // verus!
