//! Questions about rows and the shapes of types.
use crate::collections::StringMap;
use crate::schemes::TypeScheme;
use crate::text::{clone_texts, concat3, join, joined, same_text, texts_contain, texts_view};
use crate::type_ops::{is_named, literal_text, render_literal_value};
use crate::types::{
    clone_types, entries_view, types_view, Literal, Row, RowEntry, RowTail, SpecLiteral, SpecRow,
    SpecRowEntry, SpecType, Type,
};
use vstd::prelude::*;

verus! {

/// What an optional reference to a type denotes.
pub open spec fn type_view(ty: Option<&Type>) -> Option<SpecType> {
    match ty {
        Some(ty) => Some(ty@),
        None => None,
    }
}

/// What an optional type denotes.
pub open spec fn owned_type_view(ty: Option<Type>) -> Option<SpecType> {
    match ty {
        Some(ty) => Some(ty@),
        None => None,
    }
}

/// What an optional reference to a row denotes.
pub open spec fn row_view(row: Option<&Row>) -> Option<SpecRow> {
    match row {
        Some(row) => Some(row@),
        None => None,
    }
}

/// What an optional reference to a list of types denotes.
pub open spec fn payload_view(payload: Option<&Vec<Type>>) -> Option<Seq<SpecType>> {
    match payload {
        Some(payload) => Some(types_view(payload@)),
        None => None,
    }
}

// ---------------------------------------------------------------------------
// Labels
// ---------------------------------------------------------------------------
/// The label of a row entry; a literal is its own label.
pub open spec fn label_of(entry: SpecRowEntry) -> Seq<char> {
    match entry {
        SpecRowEntry::Field { name, .. } => name,
        SpecRowEntry::Tag { name, .. } => name,
        SpecRowEntry::Literal { value } => literal_text(value),
    }
}

/// The label of a row entry; a literal is its own label.
pub fn row_entry_label(entry: &RowEntry) -> (label: &str)
    ensures
        label@ == label_of(entry@),
{
    match entry {
        RowEntry::Field { name, .. } => name.as_str(),
        RowEntry::Tag { name, .. } => name.as_str(),
        RowEntry::Literal { value } => render_literal_value(value),
    }
}

/// The position of the first entry with a label, from a position on.
pub open spec fn label_position(entries: Seq<SpecRowEntry>, label: Seq<char>, from: int) -> Option<
    int,
>
    decreases entries.len() - from,
{
    if from >= entries.len() {
        None
    } else if label_of(entries[from]) == label {
        Some(from)
    } else {
        label_position(entries, label, from + 1)
    }
}

/// The position of a label is that of its first entry.
pub proof fn label_position_is_first(entries: Seq<SpecRowEntry>, label: Seq<char>, from: int)
    requires
        0 <= from,
    ensures
        match label_position(entries, label, from) {
            Some(index) => {
                &&& from <= index < entries.len()
                &&& label_of(entries[index]) == label
                &&& forall|i: int| from <= i < index ==> label_of(#[trigger] entries[i]) != label
            },
            None => forall|i: int|
                from <= i < entries.len() ==> label_of(#[trigger] entries[i]) != label,
        },
    decreases entries.len() - from,
{
    if from < entries.len() && label_of(entries[from]) != label {
        label_position_is_first(entries, label, from + 1);
    }
}

/// Find the first entry with a label.
pub fn row_entry_index(entries: &Vec<RowEntry>, label: &str) -> (index: Option<usize>)
    ensures
        match index {
            Some(index) => index < entries.len() && label_position(
                entries_view(entries@),
                label@,
                0,
            ) == Some(index as int),
            None => label_position(entries_view(entries@), label@, 0) is None,
        },
{
    let ghost all = entries_view(entries@);
    let mut index: usize = 0;
    while index < entries.len()
        invariant
            index <= entries.len(),
            all == entries_view(entries@),
            label_position(all, label@, 0) == label_position(all, label@, index as int),
        decreases entries.len() - index,
    {
        assert(all[index as int] == entries@[index as int]@);
        if same_text(row_entry_label(&entries[index]), label) {
            return Some(index);
        }
        index += 1;
    }
    None
}

/// An entry under another label; a literal has no label of its own to change.
pub open spec fn relabelled(entry: SpecRowEntry, label: Seq<char>) -> SpecRowEntry {
    match entry {
        SpecRowEntry::Field { ty, .. } => SpecRowEntry::Field { name: label, ty },
        SpecRowEntry::Tag { payload, .. } => SpecRowEntry::Tag { name: label, payload },
        SpecRowEntry::Literal { value } => SpecRowEntry::Literal { value },
    }
}

/// Give an entry another label.
pub fn relabel_row_entry(entry: &RowEntry, label: &str) -> (relabelled_entry: RowEntry)
    ensures
        relabelled_entry@ == relabelled(entry@, label@),
{
    match entry {
        RowEntry::Field { ty, .. } => RowEntry::Field { name: label.to_owned(), ty: ty.clone() },
        RowEntry::Tag { payload, .. } => {
            assert(entry@ == (SpecRowEntry::Tag {
                name: entry->Tag_name@,
                payload: types_view(payload@),
            }));
            RowEntry::Tag { name: label.to_owned(), payload: clone_types(payload) }
        },
        RowEntry::Literal { value } => RowEntry::Literal { value: value.clone() },
    }
}

/// The type of the field that a row has under a label.
pub open spec fn field_type(row: SpecRow, label: Seq<char>) -> Option<SpecType> {
    match label_position(row.entries, label, 0) {
        Some(index) => match row.entries[index] {
            SpecRowEntry::Field { ty, .. } => Some(ty),
            _ => None,
        },
        None => None,
    }
}

/// The type of the field that a row has under a label.
pub fn row_field_type<'a>(row: &'a Row, label: &str) -> (ty: Option<&'a Type>)
    ensures
        type_view(ty) == field_type(row@, label@),
{
    match row_entry_index(&row.entries, label) {
        Some(index) => {
            assert(row@.entries[index as int] == row.entries@[index as int]@);
            match &row.entries[index] {
                RowEntry::Field { ty, .. } => Some(ty),
                _ => None,
            }
        },
        None => None,
    }
}

// ---------------------------------------------------------------------------
// Record shapes
// ---------------------------------------------------------------------------
/// A field that a record type asks for.
pub struct ExpectedRecordField<'a> {
    pub name: &'a str,
    pub ty: &'a Type,
}

/// The fields that a record type asks for, and whether it admits others.
pub struct ExpectedRecordShape<'a> {
    pub fields: Vec<ExpectedRecordField<'a>>,
    pub open: bool,
}

/// The fields of a record shape, each a name and a type, and whether it admits others.
pub ghost struct SpecRecordShape {
    pub fields: Seq<(Seq<char>, SpecType)>,
    pub open: bool,
}

impl<'a> ExpectedRecordShape<'a> {
    pub open spec fn view(&self) -> SpecRecordShape {
        SpecRecordShape {
            fields: Seq::new(
                self.fields@.len(),
                |i: int| (self.fields@[i].name@, self.fields@[i].ty@),
            ),
            open: self.open,
        }
    }
}

/// Whether every entry of a row is a field.
pub open spec fn all_fields(row: SpecRow) -> bool {
    forall|i: int| 0 <= i < row.entries.len() ==> (#[trigger] row.entries[i]) is Field
}

/// The name and type of a field entry.
pub open spec fn field_of(entry: SpecRowEntry) -> (Seq<char>, SpecType) {
    (entry->Field_name, entry->Field_ty)
}

/// The record shape of a row: its fields in order. A row with tags or literals
/// is no record.
pub fn literal_record_type<'a>(row: &'a Row) -> (shape: Option<ExpectedRecordShape<'a>>)
    ensures
        match shape {
            Some(shape) => {
                &&& all_fields(row@)
                &&& shape@ == (SpecRecordShape {
                    fields: row@.entries.map_values(|entry: SpecRowEntry| field_of(entry)),
                    open: row@.tail is Open,
                })
            },
            None => !all_fields(row@),
        },
{
    let mut fields: Vec<ExpectedRecordField<'a>> = Vec::new();
    let mut index: usize = 0;
    while index < row.entries.len()
        invariant
            index <= row.entries.len(),
            fields.len() == index,
            forall|i: int|
                0 <= i < index ==> {
                    &&& (#[trigger] row@.entries[i]) is Field
                    &&& field_of(row@.entries[i]) == (fields@[i].name@, fields@[i].ty@)
                },
        decreases row.entries.len() - index,
    {
        assert(row@.entries[index as int] == row.entries@[index as int]@);
        match &row.entries[index] {
            RowEntry::Field { name, ty } => {
                fields.push(ExpectedRecordField { name: name.as_str(), ty });
            },
            _ => {
                return None;
            },
        }
        index += 1;
    }
    let shape = ExpectedRecordShape { fields, open: matches!(row.tail, RowTail::Open) };
    assert(shape@.fields =~= row@.entries.map_values(|entry: SpecRowEntry| field_of(entry)));
    Some(shape)
}

/// A row by whether it is closed.
#[derive(Debug)]
pub enum RowSource {
    Closed(Row),
    Open(Row),
}

impl RowSource {
    /// Sort a row by its tail: a variable tail counts as open.
    pub fn from_row(row: Row) -> (source: Self)
        ensures
            source == (if row.tail is Closed {
                RowSource::Closed(row)
            } else {
                RowSource::Open(row)
            }),
    {
        if matches!(row.tail, RowTail::Closed) {
            RowSource::Closed(row)
        } else {
            RowSource::Open(row)
        }
    }
}

// ---------------------------------------------------------------------------
// Variant rows
// ---------------------------------------------------------------------------
/// Whether every entry of a row is a tag.
pub open spec fn all_tags(row: SpecRow) -> bool {
    forall|i: int| 0 <= i < row.entries.len() ==> (#[trigger] row.entries[i]) is Tag
}

/// The payload of the last entry with a tag's name.
pub open spec fn last_payload(entries: Seq<SpecRowEntry>, tag: Seq<char>) -> Option<Seq<SpecType>>
    decreases entries.len(),
{
    if entries.len() == 0 {
        None
    } else {
        match entries.last() {
            SpecRowEntry::Tag { name, payload } => if name == tag {
                Some(payload)
            } else {
                last_payload(entries.drop_last(), tag)
            },
            _ => last_payload(entries.drop_last(), tag),
        }
    }
}

/// Look up the payload of a tag in a row of tags. The outer `None` says that the
/// row does not hold tags alone.
pub fn variant_payload_lookup<'a>(row: &'a Row, tag: &str) -> (lookup: Option<
    Option<&'a Vec<Type>>,
>)
    ensures
        match lookup {
            Some(found) => all_tags(row@) && payload_view(found) == last_payload(
                row@.entries,
                tag@,
            ),
            None => !all_tags(row@),
        },
{
    let ghost all = row@.entries;
    let mut found: Option<&'a Vec<Type>> = None;
    let mut index: usize = 0;
    while index < row.entries.len()
        invariant
            index <= row.entries.len(),
            all == row@.entries,
            forall|i: int| 0 <= i < index ==> (#[trigger] row@.entries[i]) is Tag,
            payload_view(found) == last_payload(all.take(index as int), tag@),
        decreases row.entries.len() - index,
    {
        proof {
            assert(all[index as int] == row.entries@[index as int]@);
            let longer = all.take(index + 1);
            assert(longer.drop_last() =~= all.take(index as int));
            assert(longer.last() == all[index as int]);
        }
        match &row.entries[index] {
            RowEntry::Tag { name, payload } => {
                assert(types_view(payload@).len() == payload.len());
                if same_text(name.as_str(), tag) {
                    found = Some(payload);
                }
            },
            _ => {
                return None;
            },
        }
        index += 1;
    }
    assert(all.take(all.len() as int) =~= all);
    Some(found)
}

/// Look up the payload of a tag in a row that is not open. The outer `None` says
/// that the row is open or does not hold tags alone.
pub fn literal_variant_payload_lookup<'a>(row: &'a Row, tag: &str) -> (lookup: Option<
    Option<&'a Vec<Type>>,
>)
    ensures
        match lookup {
            Some(found) => {
                &&& !(row@.tail is Open)
                &&& all_tags(row@)
                &&& payload_view(found) == last_payload(row@.entries, tag@)
            },
            None => row@.tail is Open || !all_tags(row@),
        },
{
    if matches!(row.tail, RowTail::Open) {
        return None;
    }
    variant_payload_lookup(row, tag)
}

/// The payload of a tag in a row of tags that is not open.
pub open spec fn known_payload(row: SpecRow, tag: Seq<char>) -> Option<Seq<SpecType>> {
    if row.tail is Open || !all_tags(row) {
        None
    } else {
        last_payload(row.entries, tag)
    }
}

/// The payload of a tag in a row of tags that is not open.
pub fn literal_variant_payload<'a>(row: &'a Row, tag: &str) -> (payload: Option<&'a Vec<Type>>)
    ensures
        payload_view(payload) == known_payload(row@, tag@),
{
    match literal_variant_payload_lookup(row, tag) {
        Some(found) => found,
        None => None,
    }
}

/// A tag with the types that it carries.
pub struct VariantTagShape<'a> {
    pub name: &'a str,
    pub payload: &'a Vec<Type>,
}

/// The name and payload of a tag entry.
pub open spec fn tag_of(entry: SpecRowEntry) -> (Seq<char>, Seq<SpecType>) {
    (entry->Tag_name, entry->Tag_payload)
}

/// The tags of a list of tag shapes.
pub open spec fn tags_view(tags: Seq<VariantTagShape<'_>>) -> Seq<(Seq<char>, Seq<SpecType>)> {
    Seq::new(tags.len(), |i: int| (tags[i].name@, types_view(tags[i].payload@)))
}

/// The tags of a row in order. A row with fields or literals has none.
pub fn variant_tags<'a>(row: &'a Row) -> (tags: Option<Vec<VariantTagShape<'a>>>)
    ensures
        match tags {
            Some(tags) => all_tags(row@) && tags_view(tags@) == row@.entries.map_values(
                |entry: SpecRowEntry| tag_of(entry),
            ),
            None => !all_tags(row@),
        },
{
    let mut tags: Vec<VariantTagShape<'a>> = Vec::new();
    let mut index: usize = 0;
    while index < row.entries.len()
        invariant
            index <= row.entries.len(),
            tags.len() == index,
            forall|i: int|
                0 <= i < index ==> {
                    &&& (#[trigger] row@.entries[i]) is Tag
                    &&& tag_of(row@.entries[i]) == (tags@[i].name@, types_view(tags@[i].payload@))
                },
        decreases row.entries.len() - index,
    {
        assert(row@.entries[index as int] == row.entries@[index as int]@);
        match &row.entries[index] {
            RowEntry::Tag { name, payload } => {
                assert(types_view(payload@).len() == payload.len());
                tags.push(VariantTagShape { name: name.as_str(), payload });
            },
            _ => {
                return None;
            },
        }
        index += 1;
    }
    assert(tags_view(tags@) =~= row@.entries.map_values(|entry: SpecRowEntry| tag_of(entry)));
    Some(tags)
}

/// Whether every entry of a row is a literal.
pub open spec fn all_literals(row: SpecRow) -> bool {
    forall|i: int| 0 <= i < row.entries.len() ==> (#[trigger] row.entries[i]) is Literal
}

/// The literals of a list.
pub open spec fn literals_view(literals: Seq<&Literal>) -> Seq<SpecLiteral> {
    Seq::new(literals.len(), |i: int| literals[i]@)
}

/// The literals of a row in order. A row with fields or tags has none.
pub fn literal_variant_members<'a>(row: &'a Row) -> (literals: Option<Vec<&'a Literal>>)
    ensures
        match literals {
            Some(literals) => all_literals(row@) && literals_view(literals@)
                == row@.entries.map_values(|entry: SpecRowEntry| entry->Literal_value),
            None => !all_literals(row@),
        },
{
    let mut literals: Vec<&'a Literal> = Vec::new();
    let mut index: usize = 0;
    while index < row.entries.len()
        invariant
            index <= row.entries.len(),
            literals.len() == index,
            forall|i: int|
                0 <= i < index ==> {
                    &&& (#[trigger] row@.entries[i]) is Literal
                    &&& row@.entries[i]->Literal_value == literals@[i]@
                },
        decreases row.entries.len() - index,
    {
        assert(row@.entries[index as int] == row.entries@[index as int]@);
        match &row.entries[index] {
            RowEntry::Literal { value } => {
                literals.push(value);
            },
            _ => {
                return None;
            },
        }
        index += 1;
    }
    assert(literals_view(literals@) =~= row@.entries.map_values(
        |entry: SpecRowEntry| entry->Literal_value,
    ));
    Some(literals)
}

/// Whether a row lists a literal.
pub open spec fn lists_literal(row: SpecRow) -> bool {
    exists|i: int| 0 <= i < row.entries.len() && (#[trigger] row.entries[i]) is Literal
}

/// Whether a row lists a literal.
pub fn row_has_literal_entries(row: &Row) -> (found: bool)
    ensures
        found == lists_literal(row@),
{
    let mut index: usize = 0;
    while index < row.entries.len()
        invariant
            index <= row.entries.len(),
            forall|i: int| 0 <= i < index ==> !((#[trigger] row@.entries[i]) is Literal),
        decreases row.entries.len() - index,
    {
        assert(row@.entries[index as int] == row.entries@[index as int]@);
        if matches!(row.entries[index], RowEntry::Literal { .. }) {
            return true;
        }
        index += 1;
    }
    false
}

/// What a variant row lists: tags or literals.
#[derive(Debug, Clone, Copy, PartialEq, Eq, Structural)]
pub enum VariantEntryKind {
    Tag,
    Literal,
}

/// What an entry makes of a variant row.
pub open spec fn entry_kind(entry: SpecRowEntry) -> Option<VariantEntryKind> {
    match entry {
        SpecRowEntry::Tag { .. } => Some(VariantEntryKind::Tag),
        SpecRowEntry::Literal { .. } => Some(VariantEntryKind::Literal),
        SpecRowEntry::Field { .. } => None,
    }
}

/// What an entry makes of a variant row.
pub fn row_entry_variant_kind(entry: &RowEntry) -> (kind: Option<VariantEntryKind>)
    ensures
        kind == entry_kind(entry@),
{
    match entry {
        RowEntry::Tag { .. } => Some(VariantEntryKind::Tag),
        RowEntry::Literal { .. } => Some(VariantEntryKind::Literal),
        RowEntry::Field { .. } => None,
    }
}

/// The kind of the first entry that has one, from a position on.
pub open spec fn first_kind(entries: Seq<SpecRowEntry>, from: int) -> Option<VariantEntryKind>
    decreases entries.len() - from,
{
    if from >= entries.len() {
        None
    } else if entry_kind(entries[from]) is Some {
        entry_kind(entries[from])
    } else {
        first_kind(entries, from + 1)
    }
}

/// The kind of the first entry that has one.
pub fn variant_entry_kind(entries: &Vec<RowEntry>) -> (kind: Option<VariantEntryKind>)
    ensures
        kind == first_kind(entries_view(entries@), 0),
{
    let ghost all = entries_view(entries@);
    let mut index: usize = 0;
    while index < entries.len()
        invariant
            index <= entries.len(),
            all == entries_view(entries@),
            first_kind(all, 0) == first_kind(all, index as int),
        decreases entries.len() - index,
    {
        assert(all[index as int] == entries@[index as int]@);
        let kind = row_entry_variant_kind(&entries[index]);
        if kind.is_some() {
            return kind;
        }
        index += 1;
    }
    None
}

/// Whether a literal can be a value of a base type.
pub open spec fn literal_fits_base(literal: SpecLiteral, base: Seq<char>) -> bool {
    match literal {
        SpecLiteral::Bool(_) => base == "Bool"@,
        SpecLiteral::String(_) => base == "Text"@,
        SpecLiteral::Number(_) => base == "Int"@ || base == "Float"@,
        SpecLiteral::Regex(_) => false,
    }
}

/// Whether a literal union has a member of a base type.
pub fn literal_union_accepts_base_type(literals: &Vec<&Literal>, base: &str) -> (accepts: bool)
    ensures
        accepts == exists|i: int|
            0 <= i < literals.len() && literal_fits_base(#[trigger] literals@[i]@, base@),
{
    let mut index: usize = 0;
    while index < literals.len()
        invariant
            index <= literals.len(),
            forall|i: int| 0 <= i < index ==> !literal_fits_base(#[trigger] literals@[i]@, base@),
        decreases literals.len() - index,
    {
        let fits = match literals[index] {
            Literal::Bool(_) => same_text(base, "Bool"),
            Literal::String(_) => same_text(base, "Text"),
            Literal::Number(_) => same_text(base, "Int") || same_text(base, "Float"),
            Literal::Regex(_) => false,
        };
        if fits {
            assert(literal_fits_base(literals@[index as int]@, base@));
            return true;
        }
        index += 1;
    }
    false
}

/// What a literal is called in a message.
pub open spec fn literal_kind(literal: SpecLiteral) -> Seq<char> {
    match literal {
        SpecLiteral::Bool(_) => "bool literal"@,
        SpecLiteral::String(_) => "text literal"@,
        SpecLiteral::Number(_) => "number literal"@,
        SpecLiteral::Regex(_) => "regex literal"@,
    }
}

/// What a literal is called in a message.
pub fn literal_kind_name(literal: &Literal) -> (name: &'static str)
    ensures
        name@ == literal_kind(literal@),
{
    match literal {
        Literal::Bool(_) => "bool literal",
        Literal::String(_) => "text literal",
        Literal::Number(_) => "number literal",
        Literal::Regex(_) => "regex literal",
    }
}

/// The members of a literal union as they are written, with bars between them.
pub open spec fn literal_union_text(literals: Seq<SpecLiteral>) -> Seq<char> {
    if literals.len() == 0 {
        "an empty literal union"@
    } else {
        joined(literals.map_values(|literal: SpecLiteral| literal_text(literal)), " | "@)
    }
}

/// The members of a literal union as they are written, with bars between them.
pub fn render_literal_union(literals: &Vec<&Literal>) -> (text: String)
    ensures
        text@ == literal_union_text(literals_view(literals@)),
{
    if literals.len() == 0 {
        return "an empty literal union".to_owned();
    }
    let mut texts: Vec<String> = Vec::new();
    let mut index: usize = 0;
    while index < literals.len()
        invariant
            index <= literals.len(),
            texts.len() == index,
            forall|i: int|
                0 <= i < index ==> (#[trigger] texts@[i])@ == literal_text(literals@[i]@),
        decreases literals.len() - index,
    {
        texts.push(render_literal_value(literals[index]).to_owned());
        index += 1;
    }
    assert(texts_view(texts@) =~= literals_view(literals@).map_values(
        |literal: SpecLiteral| literal_text(literal),
    ));
    join(&texts, " | ")
}

/// The type whose only value is a literal.
pub open spec fn singleton(literal: SpecLiteral) -> SpecType {
    SpecType::Variant(
        SpecRow { entries: seq![SpecRowEntry::Literal { value: literal }], tail: RowTail::Closed },
    )
}

/// The type whose only value is a literal.
pub fn literal_type(literal: Literal) -> (ty: Type)
    ensures
        ty@ == singleton(literal@),
{
    let mut entries: Vec<RowEntry> = Vec::new();
    entries.push(RowEntry::Literal { value: literal });
    let row = Row { entries, tail: RowTail::Closed };
    assert(row@.entries[0] == row.entries@[0]@);
    assert(row@.entries =~= seq![SpecRowEntry::Literal { value: literal@ }]);
    Type::Variant(row)
}

/// The text literal that writes a label.
pub fn label_literal(label: &str) -> (literal: Literal)
    ensures
        literal@ == SpecLiteral::String("\""@ + label@ + "\""@),
{
    Literal::String(concat3("\"", label, "\""))
}

/// Whether a text literal is written with double quotes.
pub open spec fn double_quoted(text: Seq<char>) -> bool {
    text.len() >= 2 && text[0] == '"' && text.last() == '"'
}

/// The label that a text literal names: what it decodes to, if it is written
/// with double quotes.
pub fn string_literal_label(text: &str, decoded: String) -> (label: Option<String>)
    ensures
        label == (if double_quoted(text@) {
            Some(decoded)
        } else {
            None
        }),
{
    let length: usize = text.unicode_len();
    if length >= 2 && text.get_char(0) == '"' && text.get_char(length - 1) == '"' {
        Some(decoded)
    } else {
        None
    }
}

/// The row of a literal-union domain: a variant, or a set of a variant.
pub open spec fn union_domain(domain: SpecType) -> Option<SpecRow> {
    match domain {
        SpecType::Variant(row) => Some(row),
        SpecType::Apply { callee, args } => if *callee == SpecType::Named("Set"@) && args.len()
            == 1 {
            match args[0] {
                SpecType::Variant(row) => Some(row),
                _ => None,
            }
        } else {
            None
        },
        _ => None,
    }
}

/// The row of a literal-union domain: a variant, or a set of a variant.
pub fn literal_union_domain_row(domain: &Type) -> (row: Option<&Row>)
    ensures
        row_view(row) == union_domain(domain@),
{
    match domain {
        Type::Variant(row) => Some(row),
        Type::Apply { callee, args } => {
            assert(types_view(args@).len() == args.len());
            if is_named(callee, "Set") && args.len() == 1 {
                assert(types_view(args@)[0] == args@[0]@);
                match &args[0] {
                    Type::Variant(row) => Some(row),
                    _ => None,
                }
            } else {
                None
            }
        },
        _ => None,
    }
}

// ---------------------------------------------------------------------------
// Empty values
// ---------------------------------------------------------------------------
/// The two values that say that there is no value.
#[derive(Debug, Clone, Copy, PartialEq, Eq, Structural)]
pub enum EmptyValue {
    Undefined,
    Null,
}

impl EmptyValue {
    /// How an empty value is written in a message.
    pub open spec fn text(self) -> Seq<char> {
        match self {
            EmptyValue::Undefined => "`undefined`"@,
            EmptyValue::Null => "`null`"@,
        }
    }

    /// How an empty value is written in a message.
    pub fn render(self) -> (text: &'static str)
        ensures
            text@ == self.text(),
    {
        match self {
            EmptyValue::Undefined => "`undefined`",
            EmptyValue::Null => "`null`",
        }
    }

    /// A type that admits the empty value beside the values of another type.
    pub open spec fn wraps(self, ty: SpecType) -> SpecType {
        match self {
            EmptyValue::Undefined => SpecType::Optional(Box::new(ty)),
            EmptyValue::Null => SpecType::Nullable(Box::new(ty)),
        }
    }
}

/// Adds an empty value at the end of a list that does not hold it yet.
pub open spec fn with_empty(values: Seq<EmptyValue>, value: EmptyValue) -> Seq<EmptyValue> {
    if values.contains(value) {
        values
    } else {
        values.push(value)
    }
}

/// The empty values that the outer layers of a type admit, outermost first and
/// each once, after those already seen.
pub open spec fn peeled_values(ty: SpecType, seen: Seq<EmptyValue>) -> Seq<EmptyValue>
    decreases ty,
{
    match ty {
        SpecType::Optional(inner) => peeled_values(*inner, with_empty(seen, EmptyValue::Undefined)),
        SpecType::Nullable(inner) => peeled_values(*inner, with_empty(seen, EmptyValue::Null)),
        _ => seen,
    }
}

/// The type below the layers that admit empty values.
pub open spec fn peeled_payload(ty: SpecType) -> SpecType
    decreases ty,
{
    match ty {
        SpecType::Optional(inner) => peeled_payload(*inner),
        SpecType::Nullable(inner) => peeled_payload(*inner),
        _ => ty,
    }
}

fn contains_empty(values: &Vec<EmptyValue>, value: EmptyValue) -> (found: bool)
    ensures
        found == values@.contains(value),
{
    let mut index: usize = 0;
    while index < values.len()
        invariant
            index <= values.len(),
            forall|i: int| 0 <= i < index ==> values@[i] != value,
        decreases values.len() - index,
    {
        if values[index] == value {
            return true;
        }
        index += 1;
    }
    false
}

/// Split a type into the empty values that its outer layers admit and the type
/// below.
pub fn peel_empty_values(ty: &Type) -> (peeled: (Vec<EmptyValue>, &Type))
    ensures
        peeled.0@ == peeled_values(ty@, Seq::empty()),
        peeled.1@ == peeled_payload(ty@),
{
    let mut values: Vec<EmptyValue> = Vec::new();
    let mut payload = ty;
    loop
        invariant
            peeled_values(ty@, Seq::empty()) == peeled_values(payload@, values@),
            peeled_payload(ty@) == peeled_payload(payload@),
        decreases payload,
    {
        match payload {
            Type::Optional(inner) => {
                if !contains_empty(&values, EmptyValue::Undefined) {
                    values.push(EmptyValue::Undefined);
                }
                payload = &**inner;
            },
            Type::Nullable(inner) => {
                if !contains_empty(&values, EmptyValue::Null) {
                    values.push(EmptyValue::Null);
                }
                payload = &**inner;
            },
            _ => {
                return (values, payload);
            },
        }
    }
}

/// A type with layers for empty values, outermost first.
pub open spec fn rewrapped(ty: SpecType, empties: Seq<EmptyValue>) -> SpecType
    decreases empties.len(),
{
    if empties.len() == 0 {
        ty
    } else {
        empties[0].wraps(rewrapped(ty, empties.skip(1)))
    }
}

/// Put layers for empty values around a type, outermost first.
pub fn rewrap_empty_values(ty: Type, empties: &Vec<EmptyValue>) -> (wrapped: Type)
    ensures
        wrapped@ == rewrapped(ty@, empties@),
{
    let ghost bare = ty@;
    let mut wrapped = ty;
    let mut index: usize = empties.len();
    assert(empties@.skip(index as int) =~= Seq::empty());
    while index > 0
        invariant
            index <= empties.len(),
            wrapped@ == rewrapped(bare, empties@.skip(index as int)),
        decreases index,
    {
        index -= 1;
        assert(empties@.skip(index as int).skip(1) =~= empties@.skip(index + 1));
        wrapped =
        match empties[index] {
            EmptyValue::Undefined => Type::Optional(Box::new(wrapped)),
            EmptyValue::Null => Type::Nullable(Box::new(wrapped)),
        };
    }
    assert(empties@.skip(0) =~= empties@);
    wrapped
}

/// Whether a type admits no empty value at its outermost layer.
pub open spec fn is_bare(ty: SpecType) -> bool {
    !(ty is Optional) && !(ty is Nullable)
}

proof fn peeling_undoes_wrapping_after(
    ty: SpecType,
    empties: Seq<EmptyValue>,
    seen: Seq<EmptyValue>,
)
    requires
        is_bare(ty),
        empties.no_duplicates(),
        forall|i: int| 0 <= i < empties.len() ==> !seen.contains(#[trigger] empties[i]),
    ensures
        peeled_values(rewrapped(ty, empties), seen) == seen + empties,
        peeled_payload(rewrapped(ty, empties)) == ty,
    decreases empties.len(),
{
    if empties.len() == 0 {
        assert(seen + empties =~= seen);
    } else {
        let rest = empties.skip(1);
        let next = seen.push(empties[0]);
        assert(!seen.contains(empties[0]));
        assert forall|i: int| 0 <= i < rest.len() implies !next.contains(#[trigger] rest[i]) by {
            assert(rest[i] == empties[i + 1]);
            assert(!seen.contains(empties[i + 1]));
            if next.contains(rest[i]) {
                let j = choose|j: int| 0 <= j < next.len() && next[j] == rest[i];
                if j < seen.len() {
                    assert(seen[j] == rest[i]);
                }
            }
        }
        assert forall|i: int, j: int| 0 <= i < j < rest.len() implies rest[i] != rest[j] by {
            assert(empties[i + 1] != empties[j + 1]);
        }
        peeling_undoes_wrapping_after(ty, rest, next);
        assert(next + rest =~= seen + empties);
        assert(rewrapped(ty, empties) == empties[0].wraps(rewrapped(ty, rest)));
    }
}

/// Peeling takes off exactly the layers that wrapping put on.
pub proof fn peeling_undoes_wrapping(ty: SpecType, empties: Seq<EmptyValue>)
    requires
        is_bare(ty),
        empties.no_duplicates(),
    ensures
        peeled_values(rewrapped(ty, empties), Seq::empty()) == empties,
        peeled_payload(rewrapped(ty, empties)) == ty,
{
    peeling_undoes_wrapping_after(ty, empties, Seq::empty());
    assert(Seq::<EmptyValue>::empty() + empties =~= empties);
}

/// The number of outer layers that admit an empty value.
pub open spec fn empty_layers(ty: SpecType) -> nat
    decreases ty,
{
    match ty {
        SpecType::Optional(inner) => 1 + empty_layers(*inner),
        SpecType::Nullable(inner) => 1 + empty_layers(*inner),
        _ => 0,
    }
}

proof fn wrapping_undoes_peeling_after(ty: SpecType, seen: Seq<EmptyValue>)
    requires
        peeled_values(ty, seen).len() == seen.len() + empty_layers(ty),
    ensures
        peeled_values(ty, seen).take(seen.len() as int) == seen,
        rewrapped(peeled_payload(ty), peeled_values(ty, seen).skip(seen.len() as int)) == ty,
    decreases ty,
{
    let values = peeled_values(ty, seen);
    match ty {
        SpecType::Optional(inner) => {
            peeled_values_grow(*inner, with_empty(seen, EmptyValue::Undefined));
            wrapping_undoes_peeling_after(*inner, seen.push(EmptyValue::Undefined));
            wrapping_undoes_peeling_layer(ty, *inner, EmptyValue::Undefined, seen);
        },
        SpecType::Nullable(inner) => {
            peeled_values_grow(*inner, with_empty(seen, EmptyValue::Null));
            wrapping_undoes_peeling_after(*inner, seen.push(EmptyValue::Null));
            wrapping_undoes_peeling_layer(ty, *inner, EmptyValue::Null, seen);
        },
        _ => {
            assert(values.take(seen.len() as int) =~= seen);
            assert(values.skip(seen.len() as int) =~= Seq::empty());
        },
    }
}

proof fn wrapping_undoes_peeling_layer(
    ty: SpecType,
    inner: SpecType,
    value: EmptyValue,
    seen: Seq<EmptyValue>,
)
    requires
        ty == value.wraps(inner),
        peeled_values(ty, seen) == peeled_values(inner, seen.push(value)),
        peeled_payload(ty) == peeled_payload(inner),
        peeled_values(ty, seen).len() == seen.len() + 1 + empty_layers(inner),
        peeled_values(inner, seen.push(value)).take((seen.len() + 1) as int) == seen.push(value),
        rewrapped(peeled_payload(inner), peeled_values(inner, seen.push(value)).skip((seen.len() + 1) as int))
            == inner,
    ensures
        peeled_values(ty, seen).take(seen.len() as int) == seen,
        rewrapped(peeled_payload(ty), peeled_values(ty, seen).skip(seen.len() as int)) == ty,
{
    let values = peeled_values(ty, seen);
    let next = seen.push(value);
    assert(values.take(seen.len() as int) =~= values.take((seen.len() + 1) as int).take(
        seen.len() as int,
    ));
    assert(next.take(seen.len() as int) =~= seen);
    let layers = values.skip(seen.len() as int);
    assert(layers[0] == values.take((seen.len() + 1) as int)[seen.len() as int]);
    assert(layers.skip(1) =~= values.skip((seen.len() + 1) as int));
}

proof fn peeled_values_grow(ty: SpecType, seen: Seq<EmptyValue>)
    ensures
        peeled_values(ty, seen).len() <= seen.len() + empty_layers(ty),
    decreases ty,
{
    match ty {
        SpecType::Optional(inner) => {
            peeled_values_grow(*inner, with_empty(seen, EmptyValue::Undefined));
        },
        SpecType::Nullable(inner) => {
            peeled_values_grow(*inner, with_empty(seen, EmptyValue::Null));
        },
        _ => {},
    }
}

/// Wrapping again what was peeled gives the type back, if no layer repeats.
pub proof fn wrapping_undoes_peeling(ty: SpecType)
    requires
        peeled_values(ty, Seq::empty()).len() == empty_layers(ty),
    ensures
        rewrapped(peeled_payload(ty), peeled_values(ty, Seq::empty())) == ty,
{
    wrapping_undoes_peeling_after(ty, Seq::empty());
    let values = peeled_values(ty, Seq::empty());
    assert(values.skip(0) =~= values);
}

/// The empty values as a message names them.
pub fn render_empty_values(empties: &Vec<EmptyValue>) -> (text: String)
    ensures
        text@ == joined(empties@.map_values(|value: EmptyValue| value.text()), " or "@),
{
    let mut texts: Vec<String> = Vec::new();
    let mut index: usize = 0;
    while index < empties.len()
        invariant
            index <= empties.len(),
            texts.len() == index,
            forall|i: int| 0 <= i < index ==> (#[trigger] texts@[i])@ == empties@[i].text(),
        decreases empties.len() - index,
    {
        texts.push(empties[index].render().to_owned());
        index += 1;
    }
    assert(texts_view(texts@) =~= empties@.map_values(|value: EmptyValue| value.text()));
    join(&texts, " or ")
}

// ---------------------------------------------------------------------------
// Shapes of types
// ---------------------------------------------------------------------------
/// Whether a type that was computed at compile time cannot be lifted to a value.
pub open spec fn is_non_liftable(ty: SpecType) -> bool {
    !(ty is Deferred || ty is Meta || ty is Recursive || ty is SlotRecord)
}

/// Whether a type that was computed at compile time cannot be lifted to a value.
pub fn is_non_liftable_artifact_type(ty: &Type) -> (non_liftable: bool)
    ensures
        non_liftable == is_non_liftable(ty@),
{
    match ty {
        Type::Named(_)
        | Type::Variable(_)
        | Type::Apply { .. }
        | Type::Function { .. }
        | Type::Optional(_)
        | Type::Nullable(_)
        | Type::Tuple(_)
        | Type::Record(_)
        | Type::Variant(_) => true,
        _ => false,
    }
}

/// Whether a type is unknown at its root.
pub open spec fn unknown_shape(ty: SpecType) -> bool {
    ty is Deferred || ty is Variable || ty is Meta
}

/// Whether the root of a type is known well enough to be reported.
pub fn reportable_type_shape(ty: &Type) -> (reportable: bool)
    ensures
        reportable == !unknown_shape(ty@),
{
    !matches!(ty, Type::Deferred | Type::Variable(_) | Type::Meta(_))
}

/// Whether two type constructors are known to differ.
pub fn applied_type_constructor_mismatch(expected: &Type, actual: &Type) -> (mismatch: bool)
    ensures
        mismatch == (!unknown_shape(expected@) && !unknown_shape(actual@) && expected@ != actual@),
{
    reportable_type_shape(expected) && reportable_type_shape(actual) && *expected != *actual
}

/// The type of a function all of whose parameters are required.
pub open spec fn plain_function(params: Seq<SpecType>, result: SpecType) -> SpecType {
    SpecType::Function { params, result: Box::new(result), required: params.len() }
}

/// The type of a function all of whose parameters are required.
pub fn function_type(params: Vec<Type>, result: Type) -> (ty: Type)
    ensures
        ty@ == plain_function(types_view(params@), result@),
{
    let required: usize = params.len();
    assert(types_view(params@).len() == params.len());
    Type::Function { params, result: Box::new(result), required }
}

/// A constructor applied to one type.
pub open spec fn applied1(constructor: Seq<char>, arg: SpecType) -> SpecType {
    SpecType::Apply { callee: Box::new(SpecType::Named(constructor)), args: seq![arg] }
}

/// A constructor applied to two types.
pub open spec fn applied2(constructor: Seq<char>, first: SpecType, second: SpecType) -> SpecType {
    SpecType::Apply { callee: Box::new(SpecType::Named(constructor)), args: seq![first, second] }
}

/// Apply a constructor to one type.
pub fn apply1(constructor: &str, arg: Type) -> (ty: Type)
    ensures
        ty@ == applied1(constructor@, arg@),
{
    let mut args: Vec<Type> = Vec::new();
    args.push(arg);
    let callee = Type::Named(constructor.to_owned());
    assert(types_view(args@) =~= seq![arg@]);
    assert(callee@ == SpecType::Named(constructor@));
    Type::Apply { callee: Box::new(callee), args }
}

/// Apply a constructor to two types.
pub fn apply2(constructor: &str, first: Type, second: Type) -> (ty: Type)
    ensures
        ty@ == applied2(constructor@, first@, second@),
{
    let mut args: Vec<Type> = Vec::new();
    args.push(first);
    args.push(second);
    let callee = Type::Named(constructor.to_owned());
    assert(types_view(args@) =~= seq![first@, second@]);
    assert(callee@ == SpecType::Named(constructor@));
    Type::Apply { callee: Box::new(callee), args }
}

/// The type of a value or an error.
pub fn result_type(ok_ty: Type, error_ty: Type) -> (ty: Type)
    ensures
        ty@ == applied2("Result"@, ok_ty@, error_ty@),
{
    apply2("Result", ok_ty, error_ty)
}

/// The two types of a result type.
pub open spec fn result_parts(ty: SpecType) -> Option<(SpecType, SpecType)> {
    match ty {
        SpecType::Apply { callee, args } => if args.len() == 2 && *callee == SpecType::Named(
            "Result"@,
        ) {
            Some((args[0], args[1]))
        } else {
            None
        },
        _ => None,
    }
}

/// The two types of a result type.
pub fn result_type_args(ty: &Type) -> (parts: Option<(&Type, &Type)>)
    ensures
        match parts {
            Some(parts) => result_parts(ty@) == Some((parts.0@, parts.1@)),
            None => result_parts(ty@) is None,
        },
{
    match ty {
        Type::Apply { callee, args } => {
            assert(types_view(args@).len() == args.len());
            if args.len() == 2 && is_named(callee, "Result") {
                assert(types_view(args@)[0] == args@[0]@);
                assert(types_view(args@)[1] == args@[1]@);
                Some((&args[0], &args[1]))
            } else {
                None
            }
        },
        _ => None,
    }
}

/// Whether a type is a result type.
pub fn is_result_type(ty: &Type) -> (is_result: bool)
    ensures
        is_result == (result_parts(ty@) is Some),
{
    result_type_args(ty).is_some()
}

/// The parts of a result type are those that it was made of.
pub proof fn result_parts_of_result(ok_ty: SpecType, error_ty: SpecType)
    ensures
        result_parts(applied2("Result"@, ok_ty, error_ty)) == Some((ok_ty, error_ty)),
{
}

/// The variant without members.
pub open spec fn no_variant() -> SpecType {
    SpecType::Variant(SpecRow { entries: Seq::empty(), tail: RowTail::Closed })
}

/// The variant without members.
pub fn empty_variant_type() -> (ty: Type)
    ensures
        ty@ == no_variant(),
{
    let row = Row { entries: Vec::new(), tail: RowTail::Closed };
    assert(row@.entries =~= Seq::empty());
    Type::Variant(row)
}

/// The type in the first one-place payload of a tag, from a position on.
pub open spec fn sole_payload(entries: Seq<SpecRowEntry>, tag: Seq<char>, from: int) -> Option<
    SpecType,
>
    decreases entries.len() - from,
{
    if from >= entries.len() {
        None
    } else {
        match entries[from] {
            SpecRowEntry::Tag { name, payload } => if name == tag && payload.len() == 1 {
                Some(payload[0])
            } else {
                sole_payload(entries, tag, from + 1)
            },
            _ => sole_payload(entries, tag, from + 1),
        }
    }
}

/// The type that a variant's tag carries, if it carries one.
pub fn single_tag_payload_type(ty: &Type, tag: &str) -> (payload_type: Option<Type>)
    ensures
        owned_type_view(payload_type) == (match ty@ {
            SpecType::Variant(row) => sole_payload(row.entries, tag@, 0),
            _ => None,
        }),
{
    let row = match ty {
        Type::Variant(row) => row,
        _ => {
            return None;
        },
    };
    let ghost all = row@.entries;
    let mut index: usize = 0;
    while index < row.entries.len()
        invariant
            index <= row.entries.len(),
            all == row@.entries,
            ty@ == SpecType::Variant(row@),
            sole_payload(all, tag@, 0) == sole_payload(all, tag@, index as int),
        decreases row.entries.len() - index,
    {
        assert(all[index as int] == row.entries@[index as int]@);
        if let RowEntry::Tag { name, payload } = &row.entries[index] {
            assert(types_view(payload@).len() == payload.len());
            if same_text(name.as_str(), tag) && payload.len() == 1 {
                assert(types_view(payload@)[0] == payload@[0]@);
                return Some(payload[0].clone());
            }
        }
        index += 1;
    }
    None
}

/// Whether a type is a map with its two arguments.
pub fn is_map_receiver_type(ty: &Type) -> (is_map: bool)
    ensures
        is_map == (ty@ is Apply && ty@->Apply_args.len() == 2 && *ty@->Apply_callee
            == SpecType::Named("Map"@)),
{
    match ty {
        Type::Apply { callee, args } => {
            assert(types_view(args@).len() == args.len());
            args.len() == 2 && is_named(callee, "Map")
        },
        _ => false,
    }
}

/// The type of a tag constructor whose payload is not known yet.
pub fn result_constructor_type(tag: &str, arity: usize) -> (ty: Type)
    ensures
        ty@ == SpecType::Variant(
            SpecRow {
                entries: seq![
                    SpecRowEntry::Tag {
                        name: tag@,
                        payload: Seq::new(arity as nat, |i: int| SpecType::Deferred),
                    },
                ],
                tail: RowTail::Closed,
            },
        ),
{
    let mut payload: Vec<Type> = Vec::new();
    let mut index: usize = 0;
    while index < arity
        invariant
            index <= arity,
            payload.len() == index,
            forall|i: int| 0 <= i < index ==> (#[trigger] payload@[i])@ == SpecType::Deferred,
        decreases arity - index,
    {
        payload.push(Type::Deferred);
        index += 1;
    }
    assert(types_view(payload@) =~= Seq::new(arity as nat, |i: int| SpecType::Deferred));
    let entry = RowEntry::Tag { name: tag.to_owned(), payload };
    assert(entry@ == (SpecRowEntry::Tag { name: tag@, payload: types_view(payload@) }));
    let mut entries: Vec<RowEntry> = Vec::new();
    entries.push(entry);
    let row = Row { entries, tail: RowTail::Closed };
    assert(row@.entries =~= seq![entry@]);
    Type::Variant(row)
}

/// The members that the type `Bool` stands for.
pub open spec fn bool_row() -> SpecRow {
    SpecRow {
        entries: seq![
            SpecRowEntry::Literal { value: SpecLiteral::Bool(true) },
            SpecRowEntry::Literal { value: SpecLiteral::Bool(false) },
        ],
        tail: RowTail::Closed,
    }
}

/// The tags that a result type stands for.
pub open spec fn result_row(ok_ty: SpecType, error_ty: SpecType) -> SpecRow {
    SpecRow {
        entries: seq![
            SpecRowEntry::Tag { name: "Ok"@, payload: seq![ok_ty] },
            SpecRowEntry::Tag { name: "Err"@, payload: seq![error_ty] },
        ],
        tail: RowTail::Closed,
    }
}

/// The variant row that a match on a type goes by: its own, that of the
/// definition it names, or the one that `Bool` or a result type stands for.
pub open spec fn subject_row(
    ty: SpecType,
    definitions: Map<Seq<char>, SpecType>,
) -> Option<SpecRow> {
    match ty {
        SpecType::Variant(row) => Some(row),
        SpecType::Named(name) => if definitions.contains_key(name) && definitions[name] is Variant {
            Some(definitions[name]->Variant_0)
        } else if name == "Bool"@ {
            Some(bool_row())
        } else {
            None
        },
        _ => match result_parts(ty) {
            Some(parts) => Some(result_row(parts.0, parts.1)),
            None => None,
        },
    }
}

fn tag_entry(name: &str, payload_type: &Type) -> (entry: RowEntry)
    ensures
        entry@ == (SpecRowEntry::Tag { name: name@, payload: seq![payload_type@] }),
{
    let mut payload: Vec<Type> = Vec::new();
    payload.push(payload_type.clone());
    assert(types_view(payload@) =~= seq![payload_type@]);
    RowEntry::Tag { name: name.to_owned(), payload }
}

/// What an optional row denotes.
pub open spec fn owned_row_view(row: Option<Row>) -> Option<SpecRow> {
    match row {
        Some(row) => Some(row@),
        None => None,
    }
}

/// The variant row that a match on a type goes by.
pub fn subject_variant_row(ty: &Type, definitions: &StringMap<Type>) -> (row: Option<Row>)
    ensures
        owned_row_view(row) == subject_row(
            ty@,
            crate::type_ops::type_map_view(definitions@),
        ),
{
    if let Type::Variant(row) = ty {
        return Some(row.clone());
    }
    if let Type::Named(name) = ty {
        if let Some(defined) = definitions.get(name.as_str()) {
            if let Type::Variant(row) = defined {
                return Some(row.clone());
            }
        }
        if same_text(name.as_str(), "Bool") {
            let mut entries: Vec<RowEntry> = Vec::new();
            entries.push(RowEntry::Literal { value: Literal::Bool(true) });
            entries.push(RowEntry::Literal { value: Literal::Bool(false) });
            let row = Row { entries, tail: RowTail::Closed };
            assert(row.entries@[0]@ == SpecRowEntry::Literal { value: SpecLiteral::Bool(true) });
            assert(row.entries@[1]@ == SpecRowEntry::Literal { value: SpecLiteral::Bool(false) });
            assert(row@.entries =~= bool_row().entries);
            return Some(row);
        }
        return None;
    }
    match result_type_args(ty) {
        Some((ok_ty, error_ty)) => {
            let mut entries: Vec<RowEntry> = Vec::new();
            entries.push(tag_entry("Ok", ok_ty));
            entries.push(tag_entry("Err", error_ty));
            let row = Row { entries, tail: RowTail::Closed };
            assert(row@.entries =~= result_row(ok_ty@, error_ty@).entries);
            Some(row)
        },
        None => None,
    }
}

// ---------------------------------------------------------------------------
// Names
// ---------------------------------------------------------------------------
/// Whether a name is the placeholder that binds nothing.
pub fn name_is_placeholder(name: &str) -> (placeholder: bool)
    ensures
        placeholder == (name@ == "_"@),
{
    same_text(name, "_")
}

/// Whether a name is bound as a value without a declaration: `Map`, or one of
/// the functions that are evaluated at compile time.
pub fn builtin_value_name_is_bound(name: &str, comptime_functions: &Vec<String>) -> (bound: bool)
    ensures
        bound == (name@ == "Map"@ || texts_view(comptime_functions@).contains(name@)),
{
    same_text(name, "Map") || texts_contain(comptime_functions, name)
}

/// A reflection on the labels of a row.
#[derive(Debug, Clone, Copy, PartialEq, Eq, Structural)]
pub enum LabelReflection {
    KeysOf,
    TagsOf,
}

impl LabelReflection {
    /// The reflection that a name calls.
    pub open spec fn named(name: Seq<char>) -> Option<LabelReflection> {
        if name == "keysOf"@ {
            Some(LabelReflection::KeysOf)
        } else if name == "tagsOf"@ {
            Some(LabelReflection::TagsOf)
        } else {
            None
        }
    }

    /// The reflection that a name calls.
    pub fn from_name(name: &str) -> (reflection: Option<Self>)
        ensures
            reflection == LabelReflection::named(name@),
    {
        if same_text(name, "keysOf") {
            Some(LabelReflection::KeysOf)
        } else if same_text(name, "tagsOf") {
            Some(LabelReflection::TagsOf)
        } else {
            None
        }
    }
}

/// A value that is known at compile time.
#[derive(Debug)]
pub enum ComptimeValue {
    ReifiedType(Type),
    Literal(Literal),
    Bool(bool),
    LabelSet(Vec<String>),
}

/// The labels of a compile-time label set.
pub fn comptime_value_label_set(value: &ComptimeValue) -> (labels: Option<Vec<String>>)
    ensures
        match labels {
            Some(labels) => value is LabelSet && texts_view(labels@) == texts_view(
                value->LabelSet_0@,
            ),
            None => !(value is LabelSet),
        },
{
    match value {
        ComptimeValue::LabelSet(labels) => Some(clone_texts(labels)),
        _ => None,
    }
}

// ---------------------------------------------------------------------------
// Types of local names
// ---------------------------------------------------------------------------
/// What is known about the type of a local name.
#[derive(Debug)]
pub enum LocalValueType {
    Known(Type),
    Scheme(TypeScheme),
    Unknown,
}

/// The type of a local name, if there is one: that of a scheme is its body.
pub fn local_value_type_as_type(value: LocalValueType) -> (ty: Option<Type>)
    ensures
        ty == (match value {
            LocalValueType::Known(ty) => Some(ty),
            LocalValueType::Scheme(scheme) => Some(scheme.ty),
            LocalValueType::Unknown => None,
        }),
{
    match value {
        LocalValueType::Known(ty) => Some(ty),
        LocalValueType::Scheme(scheme) => Some(scheme.ty),
        LocalValueType::Unknown => None,
    }
}

/// Whether a map gives a name a known type.
pub open spec fn knows(types: Map<Seq<char>, LocalValueType>, name: Seq<char>, ty: SpecType) -> bool {
    types.contains_key(name) && types[name] is Known && types[name]->Known_0@ == ty
}

/// Whether every map of a list gives a name the same known type.
pub open spec fn all_know(
    alternatives: Seq<StringMap<LocalValueType>>,
    name: Seq<char>,
    ty: SpecType,
) -> bool {
    forall|i: int| 0 <= i < alternatives.len() ==> knows((#[trigger] alternatives[i])@, name, ty)
}

/// The type of a name that every alternative of a pattern binds: the one type
/// that all of them know it by, and otherwise unknown.
pub fn merged_or_pattern_local_type(
    name: &str,
    alternative_types: &Vec<StringMap<LocalValueType>>,
) -> (merged: LocalValueType)
    ensures
        match merged {
            LocalValueType::Known(ty) => alternative_types.len() > 0 && all_know(
                alternative_types@,
                name@,
                ty@,
            ),
            LocalValueType::Scheme(_) => false,
            LocalValueType::Unknown => alternative_types.len() == 0 || forall|ty: SpecType|
                !#[trigger] all_know(alternative_types@, name@, ty),
        },
{
    if alternative_types.len() == 0 {
        return LocalValueType::Unknown;
    }
    let first = match alternative_types[0].get(name) {
        Some(LocalValueType::Known(ty)) => ty,
        _ => {
            assert forall|ty: SpecType| !#[trigger] all_know(alternative_types@, name@, ty) by {
                assert(!knows(alternative_types@[0]@, name@, ty));
            }
            return LocalValueType::Unknown;
        },
    };
    assert(knows(alternative_types@[0]@, name@, first@));
    let mut index: usize = 0;
    while index < alternative_types.len()
        invariant
            index <= alternative_types.len(),
            alternative_types.len() > 0,
            knows(alternative_types@[0]@, name@, first@),
            forall|i: int|
                0 <= i < index ==> knows((#[trigger] alternative_types@[i])@, name@, first@),
        decreases alternative_types.len() - index,
    {
        let agrees = match alternative_types[index].get(name) {
            Some(LocalValueType::Known(ty)) => *ty == *first,
            _ => false,
        };
        if !agrees {
            assert forall|ty: SpecType| !#[trigger] all_know(alternative_types@, name@, ty) by {
                if ty == first@ {
                    assert(!knows(alternative_types@[index as int]@, name@, ty));
                } else {
                    assert(!knows(alternative_types@[0]@, name@, ty));
                }
            }
            return LocalValueType::Unknown;
        }
        index += 1;
    }
    LocalValueType::Known(first.clone())
}

// ---------------------------------------------------------------------------
// Statics of builtin types
// ---------------------------------------------------------------------------
/// Named types in order.
pub open spec fn members_view(members: Seq<(String, Type)>) -> Seq<(Seq<char>, SpecType)> {
    Seq::new(members.len(), |i: int| (members[i].0@, members[i].1@))
}

/// The statics of `Map`: an empty map, and a map from an array of entries.
pub open spec fn statics_of_map() -> Seq<(Seq<char>, SpecType)> {
    let key = SpecType::Variable("k"@);
    let value = SpecType::Variable("v"@);
    let map = applied2("Map"@, key, value);
    seq![
        ("empty"@, plain_function(Seq::empty(), map)),
        ("from"@, plain_function(seq![applied1("Array"@, SpecType::Tuple(seq![key, value]))], map)),
    ]
}

/// The statics of `Map`: an empty map, and a map from an array of entries.
pub fn map_statics() -> (members: Vec<(String, Type)>)
    ensures
        members_view(members@) == statics_of_map(),
{
    let map = apply2("Map", Type::Variable("k".to_owned()), Type::Variable("v".to_owned()));
    let mut entry: Vec<Type> = Vec::new();
    entry.push(Type::Variable("k".to_owned()));
    entry.push(Type::Variable("v".to_owned()));
    assert(types_view(entry@) =~= seq![SpecType::Variable("k"@), SpecType::Variable("v"@)]);
    let entries = apply1("Array", Type::Tuple(entry));
    let none: Vec<Type> = Vec::new();
    assert(types_view(none@) =~= Seq::empty());
    let mut from_params: Vec<Type> = Vec::new();
    from_params.push(entries);
    assert(types_view(from_params@) =~= seq![entries@]);
    let mut members: Vec<(String, Type)> = Vec::new();
    members.push(("empty".to_owned(), function_type(none, map.clone())));
    members.push(("from".to_owned(), function_type(from_params, map)));
    assert(members_view(members@) =~= statics_of_map());
    members
}

/// The statics that builtin types carry.
pub fn builtin_type_statics() -> (statics: Vec<(String, Vec<(String, Type)>)>)
    ensures
        statics.len() == 1,
        statics@[0].0@ == "Map"@,
        members_view(statics@[0].1@) == statics_of_map(),
{
    let mut statics: Vec<(String, Vec<(String, Type)>)> = Vec::new();
    statics.push(("Map".to_owned(), map_statics()));
    statics
}

} // verus!
