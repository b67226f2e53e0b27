//! Definitions that name one another: the names in a type, in the order in which they
//! are read, and the type with what those names came to.
use crate::collections::StringSet;
use crate::diagnostics::{clone_diagnostics, diagnostics_view, Diagnostic, SpecDiagnostic};
use crate::text::texts_view;
use crate::types::{
    types_view, Row, RowEntry, SpecLiteral, SpecRow, SpecRowEntry, SpecType, Type,
};
use vstd::prelude::*;

verus! {

// ---------------------------------------------------------------------------
// The names in a type
// ---------------------------------------------------------------------------
/// The names of definitions that a type mentions, in the order in which it is read.
pub open spec fn mentioned(ty: SpecType, names: Set<Seq<char>>) -> Seq<Seq<char>>
    decreases ty, 0nat,
{
    match ty {
        SpecType::Named(name) => if names.contains(name) {
            seq![name]
        } else {
            Seq::empty()
        },
        SpecType::Apply { callee, args } => mentioned(*callee, names) + mentioned_in(
            args,
            names,
            args.len(),
        ),
        SpecType::Function { params, result, .. } => mentioned_in(params, names, params.len())
            + mentioned(*result, names),
        SpecType::Optional(inner) => mentioned(*inner, names),
        SpecType::Nullable(inner) => mentioned(*inner, names),
        SpecType::Tuple(items) => mentioned_in(items, names, items.len()),
        SpecType::Record(row) => mentioned_in_entries(row.entries, names, row.entries.len()),
        SpecType::Variant(row) => mentioned_in_entries(row.entries, names, row.entries.len()),
        _ => Seq::empty(),
    }
}

/// The names of definitions that the first types of a list mention.
pub open spec fn mentioned_in(types: Seq<SpecType>, names: Set<Seq<char>>, count: nat) -> Seq<
    Seq<char>,
>
    decreases types, count,
{
    if count == 0 || count > types.len() {
        Seq::empty()
    } else {
        mentioned_in(types, names, (count - 1) as nat) + mentioned(types[count - 1], names)
    }
}

/// The names of definitions that an entry of a row mentions.
pub open spec fn mentioned_in_entry(entry: SpecRowEntry, names: Set<Seq<char>>) -> Seq<Seq<char>>
    decreases entry, 0nat,
{
    match entry {
        SpecRowEntry::Field { ty, .. } => mentioned(ty, names),
        SpecRowEntry::Tag { payload, .. } => mentioned_in(payload, names, payload.len()),
        SpecRowEntry::Literal { .. } => Seq::empty(),
    }
}

/// The names of definitions that the first entries of a row mention.
pub open spec fn mentioned_in_entries(
    entries: Seq<SpecRowEntry>,
    names: Set<Seq<char>>,
    count: nat,
) -> Seq<Seq<char>>
    decreases entries, count,
{
    if count == 0 || count > entries.len() {
        Seq::empty()
    } else {
        mentioned_in_entries(entries, names, (count - 1) as nat) + mentioned_in_entry(
            entries[count - 1],
            names,
        )
    }
}

/// Add the names of definitions that a type mentions.
fn list_names(ty: &Type, names: &StringSet, found: &mut Vec<String>)
    ensures
        texts_view(final(found)@) == texts_view(old(found)@) + mentioned(ty@, names@),
    decreases ty,
{
    let ghost before = texts_view(found@);
    assert(before + Seq::<Seq<char>>::empty() =~= before);
    match ty {
        Type::Named(name) => {
            if names.contains(name.as_str()) {
                found.push(name.clone());
                assert(texts_view(found@) =~= before + seq![name@]);
            }
        },
        Type::Apply { callee, args } => {
            list_names(callee, names, found);
            list_names_in(args, names, found);
            assert(types_view(args@).len() == args.len());
            assert(texts_view(found@) =~= before + mentioned(ty@, names@));
        },
        Type::Function { params, result, .. } => {
            list_names_in(params, names, found);
            list_names(result, names, found);
            assert(types_view(params@).len() == params.len());
            assert(texts_view(found@) =~= before + mentioned(ty@, names@));
        },
        Type::Optional(inner) => list_names(inner, names, found),
        Type::Nullable(inner) => list_names(inner, names, found),
        Type::Tuple(items) => {
            list_names_in(items, names, found);
            assert(types_view(items@).len() == items.len());
        },
        Type::Record(row) => list_names_in_row(row, names, found),
        Type::Variant(row) => list_names_in_row(row, names, found),
        _ => {},
    }
}

fn list_names_in(types: &Vec<Type>, names: &StringSet, found: &mut Vec<String>)
    ensures
        texts_view(final(found)@) == texts_view(old(found)@) + mentioned_in(
            types_view(types@),
            names@,
            types@.len(),
        ),
    decreases types,
{
    let ghost all = types_view(types@);
    let ghost before = texts_view(found@);
    let mut index: usize = 0;
    assert(before + mentioned_in(all, names@, 0) =~= before);
    while index < types.len()
        invariant
            index <= types.len(),
            all == types_view(types@),
            texts_view(found@) == before + mentioned_in(all, names@, index as nat),
        decreases types.len() - index,
    {
        assert(all[index as int] == types@[index as int]@);
        list_names(&types[index], names, found);
        assert(texts_view(found@) =~= before + mentioned_in(all, names@, (index + 1) as nat));
        index += 1;
    }
}

fn list_names_in_row(row: &Row, names: &StringSet, found: &mut Vec<String>)
    ensures
        texts_view(final(found)@) == texts_view(old(found)@) + mentioned_in_entries(
            row@.entries,
            names@,
            row@.entries.len(),
        ),
    decreases row,
{
    let ghost all = row@.entries;
    let ghost before = texts_view(found@);
    let mut index: usize = 0;
    assert(before + mentioned_in_entries(all, names@, 0) =~= before);
    assert(all.len() == row.entries.len());
    while index < row.entries.len()
        invariant
            index <= row.entries.len(),
            all == row@.entries,
            texts_view(found@) == before + mentioned_in_entries(all, names@, index as nat),
        decreases row.entries.len() - index,
    {
        assert(all[index as int] == row.entries@[index as int]@);
        let ghost here = texts_view(found@);
        assert(here + Seq::<Seq<char>>::empty() =~= here);
        match &row.entries[index] {
            RowEntry::Field { ty, .. } => list_names(ty, names, found),
            RowEntry::Tag { payload, .. } => {
                list_names_in(payload, names, found);
                assert(types_view(payload@).len() == payload.len());
            },
            RowEntry::Literal { .. } => {},
        }
        assert(texts_view(found@) == here + mentioned_in_entry(all[index as int], names@));
        assert(texts_view(found@) =~= before + mentioned_in_entries(
            all,
            names@,
            (index + 1) as nat,
        ));
        index += 1;
    }
}

/// List the names of definitions that a type mentions, in the order in which it is
/// read. Each is evaluated when its turn comes.
pub fn prelowered_names(ty: &Type, names: &StringSet) -> (found: Vec<String>)
    ensures
        texts_view(found@) == mentioned(ty@, names@),
{
    let mut found: Vec<String> = Vec::new();
    assert(texts_view(found@) + mentioned(ty@, names@) =~= mentioned(ty@, names@));
    list_names(ty, names, &mut found);
    found
}

// ---------------------------------------------------------------------------
// The type with its answers
// ---------------------------------------------------------------------------
/// What the evaluation of a name came to: the type that it stands for, if any, and the
/// messages.
#[derive(Debug)]
pub struct DefinitionAnswer {
    pub ty: Option<Type>,
    pub diagnostics: Vec<Diagnostic>,
}

/// What the evaluation of a name came to.
pub ghost struct SpecAnswer {
    pub ty: Option<SpecType>,
    pub diagnostics: Seq<SpecDiagnostic>,
}

impl DefinitionAnswer {
    pub open spec fn view(&self) -> SpecAnswer {
        SpecAnswer {
            ty: crate::rows::owned_type_view(self.ty),
            diagnostics: diagnostics_view(self.diagnostics@),
        }
    }
}

pub open spec fn answers_view(answers: Seq<DefinitionAnswer>) -> Seq<SpecAnswer> {
    Seq::new(answers.len(), |i: int| answers[i]@)
}

/// The type that a name stands for: itself where it came to no type.
pub open spec fn answered(name: Seq<char>, answer: SpecAnswer) -> SpecType {
    match answer.ty {
        Some(ty) => ty,
        None => SpecType::Named(name),
    }
}

/// A type with each name of a definition replaced by what it came to; the answers from
/// one on belong to the names in the order in which the type is read.
pub open spec fn filled(
    ty: SpecType,
    names: Set<Seq<char>>,
    answers: Seq<SpecAnswer>,
    from: int,
) -> SpecType
    decreases ty,
{
    match ty {
        SpecType::Named(name) => if names.contains(name) {
            answered(name, answers[from])
        } else {
            ty
        },
        SpecType::Apply { callee, args } => SpecType::Apply {
            callee: Box::new(filled(*callee, names, answers, from)),
            args: filled_all(args, names, answers, from + mentioned(*callee, names).len()),
        },
        SpecType::Function { params, result, required } => SpecType::Function {
            params: filled_all(params, names, answers, from),
            result: Box::new(
                filled(
                    *result,
                    names,
                    answers,
                    from + mentioned_in(params, names, params.len()).len(),
                ),
            ),
            required,
        },
        SpecType::Optional(inner) => SpecType::Optional(
            Box::new(filled(*inner, names, answers, from)),
        ),
        SpecType::Nullable(inner) => SpecType::Nullable(
            Box::new(filled(*inner, names, answers, from)),
        ),
        SpecType::Tuple(items) => SpecType::Tuple(filled_all(items, names, answers, from)),
        SpecType::Record(row) => SpecType::Record(filled_row(row, names, answers, from)),
        SpecType::Variant(row) => SpecType::Variant(filled_row(row, names, answers, from)),
        _ => ty,
    }
}

pub open spec fn filled_all(
    types: Seq<SpecType>,
    names: Set<Seq<char>>,
    answers: Seq<SpecAnswer>,
    from: int,
) -> Seq<SpecType>
    decreases types,
{
    Seq::new(
        types.len(),
        |i: int|
            if 0 <= i < types.len() {
                filled(
                    types[i],
                    names,
                    answers,
                    from + mentioned_in(types, names, i as nat).len(),
                )
            } else {
                SpecType::Deferred
            },
    )
}

pub open spec fn filled_entry(
    entry: SpecRowEntry,
    names: Set<Seq<char>>,
    answers: Seq<SpecAnswer>,
    from: int,
) -> SpecRowEntry
    decreases entry,
{
    match entry {
        SpecRowEntry::Field { name, ty } => SpecRowEntry::Field {
            name,
            ty: filled(ty, names, answers, from),
        },
        SpecRowEntry::Tag { name, payload } => SpecRowEntry::Tag {
            name,
            payload: filled_all(payload, names, answers, from),
        },
        SpecRowEntry::Literal { value } => SpecRowEntry::Literal { value },
    }
}

pub open spec fn filled_row(
    row: SpecRow,
    names: Set<Seq<char>>,
    answers: Seq<SpecAnswer>,
    from: int,
) -> SpecRow
    decreases row,
{
    SpecRow {
        entries: Seq::new(
            row.entries.len(),
            |i: int|
                if 0 <= i < row.entries.len() {
                    filled_entry(
                        row.entries[i],
                        names,
                        answers,
                        from + mentioned_in_entries(row.entries, names, i as nat).len(),
                    )
                } else {
                    SpecRowEntry::Literal { value: SpecLiteral::Bool(false) }
                },
        ),
        tail: row.tail,
    }
}

/// The messages of the first answers.
pub open spec fn said_by(answers: Seq<SpecAnswer>, count: nat) -> Seq<SpecDiagnostic>
    decreases count,
{
    if count == 0 || count > answers.len() {
        Seq::empty()
    } else {
        said_by(answers, (count - 1) as nat) + answers[count - 1].diagnostics
    }
}

proof fn more_types_mention_more(
    types: Seq<SpecType>,
    names: Set<Seq<char>>,
    few: nat,
    many: nat,
)
    requires
        few <= many <= types.len(),
    ensures
        mentioned_in(types, names, few).len() <= mentioned_in(types, names, many).len(),
    decreases many,
{
    if few < many {
        more_types_mention_more(types, names, few, (many - 1) as nat);
    }
}

proof fn more_entries_mention_more(
    entries: Seq<SpecRowEntry>,
    names: Set<Seq<char>>,
    few: nat,
    many: nat,
)
    requires
        few <= many <= entries.len(),
    ensures
        mentioned_in_entries(entries, names, few).len() <= mentioned_in_entries(
            entries,
            names,
            many,
        ).len(),
    decreases many,
{
    if few < many {
        more_entries_mention_more(entries, names, few, (many - 1) as nat);
    }
}

/// Replace the names of definitions by the answers from `next` on.
fn fill(ty: &Type, names: &StringSet, answers: &Vec<DefinitionAnswer>, next: &mut usize) -> (head:
    Type)
    requires
        *old(next) + mentioned(ty@, names@).len() <= answers.len(),
    ensures
        head@ == filled(ty@, names@, answers_view(answers@), *old(next) as int),
        *final(next) == *old(next) + mentioned(ty@, names@).len(),
    decreases ty,
{
    match ty {
        Type::Named(name) => {
            if names.contains(name.as_str()) {
                let index: usize = *next;
                *next = index + 1;
                assert(answers_view(answers@)[index as int] == answers@[index as int]@);
                match &answers[index].ty {
                    Some(ty) => ty.clone(),
                    None => Type::Named(name.clone()),
                }
            } else {
                ty.clone()
            }
        },
        Type::Apply { callee, args } => {
            assert(types_view(args@).len() == args.len());
            let callee = fill(callee, names, answers, next);
            let args = fill_all(args, names, answers, next);
            Type::Apply { callee: Box::new(callee), args }
        },
        Type::Function { params, result, required } => {
            assert(types_view(params@).len() == params.len());
            let params = fill_all(params, names, answers, next);
            let result = fill(result, names, answers, next);
            Type::Function { params, result: Box::new(result), required: *required }
        },
        Type::Optional(inner) => Type::Optional(Box::new(fill(inner, names, answers, next))),
        Type::Nullable(inner) => Type::Nullable(Box::new(fill(inner, names, answers, next))),
        Type::Tuple(items) => {
            assert(types_view(items@).len() == items.len());
            Type::Tuple(fill_all(items, names, answers, next))
        },
        Type::Record(row) => Type::Record(fill_row(row, names, answers, next)),
        Type::Variant(row) => Type::Variant(fill_row(row, names, answers, next)),
        _ => ty.clone(),
    }
}

fn fill_all(
    types: &Vec<Type>,
    names: &StringSet,
    answers: &Vec<DefinitionAnswer>,
    next: &mut usize,
) -> (heads: Vec<Type>)
    requires
        *old(next) + mentioned_in(types_view(types@), names@, types@.len()).len() <= answers.len(),
    ensures
        types_view(heads@) == filled_all(
            types_view(types@),
            names@,
            answers_view(answers@),
            *old(next) as int,
        ),
        *final(next) == *old(next) + mentioned_in(
            types_view(types@),
            names@,
            types@.len(),
        ).len(),
    decreases types,
{
    let ghost all = types_view(types@);
    let ghost start = *next as int;
    let ghost given = answers_view(answers@);
    let mut heads: Vec<Type> = Vec::new();
    let mut index: usize = 0;
    while index < types.len()
        invariant
            index <= types.len(),
            all == types_view(types@),
            given == answers_view(answers@),
            start + mentioned_in(all, names@, types@.len()).len() <= answers.len(),
            *next == start + mentioned_in(all, names@, index as nat).len(),
            heads.len() == index,
            forall|i: int|
                0 <= i < index ==> (#[trigger] heads@[i])@ == filled(
                    all[i],
                    names@,
                    given,
                    start + mentioned_in(all, names@, i as nat).len(),
                ),
        decreases types.len() - index,
    {
        proof {
            more_types_mention_more(all, names@, (index + 1) as nat, all.len());
            assert(all[index as int] == types@[index as int]@);
        }
        let head = fill(&types[index], names, answers, next);
        heads.push(head);
        index += 1;
    }
    assert(types_view(heads@) =~= filled_all(all, names@, given, start));
    heads
}

fn fill_entry(
    entry: &RowEntry,
    names: &StringSet,
    answers: &Vec<DefinitionAnswer>,
    next: &mut usize,
) -> (head: RowEntry)
    requires
        *old(next) + mentioned_in_entry(entry@, names@).len() <= answers.len(),
    ensures
        head@ == filled_entry(entry@, names@, answers_view(answers@), *old(next) as int),
        *final(next) == *old(next) + mentioned_in_entry(entry@, names@).len(),
    decreases entry,
{
    match entry {
        RowEntry::Field { name, ty } => RowEntry::Field {
            name: name.clone(),
            ty: fill(ty, names, answers, next),
        },
        RowEntry::Tag { name, payload } => {
            assert(types_view(payload@).len() == payload.len());
            RowEntry::Tag { name: name.clone(), payload: fill_all(payload, names, answers, next) }
        },
        RowEntry::Literal { value } => RowEntry::Literal { value: value.clone() },
    }
}

fn fill_row(row: &Row, names: &StringSet, answers: &Vec<DefinitionAnswer>, next: &mut usize) -> (
    head: Row)
    requires
        *old(next) + mentioned_in_entries(row@.entries, names@, row@.entries.len()).len()
            <= answers.len(),
    ensures
        head@ == filled_row(row@, names@, answers_view(answers@), *old(next) as int),
        *final(next) == *old(next) + mentioned_in_entries(
            row@.entries,
            names@,
            row@.entries.len(),
        ).len(),
    decreases row,
{
    let ghost all = row@.entries;
    let ghost start = *next as int;
    let ghost given = answers_view(answers@);
    let mut entries: Vec<RowEntry> = Vec::new();
    let mut index: usize = 0;
    assert(all.len() == row.entries.len());
    while index < row.entries.len()
        invariant
            index <= row.entries.len(),
            all == row@.entries,
            all.len() == row.entries.len(),
            given == answers_view(answers@),
            start + mentioned_in_entries(all, names@, all.len()).len() <= answers.len(),
            *next == start + mentioned_in_entries(all, names@, index as nat).len(),
            entries.len() == index,
            forall|i: int|
                0 <= i < index ==> (#[trigger] entries@[i])@ == filled_entry(
                    all[i],
                    names@,
                    given,
                    start + mentioned_in_entries(all, names@, i as nat).len(),
                ),
        decreases row.entries.len() - index,
    {
        proof {
            more_entries_mention_more(all, names@, (index + 1) as nat, all.len());
            assert(all[index as int] == row.entries@[index as int]@);
        }
        let entry = fill_entry(&row.entries[index], names, answers, next);
        entries.push(entry);
        index += 1;
    }
    let head = Row { entries, tail: row.tail };
    assert(head@.entries =~= filled_row(row@, names@, given, start).entries);
    assert(row@.tail == row.tail);
    head
}

/// The head of a definition with the names of others replaced by what they came to, and
/// the messages of their evaluations. The answers belong to the names in the order in
/// which the head is read.
pub fn resolve_prelowered_type_head(
    ty: &Type,
    names: &StringSet,
    answers: &Vec<DefinitionAnswer>,
) -> (head: (Type, Vec<Diagnostic>))
    requires
        answers.len() == mentioned(ty@, names@).len(),
    ensures
        head.0@ == filled(ty@, names@, answers_view(answers@), 0),
        diagnostics_view(head.1@) == said_by(answers_view(answers@), answers@.len()),
{
    let mut next: usize = 0;
    let head = fill(ty, names, answers, &mut next);
    let ghost given = answers_view(answers@);
    let mut diagnostics: Vec<Diagnostic> = Vec::new();
    let mut index: usize = 0;
    assert(diagnostics_view(diagnostics@) =~= Seq::empty());
    while index < answers.len()
        invariant
            index <= answers.len(),
            given == answers_view(answers@),
            diagnostics_view(diagnostics@) == said_by(given, index as nat),
        decreases answers.len() - index,
    {
        let ghost before = diagnostics_view(diagnostics@);
        let mut nested = clone_diagnostics(&answers[index].diagnostics);
        let ghost more = diagnostics_view(nested@);
        assert(given[index as int] == answers@[index as int]@);
        diagnostics.append(&mut nested);
        assert(diagnostics_view(diagnostics@) =~= before + more);
        index += 1;
    }
    (head, diagnostics)
}

// ---------------------------------------------------------------------------
// Laws
// ---------------------------------------------------------------------------
/// A type that mentions no definition stays as it is.
pub proof fn other_types_are_kept(
    ty: SpecType,
    names: Set<Seq<char>>,
    answers: Seq<SpecAnswer>,
    from: int,
)
    requires
        mentioned(ty, names).len() == 0,
    ensures
        filled(ty, names, answers, from) == ty,
    decreases ty, 1nat,
{
    match ty {
        SpecType::Named(name) => {
            if names.contains(name) {
                assert(mentioned(ty, names).len() == 1);
            }
        },
        SpecType::Apply { callee, args } => {
            other_types_are_kept(*callee, names, answers, from);
            other_lists_are_kept(args, names, answers, from);
        },
        SpecType::Function { params, result, .. } => {
            other_lists_are_kept(params, names, answers, from);
            other_types_are_kept(*result, names, answers, from);
        },
        SpecType::Optional(inner) => other_types_are_kept(*inner, names, answers, from),
        SpecType::Nullable(inner) => other_types_are_kept(*inner, names, answers, from),
        SpecType::Tuple(items) => other_lists_are_kept(items, names, answers, from),
        SpecType::Record(row) => other_rows_are_kept(row, names, answers, from),
        SpecType::Variant(row) => other_rows_are_kept(row, names, answers, from),
        _ => {},
    }
}

proof fn other_lists_are_kept(
    types: Seq<SpecType>,
    names: Set<Seq<char>>,
    answers: Seq<SpecAnswer>,
    from: int,
)
    requires
        mentioned_in(types, names, types.len()).len() == 0,
    ensures
        filled_all(types, names, answers, from) == types,
    decreases types, 0nat,
{
    assert forall|i: int| 0 <= i < types.len() implies #[trigger] filled_all(
        types,
        names,
        answers,
        from,
    )[i] == types[i] by {
        more_types_mention_more(types, names, i as nat, types.len());
        more_types_mention_more(types, names, (i + 1) as nat, types.len());
        other_types_are_kept(types[i], names, answers, from);
    }
    assert(filled_all(types, names, answers, from) =~= types);
}

proof fn other_rows_are_kept(
    row: SpecRow,
    names: Set<Seq<char>>,
    answers: Seq<SpecAnswer>,
    from: int,
)
    requires
        mentioned_in_entries(row.entries, names, row.entries.len()).len() == 0,
    ensures
        filled_row(row, names, answers, from) == row,
    decreases row, 0nat,
{
    assert forall|i: int| 0 <= i < row.entries.len() implies #[trigger] filled_row(
        row,
        names,
        answers,
        from,
    ).entries[i] == row.entries[i] by {
        more_entries_mention_more(row.entries, names, i as nat, row.entries.len());
        more_entries_mention_more(row.entries, names, (i + 1) as nat, row.entries.len());
        assert(mentioned_in_entry(row.entries[i], names).len() == 0);
        match row.entries[i] {
            SpecRowEntry::Field { ty, .. } => other_types_are_kept(ty, names, answers, from),
            SpecRowEntry::Tag { payload, .. } => other_lists_are_kept(
                payload,
                names,
                answers,
                from,
            ),
            SpecRowEntry::Literal { .. } => {},
        }
    }
    assert(filled_row(row, names, answers, from).entries =~= row.entries);
}

} // verus!
