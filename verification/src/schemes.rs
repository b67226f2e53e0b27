//! Type schemes and the variables of method schemes.
use crate::alpha::constraint_variables;
use crate::collections::{increasing, increasing_is_unique, StringMap, StringSet};
use crate::methods::{
    constraints_view, predicates_view, MethodConstraint, MethodPredicate, SpecConstraint,
    SpecPredicate,
};
use crate::span::Span;
use crate::text::{texts_contain, texts_view, unsigned_text};
use crate::type_ops::{
    collect_type_variable_names, collect_variable_names_in, map_type, substituted, type_map_view,
    variables, variables_in, Substitution,
};
use crate::types::{types_view, Row, RowEntry, SpecRow, SpecRowEntry, SpecType, Type};
use vstd::prelude::*;

verus! {

// ---------------------------------------------------------------------------
// Variables of method schemes
// ---------------------------------------------------------------------------
/// The variables of a list of constraints.
pub open spec fn constraints_variables(constraints: Seq<SpecConstraint>) -> Set<Seq<char>> {
    Set::new(
        |name: Seq<char>|
            exists|i: int|
                0 <= i < constraints.len() && constraint_variables(
                    #[trigger] constraints[i],
                ).contains(name),
    )
}

/// The variables of a method scheme.
pub open spec fn scheme_variables(
    params: Seq<SpecType>,
    result: SpecType,
    constraints: Seq<SpecConstraint>,
) -> Set<Seq<char>> {
    variables_in(params).union(variables(result)).union(constraints_variables(constraints))
}

/// The names of a set in increasing order.
pub open spec fn listing(names: Set<Seq<char>>) -> Seq<Seq<char>> {
    choose|list: Seq<Seq<char>>| increasing(list) && #[trigger] list.to_set() == names
}

/// An increasing list is the listing of its names.
pub proof fn increasing_list_is_listing(list: Seq<Seq<char>>)
    requires
        increasing(list),
    ensures
        listing(list.to_set()) == list,
{
    let chosen = listing(list.to_set());
    assert(increasing(list) && list.to_set() == list.to_set());
    increasing_is_unique(chosen, list);
}

proof fn constraints_variables_prefix(constraints: Seq<SpecConstraint>, index: int)
    requires
        0 <= index < constraints.len(),
    ensures
        constraints_variables(constraints.take(index + 1)) == constraints_variables(
            constraints.take(index),
        ).union(constraint_variables(constraints[index])),
{
    let shorter = constraints.take(index);
    let longer = constraints.take(index + 1);
    assert forall|name: Seq<char>| constraints_variables(longer).contains(name) == (
    constraints_variables(shorter).contains(name) || constraint_variables(
        constraints[index],
    ).contains(name)) by {
        if constraints_variables(shorter).contains(name) {
            let i = choose|i: int|
                0 <= i < shorter.len() && constraint_variables(#[trigger] shorter[i]).contains(
                    name,
                );
            assert(longer[i] == shorter[i]);
        }
        if constraint_variables(constraints[index]).contains(name) {
            assert(longer[index] == constraints[index]);
        }
        if constraints_variables(longer).contains(name) {
            let i = choose|i: int|
                0 <= i < longer.len() && constraint_variables(#[trigger] longer[i]).contains(name);
            if i < index {
                assert(shorter[i] == longer[i]);
            }
        }
    }
    assert(constraints_variables(longer) =~= constraints_variables(shorter).union(
        constraint_variables(constraints[index]),
    ));
}

/// The variables of a method scheme in increasing order.
pub fn method_scheme_variables(
    params: &Vec<Type>,
    result: &Type,
    constraints: &Vec<MethodConstraint>,
) -> (names: Vec<String>)
    ensures
        texts_view(names@) == listing(
            scheme_variables(types_view(params@), result@, constraints_view(constraints@)),
        ),
        increasing(texts_view(names@)),
        texts_view(names@).to_set() == scheme_variables(
            types_view(params@),
            result@,
            constraints_view(constraints@),
        ),
{
    let mut names: Vec<String> = Vec::new();
    assert(texts_view(names@).to_set() =~= Set::empty());
    collect_variable_names_in(params, &mut names);
    collect_type_variable_names(result, &mut names);
    let ghost signature = variables_in(types_view(params@)).union(variables(result@));
    let ghost all = constraints_view(constraints@);
    let mut index: usize = 0;
    assert(texts_view(names@).to_set() =~= signature.union(constraints_variables(all.take(0))));
    while index < constraints.len()
        invariant
            index <= constraints.len(),
            all == constraints_view(constraints@),
            increasing(texts_view(names@)),
            texts_view(names@).to_set() == signature.union(
                constraints_variables(all.take(index as int)),
            ),
        decreases constraints.len() - index,
    {
        let constraint = &constraints[index];
        collect_type_variable_names(&constraint.candidate, &mut names);
        collect_variable_names_in(&constraint.params, &mut names);
        collect_type_variable_names(&constraint.result, &mut names);
        proof {
            assert(all[index as int] == constraint@);
            constraints_variables_prefix(all, index as int);
            assert(texts_view(names@).to_set() =~= signature.union(
                constraints_variables(all.take(index + 1)),
            ));
        }
        index += 1;
    }
    proof {
        assert(all.take(all.len() as int) =~= all);
        assert(texts_view(names@).to_set() =~= scheme_variables(
            types_view(params@),
            result@,
            all,
        ));
        increasing_list_is_listing(texts_view(names@));
    }
    names
}

/// The variables of a named method in increasing order.
pub fn named_method_variables(
    params: &Vec<Type>,
    result: &Type,
    constraints: &Vec<MethodConstraint>,
) -> (names: Vec<String>)
    ensures
        texts_view(names@) == listing(
            scheme_variables(types_view(params@), result@, constraints_view(constraints@)),
        ),
        increasing(texts_view(names@)),
        texts_view(names@).to_set() == scheme_variables(
            types_view(params@),
            result@,
            constraints_view(constraints@),
        ),
{
    method_scheme_variables(params, result, constraints)
}

// ---------------------------------------------------------------------------
// Type schemes
// ---------------------------------------------------------------------------
/// A row that is merged into another, with or without overwriting.
#[derive(Debug)]
pub struct RowMergeSource {
    pub row: Row,
    pub overwrite: bool,
    pub span: Span,
    /// The row variables of the row, in the order in which they are found.
    pub variables: Vec<u32>,
}

/// A row that is merged into another.
pub ghost struct SpecMergeSource {
    pub row: SpecRow,
    pub overwrite: bool,
    pub span: Span,
    pub variables: Seq<u32>,
}

/// Rows whose merging a row variable stands for.
#[derive(Debug)]
pub struct RowMerge {
    pub result: u32,
    pub sources: Vec<RowMergeSource>,
}

/// Rows whose merging a row variable stands for.
pub ghost struct SpecRowMerge {
    pub result: u32,
    pub sources: Seq<SpecMergeSource>,
}

impl RowMergeSource {
    pub open spec fn view(&self) -> SpecMergeSource {
        SpecMergeSource {
            row: self.row@,
            overwrite: self.overwrite,
            span: self.span,
            variables: self.variables@,
        }
    }
}

pub open spec fn merge_sources_view(sources: Seq<RowMergeSource>) -> Seq<SpecMergeSource> {
    Seq::new(sources.len(), |i: int| sources[i]@)
}

impl RowMerge {
    pub open spec fn view(&self) -> SpecRowMerge {
        SpecRowMerge { result: self.result, sources: merge_sources_view(self.sources@) }
    }
}

pub open spec fn row_merges_view(merges: Seq<RowMerge>) -> Seq<SpecRowMerge> {
    Seq::new(merges.len(), |i: int| merges[i]@)
}

/// A type with the metavariables that each use of it replaces.
#[derive(Debug)]
pub struct TypeScheme {
    pub vars: Vec<u32>,
    pub row_vars: Vec<u32>,
    /// The merged rows that the row variables depend on.
    pub row_merges: Vec<RowMerge>,
    pub predicates: Vec<MethodPredicate>,
    pub ty: Type,
}

/// What a type scheme is.
pub ghost struct SpecScheme {
    pub vars: Seq<u32>,
    pub row_vars: Seq<u32>,
    pub row_merges: Seq<SpecRowMerge>,
    pub predicates: Seq<SpecPredicate>,
    pub ty: SpecType,
}

impl TypeScheme {
    pub open spec fn view(&self) -> SpecScheme {
        SpecScheme {
            vars: self.vars@,
            row_vars: self.row_vars@,
            row_merges: row_merges_view(self.row_merges@),
            predicates: predicates_view(self.predicates@),
            ty: self.ty@,
        }
    }

    /// The scheme of a type without quantified variables.
    pub fn mono(ty: Type) -> (scheme: TypeScheme)
        ensures
            scheme@ == mono_scheme(ty@),
    {
        let scheme = TypeScheme {
            vars: Vec::new(),
            row_vars: Vec::new(),
            row_merges: Vec::new(),
            predicates: Vec::new(),
            ty,
        };
        assert(scheme@.row_merges =~= Seq::empty());
        assert(scheme@.predicates =~= Seq::empty());
        scheme
    }
}

/// The scheme of a type without quantified variables.
pub open spec fn mono_scheme(ty: SpecType) -> SpecScheme {
    SpecScheme {
        vars: Seq::empty(),
        row_vars: Seq::empty(),
        row_merges: Seq::empty(),
        predicates: Seq::empty(),
        ty,
    }
}

/// Adds a name at the end of a list that does not hold it yet.
pub open spec fn with_name(names: Seq<Seq<char>>, name: Seq<char>) -> Seq<Seq<char>> {
    if names.contains(name) {
        names
    } else {
        names.push(name)
    }
}

/// The type variables of a type after those listed, in the order of their first
/// occurrences.
pub open spec fn occurrences(ty: SpecType, names: Seq<Seq<char>>) -> Seq<Seq<char>>
    decreases ty,
{
    match ty {
        SpecType::Variable(name) => with_name(names, name),
        SpecType::Apply { callee, args } => occurrences_in(args, occurrences(*callee, names)),
        SpecType::Function { params, result, .. } => occurrences(
            *result,
            occurrences_in(params, names),
        ),
        SpecType::Optional(inner) => occurrences(*inner, names),
        SpecType::Nullable(inner) => occurrences(*inner, names),
        SpecType::Tuple(items) => occurrences_in(items, names),
        SpecType::Record(row) => occurrences_in_entries(row.entries, names),
        SpecType::Variant(row) => occurrences_in_entries(row.entries, names),
        SpecType::SlotRecord { data, slots } => occurrences_in_entries(
            slots.entries,
            occurrences_in_entries(data.entries, names),
        ),
        _ => names,
    }
}

pub open spec fn occurrences_in(types: Seq<SpecType>, names: Seq<Seq<char>>) -> Seq<Seq<char>>
    decreases types,
{
    if types.len() == 0 {
        names
    } else {
        occurrences(types.last(), occurrences_in(types.drop_last(), names))
    }
}

pub open spec fn occurrences_in_entry(entry: SpecRowEntry, names: Seq<Seq<char>>) -> Seq<
    Seq<char>,
>
    decreases entry,
{
    match entry {
        SpecRowEntry::Field { ty, .. } => occurrences(ty, names),
        SpecRowEntry::Tag { payload, .. } => occurrences_in(payload, names),
        SpecRowEntry::Literal { .. } => names,
    }
}

pub open spec fn occurrences_in_entries(
    entries: Seq<SpecRowEntry>,
    names: Seq<Seq<char>>,
) -> Seq<Seq<char>>
    decreases entries,
{
    if entries.len() == 0 {
        names
    } else {
        occurrences_in_entry(entries.last(), occurrences_in_entries(entries.drop_last(), names))
    }
}

/// The type variables of a type in the order of their first occurrences.
pub open spec fn variable_order(ty: SpecType) -> Seq<Seq<char>> {
    occurrences(ty, Seq::empty())
}

fn add_name(names: &mut Vec<String>, name: &str)
    ensures
        texts_view(final(names)@) == with_name(texts_view(old(names)@), name@),
{
    if !texts_contain(names, name) {
        let ghost before = texts_view(names@);
        names.push(name.to_owned());
        assert(texts_view(names@) =~= before.push(name@));
    }
}

fn add_occurrences(ty: &Type, names: &mut Vec<String>)
    ensures
        texts_view(final(names)@) == occurrences(ty@, texts_view(old(names)@)),
    decreases ty,
{
    match ty {
        Type::Variable(name) => {
            add_name(names, name.as_str());
        },
        Type::Apply { callee, args } => {
            add_occurrences(callee, names);
            add_occurrences_in(args, names);
        },
        Type::Function { params, result, .. } => {
            add_occurrences_in(params, names);
            add_occurrences(result, names);
        },
        Type::Optional(inner) => {
            add_occurrences(inner, names);
        },
        Type::Nullable(inner) => {
            add_occurrences(inner, names);
        },
        Type::Tuple(items) => {
            add_occurrences_in(items, names);
        },
        Type::Record(row) => {
            add_occurrences_in_row(row, names);
        },
        Type::Variant(row) => {
            add_occurrences_in_row(row, names);
        },
        Type::SlotRecord { data, slots } => {
            add_occurrences_in_row(data, names);
            add_occurrences_in_row(slots, names);
        },
        _ => {},
    }
}

fn add_occurrences_in(types: &Vec<Type>, names: &mut Vec<String>)
    ensures
        texts_view(final(names)@) == occurrences_in(types_view(types@), texts_view(old(names)@)),
    decreases types,
{
    let ghost before = texts_view(names@);
    let ghost all = types_view(types@);
    let mut index: usize = 0;
    while index < types.len()
        invariant
            index <= types.len(),
            all == types_view(types@),
            texts_view(names@) == occurrences_in(all.take(index as int), before),
        decreases types.len() - index,
    {
        add_occurrences(&types[index], names);
        proof {
            let longer = all.take(index + 1);
            assert(longer.drop_last() =~= all.take(index as int));
            assert(longer.last() == types@[index as int]@);
        }
        index += 1;
    }
    assert(all.take(all.len() as int) =~= all);
}

fn add_occurrences_in_row(row: &Row, names: &mut Vec<String>)
    ensures
        texts_view(final(names)@) == occurrences_in_entries(
            row@.entries,
            texts_view(old(names)@),
        ),
    decreases row,
{
    let ghost before = texts_view(names@);
    let ghost all = row@.entries;
    let mut index: usize = 0;
    while index < row.entries.len()
        invariant
            index <= row.entries.len(),
            all == row@.entries,
            texts_view(names@) == occurrences_in_entries(all.take(index as int), before),
        decreases row.entries.len() - index,
    {
        let ghost shorter = texts_view(names@);
        match &row.entries[index] {
            RowEntry::Field { ty, .. } => {
                add_occurrences(ty, names);
            },
            RowEntry::Tag { payload, .. } => {
                add_occurrences_in(payload, names);
            },
            RowEntry::Literal { .. } => {},
        }
        proof {
            let longer = all.take(index + 1);
            assert(longer.drop_last() =~= all.take(index as int));
            assert(longer.last() == row.entries@[index as int]@);
            assert(texts_view(names@) == occurrences_in_entry(longer.last(), shorter));
        }
        index += 1;
    }
    assert(all.take(all.len() as int) =~= all);
}

/// The type variables of a type in the order of their first occurrences.
pub fn type_variable_order(ty: &Type) -> (names: Vec<String>)
    ensures
        texts_view(names@) == variable_order(ty@),
{
    let mut names: Vec<String> = Vec::new();
    assert(texts_view(names@) =~= Seq::empty());
    add_occurrences(ty, &mut names);
    names
}

/// Consecutive metavariables for a list of names; a later occurrence of a name
/// replaces an earlier one.
pub open spec fn meta_bindings(names: Seq<Seq<char>>, first: int) -> Map<Seq<char>, SpecType>
    decreases names.len(),
{
    if names.len() == 0 {
        Map::empty()
    } else {
        meta_bindings(names.drop_last(), first).insert(
            names.last(),
            SpecType::Meta((first + names.len() - 1) as u32),
        )
    }
}

/// The scheme of a global's type: its type variables become quantified
/// metavariables, numbered from `first` in the order of their occurrences.
pub open spec fn global_scheme(ty: SpecType, first: u32) -> SpecScheme {
    let names = variable_order(ty);
    SpecScheme {
        vars: Seq::new(names.len(), |i: int| (first + i) as u32),
        row_vars: Seq::empty(),
        row_merges: Seq::empty(),
        predicates: Seq::empty(),
        ty: substituted(ty, meta_bindings(names, first as int)),
    }
}

/// Quantify the type variables of a global's type over fresh metavariables.
///
/// `first` is the first metavariable that is not in use; the scheme uses one for
/// each type variable.
pub fn scheme_from_global(ty: &Type, first: u32) -> (scheme: TypeScheme)
    requires
        first + variable_order(ty@).len() <= u32::MAX,
    ensures
        scheme@ == global_scheme(ty@, first),
{
    let names = type_variable_order(ty);
    let ghost all = texts_view(names@);
    let mut bindings: StringMap<Type> = StringMap::new();
    let mut vars: Vec<u32> = Vec::new();
    let mut index: usize = 0;
    assert(type_map_view(bindings@) =~= meta_bindings(all.take(0), first as int));
    while index < names.len()
        invariant
            index <= names.len(),
            all == texts_view(names@),
            first + all.len() <= u32::MAX,
            vars@ == Seq::new(index as nat, |i: int| (first + i) as u32),
            type_map_view(bindings@) == meta_bindings(all.take(index as int), first as int),
        decreases names.len() - index,
    {
        let id: u32 = first + index as u32;
        let ghost before = type_map_view(bindings@);
        bindings.insert(names[index].clone(), Type::Meta(id));
        vars.push(id);
        proof {
            let longer = all.take(index + 1);
            assert(longer.drop_last() =~= all.take(index as int));
            assert(longer.last() == names@[index as int]@);
            assert(type_map_view(bindings@) =~= before.insert(longer.last(), SpecType::Meta(id)));
            assert(vars@ =~= Seq::new((index + 1) as nat, |i: int| (first + i) as u32));
        }
        index += 1;
    }
    assert(all.take(all.len() as int) =~= all);
    let substitution = Substitution { bindings };
    let scheme = TypeScheme {
        vars,
        row_vars: Vec::new(),
        row_merges: Vec::new(),
        predicates: Vec::new(),
        ty: map_type(ty, &substitution),
    };
    assert(scheme@.row_merges =~= Seq::empty());
    assert(scheme@.predicates =~= Seq::empty());
    assert(scheme@.vars =~= global_scheme(ty@, first).vars);
    scheme
}

/// The metavariables of names after those of more names, and the first one that
/// is not in use then. Rigid names get none.
pub open spec fn with_metas(
    metas: Map<Seq<char>, SpecType>,
    names: Seq<Seq<char>>,
    rigid: Set<Seq<char>>,
    first: int,
) -> (Map<Seq<char>, SpecType>, int)
    decreases names.len(),
{
    if names.len() == 0 {
        (metas, first)
    } else {
        let (known, next) = with_metas(metas, names.drop_last(), rigid, first);
        if rigid.contains(names.last()) || known.contains_key(names.last()) {
            (known, next)
        } else {
            (known.insert(names.last(), SpecType::Meta(next as u32)), next + 1)
        }
    }
}

proof fn metas_are_counted(
    metas: Map<Seq<char>, SpecType>,
    names: Seq<Seq<char>>,
    rigid: Set<Seq<char>>,
    first: int,
)
    ensures
        first <= with_metas(metas, names, rigid, first).1 <= first + names.len(),
        forall|i: int|
            0 <= i < names.len() && !rigid.contains(#[trigger] names[i]) ==> with_metas(
                metas,
                names,
                rigid,
                first,
            ).0.contains_key(names[i]),
    decreases names.len(),
{
    if names.len() > 0 {
        let shorter = names.drop_last();
        metas_are_counted(metas, shorter, rigid, first);
        assert forall|i: int|
            0 <= i < names.len() && !rigid.contains(#[trigger] names[i]) implies with_metas(
            metas,
            names,
            rigid,
            first,
        ).0.contains_key(names[i]) by {
            if i < shorter.len() {
                assert(shorter[i] == names[i]);
                assert(with_metas(metas, shorter, rigid, first).0.contains_key(shorter[i]));
            }
        }
    }
}

/// The metavariables of the names of a type that are not rigid.
pub open spec fn flexible(
    metas: Map<Seq<char>, SpecType>,
    names: Seq<Seq<char>>,
    rigid: Set<Seq<char>>,
) -> Map<Seq<char>, SpecType> {
    Map::new(
        |name: Seq<char>| names.contains(name) && !rigid.contains(name),
        |name: Seq<char>| metas[name],
    )
}

/// Replace the type variables of a type that are not rigid by metavariables. A
/// name that has one keeps it; others get new ones, from `first` on in the order
/// of their occurrences. The result tells the first one that is not in use then.
pub fn instantiate_type_variables(
    ty: &Type,
    metas: &mut StringMap<Type>,
    rigid: &StringSet,
    first: u32,
) -> (instantiated: (Type, u32))
    requires
        first + variable_order(ty@).len() <= u32::MAX,
    ensures
        ({
            let names = variable_order(ty@);
            let after = with_metas(type_map_view(old(metas)@), names, rigid@, first as int);
            &&& type_map_view(final(metas)@) == after.0
            &&& instantiated.1 == after.1
            &&& instantiated.0@ == substituted(ty@, flexible(after.0, names, rigid@))
        }),
{
    let names = type_variable_order(ty);
    let ghost all = texts_view(names@);
    let ghost before = type_map_view(metas@);
    let mut next: u32 = first;
    let mut index: usize = 0;
    assert(all.take(0) =~= Seq::empty());
    while index < names.len()
        invariant
            index <= names.len(),
            all == texts_view(names@),
            before == type_map_view(old(metas)@),
            first + all.len() <= u32::MAX,
            first <= next <= first + index,
            (type_map_view(metas@), next as int) == with_metas(
                before,
                all.take(index as int),
                rigid@,
                first as int,
            ),
        decreases names.len() - index,
    {
        proof {
            let longer = all.take(index + 1);
            assert(longer.drop_last() =~= all.take(index as int));
            assert(longer.last() == names@[index as int]@);
        }
        let name = names[index].as_str();
        if !rigid.contains(name) && !metas.contains_key(name) {
            let ghost earlier = type_map_view(metas@);
            metas.insert(names[index].clone(), Type::Meta(next));
            assert(type_map_view(metas@) =~= earlier.insert(name@, SpecType::Meta(next)));
            next += 1;
        }
        index += 1;
    }
    assert(all.take(all.len() as int) =~= all);
    let ghost after = type_map_view(metas@);
    proof {
        metas_are_counted(before, all, rigid@, first as int);
    }
    let mut bindings: StringMap<Type> = StringMap::new();
    let mut index: usize = 0;
    assert(type_map_view(bindings@) =~= flexible(after, all.take(0), rigid@));
    while index < names.len()
        invariant
            index <= names.len(),
            all == texts_view(names@),
            after == type_map_view(metas@),
            forall|i: int|
                0 <= i < all.len() && !rigid@.contains(#[trigger] all[i]) ==> after.contains_key(
                    all[i],
                ),
            type_map_view(bindings@) == flexible(after, all.take(index as int), rigid@),
        decreases names.len() - index,
    {
        let name = names[index].as_str();
        assert(all[index as int] == name@);
        let ghost earlier = type_map_view(bindings@);
        let ghost shorter = all.take(index as int);
        let ghost longer = all.take(index + 1);
        assert(longer =~= shorter.push(name@));
        assert forall|x: Seq<char>| longer.contains(x) == (shorter.contains(x) || x == name@) by {
            if shorter.contains(x) {
                let i = choose|i: int| 0 <= i < shorter.len() && shorter[i] == x;
                assert(longer[i] == x);
            }
            if x == name@ {
                assert(longer[index as int] == x);
            }
        }
        if !rigid.contains(name) {
            if let Some(meta) = metas.get(name) {
                bindings.insert(names[index].clone(), meta.clone());
                assert(type_map_view(bindings@) =~= earlier.insert(name@, after[name@]));
            }
        }
        assert(type_map_view(bindings@) =~= flexible(after, longer, rigid@));
        index += 1;
    }
    assert(all.take(all.len() as int) =~= all);
    let substitution = Substitution { bindings };
    (map_type(ty, &substitution), next)
}

/// The exported name of the quantified variable at a position: a letter, and
/// after the alphabet `t` with the position.
pub open spec fn generic_name(index: nat) -> Seq<char> {
    if index < 26 {
        seq![(97 + index) as char]
    } else {
        seq!['t'] + crate::text::decimal(index)
    }
}

/// The exported name of the quantified variable at a position.
pub fn export_generic_name(index: usize) -> (name: String)
    ensures
        name@ == generic_name(index as nat),
{
    if index < 26 {
        let letters: &str = "abcdefghijklmnopqrstuvwxyz";
        proof {
            reveal_strlit("abcdefghijklmnopqrstuvwxyz");
        }
        let letter: &str = letters.substring_char(index, index + 1);
        assert(letter@ =~= seq![(97 + index) as char]);
        letter.to_owned()
    } else {
        let mut name: String = "t".to_owned();
        proof {
            reveal_strlit("t");
        }
        let digits: String = unsigned_text(index as u64);
        name.append(digits.as_str());
        assert(name@ =~= generic_name(index as nat));
        name
    }
}

/// Different positions have different exported names.
pub proof fn generic_names_differ(left: nat, right: nat)
    requires
        left != right,
    ensures
        generic_name(left) != generic_name(right),
{
    crate::text::decimal_is_digits(left);
    crate::text::decimal_is_digits(right);
    if left < 26 && right < 26 {
        assert(generic_name(left)[0] != generic_name(right)[0]);
    } else if left >= 26 && right >= 26 {
        assert(generic_name(left).skip(1) =~= crate::text::decimal(left));
        assert(generic_name(right).skip(1) =~= crate::text::decimal(right));
    } else {
        assert(generic_name(left).len() != generic_name(right).len());
    }
}

} // verus!
