//! Traversals and queries over types.
use crate::collections::{increasing, insert_name, StringMap};
use crate::text::{same_text, texts_view};
use crate::types::{
    types_view, Literal, Row, RowEntry, SpecLiteral, SpecRow, SpecRowEntry, SpecType, Type,
};
use vstd::prelude::*;

verus! {

/// The type with the given name.
pub fn named_builtin(name: &str) -> (ty: Type)
    ensures
        ty@ == SpecType::Named(name@),
{
    Type::Named(name.to_owned())
}

/// Whether a type is a named type with the given name.
pub fn is_named(ty: &Type, name: &str) -> (named: bool)
    ensures
        named == (ty@ == SpecType::Named(name@)),
{
    match ty {
        Type::Named(current) => same_text(current.as_str(), name),
        _ => false,
    }
}

/// The name of a named type.
pub fn named_type_name(ty: &Type) -> (name: Option<&str>)
    ensures
        match name {
            Some(name) => ty@ == SpecType::Named(name@),
            None => !(ty@ is Named),
        },
{
    match ty {
        Type::Named(name) => Some(name.as_str()),
        _ => None,
    }
}

/// Whether a type is one of the two numeric types.
pub open spec fn is_numeric(ty: SpecType) -> bool {
    ty == SpecType::Named("Int"@) || ty == SpecType::Named("Float"@)
}

/// The name of a numeric type.
pub fn numeric_type_name(ty: &Type) -> (name: Option<&'static str>)
    ensures
        match name {
            Some(name) => is_numeric(ty@) && ty@ == SpecType::Named(name@),
            None => !is_numeric(ty@),
        },
{
    if is_named(ty, "Int") {
        Some("Int")
    } else if is_named(ty, "Float") {
        Some("Float")
    } else {
        None
    }
}

/// Whether a type is a metavariable.
pub fn is_meta_type(ty: &Type) -> (meta: bool)
    ensures
        meta == (ty@ is Meta),
{
    matches!(ty, Type::Meta(_))
}

// ---------------------------------------------------------------------------
// Rewriting
// ---------------------------------------------------------------------------
/// A rule that replaces some nodes of a type.
pub trait TypeRewrite {
    /// What a node is replaced by.
    spec fn rule(&self) -> spec_fn(SpecType) -> Option<SpecType>;

    /// Apply the rule to one node.
    fn rewrite(&self, node: &Type) -> (replacement: Option<Type>)
        ensures
            match replacement {
                Some(replacement) => (self.rule())(node@) == Some(replacement@),
                None => (self.rule())(node@) is None,
            },
    ;
}

/// A type with every outermost node that the rule replaces replaced.
pub open spec fn mapped(ty: SpecType, rule: spec_fn(SpecType) -> Option<SpecType>) -> SpecType
    decreases ty,
{
    match rule(ty) {
        Some(replacement) => replacement,
        None => match ty {
            SpecType::Apply { callee, args } => SpecType::Apply {
                callee: Box::new(mapped(*callee, rule)),
                args: mapped_all(args, rule),
            },
            SpecType::Function { params, result, required } => SpecType::Function {
                params: mapped_all(params, rule),
                result: Box::new(mapped(*result, rule)),
                required,
            },
            SpecType::Optional(inner) => SpecType::Optional(Box::new(mapped(*inner, rule))),
            SpecType::Nullable(inner) => SpecType::Nullable(Box::new(mapped(*inner, rule))),
            SpecType::Tuple(items) => SpecType::Tuple(mapped_all(items, rule)),
            SpecType::Record(row) => SpecType::Record(mapped_row(row, rule)),
            SpecType::Variant(row) => SpecType::Variant(mapped_row(row, rule)),
            SpecType::SlotRecord { data, slots } => SpecType::SlotRecord {
                data: Box::new(mapped_row(*data, rule)),
                slots: Box::new(mapped_row(*slots, rule)),
            },
            _ => ty,
        },
    }
}

pub open spec fn mapped_all(
    types: Seq<SpecType>,
    rule: spec_fn(SpecType) -> Option<SpecType>,
) -> Seq<SpecType>
    decreases types,
{
    Seq::new(
        types.len(),
        |i: int|
            if 0 <= i < types.len() {
                mapped(types[i], rule)
            } else {
                SpecType::Deferred
            },
    )
}

pub open spec fn mapped_entry(
    entry: SpecRowEntry,
    rule: spec_fn(SpecType) -> Option<SpecType>,
) -> SpecRowEntry
    decreases entry,
{
    match entry {
        SpecRowEntry::Field { name, ty } => SpecRowEntry::Field { name, ty: mapped(ty, rule) },
        SpecRowEntry::Tag { name, payload } => SpecRowEntry::Tag {
            name,
            payload: mapped_all(payload, rule),
        },
        SpecRowEntry::Literal { value } => SpecRowEntry::Literal { value },
    }
}

pub open spec fn mapped_row(
    row: SpecRow,
    rule: spec_fn(SpecType) -> Option<SpecType>,
) -> SpecRow
    decreases row,
{
    SpecRow {
        entries: Seq::new(
            row.entries.len(),
            |i: int|
                if 0 <= i < row.entries.len() {
                    mapped_entry(row.entries[i], rule)
                } else {
                    SpecRowEntry::Literal { value: SpecLiteral::Bool(false) }
                },
        ),
        tail: row.tail,
    }
}

/// Rewrite a type by a rule, outermost nodes first.
pub fn map_type<R: TypeRewrite>(ty: &Type, rule: &R) -> (rewritten: Type)
    ensures
        rewritten@ == mapped(ty@, rule.rule()),
    decreases ty,
{
    match rule.rewrite(ty) {
        Some(replacement) => replacement,
        None => match ty {
            Type::Apply { callee, args } => Type::Apply {
                callee: Box::new(map_type(callee, rule)),
                args: map_types(args, rule),
            },
            Type::Function { params, result, required } => Type::Function {
                params: map_types(params, rule),
                result: Box::new(map_type(result, rule)),
                required: *required,
            },
            Type::Optional(inner) => Type::Optional(Box::new(map_type(inner, rule))),
            Type::Nullable(inner) => Type::Nullable(Box::new(map_type(inner, rule))),
            Type::Tuple(items) => Type::Tuple(map_types(items, rule)),
            Type::Record(row) => Type::Record(map_row(row, rule)),
            Type::Variant(row) => Type::Variant(map_row(row, rule)),
            Type::SlotRecord { data, slots } => Type::SlotRecord {
                data: Box::new(map_row(data, rule)),
                slots: Box::new(map_row(slots, rule)),
            },
            _ => ty.clone(),
        },
    }
}

/// Rewrite each type of a list.
pub fn map_types<R: TypeRewrite>(types: &Vec<Type>, rule: &R) -> (rewritten: Vec<Type>)
    ensures
        types_view(rewritten@) == mapped_all(types_view(types@), rule.rule()),
    decreases types,
{
    let mut rewritten: Vec<Type> = Vec::new();
    let mut index: usize = 0;
    while index < types.len()
        invariant
            index <= types.len(),
            rewritten.len() == index,
            forall|i: int|
                0 <= i < index ==> (#[trigger] rewritten@[i])@ == mapped(types@[i]@, rule.rule()),
        decreases types.len() - index,
    {
        rewritten.push(map_type(&types[index], rule));
        index += 1;
    }
    assert(types_view(rewritten@) =~= mapped_all(types_view(types@), rule.rule()));
    rewritten
}

fn map_entry<R: TypeRewrite>(entry: &RowEntry, rule: &R) -> (rewritten: RowEntry)
    ensures
        rewritten@ == mapped_entry(entry@, rule.rule()),
    decreases entry,
{
    match entry {
        RowEntry::Field { name, ty } => RowEntry::Field {
            name: name.clone(),
            ty: map_type(ty, rule),
        },
        RowEntry::Tag { name, payload } => RowEntry::Tag {
            name: name.clone(),
            payload: map_types(payload, rule),
        },
        RowEntry::Literal { value } => RowEntry::Literal { value: value.clone() },
    }
}

fn map_row<R: TypeRewrite>(row: &Row, rule: &R) -> (rewritten: Row)
    ensures
        rewritten@ == mapped_row(row@, rule.rule()),
    decreases row,
{
    let mut entries: Vec<RowEntry> = Vec::new();
    let mut index: usize = 0;
    while index < row.entries.len()
        invariant
            index <= row.entries.len(),
            entries.len() == index,
            forall|i: int|
                0 <= i < index ==> (#[trigger] entries@[i])@ == mapped_entry(
                    row.entries@[i]@,
                    rule.rule(),
                ),
        decreases row.entries.len() - index,
    {
        entries.push(map_entry(&row.entries[index], rule));
        index += 1;
    }
    let rewritten = Row { entries, tail: row.tail };
    assert(rewritten@.entries =~= mapped_row(row@, rule.rule()).entries);
    rewritten
}

/// The types that a map of types holds.
pub open spec fn type_map_view(map: Map<Seq<char>, Type>) -> Map<Seq<char>, SpecType> {
    Map::new(|name: Seq<char>| map.contains_key(name), |name: Seq<char>| map[name]@)
}

/// The rule that replaces each bound type variable.
pub open spec fn substitution_rule(bindings: Map<Seq<char>, SpecType>) -> spec_fn(
    SpecType,
) -> Option<SpecType> {
    |node: SpecType|
        match node {
            SpecType::Variable(name) => if bindings.contains_key(name) {
                Some(bindings[name])
            } else {
                None
            },
            _ => None,
        }
}

/// A type with its bound type variables replaced.
pub open spec fn substituted(ty: SpecType, bindings: Map<Seq<char>, SpecType>) -> SpecType {
    mapped(ty, substitution_rule(bindings))
}

/// Replaces type variables by types.
#[derive(Debug)]
pub struct Substitution {
    pub bindings: StringMap<Type>,
}

impl TypeRewrite for Substitution {
    open spec fn rule(&self) -> spec_fn(SpecType) -> Option<SpecType> {
        substitution_rule(type_map_view(self.bindings@))
    }

    fn rewrite(&self, node: &Type) -> (replacement: Option<Type>) {
        match node {
            Type::Variable(name) => match self.bindings.get(name.as_str()) {
                Some(ty) => Some(ty.clone()),
                None => None,
            },
            _ => None,
        }
    }
}

/// The rule that replaces one node by another.
pub open spec fn replacement_rule(target: SpecType, replacement: SpecType) -> spec_fn(
    SpecType,
) -> Option<SpecType> {
    |node: SpecType|
        if node == target {
            Some(replacement)
        } else {
            None
        }
}

/// Replaces every occurrence of a type by another.
#[derive(Debug)]
pub struct Replacement {
    pub target: Type,
    pub replacement: Type,
}

impl TypeRewrite for Replacement {
    open spec fn rule(&self) -> spec_fn(SpecType) -> Option<SpecType> {
        replacement_rule(self.target@, self.replacement@)
    }

    fn rewrite(&self, node: &Type) -> (replacement: Option<Type>) {
        if *node == self.target {
            Some(self.replacement.clone())
        } else {
            None
        }
    }
}

// ---------------------------------------------------------------------------
// Searching
// ---------------------------------------------------------------------------
/// Whether some node of a type satisfies a condition.
pub open spec fn some_node(ty: SpecType, test: spec_fn(SpecType) -> bool) -> bool
    decreases ty,
{
    test(ty) || match ty {
        SpecType::Apply { callee, args } => some_node(*callee, test) || some_node_in(args, test),
        SpecType::Function { params, result, .. } => some_node_in(params, test) || some_node(
            *result,
            test,
        ),
        SpecType::Optional(inner) | SpecType::Nullable(inner) => some_node(*inner, test),
        SpecType::Tuple(items) => some_node_in(items, test),
        SpecType::Record(row) | SpecType::Variant(row) => some_node_in_row(row, test),
        SpecType::SlotRecord { data, slots } => some_node_in_row(*data, test) || some_node_in_row(
            *slots,
            test,
        ),
        _ => false,
    }
}

pub open spec fn some_node_in(types: Seq<SpecType>, test: spec_fn(SpecType) -> bool) -> bool
    decreases types,
{
    exists|i: int| 0 <= i < types.len() && some_node(#[trigger] types[i], test)
}

pub open spec fn some_node_in_entry(entry: SpecRowEntry, test: spec_fn(SpecType) -> bool) -> bool
    decreases entry,
{
    match entry {
        SpecRowEntry::Field { ty, .. } => some_node(ty, test),
        SpecRowEntry::Tag { payload, .. } => some_node_in(payload, test),
        SpecRowEntry::Literal { .. } => false,
    }
}

pub open spec fn some_node_in_row(row: SpecRow, test: spec_fn(SpecType) -> bool) -> bool
    decreases row,
{
    exists|i: int|
        0 <= i < row.entries.len() && some_node_in_entry(#[trigger] row.entries[i], test)
}

/// A condition on a single node of a type.
pub trait NodeTest {
    spec fn condition(&self) -> spec_fn(SpecType) -> bool;

    fn test(&self, node: &Type) -> (holds: bool)
        ensures
            holds == (self.condition())(node@),
    ;
}

/// Whether some node of a type satisfies a condition.
pub fn any_node<C: NodeTest>(ty: &Type, test: &C) -> (found: bool)
    ensures
        found == some_node(ty@, test.condition()),
    decreases ty,
{
    test.test(ty) || match ty {
        Type::Apply { callee, args } => any_node(callee, test) || any_node_in(args, test),
        Type::Function { params, result, .. } => any_node_in(params, test) || any_node(
            result,
            test,
        ),
        Type::Optional(inner) | Type::Nullable(inner) => any_node(inner, test),
        Type::Tuple(items) => any_node_in(items, test),
        Type::Record(row) | Type::Variant(row) => any_node_in_row(row, test),
        Type::SlotRecord { data, slots } => any_node_in_row(data, test) || any_node_in_row(
            slots,
            test,
        ),
        _ => false,
    }
}

fn any_node_in<C: NodeTest>(types: &Vec<Type>, test: &C) -> (found: bool)
    ensures
        found == some_node_in(types_view(types@), test.condition()),
    decreases types,
{
    let mut index: usize = 0;
    while index < types.len()
        invariant
            index <= types.len(),
            forall|i: int|
                0 <= i < index ==> !some_node(#[trigger] types_view(types@)[i], test.condition()),
        decreases types.len() - index,
    {
        if any_node(&types[index], test) {
            assert(types_view(types@)[index as int] == types@[index as int]@);
            return true;
        }
        index += 1;
    }
    false
}

fn any_node_in_row<C: NodeTest>(row: &Row, test: &C) -> (found: bool)
    ensures
        found == some_node_in_row(row@, test.condition()),
    decreases row,
{
    let mut index: usize = 0;
    while index < row.entries.len()
        invariant
            index <= row.entries.len(),
            forall|i: int|
                0 <= i < index ==> !some_node_in_entry(
                    #[trigger] row@.entries[i],
                    test.condition(),
                ),
        decreases row.entries.len() - index,
    {
        let found = match &row.entries[index] {
            RowEntry::Field { ty, .. } => any_node(ty, test),
            RowEntry::Tag { payload, .. } => any_node_in(payload, test),
            RowEntry::Literal { .. } => false,
        };
        assert(row@.entries[index as int] == row.entries@[index as int]@);
        if found {
            return true;
        }
        index += 1;
    }
    false
}

/// The condition of being a deferred type.
pub open spec fn is_deferred() -> spec_fn(SpecType) -> bool {
    |node: SpecType| node is Deferred
}

/// The condition of being a type variable.
pub open spec fn is_variable() -> spec_fn(SpecType) -> bool {
    |node: SpecType| node is Variable
}

/// The condition of standing for a type that is not known yet.
pub open spec fn is_unresolved() -> spec_fn(SpecType) -> bool {
    |node: SpecType| node is Deferred || node is Variable || node is Meta
}

/// The condition of being one given type.
pub open spec fn is_node(target: SpecType) -> spec_fn(SpecType) -> bool {
    |node: SpecType| node == target
}

struct DeferredNode;

impl NodeTest for DeferredNode {
    open spec fn condition(&self) -> spec_fn(SpecType) -> bool {
        is_deferred()
    }

    fn test(&self, node: &Type) -> (holds: bool) {
        matches!(node, Type::Deferred)
    }
}

struct VariableNode;

impl NodeTest for VariableNode {
    open spec fn condition(&self) -> spec_fn(SpecType) -> bool {
        is_variable()
    }

    fn test(&self, node: &Type) -> (holds: bool) {
        matches!(node, Type::Variable(_))
    }
}

struct UnresolvedNode;

impl NodeTest for UnresolvedNode {
    open spec fn condition(&self) -> spec_fn(SpecType) -> bool {
        is_unresolved()
    }

    fn test(&self, node: &Type) -> (holds: bool) {
        matches!(node, Type::Deferred | Type::Variable(_) | Type::Meta(_))
    }
}

/// Whether a deferred type occurs in a type.
pub fn type_contains_deferred(ty: &Type) -> (found: bool)
    ensures
        found == some_node(ty@, is_deferred()),
{
    any_node(ty, &DeferredNode)
}

/// Whether a type variable occurs in a type.
pub fn type_contains_variable(ty: &Type) -> (found: bool)
    ensures
        found == some_node(ty@, is_variable()),
{
    any_node(ty, &VariableNode)
}

/// A type is resolved when nothing in it stands for a type that is not known
/// yet.
pub open spec fn resolved(ty: SpecType) -> bool {
    !some_node(ty, is_unresolved())
}

/// Whether a type is resolved throughout.
pub fn is_resolved_value_type(ty: &Type) -> (is_resolved: bool)
    ensures
        is_resolved == resolved(ty@),
{
    !any_node(ty, &UnresolvedNode)
}

// ---------------------------------------------------------------------------
// Variables and metavariables
// ---------------------------------------------------------------------------
/// The names of the type variables of a type.
pub open spec fn variables(ty: SpecType) -> Set<Seq<char>> {
    Set::new(|name: Seq<char>| some_node(ty, is_node(SpecType::Variable(name))))
}

/// The names of the type variables of a list of types.
pub open spec fn variables_in(types: Seq<SpecType>) -> Set<Seq<char>> {
    Set::new(|name: Seq<char>| some_node_in(types, is_node(SpecType::Variable(name))))
}

/// The names of the type variables of a row.
pub open spec fn variables_in_row(row: SpecRow) -> Set<Seq<char>> {
    Set::new(|name: Seq<char>| some_node_in_row(row, is_node(SpecType::Variable(name))))
}

/// Add the names of the type variables of a type to an increasing list.
pub fn collect_type_variable_names(ty: &Type, names: &mut Vec<String>)
    requires
        increasing(texts_view(old(names)@)),
    ensures
        increasing(texts_view(final(names)@)),
        texts_view(final(names)@).to_set() == texts_view(old(names)@).to_set().union(
            variables(ty@),
        ),
    decreases ty,
{
    let ghost before = texts_view(names@).to_set();
    match ty {
        Type::Variable(name) => {
            insert_name(names, name.as_str());
        },
        Type::Apply { callee, args } => {
            collect_type_variable_names(callee, names);
            collect_variable_names_in(args, names);
        },
        Type::Function { params, result, .. } => {
            collect_variable_names_in(params, names);
            collect_type_variable_names(result, names);
        },
        Type::Optional(inner) | Type::Nullable(inner) => {
            collect_type_variable_names(inner, names);
        },
        Type::Tuple(items) => {
            collect_variable_names_in(items, names);
        },
        Type::Record(row) | Type::Variant(row) => {
            collect_variable_names_in_row(row, names);
        },
        Type::SlotRecord { data, slots } => {
            collect_variable_names_in_row(data, names);
            collect_variable_names_in_row(slots, names);
        },
        _ => {},
    }
    assert(texts_view(names@).to_set() =~= before.union(variables(ty@)));
}

proof fn some_node_in_prefix(
    types: Seq<SpecType>,
    index: int,
    test: spec_fn(SpecType) -> bool,
)
    requires
        0 <= index < types.len(),
    ensures
        some_node_in(types.take(index + 1), test) == (some_node_in(types.take(index), test)
            || some_node(types[index], test)),
{
    let shorter = types.take(index);
    let longer = types.take(index + 1);
    if some_node_in(shorter, test) {
        let i = choose|i: int| 0 <= i < shorter.len() && some_node(#[trigger] shorter[i], test);
        assert(longer[i] == shorter[i]);
    }
    if some_node(types[index], test) {
        assert(longer[index] == types[index]);
    }
    if some_node_in(longer, test) {
        let i = choose|i: int| 0 <= i < longer.len() && some_node(#[trigger] longer[i], test);
        if i < index {
            assert(shorter[i] == longer[i]);
        }
    }
}

/// Add the names of the type variables of each type of a list.
pub fn collect_variable_names_in(types: &Vec<Type>, names: &mut Vec<String>)
    requires
        increasing(texts_view(old(names)@)),
    ensures
        increasing(texts_view(final(names)@)),
        texts_view(final(names)@).to_set() == texts_view(old(names)@).to_set().union(
            variables_in(types_view(types@)),
        ),
    decreases types,
{
    let ghost before = texts_view(names@).to_set();
    let ghost all = types_view(types@);
    let mut index: usize = 0;
    assert(before =~= before.union(variables_in(all.take(0))));
    while index < types.len()
        invariant
            index <= types.len(),
            all == types_view(types@),
            increasing(texts_view(names@)),
            texts_view(names@).to_set() == before.union(variables_in(all.take(index as int))),
        decreases types.len() - index,
    {
        collect_type_variable_names(&types[index], names);
        proof {
            assert(all[index as int] == types@[index as int]@);
            assert forall|name: Seq<char>|
                variables_in(all.take(index + 1)).contains(name) == (variables_in(
                    all.take(index as int),
                ).contains(name) || variables(all[index as int]).contains(name)) by {
                some_node_in_prefix(all, index as int, is_node(SpecType::Variable(name)));
            }
            assert(texts_view(names@).to_set() =~= before.union(
                variables_in(all.take(index + 1)),
            ));
        }
        index += 1;
    }
    assert(all.take(all.len() as int) =~= all);
}

proof fn some_node_in_row_prefix(row: SpecRow, index: int, test: spec_fn(SpecType) -> bool)
    requires
        0 <= index < row.entries.len(),
    ensures
        some_node_in_row(row_prefix(row, index + 1), test) == (some_node_in_row(
            row_prefix(row, index),
            test,
        ) || some_node_in_entry(row.entries[index], test)),
{
    let shorter = row_prefix(row, index);
    let longer = row_prefix(row, index + 1);
    if some_node_in_row(shorter, test) {
        let i = choose|i: int|
            0 <= i < shorter.entries.len() && some_node_in_entry(
                #[trigger] shorter.entries[i],
                test,
            );
        assert(longer.entries[i] == shorter.entries[i]);
    }
    if some_node_in_entry(row.entries[index], test) {
        assert(longer.entries[index] == row.entries[index]);
    }
    if some_node_in_row(longer, test) {
        let i = choose|i: int|
            0 <= i < longer.entries.len() && some_node_in_entry(#[trigger] longer.entries[i], test);
        if i < index {
            assert(shorter.entries[i] == longer.entries[i]);
        }
    }
}

/// The row of the first entries of a row.
pub open spec fn row_prefix(row: SpecRow, length: int) -> SpecRow {
    SpecRow { entries: row.entries.take(length), tail: row.tail }
}

/// The names of the type variables of a row entry.
pub open spec fn variables_in_entry(entry: SpecRowEntry) -> Set<Seq<char>> {
    Set::new(|name: Seq<char>| some_node_in_entry(entry, is_node(SpecType::Variable(name))))
}

fn collect_variable_names_in_row(row: &Row, names: &mut Vec<String>)
    requires
        increasing(texts_view(old(names)@)),
    ensures
        increasing(texts_view(final(names)@)),
        texts_view(final(names)@).to_set() == texts_view(old(names)@).to_set().union(
            variables_in_row(row@),
        ),
    decreases row,
{
    let ghost before = texts_view(names@).to_set();
    let mut index: usize = 0;
    assert(before =~= before.union(variables_in_row(row_prefix(row@, 0))));
    while index < row.entries.len()
        invariant
            index <= row.entries.len(),
            increasing(texts_view(names@)),
            texts_view(names@).to_set() == before.union(
                variables_in_row(row_prefix(row@, index as int)),
            ),
        decreases row.entries.len() - index,
    {
        let ghost shorter = texts_view(names@).to_set();
        match &row.entries[index] {
            RowEntry::Field { ty, .. } => {
                collect_type_variable_names(ty, names);
            },
            RowEntry::Tag { payload, .. } => {
                collect_variable_names_in(payload, names);
            },
            RowEntry::Literal { .. } => {},
        }
        proof {
            assert(row@.entries[index as int] == row.entries@[index as int]@);
            assert(texts_view(names@).to_set() =~= shorter.union(
                variables_in_entry(row@.entries[index as int]),
            ));
            assert forall|name: Seq<char>|
                variables_in_row(row_prefix(row@, index + 1)).contains(name) == (variables_in_row(
                    row_prefix(row@, index as int),
                ).contains(name) || variables_in_entry(row@.entries[index as int]).contains(
                    name,
                )) by {
                some_node_in_row_prefix(row@, index as int, is_node(SpecType::Variable(name)));
            }
            assert(texts_view(names@).to_set() =~= before.union(
                variables_in_row(row_prefix(row@, index + 1)),
            ));
        }
        index += 1;
    }
    assert(row@.entries.take(row@.entries.len() as int) =~= row@.entries);
}

/// The names of the type variables of a type, in increasing order.
pub fn type_variable_names(ty: &Type) -> (names: Vec<String>)
    ensures
        increasing(texts_view(names@)),
        texts_view(names@).to_set() == variables(ty@),
{
    let mut names: Vec<String> = Vec::new();
    collect_type_variable_names(ty, &mut names);
    assert(texts_view(names@).to_set() =~= variables(ty@));
    names
}

/// The metavariables of a type in the order of their occurrences.
pub open spec fn metas(ty: SpecType) -> Seq<u32>
    decreases ty,
{
    match ty {
        SpecType::Meta(id) => seq![id],
        SpecType::Apply { callee, args } => metas(*callee) + metas_in(args),
        SpecType::Function { params, result, .. } => metas_in(params) + metas(*result),
        SpecType::Optional(inner) | SpecType::Nullable(inner) => metas(*inner),
        SpecType::Tuple(items) => metas_in(items),
        SpecType::Record(row) | SpecType::Variant(row) => metas_in_row(row),
        SpecType::SlotRecord { data, slots } => metas_in_row(*data) + metas_in_row(*slots),
        _ => Seq::empty(),
    }
}

pub open spec fn metas_in(types: Seq<SpecType>) -> Seq<u32>
    decreases types,
{
    if types.len() == 0 {
        Seq::empty()
    } else {
        metas_in(types.drop_last()) + metas(types.last())
    }
}

pub open spec fn metas_in_entry(entry: SpecRowEntry) -> Seq<u32>
    decreases entry,
{
    match entry {
        SpecRowEntry::Field { ty, .. } => metas(ty),
        SpecRowEntry::Tag { payload, .. } => metas_in(payload),
        SpecRowEntry::Literal { .. } => Seq::empty(),
    }
}

pub open spec fn metas_in_entries(entries: Seq<SpecRowEntry>) -> Seq<u32>
    decreases entries,
{
    if entries.len() == 0 {
        Seq::empty()
    } else {
        metas_in_entries(entries.drop_last()) + metas_in_entry(entries.last())
    }
}

pub open spec fn metas_in_row(row: SpecRow) -> Seq<u32>
    decreases row,
{
    metas_in_entries(row.entries)
}

/// Append the metavariables of a type to a list.
pub fn collect_metas(ty: &Type, ids: &mut Vec<u32>)
    ensures
        final(ids)@ == old(ids)@ + metas(ty@),
    decreases ty,
{
    match ty {
        Type::Meta(id) => {
            ids.push(*id);
        },
        Type::Apply { callee, args } => {
            collect_metas(callee, ids);
            collect_metas_in(args, ids);
        },
        Type::Function { params, result, .. } => {
            collect_metas_in(params, ids);
            collect_metas(result, ids);
        },
        Type::Optional(inner) | Type::Nullable(inner) => {
            collect_metas(inner, ids);
        },
        Type::Tuple(items) => {
            collect_metas_in(items, ids);
        },
        Type::Record(row) | Type::Variant(row) => {
            collect_metas_in_row(row, ids);
        },
        Type::SlotRecord { data, slots } => {
            collect_metas_in_row(data, ids);
            collect_metas_in_row(slots, ids);
        },
        _ => {},
    }
    assert(ids@ =~= old(ids)@ + metas(ty@));
}

/// Append the metavariables of each type of a list.
pub fn collect_metas_in(types: &Vec<Type>, ids: &mut Vec<u32>)
    ensures
        final(ids)@ == old(ids)@ + metas_in(types_view(types@)),
    decreases types,
{
    let ghost before = ids@;
    let ghost all = types_view(types@);
    let mut index: usize = 0;
    assert(ids@ =~= before + metas_in(all.take(0)));
    while index < types.len()
        invariant
            index <= types.len(),
            all == types_view(types@),
            ids@ == before + metas_in(all.take(index as int)),
        decreases types.len() - index,
    {
        collect_metas(&types[index], ids);
        proof {
            let longer = all.take(index + 1);
            assert(longer.drop_last() =~= all.take(index as int));
            assert(longer.last() == types@[index as int]@);
            assert(ids@ =~= before + metas_in(longer));
        }
        index += 1;
    }
    assert(all.take(all.len() as int) =~= all);
}

fn collect_metas_in_row(row: &Row, ids: &mut Vec<u32>)
    ensures
        final(ids)@ == old(ids)@ + metas_in_row(row@),
    decreases row,
{
    let ghost before = ids@;
    let ghost all = row@.entries;
    let mut index: usize = 0;
    assert(ids@ =~= before + metas_in_entries(all.take(0)));
    while index < row.entries.len()
        invariant
            index <= row.entries.len(),
            all == row@.entries,
            ids@ == before + metas_in_entries(all.take(index as int)),
        decreases row.entries.len() - index,
    {
        let ghost shorter = ids@;
        match &row.entries[index] {
            RowEntry::Field { ty, .. } => {
                collect_metas(ty, ids);
            },
            RowEntry::Tag { payload, .. } => {
                collect_metas_in(payload, ids);
            },
            RowEntry::Literal { .. } => {},
        }
        proof {
            let longer = all.take(index + 1);
            assert(longer.drop_last() =~= all.take(index as int));
            assert(longer.last() == row.entries@[index as int]@);
            assert(ids@ =~= shorter + metas_in_entry(longer.last()));
            assert(ids@ =~= before + metas_in_entries(longer));
        }
        index += 1;
    }
    assert(all.take(all.len() as int) =~= all);
}

/// The metavariables of a type in the order of their occurrences.
pub fn free_metas(ty: &Type) -> (ids: Vec<u32>)
    ensures
        ids@ == metas(ty@),
{
    let mut ids: Vec<u32> = Vec::new();
    collect_metas(ty, &mut ids);
    assert(ids@ =~= metas(ty@));
    ids
}

// ---------------------------------------------------------------------------
// Literals
// ---------------------------------------------------------------------------
/// The builtin type that literals belong to.
#[derive(Debug, Clone, Copy, PartialEq, Eq, Structural)]
pub enum LiteralBase {
    Text,
    Bool,
    Number,
}

/// The base of a literal; a regex has none.
pub open spec fn base_of(literal: SpecLiteral) -> Option<LiteralBase> {
    match literal {
        SpecLiteral::Bool(_) => Some(LiteralBase::Bool),
        SpecLiteral::Number(_) => Some(LiteralBase::Number),
        SpecLiteral::String(_) => Some(LiteralBase::Text),
        SpecLiteral::Regex(_) => None,
    }
}

/// The base of a literal.
pub fn literal_base(literal: &Literal) -> (base: Option<LiteralBase>)
    ensures
        base == base_of(literal@),
{
    match literal {
        Literal::Bool(_) => Some(LiteralBase::Bool),
        Literal::Number(_) => Some(LiteralBase::Number),
        Literal::String(_) => Some(LiteralBase::Text),
        Literal::Regex(_) => None,
    }
}

/// Whether a row entry is a literal with the given base.
pub open spec fn entry_has_base(entry: SpecRowEntry, base: LiteralBase) -> bool {
    entry matches SpecRowEntry::Literal { value } && base_of(value) == Some(base)
}

/// Whether a row lists literals of one base and nothing else.
pub open spec fn row_has_base(row: SpecRow, base: LiteralBase) -> bool {
    &&& row.entries.len() > 0
    &&& forall|i: int|
        0 <= i < row.entries.len() ==> entry_has_base(#[trigger] row.entries[i], base)
}

/// The common base of a row of literals.
pub open spec fn row_base(row: SpecRow) -> Option<LiteralBase> {
    if row_has_base(row, LiteralBase::Text) {
        Some(LiteralBase::Text)
    } else if row_has_base(row, LiteralBase::Bool) {
        Some(LiteralBase::Bool)
    } else if row_has_base(row, LiteralBase::Number) {
        Some(LiteralBase::Number)
    } else {
        None
    }
}

/// The common base of a nonempty row that lists only literals.
pub fn literal_variant_base(row: &Row) -> (base: Option<LiteralBase>)
    ensures
        base == row_base(row@),
{
    if row.entries.len() == 0 {
        return None;
    }
    assert(row@.entries[0] == row.entries@[0]@);
    let base = match &row.entries[0] {
        RowEntry::Literal { value } => match literal_base(value) {
            Some(base) => base,
            None => {
                return None;
            },
        },
        _ => {
            return None;
        },
    };
    let mut index: usize = 1;
    while index < row.entries.len()
        invariant
            1 <= index <= row.entries.len(),
            forall|i: int| 0 <= i < index ==> entry_has_base(#[trigger] row@.entries[i], base),
        decreases row.entries.len() - index,
    {
        assert(row@.entries[index as int] == row.entries@[index as int]@);
        assert(entry_has_base(row@.entries[0], base));
        let agrees = match &row.entries[index] {
            RowEntry::Literal { value } => match literal_base(value) {
                Some(other) => other == base,
                None => false,
            },
            _ => false,
        };
        if !agrees {
            return None;
        }
        index += 1;
    }
    assert(entry_has_base(row@.entries[0], base));
    Some(base)
}

impl LiteralBase {
    /// Whether a named type holds literals of this base.
    pub open spec fn belongs_to(self, name: Seq<char>) -> bool {
        match self {
            LiteralBase::Text => name == "Text"@,
            LiteralBase::Bool => name == "Bool"@,
            LiteralBase::Number => name == "Int"@ || name == "Float"@,
        }
    }

    /// Whether a named type holds literals of this base.
    pub fn matches_named(self, name: &str) -> (matching: bool)
        ensures
            matching == self.belongs_to(name@),
    {
        match self {
            LiteralBase::Text => same_text(name, "Text"),
            LiteralBase::Bool => same_text(name, "Bool"),
            LiteralBase::Number => same_text(name, "Int") || same_text(name, "Float"),
        }
    }
}

/// A literal as it is written.
pub open spec fn literal_text(literal: SpecLiteral) -> Seq<char> {
    match literal {
        SpecLiteral::Bool(value) => if value {
            "true"@
        } else {
            "false"@
        },
        SpecLiteral::Number(text) => text,
        SpecLiteral::String(text) => text,
        SpecLiteral::Regex(text) => text,
    }
}

/// A literal as it is written.
pub fn render_literal_value(literal: &Literal) -> (text: &str)
    ensures
        text@ == literal_text(literal@),
{
    match literal {
        Literal::Bool(value) => if *value {
            "true"
        } else {
            "false"
        },
        Literal::Number(text) => text.as_str(),
        Literal::String(text) => text.as_str(),
        Literal::Regex(text) => text.as_str(),
    }
}

/// Whether a numeral is written with a point or an exponent.
pub open spec fn float_text(text: Seq<char>) -> bool {
    text.contains('.') || text.contains('e') || text.contains('E')
}

/// Whether a numeral is written with a point or an exponent.
pub fn is_float_literal_text(text: &str) -> (float: bool)
    ensures
        float == float_text(text@),
{
    let length: usize = text.unicode_len();
    let mut index: usize = 0;
    while index < length
        invariant
            index <= length,
            length == text@.len(),
            forall|i: int|
                0 <= i < index ==> (#[trigger] text@[i]) != '.' && text@[i] != 'e' && text@[i]
                    != 'E',
        decreases length - index,
    {
        let c: char = text.get_char(index);
        if c == '.' || c == 'e' || c == 'E' {
            assert(text@[index as int] == c);
            return true;
        }
        index += 1;
    }
    false
}

/// Whether a row entry is a number written as a float.
pub open spec fn float_entry(entry: SpecRowEntry) -> bool {
    entry matches SpecRowEntry::Literal { value: SpecLiteral::Number(text) } && float_text(text)
}

/// Whether a row lists a number that is written as a float.
pub open spec fn lists_float(row: SpecRow) -> bool {
    exists|i: int| 0 <= i < row.entries.len() && float_entry(#[trigger] row.entries[i])
}

/// Whether a row lists a number that is written as a float.
pub fn row_lists_float(row: &Row) -> (found: bool)
    ensures
        found == lists_float(row@),
{
    let mut index: usize = 0;
    while index < row.entries.len()
        invariant
            index <= row.entries.len(),
            forall|i: int| 0 <= i < index ==> !float_entry(#[trigger] row@.entries[i]),
        decreases row.entries.len() - index,
    {
        assert(row@.entries[index as int] == row.entries@[index as int]@);
        if let RowEntry::Literal { value: Literal::Number(number) } = &row.entries[index] {
            if is_float_literal_text(number.as_str()) {
                return true;
            }
        }
        index += 1;
    }
    false
}

/// The builtin type that a row of literals widens to.
pub open spec fn widened_base(row: SpecRow) -> Option<SpecType> {
    match row_base(row) {
        Some(LiteralBase::Text) => Some(SpecType::Named("Text"@)),
        Some(LiteralBase::Bool) => Some(SpecType::Named("Bool"@)),
        Some(LiteralBase::Number) => Some(
            if lists_float(row) {
                SpecType::Named("Float"@)
            } else {
                SpecType::Named("Int"@)
            },
        ),
        None => None,
    }
}

/// The builtin type that a row of literals widens to.
pub fn widen_literal_row(row: &Row) -> (widened: Option<Type>)
    ensures
        match widened {
            Some(widened) => widened_base(row@) == Some(widened@),
            None => widened_base(row@) is None,
        },
{
    match literal_variant_base(row) {
        Some(LiteralBase::Text) => Some(named_builtin("Text")),
        Some(LiteralBase::Bool) => Some(named_builtin("Bool")),
        Some(LiteralBase::Number) => Some(
            if row_lists_float(row) {
                named_builtin("Float")
            } else {
                named_builtin("Int")
            },
        ),
        None => None,
    }
}

/// The owner that a literal type dispatches through: the base of its literals.
pub open spec fn widened_owner(ty: SpecType) -> SpecType {
    match literal_rule()(ty) {
        Some(base) => base,
        None => ty,
    }
}

/// The owner that a literal type dispatches through: the base of its literals.
pub fn widen_literal_method_owner(ty: &Type) -> (owner: Type)
    ensures
        owner@ == widened_owner(ty@),
{
    match ty {
        Type::Variant(row) => match widen_literal_row(row) {
            Some(base) => base,
            None => ty.clone(),
        },
        _ => ty.clone(),
    }
}

/// The owner that a literal type dispatches through is no literal type.
pub proof fn widening_settles(ty: SpecType)
    ensures
        widened_owner(widened_owner(ty)) == widened_owner(ty),
{
}

/// The rule that replaces each literal type by the base of its literals.
pub open spec fn literal_rule() -> spec_fn(SpecType) -> Option<SpecType> {
    |node: SpecType|
        match node {
            SpecType::Variant(row) => widened_base(row),
            _ => None,
        }
}

/// Replaces literal types by the bases of their literals.
#[derive(Debug, Clone, Copy)]
pub struct LiteralWidening;

impl TypeRewrite for LiteralWidening {
    open spec fn rule(&self) -> spec_fn(SpecType) -> Option<SpecType> {
        literal_rule()
    }

    fn rewrite(&self, node: &Type) -> (replacement: Option<Type>) {
        match node {
            Type::Variant(row) => widen_literal_row(row),
            _ => None,
        }
    }
}

} // verus!
