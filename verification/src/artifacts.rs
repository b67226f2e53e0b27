//! Values, and types that stand where values are expected.
use crate::collections::{StringMap, StringSet};
use crate::rows::{is_non_liftable, is_non_liftable_artifact_type};
use crate::syntax::{ungroup_expr, ungrouped, Expr, ExprKind, RecordEntry};
use crate::text::same_text;
use crate::type_ops::{is_deferred, some_node, type_contains_deferred};
use crate::types::Type;
use vstd::prelude::*;

verus! {

// ---------------------------------------------------------------------------
// Shapes of values
// ---------------------------------------------------------------------------
/// Whether an expression is built from literals and tags alone.
pub open spec fn is_value_shape(value: Expr) -> bool
    decreases value, 0nat,
{
    match value.kind {
        ExprKind::Group(inner) => is_value_shape(*inner),
        ExprKind::Literal(_) => true,
        ExprKind::Tag(_) => true,
        ExprKind::Undefined => true,
        ExprKind::Null => true,
        ExprKind::Tuple(items) => all_value_shapes(items@, items@.len()),
        ExprKind::Array(entries) => are_value_entries(entries@),
        ExprKind::Record(entries) => are_value_entries(entries@),
        ExprKind::SetLiteral(entries) => are_value_entries(entries@),
        ExprKind::Call { callee, args } => ungrouped(*callee).kind is Tag && all_value_shapes(
            args@,
            args@.len(),
        ),
        _ => false,
    }
}

/// Whether the first expressions are built from literals and tags alone.
pub open spec fn all_value_shapes(items: Seq<Expr>, count: nat) -> bool
    decreases items, count,
{
    if count == 0 || count > items.len() {
        true
    } else {
        all_value_shapes(items, (count - 1) as nat) && is_value_shape(items[count - 1])
    }
}

/// Whether what an entry holds is built from literals and tags alone.
pub open spec fn is_value_entry(entry: RecordEntry) -> bool
    decreases entry, 0nat,
{
    match entry {
        RecordEntry::Field { value, .. } => is_value_shape(*value),
        RecordEntry::Element(value) => is_value_shape(*value),
        RecordEntry::FieldComputed { key, value, .. } => is_value_shape(*key) && is_value_shape(
            *value,
        ),
        _ => true,
    }
}

/// Whether the first entries hold values that are built from literals and tags
/// alone.
pub open spec fn all_value_entries(entries: Seq<RecordEntry>, count: nat) -> bool
    decreases entries, count,
{
    if count == 0 || count > entries.len() {
        true
    } else {
        all_value_entries(entries, (count - 1) as nat) && is_value_entry(entries[count - 1])
    }
}

/// Whether an entry holds a value.
pub open spec fn holds_value(entry: RecordEntry) -> bool {
    entry is Field || entry is Element || entry is FieldComputed
}

/// Whether entries are those of a value: they are built from literals and tags
/// alone, and some of them hold a value if there are any.
pub open spec fn are_value_entries(entries: Seq<RecordEntry>) -> bool
    decreases entries, entries.len() + 1,
{
    all_value_entries(entries, entries.len()) && (entries.len() == 0 || exists|i: int|
        0 <= i < entries.len() && holds_value(#[trigger] entries[i]))
}

/// Whether an expression is built from literals and tags alone.
pub fn literal_or_tag_value_shape(value: &Expr) -> (shape: bool)
    ensures
        shape == is_value_shape(*value),
    decreases value, 0nat,
{
    match &value.kind {
        ExprKind::Group(inner) => literal_or_tag_value_shape(inner),
        ExprKind::Literal(_) => true,
        ExprKind::Tag(_) => true,
        ExprKind::Undefined => true,
        ExprKind::Null => true,
        ExprKind::Tuple(items) => all_shapes(items),
        ExprKind::Array(entries) => row_literal_or_tag_value_shape(entries),
        ExprKind::Record(entries) => row_literal_or_tag_value_shape(entries),
        ExprKind::SetLiteral(entries) => row_literal_or_tag_value_shape(entries),
        ExprKind::Call { callee, args } => matches!(&ungroup_expr(callee).kind, ExprKind::Tag(_))
            && all_shapes(args),
        _ => false,
    }
}

fn all_shapes(items: &Vec<Expr>) -> (shapes: bool)
    ensures
        shapes == all_value_shapes(items@, items@.len()),
    decreases items, 0nat,
{
    let mut index: usize = 0;
    let mut shapes: bool = true;
    while index < items.len()
        invariant
            index <= items.len(),
            shapes == all_value_shapes(items@, index as nat),
        decreases items.len() - index,
    {
        if shapes {
            shapes = literal_or_tag_value_shape(&items[index]);
        }
        index += 1;
    }
    shapes
}

/// Whether entries are those of a value.
pub fn row_literal_or_tag_value_shape(entries: &Vec<RecordEntry>) -> (shape: bool)
    ensures
        shape == are_value_entries(entries@),
    decreases entries, 0nat,
{
    let mut index: usize = 0;
    let mut shapes: bool = true;
    let mut found: bool = entries.len() == 0;
    while index < entries.len()
        invariant
            index <= entries.len(),
            shapes == all_value_entries(entries@, index as nat),
            found == (entries@.len() == 0 || exists|i: int|
                0 <= i < index && holds_value(#[trigger] entries@[i])),
        decreases entries.len() - index,
    {
        assert(all_value_entries(entries@, (index + 1) as nat) == (all_value_entries(
            entries@,
            index as nat,
        ) && is_value_entry(entries@[index as int])));
        let holds = matches!(&entries[index], RecordEntry::Field { .. }) || matches!(
            &entries[index],
            RecordEntry::Element(_)
        ) || matches!(&entries[index], RecordEntry::FieldComputed { .. });
        if shapes {
            shapes = match &entries[index] {
                RecordEntry::Field { value, .. } => literal_or_tag_value_shape(value),
                RecordEntry::Element(value) => literal_or_tag_value_shape(value),
                RecordEntry::FieldComputed { key, value, .. } => literal_or_tag_value_shape(key)
                    && literal_or_tag_value_shape(value),
                _ => true,
            };
        }
        if holds {
            assert(holds_value(entries@[index as int]));
            found = true;
        }
        index += 1;
    }
    shapes && found
}

/// The operators whose operands may be literals.
pub open spec fn folds_operands(operator: Seq<char>) -> bool {
    operator == "+"@ || operator == "-"@ || operator == "*"@ || operator == "/"@ || operator
        == "=="@ || operator == "!="@ || operator == "<"@ || operator == "<="@ || operator == ">"@
        || operator == ">="@ || operator == "&&"@ || operator == "||"@
}

fn operator_folds_operands(operator: &str) -> (folds: bool)
    ensures
        folds == folds_operands(operator@),
{
    same_text(operator, "+") || same_text(operator, "-") || same_text(operator, "*") || same_text(
        operator,
        "/",
    ) || same_text(operator, "==") || same_text(operator, "!=") || same_text(operator, "<")
        || same_text(operator, "<=") || same_text(operator, ">") || same_text(operator, ">=")
        || same_text(operator, "&&") || same_text(operator, "||")
}

/// Whether an expression is an operation on literals.
pub open spec fn is_operation_shape(value: Expr) -> bool
    decreases value,
{
    match value.kind {
        ExprKind::Group(inner) => is_operation_shape(*inner),
        ExprKind::Unary { operator, value, .. } => (operator@ == "-"@ || operator@ == "!"@) && (
        is_value_shape(*value) || is_operation_shape(*value)),
        ExprKind::Binary { left, operator, right, .. } => folds_operands(operator@) && (
        is_value_shape(*left) || is_operation_shape(*left)) && (is_value_shape(*right)
            || is_operation_shape(*right)),
        _ => false,
    }
}

/// Whether an expression is an operation on literals.
pub fn literal_operation_value_shape(value: &Expr) -> (shape: bool)
    ensures
        shape == is_operation_shape(*value),
    decreases value,
{
    match &value.kind {
        ExprKind::Group(inner) => literal_operation_value_shape(inner),
        ExprKind::Unary { operator, value, .. } => (same_text(operator.as_str(), "-") || same_text(
            operator.as_str(),
            "!",
        )) && (literal_or_tag_value_shape(value) || literal_operation_value_shape(value)),
        ExprKind::Binary { left, operator, right, .. } => operator_folds_operands(
            operator.as_str(),
        ) && (literal_or_tag_value_shape(left) || literal_operation_value_shape(left)) && (
        literal_or_tag_value_shape(right) || literal_operation_value_shape(right)),
        _ => false,
    }
}

// ---------------------------------------------------------------------------
// Names that stand for types
// ---------------------------------------------------------------------------
/// What the value of a name at compile time is.
#[derive(Debug)]
#[allow(inconsistent_fields)]
pub enum ComptimeRhs {
    /// A literal, a tag or a runtime name.
    Value,
    /// Another name at compile time.
    Reference(String),
    /// Another expression: the names at compile time in it, whether it has a runtime
    /// name, and the normal type that it reads as, if nothing is wrong with that.
    Composite { references: Vec<String>, has_runtime_name: bool, ty: Option<Type> },
}

/// The names at compile time with their values, where each has one value; those
/// that are known to stand for types or not; and the names of types.
#[derive(Debug)]
pub struct ArtifactTable {
    pub names: StringSet,
    pub values: StringMap<ComptimeRhs>,
    pub known_types: StringSet,
}

/// What was found out about a name, with what is known afterwards.
pub ghost struct ArtifactSearch {
    pub found: bool,
    pub known: Map<Seq<char>, bool>,
}

/// Whether a type that was read from an expression stays a type.
pub open spec fn is_artifact_type(ty: Option<Type>) -> bool {
    match ty {
        Some(ty) => !some_node(ty@, is_deferred()) && is_non_liftable(ty@),
        None => false,
    }
}

/// Looking at a name leaves fewer names to look at.
pub proof fn visiting_shrinks(names: Set<Seq<char>>, visiting: Set<Seq<char>>, name: Seq<char>)
    requires
        names.finite(),
        names.contains(name),
        !visiting.contains(name),
    ensures
        names.difference(visiting.insert(name)).len() < names.difference(visiting).len(),
{
    let before = names.difference(visiting);
    let after = names.difference(visiting.insert(name));
    assert(after =~= before.remove(name));
    assert(before.contains(name));
}

/// Whether a name at compile time stands for a type. A name that is being looked at
/// does not count; what is found out about the others is kept.
pub open spec fn binding_search(
    table: ArtifactTable,
    name: Seq<char>,
    visiting: Set<Seq<char>>,
    known: Map<Seq<char>, bool>,
) -> ArtifactSearch
    decreases table.names@.difference(visiting).len(), 2nat, 0nat,
    when table.names@.finite()
{
    if known.contains_key(name) {
        ArtifactSearch { found: known[name], known }
    } else if !table.names@.contains(name) || visiting.contains(name) {
        ArtifactSearch { found: false, known }
    } else {
        proof {
            visiting_shrinks(table.names@, visiting, name);
        }
        let inner = if table.values@.contains_key(name) {
            rhs_search(table, table.values@[name], visiting.insert(name), known)
        } else {
            ArtifactSearch { found: false, known }
        };
        ArtifactSearch { found: inner.found, known: inner.known.insert(name, inner.found) }
    }
}

/// Whether a reference to a name stands for a type.
pub open spec fn reference_search(
    table: ArtifactTable,
    name: Seq<char>,
    visiting: Set<Seq<char>>,
    known: Map<Seq<char>, bool>,
) -> ArtifactSearch
    decreases table.names@.difference(visiting).len(), 3nat, 0nat,
    when table.names@.finite()
{
    if table.names@.contains(name) {
        binding_search(table, name, visiting, known)
    } else {
        ArtifactSearch { found: table.known_types@.contains(name), known }
    }
}

/// Whether a value at compile time is a type.
pub open spec fn rhs_search(
    table: ArtifactTable,
    rhs: ComptimeRhs,
    visiting: Set<Seq<char>>,
    known: Map<Seq<char>, bool>,
) -> ArtifactSearch
    decreases table.names@.difference(visiting).len(), 5nat, 0nat,
    when table.names@.finite()
{
    match rhs {
        ComptimeRhs::Value => ArtifactSearch { found: false, known },
        ComptimeRhs::Reference(name) => reference_search(table, name@, visiting, known),
        ComptimeRhs::Composite { references, has_runtime_name, ty } => if has_runtime_name {
            ArtifactSearch { found: false, known }
        } else {
            let all = references_search(table, references@, visiting, known, references@.len());
            ArtifactSearch { found: all.found && is_artifact_type(ty), known: all.known }
        },
    }
}

/// Whether the first references all stand for types. After one that does not, no
/// other is looked at.
pub open spec fn references_search(
    table: ArtifactTable,
    references: Seq<String>,
    visiting: Set<Seq<char>>,
    known: Map<Seq<char>, bool>,
    count: nat,
) -> ArtifactSearch
    decreases table.names@.difference(visiting).len(), 4nat, count,
    when table.names@.finite()
{
    if count == 0 || count > references.len() {
        ArtifactSearch { found: true, known }
    } else {
        let earlier = references_search(table, references, visiting, known, (count - 1) as nat);
        if earlier.found {
            reference_search(table, references[count - 1]@, visiting, earlier.known)
        } else {
            earlier
        }
    }
}

fn clone_names(names: &StringSet) -> (copied: StringSet)
    ensures
        copied@ == names@,
{
    names.clone()
}

/// Find out whether a name at compile time stands for a type.
pub fn comptime_binding_is_artifact(
    table: &ArtifactTable,
    name: &str,
    visiting: &StringSet,
    known: &mut StringMap<bool>,
) -> (found: bool)
    ensures
        found == binding_search(*table, name@, visiting@, old(known)@).found,
        final(known)@ == binding_search(*table, name@, visiting@, old(known)@).known,
    decreases table.names@.difference(visiting@).len(), 2nat, 0nat,
{
    proof {
        table.names.names_are_finite();
    }
    if let Some(found) = known.get(name) {
        return *found;
    }
    if !table.names.contains(name) || visiting.contains(name) {
        return false;
    }
    proof {
        visiting_shrinks(table.names@, visiting@, name@);
    }
    let found = match table.values.get(name) {
        Some(rhs) => {
            let mut inside = clone_names(visiting);
            inside.insert(name.to_owned());
            rhs_is_non_liftable_artifact(table, rhs, &inside, known)
        },
        None => false,
    };
    known.insert(name.to_owned(), found);
    found
}

/// Find out whether a reference to a name stands for a type.
pub fn comptime_reference_is_artifact(
    table: &ArtifactTable,
    name: &str,
    visiting: &StringSet,
    known: &mut StringMap<bool>,
) -> (found: bool)
    ensures
        found == reference_search(*table, name@, visiting@, old(known)@).found,
        final(known)@ == reference_search(*table, name@, visiting@, old(known)@).known,
    decreases table.names@.difference(visiting@).len(), 3nat, 0nat,
{
    proof {
        table.names.names_are_finite();
    }
    if table.names.contains(name) {
        comptime_binding_is_artifact(table, name, visiting, known)
    } else {
        table.known_types.contains(name)
    }
}

fn all_references_are_artifacts(
    table: &ArtifactTable,
    references: &Vec<String>,
    visiting: &StringSet,
    known: &mut StringMap<bool>,
) -> (found: bool)
    ensures
        found == references_search(
            *table,
            references@,
            visiting@,
            old(known)@,
            references@.len(),
        ).found,
        final(known)@ == references_search(
            *table,
            references@,
            visiting@,
            old(known)@,
            references@.len(),
        ).known,
    decreases table.names@.difference(visiting@).len(), 4nat, 0nat,
{
    proof {
        table.names.names_are_finite();
    }
    let ghost start = known@;
    let mut index: usize = 0;
    let mut found: bool = true;
    while index < references.len()
        invariant
            index <= references.len(),
            table.names@.finite(),
            start == old(known)@,
            found == references_search(
                *table,
                references@,
                visiting@,
                start,
                index as nat,
            ).found,
            known@ == references_search(*table, references@, visiting@, start, index as nat).known,
        decreases references.len() - index,
    {
        if found {
            found = comptime_reference_is_artifact(
                table,
                references[index].as_str(),
                visiting,
                known,
            );
        }
        index += 1;
    }
    found
}

/// Find out whether a value at compile time is a type.
pub fn rhs_is_non_liftable_artifact(
    table: &ArtifactTable,
    rhs: &ComptimeRhs,
    visiting: &StringSet,
    known: &mut StringMap<bool>,
) -> (found: bool)
    ensures
        found == rhs_search(*table, *rhs, visiting@, old(known)@).found,
        final(known)@ == rhs_search(*table, *rhs, visiting@, old(known)@).known,
    decreases table.names@.difference(visiting@).len(), 5nat, 0nat,
{
    proof {
        table.names.names_are_finite();
    }
    match rhs {
        ComptimeRhs::Value => false,
        ComptimeRhs::Reference(name) => comptime_reference_is_artifact(
            table,
            name.as_str(),
            visiting,
            known,
        ),
        ComptimeRhs::Composite { references, has_runtime_name, ty } => {
            if *has_runtime_name {
                return false;
            }
            if !all_references_are_artifacts(table, references, visiting, known) {
                return false;
            }
            match ty {
                Some(ty) => !type_contains_deferred(ty) && is_non_liftable_artifact_type(ty),
                None => false,
            }
        },
    }
}

/// Whether the value of a runtime name is a type: never where it is built from
/// literals, an operation on them or a selection of fields.
pub fn runtime_rhs_is_artifact(
    table: &ArtifactTable,
    value: &Expr,
    rhs: &ComptimeRhs,
    selects_fields: bool,
    known: &mut StringMap<bool>,
) -> (found: bool)
    ensures
        ({
            let search = match ungrouped(*value).kind {
                ExprKind::ComptimeName(name) => reference_search(
                    *table,
                    name@,
                    Set::empty(),
                    old(known)@,
                ),
                ExprKind::Name(_) => ArtifactSearch { found: false, known: old(known)@ },
                _ => if is_value_shape(ungrouped(*value)) || is_operation_shape(
                    ungrouped(*value),
                ) || selects_fields {
                    ArtifactSearch { found: false, known: old(known)@ }
                } else {
                    rhs_search(*table, *rhs, Set::empty(), old(known)@)
                },
            };
            &&& found == search.found
            &&& final(known)@ == search.known
        }),
{
    let value = ungroup_expr(value);
    let none = StringSet::new();
    match &value.kind {
        ExprKind::ComptimeName(name) => comptime_reference_is_artifact(
            table,
            name.as_str(),
            &none,
            known,
        ),
        ExprKind::Name(_) => false,
        _ => if literal_or_tag_value_shape(value) || literal_operation_value_shape(value)
            || selects_fields {
            false
        } else {
            rhs_is_non_liftable_artifact(table, rhs, &none, known)
        },
    }
}

// ---------------------------------------------------------------------------
// Laws
// ---------------------------------------------------------------------------
/// What was found out about names stays as it is, whatever is looked at later.
pub proof fn findings_are_kept(
    table: ArtifactTable,
    name: Seq<char>,
    visiting: Set<Seq<char>>,
    known: Map<Seq<char>, bool>,
    other: Seq<char>,
)
    requires
        table.names@.finite(),
        known.contains_key(other),
    ensures
        binding_search(table, name, visiting, known).known.contains_key(other),
        binding_search(table, name, visiting, known).known[other] == known[other],
    decreases table.names@.difference(visiting).len(), 2nat, 0nat,
{
    if !known.contains_key(name) && table.names@.contains(name) && !visiting.contains(name) {
        visiting_shrinks(table.names@, visiting, name);
        if table.values@.contains_key(name) {
            rhs_findings_are_kept(
                table,
                table.values@[name],
                visiting.insert(name),
                known,
                other,
            );
        }
    }
}

proof fn rhs_findings_are_kept(
    table: ArtifactTable,
    rhs: ComptimeRhs,
    visiting: Set<Seq<char>>,
    known: Map<Seq<char>, bool>,
    other: Seq<char>,
)
    requires
        table.names@.finite(),
        known.contains_key(other),
    ensures
        rhs_search(table, rhs, visiting, known).known.contains_key(other),
        rhs_search(table, rhs, visiting, known).known[other] == known[other],
    decreases table.names@.difference(visiting).len(), 5nat, 0nat,
{
    match rhs {
        ComptimeRhs::Reference(name) => {
            if table.names@.contains(name@) {
                findings_are_kept(table, name@, visiting, known, other);
            }
        },
        ComptimeRhs::Composite { references, .. } => {
            reference_findings_are_kept(
                table,
                references@,
                visiting,
                known,
                references@.len(),
                other,
            );
        },
        _ => {},
    }
}

proof fn reference_findings_are_kept(
    table: ArtifactTable,
    references: Seq<String>,
    visiting: Set<Seq<char>>,
    known: Map<Seq<char>, bool>,
    count: nat,
    other: Seq<char>,
)
    requires
        table.names@.finite(),
        known.contains_key(other),
    ensures
        references_search(table, references, visiting, known, count).known.contains_key(other),
        references_search(table, references, visiting, known, count).known[other]
            == known[other],
    decreases table.names@.difference(visiting).len(), 4nat, count,
{
    if count != 0 && count <= references.len() {
        reference_findings_are_kept(
            table,
            references,
            visiting,
            known,
            (count - 1) as nat,
            other,
        );
        let earlier = references_search(table, references, visiting, known, (count - 1) as nat);
        if earlier.found && table.names@.contains(references[count - 1]@) {
            findings_are_kept(table, references[count - 1]@, visiting, earlier.known, other);
            assert(reference_search(table, references[count - 1]@, visiting, earlier.known)
                == binding_search(table, references[count - 1]@, visiting, earlier.known));
        }
        assert(earlier.found ==> references_search(table, references, visiting, known, count)
            == reference_search(table, references[count - 1]@, visiting, earlier.known));
    }
}

} // verus!
