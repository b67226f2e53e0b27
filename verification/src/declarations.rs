//! Declarations of a module, and the names that they bind.
use crate::collections::{bindings_map, StringMap, StringSet};
use crate::normalize::{normal_form, normalize};
use crate::rows::{field_type, row_field_type, LocalValueType};
use crate::schemes::TypeScheme;
use crate::span::Span;
use crate::syntax::{ungroup_expr, ungrouped, Expr, ExprKind, RecordEntry};
use crate::text::{begins_uppercase, same_text, starts_uppercase};
use crate::type_ops::{
    is_deferred, is_resolved_value_type, resolved, some_node, type_contains_deferred,
    type_map_view,
};
use crate::types::{Row, RowEntry, RowTail, SpecRow, SpecRowEntry, SpecType, Type};
use vstd::prelude::*;

verus! {

// ---------------------------------------------------------------------------
// Fields that a pattern asks for
// ---------------------------------------------------------------------------
/// A field that a record does not have, at the place where a pattern asks for it.
#[derive(Debug)]
pub struct MissingField {
    pub name: String,
    pub span: Span,
}

pub open spec fn missing_view(missing: Seq<MissingField>) -> Seq<(Seq<char>, Span)> {
    Seq::new(missing.len(), |i: int| (missing[i].name@, missing[i].span))
}

/// A field that is missing from a row, if it is.
pub open spec fn missing_one(row: SpecRow, name: Seq<char>, span: Span) -> Seq<(Seq<char>, Span)> {
    if field_type(row, name) is None {
        seq![(name, span)]
    } else {
        Seq::empty()
    }
}

/// The fields that a pattern asks for and a record does not have, in order.
pub open spec fn missing_fields(
    pattern: Expr,
    row: SpecRow,
    definitions: Map<Seq<char>, SpecType>,
) -> Seq<(Seq<char>, Span)>
    decreases pattern, 0nat,
{
    match pattern.kind {
        ExprKind::Group(inner) => missing_fields(*inner, row, definitions),
        ExprKind::Record(entries) => entries_missing(entries@, row, definitions, entries@.len()),
        _ => Seq::empty(),
    }
}

/// The fields that the first entries of a pattern ask for and a record does not
/// have, in order.
pub open spec fn entries_missing(
    entries: Seq<RecordEntry>,
    row: SpecRow,
    definitions: Map<Seq<char>, SpecType>,
    count: nat,
) -> Seq<(Seq<char>, Span)>
    decreases entries, count,
{
    if count == 0 || count > entries.len() {
        Seq::empty()
    } else {
        entries_missing(entries, row, definitions, (count - 1) as nat) + entry_missing(
            entries[count - 1],
            row,
            definitions,
        )
    }
}

/// The fields that an entry of a pattern asks for and a record does not have.
pub open spec fn entry_missing(
    entry: RecordEntry,
    row: SpecRow,
    definitions: Map<Seq<char>, SpecType>,
) -> Seq<(Seq<char>, Span)>
    decreases entry, 0nat,
{
    match entry {
        RecordEntry::Field { name, name_span, value, .. } => match field_type(row, name@) {
            Some(ty) => match normal_form(ty, definitions) {
                SpecType::Record(nested) => missing_fields(*value, nested, definitions),
                _ => Seq::empty(),
            },
            None => seq![(name@, name_span)],
        },
        RecordEntry::Shorthand { name, name_span, .. } => missing_one(row, name@, name_span),
        RecordEntry::Rename { from, from_span, .. } => missing_one(row, from@, from_span),
        _ => Seq::empty(),
    }
}

fn note_missing(missing: &mut Vec<MissingField>, name: &String, span: Span)
    ensures
        missing_view(final(missing)@) == missing_view(old(missing)@) + seq![(name@, span)],
{
    missing.push(MissingField { name: name.clone(), span });
    assert(missing_view(missing@) =~= missing_view(old(missing)@) + seq![(name@, span)]);
}

/// Find the fields that a pattern asks for and a record does not have.
pub fn report_missing_record_pattern_fields_in_expr(
    pattern: &Expr,
    row: &Row,
    definitions: &StringMap<Type>,
    missing: &mut Vec<MissingField>,
)
    ensures
        missing_view(final(missing)@) == missing_view(old(missing)@) + missing_fields(
            *pattern,
            row@,
            type_map_view(definitions@),
        ),
    decreases pattern, 0nat,
{
    let ghost before = missing_view(missing@);
    match &pattern.kind {
        ExprKind::Group(inner) => {
            report_missing_record_pattern_fields_in_expr(inner, row, definitions, missing);
        },
        ExprKind::Record(entries) => {
            collect_missing(entries, row, definitions, missing);
        },
        _ => {
            assert(before + Seq::<(Seq<char>, Span)>::empty() =~= before);
        },
    }
}

fn collect_missing(
    entries: &Vec<RecordEntry>,
    row: &Row,
    definitions: &StringMap<Type>,
    missing: &mut Vec<MissingField>,
)
    ensures
        missing_view(final(missing)@) == missing_view(old(missing)@) + entries_missing(
            entries@,
            row@,
            type_map_view(definitions@),
            entries@.len(),
        ),
    decreases entries, 0nat,
{
    let ghost before = missing_view(missing@);
    let ghost map = type_map_view(definitions@);
    let mut index: usize = 0;
    assert(before + Seq::<(Seq<char>, Span)>::empty() =~= before);
    while index < entries.len()
        invariant
            index <= entries.len(),
            before == missing_view(old(missing)@),
            map == type_map_view(definitions@),
            missing_view(missing@) == before + entries_missing(
                entries@,
                row@,
                map,
                index as nat,
            ),
        decreases entries.len() - index,
    {
        let ghost earlier = missing_view(missing@);
        let ghost last = entry_missing(entries@[index as int], row@, map);
        assert(earlier + Seq::<(Seq<char>, Span)>::empty() =~= earlier);
        match &entries[index] {
            RecordEntry::Field { name, name_span, value, .. } => match row_field_type(
                row,
                name.as_str(),
            ) {
                Some(ty) => {
                    let normal = normalize(ty, definitions);
                    if let Type::Record(nested) = &normal {
                        report_missing_record_pattern_fields_in_expr(
                            value,
                            nested,
                            definitions,
                            missing,
                        );
                    }
                },
                None => {
                    note_missing(missing, name, *name_span);
                },
            },
            RecordEntry::Shorthand { name, name_span, .. } => {
                if row_field_type(row, name.as_str()).is_none() {
                    note_missing(missing, name, *name_span);
                }
            },
            RecordEntry::Rename { from, from_span, .. } => {
                if row_field_type(row, from.as_str()).is_none() {
                    note_missing(missing, from, *from_span);
                }
            },
            _ => {},
        }
        assert(missing_view(missing@) == earlier + last);
        assert(missing_view(missing@) =~= before + entries_missing(
            entries@,
            row@,
            map,
            (index + 1) as nat,
        ));
        index += 1;
    }
}

// ---------------------------------------------------------------------------
// Spreads
// ---------------------------------------------------------------------------
/// The row whose fields a spread binds: that of a closed record.
pub fn closed_spread_row(resolved: Type) -> (row: Option<Row>)
    ensures
        crate::rows::owned_row_view(row) == (match resolved@ {
            SpecType::Record(row) => if row.tail is Closed {
                Some(row)
            } else {
                None
            },
            _ => None,
        }),
{
    match resolved {
        Type::Record(row) => {
            assert(row@.tail == row.tail);
            if matches!(row.tail, RowTail::Closed) {
                Some(row)
            } else {
                None
            }
        },
        _ => None,
    }
}

/// A field that a spread binds.
#[derive(Debug)]
pub enum SpreadField {
    /// The name is bound to the type.
    Bind { name: String, ty: Type },
    /// The name is bound already.
    Duplicate { name: String },
}

/// A field that a spread binds.
pub ghost enum SpecSpreadField {
    Bind { name: Seq<char>, ty: SpecType },
    Duplicate { name: Seq<char> },
}

impl SpreadField {
    pub open spec fn view(&self) -> SpecSpreadField {
        match self {
            SpreadField::Bind { name, ty } => SpecSpreadField::Bind { name: name@, ty: ty@ },
            SpreadField::Duplicate { name } => SpecSpreadField::Duplicate { name: name@ },
        }
    }
}

pub open spec fn spread_fields_view(fields: Seq<SpreadField>) -> Seq<SpecSpreadField> {
    Seq::new(fields.len(), |i: int| fields[i]@)
}

/// What becomes of the first entries of a row that is spread into a block, where
/// some names are visible. A field that was bound is visible to the others.
pub open spec fn local_spread(
    entries: Seq<SpecRowEntry>,
    overwrite: bool,
    visible: Set<Seq<char>>,
    count: nat,
) -> (Seq<SpecSpreadField>, Set<Seq<char>>)
    decreases count,
{
    if count == 0 || count > entries.len() {
        (Seq::empty(), visible)
    } else {
        let (fields, bound) = local_spread(entries, overwrite, visible, (count - 1) as nat);
        match entries[count - 1] {
            SpecRowEntry::Field { name, ty } => if !overwrite && bound.contains(name) {
                (fields.push(SpecSpreadField::Duplicate { name }), bound)
            } else {
                (fields.push(SpecSpreadField::Bind { name, ty }), bound.insert(name))
            },
            _ => (fields, bound),
        }
    }
}

/// Find what becomes of the fields of a row that is spread into a block. The names
/// that it binds become visible.
pub fn check_local_spread_binding(row: &Row, overwrite: bool, visible: &mut StringSet) -> (fields: Vec<
    SpreadField,
>)
    ensures
        spread_fields_view(fields@) == local_spread(
            row@.entries,
            overwrite,
            old(visible)@,
            row@.entries.len(),
        ).0,
        final(visible)@ == local_spread(
            row@.entries,
            overwrite,
            old(visible)@,
            row@.entries.len(),
        ).1,
{
    let ghost all = row@.entries;
    let ghost start = visible@;
    let mut fields: Vec<SpreadField> = Vec::new();
    let mut index: usize = 0;
    assert(spread_fields_view(fields@) =~= Seq::empty());
    assert(all.len() == row.entries.len());
    while index < row.entries.len()
        invariant
            index <= row.entries.len(),
            all == row@.entries,
            all.len() == row.entries.len(),
            start == old(visible)@,
            spread_fields_view(fields@) == local_spread(all, overwrite, start, index as nat).0,
            visible@ == local_spread(all, overwrite, start, index as nat).1,
        decreases row.entries.len() - index,
    {
        assert(all[index as int] == row.entries@[index as int]@);
        let ghost earlier = spread_fields_view(fields@);
        if let RowEntry::Field { name, ty } = &row.entries[index] {
            if !overwrite && visible.contains(name.as_str()) {
                fields.push(SpreadField::Duplicate { name: name.clone() });
                assert(spread_fields_view(fields@) =~= earlier.push(
                    SpecSpreadField::Duplicate { name: name@ },
                ));
            } else {
                fields.push(SpreadField::Bind { name: name.clone(), ty: ty.clone() });
                visible.insert(name.clone());
                assert(spread_fields_view(fields@) =~= earlier.push(
                    SpecSpreadField::Bind { name: name@, ty: ty@ },
                ));
            }
        }
        index += 1;
    }
    fields
}

/// The names of the first fields of a row that is spread at the top level which are
/// declared already, with the names that were spread.
pub open spec fn top_level_spread(
    entries: Seq<SpecRowEntry>,
    declared: Set<Seq<char>>,
    spread: Set<Seq<char>>,
    count: nat,
) -> (Seq<Seq<char>>, Set<Seq<char>>)
    decreases count,
{
    if count == 0 || count > entries.len() {
        (Seq::empty(), spread)
    } else {
        let (duplicates, names) = top_level_spread(entries, declared, spread, (count - 1) as nat);
        match entries[count - 1] {
            SpecRowEntry::Field { name, .. } => (
                if declared.contains(name) || names.contains(name) {
                    duplicates.push(name)
                } else {
                    duplicates
                },
                names.insert(name),
            ),
            _ => (duplicates, names),
        }
    }
}

/// Find the names that a spread at the top level declares again. The names of its
/// fields count as spread from then on.
pub fn check_top_level_spread_binding(row: &Row, declared: &StringSet, spread: &mut StringSet) -> (
    duplicates: Vec<String>)
    ensures
        crate::text::texts_view(duplicates@) == top_level_spread(
            row@.entries,
            declared@,
            old(spread)@,
            row@.entries.len(),
        ).0,
        final(spread)@ == top_level_spread(
            row@.entries,
            declared@,
            old(spread)@,
            row@.entries.len(),
        ).1,
{
    let ghost all = row@.entries;
    let ghost start = spread@;
    let mut duplicates: Vec<String> = Vec::new();
    let mut index: usize = 0;
    assert(crate::text::texts_view(duplicates@) =~= Seq::empty());
    assert(all.len() == row.entries.len());
    while index < row.entries.len()
        invariant
            index <= row.entries.len(),
            all == row@.entries,
            all.len() == row.entries.len(),
            start == old(spread)@,
            crate::text::texts_view(duplicates@) == top_level_spread(
                all,
                declared@,
                start,
                index as nat,
            ).0,
            spread@ == top_level_spread(all, declared@, start, index as nat).1,
        decreases row.entries.len() - index,
    {
        assert(all[index as int] == row.entries@[index as int]@);
        if let RowEntry::Field { name, .. } = &row.entries[index] {
            if declared.contains(name.as_str()) || spread.contains(name.as_str()) {
                let ghost earlier = crate::text::texts_view(duplicates@);
                duplicates.push(name.clone());
                assert(crate::text::texts_view(duplicates@) =~= earlier.push(name@));
            }
            spread.insert(name.clone());
        }
        index += 1;
    }
    duplicates
}

// ---------------------------------------------------------------------------
// Top-level names
// ---------------------------------------------------------------------------
/// The positions of the values of top-level names: none for a name that is declared
/// more than once.
pub open spec fn environment(names: Seq<Seq<char>>, count: nat) -> Map<Seq<char>, Option<nat>>
    decreases count,
{
    if count == 0 || count > names.len() {
        Map::empty()
    } else {
        let earlier = environment(names, (count - 1) as nat);
        let name = names[count - 1];
        earlier.insert(
            name,
            if earlier.contains_key(name) {
                None
            } else {
                Some((count - 1) as nat)
            },
        )
    }
}

pub open spec fn positions_view(positions: Map<Seq<char>, Option<usize>>) -> Map<
    Seq<char>,
    Option<nat>,
> {
    positions.map_values(
        |position: Option<usize>|
            match position {
                Some(position) => Some(position as nat),
                None => None,
            },
    )
}

/// Collect the top-level names with the positions of their declarations.
pub fn collect_top_level_environment(names: &Vec<String>) -> (positions: StringMap<Option<usize>>)
    ensures
        positions_view(positions@) == environment(
            crate::text::texts_view(names@),
            names@.len(),
        ),
{
    let ghost all = crate::text::texts_view(names@);
    let mut positions: StringMap<Option<usize>> = StringMap::new();
    let mut index: usize = 0;
    assert(positions_view(positions@) =~= Map::empty());
    while index < names.len()
        invariant
            index <= names.len(),
            all == crate::text::texts_view(names@),
            positions_view(positions@) == environment(all, index as nat),
        decreases names.len() - index,
    {
        let name = names[index].as_str();
        let ghost before = positions@;
        assert(positions_view(before).contains_key(name@) == before.contains_key(name@));
        let position: Option<usize> = if positions.contains_key(name) {
            None
        } else {
            Some(index)
        };
        positions.insert(names[index].clone(), position);
        assert(positions_view(positions@) =~= environment(all, (index + 1) as nat));
        index += 1;
    }
    positions
}

/// A name that is declared once is found at its declaration, and one that is
/// declared twice nowhere.
pub proof fn repeated_names_are_not_found(names: Seq<Seq<char>>, i: int, j: int, count: nat)
    requires
        0 <= i < j < count,
        count <= names.len(),
        names[i] == names[j],
    ensures
        environment(names, count).contains_key(names[i]),
        environment(names, count)[names[i]] is None,
    decreases count,
{
    if j < count - 1 {
        repeated_names_are_not_found(names, i, j, (count - 1) as nat);
    } else {
        declared_names_are_known(names, i, (count - 1) as nat);
    }
}

proof fn declared_names_are_known(names: Seq<Seq<char>>, i: int, count: nat)
    requires
        0 <= i < count,
        count <= names.len(),
    ensures
        environment(names, count).contains_key(names[i]),
    decreases count,
{
    if i < count - 1 {
        declared_names_are_known(names, i, (count - 1) as nat);
    }
}

// ---------------------------------------------------------------------------
// How a declaration is checked
// ---------------------------------------------------------------------------
/// When a declaration is computed.
#[derive(Debug, Clone, Copy, PartialEq, Eq, Structural)]
pub enum DeclarationPhase {
    Runtime,
    Comptime,
}

/// What is known of a declaration.
#[derive(Debug)]
pub struct DeclarationFacts<'a> {
    pub name: &'a str,
    pub phase: DeclarationPhase,
    pub value: Option<&'a Expr>,
    /// The owner of the family that the declaration provides, if it provides one.
    pub family_owner: Option<&'a str>,
    /// Whether the value is an open list of methods.
    pub is_requirement_row: bool,
    pub has_annotation: bool,
    /// Whether the value is an import.
    pub is_import: bool,
    /// The runtime name that the value is, if nothing else is known of it.
    pub runtime_alias: Option<&'a str>,
    /// Whether a type is known for the name.
    pub has_scheme: bool,
    /// Whether the type of the value was inferred.
    pub has_final_type: bool,
}

/// A step in the check of a declaration.
#[derive(Debug, Clone, Copy)]
#[allow(inconsistent_fields)]
pub enum DeclarationStep<'a> {
    /// The value provides a family.
    CheckFamily(&'a str),
    /// The value is a requirement.
    ValidateRequirement,
    /// A runtime value must not be a type.
    CheckLiftability,
    /// A function at compile time needs no markers on its parameters.
    ReportRedundantMarkers,
    /// A module has a name for a type.
    ReportModuleName,
    /// A runtime name stands for a type.
    ReportRuntimeAlias(&'a str),
    /// The value must be computable at compile time.
    CheckEvaluationSupport,
    /// The type of the annotation is noted.
    RecordAnnotation,
    /// The value is held against the annotation.
    CheckAgainstAnnotation,
    /// The type that is known for the name is noted.
    RecordScheme,
    /// The value is checked without reports on names that are not bound.
    CheckQuietly,
    /// The function is checked with all its parameters known at compile time.
    CheckFunction,
    /// The value is checked.
    CheckValue,
    /// A type that could not be inferred is reported.
    ReportIfStuck,
    /// Repeated reports are dropped.
    Deduplicate,
}

/// A step in the check of a declaration.
#[allow(inconsistent_fields)]
pub ghost enum SpecDeclarationStep {
    CheckFamily(Seq<char>),
    ValidateRequirement,
    CheckLiftability,
    ReportRedundantMarkers,
    ReportModuleName,
    ReportRuntimeAlias(Seq<char>),
    CheckEvaluationSupport,
    RecordAnnotation,
    CheckAgainstAnnotation,
    RecordScheme,
    CheckQuietly,
    CheckFunction,
    CheckValue,
    ReportIfStuck,
    Deduplicate,
}

impl DeclarationStep<'_> {
    pub open spec fn view(&self) -> SpecDeclarationStep {
        match self {
            DeclarationStep::CheckFamily(owner) => SpecDeclarationStep::CheckFamily(owner@),
            DeclarationStep::ValidateRequirement => SpecDeclarationStep::ValidateRequirement,
            DeclarationStep::CheckLiftability => SpecDeclarationStep::CheckLiftability,
            DeclarationStep::ReportRedundantMarkers => {
                SpecDeclarationStep::ReportRedundantMarkers
            },
            DeclarationStep::ReportModuleName => SpecDeclarationStep::ReportModuleName,
            DeclarationStep::ReportRuntimeAlias(name) => SpecDeclarationStep::ReportRuntimeAlias(
                name@,
            ),
            DeclarationStep::CheckEvaluationSupport => {
                SpecDeclarationStep::CheckEvaluationSupport
            },
            DeclarationStep::RecordAnnotation => SpecDeclarationStep::RecordAnnotation,
            DeclarationStep::CheckAgainstAnnotation => {
                SpecDeclarationStep::CheckAgainstAnnotation
            },
            DeclarationStep::RecordScheme => SpecDeclarationStep::RecordScheme,
            DeclarationStep::CheckQuietly => SpecDeclarationStep::CheckQuietly,
            DeclarationStep::CheckFunction => SpecDeclarationStep::CheckFunction,
            DeclarationStep::CheckValue => SpecDeclarationStep::CheckValue,
            DeclarationStep::ReportIfStuck => SpecDeclarationStep::ReportIfStuck,
            DeclarationStep::Deduplicate => SpecDeclarationStep::Deduplicate,
        }
    }
}

pub open spec fn declaration_steps_view(steps: Seq<DeclarationStep<'_>>) -> Seq<
    SpecDeclarationStep,
> {
    Seq::new(steps.len(), |i: int| steps[i]@)
}

/// Whether a name with a value is a function that makes types.
pub open spec fn is_type_function(name: Seq<char>, value: Expr) -> bool {
    starts_uppercase(name) && ungrouped(value).kind is Lambda
}

/// Whether a name with a value is a function that makes types.
pub fn is_uppercase_comptime_function(name: &str, value: &Expr) -> (function: bool)
    ensures
        function == is_type_function(name@, *value),
{
    begins_uppercase(name) && matches!(&ungroup_expr(value).kind, ExprKind::Lambda { .. })
}

/// The steps that come before the annotation and the value of a declaration are
/// looked at.
pub open spec fn first_steps(facts: DeclarationFacts<'_>, value: Expr) -> Seq<SpecDeclarationStep> {
    match facts.phase {
        DeclarationPhase::Runtime => seq![SpecDeclarationStep::CheckLiftability],
        DeclarationPhase::Comptime => if is_type_function(facts.name@, value) {
            seq![SpecDeclarationStep::ReportRedundantMarkers]
        } else if facts.is_import {
            seq![SpecDeclarationStep::ReportModuleName]
        } else if !facts.has_annotation && facts.runtime_alias is Some {
            seq![SpecDeclarationStep::ReportRuntimeAlias(facts.runtime_alias->0@)]
        } else {
            seq![SpecDeclarationStep::CheckEvaluationSupport]
        },
    }
}

/// The steps for a value that no annotation was held against.
pub open spec fn value_steps(facts: DeclarationFacts<'_>, value: Expr) -> Seq<SpecDeclarationStep> {
    if facts.phase is Comptime && !is_type_function(facts.name@, value) {
        seq![SpecDeclarationStep::CheckQuietly]
    } else {
        seq![
            if is_type_function(facts.name@, value) {
                SpecDeclarationStep::CheckFunction
            } else {
                SpecDeclarationStep::CheckValue
            },
        ] + (if !facts.has_annotation && facts.has_final_type {
            seq![SpecDeclarationStep::ReportIfStuck]
        } else {
            Seq::empty()
        }) + seq![SpecDeclarationStep::Deduplicate]
    }
}

/// The steps in the check of a declaration, in order.
pub open spec fn declaration_steps(facts: DeclarationFacts<'_>) -> Seq<SpecDeclarationStep> {
    if facts.value is Some && facts.family_owner is Some {
        seq![SpecDeclarationStep::CheckFamily(facts.family_owner->0@)]
    } else if starts_uppercase(facts.name@) && facts.value is Some && facts.is_requirement_row {
        seq![SpecDeclarationStep::ValidateRequirement]
    } else {
        (match facts.value {
            Some(value) => first_steps(facts, *value),
            None => Seq::empty(),
        }) + (if facts.has_annotation {
            seq![SpecDeclarationStep::RecordAnnotation] + (if facts.value is Some {
                seq![SpecDeclarationStep::CheckAgainstAnnotation]
            } else {
                Seq::empty()
            })
        } else if facts.has_scheme {
            seq![SpecDeclarationStep::RecordScheme]
        } else {
            Seq::empty()
        }) + (match facts.value {
            Some(value) => if facts.has_annotation {
                Seq::empty()
            } else {
                value_steps(facts, *value)
            },
            None => Seq::empty(),
        })
    }
}

/// List the steps in the check of a declaration, in order.
pub fn check_declaration<'a>(facts: &DeclarationFacts<'a>) -> (steps: Vec<DeclarationStep<'a>>)
    ensures
        declaration_steps_view(steps@) == declaration_steps(*facts),
{
    let mut steps: Vec<DeclarationStep<'a>> = Vec::new();
    if let (Some(_), Some(owner)) = (facts.value, facts.family_owner) {
        steps.push(DeclarationStep::CheckFamily(owner));
        assert(declaration_steps_view(steps@) =~= declaration_steps(*facts));
        return steps;
    }
    if begins_uppercase(facts.name) && facts.value.is_some() && facts.is_requirement_row {
        steps.push(DeclarationStep::ValidateRequirement);
        assert(declaration_steps_view(steps@) =~= declaration_steps(*facts));
        return steps;
    }
    let is_function = match facts.value {
        Some(value) => is_uppercase_comptime_function(facts.name, value),
        None => false,
    };
    let comptime = matches!(facts.phase, DeclarationPhase::Comptime);
    if facts.value.is_some() {
        if !comptime {
            steps.push(DeclarationStep::CheckLiftability);
        } else if is_function {
            steps.push(DeclarationStep::ReportRedundantMarkers);
        } else if facts.is_import {
            steps.push(DeclarationStep::ReportModuleName);
        } else {
            match facts.runtime_alias {
                Some(alias) => if facts.has_annotation {
                    steps.push(DeclarationStep::CheckEvaluationSupport);
                } else {
                    steps.push(DeclarationStep::ReportRuntimeAlias(alias));
                },
                None => {
                    steps.push(DeclarationStep::CheckEvaluationSupport);
                },
            }
        }
    }
    if facts.has_annotation {
        steps.push(DeclarationStep::RecordAnnotation);
        if facts.value.is_some() {
            steps.push(DeclarationStep::CheckAgainstAnnotation);
        }
    } else if facts.has_scheme {
        steps.push(DeclarationStep::RecordScheme);
    }
    if facts.value.is_some() && !facts.has_annotation {
        if comptime && !is_function {
            steps.push(DeclarationStep::CheckQuietly);
        } else {
            if is_function {
                steps.push(DeclarationStep::CheckFunction);
            } else {
                steps.push(DeclarationStep::CheckValue);
            }
            if facts.has_final_type {
                steps.push(DeclarationStep::ReportIfStuck);
            }
            steps.push(DeclarationStep::Deduplicate);
        }
    }
    assert(declaration_steps_view(steps@) =~= declaration_steps(*facts));
    steps
}

// ---------------------------------------------------------------------------
// Types of top-level names
// ---------------------------------------------------------------------------
/// What is known of a declaration whose type is published.
#[derive(Debug)]
pub struct PublicationFacts<'a> {
    pub name: &'a str,
    pub value: Option<&'a Expr>,
    /// Whether the value is an open list of methods, or provides a family.
    pub is_method_row: bool,
    pub is_pattern_bound: bool,
    /// The type of the annotation, if nothing is wrong with it.
    pub annotation: Option<&'a Type>,
    /// The type that the name stands for, if it is a type without parameters.
    pub definition: Option<&'a Type>,
}

/// How the published type of a name is found.
#[derive(Debug, Clone, Copy)]
pub enum Publication<'a> {
    /// The name has no type.
    Skip,
    /// The type is that of the annotation.
    Declared(&'a Type),
    /// The type was computed when the name was evaluated.
    Definition(&'a Type),
    /// The type of the value is inferred.
    Infer,
}

/// Whether the definition of a type name is its published type: a recursive type, or
/// one that a call made.
pub open spec fn publishes_definition(definition: SpecType, value: Option<&Expr>) -> bool {
    !(definition is Deferred) && (definition is Recursive || (value is Some && ungrouped(
        *value->0,
    ).kind is Call))
}

/// How the published type of a name is found.
pub open spec fn is_publication(facts: PublicationFacts<'_>, publication: Publication<'_>) -> bool {
    if starts_uppercase(facts.name@) && facts.value is Some && facts.is_method_row {
        publication is Skip
    } else if facts.value is Some && is_type_function(facts.name@, *facts.value->0) {
        publication is Skip
    } else if facts.value is None && !facts.is_pattern_bound {
        publication is Skip
    } else if facts.annotation is Some {
        publication is Declared && publication->Declared_0@ == facts.annotation->0@
    } else if facts.definition is Some && publishes_definition(
        facts.definition->0@,
        facts.value,
    ) {
        publication is Definition && publication->Definition_0@ == facts.definition->0@
    } else {
        publication is Infer
    }
}

/// Decide how the published type of a name is found.
pub fn publication_step<'a>(facts: &PublicationFacts<'a>) -> (publication: Publication<'a>)
    ensures
        is_publication(*facts, publication),
{
    if begins_uppercase(facts.name) && facts.value.is_some() && facts.is_method_row {
        return Publication::Skip;
    }
    match facts.value {
        Some(value) => {
            if is_uppercase_comptime_function(facts.name, value) {
                return Publication::Skip;
            }
        },
        None => {
            if !facts.is_pattern_bound {
                return Publication::Skip;
            }
        },
    }
    if let Some(annotation) = facts.annotation {
        return Publication::Declared(annotation);
    }
    if let Some(definition) = facts.definition {
        let is_call = match facts.value {
            Some(value) => matches!(&ungroup_expr(value).kind, ExprKind::Call { .. }),
            None => false,
        };
        if !matches!(definition, Type::Deferred) && (matches!(definition, Type::Recursive(_))
            || is_call) {
            return Publication::Definition(definition);
        }
    }
    Publication::Infer
}

/// Start the published types of a module: those of the host, but for the names that
/// the module declares itself, which have none yet.
pub fn seed_value_types(globals: Vec<(String, TypeScheme)>, declared: &StringSet) -> (types: StringMap<
    Option<TypeScheme>,
>)
    ensures
        forall|name: Seq<char>| #[trigger]
            types@.contains_key(name) == (bindings_map(globals@).contains_key(name)
                && !declared@.contains(name)),
        forall|name: Seq<char>| #[trigger]
            types@.contains_key(name) ==> types@[name] == Some(bindings_map(globals@)[name]),
{
    let ghost all = globals@;
    let mut rest = globals;
    let mut types: StringMap<Option<TypeScheme>> = StringMap::new();
    let ghost mut done: int = 0;
    while rest.len() > 0
        invariant
            0 <= done,
            done + rest.len() == all.len(),
            all == globals@,
            rest@ == all.skip(done),
            forall|name: Seq<char>| #[trigger]
                types@.contains_key(name) == (bindings_map(all.take(done)).contains_key(name)
                    && !declared@.contains(name)),
            forall|name: Seq<char>| #[trigger]
                types@.contains_key(name) ==> types@[name] == Some(
                    bindings_map(all.take(done))[name],
                ),
        decreases rest.len(),
    {
        let (name, scheme) = rest.remove(0);
        proof {
            let longer = all.take(done + 1);
            assert(longer.drop_last() =~= all.take(done));
            assert(longer.last() == all[done]);
            assert((name, scheme) == all[done]);
            assert(rest@ =~= all.skip(done + 1));
            done = done + 1;
        }
        if !declared.contains(name.as_str()) {
            types.insert(name, Some(scheme));
        }
    }
    assert(all.take(done) =~= all);
    types
}

// ---------------------------------------------------------------------------
// Names without a type
// ---------------------------------------------------------------------------
/// Whether a value is a placeholder.
pub fn binding_value_is_bare_placeholder(value: &Expr) -> (placeholder: bool)
    ensures
        placeholder == (match ungrouped(*value).kind {
            ExprKind::Name(name) => name@ == "_"@,
            ExprKind::Missing => true,
            _ => false,
        }),
{
    match &ungroup_expr(value).kind {
        ExprKind::Name(name) => same_text(name.as_str(), "_"),
        ExprKind::Missing => true,
        _ => false,
    }
}

/// Whether a value is a name that is declared more than once, or a call of one.
pub open spec fn is_overloaded(value: Expr, overloaded: Set<Seq<char>>) -> bool
    decreases value,
{
    match value.kind {
        ExprKind::Group(inner) => is_overloaded(*inner, overloaded),
        ExprKind::Name(name) => overloaded.contains(name@),
        ExprKind::Call { callee, .. } => is_overloaded(*callee, overloaded),
        _ => false,
    }
}

/// Whether a value is a name that is declared more than once, or a call of one.
pub fn binding_value_is_overload_selection_pending(value: &Expr, overloaded: &StringSet) -> (pending:
    bool)
    ensures
        pending == is_overloaded(*value, overloaded@),
    decreases value,
{
    match &value.kind {
        ExprKind::Group(inner) => binding_value_is_overload_selection_pending(inner, overloaded),
        ExprKind::Name(name) => overloaded.contains(name.as_str()),
        ExprKind::Call { callee, .. } => binding_value_is_overload_selection_pending(
            callee,
            overloaded,
        ),
        _ => false,
    }
}

/// What is known of a name whose type is not known.
#[derive(Debug, Clone, Copy, PartialEq, Eq, Structural)]
pub struct StuckFacts {
    /// Whether such names are reported at all.
    pub reporting: bool,
    /// Whether something was said of the value, before or now.
    pub was_reported: bool,
    /// Whether the value is a call of a host function that waits for an argument.
    pub awaits_host_argument: bool,
    /// Whether the value is a match that uses what is left of an open record.
    pub uses_open_rest: bool,
    /// Whether the value is a type.
    pub is_artifact: bool,
}

/// Whether a name is reported because its type could not be found. The type is in
/// normal form.
pub fn report_unresolved_runtime_binding_if_stuck(
    value: &Expr,
    ty: &Type,
    overloaded: &StringSet,
    facts: StuckFacts,
) -> (stuck: bool)
    ensures
        stuck == (facts.reporting && !facts.was_reported && ty@ is Deferred && !(match ungrouped(
            *value,
        ).kind {
            ExprKind::Name(name) => name@ == "_"@,
            ExprKind::Missing => true,
            _ => false,
        }) && !is_overloaded(*value, overloaded@) && !facts.awaits_host_argument
            && !facts.uses_open_rest && !facts.is_artifact),
{
    facts.reporting && !facts.was_reported && matches!(ty, Type::Deferred)
        && !binding_value_is_bare_placeholder(value)
        && !binding_value_is_overload_selection_pending(value, overloaded)
        && !facts.awaits_host_argument && !facts.uses_open_rest && !facts.is_artifact
}

/// The types that were found for places, in order.
#[derive(Debug)]
pub struct InferredType {
    pub name_span: Span,
    pub ty: Type,
    /// How the type is written if its variables must have methods.
    pub qualified: Option<String>,
}

/// Note the type of a place, unless a part of it is unknown.
pub fn record_inferred_type(types: &mut Vec<InferredType>, name_span: Span, ty: Type)
    ensures
        final(types)@ == if some_node(ty@, is_deferred()) {
            old(types)@
        } else {
            old(types)@.push(InferredType { name_span, ty, qualified: None })
        },
{
    if !type_contains_deferred(&ty) {
        types.push(InferredType { name_span, ty, qualified: None });
    }
}

/// How a type scheme is shown: its type, and the whole scheme in writing.
#[derive(Debug)]
pub struct ShownScheme {
    pub ty: Type,
    pub text: String,
}

/// The types that were found for places, with a type scheme for one more.
pub open spec fn with_scheme(
    types: Seq<InferredType>,
    name_span: Span,
    scheme: TypeScheme,
    shown: ShownScheme,
) -> Seq<InferredType> {
    if some_node(scheme.ty@, is_deferred()) {
        types
    } else {
        types.push(
            InferredType {
                name_span,
                ty: shown.ty,
                qualified: if scheme.predicates.len() == 0 {
                    None
                } else {
                    Some(shown.text)
                },
            },
        )
    }
}

/// Note the type scheme of a place, unless a part of it is unknown. It is written out
/// only if it requires methods.
pub fn record_scheme_type(
    types: &mut Vec<InferredType>,
    name_span: Span,
    scheme: &TypeScheme,
    shown: ShownScheme,
)
    ensures
        final(types)@ == with_scheme(old(types)@, name_span, *scheme, shown),
{
    if !type_contains_deferred(&scheme.ty) {
        let qualified = if scheme.predicates.len() == 0 {
            None
        } else {
            Some(shown.text)
        };
        types.push(InferredType { name_span, ty: shown.ty, qualified });
    }
}

/// Note what is known of the type of a local name. `shown` is how its scheme is shown.
pub fn record_local_value_type(
    types: &mut Vec<InferredType>,
    name_span: Span,
    value: LocalValueType,
    shown: ShownScheme,
)
    ensures
        final(types)@ == match value {
            LocalValueType::Known(ty) => if some_node(ty@, is_deferred()) {
                old(types)@
            } else {
                old(types)@.push(InferredType { name_span, ty, qualified: None })
            },
            LocalValueType::Scheme(scheme) => with_scheme(
                old(types)@,
                name_span,
                scheme,
                shown,
            ),
            LocalValueType::Unknown => old(types)@,
        },
{
    match value {
        LocalValueType::Known(ty) => record_inferred_type(types, name_span, ty),
        LocalValueType::Scheme(scheme) => record_scheme_type(types, name_span, &scheme, shown),
        LocalValueType::Unknown => {},
    }
}

/// Note the type of an expression, unless it has no place or a part of the type is not
/// resolved. The type is in normal form.
pub fn record_expr_type(types: &mut Vec<InferredType>, span: Span, ty: Type)
    ensures
        final(types)@ == if span.start == span.end || !resolved(ty@) {
            old(types)@
        } else {
            old(types)@.push(InferredType { name_span: span, ty, qualified: None })
        },
{
    if span.start != span.end && is_resolved_value_type(&ty) {
        types.push(InferredType { name_span: span, ty, qualified: None });
    }
}

} // verus!
