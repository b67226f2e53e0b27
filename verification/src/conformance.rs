//! Comparisons of types that are carried through to everything that is found.
use crate::collections::StringMap;
use crate::comparison::{
    check_named_type_against_variant, check_result_variant_type_against_result,
    check_type_against_type, check_variant_tags, check_variant_type_against_named,
    check_variant_type_against_type, compare_record_types, field_names_of, foreign_literals,
    literals_of, named_step, owned_literals, pairs_view, position_is_in_range, record_type_findings,
    result_findings, result_findings_view, type_step, variant_findings, ComparisonContext,
    NamedStep, RecordFinding, ResultFinding, SpecComparison, SpecFinding, SpecResultFinding,
    SpecStep, TagFinding, TypeStep, VariantNamedStep, VariantStep, Written,
};
use crate::rows::{all_fields, all_literals, lists_literal, result_parts, result_type_args};
use crate::text::same_text;
use crate::type_ops::{row_base, type_map_view};
use crate::types::{Literal, Row, RowEntry, SpecLiteral, SpecRow, SpecRowEntry, SpecType, Type};
use vstd::prelude::*;

verus! {

// ---------------------------------------------------------------------------
// What comparisons go by
// ---------------------------------------------------------------------------
/// What a comparison asks of names and of rows.
pub struct ComparisonFacts {
    /// The names of types that do not go together, the expected one first.
    pub mismatched_names: Vec<(String, String)>,
    /// What the rows of variants stand for, where that is more than what they list.
    pub rows: Vec<(Row, Row)>,
    /// What the names of types stand for.
    pub definitions: StringMap<Type>,
}

/// What a comparison asks of names and of rows.
pub ghost struct SpecComparisonFacts {
    pub mismatched_names: Seq<(Seq<char>, Seq<char>)>,
    pub rows: Seq<(SpecRow, SpecRow)>,
    pub definitions: Map<Seq<char>, SpecType>,
}

impl ComparisonFacts {
    pub open spec fn view(&self) -> SpecComparisonFacts {
        SpecComparisonFacts {
            mismatched_names: name_pairs_view(self.mismatched_names@),
            rows: Seq::new(self.rows@.len(), |i: int| (self.rows@[i].0@, self.rows@[i].1@)),
            definitions: type_map_view(self.definitions@),
        }
    }
}

/// Whether two types are names that do not go together.
pub open spec fn names_mismatch(
    facts: SpecComparisonFacts,
    expected: SpecType,
    actual: SpecType,
) -> bool {
    expected is Named && actual is Named && facts.mismatched_names.contains(
        (expected->Named_0, actual->Named_0),
    )
}

fn names_are_mismatched(facts: &ComparisonFacts, expected: &Type, actual: &Type) -> (found: bool)
    ensures
        found == names_mismatch(facts@, expected@, actual@),
{
    match (expected, actual) {
        (Type::Named(expected), Type::Named(actual)) => lists_names(
            &facts.mismatched_names,
            expected,
            actual,
        ),
        _ => false,
    }
}

/// Pairs of names.
pub open spec fn name_pairs_view(pairs: Seq<(String, String)>) -> Seq<(Seq<char>, Seq<char>)> {
    Seq::new(pairs.len(), |i: int| (pairs[i].0@, pairs[i].1@))
}

fn lists_names(pairs: &Vec<(String, String)>, first: &String, second: &String) -> (found: bool)
    ensures
        found == name_pairs_view(pairs@).contains((first@, second@)),
{
    let ghost all = name_pairs_view(pairs@);
    let mut index: usize = 0;
    while index < pairs.len()
        invariant
            index <= pairs.len(),
            all == name_pairs_view(pairs@),
            forall|i: int| 0 <= i < index ==> all[i] != (first@, second@),
        decreases pairs.len() - index,
    {
        assert(all[index as int] == (pairs@[index as int].0@, pairs@[index as int].1@));
        if same_text(pairs[index].0.as_str(), first.as_str()) && same_text(
            pairs[index].1.as_str(),
            second.as_str(),
        ) {
            assert(all.contains(all[index as int]));
            return true;
        }
        index += 1;
    }
    false
}

/// What the row of a variant stands for, from a position of a table on.
pub open spec fn row_resolution(rows: Seq<(SpecRow, SpecRow)>, row: SpecRow, from: int) -> SpecRow
    decreases rows.len() - from,
{
    if from >= rows.len() {
        row
    } else if rows[from].0 == row {
        rows[from].1
    } else {
        row_resolution(rows, row, from + 1)
    }
}

/// What the row of a variant stands for.
pub open spec fn resolved_row(facts: SpecComparisonFacts, row: SpecRow) -> SpecRow {
    row_resolution(facts.rows, row, 0)
}

/// What the row of a variant stands for.
pub fn resolve_variant_row(facts: &ComparisonFacts, row: &Row) -> (resolved: Row)
    ensures
        resolved@ == resolved_row(facts@, row@),
{
    let ghost all = facts@.rows;
    let mut index: usize = 0;
    while index < facts.rows.len()
        invariant
            index <= facts.rows.len(),
            all == facts@.rows,
            all.len() == facts.rows.len(),
            resolved_row(facts@, row@) == row_resolution(all, row@, index as int),
        decreases facts.rows.len() - index,
    {
        assert(all[index as int] == (facts.rows@[index as int].0@, facts.rows@[index as int].1@));
        if facts.rows[index].0.equals(row) {
            return facts.rows[index].1.clone();
        }
        index += 1;
    }
    row.clone()
}

// ---------------------------------------------------------------------------
// What is found
// ---------------------------------------------------------------------------
/// What a comparison finds, or asks of the unknown types, at the place where it is made.
#[derive(Debug)]
#[allow(inconsistent_fields)]
pub enum ComparisonFinding {
    /// The value counts as the base of its family.
    Widen,
    /// The types do not match.
    Mismatch { expected: Type, expected_as: Written, actual: Type, actual_as: Written },
    /// A record does not carry the methods of the family that is expected.
    ConstructExplicitly(Type),
    TupleArity { expected: usize, found: usize },
    FunctionArity { expected: usize, found: usize },
    /// The variable unifies only with itself.
    RigidVariable { name: String, expected: Type, actual: Type },
    /// The types do not match unless they unify, after the variables of the one that is
    /// there are made anew or as they are.
    Unify { expected: Type, actual: Type, instantiated: bool },
    /// One variant lists tags and the other literals.
    KindMismatch { expected: Row, actual: Row },
    /// The literal is not among those that are expected.
    NotInUnion { literal: Literal, expected: Row },
    /// The variant may hold more than the closed one that is expected.
    OpenNotAssignable,
    /// The value may be any of its type, and literals are expected.
    WideValue { expected: Row, actual: String },
    /// The tag is not one that is expected.
    UnknownTag(String),
    PayloadArity { tag: String, expected: usize, found: usize },
    MissingField(String),
    /// The next findings, `count` of them, stand unless the variants unify.
    UnlessUnified { expected: Row, actual: Row, count: usize },
    /// The types are nested more deeply than the comparison goes.
    Unfinished { expected: Type, actual: Type },
}

/// What a comparison finds.
#[allow(inconsistent_fields)]
pub ghost enum SpecComparisonFinding {
    Widen,
    Mismatch { expected: SpecType, expected_as: Written, actual: SpecType, actual_as: Written },
    ConstructExplicitly(SpecType),
    TupleArity { expected: nat, found: nat },
    FunctionArity { expected: nat, found: nat },
    RigidVariable { name: Seq<char>, expected: SpecType, actual: SpecType },
    Unify { expected: SpecType, actual: SpecType, instantiated: bool },
    KindMismatch { expected: SpecRow, actual: SpecRow },
    NotInUnion { literal: SpecLiteral, expected: SpecRow },
    OpenNotAssignable,
    WideValue { expected: SpecRow, actual: Seq<char> },
    UnknownTag(Seq<char>),
    PayloadArity { tag: Seq<char>, expected: nat, found: nat },
    MissingField(Seq<char>),
    UnlessUnified { expected: SpecRow, actual: SpecRow, count: nat },
    Unfinished { expected: SpecType, actual: SpecType },
}

impl ComparisonFinding {
    pub open spec fn view(&self) -> SpecComparisonFinding {
        match self {
            ComparisonFinding::Widen => SpecComparisonFinding::Widen,
            ComparisonFinding::Mismatch { expected, expected_as, actual, actual_as } =>
                SpecComparisonFinding::Mismatch {
                expected: expected@,
                expected_as: *expected_as,
                actual: actual@,
                actual_as: *actual_as,
            },
            ComparisonFinding::ConstructExplicitly(expected) =>
                SpecComparisonFinding::ConstructExplicitly(expected@),
            ComparisonFinding::TupleArity { expected, found } =>
                SpecComparisonFinding::TupleArity {
                expected: *expected as nat,
                found: *found as nat,
            },
            ComparisonFinding::FunctionArity { expected, found } =>
                SpecComparisonFinding::FunctionArity {
                expected: *expected as nat,
                found: *found as nat,
            },
            ComparisonFinding::RigidVariable { name, expected, actual } =>
                SpecComparisonFinding::RigidVariable {
                name: name@,
                expected: expected@,
                actual: actual@,
            },
            ComparisonFinding::Unify { expected, actual, instantiated } =>
                SpecComparisonFinding::Unify {
                expected: expected@,
                actual: actual@,
                instantiated: *instantiated,
            },
            ComparisonFinding::KindMismatch { expected, actual } =>
                SpecComparisonFinding::KindMismatch { expected: expected@, actual: actual@ },
            ComparisonFinding::NotInUnion { literal, expected } =>
                SpecComparisonFinding::NotInUnion { literal: literal@, expected: expected@ },
            ComparisonFinding::OpenNotAssignable => SpecComparisonFinding::OpenNotAssignable,
            ComparisonFinding::WideValue { expected, actual } =>
                SpecComparisonFinding::WideValue { expected: expected@, actual: actual@ },
            ComparisonFinding::UnknownTag(tag) => SpecComparisonFinding::UnknownTag(tag@),
            ComparisonFinding::PayloadArity { tag, expected, found } =>
                SpecComparisonFinding::PayloadArity {
                tag: tag@,
                expected: *expected as nat,
                found: *found as nat,
            },
            ComparisonFinding::MissingField(name) => SpecComparisonFinding::MissingField(name@),
            ComparisonFinding::UnlessUnified { expected, actual, count } =>
                SpecComparisonFinding::UnlessUnified {
                expected: expected@,
                actual: actual@,
                count: *count as nat,
            },
            ComparisonFinding::Unfinished { expected, actual } =>
                SpecComparisonFinding::Unfinished { expected: expected@, actual: actual@ },
        }
    }
}

pub open spec fn found_view(findings: Seq<ComparisonFinding>) -> Seq<SpecComparisonFinding> {
    Seq::new(findings.len(), |i: int| findings[i]@)
}

/// What is found where two types do not match.
pub open spec fn mismatched(
    expected: SpecType,
    expected_as: Written,
    actual: SpecType,
    actual_as: Written,
) -> SpecComparisonFinding {
    SpecComparisonFinding::Mismatch { expected, expected_as, actual, actual_as }
}

// ---------------------------------------------------------------------------
// The comparison
// ---------------------------------------------------------------------------
/// What is found about each literal that is not expected.
pub open spec fn union_findings(literals: Seq<SpecLiteral>, expected: SpecRow) -> Seq<
    SpecComparisonFinding,
> {
    literals.map_values(
        |literal: SpecLiteral| SpecComparisonFinding::NotInUnion { literal, expected },
    )
}

/// Everything that is found where a type is expected and another is there. Types that are
/// nested more deeply than `levels` are left.
pub open spec fn comparison_findings(
    context: SpecComparison,
    facts: SpecComparisonFacts,
    expected: SpecType,
    actual: SpecType,
    levels: nat,
) -> Seq<SpecComparisonFinding>
    decreases levels, 0nat, 0nat,
{
    if levels == 0 {
        seq![SpecComparisonFinding::Unfinished { expected, actual }]
    } else {
        let below = (levels - 1) as nat;
        match type_step(context, expected, actual, names_mismatch(facts, expected, actual)) {
            SpecStep::Accept => Seq::empty(),
            SpecStep::Widen => seq![SpecComparisonFinding::Widen],
            SpecStep::Mismatch { expected: expected_as, actual: actual_as } => seq![
                mismatched(expected, expected_as, actual, actual_as),
            ],
            SpecStep::ConstructExplicitly => seq![
                SpecComparisonFinding::ConstructExplicitly(expected),
            ],
            SpecStep::TupleArity { expected, found } => seq![
                SpecComparisonFinding::TupleArity { expected, found },
            ],
            SpecStep::FunctionArity { expected, found } => seq![
                SpecComparisonFinding::FunctionArity { expected, found },
            ],
            SpecStep::RigidVariable(name) => seq![
                SpecComparisonFinding::RigidVariable { name, expected, actual },
            ],
            SpecStep::Compare(pairs) => pairs_findings(context, facts, pairs, below),
            SpecStep::Unfold { id, expected, actual } => comparison_findings(
                SpecComparison { active: context.active.push(id), ..context },
                facts,
                expected,
                actual,
                below,
            ),
            SpecStep::UnifyInstantiated => seq![
                SpecComparisonFinding::Unify { expected, actual, instantiated: true },
            ],
            SpecStep::Unify => seq![
                SpecComparisonFinding::Unify { expected, actual, instantiated: false },
            ],
            SpecStep::ResultVariant => match (result_parts(expected), actual) {
                (Some((ok_ty, error_ty)), SpecType::Variant(row)) => result_variant_findings(
                    context,
                    facts,
                    expected,
                    actual,
                    result_findings(ok_ty, error_ty, row.entries, 0),
                    below,
                ),
                _ => Seq::empty(),
            },
            SpecStep::NamedAgainstVariant => match (expected, actual) {
                (SpecType::Variant(row), SpecType::Named(name)) => named_findings(
                    resolved_row(facts, row),
                    name,
                ),
                _ => Seq::empty(),
            },
            SpecStep::VariantAgainstNamed => match (expected, actual) {
                (SpecType::Named(name), SpecType::Variant(row)) => {
                    if facts.definitions.contains_key(name) && facts.definitions[name] is Variant {
                        variants_findings(
                            context,
                            facts,
                            facts.definitions[name]->Variant_0,
                            row,
                            below,
                        )
                    } else {
                        variant_named_findings(name, resolved_row(facts, row))
                    }
                },
                _ => Seq::empty(),
            },
            SpecStep::Records => match (expected, actual) {
                (SpecType::Record(expected), SpecType::Record(actual)) => {
                    if all_fields(expected) && all_fields(actual) {
                        records_findings(
                            context,
                            facts,
                            expected,
                            actual,
                            record_type_findings(
                                expected.entries,
                                actual,
                                facts.definitions,
                                expected.entries.len(),
                            ),
                            below,
                        )
                    } else {
                        Seq::empty()
                    }
                },
                _ => Seq::empty(),
            },
            SpecStep::Variants => match (expected, actual) {
                (SpecType::Variant(expected), SpecType::Variant(actual)) => variants_findings(
                    context,
                    facts,
                    expected,
                    actual,
                    below,
                ),
                _ => Seq::empty(),
            },
        }
    }
}

/// What is found about pairs of types, in order.
pub open spec fn pairs_findings(
    context: SpecComparison,
    facts: SpecComparisonFacts,
    pairs: Seq<(SpecType, SpecType)>,
    levels: nat,
) -> Seq<SpecComparisonFinding>
    decreases levels, 1nat, pairs.len(),
{
    if pairs.len() == 0 {
        Seq::empty()
    } else {
        pairs_findings(context, facts, pairs.drop_last(), levels) + comparison_findings(
            context,
            facts,
            pairs.last().0,
            pairs.last().1,
            levels,
        )
    }
}

/// What is found about the tags of a variant where a result is expected.
pub open spec fn result_variant_findings(
    context: SpecComparison,
    facts: SpecComparisonFacts,
    expected: SpecType,
    actual: SpecType,
    entries: Seq<SpecResultFinding>,
    levels: nat,
) -> Seq<SpecComparisonFinding>
    decreases levels, 2nat, entries.len(),
{
    if entries.len() == 0 {
        Seq::empty()
    } else {
        result_variant_findings(context, facts, expected, actual, entries.drop_last(), levels) + (
        match entries.last() {
            SpecResultFinding::NoResult => seq![
                mismatched(expected, Written::AsType, actual, Written::AsType),
            ],
            SpecResultFinding::Compare(payload, found) => comparison_findings(
                context,
                facts,
                payload,
                found,
                levels,
            ),
        })
    }
}

/// What is found where a value of a named type stands for a variant.
pub open spec fn named_findings(row: SpecRow, name: Seq<char>) -> Seq<SpecComparisonFinding> {
    match named_step(row, name) {
        NamedStep::Accept => Seq::empty(),
        NamedStep::WideValue => seq![
            SpecComparisonFinding::WideValue { expected: row, actual: name },
        ],
        NamedStep::Mismatch => seq![
            mismatched(
                SpecType::Variant(row),
                Written::AsType,
                SpecType::Named(name),
                Written::AsName,
            ),
        ],
    }
}

/// What is found where a variant stands for a named type that is no variant itself.
pub open spec fn variant_named_findings(name: Seq<char>, row: SpecRow) -> Seq<
    SpecComparisonFinding,
> {
    match row_base(row) {
        Some(base) => if base.belongs_to(name) {
            Seq::empty()
        } else {
            seq![
                mismatched(
                    SpecType::Named(name),
                    Written::AsName,
                    SpecType::Variant(row),
                    Written::AsInferred,
                ),
            ]
        },
        None => Seq::empty(),
    }
}

/// What is found about the fields of two record types.
pub open spec fn records_findings(
    context: SpecComparison,
    facts: SpecComparisonFacts,
    expected: SpecRow,
    actual: SpecRow,
    fields: Seq<RecordFinding>,
    levels: nat,
) -> Seq<SpecComparisonFinding>
    decreases levels, 2nat, fields.len(),
{
    if fields.len() == 0 {
        Seq::empty()
    } else {
        records_findings(context, facts, expected, actual, fields.drop_last(), levels) + (
        match fields.last() {
            RecordFinding::Compare { required, present } => comparison_findings(
                context,
                facts,
                expected.entries[required as int]->Field_ty,
                actual.entries[present as int]->Field_ty,
                levels,
            ),
            RecordFinding::Missing { required } => seq![
                SpecComparisonFinding::MissingField(
                    expected.entries[required as int]->Field_name,
                ),
            ],
            _ => Seq::empty(),
        })
    }
}

/// What is found about two variants.
pub open spec fn variants_findings(
    context: SpecComparison,
    facts: SpecComparisonFacts,
    expected: SpecRow,
    actual: SpecRow,
    levels: nat,
) -> Seq<SpecComparisonFinding>
    decreases levels, 3nat, 0nat,
{
    let expected = resolved_row(facts, expected);
    let actual = resolved_row(facts, actual);
    if lists_literal(actual) {
        if !all_literals(actual) {
            Seq::empty()
        } else if !all_literals(expected) {
            seq![SpecComparisonFinding::KindMismatch { expected, actual }]
        } else if expected.tail is Closed {
            union_findings(
                foreign_literals(literals_of(actual), literals_of(expected)),
                expected,
            )
        } else {
            Seq::empty()
        }
    } else if expected.tail is Closed && !(actual.tail is Closed) {
        seq![SpecComparisonFinding::OpenNotAssignable]
    } else {
        let tags = tags_findings(
            context,
            facts,
            expected,
            actual,
            variant_findings(expected, actual),
            levels,
        );
        if actual.tail is Open {
            tags
        } else {
            seq![SpecComparisonFinding::UnlessUnified { expected, actual, count: tags.len() }]
                + tags
        }
    }
}

/// What is found about the tags of two variants.
pub open spec fn tags_findings(
    context: SpecComparison,
    facts: SpecComparisonFacts,
    expected: SpecRow,
    actual: SpecRow,
    tags: Seq<SpecFinding>,
    levels: nat,
) -> Seq<SpecComparisonFinding>
    decreases levels, 2nat, tags.len(),
{
    if tags.len() == 0 {
        Seq::empty()
    } else {
        tags_findings(context, facts, expected, actual, tags.drop_last(), levels) + (
        match tags.last() {
            SpecFinding::KindMismatch => seq![
                SpecComparisonFinding::KindMismatch { expected, actual },
            ],
            SpecFinding::UnknownTag(tag) => seq![SpecComparisonFinding::UnknownTag(tag)],
            SpecFinding::PayloadArity { tag, expected, found } => seq![
                SpecComparisonFinding::PayloadArity { tag, expected, found },
            ],
            SpecFinding::Compare(pairs) => pairs_findings(context, facts, pairs, levels),
        })
    }
}

/// Note one finding.
fn push_finding(findings: &mut Vec<ComparisonFinding>, finding: ComparisonFinding)
    ensures
        found_view(final(findings)@) == found_view(old(findings)@) + seq![finding@],
{
    let ghost before = found_view(findings@);
    findings.push(finding);
    assert(found_view(findings@) =~= before + seq![finding@]);
}

proof fn nothing_is_added(findings: Seq<SpecComparisonFinding>)
    ensures
        findings + Seq::<SpecComparisonFinding>::empty() == findings,
{
    assert(findings + Seq::<SpecComparisonFinding>::empty() =~= findings);
}

/// Compare a type that is expected with one that is there, and note everything that is
/// found. The recursive references that are being compared are those of the context.
///
/// A comparison that comes to no end within `levels` says so where it stops. `count_levels`
/// counts levels that are enough where families have no data; three times as many are enough
/// where the data of families hold no functions.
pub fn compare_types(
    context: &mut ComparisonContext,
    facts: &ComparisonFacts,
    expected: &Type,
    actual: &Type,
    levels: usize,
    findings: &mut Vec<ComparisonFinding>,
)
    ensures
        final(context)@ == old(context)@,
        found_view(final(findings)@) == found_view(old(findings)@) + comparison_findings(
            old(context)@,
            facts@,
            expected@,
            actual@,
            levels as nat,
        ),
    decreases levels, 0nat, 0nat,
{
    let ghost before = found_view(findings@);
    proof {
        nothing_is_added(before);
    }
    if levels == 0 {
        push_finding(
            findings,
            ComparisonFinding::Unfinished { expected: expected.clone(), actual: actual.clone() },
        );
        return;
    }
    let below: usize = levels - 1;
    let mismatch = names_are_mismatched(facts, expected, actual);
    match check_type_against_type(context, expected, actual, mismatch) {
        TypeStep::Accept => {},
        TypeStep::Widen => push_finding(findings, ComparisonFinding::Widen),
        TypeStep::Mismatch { expected: expected_as, actual: actual_as } => push_finding(
            findings,
            ComparisonFinding::Mismatch {
                expected: expected.clone(),
                expected_as,
                actual: actual.clone(),
                actual_as,
            },
        ),
        TypeStep::ConstructExplicitly => push_finding(
            findings,
            ComparisonFinding::ConstructExplicitly(expected.clone()),
        ),
        TypeStep::TupleArity { expected, found } => push_finding(
            findings,
            ComparisonFinding::TupleArity { expected, found },
        ),
        TypeStep::FunctionArity { expected, found } => push_finding(
            findings,
            ComparisonFinding::FunctionArity { expected, found },
        ),
        TypeStep::RigidVariable(name) => push_finding(
            findings,
            ComparisonFinding::RigidVariable {
                name,
                expected: expected.clone(),
                actual: actual.clone(),
            },
        ),
        TypeStep::Compare(pairs) => compare_pairs(context, facts, &pairs, below, findings),
        TypeStep::Unfold { id, expected, actual } => {
            let ghost outer = context@;
            context.active.push(id);
            assert(context@ == (SpecComparison { active: outer.active.push(id), ..outer }));
            compare_types(context, facts, &expected, &actual, below, findings);
            let _ = context.active.pop();
            assert(outer.active.push(id).drop_last() =~= outer.active);
            assert(context@ == outer);
        },
        TypeStep::UnifyInstantiated => push_finding(
            findings,
            ComparisonFinding::Unify {
                expected: expected.clone(),
                actual: actual.clone(),
                instantiated: true,
            },
        ),
        TypeStep::Unify => push_finding(
            findings,
            ComparisonFinding::Unify {
                expected: expected.clone(),
                actual: actual.clone(),
                instantiated: false,
            },
        ),
        TypeStep::ResultVariant => {
            if let Some((ok_ty, error_ty)) = result_type_args(expected) {
                if let Type::Variant(row) = actual {
                    let entries = check_result_variant_type_against_result(ok_ty, error_ty, row);
                    compare_result(context, facts, expected, actual, &entries, below, findings);
                }
            }
        },
        TypeStep::NamedAgainstVariant => {
            if let (Type::Variant(row), Type::Named(name)) = (expected, actual) {
                compare_named(facts, row, name, findings);
            }
        },
        TypeStep::VariantAgainstNamed => {
            if let (Type::Named(name), Type::Variant(row)) = (expected, actual) {
                if let Some(Type::Variant(definition)) = facts.definitions.get(name.as_str()) {
                    compare_variants(context, facts, definition, row, below, findings);
                } else {
                    compare_variant_with_name(facts, name, row, findings);
                }
            }
        },
        TypeStep::Records => {
            if let (Type::Record(expected), Type::Record(actual)) = (expected, actual) {
                if let Some(fields) = compare_record_types(expected, actual, &facts.definitions) {
                    proof {
                        assert(expected@.entries.len() == expected.entries.len());
                        assert(actual@.entries.len() == actual.entries.len());
                        fields_are_in_range(
                            expected@.entries,
                            actual@,
                            facts@.definitions,
                            expected@.entries.len(),
                        );
                    }
                    compare_fields(context, facts, expected, actual, &fields, below, findings);
                }
            }
        },
        TypeStep::Variants => {
            if let (Type::Variant(expected), Type::Variant(actual)) = (expected, actual) {
                compare_variants(context, facts, expected, actual, below, findings);
            }
        },
    }
}

fn compare_pairs(
    context: &mut ComparisonContext,
    facts: &ComparisonFacts,
    pairs: &Vec<(Type, Type)>,
    levels: usize,
    findings: &mut Vec<ComparisonFinding>,
)
    ensures
        final(context)@ == old(context)@,
        found_view(final(findings)@) == found_view(old(findings)@) + pairs_findings(
            old(context)@,
            facts@,
            pairs_view(pairs@),
            levels as nat,
        ),
    decreases levels, 1nat, 0nat,
{
    let ghost all = pairs_view(pairs@);
    let ghost outer = context@;
    let ghost before = found_view(findings@);
    let mut index: usize = 0;
    assert(before + pairs_findings(outer, facts@, all.take(0), levels as nat) =~= before);
    while index < pairs.len()
        invariant
            index <= pairs.len(),
            all == pairs_view(pairs@),
            context@ == outer,
            found_view(findings@) == before + pairs_findings(
                outer,
                facts@,
                all.take(index as int),
                levels as nat,
            ),
        decreases pairs.len() - index,
    {
        let ghost longer = all.take(index + 1);
        assert(longer.drop_last() =~= all.take(index as int));
        assert(longer.last() == (pairs@[index as int].0@, pairs@[index as int].1@));
        compare_types(context, facts, &pairs[index].0, &pairs[index].1, levels, findings);
        assert(found_view(findings@) =~= before + pairs_findings(
            outer,
            facts@,
            longer,
            levels as nat,
        ));
        index += 1;
    }
    assert(all.take(all.len() as int) =~= all);
}

fn compare_result(
    context: &mut ComparisonContext,
    facts: &ComparisonFacts,
    expected: &Type,
    actual: &Type,
    entries: &Vec<ResultFinding>,
    levels: usize,
    findings: &mut Vec<ComparisonFinding>,
)
    ensures
        final(context)@ == old(context)@,
        found_view(final(findings)@) == found_view(old(findings)@) + result_variant_findings(
            old(context)@,
            facts@,
            expected@,
            actual@,
            result_findings_view(entries@),
            levels as nat,
        ),
    decreases levels, 2nat, 0nat,
{
    let ghost all = result_findings_view(entries@);
    let ghost outer = context@;
    let ghost before = found_view(findings@);
    let mut index: usize = 0;
    assert(before + result_variant_findings(
        outer,
        facts@,
        expected@,
        actual@,
        all.take(0),
        levels as nat,
    ) =~= before);
    while index < entries.len()
        invariant
            index <= entries.len(),
            all == result_findings_view(entries@),
            context@ == outer,
            found_view(findings@) == before + result_variant_findings(
                outer,
                facts@,
                expected@,
                actual@,
                all.take(index as int),
                levels as nat,
            ),
        decreases entries.len() - index,
    {
        let ghost longer = all.take(index + 1);
        assert(longer.drop_last() =~= all.take(index as int));
        assert(longer.last() == entries@[index as int]@);
        match &entries[index] {
            ResultFinding::NoResult => push_finding(
                findings,
                ComparisonFinding::Mismatch {
                    expected: expected.clone(),
                    expected_as: Written::AsType,
                    actual: actual.clone(),
                    actual_as: Written::AsType,
                },
            ),
            ResultFinding::Compare(payload, found) => {
                compare_types(context, facts, payload, found, levels, findings);
            },
        }
        assert(found_view(findings@) =~= before + result_variant_findings(
            outer,
            facts@,
            expected@,
            actual@,
            longer,
            levels as nat,
        ));
        index += 1;
    }
    assert(all.take(all.len() as int) =~= all);
}

fn compare_named(
    facts: &ComparisonFacts,
    row: &Row,
    name: &String,
    findings: &mut Vec<ComparisonFinding>,
)
    ensures
        found_view(final(findings)@) == found_view(old(findings)@) + named_findings(
            resolved_row(facts@, row@),
            name@,
        ),
{
    let ghost before = found_view(findings@);
    proof {
        nothing_is_added(before);
    }
    let row = resolve_variant_row(facts, row);
    match check_named_type_against_variant(&row, name.as_str()) {
        NamedStep::Accept => {},
        NamedStep::WideValue => push_finding(
            findings,
            ComparisonFinding::WideValue { expected: row, actual: name.clone() },
        ),
        NamedStep::Mismatch => push_finding(
            findings,
            ComparisonFinding::Mismatch {
                expected: Type::Variant(row),
                expected_as: Written::AsType,
                actual: Type::Named(name.clone()),
                actual_as: Written::AsName,
            },
        ),
    }
}

fn compare_variant_with_name(
    facts: &ComparisonFacts,
    name: &String,
    row: &Row,
    findings: &mut Vec<ComparisonFinding>,
)
    requires
        !(facts@.definitions.contains_key(name@) && facts@.definitions[name@] is Variant),
    ensures
        found_view(final(findings)@) == found_view(old(findings)@) + variant_named_findings(
            name@,
            resolved_row(facts@, row@),
        ),
{
    let ghost before = found_view(findings@);
    proof {
        nothing_is_added(before);
    }
    let row = resolve_variant_row(facts, row);
    match check_variant_type_against_named(&facts.definitions, name.as_str(), &row) {
        VariantNamedStep::CompareWith(_) => {},
        VariantNamedStep::Accept => {},
        VariantNamedStep::Mismatch => push_finding(
            findings,
            ComparisonFinding::Mismatch {
                expected: Type::Named(name.clone()),
                expected_as: Written::AsName,
                actual: Type::Variant(row),
                actual_as: Written::AsInferred,
            },
        ),
    }
}

/// Whether the positions that a finding names are those of fields.
spec fn is_in_range(finding: RecordFinding, expected: nat, actual: nat) -> bool {
    match finding {
        RecordFinding::Compare { required, present } => required < expected && present < actual,
        RecordFinding::Missing { required } => required < expected,
        _ => true,
    }
}

proof fn fields_are_in_range(
    expected: Seq<SpecRowEntry>,
    actual: SpecRow,
    definitions: Map<Seq<char>, SpecType>,
    count: nat,
)
    requires
        count <= expected.len() <= usize::MAX,
        actual.entries.len() <= usize::MAX,
    ensures
        forall|i: int|
            0 <= i < record_type_findings(expected, actual, definitions, count).len()
                ==> is_in_range(
                #[trigger] record_type_findings(expected, actual, definitions, count)[i],
                expected.len(),
                actual.entries.len(),
            ),
    decreases count,
{
    if count > 0 {
        fields_are_in_range(expected, actual, definitions, (count - 1) as nat);
        position_is_in_range(
            field_names_of(actual.entries),
            expected[count - 1]->Field_name,
        );
        let earlier = record_type_findings(expected, actual, definitions, (count - 1) as nat);
        let all = record_type_findings(expected, actual, definitions, count);
        assert forall|i: int| 0 <= i < all.len() implies is_in_range(
            #[trigger] all[i],
            expected.len(),
            actual.entries.len(),
        ) by {
            if i < earlier.len() {
                assert(all[i] == earlier[i]);
            }
        }
    }
}

fn compare_fields(
    context: &mut ComparisonContext,
    facts: &ComparisonFacts,
    expected: &Row,
    actual: &Row,
    fields: &Vec<RecordFinding>,
    levels: usize,
    findings: &mut Vec<ComparisonFinding>,
)
    requires
        all_fields(expected@),
        all_fields(actual@),
        forall|i: int|
            0 <= i < fields.len() ==> is_in_range(
                #[trigger] fields@[i],
                expected.entries@.len(),
                actual.entries@.len(),
            ),
    ensures
        final(context)@ == old(context)@,
        found_view(final(findings)@) == found_view(old(findings)@) + records_findings(
            old(context)@,
            facts@,
            expected@,
            actual@,
            fields@,
            levels as nat,
        ),
    decreases levels, 2nat, 0nat,
{
    let ghost all = fields@;
    let ghost outer = context@;
    let ghost before = found_view(findings@);
    assert(expected@.entries.len() == expected.entries.len());
    assert(actual@.entries.len() == actual.entries.len());
    let mut index: usize = 0;
    assert(before + records_findings(
        outer,
        facts@,
        expected@,
        actual@,
        all.take(0),
        levels as nat,
    ) =~= before);
    while index < fields.len()
        invariant
            index <= fields.len(),
            all == fields@,
            context@ == outer,
            all_fields(expected@),
            all_fields(actual@),
            expected@.entries.len() == expected.entries.len(),
            actual@.entries.len() == actual.entries.len(),
            forall|i: int|
                0 <= i < fields.len() ==> is_in_range(
                    #[trigger] fields@[i],
                    expected.entries@.len(),
                    actual.entries@.len(),
                ),
            found_view(findings@) == before + records_findings(
                outer,
                facts@,
                expected@,
                actual@,
                all.take(index as int),
                levels as nat,
            ),
        decreases fields.len() - index,
    {
        let ghost longer = all.take(index + 1);
        assert(longer.drop_last() =~= all.take(index as int));
        assert(longer.last() == fields@[index as int]);
        assert(is_in_range(
            fields@[index as int],
            expected.entries@.len(),
            actual.entries@.len(),
        ));
        let ghost so_far = found_view(findings@);
        match fields[index] {
            RecordFinding::Compare { required, present } => {
                assert(expected@.entries[required as int] == expected.entries@[required as int]@);
                assert(actual@.entries[present as int] == actual.entries@[present as int]@);
                assert(expected@.entries[required as int] is Field);
                assert(actual@.entries[present as int] is Field);
                if let RowEntry::Field { ty: expected_ty, .. } = &expected.entries[required] {
                    if let RowEntry::Field { ty: actual_ty, .. } = &actual.entries[present] {
                        compare_types(context, facts, expected_ty, actual_ty, levels, findings);
                    }
                }
            },
            RecordFinding::Missing { required } => {
                assert(expected@.entries[required as int] == expected.entries@[required as int]@);
                assert(expected@.entries[required as int] is Field);
                if let RowEntry::Field { name, .. } = &expected.entries[required] {
                    push_finding(findings, ComparisonFinding::MissingField(name.clone()));
                }
            },
            _ => {
                proof {
                    nothing_is_added(so_far);
                }
            },
        }
        assert(found_view(findings@) =~= before + records_findings(
            outer,
            facts@,
            expected@,
            actual@,
            longer,
            levels as nat,
        ));
        index += 1;
    }
    assert(all.take(all.len() as int) =~= all);
}

fn note_foreign(literals: Vec<Literal>, expected: &Row, findings: &mut Vec<ComparisonFinding>)
    ensures
        found_view(final(findings)@) == found_view(old(findings)@) + union_findings(
            owned_literals(literals@),
            expected@,
        ),
{
    let ghost all = owned_literals(literals@);
    let ghost before = found_view(findings@);
    let mut index: usize = 0;
    assert(before + union_findings(all.take(0), expected@) =~= before);
    while index < literals.len()
        invariant
            index <= literals.len(),
            all == owned_literals(literals@),
            found_view(findings@) == before + union_findings(all.take(index as int), expected@),
        decreases literals.len() - index,
    {
        push_finding(
            findings,
            ComparisonFinding::NotInUnion {
                literal: literals[index].clone(),
                expected: expected.clone(),
            },
        );
        assert(all[index as int] == literals@[index as int]@);
        assert(found_view(findings@) =~= before + union_findings(
            all.take(index + 1),
            expected@,
        ));
        index += 1;
    }
    assert(all.take(all.len() as int) =~= all);
}

fn compare_variants(
    context: &mut ComparisonContext,
    facts: &ComparisonFacts,
    expected: &Row,
    actual: &Row,
    levels: usize,
    findings: &mut Vec<ComparisonFinding>,
)
    ensures
        final(context)@ == old(context)@,
        found_view(final(findings)@) == found_view(old(findings)@) + variants_findings(
            old(context)@,
            facts@,
            expected@,
            actual@,
            levels as nat,
        ),
    decreases levels, 3nat, 0nat,
{
    let ghost before = found_view(findings@);
    proof {
        nothing_is_added(before);
    }
    let expected = resolve_variant_row(facts, expected);
    let actual = resolve_variant_row(facts, actual);
    match check_variant_type_against_type(&expected, &actual) {
        VariantStep::Accept => {},
        VariantStep::KindMismatch => push_finding(
            findings,
            ComparisonFinding::KindMismatch { expected, actual },
        ),
        VariantStep::NotInUnion(literals) => {
            assert(union_findings(Seq::empty(), expected@) =~= Seq::empty());
            note_foreign(literals, &expected, findings);
        },
        VariantStep::OpenNotAssignable => push_finding(
            findings,
            ComparisonFinding::OpenNotAssignable,
        ),
        VariantStep::Tags { unify_first } => {
            let tags = check_variant_tags(&expected, &actual);
            let mut inner: Vec<ComparisonFinding> = Vec::new();
            compare_tags(context, facts, &expected, &actual, &tags, levels, &mut inner);
            let ghost found = tags_findings(
                old(context)@,
                facts@,
                expected@,
                actual@,
                variant_findings(expected@, actual@),
                levels as nat,
            );
            assert(found_view(inner@) =~= found);
            if unify_first {
                let count: usize = inner.len();
                push_finding(
                    findings,
                    ComparisonFinding::UnlessUnified { expected, actual, count },
                );
            }
            let ghost middle = found_view(findings@);
            findings.append(&mut inner);
            assert(found_view(findings@) =~= middle + found);
            proof {
                let variants = variants_findings(
                    old(context)@,
                    facts@,
                    expected@,
                    actual@,
                    levels as nat,
                );
                if unify_first {
                    let first = SpecComparisonFinding::UnlessUnified {
                        expected: expected@,
                        actual: actual@,
                        count: found.len(),
                    };
                    assert(before + seq![first] + found =~= before + (seq![first] + found));
                }
            }
        },
    }
}

fn compare_tags(
    context: &mut ComparisonContext,
    facts: &ComparisonFacts,
    expected: &Row,
    actual: &Row,
    tags: &Vec<TagFinding>,
    levels: usize,
    findings: &mut Vec<ComparisonFinding>,
)
    ensures
        final(context)@ == old(context)@,
        found_view(final(findings)@) == found_view(old(findings)@) + tags_findings(
            old(context)@,
            facts@,
            expected@,
            actual@,
            crate::comparison::findings_view(tags@),
            levels as nat,
        ),
    decreases levels, 2nat, 0nat,
{
    let ghost all = crate::comparison::findings_view(tags@);
    let ghost outer = context@;
    let ghost before = found_view(findings@);
    let mut index: usize = 0;
    assert(before + tags_findings(outer, facts@, expected@, actual@, all.take(0), levels as nat)
        =~= before);
    while index < tags.len()
        invariant
            index <= tags.len(),
            all == crate::comparison::findings_view(tags@),
            context@ == outer,
            found_view(findings@) == before + tags_findings(
                outer,
                facts@,
                expected@,
                actual@,
                all.take(index as int),
                levels as nat,
            ),
        decreases tags.len() - index,
    {
        let ghost longer = all.take(index + 1);
        assert(longer.drop_last() =~= all.take(index as int));
        assert(longer.last() == tags@[index as int]@);
        match &tags[index] {
            TagFinding::KindMismatch => push_finding(
                findings,
                ComparisonFinding::KindMismatch {
                    expected: expected.clone(),
                    actual: actual.clone(),
                },
            ),
            TagFinding::UnknownTag(tag) => push_finding(
                findings,
                ComparisonFinding::UnknownTag(tag.clone()),
            ),
            TagFinding::PayloadArity { tag, expected, found } => push_finding(
                findings,
                ComparisonFinding::PayloadArity {
                    tag: tag.clone(),
                    expected: *expected,
                    found: *found,
                },
            ),
            TagFinding::Compare(pairs) => {
                compare_pairs(context, facts, pairs, levels, findings);
            },
        }
        assert(found_view(findings@) =~= before + tags_findings(
            outer,
            facts@,
            expected@,
            actual@,
            longer,
            levels as nat,
        ));
        index += 1;
    }
    assert(all.take(all.len() as int) =~= all);
}

// ---------------------------------------------------------------------------
// Laws
// ---------------------------------------------------------------------------
/// A type conforms to itself: nothing is found.
pub proof fn types_conform_to_themselves(
    context: SpecComparison,
    facts: SpecComparisonFacts,
    ty: SpecType,
    levels: nat,
)
    requires
        levels > 0,
    ensures
        comparison_findings(context, facts, ty, ty, levels) == Seq::<SpecComparisonFinding>::empty(),
{
}

/// Whether a comparison came to its end everywhere.
pub open spec fn is_finished(findings: Seq<SpecComparisonFinding>) -> bool {
    forall|i: int| 0 <= i < findings.len() ==> !((#[trigger] findings[i]) is Unfinished)
}

proof fn parts_are_finished(first: Seq<SpecComparisonFinding>, second: Seq<SpecComparisonFinding>)
    requires
        is_finished(first + second),
    ensures
        is_finished(first),
        is_finished(second),
{
    assert forall|i: int| 0 <= i < first.len() implies !((#[trigger] first[i]) is Unfinished) by {
        assert((first + second)[i] == first[i]);
    }
    assert forall|i: int| 0 <= i < second.len() implies !((#[trigger] second[i]) is Unfinished) by {
        assert((first + second)[first.len() + i] == second[i]);
    }
}

/// What a comparison finds that comes to its end, it finds at more levels too.
pub proof fn more_levels_find_the_same(
    context: SpecComparison,
    facts: SpecComparisonFacts,
    expected: SpecType,
    actual: SpecType,
    levels: nat,
    more: nat,
)
    requires
        levels <= more,
        is_finished(comparison_findings(context, facts, expected, actual, levels)),
    ensures
        comparison_findings(context, facts, expected, actual, more) == comparison_findings(
            context,
            facts,
            expected,
            actual,
            levels,
        ),
    decreases levels, 0nat, 0nat,
{
    let found = comparison_findings(context, facts, expected, actual, levels);
    if levels == 0 {
        assert(found[0] is Unfinished);
    } else {
        let below = (levels - 1) as nat;
        let more_below = (more - 1) as nat;
        match type_step(context, expected, actual, names_mismatch(facts, expected, actual)) {
            SpecStep::Compare(pairs) => {
                pairs_find_the_same(context, facts, pairs, below, more_below);
            },
            SpecStep::Unfold { id, expected, actual } => {
                more_levels_find_the_same(
                    SpecComparison { active: context.active.push(id), ..context },
                    facts,
                    expected,
                    actual,
                    below,
                    more_below,
                );
            },
            SpecStep::ResultVariant => {
                if let (Some((ok_ty, error_ty)), SpecType::Variant(row)) = (
                    result_parts(expected),
                    actual,
                ) {
                    results_find_the_same(
                        context,
                        facts,
                        expected,
                        actual,
                        result_findings(ok_ty, error_ty, row.entries, 0),
                        below,
                        more_below,
                    );
                }
            },
            SpecStep::VariantAgainstNamed => {
                if let (SpecType::Named(name), SpecType::Variant(row)) = (expected, actual) {
                    if facts.definitions.contains_key(name) && facts.definitions[name] is Variant {
                        variants_find_the_same(
                            context,
                            facts,
                            facts.definitions[name]->Variant_0,
                            row,
                            below,
                            more_below,
                        );
                    }
                }
            },
            SpecStep::Records => {
                if let (SpecType::Record(expected), SpecType::Record(actual)) = (expected, actual) {
                    if all_fields(expected) && all_fields(actual) {
                        records_find_the_same(
                            context,
                            facts,
                            expected,
                            actual,
                            record_type_findings(
                                expected.entries,
                                actual,
                                facts.definitions,
                                expected.entries.len(),
                            ),
                            below,
                            more_below,
                        );
                    }
                }
            },
            SpecStep::Variants => {
                if let (SpecType::Variant(expected), SpecType::Variant(actual)) = (expected, actual) {
                    variants_find_the_same(context, facts, expected, actual, below, more_below);
                }
            },
            _ => {},
        }
    }
}

proof fn pairs_find_the_same(
    context: SpecComparison,
    facts: SpecComparisonFacts,
    pairs: Seq<(SpecType, SpecType)>,
    levels: nat,
    more: nat,
)
    requires
        levels <= more,
        is_finished(pairs_findings(context, facts, pairs, levels)),
    ensures
        pairs_findings(context, facts, pairs, more) == pairs_findings(context, facts, pairs, levels),
    decreases levels, 1nat, pairs.len(),
{
    if pairs.len() > 0 {
        parts_are_finished(
            pairs_findings(context, facts, pairs.drop_last(), levels),
            comparison_findings(context, facts, pairs.last().0, pairs.last().1, levels),
        );
        pairs_find_the_same(context, facts, pairs.drop_last(), levels, more);
        more_levels_find_the_same(
            context,
            facts,
            pairs.last().0,
            pairs.last().1,
            levels,
            more,
        );
    }
}

proof fn results_find_the_same(
    context: SpecComparison,
    facts: SpecComparisonFacts,
    expected: SpecType,
    actual: SpecType,
    entries: Seq<SpecResultFinding>,
    levels: nat,
    more: nat,
)
    requires
        levels <= more,
        is_finished(
            result_variant_findings(context, facts, expected, actual, entries, levels),
        ),
    ensures
        result_variant_findings(context, facts, expected, actual, entries, more)
            == result_variant_findings(context, facts, expected, actual, entries, levels),
    decreases levels, 2nat, entries.len(),
{
    if entries.len() > 0 {
        let earlier = result_variant_findings(
            context,
            facts,
            expected,
            actual,
            entries.drop_last(),
            levels,
        );
        match entries.last() {
            SpecResultFinding::Compare(payload, found) => {
                parts_are_finished(
                    earlier,
                    comparison_findings(context, facts, payload, found, levels),
                );
                more_levels_find_the_same(context, facts, payload, found, levels, more);
            },
            SpecResultFinding::NoResult => {
                parts_are_finished(
                    earlier,
                    seq![mismatched(expected, Written::AsType, actual, Written::AsType)],
                );
            },
        }
        results_find_the_same(
            context,
            facts,
            expected,
            actual,
            entries.drop_last(),
            levels,
            more,
        );
    }
}

proof fn records_find_the_same(
    context: SpecComparison,
    facts: SpecComparisonFacts,
    expected: SpecRow,
    actual: SpecRow,
    fields: Seq<RecordFinding>,
    levels: nat,
    more: nat,
)
    requires
        levels <= more,
        is_finished(records_findings(context, facts, expected, actual, fields, levels)),
    ensures
        records_findings(context, facts, expected, actual, fields, more) == records_findings(
            context,
            facts,
            expected,
            actual,
            fields,
            levels,
        ),
    decreases levels, 2nat, fields.len(),
{
    if fields.len() > 0 {
        let whole = records_findings(context, facts, expected, actual, fields, levels);
        let earlier = records_findings(
            context,
            facts,
            expected,
            actual,
            fields.drop_last(),
            levels,
        );
        let last = whole.skip(earlier.len() as int);
        assert(whole =~= earlier + last);
        parts_are_finished(earlier, last);
        records_find_the_same(
            context,
            facts,
            expected,
            actual,
            fields.drop_last(),
            levels,
            more,
        );
        if let RecordFinding::Compare { required, present } = fields.last() {
            let wanted = expected.entries[required as int]->Field_ty;
            let there = actual.entries[present as int]->Field_ty;
            assert(last =~= comparison_findings(context, facts, wanted, there, levels));
            more_levels_find_the_same(context, facts, wanted, there, levels, more);
        }
    }
}

proof fn variants_find_the_same(
    context: SpecComparison,
    facts: SpecComparisonFacts,
    expected: SpecRow,
    actual: SpecRow,
    levels: nat,
    more: nat,
)
    requires
        levels <= more,
        is_finished(variants_findings(context, facts, expected, actual, levels)),
    ensures
        variants_findings(context, facts, expected, actual, more) == variants_findings(
            context,
            facts,
            expected,
            actual,
            levels,
        ),
    decreases levels, 3nat, 0nat,
{
    let wanted = resolved_row(facts, expected);
    let there = resolved_row(facts, actual);
    if !lists_literal(there) && !(wanted.tail is Closed && !(there.tail is Closed)) {
        let compared = variant_findings(wanted, there);
        let tags = tags_findings(context, facts, wanted, there, compared, levels);
        if !(there.tail is Open) {
            parts_are_finished(
                seq![
                    SpecComparisonFinding::UnlessUnified {
                        expected: wanted,
                        actual: there,
                        count: tags.len(),
                    },
                ],
                tags,
            );
        }
        tags_find_the_same(context, facts, wanted, there, compared, levels, more);
    }
}

proof fn tags_find_the_same(
    context: SpecComparison,
    facts: SpecComparisonFacts,
    expected: SpecRow,
    actual: SpecRow,
    tags: Seq<SpecFinding>,
    levels: nat,
    more: nat,
)
    requires
        levels <= more,
        is_finished(tags_findings(context, facts, expected, actual, tags, levels)),
    ensures
        tags_findings(context, facts, expected, actual, tags, more) == tags_findings(
            context,
            facts,
            expected,
            actual,
            tags,
            levels,
        ),
    decreases levels, 2nat, tags.len(),
{
    if tags.len() > 0 {
        let whole = tags_findings(context, facts, expected, actual, tags, levels);
        let earlier = tags_findings(context, facts, expected, actual, tags.drop_last(), levels);
        let last = whole.skip(earlier.len() as int);
        assert(whole =~= earlier + last);
        parts_are_finished(earlier, last);
        tags_find_the_same(context, facts, expected, actual, tags.drop_last(), levels, more);
        if let SpecFinding::Compare(pairs) = tags.last() {
            assert(last =~= pairs_findings(context, facts, pairs, levels));
            pairs_find_the_same(context, facts, pairs, levels, more);
        }
    }
}

} // verus!
