//! The comparisons that a comparison of types leads to.
use crate::comparison::{
    field_names_of, position_is_in_range, record_type_findings, result_findings, tag_finding,
    tag_findings, tags_of, type_step, variant_findings, RecordFinding, SpecComparison, SpecFinding,
    SpecResultFinding, SpecStep, Written,
};
use crate::conformance::{
    comparison_findings, is_finished, mismatched, names_mismatch, pairs_findings,
    records_findings, resolved_row, result_variant_findings, tags_findings, variants_findings,
    SpecComparisonFacts, SpecComparisonFinding,
};
use crate::rows::{all_fields, all_tags, last_payload, lists_literal, result_parts};
use crate::types::{RecursiveTypeId, SpecRow, SpecRowEntry, SpecType};
use vstd::prelude::*;

verus! {

/// The context where a recursive reference is being compared.
pub open spec fn entering(context: SpecComparison, id: RecursiveTypeId) -> SpecComparison {
    SpecComparison { active: context.active.push(id), ..context }
}

/// Whether an entry holds a type, as the type of a field or in the payload of a tag.
pub open spec fn entry_holds(entry: SpecRowEntry, ty: SpecType) -> bool {
    match entry {
        SpecRowEntry::Field { ty: held, .. } => held == ty,
        SpecRowEntry::Tag { payload, .. } => payload.contains(ty),
        SpecRowEntry::Literal { .. } => false,
    }
}

/// Whether an entry of a row holds a type.
pub open spec fn row_holds(row: SpecRow, ty: SpecType) -> bool {
    exists|i: int| 0 <= i < row.entries.len() && entry_holds(#[trigger] row.entries[i], ty)
}

/// Whether a comparison of two types may lead to one of two others, in a context.
pub open spec fn may_follow(
    context: SpecComparison,
    facts: SpecComparisonFacts,
    expected: SpecType,
    actual: SpecType,
    inside: SpecComparison,
    next: (SpecType, SpecType),
) -> bool {
    match type_step(context, expected, actual, names_mismatch(facts, expected, actual)) {
        SpecStep::Compare(pairs) => inside == context && pairs.contains(next),
        SpecStep::Unfold { id, expected, actual } => inside == entering(context, id) && next == (
            expected,
            actual,
        ),
        SpecStep::ResultVariant => inside == context && match (result_parts(expected), actual) {
            (Some((ok_ty, error_ty)), SpecType::Variant(row)) => (next.0 == ok_ty || next.0
                == error_ty) && row_holds(row, next.1),
            _ => false,
        },
        SpecStep::VariantAgainstNamed => inside == context && match (expected, actual) {
            (SpecType::Named(name), SpecType::Variant(row)) => facts.definitions.contains_key(name)
                && facts.definitions[name] is Variant && row_holds(
                resolved_row(facts, facts.definitions[name]->Variant_0),
                next.0,
            ) && row_holds(resolved_row(facts, row), next.1),
            _ => false,
        },
        SpecStep::Records => inside == context && match (expected, actual) {
            (SpecType::Record(wanted), SpecType::Record(there)) => row_holds(wanted, next.0)
                && row_holds(there, next.1),
            _ => false,
        },
        SpecStep::Variants => inside == context && match (expected, actual) {
            (SpecType::Variant(wanted), SpecType::Variant(there)) => row_holds(
                resolved_row(facts, wanted),
                next.0,
            ) && row_holds(resolved_row(facts, there), next.1),
            _ => false,
        },
        _ => false,
    }
}

// ---------------------------------------------------------------------------
// Findings that are put together
// ---------------------------------------------------------------------------
proof fn joined_findings_are_finished(
    first: Seq<SpecComparisonFinding>,
    second: Seq<SpecComparisonFinding>,
)
    requires
        is_finished(first),
        is_finished(second),
    ensures
        is_finished(first + second),
{
    let both = first + second;
    assert forall|i: int| 0 <= i < both.len() implies !((#[trigger] both[i]) is Unfinished) by {
        if i < first.len() {
            assert(both[i] == first[i]);
        } else {
            assert(both[i] == second[i - first.len()]);
        }
    }
}

proof fn pairs_finish(
    context: SpecComparison,
    facts: SpecComparisonFacts,
    pairs: Seq<(SpecType, SpecType)>,
    levels: nat,
)
    requires
        forall|i: int|
            0 <= i < pairs.len() ==> is_finished(
                comparison_findings(
                    context,
                    facts,
                    (#[trigger] pairs[i]).0,
                    pairs[i].1,
                    levels,
                ),
            ),
    ensures
        is_finished(pairs_findings(context, facts, pairs, levels)),
    decreases pairs.len(),
{
    if pairs.len() > 0 {
        let last = pairs[pairs.len() - 1];
        let others = pairs.drop_last();
        assert forall|i: int| 0 <= i < others.len() implies is_finished(
            comparison_findings(context, facts, (#[trigger] others[i]).0, others[i].1, levels),
        ) by {
            assert(others[i] == pairs[i]);
        }
        pairs_finish(context, facts, others, levels);
        joined_findings_are_finished(
            pairs_findings(context, facts, others, levels),
            comparison_findings(context, facts, last.0, last.1, levels),
        );
    }
}

proof fn results_finish(
    context: SpecComparison,
    facts: SpecComparisonFacts,
    expected: SpecType,
    actual: SpecType,
    entries: Seq<SpecResultFinding>,
    levels: nat,
)
    requires
        forall|i: int|
            0 <= i < entries.len() ==> match #[trigger] entries[i] {
                SpecResultFinding::Compare(payload, found) => is_finished(
                    comparison_findings(context, facts, payload, found, levels),
                ),
                SpecResultFinding::NoResult => true,
            },
    ensures
        is_finished(result_variant_findings(context, facts, expected, actual, entries, levels)),
    decreases entries.len(),
{
    if entries.len() > 0 {
        let others = entries.drop_last();
        let last = entries[entries.len() - 1];
        assert forall|i: int| 0 <= i < others.len() implies match #[trigger] others[i] {
            SpecResultFinding::Compare(payload, found) => is_finished(
                comparison_findings(context, facts, payload, found, levels),
            ),
            SpecResultFinding::NoResult => true,
        } by {
            assert(others[i] == entries[i]);
        }
        results_finish(context, facts, expected, actual, others, levels);
        let earlier = result_variant_findings(context, facts, expected, actual, others, levels);
        match last {
            SpecResultFinding::Compare(payload, found) => {
                joined_findings_are_finished(
                    earlier,
                    comparison_findings(context, facts, payload, found, levels),
                );
            },
            SpecResultFinding::NoResult => {
                joined_findings_are_finished(
                    earlier,
                    seq![mismatched(expected, Written::AsType, actual, Written::AsType)],
                );
            },
        }
    }
}

proof fn records_finish(
    context: SpecComparison,
    facts: SpecComparisonFacts,
    wanted: SpecRow,
    there: SpecRow,
    fields: Seq<RecordFinding>,
    levels: nat,
)
    requires
        forall|i: int|
            0 <= i < fields.len() ==> match #[trigger] fields[i] {
                RecordFinding::Compare { required, present } => is_finished(
                    comparison_findings(
                        context,
                        facts,
                        wanted.entries[required as int]->Field_ty,
                        there.entries[present as int]->Field_ty,
                        levels,
                    ),
                ),
                _ => true,
            },
    ensures
        is_finished(records_findings(context, facts, wanted, there, fields, levels)),
    decreases fields.len(),
{
    if fields.len() > 0 {
        let others = fields.drop_last();
        let last = fields[fields.len() - 1];
        assert forall|i: int| 0 <= i < others.len() implies match #[trigger] others[i] {
            RecordFinding::Compare { required, present } => is_finished(
                comparison_findings(
                    context,
                    facts,
                    wanted.entries[required as int]->Field_ty,
                    there.entries[present as int]->Field_ty,
                    levels,
                ),
            ),
            _ => true,
        } by {
            assert(others[i] == fields[i]);
        }
        records_finish(context, facts, wanted, there, others, levels);
        let earlier = records_findings(context, facts, wanted, there, others, levels);
        match last {
            RecordFinding::Compare { required, present } => {
                joined_findings_are_finished(
                    earlier,
                    comparison_findings(
                        context,
                        facts,
                        wanted.entries[required as int]->Field_ty,
                        there.entries[present as int]->Field_ty,
                        levels,
                    ),
                );
            },
            RecordFinding::Missing { required } => {
                joined_findings_are_finished(
                    earlier,
                    seq![
                        SpecComparisonFinding::MissingField(
                            wanted.entries[required as int]->Field_name,
                        ),
                    ],
                );
            },
            _ => {
                joined_findings_are_finished(earlier, Seq::<SpecComparisonFinding>::empty());
            },
        }
    }
}

proof fn tags_finish(
    context: SpecComparison,
    facts: SpecComparisonFacts,
    wanted: SpecRow,
    there: SpecRow,
    tags: Seq<SpecFinding>,
    levels: nat,
)
    requires
        forall|i: int|
            0 <= i < tags.len() ==> match #[trigger] tags[i] {
                SpecFinding::Compare(pairs) => is_finished(
                    pairs_findings(context, facts, pairs, levels),
                ),
                _ => true,
            },
    ensures
        is_finished(tags_findings(context, facts, wanted, there, tags, levels)),
    decreases tags.len(),
{
    if tags.len() > 0 {
        let others = tags.drop_last();
        let last = tags[tags.len() - 1];
        assert forall|i: int| 0 <= i < others.len() implies match #[trigger] others[i] {
            SpecFinding::Compare(pairs) => is_finished(
                pairs_findings(context, facts, pairs, levels),
            ),
            _ => true,
        } by {
            assert(others[i] == tags[i]);
        }
        tags_finish(context, facts, wanted, there, others, levels);
        let earlier = tags_findings(context, facts, wanted, there, others, levels);
        let added = match last {
            SpecFinding::KindMismatch => seq![
                SpecComparisonFinding::KindMismatch { expected: wanted, actual: there },
            ],
            SpecFinding::UnknownTag(tag) => seq![SpecComparisonFinding::UnknownTag(tag)],
            SpecFinding::PayloadArity { tag, expected, found } => seq![
                SpecComparisonFinding::PayloadArity { tag, expected, found },
            ],
            SpecFinding::Compare(pairs) => pairs_findings(context, facts, pairs, levels),
        };
        joined_findings_are_finished(earlier, added);
    }
}

// ---------------------------------------------------------------------------
// What is compared is held by the rows
// ---------------------------------------------------------------------------
proof fn results_are_held(ok_ty: SpecType, error_ty: SpecType, row: SpecRow, from: int)
    requires
        0 <= from,
    ensures
        forall|i: int|
            0 <= i < result_findings(ok_ty, error_ty, row.entries, from).len() ==> match #[trigger]
            result_findings(ok_ty, error_ty, row.entries, from)[i] {
                SpecResultFinding::Compare(payload, found) => (payload == ok_ty || payload
                    == error_ty) && row_holds(row, found),
                SpecResultFinding::NoResult => true,
            },
    decreases row.entries.len() - from,
{
    if from < row.entries.len() {
        let entry = row.entries[from];
        results_are_held(ok_ty, error_ty, row, from + 1);
        let later = result_findings(ok_ty, error_ty, row.entries, from + 1);
        let found = result_findings(ok_ty, error_ty, row.entries, from);
        assert forall|i: int| 0 <= i < found.len() implies match #[trigger] found[i] {
            SpecResultFinding::Compare(payload, found) => (payload == ok_ty || payload == error_ty)
                && row_holds(row, found),
            SpecResultFinding::NoResult => true,
        } by {
            if i > 0 {
                assert(found[i] == later[i - 1]);
            } else if entry is Tag && entry->Tag_payload.len() == 1 {
                assert(entry->Tag_payload.contains(entry->Tag_payload[0]));
                assert(entry_holds(row.entries[from], entry->Tag_payload[0]));
            }
        }
    }
}

spec fn fields_are_there(wanted: SpecRow, there: SpecRow, fields: Seq<RecordFinding>) -> bool {
    forall|i: int|
        0 <= i < fields.len() ==> match #[trigger] fields[i] {
            RecordFinding::Compare { required, present } => (required as int)
                < wanted.entries.len() && (present as int) < there.entries.len(),
            _ => true,
        }
}

proof fn compared_fields_are_there(
    wanted: SpecRow,
    there: SpecRow,
    definitions: Map<Seq<char>, SpecType>,
    count: nat,
)
    requires
        count <= wanted.entries.len() <= usize::MAX,
        there.entries.len() <= usize::MAX,
    ensures
        fields_are_there(
            wanted,
            there,
            record_type_findings(wanted.entries, there, definitions, count),
        ),
    decreases count,
{
    if count > 0 {
        compared_fields_are_there(wanted, there, definitions, (count - 1) as nat);
        position_is_in_range(
            field_names_of(there.entries),
            wanted.entries[count - 1]->Field_name,
        );
    }
}

proof fn payloads_are_held(row: SpecRow, count: nat, tag: Seq<char>)
    requires
        count <= row.entries.len(),
    ensures
        last_payload(row.entries.take(count as int), tag) matches Some(payload) ==> forall|i: int|
            0 <= i < payload.len() ==> row_holds(row, #[trigger] payload[i]),
    decreases count,
{
    if count > 0 {
        let entries = row.entries.take(count as int);
        assert(entries.drop_last() =~= row.entries.take(count - 1));
        assert(entries.last() == row.entries[count - 1]);
        payloads_are_held(row, (count - 1) as nat, tag);
        if let SpecRowEntry::Tag { payload, .. } = row.entries[count - 1] {
            assert forall|i: int| 0 <= i < payload.len() implies row_holds(
                row,
                #[trigger] payload[i],
            ) by {
                assert(entry_holds(row.entries[count - 1], payload[i]));
            }
        }
    }
}

proof fn tags_are_held(
    wanted: SpecRow,
    there: SpecRow,
    tags: Seq<(Seq<char>, Seq<SpecType>)>,
)
    requires
        forall|i: int, j: int|
            0 <= i < tags.len() && 0 <= j < tags[i].1.len() ==> row_holds(
                there,
                #[trigger] tags[i].1[j],
            ),
    ensures
        forall|i: int|
            0 <= i < tag_findings(wanted, tags).len() ==> match #[trigger] tag_findings(
                wanted,
                tags,
            )[i] {
                SpecFinding::Compare(pairs) => forall|j: int|
                    0 <= j < pairs.len() ==> row_holds(wanted, (#[trigger] pairs[j]).0)
                        && row_holds(there, pairs[j].1),
                _ => true,
            },
    decreases tags.len(),
{
    if tags.len() > 0 {
        let others = tags.drop_last();
        let tag = tags[tags.len() - 1];
        assert forall|i: int, j: int| 0 <= i < others.len() && 0 <= j < others[i].1.len() implies
            row_holds(there, #[trigger] others[i].1[j]) by {
            assert(others[i] == tags[i]);
            assert(row_holds(there, tags[i].1[j]));
        }
        tags_are_held(wanted, there, others);
        assert(wanted.entries.take(wanted.entries.len() as int) =~= wanted.entries);
        payloads_are_held(wanted, wanted.entries.len(), tag.0);
        if let Some(SpecFinding::Compare(pairs)) = tag_finding(wanted, tag) {
            let payload = last_payload(wanted.entries, tag.0)->0;
            assert forall|j: int| 0 <= j < pairs.len() implies row_holds(
                wanted,
                (#[trigger] pairs[j]).0,
            ) && row_holds(there, pairs[j].1) by {
                assert(row_holds(wanted, payload[j]));
                assert(row_holds(there, tags[tags.len() - 1].1[j]));
            }
        }
    }
}

// ---------------------------------------------------------------------------
// Comparisons come to their end after those that they lead to
// ---------------------------------------------------------------------------
proof fn variants_finish(
    context: SpecComparison,
    facts: SpecComparisonFacts,
    expected: SpecRow,
    actual: SpecRow,
    levels: nat,
)
    requires
        forall|wanted: SpecType, there: SpecType|
            row_holds(resolved_row(facts, expected), wanted) && row_holds(
                resolved_row(facts, actual),
                there,
            ) ==> is_finished(
                #[trigger] comparison_findings(context, facts, wanted, there, levels),
            ),
    ensures
        is_finished(variants_findings(context, facts, expected, actual, levels)),
{
    let wanted = resolved_row(facts, expected);
    let there = resolved_row(facts, actual);
    if !lists_literal(there) && !(wanted.tail is Closed && !(there.tail is Closed)) {
        let compared = variant_findings(wanted, there);
        if all_tags(there) && all_tags(wanted) {
            let all = tags_of(there);
            assert forall|i: int, j: int| 0 <= i < all.len() && 0 <= j < all[i].1.len() implies
                row_holds(there, #[trigger] all[i].1[j]) by {
                let entry = there.entries[i];
                assert(entry is Tag);
                assert(entry_holds(entry, all[i].1[j]));
            }
            tags_are_held(wanted, there, all);
        }
        assert forall|i: int| 0 <= i < compared.len() implies match #[trigger] compared[i] {
            SpecFinding::Compare(pairs) => is_finished(
                pairs_findings(context, facts, pairs, levels),
            ),
            _ => true,
        } by {
            if let SpecFinding::Compare(pairs) = compared[i] {
                pairs_finish(context, facts, pairs, levels);
            }
        }
        let tags = tags_findings(context, facts, wanted, there, compared, levels);
        tags_finish(context, facts, wanted, there, compared, levels);
        joined_findings_are_finished(
            seq![
                SpecComparisonFinding::UnlessUnified {
                    expected: wanted,
                    actual: there,
                    count: tags.len(),
                },
            ],
            tags,
        );
    }
}

/// A comparison comes to its end where those that it may lead to do so a level sooner. Records
/// that are compared have no more entries than can be counted.
pub proof fn comparisons_finish_after_others(
    context: SpecComparison,
    facts: SpecComparisonFacts,
    expected: SpecType,
    actual: SpecType,
    levels: nat,
)
    requires
        levels > 0,
        expected is Record && actual is Record ==> expected->Record_0.entries.len() <= usize::MAX
            && actual->Record_0.entries.len() <= usize::MAX,
        forall|inside: SpecComparison, next: (SpecType, SpecType)| #[trigger]
            may_follow(context, facts, expected, actual, inside, next) ==> is_finished(
                comparison_findings(inside, facts, next.0, next.1, (levels - 1) as nat),
            ),
    ensures
        is_finished(comparison_findings(context, facts, expected, actual, levels)),
{
    let below = (levels - 1) as nat;
    match type_step(context, expected, actual, names_mismatch(facts, expected, actual)) {
        SpecStep::Compare(pairs) => {
            assert forall|i: int| 0 <= i < pairs.len() implies is_finished(
                comparison_findings(context, facts, (#[trigger] pairs[i]).0, pairs[i].1, below),
            ) by {
                assert(pairs.contains(pairs[i]));
                assert(may_follow(context, facts, expected, actual, context, pairs[i]));
            }
            pairs_finish(context, facts, pairs, below);
        },
        SpecStep::Unfold { id, expected: unfolded, actual: other } => {
            assert(may_follow(
                context,
                facts,
                expected,
                actual,
                entering(context, id),
                (unfolded, other),
            ));
        },
        SpecStep::ResultVariant => {
            if let (Some((ok_ty, error_ty)), SpecType::Variant(row)) = (
                result_parts(expected),
                actual,
            ) {
                let entries = result_findings(ok_ty, error_ty, row.entries, 0);
                results_are_held(ok_ty, error_ty, row, 0);
                assert forall|i: int| 0 <= i < entries.len() implies match #[trigger] entries[i] {
                    SpecResultFinding::Compare(payload, found) => is_finished(
                        comparison_findings(context, facts, payload, found, below),
                    ),
                    SpecResultFinding::NoResult => true,
                } by {
                    if let SpecResultFinding::Compare(payload, found) = entries[i] {
                        assert(may_follow(
                            context,
                            facts,
                            expected,
                            actual,
                            context,
                            (payload, found),
                        ));
                    }
                }
                results_finish(context, facts, expected, actual, entries, below);
            }
        },
        SpecStep::VariantAgainstNamed => {
            if let (SpecType::Named(name), SpecType::Variant(row)) = (expected, actual) {
                if facts.definitions.contains_key(name) && facts.definitions[name] is Variant {
                    let definition = facts.definitions[name]->Variant_0;
                    assert forall|wanted: SpecType, there: SpecType|
                        row_holds(resolved_row(facts, definition), wanted) && row_holds(
                            resolved_row(facts, row),
                            there,
                        ) implies is_finished(
                        #[trigger] comparison_findings(context, facts, wanted, there, below),
                    ) by {
                        assert(may_follow(
                            context,
                            facts,
                            expected,
                            actual,
                            context,
                            (wanted, there),
                        ));
                    }
                    variants_finish(context, facts, definition, row, below);
                }
            }
        },
        SpecStep::Records => {
            if let (SpecType::Record(wanted), SpecType::Record(there)) = (expected, actual) {
                if all_fields(wanted) && all_fields(there) {
                    let fields = record_type_findings(
                        wanted.entries,
                        there,
                        facts.definitions,
                        wanted.entries.len(),
                    );
                    compared_fields_are_there(
                        wanted,
                        there,
                        facts.definitions,
                        wanted.entries.len(),
                    );
                    assert forall|i: int| 0 <= i < fields.len() implies match #[trigger] fields[i] {
                        RecordFinding::Compare { required, present } => is_finished(
                            comparison_findings(
                                context,
                                facts,
                                wanted.entries[required as int]->Field_ty,
                                there.entries[present as int]->Field_ty,
                                below,
                            ),
                        ),
                        _ => true,
                    } by {
                        if let RecordFinding::Compare { required, present } = fields[i] {
                            let asked = wanted.entries[required as int];
                            let found = there.entries[present as int];
                            assert(asked is Field && found is Field);
                            assert(entry_holds(asked, asked->Field_ty));
                            assert(entry_holds(found, found->Field_ty));
                            assert(may_follow(
                                context,
                                facts,
                                expected,
                                actual,
                                context,
                                (asked->Field_ty, found->Field_ty),
                            ));
                        }
                    }
                    records_finish(context, facts, wanted, there, fields, below);
                }
            }
        },
        SpecStep::Variants => {
            if let (SpecType::Variant(expected_row), SpecType::Variant(actual_row)) = (
                expected,
                actual,
            ) {
                assert forall|wanted: SpecType, there: SpecType|
                    row_holds(resolved_row(facts, expected_row), wanted) && row_holds(
                        resolved_row(facts, actual_row),
                        there,
                    ) implies is_finished(
                    #[trigger] comparison_findings(context, facts, wanted, there, below),
                ) by {
                    assert(may_follow(context, facts, expected, actual, context, (wanted, there)));
                }
                variants_finish(context, facts, expected_row, actual_row, below);
            }
        },
        _ => {},
    }
}

} // verus!
