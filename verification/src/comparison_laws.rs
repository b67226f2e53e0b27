//! What comparing types is for.
use crate::check_laws::is_tag;
use crate::comparison::{
    field_names_of, last_position, record_type_findings, tag_finding, tag_findings, tags_of,
    variant_findings, widens_inside, zipped, RecordFinding, SpecComparison, SpecFinding, Written,
};
use crate::conformance::{
    comparison_findings, pairs_findings, records_findings, tags_findings, variants_findings,
    SpecComparisonFacts, SpecComparisonFinding,
};
use crate::normalize::normal_form;
use crate::rows::{all_fields, all_literals, all_tags};
use crate::type_ops::{metas, variables};
use crate::types::{RecursiveTypeId, SpecLiteral, SpecRow, SpecRowEntry, SpecType};
use vstd::prelude::*;

verus! {

/// Whether some findings stand among others, in order and without others between them.
pub open spec fn holds_findings(
    whole: Seq<SpecComparisonFinding>,
    part: Seq<SpecComparisonFinding>,
) -> bool {
    exists|from: int|
        0 <= from && from + part.len() <= whole.len() && #[trigger] whole.subrange(
            from,
            from + part.len(),
        ) == part
}

proof fn later_findings_keep(
    first: Seq<SpecComparisonFinding>,
    second: Seq<SpecComparisonFinding>,
    part: Seq<SpecComparisonFinding>,
)
    ensures
        holds_findings(first, part) ==> holds_findings(first + second, part),
        holds_findings(second, part) ==> holds_findings(first + second, part),
        holds_findings(part, part),
{
    let both = first + second;
    if holds_findings(first, part) {
        let from = choose|from: int|
            0 <= from && from + part.len() <= first.len() && #[trigger] first.subrange(
                from,
                from + part.len(),
            ) == part;
        assert(both.subrange(from, from + part.len()) =~= first.subrange(from, from + part.len()));
    }
    if holds_findings(second, part) {
        let from = choose|from: int|
            0 <= from && from + part.len() <= second.len() && #[trigger] second.subrange(
                from,
                from + part.len(),
            ) == part;
        let start = first.len() + from;
        assert(both.subrange(start, start + part.len()) =~= second.subrange(
            from,
            from + part.len(),
        ));
    }
    assert(part.subrange(0int, 0int + part.len()) =~= part);
}

/// Whether what two types hold decides whether they fit: they differ, and no family stands for
/// its base or for its data.
pub open spec fn is_structural_pair(
    context: SpecComparison,
    expected: SpecType,
    actual: SpecType,
) -> bool {
    &&& expected != actual
    &&& !widens_inside(context.family_bases, expected, actual)
    &&& !(expected is Recursive)
    &&& !(actual is Recursive)
    &&& expected is Record && actual is Named ==> !context.family_data.contains_key(
        actual->Named_0,
    )
    &&& expected is Named && actual is Record ==> !context.family_data.contains_key(
        expected->Named_0,
    )
}

proof fn pair_alone(
    context: SpecComparison,
    facts: SpecComparisonFacts,
    first: SpecType,
    second: SpecType,
    levels: nat,
)
    ensures
        pairs_findings(context, facts, seq![(first, second)], levels) == comparison_findings(
            context,
            facts,
            first,
            second,
            levels,
        ),
{
    let pairs = seq![(first, second)];
    assert(pairs.drop_last() =~= Seq::empty());
    assert(pairs_findings(context, facts, pairs.drop_last(), levels) =~= Seq::empty());
    assert(pairs_findings(context, facts, pairs, levels) =~= comparison_findings(
        context,
        facts,
        first,
        second,
        levels,
    ));
}

proof fn pairs_hold_each(
    context: SpecComparison,
    facts: SpecComparisonFacts,
    pairs: Seq<(SpecType, SpecType)>,
    index: int,
    levels: nat,
)
    requires
        0 <= index < pairs.len(),
    ensures
        holds_findings(
            pairs_findings(context, facts, pairs, levels),
            comparison_findings(context, facts, pairs[index].0, pairs[index].1, levels),
        ),
    decreases pairs.len(),
{
    let others = pairs.drop_last();
    let last = pairs[pairs.len() - 1];
    let part = comparison_findings(context, facts, pairs[index].0, pairs[index].1, levels);
    later_findings_keep(
        pairs_findings(context, facts, others, levels),
        comparison_findings(context, facts, last.0, last.1, levels),
        part,
    );
    if index < others.len() {
        pairs_hold_each(context, facts, others, index, levels);
        assert(others[index] == pairs[index]);
    }
}

proof fn pairs_hold_nothing_else(
    context: SpecComparison,
    facts: SpecComparisonFacts,
    pairs: Seq<(SpecType, SpecType)>,
    levels: nat,
)
    requires
        forall|i: int|
            0 <= i < pairs.len() ==> comparison_findings(
                context,
                facts,
                (#[trigger] pairs[i]).0,
                pairs[i].1,
                levels,
            ).len() == 0,
    ensures
        pairs_findings(context, facts, pairs, levels).len() == 0,
    decreases pairs.len(),
{
    if pairs.len() > 0 {
        let others = pairs.drop_last();
        assert forall|i: int| 0 <= i < others.len() implies comparison_findings(
            context,
            facts,
            (#[trigger] others[i]).0,
            others[i].1,
            levels,
        ).len() == 0 by {
            assert(others[i] == pairs[i]);
        }
        pairs_hold_nothing_else(context, facts, others, levels);
    }
}

// ---------------------------------------------------------------------------
// Values that may be absent
// ---------------------------------------------------------------------------
/// An optional type takes `Undefined`, and another type that is not optional as the type in it
/// does. Two optional types are compared by the types in them.
pub proof fn optional_types_are_compared_by_payload(
    context: SpecComparison,
    facts: SpecComparisonFacts,
    inner: SpecType,
    actual: SpecType,
    levels: nat,
)
    requires
        levels > 0,
        is_structural_pair(context, SpecType::Optional(Box::new(inner)), actual),
        !(actual is SlotRecord),
    ensures
        ({
            let found = comparison_findings(
                context,
                facts,
                SpecType::Optional(Box::new(inner)),
                actual,
                levels,
            );
            let below = (levels - 1) as nat;
            if actual is Optional {
                found == comparison_findings(context, facts, inner, *actual->Optional_0, below)
            } else if actual == SpecType::Named("Undefined"@) {
                found.len() == 0
            } else {
                found == comparison_findings(context, facts, inner, actual, below)
            }
        }),
{
    let below = (levels - 1) as nat;
    if actual is Optional {
        pair_alone(context, facts, inner, *actual->Optional_0, below);
    } else {
        pair_alone(context, facts, inner, actual, below);
    }
}

/// A nullable type takes `Null`, and another type that is not nullable as the type in it does.
/// Two nullable types are compared by the types in them.
pub proof fn nullable_types_are_compared_by_payload(
    context: SpecComparison,
    facts: SpecComparisonFacts,
    inner: SpecType,
    actual: SpecType,
    levels: nat,
)
    requires
        levels > 0,
        is_structural_pair(context, SpecType::Nullable(Box::new(inner)), actual),
        !(actual is SlotRecord),
    ensures
        ({
            let found = comparison_findings(
                context,
                facts,
                SpecType::Nullable(Box::new(inner)),
                actual,
                levels,
            );
            let below = (levels - 1) as nat;
            if actual is Nullable {
                found == comparison_findings(context, facts, inner, *actual->Nullable_0, below)
            } else if actual == SpecType::Named("Null"@) {
                found.len() == 0
            } else {
                found == comparison_findings(context, facts, inner, actual, below)
            }
        }),
{
    let below = (levels - 1) as nat;
    if actual is Nullable {
        pair_alone(context, facts, inner, *actual->Nullable_0, below);
    } else {
        pair_alone(context, facts, inner, actual, below);
    }
}

// ---------------------------------------------------------------------------
// Names
// ---------------------------------------------------------------------------
/// Two known names that do not go together do not fit, and two names that do fit.
pub proof fn names_are_compared_by_name(
    context: SpecComparison,
    facts: SpecComparisonFacts,
    expected: Seq<char>,
    actual: Seq<char>,
    levels: nat,
)
    requires
        levels > 0,
        is_structural_pair(context, SpecType::Named(expected), SpecType::Named(actual)),
    ensures
        ({
            let left = SpecType::Named(expected);
            let right = SpecType::Named(actual);
            let found = comparison_findings(context, facts, left, right, levels);
            let known = |name: Seq<char>|
                context.known_types.contains(name) || context.family_owners.contains(name);
            if facts.mismatched_names.contains((expected, actual)) && known(expected) && known(
                actual,
            ) {
                found == seq![
                    SpecComparisonFinding::Mismatch {
                        expected: left,
                        expected_as: Written::AsType,
                        actual: right,
                        actual_as: Written::AsType,
                    },
                ]
            } else {
                found.len() == 0
            }
        }),
{
}

/// A known name does not fit where a record, a tuple or a function is expected, nor the other
/// way round.
pub proof fn names_are_no_structures(
    context: SpecComparison,
    facts: SpecComparisonFacts,
    name: Seq<char>,
    structure: SpecType,
    levels: nat,
)
    requires
        levels > 0,
        context.known_types.contains(name),
        structure is Record || structure is Tuple || structure is Function,
        is_structural_pair(context, SpecType::Named(name), structure),
        is_structural_pair(context, structure, SpecType::Named(name)),
        !(structure is Tuple && name == "Unit"@),
    ensures
        comparison_findings(context, facts, SpecType::Named(name), structure, levels) == seq![
            SpecComparisonFinding::Mismatch {
                expected: SpecType::Named(name),
                expected_as: Written::AsName,
                actual: structure,
                actual_as: Written::AsType,
            },
        ],
        comparison_findings(context, facts, structure, SpecType::Named(name), levels) == seq![
            SpecComparisonFinding::Mismatch {
                expected: structure,
                expected_as: Written::AsType,
                actual: SpecType::Named(name),
                actual_as: Written::AsName,
            },
        ],
{
}

/// A family counts as its base. A record takes the data of a family, and a family takes no
/// record, which must be constructed.
pub proof fn families_are_compared(
    context: SpecComparison,
    facts: SpecComparisonFacts,
    name: Seq<char>,
    other: SpecType,
    levels: nat,
)
    requires
        levels > 0,
        other != SpecType::Named(name),
    ensures
        ({
            let family = SpecType::Named(name);
            let bases = context.family_bases;
            let data = context.family_data;
            &&& bases.contains_key(name) && bases[name] == other ==> comparison_findings(
                context,
                facts,
                other,
                family,
                levels,
            ) == seq![SpecComparisonFinding::Widen]
            &&& data.contains_key(name) && other is Record && !(bases.contains_key(name)
                && bases[name] == other) ==> comparison_findings(
                context,
                facts,
                other,
                family,
                levels,
            ) == comparison_findings(context, facts, other, data[name], (levels - 1) as nat)
            &&& data.contains_key(name) && other is Record ==> comparison_findings(
                context,
                facts,
                family,
                other,
                levels,
            ) == seq![SpecComparisonFinding::ConstructExplicitly(family)]
        }),
{
    let family = SpecType::Named(name);
    if context.family_data.contains_key(name) && other is Record {
        pair_alone(context, facts, other, context.family_data[name], (levels - 1) as nat);
    }
}

// ---------------------------------------------------------------------------
// Recursive types
// ---------------------------------------------------------------------------
/// A recursive type is compared by what it unfolds to, once: while it is being compared, it
/// fits. Two different recursive types do not.
pub proof fn recursive_types_are_compared_once(
    context: SpecComparison,
    facts: SpecComparisonFacts,
    id: RecursiveTypeId,
    other: SpecType,
    levels: nat,
)
    requires
        levels > 0,
        other != SpecType::Recursive(id),
        !widens_inside(context.family_bases, SpecType::Recursive(id), other),
        !(other is Named),
        context.recursive.unfolding(id) is Some,
        context.recursive.unfolding(id)->0 != SpecType::Recursive(id),
    ensures
        ({
            let reference = SpecType::Recursive(id);
            let unfolded = context.recursive.unfolding(id)->0;
            let inside = SpecComparison { active: context.active.push(id), ..context };
            let below = (levels - 1) as nat;
            let one = comparison_findings(context, facts, reference, other, levels);
            let two = comparison_findings(context, facts, other, reference, levels);
            if other is Recursive {
                one.len() == 1 && one[0] is Mismatch && two.len() == 1 && two[0] is Mismatch
            } else if context.active.contains(id) {
                one.len() == 0 && two.len() == 0
            } else {
                &&& one == comparison_findings(inside, facts, unfolded, other, below)
                &&& two == comparison_findings(inside, facts, other, unfolded, below)
            }
        }),
{
    let reference = SpecType::Recursive(id);
    assert(!widens_inside(context.family_bases, other, reference));
}

// ---------------------------------------------------------------------------
// Lists of types
// ---------------------------------------------------------------------------
/// Tuples of one length are compared element by element: what an element finds is found, and
/// nothing is found where no element finds anything. Tuples of different lengths do not fit.
pub proof fn tuples_are_compared_element_by_element(
    context: SpecComparison,
    facts: SpecComparisonFacts,
    expected: Seq<SpecType>,
    actual: Seq<SpecType>,
    levels: nat,
)
    requires
        levels > 0,
        is_structural_pair(context, SpecType::Tuple(expected), SpecType::Tuple(actual)),
    ensures
        ({
            let found = comparison_findings(
                context,
                facts,
                SpecType::Tuple(expected),
                SpecType::Tuple(actual),
                levels,
            );
            let part = |i: int|
                comparison_findings(context, facts, expected[i], actual[i], (levels - 1) as nat);
            if expected.len() != actual.len() {
                found == seq![
                    SpecComparisonFinding::TupleArity {
                        expected: expected.len(),
                        found: actual.len(),
                    },
                ]
            } else {
                &&& forall|i: int|
                    0 <= i < expected.len() ==> holds_findings(found, #[trigger] part(i))
                &&& (forall|i: int| 0 <= i < expected.len() ==> (#[trigger] part(i)).len() == 0)
                    ==> found.len() == 0
            }
        }),
{
    let below = (levels - 1) as nat;
    let pairs = zipped(expected, actual);
    let part = |i: int| comparison_findings(context, facts, expected[i], actual[i], below);
    if expected.len() == actual.len() {
        let found = pairs_findings(context, facts, pairs, below);
        assert forall|i: int| 0 <= i < expected.len() implies holds_findings(
            found,
            #[trigger] part(i),
        ) by {
            pairs_hold_each(context, facts, pairs, i, below);
        }
        if forall|i: int| 0 <= i < expected.len() ==> (#[trigger] part(i)).len() == 0 {
            assert forall|i: int| 0 <= i < pairs.len() implies comparison_findings(
                context,
                facts,
                (#[trigger] pairs[i]).0,
                pairs[i].1,
                below,
            ).len() == 0 by {
                assert(part(i).len() == 0);
            }
            pairs_hold_nothing_else(context, facts, pairs, below);
        }
    }
}

/// Functions without variables of their own are compared by their parameters, the other way
/// round, and by their results. Functions that take different numbers of parameters do not fit.
pub proof fn functions_are_compared_by_parts(
    context: SpecComparison,
    facts: SpecComparisonFacts,
    expected: SpecType,
    actual: SpecType,
    levels: nat,
)
    requires
        levels > 0,
        expected is Function,
        actual is Function,
        is_structural_pair(context, expected, actual),
        variables(actual).subset_of(context.rigid),
        metas(actual).len() == 0,
    ensures
        ({
            let found = comparison_findings(context, facts, expected, actual, levels);
            let wanted = expected->Function_params;
            let there = actual->Function_params;
            let below = (levels - 1) as nat;
            let part = |i: int|
                comparison_findings(context, facts, there[i], wanted[i], below);
            let result = comparison_findings(
                context,
                facts,
                *expected->Function_result,
                *actual->Function_result,
                below,
            );
            if wanted.len() != there.len() {
                found == seq![
                    SpecComparisonFinding::FunctionArity {
                        expected: wanted.len(),
                        found: there.len(),
                    },
                ]
            } else {
                &&& forall|i: int|
                    0 <= i < wanted.len() ==> holds_findings(found, #[trigger] part(i))
                &&& holds_findings(found, result)
                &&& (forall|i: int| 0 <= i < wanted.len() ==> (#[trigger] part(i)).len() == 0)
                    && result.len() == 0 ==> found.len() == 0
            }
        }),
{
    let below = (levels - 1) as nat;
    let wanted = expected->Function_params;
    let there = actual->Function_params;
    assert forall|name: Seq<char>| variables(actual).contains(name) implies #[trigger] context.rigid.contains(
        name,
    ) by {}
    let part = |i: int| comparison_findings(context, facts, there[i], wanted[i], below);
    let result = comparison_findings(
        context,
        facts,
        *expected->Function_result,
        *actual->Function_result,
        below,
    );
    if wanted.len() == there.len() {
        let pairs = zipped(there, wanted).push(
            (*expected->Function_result, *actual->Function_result),
        );
        let found = pairs_findings(context, facts, pairs, below);
        assert forall|i: int| 0 <= i < wanted.len() implies holds_findings(
            found,
            #[trigger] part(i),
        ) by {
            pairs_hold_each(context, facts, pairs, i, below);
        }
        pairs_hold_each(context, facts, pairs, wanted.len() as int, below);
        if (forall|i: int| 0 <= i < wanted.len() ==> (#[trigger] part(i)).len() == 0)
            && result.len() == 0 {
            assert forall|i: int| 0 <= i < pairs.len() implies comparison_findings(
                context,
                facts,
                (#[trigger] pairs[i]).0,
                pairs[i].1,
                below,
            ).len() == 0 by {
                if i < wanted.len() {
                    assert(part(i).len() == 0);
                }
            }
            pairs_hold_nothing_else(context, facts, pairs, below);
        }
    }
}

/// A function with variables of its own, or with unknown types, is left to unification.
pub proof fn functions_with_unknowns_are_unified(
    context: SpecComparison,
    facts: SpecComparisonFacts,
    expected: SpecType,
    actual: SpecType,
    levels: nat,
)
    requires
        levels > 0,
        expected is Function,
        actual is Function,
        expected->Function_params.len() == actual->Function_params.len(),
        is_structural_pair(context, expected, actual),
        !variables(actual).subset_of(context.rigid) || metas(actual).len() > 0,
    ensures
        comparison_findings(context, facts, expected, actual, levels) == seq![
            SpecComparisonFinding::Unify {
                expected,
                actual,
                instantiated: !variables(actual).subset_of(context.rigid),
            },
        ],
{
    if !variables(actual).subset_of(context.rigid) {
        let name = choose|name: Seq<char>|
            variables(actual).contains(name) && !(#[trigger] context.rigid.contains(name));
        assert(!context.rigid.contains(name));
    } else {
        assert forall|name: Seq<char>| variables(actual).contains(name) implies #[trigger] context.rigid.contains(
            name,
        ) by {}
    }
}

/// Applied types of one constructor and as many arguments are compared argument by argument;
/// those of different known constructors, or of different numbers of arguments, do not fit.
pub proof fn applied_types_are_compared_by_arguments(
    context: SpecComparison,
    facts: SpecComparisonFacts,
    constructor: Seq<char>,
    other: Seq<char>,
    expected: Seq<SpecType>,
    actual: Seq<SpecType>,
    levels: nat,
)
    requires
        levels > 1,
        ({
            let left = SpecType::Apply {
                callee: Box::new(SpecType::Named(constructor)),
                args: expected,
            };
            let right = SpecType::Apply {
                callee: Box::new(SpecType::Named(other)),
                args: actual,
            };
            is_structural_pair(context, left, right)
        }),
    ensures
        ({
            let left = SpecType::Apply {
                callee: Box::new(SpecType::Named(constructor)),
                args: expected,
            };
            let right = SpecType::Apply {
                callee: Box::new(SpecType::Named(other)),
                args: actual,
            };
            let found = comparison_findings(context, facts, left, right, levels);
            let part = |i: int|
                comparison_findings(context, facts, expected[i], actual[i], (levels - 1) as nat);
            if constructor != other || expected.len() != actual.len() {
                found == seq![
                    SpecComparisonFinding::Mismatch {
                        expected: left,
                        expected_as: Written::AsType,
                        actual: right,
                        actual_as: Written::AsType,
                    },
                ]
            } else {
                &&& forall|i: int|
                    0 <= i < expected.len() ==> holds_findings(found, #[trigger] part(i))
                &&& (forall|i: int| 0 <= i < expected.len() ==> (#[trigger] part(i)).len() == 0)
                    ==> found.len() == 0
            }
        }),
{
    let below = (levels - 1) as nat;
    let callee = SpecType::Named(constructor);
    let part = |i: int| comparison_findings(context, facts, expected[i], actual[i], below);
    if constructor == other && expected.len() == actual.len() {
        let pairs = seq![(callee, callee)] + zipped(expected, actual);
        let found = pairs_findings(context, facts, pairs, below);
        assert forall|i: int| 0 <= i < expected.len() implies holds_findings(
            found,
            #[trigger] part(i),
        ) by {
            pairs_hold_each(context, facts, pairs, i + 1, below);
        }
        if forall|i: int| 0 <= i < expected.len() ==> (#[trigger] part(i)).len() == 0 {
            assert forall|i: int| 0 <= i < pairs.len() implies comparison_findings(
                context,
                facts,
                (#[trigger] pairs[i]).0,
                pairs[i].1,
                below,
            ).len() == 0 by {
                if i > 0 {
                    assert(part(i - 1).len() == 0);
                }
            }
            pairs_hold_nothing_else(context, facts, pairs, below);
        }
    }
}

/// Types with methods are compared by their data and by their methods, and fit no other type.
pub proof fn types_with_methods_are_compared(
    context: SpecComparison,
    facts: SpecComparisonFacts,
    expected: SpecType,
    actual: SpecType,
    levels: nat,
)
    requires
        levels > 0,
        expected is SlotRecord || actual is SlotRecord,
        is_structural_pair(context, expected, actual),
    ensures
        ({
            let found = comparison_findings(context, facts, expected, actual, levels);
            let below = (levels - 1) as nat;
            if expected is SlotRecord && actual is SlotRecord {
                found == comparison_findings(
                    context,
                    facts,
                    SpecType::Record(*expected->SlotRecord_data),
                    SpecType::Record(*actual->SlotRecord_data),
                    below,
                ) + comparison_findings(
                    context,
                    facts,
                    SpecType::Record(*expected->SlotRecord_slots),
                    SpecType::Record(*actual->SlotRecord_slots),
                    below,
                )
            } else {
                found.len() == 1 && found[0] is Mismatch
            }
        }),
{
    let below = (levels - 1) as nat;
    if expected is SlotRecord && actual is SlotRecord {
        let data = (
            SpecType::Record(*expected->SlotRecord_data),
            SpecType::Record(*actual->SlotRecord_data),
        );
        let slots = (
            SpecType::Record(*expected->SlotRecord_slots),
            SpecType::Record(*actual->SlotRecord_slots),
        );
        let pairs = seq![data, slots];
        assert(pairs.drop_last() =~= seq![data]);
        pair_alone(context, facts, data.0, data.1, below);
        assert(pairs_findings(context, facts, pairs, below) == pairs_findings(
            context,
            facts,
            pairs.drop_last(),
            below,
        ) + comparison_findings(context, facts, slots.0, slots.1, below));
    }
}

// ---------------------------------------------------------------------------
// Records
// ---------------------------------------------------------------------------
proof fn names_have_positions(entries: Seq<SpecRowEntry>, count: nat, name: Seq<char>)
    requires
        count <= entries.len(),
    ensures
        match last_position(field_names_of(entries).take(count as int), name) {
            Some(position) => {
                &&& 0 <= position < count
                &&& entries[position]->Field_name == name
                &&& forall|i: int|
                    position < i < count ==> (#[trigger] entries[i])->Field_name != name
            },
            None => forall|i: int| 0 <= i < count ==> (#[trigger] entries[i])->Field_name != name,
        },
    decreases count,
{
    if count > 0 {
        let names = field_names_of(entries);
        let shorter = names.take(count as int);
        assert(shorter.drop_last() =~= names.take(count - 1));
        assert(shorter.last() == entries[count - 1]->Field_name);
        names_have_positions(entries, (count - 1) as nat, name);
    }
}

spec fn field_findings(
    context: SpecComparison,
    facts: SpecComparisonFacts,
    wanted: SpecRow,
    there: SpecRow,
    finding: RecordFinding,
    levels: nat,
) -> Seq<SpecComparisonFinding> {
    match finding {
        RecordFinding::Compare { required, present } => comparison_findings(
            context,
            facts,
            wanted.entries[required as int]->Field_ty,
            there.entries[present as int]->Field_ty,
            levels,
        ),
        RecordFinding::Missing { required } => seq![
            SpecComparisonFinding::MissingField(wanted.entries[required as int]->Field_name),
        ],
        _ => Seq::empty(),
    }
}

proof fn records_hold_each(
    context: SpecComparison,
    facts: SpecComparisonFacts,
    wanted: SpecRow,
    there: SpecRow,
    fields: Seq<RecordFinding>,
    finding: RecordFinding,
    levels: nat,
)
    requires
        fields.contains(finding),
    ensures
        holds_findings(
            records_findings(context, facts, wanted, there, fields, levels),
            field_findings(context, facts, wanted, there, finding, levels),
        ),
    decreases fields.len(),
{
    let others = fields.drop_last();
    let last = fields[fields.len() - 1];
    let part = field_findings(context, facts, wanted, there, finding, levels);
    later_findings_keep(
        records_findings(context, facts, wanted, there, others, levels),
        field_findings(context, facts, wanted, there, last, levels),
        part,
    );
    let index = choose|i: int| 0 <= i < fields.len() && fields[i] == finding;
    if index < others.len() {
        assert(others[index] == finding);
        records_hold_each(context, facts, wanted, there, others, finding, levels);
    }
}

proof fn records_hold_nothing_else(
    context: SpecComparison,
    facts: SpecComparisonFacts,
    wanted: SpecRow,
    there: SpecRow,
    fields: Seq<RecordFinding>,
    levels: nat,
)
    requires
        forall|i: int|
            0 <= i < fields.len() ==> field_findings(
                context,
                facts,
                wanted,
                there,
                #[trigger] fields[i],
                levels,
            ).len() == 0,
    ensures
        records_findings(context, facts, wanted, there, fields, levels).len() == 0,
    decreases fields.len(),
{
    if fields.len() > 0 {
        let others = fields.drop_last();
        assert forall|i: int| 0 <= i < others.len() implies field_findings(
            context,
            facts,
            wanted,
            there,
            #[trigger] others[i],
            levels,
        ).len() == 0 by {
            assert(others[i] == fields[i]);
        }
        records_hold_nothing_else(context, facts, wanted, there, others, levels);
        assert(field_findings(
            context,
            facts,
            wanted,
            there,
            fields[fields.len() - 1],
            levels,
        ).len() == 0);
    }
}

proof fn wanted_fields_are_found(
    wanted: SpecRow,
    there: SpecRow,
    definitions: Map<Seq<char>, SpecType>,
    index: int,
    count: nat,
)
    requires
        0 <= index < count <= wanted.entries.len() <= usize::MAX,
        there.entries.len() <= usize::MAX,
    ensures
        ({
            let fields = record_type_findings(wanted.entries, there, definitions, count);
            let name = wanted.entries[index]->Field_name;
            match last_position(field_names_of(there.entries), name) {
                Some(position) => fields.contains(
                    RecordFinding::Compare {
                        required: index as usize,
                        present: position as usize,
                    },
                ),
                None => !(normal_form(wanted.entries[index]->Field_ty, definitions) is Optional)
                    && !(there.tail is Open) ==> fields.contains(
                    RecordFinding::Missing { required: index as usize },
                ),
            }
        }),
    decreases count,
{
    let fields = record_type_findings(wanted.entries, there, definitions, count);
    let earlier = record_type_findings(wanted.entries, there, definitions, (count - 1) as nat);
    if index < count - 1 {
        wanted_fields_are_found(wanted, there, definitions, index, (count - 1) as nat);
        assert forall|finding: RecordFinding| earlier.contains(finding) implies fields.contains(
            finding,
        ) by {
            let place = choose|i: int| 0 <= i < earlier.len() && earlier[i] == finding;
            assert(fields[place] == finding);
        }
    } else if fields.len() > earlier.len() {
        assert(fields.contains(fields[fields.len() - 1]));
    }
}

proof fn found_fields_are_wanted(
    wanted: SpecRow,
    there: SpecRow,
    definitions: Map<Seq<char>, SpecType>,
    count: nat,
)
    requires
        count <= wanted.entries.len() <= usize::MAX,
        there.entries.len() <= usize::MAX,
    ensures
        forall|i: int|
            0 <= i < record_type_findings(wanted.entries, there, definitions, count).len() ==>
            match #[trigger] record_type_findings(wanted.entries, there, definitions, count)[i] {
                RecordFinding::Compare { required, present } => (required as int) < count && (
                present as int) < there.entries.len() && wanted.entries[required as int]->Field_name
                    == there.entries[present as int]->Field_name,
                RecordFinding::Missing { required } => (required as int) < count && !(normal_form(
                    wanted.entries[required as int]->Field_ty,
                    definitions,
                ) is Optional) && !(there.tail is Open) && forall|j: int|
                    0 <= j < there.entries.len() ==> (#[trigger] there.entries[j])->Field_name
                        != wanted.entries[required as int]->Field_name,
                _ => false,
            },
    decreases count,
{
    if count > 0 {
        found_fields_are_wanted(wanted, there, definitions, (count - 1) as nat);
        let names = field_names_of(there.entries);
        assert(names.take(there.entries.len() as int) =~= names);
        names_have_positions(
            there.entries,
            there.entries.len(),
            wanted.entries[count - 1]->Field_name,
        );
    }
}

/// Records are compared by the fields that are expected: the last field of a name is compared
/// with the one that is expected, a field that is not there is missing unless it may be left
/// out or the record may have others, and other fields do not matter.
pub proof fn records_are_compared_field_by_field(
    context: SpecComparison,
    facts: SpecComparisonFacts,
    wanted: SpecRow,
    there: SpecRow,
    index: int,
    levels: nat,
)
    requires
        levels > 0,
        is_structural_pair(context, SpecType::Record(wanted), SpecType::Record(there)),
        wanted.entries.len() <= usize::MAX,
        there.entries.len() <= usize::MAX,
        forall|i: int| 0 <= i < wanted.entries.len() ==> #[trigger] wanted.entries[i] is Field,
        forall|i: int| 0 <= i < there.entries.len() ==> #[trigger] there.entries[i] is Field,
        0 <= index < wanted.entries.len(),
    ensures
        ({
            let found = comparison_findings(
                context,
                facts,
                SpecType::Record(wanted),
                SpecType::Record(there),
                levels,
            );
            let name = wanted.entries[index]->Field_name;
            let ty = wanted.entries[index]->Field_ty;
            &&& forall|j: int|
                0 <= j < there.entries.len() && (#[trigger] there.entries[j])->Field_name == name
                    && (forall|k: int|
                    j < k < there.entries.len() ==> (#[trigger] there.entries[k])->Field_name
                        != name) ==> holds_findings(
                    found,
                    comparison_findings(
                        context,
                        facts,
                        ty,
                        there.entries[j]->Field_ty,
                        (levels - 1) as nat,
                    ),
                )
            &&& (forall|j: int|
                0 <= j < there.entries.len() ==> (#[trigger] there.entries[j])->Field_name != name)
                && !(normal_form(ty, facts.definitions) is Optional) && !(there.tail is Open)
                ==> holds_findings(found, seq![SpecComparisonFinding::MissingField(name)])
        }),
{
    let below = (levels - 1) as nat;
    let definitions = facts.definitions;
    let name = wanted.entries[index]->Field_name;
    let fields = record_type_findings(wanted.entries, there, definitions, wanted.entries.len());
    assert(all_fields(wanted) && all_fields(there));
    wanted_fields_are_found(wanted, there, definitions, index, wanted.entries.len());
    let names = field_names_of(there.entries);
    assert(names.take(there.entries.len() as int) =~= names);
    names_have_positions(there.entries, there.entries.len(), name);
    match last_position(names, name) {
        Some(position) => {
            let finding = RecordFinding::Compare {
                required: index as usize,
                present: position as usize,
            };
            records_hold_each(context, facts, wanted, there, fields, finding, below);
            assert(there.entries[position]->Field_name == name);
        },
        None => {
            if !(normal_form(wanted.entries[index]->Field_ty, definitions) is Optional) && !(
            there.tail is Open) {
                let finding = RecordFinding::Missing { required: index as usize };
                records_hold_each(context, facts, wanted, there, fields, finding, below);
            }
        },
    }
}

/// Nothing is found of records where every field that is expected is there or may be left out,
/// and no field that is there finds anything against one of its name.
pub proof fn records_that_fit_find_nothing(
    context: SpecComparison,
    facts: SpecComparisonFacts,
    wanted: SpecRow,
    there: SpecRow,
    levels: nat,
)
    requires
        levels > 0,
        is_structural_pair(context, SpecType::Record(wanted), SpecType::Record(there)),
        wanted.entries.len() <= usize::MAX,
        there.entries.len() <= usize::MAX,
        forall|i: int| 0 <= i < wanted.entries.len() ==> #[trigger] wanted.entries[i] is Field,
        forall|i: int| 0 <= i < there.entries.len() ==> #[trigger] there.entries[i] is Field,
        forall|i: int|
            0 <= i < wanted.entries.len() ==> {
                ||| there.tail is Open
                ||| normal_form((#[trigger] wanted.entries[i])->Field_ty, facts.definitions)
                    is Optional
                ||| exists|j: int|
                    0 <= j < there.entries.len() && (#[trigger] there.entries[j])->Field_name
                        == wanted.entries[i]->Field_name
            },
        forall|i: int, j: int|
            0 <= i < wanted.entries.len() && 0 <= j < there.entries.len() && (
            #[trigger] wanted.entries[i])->Field_name == (
            #[trigger] there.entries[j])->Field_name ==> comparison_findings(
                context,
                facts,
                wanted.entries[i]->Field_ty,
                there.entries[j]->Field_ty,
                (levels - 1) as nat,
            ).len() == 0,
    ensures
        comparison_findings(
            context,
            facts,
            SpecType::Record(wanted),
            SpecType::Record(there),
            levels,
        ).len() == 0,
{
    let below = (levels - 1) as nat;
    let definitions = facts.definitions;
    let fields = record_type_findings(wanted.entries, there, definitions, wanted.entries.len());
    assert(all_fields(wanted) && all_fields(there));
    found_fields_are_wanted(wanted, there, definitions, wanted.entries.len());
    assert forall|i: int| 0 <= i < fields.len() implies field_findings(
        context,
        facts,
        wanted,
        there,
        #[trigger] fields[i],
        below,
    ).len() == 0 by {
        match fields[i] {
            RecordFinding::Compare { required, present } => {
                let asked = wanted.entries[required as int];
                let found = there.entries[present as int];
                assert(asked->Field_name == found->Field_name);
            },
            RecordFinding::Missing { required } => {
                let asked = wanted.entries[required as int];
                assert(asked is Field);
            },
            _ => {},
        }
    }
    records_hold_nothing_else(context, facts, wanted, there, fields, below);
}

// ---------------------------------------------------------------------------
// Variants
// ---------------------------------------------------------------------------
proof fn tags_hold_each(
    context: SpecComparison,
    facts: SpecComparisonFacts,
    wanted: SpecRow,
    there: SpecRow,
    tags: Seq<SpecFinding>,
    finding: SpecFinding,
    levels: nat,
)
    requires
        tags.contains(finding),
    ensures
        holds_findings(
            tags_findings(context, facts, wanted, there, tags, levels),
            one_tag_found(context, facts, wanted, there, finding, levels),
        ),
    decreases tags.len(),
{
    let others = tags.drop_last();
    let last = tags[tags.len() - 1];
    let part = one_tag_found(context, facts, wanted, there, finding, levels);
    later_findings_keep(
        tags_findings(context, facts, wanted, there, others, levels),
        one_tag_found(context, facts, wanted, there, last, levels),
        part,
    );
    let index = choose|i: int| 0 <= i < tags.len() && tags[i] == finding;
    if index < others.len() {
        assert(others[index] == finding);
        tags_hold_each(context, facts, wanted, there, others, finding, levels);
    }
}

spec fn one_tag_found(
    context: SpecComparison,
    facts: SpecComparisonFacts,
    wanted: SpecRow,
    there: SpecRow,
    finding: SpecFinding,
    levels: nat,
) -> Seq<SpecComparisonFinding> {
    match finding {
        SpecFinding::KindMismatch => seq![
            SpecComparisonFinding::KindMismatch { expected: wanted, actual: there },
        ],
        SpecFinding::UnknownTag(tag) => seq![SpecComparisonFinding::UnknownTag(tag)],
        SpecFinding::PayloadArity { tag, expected, found } => seq![
            SpecComparisonFinding::PayloadArity { tag, expected, found },
        ],
        SpecFinding::Compare(pairs) => pairs_findings(context, facts, pairs, levels),
    }
}

proof fn tags_are_found(
    wanted: SpecRow,
    tags: Seq<(Seq<char>, Seq<SpecType>)>,
    index: int,
)
    requires
        0 <= index < tags.len(),
        tag_finding(wanted, tags[index]) is Some,
    ensures
        tag_findings(wanted, tags).contains(tag_finding(wanted, tags[index])->0),
    decreases tags.len(),
{
    let others = tags.drop_last();
    let found = tag_findings(wanted, tags);
    let earlier = tag_findings(wanted, others);
    let finding = tag_finding(wanted, tags[index])->0;
    if index < others.len() {
        assert(others[index] == tags[index]);
        tags_are_found(wanted, others, index);
        let place = choose|i: int| 0 <= i < earlier.len() && earlier[i] == finding;
        assert(found[place] == finding);
    } else {
        assert(found[found.len() - 1] == finding);
    }
}

proof fn variants_show_their_tags(
    context: SpecComparison,
    facts: SpecComparisonFacts,
    wanted: SpecRow,
    there: SpecRow,
    index: int,
    levels: nat,
)
    requires
        facts.rows.len() == 0,
        0 <= index < there.entries.len(),
        forall|i: int| 0 <= i < wanted.entries.len() ==> #[trigger] wanted.entries[i] is Tag,
        forall|i: int| 0 <= i < there.entries.len() ==> #[trigger] there.entries[i] is Tag,
        wanted.tail is Closed ==> there.tail is Closed,
        tag_finding(
            wanted,
            (there.entries[index]->Tag_name, there.entries[index]->Tag_payload),
        ) is Some,
    ensures
        holds_findings(
            variants_findings(context, facts, wanted, there, levels),
            one_tag_found(
                context,
                facts,
                wanted,
                there,
                tag_finding(
                    wanted,
                    (there.entries[index]->Tag_name, there.entries[index]->Tag_payload),
                )->0,
                levels,
            ),
        ),
{
    let tags = tags_of(there);
    let entry = there.entries[index];
    assert(tags[index] == (entry->Tag_name, entry->Tag_payload));
    assert(all_tags(wanted) && all_tags(there));
    tags_are_found(wanted, tags, index);
    let finding = tag_finding(wanted, tags[index])->0;
    let compared = variant_findings(wanted, there);
    tags_hold_each(context, facts, wanted, there, compared, finding, levels);
    let all = tags_findings(context, facts, wanted, there, compared, levels);
    let part = one_tag_found(context, facts, wanted, there, finding, levels);
    assert forall|i: int| 0 <= i < there.entries.len() implies !(
    (#[trigger] there.entries[i]) is Literal) by {
        assert(there.entries[i] is Tag);
    }
    later_findings_keep(
        seq![
            SpecComparisonFinding::UnlessUnified {
                expected: wanted,
                actual: there,
                count: all.len(),
            },
        ],
        all,
        part,
    );
}

proof fn last_payload_of(entries: Seq<SpecRowEntry>, tag: Seq<char>, index: int)
    requires
        0 <= index < entries.len(),
        is_tag(entries[index], tag),
        forall|i: int| index < i < entries.len() ==> !is_tag(#[trigger] entries[i], tag),
    ensures
        crate::rows::last_payload(entries, tag) == Some(entries[index]->Tag_payload),
    decreases entries.len(),
{
    if index < entries.len() - 1 {
        let others = entries.drop_last();
        assert forall|i: int| index < i < others.len() implies !is_tag(
            #[trigger] others[i],
            tag,
        ) by {
            assert(others[i] == entries[i]);
        }
        assert(others[index] == entries[index]);
        assert(!is_tag(entries[entries.len() - 1], tag));
        last_payload_of(others, tag, index);
    }
}

proof fn no_payload_of(entries: Seq<SpecRowEntry>, tag: Seq<char>)
    requires
        forall|i: int| 0 <= i < entries.len() ==> !is_tag(#[trigger] entries[i], tag),
    ensures
        crate::rows::last_payload(entries, tag) is None,
    decreases entries.len(),
{
    if entries.len() > 0 {
        let others = entries.drop_last();
        assert forall|i: int| 0 <= i < others.len() implies !is_tag(#[trigger] others[i], tag) by {
            assert(others[i] == entries[i]);
        }
        assert(!is_tag(entries[entries.len() - 1], tag));
        no_payload_of(others, tag);
    }
}

/// Variants of tags are compared tag by tag: a tag that is expected is compared by its payload,
/// and one that a closed variant does not list does not fit.
pub proof fn variants_are_compared_tag_by_tag(
    context: SpecComparison,
    facts: SpecComparisonFacts,
    wanted: SpecRow,
    there: SpecRow,
    index: int,
    levels: nat,
)
    requires
        levels > 0,
        facts.rows.len() == 0,
        is_structural_pair(context, SpecType::Variant(wanted), SpecType::Variant(there)),
        0 <= index < there.entries.len(),
        forall|i: int| 0 <= i < wanted.entries.len() ==> #[trigger] wanted.entries[i] is Tag,
        forall|i: int| 0 <= i < there.entries.len() ==> #[trigger] there.entries[i] is Tag,
        wanted.tail is Closed ==> there.tail is Closed,
    ensures
        ({
            let found = comparison_findings(
                context,
                facts,
                SpecType::Variant(wanted),
                SpecType::Variant(there),
                levels,
            );
            let tag = there.entries[index]->Tag_name;
            let payload = there.entries[index]->Tag_payload;
            let below = (levels - 1) as nat;
            &&& (forall|i: int|
                0 <= i < wanted.entries.len() ==> !is_tag(#[trigger] wanted.entries[i], tag))
                && wanted.tail is Closed ==> holds_findings(
                found,
                seq![SpecComparisonFinding::UnknownTag(tag)],
            )
            &&& forall|i: int|
                0 <= i < wanted.entries.len() && is_tag(#[trigger] wanted.entries[i], tag) && (
                forall|k: int|
                    i < k < wanted.entries.len() ==> !is_tag(#[trigger] wanted.entries[k], tag))
                    ==> {
                    let asked = wanted.entries[i]->Tag_payload;
                    if asked.len() != payload.len() {
                        holds_findings(
                            found,
                            seq![
                                SpecComparisonFinding::PayloadArity {
                                    tag,
                                    expected: asked.len(),
                                    found: payload.len(),
                                },
                            ],
                        )
                    } else {
                        forall|j: int|
                            0 <= j < asked.len() ==> some_findings_hold(
                                context,
                                facts,
                                found,
                                #[trigger] asked[j],
                                payload[j],
                                below,
                            )
                    }
                }
        }),
{
    let tag = there.entries[index]->Tag_name;
    let payload = there.entries[index]->Tag_payload;
    let below = (levels - 1) as nat;
    let found = variants_findings(context, facts, wanted, there, below);
    if (forall|i: int| 0 <= i < wanted.entries.len() ==> !is_tag(#[trigger] wanted.entries[i], tag))
        && wanted.tail is Closed {
        no_payload_of(wanted.entries, tag);
        variants_show_their_tags(context, facts, wanted, there, index, below);
    }
    assert forall|i: int|
        0 <= i < wanted.entries.len() && is_tag(#[trigger] wanted.entries[i], tag) && (forall|
            k: int,
        |
            i < k < wanted.entries.len() ==> !is_tag(#[trigger] wanted.entries[k], tag)) implies {
        let asked = wanted.entries[i]->Tag_payload;
        if asked.len() != payload.len() {
            holds_findings(
                found,
                seq![
                    SpecComparisonFinding::PayloadArity {
                        tag,
                        expected: asked.len(),
                        found: payload.len(),
                    },
                ],
            )
        } else {
            forall|j: int|
                0 <= j < asked.len() ==> some_findings_hold(
                    context,
                    facts,
                    found,
                    #[trigger] asked[j],
                    payload[j],
                    below,
                )
        }
    } by {
        last_payload_of(wanted.entries, tag, i);
        variants_show_their_tags(context, facts, wanted, there, index, below);
        let asked = wanted.entries[i]->Tag_payload;
        if asked.len() == payload.len() {
            let pairs = zipped(asked, payload);
            let all = pairs_findings(context, facts, pairs, below);
            assert forall|j: int| 0 <= j < asked.len() implies some_findings_hold(
                context,
                facts,
                found,
                #[trigger] asked[j],
                payload[j],
                below,
            ) by {
                pairs_hold_each(context, facts, pairs, j, below);
                parts_of_parts(
                    found,
                    all,
                    comparison_findings(context, facts, asked[j], payload[j], below),
                );
            }
        }
    }
}

/// Whether what comparing two types finds stands among some findings.
pub open spec fn some_findings_hold(
    context: SpecComparison,
    facts: SpecComparisonFacts,
    found: Seq<SpecComparisonFinding>,
    expected: SpecType,
    actual: SpecType,
    levels: nat,
) -> bool {
    holds_findings(found, comparison_findings(context, facts, expected, actual, levels))
}

proof fn parts_of_parts(
    whole: Seq<SpecComparisonFinding>,
    middle: Seq<SpecComparisonFinding>,
    part: Seq<SpecComparisonFinding>,
)
    requires
        holds_findings(whole, middle),
        holds_findings(middle, part),
    ensures
        holds_findings(whole, part),
{
    let outer = choose|from: int|
        0 <= from && from + middle.len() <= whole.len() && #[trigger] whole.subrange(
            from,
            from + middle.len(),
        ) == middle;
    let inner = choose|from: int|
        0 <= from && from + part.len() <= middle.len() && #[trigger] middle.subrange(
            from,
            from + part.len(),
        ) == part;
    let from = outer + inner;
    assert(whole.subrange(from, from + part.len()) =~= part) by {
        assert forall|i: int| 0 <= i < part.len() implies whole.subrange(from, from + part.len())[i]
            == part[i] by {
            assert(middle.subrange(inner, inner + part.len())[i] == middle[inner + i]);
            assert(whole.subrange(outer, outer + middle.len())[inner + i] == whole[outer + inner
                + i]);
        }
    }
}

/// Of the literals of a closed union, exactly those are found that the expected union does not
/// list.
pub proof fn unions_are_compared_literal_by_literal(
    context: SpecComparison,
    facts: SpecComparisonFacts,
    wanted: SpecRow,
    there: SpecRow,
    literal: SpecLiteral,
    levels: nat,
)
    requires
        levels > 0,
        facts.rows.len() == 0,
        is_structural_pair(context, SpecType::Variant(wanted), SpecType::Variant(there)),
        there.entries.len() > 0,
        wanted.tail is Closed,
        forall|i: int| 0 <= i < wanted.entries.len() ==> #[trigger] wanted.entries[i] is Literal,
        forall|i: int| 0 <= i < there.entries.len() ==> #[trigger] there.entries[i] is Literal,
    ensures
        comparison_findings(
            context,
            facts,
            SpecType::Variant(wanted),
            SpecType::Variant(there),
            levels,
        ).contains(SpecComparisonFinding::NotInUnion { literal, expected: wanted }) <==> (exists|
            i: int,
        |
            0 <= i < there.entries.len() && #[trigger] there.entries[i] == (
            SpecRowEntry::Literal { value: literal })) && !(exists|i: int|
            0 <= i < wanted.entries.len() && #[trigger] wanted.entries[i] == (
            SpecRowEntry::Literal { value: literal })),
{
    let listed = crate::comparison::literals_of(wanted);
    let given = crate::comparison::literals_of(there);
    let foreign = crate::comparison::foreign_literals(given, listed);
    let test = |l: SpecLiteral| !listed.contains(l);
    assert(there.entries[0] is Literal);
    assert(all_literals(wanted) && all_literals(there));
    let found = crate::conformance::union_findings(foreign, wanted);
    let finding = SpecComparisonFinding::NotInUnion { literal, expected: wanted };
    assert(crate::conformance::resolved_row(facts, wanted) == wanted);
    assert(crate::conformance::resolved_row(facts, there) == there);
    assert(variants_findings(context, facts, wanted, there, (levels - 1) as nat) == found);
    broadcast use vstd::seq_lib::group_filter_ensures;

    assert(given.contains(literal) <==> exists|i: int|
        0 <= i < there.entries.len() && #[trigger] there.entries[i] == (SpecRowEntry::Literal {
            value: literal,
        })) by {
        if given.contains(literal) {
            let i = choose|i: int| 0 <= i < given.len() && given[i] == literal;
            assert(there.entries[i] == (SpecRowEntry::Literal { value: literal }));
        }
        if exists|i: int|
            0 <= i < there.entries.len() && #[trigger] there.entries[i] == (
            SpecRowEntry::Literal { value: literal }) {
            let i = choose|i: int|
                0 <= i < there.entries.len() && #[trigger] there.entries[i] == (
                SpecRowEntry::Literal { value: literal });
            assert(given[i] == literal);
        }
    }
    assert(listed.contains(literal) <==> exists|i: int|
        0 <= i < wanted.entries.len() && #[trigger] wanted.entries[i] == (SpecRowEntry::Literal {
            value: literal,
        })) by {
        if listed.contains(literal) {
            let i = choose|i: int| 0 <= i < listed.len() && listed[i] == literal;
            assert(wanted.entries[i] == (SpecRowEntry::Literal { value: literal }));
        }
        if exists|i: int|
            0 <= i < wanted.entries.len() && #[trigger] wanted.entries[i] == (
            SpecRowEntry::Literal { value: literal }) {
            let i = choose|i: int|
                0 <= i < wanted.entries.len() && #[trigger] wanted.entries[i] == (
                SpecRowEntry::Literal { value: literal });
            assert(listed[i] == literal);
        }
    }
    assert(foreign == given.filter(test));
    if found.contains(finding) {
        let i = choose|i: int| 0 <= i < found.len() && found[i] == finding;
        assert(foreign[i] == literal);
        assert(foreign.contains(literal));
        given.lemma_filter_contains_rev(test, literal);
        given.lemma_filter_pred(test, i);
    }
    if given.contains(literal) && !listed.contains(literal) {
        assert(test(literal));
        assert(foreign.contains(literal));
        let i = choose|i: int| 0 <= i < foreign.len() && foreign[i] == literal;
        assert(found[i] == finding);
    }
}

// ---------------------------------------------------------------------------
// Literals and builtin types
// ---------------------------------------------------------------------------
/// Literals fit the builtin type that they are of, and none of the others. Tags fit every name
/// that stands for no variant.
pub proof fn literals_fit_the_type_they_are_of(
    context: SpecComparison,
    facts: SpecComparisonFacts,
    name: Seq<char>,
    row: SpecRow,
    levels: nat,
)
    requires
        levels > 0,
        is_structural_pair(context, SpecType::Named(name), SpecType::Variant(row)),
        !(facts.definitions.contains_key(name) && facts.definitions[name] is Variant),
        crate::conformance::resolved_row(facts, row) == row,
    ensures
        ({
            let expected = SpecType::Named(name);
            let actual = SpecType::Variant(row);
            let found = comparison_findings(context, facts, expected, actual, levels);
            let mismatch = seq![
                SpecComparisonFinding::Mismatch {
                    expected,
                    expected_as: Written::AsName,
                    actual,
                    actual_as: Written::AsInferred,
                },
            ];
            &&& crate::operator_laws::lists_texts(actual) ==> found == (if name == "Text"@ {
                Seq::empty()
            } else {
                mismatch
            })
            &&& crate::operator_laws::lists_truth_values(actual) ==> found == (if name == "Bool"@ {
                Seq::empty()
            } else {
                mismatch
            })
            &&& crate::operator_laws::lists_numbers(actual) ==> found == (if name == "Int"@ || name
                == "Float"@ {
                Seq::empty()
            } else {
                mismatch
            })
            &&& row.entries.len() > 0 && row.entries[0] is Tag ==> found.len() == 0
        }),
{
    let actual = SpecType::Variant(row);
    crate::operator_laws::literals_have_their_base(actual);
    if row.entries.len() > 0 && row.entries[0] is Tag {
        assert forall|base: crate::type_ops::LiteralBase| !#[trigger] crate::type_ops::row_has_base(
            row,
            base,
        ) by {
            assert(!crate::type_ops::entry_has_base(row.entries[0], base));
        }
    }
}

/// A value of a builtin type is too wide for a closed union of its literals, fits one that may
/// hold more, and does not fit a union of other literals.
pub proof fn builtin_values_are_too_wide_for_unions(
    context: SpecComparison,
    facts: SpecComparisonFacts,
    row: SpecRow,
    name: Seq<char>,
    levels: nat,
)
    requires
        levels > 0,
        is_structural_pair(context, SpecType::Variant(row), SpecType::Named(name)),
        crate::conformance::resolved_row(facts, row) == row,
        crate::comparison::base_view(context.family_bases, SpecType::Named(name)) != Some(
            SpecType::Variant(row),
        ),
    ensures
        ({
            let expected = SpecType::Variant(row);
            let actual = SpecType::Named(name);
            let found = comparison_findings(context, facts, expected, actual, levels);
            let of_it = crate::operator_laws::lists_texts(expected) && name == "Text"@
                || crate::operator_laws::lists_truth_values(expected) && name == "Bool"@
                || crate::operator_laws::lists_numbers(expected) && (name == "Int"@ || name
                == "Float"@);
            let literals = crate::operator_laws::lists_texts(expected)
                || crate::operator_laws::lists_truth_values(expected)
                || crate::operator_laws::lists_numbers(expected);
            &&& of_it && row.tail is Closed ==> found == seq![
                SpecComparisonFinding::WideValue { expected: row, actual: name },
            ]
            &&& of_it && !(row.tail is Closed) ==> found.len() == 0
            &&& literals && !of_it ==> found == seq![
                SpecComparisonFinding::Mismatch {
                    expected,
                    expected_as: Written::AsType,
                    actual,
                    actual_as: Written::AsName,
                },
            ]
        }),
{
    let expected = SpecType::Variant(row);
    reveal_strlit("Text");
    reveal_strlit("Bool");
    reveal_strlit("Int");
    reveal_strlit("Float");
    let literals = crate::operator_laws::lists_texts(expected)
        || crate::operator_laws::lists_truth_values(expected)
        || crate::operator_laws::lists_numbers(expected);
    if literals {
        assert(expected->Variant_0.entries[0] is Literal);
        assert(crate::rows::all_literals(row)) by {
            assert forall|i: int| 0 <= i < row.entries.len() implies #[trigger] row.entries[i]
                is Literal by {
                assert(expected->Variant_0.entries[i] is Literal);
            }
        }
        assert forall|i: int| 0 <= i < row.entries.len() implies crate::rows::literal_fits_base(
            (#[trigger] row.entries[i])->Literal_value,
            name,
        ) == crate::rows::literal_fits_base(row.entries[0]->Literal_value, name) by {
            assert(expected->Variant_0.entries[i] is Literal);
        }
    }
}

/// A rigid type variable fits nothing but itself.
pub proof fn rigid_variables_fit_themselves(
    context: SpecComparison,
    facts: SpecComparisonFacts,
    name: Seq<char>,
    other: Seq<char>,
    levels: nat,
)
    requires
        levels > 0,
        context.rigid.contains(name),
        name != other,
        is_structural_pair(context, SpecType::Variable(name), SpecType::Variable(other)),
    ensures
        comparison_findings(
            context,
            facts,
            SpecType::Variable(name),
            SpecType::Variable(name),
            levels,
        ).len() == 0,
        comparison_findings(
            context,
            facts,
            SpecType::Variable(name),
            SpecType::Variable(other),
            levels,
        ) == seq![
            SpecComparisonFinding::RigidVariable {
                name,
                expected: SpecType::Variable(name),
                actual: SpecType::Variable(other),
            },
        ],
{
}

/// A rigid type variable fits no known type, nor a known type it.
pub proof fn rigid_variables_fit_no_name(
    context: SpecComparison,
    facts: SpecComparisonFacts,
    variable: Seq<char>,
    name: Seq<char>,
    levels: nat,
)
    requires
        levels > 0,
        context.rigid.contains(variable),
        is_structural_pair(context, SpecType::Variable(variable), SpecType::Named(name)),
        is_structural_pair(context, SpecType::Named(name), SpecType::Variable(variable)),
        crate::comparison::base_view(context.family_bases, SpecType::Named(name)) != Some(
            SpecType::Variable(variable),
        ),
    ensures
        comparison_findings(
            context,
            facts,
            SpecType::Variable(variable),
            SpecType::Named(name),
            levels,
        ) == seq![
            SpecComparisonFinding::RigidVariable {
                name: variable,
                expected: SpecType::Variable(variable),
                actual: SpecType::Named(name),
            },
        ],
        comparison_findings(
            context,
            facts,
            SpecType::Named(name),
            SpecType::Variable(variable),
            levels,
        ) == seq![
            SpecComparisonFinding::RigidVariable {
                name: variable,
                expected: SpecType::Named(name),
                actual: SpecType::Variable(variable),
            },
        ],
{
}

/// A constructor of a result fits a result where what it holds fits what the result holds; no
/// other tag fits a result.
pub proof fn constructors_fit_results(
    context: SpecComparison,
    facts: SpecComparisonFacts,
    ok_ty: SpecType,
    error_ty: SpecType,
    tag: Seq<char>,
    payload: SpecType,
    tail: crate::types::RowTail,
    levels: nat,
)
    requires
        levels > 0,
        is_structural_pair(
            context,
            crate::rows::applied2("Result"@, ok_ty, error_ty),
            SpecType::Variant(
                SpecRow {
                    entries: seq![SpecRowEntry::Tag { name: tag, payload: seq![payload] }],
                    tail,
                },
            ),
        ),
    ensures
        ({
            let expected = crate::rows::applied2("Result"@, ok_ty, error_ty);
            let actual = SpecType::Variant(
                SpecRow {
                    entries: seq![SpecRowEntry::Tag { name: tag, payload: seq![payload] }],
                    tail,
                },
            );
            let found = comparison_findings(context, facts, expected, actual, levels);
            let below = (levels - 1) as nat;
            &&& tag == "Ok"@ ==> found == comparison_findings(
                context,
                facts,
                ok_ty,
                payload,
                below,
            )
            &&& tag == "Err"@ ==> found == comparison_findings(
                context,
                facts,
                error_ty,
                payload,
                below,
            )
            &&& tag != "Ok"@ && tag != "Err"@ ==> found == seq![
                SpecComparisonFinding::Mismatch {
                    expected,
                    expected_as: Written::AsType,
                    actual,
                    actual_as: Written::AsType,
                },
            ]
        }),
{
    let expected = crate::rows::applied2("Result"@, ok_ty, error_ty);
    let entry = SpecRowEntry::Tag { name: tag, payload: seq![payload] };
    let entries = seq![entry];
    let actual = SpecType::Variant(SpecRow { entries, tail });
    let below = (levels - 1) as nat;
    reveal_strlit("Ok");
    reveal_strlit("Err");
    assert("Ok"@.len() != "Err"@.len());
    crate::rows::result_parts_of_result(ok_ty, error_ty);
    assert(entries[0] == entry);
    assert(seq![payload][0] == payload);
    let none = Seq::<crate::comparison::SpecResultFinding>::empty();
    let nothing = Seq::<SpecComparisonFinding>::empty();
    let listed = crate::comparison::result_findings(ok_ty, error_ty, entries, 0);
    assert(crate::comparison::result_findings(ok_ty, error_ty, entries, 1) == none);
    assert(crate::comparison::type_step(
        context,
        expected,
        actual,
        crate::conformance::names_mismatch(facts, expected, actual),
    ) is ResultVariant);
    assert(comparison_findings(context, facts, expected, actual, levels)
        == crate::conformance::result_variant_findings(
        context,
        facts,
        expected,
        actual,
        listed,
        below,
    ));
    if tag == "Ok"@ || tag == "Err"@ {
        let wanted = if tag == "Ok"@ {
            ok_ty
        } else {
            error_ty
        };
        let one = crate::comparison::SpecResultFinding::Compare(wanted, payload);
        assert(listed =~= seq![one]);
        assert(listed.drop_last() =~= none);
        assert(listed.last() == one);
        let found = comparison_findings(context, facts, wanted, payload, below);
        assert(nothing + found =~= found);
        assert(crate::conformance::result_variant_findings(
            context,
            facts,
            expected,
            actual,
            none,
            below,
        ) == nothing);
        assert(crate::conformance::result_variant_findings(
            context,
            facts,
            expected,
            actual,
            listed,
            below,
        ) == nothing + found);
    } else {
        let one = crate::comparison::SpecResultFinding::NoResult;
        assert(listed =~= seq![one]);
        assert(listed.drop_last() =~= none);
        assert(listed.last() == one);
        assert(crate::conformance::result_variant_findings(
            context,
            facts,
            expected,
            actual,
            none,
            below,
        ) == nothing);
        let mismatch = crate::conformance::mismatched(
            expected,
            Written::AsType,
            actual,
            Written::AsType,
        );
        assert(nothing + seq![mismatch] =~= seq![mismatch]);
        assert(crate::conformance::result_variant_findings(
            context,
            facts,
            expected,
            actual,
            listed,
            below,
        ) == nothing + seq![mismatch]);
    }
}

} // verus!
