//! What the arms of matches give, and what their patterns bind.
use crate::arms::{
    arm_steps, arms_steps, checking_steps, combined, first_unfit, union_after, unified, ArmBody,
    SpecCombination, SpecMatchStep,
};
use crate::rows::ComptimeValue;
use crate::match_laws::is_name_pattern;
use crate::matches::{united, with_arm, SpecArmUnion};
use crate::patterns::{first_match, pattern_types, payload_types, record_types, unmatched_entries};
use crate::row_edits::labels_are_distinct;
use crate::row_laws::is_labelled;
use crate::rows::{field_type, label_of, label_position, label_position_is_first, last_payload};
use crate::syntax::{ungrouped, Expr, MatchArm, RecordEntry};
use crate::types::{SpecLiteral, SpecRow, SpecRowEntry, SpecType};
use vstd::prelude::*;

verus! {

// ---------------------------------------------------------------------------
// Unions
// ---------------------------------------------------------------------------
proof fn positions_are_of_labels(entries: Seq<SpecRowEntry>, label: Seq<char>)
    ensures
        label_position(entries, label, 0) is Some <==> is_labelled(entries, label),
        label_position(entries, label, 0) is Some ==> 0 <= label_position(entries, label, 0)->0
            < entries.len() && label_of(entries[label_position(entries, label, 0)->0]) == label,
{
    label_position_is_first(entries, label, 0);
    if let Some(index) = label_position(entries, label, 0) {
        assert(label_of(entries[index]) == label);
    }
}

proof fn pushing_adds_a_label(entries: Seq<SpecRowEntry>, entry: SpecRowEntry, label: Seq<char>)
    ensures
        is_labelled(entries.push(entry), label) <==> is_labelled(entries, label) || label_of(entry)
            == label,
{
    let longer = entries.push(entry);
    if is_labelled(entries, label) {
        let i = choose|i: int| 0 <= i < entries.len() && label_of(#[trigger] entries[i]) == label;
        assert(label_of(longer[i]) == label);
    }
    if label_of(entry) == label {
        assert(label_of(longer[entries.len() as int]) == label);
    }
    if is_labelled(longer, label) && label_of(entry) != label {
        let i = choose|i: int| 0 <= i < longer.len() && label_of(#[trigger] longer[i]) == label;
        assert(label_of(entries[i]) == label);
    }
}

/// The entries of a variant that are united with others keep those and add what they lack.
pub proof fn united_entries_hold_both(
    entries: Seq<SpecRowEntry>,
    incoming: Seq<SpecRowEntry>,
    count: nat,
    label: Seq<char>,
)
    requires
        count <= incoming.len(),
        united(entries, incoming, count) is Some,
    ensures
        ({
            let after = (united(entries, incoming, count)->0).0;
            &&& is_labelled(after, label) <==> is_labelled(entries, label) || is_labelled(
                incoming.take(count as int),
                label,
            )
            &&& after.len() >= entries.len()
            &&& after.take(entries.len() as int) == entries
        }),
    decreases count,
{
    if count == 0 {
        assert(incoming.take(0) =~= Seq::<SpecRowEntry>::empty());
        assert(entries.take(entries.len() as int) =~= entries);
    } else {
        let few = (count - 1) as nat;
        united_entries_hold_both(entries, incoming, few, label);
        let known = (united(entries, incoming, few)->0).0;
        let after = (united(entries, incoming, count)->0).0;
        let entry = incoming[few as int];
        assert(incoming.take(count as int) =~= incoming.take(few as int).push(entry));
        pushing_adds_a_label(incoming.take(few as int), entry, label);
        pushing_adds_a_label(known, entry, label);
        positions_are_of_labels(known, label_of(entry));
        if after != known {
            assert(after == known.push(entry));
            assert(after.take(entries.len() as int) =~= known.take(entries.len() as int));
        }
    }
}

/// Whether one of the first bodies has a label.
pub open spec fn some_body_lists(bodies: Seq<ArmBody>, count: nat, label: Seq<char>) -> bool {
    exists|i: int|
        0 <= i < count && i < bodies.len() && is_labelled(
            (#[trigger] bodies[i]).ty@->Variant_0.entries,
            label,
        )
}

/// Whether one of the first bodies may hold more than it lists.
pub open spec fn some_body_is_open(bodies: Seq<ArmBody>, count: nat) -> bool {
    exists|i: int|
        0 <= i < count && i < bodies.len() && !((#[trigger] bodies[i]).ty@->Variant_0.tail
            is Closed)
}

proof fn unions_hold_what_bodies_list(bodies: Seq<ArmBody>, count: nat, label: Seq<char>)
    requires
        count <= bodies.len(),
        union_after(bodies, count) is Union,
    ensures
        ({
            let union = union_after(bodies, count)->Union_0;
            &&& is_labelled(union.entries, label) <==> some_body_lists(bodies, count, label)
            &&& union.open <==> some_body_is_open(bodies, count)
        }),
    decreases count,
{
    if count > 0 {
        let few = (count - 1) as nat;
        unions_hold_what_bodies_list(bodies, few, label);
        let before = union_after(bodies, few)->Union_0;
        let after = union_after(bodies, count)->Union_0;
        let body = bodies[few as int];
        let row = body.ty@->Variant_0;
        united_entries_hold_both(before.entries, row.entries, row.entries.len(), label);
        assert(row.entries.take(row.entries.len() as int) =~= row.entries);
        if some_body_lists(bodies, few, label) {
            let i = choose|i: int|
                0 <= i < few && i < bodies.len() && is_labelled(
                    (#[trigger] bodies[i]).ty@->Variant_0.entries,
                    label,
                );
            assert(is_labelled(bodies[i].ty@->Variant_0.entries, label));
        }
        if some_body_lists(bodies, count, label) && !is_labelled(row.entries, label) {
            let i = choose|i: int|
                0 <= i < count && i < bodies.len() && is_labelled(
                    (#[trigger] bodies[i]).ty@->Variant_0.entries,
                    label,
                );
            assert(i < few);
        }
        if is_labelled(row.entries, label) {
            assert(is_labelled(bodies[few as int].ty@->Variant_0.entries, label));
        }
        if some_body_is_open(bodies, few) {
            let i = choose|i: int|
                0 <= i < few && i < bodies.len() && !((#[trigger] bodies[i]).ty@->Variant_0.tail
                    is Closed);
            assert(!(bodies[i].ty@->Variant_0.tail is Closed));
        }
        if some_body_is_open(bodies, count) && row.tail is Closed {
            let i = choose|i: int|
                0 <= i < count && i < bodies.len() && !((
                #[trigger] bodies[i]).ty@->Variant_0.tail is Closed);
            assert(i < few);
        }
        if !(row.tail is Closed) {
            assert(!(bodies[few as int].ty@->Variant_0.tail is Closed));
        }
    } else {
        assert(!some_body_lists(bodies, 0, label));
        assert(!some_body_is_open(bodies, 0));
    }
}

/// Arms that all give variants give a variant together. It lists what one of them lists, and
/// may hold more exactly where one of them may.
pub proof fn matches_give_every_variant(
    bodies: Seq<ArmBody>,
    fresh: SpecType,
    label: Seq<char>,
)
    requires
        forall|i: int| 0 <= i < bodies.len() ==> (#[trigger] bodies[i]).ty@ is Variant,
        combined(bodies, fresh) is Joined,
    ensures
        ({
            let ty = combined(bodies, fresh)->Joined_0;
            &&& ty is Variant
            &&& is_labelled(ty->Variant_0.entries, label) <==> some_body_lists(
                bodies,
                bodies.len(),
                label,
            )
            &&& ty->Variant_0.tail is Open <==> some_body_is_open(bodies, bodies.len())
            &&& ty->Variant_0.tail is Closed <==> !some_body_is_open(bodies, bodies.len())
        }),
{
    variants_are_united(bodies, bodies.len());
    unions_hold_what_bodies_list(bodies, bodies.len(), label);
}

proof fn variants_are_united(bodies: Seq<ArmBody>, count: nat)
    requires
        forall|i: int| 0 <= i < bodies.len() ==> (#[trigger] bodies[i]).ty@ is Variant,
        count <= bodies.len(),
    ensures
        !(union_after(bodies, count) is NoVariants),
    decreases count,
{
    if count > 0 {
        variants_are_united(bodies, (count - 1) as nat);
        assert(bodies[count - 1].ty@ is Variant);
    }
}

/// Tags that two arms share must hold as many values, and those go together one by one.
pub proof fn shared_tags_hold_the_same(
    union: SpecArmUnion,
    tag: Seq<char>,
    payload: Seq<SpecType>,
    tail: crate::types::RowTail,
    index: int,
)
    requires
        labels_are_distinct(union.entries),
        union.kind != Some(crate::rows::VariantEntryKind::Literal),
        0 <= index < union.entries.len(),
        union.entries[index] is Tag,
        union.entries[index]->Tag_name == tag,
    ensures
        ({
            let row = SpecRow { entries: seq![SpecRowEntry::Tag { name: tag, payload }], tail };
            let existing = union.entries[index]->Tag_payload;
            &&& existing.len() != payload.len() ==> with_arm(union, row) is None
            &&& existing.len() == payload.len() ==> with_arm(union, row) is Some && (with_arm(
                union,
                row,
            )->0).0.entries == union.entries && (with_arm(union, row)->0).1 == Seq::new(
                payload.len(),
                |i: int| (existing[i], payload[i]),
            )
        }),
{
    let entry = SpecRowEntry::Tag { name: tag, payload };
    let row = SpecRow { entries: seq![entry], tail };
    let existing = union.entries[index]->Tag_payload;
    assert(row.entries[0] == entry);
    assert(crate::rows::entry_kind(entry) == Some(crate::rows::VariantEntryKind::Tag));
    reveal_with_fuel(united, 2);
    label_position_is_first(union.entries, tag, 0);
    assert(label_of(union.entries[index]) == tag);
    positions_are_of_labels(union.entries, tag);
    assert(is_labelled(union.entries, tag));
    let position = label_position(union.entries, tag, 0)->0;
    if position < index {
        assert(label_of(union.entries[position]) != label_of(union.entries[index]));
    } else if index < position {
        assert(label_of(union.entries[index]) != label_of(union.entries[position]));
    }
    assert(position == index);
    assert(crate::matches::row_kind(row.entries) == Some(
        Some(crate::rows::VariantEntryKind::Tag),
    ));
    assert(union.kind is None || union.kind == Some(crate::rows::VariantEntryKind::Tag)) by {
        match union.kind {
            Some(kind) => {
                assert(kind is Tag || kind is Literal);
            },
            None => {},
        }
    }
    let none = Seq::<(SpecType, SpecType)>::empty();
    assert(united(union.entries, row.entries, 0) == Some((union.entries, none)));
    if existing.len() == payload.len() {
        let pairs = Seq::new(payload.len(), |i: int| (existing[i], payload[i]));
        assert(none + crate::comparison::zipped(existing, payload) =~= pairs);
        assert(united(union.entries, row.entries, 1) == Some((union.entries, pairs)));
    } else {
        assert(united(union.entries, row.entries, 1) is None);
    }
}

/// Arms of which the first gives no variant must all fit one type: the first that does not is
/// the conflict.
pub proof fn other_arms_give_one_type(bodies: Seq<ArmBody>, fresh: SpecType, index: int)
    requires
        bodies.len() > 0,
        !(bodies[0].ty@ is Variant),
    ensures
        (forall|i: int| 0 <= i < bodies.len() ==> (#[trigger] bodies[i]).fits) ==> combined(
            bodies,
            fresh,
        ) == SpecCombination::Joined(fresh),
        0 <= index < bodies.len() && !bodies[index].fits && (forall|i: int|
            0 <= i < index ==> (#[trigger] bodies[i]).fits) ==> combined(bodies, fresh) == (
        SpecCombination::Conflict {
            earlier: if index == 0 {
                fresh
            } else {
                bodies[index - 1].result@
            },
            arm: index as nat,
        }),
{
    no_variant_stops_the_union(bodies, bodies.len());
    assert(combined(bodies, fresh) == unified(bodies, fresh));
    first_unfit_is_first(bodies, 0);
}

proof fn no_variant_stops_the_union(bodies: Seq<ArmBody>, count: nat)
    requires
        0 < count <= bodies.len(),
        !(bodies[0].ty@ is Variant),
    ensures
        union_after(bodies, count) is NoVariants,
    decreases count,
{
    if count > 1 {
        no_variant_stops_the_union(bodies, (count - 1) as nat);
    } else {
        assert(union_after(bodies, 0) is Union);
    }
}

proof fn first_unfit_is_first(bodies: Seq<ArmBody>, from: int)
    requires
        0 <= from <= bodies.len(),
    ensures
        match first_unfit(bodies, from) {
            Some(index) => from <= index < bodies.len() && !bodies[index].fits && forall|i: int|
                from <= i < index ==> (#[trigger] bodies[i]).fits,
            None => forall|i: int| from <= i < bodies.len() ==> (#[trigger] bodies[i]).fits,
        },
    decreases bodies.len() - from,
{
    if from < bodies.len() && bodies[from].fits {
        first_unfit_is_first(bodies, from + 1);
    }
}

// ---------------------------------------------------------------------------
// Steps
// ---------------------------------------------------------------------------
/// A match is checked arm after arm. Of an arm the names are bound, then its guards are looked
/// at one by one, then its body, and then the names are forgotten.
pub proof fn arms_are_checked_in_order(
    subject: Expr,
    arms: Seq<MatchArm>,
    arm: MatchArm,
)
    ensures
        ({
            let shorter = checking_steps(subject, arms, true);
            let longer = checking_steps(subject, arms.push(arm), true);
            let guards = arm.guards@;
            let after = shorter.len() as int;
            &&& longer.len() == shorter.len() + guards.len() + 3
            &&& longer.take(after) == shorter
            &&& longer[after] == SpecMatchStep::Open(*arm.pattern)
            &&& forall|i: int|
                0 <= i < guards.len() ==> longer[after + 1 + i] == SpecMatchStep::Guard(
                    #[trigger] guards[i],
                )
            &&& longer[after + 1 + guards.len()] == SpecMatchStep::CheckAgainst(*arm.body)
            &&& longer[after + 2 + guards.len()] == SpecMatchStep::Close
        }),
{
    let shorter = checking_steps(subject, arms, true);
    let longer = checking_steps(subject, arms.push(arm), true);
    let more = arms.push(arm);
    fewer_arms_have_the_same_steps(arms, arm, true, arms.len());
    assert(arms_steps(more, true, more.len()) == arms_steps(arms, true, arms.len()) + arm_steps(
        arm,
        true,
    ));
    assert(longer =~= shorter + arm_steps(arm, true));
    assert(longer.take(shorter.len() as int) =~= shorter);
}

proof fn fewer_arms_have_the_same_steps(
    arms: Seq<MatchArm>,
    arm: MatchArm,
    expected: bool,
    count: nat,
)
    requires
        count <= arms.len(),
    ensures
        arms_steps(arms.push(arm), expected, count) == arms_steps(arms, expected, count),
    decreases count,
{
    if count > 0 {
        fewer_arms_have_the_same_steps(arms, arm, expected, (count - 1) as nat);
        assert(arms.push(arm)[count - 1] == arms[count - 1]);
    }
}

/// A match without arms is checked by its subject alone, and where no type is expected the
/// results are compared at the end.
pub proof fn results_are_compared_at_the_end(subject: Expr, arms: Seq<MatchArm>)
    ensures
        checking_steps(subject, Seq::empty(), true) == seq![SpecMatchStep::Subject(subject)],
        ({
            let steps = checking_steps(subject, arms, false);
            &&& steps.len() > 1
            &&& steps[0] == SpecMatchStep::Subject(subject)
            &&& steps[steps.len() - 1] == SpecMatchStep::CompareResults
        }),
{
    let steps = checking_steps(subject, arms, false);
    let all = arms_steps(arms, false, arms.len());
    assert(steps == seq![SpecMatchStep::Subject(subject)] + all + seq![
        SpecMatchStep::CompareResults,
    ]);
    assert(checking_steps(subject, Seq::empty(), true) =~= seq![SpecMatchStep::Subject(subject)]);
}

// ---------------------------------------------------------------------------
// Names of patterns
// ---------------------------------------------------------------------------
/// A name takes the type that is expected, where something is known of it; the placeholder
/// takes none. What may be absent or null is bound as what it is otherwise.
pub proof fn names_take_the_expected_type(
    definitions: Map<Seq<char>, SpecType>,
    pattern: Expr,
    expected: SpecType,
    known: Map<Seq<char>, SpecType>,
)
    requires
        pattern.kind is Name,
        !(expected is Optional),
        !(expected is Nullable),
    ensures
        ({
            let name = pattern.kind->Name_0@;
            let after = pattern_types(definitions, pattern, expected, known);
            &&& name == "_"@ ==> after == known
            &&& name != "_"@ && (crate::type_ops::resolved(expected) || expected is Meta
                || expected is Variable) ==> after == known.insert(name, expected)
            &&& expected is Deferred ==> after == known
            &&& pattern_types(
                definitions,
                pattern,
                SpecType::Optional(Box::new(expected)),
                known,
            ) == after
            &&& pattern_types(
                definitions,
                pattern,
                SpecType::Nullable(Box::new(expected)),
                known,
            ) == after
        }),
{
    let after = pattern_types(definitions, pattern, expected, known);
    let optional = SpecType::Optional(Box::new(expected));
    let nullable = SpecType::Nullable(Box::new(expected));
    assert(crate::patterns::empty_of(pattern) is None);
    assert(pattern_types(definitions, pattern, optional, known) == after);
    assert(pattern_types(definitions, pattern, nullable, known) == after);
    if expected is Variable {
        assert(crate::type_ops::is_variable()(expected));
    }
    if expected is Deferred {
        assert(crate::type_ops::is_unresolved()(expected));
        assert(!crate::type_ops::is_variable()(expected));
    }
}

/// A group binds what is in it, and alternatives bind what each of them does.
pub proof fn groups_and_alternatives_bind(
    definitions: Map<Seq<char>, SpecType>,
    pattern: Expr,
    expected: SpecType,
    known: Map<Seq<char>, SpecType>,
)
    ensures
        pattern.kind is Group ==> pattern_types(definitions, pattern, expected, known)
            == pattern_types(definitions, *pattern.kind->Group_0, expected, known),
        pattern.kind is Binary && pattern.kind->Binary_operator@ == "|"@ && !(expected is Optional)
            && !(expected is Nullable) ==> pattern_types(definitions, pattern, expected, known)
            == pattern_types(
            definitions,
            *pattern.kind->Binary_right,
            expected,
            pattern_types(definitions, *pattern.kind->Binary_left, expected, known),
        ),
        pattern.kind is Literal || pattern.kind is Tag ==> pattern_types(
            definitions,
            pattern,
            expected,
            known,
        ) == known,
    decreases expected,
{
    if pattern.kind is Literal || pattern.kind is Tag {
        assert(crate::patterns::empty_of(pattern) is None);
        match expected {
            SpecType::Optional(inner) => {
                groups_and_alternatives_bind(definitions, pattern, *inner, known);
            },
            SpecType::Nullable(inner) => {
                groups_and_alternatives_bind(definitions, pattern, *inner, known);
            },
            _ => {},
        }
    }
}

/// Whether patterns are names of their own, none of which is the placeholder.
pub open spec fn are_distinct_names(patterns: Seq<Expr>) -> bool {
    &&& forall|i: int|
        0 <= i < patterns.len() ==> (#[trigger] patterns[i]).kind is Name
            && patterns[i].kind->Name_0@ != "_"@
    &&& forall|i: int, j: int|
        0 <= i < j < patterns.len() ==> (#[trigger] patterns[i]).kind->Name_0@ != (
        #[trigger] patterns[j]).kind->Name_0@
}

proof fn payload_names_take_their_types(
    definitions: Map<Seq<char>, SpecType>,
    args: Seq<Expr>,
    payload: Seq<SpecType>,
    known: Map<Seq<char>, SpecType>,
    count: nat,
    index: int,
)
    requires
        are_distinct_names(args),
        payload.len() == args.len(),
        forall|i: int|
            0 <= i < payload.len() ==> crate::type_ops::resolved(#[trigger] payload[i]) && !(
            payload[i] is Optional) && !(payload[i] is Nullable),
        0 <= index < count <= args.len(),
    ensures
        ({
            let after = payload_types(definitions, args, payload, known, count);
            let name = args[index].kind->Name_0@;
            after.contains_key(name) && after[name] == payload[index]
        }),
    decreases count,
{
    let few = (count - 1) as nat;
    let earlier = payload_types(definitions, args, payload, known, few);
    names_take_the_expected_type(definitions, args[few as int], payload[few as int], earlier);
    assert(args[few as int].kind is Name);
    assert(crate::type_ops::resolved(payload[few as int]));
    assert(payload_types(definitions, args, payload, known, count) == pattern_types(
        definitions,
        args[few as int],
        payload[few as int],
        earlier,
    ));
    if index < few {
        payload_names_take_their_types(definitions, args, payload, known, few, index);
        assert(args[index].kind->Name_0@ != args[few as int].kind->Name_0@);
    }
}

/// The names in a tag's pattern take the types that the tag holds, one by one.
pub proof fn tags_bind_what_they_hold(
    definitions: Map<Seq<char>, SpecType>,
    pattern: Expr,
    row: SpecRow,
    known: Map<Seq<char>, SpecType>,
    entry: int,
    index: int,
)
    requires
        pattern.kind is Call,
        pattern.kind->Call_callee.kind is Tag,
        !(row.tail is Open),
        labels_are_distinct(row.entries),
        forall|i: int| 0 <= i < row.entries.len() ==> #[trigger] row.entries[i] is Tag,
        0 <= entry < row.entries.len(),
        row.entries[entry]->Tag_name == pattern.kind->Call_callee.kind->Tag_0@,
        row.entries[entry]->Tag_payload.len() == pattern.kind->Call_args@.len(),
        are_distinct_names(pattern.kind->Call_args@),
        forall|i: int|
            0 <= i < row.entries[entry]->Tag_payload.len() ==> crate::type_ops::resolved(
                #[trigger] row.entries[entry]->Tag_payload[i],
            ) && !(row.entries[entry]->Tag_payload[i] is Optional) && !(
            row.entries[entry]->Tag_payload[i] is Nullable),
        0 <= index < pattern.kind->Call_args@.len(),
    ensures
        ({
            let after = pattern_types(definitions, pattern, SpecType::Variant(row), known);
            let name = pattern.kind->Call_args@[index].kind->Name_0@;
            after.contains_key(name) && after[name] == row.entries[entry]->Tag_payload[index]
        }),
{
    let tag = pattern.kind->Call_callee.kind->Tag_0@;
    let args = pattern.kind->Call_args@;
    let payload = row.entries[entry]->Tag_payload;
    payloads_are_listed(row.entries, tag, entry);
    assert(crate::rows::all_tags(row));
    assert(crate::rows::known_payload(row, tag) == Some(payload));
    payload_names_take_their_types(definitions, args, payload, known, args.len(), index);
    assert(pattern_types(definitions, pattern, SpecType::Variant(row), known) == payload_types(
        definitions,
        args,
        payload,
        known,
        args.len(),
    ));
}

proof fn payloads_are_listed(entries: Seq<SpecRowEntry>, tag: Seq<char>, index: int)
    requires
        labels_are_distinct(entries),
        0 <= index < entries.len(),
        entries[index] is Tag,
        entries[index]->Tag_name == tag,
    ensures
        last_payload(entries, tag) == Some(entries[index]->Tag_payload),
    decreases entries.len(),
{
    if index < entries.len() - 1 {
        assert(label_of(entries[index]) != label_of(entries[entries.len() - 1]));
        let fewer = entries.drop_last();
        assert forall|i: int, j: int| 0 <= i < j < fewer.len() implies label_of(
            #[trigger] fewer[i],
        ) != label_of(#[trigger] fewer[j]) by {
            assert(label_of(entries[i]) != label_of(entries[j]));
        }
        payloads_are_listed(fewer, tag, index);
    }
}

/// The field that an entry of a record pattern takes and the name that it gives it.
pub open spec fn taken_field(entry: RecordEntry) -> (Seq<char>, Seq<char>) {
    match entry {
        RecordEntry::Shorthand { name, .. } => (name@, name@),
        RecordEntry::Rename { from, to, .. } => (from@, to@),
        _ => (Seq::empty(), Seq::empty()),
    }
}

proof fn record_names_take_their_types(
    definitions: Map<Seq<char>, SpecType>,
    entries: Seq<RecordEntry>,
    row: SpecRow,
    known: Map<Seq<char>, SpecType>,
    count: nat,
    index: int,
)
    requires
        forall|i: int|
            0 <= i < entries.len() ==> #[trigger] entries[i] is Shorthand || entries[i] is Rename,
        forall|i: int, j: int|
            0 <= i < j < entries.len() ==> taken_field(#[trigger] entries[i]).1 != taken_field(
                #[trigger] entries[j],
            ).1,
        0 <= index < count <= entries.len(),
        field_type(row, taken_field(entries[index]).0) is Some,
        crate::type_ops::resolved(field_type(row, taken_field(entries[index]).0)->0),
    ensures
        ({
            let after = record_types(definitions, entries, row, known, count);
            let taken = taken_field(entries[index]);
            after.contains_key(taken.1) && Some(after[taken.1]) == field_type(row, taken.0)
        }),
    decreases count,
{
    let few = (count - 1) as nat;
    assert(entries[few as int] is Shorthand || entries[few as int] is Rename);
    if index < few {
        record_names_take_their_types(definitions, entries, row, known, few, index);
        assert(taken_field(entries[index]).1 != taken_field(entries[few as int]).1);
    }
}

/// The names in a record's pattern take the types of the fields that they stand for.
pub proof fn records_bind_their_fields(
    definitions: Map<Seq<char>, SpecType>,
    pattern: Expr,
    row: SpecRow,
    known: Map<Seq<char>, SpecType>,
    index: int,
)
    requires
        pattern.kind is Record,
        forall|i: int|
            0 <= i < pattern.kind->Record_0@.len() ==> #[trigger] pattern.kind->Record_0@[i]
                is Shorthand || pattern.kind->Record_0@[i] is Rename,
        forall|i: int, j: int|
            0 <= i < j < pattern.kind->Record_0@.len() ==> taken_field(
                #[trigger] pattern.kind->Record_0@[i],
            ).1 != taken_field(#[trigger] pattern.kind->Record_0@[j]).1,
        0 <= index < pattern.kind->Record_0@.len(),
        field_type(row, taken_field(pattern.kind->Record_0@[index]).0) is Some,
        crate::type_ops::resolved(
            field_type(row, taken_field(pattern.kind->Record_0@[index]).0)->0,
        ),
    ensures
        ({
            let after = pattern_types(definitions, pattern, SpecType::Record(row), known);
            let taken = taken_field(pattern.kind->Record_0@[index]);
            after.contains_key(taken.1) && Some(after[taken.1]) == field_type(row, taken.0)
        }),
{
    let entries = pattern.kind->Record_0@;
    record_names_take_their_types(definitions, entries, row, known, entries.len(), index);
    assert(pattern_types(definitions, pattern, SpecType::Record(row), known) == record_types(
        definitions,
        entries,
        row,
        known,
        entries.len(),
    ));
}

/// Whether an entry of a record pattern takes a field.
pub open spec fn takes_field(entries: Seq<RecordEntry>, label: Seq<char>) -> bool {
    exists|i: int|
        0 <= i < entries.len() && match #[trigger] entries[i] {
            RecordEntry::Field { name, .. } => name@ == label,
            RecordEntry::Shorthand { name, .. } => name@ == label,
            RecordEntry::Rename { from, .. } => from@ == label,
            _ => false,
        }
}

/// The rest of a record is what its pattern does not take.
pub proof fn rests_hold_what_is_not_taken(
    row: Seq<SpecRowEntry>,
    entries: Seq<RecordEntry>,
    entry: SpecRowEntry,
)
    ensures
        unmatched_entries(row, entries).contains(entry) <==> row.contains(entry) && !takes_field(
            entries,
            label_of(entry),
        ),
    decreases row.len(),
{
    if row.len() > 0 {
        let fewer = row.drop_last();
        let last = row[row.len() - 1];
        let earlier = unmatched_entries(fewer, entries);
        let all = unmatched_entries(row, entries);
        rests_hold_what_is_not_taken(fewer, entries, entry);
        assert(crate::patterns::some_label_matches(entries, label_of(last)) == takes_field(
            entries,
            label_of(last),
        )) by {
            if crate::patterns::some_label_matches(entries, label_of(last)) {
                let i = choose|i: int|
                    0 <= i < entries.len() && crate::patterns::matched_label(
                        #[trigger] entries[i],
                    ) == Some(label_of(last));
                assert(takes_field(entries, label_of(last)));
            }
            if takes_field(entries, label_of(last)) {
                let i = choose|i: int|
                    0 <= i < entries.len() && match #[trigger] entries[i] {
                        RecordEntry::Field { name, .. } => name@ == label_of(last),
                        RecordEntry::Shorthand { name, .. } => name@ == label_of(last),
                        RecordEntry::Rename { from, .. } => from@ == label_of(last),
                        _ => false,
                    };
                assert(crate::patterns::matched_label(entries[i]) == Some(label_of(last)));
            }
        }
        if earlier.contains(entry) {
            let i = choose|i: int| 0 <= i < earlier.len() && earlier[i] == entry;
            assert(all[i] == entry);
        }
        if fewer.contains(entry) {
            let i = choose|i: int| 0 <= i < fewer.len() && fewer[i] == entry;
            assert(row[i] == entry);
        }
        if row.contains(entry) {
            let i = choose|i: int| 0 <= i < row.len() && row[i] == entry;
            if i < fewer.len() {
                assert(fewer[i] == entry);
            }
        }
        if all != earlier {
            assert(all == earlier.push(last));
            assert(all[all.len() - 1] == last);
        }
        if all.contains(entry) && !earlier.contains(entry) {
            let i = choose|i: int| 0 <= i < all.len() && all[i] == entry;
            if i < earlier.len() {
                assert(earlier[i] == entry);
            }
            assert(row[row.len() - 1] == entry);
        }
    }
}

// ---------------------------------------------------------------------------
// Known subjects
// ---------------------------------------------------------------------------
/// Whether a pattern is for a literal: a name, or the literal itself.
pub open spec fn is_for_literal(pattern: Expr, literal: SpecLiteral) -> bool {
    is_name_pattern(pattern) || ungrouped(pattern).kind is Literal && ungrouped(
        pattern,
    ).kind->Literal_0@ == literal
}

/// A literal that is known selects the first arm whose pattern is for it, and none where no
/// pattern is.
pub proof fn known_subjects_select_the_first_arm(
    arms: Seq<MatchArm>,
    value: ComptimeValue,
    literal: SpecLiteral,
    from: int,
)
    requires
        0 <= from <= arms.len(),
        value is Literal && value->Literal_0@ == literal || value is Bool && literal
            == SpecLiteral::Bool(value->Bool_0),
    ensures
        match first_match(arms, value, from) {
            Some(index) => from <= index < arms.len() && is_for_literal(
                *arms[index].pattern,
                literal,
            ) && forall|i: int|
                from <= i < index ==> !is_for_literal(*(#[trigger] arms[i]).pattern, literal),
            None => forall|i: int|
                from <= i < arms.len() ==> !is_for_literal(*(#[trigger] arms[i]).pattern, literal),
        },
    decreases arms.len() - from,
{
    if from < arms.len() {
        assert(crate::patterns::matches_value(*arms[from].pattern, value) == is_for_literal(
            *arms[from].pattern,
            literal,
        ));
        if !is_for_literal(*arms[from].pattern, literal) {
            known_subjects_select_the_first_arm(arms, value, literal, from + 1);
        }
    }
}

} // verus!
