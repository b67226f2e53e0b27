//! Whether the arms of a match cover its subject, and the type of their results.
use crate::collections::StringMap;
use crate::comparison::{literals_of, pairs_view, zipped};
use crate::normalize::{normal_form, normalize};
use crate::patterns::{
    arm_covered_literals, arm_covered_tags, arm_covers_empty, empty_value_is_covered, has_catch_all,
    literals_named, names_of_refs, or_alternatives, pattern_has_catch_all_alternative,
    placed_literals, tags_named,
};
use crate::rows::{
    all_literals, all_tags, entry_kind, label_position, peel_empty_values, peeled_payload,
    peeled_values, row_entry_index, row_entry_variant_kind, EmptyValue, VariantEntryKind,
};
use crate::span::Span;
use crate::syntax::MatchArm;
use crate::text::{same_text, texts_contain, texts_view};
use crate::type_ops::{
    is_deferred, literal_text, literal_variant_base, render_literal_value, row_base, some_node,
    type_contains_deferred, type_map_view, LiteralBase,
};
use crate::types::{
    clone_entries, entries_view, types_view, Literal, Row, RowEntry, RowTail, SpecLiteral, SpecRow,
    SpecRowEntry, SpecType, Type,
};
use vstd::prelude::*;

verus! {

// ---------------------------------------------------------------------------
// Coverage
// ---------------------------------------------------------------------------
/// Whether an unguarded arm covers a tag.
pub open spec fn arm_covers_tag(arm: MatchArm, tag: Seq<char>) -> bool {
    arm.guards@.len() == 0 && tags_named(or_alternatives(*arm.pattern)).contains(tag)
}

/// Whether some arm covers a tag.
pub open spec fn covers_tag(arms: Seq<MatchArm>, tag: Seq<char>) -> bool {
    exists|i: int| 0 <= i < arms.len() && arm_covers_tag(#[trigger] arms[i], tag)
}

/// Whether some arm covers an empty value.
pub open spec fn covers_empty(arms: Seq<MatchArm>, value: EmptyValue) -> bool {
    exists|i: int| 0 <= i < arms.len() && arm_covers_empty(#[trigger] arms[i], value)
}

/// Whether literals with places hold a literal.
pub open spec fn places_literal(literals: Seq<(SpecLiteral, Span)>, literal: SpecLiteral) -> bool {
    exists|i: int| 0 <= i < literals.len() && (#[trigger] literals[i]).0 == literal
}

/// Whether an unguarded arm covers a literal.
pub open spec fn arm_covers_literal(arm: MatchArm, literal: SpecLiteral) -> bool {
    arm.guards@.len() == 0 && places_literal(
        literals_named(or_alternatives(*arm.pattern)),
        literal,
    )
}

/// Whether some arm covers a literal.
pub open spec fn covers_literal(arms: Seq<MatchArm>, literal: SpecLiteral) -> bool {
    exists|i: int| 0 <= i < arms.len() && arm_covers_literal(#[trigger] arms[i], literal)
}

/// Whether some arm covers whatever the others leave.
pub open spec fn has_default(arms: Seq<MatchArm>) -> bool {
    exists|i: int|
        0 <= i < arms.len() && (#[trigger] arms[i]).guards@.len() == 0 && has_catch_all(
            *arms[i].pattern,
        )
}

/// The empty values that no arm covers.
pub open spec fn missing_empty(arms: Seq<MatchArm>, values: Seq<EmptyValue>) -> Seq<EmptyValue>
    decreases values.len(),
{
    if values.len() == 0 {
        Seq::empty()
    } else {
        let earlier = missing_empty(arms, values.drop_last());
        if covers_empty(arms, values.last()) {
            earlier
        } else {
            earlier.push(values.last())
        }
    }
}

/// The tags that no arm covers, each once.
pub open spec fn missing_tags(arms: Seq<MatchArm>, entries: Seq<SpecRowEntry>) -> Seq<Seq<char>>
    decreases entries.len(),
{
    if entries.len() == 0 {
        Seq::empty()
    } else {
        let earlier = missing_tags(arms, entries.drop_last());
        match entries.last() {
            SpecRowEntry::Tag { name, .. } => if covers_tag(arms, name) || earlier.contains(
                name,
            ) {
                earlier
            } else {
                earlier.push(name)
            },
            _ => earlier,
        }
    }
}

/// The literals that no arm covers, each once.
pub open spec fn missing_literals(
    arms: Seq<MatchArm>,
    entries: Seq<SpecRowEntry>,
) -> Seq<SpecLiteral>
    decreases entries.len(),
{
    if entries.len() == 0 {
        Seq::empty()
    } else {
        let earlier = missing_literals(arms, entries.drop_last());
        match entries.last() {
            SpecRowEntry::Literal { value } => if covers_literal(arms, value)
                || earlier.contains(value) {
                earlier
            } else {
                earlier.push(value)
            },
            _ => earlier,
        }
    }
}

/// The literals among some that a row does not list.
pub open spec fn unlisted(
    members: Seq<SpecLiteral>,
    literals: Seq<(SpecLiteral, Span)>,
) -> Seq<(SpecLiteral, Span)>
    decreases literals.len(),
{
    if literals.len() == 0 {
        Seq::empty()
    } else {
        let earlier = unlisted(members, literals.drop_last());
        if members.contains(literals.last().0) {
            earlier
        } else {
            earlier.push(literals.last())
        }
    }
}

/// The literals of arms that can never match, in order.
pub open spec fn unreachable_literals(
    members: Seq<SpecLiteral>,
    arms: Seq<MatchArm>,
) -> Seq<(SpecLiteral, Span)>
    decreases arms.len(),
{
    if arms.len() == 0 {
        Seq::empty()
    } else {
        unreachable_literals(members, arms.drop_last()) + unlisted(
            members,
            literals_named(or_alternatives(*arms.last().pattern)),
        )
    }
}

/// What the arms of a match leave open.
#[derive(Debug)]
pub enum MatchGap {
    Covered,
    /// The subject may hold more than is listed.
    OpenVariant,
    MissingTags(Vec<String>),
    MissingLiterals(Vec<Literal>),
}

/// What the arms of a match leave open.
pub ghost enum SpecGap {
    Covered,
    OpenVariant,
    MissingTags(Seq<Seq<char>>),
    MissingLiterals(Seq<SpecLiteral>),
}

pub open spec fn owned_literals_view(literals: Seq<Literal>) -> Seq<SpecLiteral> {
    Seq::new(literals.len(), |i: int| literals[i]@)
}

impl MatchGap {
    pub open spec fn view(&self) -> SpecGap {
        match self {
            MatchGap::Covered => SpecGap::Covered,
            MatchGap::OpenVariant => SpecGap::OpenVariant,
            MatchGap::MissingTags(tags) => SpecGap::MissingTags(texts_view(tags@)),
            MatchGap::MissingLiterals(literals) => SpecGap::MissingLiterals(
                owned_literals_view(literals@),
            ),
        }
    }
}

/// What is found about the arms of a match.
#[derive(Debug)]
pub struct MatchCoverage {
    pub missing_empty: Vec<EmptyValue>,
    /// Literals that cannot match the subject, with their places.
    pub unreachable: Vec<(Literal, Span)>,
    pub gap: MatchGap,
}

/// What is found about the arms of a match.
pub ghost struct SpecCoverage {
    pub missing_empty: Seq<EmptyValue>,
    pub unreachable: Seq<(SpecLiteral, Span)>,
    pub gap: SpecGap,
}

pub open spec fn placed_view(literals: Seq<(Literal, Span)>) -> Seq<(SpecLiteral, Span)> {
    Seq::new(literals.len(), |i: int| (literals[i].0@, literals[i].1))
}

impl MatchCoverage {
    pub open spec fn view(&self) -> SpecCoverage {
        SpecCoverage {
            missing_empty: self.missing_empty@,
            unreachable: placed_view(self.unreachable@),
            gap: self.gap@,
        }
    }
}

/// What the arms leave open of a variant.
pub open spec fn variant_gap(arms: Seq<MatchArm>, row: SpecRow) -> SpecGap {
    if !all_tags(row) && !all_literals(row) {
        SpecGap::Covered
    } else if has_default(arms) {
        SpecGap::Covered
    } else if !(row.tail is Closed) {
        SpecGap::OpenVariant
    } else if all_tags(row) {
        if missing_tags(arms, row.entries).len() == 0 {
            SpecGap::Covered
        } else {
            SpecGap::MissingTags(missing_tags(arms, row.entries))
        }
    } else if missing_literals(arms, row.entries).len() == 0 {
        SpecGap::Covered
    } else {
        SpecGap::MissingLiterals(missing_literals(arms, row.entries))
    }
}

/// What is found about the arms of a match on a subject of a normal type.
pub open spec fn coverage(arms: Seq<MatchArm>, subject: SpecType) -> SpecCoverage {
    if some_node(subject, is_deferred()) {
        SpecCoverage {
            missing_empty: Seq::empty(),
            unreachable: Seq::empty(),
            gap: SpecGap::Covered,
        }
    } else {
        let payload = peeled_payload(subject);
        SpecCoverage {
            missing_empty: missing_empty(arms, peeled_values(subject, Seq::empty())),
            unreachable: match payload {
                SpecType::Variant(row) => if !all_tags(row) && all_literals(row)
                    && row.tail is Closed {
                    unreachable_literals(literals_of(row), arms)
                } else {
                    Seq::empty()
                },
                _ => Seq::empty(),
            },
            gap: match payload {
                SpecType::Variant(row) => variant_gap(arms, row),
                _ => SpecGap::Covered,
            },
        }
    }
}

fn tag_is_covered(arms: &Vec<MatchArm>, tag: &str) -> (covered: bool)
    ensures
        covered == covers_tag(arms@, tag@),
{
    let mut index: usize = 0;
    while index < arms.len()
        invariant
            index <= arms.len(),
            forall|i: int| 0 <= i < index ==> !arm_covers_tag(#[trigger] arms@[i], tag@),
        decreases arms.len() - index,
    {
        let arm = &arms[index];
        if arm.guards.len() == 0 {
            let tags = arm_covered_tags(&arm.pattern);
            let ghost all = names_of_refs(tags@);
            let mut position: usize = 0;
            while position < tags.len()
                invariant
                    position <= tags.len(),
                    index < arms.len(),
                    *arm == arms@[index as int],
                    arm.guards@.len() == 0,
                    all == names_of_refs(tags@),
                    all == tags_named(or_alternatives(*arm.pattern)),
                    forall|i: int| 0 <= i < position ==> all[i] != tag@,
                decreases tags.len() - position,
            {
                if same_text(tags[position], tag) {
                    assert(all[position as int] == tag@);
                    assert(arm_covers_tag(arms@[index as int], tag@));
                    return true;
                }
                position += 1;
            }
        }
        index += 1;
    }
    false
}

fn literal_is_covered(arms: &Vec<MatchArm>, literal: &Literal) -> (covered: bool)
    ensures
        covered == covers_literal(arms@, literal@),
{
    let mut index: usize = 0;
    while index < arms.len()
        invariant
            index <= arms.len(),
            forall|i: int| 0 <= i < index ==> !arm_covers_literal(#[trigger] arms@[i], literal@),
        decreases arms.len() - index,
    {
        let arm = &arms[index];
        if arm.guards.len() == 0 {
            let literals = arm_covered_literals(&arm.pattern);
            let ghost all = placed_literals(literals@);
            let mut position: usize = 0;
            while position < literals.len()
                invariant
                    position <= literals.len(),
                    index < arms.len(),
                    *arm == arms@[index as int],
                    arm.guards@.len() == 0,
                    all == placed_literals(literals@),
                    all == literals_named(or_alternatives(*arm.pattern)),
                    forall|i: int| 0 <= i < position ==> (#[trigger] all[i]).0 != literal@,
                decreases literals.len() - position,
            {
                if *literals[position].0 == *literal {
                    assert(all[position as int].0 == literal@);
                    assert(arm_covers_literal(arms@[index as int], literal@));
                    return true;
                }
                position += 1;
            }
        }
        index += 1;
    }
    false
}

fn default_is_given(arms: &Vec<MatchArm>) -> (given: bool)
    ensures
        given == has_default(arms@),
{
    let mut index: usize = 0;
    while index < arms.len()
        invariant
            index <= arms.len(),
            forall|i: int|
                0 <= i < index ==> !((#[trigger] arms@[i]).guards@.len() == 0 && has_catch_all(
                    *arms@[i].pattern,
                )),
        decreases arms.len() - index,
    {
        if arms[index].guards.len() == 0 && pattern_has_catch_all_alternative(
            &arms[index].pattern,
        ) {
            return true;
        }
        index += 1;
    }
    false
}

fn find_missing_empty(arms: &Vec<MatchArm>, values: &Vec<EmptyValue>) -> (missing: Vec<EmptyValue>)
    ensures
        missing@ == missing_empty(arms@, values@),
{
    let ghost all = values@;
    let mut missing: Vec<EmptyValue> = Vec::new();
    let mut index: usize = 0;
    while index < values.len()
        invariant
            index <= values.len(),
            all == values@,
            missing@ == missing_empty(arms@, all.take(index as int)),
        decreases values.len() - index,
    {
        proof {
            let longer = all.take(index + 1);
            assert(longer.drop_last() =~= all.take(index as int));
            assert(longer.last() == all[index as int]);
        }
        if !empty_value_is_covered(arms, values[index]) {
            missing.push(values[index]);
        }
        index += 1;
    }
    assert(all.take(all.len() as int) =~= all);
    missing
}

fn find_missing_tags(arms: &Vec<MatchArm>, row: &Row) -> (missing: Vec<String>)
    ensures
        texts_view(missing@) == missing_tags(arms@, row@.entries),
{
    let ghost all = row@.entries;
    let mut missing: Vec<String> = Vec::new();
    let mut index: usize = 0;
    assert(texts_view(missing@) =~= Seq::empty());
    while index < row.entries.len()
        invariant
            index <= row.entries.len(),
            all == row@.entries,
            all.len() == row.entries.len(),
            texts_view(missing@) == missing_tags(arms@, all.take(index as int)),
        decreases row.entries.len() - index,
    {
        proof {
            let longer = all.take(index + 1);
            assert(longer.drop_last() =~= all.take(index as int));
            assert(longer.last() == row.entries@[index as int]@);
        }
        if let RowEntry::Tag { name, .. } = &row.entries[index] {
            if !tag_is_covered(arms, name.as_str()) && !texts_contain(&missing, name.as_str()) {
                let ghost earlier = texts_view(missing@);
                missing.push(name.clone());
                assert(texts_view(missing@) =~= earlier.push(name@));
            }
        }
        index += 1;
    }
    assert(all.take(all.len() as int) =~= all);
    missing
}

fn holds_literal(literals: &Vec<Literal>, literal: &Literal) -> (found: bool)
    ensures
        found == owned_literals_view(literals@).contains(literal@),
{
    let ghost all = owned_literals_view(literals@);
    let mut index: usize = 0;
    while index < literals.len()
        invariant
            index <= literals.len(),
            all == owned_literals_view(literals@),
            forall|i: int| 0 <= i < index ==> all[i] != literal@,
        decreases literals.len() - index,
    {
        if literals[index] == *literal {
            assert(all[index as int] == literal@);
            return true;
        }
        index += 1;
    }
    false
}

fn find_missing_literals(arms: &Vec<MatchArm>, row: &Row) -> (missing: Vec<Literal>)
    ensures
        owned_literals_view(missing@) == missing_literals(arms@, row@.entries),
{
    let ghost all = row@.entries;
    let mut missing: Vec<Literal> = Vec::new();
    let mut index: usize = 0;
    assert(owned_literals_view(missing@) =~= Seq::empty());
    while index < row.entries.len()
        invariant
            index <= row.entries.len(),
            all == row@.entries,
            all.len() == row.entries.len(),
            owned_literals_view(missing@) == missing_literals(arms@, all.take(index as int)),
        decreases row.entries.len() - index,
    {
        proof {
            let longer = all.take(index + 1);
            assert(longer.drop_last() =~= all.take(index as int));
            assert(longer.last() == row.entries@[index as int]@);
        }
        if let RowEntry::Literal { value } = &row.entries[index] {
            if !literal_is_covered(arms, value) && !holds_literal(&missing, value) {
                let ghost earlier = owned_literals_view(missing@);
                missing.push(value.clone());
                assert(owned_literals_view(missing@) =~= earlier.push(value@));
            }
        }
        index += 1;
    }
    assert(all.take(all.len() as int) =~= all);
    missing
}

fn row_lists(row: &Row, literal: &Literal) -> (found: bool)
    requires
        all_literals(row@),
    ensures
        found == literals_of(row@).contains(literal@),
{
    let ghost all = literals_of(row@);
    assert(row@.entries.len() == row.entries.len());
    let mut index: usize = 0;
    while index < row.entries.len()
        invariant
            index <= row.entries.len(),
            all == literals_of(row@),
            row@.entries.len() == row.entries.len(),
            all_literals(row@),
            forall|i: int| 0 <= i < index ==> all[i] != literal@,
        decreases row.entries.len() - index,
    {
        assert(row@.entries[index as int] == row.entries@[index as int]@);
        assert(all[index as int] == row@.entries[index as int]->Literal_value);
        if let RowEntry::Literal { value } = &row.entries[index] {
            if *value == *literal {
                assert(all[index as int] == literal@);
                return true;
            }
        }
        index += 1;
    }
    false
}

/// The literals of arms that can never match a row of literals, with their
/// places.
pub fn unreachable_literal_match_arms(row: &Row, arms: &Vec<MatchArm>) -> (unreachable: Vec<
    (Literal, Span),
>)
    requires
        all_literals(row@),
    ensures
        placed_view(unreachable@) == unreachable_literals(literals_of(row@), arms@),
{
    let ghost members = literals_of(row@);
    let mut unreachable: Vec<(Literal, Span)> = Vec::new();
    let mut index: usize = 0;
    assert(placed_view(unreachable@) =~= Seq::empty());
    while index < arms.len()
        invariant
            index <= arms.len(),
            all_literals(row@),
            members == literals_of(row@),
            placed_view(unreachable@) == unreachable_literals(members, arms@.take(index as int)),
        decreases arms.len() - index,
    {
        let literals = arm_covered_literals(&arms[index].pattern);
        let ghost all = placed_literals(literals@);
        let ghost before = placed_view(unreachable@);
        let mut position: usize = 0;
        assert(placed_view(unreachable@) =~= before + unlisted(members, all.take(0)));
        while position < literals.len()
            invariant
                position <= literals.len(),
                all_literals(row@),
                members == literals_of(row@),
                all == placed_literals(literals@),
                placed_view(unreachable@) == before + unlisted(members, all.take(position as int)),
            decreases literals.len() - position,
        {
            proof {
                let longer = all.take(position + 1);
                assert(longer.drop_last() =~= all.take(position as int));
                assert(longer.last() == (literals@[position as int].0@, literals@[position as int].1));
            }
            let ghost earlier = placed_view(unreachable@);
            if !row_lists(row, literals[position].0) {
                unreachable.push((literals[position].0.clone(), literals[position].1));
                assert(placed_view(unreachable@) =~= earlier.push(all[position as int]));
            }
            assert(placed_view(unreachable@) =~= before + unlisted(
                members,
                all.take(position + 1),
            ));
            position += 1;
        }
        assert(all.take(all.len() as int) =~= all);
        proof {
            let longer = arms@.take(index + 1);
            assert(longer.drop_last() =~= arms@.take(index as int));
            assert(longer.last() == arms@[index as int]);
        }
        index += 1;
    }
    assert(arms@.take(arms@.len() as int) =~= arms@);
    unreachable
}

fn lists_only(row: &Row, kind: VariantEntryKind) -> (only: bool)
    ensures
        only == (match kind {
            VariantEntryKind::Tag => all_tags(row@),
            VariantEntryKind::Literal => all_literals(row@),
        }),
{
    assert(row@.entries.len() == row.entries.len());
    let mut index: usize = 0;
    while index < row.entries.len()
        invariant
            index <= row.entries.len(),
            row@.entries.len() == row.entries.len(),
            forall|i: int| 0 <= i < index ==> entry_kind(#[trigger] row@.entries[i]) == Some(kind),
        decreases row.entries.len() - index,
    {
        assert(row@.entries[index as int] == row.entries@[index as int]@);
        match row_entry_variant_kind(&row.entries[index]) {
            Some(found) => {
                if found != kind {
                    return false;
                }
            },
            None => {
                return false;
            },
        }
        index += 1;
    }
    true
}

fn find_variant_gap(arms: &Vec<MatchArm>, row: &Row) -> (gap: MatchGap)
    ensures
        gap@ == variant_gap(arms@, row@),
{
    assert(row@.tail == row.tail);
    let tags = lists_only(row, VariantEntryKind::Tag);
    if !tags && !lists_only(row, VariantEntryKind::Literal) {
        return MatchGap::Covered;
    }
    if default_is_given(arms) {
        return MatchGap::Covered;
    }
    if !matches!(row.tail, RowTail::Closed) {
        return MatchGap::OpenVariant;
    }
    if tags {
        let missing = find_missing_tags(arms, row);
        assert(texts_view(missing@).len() == missing.len());
        if missing.len() == 0 {
            MatchGap::Covered
        } else {
            MatchGap::MissingTags(missing)
        }
    } else {
        let missing = find_missing_literals(arms, row);
        assert(owned_literals_view(missing@).len() == missing.len());
        if missing.len() == 0 {
            MatchGap::Covered
        } else {
            MatchGap::MissingLiterals(missing)
        }
    }
}

/// Find what the arms of a match leave open.
pub fn check_match_exhaustiveness(
    arms: &Vec<MatchArm>,
    subject_type: &Type,
    definitions: &StringMap<Type>,
) -> (found: MatchCoverage)
    ensures
        found@ == coverage(arms@, normal_form(subject_type@, type_map_view(definitions@))),
{
    let subject = normalize(subject_type, definitions);
    let mut found = MatchCoverage {
        missing_empty: Vec::new(),
        unreachable: Vec::new(),
        gap: MatchGap::Covered,
    };
    assert(placed_view(found.unreachable@) =~= Seq::empty());
    if type_contains_deferred(&subject) {
        assert(found@.missing_empty =~= Seq::empty());
        return found;
    }
    let (values, payload) = peel_empty_values(&subject);
    found.missing_empty = find_missing_empty(arms, &values);
    if let Type::Variant(row) = payload {
        assert(row@.tail == row.tail);
        if !lists_only(row, VariantEntryKind::Tag) && lists_only(row, VariantEntryKind::Literal)
            && matches!(row.tail, RowTail::Closed) {
            found.unreachable = unreachable_literal_match_arms(row, arms);
        }
        found.gap = find_variant_gap(arms, row);
    }
    found
}

proof fn missing_tags_are_all(arms: Seq<MatchArm>, entries: Seq<SpecRowEntry>, index: int)
    requires
        0 <= index < entries.len(),
        entries[index] is Tag,
    ensures
        covers_tag(arms, entries[index]->Tag_name) || missing_tags(arms, entries).contains(
            entries[index]->Tag_name,
        ),
    decreases entries.len(),
{
    let shorter = entries.drop_last();
    let earlier = missing_tags(arms, shorter);
    let name = entries[index]->Tag_name;
    if index < shorter.len() {
        missing_tags_are_all(arms, shorter, index);
        if earlier.contains(name) && missing_tags(arms, entries) != earlier {
            let position = choose|i: int| 0 <= i < earlier.len() && earlier[i] == name;
            assert(missing_tags(arms, entries)[position] == name);
        }
    } else if !covers_tag(arms, name) && !earlier.contains(name) {
        let whole = missing_tags(arms, entries);
        assert(whole[whole.len() - 1] == name);
    }
}

/// A match on a closed variant of tags without a default that leaves nothing
/// open covers every tag.
pub proof fn covered_matches_name_every_tag(arms: Seq<MatchArm>, row: SpecRow, index: int)
    requires
        all_tags(row),
        row.tail is Closed,
        !has_default(arms),
        variant_gap(arms, row) is Covered,
        0 <= index < row.entries.len(),
    ensures
        covers_tag(arms, row.entries[index]->Tag_name),
{
    assert(row.entries[index] is Tag);
    missing_tags_are_all(arms, row.entries, index);
}

/// An arm without a guard that matches everything leaves nothing open.
pub proof fn defaults_cover_variants(arms: Seq<MatchArm>, row: SpecRow)
    requires
        has_default(arms),
    ensures
        variant_gap(arms, row) is Covered,
{
}

// ---------------------------------------------------------------------------
// The type of the results
// ---------------------------------------------------------------------------
/// The union of the variants that arms produce, as far as they were looked at.
#[derive(Debug)]
pub struct ArmUnion {
    pub entries: Vec<RowEntry>,
    pub open: bool,
    pub kind: Option<VariantEntryKind>,
    pub literal_kind: Option<LiteralBase>,
}

/// The union of the variants that arms produce.
pub ghost struct SpecArmUnion {
    pub entries: Seq<SpecRowEntry>,
    pub open: bool,
    pub kind: Option<VariantEntryKind>,
    pub literal_kind: Option<LiteralBase>,
}

impl ArmUnion {
    pub open spec fn view(&self) -> SpecArmUnion {
        SpecArmUnion {
            entries: entries_view(self.entries@),
            open: self.open,
            kind: self.kind,
            literal_kind: self.literal_kind,
        }
    }

    /// The union of no arms.
    pub fn new() -> (union: Self)
        ensures
            union@ == no_arms(),
    {
        let union = ArmUnion { entries: Vec::new(), open: false, kind: None, literal_kind: None };
        assert(union@.entries =~= Seq::empty());
        union
    }

    /// The type of the union.
    pub fn to_type(&self) -> (ty: Type)
        ensures
            ty@ == union_type(self@),
    {
        let tail = if self.open {
            RowTail::Open
        } else {
            RowTail::Closed
        };
        let row = Row { entries: clone_entries(&self.entries), tail };
        assert(row@.entries == entries_view(self.entries@));
        assert(row@.tail == tail);
        Type::Variant(row)
    }
}

pub open spec fn no_arms() -> SpecArmUnion {
    SpecArmUnion { entries: Seq::empty(), open: false, kind: None, literal_kind: None }
}

/// The type of a union of variants.
pub open spec fn union_type(union: SpecArmUnion) -> SpecType {
    SpecType::Variant(
        SpecRow {
            entries: union.entries,
            tail: if union.open {
                RowTail::Open
            } else {
                RowTail::Closed
            },
        },
    )
}

/// The one kind of entry that a variant has; nothing where it has fields or
/// more than one kind.
pub open spec fn row_kind(entries: Seq<SpecRowEntry>) -> Option<Option<VariantEntryKind>> {
    if entries.len() == 0 {
        Some(None)
    } else if forall|i: int|
        0 <= i < entries.len() ==> entry_kind(#[trigger] entries[i]) == entry_kind(entries[0])
            && entry_kind(entries[0]) is Some {
        Some(entry_kind(entries[0]))
    } else {
        None
    }
}

/// The union after the first entries of a variant, and the payloads that must
/// unify; nothing where the payloads of a tag differ in number.
pub open spec fn united(
    entries: Seq<SpecRowEntry>,
    incoming: Seq<SpecRowEntry>,
    count: nat,
) -> Option<(Seq<SpecRowEntry>, Seq<(SpecType, SpecType)>)>
    decreases count,
{
    if count == 0 || count > incoming.len() {
        Some((entries, Seq::empty()))
    } else {
        match united(entries, incoming, (count - 1) as nat) {
            None => None,
            Some((known, goals)) => match incoming[count - 1] {
                SpecRowEntry::Tag { name, payload } => match label_position(known, name, 0) {
                    None => Some((known.push(incoming[count - 1]), goals)),
                    Some(position) => match known[position] {
                        SpecRowEntry::Tag { payload: existing, .. } => if existing.len()
                            != payload.len() {
                            None
                        } else {
                            Some((known, goals + zipped(existing, payload)))
                        },
                        _ => None,
                    },
                },
                SpecRowEntry::Literal { value } => match label_position(
                    known,
                    literal_text(value),
                    0,
                ) {
                    None => Some((known.push(incoming[count - 1]), goals)),
                    Some(_) => Some((known, goals)),
                },
                SpecRowEntry::Field { .. } => None,
            },
        }
    }
}

/// The union with one more arm, and the payloads that must unify; nothing where
/// the variants do not go together.
pub open spec fn with_arm(union: SpecArmUnion, row: SpecRow) -> Option<
    (SpecArmUnion, Seq<(SpecType, SpecType)>),
> {
    match row_kind(row.entries) {
        None => None,
        Some(arm_kind) => if union.kind is Some && arm_kind is Some && union.kind != arm_kind {
            None
        } else if arm_kind == Some(VariantEntryKind::Literal) && (row_base(row) is None || (
        union.literal_kind is Some && union.literal_kind != row_base(row))) {
            None
        } else {
            match united(union.entries, row.entries, row.entries.len()) {
                None => None,
                Some((entries, goals)) => Some(
                    (
                        SpecArmUnion {
                            entries,
                            open: union.open || !(row.tail is Closed),
                            kind: if union.kind is Some {
                                union.kind
                            } else {
                                arm_kind
                            },
                            literal_kind: if arm_kind == Some(VariantEntryKind::Literal) {
                                row_base(row)
                            } else {
                                union.literal_kind
                            },
                        },
                        goals,
                    ),
                ),
            }
        },
    }
}

fn find_row_kind(row: &Row) -> (kind: Option<Option<VariantEntryKind>>)
    ensures
        kind == row_kind(row@.entries),
{
    assert(row@.entries.len() == row.entries.len());
    let mut kind: Option<VariantEntryKind> = None;
    let mut index: usize = 0;
    while index < row.entries.len()
        invariant
            index <= row.entries.len(),
            row@.entries.len() == row.entries.len(),
            index == 0 ==> kind is None,
            index > 0 ==> kind is Some && kind == entry_kind(row@.entries[0]),
            forall|i: int| 0 <= i < index ==> entry_kind(#[trigger] row@.entries[i]) == kind,
        decreases row.entries.len() - index,
    {
        assert(row@.entries[index as int] == row.entries@[index as int]@);
        let found = row_entry_variant_kind(&row.entries[index]);
        match found {
            None => {
                assert(entry_kind(row@.entries[index as int]) is None);
                return None;
            },
            Some(found_kind) => {
                if let Some(existing) = kind {
                    if existing != found_kind {
                        assert(entry_kind(row@.entries[index as int]) != entry_kind(
                            row@.entries[0],
                        ));
                        return None;
                    }
                }
                kind = Some(found_kind);
            },
        }
        index += 1;
    }
    Some(kind)
}

fn append_goals(goals: &mut Vec<(Type, Type)>, left: &Vec<Type>, right: &Vec<Type>)
    requires
        left.len() == right.len(),
    ensures
        pairs_view(final(goals)@) == pairs_view(old(goals)@) + zipped(
            types_view(left@),
            types_view(right@),
        ),
{
    let ghost before = pairs_view(goals@);
    let ghost all = zipped(types_view(left@), types_view(right@));
    let mut index: usize = 0;
    assert(pairs_view(goals@) =~= before + all.take(0));
    while index < left.len()
        invariant
            index <= left.len(),
            left.len() == right.len(),
            all == zipped(types_view(left@), types_view(right@)),
            before == pairs_view(old(goals)@),
            pairs_view(goals@) == before + all.take(index as int),
        decreases left.len() - index,
    {
        let ghost earlier = pairs_view(goals@);
        assert(types_view(left@)[index as int] == left@[index as int]@);
        assert(types_view(right@)[index as int] == right@[index as int]@);
        goals.push((left[index].clone(), right[index].clone()));
        assert(pairs_view(goals@) =~= earlier.push(all[index as int]));
        assert(pairs_view(goals@) =~= before + all.take(index + 1));
        index += 1;
    }
    assert(all.take(left.len() as int) =~= all);
}

proof fn conflicts_stay(
    entries: Seq<SpecRowEntry>,
    incoming: Seq<SpecRowEntry>,
    few: nat,
    many: nat,
)
    requires
        few <= many <= incoming.len(),
        united(entries, incoming, few) is None,
    ensures
        united(entries, incoming, many) is None,
    decreases many,
{
    if few < many {
        conflicts_stay(entries, incoming, few, (many - 1) as nat);
    }
}

/// Add the variant of one more arm to the union. The result lists the payloads
/// that must unify; there is none where the variants do not go together.
pub fn union_match_variant_arm_body_types(union: ArmUnion, row: &Row) -> (outcome: Option<
    (ArmUnion, Vec<(Type, Type)>),
>)
    ensures
        match outcome {
            Some((with, goals)) => with_arm(union@, row@) == Some((with@, pairs_view(goals@))),
            None => with_arm(union@, row@) is None,
        },
{
    assert(row@.entries.len() == row.entries.len());
    assert(row@.tail == row.tail);
    let arm_kind = match find_row_kind(row) {
        Some(kind) => kind,
        None => {
            return None;
        },
    };
    if let (Some(existing), Some(incoming)) = (union.kind, arm_kind) {
        if existing != incoming {
            return None;
        }
    }
    let literal = matches!(arm_kind, Some(VariantEntryKind::Literal));
    let mut literal_kind = union.literal_kind;
    if literal {
        match literal_variant_base(row) {
            None => {
                return None;
            },
            Some(incoming) => {
                if let Some(existing) = union.literal_kind {
                    if existing != incoming {
                        return None;
                    }
                }
                literal_kind = Some(incoming);
            },
        }
    }
    let kind = if union.kind.is_some() {
        union.kind
    } else {
        arm_kind
    };
    let open = union.open || !matches!(row.tail, RowTail::Closed);
    let ghost start = union@.entries;
    let ghost incoming = row@.entries;
    let mut entries = union.entries;
    let mut goals: Vec<(Type, Type)> = Vec::new();
    let mut index: usize = 0;
    assert(pairs_view(goals@) =~= Seq::empty());
    while index < row.entries.len()
        invariant
            index <= row.entries.len(),
            incoming == row@.entries,
            incoming.len() == row.entries.len(),
            united(start, incoming, incoming.len()) is None ==> with_arm(union@, row@) is None,
            united(start, incoming, index as nat) == Some(
                (entries_view(entries@), pairs_view(goals@)),
            ),
        decreases row.entries.len() - index,
    {
        assert(incoming[index as int] == row.entries@[index as int]@);
        let ghost known = entries_view(entries@);
        let ghost earlier = pairs_view(goals@);
        match &row.entries[index] {
            RowEntry::Tag { name, payload } => {
                assert(types_view(payload@).len() == payload.len());
                match row_entry_index(&entries, name.as_str()) {
                    None => {
                        entries.push(row.entries[index].clone());
                        assert(entries_view(entries@) =~= known.push(incoming[index as int]));
                    },
                    Some(position) => {
                        assert(known[position as int] == entries@[position as int]@);
                        match &entries[position] {
                            RowEntry::Tag { payload: existing, .. } => {
                                assert(types_view(existing@).len() == existing.len());
                                if existing.len() != payload.len() {
                                    proof {
                                        conflicts_stay(
                                            start,
                                            incoming,
                                            (index + 1) as nat,
                                            incoming.len(),
                                        );
                                    }
                                    return None;
                                }
                                append_goals(&mut goals, existing, payload);
                            },
                            _ => {
                                proof {
                                    conflicts_stay(
                                        start,
                                        incoming,
                                        (index + 1) as nat,
                                        incoming.len(),
                                    );
                                }
                                return None;
                            },
                        }
                    },
                }
            },
            RowEntry::Literal { value } => {
                if row_entry_index(&entries, render_literal_value(value)).is_none() {
                    entries.push(row.entries[index].clone());
                    assert(entries_view(entries@) =~= known.push(incoming[index as int]));
                }
            },
            RowEntry::Field { .. } => {
                proof {
                    conflicts_stay(start, incoming, (index + 1) as nat, incoming.len());
                }
                return None;
            },
        }
        index += 1;
    }
    Some((ArmUnion { entries, open, kind, literal_kind }, goals))
}

} // verus!
