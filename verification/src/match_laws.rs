//! What checking that matches cover their subjects is for.
use crate::matches::{
    coverage, covers_empty, covers_literal, covers_tag, has_default, missing_empty,
    missing_literals, missing_tags, unlisted, unreachable_literals, variant_gap, SpecGap,
};
use crate::patterns::{
    arm_covers_empty, empty_of, empty_values_of, has_catch_all, has_underscore, literal_named,
    literals_named, or_alternatives, tag_named, tags_named,
};
use crate::rows::{all_literals, all_tags, EmptyValue};
use crate::span::Span;
use crate::syntax::{ungrouped, Expr, ExprKind, MatchArm};
use crate::type_ops::{is_deferred, some_node};
use crate::types::{SpecLiteral, SpecRow, SpecRowEntry, SpecType};
use vstd::prelude::*;

verus! {

// ---------------------------------------------------------------------------
// Alternatives
// ---------------------------------------------------------------------------
/// Whether a pattern joins two others by `|`, perhaps in groups.
pub open spec fn joins(pattern: Expr) -> bool
    decreases pattern,
{
    match pattern.kind {
        ExprKind::Group(inner) => joins(*inner),
        ExprKind::Binary { operator, .. } => operator@ == "|"@,
        _ => false,
    }
}

/// Whether a pattern is an alternative of another one: one of those that it joins, or itself
/// where it joins none.
pub open spec fn is_alternative(pattern: Expr, alternative: Expr) -> bool
    decreases pattern,
{
    match pattern.kind {
        ExprKind::Group(inner) => if joins(*inner) {
            is_alternative(*inner, alternative)
        } else {
            pattern == alternative
        },
        ExprKind::Binary { left, operator, right, .. } => if operator@ == "|"@ {
            is_alternative(*left, alternative) || is_alternative(*right, alternative)
        } else {
            pattern == alternative
        },
        _ => pattern == alternative,
    }
}

/// The alternatives of a pattern are those that it joins, of which there is at least one.
pub proof fn alternatives_are_those_joined(pattern: Expr, alternative: Expr)
    ensures
        or_alternatives(pattern).contains(alternative) <==> is_alternative(pattern, alternative),
        or_alternatives(pattern).len() > 0,
    decreases pattern,
{
    joining_is_union(pattern);
    match pattern.kind {
        ExprKind::Group(inner) => {
            joining_is_union(*inner);
            if joins(*inner) {
                alternatives_are_those_joined(*inner, alternative);
            } else {
                single_item(pattern, alternative);
            }
        },
        ExprKind::Binary { left, operator, right, .. } => {
            if operator@ == "|"@ {
                alternatives_are_those_joined(*left, alternative);
                alternatives_are_those_joined(*right, alternative);
                let first = or_alternatives(*left);
                let second = or_alternatives(*right);
                let both = first + second;
                assert(or_alternatives(pattern) == both);
                if first.contains(alternative) {
                    let i = choose|i: int| 0 <= i < first.len() && first[i] == alternative;
                    assert(both[i] == alternative);
                }
                if second.contains(alternative) {
                    let i = choose|i: int| 0 <= i < second.len() && second[i] == alternative;
                    assert(both[first.len() + i] == alternative);
                }
                if both.contains(alternative) {
                    let i = choose|i: int| 0 <= i < both.len() && both[i] == alternative;
                    if i < first.len() {
                        assert(first[i] == alternative);
                    } else {
                        assert(second[i - first.len()] == alternative);
                    }
                }
            } else {
                single_item(pattern, alternative);
            }
        },
        _ => {
            single_item(pattern, alternative);
        },
    }
}

proof fn single_item(pattern: Expr, alternative: Expr)
    ensures
        seq![pattern].contains(alternative) <==> pattern == alternative,
{
    if pattern == alternative {
        assert(seq![pattern][0] == alternative);
    }
}

proof fn joining_is_union(pattern: Expr)
    ensures
        joins(pattern) == crate::syntax::is_union(pattern),
    decreases pattern,
{
    if let ExprKind::Group(inner) = pattern.kind {
        joining_is_union(*inner);
    }
}

/// Whether a pattern is a tag, alone or with patterns for its payload.
pub open spec fn is_tag_pattern(pattern: Expr, tag: Seq<char>) -> bool {
    let inner = ungrouped(pattern).kind;
    ||| inner is Tag && inner->Tag_0@ == tag
    ||| inner is Call && inner->Call_callee.kind is Tag && inner->Call_callee.kind->Tag_0@ == tag
}

/// Whether an arm without guards has an alternative that is a tag.
pub open spec fn arm_takes_tag(arm: MatchArm, tag: Seq<char>) -> bool {
    arm.guards@.len() == 0 && exists|alternative: Expr|
        #![trigger is_tag_pattern(alternative, tag)]
        is_alternative(*arm.pattern, alternative) && is_tag_pattern(alternative, tag)
}

/// Whether an arm without guards has an alternative that is a literal.
pub open spec fn arm_takes_literal(arm: MatchArm, literal: SpecLiteral) -> bool {
    arm.guards@.len() == 0 && exists|alternative: Expr|
        #![trigger is_literal_pattern(alternative, literal)]
        is_alternative(*arm.pattern, alternative) && is_literal_pattern(alternative, literal)
}

/// Whether a pattern is a literal that is no pattern for texts.
pub open spec fn is_literal_pattern(pattern: Expr, literal: SpecLiteral) -> bool {
    let inner = ungrouped(pattern).kind;
    inner is Literal && !(inner->Literal_0 is Regex) && inner->Literal_0@ == literal
}

/// Whether an arm without guards has an alternative that is a name, which matches everything.
pub open spec fn arm_takes_everything(arm: MatchArm) -> bool {
    arm.guards@.len() == 0 && exists|alternative: Expr|
        #![trigger is_name_pattern(alternative)]
        is_alternative(*arm.pattern, alternative) && is_name_pattern(alternative)
}

pub open spec fn is_name_pattern(pattern: Expr) -> bool {
    ungrouped(pattern).kind is Name
}

/// Whether an arm without guards has an alternative that is an empty value or the placeholder.
pub open spec fn arm_takes_empty(arm: MatchArm, value: EmptyValue) -> bool {
    arm.guards@.len() == 0 && exists|alternative: Expr|
        #![trigger is_empty_pattern(alternative, value)]
        is_alternative(*arm.pattern, alternative) && is_empty_pattern(alternative, value)
}

pub open spec fn is_empty_pattern(pattern: Expr, value: EmptyValue) -> bool {
    let inner = ungrouped(pattern).kind;
    ||| inner is Undefined && value is Undefined
    ||| inner is Null && value is Null
    ||| inner is Name && inner->Name_0@ == "_"@
}

// ---------------------------------------------------------------------------
// What arms take
// ---------------------------------------------------------------------------
proof fn tags_are_named(alternatives: Seq<Expr>, tag: Seq<char>)
    ensures
        tags_named(alternatives).contains(tag) <==> exists|i: int|
            0 <= i < alternatives.len() && is_tag_pattern(#[trigger] alternatives[i], tag),
    decreases alternatives.len(),
{
    if alternatives.len() > 0 {
        let others = alternatives.drop_last();
        let last = alternatives[alternatives.len() - 1];
        let earlier = tags_named(others);
        let all = tags_named(alternatives);
        tags_are_named(others, tag);
        assert(tag_named(last) == Some(tag) <==> is_tag_pattern(last, tag));
        if earlier.contains(tag) {
            let i = choose|i: int| 0 <= i < earlier.len() && earlier[i] == tag;
            assert(all[i] == tag);
            let k = choose|k: int| 0 <= k < others.len() && is_tag_pattern(#[trigger] others[k], tag);
            assert(alternatives[k] == others[k]);
        }
        if is_tag_pattern(last, tag) {
            assert(all[all.len() - 1] == tag);
            assert(is_tag_pattern(alternatives[alternatives.len() - 1], tag));
        }
        if all.contains(tag) && !earlier.contains(tag) {
            let i = choose|i: int| 0 <= i < all.len() && all[i] == tag;
            if i < earlier.len() {
                assert(earlier[i] == tag);
            }
        }
        if exists|k: int| 0 <= k < alternatives.len() && is_tag_pattern(
            #[trigger] alternatives[k],
            tag,
        ) {
            let k = choose|k: int|
                0 <= k < alternatives.len() && is_tag_pattern(#[trigger] alternatives[k], tag);
            if k < others.len() {
                assert(is_tag_pattern(others[k], tag));
            }
        }
    }
}

proof fn literals_are_named(alternatives: Seq<Expr>, literal: SpecLiteral)
    ensures
        crate::matches::places_literal(literals_named(alternatives), literal) <==> exists|i: int|
            0 <= i < alternatives.len() && is_literal_pattern(
                #[trigger] alternatives[i],
                literal,
            ),
    decreases alternatives.len(),
{
    if alternatives.len() > 0 {
        let others = alternatives.drop_last();
        let last = alternatives[alternatives.len() - 1];
        let earlier = literals_named(others);
        let all = literals_named(alternatives);
        literals_are_named(others, literal);
        if crate::matches::places_literal(earlier, literal) {
            let i = choose|i: int| 0 <= i < earlier.len() && (#[trigger] earlier[i]).0 == literal;
            assert(all[i].0 == literal);
            let k = choose|k: int|
                0 <= k < others.len() && is_literal_pattern(#[trigger] others[k], literal);
            assert(alternatives[k] == others[k]);
        }
        if is_literal_pattern(last, literal) {
            assert(all[all.len() - 1].0 == literal);
            assert(is_literal_pattern(alternatives[alternatives.len() - 1], literal));
        }
        if crate::matches::places_literal(all, literal) && !crate::matches::places_literal(
            earlier,
            literal,
        ) {
            let i = choose|i: int| 0 <= i < all.len() && (#[trigger] all[i]).0 == literal;
            if i < earlier.len() {
                assert(earlier[i].0 == literal);
            }
        }
        if exists|k: int| 0 <= k < alternatives.len() && is_literal_pattern(
            #[trigger] alternatives[k],
            literal,
        ) {
            let k = choose|k: int|
                0 <= k < alternatives.len() && is_literal_pattern(
                    #[trigger] alternatives[k],
                    literal,
                );
            if k < others.len() {
                assert(is_literal_pattern(others[k], literal));
            }
        }
    }
}

proof fn empties_are_named(alternatives: Seq<Expr>, value: EmptyValue)
    ensures
        empty_values_of(alternatives).contains(value) <==> exists|i: int|
            0 <= i < alternatives.len() && empty_of(#[trigger] alternatives[i]) == Some(value),
    decreases alternatives.len(),
{
    if alternatives.len() > 0 {
        let others = alternatives.drop_last();
        let last = alternatives[alternatives.len() - 1];
        let earlier = empty_values_of(others);
        let all = empty_values_of(alternatives);
        empties_are_named(others, value);
        if earlier.contains(value) {
            let i = choose|i: int| 0 <= i < earlier.len() && earlier[i] == value;
            assert(all[i] == value);
            let k = choose|k: int| 0 <= k < others.len() && empty_of(#[trigger] others[k]) == Some(value);
            assert(alternatives[k] == others[k]);
        }
        if empty_of(last) == Some(value) {
            assert(all[all.len() - 1] == value);
            assert(empty_of(alternatives[alternatives.len() - 1]) == Some(value));
        }
        if all.contains(value) && !earlier.contains(value) {
            let i = choose|i: int| 0 <= i < all.len() && all[i] == value;
            if i < earlier.len() {
                assert(earlier[i] == value);
            }
        }
        if exists|k: int| 0 <= k < alternatives.len() && empty_of(#[trigger] alternatives[k])
            == Some(value) {
            let k = choose|k: int|
                0 <= k < alternatives.len() && empty_of(#[trigger] alternatives[k]) == Some(value);
            if k < others.len() {
                assert(empty_of(others[k]) == Some(value));
            }
        }
    }
}

proof fn arms_take_what_they_cover(
    arm: MatchArm,
    tag: Seq<char>,
    literal: SpecLiteral,
    value: EmptyValue,
)
    ensures
        crate::matches::arm_covers_tag(arm, tag) <==> arm_takes_tag(arm, tag),
        crate::matches::arm_covers_literal(arm, literal) <==> arm_takes_literal(arm, literal),
        (arm.guards@.len() == 0 && has_catch_all(*arm.pattern)) <==> arm_takes_everything(arm),
        arm_covers_empty(arm, value) <==> arm_takes_empty(arm, value),
{
    let pattern = *arm.pattern;
    let all = or_alternatives(pattern);
    assert forall|alternative: Expr| #[trigger] is_alternative(pattern, alternative)
        == all.contains(alternative) by {
        alternatives_are_those_joined(pattern, alternative);
    }
    assert forall|i: int| 0 <= i < all.len() implies is_alternative(pattern, #[trigger] all[i]) by {
        assert(all.contains(all[i]));
    }
    tags_are_named(all, tag);
    literals_are_named(all, literal);
    empties_are_named(all, value);
    if arm_takes_tag(arm, tag) {
        let a = choose|a: Expr|
            #![trigger is_tag_pattern(a, tag)]
            is_alternative(pattern, a) && is_tag_pattern(a, tag);
        let i = choose|i: int| 0 <= i < all.len() && all[i] == a;
        assert(is_tag_pattern(all[i], tag));
    }
    if arm_takes_literal(arm, literal) {
        let a = choose|a: Expr|
            #![trigger is_literal_pattern(a, literal)]
            is_alternative(pattern, a) && is_literal_pattern(a, literal);
        let i = choose|i: int| 0 <= i < all.len() && all[i] == a;
        assert(is_literal_pattern(all[i], literal));
    }
    if arm_takes_everything(arm) {
        let a = choose|a: Expr|
            #![trigger is_name_pattern(a)]
            is_alternative(pattern, a) && is_name_pattern(a);
        let i = choose|i: int| 0 <= i < all.len() && all[i] == a;
        assert(ungrouped(all[i]).kind is Name);
    }
    if has_catch_all(pattern) {
        let i = choose|i: int| 0 <= i < all.len() && ungrouped(#[trigger] all[i]).kind is Name;
        assert(is_name_pattern(all[i]));
    }
    if arm_takes_empty(arm, value) {
        let a = choose|a: Expr|
            #![trigger is_empty_pattern(a, value)]
            is_alternative(pattern, a) && is_empty_pattern(a, value);
        let i = choose|i: int| 0 <= i < all.len() && all[i] == a;
        if ungrouped(a).kind is Name {
            assert(crate::patterns::is_underscore(all[i]));
        } else {
            assert(empty_of(all[i]) == Some(value));
        }
    }
    if empty_values_of(all).contains(value) {
        let i = choose|i: int| 0 <= i < all.len() && empty_of(#[trigger] all[i]) == Some(value);
        assert(is_empty_pattern(all[i], value));
    }
    if has_underscore(pattern) {
        let i = choose|i: int|
            0 <= i < all.len() && crate::patterns::is_underscore(#[trigger] all[i]);
        assert(is_empty_pattern(all[i], value));
    }
}

/// Whether some arm takes a tag.
pub open spec fn some_arm_takes_tag(arms: Seq<MatchArm>, tag: Seq<char>) -> bool {
    exists|i: int| 0 <= i < arms.len() && arm_takes_tag(#[trigger] arms[i], tag)
}

/// Whether some arm takes a literal.
pub open spec fn some_arm_takes_literal(arms: Seq<MatchArm>, literal: SpecLiteral) -> bool {
    exists|i: int| 0 <= i < arms.len() && arm_takes_literal(#[trigger] arms[i], literal)
}

/// Whether some arm takes everything.
pub open spec fn some_arm_takes_everything(arms: Seq<MatchArm>) -> bool {
    exists|i: int| 0 <= i < arms.len() && arm_takes_everything(#[trigger] arms[i])
}

/// Whether some arm takes an empty value.
pub open spec fn some_arm_takes_empty(arms: Seq<MatchArm>, value: EmptyValue) -> bool {
    exists|i: int| 0 <= i < arms.len() && arm_takes_empty(#[trigger] arms[i], value)
}

proof fn some_arm_takes_what_is_covered(
    arms: Seq<MatchArm>,
    tag: Seq<char>,
    literal: SpecLiteral,
    value: EmptyValue,
)
    ensures
        covers_tag(arms, tag) <==> some_arm_takes_tag(arms, tag),
        covers_literal(arms, literal) <==> some_arm_takes_literal(arms, literal),
        has_default(arms) <==> some_arm_takes_everything(arms),
        covers_empty(arms, value) <==> some_arm_takes_empty(arms, value),
{
    assert forall|i: int| 0 <= i < arms.len() implies ({
        let arm = #[trigger] arms[i];
        &&& crate::matches::arm_covers_tag(arm, tag) <==> arm_takes_tag(arm, tag)
        &&& crate::matches::arm_covers_literal(arm, literal) <==> arm_takes_literal(arm, literal)
        &&& (arm.guards@.len() == 0 && has_catch_all(*arm.pattern)) <==> arm_takes_everything(arm)
        &&& arm_covers_empty(arm, value) <==> arm_takes_empty(arm, value)
    }) by {
        arms_take_what_they_cover(arms[i], tag, literal, value);
    }
    if covers_tag(arms, tag) {
        let i = choose|i: int|
            0 <= i < arms.len() && crate::matches::arm_covers_tag(#[trigger] arms[i], tag);
        assert(arm_takes_tag(arms[i], tag));
    }
    if covers_literal(arms, literal) {
        let i = choose|i: int|
            0 <= i < arms.len() && crate::matches::arm_covers_literal(#[trigger] arms[i], literal);
        assert(arm_takes_literal(arms[i], literal));
    }
    if has_default(arms) {
        let i = choose|i: int|
            0 <= i < arms.len() && (#[trigger] arms[i]).guards@.len() == 0 && has_catch_all(
                *arms[i].pattern,
            );
        assert(arm_takes_everything(arms[i]));
    }
    if covers_empty(arms, value) {
        let i = choose|i: int| 0 <= i < arms.len() && arm_covers_empty(#[trigger] arms[i], value);
        assert(arm_takes_empty(arms[i], value));
    }
}

proof fn missing_tags_are_not_taken(
    arms: Seq<MatchArm>,
    entries: Seq<SpecRowEntry>,
    tag: Seq<char>,
)
    ensures
        missing_tags(arms, entries).contains(tag) <==> !some_arm_takes_tag(arms, tag) && exists|
            i: int,
        |
            0 <= i < entries.len() && #[trigger] entries[i] is Tag && entries[i]->Tag_name == tag,
        missing_tags(arms, entries).no_duplicates(),
    decreases entries.len(),
{
    some_arm_takes_what_is_covered(
        arms,
        tag,
        SpecLiteral::Bool(true),
        EmptyValue::Null,
    );
    if entries.len() > 0 {
        let others = entries.drop_last();
        let last = entries[entries.len() - 1];
        let earlier = missing_tags(arms, others);
        let all = missing_tags(arms, entries);
        missing_tags_are_not_taken(arms, others, tag);
        if earlier.contains(tag) {
            let i = choose|i: int| 0 <= i < earlier.len() && earlier[i] == tag;
            assert(all[i] == tag);
            let k = choose|k: int|
                0 <= k < others.len() && #[trigger] others[k] is Tag && others[k]->Tag_name == tag;
            assert(entries[k] == others[k]);
        }
        if all != earlier {
            assert(all == earlier.push(last->Tag_name));
            assert(all[all.len() - 1] == last->Tag_name);
        }
        if all.contains(tag) && !earlier.contains(tag) {
            let i = choose|i: int| 0 <= i < all.len() && all[i] == tag;
            if i < earlier.len() {
                assert(earlier[i] == tag);
            }
            assert(entries[entries.len() - 1]->Tag_name == tag);
            assert(entries[entries.len() - 1] is Tag);
        }
        if exists|k: int|
            0 <= k < entries.len() && #[trigger] entries[k] is Tag && entries[k]->Tag_name
                == tag {
            let k = choose|k: int|
                0 <= k < entries.len() && #[trigger] entries[k] is Tag && entries[k]->Tag_name
                    == tag;
            if k < others.len() {
                assert(others[k] is Tag && others[k]->Tag_name == tag);
            }
        }
    }
}

proof fn missing_literals_are_not_taken(
    arms: Seq<MatchArm>,
    entries: Seq<SpecRowEntry>,
    literal: SpecLiteral,
)
    ensures
        missing_literals(arms, entries).contains(literal) <==> !some_arm_takes_literal(
            arms,
            literal,
        ) && exists|i: int|
            0 <= i < entries.len() && #[trigger] entries[i] is Literal && entries[i]->Literal_value
                == literal,
        missing_literals(arms, entries).no_duplicates(),
    decreases entries.len(),
{
    some_arm_takes_what_is_covered(arms, Seq::empty(), literal, EmptyValue::Null);
    if entries.len() > 0 {
        let others = entries.drop_last();
        let last = entries[entries.len() - 1];
        let earlier = missing_literals(arms, others);
        let all = missing_literals(arms, entries);
        missing_literals_are_not_taken(arms, others, literal);
        if earlier.contains(literal) {
            let i = choose|i: int| 0 <= i < earlier.len() && earlier[i] == literal;
            assert(all[i] == literal);
            let k = choose|k: int|
                0 <= k < others.len() && #[trigger] others[k] is Literal
                    && others[k]->Literal_value == literal;
            assert(entries[k] == others[k]);
        }
        if all != earlier {
            assert(all == earlier.push(last->Literal_value));
            assert(all[all.len() - 1] == last->Literal_value);
        }
        if all.contains(literal) && !earlier.contains(literal) {
            let i = choose|i: int| 0 <= i < all.len() && all[i] == literal;
            if i < earlier.len() {
                assert(earlier[i] == literal);
            }
            assert(entries[entries.len() - 1]->Literal_value == literal);
            assert(entries[entries.len() - 1] is Literal);
        }
        if exists|k: int|
            0 <= k < entries.len() && #[trigger] entries[k] is Literal && entries[k]->Literal_value
                == literal {
            let k = choose|k: int|
                0 <= k < entries.len() && #[trigger] entries[k] is Literal
                    && entries[k]->Literal_value == literal;
            if k < others.len() {
                assert(others[k] is Literal && others[k]->Literal_value == literal);
            }
        }
    }
}

// ---------------------------------------------------------------------------
// Coverage
// ---------------------------------------------------------------------------
/// A match on a closed variant of tags covers it exactly where an arm without guards takes
/// everything, or every tag of the variant is taken by an arm without guards. Otherwise the
/// missing tags are those of the variant that no arm without guards takes.
pub proof fn matches_take_every_tag(arms: Seq<MatchArm>, row: SpecRow, tag: Seq<char>)
    requires
        row.tail is Closed,
        row.entries.len() > 0,
        forall|i: int| 0 <= i < row.entries.len() ==> #[trigger] row.entries[i] is Tag,
        !some_node(SpecType::Variant(row), is_deferred()),
    ensures
        ({
            let gap = coverage(arms, SpecType::Variant(row)).gap;
            &&& gap is Covered <==> some_arm_takes_everything(arms) || forall|i: int|
                0 <= i < row.entries.len() ==> some_arm_takes_tag(
                    arms,
                    (#[trigger] row.entries[i])->Tag_name,
                )
            &&& gap is Covered || gap is MissingTags
            &&& gap is MissingTags ==> gap->MissingTags_0.no_duplicates() && (
            gap->MissingTags_0.contains(tag) <==> !some_arm_takes_tag(arms, tag) && exists|i: int|
                0 <= i < row.entries.len() && (#[trigger] row.entries[i])->Tag_name == tag)
        }),
{
    let missing = missing_tags(arms, row.entries);
    let gap = coverage(arms, SpecType::Variant(row)).gap;
    assert(all_tags(row));
    assert(gap == variant_gap(arms, row));
    some_arm_takes_what_is_covered(arms, tag, SpecLiteral::Bool(true), EmptyValue::Null);
    missing_tags_are_not_taken(arms, row.entries, tag);
    assert forall|i: int| 0 <= i < row.entries.len() && !some_arm_takes_tag(
        arms,
        (#[trigger] row.entries[i])->Tag_name,
    ) implies missing.contains(row.entries[i]->Tag_name) by {
        missing_tags_are_not_taken(arms, row.entries, row.entries[i]->Tag_name);
    }
    if missing.len() > 0 {
        let name = missing[0];
        missing_tags_are_not_taken(arms, row.entries, name);
        assert(missing.contains(name));
        let i = choose|i: int|
            0 <= i < row.entries.len() && #[trigger] row.entries[i] is Tag
                && row.entries[i]->Tag_name == name;
        assert(!some_arm_takes_tag(arms, row.entries[i]->Tag_name));
    }
    if exists|i: int| 0 <= i < row.entries.len() && (#[trigger] row.entries[i])->Tag_name == tag {
        let i = choose|i: int|
            0 <= i < row.entries.len() && (#[trigger] row.entries[i])->Tag_name == tag;
        assert(row.entries[i] is Tag);
    }
}

/// A match on a closed union of literals covers it exactly where an arm without guards takes
/// everything, or every literal is taken by an arm without guards. Otherwise the missing
/// literals are those of the union that no arm without guards takes.
pub proof fn matches_take_every_literal(
    arms: Seq<MatchArm>,
    row: SpecRow,
    literal: SpecLiteral,
)
    requires
        row.tail is Closed,
        row.entries.len() > 0,
        forall|i: int| 0 <= i < row.entries.len() ==> #[trigger] row.entries[i] is Literal,
        !some_node(SpecType::Variant(row), is_deferred()),
    ensures
        ({
            let gap = coverage(arms, SpecType::Variant(row)).gap;
            &&& gap is Covered <==> some_arm_takes_everything(arms) || forall|i: int|
                0 <= i < row.entries.len() ==> some_arm_takes_literal(
                    arms,
                    (#[trigger] row.entries[i])->Literal_value,
                )
            &&& gap is Covered || gap is MissingLiterals
            &&& gap is MissingLiterals ==> gap->MissingLiterals_0.no_duplicates() && (
            gap->MissingLiterals_0.contains(literal) <==> !some_arm_takes_literal(arms, literal)
                && exists|i: int|
                0 <= i < row.entries.len() && (#[trigger] row.entries[i])->Literal_value
                    == literal)
        }),
{
    let missing = missing_literals(arms, row.entries);
    let gap = coverage(arms, SpecType::Variant(row)).gap;
    assert(row.entries[0] is Literal);
    assert(!all_tags(row));
    assert(all_literals(row));
    assert(gap == variant_gap(arms, row));
    some_arm_takes_what_is_covered(arms, Seq::empty(), literal, EmptyValue::Null);
    missing_literals_are_not_taken(arms, row.entries, literal);
    assert forall|i: int| 0 <= i < row.entries.len() && !some_arm_takes_literal(
        arms,
        (#[trigger] row.entries[i])->Literal_value,
    ) implies missing.contains(row.entries[i]->Literal_value) by {
        missing_literals_are_not_taken(arms, row.entries, row.entries[i]->Literal_value);
    }
    if missing.len() > 0 {
        let first = missing[0];
        missing_literals_are_not_taken(arms, row.entries, first);
        assert(missing.contains(first));
        let i = choose|i: int|
            0 <= i < row.entries.len() && #[trigger] row.entries[i] is Literal
                && row.entries[i]->Literal_value == first;
        assert(!some_arm_takes_literal(arms, row.entries[i]->Literal_value));
    }
    if exists|i: int|
        0 <= i < row.entries.len() && (#[trigger] row.entries[i])->Literal_value == literal {
        let i = choose|i: int|
            0 <= i < row.entries.len() && (#[trigger] row.entries[i])->Literal_value == literal;
        assert(row.entries[i] is Literal);
    }
}

/// A match on a variant that may hold more than it lists needs an arm without guards that takes
/// everything.
pub proof fn open_variants_need_an_arm_for_the_rest(arms: Seq<MatchArm>, row: SpecRow)
    requires
        !(row.tail is Closed),
        (forall|i: int| 0 <= i < row.entries.len() ==> #[trigger] row.entries[i] is Tag) || (
        forall|i: int| 0 <= i < row.entries.len() ==> #[trigger] row.entries[i] is Literal),
        !some_node(SpecType::Variant(row), is_deferred()),
    ensures
        coverage(arms, SpecType::Variant(row)).gap == (if some_arm_takes_everything(arms) {
            SpecGap::Covered
        } else {
            SpecGap::OpenVariant
        }),
{
    some_arm_takes_what_is_covered(
        arms,
        Seq::empty(),
        SpecLiteral::Bool(true),
        EmptyValue::Null,
    );
    assert(all_tags(row) || all_literals(row));
}

proof fn empties_are_missing(arms: Seq<MatchArm>, values: Seq<EmptyValue>, value: EmptyValue)
    ensures
        missing_empty(arms, values).contains(value) <==> values.contains(value)
            && !some_arm_takes_empty(arms, value),
    decreases values.len(),
{
    some_arm_takes_what_is_covered(arms, Seq::empty(), SpecLiteral::Bool(true), value);
    if values.len() > 0 {
        let others = values.drop_last();
        let last = values[values.len() - 1];
        let earlier = missing_empty(arms, others);
        let all = missing_empty(arms, values);
        empties_are_missing(arms, others, value);
        if earlier.contains(value) {
            let i = choose|i: int| 0 <= i < earlier.len() && earlier[i] == value;
            assert(all[i] == value);
        }
        if others.contains(value) {
            let i = choose|i: int| 0 <= i < others.len() && others[i] == value;
            assert(values[i] == value);
        }
        if all != earlier {
            assert(all == earlier.push(last));
            assert(all[all.len() - 1] == last);
        }
        if values.contains(value) {
            let i = choose|i: int| 0 <= i < values.len() && values[i] == value;
            if i < others.len() {
                assert(others[i] == value);
            }
        }
        if all.contains(value) && !earlier.contains(value) {
            let i = choose|i: int| 0 <= i < all.len() && all[i] == value;
            if i < earlier.len() {
                assert(earlier[i] == value);
            }
            assert(values[values.len() - 1] == value);
        }
    }
}

/// Where the subject may be absent, an arm without guards must be `undefined` or the
/// placeholder; where it may be null, `null` or the placeholder.
pub proof fn empty_values_are_taken(arms: Seq<MatchArm>, inner: SpecType, value: EmptyValue)
    requires
        !(inner is Optional),
        !(inner is Nullable),
        !some_node(inner, is_deferred()),
    ensures
        coverage(arms, SpecType::Optional(Box::new(inner))).missing_empty.contains(value) <==> value
            is Undefined && !some_arm_takes_empty(arms, EmptyValue::Undefined),
        coverage(arms, SpecType::Nullable(Box::new(inner))).missing_empty.contains(value) <==> value
            is Null && !some_arm_takes_empty(arms, EmptyValue::Null),
        coverage(arms, inner).missing_empty.len() == 0,
{
    let optional = SpecType::Optional(Box::new(inner));
    let nullable = SpecType::Nullable(Box::new(inner));
    let none = Seq::<EmptyValue>::empty();
    reveal_with_fuel(crate::rows::peeled_values, 2);
    let one = crate::rows::peeled_values(optional, none);
    let two = crate::rows::peeled_values(nullable, none);
    assert(one =~= seq![EmptyValue::Undefined]);
    assert(two =~= seq![EmptyValue::Null]);
    assert(one[0] == EmptyValue::Undefined);
    assert(two[0] == EmptyValue::Null);
    empties_are_missing(arms, one, value);
    empties_are_missing(arms, two, value);
    assert(crate::rows::peeled_values(inner, none) == none);
    assert(!some_node(optional, is_deferred()));
    assert(!some_node(nullable, is_deferred()));
}

/// What may be absent or null leaves open of its payload what the payload leaves open.
pub proof fn gaps_are_those_of_the_payload(arms: Seq<MatchArm>, inner: SpecType)
    requires
        !some_node(inner, is_deferred()),
    ensures
        coverage(arms, SpecType::Optional(Box::new(inner))).gap == coverage(arms, inner).gap,
        coverage(arms, SpecType::Nullable(Box::new(inner))).gap == coverage(arms, inner).gap,
        !(inner is Optional) && !(inner is Nullable) && !(inner is Variant) ==> coverage(
            arms,
            inner,
        ).gap is Covered,
{
    assert(!some_node(SpecType::Optional(Box::new(inner)), is_deferred()));
    assert(!some_node(SpecType::Nullable(Box::new(inner)), is_deferred()));
}

/// An arm with guards covers nothing: taking it away leaves the same open.
pub proof fn guarded_arms_cover_nothing(
    arms: Seq<MatchArm>,
    index: int,
    subject: SpecType,
)
    requires
        0 <= index < arms.len(),
        arms[index].guards@.len() > 0,
    ensures
        coverage(arms.remove(index), subject).gap == coverage(arms, subject).gap,
        coverage(arms.remove(index), subject).missing_empty == coverage(
            arms,
            subject,
        ).missing_empty,
{
    let fewer = arms.remove(index);
    assert forall|tag: Seq<char>| covers_tag(fewer, tag) == #[trigger] covers_tag(arms, tag) by {
        if covers_tag(arms, tag) {
            let i = choose|i: int|
                0 <= i < arms.len() && crate::matches::arm_covers_tag(#[trigger] arms[i], tag);
            let k = if i < index {
                i
            } else {
                i - 1
            };
            assert(fewer[k] == arms[i]);
        }
        if covers_tag(fewer, tag) {
            let k = choose|k: int|
                0 <= k < fewer.len() && crate::matches::arm_covers_tag(#[trigger] fewer[k], tag);
            let i = if k < index {
                k
            } else {
                k + 1
            };
            assert(fewer[k] == arms[i]);
        }
    }
    assert forall|literal: SpecLiteral| covers_literal(fewer, literal) == #[trigger] covers_literal(
        arms,
        literal,
    ) by {
        if covers_literal(arms, literal) {
            let i = choose|i: int|
                0 <= i < arms.len() && crate::matches::arm_covers_literal(
                    #[trigger] arms[i],
                    literal,
                );
            let k = if i < index {
                i
            } else {
                i - 1
            };
            assert(fewer[k] == arms[i]);
        }
        if covers_literal(fewer, literal) {
            let k = choose|k: int|
                0 <= k < fewer.len() && crate::matches::arm_covers_literal(
                    #[trigger] fewer[k],
                    literal,
                );
            let i = if k < index {
                k
            } else {
                k + 1
            };
            assert(fewer[k] == arms[i]);
        }
    }
    assert forall|value: EmptyValue| covers_empty(fewer, value) == #[trigger] covers_empty(
        arms,
        value,
    ) by {
        if covers_empty(arms, value) {
            let i = choose|i: int| 0 <= i < arms.len() && arm_covers_empty(#[trigger] arms[i], value);
            let k = if i < index {
                i
            } else {
                i - 1
            };
            assert(fewer[k] == arms[i]);
        }
        if covers_empty(fewer, value) {
            let k = choose|k: int|
                0 <= k < fewer.len() && arm_covers_empty(#[trigger] fewer[k], value);
            let i = if k < index {
                k
            } else {
                k + 1
            };
            assert(fewer[k] == arms[i]);
        }
    }
    assert(has_default(fewer) == has_default(arms)) by {
        if has_default(arms) {
            let i = choose|i: int|
                0 <= i < arms.len() && (#[trigger] arms[i]).guards@.len() == 0 && has_catch_all(
                    *arms[i].pattern,
                );
            let k = if i < index {
                i
            } else {
                i - 1
            };
            assert(fewer[k] == arms[i]);
        }
        if has_default(fewer) {
            let k = choose|k: int|
                0 <= k < fewer.len() && (#[trigger] fewer[k]).guards@.len() == 0 && has_catch_all(
                    *fewer[k].pattern,
                );
            let i = if k < index {
                k
            } else {
                k + 1
            };
            assert(fewer[k] == arms[i]);
        }
    }
    let payload = crate::rows::peeled_payload(subject);
    if let SpecType::Variant(row) = payload {
        same_missing(arms, fewer, row.entries);
    }
    same_empty(arms, fewer, crate::rows::peeled_values(subject, Seq::empty()));
}

proof fn same_missing(arms: Seq<MatchArm>, others: Seq<MatchArm>, entries: Seq<SpecRowEntry>)
    requires
        forall|tag: Seq<char>| covers_tag(others, tag) == #[trigger] covers_tag(arms, tag),
        forall|literal: SpecLiteral|
            covers_literal(others, literal) == #[trigger] covers_literal(arms, literal),
    ensures
        missing_tags(others, entries) == missing_tags(arms, entries),
        missing_literals(others, entries) == missing_literals(arms, entries),
    decreases entries.len(),
{
    if entries.len() > 0 {
        same_missing(arms, others, entries.drop_last());
        if let SpecRowEntry::Tag { name, .. } = entries.last() {
            assert(covers_tag(others, name) == covers_tag(arms, name));
        }
        if let SpecRowEntry::Literal { value } = entries.last() {
            assert(covers_literal(others, value) == covers_literal(arms, value));
        }
    }
}

proof fn same_empty(arms: Seq<MatchArm>, others: Seq<MatchArm>, values: Seq<EmptyValue>)
    requires
        forall|value: EmptyValue| covers_empty(others, value) == #[trigger] covers_empty(arms, value),
    ensures
        missing_empty(others, values) == missing_empty(arms, values),
    decreases values.len(),
{
    if values.len() > 0 {
        same_empty(arms, others, values.drop_last());
        assert(covers_empty(others, values.last()) == covers_empty(arms, values.last()));
    }
}

// ---------------------------------------------------------------------------
// Literals that cannot match
// ---------------------------------------------------------------------------
proof fn unlisted_are_not_members(
    members: Seq<SpecLiteral>,
    literals: Seq<(SpecLiteral, Span)>,
    literal: (SpecLiteral, Span),
)
    ensures
        unlisted(members, literals).contains(literal) <==> literals.contains(literal)
            && !members.contains(literal.0),
    decreases literals.len(),
{
    if literals.len() > 0 {
        let others = literals.drop_last();
        let last = literals[literals.len() - 1];
        let earlier = unlisted(members, others);
        let all = unlisted(members, literals);
        unlisted_are_not_members(members, others, literal);
        if earlier.contains(literal) {
            let i = choose|i: int| 0 <= i < earlier.len() && earlier[i] == literal;
            assert(all[i] == literal);
        }
        if others.contains(literal) {
            let i = choose|i: int| 0 <= i < others.len() && others[i] == literal;
            assert(literals[i] == literal);
        }
        if all != earlier {
            assert(all == earlier.push(last));
            assert(all[all.len() - 1] == last);
        }
        if literals.contains(literal) {
            let i = choose|i: int| 0 <= i < literals.len() && literals[i] == literal;
            if i < others.len() {
                assert(others[i] == literal);
            }
        }
        if all.contains(literal) && !earlier.contains(literal) {
            let i = choose|i: int| 0 <= i < all.len() && all[i] == literal;
            if i < earlier.len() {
                assert(earlier[i] == literal);
            }
            assert(literals[literals.len() - 1] == literal);
        }
    }
}

proof fn placed_literals_are_named(alternatives: Seq<Expr>, literal: SpecLiteral, span: Span)
    ensures
        literals_named(alternatives).contains((literal, span)) <==> exists|i: int|
            0 <= i < alternatives.len() && is_literal_pattern(#[trigger] alternatives[i], literal)
                && ungrouped(alternatives[i]).span == span,
    decreases alternatives.len(),
{
    if alternatives.len() > 0 {
        let others = alternatives.drop_last();
        let last = alternatives[alternatives.len() - 1];
        let earlier = literals_named(others);
        let all = literals_named(alternatives);
        placed_literals_are_named(others, literal, span);
        assert(literal_named(last) == Some((literal, span)) <==> is_literal_pattern(last, literal)
            && ungrouped(last).span == span);
        if earlier.contains((literal, span)) {
            let i = choose|i: int| 0 <= i < earlier.len() && earlier[i] == (literal, span);
            assert(all[i] == (literal, span));
            let k = choose|k: int|
                0 <= k < others.len() && is_literal_pattern(#[trigger] others[k], literal)
                    && ungrouped(others[k]).span == span;
            assert(alternatives[k] == others[k]);
        }
        if literal_named(last) == Some((literal, span)) {
            assert(all[all.len() - 1] == (literal, span));
            assert(is_literal_pattern(alternatives[alternatives.len() - 1], literal));
        }
        if all.contains((literal, span)) && !earlier.contains((literal, span)) {
            let i = choose|i: int| 0 <= i < all.len() && all[i] == (literal, span);
            if i < earlier.len() {
                assert(earlier[i] == (literal, span));
            }
        }
        if exists|k: int|
            0 <= k < alternatives.len() && is_literal_pattern(#[trigger] alternatives[k], literal)
                && ungrouped(alternatives[k]).span == span {
            let k = choose|k: int|
                0 <= k < alternatives.len() && is_literal_pattern(
                    #[trigger] alternatives[k],
                    literal,
                ) && ungrouped(alternatives[k]).span == span;
            if k < others.len() {
                assert(is_literal_pattern(others[k], literal));
            }
        }
    }
}

proof fn unreachable_are_unlisted(
    members: Seq<SpecLiteral>,
    arms: Seq<MatchArm>,
    literal: (SpecLiteral, Span),
)
    ensures
        unreachable_literals(members, arms).contains(literal) <==> !members.contains(literal.0)
            && exists|i: int|
            0 <= i < arms.len() && literals_named(
                or_alternatives(*(#[trigger] arms[i]).pattern),
            ).contains(literal),
    decreases arms.len(),
{
    if arms.len() > 0 {
        let others = arms.drop_last();
        let last = arms[arms.len() - 1];
        let first = unreachable_literals(members, others);
        let second = unlisted(members, literals_named(or_alternatives(*last.pattern)));
        let all = unreachable_literals(members, arms);
        assert(all == first + second);
        unreachable_are_unlisted(members, others, literal);
        unlisted_are_not_members(
            members,
            literals_named(or_alternatives(*last.pattern)),
            literal,
        );
        if first.contains(literal) {
            let i = choose|i: int| 0 <= i < first.len() && first[i] == literal;
            assert(all[i] == literal);
            let k = choose|k: int|
                0 <= k < others.len() && literals_named(
                    or_alternatives(*(#[trigger] others[k]).pattern),
                ).contains(literal);
            assert(arms[k] == others[k]);
        }
        if second.contains(literal) {
            let i = choose|i: int| 0 <= i < second.len() && second[i] == literal;
            assert(all[first.len() + i] == literal);
            assert(literals_named(or_alternatives(*arms[arms.len() - 1].pattern)).contains(literal));
        }
        if all.contains(literal) {
            let i = choose|i: int| 0 <= i < all.len() && all[i] == literal;
            if i < first.len() {
                assert(first[i] == literal);
            } else {
                assert(second[i - first.len()] == literal);
            }
        }
        if exists|k: int|
            0 <= k < arms.len() && literals_named(
                or_alternatives(*(#[trigger] arms[k]).pattern),
            ).contains(literal) {
            let k = choose|k: int|
                0 <= k < arms.len() && literals_named(
                    or_alternatives(*(#[trigger] arms[k]).pattern),
                ).contains(literal);
            if k < others.len() {
                assert(others[k] == arms[k]);
            }
        }
    }
}

/// Of a match on a closed union of literals, exactly those literals of arms cannot match that
/// the union does not list.
pub proof fn literals_outside_the_union_cannot_match(
    arms: Seq<MatchArm>,
    row: SpecRow,
    literal: SpecLiteral,
    span: Span,
)
    requires
        row.tail is Closed,
        row.entries.len() > 0,
        forall|i: int| 0 <= i < row.entries.len() ==> #[trigger] row.entries[i] is Literal,
        !some_node(SpecType::Variant(row), is_deferred()),
    ensures
        coverage(arms, SpecType::Variant(row)).unreachable.contains((literal, span)) <==> (exists|
            i: int,
            alternative: Expr,
        |
            #![trigger arms[i], is_literal_pattern(alternative, literal)]
            0 <= i < arms.len() && is_alternative(*arms[i].pattern, alternative)
                && is_literal_pattern(alternative, literal) && ungrouped(alternative).span == span)
            && !(exists|i: int|
            0 <= i < row.entries.len() && (#[trigger] row.entries[i])->Literal_value == literal),
{
    let members = crate::comparison::literals_of(row);
    assert(row.entries[0] is Literal);
    assert(!all_tags(row));
    assert(all_literals(row));
    unreachable_are_unlisted(members, arms, (literal, span));
    assert(members.contains(literal) <==> exists|i: int|
        0 <= i < row.entries.len() && (#[trigger] row.entries[i])->Literal_value == literal) by {
        if members.contains(literal) {
            let i = choose|i: int| 0 <= i < members.len() && members[i] == literal;
            assert(row.entries[i]->Literal_value == literal);
        }
        if exists|i: int|
            0 <= i < row.entries.len() && (#[trigger] row.entries[i])->Literal_value == literal {
            let i = choose|i: int|
                0 <= i < row.entries.len() && (#[trigger] row.entries[i])->Literal_value == literal;
            assert(members[i] == literal);
        }
    }
    assert forall|i: int| 0 <= i < arms.len() implies (literals_named(
        or_alternatives(*(#[trigger] arms[i]).pattern),
    ).contains((literal, span)) <==> exists|alternative: Expr|
        #![trigger is_literal_pattern(alternative, literal)]
        is_alternative(*arms[i].pattern, alternative) && is_literal_pattern(alternative, literal)
            && ungrouped(alternative).span == span) by {
        let all = or_alternatives(*arms[i].pattern);
        placed_literals_are_named(all, literal, span);
        if literals_named(all).contains((literal, span)) {
            let k = choose|k: int|
                0 <= k < all.len() && is_literal_pattern(#[trigger] all[k], literal) && ungrouped(
                    all[k],
                ).span == span;
            alternatives_are_those_joined(*arms[i].pattern, all[k]);
            assert(all.contains(all[k]));
            assert(is_literal_pattern(all[k], literal));
        }
        if exists|alternative: Expr|
            #![trigger is_literal_pattern(alternative, literal)]
            is_alternative(*arms[i].pattern, alternative) && is_literal_pattern(
                alternative,
                literal,
            ) && ungrouped(alternative).span == span {
            let a = choose|alternative: Expr|
                #![trigger is_literal_pattern(alternative, literal)]
                is_alternative(*arms[i].pattern, alternative) && is_literal_pattern(
                    alternative,
                    literal,
                ) && ungrouped(alternative).span == span;
            alternatives_are_those_joined(*arms[i].pattern, a);
            let k = choose|k: int| 0 <= k < all.len() && all[k] == a;
            assert(is_literal_pattern(all[k], literal));
        }
    }
}

} // verus!
