//! Owner patterns of methods that are attached to builtin types.
use crate::builtin_methods::{builtin_method_signature, builtin_signature};
use crate::collections::{StringMap, StringSet};
use crate::text::{same_text, texts_contain, texts_view};
use crate::type_ops::{
    is_named, is_resolved_value_type, named_builtin, resolved, type_map_view, variables_in,
};
use crate::types::{types_view, SpecType, Type};
use vstd::prelude::*;

verus! {

/// A partial map from variable names to types.
pub type Bindings = Map<Seq<char>, SpecType>;

/// Whether the second map agrees with the first wherever the first is defined.
pub open spec fn refines(bindings: Bindings, larger: Bindings) -> bool {
    forall|x: Seq<char>| #[trigger]
        bindings.contains_key(x) ==> larger.contains_key(x) && larger[x] == bindings[x]
}

/// Whether a pattern is the receiver once its variables are bound.
///
/// Variables are bound at the root, in type applications, in optional and
/// nullable types, and in tuples; every other shape is compared as it stands.
pub open spec fn pattern_matches(
    pattern: SpecType,
    receiver: SpecType,
    variables: Set<Seq<char>>,
    bindings: Bindings,
) -> bool
    decreases pattern,
{
    match (pattern, receiver) {
        (SpecType::Variable(name), _) => if variables.contains(name) {
            bindings.contains_key(name) && bindings[name] == receiver
        } else {
            pattern == receiver
        },
        (
            SpecType::Apply { callee, args },
            SpecType::Apply { callee: receiver_callee, args: receiver_args },
        ) => pattern_matches(*callee, *receiver_callee, variables, bindings) && patterns_match(
            args,
            receiver_args,
            variables,
            bindings,
        ),
        (SpecType::Optional(inner), SpecType::Optional(receiver_inner)) => pattern_matches(
            *inner,
            *receiver_inner,
            variables,
            bindings,
        ),
        (SpecType::Nullable(inner), SpecType::Nullable(receiver_inner)) => pattern_matches(
            *inner,
            *receiver_inner,
            variables,
            bindings,
        ),
        (SpecType::Tuple(items), SpecType::Tuple(receiver_items)) => patterns_match(
            items,
            receiver_items,
            variables,
            bindings,
        ),
        _ => pattern == receiver,
    }
}

pub open spec fn patterns_match(
    patterns: Seq<SpecType>,
    receivers: Seq<SpecType>,
    variables: Set<Seq<char>>,
    bindings: Bindings,
) -> bool
    decreases patterns,
{
    &&& patterns.len() == receivers.len()
    &&& forall|i: int|
        0 <= i < patterns.len() ==> pattern_matches(
            #[trigger] patterns[i],
            receivers[i],
            variables,
            bindings,
        )
}

proof fn match_refined(
    pattern: SpecType,
    receiver: SpecType,
    variables: Set<Seq<char>>,
    bindings: Bindings,
    larger: Bindings,
)
    requires
        pattern_matches(pattern, receiver, variables, bindings),
        refines(bindings, larger),
    ensures
        pattern_matches(pattern, receiver, variables, larger),
    decreases pattern,
{
    match (pattern, receiver) {
        (
            SpecType::Apply { callee, args },
            SpecType::Apply { callee: receiver_callee, args: receiver_args },
        ) => {
            match_refined(*callee, *receiver_callee, variables, bindings, larger);
            matches_refined(args, receiver_args, variables, bindings, larger);
        },
        (SpecType::Optional(inner), SpecType::Optional(receiver_inner)) => {
            match_refined(*inner, *receiver_inner, variables, bindings, larger);
        },
        (SpecType::Nullable(inner), SpecType::Nullable(receiver_inner)) => {
            match_refined(*inner, *receiver_inner, variables, bindings, larger);
        },
        (SpecType::Tuple(items), SpecType::Tuple(receiver_items)) => {
            matches_refined(items, receiver_items, variables, bindings, larger);
        },
        _ => {},
    }
}

proof fn matches_refined(
    patterns: Seq<SpecType>,
    receivers: Seq<SpecType>,
    variables: Set<Seq<char>>,
    bindings: Bindings,
    larger: Bindings,
)
    requires
        patterns_match(patterns, receivers, variables, bindings),
        refines(bindings, larger),
    ensures
        patterns_match(patterns, receivers, variables, larger),
    decreases patterns,
{
    assert forall|i: int| 0 <= i < patterns.len() implies pattern_matches(
        #[trigger] patterns[i],
        receivers[i],
        variables,
        larger,
    ) by {
        match_refined(patterns[i], receivers[i], variables, bindings, larger);
    }
}

/// What a match of a receiver against a pattern comes to: whether it succeeds, and what
/// the bindings hold then.
pub ghost struct Bound {
    pub matches: bool,
    pub bindings: Bindings,
}

/// What a match of a receiver against a pattern comes to. Variables are bound from left to
/// right, and the first difference ends the match.
pub open spec fn bound(
    pattern: SpecType,
    receiver: SpecType,
    variables: Set<Seq<char>>,
    bindings: Bindings,
) -> Bound
    decreases pattern, 0nat,
{
    match (pattern, receiver) {
        (SpecType::Variable(name), _) => if !variables.contains(name) {
            Bound { matches: pattern == receiver, bindings }
        } else if bindings.contains_key(name) {
            Bound { matches: bindings[name] == receiver, bindings }
        } else {
            Bound { matches: true, bindings: bindings.insert(name, receiver) }
        },
        (
            SpecType::Apply { callee, args },
            SpecType::Apply { callee: receiver_callee, args: receiver_args },
        ) => if args.len() != receiver_args.len() {
            Bound { matches: false, bindings }
        } else {
            let first = bound(*callee, *receiver_callee, variables, bindings);
            if first.matches {
                all_bound(args, receiver_args, variables, first.bindings)
            } else {
                first
            }
        },
        (SpecType::Optional(inner), SpecType::Optional(receiver_inner)) => bound(
            *inner,
            *receiver_inner,
            variables,
            bindings,
        ),
        (SpecType::Nullable(inner), SpecType::Nullable(receiver_inner)) => bound(
            *inner,
            *receiver_inner,
            variables,
            bindings,
        ),
        (SpecType::Tuple(items), SpecType::Tuple(receiver_items)) => all_bound(
            items,
            receiver_items,
            variables,
            bindings,
        ),
        _ => Bound { matches: pattern == receiver, bindings },
    }
}

/// What a match of two lists comes to. Lists of other lengths bind nothing.
pub open spec fn all_bound(
    patterns: Seq<SpecType>,
    receivers: Seq<SpecType>,
    variables: Set<Seq<char>>,
    bindings: Bindings,
) -> Bound
    decreases patterns, patterns.len() + 1,
{
    if patterns.len() != receivers.len() {
        Bound { matches: false, bindings }
    } else {
        first_bound(patterns, receivers, patterns.len(), variables, bindings)
    }
}

/// What a match of the first types of two lists comes to.
pub open spec fn first_bound(
    patterns: Seq<SpecType>,
    receivers: Seq<SpecType>,
    count: nat,
    variables: Set<Seq<char>>,
    bindings: Bindings,
) -> Bound
    decreases patterns, count,
{
    if count == 0 || count > patterns.len() {
        Bound { matches: true, bindings }
    } else {
        let earlier = first_bound(
            patterns,
            receivers,
            (count - 1) as nat,
            variables,
            bindings,
        );
        if earlier.matches {
            bound(patterns[count - 1], receivers[count - 1], variables, earlier.bindings)
        } else {
            earlier
        }
    }
}

proof fn first_mismatch_ends(
    patterns: Seq<SpecType>,
    receivers: Seq<SpecType>,
    few: nat,
    many: nat,
    variables: Set<Seq<char>>,
    bindings: Bindings,
)
    requires
        few <= many <= patterns.len(),
        !first_bound(patterns, receivers, few, variables, bindings).matches,
    ensures
        first_bound(patterns, receivers, many, variables, bindings) == first_bound(
            patterns,
            receivers,
            few,
            variables,
            bindings,
        ),
    decreases many,
{
    if few < many {
        first_mismatch_ends(patterns, receivers, few, (many - 1) as nat, variables, bindings);
    }
}

/// Whether every name that one map binds and the other does not is a name to be bound and
/// occurs in a pattern.
pub open spec fn binds_only(
    before: Bindings,
    after: Bindings,
    variables: Set<Seq<char>>,
    occurring: Set<Seq<char>>,
) -> bool {
    forall|name: Seq<char>| #[trigger]
        after.contains_key(name) && !before.contains_key(name) ==> variables.contains(name)
            && occurring.contains(name)
}

/// Match a receiver against an owner pattern, extending the bindings.
///
/// The match succeeds exactly when some extension of the bindings makes the
/// pattern the receiver; the bindings are then extended by what every such
/// extension has to hold. Where it fails, the bindings keep what was bound before
/// the first difference.
pub fn owner_pattern_matches(
    pattern: &Type,
    receiver: &Type,
    variables: &StringSet,
    bindings: &mut StringMap<Type>,
) -> (matching: bool)
    ensures
        (Bound { matches: matching, bindings: type_map_view(final(bindings)@) }) == bound(
            pattern@,
            receiver@,
            variables@,
            type_map_view(old(bindings)@),
        ),
        binds_only(
            type_map_view(old(bindings)@),
            type_map_view(final(bindings)@),
            variables@,
            crate::type_ops::variables(pattern@),
        ),
        refines(type_map_view(old(bindings)@), type_map_view(final(bindings)@)),
        matching ==> pattern_matches(
            pattern@,
            receiver@,
            variables@,
            type_map_view(final(bindings)@),
        ),
        forall|larger: Bindings|
            refines(type_map_view(old(bindings)@), larger) && #[trigger] pattern_matches(
                pattern@,
                receiver@,
                variables@,
                larger,
            ) ==> matching && refines(type_map_view(final(bindings)@), larger),
    decreases pattern,
{
    let ghost before = type_map_view(bindings@);
    match (pattern, receiver) {
        (Type::Variable(name), _) => {
            if !variables.contains(name.as_str()) {
                return *pattern == *receiver;
            }
            if let Some(bound) = bindings.get(name.as_str()) {
                assert(before.contains_key(name@));
                return *bound == *receiver;
            }
            bindings.insert(name.clone(), receiver.clone());
            proof {
                assert(type_map_view(bindings@) =~= before.insert(name@, receiver@));
            }
            true
        },
        (
            Type::Apply { callee, args },
            Type::Apply { callee: receiver_callee, args: receiver_args },
        ) => {
            assert forall|larger: Bindings| #[trigger] pattern_matches(
                pattern@,
                receiver@,
                variables@,
                larger,
            ) implies pattern_matches(callee@, receiver_callee@, variables@, larger)
                && patterns_match(
                types_view(args@),
                types_view(receiver_args@),
                variables@,
                larger,
            ) by {}
            assert(types_view(args@).len() == args.len());
            assert(types_view(receiver_args@).len() == receiver_args.len());
            if args.len() != receiver_args.len() {
                return false;
            }
            if !owner_pattern_matches(callee, receiver_callee, variables, bindings) {
                return false;
            }
            let ghost middle = type_map_view(bindings@);
            let matching = owner_patterns_match(args, receiver_args, variables, bindings);
            proof {
                if matching {
                    match_refined(
                        callee@,
                        receiver_callee@,
                        variables@,
                        middle,
                        type_map_view(bindings@),
                    );
                }
            }
            matching
        },
        (Type::Optional(inner), Type::Optional(receiver_inner)) => {
            assert forall|larger: Bindings| #[trigger] pattern_matches(
                pattern@,
                receiver@,
                variables@,
                larger,
            ) implies pattern_matches(inner@, receiver_inner@, variables@, larger) by {}
            owner_pattern_matches(inner, receiver_inner, variables, bindings)
        },
        (Type::Nullable(inner), Type::Nullable(receiver_inner)) => {
            assert forall|larger: Bindings| #[trigger] pattern_matches(
                pattern@,
                receiver@,
                variables@,
                larger,
            ) implies pattern_matches(inner@, receiver_inner@, variables@, larger) by {}
            owner_pattern_matches(inner, receiver_inner, variables, bindings)
        },
        (Type::Tuple(items), Type::Tuple(receiver_items)) => {
            assert forall|larger: Bindings| #[trigger] pattern_matches(
                pattern@,
                receiver@,
                variables@,
                larger,
            ) implies patterns_match(
                types_view(items@),
                types_view(receiver_items@),
                variables@,
                larger,
            ) by {}
            owner_patterns_match(items, receiver_items, variables, bindings)
        },
        _ => *pattern == *receiver,
    }
}

fn owner_patterns_match(
    patterns: &Vec<Type>,
    receivers: &Vec<Type>,
    variables: &StringSet,
    bindings: &mut StringMap<Type>,
) -> (matching: bool)
    ensures
        (Bound { matches: matching, bindings: type_map_view(final(bindings)@) }) == all_bound(
            types_view(patterns@),
            types_view(receivers@),
            variables@,
            type_map_view(old(bindings)@),
        ),
        binds_only(
            type_map_view(old(bindings)@),
            type_map_view(final(bindings)@),
            variables@,
            variables_in(types_view(patterns@)),
        ),
        refines(type_map_view(old(bindings)@), type_map_view(final(bindings)@)),
        matching ==> patterns_match(
            types_view(patterns@),
            types_view(receivers@),
            variables@,
            type_map_view(final(bindings)@),
        ),
        forall|larger: Bindings|
            refines(type_map_view(old(bindings)@), larger) && #[trigger] patterns_match(
                types_view(patterns@),
                types_view(receivers@),
                variables@,
                larger,
            ) ==> matching && refines(type_map_view(final(bindings)@), larger),
    decreases patterns,
{
    assert(types_view(patterns@).len() == patterns.len());
    assert(types_view(receivers@).len() == receivers.len());
    if patterns.len() != receivers.len() {
        return false;
    }
    let ghost before = type_map_view(bindings@);
    let ghost all_patterns = types_view(patterns@);
    let ghost all_receivers = types_view(receivers@);
    let mut index: usize = 0;
    while index < patterns.len()
        invariant
            index <= patterns.len(),
            patterns.len() == receivers.len(),
            all_patterns == types_view(patterns@),
            all_receivers == types_view(receivers@),
            before == type_map_view(old(bindings)@),
            (Bound { matches: true, bindings: type_map_view(bindings@) }) == first_bound(
                all_patterns,
                all_receivers,
                index as nat,
                variables@,
                before,
            ),
            binds_only(before, type_map_view(bindings@), variables@, variables_in(all_patterns)),
            refines(before, type_map_view(bindings@)),
            forall|i: int|
                0 <= i < index ==> pattern_matches(
                    #[trigger] all_patterns[i],
                    all_receivers[i],
                    variables@,
                    type_map_view(bindings@),
                ),
            forall|larger: Bindings|
                refines(before, larger) && #[trigger] patterns_match(
                    all_patterns,
                    all_receivers,
                    variables@,
                    larger,
                ) ==> refines(type_map_view(bindings@), larger),
        decreases patterns.len() - index,
    {
        let ghost middle = type_map_view(bindings@);
        let matching = owner_pattern_matches(
            &patterns[index],
            &receivers[index],
            variables,
            bindings,
        );
        proof {
            assert(all_patterns[index as int] == patterns@[index as int]@);
            assert(all_receivers[index as int] == receivers@[index as int]@);
            assert forall|larger: Bindings|
                refines(before, larger) && #[trigger] patterns_match(
                    all_patterns,
                    all_receivers,
                    variables@,
                    larger,
                ) implies matching && refines(type_map_view(bindings@), larger) by {
                assert(pattern_matches(
                    all_patterns[index as int],
                    all_receivers[index as int],
                    variables@,
                    larger,
                ));
            }
        }
        proof {
            assert forall|name: Seq<char>| #[trigger]
                type_map_view(bindings@).contains_key(name) && !before.contains_key(
                    name,
                ) implies variables@.contains(name) && variables_in(all_patterns).contains(
                name,
            ) by {
                if !middle.contains_key(name) {
                    assert(crate::type_ops::variables(all_patterns[index as int]).contains(name));
                }
            }
        }
        if !matching {
            proof {
                first_mismatch_ends(
                    all_patterns,
                    all_receivers,
                    (index + 1) as nat,
                    all_patterns.len(),
                    variables@,
                    before,
                );
            }
            return false;
        }
        proof {
            assert forall|i: int| 0 <= i < index + 1 implies pattern_matches(
                #[trigger] all_patterns[i],
                all_receivers[i],
                variables@,
                type_map_view(bindings@),
            ) by {
                if i < index {
                    match_refined(
                        all_patterns[i],
                        all_receivers[i],
                        variables@,
                        middle,
                        type_map_view(bindings@),
                    );
                }
            }
        }
        index += 1;
    }
    true
}

/// Whether a match of a pattern binds no more than it has to.
pub open spec fn is_least_match(
    pattern: SpecType,
    receiver: SpecType,
    variables: Set<Seq<char>>,
    bindings: Bindings,
) -> bool {
    &&& pattern_matches(pattern, receiver, variables, bindings)
    &&& forall|larger: Bindings| #[trigger]
        pattern_matches(pattern, receiver, variables, larger) ==> refines(bindings, larger)
}

/// Whether a receiver is an instance of a pattern.
pub open spec fn admits(
    pattern: SpecType,
    receiver: SpecType,
    variables: Set<Seq<char>>,
) -> bool {
    exists|bindings: Bindings| pattern_matches(pattern, receiver, variables, bindings)
}

/// What the variables of a pattern stand for in a receiver.
pub open spec fn match_bindings(
    pattern: SpecType,
    receiver: SpecType,
    variables: Set<Seq<char>>,
) -> Bindings {
    choose|bindings: Bindings| is_least_match(pattern, receiver, variables, bindings)
}

proof fn least_match_is(
    pattern: SpecType,
    receiver: SpecType,
    variables: Set<Seq<char>>,
    bindings: Bindings,
)
    requires
        is_least_match(pattern, receiver, variables, bindings),
    ensures
        match_bindings(pattern, receiver, variables) == bindings,
{
    let chosen = match_bindings(pattern, receiver, variables);
    assert(is_least_match(pattern, receiver, variables, chosen));
    assert forall|x: Seq<char>| chosen.contains_key(x) == bindings.contains_key(x) by {}
    assert(chosen =~= bindings);
}

/// What the variables of a pattern stand for in a receiver that is an instance
/// of it.
pub fn owner_pattern_bindings(
    pattern: &Type,
    receiver: &Type,
    variables: &StringSet,
) -> (bindings: Option<StringMap<Type>>)
    ensures
        match bindings {
            Some(bindings) => {
                &&& admits(pattern@, receiver@, variables@)
                &&& type_map_view(bindings@) == match_bindings(pattern@, receiver@, variables@)
                &&& is_least_match(pattern@, receiver@, variables@, type_map_view(bindings@))
            },
            None => !admits(pattern@, receiver@, variables@),
        },
{
    let mut bindings: StringMap<Type> = StringMap::new();
    let ghost none = type_map_view(bindings@);
    let matching = owner_pattern_matches(pattern, receiver, variables, &mut bindings);
    proof {
        assert forall|larger: Bindings| #[trigger] pattern_matches(
            pattern@,
            receiver@,
            variables@,
            larger,
        ) implies matching && refines(type_map_view(bindings@), larger) by {
            assert(refines(none, larger));
        }
        if matching {
            least_match_is(pattern@, receiver@, variables@, type_map_view(bindings@));
        }
    }
    if matching {
        Some(bindings)
    } else {
        None
    }
}

/// The name of the type that a builtin owner applies.
pub open spec fn owner_head(ty: SpecType) -> Option<Seq<char>> {
    match ty {
        SpecType::Named(name) => Some(name),
        SpecType::Apply { callee, .. } => match *callee {
            SpecType::Named(name) => Some(name),
            _ => None,
        },
        _ => None,
    }
}

/// The name of the type that a builtin owner applies.
pub fn builtin_owner_head(ty: &Type) -> (head: Option<&str>)
    ensures
        match head {
            Some(head) => owner_head(ty@) == Some(head@),
            None => owner_head(ty@) is None,
        },
{
    match ty {
        Type::Named(name) => Some(name.as_str()),
        Type::Apply { callee, .. } => {
            assert(owner_head(ty@) == (match callee@ {
                SpecType::Named(name) => Some(name),
                _ => None,
            }));
            match &**callee {
                Type::Named(name) => Some(name.as_str()),
                _ => None,
            }
        },
        _ => None,
    }
}

/// The number of type arguments of a builtin owner.
pub open spec fn owner_arity(name: Seq<char>) -> Option<usize> {
    if name == "Array"@ || name == "Set"@ {
        Some(1)
    } else if name == "Map"@ || name == "Result"@ {
        Some(2)
    } else if name == "Bool"@ || name == "Float"@ || name == "Int"@ || name == "Text"@ {
        Some(0)
    } else {
        None
    }
}

/// The number of type arguments of a builtin owner.
pub fn builtin_owner_arity(name: &str) -> (arity: Option<usize>)
    ensures
        arity == owner_arity(name@),
{
    if same_text(name, "Array") || same_text(name, "Set") {
        Some(1)
    } else if same_text(name, "Map") || same_text(name, "Result") {
        Some(2)
    } else if same_text(name, "Bool") || same_text(name, "Float") || same_text(name, "Int")
        || same_text(name, "Text") {
        Some(0)
    } else {
        None
    }
}

/// Whether two owner patterns may admit a common receiver.
pub open spec fn patterns_overlap(left: SpecType, right: SpecType) -> bool
    decreases left,
{
    match (left, right) {
        (SpecType::Variable(_), _) => true,
        (_, SpecType::Variable(_)) => true,
        (
            SpecType::Apply { callee: left_callee, args: left_args },
            SpecType::Apply { callee: right_callee, args: right_args },
        ) => patterns_overlap(*left_callee, *right_callee) && all_overlap(left_args, right_args),
        (SpecType::Optional(left), SpecType::Optional(right)) => patterns_overlap(*left, *right),
        (SpecType::Nullable(left), SpecType::Nullable(right)) => patterns_overlap(*left, *right),
        (SpecType::Tuple(left), SpecType::Tuple(right)) => all_overlap(left, right),
        _ => left == right,
    }
}

pub open spec fn all_overlap(left: Seq<SpecType>, right: Seq<SpecType>) -> bool
    decreases left,
{
    &&& left.len() == right.len()
    &&& forall|i: int| 0 <= i < left.len() ==> patterns_overlap(#[trigger] left[i], right[i])
}

/// Whether two owner patterns may admit a common receiver.
pub fn builtin_owner_patterns_overlap(left: &Type, right: &Type) -> (overlap: bool)
    ensures
        overlap == patterns_overlap(left@, right@),
    decreases left,
{
    match (left, right) {
        (Type::Variable(_), _) => true,
        (_, Type::Variable(_)) => true,
        (
            Type::Apply { callee: left_callee, args: left_args },
            Type::Apply { callee: right_callee, args: right_args },
        ) => builtin_owner_patterns_overlap(left_callee, right_callee)
            && builtin_owner_patterns_all_overlap(left_args, right_args),
        (Type::Optional(left), Type::Optional(right)) => builtin_owner_patterns_overlap(
            left,
            right,
        ),
        (Type::Nullable(left), Type::Nullable(right)) => builtin_owner_patterns_overlap(
            left,
            right,
        ),
        (Type::Tuple(left), Type::Tuple(right)) => builtin_owner_patterns_all_overlap(left, right),
        _ => *left == *right,
    }
}

fn builtin_owner_patterns_all_overlap(left: &Vec<Type>, right: &Vec<Type>) -> (overlap: bool)
    ensures
        overlap == all_overlap(types_view(left@), types_view(right@)),
    decreases left,
{
    if left.len() != right.len() {
        return false;
    }
    let ghost lefts = types_view(left@);
    let ghost rights = types_view(right@);
    let mut index: usize = 0;
    while index < left.len()
        invariant
            index <= left.len(),
            left.len() == right.len(),
            lefts == types_view(left@),
            rights == types_view(right@),
            forall|i: int| 0 <= i < index ==> patterns_overlap(#[trigger] lefts[i], rights[i]),
        decreases left.len() - index,
    {
        assert(lefts[index as int] == left@[index as int]@);
        assert(rights[index as int] == right@[index as int]@);
        if !builtin_owner_patterns_overlap(&left[index], &right[index]) {
            return false;
        }
        index += 1;
    }
    true
}

/// Two owner patterns that admit one receiver overlap.
pub proof fn common_receiver_means_overlap(
    left: SpecType,
    right: SpecType,
    receiver: SpecType,
    left_variables: Set<Seq<char>>,
    right_variables: Set<Seq<char>>,
)
    requires
        admits(left, receiver, left_variables),
        admits(right, receiver, right_variables),
    ensures
        patterns_overlap(left, right),
{
    let left_bindings = choose|bindings: Bindings|
        pattern_matches(left, receiver, left_variables, bindings);
    let right_bindings = choose|bindings: Bindings|
        pattern_matches(right, receiver, right_variables, bindings);
    matches_overlap(
        left,
        right,
        receiver,
        left_variables,
        right_variables,
        left_bindings,
        right_bindings,
    );
}

proof fn matches_overlap(
    left: SpecType,
    right: SpecType,
    receiver: SpecType,
    left_variables: Set<Seq<char>>,
    right_variables: Set<Seq<char>>,
    left_bindings: Bindings,
    right_bindings: Bindings,
)
    requires
        pattern_matches(left, receiver, left_variables, left_bindings),
        pattern_matches(right, receiver, right_variables, right_bindings),
    ensures
        patterns_overlap(left, right),
    decreases left,
{
    match (left, right) {
        (
            SpecType::Apply { callee: left_callee, args: left_args },
            SpecType::Apply { callee: right_callee, args: right_args },
        ) => {
            let callee = *receiver->Apply_callee;
            let args = receiver->Apply_args;
            matches_overlap(
                *left_callee,
                *right_callee,
                callee,
                left_variables,
                right_variables,
                left_bindings,
                right_bindings,
            );
            all_matches_overlap(
                left_args,
                right_args,
                args,
                left_variables,
                right_variables,
                left_bindings,
                right_bindings,
            );
        },
        (SpecType::Optional(left_inner), SpecType::Optional(right_inner)) => {
            matches_overlap(
                *left_inner,
                *right_inner,
                *receiver->Optional_0,
                left_variables,
                right_variables,
                left_bindings,
                right_bindings,
            );
        },
        (SpecType::Nullable(left_inner), SpecType::Nullable(right_inner)) => {
            matches_overlap(
                *left_inner,
                *right_inner,
                *receiver->Nullable_0,
                left_variables,
                right_variables,
                left_bindings,
                right_bindings,
            );
        },
        (SpecType::Tuple(left_items), SpecType::Tuple(right_items)) => {
            all_matches_overlap(
                left_items,
                right_items,
                receiver->Tuple_0,
                left_variables,
                right_variables,
                left_bindings,
                right_bindings,
            );
        },
        _ => {},
    }
}

proof fn all_matches_overlap(
    left: Seq<SpecType>,
    right: Seq<SpecType>,
    receivers: Seq<SpecType>,
    left_variables: Set<Seq<char>>,
    right_variables: Set<Seq<char>>,
    left_bindings: Bindings,
    right_bindings: Bindings,
)
    requires
        patterns_match(left, receivers, left_variables, left_bindings),
        patterns_match(right, receivers, right_variables, right_bindings),
    ensures
        all_overlap(left, right),
    decreases left,
{
    assert forall|i: int| 0 <= i < left.len() implies patterns_overlap(
        #[trigger] left[i],
        right[i],
    ) by {
        assert(pattern_matches(left[i], receivers[i], left_variables, left_bindings));
        assert(pattern_matches(right[i], receivers[i], right_variables, right_bindings));
        matches_overlap(
            left[i],
            right[i],
            receivers[i],
            left_variables,
            right_variables,
            left_bindings,
            right_bindings,
        );
    }
}

/// Overlap of owner patterns does not depend on their order.
pub proof fn overlap_is_symmetric(left: SpecType, right: SpecType)
    ensures
        patterns_overlap(left, right) == patterns_overlap(right, left),
    decreases left,
{
    match (left, right) {
        (
            SpecType::Apply { callee: left_callee, args: left_args },
            SpecType::Apply { callee: right_callee, args: right_args },
        ) => {
            overlap_is_symmetric(*left_callee, *right_callee);
            all_overlap_is_symmetric(left_args, right_args);
        },
        (SpecType::Optional(left_inner), SpecType::Optional(right_inner)) => {
            overlap_is_symmetric(*left_inner, *right_inner);
        },
        (SpecType::Nullable(left_inner), SpecType::Nullable(right_inner)) => {
            overlap_is_symmetric(*left_inner, *right_inner);
        },
        (SpecType::Tuple(left_items), SpecType::Tuple(right_items)) => {
            all_overlap_is_symmetric(left_items, right_items);
        },
        _ => {},
    }
}

proof fn all_overlap_is_symmetric(left: Seq<SpecType>, right: Seq<SpecType>)
    ensures
        all_overlap(left, right) == all_overlap(right, left),
    decreases left,
{
    if left.len() == right.len() {
        assert forall|i: int| 0 <= i < left.len() implies patterns_overlap(left[i], right[i])
            == patterns_overlap(right[i], left[i]) by {
            overlap_is_symmetric(left[i], right[i]);
        }
        if all_overlap(left, right) {
            assert forall|i: int| 0 <= i < right.len() implies patterns_overlap(
                #[trigger] right[i],
                left[i],
            ) by {
                assert(patterns_overlap(left[i], right[i]));
            }
        }
        if all_overlap(right, left) {
            assert forall|i: int| 0 <= i < left.len() implies patterns_overlap(
                #[trigger] left[i],
                right[i],
            ) by {
                assert(patterns_overlap(right[i], left[i]));
            }
        }
    }
}

/// The names of the methods that the collection types and `Text` have of
/// themselves.
#[derive(Debug)]
pub struct IntrinsicMethodNames {
    pub array: Vec<String>,
    pub map: Vec<String>,
    pub set: Vec<String>,
    pub text: Vec<String>,
}

/// The type of arrays of texts.
pub open spec fn text_array() -> SpecType {
    SpecType::Apply {
        callee: Box::new(SpecType::Named("Array"@)),
        args: seq![SpecType::Named("Text"@)],
    }
}

/// Whether an owner has a method of the given name of itself.
pub open spec fn intrinsic_collides(
    owner: SpecType,
    member: Seq<char>,
    names: IntrinsicMethodNames,
) -> bool {
    match owner_head(owner) {
        Some(head) => if head == "Array"@ {
            texts_view(names.array@).contains(member) || (member == "joinWith"@
                && patterns_overlap(owner, text_array()))
        } else if head == "Map"@ {
            texts_view(names.map@).contains(member)
        } else if head == "Set"@ {
            texts_view(names.set@).contains(member)
        } else if head == "Text"@ {
            texts_view(names.text@).contains(member)
        } else if head == "Bool"@ || head == "Float"@ || head == "Int"@ {
            builtin_signature(owner, member) is Some
        } else {
            false
        },
        None => false,
    }
}

/// Whether an attached method would collide with one that its owner has of
/// itself.
pub fn intrinsic_builtin_method_collides(
    owner: &Type,
    member: &str,
    names: &IntrinsicMethodNames,
) -> (collides: bool)
    ensures
        collides == intrinsic_collides(owner@, member@, *names),
{
    let head = match builtin_owner_head(owner) {
        Some(head) => head,
        None => {
            return false;
        },
    };
    if same_text(head, "Array") {
        if texts_contain(&names.array, member) {
            return true;
        }
        if !same_text(member, "joinWith") {
            return false;
        }
        let mut args: Vec<Type> = Vec::new();
        args.push(named_builtin("Text"));
        assert(types_view(args@) =~= seq![SpecType::Named("Text"@)]);
        let texts = Type::Apply { callee: Box::new(named_builtin("Array")), args };
        builtin_owner_patterns_overlap(owner, &texts)
    } else if same_text(head, "Map") {
        texts_contain(&names.map, member)
    } else if same_text(head, "Set") {
        texts_contain(&names.set, member)
    } else if same_text(head, "Text") {
        texts_contain(&names.text, member)
    } else if same_text(head, "Bool") || same_text(head, "Float") || same_text(head, "Int") {
        builtin_method_signature(owner, member).is_some()
    } else {
        false
    }
}

/// Whether a type can be the base of a primitive family: a scalar builtin, or a
/// builtin container applied to resolved types.
pub open spec fn base_is_supported(base: SpecType) -> bool {
    match base {
        SpecType::Named(name) => name == "Int"@ || name == "Float"@ || name == "Text"@ || name
            == "Bool"@,
        SpecType::Apply { callee, args } => {
            let arity = if *callee == SpecType::Named("Array"@) || *callee == SpecType::Named(
                "Set"@,
            ) {
                1int
            } else if *callee == SpecType::Named("Map"@) {
                2int
            } else {
                -1int
            };
            args.len() == arity && resolved(base)
        },
        _ => false,
    }
}

/// Whether a type can be the base of a primitive family.
pub fn primitive_family_base_is_supported(base: &Type) -> (supported: bool)
    ensures
        supported == base_is_supported(base@),
{
    match base {
        Type::Named(name) => same_text(name.as_str(), "Int") || same_text(name.as_str(), "Float")
            || same_text(name.as_str(), "Text") || same_text(name.as_str(), "Bool"),
        Type::Apply { callee, args } => {
            assert(types_view(args@).len() == args.len());
            let expected_arity: usize = if is_named(callee, "Array") || is_named(callee, "Set") {
                1
            } else if is_named(callee, "Map") {
                2
            } else {
                return false;
            };
            args.len() == expected_arity && is_resolved_value_type(base)
        },
        _ => false,
    }
}

} // verus!
