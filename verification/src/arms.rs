//! The arms of a match: the names that they bind and the type that they produce.
use crate::collections::{increasing, insert_name, StringMap};
use crate::comparison::pairs_view;
use crate::matches::{
    no_arms, union_match_variant_arm_body_types, union_type, with_arm, ArmUnion, SpecArmUnion,
};
use crate::patterns::{
    collect_known_pattern_types, flatten_or_alternatives, or_alternatives, pattern_types,
};
use crate::rows::{all_know, merged_or_pattern_local_type, LocalValueType};
use crate::syntax::{exprs_view, is_union, Expr, ExprKind, MatchArm};
use crate::text::texts_view;
use crate::type_ops::{is_resolved_value_type, resolved, type_map_view};
use crate::types::{SpecType, Type};
use vstd::prelude::*;

verus! {

// ---------------------------------------------------------------------------
// Names that patterns bind
// ---------------------------------------------------------------------------
/// The types that a pattern gives names, if the type of its subject is known.
pub open spec fn expected_types(
    definitions: Map<Seq<char>, SpecType>,
    pattern: Expr,
    expected: Option<SpecType>,
) -> Map<Seq<char>, SpecType> {
    match expected {
        Some(expected) => pattern_types(definitions, pattern, expected, Map::empty()),
        None => Map::empty(),
    }
}

/// Whether a name is given the type that is known of it.
pub open spec fn is_known_local(
    known: Map<Seq<char>, SpecType>,
    name: Seq<char>,
    local: LocalValueType,
) -> bool {
    if known.contains_key(name) {
        local is Known && local->Known_0@ == known[name]
    } else {
        local is Unknown
    }
}

/// Whether names are bound in order, each with the type that is known of it.
pub open spec fn are_known_locals(
    known: Map<Seq<char>, SpecType>,
    names: Seq<Seq<char>>,
    locals: Seq<(String, LocalValueType)>,
) -> bool {
    &&& locals.len() == names.len()
    &&& forall|i: int|
        0 <= i < locals.len() ==> (#[trigger] locals[i]).0@ == names[i] && is_known_local(
            known,
            names[i],
            locals[i].1,
        )
}

fn known_types(
    definitions: &StringMap<Type>,
    pattern: &Expr,
    expected: Option<&Type>,
) -> (known: StringMap<Type>)
    ensures
        type_map_view(known@) == expected_types(
            type_map_view(definitions@),
            *pattern,
            match expected {
                Some(expected) => Some(expected@),
                None => None,
            },
        ),
{
    let mut known: StringMap<Type> = StringMap::new();
    assert(type_map_view(known@) =~= Map::empty());
    if let Some(expected) = expected {
        collect_known_pattern_types(definitions, pattern, expected, &mut known);
    }
    known
}

fn local_of(known: &StringMap<Type>, name: &str) -> (local: LocalValueType)
    ensures
        is_known_local(type_map_view(known@), name@, local),
{
    match known.get(name) {
        Some(ty) => LocalValueType::Known(ty.clone()),
        None => LocalValueType::Unknown,
    }
}

/// The names that a pattern without alternatives binds, with what is known of their
/// types. `names` lists them in order.
pub fn single_pattern_local_types(
    definitions: &StringMap<Type>,
    pattern: &Expr,
    expected: Option<&Type>,
    names: &Vec<String>,
) -> (locals: Vec<(String, LocalValueType)>)
    ensures
        are_known_locals(
            expected_types(
                type_map_view(definitions@),
                *pattern,
                match expected {
                    Some(expected) => Some(expected@),
                    None => None,
                },
            ),
            texts_view(names@),
            locals@,
        ),
{
    let known = known_types(definitions, pattern, expected);
    let mut locals: Vec<(String, LocalValueType)> = Vec::new();
    let mut index: usize = 0;
    while index < names.len()
        invariant
            index <= names.len(),
            locals.len() == index,
            forall|i: int|
                0 <= i < index ==> (#[trigger] locals@[i]).0@ == names@[i]@ && is_known_local(
                    type_map_view(known@),
                    names@[i]@,
                    locals@[i].1,
                ),
        decreases names.len() - index,
    {
        let local = local_of(&known, names[index].as_str());
        locals.push((names[index].clone(), local));
        index += 1;
    }
    locals
}

/// Whether an alternative binds a name and knows its type.
pub open spec fn alternative_knows(
    known: Map<Seq<char>, SpecType>,
    names: Seq<Seq<char>>,
    name: Seq<char>,
    ty: SpecType,
) -> bool {
    names.contains(name) && known.contains_key(name) && known[name] == ty
}

/// What an alternative of a pattern binds, by name.
fn single_pattern_local_type_map(
    definitions: &StringMap<Type>,
    pattern: &Expr,
    expected: Option<&Type>,
    names: &Vec<String>,
) -> (map: StringMap<LocalValueType>)
    ensures
        forall|name: Seq<char>, ty: SpecType| #[trigger]
            crate::rows::knows(map@, name, ty) == alternative_knows(
                expected_types(
                    type_map_view(definitions@),
                    *pattern,
                    match expected {
                        Some(expected) => Some(expected@),
                        None => None,
                    },
                ),
                texts_view(names@),
                name,
                ty,
            ),
{
    let known = known_types(definitions, pattern, expected);
    let ghost types = type_map_view(known@);
    let ghost all = texts_view(names@);
    let mut map: StringMap<LocalValueType> = StringMap::new();
    let mut index: usize = 0;
    while index < names.len()
        invariant
            index <= names.len(),
            all == texts_view(names@),
            types == type_map_view(known@),
            forall|name: Seq<char>| #[trigger]
                map@.contains_key(name) == all.take(index as int).contains(name),
            forall|name: Seq<char>|
                map@.contains_key(name) ==> is_known_local(types, name, #[trigger] map@[name]),
        decreases names.len() - index,
    {
        let ghost before = map@;
        let local = local_of(&known, names[index].as_str());
        map.insert(names[index].clone(), local);
        assert forall|name: Seq<char>| #[trigger] map@.contains_key(name) == all.take(
            index + 1,
        ).contains(name) by {
            let shorter = all.take(index as int);
            let longer = all.take(index + 1);
            assert(longer =~= shorter.push(all[index as int]));
            assert(before.contains_key(name) == shorter.contains(name));
            if shorter.contains(name) {
                let i = choose|i: int| 0 <= i < shorter.len() && shorter[i] == name;
                assert(longer[i] == name);
            }
            if name == all[index as int] {
                assert(longer[index as int] == name);
            }
        }
        index += 1;
    }
    assert(all.take(all.len() as int) =~= all);
    map
}

/// Whether every alternative of a pattern binds a name with one known type.
pub open spec fn alternatives_know(
    definitions: Map<Seq<char>, SpecType>,
    alternatives: Seq<Expr>,
    expected: Option<SpecType>,
    names: Seq<Vec<String>>,
    name: Seq<char>,
    ty: SpecType,
) -> bool {
    forall|i: int|
        0 <= i < alternatives.len() ==> alternative_knows(
            expected_types(definitions, #[trigger] alternatives[i], expected),
            texts_view(names[i]@),
            name,
            ty,
        )
}

/// Whether a name is given the one type that every alternative knows it by.
pub open spec fn is_merged_local(
    definitions: Map<Seq<char>, SpecType>,
    alternatives: Seq<Expr>,
    expected: Option<SpecType>,
    names: Seq<Vec<String>>,
    name: Seq<char>,
    local: LocalValueType,
) -> bool {
    match local {
        LocalValueType::Known(ty) => alternatives_know(
            definitions,
            alternatives,
            expected,
            names,
            name,
            ty@,
        ),
        LocalValueType::Scheme(_) => false,
        LocalValueType::Unknown => forall|ty: SpecType|
            !#[trigger] alternatives_know(definitions, alternatives, expected, names, name, ty),
    }
}

/// All names that the first alternatives bind.
pub open spec fn all_names(names: Seq<Vec<String>>, count: nat) -> Set<Seq<char>>
    decreases count,
{
    if count == 0 || count > names.len() {
        Set::empty()
    } else {
        all_names(names, (count - 1) as nat).union(texts_view(names[count - 1]@).to_set())
    }
}

/// Whether names are those that a pattern binds, with what is known of their types.
/// A pattern with alternatives binds the names of all of them in order; a name has a
/// known type where every alternative gives it the same one.
pub open spec fn are_pattern_locals(
    definitions: Map<Seq<char>, SpecType>,
    pattern: Expr,
    expected: Option<SpecType>,
    names: Seq<Vec<String>>,
    locals: Seq<(String, LocalValueType)>,
) -> bool {
    let alternatives = or_alternatives(pattern);
    if alternatives.len() == 1 {
        are_known_locals(
            expected_types(definitions, pattern, expected),
            texts_view(names[0]@),
            locals,
        )
    } else {
        let bound = Seq::new(locals.len(), |i: int| locals[i].0@);
        &&& increasing(bound)
        &&& bound.to_set() == all_names(names, names.len())
        &&& forall|i: int|
            0 <= i < locals.len() ==> is_merged_local(
                definitions,
                alternatives,
                expected,
                names,
                (#[trigger] locals[i]).0@,
                locals[i].1,
            )
    }
}

fn insert_all(sorted: &mut Vec<String>, names: &Vec<String>)
    requires
        increasing(texts_view(old(sorted)@)),
    ensures
        increasing(texts_view(final(sorted)@)),
        texts_view(final(sorted)@).to_set() == texts_view(old(sorted)@).to_set().union(
            texts_view(names@).to_set(),
        ),
{
    let ghost before = texts_view(sorted@).to_set();
    let ghost all = texts_view(names@);
    let mut index: usize = 0;
    assert(texts_view(sorted@).to_set() =~= before.union(all.take(0).to_set()));
    while index < names.len()
        invariant
            index <= names.len(),
            all == texts_view(names@),
            increasing(texts_view(sorted@)),
            texts_view(sorted@).to_set() == before.union(all.take(index as int).to_set()),
        decreases names.len() - index,
    {
        let ghost shorter = all.take(index as int);
        let ghost longer = all.take(index + 1);
        insert_name(sorted, names[index].as_str());
        assert(longer =~= shorter.push(all[index as int]));
        assert forall|name: Seq<char>| #[trigger] longer.to_set().contains(name) == (
        shorter.to_set().contains(name) || name == all[index as int]) by {
            if shorter.contains(name) {
                let i = choose|i: int| 0 <= i < shorter.len() && shorter[i] == name;
                assert(longer[i] == name);
            }
            if name == all[index as int] {
                assert(longer[index as int] == name);
            }
        }
        assert(texts_view(sorted@).to_set() =~= before.union(longer.to_set()));
        index += 1;
    }
    assert(all.take(all.len() as int) =~= all);
}

proof fn alternatives_are_some(pattern: Expr)
    ensures
        or_alternatives(pattern).len() > 0,
    decreases pattern,
{
    if is_union(pattern) {
        match pattern.kind {
            ExprKind::Group(inner) => alternatives_are_some(*inner),
            ExprKind::Binary { left, .. } => alternatives_are_some(*left),
            _ => {},
        }
    }
}

/// The names that a pattern binds, with what is known of their types. `names` lists
/// what each alternative binds.
pub fn merged_pattern_local_types(
    definitions: &StringMap<Type>,
    pattern: &Expr,
    expected: Option<&Type>,
    names: &Vec<Vec<String>>,
) -> (locals: Vec<(String, LocalValueType)>)
    requires
        names.len() == or_alternatives(*pattern).len(),
    ensures
        are_pattern_locals(
            type_map_view(definitions@),
            *pattern,
            match expected {
                Some(expected) => Some(expected@),
                None => None,
            },
            names@,
            locals@,
        ),
{
    let ghost wanted: Option<SpecType> = match expected {
        Some(expected) => Some(expected@),
        None => None,
    };
    let ghost known = type_map_view(definitions@);
    let alternatives = flatten_or_alternatives(pattern);
    let ghost all = or_alternatives(*pattern);
    assert(exprs_view(alternatives@).len() == alternatives.len());
    if alternatives.len() == 1 {
        return single_pattern_local_types(definitions, pattern, expected, &names[0]);
    }
    proof {
        alternatives_are_some(*pattern);
    }
    let mut maps: Vec<StringMap<LocalValueType>> = Vec::new();
    let mut sorted: Vec<String> = Vec::new();
    let mut index: usize = 0;
    assert(texts_view(sorted@) =~= Seq::empty());
    assert(texts_view(sorted@).to_set() =~= Set::empty());
    while index < alternatives.len()
        invariant
            index <= alternatives.len(),
            alternatives.len() == names.len(),
            exprs_view(alternatives@) == all,
            known == type_map_view(definitions@),
            wanted == (match expected {
                Some(expected) => Some(expected@),
                None => None,
            }),
            maps.len() == index,
            increasing(texts_view(sorted@)),
            texts_view(sorted@).to_set() == all_names(names@, index as nat),
            forall|i: int, name: Seq<char>, ty: SpecType|
                0 <= i < index ==> #[trigger] crate::rows::knows(maps@[i]@, name, ty)
                    == alternative_knows(
                    expected_types(known, all[i], wanted),
                    texts_view(names@[i]@),
                    name,
                    ty,
                ),
        decreases alternatives.len() - index,
    {
        assert(all[index as int] == *alternatives@[index as int]);
        let map = single_pattern_local_type_map(
            definitions,
            alternatives[index],
            expected,
            &names[index],
        );
        maps.push(map);
        insert_all(&mut sorted, &names[index]);
        assert(all_names(names@, (index + 1) as nat) == all_names(names@, index as nat).union(
            texts_view(names@[index as int]@).to_set(),
        ));
        index += 1;
    }
    let ghost bound = texts_view(sorted@);
    let mut locals: Vec<(String, LocalValueType)> = Vec::new();
    let mut position: usize = 0;
    while position < sorted.len()
        invariant
            position <= sorted.len(),
            bound == texts_view(sorted@),
            locals.len() == position,
            maps.len() == all.len(),
            all.len() > 0,
            names.len() == all.len(),
            forall|i: int, name: Seq<char>, ty: SpecType|
                0 <= i < all.len() ==> #[trigger] crate::rows::knows(maps@[i]@, name, ty)
                    == alternative_knows(
                    expected_types(known, all[i], wanted),
                    texts_view(names@[i]@),
                    name,
                    ty,
                ),
            forall|i: int|
                0 <= i < position ==> (#[trigger] locals@[i]).0@ == bound[i] && is_merged_local(
                    known,
                    all,
                    wanted,
                    names@,
                    bound[i],
                    locals@[i].1,
                ),
        decreases sorted.len() - position,
    {
        let name = sorted[position].as_str();
        let local = merged_or_pattern_local_type(name, &maps);
        assert forall|ty: SpecType| #[trigger]
            alternatives_know(known, all, wanted, names@, name@, ty) == all_know(
                maps@,
                name@,
                ty,
            ) by {
            if all_know(maps@, name@, ty) {
                assert forall|i: int| 0 <= i < all.len() implies alternative_knows(
                    expected_types(known, #[trigger] all[i], wanted),
                    texts_view(names@[i]@),
                    name@,
                    ty,
                ) by {
                    assert(crate::rows::knows(maps@[i]@, name@, ty));
                }
            }
            if alternatives_know(known, all, wanted, names@, name@, ty) {
                assert forall|i: int| 0 <= i < maps@.len() implies crate::rows::knows(
                    (#[trigger] maps@[i])@,
                    name@,
                    ty,
                ) by {
                    assert(alternative_knows(
                        expected_types(known, all[i], wanted),
                        texts_view(names@[i]@),
                        name@,
                        ty,
                    ));
                }
            }
        }
        locals.push((sorted[position].clone(), local));
        position += 1;
    }
    assert(Seq::new(locals@.len(), |i: int| locals@[i].0@) =~= bound);
    locals
}

// ---------------------------------------------------------------------------
// What a match produces
// ---------------------------------------------------------------------------
/// What the arms of a match produce together.
#[derive(Debug)]
pub enum MatchArmCombination {
    /// They produce one type.
    Joined(Type),
    /// An arm does not go together with those before it.
    Conflict { earlier: Type, arm: usize },
}

/// What the arms of a match produce together.
pub ghost enum SpecCombination {
    Joined(SpecType),
    Conflict { earlier: SpecType, arm: nat },
}

impl MatchArmCombination {
    pub open spec fn view(&self) -> SpecCombination {
        match *self {
            MatchArmCombination::Joined(ty) => SpecCombination::Joined(ty@),
            MatchArmCombination::Conflict { earlier, arm } => SpecCombination::Conflict {
                earlier: earlier@,
                arm: arm as nat,
            },
        }
    }
}

/// The body of an arm, as it is found when it is reached.
#[derive(Debug)]
pub struct ArmBody {
    /// Its type, resolved.
    pub ty: Type,
    /// Whether its payloads unify with those of the arms before it.
    pub payloads_fit: bool,
    /// Whether its type unifies with the type that the arms before it produce.
    pub fits: bool,
    /// The type that the arms up to it produce, resolved.
    pub result: Type,
}

/// The union of the variants that the first arms produce.
pub ghost enum SpecUnionState {
    /// An arm produces no variant.
    NoVariants,
    Union(SpecArmUnion),
    Conflict { earlier: SpecType, arm: nat },
}

/// The union of the variants that the first arms produce. Nothing after the first
/// arm that does not go with the others is looked at.
pub open spec fn union_after(bodies: Seq<ArmBody>, count: nat) -> SpecUnionState
    decreases count,
{
    if count == 0 || count > bodies.len() {
        SpecUnionState::Union(no_arms())
    } else {
        match union_after(bodies, (count - 1) as nat) {
            SpecUnionState::Union(union) => match bodies[count - 1].ty@ {
                SpecType::Variant(row) => match with_arm(union, row) {
                    Some((longer, goals)) => if bodies[count - 1].payloads_fit || goals.len()
                        == 0 {
                        SpecUnionState::Union(longer)
                    } else {
                        SpecUnionState::Conflict {
                            earlier: union_type(union),
                            arm: (count - 1) as nat,
                        }
                    },
                    None => SpecUnionState::Conflict {
                        earlier: union_type(union),
                        arm: (count - 1) as nat,
                    },
                },
                _ => SpecUnionState::NoVariants,
            },
            stopped => stopped,
        }
    }
}

proof fn stopped_unions_stay(bodies: Seq<ArmBody>, few: nat, many: nat)
    requires
        few <= many <= bodies.len(),
        !(union_after(bodies, few) is Union),
    ensures
        union_after(bodies, many) == union_after(bodies, few),
    decreases many,
{
    if few < many {
        stopped_unions_stay(bodies, few, (many - 1) as nat);
    }
}

/// Unite the variants that arms produce; nothing where an arm produces no variant.
pub fn united_arms(bodies: &Vec<ArmBody>) -> (combination: Option<MatchArmCombination>)
    ensures
        match union_after(bodies@, bodies@.len()) {
            SpecUnionState::NoVariants => combination is None,
            SpecUnionState::Union(union) => combination is Some && combination->0@
                == SpecCombination::Joined(union_type(union)),
            SpecUnionState::Conflict { earlier, arm } => combination is Some && combination->0@
                == (SpecCombination::Conflict { earlier, arm }),
        },
{
    let mut union = ArmUnion::new();
    let mut index: usize = 0;
    while index < bodies.len()
        invariant
            index <= bodies.len(),
            union_after(bodies@, index as nat) == SpecUnionState::Union(union@),
        decreases bodies.len() - index,
    {
        let body = &bodies[index];
        let ghost so_far = union@;
        proof {
            if !(union_after(bodies@, (index + 1) as nat) is Union) {
                stopped_unions_stay(bodies@, (index + 1) as nat, bodies@.len());
            }
        }
        match &body.ty {
            Type::Variant(row) => {
                assert(body.ty@ == SpecType::Variant(row@));
                let earlier = union.to_type();
                match union_match_variant_arm_body_types(union, row) {
                    Some((longer, goals)) => {
                        assert(pairs_view(goals@).len() == goals.len());
                        if !body.payloads_fit && goals.len() > 0 {
                            return Some(MatchArmCombination::Conflict { earlier, arm: index });
                        }
                        union = longer;
                    },
                    None => {
                        return Some(MatchArmCombination::Conflict { earlier, arm: index });
                    },
                }
            },
            _ => {
                assert(!(body.ty@ is Variant));
                return None;
            },
        }
        index += 1;
    }
    Some(MatchArmCombination::Joined(union.to_type()))
}

/// The first arm whose type does not unify with that of the arms before it.
pub open spec fn first_unfit(bodies: Seq<ArmBody>, from: int) -> Option<int>
    decreases bodies.len() - from,
{
    if from < 0 || from >= bodies.len() {
        None
    } else if !bodies[from].fits {
        Some(from)
    } else {
        first_unfit(bodies, from + 1)
    }
}

/// What arms produce whose types must all be one. `fresh` is the type of the match
/// before any arm is looked at.
pub open spec fn unified(bodies: Seq<ArmBody>, fresh: SpecType) -> SpecCombination {
    match first_unfit(bodies, 0) {
        Some(arm) => SpecCombination::Conflict {
            earlier: if arm == 0 {
                fresh
            } else {
                bodies[arm - 1].result@
            },
            arm: arm as nat,
        },
        None => SpecCombination::Joined(fresh),
    }
}

/// Unify the types that arms produce.
pub fn unify_match_arm_body_types(bodies: &Vec<ArmBody>, fresh: Type) -> (combination:
    MatchArmCombination)
    ensures
        combination@ == unified(bodies@, fresh@),
{
    let mut index: usize = 0;
    while index < bodies.len()
        invariant
            index <= bodies.len(),
            first_unfit(bodies@, 0) == first_unfit(bodies@, index as int),
        decreases bodies.len() - index,
    {
        if !bodies[index].fits {
            let earlier = if index == 0 {
                fresh
            } else {
                bodies[index - 1].result.clone()
            };
            return MatchArmCombination::Conflict { earlier, arm: index };
        }
        index += 1;
    }
    MatchArmCombination::Joined(fresh)
}

/// What the arms of a match produce together: the union of their variants where all
/// produce variants, and otherwise one type.
pub open spec fn combined(bodies: Seq<ArmBody>, fresh: SpecType) -> SpecCombination {
    match union_after(bodies, bodies.len()) {
        SpecUnionState::NoVariants => unified(bodies, fresh),
        SpecUnionState::Union(union) => SpecCombination::Joined(union_type(union)),
        SpecUnionState::Conflict { earlier, arm } => SpecCombination::Conflict { earlier, arm },
    }
}

/// Find what the arms of a match produce together.
pub fn combine_match_arm_body_types(bodies: &Vec<ArmBody>, fresh: Type) -> (combination:
    MatchArmCombination)
    ensures
        combination@ == combined(bodies@, fresh@),
{
    match united_arms(bodies) {
        Some(combination) => combination,
        None => unify_match_arm_body_types(bodies, fresh),
    }
}

/// Whether arms that do not go together are an error: at least two of them are there,
/// none is selected at compile time and none may be once parameters have values.
pub open spec fn compares_results(arm_count: nat, selected: bool, depends: bool) -> bool {
    arm_count >= 2 && !selected && !depends
}

/// Whether two types that arms produce are both known, so that their difference is an
/// error.
pub fn report_incompatible_match_arm_results(
    arm_count: usize,
    selected: bool,
    depends_on_parameter: bool,
    earlier: &Type,
    diverging: &Type,
) -> (reported: bool)
    ensures
        reported == (compares_results(arm_count as nat, selected, depends_on_parameter) && resolved(
            earlier@,
        ) && resolved(diverging@)),
{
    arm_count >= 2 && !selected && !depends_on_parameter && is_resolved_value_type(earlier)
        && is_resolved_value_type(diverging)
}

/// How a match gets its type.
#[derive(Debug, Clone, Copy, PartialEq, Eq, Structural)]
pub enum MatchPlan {
    /// There are no arms.
    Deferred,
    /// One arm is selected at compile time: its body alone counts.
    Selected(usize),
    /// All arms count.
    All,
}

/// Decide how a match gets its type.
pub fn infer_match(arm_count: usize, selected: Option<usize>) -> (plan: MatchPlan)
    ensures
        plan == if arm_count == 0 {
            MatchPlan::Deferred
        } else {
            match selected {
                Some(arm) => MatchPlan::Selected(arm),
                None => MatchPlan::All,
            }
        },
{
    if arm_count == 0 {
        MatchPlan::Deferred
    } else {
        match selected {
            Some(arm) => MatchPlan::Selected(arm),
            None => MatchPlan::All,
        }
    }
}

/// The type of a match whose arms all count; nothing is known where they conflict, and
/// what was found out meanwhile is forgotten.
pub fn matched_type(combination: MatchArmCombination) -> (ty: Type)
    ensures
        ty@ == match combination@ {
            SpecCombination::Joined(joined) => joined,
            SpecCombination::Conflict { .. } => SpecType::Deferred,
        },
{
    match combination {
        MatchArmCombination::Joined(joined) => joined,
        MatchArmCombination::Conflict { .. } => Type::Deferred,
    }
}

// ---------------------------------------------------------------------------
// Checking a match
// ---------------------------------------------------------------------------
/// A step of checking a match.
#[derive(Debug)]
pub enum MatchStep<'a> {
    /// The subject is checked, and the patterns are held against its type.
    Subject(&'a Expr),
    /// The names of a pattern are bound.
    Open(&'a Expr),
    /// A guard must be a `Bool`.
    Guard(&'a Expr),
    /// A body is held against the expected type.
    CheckAgainst(&'a Expr),
    /// A body is checked, and its type is kept.
    CheckBody(&'a Expr),
    /// The names of the pattern are forgotten.
    Close,
    /// The types of the bodies are compared.
    CompareResults,
}

/// A step of checking a match.
pub ghost enum SpecMatchStep {
    Subject(Expr),
    Open(Expr),
    Guard(Expr),
    CheckAgainst(Expr),
    CheckBody(Expr),
    Close,
    CompareResults,
}

impl<'a> MatchStep<'a> {
    pub open spec fn view(&self) -> SpecMatchStep {
        match *self {
            MatchStep::Subject(expr) => SpecMatchStep::Subject(*expr),
            MatchStep::Open(expr) => SpecMatchStep::Open(*expr),
            MatchStep::Guard(expr) => SpecMatchStep::Guard(*expr),
            MatchStep::CheckAgainst(expr) => SpecMatchStep::CheckAgainst(*expr),
            MatchStep::CheckBody(expr) => SpecMatchStep::CheckBody(*expr),
            MatchStep::Close => SpecMatchStep::Close,
            MatchStep::CompareResults => SpecMatchStep::CompareResults,
        }
    }
}

pub open spec fn match_steps_view(steps: Seq<MatchStep<'_>>) -> Seq<SpecMatchStep> {
    Seq::new(steps.len(), |i: int| steps[i]@)
}

/// The steps for an arm: its names are bound while its guards and its body are
/// checked.
pub open spec fn arm_steps(arm: MatchArm, expected: bool) -> Seq<SpecMatchStep> {
    seq![SpecMatchStep::Open(*arm.pattern)] + Seq::new(
        arm.guards@.len(),
        |i: int| SpecMatchStep::Guard(arm.guards@[i]),
    ) + seq![
        if expected {
            SpecMatchStep::CheckAgainst(*arm.body)
        } else {
            SpecMatchStep::CheckBody(*arm.body)
        },
        SpecMatchStep::Close,
    ]
}

/// The steps for the first arms of a match.
pub open spec fn arms_steps(arms: Seq<MatchArm>, expected: bool, count: nat) -> Seq<SpecMatchStep>
    decreases count,
{
    if count == 0 || count > arms.len() {
        Seq::empty()
    } else {
        arms_steps(arms, expected, (count - 1) as nat) + arm_steps(arms[count - 1], expected)
    }
}

/// The steps of checking a match.
pub open spec fn checking_steps(subject: Expr, arms: Seq<MatchArm>, expected: bool) -> Seq<
    SpecMatchStep,
> {
    seq![SpecMatchStep::Subject(subject)] + arms_steps(arms, expected, arms.len()) + if expected {
        Seq::empty()
    } else {
        seq![SpecMatchStep::CompareResults]
    }
}

fn take_step<'a>(steps: &mut Vec<MatchStep<'a>>, step: MatchStep<'a>)
    ensures
        match_steps_view(final(steps)@) == match_steps_view(old(steps)@).push(step@),
{
    steps.push(step);
    assert(match_steps_view(steps@) =~= match_steps_view(old(steps)@).push(step@));
}

/// List the steps of checking a match, with or without an expected type.
pub fn check_match_arms<'a>(subject: &'a Expr, arms: &'a Vec<MatchArm>, expected: bool) -> (steps:
    Vec<MatchStep<'a>>)
    ensures
        match_steps_view(steps@) == checking_steps(*subject, arms@, expected),
{
    let mut steps: Vec<MatchStep<'a>> = Vec::new();
    assert(match_steps_view(steps@) =~= Seq::empty());
    take_step(&mut steps, MatchStep::Subject(subject));
    let ghost first = seq![SpecMatchStep::Subject(*subject)];
    assert(match_steps_view(steps@) =~= first + arms_steps(arms@, expected, 0));
    let mut index: usize = 0;
    while index < arms.len()
        invariant
            index <= arms.len(),
            match_steps_view(steps@) == first + arms_steps(arms@, expected, index as nat),
        decreases arms.len() - index,
    {
        let arm = &arms[index];
        let ghost before = match_steps_view(steps@);
        let ghost opened = before.push(SpecMatchStep::Open(*arm.pattern));
        let ghost guards = Seq::new(
            arm.guards@.len(),
            |i: int| SpecMatchStep::Guard(arm.guards@[i]),
        );
        take_step(&mut steps, MatchStep::Open(&arm.pattern));
        let mut guard: usize = 0;
        assert(opened =~= opened + guards.take(0));
        while guard < arm.guards.len()
            invariant
                guard <= arm.guards.len(),
                guards == Seq::new(
                    arm.guards@.len(),
                    |i: int| SpecMatchStep::Guard(arm.guards@[i]),
                ),
                match_steps_view(steps@) == opened + guards.take(guard as int),
            decreases arm.guards.len() - guard,
        {
            take_step(&mut steps, MatchStep::Guard(&arm.guards[guard]));
            assert(match_steps_view(steps@) =~= opened + guards.take(guard + 1));
            guard += 1;
        }
        assert(guards.take(guards.len() as int) =~= guards);
        if expected {
            take_step(&mut steps, MatchStep::CheckAgainst(&arm.body));
        } else {
            take_step(&mut steps, MatchStep::CheckBody(&arm.body));
        }
        take_step(&mut steps, MatchStep::Close);
        assert(match_steps_view(steps@) =~= before + arm_steps(arms@[index as int], expected));
        assert(match_steps_view(steps@) =~= first + arms_steps(
            arms@,
            expected,
            (index + 1) as nat,
        ));
        index += 1;
    }
    if !expected {
        take_step(&mut steps, MatchStep::CompareResults);
    }
    assert(match_steps_view(steps@) =~= checking_steps(*subject, arms@, expected));
    steps
}

// ---------------------------------------------------------------------------
// Laws
// ---------------------------------------------------------------------------
/// A single arm that produces no variant does not conflict with anything.
pub proof fn single_arms_do_not_conflict(bodies: Seq<ArmBody>, fresh: SpecType)
    requires
        bodies.len() == 1,
        bodies[0].fits,
        !(bodies[0].ty@ is Variant),
    ensures
        combined(bodies, fresh) == SpecCombination::Joined(fresh),
{
    assert(union_after(bodies, 0) == SpecUnionState::Union(no_arms()));
    assert(union_after(bodies, 1) == SpecUnionState::NoVariants);
    assert(first_unfit(bodies, 1) is None);
}

/// The conflict that is reported is the first: no arm after it is looked at.
pub proof fn the_first_conflict_counts(bodies: Seq<ArmBody>, count: nat)
    requires
        count <= bodies.len(),
        union_after(bodies, count) is Conflict,
    ensures
        union_after(bodies, bodies.len()) == union_after(bodies, count),
{
    stopped_unions_stay(bodies, count, bodies.len());
}

} // verus!
