//! The types that a module publishes for its top-level names.
use crate::collections::{bindings_map, StringMap, StringSet};
use crate::declarations::{
    is_type_function, publication_step, publishes_definition, seed_value_types, Publication,
    PublicationFacts,
};
use crate::modules::{insert_top_level_spread_types, with_spread};
use crate::schemes::TypeScheme;
use crate::text::{starts_uppercase, texts_view};
use crate::type_ops::{is_deferred, some_node, type_contains_deferred};
use vstd::prelude::*;

verus! {

// ---------------------------------------------------------------------------
// Before anything is inferred
// ---------------------------------------------------------------------------
/// Types after names are declared: nothing is known of them yet.
pub open spec fn with_declared(
    types: Map<Seq<char>, Option<TypeScheme>>,
    names: Seq<Seq<char>>,
) -> Map<Seq<char>, Option<TypeScheme>>
    decreases names.len(),
{
    if names.len() == 0 {
        types
    } else {
        with_declared(types, names.drop_last()).insert(names.last(), None)
    }
}

/// The types of the host, but for the names that a module declares itself.
pub open spec fn visible_globals(
    globals: Map<Seq<char>, TypeScheme>,
    names: Seq<Seq<char>>,
) -> Map<Seq<char>, Option<TypeScheme>> {
    Map::new(
        |name: Seq<char>| globals.contains_key(name) && !names.contains(name),
        |name: Seq<char>| Some(globals[name]),
    )
}

/// What is known of the top-level names before anything is inferred: the types of the
/// host, the declared names without a type, and the fields of spread records.
pub open spec fn starting_types(
    globals: Map<Seq<char>, TypeScheme>,
    names: Seq<Seq<char>>,
    spread: Seq<(String, TypeScheme)>,
) -> Map<Seq<char>, Option<TypeScheme>> {
    with_spread(with_declared(visible_globals(globals, names), names), spread)
}

/// Collect what is known of the top-level names before anything is inferred.
pub fn start_value_types(
    globals: Vec<(String, TypeScheme)>,
    names: &Vec<String>,
    spread: Vec<(String, TypeScheme)>,
) -> (types: StringMap<Option<TypeScheme>>)
    ensures
        types@ == starting_types(bindings_map(globals@), texts_view(names@), spread@),
{
    let ghost all = texts_view(names@);
    let mut declared = StringSet::new();
    let mut index: usize = 0;
    while index < names.len()
        invariant
            index <= names.len(),
            all == texts_view(names@),
            forall|name: Seq<char>| #[trigger]
                declared@.contains(name) == all.take(index as int).contains(name),
        decreases names.len() - index,
    {
        proof {
            let longer = all.take(index + 1);
            assert(longer =~= all.take(index as int).push(names@[index as int]@));
            assert forall|name: Seq<char>| longer.contains(name) == (all.take(
                index as int,
            ).contains(name) || name == names@[index as int]@) by {
                if all.take(index as int).contains(name) {
                    let at = all.take(index as int).index_of(name);
                    assert(longer[at] == name);
                }
                if name == names@[index as int]@ {
                    assert(longer[index as int] == name);
                }
            }
        }
        declared.insert(names[index].clone());
        index += 1;
    }
    assert(all.take(all.len() as int) =~= all);
    let mut types = seed_value_types(globals, &declared);
    let ghost seeded = types@;
    assert(seeded =~= visible_globals(bindings_map(globals@), all));
    let mut index: usize = 0;
    assert(all.take(0) =~= Seq::empty());
    while index < names.len()
        invariant
            index <= names.len(),
            all == texts_view(names@),
            types@ == with_declared(seeded, all.take(index as int)),
        decreases names.len() - index,
    {
        proof {
            let longer = all.take(index + 1);
            assert(longer.drop_last() =~= all.take(index as int));
            assert(longer.last() == names@[index as int]@);
        }
        types.insert(names[index].clone(), None);
        index += 1;
    }
    insert_top_level_spread_types(&mut types, spread);
    types
}

// ---------------------------------------------------------------------------
// After inference
// ---------------------------------------------------------------------------
/// A declaration, with the scheme that its annotation, its definition or its value
/// gave.
#[derive(Debug)]
pub struct PublishedDeclaration<'a> {
    pub facts: PublicationFacts<'a>,
    pub scheme: Option<TypeScheme>,
}

/// Whether a declaration has no type of its own: a list of methods, a function on
/// types, or a name that nothing is bound to.
pub open spec fn is_skipped(facts: PublicationFacts<'_>) -> bool {
    ||| starts_uppercase(facts.name@) && facts.value is Some && facts.is_method_row
    ||| facts.value is Some && is_type_function(facts.name@, *facts.value->0)
    ||| facts.value is None && !facts.is_pattern_bound
}

/// Whether the type of a declaration is inferred from its value.
pub open spec fn is_inferred(facts: PublicationFacts<'_>) -> bool {
    facts.annotation is None && !(facts.definition is Some && publishes_definition(
        facts.definition->0@,
        facts.value,
    ))
}

/// Whether a declaration publishes the scheme that it gave: an inferred one only if no
/// part of it is unknown.
pub open spec fn publishes(declaration: PublishedDeclaration<'_>) -> bool {
    &&& !is_skipped(declaration.facts)
    &&& declaration.scheme is Some
    &&& is_inferred(declaration.facts) ==> !some_node(declaration.scheme->0.ty@, is_deferred())
}

/// The types after declarations in order.
pub open spec fn published_types(
    types: Map<Seq<char>, Option<TypeScheme>>,
    declarations: Seq<PublishedDeclaration<'_>>,
) -> Map<Seq<char>, Option<TypeScheme>>
    decreases declarations.len(),
{
    if declarations.len() == 0 {
        types
    } else {
        let earlier = published_types(types, declarations.drop_last());
        let last = declarations.last();
        if publishes(last) {
            earlier.insert(last.facts.name@, last.scheme)
        } else {
            earlier
        }
    }
}

/// Publish the types of the declarations of a module.
pub fn build_value_types(
    start: StringMap<Option<TypeScheme>>,
    declarations: Vec<PublishedDeclaration<'_>>,
) -> (types: StringMap<Option<TypeScheme>>)
    ensures
        types@ == published_types(start@, declarations@),
{
    let ghost all = declarations@;
    let ghost before = start@;
    let ghost mut done: int = 0;
    let mut types = start;
    let mut rest = declarations;
    assert(all.take(0) =~= Seq::empty());
    while rest.len() > 0
        invariant
            0 <= done,
            done + rest.len() == all.len(),
            all == declarations@,
            rest@ == all.skip(done),
            types@ == published_types(before, all.take(done)),
        decreases rest.len(),
    {
        let declaration = rest.remove(0);
        proof {
            let longer = all.take(done + 1);
            assert(longer.drop_last() =~= all.take(done));
            assert(longer.last() == all[done]);
            assert(declaration == all[done]);
            assert(rest@ =~= all.skip(done + 1));
            done = done + 1;
        }
        let publication = publication_step(&declaration.facts);
        let PublishedDeclaration { facts, scheme } = declaration;
        let kept = match publication {
            Publication::Skip => false,
            Publication::Declared(_) => true,
            Publication::Definition(_) => true,
            Publication::Infer => match &scheme {
                Some(scheme) => !type_contains_deferred(&scheme.ty),
                None => false,
            },
        };
        if kept && scheme.is_some() {
            types.insert(facts.name.to_owned(), scheme);
        }
    }
    assert(all.take(done) =~= all);
    types
}

// ---------------------------------------------------------------------------
// Laws
// ---------------------------------------------------------------------------
proof fn declared_names_have_no_type(
    types: Map<Seq<char>, Option<TypeScheme>>,
    names: Seq<Seq<char>>,
    name: Seq<char>,
)
    requires
        names.contains(name),
    ensures
        with_declared(types, names).contains_key(name),
        with_declared(types, names)[name] is None,
    decreases names.len(),
{
    let at = names.index_of(name);
    if names.last() != name {
        assert(names.drop_last()[at] == name);
        declared_names_have_no_type(types, names.drop_last(), name);
    }
}

proof fn spreads_keep_names(
    types: Map<Seq<char>, Option<TypeScheme>>,
    fields: Seq<(String, TypeScheme)>,
    name: Seq<char>,
)
    requires
        types.contains_key(name),
    ensures
        with_spread(types, fields).contains_key(name),
        with_spread(types, fields)[name] == types[name],
    decreases fields.len(),
{
    if fields.len() > 0 {
        spreads_keep_names(types, fields.drop_last(), name);
    }
}

/// A name that a module declares hides what the host and what spread records have under
/// that name: nothing is known of it until its declaration publishes a type.
pub proof fn declarations_hide_other_names(
    globals: Map<Seq<char>, TypeScheme>,
    names: Seq<Seq<char>>,
    spread: Seq<(String, TypeScheme)>,
    name: Seq<char>,
)
    requires
        names.contains(name),
    ensures
        starting_types(globals, names, spread).contains_key(name),
        starting_types(globals, names, spread)[name] is None,
{
    let visible = visible_globals(globals, names);
    declared_names_have_no_type(visible, names, name);
    spreads_keep_names(with_declared(visible, names), spread, name);
}

/// What is published of a name by inference has no unknown part.
pub proof fn inferred_types_are_known(
    types: Map<Seq<char>, Option<TypeScheme>>,
    declarations: Seq<PublishedDeclaration<'_>>,
    name: Seq<char>,
)
    requires
        types.contains_key(name) && types[name] is None,
        forall|i: int|
            0 <= i < declarations.len() ==> is_inferred((#[trigger] declarations[i]).facts),
        published_types(types, declarations).contains_key(name),
        published_types(types, declarations)[name] is Some,
    ensures
        !some_node(published_types(types, declarations)[name]->0.ty@, is_deferred()),
    decreases declarations.len(),
{
    if declarations.len() > 0 {
        let last = declarations[declarations.len() - 1];
        assert(is_inferred(last.facts));
        if !(publishes(last) && last.facts.name@ == name) {
            let shorter = declarations.drop_last();
            assert forall|i: int| 0 <= i < shorter.len() implies is_inferred(
                (#[trigger] shorter[i]).facts,
            ) by {
                assert(is_inferred(declarations[i].facts));
            }
            published_names_stay(types, shorter, name);
            inferred_types_are_known(types, shorter, name);
        }
    }
}

proof fn published_names_stay(
    types: Map<Seq<char>, Option<TypeScheme>>,
    declarations: Seq<PublishedDeclaration<'_>>,
    name: Seq<char>,
)
    requires
        types.contains_key(name),
    ensures
        published_types(types, declarations).contains_key(name),
    decreases declarations.len(),
{
    if declarations.len() > 0 {
        published_names_stay(types, declarations.drop_last(), name);
    }
}

} // verus!
