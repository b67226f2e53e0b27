//! Laws of what a module imports, attaches and spreads.
use crate::attachments::{owner_issue, SpecAttachmentIssue};
use crate::methods::{BuiltinMethodType, SpecFamily};
use crate::modules::{
    checked_members, last_pattern, method_at, reaches, references_reach, sites_of,
    statics_of, with_entries, with_family, with_members, with_spread, FamilyNames, PatternSite,
    ValuePlaces, ValueTable,
};
use crate::schemes::TypeScheme;
use crate::span::Span;
use crate::syntax::{ungrouped, RecordEntry};
use crate::text::texts_view;
use crate::types::{SpecType, Type};
use vstd::prelude::*;

verus! {

/// An imported family is known by the name that it is bound to and by that of its owner; no other
/// name stands for something else than before, and a family that was known stays as it was.
pub proof fn imported_families_are_named(
    names: FamilyNames,
    target: Seq<char>,
    family: SpecFamily,
    other: Seq<char>,
)
    ensures
        ({
            let after = with_family(names, target, family);
            &&& after.aliases.contains_key(target) && after.aliases[target] == family.owner
            &&& after.aliases.contains_key(family.owner) && after.aliases[family.owner]
                == family.owner
            &&& other != target && other != family.owner ==> after.aliases.contains_key(other)
                == names.aliases.contains_key(other) && after.aliases[other]
                == names.aliases[other]
            &&& names.families.contains_key(other) ==> after.families.contains_key(other)
                && after.families[other] == names.families[other]
            &&& !names.families.contains_key(family.owner) ==> after.families.contains_key(
                family.owner,
            ) && after.families[family.owner] == family
        }),
{
}

/// A pattern imports the family that an entry names, under the name that the entry binds: the
/// same one, or the one behind the arrow. An entry that names no family of the module imports
/// none.
pub proof fn entries_import_the_families_they_name(
    names: FamilyNames,
    entries: Seq<RecordEntry>,
    exports: Map<Seq<char>, SpecFamily>,
    entry: RecordEntry,
)
    ensures
        ({
            let before = with_entries(names, entries, exports, entries.len());
            let after = with_entries(names, entries.push(entry), exports, entries.len() + 1);
            match entry {
                RecordEntry::Shorthand { name, .. } => after == (if exports.contains_key(name@) {
                    with_family(before, name@, exports[name@])
                } else {
                    before
                }),
                RecordEntry::Rename { from, to, .. } => after == (if exports.contains_key(from@) {
                    with_family(before, to@, exports[from@])
                } else {
                    before
                }),
                _ => after == before,
            }
        }),
{
    earlier_entries_import_the_same(names, entries, exports, entry, entries.len());
    assert(entries.push(entry)[entries.len() as int] == entry);
}

proof fn earlier_entries_import_the_same(
    names: FamilyNames,
    entries: Seq<RecordEntry>,
    exports: Map<Seq<char>, SpecFamily>,
    entry: RecordEntry,
    count: nat,
)
    requires
        count <= entries.len(),
    ensures
        with_entries(names, entries.push(entry), exports, count) == with_entries(
            names,
            entries,
            exports,
            count,
        ),
    decreases count,
{
    if count > 0 {
        earlier_entries_import_the_same(names, entries, exports, entry, (count - 1) as nat);
        assert(entries.push(entry)[count - 1] == entries[count - 1]);
    }
}

/// A member of a table is there under its name with its type, and replaces one of that name;
/// others stay.
pub proof fn members_replace_those_of_their_name(
    members: Map<Seq<char>, SpecType>,
    added: Seq<(String, Type)>,
    member: (String, Type),
    other: Seq<char>,
)
    ensures
        ({
            let before = with_members(members, added);
            let after = with_members(members, added.push(member));
            &&& after.contains_key(member.0@) && after[member.0@] == member.1@
            &&& other != member.0@ ==> after.contains_key(other) == before.contains_key(other)
                && after[other] == before[other]
        }),
{
    assert(added.push(member).drop_last() =~= added);
    assert(added.push(member).last() == member);
}

/// A table adds its members to those of its own type, and to no other.
pub proof fn tables_belong_to_their_type(
    tables: Seq<(String, Vec<(String, Type)>)>,
    table: (String, Vec<(String, Type)>),
    other: Seq<char>,
)
    ensures
        ({
            let before = statics_of(tables);
            let after = statics_of(tables.push(table));
            &&& after.contains_key(table.0@)
            &&& after[table.0@] == with_members(
                if before.contains_key(table.0@) {
                    before[table.0@]
                } else {
                    Map::empty()
                },
                table.1@,
            )
            &&& other != table.0@ ==> after.contains_key(other) == before.contains_key(other)
                && after[other] == before[other]
        }),
{
    assert(tables.push(table).drop_last() =~= tables);
    assert(tables.push(table).last() == table);
}

/// A field of a spread record gives its name a type, unless the name has something already.
pub proof fn spread_fields_fill_free_names(
    types: Map<Seq<char>, Option<TypeScheme>>,
    fields: Seq<(String, TypeScheme)>,
    field: (String, TypeScheme),
)
    ensures
        ({
            let before = with_spread(types, fields);
            let after = with_spread(types, fields.push(field));
            &&& before.contains_key(field.0@) ==> after == before
            &&& !before.contains_key(field.0@) ==> after == before.insert(
                field.0@,
                Some(field.1),
            )
        }),
{
    assert(fields.push(field).drop_last() =~= fields);
    assert(fields.push(field).last() == field);
}

/// A name is bound by the last pattern that binds it.
pub proof fn the_last_pattern_binds(sites: Seq<Vec<String>>, name: Seq<char>, count: nat)
    requires
        count <= sites.len(),
    ensures
        match last_pattern(sites, name, count) {
            Some(index) => index < count && texts_view(sites[index as int]@).contains(name)
                && forall|i: int|
                index < i < count ==> !texts_view((#[trigger] sites[i])@).contains(name),
            None => forall|i: int|
                0 <= i < count ==> !texts_view((#[trigger] sites[i])@).contains(name),
        },
    decreases count,
{
    if count > 0 {
        the_last_pattern_binds(sites, name, (count - 1) as nat);
    }
}

/// A place lies in a value if it lies in one of its own places, or in the value of a name in it
/// that is not being followed; through no names, only its own places count.
pub proof fn places_lie_in_values(
    table: ValueTable,
    places: ValuePlaces,
    visiting: Set<Seq<char>>,
    place: Span,
    index: int,
)
    requires
        table.names@.finite(),
    ensures
        0 <= index < places.spans@.len() && places.spans@[index].covers(place) ==> reaches(
            table,
            places,
            visiting,
            place,
        ),
        places.references@.len() == 0 && reaches(table, places, visiting, place) ==> exists|i: int|
            0 <= i < places.spans@.len() && (#[trigger] places.spans@[i]).covers(place),
        0 <= index < places.references@.len() && table.names@.contains(places.references@[index]@)
            && !visiting.contains(places.references@[index]@) && table.values@.contains_key(
            places.references@[index]@,
        ) && reaches(
            table,
            table.values@[places.references@[index]@],
            visiting.insert(places.references@[index]@),
            place,
        ) ==> reaches(table, places, visiting, place),
{
    let references = places.references@;
    if 0 <= index < references.len() {
        let name = references[index]@;
        if table.names@.contains(name) && !visiting.contains(name) && table.values@.contains_key(
            name,
        ) && reaches(table, table.values@[name], visiting.insert(name), place) {
            assert(references_reach(table, references, visiting, place, (index + 1) as nat));
            further_names_reach_no_less(
                table,
                references,
                visiting,
                place,
                (index + 1) as nat,
                references.len(),
            );
        }
    }
}

proof fn further_names_reach_no_less(
    table: ValueTable,
    references: Seq<String>,
    visiting: Set<Seq<char>>,
    place: Span,
    few: nat,
    many: nat,
)
    requires
        table.names@.finite(),
        few <= many <= references.len(),
        references_reach(table, references, visiting, place, few),
    ensures
        references_reach(table, references, visiting, place, many),
    decreases many,
{
    if few < many {
        further_names_reach_no_less(table, references, visiting, place, few, (many - 1) as nat);
    }
}

/// A member with a body is looked at where a method was attached at its name; any other member is
/// looked at in any case. They are looked at in order.
pub proof fn attached_bodies_are_looked_at(
    members: Seq<RecordEntry>,
    methods: Seq<BuiltinMethodType>,
    member: RecordEntry,
)
    ensures
        ({
            let before = checked_members(members, methods, members.len());
            let after = checked_members(members.push(member), methods, members.len() + 1);
            match member {
                RecordEntry::Method { name_span, value, .. } => after == (if ungrouped(*value).kind
                    is Lambda && !(exists|i: int|
                    0 <= i < methods.len() && (#[trigger] methods[i]).member_span == name_span) {
                    before
                } else {
                    before.push(members.len() as int)
                }),
                _ => after == before.push(members.len() as int),
            }
        }),
{
    earlier_members_are_looked_at(members, methods, member, members.len());
    assert(members.push(member)[members.len() as int] == member);
    if let RecordEntry::Method { name_span, .. } = member {
        attached_methods_are_found(methods, name_span, 0);
    }
}

proof fn earlier_members_are_looked_at(
    members: Seq<RecordEntry>,
    methods: Seq<BuiltinMethodType>,
    member: RecordEntry,
    count: nat,
)
    requires
        count <= members.len(),
    ensures
        checked_members(members.push(member), methods, count) == checked_members(
            members,
            methods,
            count,
        ),
    decreases count,
{
    if count > 0 {
        earlier_members_are_looked_at(members, methods, member, (count - 1) as nat);
        assert(members.push(member)[count - 1] == members[count - 1]);
    }
}

proof fn attached_methods_are_found(methods: Seq<BuiltinMethodType>, span: Span, from: int)
    requires
        0 <= from <= methods.len(),
    ensures
        method_at(methods, span, from) is Some <==> exists|i: int|
            from <= i < methods.len() && (#[trigger] methods[i]).member_span == span,
    decreases methods.len() - from,
{
    if from < methods.len() {
        attached_methods_are_found(methods, span, from + 1);
        if methods[from].member_span == span {
            assert(method_at(methods, span, from) is Some);
        }
    }
}

/// The places of a name are those of the sites with that name, in order.
pub proof fn sites_belong_to_their_name(
    sites: Seq<PatternSite>,
    name: Seq<char>,
    count: nat,
)
    requires
        0 < count <= sites.len(),
    ensures
        sites[count - 1].name@ == name ==> sites_of(sites, name, count) == sites_of(
            sites,
            name,
            (count - 1) as nat,
        ).push(sites[count - 1].span),
        sites[count - 1].name@ != name ==> sites_of(sites, name, count) == sites_of(
            sites,
            name,
            (count - 1) as nat,
        ),
        sites_of(sites, name, 0).len() == 0,
{
}

/// Methods are attached to a builtin scalar, to an array or a set of one argument, and to a map or a
/// result of two; another number of arguments is told the right one. Other names are no owners,
/// and other forms are no patterns.
pub proof fn owners_have_their_arity(
    name: Seq<char>,
    args: Seq<SpecType>,
    other: SpecType,
    span: Span,
)
    ensures
        ({
            let bare = owner_issue(SpecType::Named(name), span);
            let applied = owner_issue(
                SpecType::Apply { callee: Box::new(SpecType::Named(name)), args },
                span,
            );
            let scalar = name == "Int"@ || name == "Float"@ || name == "Text"@ || name == "Bool"@;
            let single = name == "Array"@ || name == "Set"@;
            let double = name == "Map"@ || name == "Result"@;
            &&& bare is None <==> scalar
            &&& applied is None <==> scalar && args.len() == 0 || single && args.len() == 1
                || double && args.len() == 2
            &&& single ==> bare == Some(
                SpecAttachmentIssue::WrongArity { head: name, arity: 1, found: 0, span },
            )
            &&& double && args.len() != 2 ==> applied == Some(
                SpecAttachmentIssue::WrongArity { head: name, arity: 2, found: args.len(), span },
            )
            &&& !scalar && !single && !double ==> bare == Some(
                SpecAttachmentIssue::UnknownOwner { head: name, span },
            )
        }),
        other is Tuple || other is Function || other is Record || other is Variable ==> owner_issue(
            other,
            span,
        ) == Some(SpecAttachmentIssue::InvalidOwner { span }),
{
    reveal_strlit("Int");
    reveal_strlit("Set");
    reveal_strlit("Map");
    reveal_strlit("Text");
    reveal_strlit("Bool");
    reveal_strlit("Array");
    reveal_strlit("Float");
    reveal_strlit("Result");
    assert("Int"@[0] == 'I' && "Set"@[0] == 'S' && "Map"@[0] == 'M');
    assert("Array"@[0] == 'A' && "Float"@[0] == 'F');
    assert("Int"@.len() == 3 && "Set"@.len() == 3 && "Map"@.len() == 3 && "Text"@.len() == 4);
    assert("Bool"@.len() == 4 && "Array"@.len() == 5 && "Float"@.len() == 5 && "Result"@.len()
        == 6);
}

} // verus!
