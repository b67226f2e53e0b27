//! The methods that a family inherits from its builtin base.
use crate::builtin_methods::{
    append_owner_methods, builtin_types, named_all, owner_table, table_view, BuiltinMethodEntry,
    BuiltinType, SpecBuiltinEntry,
};
use crate::collections::StringSet;
use crate::methods::{
    builtin_methods_view, constraints_view, BuiltinMethodType, MethodConstraint, NamedMethodOrigin,
    NamedMethodType, SpecBuiltinMethod, SpecConstraint, SpecMethod, SpecOrigin,
};
use crate::owners::{admits, match_bindings, owner_pattern_bindings, Bindings};
use crate::schemes::{listing, method_scheme_variables, scheme_variables};
use crate::text::{clone_texts, same_text, texts_view};
use crate::type_ops::{
    map_type, map_types, mapped_all, substituted, substitution_rule, type_map_view, Substitution,
};
use crate::types::{clone_types, types_view, Row, RowEntry, SpecRowEntry, SpecType, Type};
use vstd::prelude::*;

verus! {

/// The origin of a method that is inherited from a base.
pub fn inherited_origin(
    owner: &Type,
    member: &str,
    lifted_params: Vec<bool>,
    lifted_result: bool,
) -> (origin: NamedMethodOrigin)
    ensures
        origin@ == (SpecOrigin::Inherited {
            base_owner: owner@,
            base_member: member@,
            lifted_params: lifted_params@,
            lifted_result,
        }),
{
    NamedMethodOrigin::Inherited {
        base_owner: owner.clone(),
        base_member: member.to_owned(),
        lifted_params,
        lifted_result,
    }
}

/// The origin of a method of a base before it is lifted to a family.
pub open spec fn base_origin(owner: SpecType, member: Seq<char>) -> SpecOrigin {
    SpecOrigin::Inherited {
        base_owner: owner,
        base_member: member,
        lifted_params: Seq::empty(),
        lifted_result: false,
    }
}

// ---------------------------------------------------------------------------
// Lifting
// ---------------------------------------------------------------------------
/// A type with the base replaced by the family where the type is the base.
pub open spec fn lifted(ty: SpecType, base: SpecType, family: SpecType) -> SpecType {
    if ty == base {
        family
    } else {
        ty
    }
}

/// Replace a type by the family if it is the base.
pub fn root_lift_type(ty: &mut Type, base: &Type, family: &Type)
    ensures
        final(ty)@ == lifted(old(ty)@, base@, family@),
{
    if *ty == *base {
        *ty = family.clone();
    }
}

pub open spec fn lifted_all(types: Seq<SpecType>, base: SpecType, family: SpecType) -> Seq<
    SpecType,
> {
    Seq::new(types.len(), |i: int| lifted(types[i], base, family))
}

fn lift_types(types: &Vec<Type>, base: &Type, family: &Type) -> (lifted_types: Vec<Type>)
    ensures
        types_view(lifted_types@) == lifted_all(types_view(types@), base@, family@),
{
    let mut lifted_types: Vec<Type> = Vec::new();
    let mut index: usize = 0;
    while index < types.len()
        invariant
            index <= types.len(),
            lifted_types.len() == index,
            forall|i: int|
                0 <= i < index ==> (#[trigger] lifted_types@[i])@ == lifted(
                    types@[i]@,
                    base@,
                    family@,
                ),
        decreases types.len() - index,
    {
        let mut ty = types[index].clone();
        root_lift_type(&mut ty, base, family);
        lifted_types.push(ty);
        index += 1;
    }
    assert(types_view(lifted_types@) =~= lifted_all(types_view(types@), base@, family@));
    lifted_types
}

pub open spec fn lifted_constraint(
    constraint: SpecConstraint,
    base: SpecType,
    family: SpecType,
) -> SpecConstraint {
    SpecConstraint {
        candidate: lifted(constraint.candidate, base, family),
        member: constraint.member,
        params: lifted_all(constraint.params, base, family),
        result: lifted(constraint.result, base, family),
    }
}

/// An inherited method with the base replaced by the family wherever a
/// parameter, the result, or a part of a constraint is the base.
pub open spec fn lifted_method(method: SpecMethod, base: SpecType, family: SpecType) -> SpecMethod {
    SpecMethod {
        params: lifted_all(method.params, base, family),
        result: lifted(method.result, base, family),
        constraints: Seq::new(
            method.constraints.len(),
            |i: int| lifted_constraint(method.constraints[i], base, family),
        ),
        variables: method.variables,
        origin: SpecOrigin::Inherited {
            base_owner: base,
            base_member: method.origin->Inherited_base_member,
            lifted_params: Seq::new(method.params.len(), |i: int| method.params[i] == base),
            lifted_result: method.result == base,
        },
    }
}

/// Lift an inherited method from its base to the family.
pub fn lift_inherited_method(method: &NamedMethodType, base: &Type, family: &Type) -> (lifted:
    NamedMethodType)
    requires
        method.origin is Inherited,
    ensures
        lifted@ == lifted_method(method@, base@, family@),
{
    let mut lifted_params: Vec<bool> = Vec::new();
    let mut index: usize = 0;
    while index < method.params.len()
        invariant
            index <= method.params.len(),
            lifted_params.len() == index,
            forall|i: int|
                0 <= i < index ==> lifted_params@[i] == (method.params@[i]@ == base@),
        decreases method.params.len() - index,
    {
        lifted_params.push(method.params[index] == *base);
        index += 1;
    }
    let lifted_result = method.result == *base;
    let mut result = method.result.clone();
    root_lift_type(&mut result, base, family);
    let mut constraints: Vec<MethodConstraint> = Vec::new();
    let mut index: usize = 0;
    while index < method.constraints.len()
        invariant
            index <= method.constraints.len(),
            constraints.len() == index,
            forall|i: int|
                0 <= i < index ==> (#[trigger] constraints@[i])@ == lifted_constraint(
                    method.constraints@[i]@,
                    base@,
                    family@,
                ),
        decreases method.constraints.len() - index,
    {
        let constraint = &method.constraints[index];
        let mut candidate = constraint.candidate.clone();
        root_lift_type(&mut candidate, base, family);
        let mut constraint_result = constraint.result.clone();
        root_lift_type(&mut constraint_result, base, family);
        constraints.push(
            MethodConstraint {
                candidate,
                member: constraint.member.clone(),
                params: lift_types(&constraint.params, base, family),
                result: constraint_result,
            },
        );
        index += 1;
    }
    let base_member = match &method.origin {
        NamedMethodOrigin::Inherited { base_member, .. } => base_member.clone(),
        _ => String::new(),
    };
    let lifted = NamedMethodType {
        params: lift_types(&method.params, base, family),
        result,
        constraints,
        variables: clone_texts(&method.variables),
        origin: NamedMethodOrigin::Inherited {
            base_owner: base.clone(),
            base_member,
            lifted_params,
            lifted_result,
        },
    };
    proof {
        let expected = lifted_method(method@, base@, family@);
        assert(lifted@.constraints =~= expected.constraints);
        assert(lifted_params@ =~= expected.origin->Inherited_lifted_params);
    }
    lifted
}

/// Lifting leaves nothing of the base at the root of a parameter or result.
pub proof fn lifted_method_hides_the_base(
    method: SpecMethod,
    base: SpecType,
    family: SpecType,
    index: int,
)
    requires
        base != family,
        0 <= index < method.params.len(),
    ensures
        lifted_method(method, base, family).params[index] != base,
        lifted_method(method, base, family).result != base,
{
}

// ---------------------------------------------------------------------------
// The methods of a base
// ---------------------------------------------------------------------------
/// A method with its name.
pub type NamedMethod = (Seq<char>, SpecMethod);

/// The methods that the function fields of a record are.
pub open spec fn field_methods(owner: SpecType, entries: Seq<SpecRowEntry>) -> Seq<NamedMethod>
    decreases entries.len(),
{
    if entries.len() == 0 {
        Seq::empty()
    } else {
        let earlier = field_methods(owner, entries.drop_last());
        match entries.last() {
            SpecRowEntry::Field {
                name,
                ty: SpecType::Function { params, result, .. },
            } => earlier.push(
                (
                    name,
                    SpecMethod {
                        params,
                        result: *result,
                        constraints: Seq::empty(),
                        variables: listing(scheme_variables(params, *result, Seq::empty())),
                        origin: base_origin(owner, name),
                    },
                ),
            ),
            _ => earlier,
        }
    }
}

/// The method that an entry of the builtin table is.
pub open spec fn table_method(owner: SpecType, entry: SpecBuiltinEntry) -> NamedMethod {
    (
        entry.member,
        SpecMethod {
            params: named_all(entry.params),
            result: entry.result.named(),
            constraints: Seq::empty(),
            variables: Seq::empty(),
            origin: base_origin(owner, entry.member),
        },
    )
}

/// The methods that the builtin table gives a scalar type.
pub open spec fn table_methods(owner: SpecType) -> Seq<NamedMethod> {
    match BuiltinType::of(owner) {
        Some(builtin) => Seq::new(
            owner_table(builtin).len(),
            |i: int| table_method(owner, owner_table(builtin)[i]),
        ),
        None => Seq::empty(),
    }
}

pub open spec fn substituted_all(types: Seq<SpecType>, bindings: Bindings) -> Seq<SpecType> {
    mapped_all(types, substitution_rule(bindings))
}

pub open spec fn substituted_constraint(
    constraint: SpecConstraint,
    bindings: Bindings,
) -> SpecConstraint {
    SpecConstraint {
        candidate: substituted(constraint.candidate, bindings),
        member: constraint.member,
        params: substituted_all(constraint.params, bindings),
        result: substituted(constraint.result, bindings),
    }
}

pub open spec fn substituted_constraints(
    constraints: Seq<SpecConstraint>,
    bindings: Bindings,
) -> Seq<SpecConstraint> {
    Seq::new(constraints.len(), |i: int| substituted_constraint(constraints[i], bindings))
}

/// An attached method for an owner that is an instance of its pattern.
pub open spec fn attached_method(owner: SpecType, method: SpecBuiltinMethod) -> NamedMethod {
    let bindings = match_bindings(method.owner, owner, method.owner_variables.to_set());
    let params = substituted_all(method.params, bindings);
    let result = substituted(method.result, bindings);
    let constraints = substituted_constraints(method.constraints, bindings);
    (
        method.member,
        SpecMethod {
            params,
            result,
            constraints,
            variables: listing(scheme_variables(params, result, constraints)),
            origin: base_origin(owner, method.member),
        },
    )
}

/// The attached methods whose owner patterns admit an owner.
pub open spec fn attached_methods(owner: SpecType, methods: Seq<SpecBuiltinMethod>) -> Seq<
    NamedMethod,
>
    decreases methods.len(),
{
    if methods.len() == 0 {
        Seq::empty()
    } else {
        let earlier = attached_methods(owner, methods.drop_last());
        let method = methods.last();
        if admits(method.owner, owner, method.owner_variables.to_set()) {
            earlier.push(attached_method(owner, method))
        } else {
            earlier
        }
    }
}

/// Whether a list of methods has one of the given name.
pub open spec fn has_method(methods: Seq<NamedMethod>, name: Seq<char>) -> bool {
    exists|i: int| 0 <= i < methods.len() && (#[trigger] methods[i]).0 == name
}

/// The methods without those whose name has come before.
pub open spec fn first_by_name(methods: Seq<NamedMethod>) -> Seq<NamedMethod>
    decreases methods.len(),
{
    if methods.len() == 0 {
        Seq::empty()
    } else {
        let earlier = first_by_name(methods.drop_last());
        if has_method(earlier, methods.last().0) {
            earlier
        } else {
            earlier.push(methods.last())
        }
    }
}

/// Every method that an owner could have: those of its function fields, those
/// of the builtin table, and the attached ones.
pub open spec fn candidate_methods(owner: SpecType, methods: Seq<SpecBuiltinMethod>) -> Seq<
    NamedMethod,
> {
    let fields = match owner {
        SpecType::Record(row) => field_methods(owner, row.entries),
        _ => Seq::empty(),
    };
    fields + table_methods(owner) + attached_methods(owner, methods)
}

/// The methods that an owner has; the first of a name counts.
pub open spec fn base_methods(owner: SpecType, methods: Seq<SpecBuiltinMethod>) -> Seq<
    NamedMethod,
> {
    first_by_name(candidate_methods(owner, methods))
}

pub open spec fn named_methods_view(methods: Seq<(String, NamedMethodType)>) -> Seq<NamedMethod> {
    Seq::new(methods.len(), |i: int| (methods[i].0@, methods[i].1@))
}

fn has_method_named(methods: &Vec<(String, NamedMethodType)>, name: &str) -> (found: bool)
    ensures
        found == has_method(named_methods_view(methods@), name@),
{
    let ghost all = named_methods_view(methods@);
    let mut index: usize = 0;
    while index < methods.len()
        invariant
            index <= methods.len(),
            all == named_methods_view(methods@),
            forall|i: int| 0 <= i < index ==> (#[trigger] all[i]).0 != name@,
        decreases methods.len() - index,
    {
        if same_text(methods[index].0.as_str(), name) {
            assert(all[index as int].0 == name@);
            return true;
        }
        index += 1;
    }
    false
}

/// Append a method unless there is one of its name.
fn add_method(methods: &mut Vec<(String, NamedMethodType)>, name: String, method: NamedMethodType)
    ensures
        named_methods_view(final(methods)@) == (if has_method(
            named_methods_view(old(methods)@),
            name@,
        ) {
            named_methods_view(old(methods)@)
        } else {
            named_methods_view(old(methods)@).push((name@, method@))
        }),
{
    if !has_method_named(methods, name.as_str()) {
        let ghost before = named_methods_view(methods@);
        methods.push((name, method));
        assert(named_methods_view(methods@) =~= before.push((name@, method@)));
    }
}

proof fn first_by_name_push(methods: Seq<NamedMethod>, method: NamedMethod)
    ensures
        first_by_name(methods.push(method)) == (if has_method(
            first_by_name(methods),
            method.0,
        ) {
            first_by_name(methods)
        } else {
            first_by_name(methods).push(method)
        }),
{
    assert(methods.push(method).drop_last() =~= methods);
}

fn add_field_methods(owner: &Type, row: &Row, methods: &mut Vec<(String, NamedMethodType)>)
    requires
        old(methods)@.len() == 0,
    ensures
        named_methods_view(final(methods)@) == first_by_name(
            field_methods(owner@, row@.entries),
        ),
{
    let ghost all = row@.entries;
    let mut index: usize = 0;
    assert(named_methods_view(methods@) =~= Seq::empty());
    while index < row.entries.len()
        invariant
            index <= row.entries.len(),
            all == row@.entries,
            named_methods_view(methods@) == first_by_name(
                field_methods(owner@, all.take(index as int)),
            ),
        decreases row.entries.len() - index,
    {
        proof {
            let longer = all.take(index + 1);
            assert(longer.drop_last() =~= all.take(index as int));
            assert(longer.last() == row.entries@[index as int]@);
        }
        if let RowEntry::Field { name, ty } = &row.entries[index] {
            if let Type::Function { params, result, .. } = ty {
                let none: Vec<MethodConstraint> = Vec::new();
                let variables = method_scheme_variables(params, result, &none);
                let no_params: Vec<bool> = Vec::new();
                let method = NamedMethodType {
                    params: clone_types(params),
                    result: (**result).clone(),
                    constraints: none,
                    variables,
                    origin: inherited_origin(owner, name.as_str(), no_params, false),
                };
                proof {
                    assert(ty@ == (SpecType::Function {
                        params: types_view(params@),
                        result: Box::new(result@),
                        required: ty@->Function_required,
                    }));
                    assert(constraints_view(none@) =~= Seq::<SpecConstraint>::empty());
                    assert(method@.origin == base_origin(owner@, name@)) by {
                        assert(no_params@ =~= Seq::empty());
                    }
                    first_by_name_push(
                        field_methods(owner@, all.take(index as int)),
                        (name@, method@),
                    );
                }
                add_method(methods, name.clone(), method);
            }
        }
        index += 1;
    }
    assert(all.take(all.len() as int) =~= all);
}

fn add_table_methods(
    owner: &Type,
    methods: &mut Vec<(String, NamedMethodType)>,
    Ghost(fields): Ghost<Seq<NamedMethod>>,
)
    requires
        named_methods_view(old(methods)@) == first_by_name(fields),
    ensures
        named_methods_view(final(methods)@) == first_by_name(fields + table_methods(owner@)),
{
    let builtin = match BuiltinType::from_type(owner) {
        Some(builtin) => builtin,
        None => {
            assert(fields + table_methods(owner@) =~= fields);
            return ;
        },
    };
    let mut table: Vec<BuiltinMethodEntry> = Vec::new();
    append_owner_methods(builtin, &mut table);
    let ghost all = table_methods(owner@);
    assert(table_view(table@) =~= owner_table(builtin));
    let mut index: usize = 0;
    assert(fields + all.take(0) =~= fields);
    while index < table.len()
        invariant
            index <= table.len(),
            BuiltinType::of(owner@) == Some(builtin),
            table_view(table@) == owner_table(builtin),
            all == table_methods(owner@),
            named_methods_view(methods@) == first_by_name(fields + all.take(index as int)),
        decreases table.len() - index,
    {
        let entry = &table[index];
        let no_params: Vec<bool> = Vec::new();
        let method = NamedMethodType {
            params: builtin_types(&entry.params),
            result: entry.result.to_type(),
            constraints: Vec::new(),
            variables: Vec::new(),
            origin: inherited_origin(owner, entry.member, no_params, false),
        };
        proof {
            assert(table_view(table@)[index as int] == entry@);
            assert(method@.constraints =~= Seq::empty());
            assert(method@.variables =~= Seq::empty());
            assert(no_params@ =~= Seq::empty());
            assert(all[index as int] == (entry.member@, method@));
            first_by_name_push(fields + all.take(index as int), (entry.member@, method@));
            assert(fields + all.take(index + 1) =~= (fields + all.take(index as int)).push(
                (entry.member@, method@),
            ));
        }
        add_method(methods, entry.member.to_owned(), method);
        index += 1;
    }
    assert(all.take(all.len() as int) =~= all);
}

/// Whether a set of names holds the names of a list.
pub fn name_set(names: &Vec<String>) -> (set: StringSet)
    ensures
        set@ == texts_view(names@).to_set(),
{
    let mut set = StringSet::new();
    let ghost all = texts_view(names@);
    let mut index: usize = 0;
    assert(set@ =~= all.take(0).to_set());
    while index < names.len()
        invariant
            index <= names.len(),
            all == texts_view(names@),
            set@ == all.take(index as int).to_set(),
        decreases names.len() - index,
    {
        set.insert(names[index].clone());
        proof {
            let shorter = all.take(index as int);
            let longer = all.take(index + 1);
            assert(longer =~= shorter.push(names@[index as int]@));
            assert forall|name: Seq<char>| longer.to_set().contains(name) == (
            shorter.to_set().contains(name) || name == names@[index as int]@) by {
                if shorter.contains(name) {
                    let i = choose|i: int| 0 <= i < shorter.len() && shorter[i] == name;
                    assert(longer[i] == name);
                }
                if name == names@[index as int]@ {
                    assert(longer[index as int] == name);
                }
                if longer.contains(name) {
                    let i = choose|i: int| 0 <= i < longer.len() && longer[i] == name;
                    if i < index {
                        assert(shorter[i] == name);
                    }
                }
            }
            assert(set@ =~= longer.to_set());
        }
        index += 1;
    }
    assert(all.take(all.len() as int) =~= all);
    set
}

/// Replace the bound variables of a constraint.
pub fn substitute_constraint(constraint: &MethodConstraint, substitution: &Substitution) -> (
    substituted_one: MethodConstraint)
    ensures
        substituted_one@ == substituted_constraint(
            constraint@,
            type_map_view(substitution.bindings@),
        ),
{
    MethodConstraint {
        candidate: map_type(&constraint.candidate, substitution),
        member: constraint.member.clone(),
        params: map_types(&constraint.params, substitution),
        result: map_type(&constraint.result, substitution),
    }
}

/// Replace the bound variables of each constraint of a list.
pub fn substitute_constraints(
    constraints: &Vec<MethodConstraint>,
    substitution: &Substitution,
) -> (substituted_list: Vec<MethodConstraint>)
    ensures
        constraints_view(substituted_list@) == substituted_constraints(
            constraints_view(constraints@),
            type_map_view(substitution.bindings@),
        ),
{
    let mut substituted_list: Vec<MethodConstraint> = Vec::new();
    let mut index: usize = 0;
    while index < constraints.len()
        invariant
            index <= constraints.len(),
            substituted_list.len() == index,
            forall|i: int|
                0 <= i < index ==> (#[trigger] substituted_list@[i])@ == substituted_constraint(
                    constraints@[i]@,
                    type_map_view(substitution.bindings@),
                ),
        decreases constraints.len() - index,
    {
        substituted_list.push(substitute_constraint(&constraints[index], substitution));
        index += 1;
    }
    assert(constraints_view(substituted_list@) =~= substituted_constraints(
        constraints_view(constraints@),
        type_map_view(substitution.bindings@),
    ));
    substituted_list
}

/// The methods of an exact builtin owner, before they are lifted to a family:
/// its function fields, the builtin table, and the attached methods, where the
/// first of a name counts.
pub fn effective_base_methods(owner: &Type, attached: &Vec<BuiltinMethodType>) -> (methods: Vec<
    (String, NamedMethodType),
>)
    ensures
        named_methods_view(methods@) == base_methods(owner@, builtin_methods_view(attached@)),
{
    let mut methods: Vec<(String, NamedMethodType)> = Vec::new();
    let ghost fields = match owner@ {
        SpecType::Record(row) => field_methods(owner@, row.entries),
        _ => Seq::empty(),
    };
    match owner {
        Type::Record(row) => {
            add_field_methods(owner, row, &mut methods);
        },
        _ => {
            assert(named_methods_view(methods@) =~= first_by_name(fields));
        },
    }
    add_table_methods(owner, &mut methods, Ghost(fields));

    let ghost before = fields + table_methods(owner@);
    let ghost all = builtin_methods_view(attached@);
    let mut index: usize = 0;
    assert(before + attached_methods(owner@, all.take(0)) =~= before);
    while index < attached.len()
        invariant
            index <= attached.len(),
            all == builtin_methods_view(attached@),
            named_methods_view(methods@) == first_by_name(
                before + attached_methods(owner@, all.take(index as int)),
            ),
        decreases attached.len() - index,
    {
        let entry = &attached[index];
        proof {
            let longer = all.take(index + 1);
            assert(longer.drop_last() =~= all.take(index as int));
            assert(longer.last() == entry@);
        }
        let owner_variables = name_set(&entry.owner_variables);
        if let Some(bindings) = owner_pattern_bindings(&entry.owner, owner, &owner_variables) {
            let substitution = Substitution { bindings };
            let params = map_types(&entry.params, &substitution);
            let result = map_type(&entry.result, &substitution);
            let constraints = substitute_constraints(&entry.constraints, &substitution);
            let variables = method_scheme_variables(&params, &result, &constraints);
            let no_params: Vec<bool> = Vec::new();
            let method = NamedMethodType {
                params,
                result,
                constraints,
                variables,
                origin: inherited_origin(owner, entry.member.as_str(), no_params, false),
            };
            proof {
                assert(no_params@ =~= Seq::empty());
                assert((entry.member@, method@) == attached_method(owner@, entry@));
                let earlier = before + attached_methods(owner@, all.take(index as int));
                first_by_name_push(earlier, (entry.member@, method@));
                assert(before + attached_methods(owner@, all.take(index + 1)) =~= earlier.push(
                    (entry.member@, method@),
                ));
            }
            add_method(&mut methods, entry.member.clone(), method);
        }
        index += 1;
    }
    assert(all.take(all.len() as int) =~= all);
    methods
}

} // verus!
