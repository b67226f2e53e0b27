//! Which method a type has under a name.
use crate::builtin_methods::{builtin_method_signature, builtin_signature};
use crate::collections::{names_view, StringMap};
use crate::inherited::{name_set, substitute_constraint, substituted_all, substituted_constraint};
use crate::methods::{
    builtin_methods_view, clone_constraints, constraints_view, families_view, BuiltinMethodType,
    MethodConstraint, MethodPredicate, MethodSignature, NamedFamilyType, SpecBuiltinMethod,
    SpecConstraint, SpecFamily, SpecMethod, SpecPredicate, SpecSignature,
};
use crate::owners::{
    admits, builtin_owner_arity, builtin_owner_head, match_bindings, owner_arity, owner_head,
    owner_pattern_bindings,
};
use crate::rows::owned_type_view;
use crate::schemes::{listing, meta_bindings, method_scheme_variables, scheme_variables};
use crate::span::Span;
use crate::text::{clone_texts, same_text, texts_view};
use crate::type_ops::{
    literal_rule, map_type, map_types, mapped, substituted, type_map_view, widen_literal_row,
    widened_base, LiteralWidening, Substitution,
};
use crate::types::{clone_types, types_view, Row, RowEntry, SpecRowEntry, SpecType, Type};
use vstd::prelude::*;

verus! {

/// The methods in scope: the families by the names that they go by, and the
/// methods attached to builtin types.
#[derive(Debug)]
pub struct MethodEnvironment {
    pub aliases: StringMap<String>,
    pub families: StringMap<NamedFamilyType>,
    pub attached: Vec<BuiltinMethodType>,
}

/// What methods are in scope.
pub ghost struct SpecEnvironment {
    pub aliases: Map<Seq<char>, Seq<char>>,
    pub families: Map<Seq<char>, SpecFamily>,
    pub attached: Seq<SpecBuiltinMethod>,
}

impl MethodEnvironment {
    pub open spec fn view(&self) -> SpecEnvironment {
        SpecEnvironment {
            aliases: names_view(self.aliases@),
            families: families_view(self.families@),
            attached: builtin_methods_view(self.attached@),
        }
    }
}

/// A method as it is found: its types over variables, what the owner says some
/// of them stand for, and those that each use makes anew.
#[derive(Debug)]
pub struct MethodScheme {
    pub params: Vec<Type>,
    pub result: Type,
    pub constraints: Vec<MethodConstraint>,
    pub bindings: StringMap<Type>,
    pub variables: Vec<String>,
    pub span: Span,
    pub member: String,
}

/// What a found method is.
pub ghost struct SpecMethodScheme {
    pub params: Seq<SpecType>,
    pub result: SpecType,
    pub constraints: Seq<SpecConstraint>,
    pub bindings: Map<Seq<char>, SpecType>,
    pub variables: Seq<Seq<char>>,
    pub span: Span,
    pub member: Seq<char>,
}

impl MethodScheme {
    pub open spec fn view(&self) -> SpecMethodScheme {
        SpecMethodScheme {
            params: types_view(self.params@),
            result: self.result@,
            constraints: constraints_view(self.constraints@),
            bindings: type_map_view(self.bindings@),
            variables: texts_view(self.variables@),
            span: self.span,
            member: self.member@,
        }
    }
}

/// A method without variables.
pub open spec fn plain_scheme(
    params: Seq<SpecType>,
    result: SpecType,
    member: Seq<char>,
) -> SpecMethodScheme {
    SpecMethodScheme {
        params,
        result,
        constraints: Seq::empty(),
        bindings: Map::empty(),
        variables: Seq::empty(),
        span: Span { start: 0, end: 0 },
        member,
    }
}

fn plain_method(params: Vec<Type>, result: Type, member: &str) -> (scheme: MethodScheme)
    ensures
        scheme@ == plain_scheme(types_view(params@), result@, member@),
{
    let scheme = MethodScheme {
        params,
        result,
        constraints: Vec::new(),
        bindings: StringMap::new(),
        variables: Vec::new(),
        span: Span::new(0, 0),
        member: member.to_owned(),
    };
    assert(scheme@.constraints =~= Seq::empty());
    assert(scheme@.bindings =~= Map::empty());
    assert(scheme@.variables =~= Seq::empty());
    scheme
}

/// The type of the first field of a name, from a position on.
pub open spec fn slot_type(entries: Seq<SpecRowEntry>, member: Seq<char>, from: int) -> Option<
    SpecType,
>
    decreases entries.len() - from,
{
    if from >= entries.len() {
        None
    } else {
        match entries[from] {
            SpecRowEntry::Field { name, ty } => if name == member {
                Some(ty)
            } else {
                slot_type(entries, member, from + 1)
            },
            _ => slot_type(entries, member, from + 1),
        }
    }
}

fn find_slot<'a>(slots: &'a Row, member: &str) -> (ty: Option<&'a Type>)
    ensures
        crate::rows::type_view(ty) == slot_type(slots@.entries, member@, 0),
{
    let ghost all = slots@.entries;
    let mut index: usize = 0;
    while index < slots.entries.len()
        invariant
            index <= slots.entries.len(),
            all == slots@.entries,
            slot_type(all, member@, 0) == slot_type(all, member@, index as int),
        decreases slots.entries.len() - index,
    {
        assert(all[index as int] == slots.entries@[index as int]@);
        if let RowEntry::Field { name, ty } = &slots.entries[index] {
            if same_text(name.as_str(), member) {
                return Some(ty);
            }
        }
        index += 1;
    }
    None
}

/// The method that a family declares or inherits. Its variables are made anew
/// at each use.
pub open spec fn family_scheme(method: SpecMethod, member: Seq<char>) -> SpecMethodScheme {
    SpecMethodScheme {
        params: method.params,
        result: method.result,
        constraints: method.constraints,
        bindings: Map::empty(),
        variables: method.variables,
        span: Span { start: 0, end: 0 },
        member,
    }
}

/// Whether an attached method answers for an owner and a name.
pub open spec fn answers(
    method: SpecBuiltinMethod,
    owner: SpecType,
    member: Seq<char>,
) -> bool {
    method.member == member && admits(method.owner, owner, method.owner_variables.to_set())
}

/// The position of the first attached method that answers, from a position on.
pub open spec fn first_answer(
    methods: Seq<SpecBuiltinMethod>,
    owner: SpecType,
    member: Seq<char>,
    from: int,
) -> Option<int>
    decreases methods.len() - from,
{
    if from >= methods.len() {
        None
    } else if answers(methods[from], owner, member) {
        Some(from)
    } else {
        first_answer(methods, owner, member, from + 1)
    }
}

/// The variables of an attached method that its owner does not bind.
pub open spec fn own_variables(method: SpecBuiltinMethod) -> Seq<Seq<char>> {
    let all = listing(scheme_variables(method.params, method.result, method.constraints));
    without(all, method.owner_variables.to_set())
}

/// The names that are not in a set, in order.
pub open spec fn without(names: Seq<Seq<char>>, removed: Set<Seq<char>>) -> Seq<Seq<char>>
    decreases names.len(),
{
    if names.len() == 0 {
        Seq::empty()
    } else if removed.contains(names.last()) {
        without(names.drop_last(), removed)
    } else {
        without(names.drop_last(), removed).push(names.last())
    }
}

/// An attached method for an owner that is an instance of its pattern.
pub open spec fn attached_scheme(method: SpecBuiltinMethod, owner: SpecType) -> SpecMethodScheme {
    SpecMethodScheme {
        params: method.params,
        result: method.result,
        constraints: method.constraints,
        bindings: match_bindings(method.owner, owner, method.owner_variables.to_set()),
        variables: own_variables(method),
        span: method.member_span,
        member: method.member,
    }
}

/// The attached method that answers for an owner: literal types in it count as
/// their bases.
pub open spec fn attached_answer(
    methods: Seq<SpecBuiltinMethod>,
    owner: SpecType,
    member: Seq<char>,
) -> Option<SpecMethodScheme> {
    let widened = mapped(owner, literal_rule());
    match first_answer(methods, widened, member, 0) {
        Some(index) => Some(attached_scheme(methods[index], widened)),
        None => None,
    }
}

/// The method of a type that is neither a slot record nor a literal type: that
/// of its family alone if it names one, and otherwise an attached method before
/// a builtin one.
pub open spec fn nominal_scheme(
    env: SpecEnvironment,
    owner: SpecType,
    member: Seq<char>,
) -> Option<SpecMethodScheme> {
    if owner is Named && env.aliases.contains_key(owner->Named_0) {
        let canonical = env.aliases[owner->Named_0];
        if env.families.contains_key(canonical) && env.families[canonical].methods.contains_key(
            member,
        ) {
            Some(family_scheme(env.families[canonical].methods[member], member))
        } else {
            None
        }
    } else {
        match attached_answer(env.attached, owner, member) {
            Some(scheme) => Some(scheme),
            None => match builtin_signature(owner, member) {
                Some(signature) => Some(plain_scheme(signature.params, signature.result, member)),
                None => None,
            },
        }
    }
}

/// The method that a type has under a name. A slot record has its slots, and a
/// literal type the methods of the base of its literals.
pub open spec fn exact_scheme(env: SpecEnvironment, owner: SpecType, member: Seq<char>) -> Option<
    SpecMethodScheme,
> {
    match owner {
        SpecType::SlotRecord { slots, .. } => match slot_type(slots.entries, member, 0) {
            Some(SpecType::Function { params, result, .. }) => Some(
                plain_scheme(params, *result, member),
            ),
            _ => None,
        },
        SpecType::Variant(row) => match widened_base(row) {
            Some(base) => nominal_scheme(env, base, member),
            None => nominal_scheme(env, owner, member),
        },
        _ => nominal_scheme(env, owner, member),
    }
}

/// What an optional method scheme denotes.
pub open spec fn scheme_view(scheme: Option<MethodScheme>) -> Option<SpecMethodScheme> {
    match scheme {
        Some(scheme) => Some(scheme@),
        None => None,
    }
}

fn names_without(names: &Vec<String>, removed: &Vec<String>) -> (kept: Vec<String>)
    ensures
        texts_view(kept@) == without(texts_view(names@), texts_view(removed@).to_set()),
{
    let ghost all = texts_view(names@);
    let ghost gone = texts_view(removed@).to_set();
    let mut kept: Vec<String> = Vec::new();
    let mut index: usize = 0;
    assert(texts_view(kept@) =~= Seq::empty());
    while index < names.len()
        invariant
            index <= names.len(),
            all == texts_view(names@),
            gone == texts_view(removed@).to_set(),
            texts_view(kept@) == without(all.take(index as int), gone),
        decreases names.len() - index,
    {
        proof {
            let longer = all.take(index + 1);
            assert(longer.drop_last() =~= all.take(index as int));
            assert(longer.last() == names@[index as int]@);
        }
        if !crate::text::texts_contain(removed, names[index].as_str()) {
            let ghost before = texts_view(kept@);
            kept.push(names[index].clone());
            assert(texts_view(kept@) =~= before.push(names@[index as int]@));
        }
        index += 1;
    }
    assert(all.take(all.len() as int) =~= all);
    kept
}

/// The attached method that answers for an owner and a name.
pub fn attached_builtin_method_scheme(
    methods: &Vec<BuiltinMethodType>,
    owner: &Type,
    member: &str,
) -> (scheme: Option<MethodScheme>)
    ensures
        scheme_view(scheme) == attached_answer(builtin_methods_view(methods@), owner@, member@),
{
    let widening = LiteralWidening;
    let widened = map_type(owner, &widening);
    let ghost all = builtin_methods_view(methods@);
    let mut index: usize = 0;
    while index < methods.len()
        invariant
            index <= methods.len(),
            all == builtin_methods_view(methods@),
            widened@ == mapped(owner@, literal_rule()),
            first_answer(all, widened@, member@, 0) == first_answer(
                all,
                widened@,
                member@,
                index as int,
            ),
        decreases methods.len() - index,
    {
        let method = &methods[index];
        assert(all[index as int] == method@);
        if same_text(method.member.as_str(), member) {
            let owner_variables = name_set(&method.owner_variables);
            if let Some(bindings) = owner_pattern_bindings(
                &method.owner,
                &widened,
                &owner_variables,
            ) {
                let all_variables = method_scheme_variables(
                    &method.params,
                    &method.result,
                    &method.constraints,
                );
                return Some(
                    MethodScheme {
                        params: clone_types(&method.params),
                        result: method.result.clone(),
                        constraints: clone_constraints(&method.constraints),
                        bindings,
                        variables: names_without(&all_variables, &method.owner_variables),
                        span: method.member_span,
                        member: method.member.clone(),
                    },
                );
            }
        }
        index += 1;
    }
    None
}

fn nominal_method_scheme(env: &MethodEnvironment, owner: &Type, member: &str) -> (scheme: Option<
    MethodScheme,
>)
    ensures
        scheme_view(scheme) == nominal_scheme(env@, owner@, member@),
{
    if let Type::Named(name) = owner {
        if let Some(canonical) = env.aliases.get(name.as_str()) {
            assert(env@.aliases[name@] == canonical@);
            let family = match env.families.get(canonical.as_str()) {
                Some(family) => family,
                None => {
                    return None;
                },
            };
            assert(env@.families[canonical@] == family@);
            return match family.methods.get(member) {
                Some(method) => {
                    assert(family@.methods[member@] == method@);
                    let scheme = MethodScheme {
                        params: clone_types(&method.params),
                        result: method.result.clone(),
                        constraints: clone_constraints(&method.constraints),
                        bindings: StringMap::new(),
                        variables: clone_texts(&method.variables),
                        span: Span::new(0, 0),
                        member: member.to_owned(),
                    };
                    assert(scheme@.bindings =~= Map::empty());
                    Some(scheme)
                },
                None => None,
            };
        }
    }
    if let Some(scheme) = attached_builtin_method_scheme(&env.attached, owner, member) {
        return Some(scheme);
    }
    match builtin_method_signature(owner, member) {
        Some(signature) => Some(plain_method(signature.params, signature.result, member)),
        None => None,
    }
}

/// The method that a type has under a name.
pub fn exact_method_scheme(env: &MethodEnvironment, owner: &Type, member: &str) -> (scheme: Option<
    MethodScheme,
>)
    ensures
        scheme_view(scheme) == exact_scheme(env@, owner@, member@),
{
    match owner {
        Type::SlotRecord { slots, .. } => match find_slot(slots, member) {
            Some(ty) => match ty {
                Type::Function { params, result, .. } => {
                    assert(types_view(params@).len() == params.len());
                    Some(plain_method(clone_types(params), (**result).clone(), member))
                },
                _ => None,
            },
            None => None,
        },
        Type::Variant(row) => match widen_literal_row(row) {
            Some(base) => nominal_method_scheme(env, &base, member),
            None => nominal_method_scheme(env, owner, member),
        },
        _ => nominal_method_scheme(env, owner, member),
    }
}

/// What the variables of a method stand for at a use: what the owner says, and
/// metavariables counted from `first` for the others.
pub open spec fn use_bindings(scheme: SpecMethodScheme, first: u32) -> Map<Seq<char>, SpecType> {
    scheme.bindings.union_prefer_right(meta_bindings(scheme.variables, first as int))
}

/// The requirement that a constraint of a used method makes.
pub open spec fn used_constraint(
    constraint: SpecConstraint,
    bindings: Map<Seq<char>, SpecType>,
    span: Span,
    member: Seq<char>,
) -> SpecPredicate {
    let used = substituted_constraint(constraint, bindings);
    SpecPredicate {
        candidate: used.candidate,
        member: used.member,
        params: used.params,
        result: used.result,
        operator_span: span,
        divisor_context: None,
        binding: Some(member),
        call_span: None,
        obligation_id: None,
    }
}

/// The signature of a method at one use.
pub open spec fn used_signature(scheme: SpecMethodScheme, first: u32) -> SpecSignature {
    let bindings = use_bindings(scheme, first);
    SpecSignature {
        params: substituted_all(scheme.params, bindings),
        result: substituted(scheme.result, bindings),
        predicates: scheme.constraints.map_values(
            |constraint: SpecConstraint|
                used_constraint(constraint, bindings, scheme.span, scheme.member),
        ),
    }
}

/// Make the variables of a method anew for one use, counted from `first`.
pub fn instantiate_method(scheme: MethodScheme, first: u32) -> (signature: MethodSignature)
    requires
        first + scheme@.variables.len() <= u32::MAX,
    ensures
        signature@ == used_signature(scheme@, first),
{
    let ghost spec = scheme@;
    let MethodScheme { params, result, constraints, mut bindings, variables, span, member } =
        scheme;
    let ghost names = texts_view(variables@);
    let ghost fixed = type_map_view(bindings@);
    let mut index: usize = 0;
    assert(meta_bindings(names.take(0), first as int) =~= Map::<Seq<char>, SpecType>::empty());
    assert(type_map_view(bindings@) =~= fixed.union_prefer_right(
        meta_bindings(names.take(0), first as int),
    ));
    while index < variables.len()
        invariant
            index <= variables.len(),
            names == texts_view(variables@),
            first + names.len() <= u32::MAX,
            type_map_view(bindings@) == fixed.union_prefer_right(
                meta_bindings(names.take(index as int), first as int),
            ),
        decreases variables.len() - index,
    {
        let id: u32 = first + index as u32;
        let ghost before = type_map_view(bindings@);
        bindings.insert(variables[index].clone(), Type::Meta(id));
        proof {
            let longer = names.take(index + 1);
            assert(longer.drop_last() =~= names.take(index as int));
            assert(longer.last() == variables@[index as int]@);
            assert(type_map_view(bindings@) =~= before.insert(longer.last(), SpecType::Meta(id)));
            assert(type_map_view(bindings@) =~= fixed.union_prefer_right(
                meta_bindings(longer, first as int),
            ));
        }
        index += 1;
    }
    assert(names.take(names.len() as int) =~= names);
    let substitution = Substitution { bindings };
    let ghost used = use_bindings(spec, first);
    let mut predicates: Vec<MethodPredicate> = Vec::new();
    let mut index: usize = 0;
    while index < constraints.len()
        invariant
            index <= constraints.len(),
            predicates.len() == index,
            type_map_view(substitution.bindings@) == used,
            forall|i: int|
                0 <= i < index ==> (#[trigger] predicates@[i])@ == used_constraint(
                    constraints@[i]@,
                    used,
                    span,
                    member@,
                ),
        decreases constraints.len() - index,
    {
        let constraint = substitute_constraint(&constraints[index], &substitution);
        predicates.push(
            MethodPredicate {
                candidate: constraint.candidate,
                member: constraint.member,
                params: constraint.params,
                result: constraint.result,
                operator_span: span,
                divisor_context: None,
                binding: Some(member.clone()),
                call_span: None,
                obligation_id: None,
            },
        );
        index += 1;
    }
    let signature = MethodSignature {
        params: map_types(&params, &substitution),
        result: map_type(&result, &substitution),
        predicates,
    };
    assert(signature@.predicates =~= used_signature(spec, first).predicates);
    signature
}

/// What an optional signature denotes.
pub open spec fn signature_view(signature: Option<MethodSignature>) -> Option<SpecSignature> {
    match signature {
        Some(signature) => Some(signature@),
        None => None,
    }
}

/// The signature at one use of the method that a type has under a name. `first`
/// is the first metavariable that is not in use.
pub fn exact_method_signature(
    env: &MethodEnvironment,
    owner: &Type,
    member: &str,
    first: u32,
) -> (signature: Option<MethodSignature>)
    requires
        match exact_scheme(env@, owner@, member@) {
            Some(scheme) => first + scheme.variables.len() <= u32::MAX,
            None => true,
        },
    ensures
        signature_view(signature) == (match exact_scheme(env@, owner@, member@) {
            Some(scheme) => Some(used_signature(scheme, first)),
            None => None,
        }),
{
    match exact_method_scheme(env, owner, member) {
        Some(scheme) => Some(instantiate_method(scheme, first)),
        None => None,
    }
}

/// The signature at one use of the attached method that answers for an owner
/// and a name.
pub fn attached_builtin_method_signature(
    methods: &Vec<BuiltinMethodType>,
    owner: &Type,
    member: &str,
    first: u32,
) -> (signature: Option<MethodSignature>)
    requires
        match attached_answer(builtin_methods_view(methods@), owner@, member@) {
            Some(scheme) => first + scheme.variables.len() <= u32::MAX,
            None => true,
        },
    ensures
        signature_view(signature) == (match attached_answer(
            builtin_methods_view(methods@),
            owner@,
            member@,
        ) {
            Some(scheme) => Some(used_signature(scheme, first)),
            None => None,
        }),
{
    match attached_builtin_method_scheme(methods, owner, member) {
        Some(scheme) => Some(instantiate_method(scheme, first)),
        None => None,
    }
}

/// The owner pattern of the first attached method of a name whose head is the
/// receiver's, from a position on.
pub open spec fn required_owner(
    methods: Seq<SpecBuiltinMethod>,
    head: Seq<char>,
    member: Seq<char>,
    from: int,
) -> Option<SpecType>
    decreases methods.len() - from,
{
    if from >= methods.len() {
        None
    } else if methods[from].member == member && owner_head(methods[from].owner) == Some(head) {
        Some(methods[from].owner)
    } else {
        required_owner(methods, head, member, from + 1)
    }
}

/// The owner that an attached method asks for where a receiver has its head but
/// is no instance of it.
pub fn attached_builtin_method_required_owner(
    methods: &Vec<BuiltinMethodType>,
    receiver: &Type,
    member: &str,
) -> (owner: Option<Type>)
    ensures
        owned_type_view(owner) == (match owner_head(receiver@) {
            Some(head) => required_owner(builtin_methods_view(methods@), head, member@, 0),
            None => None,
        }),
{
    let head = match builtin_owner_head(receiver) {
        Some(head) => head,
        None => {
            return None;
        },
    };
    let ghost all = builtin_methods_view(methods@);
    let mut index: usize = 0;
    while index < methods.len()
        invariant
            index <= methods.len(),
            all == builtin_methods_view(methods@),
            owner_head(receiver@) == Some(head@),
            required_owner(all, head@, member@, 0) == required_owner(
                all,
                head@,
                member@,
                index as int,
            ),
        decreases methods.len() - index,
    {
        let method = &methods[index];
        assert(all[index as int] == method@);
        if same_text(method.member.as_str(), member) {
            if let Some(other) = builtin_owner_head(&method.owner) {
                if same_text(other, head) {
                    return Some(method.owner.clone());
                }
            }
        }
        index += 1;
    }
    None
}

/// The owner of the method form `Owner.member`: the family that a name goes by,
/// or a scalar builtin itself.
pub open spec fn unbound_owner(aliases: Map<Seq<char>, Seq<char>>, name: Seq<char>) -> Option<
    Seq<char>,
> {
    if aliases.contains_key(name) {
        Some(aliases[name])
    } else if name == "Int"@ || name == "Float"@ || name == "Text"@ || name == "Bool"@ {
        Some(name)
    } else {
        None
    }
}

/// The owner of the method form `Owner.member`.
pub fn unbound_method_owner_name(aliases: &StringMap<String>, name: &str) -> (owner: Option<String>)
    ensures
        crate::methods::text_view(owner) == unbound_owner(names_view(aliases@), name@),
{
    if let Some(owner) = aliases.get(name) {
        return Some(owner.clone());
    }
    if same_text(name, "Int") || same_text(name, "Float") || same_text(name, "Text") || same_text(
        name,
        "Bool",
    ) {
        Some(name.to_owned())
    } else {
        None
    }
}

/// Whether a name is a type constructor that takes parameters. A local binding
/// hides it; a type function counts if it takes parameters; and any other
/// top-level binding hides a builtin constructor.
pub fn is_parameterized_type_constructor_name(
    name: &str,
    bound_locally: bool,
    type_function_params: Option<usize>,
    bound_at_top_level: bool,
) -> (parameterized: bool)
    ensures
        parameterized == (!bound_locally && ((type_function_params is Some
            && crate::text::starts_uppercase(name@) && type_function_params->0 > 0) || (
        !bound_at_top_level && owner_arity(name@) is Some && owner_arity(name@)->0 > 0))),
{
    if bound_locally {
        return false;
    }
    if let Some(params) = type_function_params {
        if crate::text::begins_uppercase(name) && params > 0 {
            return true;
        }
    }
    if bound_at_top_level {
        return false;
    }
    match builtin_owner_arity(name) {
        Some(arity) => arity > 0,
        None => false,
    }
}

/// A family's methods are its own: a type that names a family has no method that
/// the family lacks, whatever is attached to builtin types.
pub proof fn families_do_not_fall_back(env: SpecEnvironment, name: Seq<char>, member: Seq<char>)
    requires
        env.aliases.contains_key(name),
        env.families.contains_key(env.aliases[name]),
    ensures
        exact_scheme(env, SpecType::Named(name), member) is Some
            == env.families[env.aliases[name]].methods.contains_key(member),
{
}

/// A literal type has exactly the methods of the base of its literals.
pub proof fn literal_types_use_their_base(
    env: SpecEnvironment,
    row: crate::types::SpecRow,
    member: Seq<char>,
)
    requires
        widened_base(row) is Some,
    ensures
        exact_scheme(env, SpecType::Variant(row), member) == exact_scheme(
            env,
            widened_base(row)->0,
            member,
        ),
{
}

} // verus!
