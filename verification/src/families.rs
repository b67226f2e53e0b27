//! The methods that named families declare.
use crate::alpha::{named_method_schemes_alpha_equivalent, schemes_equivalent};
use crate::collections::{StringMap, StringSet};
use crate::methods::{
    clone_constraints, clone_methods, constraints_view, families_view, methods_view,
    methods_view_insert, MethodConstraint, NamedFamilyType, NamedMethodOrigin, NamedMethodType,
    SpecConstraint, SpecFamily, SpecMethod, SpecOrigin,
};
use crate::schemes::{listing, named_method_variables, scheme_variables};
use crate::span::Span;
use crate::text::{begins_uppercase, same_text, starts_uppercase};
use crate::types::{types_view, Row, RowEntry, RowTail, SpecRow, SpecType, Type};
use vstd::prelude::*;

verus! {

/// A parameter of a declared method with its annotated type.
#[derive(Debug)]
pub struct DeclaredParam {
    pub name_span: Span,
    pub ty: Option<Type>,
}

/// What a parameter of a declared method is.
pub ghost struct SpecParam {
    pub name_span: Span,
    pub ty: Option<SpecType>,
}

impl DeclaredParam {
    pub open spec fn view(&self) -> SpecParam {
        SpecParam {
            name_span: self.name_span,
            ty: match self.ty {
                Some(ty) => Some(ty@),
                None => None,
            },
        }
    }
}

pub open spec fn params_view(params: Seq<DeclaredParam>) -> Seq<SpecParam> {
    Seq::new(params.len(), |i: int| params[i]@)
}

/// A method with a body and a result type, as a provider declares it.
#[derive(Debug)]
pub struct DeclaredMethod {
    pub name: String,
    pub name_span: Span,
    pub params: Vec<DeclaredParam>,
    pub result: Type,
    pub constraints: Vec<MethodConstraint>,
}

/// What a declared method is.
pub ghost struct SpecDeclared {
    pub name: Seq<char>,
    pub name_span: Span,
    pub params: Seq<SpecParam>,
    pub result: SpecType,
    pub constraints: Seq<SpecConstraint>,
}

impl DeclaredMethod {
    pub open spec fn view(&self) -> SpecDeclared {
        SpecDeclared {
            name: self.name@,
            name_span: self.name_span,
            params: params_view(self.params@),
            result: self.result@,
            constraints: constraints_view(self.constraints@),
        }
    }
}

pub open spec fn declared_view(declared: Seq<DeclaredMethod>) -> Seq<SpecDeclared> {
    Seq::new(declared.len(), |i: int| declared[i]@)
}

/// What can be wrong with a declared method.
#[derive(Debug)]
pub enum FamilyIssue {
    /// The name begins with an uppercase letter.
    UppercaseMethod { span: Span },
    /// The family has a data field of that name.
    FieldConflict { name: String, span: Span },
    /// The provider has declared a method of that name before.
    DuplicateMethod { name: String, span: Span },
    /// A parameter has no type.
    UntypedParameter { span: Span },
    /// The method has another signature than the inherited one that it replaces.
    OverrideMismatch {
        name: String,
        span: Span,
        base_owner: Type,
        base_member: String,
        inherited: NamedMethodType,
        declared: NamedMethodType,
    },
}

/// What can be wrong with a declared method.
pub ghost enum SpecFamilyIssue {
    UppercaseMethod { span: Span },
    FieldConflict { name: Seq<char>, span: Span },
    DuplicateMethod { name: Seq<char>, span: Span },
    UntypedParameter { span: Span },
    OverrideMismatch {
        name: Seq<char>,
        span: Span,
        base_owner: SpecType,
        base_member: Seq<char>,
        inherited: SpecMethod,
        declared: SpecMethod,
    },
}

impl FamilyIssue {
    pub open spec fn view(&self) -> SpecFamilyIssue {
        match self {
            FamilyIssue::UppercaseMethod { span } => SpecFamilyIssue::UppercaseMethod {
                span: *span,
            },
            FamilyIssue::FieldConflict { name, span } => SpecFamilyIssue::FieldConflict {
                name: name@,
                span: *span,
            },
            FamilyIssue::DuplicateMethod { name, span } => SpecFamilyIssue::DuplicateMethod {
                name: name@,
                span: *span,
            },
            FamilyIssue::UntypedParameter { span } => SpecFamilyIssue::UntypedParameter {
                span: *span,
            },
            FamilyIssue::OverrideMismatch {
                name,
                span,
                base_owner,
                base_member,
                inherited,
                declared,
            } => SpecFamilyIssue::OverrideMismatch {
                name: name@,
                span: *span,
                base_owner: base_owner@,
                base_member: base_member@,
                inherited: inherited@,
                declared: declared@,
            },
        }
    }
}

pub open spec fn issues_view(issues: Seq<FamilyIssue>) -> Seq<SpecFamilyIssue> {
    Seq::new(issues.len(), |i: int| issues[i]@)
}

/// Whether a row has a data field of a name.
pub open spec fn has_field(row: SpecRow, name: Seq<char>) -> bool {
    exists|i: int|
        0 <= i < row.entries.len() && (#[trigger] row.entries[i]) is Field
            && row.entries[i]->Field_name == name
}

/// Whether a row has a data field of a name.
pub fn row_has_field(row: &Row, name: &str) -> (found: bool)
    ensures
        found == has_field(row@, name@),
{
    let mut index: usize = 0;
    while index < row.entries.len()
        invariant
            index <= row.entries.len(),
            forall|i: int|
                0 <= i < index ==> !((#[trigger] row@.entries[i]) is Field
                    && row@.entries[i]->Field_name == name@),
        decreases row.entries.len() - index,
    {
        assert(row@.entries[index as int] == row.entries@[index as int]@);
        if let RowEntry::Field { name: field, .. } = &row.entries[index] {
            if same_text(field.as_str(), name) {
                return true;
            }
        }
        index += 1;
    }
    false
}

/// The parameters without a type.
pub open spec fn untyped(params: Seq<SpecParam>) -> Seq<SpecFamilyIssue>
    decreases params.len(),
{
    if params.len() == 0 {
        Seq::empty()
    } else {
        let earlier = untyped(params.drop_last());
        if params.last().ty is None {
            earlier.push(SpecFamilyIssue::UntypedParameter { span: params.last().name_span })
        } else {
            earlier
        }
    }
}

/// Whether every parameter has a type.
pub open spec fn all_typed(params: Seq<SpecParam>) -> bool {
    forall|i: int| 0 <= i < params.len() ==> (#[trigger] params[i]).ty is Some
}

/// The signature that a declared method has.
pub open spec fn declared_signature(declared: SpecDeclared) -> SpecMethod {
    let params = declared.params.map_values(|param: SpecParam| param.ty->0);
    SpecMethod {
        params,
        result: declared.result,
        constraints: declared.constraints,
        variables: listing(scheme_variables(params, declared.result, declared.constraints)),
        origin: SpecOrigin::Declared,
    }
}

/// A method as the override of an inherited one.
pub open spec fn overriding(method: SpecMethod, inherited: SpecMethod) -> SpecMethod {
    SpecMethod {
        params: method.params,
        result: method.result,
        constraints: method.constraints,
        variables: method.variables,
        origin: SpecOrigin::Override {
            base_owner: inherited.origin->Inherited_base_owner,
            base_member: inherited.origin->Inherited_base_member,
        },
    }
}

/// The methods of a family while its declarations are read.
pub ghost struct FamilyState {
    pub methods: Map<Seq<char>, SpecMethod>,
    pub names: Set<Seq<char>>,
    pub issues: Seq<SpecFamilyIssue>,
}

/// A family after one more declaration. A name that is refused changes nothing
/// but the list of issues; an inherited method is overridden by a declaration of
/// the same scheme, and a declaration of another scheme is reported and takes
/// its place.
pub open spec fn after_declaration(
    state: FamilyState,
    data: SpecRow,
    declared: SpecDeclared,
) -> FamilyState {
    let name = declared.name;
    let span = declared.name_span;
    if starts_uppercase(name) {
        FamilyState {
            issues: state.issues.push(SpecFamilyIssue::UppercaseMethod { span }),
            ..state
        }
    } else if has_field(data, name) {
        FamilyState {
            issues: state.issues.push(SpecFamilyIssue::FieldConflict { name, span }),
            ..state
        }
    } else if state.names.contains(name) {
        FamilyState {
            issues: state.issues.push(SpecFamilyIssue::DuplicateMethod { name, span }),
            ..state
        }
    } else if !all_typed(declared.params) {
        FamilyState {
            methods: state.methods,
            names: state.names.insert(name),
            issues: state.issues + untyped(declared.params),
        }
    } else {
        let signature = declared_signature(declared);
        let names = state.names.insert(name);
        if state.methods.contains_key(name) && state.methods[name].origin is Inherited {
            let inherited = state.methods[name];
            if schemes_equivalent(inherited, signature) {
                FamilyState {
                    methods: state.methods.insert(name, overriding(signature, inherited)),
                    names,
                    issues: state.issues,
                }
            } else {
                FamilyState {
                    methods: state.methods.insert(name, signature),
                    names,
                    issues: state.issues.push(
                        SpecFamilyIssue::OverrideMismatch {
                            name,
                            span,
                            base_owner: inherited.origin->Inherited_base_owner,
                            base_member: inherited.origin->Inherited_base_member,
                            inherited,
                            declared: signature,
                        },
                    ),
                }
            }
        } else {
            FamilyState {
                methods: state.methods.insert(name, signature),
                names,
                issues: state.issues,
            }
        }
    }
}

/// A family after its declarations, in order.
pub open spec fn after_declarations(
    methods: Map<Seq<char>, SpecMethod>,
    data: SpecRow,
    declared: Seq<SpecDeclared>,
) -> FamilyState
    decreases declared.len(),
{
    if declared.len() == 0 {
        FamilyState { methods, names: Set::empty(), issues: Seq::empty() }
    } else {
        after_declaration(
            after_declarations(methods, data, declared.drop_last()),
            data,
            declared.last(),
        )
    }
}

fn push_issue(issues: &mut Vec<FamilyIssue>, issue: FamilyIssue)
    ensures
        issues_view(final(issues)@) == issues_view(old(issues)@).push(issue@),
{
    let ghost before = issues_view(issues@);
    issues.push(issue);
    assert(issues_view(issues@) =~= before.push(issue@));
}

proof fn untyped_of_typed(params: Seq<SpecParam>)
    requires
        all_typed(params),
    ensures
        untyped(params) == Seq::<SpecFamilyIssue>::empty(),
    decreases params.len(),
{
    if params.len() > 0 {
        assert(params[params.len() - 1].ty is Some);
        assert(all_typed(params.drop_last())) by {
            assert forall|i: int| 0 <= i < params.drop_last().len() implies (
            #[trigger] params.drop_last()[i]).ty is Some by {
                assert(params[i].ty is Some);
            }
        }
        untyped_of_typed(params.drop_last());
    }
}

/// The types of the parameters, and an issue for each that has none.
fn declared_params(params: &Vec<DeclaredParam>, issues: &mut Vec<FamilyIssue>) -> (types: Option<
    Vec<Type>,
>)
    ensures
        issues_view(final(issues)@) == issues_view(old(issues)@) + untyped(params_view(params@)),
        match types {
            Some(types) => all_typed(params_view(params@)) && types_view(types@) == params_view(
                params@,
            ).map_values(|param: SpecParam| param.ty->0) && untyped(params_view(params@)).len()
                == 0,
            None => !all_typed(params_view(params@)),
        },
{
    let ghost all = params_view(params@);
    let ghost before = issues_view(issues@);
    let mut types: Vec<Type> = Vec::new();
    let mut complete = true;
    let mut index: usize = 0;
    assert(before + untyped(all.take(0)) =~= before);
    while index < params.len()
        invariant
            index <= params.len(),
            all == params_view(params@),
            before == issues_view(old(issues)@),
            issues_view(issues@) == before + untyped(all.take(index as int)),
            complete == forall|i: int| 0 <= i < index ==> (#[trigger] all[i]).ty is Some,
            complete ==> types.len() == index,
            complete ==> forall|i: int|
                0 <= i < index ==> (#[trigger] types@[i])@ == all[i].ty->0,
        decreases params.len() - index,
    {
        proof {
            let longer = all.take(index + 1);
            assert(longer.drop_last() =~= all.take(index as int));
            assert(longer.last() == all[index as int]);
            assert(all[index as int] == params@[index as int]@);
        }
        match &params[index].ty {
            Some(ty) => {
                types.push(ty.clone());
                assert(all[index as int].ty is Some);
            },
            None => {
                push_issue(
                    issues,
                    FamilyIssue::UntypedParameter { span: params[index].name_span },
                );
                complete = false;
                assert(issues_view(issues@) =~= before + untyped(all.take(index + 1)));
            },
        }
        index += 1;
    }
    assert(all.take(all.len() as int) =~= all);
    if complete {
        proof {
            untyped_of_typed(all);
            assert(types_view(types@) =~= all.map_values(|param: SpecParam| param.ty->0));
        }
        Some(types)
    } else {
        None
    }
}

/// Read one declaration of a family.
fn lower_family_method(
    data: &Row,
    declared: &DeclaredMethod,
    methods: &mut StringMap<NamedMethodType>,
    names: &mut StringSet,
    issues: &mut Vec<FamilyIssue>,
)
    ensures
        (FamilyState {
            methods: methods_view(final(methods)@),
            names: final(names)@,
            issues: issues_view(final(issues)@),
        }) == after_declaration(
            FamilyState {
                methods: methods_view(old(methods)@),
                names: old(names)@,
                issues: issues_view(old(issues)@),
            },
            data@,
            declared@,
        ),
{
    let name = declared.name.as_str();
    let span = declared.name_span;
    if begins_uppercase(name) {
        push_issue(issues, FamilyIssue::UppercaseMethod { span });
        return ;
    }
    if row_has_field(data, name) {
        push_issue(issues, FamilyIssue::FieldConflict { name: declared.name.clone(), span });
        return ;
    }
    if names.contains(name) {
        push_issue(issues, FamilyIssue::DuplicateMethod { name: declared.name.clone(), span });
        return ;
    }
    names.insert(declared.name.clone());
    let ghost before = issues_view(issues@);
    let params = match declared_params(&declared.params, issues) {
        Some(params) => params,
        None => {
            return ;
        },
    };
    assert(issues_view(issues@) =~= before);
    let variables = named_method_variables(&params, &declared.result, &declared.constraints);
    let signature = NamedMethodType {
        params,
        result: declared.result.clone(),
        constraints: clone_constraints(&declared.constraints),
        variables,
        origin: NamedMethodOrigin::Declared,
    };
    assert(signature@ == declared_signature(declared@));
    let ghost known = methods_view(methods@);
    let method = match methods.get(name) {
        Some(inherited) => match &inherited.origin {
            NamedMethodOrigin::Inherited { base_owner, base_member, .. } => {
                assert(known[name@] == inherited@);
                if named_method_schemes_alpha_equivalent(inherited, &signature) {
                    let NamedMethodType { params, result, constraints, variables, .. } = signature;
                    NamedMethodType {
                        params,
                        result,
                        constraints,
                        variables,
                        origin: NamedMethodOrigin::Override {
                            base_owner: base_owner.clone(),
                            base_member: base_member.clone(),
                        },
                    }
                } else {
                    push_issue(
                        issues,
                        FamilyIssue::OverrideMismatch {
                            name: declared.name.clone(),
                            span,
                            base_owner: base_owner.clone(),
                            base_member: base_member.clone(),
                            inherited: inherited.clone(),
                            declared: signature.clone(),
                        },
                    );
                    signature
                }
            },
            _ => {
                assert(known[name@] == inherited@);
                signature
            },
        },
        None => signature,
    };
    proof {
        methods_view_insert(methods@, declared.name@, method);
    }
    methods.insert(declared.name.clone(), method);
}

/// Read the declarations of a family: its methods with the declared ones, and
/// what is wrong with the declarations.
pub fn lower_family_methods(
    data: &Row,
    methods: &StringMap<NamedMethodType>,
    declared: &Vec<DeclaredMethod>,
) -> (lowered: (StringMap<NamedMethodType>, Vec<FamilyIssue>))
    ensures
        methods_view(lowered.0@) == after_declarations(
            methods_view(methods@),
            data@,
            declared_view(declared@),
        ).methods,
        issues_view(lowered.1@) == after_declarations(
            methods_view(methods@),
            data@,
            declared_view(declared@),
        ).issues,
{
    let ghost all = declared_view(declared@);
    let ghost before = methods_view(methods@);
    let mut lowered = clone_methods(methods);
    let mut names = StringSet::new();
    let mut issues: Vec<FamilyIssue> = Vec::new();
    let mut index: usize = 0;
    assert(issues_view(issues@) =~= Seq::empty());
    while index < declared.len()
        invariant
            index <= declared.len(),
            all == declared_view(declared@),
            before == methods_view(methods@),
            (FamilyState {
                methods: methods_view(lowered@),
                names: names@,
                issues: issues_view(issues@),
            }) == after_declarations(before, data@, all.take(index as int)),
        decreases declared.len() - index,
    {
        proof {
            let longer = all.take(index + 1);
            assert(longer.drop_last() =~= all.take(index as int));
            assert(longer.last() == declared@[index as int]@);
        }
        lower_family_method(data, &declared[index], &mut lowered, &mut names, &mut issues);
        index += 1;
    }
    assert(all.take(all.len() as int) =~= all);
    (lowered, issues)
}

/// A provider of a named family: the owner that it declares methods for.
#[derive(Debug)]
pub struct FamilyProvider {
    pub owner: String,
    pub methods: Vec<DeclaredMethod>,
}

/// What a provider of a named family is.
pub ghost struct SpecProvider {
    pub owner: Seq<char>,
    pub methods: Seq<SpecDeclared>,
}

impl FamilyProvider {
    pub open spec fn view(&self) -> SpecProvider {
        SpecProvider { owner: self.owner@, methods: declared_view(self.methods@) }
    }
}

pub open spec fn providers_view(providers: Seq<FamilyProvider>) -> Seq<SpecProvider> {
    Seq::new(providers.len(), |i: int| providers[i]@)
}

/// A record without fields.
pub open spec fn empty_row() -> SpecRow {
    SpecRow { entries: Seq::empty(), tail: RowTail::Closed }
}

/// What a provider makes of its family; an owner without a family has no fields
/// and no methods to start with.
pub open spec fn provided(
    families: Map<Seq<char>, SpecFamily>,
    provider: SpecProvider,
) -> FamilyState {
    if families.contains_key(provider.owner) {
        let family = families[provider.owner];
        after_declarations(family.methods, family.data, provider.methods)
    } else {
        after_declarations(Map::empty(), empty_row(), provider.methods)
    }
}

/// The families after one more provider.
pub open spec fn with_provider(
    families: Map<Seq<char>, SpecFamily>,
    provider: SpecProvider,
) -> Map<Seq<char>, SpecFamily> {
    if families.contains_key(provider.owner) {
        families.insert(
            provider.owner,
            SpecFamily {
                methods: provided(families, provider).methods,
                ..families[provider.owner]
            },
        )
    } else {
        families
    }
}

/// The families after a list of providers.
pub open spec fn with_providers(
    families: Map<Seq<char>, SpecFamily>,
    providers: Seq<SpecProvider>,
) -> Map<Seq<char>, SpecFamily>
    decreases providers.len(),
{
    if providers.len() == 0 {
        families
    } else {
        with_provider(with_providers(families, providers.drop_last()), providers.last())
    }
}

/// What is wrong with the declarations of a list of providers.
pub open spec fn provider_issues(
    families: Map<Seq<char>, SpecFamily>,
    providers: Seq<SpecProvider>,
) -> Seq<SpecFamilyIssue>
    decreases providers.len(),
{
    if providers.len() == 0 {
        Seq::empty()
    } else {
        provider_issues(families, providers.drop_last()) + provided(
            with_providers(families, providers.drop_last()),
            providers.last(),
        ).issues
    }
}

/// Read the methods that the providers declare into their families, and list
/// what is wrong with them.
pub fn lower_named_family_methods(
    families: &mut StringMap<NamedFamilyType>,
    providers: &Vec<FamilyProvider>,
) -> (issues: Vec<FamilyIssue>)
    ensures
        families_view(final(families)@) == with_providers(
            families_view(old(families)@),
            providers_view(providers@),
        ),
        issues_view(issues@) == provider_issues(
            families_view(old(families)@),
            providers_view(providers@),
        ),
{
    let ghost all = providers_view(providers@);
    let ghost before = families_view(families@);
    let mut issues: Vec<FamilyIssue> = Vec::new();
    let mut index: usize = 0;
    assert(issues_view(issues@) =~= Seq::empty());
    while index < providers.len()
        invariant
            index <= providers.len(),
            all == providers_view(providers@),
            before == families_view(old(families)@),
            families_view(families@) == with_providers(before, all.take(index as int)),
            issues_view(issues@) == provider_issues(before, all.take(index as int)),
        decreases providers.len() - index,
    {
        let provider = &providers[index];
        proof {
            let longer = all.take(index + 1);
            assert(longer.drop_last() =~= all.take(index as int));
            assert(longer.last() == provider@);
        }
        let ghost known = families_view(families@);
        let (updated, mut found) = match families.get(provider.owner.as_str()) {
            Some(family) => {
                assert(known[provider@.owner] == family@);
                let (methods, found) = lower_family_methods(
                    &family.data,
                    &family.methods,
                    &provider.methods,
                );
                let copied = family.clone();
                (
                    Some(
                        NamedFamilyType {
                            owner: copied.owner,
                            data: copied.data,
                            defaulted_fields: copied.defaulted_fields,
                            primitive_base: copied.primitive_base,
                            methods,
                        },
                    ),
                    found,
                )
            },
            None => {
                let data = Row { entries: Vec::new(), tail: RowTail::Closed };
                let none: StringMap<NamedMethodType> = StringMap::new();
                proof {
                    assert(data@.entries =~= Seq::empty());
                    assert(methods_view(none@) =~= Map::empty());
                }
                let (_, found) = lower_family_methods(&data, &none, &provider.methods);
                (None, found)
            },
        };
        if let Some(family) = updated {
            families.insert(provider.owner.clone(), family);
        }
        proof {
            assert(families_view(families@) =~= with_provider(known, provider@));
        }
        let ghost earlier = issues_view(issues@);
        let ghost later = issues_view(found@);
        issues.append(&mut found);
        assert(issues_view(issues@) =~= earlier + later);
        index += 1;
    }
    assert(all.take(all.len() as int) =~= all);
    issues
}

// ---------------------------------------------------------------------------
// Laws
// ---------------------------------------------------------------------------
/// Whether some declaration has a name.
pub open spec fn declares(declared: Seq<SpecDeclared>, name: Seq<char>) -> bool {
    exists|i: int| 0 <= i < declared.len() && (#[trigger] declared[i]).name == name
}

/// A method that no declaration names stays as it was.
pub proof fn undeclared_methods_are_kept(
    methods: Map<Seq<char>, SpecMethod>,
    data: SpecRow,
    declared: Seq<SpecDeclared>,
    name: Seq<char>,
)
    requires
        !declares(declared, name),
    ensures
        after_declarations(methods, data, declared).methods.contains_key(name)
            == methods.contains_key(name),
        methods.contains_key(name) ==> after_declarations(methods, data, declared).methods[name]
            == methods[name],
    decreases declared.len(),
{
    if declared.len() > 0 {
        let shorter = declared.drop_last();
        assert(!declares(shorter, name)) by {
            if declares(shorter, name) {
                let i = choose|i: int|
                    0 <= i < shorter.len() && (#[trigger] shorter[i]).name == name;
                assert(declared[i].name == name);
            }
        }
        assert(declared[declared.len() - 1].name != name);
        undeclared_methods_are_kept(methods, data, shorter, name);
    }
}

/// No declaration gives a method the name of a data field.
pub proof fn data_fields_gain_no_method(
    methods: Map<Seq<char>, SpecMethod>,
    data: SpecRow,
    declared: Seq<SpecDeclared>,
    name: Seq<char>,
)
    requires
        has_field(data, name),
        !methods.contains_key(name),
    ensures
        !after_declarations(methods, data, declared).methods.contains_key(name),
    decreases declared.len(),
{
    if declared.len() > 0 {
        data_fields_gain_no_method(methods, data, declared.drop_last(), name);
    }
}

/// Declarations only ever add issues.
proof fn issues_accumulate(
    methods: Map<Seq<char>, SpecMethod>,
    data: SpecRow,
    declared: Seq<SpecDeclared>,
    length: int,
)
    requires
        0 <= length <= declared.len(),
    ensures
        after_declarations(methods, data, declared.take(length)).issues.len()
            <= after_declarations(methods, data, declared).issues.len(),
    decreases declared.len(),
{
    if length < declared.len() {
        let shorter = declared.drop_last();
        assert(shorter.take(length) =~= declared.take(length));
        issues_accumulate(methods, data, shorter, length);
    } else {
        assert(declared.take(length) =~= declared);
    }
}

proof fn untyped_is_reported(params: Seq<SpecParam>)
    requires
        !all_typed(params),
    ensures
        untyped(params).len() > 0,
    decreases params.len(),
{
    let shorter = params.drop_last();
    if params.last().ty is Some {
        let i = choose|i: int| 0 <= i < params.len() && (#[trigger] params[i]).ty is None;
        assert(shorter[i].ty is None);
        untyped_is_reported(shorter);
    }
}

/// Where nothing is wrong, the family has every declared method under its own
/// signature, and one that was inherited is overridden by an equivalent scheme.
pub proof fn sound_declarations_are_all_read(
    methods: Map<Seq<char>, SpecMethod>,
    data: SpecRow,
    declared: Seq<SpecDeclared>,
    index: int,
)
    requires
        0 <= index < declared.len(),
        after_declarations(methods, data, declared).issues.len() == 0,
    ensures
        ({
            let name = declared[index].name;
            let signature = declared_signature(declared[index]);
            let lowered = after_declarations(methods, data, declared).methods;
            &&& lowered.contains_key(name)
            &&& if methods.contains_key(name) && methods[name].origin is Inherited {
                &&& schemes_equivalent(methods[name], signature)
                &&& lowered[name] == overriding(signature, methods[name])
            } else {
                lowered[name] == signature
            }
        }),
    decreases declared.len(),
{
    let shorter = declared.drop_last();
    let last = declared.len() - 1;
    let state = after_declarations(methods, data, shorter);
    issues_accumulate(methods, data, declared, last);
    assert(declared.take(last) =~= shorter);
    if !all_typed(declared.last().params) {
        untyped_is_reported(declared.last().params);
    }
    if index < last {
        assert(shorter[index] == declared[index]);
        sound_declarations_are_all_read(methods, data, shorter, index);
        read_after_declaration(methods, data, shorter, index);
        assert(declared[last].name != declared[index].name);
    } else {
        let name = declared[last].name;
        if declares(shorter, name) {
            let i = choose|i: int| 0 <= i < shorter.len() && (#[trigger] shorter[i]).name == name;
            read_after_declaration(methods, data, shorter, i);
        }
        undeclared_methods_are_kept(methods, data, shorter, name);
    }
}

/// Where nothing is wrong, the name of every declaration has been read.
proof fn read_after_declaration(
    methods: Map<Seq<char>, SpecMethod>,
    data: SpecRow,
    declared: Seq<SpecDeclared>,
    index: int,
)
    requires
        0 <= index < declared.len(),
        after_declarations(methods, data, declared).issues.len() == 0,
    ensures
        after_declarations(methods, data, declared).names.contains(declared[index].name),
    decreases declared.len(),
{
    let shorter = declared.drop_last();
    let last = declared.len() - 1;
    issues_accumulate(methods, data, declared, last);
    assert(declared.take(last) =~= shorter);
    if !all_typed(declared.last().params) {
        untyped_is_reported(declared.last().params);
    }
    if index < last {
        assert(shorter[index] == declared[index]);
        read_after_declaration(methods, data, shorter, index);
    }
}

/// Families that no provider is for stay as they were.
pub proof fn other_families_are_kept(
    families: Map<Seq<char>, SpecFamily>,
    providers: Seq<SpecProvider>,
    owner: Seq<char>,
)
    requires
        forall|i: int| 0 <= i < providers.len() ==> (#[trigger] providers[i]).owner != owner,
    ensures
        with_providers(families, providers).contains_key(owner) == families.contains_key(owner),
        families.contains_key(owner) ==> with_providers(families, providers)[owner]
            == families[owner],
    decreases providers.len(),
{
    if providers.len() > 0 {
        let shorter = providers.drop_last();
        assert forall|i: int| 0 <= i < shorter.len() implies (
        #[trigger] shorter[i]).owner != owner by {
            assert(providers[i].owner != owner);
        }
        other_families_are_kept(families, shorter, owner);
        assert(providers[providers.len() - 1].owner != owner);
    }
}

} // verus!
