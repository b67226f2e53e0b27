//! The families that a module provides: their owners, their bases and data, and
//! what their declarations may hold.
use crate::collections::{names_view, StringMap, StringSet};
use crate::families::{has_field, row_has_field};
use crate::inherited::{
    base_methods, effective_base_methods, lift_inherited_method, lifted_method, named_methods_view,
    NamedMethod,
};
use crate::methods::{
    builtin_methods_view, families_view, methods_view, methods_view_insert, BuiltinMethodType,
    NamedFamilyType, NamedMethodType, SpecBuiltinMethod, SpecFamily, SpecMethod,
};
use crate::owners::{base_is_supported, primitive_family_base_is_supported};
use crate::span::Span;
use crate::syntax::{
    builtin_attachment_member_span, entry_span, ungroup_expr, ungrouped, Expr, ExprKind, Param,
    RecordEntry,
};
use crate::text::concat3;
use crate::type_ops::type_map_view;
use crate::types::{types_view, Row, RowEntry, RowTail, SpecRow, SpecRowEntry, SpecType, Type};
use vstd::prelude::*;

verus! {

// ---------------------------------------------------------------------------
// Owners
// ---------------------------------------------------------------------------
/// Where a module comes from.
#[derive(Debug)]
pub enum ModuleIdentity {
    Current,
    Path(String),
    Specifier(String),
}

impl ModuleIdentity {
    /// The part of an owner key that names the module.
    pub open spec fn text(&self) -> Seq<char> {
        match self {
            ModuleIdentity::Current => "current"@,
            ModuleIdentity::Path(path) => "path:"@ + path@,
            ModuleIdentity::Specifier(specifier) => "specifier:"@ + specifier@,
        }
    }

    fn render(&self) -> (text: String)
        ensures
            text@ == self.text(),
    {
        match self {
            ModuleIdentity::Current => "current".to_owned(),
            ModuleIdentity::Path(path) => {
                let mut text = "path:".to_owned();
                text.append(path.as_str());
                text
            },
            ModuleIdentity::Specifier(specifier) => {
                let mut text = "specifier:".to_owned();
                text.append(specifier.as_str());
                text
            },
        }
    }
}

/// The name that a family goes by in every module.
pub open spec fn owner_key(module: Seq<char>, name: Seq<char>) -> Seq<char> {
    "\0aven.named-family:"@ + module + "\0"@ + name
}

/// The name that a family goes by in every module.
pub fn named_family_owner_key(module: &ModuleIdentity, name: &str) -> (key: String)
    ensures
        key@ == owner_key(module.text(), name@),
{
    let text = module.render();
    let mut key = concat3("\0aven.named-family:", text.as_str(), "\0");
    key.append(name);
    key
}

/// Families of one module with different names have different owners.
pub proof fn owner_keys_differ(module: Seq<char>, left: Seq<char>, right: Seq<char>)
    requires
        owner_key(module, left) == owner_key(module, right),
    ensures
        left == right,
{
    let prefix = "\0aven.named-family:"@ + module + "\0"@;
    let key = owner_key(module, left);
    assert(key.skip(prefix.len() as int) =~= left);
    assert(owner_key(module, right).skip(prefix.len() as int) =~= right);
}

// ---------------------------------------------------------------------------
// Aliases
// ---------------------------------------------------------------------------
/// A declaration that gives a name to what another name stands for.
#[derive(Debug)]
pub struct AliasDeclaration {
    pub name: String,
    pub target: String,
}

pub open spec fn aliases_view(declarations: Seq<AliasDeclaration>) -> Seq<(Seq<char>, Seq<char>)> {
    Seq::new(declarations.len(), |i: int| (declarations[i].name@, declarations[i].target@))
}

/// The names of families, and the types that names are defined as.
pub ghost struct AliasState {
    pub owners: Map<Seq<char>, Seq<char>>,
    pub definitions: Map<Seq<char>, SpecType>,
}

/// The state after one declaration: a name that is not that of a family yet
/// becomes one if its target is.
pub open spec fn after_alias(state: AliasState, alias: (Seq<char>, Seq<char>)) -> AliasState {
    if !state.owners.contains_key(alias.0) && state.owners.contains_key(alias.1) {
        let owner = state.owners[alias.1];
        AliasState {
            owners: state.owners.insert(alias.0, owner),
            definitions: state.definitions.insert(alias.0, SpecType::Named(owner)),
        }
    } else {
        state
    }
}

/// The state after one pass over the declarations.
pub open spec fn after_pass(state: AliasState, aliases: Seq<(Seq<char>, Seq<char>)>) -> AliasState
    decreases aliases.len(),
{
    if aliases.len() == 0 {
        state
    } else {
        after_alias(after_pass(state, aliases.drop_last()), aliases.last())
    }
}

/// The state after a number of passes.
pub open spec fn after_passes(
    state: AliasState,
    aliases: Seq<(Seq<char>, Seq<char>)>,
    count: nat,
) -> AliasState
    decreases count,
{
    if count == 0 {
        state
    } else {
        after_pass(after_passes(state, aliases, (count - 1) as nat), aliases)
    }
}

/// The number of declarations whose name is not that of a family.
pub open spec fn unresolved(
    owners: Map<Seq<char>, Seq<char>>,
    aliases: Seq<(Seq<char>, Seq<char>)>,
) -> nat
    decreases aliases.len(),
{
    if aliases.len() == 0 {
        0
    } else {
        unresolved(owners, aliases.drop_last()) + if owners.contains_key(aliases.last().0) {
            0nat
        } else {
            1nat
        }
    }
}

proof fn more_owners_leave_fewer_unresolved(
    owners: Map<Seq<char>, Seq<char>>,
    more: Map<Seq<char>, Seq<char>>,
    aliases: Seq<(Seq<char>, Seq<char>)>,
    index: int,
)
    requires
        forall|name: Seq<char>| #[trigger] owners.contains_key(name) ==> more.contains_key(name),
        -1 <= index < aliases.len(),
        index >= 0 ==> !owners.contains_key(aliases[index].0) && more.contains_key(
            aliases[index].0,
        ),
    ensures
        unresolved(more, aliases) <= unresolved(owners, aliases),
        index >= 0 ==> unresolved(more, aliases) < unresolved(owners, aliases),
    decreases aliases.len(),
{
    if aliases.len() > 0 {
        let shorter = aliases.drop_last();
        if 0 <= index < shorter.len() {
            assert(shorter[index] == aliases[index]);
            more_owners_leave_fewer_unresolved(owners, more, shorter, index);
        } else {
            more_owners_leave_fewer_unresolved(owners, more, shorter, -1);
        }
    }
}

/// Give the name of a family to every alias of it, however long the chain of
/// aliases is, and define each as the family.
pub fn canonicalize_named_family_aliases(
    owners: &mut StringMap<String>,
    definitions: &mut StringMap<Type>,
    aliases: &Vec<AliasDeclaration>,
)
    ensures
        ({
            let before = AliasState {
                owners: names_view(old(owners)@),
                definitions: type_map_view(old(definitions)@),
            };
            let after = AliasState {
                owners: names_view(final(owners)@),
                definitions: type_map_view(final(definitions)@),
            };
            &&& after_pass(after, aliases_view(aliases@)) == after
            &&& exists|count: nat|
                #[trigger] after_passes(before, aliases_view(aliases@), count) == after
        }),
{
    let ghost all = aliases_view(aliases@);
    let ghost before = AliasState {
        owners: names_view(owners@),
        definitions: type_map_view(definitions@),
    };
    let ghost mut count: nat = 0;
    let mut changed = true;
    assert(after_passes(before, all, 0) == before);
    while changed
        invariant
            all == aliases_view(aliases@),
            before == (AliasState {
                owners: names_view(old(owners)@),
                definitions: type_map_view(old(definitions)@),
            }),
            (AliasState {
                owners: names_view(owners@),
                definitions: type_map_view(definitions@),
            }) == after_passes(before, all, count),
            !changed ==> after_pass(
                AliasState {
                    owners: names_view(owners@),
                    definitions: type_map_view(definitions@),
                },
                all,
            ) == (AliasState {
                owners: names_view(owners@),
                definitions: type_map_view(definitions@),
            }),
        decreases
                unresolved(names_view(owners@), all),
                if changed {
                    1int
                } else {
                    0int
                },
    {
        let ghost start = AliasState {
            owners: names_view(owners@),
            definitions: type_map_view(definitions@),
        };
        changed = false;
        let mut index: usize = 0;
        while index < aliases.len()
            invariant
                index <= aliases.len(),
                all == aliases_view(aliases@),
                (AliasState {
                    owners: names_view(owners@),
                    definitions: type_map_view(definitions@),
                }) == after_pass(start, all.take(index as int)),
                unresolved(names_view(owners@), all) <= unresolved(start.owners, all),
                changed ==> unresolved(names_view(owners@), all) < unresolved(start.owners, all),
                !changed ==> start == (AliasState {
                    owners: names_view(owners@),
                    definitions: type_map_view(definitions@),
                }),
            decreases aliases.len() - index,
        {
            let alias = &aliases[index];
            let ghost owners_before = names_view(owners@);
            let ghost definitions_before = type_map_view(definitions@);
            proof {
                let longer = all.take(index + 1);
                assert(longer.drop_last() =~= all.take(index as int));
                assert(longer.last() == all[index as int]);
            }
            if !owners.contains_key(alias.name.as_str()) {
                let target = match owners.get(alias.target.as_str()) {
                    Some(owner) => {
                        assert(owners_before[alias.target@] == owner@);
                        Some(owner.clone())
                    },
                    None => None,
                };
                if let Some(owner) = target {
                    definitions.insert(alias.name.clone(), Type::Named(owner.clone()));
                    owners.insert(alias.name.clone(), owner);
                    changed = true;
                    proof {
                        assert(names_view(owners@) =~= owners_before.insert(alias.name@, owner@));
                        assert(type_map_view(definitions@) =~= definitions_before.insert(
                            alias.name@,
                            SpecType::Named(owner@),
                        ));
                        more_owners_leave_fewer_unresolved(
                            owners_before,
                            names_view(owners@),
                            all,
                            index as int,
                        );
                    }
                }
            }
            index += 1;
        }
        proof {
            assert(all.take(all.len() as int) =~= all);
            count = count + 1;
            assert(after_passes(before, all, count) == after_pass(start, all));
        }
    }
}

// ---------------------------------------------------------------------------
// Bases and data
// ---------------------------------------------------------------------------
/// Why a type cannot be the base of a family.
#[derive(Debug, Clone, Copy, PartialEq, Eq, Structural)]
pub enum BaseProblem {
    /// The base is a family itself.
    Family,
    /// The base is no builtin container applied to resolved types.
    Container,
    /// The base is no scalar builtin.
    Scalar,
}

/// Why a type cannot be the base of a family.
pub open spec fn base_problem(
    base: SpecType,
    owners: Map<Seq<char>, Seq<char>>,
) -> Option<BaseProblem> {
    if base_is_supported(base) {
        None
    } else if base is Named && owners.contains_key(base->Named_0) {
        Some(BaseProblem::Family)
    } else if base is Apply {
        Some(BaseProblem::Container)
    } else {
        Some(BaseProblem::Scalar)
    }
}

/// Why a type cannot be the base of a family.
pub fn primitive_base_problem(base: &Type, owners: &StringMap<String>) -> (problem: Option<
    BaseProblem,
>)
    ensures
        problem == base_problem(base@, names_view(owners@)),
{
    if primitive_family_base_is_supported(base) {
        return None;
    }
    match base {
        Type::Named(name) => if owners.contains_key(name.as_str()) {
            Some(BaseProblem::Family)
        } else {
            Some(BaseProblem::Scalar)
        },
        Type::Apply { .. } => Some(BaseProblem::Container),
        _ => Some(BaseProblem::Scalar),
    }
}

/// A data field that a record family declares.
#[derive(Debug)]
pub struct DataField {
    pub name: String,
    pub name_span: Span,
    pub ty: Type,
    pub defaulted: bool,
}

/// What a data field is.
pub ghost struct SpecDataField {
    pub name: Seq<char>,
    pub name_span: Span,
    pub ty: SpecType,
    pub defaulted: bool,
}

impl DataField {
    pub open spec fn view(&self) -> SpecDataField {
        SpecDataField {
            name: self.name@,
            name_span: self.name_span,
            ty: self.ty@,
            defaulted: self.defaulted,
        }
    }
}

pub open spec fn fields_view(fields: Seq<DataField>) -> Seq<SpecDataField> {
    Seq::new(fields.len(), |i: int| fields[i]@)
}

/// The entries of the data row that a list of fields makes: a name that came
/// before is left out.
pub open spec fn data_entries(fields: Seq<SpecDataField>) -> Seq<SpecRowEntry>
    decreases fields.len(),
{
    if fields.len() == 0 {
        Seq::empty()
    } else {
        let earlier = data_entries(fields.drop_last());
        let field = fields.last();
        if has_field(SpecRow { entries: earlier, tail: RowTail::Closed }, field.name) {
            earlier
        } else {
            earlier.push(SpecRowEntry::Field { name: field.name, ty: field.ty })
        }
    }
}

/// The fields whose name came before.
pub open spec fn repeated_fields(fields: Seq<SpecDataField>) -> Seq<(Seq<char>, Span)>
    decreases fields.len(),
{
    if fields.len() == 0 {
        Seq::empty()
    } else {
        let earlier = repeated_fields(fields.drop_last());
        let field = fields.last();
        if has_field(
            SpecRow { entries: data_entries(fields.drop_last()), tail: RowTail::Closed },
            field.name,
        ) {
            earlier.push((field.name, field.name_span))
        } else {
            earlier
        }
    }
}

/// The names of the fields with defaults.
pub open spec fn defaulted_names(fields: Seq<SpecDataField>) -> Set<Seq<char>>
    decreases fields.len(),
{
    if fields.len() == 0 {
        Set::empty()
    } else if fields.last().defaulted {
        defaulted_names(fields.drop_last()).insert(fields.last().name)
    } else {
        defaulted_names(fields.drop_last())
    }
}

pub open spec fn repeated_view(repeated: Seq<(String, Span)>) -> Seq<(Seq<char>, Span)> {
    Seq::new(repeated.len(), |i: int| (repeated[i].0@, repeated[i].1))
}

/// The data row of a record family, the names of the fields with defaults, and
/// the fields whose name came before.
pub fn family_data_row(fields: &Vec<DataField>) -> (data: (Row, StringSet, Vec<(String, Span)>))
    ensures
        data.0@ == (SpecRow {
            entries: data_entries(fields_view(fields@)),
            tail: RowTail::Closed,
        }),
        data.1@ == defaulted_names(fields_view(fields@)),
        repeated_view(data.2@) == repeated_fields(fields_view(fields@)),
{
    let ghost all = fields_view(fields@);
    let mut row = Row { entries: Vec::new(), tail: RowTail::Closed };
    let mut defaulted = StringSet::new();
    let mut repeated: Vec<(String, Span)> = Vec::new();
    let mut index: usize = 0;
    assert(row@.entries =~= Seq::empty());
    assert(repeated_view(repeated@) =~= Seq::empty());
    while index < fields.len()
        invariant
            index <= fields.len(),
            all == fields_view(fields@),
            row@ == (SpecRow {
                entries: data_entries(all.take(index as int)),
                tail: RowTail::Closed,
            }),
            defaulted@ == defaulted_names(all.take(index as int)),
            repeated_view(repeated@) == repeated_fields(all.take(index as int)),
        decreases fields.len() - index,
    {
        let field = &fields[index];
        proof {
            let longer = all.take(index + 1);
            assert(longer.drop_last() =~= all.take(index as int));
            assert(longer.last() == field@);
        }
        if field.defaulted {
            defaulted.insert(field.name.clone());
        }
        if row_has_field(&row, field.name.as_str()) {
            let ghost before = repeated_view(repeated@);
            repeated.push((field.name.clone(), field.name_span));
            assert(repeated_view(repeated@) =~= before.push((field.name@, field.name_span)));
        } else {
            let ghost before = row@.entries;
            row.entries.push(RowEntry::Field { name: field.name.clone(), ty: field.ty.clone() });
            assert(row.entries@[before.len() as int]@ == (SpecRowEntry::Field {
                name: field.name@,
                ty: field.ty@,
            }));
            assert(row@.entries =~= before.push(
                SpecRowEntry::Field { name: field.name@, ty: field.ty@ },
            ));
        }
        index += 1;
    }
    assert(all.take(all.len() as int) =~= all);
    (row, defaulted, repeated)
}

/// What a provider declares: a family on a builtin base, or a record family.
#[derive(Debug)]
pub enum ProviderShape {
    Primitive { base: Type, base_span: Span },
    Record { fields: Vec<DataField> },
}

/// What a provider declares.
pub ghost enum SpecShape {
    Primitive { base: SpecType, base_span: Span },
    Record { fields: Seq<SpecDataField> },
}

impl ProviderShape {
    pub open spec fn view(&self) -> SpecShape {
        match self {
            ProviderShape::Primitive { base, base_span } => SpecShape::Primitive {
                base: base@,
                base_span: *base_span,
            },
            ProviderShape::Record { fields } => SpecShape::Record { fields: fields_view(fields@) },
        }
    }
}

/// A provider of a family: its name and what it declares.
#[derive(Debug)]
pub struct ProviderDeclaration {
    pub name: String,
    pub shape: ProviderShape,
}

/// What is wrong with the base or the data of a family.
#[derive(Debug)]
pub enum ProviderIssue {
    UnsupportedBase { problem: BaseProblem, span: Span },
    RepeatedField { name: String, span: Span },
}

/// What is wrong with the base or the data of a family.
pub ghost enum SpecProviderIssue {
    UnsupportedBase { problem: BaseProblem, span: Span },
    RepeatedField { name: Seq<char>, span: Span },
}

impl ProviderIssue {
    pub open spec fn view(&self) -> SpecProviderIssue {
        match self {
            ProviderIssue::UnsupportedBase { problem, span } => {
                SpecProviderIssue::UnsupportedBase { problem: *problem, span: *span }
            },
            ProviderIssue::RepeatedField { name, span } => SpecProviderIssue::RepeatedField {
                name: name@,
                span: *span,
            },
        }
    }
}

pub open spec fn issues_view(issues: Seq<ProviderIssue>) -> Seq<SpecProviderIssue> {
    Seq::new(issues.len(), |i: int| issues[i]@)
}

/// The inherited methods of a family, lifted from its base.
pub open spec fn lifted_methods(
    methods: Seq<NamedMethod>,
    base: SpecType,
    family: SpecType,
) -> Map<Seq<char>, SpecMethod>
    decreases methods.len(),
{
    if methods.len() == 0 {
        Map::empty()
    } else {
        lifted_methods(methods.drop_last(), base, family).insert(
            methods.last().0,
            lifted_method(methods.last().1, base, family),
        )
    }
}

/// The family that a provider declares.
pub open spec fn provided_family(
    owner: Seq<char>,
    shape: SpecShape,
    attached: Seq<SpecBuiltinMethod>,
) -> SpecFamily {
    match shape {
        SpecShape::Primitive { base, .. } => SpecFamily {
            owner,
            data: SpecRow { entries: Seq::empty(), tail: RowTail::Closed },
            defaulted_fields: Set::empty(),
            primitive_base: Some(base),
            methods: if base_is_supported(base) {
                lifted_methods(base_methods(base, attached), base, SpecType::Named(owner))
            } else {
                Map::empty()
            },
        },
        SpecShape::Record { fields } => SpecFamily {
            owner,
            data: SpecRow { entries: data_entries(fields), tail: RowTail::Closed },
            defaulted_fields: defaulted_names(fields),
            primitive_base: None,
            methods: Map::empty(),
        },
    }
}

/// The type that the name of a provider is defined as: its base, or its data.
pub open spec fn provided_definition(shape: SpecShape) -> SpecType {
    match shape {
        SpecShape::Primitive { base, .. } => base,
        SpecShape::Record { fields } => SpecType::Record(
            SpecRow { entries: data_entries(fields), tail: RowTail::Closed },
        ),
    }
}

/// What is wrong with the base or the data of a family.
pub open spec fn provided_issues(
    shape: SpecShape,
    owners: Map<Seq<char>, Seq<char>>,
) -> Seq<SpecProviderIssue> {
    match shape {
        SpecShape::Primitive { base, base_span } => match base_problem(base, owners) {
            Some(problem) => seq![SpecProviderIssue::UnsupportedBase { problem, span: base_span }],
            None => Seq::empty(),
        },
        SpecShape::Record { fields } => repeated_fields(fields).map_values(
            |field: (Seq<char>, Span)|
                SpecProviderIssue::RepeatedField { name: field.0, span: field.1 },
        ),
    }
}

fn lift_methods(base: &Type, family: &Type, attached: &Vec<BuiltinMethodType>) -> (methods:
    StringMap<NamedMethodType>)
    ensures
        methods_view(methods@) == lifted_methods(
            base_methods(base@, builtin_methods_view(attached@)),
            base@,
            family@,
        ),
{
    let found = effective_base_methods(base, attached);
    let ghost all = named_methods_view(found@);
    let mut methods: StringMap<NamedMethodType> = StringMap::new();
    let mut index: usize = 0;
    assert(methods_view(methods@) =~= Map::empty());
    proof {
        base_methods_are_inherited(base@, builtin_methods_view(attached@));
    }
    while index < found.len()
        invariant
            index <= found.len(),
            all == named_methods_view(found@),
            forall|i: int| 0 <= i < all.len() ==> (#[trigger] all[i]).1.origin is Inherited,
            methods_view(methods@) == lifted_methods(all.take(index as int), base@, family@),
        decreases found.len() - index,
    {
        proof {
            let longer = all.take(index + 1);
            assert(longer.drop_last() =~= all.take(index as int));
            assert(longer.last() == all[index as int]);
            assert(all[index as int] == (found@[index as int].0@, found@[index as int].1@));
        }
        let lifted = lift_inherited_method(&found[index].1, base, family);
        proof {
            methods_view_insert(methods@, found@[index as int].0@, lifted);
        }
        methods.insert(found[index].0.clone(), lifted);
        index += 1;
    }
    assert(all.take(all.len() as int) =~= all);
    methods
}

/// Every method of a base is an inherited one.
pub proof fn base_methods_are_inherited(owner: SpecType, attached: Seq<SpecBuiltinMethod>)
    ensures
        forall|i: int|
            0 <= i < base_methods(owner, attached).len() ==> (#[trigger] base_methods(
                owner,
                attached,
            )[i]).1.origin is Inherited,
{
    let candidates = crate::inherited::candidate_methods(owner, attached);
    if owner is Record {
        field_methods_are_inherited(owner, owner->Record_0.entries);
    }
    attached_methods_are_inherited(owner, attached);
    assert forall|i: int| 0 <= i < candidates.len() implies (
    #[trigger] candidates[i]).1.origin is Inherited by {}
    first_by_name_keeps_inherited(candidates);
}

proof fn field_methods_are_inherited(owner: SpecType, entries: Seq<SpecRowEntry>)
    ensures
        forall|i: int|
            0 <= i < crate::inherited::field_methods(owner, entries).len() ==> (
            #[trigger] crate::inherited::field_methods(owner, entries)[i]).1.origin is Inherited,
    decreases entries.len(),
{
    if entries.len() > 0 {
        field_methods_are_inherited(owner, entries.drop_last());
    }
}

proof fn attached_methods_are_inherited(owner: SpecType, methods: Seq<SpecBuiltinMethod>)
    ensures
        forall|i: int|
            0 <= i < crate::inherited::attached_methods(owner, methods).len() ==> (
            #[trigger] crate::inherited::attached_methods(owner, methods)[i]).1.origin is Inherited,
    decreases methods.len(),
{
    if methods.len() > 0 {
        attached_methods_are_inherited(owner, methods.drop_last());
    }
}

proof fn first_by_name_keeps_inherited(methods: Seq<NamedMethod>)
    requires
        forall|i: int| 0 <= i < methods.len() ==> (#[trigger] methods[i]).1.origin is Inherited,
    ensures
        forall|i: int|
            0 <= i < crate::inherited::first_by_name(methods).len() ==> (
            #[trigger] crate::inherited::first_by_name(methods)[i]).1.origin is Inherited,
    decreases methods.len(),
{
    if methods.len() > 0 {
        let shorter = methods.drop_last();
        assert forall|i: int| 0 <= i < shorter.len() implies (
        #[trigger] shorter[i]).1.origin is Inherited by {
            assert(methods[i].1.origin is Inherited);
        }
        first_by_name_keeps_inherited(shorter);
        assert(methods[methods.len() - 1].1.origin is Inherited);
    }
}

/// Make the family that a provider declares, what its name is defined as, and
/// what is wrong with its base or its data.
pub fn prepare_named_family(
    owner: &str,
    shape: &ProviderShape,
    owners: &StringMap<String>,
    attached: &Vec<BuiltinMethodType>,
) -> (prepared: (NamedFamilyType, Type, Vec<ProviderIssue>))
    ensures
        prepared.0@ == provided_family(owner@, shape@, builtin_methods_view(attached@)),
        prepared.1@ == provided_definition(shape@),
        issues_view(prepared.2@) == provided_issues(shape@, names_view(owners@)),
{
    let mut issues: Vec<ProviderIssue> = Vec::new();
    match shape {
        ProviderShape::Primitive { base, base_span } => {
            let problem = primitive_base_problem(base, owners);
            let methods = match problem {
                None => {
                    let family = Type::Named(owner.to_owned());
                    assert(family@ == SpecType::Named(owner@));
                    lift_methods(base, &family, attached)
                },
                Some(problem) => {
                    issues.push(ProviderIssue::UnsupportedBase { problem, span: *base_span });
                    let none: StringMap<NamedMethodType> = StringMap::new();
                    assert(methods_view(none@) =~= Map::empty());
                    none
                },
            };
            assert(issues_view(issues@) =~= provided_issues(shape@, names_view(owners@)));
            let data = Row { entries: Vec::new(), tail: RowTail::Closed };
            assert(data@.entries =~= Seq::empty());
            let family = NamedFamilyType {
                owner: owner.to_owned(),
                data,
                defaulted_fields: StringSet::new(),
                primitive_base: Some(base.clone()),
                methods,
            };
            (family, base.clone(), issues)
        },
        ProviderShape::Record { fields } => {
            let (data, defaulted_fields, repeated) = family_data_row(fields);
            let mut index: usize = 0;
            while index < repeated.len()
                invariant
                    index <= repeated.len(),
                    issues.len() == index,
                    forall|i: int|
                        0 <= i < index ==> (#[trigger] issues@[i])@ == (
                        SpecProviderIssue::RepeatedField {
                            name: repeated@[i].0@,
                            span: repeated@[i].1,
                        }),
                decreases repeated.len() - index,
            {
                issues.push(
                    ProviderIssue::RepeatedField {
                        name: repeated[index].0.clone(),
                        span: repeated[index].1,
                    },
                );
                index += 1;
            }
            assert(issues_view(issues@) =~= provided_issues(shape@, names_view(owners@)));
            let definition = Type::Record(data.clone());
            let methods: StringMap<NamedMethodType> = StringMap::new();
            assert(methods_view(methods@) =~= Map::empty());
            let family = NamedFamilyType {
                owner: owner.to_owned(),
                data,
                defaulted_fields,
                primitive_base: None,
                methods,
            };
            (family, definition, issues)
        },
    }
}

pub open spec fn declarations_view(declarations: Seq<ProviderDeclaration>) -> Seq<
    (Seq<char>, SpecShape),
> {
    Seq::new(declarations.len(), |i: int| (declarations[i].name@, declarations[i].shape@))
}

/// The names of families with the providers' own: each provider goes by its name
/// and by its owner.
pub open spec fn with_owners(
    owners: Map<Seq<char>, Seq<char>>,
    module: Seq<char>,
    providers: Seq<(Seq<char>, SpecShape)>,
) -> Map<Seq<char>, Seq<char>>
    decreases providers.len(),
{
    if providers.len() == 0 {
        owners
    } else {
        let key = owner_key(module, providers.last().0);
        with_owners(owners, module, providers.drop_last()).insert(providers.last().0, key).insert(
            key,
            key,
        )
    }
}

/// The families, the definitions and what is wrong with the providers.
pub ghost struct PreparedState {
    pub families: Map<Seq<char>, SpecFamily>,
    pub definitions: Map<Seq<char>, SpecType>,
    pub issues: Seq<SpecProviderIssue>,
}

/// The state after the providers in order.
pub open spec fn after_providers(
    state: PreparedState,
    owners: Map<Seq<char>, Seq<char>>,
    attached: Seq<SpecBuiltinMethod>,
    providers: Seq<(Seq<char>, SpecShape)>,
) -> PreparedState
    decreases providers.len(),
{
    if providers.len() == 0 {
        state
    } else {
        let earlier = after_providers(state, owners, attached, providers.drop_last());
        let (name, shape) = providers.last();
        let owner = owners[name];
        PreparedState {
            families: earlier.families.insert(owner, provided_family(owner, shape, attached)),
            definitions: earlier.definitions.insert(name, provided_definition(shape)),
            issues: earlier.issues + provided_issues(shape, owners),
        }
    }
}

fn register_owners(
    module: &ModuleIdentity,
    providers: &Vec<ProviderDeclaration>,
    owners: &mut StringMap<String>,
)
    ensures
        names_view(final(owners)@) == with_owners(
            names_view(old(owners)@),
            module.text(),
            declarations_view(providers@),
        ),
{
    let ghost all = declarations_view(providers@);
    let ghost before = names_view(owners@);
    let mut index: usize = 0;
    while index < providers.len()
        invariant
            index <= providers.len(),
            all == declarations_view(providers@),
            before == names_view(old(owners)@),
            names_view(owners@) == with_owners(before, module.text(), all.take(index as int)),
        decreases providers.len() - index,
    {
        let ghost earlier = names_view(owners@);
        proof {
            let longer = all.take(index + 1);
            assert(longer.drop_last() =~= all.take(index as int));
            assert(longer.last() == all[index as int]);
        }
        let name = &providers[index].name;
        let key = named_family_owner_key(module, name.as_str());
        owners.insert(name.clone(), key.clone());
        owners.insert(key.clone(), key);
        assert(names_view(owners@) =~= earlier.insert(name@, key@).insert(key@, key@));
        index += 1;
    }
    assert(all.take(all.len() as int) =~= all);
}

/// Register the providers of a module: the names that their families go by, the
/// families themselves, and the definitions of their names. The list of issues
/// says what is wrong with their bases and data.
pub fn prepare_named_families(
    module: &ModuleIdentity,
    providers: &Vec<ProviderDeclaration>,
    attached: &Vec<BuiltinMethodType>,
    owners: &mut StringMap<String>,
    families: &mut StringMap<NamedFamilyType>,
    definitions: &mut StringMap<Type>,
) -> (issues: Vec<ProviderIssue>)
    ensures
        names_view(final(owners)@) == with_owners(
            names_view(old(owners)@),
            module.text(),
            declarations_view(providers@),
        ),
        (PreparedState {
            families: families_view(final(families)@),
            definitions: type_map_view(final(definitions)@),
            issues: issues_view(issues@),
        }) == after_providers(
            PreparedState {
                families: families_view(old(families)@),
                definitions: type_map_view(old(definitions)@),
                issues: Seq::empty(),
            },
            names_view(final(owners)@),
            builtin_methods_view(attached@),
            declarations_view(providers@),
        ),
{
    register_owners(module, providers, owners);
    let ghost all = declarations_view(providers@);
    let ghost known = names_view(owners@);
    let ghost methods = builtin_methods_view(attached@);
    let ghost before = PreparedState {
        families: families_view(families@),
        definitions: type_map_view(definitions@),
        issues: Seq::empty(),
    };
    let mut issues: Vec<ProviderIssue> = Vec::new();
    let mut index: usize = 0;
    assert(issues_view(issues@) =~= Seq::empty());
    while index < providers.len()
        invariant
            index <= providers.len(),
            all == declarations_view(providers@),
            known == names_view(owners@),
            methods == builtin_methods_view(attached@),
            known == with_owners(names_view(old(owners)@), module.text(), all),
            before == (PreparedState {
                families: families_view(old(families)@),
                definitions: type_map_view(old(definitions)@),
                issues: Seq::empty(),
            }),
            (PreparedState {
                families: families_view(families@),
                definitions: type_map_view(definitions@),
                issues: issues_view(issues@),
            }) == after_providers(before, known, methods, all.take(index as int)),
        decreases providers.len() - index,
    {
        let provider = &providers[index];
        proof {
            let longer = all.take(index + 1);
            assert(longer.drop_last() =~= all.take(index as int));
            assert(longer.last() == all[index as int]);
            providers_have_owners(names_view(old(owners)@), module.text(), all, index as int);
        }
        let owner = match owners.get(provider.name.as_str()) {
            Some(owner) => owner.clone(),
            None => String::new(),
        };
        assert(owner@ == known[provider.name@]);
        let ghost families_before = families_view(families@);
        let ghost definitions_before = type_map_view(definitions@);
        let ghost issues_before = issues_view(issues@);
        let (family, definition, mut found) = prepare_named_family(
            owner.as_str(),
            &provider.shape,
            owners,
            attached,
        );
        let ghost found_issues = issues_view(found@);
        families.insert(owner, family);
        definitions.insert(provider.name.clone(), definition);
        issues.append(&mut found);
        proof {
            assert(families_view(families@) =~= families_before.insert(owner@, family@));
            assert(type_map_view(definitions@) =~= definitions_before.insert(
                provider.name@,
                definition@,
            ));
            assert(issues_view(issues@) =~= issues_before + found_issues);
        }
        index += 1;
    }
    assert(all.take(all.len() as int) =~= all);
    issues
}

/// Every provider goes by its name.
pub proof fn providers_have_owners(
    owners: Map<Seq<char>, Seq<char>>,
    module: Seq<char>,
    providers: Seq<(Seq<char>, SpecShape)>,
    index: int,
)
    requires
        0 <= index < providers.len(),
    ensures
        with_owners(owners, module, providers).contains_key(providers[index].0),
    decreases providers.len(),
{
    if index < providers.len() - 1 {
        assert(providers.drop_last()[index] == providers[index]);
        providers_have_owners(owners, module, providers.drop_last(), index);
    }
}

// ---------------------------------------------------------------------------
// Entries of a provider's declaration
// ---------------------------------------------------------------------------
/// The entries of the value that provides a family; `is_method_record` says whether
/// a record has methods with bodies.
pub open spec fn provider_entries(value: Expr, is_method_record: bool) -> Option<
    Seq<RecordEntry>,
> {
    match ungrouped(value).kind {
        ExprKind::PrimitiveFamily { entries, .. } => Some(entries@),
        ExprKind::Record(entries) => if is_method_record {
            Some(entries@)
        } else {
            None
        },
        _ => None,
    }
}

/// The entries of the value that provides a family.
pub fn named_family_provider_entries(value: &Expr, is_method_record: bool) -> (entries: Option<
    &Vec<RecordEntry>,
>)
    ensures
        match entries {
            Some(entries) => provider_entries(*value, is_method_record) == Some(entries@),
            None => provider_entries(*value, is_method_record) is None,
        },
{
    match &ungroup_expr(value).kind {
        ExprKind::PrimitiveFamily { entries, .. } => Some(entries),
        ExprKind::Record(entries) => if is_method_record {
            Some(entries)
        } else {
            None
        },
        _ => None,
    }
}

/// A data field as an entry declares it.
#[derive(Debug, Clone, Copy)]
pub struct FieldSource<'a> {
    pub name: &'a str,
    pub name_span: Span,
    pub annotation: &'a Expr,
    pub defaulted: bool,
}

/// Whether an entry declares a data field.
pub open spec fn declares_field(entry: RecordEntry) -> bool {
    match entry {
        RecordEntry::Field { overwrite, .. } => !overwrite,
        RecordEntry::FieldDefault { .. } => true,
        _ => false,
    }
}

/// Whether a source is the data field that an entry declares.
pub open spec fn is_field_source(entry: RecordEntry, source: FieldSource<'_>) -> bool {
    match entry {
        RecordEntry::Field { name, name_span, value, overwrite, .. } => !overwrite
            && source.name@ == name@ && source.name_span == name_span && *source.annotation
            == *value && !source.defaulted,
        RecordEntry::FieldDefault { name, name_span, annotation, .. } => source.name@ == name@
            && source.name_span == name_span && *source.annotation == *annotation
            && source.defaulted,
        _ => false,
    }
}

/// The positions of the data fields among the first entries.
pub open spec fn field_positions(entries: Seq<RecordEntry>, count: nat) -> Seq<int>
    decreases count,
{
    if count == 0 || count > entries.len() {
        Seq::empty()
    } else {
        let earlier = field_positions(entries, (count - 1) as nat);
        if declares_field(entries[count - 1]) {
            earlier.push(count - 1)
        } else {
            earlier
        }
    }
}

/// List the data fields that the entries of a record family declare, in order.
pub fn family_data_fields<'a>(entries: &'a Vec<RecordEntry>) -> (sources: Vec<FieldSource<'a>>)
    ensures
        sources.len() == field_positions(entries@, entries@.len()).len(),
        forall|k: int|
            0 <= k < sources.len() ==> is_field_source(
                entries@[field_positions(entries@, entries@.len())[k]],
                #[trigger] sources@[k],
            ),
{
    let mut sources: Vec<FieldSource<'a>> = Vec::new();
    let mut index: usize = 0;
    while index < entries.len()
        invariant
            index <= entries.len(),
            sources.len() == field_positions(entries@, index as nat).len(),
            forall|k: int|
                0 <= k < sources.len() ==> is_field_source(
                    entries@[field_positions(entries@, index as nat)[k]],
                    #[trigger] sources@[k],
                ),
        decreases entries.len() - index,
    {
        match &entries[index] {
            RecordEntry::Field { name, name_span, value, overwrite, .. } => {
                if !*overwrite {
                    sources.push(
                        FieldSource {
                            name: name.as_str(),
                            name_span: *name_span,
                            annotation: value,
                            defaulted: false,
                        },
                    );
                }
            },
            RecordEntry::FieldDefault { name, name_span, annotation, .. } => {
                sources.push(
                    FieldSource {
                        name: name.as_str(),
                        name_span: *name_span,
                        annotation,
                        defaulted: true,
                    },
                );
            },
            _ => {},
        }
        index += 1;
    }
    sources
}

/// A method as an entry declares it.
#[derive(Debug, Clone, Copy)]
pub struct MethodSource<'a> {
    pub name: &'a str,
    pub name_span: Span,
    pub params: &'a Vec<Param>,
    pub result: &'a Expr,
    pub requirements: &'a Vec<Expr>,
}

/// Whether an entry declares a method whose signature is read: a function that says
/// what it returns.
pub open spec fn declares_method(entry: RecordEntry) -> bool {
    match entry {
        RecordEntry::Method { value, .. } => match ungrouped(*value).kind {
            ExprKind::Lambda { return_annotation, .. } => return_annotation is Some,
            _ => false,
        },
        _ => false,
    }
}

/// Whether a source is the method that an entry declares.
pub open spec fn is_method_source(entry: RecordEntry, source: MethodSource<'_>) -> bool {
    match entry {
        RecordEntry::Method { name, name_span, value, .. } => match ungrouped(*value).kind {
            ExprKind::Lambda { params, return_annotation, requirements, .. } => {
                &&& source.name@ == name@
                &&& source.name_span == name_span
                &&& *source.params == params
                &&& return_annotation is Some
                &&& *source.result == *return_annotation->0
                &&& *source.requirements == requirements
            },
            _ => false,
        },
        _ => false,
    }
}

/// The positions of the methods among the first entries.
pub open spec fn method_positions(entries: Seq<RecordEntry>, count: nat) -> Seq<int>
    decreases count,
{
    if count == 0 || count > entries.len() {
        Seq::empty()
    } else {
        let earlier = method_positions(entries, (count - 1) as nat);
        if declares_method(entries[count - 1]) {
            earlier.push(count - 1)
        } else {
            earlier
        }
    }
}

/// List the methods that the entries of a family or the members of an attachment
/// declare, in order.
pub fn declared_method_sources<'a>(entries: &'a Vec<RecordEntry>) -> (sources: Vec<
    MethodSource<'a>,
>)
    ensures
        sources.len() == method_positions(entries@, entries@.len()).len(),
        forall|k: int|
            0 <= k < sources.len() ==> is_method_source(
                entries@[method_positions(entries@, entries@.len())[k]],
                #[trigger] sources@[k],
            ),
{
    let mut sources: Vec<MethodSource<'a>> = Vec::new();
    let mut index: usize = 0;
    while index < entries.len()
        invariant
            index <= entries.len(),
            sources.len() == method_positions(entries@, index as nat).len(),
            forall|k: int|
                0 <= k < sources.len() ==> is_method_source(
                    entries@[method_positions(entries@, index as nat)[k]],
                    #[trigger] sources@[k],
                ),
        decreases entries.len() - index,
    {
        if let RecordEntry::Method { name, name_span, value, .. } = &entries[index] {
            if let ExprKind::Lambda { params, return_annotation, requirements, .. } = &ungroup_expr(
                value,
            ).kind {
                if let Some(result) = return_annotation {
                    sources.push(
                        MethodSource {
                            name: name.as_str(),
                            name_span: *name_span,
                            params,
                            result,
                            requirements,
                        },
                    );
                }
            }
        }
        index += 1;
    }
    sources
}

/// What is to be done about an entry of a provider's declaration.
#[derive(Debug)]
#[allow(inconsistent_fields)]
pub enum EntryAction<'a> {
    /// Nothing.
    Accept,
    /// Check the body of the method against its signature.
    CheckBody {
        signature: &'a NamedMethodType,
        params: &'a Vec<Param>,
        requirements: &'a Vec<Expr>,
        body: &'a Expr,
    },
    /// Check the default against the annotation.
    CheckDefault { annotation: &'a Expr, default: &'a Expr },
    /// The method has no body.
    RejectSlot { name: &'a str, span: Span },
    /// A family on a builtin base has no data.
    RejectData { span: Span },
    /// A provider overrides nothing.
    RejectOverride { name: &'a str, span: Span },
    /// The declaration is not closed.
    RejectTransform { span: Span },
    /// The declaration holds a value.
    RejectValue { span: Span },
}

/// Whether an action is the one for the value of a method entry.
pub open spec fn is_method_action(
    method: Seq<char>,
    method_span: Span,
    value: ExprKind,
    methods: Map<Seq<char>, SpecMethod>,
    action: EntryAction<'_>,
) -> bool {
    match value {
        ExprKind::Arrow { .. } => action matches EntryAction::RejectSlot { name, span } && name@
            == method && span == method_span,
        ExprKind::Lambda { params, requirements, body, .. } => if methods.contains_key(method) {
            action matches EntryAction::CheckBody {
                signature,
                params: checked_params,
                requirements: checked_requirements,
                body: checked_body,
            } && signature@ == methods[method] && *checked_params == params
                && *checked_requirements == requirements && *checked_body == *body
        } else {
            action is Accept
        },
        _ => action is Accept,
    }
}

/// Whether an action is the one for an entry of a provider's declaration. `primitive`
/// says that the family has a builtin base, and `methods` which methods it has.
pub open spec fn is_entry_action(
    entry: RecordEntry,
    primitive: bool,
    methods: Map<Seq<char>, SpecMethod>,
    action: EntryAction<'_>,
) -> bool {
    match entry {
        RecordEntry::Method { name, name_span, value, .. } => is_method_action(
            name@,
            name_span,
            ungrouped(*value).kind,
            methods,
            action,
        ),
        RecordEntry::FieldDefault { annotation, default, .. } => if primitive {
            action matches EntryAction::RejectData { span } && span == annotation.span
        } else {
            action matches EntryAction::CheckDefault {
                annotation: checked_annotation,
                default: checked_default,
            } && *checked_annotation == *annotation && *checked_default == *default
        },
        RecordEntry::Field { name: field, name_span, overwrite, .. } => if overwrite {
            action matches EntryAction::RejectOverride { name, span } && name@ == field@ && span
                == name_span
        } else if primitive {
            action matches EntryAction::RejectData { span } && span == name_span
        } else {
            action is Accept
        },
        RecordEntry::Element(value) => action matches EntryAction::RejectValue { span } && span
            == value.span,
        _ => action matches EntryAction::RejectTransform { span } && span == entry_span(entry),
    }
}

/// The methods of a family, none without one.
pub open spec fn methods_of(family: Option<&NamedFamilyType>) -> Map<Seq<char>, SpecMethod> {
    match family {
        Some(family) => family@.methods,
        None => Map::empty(),
    }
}

/// What is to be done about a method entry.
fn method_action<'a>(
    family: Option<&'a NamedFamilyType>,
    name: &'a String,
    name_span: Span,
    value: &'a Expr,
) -> (action: EntryAction<'a>)
    ensures
        is_method_action(name@, name_span, ungrouped(*value).kind, methods_of(family), action),
{
    match &ungroup_expr(value).kind {
        ExprKind::Arrow { .. } => EntryAction::RejectSlot { name: name.as_str(), span: name_span },
        ExprKind::Lambda { params, requirements, body, .. } => {
            let signature = match family {
                Some(family) => family.methods.get(name.as_str()),
                None => None,
            };
            match signature {
                Some(signature) => EntryAction::CheckBody { signature, params, requirements, body },
                None => EntryAction::Accept,
            }
        },
        _ => EntryAction::Accept,
    }
}

/// Decide what is to be done about each entry of a provider's declaration.
pub fn check_named_family_declaration<'a>(
    family: Option<&'a NamedFamilyType>,
    entries: &'a Vec<RecordEntry>,
) -> (actions: Vec<EntryAction<'a>>)
    ensures
        actions.len() == entries.len(),
        forall|i: int|
            0 <= i < entries.len() ==> is_entry_action(
                entries@[i],
                family is Some && family->0@.primitive_base is Some,
                methods_of(family),
                #[trigger] actions@[i],
            ),
{
    let primitive = match family {
        Some(family) => family.primitive_base.is_some(),
        None => false,
    };
    let mut actions: Vec<EntryAction<'a>> = Vec::new();
    let mut index: usize = 0;
    while index < entries.len()
        invariant
            index <= entries.len(),
            actions.len() == index,
            primitive == (family is Some && family->0@.primitive_base is Some),
            forall|i: int|
                0 <= i < index ==> is_entry_action(
                    entries@[i],
                    primitive,
                    methods_of(family),
                    #[trigger] actions@[i],
                ),
        decreases entries.len() - index,
    {
        let entry = &entries[index];
        let action = match entry {
            RecordEntry::Method { name, name_span, value, .. } => method_action(
                family,
                name,
                *name_span,
                value,
            ),
            RecordEntry::FieldDefault { annotation, default, .. } => if primitive {
                EntryAction::RejectData { span: annotation.span }
            } else {
                EntryAction::CheckDefault { annotation, default }
            },
            RecordEntry::Field { name, name_span, overwrite, .. } => if *overwrite {
                EntryAction::RejectOverride { name: name.as_str(), span: *name_span }
            } else if primitive {
                EntryAction::RejectData { span: *name_span }
            } else {
                EntryAction::Accept
            },
            RecordEntry::Element(value) => EntryAction::RejectValue { span: value.span },
            _ => EntryAction::RejectTransform { span: builtin_attachment_member_span(entry) },
        };
        actions.push(action);
        index += 1;
    }
    actions
}

/// A parameter of a method with the type that it has in the body.
#[derive(Debug)]
pub struct BodyParam {
    pub name: String,
    pub span: Span,
    pub ty: Type,
}

/// How many parameters of a body have a type in the signature.
pub open spec fn typed_count(params: Seq<Param>, types: Seq<SpecType>) -> nat {
    if params.len() < types.len() {
        params.len()
    } else {
        types.len()
    }
}

/// List the types that the parameters of a method have in its body: each that of the
/// signature.
pub fn method_body_params(params: &Vec<Param>, types: &Vec<Type>) -> (locals: Vec<BodyParam>)
    ensures
        locals.len() == typed_count(params@, types_view(types@)),
        forall|i: int|
            0 <= i < locals.len() ==> {
                &&& (#[trigger] locals@[i]).name@ == params@[i].name@
                &&& locals@[i].span == params@[i].name_span
                &&& locals@[i].ty@ == types@[i]@
            },
{
    let mut locals: Vec<BodyParam> = Vec::new();
    let mut index: usize = 0;
    while index < params.len() && index < types.len()
        invariant
            index <= params.len(),
            index <= types.len(),
            locals.len() == index,
            forall|i: int|
                0 <= i < index ==> {
                    &&& (#[trigger] locals@[i]).name@ == params@[i].name@
                    &&& locals@[i].span == params@[i].name_span
                    &&& locals@[i].ty@ == types@[i]@
                },
        decreases params.len() - index,
    {
        locals.push(
            BodyParam {
                name: params[index].name.clone(),
                span: params[index].name_span,
                ty: types[index].clone(),
            },
        );
        index += 1;
    }
    assert(types_view(types@).len() == types.len());
    locals
}

/// No data field of a family with a builtin base is accepted.
pub proof fn primitive_families_have_no_data(
    entry: RecordEntry,
    methods: Map<Seq<char>, SpecMethod>,
    action: EntryAction<'_>,
)
    requires
        declares_field(entry),
        is_entry_action(entry, true, methods, action),
    ensures
        action is RejectData,
{
}

/// A body that is checked belongs to a method that the family has, and the method is
/// declared as a function.
pub proof fn checked_bodies_have_signatures(
    entry: RecordEntry,
    primitive: bool,
    methods: Map<Seq<char>, SpecMethod>,
    action: EntryAction<'_>,
)
    requires
        is_entry_action(entry, primitive, methods, action),
        action is CheckBody,
    ensures
        entry is Method,
        ungrouped(*entry->Method_value).kind is Lambda,
        methods.contains_key(entry->Method_name@),
        action->signature@ == methods[entry->Method_name@],
{
}

} // verus!
