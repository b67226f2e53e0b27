//! Results of checking a module that are kept, and the exact context in which
//! they may be used again.
use crate::collections::{bindings_map, bound_key_is_listed, last_binding_wins, StringMap};
use crate::methods::{BuiltinMethodType, NamedFamilyType, SpecBuiltinMethod, SpecFamily};
use crate::normalize::RecursiveTypes;
use crate::providers::ModuleIdentity;
use crate::same::{QualifiedType, Same, SpecQualifiedType};
use crate::text::same_text;
use crate::types::{RecursiveTypeId, SpecType, Type};
use vstd::prelude::*;

verus! {

/// A parameter of a host function that is evaluated at compile time: its value,
/// or only its type.
#[derive(Debug, Clone, Copy, PartialEq, Eq, Structural)]
pub enum HostComptimeParam {
    Value(usize),
    TypeOf(usize),
}

impl HostComptimeParam {
    /// The position of the parameter.
    pub fn index(self) -> (index: usize)
        ensures
            index == (match self {
                HostComptimeParam::Value(position) => position,
                HostComptimeParam::TypeOf(position) => position,
            }),
    {
        match self {
            HostComptimeParam::Value(index) => index,
            HostComptimeParam::TypeOf(index) => index,
        }
    }
}

/// What a module is to a program.
#[derive(Debug, Clone, Copy, PartialEq, Eq, Structural)]
pub enum ModuleRole {
    Entry,
    Dependency,
}

/// What the host of a program gives every module.
#[derive(Debug)]
pub struct HostGlobals {
    pub types: Vec<(String, Type)>,
    pub type_definitions: Vec<(String, Type)>,
    pub statics: Vec<(String, Vec<(String, Type)>)>,
    /// The functions that are called at compile time, as they were registered.
    pub comptime_fns: Vec<(String, Vec<HostComptimeParam>)>,
    pub type_definition_module: ModuleIdentity,
}

/// What a module imports, by specifier and name.
#[derive(Debug)]
pub struct ModuleImports {
    /// The types of the modules.
    pub values: StringMap<Type>,
    /// The types that modules export.
    pub type_exports: StringMap<StringMap<Type>>,
    /// The types of the values that modules export, with the methods that their variables
    /// must have.
    pub qualified_exports: StringMap<StringMap<QualifiedType>>,
    /// The functions on types that modules export, as they are stored.
    pub comptime_exports: StringMap<StringMap<String>>,
    /// The families that modules export.
    pub named_family_exports: StringMap<StringMap<NamedFamilyType>>,
    /// The methods that are attached to builtin types.
    pub builtin_methods: Vec<BuiltinMethodType>,
    /// What recursive types stand for.
    pub recursive_types: RecursiveTypes,
    /// Whether the module may attach methods to builtin types.
    pub trusted_builtin_method_source: bool,
}

impl ModuleImports {
    /// No imports.
    pub fn new() -> (imports: Self)
        ensures
            imports@ == (SpecImports {
                values: Map::empty(),
                type_exports: Map::empty(),
                qualified_exports: Map::empty(),
                comptime_exports: Map::empty(),
                named_family_exports: Map::empty(),
                builtin_methods: Seq::empty(),
                recursive_types: Map::empty(),
                trusted: false,
            }),
    {
        let imports = ModuleImports {
            values: StringMap::new(),
            type_exports: StringMap::new(),
            qualified_exports: StringMap::new(),
            comptime_exports: StringMap::new(),
            named_family_exports: StringMap::new(),
            builtin_methods: Vec::new(),
            recursive_types: RecursiveTypes { entries: Vec::new() },
            trusted_builtin_method_source: false,
        };
        assert(imports@.values =~= Map::empty());
        assert(imports@.type_exports =~= Map::empty());
        assert(imports@.qualified_exports =~= Map::empty());
        assert(imports@.comptime_exports =~= Map::empty());
        assert(imports@.named_family_exports =~= Map::empty());
        assert(imports@.builtin_methods =~= Seq::empty());
        assert(imports@.recursive_types =~= Map::empty());
        imports
    }
}

// ---------------------------------------------------------------------------
// What they say
// ---------------------------------------------------------------------------
impl Same for HostComptimeParam {
    type Said = HostComptimeParam;

    open spec fn said(&self) -> HostComptimeParam {
        *self
    }

    fn same(&self, other: &Self) -> (same: bool) {
        *self == *other
    }
}

/// The identity of a module.
pub ghost enum SpecModule {
    Current,
    Path(Seq<char>),
    Specifier(Seq<char>),
}

impl Same for ModuleIdentity {
    type Said = SpecModule;

    open spec fn said(&self) -> SpecModule {
        match self {
            ModuleIdentity::Current => SpecModule::Current,
            ModuleIdentity::Path(path) => SpecModule::Path(path@),
            ModuleIdentity::Specifier(specifier) => SpecModule::Specifier(specifier@),
        }
    }

    fn same(&self, other: &Self) -> (same: bool) {
        match (self, other) {
            (ModuleIdentity::Current, ModuleIdentity::Current) => true,
            (ModuleIdentity::Path(left), ModuleIdentity::Path(right)) => same_text(
                left.as_str(),
                right.as_str(),
            ),
            (ModuleIdentity::Specifier(left), ModuleIdentity::Specifier(right)) => same_text(
                left.as_str(),
                right.as_str(),
            ),
            _ => false,
        }
    }
}

/// The functions that are called at compile time, by name. The order in which
/// they were registered does not count.
pub open spec fn registered(comptime_fns: Seq<(String, Vec<HostComptimeParam>)>) -> Map<
    Seq<char>,
    Seq<HostComptimeParam>,
> {
    Map::new(
        |name: Seq<char>| bindings_map(comptime_fns).contains_key(name),
        |name: Seq<char>| bindings_map(comptime_fns)[name].said(),
    )
}

/// The part of a host that a check depends on.
pub ghost struct SpecHost {
    pub types: Seq<(Seq<char>, SpecType)>,
    pub type_definitions: Seq<(Seq<char>, SpecType)>,
    pub statics: Seq<(Seq<char>, Seq<(Seq<char>, SpecType)>)>,
    pub comptime_params: Map<Seq<char>, Seq<HostComptimeParam>>,
    pub type_definition_module: SpecModule,
}

impl HostGlobals {
    /// The part of the host that a check depends on.
    pub open spec fn view(&self) -> SpecHost {
        SpecHost {
            types: self.types.said(),
            type_definitions: self.type_definitions.said(),
            statics: self.statics.said(),
            comptime_params: registered(self.comptime_fns@),
            type_definition_module: self.type_definition_module.said(),
        }
    }
}

/// What a module imports.
pub ghost struct SpecImports {
    pub values: Map<Seq<char>, SpecType>,
    pub type_exports: Map<Seq<char>, Map<Seq<char>, SpecType>>,
    pub qualified_exports: Map<Seq<char>, Map<Seq<char>, SpecQualifiedType>>,
    pub comptime_exports: Map<Seq<char>, Map<Seq<char>, Seq<char>>>,
    pub named_family_exports: Map<Seq<char>, Map<Seq<char>, SpecFamily>>,
    pub builtin_methods: Seq<SpecBuiltinMethod>,
    pub recursive_types: Map<RecursiveTypeId, SpecType>,
    pub trusted: bool,
}

impl ModuleImports {
    pub open spec fn view(&self) -> SpecImports {
        SpecImports {
            values: self.values.said(),
            type_exports: self.type_exports.said(),
            qualified_exports: self.qualified_exports.said(),
            comptime_exports: self.comptime_exports.said(),
            named_family_exports: self.named_family_exports.said(),
            builtin_methods: self.builtin_methods.said(),
            recursive_types: self.recursive_types.said(),
            trusted: self.trusted_builtin_method_source,
        }
    }
}

fn same_imports(left: &ModuleImports, right: &ModuleImports) -> (same: bool)
    ensures
        same == (left@ == right@),
{
    left.trusted_builtin_method_source == right.trusted_builtin_method_source
        && left.values.same(&right.values) && left.type_exports.same(&right.type_exports)
        && left.qualified_exports.same(&right.qualified_exports)
        && left.comptime_exports.same(&right.comptime_exports)
        && left.named_family_exports.same(&right.named_family_exports)
        && left.builtin_methods.same(&right.builtin_methods) && left.recursive_types.same(
        &right.recursive_types,
    )
}

// ---------------------------------------------------------------------------
// Functions that are called at compile time
// ---------------------------------------------------------------------------
fn copy_params(params: &Vec<HostComptimeParam>) -> (copied: Vec<HostComptimeParam>)
    ensures
        copied.said() == params.said(),
{
    let mut copied: Vec<HostComptimeParam> = Vec::new();
    let mut index: usize = 0;
    while index < params.len()
        invariant
            index <= params.len(),
            copied@ == params@.take(index as int),
        decreases params.len() - index,
    {
        copied.push(params[index]);
        assert(copied@ =~= params@.take(index + 1));
        index += 1;
    }
    assert(params@.take(params@.len() as int) =~= params@);
    copied
}

fn registered_map(comptime_fns: &Vec<(String, Vec<HostComptimeParam>)>) -> (map: StringMap<
    Vec<HostComptimeParam>,
>)
    ensures
        map.said() == registered(comptime_fns@),
{
    let mut map: StringMap<Vec<HostComptimeParam>> = StringMap::new();
    let mut index: usize = 0;
    let ghost all = comptime_fns@;
    assert(map.said() =~= registered(all.take(0)));
    while index < comptime_fns.len()
        invariant
            index <= comptime_fns.len(),
            all == comptime_fns@,
            map.said() == registered(all.take(index as int)),
        decreases comptime_fns.len() - index,
    {
        let ghost before = map.said();
        let ghost shorter = all.take(index as int);
        let ghost longer = all.take(index + 1);
        let ghost name = all[index as int].0@;
        assert(longer.drop_last() =~= shorter);
        assert(longer.last() == all[index as int]);
        let params = copy_params(&comptime_fns[index].1);
        map.insert(comptime_fns[index].0.clone(), params);
        assert(map.said() =~= before.insert(name, all[index as int].1.said()));
        assert(registered(longer) =~= registered(shorter).insert(
            name,
            all[index as int].1.said(),
        ));
        index += 1;
    }
    assert(all.take(all.len() as int) =~= all);
    map
}

/// Whether a host has registered the functions that were kept, whatever the order.
pub fn comptime_params_match(baked: &StringMap<Vec<HostComptimeParam>>, globals: &HostGlobals) -> (matching:
    bool)
    ensures
        matching == (baked.said() == globals@.comptime_params),
{
    let runtime = registered_map(&globals.comptime_fns);
    baked.same(&runtime)
}

// ---------------------------------------------------------------------------
// The host
// ---------------------------------------------------------------------------
/// The part of a host that a check depends on, as it was.
#[derive(Debug)]
pub struct HostContext {
    types: Vec<(String, Type)>,
    type_definitions: Vec<(String, Type)>,
    statics: Vec<(String, Vec<(String, Type)>)>,
    comptime_params: StringMap<Vec<HostComptimeParam>>,
    type_definition_module: ModuleIdentity,
}

fn copy_members(members: &Vec<(String, Type)>) -> (copied: Vec<(String, Type)>)
    ensures
        copied.said() == members.said(),
{
    let mut copied: Vec<(String, Type)> = Vec::new();
    let mut index: usize = 0;
    while index < members.len()
        invariant
            index <= members.len(),
            copied.len() == index,
            forall|i: int|
                0 <= i < index ==> (#[trigger] copied@[i]).0@ == members@[i].0@ && copied@[i].1@
                    == members@[i].1@,
        decreases members.len() - index,
    {
        copied.push((members[index].0.clone(), members[index].1.clone()));
        index += 1;
    }
    assert(copied.said() =~= members.said());
    copied
}

fn copy_statics(statics: &Vec<(String, Vec<(String, Type)>)>) -> (copied: Vec<
    (String, Vec<(String, Type)>),
>)
    ensures
        copied.said() == statics.said(),
{
    let mut copied: Vec<(String, Vec<(String, Type)>)> = Vec::new();
    let mut index: usize = 0;
    while index < statics.len()
        invariant
            index <= statics.len(),
            copied.len() == index,
            forall|i: int|
                0 <= i < index ==> (#[trigger] copied@[i]).0@ == statics@[i].0@
                    && copied@[i].1.said() == statics@[i].1.said(),
        decreases statics.len() - index,
    {
        copied.push((statics[index].0.clone(), copy_members(&statics[index].1)));
        index += 1;
    }
    assert(copied.said() =~= statics.said());
    copied
}

fn copy_module(module: &ModuleIdentity) -> (copied: ModuleIdentity)
    ensures
        copied.said() == module.said(),
{
    match module {
        ModuleIdentity::Current => ModuleIdentity::Current,
        ModuleIdentity::Path(path) => ModuleIdentity::Path(path.clone()),
        ModuleIdentity::Specifier(specifier) => ModuleIdentity::Specifier(specifier.clone()),
    }
}

impl HostContext {
    pub closed spec fn view(&self) -> SpecHost {
        SpecHost {
            types: self.types.said(),
            type_definitions: self.type_definitions.said(),
            statics: self.statics.said(),
            comptime_params: self.comptime_params.said(),
            type_definition_module: self.type_definition_module.said(),
        }
    }

    /// The part of a host that a check depends on.
    pub fn new(globals: &HostGlobals) -> (context: Self)
        ensures
            context@ == globals@,
    {
        HostContext {
            types: copy_members(&globals.types),
            type_definitions: copy_members(&globals.type_definitions),
            statics: copy_statics(&globals.statics),
            comptime_params: registered_map(&globals.comptime_fns),
            type_definition_module: copy_module(&globals.type_definition_module),
        }
    }

    /// Whether a host is the same as far as a check depends on it.
    pub fn matches(&self, globals: &HostGlobals) -> (matching: bool)
        ensures
            matching == (self@ == globals@),
    {
        self.types.same(&globals.types) && self.type_definitions.same(&globals.type_definitions)
            && self.statics.same(&globals.statics) && self.type_definition_module.same(
            &globals.type_definition_module,
        ) && comptime_params_match(&self.comptime_params, globals)
    }
}

// ---------------------------------------------------------------------------
// Checked modules
// ---------------------------------------------------------------------------
/// A checked module with everything that the check depended on.
#[derive(Debug)]
pub struct BakedCheck<O> {
    source: String,
    host: HostContext,
    imports: ModuleImports,
    identity: ModuleIdentity,
    role: ModuleRole,
    output: O,
}

/// Everything that a check depends on.
pub ghost struct CheckInputs {
    pub source: Seq<char>,
    pub host: SpecHost,
    pub imports: SpecImports,
    pub identity: SpecModule,
    pub role: ModuleRole,
}

/// Everything that a check depends on.
pub open spec fn inputs_of(
    source: Seq<char>,
    globals: HostGlobals,
    imports: ModuleImports,
    identity: ModuleIdentity,
    role: ModuleRole,
) -> CheckInputs {
    CheckInputs {
        source,
        host: globals@,
        imports: imports@,
        identity: identity.said(),
        role,
    }
}

/// What a kept check says of a module: what it found, if everything that it depended on
/// is the same.
pub open spec fn reused<O>(baked: BakedCheck<O>, inputs: CheckInputs) -> Option<O> {
    if baked.inputs() == inputs {
        Some(baked.found())
    } else {
        None
    }
}

impl<O> BakedCheck<O> {
    /// What the check depended on.
    pub closed spec fn inputs(&self) -> CheckInputs {
        CheckInputs {
            source: self.source@,
            host: self.host@,
            imports: self.imports@,
            identity: self.identity.said(),
            role: self.role,
        }
    }

    /// What the check found.
    pub closed spec fn found(&self) -> O {
        self.output
    }

    /// Keep what a check found, unless it called a function of the host: equal
    /// signatures do not make such functions do the same.
    pub fn check(
        source: &str,
        globals: &HostGlobals,
        imports: ModuleImports,
        identity: ModuleIdentity,
        role: ModuleRole,
        output: O,
        callback_invoked: bool,
    ) -> (baked: Option<Self>)
        ensures
            baked is None == callback_invoked,
            baked is Some ==> baked->0.inputs() == inputs_of(
                source@,
                *globals,
                imports,
                identity,
                role,
            ) && baked->0.found() == output,
    {
        if callback_invoked {
            return None;
        }
        Some(
            BakedCheck {
                source: source.to_owned(),
                host: HostContext::new(globals),
                imports,
                identity,
                role,
                output,
            },
        )
    }

    /// What the check found, if everything that it depended on is the same.
    pub fn into_checked(
        self,
        source: &str,
        globals: &HostGlobals,
        imports: &ModuleImports,
        identity: &ModuleIdentity,
        role: ModuleRole,
    ) -> (output: Option<O>)
        ensures
            output == reused(self, inputs_of(source@, *globals, *imports, *identity, role)),
    {
        if same_text(self.source.as_str(), source) && self.host.matches(globals)
            && same_imports(&self.imports, imports) && self.identity.same(identity) && self.role == role {
            Some(self.output)
        } else {
            None
        }
    }
}

// ---------------------------------------------------------------------------
// Laws
// ---------------------------------------------------------------------------
/// Whether no two functions were registered under one name.
pub open spec fn names_are_distinct(comptime_fns: Seq<(String, Vec<HostComptimeParam>)>) -> bool {
    forall|i: int, j: int|
        0 <= i < j < comptime_fns.len() ==> (#[trigger] comptime_fns[i]).0@ != (
        #[trigger] comptime_fns[j]).0@
}

proof fn registered_function(comptime_fns: Seq<(String, Vec<HostComptimeParam>)>, index: int)
    requires
        names_are_distinct(comptime_fns),
        0 <= index < comptime_fns.len(),
    ensures
        registered(comptime_fns).contains_key(comptime_fns[index].0@),
        registered(comptime_fns)[comptime_fns[index].0@] == comptime_fns[index].1.said(),
{
    assert forall|i: int| index < i < comptime_fns.len() implies (
    #[trigger] comptime_fns[i]).0@ != comptime_fns[index].0@ by {
        assert(comptime_fns[index].0@ != comptime_fns[i].0@);
    }
    last_binding_wins(comptime_fns, index);
}

/// The order in which functions were registered does not matter.
pub proof fn registration_order_does_not_matter(
    first: Seq<(String, Vec<HostComptimeParam>)>,
    second: Seq<(String, Vec<HostComptimeParam>)>,
)
    requires
        names_are_distinct(first),
        names_are_distinct(second),
        forall|function: (String, Vec<HostComptimeParam>)|
            first.contains(function) == second.contains(function),
    ensures
        registered(first) == registered(second),
{
    let left = registered(first);
    let right = registered(second);
    assert forall|name: Seq<char>| #[trigger] left.contains_key(name) implies right.contains_key(
        name,
    ) && left[name] == right[name] by {
        bound_key_is_listed(first, name);
        let i = choose|i: int| 0 <= i < first.len() && (#[trigger] first[i]).0@ == name;
        assert(first.contains(first[i]));
        let j = choose|j: int| 0 <= j < second.len() && second[j] == first[i];
        registered_function(first, i);
        registered_function(second, j);
    }
    assert forall|name: Seq<char>| #[trigger] right.contains_key(name) implies left.contains_key(
        name,
    ) by {
        bound_key_is_listed(second, name);
        let i = choose|i: int| 0 <= i < second.len() && (#[trigger] second[i]).0@ == name;
        assert(second.contains(second[i]));
        let j = choose|j: int| 0 <= j < first.len() && first[j] == second[i];
        registered_function(first, j);
    }
    assert(left =~= right);
}

/// A kept check is used again exactly where the source, the host, the imports, the
/// module and its role are the same.
pub proof fn reuse_needs_equal_inputs<O>(baked: BakedCheck<O>, inputs: CheckInputs)
    ensures
        reused(baked, inputs) is Some == {
            &&& baked.inputs().source == inputs.source
            &&& baked.inputs().host == inputs.host
            &&& baked.inputs().imports == inputs.imports
            &&& baked.inputs().identity == inputs.identity
            &&& baked.inputs().role == inputs.role
        },
        reused(baked, inputs) is Some ==> reused(baked, inputs)->0 == baked.found(),
{
}

/// A host that registered the same functions in another order is the same host to a
/// kept check.
pub proof fn reuse_ignores_registration_order<O>(
    baked: BakedCheck<O>,
    source: Seq<char>,
    first: HostGlobals,
    second: HostGlobals,
    imports: ModuleImports,
    identity: ModuleIdentity,
    role: ModuleRole,
)
    requires
        first.types == second.types,
        first.type_definitions == second.type_definitions,
        first.statics == second.statics,
        first.type_definition_module == second.type_definition_module,
        names_are_distinct(first.comptime_fns@),
        names_are_distinct(second.comptime_fns@),
        forall|function: (String, Vec<HostComptimeParam>)|
            first.comptime_fns@.contains(function) == second.comptime_fns@.contains(function),
    ensures
        reused(baked, inputs_of(source, first, imports, identity, role)) == reused(
            baked,
            inputs_of(source, second, imports, identity, role),
        ),
{
    registration_order_does_not_matter(first.comptime_fns@, second.comptime_fns@);
}

} // verus!
