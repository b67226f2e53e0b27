//! Modules: the order in which they are checked and what their names stand for.
use crate::artifacts::visiting_shrinks;
use crate::baked::HostComptimeParam;
use crate::collections::{bindings_map, increasing, names_view, StringMap, StringSet};
use crate::diagnostics::{Code, Diagnostic, DiagnosticLog, SpecDiagnostic, SpecLog};
use crate::methods::{families_view, BuiltinMethodType, NamedFamilyType, SpecFamily};
use crate::patterns::{collect_record_pattern_rest_binders, pattern_rest_binders};
use crate::rows::LocalValueType;
use crate::schemes::{
    merge_sources_view, row_merges_view, RowMerge, RowMergeSource, SpecMergeSource, SpecRowMerge,
    SpecScheme, TypeScheme,
};
use crate::span::Span;
use crate::syntax::{
    builtin_attachment_member_span, entry_span, needs_evaluation, ungroup_expr, ungrouped, Expr,
    ExprKind, MatchArm, Param, RecordEntry,
};
use crate::text::{same_text, texts_contain, texts_view};
use crate::type_ops::{collect_type_variable_names, type_map_view, variables, variables_in};
use crate::types::{types_view, Row, RowTail, SpecType, Type};
use vstd::prelude::*;

verus! {

// ---------------------------------------------------------------------------
// Families of other modules
// ---------------------------------------------------------------------------
/// A pattern at the top level of a module, with the specifier of the module that its
/// value imports, if it does.
#[derive(Debug)]
pub struct ImportedPattern<'a> {
    pub specifier: Option<&'a str>,
    pub pattern: &'a Expr,
}

/// The name that an entry of a pattern takes from a module, and the one it binds.
pub open spec fn imported_names(entry: RecordEntry) -> Option<(Seq<char>, Seq<char>)> {
    match entry {
        RecordEntry::Shorthand { name, .. } => Some((name@, name@)),
        RecordEntry::Rename { from, to, .. } => Some((from@, to@)),
        _ => None,
    }
}

/// The families that are known, and the names under which they are.
pub ghost struct FamilyNames {
    pub aliases: Map<Seq<char>, Seq<char>>,
    pub families: Map<Seq<char>, SpecFamily>,
}

/// What is known after a family was imported under a name. Its owner stands for
/// itself, and a family that is known already stays.
pub open spec fn with_family(names: FamilyNames, target: Seq<char>, family: SpecFamily) -> FamilyNames {
    FamilyNames {
        aliases: names.aliases.insert(target, family.owner).insert(family.owner, family.owner),
        families: if names.families.contains_key(family.owner) {
            names.families
        } else {
            names.families.insert(family.owner, family)
        },
    }
}

/// What is known after the first entries of a pattern.
pub open spec fn with_entries(
    names: FamilyNames,
    entries: Seq<RecordEntry>,
    exports: Map<Seq<char>, SpecFamily>,
    count: nat,
) -> FamilyNames
    decreases count,
{
    if count == 0 || count > entries.len() {
        names
    } else {
        let earlier = with_entries(names, entries, exports, (count - 1) as nat);
        match imported_names(entries[count - 1]) {
            Some((source, target)) => if exports.contains_key(source) {
                with_family(earlier, target, exports[source])
            } else {
                earlier
            },
            None => earlier,
        }
    }
}

/// The entries of a pattern for records.
pub open spec fn pattern_entries(pattern: Expr) -> Seq<RecordEntry> {
    match ungrouped(pattern).kind {
        ExprKind::Record(entries) => entries@,
        _ => Seq::empty(),
    }
}

/// What is known after the first patterns of a module.
pub open spec fn with_patterns(
    names: FamilyNames,
    patterns: Seq<ImportedPattern<'_>>,
    exports: Map<Seq<char>, StringMap<NamedFamilyType>>,
    count: nat,
) -> FamilyNames
    decreases count,
{
    if count == 0 || count > patterns.len() {
        names
    } else {
        let earlier = with_patterns(names, patterns, exports, (count - 1) as nat);
        let pattern = patterns[count - 1];
        match pattern.specifier {
            Some(specifier) => if exports.contains_key(specifier@) {
                with_entries(
                    earlier,
                    pattern_entries(*pattern.pattern),
                    families_view(exports[specifier@]@),
                    pattern_entries(*pattern.pattern).len(),
                )
            } else {
                earlier
            },
            None => earlier,
        }
    }
}

/// The names of families in this module.
#[derive(Debug)]
pub struct FamilyTable {
    /// The owner that a name stands for.
    pub aliases: StringMap<String>,
    pub families: StringMap<NamedFamilyType>,
}

impl FamilyTable {
    pub open spec fn view(&self) -> FamilyNames {
        FamilyNames {
            aliases: names_view(self.aliases@),
            families: families_view(self.families@),
        }
    }

    fn add(&mut self, target: &str, family: &NamedFamilyType)
        ensures
            final(self)@ == with_family(old(self)@, target@, family@),
    {
        self.aliases.insert(target.to_owned(), family.owner.clone());
        self.aliases.insert(family.owner.clone(), family.owner.clone());
        assert(names_view(self.aliases@) =~= names_view(old(self).aliases@).insert(
            target@,
            family.owner@,
        ).insert(family.owner@, family.owner@));
        if !self.families.contains_key(family.owner.as_str()) {
            let copied = family.clone();
            self.families.insert(family.owner.clone(), copied);
            assert(families_view(self.families@) =~= families_view(old(self).families@).insert(
                family.owner@,
                family@,
            ));
        }
    }

    fn add_entries(&mut self, entries: &Vec<RecordEntry>, exports: &StringMap<NamedFamilyType>)
        ensures
            final(self)@ == with_entries(
                old(self)@,
                entries@,
                families_view(exports@),
                entries@.len(),
            ),
    {
        let ghost before = self@;
        let mut index: usize = 0;
        while index < entries.len()
            invariant
                index <= entries.len(),
                before == old(self)@,
                self@ == with_entries(before, entries@, families_view(exports@), index as nat),
            decreases entries.len() - index,
        {
            let names: Option<(&str, &str)> = match &entries[index] {
                RecordEntry::Shorthand { name, .. } => Some((name.as_str(), name.as_str())),
                RecordEntry::Rename { from, to, .. } => Some((from.as_str(), to.as_str())),
                _ => None,
            };
            if let Some((source, target)) = names {
                if let Some(family) = exports.get(source) {
                    self.add(target, family);
                }
            }
            index += 1;
        }
    }

    /// Add the families that the patterns of a module take from other modules.
    /// `exports` holds the families that each module exports.
    pub fn seed_imported_named_families(
        &mut self,
        patterns: &Vec<ImportedPattern<'_>>,
        exports: &StringMap<StringMap<NamedFamilyType>>,
    )
        ensures
            final(self)@ == with_patterns(old(self)@, patterns@, exports@, patterns@.len()),
    {
        let ghost before = self@;
        let mut index: usize = 0;
        while index < patterns.len()
            invariant
                index <= patterns.len(),
                before == old(self)@,
                self@ == with_patterns(before, patterns@, exports@, index as nat),
            decreases patterns.len() - index,
        {
            if let Some(specifier) = patterns[index].specifier {
                if let Some(families) = exports.get(specifier) {
                    if let ExprKind::Record(entries) = &ungroup_expr(patterns[index].pattern).kind {
                        self.add_entries(entries, families);
                    }
                }
            }
            index += 1;
        }
    }

    /// The owner of the family that an expression names, if it names one.
    pub fn named_family_constructor_owner(&self, callee: &Expr) -> (owner: Option<String>)
        ensures
            match owner {
                Some(owner) => crate::syntax::callee_name(*callee) is Some
                    && self@.aliases.contains_key(crate::syntax::callee_name(*callee)->0)
                    && self@.aliases[crate::syntax::callee_name(*callee)->0] == owner@,
                None => crate::syntax::callee_name(*callee) is None || !self@.aliases.contains_key(
                    crate::syntax::callee_name(*callee)->0,
                ),
            },
    {
        match crate::syntax::call_callee_name(callee) {
            Some(name) => match self.aliases.get(name) {
                Some(owner) => Some(owner.clone()),
                None => None,
            },
            None => None,
        }
    }
}

// ---------------------------------------------------------------------------
// The order of checks
// ---------------------------------------------------------------------------
/// An item at the top level of a module.
#[derive(Debug)]
#[allow(inconsistent_fields)]
pub enum ModuleItem<'a> {
    Declared,
    PatternBinding { pattern: &'a Expr, value: &'a Expr },
    SpreadBinding { value: &'a Expr },
    MethodAttachment { owner_span: Span },
    Expr(&'a Expr),
}

/// A step of checking a module.
#[derive(Debug)]
#[allow(inconsistent_fields)]
pub enum ModuleStep<'a> {
    /// The declaration at a position.
    Declaration(usize),
    PatternBinding { pattern: &'a Expr, value: &'a Expr },
    SpreadBinding { value: &'a Expr },
    Attachment { owner_span: Span },
    /// A value that is dropped must not be a result.
    Dropped(&'a Expr),
    Value(&'a Expr),
    /// The type of the value of the module is found, and repeated reports are dropped.
    Result(&'a Expr),
}

/// A step of checking a module.
#[allow(inconsistent_fields)]
pub ghost enum SpecModuleStep {
    Declaration(nat),
    PatternBinding { pattern: Expr, value: Expr },
    SpreadBinding { value: Expr },
    Attachment { owner_span: Span },
    Dropped(Expr),
    Value(Expr),
    Result(Expr),
}

impl<'a> ModuleStep<'a> {
    pub open spec fn view(&self) -> SpecModuleStep {
        match *self {
            ModuleStep::Declaration(position) => SpecModuleStep::Declaration(position as nat),
            ModuleStep::PatternBinding { pattern, value } => SpecModuleStep::PatternBinding {
                pattern: *pattern,
                value: *value,
            },
            ModuleStep::SpreadBinding { value } => SpecModuleStep::SpreadBinding { value: *value },
            ModuleStep::Attachment { owner_span } => SpecModuleStep::Attachment { owner_span },
            ModuleStep::Dropped(expr) => SpecModuleStep::Dropped(*expr),
            ModuleStep::Value(expr) => SpecModuleStep::Value(*expr),
            ModuleStep::Result(expr) => SpecModuleStep::Result(*expr),
        }
    }
}

pub open spec fn module_steps_view(steps: Seq<ModuleStep<'_>>) -> Seq<SpecModuleStep> {
    Seq::new(steps.len(), |i: int| steps[i]@)
}

/// The steps for one item of a module.
pub open spec fn module_item_steps(item: ModuleItem<'_>, last: bool) -> Seq<SpecModuleStep> {
    match item {
        ModuleItem::Declared => Seq::empty(),
        ModuleItem::PatternBinding { pattern, value } => seq![
            SpecModuleStep::PatternBinding { pattern: *pattern, value: *value },
        ],
        ModuleItem::SpreadBinding { value } => seq![
            SpecModuleStep::SpreadBinding { value: *value },
        ],
        ModuleItem::MethodAttachment { owner_span } => seq![
            SpecModuleStep::Attachment { owner_span },
        ],
        ModuleItem::Expr(expr) => if last {
            seq![SpecModuleStep::Value(*expr), SpecModuleStep::Result(*expr)]
        } else {
            seq![SpecModuleStep::Dropped(*expr), SpecModuleStep::Value(*expr)]
        },
    }
}

/// The steps for the first items of a module.
pub open spec fn module_items_steps(items: Seq<ModuleItem<'_>>, count: nat) -> Seq<SpecModuleStep>
    decreases count,
{
    if count == 0 || count > items.len() {
        Seq::empty()
    } else {
        module_items_steps(items, (count - 1) as nat) + module_item_steps(
            items[count - 1],
            count == items.len(),
        )
    }
}

/// The steps of checking a module: all declarations first, and then the other items.
pub open spec fn module_steps(declarations: nat, items: Seq<ModuleItem<'_>>) -> Seq<
    SpecModuleStep,
> {
    Seq::new(declarations, |i: int| SpecModuleStep::Declaration(i as nat)) + module_items_steps(
        items,
        items.len(),
    )
}

fn take_module_step<'a>(steps: &mut Vec<ModuleStep<'a>>, step: ModuleStep<'a>)
    ensures
        module_steps_view(final(steps)@) == module_steps_view(old(steps)@).push(step@),
{
    steps.push(step);
    assert(module_steps_view(steps@) =~= module_steps_view(old(steps)@).push(step@));
}

/// List the steps of checking a module.
pub fn check_module<'a>(declarations: usize, items: &Vec<ModuleItem<'a>>) -> (steps: Vec<
    ModuleStep<'a>,
>)
    ensures
        module_steps_view(steps@) == module_steps(declarations as nat, items@),
{
    let mut steps: Vec<ModuleStep<'a>> = Vec::new();
    let ghost first = Seq::new(
        declarations as nat,
        |i: int| SpecModuleStep::Declaration(i as nat),
    );
    let mut position: usize = 0;
    assert(module_steps_view(steps@) =~= first.take(0));
    while position < declarations
        invariant
            position <= declarations,
            first == Seq::new(
                declarations as nat,
                |i: int| SpecModuleStep::Declaration(i as nat),
            ),
            module_steps_view(steps@) == first.take(position as int),
        decreases declarations - position,
    {
        take_module_step(&mut steps, ModuleStep::Declaration(position));
        assert(module_steps_view(steps@) =~= first.take(position + 1));
        position += 1;
    }
    let mut index: usize = 0;
    assert(module_steps_view(steps@) =~= first + module_items_steps(items@, 0));
    while index < items.len()
        invariant
            index <= items.len(),
            module_steps_view(steps@) == first + module_items_steps(items@, index as nat),
        decreases items.len() - index,
    {
        let ghost before = module_steps_view(steps@);
        let last = index + 1 == items.len();
        match items[index] {
            ModuleItem::Declared => {},
            ModuleItem::PatternBinding { pattern, value } => {
                take_module_step(&mut steps, ModuleStep::PatternBinding { pattern, value });
            },
            ModuleItem::SpreadBinding { value } => {
                take_module_step(&mut steps, ModuleStep::SpreadBinding { value });
            },
            ModuleItem::MethodAttachment { owner_span } => {
                take_module_step(&mut steps, ModuleStep::Attachment { owner_span });
            },
            ModuleItem::Expr(expr) => {
                if last {
                    take_module_step(&mut steps, ModuleStep::Value(expr));
                    take_module_step(&mut steps, ModuleStep::Result(expr));
                } else {
                    take_module_step(&mut steps, ModuleStep::Dropped(expr));
                    take_module_step(&mut steps, ModuleStep::Value(expr));
                }
            },
        }
        assert(module_steps_view(steps@) =~= before + module_item_steps(
            items@[index as int],
            last,
        ));
        assert(module_steps_view(steps@) =~= first + module_items_steps(
            items@,
            (index + 1) as nat,
        ));
        index += 1;
    }
    steps
}

// ---------------------------------------------------------------------------
// Statics
// ---------------------------------------------------------------------------
/// The types of statics, by the type that carries them.
pub open spec fn statics_maps_view(statics: Map<Seq<char>, StringMap<Type>>) -> Map<
    Seq<char>,
    Map<Seq<char>, SpecType>,
> {
    Map::new(
        |name: Seq<char>| statics.contains_key(name),
        |name: Seq<char>| type_map_view(statics[name]@),
    )
}

/// Members added to others; a later one replaces an earlier one of its name.
pub open spec fn with_members(
    members: Map<Seq<char>, SpecType>,
    added: Seq<(String, Type)>,
) -> Map<Seq<char>, SpecType>
    decreases added.len(),
{
    if added.len() == 0 {
        members
    } else {
        with_members(members, added.drop_last()).insert(added.last().0@, added.last().1@)
    }
}

/// The statics that tables give types, in order.
pub open spec fn statics_of(tables: Seq<(String, Vec<(String, Type)>)>) -> Map<
    Seq<char>,
    Map<Seq<char>, SpecType>,
>
    decreases tables.len(),
{
    if tables.len() == 0 {
        Map::empty()
    } else {
        let earlier = statics_of(tables.drop_last());
        let name = tables.last().0@;
        earlier.insert(
            name,
            with_members(
                if earlier.contains_key(name) {
                    earlier[name]
                } else {
                    Map::empty()
                },
                tables.last().1@,
            ),
        )
    }
}

fn copy_types(types: &StringMap<Type>) -> (copied: StringMap<Type>)
    ensures
        type_map_view(copied@) == type_map_view(types@),
{
    let ghost listing = types.listing();
    let mut copied: StringMap<Type> = StringMap::new();
    let mut index: usize = 0;
    proof {
        types.listing_denotes();
    }
    assert(type_map_view(copied@) =~= type_map_view(bindings_map(listing.take(0))));
    while index < types.len()
        invariant
            index <= listing.len(),
            listing == types.listing(),
            type_map_view(copied@) == type_map_view(bindings_map(listing.take(index as int))),
        decreases listing.len() - index,
    {
        let entry = types.entry(index);
        let ghost shorter = listing.take(index as int);
        let ghost longer = listing.take(index + 1);
        assert(longer.drop_last() =~= shorter);
        assert(longer.last() == listing[index as int]);
        let ghost before = type_map_view(copied@);
        copied.insert(entry.0.clone(), entry.1.clone());
        assert(type_map_view(copied@) =~= before.insert(entry.0@, entry.1@));
        assert(bindings_map(longer) == bindings_map(shorter).insert(entry.0@, entry.1));
        assert(type_map_view(bindings_map(longer)) =~= before.insert(entry.0@, entry.1@));
        index += 1;
    }
    assert(listing.take(listing.len() as int) =~= listing);
    copied
}

/// Collect the statics of types: those of the builtin types, and then those of the
/// host.
pub fn build_statics(tables: &Vec<(String, Vec<(String, Type)>)>) -> (statics: StringMap<
    StringMap<Type>,
>)
    ensures
        statics_maps_view(statics@) == statics_of(tables@),
{
    let ghost all = tables@;
    let mut statics: StringMap<StringMap<Type>> = StringMap::new();
    let mut index: usize = 0;
    assert(statics_maps_view(statics@) =~= statics_of(all.take(0)));
    while index < tables.len()
        invariant
            index <= tables.len(),
            all == tables@,
            statics_maps_view(statics@) == statics_of(all.take(index as int)),
        decreases tables.len() - index,
    {
        let name = tables[index].0.as_str();
        let added = &tables[index].1;
        let ghost earlier = statics_maps_view(statics@);
        let ghost longer = all.take(index + 1);
        assert(longer.drop_last() =~= all.take(index as int));
        assert(longer.last() == all[index as int]);
        let mut members: StringMap<Type> = match statics.get(name) {
            Some(known) => copy_types(known),
            None => StringMap::new(),
        };
        let ghost start: Map<Seq<char>, SpecType> = if earlier.contains_key(name@) {
            earlier[name@]
        } else {
            Map::empty()
        };
        assert(type_map_view(members@) =~= start);
        let mut member: usize = 0;
        assert(added@.take(0) =~= Seq::empty());
        while member < added.len()
            invariant
                member <= added.len(),
                type_map_view(members@) == with_members(start, added@.take(member as int)),
            decreases added.len() - member,
        {
            let ghost before = type_map_view(members@);
            let ghost more = added@.take(member + 1);
            assert(more.drop_last() =~= added@.take(member as int));
            assert(more.last() == added@[member as int]);
            members.insert(added[member].0.clone(), added[member].1.clone());
            assert(type_map_view(members@) =~= before.insert(more.last().0@, more.last().1@));
            member += 1;
        }
        assert(added@.take(added@.len() as int) =~= added@);
        statics.insert(tables[index].0.clone(), members);
        assert(statics_maps_view(statics@) =~= statics_of(longer));
        index += 1;
    }
    assert(all.take(all.len() as int) =~= all);
    statics
}

// ---------------------------------------------------------------------------
// Published types
// ---------------------------------------------------------------------------
/// Types after the fields of a spread record: a name that is known stays as it is,
/// and of two fields of one name the first counts.
pub open spec fn with_spread(
    types: Map<Seq<char>, Option<TypeScheme>>,
    fields: Seq<(String, TypeScheme)>,
) -> Map<Seq<char>, Option<TypeScheme>>
    decreases fields.len(),
{
    if fields.len() == 0 {
        types
    } else {
        let earlier = with_spread(types, fields.drop_last());
        if earlier.contains_key(fields.last().0@) {
            earlier
        } else {
            earlier.insert(fields.last().0@, Some(fields.last().1))
        }
    }
}

/// Publish the fields of a record that is spread at the top level.
pub fn insert_top_level_spread_types(
    types: &mut StringMap<Option<TypeScheme>>,
    fields: Vec<(String, TypeScheme)>,
)
    ensures
        final(types)@ == with_spread(old(types)@, fields@),
{
    let ghost all = fields@;
    let ghost before = types@;
    let ghost mut done: int = 0;
    let mut rest = fields;
    assert(all.take(0) =~= Seq::empty());
    while rest.len() > 0
        invariant
            0 <= done,
            done + rest.len() == all.len(),
            all == fields@,
            before == old(types)@,
            rest@ == all.skip(done),
            types@ == with_spread(before, all.take(done)),
        decreases rest.len(),
    {
        let (name, scheme) = rest.remove(0);
        proof {
            let longer = all.take(done + 1);
            assert(longer.drop_last() =~= all.take(done));
            assert(longer.last() == all[done]);
            assert((name, scheme) == all[done]);
            assert(rest@ =~= all.skip(done + 1));
            done = done + 1;
        }
        if !types.contains_key(name.as_str()) {
            types.insert(name, Some(scheme));
        }
    }
    assert(all.take(done) =~= all);
}

/// The last of the first patterns that binds a name.
pub open spec fn last_pattern(sites: Seq<Vec<String>>, name: Seq<char>, count: nat) -> Option<nat>
    decreases count,
{
    if count == 0 || count > sites.len() {
        None
    } else if texts_view(sites[count - 1]@).contains(name) {
        Some((count - 1) as nat)
    } else {
        last_pattern(sites, name, (count - 1) as nat)
    }
}

/// Find the pattern at the top level that binds a name: the last one.
pub fn collect_top_level_pattern_bindings(sites: &Vec<Vec<String>>, name: &str) -> (pattern: Option<
    usize,
>)
    ensures
        match pattern {
            Some(position) => last_pattern(sites@, name@, sites@.len()) == Some(position as nat),
            None => last_pattern(sites@, name@, sites@.len()) is None,
        },
{
    let mut index: usize = sites.len();
    while index > 0
        invariant
            index <= sites.len(),
            last_pattern(sites@, name@, sites@.len()) == last_pattern(sites@, name@, index as nat),
        decreases index,
    {
        index -= 1;
        if texts_contain(&sites[index], name) {
            assert(texts_view(sites@[index as int]@).contains(name@));
            return Some(index);
        }
    }
    None
}

// ---------------------------------------------------------------------------
// Attached methods
// ---------------------------------------------------------------------------
/// What is done for a member of an attachment.
#[derive(Debug)]
#[allow(inconsistent_fields)]
pub enum AttachmentCheck<'a> {
    /// The member is no method.
    Unsupported { span: Span },
    /// The method has no body.
    NoBody { name: &'a str, span: Span },
    /// The body is held against the result of the method at a position.
    Body { method: usize, params: &'a Vec<Param>, body: &'a Expr },
}

/// The first method that was attached at a place.
pub open spec fn method_at(methods: Seq<BuiltinMethodType>, span: Span, from: int) -> Option<int>
    decreases methods.len() - from,
{
    if from < 0 || from >= methods.len() {
        None
    } else if methods[from].member_span == span {
        Some(from)
    } else {
        method_at(methods, span, from + 1)
    }
}

/// Whether a method was attached to an owner at a place.
pub open spec fn owner_is_attached(methods: Seq<BuiltinMethodType>, owner_span: Span) -> bool {
    exists|i: int| 0 <= i < methods.len() && (#[trigger] methods[i]).owner_span == owner_span
}

/// Whether a member is passed over: it has a body, but was not attached.
pub open spec fn is_passed_over(member: RecordEntry, methods: Seq<BuiltinMethodType>) -> bool {
    match member {
        RecordEntry::Method { name_span, value, .. } => ungrouped(*value).kind is Lambda
            && method_at(methods, name_span, 0) is None,
        _ => false,
    }
}

/// Whether a check is the one for a member that is not passed over.
pub open spec fn is_member_check(
    member: RecordEntry,
    methods: Seq<BuiltinMethodType>,
    check: AttachmentCheck<'_>,
) -> bool {
    match member {
        RecordEntry::Method { name, name_span, value, .. } => match ungrouped(*value).kind {
            ExprKind::Lambda { params, body, .. } => check is Body && Some(
                check->method as int,
            ) == method_at(methods, name_span, 0) && *check->params == params && *check->body
                == *body,
            _ => check is NoBody && check->name@ == name@ && check->NoBody_span == name_span,
        },
        _ => check is Unsupported && check->Unsupported_span == entry_span(member),
    }
}

/// The positions of the first members that are not passed over.
pub open spec fn checked_members(
    members: Seq<RecordEntry>,
    methods: Seq<BuiltinMethodType>,
    count: nat,
) -> Seq<int>
    decreases count,
{
    if count == 0 || count > members.len() {
        Seq::empty()
    } else {
        let earlier = checked_members(members, methods, (count - 1) as nat);
        if is_passed_over(members[count - 1], methods) {
            earlier
        } else {
            earlier.push(count - 1)
        }
    }
}

fn find_method_at(methods: &Vec<BuiltinMethodType>, span: Span) -> (found: Option<usize>)
    ensures
        match found {
            Some(position) => method_at(methods@, span, 0) == Some(position as int),
            None => method_at(methods@, span, 0) is None,
        },
{
    let mut index: usize = 0;
    while index < methods.len()
        invariant
            index <= methods.len(),
            method_at(methods@, span, 0) == method_at(methods@, span, index as int),
        decreases methods.len() - index,
    {
        if methods[index].member_span == span {
            return Some(index);
        }
        index += 1;
    }
    None
}

/// List what is done for the members of an attachment. Nothing is done in a module
/// that may not attach methods, nor where nothing was attached to the owner.
pub fn check_builtin_method_attachment<'a>(
    trusted: bool,
    owner_span: Span,
    members: &'a Vec<RecordEntry>,
    methods: &Vec<BuiltinMethodType>,
) -> (checks: Vec<AttachmentCheck<'a>>)
    ensures
        if !trusted || !owner_is_attached(methods@, owner_span) {
            checks@.len() == 0
        } else {
            let positions = checked_members(members@, methods@, members@.len());
            checks@.len() == positions.len() && forall|k: int|
                0 <= k < checks@.len() ==> is_member_check(
                    members@[positions[k]],
                    methods@,
                    #[trigger] checks@[k],
                )
        },
{
    let mut checks: Vec<AttachmentCheck<'a>> = Vec::new();
    if !trusted {
        return checks;
    }
    let mut attached = false;
    let mut index: usize = 0;
    while index < methods.len()
        invariant
            index <= methods.len(),
            attached == exists|i: int|
                0 <= i < index && (#[trigger] methods@[i]).owner_span == owner_span,
        decreases methods.len() - index,
    {
        if methods[index].owner_span == owner_span {
            attached = true;
        }
        index += 1;
    }
    if !attached {
        return checks;
    }
    let mut index: usize = 0;
    while index < members.len()
        invariant
            index <= members.len(),
            ({
                let positions = checked_members(members@, methods@, index as nat);
                checks@.len() == positions.len() && forall|k: int|
                    0 <= k < checks@.len() ==> is_member_check(
                        members@[positions[k]],
                        methods@,
                        #[trigger] checks@[k],
                    )
            }),
        decreases members.len() - index,
    {
        match &members[index] {
            RecordEntry::Method { name, name_span, value, .. } => {
                match &ungroup_expr(value).kind {
                    ExprKind::Lambda { params, body, .. } => {
                        if let Some(method) = find_method_at(methods, *name_span) {
                            checks.push(AttachmentCheck::Body { method, params, body });
                        }
                    },
                    _ => {
                        checks.push(
                            AttachmentCheck::NoBody { name: name.as_str(), span: *name_span },
                        );
                    },
                }
            },
            _ => {
                let span = builtin_attachment_member_span(&members[index]);
                checks.push(AttachmentCheck::Unsupported { span });
            },
        }
        index += 1;
    }
    checks
}

/// The type variables of an attached method, in order: those of its owner, its
/// parameters and its result.
pub fn attached_method_variables(method: &BuiltinMethodType) -> (names: Vec<String>)
    ensures
        increasing(texts_view(names@)),
        texts_view(names@).to_set() == variables(method.owner@).union(
            variables_in(types_view(method.params@)),
        ).union(variables(method.result@)),
{
    let mut names: Vec<String> = Vec::new();
    assert(texts_view(names@) =~= Seq::empty());
    assert(texts_view(names@).to_set() =~= Set::empty());
    collect_type_variable_names(&method.owner, &mut names);
    crate::type_ops::collect_variable_names_in(&method.params, &mut names);
    collect_type_variable_names(&method.result, &mut names);
    assert(texts_view(names@).to_set() =~= variables(method.owner@).union(
        variables_in(types_view(method.params@)),
    ).union(variables(method.result@)));
    names
}

// ---------------------------------------------------------------------------
// Patterns that bind names
// ---------------------------------------------------------------------------
/// A name that a pattern binds, with its place.
#[derive(Debug)]
pub struct PatternSite {
    pub name: String,
    pub span: Span,
    /// Whether names of this form are known at compile time.
    pub comptime: bool,
}

/// The places of a name among the first sites.
pub open spec fn sites_of(sites: Seq<PatternSite>, name: Seq<char>, count: nat) -> Seq<Span>
    decreases count,
{
    if count == 0 || count > sites.len() {
        Seq::empty()
    } else {
        let earlier = sites_of(sites, name, (count - 1) as nat);
        if sites[count - 1].name@ == name {
            earlier.push(sites[count - 1].span)
        } else {
            earlier
        }
    }
}

/// The places at which the types of the first names are noted, with the position of
/// the name.
pub open spec fn noted_sites(
    locals: Seq<(String, LocalValueType)>,
    sites: Seq<PatternSite>,
    count: nat,
) -> Seq<(Span, int)>
    decreases count,
{
    if count == 0 || count > locals.len() {
        Seq::empty()
    } else {
        noted_sites(locals, sites, (count - 1) as nat) + sites_of(
            sites,
            locals[count - 1].0@,
            sites.len(),
        ).map_values(|span: Span| (span, count - 1))
    }
}

pub open spec fn noted_view(noted: Seq<(Span, usize)>) -> Seq<(Span, int)> {
    noted.map_values(|note: (Span, usize)| (note.0, note.1 as int))
}

/// List the places at which the types of the names of a pattern are noted, in the
/// order of the names.
pub fn define_pattern_binding(
    locals: &Vec<(String, LocalValueType)>,
    sites: &Vec<PatternSite>,
) -> (noted: Vec<(Span, usize)>)
    ensures
        noted_view(noted@) == noted_sites(locals@, sites@, locals@.len()),
{
    let mut noted: Vec<(Span, usize)> = Vec::new();
    let mut index: usize = 0;
    assert(noted_view(noted@) =~= Seq::empty());
    while index < locals.len()
        invariant
            index <= locals.len(),
            noted_view(noted@) == noted_sites(locals@, sites@, index as nat),
        decreases locals.len() - index,
    {
        let name = locals[index].0.as_str();
        let ghost before = noted_view(noted@);
        let mut site: usize = 0;
        assert(before + sites_of(sites@, name@, 0).map_values(
            |span: Span| (span, index as int),
        ) =~= before);
        while site < sites.len()
            invariant
                site <= sites.len(),
                noted_view(noted@) == before + sites_of(sites@, name@, site as nat).map_values(
                    |span: Span| (span, index as int),
                ),
            decreases sites.len() - site,
        {
            let ghost so_far = noted_view(noted@);
            if same_text(sites[site].name.as_str(), name) {
                noted.push((sites[site].span, index));
                assert(noted_view(noted@) =~= so_far.push((sites@[site as int].span, index as int)));
            }
            assert(noted_view(noted@) =~= before + sites_of(
                sites@,
                name@,
                (site + 1) as nat,
            ).map_values(|span: Span| (span, index as int)));
            site += 1;
        }
        assert(noted_sites(locals@, sites@, (index + 1) as nat) =~= before + sites_of(
            sites@,
            name@,
            sites@.len(),
        ).map_values(|span: Span| (span, index as int)));
        index += 1;
    }
    noted
}

/// A log after a name that a pattern may not bind was reported.
pub open spec fn with_uppercase_binder(log: SpecLog, name: Seq<char>, span: Span) -> SpecLog {
    log.with_unique(
        SpecDiagnostic::error(
            "extracting type `"@ + name + "` from a module is not supported yet"@,
        ).coded(Code::TypeUppercasePatternBinderUnsupported).labelled(
            span,
            "uppercase pattern binder would extract a type"@,
        ).noted(
            "extracting types from modules is not supported yet; this is deferred to Milestone Z"@,
        ),
    )
}

/// A log after the first names that a pattern may not bind were reported.
pub open spec fn with_uppercase_binders(
    log: SpecLog,
    sites: Seq<PatternSite>,
    imported: Set<Seq<char>>,
    count: nat,
) -> SpecLog
    decreases count,
{
    if count == 0 || count > sites.len() {
        log
    } else {
        let earlier = with_uppercase_binders(log, sites, imported, (count - 1) as nat);
        let site = sites[count - 1];
        if site.comptime && !imported.contains(site.name@) {
            with_uppercase_binder(earlier, site.name@, site.span)
        } else {
            earlier
        }
    }
}

impl DiagnosticLog {
    /// Report the names of a pattern that are known at compile time but are no types
    /// of the imported module.
    pub fn report_unsupported_uppercase_pattern_binders(
        &mut self,
        sites: &Vec<PatternSite>,
        imported: &StringSet,
    )
        ensures
            final(self)@ == with_uppercase_binders(
                old(self)@,
                sites@,
                imported@,
                sites@.len(),
            ),
    {
        let ghost before = self@;
        let mut index: usize = 0;
        while index < sites.len()
            invariant
                index <= sites.len(),
                before == old(self)@,
                self@ == with_uppercase_binders(before, sites@, imported@, index as nat),
            decreases sites.len() - index,
        {
            if sites[index].comptime && !imported.contains(sites[index].name.as_str()) {
                self.report_unsupported_uppercase_pattern_binder(
                    sites[index].name.as_str(),
                    sites[index].span,
                );
            }
            index += 1;
        }
    }
}

// ---------------------------------------------------------------------------
// Values that cannot be evaluated
// ---------------------------------------------------------------------------
/// What is known of the value of a name at compile time.
#[derive(Debug, Clone, Copy, PartialEq, Eq, Structural)]
pub struct EvaluationFacts {
    /// Whether the value calls a function that makes types.
    pub makes_type: bool,
    /// Whether the value could be evaluated.
    pub evaluated: bool,
    /// Whether the value selects fields of a record.
    pub selects_fields: bool,
    /// Whether something is wrong with the value as a type.
    pub has_findings: bool,
}

/// Whether a value is reported because it cannot be evaluated at compile time.
pub fn check_comptime_binding_evaluation_support(value: &Expr, facts: EvaluationFacts) -> (reported:
    bool)
    ensures
        reported == ((needs_evaluation(*value) || facts.makes_type) && !facts.evaluated
            && !facts.selects_fields && !facts.has_findings),
{
    (crate::syntax::comptime_rhs_needs_evaluation(value) || facts.makes_type) && !facts.evaluated
        && !facts.selects_fields && !facts.has_findings
}

/// Whether a call of a function of the host waits for the value of an argument. The
/// values tell which arguments could be evaluated.
pub open spec fn awaits_argument(
    params: Seq<HostComptimeParam>,
    evaluated: Seq<bool>,
) -> bool {
    exists|i: int|
        0 <= i < params.len() && match #[trigger] params[i] {
            HostComptimeParam::Value(position) => position < evaluated.len()
                && !evaluated[position as int],
            HostComptimeParam::TypeOf(position) => position < evaluated.len(),
        }
}

/// Whether a value is a call of a function of the host that waits for the value of an
/// argument. `params` are the parameters that the function has at compile time.
pub fn binding_value_is_host_comptime_runtime_arg_deferral(
    value: &Expr,
    params: Option<&Vec<HostComptimeParam>>,
    evaluated: &Vec<bool>,
) -> (awaits: bool)
    ensures
        awaits == (ungrouped(*value).kind is Call && params is Some && awaits_argument(
            params->0@,
            evaluated@,
        )),
{
    match (&ungroup_expr(value).kind, params) {
        (ExprKind::Call { .. }, Some(params)) => call_awaits_argument(params, evaluated),
        _ => false,
    }
}

fn call_awaits_argument(params: &Vec<HostComptimeParam>, evaluated: &Vec<bool>) -> (awaits: bool)
    ensures
        awaits == awaits_argument(params@, evaluated@),
{
    let mut index: usize = 0;
    while index < params.len()
        invariant
            index <= params.len(),
            forall|i: int|
                0 <= i < index ==> !(match #[trigger] params@[i] {
                    HostComptimeParam::Value(position) => position < evaluated@.len()
                        && !evaluated@[position as int],
                    HostComptimeParam::TypeOf(position) => position < evaluated@.len(),
                }),
        decreases params.len() - index,
    {
        let param = params[index];
        let position: usize = param.index();
        if position < evaluated.len() {
            match param {
                HostComptimeParam::Value(_) => {
                    if !evaluated[position] {
                        return true;
                    }
                },
                HostComptimeParam::TypeOf(_) => {
                    return true;
                },
            }
        }
        index += 1;
    }
    false
}

/// Whether an arm uses what its pattern leaves of a record.
pub open spec fn uses_rest(arm: MatchArm, names: Seq<Seq<char>>) -> bool {
    exists|k: int|
        0 <= k < pattern_rest_binders(*arm.pattern).len() && names.contains(
            #[trigger] pattern_rest_binders(*arm.pattern)[k],
        )
}

/// Whether a match uses what a pattern leaves of an open record, so that its type
/// cannot be known. `names` lists the names in the body of each arm.
pub fn binding_value_is_open_record_rest_match_unknown(
    subject: Option<&Row>,
    arms: &Vec<MatchArm>,
    names: &Vec<Vec<String>>,
) -> (unknown: bool)
    requires
        names.len() == arms.len(),
    ensures
        unknown == (match subject {
            Some(row) => !(row@.tail is Closed) && exists|i: int|
                0 <= i < arms@.len() && uses_rest(#[trigger] arms@[i], texts_view(names@[i]@)),
            None => false,
        }),
{
    let row = match subject {
        Some(row) => row,
        None => {
            return false;
        },
    };
    assert(row@.tail == row.tail);
    if matches!(row.tail, RowTail::Closed) {
        return false;
    }
    let mut index: usize = 0;
    while index < arms.len()
        invariant
            index <= arms.len(),
            names.len() == arms.len(),
            subject == Some(row),
            !(row@.tail is Closed),
            forall|i: int|
                0 <= i < index ==> !uses_rest(#[trigger] arms@[i], texts_view(names@[i]@)),
        decreases arms.len() - index,
    {
        let mut binders: Vec<String> = Vec::new();
        assert(texts_view(binders@) =~= Seq::empty());
        collect_record_pattern_rest_binders(&arms[index].pattern, &mut binders);
        let ghost all = pattern_rest_binders(*arms@[index as int].pattern);
        assert(texts_view(binders@) =~= all);
        let mut binder: usize = 0;
        while binder < binders.len()
            invariant
                binder <= binders.len(),
                index < arms.len(),
                names.len() == arms.len(),
                subject == Some(row),
                !(row@.tail is Closed),
                all == pattern_rest_binders(*arms@[index as int].pattern),
                texts_view(binders@) == all,
                forall|k: int|
                    0 <= k < binder ==> !texts_view(names@[index as int]@).contains(
                        #[trigger] all[k],
                    ),
            decreases binders.len() - binder,
        {
            if texts_contain(&names[index], binders[binder].as_str()) {
                assert(all[binder as int] == binders@[binder as int]@);
                assert(uses_rest(arms@[index as int], texts_view(names@[index as int]@)));
                return true;
            }
            assert(all[binder as int] == binders@[binder as int]@);
            binder += 1;
        }
        assert(!uses_rest(arms@[index as int], texts_view(names@[index as int]@)));
        index += 1;
    }
    false
}

// ---------------------------------------------------------------------------
// Reports that explain a value
// ---------------------------------------------------------------------------
/// The places of a value and of everything in it, and the names in it.
#[derive(Debug)]
pub struct ValuePlaces {
    pub spans: Vec<Span>,
    pub references: Vec<String>,
}

/// The values of names at the top level.
#[derive(Debug)]
pub struct ValueTable {
    pub names: StringSet,
    pub values: StringMap<ValuePlaces>,
}

/// Whether a place lies in a value, or in the value of a name that it uses. Names
/// that are being followed are not followed again.
pub open spec fn reaches(
    table: ValueTable,
    places: ValuePlaces,
    visiting: Set<Seq<char>>,
    place: Span,
) -> bool
    decreases table.names@.difference(visiting).len(), 1nat, 0nat,
    when table.names@.finite()
{
    (exists|i: int| 0 <= i < places.spans@.len() && (#[trigger] places.spans@[i]).covers(place))
        || references_reach(table, places.references@, visiting, place, places.references@.len())
}

/// Whether a place lies in the value of one of the first names.
pub open spec fn references_reach(
    table: ValueTable,
    references: Seq<String>,
    visiting: Set<Seq<char>>,
    place: Span,
    count: nat,
) -> bool
    decreases table.names@.difference(visiting).len(), 0nat, count,
    when table.names@.finite()
{
    if count == 0 || count > references.len() {
        false
    } else {
        let name = references[count - 1]@;
        references_reach(table, references, visiting, place, (count - 1) as nat) || (
        table.names@.contains(name) && !visiting.contains(name) && table.values@.contains_key(name)
            && {
            proof {
                visiting_shrinks(table.names@, visiting, name);
            }
            reaches(table, table.values@[name], visiting.insert(name), place)
        })
    }
}

/// Whether a place lies in a value, or in the value of a name that it uses.
pub fn collect_value_diagnostic_spans(
    table: &ValueTable,
    places: &ValuePlaces,
    visiting: &StringSet,
    place: Span,
) -> (reached: bool)
    ensures
        reached == reaches(*table, *places, visiting@, place),
    decreases table.names@.difference(visiting@).len(), 1nat,
{
    proof {
        table.names.names_are_finite();
    }
    let mut index: usize = 0;
    while index < places.spans.len()
        invariant
            index <= places.spans.len(),
            table.names@.finite(),
            forall|i: int|
                0 <= i < index ==> !(#[trigger] places.spans@[i]).covers(place),
        decreases places.spans.len() - index,
    {
        if places.spans[index].contains(place) {
            return true;
        }
        index += 1;
    }
    let mut index: usize = 0;
    while index < places.references.len()
        invariant
            index <= places.references.len(),
            table.names@.finite(),
            forall|i: int|
                0 <= i < places.spans.len() ==> !(#[trigger] places.spans@[i]).covers(place),
            !references_reach(*table, places.references@, visiting@, place, index as nat),
        decreases places.references.len() - index,
    {
        let name = places.references[index].as_str();
        if table.names.contains(name) && !visiting.contains(name) {
            if let Some(value) = table.values.get(name) {
                let mut followed = visiting.clone();
                followed.insert(name.to_owned());
                proof {
                    visiting_shrinks(table.names@, visiting@, name@);
                }
                if collect_value_diagnostic_spans(table, value, &followed, place) {
                    proof {
                        references_stay_reached(
                            *table,
                            places.references@,
                            visiting@,
                            place,
                            (index + 1) as nat,
                            places.references@.len(),
                        );
                    }
                    return true;
                }
            }
        }
        index += 1;
    }
    false
}

proof fn references_stay_reached(
    table: ValueTable,
    references: Seq<String>,
    visiting: Set<Seq<char>>,
    place: Span,
    few: nat,
    many: nat,
)
    requires
        table.names@.finite(),
        few <= many <= references.len(),
        references_reach(table, references, visiting, place, few),
    ensures
        references_reach(table, references, visiting, place, many),
    decreases many,
{
    if few < many {
        references_stay_reached(table, references, visiting, place, few, (many - 1) as nat);
    }
}

/// Whether a report is about a value: its first label lies there.
pub open spec fn is_about(table: ValueTable, places: ValuePlaces, diagnostic: Diagnostic) -> bool {
    diagnostic.labels@.len() > 0 && reaches(
        table,
        places,
        Set::empty(),
        diagnostic.labels@[0].span,
    )
}

/// Whether one of the reports before a position is about a value.
pub fn binding_value_had_prior_diagnostic(
    table: &ValueTable,
    places: &ValuePlaces,
    diagnostics: &Vec<Diagnostic>,
    start: usize,
) -> (reported: bool)
    requires
        start <= diagnostics.len(),
    ensures
        reported == exists|i: int|
            0 <= i < start && is_about(*table, *places, #[trigger] diagnostics@[i]),
{
    let visiting = StringSet::new();
    assert(visiting@ =~= Set::empty());
    let mut index: usize = 0;
    while index < start
        invariant
            index <= start <= diagnostics.len(),
            visiting@ == Set::<Seq<char>>::empty(),
            forall|i: int|
                0 <= i < index ==> !is_about(*table, *places, #[trigger] diagnostics@[i]),
        decreases start - index,
    {
        let diagnostic = &diagnostics[index];
        if diagnostic.labels.len() > 0 {
            if collect_value_diagnostic_spans(table, places, &visiting, diagnostic.labels[0].span) {
                assert(is_about(*table, *places, diagnostics@[index as int]));
                return true;
            }
        }
        index += 1;
    }
    false
}

// ---------------------------------------------------------------------------
// Merged rows
// ---------------------------------------------------------------------------
/// Variables with one more, unless it is there already.
pub open spec fn with_variable(variables: Seq<u32>, variable: u32) -> Seq<u32> {
    if variables.contains(variable) {
        variables
    } else {
        variables.push(variable)
    }
}

/// Variables with more, each once.
pub open spec fn with_variables(variables: Seq<u32>, added: Seq<u32>) -> Seq<u32>
    decreases added.len(),
{
    if added.len() == 0 {
        variables
    } else {
        with_variable(with_variables(variables, added.drop_last()), added.last())
    }
}

/// Variables with those of rows.
pub open spec fn with_sources(variables: Seq<u32>, sources: Seq<SpecMergeSource>) -> Seq<u32>
    decreases sources.len(),
{
    if sources.len() == 0 {
        variables
    } else {
        with_variables(
            with_sources(variables, sources.drop_last()),
            sources.last().variables,
        )
    }
}

/// Variables with those of merged rows: the result first, and then the rows.
pub open spec fn with_merges(variables: Seq<u32>, merges: Seq<SpecRowMerge>) -> Seq<u32>
    decreases merges.len(),
{
    if merges.len() == 0 {
        variables
    } else {
        with_sources(
            with_variable(with_merges(variables, merges.drop_last()), merges.last().result),
            merges.last().sources,
        )
    }
}

fn add_variable(variables: &mut Vec<u32>, variable: u32)
    ensures
        final(variables)@ == with_variable(old(variables)@, variable),
{
    let mut index: usize = 0;
    while index < variables.len()
        invariant
            index <= variables.len(),
            variables@ == old(variables)@,
            forall|i: int| 0 <= i < index ==> variables@[i] != variable,
        decreases variables.len() - index,
    {
        if variables[index] == variable {
            return;
        }
        index += 1;
    }
    variables.push(variable);
}

/// The scheme of a type that depends on merged rows: it keeps the merged rows, and lists
/// their variables after those of the type, each once.
pub open spec fn with_row_merges(scheme: SpecScheme, merges: Seq<SpecRowMerge>) -> SpecScheme {
    SpecScheme { row_vars: with_merges(scheme.row_vars, merges), row_merges: merges, ..scheme }
}

fn add_source_variables(variables: &mut Vec<u32>, source: &RowMergeSource)
    ensures
        final(variables)@ == with_variables(old(variables)@, source@.variables),
{
    let ids = &source.variables;
    let ghost before = variables@;
    let mut id: usize = 0;
    assert(ids@.take(0) =~= Seq::empty());
    while id < ids.len()
        invariant
            id <= ids.len(),
            variables@ == with_variables(before, ids@.take(id as int)),
        decreases ids.len() - id,
    {
        assert(ids@.take(id + 1).drop_last() =~= ids@.take(id as int));
        add_variable(variables, ids[id]);
        id += 1;
    }
    assert(ids@.take(ids@.len() as int) =~= ids@);
}

/// Make the scheme of a type depend on the merged rows that its row variables stand for.
pub fn generalize_with_row_merges(scheme: TypeScheme, merges: Vec<RowMerge>) -> (whole: TypeScheme)
    ensures
        whole@ == with_row_merges(scheme@, row_merges_view(merges@)),
{
    let TypeScheme { vars, row_vars, row_merges: _, predicates, ty } = scheme;
    let ghost start = row_vars@;
    let ghost all = row_merges_view(merges@);
    let mut variables = row_vars;
    let mut index: usize = 0;
    assert(all.take(0) =~= Seq::empty());
    while index < merges.len()
        invariant
            index <= merges.len(),
            all == row_merges_view(merges@),
            variables@ == with_merges(start, all.take(index as int)),
        decreases merges.len() - index,
    {
        let merge = &merges[index];
        let ghost longer = all.take(index + 1);
        assert(longer.drop_last() =~= all.take(index as int));
        assert(longer.last() == merge@);
        add_variable(&mut variables, merge.result);
        let ghost with_result = variables@;
        let ghost rows = merge_sources_view(merge.sources@);
        let mut source: usize = 0;
        assert(rows.take(0) =~= Seq::empty());
        while source < merge.sources.len()
            invariant
                source <= merge.sources.len(),
                rows == merge_sources_view(merge.sources@),
                variables@ == with_sources(with_result, rows.take(source as int)),
            decreases merge.sources.len() - source,
        {
            let ghost more = rows.take(source + 1);
            assert(more.drop_last() =~= rows.take(source as int));
            assert(more.last() == merge.sources@[source as int]@);
            add_source_variables(&mut variables, &merge.sources[source]);
            source += 1;
        }
        assert(rows.take(rows.len() as int) =~= rows);
        index += 1;
    }
    assert(all.take(all.len() as int) =~= all);
    TypeScheme { vars, row_vars: variables, row_merges: merges, predicates, ty }
}

// ---------------------------------------------------------------------------
// Laws
// ---------------------------------------------------------------------------
/// A family that is known under its owner is never replaced by an imported one.
pub proof fn known_families_stay(
    names: FamilyNames,
    entries: Seq<RecordEntry>,
    exports: Map<Seq<char>, SpecFamily>,
    count: nat,
    owner: Seq<char>,
)
    requires
        names.families.contains_key(owner),
    ensures
        with_entries(names, entries, exports, count).families.contains_key(owner),
        with_entries(names, entries, exports, count).families[owner] == names.families[owner],
    decreases count,
{
    if count != 0 && count <= entries.len() {
        known_families_stay(names, entries, exports, (count - 1) as nat, owner);
    }
}

/// A type that is published stays when records are spread.
pub proof fn published_types_stay(
    types: Map<Seq<char>, Option<TypeScheme>>,
    fields: Seq<(String, TypeScheme)>,
    name: Seq<char>,
)
    requires
        types.contains_key(name),
    ensures
        with_spread(types, fields).contains_key(name),
        with_spread(types, fields)[name] == types[name],
    decreases fields.len(),
{
    if fields.len() > 0 {
        published_types_stay(types, fields.drop_last(), name);
    }
}

proof fn added_variables_are_distinct(variables: Seq<u32>, added: Seq<u32>)
    requires
        variables.no_duplicates(),
    ensures
        with_variables(variables, added).no_duplicates(),
    decreases added.len(),
{
    if added.len() > 0 {
        added_variables_are_distinct(variables, added.drop_last());
    }
}

proof fn source_variables_are_distinct(variables: Seq<u32>, sources: Seq<SpecMergeSource>)
    requires
        variables.no_duplicates(),
    ensures
        with_sources(variables, sources).no_duplicates(),
    decreases sources.len(),
{
    if sources.len() > 0 {
        source_variables_are_distinct(variables, sources.drop_last());
        added_variables_are_distinct(
            with_sources(variables, sources.drop_last()),
            sources.last().variables,
        );
    }
}

/// Row variables that are distinct stay distinct when those of merged rows are added.
pub proof fn merged_variables_are_distinct(variables: Seq<u32>, merges: Seq<SpecRowMerge>)
    requires
        variables.no_duplicates(),
    ensures
        with_merges(variables, merges).no_duplicates(),
    decreases merges.len(),
{
    if merges.len() > 0 {
        merged_variables_are_distinct(variables, merges.drop_last());
        source_variables_are_distinct(
            with_variable(with_merges(variables, merges.drop_last()), merges.last().result),
            merges.last().sources,
        );
    }
}

} // verus!
