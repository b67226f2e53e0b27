//! Arguments that are known at compile time, and members that names carry.
use crate::baked::ModuleImports;
use crate::collections::{StringMap, StringSet};
use crate::comptime_calls::{lookup_comptime_value, nearest_value};
use crate::diagnostics::PropagationSite;
use crate::modules::{pattern_entries, statics_maps_view};
use crate::patterns::{import_pattern_source_for_binder, source_for_binder};
use crate::rows::{
    double_quoted, result_parts, result_type_args, string_literal_label, ComptimeValue,
    LabelReflection,
};
use crate::same::QualifiedType;
use crate::span::Span;
use crate::syntax::{call_callee_name, callee_name, expr_name, name_of, text_view, ungroup_expr, ungrouped, Expr, ExprKind, Param};
use crate::text::{begins_uppercase, starts_uppercase, texts_view};
use crate::type_ops::{is_named, type_map_view};
use crate::types::{types_view, Literal, SpecLiteral, SpecType, Type};
use vstd::prelude::*;

verus! {

// ---------------------------------------------------------------------------
// Labels
// ---------------------------------------------------------------------------
/// The text of the literal that an expression stands for, if it is known to be a
/// text.
pub open spec fn known_text(
    expr: Expr,
    scopes: Seq<StringMap<ComptimeValue>>,
) -> Option<Seq<char>> {
    match ungrouped(expr).kind {
        ExprKind::Literal(literal) => match literal@ {
            SpecLiteral::String(text) => Some(text),
            _ => None,
        },
        ExprKind::Name(name) => value_text(nearest_value(scopes, name@)),
        ExprKind::ComptimeName(name) => value_text(nearest_value(scopes, name@)),
        _ => None,
    }
}

/// The text of a value, if it is a text.
pub open spec fn value_text(value: Option<ComptimeValue>) -> Option<Seq<char>> {
    match value {
        Some(ComptimeValue::Literal(literal)) => match literal@ {
            SpecLiteral::String(text) => Some(text),
            _ => None,
        },
        _ => None,
    }
}

/// The text of a value, if it is a text.
pub fn comptime_value_label(value: &ComptimeValue) -> (text: Option<&str>)
    ensures
        text_view(text) == value_text(Some(*value)),
{
    match value {
        ComptimeValue::Literal(literal) => match literal {
            Literal::String(text) => Some(text.as_str()),
            _ => None,
        },
        _ => None,
    }
}

/// The text of the literal that an expression stands for. What it decodes to is the
/// label that it names.
pub fn comptime_known_label<'a>(
    expr: &'a Expr,
    scopes: &'a Vec<StringMap<ComptimeValue>>,
) -> (text: Option<&'a str>)
    ensures
        text_view(text) == known_text(*expr, scopes@),
{
    match &ungroup_expr(expr).kind {
        ExprKind::Literal(literal) => match literal {
            Literal::String(text) => Some(text.as_str()),
            _ => None,
        },
        ExprKind::Name(name) => match lookup_comptime_value(scopes, name.as_str()) {
            Some(value) => comptime_value_label(value),
            None => None,
        },
        ExprKind::ComptimeName(name) => match lookup_comptime_value(scopes, name.as_str()) {
            Some(value) => comptime_value_label(value),
            None => None,
        },
        _ => None,
    }
}

/// A member of a set of labels that is written out.
#[derive(Debug)]
pub struct LabelSetMember {
    pub label: String,
    pub literal: Literal,
    pub span: Span,
}

/// An element of a set, with its value if that is known, and what the value decodes
/// to.
#[derive(Debug)]
pub struct SetElement {
    pub value: Option<ComptimeValue>,
    pub decoded: String,
    pub span: Span,
}

/// Whether an element names a label.
pub open spec fn names_label(element: SetElement) -> bool {
    match value_text(element.value) {
        Some(text) => double_quoted(text),
        None => false,
    }
}

/// The labels that the elements of a set name; nothing where one names none.
pub fn concrete_label_set_members(elements: Vec<SetElement>) -> (members: Option<Vec<LabelSetMember>>)
    ensures
        match members {
            Some(members) => members@.len() == elements@.len() && forall|i: int|
                0 <= i < members@.len() ==> names_label(elements@[i]) && (
                #[trigger] members@[i]).label@ == elements@[i].decoded@ && members@[i].literal@
                    == SpecLiteral::String(value_text(elements@[i].value)->0) && members@[i].span
                    == elements@[i].span,
            None => exists|i: int|
                0 <= i < elements@.len() && !names_label(#[trigger] elements@[i]),
        },
{
    let ghost all = elements@;
    let mut rest = elements;
    let mut members: Vec<LabelSetMember> = Vec::new();
    while rest.len() > 0
        invariant
            all == elements@,
            members.len() + rest.len() == all.len(),
            rest@ == all.skip(members.len() as int),
            forall|i: int|
                0 <= i < members@.len() ==> names_label(all[i]) && (#[trigger] members@[i]).label@
                    == all[i].decoded@ && members@[i].literal@ == SpecLiteral::String(
                    value_text(all[i].value)->0,
                ) && members@[i].span == all[i].span,
        decreases rest.len(),
    {
        let ghost position = members.len() as int;
        let element = rest.remove(0);
        assert(element == all[position]);
        assert(rest@ =~= all.skip(position + 1));
        match element.value {
            Some(ComptimeValue::Literal(literal)) => match literal {
                Literal::String(text) => {
                    assert(literal@ == SpecLiteral::String(text@));
                    match string_literal_label(text.as_str(), element.decoded) {
                        Some(label) => {
                            let literal = Literal::String(text);
                            assert(literal@ == SpecLiteral::String(text@));
                            members.push(LabelSetMember { label, literal, span: element.span });
                        },
                        None => {
                            assert(!names_label(all[position]));
                            return None;
                        },
                    }
                },
                _ => {
                    assert(!names_label(all[position]));
                    return None;
                },
            },
            _ => {
                assert(!names_label(all[position]));
                return None;
            },
        }
    }
    Some(members)
}

/// Where the labels that an expression stands for come from.
#[derive(Debug)]
#[allow(inconsistent_fields)]
pub enum LabelSource<'a> {
    /// They are those of a value.
    Labels(&'a Vec<String>),
    /// They are written out as a set.
    Elements(&'a Expr),
    /// They are those of a type.
    Reflected(LabelReflection, &'a Expr),
    /// They are not known.
    Unknown,
}

/// The reflection that an expression calls on its only argument.
pub open spec fn reflection_of(expr: Expr) -> Option<(LabelReflection, Expr)> {
    match ungrouped(expr).kind {
        ExprKind::Call { callee, args } => match name_of(*callee) {
            Some(name) => match LabelReflection::named(name) {
                Some(reflection) => if args@.len() == 1 {
                    Some((reflection, args@[0]))
                } else {
                    None
                },
                None => None,
            },
            None => None,
        },
        _ => None,
    }
}

/// Whether labels come from where they are looked for: a value in scope, a set that is
/// written out, or a reflection on a type.
pub open spec fn is_label_source(
    expr: Expr,
    scopes: Seq<StringMap<ComptimeValue>>,
    source: LabelSource<'_>,
) -> bool {
    let named = match ungrouped(expr).kind {
        ExprKind::Name(name) => nearest_value(scopes, name@),
        ExprKind::ComptimeName(name) => nearest_value(scopes, name@),
        _ => None,
    };
    match named {
        Some(ComptimeValue::LabelSet(labels)) => source is Labels && source->Labels_0@ == labels@,
        _ => if ungrouped(expr).kind is SetLiteral {
            source is Elements && *source->Elements_0 == ungrouped(expr)
        } else {
            match reflection_of(expr) {
                Some((reflection, arg)) => source is Reflected && source->Reflected_0
                    == reflection && *source->Reflected_1 == arg,
                None => source is Unknown,
            }
        },
    }
}

fn labels_in_scope<'a>(scopes: &'a Vec<StringMap<ComptimeValue>>, name: &str) -> (labels: Option<
    &'a Vec<String>,
>)
    ensures
        match labels {
            Some(labels) => nearest_value(scopes@, name@) == Some(ComptimeValue::LabelSet(*labels)),
            None => !(nearest_value(scopes@, name@) matches Some(ComptimeValue::LabelSet(_))),
        },
{
    match lookup_comptime_value(scopes, name) {
        Some(ComptimeValue::LabelSet(labels)) => Some(labels),
        _ => None,
    }
}

fn reflection_call<'a>(expr: &'a Expr) -> (call: Option<(LabelReflection, &'a Expr)>)
    ensures
        match call {
            Some((reflection, arg)) => reflection_of(*expr) == Some((reflection, *arg)),
            None => reflection_of(*expr) is None,
        },
{
    match &ungroup_expr(expr).kind {
        ExprKind::Call { callee, args } => match expr_name(callee) {
            Some(name) => match LabelReflection::from_name(name) {
                Some(reflection) => if args.len() == 1 {
                    Some((reflection, &args[0]))
                } else {
                    None
                },
                None => None,
            },
            None => None,
        },
        _ => None,
    }
}

/// Find where the labels that an expression stands for come from.
pub fn comptime_known_label_set<'a>(
    expr: &'a Expr,
    scopes: &'a Vec<StringMap<ComptimeValue>>,
) -> (source: LabelSource<'a>)
    ensures
        is_label_source(*expr, scopes@, source),
{
    let inner = ungroup_expr(expr);
    match &inner.kind {
        ExprKind::Name(name) => {
            if let Some(labels) = labels_in_scope(scopes, name.as_str()) {
                return LabelSource::Labels(labels);
            }
        },
        ExprKind::ComptimeName(name) => {
            if let Some(labels) = labels_in_scope(scopes, name.as_str()) {
                return LabelSource::Labels(labels);
            }
        },
        ExprKind::SetLiteral(_) => {
            return LabelSource::Elements(inner);
        },
        _ => {},
    }
    match reflection_call(expr) {
        Some((reflection, arg)) => LabelSource::Reflected(reflection, arg),
        None => LabelSource::Unknown,
    }
}

// ---------------------------------------------------------------------------
// Values of arguments
// ---------------------------------------------------------------------------
/// The value of an argument, with the labels that it was written with.
#[derive(Debug)]
pub struct ComptimeArgument {
    pub value: ComptimeValue,
    pub label_set_members: Option<Vec<LabelSetMember>>,
}

/// What is known of an argument: whether it calls a function that runs later, its
/// value, the labels that it lists and the type that it reads as.
#[derive(Debug)]
pub struct ArgumentFacts {
    pub computes: bool,
    pub value: Option<ComptimeValue>,
    pub members: Option<Vec<LabelSetMember>>,
    pub ty: Option<Type>,
}

/// The labels of members.
pub open spec fn member_labels(members: Seq<LabelSetMember>) -> Seq<Seq<char>> {
    Seq::new(members.len(), |i: int| members[i].label@)
}

/// Whether an argument has the value that is first found for it. A call of a function
/// that runs later has none, even if it could be evaluated.
pub open spec fn is_argument(facts: ArgumentFacts, argument: Option<ComptimeArgument>) -> bool {
    if facts.computes {
        argument is None
    } else if facts.value is Some {
        argument is Some && argument->0.value == facts.value->0
            && argument->0.label_set_members is None
    } else if facts.members is Some {
        argument is Some && argument->0.value is LabelSet && texts_view(
            argument->0.value->LabelSet_0@,
        ) == member_labels(facts.members->0@) && argument->0.label_set_members == facts.members
    } else if facts.ty is Some {
        argument is Some && argument->0.value == ComptimeValue::ReifiedType(facts.ty->0)
            && argument->0.label_set_members is None
    } else {
        argument is None
    }
}

/// Find the value of an argument.
pub fn evaluate_comptime_param_argument(facts: ArgumentFacts) -> (argument: Option<
    ComptimeArgument,
>)
    ensures
        is_argument(facts, argument),
{
    if facts.computes {
        return None;
    }
    if let Some(value) = facts.value {
        return Some(ComptimeArgument { value, label_set_members: None });
    }
    if let Some(members) = facts.members {
        let mut labels: Vec<String> = Vec::new();
        let mut index: usize = 0;
        while index < members.len()
            invariant
                index <= members.len(),
                labels.len() == index,
                forall|i: int| 0 <= i < index ==> (#[trigger] labels@[i])@ == members@[i].label@,
            decreases members.len() - index,
        {
            labels.push(members[index].label.clone());
            index += 1;
        }
        assert(texts_view(labels@) =~= member_labels(members@));
        return Some(
            ComptimeArgument {
                value: ComptimeValue::LabelSet(labels),
                label_set_members: Some(members),
            },
        );
    }
    match facts.ty {
        Some(ty) => Some(
            ComptimeArgument { value: ComptimeValue::ReifiedType(ty), label_set_members: None },
        ),
        None => None,
    }
}

/// The labels of a value, if it is a set of labels.
pub open spec fn set_labels(value: Option<ComptimeValue>) -> Option<Seq<String>> {
    match value {
        Some(ComptimeValue::LabelSet(labels)) => Some(labels@),
        _ => None,
    }
}

/// Find the labels that a selection of fields names: those of its argument as a value,
/// those that are known of it, or those that it evaluates to.
pub fn evaluate_record_selection_labels(
    argument: Option<ComptimeValue>,
    known: Option<Vec<String>>,
    evaluated: Option<ComptimeValue>,
) -> (labels: Option<Vec<String>>)
    ensures
        match labels {
            Some(labels) => Some(labels@) == (if set_labels(argument) is Some {
                set_labels(argument)
            } else if known is Some {
                Some(known->0@)
            } else {
                set_labels(evaluated)
            }),
            None => set_labels(argument) is None && known is None && set_labels(evaluated) is None,
        },
{
    if let Some(ComptimeValue::LabelSet(labels)) = argument {
        return Some(labels);
    }
    if known.is_some() {
        return known;
    }
    match evaluated {
        Some(ComptimeValue::LabelSet(labels)) => Some(labels),
        _ => None,
    }
}

/// The type whose fields are selected: that of the value where it is concrete, or the
/// concrete type that it reads as.
pub fn infer_record_selection_subject(
    subject: Type,
    is_concrete: bool,
    lowered: Option<Type>,
) -> (ty: Type)
    ensures
        ty == if is_concrete {
            subject
        } else {
            match lowered {
                Some(lowered) => lowered,
                None => subject,
            }
        },
{
    if is_concrete {
        return subject;
    }
    match lowered {
        Some(lowered) => lowered,
        None => subject,
    }
}

// ---------------------------------------------------------------------------
// Members of types
// ---------------------------------------------------------------------------
/// The type of a static that a name carries, unless the name is bound to a value.
pub open spec fn static_type(
    statics: Map<Seq<char>, Map<Seq<char>, SpecType>>,
    receiver: Seq<char>,
    field: Seq<char>,
    is_bound: bool,
) -> Option<SpecType> {
    if is_bound || !statics.contains_key(receiver) || !statics[receiver].contains_key(field) {
        None
    } else {
        Some(statics[receiver][field])
    }
}

/// The type of a static that a name carries, unless the name is bound to a value.
pub fn static_member_scheme<'a>(
    statics: &'a StringMap<StringMap<Type>>,
    receiver: &str,
    field: &str,
    is_bound: bool,
) -> (ty: Option<&'a Type>)
    ensures
        match ty {
            Some(ty) => static_type(statics_maps_view(statics@), receiver@, field@, is_bound)
                == Some(ty@),
            None => static_type(statics_maps_view(statics@), receiver@, field@, is_bound) is None,
        },
{
    if is_bound {
        return None;
    }
    match statics.get(receiver) {
        Some(members) => {
            assert(statics_maps_view(statics@)[receiver@] == type_map_view(members@));
            members.get(field)
        },
        None => None,
    }
}

/// The parameters of a function of the host that is called at compile time, unless its
/// name is bound to a value.
pub fn host_comptime_fn<'a, P>(functions: &'a StringMap<P>, name: &str, is_bound: bool) -> (function: Option<
    &'a P,
>)
    ensures
        function == (if !is_bound && functions@.contains_key(name@) {
            Some(&functions@[name@])
        } else {
            None
        }),
{
    if is_bound {
        None
    } else {
        functions.get(name)
    }
}

/// The numbers of arguments that a static takes, if a call has another number and the
/// static is no function of the host.
pub open spec fn arity_mismatch(
    ty: Option<SpecType>,
    is_host_function: bool,
    arg_count: nat,
) -> Option<(nat, nat)> {
    match ty {
        Some(SpecType::Function { params, required, .. }) => if is_host_function || (required
            <= arg_count <= params.len()) {
            None
        } else {
            Some((required as nat, params.len()))
        },
        _ => None,
    }
}

/// Find the numbers of arguments that a static takes, if a call has another number.
pub fn report_static_member_arity_mismatch(
    ty: Option<&Type>,
    is_host_function: bool,
    arg_count: usize,
) -> (mismatch: Option<(usize, usize)>)
    ensures
        ({
            let seen: Option<SpecType> = match ty {
                Some(ty) => Some(ty@),
                None => None,
            };
            match mismatch {
                Some((required, total)) => arity_mismatch(seen, is_host_function, arg_count as nat)
                    == Some((required as nat, total as nat)),
                None => arity_mismatch(seen, is_host_function, arg_count as nat) is None,
            }
        }),
{
    match ty {
        Some(Type::Function { params, required, .. }) => {
            assert(types_view(params@).len() == params.len());
            if is_host_function || (*required <= arg_count && arg_count <= params.len()) {
                None
            } else {
                Some((*required, params.len()))
            }
        },
        _ => None,
    }
}

// ---------------------------------------------------------------------------
// Names of other modules
// ---------------------------------------------------------------------------
/// The specifier of the module that a receiver stands for: it imports the module
/// itself, or it is a name at the top level whose value does.
pub open spec fn receiver_module(
    receiver: Expr,
    imported: Option<Seq<char>>,
    is_local: bool,
    modules: Map<Seq<char>, String>,
) -> Option<Seq<char>> {
    match imported {
        Some(specifier) => Some(specifier),
        None => match ungrouped(receiver).kind {
            ExprKind::Name(name) => if !is_local && modules.contains_key(name@) {
                Some(modules[name@]@)
            } else {
                None
            },
            _ => None,
        },
    }
}

/// Find the specifier of the module that a receiver stands for. `modules` holds the
/// specifiers that the names at the top level import.
pub fn static_import_specifier_for_receiver<'a>(
    receiver: &Expr,
    imported: Option<&'a str>,
    is_local: bool,
    modules: &'a StringMap<String>,
) -> (specifier: Option<&'a str>)
    ensures
        text_view(specifier) == receiver_module(
            *receiver,
            text_view(imported),
            is_local,
            modules@,
        ),
{
    if imported.is_some() {
        return imported;
    }
    match &ungroup_expr(receiver).kind {
        ExprKind::Name(name) => if is_local {
            None
        } else {
            match modules.get(name.as_str()) {
                Some(specifier) => Some(specifier.as_str()),
                None => None,
            }
        },
        _ => None,
    }
}

/// What the module of a receiver exports as a field, if it does.
pub open spec fn exported_field(
    exports: Map<Seq<char>, StringMap<QualifiedType>>,
    specifier: Option<Seq<char>>,
    field: Seq<char>,
) -> Option<QualifiedType> {
    match specifier {
        Some(specifier) => if exports.contains_key(specifier) && exports[specifier]@.contains_key(
            field,
        ) {
            Some(exports[specifier]@[field])
        } else {
            None
        },
        None => None,
    }
}

/// Find what the module that a receiver stands for exports as a field.
pub fn imported_field<'a>(
    imports: &'a ModuleImports,
    receiver: &Expr,
    imported: Option<&str>,
    is_local: bool,
    modules: &StringMap<String>,
    field: &str,
) -> (export: Option<&'a QualifiedType>)
    ensures
        (match export {
            Some(export) => Some(*export),
            None => None,
        }) == exported_field(
            imports.qualified_exports@,
            receiver_module(*receiver, text_view(imported), is_local, modules@),
            field@,
        ),
{
    match static_import_specifier_for_receiver(receiver, imported, is_local, modules) {
        Some(specifier) => match imports.qualified_exports.get(specifier) {
            Some(exports) => exports.get(field),
            None => None,
        },
        None => None,
    }
}

/// Where a function that is evaluated at compile time is defined.
#[derive(Debug)]
#[allow(inconsistent_fields)]
pub enum FunctionSource<'a> {
    /// In this module, by its value.
    Local(&'a Expr),
    /// In another module, under another name.
    Imported { specifier: &'a str, source: &'a str },
}

/// Where a function that is evaluated at compile time is defined.
#[allow(inconsistent_fields)]
pub ghost enum SpecFunctionSource {
    Local(Expr),
    Imported { specifier: Seq<char>, source: Seq<char> },
}

pub open spec fn source_view(source: Option<FunctionSource<'_>>) -> Option<SpecFunctionSource> {
    match source {
        Some(FunctionSource::Local(value)) => Some(SpecFunctionSource::Local(*value)),
        Some(FunctionSource::Imported { specifier, source }) => Some(
            SpecFunctionSource::Imported { specifier: specifier@, source: source@ },
        ),
        None => None,
    }
}

/// Where the function of a name is defined: by a value of this module, or by a module
/// from which a pattern takes it and which exports it.
pub open spec fn function_source(
    name: Seq<char>,
    value: Option<Expr>,
    specifier: Option<Seq<char>>,
    pattern: Option<Expr>,
    exports: Map<Seq<char>, StringSet>,
) -> Option<SpecFunctionSource> {
    if value is Some && ungrouped(value->0).kind is Lambda {
        Some(SpecFunctionSource::Local(value->0))
    } else if pattern is Some && specifier is Some {
        match source_for_binder(pattern_entries(pattern->0), name, 0) {
            Some(source) => if exports.contains_key(specifier->0)
                && exports[specifier->0]@.contains(source) {
                Some(SpecFunctionSource::Imported { specifier: specifier->0, source })
            } else {
                None
            },
            None => None,
        }
    } else {
        None
    }
}

pub open spec fn expr_view(expr: Option<&Expr>) -> Option<Expr> {
    match expr {
        Some(expr) => Some(*expr),
        None => None,
    }
}

/// Find where the function of a name is defined. `value` is its only value at the top
/// level, and `pattern` the pattern that binds it, with the module that it imports.
pub fn lookup_comptime_function_export<'a>(
    name: &str,
    value: Option<&'a Expr>,
    specifier: Option<&'a str>,
    pattern: Option<&'a Expr>,
    exports: &StringMap<StringSet>,
) -> (source: Option<FunctionSource<'a>>)
    ensures
        source_view(source) == function_source(
            name@,
            expr_view(value),
            text_view(specifier),
            expr_view(pattern),
            exports@,
        ),
{
    if let Some(value) = value {
        if matches!(ungroup_expr(value).kind, ExprKind::Lambda { .. }) {
            return Some(FunctionSource::Local(value));
        }
    }
    match (pattern, specifier) {
        (Some(pattern), Some(specifier)) => {
            assert(source_for_binder(Seq::<crate::syntax::RecordEntry>::empty(), name@, 0) is None);
            match import_pattern_source_for_binder(pattern, name) {
                Some(source) => match exports.get(specifier) {
                    Some(names) => if names.contains(source) {
                        Some(FunctionSource::Imported { specifier, source })
                    } else {
                        None
                    },
                    None => None,
                },
                None => None,
            }
        },
        _ => None,
    }
}

/// Whether a value at the top level is a function that makes types.
pub open spec fn makes_types(name: Seq<char>, value: Option<Expr>) -> bool {
    starts_uppercase(name) && value is Some && ungrouped(value->0).kind is Lambda
}

/// The positions of the first names whose values are functions that make types.
pub open spec fn type_functions(
    names: Seq<String>,
    values: Seq<Option<&Expr>>,
    count: nat,
) -> Seq<int>
    decreases count,
{
    if count == 0 || count > names.len() {
        Seq::empty()
    } else {
        let earlier = type_functions(names, values, (count - 1) as nat);
        if makes_types(names[count - 1]@, expr_view(values[count - 1])) {
            earlier.push(count - 1)
        } else {
            earlier
        }
    }
}

pub open spec fn positions_view(positions: Seq<usize>) -> Seq<int> {
    positions.map_values(|position: usize| position as int)
}

/// List the functions of a module that make types, by their positions.
pub fn local_comptime_function_definitions(
    names: &Vec<String>,
    values: &Vec<Option<&Expr>>,
) -> (positions: Vec<usize>)
    requires
        names.len() == values.len(),
    ensures
        positions_view(positions@) == type_functions(names@, values@, names@.len()),
{
    let mut positions: Vec<usize> = Vec::new();
    let mut index: usize = 0;
    assert(positions_view(positions@) =~= Seq::empty());
    while index < names.len()
        invariant
            index <= names.len(),
            names.len() == values.len(),
            positions_view(positions@) == type_functions(names@, values@, index as nat),
        decreases names.len() - index,
    {
        let ghost earlier = positions_view(positions@);
        let lambda = match values[index] {
            Some(value) => matches!(ungroup_expr(value).kind, ExprKind::Lambda { .. }),
            None => false,
        };
        if lambda && begins_uppercase(names[index].as_str()) {
            positions.push(index);
            assert(positions_view(positions@) =~= earlier.push(index as int));
        }
        index += 1;
    }
    positions
}

// ---------------------------------------------------------------------------
// Arguments and results that are compared
// ---------------------------------------------------------------------------
/// How far the arguments of a call have been compared with the parameters.
#[derive(Debug, Clone, Copy, PartialEq, Eq, Structural)]
pub struct ArgumentCheck {
    pub position: usize,
    /// Whether the type at the position did not unify, so that the argument itself is
    /// held against the parameter.
    pub checking: bool,
    /// Whether every argument so far fits its parameter.
    pub all_match: bool,
}

/// What is asked next of the arguments of a call.
#[derive(Debug)]
#[allow(inconsistent_fields)]
pub enum ArgumentStep<'a> {
    /// Whether the type of an argument unifies with that of its parameter.
    Unify { actual: &'a Type, expected: &'a Type },
    /// Whether an argument fits its parameter.
    Check { arg: &'a Expr, expected: &'a Type },
    Done { all_match: bool },
}

/// The comparison after an answer. An argument whose type does not unify is looked at
/// again.
pub open spec fn after_answer(check: ArgumentCheck, agrees: bool) -> ArgumentCheck {
    if !check.checking && !agrees {
        ArgumentCheck { checking: true, ..check }
    } else {
        ArgumentCheck {
            position: (check.position + 1) as usize,
            checking: false,
            all_match: check.all_match && agrees,
        }
    }
}

impl ArgumentCheck {
    /// The comparison before the first argument.
    pub fn new() -> (check: Self)
        ensures
            check == (ArgumentCheck { position: 0, checking: false, all_match: true }),
    {
        ArgumentCheck { position: 0, checking: false, all_match: true }
    }

    /// Note whether the types unify or the argument fits, as it was asked.
    pub fn answer(self, agrees: bool) -> (next: Self)
        requires
            self.position < usize::MAX,
        ensures
            next == after_answer(self, agrees),
    {
        if !self.checking && !agrees {
            ArgumentCheck { checking: true, ..self }
        } else {
            ArgumentCheck {
                position: self.position + 1,
                checking: false,
                all_match: self.all_match && agrees,
            }
        }
    }
}

/// Decide what is asked next of the arguments of a call. Arguments without a parameter and
/// parameters without an argument are not looked at.
pub fn check_call_arg_types_against_params<'a>(
    args: &'a Vec<Expr>,
    arg_types: &'a Vec<Type>,
    params: &'a Vec<Type>,
    check: ArgumentCheck,
) -> (step: ArgumentStep<'a>)
    ensures
        step == (if check.position < args.len() && check.position < arg_types.len()
            && check.position < params.len() {
            if check.checking {
                ArgumentStep::Check {
                    arg: &args[check.position as int],
                    expected: &params[check.position as int],
                }
            } else {
                ArgumentStep::Unify {
                    actual: &arg_types[check.position as int],
                    expected: &params[check.position as int],
                }
            }
        } else {
            ArgumentStep::Done { all_match: check.all_match }
        }),
{
    let position: usize = check.position;
    if position < args.len() && position < arg_types.len() && position < params.len() {
        if check.checking {
            ArgumentStep::Check { arg: &args[position], expected: &params[position] }
        } else {
            ArgumentStep::Unify { actual: &arg_types[position], expected: &params[position] }
        }
    } else {
        ArgumentStep::Done { all_match: check.all_match }
    }
}

/// What is known of an argument in an annotation.
#[derive(Debug, Clone, Copy, PartialEq, Eq, Structural)]
pub struct AnnotatedArgument {
    /// Whether the argument depends on a parameter without a value.
    pub depends_on_parameter: bool,
    pub evaluated: bool,
}

/// Whether an argument is checked as a value: its parameter is known at compile time, and
/// it could not be evaluated although it depends on nothing that is not known.
pub open spec fn is_unevaluable(param: Param, argument: AnnotatedArgument) -> bool {
    param.comptime && !argument.depends_on_parameter && !argument.evaluated
}

/// The positions of the first arguments that could not be evaluated.
pub open spec fn unevaluable(
    params: Seq<Param>,
    arguments: Seq<AnnotatedArgument>,
    count: nat,
) -> Seq<int>
    decreases count,
{
    if count == 0 || count > arguments.len() || count > params.len() {
        Seq::empty()
    } else {
        let earlier = unevaluable(params, arguments, (count - 1) as nat);
        if is_unevaluable(params[count - 1], arguments[count - 1]) {
            earlier.push(count - 1)
        } else {
            earlier
        }
    }
}

pub open spec fn shorter(left: nat, right: nat) -> nat {
    if left < right {
        left
    } else {
        right
    }
}

/// List the arguments of a function in an annotation that are checked as values because
/// they could not be evaluated: none where the function is not known or makes types.
pub fn check_unevaluable_lowercase_comptime_arguments(
    params: Option<&Vec<Param>>,
    makes_type: bool,
    arguments: &Vec<AnnotatedArgument>,
) -> (positions: Vec<usize>)
    ensures
        positions_view(positions@) == match params {
            Some(params) => if makes_type {
                Seq::empty()
            } else {
                unevaluable(params@, arguments@, shorter(params@.len(), arguments@.len()))
            },
            None => Seq::empty(),
        },
{
    let mut positions: Vec<usize> = Vec::new();
    assert(positions_view(positions@) =~= Seq::empty());
    let Some(params) = params else {
        return positions;
    };
    if makes_type {
        return positions;
    }
    let mut index: usize = 0;
    while index < arguments.len() && index < params.len()
        invariant
            index <= arguments.len(),
            index <= params.len(),
            positions_view(positions@) == unevaluable(params@, arguments@, index as nat),
        decreases arguments.len() - index,
    {
        let ghost earlier = positions_view(positions@);
        let argument = arguments[index];
        if params[index].comptime && !argument.depends_on_parameter && !argument.evaluated {
            positions.push(index);
            assert(positions_view(positions@) =~= earlier.push(index as int));
        }
        index += 1;
    }
    positions
}

/// The function that an argument is not known for, if that is said: nothing was found wrong
/// with the argument as a value, and it computes something later.
pub fn unknown_argument_function<'a>(
    callee: &'a Expr,
    was_reported: bool,
    computes: bool,
) -> (function: Option<&'a str>)
    ensures
        text_view(function) == (if was_reported || !computes {
            None
        } else {
            match callee_name(*callee) {
                Some(name) => Some(name),
                None => Some("comptime function"@),
            }
        }),
{
    if was_reported || !computes {
        return None;
    }
    match call_callee_name(callee) {
        Some(name) => Some(name),
        None => Some("comptime function"),
    }
}

/// What follows where the type of an index does not unify with the expected one.
#[derive(Debug, Clone, Copy, PartialEq, Eq, Structural)]
pub enum IndexFallback {
    /// The types are compared.
    CompareTypes,
    /// The index itself is held against the expected type.
    CheckValue,
}

/// How an index is compared.
#[derive(Debug, Clone, Copy, PartialEq, Eq, Structural)]
pub struct IndexCheck {
    /// Whether its type is widened first.
    pub widened: bool,
    pub fallback: IndexFallback,
}

/// Decide how an index is compared: where an integer is expected, its type is widened, and
/// only types are compared.
pub fn check_value_index_arg(expected: &Type) -> (check: IndexCheck)
    ensures
        check == (if expected@ == SpecType::Named("Int"@) {
            IndexCheck { widened: true, fallback: IndexFallback::CompareTypes }
        } else {
            IndexCheck { widened: false, fallback: IndexFallback::CheckValue }
        }),
{
    if is_named(expected, "Int") {
        IndexCheck { widened: true, fallback: IndexFallback::CompareTypes }
    } else {
        IndexCheck { widened: false, fallback: IndexFallback::CheckValue }
    }
}

/// The comparison of a propagated error with the error of the annotated result.
#[derive(Debug)]
pub struct ErrorComparison<'a> {
    pub expected: &'a Type,
    pub actual: &'a Type,
    pub span: Span,
}

/// List the comparisons of propagated errors with the error of the annotated result.
/// There are none where the annotation is no result. The types are in normal form.
pub fn report_propagated_errors_against_annotation<'a>(
    expected: &'a Type,
    sites: &'a Vec<PropagationSite>,
) -> (comparisons: Vec<ErrorComparison<'a>>)
    ensures
        match result_parts(expected@) {
            Some((_, error)) => comparisons@.len() == sites@.len() && forall|i: int|
                0 <= i < sites@.len() ==> (#[trigger] comparisons@[i]).expected@ == error
                    && *comparisons@[i].actual == sites@[i].error_ty && comparisons@[i].span
                    == sites@[i].span,
            None => comparisons@.len() == 0,
        },
{
    let mut comparisons: Vec<ErrorComparison<'a>> = Vec::new();
    if let Some((_, error)) = result_type_args(expected) {
        let mut index: usize = 0;
        while index < sites.len()
            invariant
                index <= sites.len(),
                comparisons.len() == index,
                result_parts(expected@) is Some,
                (result_parts(expected@)->0).1 == error@,
                forall|i: int|
                    0 <= i < index ==> (#[trigger] comparisons@[i]).expected@ == error@
                        && *comparisons@[i].actual == sites@[i].error_ty && comparisons@[i].span
                        == sites@[i].span,
            decreases sites.len() - index,
        {
            comparisons.push(
                ErrorComparison {
                    expected: error,
                    actual: &sites[index].error_ty,
                    span: sites[index].span,
                },
            );
            index += 1;
        }
    }
    comparisons
}

// ---------------------------------------------------------------------------
// Laws
// ---------------------------------------------------------------------------
/// A name that is bound to a value carries no static, whatever statics there are.
pub proof fn bound_names_carry_no_statics(
    statics: Map<Seq<char>, Map<Seq<char>, SpecType>>,
    receiver: Seq<char>,
    field: Seq<char>,
)
    ensures
        static_type(statics, receiver, field, true) is None,
{
}

/// A function of this module hides one of its name that is imported.
pub proof fn local_functions_come_first(
    name: Seq<char>,
    value: Expr,
    specifier: Option<Seq<char>>,
    pattern: Option<Expr>,
    exports: Map<Seq<char>, StringSet>,
)
    requires
        ungrouped(value).kind is Lambda,
    ensures
        function_source(name, Some(value), specifier, pattern, exports) == Some(
            SpecFunctionSource::Local(value),
        ),
{
}

/// The comparison after arguments of which it is known whether their types unify and whether
/// they fit.
pub open spec fn after_arguments(check: ArgumentCheck, answers: Seq<(bool, bool)>) -> ArgumentCheck
    decreases answers.len(),
{
    if answers.len() == 0 {
        check
    } else {
        let earlier = after_arguments(check, answers.drop_last());
        let (unifies, fits) = answers.last();
        if unifies {
            after_answer(earlier, true)
        } else {
            after_answer(after_answer(earlier, false), fits)
        }
    }
}

/// A call is well typed if each argument has a type that unifies with its parameter, or
/// else fits it as a value.
pub proof fn arguments_match_one_by_one(check: ArgumentCheck, answers: Seq<(bool, bool)>)
    requires
        !check.checking,
        check.position + answers.len() <= usize::MAX,
    ensures
        after_arguments(check, answers) == (ArgumentCheck {
            position: (check.position + answers.len()) as usize,
            checking: false,
            all_match: check.all_match && (forall|i: int|
                0 <= i < answers.len() ==> (#[trigger] answers[i]).0 || answers[i].1),
        }),
    decreases answers.len(),
{
    if answers.len() > 0 {
        let shorter = answers.drop_last();
        arguments_match_one_by_one(check, shorter);
        assert(forall|i: int| 0 <= i < shorter.len() ==> shorter[i] == answers[i]);
        let all = forall|i: int|
            0 <= i < answers.len() ==> (#[trigger] answers[i]).0 || answers[i].1;
        let earlier = forall|i: int|
            0 <= i < shorter.len() ==> (#[trigger] shorter[i]).0 || shorter[i].1;
        let last = answers.last().0 || answers.last().1;
        assert(all == (earlier && last)) by {
            if earlier && last {
                assert forall|i: int| 0 <= i < answers.len() implies (#[trigger] answers[i]).0
                    || answers[i].1 by {
                    if i < shorter.len() {
                        assert(shorter[i] == answers[i]);
                    }
                }
            }
            if all {
                assert forall|i: int| 0 <= i < shorter.len() implies (#[trigger] shorter[i]).0
                    || shorter[i].1 by {
                    assert(answers[i] == shorter[i]);
                }
                assert(answers[answers.len() - 1] == answers.last());
            }
        }
    }
}

} // verus!
