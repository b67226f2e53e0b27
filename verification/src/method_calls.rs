//! Calls of methods, constructors, formats and functions at compile time.
use crate::baked::HostComptimeParam;
use crate::calls::{
    constructor_data_row, constructor_fields_are_exact, constructor_row, has_exact_fields,
};
use crate::collections::StringMap;
use crate::comparison::LiteralStep;
use crate::comptime_calls::{
    argument_literals, check_comptime_argument_domain, comptime_argument_step, domain_steps,
    ArgumentStep,
};
use crate::methods::{MethodPredicate, MethodSignature, NamedFamilyType, SpecPredicate};
use crate::rows::{literal_union_domain_row, union_domain, ComptimeValue};
use crate::span::Span;
use crate::syntax::{
    call_callee_name, callee_name, ungroup_expr, ungrouped, Expr, ExprKind, RecordEntry,
};
use crate::text::same_text;
use crate::type_ops::type_map_view;
use crate::types::{types_view, Row, SpecType, Type};
use vstd::prelude::*;

verus! {

// ---------------------------------------------------------------------------
// Which rule types a call
// ---------------------------------------------------------------------------
/// The rule that types a call.
#[derive(Debug, Clone, Copy, PartialEq, Eq, Structural)]
pub enum CallRoute {
    VariantConstructor,
    FamilyConstructor,
    Import,
    /// A value is converted to a type that asks for methods.
    SlotConversion,
    TextDecode,
    ValueEncode,
    RecordSelection,
    MapConstructor,
    HostFunction,
    ComptimeFunction,
    Method,
    Function,
}

/// What is known of a call beside its form.
#[derive(Debug, Clone, Copy, PartialEq, Eq, Structural)]
pub struct RouteFacts {
    /// Whether the callee names a family.
    pub is_family: bool,
    /// Whether the argument is a type that asks for methods.
    pub argument_asks_for_methods: bool,
    /// Whether the receiver is a text.
    pub receiver_is_text: bool,
    /// Whether the receiver has a member of the name itself.
    pub receiver_has_member: bool,
    /// Whether the callee selects fields of a record.
    pub selects_fields: bool,
    /// Whether `Map` is bound to something else.
    pub map_is_shadowed: bool,
    /// Whether the builtin constructor of maps takes one argument.
    pub map_takes_one: bool,
    pub is_host_function: bool,
    pub is_comptime_function: bool,
    /// Whether the receiver has the method, or is required to have it.
    pub has_method: bool,
}

/// Whether a callee is a member of a receiver that is looked up without a guard
/// against empty values.
pub open spec fn accesses(callee: Expr, field: Seq<char>) -> bool {
    match ungrouped(callee).kind {
        ExprKind::FieldAccess { field: name, null_safe, .. } => !null_safe && name@ == field,
        _ => false,
    }
}

/// Whether a callee is a member of a receiver.
pub open spec fn is_plain_access(callee: Expr) -> bool {
    match ungrouped(callee).kind {
        ExprKind::FieldAccess { null_safe, .. } => !null_safe,
        _ => false,
    }
}

/// The rule that types a call: the first that applies.
pub open spec fn route_of(callee: Expr, arg_count: nat, facts: RouteFacts) -> CallRoute {
    if callee.kind is Tag {
        CallRoute::VariantConstructor
    } else if facts.is_family {
        CallRoute::FamilyConstructor
    } else if ungrouped(callee).kind is Name && ungrouped(callee).kind->Name_0@ == "import"@ {
        CallRoute::Import
    } else if accesses(callee, "to"@) && arg_count == 1 && facts.argument_asks_for_methods {
        CallRoute::SlotConversion
    } else if accesses(callee, "decode"@) && facts.receiver_is_text {
        CallRoute::TextDecode
    } else if accesses(callee, "encode"@) && !facts.receiver_has_member {
        CallRoute::ValueEncode
    } else if facts.selects_fields {
        CallRoute::RecordSelection
    } else if callee_name(callee) == Some("Map"@) && !facts.map_is_shadowed && arg_count == 1
        && facts.map_takes_one {
        CallRoute::MapConstructor
    } else if facts.is_host_function {
        CallRoute::HostFunction
    } else if facts.is_comptime_function {
        CallRoute::ComptimeFunction
    } else if is_plain_access(callee) && facts.has_method {
        CallRoute::Method
    } else {
        CallRoute::Function
    }
}

fn callee_accesses(callee: &Expr, field: &str) -> (does: bool)
    ensures
        does == accesses(*callee, field@),
{
    match &ungroup_expr(callee).kind {
        ExprKind::FieldAccess { field: name, null_safe, .. } => !*null_safe && same_text(
            name.as_str(),
            field,
        ),
        _ => false,
    }
}

/// Decide which rule types a call.
pub fn call_route(callee: &Expr, arg_count: usize, facts: RouteFacts) -> (route: CallRoute)
    ensures
        route == route_of(*callee, arg_count as nat, facts),
{
    if matches!(callee.kind, ExprKind::Tag(_)) {
        return CallRoute::VariantConstructor;
    }
    if facts.is_family {
        return CallRoute::FamilyConstructor;
    }
    let inner = ungroup_expr(callee);
    if let ExprKind::Name(name) = &inner.kind {
        if same_text(name.as_str(), "import") {
            return CallRoute::Import;
        }
    }
    if callee_accesses(callee, "to") && arg_count == 1 && facts.argument_asks_for_methods {
        return CallRoute::SlotConversion;
    }
    if callee_accesses(callee, "decode") && facts.receiver_is_text {
        return CallRoute::TextDecode;
    }
    if callee_accesses(callee, "encode") && !facts.receiver_has_member {
        return CallRoute::ValueEncode;
    }
    if facts.selects_fields {
        return CallRoute::RecordSelection;
    }
    let is_map = match call_callee_name(callee) {
        Some(name) => same_text(name, "Map"),
        None => false,
    };
    if is_map && !facts.map_is_shadowed && arg_count == 1 && facts.map_takes_one {
        return CallRoute::MapConstructor;
    }
    if facts.is_host_function {
        return CallRoute::HostFunction;
    }
    if facts.is_comptime_function {
        return CallRoute::ComptimeFunction;
    }
    let plain = match &inner.kind {
        ExprKind::FieldAccess { null_safe, .. } => !*null_safe,
        _ => false,
    };
    if plain && facts.has_method {
        CallRoute::Method
    } else {
        CallRoute::Function
    }
}

/// Whether a function takes one argument.
pub open spec fn takes_one(ty: SpecType) -> bool {
    match ty {
        SpecType::Function { params, required, .. } => required <= 1 <= params.len(),
        _ => false,
    }
}

/// The type by which a map is made from its pairs: that of `Map.from`, where `Map` is
/// called with one argument and means the builtin. `from` is the type of that member.
pub fn infer_map_constructor_call<'a>(
    callee: &Expr,
    arg_count: usize,
    is_shadowed: bool,
    from: Option<&'a Type>,
) -> (function: Option<&'a Type>)
    ensures
        function == (if callee_name(*callee) == Some("Map"@) && !is_shadowed && arg_count == 1
            && from is Some && takes_one(from->0@) {
            from
        } else {
            None
        }),
{
    let is_map = match call_callee_name(callee) {
        Some(name) => same_text(name, "Map"),
        None => false,
    };
    if !is_map || is_shadowed || arg_count != 1 {
        return None;
    }
    match from {
        Some(ty) => match ty {
            Type::Function { params, required, .. } => {
                assert(types_view(params@).len() == params.len());
                if *required <= 1 && 1 <= params.len() {
                    from
                } else {
                    None
                }
            },
            _ => None,
        },
        None => None,
    }
}

/// The receiver of a conversion to a type that asks for methods, which is held against
/// that type. `target` is the type that the argument stands for.
pub fn infer_slot_conversion_call<'a>(
    callee: &'a Expr,
    arg_count: usize,
    target: Option<&Type>,
) -> (converted: Option<&'a Expr>)
    ensures
        match converted {
            Some(value) => accesses(*callee, "to"@) && arg_count == 1 && target is Some
                && target->0@ is SlotRecord && *value == *ungrouped(
                *callee,
            ).kind->FieldAccess_receiver,
            None => !(accesses(*callee, "to"@) && arg_count == 1 && target is Some
                && target->0@ is SlotRecord),
        },
{
    let is_slots = match target {
        Some(ty) => matches!(ty, Type::SlotRecord { .. }),
        None => false,
    };
    if arg_count != 1 || !is_slots {
        return None;
    }
    match &ungroup_expr(callee).kind {
        ExprKind::FieldAccess { receiver, field, null_safe, .. } => if !*null_safe && same_text(
            field.as_str(),
            "to",
        ) {
            Some(receiver)
        } else {
            None
        },
        _ => None,
    }
}

// ---------------------------------------------------------------------------
// Constructors of families
// ---------------------------------------------------------------------------
/// What a call of the constructor of a family takes.
#[derive(Debug)]
pub enum ConstructorStep<'a> {
    /// The constructor takes one argument.
    Arity { found: usize },
    /// The argument is held against the builtin base.
    CheckBase(&'a Type),
    /// The fields are held against the data of the family.
    CheckRecord { data: Row, entries: &'a Vec<RecordEntry> },
    /// The type of the argument is looked at.
    Infer(&'a Expr),
}

/// Decide what a call of the constructor of a family takes.
pub fn infer_named_family_constructor<'a>(
    family: &'a NamedFamilyType,
    args: &'a Vec<Expr>,
) -> (step: ConstructorStep<'a>)
    ensures
        if args@.len() != 1 {
            step is Arity && step->found == args@.len()
        } else if family.primitive_base is Some {
            step is CheckBase && *step->CheckBase_0 == family.primitive_base->0
        } else if ungrouped(args@[0]).kind is Record {
            step is CheckRecord && step->data@ == constructor_row(
                family.data@,
                family.defaulted_fields@,
            ) && *step->entries == ungrouped(args@[0]).kind->Record_0
        } else {
            step is Infer && *step->Infer_0 == args@[0]
        },
{
    if args.len() != 1 {
        return ConstructorStep::Arity { found: args.len() };
    }
    if let Some(base) = &family.primitive_base {
        return ConstructorStep::CheckBase(base);
    }
    match &ungroup_expr(&args[0]).kind {
        ExprKind::Record(entries) => ConstructorStep::CheckRecord {
            data: constructor_data_row(&family.data, &family.defaulted_fields),
            entries,
        },
        _ => ConstructorStep::Infer(&args[0]),
    }
}

/// What is known of the argument of a constructor once its type is.
#[derive(Debug)]
pub enum ConstructorFit {
    /// The type is compared with the data of the family.
    Compare(Row),
    /// The argument has other fields than the family.
    Inexact,
}

/// Decide whether an argument has the fields of a family. Its type is in normal form,
/// and that of a family stands for its data.
pub fn constructor_argument(
    family: &NamedFamilyType,
    actual: &Type,
    definitions: &StringMap<Type>,
) -> (fit: ConstructorFit)
    ensures
        if actual@ is Record && has_exact_fields(
            actual@->Record_0,
            family.data@,
            family.defaulted_fields@,
            type_map_view(definitions@),
        ) {
            fit is Compare && fit->Compare_0@ == constructor_row(
                family.data@,
                family.defaulted_fields@,
            )
        } else {
            fit is Inexact
        },
{
    match actual {
        Type::Record(row) => if constructor_fields_are_exact(
            row,
            &family.data,
            &family.defaulted_fields,
            definitions,
        ) {
            ConstructorFit::Compare(constructor_data_row(&family.data, &family.defaulted_fields))
        } else {
            ConstructorFit::Inexact
        },
        _ => ConstructorFit::Inexact,
    }
}

// ---------------------------------------------------------------------------
// Methods
// ---------------------------------------------------------------------------
/// What a call of a method takes.
#[derive(Debug)]
pub enum MethodCall {
    /// The receiver has no such method.
    NoMethod,
    /// The method is one of another receiver.
    WrongReceiver(Type),
    /// The method takes another number of arguments.
    Arity { expected: usize, found: usize },
    /// The arguments are held against the parameters.
    CheckArguments,
    /// The receiver is required to have a method that takes the arguments.
    Require,
}

/// Whether an assumption gives a type a method. The candidates are in normal form.
pub open spec fn is_assumed(
    assumptions: Seq<SpecPredicate>,
    receiver: SpecType,
    member: Seq<char>,
) -> bool {
    exists|i: int|
        0 <= i < assumptions.len() && (#[trigger] assumptions[i]).member == member
            && assumptions[i].candidate == receiver
}

fn assumption_exists(assumptions: &Vec<MethodPredicate>, receiver: &Type, member: &str) -> (found:
    bool)
    ensures
        found == is_assumed(
            crate::methods::predicates_view(assumptions@),
            receiver@,
            member@,
        ),
{
    let ghost all = crate::methods::predicates_view(assumptions@);
    let mut index: usize = 0;
    while index < assumptions.len()
        invariant
            index <= assumptions.len(),
            all == crate::methods::predicates_view(assumptions@),
            forall|i: int|
                0 <= i < index ==> !((#[trigger] all[i]).member == member@ && all[i].candidate
                    == receiver@),
        decreases assumptions.len() - index,
    {
        assert(all[index as int] == assumptions@[index as int]@);
        if same_text(assumptions[index].member.as_str(), member) && assumptions[index].candidate
            == *receiver {
            return true;
        }
        index += 1;
    }
    false
}

/// Decide what a call of a method takes. The type of the receiver decides before any
/// argument is looked at.
pub fn infer_named_or_constrained_method_call(
    receiver: &Type,
    member: &str,
    arg_count: usize,
    known: Option<&MethodSignature>,
    assumptions: &Vec<MethodPredicate>,
    required_owner: Option<Type>,
) -> (call: MethodCall)
    ensures
        match known {
            Some(signature) => if signature@.params.len() != arg_count {
                call is Arity && call->expected == signature@.params.len() && call->found
                    == arg_count
            } else {
                call is CheckArguments
            },
            None => if is_assumed(
                crate::methods::predicates_view(assumptions@),
                receiver@,
                member@,
            ) {
                call is Require
            } else {
                match required_owner {
                    Some(owner) => call is WrongReceiver && call->WrongReceiver_0 == owner,
                    None => call is NoMethod,
                }
            },
        },
{
    match known {
        Some(signature) => {
            assert(types_view(signature.params@).len() == signature.params.len());
            if signature.params.len() != arg_count {
                MethodCall::Arity { expected: signature.params.len(), found: arg_count }
            } else {
                MethodCall::CheckArguments
            }
        },
        None => if assumption_exists(assumptions, receiver, member) {
            MethodCall::Require
        } else {
            match required_owner {
                Some(owner) => MethodCall::WrongReceiver(owner),
                None => MethodCall::NoMethod,
            }
        },
    }
}

/// The requirement that a call of a method states of its receiver.
pub fn required_method_call(
    candidate: Type,
    member: &str,
    args: Vec<Type>,
    result: Type,
    span: Span,
) -> (predicate: MethodPredicate)
    ensures
        predicate@ == (SpecPredicate {
            candidate: candidate@,
            member: member@,
            params: types_view(args@),
            result: result@,
            operator_span: span,
            divisor_context: None,
            binding: None,
            call_span: None,
            obligation_id: None,
        }),
{
    MethodPredicate {
        candidate,
        member: member.to_owned(),
        params: args,
        result,
        operator_span: span,
        divisor_context: None,
        binding: None,
        call_span: None,
        obligation_id: None,
    }
}

// ---------------------------------------------------------------------------
// Formats
// ---------------------------------------------------------------------------
/// What a method that takes a format comes to.
#[derive(Debug)]
pub enum FormatStep<'a> {
    /// There is no format.
    Missing,
    /// The argument is no format that has the method.
    Invalid(&'a Expr),
    /// The format takes another number of arguments.
    Arity { required: usize, total: usize, found: usize },
    /// The method of the format is called.
    Call(&'a str),
}

/// The number of arguments that a member of a format takes.
#[derive(Debug, Clone, Copy, PartialEq, Eq, Structural)]
pub struct MemberArity {
    pub required: usize,
    pub total: usize,
}

/// What a method that takes a format comes to. `format` is the name of the format if
/// the first argument has the method, and `arity` what a member takes whose number of
/// arguments is checked first.
pub open spec fn is_format_step(
    args: Seq<Expr>,
    format: Option<&str>,
    arity: Option<MemberArity>,
    step: FormatStep<'_>,
) -> bool {
    if args.len() == 0 {
        step is Missing
    } else {
        match format {
            None => step is Invalid && *step->Invalid_0 == args[0],
            Some(name) => match arity {
                Some(arity) => if arity.required <= args.len() <= arity.total {
                    step is Call && step->Call_0@ == name@
                } else {
                    step is Arity && step->required == arity.required && step->total
                        == arity.total && step->found == args.len()
                },
                None => step is Call && step->Call_0@ == name@,
            },
        }
    }
}

fn format_step<'a>(
    args: &'a Vec<Expr>,
    format: Option<&'a str>,
    arity: Option<MemberArity>,
) -> (step: FormatStep<'a>)
    ensures
        is_format_step(args@, format, arity, step),
{
    if args.len() == 0 {
        return FormatStep::Missing;
    }
    match format {
        None => FormatStep::Invalid(&args[0]),
        Some(name) => match arity {
            Some(arity) => if arity.required <= args.len() && args.len() <= arity.total {
                FormatStep::Call(name)
            } else {
                FormatStep::Arity {
                    required: arity.required,
                    total: arity.total,
                    found: args.len(),
                }
            },
            None => FormatStep::Call(name),
        },
    }
}

/// Decide what decoding a text comes to.
pub fn infer_text_decode_call<'a>(args: &'a Vec<Expr>, format: Option<&'a str>) -> (step: FormatStep<
    'a,
>)
    ensures
        is_format_step(args@, format, None, step),
{
    format_step(args, format, None)
}

/// Decide what encoding a value comes to. The receiver takes the place of the format
/// among the arguments, so that their number stays the same.
pub fn infer_value_encode_call<'a>(
    args: &'a Vec<Expr>,
    format: Option<&'a str>,
    arity: Option<MemberArity>,
) -> (step: FormatStep<'a>)
    ensures
        is_format_step(args@, format, arity, step),
{
    format_step(args, format, arity)
}

/// The receiver and the place of the member of a call that encodes a value, where the
/// receiver has no such member itself.
pub fn value_encode_sugar_receiver<'a>(
    callee: &'a Expr,
    static_wins: bool,
    carries_member: bool,
) -> (receiver: Option<(&'a Expr, Span)>)
    ensures
        match receiver {
            Some((receiver, span)) => accesses(*callee, "encode"@) && !static_wins
                && !carries_member && *receiver == *ungrouped(
                *callee,
            ).kind->FieldAccess_receiver && span == ungrouped(
                *callee,
            ).kind->FieldAccess_field_span,
            None => !accesses(*callee, "encode"@) || static_wins || carries_member,
        },
{
    match &ungroup_expr(callee).kind {
        ExprKind::FieldAccess { receiver, field, field_span, null_safe } => if !*null_safe
            && same_text(field.as_str(), "encode") && !static_wins && !carries_member {
            Some((receiver, *field_span))
        } else {
            None
        },
        _ => None,
    }
}

/// The type of a method that takes a format, as a reader of the call sees it: the
/// format and the other arguments, all required.
pub fn format_method_member_type(format: &str, extra: Vec<Type>, result: Type) -> (ty: Type)
    requires
        extra.len() < usize::MAX,
    ensures
        ty@ == (SpecType::Function {
            params: seq![SpecType::Named(format@)] + types_view(extra@),
            result: Box::new(result@),
            required: extra@.len() + 1,
        }),
{
    let mut params: Vec<Type> = Vec::new();
    let mut rest = extra;
    params.push(Type::Named(format.to_owned()));
    params.append(&mut rest);
    assert(types_view(params@) =~= seq![SpecType::Named(format@)] + types_view(extra@));
    let required: usize = params.len();
    Type::Function { params, result: Box::new(result), required }
}

// ---------------------------------------------------------------------------
// Functions of the host
// ---------------------------------------------------------------------------
/// What is handed to a function of the host.
#[derive(Debug)]
pub enum HostArguments {
    /// An argument is not known: the call has no type yet.
    Deferred,
    /// The values, and the place of the last argument.
    Known { values: Vec<ComptimeValue>, place: Span },
}

/// Whether a type argument is handed over by its name: the name of a type that is
/// known and not recursive.
pub open spec fn keeps_name(
    param: HostComptimeParam,
    value: ComptimeValue,
    arg: Expr,
    definitions: Map<Seq<char>, SpecType>,
) -> bool {
    param is Value && value is ReifiedType && match callee_name(arg) {
        Some(name) => definitions.contains_key(name) && !(definitions[name] is Deferred)
            && !(definitions[name] is Recursive),
        None => false,
    }
}

/// The position of a parameter.
pub open spec fn position_of(param: HostComptimeParam) -> usize {
    match param {
        HostComptimeParam::Value(position) => position,
        HostComptimeParam::TypeOf(position) => position,
    }
}

/// Whether a value is the one that is handed over for a parameter.
pub open spec fn is_handed_over(
    param: HostComptimeParam,
    given: Option<ComptimeValue>,
    arg: Expr,
    definitions: Map<Seq<char>, SpecType>,
    value: ComptimeValue,
) -> bool {
    match given {
        Some(known) => if keeps_name(param, known, arg, definitions) {
            value is ReifiedType && value->ReifiedType_0@ == SpecType::Named(callee_name(arg)->0)
        } else {
            value == known
        },
        None => false,
    }
}

/// The number of parameters among the first whose arguments are there.
pub open spec fn present(params: Seq<HostComptimeParam>, args: Seq<Expr>, count: nat) -> Seq<int>
    decreases count,
{
    if count == 0 || count > params.len() {
        Seq::empty()
    } else {
        let earlier = present(params, args, (count - 1) as nat);
        if position_of(params[count - 1]) < args.len() {
            earlier.push(count - 1)
        } else {
            earlier
        }
    }
}

/// Whether a parameter stops a call: its argument is missing though it is required,
/// or not known.
pub open spec fn stops(
    param: HostComptimeParam,
    given: Option<ComptimeValue>,
    args: Seq<Expr>,
    required: nat,
) -> bool {
    if position_of(param) >= args.len() {
        position_of(param) < required
    } else {
        given is None
    }
}

/// Collect what is handed to a function of the host. `given` holds, for each
/// parameter that is known at compile time, the value of its argument or the type of
/// it.
pub fn infer_host_comptime_call(
    params: &Vec<HostComptimeParam>,
    given: Vec<Option<ComptimeValue>>,
    args: &Vec<Expr>,
    required: usize,
    definitions: &StringMap<Type>,
    callee_span: Span,
) -> (arguments: HostArguments)
    requires
        given.len() == params.len(),
    ensures
        ({
            let known = type_map_view(definitions@);
            let places = present(params@, args@, params@.len());
            match arguments {
                HostArguments::Deferred => exists|i: int|
                    0 <= i < params@.len() && #[trigger] stops(
                        params@[i],
                        given@[i],
                        args@,
                        required as nat,
                    ),
                HostArguments::Known { values, place } => {
                    &&& forall|i: int|
                        0 <= i < params@.len() ==> !(#[trigger] stops(
                            params@[i],
                            given@[i],
                            args@,
                            required as nat,
                        ))
                    &&& values@.len() == places.len()
                    &&& forall|k: int|
                        0 <= k < places.len() ==> is_handed_over(
                            params@[places[k]],
                            given@[places[k]],
                            args@[position_of(params@[places[k]]) as int],
                            known,
                            #[trigger] values@[k],
                        )
                    &&& place == if places.len() == 0 {
                        callee_span
                    } else {
                        args@[position_of(params@[places.last()]) as int].span
                    }
                },
            }
        }),
{
    let ghost known = type_map_view(definitions@);
    let mut values: Vec<ComptimeValue> = Vec::new();
    let mut place = callee_span;
    let mut rest = given;
    let mut index: usize = 0;
    while index < params.len()
        invariant
            index <= params.len(),
            given.len() == params.len(),
            rest@ == given@.skip(index as int),
            known == type_map_view(definitions@),
            forall|i: int|
                0 <= i < index ==> !(#[trigger] stops(
                    params@[i],
                    given@[i],
                    args@,
                    required as nat,
                )),
            ({
                let places = present(params@, args@, index as nat);
                &&& values@.len() == places.len()
                &&& forall|k: int|
                    0 <= k < places.len() ==> is_handed_over(
                        params@[places[k]],
                        given@[places[k]],
                        args@[position_of(params@[places[k]]) as int],
                        known,
                        #[trigger] values@[k],
                    )
                &&& place == if places.len() == 0 {
                    callee_span
                } else {
                    args@[position_of(params@[places.last()]) as int].span
                }
            }),
        decreases params.len() - index,
    {
        let ghost places = present(params@, args@, index as nat);
        let param = params[index];
        let position: usize = param.index();
        let value = rest.remove(0);
        assert(value == given@[index as int]);
        assert(rest@ =~= given@.skip(index + 1));
        if position >= args.len() {
            if position < required {
                assert(stops(params@[index as int], given@[index as int], args@, required as nat));
                return HostArguments::Deferred;
            }
            index += 1;
        } else {
            let arg = &args[position];
            let known_value = match value {
                Some(value) => value,
                None => {
                    assert(stops(
                        params@[index as int],
                        given@[index as int],
                        args@,
                        required as nat,
                    ));
                    return HostArguments::Deferred;
                },
            };
            let mut name: Option<&str> = None;
            if matches!(param, HostComptimeParam::Value(_)) && matches!(
                known_value,
                ComptimeValue::ReifiedType(_)
            ) {
                if let Some(written) = call_callee_name(arg) {
                    if let Some(definition) = definitions.get(written) {
                        if !matches!(definition, Type::Deferred) && !matches!(
                            definition,
                            Type::Recursive(_)
                        ) {
                            name = Some(written);
                        }
                    }
                }
            }
            let handed = match name {
                Some(name) => {
                    let ty = Type::Named(name.to_owned());
                    assert(ty@ == SpecType::Named(name@));
                    ComptimeValue::ReifiedType(ty)
                },
                None => known_value,
            };
            assert(is_handed_over(
                params@[index as int],
                given@[index as int],
                *arg,
                known,
                handed,
            ));
            values.push(handed);
            place = arg.span;
            assert(present(params@, args@, (index + 1) as nat) == places.push(index as int));
            index += 1;
        }
    }
    HostArguments::Known { values, place }
}

// ---------------------------------------------------------------------------
// Functions at compile time
// ---------------------------------------------------------------------------
/// A parameter of a function that is evaluated where it is called, with what is known
/// of its argument.
#[derive(Debug)]
pub struct ParamFacts {
    pub name: String,
    /// Whether the parameter is known at compile time.
    pub comptime: bool,
    /// For another parameter: whether the type of the argument unifies with its
    /// annotation, if it has one, and the type of the argument.
    pub fits: bool,
    pub actual: Type,
    /// The value of the argument, if it is known.
    pub value: Option<ComptimeValue>,
    /// The type that the value reads as, or that its annotation evaluates to.
    pub value_type: Type,
    /// The type that the annotation evaluates to, whose literals the value must be
    /// among.
    pub domain: Option<Type>,
    /// Whether the argument depends on a parameter without a value.
    pub depends_on_parameter: bool,
}

/// What a call of a function at compile time comes to.
#[derive(Debug)]
#[allow(inconsistent_fields)]
pub enum ParamCall {
    /// The function takes another number of arguments.
    Arity { expected: usize, found: usize },
    /// The call has no type yet.
    Deferred,
    /// The argument is checked as a value, and the call has no type.
    CheckValue { argument: usize },
    /// The literals of an argument are not all admitted.
    Refused { argument: usize, steps: Vec<LiteralStep> },
    /// The body is typed with its parameters bound.
    Body,
}

/// Whether the value of an argument is refused.
pub open spec fn is_refused(facts: ParamFacts) -> bool {
    facts.value is Some && facts.domain is Some && union_domain(facts.domain->0@) is Some
        && exists|i: int|
        0 <= i < argument_literals(facts.value->0).len() && #[trigger] domain_steps(
            union_domain(facts.domain->0@)->0,
            argument_literals(facts.value->0),
        )[i] != LiteralStep::Accept
}

/// The first parameter that is not known at compile time whose argument does not fit.
pub open spec fn first_misfit(params: Seq<ParamFacts>, from: int) -> Option<int>
    decreases params.len() - from,
{
    if from < 0 || from >= params.len() {
        None
    } else if !params[from].comptime && !params[from].fits {
        Some(from)
    } else {
        first_misfit(params, from + 1)
    }
}

/// The step for an argument that is known at compile time.
pub open spec fn argument_step_of(facts: ParamFacts, uppercase: bool) -> ArgumentStep {
    if facts.value is None {
        if uppercase || facts.depends_on_parameter {
            ArgumentStep::Defer
        } else {
            ArgumentStep::CheckThenDefer
        }
    } else if is_refused(facts) && !uppercase {
        ArgumentStep::Defer
    } else {
        ArgumentStep::Use
    }
}

/// The first parameter that is known at compile time whose argument is not used.
pub open spec fn first_unused(params: Seq<ParamFacts>, uppercase: bool, from: int) -> Option<int>
    decreases params.len() - from,
{
    if from < 0 || from >= params.len() {
        None
    } else if params[from].comptime && argument_step_of(params[from], uppercase)
        != ArgumentStep::Use {
        Some(from)
    } else {
        first_unused(params, uppercase, from + 1)
    }
}

/// Whether a call of a function at compile time comes to something. Arguments of
/// ordinary parameters are looked at first.
pub open spec fn is_param_call(
    params: Seq<ParamFacts>,
    arg_count: nat,
    uppercase: bool,
    call: ParamCall,
) -> bool {
    if params.len() != arg_count {
        call is Arity && call->expected == params.len() && call->found == arg_count
    } else if first_misfit(params, 0) is Some {
        call is Deferred
    } else {
        match first_unused(params, uppercase, 0) {
            None => call is Body,
            Some(index) => match argument_step_of(params[index], uppercase) {
                ArgumentStep::CheckThenDefer => call is CheckValue && call->CheckValue_argument
                    == index,
                _ => if params[index].value is None {
                    call is Deferred
                } else {
                    call is Refused && call->Refused_argument == index && call->steps@
                        == domain_steps(
                        union_domain(params[index].domain->0@)->0,
                        argument_literals(params[index].value->0),
                    )
                },
            },
        }
    }
}

fn refusal(facts: &ParamFacts) -> (steps: Option<Vec<LiteralStep>>)
    ensures
        match steps {
            Some(steps) => is_refused(*facts) && steps@ == domain_steps(
                union_domain(facts.domain->0@)->0,
                argument_literals(facts.value->0),
            ),
            None => !is_refused(*facts),
        },
{
    match (&facts.value, &facts.domain) {
        (Some(value), Some(domain)) => match literal_union_domain_row(domain) {
            Some(row) => {
                let steps = check_comptime_argument_domain(row, value);
                let ghost literals = argument_literals(*value);
                assert(steps@.len() == literals.len());
                let mut index: usize = 0;
                while index < steps.len()
                    invariant
                        index <= steps.len(),
                        facts.value == Some(*value),
                        facts.domain == Some(*domain),
                        union_domain(domain@) == Some(row@),
                        literals == argument_literals(*value),
                        steps@ == domain_steps(row@, literals),
                        steps@.len() == literals.len(),
                        forall|i: int| 0 <= i < index ==> steps@[i] == LiteralStep::Accept,
                    decreases steps.len() - index,
                {
                    if !matches!(steps[index], LiteralStep::Accept) {
                        assert(domain_steps(row@, literals)[index as int] != LiteralStep::Accept);
                        return Some(steps);
                    }
                    index += 1;
                }
                None
            },
            None => None,
        },
        _ => None,
    }
}

/// Decide what a call of a function at compile time comes to. `uppercase` says that
/// the function makes types.
pub fn infer_comptime_param_call(
    params: &Vec<ParamFacts>,
    arg_count: usize,
    uppercase: bool,
) -> (call: ParamCall)
    ensures
        is_param_call(params@, arg_count as nat, uppercase, call),
{
    if params.len() != arg_count {
        return ParamCall::Arity { expected: params.len(), found: arg_count };
    }
    let mut index: usize = 0;
    while index < params.len()
        invariant
            index <= params.len(),
            params.len() == arg_count,
            first_misfit(params@, 0) == first_misfit(params@, index as int),
        decreases params.len() - index,
    {
        if !params[index].comptime && !params[index].fits {
            return ParamCall::Deferred;
        }
        index += 1;
    }
    let mut index: usize = 0;
    while index < params.len()
        invariant
            index <= params.len(),
            params.len() == arg_count,
            first_misfit(params@, 0) is None,
            first_unused(params@, uppercase, 0) == first_unused(
                params@,
                uppercase,
                index as int,
            ),
        decreases params.len() - index,
    {
        let param = &params[index];
        if param.comptime {
            let refused = refusal(param);
            match comptime_argument_step(
                param.value.is_some(),
                refused.is_some(),
                uppercase,
                param.depends_on_parameter,
            ) {
                ArgumentStep::Use => {},
                ArgumentStep::CheckThenDefer => {
                    return ParamCall::CheckValue { argument: index };
                },
                ArgumentStep::Defer => {
                    return match refused {
                        Some(steps) => if param.value.is_some() {
                            ParamCall::Refused { argument: index, steps }
                        } else {
                            ParamCall::Deferred
                        },
                        None => ParamCall::Deferred,
                    };
                },
            }
        }
        index += 1;
    }
    ParamCall::Body
}

/// The types that the parameters of a function have in its body.
pub open spec fn body_types(params: Seq<ParamFacts>) -> Seq<(Seq<char>, SpecType)> {
    Seq::new(
        params.len(),
        |i: int|
            (
                params[i].name@,
                if params[i].comptime {
                    params[i].value_type@
                } else {
                    params[i].actual@
                },
            ),
    )
}

/// List the types that the parameters of a function have in its body.
pub fn body_parameter_types(params: &Vec<ParamFacts>) -> (types: Vec<(String, Type)>)
    ensures
        types.len() == params.len(),
        forall|i: int|
            0 <= i < types.len() ==> ((#[trigger] types@[i]).0@, types@[i].1@) == body_types(
                params@,
            )[i],
{
    let mut types: Vec<(String, Type)> = Vec::new();
    let mut index: usize = 0;
    while index < params.len()
        invariant
            index <= params.len(),
            types.len() == index,
            forall|i: int|
                0 <= i < index ==> ((#[trigger] types@[i]).0@, types@[i].1@) == body_types(
                    params@,
                )[i],
        decreases params.len() - index,
    {
        let param = &params[index];
        let ty = if param.comptime {
            param.value_type.clone()
        } else {
            param.actual.clone()
        };
        types.push((param.name.clone(), ty));
        index += 1;
    }
    types
}

// ---------------------------------------------------------------------------
// Laws
// ---------------------------------------------------------------------------
/// A member is called as an ordinary function only where its receiver does not have it
/// as a method.
pub proof fn methods_are_not_called_as_functions(
    callee: Expr,
    arg_count: nat,
    facts: RouteFacts,
)
    requires
        route_of(callee, arg_count, facts) == CallRoute::Function,
        is_plain_access(callee),
    ensures
        !facts.has_method,
{
}

/// A family is constructed by its own constructor, whatever else its name could be
/// called as.
pub proof fn families_construct_themselves(callee: Expr, arg_count: nat, facts: RouteFacts)
    requires
        facts.is_family,
        !(callee.kind is Tag),
    ensures
        route_of(callee, arg_count, facts) == CallRoute::FamilyConstructor,
{
}

} // verus!
