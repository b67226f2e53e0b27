//! The rules for operators, calls, indices and propagated errors, applied to the types of
//! the parts of an expression.
use crate::access::{
    field_step, infer_field_access, infer_record_index, infer_tuple_index, infer_value_index,
    tuple_index, FieldStep, IndexStep, RecordElement, SpecFieldStep, TupleElement,
};
use crate::arms::{
    combined, unify_match_arm_body_types, union_after, united_arms, ArmBody, MatchArmCombination,
    SpecCombination,
};
use crate::binary_operations::{
    has_numbers, infer_binary_operation, numbers_suffice, operation_outcome, OperandAnswers,
    Operation, OperationOutcome, OperatorContext, SpecOperation, SpecOutcome,
};
use crate::calls::{
    call_plan, infer_call, infer_propagate, known_call_type, to_result_type, CallPlan,
    PropagateStep, SpecCallPlan,
};
use crate::collections::StringMap;
use crate::folding::{fold_unary_literal, folded_unary, FloatFold};
use crate::inference::{open_literal, open_literal_variant, Fresh};
use crate::lookup::{exact_method_scheme, exact_scheme, MethodEnvironment};
use crate::methods::text_view;
use crate::normalize::{normal_form, normalize};
use crate::operators::{
    clone_base, counts_as_unknown_number, infer_unary, invalid_unary, invalid_unary_result,
    is_unknown_number, number_operand, numeric_operand, only_literal, singleton_literal_type,
    unary_rule, widen_same_named_operand, widened_to_named, OperandRule, SpecRule,
};
use crate::rows::{field_type, owned_type_view, result_parts};
use crate::syntax::{Expr, PropagationMode};
use crate::text::same_text;
use crate::type_ops::{is_deferred, resolved, some_node, type_contains_deferred, type_map_view};
use crate::types::{types_view, SpecType, Type};
use vstd::prelude::*;

verus! {

// ---------------------------------------------------------------------------
// Facts and events
// ---------------------------------------------------------------------------
/// What is known of the operands of a binary operator.
pub struct BinaryUse {
    pub context: OperatorContext,
    pub answers: OperandAnswers,
    pub float: FloatFold,
}

/// What is known of the operand of a unary operator.
pub struct UnaryUse {
    /// What the operand's type stands for, and with unknown numbers settled afterwards.
    pub value: Type,
    pub settled: Type,
    /// The base of the operand's family.
    pub base: Option<Type>,
    /// The operand is an unknown number.
    pub is_number: bool,
    /// The operand takes the type that is asked for.
    pub unified: bool,
    /// The negation of a floating-point literal.
    pub float: Option<String>,
}

/// What is known of an indexed value.
pub struct IndexUse {
    /// What the value's type stands for.
    pub receiver: Type,
    /// The label that the index comes to, and whether it depends on a parameter.
    pub label: Option<String>,
    pub depends_on_parameter: bool,
}

/// What is known of a call.
pub struct CallUse {
    /// What the callee's type stands for, and those of the arguments.
    pub callee: Type,
    pub args: Vec<Type>,
    /// A callee that is not known takes the arguments.
    pub unified: bool,
    /// What the result comes to.
    pub result: Type,
    /// The type of a result whose error the call handles.
    pub handled: Option<Type>,
}

/// What is known of a value whose field is read.
pub struct FieldUse {
    pub methods: MethodEnvironment,
    /// The data of the families, by the names that they go by.
    pub family_data: StringMap<Type>,
    /// What the value's type stands for.
    pub receiver: Type,
    /// The types of the methods that a collection has under the name, as a whole and without
    /// the empty values.
    pub whole: Option<Type>,
    pub inner: Option<Type>,
    /// A value that is not known has the field.
    pub unified: bool,
}

/// What is known of a match.
pub struct MatchUse {
    /// The arm that is selected at compile time.
    pub selected: Option<usize>,
    /// The bodies of the arms.
    pub bodies: Vec<ArmBody>,
}

/// What is known of a function.
pub struct LambdaUse {
    /// What the annotations of the parameters say.
    pub annotations: Vec<Option<Type>>,
    /// What the annotation of the result says.
    pub annotation: Option<Type>,
    /// What the type of the body comes to with the errors that leave it.
    pub body: Option<Type>,
    /// The body fits the annotation of the result.
    pub fits: bool,
    /// What the types of the body and of the annotation stand for.
    pub resolved_body: Type,
    pub resolved_annotation: Type,
}

/// What is known where a rule applies.
pub enum RuleFacts {
    Binary(BinaryUse),
    Unary(UnaryUse),
    /// What the type of a propagated value stands for.
    Propagate(Type),
    Index(IndexUse),
    Call(CallUse),
    Field(FieldUse),
    Match(MatchUse),
    Lambda(LambdaUse),
    /// What the types of the payload of a tag stand for.
    Constructor(Vec<Type>),
}

/// What is said of an index.
#[derive(Debug)]
pub enum ElementFinding {
    Nothing,
    /// The label or the position is not known.
    LabelNotKnown,
    PositionNotKnown,
    MissingField(String),
    OutOfRange { index: usize, length: usize },
    NotIndexable(Type),
}

/// What is said of an index.
pub ghost enum SpecElementFinding {
    Nothing,
    LabelNotKnown,
    PositionNotKnown,
    MissingField(Seq<char>),
    OutOfRange { index: nat, length: nat },
    NotIndexable(SpecType),
}

impl ElementFinding {
    pub open spec fn view(&self) -> SpecElementFinding {
        match self {
            ElementFinding::Nothing => SpecElementFinding::Nothing,
            ElementFinding::LabelNotKnown => SpecElementFinding::LabelNotKnown,
            ElementFinding::PositionNotKnown => SpecElementFinding::PositionNotKnown,
            ElementFinding::MissingField(label) => SpecElementFinding::MissingField(label@),
            ElementFinding::OutOfRange { index, length } => SpecElementFinding::OutOfRange {
                index: *index as nat,
                length: *length as nat,
            },
            ElementFinding::NotIndexable(ty) => SpecElementFinding::NotIndexable(ty@),
        }
    }
}

/// What a rule asks for or says.
#[derive(Debug)]
#[allow(inconsistent_fields)]
pub enum RuleEvent {
    Operation(OperationOutcome),
    /// There are no numbers left for unknown types.
    OutOfNumbers,
    /// The operand is to have the type that is asked for. Where the operator is not defined,
    /// what was found out is forgotten.
    Unary { asked: Option<Type>, forgets: bool, undefined: Option<Type> },
    /// The error that is returned is noted.
    Propagated { error: Option<Type> },
    NotResult { ty: Type, report: bool },
    /// An index is held against a type.
    Argument { expected: Type, actual: Type },
    Indexed(ElementFinding),
    Called(CallPlan),
    FieldRead(FieldStep),
    Matched(MatchArmCombination),
}

/// What a rule asks for or says.
#[allow(inconsistent_fields)]
pub ghost enum SpecRuleEvent {
    Operation(SpecOutcome),
    OutOfNumbers,
    Unary { asked: Option<SpecType>, forgets: bool, undefined: Option<SpecType> },
    Propagated { error: Option<SpecType> },
    NotResult { ty: SpecType, report: bool },
    Argument { expected: SpecType, actual: SpecType },
    Indexed(SpecElementFinding),
    Called(SpecCallPlan),
    FieldRead(SpecFieldStep),
    Matched(SpecCombination),
}

impl RuleEvent {
    pub open spec fn view(&self) -> SpecRuleEvent {
        match self {
            RuleEvent::Operation(outcome) => SpecRuleEvent::Operation(outcome@),
            RuleEvent::OutOfNumbers => SpecRuleEvent::OutOfNumbers,
            RuleEvent::Unary { asked, forgets, undefined } => SpecRuleEvent::Unary {
                asked: owned_type_view(*asked),
                forgets: *forgets,
                undefined: owned_type_view(*undefined),
            },
            RuleEvent::Propagated { error } => SpecRuleEvent::Propagated {
                error: owned_type_view(*error),
            },
            RuleEvent::NotResult { ty, report } => SpecRuleEvent::NotResult {
                ty: ty@,
                report: *report,
            },
            RuleEvent::Argument { expected, actual } => SpecRuleEvent::Argument {
                expected: expected@,
                actual: actual@,
            },
            RuleEvent::Indexed(finding) => SpecRuleEvent::Indexed(finding@),
            RuleEvent::Called(plan) => SpecRuleEvent::Called(plan@),
            RuleEvent::FieldRead(step) => SpecRuleEvent::FieldRead(step@),
            RuleEvent::Matched(combination) => SpecRuleEvent::Matched(combination@),
        }
    }
}

/// What a rule comes to: a type, and what it asks for or says.
pub ghost struct Ruled {
    pub ty: SpecType,
    pub event: SpecRuleEvent,
    pub fresh: Fresh,
}

// ---------------------------------------------------------------------------
// Operators
// ---------------------------------------------------------------------------
/// Whether an operation calls its right operand with its left.
pub open spec fn pipes(operator: Seq<char>, facts: BinaryUse) -> bool {
    operator == "|>"@ && !(facts.context.in_dependency && facts.context.custom_operator)
}

/// Find out whether an operation calls its right operand with its left.
pub fn is_pipe(operator: &str, facts: &BinaryUse) -> (pipe: bool)
    ensures
        pipe == pipes(operator@, *facts),
{
    same_text(operator, "|>") && !(facts.context.in_dependency && facts.context.custom_operator)
}

/// The type of an operation; it is not known where nothing types it.
pub open spec fn outcome_type(outcome: SpecOutcome) -> SpecType {
    match outcome {
        SpecOutcome::Typed(typed) => typed.result,
        _ => SpecType::Deferred,
    }
}

/// What a binary operation comes to.
pub open spec fn binary_ruled(operation: SpecOperation, facts: BinaryUse, fresh: Fresh) -> Ruled {
    if has_numbers(facts.context@, operation, facts.answers@, fresh) {
        let (outcome, after) = operation_outcome(
            facts.context@,
            operation,
            facts.answers@,
            facts.float,
            fresh,
        );
        Ruled {
            ty: outcome_type(outcome),
            event: SpecRuleEvent::Operation(outcome),
            fresh: after,
        }
    } else {
        Ruled { ty: SpecType::Deferred, event: SpecRuleEvent::OutOfNumbers, fresh }
    }
}

/// Type a binary operation from the types of its operands.
pub fn rule_binary(operation: &Operation<'_>, facts: &BinaryUse, fresh: &mut Fresh) -> (ruled: (
    Type,
    RuleEvent,
))
    ensures
        (Ruled { ty: ruled.0@, event: ruled.1@, fresh: *final(fresh) }) == binary_ruled(
            operation@,
            *facts,
            *old(fresh),
        ),
{
    if !numbers_suffice(&facts.context, operation, &facts.answers, fresh) {
        return (Type::Deferred, RuleEvent::OutOfNumbers);
    }
    let outcome = infer_binary_operation(
        &facts.context,
        operation,
        &facts.answers,
        &facts.float,
        fresh,
    );
    let ty = match &outcome {
        OperationOutcome::Typed(typed) => typed.result.clone(),
        _ => Type::Deferred,
    };
    (ty, RuleEvent::Operation(outcome))
}

/// What an operand counts as for a unary operator, with the first unknown type that is not
/// in use then.
pub open spec fn unary_operand(operator: Seq<char>, facts: UnaryUse, next: int) -> (SpecType, int) {
    if operator == "-"@ {
        numeric_operand(facts.value@, owned_type_view(facts.base), next)
    } else {
        (widened_to_named(facts.value@, "Bool"@, owned_type_view(facts.base)), next)
    }
}

/// What a unary operation comes to that is not defined for its operand.
pub open spec fn undefined_unary(
    operator: Seq<char>,
    asked: Option<SpecType>,
    settled: SpecType,
    fresh: Fresh,
) -> Ruled {
    match invalid_unary_result(operator, settled) {
        Some(ty) => Ruled {
            ty,
            event: SpecRuleEvent::Unary { asked, forgets: true, undefined: Some(settled) },
            fresh,
        },
        None => Ruled {
            ty: SpecType::Deferred,
            event: SpecRuleEvent::Unary { asked, forgets: true, undefined: None },
            fresh,
        },
    }
}

/// What a unary operation comes to: a literal is computed, and else the operand decides.
pub open spec fn unary_ruled(
    operator: Seq<char>,
    facts: UnaryUse,
    definitions: Map<Seq<char>, SpecType>,
    fresh: Fresh,
) -> Ruled {
    let literal = match only_literal(facts.value@) {
        Some(literal) => folded_unary(operator, literal, text_view(facts.float)),
        None => None,
    };
    let settled = normal_form(facts.settled@, definitions);
    let (operand, next) = unary_operand(operator, facts, fresh.meta as int);
    let numeric = facts.is_number || (facts.base is None && is_unknown_number(facts.value@));
    let quiet = SpecRuleEvent::Unary { asked: None, forgets: false, undefined: None };
    match literal {
        Some(literal) => Ruled {
            ty: open_literal(literal, fresh.tail),
            event: quiet,
            fresh: fresh.after_tail(),
        },
        None => if next > u32::MAX {
            Ruled { ty: SpecType::Deferred, event: SpecRuleEvent::OutOfNumbers, fresh }
        } else {
            let after = Fresh { meta: next as u32, ..fresh };
            match unary_rule(operator, operand, numeric) {
                SpecRule::Accept(ty) => Ruled { ty, event: quiet, fresh: after },
                SpecRule::UnifyLeft { with, result } => if facts.unified {
                    Ruled {
                        ty: result,
                        event: SpecRuleEvent::Unary {
                            asked: Some(with),
                            forgets: false,
                            undefined: None,
                        },
                        fresh: after,
                    }
                } else {
                    undefined_unary(operator, Some(with), settled, after)
                },
                _ => undefined_unary(operator, None, settled, after),
            }
        },
    }
}

fn rule_undefined_unary(operator: &str, asked: Option<Type>, settled: Type) -> (ruled: (
    Type,
    RuleEvent,
))
    ensures
        forall|fresh: Fresh|
            (Ruled { ty: ruled.0@, event: ruled.1@, fresh }) == #[trigger] undefined_unary(
                operator@,
                owned_type_view(asked),
                settled@,
                fresh,
            ),
{
    match invalid_unary(operator, &settled) {
        Some(ty) => (ty, RuleEvent::Unary { asked, forgets: true, undefined: Some(settled) }),
        None => (Type::Deferred, RuleEvent::Unary { asked, forgets: true, undefined: None }),
    }
}

/// Type a unary operation from the type of its operand.
pub fn rule_unary(
    operator: &str,
    facts: &UnaryUse,
    definitions: &StringMap<Type>,
    fresh: &mut Fresh,
) -> (ruled: (Type, RuleEvent))
    ensures
        (Ruled { ty: ruled.0@, event: ruled.1@, fresh: *final(fresh) }) == unary_ruled(
            operator@,
            *facts,
            type_map_view(definitions@),
            *old(fresh),
        ),
{
    if let Some(literal) = singleton_literal_type(&facts.value) {
        if let Some(folded) = fold_unary_literal(operator, literal, &facts.float) {
            let ty = open_literal_variant(&folded, fresh);
            return (ty, RuleEvent::Unary { asked: None, forgets: false, undefined: None });
        }
    }
    let unknown = facts.base.is_none() && counts_as_unknown_number(&facts.value);
    let base = match &facts.base {
        Some(base) => Some(base),
        None => None,
    };
    let operand = if same_text(operator, "-") {
        if unknown && fresh.meta == u32::MAX {
            return (Type::Deferred, RuleEvent::OutOfNumbers);
        }
        number_operand(&facts.value, base, &mut fresh.meta)
    } else {
        widen_same_named_operand(&facts.value, "Bool", clone_base(base))
    };
    match infer_unary(operator, &operand, facts.is_number || unknown) {
        OperandRule::Accept(ty) => (
            ty,
            RuleEvent::Unary { asked: None, forgets: false, undefined: None },
        ),
        OperandRule::UnifyLeft { with, result } => if facts.unified {
            (result, RuleEvent::Unary { asked: Some(with), forgets: false, undefined: None })
        } else {
            rule_undefined_unary(operator, Some(with), normalize(&facts.settled, definitions))
        },
        _ => rule_undefined_unary(operator, None, normalize(&facts.settled, definitions)),
    }
}

// ---------------------------------------------------------------------------
// Propagated errors
// ---------------------------------------------------------------------------
/// What a propagated value comes to.
pub open spec fn propagate_ruled(value: SpecType, mode: PropagationMode, fresh: Fresh) -> Ruled {
    match result_parts(value) {
        Some((ok_ty, error_ty)) => Ruled {
            ty: ok_ty,
            event: SpecRuleEvent::Propagated {
                error: if mode is ReturnError {
                    Some(error_ty)
                } else {
                    None
                },
            },
            fresh,
        },
        None => Ruled {
            ty: SpecType::Deferred,
            event: SpecRuleEvent::NotResult { ty: value, report: resolved(value) },
            fresh,
        },
    }
}

/// Type a propagated value from its normal type.
pub fn rule_propagate(value: Type, mode: PropagationMode) -> (ruled: (Type, RuleEvent))
    ensures
        forall|fresh: Fresh|
            (Ruled { ty: ruled.0@, event: ruled.1@, fresh }) == #[trigger] propagate_ruled(
                value@,
                mode,
                fresh,
            ),
{
    match infer_propagate(&value, mode) {
        PropagateStep::Unwrap { value: ok_ty, error } => (ok_ty, RuleEvent::Propagated { error }),
        PropagateStep::NoResult { report } => (
            Type::Deferred,
            RuleEvent::NotResult { ty: value, report },
        ),
    }
}

// ---------------------------------------------------------------------------
// Indices
// ---------------------------------------------------------------------------
/// What an index takes: that it has a type, or nothing more.
pub ghost enum IndexRule {
    Argument { index: SpecType, ty: SpecType },
    Known { ty: SpecType, finding: SpecElementFinding },
}

/// What an index of a record comes to.
pub open spec fn record_element(
    receiver: SpecType,
    label: Option<Seq<char>>,
    depends_on_parameter: bool,
) -> IndexRule {
    let row = receiver->Record_0;
    let nothing = |finding: SpecElementFinding|
        IndexRule::Known { ty: SpecType::Deferred, finding };
    match label {
        None => if depends_on_parameter {
            nothing(SpecElementFinding::Nothing)
        } else {
            nothing(SpecElementFinding::LabelNotKnown)
        },
        Some(label) => match field_type(row, label) {
            Some(ty) => IndexRule::Known { ty, finding: SpecElementFinding::Nothing },
            None => if row.tail is Closed {
                nothing(SpecElementFinding::MissingField(label))
            } else {
                nothing(SpecElementFinding::Nothing)
            },
        },
    }
}

/// What an index of a tuple comes to.
pub open spec fn tuple_element(items: Seq<SpecType>, arg: Expr) -> IndexRule {
    match tuple_index(arg) {
        None => IndexRule::Known {
            ty: SpecType::Deferred,
            finding: SpecElementFinding::PositionNotKnown,
        },
        Some(index) => if index < items.len() {
            IndexRule::Known { ty: items[index as int], finding: SpecElementFinding::Nothing }
        } else {
            IndexRule::Known {
                ty: SpecType::Deferred,
                finding: SpecElementFinding::OutOfRange { index, length: items.len() },
            }
        },
    }
}

/// What an index takes, by the normal type of the indexed value.
pub open spec fn index_rule(receiver: SpecType, facts: IndexUse, arg: Expr) -> IndexRule {
    let other = IndexRule::Known {
        ty: SpecType::Deferred,
        finding: if resolved(receiver) {
            SpecElementFinding::NotIndexable(receiver)
        } else {
            SpecElementFinding::Nothing
        },
    };
    match receiver {
        SpecType::Record(_) => record_element(
            receiver,
            text_view(facts.label),
            facts.depends_on_parameter,
        ),
        SpecType::Tuple(items) => tuple_element(items, arg),
        SpecType::Apply { callee, args } => if args.len() == 1 && *callee == SpecType::Named(
            "Array"@,
        ) {
            IndexRule::Argument {
                index: SpecType::Named("Int"@),
                ty: SpecType::Optional(Box::new(args[0])),
            }
        } else if args.len() == 2 && *callee == SpecType::Named("Map"@) {
            IndexRule::Argument { index: args[0], ty: SpecType::Optional(Box::new(args[1])) }
        } else {
            other
        },
        _ => other,
    }
}

/// What an index takes: that it has a type, or nothing more.
pub enum IndexPlan {
    Argument { index: Type, ty: Type },
    Known { ty: Type, finding: ElementFinding },
}

impl IndexPlan {
    pub open spec fn view(&self) -> IndexRule {
        match self {
            IndexPlan::Argument { index, ty } => IndexRule::Argument { index: index@, ty: ty@ },
            IndexPlan::Known { ty, finding } => IndexRule::Known { ty: ty@, finding: finding@ },
        }
    }
}

/// Find out what an index takes.
pub fn plan_index(facts: &IndexUse, definitions: &StringMap<Type>, arg: &Expr) -> (plan: IndexPlan)
    ensures
        plan@ == index_rule(
            normal_form(facts.receiver@, type_map_view(definitions@)),
            *facts,
            *arg,
        ),
{
    let receiver = normalize(&facts.receiver, definitions);
    match infer_value_index(receiver.clone()) {
        IndexStep::Record(row) => {
            let label = match &facts.label {
                Some(label) => Some(label.as_str()),
                None => None,
            };
            let (ty, finding) = match infer_record_index(
                &row,
                label,
                facts.depends_on_parameter,
            ) {
                RecordElement::Found(ty) => (ty, ElementFinding::Nothing),
                RecordElement::Pending => (Type::Deferred, ElementFinding::Nothing),
                RecordElement::NotKnown => (Type::Deferred, ElementFinding::LabelNotKnown),
                RecordElement::Missing => (
                    Type::Deferred,
                    match &facts.label {
                        Some(label) => ElementFinding::MissingField(label.clone()),
                        None => ElementFinding::Nothing,
                    },
                ),
                RecordElement::Unknown => (Type::Deferred, ElementFinding::Nothing),
            };
            IndexPlan::Known { ty, finding }
        },
        IndexStep::Tuple(items) => {
            assert(types_view(items@).len() == items@.len());
            match infer_tuple_index(&items, arg) {
                TupleElement::Found(ty) => IndexPlan::Known {
                    ty,
                    finding: ElementFinding::Nothing,
                },
                TupleElement::NotKnown => IndexPlan::Known {
                    ty: Type::Deferred,
                    finding: ElementFinding::PositionNotKnown,
                },
                TupleElement::OutOfRange { index, length } => IndexPlan::Known {
                    ty: Type::Deferred,
                    finding: ElementFinding::OutOfRange { index, length },
                },
            }
        },
        IndexStep::Element { index, ty } => IndexPlan::Argument { index, ty },
        IndexStep::NotIndexable => IndexPlan::Known {
            ty: Type::Deferred,
            finding: ElementFinding::NotIndexable(receiver),
        },
        IndexStep::Unknown => IndexPlan::Known {
            ty: Type::Deferred,
            finding: ElementFinding::Nothing,
        },
    }
}

// ---------------------------------------------------------------------------
// Calls
// ---------------------------------------------------------------------------
/// What a call comes to, by the types of the arguments.
pub open spec fn call_ruled(
    callee: Expr,
    args: Seq<SpecType>,
    facts: CallUse,
    fresh: Fresh,
) -> Ruled {
    let plan = call_plan(facts.callee@, args, fresh.meta);
    match plan {
        SpecCallPlan::Known { .. } => Ruled {
            ty: match to_result_type(callee, types_view(facts.args@), facts.result@) {
                Some(whole) => whole,
                None => match facts.handled {
                    Some(whole) => whole@,
                    None => facts.result@,
                },
            },
            event: SpecRuleEvent::Called(plan),
            fresh,
        },
        SpecCallPlan::Unify { .. } => Ruled {
            ty: if facts.unified {
                facts.result@
            } else {
                SpecType::Deferred
            },
            event: SpecRuleEvent::Called(plan),
            fresh: fresh.after_meta(),
        },
    }
}

/// Type a call from the types of its arguments.
pub fn rule_call(callee: &Expr, args: Vec<Type>, facts: &CallUse, fresh: &mut Fresh) -> (ruled: (
    Type,
    RuleEvent,
))
    ensures
        (Ruled { ty: ruled.0@, event: ruled.1@, fresh: *final(fresh) }) == call_ruled(
            *callee,
            types_view(args@),
            *facts,
            *old(fresh),
        ),
{
    let plan = infer_call(&facts.callee, args, fresh.meta);
    let handled = copy_type(&facts.handled);
    let ty = match &plan {
        CallPlan::Known { .. } => known_call_type(
            callee,
            &facts.args,
            facts.result.clone(),
            handled,
        ),
        CallPlan::Unify { .. } => {
            fresh.take_meta();
            if facts.unified {
                facts.result.clone()
            } else {
                Type::Deferred
            }
        },
    };
    (ty, RuleEvent::Called(plan))
}

// ---------------------------------------------------------------------------
// Fields
// ---------------------------------------------------------------------------
/// What a field of a value comes to.
pub open spec fn field_ruled(
    field: Seq<char>,
    null_safe: bool,
    facts: FieldUse,
    definitions: Map<Seq<char>, SpecType>,
    fresh: Fresh,
) -> Ruled {
    let receiver = normal_form(facts.receiver@, definitions);
    let step = field_step(
        facts.methods@,
        type_map_view(facts.family_data@),
        receiver,
        field,
        null_safe,
        owned_type_view(facts.whole),
        owned_type_view(facts.inner),
        fresh.meta,
        fresh.meta,
        fresh.tail,
    );
    let variables = match exact_scheme(facts.methods@, receiver, field) {
        Some(scheme) => scheme.variables.len(),
        None => 0,
    };
    let event = SpecRuleEvent::FieldRead(step);
    if fresh.meta + variables > u32::MAX {
        Ruled { ty: SpecType::Deferred, event: SpecRuleEvent::OutOfNumbers, fresh }
    } else {
        match step {
            SpecFieldStep::Method { ty, .. } => Ruled {
                ty,
                event,
                fresh: Fresh { meta: (fresh.meta + variables) as u32, ..fresh },
            },
            SpecFieldStep::Known { ty, .. } => Ruled { ty, event, fresh },
            SpecFieldStep::Drop => Ruled { ty: SpecType::Deferred, event, fresh },
            SpecFieldStep::Unify { ty, .. } => Ruled {
                ty: if facts.unified {
                    ty
                } else {
                    SpecType::Deferred
                },
                event,
                fresh: fresh.after_meta().after_tail(),
            },
        }
    }
}

/// Type a field of a value from the value's type.
pub fn rule_field(
    field: &str,
    null_safe: bool,
    facts: &FieldUse,
    definitions: &StringMap<Type>,
    fresh: &mut Fresh,
) -> (ruled: (Type, RuleEvent))
    ensures
        (Ruled { ty: ruled.0@, event: ruled.1@, fresh: *final(fresh) }) == field_ruled(
            field@,
            null_safe,
            *facts,
            type_map_view(definitions@),
            *old(fresh),
        ),
{
    let receiver = normalize(&facts.receiver, definitions);
    let variables: usize = match exact_method_scheme(&facts.methods, &receiver, field) {
        Some(scheme) => {
            assert(scheme@.variables.len() == scheme.variables.len());
            scheme.variables.len()
        },
        None => 0,
    };
    if variables > (u32::MAX - fresh.meta) as usize {
        return (Type::Deferred, RuleEvent::OutOfNumbers);
    }
    let step = infer_field_access(
        &facts.methods,
        &facts.family_data,
        &receiver,
        field,
        null_safe,
        copy_type(&facts.whole),
        copy_type(&facts.inner),
        fresh.meta,
        fresh.meta,
        fresh.tail,
    );
    let ty = match &step {
        FieldStep::Method { ty, .. } => {
            fresh.meta = fresh.meta + variables as u32;
            ty.clone()
        },
        FieldStep::Known { ty, .. } => ty.clone(),
        FieldStep::Drop => Type::Deferred,
        FieldStep::Unify { ty, .. } => {
            fresh.take_meta();
            fresh.take_tail();
            if facts.unified {
                ty.clone()
            } else {
                Type::Deferred
            }
        },
    };
    (ty, RuleEvent::FieldRead(step))
}

// ---------------------------------------------------------------------------
// Matches
// ---------------------------------------------------------------------------
/// What a match comes to whose arms all count.
pub open spec fn match_ruled(bodies: Seq<ArmBody>, fresh: Fresh) -> Ruled {
    let combination = combined(bodies, SpecType::Meta(fresh.meta));
    Ruled {
        ty: match combination {
            SpecCombination::Joined(joined) => joined,
            SpecCombination::Conflict { .. } => SpecType::Deferred,
        },
        event: SpecRuleEvent::Matched(combination),
        fresh: if union_after(bodies, bodies.len()) is NoVariants {
            fresh.after_meta()
        } else {
            fresh
        },
    }
}

/// Type a match from the types of the bodies of its arms.
pub fn rule_match(bodies: &Vec<ArmBody>, fresh: &mut Fresh) -> (ruled: (Type, RuleEvent))
    ensures
        (Ruled { ty: ruled.0@, event: ruled.1@, fresh: *final(fresh) }) == match_ruled(
            bodies@,
            *old(fresh),
        ),
{
    let combination = match united_arms(bodies) {
        Some(combination) => combination,
        None => {
            let id = fresh.take_meta();
            unify_match_arm_body_types(bodies, Type::Meta(id))
        },
    };
    let ty = match &combination {
        MatchArmCombination::Joined(joined) => joined.clone(),
        MatchArmCombination::Conflict { .. } => Type::Deferred,
    };
    (ty, RuleEvent::Matched(combination))
}

// ---------------------------------------------------------------------------
// Constructors
// ---------------------------------------------------------------------------
/// How many parts of a payload are looked at: those up to the first that is not known.
pub open spec fn looked_at(payload: Seq<SpecType>, from: int) -> int
    decreases payload.len() - from,
{
    if from < 0 || from >= payload.len() {
        payload.len() as int
    } else if some_node(payload[from], is_deferred()) {
        from + 1
    } else {
        looked_at(payload, from + 1)
    }
}

/// Count the parts of a payload that are looked at.
pub fn count_looked_at(payload: &Vec<Type>) -> (count: usize)
    ensures
        count == looked_at(types_view(payload@), 0),
        count <= payload.len(),
{
    let ghost all = types_view(payload@);
    assert(all.len() == payload@.len());
    let mut index: usize = 0;
    while index < payload.len()
        invariant
            index <= payload.len(),
            all == types_view(payload@),
            all.len() == payload@.len(),
            looked_at(all, 0) == looked_at(all, index as int),
        decreases payload.len() - index,
    {
        assert(all[index as int] == payload@[index as int]@);
        if type_contains_deferred(&payload[index]) {
            return index + 1;
        }
        index += 1;
    }
    payload.len()
}

/// Copy a list of types.
pub fn copy_types(types: &Vec<Type>) -> (copied: Vec<Type>)
    ensures
        types_view(copied@) == types_view(types@),
{
    let mut copied: Vec<Type> = Vec::new();
    let mut index: usize = 0;
    while index < types.len()
        invariant
            index <= types.len(),
            copied.len() == index,
            forall|i: int| 0 <= i < index ==> (#[trigger] copied@[i])@ == types@[i]@,
        decreases types.len() - index,
    {
        copied.push(types[index].clone());
        index += 1;
    }
    assert(types_view(copied@) =~= types_view(types@));
    copied
}

/// Copy what is known of a type.
pub fn copy_type(ty: &Option<Type>) -> (copied: Option<Type>)
    ensures
        owned_type_view(copied) == owned_type_view(*ty),
{
    match ty {
        Some(ty) => Some(ty.clone()),
        None => None,
    }
}

} // verus!
