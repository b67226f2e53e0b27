//! The types of binary operations, with what they require and what is said of them.
use crate::collections::{StringMap, StringSet};
use crate::comparison::base_view as family_base;
use crate::equality::{
    more_levels_agree_on_rows, record_equality_compatibility, rows_compared,
    EqualityCompatibility, SpecContext, TypeContext,
};
use crate::equality_levels::{enough_levels_answer_rows, fields_answered_within};
use crate::folding::{folded_binary, is_equality_operator, literal_view, FloatFold};
use crate::inference::{open_literal, open_literal_variant, Fresh};
use crate::lookup::{
    exact_method_scheme, exact_scheme, instantiate_method, used_signature, MethodEnvironment,
    SpecEnvironment, SpecMethodScheme,
};
use crate::methods::{
    predicates_view, IntegerDivisorContext, MethodPredicate, MethodSignature, SpecDivisor,
    SpecPredicate, SpecSignature,
};
use crate::normalize::{normal_form, normalize, RecursiveTypes};
use crate::operators::{
    binary_typing, check_integer_divisor, close_binary, count_equality_operand, divisor_verdict,
    equality_numbers_grow, equality_operand, equality_typing, fallback_is_dead,
    fold_binary_literal, has_open_row, infer_binary, infer_binary_type,
    integer_divisor_parameter_index, invalid_result, is_int_operand, only_literal,
    operator_operand_resolves_to_int, parameter_position, pending, BinaryEnd, BinaryFacts,
    BinaryStep, BinaryTyping, ClosingFacts, DivisorVerdict, InvalidOperation, OperandFacts,
    OperandRule, PendingOperation, PendingResult, SpecOperands, SpecRule, SpecTyping,
};
use crate::span::Span;
use crate::syntax::{literal_is_zero, static_integer_literal_is_zero, ungrouped, Expr, ExprKind};
use crate::text::same_text;
use crate::type_ops::{named_builtin, resolved, type_map_view};
use crate::types::{types_view, SpecLiteral, SpecType, Type};
use vstd::prelude::*;

verus! {

// ---------------------------------------------------------------------------
// What operations go by
// ---------------------------------------------------------------------------
/// What the typing of a binary operation goes by.
pub struct OperatorContext {
    /// The module is a dependency.
    pub in_dependency: bool,
    /// The operator is a custom one.
    pub custom_operator: bool,
    /// The operator is one that types can define as a method.
    pub method_operator: bool,
    pub definitions: StringMap<Type>,
    pub recursive: RecursiveTypes,
    /// The names of the families, and the builtin bases that they have.
    pub family_names: StringSet,
    pub family_bases: StringMap<Type>,
    pub methods: MethodEnvironment,
    /// The unknown types that annotations name.
    pub named: Vec<Type>,
    /// The positions of the parameters of the functions around the operation.
    pub parameters: Vec<StringMap<usize>>,
    /// How deeply records are compared: as deeply as the fields of one of them are nested is
    /// enough.
    pub levels: usize,
}

/// What the typing of a binary operation goes by.
pub ghost struct SpecOperatorContext {
    pub in_dependency: bool,
    pub custom_operator: bool,
    pub method_operator: bool,
    pub types: SpecContext,
    pub family_names: Set<Seq<char>>,
    pub family_bases: Map<Seq<char>, SpecType>,
    pub methods: SpecEnvironment,
    pub named: Seq<SpecType>,
    pub parameters: Seq<StringMap<usize>>,
    pub levels: nat,
}

impl OperatorContext {
    pub open spec fn view(&self) -> SpecOperatorContext {
        SpecOperatorContext {
            in_dependency: self.in_dependency,
            custom_operator: self.custom_operator,
            method_operator: self.method_operator,
            types: SpecContext {
                definitions: type_map_view(self.definitions@),
                recursive: self.recursive,
            },
            family_names: self.family_names@,
            family_bases: type_map_view(self.family_bases@),
            methods: self.methods@,
            named: types_view(self.named@),
            parameters: self.parameters@,
            levels: self.levels as nat,
        }
    }
}

/// What is known of the unknown types in the operands, and of their values.
pub struct OperandAnswers {
    /// What the operands' types stand for, and with unknown numbers settled.
    pub left: Type,
    pub right: Type,
    pub left_default: Type,
    pub right_default: Type,
    /// Whether an operand is an unknown number.
    pub left_is_number: bool,
    pub right_is_number: bool,
    /// The texts of operands that are text literals.
    pub left_text: String,
    pub right_text: String,
    /// Whether the family's method takes the right operand.
    pub takes_right: bool,
    /// Whether the types that the rule asks for unify.
    pub unified: bool,
    /// Whether the types unify, are written alike, or one fits the other.
    pub compared: bool,
    /// Whether the right operand fits what the left holds, or the other way round.
    pub right_fits_payload: bool,
    pub payload_fits_right: bool,
    /// What the left type stands for after the rule, and both with unknown numbers settled.
    pub left_afterwards: Type,
    pub left_settled: Type,
    pub right_settled: Type,
    /// Whether an operand depends on a parameter without a value.
    pub left_depends_on_param: bool,
    pub right_depends_on_param: bool,
}

/// What is known of the unknown types in the operands, and of their values.
pub ghost struct SpecAnswers {
    pub left: SpecType,
    pub right: SpecType,
    pub left_default: SpecType,
    pub right_default: SpecType,
    pub left_is_number: bool,
    pub right_is_number: bool,
    pub left_text: Seq<char>,
    pub right_text: Seq<char>,
    pub takes_right: bool,
    pub unified: bool,
    pub compared: bool,
    pub right_fits_payload: bool,
    pub payload_fits_right: bool,
    pub left_afterwards: SpecType,
    pub left_settled: SpecType,
    pub right_settled: SpecType,
    pub left_depends_on_param: bool,
    pub right_depends_on_param: bool,
}

impl OperandAnswers {
    pub open spec fn view(&self) -> SpecAnswers {
        SpecAnswers {
            left: self.left@,
            right: self.right@,
            left_default: self.left_default@,
            right_default: self.right_default@,
            left_is_number: self.left_is_number,
            right_is_number: self.right_is_number,
            left_text: self.left_text@,
            right_text: self.right_text@,
            takes_right: self.takes_right,
            unified: self.unified,
            compared: self.compared,
            right_fits_payload: self.right_fits_payload,
            payload_fits_right: self.payload_fits_right,
            left_afterwards: self.left_afterwards@,
            left_settled: self.left_settled@,
            right_settled: self.right_settled@,
            left_depends_on_param: self.left_depends_on_param,
            right_depends_on_param: self.right_depends_on_param,
        }
    }
}

/// A binary operation: the operands, their types and the operator.
pub struct Operation<'a> {
    pub operator: &'a str,
    pub operator_span: Span,
    pub left: &'a Expr,
    pub right: &'a Expr,
    pub left_type: &'a Type,
    pub right_type: &'a Type,
}

/// A binary operation.
pub ghost struct SpecOperation {
    pub operator: Seq<char>,
    pub operator_span: Span,
    pub left: Expr,
    pub right: Expr,
    pub left_type: SpecType,
    pub right_type: SpecType,
}

impl<'a> Operation<'a> {
    pub open spec fn view(&self) -> SpecOperation {
        SpecOperation {
            operator: self.operator@,
            operator_span: self.operator_span,
            left: *self.left,
            right: *self.right,
            left_type: self.left_type@,
            right_type: self.right_type@,
        }
    }
}

// ---------------------------------------------------------------------------
// What comes of operations
// ---------------------------------------------------------------------------
/// What is said of an operation.
#[derive(Debug)]
#[allow(inconsistent_fields)]
pub enum OperationReport {
    Nothing,
    /// Functions are not compared; the left operand is one, or else the right.
    ComparedFunctions { left: bool },
    /// The fallback of `??` has the wrong type.
    WrongFallback { left: Type, right: Type },
    /// The operator is not defined for the operands.
    UndefinedOperator { left: Type, right: Type },
}

/// What is said of an operation.
#[allow(inconsistent_fields)]
pub ghost enum SpecReport {
    Nothing,
    ComparedFunctions { left: bool },
    WrongFallback { left: SpecType, right: SpecType },
    UndefinedOperator { left: SpecType, right: SpecType },
}

impl OperationReport {
    pub open spec fn view(&self) -> SpecReport {
        match self {
            OperationReport::Nothing => SpecReport::Nothing,
            OperationReport::ComparedFunctions { left } => SpecReport::ComparedFunctions {
                left: *left,
            },
            OperationReport::WrongFallback { left, right } => SpecReport::WrongFallback {
                left: left@,
                right: right@,
            },
            OperationReport::UndefinedOperator { left, right } => SpecReport::UndefinedOperator {
                left: left@,
                right: right@,
            },
        }
    }
}

/// A typed operation.
#[derive(Debug)]
pub struct TypedOperation {
    pub result: Type,
    /// The methods that types must have.
    pub obligations: Vec<MethodPredicate>,
    /// The type that the right operand is held against.
    pub argument: Option<Type>,
    /// The types that are unified, in order.
    pub asked: Vec<(Type, Type)>,
    /// The right operand counts as the base of its family.
    pub widens_right: bool,
    /// What the attempt to type the operation found is forgotten.
    pub forgets: bool,
    pub report: OperationReport,
    /// The fallback of `??` is never used.
    pub dead_fallback: bool,
    /// What is known of the divisor before and after the operation is typed.
    pub divisor: DivisorVerdict,
    pub divisor_afterwards: DivisorVerdict,
}

/// A typed operation.
pub ghost struct SpecTyped {
    pub result: SpecType,
    pub obligations: Seq<SpecPredicate>,
    pub argument: Option<SpecType>,
    pub asked: Seq<(SpecType, SpecType)>,
    pub widens_right: bool,
    pub forgets: bool,
    pub report: SpecReport,
    pub dead_fallback: bool,
    pub divisor: DivisorVerdict,
    pub divisor_afterwards: DivisorVerdict,
}

impl TypedOperation {
    pub open spec fn view(&self) -> SpecTyped {
        SpecTyped {
            result: self.result@,
            obligations: predicates_view(self.obligations@),
            argument: crate::rows::owned_type_view(self.argument),
            asked: crate::comparison::pairs_view(self.asked@),
            widens_right: self.widens_right,
            forgets: self.forgets,
            report: self.report@,
            dead_fallback: self.dead_fallback,
            divisor: self.divisor,
            divisor_afterwards: self.divisor_afterwards,
        }
    }
}

/// What comes of a binary operation.
#[derive(Debug)]
pub enum OperationOutcome {
    /// Custom operators are not written between operands here, which is reported.
    CustomInfix,
    /// The right operand is called with the left.
    Pipe,
    Typed(TypedOperation),
    /// The operands are records that are nested more deeply than they are compared.
    Unfinished,
}

/// What comes of a binary operation.
pub ghost enum SpecOutcome {
    CustomInfix,
    Pipe,
    Typed(SpecTyped),
    Unfinished,
}

impl OperationOutcome {
    pub open spec fn view(&self) -> SpecOutcome {
        match self {
            OperationOutcome::CustomInfix => SpecOutcome::CustomInfix,
            OperationOutcome::Pipe => SpecOutcome::Pipe,
            OperationOutcome::Typed(typed) => SpecOutcome::Typed(typed@),
            OperationOutcome::Unfinished => SpecOutcome::Unfinished,
        }
    }
}

// ---------------------------------------------------------------------------
// Parts of the rules
// ---------------------------------------------------------------------------
/// The normal form of a type.
pub open spec fn normal(context: SpecOperatorContext, ty: SpecType) -> SpecType {
    normal_form(ty, context.types.definitions)
}

/// Whether a type is a named family.
pub open spec fn is_family(context: SpecOperatorContext, ty: SpecType) -> bool {
    ty is Named && context.family_names.contains(ty->Named_0)
}

fn names_family(context: &OperatorContext, ty: &Type) -> (is: bool)
    ensures
        is == is_family(context@, ty@),
{
    match ty {
        Type::Named(name) => context.family_names.contains(name.as_str()),
        _ => false,
    }
}

fn find_base<'a>(context: &'a OperatorContext, ty: &Type) -> (base: Option<&'a Type>)
    ensures
        crate::operators::base_view(base) == family_base(context@.family_bases, ty@),
        crate::rows::type_view(base) == family_base(context@.family_bases, ty@),
{
    match ty {
        Type::Named(name) => context.family_bases.get(name.as_str()),
        _ => None,
    }
}

/// What is known of the divisor of an operation on operands of two types.
pub open spec fn divisor_of(
    context: SpecOperatorContext,
    operation: SpecOperation,
    left: SpecType,
    right: SpecType,
) -> DivisorVerdict {
    divisor_verdict(
        operation.operator,
        is_int_operand(left, family_base(context.family_bases, left)) && is_int_operand(
            right,
            family_base(context.family_bases, right),
        ),
        literal_is_zero(operation.right),
        right,
    )
}

fn judge_divisor(
    context: &OperatorContext,
    operation: &Operation<'_>,
    left: &Type,
    right: &Type,
) -> (verdict: DivisorVerdict)
    ensures
        verdict == divisor_of(context@, operation@, left@, right@),
{
    let both_int = operator_operand_resolves_to_int(left, find_base(context, left))
        && operator_operand_resolves_to_int(right, find_base(context, right));
    check_integer_divisor(
        operation.operator,
        both_int,
        static_integer_literal_is_zero(operation.right),
        right,
    )
}

/// The literal that an operation on literals gives.
pub open spec fn folded(
    operation: SpecOperation,
    answers: SpecAnswers,
    float: FloatFold,
) -> Option<SpecLiteral> {
    match (only_literal(answers.left), only_literal(answers.right)) {
        (Some(left), Some(right)) => folded_binary(
            operation.operator,
            left,
            right,
            answers.left_text,
            answers.right_text,
            float,
        ),
        _ => None,
    }
}

/// Whether two types can be compared if they are records; there is no answer where they are
/// nested too deeply.
pub open spec fn records_of(
    context: SpecOperatorContext,
    left: SpecType,
    right: SpecType,
) -> Option<EqualityCompatibility> {
    match (left, right) {
        (SpecType::Record(left), SpecType::Record(right)) => rows_compared(
            left,
            right,
            context.types,
            context.levels,
        ),
        _ => Some(EqualityCompatibility::Unknown),
    }
}

fn compare_records(context: &OperatorContext, left: &Type, right: &Type) -> (records: Option<
    EqualityCompatibility,
>)
    ensures
        records == records_of(context@, left@, right@),
{
    match (left, right) {
        (Type::Record(left), Type::Record(right)) => {
            let types = TypeContext {
                definitions: &context.definitions,
                recursive: &context.recursive,
            };
            assert(types@ == context@.types);
            record_equality_compatibility(left, right, &types, context.levels)
        },
        _ => Some(EqualityCompatibility::Unknown),
    }
}

/// The method that a family has for an operator.
pub open spec fn family_method(
    context: SpecOperatorContext,
    owner: SpecType,
    operator: Seq<char>,
) -> Option<SpecMethodScheme> {
    if is_family(context, owner) {
        exact_scheme(context.methods, owner, operator)
    } else {
        None
    }
}

/// The number of unknown types that a use of a method makes.
pub open spec fn variables_of(scheme: Option<SpecMethodScheme>) -> int {
    match scheme {
        Some(scheme) => scheme.variables.len() as int,
        None => 0,
    }
}

fn use_family_method(
    context: &OperatorContext,
    owner: &Type,
    operator: &str,
    next: &mut u32,
) -> (signature: Option<MethodSignature>)
    requires
        *old(next) + variables_of(family_method(context@, owner@, operator@)) <= u32::MAX,
    ensures
        match family_method(context@, owner@, operator@) {
            Some(scheme) => signature is Some && signature->0@ == used_signature(
                scheme,
                *old(next),
            ),
            None => signature is None,
        },
        *final(next) == *old(next) + variables_of(family_method(context@, owner@, operator@)),
{
    if !names_family(context, owner) {
        return None;
    }
    match exact_method_scheme(&context.methods, owner, operator) {
        Some(scheme) => {
            let first: u32 = *next;
            let count: usize = scheme.variables.len();
            assert(scheme@.variables.len() == count);
            let signature = instantiate_method(scheme, first);
            *next = first + count as u32;
            Some(signature)
        },
        None => None,
    }
}

/// What the rules for an operator look at. `??` looks at normal forms.
pub open spec fn operands_of(
    context: SpecOperatorContext,
    operation: SpecOperation,
    answers: SpecAnswers,
    family_result: Option<SpecType>,
    records: EqualityCompatibility,
) -> SpecOperands {
    let coalesce = operation.operator == "??"@;
    SpecOperands {
        operator: operation.operator,
        family_result,
        left: if coalesce {
            normal(context, answers.left)
        } else {
            answers.left
        },
        right: if coalesce {
            normal(context, answers.right)
        } else {
            answers.right
        },
        left_base: family_base(context.family_bases, answers.left),
        right_base: family_base(context.family_bases, answers.right),
        left_is_number: answers.left_is_number,
        right_is_number: answers.right_is_number,
        records,
        right_fits_payload: answers.right_fits_payload,
        payload_fits_right: answers.payload_fits_right,
    }
}

/// The type that a rule gives once it is known whether the types that it asks for unify.
pub open spec fn rule_result(typing: SpecTyping, answers: SpecAnswers) -> Option<SpecType> {
    match typing.rule {
        SpecRule::Reject => None,
        SpecRule::Accept(ty) => Some(ty),
        SpecRule::UnifyOperands { result } => if answers.unified {
            Some(
                match result {
                    Some(ty) => ty,
                    None => typing.left,
                },
            )
        } else {
            None
        },
        SpecRule::UnifyLeft { result, .. } => if answers.unified {
            Some(result)
        } else {
            None
        },
        SpecRule::UnifyRight { result, .. } => if answers.unified {
            Some(result)
        } else {
            None
        },
        SpecRule::CompareTypes => if answers.compared {
            Some(SpecType::Named("Bool"@))
        } else {
            None
        },
    }
}

/// The types that a rule asks to unify.
pub open spec fn rule_asks(typing: SpecTyping) -> Seq<(SpecType, SpecType)> {
    match typing.rule {
        SpecRule::UnifyOperands { .. } => seq![(typing.left, typing.right)],
        SpecRule::UnifyLeft { with, .. } => seq![(typing.left, with)],
        SpecRule::UnifyRight { with, .. } => seq![(typing.right, with)],
        SpecRule::CompareTypes => seq![(typing.left, typing.right)],
        _ => Seq::empty(),
    }
}

fn apply_rule(typing: BinaryTyping, answers: &OperandAnswers, asked: &mut Vec<(Type, Type)>) -> (ty:
    Option<Type>)
    ensures
        crate::rows::owned_type_view(ty) == rule_result(typing@, answers@),
        crate::comparison::pairs_view(final(asked)@) == crate::comparison::pairs_view(
            old(asked)@,
        ) + rule_asks(typing@),
{
    let ghost before = crate::comparison::pairs_view(asked@);
    let ghost all = typing@;
    assert(before + Seq::<(SpecType, SpecType)>::empty() =~= before);
    let BinaryTyping { left, right, rule } = typing;
    match rule {
        OperandRule::Reject => None,
        OperandRule::Accept(ty) => Some(ty),
        OperandRule::UnifyOperands { result } => {
            let found = match result {
                Some(ty) => ty,
                None => left.clone(),
            };
            asked.push((left, right));
            assert(crate::comparison::pairs_view(asked@) =~= before + seq![(all.left, all.right)]);
            if answers.unified {
                Some(found)
            } else {
                None
            }
        },
        OperandRule::UnifyLeft { with, result } => {
            asked.push((left, with));
            assert(crate::comparison::pairs_view(asked@) =~= before + seq![(all.left, with@)]);
            if answers.unified {
                Some(result)
            } else {
                None
            }
        },
        OperandRule::UnifyRight { with, result } => {
            asked.push((right, with));
            assert(crate::comparison::pairs_view(asked@) =~= before + seq![(all.right, with@)]);
            if answers.unified {
                Some(result)
            } else {
                None
            }
        },
        OperandRule::CompareTypes => {
            asked.push((left, right));
            assert(crate::comparison::pairs_view(asked@) =~= before + seq![(all.left, all.right)]);
            if answers.compared {
                Some(named_builtin("Bool"))
            } else {
                None
            }
        },
    }
}

/// What is kept of the divisor for later.
pub open spec fn divisor_context(context: SpecOperatorContext, operation: SpecOperation) -> SpecDivisor {
    SpecDivisor {
        span: operation.right.span,
        literal_is_zero: literal_is_zero(operation.right),
        right_type: operation.right_type,
        parameter_index: match ungrouped(operation.right).kind {
            ExprKind::Name(name) => parameter_position(context.parameters, name@),
            _ => None,
        },
    }
}

/// Whether both operands are unknown and no annotation names either.
pub open spec fn is_homogeneous(context: SpecOperatorContext, operation: SpecOperation) -> bool {
    operation.left_type is Meta && operation.right_type is Meta && !context.named.contains(
        operation.left_type,
    ) && !context.named.contains(operation.right_type)
}

fn lists_type(types: &Vec<Type>, ty: &Type) -> (found: bool)
    ensures
        found == types_view(types@).contains(ty@),
{
    let ghost all = types_view(types@);
    let mut index: usize = 0;
    while index < types.len()
        invariant
            index <= types.len(),
            all == types_view(types@),
            forall|i: int| 0 <= i < index ==> all[i] != ty@,
        decreases types.len() - index,
    {
        assert(all[index as int] == types@[index as int]@);
        if types[index].equals(ty) {
            assert(all.contains(all[index as int]));
            return true;
        }
        index += 1;
    }
    false
}

/// What an operation on operands that are not known yet requires.
pub open spec fn operator_predicate(
    context: SpecOperatorContext,
    operation: SpecOperation,
    waiting: PendingOperation,
    result: SpecType,
) -> SpecPredicate {
    SpecPredicate {
        candidate: operation.left_type,
        member: operation.operator,
        params: seq![
            if waiting.homogeneous {
                operation.left_type
            } else {
                operation.right_type
            },
        ],
        result,
        operator_span: operation.operator_span,
        divisor_context: if waiting.checks_divisor {
            Some(divisor_context(context, operation))
        } else {
            None
        },
        binding: None,
        call_span: None,
        obligation_id: None,
    }
}

/// The type of an operation on operands that are not known yet.
pub open spec fn pending_type(operation: SpecOperation, waiting: PendingOperation, next: int) -> SpecType {
    match waiting.result {
        PendingResult::Deferred => SpecType::Deferred,
        PendingResult::Bool => SpecType::Named("Bool"@),
        PendingResult::LeftOperand => operation.left_type,
        PendingResult::Fresh => SpecType::Meta(next as u32),
    }
}

// ---------------------------------------------------------------------------
// The outcome
// ---------------------------------------------------------------------------
/// An operation that the family of its left operand has a method for.
pub open spec fn by_method(signature: SpecSignature, divisor: DivisorVerdict) -> SpecTyped {
    SpecTyped {
        result: signature.result,
        obligations: signature.predicates,
        argument: if signature.params.len() == 1 {
            Some(signature.params[0])
        } else {
            None
        },
        asked: Seq::empty(),
        widens_right: false,
        forgets: false,
        report: SpecReport::Nothing,
        dead_fallback: false,
        divisor,
        divisor_afterwards: DivisorVerdict::NotChecked,
    }
}

/// An operation whose type is known at once.
pub open spec fn at_once(
    result: SpecType,
    report: SpecReport,
    widens_right: bool,
    divisor: DivisorVerdict,
) -> SpecTyped {
    SpecTyped {
        result,
        obligations: Seq::empty(),
        argument: None,
        asked: Seq::empty(),
        widens_right,
        forgets: false,
        report,
        dead_fallback: false,
        divisor,
        divisor_afterwards: DivisorVerdict::NotChecked,
    }
}

/// What comes of an operation that the rules for its operator decide.
pub open spec fn ruled_outcome(
    context: SpecOperatorContext,
    operation: SpecOperation,
    answers: SpecAnswers,
    widens_right: bool,
    divisor: DivisorVerdict,
    fresh: Fresh,
) -> (SpecOutcome, Fresh) {
    let operator = operation.operator;
    let owner = normal(context, answers.left);
    let method = family_method(context, owner, operator);
    let after_method = fresh.meta + variables_of(method);
    match records_of(context, answers.left, answers.right) {
        None => (SpecOutcome::Unfinished, fresh),
        Some(records) => {
            let signature = used_signature(method->0, fresh.meta);
            let has_param = method is Some && signature.params.len() == 1;
            let family_result = if has_param && answers.takes_right {
                Some(signature.result)
            } else {
                None
            };
            let operands = operands_of(context, operation, answers, family_result, records);
            let (typing, next) = binary_typing(operands, after_method);
            let asked = (if has_param {
                seq![(signature.params[0], operation.right_type)]
            } else {
                Seq::empty()
            }) + rule_asks(typing);
            let afterwards = normal(context, answers.left_afterwards);
            let left = normal(context, answers.left_settled);
            let right = normal(context, answers.right_settled);
            let dead = operator == "??"@ && fallback_is_dead(
                afterwards,
                answers.left_depends_on_param,
            );
            let typed = SpecTyped {
                result: SpecType::Deferred,
                obligations: Seq::empty(),
                argument: None,
                asked,
                widens_right,
                forgets: false,
                report: SpecReport::Nothing,
                dead_fallback: dead,
                divisor,
                divisor_afterwards: divisor_of(context, operation, left, right),
            };
            match rule_result(typing, answers) {
                Some(ty) => (
                    SpecOutcome::Typed(SpecTyped { result: ty, ..typed }),
                    Fresh { meta: next as u32, ..fresh },
                ),
                None => match pending(
                    operator,
                    context.method_operator,
                    afterwards,
                    is_homogeneous(context, operation),
                ) {
                    Some(waiting) => {
                        let result = pending_type(operation, waiting, next);
                        (
                            SpecOutcome::Typed(
                                SpecTyped {
                                    result,
                                    obligations: seq![
                                        operator_predicate(context, operation, waiting, result),
                                    ],
                                    asked: if waiting.homogeneous {
                                        asked.push((operation.left_type, operation.right_type))
                                    } else {
                                        asked
                                    },
                                    ..typed
                                },
                            ),
                            Fresh {
                                meta: if waiting.result is Fresh {
                                    (next + 1) as u32
                                } else {
                                    next as u32
                                },
                                ..fresh
                            },
                        )
                    },
                    None => (
                        invalid_outcome(context, operation, answers, typed, divisor),
                        Fresh { meta: next as u32, ..fresh },
                    ),
                },
            }
        },
    }
}

/// What comes of an operation that no rule types: what the attempt found is forgotten, and
/// the divisor is looked at as it was before.
pub open spec fn invalid_outcome(
    context: SpecOperatorContext,
    operation: SpecOperation,
    answers: SpecAnswers,
    typed: SpecTyped,
    divisor: DivisorVerdict,
) -> SpecOutcome {
    let operator = operation.operator;
    let left = normal(context, answers.left_settled);
    let right = normal(context, answers.right_settled);
    let result = invalid_result(operator, left, right);
    let forgotten = SpecTyped { forgets: true, divisor_afterwards: divisor, ..typed };
    match records_of(context, left, right) {
        None => SpecOutcome::Unfinished,
        Some(records) => if !resolved(left) || has_open_row(left) || !resolved(right)
            || has_open_row(right) {
            SpecOutcome::Typed(forgotten)
        } else if is_equality_operator(operator) && left is Record && right is Record && (!(
        records is Mismatched) || answers.left_depends_on_param || answers.right_depends_on_param) {
            SpecOutcome::Typed(
                SpecTyped {
                    result: SpecType::Named("Bool"@),
                    dead_fallback: false,
                    divisor_afterwards: DivisorVerdict::NotChecked,
                    ..forgotten
                },
            )
        } else if operator == "??"@ {
            SpecOutcome::Typed(
                SpecTyped { result, report: SpecReport::WrongFallback { left, right }, ..forgotten },
            )
        } else {
            SpecOutcome::Typed(
                SpecTyped {
                    result,
                    report: SpecReport::UndefinedOperator { left, right },
                    ..forgotten
                },
            )
        },
    }
}

/// What comes of a binary operation, with the numbers of the unknown types that are not in
/// use then.
pub open spec fn operation_outcome(
    context: SpecOperatorContext,
    operation: SpecOperation,
    answers: SpecAnswers,
    float: FloatFold,
    fresh: Fresh,
) -> (SpecOutcome, Fresh) {
    let operator = operation.operator;
    if context.in_dependency && context.custom_operator {
        (SpecOutcome::CustomInfix, fresh)
    } else if operator == "|>"@ {
        (SpecOutcome::Pipe, fresh)
    } else {
        let left_owner = normal(context, answers.left_default);
        let right_owner = normal(context, answers.right_default);
        let divisor = divisor_of(context, operation, left_owner, right_owner);
        let method = if context.method_operator {
            family_method(context, left_owner, operator)
        } else {
            None
        };
        let widens_right = !is_family(context, left_owner) && family_base(
            context.family_bases,
            right_owner,
        ) is Some && operation.right.span.start != operation.right.span.end;
        match method {
            Some(scheme) => (
                SpecOutcome::Typed(by_method(used_signature(scheme, fresh.meta), divisor)),
                Fresh { meta: (fresh.meta + variables_of(method)) as u32, ..fresh },
            ),
            None => match folded(operation, answers, float) {
                Some(literal) => (
                    SpecOutcome::Typed(
                        at_once(
                            open_literal(literal, fresh.tail),
                            SpecReport::Nothing,
                            widens_right,
                            divisor,
                        ),
                    ),
                    fresh.after_tail(),
                ),
                None => if is_equality_operator(operator) && (answers.left is Function
                    || answers.right is Function) {
                    (
                        SpecOutcome::Typed(
                            at_once(
                                SpecType::Named("Bool"@),
                                SpecReport::ComparedFunctions { left: answers.left is Function },
                                widens_right,
                                divisor,
                            ),
                        ),
                        fresh,
                    )
                } else {
                    ruled_outcome(context, operation, answers, widens_right, divisor, fresh)
                },
            },
        }
    }
}

/// Whether there are numbers for the unknown types that an operation may make.
pub open spec fn has_numbers(
    context: SpecOperatorContext,
    operation: SpecOperation,
    answers: SpecAnswers,
    fresh: Fresh,
) -> bool {
    let operator = operation.operator;
    let first = family_method(context, normal(context, answers.left_default), operator);
    let second = family_method(context, normal(context, answers.left), operator);
    let after = fresh.meta + variables_of(second);
    let operands = operands_of(
        context,
        operation,
        answers,
        None,
        EqualityCompatibility::Unknown,
    );
    &&& fresh.meta + variables_of(first) <= u32::MAX
    &&& after + 3 <= u32::MAX
    &&& equality_typing(operands, after).1 < u32::MAX
}

fn count_method_variables(context: &OperatorContext, owner: &Type, operator: &str) -> (count:
    usize)
    ensures
        count == variables_of(family_method(context@, owner@, operator@)),
{
    if !names_family(context, owner) {
        return 0;
    }
    match exact_method_scheme(&context.methods, owner, operator) {
        Some(scheme) => {
            let count: usize = scheme.variables.len();
            assert(scheme@.variables.len() == count);
            count
        },
        None => 0,
    }
}

/// Find out whether there are numbers for the unknown types that an operation may make.
pub fn numbers_suffice(
    context: &OperatorContext,
    operation: &Operation<'_>,
    answers: &OperandAnswers,
    fresh: &Fresh,
) -> (suffice: bool)
    ensures
        suffice == has_numbers(context@, operation@, answers@, *fresh),
{
    let left_owner = normalize(&answers.left_default, &context.definitions);
    let left_now = normalize(&answers.left, &context.definitions);
    let first: usize = count_method_variables(context, &left_owner, operation.operator);
    let second: usize = count_method_variables(context, &left_now, operation.operator);
    let room: usize = (u32::MAX - fresh.meta) as usize;
    if first > room || second > room {
        return false;
    }
    let after: u32 = fresh.meta + second as u32;
    if after > u32::MAX - 3 {
        return false;
    }
    let coalesce = same_text(operation.operator, "??");
    let left = if coalesce {
        left_now
    } else {
        answers.left.clone()
    };
    let right = if coalesce {
        normalize(&answers.right, &context.definitions)
    } else {
        answers.right.clone()
    };
    match count_equality_operand(&left, after) {
        Some(middle) => match count_equality_operand(&right, middle) {
            Some(last) => last < u32::MAX,
            None => false,
        },
        None => {
            proof {
                let operands = operands_of(
                    context@,
                    operation@,
                    answers@,
                    None,
                    EqualityCompatibility::Unknown,
                );
                equality_numbers_grow(
                    operands.right,
                    equality_operand(operands.left, after as int).1,
                );
            }
            false
        },
    }
}

fn no_predicates() -> (predicates: Vec<MethodPredicate>)
    ensures
        predicates_view(predicates@) == Seq::<SpecPredicate>::empty(),
{
    let predicates: Vec<MethodPredicate> = Vec::new();
    assert(predicates_view(predicates@) =~= Seq::<SpecPredicate>::empty());
    predicates
}

fn no_pairs() -> (pairs: Vec<(Type, Type)>)
    ensures
        crate::comparison::pairs_view(pairs@) == Seq::<(SpecType, SpecType)>::empty(),
{
    let pairs: Vec<(Type, Type)> = Vec::new();
    assert(crate::comparison::pairs_view(pairs@) =~= Seq::<(SpecType, SpecType)>::empty());
    pairs
}

fn type_at_once(
    result: Type,
    report: OperationReport,
    widens_right: bool,
    divisor: DivisorVerdict,
) -> (outcome: OperationOutcome)
    ensures
        outcome@ == SpecOutcome::Typed(at_once(result@, report@, widens_right, divisor)),
{
    OperationOutcome::Typed(
        TypedOperation {
            result,
            obligations: no_predicates(),
            argument: None,
            asked: no_pairs(),
            widens_right,
            forgets: false,
            report,
            dead_fallback: false,
            divisor,
            divisor_afterwards: DivisorVerdict::NotChecked,
        },
    )
}

fn type_by_method(method: &MethodSignature, param: Option<&Type>, divisor: DivisorVerdict) -> (outcome:
    OperationOutcome)
    requires
        crate::operators::base_view(param) == (if method@.params.len() == 1 {
            Some(method@.params[0])
        } else {
            None
        }),
    ensures
        outcome@ == SpecOutcome::Typed(by_method(method@, divisor)),
{
    let argument = match param {
        Some(param) => Some(param.clone()),
        None => None,
    };
    OperationOutcome::Typed(
        TypedOperation {
            result: method.result.clone(),
            obligations: crate::methods::clone_predicates(&method.predicates),
            argument,
            asked: no_pairs(),
            widens_right: false,
            forgets: false,
            report: OperationReport::Nothing,
            dead_fallback: false,
            divisor,
            divisor_afterwards: DivisorVerdict::NotChecked,
        },
    )
}

fn require_operator(
    context: &OperatorContext,
    operation: &Operation<'_>,
    waiting: PendingOperation,
    result: &Type,
) -> (obligations: Vec<MethodPredicate>)
    ensures
        predicates_view(obligations@) == seq![
            operator_predicate(context@, operation@, waiting, result@),
        ],
{
    let mut params: Vec<Type> = Vec::new();
    let param = if waiting.homogeneous {
        operation.left_type.clone()
    } else {
        operation.right_type.clone()
    };
    params.push(param);
    let divisor_context = if waiting.checks_divisor {
        Some(
            IntegerDivisorContext {
                span: operation.right.span,
                literal_is_zero: static_integer_literal_is_zero(operation.right),
                right_type: operation.right_type.clone(),
                parameter_index: integer_divisor_parameter_index(
                    operation.right,
                    &context.parameters,
                ),
            },
        )
    } else {
        None
    };
    assert(types_view(params@) =~= operator_predicate(
        context@,
        operation@,
        waiting,
        result@,
    ).params);
    let predicate = MethodPredicate {
        candidate: operation.left_type.clone(),
        member: operation.operator.to_owned(),
        params,
        result: result.clone(),
        operator_span: operation.operator_span,
        divisor_context,
        binding: None,
        call_span: None,
        obligation_id: None,
    };
    assert(predicate@ == operator_predicate(context@, operation@, waiting, result@));
    let mut obligations: Vec<MethodPredicate> = Vec::new();
    obligations.push(predicate);
    assert(predicates_view(obligations@) =~= seq![predicate@]);
    obligations
}

fn infer_by_rules(
    context: &OperatorContext,
    operation: &Operation<'_>,
    answers: &OperandAnswers,
    widens_right: bool,
    divisor: DivisorVerdict,
    fresh: &mut Fresh,
) -> (outcome: OperationOutcome)
    requires
        has_numbers(context@, operation@, answers@, *old(fresh)),
    ensures
        (outcome@, *final(fresh)) == ruled_outcome(
            context@,
            operation@,
            answers@,
            widens_right,
            divisor,
            *old(fresh),
        ),
{
    let ghost before = *fresh;
    let Some(records) = compare_records(context, &answers.left, &answers.right) else {
        return OperationOutcome::Unfinished;
    };
    let owner = normalize(&answers.left, &context.definitions);
    let coalesce = same_text(operation.operator, "??");
    let mut next: u32 = fresh.meta;
    let method = use_family_method(context, &owner, operation.operator, &mut next);
    let ghost found = family_method(context@, owner@, operation.operator@);
    let ghost signature = used_signature(found->0, before.meta);
    let mut asked = no_pairs();
    let mut family_result: Option<Type> = None;
    if let Some(method) = &method {
        assert(types_view(method.params@).len() == method.params.len());
        if method.params.len() == 1 {
            assert(types_view(method.params@)[0] == method.params@[0]@);
            asked.push((method.params[0].clone(), operation.right_type.clone()));
            if answers.takes_right {
                family_result = Some(method.result.clone());
            }
        }
    }
    let ghost has_param = found is Some && signature.params.len() == 1;
    let ghost first_asked = if has_param {
        seq![(signature.params[0], operation@.right_type)]
    } else {
        Seq::empty()
    };
    assert(crate::comparison::pairs_view(asked@) =~= first_asked);
    let right_normal = normalize(&answers.right, &context.definitions);
    let facts = OperandFacts {
        operator: operation.operator,
        family_result: match &family_result {
            Some(ty) => Some(ty),
            None => None,
        },
        left: if coalesce {
            &owner
        } else {
            &answers.left
        },
        right: if coalesce {
            &right_normal
        } else {
            &answers.right
        },
        left_base: find_base(context, &answers.left),
        right_base: find_base(context, &answers.right),
        left_is_number: answers.left_is_number,
        right_is_number: answers.right_is_number,
        records,
        right_fits_payload: answers.right_fits_payload,
        payload_fits_right: answers.payload_fits_right,
    };
    let ghost operands = operands_of(
        context@,
        operation@,
        answers@,
        if has_param && answers.takes_right {
            Some(signature.result)
        } else {
            None
        },
        records,
    );
    assert(facts@ == operands);
    let ghost after_method = next as int;
    proof {
        let plain = operands_of(
            context@,
            operation@,
            answers@,
            None,
            EqualityCompatibility::Unknown,
        );
        assert(equality_typing(operands, after_method).1 == equality_typing(
            plain,
            after_method,
        ).1);
    }
    let typing = infer_binary_type(&facts, &mut next);
    let ghost typed_as = typing@;
    assert((typed_as, next as int) == binary_typing(operands, after_method));
    assert(next < u32::MAX);
    let ruled = apply_rule(typing, answers, &mut asked);
    let afterwards = normalize(&answers.left_afterwards, &context.definitions);
    let left = normalize(&answers.left_settled, &context.definitions);
    let right = normalize(&answers.right_settled, &context.definitions);
    let both_unknown = matches!(operation.left_type, Type::Meta(_)) && matches!(
        operation.right_type,
        Type::Meta(_)
    ) && !lists_type(&context.named, operation.left_type) && !lists_type(
        &context.named,
        operation.right_type,
    );
    let settled_records = compare_records(context, &left, &right);
    let closing = close_binary(
        ClosingFacts {
            operator: operation.operator,
            method_operator: context.method_operator,
            ruled,
            left: &afterwards,
            right: &right,
            both_unknown_and_unnamed: both_unknown,
            left_afterwards: &afterwards,
            settled_left: &left,
            settled_right: &right,
            records: match settled_records {
                Some(records) => records,
                None => EqualityCompatibility::Unknown,
            },
            left_depends_on_param: answers.left_depends_on_param,
            right_depends_on_param: answers.right_depends_on_param,
        },
    );
    let divisor_afterwards = judge_divisor(context, operation, &left, &right);
    let dead_fallback = coalesce && crate::operators::coalesce_fallback_is_dead(
        &afterwards,
        answers.left_depends_on_param,
    );
    match closing.end {
        BinaryEnd::Ruled(result) => {
            fresh.meta = next;
            OperationOutcome::Typed(
                TypedOperation {
                    result,
                    obligations: no_predicates(),
                    argument: None,
                    asked,
                    widens_right,
                    forgets: false,
                    report: OperationReport::Nothing,
                    dead_fallback,
                    divisor,
                    divisor_afterwards,
                },
            )
        },
        BinaryEnd::Pending(waiting) => {
            let result = match waiting.result {
                PendingResult::Deferred => Type::Deferred,
                PendingResult::Bool => named_builtin("Bool"),
                PendingResult::LeftOperand => operation.left_type.clone(),
                PendingResult::Fresh => {
                    let id: u32 = next;
                    next = next + 1;
                    Type::Meta(id)
                },
            };
            fresh.meta = next;
            if waiting.homogeneous {
                let ghost earlier = crate::comparison::pairs_view(asked@);
                asked.push((operation.left_type.clone(), operation.right_type.clone()));
                assert(crate::comparison::pairs_view(asked@) =~= earlier.push(
                    (operation@.left_type, operation@.right_type),
                ));
            }
            let obligations = require_operator(context, operation, waiting, &result);
            OperationOutcome::Typed(
                TypedOperation {
                    result,
                    obligations,
                    argument: None,
                    asked,
                    widens_right,
                    forgets: false,
                    report: OperationReport::Nothing,
                    dead_fallback,
                    divisor,
                    divisor_afterwards,
                },
            )
        },
        BinaryEnd::Invalid(verdict) => {
            fresh.meta = next;
            if settled_records.is_none() {
                return OperationOutcome::Unfinished;
            }
            let comparable = matches!(verdict, InvalidOperation::Comparable);
            let (result, report) = match verdict {
                InvalidOperation::Defer => (Type::Deferred, OperationReport::Nothing),
                InvalidOperation::Comparable => (named_builtin("Bool"), OperationReport::Nothing),
                InvalidOperation::WrongFallback(ty) => (
                    ty,
                    OperationReport::WrongFallback { left, right },
                ),
                InvalidOperation::Undefined(ty) => (
                    ty,
                    OperationReport::UndefinedOperator { left, right },
                ),
            };
            OperationOutcome::Typed(
                TypedOperation {
                    result,
                    obligations: no_predicates(),
                    argument: None,
                    asked,
                    widens_right,
                    forgets: true,
                    report,
                    dead_fallback: dead_fallback && !comparable,
                    divisor,
                    divisor_afterwards: if comparable {
                        DivisorVerdict::NotChecked
                    } else {
                        divisor
                    },
                },
            )
        },
    }
}

/// Type a binary operation: say what its type is, what it requires, and what is said of it.
/// Unknown types are numbered from `fresh` on.
pub fn infer_binary_operation(
    context: &OperatorContext,
    operation: &Operation<'_>,
    answers: &OperandAnswers,
    float: &FloatFold,
    fresh: &mut Fresh,
) -> (outcome: OperationOutcome)
    requires
        has_numbers(context@, operation@, answers@, *old(fresh)),
    ensures
        (outcome@, *final(fresh)) == operation_outcome(
            context@,
            operation@,
            answers@,
            *float,
            *old(fresh),
        ),
{
    let left_owner = normalize(&answers.left_default, &context.definitions);
    let right_owner = normalize(&answers.right_default, &context.definitions);
    let divisor = judge_divisor(context, operation, &left_owner, &right_owner);
    let literal = fold_binary_literal(
        operation.operator,
        &answers.left,
        &answers.right,
        answers.left_text.as_str(),
        answers.right_text.as_str(),
        float,
    );
    assert(literal_view(literal) == folded(operation@, answers@, *float));
    let mut next: u32 = fresh.meta;
    let method = use_family_method(context, &left_owner, operation.operator, &mut next);
    let facts = BinaryFacts {
        operator: operation.operator,
        in_dependency: context.in_dependency,
        custom_operator: context.custom_operator,
        method_operator: context.method_operator,
        left: &answers.left,
        right: &answers.right,
        left_is_family: names_family(context, &left_owner),
        family_method: match &method {
            Some(method) => Some(method),
            None => None,
        },
        right_has_base: find_base(context, &right_owner).is_some(),
        right_span: operation.right.span,
        folded: literal,
    };
    let plan = infer_binary(&facts);
    match plan.step {
        BinaryStep::RejectCustomInfix => OperationOutcome::CustomInfix,
        BinaryStep::Pipe => OperationOutcome::Pipe,
        BinaryStep::FamilyMethod { method, param } => {
            fresh.meta = next;
            type_by_method(method, param, divisor)
        },
        BinaryStep::Folded(literal) => {
            let ty = open_literal_variant(&literal, fresh);
            type_at_once(ty, OperationReport::Nothing, plan.widens_right, divisor)
        },
        BinaryStep::CompareFunctions { left } => type_at_once(
            named_builtin("Bool"),
            OperationReport::ComparedFunctions { left },
            plan.widens_right,
            divisor,
        ),
        BinaryStep::Rules(_) => infer_by_rules(
            context,
            operation,
            answers,
            plan.widens_right,
            divisor,
            fresh,
        ),
    }
}

/// Whether two types, if they are records, are answered within the levels to which records are
/// compared.
pub open spec fn records_are_answered(
    context: SpecOperatorContext,
    left: SpecType,
    right: SpecType,
) -> bool {
    match (left, right) {
        (SpecType::Record(left), SpecType::Record(right)) => fields_answered_within(
            left,
            context.types,
            context.levels,
        ) || fields_answered_within(right, context.types, context.levels),
        _ => true,
    }
}

/// An operation comes to its end where records are compared to as many levels as the fields of
/// one of them take.
pub proof fn enough_levels_finish_operations(
    context: SpecOperatorContext,
    operation: SpecOperation,
    answers: SpecAnswers,
    float: FloatFold,
    fresh: Fresh,
)
    requires
        records_are_answered(context, answers.left, answers.right),
        records_are_answered(
            context,
            normal(context, answers.left_settled),
            normal(context, answers.right_settled),
        ),
    ensures
        !(operation_outcome(context, operation, answers, float, fresh).0 is Unfinished),
{
    if let (SpecType::Record(left), SpecType::Record(right)) = (answers.left, answers.right) {
        enough_levels_answer_rows(left, right, context.types, context.levels);
    }
    if let (SpecType::Record(left), SpecType::Record(right)) = (
        normal(context, answers.left_settled),
        normal(context, answers.right_settled),
    ) {
        enough_levels_answer_rows(left, right, context.types, context.levels);
    }
}

/// What comes of an operation that comes to its end does so where records are compared to more
/// levels too.
pub proof fn more_levels_operate_the_same(
    context: SpecOperatorContext,
    operation: SpecOperation,
    answers: SpecAnswers,
    float: FloatFold,
    fresh: Fresh,
    more: nat,
)
    requires
        context.levels <= more,
        !(operation_outcome(context, operation, answers, float, fresh).0 is Unfinished),
    ensures
        operation_outcome(
            (SpecOperatorContext { levels: more, ..context }),
            operation,
            answers,
            float,
            fresh,
        ) == operation_outcome(context, operation, answers, float, fresh),
{
    let deeper = SpecOperatorContext { levels: more, ..context };
    let left = normal(context, answers.left_settled);
    let right = normal(context, answers.right_settled);
    more_levels_agree_on_records(context, answers.left, answers.right, more);
    more_levels_agree_on_records(context, left, right, more);
    assert(normal(deeper, answers.left_settled) == left);
    assert(normal(deeper, answers.right_settled) == right);
}

proof fn more_levels_agree_on_records(
    context: SpecOperatorContext,
    left: SpecType,
    right: SpecType,
    more: nat,
)
    requires
        context.levels <= more,
    ensures
        records_of(context, left, right) is Some ==> records_of(
            (SpecOperatorContext { levels: more, ..context }),
            left,
            right,
        ) == records_of(context, left, right),
{
    if let (SpecType::Record(left_row), SpecType::Record(right_row)) = (left, right) {
        if rows_compared(left_row, right_row, context.types, context.levels) is Some {
            more_levels_agree_on_rows(left_row, right_row, context.types, context.levels, more);
        }
    }
}

} // verus!
