//! What comes of binary operations.
use crate::binary_operations::{
    operation_outcome, rule_asks, rule_result, SpecAnswers, SpecOperation, SpecOperatorContext,
    SpecReport,
};
use crate::folding::FloatFold;
use crate::inference::Fresh;
use crate::operator_laws::{computes, connects, equates, is_number_type, named, orders};
use crate::operators::{DivisorVerdict, SpecRule, SpecTyping};
use crate::types::SpecType;
use vstd::prelude::*;

verus! {

/// Whether an operand is known by a name that stands for itself and is no family's.
pub open spec fn is_plain_name(context: SpecOperatorContext, ty: SpecType) -> bool {
    &&& ty is Named
    &&& !context.types.definitions.contains_key(ty->Named_0)
    &&& !context.family_names.contains(ty->Named_0)
    &&& !context.family_bases.contains_key(ty->Named_0)
}

/// Whether both operands are known by names, whatever is found out about them.
pub open spec fn are_plain_names(context: SpecOperatorContext, answers: SpecAnswers) -> bool {
    &&& context.types.definitions.dom().finite()
    &&& is_plain_name(context, answers.left)
    &&& is_plain_name(context, answers.right)
    &&& answers.left_default == answers.left
    &&& answers.left_afterwards == answers.left
    &&& answers.left_settled == answers.left
    &&& answers.right_default == answers.right
    &&& answers.right_settled == answers.right
}

/// Whether an operator is one of the language: neither a pipe nor one that a dependency defines.
pub open spec fn is_of_the_language(context: SpecOperatorContext, operator: Seq<char>) -> bool {
    !(context.in_dependency && context.custom_operator) && operator != "|>"@
}

proof fn plain_names_stay(context: SpecOperatorContext, ty: SpecType)
    requires
        context.types.definitions.dom().finite(),
        is_plain_name(context, ty),
    ensures
        crate::binary_operations::normal(context, ty) == ty,
        crate::type_ops::resolved(ty),
        !crate::operators::has_open_row(ty),
{
    crate::type_laws::names_without_definitions_stay(ty->Named_0, context.types.definitions);
}

/// A pipe is a call, and an operator that a dependency defines is left to it.
pub proof fn pipes_are_calls(
    context: SpecOperatorContext,
    operation: SpecOperation,
    answers: SpecAnswers,
    float: FloatFold,
    fresh: Fresh,
)
    ensures
        context.in_dependency && context.custom_operator ==> operation_outcome(
            context,
            operation,
            answers,
            float,
            fresh,
        ).0 is CustomInfix,
        !(context.in_dependency && context.custom_operator) && operation.operator == "|>"@
            ==> operation_outcome(context, operation, answers, float, fresh).0 is Pipe,
{
}

/// Numbers give numbers, `Float` where one of the two is and `Int` otherwise; put in order or
/// compared they give a truth value. Nothing is asked for and nothing is reported.
pub proof fn operations_on_numbers_are_typed(
    context: SpecOperatorContext,
    operation: SpecOperation,
    answers: SpecAnswers,
    float: FloatFold,
    fresh: Fresh,
)
    requires
        are_plain_names(context, answers),
        is_of_the_language(context, operation.operator),
        is_number_type(answers.left),
        is_number_type(answers.right),
        computes(operation.operator) || orders(operation.operator) || equates(operation.operator),
    ensures
        ({
            let (outcome, after) = operation_outcome(context, operation, answers, float, fresh);
            let typed = outcome->Typed_0;
            &&& outcome is Typed
            &&& typed.result == (if !computes(operation.operator) {
                named("Bool"@)
            } else if answers.left == named("Float"@) || answers.right == named("Float"@) {
                named("Float"@)
            } else {
                named("Int"@)
            })
            &&& typed.report == SpecReport::Nothing
            &&& typed.asked.len() == 0
            &&& typed.obligations.len() == 0
            &&& !typed.forgets
            &&& after == fresh
        }),
{
    plain_names_stay(context, answers.left);
    plain_names_stay(context, answers.right);
    let operands = crate::binary_operations::operands_of(
        context,
        operation,
        answers,
        None,
        crate::equality::EqualityCompatibility::Unknown,
    );
    operators_are_apart(operation.operator);
    if computes(operation.operator) || orders(operation.operator) {
        crate::operator_laws::numbers_give_numbers(operands, fresh.meta as int);
    } else {
        crate::operator_laws::known_operands_are_compared(operands, fresh.meta as int);
        assert(crate::operators::binary_typing(operands, fresh.meta as int).1 == fresh.meta);
    }
    let typing = crate::operators::binary_typing(operands, fresh.meta as int).0;
    let none = Seq::<(SpecType, SpecType)>::empty();
    assert(none + rule_asks(typing) =~= none);
}

proof fn operators_are_apart(operator: Seq<char>)
    ensures
        computes(operator) || orders(operator) || equates(operator) || connects(operator)
            ==> operator != "??"@,
        computes(operator) ==> !orders(operator) && !equates(operator) && !connects(operator),
        orders(operator) ==> !equates(operator) && !connects(operator),
        equates(operator) ==> !connects(operator),
        equates(operator) <==> crate::folding::is_equality_operator(operator),
{
    crate::operator_laws::spellings();
    crate::operator_laws::groups_of_operators(operator);
}

/// Truth values are connected to a truth value.
pub proof fn operations_on_truth_values_are_typed(
    context: SpecOperatorContext,
    operation: SpecOperation,
    answers: SpecAnswers,
    float: FloatFold,
    fresh: Fresh,
)
    requires
        are_plain_names(context, answers),
        is_of_the_language(context, operation.operator),
        answers.left == named("Bool"@),
        answers.right == named("Bool"@),
        connects(operation.operator),
    ensures
        ({
            let outcome = operation_outcome(context, operation, answers, float, fresh).0;
            &&& outcome is Typed
            &&& outcome->Typed_0.result == named("Bool"@)
            &&& outcome->Typed_0.report == SpecReport::Nothing
        }),
{
    plain_names_stay(context, answers.left);
    plain_names_stay(context, answers.right);
    operators_are_apart(operation.operator);
    let operands = crate::binary_operations::operands_of(
        context,
        operation,
        answers,
        None,
        crate::equality::EqualityCompatibility::Unknown,
    );
    crate::operator_laws::truth_values_are_connected(operands, fresh.meta as int);
}

/// An operation that is not defined for its operands is reported with their types. What was
/// found out on the way is forgotten.
pub proof fn undefined_operations_are_reported(
    context: SpecOperatorContext,
    operation: SpecOperation,
    answers: SpecAnswers,
    float: FloatFold,
    fresh: Fresh,
)
    requires
        are_plain_names(context, answers),
        is_of_the_language(context, operation.operator),
        answers.left == named("Text"@) && operation.operator != "+"@ && (computes(
            operation.operator,
        ) || orders(operation.operator) || connects(operation.operator)) || answers.left
            == named("Text"@) && operation.operator == "+"@ && is_number_type(answers.right),
    ensures
        ({
            let outcome = operation_outcome(context, operation, answers, float, fresh).0;
            &&& outcome is Typed
            &&& outcome->Typed_0.report == (SpecReport::UndefinedOperator {
                left: answers.left,
                right: answers.right,
            })
            &&& outcome->Typed_0.forgets
        }),
{
    plain_names_stay(context, answers.left);
    plain_names_stay(context, answers.right);
    operators_are_apart(operation.operator);
    let operands = crate::binary_operations::operands_of(
        context,
        operation,
        answers,
        None,
        crate::equality::EqualityCompatibility::Unknown,
    );
    crate::operator_laws::groups_of_operators(operation.operator);
    crate::operator_laws::texts_are_joined(operands, fresh.meta as int);
}

/// Functions are not compared: it is said which operand is one, and the test still gives a
/// truth value.
pub proof fn functions_are_not_compared(
    context: SpecOperatorContext,
    operation: SpecOperation,
    answers: SpecAnswers,
    float: FloatFold,
    fresh: Fresh,
)
    requires
        is_of_the_language(context, operation.operator),
        !context.method_operator,
        equates(operation.operator),
        answers.left is Function || answers.right is Function,
    ensures
        ({
            let outcome = operation_outcome(context, operation, answers, float, fresh).0;
            &&& outcome is Typed
            &&& outcome->Typed_0.result == named("Bool"@)
            &&& outcome->Typed_0.report == (SpecReport::ComparedFunctions {
                left: answers.left is Function,
            })
        }),
{
    operators_are_apart(operation.operator);
}

/// The divisor of a division of integers is looked at: one that is written as zero is found.
pub proof fn written_zeros_are_found(
    context: SpecOperatorContext,
    operation: SpecOperation,
    answers: SpecAnswers,
    float: FloatFold,
    fresh: Fresh,
)
    requires
        are_plain_names(context, answers),
        is_of_the_language(context, operation.operator),
        answers.left == named("Int"@),
        answers.right == named("Int"@),
        operation.operator == "/"@ || operation.operator == "%"@,
    ensures
        ({
            let outcome = operation_outcome(context, operation, answers, float, fresh).0;
            let verdict = outcome->Typed_0.divisor;
            &&& crate::syntax::literal_is_zero(operation.right) == Some(true) ==> verdict == (
            DivisorVerdict::Zero { written: true })
            &&& crate::syntax::literal_is_zero(operation.right) == Some(false) ==> verdict
                is NonZero
            &&& crate::syntax::literal_is_zero(operation.right) is None ==> verdict is MayBeZero
            &&& outcome->Typed_0.divisor_afterwards == verdict
        }),
{
    plain_names_stay(context, answers.left);
    plain_names_stay(context, answers.right);
    operators_are_apart(operation.operator);
    crate::operator_laws::groups_of_operators(operation.operator);
    operations_on_numbers_are_typed(context, operation, answers, float, fresh);
    crate::operator_laws::divisors_are_looked_at(
        operation.operator,
        true,
        crate::syntax::literal_is_zero(operation.right),
        answers.right,
    );
}

/// A rule gives its type where what it asks for is found, and none otherwise.
pub proof fn rules_give_their_type(typing: SpecTyping, answers: SpecAnswers)
    ensures
        typing.rule is Reject ==> rule_result(typing, answers) is None,
        typing.rule is Accept ==> rule_result(typing, answers) == Some(typing.rule->Accept_0)
            && rule_asks(typing).len() == 0,
        typing.rule is UnifyLeft ==> rule_asks(typing) == seq![
            (typing.left, typing.rule->UnifyLeft_with),
        ] && rule_result(typing, answers) == (if answers.unified {
            Some(typing.rule->UnifyLeft_result)
        } else {
            None
        }),
        typing.rule is UnifyRight ==> rule_asks(typing) == seq![
            (typing.right, typing.rule->UnifyRight_with),
        ] && rule_result(typing, answers) == (if answers.unified {
            Some(typing.rule->UnifyRight_result)
        } else {
            None
        }),
        typing.rule is UnifyOperands ==> rule_asks(typing) == seq![(typing.left, typing.right)]
            && (rule_result(typing, answers) is Some <==> answers.unified),
        typing.rule == (SpecRule::UnifyOperands { result: None }) && answers.unified
            ==> rule_result(typing, answers) == Some(typing.left),
        typing.rule is CompareTypes ==> rule_asks(typing) == seq![(typing.left, typing.right)]
            && rule_result(typing, answers) == (if answers.compared {
            Some(named("Bool"@))
        } else {
            None
        }),
{
}

/// An operation on two unknown operands that no annotation names takes them for one type: it
/// asks that they are one, requires the operator of it, and gives the same type, or a truth
/// value where it puts in order.
pub proof fn unknown_operands_are_taken_for_one_type(
    context: SpecOperatorContext,
    operation: SpecOperation,
    answers: SpecAnswers,
    float: FloatFold,
    fresh: Fresh,
)
    requires
        is_of_the_language(context, operation.operator),
        context.method_operator,
        context.types.definitions.dom().finite(),
        computes(operation.operator) || orders(operation.operator),
        operation.left_type is Meta,
        operation.right_type is Meta,
        !context.named.contains(operation.left_type),
        !context.named.contains(operation.right_type),
        answers.left == operation.left_type,
        answers.right == operation.right_type,
        answers.left_default == operation.left_type,
        answers.right_default == operation.right_type,
        answers.left_afterwards == operation.left_type,
        !answers.left_is_number,
        !answers.right_is_number,
    ensures
        ({
            let outcome = operation_outcome(context, operation, answers, float, fresh).0;
            let typed = outcome->Typed_0;
            &&& outcome is Typed
            &&& typed.result == (if orders(operation.operator) {
                named("Bool"@)
            } else {
                operation.left_type
            })
            &&& typed.asked.contains((operation.left_type, operation.right_type))
            &&& typed.obligations.len() == 1
            &&& typed.obligations[0].candidate == operation.left_type
            &&& typed.obligations[0].member == operation.operator
            &&& typed.obligations[0].params == seq![operation.left_type]
            &&& typed.obligations[0].result == typed.result
            &&& typed.obligations[0].divisor_context is Some <==> operation.operator == "/"@
                || operation.operator == "%"@
        }),
{
    operators_are_apart(operation.operator);
    let operands = crate::binary_operations::operands_of(
        context,
        operation,
        answers,
        None,
        crate::equality::EqualityCompatibility::Unknown,
    );
    crate::operator_laws::unknown_operands_take_the_other_number(operands, fresh.meta as int);
    crate::operator_laws::operations_wait_for_unknown_operands(
        operation.operator,
        true,
        operation.left_type,
        true,
    );
    crate::operator_laws::groups_of_operators(operation.operator);
    let outcome = operation_outcome(context, operation, answers, float, fresh).0;
    let asked = outcome->Typed_0.asked;
    assert(asked[asked.len() - 1] == (operation.left_type, operation.right_type));
}

} // verus!
