//! The types of expressions.
//!
//! Where the facts say what the types of the parts stand for, the rules for operators,
//! calls, fields, indices, propagated errors, functions and matches are applied. Other rules
//! stand elsewhere; their answers come in as facts, by the places of the expressions. What is to be asked, unified or recorded goes out as events, in order.
use crate::annotations::{find_place, place_position, successor};
use crate::collections::{StringMap, StringSet};
use crate::binary_operations::{Operation, SpecOperation};
use crate::calls::{infer_variant_constructor, tagged};
use crate::expression_rules::{
    binary_ruled, call_ruled, copy_type, copy_types, count_looked_at, field_ruled, index_rule, is_pipe, pipes, plan_index, propagate_ruled,
    rule_binary, rule_call, rule_field, rule_match, rule_propagate, rule_unary, unary_ruled,
    looked_at, match_ruled, IndexPlan, IndexRule, LambdaUse, RuleEvent, RuleFacts, Ruled, SpecRuleEvent,
};
use crate::normalize::{normal_form, normalize};
use crate::schemes::{export_generic_name, generic_name, TypeScheme};
use crate::span::Span;
use crate::syntax::{
    adds_field, lists_fields, literal_record_value, Expr, ExprKind, InterpolationSegment, MatchArm,
    Param, RecordEntry,
};
use crate::text::same_text;
use crate::type_ops::{
    is_resolved_value_type, named_builtin, resolved, some_node, some_node_in, some_node_in_entry,
    some_node_in_row, type_contains_deferred, type_contains_variable, type_map_view,
};
use crate::types::{
    entries_view, types_view, Literal, Row, RowEntry, RowTail, SpecRow, SpecRowEntry, SpecType,
    Type,
};
use vstd::prelude::*;

verus! {

// ---------------------------------------------------------------------------
// Facts and events
// ---------------------------------------------------------------------------
/// What other rules say of expressions.
pub struct InferenceFacts {
    /// The definitions that types refer to.
    pub definitions: StringMap<Type>,
    /// What is known where the rule for an expression applies.
    pub rules: Vec<(Span, RuleFacts)>,
    /// The types of names and of expressions that other rules type.
    pub answers: Vec<(Span, Type)>,
    /// The places of elements whose types do not unify with that of their
    /// collection.
    pub misfits: Vec<Span>,
}

impl InferenceFacts {
    /// The type that other rules give; unknown where they give none.
    pub open spec fn answer(&self, span: Span) -> SpecType {
        match place_position(self.answers@, span, 0) {
            Some(position) => self.answers@[position].1@,
            None => SpecType::Deferred,
        }
    }

    /// What is known where the rule for an expression applies.
    pub open spec fn rule(&self, span: Span) -> Option<RuleFacts> {
        match place_position(self.rules@, span, 0) {
            Some(position) => Some(self.rules@[position].1),
            None => None,
        }
    }

    fn find_rule(&self, span: Span) -> (facts: Option<&RuleFacts>)
        ensures
            match facts {
                Some(facts) => self.rule(span) == Some(*facts),
                None => self.rule(span) is None,
            },
    {
        find_place(&self.rules, span)
    }

    fn find_answer(&self, span: Span) -> (ty: Type)
        ensures
            ty@ == self.answer(span),
    {
        let mut index: usize = 0;
        while index < self.answers.len()
            invariant
                index <= self.answers.len(),
                place_position(self.answers@, span, 0) == place_position(
                    self.answers@,
                    span,
                    index as int,
                ),
            decreases self.answers.len() - index,
        {
            if self.answers[index].0 == span {
                return self.answers[index].1.clone();
            }
            index += 1;
        }
        Type::Deferred
    }

    fn is_misfit(&self, span: Span) -> (misfit: bool)
        ensures
            misfit == self.misfits@.contains(span),
    {
        let mut index: usize = 0;
        while index < self.misfits.len()
            invariant
                index <= self.misfits.len(),
                forall|i: int| 0 <= i < index ==> self.misfits@[i] != span,
            decreases self.misfits.len() - index,
        {
            if self.misfits[index] == span {
                return true;
            }
            index += 1;
        }
        false
    }
}

/// The rule that types an expression whose form alone does not.
#[derive(Debug, Clone, Copy, PartialEq, Eq, Structural)]
pub enum InferenceRule {
    /// A record with more than plain fields.
    RecordEntries,
    Lambda,
    Call,
    Index,
    FieldAccess,
    /// Alternatives between bars.
    SetUnion,
    Binary,
    Unary,
    Block,
    Match,
    Propagate,
    /// The form decides by itself.
    Form,
}

/// The rule that types an expression whose form alone does not.
pub open spec fn rule_for(expr: Expr) -> InferenceRule {
    match expr.kind {
        ExprKind::Record(_) => InferenceRule::RecordEntries,
        ExprKind::Lambda { .. } => InferenceRule::Lambda,
        ExprKind::Call { .. } => InferenceRule::Call,
        ExprKind::Index { .. } => InferenceRule::Index,
        ExprKind::FieldAccess { .. } => InferenceRule::FieldAccess,
        ExprKind::Binary { operator, .. } => if operator@ == "|"@ {
            InferenceRule::SetUnion
        } else {
            InferenceRule::Binary
        },
        ExprKind::Unary { .. } => InferenceRule::Unary,
        ExprKind::Block(_) => InferenceRule::Block,
        ExprKind::Match { .. } => InferenceRule::Match,
        ExprKind::Propagate { .. } => InferenceRule::Propagate,
        _ => InferenceRule::Form,
    }
}

/// The rule that types an expression whose form alone does not.
pub fn inference_rule(expr: &Expr) -> (rule: InferenceRule)
    ensures
        rule == rule_for(*expr),
{
    match &expr.kind {
        ExprKind::Record(_) => InferenceRule::RecordEntries,
        ExprKind::Lambda { .. } => InferenceRule::Lambda,
        ExprKind::Call { .. } => InferenceRule::Call,
        ExprKind::Index { .. } => InferenceRule::Index,
        ExprKind::FieldAccess { .. } => InferenceRule::FieldAccess,
        ExprKind::Binary { operator, .. } => if same_text(operator.as_str(), "|") {
            InferenceRule::SetUnion
        } else {
            InferenceRule::Binary
        },
        ExprKind::Unary { .. } => InferenceRule::Unary,
        ExprKind::Block(_) => InferenceRule::Block,
        ExprKind::Match { .. } => InferenceRule::Match,
        ExprKind::Propagate { .. } => InferenceRule::Propagate,
        _ => InferenceRule::Form,
    }
}

/// What is to be asked, unified or recorded on the way.
#[derive(Debug)]
#[allow(inconsistent_fields)]
pub enum InferenceEvent<'a> {
    /// Another rule types the expression.
    Ask { rule: InferenceRule, expr: &'a Expr },
    /// The type of a name is looked up.
    AskName { name: &'a str, span: Span },
    /// An element's type is unified with that of its collection.
    Unify { whole: Type, part: Type, span: Span },
    /// The names of a pattern stand for the parts of a value.
    Bind { pattern: &'a Expr },
    /// A parameter has a type from here on.
    BindName { name: &'a str, ty: Type },
    /// A default is held against the type of its parameter.
    CheckDefault { expected: Type, value: &'a Expr },
    /// The rule for an expression was applied.
    Rule { span: Span, event: RuleEvent },
    /// The type of an expression is noted.
    Record { span: Span, ty: Type },
}

/// What is to be asked, unified or recorded on the way.
#[allow(inconsistent_fields)]
pub ghost enum SpecInferenceEvent {
    Ask { rule: InferenceRule, expr: Expr },
    AskName { name: Seq<char>, span: Span },
    Unify { whole: SpecType, part: SpecType, span: Span },
    Bind { pattern: Expr },
    BindName { name: Seq<char>, ty: SpecType },
    CheckDefault { expected: SpecType, value: Expr },
    Rule { span: Span, event: SpecRuleEvent },
    Record { span: Span, ty: SpecType },
}

impl InferenceEvent<'_> {
    pub open spec fn view(&self) -> SpecInferenceEvent {
        match self {
            InferenceEvent::Ask { rule, expr } => SpecInferenceEvent::Ask {
                rule: *rule,
                expr: **expr,
            },
            InferenceEvent::AskName { name, span } => SpecInferenceEvent::AskName {
                name: name@,
                span: *span,
            },
            InferenceEvent::Unify { whole, part, span } => SpecInferenceEvent::Unify {
                whole: whole@,
                part: part@,
                span: *span,
            },
            InferenceEvent::Bind { pattern } => SpecInferenceEvent::Bind { pattern: **pattern },
            InferenceEvent::BindName { name, ty } => SpecInferenceEvent::BindName {
                name: name@,
                ty: ty@,
            },
            InferenceEvent::CheckDefault { expected, value } => SpecInferenceEvent::CheckDefault {
                expected: expected@,
                value: **value,
            },
            InferenceEvent::Rule { span, event } => SpecInferenceEvent::Rule {
                span: *span,
                event: event@,
            },
            InferenceEvent::Record { span, ty } => SpecInferenceEvent::Record {
                span: *span,
                ty: ty@,
            },
        }
    }
}

pub open spec fn inference_events(events: Seq<InferenceEvent<'_>>) -> Seq<SpecInferenceEvent> {
    Seq::new(events.len(), |i: int| events[i]@)
}

fn emit<'a>(events: &mut Vec<InferenceEvent<'a>>, event: InferenceEvent<'a>)
    ensures
        inference_events(final(events)@) == inference_events(old(events)@) + seq![event@],
{
    events.push(event);
    assert(inference_events(events@) =~= inference_events(old(events)@) + seq![event@]);
}

/// The numbers of the next unknown type and of the next unknown tail.
#[derive(Debug, Clone, Copy, PartialEq, Eq, Structural)]
pub struct Fresh {
    pub meta: u32,
    pub tail: u32,
}

impl Fresh {
    pub open spec fn after_meta(self) -> Fresh {
        Fresh { meta: successor(self.meta), ..self }
    }

    pub open spec fn after_tail(self) -> Fresh {
        Fresh { tail: successor(self.tail), ..self }
    }

    /// Take the number of the next unknown type.
    pub fn take_meta(&mut self) -> (id: u32)
        ensures
            id == old(self).meta,
            *final(self) == old(self).after_meta(),
    {
        let id: u32 = self.meta;
        self.meta = if id == u32::MAX {
            0
        } else {
            id + 1
        };
        id
    }

    /// Take the number of the next unknown tail.
    pub fn take_tail(&mut self) -> (id: u32)
        ensures
            id == old(self).tail,
            *final(self) == old(self).after_tail(),
    {
        let id: u32 = self.tail;
        self.tail = if id == u32::MAX {
            0
        } else {
            id + 1
        };
        id
    }
}

// ---------------------------------------------------------------------------
// The meaning of expressions
// ---------------------------------------------------------------------------
/// What is inferred of an expression.
pub ghost struct Inference {
    pub ty: SpecType,
    pub events: Seq<SpecInferenceEvent>,
    pub fresh: Fresh,
}

/// What is inferred of some expressions.
pub ghost struct ListInference {
    pub types: Seq<SpecType>,
    pub events: Seq<SpecInferenceEvent>,
    pub fresh: Fresh,
}

/// What is inferred of the fields of a record.
pub ghost struct FieldInference {
    pub entries: Seq<SpecRowEntry>,
    pub events: Seq<SpecInferenceEvent>,
    pub fresh: Fresh,
}

/// What is inferred of the elements of a collection: whether their types go
/// together.
pub ghost struct ElementInference {
    pub fits: bool,
    pub events: Seq<SpecInferenceEvent>,
    pub fresh: Fresh,
}

pub open spec fn known_type(ty: SpecType, fresh: Fresh) -> Inference {
    Inference { ty, events: Seq::empty(), fresh }
}

/// The type of a literal: it may widen to a union with other literals.
pub open spec fn open_literal(literal: crate::types::SpecLiteral, tail: u32) -> SpecType {
    SpecType::Variant(
        SpecRow {
            entries: seq![SpecRowEntry::Literal { value: literal }],
            tail: RowTail::Var(tail),
        },
    )
}

/// The type of a tag without a payload.
pub open spec fn bare_tag(name: Seq<char>) -> SpecType {
    SpecType::Variant(
        SpecRow {
            entries: seq![SpecRowEntry::Tag { name, payload: Seq::empty() }],
            tail: RowTail::Closed,
        },
    )
}

/// A collection with an element type that is not known yet.
pub open spec fn collection_of(constructor: Seq<char>, meta: u32) -> SpecType {
    SpecType::Apply {
        callee: Box::new(SpecType::Named(constructor)),
        args: seq![SpecType::Meta(meta)],
    }
}

/// What is inferred of an expression. Its type is noted at its place.
pub open spec fn inferred(expr: Expr, facts: InferenceFacts, fresh: Fresh) -> Inference
    decreases expr, 1nat, 0nat,
{
    let whole = inferred_kind(expr, facts, fresh);
    Inference {
        events: whole.events + seq![SpecInferenceEvent::Record { span: expr.span, ty: whole.ty }],
        ..whole
    }
}

/// What is inferred of an expression from its form.
pub open spec fn inferred_kind(expr: Expr, facts: InferenceFacts, fresh: Fresh) -> Inference
    decreases expr, 0nat, 0nat,
{
    match expr.kind {
        ExprKind::Literal(literal) => if literal is Regex {
            known_type(SpecType::Deferred, fresh)
        } else {
            known_type(open_literal(literal@, fresh.tail), fresh.after_tail())
        },
        ExprKind::Undefined => known_type(SpecType::Named("Undefined"@), fresh),
        ExprKind::Null => known_type(SpecType::Named("Null"@), fresh),
        ExprKind::Tag(name) => known_type(bare_tag(name@), fresh),
        ExprKind::ComptimeName(name) => Inference {
            ty: facts.answer(expr.span),
            events: seq![SpecInferenceEvent::AskName { name: name@, span: expr.span }],
            fresh,
        },
        ExprKind::Name(name) => Inference {
            ty: facts.answer(expr.span),
            events: seq![SpecInferenceEvent::AskName { name: name@, span: expr.span }],
            fresh,
        },
        ExprKind::Group(inner) => inferred(*inner, facts, fresh),
        ExprKind::Tuple(elements) => {
            let list = inferred_all(elements@, facts, fresh, elements@.len());
            Inference { ty: SpecType::Tuple(list.types), events: list.events, fresh: list.fresh }
        },
        ExprKind::Array(entries) => collected(entries@, "Array"@, facts, fresh),
        ExprKind::SetLiteral(entries) => collected(entries@, "Set"@, facts, fresh),
        ExprKind::Record(entries) => if lists_fields(entries@) {
            let fields = inferred_fields(entries@, facts, fresh, entries@.len());
            Inference {
                ty: SpecType::Record(
                    SpecRow { entries: fields.entries, tail: RowTail::Closed },
                ),
                events: fields.events,
                fresh: fields.fresh,
            }
        } else {
            asked(expr, facts, fresh)
        },
        ExprKind::Interpolation(segments) => {
            let parts = inferred_segments(segments@, facts, fresh, segments@.len());
            Inference {
                ty: SpecType::Named("Text"@),
                events: parts.events,
                fresh: parts.fresh,
            }
        },
        ExprKind::Missing => known_type(SpecType::Deferred, fresh),
        ExprKind::PrimitiveFamily { .. } => known_type(SpecType::Deferred, fresh),
        ExprKind::Optional(_) => known_type(SpecType::Deferred, fresh),
        ExprKind::Nullable(_) => known_type(SpecType::Deferred, fresh),
        ExprKind::NonNull(_) => known_type(SpecType::Deferred, fresh),
        ExprKind::Arrow { .. } => known_type(SpecType::Deferred, fresh),
        ExprKind::Binary { left, operator, operator_span, right } => match facts.rule(expr.span) {
            Some(RuleFacts::Binary(known)) => if pipes(operator@, known) {
                asked(expr, facts, fresh)
            } else {
                let first = inferred(*left, facts, fresh);
                let second = inferred(*right, facts, first.fresh);
                let operation = SpecOperation {
                    operator: operator@,
                    operator_span,
                    left: *left,
                    right: *right,
                    left_type: first.ty,
                    right_type: second.ty,
                };
                ruled(
                    first.events + second.events,
                    binary_ruled(operation, known, second.fresh),
                    expr.span,
                )
            },
            _ => asked(expr, facts, fresh),
        },
        ExprKind::Unary { operator, value, .. } => match facts.rule(expr.span) {
            Some(RuleFacts::Unary(known)) => {
                let operand = inferred(*value, facts, fresh);
                ruled(
                    operand.events,
                    unary_ruled(
                        operator@,
                        known,
                        type_map_view(facts.definitions@),
                        operand.fresh,
                    ),
                    expr.span,
                )
            },
            _ => asked(expr, facts, fresh),
        },
        ExprKind::Propagate { value, mode, .. } => match facts.rule(expr.span) {
            Some(RuleFacts::Propagate(known)) => {
                let operand = inferred(*value, facts, fresh);
                ruled(
                    operand.events,
                    propagate_ruled(
                        normal_form(known@, type_map_view(facts.definitions@)),
                        mode,
                        operand.fresh,
                    ),
                    expr.span,
                )
            },
            _ => asked(expr, facts, fresh),
        },
        ExprKind::Index { callee, args } => match facts.rule(expr.span) {
            Some(RuleFacts::Index(known)) => if args@.len() != 1 {
                known_type(SpecType::Deferred, fresh)
            } else {
                let receiver = inferred(*callee, facts, fresh);
                match index_rule(
                    normal_form(known.receiver@, type_map_view(facts.definitions@)),
                    known,
                    args@[0],
                ) {
                    IndexRule::Argument { index, ty } => {
                        let arg = inferred_all(args@, facts, receiver.fresh, 1);
                        ruled(
                            receiver.events + arg.events,
                            Ruled {
                                ty,
                                event: SpecRuleEvent::Argument {
                                    expected: index,
                                    actual: arg.types[0],
                                },
                                fresh: arg.fresh,
                            },
                            expr.span,
                        )
                    },
                    IndexRule::Known { ty, finding } => ruled(
                        receiver.events,
                        Ruled {
                            ty,
                            event: SpecRuleEvent::Indexed(finding),
                            fresh: receiver.fresh,
                        },
                        expr.span,
                    ),
                }
            },
            _ => asked(expr, facts, fresh),
        },
        ExprKind::Call { callee, args } => match facts.rule(expr.span) {
            Some(RuleFacts::Call(known)) => {
                let function = inferred(*callee, facts, fresh);
                let given = inferred_all(args@, facts, function.fresh, args@.len());
                ruled(
                    function.events + given.events,
                    call_ruled(*callee, given.types, known, given.fresh),
                    expr.span,
                )
            },
            Some(RuleFacts::Constructor(payload)) => if callee.kind is Tag && payload@.len()
                == args@.len() {
                let count = looked_at(types_view(payload@), 0) as nat;
                let given = inferred_all(args@, facts, fresh, count);
                Inference {
                    ty: tagged(callee.kind->Tag_0@, types_view(payload@)),
                    events: given.events,
                    fresh: given.fresh,
                }
            } else {
                asked(expr, facts, fresh)
            },
            _ => asked(expr, facts, fresh),
        },
        ExprKind::Match { subject, arms } => match facts.rule(expr.span) {
            Some(RuleFacts::Match(known)) => if arms@.len() == 0 {
                known_type(SpecType::Deferred, fresh)
            } else if known.bodies@.len() != arms@.len() {
                asked(expr, facts, fresh)
            } else {
                let value = inferred(*subject, facts, fresh);
                match known.selected {
                    Some(arm) => {
                        let body = inferred_arm(arms@, facts, value.fresh, arm as int);
                        Inference {
                            ty: body.ty,
                            events: value.events + body.events,
                            fresh: body.fresh,
                        }
                    },
                    None => {
                        let bodies = inferred_arms(arms@, facts, value.fresh, arms@.len());
                        ruled(
                            value.events + bodies.events,
                            match_ruled(known.bodies@, bodies.fresh),
                            expr.span,
                        )
                    },
                }
            },
            _ => asked(expr, facts, fresh),
        },
        ExprKind::Lambda { params, body, .. } => match facts.rule(expr.span) {
            Some(RuleFacts::Lambda(known)) => if known.annotations@.len() != params@.len() {
                asked(expr, facts, fresh)
            } else {
                let taken = inferred_params(params@, known, facts, fresh, params@.len());
                let inside = inferred(*body, facts, taken.fresh);
                Inference {
                    ty: SpecType::Function {
                        params: taken.types,
                        result: Box::new(
                            function_result(
                                crate::rows::owned_type_view(known.annotation),
                                match known.body {
                                    Some(ty) => ty@,
                                    None => inside.ty,
                                },
                                known.fits,
                                known.resolved_body@,
                                known.resolved_annotation@,
                            ),
                        ),
                        required: first_default(params@, 0) as nat,
                    },
                    events: taken.events + inside.events,
                    fresh: inside.fresh,
                }
            },
            _ => asked(expr, facts, fresh),
        },
        ExprKind::FieldAccess { receiver, field, null_safe, .. } => match facts.rule(expr.span) {
            Some(RuleFacts::Field(known)) => {
                let value = inferred(*receiver, facts, fresh);
                ruled(
                    value.events,
                    field_ruled(
                        field@,
                        null_safe,
                        known,
                        type_map_view(facts.definitions@),
                        value.fresh,
                    ),
                    expr.span,
                )
            },
            _ => asked(expr, facts, fresh),
        },
        _ => asked(expr, facts, fresh),
    }
}

/// What is inferred of the body of an arm. The names of its pattern are bound before.
pub open spec fn inferred_arm(
    arms: Seq<MatchArm>,
    facts: InferenceFacts,
    fresh: Fresh,
    arm: int,
) -> Inference
    decreases arms, 0nat, 0nat,
{
    if 0 <= arm < arms.len() {
        let body = inferred(*arms[arm].body, facts, fresh);
        Inference {
            events: seq![SpecInferenceEvent::Bind { pattern: *arms[arm].pattern }] + body.events,
            ..body
        }
    } else {
        known_type(SpecType::Deferred, fresh)
    }
}

/// What is inferred of the bodies of the first arms.
pub open spec fn inferred_arms(
    arms: Seq<MatchArm>,
    facts: InferenceFacts,
    fresh: Fresh,
    count: nat,
) -> ListInference
    decreases arms, 1nat, count,
{
    if count == 0 || count > arms.len() {
        ListInference { types: Seq::empty(), events: Seq::empty(), fresh }
    } else {
        let earlier = inferred_arms(arms, facts, fresh, (count - 1) as nat);
        let last = inferred_arm(arms, facts, earlier.fresh, count - 1);
        ListInference {
            types: earlier.types.push(last.ty),
            events: earlier.events + last.events,
            fresh: last.fresh,
        }
    }
}

/// The type of a parameter: what its annotation says, or one that is not known yet.
pub open spec fn param_type(param: Param, annotation: Option<Type>, fresh: Fresh) -> SpecType {
    if param.annotation is Some {
        match annotation {
            Some(ty) => ty@,
            None => SpecType::Deferred,
        }
    } else {
        SpecType::Meta(fresh.meta)
    }
}

/// What is inferred of the first parameters of a function. A default of an annotated
/// parameter is held against the annotation; another one gives the parameter its type.
pub open spec fn inferred_params(
    params: Seq<Param>,
    known: LambdaUse,
    facts: InferenceFacts,
    fresh: Fresh,
    count: nat,
) -> ListInference
    decreases params, 0nat, count,
{
    if count == 0 || count > params.len() {
        ListInference { types: Seq::empty(), events: Seq::empty(), fresh }
    } else {
        let earlier = inferred_params(params, known, facts, fresh, (count - 1) as nat);
        let param = params[count - 1];
        let ty = param_type(param, known.annotations@[count - 1], earlier.fresh);
        let after = if param.annotation is Some {
            earlier.fresh
        } else {
            earlier.fresh.after_meta()
        };
        let bound = seq![SpecInferenceEvent::BindName { name: param.name@, ty }];
        match param.default {
            Some(default) => if param.annotation is Some {
                ListInference {
                    types: earlier.types.push(ty),
                    events: earlier.events + seq![
                        SpecInferenceEvent::CheckDefault { expected: ty, value: *default },
                    ] + bound,
                    fresh: after,
                }
            } else {
                let value = inferred(*default, facts, after);
                ListInference {
                    types: earlier.types.push(ty),
                    events: earlier.events + value.events + seq![
                        SpecInferenceEvent::Unify {
                            whole: ty,
                            part: value.ty,
                            span: default.span,
                        },
                    ] + bound,
                    fresh: value.fresh,
                }
            },
            None => ListInference {
                types: earlier.types.push(ty),
                events: earlier.events + bound,
                fresh: after,
            },
        }
    }
}

/// An expression whose rule is applied to its parts.
pub open spec fn ruled(earlier: Seq<SpecInferenceEvent>, rule: Ruled, span: Span) -> Inference {
    Inference {
        ty: rule.ty,
        events: earlier + seq![SpecInferenceEvent::Rule { span, event: rule.event }],
        fresh: rule.fresh,
    }
}

/// An expression that another rule types.
pub open spec fn asked(expr: Expr, facts: InferenceFacts, fresh: Fresh) -> Inference {
    Inference {
        ty: facts.answer(expr.span),
        events: seq![SpecInferenceEvent::Ask { rule: rule_for(expr), expr }],
        fresh,
    }
}

/// What is inferred of the first expressions.
pub open spec fn inferred_all(
    items: Seq<Expr>,
    facts: InferenceFacts,
    fresh: Fresh,
    count: nat,
) -> ListInference
    decreases items, 0nat, count,
{
    if count == 0 || count > items.len() {
        ListInference { types: Seq::empty(), events: Seq::empty(), fresh }
    } else {
        let earlier = inferred_all(items, facts, fresh, (count - 1) as nat);
        let last = inferred(items[count - 1], facts, earlier.fresh);
        ListInference {
            types: earlier.types.push(last.ty),
            events: earlier.events + last.events,
            fresh: last.fresh,
        }
    }
}

/// What is inferred of the expressions in an interpolated text.
pub open spec fn inferred_segments(
    segments: Seq<InterpolationSegment>,
    facts: InferenceFacts,
    fresh: Fresh,
    count: nat,
) -> ListInference
    decreases segments, 0nat, count,
{
    if count == 0 || count > segments.len() {
        ListInference { types: Seq::empty(), events: Seq::empty(), fresh }
    } else {
        let earlier = inferred_segments(segments, facts, fresh, (count - 1) as nat);
        match segments[count - 1] {
            InterpolationSegment::Text(_) => earlier,
            InterpolationSegment::Expr(expr) => {
                let last = inferred(*expr, facts, earlier.fresh);
                ListInference {
                    types: earlier.types.push(last.ty),
                    events: earlier.events + last.events,
                    fresh: last.fresh,
                }
            },
        }
    }
}

/// What is inferred of the first fields of a record.
pub open spec fn inferred_fields(
    entries: Seq<RecordEntry>,
    facts: InferenceFacts,
    fresh: Fresh,
    count: nat,
) -> FieldInference
    decreases entries, 0nat, count,
{
    if count == 0 || count > entries.len() {
        FieldInference { entries: Seq::empty(), events: Seq::empty(), fresh }
    } else {
        let earlier = inferred_fields(entries, facts, fresh, (count - 1) as nat);
        match entries[count - 1] {
            RecordEntry::Field { name, value, .. } => {
                let last = inferred(*value, facts, earlier.fresh);
                FieldInference {
                    entries: earlier.entries.push(
                        SpecRowEntry::Field { name: name@, ty: last.ty },
                    ),
                    events: earlier.events + last.events,
                    fresh: last.fresh,
                }
            },
            RecordEntry::Shorthand { name, name_span, .. } => FieldInference {
                entries: earlier.entries.push(
                    SpecRowEntry::Field { name: name@, ty: facts.answer(name_span) },
                ),
                events: earlier.events + seq![
                    SpecInferenceEvent::AskName { name: name@, span: name_span },
                ],
                fresh: earlier.fresh,
            },
            _ => earlier,
        }
    }
}

/// What is inferred of a collection.
pub open spec fn collected(
    entries: Seq<RecordEntry>,
    constructor: Seq<char>,
    facts: InferenceFacts,
    fresh: Fresh,
) -> Inference
    decreases entries, 1nat, 0nat,
{
    let elements = inferred_elements(
        entries,
        constructor,
        fresh.meta,
        facts,
        fresh.after_meta(),
        entries.len(),
    );
    Inference {
        ty: if elements.fits {
            collection_of(constructor, fresh.meta)
        } else {
            SpecType::Deferred
        },
        events: elements.events,
        fresh: elements.fresh,
    }
}

/// What is inferred of the first elements of a collection. After one that does not
/// fit, no other is looked at.
pub open spec fn inferred_elements(
    entries: Seq<RecordEntry>,
    constructor: Seq<char>,
    meta: u32,
    facts: InferenceFacts,
    fresh: Fresh,
    count: nat,
) -> ElementInference
    decreases entries, 0nat, count,
{
    if count == 0 || count > entries.len() {
        ElementInference { fits: true, events: Seq::empty(), fresh }
    } else {
        let earlier = inferred_elements(
            entries,
            constructor,
            meta,
            facts,
            fresh,
            (count - 1) as nat,
        );
        if !earlier.fits {
            earlier
        } else {
            match entries[count - 1] {
                RecordEntry::Element(element) => {
                    let last = inferred(*element, facts, earlier.fresh);
                    unified(earlier, SpecType::Meta(meta), last, element.span, facts)
                },
                RecordEntry::Spread { value, .. } => {
                    let last = inferred(*value, facts, earlier.fresh);
                    unified(earlier, collection_of(constructor, meta), last, value.span, facts)
                },
                _ => ElementInference { fits: false, ..earlier },
            }
        }
    }
}

/// An element whose type is unified with that of its collection.
pub open spec fn unified(
    earlier: ElementInference,
    whole: SpecType,
    last: Inference,
    span: Span,
    facts: InferenceFacts,
) -> ElementInference {
    ElementInference {
        fits: !facts.misfits@.contains(span),
        events: earlier.events + last.events + seq![
            SpecInferenceEvent::Unify { whole, part: last.ty, span },
        ],
        fresh: last.fresh,
    }
}

// ---------------------------------------------------------------------------
// Inferring types
// ---------------------------------------------------------------------------
/// The type of a literal.
pub fn open_literal_variant(literal: &Literal, fresh: &mut Fresh) -> (ty: Type)
    ensures
        ty@ == open_literal(literal@, old(fresh).tail),
        *final(fresh) == old(fresh).after_tail(),
{
    let tail = fresh.take_tail();
    let mut entries: Vec<RowEntry> = Vec::new();
    entries.push(RowEntry::Literal { value: literal.clone() });
    let row = Row { entries, tail: RowTail::Var(tail) };
    assert(row@.entries =~= seq![SpecRowEntry::Literal { value: literal@ }]);
    assert(row@.tail == RowTail::Var(tail));
    Type::Variant(row)
}

fn tag_type(name: &String) -> (ty: Type)
    ensures
        ty@ == bare_tag(name@),
{
    let payload: Vec<Type> = Vec::new();
    assert(types_view(payload@) =~= Seq::empty());
    let mut entries: Vec<RowEntry> = Vec::new();
    entries.push(RowEntry::Tag { name: name.clone(), payload });
    let row = Row { entries, tail: RowTail::Closed };
    assert(row@.entries =~= seq![SpecRowEntry::Tag { name: name@, payload: Seq::empty() }]);
    assert(row@.tail == RowTail::Closed);
    Type::Variant(row)
}

fn collection_type(constructor: &str, meta: u32) -> (ty: Type)
    ensures
        ty@ == collection_of(constructor@, meta),
{
    let mut args: Vec<Type> = Vec::new();
    args.push(Type::Meta(meta));
    assert(types_view(args@) =~= seq![SpecType::Meta(meta)]);
    let callee = Type::Named(constructor.to_owned());
    assert(callee@ == SpecType::Named(constructor@));
    Type::Apply { callee: Box::new(callee), args }
}

fn ask<'a>(
    expr: &'a Expr,
    facts: &InferenceFacts,
    events: &mut Vec<InferenceEvent<'a>>,
) -> (ty: Type)
    ensures
        ty@ == facts.answer(expr.span),
        inference_events(final(events)@) == inference_events(old(events)@) + seq![
            SpecInferenceEvent::Ask { rule: rule_for(*expr), expr: *expr },
        ],
{
    emit(events, InferenceEvent::Ask { rule: inference_rule(expr), expr });
    facts.find_answer(expr.span)
}

fn ask_name<'a>(
    name: &'a str,
    span: Span,
    facts: &InferenceFacts,
    events: &mut Vec<InferenceEvent<'a>>,
) -> (ty: Type)
    ensures
        ty@ == facts.answer(span),
        inference_events(final(events)@) == inference_events(old(events)@) + seq![
            SpecInferenceEvent::AskName { name: name@, span },
        ],
{
    emit(events, InferenceEvent::AskName { name, span });
    facts.find_answer(span)
}

/// Infer the type of an expression.
pub fn infer<'a>(
    expr: &'a Expr,
    facts: &InferenceFacts,
    fresh: &mut Fresh,
    events: &mut Vec<InferenceEvent<'a>>,
) -> (ty: Type)
    ensures
        ty@ == inferred(*expr, *facts, *old(fresh)).ty,
        inference_events(final(events)@) == inference_events(old(events)@) + inferred(
            *expr,
            *facts,
            *old(fresh),
        ).events,
        *final(fresh) == inferred(*expr, *facts, *old(fresh)).fresh,
    decreases expr, 2nat, 0nat,
{
    let ghost before = inference_events(events@);
    let ghost whole = inferred(*expr, *facts, *fresh);
    let ty = infer_kind(expr, facts, fresh, events);
    emit(events, InferenceEvent::Record { span: expr.span, ty: ty.clone() });
    assert(inference_events(events@) =~= before + whole.events);
    ty
}

#[verifier::rlimit(40)]
fn infer_kind<'a>(
    expr: &'a Expr,
    facts: &InferenceFacts,
    fresh: &mut Fresh,
    events: &mut Vec<InferenceEvent<'a>>,
) -> (ty: Type)
    ensures
        ty@ == inferred_kind(*expr, *facts, *old(fresh)).ty,
        inference_events(final(events)@) == inference_events(old(events)@) + inferred_kind(
            *expr,
            *facts,
            *old(fresh),
        ).events,
        *final(fresh) == inferred_kind(*expr, *facts, *old(fresh)).fresh,
    decreases expr, 1nat, 0nat,
{
    let ghost before = inference_events(events@);
    assert(before + Seq::<SpecInferenceEvent>::empty() =~= before);
    match &expr.kind {
        ExprKind::Literal(literal) => if matches!(literal, Literal::Regex(_)) {
            Type::Deferred
        } else {
            open_literal_variant(literal, fresh)
        },
        ExprKind::Undefined => named_builtin("Undefined"),
        ExprKind::Null => named_builtin("Null"),
        ExprKind::Tag(name) => tag_type(name),
        ExprKind::ComptimeName(name) => ask_name(name.as_str(), expr.span, facts, events),
        ExprKind::Name(name) => ask_name(name.as_str(), expr.span, facts, events),
        ExprKind::Group(inner) => infer(inner, facts, fresh, events),
        ExprKind::Tuple(elements) => Type::Tuple(infer_list(elements, facts, fresh, events)),
        ExprKind::Array(entries) => infer_array(entries, facts, fresh, events),
        ExprKind::SetLiteral(entries) => infer_set(entries, facts, fresh, events),
        ExprKind::Record(entries) => if literal_record_value(entries).is_some() {
            infer_fields(entries, facts, fresh, events)
        } else {
            ask(expr, facts, events)
        },
        ExprKind::Interpolation(segments) => infer_interpolation(segments, facts, fresh, events),
        ExprKind::Missing => Type::Deferred,
        ExprKind::PrimitiveFamily { .. } => Type::Deferred,
        ExprKind::Optional(_) => Type::Deferred,
        ExprKind::Nullable(_) => Type::Deferred,
        ExprKind::NonNull(_) => Type::Deferred,
        ExprKind::Arrow { .. } => Type::Deferred,
        ExprKind::Binary { .. } => infer_operator(expr, facts, fresh, events),
        ExprKind::Unary { .. } => infer_operator(expr, facts, fresh, events),
        ExprKind::Propagate { .. } => infer_operator(expr, facts, fresh, events),
        ExprKind::Index { .. } => infer_operator(expr, facts, fresh, events),
        ExprKind::Call { .. } => infer_compound(expr, facts, fresh, events),
        ExprKind::FieldAccess { .. } => infer_compound(expr, facts, fresh, events),
        ExprKind::Match { .. } => infer_compound(expr, facts, fresh, events),
        ExprKind::Lambda { .. } => infer_compound(expr, facts, fresh, events),
        _ => ask(expr, facts, events),
    }
}

#[verifier::rlimit(40)]
fn infer_operator<'a>(
    expr: &'a Expr,
    facts: &InferenceFacts,
    fresh: &mut Fresh,
    events: &mut Vec<InferenceEvent<'a>>,
) -> (ty: Type)
    requires
        expr.kind is Binary || expr.kind is Unary || expr.kind is Propagate || expr.kind is Index,
    ensures
        ty@ == inferred_kind(*expr, *facts, *old(fresh)).ty,
        inference_events(final(events)@) == inference_events(old(events)@) + inferred_kind(
            *expr,
            *facts,
            *old(fresh),
        ).events,
        *final(fresh) == inferred_kind(*expr, *facts, *old(fresh)).fresh,
    decreases expr, 0nat, 0nat,
{
    let ghost before = inference_events(events@);
    assert(before + Seq::<SpecInferenceEvent>::empty() =~= before);
    match &expr.kind {
        ExprKind::Binary { left, operator, operator_span, right } => match facts.find_rule(
            expr.span,
        ) {
            Some(RuleFacts::Binary(known)) => if is_pipe(operator.as_str(), known) {
                ask(expr, facts, events)
            } else {
                let left_type = infer(left, facts, fresh, events);
                let right_type = infer(right, facts, fresh, events);
                let operation = Operation {
                    operator: operator.as_str(),
                    operator_span: *operator_span,
                    left,
                    right,
                    left_type: &left_type,
                    right_type: &right_type,
                };
                let (ty, event) = rule_binary(&operation, known, fresh);
                apply_rule(events, expr.span, ty, event)
            },
            _ => ask(expr, facts, events),
        },
        ExprKind::Unary { operator, value, operator_span: _ } => match facts.find_rule(expr.span) {
            Some(RuleFacts::Unary(known)) => {
                infer(value, facts, fresh, events);
                let (ty, event) = rule_unary(
                    operator.as_str(),
                    known,
                    &facts.definitions,
                    fresh,
                );
                apply_rule(events, expr.span, ty, event)
            },
            _ => ask(expr, facts, events),
        },
        ExprKind::Propagate { value, mode, operator_span: _ } => match facts.find_rule(expr.span) {
            Some(RuleFacts::Propagate(known)) => {
                infer(value, facts, fresh, events);
                let (ty, event) = rule_propagate(normalize(known, &facts.definitions), *mode);
                assert(Ruled { ty: ty@, event: event@, fresh: *fresh } == propagate_ruled(
                    normal_form(known@, type_map_view(facts.definitions@)),
                    *mode,
                    *fresh,
                ));
                apply_rule(events, expr.span, ty, event)
            },
            _ => ask(expr, facts, events),
        },
        ExprKind::Index { callee, args } => match facts.find_rule(expr.span) {
            Some(RuleFacts::Index(known)) => if args.len() != 1 {
                Type::Deferred
            } else {
                infer(callee, facts, fresh, events);
                match plan_index(known, &facts.definitions, &args[0]) {
                    IndexPlan::Argument { index, ty } => {
                        let mut types = infer_list(args, facts, fresh, events);
                        assert(types_view(types@).len() == types@.len());
                        assert(types_view(types@)[0] == types@[0]@);
                        let actual = types.remove(0);
                        let event = RuleEvent::Argument { expected: index, actual };
                        apply_rule(events, expr.span, ty, event)
                    },
                    IndexPlan::Known { ty, finding } => apply_rule(
                        events,
                        expr.span,
                        ty,
                        RuleEvent::Indexed(finding),
                    ),
                }
            },
            _ => ask(expr, facts, events),
        },
        _ => Type::Deferred,
    }
}

#[verifier::rlimit(40)]
fn infer_compound<'a>(
    expr: &'a Expr,
    facts: &InferenceFacts,
    fresh: &mut Fresh,
    events: &mut Vec<InferenceEvent<'a>>,
) -> (ty: Type)
    requires
        expr.kind is Call || expr.kind is FieldAccess || expr.kind is Match || expr.kind is Lambda,
    ensures
        ty@ == inferred_kind(*expr, *facts, *old(fresh)).ty,
        inference_events(final(events)@) == inference_events(old(events)@) + inferred_kind(
            *expr,
            *facts,
            *old(fresh),
        ).events,
        *final(fresh) == inferred_kind(*expr, *facts, *old(fresh)).fresh,
    decreases expr, 0nat, 0nat,
{
    let ghost before = inference_events(events@);
    assert(before + Seq::<SpecInferenceEvent>::empty() =~= before);
    match &expr.kind {
        ExprKind::Call { callee, args } => match facts.find_rule(expr.span) {
            Some(RuleFacts::Call(known)) => {
                infer(callee, facts, fresh, events);
                let given = infer_list(args, facts, fresh, events);
                let (ty, event) = rule_call(callee, given, known, fresh);
                apply_rule(events, expr.span, ty, event)
            },
            Some(RuleFacts::Constructor(payload)) => match &callee.kind {
                ExprKind::Tag(tag) => if payload.len() == args.len() {
                    let count = count_looked_at(payload);
                    infer_first(args, count, facts, fresh, events);
                    infer_variant_constructor(tag.as_str(), copy_types(payload))
                } else {
                    ask(expr, facts, events)
                },
                _ => ask(expr, facts, events),
            },
            _ => ask(expr, facts, events),
        },
        ExprKind::Match { subject, arms } => match facts.find_rule(expr.span) {
            Some(RuleFacts::Match(known)) => if arms.len() == 0 {
                Type::Deferred
            } else if known.bodies.len() != arms.len() {
                ask(expr, facts, events)
            } else {
                infer(subject, facts, fresh, events);
                match known.selected {
                    Some(arm) => infer_arm(arms, arm, facts, fresh, events),
                    None => {
                        infer_arms(arms, facts, fresh, events);
                        let (ty, event) = rule_match(&known.bodies, fresh);
                        apply_rule(events, expr.span, ty, event)
                    },
                }
            },
            _ => ask(expr, facts, events),
        },
        ExprKind::Lambda { params, body, return_annotation: _, requirements: _ } =>
            match facts.find_rule(expr.span) {
            Some(RuleFacts::Lambda(known)) => if known.annotations.len() != params.len() {
                ask(expr, facts, events)
            } else {
                let types = infer_params(params, known, facts, fresh, events);
                let inside = infer(body, facts, fresh, events);
                let found = match &known.body {
                    Some(ty) => ty.clone(),
                    None => inside,
                };
                let result = lambda_result_type(
                    copy_type(&known.annotation),
                    found,
                    known.fits,
                    &known.resolved_body,
                    &known.resolved_annotation,
                );
                infer_lambda(params, types, result)
            },
            _ => ask(expr, facts, events),
        },
        ExprKind::FieldAccess { receiver, field, null_safe, field_span: _ } => match facts.find_rule(
            expr.span,
        ) {
            Some(RuleFacts::Field(known)) => {
                infer(receiver, facts, fresh, events);
                let (ty, event) = rule_field(
                    field.as_str(),
                    *null_safe,
                    known,
                    &facts.definitions,
                    fresh,
                );
                apply_rule(events, expr.span, ty, event)
            },
            _ => ask(expr, facts, events),
        },
        _ => Type::Deferred,
    }
}

fn apply_rule<'a>(
    events: &mut Vec<InferenceEvent<'a>>,
    span: Span,
    ty: Type,
    event: RuleEvent,
) -> (whole: Type)
    ensures
        whole@ == ty@,
        inference_events(final(events)@) == inference_events(old(events)@) + seq![
            SpecInferenceEvent::Rule { span, event: event@ },
        ],
{
    emit(events, InferenceEvent::Rule { span, event });
    ty
}

fn infer_list<'a>(
    items: &'a Vec<Expr>,
    facts: &InferenceFacts,
    fresh: &mut Fresh,
    events: &mut Vec<InferenceEvent<'a>>,
) -> (types: Vec<Type>)
    ensures
        ({
            let whole = inferred_all(items@, *facts, *old(fresh), items@.len());
            &&& types_view(types@) == whole.types
            &&& inference_events(final(events)@) == inference_events(old(events)@)
                + whole.events
            &&& *final(fresh) == whole.fresh
        }),
    decreases items, 1nat, 0nat,
{
    infer_first(items, items.len(), facts, fresh, events)
}

fn infer_first<'a>(
    items: &'a Vec<Expr>,
    count: usize,
    facts: &InferenceFacts,
    fresh: &mut Fresh,
    events: &mut Vec<InferenceEvent<'a>>,
) -> (types: Vec<Type>)
    requires
        count <= items.len(),
    ensures
        ({
            let whole = inferred_all(items@, *facts, *old(fresh), count as nat);
            &&& types_view(types@) == whole.types
            &&& inference_events(final(events)@) == inference_events(old(events)@)
                + whole.events
            &&& *final(fresh) == whole.fresh
        }),
    decreases items, 0nat, 0nat,
{
    let ghost before = inference_events(events@);
    let ghost first = *fresh;
    let mut types: Vec<Type> = Vec::new();
    let mut index: usize = 0;
    assert(types_view(types@) =~= Seq::empty());
    assert(before + Seq::<SpecInferenceEvent>::empty() =~= before);
    while index < count
        invariant
            index <= count <= items.len(),
            before == inference_events(old(events)@),
            first == *old(fresh),
            ({
                let whole = inferred_all(items@, *facts, first, index as nat);
                &&& types_view(types@) == whole.types
                &&& inference_events(events@) == before + whole.events
                &&& *fresh == whole.fresh
            }),
        decreases count - index,
    {
        let ghost earlier = types_view(types@);
        let ty = infer(&items[index], facts, fresh, events);
        types.push(ty);
        assert(types_view(types@) =~= earlier.push(ty@));
        assert(inference_events(events@) =~= before + inferred_all(
            items@,
            *facts,
            first,
            (index + 1) as nat,
        ).events);
        index += 1;
    }
    types
}

fn infer_arm<'a>(
    arms: &'a Vec<MatchArm>,
    arm: usize,
    facts: &InferenceFacts,
    fresh: &mut Fresh,
    events: &mut Vec<InferenceEvent<'a>>,
) -> (ty: Type)
    ensures
        ({
            let whole = inferred_arm(arms@, *facts, *old(fresh), arm as int);
            &&& ty@ == whole.ty
            &&& inference_events(final(events)@) == inference_events(old(events)@) + whole.events
            &&& *final(fresh) == whole.fresh
        }),
    decreases arms, 0nat, 0nat,
{
    let ghost before = inference_events(events@);
    assert(before + Seq::<SpecInferenceEvent>::empty() =~= before);
    if arm >= arms.len() {
        return Type::Deferred;
    }
    let pattern: &'a Expr = &arms[arm].pattern;
    let body: &'a Expr = &arms[arm].body;
    emit(events, InferenceEvent::Bind { pattern });
    infer(body, facts, fresh, events)
}

fn infer_arms<'a>(
    arms: &'a Vec<MatchArm>,
    facts: &InferenceFacts,
    fresh: &mut Fresh,
    events: &mut Vec<InferenceEvent<'a>>,
)
    ensures
        ({
            let whole = inferred_arms(arms@, *facts, *old(fresh), arms@.len());
            &&& inference_events(final(events)@) == inference_events(old(events)@) + whole.events
            &&& *final(fresh) == whole.fresh
        }),
    decreases arms, 1nat, 0nat,
{
    let ghost before = inference_events(events@);
    let ghost first = *fresh;
    let mut index: usize = 0;
    assert(before + Seq::<SpecInferenceEvent>::empty() =~= before);
    while index < arms.len()
        invariant
            index <= arms.len(),
            before == inference_events(old(events)@),
            first == *old(fresh),
            ({
                let whole = inferred_arms(arms@, *facts, first, index as nat);
                &&& inference_events(events@) == before + whole.events
                &&& *fresh == whole.fresh
            }),
        decreases arms.len() - index,
    {
        infer_arm(arms, index, facts, fresh, events);
        assert(inference_events(events@) =~= before + inferred_arms(
            arms@,
            *facts,
            first,
            (index + 1) as nat,
        ).events);
        index += 1;
    }
}

fn infer_params<'a>(
    params: &'a Vec<Param>,
    known: &LambdaUse,
    facts: &InferenceFacts,
    fresh: &mut Fresh,
    events: &mut Vec<InferenceEvent<'a>>,
) -> (types: Vec<Type>)
    requires
        known.annotations@.len() == params@.len(),
    ensures
        ({
            let whole = inferred_params(params@, *known, *facts, *old(fresh), params@.len());
            &&& types_view(types@) == whole.types
            &&& inference_events(final(events)@) == inference_events(old(events)@) + whole.events
            &&& *final(fresh) == whole.fresh
        }),
    decreases params, 0nat, 0nat,
{
    let ghost before = inference_events(events@);
    let ghost first = *fresh;
    let mut types: Vec<Type> = Vec::new();
    let mut index: usize = 0;
    assert(types_view(types@) =~= Seq::empty());
    assert(before + Seq::<SpecInferenceEvent>::empty() =~= before);
    while index < params.len()
        invariant
            index <= params.len(),
            known.annotations@.len() == params@.len(),
            before == inference_events(old(events)@),
            first == *old(fresh),
            ({
                let whole = inferred_params(params@, *known, *facts, first, index as nat);
                &&& types_view(types@) == whole.types
                &&& inference_events(events@) == before + whole.events
                &&& *fresh == whole.fresh
            }),
        decreases params.len() - index,
    {
        let ghost earlier = types_view(types@);
        let ghost whole = inferred_params(params@, *known, *facts, first, (index + 1) as nat);
        let param = &params[index];
        let annotated = param.annotation.is_some();
        let ty = if annotated {
            match &known.annotations[index] {
                Some(ty) => ty.clone(),
                None => Type::Deferred,
            }
        } else {
            Type::Meta(fresh.take_meta())
        };
        if let Some(default) = &param.default {
            if annotated {
                emit(events, InferenceEvent::CheckDefault { expected: ty.clone(), value: default });
            } else {
                let value = infer(default, facts, fresh, events);
                emit(
                    events,
                    InferenceEvent::Unify { whole: ty.clone(), part: value, span: default.span },
                );
            }
        }
        emit(events, InferenceEvent::BindName { name: param.name.as_str(), ty: ty.clone() });
        types.push(ty);
        assert(types_view(types@) =~= earlier.push(ty@));
        assert(inference_events(events@) =~= before + whole.events);
        index += 1;
    }
    types
}

/// Infer the type of an interpolated text.
pub fn infer_interpolation<'a>(
    segments: &'a Vec<InterpolationSegment>,
    facts: &InferenceFacts,
    fresh: &mut Fresh,
    events: &mut Vec<InferenceEvent<'a>>,
) -> (ty: Type)
    ensures
        ty@ == SpecType::Named("Text"@),
        ({
            let whole = inferred_segments(segments@, *facts, *old(fresh), segments@.len());
            &&& inference_events(final(events)@) == inference_events(old(events)@)
                + whole.events
            &&& *final(fresh) == whole.fresh
        }),
    decreases segments, 0nat, 0nat,
{
    let ghost before = inference_events(events@);
    let ghost first = *fresh;
    let mut index: usize = 0;
    assert(before + Seq::<SpecInferenceEvent>::empty() =~= before);
    while index < segments.len()
        invariant
            index <= segments.len(),
            before == inference_events(old(events)@),
            first == *old(fresh),
            ({
                let whole = inferred_segments(segments@, *facts, first, index as nat);
                &&& inference_events(events@) == before + whole.events
                &&& *fresh == whole.fresh
            }),
        decreases segments.len() - index,
    {
        match &segments[index] {
            InterpolationSegment::Text(_) => {},
            InterpolationSegment::Expr(expr) => {
                infer(expr, facts, fresh, events);
            },
        }
        assert(inference_events(events@) =~= before + inferred_segments(
            segments@,
            *facts,
            first,
            (index + 1) as nat,
        ).events);
        index += 1;
    }
    named_builtin("Text")
}

fn infer_fields<'a>(
    entries: &'a Vec<RecordEntry>,
    facts: &InferenceFacts,
    fresh: &mut Fresh,
    events: &mut Vec<InferenceEvent<'a>>,
) -> (ty: Type)
    requires
        lists_fields(entries@),
    ensures
        ({
            let whole = inferred_fields(entries@, *facts, *old(fresh), entries@.len());
            &&& ty@ == SpecType::Record(
                SpecRow { entries: whole.entries, tail: RowTail::Closed },
            )
            &&& inference_events(final(events)@) == inference_events(old(events)@)
                + whole.events
            &&& *final(fresh) == whole.fresh
        }),
    decreases entries, 0nat, 0nat,
{
    let ghost before = inference_events(events@);
    let ghost first = *fresh;
    let mut fields: Vec<RowEntry> = Vec::new();
    let mut index: usize = 0;
    assert(entries_view(fields@) =~= Seq::empty());
    assert(before + Seq::<SpecInferenceEvent>::empty() =~= before);
    while index < entries.len()
        invariant
            index <= entries.len(),
            lists_fields(entries@),
            before == inference_events(old(events)@),
            first == *old(fresh),
            ({
                let whole = inferred_fields(entries@, *facts, first, index as nat);
                &&& entries_view(fields@) == whole.entries
                &&& inference_events(events@) == before + whole.events
                &&& *fresh == whole.fresh
            }),
        decreases entries.len() - index,
    {
        assert(adds_field(entries@[index as int]));
        let ghost earlier = entries_view(fields@);
        match &entries[index] {
            RecordEntry::Field { name, value, .. } => {
                let ty = infer(value, facts, fresh, events);
                fields.push(RowEntry::Field { name: name.clone(), ty });
                assert(entries_view(fields@) =~= earlier.push(
                    SpecRowEntry::Field { name: name@, ty: ty@ },
                ));
            },
            RecordEntry::Shorthand { name, name_span, .. } => {
                let ty = ask_name(name.as_str(), *name_span, facts, events);
                fields.push(RowEntry::Field { name: name.clone(), ty });
                assert(entries_view(fields@) =~= earlier.push(
                    SpecRowEntry::Field { name: name@, ty: ty@ },
                ));
            },
            _ => {},
        }
        assert(inference_events(events@) =~= before + inferred_fields(
            entries@,
            *facts,
            first,
            (index + 1) as nat,
        ).events);
        index += 1;
    }
    let row = Row { entries: fields, tail: RowTail::Closed };
    assert(row@.entries == entries_view(row.entries@));
    assert(row@.tail == RowTail::Closed);
    Type::Record(row)
}

/// Infer the type of an array.
pub fn infer_array<'a>(
    entries: &'a Vec<RecordEntry>,
    facts: &InferenceFacts,
    fresh: &mut Fresh,
    events: &mut Vec<InferenceEvent<'a>>,
) -> (ty: Type)
    ensures
        ({
            let whole = collected(entries@, "Array"@, *facts, *old(fresh));
            &&& ty@ == whole.ty
            &&& inference_events(final(events)@) == inference_events(old(events)@)
                + whole.events
            &&& *final(fresh) == whole.fresh
        }),
    decreases entries, 1nat, 0nat,
{
    infer_collection_entries(entries, "Array", facts, fresh, events)
}

/// Infer the type of a set.
pub fn infer_set<'a>(
    entries: &'a Vec<RecordEntry>,
    facts: &InferenceFacts,
    fresh: &mut Fresh,
    events: &mut Vec<InferenceEvent<'a>>,
) -> (ty: Type)
    ensures
        ({
            let whole = collected(entries@, "Set"@, *facts, *old(fresh));
            &&& ty@ == whole.ty
            &&& inference_events(final(events)@) == inference_events(old(events)@)
                + whole.events
            &&& *final(fresh) == whole.fresh
        }),
    decreases entries, 1nat, 0nat,
{
    infer_collection_entries(entries, "Set", facts, fresh, events)
}

/// Infer the type of a collection from its elements and spreads.
pub fn infer_collection_entries<'a>(
    entries: &'a Vec<RecordEntry>,
    constructor: &str,
    facts: &InferenceFacts,
    fresh: &mut Fresh,
    events: &mut Vec<InferenceEvent<'a>>,
) -> (ty: Type)
    ensures
        ({
            let whole = collected(entries@, constructor@, *facts, *old(fresh));
            &&& ty@ == whole.ty
            &&& inference_events(final(events)@) == inference_events(old(events)@)
                + whole.events
            &&& *final(fresh) == whole.fresh
        }),
    decreases entries, 0nat, 0nat,
{
    let ghost before = inference_events(events@);
    let ghost started = fresh.after_meta();
    let meta = fresh.take_meta();
    let mut index: usize = 0;
    assert(before + Seq::<SpecInferenceEvent>::empty() =~= before);
    while index < entries.len()
        invariant
            index <= entries.len(),
            before == inference_events(old(events)@),
            meta == old(fresh).meta,
            started == old(fresh).after_meta(),
            ({
                let whole = inferred_elements(
                    entries@,
                    constructor@,
                    meta,
                    *facts,
                    started,
                    index as nat,
                );
                &&& whole.fits
                &&& inference_events(events@) == before + whole.events
                &&& *fresh == whole.fresh
            }),
        decreases entries.len() - index,
    {
        let ghost now = inferred_elements(
            entries@,
            constructor@,
            meta,
            *facts,
            started,
            (index + 1) as nat,
        );
        let fits = match &entries[index] {
            RecordEntry::Element(element) => {
                let part = infer(element, facts, fresh, events);
                emit(
                    events,
                    InferenceEvent::Unify { whole: Type::Meta(meta), part, span: element.span },
                );
                !facts.is_misfit(element.span)
            },
            RecordEntry::Spread { value, .. } => {
                let part = infer(value, facts, fresh, events);
                let whole = collection_type(constructor, meta);
                emit(events, InferenceEvent::Unify { whole, part, span: value.span });
                !facts.is_misfit(value.span)
            },
            _ => false,
        };
        assert(inference_events(events@) =~= before + now.events);
        if !fits {
            proof {
                misfits_end_a_collection(
                    entries@,
                    constructor@,
                    meta,
                    *facts,
                    started,
                    (index + 1) as nat,
                    entries@.len(),
                );
            }
            return Type::Deferred;
        }
        index += 1;
    }
    collection_type(constructor, meta)
}

proof fn misfits_end_a_collection(
    entries: Seq<RecordEntry>,
    constructor: Seq<char>,
    meta: u32,
    facts: InferenceFacts,
    fresh: Fresh,
    count: nat,
    more: nat,
)
    requires
        !inferred_elements(entries, constructor, meta, facts, fresh, count).fits,
        count <= more <= entries.len(),
    ensures
        inferred_elements(entries, constructor, meta, facts, fresh, more) == inferred_elements(
            entries,
            constructor,
            meta,
            facts,
            fresh,
            count,
        ),
    decreases more,
{
    if count < more {
        misfits_end_a_collection(
            entries,
            constructor,
            meta,
            facts,
            fresh,
            count,
            (more - 1) as nat,
        );
    }
}

/// Infer the element types of a union of sets: a set stands for its elements, and
/// another operand for itself. The types are given with whether each part is an
/// element, in normal form.
pub fn infer_set_union(parts: Vec<(Type, bool)>) -> (types: Vec<Type>)
    ensures
        types.len() == parts.len(),
        forall|i: int|
            0 <= i < parts.len() ==> (#[trigger] types@[i])@ == union_part_type(
                parts@[i].0@,
                parts@[i].1,
            ),
{
    let mut types: Vec<Type> = Vec::new();
    let mut index: usize = 0;
    while index < parts.len()
        invariant
            index <= parts.len(),
            types.len() == index,
            forall|i: int|
                0 <= i < index ==> (#[trigger] types@[i])@ == union_part_type(
                    parts@[i].0@,
                    parts@[i].1,
                ),
        decreases parts.len() - index,
    {
        types.push(infer_set_union_part_type(&parts[index].0, parts[index].1));
        index += 1;
    }
    types
}

/// The element type that a part of a union of sets brings.
pub open spec fn union_part_type(ty: SpecType, is_element: bool) -> SpecType {
    match crate::values::element_of(ty, "Set"@) {
        Some(element) => if is_element {
            ty
        } else {
            element
        },
        None => ty,
    }
}

/// Find the element type that a part of a union of sets brings.
pub fn infer_set_union_part_type(ty: &Type, is_element: bool) -> (element: Type)
    ensures
        element@ == union_part_type(ty@, is_element),
{
    if !is_element {
        if let Type::Apply { callee, args } = ty {
            assert(types_view(args@).len() == args.len());
            if args.len() == 1 && crate::type_ops::is_named(callee, "Set") {
                assert(types_view(args@)[0] == args@[0]@);
                return args[0].clone();
            }
        }
    }
    ty.clone()
}

// ---------------------------------------------------------------------------
// Functions
// ---------------------------------------------------------------------------
/// The position of the first parameter with a default, from a position on.
pub open spec fn first_default(params: Seq<Param>, from: int) -> int
    decreases params.len() - from,
{
    if from >= params.len() || params[from].default is Some {
        from
    } else {
        first_default(params, from + 1)
    }
}

/// How many arguments a function needs: its parameters up to the first with a
/// default.
pub fn required_arity(params: &Vec<Param>) -> (required: usize)
    ensures
        required == first_default(params@, 0),
        required <= params.len(),
{
    let mut index: usize = 0;
    while index < params.len() && params[index].default.is_none()
        invariant
            index <= params.len(),
            first_default(params@, 0) == first_default(params@, index as int),
        decreases params.len() - index,
    {
        index += 1;
    }
    index
}

/// What is done for a parameter before the body of a function is looked at.
#[derive(Debug)]
#[allow(inconsistent_fields)]
pub enum ParamStep<'a> {
    /// The parameter has the type of its annotation.
    Annotated(&'a Expr),
    /// The type of the parameter is not known yet.
    Unknown,
    /// The default is held against the annotation.
    CheckDefault(&'a Expr),
    /// The type of the default is unified with that of the parameter.
    UnifyDefault(&'a Expr),
    /// The name is bound to the type.
    Bind(&'a str),
}

/// What is done for a parameter.
#[allow(inconsistent_fields)]
pub ghost enum SpecParamStep {
    Annotated(Expr),
    Unknown,
    CheckDefault(Expr),
    UnifyDefault(Expr),
    Bind(Seq<char>),
}

impl ParamStep<'_> {
    pub open spec fn view(&self) -> SpecParamStep {
        match self {
            ParamStep::Annotated(expr) => SpecParamStep::Annotated(**expr),
            ParamStep::Unknown => SpecParamStep::Unknown,
            ParamStep::CheckDefault(expr) => SpecParamStep::CheckDefault(**expr),
            ParamStep::UnifyDefault(expr) => SpecParamStep::UnifyDefault(**expr),
            ParamStep::Bind(name) => SpecParamStep::Bind(name@),
        }
    }
}

pub open spec fn param_steps_view(steps: Seq<ParamStep<'_>>) -> Seq<SpecParamStep> {
    Seq::new(steps.len(), |i: int| steps[i]@)
}

/// What is done for one parameter, in order. Its default cannot refer to it.
pub open spec fn steps_for(param: Param) -> Seq<SpecParamStep> {
    (match param.annotation {
        Some(annotation) => seq![SpecParamStep::Annotated(*annotation)],
        None => seq![SpecParamStep::Unknown],
    }) + (match param.default {
        Some(default) => if param.annotation is Some {
            seq![SpecParamStep::CheckDefault(*default)]
        } else {
            seq![SpecParamStep::UnifyDefault(*default)]
        },
        None => Seq::empty(),
    }) + seq![SpecParamStep::Bind(param.name@)]
}

/// What is done for the first parameters, in order.
pub open spec fn param_steps(params: Seq<Param>, count: nat) -> Seq<SpecParamStep>
    decreases count,
{
    if count == 0 || count > params.len() {
        Seq::empty()
    } else {
        param_steps(params, (count - 1) as nat) + steps_for(params[count - 1])
    }
}

/// List what is done for the parameters of a function, in order.
pub fn lambda_param_steps<'a>(params: &'a Vec<Param>) -> (steps: Vec<ParamStep<'a>>)
    ensures
        param_steps_view(steps@) == param_steps(params@, params@.len()),
{
    let mut steps: Vec<ParamStep<'a>> = Vec::new();
    let mut index: usize = 0;
    assert(param_steps_view(steps@) =~= Seq::empty());
    while index < params.len()
        invariant
            index <= params.len(),
            param_steps_view(steps@) == param_steps(params@, index as nat),
        decreases params.len() - index,
    {
        let ghost earlier = param_steps_view(steps@);
        let param = &params[index];
        match &param.annotation {
            Some(annotation) => {
                steps.push(ParamStep::Annotated(annotation));
            },
            None => {
                steps.push(ParamStep::Unknown);
            },
        }
        if let Some(default) = &param.default {
            if param.annotation.is_some() {
                steps.push(ParamStep::CheckDefault(default));
            } else {
                steps.push(ParamStep::UnifyDefault(default));
            }
        }
        steps.push(ParamStep::Bind(param.name.as_str()));
        assert(param_steps_view(steps@) =~= earlier + steps_for(*param));
        index += 1;
    }
    steps
}

/// The result type of a function. An annotation counts where the body fits it, and
/// where one of the two is known; otherwise nothing is known.
pub open spec fn function_result(
    annotation: Option<SpecType>,
    body: SpecType,
    fits: bool,
    resolved_body: SpecType,
    resolved_annotation: SpecType,
) -> SpecType {
    match annotation {
        None => body,
        Some(expected) => if fits || resolved(resolved_body) || resolved(resolved_annotation) {
            expected
        } else {
            SpecType::Deferred
        },
    }
}

/// Find the result type of a function. The resolved types are in normal form.
pub fn lambda_result_type(
    annotation: Option<Type>,
    body: Type,
    fits: bool,
    resolved_body: &Type,
    resolved_annotation: &Type,
) -> (result: Type)
    ensures
        result@ == function_result(
            crate::rows::owned_type_view(annotation),
            body@,
            fits,
            resolved_body@,
            resolved_annotation@,
        ),
{
    match annotation {
        None => body,
        Some(expected) => if fits || is_resolved_value_type(resolved_body)
            || is_resolved_value_type(resolved_annotation) {
            expected
        } else {
            Type::Deferred
        },
    }
}

/// Build the type of a function from the types of its parameters and its result.
pub fn infer_lambda(params: &Vec<Param>, types: Vec<Type>, result: Type) -> (ty: Type)
    ensures
        ty@ == (SpecType::Function {
            params: types_view(types@),
            result: Box::new(result@),
            required: first_default(params@, 0) as nat,
        }),
{
    let required = required_arity(params);
    Type::Function { params: types, result: Box::new(result), required }
}

// ---------------------------------------------------------------------------
// Names
// ---------------------------------------------------------------------------
/// What is known of a local name: what it is declared as, or the scheme of its
/// value unless a part of that is unknown.
pub fn local_binding_type(declared: Option<Type>, inferred: TypeScheme) -> (
    local: crate::rows::LocalValueType)
    ensures
        local == (match declared {
            Some(ty) => crate::rows::LocalValueType::Known(ty),
            None => if crate::type_ops::some_node(
                inferred.ty@,
                crate::type_ops::is_deferred(),
            ) {
                crate::rows::LocalValueType::Unknown
            } else {
                crate::rows::LocalValueType::Scheme(inferred)
            },
        }),
{
    match declared {
        Some(ty) => crate::rows::LocalValueType::Known(ty),
        None => if type_contains_deferred(&inferred.ty) {
            crate::rows::LocalValueType::Unknown
        } else {
            crate::rows::LocalValueType::Scheme(inferred)
        },
    }
}

/// How the scheme of a top-level name is found.
#[derive(Debug)]
#[allow(inconsistent_fields)]
pub enum TopLevelStep {
    /// Nothing is bound to the name.
    Unbound,
    /// The name is being looked at: its type is not known yet.
    InProgress,
    /// The scheme was found before; its position in the list of names.
    Known,
    /// The annotation has type variables, which each use replaces.
    Declared(Type),
    /// The annotation is the type.
    Annotated(Type),
    /// The type of the value is generalized.
    InferBinding,
    /// The module exports the type.
    Imported,
    /// The type of the value is taken apart by the pattern.
    InferPattern,
}

/// What a top-level name is bound to.
#[derive(Debug)]
pub struct TopLevelFacts {
    pub is_bound: bool,
    pub is_pattern_bound: bool,
    /// The type of the annotation, if nothing is wrong with it.
    pub annotation: Option<Type>,
    /// Whether a module exports what the pattern takes.
    pub is_imported: bool,
}

/// The schemes of top-level names, and the names that are being looked at.
#[derive(Debug)]
pub struct TopLevel {
    pub memo: StringMap<TypeScheme>,
    pub in_progress: StringSet,
}

/// How the scheme of a top-level name is found.
pub open spec fn is_top_level_step(
    top: TopLevel,
    name: Seq<char>,
    facts: TopLevelFacts,
    step: TopLevelStep,
) -> bool {
    if top.memo@.contains_key(name) {
        step is Known
    } else if top.in_progress@.contains(name) {
        step is InProgress
    } else if !facts.is_bound && !facts.is_pattern_bound {
        step is Unbound
    } else {
        match facts.annotation {
            Some(ty) => if crate::type_ops::some_node(ty@, crate::type_ops::is_variable()) {
                step == TopLevelStep::Declared(ty)
            } else {
                step == TopLevelStep::Annotated(ty)
            },
            None => if facts.is_bound {
                step is InferBinding
            } else if facts.is_imported {
                step is Imported
            } else {
                step is InferPattern
            },
        }
    }
}

/// Whether the scheme of a name is looked for now.
pub open spec fn starts_search(step: TopLevelStep) -> bool {
    !(step is Known || step is InProgress || step is Unbound)
}

impl TopLevel {
    /// Decide how the scheme of a name is found, and note that it is being looked
    /// at.
    pub fn infer_top_level(&mut self, name: &str, facts: TopLevelFacts) -> (step: TopLevelStep)
        ensures
            is_top_level_step(*old(self), name@, facts, step),
            final(self).memo == old(self).memo,
            final(self).in_progress@ == if starts_search(step) {
                old(self).in_progress@.insert(name@)
            } else {
                old(self).in_progress@
            },
    {
        if self.memo.contains_key(name) {
            return TopLevelStep::Known;
        }
        if self.in_progress.contains(name) {
            return TopLevelStep::InProgress;
        }
        if !facts.is_bound && !facts.is_pattern_bound {
            return TopLevelStep::Unbound;
        }
        self.in_progress.insert(name.to_owned());
        match facts.annotation {
            Some(ty) => if type_contains_variable(&ty) {
                TopLevelStep::Declared(ty)
            } else {
                TopLevelStep::Annotated(ty)
            },
            None => if facts.is_bound {
                TopLevelStep::InferBinding
            } else if facts.is_imported {
                TopLevelStep::Imported
            } else {
                TopLevelStep::InferPattern
            },
        }
    }

    /// Note the scheme of a name that was looked for.
    pub fn finish_top_level(&mut self, name: &str, scheme: TypeScheme)
        ensures
            final(self).memo@ == old(self).memo@.insert(name@, scheme),
            final(self).in_progress@ == old(self).in_progress@.remove(name@),
    {
        self.in_progress.remove(name);
        self.memo.insert(name.to_owned(), scheme);
    }
}

/// The type of a name that a pattern binds: unknown where the pattern gives none.
pub fn pattern_bound_type(local: Option<crate::rows::LocalValueType>) -> (ty: Type)
    ensures
        ty@ == (match local {
            Some(crate::rows::LocalValueType::Known(ty)) => ty@,
            Some(crate::rows::LocalValueType::Scheme(scheme)) => scheme.ty@,
            _ => SpecType::Deferred,
        }),
{
    match local {
        Some(local) => match crate::rows::local_value_type_as_type(local) {
            Some(ty) => ty,
            None => Type::Deferred,
        },
        None => Type::Deferred,
    }
}

// ---------------------------------------------------------------------------
// Types for other modules
// ---------------------------------------------------------------------------
/// The position of a number in a list.
pub open spec fn number_position(numbers: Seq<u32>, number: u32, from: int) -> Option<int>
    decreases numbers.len() - from,
{
    if from < 0 || from >= numbers.len() {
        None
    } else if numbers[from] == number {
        Some(from)
    } else {
        number_position(numbers, number, from + 1)
    }
}

fn find_number(numbers: &Vec<u32>, number: u32) -> (position: Option<usize>)
    ensures
        match position {
            Some(position) => number_position(numbers@, number, 0) == Some(position as int),
            None => number_position(numbers@, number, 0) is None,
        },
{
    let mut index: usize = 0;
    while index < numbers.len()
        invariant
            index <= numbers.len(),
            number_position(numbers@, number, 0) == number_position(
                numbers@,
                number,
                index as int,
            ),
        decreases numbers.len() - index,
    {
        if numbers[index] == number {
            return Some(index);
        }
        index += 1;
    }
    None
}

/// A type as another module sees it: the types that each use replaces are named,
/// and the tails that each use replaces are open.
pub open spec fn exported(ty: SpecType, vars: Seq<u32>, row_vars: Seq<u32>) -> SpecType
    decreases ty,
{
    match ty {
        SpecType::Meta(id) => match number_position(vars, id, 0) {
            Some(position) => SpecType::Variable(generic_name(position as nat)),
            None => ty,
        },
        SpecType::Apply { callee, args } => SpecType::Apply {
            callee: Box::new(exported(*callee, vars, row_vars)),
            args: exported_all(args, vars, row_vars),
        },
        SpecType::Function { params, result, required } => SpecType::Function {
            params: exported_all(params, vars, row_vars),
            result: Box::new(exported(*result, vars, row_vars)),
            required,
        },
        SpecType::Optional(inner) => SpecType::Optional(
            Box::new(exported(*inner, vars, row_vars)),
        ),
        SpecType::Nullable(inner) => SpecType::Nullable(
            Box::new(exported(*inner, vars, row_vars)),
        ),
        SpecType::Tuple(items) => SpecType::Tuple(exported_all(items, vars, row_vars)),
        SpecType::Record(row) => SpecType::Record(exported_row(row, vars, row_vars)),
        SpecType::Variant(row) => SpecType::Variant(exported_row(row, vars, row_vars)),
        SpecType::SlotRecord { data, slots } => SpecType::SlotRecord {
            data: Box::new(exported_row(*data, vars, row_vars)),
            slots: Box::new(exported_row(*slots, vars, row_vars)),
        },
        _ => ty,
    }
}

pub open spec fn exported_all(types: Seq<SpecType>, vars: Seq<u32>, row_vars: Seq<u32>) -> Seq<
    SpecType,
>
    decreases types,
{
    Seq::new(
        types.len(),
        |i: int|
            if 0 <= i < types.len() {
                exported(types[i], vars, row_vars)
            } else {
                SpecType::Deferred
            },
    )
}

pub open spec fn exported_entry(
    entry: SpecRowEntry,
    vars: Seq<u32>,
    row_vars: Seq<u32>,
) -> SpecRowEntry
    decreases entry,
{
    match entry {
        SpecRowEntry::Field { name, ty } => SpecRowEntry::Field {
            name,
            ty: exported(ty, vars, row_vars),
        },
        SpecRowEntry::Tag { name, payload } => SpecRowEntry::Tag {
            name,
            payload: exported_all(payload, vars, row_vars),
        },
        SpecRowEntry::Literal { value } => SpecRowEntry::Literal { value },
    }
}

pub open spec fn exported_row(row: SpecRow, vars: Seq<u32>, row_vars: Seq<u32>) -> SpecRow
    decreases row,
{
    SpecRow {
        entries: Seq::new(
            row.entries.len(),
            |i: int|
                if 0 <= i < row.entries.len() {
                    exported_entry(row.entries[i], vars, row_vars)
                } else {
                    row.entries[i]
                },
        ),
        tail: match row.tail {
            RowTail::Var(id) => if number_position(row_vars, id, 0) is Some {
                RowTail::Open
            } else {
                row.tail
            },
            _ => row.tail,
        },
    }
}

/// Write a type as another module sees it.
pub fn export_type(ty: &Type, vars: &Vec<u32>, row_vars: &Vec<u32>) -> (seen: Type)
    ensures
        seen@ == exported(ty@, vars@, row_vars@),
    decreases ty,
{
    match ty {
        Type::Meta(id) => match find_number(vars, *id) {
            Some(position) => Type::Variable(export_generic_name(position)),
            None => Type::Meta(*id),
        },
        Type::Apply { callee, args } => Type::Apply {
            callee: Box::new(export_type(callee, vars, row_vars)),
            args: export_types(args, vars, row_vars),
        },
        Type::Function { params, result, required } => Type::Function {
            params: export_types(params, vars, row_vars),
            result: Box::new(export_type(result, vars, row_vars)),
            required: *required,
        },
        Type::Optional(inner) => Type::Optional(Box::new(export_type(inner, vars, row_vars))),
        Type::Nullable(inner) => Type::Nullable(Box::new(export_type(inner, vars, row_vars))),
        Type::Tuple(items) => Type::Tuple(export_types(items, vars, row_vars)),
        Type::Record(row) => Type::Record(export_row(row, vars, row_vars)),
        Type::Variant(row) => Type::Variant(export_row(row, vars, row_vars)),
        Type::SlotRecord { data, slots } => Type::SlotRecord {
            data: Box::new(export_row(data, vars, row_vars)),
            slots: Box::new(export_row(slots, vars, row_vars)),
        },
        other => other.clone(),
    }
}

fn export_types(types: &Vec<Type>, vars: &Vec<u32>, row_vars: &Vec<u32>) -> (seen: Vec<Type>)
    ensures
        types_view(seen@) == exported_all(types_view(types@), vars@, row_vars@),
    decreases types,
{
    let mut seen: Vec<Type> = Vec::new();
    let mut index: usize = 0;
    while index < types.len()
        invariant
            index <= types.len(),
            seen.len() == index,
            forall|i: int|
                0 <= i < index ==> (#[trigger] seen@[i])@ == exported(types@[i]@, vars@, row_vars@),
        decreases types.len() - index,
    {
        seen.push(export_type(&types[index], vars, row_vars));
        index += 1;
    }
    assert(types_view(seen@) =~= exported_all(types_view(types@), vars@, row_vars@));
    seen
}

fn export_row(row: &Row, vars: &Vec<u32>, row_vars: &Vec<u32>) -> (seen: Row)
    ensures
        seen@ == exported_row(row@, vars@, row_vars@),
    decreases row,
{
    let mut entries: Vec<RowEntry> = Vec::new();
    let mut index: usize = 0;
    assert(row@.entries == entries_view(row.entries@));
    assert(row@.tail == row.tail);
    while index < row.entries.len()
        invariant
            index <= row.entries.len(),
            entries.len() == index,
            row@.entries == entries_view(row.entries@),
            forall|i: int|
                0 <= i < index ==> (#[trigger] entries@[i])@ == exported_entry(
                    row@.entries[i],
                    vars@,
                    row_vars@,
                ),
        decreases row.entries.len() - index,
    {
        assert(row@.entries[index as int] == row.entries@[index as int]@);
        let entry = match &row.entries[index] {
            RowEntry::Field { name, ty } => RowEntry::Field {
                name: name.clone(),
                ty: export_type(ty, vars, row_vars),
            },
            RowEntry::Tag { name, payload } => RowEntry::Tag {
                name: name.clone(),
                payload: export_types(payload, vars, row_vars),
            },
            RowEntry::Literal { value } => RowEntry::Literal { value: value.clone() },
        };
        entries.push(entry);
        index += 1;
    }
    let tail = match row.tail {
        RowTail::Var(id) => if find_number(row_vars, id).is_some() {
            RowTail::Open
        } else {
            row.tail
        },
        other => other,
    };
    let seen = Row { entries, tail };
    assert(seen@.entries =~= exported_row(row@, vars@, row_vars@).entries);
    assert(seen@.tail == tail);
    seen
}

/// How the type of a top-level name is written for other modules.
#[derive(Debug)]
pub enum OutputStep {
    /// The type has variables already and is brought into normal form.
    Normalize,
    /// The type is kept if nothing in it is left open.
    KeepIfResolved,
    /// The type with what each use replaces named.
    Exported(Type),
}

/// Decide how the type of a top-level name is written for other modules.
pub fn infer_top_level_qualified_type_for_output(scheme: &TypeScheme) -> (step: OutputStep)
    ensures
        if scheme.vars@.len() == 0 && scheme.row_vars@.len() == 0 {
            if crate::type_ops::some_node(scheme.ty@, crate::type_ops::is_variable()) {
                step is Normalize
            } else {
                step is KeepIfResolved
            }
        } else {
            step is Exported && step->Exported_0@ == exported(
                scheme.ty@,
                scheme.vars@,
                scheme.row_vars@,
            )
        },
{
    if scheme.vars.len() == 0 && scheme.row_vars.len() == 0 {
        if type_contains_variable(&scheme.ty) {
            OutputStep::Normalize
        } else {
            OutputStep::KeepIfResolved
        }
    } else {
        OutputStep::Exported(export_type(&scheme.ty, &scheme.vars, &scheme.row_vars))
    }
}

// ---------------------------------------------------------------------------
// Laws
// ---------------------------------------------------------------------------
/// A name whose scheme was found is not looked for again.
pub proof fn found_names_stay_known(
    before: TopLevel,
    after: TopLevel,
    name: Seq<char>,
    scheme: TypeScheme,
    facts: TopLevelFacts,
    step: TopLevelStep,
)
    requires
        after.memo@ == before.memo@.insert(name, scheme),
        is_top_level_step(after, name, facts, step),
    ensures
        step is Known,
        after.memo@[name] == scheme,
{
}

/// A name that is being looked at is not looked at again inside, so that the search
/// ends.
pub proof fn searches_do_not_nest(
    top: TopLevel,
    name: Seq<char>,
    facts: TopLevelFacts,
    step: TopLevelStep,
)
    requires
        top.in_progress@.contains(name),
        is_top_level_step(top, name, facts, step),
    ensures
        !starts_search(step),
{
}

/// The condition of a type that each use replaces.
pub open spec fn is_quantified(vars: Seq<u32>) -> spec_fn(SpecType) -> bool {
    |node: SpecType| node is Meta && vars.contains(node->Meta_0)
}

proof fn numbers_are_found(numbers: Seq<u32>, number: u32, from: int)
    requires
        0 <= from,
        exists|i: int| from <= i < numbers.len() && numbers[i] == number,
    ensures
        number_position(numbers, number, from) is Some,
    decreases numbers.len() - from,
{
    let i = choose|i: int| from <= i < numbers.len() && numbers[i] == number;
    if numbers[from] != number {
        assert(from + 1 <= i);
        numbers_are_found(numbers, number, from + 1);
    }
}

/// In a type as another module sees it, nothing is left of the types that each use
/// replaces: all have names.
pub proof fn exports_name_what_uses_replace(ty: SpecType, vars: Seq<u32>, row_vars: Seq<u32>)
    ensures
        !some_node(exported(ty, vars, row_vars), is_quantified(vars)),
    decreases ty,
{
    let test = is_quantified(vars);
    match ty {
        SpecType::Meta(id) => {
            if vars.contains(id) {
                let i = choose|i: int| 0 <= i < vars.len() && vars[i] == id;
                numbers_are_found(vars, id, 0);
            }
            assert(!test(exported(ty, vars, row_vars)));
        },
        SpecType::Apply { callee, args } => {
            exports_name_what_uses_replace(*callee, vars, row_vars);
            exported_lists_are_named(args, vars, row_vars);
        },
        SpecType::Function { params, result, .. } => {
            exported_lists_are_named(params, vars, row_vars);
            exports_name_what_uses_replace(*result, vars, row_vars);
        },
        SpecType::Optional(inner) => {
            exports_name_what_uses_replace(*inner, vars, row_vars);
        },
        SpecType::Nullable(inner) => {
            exports_name_what_uses_replace(*inner, vars, row_vars);
        },
        SpecType::Tuple(items) => {
            exported_lists_are_named(items, vars, row_vars);
        },
        SpecType::Record(row) => {
            exported_rows_are_named(row, vars, row_vars);
        },
        SpecType::Variant(row) => {
            exported_rows_are_named(row, vars, row_vars);
        },
        SpecType::SlotRecord { data, slots } => {
            exported_rows_are_named(*data, vars, row_vars);
            exported_rows_are_named(*slots, vars, row_vars);
        },
        _ => {},
    }
}

proof fn exported_lists_are_named(types: Seq<SpecType>, vars: Seq<u32>, row_vars: Seq<u32>)
    ensures
        !some_node_in(exported_all(types, vars, row_vars), is_quantified(vars)),
    decreases types,
{
    let seen = exported_all(types, vars, row_vars);
    assert forall|i: int| 0 <= i < seen.len() implies !some_node(
        #[trigger] seen[i],
        is_quantified(vars),
    ) by {
        exports_name_what_uses_replace(types[i], vars, row_vars);
    }
}

proof fn exported_rows_are_named(row: SpecRow, vars: Seq<u32>, row_vars: Seq<u32>)
    ensures
        !some_node_in_row(exported_row(row, vars, row_vars), is_quantified(vars)),
    decreases row,
{
    let seen = exported_row(row, vars, row_vars);
    assert forall|i: int| 0 <= i < seen.entries.len() implies !some_node_in_entry(
        #[trigger] seen.entries[i],
        is_quantified(vars),
    ) by {
        match row.entries[i] {
            SpecRowEntry::Field { ty, .. } => {
                exports_name_what_uses_replace(ty, vars, row_vars);
            },
            SpecRowEntry::Tag { payload, .. } => {
                exported_lists_are_named(payload, vars, row_vars);
            },
            SpecRowEntry::Literal { .. } => {},
        }
    }
}

} // verus!
