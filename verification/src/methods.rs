//! Method signatures, requirements, and declarations.
use crate::collections::{bindings_map, StringMap, StringSet};
use crate::span::Span;
use crate::text::{clone_texts, same_texts, texts_view};
use crate::types::{clone_types, same_types, types_view, Row, SpecRow, SpecType, Type};
use vstd::prelude::*;

verus! {

/// A method that a type must have, as a declaration requires it.
#[derive(Debug)]
pub struct MethodConstraint {
    pub candidate: Type,
    pub member: String,
    pub params: Vec<Type>,
    pub result: Type,
}

/// What a method constraint says.
pub ghost struct SpecConstraint {
    pub candidate: SpecType,
    pub member: Seq<char>,
    pub params: Seq<SpecType>,
    pub result: SpecType,
}

impl MethodConstraint {
    pub open spec fn view(&self) -> SpecConstraint {
        SpecConstraint {
            candidate: self.candidate@,
            member: self.member@,
            params: types_view(self.params@),
            result: self.result@,
        }
    }
}

pub open spec fn constraints_view(constraints: Seq<MethodConstraint>) -> Seq<SpecConstraint> {
    Seq::new(constraints.len(), |i: int| constraints[i]@)
}

impl Clone for MethodConstraint {
    fn clone(&self) -> (copied: MethodConstraint)
        ensures
            copied@ == self@,
    {
        MethodConstraint {
            candidate: self.candidate.clone(),
            member: self.member.clone(),
            params: clone_types(&self.params),
            result: self.result.clone(),
        }
    }
}

impl MethodConstraint {
    /// Whether two constraints say the same.
    pub fn equals(&self, other: &MethodConstraint) -> (same: bool)
        ensures
            same == (self@ == other@),
    {
        self.candidate.equals(&other.candidate) && self.member == other.member && same_types(
            &self.params,
            &other.params,
        ) && self.result.equals(&other.result)
    }
}

impl PartialEq for MethodConstraint {
    fn eq(&self, other: &MethodConstraint) -> (same: bool) {
        self.equals(other)
    }
}

impl vstd::std_specs::cmp::PartialEqSpecImpl for MethodConstraint {
    open spec fn obeys_eq_spec() -> bool {
        true
    }

    open spec fn eq_spec(&self, other: &MethodConstraint) -> bool {
        self@ == other@
    }
}

impl Eq for MethodConstraint {

}

/// A copy of a list of constraints.
pub fn clone_constraints(constraints: &Vec<MethodConstraint>) -> (copied: Vec<MethodConstraint>)
    ensures
        constraints_view(copied@) == constraints_view(constraints@),
{
    let mut copied: Vec<MethodConstraint> = Vec::new();
    let mut index: usize = 0;
    while index < constraints.len()
        invariant
            index <= constraints.len(),
            copied.len() == index,
            forall|i: int| 0 <= i < index ==> (#[trigger] copied@[i])@ == constraints@[i]@,
        decreases constraints.len() - index,
    {
        copied.push(constraints[index].clone());
        index += 1;
    }
    assert(constraints_view(copied@) =~= constraints_view(constraints@));
    copied
}

/// Where a method of a named family comes from.
#[derive(Debug)]
pub enum NamedMethodOrigin {
    Declared,
    Inherited {
        base_owner: Type,
        base_member: String,
        lifted_params: Vec<bool>,
        lifted_result: bool,
    },
    Override { base_owner: Type, base_member: String },
}

/// Where a method of a named family comes from.
pub ghost enum SpecOrigin {
    Declared,
    Inherited {
        base_owner: SpecType,
        base_member: Seq<char>,
        lifted_params: Seq<bool>,
        lifted_result: bool,
    },
    Override { base_owner: SpecType, base_member: Seq<char> },
}

impl NamedMethodOrigin {
    pub open spec fn view(&self) -> SpecOrigin {
        match self {
            NamedMethodOrigin::Declared => SpecOrigin::Declared,
            NamedMethodOrigin::Inherited {
                base_owner,
                base_member,
                lifted_params,
                lifted_result,
            } => SpecOrigin::Inherited {
                base_owner: base_owner@,
                base_member: base_member@,
                lifted_params: lifted_params@,
                lifted_result: *lifted_result,
            },
            NamedMethodOrigin::Override { base_owner, base_member } => SpecOrigin::Override {
                base_owner: base_owner@,
                base_member: base_member@,
            },
        }
    }
}

fn clone_bools(values: &Vec<bool>) -> (copied: Vec<bool>)
    ensures
        copied@ == values@,
{
    let mut copied: Vec<bool> = Vec::new();
    let mut index: usize = 0;
    while index < values.len()
        invariant
            index <= values.len(),
            copied@ == values@.take(index as int),
        decreases values.len() - index,
    {
        copied.push(values[index]);
        assert(values@.take(index + 1) =~= values@.take(index as int).push(values@[index as int]));
        index += 1;
    }
    assert(values@.take(values@.len() as int) =~= values@);
    copied
}

fn same_bools(left: &Vec<bool>, right: &Vec<bool>) -> (same: bool)
    ensures
        same == (left@ == right@),
{
    if left.len() != right.len() {
        return false;
    }
    let mut index: usize = 0;
    while index < left.len()
        invariant
            index <= left.len(),
            left.len() == right.len(),
            forall|i: int| 0 <= i < index ==> left@[i] == right@[i],
        decreases left.len() - index,
    {
        if left[index] != right[index] {
            assert(left@[index as int] != right@[index as int]);
            return false;
        }
        index += 1;
    }
    assert(left@ =~= right@);
    true
}

impl NamedMethodOrigin {
    /// Whether two methods come from the same place.
    pub fn equals(&self, other: &NamedMethodOrigin) -> (same: bool)
        ensures
            same == (self@ == other@),
    {
        match (self, other) {
            (NamedMethodOrigin::Declared, NamedMethodOrigin::Declared) => true,
            (
                NamedMethodOrigin::Inherited {
                    base_owner,
                    base_member,
                    lifted_params,
                    lifted_result,
                },
                NamedMethodOrigin::Inherited {
                    base_owner: other_owner,
                    base_member: other_member,
                    lifted_params: other_params,
                    lifted_result: other_result,
                },
            ) => base_owner.equals(other_owner) && *base_member == *other_member && same_bools(
                lifted_params,
                other_params,
            ) && *lifted_result == *other_result,
            (
                NamedMethodOrigin::Override { base_owner, base_member },
                NamedMethodOrigin::Override { base_owner: other_owner, base_member: other_member },
            ) => base_owner.equals(other_owner) && *base_member == *other_member,
            _ => false,
        }
    }
}

impl Clone for NamedMethodOrigin {
    fn clone(&self) -> (copied: NamedMethodOrigin)
        ensures
            copied@ == self@,
    {
        match self {
            NamedMethodOrigin::Declared => NamedMethodOrigin::Declared,
            NamedMethodOrigin::Inherited {
                base_owner,
                base_member,
                lifted_params,
                lifted_result,
            } => NamedMethodOrigin::Inherited {
                base_owner: base_owner.clone(),
                base_member: base_member.clone(),
                lifted_params: clone_bools(lifted_params),
                lifted_result: *lifted_result,
            },
            NamedMethodOrigin::Override { base_owner, base_member } => NamedMethodOrigin::Override {
                base_owner: base_owner.clone(),
                base_member: base_member.clone(),
            },
        }
    }
}

/// A method of a named family.
#[derive(Debug)]
pub struct NamedMethodType {
    pub params: Vec<Type>,
    pub result: Type,
    pub constraints: Vec<MethodConstraint>,
    pub variables: Vec<String>,
    pub origin: NamedMethodOrigin,
}

/// What a method of a named family is.
pub ghost struct SpecMethod {
    pub params: Seq<SpecType>,
    pub result: SpecType,
    pub constraints: Seq<SpecConstraint>,
    pub variables: Seq<Seq<char>>,
    pub origin: SpecOrigin,
}

impl NamedMethodType {
    pub open spec fn view(&self) -> SpecMethod {
        SpecMethod {
            params: types_view(self.params@),
            result: self.result@,
            constraints: constraints_view(self.constraints@),
            variables: texts_view(self.variables@),
            origin: self.origin@,
        }
    }
}

impl NamedMethodType {
    /// Whether two methods say the same.
    pub fn equals(&self, other: &NamedMethodType) -> (same: bool)
        ensures
            same == (self@ == other@),
    {
        same_types(&self.params, &other.params) && self.result.equals(&other.result)
            && same_constraints(&self.constraints, &other.constraints) && same_texts(
            &self.variables,
            &other.variables,
        ) && self.origin.equals(&other.origin)
    }
}

impl Clone for NamedMethodType {
    fn clone(&self) -> (copied: NamedMethodType)
        ensures
            copied@ == self@,
    {
        NamedMethodType {
            params: clone_types(&self.params),
            result: self.result.clone(),
            constraints: clone_constraints(&self.constraints),
            variables: clone_texts(&self.variables),
            origin: self.origin.clone(),
        }
    }
}

/// What is known about the divisor of an integer division.
#[derive(Debug)]
pub struct IntegerDivisorContext {
    pub span: Span,
    pub literal_is_zero: Option<bool>,
    pub right_type: Type,
    pub parameter_index: Option<usize>,
}

/// What is known about the divisor of an integer division.
pub ghost struct SpecDivisor {
    pub span: Span,
    pub literal_is_zero: Option<bool>,
    pub right_type: SpecType,
    pub parameter_index: Option<usize>,
}

impl IntegerDivisorContext {
    pub open spec fn view(&self) -> SpecDivisor {
        SpecDivisor {
            span: self.span,
            literal_is_zero: self.literal_is_zero,
            right_type: self.right_type@,
            parameter_index: self.parameter_index,
        }
    }
}

impl Clone for IntegerDivisorContext {
    fn clone(&self) -> (copied: IntegerDivisorContext)
        ensures
            copied@ == self@,
    {
        IntegerDivisorContext {
            span: self.span,
            literal_is_zero: self.literal_is_zero,
            right_type: self.right_type.clone(),
            parameter_index: self.parameter_index,
        }
    }
}

/// A method that a type must turn out to have.
#[derive(Debug)]
pub struct MethodPredicate {
    pub candidate: Type,
    pub member: String,
    pub params: Vec<Type>,
    pub result: Type,
    pub operator_span: Span,
    pub divisor_context: Option<IntegerDivisorContext>,
    pub binding: Option<String>,
    pub call_span: Option<Span>,
    pub obligation_id: Option<usize>,
}

/// What a method predicate says.
pub ghost struct SpecPredicate {
    pub candidate: SpecType,
    pub member: Seq<char>,
    pub params: Seq<SpecType>,
    pub result: SpecType,
    pub operator_span: Span,
    pub divisor_context: Option<SpecDivisor>,
    pub binding: Option<Seq<char>>,
    pub call_span: Option<Span>,
    pub obligation_id: Option<usize>,
}

pub open spec fn divisor_view(context: Option<IntegerDivisorContext>) -> Option<SpecDivisor> {
    match context {
        Some(context) => Some(context@),
        None => None,
    }
}

pub open spec fn text_view(text: Option<String>) -> Option<Seq<char>> {
    match text {
        Some(text) => Some(text@),
        None => None,
    }
}

impl MethodPredicate {
    pub open spec fn view(&self) -> SpecPredicate {
        SpecPredicate {
            candidate: self.candidate@,
            member: self.member@,
            params: types_view(self.params@),
            result: self.result@,
            operator_span: self.operator_span,
            divisor_context: divisor_view(self.divisor_context),
            binding: text_view(self.binding),
            call_span: self.call_span,
            obligation_id: self.obligation_id,
        }
    }
}

pub open spec fn predicates_view(predicates: Seq<MethodPredicate>) -> Seq<SpecPredicate> {
    Seq::new(predicates.len(), |i: int| predicates[i]@)
}

/// A copy of an optional text.
pub fn clone_text(text: &Option<String>) -> (copied: Option<String>)
    ensures
        text_view(copied) == text_view(*text),
{
    match text {
        Some(text) => Some(text.clone()),
        None => None,
    }
}

/// A copy of an optional divisor context.
pub fn clone_divisor(context: &Option<IntegerDivisorContext>) -> (copied: Option<
    IntegerDivisorContext,
>)
    ensures
        divisor_view(copied) == divisor_view(*context),
{
    match context {
        Some(context) => Some(context.clone()),
        None => None,
    }
}

/// Whether two optional divisor contexts are the same.
pub fn same_divisor(
    left: &Option<IntegerDivisorContext>,
    right: &Option<IntegerDivisorContext>,
) -> (same: bool)
    ensures
        same == (divisor_view(*left) == divisor_view(*right)),
{
    match (left, right) {
        (None, None) => true,
        (Some(left), Some(right)) => {
            let same_literal = match (left.literal_is_zero, right.literal_is_zero) {
                (None, None) => true,
                (Some(left), Some(right)) => left == right,
                _ => false,
            };
            let same_parameter = match (left.parameter_index, right.parameter_index) {
                (None, None) => true,
                (Some(left), Some(right)) => left == right,
                _ => false,
            };
            left.span == right.span && same_literal && same_parameter && left.right_type
                == right.right_type
        },
        _ => false,
    }
}

impl Clone for MethodPredicate {
    fn clone(&self) -> (copied: MethodPredicate)
        ensures
            copied@ == self@,
    {
        MethodPredicate {
            candidate: self.candidate.clone(),
            member: self.member.clone(),
            params: clone_types(&self.params),
            result: self.result.clone(),
            operator_span: self.operator_span,
            divisor_context: clone_divisor(&self.divisor_context),
            binding: clone_text(&self.binding),
            call_span: self.call_span,
            obligation_id: self.obligation_id,
        }
    }
}

/// A copy of a list of predicates.
pub fn clone_predicates(predicates: &Vec<MethodPredicate>) -> (copied: Vec<MethodPredicate>)
    ensures
        predicates_view(copied@) == predicates_view(predicates@),
{
    let mut copied: Vec<MethodPredicate> = Vec::new();
    let mut index: usize = 0;
    while index < predicates.len()
        invariant
            index <= predicates.len(),
            copied.len() == index,
            forall|i: int| 0 <= i < index ==> (#[trigger] copied@[i])@ == predicates@[i]@,
        decreases predicates.len() - index,
    {
        copied.push(predicates[index].clone());
        index += 1;
    }
    assert(predicates_view(copied@) =~= predicates_view(predicates@));
    copied
}

/// The signature that a method has for a receiver.
#[derive(Debug)]
pub struct MethodSignature {
    pub params: Vec<Type>,
    pub result: Type,
    pub predicates: Vec<MethodPredicate>,
}

/// What a method signature is.
pub ghost struct SpecSignature {
    pub params: Seq<SpecType>,
    pub result: SpecType,
    pub predicates: Seq<SpecPredicate>,
}

impl MethodSignature {
    pub open spec fn view(&self) -> SpecSignature {
        SpecSignature {
            params: types_view(self.params@),
            result: self.result@,
            predicates: predicates_view(self.predicates@),
        }
    }
}

impl Clone for MethodSignature {
    fn clone(&self) -> (copied: MethodSignature)
        ensures
            copied@ == self@,
    {
        MethodSignature {
            params: clone_types(&self.params),
            result: self.result.clone(),
            predicates: clone_predicates(&self.predicates),
        }
    }
}

/// Whether two optional texts are the same.
pub fn same_optional_text(left: &Option<String>, right: &Option<String>) -> (same: bool)
    ensures
        same == (text_view(*left) == text_view(*right)),
{
    match (left, right) {
        (None, None) => true,
        (Some(left), Some(right)) => *left == *right,
        _ => false,
    }
}

impl PartialEq for MethodPredicate {
    fn eq(&self, other: &MethodPredicate) -> (same: bool) {
        let same_call = match (self.call_span, other.call_span) {
            (None, None) => true,
            (Some(left), Some(right)) => left == right,
            _ => false,
        };
        let same_obligation = match (self.obligation_id, other.obligation_id) {
            (None, None) => true,
            (Some(left), Some(right)) => left == right,
            _ => false,
        };
        self.candidate == other.candidate && self.member == other.member && same_types(
            &self.params,
            &other.params,
        ) && self.result == other.result && self.operator_span == other.operator_span
            && same_divisor(&self.divisor_context, &other.divisor_context) && same_optional_text(
            &self.binding,
            &other.binding,
        ) && same_call && same_obligation
    }
}

impl vstd::std_specs::cmp::PartialEqSpecImpl for MethodPredicate {
    open spec fn obeys_eq_spec() -> bool {
        true
    }

    open spec fn eq_spec(&self, other: &MethodPredicate) -> bool {
        self@ == other@
    }
}

impl Eq for MethodPredicate {

}

/// Whether two lists of predicates are equal item by item.
pub fn same_predicates(left: &Vec<MethodPredicate>, right: &Vec<MethodPredicate>) -> (same: bool)
    ensures
        same == (predicates_view(left@) == predicates_view(right@)),
{
    if left.len() != right.len() {
        assert(predicates_view(left@).len() != predicates_view(right@).len());
        return false;
    }
    let mut index: usize = 0;
    while index < left.len()
        invariant
            index <= left.len(),
            left.len() == right.len(),
            forall|i: int| 0 <= i < index ==> left@[i]@ == right@[i]@,
        decreases left.len() - index,
    {
        if left[index] != right[index] {
            assert(predicates_view(left@)[index as int] != predicates_view(right@)[index as int]);
            return false;
        }
        index += 1;
    }
    assert(predicates_view(left@) =~= predicates_view(right@));
    true
}

impl PartialEq for MethodSignature {
    fn eq(&self, other: &MethodSignature) -> (same: bool) {
        same_types(&self.params, &other.params) && self.result == other.result && same_predicates(
            &self.predicates,
            &other.predicates,
        )
    }
}

impl vstd::std_specs::cmp::PartialEqSpecImpl for MethodSignature {
    open spec fn obeys_eq_spec() -> bool {
        true
    }

    open spec fn eq_spec(&self, other: &MethodSignature) -> bool {
        self@ == other@
    }
}

impl Eq for MethodSignature {

}

/// A method attached to a builtin type.
#[derive(Debug)]
pub struct BuiltinMethodType {
    pub owner: Type,
    pub owner_variables: Vec<String>,
    pub member: String,
    pub params: Vec<Type>,
    pub result: Type,
    pub constraints: Vec<MethodConstraint>,
    pub owner_span: Span,
    pub member_span: Span,
}

/// What a method attached to a builtin type is.
pub ghost struct SpecBuiltinMethod {
    pub owner: SpecType,
    pub owner_variables: Seq<Seq<char>>,
    pub member: Seq<char>,
    pub params: Seq<SpecType>,
    pub result: SpecType,
    pub constraints: Seq<SpecConstraint>,
    pub owner_span: Span,
    pub member_span: Span,
}

impl BuiltinMethodType {
    pub open spec fn view(&self) -> SpecBuiltinMethod {
        SpecBuiltinMethod {
            owner: self.owner@,
            owner_variables: texts_view(self.owner_variables@),
            member: self.member@,
            params: types_view(self.params@),
            result: self.result@,
            constraints: constraints_view(self.constraints@),
            owner_span: self.owner_span,
            member_span: self.member_span,
        }
    }
}

pub open spec fn builtin_methods_view(methods: Seq<BuiltinMethodType>) -> Seq<SpecBuiltinMethod> {
    Seq::new(methods.len(), |i: int| methods[i]@)
}

impl Clone for BuiltinMethodType {
    fn clone(&self) -> (copied: BuiltinMethodType)
        ensures
            copied@ == self@,
    {
        BuiltinMethodType {
            owner: self.owner.clone(),
            owner_variables: clone_texts(&self.owner_variables),
            member: self.member.clone(),
            params: clone_types(&self.params),
            result: self.result.clone(),
            constraints: clone_constraints(&self.constraints),
            owner_span: self.owner_span,
            member_span: self.member_span,
        }
    }
}

/// Whether two lists of constraints are equal item by item.
pub fn same_constraints(
    left: &Vec<MethodConstraint>,
    right: &Vec<MethodConstraint>,
) -> (same: bool)
    ensures
        same == (constraints_view(left@) == constraints_view(right@)),
{
    if left.len() != right.len() {
        assert(constraints_view(left@).len() != constraints_view(right@).len());
        return false;
    }
    let mut index: usize = 0;
    while index < left.len()
        invariant
            index <= left.len(),
            left.len() == right.len(),
            forall|i: int| 0 <= i < index ==> left@[i]@ == right@[i]@,
        decreases left.len() - index,
    {
        if !left[index].equals(&right[index]) {
            assert(constraints_view(left@)[index as int] != constraints_view(
                right@,
            )[index as int]);
            return false;
        }
        index += 1;
    }
    assert(constraints_view(left@) =~= constraints_view(right@));
    true
}

impl BuiltinMethodType {
    /// Whether two methods say the same.
    pub fn equals(&self, other: &BuiltinMethodType) -> (same: bool)
        ensures
            same == (self@ == other@),
    {
        self.owner.equals(&other.owner) && same_texts(
            &self.owner_variables,
            &other.owner_variables,
        ) && self.member == other.member && same_types(&self.params, &other.params)
            && self.result.equals(&other.result) && same_constraints(
            &self.constraints,
            &other.constraints,
        ) && self.owner_span == other.owner_span && self.member_span == other.member_span
    }
}

impl PartialEq for BuiltinMethodType {
    fn eq(&self, other: &BuiltinMethodType) -> (same: bool) {
        self.equals(other)
    }
}

impl vstd::std_specs::cmp::PartialEqSpecImpl for BuiltinMethodType {
    open spec fn obeys_eq_spec() -> bool {
        true
    }

    open spec fn eq_spec(&self, other: &BuiltinMethodType) -> bool {
        self@ == other@
    }
}

impl Eq for BuiltinMethodType {

}

/// A named family: a record or a builtin type with methods of its own.
#[derive(Debug)]
pub struct NamedFamilyType {
    pub owner: String,
    pub data: Row,
    pub defaulted_fields: StringSet,
    pub primitive_base: Option<Type>,
    pub methods: StringMap<NamedMethodType>,
}

/// The methods that a map of methods holds.
pub open spec fn methods_view(methods: Map<Seq<char>, NamedMethodType>) -> Map<
    Seq<char>,
    SpecMethod,
> {
    Map::new(|name: Seq<char>| methods.contains_key(name), |name: Seq<char>| methods[name]@)
}

/// Binding a method binds what it is.
pub proof fn methods_view_insert(
    methods: Map<Seq<char>, NamedMethodType>,
    name: Seq<char>,
    method: NamedMethodType,
)
    ensures
        methods_view(methods.insert(name, method)) == methods_view(methods).insert(name, method@),
{
    assert(methods_view(methods.insert(name, method)) =~= methods_view(methods).insert(
        name,
        method@,
    ));
}

/// A copy of a map of methods.
pub fn clone_methods(methods: &StringMap<NamedMethodType>) -> (copied: StringMap<NamedMethodType>)
    ensures
        methods_view(copied@) == methods_view(methods@),
{
    let mut copied: StringMap<NamedMethodType> = StringMap::new();
    let mut index: usize = 0;
    let ghost listing = methods.listing();
    proof {
        assert(bindings_map(listing.take(0)) =~= Map::<Seq<char>, NamedMethodType>::empty());
        assert(methods_view(copied@) =~= methods_view(bindings_map(listing.take(0))));
    }
    while index < methods.len()
        invariant
            index <= listing.len(),
            listing == methods.listing(),
            methods_view(copied@) == methods_view(bindings_map(listing.take(index as int))),
        decreases listing.len() - index,
    {
        let entry = methods.entry(index);
        let method = entry.1.clone();
        proof {
            let longer = listing.take(index + 1);
            assert(longer.drop_last() =~= listing.take(index as int));
            methods_view_insert(bindings_map(listing.take(index as int)), entry.0@, entry.1);
            methods_view_insert(copied@, entry.0@, method);
        }
        copied.insert(entry.0.clone(), method);
        index += 1;
    }
    proof {
        methods.listing_denotes();
        assert(listing.take(listing.len() as int) =~= listing);
    }
    copied
}

/// What a named family is.
pub ghost struct SpecFamily {
    pub owner: Seq<char>,
    pub data: SpecRow,
    pub defaulted_fields: Set<Seq<char>>,
    pub primitive_base: Option<SpecType>,
    pub methods: Map<Seq<char>, SpecMethod>,
}

impl NamedFamilyType {
    pub open spec fn view(&self) -> SpecFamily {
        SpecFamily {
            owner: self.owner@,
            data: self.data@,
            defaulted_fields: self.defaulted_fields@,
            primitive_base: match self.primitive_base {
                Some(base) => Some(base@),
                None => None,
            },
            methods: methods_view(self.methods@),
        }
    }
}

impl Clone for NamedFamilyType {
    fn clone(&self) -> (copied: NamedFamilyType)
        ensures
            copied@ == self@,
    {
        NamedFamilyType {
            owner: self.owner.clone(),
            data: self.data.clone(),
            defaulted_fields: self.defaulted_fields.clone(),
            primitive_base: match &self.primitive_base {
                Some(base) => Some(base.clone()),
                None => None,
            },
            methods: clone_methods(&self.methods),
        }
    }
}

/// The families that a map of families holds.
pub open spec fn families_view(families: Map<Seq<char>, NamedFamilyType>) -> Map<
    Seq<char>,
    SpecFamily,
> {
    Map::new(|name: Seq<char>| families.contains_key(name), |name: Seq<char>| families[name]@)
}

} // verus!
