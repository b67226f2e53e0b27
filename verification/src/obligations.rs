//! The method requirements that are still open while a program is checked.
use crate::methods::{
    divisor_view, predicates_view, same_divisor, IntegerDivisorContext, MethodPredicate,
    SpecDivisor, SpecPredicate,
};
use crate::schemes::{SpecScheme, TypeScheme};
use crate::span::Span;
use crate::text::{texts_contain, texts_view};
use crate::type_ops::{
    free_metas, literal_variant_base, metas, metas_in, row_base, type_variable_names, variables,
    variables_in, LiteralBase,
};
use crate::types::{same_types, types_view, Row, RowTail, SpecRow, SpecType, Type};
use vstd::prelude::*;

verus! {

// ---------------------------------------------------------------------------
// Evidence about divisors
// ---------------------------------------------------------------------------
/// What the type of an argument tells about a divisor. The open end of a type of
/// number literals is closed, so that it keeps the literals that are known.
pub open spec fn divisor_evidence(ty: SpecType) -> SpecType {
    match ty {
        SpecType::Variant(row) => if row_base(row) == Some(LiteralBase::Number)
            && row.tail is Var {
            SpecType::Variant(SpecRow { entries: row.entries, tail: RowTail::Closed })
        } else {
            ty
        },
        _ => ty,
    }
}

/// What the type of an argument tells about a divisor.
pub fn snapshot_integer_divisor_evidence(ty: Type) -> (evidence: Type)
    ensures
        evidence@ == divisor_evidence(ty@),
{
    match ty {
        Type::Variant(row) => {
            let number = match literal_variant_base(&row) {
                Some(LiteralBase::Number) => true,
                _ => false,
            };
            if number && matches!(row.tail, RowTail::Var(_)) {
                let closed = Row { entries: row.entries, tail: RowTail::Closed };
                assert(closed@.entries == row@.entries);
                Type::Variant(closed)
            } else {
                Type::Variant(row)
            }
        },
        other => other,
    }
}

// ---------------------------------------------------------------------------
// Predicates
// ---------------------------------------------------------------------------
/// Whether two predicates require the same.
pub open spec fn same_requirement(left: SpecPredicate, right: SpecPredicate) -> bool {
    &&& left.candidate == right.candidate
    &&& left.member == right.member
    &&& left.params == right.params
    &&& left.result == right.result
    &&& left.divisor_context == right.divisor_context
}

fn require_the_same(left: &MethodPredicate, right: &MethodPredicate) -> (same: bool)
    ensures
        same == same_requirement(left@, right@),
{
    left.candidate == right.candidate && left.member == right.member && same_types(
        &left.params,
        &right.params,
    ) && left.result == right.result && same_divisor(&left.divisor_context, &right.divisor_context)
}

/// Whether a list has a predicate that requires the same.
pub open spec fn requires_already(
    predicates: Seq<SpecPredicate>,
    predicate: SpecPredicate,
) -> bool {
    exists|i: int|
        0 <= i < predicates.len() && same_requirement(#[trigger] predicates[i], predicate)
}

/// The predicates without those that require what an earlier one requires.
pub open spec fn deduplicated(predicates: Seq<SpecPredicate>) -> Seq<SpecPredicate>
    decreases predicates.len(),
{
    if predicates.len() == 0 {
        Seq::empty()
    } else {
        let earlier = deduplicated(predicates.drop_last());
        if requires_already(earlier, predicates.last()) {
            earlier
        } else {
            earlier.push(predicates.last())
        }
    }
}

fn already_required(predicates: &Vec<MethodPredicate>, predicate: &MethodPredicate) -> (found: bool)
    ensures
        found == requires_already(predicates_view(predicates@), predicate@),
{
    let ghost all = predicates_view(predicates@);
    let mut index: usize = 0;
    while index < predicates.len()
        invariant
            index <= predicates.len(),
            all == predicates_view(predicates@),
            forall|i: int|
                0 <= i < index ==> !same_requirement(#[trigger] all[i], predicate@),
        decreases predicates.len() - index,
    {
        if require_the_same(&predicates[index], predicate) {
            assert(same_requirement(all[index as int], predicate@));
            return true;
        }
        index += 1;
    }
    false
}

fn push_predicate(predicates: &mut Vec<MethodPredicate>, predicate: MethodPredicate)
    ensures
        predicates_view(final(predicates)@) == predicates_view(old(predicates)@).push(predicate@),
{
    let ghost before = predicates_view(predicates@);
    predicates.push(predicate);
    assert(predicates_view(predicates@) =~= before.push(predicate@));
}

/// Remove the predicates that require what an earlier one requires.
pub fn deduplicate_predicates(predicates: Vec<MethodPredicate>) -> (kept: Vec<MethodPredicate>)
    ensures
        predicates_view(kept@) == deduplicated(predicates_view(predicates@)),
{
    let ghost all = predicates_view(predicates@);
    let mut kept: Vec<MethodPredicate> = Vec::new();
    let mut index: usize = 0;
    assert(predicates_view(kept@) =~= Seq::empty());
    while index < predicates.len()
        invariant
            index <= predicates.len(),
            all == predicates_view(predicates@),
            predicates_view(kept@) == deduplicated(all.take(index as int)),
        decreases predicates.len() - index,
    {
        proof {
            let longer = all.take(index + 1);
            assert(longer.drop_last() =~= all.take(index as int));
            assert(longer.last() == predicates@[index as int]@);
        }
        if !already_required(&kept, &predicates[index]) {
            push_predicate(&mut kept, predicates[index].clone());
        }
        index += 1;
    }
    assert(all.take(all.len() as int) =~= all);
    kept
}

/// No two of the kept predicates require the same, and what was required still
/// is.
pub proof fn deduplication_keeps_requirements(
    predicates: Seq<SpecPredicate>,
    predicate: SpecPredicate,
)
    ensures
        requires_already(deduplicated(predicates), predicate) == requires_already(
            predicates,
            predicate,
        ),
        forall|i: int, j: int|
            0 <= i < j < deduplicated(predicates).len() ==> !same_requirement(
                #[trigger] deduplicated(predicates)[i],
                #[trigger] deduplicated(predicates)[j],
            ),
    decreases predicates.len(),
{
    if predicates.len() > 0 {
        let shorter = predicates.drop_last();
        let last = predicates.last();
        let earlier = deduplicated(shorter);
        let kept = deduplicated(predicates);
        deduplication_keeps_requirements(shorter, predicate);
        deduplication_keeps_requirements(shorter, last);
        if requires_already(predicates, predicate) {
            let i = choose|i: int|
                0 <= i < predicates.len() && same_requirement(#[trigger] predicates[i], predicate);
            if i < shorter.len() {
                assert(same_requirement(shorter[i], predicate));
                assert(requires_already(earlier, predicate));
                let j = choose|j: int|
                    0 <= j < earlier.len() && same_requirement(#[trigger] earlier[j], predicate);
                assert(same_requirement(kept[j], predicate));
            } else if requires_already(earlier, last) {
                let j = choose|j: int|
                    0 <= j < earlier.len() && same_requirement(#[trigger] earlier[j], last);
                assert(same_requirement(kept[j], predicate));
            } else {
                assert(same_requirement(kept[earlier.len() as int], predicate));
            }
        }
        if requires_already(kept, predicate) {
            let j = choose|j: int|
                0 <= j < kept.len() && same_requirement(#[trigger] kept[j], predicate);
            if j < earlier.len() {
                assert(same_requirement(earlier[j], predicate));
                assert(requires_already(shorter, predicate));
                let i = choose|i: int|
                    0 <= i < shorter.len() && same_requirement(#[trigger] shorter[i], predicate);
                assert(same_requirement(predicates[i], predicate));
            } else {
                assert(same_requirement(predicates[predicates.len() - 1], predicate));
            }
        }
        assert forall|i: int, j: int| 0 <= i < j < kept.len() implies !same_requirement(
            #[trigger] kept[i],
            #[trigger] kept[j],
        ) by {
            if j == earlier.len() {
                assert(kept[i] == earlier[i]);
            } else {
                assert(kept[i] == earlier[i] && kept[j] == earlier[j]);
            }
        }
    }
}

/// The metavariables of a predicate in the order of their occurrences.
pub open spec fn predicate_metas(predicate: SpecPredicate) -> Seq<u32> {
    metas(predicate.candidate) + metas_in(predicate.params) + metas(predicate.result) + (
    match predicate.divisor_context {
        Some(context) => metas(context.right_type),
        None => Seq::empty(),
    })
}

/// The metavariables of a predicate in the order of their occurrences.
pub fn predicate_free_metas(predicate: &MethodPredicate) -> (ids: Vec<u32>)
    ensures
        ids@ == predicate_metas(predicate@),
{
    let mut ids = free_metas(&predicate.candidate);
    crate::type_ops::collect_metas_in(&predicate.params, &mut ids);
    crate::type_ops::collect_metas(&predicate.result, &mut ids);
    if let Some(context) = &predicate.divisor_context {
        crate::type_ops::collect_metas(&context.right_type, &mut ids);
    }
    assert(ids@ =~= predicate_metas(predicate@));
    ids
}

fn contains_id(ids: &Vec<u32>, id: u32) -> (found: bool)
    ensures
        found == ids@.contains(id),
{
    let mut index: usize = 0;
    while index < ids.len()
        invariant
            index <= ids.len(),
            forall|i: int| 0 <= i < index ==> ids@[i] != id,
        decreases ids.len() - index,
    {
        if ids[index] == id {
            return true;
        }
        index += 1;
    }
    false
}

/// Whether a metavariable occurs in a predicate.
pub fn predicate_contains_meta(predicate: &MethodPredicate, id: u32) -> (found: bool)
    ensures
        found == predicate_metas(predicate@).contains(id),
{
    let ids = predicate_free_metas(predicate);
    contains_id(&ids, id)
}

/// Whether the signature of a predicate has a metavariable or a type variable
/// that its candidate does not have.
pub open spec fn is_relational(predicate: SpecPredicate) -> bool {
    ||| exists|id: u32|
        (metas_in(predicate.params) + metas(predicate.result)).contains(id) && !(#[trigger] metas(
            predicate.candidate,
        ).contains(id))
    ||| exists|name: Seq<char>|
        variables_in(predicate.params).union(variables(predicate.result)).contains(name) && !(
        #[trigger] variables(predicate.candidate).contains(name))
}

/// Whether a predicate relates its candidate to other unknown types.
pub fn predicate_is_relational(predicate: &MethodPredicate) -> (relational: bool)
    ensures
        relational == is_relational(predicate@),
{
    let candidate_metas = free_metas(&predicate.candidate);
    let mut signature_metas: Vec<u32> = Vec::new();
    crate::type_ops::collect_metas_in(&predicate.params, &mut signature_metas);
    crate::type_ops::collect_metas(&predicate.result, &mut signature_metas);
    assert(signature_metas@ =~= metas_in(predicate@.params) + metas(predicate@.result));
    let mut index: usize = 0;
    while index < signature_metas.len()
        invariant
            index <= signature_metas.len(),
            candidate_metas@ == metas(predicate@.candidate),
            signature_metas@ == metas_in(predicate@.params) + metas(predicate@.result),
            forall|i: int| 0 <= i < index ==> candidate_metas@.contains(signature_metas@[i]),
        decreases signature_metas.len() - index,
    {
        if !contains_id(&candidate_metas, signature_metas[index]) {
            assert(signature_metas@.contains(signature_metas@[index as int]));
            return true;
        }
        index += 1;
    }
    let candidate_vars = type_variable_names(&predicate.candidate);
    let mut signature_vars: Vec<String> = Vec::new();
    assert(texts_view(signature_vars@) =~= Seq::empty());
    crate::type_ops::collect_variable_names_in(&predicate.params, &mut signature_vars);
    crate::type_ops::collect_type_variable_names(&predicate.result, &mut signature_vars);
    let ghost names = texts_view(signature_vars@);
    assert(names.to_set() =~= variables_in(predicate@.params).union(variables(predicate@.result)));
    let mut index: usize = 0;
    while index < signature_vars.len()
        invariant
            index <= signature_vars.len(),
            names == texts_view(signature_vars@),
            names.to_set() == variables_in(predicate@.params).union(variables(predicate@.result)),
            texts_view(candidate_vars@).to_set() == variables(predicate@.candidate),
            forall|i: int|
                0 <= i < index ==> variables(predicate@.candidate).contains(#[trigger] names[i]),
        decreases signature_vars.len() - index,
    {
        if !texts_contain(&candidate_vars, signature_vars[index].as_str()) {
            assert(names.to_set().contains(names[index as int]));
            assert(!variables(predicate@.candidate).contains(names[index as int]));
            return true;
        }
        assert(texts_view(candidate_vars@).to_set().contains(names[index as int]));
        index += 1;
    }
    proof {
        assert forall|name: Seq<char>|
            variables_in(predicate@.params).union(variables(predicate@.result)).contains(
                name,
            ) implies #[trigger] variables(predicate@.candidate).contains(name) by {
            assert(names.to_set().contains(name));
            let i = choose|i: int| 0 <= i < names.len() && names[i] == name;
            assert(variables(predicate@.candidate).contains(names[i]));
        }
        assert forall|id: u32|
            (metas_in(predicate@.params) + metas(predicate@.result)).contains(id) implies (
        #[trigger] metas(predicate@.candidate).contains(id)) by {
            let all = metas_in(predicate@.params) + metas(predicate@.result);
            let i = choose|i: int| 0 <= i < all.len() && all[i] == id;
            assert(candidate_metas@.contains(signature_metas@[i]));
        }
    }
    false
}

// ---------------------------------------------------------------------------
// The ledger
// ---------------------------------------------------------------------------
/// The open requirements, each with a number, and the next number.
#[derive(Debug)]
pub struct ObligationLedger {
    pub next_id: usize,
    pub obligations: Vec<MethodPredicate>,
}

/// What a ledger holds.
pub ghost struct SpecLedger {
    pub next_id: nat,
    pub obligations: Seq<SpecPredicate>,
}

/// Whether an obligation has a number from a marker on.
pub open spec fn is_since(marker: nat) -> spec_fn(SpecPredicate) -> bool {
    |predicate: SpecPredicate|
        predicate.obligation_id is Some && predicate.obligation_id->0 >= marker
}

/// Whether an obligation has no number from a marker on.
pub open spec fn is_before(marker: nat) -> spec_fn(SpecPredicate) -> bool {
    |predicate: SpecPredicate| !is_since(marker)(predicate)
}

/// A predicate with a number.
pub open spec fn numbered(predicate: SpecPredicate, id: nat) -> SpecPredicate {
    SpecPredicate { obligation_id: Some(id as usize), ..predicate }
}

/// Predicates with consecutive numbers.
pub open spec fn all_numbered(predicates: Seq<SpecPredicate>, first: nat) -> Seq<SpecPredicate> {
    Seq::new(predicates.len(), |i: int| numbered(predicates[i], (first + i) as nat))
}

/// A predicate as it is required at a call.
pub open spec fn required_at(predicate: SpecPredicate, span: Span) -> SpecPredicate {
    SpecPredicate { operator_span: span, call_span: Some(span), ..predicate }
}

/// A ledger with more obligations.
pub open spec fn with_new(ledger: SpecLedger, predicates: Seq<SpecPredicate>) -> SpecLedger {
    SpecLedger {
        next_id: ledger.next_id + predicates.len(),
        obligations: ledger.obligations + all_numbered(predicates, ledger.next_id),
    }
}

/// An obligation with the type of the argument that its divisor is, if it was
/// made by the call.
pub open spec fn with_call_types(
    predicate: SpecPredicate,
    start: nat,
    end: nat,
    types: Seq<SpecType>,
) -> SpecPredicate {
    match (predicate.obligation_id, predicate.divisor_context) {
        (Some(id), Some(context)) => match context.parameter_index {
            Some(index) => if start <= id < end && index < types.len() {
                SpecPredicate {
                    divisor_context: Some(
                        SpecDivisor { right_type: types[index as int], ..context },
                    ),
                    ..predicate
                }
            } else {
                predicate
            },
            None => predicate,
        },
        _ => predicate,
    }
}

impl ObligationLedger {
    pub open spec fn view(&self) -> SpecLedger {
        SpecLedger {
            next_id: self.next_id as nat,
            obligations: predicates_view(self.obligations@),
        }
    }

    /// The ledger without obligations.
    pub fn new() -> (ledger: ObligationLedger)
        ensures
            ledger@ == (SpecLedger { next_id: 0, obligations: Seq::empty() }),
    {
        let ledger = ObligationLedger { next_id: 0, obligations: Vec::new() };
        assert(ledger@.obligations =~= Seq::empty());
        ledger
    }

    /// The number that the next obligation gets.
    pub fn method_obligation_marker(&self) -> (marker: usize)
        ensures
            marker == self@.next_id,
    {
        self.next_id
    }

    /// Take the obligations from a marker on out of the ledger.
    pub fn take_method_obligations_since(&mut self, marker: usize) -> (since: Vec<MethodPredicate>)
        ensures
            predicates_view(since@) == old(self)@.obligations.filter(is_since(marker as nat)),
            final(self)@ == (SpecLedger {
                obligations: old(self)@.obligations.filter(is_before(marker as nat)),
                ..old(self)@
            }),
    {
        let ghost all = self@.obligations;
        let mut before: Vec<MethodPredicate> = Vec::new();
        let mut since: Vec<MethodPredicate> = Vec::new();
        let mut index: usize = 0;
        proof {
            reveal(Seq::filter);
            assert(predicates_view(since@) =~= all.take(0).filter(is_since(marker as nat)));
            assert(predicates_view(before@) =~= all.take(0).filter(is_before(marker as nat)));
        }
        while index < self.obligations.len()
            invariant
                index <= self.obligations.len(),
                all == predicates_view(self.obligations@),
                self@ == old(self)@,
                predicates_view(since@) == all.take(index as int).filter(is_since(marker as nat)),
                predicates_view(before@) == all.take(index as int).filter(
                    is_before(marker as nat),
                ),
            decreases self.obligations.len() - index,
        {
            let predicate = self.obligations[index].clone();
            proof {
                reveal(Seq::filter);
                let longer = all.take(index + 1);
                assert(longer.drop_last() =~= all.take(index as int));
                assert(longer.last() == predicate@);
            }
            let is_new = match predicate.obligation_id {
                Some(id) => id >= marker,
                None => false,
            };
            if is_new {
                push_predicate(&mut since, predicate);
            } else {
                push_predicate(&mut before, predicate);
            }
            index += 1;
        }
        assert(all.take(all.len() as int) =~= all);
        self.obligations = before;
        since
    }

    /// Add obligations with consecutive numbers.
    pub fn push_new_method_obligations(&mut self, predicates: Vec<MethodPredicate>)
        requires
            old(self)@.next_id + predicates.len() <= usize::MAX,
        ensures
            final(self)@ == with_new(old(self)@, predicates_view(predicates@)),
    {
        let ghost before = self@;
        let ghost all = predicates_view(predicates@);
        let mut index: usize = 0;
        assert(self@.obligations =~= before.obligations + all_numbered(
            all.take(0),
            before.next_id,
        ));
        while index < predicates.len()
            invariant
                index <= predicates.len(),
                all == predicates_view(predicates@),
                before == old(self)@,
                before.next_id + predicates.len() <= usize::MAX,
                self.next_id == before.next_id + index,
                self@.obligations == before.obligations + all_numbered(
                    all.take(index as int),
                    before.next_id,
                ),
            decreases predicates.len() - index,
        {
            let mut predicate = predicates[index].clone();
            predicate.obligation_id = Some(self.next_id);
            let ghost earlier = self@.obligations;
            self.next_id += 1;
            push_predicate(&mut self.obligations, predicate);
            proof {
                assert(predicate@ == numbered(all[index as int], (before.next_id + index) as nat));
                assert(self@.obligations =~= before.obligations + all_numbered(
                    all.take(index + 1),
                    before.next_id,
                ));
            }
            index += 1;
        }
        assert(all.take(all.len() as int) =~= all);
    }

    /// Add obligations that a call makes.
    pub fn push_method_obligations_at(
        &mut self,
        predicates: Vec<MethodPredicate>,
        call_span: Span,
    )
        requires
            old(self)@.next_id + predicates.len() <= usize::MAX,
        ensures
            final(self)@ == with_new(
                old(self)@,
                predicates_view(predicates@).map_values(
                    |predicate: SpecPredicate| required_at(predicate, call_span),
                ),
            ),
    {
        let mut required: Vec<MethodPredicate> = Vec::new();
        let mut index: usize = 0;
        while index < predicates.len()
            invariant
                index <= predicates.len(),
                required.len() == index,
                forall|i: int|
                    0 <= i < index ==> (#[trigger] required@[i])@ == required_at(
                        predicates@[i]@,
                        call_span,
                    ),
            decreases predicates.len() - index,
        {
            let mut predicate = predicates[index].clone();
            predicate.operator_span = call_span;
            predicate.call_span = Some(call_span);
            required.push(predicate);
            index += 1;
        }
        assert(predicates_view(required@) =~= predicates_view(predicates@).map_values(
            |predicate: SpecPredicate| required_at(predicate, call_span),
        ));
        self.push_new_method_obligations(required);
    }

    /// Add the obligation that an operator makes.
    pub fn add_operator_obligation(
        &mut self,
        candidate: Type,
        member: &str,
        param: Type,
        result: Type,
        operator_span: Span,
        divisor_context: Option<IntegerDivisorContext>,
    )
        requires
            old(self)@.next_id < usize::MAX,
        ensures
            final(self)@ == with_new(
                old(self)@,
                seq![
                    SpecPredicate {
                        candidate: candidate@,
                        member: member@,
                        params: seq![param@],
                        result: result@,
                        operator_span,
                        divisor_context: divisor_view(divisor_context),
                        binding: None,
                        call_span: None,
                        obligation_id: None,
                    },
                ],
            ),
    {
        let mut params: Vec<Type> = Vec::new();
        params.push(param);
        assert(types_view(params@) =~= seq![param@]);
        let predicate = MethodPredicate {
            candidate,
            member: member.to_owned(),
            params,
            result,
            operator_span,
            divisor_context,
            binding: None,
            call_span: None,
            obligation_id: None,
        };
        let mut predicates: Vec<MethodPredicate> = Vec::new();
        predicates.push(predicate);
        assert(predicates_view(predicates@) =~= seq![predicate@]);
        self.push_new_method_obligations(predicates);
    }

    /// Close the body of a function: requirements that it did not state are missing
    /// where it states some, and are left to the enclosing function otherwise. Those
    /// that it states become obligations of its uses.
    pub fn finalize_lambda_requirements(
        &mut self,
        marker: usize,
        states_requirements: bool,
        assumptions: Vec<MethodPredicate>,
    ) -> (missing: Vec<MethodPredicate>)
        requires
            old(self)@.next_id + assumptions.len() <= usize::MAX,
        ensures
            ({
                let since = old(self)@.obligations.filter(is_since(marker as nat));
                let before = old(self)@.obligations.filter(is_before(marker as nat));
                &&& predicates_view(missing@) == if states_requirements {
                    since
                } else {
                    Seq::empty()
                }
                &&& final(self)@ == with_new(
                    SpecLedger {
                        obligations: if states_requirements {
                            before
                        } else {
                            before + since
                        },
                        ..old(self)@
                    },
                    predicates_view(assumptions@),
                )
            }),
    {
        let mut residual = self.take_method_obligations_since(marker);
        let mut missing: Vec<MethodPredicate> = Vec::new();
        assert(predicates_view(missing@) =~= Seq::empty());
        if states_requirements {
            missing = residual;
        } else {
            let ghost before = self@.obligations;
            let ghost since = predicates_view(residual@);
            self.obligations.append(&mut residual);
            assert(self@.obligations =~= before + since);
        }
        self.push_new_method_obligations(assumptions);
        missing
    }

    /// Take all obligations out of the ledger, to look at each again.
    pub fn take_pending(&mut self) -> (pending: Vec<MethodPredicate>)
        ensures
            predicates_view(pending@) == old(self)@.obligations,
            final(self)@ == (SpecLedger { obligations: Seq::empty(), ..old(self)@ }),
    {
        let mut pending: Vec<MethodPredicate> = Vec::new();
        pending.append(&mut self.obligations);
        assert(predicates_view(pending@) =~= old(self)@.obligations);
        assert(self@.obligations =~= Seq::empty());
        pending
    }

    /// Look at a pending obligation whose types are resolved. One that is entailed is
    /// dropped, and one whose candidate is not known yet goes back to the ledger; what
    /// is to be done about any other is returned with it.
    pub fn simplify_method_obligation(
        &mut self,
        predicate: MethodPredicate,
        entailed: bool,
        finalizing: bool,
    ) -> (open: Option<(ObligationStep, MethodPredicate)>)
        ensures
            ({
                let step = obligation_step_for(predicate@.candidate, finalizing);
                let kept = !entailed && step is Keep;
                &&& final(self)@ == (SpecLedger {
                    obligations: if kept {
                        old(self)@.obligations.push(predicate@)
                    } else {
                        old(self)@.obligations
                    },
                    ..old(self)@
                })
                &&& open is Some == (!entailed && !kept)
                &&& open is Some ==> (open->0).0 == step && (open->0).1 == predicate
            }),
    {
        if entailed {
            return None;
        }
        match obligation_step(&predicate.candidate, finalizing) {
            ObligationStep::Keep => {
                push_predicate(&mut self.obligations, predicate);
                None
            },
            step => Some((step, predicate)),
        }
    }

    /// Tell the obligations that a call made the types of the arguments that
    /// their divisors are.
    pub fn set_integer_divisor_call_types(&mut self, start: usize, end: usize, types: &Vec<Type>)
        ensures
            final(self)@ == (SpecLedger {
                obligations: old(self)@.obligations.map_values(
                    |predicate: SpecPredicate|
                        with_call_types(predicate, start as nat, end as nat, types_view(types@)),
                ),
                ..old(self)@
            }),
    {
        let ghost all = self@.obligations;
        let mut updated: Vec<MethodPredicate> = Vec::new();
        let mut index: usize = 0;
        while index < self.obligations.len()
            invariant
                index <= self.obligations.len(),
                self@ == old(self)@,
                all == self@.obligations,
                updated.len() == index,
                forall|i: int|
                    0 <= i < index ==> (#[trigger] updated@[i])@ == with_call_types(
                        all[i],
                        start as nat,
                        end as nat,
                        types_view(types@),
                    ),
            decreases self.obligations.len() - index,
        {
            let mut predicate = self.obligations[index].clone();
            assert(predicate@ == all[index as int]);
            assert(types_view(types@).len() == types.len());
            if let Some(id) = predicate.obligation_id {
                if start <= id && id < end {
                    if let Some(context) = &predicate.divisor_context {
                        if let Some(parameter) = context.parameter_index {
                            if parameter < types.len() {
                                predicate.divisor_context = Some(
                                    IntegerDivisorContext {
                                        span: context.span,
                                        literal_is_zero: context.literal_is_zero,
                                        right_type: types[parameter].clone(),
                                        parameter_index: context.parameter_index,
                                    },
                                );
                            }
                        }
                    }
                }
            }
            updated.push(predicate);
            index += 1;
        }
        self.obligations = updated;
        assert(self@.obligations =~= all.map_values(
            |predicate: SpecPredicate|
                with_call_types(predicate, start as nat, end as nat, types_view(types@)),
        ));
    }
}

/// What becomes of an open requirement once its candidate is looked at.
#[derive(Debug, Clone, Copy, PartialEq, Eq, Structural)]
pub enum ObligationStep {
    /// The candidate is not known yet.
    Keep,
    /// The candidate will not be known any more.
    ReportUnresolved,
    /// The candidate is known: its method is looked up.
    Discharge,
}

/// What becomes of an open requirement whose candidate is a type.
pub open spec fn obligation_step_for(candidate: SpecType, finalizing: bool) -> ObligationStep {
    match candidate {
        SpecType::Meta(_) => ObligationStep::Keep,
        SpecType::Variable(_) => ObligationStep::Keep,
        SpecType::Deferred => if finalizing {
            ObligationStep::ReportUnresolved
        } else {
            ObligationStep::Keep
        },
        _ => ObligationStep::Discharge,
    }
}

/// What becomes of an open requirement whose candidate is a type.
pub fn obligation_step(candidate: &Type, finalizing: bool) -> (step: ObligationStep)
    ensures
        step == obligation_step_for(candidate@, finalizing),
{
    match candidate {
        Type::Meta(_) => ObligationStep::Keep,
        Type::Variable(_) => ObligationStep::Keep,
        Type::Deferred => if finalizing {
            ObligationStep::ReportUnresolved
        } else {
            ObligationStep::Keep
        },
        _ => ObligationStep::Discharge,
    }
}

/// Whether an assumption can entail a predicate: it is about the same method of
/// the same type, with as many parameters.
pub fn assumption_may_entail(assumption: &MethodPredicate, predicate: &MethodPredicate) -> (may:
    bool)
    ensures
        may == (assumption@.member == predicate@.member && assumption@.candidate
            == predicate@.candidate && assumption@.params.len() == predicate@.params.len()),
{
    assumption.member == predicate.member && assumption.candidate == predicate.candidate
        && assumption.params.len() == predicate.params.len()
}

// ---------------------------------------------------------------------------
// Laws of the ledger
// ---------------------------------------------------------------------------
/// Whether every number in a ledger has been given out.
pub open spec fn numbers_are_used(ledger: SpecLedger) -> bool {
    forall|i: int|
        0 <= i < ledger.obligations.len() && (
        #[trigger] ledger.obligations[i]).obligation_id is Some
            ==> ledger.obligations[i].obligation_id->0 < ledger.next_id
}

/// New obligations get numbers that were not given out before.
pub proof fn new_numbers_are_used(ledger: SpecLedger, predicates: Seq<SpecPredicate>)
    requires
        numbers_are_used(ledger),
        ledger.next_id + predicates.len() <= usize::MAX,
    ensures
        numbers_are_used(with_new(ledger, predicates)),
{
    let later = with_new(ledger, predicates);
    let count = ledger.obligations.len();
    assert forall|i: int|
        0 <= i < later.obligations.len() && (
        #[trigger] later.obligations[i]).obligation_id is Some implies later.obligations[i].obligation_id->0
        < later.next_id by {
        if i < count {
            assert(later.obligations[i] == ledger.obligations[i]);
        } else {
            assert(later.obligations[i] == numbered(
                predicates[i - count],
                (ledger.next_id + (i - count)) as nat,
            ));
        }
    }
}

proof fn filter_all(predicates: Seq<SpecPredicate>, test: spec_fn(SpecPredicate) -> bool)
    ensures
        (forall|i: int| 0 <= i < predicates.len() ==> test(#[trigger] predicates[i]))
            ==> predicates.filter(test) == predicates,
        (forall|i: int| 0 <= i < predicates.len() ==> !test(#[trigger] predicates[i]))
            ==> predicates.filter(test) == Seq::<SpecPredicate>::empty(),
    decreases predicates.len(),
{
    reveal(Seq::filter);
    if predicates.len() > 0 {
        let shorter = predicates.drop_last();
        filter_all(shorter, test);
        assert(forall|i: int|
            0 <= i < shorter.len() ==> #[trigger] shorter[i] == predicates[i]);
        assert(predicates.last() == predicates[predicates.len() - 1]);
        assert(shorter.push(predicates.last()) =~= predicates);
    }
}

proof fn filter_concat(
    left: Seq<SpecPredicate>,
    right: Seq<SpecPredicate>,
    test: spec_fn(SpecPredicate) -> bool,
)
    ensures
        (left + right).filter(test) == left.filter(test) + right.filter(test),
    decreases right.len(),
{
    reveal(Seq::filter);
    if right.len() == 0 {
        assert(left + right =~= left);
        assert(left.filter(test) + right.filter(test) =~= left.filter(test));
    } else {
        let shorter = right.drop_last();
        filter_concat(left, shorter, test);
        assert((left + right).drop_last() =~= left + shorter);
        assert((left + right).last() == right.last());
        assert((left + right).filter(test) =~= left.filter(test) + right.filter(test));
    }
}

/// Taking the obligations since a marker gives back exactly those that were
/// added after it, and leaves those that were there before.
pub proof fn taking_undoes_pushing(ledger: SpecLedger, predicates: Seq<SpecPredicate>)
    requires
        numbers_are_used(ledger),
        ledger.next_id + predicates.len() <= usize::MAX,
    ensures
        with_new(ledger, predicates).obligations.filter(is_since(ledger.next_id)) == all_numbered(
            predicates,
            ledger.next_id,
        ),
        with_new(ledger, predicates).obligations.filter(is_before(ledger.next_id))
            == ledger.obligations,
{
    let marker = ledger.next_id;
    let new = all_numbered(predicates, marker);
    let since = is_since(marker);
    let before = is_before(marker);
    filter_concat(ledger.obligations, new, since);
    filter_concat(ledger.obligations, new, before);
    assert forall|i: int| 0 <= i < ledger.obligations.len() implies !since(
        #[trigger] ledger.obligations[i],
    ) && before(ledger.obligations[i]) by {}
    assert forall|i: int| 0 <= i < new.len() implies since(#[trigger] new[i]) && !before(
        new[i],
    ) by {
        assert(new[i] == numbered(predicates[i], (marker + i) as nat));
    }
    filter_all(ledger.obligations, since);
    filter_all(ledger.obligations, before);
    filter_all(new, since);
    filter_all(new, before);
    assert(Seq::<SpecPredicate>::empty() + new =~= new);
    assert(ledger.obligations + Seq::<SpecPredicate>::empty() =~= ledger.obligations);
}

// ---------------------------------------------------------------------------
// Qualified schemes
// ---------------------------------------------------------------------------
/// A predicate with the binding that it belongs to, unless it has one.
pub open spec fn bound_to(predicate: SpecPredicate, binding: Option<Seq<char>>) -> SpecPredicate {
    match predicate.binding {
        Some(_) => predicate,
        None => SpecPredicate { binding, ..predicate },
    }
}

/// The condition of a predicate that relates no other unknown types.
pub open spec fn is_supported() -> spec_fn(SpecPredicate) -> bool {
    |predicate: SpecPredicate| !is_relational(predicate)
}

/// The condition of a predicate that relates other unknown types.
pub open spec fn is_rejected() -> spec_fn(SpecPredicate) -> bool {
    |predicate: SpecPredicate| is_relational(predicate)
}

/// The condition of a predicate without a metavariable.
pub open spec fn lacks_meta(id: u32) -> spec_fn(SpecPredicate) -> bool {
    |predicate: SpecPredicate| !predicate_metas(predicate).contains(id)
}

/// The predicates of a scheme, each once and bound to the scheme's binding.
pub open spec fn bound_predicates(
    predicates: Seq<SpecPredicate>,
    binding: Option<Seq<char>>,
) -> Seq<SpecPredicate> {
    deduplicated(all_bound_to(predicates, binding))
}

/// Predicates with the binding that they belong to.
pub open spec fn all_bound_to(
    predicates: Seq<SpecPredicate>,
    binding: Option<Seq<char>>,
) -> Seq<SpecPredicate> {
    Seq::new(predicates.len(), |i: int| bound_to(predicates[i], binding))
}

/// What an optional name denotes.
pub open spec fn binding_view(binding: Option<&str>) -> Option<Seq<char>> {
    match binding {
        Some(binding) => Some(binding@),
        None => None,
    }
}

/// Quantified metavariables with those of a list that the environment does not
/// have.
pub open spec fn quantified(vars: Seq<u32>, ids: Seq<u32>, env: Seq<u32>) -> Seq<u32>
    decreases ids.len(),
{
    if ids.len() == 0 {
        vars
    } else {
        let earlier = quantified(vars, ids.drop_last(), env);
        if env.contains(ids.last()) || earlier.contains(ids.last()) {
            earlier
        } else {
            earlier.push(ids.last())
        }
    }
}

/// Quantified metavariables with those of a list of predicates.
pub open spec fn quantified_over(
    vars: Seq<u32>,
    predicates: Seq<SpecPredicate>,
    env: Seq<u32>,
) -> Seq<u32>
    decreases predicates.len(),
{
    if predicates.len() == 0 {
        vars
    } else {
        quantified(
            quantified_over(vars, predicates.drop_last(), env),
            predicate_metas(predicates.last()),
            env,
        )
    }
}

/// Whether a predicate of a list has a metavariable.
pub open spec fn some_predicate_has(predicates: Seq<SpecPredicate>, id: u32) -> bool {
    exists|i: int|
        0 <= i < predicates.len() && predicate_metas(#[trigger] predicates[i]).contains(id)
}

/// The first quantified metavariable, from a position on, that a predicate has
/// and the type has not.
pub open spec fn ambiguous_meta(
    vars: Seq<u32>,
    ty: SpecType,
    predicates: Seq<SpecPredicate>,
    from: int,
) -> Option<u32>
    decreases vars.len() - from,
{
    if from >= vars.len() {
        None
    } else if !metas(ty).contains(vars[from]) && some_predicate_has(predicates, vars[from]) {
        Some(vars[from])
    } else {
        ambiguous_meta(vars, ty, predicates, from + 1)
    }
}

/// A scheme with the requirements of its binding, those that it rejects, and the
/// metavariable that makes it ambiguous.
pub ghost struct SpecQualified {
    pub scheme: SpecScheme,
    pub rejected: Seq<SpecPredicate>,
    pub ambiguous: Option<u32>,
}

/// The condition of another metavariable.
pub open spec fn is_not(id: u32) -> spec_fn(u32) -> bool {
    |other: u32| other != id
}

/// A scheme qualified by predicates. It quantifies over the metavariables of the
/// predicates too, but for those of the environment. A metavariable that occurs
/// in a predicate and not in the type is ambiguous: it goes, with its predicates.
pub open spec fn qualified(
    scheme: SpecScheme,
    predicates: Seq<SpecPredicate>,
    binding: Option<Seq<char>>,
    env: Seq<u32>,
) -> SpecQualified {
    let bound = bound_predicates(predicates, binding);
    let kept = bound.filter(is_supported());
    let vars = quantified_over(scheme.vars, kept, env);
    let ambiguous = ambiguous_meta(vars, scheme.ty, kept, 0);
    SpecQualified {
        scheme: SpecScheme {
            vars: match ambiguous {
                Some(id) => vars.filter(is_not(id)),
                None => vars,
            },
            predicates: match ambiguous {
                Some(id) => kept.filter(lacks_meta(id)),
                None => kept,
            },
            ..scheme
        },
        rejected: bound.filter(is_rejected()),
        ambiguous,
    }
}

/// A qualified scheme.
#[derive(Debug)]
pub struct QualifiedScheme {
    pub scheme: TypeScheme,
    pub rejected: Vec<MethodPredicate>,
    pub ambiguous: Option<u32>,
}

impl QualifiedScheme {
    pub open spec fn view(&self) -> SpecQualified {
        SpecQualified {
            scheme: self.scheme@,
            rejected: predicates_view(self.rejected@),
            ambiguous: self.ambiguous,
        }
    }
}

fn bind_predicates(predicates: Vec<MethodPredicate>, binding: Option<&str>) -> (bound: Vec<
    MethodPredicate,
>)
    ensures
        predicates_view(bound@) == all_bound_to(
            predicates_view(predicates@),
            binding_view(binding),
        ),
{
    let mut bound: Vec<MethodPredicate> = Vec::new();
    let mut index: usize = 0;
    while index < predicates.len()
        invariant
            index <= predicates.len(),
            bound.len() == index,
            forall|i: int|
                0 <= i < index ==> (#[trigger] bound@[i])@ == bound_to(
                    predicates@[i]@,
                    binding_view(binding),
                ),
        decreases predicates.len() - index,
    {
        let mut predicate = predicates[index].clone();
        if predicate.binding.is_none() {
            predicate.binding = match binding {
                Some(binding) => Some(binding.to_owned()),
                None => None,
            };
        }
        bound.push(predicate);
        index += 1;
    }
    assert(predicates_view(bound@) =~= all_bound_to(
        predicates_view(predicates@),
        binding_view(binding),
    ));
    bound
}

/// Split predicates into those that are supported and those that relate other types to
/// their candidate.
pub fn split_relational(predicates: Vec<MethodPredicate>) -> (split: (
    Vec<MethodPredicate>,
    Vec<MethodPredicate>,
))
    ensures
        predicates_view(split.0@) == predicates_view(predicates@).filter(is_supported()),
        predicates_view(split.1@) == predicates_view(predicates@).filter(is_rejected()),
{
    let ghost all = predicates_view(predicates@);
    let mut kept: Vec<MethodPredicate> = Vec::new();
    let mut rejected: Vec<MethodPredicate> = Vec::new();
    let mut index: usize = 0;
    proof {
        reveal(Seq::filter);
        assert(predicates_view(kept@) =~= all.take(0).filter(is_supported()));
        assert(predicates_view(rejected@) =~= all.take(0).filter(is_rejected()));
    }
    while index < predicates.len()
        invariant
            index <= predicates.len(),
            all == predicates_view(predicates@),
            predicates_view(kept@) == all.take(index as int).filter(is_supported()),
            predicates_view(rejected@) == all.take(index as int).filter(is_rejected()),
        decreases predicates.len() - index,
    {
        proof {
            reveal(Seq::filter);
            let longer = all.take(index + 1);
            assert(longer.drop_last() =~= all.take(index as int));
            assert(longer.last() == predicates@[index as int]@);
        }
        let predicate = predicates[index].clone();
        if predicate_is_relational(&predicate) {
            push_predicate(&mut rejected, predicate);
        } else {
            push_predicate(&mut kept, predicate);
        }
        index += 1;
    }
    assert(all.take(all.len() as int) =~= all);
    (kept, rejected)
}

fn quantify_over(vars: &mut Vec<u32>, predicates: &Vec<MethodPredicate>, env: &Vec<u32>)
    ensures
        final(vars)@ == quantified_over(old(vars)@, predicates_view(predicates@), env@),
{
    let ghost before = vars@;
    let ghost all = predicates_view(predicates@);
    let mut index: usize = 0;
    while index < predicates.len()
        invariant
            index <= predicates.len(),
            all == predicates_view(predicates@),
            before == old(vars)@,
            vars@ == quantified_over(before, all.take(index as int), env@),
        decreases predicates.len() - index,
    {
        let ids = predicate_free_metas(&predicates[index]);
        let ghost earlier = vars@;
        let mut position: usize = 0;
        while position < ids.len()
            invariant
                position <= ids.len(),
                vars@ == quantified(earlier, ids@.take(position as int), env@),
            decreases ids.len() - position,
        {
            proof {
                let longer = ids@.take(position + 1);
                assert(longer.drop_last() =~= ids@.take(position as int));
                assert(longer.last() == ids@[position as int]);
            }
            if !contains_id(env, ids[position]) && !contains_id(vars, ids[position]) {
                vars.push(ids[position]);
            }
            position += 1;
        }
        proof {
            assert(ids@.take(ids@.len() as int) =~= ids@);
            let longer = all.take(index + 1);
            assert(longer.drop_last() =~= all.take(index as int));
            assert(longer.last() == predicates@[index as int]@);
        }
        index += 1;
    }
    assert(all.take(all.len() as int) =~= all);
}

fn any_predicate_has(predicates: &Vec<MethodPredicate>, id: u32) -> (found: bool)
    ensures
        found == some_predicate_has(predicates_view(predicates@), id),
{
    let ghost all = predicates_view(predicates@);
    let mut index: usize = 0;
    while index < predicates.len()
        invariant
            index <= predicates.len(),
            all == predicates_view(predicates@),
            forall|i: int| 0 <= i < index ==> !predicate_metas(#[trigger] all[i]).contains(id),
        decreases predicates.len() - index,
    {
        if predicate_contains_meta(&predicates[index], id) {
            assert(predicate_metas(all[index as int]).contains(id));
            return true;
        }
        index += 1;
    }
    false
}

fn find_ambiguous(vars: &Vec<u32>, ty: &Type, predicates: &Vec<MethodPredicate>) -> (id: Option<
    u32,
>)
    ensures
        id == ambiguous_meta(vars@, ty@, predicates_view(predicates@), 0),
{
    let ordinary = free_metas(ty);
    let ghost all = predicates_view(predicates@);
    let mut index: usize = 0;
    while index < vars.len()
        invariant
            index <= vars.len(),
            ordinary@ == metas(ty@),
            all == predicates_view(predicates@),
            ambiguous_meta(vars@, ty@, all, 0) == ambiguous_meta(vars@, ty@, all, index as int),
        decreases vars.len() - index,
    {
        if !contains_id(&ordinary, vars[index]) && any_predicate_has(predicates, vars[index]) {
            return Some(vars[index]);
        }
        index += 1;
    }
    None
}

fn remove_predicates(predicates: &Vec<MethodPredicate>, id: u32) -> (kept: Vec<MethodPredicate>)
    ensures
        predicates_view(kept@) == predicates_view(predicates@).filter(lacks_meta(id)),
{
    let ghost all = predicates_view(predicates@);
    let mut kept: Vec<MethodPredicate> = Vec::new();
    let mut index: usize = 0;
    proof {
        reveal(Seq::filter);
        assert(predicates_view(kept@) =~= all.take(0).filter(lacks_meta(id)));
    }
    while index < predicates.len()
        invariant
            index <= predicates.len(),
            all == predicates_view(predicates@),
            predicates_view(kept@) == all.take(index as int).filter(lacks_meta(id)),
        decreases predicates.len() - index,
    {
        proof {
            reveal(Seq::filter);
            let longer = all.take(index + 1);
            assert(longer.drop_last() =~= all.take(index as int));
            assert(longer.last() == predicates@[index as int]@);
        }
        if !predicate_contains_meta(&predicates[index], id) {
            push_predicate(&mut kept, predicates[index].clone());
        }
        index += 1;
    }
    assert(all.take(all.len() as int) =~= all);
    kept
}

fn remove_id(ids: &Vec<u32>, id: u32) -> (kept: Vec<u32>)
    ensures
        kept@ == ids@.filter(is_not(id)),
{
    let mut kept: Vec<u32> = Vec::new();
    let mut index: usize = 0;
    proof {
        reveal(Seq::filter);
        assert(kept@ =~= ids@.take(0).filter(is_not(id)));
    }
    while index < ids.len()
        invariant
            index <= ids.len(),
            kept@ == ids@.take(index as int).filter(is_not(id)),
        decreases ids.len() - index,
    {
        proof {
            reveal(Seq::filter);
            let longer = ids@.take(index + 1);
            assert(longer.drop_last() =~= ids@.take(index as int));
            assert(longer.last() == ids@[index as int]);
        }
        if ids[index] != id {
            kept.push(ids[index]);
        }
        index += 1;
    }
    assert(ids@.take(ids@.len() as int) =~= ids@);
    kept
}

/// Qualify a scheme by the resolved predicates of its binding.
pub fn qualify_scheme(
    scheme: TypeScheme,
    predicates: Vec<MethodPredicate>,
    binding: Option<&str>,
    env_metas: &Vec<u32>,
) -> (result: QualifiedScheme)
    ensures
        result@ == qualified(
            scheme@,
            predicates_view(predicates@),
            binding_view(binding),
            env_metas@,
        ),
{
    let bound = deduplicate_predicates(bind_predicates(predicates, binding));
    let (kept, rejected) = split_relational(bound);
    let TypeScheme { mut vars, row_vars, row_merges, predicates: _, ty } = scheme;
    quantify_over(&mut vars, &kept, env_metas);
    let ambiguous = find_ambiguous(&vars, &ty, &kept);
    match ambiguous {
        Some(id) => QualifiedScheme {
            scheme: TypeScheme {
                vars: remove_id(&vars, id),
                row_vars,
                row_merges,
                predicates: remove_predicates(&kept, id),
                ty,
            },
            rejected,
            ambiguous,
        },
        None => QualifiedScheme {
            scheme: TypeScheme { vars, row_vars, row_merges, predicates: kept, ty },
            rejected,
            ambiguous,
        },
    }
}

} // verus!
