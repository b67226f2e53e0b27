//! Requirements on type variables: the methods that a type must have.
use crate::annotations::{
    events_view, lower_annotation, lower_annotations, lowered, lowered_all, AnnotationEvent,
    AnnotationFacts, Definitions, SpecEvent,
};
use crate::collections::{StringMap, StringSet};
use crate::methods::{predicates_view, MethodPredicate, MethodSignature, SpecPredicate};
use crate::obligations::{is_rejected, split_relational};
use crate::span::Span;
use crate::syntax::{
    builtin_attachment_member_span, entry_span, ungroup_expr, ungrouped, Expr, ExprKind,
    RecordEntry,
};
use crate::type_ops::{
    map_type, map_types, mapped, mapped_all, replacement_rule, widen_literal_method_owner,
    widened_owner, Replacement,
};
use crate::types::{types_view, SpecType, Type};
use vstd::prelude::*;

verus! {

// ---------------------------------------------------------------------------
// Reading requirements
// ---------------------------------------------------------------------------
/// What is to be said of a requirement, or of an annotation in it.
#[derive(Debug)]
#[allow(inconsistent_fields)]
pub enum RequirementEvent<'a> {
    /// Nothing is bound to the name.
    Unknown { name: &'a str, span: Span },
    /// The requirement is no list of methods.
    InvalidBound { span: Span },
    /// An entry is no method.
    InvalidMember { member: &'a str, span: Span },
    /// The list is closed.
    NeedsOpen { span: Span },
    Annotation(AnnotationEvent<'a>),
}

/// What is to be said of a requirement, or of an annotation in it.
#[allow(inconsistent_fields)]
pub ghost enum SpecRequirementEvent {
    Unknown { name: Seq<char>, span: Span },
    InvalidBound { span: Span },
    InvalidMember { member: Seq<char>, span: Span },
    NeedsOpen { span: Span },
    Annotation(SpecEvent),
}

impl RequirementEvent<'_> {
    pub open spec fn view(&self) -> SpecRequirementEvent {
        match self {
            RequirementEvent::Unknown { name, span } => SpecRequirementEvent::Unknown {
                name: name@,
                span: *span,
            },
            RequirementEvent::InvalidBound { span } => SpecRequirementEvent::InvalidBound {
                span: *span,
            },
            RequirementEvent::InvalidMember { member, span } => {
                SpecRequirementEvent::InvalidMember { member: member@, span: *span }
            },
            RequirementEvent::NeedsOpen { span } => SpecRequirementEvent::NeedsOpen {
                span: *span,
            },
            RequirementEvent::Annotation(event) => SpecRequirementEvent::Annotation(event@),
        }
    }
}

pub open spec fn requirement_events(events: Seq<RequirementEvent<'_>>) -> Seq<
    SpecRequirementEvent,
> {
    Seq::new(events.len(), |i: int| events[i]@)
}

/// What is said of annotations in a requirement.
pub open spec fn annotated(events: Seq<SpecEvent>) -> Seq<SpecRequirementEvent> {
    events.map_values(|event: SpecEvent| SpecRequirementEvent::Annotation(event))
}

/// The type variable that a requirement is about, and the type that stands for it.
#[derive(Debug)]
pub struct Candidate {
    pub name: String,
    pub ty: Type,
}

impl Candidate {
    /// A type with the type that stands for the variable in place of it.
    pub open spec fn placed(&self, ty: SpecType) -> SpecType {
        mapped(ty, replacement_rule(SpecType::Variable(self.name@), self.ty@))
    }

    pub open spec fn placed_all(&self, types: Seq<SpecType>) -> Seq<SpecType> {
        mapped_all(types, replacement_rule(SpecType::Variable(self.name@), self.ty@))
    }
}

/// What a requirement comes to: the methods that it asks for, what is said on the
/// way, and the number of the next unknown tail.
pub ghost struct Requirements {
    pub predicates: Seq<SpecPredicate>,
    pub events: Seq<SpecRequirementEvent>,
    pub next: u32,
}

pub open spec fn nothing_required(next: u32) -> Requirements {
    Requirements { predicates: Seq::empty(), events: Seq::empty(), next }
}

pub open spec fn only_said(event: SpecRequirementEvent, next: u32) -> Requirements {
    Requirements { predicates: Seq::empty(), events: seq![event], next }
}

pub open spec fn followed_by(first: Requirements, second: Requirements) -> Requirements {
    Requirements {
        predicates: first.predicates + second.predicates,
        events: first.events + second.events,
        next: second.next,
    }
}

/// The place of a list of entries.
pub open spec fn entries_span(entries: Seq<RecordEntry>) -> Span {
    if entries.len() == 0 {
        Span { start: 0, end: 0 }
    } else {
        entry_span(entries[0]).merged(entry_span(entries.last()))
    }
}

/// A method that a type must have.
pub open spec fn required_method(
    candidate: Candidate,
    member: Seq<char>,
    params: Seq<SpecType>,
    result: SpecType,
    span: Span,
) -> SpecPredicate {
    SpecPredicate {
        candidate: candidate.ty@,
        member,
        params: candidate.placed_all(params),
        result: candidate.placed(result),
        operator_span: span,
        divisor_context: None,
        binding: None,
        call_span: None,
        obligation_id: None,
    }
}

/// What a method entry of a requirement comes to.
pub open spec fn required_entry(
    name: Seq<char>,
    name_span: Span,
    value: Expr,
    candidate: Candidate,
    known: Definitions,
    facts: AnnotationFacts,
    next: u32,
) -> Requirements {
    match ungrouped(value).kind {
        ExprKind::Arrow { params, result } => {
            let list = lowered_all(params@, known, facts, next, params@.len());
            let end = lowered(*result, known, facts, list.next);
            Requirements {
                predicates: seq![
                    required_method(candidate, name, list.types, end.ty, name_span),
                ],
                events: annotated(list.events + end.events),
                next: end.next,
            }
        },
        _ => only_said(
            SpecRequirementEvent::InvalidMember { member: name, span: value.span },
            next,
        ),
    }
}

/// Looking at a requirement by its name leaves fewer names to look at.
pub proof fn unseen_requirements_shrink(
    bounds: Map<Seq<char>, Expr>,
    visiting: Set<Seq<char>>,
    name: Seq<char>,
)
    requires
        bounds.dom().finite(),
        bounds.contains_key(name),
        !visiting.contains(name),
    ensures
        bounds.dom().difference(visiting.insert(name)).len() < bounds.dom().difference(
            visiting,
        ).len(),
{
    let before = bounds.dom().difference(visiting);
    let after = bounds.dom().difference(visiting.insert(name));
    assert(after =~= before.remove(name));
    assert(before.contains(name));
}

/// What a requirement at a place comes to. A name stands for the requirement that it
/// is bound to; one that is being looked at adds nothing.
pub open spec fn required(
    bound: Expr,
    span: Span,
    candidate: Candidate,
    bounds: Map<Seq<char>, Expr>,
    known: Definitions,
    facts: AnnotationFacts,
    visiting: Set<Seq<char>>,
    next: u32,
) -> Requirements
    decreases bounds.dom().difference(visiting).len(), bound, 0nat,
    when bounds.dom().finite()
{
    match bound.kind {
        ExprKind::Group(inner) => required(
            *inner,
            span,
            candidate,
            bounds,
            known,
            facts,
            visiting,
            next,
        ),
        ExprKind::Record(entries) => {
            let opening = if entries@.len() > 0 && entries@.last() is Open {
                nothing_required(next)
            } else {
                only_said(
                    SpecRequirementEvent::NeedsOpen { span: entries_span(entries@) },
                    next,
                )
            };
            followed_by(
                opening,
                all_required(
                    entries@,
                    candidate,
                    bounds,
                    known,
                    facts,
                    visiting,
                    next,
                    entries@.len(),
                ),
            )
        },
        ExprKind::Name(name) => if visiting.contains(name@) {
            nothing_required(next)
        } else if bounds.contains_key(name@) {
            proof {
                unseen_requirements_shrink(bounds, visiting, name@);
            }
            required(
                bounds[name@],
                bounds[name@].span,
                candidate,
                bounds,
                known,
                facts,
                visiting.insert(name@),
                next,
            )
        } else {
            only_said(SpecRequirementEvent::Unknown { name: name@, span }, next)
        },
        ExprKind::ComptimeName(name) => if visiting.contains(name@) {
            nothing_required(next)
        } else if bounds.contains_key(name@) {
            proof {
                unseen_requirements_shrink(bounds, visiting, name@);
            }
            required(
                bounds[name@],
                bounds[name@].span,
                candidate,
                bounds,
                known,
                facts,
                visiting.insert(name@),
                next,
            )
        } else {
            only_said(SpecRequirementEvent::Unknown { name: name@, span }, next)
        },
        _ => only_said(SpecRequirementEvent::InvalidBound { span }, next),
    }
}

/// What the first entries of a requirement come to.
pub open spec fn all_required(
    entries: Seq<RecordEntry>,
    candidate: Candidate,
    bounds: Map<Seq<char>, Expr>,
    known: Definitions,
    facts: AnnotationFacts,
    visiting: Set<Seq<char>>,
    next: u32,
    count: nat,
) -> Requirements
    decreases bounds.dom().difference(visiting).len(), entries, count,
    when bounds.dom().finite()
{
    if count == 0 || count > entries.len() {
        nothing_required(next)
    } else {
        let earlier = all_required(
            entries,
            candidate,
            bounds,
            known,
            facts,
            visiting,
            next,
            (count - 1) as nat,
        );
        followed_by(
            earlier,
            match entries[count - 1] {
                RecordEntry::Method { name, name_span, value, .. } => required_entry(
                    name@,
                    name_span,
                    *value,
                    candidate,
                    known,
                    facts,
                    earlier.next,
                ),
                RecordEntry::Spread { value, .. } => required(
                    *value,
                    value.span,
                    candidate,
                    bounds,
                    known,
                    facts,
                    visiting,
                    earlier.next,
                ),
                RecordEntry::Open { .. } => nothing_required(earlier.next),
                _ => only_said(
                    SpecRequirementEvent::InvalidMember {
                        member: "this entry"@,
                        span: entry_span(entries[count - 1]),
                    },
                    earlier.next,
                ),
            },
        )
    }
}

/// What is collected from requirements.
#[derive(Debug)]
pub struct RequirementList<'a> {
    pub predicates: Vec<MethodPredicate>,
    pub events: Vec<RequirementEvent<'a>>,
    pub next: u32,
}

impl RequirementList<'_> {
    pub open spec fn view(&self) -> Requirements {
        Requirements {
            predicates: predicates_view(self.predicates@),
            events: requirement_events(self.events@),
            next: self.next,
        }
    }
}

fn say<'a>(list: &mut RequirementList<'a>, event: RequirementEvent<'a>)
    ensures
        final(list)@ == followed_by(old(list)@, only_said(event@, old(list).next)),
{
    list.events.push(event);
    assert(requirement_events(list.events@) =~= old(list)@.events + seq![event@]);
    assert(list@.predicates =~= old(list)@.predicates + Seq::<SpecPredicate>::empty());
}

proof fn adding_nothing(list: Requirements)
    ensures
        followed_by(list, nothing_required(list.next)) == list,
{
    assert(list.predicates + Seq::<SpecPredicate>::empty() =~= list.predicates);
    assert(list.events + Seq::<SpecRequirementEvent>::empty() =~= list.events);
}

proof fn adding_in_turn(first: Requirements, second: Requirements, third: Requirements)
    ensures
        followed_by(followed_by(first, second), third) == followed_by(
            first,
            followed_by(second, third),
        ),
{
    assert((first.predicates + second.predicates) + third.predicates =~= first.predicates + (
    second.predicates + third.predicates));
    assert((first.events + second.events) + third.events =~= first.events + (second.events
        + third.events));
}

fn add_annotation_events<'a>(
    list: &mut RequirementList<'a>,
    events: Vec<AnnotationEvent<'a>>,
)
    ensures
        final(list).predicates == old(list).predicates,
        final(list).next == old(list).next,
        requirement_events(final(list).events@) == requirement_events(old(list).events@)
            + annotated(events_view(events@)),
{
    let ghost before = requirement_events(list.events@);
    let ghost all = annotated(events_view(events@));
    let ghost count = events.len();
    let mut rest = events;
    let mut done: usize = 0;
    assert(before + all.take(0) =~= before);
    while rest.len() > 0
        invariant
            done + rest.len() == count,
            count == events.len(),
            all == annotated(events_view(events@)),
            forall|i: int| 0 <= i < rest.len() ==> rest@[i] == events@[done + i],
            list.predicates == old(list).predicates,
            list.next == old(list).next,
            requirement_events(list.events@) == before + all.take(done as int),
        decreases rest.len(),
    {
        let ghost current = rest@;
        let event = rest.remove(0);
        assert(event == events@[done as int]);
        assert forall|i: int| 0 <= i < rest.len() implies rest@[i] == events@[done + 1 + i] by {
            assert(rest@[i] == current[i + 1]);
        }
        let ghost earlier = requirement_events(list.events@);
        list.events.push(RequirementEvent::Annotation(event));
        assert(requirement_events(list.events@) =~= earlier.push(
            SpecRequirementEvent::Annotation(event@),
        ));
        assert(before + all.take(done + 1) =~= (before + all.take(done as int)).push(
            all[done as int],
        ));
        done += 1;
    }
    assert(all.take(done as int) =~= all);
}

fn collect_method<'a>(
    name: &'a String,
    name_span: Span,
    value: &'a Expr,
    candidate: &Candidate,
    known: &Definitions,
    facts: &AnnotationFacts,
    list: &mut RequirementList<'a>,
)
    ensures
        final(list)@ == followed_by(
            old(list)@,
            required_entry(
                name@,
                name_span,
                *value,
                *candidate,
                *known,
                *facts,
                old(list).next,
            ),
        ),
{
    match &ungroup_expr(value).kind {
        ExprKind::Arrow { params, result } => {
            let mut events: Vec<AnnotationEvent<'a>> = Vec::new();
            let mut next: u32 = list.next;
            assert(events_view(events@) =~= Seq::empty());
            let types = lower_annotations(params, known, facts, &mut next, &mut events);
            let end = lower_annotation(result, known, facts, &mut next, &mut events);
            let ghost said = lowered_all(
                params@,
                *known,
                *facts,
                list.next,
                params@.len(),
            ).events + lowered(
                **result,
                *known,
                *facts,
                lowered_all(params@, *known, *facts, list.next, params@.len()).next,
            ).events;
            assert(events_view(events@) =~= said);
            let rule = Replacement {
                target: Type::Variable(candidate.name.clone()),
                replacement: candidate.ty.clone(),
            };
            let predicate = MethodPredicate {
                candidate: candidate.ty.clone(),
                member: name.clone(),
                params: map_types(&types, &rule),
                result: map_type(&end, &rule),
                operator_span: name_span,
                divisor_context: None,
                binding: None,
                call_span: None,
                obligation_id: None,
            };
            let ghost before = list@.predicates;
            list.predicates.push(predicate);
            assert(predicates_view(list.predicates@) =~= before + seq![predicate@]);
            add_annotation_events(list, events);
            list.next = next;
        },
        _ => {
            say(list, RequirementEvent::InvalidMember { member: name.as_str(), span: value.span });
        },
    }
}

fn list_span(entries: &Vec<RecordEntry>) -> (span: Span)
    ensures
        span == entries_span(entries@),
{
    if entries.len() == 0 {
        Span::new(0, 0)
    } else {
        builtin_attachment_member_span(&entries[0]).merge(
            builtin_attachment_member_span(&entries[entries.len() - 1]),
        )
    }
}

/// Collect the methods that a requirement at a place asks for.
pub fn collect_requirement_bound<'a>(
    bound: &'a Expr,
    span: Span,
    candidate: &Candidate,
    bounds: &'a StringMap<Expr>,
    known: &Definitions,
    facts: &AnnotationFacts,
    visiting: &StringSet,
    list: &mut RequirementList<'a>,
)
    ensures
        final(list)@ == followed_by(
            old(list)@,
            required(
                *bound,
                span,
                *candidate,
                bounds@,
                *known,
                *facts,
                visiting@,
                old(list).next,
            ),
        ),
    decreases bounds@.dom().difference(visiting@).len(), bound, 0nat,
{
    proof {
        bounds.keys_are_finite();
        adding_nothing(list@);
    }
    let name: &'a String = match &bound.kind {
        ExprKind::Group(inner) => {
            collect_requirement_bound(
                inner,
                span,
                candidate,
                bounds,
                known,
                facts,
                visiting,
                list,
            );
            return ;
        },
        ExprKind::Record(entries) => {
            let ghost before = list@;
            let ghost first = list.next;
            let open = entries.len() > 0 && matches!(
                entries[entries.len() - 1],
                RecordEntry::Open { .. }
            );
            if !open {
                say(list, RequirementEvent::NeedsOpen { span: list_span(entries) });
            }
            collect_requirement_entries(
                entries,
                candidate,
                bounds,
                known,
                facts,
                visiting,
                list,
            );
            proof {
                let opening = if entries@.len() > 0 && entries@.last() is Open {
                    nothing_required(first)
                } else {
                    only_said(
                        SpecRequirementEvent::NeedsOpen { span: entries_span(entries@) },
                        first,
                    )
                };
                let rest = all_required(
                    entries@,
                    *candidate,
                    bounds@,
                    *known,
                    *facts,
                    visiting@,
                    first,
                    entries@.len(),
                );
                adding_in_turn(before, opening, rest);
            }
            return ;
        },
        ExprKind::Name(name) => name,
        ExprKind::ComptimeName(name) => name,
        _ => {
            say(list, RequirementEvent::InvalidBound { span });
            return ;
        },
    };
    if visiting.contains(name.as_str()) {
        return ;
    }
    match bounds.get(name.as_str()) {
        Some(value) => {
            proof {
                unseen_requirements_shrink(bounds@, visiting@, name@);
            }
            let mut inside = visiting.clone();
            inside.insert(name.clone());
            collect_requirement_bound(
                value,
                value.span,
                candidate,
                bounds,
                known,
                facts,
                &inside,
                list,
            );
        },
        None => {
            say(list, RequirementEvent::Unknown { name: name.as_str(), span });
        },
    }
}

/// Collect the methods that the entries of a requirement ask for.
pub fn collect_requirement_entries<'a>(
    entries: &'a Vec<RecordEntry>,
    candidate: &Candidate,
    bounds: &'a StringMap<Expr>,
    known: &Definitions,
    facts: &AnnotationFacts,
    visiting: &StringSet,
    list: &mut RequirementList<'a>,
)
    ensures
        final(list)@ == followed_by(
            old(list)@,
            all_required(
                entries@,
                *candidate,
                bounds@,
                *known,
                *facts,
                visiting@,
                old(list).next,
                entries@.len(),
            ),
        ),
    decreases bounds@.dom().difference(visiting@).len(), entries, 0nat,
{
    let ghost before = list@;
    let ghost first = list.next;
    proof {
        bounds.keys_are_finite();
        adding_nothing(list@);
    }
    let mut index: usize = 0;
    while index < entries.len()
        invariant
            index <= entries.len(),
            bounds@.dom().finite(),
            before == old(list)@,
            first == old(list).next,
            list@ == followed_by(
                before,
                all_required(
                    entries@,
                    *candidate,
                    bounds@,
                    *known,
                    *facts,
                    visiting@,
                    first,
                    index as nat,
                ),
            ),
        decreases entries.len() - index,
    {
        let ghost earlier = all_required(
            entries@,
            *candidate,
            bounds@,
            *known,
            *facts,
            visiting@,
            first,
            index as nat,
        );
        let ghost now = list@;
        proof {
            adding_nothing(now);
        }
        match &entries[index] {
            RecordEntry::Method { name, name_span, value, .. } => {
                collect_method(name, *name_span, value, candidate, known, facts, list);
                proof {
                    adding_in_turn(
                        before,
                        earlier,
                        required_entry(
                            name@,
                            *name_span,
                            **value,
                            *candidate,
                            *known,
                            *facts,
                            earlier.next,
                        ),
                    );
                }
            },
            RecordEntry::Spread { value, .. } => {
                collect_requirement_bound(
                    value,
                    value.span,
                    candidate,
                    bounds,
                    known,
                    facts,
                    visiting,
                    list,
                );
                proof {
                    adding_in_turn(
                        before,
                        earlier,
                        required(
                            **value,
                            value.span,
                            *candidate,
                            bounds@,
                            *known,
                            *facts,
                            visiting@,
                            earlier.next,
                        ),
                    );
                }
            },
            RecordEntry::Open { .. } => {
                proof {
                    adding_in_turn(before, earlier, nothing_required(earlier.next));
                }
            },
            other => {
                let span = builtin_attachment_member_span(other);
                say(list, RequirementEvent::InvalidMember { member: "this entry", span });
                proof {
                    adding_in_turn(
                        before,
                        earlier,
                        only_said(
                            SpecRequirementEvent::InvalidMember { member: "this entry"@, span },
                            earlier.next,
                        ),
                    );
                }
            },
        }
        index += 1;
    }
}

// ---------------------------------------------------------------------------
// Requirements of functions and requirements with a name
// ---------------------------------------------------------------------------
/// A requirement that a function states, with the type that it is about.
#[derive(Debug)]
pub struct StatedRequirement<'a> {
    pub candidate: Candidate,
    pub bound: &'a Expr,
}

/// What the first requirements of a function come to.
pub open spec fn stated(
    requirements: Seq<StatedRequirement<'_>>,
    bounds: Map<Seq<char>, Expr>,
    known: Definitions,
    facts: AnnotationFacts,
    next: u32,
    count: nat,
) -> Requirements
    decreases count,
{
    if count == 0 || count > requirements.len() {
        nothing_required(next)
    } else {
        let earlier = stated(requirements, bounds, known, facts, next, (count - 1) as nat);
        let last = requirements[count - 1];
        followed_by(
            earlier,
            required(
                *last.bound,
                last.bound.span,
                last.candidate,
                bounds,
                known,
                facts,
                Set::empty(),
                earlier.next,
            ),
        )
    }
}

/// Collect the methods that the requirements of a function ask for. `next` is the
/// number of the next unknown tail.
pub fn requirement_predicates<'a>(
    requirements: &Vec<StatedRequirement<'a>>,
    bounds: &'a StringMap<Expr>,
    known: &Definitions,
    facts: &AnnotationFacts,
    next: u32,
) -> (list: RequirementList<'a>)
    ensures
        list@ == stated(requirements@, bounds@, *known, *facts, next, requirements@.len()),
{
    let mut list: RequirementList<'a> = RequirementList {
        predicates: Vec::new(),
        events: Vec::new(),
        next,
    };
    assert(list@.predicates =~= Seq::empty());
    assert(list@.events =~= Seq::empty());
    let nothing_seen = StringSet::new();
    let mut index: usize = 0;
    while index < requirements.len()
        invariant
            index <= requirements.len(),
            nothing_seen@ == Set::<Seq<char>>::empty(),
            list@ == stated(requirements@, bounds@, *known, *facts, next, index as nat),
        decreases requirements.len() - index,
    {
        let requirement = &requirements[index];
        collect_requirement_bound(
            requirement.bound,
            requirement.bound.span,
            &requirement.candidate,
            bounds,
            known,
            facts,
            &nothing_seen,
            &mut list,
        );
        index += 1;
    }
    list
}

/// What a requirement with a name comes to. It is about `Self`.
pub open spec fn named_requirement(
    value: Expr,
    candidate: Candidate,
    bounds: Map<Seq<char>, Expr>,
    known: Definitions,
    facts: AnnotationFacts,
    next: u32,
) -> Requirements {
    followed_by(
        nothing_required(next),
        required(value, value.span, candidate, bounds, known, facts, Set::empty(), next),
    )
}

/// Check a requirement with a name: what is said of it on the way, and the methods that
/// relate other types to `Self`, which are not supported.
pub fn validate_named_requirement<'a>(
    value: &'a Expr,
    bounds: &'a StringMap<Expr>,
    known: &Definitions,
    facts: &AnnotationFacts,
    next: u32,
) -> (checked: (Vec<RequirementEvent<'a>>, Vec<MethodPredicate>))
    ensures
        exists|candidate: Candidate|
            candidate.name@ == "__named_requirement_candidate"@ && candidate.ty@
                == SpecType::Variable("Self"@) && {
                let whole = #[trigger] named_requirement(
                    *value,
                    candidate,
                    bounds@,
                    *known,
                    *facts,
                    next,
                );
                &&& requirement_events(checked.0@) == whole.events
                &&& predicates_view(checked.1@) == whole.predicates.filter(is_rejected())
            },
{
    let candidate = Candidate {
        name: "__named_requirement_candidate".to_owned(),
        ty: Type::Variable("Self".to_owned()),
    };
    assert(candidate.ty@ == SpecType::Variable("Self"@));
    let mut list: RequirementList<'a> = RequirementList {
        predicates: Vec::new(),
        events: Vec::new(),
        next,
    };
    assert(list@.predicates =~= Seq::empty());
    assert(list@.events =~= Seq::empty());
    collect_requirement_bound(
        value,
        value.span,
        &candidate,
        bounds,
        known,
        facts,
        &StringSet::new(),
        &mut list,
    );
    assert(list@ == named_requirement(*value, candidate, bounds@, *known, *facts, next));
    let RequirementList { predicates, events, next: _ } = list;
    let (_, rejected) = split_relational(predicates);
    (events, rejected)
}

// ---------------------------------------------------------------------------
// Candidates
// ---------------------------------------------------------------------------
/// The type that stands for a type variable in the innermost scope that has it.
pub open spec fn innermost(scopes: Seq<StringMap<Type>>, name: Seq<char>) -> Option<SpecType>
    decreases scopes.len(),
{
    if scopes.len() == 0 {
        None
    } else if scopes.last()@.contains_key(name) {
        Some(scopes.last()@[name]@)
    } else {
        innermost(scopes.drop_last(), name)
    }
}

/// The type that a requirement on a type variable is about: the one that stands for
/// it in an enclosing function, the variable itself if it is fixed, or a new unknown
/// type, which stands for it from then on.
pub fn requirement_candidate(
    scopes: &mut Vec<StringMap<Type>>,
    name: &str,
    is_rigid: bool,
    fresh: u32,
) -> (candidate: Type)
    ensures
        candidate@ == (match innermost(old(scopes)@, name@) {
            Some(ty) => ty,
            None => if is_rigid {
                SpecType::Variable(name@)
            } else {
                SpecType::Meta(fresh)
            },
        }),
        innermost(old(scopes)@, name@) is Some || is_rigid || old(scopes)@.len() == 0
            ==> final(scopes)@ == old(scopes)@,
        innermost(old(scopes)@, name@) is None && !is_rigid && old(scopes)@.len() > 0 ==> {
            &&& final(scopes)@.len() == old(scopes)@.len()
            &&& final(scopes)@.drop_last() == old(scopes)@.drop_last()
            &&& final(scopes)@.last()@ == old(scopes)@.last()@.insert(name@, candidate)
        },
{
    let ghost all = scopes@;
    let mut index: usize = scopes.len();
    assert(all.take(index as int) =~= all);
    while index > 0
        invariant
            index <= scopes.len(),
            scopes@ == all,
            all == old(scopes)@,
            innermost(all, name@) == innermost(all.take(index as int), name@),
        decreases index,
    {
        index -= 1;
        proof {
            let longer = all.take(index + 1);
            assert(longer.drop_last() =~= all.take(index as int));
            assert(longer.last() == all[index as int]);
        }
        if let Some(ty) = scopes[index].get(name) {
            return ty.clone();
        }
    }
    if is_rigid {
        return Type::Variable(name.to_owned());
    }
    let candidate = Type::Meta(fresh);
    if let Some(mut scope) = scopes.pop() {
        let ghost before = scope@;
        scope.insert(name.to_owned(), Type::Meta(fresh));
        scopes.push(scope);
        assert(scopes@.drop_last() =~= all.drop_last());
    }
    candidate
}

// ---------------------------------------------------------------------------
// Open requirements
// ---------------------------------------------------------------------------
/// A predicate whose candidate counts as the base of its literals, wherever its type
/// occurs in the signature.
pub open spec fn settled(predicate: SpecPredicate) -> SpecPredicate {
    let candidate = widened_owner(predicate.candidate);
    let rule = replacement_rule(predicate.candidate, candidate);
    SpecPredicate {
        candidate,
        params: mapped_all(predicate.params, rule),
        result: mapped(predicate.result, rule),
        ..predicate
    }
}

/// Settle a predicate whose types are resolved and in normal form.
pub fn resolve_method_predicate(predicate: MethodPredicate) -> (settled_predicate: MethodPredicate)
    ensures
        settled_predicate@ == settled(predicate@),
{
    let candidate = widen_literal_method_owner(&predicate.candidate);
    let rule = Replacement {
        target: predicate.candidate.clone(),
        replacement: candidate.clone(),
    };
    let params = map_types(&predicate.params, &rule);
    let result = map_type(&predicate.result, &rule);
    MethodPredicate {
        candidate,
        member: predicate.member,
        params,
        result,
        operator_span: predicate.operator_span,
        divisor_context: predicate.divisor_context,
        binding: predicate.binding,
        call_span: predicate.call_span,
        obligation_id: predicate.obligation_id,
    }
}

/// The types that must be equal for a signature to fit another: the parameters in
/// order, then the results. There are none where the numbers of parameters differ.
pub open spec fn signature_goals(
    actual: Seq<SpecType>,
    actual_result: SpecType,
    expected: Seq<SpecType>,
    expected_result: SpecType,
) -> Option<Seq<(SpecType, SpecType)>> {
    if actual.len() != expected.len() {
        None
    } else {
        Some(
            Seq::new(actual.len(), |i: int| (actual[i], expected[i])).push(
                (actual_result, expected_result),
            ),
        )
    }
}

fn pair_signatures(
    actual: &Vec<Type>,
    actual_result: &Type,
    expected: &Vec<Type>,
    expected_result: &Type,
) -> (goals: Option<Vec<(Type, Type)>>)
    ensures
        match goals {
            Some(goals) => signature_goals(
                types_view(actual@),
                actual_result@,
                types_view(expected@),
                expected_result@,
            ) == Some(crate::comparison::pairs_view(goals@)),
            None => types_view(actual@).len() != types_view(expected@).len(),
        },
{
    assert(types_view(actual@).len() == actual.len());
    assert(types_view(expected@).len() == expected.len());
    if actual.len() != expected.len() {
        return None;
    }
    let mut goals: Vec<(Type, Type)> = Vec::new();
    let mut index: usize = 0;
    while index < actual.len()
        invariant
            index <= actual.len(),
            actual.len() == expected.len(),
            goals.len() == index,
            forall|i: int|
                0 <= i < index ==> (#[trigger] goals@[i]).0@ == actual@[i]@ && goals@[i].1@
                    == expected@[i]@,
        decreases actual.len() - index,
    {
        goals.push((actual[index].clone(), expected[index].clone()));
        index += 1;
    }
    goals.push((actual_result.clone(), expected_result.clone()));
    assert(crate::comparison::pairs_view(goals@) =~= signature_goals(
        types_view(actual@),
        actual_result@,
        types_view(expected@),
        expected_result@,
    )->0);
    Some(goals)
}

/// What follows for a requirement on a known type.
#[derive(Debug)]
pub enum Discharge {
    /// The type has no such method.
    Missing,
    /// The method takes another number of parameters.
    Mismatch,
    /// The method fits if these types are equal; its own requirements follow.
    Unify(Vec<(Type, Type)>),
}

/// Decide what follows for a requirement on a known type that has a method or not.
pub fn discharge_known_method_predicate(
    actual: Option<&MethodSignature>,
    predicate: &MethodPredicate,
) -> (step: Discharge)
    ensures
        match actual {
            None => step is Missing,
            Some(signature) => match signature_goals(
                signature@.params,
                signature@.result,
                predicate@.params,
                predicate@.result,
            ) {
                Some(goals) => step is Unify && crate::comparison::pairs_view(step->Unify_0@)
                    == goals,
                None => step is Mismatch,
            },
        },
{
    match actual {
        None => Discharge::Missing,
        Some(signature) => match pair_signatures(
            &signature.params,
            &signature.result,
            &predicate.params,
            &predicate.result,
        ) {
            Some(goals) => Discharge::Unify(goals),
            None => Discharge::Mismatch,
        },
    }
}

/// The types that must be equal for an assumption to entail a requirement, where it
/// is about the same method of the same type.
pub fn method_predicate_is_entailed(
    assumption: &MethodPredicate,
    predicate: &MethodPredicate,
) -> (goals: Option<Vec<(Type, Type)>>)
    ensures
        match goals {
            Some(goals) => assumption@.member == predicate@.member && assumption@.candidate
                == predicate@.candidate && signature_goals(
                assumption@.params,
                assumption@.result,
                predicate@.params,
                predicate@.result,
            ) == Some(crate::comparison::pairs_view(goals@)),
            None => !(assumption@.member == predicate@.member && assumption@.candidate
                == predicate@.candidate && assumption@.params.len() == predicate@.params.len()),
        },
{
    if !crate::obligations::assumption_may_entail(assumption, predicate) {
        return None;
    }
    pair_signatures(
        &assumption.params,
        &assumption.result,
        &predicate.params,
        &predicate.result,
    )
}

// ---------------------------------------------------------------------------
// Laws
// ---------------------------------------------------------------------------
/// A requirement that is stated under a name asks for what the requirement itself
/// asks for, in which the name adds nothing again.
pub proof fn names_stand_for_their_requirements(
    bound: Expr,
    name: String,
    span: Span,
    candidate: Candidate,
    bounds: Map<Seq<char>, Expr>,
    known: Definitions,
    facts: AnnotationFacts,
    next: u32,
)
    requires
        bounds.dom().finite(),
        bounds.contains_key(name@),
        bound.kind == ExprKind::Name(name),
    ensures
        required(bound, span, candidate, bounds, known, facts, Set::empty(), next) == required(
            bounds[name@],
            bounds[name@].span,
            candidate,
            bounds,
            known,
            facts,
            Set::empty().insert(name@),
            next,
        ),
{
}

/// Settling a predicate twice changes nothing more of its candidate.
pub proof fn settled_candidates_stay(predicate: SpecPredicate)
    ensures
        settled(settled(predicate)).candidate == settled(predicate).candidate,
{
    crate::type_ops::widening_settles(predicate.candidate);
}

} // verus!
