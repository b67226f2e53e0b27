//! What families inherit and provide, what modules attach, and what requirements ask for.
use crate::annotations::{lowered, lowered_all, AnnotationFacts, Definitions};
use crate::attachments::{
    after_member, attached_from, clashes, collision, AttachmentState, SpecAttachment,
};
use crate::families::{all_typed, SpecDeclared};
use crate::inherited::{base_methods, candidate_methods, first_by_name, lifted_method, NamedMethod};
use crate::methods::{SpecBuiltinMethod, SpecMethod, SpecPredicate};
use crate::providers::{
    after_alias, base_problem, data_entries, defaulted_names, provided_definition, provided_family,
    repeated_fields, AliasState, BaseProblem, SpecDataField, SpecShape,
};
use crate::requirements::{
    all_required, required, settled, signature_goals, Candidate, SpecRequirementEvent,
};
use crate::span::Span;
use crate::syntax::{Expr, RecordEntry};
use crate::type_ops::{is_node, replacement_rule, some_node};
use crate::types::{RowTail, SpecRow, SpecRowEntry, SpecType};
use vstd::prelude::*;

verus! {

// ---------------------------------------------------------------------------
// Inherited methods
// ---------------------------------------------------------------------------
/// An inherited method takes and gives the family where it takes and gives the base, and
/// everything else as it is.
pub proof fn inherited_methods_speak_of_the_family(
    method: SpecMethod,
    base: SpecType,
    family: SpecType,
    index: int,
)
    requires
        0 <= index < method.params.len(),
    ensures
        ({
            let after = lifted_method(method, base, family);
            &&& after.params.len() == method.params.len()
            &&& method.params[index] == base ==> after.params[index] == family
            &&& method.params[index] != base ==> after.params[index] == method.params[index]
            &&& method.result == base ==> after.result == family
            &&& method.result != base ==> after.result == method.result
            &&& after.constraints.len() == method.constraints.len()
            &&& after.variables == method.variables
        }),
{
}

/// Whether a method of a name is among some.
pub open spec fn is_among(methods: Seq<NamedMethod>, name: Seq<char>) -> bool {
    exists|i: int| 0 <= i < methods.len() && (#[trigger] methods[i]).0 == name
}

proof fn first_methods_count(methods: Seq<NamedMethod>, name: Seq<char>)
    ensures
        is_among(first_by_name(methods), name) <==> is_among(methods, name),
        forall|i: int, j: int|
            0 <= i < j < first_by_name(methods).len() ==> (#[trigger] first_by_name(methods)[i]).0
                != (#[trigger] first_by_name(methods)[j]).0,
        forall|i: int|
            0 <= i < first_by_name(methods).len() ==> methods.contains(
                #[trigger] first_by_name(methods)[i],
            ),
    decreases methods.len(),
{
    if methods.len() > 0 {
        let fewer = methods.drop_last();
        let last = methods[methods.len() - 1];
        let earlier = first_by_name(fewer);
        let after = first_by_name(methods);
        first_methods_count(fewer, name);
        assert(crate::inherited::has_method(earlier, last.0) == is_among(earlier, last.0));
        if is_among(fewer, name) {
            let i = choose|i: int| 0 <= i < fewer.len() && (#[trigger] fewer[i]).0 == name;
            assert(methods[i].0 == name);
        }
        if is_among(methods, name) {
            let i = choose|i: int| 0 <= i < methods.len() && (#[trigger] methods[i]).0 == name;
            if i < fewer.len() {
                assert(fewer[i].0 == name);
            }
        }
        if is_among(earlier, name) {
            let i = choose|i: int| 0 <= i < earlier.len() && (#[trigger] earlier[i]).0 == name;
            assert(after[i].0 == name);
        }
        if !is_among(earlier, last.0) {
            assert(after == earlier.push(last));
            assert(after[after.len() - 1] == last);
            if is_among(after, name) && name != last.0 {
                let i = choose|i: int| 0 <= i < after.len() && (#[trigger] after[i]).0 == name;
                assert(earlier[i].0 == name);
            }
            assert forall|i: int, j: int| 0 <= i < j < after.len() implies (#[trigger] after[i]).0
                != (#[trigger] after[j]).0 by {
                assert(after[i] == earlier[i]);
                if j < earlier.len() {
                    assert(after[j] == earlier[j]);
                }
            }
        }
        assert forall|i: int| 0 <= i < after.len() implies methods.contains(
            #[trigger] after[i],
        ) by {
            if i < earlier.len() {
                assert(after[i] == earlier[i]);
                let k = choose|k: int| 0 <= k < fewer.len() && fewer[k] == earlier[i];
                assert(methods[k] == after[i]);
            } else {
                assert(methods[methods.len() - 1] == after[i]);
            }
        }
    }
}

/// A type has one method of each name that one of its sources has, and no other.
pub proof fn types_have_one_method_of_a_name(
    owner: SpecType,
    methods: Seq<SpecBuiltinMethod>,
    name: Seq<char>,
    first: int,
    second: int,
)
    ensures
        is_among(base_methods(owner, methods), name) <==> is_among(
            candidate_methods(owner, methods),
            name,
        ),
        0 <= first < second < base_methods(owner, methods).len() ==> base_methods(
            owner,
            methods,
        )[first].0 != base_methods(owner, methods)[second].0,
{
    first_methods_count(candidate_methods(owner, methods), name);
}

// ---------------------------------------------------------------------------
// Providers
// ---------------------------------------------------------------------------
/// Whether a field of a name is declared.
pub open spec fn is_declared(fields: Seq<SpecDataField>, name: Seq<char>) -> bool {
    exists|i: int| 0 <= i < fields.len() && (#[trigger] fields[i]).name == name
}

/// Whether entries have a field of a name.
pub open spec fn is_field_name(entries: Seq<SpecRowEntry>, name: Seq<char>) -> bool {
    exists|i: int|
        0 <= i < entries.len() && (#[trigger] entries[i]) is Field && entries[i]->Field_name == name
}

proof fn data_hold_every_field(fields: Seq<SpecDataField>, name: Seq<char>)
    ensures
        is_field_name(data_entries(fields), name) <==> is_declared(fields, name),
    decreases fields.len(),
{
    if fields.len() > 0 {
        let fewer = fields.drop_last();
        let last = fields[fields.len() - 1];
        let earlier = data_entries(fewer);
        let after = data_entries(fields);
        data_hold_every_field(fewer, name);
        let row = SpecRow { entries: earlier, tail: RowTail::Closed };
        assert(crate::families::has_field(row, last.name) == is_field_name(earlier, last.name));
        if is_declared(fewer, name) {
            let i = choose|i: int| 0 <= i < fewer.len() && (#[trigger] fewer[i]).name == name;
            assert(fields[i].name == name);
        }
        if is_declared(fields, name) {
            let i = choose|i: int| 0 <= i < fields.len() && (#[trigger] fields[i]).name == name;
            if i < fewer.len() {
                assert(fewer[i].name == name);
            }
        }
        if !is_field_name(earlier, last.name) {
            let entry = SpecRowEntry::Field { name: last.name, ty: last.ty };
            assert(after == earlier.push(entry));
            assert(after[after.len() - 1] == entry);
            if is_field_name(earlier, name) {
                let i = choose|i: int|
                    0 <= i < earlier.len() && (#[trigger] earlier[i]) is Field
                        && earlier[i]->Field_name == name;
                assert(after[i] is Field && after[i]->Field_name == name);
            }
            if is_field_name(after, name) && name != last.name {
                let i = choose|i: int|
                    0 <= i < after.len() && (#[trigger] after[i]) is Field && after[i]->Field_name
                        == name;
                assert(earlier[i] is Field && earlier[i]->Field_name == name);
            }
        }
        assert(fields[fields.len() - 1].name == last.name);
    }
}

/// A field whose name was not declared before is added to the data at the end; one whose name
/// was is left out and reported.
pub proof fn fields_are_declared_once(fields: Seq<SpecDataField>, field: SpecDataField)
    ensures
        is_declared(fields, field.name) ==> data_entries(fields.push(field)) == data_entries(fields)
            && repeated_fields(fields.push(field)) == repeated_fields(fields).push(
            (field.name, field.name_span),
        ),
        !is_declared(fields, field.name) ==> data_entries(fields.push(field)) == data_entries(
            fields,
        ).push(SpecRowEntry::Field { name: field.name, ty: field.ty }) && repeated_fields(
            fields.push(field),
        ) == repeated_fields(fields),
        defaulted_names(fields.push(field)) == (if field.defaulted {
            defaulted_names(fields).insert(field.name)
        } else {
            defaulted_names(fields)
        }),
        data_entries(Seq::empty()).len() == 0,
        defaulted_names(Seq::empty()) == Set::<Seq<char>>::empty(),
{
    assert(fields.push(field).drop_last() =~= fields);
    data_hold_every_field(fields, field.name);
    let row = SpecRow { entries: data_entries(fields), tail: RowTail::Closed };
    assert(crate::families::has_field(row, field.name) == is_field_name(
        data_entries(fields),
        field.name,
    ));
}

/// A family of records holds its data and has no base; a family on a base has the base and no
/// data. Its name stands for the one or the other.
pub proof fn families_hold_their_data(
    owner: Seq<char>,
    fields: Seq<SpecDataField>,
    base: SpecType,
    base_span: Span,
    attached: Seq<SpecBuiltinMethod>,
)
    ensures
        ({
            let family = provided_family(owner, SpecShape::Record { fields }, attached);
            &&& family.owner == owner
            &&& family.data.entries == data_entries(fields)
            &&& family.data.tail is Closed
            &&& family.defaulted_fields == defaulted_names(fields)
            &&& family.primitive_base is None
            &&& provided_definition(SpecShape::Record { fields }) == SpecType::Record(family.data)
        }),
        ({
            let family = provided_family(owner, SpecShape::Primitive { base, base_span }, attached);
            &&& family.owner == owner
            &&& family.data.entries.len() == 0
            &&& family.primitive_base == Some(base)
            &&& provided_definition(SpecShape::Primitive { base, base_span }) == base
        }),
{
}

/// A family may be made on a builtin scalar, and on an array, a set or a map of known types; on
/// another family, on another application and on everything else it may not, and it is said
/// which.
pub proof fn families_are_made_on_builtin_types(
    base: SpecType,
    owners: Map<Seq<char>, Seq<char>>,
    key: SpecType,
    value: SpecType,
)
    ensures
        base is Named ==> (base_problem(base, owners) is None <==> base == SpecType::Named("Int"@)
            || base == SpecType::Named("Float"@) || base == SpecType::Named("Text"@) || base
            == SpecType::Named("Bool"@)),
        base is Named && base_problem(base, owners) is Some ==> base_problem(base, owners) == Some(
            if owners.contains_key(base->Named_0) {
                BaseProblem::Family
            } else {
                BaseProblem::Scalar
            },
        ),
        crate::type_ops::resolved(crate::rows::applied1("Array"@, value)) ==> base_problem(
            crate::rows::applied1("Array"@, value),
            owners,
        ) is None,
        crate::type_ops::resolved(crate::rows::applied1("Set"@, value)) ==> base_problem(
            crate::rows::applied1("Set"@, value),
            owners,
        ) is None,
        crate::type_ops::resolved(crate::rows::applied2("Map"@, key, value)) ==> base_problem(
            crate::rows::applied2("Map"@, key, value),
            owners,
        ) is None,
        base_problem(crate::rows::applied2("Result"@, key, value), owners) == Some(
            BaseProblem::Container,
        ),
        base is Tuple || base is Function || base is Record || base is Variant ==> base_problem(
            base,
            owners,
        ) == Some(BaseProblem::Scalar),
{
    reveal_strlit("Array");
    reveal_strlit("Set");
    reveal_strlit("Map");
    reveal_strlit("Result");
    assert("Set"@[0] == 'S');
    assert("Map"@[0] == 'M');
}

/// A name stands for the family that its target stands for, unless it stands for one already.
pub proof fn names_stand_for_the_family_of_their_target(
    state: AliasState,
    name: Seq<char>,
    target: Seq<char>,
    other: Seq<char>,
)
    ensures
        ({
            let after = after_alias(state, (name, target));
            &&& state.owners.contains_key(name) ==> after == state
            &&& !state.owners.contains_key(target) ==> after == state
            &&& !state.owners.contains_key(name) && state.owners.contains_key(target) ==> {
                &&& after.owners.contains_key(name)
                &&& after.owners[name] == state.owners[target]
                &&& after.definitions[name] == SpecType::Named(state.owners[target])
            }
            &&& other != name ==> after.owners.contains_key(other) == state.owners.contains_key(
                other,
            )
        }),
{
}

// ---------------------------------------------------------------------------
// Attached methods
// ---------------------------------------------------------------------------
/// A method is attached where all its parameters have types and nothing stands in its way; it
/// changes none that is attached already.
pub proof fn methods_are_attached_in_order(
    state: AttachmentState,
    attachment: SpecAttachment,
    declared: SpecDeclared,
    intrinsic: crate::owners::IntrinsicMethodNames,
    index: int,
)
    ensures
        ({
            let after = after_member(state, attachment, declared, intrinsic);
            let method = attached_from(attachment, declared);
            &&& all_typed(declared.params) && collision(state.methods, method, intrinsic) is None
                ==> after.methods == state.methods.push(method) && after.issues == state.issues
            &&& !all_typed(declared.params) ==> after.methods == state.methods
            &&& 0 <= index < state.methods.len() && clashes(state.methods[index], method)
                ==> after.methods == state.methods
            &&& method.owner == attachment.owner
            &&& method.member == declared.name
            &&& method.result == declared.result
            &&& method.params.len() == declared.params.len()
        }),
{
    let method = attached_from(attachment, declared);
    if 0 <= index < state.methods.len() && clashes(state.methods[index], method) {
        clashes_are_found(state.methods, method, index, 0);
    }
}

proof fn clashes_are_found(
    methods: Seq<SpecBuiltinMethod>,
    candidate: SpecBuiltinMethod,
    index: int,
    from: int,
)
    requires
        0 <= from <= index < methods.len(),
        clashes(methods[index], candidate),
    ensures
        crate::attachments::first_clash(methods, candidate, from) is Some,
    decreases index - from,
{
    if from < index && !clashes(methods[from], candidate) {
        clashes_are_found(methods, candidate, index, from + 1);
    }
}

// ---------------------------------------------------------------------------
// Requirements
// ---------------------------------------------------------------------------
/// A signature fits another parameter by parameter and by its result, where the numbers of
/// parameters are the same.
pub proof fn signatures_are_compared_in_order(
    actual: Seq<SpecType>,
    actual_result: SpecType,
    expected: Seq<SpecType>,
    expected_result: SpecType,
    index: int,
)
    ensures
        ({
            let goals = signature_goals(actual, actual_result, expected, expected_result);
            &&& goals is Some <==> actual.len() == expected.len()
            &&& goals is Some ==> {
                &&& (goals->0).len() == actual.len() + 1
                &&& 0 <= index < actual.len() ==> (goals->0)[index] == (
                    actual[index],
                    expected[index],
                )
                &&& (goals->0)[actual.len() as int] == (actual_result, expected_result)
            }
        }),
{
}

/// A requirement that is written out must say that the type may have more methods; where it
/// does not, it is said so. A name stands for the requirement that it is bound to.
pub proof fn requirements_are_open(
    bound: Expr,
    span: Span,
    candidate: Candidate,
    bounds: Map<Seq<char>, Expr>,
    known: Definitions,
    facts: AnnotationFacts,
    visiting: Set<Seq<char>>,
    next: u32,
)
    requires
        bounds.dom().finite(),
    ensures
        ({
            let asked = required(bound, span, candidate, bounds, known, facts, visiting, next);
            &&& bound.kind is Group ==> asked == required(
                *bound.kind->Group_0,
                span,
                candidate,
                bounds,
                known,
                facts,
                visiting,
                next,
            )
            &&& bound.kind is Record && bound.kind->Record_0@.len() == 0 ==> asked.predicates.len()
                == 0 && asked.events.len() == 1 && asked.events[0] is NeedsOpen
            &&& bound.kind is ComptimeName && !visiting.contains(bound.kind->ComptimeName_0@)
                && !bounds.contains_key(bound.kind->ComptimeName_0@) ==> asked.predicates.len() == 0
                && asked.events == seq![
                SpecRequirementEvent::Unknown { name: bound.kind->ComptimeName_0@, span },
            ]
            &&& bound.kind is ComptimeName && visiting.contains(bound.kind->ComptimeName_0@)
                ==> asked.predicates.len() == 0 && asked.events.len() == 0
            &&& bound.kind is Literal ==> asked.predicates.len() == 0 && asked.events == seq![
                SpecRequirementEvent::InvalidBound { span },
            ]
        }),
{
    if bound.kind is Record && bound.kind->Record_0@.len() == 0 {
        let entries = bound.kind->Record_0@;
        let rest = all_required(entries, candidate, bounds, known, facts, visiting, next, 0);
        assert(rest.events == Seq::<SpecRequirementEvent>::empty());
        assert(rest.predicates == Seq::<SpecPredicate>::empty());
    }
}

proof fn more_entries_ask_the_same(
    entries: Seq<RecordEntry>,
    entry: RecordEntry,
    candidate: Candidate,
    bounds: Map<Seq<char>, Expr>,
    known: Definitions,
    facts: AnnotationFacts,
    visiting: Set<Seq<char>>,
    next: u32,
    count: nat,
)
    requires
        bounds.dom().finite(),
        count <= entries.len(),
    ensures
        all_required(entries.push(entry), candidate, bounds, known, facts, visiting, next, count)
            == all_required(entries, candidate, bounds, known, facts, visiting, next, count),
    decreases count,
{
    if count > 0 {
        more_entries_ask_the_same(
            entries,
            entry,
            candidate,
            bounds,
            known,
            facts,
            visiting,
            next,
            (count - 1) as nat,
        );
        assert(entries.push(entry)[count - 1] == entries[count - 1]);
    }
}

/// One more method in a requirement asks for one more method of the candidate, with what its
/// annotation comes to for the parameters and the result.
pub proof fn requirements_ask_for_their_methods(
    entries: Seq<RecordEntry>,
    method: RecordEntry,
    candidate: Candidate,
    bounds: Map<Seq<char>, Expr>,
    known: Definitions,
    facts: AnnotationFacts,
    visiting: Set<Seq<char>>,
    next: u32,
)
    requires
        bounds.dom().finite(),
        method is Method,
        method->Method_value.kind is Arrow,
    ensures
        ({
            let more = entries.push(method);
            let before = all_required(
                entries,
                candidate,
                bounds,
                known,
                facts,
                visiting,
                next,
                entries.len(),
            );
            let after = all_required(
                more,
                candidate,
                bounds,
                known,
                facts,
                visiting,
                next,
                more.len(),
            );
            let params = method->Method_value.kind->Arrow_params@;
            let list = lowered_all(params, known, facts, before.next, params.len());
            let end = lowered(*method->Method_value.kind->Arrow_result, known, facts, list.next);
            let asked = after.predicates[before.predicates.len() as int];
            &&& after.predicates.len() == before.predicates.len() + 1
            &&& after.predicates.take(before.predicates.len() as int) == before.predicates
            &&& asked.candidate == candidate.ty@
            &&& asked.member == method->Method_name@
            &&& asked.params == candidate.placed_all(list.types)
            &&& asked.result == candidate.placed(end.ty)
        }),
{
    let more = entries.push(method);
    more_entries_ask_the_same(
        entries,
        method,
        candidate,
        bounds,
        known,
        facts,
        visiting,
        next,
        entries.len(),
    );
    assert(more[entries.len() as int] == method);
    let before = all_required(
        entries,
        candidate,
        bounds,
        known,
        facts,
        visiting,
        next,
        entries.len(),
    );
    let after = all_required(more, candidate, bounds, known, facts, visiting, next, more.len());
    let last = crate::requirements::required_entry(
        method->Method_name@,
        method->Method_name_span,
        *method->Method_value,
        candidate,
        known,
        facts,
        before.next,
    );
    assert(after == crate::requirements::followed_by(before, last));
    assert(after.predicates.take(before.predicates.len() as int) =~= before.predicates);
}

/// Settling a requirement takes literals for their builtin type, in the candidate and wherever
/// its type occurs in the signature.
pub proof fn settling_widens_the_candidate(predicate: SpecPredicate)
    ensures
        settled(predicate).candidate == crate::type_ops::widened_owner(predicate.candidate),
        settled(predicate).member == predicate.member,
        predicate.result == predicate.candidate ==> settled(predicate).result == settled(
            predicate,
        ).candidate,
        settled(predicate).params.len() == predicate.params.len(),
        !some_node(predicate.result, is_node(predicate.candidate)) ==> settled(predicate).result
            == predicate.result,
{
    let candidate = crate::type_ops::widened_owner(predicate.candidate);
    let rule = replacement_rule(predicate.candidate, candidate);
    if !some_node(predicate.result, is_node(predicate.candidate)) {
        let test = crate::type_laws::is_replaced(rule);
        assert forall|node: SpecType| #[trigger] test(node) == is_node(predicate.candidate)(
            node,
        ) by {}
        assert(test =~= is_node(predicate.candidate));
        crate::type_laws::rewriting_keeps_the_rest(predicate.result, rule);
    }
}

} // verus!
