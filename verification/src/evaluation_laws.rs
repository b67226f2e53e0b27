//! Laws of the evaluation of definitions, of calls at compile time, and of what a module
//! publishes.
use crate::collections::StringMap;
use crate::comptime_calls::{argument_literals, named_types, nearest_value, ArgumentStep};
use crate::heads::{
    filled, filled_all, filled_entry, filled_row, mentioned, mentioned_in, mentioned_in_entries,
    mentioned_in_entry, said_by, SpecAnswer,
};
use crate::knowledge::{
    last_known, transportable, EvaluatedValue, ExecutionContext, SpecKnown,
};
use crate::method_calls::{
    accesses, body_types, first_misfit, first_unused, is_param_call, is_plain_access, route_of,
    CallRoute, ParamCall, ParamFacts, RouteFacts,
};
use crate::publication::{published_types, starting_types, PublishedDeclaration};
use crate::rows::ComptimeValue;
use crate::schemes::TypeScheme;
use crate::span::Span;
use crate::specialization::{
    definition_start, finished, frame_position, is_cycle, is_productive, member_result,
    unproductive, with_members, Productivity, SpecEvaluation, SpecFinished, SpecFrame, SpecResult,
    SpecStack, SpecStart,
};
use crate::syntax::{Expr, ExprKind};
use crate::type_ops::{mapped, mapped_all, mapped_entry, mapped_row};
use crate::types::{RecursiveTypeId, SpecLiteral, SpecRow, SpecRowEntry, SpecType};
use vstd::prelude::*;

verus! {

// ---------------------------------------------------------------------------
// Names of definitions in a type
// ---------------------------------------------------------------------------
/// Each name of a definition stands for its image. Methods that are asked for are left alone.
pub open spec fn image_rule(
    names: Set<Seq<char>>,
    images: Map<Seq<char>, SpecType>,
) -> spec_fn(SpecType) -> Option<SpecType> {
    |ty: SpecType|
        match ty {
            SpecType::Named(name) => if names.contains(name) {
                Some(images[name])
            } else {
                None
            },
            SpecType::SlotRecord { .. } => Some(ty),
            _ => None,
        }
}

/// Where the answers are what the names in a type stand for, one for each mention and in the
/// order of the mentions, the type is filled with what each of its names stands for.
pub proof fn names_are_filled_by_their_answers(
    ty: SpecType,
    names: Set<Seq<char>>,
    answers: Seq<SpecAnswer>,
    images: Map<Seq<char>, SpecType>,
)
    requires
        forall|j: int|
            0 <= j < mentioned(ty, names).len() ==> answers[j].ty == Some(
                images[#[trigger] mentioned(ty, names)[j]],
            ),
    ensures
        filled(ty, names, answers, 0) == mapped(ty, image_rule(names, images)),
{
    filled_by_answers(ty, names, answers, 0, images);
}

proof fn filled_by_answers(
    ty: SpecType,
    names: Set<Seq<char>>,
    answers: Seq<SpecAnswer>,
    from: int,
    images: Map<Seq<char>, SpecType>,
)
    requires
        forall|j: int|
            0 <= j < mentioned(ty, names).len() ==> answers[from + j].ty == Some(
                images[#[trigger] mentioned(ty, names)[j]],
            ),
    ensures
        filled(ty, names, answers, from) == mapped(ty, image_rule(names, images)),
    decreases ty, 1nat,
{
    let rule = image_rule(names, images);
    match ty {
        SpecType::Named(name) => {
            if names.contains(name) {
                assert(mentioned(ty, names) == seq![name]);
                assert(mentioned(ty, names)[0] == name);
            }
        },
        SpecType::Apply { callee, args } => {
            let first = mentioned(*callee, names);
            let rest = mentioned_in(args, names, args.len());
            assert(mentioned(ty, names) == first + rest);
            assert forall|j: int| 0 <= j < first.len() implies answers[from + j].ty == Some(
                images[#[trigger] first[j]],
            ) by {
                assert(mentioned(ty, names)[j] == first[j]);
            }
            assert forall|j: int| 0 <= j < rest.len() implies answers[from + first.len() + j].ty
                == Some(images[#[trigger] rest[j]]) by {
                assert(mentioned(ty, names)[first.len() + j] == rest[j]);
            }
            filled_by_answers(*callee, names, answers, from, images);
            lists_filled_by_answers(args, names, answers, from + first.len() as int, images);
            assert(mapped(ty, rule) == SpecType::Apply {
                callee: Box::new(mapped(*callee, rule)),
                args: mapped_all(args, rule),
            });
        },
        SpecType::Function { params, result, required } => {
            let first = mentioned_in(params, names, params.len());
            let rest = mentioned(*result, names);
            assert(mentioned(ty, names) == first + rest);
            assert forall|j: int| 0 <= j < first.len() implies answers[from + j].ty == Some(
                images[#[trigger] first[j]],
            ) by {
                assert(mentioned(ty, names)[j] == first[j]);
            }
            assert forall|j: int| 0 <= j < rest.len() implies answers[from + first.len() + j].ty
                == Some(images[#[trigger] rest[j]]) by {
                assert(mentioned(ty, names)[first.len() + j] == rest[j]);
            }
            lists_filled_by_answers(params, names, answers, from, images);
            filled_by_answers(*result, names, answers, from + first.len() as int, images);
            assert(mapped(ty, rule) == SpecType::Function {
                params: mapped_all(params, rule),
                result: Box::new(mapped(*result, rule)),
                required,
            });
        },
        SpecType::Optional(inner) => {
            assert(mentioned(ty, names) == mentioned(*inner, names));
            filled_by_answers(*inner, names, answers, from, images);
        },
        SpecType::Nullable(inner) => {
            assert(mentioned(ty, names) == mentioned(*inner, names));
            filled_by_answers(*inner, names, answers, from, images);
        },
        SpecType::Tuple(items) => {
            assert(mentioned(ty, names) == mentioned_in(items, names, items.len()));
            lists_filled_by_answers(items, names, answers, from, images);
        },
        SpecType::Record(row) => {
            assert(mentioned(ty, names) == mentioned_in_entries(
                row.entries,
                names,
                row.entries.len(),
            ));
            rows_filled_by_answers(row, names, answers, from, images);
        },
        SpecType::Variant(row) => {
            assert(mentioned(ty, names) == mentioned_in_entries(
                row.entries,
                names,
                row.entries.len(),
            ));
            rows_filled_by_answers(row, names, answers, from, images);
        },
        _ => {},
    }
}

proof fn lists_filled_by_answers(
    types: Seq<SpecType>,
    names: Set<Seq<char>>,
    answers: Seq<SpecAnswer>,
    from: int,
    images: Map<Seq<char>, SpecType>,
)
    requires
        forall|j: int|
            0 <= j < mentioned_in(types, names, types.len()).len() ==> answers[from + j].ty == Some(
                images[#[trigger] mentioned_in(types, names, types.len())[j]],
            ),
    ensures
        filled_all(types, names, answers, from) == mapped_all(types, image_rule(names, images)),
    decreases types, 0nat,
{
    let rule = image_rule(names, images);
    let all = mentioned_in(types, names, types.len());
    assert forall|i: int| 0 <= i < types.len() implies #[trigger] filled_all(
        types,
        names,
        answers,
        from,
    )[i] == mapped_all(types, rule)[i] by {
        let before = mentioned_in(types, names, i as nat).len();
        assert forall|j: int| 0 <= j < mentioned(types[i], names).len() implies answers[from
            + before + j].ty == Some(images[#[trigger] mentioned(types[i], names)[j]]) by {
            mentions_of_lists_stand_in_order(types, names, i, types.len(), j);
            assert(all[before + j] == mentioned(types[i], names)[j]);
        }
        filled_by_answers(types[i], names, answers, from + before as int, images);
    }
    assert(filled_all(types, names, answers, from) =~= mapped_all(types, rule));
}

proof fn mentions_of_lists_stand_in_order(
    types: Seq<SpecType>,
    names: Set<Seq<char>>,
    index: int,
    count: nat,
    position: int,
)
    requires
        0 <= index < count <= types.len(),
        0 <= position < mentioned(types[index], names).len(),
    ensures
        mentioned_in(types, names, index as nat).len() + position < mentioned_in(
            types,
            names,
            count,
        ).len(),
        mentioned_in(types, names, count)[mentioned_in(types, names, index as nat).len()
            + position] == mentioned(types[index], names)[position],
    decreases count,
{
    if index < count - 1 {
        mentions_of_lists_stand_in_order(types, names, index, (count - 1) as nat, position);
    }
}

proof fn rows_filled_by_answers(
    row: SpecRow,
    names: Set<Seq<char>>,
    answers: Seq<SpecAnswer>,
    from: int,
    images: Map<Seq<char>, SpecType>,
)
    requires
        forall|j: int|
            0 <= j < mentioned_in_entries(row.entries, names, row.entries.len()).len()
                ==> answers[from + j].ty == Some(
                images[#[trigger] mentioned_in_entries(row.entries, names, row.entries.len())[j]],
            ),
    ensures
        filled_row(row, names, answers, from) == mapped_row(row, image_rule(names, images)),
    decreases row, 0nat,
{
    let rule = image_rule(names, images);
    let entries = row.entries;
    let all = mentioned_in_entries(entries, names, entries.len());
    assert forall|i: int| 0 <= i < entries.len() implies #[trigger] filled_row(
        row,
        names,
        answers,
        from,
    ).entries[i] == mapped_row(row, rule).entries[i] by {
        let before = mentioned_in_entries(entries, names, i as nat).len();
        let own = mentioned_in_entry(entries[i], names);
        assert forall|j: int| 0 <= j < own.len() implies answers[from + before + j].ty == Some(
            images[#[trigger] own[j]],
        ) by {
            mentions_of_entries_stand_in_order(entries, names, i, entries.len(), j);
            assert(all[before + j] == own[j]);
        }
        match entries[i] {
            SpecRowEntry::Field { ty, .. } => {
                assert(own == mentioned(ty, names));
                filled_by_answers(ty, names, answers, from + before as int, images);
            },
            SpecRowEntry::Tag { payload, .. } => {
                assert(own == mentioned_in(payload, names, payload.len()));
                lists_filled_by_answers(payload, names, answers, from + before as int, images);
            },
            SpecRowEntry::Literal { .. } => {},
        }
        assert(filled_entry(entries[i], names, answers, from + before as int) == mapped_entry(
            entries[i],
            rule,
        ));
    }
    assert(filled_row(row, names, answers, from).entries =~= mapped_row(row, rule).entries);
}

proof fn mentions_of_entries_stand_in_order(
    entries: Seq<SpecRowEntry>,
    names: Set<Seq<char>>,
    index: int,
    count: nat,
    position: int,
)
    requires
        0 <= index < count <= entries.len(),
        0 <= position < mentioned_in_entry(entries[index], names).len(),
    ensures
        mentioned_in_entries(entries, names, index as nat).len() + position
            < mentioned_in_entries(entries, names, count).len(),
        mentioned_in_entries(entries, names, count)[mentioned_in_entries(
            entries,
            names,
            index as nat,
        ).len() + position] == mentioned_in_entry(entries[index], names)[position],
    decreases count,
{
    if index < count - 1 {
        mentions_of_entries_stand_in_order(entries, names, index, (count - 1) as nat, position);
    }
}

/// What the answers say is passed on in their order.
pub proof fn answers_speak_in_order(answers: Seq<SpecAnswer>, answer: SpecAnswer)
    ensures
        said_by(answers.push(answer), answers.len() + 1) == said_by(answers, answers.len())
            + answer.diagnostics,
{
    said_by_prefix(answers, answer, answers.len());
}

proof fn said_by_prefix(answers: Seq<SpecAnswer>, answer: SpecAnswer, count: nat)
    requires
        count <= answers.len(),
    ensures
        said_by(answers.push(answer), count) == said_by(answers, count),
    decreases count,
{
    if count > 0 {
        said_by_prefix(answers, answer, (count - 1) as nat);
    }
}

// ---------------------------------------------------------------------------
// Evaluations that run
// ---------------------------------------------------------------------------
proof fn begun_evaluations_are_found(frames: Seq<SpecFrame>, key: Seq<char>, from: int)
    requires
        0 <= from <= frames.len(),
    ensures
        frame_position(frames, key, from) is Some <==> exists|i: int|
            from <= i < frames.len() && (#[trigger] frames[i]).key == key,
        frame_position(frames, key, from) is Some ==> from <= frame_position(frames, key, from)->0
            < frames.len() && frames[frame_position(frames, key, from)->0].key == key,
    decreases frames.len() - from,
{
    if from < frames.len() {
        begun_evaluations_are_found(frames, key, from + 1);
        if frames[from].key == key {
            assert(frame_position(frames, key, from) == Some(from));
        }
    }
}

/// A definition that was evaluated is answered by its result and not evaluated again. One whose
/// evaluation runs stands for its recursive type. Any other is evaluated, unless as many
/// evaluations run as may.
pub proof fn definitions_are_evaluated_once(
    stack: SpecStack,
    key: Seq<char>,
    definition: Seq<char>,
    id: RecursiveTypeId,
    call_span: Span,
    limit: nat,
    place: int,
)
    requires
        stack.well_formed(),
    ensures
        ({
            let (after, start) = definition_start(stack, key, definition, id, call_span, limit);
            &&& stack.cache.contains_key(key) ==> start == SpecStart::Answer(stack.cache[key])
                && after == stack
            &&& !stack.cache.contains_key(key) && 0 <= place < stack.frames.len()
                && stack.frames[place].key == key && stack.calls.len() > 0 ==> start
                == SpecStart::Answer(
                SpecResult {
                    evaluation: SpecEvaluation::Reified(
                        SpecType::Recursive(stack.frames[place].id),
                    ),
                    diagnostics: Seq::empty(),
                },
            )
            &&& !stack.cache.contains_key(key) && (forall|i: int|
                0 <= i < stack.frames.len() ==> (#[trigger] stack.frames[i]).key != key) ==> (
            start is LimitReached <==> stack.calls.len() >= limit) && (start is Resolve
                <==> stack.calls.len() < limit)
            &&& start is LimitReached ==> after == stack
            &&& start is Resolve ==> after.frames.len() == stack.frames.len() + 1
                && after.frames.last().key == key && after.frames.last().id == id
                && after.frames.last().definition == definition && after.calls == stack.calls.push(
                key,
            ) && after.cache == stack.cache && after.frames.drop_last() == stack.frames
        }),
{
    begun_evaluations_are_found(stack.frames, key, 0);
    let after = definition_start(stack, key, definition, id, call_span, limit).0;
    if stack.calls.len() > 0 {
        let last = stack.calls.len() - 1;
        assert(stack.is_active(stack.calls[last]));
        begun_evaluations_are_found(stack.frames, stack.calls.last(), 0);
    }
    if 0 <= place < stack.frames.len() && stack.frames[place].key == key {
        let found = frame_position(stack.frames, key, 0)->0;
        if found < place {
            assert(stack.frames[found].key != stack.frames[place].key);
        } else if place < found {
            assert(stack.frames[place].key != stack.frames[found].key);
        }
    }
    if definition_start(stack, key, definition, id, call_span, limit).1 is Resolve {
        assert(after.frames.drop_last() =~= stack.frames);
    }
}

/// An evaluation that meets one that runs leads back at least as far as that one; the others are
/// left alone.
pub proof fn meeting_leads_back(stack: SpecStack, key: Seq<char>, place: int, other: int)
    requires
        stack.well_formed(),
        stack.calls.len() > 0,
        0 <= place < stack.frames.len(),
        stack.frames[place].key == key,
        0 <= other < stack.frames.len(),
    ensures
        ({
            let after = stack.referred(key).0;
            &&& after.frames.len() == stack.frames.len()
            &&& after.calls == stack.calls
            &&& after.cache == stack.cache
            &&& stack.frames[other].key == stack.calls.last() ==> after.frames[other].lowlink
                <= place && after.frames[other].lowlink <= stack.frames[other].lowlink && (
            after.frames[other].lowlink == place || after.frames[other].lowlink
                == stack.frames[other].lowlink) && after.frames[other].self_edge == (
            stack.frames[other].self_edge || other == place)
            &&& stack.frames[other].key != stack.calls.last() ==> after.frames[other]
                == stack.frames[other]
        }),
{
    begun_evaluations_are_found(stack.frames, key, 0);
    let last = stack.calls.len() - 1;
    assert(stack.is_active(stack.calls[last]));
    begun_evaluations_are_found(stack.frames, stack.calls.last(), 0);
    let target = frame_position(stack.frames, key, 0)->0;
    let current = frame_position(stack.frames, stack.calls.last(), 0)->0;
    assert(stack.frames[target].index == target);
    if target != place {
        if target < place {
            assert(stack.frames[target].key != stack.frames[place].key);
        } else {
            assert(stack.frames[place].key != stack.frames[target].key);
        }
    }
    if stack.frames[other].key == stack.calls.last() && current != other {
        if current < other {
            assert(stack.frames[current].key != stack.frames[other].key);
        } else {
            assert(stack.frames[other].key != stack.frames[current].key);
        }
    }
    if other != place && stack.frames[other].key == key {
        if other < place {
            assert(stack.frames[other].key != stack.frames[place].key);
        } else {
            assert(stack.frames[place].key != stack.frames[other].key);
        }
    }
}

/// An evaluation that leads back to an earlier one stands for its recursive type until that one
/// is finished; one that leads back to none is finished with all that began after it. It is part
/// of a cycle if any did, or if it met itself. A result that no type came of is not kept.
pub proof fn evaluations_finish_with_what_they_lead_to(
    stack: SpecStack,
    result: SpecResult,
    place: int,
)
    requires
        stack.well_formed(),
        stack.calls.len() > 0,
        0 <= place < stack.frames.len(),
        stack.frames[place].key == stack.calls.last(),
    ensures
        ({
            let key = stack.calls.last();
            let frame = stack.frames[place];
            let (after, outcome) = finished(stack, key, result);
            &&& after.calls == stack.calls.drop_last()
            &&& frame.lowlink < place ==> outcome == SpecFinished::Result(
                SpecResult {
                    evaluation: SpecEvaluation::Reified(SpecType::Recursive(frame.id)),
                    diagnostics: result.diagnostics,
                },
            ) && after.frames.len() == stack.frames.len() && after.cache == stack.cache
            &&& frame.lowlink == place ==> after.frames == stack.frames.take(place)
            &&& frame.lowlink == place ==> (outcome is Cycle <==> place + 1 < stack.frames.len()
                || frame.self_edge)
            &&& frame.lowlink == place && !(outcome is Cycle) ==> outcome == SpecFinished::Result(
                result,
            ) && after.cache == (if result.evaluation is Unsupported {
                stack.cache
            } else {
                stack.cache.insert(key, result)
            })
        }),
{
    let key = stack.calls.last();
    begun_evaluations_are_found(stack.frames, key, 0);
    let position = frame_position(stack.frames, key, 0)->0;
    if position < place {
        assert(stack.frames[position].key != stack.frames[place].key);
    } else if place < position {
        assert(stack.frames[place].key != stack.frames[position].key);
    }
    let frame = stack.frames[place];
    assert(frame.index == place && frame.lowlink <= place);
    let kept = stack.with_result(place, result);
    let after = kept.returned();
    assert(after.frames.take(place) =~= stack.frames.take(place));
    if after.calls.len() > 0 {
        begun_evaluations_are_found(after.frames, after.calls.last(), 0);
    }
    let component = after.frames.skip(place);
    assert(component.len() == stack.frames.len() - place);
    assert(component[0].self_edge == frame.self_edge);
    if component.len() == 1 {
        assert(is_cycle(component) == frame.self_edge);
    }
}

// ---------------------------------------------------------------------------
// Finite values
// ---------------------------------------------------------------------------
/// A type has a finite value if all parts that it needs do, or one of those it may have.
pub proof fn finite_values_are_made_of_finite_values(
    formula: Productivity,
    index: int,
    known: Set<RecursiveTypeId>,
)
    ensures
        formula is Always ==> is_productive(formula, known),
        formula is Never ==> !is_productive(formula, known),
        formula matches Productivity::Reference(id) ==> is_productive(formula, known)
            == known.contains(id),
        formula matches Productivity::All(parts) ==> (0 <= index < parts@.len() && !is_productive(
            parts@[index],
            known,
        ) ==> !is_productive(formula, known)),
        formula matches Productivity::All(parts) ==> ((forall|i: int|
            0 <= i < parts@.len() ==> is_productive(#[trigger] parts@[i], known)) ==> is_productive(
            formula,
            known,
        )),
        formula matches Productivity::Any(parts) ==> (0 <= index < parts@.len() && is_productive(
            parts@[index],
            known,
        ) ==> is_productive(formula, known)),
        formula matches Productivity::Any(parts) ==> ((forall|i: int|
            0 <= i < parts@.len() ==> !is_productive(#[trigger] parts@[i], known))
            ==> !is_productive(formula, known)),
{
    match formula {
        Productivity::All(parts) => {
            if 0 <= index < parts@.len() && is_productive(formula, known) {
                assert(is_productive(parts@[index], known));
            }
        },
        Productivity::Any(parts) => {
            if is_productive(formula, known) {
                let part = choose|i: int|
                    0 <= i < parts@.len() && is_productive(#[trigger] parts@[i], known);
                assert(is_productive(parts@[part], known));
            }
        },
        _ => {},
    }
}

/// Where more types have a finite value, no fewer others do.
pub proof fn finite_values_are_not_lost(
    formula: Productivity,
    few: Set<RecursiveTypeId>,
    many: Set<RecursiveTypeId>,
)
    requires
        few.subset_of(many),
        is_productive(formula, few),
    ensures
        is_productive(formula, many),
    decreases formula,
{
    match formula {
        Productivity::All(parts) => {
            assert forall|i: int| 0 <= i < parts@.len() implies is_productive(
                #[trigger] parts@[i],
                many,
            ) by {
                assert(is_productive(parts@[i], few));
                finite_values_are_not_lost(parts@[i], few, many);
            }
        },
        Productivity::Any(parts) => {
            let part = choose|i: int|
                0 <= i < parts@.len() && is_productive(#[trigger] parts@[i], few);
            finite_values_are_not_lost(parts@[part], few, many);
        },
        _ => {},
    }
}

/// Every member of a cycle stands for its recursive type. Its own messages are kept, and one is
/// added where it has no finite value and is not merely another name.
pub proof fn members_of_cycles_are_recursive_types(
    frame: SpecFrame,
    own: SpecResult,
    productive: bool,
    transparent: bool,
    forcing: Option<Seq<char>>,
)
    requires
        frame.result == Some(own),
    ensures
        ({
            let result = member_result(frame, productive, transparent, forcing);
            &&& result.evaluation == SpecEvaluation::Reified(SpecType::Recursive(frame.id))
            &&& productive || transparent ==> result.diagnostics == own.diagnostics
            &&& !productive && !transparent ==> result.diagnostics == own.diagnostics.push(
                unproductive(frame, forcing),
            )
        }),
{
}

/// Of each member of a cycle its own result is kept, and nothing else changes.
pub proof fn results_of_cycles_are_kept(
    cache: Map<Seq<char>, SpecResult>,
    component: Seq<SpecFrame>,
    productive: Seq<bool>,
    transparent: bool,
    forcing: Seq<Option<Seq<char>>>,
    count: nat,
    key: Seq<char>,
)
    requires
        count <= component.len(),
        forall|i: int, j: int|
            0 <= i < j < component.len() ==> (#[trigger] component[i]).key != (
            #[trigger] component[j]).key,
    ensures
        ({
            let after = with_members(cache, component, productive, transparent, forcing, count);
            &&& forall|i: int|
                0 <= i < count && (#[trigger] component[i]).key == key ==> after.contains_key(key)
                    && after[key] == member_result(
                    component[i],
                    productive[i],
                    transparent,
                    forcing[i],
                )
            &&& (forall|i: int| 0 <= i < count ==> (#[trigger] component[i]).key != key) ==> (
            after.contains_key(key) == cache.contains_key(key)) && after[key] == cache[key]
        }),
    decreases count,
{
    if count > 0 {
        results_of_cycles_are_kept(
            cache,
            component,
            productive,
            transparent,
            forcing,
            (count - 1) as nat,
            key,
        );
        if component[count - 1].key != key {
        } else {
            assert forall|i: int| 0 <= i < count && (#[trigger] component[i]).key == key implies i
                == count - 1 by {
                if i < count - 1 {
                    assert(component[i].key != component[count - 1].key);
                }
            }
        }
    }
}

// ---------------------------------------------------------------------------
// Values at compile time
// ---------------------------------------------------------------------------
/// A name has the value of the innermost scope that has one.
pub proof fn inner_values_hide_outer_ones(
    scopes: Seq<StringMap<ComptimeValue>>,
    inner: StringMap<ComptimeValue>,
    name: Seq<char>,
)
    ensures
        nearest_value(scopes.push(inner), name) == (if inner@.contains_key(name) {
            Some(inner@[name])
        } else {
            nearest_value(scopes, name)
        }),
        nearest_value(Seq::empty(), name) is None,
{
    assert(scopes.push(inner).drop_last() =~= scopes);
    assert(scopes.push(inner).last() == inner);
}

/// A value stands for its literals: a literal and a truth value for one, labels for one text each
/// and in order, a type for none.
pub proof fn values_stand_for_their_literals(value: ComptimeValue)
    ensures
        value matches ComptimeValue::Literal(literal) ==> argument_literals(value)
            == seq![literal@],
        value matches ComptimeValue::Bool(truth) ==> argument_literals(value)
            == seq![SpecLiteral::Bool(truth)],
        value is ReifiedType ==> argument_literals(value).len() == 0,
        value matches ComptimeValue::LabelSet(labels) ==> argument_literals(value).len()
            == labels@.len() && forall|i: int|
            0 <= i < labels@.len() ==> #[trigger] argument_literals(value)[i]
                == SpecLiteral::String("\""@ + labels@[i]@ + "\""@),
{
}

/// A name in an annotation stands for the type at its place; an annotation of another form than
/// the type names nothing in it.
pub proof fn annotations_name_the_types_at_their_places(
    annotation: Expr,
    actual: SpecType,
    known: Map<Seq<char>, SpecType>,
)
    ensures
        annotation.kind matches ExprKind::Name(name) ==> named_types(annotation, actual, known)
            == known.insert(name@, actual),
        annotation.kind matches ExprKind::Group(inner) ==> named_types(annotation, actual, known)
            == named_types(*inner, actual, known),
        annotation.kind matches ExprKind::Optional(inner) ==> named_types(
            annotation,
            actual,
            known,
        ) == (if actual is Optional {
            named_types(*inner, *actual->Optional_0, known)
        } else {
            known
        }),
        annotation.kind matches ExprKind::Nullable(inner) ==> named_types(
            annotation,
            actual,
            known,
        ) == (if actual is Nullable {
            named_types(*inner, *actual->Nullable_0, known)
        } else {
            known
        }),
        annotation.kind is Literal || annotation.kind is ComptimeName || annotation.kind is Tag
            ==> named_types(annotation, actual, known) == known,
        annotation.kind is Tuple && !(actual is Tuple) ==> named_types(annotation, actual, known)
            == known,
        annotation.kind is Arrow && !(actual is Function) ==> named_types(
            annotation,
            actual,
            known,
        ) == known,
{
}

/// Of a value that is a scalar or empty that value itself is known, and of any other nothing.
pub proof fn scalars_are_known_as_they_are(value: EvaluatedValue)
    ensures
        value matches EvaluatedValue::Number(text) ==> transportable(value) == Some(
            SpecKnown::Number(text@),
        ),
        value matches EvaluatedValue::Text(text) ==> transportable(value) == Some(
            SpecKnown::Text(text@),
        ),
        value matches EvaluatedValue::Bool(truth) ==> transportable(value) == Some(
            SpecKnown::Bool(truth),
        ),
        value is Undefined ==> transportable(value) == Some(SpecKnown::Undefined),
        value is Null ==> transportable(value) == Some(SpecKnown::Null),
        value is Other ==> transportable(value) is None,
{
}

/// What is found of a place in a context replaces what was found of it there, and of no other
/// place nor context.
pub proof fn the_last_finding_of_a_place_counts(
    placed: Seq<((Span, ExecutionContext), SpecKnown)>,
    place: (Span, ExecutionContext),
    known: SpecKnown,
    other: (Span, ExecutionContext),
)
    ensures
        last_known(placed.push((place, known)), other) == (if other == place {
            Some(known)
        } else {
            last_known(placed, other)
        }),
        last_known(Seq::empty(), other) is None,
{
    assert(placed.push((place, known)).drop_last() =~= placed);
    assert(placed.push((place, known)).last() == (place, known));
}

// ---------------------------------------------------------------------------
// Calls
// ---------------------------------------------------------------------------
/// A rule types a call only where what it asks for is there; a rule that comes before another is
/// not passed over where it applies.
pub proof fn calls_are_typed_by_the_rule_they_fit(
    callee: Expr,
    arg_count: nat,
    facts: RouteFacts,
)
    ensures
        ({
            let route = route_of(callee, arg_count, facts);
            &&& (route == CallRoute::VariantConstructor) == (callee.kind is Tag)
            &&& (route == CallRoute::FamilyConstructor) == (facts.is_family && !(callee.kind
                is Tag))
            &&& route == CallRoute::TextDecode ==> accesses(callee, "decode"@)
                && facts.receiver_is_text
            &&& route == CallRoute::ValueEncode ==> accesses(callee, "encode"@)
                && !facts.receiver_has_member
            &&& route == CallRoute::SlotConversion ==> accesses(callee, "to"@) && arg_count == 1
                && facts.argument_asks_for_methods
            &&& route == CallRoute::MapConstructor ==> arg_count == 1 && facts.map_takes_one
                && !facts.map_is_shadowed
            &&& route == CallRoute::RecordSelection ==> facts.selects_fields
            &&& route == CallRoute::HostFunction ==> facts.is_host_function
                && !facts.selects_fields
            &&& route == CallRoute::ComptimeFunction ==> facts.is_comptime_function
                && !facts.is_host_function
            &&& route == CallRoute::Method ==> facts.has_method && is_plain_access(callee)
                && !facts.is_comptime_function && !facts.is_host_function
            &&& route == CallRoute::Function ==> !facts.is_family && !facts.is_host_function
                && !facts.is_comptime_function && !facts.selects_fields && !(is_plain_access(
                callee,
            ) && facts.has_method)
            &&& callee.kind is Name && callee.kind->Name_0@ == "import"@ && !facts.is_family
                ==> route == CallRoute::Import
        }),
{
}

/// The body of a function at compile time is typed exactly where it gets as many arguments as it
/// has parameters, the ordinary ones all fit, and all that are known at compile time are used. A
/// number of arguments that is not right is said first, and ordinary arguments that do not fit
/// keep the call without a type.
pub proof fn bodies_are_typed_where_all_arguments_serve(
    params: Seq<ParamFacts>,
    arg_count: nat,
    uppercase: bool,
    call: ParamCall,
)
    requires
        is_param_call(params, arg_count, uppercase, call),
    ensures
        call is Arity <==> params.len() != arg_count,
        call is Body <==> params.len() == arg_count && (forall|i: int|
            0 <= i < params.len() && !(#[trigger] params[i]).comptime ==> params[i].fits) && (
        forall|i: int|
            0 <= i < params.len() && (#[trigger] params[i]).comptime
                ==> crate::method_calls::argument_step_of(params[i], uppercase)
                == ArgumentStep::Use),
        params.len() == arg_count && (exists|i: int|
            0 <= i < params.len() && !(#[trigger] params[i]).comptime && !params[i].fits) ==> call
            is Deferred,
        call matches ParamCall::Refused { argument, .. } ==> argument < params.len()
            && params[argument as int].comptime && params[argument as int].value is Some,
        call matches ParamCall::CheckValue { argument } ==> argument < params.len()
            && params[argument as int].comptime && params[argument as int].value is None
            && !uppercase && !params[argument as int].depends_on_parameter,
{
    misfits_are_found(params, 0);
    unused_arguments_are_found(params, uppercase, 0);
}

proof fn misfits_are_found(params: Seq<ParamFacts>, from: int)
    requires
        0 <= from <= params.len(),
    ensures
        first_misfit(params, from) is Some <==> exists|i: int|
            from <= i < params.len() && !(#[trigger] params[i]).comptime && !params[i].fits,
    decreases params.len() - from,
{
    if from < params.len() {
        misfits_are_found(params, from + 1);
        if !params[from].comptime && !params[from].fits {
            assert(first_misfit(params, from) is Some);
        }
    }
}

proof fn unused_arguments_are_found(params: Seq<ParamFacts>, uppercase: bool, from: int)
    requires
        0 <= from <= params.len(),
    ensures
        match first_unused(params, uppercase, from) {
            Some(index) => from <= index < params.len() && params[index].comptime
                && crate::method_calls::argument_step_of(params[index], uppercase)
                != ArgumentStep::Use,
            None => forall|i: int|
                from <= i < params.len() && (#[trigger] params[i]).comptime
                    ==> crate::method_calls::argument_step_of(params[i], uppercase)
                    == ArgumentStep::Use,
        },
    decreases params.len() - from,
{
    if from < params.len() {
        unused_arguments_are_found(params, uppercase, from + 1);
    }
}

/// In the body of a function a parameter has the type of its value where that is known at compile
/// time, and else the type of its argument.
pub proof fn parameters_have_the_types_of_their_arguments(params: Seq<ParamFacts>, index: int)
    requires
        0 <= index < params.len(),
    ensures
        body_types(params).len() == params.len(),
        body_types(params)[index].0 == params[index].name@,
        params[index].comptime ==> body_types(params)[index].1 == params[index].value_type@,
        !params[index].comptime ==> body_types(params)[index].1 == params[index].actual@,
{
}

// ---------------------------------------------------------------------------
// What a module publishes
// ---------------------------------------------------------------------------
/// Before anything is inferred a name of the host has its type, if the module does not declare
/// the name.
pub proof fn names_of_the_host_are_seen(
    globals: Map<Seq<char>, TypeScheme>,
    names: Seq<Seq<char>>,
    name: Seq<char>,
)
    requires
        !names.contains(name),
    ensures
        starting_types(globals, names, Seq::empty()).contains_key(name) == globals.contains_key(
            name,
        ),
        globals.contains_key(name) ==> starting_types(globals, names, Seq::empty())[name] == Some(
            globals[name],
        ),
{
    let visible = crate::publication::visible_globals(globals, names);
    other_names_are_not_declared(visible, names, name);
    assert(crate::modules::with_spread(
        crate::publication::with_declared(visible, names),
        Seq::empty(),
    ) == crate::publication::with_declared(visible, names));
}

proof fn other_names_are_not_declared(
    types: Map<Seq<char>, Option<TypeScheme>>,
    names: Seq<Seq<char>>,
    name: Seq<char>,
)
    requires
        !names.contains(name),
    ensures
        crate::publication::with_declared(types, names).contains_key(name) == types.contains_key(
            name,
        ),
        crate::publication::with_declared(types, names)[name] == types[name],
    decreases names.len(),
{
    if names.len() > 0 {
        assert(names.contains(names[names.len() - 1]));
        assert forall|i: int| 0 <= i < names.drop_last().len() implies names.drop_last()[i]
            != name by {
            assert(names.contains(names[i]));
        }
        other_names_are_not_declared(types, names.drop_last(), name);
    }
}

/// A declaration publishes its scheme under its own name and changes no other. What it had before
/// stays where it has no scheme, and where an inferred type is not known throughout.
pub proof fn declarations_publish_under_their_names(
    types: Map<Seq<char>, Option<TypeScheme>>,
    declarations: Seq<PublishedDeclaration<'_>>,
    declaration: PublishedDeclaration<'_>,
    name: Seq<char>,
)
    ensures
        ({
            let before = published_types(types, declarations);
            let after = published_types(types, declarations.push(declaration));
            &&& name != declaration.facts.name@ ==> after.contains_key(name)
                == before.contains_key(name) && after[name] == before[name]
            &&& declaration.scheme is None ==> after == before
            &&& declaration.facts.annotation is Some && declaration.scheme is Some
                && declaration.facts.value is Some && !declaration.facts.is_method_row
                && !crate::declarations::is_type_function(
                declaration.facts.name@,
                *declaration.facts.value->0,
            ) ==> after.contains_key(declaration.facts.name@) && after[declaration.facts.name@]
                == declaration.scheme
            &&& declaration.facts.annotation is None && declaration.facts.definition is None
                && declaration.scheme is Some && crate::type_ops::some_node(
                declaration.scheme->0.ty@,
                crate::type_ops::is_deferred(),
            ) ==> after == before
        }),
{
    assert(declarations.push(declaration).drop_last() =~= declarations);
    assert(declarations.push(declaration).last() == declaration);
}

} // verus!
