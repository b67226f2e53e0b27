//! Types that are made by evaluating functions on types, and the cycles that they
//! form.
use crate::collections::{StringMap, StringSet};
use crate::diagnostics::{clone_diagnostics, diagnostics_view, Code, Diagnostic, SpecDiagnostic};
use crate::rows::owned_type_view;
use crate::span::Span;
use crate::text::{concat3, same_text, texts_view};
use crate::types::{RecursiveTypeId, SpecType, Type};
use vstd::prelude::*;

verus! {

// ---------------------------------------------------------------------------
// Results
// ---------------------------------------------------------------------------
/// What an evaluation came to.
#[derive(Debug)]
pub enum Evaluation {
    /// A type.
    Reified(Type),
    /// Another value.
    Value,
    /// The value is not known yet.
    Deferred,
    Unsupported,
}

/// What an evaluation came to.
pub ghost enum SpecEvaluation {
    Reified(SpecType),
    Value,
    Deferred,
    Unsupported,
}

impl Evaluation {
    pub open spec fn view(&self) -> SpecEvaluation {
        match self {
            Evaluation::Reified(ty) => SpecEvaluation::Reified(ty@),
            Evaluation::Value => SpecEvaluation::Value,
            Evaluation::Deferred => SpecEvaluation::Deferred,
            Evaluation::Unsupported => SpecEvaluation::Unsupported,
        }
    }
}

/// What an evaluation came to, with its messages.
#[derive(Debug)]
pub struct EvaluationResult {
    pub evaluation: Evaluation,
    pub diagnostics: Vec<Diagnostic>,
}

/// What an evaluation came to, with its messages.
pub ghost struct SpecResult {
    pub evaluation: SpecEvaluation,
    pub diagnostics: Seq<SpecDiagnostic>,
}

impl EvaluationResult {
    pub open spec fn view(&self) -> SpecResult {
        SpecResult {
            evaluation: self.evaluation@,
            diagnostics: diagnostics_view(self.diagnostics@),
        }
    }
}

impl Clone for EvaluationResult {
    fn clone(&self) -> (copied: Self)
        ensures
            copied@ == self@,
    {
        let evaluation = match &self.evaluation {
            Evaluation::Reified(ty) => Evaluation::Reified(ty.clone()),
            Evaluation::Value => Evaluation::Value,
            Evaluation::Deferred => Evaluation::Deferred,
            Evaluation::Unsupported => Evaluation::Unsupported,
        };
        EvaluationResult { evaluation, diagnostics: clone_diagnostics(&self.diagnostics) }
    }
}

pub open spec fn result_view(result: Option<EvaluationResult>) -> Option<SpecResult> {
    match result {
        Some(result) => Some(result@),
        None => None,
    }
}

pub open spec fn results_view(results: Map<Seq<char>, EvaluationResult>) -> Map<
    Seq<char>,
    SpecResult,
> {
    Map::new(|key: Seq<char>| results.contains_key(key), |key: Seq<char>| results[key]@)
}

fn cache_result(cache: &mut StringMap<EvaluationResult>, key: String, result: EvaluationResult)
    ensures
        results_view(final(cache)@) == results_view(old(cache)@).insert(key@, result@),
{
    cache.insert(key, result);
    assert(results_view(cache@) =~= results_view(old(cache)@).insert(key@, result@));
}

// ---------------------------------------------------------------------------
// The stack of evaluations
// ---------------------------------------------------------------------------
/// An evaluation that has begun and whose cycle is not finished.
#[derive(Debug)]
pub struct SpecializationFrame {
    /// What is evaluated, with its arguments.
    pub key: String,
    /// The name of the definition that is evaluated.
    pub definition: String,
    pub id: RecursiveTypeId,
    pub index: usize,
    /// The earliest evaluation that this one is known to lead back to.
    pub lowlink: usize,
    /// Whether the evaluation leads back to itself at once.
    pub self_edge: bool,
    pub call_span: Span,
    pub result: Option<EvaluationResult>,
}

/// An evaluation that has begun.
pub ghost struct SpecFrame {
    pub key: Seq<char>,
    pub definition: Seq<char>,
    pub id: RecursiveTypeId,
    pub index: nat,
    pub lowlink: nat,
    pub self_edge: bool,
    pub call_span: Span,
    pub result: Option<SpecResult>,
}

impl SpecializationFrame {
    pub open spec fn view(&self) -> SpecFrame {
        SpecFrame {
            key: self.key@,
            definition: self.definition@,
            id: self.id,
            index: self.index as nat,
            lowlink: self.lowlink as nat,
            self_edge: self.self_edge,
            call_span: self.call_span,
            result: result_view(self.result),
        }
    }
}

pub open spec fn frames_view(frames: Seq<SpecializationFrame>) -> Seq<SpecFrame> {
    Seq::new(frames.len(), |i: int| frames[i]@)
}

/// The evaluations that have begun, in order, and those that are running.
#[derive(Debug)]
pub struct SpecializationStack {
    pub frames: Vec<SpecializationFrame>,
    /// The keys of the evaluations that are running, innermost last.
    pub calls: Vec<String>,
    /// The results of evaluations that are finished.
    pub cache: StringMap<EvaluationResult>,
}

/// The evaluations that have begun and those that are running.
pub ghost struct SpecStack {
    pub frames: Seq<SpecFrame>,
    pub calls: Seq<Seq<char>>,
    pub cache: Map<Seq<char>, SpecResult>,
}

/// The position of the evaluation of a key, from a position on.
pub open spec fn frame_position(frames: Seq<SpecFrame>, key: Seq<char>, from: int) -> Option<int>
    decreases frames.len() - from,
{
    if from < 0 || from >= frames.len() {
        None
    } else if frames[from].key == key {
        Some(from)
    } else {
        frame_position(frames, key, from + 1)
    }
}

proof fn frame_position_is_first(frames: Seq<SpecFrame>, key: Seq<char>, from: int)
    requires
        0 <= from,
    ensures
        match frame_position(frames, key, from) {
            Some(index) => from <= index < frames.len() && frames[index].key == key,
            None => forall|i: int| from <= i < frames.len() ==> (#[trigger] frames[i]).key != key,
        },
    decreases frames.len() - from,
{
    if from < frames.len() && frames[from].key != key {
        frame_position_is_first(frames, key, from + 1);
    }
}

impl SpecStack {
    /// Whether the stack is in order: each evaluation stands at its index, leads
    /// back to none after it, and has a key of its own; those that are running
    /// have begun, each after the one that it returns to.
    pub open spec fn well_formed(self) -> bool {
        &&& forall|i: int|
            0 <= i < self.frames.len() ==> (#[trigger] self.frames[i]).index == i
                && self.frames[i].lowlink <= i
        &&& forall|i: int, j: int|
            0 <= i < j < self.frames.len() ==> (#[trigger] self.frames[i]).key != (
            #[trigger] self.frames[j]).key
        &&& forall|i: int|
            0 <= i < self.calls.len() ==> self.is_active(#[trigger] self.calls[i])
        &&& forall|i: int, j: int|
            0 <= i < j < self.calls.len() ==> self.position(#[trigger] self.calls[i])
                < self.position(#[trigger] self.calls[j])
    }

    /// The position of an evaluation that has begun.
    pub open spec fn position(self, key: Seq<char>) -> int {
        frame_position(self.frames, key, 0)->0
    }

    /// Whether the evaluation of a key has begun and is not finished.
    pub open spec fn is_active(self, key: Seq<char>) -> bool {
        frame_position(self.frames, key, 0) is Some
    }

    /// The stack with one more evaluation.
    pub open spec fn begun(
        self,
        key: Seq<char>,
        definition: Seq<char>,
        id: RecursiveTypeId,
        call_span: Span,
    ) -> SpecStack {
        let index = self.frames.len();
        SpecStack {
            frames: self.frames.push(
                SpecFrame {
                    key,
                    definition,
                    id,
                    index,
                    lowlink: index,
                    self_edge: false,
                    call_span,
                    result: None,
                },
            ),
            calls: self.calls.push(key),
            cache: self.cache,
        }
    }

    /// The stack after an evaluation has met one that has begun: it leads back to
    /// that one.
    pub open spec fn referred(self, key: Seq<char>) -> (SpecStack, Option<RecursiveTypeId>) {
        match frame_position(self.frames, key, 0) {
            None => (self, None),
            Some(target) => if self.calls.len() == 0 {
                (self, None)
            } else {
                match frame_position(self.frames, self.calls.last(), 0) {
                    None => (self, None),
                    Some(current) => {
                        let frame = self.frames[current];
                        let met = SpecFrame {
                            lowlink: least(frame.lowlink, self.frames[target].index),
                            self_edge: frame.self_edge || frame.key == key,
                            ..frame
                        };
                        (
                            SpecStack { frames: self.frames.update(current, met), ..self },
                            Some(self.frames[target].id),
                        )
                    },
                }
            },
        }
    }

    /// The stack with the result of an evaluation that has begun.
    pub open spec fn with_result(self, position: int, result: SpecResult) -> SpecStack {
        SpecStack {
            frames: self.frames.update(
                position,
                SpecFrame { result: Some(result), ..self.frames[position] },
            ),
            ..self
        }
    }

    /// The stack without the evaluation that runs innermost.
    pub open spec fn returned(self) -> SpecStack {
        SpecStack {
            calls: if self.calls.len() == 0 {
                self.calls
            } else {
                self.calls.drop_last()
            },
            ..self
        }
    }

    /// The stack after an evaluation that leads back to an earlier one: so does the
    /// one that it returns to.
    pub open spec fn passed_on(self, lowlink: nat) -> SpecStack {
        if self.calls.len() == 0 {
            self
        } else {
            match frame_position(self.frames, self.calls.last(), 0) {
                None => self,
                Some(parent) => SpecStack {
                    frames: self.frames.update(
                        parent,
                        SpecFrame {
                            lowlink: least(self.frames[parent].lowlink, lowlink),
                            ..self.frames[parent]
                        },
                    ),
                    ..self
                },
            }
        }
    }

    /// The stack without the evaluations from a position on.
    pub open spec fn cut(self, position: int) -> SpecStack {
        SpecStack { frames: self.frames.take(position), ..self }
    }
}

pub open spec fn least(left: nat, right: nat) -> nat {
    if left <= right {
        left
    } else {
        right
    }
}

/// What follows when an evaluation is finished.
#[derive(Debug)]
pub enum Finished {
    Result(EvaluationResult),
    /// The evaluation leads back to others: these form a cycle.
    Cycle { component: Vec<SpecializationFrame>, fallback: EvaluationResult },
}

/// What follows when an evaluation is finished.
pub ghost enum SpecFinished {
    Result(SpecResult),
    Cycle { component: Seq<SpecFrame>, fallback: SpecResult },
}

impl Finished {
    pub open spec fn view(&self) -> SpecFinished {
        match self {
            Finished::Result(result) => SpecFinished::Result(result@),
            Finished::Cycle { component, fallback } => SpecFinished::Cycle {
                component: frames_view(component@),
                fallback: fallback@,
            },
        }
    }
}

/// Whether evaluations form a cycle.
pub open spec fn is_cycle(component: Seq<SpecFrame>) -> bool {
    component.len() > 1 || exists|i: int|
        0 <= i < component.len() && (#[trigger] component[i]).self_edge
}

/// What follows when the evaluation of a key is finished, and the stack then.
pub open spec fn finished(stack: SpecStack, key: Seq<char>, result: SpecResult) -> (
    SpecStack,
    SpecFinished,
) {
    match frame_position(stack.frames, key, 0) {
        None => (stack, SpecFinished::Result(result)),
        Some(position) => {
            let kept = stack.with_result(position, result);
            let after = kept.returned();
            let frame = stack.frames[position];
            if kept.calls.len() == 0 || kept.calls.last() != key {
                (after, SpecFinished::Result(result))
            } else if frame.lowlink != frame.index {
                (
                    after.passed_on(frame.lowlink),
                    SpecFinished::Result(
                        SpecResult {
                            evaluation: SpecEvaluation::Reified(SpecType::Recursive(frame.id)),
                            diagnostics: result.diagnostics,
                        },
                    ),
                )
            } else {
                let component = after.frames.skip(position);
                let rest = after.cut(position);
                if is_cycle(component) {
                    (rest, SpecFinished::Cycle { component, fallback: result })
                } else if result.evaluation is Unsupported {
                    (rest, SpecFinished::Result(result))
                } else {
                    (
                        SpecStack { cache: rest.cache.insert(key, result), ..rest },
                        SpecFinished::Result(result),
                    )
                }
            }
        },
    }
}

fn set_frame(frames: &mut Vec<SpecializationFrame>, index: usize, frame: SpecializationFrame)
    requires
        index < old(frames).len(),
    ensures
        frames_view(final(frames)@) == frames_view(old(frames)@).update(index as int, frame@),
{
    frames.set(index, frame);
    assert(frames_view(frames@) =~= frames_view(old(frames)@).update(index as int, frame@));
}

fn copy_result(result: &Option<EvaluationResult>) -> (copied: Option<EvaluationResult>)
    ensures
        result_view(copied) == result_view(*result),
{
    match result {
        Some(result) => Some(result.clone()),
        None => None,
    }
}

fn frame_with(
    frame: &SpecializationFrame,
    lowlink: usize,
    self_edge: bool,
    result: Option<EvaluationResult>,
) -> (changed: SpecializationFrame)
    ensures
        changed@ == (SpecFrame {
            lowlink: lowlink as nat,
            self_edge,
            result: result_view(result),
            ..frame@
        }),
{
    SpecializationFrame {
        key: frame.key.clone(),
        definition: frame.definition.clone(),
        id: frame.id,
        index: frame.index,
        lowlink,
        self_edge,
        call_span: frame.call_span,
        result,
    }
}

impl SpecializationStack {
    pub open spec fn view(&self) -> SpecStack {
        SpecStack {
            frames: frames_view(self.frames@),
            calls: texts_view(self.calls@),
            cache: results_view(self.cache@),
        }
    }

    /// A stack with nothing on it.
    pub fn new() -> (stack: Self)
        ensures
            stack@ == (SpecStack {
                frames: Seq::empty(),
                calls: Seq::empty(),
                cache: Map::empty(),
            }),
            stack@.well_formed(),
    {
        let stack = SpecializationStack {
            frames: Vec::new(),
            calls: Vec::new(),
            cache: StringMap::new(),
        };
        assert(stack@.frames =~= Seq::empty());
        assert(stack@.calls =~= Seq::empty());
        assert(stack@.cache =~= Map::empty());
        stack
    }

    fn position(&self, key: &str) -> (position: Option<usize>)
        ensures
            match position {
                Some(position) => position < self.frames.len() && frame_position(
                    self@.frames,
                    key@,
                    0,
                ) == Some(position as int),
                None => frame_position(self@.frames, key@, 0) is None,
            },
    {
        let ghost all = self@.frames;
        let mut index: usize = 0;
        while index < self.frames.len()
            invariant
                index <= self.frames.len(),
                all == frames_view(self.frames@),
                all == self@.frames,
                frame_position(all, key@, 0) == frame_position(all, key@, index as int),
            decreases self.frames.len() - index,
        {
            assert(all[index as int] == self.frames@[index as int]@);
            if same_text(self.frames[index].key.as_str(), key) {
                return Some(index);
            }
            index += 1;
        }
        None
    }

    /// Whether the evaluation of a key has begun and is not finished.
    pub fn specialization_is_active(&self, key: &str) -> (active: bool)
        ensures
            active == self@.is_active(key@),
    {
        self.position(key).is_some()
    }

    /// The result of an evaluation that is finished.
    pub fn cached_specialization(&self, key: &str) -> (result: Option<EvaluationResult>)
        ensures
            result_view(result) == (if self@.cache.contains_key(key@) {
                Some(self@.cache[key@])
            } else {
                None
            }),
    {
        match self.cache.get(key) {
            Some(result) => Some(result.clone()),
            None => None,
        }
    }

    /// Begin an evaluation, unless as many are running as may.
    pub fn begin_specialization(
        &mut self,
        key: &str,
        definition: &str,
        id: RecursiveTypeId,
        call_span: Span,
        limit: usize,
    ) -> (begun: bool)
        requires
            old(self)@.well_formed(),
            !old(self)@.is_active(key@),
        ensures
            begun == (old(self)@.calls.len() < limit),
            final(self)@ == (if begun {
                old(self)@.begun(key@, definition@, id, call_span)
            } else {
                old(self)@
            }),
            final(self)@.well_formed(),
    {
        let ghost before = self@;
        assert(before.calls.len() == self.calls.len());
        assert(before.frames.len() == self.frames.len());
        if self.calls.len() >= limit {
            return false;
        }
        let index: usize = self.frames.len();
        self.frames.push(
            SpecializationFrame {
                key: key.to_owned(),
                definition: definition.to_owned(),
                id,
                index,
                lowlink: index,
                self_edge: false,
                call_span,
                result: None,
            },
        );
        self.calls.push(key.to_owned());
        assert(self@.frames =~= before.begun(key@, definition@, id, call_span).frames);
        assert(self@.calls =~= before.begun(key@, definition@, id, call_span).calls);
        proof {
            beginning_keeps_order(before, key@, definition@, id, call_span);
        }
        true
    }

    /// The type that stands for an evaluation that has begun. The evaluation that
    /// is running leads back to it.
    pub fn active_specialization_reference(&mut self, key: &str) -> (id: Option<RecursiveTypeId>)
        requires
            old(self)@.well_formed(),
        ensures
            (final(self)@, id) == old(self)@.referred(key@),
            final(self)@.well_formed(),
    {
        let ghost before = self@;
        assert(before.calls.len() == self.calls.len());
        assert(before.frames.len() == self.frames.len());
        let target = match self.position(key) {
            Some(target) => target,
            None => {
                return None;
            },
        };
        if self.calls.len() == 0 {
            return None;
        }
        assert(before.calls.last() == self.calls@[self.calls.len() - 1]@);
        let current = match self.position(self.calls[self.calls.len() - 1].as_str()) {
            Some(current) => current,
            None => {
                return None;
            },
        };
        assert(before.frames[target as int] == self.frames@[target as int]@);
        assert(before.frames[current as int] == self.frames@[current as int]@);
        let target_index = self.frames[target].index;
        let id = self.frames[target].id;
        let frame = &self.frames[current];
        let lowlink = if frame.lowlink <= target_index {
            frame.lowlink
        } else {
            target_index
        };
        let self_edge = frame.self_edge || same_text(frame.key.as_str(), key);
        let met = frame_with(frame, lowlink, self_edge, copy_result(&frame.result));
        set_frame(&mut self.frames, current, met);
        proof {
            updating_keeps_order(before, current as int, self@.frames[current as int]);
        }
        Some(id)
    }

    /// Finish an evaluation. One that leads back to an earlier one stands for a
    /// recursive type; one that others lead back to ends their cycle.
    pub fn finish_specialization(&mut self, key: &str, result: EvaluationResult) -> (next: Finished)
        requires
            old(self)@.well_formed(),
        ensures
            (final(self)@, next@) == finished(old(self)@, key@, result@),
            final(self)@.well_formed(),
    {
        proof {
            finishing_keeps_order(self@, key@, result@);
        }
        let ghost before = self@;
        assert(before.calls.len() == self.calls.len());
        assert(before.frames.len() == self.frames.len());
        let position = match self.position(key) {
            Some(position) => position,
            None => {
                return Finished::Result(result);
            },
        };
        let ghost kept = before.with_result(position as int, result@);
        assert(before.frames[position as int] == self.frames@[position as int]@);
        let frame = &self.frames[position];
        let id = frame.id;
        let frame_index = frame.index;
        let lowlink = frame.lowlink;
        let stored = frame_with(frame, lowlink, frame.self_edge, Some(result.clone()));
        set_frame(&mut self.frames, position, stored);
        assert(self@.frames =~= kept.frames);
        let own = match self.calls.pop() {
            Some(last) => {
                assert(last@ == kept.calls.last());
                assert(texts_view(self.calls@) =~= kept.returned().calls);
                same_text(last.as_str(), key)
            },
            None => false,
        };
        assert(self@.calls =~= kept.returned().calls);
        let ghost after = kept.returned();
        assert(self@ == after);
        if !own {
            return Finished::Result(result);
        }
        if lowlink != frame_index {
            if self.calls.len() > 0 {
                assert(after.calls.last() == self.calls@[self.calls.len() - 1]@);
                if let Some(parent) = self.position(self.calls[self.calls.len() - 1].as_str()) {
                    assert(after.frames[parent as int] == self.frames@[parent as int]@);
                    let parent_frame = &self.frames[parent];
                    let passed = if parent_frame.lowlink <= lowlink {
                        parent_frame.lowlink
                    } else {
                        lowlink
                    };
                    let changed = frame_with(
                        parent_frame,
                        passed,
                        parent_frame.self_edge,
                        copy_result(&parent_frame.result),
                    );
                    set_frame(&mut self.frames, parent, changed);
                }
            }
            return Finished::Result(
                EvaluationResult {
                    evaluation: Evaluation::Reified(Type::Recursive(id)),
                    diagnostics: result.diagnostics,
                },
            );
        }
        let component = self.frames.split_off(position);
        assert(frames_view(component@) =~= after.frames.skip(position as int));
        assert(self@.frames =~= after.frames.take(position as int));
        let mut cycle = component.len() > 1;
        let mut index: usize = 0;
        while index < component.len()
            invariant
                index <= component.len(),
                cycle == (component.len() > 1 || exists|i: int|
                    0 <= i < index && (#[trigger] frames_view(component@)[i]).self_edge),
            decreases component.len() - index,
        {
            assert(frames_view(component@)[index as int] == component@[index as int]@);
            if component[index].self_edge {
                cycle = true;
            }
            index += 1;
        }
        if cycle {
            return Finished::Cycle { component, fallback: result };
        }
        if !matches!(result.evaluation, Evaluation::Unsupported) {
            cache_result(&mut self.cache, key.to_owned(), result.clone());
        }
        Finished::Result(result)
    }
}

proof fn position_after_push(frames: Seq<SpecFrame>, frame: SpecFrame, key: Seq<char>, from: int)
    requires
        0 <= from <= frames.len(),
        frame_position(frames, key, from) is Some || frame.key == key,
    ensures
        frame_position(frames.push(frame), key, from) == (if frame_position(
            frames,
            key,
            from,
        ) is Some {
            frame_position(frames, key, from)
        } else {
            Some(frames.len() as int)
        }),
    decreases frames.len() - from,
{
    if from < frames.len() {
        assert(frames.push(frame)[from] == frames[from]);
        if frames[from].key != key {
            position_after_push(frames, frame, key, from + 1);
        }
    } else {
        assert(frames.push(frame)[from] == frame);
    }
}

proof fn position_after_update(
    frames: Seq<SpecFrame>,
    index: int,
    frame: SpecFrame,
    key: Seq<char>,
    from: int,
)
    requires
        0 <= index < frames.len(),
        frame.key == frames[index].key,
        0 <= from,
    ensures
        frame_position(frames.update(index, frame), key, from) == frame_position(
            frames,
            key,
            from,
        ),
    decreases frames.len() - from,
{
    if from < frames.len() {
        assert(frames.update(index, frame)[from].key == frames[from].key);
        if frames[from].key != key {
            position_after_update(frames, index, frame, key, from + 1);
        }
    }
}

proof fn beginning_keeps_order(
    stack: SpecStack,
    key: Seq<char>,
    definition: Seq<char>,
    id: RecursiveTypeId,
    call_span: Span,
)
    requires
        stack.well_formed(),
        !stack.is_active(key),
    ensures
        stack.begun(key, definition, id, call_span).well_formed(),
{
    let begun = stack.begun(key, definition, id, call_span);
    let frame = begun.frames.last();
    frame_position_is_first(stack.frames, key, 0);
    assert forall|i: int| 0 <= i < begun.calls.len() implies begun.is_active(
        #[trigger] begun.calls[i],
    ) by {
        if i < stack.calls.len() {
            assert(begun.calls[i] == stack.calls[i]);
            assert(stack.is_active(stack.calls[i]));
        }
        position_after_push(stack.frames, frame, begun.calls[i], 0);
    }
    assert forall|i: int, j: int| 0 <= i < j < begun.calls.len() implies begun.position(
        #[trigger] begun.calls[i],
    ) < begun.position(#[trigger] begun.calls[j]) by {
        assert(begun.calls[i] == stack.calls[i]);
        assert(stack.is_active(stack.calls[i]));
        position_after_push(stack.frames, frame, begun.calls[i], 0);
        position_after_push(stack.frames, frame, begun.calls[j], 0);
        frame_position_is_first(stack.frames, begun.calls[i], 0);
        if j < stack.calls.len() {
            assert(stack.is_active(stack.calls[j]));
            assert(stack.position(stack.calls[i]) < stack.position(stack.calls[j]));
        }
    }
    assert forall|i: int, j: int| 0 <= i < j < begun.frames.len() implies (
    #[trigger] begun.frames[i]).key != (#[trigger] begun.frames[j]).key by {
        if j < stack.frames.len() {
            assert(stack.frames[i].key != stack.frames[j].key);
        }
    }
}

proof fn updating_keeps_order(stack: SpecStack, index: int, frame: SpecFrame)
    requires
        stack.well_formed(),
        0 <= index < stack.frames.len(),
        frame.key == stack.frames[index].key,
        frame.index == index,
        frame.lowlink <= index,
    ensures
        (SpecStack { frames: stack.frames.update(index, frame), ..stack }).well_formed(),
{
    let changed = SpecStack { frames: stack.frames.update(index, frame), ..stack };
    assert forall|i: int| 0 <= i < changed.calls.len() implies changed.is_active(
        #[trigger] changed.calls[i],
    ) by {
        assert(stack.is_active(stack.calls[i]));
        position_after_update(stack.frames, index, frame, changed.calls[i], 0);
    }
    assert forall|i: int, j: int| 0 <= i < j < changed.calls.len() implies changed.position(
        #[trigger] changed.calls[i],
    ) < changed.position(#[trigger] changed.calls[j]) by {
        position_after_update(stack.frames, index, frame, changed.calls[i], 0);
        position_after_update(stack.frames, index, frame, changed.calls[j], 0);
        assert(stack.position(stack.calls[i]) < stack.position(stack.calls[j]));
    }
    assert forall|i: int, j: int| 0 <= i < j < changed.frames.len() implies (
    #[trigger] changed.frames[i]).key != (#[trigger] changed.frames[j]).key by {
        assert(stack.frames[i].key != stack.frames[j].key);
    }
}

proof fn returning_keeps_order(stack: SpecStack)
    requires
        stack.well_formed(),
    ensures
        stack.returned().well_formed(),
{
    let after = stack.returned();
    assert forall|i: int| 0 <= i < after.calls.len() implies after.is_active(
        #[trigger] after.calls[i],
    ) by {
        assert(stack.is_active(stack.calls[i]));
    }
    assert forall|i: int, j: int| 0 <= i < j < after.calls.len() implies after.position(
        #[trigger] after.calls[i],
    ) < after.position(#[trigger] after.calls[j]) by {
        assert(stack.position(stack.calls[i]) < stack.position(stack.calls[j]));
    }
}

proof fn position_after_cut(frames: Seq<SpecFrame>, count: int, key: Seq<char>, from: int)
    requires
        0 <= from,
        frame_position(frames, key, from) is Some,
        frame_position(frames, key, from)->0 < count <= frames.len(),
    ensures
        frame_position(frames.take(count), key, from) == frame_position(frames, key, from),
    decreases frames.len() - from,
{
    frame_position_is_first(frames, key, from);
    assert(frames.take(count)[from] == frames[from]);
    if frames[from].key != key {
        position_after_cut(frames, count, key, from + 1);
    }
}

proof fn cutting_keeps_order(stack: SpecStack, count: int)
    requires
        stack.well_formed(),
        0 <= count <= stack.frames.len(),
        forall|i: int|
            0 <= i < stack.calls.len() ==> stack.position(#[trigger] stack.calls[i]) < count,
    ensures
        stack.cut(count).well_formed(),
{
    let after = stack.cut(count);
    assert forall|i: int| 0 <= i < after.frames.len() implies (#[trigger] after.frames[i]).index
        == i && after.frames[i].lowlink <= i by {
        assert(after.frames[i] == stack.frames[i]);
    }
    assert forall|i: int, j: int| 0 <= i < j < after.frames.len() implies (
    #[trigger] after.frames[i]).key != (#[trigger] after.frames[j]).key by {
        assert(stack.frames[i].key != stack.frames[j].key);
    }
    assert forall|i: int| 0 <= i < after.calls.len() implies after.is_active(
        #[trigger] after.calls[i],
    ) && after.position(after.calls[i]) == stack.position(stack.calls[i]) by {
        assert(stack.is_active(stack.calls[i]));
        position_after_cut(stack.frames, count, stack.calls[i], 0);
    }
    assert forall|i: int, j: int| 0 <= i < j < after.calls.len() implies after.position(
        #[trigger] after.calls[i],
    ) < after.position(#[trigger] after.calls[j]) by {
        assert(stack.position(stack.calls[i]) < stack.position(stack.calls[j]));
        assert(after.position(after.calls[i]) == stack.position(stack.calls[i]));
        assert(after.position(after.calls[j]) == stack.position(stack.calls[j]));
    }
}

proof fn finishing_keeps_order(stack: SpecStack, key: Seq<char>, result: SpecResult)
    requires
        stack.well_formed(),
    ensures
        finished(stack, key, result).0.well_formed(),
{
    frame_position_is_first(stack.frames, key, 0);
    if let Some(position) = frame_position(stack.frames, key, 0) {
        let kept = stack.with_result(position, result);
        let frame = kept.frames[position];
        assert(stack.frames[position].index == position);
        updating_keeps_order(stack, position, frame);
        position_after_update(stack.frames, position, frame, key, 0);
        let after = kept.returned();
        returning_keeps_order(kept);
        let own = kept.calls.len() > 0 && kept.calls.last() == key;
        let lowlink = stack.frames[position].lowlink;
        if own && lowlink != position {
            if after.calls.len() > 0 {
                frame_position_is_first(after.frames, after.calls.last(), 0);
                if let Some(parent) = frame_position(after.frames, after.calls.last(), 0) {
                    assert(after.frames[parent].lowlink <= parent);
                    updating_keeps_order(
                        after,
                        parent,
                        after.passed_on(lowlink).frames[parent],
                    );
                }
            }
        } else if own {
            assert forall|i: int| 0 <= i < after.calls.len() implies after.position(
                #[trigger] after.calls[i],
            ) < position by {
                assert(kept.position(kept.calls[i]) < kept.position(
                    kept.calls[kept.calls.len() - 1],
                ));
            }
            cutting_keeps_order(after, position);
            let rest = after.cut(position);
            let cached = SpecStack { cache: rest.cache.insert(key, result), ..rest };
            assert forall|i: int| 0 <= i < cached.calls.len() implies cached.is_active(
                #[trigger] cached.calls[i],
            ) by {
                assert(rest.is_active(rest.calls[i]));
            }
            assert forall|i: int, j: int| 0 <= i < j < cached.calls.len() implies cached.position(
                #[trigger] cached.calls[i],
            ) < cached.position(#[trigger] cached.calls[j]) by {
                assert(rest.position(rest.calls[i]) < rest.position(rest.calls[j]));
            }
        }
    }
}

// ---------------------------------------------------------------------------
// Productive types
// ---------------------------------------------------------------------------
/// When a type has a finite value.
#[derive(Debug)]
pub enum Productivity {
    Always,
    Never,
    /// When another type of the cycle has one.
    Reference(RecursiveTypeId),
    All(Vec<Productivity>),
    Any(Vec<Productivity>),
}

/// Whether a type has a finite value, given the types that do.
pub open spec fn is_productive(formula: Productivity, known: Set<RecursiveTypeId>) -> bool
    decreases formula,
{
    match formula {
        Productivity::Always => true,
        Productivity::Never => false,
        Productivity::Reference(id) => known.contains(id),
        Productivity::All(parts) => forall|i: int|
            0 <= i < parts@.len() ==> is_productive(#[trigger] parts@[i], known),
        Productivity::Any(parts) => exists|i: int|
            0 <= i < parts@.len() && is_productive(#[trigger] parts@[i], known),
    }
}

proof fn productivity_grows(
    formula: Productivity,
    few: Set<RecursiveTypeId>,
    many: Set<RecursiveTypeId>,
)
    requires
        few.subset_of(many),
        is_productive(formula, few),
    ensures
        is_productive(formula, many),
    decreases formula,
{
    match formula {
        Productivity::All(parts) => {
            assert forall|i: int| 0 <= i < parts@.len() implies is_productive(
                #[trigger] parts@[i],
                many,
            ) by {
                assert(is_productive(parts@[i], few));
                productivity_grows(parts@[i], few, many);
            }
        },
        Productivity::Any(parts) => {
            let i = choose|i: int|
                0 <= i < parts@.len() && is_productive(#[trigger] parts@[i], few);
            productivity_grows(parts@[i], few, many);
        },
        _ => {},
    }
}

/// A member of a cycle of types.
#[derive(Debug)]
pub struct CycleMember {
    pub id: RecursiveTypeId,
    pub formula: Productivity,
}

/// The identities of the members that are marked.
pub open spec fn marked(members: Seq<CycleMember>, flags: Seq<bool>) -> Set<RecursiveTypeId> {
    Set::new(
        |id: RecursiveTypeId|
            exists|i: int|
                0 <= i < members.len() && i < flags.len() && #[trigger] flags[i]
                    && members[i].id == id,
    )
}

/// Whether a set holds every member that has a finite value given the set.
pub open spec fn is_closed(members: Seq<CycleMember>, set: Set<RecursiveTypeId>) -> bool {
    forall|i: int|
        0 <= i < members.len() && is_productive((#[trigger] members[i]).formula, set)
            ==> set.contains(members[i].id)
}

fn is_marked(members: &Vec<CycleMember>, flags: &Vec<bool>, id: RecursiveTypeId) -> (found: bool)
    requires
        flags.len() == members.len(),
    ensures
        found == marked(members@, flags@).contains(id),
{
    let mut index: usize = 0;
    while index < members.len()
        invariant
            index <= members.len(),
            flags.len() == members.len(),
            forall|i: int|
                0 <= i < index ==> !(#[trigger] flags@[i] && members@[i].id == id),
        decreases members.len() - index,
    {
        if flags[index] && members[index].id == id {
            return true;
        }
        index += 1;
    }
    false
}

fn check_productive(formula: &Productivity, members: &Vec<CycleMember>, flags: &Vec<bool>) -> (holds:
    bool)
    requires
        flags.len() == members.len(),
    ensures
        holds == is_productive(*formula, marked(members@, flags@)),
    decreases formula,
{
    match formula {
        Productivity::Always => true,
        Productivity::Never => false,
        Productivity::Reference(id) => is_marked(members, flags, *id),
        Productivity::All(parts) => all_hold(parts, members, flags),
        Productivity::Any(parts) => any_holds(parts, members, flags),
    }
}

fn all_hold(parts: &Vec<Productivity>, members: &Vec<CycleMember>, flags: &Vec<bool>) -> (holds:
    bool)
    requires
        flags.len() == members.len(),
    ensures
        holds == forall|i: int|
            0 <= i < parts@.len() ==> is_productive(
                #[trigger] parts@[i],
                marked(members@, flags@),
            ),
    decreases parts,
{
    let mut index: usize = 0;
    while index < parts.len()
        invariant
            index <= parts.len(),
            flags.len() == members.len(),
            forall|i: int|
                0 <= i < index ==> is_productive(#[trigger] parts@[i], marked(members@, flags@)),
        decreases parts.len() - index,
    {
        if !check_productive(&parts[index], members, flags) {
            return false;
        }
        index += 1;
    }
    true
}

fn any_holds(parts: &Vec<Productivity>, members: &Vec<CycleMember>, flags: &Vec<bool>) -> (holds:
    bool)
    requires
        flags.len() == members.len(),
    ensures
        holds == exists|i: int|
            0 <= i < parts@.len() && is_productive(
                #[trigger] parts@[i],
                marked(members@, flags@),
            ),
    decreases parts,
{
    let mut index: usize = 0;
    while index < parts.len()
        invariant
            index <= parts.len(),
            flags.len() == members.len(),
            forall|i: int|
                0 <= i < index ==> !is_productive(#[trigger] parts@[i], marked(members@, flags@)),
        decreases parts.len() - index,
    {
        if check_productive(&parts[index], members, flags) {
            return true;
        }
        index += 1;
    }
    false
}

/// The number of members that are not marked.
pub open spec fn unmarked_count(flags: Seq<bool>) -> nat
    decreases flags.len(),
{
    if flags.len() == 0 {
        0
    } else {
        unmarked_count(flags.drop_last()) + (if flags.last() {
            0nat
        } else {
            1nat
        })
    }
}

proof fn marking_counts_down(flags: Seq<bool>, index: int)
    requires
        0 <= index < flags.len(),
        !flags[index],
    ensures
        unmarked_count(flags.update(index, true)) + 1 == unmarked_count(flags),
    decreases flags.len(),
{
    let after = flags.update(index, true);
    if index == flags.len() - 1 {
        assert(after.drop_last() =~= flags.drop_last());
    } else {
        marking_counts_down(flags.drop_last(), index);
        assert(after.drop_last() =~= flags.drop_last().update(index, true));
    }
}

/// Mark the members of a cycle that have a finite value: the least set that holds
/// every member which has one given the set.
pub fn productive_members(members: &Vec<CycleMember>) -> (flags: Vec<bool>)
    ensures
        flags.len() == members.len(),
        is_closed(members@, marked(members@, flags@)),
        forall|i: int|
            0 <= i < members@.len() ==> #[trigger] flags@[i] == marked(
                members@,
                flags@,
            ).contains(members@[i].id),
        forall|set: Set<RecursiveTypeId>|
            #[trigger] is_closed(members@, set) ==> marked(members@, flags@).subset_of(set),
{
    let mut flags: Vec<bool> = Vec::new();
    let mut index: usize = 0;
    while index < members.len()
        invariant
            index <= members.len(),
            flags.len() == index,
            forall|i: int| 0 <= i < index ==> !#[trigger] flags@[i],
        decreases members.len() - index,
    {
        flags.push(false);
        index += 1;
    }
    let mut grown = true;
    while grown
        invariant
            flags.len() == members.len(),
            !grown ==> is_closed(members@, marked(members@, flags@)),
            !grown ==> forall|i: int|
                0 <= i < members@.len() ==> #[trigger] flags@[i] == marked(
                    members@,
                    flags@,
                ).contains(members@[i].id),
            forall|set: Set<RecursiveTypeId>|
                #[trigger] is_closed(members@, set) ==> marked(members@, flags@).subset_of(set),
        decreases unmarked_count(flags@), (if grown {
            1int
        } else {
            0int
        }),
    {
        grown = false;
        let ghost start = flags@;
        let mut index: usize = 0;
        while index < members.len()
            invariant
                index <= members.len(),
                flags.len() == members.len(),
                !grown ==> flags@ == start,
                unmarked_count(flags@) <= unmarked_count(start),
                grown ==> unmarked_count(flags@) < unmarked_count(start),
                !grown ==> forall|i: int|
                    0 <= i < index ==> !(#[trigger] flags@[i]) ==> !is_productive(
                        members@[i].formula,
                        marked(members@, flags@),
                    ) && !marked(members@, flags@).contains(members@[i].id),
                forall|set: Set<RecursiveTypeId>|
                    #[trigger] is_closed(members@, set) ==> marked(members@, flags@).subset_of(
                        set,
                    ),
            decreases members.len() - index,
        {
            let ghost before = flags@;
            let ghost known = marked(members@, before);
            if !flags[index] && (check_productive(&members[index].formula, members, &flags)
                || is_marked(members, &flags, members[index].id)) {
                flags.set(index, true);
                grown = true;
                proof {
                    marking_counts_down(before, index as int);
                    assert forall|set: Set<RecursiveTypeId>| #[trigger]
                        is_closed(members@, set) implies marked(members@, flags@).subset_of(
                        set,
                    ) by {
                        assert(known.subset_of(set));
                        if is_productive(members@[index as int].formula, known) {
                            productivity_grows(members@[index as int].formula, known, set);
                        }
                        assert(set.contains(members@[index as int].id));
                        assert forall|id: RecursiveTypeId|
                            marked(members@, flags@).contains(id) implies set.contains(id) by {
                            let i = choose|i: int|
                                0 <= i < members@.len() && i < flags@.len() && #[trigger] flags@[i]
                                    && members@[i].id == id;
                            if i != index {
                                assert(before[i]);
                                assert(known.contains(id));
                            }
                        }
                    }
                }
            }
            index += 1;
        }
        proof {
            if !grown {
                let known = marked(members@, flags@);
                assert forall|i: int| 0 <= i < members@.len() implies #[trigger] flags@[i]
                    == known.contains(members@[i].id) by {}
                assert forall|i: int|
                    0 <= i < members@.len() && is_productive(
                        (#[trigger] members@[i]).formula,
                        known,
                    ) implies known.contains(members@[i].id) by {
                    assert(flags@[i] == known.contains(members@[i].id));
                }
            }
        }
    }
    flags
}

// ---------------------------------------------------------------------------
// Cycles
// ---------------------------------------------------------------------------
/// The type that an evaluation of a cycle came to.
pub open spec fn head_of(frame: SpecFrame) -> Option<SpecType> {
    match frame.result {
        Some(result) => match result.evaluation {
            SpecEvaluation::Reified(ty) => Some(ty),
            _ => None,
        },
        None => None,
    }
}

/// Whether every evaluation of a cycle came to a type.
pub open spec fn all_reified(component: Seq<SpecFrame>) -> bool {
    forall|i: int| 0 <= i < component.len() ==> head_of(#[trigger] component[i]) is Some
}

/// The message that a type has no finite value.
pub open spec fn unproductive(frame: SpecFrame, forcing: Option<Seq<char>>) -> SpecDiagnostic {
    SpecDiagnostic::error(
        "recursive type `"@ + frame.definition + "` has no finite value"@,
    ).coded(Code::TypeUnproductiveRecursion).labelled(
        frame.call_span,
        "unproductive recursive type declared here"@,
    ).noted(
        "every value of `"@ + frame.definition + "` requires another recursive value via "@ + (
        match forcing {
            Some(step) => step,
            None => "strict recursion"@,
        }),
    )
}

/// The messages of an evaluation.
pub open spec fn messages_of(frame: SpecFrame) -> Seq<SpecDiagnostic> {
    match frame.result {
        Some(result) => result.diagnostics,
        None => Seq::empty(),
    }
}

/// The result of a member of a cycle: a recursive type, with a message where it
/// has no finite value.
pub open spec fn member_result(
    frame: SpecFrame,
    productive: bool,
    transparent: bool,
    forcing: Option<Seq<char>>,
) -> SpecResult {
    SpecResult {
        evaluation: SpecEvaluation::Reified(SpecType::Recursive(frame.id)),
        diagnostics: if productive || transparent {
            messages_of(frame)
        } else {
            messages_of(frame).push(unproductive(frame, forcing))
        },
    }
}

/// The results with those of the first members of a cycle.
pub open spec fn with_members(
    cache: Map<Seq<char>, SpecResult>,
    component: Seq<SpecFrame>,
    productive: Seq<bool>,
    transparent: bool,
    forcing: Seq<Option<Seq<char>>>,
    count: nat,
) -> Map<Seq<char>, SpecResult>
    decreases count,
{
    if count == 0 || count > component.len() {
        cache
    } else {
        with_members(
            cache,
            component,
            productive,
            transparent,
            forcing,
            (count - 1) as nat,
        ).insert(
            component[count - 1].key,
            member_result(
                component[count - 1],
                productive[count - 1],
                transparent,
                forcing[count - 1],
            ),
        )
    }
}

/// The results with those that the first members of a cycle have.
pub open spec fn with_own_results(
    cache: Map<Seq<char>, SpecResult>,
    component: Seq<SpecFrame>,
    count: nat,
) -> Map<Seq<char>, SpecResult>
    decreases count,
{
    if count == 0 || count > component.len() {
        cache
    } else {
        let earlier = with_own_results(cache, component, (count - 1) as nat);
        match component[count - 1].result {
            Some(result) => earlier.insert(component[count - 1].key, result),
            None => earlier,
        }
    }
}

/// The types that the productive members of a cycle stand for.
pub open spec fn unfoldings(
    component: Seq<SpecFrame>,
    productive: Seq<bool>,
    count: nat,
) -> Seq<(RecursiveTypeId, SpecType)>
    decreases count,
{
    if count == 0 || count > component.len() {
        Seq::empty()
    } else {
        let earlier = unfoldings(component, productive, (count - 1) as nat);
        if productive[count - 1] {
            earlier.push((component[count - 1].id, head_of(component[count - 1])->0))
        } else {
            earlier
        }
    }
}

/// Whether all definitions of a cycle are aliases that merely name one another.
pub open spec fn is_transparent(component: Seq<SpecFrame>, cycles: Set<Seq<char>>) -> bool {
    forall|i: int|
        0 <= i < component.len() ==> cycles.contains((#[trigger] component[i]).definition)
}

pub open spec fn heads_view(heads: Seq<(RecursiveTypeId, Type)>) -> Seq<
    (RecursiveTypeId, SpecType),
> {
    Seq::new(heads.len(), |i: int| (heads[i].0, heads[i].1@))
}

pub open spec fn forcing_view(forcing: Seq<Option<String>>) -> Seq<Option<Seq<char>>> {
    Seq::new(
        forcing.len(),
        |i: int|
            match forcing[i] {
                Some(step) => Some(step@),
                None => None,
            },
    )
}

fn all_types_known(component: &Vec<SpecializationFrame>) -> (known: bool)
    ensures
        known == all_reified(frames_view(component@)),
{
    let ghost all = frames_view(component@);
    let mut index: usize = 0;
    while index < component.len()
        invariant
            index <= component.len(),
            all == frames_view(component@),
            forall|i: int| 0 <= i < index ==> head_of(#[trigger] all[i]) is Some,
        decreases component.len() - index,
    {
        assert(all[index as int] == component@[index as int]@);
        let reified = match &component[index].result {
            Some(result) => matches!(result.evaluation, Evaluation::Reified(_)),
            None => false,
        };
        if !reified {
            assert(head_of(all[index as int]) is None);
            return false;
        }
        index += 1;
    }
    true
}

fn unproductive_diagnostic(frame: &SpecializationFrame, forcing: &Option<String>) -> (diagnostic:
    Diagnostic)
    ensures
        diagnostic@ == unproductive(
            frame@,
            match *forcing {
                Some(step) => Some(step@),
                None => None,
            },
        ),
{
    let step = match forcing {
        Some(step) => step.as_str(),
        None => "strict recursion",
    };
    let message = concat3(
        "recursive type `",
        frame.definition.as_str(),
        "` has no finite value",
    );
    let mut note = concat3(
        "every value of `",
        frame.definition.as_str(),
        "` requires another recursive value via ",
    );
    note.append(step);
    Diagnostic::error(message).with_code(Code::TypeUnproductiveRecursion).with_label(
        frame.call_span,
        "unproductive recursive type declared here".to_owned(),
    ).with_note(note)
}

/// Finish a cycle. Its members stand for recursive types; those that have a
/// finite value unfold to the types that their evaluations came to, unless all
/// merely name one another. Where a member came to no type, each keeps its own
/// result.
pub fn finish_recursive_component(
    component: &Vec<SpecializationFrame>,
    productive: &Vec<bool>,
    forcing: &Vec<Option<String>>,
    transparent_cycles: &StringSet,
    cache: &mut StringMap<EvaluationResult>,
    requested: &str,
    fallback: EvaluationResult,
) -> (outcome: (EvaluationResult, Vec<(RecursiveTypeId, Type)>))
    requires
        productive.len() == component.len(),
        forcing.len() == component.len(),
    ensures
        ({
            let frames = frames_view(component@);
            let before = results_view(old(cache)@);
            let after = results_view(final(cache)@);
            let transparent = is_transparent(frames, transparent_cycles@);
            if !all_reified(frames) {
                &&& after == with_own_results(before, frames, frames.len())
                &&& outcome.0@ == fallback@
                &&& outcome.1@.len() == 0
            } else {
                &&& after == with_members(
                    before,
                    frames,
                    productive@,
                    transparent,
                    forcing_view(forcing@),
                    frames.len(),
                )
                &&& outcome.0@ == (if after.contains_key(requested@) {
                    after[requested@]
                } else {
                    fallback@
                })
                &&& heads_view(outcome.1@) == (if transparent {
                    Seq::empty()
                } else {
                    unfoldings(frames, productive@, frames.len())
                })
            }
        }),
{
    let ghost frames = frames_view(component@);
    let ghost before = results_view(cache@);
    let ghost steps = forcing_view(forcing@);
    let mut heads: Vec<(RecursiveTypeId, Type)> = Vec::new();
    assert(heads_view(heads@) =~= Seq::empty());
    let mut index: usize = 0;
    if !all_types_known(component) {
        while index < component.len()
            invariant
                index <= component.len(),
                frames == frames_view(component@),
                before == results_view(old(cache)@),
                results_view(cache@) == with_own_results(before, frames, index as nat),
            decreases component.len() - index,
        {
            assert(frames[index as int] == component@[index as int]@);
            if let Some(result) = &component[index].result {
                cache_result(cache, component[index].key.clone(), result.clone());
            }
            index += 1;
        }
        return (fallback, heads);
    }
    let mut transparent = true;
    while index < component.len()
        invariant
            index <= component.len(),
            frames == frames_view(component@),
            transparent == forall|i: int|
                0 <= i < index ==> transparent_cycles@.contains(
                    (#[trigger] frames[i]).definition,
                ),
        decreases component.len() - index,
    {
        assert(frames[index as int] == component@[index as int]@);
        if !transparent_cycles.contains(component[index].definition.as_str()) {
            transparent = false;
        }
        index += 1;
    }
    let mut index: usize = 0;
    while index < component.len()
        invariant
            index <= component.len(),
            productive.len() == component.len(),
            forcing.len() == component.len(),
            frames == frames_view(component@),
            steps == forcing_view(forcing@),
            all_reified(frames),
            before == results_view(old(cache)@),
            results_view(cache@) == with_members(
                before,
                frames,
                productive@,
                transparent,
                steps,
                index as nat,
            ),
            heads_view(heads@) == (if transparent {
                Seq::empty()
            } else {
                unfoldings(frames, productive@, index as nat)
            }),
        decreases component.len() - index,
    {
        let frame = &component[index];
        assert(frames[index as int] == frame@);
        assert(head_of(frames[index as int]) is Some);
        let ghost earlier = heads_view(heads@);
        let mut messages: Vec<Diagnostic> = Vec::new();
        assert(diagnostics_view(messages@) =~= Seq::empty());
        if let Some(result) = &frame.result {
            messages = clone_diagnostics(&result.diagnostics);
            if let Evaluation::Reified(head) = &result.evaluation {
                if productive[index] && !transparent {
                    heads.push((frame.id, head.clone()));
                    assert(heads_view(heads@) =~= earlier.push((frame.id, head@)));
                }
            }
        }
        let ghost own = diagnostics_view(messages@);
        if !productive[index] && !transparent {
            let diagnostic = unproductive_diagnostic(frame, &forcing[index]);
            messages.push(diagnostic);
            assert(diagnostics_view(messages@) =~= own.push(diagnostic@));
        }
        cache_result(
            cache,
            frame.key.clone(),
            EvaluationResult {
                evaluation: Evaluation::Reified(Type::Recursive(frame.id)),
                diagnostics: messages,
            },
        );
        index += 1;
    }
    let result = match cache.get(requested) {
        Some(result) => result.clone(),
        None => fallback,
    };
    (result, heads)
}

// ---------------------------------------------------------------------------
// Definitions that were read before
// ---------------------------------------------------------------------------
/// How the evaluation of a definition starts.
#[derive(Debug)]
pub enum DefinitionStart {
    /// It is finished, or it has begun.
    Answer(EvaluationResult),
    /// As many evaluations are running as may: nothing is known of it.
    LimitReached,
    /// It has begun now: its head is resolved, and it is finished with that.
    Resolve,
}

/// How the evaluation of a definition starts.
pub ghost enum SpecStart {
    Answer(SpecResult),
    LimitReached,
    Resolve,
}

impl DefinitionStart {
    pub open spec fn view(&self) -> SpecStart {
        match self {
            DefinitionStart::Answer(result) => SpecStart::Answer(result@),
            DefinitionStart::LimitReached => SpecStart::LimitReached,
            DefinitionStart::Resolve => SpecStart::Resolve,
        }
    }
}

/// A type without messages.
pub open spec fn plain_type(ty: SpecType) -> SpecResult {
    SpecResult { evaluation: SpecEvaluation::Reified(ty), diagnostics: Seq::empty() }
}

/// The stack after the evaluation of a definition started, and how it does. One that is
/// finished is not evaluated again, and one that has begun stands for a recursive type.
pub open spec fn definition_start(
    stack: SpecStack,
    key: Seq<char>,
    definition: Seq<char>,
    id: RecursiveTypeId,
    call_span: Span,
    limit: nat,
) -> (SpecStack, SpecStart) {
    if stack.cache.contains_key(key) {
        (stack, SpecStart::Answer(stack.cache[key]))
    } else if stack.referred(key).1 is Some {
        (
            stack.referred(key).0,
            SpecStart::Answer(plain_type(SpecType::Recursive(stack.referred(key).1->0))),
        )
    } else if stack.calls.len() >= limit {
        (stack, SpecStart::LimitReached)
    } else {
        (stack.begun(key, definition, id, call_span), SpecStart::Resolve)
    }
}

impl SpecializationStack {
    /// Start the evaluation of a definition. While nothing is running, nothing has begun.
    pub fn evaluate_prelowered_type_definition(
        &mut self,
        key: &str,
        definition: &str,
        id: RecursiveTypeId,
        call_span: Span,
        limit: usize,
    ) -> (start: DefinitionStart)
        requires
            old(self)@.well_formed(),
            old(self)@.is_active(key@) ==> old(self)@.calls.len() > 0,
        ensures
            (final(self)@, start@) == definition_start(
                old(self)@,
                key@,
                definition@,
                id,
                call_span,
                limit as nat,
            ),
            final(self)@.well_formed(),
    {
        if let Some(result) = self.cached_specialization(key) {
            return DefinitionStart::Answer(result);
        }
        if let Some(id) = self.active_specialization_reference(key) {
            let result = EvaluationResult {
                evaluation: Evaluation::Reified(Type::Recursive(id)),
                diagnostics: Vec::new(),
            };
            assert(result@.diagnostics =~= Seq::empty());
            return DefinitionStart::Answer(result);
        }
        proof {
            let stack = old(self)@;
            if stack.is_active(key@) {
                assert(stack.is_active(stack.calls[stack.calls.len() - 1]));
            }
        }
        if self.begin_specialization(key, definition, id, call_span, limit) {
            DefinitionStart::Resolve
        } else {
            DefinitionStart::LimitReached
        }
    }
}

/// The type that a definition without parameters gets: unknown where its value is not
/// known or not supported, and none where it is no type.
pub fn lower_zero_argument_type_definition(evaluation: Evaluation) -> (ty: Option<Type>)
    ensures
        owned_type_view(ty) == (match evaluation@ {
            SpecEvaluation::Reified(ty) => Some(ty),
            SpecEvaluation::Value => None,
            _ => Some(SpecType::Deferred),
        }),
{
    match evaluation {
        Evaluation::Reified(ty) => Some(ty),
        Evaluation::Value => None,
        Evaluation::Deferred => Some(Type::Deferred),
        Evaluation::Unsupported => Some(Type::Deferred),
    }
}

/// The message for a runtime name in a function that is evaluated at compile time.
pub open spec fn runtime_reference(name: Seq<char>, span: Span) -> SpecDiagnostic {
    SpecDiagnostic::error(
        "runtime binding `"@ + name + "` cannot be used while specializing a comptime function"@,
    ).coded(Code::ComptimeEvaluationUnsupported).labelled(
        span,
        "this reference is not known at compile time"@,
    ).noted("comptime function bodies may capture only comptime-known module bindings"@)
}

/// The message for a name in a function that is evaluated at compile time, if it is a
/// runtime name.
pub fn runtime_binding_reference(
    name: &str,
    span: Span,
    declared: &StringSet,
    comptime: &StringSet,
) -> (message: Option<Diagnostic>)
    ensures
        match message {
            Some(message) => declared@.contains(name@) && !comptime@.contains(name@) && message@
                == runtime_reference(name@, span),
            None => !declared@.contains(name@) || comptime@.contains(name@),
        },
{
    if !declared.contains(name) || comptime.contains(name) {
        return None;
    }
    Some(
        Diagnostic::error(
            concat3(
                "runtime binding `",
                name,
                "` cannot be used while specializing a comptime function",
            ),
        ).with_code(Code::ComptimeEvaluationUnsupported).with_label(
            span,
            "this reference is not known at compile time".to_owned(),
        ).with_note(
            "comptime function bodies may capture only comptime-known module bindings".to_owned(),
        ),
    )
}

/// The type of an annotation that was evaluated: unknown where the value is, and
/// none where it is no type.
pub fn finish_comptime_annotation_evaluation(evaluation: Evaluation) -> (ty: Option<Type>)
    ensures
        owned_type_view(ty) == (match evaluation@ {
            SpecEvaluation::Reified(ty) => Some(ty),
            SpecEvaluation::Deferred => Some(SpecType::Deferred),
            _ => None,
        }),
{
    match evaluation {
        Evaluation::Reified(ty) => Some(ty),
        Evaluation::Deferred => Some(Type::Deferred),
        Evaluation::Value => None,
        Evaluation::Unsupported => None,
    }
}

// ---------------------------------------------------------------------------
// Laws
// ---------------------------------------------------------------------------
/// Finishing an evaluation that met no earlier one takes the stack back to where
/// it was when the evaluation began.
pub proof fn finishing_undoes_beginning(
    stack: SpecStack,
    key: Seq<char>,
    definition: Seq<char>,
    id: RecursiveTypeId,
    call_span: Span,
    result: SpecResult,
)
    requires
        stack.well_formed(),
        !stack.is_active(key),
        !(result.evaluation is Unsupported),
    ensures
        finished(stack.begun(key, definition, id, call_span), key, result) == (
            SpecStack { cache: stack.cache.insert(key, result), ..stack },
            SpecFinished::Result(result),
        ),
{
    let begun = stack.begun(key, definition, id, call_span);
    let last = stack.frames.len() as int;
    frame_position_is_first(stack.frames, key, 0);
    position_after_push(stack.frames, begun.frames[last], key, 0);
    frame_position_is_first(begun.frames, key, 0);
    let position = frame_position(begun.frames, key, 0)->0;
    assert(position == last) by {
        if position < last {
            assert(begun.frames[position] == stack.frames[position]);
        }
    }
    let after = begun.with_result(last, result).returned();
    assert(after.calls =~= stack.calls);
    assert(after.frames.take(last) =~= stack.frames);
    let component = after.frames.skip(last);
    assert(component.len() == 1);
    assert(!component[0].self_edge);
    assert(!is_cycle(component));
}

/// An evaluation that meets itself ends a cycle.
pub proof fn meeting_oneself_makes_a_cycle(
    stack: SpecStack,
    key: Seq<char>,
    definition: Seq<char>,
    id: RecursiveTypeId,
    call_span: Span,
    result: SpecResult,
)
    requires
        stack.well_formed(),
        !stack.is_active(key),
    ensures
        stack.begun(key, definition, id, call_span).referred(key).1 == Some(id),
        finished(
            stack.begun(key, definition, id, call_span).referred(key).0,
            key,
            result,
        ).1 is Cycle,
{
    let begun = stack.begun(key, definition, id, call_span);
    let last = stack.frames.len() as int;
    frame_position_is_first(stack.frames, key, 0);
    position_after_push(stack.frames, begun.frames[last], key, 0);
    frame_position_is_first(begun.frames, key, 0);
    let position = frame_position(begun.frames, key, 0)->0;
    assert(position == last) by {
        if position < last {
            assert(begun.frames[position] == stack.frames[position]);
        }
    }
    let met = begun.referred(key).0;
    position_after_update(begun.frames, last, met.frames[last], key, 0);
    assert(met.frames =~= begun.frames.update(last, met.frames[last]));
    let after = met.with_result(last, result).returned();
    let component = after.frames.skip(last);
    assert(component[0].self_edge);
    assert(is_cycle(component));
}

} // verus!
