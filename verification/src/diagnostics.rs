//! Diagnostics, and the log that collects them.
use crate::span::Span;
use crate::text::{clone_texts, texts_view};
use crate::types::{SpecType, Type};
use vstd::prelude::*;

verus! {

/// What a diagnostic is about.
#[derive(Debug, Clone, Copy, PartialEq, Eq, Structural)]
pub enum Code {
    ComptimeEvaluationUnsupported,
    ComptimeHostFunction,
    ComptimeNonLiftableIntoRuntime,
    ModuleDynamicImport,
    ModuleUnresolvedImport,
    ModuleUnsupportedRoot,
    NameDuplicateDeclaration,
    NameDuplicateLocal,
    NameUnbound,
    ParseCustomInfixNotRoot,
    ParseMissingMethodBoundOpen,
    RecordRedundantUndefined,
    TypeCoalesceNeverEmpty,
    TypeDecodeFormat,
    TypeDeleteAbsentField,
    TypeDivisionByZero,
    TypeDivisorNotStatic,
    TypeDuplicateSpreadLabel,
    TypeEncodeFormat,
    TypeIncompatibleMatchArms,
    TypeInvalidOperatorOperands,
    TypeLiteralNotInUnion,
    TypeLowercaseVariantTag,
    TypeMismatch,
    TypeMissingField,
    TypeMixedVariantEntries,
    TypeNonExhaustiveMatch,
    TypeOpenVariantNotAssignable,
    TypeOrPatternBindingMismatch,
    TypePropagateNeedsResult,
    TypePropagateNotResult,
    TypeRenameAbsentField,
    TypeReplaceAbsentField,
    TypeSpreadShapeUnknown,
    TypeTupleIndexNotComptime,
    TypeTupleIndexOutOfRange,
    TypeUnboundMethodParameterizedOwner,
    TypeUnexpectedField,
    TypeUnguardedEmptyAccess,
    TypeUnknownName,
    TypeUnproductiveRecursion,
    TypeUnreachableMatchArm,
    TypeUnresolvedBinding,
    TypeUnusedResult,
    TypeUppercasePatternBinderUnsupported,
    TypeWideValueIntoLiteralUnion,
}

#[derive(Debug, Clone, Copy, PartialEq, Eq, Structural)]
pub enum Severity {
    Error,
    Warning,
}

/// A remark on a piece of source text.
#[derive(Debug)]
pub struct Label {
    pub span: Span,
    pub text: String,
}

/// What a label says.
pub ghost struct SpecLabel {
    pub span: Span,
    pub text: Seq<char>,
}

impl Label {
    pub open spec fn view(&self) -> SpecLabel {
        SpecLabel { span: self.span, text: self.text@ }
    }
}

pub open spec fn labels_view(labels: Seq<Label>) -> Seq<SpecLabel> {
    Seq::new(labels.len(), |i: int| labels[i]@)
}

/// A message about a program. Its first label is at the place that it is about.
#[derive(Debug)]
pub struct Diagnostic {
    pub severity: Severity,
    pub message: String,
    pub code: Option<Code>,
    pub labels: Vec<Label>,
    pub notes: Vec<String>,
}

/// What a diagnostic says.
pub ghost struct SpecDiagnostic {
    pub severity: Severity,
    pub message: Seq<char>,
    pub code: Option<Code>,
    pub labels: Seq<SpecLabel>,
    pub notes: Seq<Seq<char>>,
}

impl Diagnostic {
    pub open spec fn view(&self) -> SpecDiagnostic {
        SpecDiagnostic {
            severity: self.severity,
            message: self.message@,
            code: self.code,
            labels: labels_view(self.labels@),
            notes: texts_view(self.notes@),
        }
    }

    /// A diagnostic with its message alone.
    pub fn new(severity: Severity, message: String) -> (diagnostic: Diagnostic)
        ensures
            diagnostic@ == SpecDiagnostic::bare(severity, message@),
    {
        let diagnostic = Diagnostic {
            severity,
            message,
            code: None,
            labels: Vec::new(),
            notes: Vec::new(),
        };
        assert(diagnostic@.labels =~= Seq::empty());
        assert(diagnostic@.notes =~= Seq::empty());
        diagnostic
    }

    /// An error.
    pub fn error(message: String) -> (diagnostic: Diagnostic)
        ensures
            diagnostic@ == SpecDiagnostic::bare(Severity::Error, message@),
    {
        Diagnostic::new(Severity::Error, message)
    }

    /// A warning.
    pub fn warning(message: String) -> (diagnostic: Diagnostic)
        ensures
            diagnostic@ == SpecDiagnostic::bare(Severity::Warning, message@),
    {
        Diagnostic::new(Severity::Warning, message)
    }

    /// Say what the diagnostic is about.
    pub fn with_code(self, code: Code) -> (diagnostic: Diagnostic)
        ensures
            diagnostic@ == self@.coded(code),
    {
        Diagnostic {
            severity: self.severity,
            message: self.message,
            code: Some(code),
            labels: self.labels,
            notes: self.notes,
        }
    }

    /// Add a remark on a piece of source text.
    pub fn with_label(self, span: Span, text: String) -> (diagnostic: Diagnostic)
        ensures
            diagnostic@ == self@.labelled(span, text@),
    {
        let Diagnostic { severity, message, code, mut labels, notes } = self;
        let ghost before = labels_view(labels@);
        labels.push(Label { span, text });
        assert(labels_view(labels@) =~= before.push(SpecLabel { span, text: text@ }));
        Diagnostic { severity, message, code, labels, notes }
    }

    /// Add a note.
    pub fn with_note(self, note: String) -> (diagnostic: Diagnostic)
        ensures
            diagnostic@ == self@.noted(note@),
    {
        let Diagnostic { severity, message, code, labels, mut notes } = self;
        let ghost before = texts_view(notes@);
        notes.push(note);
        assert(texts_view(notes@) =~= before.push(note@));
        Diagnostic { severity, message, code, labels, notes }
    }

    /// What two diagnostics that say the same share: the code and the place.
    pub fn key(&self) -> (key: Option<(Code, Span)>)
        ensures
            key == self@.key(),
    {
        match self.code {
            Some(code) => if self.labels.len() > 0 {
                assert(self@.labels[0] == self.labels@[0]@);
                Some((code, self.labels[0].span))
            } else {
                None
            },
            None => None,
        }
    }
}

fn clone_labels(labels: &Vec<Label>) -> (copied: Vec<Label>)
    ensures
        labels_view(copied@) == labels_view(labels@),
{
    let mut copied: Vec<Label> = Vec::new();
    let mut index: usize = 0;
    while index < labels.len()
        invariant
            index <= labels.len(),
            copied.len() == index,
            forall|i: int| 0 <= i < index ==> (#[trigger] copied@[i])@ == labels@[i]@,
        decreases labels.len() - index,
    {
        copied.push(Label { span: labels[index].span, text: labels[index].text.clone() });
        index += 1;
    }
    assert(labels_view(copied@) =~= labels_view(labels@));
    copied
}

impl Clone for Diagnostic {
    fn clone(&self) -> (copied: Self)
        ensures
            copied@ == self@,
    {
        Diagnostic {
            severity: self.severity,
            message: self.message.clone(),
            code: self.code,
            labels: clone_labels(&self.labels),
            notes: clone_texts(&self.notes),
        }
    }
}

/// Copy a list of diagnostics.
pub fn clone_diagnostics(diagnostics: &Vec<Diagnostic>) -> (copied: Vec<Diagnostic>)
    ensures
        diagnostics_view(copied@) == diagnostics_view(diagnostics@),
{
    let mut copied: Vec<Diagnostic> = Vec::new();
    let mut index: usize = 0;
    while index < diagnostics.len()
        invariant
            index <= diagnostics.len(),
            copied.len() == index,
            forall|i: int| 0 <= i < index ==> (#[trigger] copied@[i])@ == diagnostics@[i]@,
        decreases diagnostics.len() - index,
    {
        copied.push(diagnostics[index].clone());
        index += 1;
    }
    assert(diagnostics_view(copied@) =~= diagnostics_view(diagnostics@));
    copied
}

impl SpecDiagnostic {
    pub open spec fn bare(severity: Severity, message: Seq<char>) -> SpecDiagnostic {
        SpecDiagnostic {
            severity,
            message,
            code: None,
            labels: Seq::empty(),
            notes: Seq::empty(),
        }
    }

    pub open spec fn error(message: Seq<char>) -> SpecDiagnostic {
        SpecDiagnostic::bare(Severity::Error, message)
    }

    pub open spec fn warning(message: Seq<char>) -> SpecDiagnostic {
        SpecDiagnostic::bare(Severity::Warning, message)
    }

    pub open spec fn coded(self, code: Code) -> SpecDiagnostic {
        SpecDiagnostic { code: Some(code), ..self }
    }

    pub open spec fn labelled(self, span: Span, text: Seq<char>) -> SpecDiagnostic {
        SpecDiagnostic { labels: self.labels.push(SpecLabel { span, text }), ..self }
    }

    pub open spec fn noted(self, note: Seq<char>) -> SpecDiagnostic {
        SpecDiagnostic { notes: self.notes.push(note), ..self }
    }

    /// The place that a diagnostic is about.
    pub open spec fn place(self) -> Option<Span> {
        if self.labels.len() > 0 {
            Some(self.labels[0].span)
        } else {
            None
        }
    }

    /// What two diagnostics that say the same share: the code and the place.
    pub open spec fn key(self) -> Option<(Code, Span)> {
        match (self.code, self.place()) {
            (Some(code), Some(span)) => Some((code, span)),
            _ => None,
        }
    }
}

pub open spec fn diagnostics_view(diagnostics: Seq<Diagnostic>) -> Seq<SpecDiagnostic> {
    Seq::new(diagnostics.len(), |i: int| diagnostics[i]@)
}

// ---------------------------------------------------------------------------
// The log
// ---------------------------------------------------------------------------
/// A place where an error is passed on to the caller.
#[derive(Debug)]
pub struct PropagationSite {
    pub span: Span,
    pub error_ty: Type,
}

/// What a place of propagation is.
pub ghost struct SpecSite {
    pub span: Span,
    pub error_ty: SpecType,
}

pub open spec fn sites_view(sites: Seq<PropagationSite>) -> Seq<SpecSite> {
    Seq::new(
        sites.len(),
        |i: int| SpecSite { span: sites[i].span, error_ty: sites[i].error_ty@ },
    )
}

pub open spec fn contexts_view(contexts: Seq<Vec<PropagationSite>>) -> Seq<Seq<SpecSite>> {
    Seq::new(contexts.len(), |i: int| sites_view(contexts[i]@))
}

/// The diagnostics so far, the places that were reported once, and the places of
/// propagation in each enclosing function.
#[derive(Debug)]
pub struct DiagnosticLog {
    pub diagnostics: Vec<Diagnostic>,
    pub reported_unbound_name_spans: Vec<Span>,
    pub reported_import_spans: Vec<Span>,
    pub propagation_contexts: Vec<Vec<PropagationSite>>,
}

/// What a log holds.
pub ghost struct SpecLog {
    pub diagnostics: Seq<SpecDiagnostic>,
    pub unbound: Set<Span>,
    pub imports: Set<Span>,
    pub contexts: Seq<Seq<SpecSite>>,
}

/// What a log is set back to.
#[derive(Debug)]
pub struct DiagnosticSnapshot {
    pub diagnostics_len: usize,
    pub reported_unbound_name_spans: Vec<Span>,
    pub reported_import_spans: Vec<Span>,
    pub propagation_context_site_counts: Vec<usize>,
}

/// Whether a list has a diagnostic with a key.
pub open spec fn has_key(diagnostics: Seq<SpecDiagnostic>, key: (Code, Span)) -> bool {
    exists|i: int| 0 <= i < diagnostics.len() && (#[trigger] diagnostics[i]).key() == Some(key)
}

/// Whether a diagnostic says again what the list says.
pub open spec fn repeats(diagnostics: Seq<SpecDiagnostic>, diagnostic: SpecDiagnostic) -> bool {
    match diagnostic.key() {
        Some(key) => has_key(diagnostics, key),
        None => false,
    }
}

/// A list with a diagnostic unless it repeats one.
pub open spec fn with_unique(
    diagnostics: Seq<SpecDiagnostic>,
    diagnostic: SpecDiagnostic,
) -> Seq<SpecDiagnostic> {
    if repeats(diagnostics, diagnostic) {
        diagnostics
    } else {
        diagnostics.push(diagnostic)
    }
}

/// A list with a diagnostic unless a type mismatch is known at its place.
pub open spec fn with_mismatch(
    diagnostics: Seq<SpecDiagnostic>,
    diagnostic: SpecDiagnostic,
) -> Seq<SpecDiagnostic> {
    match diagnostic.place() {
        Some(span) => if has_key(diagnostics, (Code::TypeMismatch, span)) {
            diagnostics
        } else {
            diagnostics.push(diagnostic)
        },
        None => diagnostics.push(diagnostic),
    }
}

/// The kept diagnostics followed by the others that repeat none before them.
pub open spec fn with_all_unique(
    kept: Seq<SpecDiagnostic>,
    others: Seq<SpecDiagnostic>,
) -> Seq<SpecDiagnostic>
    decreases others.len(),
{
    if others.len() == 0 {
        kept
    } else {
        with_all_unique(with_unique(kept, others[0]), others.skip(1))
    }
}

/// A list without the diagnostics from a position on that repeat an earlier one.
pub open spec fn unique_since(diagnostics: Seq<SpecDiagnostic>, start: int) -> Seq<SpecDiagnostic> {
    if start >= diagnostics.len() {
        diagnostics
    } else {
        with_all_unique(diagnostics.take(start), diagnostics.skip(start))
    }
}

fn clone_spans(spans: &Vec<Span>) -> (copied: Vec<Span>)
    ensures
        copied@ == spans@,
{
    let mut copied: Vec<Span> = Vec::new();
    let mut index: usize = 0;
    while index < spans.len()
        invariant
            index <= spans.len(),
            copied@ == spans@.take(index as int),
        decreases spans.len() - index,
    {
        copied.push(spans[index]);
        assert(spans@.take(index + 1) =~= spans@.take(index as int).push(spans@[index as int]));
        index += 1;
    }
    assert(spans@.take(spans@.len() as int) =~= spans@);
    copied
}

/// Add a span to a set; whether it was new.
fn insert_span(spans: &mut Vec<Span>, span: Span) -> (added: bool)
    ensures
        final(spans)@.to_set() == old(spans)@.to_set().insert(span),
        added == !old(spans)@.to_set().contains(span),
{
    let mut index: usize = 0;
    while index < spans.len()
        invariant
            index <= spans.len(),
            spans@ == old(spans)@,
            forall|i: int| 0 <= i < index ==> spans@[i] != span,
        decreases spans.len() - index,
    {
        if spans[index] == span {
            assert(spans@.contains(span));
            assert(spans@.to_set() =~= spans@.to_set().insert(span));
            return false;
        }
        index += 1;
    }
    let ghost before = spans@;
    spans.push(span);
    proof {
        assert forall|other: Span| #[trigger] spans@.to_set().contains(other) == (
        before.to_set().contains(other) || other == span) by {
            if before.contains(other) {
                let i = choose|i: int| 0 <= i < before.len() && before[i] == other;
                assert(spans@[i] == other);
            }
            if other == span {
                assert(spans@[before.len() as int] == other);
            }
        }
        assert(spans@.to_set() =~= before.to_set().insert(span));
    }
    true
}

impl DiagnosticLog {
    pub open spec fn view(&self) -> SpecLog {
        SpecLog {
            diagnostics: diagnostics_view(self.diagnostics@),
            unbound: self.reported_unbound_name_spans@.to_set(),
            imports: self.reported_import_spans@.to_set(),
            contexts: contexts_view(self.propagation_contexts@),
        }
    }

    /// The log without diagnostics.
    pub fn new() -> (log: DiagnosticLog)
        ensures
            log@ == (SpecLog {
                diagnostics: Seq::empty(),
                unbound: Set::empty(),
                imports: Set::empty(),
                contexts: Seq::empty(),
            }),
    {
        let log = DiagnosticLog {
            diagnostics: Vec::new(),
            reported_unbound_name_spans: Vec::new(),
            reported_import_spans: Vec::new(),
            propagation_contexts: Vec::new(),
        };
        assert(log@.diagnostics =~= Seq::empty());
        assert(log@.unbound =~= Set::empty());
        assert(log@.imports =~= Set::empty());
        assert(log@.contexts =~= Seq::empty());
        log
    }

    /// Add a diagnostic.
    pub fn push(&mut self, diagnostic: Diagnostic)
        ensures
            final(self)@ == (SpecLog {
                diagnostics: old(self)@.diagnostics.push(diagnostic@),
                ..old(self)@
            }),
    {
        let ghost before = self@.diagnostics;
        self.diagnostics.push(diagnostic);
        assert(self@.diagnostics =~= before.push(diagnostic@));
    }

    /// Whether one of the first diagnostics has a key.
    fn key_is_known(&self, length: usize, key: (Code, Span)) -> (known: bool)
        requires
            length <= self.diagnostics.len(),
        ensures
            known == has_key(self@.diagnostics.take(length as int), key),
    {
        let ghost all = self@.diagnostics.take(length as int);
        let mut index: usize = 0;
        while index < length
            invariant
                index <= length <= self.diagnostics.len(),
                all == self@.diagnostics.take(length as int),
                forall|i: int| 0 <= i < index ==> (#[trigger] all[i]).key() != Some(key),
            decreases length - index,
        {
            assert(all[index as int] == self.diagnostics@[index as int]@);
            if let Some(known) = self.diagnostics[index].key() {
                if known.0 == key.0 && known.1 == key.1 {
                    assert(all[index as int].key() == Some(key));
                    return true;
                }
            }
            index += 1;
        }
        false
    }

    /// Add a type mismatch unless one is known at its place.
    pub fn push_type_mismatch_diagnostic(&mut self, diagnostic: Diagnostic)
        ensures
            final(self)@ == (SpecLog {
                diagnostics: with_mismatch(old(self)@.diagnostics, diagnostic@),
                ..old(self)@
            }),
    {
        assert(self@.diagnostics.take(self@.diagnostics.len() as int) =~= self@.diagnostics);
        if diagnostic.labels.len() > 0 {
            assert(diagnostic@.labels[0] == diagnostic.labels@[0]@);
            let span = diagnostic.labels[0].span;
            if self.key_is_known(self.diagnostics.len(), (Code::TypeMismatch, span)) {
                return ;
            }
        }
        self.push(diagnostic);
    }

    /// Add a diagnostic unless it repeats one.
    pub fn push_unique_diagnostic(&mut self, diagnostic: Diagnostic)
        ensures
            final(self)@ == (SpecLog {
                diagnostics: with_unique(old(self)@.diagnostics, diagnostic@),
                ..old(self)@
            }),
    {
        assert(self@.diagnostics.take(self@.diagnostics.len() as int) =~= self@.diagnostics);
        if let Some(key) = diagnostic.key() {
            if self.key_is_known(self.diagnostics.len(), key) {
                return ;
            }
        }
        self.push(diagnostic);
    }

    /// Remove the diagnostics from a position on that repeat an earlier one.
    pub fn deduplicate_diagnostics_since(&mut self, start: usize)
        ensures
            final(self)@ == (SpecLog {
                diagnostics: unique_since(old(self)@.diagnostics, start as int),
                ..old(self)@
            }),
    {
        let ghost before = self@;
        let mut index: usize = start;
        proof {
            if start < self@.diagnostics.len() {
                assert(self@.diagnostics =~= before.diagnostics.take(start as int)
                    + before.diagnostics.skip(start as int));
            }
        }
        while index < self.diagnostics.len()
            invariant
                before == old(self)@,
                start < before.diagnostics.len() ==> index <= self.diagnostics.len(),
                start >= before.diagnostics.len() ==> self@ == before && index == start,
                start < before.diagnostics.len() ==> unique_since(
                    before.diagnostics,
                    start as int,
                ) == with_all_unique(
                    self@.diagnostics.take(index as int),
                    self@.diagnostics.skip(index as int),
                ),
                self@.unbound == before.unbound,
                self@.imports == before.imports,
                self@.contexts == before.contexts,
            decreases self.diagnostics.len() - index,
        {
            let ghost all = self@.diagnostics;
            let ghost kept = all.take(index as int);
            assert(all.skip(index as int)[0] == self.diagnostics@[index as int]@);
            assert(all.skip(index as int).skip(1) =~= all.skip(index + 1));
            let duplicate = match self.diagnostics[index].key() {
                Some(key) => self.key_is_known(index, key),
                None => false,
            };
            if duplicate {
                self.diagnostics.remove(index);
                proof {
                    assert(self@.diagnostics =~= all.remove(index as int));
                    assert(self@.diagnostics.take(index as int) =~= kept);
                    assert(self@.diagnostics.skip(index as int) =~= all.skip(index + 1));
                }
            } else {
                index += 1;
                assert(all.take(index as int) =~= kept.push(all[index - 1]));
            }
        }
        proof {
            if start < before.diagnostics.len() {
                assert(self@.diagnostics.take(index as int) =~= self@.diagnostics);
                assert(self@.diagnostics.skip(index as int) =~= Seq::empty());
            }
        }
    }

    /// Note that an import was reported; whether it was not before.
    pub fn report_import_once(&mut self, span: Span) -> (first: bool)
        ensures
            final(self)@ == (SpecLog { imports: old(self)@.imports.insert(span), ..old(self)@ }),
            first == !old(self)@.imports.contains(span),
    {
        insert_span(&mut self.reported_import_spans, span)
    }

    /// Note that an unbound name was reported; whether it was not before.
    pub fn report_unbound_once(&mut self, span: Span) -> (first: bool)
        ensures
            final(self)@ == (SpecLog { unbound: old(self)@.unbound.insert(span), ..old(self)@ }),
            first == !old(self)@.unbound.contains(span),
    {
        insert_span(&mut self.reported_unbound_name_spans, span)
    }

    /// Remember what the log holds.
    pub fn diagnostic_snapshot(&self) -> (snapshot: DiagnosticSnapshot)
        ensures
            snapshot@ == self@.snapshot(),
    {
        let mut counts: Vec<usize> = Vec::new();
        let mut index: usize = 0;
        while index < self.propagation_contexts.len()
            invariant
                index <= self.propagation_contexts.len(),
                counts.len() == index,
                forall|i: int|
                    0 <= i < index ==> (#[trigger] counts@[i]) == self@.contexts[i].len(),
            decreases self.propagation_contexts.len() - index,
        {
            assert(self@.contexts[index as int] == sites_view(
                self.propagation_contexts@[index as int]@,
            ));
            counts.push(self.propagation_contexts[index].len());
            index += 1;
        }
        let snapshot = DiagnosticSnapshot {
            diagnostics_len: self.diagnostics.len(),
            reported_unbound_name_spans: clone_spans(&self.reported_unbound_name_spans),
            reported_import_spans: clone_spans(&self.reported_import_spans),
            propagation_context_site_counts: counts,
        };
        assert(snapshot@.counts =~= self@.snapshot().counts);
        snapshot
    }

    /// Set the log back to what it held at a snapshot.
    pub fn restore_diagnostic_snapshot(&mut self, snapshot: DiagnosticSnapshot)
        ensures
            final(self)@ == old(self)@.restored(snapshot@),
    {
        let ghost before = self@;
        let ghost saved = snapshot@;
        self.diagnostics.truncate(snapshot.diagnostics_len);
        assert(self@.diagnostics =~= before.restored(saved).diagnostics);
        self.reported_unbound_name_spans = snapshot.reported_unbound_name_spans;
        self.reported_import_spans = snapshot.reported_import_spans;
        let counts = snapshot.propagation_context_site_counts;
        let mut contexts: Vec<Vec<PropagationSite>> = Vec::new();
        contexts.append(&mut self.propagation_contexts);
        assert(contexts_view(contexts@) =~= before.contexts);
        self.propagation_contexts = truncate_contexts(contexts, &counts);
        assert(self@.contexts =~= before.restored(saved).contexts);
    }
}

/// The first contexts, each with its first sites.
fn truncate_contexts(contexts: Vec<Vec<PropagationSite>>, counts: &Vec<usize>) -> (truncated: Vec<
    Vec<PropagationSite>,
>)
    ensures
        contexts_view(truncated@) == truncated_contexts(
            contexts_view(contexts@),
            counts@.map_values(|count: usize| count as nat),
        ),
{
    let ghost all = contexts_view(contexts@);
    let ghost lengths = counts@.map_values(|count: usize| count as nat);
    let mut truncated = contexts;
    truncated.truncate(counts.len());
    let mut index: usize = 0;
    assert(contexts_view(truncated@) =~= all.take(
        if counts.len() < all.len() {
            counts.len() as int
        } else {
            all.len() as int
        },
    ));
    while index < truncated.len()
        invariant
            index <= truncated.len(),
            truncated.len() <= counts.len(),
            lengths == counts@.map_values(|count: usize| count as nat),
            truncated.len() == truncated_contexts(all, lengths).len(),
            truncated.len() <= all.len(),
            forall|i: int|
                0 <= i < index ==> sites_view((#[trigger] truncated@[i])@) == truncated_contexts(
                    all,
                    lengths,
                )[i],
            forall|i: int|
                index <= i < truncated.len() ==> sites_view((#[trigger] truncated@[i])@) == all[i],
        decreases truncated.len() - index,
    {
        truncated[index].truncate(counts[index]);
        proof {
            assert(sites_view(truncated@[index as int]@) =~= truncated_contexts(
                all,
                lengths,
            )[index as int]);
        }
        index += 1;
    }
    assert(contexts_view(truncated@) =~= truncated_contexts(all, lengths));
    truncated
}

/// What a snapshot holds.
pub ghost struct SpecSnapshot {
    pub length: nat,
    pub unbound: Set<Span>,
    pub imports: Set<Span>,
    pub counts: Seq<nat>,
}

impl DiagnosticSnapshot {
    pub open spec fn view(&self) -> SpecSnapshot {
        SpecSnapshot {
            length: self.diagnostics_len as nat,
            unbound: self.reported_unbound_name_spans@.to_set(),
            imports: self.reported_import_spans@.to_set(),
            counts: self.propagation_context_site_counts@.map_values(|count: usize| count as nat),
        }
    }
}

/// The first elements of a sequence, as many as there are.
pub open spec fn at_most<T>(items: Seq<T>, count: nat) -> Seq<T> {
    if count < items.len() {
        items.take(count as int)
    } else {
        items
    }
}

/// The first contexts, each with its first sites.
pub open spec fn truncated_contexts(contexts: Seq<Seq<SpecSite>>, counts: Seq<nat>) -> Seq<
    Seq<SpecSite>,
> {
    let kept = at_most(contexts, counts.len());
    Seq::new(kept.len(), |i: int| at_most(kept[i], counts[i]))
}

impl SpecLog {
    pub open spec fn snapshot(self) -> SpecSnapshot {
        SpecSnapshot {
            length: self.diagnostics.len(),
            unbound: self.unbound,
            imports: self.imports,
            counts: self.contexts.map_values(|sites: Seq<SpecSite>| sites.len()),
        }
    }

    pub open spec fn restored(self, snapshot: SpecSnapshot) -> SpecLog {
        SpecLog {
            diagnostics: at_most(self.diagnostics, snapshot.length),
            unbound: snapshot.unbound,
            imports: snapshot.imports,
            contexts: truncated_contexts(self.contexts, snapshot.counts),
        }
    }

    /// Whether a log holds all that an earlier one held, and then more.
    pub open spec fn extends(self, earlier: SpecLog) -> bool {
        &&& earlier.diagnostics.is_prefix_of(self.diagnostics)
        &&& earlier.contexts.len() <= self.contexts.len()
        &&& forall|i: int|
            0 <= i < earlier.contexts.len() ==> (#[trigger] earlier.contexts[i]).is_prefix_of(
                self.contexts[i],
            )
    }
}

// ---------------------------------------------------------------------------
// Laws
// ---------------------------------------------------------------------------
/// Whether no two diagnostics from a position on say the same, nor one of them
/// the same as an earlier one.
pub open spec fn all_unique_since(diagnostics: Seq<SpecDiagnostic>, start: int) -> bool {
    forall|i: int, j: int|
        0 <= i < j < diagnostics.len() && start <= j && (#[trigger] diagnostics[j]).key() is Some
            ==> (#[trigger] diagnostics[i]).key() != diagnostics[j].key()
}

proof fn with_all_unique_is_unique(
    kept: Seq<SpecDiagnostic>,
    others: Seq<SpecDiagnostic>,
    start: int,
)
    requires
        0 <= start <= kept.len(),
        all_unique_since(kept, start),
    ensures
        all_unique_since(with_all_unique(kept, others), start),
        kept.is_prefix_of(with_all_unique(kept, others)),
        forall|key: (Code, Span)| #[trigger]
            has_key(with_all_unique(kept, others), key) == (has_key(kept, key) || has_key(
                others,
                key,
            )),
    decreases others.len(),
{
    if others.len() > 0 {
        let next = with_unique(kept, others[0]);
        let rest = others.skip(1);
        with_unique_is_unique(kept, others[0], start);
        with_all_unique_is_unique(next, rest, start);
        assert forall|key: (Code, Span)| #[trigger]
            has_key(with_all_unique(kept, others), key) == (has_key(kept, key) || has_key(
                others,
                key,
            )) by {
            if has_key(others, key) {
                let i = choose|i: int|
                    0 <= i < others.len() && (#[trigger] others[i]).key() == Some(key);
                if i > 0 {
                    assert(rest[i - 1].key() == Some(key));
                    assert(has_key(rest, key));
                }
            }
            if has_key(rest, key) {
                let i = choose|i: int|
                    0 <= i < rest.len() && (#[trigger] rest[i]).key() == Some(key);
                assert(others[i + 1].key() == Some(key));
            }
        }
    }
}

proof fn with_unique_is_unique(
    kept: Seq<SpecDiagnostic>,
    diagnostic: SpecDiagnostic,
    start: int,
)
    requires
        0 <= start <= kept.len(),
        all_unique_since(kept, start),
    ensures
        all_unique_since(with_unique(kept, diagnostic), start),
        kept.is_prefix_of(with_unique(kept, diagnostic)),
        forall|key: (Code, Span)| #[trigger]
            has_key(with_unique(kept, diagnostic), key) == (has_key(kept, key) || diagnostic.key()
                == Some(key)),
{
    let next = with_unique(kept, diagnostic);
    assert forall|key: (Code, Span)| #[trigger]
        has_key(next, key) == (has_key(kept, key) || diagnostic.key() == Some(key)) by {
        if has_key(kept, key) {
            let i = choose|i: int| 0 <= i < kept.len() && (#[trigger] kept[i]).key() == Some(key);
            assert(next[i].key() == Some(key));
        }
        if diagnostic.key() == Some(key) && !repeats(kept, diagnostic) {
            assert(next[kept.len() as int].key() == Some(key));
        }
    }
    assert forall|i: int, j: int|
        0 <= i < j < next.len() && start <= j && (#[trigger] next[j]).key() is Some implies (
    #[trigger] next[i]).key() != next[j].key() by {
        if j == kept.len() {
            assert(kept[i] == next[i]);
            if next[i].key() == diagnostic.key() {
                assert(has_key(kept, diagnostic.key()->0));
            }
        } else {
            assert(kept[i] == next[i] && kept[j] == next[j]);
        }
    }
}

/// Deduplication leaves no repetition from its start on, keeps what came before,
/// and loses nothing that was said.
pub proof fn deduplication_leaves_no_repetition(diagnostics: Seq<SpecDiagnostic>, start: int)
    requires
        0 <= start <= diagnostics.len(),
    ensures
        all_unique_since(unique_since(diagnostics, start), start),
        diagnostics.take(start).is_prefix_of(unique_since(diagnostics, start)),
        forall|key: (Code, Span)| #[trigger]
            has_key(unique_since(diagnostics, start), key) == has_key(diagnostics, key),
{
    let kept = diagnostics.take(start);
    let others = diagnostics.skip(start);
    if start < diagnostics.len() {
        with_all_unique_is_unique(kept, others, start);
        assert forall|key: (Code, Span)| #[trigger]
            has_key(unique_since(diagnostics, start), key) == has_key(diagnostics, key) by {
            if has_key(diagnostics, key) {
                let i = choose|i: int|
                    0 <= i < diagnostics.len() && (#[trigger] diagnostics[i]).key() == Some(key);
                if i < start {
                    assert(kept[i].key() == Some(key));
                } else {
                    assert(others[i - start].key() == Some(key));
                }
            }
            if has_key(kept, key) {
                let i = choose|i: int|
                    0 <= i < kept.len() && (#[trigger] kept[i]).key() == Some(key);
                assert(diagnostics[i].key() == Some(key));
            }
            if has_key(others, key) {
                let i = choose|i: int|
                    0 <= i < others.len() && (#[trigger] others[i]).key() == Some(key);
                assert(diagnostics[i + start].key() == Some(key));
            }
        }
    } else {
        assert(kept =~= diagnostics);
    }
}

/// A diagnostic that was added as unique is said once: adding it again changes
/// nothing.
pub proof fn unique_diagnostics_are_added_once(
    diagnostics: Seq<SpecDiagnostic>,
    diagnostic: SpecDiagnostic,
)
    requires
        diagnostic.key() is Some,
    ensures
        with_unique(with_unique(diagnostics, diagnostic), diagnostic) == with_unique(
            diagnostics,
            diagnostic,
        ),
{
    let added = with_unique(diagnostics, diagnostic);
    if !repeats(diagnostics, diagnostic) {
        assert(added[diagnostics.len() as int].key() == diagnostic.key());
        assert(has_key(added, diagnostic.key()->0));
    }
}

/// A log that only grew since a snapshot is set back to what it was.
pub proof fn restoring_undoes_growth(earlier: SpecLog, later: SpecLog)
    requires
        later.extends(earlier),
    ensures
        later.restored(earlier.snapshot()) == earlier,
{
    let restored = later.restored(earlier.snapshot());
    assert(restored.diagnostics =~= earlier.diagnostics);
    let counts = earlier.snapshot().counts;
    assert(restored.contexts.len() == earlier.contexts.len());
    assert forall|i: int| 0 <= i < earlier.contexts.len() implies restored.contexts[i]
        == earlier.contexts[i] by {
        assert(earlier.contexts[i].is_prefix_of(later.contexts[i]));
        assert(counts[i] == earlier.contexts[i].len());
        assert(restored.contexts[i] =~= earlier.contexts[i]);
    }
    assert(restored.contexts =~= earlier.contexts);
}

} // verus!
