//! What is said of what the checks find.
use crate::attachments::{AttachmentIssue, SpecAttachmentIssue};
use crate::builtin_methods::{builtin_method_signature, builtin_signature};
use crate::diagnostics::{has_key, Code, Diagnostic, DiagnosticLog, SpecDiagnostic, SpecLog};
use crate::families::{FamilyIssue, SpecFamilyIssue};
use crate::matches::MatchGap;
use crate::methods::{MethodPredicate, SpecPredicate};
use crate::notation::{
    method_text, render_method_signature, render_named_method_signature,
    render_predicate_requirement, requirement_text, signature_text, TypeNotation,
};
use crate::obligations::{predicate_contains_meta, predicate_metas};
use crate::operators::{
    check_integer_divisor, divisor_verdict, operand_note, operand_text, operator_operand_note,
    operator_operand_type, DivisorVerdict,
};
use crate::providers::{BaseProblem, EntryAction, ProviderIssue, SpecProviderIssue};
use crate::reports::{listed, listed_literals, plural};
use crate::row_edits::{DuplicateRowLabelContext, RowIssue, SpecRowIssue};
use crate::rows::{
    peel_empty_values, peeled_payload, render_empty_values, EmptyValue, VariantEntryKind,
};
use crate::span::Span;
use crate::syntax::{describe_receiver_expr, receiver_text, Expr};
use crate::text::{concat3, concat5, concat7, decimal, joined, same_text, texts_view, unsigned_text};
use crate::types::{SpecType, Type};
use vstd::prelude::*;

verus! {

pub open spec fn diagnostic_view(diagnostic: Option<Diagnostic>) -> Option<SpecDiagnostic> {
    match diagnostic {
        Some(diagnostic) => Some(diagnostic@),
        None => None,
    }
}

// ---------------------------------------------------------------------------
// Declarations
// ---------------------------------------------------------------------------
/// What is said of a method that a family declares.
pub open spec fn family_report<N: TypeNotation>(notation: &N, issue: SpecFamilyIssue) -> SpecDiagnostic {
    match issue {
        SpecFamilyIssue::UppercaseMethod { span } => {
            SpecDiagnostic::error(
                "method names must be lowercase or operator tokens"@,
            ).coded(Code::TypeMismatch).labelled(
                span,
                "uppercase method name"@,
            )
        },
        SpecFamilyIssue::FieldConflict { name, span } => {
            SpecDiagnostic::error(
                "method `"@ + name + "` conflicts with a data field of the same name"@,
            ).coded(Code::TypeMismatch).labelled(
                span,
                "duplicate member name"@,
            )
        },
        SpecFamilyIssue::DuplicateMethod { name, span } => {
            SpecDiagnostic::error(
                "duplicate method `"@ + name + "`"@,
            ).coded(Code::TypeMismatch).labelled(
                span,
                "method already declared"@,
            )
        },
        SpecFamilyIssue::UntypedParameter { span } => {
            SpecDiagnostic::error(
                "provider method parameters must be explicitly typed"@,
            ).coded(Code::TypeMismatch).labelled(
                span,
                "missing parameter type"@,
            )
        },
        SpecFamilyIssue::OverrideMismatch { name, span, base_owner, base_member, inherited, declared } => {
            SpecDiagnostic::error(
                "`"@ + name + "` collides with inherited `"@ + notation.text_of(base_owner) + "."@
                    + base_member + "`"@,
            ).coded(Code::TypeMismatch).labelled(
                span,
                "override signature does not match"@,
            ).noted(
                "the inherited family signature is `"@ + method_text(notation, inherited) + "`"@,
            ).noted(
                "the declaration has `"@ + method_text(notation, declared) + "`"@,
            ).noted(
                "an override must keep the inherited signature; rename this method or fix it"@,
            )
        },
    }
}

/// What is said of a method that a family declares.
pub fn family_diagnostic<N: TypeNotation>(notation: &N, issue: &FamilyIssue) -> (diagnostic: Diagnostic)
    ensures
        diagnostic@ == family_report(notation, issue@),
{
    match issue {
        FamilyIssue::UppercaseMethod { span } => {
            Diagnostic::error(
                "method names must be lowercase or operator tokens".to_owned(),
            ).with_code(Code::TypeMismatch).with_label(
                *span,
                "uppercase method name".to_owned(),
            )
        },
        FamilyIssue::FieldConflict { name, span } => {
            Diagnostic::error(
                concat3(
                    "method `",
                    name.as_str(),
                    "` conflicts with a data field of the same name",
                ),
            ).with_code(Code::TypeMismatch).with_label(
                *span,
                "duplicate member name".to_owned(),
            )
        },
        FamilyIssue::DuplicateMethod { name, span } => {
            Diagnostic::error(
                concat3("duplicate method `", name.as_str(), "`"),
            ).with_code(Code::TypeMismatch).with_label(
                *span,
                "method already declared".to_owned(),
            )
        },
        FamilyIssue::UntypedParameter { span } => {
            Diagnostic::error(
                "provider method parameters must be explicitly typed".to_owned(),
            ).with_code(Code::TypeMismatch).with_label(
                *span,
                "missing parameter type".to_owned(),
            )
        },
        FamilyIssue::OverrideMismatch { name, span, base_owner, base_member, inherited, declared } => {
            let base_owner_text: String = notation.render(base_owner);
            let inherited_text: String = render_named_method_signature(notation, inherited);
            let declared_text: String = render_named_method_signature(notation, declared);
            Diagnostic::error(
                concat7(
                    "`",
                    name.as_str(),
                    "` collides with inherited `",
                    base_owner_text.as_str(),
                    ".",
                    base_member.as_str(),
                    "`",
                ),
            ).with_code(Code::TypeMismatch).with_label(
                *span,
                "override signature does not match".to_owned(),
            ).with_note(
                concat3("the inherited family signature is `", inherited_text.as_str(), "`"),
            ).with_note(
                concat3("the declaration has `", declared_text.as_str(), "`"),
            ).with_note(
                "an override must keep the inherited signature; rename this method or fix it".to_owned(),
            )
        },
    }
}

/// What is said of an attachment of methods.
pub open spec fn attachment_report(issue: SpecAttachmentIssue) -> SpecDiagnostic {
    match issue {
        SpecAttachmentIssue::Untrusted { span } => {
            SpecDiagnostic::error(
                "only trusted ambient modules may attach methods to builtin types"@,
            ).coded(Code::TypeMismatch).labelled(
                span,
                "untrusted builtin method attachment"@,
            ).noted(
                "builtin method sets are sealed after the host's ambient roots are checked"@,
            )
        },
        SpecAttachmentIssue::InvalidOwner { span } => {
            SpecDiagnostic::error(
                "builtin method attachments require a builtin owner pattern"@,
            ).coded(Code::TypeMismatch).labelled(
                span,
                "invalid owner pattern"@,
            ).noted(
                "write a pattern such as `Array(a)`, `Array(Int)`, or `Array(Array(a))`"@,
            )
        },
        SpecAttachmentIssue::UnknownOwner { head, span } => {
            SpecDiagnostic::error(
                "`"@ + head + "` is not a compiler-known builtin method owner"@,
            ).coded(Code::TypeMismatch).labelled(
                span,
                "unsupported builtin owner"@,
            )
        },
        SpecAttachmentIssue::WrongArity { head, arity, found, span } => {
            SpecDiagnostic::error(
                "builtin owner `"@ + head + "` expects "@ + decimal(arity as nat)
                    + " type argument(s)"@,
            ).coded(Code::TypeMismatch).labelled(
                span,
                "found "@ + decimal(found) + " argument(s)"@,
            )
        },
        SpecAttachmentIssue::UntypedParameter { span } => {
            SpecDiagnostic::error(
                "builtin method parameters must be explicitly typed"@,
            ).coded(Code::TypeMismatch).labelled(
                span,
                "missing parameter type"@,
            )
        },
        SpecAttachmentIssue::Overlap { member, span, previous } => {
            SpecDiagnostic::error(
                "builtin method `"@ + member + "` has overlapping owner patterns"@,
            ).coded(Code::TypeMismatch).labelled(
                span,
                "colliding method declaration"@,
            ).labelled(
                previous,
                "previous declaration"@,
            )
        },
        SpecAttachmentIssue::Intrinsic { member, span } => {
            SpecDiagnostic::error(
                "builtin method `"@ + member + "` conflicts with an intrinsic method"@,
            ).coded(Code::TypeMismatch).labelled(
                span,
                "intrinsic member already exists"@,
            )
        },
    }
}

/// What is said of an attachment of methods.
pub fn attachment_diagnostic(issue: &AttachmentIssue) -> (diagnostic: Diagnostic)
    ensures
        diagnostic@ == attachment_report(issue@),
{
    match issue {
        AttachmentIssue::Untrusted { span } => {
            Diagnostic::error(
                "only trusted ambient modules may attach methods to builtin types".to_owned(),
            ).with_code(Code::TypeMismatch).with_label(
                *span,
                "untrusted builtin method attachment".to_owned(),
            ).with_note(
                "builtin method sets are sealed after the host's ambient roots are checked".to_owned(),
            )
        },
        AttachmentIssue::InvalidOwner { span } => {
            Diagnostic::error(
                "builtin method attachments require a builtin owner pattern".to_owned(),
            ).with_code(Code::TypeMismatch).with_label(
                *span,
                "invalid owner pattern".to_owned(),
            ).with_note(
                "write a pattern such as `Array(a)`, `Array(Int)`, or `Array(Array(a))`".to_owned(),
            )
        },
        AttachmentIssue::UnknownOwner { head, span } => {
            Diagnostic::error(
                concat3("`", head.as_str(), "` is not a compiler-known builtin method owner"),
            ).with_code(Code::TypeMismatch).with_label(
                *span,
                "unsupported builtin owner".to_owned(),
            )
        },
        AttachmentIssue::WrongArity { head, arity, found, span } => {
            let arity_text: String = unsigned_text(*arity as u64);
            let found_text: String = unsigned_text(*found as u64);
            Diagnostic::error(
                concat5(
                    "builtin owner `",
                    head.as_str(),
                    "` expects ",
                    arity_text.as_str(),
                    " type argument(s)",
                ),
            ).with_code(Code::TypeMismatch).with_label(
                *span,
                concat3("found ", found_text.as_str(), " argument(s)"),
            )
        },
        AttachmentIssue::UntypedParameter { span } => {
            Diagnostic::error(
                "builtin method parameters must be explicitly typed".to_owned(),
            ).with_code(Code::TypeMismatch).with_label(
                *span,
                "missing parameter type".to_owned(),
            )
        },
        AttachmentIssue::Overlap { member, span, previous } => {
            Diagnostic::error(
                concat3("builtin method `", member.as_str(), "` has overlapping owner patterns"),
            ).with_code(Code::TypeMismatch).with_label(
                *span,
                "colliding method declaration".to_owned(),
            ).with_label(
                *previous,
                "previous declaration".to_owned(),
            )
        },
        AttachmentIssue::Intrinsic { member, span } => {
            Diagnostic::error(
                concat3(
                    "builtin method `",
                    member.as_str(),
                    "` conflicts with an intrinsic method",
                ),
            ).with_code(Code::TypeMismatch).with_label(
                *span,
                "intrinsic member already exists".to_owned(),
            )
        },
    }
}

/// What is said of an entry of a provider.
pub open spec fn entry_report(issue: EntryAction<'_>) -> Option<SpecDiagnostic> {
    match issue {
        EntryAction::Accept => None,
        EntryAction::CheckBody { .. } => None,
        EntryAction::CheckDefault { .. } => None,
        EntryAction::RejectSlot { name, span } => {
            Some(
                SpecDiagnostic::error(
                    "instance-carried method slot `"@ + name@ + "` is not supported"@,
                ).coded(Code::TypeMismatch).labelled(
                    span,
                    "method signature has no shared implementation"@,
                ).noted(
                    "add `=> body` to declare a type-carried provider method"@,
                ),
            )
        },
        EntryAction::RejectData { span } => {
            Some(
                SpecDiagnostic::error(
                    "primitive-base family declarations contain only methods"@,
                ).coded(Code::TypeMismatch).labelled(
                    span,
                    "data fields are not supported on a primitive payload"@,
                ),
            )
        },
        EntryAction::RejectOverride { name, span } => {
            Some(
                SpecDiagnostic::error(
                    "per-instance override `"@ + name@ + "` is not supported in a provider"@,
                ).coded(Code::TypeMismatch).labelled(
                    span,
                    "override member"@,
                ),
            )
        },
        EntryAction::RejectTransform { span } => {
            Some(
                SpecDiagnostic::error(
                    "method-bearing record declarations must be closed"@,
                ).coded(Code::TypeMismatch).labelled(
                    span,
                    "transform, spread, or open-row entry is not supported here"@,
                ).noted(
                    "write a closed list of data fields and body-bearing methods"@,
                ),
            )
        },
        EntryAction::RejectValue { span } => {
            Some(
                SpecDiagnostic::error(
                    "method-bearing record declarations cannot contain value entries"@,
                ).coded(Code::TypeMismatch).labelled(
                    span,
                    "unsupported provider entry"@,
                ),
            )
        },
    }
}

/// What is said of an entry of a provider.
pub fn entry_diagnostic(issue: &EntryAction<'_>) -> (diagnostic: Option<Diagnostic>)
    ensures
        diagnostic_view(diagnostic) == entry_report(*issue),
{
    match issue {
        EntryAction::Accept => None,
        EntryAction::CheckBody { .. } => None,
        EntryAction::CheckDefault { .. } => None,
        EntryAction::RejectSlot { name, span } => {
            Some(
                Diagnostic::error(
                    concat3("instance-carried method slot `", name, "` is not supported"),
                ).with_code(Code::TypeMismatch).with_label(
                    *span,
                    "method signature has no shared implementation".to_owned(),
                ).with_note(
                    "add `=> body` to declare a type-carried provider method".to_owned(),
                ),
            )
        },
        EntryAction::RejectData { span } => {
            Some(
                Diagnostic::error(
                    "primitive-base family declarations contain only methods".to_owned(),
                ).with_code(Code::TypeMismatch).with_label(
                    *span,
                    "data fields are not supported on a primitive payload".to_owned(),
                ),
            )
        },
        EntryAction::RejectOverride { name, span } => {
            Some(
                Diagnostic::error(
                    concat3(
                        "per-instance override `",
                        name,
                        "` is not supported in a provider",
                    ),
                ).with_code(Code::TypeMismatch).with_label(
                    *span,
                    "override member".to_owned(),
                ),
            )
        },
        EntryAction::RejectTransform { span } => {
            Some(
                Diagnostic::error(
                    "method-bearing record declarations must be closed".to_owned(),
                ).with_code(Code::TypeMismatch).with_label(
                    *span,
                    "transform, spread, or open-row entry is not supported here".to_owned(),
                ).with_note(
                    "write a closed list of data fields and body-bearing methods".to_owned(),
                ),
            )
        },
        EntryAction::RejectValue { span } => {
            Some(
                Diagnostic::error(
                    "method-bearing record declarations cannot contain value entries".to_owned(),
                ).with_code(Code::TypeMismatch).with_label(
                    *span,
                    "unsupported provider entry".to_owned(),
                ),
            )
        },
    }
}

/// What is said of a base that a family cannot have.
pub open spec fn base_report(problem: BaseProblem, span: Span) -> SpecDiagnostic {
    match problem {
        BaseProblem::Family => SpecDiagnostic::error(
            "a primitive-base family cannot use another named family as its base"@,
        ).coded(Code::TypeMismatch).labelled(span, "unsupported family base"@).noted(
            "family-on-family bases are deferred; use the original concrete builtin base"@,
        ),
        BaseProblem::Container => SpecDiagnostic::error(
            "named primitive-base families require a concrete builtin container base"@,
        ).coded(Code::TypeMismatch).labelled(span, "unsupported family base"@).noted(
            "use a fully applied Array, Map, or Set type with no open type variables"@,
        ),
        BaseProblem::Scalar => SpecDiagnostic::error(
            "named primitive-base families require a concrete scalar builtin base"@,
        ).coded(Code::TypeMismatch).labelled(span, "unsupported family base"@).noted(
            "the supported bases in this slice are Int, Float, Text, and Bool"@,
        ),
    }
}

fn base_diagnostic(problem: BaseProblem, span: Span) -> (diagnostic: Diagnostic)
    ensures
        diagnostic@ == base_report(problem, span),
{
    let (message, note) = match problem {
        BaseProblem::Family => (
            "a primitive-base family cannot use another named family as its base",
            "family-on-family bases are deferred; use the original concrete builtin base",
        ),
        BaseProblem::Container => (
            "named primitive-base families require a concrete builtin container base",
            "use a fully applied Array, Map, or Set type with no open type variables",
        ),
        BaseProblem::Scalar => (
            "named primitive-base families require a concrete scalar builtin base",
            "the supported bases in this slice are Int, Float, Text, and Bool",
        ),
    };
    Diagnostic::error(message.to_owned()).with_code(Code::TypeMismatch).with_label(
        span,
        "unsupported family base".to_owned(),
    ).with_note(note.to_owned())
}

// ---------------------------------------------------------------------------
// Rows
// ---------------------------------------------------------------------------
/// What is said of a label that a row has twice.
pub open spec fn duplicate_label_report(
    name: Seq<char>,
    span: Span,
    context: DuplicateRowLabelContext,
) -> SpecDiagnostic {
    let label = if context is Spread {
        "this spread collides with a label already in the accumulated row"@
    } else {
        "this label is already present in the accumulated row"@
    };
    let note = match context {
        DuplicateRowLabelContext::RecordAdd => "use `"@ + name
            + " :: ...` to replace the existing label, or remove one `"@ + name + "` entry"@,
        DuplicateRowLabelContext::RecordValueAdd => "use `"@ + name
            + " := ...` to replace the existing label, or remove one `"@ + name + "` entry"@,
        DuplicateRowLabelContext::VariantAdd => {
            "use `:..` with a replacement variant source, or remove one of the colliding tags"@
        },
        DuplicateRowLabelContext::Spread => {
            "use `:..` to overwrite-merge, or remove one of the colliding labels"@
        },
    };
    SpecDiagnostic::error("duplicate row label `"@ + name + "`"@).coded(
        Code::TypeDuplicateSpreadLabel,
    ).labelled(span, label).noted(note)
}

/// What is said of entries of two kinds in a variant.
pub open spec fn mixed_entries_report(incoming: VariantEntryKind, span: Span) -> SpecDiagnostic {
    SpecDiagnostic::error("variant rows cannot mix tags and literal members"@).coded(
        Code::TypeMixedVariantEntries,
    ).labelled(
        span,
        match incoming {
            VariantEntryKind::Tag => "this tag member is mixed with literal members"@,
            VariantEntryKind::Literal => "this literal member is mixed with tag members"@,
        },
    ).noted("use either variant tags or literal values in one row for now"@)
}

impl SpecLog {
    /// The log with a report on a label that a row has twice, once for each place.
    pub open spec fn with_duplicate_label(
        self,
        name: Seq<char>,
        span: Span,
        context: DuplicateRowLabelContext,
    ) -> SpecLog {
        if has_key(self.diagnostics, (Code::TypeDuplicateSpreadLabel, span)) {
            self
        } else {
            self.with(duplicate_label_report(name, span, context))
        }
    }

    /// The log with a report on a step in writing a row.
    pub open spec fn with_row_issue(self, issue: SpecRowIssue, span: Span) -> SpecLog {
        match issue {
            SpecRowIssue::ReplaceAbsent(name) => self.with(
                SpecDiagnostic::error("cannot replace missing label `"@ + name + "`"@).coded(
                    Code::TypeReplaceAbsentField,
                ).labelled(span, "this replacement has no existing label to replace"@).noted(
                    "use `"@ + name + ": ...` to add the label, or spread a closed row containing `"@
                        + name + "` first"@,
                ),
            ),
            SpecRowIssue::Duplicate { label, context } => self.with_duplicate_label(
                label,
                span,
                context,
            ),
            SpecRowIssue::DeleteAbsent(name) => self.with(
                SpecDiagnostic::error("cannot delete missing label `"@ + name + "`"@).coded(
                    Code::TypeDeleteAbsentField,
                ).labelled(span, "this delete has no existing label to remove"@).noted(
                    "spread or add `"@ + name + "` before deleting it, or remove this delete"@,
                ),
            ),
            SpecRowIssue::RenameAbsent(name) => self.with(
                SpecDiagnostic::error("cannot rename missing label `"@ + name + "`"@).coded(
                    Code::TypeRenameAbsentField,
                ).labelled(span, "this rename has no existing label to rename"@).noted(
                    "spread or add `"@ + name + "` before renaming it, or remove this rename"@,
                ),
            ),
            SpecRowIssue::RenameTargetPresent { from, to } => self.with(
                SpecDiagnostic::error(
                    "cannot rename `"@ + from + "` to existing label `"@ + to + "`"@,
                ).coded(Code::TypeRenameAbsentField).labelled(
                    span,
                    "the rename target is already present in the accumulated row"@,
                ).noted(
                    "delete or rename the existing `"@ + to + "` label before renaming `"@ + from
                        + "`"@,
                ),
            ),
            SpecRowIssue::MixedEntries(incoming) => self.with(
                mixed_entries_report(incoming, span),
            ),
        }
    }

    /// The log with a report on the base or the data of a family.
    pub open spec fn with_provider_issue(self, issue: SpecProviderIssue) -> SpecLog {
        match issue {
            SpecProviderIssue::UnsupportedBase { problem, span } => self.with(
                base_report(problem, span),
            ),
            SpecProviderIssue::RepeatedField { name, span } => self.with_duplicate_label(
                name,
                span,
                DuplicateRowLabelContext::RecordAdd,
            ),
        }
    }
}

// ---------------------------------------------------------------------------
// Methods that are missing
// ---------------------------------------------------------------------------
/// The place that a report on a predicate is about.
pub open spec fn predicate_place(predicate: SpecPredicate) -> Span {
    match predicate.call_span {
        Some(span) => span,
        None => predicate.operator_span,
    }
}

/// A report with the place of the operator, where it is another one.
pub open spec fn with_origin(report: SpecDiagnostic, predicate: SpecPredicate) -> SpecDiagnostic {
    if predicate.operator_span != predicate_place(predicate) {
        report.labelled(predicate.operator_span, "operator requirement originated here"@)
    } else {
        report
    }
}

/// What is said of a method that a type lacks.
pub open spec fn missing_method_report<N: TypeNotation>(
    notation: &N,
    owner: SpecType,
    predicate: SpecPredicate,
) -> SpecDiagnostic {
    let name = notation.inferred_text_of(owner);
    let report = with_origin(
        SpecDiagnostic::error(
            "`"@ + name + "` does not satisfy `"@ + requirement_text(notation, predicate)
                + "`: method `"@ + predicate.member + "` is missing"@,
        ).coded(Code::TypeInvalidOperatorOperands).labelled(
            predicate_place(predicate),
            "`"@ + name + "` has no `"@ + predicate.member + "` method"@,
        ).noted(
            "expected `"@ + signature_text(notation, predicate.params, predicate.result)
                + "` after substituting `"@ + name + "` for `Self`"@,
        ),
        predicate,
    );
    match predicate.binding {
        Some(binding) => report.noted(
            "required while instantiating generic binding `"@ + binding + "` at this call site"@,
        ),
        None => report,
    }
}

/// What is said of a method with another signature than required.
pub open spec fn signature_mismatch_report<N: TypeNotation>(
    notation: &N,
    owner: SpecType,
    params: Seq<SpecType>,
    result: SpecType,
    predicate: SpecPredicate,
) -> SpecDiagnostic {
    let name = notation.inferred_text_of(owner);
    with_origin(
        SpecDiagnostic::error(
            "`"@ + name + "` does not satisfy `"@ + requirement_text(notation, predicate)
                + "`: method `"@ + predicate.member + "` has an incompatible signature"@,
        ).coded(Code::TypeMismatch).labelled(
            predicate_place(predicate),
            "the concrete method does not match this requirement"@,
        ).noted("actual: `"@ + signature_text(notation, params, result) + "`"@).noted(
            "expected after substituting `"@ + name + "` for `Self`: `"@ + signature_text(
                notation,
                predicate.params,
                predicate.result,
            ) + "`"@,
        ),
        predicate,
    )
}

/// The first predicate that speaks of a type that was left open.
pub open spec fn first_about(predicates: Seq<SpecPredicate>, id: u32, from: int) -> Option<
    SpecPredicate,
>
    decreases predicates.len() - from,
{
    if from < 0 || from >= predicates.len() {
        None
    } else if predicate_metas(predicates[from]).contains(id) {
        Some(predicates[from])
    } else {
        first_about(predicates, id, from + 1)
    }
}

/// The place and the subject of a report on a requirement that nothing fixes.
pub open spec fn ambiguous_report(
    binding: Option<Seq<char>>,
    about: Option<SpecPredicate>,
) -> SpecDiagnostic {
    SpecDiagnostic::error(
        (match binding {
            Some(binding) => "binding `"@ + binding + "`"@,
            None => "inferred binding"@,
        }) + " has an ambiguous method requirement"@,
    ).coded(Code::TypeMismatch).labelled(
        match about {
            Some(predicate) => predicate.operator_span,
            None => Span { start: 0, end: 0 },
        },
        "this constrained type does not occur in the ordinary function type"@,
    ).noted("every constrained generic type must occur in a parameter or result type"@)
}

// ---------------------------------------------------------------------------
// Operators
// ---------------------------------------------------------------------------
/// What is said of an operator that its operands do not have. The note on the
/// right operand follows where only that one has the operator.
pub open spec fn invalid_operands_report<N: TypeNotation>(
    notation: &N,
    operator: Seq<char>,
    left: SpecType,
    right: SpecType,
    span: Span,
) -> SpecDiagnostic {
    let left_text = operand_text(notation, left);
    let right_text = operand_text(notation, right);
    let report = SpecDiagnostic::error(
        "operator `"@ + operator + "` is not defined for `"@ + left_text + "` and `"@ + right_text
            + "`"@,
    ).coded(Code::TypeInvalidOperatorOperands).labelled(
        span,
        "these operand types do not support this operator"@,
    ).noted(operand_note(operator));
    if builtin_signature(SpecType::Named(left_text), operator) is None && builtin_signature(
        SpecType::Named(right_text),
        operator,
    ) is Some {
        report.noted(
            "dispatch is left-biased: `"@ + left_text
                + "` is the sole method owner; Aven does not fall back to `"@ + right_text + "."@
                + operator + "`"@,
        ).noted(
            "reverse the operands only when doing so preserves the operation's intended semantics"@,
        )
    } else {
        report
    }
}

/// The method that divides and may fail.
pub open spec fn checked_division(operator: Seq<char>) -> Seq<char> {
    if operator == "/"@ {
        "div"@
    } else {
        "mod"@
    }
}

impl SpecLog {
    /// The log with a report on a divisor.
    pub open spec fn with_divisor(
        self,
        operator: Seq<char>,
        verdict: DivisorVerdict,
        span: Span,
    ) -> SpecLog {
        let method = checked_division(operator);
        match verdict {
            DivisorVerdict::NotChecked => self,
            DivisorVerdict::NonZero => self,
            DivisorVerdict::Zero { written } => self.with_unique(
                SpecDiagnostic::error("division by zero"@).coded(
                    Code::TypeDivisionByZero,
                ).labelled(
                    span,
                    if written {
                        "this integer literal is zero"@
                    } else {
                        "this divisor is zero"@
                    },
                ).noted(
                    "use checked `x."@ + method + "(n)` (`?Int`) when the divisor may be zero"@,
                ),
            ),
            DivisorVerdict::MayBeZero => self.with_unique(
                SpecDiagnostic::error("divisor is not statically known to be non-zero"@).coded(
                    Code::TypeDivisorNotStatic,
                ).labelled(span, "this divisor is not a non-zero integer literal"@).noted(
                    "use checked `x."@ + method + "(n)` (`?Int`) or convert to `Float`"@,
                ),
            ),
        }
    }

    /// The log with a report on the arms that a match leaves out.
    pub open spec fn with_gap(self, gap: MatchGap, span: Span) -> SpecLog {
        match gap {
            MatchGap::Covered => self,
            MatchGap::OpenVariant => self.with(
                SpecDiagnostic::error("non-exhaustive match on an open variant"@).coded(
                    Code::TypeNonExhaustiveMatch,
                ).labelled(span, "this subject may contain tags beyond those listed"@).noted(
                    "add a default arm such as `_ => ...`"@,
                ),
            ),
            MatchGap::MissingTags(tags) => self.with(
                SpecDiagnostic::error(
                    "non-exhaustive match; missing tag"@ + plural(tags@.len()) + " "@ + listed(
                        texts_view(tags@),
                    ),
                ).coded(Code::TypeNonExhaustiveMatch).labelled(
                    span,
                    "this subject has variant tags without matching arms"@,
                ).noted("add the missing arm(s), or add `_ => ...` as a default"@),
            ),
            MatchGap::MissingLiterals(literals) => self.with(
                SpecDiagnostic::error(
                    "non-exhaustive match; missing literal"@ + plural(literals@.len()) + " "@
                        + listed_literals(literals@),
                ).coded(Code::TypeNonExhaustiveMatch).labelled(
                    span,
                    "this subject has literal values without matching arms"@,
                ).noted("add the missing arm(s), or add `_ => ...` as a default"@),
            ),
        }
    }
}

/// Whether the first diagnostics hold one of a code at a place.
fn find_key(log: &DiagnosticLog, code: Code, span: Span) -> (found: bool)
    ensures
        found == has_key(log@.diagnostics, (code, span)),
{
    let ghost all = log@.diagnostics;
    let mut index: usize = 0;
    assert(all.len() == log.diagnostics.len());
    while index < log.diagnostics.len()
        invariant
            index <= log.diagnostics.len(),
            all == log@.diagnostics,
            all.len() == log.diagnostics.len(),
            forall|i: int| 0 <= i < index ==> (#[trigger] all[i]).key() != Some((code, span)),
        decreases log.diagnostics.len() - index,
    {
        assert(all[index as int] == log.diagnostics@[index as int]@);
        if let Some(key) = log.diagnostics[index].key() {
            if key.0 == code && key.1 == span {
                return true;
            }
        }
        index += 1;
    }
    false
}

fn with_operator_origin(report: Diagnostic, predicate: &MethodPredicate) -> (whole: Diagnostic)
    ensures
        whole@ == with_origin(report@, predicate@),
{
    let place = match predicate.call_span {
        Some(span) => span,
        None => predicate.operator_span,
    };
    if predicate.operator_span != place {
        report.with_label(
            predicate.operator_span,
            "operator requirement originated here".to_owned(),
        )
    } else {
        report
    }
}

impl DiagnosticLog {
    /// Report a type name that is not known.
    pub fn check_type_name(&mut self, name: &str, span: Span, known: bool)
        ensures
            final(self)@ == if known {
                old(self)@
            } else {
                old(self)@.with(
                    SpecDiagnostic::error("unknown type name `"@ + name@ + "`"@).coded(
                        Code::TypeUnknownName,
                    ).labelled(span, "type name not found"@).noted(
                        "define the type, import it, or use a lowercase type variable for a generic type"@,
                    ),
                )
            },
    {
        if !known {
            self.report_unknown_type_name(name, span);
        }
    }

    /// Report a method that a family declares.
    pub fn report_family_issue<N: TypeNotation>(&mut self, notation: &N, issue: &FamilyIssue)
        ensures
            final(self)@ == old(self)@.with(family_report(notation, issue@)),
    {
        self.push(family_diagnostic(notation, issue));
    }

    /// Report an attachment of methods.
    pub fn report_attachment_issue(&mut self, issue: &AttachmentIssue)
        ensures
            final(self)@ == old(self)@.with(attachment_report(issue@)),
    {
        self.push(attachment_diagnostic(issue));
    }

    /// Report the base or the data of a family.
    pub fn report_provider_issue(&mut self, issue: &ProviderIssue)
        ensures
            final(self)@ == old(self)@.with_provider_issue(issue@),
    {
        match issue {
            ProviderIssue::UnsupportedBase { problem, span } => self.push(
                base_diagnostic(*problem, *span),
            ),
            ProviderIssue::RepeatedField { name, span } => self.report_duplicate_row_label(
                name.as_str(),
                *span,
                DuplicateRowLabelContext::RecordAdd,
            ),
        }
    }

    /// Report an entry of a provider that is refused.
    pub fn report_entry_action(&mut self, action: &EntryAction<'_>)
        ensures
            final(self)@ == match entry_report(*action) {
                Some(report) => old(self)@.with(report),
                None => old(self)@,
            },
    {
        if let Some(diagnostic) = entry_diagnostic(action) {
            self.push(diagnostic);
        }
    }

    /// Report entries of two kinds in a variant.
    pub fn report_mixed_variant_entries(&mut self, incoming: VariantEntryKind, span: Span)
        ensures
            final(self)@ == old(self)@.with(mixed_entries_report(incoming, span)),
    {
        let label = match incoming {
            VariantEntryKind::Tag => "this tag member is mixed with literal members",
            VariantEntryKind::Literal => "this literal member is mixed with tag members",
        };
        self.push(
            Diagnostic::error(
                "variant rows cannot mix tags and literal members".to_owned(),
            ).with_code(Code::TypeMixedVariantEntries).with_label(
                span,
                label.to_owned(),
            ).with_note("use either variant tags or literal values in one row for now".to_owned()),
        );
    }

    /// Report a label that a row has twice, once for each place.
    pub fn report_duplicate_row_label(
        &mut self,
        name: &str,
        span: Span,
        context: DuplicateRowLabelContext,
    )
        ensures
            final(self)@ == old(self)@.with_duplicate_label(name@, span, context),
    {
        if find_key(self, Code::TypeDuplicateSpreadLabel, span) {
            return ;
        }
        let label = if matches!(context, DuplicateRowLabelContext::Spread) {
            "this spread collides with a label already in the accumulated row"
        } else {
            "this label is already present in the accumulated row"
        };
        let note: String = match context {
            DuplicateRowLabelContext::RecordAdd => concat5(
                "use `",
                name,
                " :: ...` to replace the existing label, or remove one `",
                name,
                "` entry",
            ),
            DuplicateRowLabelContext::RecordValueAdd => concat5(
                "use `",
                name,
                " := ...` to replace the existing label, or remove one `",
                name,
                "` entry",
            ),
            DuplicateRowLabelContext::VariantAdd => {
                "use `:..` with a replacement variant source, or remove one of the colliding tags".to_owned()
            },
            DuplicateRowLabelContext::Spread => {
                "use `:..` to overwrite-merge, or remove one of the colliding labels".to_owned()
            },
        };
        self.push(
            Diagnostic::error(concat3("duplicate row label `", name, "`")).with_code(
                Code::TypeDuplicateSpreadLabel,
            ).with_label(span, label.to_owned()).with_note(note),
        );
    }

    /// Report a step in writing a row.
    pub fn report_row_issue(&mut self, issue: &RowIssue, span: Span)
        ensures
            final(self)@ == old(self)@.with_row_issue(issue@, span),
    {
        match issue {
            RowIssue::ReplaceAbsent(name) => self.report_replace_absent_field(name.as_str(), span),
            RowIssue::Duplicate { label, context } => self.report_duplicate_row_label(
                label.as_str(),
                span,
                *context,
            ),
            RowIssue::DeleteAbsent(name) => self.report_delete_absent_field(name.as_str(), span),
            RowIssue::RenameAbsent(name) => self.report_rename_absent_field(name.as_str(), span),
            RowIssue::RenameTargetPresent { from, to } => self.report_rename_target_present(
                from.as_str(),
                to.as_str(),
                span,
            ),
            RowIssue::MixedEntries(incoming) => self.report_mixed_variant_entries(*incoming, span),
        }
    }

    /// Report a function with another number of parameters than expected.
    pub fn report_function_arity_mismatch(
        &mut self,
        required: usize,
        total: usize,
        found: usize,
        span: Span,
    )
        ensures
            final(self)@ == old(self)@.with(
                SpecDiagnostic::error(
                    if required == total {
                        "expected a function with "@ + decimal(total as nat) + " parameter"@
                            + plural(total as nat) + ", found one with "@ + decimal(found as nat)
                    } else {
                        "expected between "@ + decimal(required as nat) + " and "@ + decimal(
                            total as nat,
                        ) + " arguments, found "@ + decimal(found as nat)
                    },
                ).coded(Code::TypeMismatch).labelled(
                    span,
                    "function parameter count does not match annotation"@,
                ).noted("add or remove parameters to match the annotation"@),
            ),
    {
        if required == total {
            self.report_parameter_count_mismatch(total, found, span);
        } else {
            self.report_argument_count_mismatch(required, total, found, span);
        }
    }

    /// Report a method that a type lacks.
    pub fn report_missing_method<N: TypeNotation>(
        &mut self,
        notation: &N,
        owner: &Type,
        predicate: &MethodPredicate,
    )
        ensures
            final(self)@ == old(self)@.with_unique(
                missing_method_report(notation, owner@, predicate@),
            ),
    {
        let name = notation.render_inferred(owner);
        let required = render_predicate_requirement(notation, predicate);
        let signature = render_method_signature(notation, &predicate.params, &predicate.result);
        let member = predicate.member.as_str();
        let place = match predicate.call_span {
            Some(span) => span,
            None => predicate.operator_span,
        };
        let message = concat7(
            "`",
            name.as_str(),
            "` does not satisfy `",
            required.as_str(),
            "`: method `",
            member,
            "` is missing",
        );
        let report = with_operator_origin(
            Diagnostic::error(message).with_code(Code::TypeInvalidOperatorOperands).with_label(
                place,
                concat5("`", name.as_str(), "` has no `", member, "` method"),
            ).with_note(
                concat5(
                    "expected `",
                    signature.as_str(),
                    "` after substituting `",
                    name.as_str(),
                    "` for `Self`",
                ),
            ),
            predicate,
        );
        let report = match &predicate.binding {
            Some(binding) => report.with_note(
                concat3(
                    "required while instantiating generic binding `",
                    binding.as_str(),
                    "` at this call site",
                ),
            ),
            None => report,
        };
        self.push_unique_diagnostic(report);
    }

    /// Report a method with another signature than required.
    pub fn report_method_signature_mismatch<N: TypeNotation>(
        &mut self,
        notation: &N,
        owner: &Type,
        params: &Vec<Type>,
        result: &Type,
        predicate: &MethodPredicate,
    )
        ensures
            final(self)@ == old(self)@.with_unique(
                signature_mismatch_report(
                    notation,
                    owner@,
                    crate::types::types_view(params@),
                    result@,
                    predicate@,
                ),
            ),
    {
        let name = notation.render_inferred(owner);
        let required = render_predicate_requirement(notation, predicate);
        let actual = render_method_signature(notation, params, result);
        let signature = render_method_signature(notation, &predicate.params, &predicate.result);
        let place = match predicate.call_span {
            Some(span) => span,
            None => predicate.operator_span,
        };
        let message = concat7(
            "`",
            name.as_str(),
            "` does not satisfy `",
            required.as_str(),
            "`: method `",
            predicate.member.as_str(),
            "` has an incompatible signature",
        );
        let report = with_operator_origin(
            Diagnostic::error(message).with_code(Code::TypeMismatch).with_label(
                place,
                "the concrete method does not match this requirement".to_owned(),
            ).with_note(concat3("actual: `", actual.as_str(), "`")).with_note(
                concat5(
                    "expected after substituting `",
                    name.as_str(),
                    "` for `Self`: `",
                    signature.as_str(),
                    "`",
                ),
            ),
            predicate,
        );
        self.push_unique_diagnostic(report);
    }

    /// Report a requirement on a type that nothing fixes.
    pub fn report_ambiguous_method_scheme(
        &mut self,
        binding: Option<&str>,
        id: u32,
        predicates: &Vec<MethodPredicate>,
    )
        ensures
            final(self)@ == old(self)@.with_unique(
                ambiguous_report(
                    crate::syntax::text_view(binding),
                    first_about(crate::methods::predicates_view(predicates@), id, 0),
                ),
            ),
    {
        let ghost all = crate::methods::predicates_view(predicates@);
        let mut span = Span::new(0, 0);
        let mut index: usize = 0;
        let mut found: bool = false;
        assert(all.len() == predicates.len());
        while index < predicates.len() && !found
            invariant
                index <= predicates.len(),
                all == crate::methods::predicates_view(predicates@),
                all.len() == predicates.len(),
                !found ==> span == (Span { start: 0, end: 0 }),
                !found ==> first_about(all, id, 0) == first_about(all, id, index as int),
                found ==> first_about(all, id, 0) is Some && span == first_about(
                    all,
                    id,
                    0,
                )->0.operator_span,
            decreases predicates.len() - index, if found { 0int } else { 1int },
        {
            assert(all[index as int] == predicates@[index as int]@);
            if predicate_contains_meta(&predicates[index], id) {
                span = predicates[index].operator_span;
                found = true;
            } else {
                index += 1;
            }
        }
        let subject: String = match binding {
            Some(binding) => concat3("binding `", binding, "`"),
            None => "inferred binding".to_owned(),
        };
        self.report_ambiguous_subject(subject.as_str(), span);
    }

    /// Report an operator that its operands do not have.
    pub fn report_invalid_operator_operands<N: TypeNotation>(
        &mut self,
        notation: &N,
        operator: &str,
        left: &Type,
        right: &Type,
        span: Span,
    )
        ensures
            final(self)@ == old(self)@.with(
                invalid_operands_report(notation, operator@, left@, right@, span),
            ),
    {
        let left_text = operator_operand_type(notation, left);
        let right_text = operator_operand_type(notation, right);
        let message = concat7(
            "operator `",
            operator,
            "` is not defined for `",
            left_text.as_str(),
            "` and `",
            right_text.as_str(),
            "`",
        );
        let report = Diagnostic::error(message).with_code(
            Code::TypeInvalidOperatorOperands,
        ).with_label(
            span,
            "these operand types do not support this operator".to_owned(),
        ).with_note(operator_operand_note(operator).to_owned());
        let right_only = builtin_method_signature(
            &Type::Named(left_text.clone()),
            operator,
        ).is_none() && builtin_method_signature(
            &Type::Named(right_text.clone()),
            operator,
        ).is_some();
        let report = if right_only {
            let note = concat7(
                "dispatch is left-biased: `",
                left_text.as_str(),
                "` is the sole method owner; Aven does not fall back to `",
                right_text.as_str(),
                ".",
                operator,
                "`",
            );
            report.with_note(note).with_note(
                "reverse the operands only when doing so preserves the operation's intended semantics".to_owned(),
            )
        } else {
            report
        };
        self.push(report);
    }

    /// Report an operator that its operand does not have.
    pub fn report_invalid_unary_operator_operand<N: TypeNotation>(
        &mut self,
        notation: &N,
        operator: &str,
        value: &Type,
        span: Span,
    )
        ensures
            final(self)@ == old(self)@.with(
                SpecDiagnostic::error(
                    "operator `"@ + operator@ + "` is not defined for `"@ + operand_text(
                        notation,
                        value@,
                    ) + "`"@,
                ).coded(Code::TypeInvalidOperatorOperands).labelled(
                    span,
                    "this operand type does not support this operator"@,
                ).noted(operand_note(operator@)),
            ),
    {
        let text = operator_operand_type(notation, value);
        self.push(
            Diagnostic::error(
                concat5("operator `", operator, "` is not defined for `", text.as_str(), "`"),
            ).with_code(Code::TypeInvalidOperatorOperands).with_label(
                span,
                "this operand type does not support this operator".to_owned(),
            ).with_note(operator_operand_note(operator).to_owned()),
        );
    }

    /// Report a fallback of another type than what it replaces.
    pub fn report_null_coalesce_mismatch<N: TypeNotation>(
        &mut self,
        notation: &N,
        left: &Type,
        right: &Type,
        span: Span,
    )
        ensures
            final(self)@ == old(self)@.with(
                SpecDiagnostic::error(
                    "expected `"@ + notation.inferred_text_of(peeled_payload(left@))
                        + "`, found `"@ + notation.inferred_text_of(right@) + "`"@,
                ).coded(Code::TypeMismatch).labelled(
                    span,
                    "this fallback has the wrong type"@,
                ).noted("the `??` fallback must match the value it replaces"@),
            ),
    {
        let (_, payload) = peel_empty_values(left);
        let payload_text = notation.render_inferred(payload);
        let right_text = notation.render_inferred(right);
        self.report_fallback_mismatch(payload_text.as_str(), right_text.as_str(), span);
    }

    /// Warn of a fallback that is never used.
    pub fn maybe_report_coalesce_never_empty<N: TypeNotation>(
        &mut self,
        notation: &N,
        left: &Type,
        span: Span,
        depends_on_comptime_param: bool,
    )
        ensures
            final(self)@ == if crate::operators::fallback_is_dead(
                left@,
                depends_on_comptime_param,
            ) {
                old(self)@.with(
                    SpecDiagnostic::warning(
                        "left operand of `??` is never empty; the fallback is dead"@,
                    ).coded(Code::TypeCoalesceNeverEmpty).labelled(
                        span,
                        "this value is never empty"@,
                    ).noted(
                        "type `"@ + notation.inferred_text_of(left@)
                            + "` cannot be `null` or `undefined`"@,
                    ),
                )
            } else {
                old(self)@
            },
    {
        if crate::operators::coalesce_fallback_is_dead(left, depends_on_comptime_param) {
            let text = notation.render_inferred(left);
            self.report_coalesce_never_empty(text.as_str(), span);
        }
    }

    /// Report a divisor that is or may be zero. `both_int` says that both operands
    /// are integers, and `literal_is_zero` what is written.
    pub fn maybe_report_integer_divisor(
        &mut self,
        operator: &str,
        both_int: bool,
        literal_is_zero: Option<bool>,
        right: &Type,
        span: Span,
    )
        ensures
            final(self)@ == old(self)@.with_divisor(
                operator@,
                divisor_verdict(operator@, both_int, literal_is_zero, right@),
                span,
            ),
    {
        let method = if same_text(operator, "/") {
            "div"
        } else {
            "mod"
        };
        match check_integer_divisor(operator, both_int, literal_is_zero, right) {
            DivisorVerdict::NotChecked => {},
            DivisorVerdict::NonZero => {},
            DivisorVerdict::Zero { written } => self.report_division_by_zero(
                if written {
                    "this integer literal is zero"
                } else {
                    "this divisor is zero"
                },
                method,
                span,
            ),
            DivisorVerdict::MayBeZero => self.report_divisor_not_static(method, span),
        }
    }

    /// Report a field of a value that may be empty. The place is that of the
    /// access, from the end of the receiver on.
    pub fn report_unguarded_empty_field_access(
        &mut self,
        receiver: &Expr,
        field_span: Span,
        empties: &Vec<EmptyValue>,
    )
        ensures
            final(self)@ == old(self)@.with(
                SpecDiagnostic::error(
                    (match receiver_text(*receiver) {
                        Some(text) => "`"@ + text + "`"@,
                        None => "this value"@,
                    }) + " may be "@ + joined(
                        empties@.map_values(|value: EmptyValue| value.text()),
                        " or "@,
                    ) + "; accessing a field through it needs `?.`"@,
                ).coded(Code::TypeUnguardedEmptyAccess).labelled(
                    (Span { start: receiver.span.end, end: receiver.span.end }).merged(
                        field_span,
                    ),
                    "field accessed without guarding the empty"@,
                ).noted(
                    "use `?.` to propagate the empty, `??` to supply a default, or match the empty before access"@,
                ),
            ),
    {
        let span = Span::point(receiver.span.end).merge(field_span);
        let subject: String = match describe_receiver_expr(receiver) {
            Some(text) => concat3("`", text.as_str(), "`"),
            None => "this value".to_owned(),
        };
        let named = render_empty_values(empties);
        self.report_empty_field_access(subject.as_str(), named.as_str(), span);
    }

    /// Report the arms that a match leaves out.
    pub fn report_match_gap(&mut self, gap: &MatchGap, span: Span)
        ensures
            final(self)@ == old(self)@.with_gap(*gap, span),
    {
        match gap {
            MatchGap::Covered => {},
            MatchGap::OpenVariant => self.report_open_variant_non_exhaustive(span),
            MatchGap::MissingTags(tags) => self.report_missing_variant_match_tags(tags, span),
            MatchGap::MissingLiterals(literals) => self.report_missing_literal_match_members(
                literals,
                span,
            ),
        }
    }
}

} // verus!
