//! What is said of the findings of a comparison, and of a check of a value.
use crate::comparison::{literals_of, Written};
use crate::conformance::{found_view, ComparisonFinding, SpecComparisonFinding};
use crate::diagnostics::{Code, DiagnosticLog, SpecDiagnostic, SpecLog};
use crate::notation::TypeNotation;
use crate::reports::plural;
use crate::rows::{
    all_literals, literal_kind, literal_kind_name, literal_union_text, literal_variant_members,
    literals_view,
};
use crate::span::Span;
use crate::text::decimal;
use crate::type_ops::literal_text;
use crate::types::{
    types_view, Row, RowEntry, RowTail, SpecLiteral, SpecRow, SpecRowEntry, SpecType, Type,
};
use crate::value_checks::{events_view, SpecValueEvent, ValueEvent};
use vstd::prelude::*;

verus! {

/// How a type is written in a message about a mismatch.
pub open spec fn written_text<N: TypeNotation>(notation: &N, ty: SpecType, written: Written) -> Seq<
    char,
> {
    match written {
        Written::AsType => notation.text_of(ty),
        Written::AsName => match ty {
            SpecType::Named(name) => name,
            _ => notation.text_of(ty),
        },
        Written::AsInferred => notation.inferred_text_of(ty),
    }
}

fn write_type<N: TypeNotation>(notation: &N, ty: &Type, written: Written) -> (text: String)
    ensures
        text@ == written_text(notation, ty@, written),
{
    match written {
        Written::AsType => notation.render(ty),
        Written::AsName => match ty {
            Type::Named(name) => name.clone(),
            _ => notation.render(ty),
        },
        Written::AsInferred => notation.render_inferred(ty),
    }
}

/// A value of another type than expected.
pub open spec fn mismatch_message(expected: Seq<char>, actual: Seq<char>, span: Span) -> SpecDiagnostic {
    SpecDiagnostic::error("expected `"@ + expected + "`, found `"@ + actual + "`"@).coded(
        Code::TypeMismatch,
    ).labelled(span, "this value has type `"@ + actual + "`"@).noted(
        "change the value to produce `"@ + expected + "`, or change the annotation to `"@ + actual
            + "`"@,
    )
}

/// A literal that is not among those that are expected.
pub open spec fn literal_message(
    literal: SpecLiteral,
    expected: Seq<SpecLiteral>,
    span: Span,
) -> SpecDiagnostic {
    SpecDiagnostic::error(
        "literal "@ + literal_text(literal) + " is not one of "@ + literal_union_text(expected),
    ).coded(Code::TypeLiteralNotInUnion).labelled(
        span,
        "this literal is not allowed by the annotation"@,
    ).noted(
        "use one of "@ + literal_union_text(expected)
            + ", or change the literal-union annotation"@,
    )
}

/// What is said of a finding. Nothing is said of what only asks for something, and of types
/// that are to unify only where they do not.
pub open spec fn finding_log<N: TypeNotation>(
    log: SpecLog,
    notation: &N,
    finding: SpecComparisonFinding,
    unified: bool,
    span: Span,
) -> SpecLog {
    match finding {
        SpecComparisonFinding::Mismatch { expected, expected_as, actual, actual_as } =>
            log.with_mismatch(
            mismatch_message(
                written_text(notation, expected, expected_as),
                written_text(notation, actual, actual_as),
                span,
            ),
        ),
        SpecComparisonFinding::Unify { expected, actual, .. } => if unified {
            log
        } else {
            log.with_mismatch(
                mismatch_message(notation.text_of(expected), notation.text_of(actual), span),
            )
        },
        SpecComparisonFinding::ConstructExplicitly(expected) => {
            let owner = notation.text_of(expected);
            log.with(
                SpecDiagnostic::error("construct `"@ + owner + "` explicitly"@).coded(
                    Code::TypeMismatch,
                ).labelled(span, "a structural record does not carry this method owner"@).noted(
                    "write `"@ + owner + "({ ... })` to attach its methods"@,
                ),
            )
        },
        SpecComparisonFinding::TupleArity { expected, found } => log.with(
            SpecDiagnostic::error(
                "expected a "@ + decimal(expected) + "-element tuple, found a "@ + decimal(found)
                    + "-element tuple"@,
            ).coded(Code::TypeMismatch).labelled(
                span,
                "tuple length does not match annotation"@,
            ).noted("add or remove tuple elements to match the annotation"@),
        ),
        SpecComparisonFinding::FunctionArity { expected, found } => log.with(
            SpecDiagnostic::error(
                "expected a function with "@ + decimal(expected) + " parameter"@ + plural(expected)
                    + ", found one with "@ + decimal(found),
            ).coded(Code::TypeMismatch).labelled(
                span,
                "function parameter count does not match annotation"@,
            ).noted("add or remove parameters to match the annotation"@),
        ),
        SpecComparisonFinding::KindMismatch { expected, actual } => log.with(
            SpecDiagnostic::error(
                "expected `"@ + notation.text_of(SpecType::Variant(expected)) + "`, found `"@
                    + notation.text_of(SpecType::Variant(actual)) + "`"@,
            ).coded(Code::TypeMismatch).labelled(
                span,
                "variant row member kinds do not match"@,
            ).noted("use tag variants with tag variants, or literal unions with literal unions"@),
        ),
        SpecComparisonFinding::NotInUnion { literal, expected } => if all_literals(expected) {
            log.with(literal_message(literal, literals_of(expected), span))
        } else {
            log
        },
        SpecComparisonFinding::OpenNotAssignable => log.with(
            SpecDiagnostic::error(
                "open variant may contain tags not allowed by the annotation"@,
            ).coded(Code::TypeOpenVariantNotAssignable).labelled(
                span,
                "this value has an open variant type"@,
            ).noted(
                "make the annotation open with `..`, or close the value's variant type before assigning it"@,
            ),
        ),
        SpecComparisonFinding::WideValue { expected, actual } => log.with(
            SpecDiagnostic::error(
                "expected literal union `"@ + notation.text_of(SpecType::Variant(expected))
                    + "`, found `"@ + actual + "`"@,
            ).coded(Code::TypeWideValueIntoLiteralUnion).labelled(
                span,
                "this value has the wider `"@ + actual + "` type"@,
            ).noted(
                "a bound value may be any value of its base type; use a fresh member literal here, or keep the narrower literal-union type on the value"@,
            ),
        ),
        SpecComparisonFinding::UnknownTag(tag) => log.with(
            SpecDiagnostic::error("unexpected variant tag `"@ + tag + "`"@).coded(
                Code::TypeMismatch,
            ).labelled(span, "this tag is not in the variant type"@).noted(
                "use a tag listed by the annotation, or change the annotation"@,
            ),
        ),
        SpecComparisonFinding::PayloadArity { tag, expected, found } => log.with(
            SpecDiagnostic::error(
                "expected variant tag `"@ + tag + "` with "@ + decimal(expected) + " payload value"@
                    + plural(expected) + ", found "@ + decimal(found),
            ).coded(Code::TypeMismatch).labelled(
                span,
                "variant payload count does not match annotation"@,
            ).noted("add or remove payload values to match the variant annotation"@),
        ),
        SpecComparisonFinding::MissingField(name) => log.with(
            SpecDiagnostic::error("missing field `"@ + name + "`"@).coded(
                Code::TypeMissingField,
            ).labelled(span, "this record is missing a required field"@).noted(
                "add `"@ + name + ": ...`, or make the field type optional with `?T`"@,
            ),
        ),
        SpecComparisonFinding::Widen => log,
        SpecComparisonFinding::RigidVariable { .. } => log,
        SpecComparisonFinding::UnlessUnified { .. } => log,
        SpecComparisonFinding::Unfinished { .. } => log,
    }
}

/// Say what there is to say of a finding.
pub fn report_finding<N: TypeNotation>(
    log: &mut DiagnosticLog,
    notation: &N,
    finding: &ComparisonFinding,
    unified: bool,
    span: Span,
)
    ensures
        final(log)@ == finding_log(old(log)@, notation, finding@, unified, span),
{
    match finding {
        ComparisonFinding::Mismatch { expected, expected_as, actual, actual_as } => {
            let expected = write_type(notation, expected, *expected_as);
            let actual = write_type(notation, actual, *actual_as);
            log.report_type_mismatch_between_types(expected.as_str(), actual.as_str(), span);
        },
        ComparisonFinding::Unify { expected, actual, instantiated: _ } => {
            if !unified {
                let expected = notation.render(expected);
                let actual = notation.render(actual);
                log.report_type_mismatch_between_types(expected.as_str(), actual.as_str(), span);
            }
        },
        ComparisonFinding::ConstructExplicitly(expected) => {
            let owner = notation.render(expected);
            log.report_explicit_construction(owner.as_str(), span);
        },
        ComparisonFinding::TupleArity { expected, found } => {
            log.report_tuple_arity_mismatch(*expected, *found, span);
        },
        ComparisonFinding::FunctionArity { expected, found } => {
            log.report_parameter_count_mismatch(*expected, *found, span);
        },
        ComparisonFinding::KindMismatch { expected, actual } => {
            let expected = render_variant(notation, expected);
            let actual = render_variant(notation, actual);
            log.report_variant_entry_kind_mismatch(expected.as_str(), actual.as_str(), span);
        },
        ComparisonFinding::NotInUnion { literal, expected } => {
            if let Some(literals) = literal_variant_members(expected) {
                assert(literals_view(literals@) == literals_of(expected@));
                log.report_literal_not_in_union(literal, &literals, span);
            }
        },
        ComparisonFinding::OpenNotAssignable => {
            log.report_open_variant_not_assignable(span);
        },
        ComparisonFinding::WideValue { expected, actual } => {
            let expected = render_variant(notation, expected);
            log.report_wide_value_into_literal_union(expected.as_str(), actual.as_str(), span);
        },
        ComparisonFinding::UnknownTag(tag) => {
            log.report_variant_tag_mismatch(tag.as_str(), span);
        },
        ComparisonFinding::PayloadArity { tag, expected, found } => {
            log.report_variant_payload_arity_mismatch(tag.as_str(), *expected, *found, span);
        },
        ComparisonFinding::MissingField(name) => {
            log.report_missing_field(name.as_str(), span);
        },
        ComparisonFinding::Widen => {},
        ComparisonFinding::RigidVariable { .. } => {},
        ComparisonFinding::UnlessUnified { .. } => {},
        ComparisonFinding::Unfinished { .. } => {},
    }
}

fn render_variant<N: TypeNotation>(notation: &N, row: &Row) -> (text: String)
    ensures
        text@ == notation.text_of(SpecType::Variant(row@)),
{
    let ty = Type::Variant(row.clone());
    assert(ty@ == SpecType::Variant(row@));
    notation.render(&ty)
}

/// Whether what a finding asks to unify does, by the answers in the order of the findings.
pub open spec fn unified_at(unified: Seq<bool>, position: int) -> bool {
    0 <= position < unified.len() && unified[position]
}

/// The position of the next finding that counts. Findings that stand unless variants unify are
/// passed over where they do.
pub open spec fn next_finding(
    findings: Seq<SpecComparisonFinding>,
    unified: Seq<bool>,
    from: int,
) -> int {
    next_position(
        findings.len(),
        taken_back(findings[from]),
        unified_at(unified, from),
        from,
    )
}

/// How many of the findings behind one it takes back where its types unify.
pub open spec fn taken_back(finding: SpecComparisonFinding) -> nat {
    match finding {
        SpecComparisonFinding::UnlessUnified { count, .. } => count,
        _ => 0,
    }
}

fn count_taken_back(finding: &ComparisonFinding) -> (count: usize)
    ensures
        count == taken_back(finding@),
{
    match finding {
        ComparisonFinding::UnlessUnified { count, .. } => *count,
        _ => 0,
    }
}

/// The position of the finding that is looked at after one, by whether the types of that one
/// unify.
pub fn finding_after(findings: &Vec<ComparisonFinding>, from: usize, unified: bool) -> (next: usize)
    requires
        from < findings.len(),
    ensures
        next == next_position(
            findings.len() as nat,
            taken_back(findings@[from as int]@),
            unified,
            from as int,
        ),
        from < next <= findings.len(),
{
    step_over(findings.len(), count_taken_back(&findings[from]), unified, from)
}

/// The position behind one, with a number of others after it that may be passed over.
pub open spec fn next_position(total: nat, count: nat, passed_over: bool, from: int) -> int {
    if !passed_over {
        from + 1
    } else if from + 1 + count > total {
        total as int
    } else {
        from + 1 + count
    }
}

fn step_over(total: usize, count: usize, passed_over: bool, from: usize) -> (next: usize)
    requires
        from < total,
    ensures
        next == next_position(total as nat, count as nat, passed_over, from as int),
        from < next <= total,
{
    let left: usize = total - from - 1;
    if !passed_over {
        from + 1
    } else if count > left {
        total
    } else {
        from + 1 + count
    }
}

/// What is said of findings from a position on.
pub open spec fn findings_log<N: TypeNotation>(
    log: SpecLog,
    notation: &N,
    findings: Seq<SpecComparisonFinding>,
    unified: Seq<bool>,
    span: Span,
    from: int,
) -> SpecLog
    decreases findings.len() - from,
{
    if from < 0 || from >= findings.len() {
        log
    } else {
        findings_log(
            finding_log(log, notation, findings[from], unified_at(unified, from), span),
            notation,
            findings,
            unified,
            span,
            next_finding(findings, unified, from),
        )
    }
}

/// Whether a finding is one that there is no message for: a variable that unifies only with
/// itself, a comparison that did not come to its end, or a union that does not list literals.
pub open spec fn is_left_unsaid(finding: SpecComparisonFinding) -> bool {
    match finding {
        SpecComparisonFinding::RigidVariable { .. } => true,
        SpecComparisonFinding::Unfinished { .. } => true,
        SpecComparisonFinding::NotInUnion { expected, .. } => !all_literals(expected),
        _ => false,
    }
}

fn left_unsaid(finding: &ComparisonFinding) -> (unsaid: bool)
    ensures
        unsaid == is_left_unsaid(finding@),
{
    match finding {
        ComparisonFinding::RigidVariable { .. } => true,
        ComparisonFinding::Unfinished { .. } => true,
        ComparisonFinding::NotInUnion { literal: _, expected } => literal_variant_members(
            expected,
        ).is_none(),
        _ => false,
    }
}

/// The positions of the findings that count and that nothing is said of, from a position on.
pub open spec fn unsaid_findings(
    findings: Seq<SpecComparisonFinding>,
    unified: Seq<bool>,
    from: int,
) -> Seq<int>
    decreases findings.len() - from,
{
    if from < 0 || from >= findings.len() {
        Seq::empty()
    } else {
        let later = unsaid_findings(findings, unified, next_finding(findings, unified, from));
        if is_left_unsaid(findings[from]) {
            seq![from] + later
        } else {
            later
        }
    }
}

pub open spec fn positions_view(positions: Seq<usize>) -> Seq<int> {
    Seq::new(positions.len(), |i: int| positions[i] as int)
}

/// Say what there is to say of the findings of a comparison. The positions of those that
/// nothing is said of come back.
pub fn report_findings<N: TypeNotation>(
    log: &mut DiagnosticLog,
    notation: &N,
    findings: &Vec<ComparisonFinding>,
    unified: &Vec<bool>,
    span: Span,
) -> (unsaid: Vec<usize>)
    ensures
        final(log)@ == findings_log(
            old(log)@,
            notation,
            found_view(findings@),
            unified@,
            span,
            0,
        ),
        positions_view(unsaid@) == unsaid_findings(found_view(findings@), unified@, 0),
{
    let ghost all = found_view(findings@);
    let ghost whole = findings_log(log@, notation, all, unified@, span, 0);
    let mut unsaid: Vec<usize> = Vec::new();
    let mut index: usize = 0;
    assert(positions_view(unsaid@) + unsaid_findings(all, unified@, 0) =~= unsaid_findings(
        all,
        unified@,
        0,
    ));
    while index < findings.len()
        invariant
            index <= findings.len(),
            all == found_view(findings@),
            all.len() == findings.len(),
            whole == findings_log(log@, notation, all, unified@, span, index as int),
            positions_view(unsaid@) + unsaid_findings(all, unified@, index as int)
                == unsaid_findings(all, unified@, 0),
        decreases findings.len() - index,
    {
        assert(all[index as int] == findings@[index as int]@);
        let answer = index < unified.len() && unified[index];
        report_finding(log, notation, &findings[index], answer, span);
        let next: usize = finding_after(findings, index, answer);
        let ghost before = positions_view(unsaid@);
        if left_unsaid(&findings[index]) {
            unsaid.push(index);
            assert(positions_view(unsaid@) =~= before.push(index as int));
        }
        assert(positions_view(unsaid@) + unsaid_findings(all, unified@, next as int) =~= before
            + unsaid_findings(all, unified@, index as int));
        index = next;
    }
    assert(positions_view(unsaid@) + Seq::<int>::empty() =~= positions_view(unsaid@));
    unsaid
}

// ---------------------------------------------------------------------------
// Values
// ---------------------------------------------------------------------------
/// What is said of what a check of a value finds; nothing of what it only asks for.
pub open spec fn event_log<N: TypeNotation>(
    log: SpecLog,
    notation: &N,
    event: SpecValueEvent,
    unified: bool,
) -> SpecLog {
    match event {
        SpecValueEvent::BrandMismatch { expected, found, span } => log.with_mismatch(
            mismatch_message(notation.text_of(expected), found, span),
        ),
        SpecValueEvent::ResultMismatch { expected, actual, span } => log.with_mismatch(
            mismatch_message(notation.text_of(expected), notation.text_of(actual), span),
        ),
        SpecValueEvent::LiteralMismatch { row, literal, span } => {
            let expected = notation.text_of(SpecType::Variant(row));
            let found = literal_kind(literal);
            log.with_mismatch(
                SpecDiagnostic::error("expected `"@ + expected + "`, found a "@ + found).coded(
                    Code::TypeMismatch,
                ).labelled(span, "this is a "@ + found).noted(
                    "change the value to produce `"@ + expected
                        + "`, or change the annotation to match the literal"@,
                ),
            )
        },
        SpecValueEvent::LiteralNotInUnion { row, literal, span } => finding_log(
            log,
            notation,
            SpecComparisonFinding::NotInUnion { literal, expected: row },
            unified,
            span,
        ),
        SpecValueEvent::TupleArity { expected, found, span } => finding_log(
            log,
            notation,
            SpecComparisonFinding::TupleArity { expected, found },
            unified,
            span,
        ),
        SpecValueEvent::TagKindMismatch { row, tag, span } => finding_log(
            log,
            notation,
            SpecComparisonFinding::KindMismatch { expected: row, actual: bare_row(tag) },
            unified,
            span,
        ),
        SpecValueEvent::UnknownTag { tag, span } => finding_log(
            log,
            notation,
            SpecComparisonFinding::UnknownTag(tag),
            unified,
            span,
        ),
        SpecValueEvent::PayloadArity { tag, expected, found, span } => finding_log(
            log,
            notation,
            SpecComparisonFinding::PayloadArity { tag, expected, found },
            unified,
            span,
        ),
        SpecValueEvent::MissingField { name, span } => finding_log(
            log,
            notation,
            SpecComparisonFinding::MissingField(name),
            unified,
            span,
        ),
        SpecValueEvent::UnexpectedField { name, span } => log.with(
            SpecDiagnostic::error("unexpected field `"@ + name + "`"@).coded(
                Code::TypeUnexpectedField,
            ).labelled(span, "this field is not in the record type"@).noted(
                "remove the field, or open the record type with `..` to allow extra fields"@,
            ),
        ),
        SpecValueEvent::Found { finding, span } => finding_log(
            log,
            notation,
            finding,
            unified,
            span,
        ),
        _ => log,
    }
}

/// The row of a tag without a payload.
pub open spec fn bare_row(tag: Seq<char>) -> SpecRow {
    SpecRow {
        entries: seq![SpecRowEntry::Tag { name: tag, payload: Seq::empty() }],
        tail: RowTail::Closed,
    }
}

fn tag_row(tag: &str) -> (row: Row)
    ensures
        row@ == bare_row(tag@),
{
    let payload: Vec<Type> = Vec::new();
    assert(types_view(payload@) =~= Seq::empty());
    let mut entries: Vec<RowEntry> = Vec::new();
    entries.push(RowEntry::Tag { name: tag.to_owned(), payload });
    let row = Row { entries, tail: RowTail::Closed };
    assert(row@.entries =~= seq![SpecRowEntry::Tag { name: tag@, payload: Seq::empty() }]);
    assert(row@.tail == RowTail::Closed);
    row
}

/// Say what there is to say of what a check of a value finds. `unified` says that types which
/// are to unify do.
pub fn report_value_event<N: TypeNotation>(
    log: &mut DiagnosticLog,
    notation: &N,
    event: &ValueEvent<'_>,
    unified: bool,
)
    ensures
        final(log)@ == event_log(old(log)@, notation, event@, unified),
{
    match event {
        ValueEvent::BrandMismatch { expected, found, span } => {
            let expected = notation.render(expected);
            log.report_type_mismatch_between_types(expected.as_str(), found.as_str(), *span);
        },
        ValueEvent::ResultMismatch { expected, actual, span } => {
            let expected = notation.render(expected);
            let actual = notation.render(actual);
            log.report_type_mismatch_between_types(expected.as_str(), actual.as_str(), *span);
        },
        ValueEvent::LiteralMismatch { row, literal, span } => {
            let expected = render_variant(notation, row);
            log.report_type_mismatch(expected.as_str(), literal_kind_name(literal), *span);
        },
        ValueEvent::LiteralNotInUnion { row, literal, span } => {
            if let Some(literals) = literal_variant_members(row) {
                assert(literals_view(literals@) == literals_of(row@));
                log.report_literal_not_in_union(literal, &literals, *span);
            }
        },
        ValueEvent::TupleArity { expected, found, span } => {
            log.report_tuple_arity_mismatch(*expected, *found, *span);
        },
        ValueEvent::TagKindMismatch { row, tag, span } => {
            let expected = render_variant(notation, row);
            let actual = render_variant(notation, &tag_row(tag));
            log.report_variant_entry_kind_mismatch(expected.as_str(), actual.as_str(), *span);
        },
        ValueEvent::UnknownTag { tag, span } => {
            log.report_variant_tag_mismatch(tag, *span);
        },
        ValueEvent::PayloadArity { tag, expected, found, span } => {
            log.report_variant_payload_arity_mismatch(tag, *expected, *found, *span);
        },
        ValueEvent::MissingField { name, span } => {
            log.report_missing_field(name.as_str(), *span);
        },
        ValueEvent::UnexpectedField { name, span } => {
            log.report_unexpected_field(name.as_str(), *span);
        },
        ValueEvent::Found { finding, span } => {
            report_finding(log, notation, finding, unified, *span);
        },
        _ => {},
    }
}

/// The position of the next event that counts. Findings that stand unless variants unify are
/// passed over where they do.
pub open spec fn next_event(events: Seq<SpecValueEvent>, unified: Seq<bool>, from: int) -> int {
    next_position(
        events.len(),
        events_taken_back(events[from]),
        unified_at(unified, from),
        from,
    )
}

/// How many of the events behind one it takes back where its types unify.
pub open spec fn events_taken_back(event: SpecValueEvent) -> nat {
    match event {
        SpecValueEvent::Found { finding, .. } => taken_back(finding),
        _ => 0,
    }
}

/// The position of the event that is looked at after one, by whether the types of that one
/// unify.
pub fn event_after(events: &Vec<ValueEvent<'_>>, from: usize, unified: bool) -> (next: usize)
    requires
        from < events.len(),
    ensures
        next == next_position(
            events.len() as nat,
            events_taken_back(events@[from as int]@),
            unified,
            from as int,
        ),
        from < next <= events.len(),
{
    let count: usize = match &events[from] {
        ValueEvent::Found { finding, span: _ } => count_taken_back(finding),
        _ => 0,
    };
    step_over(events.len(), count, unified, from)
}

/// What is said of what a check of a value finds, from a position on.
pub open spec fn events_log<N: TypeNotation>(
    log: SpecLog,
    notation: &N,
    events: Seq<SpecValueEvent>,
    unified: Seq<bool>,
    from: int,
) -> SpecLog
    decreases events.len() - from,
{
    if from < 0 || from >= events.len() {
        log
    } else {
        events_log(
            event_log(log, notation, events[from], unified_at(unified, from)),
            notation,
            events,
            unified,
            next_event(events, unified, from),
        )
    }
}

/// Whether nothing is said of an event: it only asks for something, or there is no message
/// for what it finds.
pub open spec fn is_unsaid_event(event: SpecValueEvent) -> bool {
    match event {
        SpecValueEvent::BrandMismatch { .. } => false,
        SpecValueEvent::ResultMismatch { .. } => false,
        SpecValueEvent::LiteralMismatch { .. } => false,
        SpecValueEvent::LiteralNotInUnion { row, .. } => !all_literals(row),
        SpecValueEvent::TupleArity { .. } => false,
        SpecValueEvent::TagKindMismatch { .. } => false,
        SpecValueEvent::UnknownTag { .. } => false,
        SpecValueEvent::PayloadArity { .. } => false,
        SpecValueEvent::MissingField { .. } => false,
        SpecValueEvent::UnexpectedField { .. } => false,
        SpecValueEvent::Found { finding, .. } => is_left_unsaid(finding),
        _ => true,
    }
}

fn unsaid_event(event: &ValueEvent<'_>) -> (unsaid: bool)
    ensures
        unsaid == is_unsaid_event(event@),
{
    match event {
        ValueEvent::BrandMismatch { .. } => false,
        ValueEvent::ResultMismatch { .. } => false,
        ValueEvent::LiteralMismatch { .. } => false,
        ValueEvent::LiteralNotInUnion { row, literal: _, span: _ } => literal_variant_members(
            row,
        ).is_none(),
        ValueEvent::TupleArity { .. } => false,
        ValueEvent::TagKindMismatch { .. } => false,
        ValueEvent::UnknownTag { .. } => false,
        ValueEvent::PayloadArity { .. } => false,
        ValueEvent::MissingField { .. } => false,
        ValueEvent::UnexpectedField { .. } => false,
        ValueEvent::Found { finding, span: _ } => left_unsaid(finding),
        _ => true,
    }
}

/// The positions of the events that count and that nothing is said of, from a position on.
pub open spec fn unsaid_events(
    events: Seq<SpecValueEvent>,
    unified: Seq<bool>,
    from: int,
) -> Seq<int>
    decreases events.len() - from,
{
    if from < 0 || from >= events.len() {
        Seq::empty()
    } else {
        let later = unsaid_events(events, unified, next_event(events, unified, from));
        if is_unsaid_event(events[from]) {
            seq![from] + later
        } else {
            later
        }
    }
}

/// Say what there is to say of all that a check of a value finds. The answers say which types
/// unify, in the order of the events. The positions of the events that nothing is said of
/// come back.
pub fn report_value_events<N: TypeNotation>(
    log: &mut DiagnosticLog,
    notation: &N,
    events: &Vec<ValueEvent<'_>>,
    unified: &Vec<bool>,
) -> (unsaid: Vec<usize>)
    ensures
        final(log)@ == events_log(old(log)@, notation, events_view(events@), unified@, 0),
        positions_view(unsaid@) == unsaid_events(events_view(events@), unified@, 0),
{
    let ghost all = events_view(events@);
    let ghost whole = events_log(log@, notation, all, unified@, 0);
    let mut unsaid: Vec<usize> = Vec::new();
    let mut index: usize = 0;
    assert(positions_view(unsaid@) + unsaid_events(all, unified@, 0) =~= unsaid_events(
        all,
        unified@,
        0,
    ));
    while index < events.len()
        invariant
            index <= events.len(),
            all == events_view(events@),
            all.len() == events.len(),
            whole == events_log(log@, notation, all, unified@, index as int),
            positions_view(unsaid@) + unsaid_events(all, unified@, index as int)
                == unsaid_events(all, unified@, 0),
        decreases events.len() - index,
    {
        assert(all[index as int] == events@[index as int]@);
        let answer = index < unified.len() && unified[index];
        report_value_event(log, notation, &events[index], answer);
        let next: usize = event_after(events, index, answer);
        let ghost before = positions_view(unsaid@);
        if unsaid_event(&events[index]) {
            unsaid.push(index);
            assert(positions_view(unsaid@) =~= before.push(index as int));
        }
        assert(positions_view(unsaid@) + unsaid_events(all, unified@, next as int) =~= before
            + unsaid_events(all, unified@, index as int));
        index = next;
    }
    assert(positions_view(unsaid@) + Seq::<int>::empty() =~= positions_view(unsaid@));
    unsaid
}

} // verus!
