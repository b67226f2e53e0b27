//! Laws of the members of values, of the binders of patterns, of the entries of records, and of
//! what is reported.
use crate::access::{is_index_step, IndexStep};
use crate::arguments::{arity_mismatch, static_type};
use crate::builtin_methods::builtin_signature;
use crate::diagnostics::{Code, Severity, SpecDiagnostic, SpecLog};
use crate::matches::MatchGap;
use crate::methods::SpecSignature;
use crate::operator_laws::{computes, groups_of_operators, named, orders};
use crate::operators::DivisorVerdict;
use crate::patterns::{rest_binders, source_for_binder};
use crate::records::{goals_after, row_after, step_at, RowState, SpecEffect};
use crate::reports::listed;
use crate::row_edits::edited;
use crate::span::Span;
use crate::syntax::{ExprKind, RecordEntry};
use crate::types::SpecType;
use vstd::prelude::*;

verus! {

// ---------------------------------------------------------------------------
// Builtin methods
// ---------------------------------------------------------------------------
/// A method with parameters and a result, that asks for nothing.
pub open spec fn takes(params: Seq<SpecType>, result: SpecType) -> Option<SpecSignature> {
    Some(SpecSignature { params, result, predicates: Seq::empty() })
}

/// The operators of numbers stay in the type of their operands; their comparisons give truth
/// values. Texts have one operator, and truth values have none.
pub proof fn builtin_operators_stay_in_their_type(member: Seq<char>)
    ensures
        computes(member) ==> builtin_signature(named("Int"@), member) == takes(
            seq![named("Int"@)],
            named("Int"@),
        ),
        computes(member) ==> builtin_signature(named("Float"@), member) == takes(
            seq![named("Float"@)],
            named("Float"@),
        ),
        orders(member) ==> builtin_signature(named("Int"@), member) == takes(
            seq![named("Int"@)],
            named("Bool"@),
        ),
        orders(member) ==> builtin_signature(named("Float"@), member) == takes(
            seq![named("Float"@)],
            named("Bool"@),
        ),
        builtin_signature(named("Text"@), "+"@) == takes(seq![named("Text"@)], named("Text"@)),
        (computes(member) && member != "+"@) || orders(member) ==> builtin_signature(
            named("Text"@),
            member,
        ) is None,
        computes(member) || orders(member) ==> builtin_signature(named("Bool"@), member) is None,
{
    groups_of_operators(member);
    crate::builtin_methods::builtin_names_differ();
    spellings_of_methods();
    assert(crate::builtin_methods::named_all(seq![crate::builtin_methods::BuiltinType::Int])
        =~= seq![named("Int"@)]);
    assert(crate::builtin_methods::named_all(seq![crate::builtin_methods::BuiltinType::Float])
        =~= seq![named("Float"@)]);
    assert(crate::builtin_methods::named_all(seq![crate::builtin_methods::BuiltinType::Text])
        =~= seq![named("Text"@)]);
}

/// Integers are divided with a result that may be missing, and become floats and texts; every
/// builtin scalar becomes a text.
pub proof fn builtin_conversions_give_their_type()
    ensures
        builtin_signature(named("Int"@), "div"@) == takes(
            seq![named("Int"@)],
            SpecType::Optional(Box::new(named("Int"@))),
        ),
        builtin_signature(named("Int"@), "mod"@) == takes(
            seq![named("Int"@)],
            SpecType::Optional(Box::new(named("Int"@))),
        ),
        builtin_signature(named("Int"@), "toFloat"@) == takes(Seq::empty(), named("Float"@)),
        builtin_signature(named("Int"@), "abs"@) == takes(Seq::empty(), named("Int"@)),
        builtin_signature(named("Float"@), "round"@) == takes(Seq::empty(), named("Float"@)),
        builtin_signature(named("Int"@), "toText"@) == takes(Seq::empty(), named("Text"@)),
        builtin_signature(named("Float"@), "toText"@) == takes(Seq::empty(), named("Text"@)),
        builtin_signature(named("Text"@), "toText"@) == takes(Seq::empty(), named("Text"@)),
        builtin_signature(named("Bool"@), "toText"@) == takes(Seq::empty(), named("Text"@)),
        builtin_signature(named("Float"@), "isNaN"@) == takes(Seq::empty(), named("Bool"@)),
        builtin_signature(named("Int"@), "isNaN"@) is None,
        builtin_signature(named("Float"@), "div"@) is None,
{
    crate::builtin_methods::builtin_names_differ();
    spellings_of_methods();
    assert(crate::builtin_methods::named_all(Seq::empty()) =~= Seq::empty());
    assert(crate::builtin_methods::named_all(seq![crate::builtin_methods::BuiltinType::Int])
        =~= seq![named("Int"@)]);
}

proof fn spellings_of_methods()
    ensures
        "+"@.len() == 1 && "-"@.len() == 1 && "*"@.len() == 1 && "/"@.len() == 1 && "%"@.len() == 1
            && "^"@.len() == 1 && "<"@.len() == 1 && ">"@.len() == 1 && "<="@.len() == 2
            && ">="@.len() == 2,
        "+"@[0] == '+' && "-"@[0] == '-' && "*"@[0] == '*' && "/"@[0] == '/' && "%"@[0] == '%'
            && "^"@[0] == '^' && "<"@[0] == '<' && ">"@[0] == '>',
        "min"@.len() == 3 && "max"@.len() == 3 && "pow"@.len() == 3 && "div"@.len() == 3
            && "mod"@.len() == 3 && "abs"@.len() == 3,
        "min"@[0] == 'm' && "max"@[0] == 'm' && "pow"@[0] == 'p' && "div"@[0] == 'd' && "mod"@[0]
            == 'm' && "abs"@[0] == 'a',
        "min"@[1] == 'i' && "max"@[1] == 'a' && "mod"@[1] == 'o',
        "sign"@.len() == 4 && "ceil"@.len() == 4 && "sqrt"@.len() == 4,
        "clamp"@.len() == 5 && "round"@.len() == 5 && "floor"@.len() == 5 && "isNaN"@.len() == 5,
        "clamp"@[0] == 'c' && "round"@[0] == 'r' && "floor"@[0] == 'f' && "isNaN"@[0] == 'i',
        "toText"@.len() == 6,
        "toFloat"@.len() == 7 && "toFixed"@.len() == 7,
        "truncate"@.len() == 8 && "isFinite"@.len() == 8,
        "toGrouped"@.len() == 9,
        "ieeeEquals"@.len() == 10 && "isInfinite"@.len() == 10,
{
    reveal_strlit("+");
    reveal_strlit("-");
    reveal_strlit("*");
    reveal_strlit("/");
    reveal_strlit("%");
    reveal_strlit("^");
    reveal_strlit("<");
    reveal_strlit(">");
    reveal_strlit("<=");
    reveal_strlit(">=");
    reveal_strlit("min");
    reveal_strlit("max");
    reveal_strlit("pow");
    reveal_strlit("div");
    reveal_strlit("mod");
    reveal_strlit("abs");
    reveal_strlit("sign");
    reveal_strlit("ceil");
    reveal_strlit("sqrt");
    reveal_strlit("clamp");
    reveal_strlit("round");
    reveal_strlit("floor");
    reveal_strlit("isNaN");
    reveal_strlit("toText");
    reveal_strlit("toFloat");
    reveal_strlit("toFixed");
    reveal_strlit("truncate");
    reveal_strlit("isFinite");
    reveal_strlit("toGrouped");
    reveal_strlit("ieeeEquals");
    reveal_strlit("isInfinite");
}

// ---------------------------------------------------------------------------
// Elements and statics
// ---------------------------------------------------------------------------
/// An element of an array is selected by an integer, and the value of a map by a key; either may
/// be missing. A set, a scalar and a function have no elements that are selected.
pub proof fn indices_select_elements(
    key: SpecType,
    value: SpecType,
    receiver: SpecType,
    step: IndexStep,
)
    requires
        is_index_step(receiver, step),
    ensures
        receiver == crate::rows::applied1("Array"@, value) ==> step is Element && step->index@
            == named("Int"@) && step->ty@ == SpecType::Optional(Box::new(value)),
        receiver == crate::rows::applied2("Map"@, key, value) ==> step is Element && step->index@
            == key && step->ty@ == SpecType::Optional(Box::new(value)),
        receiver == crate::rows::applied1("Set"@, value) && crate::type_ops::resolved(receiver)
            ==> step is NotIndexable,
        receiver is Named ==> step is NotIndexable,
        receiver is Variable || receiver is Deferred ==> step is Unknown,
        receiver is Tuple ==> step is Tuple && crate::types::types_view(step->Tuple_0@)
            == receiver->Tuple_0,
        receiver is Record ==> step is Record && step->Record_0@ == receiver->Record_0,
{
    reveal_strlit("Array");
    reveal_strlit("Set");
    assert("Array"@.len() != "Set"@.len());
}

/// A static has the type under its own name in its own owner, unless the owner is bound to a
/// value. A call of it with another number of arguments than it takes is told the numbers that it
/// does, but for functions of the host.
pub proof fn statics_take_their_parameters(
    statics: Map<Seq<char>, Map<Seq<char>, SpecType>>,
    owner: Seq<char>,
    field: Seq<char>,
    params: Seq<SpecType>,
    required: nat,
    result: SpecType,
    arg_count: nat,
)
    ensures
        static_type(statics, owner, field, true) is None,
        statics.contains_key(owner) && statics[owner].contains_key(field) ==> static_type(
            statics,
            owner,
            field,
            false,
        ) == Some(statics[owner][field]),
        !(statics.contains_key(owner) && statics[owner].contains_key(field)) ==> static_type(
            statics,
            owner,
            field,
            false,
        ) is None,
        ({
            let ty = SpecType::Function { params, result: Box::new(result), required };
            &&& arity_mismatch(Some(ty), true, arg_count) is None
            &&& required <= arg_count <= params.len() ==> arity_mismatch(
                Some(ty),
                false,
                arg_count,
            ) is None
            &&& arg_count < required || arg_count > params.len() ==> arity_mismatch(
                Some(ty),
                false,
                arg_count,
            ) == Some((required, params.len()))
        }),
{
}

// ---------------------------------------------------------------------------
// Binders of record patterns
// ---------------------------------------------------------------------------
/// A binder of a record pattern takes the export that is named like it, or the one that is renamed
/// to it: the first of them. Without such an entry it takes none.
pub proof fn binders_take_the_export_they_name(
    entries: Seq<RecordEntry>,
    binder: Seq<char>,
    index: int,
)
    requires
        0 <= index < entries.len(),
        forall|i: int|
            0 <= i < index ==> (#[trigger] entries[i] matches RecordEntry::Shorthand { name, .. }
                ==> name@ != binder),
        forall|i: int|
            0 <= i < index ==> (#[trigger] entries[i] matches RecordEntry::Rename { to, .. }
                ==> to@ != binder),
    ensures
        entries[index] matches RecordEntry::Shorthand { name, .. } ==> (name@ == binder
            ==> source_for_binder(entries, binder, 0) == Some(binder)),
        entries[index] matches RecordEntry::Rename { from, to, .. } ==> (to@ == binder
            ==> source_for_binder(entries, binder, 0) == Some(from@)),
        index == entries.len() - 1 && !(entries[index] is Shorthand) && !(entries[index] is Rename)
            ==> source_for_binder(entries, binder, 0) is None,
{
    binders_are_sought_from(entries, binder, index, 0);
    if index == entries.len() - 1 {
        assert(source_for_binder(entries, binder, index + 1) is None);
    }
}

proof fn binders_are_sought_from(
    entries: Seq<RecordEntry>,
    binder: Seq<char>,
    index: int,
    start: int,
)
    requires
        0 <= start <= index < entries.len(),
        forall|i: int|
            0 <= i < index ==> (#[trigger] entries[i] matches RecordEntry::Shorthand { name, .. }
                ==> name@ != binder),
        forall|i: int|
            0 <= i < index ==> (#[trigger] entries[i] matches RecordEntry::Rename { to, .. }
                ==> to@ != binder),
    ensures
        source_for_binder(entries, binder, start) == source_for_binder(entries, binder, index),
    decreases index - start,
{
    if start < index {
        binders_are_sought_from(entries, binder, index, start + 1);
        assert(!(entries[start] is Shorthand) || entries[start]->Shorthand_name@ != binder);
    }
}

/// The rest of a record is bound by each spread of a name, in order; `_` binds nothing, nor do
/// other entries.
pub proof fn rests_are_bound_by_spreads(entries: Seq<RecordEntry>, entry: RecordEntry)
    ensures
        rest_binders(entries.push(entry)) == (match entry {
            RecordEntry::Spread { value, .. } => match value.kind {
                ExprKind::Name(name) => if name@ == "_"@ {
                    rest_binders(entries)
                } else {
                    rest_binders(entries).push(name@)
                },
                _ => rest_binders(entries),
            },
            _ => rest_binders(entries),
        }),
        rest_binders(Seq::empty()) == Seq::<Seq<char>>::empty(),
{
    assert(entries.push(entry).drop_last() =~= entries);
    assert(entries.push(entry).last() == entry);
}

// ---------------------------------------------------------------------------
// Entries of records
// ---------------------------------------------------------------------------
proof fn earlier_rows_stay(
    effects: Seq<SpecEffect>,
    effect: SpecEffect,
    definitions: Map<Seq<char>, SpecType>,
    count: nat,
)
    requires
        count <= effects.len(),
    ensures
        row_after(effects.push(effect), definitions, count) == row_after(
            effects,
            definitions,
            count,
        ),
        goals_after(effects.push(effect), definitions, count) == goals_after(
            effects,
            definitions,
            count,
        ),
    decreases count,
{
    if count > 0 {
        earlier_rows_stay(effects, effect, definitions, (count - 1) as nat);
        assert(effects.push(effect)[count - 1] == effects[count - 1]);
        assert(step_at(effects.push(effect), definitions, count - 1) == step_at(
            effects,
            definitions,
            count - 1,
        ));
    }
}

/// Each entry of a record edits the row that the entries before it wrote. One that cannot be taken
/// stops the record there; one that writes nothing leaves the row. What an edit asks to compare is
/// asked after what the entries before it asked.
pub proof fn entries_edit_the_row_before_them(
    effects: Seq<SpecEffect>,
    effect: SpecEffect,
    definitions: Map<Seq<char>, SpecType>,
)
    ensures
        ({
            let before = row_after(effects, definitions, effects.len());
            let after = row_after(effects.push(effect), definitions, effects.len() + 1);
            let asked = goals_after(effects, definitions, effects.len());
            let asks = goals_after(effects.push(effect), definitions, effects.len() + 1);
            match (before, effect) {
                (RowState::Stopped { .. }, _) => after == before && asks == asked,
                (RowState::Row(_), SpecEffect::Skip) => after == before && asks == asked,
                (RowState::Row(_), SpecEffect::Refuse) => after is Stopped
                    && after->Stopped_entry == effects.len() && asks == asked,
                (RowState::Row(row), SpecEffect::Edit { edit, fresh }) => {
                    let outcome = edited(row, edit, definitions, fresh);
                    &&& outcome.row is Some ==> after == RowState::Row(outcome.row->0)
                    &&& outcome.row is None ==> after == (RowState::Stopped {
                        entry: effects.len(),
                        issues: outcome.issues,
                    })
                    &&& asks.len() == asked.len() + outcome.goals.len()
                    &&& forall|i: int| 0 <= i < asked.len() ==> #[trigger] asks[i] == asked[i]
                    &&& forall|i: int|
                        0 <= i < outcome.goals.len() ==> asks[asked.len() + i] == (
                            effects.len() as int,
                            (#[trigger] outcome.goals[i]).0,
                            outcome.goals[i].1,
                        )
                },
            }
        }),
{
    earlier_rows_stay(effects, effect, definitions, effects.len());
    assert(effects.push(effect)[effects.len() as int] == effect);
}

// ---------------------------------------------------------------------------
// Reports
// ---------------------------------------------------------------------------
/// Whether a log has one more diagnostic than an earlier one: an error about a place, with a code.
pub open spec fn adds_error(earlier: SpecLog, later: SpecLog, code: Code, span: Span) -> bool {
    &&& later.diagnostics.len() == earlier.diagnostics.len() + 1
    &&& later.diagnostics.drop_last() == earlier.diagnostics
    &&& later.diagnostics.last().severity == Severity::Error
    &&& later.diagnostics.last().code == Some(code)
    &&& later.diagnostics.last().place() == Some(span)
}

/// A match that leaves something out is an error at its subject; one that does not is left alone.
pub proof fn gaps_are_reported(log: SpecLog, gap: MatchGap, span: Span)
    ensures
        gap is Covered ==> log.with_gap(gap, span) == log,
        !(gap is Covered) ==> adds_error(
            log,
            log.with_gap(gap, span),
            Code::TypeNonExhaustiveMatch,
            span,
        ),
{
    assert(log.with_gap(gap, span).diagnostics.drop_last() =~= log.diagnostics || gap is Covered);
}

/// A divisor that is zero, and one that may be, are errors at the divisor, each said once; a
/// divisor that is not zero is left alone.
pub proof fn divisors_are_reported(
    log: SpecLog,
    operator: Seq<char>,
    verdict: DivisorVerdict,
    span: Span,
)
    ensures
        ({
            let after = log.with_divisor(operator, verdict, span);
            let code = if verdict is Zero {
                Code::TypeDivisionByZero
            } else {
                Code::TypeDivisorNotStatic
            };
            let known = exists|i: int|
                0 <= i < log.diagnostics.len() && (#[trigger] log.diagnostics[i]).code == Some(code)
                    && log.diagnostics[i].place() == Some(span);
            &&& verdict is NotChecked || verdict is NonZero ==> after == log
            &&& (verdict is Zero || verdict is MayBeZero) && known ==> after == log
            &&& (verdict is Zero || verdict is MayBeZero) && !known ==> adds_error(
                log,
                after,
                code,
                span,
            )
        }),
{
    let after = log.with_divisor(operator, verdict, span);
    let code = if verdict is Zero {
        Code::TypeDivisionByZero
    } else {
        Code::TypeDivisorNotStatic
    };
    assert forall|i: int| 0 <= i < log.diagnostics.len() implies ((
    #[trigger] log.diagnostics[i]).key() == Some((code, span)) <==> log.diagnostics[i].code == Some(
        code,
    ) && log.diagnostics[i].place() == Some(span)) by {}
    if crate::diagnostics::has_key(log.diagnostics, (code, span)) {
        let i = choose|i: int|
            0 <= i < log.diagnostics.len() && (#[trigger] log.diagnostics[i]).key() == Some(
                (code, span),
            );
        assert(log.diagnostics[i].code == Some(code));
    }
    if after != log {
        assert(after.diagnostics.drop_last() =~= log.diagnostics);
    }
}

/// Of an import, and of a place where a name is not bound, something is said once.
pub proof fn places_are_reported_once(log: SpecLog, span: Span, diagnostic: SpecDiagnostic)
    ensures
        !log.imports.contains(span) ==> log.with_import(span, diagnostic).diagnostics
            == log.diagnostics.push(diagnostic),
        log.with_import(span, diagnostic).with_import(span, diagnostic) == log.with_import(
            span,
            diagnostic,
        ),
        !log.unbound.contains(span) ==> log.with_unbound(span, diagnostic).diagnostics
            == log.diagnostics.push(diagnostic),
        log.with_unbound(span, diagnostic).with_unbound(span, diagnostic) == log.with_unbound(
            span,
            diagnostic,
        ),
{
    assert(log.imports.insert(span).insert(span) =~= log.imports.insert(span));
    assert(log.unbound.insert(span).insert(span) =~= log.unbound.insert(span));
}

/// Names are listed in backticks, in order, with commas between them.
pub proof fn names_are_listed_in_backticks(names: Seq<Seq<char>>, name: Seq<char>)
    ensures
        listed(seq![name]) == "`"@ + name + "`"@,
        names.len() > 0 ==> listed(names.push(name)) == listed(names) + ", "@ + ("`"@ + name
            + "`"@),
{
    let quoted = crate::reports::quoted_names(names);
    assert(crate::reports::quoted_names(names.push(name)) =~= quoted.push("`"@ + name + "`"@));
    assert(quoted.push("`"@ + name + "`"@).drop_last() =~= quoted);
    assert(crate::reports::quoted_names(seq![name]) =~= seq!["`"@ + name + "`"@]);
}

} // verus!
