//! What annotations come to.
use crate::annotations::{
    folded_rows, lowered, lowered_all, AnnotationFacts, Definitions, Lowering, SpecEvent,
};
use crate::row_edits::RowKind;
use crate::row_laws::is_labelled;
use crate::syntax::{Expr, RecordEntry};
use crate::types::{SpecRow, SpecRowEntry, SpecType};
use vstd::prelude::*;

verus! {

/// A name that begins with a small letter is a type variable, unless a type was given for it.
pub proof fn small_names_are_variables(
    annotation: Expr,
    known: Definitions,
    facts: AnnotationFacts,
    next: u32,
)
    requires
        annotation.kind is Name,
    ensures
        ({
            let name = annotation.kind->Name_0@;
            let whole = lowered(annotation, known, facts, next);
            &&& whole.ty == (if facts.reified@.contains_key(name) {
                facts.reified@[name]@
            } else {
                SpecType::Variable(name)
            })
            &&& whole.events.len() == 0
            &&& whole.next == next
        }),
{
}

/// A name that begins with a capital letter is the type of the name. Nothing is said of one that
/// is known, and of one that is not it is said that it is not.
pub proof fn capital_names_are_types(
    annotation: Expr,
    known: Definitions,
    facts: AnnotationFacts,
    next: u32,
)
    requires
        annotation.kind is ComptimeName,
        !facts.reified@.contains_key(annotation.kind->ComptimeName_0@),
        !facts.plain_types@.contains_key(annotation.kind->ComptimeName_0@),
    ensures
        ({
            let name = annotation.kind->ComptimeName_0@;
            let whole = lowered(annotation, known, facts, next);
            &&& whole.ty == SpecType::Named(name)
            &&& known.known_types@.contains(name) ==> whole.events.len() == 0
            &&& !known.known_types@.contains(name) ==> whole.events == seq![
                SpecEvent::UnknownType { name, span: annotation.span },
            ]
            &&& whole.next == next
        }),
{
    let none = Seq::<SpecEvent>::empty();
    let name = annotation.kind->ComptimeName_0@;
    let unknown = seq![SpecEvent::UnknownType { name, span: annotation.span }];
    assert(none + none =~= none);
    assert(none + unknown =~= unknown);
}

/// A group comes to what is in it, and a mark around an annotation puts one layer around what
/// the annotation comes to.
pub proof fn marks_put_layers_around(
    annotation: Expr,
    known: Definitions,
    facts: AnnotationFacts,
    next: u32,
)
    ensures
        annotation.kind is Group ==> lowered(annotation, known, facts, next) == lowered(
            *annotation.kind->Group_0,
            known,
            facts,
            next,
        ),
        annotation.kind is Optional ==> ({
            let inner = lowered(*annotation.kind->Optional_0, known, facts, next);
            lowered(annotation, known, facts, next) == (Lowering {
                ty: SpecType::Optional(Box::new(inner.ty)),
                events: inner.events,
                next: inner.next,
            })
        }),
        annotation.kind is Nullable ==> ({
            let inner = lowered(*annotation.kind->Nullable_0, known, facts, next);
            lowered(annotation, known, facts, next) == (Lowering {
                ty: SpecType::Nullable(Box::new(inner.ty)),
                events: inner.events,
                next: inner.next,
            })
        }),
        annotation.kind is Missing ==> lowered(annotation, known, facts, next).ty is Deferred
            && lowered(annotation, known, facts, next).events.len() == 0,
{
}

/// Marks take away the layers that other marks put around a type.
pub proof fn marks_take_layers_away(
    annotation: Expr,
    inner: Expr,
    known: Definitions,
    facts: AnnotationFacts,
    next: u32,
)
    requires
        known.map().dom().finite(),
        lowered(inner, known, facts, next).ty is Named,
        !known.map().contains_key(lowered(inner, known, facts, next).ty->Named_0),
    ensures
        annotation.kind is NonNull && annotation.kind->NonNull_0.kind is Nullable
            && *annotation.kind->NonNull_0.kind->Nullable_0 == inner ==> lowered(
            annotation,
            known,
            facts,
            next,
        ).ty == lowered(inner, known, facts, next).ty,
        annotation.kind is NonNull && *annotation.kind->NonNull_0 == inner ==> lowered(
            annotation,
            known,
            facts,
            next,
        ).ty == lowered(inner, known, facts, next).ty,
        annotation.kind is Unary && annotation.kind->Unary_operator@ == "!"@
            && annotation.kind->Unary_value.kind is Optional
            && *annotation.kind->Unary_value.kind->Optional_0 == inner ==> lowered(
            annotation,
            known,
            facts,
            next,
        ).ty == lowered(inner, known, facts, next).ty,
{
    let ty = lowered(inner, known, facts, next).ty;
    let definitions = known.map();
    crate::type_laws::names_without_definitions_stay(ty->Named_0, definitions);
    assert(crate::normalize::normal_form(ty, definitions) == ty);
    let optional = SpecType::Optional(Box::new(ty));
    let nullable = SpecType::Nullable(Box::new(ty));
    assert(crate::normalize::normal_form(optional, definitions) == optional);
    assert(crate::normalize::normal_form(nullable, definitions) == nullable);
    if annotation.kind is NonNull && annotation.kind->NonNull_0.kind is Nullable
        && *annotation.kind->NonNull_0.kind->Nullable_0 == inner {
        marks_put_layers_around(*annotation.kind->NonNull_0, known, facts, next);
        assert(lowered(*annotation.kind->NonNull_0, known, facts, next).ty == nullable);
        assert(lowered(annotation, known, facts, next).ty == crate::normalize::without_nullable(
            crate::normalize::normal_form(nullable, definitions),
            definitions,
        ));
    }
    if annotation.kind is NonNull && *annotation.kind->NonNull_0 == inner {
        assert(lowered(annotation, known, facts, next).ty == crate::normalize::without_nullable(
            crate::normalize::normal_form(ty, definitions),
            definitions,
        ));
    }
    if annotation.kind is Unary && annotation.kind->Unary_operator@ == "!"@
        && annotation.kind->Unary_value.kind is Optional
        && *annotation.kind->Unary_value.kind->Optional_0 == inner {
        marks_put_layers_around(*annotation.kind->Unary_value, known, facts, next);
        assert(lowered(*annotation.kind->Unary_value, known, facts, next).ty == optional);
        assert(lowered(annotation, known, facts, next).ty == crate::normalize::without_optional(
            crate::normalize::normal_form(optional, definitions),
        ));
    }
}

proof fn more_items_begin_the_same(
    shorter: Seq<Expr>,
    item: Expr,
    known: Definitions,
    facts: AnnotationFacts,
    next: u32,
    count: nat,
)
    requires
        count <= shorter.len(),
    ensures
        lowered_all(shorter.push(item), known, facts, next, count) == lowered_all(
            shorter,
            known,
            facts,
            next,
            count,
        ),
    decreases count,
{
    if count > 0 {
        more_items_begin_the_same(shorter, item, known, facts, next, (count - 1) as nat);
        assert(shorter.push(item)[count - 1] == shorter[count - 1]);
    }
}

proof fn lists_grow_item_by_item(
    shorter: Seq<Expr>,
    item: Expr,
    known: Definitions,
    facts: AnnotationFacts,
    next: u32,
)
    ensures
        ({
            let longer = shorter.push(item);
            let before = lowered_all(shorter, known, facts, next, shorter.len());
            let last = lowered(item, known, facts, before.next);
            let after = lowered_all(longer, known, facts, next, longer.len());
            &&& after.types == before.types.push(last.ty)
            &&& after.events == before.events + last.events
            &&& after.next == last.next
        }),
{
    let longer = shorter.push(item);
    more_items_begin_the_same(shorter, item, known, facts, next, shorter.len());
    assert(longer[shorter.len() as int] == item);
    assert(lowered_all(longer, known, facts, next, longer.len()).types == lowered_all(
        shorter,
        known,
        facts,
        next,
        shorter.len(),
    ).types.push(
        lowered(
            item,
            known,
            facts,
            lowered_all(shorter, known, facts, next, shorter.len()).next,
        ).ty,
    ));
}

/// A tuple comes to the tuple of what its items come to, in their order.
pub proof fn tuples_come_to_their_items(
    shorter: Expr,
    longer: Expr,
    empty: Expr,
    item: Expr,
    known: Definitions,
    facts: AnnotationFacts,
    next: u32,
)
    requires
        shorter.kind is Tuple,
        longer.kind is Tuple,
        longer.kind->Tuple_0@ == shorter.kind->Tuple_0@.push(item),
        empty.kind is Tuple,
        empty.kind->Tuple_0@.len() == 0,
    ensures
        lowered(empty, known, facts, next).ty == SpecType::Tuple(Seq::empty()),
        ({
            let before = lowered(shorter, known, facts, next);
            let last = lowered(item, known, facts, before.next);
            let after = lowered(longer, known, facts, next);
            &&& before.ty is Tuple
            &&& after == (Lowering {
                ty: SpecType::Tuple(before.ty->Tuple_0.push(last.ty)),
                events: before.events + last.events,
                next: last.next,
            })
        }),
{
    lists_grow_item_by_item(shorter.kind->Tuple_0@, item, known, facts, next);
    assert(lowered_all(empty.kind->Tuple_0@, known, facts, next, 0).types == Seq::<
        SpecType,
    >::empty());
}

/// An arrow comes to the function from what its parameters come to, all of which it needs, to
/// what its result comes to.
pub proof fn arrows_come_to_functions(
    shorter: Expr,
    longer: Expr,
    constant: Expr,
    param: Expr,
    known: Definitions,
    facts: AnnotationFacts,
    next: u32,
)
    requires
        shorter.kind is Tuple,
        longer.kind is Arrow,
        longer.kind->Arrow_params@ == shorter.kind->Tuple_0@.push(param),
        constant.kind is Arrow,
        constant.kind->Arrow_params@.len() == 0,
    ensures
        ({
            let end = lowered(*constant.kind->Arrow_result, known, facts, next);
            lowered(constant, known, facts, next) == (Lowering {
                ty: SpecType::Function {
                    params: Seq::empty(),
                    result: Box::new(end.ty),
                    required: 0,
                },
                events: end.events,
                next: end.next,
            })
        }),
        ({
            let before = lowered(shorter, known, facts, next);
            let last = lowered(param, known, facts, before.next);
            let end = lowered(*longer.kind->Arrow_result, known, facts, last.next);
            let after = lowered(longer, known, facts, next);
            &&& after.ty == (SpecType::Function {
                params: before.ty->Tuple_0.push(last.ty),
                result: Box::new(end.ty),
                required: longer.kind->Arrow_params@.len(),
            })
            &&& after.events == before.events + last.events + end.events
            &&& after.next == end.next
        }),
{
    let params = longer.kind->Arrow_params@;
    lists_grow_item_by_item(shorter.kind->Tuple_0@, param, known, facts, next);
    assert(lowered(shorter, known, facts, next).ty == SpecType::Tuple(
        lowered_all(
            shorter.kind->Tuple_0@,
            known,
            facts,
            next,
            shorter.kind->Tuple_0@.len(),
        ).types,
    ));
    let list = lowered_all(constant.kind->Arrow_params@, known, facts, next, 0);
    assert(list.types == Seq::<SpecType>::empty());
    assert(list.events == Seq::<SpecEvent>::empty());
    let end = lowered(*constant.kind->Arrow_result, known, facts, next);
    assert(list.events + end.events =~= end.events);
}

/// A constructor with arguments comes to the application of what it comes to, to what its
/// arguments come to.
pub proof fn constructors_are_applied(
    shorter: Expr,
    longer: Expr,
    arg: Expr,
    known: Definitions,
    facts: AnnotationFacts,
    next: u32,
)
    requires
        shorter.kind is Tuple,
        longer.kind is Call,
        longer.kind->Call_args@ == shorter.kind->Tuple_0@.push(arg),
        longer.kind->Call_callee.kind is ComptimeName,
        known.known_types@.contains(longer.kind->Call_callee.kind->ComptimeName_0@),
        !crate::annotations::is_type_function(*longer.kind->Call_callee, facts),
    ensures
        ({
            let constructor = lowered(*longer.kind->Call_callee, known, facts, next);
            let before = lowered(shorter, known, facts, constructor.next);
            let last = lowered(arg, known, facts, before.next);
            let after = lowered(longer, known, facts, next);
            &&& after.ty == (SpecType::Apply {
                callee: Box::new(constructor.ty),
                args: before.ty->Tuple_0.push(last.ty),
            })
            &&& after.events == constructor.events + (before.events + last.events)
            &&& after.next == last.next
        }),
{
    let constructor = lowered(*longer.kind->Call_callee, known, facts, next);
    lists_grow_item_by_item(shorter.kind->Tuple_0@, arg, known, facts, constructor.next);
    assert(crate::annotations::is_constructor(*longer.kind->Call_callee, known));
    assert(lowered(shorter, known, facts, constructor.next).ty == SpecType::Tuple(
        lowered_all(
            shorter.kind->Tuple_0@,
            known,
            facts,
            constructor.next,
            shorter.kind->Tuple_0@.len(),
        ).types,
    ));
}

/// A literal and a tag come to closed variants that list them alone; a tag with annotations
/// holds what those come to.
pub proof fn literals_and_tags_are_variants(
    annotation: Expr,
    shorter: Expr,
    known: Definitions,
    facts: AnnotationFacts,
    next: u32,
)
    ensures
        ({
            let ty = lowered(annotation, known, facts, next).ty;
            let alone = |entry: SpecRowEntry| ty is Variant && ty->Variant_0.tail is Closed
                && ty->Variant_0.entries == seq![entry];
            &&& annotation.kind is Literal && !(annotation.kind->Literal_0 is Regex) ==> alone(
                SpecRowEntry::Literal { value: annotation.kind->Literal_0@ },
            )
            &&& annotation.kind is Tag ==> alone(
                SpecRowEntry::Tag { name: annotation.kind->Tag_0@, payload: Seq::empty() },
            )
            &&& annotation.kind is Call && annotation.kind->Call_callee.kind is Tag && shorter.kind
                is Tuple && shorter.kind->Tuple_0@ == annotation.kind->Call_args@ ==> alone(
                SpecRowEntry::Tag {
                    name: annotation.kind->Call_callee.kind->Tag_0@,
                    payload: lowered(shorter, known, facts, next).ty->Tuple_0,
                },
            )
        }),
{
    let tag = crate::annotations::tag_lowered(annotation, known, facts, next);
    let none = Seq::<SpecRowEntry>::empty();
    if tag.entry is Some {
        let entry = tag.entry->0;
        assert(none.push(entry) =~= seq![entry]);
        assert(crate::rows::label_position(none, crate::rows::label_of(entry), 0) is None);
        assert(crate::rows::first_kind(none, 0) is None);
    }
    if annotation.kind is Call && annotation.kind->Call_callee.kind is Tag && shorter.kind is Tuple
        && shorter.kind->Tuple_0@ == annotation.kind->Call_args@ {
        let args = shorter.kind->Tuple_0@;
        assert(lowered(shorter, known, facts, next).ty == SpecType::Tuple(
            lowered_all(args, known, facts, next, args.len()).types,
        ));
    }
}

proof fn more_entries_begin_the_same(
    shorter: Seq<RecordEntry>,
    entry: RecordEntry,
    kind: RowKind,
    known: Definitions,
    facts: AnnotationFacts,
    row: SpecRow,
    next: u32,
    count: nat,
)
    requires
        count <= shorter.len(),
    ensures
        folded_rows(shorter.push(entry), kind, known, facts, row, next, count) == folded_rows(
            shorter,
            kind,
            known,
            facts,
            row,
            next,
            count,
        ),
    decreases count,
{
    if count > 0 {
        more_entries_begin_the_same(
            shorter,
            entry,
            kind,
            known,
            facts,
            row,
            next,
            (count - 1) as nat,
        );
        assert(shorter.push(entry)[count - 1] == shorter[count - 1]);
    }
}

/// A record comes to the record of its fields: one more field, under a name that is not taken,
/// is one more field of the type that its annotation comes to.
pub proof fn records_come_to_their_fields(
    shorter: Expr,
    longer: Expr,
    empty: Expr,
    field: RecordEntry,
    known: Definitions,
    facts: AnnotationFacts,
    next: u32,
)
    requires
        shorter.kind is Record,
        longer.kind is Record,
        longer.kind->Record_0@ == shorter.kind->Record_0@.push(field),
        field is Field,
        !field->Field_overwrite,
        empty.kind is Record,
        empty.kind->Record_0@.len() == 0,
    ensures
        lowered(empty, known, facts, next).ty == SpecType::Record(
            SpecRow { entries: Seq::empty(), tail: crate::types::RowTail::Closed },
        ),
        ({
            let before = lowered(shorter, known, facts, next);
            let last = lowered(*field->Field_value, known, facts, before.next);
            let after = lowered(longer, known, facts, next);
            let row = before.ty->Record_0;
            let name = field->Field_name@;
            &&& before.ty is Record && !is_labelled(row.entries, name) ==> after.ty
                == SpecType::Record(
                SpecRow {
                    entries: row.entries.push(SpecRowEntry::Field { name, ty: last.ty }),
                    tail: row.tail,
                },
            )
            &&& before.ty is Record && is_labelled(row.entries, name) ==> after.ty is Deferred
            &&& before.ty is Deferred ==> after.ty is Deferred
        }),
{
    let entries = shorter.kind->Record_0@;
    let more = longer.kind->Record_0@;
    let none = crate::annotations::empty_row();
    let kind = RowKind::Record;
    more_entries_begin_the_same(entries, field, kind, known, facts, none, next, entries.len());
    assert(more[entries.len() as int] == field);
    let before = folded_rows(entries, kind, known, facts, none, next, entries.len());
    let after = folded_rows(more, kind, known, facts, none, next, more.len());
    assert(folded_rows(more, kind, known, facts, none, next, entries.len()) == before);
    if let Some(row) = before.row {
        let last = lowered(*field->Field_value, known, facts, before.next);
        let entry = SpecRowEntry::Field { name: field->Field_name@, ty: last.ty };
        crate::row_laws::adding_keeps_what_is_there(
            row,
            entry,
            crate::row_edits::DuplicateRowLabelContext::RecordAdd,
            known.map(),
            last.next,
        );
        let step = crate::annotations::folded_entry(
            field,
            kind,
            known,
            facts,
            row,
            before.next,
        );
        assert(after.row == step.row);
        assert(!is_labelled(row.entries, field->Field_name@) ==> step.row == Some(
            SpecRow { entries: row.entries.push(entry), tail: row.tail },
        ));
    }
    assert(folded_rows(empty.kind->Record_0@, kind, known, facts, none, next, 0).row == Some(none));
}

/// A variant comes to the variant of its tags: one more tag, under a name that is not taken, is
/// one more tag.
pub proof fn variants_come_to_their_tags(
    shorter: Expr,
    longer: Expr,
    tag: Expr,
    known: Definitions,
    facts: AnnotationFacts,
    next: u32,
)
    requires
        shorter.kind is SetLiteral,
        longer.kind is SetLiteral,
        longer.kind->SetLiteral_0@ == shorter.kind->SetLiteral_0@.push(
            RecordEntry::Element(Box::new(tag)),
        ),
        tag.kind is Tag,
    ensures
        ({
            let before = lowered(shorter, known, facts, next);
            let after = lowered(longer, known, facts, next);
            let row = before.ty->Variant_0;
            let name = tag.kind->Tag_0@;
            &&& before.ty is Variant && !is_labelled(row.entries, name) && (row.entries.len() == 0
                || row.entries[0] is Tag) ==> after.ty == SpecType::Variant(
                SpecRow {
                    entries: row.entries.push(
                        SpecRowEntry::Tag { name, payload: Seq::empty() },
                    ),
                    tail: row.tail,
                },
            )
            &&& before.ty is Variant && is_labelled(row.entries, name) ==> after.ty is Deferred
        }),
{
    let entries = shorter.kind->SetLiteral_0@;
    let more = longer.kind->SetLiteral_0@;
    let none = crate::annotations::empty_row();
    let kind = RowKind::Variant;
    let element = RecordEntry::Element(Box::new(tag));
    more_entries_begin_the_same(entries, element, kind, known, facts, none, next, entries.len());
    assert(more[entries.len() as int] == element);
    let before = folded_rows(entries, kind, known, facts, none, next, entries.len());
    let after = folded_rows(more, kind, known, facts, none, next, more.len());
    assert(folded_rows(more, kind, known, facts, none, next, entries.len()) == before);
    if let Some(row) = before.row {
        let entry = SpecRowEntry::Tag { name: tag.kind->Tag_0@, payload: Seq::empty() };
        crate::row_laws::adding_keeps_what_is_there(
            row,
            entry,
            crate::row_edits::DuplicateRowLabelContext::VariantAdd,
            known.map(),
            before.next,
        );
        if row.entries.len() > 0 {
            crate::row_laws::variants_are_not_mixed(row, entry, known.map(), before.next);
        } else {
            assert(crate::rows::first_kind(row.entries, 0) is None);
        }
        let step = crate::annotations::folded_entry(
            element,
            kind,
            known,
            facts,
            row,
            before.next,
        );
        assert(after.row == step.row);
    }
}

} // verus!
