//! Record values that are written entry by entry.
use crate::collections::StringMap;
use crate::row_edits::{
    edited, fold_row_entry, row_issues_view, RowEdit, RowIssue, RowOutcome, SpecOutcome,
    spread, RowKind, SpecRowEdit, SpecRowIssue, TailMerge,
};
use crate::comparison::pairs_view;
use crate::normalize::normal_form;
use crate::rows::{field_type, label_of, label_position};
use crate::type_ops::type_map_view;
use crate::types::{entries_view, Row, RowTail, SpecRow, SpecRowEntry, SpecType, Type};
use vstd::prelude::*;

verus! {

/// What an entry does to a row.
#[derive(Debug)]
pub enum EntryEffect {
    /// It is not known what the entry does.
    Refuse,
    /// The entry adds nothing.
    Skip,
    /// The entry takes a step. `fresh` is the unknown tail that a merging of two unknown
    /// tails has.
    Edit { edit: RowEdit, fresh: u32 },
}

/// What an entry does to a row.
pub ghost enum SpecEffect {
    Refuse,
    Skip,
    Edit { edit: SpecRowEdit, fresh: u32 },
}

impl EntryEffect {
    pub open spec fn view(&self) -> SpecEffect {
        match self {
            EntryEffect::Refuse => SpecEffect::Refuse,
            EntryEffect::Skip => SpecEffect::Skip,
            EntryEffect::Edit { edit, fresh } => SpecEffect::Edit { edit: edit@, fresh: *fresh },
        }
    }
}

pub open spec fn effects_view(effects: Seq<EntryEffect>) -> Seq<SpecEffect> {
    Seq::new(effects.len(), |i: int| effects[i]@)
}

/// The row that entries write, as far as they were looked at.
pub ghost enum RowState {
    Row(SpecRow),
    /// An entry could not be taken: nothing is known of the row.
    Stopped { entry: nat, issues: Seq<SpecRowIssue> },
}

/// The row without entries.
pub open spec fn empty_row() -> SpecRow {
    SpecRow { entries: Seq::empty(), tail: RowTail::Closed }
}

/// The row after the first entries. Nothing is added after an entry that could not be
/// taken.
pub open spec fn row_after(
    effects: Seq<SpecEffect>,
    definitions: Map<Seq<char>, SpecType>,
    count: nat,
) -> RowState
    decreases count,
{
    if count == 0 || count > effects.len() {
        RowState::Row(empty_row())
    } else {
        match row_after(effects, definitions, (count - 1) as nat) {
            RowState::Row(row) => match effects[count - 1] {
                SpecEffect::Refuse => RowState::Stopped {
                    entry: (count - 1) as nat,
                    issues: Seq::empty(),
                },
                SpecEffect::Skip => RowState::Row(row),
                SpecEffect::Edit { edit, fresh } => {
                    let outcome = edited(row, edit, definitions, fresh);
                    match outcome.row {
                        Some(row) => RowState::Row(row),
                        None => RowState::Stopped {
                            entry: (count - 1) as nat,
                            issues: outcome.issues,
                        },
                    }
                },
            },
            stopped => stopped,
        }
    }
}

proof fn stopped_rows_stay(
    effects: Seq<SpecEffect>,
    definitions: Map<Seq<char>, SpecType>,
    few: nat,
    many: nat,
)
    requires
        few <= many <= effects.len(),
        row_after(effects, definitions, few) is Stopped,
    ensures
        row_after(effects, definitions, many) == row_after(effects, definitions, few),
    decreases many,
{
    if few < many {
        stopped_rows_stay(effects, definitions, few, (many - 1) as nat);
    }
}

/// What comes of an entry, if it takes a step: nothing is done after an entry that could not
/// be taken.
pub open spec fn step_at(
    effects: Seq<SpecEffect>,
    definitions: Map<Seq<char>, SpecType>,
    entry: int,
) -> Option<SpecOutcome> {
    match (row_after(effects, definitions, entry as nat), effects[entry]) {
        (RowState::Row(row), SpecEffect::Edit { edit, fresh }) => Some(
            edited(row, edit, definitions, fresh),
        ),
        _ => None,
    }
}

/// The comparisons that an entry calls for: the entry, what the field has, and what is put
/// there.
pub open spec fn goals_of(entry: int, goals: Seq<(SpecType, SpecType)>) -> Seq<
    (int, SpecType, SpecType),
> {
    goals.map_values(|goal: (SpecType, SpecType)| (entry, goal.0, goal.1))
}

/// The comparisons that the first entries call for, in order. An entry that could not be
/// taken counts with what it got to.
pub open spec fn goals_after(
    effects: Seq<SpecEffect>,
    definitions: Map<Seq<char>, SpecType>,
    count: nat,
) -> Seq<(int, SpecType, SpecType)>
    decreases count,
{
    if count == 0 || count > effects.len() {
        Seq::empty()
    } else {
        let earlier = goals_after(effects, definitions, (count - 1) as nat);
        match step_at(effects, definitions, count - 1) {
            Some(outcome) => earlier + goals_of(count - 1, outcome.goals),
            None => earlier,
        }
    }
}

/// The mergings of tails that the first entries call for, each with its entry, in order.
pub open spec fn merges_after(
    effects: Seq<SpecEffect>,
    definitions: Map<Seq<char>, SpecType>,
    count: nat,
) -> Seq<(int, TailMerge)>
    decreases count,
{
    if count == 0 || count > effects.len() {
        Seq::empty()
    } else {
        let earlier = merges_after(effects, definitions, (count - 1) as nat);
        match step_at(effects, definitions, count - 1) {
            Some(outcome) => match outcome.merged_tails {
                Some(merge) => earlier.push((count - 1, merge)),
                None => earlier,
            },
            None => earlier,
        }
    }
}

proof fn nothing_is_done_after_a_stop(
    effects: Seq<SpecEffect>,
    definitions: Map<Seq<char>, SpecType>,
    few: nat,
    many: nat,
)
    requires
        few <= many <= effects.len(),
        row_after(effects, definitions, few) is Stopped,
    ensures
        goals_after(effects, definitions, many) == goals_after(effects, definitions, few),
        merges_after(effects, definitions, many) == merges_after(effects, definitions, few),
    decreases many,
{
    if few < many {
        nothing_is_done_after_a_stop(effects, definitions, few, (many - 1) as nat);
        stopped_rows_stay(effects, definitions, few, (many - 1) as nat);
    }
}

/// The type of a record value, and the entry that could not be taken, if one could not.
/// The entries after it are only looked at.
#[derive(Debug)]
pub struct RecordInference {
    pub ty: Type,
    pub stopped: Option<usize>,
    pub issues: Vec<RowIssue>,
    /// Types that must be compared, each pair with its entry: the type that a field has, and
    /// the one that a spread may put in its place.
    pub goals: Vec<(usize, Type, Type)>,
    /// The tails that stand for the mergings of others, each with its entry.
    pub merges: Vec<(usize, TailMerge)>,
}

pub open spec fn goals_view(goals: Seq<(usize, Type, Type)>) -> Seq<(int, SpecType, SpecType)> {
    Seq::new(goals.len(), |i: int| (goals[i].0 as int, goals[i].1@, goals[i].2@))
}

pub open spec fn merges_view(merges: Seq<(usize, TailMerge)>) -> Seq<(int, TailMerge)> {
    Seq::new(merges.len(), |i: int| (merges[i].0 as int, merges[i].1))
}

fn note_goals(
    noted: &mut Vec<(usize, Type, Type)>,
    entry: usize,
    goals: Vec<(Type, Type)>,
)
    ensures
        goals_view(final(noted)@) == goals_view(old(noted)@) + goals_of(
            entry as int,
            pairs_view(goals@),
        ),
{
    let ghost before = goals_view(noted@);
    let ghost all = goals_of(entry as int, pairs_view(goals@));
    let ghost given = goals@;
    let mut rest = goals;
    let total: usize = rest.len();
    let mut index: usize = 0;
    assert(goals_view(noted@) =~= before + all.take(0));
    while index < total
        invariant
            index <= total,
            total == given.len(),
            all == goals_of(entry as int, pairs_view(given)),
            rest@ == given.skip(index as int),
            goals_view(noted@) == before + all.take(index as int),
        decreases total - index,
    {
        let ghost earlier = goals_view(noted@);
        let (base, put) = rest.remove(0);
        assert((base, put) == given[index as int]);
        assert(rest@ =~= given.skip(index + 1));
        noted.push((entry, base, put));
        assert(goals_view(noted@) =~= earlier.push((entry as int, base@, put@)));
        assert(all[index as int] == (entry as int, base@, put@));
        assert(goals_view(noted@) =~= before + all.take(index + 1));
        index += 1;
    }
    assert(all.take(total as int) =~= all);
}

fn note_merge(noted: &mut Vec<(usize, TailMerge)>, entry: usize, merge: Option<TailMerge>)
    ensures
        merges_view(final(noted)@) == (match merge {
            Some(merge) => merges_view(old(noted)@).push((entry as int, merge)),
            None => merges_view(old(noted)@),
        }),
{
    let ghost before = merges_view(noted@);
    if let Some(merge) = merge {
        noted.push((entry, merge));
        assert(merges_view(noted@) =~= before.push((entry as int, merge)));
    }
}

/// Find the type of a record value from what its entries do, and what its spreads call for.
pub fn infer_record_entries(effects: Vec<EntryEffect>, definitions: &StringMap<Type>) -> (inferred:
    RecordInference)
    ensures
        match row_after(effects_view(effects@), type_map_view(definitions@), effects@.len()) {
            RowState::Row(row) => inferred.ty@ == SpecType::Record(row) && inferred.stopped is None
                && inferred.issues@.len() == 0,
            RowState::Stopped { entry, issues } => inferred.ty@ is Deferred && inferred.stopped
                == Some(entry as usize) && row_issues_view(inferred.issues@) == issues,
        },
        goals_view(inferred.goals@) == goals_after(
            effects_view(effects@),
            type_map_view(definitions@),
            effects@.len(),
        ),
        merges_view(inferred.merges@) == merges_after(
            effects_view(effects@),
            type_map_view(definitions@),
            effects@.len(),
        ),
{
    let ghost all = effects_view(effects@);
    let ghost known = type_map_view(definitions@);
    let mut rest = effects;
    let mut row = Row { entries: Vec::new(), tail: RowTail::Closed };
    let mut noted_goals: Vec<(usize, Type, Type)> = Vec::new();
    let mut merges: Vec<(usize, TailMerge)> = Vec::new();
    let mut index: usize = 0;
    assert(row@.entries == entries_view(row.entries@));
    assert(row@.tail == RowTail::Closed);
    assert(row@.entries =~= Seq::empty());
    assert(goals_view(noted_goals@) =~= Seq::empty());
    assert(merges_view(merges@) =~= Seq::empty());
    let total: usize = rest.len();
    while index < total
        invariant
            index <= total,
            total == effects@.len(),
            all == effects_view(effects@),
            known == type_map_view(definitions@),
            rest@ == effects@.skip(index as int),
            row_after(all, known, index as nat) == RowState::Row(row@),
            goals_view(noted_goals@) == goals_after(all, known, index as nat),
            merges_view(merges@) == merges_after(all, known, index as nat),
        decreases total - index,
    {
        let effect = rest.remove(0);
        assert(effect@ == all[index as int]);
        assert(rest@ =~= effects@.skip(index + 1));
        match effect {
            EntryEffect::Refuse => {
                proof {
                    stopped_rows_stay(all, known, (index + 1) as nat, all.len());
                    nothing_is_done_after_a_stop(all, known, (index + 1) as nat, all.len());
                }
                let issues: Vec<RowIssue> = Vec::new();
                assert(row_issues_view(issues@) =~= Seq::empty());
                return RecordInference {
                    ty: Type::Deferred,
                    stopped: Some(index),
                    issues,
                    goals: noted_goals,
                    merges,
                };
            },
            EntryEffect::Skip => {},
            EntryEffect::Edit { edit, fresh } => {
                let RowOutcome { row: after, issues, goals, merged_tails } = fold_row_entry(
                    row,
                    edit,
                    definitions,
                    fresh,
                );
                note_goals(&mut noted_goals, index, goals);
                note_merge(&mut merges, index, merged_tails);
                match after {
                    Some(next) => {
                        row = next;
                    },
                    None => {
                        proof {
                            stopped_rows_stay(all, known, (index + 1) as nat, all.len());
                            nothing_is_done_after_a_stop(
                                all,
                                known,
                                (index + 1) as nat,
                                all.len(),
                            );
                        }
                        return RecordInference {
                            ty: Type::Deferred,
                            stopped: Some(index),
                            issues,
                            goals: noted_goals,
                            merges,
                        };
                    },
                }
            },
        }
        index += 1;
    }
    RecordInference {
        ty: Type::Record(row),
        stopped: None,
        issues: Vec::new(),
        goals: noted_goals,
        merges,
    }
}

/// Entries after the first one that could not be taken change nothing, and call for nothing.
pub proof fn later_entries_change_nothing(
    effects: Seq<SpecEffect>,
    definitions: Map<Seq<char>, SpecType>,
    count: nat,
)
    requires
        count <= effects.len(),
        row_after(effects, definitions, count) is Stopped,
    ensures
        row_after(effects, definitions, effects.len()) == row_after(effects, definitions, count),
        goals_after(effects, definitions, effects.len()) == goals_after(
            effects,
            definitions,
            count,
        ),
        merges_after(effects, definitions, effects.len()) == merges_after(
            effects,
            definitions,
            count,
        ),
{
    stopped_rows_stay(effects, definitions, count, effects.len());
    nothing_is_done_after_a_stop(effects, definitions, count, effects.len());
}

/// A spread of a field that may be left out over a field that is there keeps the field, and
/// calls for a comparison of the two types.
pub proof fn optional_patches_are_compared(
    effects: Seq<SpecEffect>,
    definitions: Map<Seq<char>, SpecType>,
    entry: int,
    row: SpecRow,
    name: Seq<char>,
    patch: SpecType,
    overwrite: bool,
    fresh: u32,
)
    requires
        0 <= entry < effects.len(),
        row_after(effects, definitions, entry as nat) == RowState::Row(row),
        field_type(row, name) is Some,
        normal_form(patch, definitions) is Optional,
        effects[entry] == (SpecEffect::Edit {
            edit: SpecRowEdit::Merge {
                source: SpecRow {
                    entries: seq![SpecRowEntry::Field { name, ty: patch }],
                    tail: RowTail::Closed,
                },
                overwrite,
                kind: RowKind::Record,
            },
            fresh,
        }),
    ensures
        row_after(effects, definitions, (entry + 1) as nat) == RowState::Row(row),
        goals_after(effects, definitions, (entry + 1) as nat) == goals_after(
            effects,
            definitions,
            entry as nat,
        ).push((entry, field_type(row, name)->0, *normal_form(patch, definitions)->Optional_0)),
{
    let source = seq![SpecRowEntry::Field { name, ty: patch }];
    reveal_with_fuel(spread, 2);
    let index = label_position(row.entries, name, 0)->0;
    let base = field_type(row, name)->0;
    let put = *normal_form(patch, definitions)->Optional_0;
    assert(label_of(source[0]) == name);
    assert(row.entries[index] is Field);
    let spreading = spread(
        row.entries,
        source,
        overwrite,
        RowKind::Record,
        definitions,
        1,
    );
    assert(spreading is Going);
    assert(spreading->Going_goals =~= seq![(base, put)]);
    assert(goals_of(entry, seq![(base, put)]) =~= seq![(entry, base, put)]);
}

} // verus!
