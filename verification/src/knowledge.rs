//! What is known of the values of expressions, beside their types.
use crate::collections::{StringMap, StringSet};
use crate::span::Span;
use crate::syntax::{ungroup_expr, ungrouped, Expr, ExprKind};
use crate::type_ops::{base_of, literal_base, literal_variant_base, row_base};
use crate::types::{
    Literal, Row, RowEntry, RowTail, SpecLiteral, SpecRow, SpecRowEntry, SpecType, Type,
};
use vstd::prelude::*;

verus! {

// ---------------------------------------------------------------------------
// Values
// ---------------------------------------------------------------------------
/// A value that an evaluation came to. Numbers and texts come with the way in
/// which the evaluation writes them.
#[derive(Debug)]
pub enum EvaluatedValue {
    Number(String),
    Text(String),
    Bool(bool),
    Undefined,
    Null,
    /// Any other value: a collection, a tag, a function, a value of a family.
    Other,
}

/// What is known of a value.
#[derive(Debug)]
pub enum Known {
    Number(String),
    Text(String),
    Bool(bool),
    Undefined,
    Null,
}

/// What is known of a value.
pub ghost enum SpecKnown {
    Number(Seq<char>),
    Text(Seq<char>),
    Bool(bool),
    Undefined,
    Null,
}

pub open spec fn known_view(known: Option<Known>) -> Option<SpecKnown> {
    match known {
        Some(known) => Some(known@),
        None => None,
    }
}

/// What can be known of a value: a scalar or an empty value itself, nothing of
/// any other.
pub open spec fn transportable(value: EvaluatedValue) -> Option<SpecKnown> {
    match value {
        EvaluatedValue::Number(text) => Some(SpecKnown::Number(text@)),
        EvaluatedValue::Text(text) => Some(SpecKnown::Text(text@)),
        EvaluatedValue::Bool(value) => Some(SpecKnown::Bool(value)),
        EvaluatedValue::Undefined => Some(SpecKnown::Undefined),
        EvaluatedValue::Null => Some(SpecKnown::Null),
        EvaluatedValue::Other => None,
    }
}

/// The literal that a known value is written as. Empty values have none.
pub open spec fn literal_of(known: SpecKnown) -> Option<SpecLiteral> {
    match known {
        SpecKnown::Bool(value) => Some(SpecLiteral::Bool(value)),
        SpecKnown::Number(text) => Some(SpecLiteral::Number(text)),
        SpecKnown::Text(text) => Some(SpecLiteral::String(text)),
        SpecKnown::Undefined => None,
        SpecKnown::Null => None,
    }
}

impl Clone for Known {
    fn clone(&self) -> (copied: Self)
        ensures
            copied@ == self@,
    {
        match self {
            Known::Number(text) => Known::Number(text.clone()),
            Known::Text(text) => Known::Text(text.clone()),
            Known::Bool(value) => Known::Bool(*value),
            Known::Undefined => Known::Undefined,
            Known::Null => Known::Null,
        }
    }
}

impl Known {
    pub open spec fn view(&self) -> SpecKnown {
        match self {
            Known::Number(text) => SpecKnown::Number(text@),
            Known::Text(text) => SpecKnown::Text(text@),
            Known::Bool(value) => SpecKnown::Bool(*value),
            Known::Undefined => SpecKnown::Undefined,
            Known::Null => SpecKnown::Null,
        }
    }

    /// What can be known of a value.
    pub fn from_value(value: &EvaluatedValue) -> (known: Option<Self>)
        ensures
            known_view(known) == transportable(*value),
    {
        match value {
            EvaluatedValue::Number(text) => Some(Known::Number(text.clone())),
            EvaluatedValue::Text(text) => Some(Known::Text(text.clone())),
            EvaluatedValue::Bool(value) => Some(Known::Bool(*value)),
            EvaluatedValue::Undefined => Some(Known::Undefined),
            EvaluatedValue::Null => Some(Known::Null),
            EvaluatedValue::Other => None,
        }
    }

    /// The literal that the value is written as.
    pub fn literal(&self) -> (literal: Option<Literal>)
        ensures
            match literal {
                Some(literal) => literal_of(self@) == Some(literal@),
                None => literal_of(self@) is None,
            },
    {
        match self {
            Known::Bool(value) => Some(Literal::Bool(*value)),
            Known::Number(text) => Some(Literal::Number(text.clone())),
            Known::Text(text) => Some(Literal::String(text.clone())),
            Known::Undefined => None,
            Known::Null => None,
        }
    }
}

// ---------------------------------------------------------------------------
// When something is known
// ---------------------------------------------------------------------------
/// When an expression is evaluated.
#[derive(Debug, Clone, Copy, PartialEq, Eq, Structural)]
pub enum ExecutionContext {
    /// While a module starts, at a place in its text.
    RuntimeKnown(usize),
    /// Later, at a time that is not known.
    RuntimeUnknown,
    /// While types are made.
    Artifact,
}

/// Whether what was found in one context can be used in another: what an earlier
/// place of a module came to is there at a later one.
pub open spec fn is_readable(origin: ExecutionContext, reading: ExecutionContext) -> bool {
    match (origin, reading) {
        (
            ExecutionContext::RuntimeKnown(written),
            ExecutionContext::RuntimeKnown(place),
        ) => written <= place,
        _ => origin == reading,
    }
}

/// Whether what was found in one context can be used in another.
pub fn knowledge_is_in_scope(origin: ExecutionContext, reading: ExecutionContext) -> (readable: bool)
    ensures
        readable == is_readable(origin, reading),
{
    match (origin, reading) {
        (
            ExecutionContext::RuntimeKnown(written),
            ExecutionContext::RuntimeKnown(place),
        ) => written <= place,
        _ => origin == reading,
    }
}

/// Something that is known, with the context in which it was found.
#[derive(Debug)]
pub struct Proof {
    pub origin: ExecutionContext,
    pub known: Known,
}

/// Something that is known, with the context in which it was found.
pub ghost struct SpecProof {
    pub origin: ExecutionContext,
    pub known: SpecKnown,
}

impl Proof {
    pub open spec fn view(&self) -> SpecProof {
        SpecProof { origin: self.origin, known: self.known@ }
    }
}

pub open spec fn proof_view(found: Option<Proof>) -> Option<SpecProof> {
    match found {
        Some(found) => Some(found@),
        None => None,
    }
}

/// What a proof says in a context.
pub open spec fn readable_known(found: Option<SpecProof>, reading: ExecutionContext) -> Option<
    SpecKnown,
> {
    match found {
        Some(found) => if is_readable(found.origin, reading) {
            Some(found.known)
        } else {
            None
        },
        None => None,
    }
}

pub open spec fn proofs_view(proofs: Map<Seq<char>, Proof>) -> Map<Seq<char>, SpecProof> {
    Map::new(|name: Seq<char>| proofs.contains_key(name), |name: Seq<char>| proofs[name]@)
}

pub open spec fn masks_view(proofs: Map<Seq<char>, Option<Proof>>) -> Map<
    Seq<char>,
    Option<SpecProof>,
> {
    Map::new(
        |name: Seq<char>| proofs.contains_key(name),
        |name: Seq<char>| proof_view(proofs[name]),
    )
}

pub open spec fn scopes_view(scopes: Seq<StringMap<Option<Proof>>>) -> Seq<
    Map<Seq<char>, Option<SpecProof>>,
> {
    Seq::new(scopes.len(), |i: int| masks_view(scopes[i]@))
}

/// What the nearest binding of a name says: a proof, or that there is none.
pub open spec fn nearest(scopes: Seq<Map<Seq<char>, Option<SpecProof>>>, name: Seq<char>) -> Option<
    Option<SpecProof>,
>
    decreases scopes.len(),
{
    if scopes.len() == 0 {
        None
    } else if scopes.last().contains_key(name) {
        Some(scopes.last()[name])
    } else {
        nearest(scopes.drop_last(), name)
    }
}

/// Something known of the expression at a place in a context.
#[derive(Debug)]
pub struct PlacedKnown {
    pub span: Span,
    pub context: ExecutionContext,
    pub known: Known,
}

pub open spec fn placed_known_view(placed: Seq<PlacedKnown>) -> Seq<
    ((Span, ExecutionContext), SpecKnown),
> {
    Seq::new(placed.len(), |i: int| ((placed[i].span, placed[i].context), placed[i].known@))
}

/// What was found last about a place in a context.
pub open spec fn last_known(
    placed: Seq<((Span, ExecutionContext), SpecKnown)>,
    place: (Span, ExecutionContext),
) -> Option<SpecKnown>
    decreases placed.len(),
{
    if placed.len() == 0 {
        None
    } else if placed.last().0 == place {
        Some(placed.last().1)
    } else {
        last_known(placed.drop_last(), place)
    }
}

/// All that is known of a module.
#[derive(Debug)]
pub struct Knowledge {
    /// What is known of expressions, by their places.
    pub placed: Vec<PlacedKnown>,
    /// What is known of the names of the module.
    pub bindings: StringMap<Proof>,
    /// What is known of local names, innermost scope last.
    pub scopes: Vec<StringMap<Option<Proof>>>,
    /// The context of the expression that is looked at.
    pub context: ExecutionContext,
    /// How many bodies that are written in another source the expression that is
    /// looked at stands in.
    pub foreign_body_depth: usize,
}

/// All that is known of a module.
pub ghost struct SpecKnowledge {
    pub placed: Seq<((Span, ExecutionContext), SpecKnown)>,
    pub bindings: Map<Seq<char>, SpecProof>,
    pub scopes: Seq<Map<Seq<char>, Option<SpecProof>>>,
    pub context: ExecutionContext,
    pub foreign_body_depth: nat,
}

/// What is known of a name: the nearest local binding decides, even where it says
/// nothing.
pub open spec fn known_name(knowledge: SpecKnowledge, name: Seq<char>) -> Option<SpecKnown> {
    match nearest(knowledge.scopes, name) {
        Some(local) => readable_known(local, knowledge.context),
        None => if knowledge.bindings.contains_key(name) {
            readable_known(Some(knowledge.bindings[name]), knowledge.context)
        } else {
            None
        },
    }
}

/// What is known of an expression.
pub open spec fn known_expression(knowledge: SpecKnowledge, expr: Expr) -> Option<SpecKnown> {
    let inner = ungrouped(expr);
    match last_known(knowledge.placed, (inner.span, knowledge.context)) {
        Some(known) => Some(known),
        None => match inner.kind {
            ExprKind::Name(name) => known_name(knowledge, name@),
            ExprKind::ComptimeName(name) => known_name(knowledge, name@),
            _ => None,
        },
    }
}

fn readable(found: &Proof, reading: ExecutionContext) -> (known: Option<Known>)
    ensures
        known_view(known) == readable_known(Some(found@), reading),
{
    if knowledge_is_in_scope(found.origin, reading) {
        Some(found.known.clone())
    } else {
        None
    }
}

impl Knowledge {
    pub open spec fn view(&self) -> SpecKnowledge {
        SpecKnowledge {
            placed: placed_known_view(self.placed@),
            bindings: proofs_view(self.bindings@),
            scopes: scopes_view(self.scopes@),
            context: self.context,
            foreign_body_depth: self.foreign_body_depth as nat,
        }
    }

    /// Nothing known.
    pub fn new(context: ExecutionContext) -> (knowledge: Self)
        ensures
            knowledge@ == (SpecKnowledge {
                placed: Seq::empty(),
                bindings: Map::empty(),
                scopes: Seq::empty(),
                context,
                foreign_body_depth: 0,
            }),
    {
        let knowledge = Knowledge {
            placed: Vec::new(),
            bindings: StringMap::new(),
            scopes: Vec::new(),
            context,
            foreign_body_depth: 0,
        };
        assert(knowledge@.placed =~= Seq::empty());
        assert(knowledge@.bindings =~= Map::empty());
        assert(knowledge@.scopes =~= Seq::empty());
        knowledge
    }

    /// Record what is known of the expression at a place. Places of another source
    /// are not recorded: its offsets are not those of this one.
    pub fn record_known(&mut self, span: Span, known: Known)
        ensures
            final(self)@ == (if span.start >= span.end || old(self)@.foreign_body_depth > 0 {
                old(self)@
            } else {
                SpecKnowledge {
                    placed: old(self)@.placed.push(((span, old(self)@.context), known@)),
                    ..old(self)@
                }
            }),
    {
        if span.start >= span.end || self.foreign_body_depth > 0 {
            return;
        }
        let ghost before = self@;
        self.placed.push(PlacedKnown { span, context: self.context, known });
        assert(self@.placed =~= before.placed.push(((span, before.context), known@)));
    }

    /// Turn to a body that is written in another source.
    pub fn enter_foreign_body(&mut self)
        requires
            old(self)@.foreign_body_depth < usize::MAX,
        ensures
            final(self)@ == (SpecKnowledge {
                foreign_body_depth: old(self)@.foreign_body_depth + 1,
                ..old(self)@
            }),
    {
        self.foreign_body_depth += 1;
    }

    /// Turn back from a body that is written in another source.
    pub fn leave_foreign_body(&mut self)
        requires
            old(self)@.foreign_body_depth > 0,
        ensures
            final(self)@ == (SpecKnowledge {
                foreign_body_depth: (old(self)@.foreign_body_depth - 1) as nat,
                ..old(self)@
            }),
    {
        self.foreign_body_depth -= 1;
    }

    /// Record what is known of a name of the module.
    pub fn record_module_binding_knowledge(&mut self, name: &str, known: Known)
        ensures
            final(self)@ == (SpecKnowledge {
                bindings: old(self)@.bindings.insert(
                    name@,
                    SpecProof { origin: old(self)@.context, known: known@ },
                ),
                ..old(self)@
            }),
    {
        let ghost before = self@;
        self.bindings.insert(name.to_owned(), Proof { origin: self.context, known });
        assert(self@.bindings =~= before.bindings.insert(
            name@,
            SpecProof { origin: before.context, known: known@ },
        ));
    }

    /// Open a scope of local names.
    pub fn push_scope(&mut self)
        ensures
            final(self)@ == (SpecKnowledge {
                scopes: old(self)@.scopes.push(Map::empty()),
                ..old(self)@
            }),
    {
        let ghost before = self@;
        let scope: StringMap<Option<Proof>> = StringMap::new();
        assert(masks_view(scope@) =~= Map::empty());
        self.scopes.push(scope);
        assert(self@.scopes =~= before.scopes.push(Map::empty()));
    }

    /// Close the innermost scope.
    pub fn pop_scope(&mut self)
        ensures
            final(self)@ == (SpecKnowledge {
                scopes: if old(self)@.scopes.len() == 0 {
                    old(self)@.scopes
                } else {
                    old(self)@.scopes.drop_last()
                },
                ..old(self)@
            }),
    {
        let ghost before = self@;
        assert(before.scopes.len() == self.scopes.len());
        let popped = self.scopes.pop();
        if popped.is_some() {
            assert(self@.scopes =~= before.scopes.drop_last());
        } else {
            assert(self@.scopes =~= before.scopes);
        }
    }

    fn local_proof(&self, name: &str) -> (found: Option<Option<&Proof>>)
        ensures
            match found {
                Some(found) => nearest(self@.scopes, name@) == Some(
                    match found {
                        Some(found) => Some(found@),
                        None => None,
                    },
                ),
                None => nearest(self@.scopes, name@) is None,
            },
    {
        let ghost all = self@.scopes;
        let mut index: usize = self.scopes.len();
        assert(all.take(all.len() as int) =~= all);
        while index > 0
            invariant
                index <= self.scopes.len(),
                all == scopes_view(self.scopes@),
                all == self@.scopes,
                nearest(all, name@) == nearest(all.take(index as int), name@),
            decreases index,
        {
            index -= 1;
            proof {
                let longer = all.take(index + 1);
                assert(longer.drop_last() =~= all.take(index as int));
                assert(longer.last() == masks_view(self.scopes@[index as int]@));
            }
            match self.scopes[index].get(name) {
                Some(local) => {
                    return match local {
                        Some(found) => Some(Some(found)),
                        None => Some(None),
                    };
                },
                None => {},
            }
        }
        None
    }

    /// What is known of an expression. Nothing is found out here: something is
    /// known because it was asked for before.
    pub fn known_for_expression(&self, expr: &Expr) -> (known: Option<Known>)
        ensures
            known_view(known) == known_expression(self@, *expr),
    {
        let inner = ungroup_expr(expr);
        let ghost all = self@.placed;
        let ghost place = (inner.span, self.context);
        let mut index: usize = self.placed.len();
        assert(all.take(all.len() as int) =~= all);
        while index > 0
            invariant
                index <= self.placed.len(),
                *inner == ungrouped(*expr),
                place == (inner.span, self.context),
                all == placed_known_view(self.placed@),
                all == self@.placed,
                last_known(all, place) == last_known(all.take(index as int), place),
            decreases index,
        {
            index -= 1;
            proof {
                let longer = all.take(index + 1);
                assert(longer.drop_last() =~= all.take(index as int));
                assert(longer.last() == (
                    (self.placed@[index as int].span, self.placed@[index as int].context),
                    self.placed@[index as int].known@,
                ));
            }
            if self.placed[index].span == inner.span && self.placed[index].context
                == self.context {
                return Some(self.placed[index].known.clone());
            }
        }
        let name = match &inner.kind {
            ExprKind::Name(name) => name.as_str(),
            ExprKind::ComptimeName(name) => name.as_str(),
            _ => {
                return None;
            },
        };
        match self.local_proof(name) {
            Some(Some(found)) => {
                return readable(found, self.context);
            },
            Some(None) => {
                return None;
            },
            None => {},
        }
        match self.bindings.get(name) {
            Some(found) => readable(found, self.context),
            None => None,
        }
    }

    /// Carry what is known of a value to the name of the module that it is bound
    /// to.
    pub fn propagate_module_binding_knowledge(&mut self, name: &str, value: &Expr)
        ensures
            final(self)@ == (match known_expression(old(self)@, *value) {
                Some(known) => SpecKnowledge {
                    bindings: old(self)@.bindings.insert(
                        name@,
                        SpecProof { origin: old(self)@.context, known },
                    ),
                    ..old(self)@
                },
                None => old(self)@,
            }),
    {
        if let Some(known) = self.known_for_expression(value) {
            self.record_module_binding_knowledge(name, known);
        }
    }

    /// Carry what is known of a value to the local name that it is bound to. A
    /// value of which nothing is known hides what was known of the name.
    pub fn propagate_local_binding_knowledge(&mut self, name: &str, value: &Expr)
        requires
            old(self)@.scopes.len() > 0,
        ensures
            final(self)@ == (SpecKnowledge {
                scopes: old(self)@.scopes.drop_last().push(
                    old(self)@.scopes.last().insert(
                        name@,
                        match known_expression(old(self)@, *value) {
                            Some(known) => Some(
                                SpecProof { origin: old(self)@.context, known },
                            ),
                            None => None,
                        },
                    ),
                ),
                ..old(self)@
            }),
    {
        let ghost before = self@;
        assert(before.scopes.len() == self.scopes.len());
        let local = match self.known_for_expression(value) {
            Some(known) => Some(Proof { origin: self.context, known }),
            None => None,
        };
        let ghost bound = proof_view(local);
        if let Some(mut scope) = self.scopes.pop() {
            let ghost inner = masks_view(scope@);
            assert(inner == before.scopes.last());
            scope.insert(name.to_owned(), local);
            assert(masks_view(scope@) =~= inner.insert(name@, bound));
            self.scopes.push(scope);
            assert(self@.scopes =~= before.scopes.drop_last().push(inner.insert(name@, bound)));
        }
    }
}

// ---------------------------------------------------------------------------
// Demands
// ---------------------------------------------------------------------------
/// Whether a variant admits a literal: an open one admits any of its base.
pub open spec fn admits_literal(row: SpecRow, literal: SpecLiteral) -> bool {
    !(row.tail is Closed) || row.entries.contains(SpecRowEntry::Literal { value: literal })
}

/// Whether a variant admits a literal.
pub fn literal_is_in_variant(row: &Row, literal: &Literal) -> (admitted: bool)
    ensures
        admitted == admits_literal(row@, literal@),
{
    assert(row@.tail == row.tail);
    assert(row@.entries.len() == row.entries.len());
    if !matches!(row.tail, RowTail::Closed) {
        return true;
    }
    let ghost wanted = SpecRowEntry::Literal { value: literal@ };
    let mut index: usize = 0;
    while index < row.entries.len()
        invariant
            index <= row.entries.len(),
            row@.entries.len() == row.entries.len(),
            row@.tail is Closed,
            wanted == (SpecRowEntry::Literal { value: literal@ }),
            forall|i: int| 0 <= i < index ==> row@.entries[i] != wanted,
        decreases row.entries.len() - index,
    {
        assert(row@.entries[index as int] == row.entries@[index as int]@);
        if let RowEntry::Literal { value } = &row.entries[index] {
            if *value == *literal {
                assert(row@.entries[index as int] == wanted);
                return true;
            }
        }
        index += 1;
    }
    false
}

/// What is known of the form of a number: whether it is finite, and the builtin
/// types that it fits.
#[derive(Debug)]
pub struct NumberForm {
    pub finite: bool,
    pub fits: StringSet,
}

/// Whether a known value can stand where a type is demanded.
pub open spec fn satisfies(
    known: SpecKnown,
    expected: SpecType,
    finite: bool,
    fits: Set<Seq<char>>,
) -> bool
    decreases expected,
{
    match literal_of(known) {
        None => false,
        Some(literal) => if literal is Number && !finite {
            false
        } else {
            match expected {
                SpecType::Optional(inner) => satisfies(known, *inner, finite, fits),
                SpecType::Nullable(inner) => satisfies(known, *inner, finite, fits),
                SpecType::Named(name) => if literal is Number {
                    fits.contains(name)
                } else {
                    base_of(literal) is Some && base_of(literal)->0.belongs_to(name)
                },
                SpecType::Variant(row) => row_base(row) is Some && row_base(row) == base_of(literal)
                    && admits_literal(row, literal),
                _ => false,
            }
        },
    }
}

/// Whether a known value can stand where a type is demanded.
pub fn knowledge_satisfies(known: &Known, expected: &Type, form: &NumberForm) -> (satisfied: bool)
    ensures
        satisfied == satisfies(known@, expected@, form.finite, form.fits@),
    decreases expected,
{
    let literal = match known.literal() {
        Some(literal) => literal,
        None => {
            return false;
        },
    };
    let is_number = matches!(literal, Literal::Number(_));
    if is_number && !form.finite {
        return false;
    }
    match expected {
        Type::Optional(inner) => knowledge_satisfies(known, inner, form),
        Type::Nullable(inner) => knowledge_satisfies(known, inner, form),
        Type::Named(name) => if is_number {
            form.fits.contains(name.as_str())
        } else {
            match literal_base(&literal) {
                Some(base) => base.matches_named(name.as_str()),
                None => false,
            }
        },
        Type::Variant(row) => match (literal_variant_base(row), literal_base(&literal)) {
            (Some(wanted), Some(found)) => wanted == found && literal_is_in_variant(row, &literal),
            _ => false,
        },
        _ => false,
    }
}

// ---------------------------------------------------------------------------
// Laws
// ---------------------------------------------------------------------------
/// What a later place of a module came to is not there at an earlier one.
pub proof fn later_values_are_not_known(written: usize, reading: usize, known: SpecKnown)
    requires
        reading < written,
    ensures
        readable_known(
            Some(SpecProof { origin: ExecutionContext::RuntimeKnown(written), known }),
            ExecutionContext::RuntimeKnown(reading),
        ) is None,
{
}

/// A binding of which nothing is known hides what outer bindings of the name say.
pub proof fn masks_hide_outer_bindings(knowledge: SpecKnowledge, name: Seq<char>)
    requires
        knowledge.scopes.len() > 0,
        knowledge.scopes.last().contains_key(name),
        knowledge.scopes.last()[name] is None,
    ensures
        known_name(knowledge, name) is None,
{
}

/// Closing a scope brings back what was known before it was opened.
pub proof fn closing_a_scope_forgets_it(
    knowledge: SpecKnowledge,
    inner: Map<Seq<char>, Option<SpecProof>>,
    name: Seq<char>,
)
    ensures
        known_name(
            SpecKnowledge { scopes: knowledge.scopes.push(inner).drop_last(), ..knowledge },
            name,
        ) == known_name(knowledge, name),
{
    assert(knowledge.scopes.push(inner).drop_last() =~= knowledge.scopes);
}

/// Empty values satisfy no demand.
pub proof fn empty_values_satisfy_nothing(
    expected: SpecType,
    finite: bool,
    fits: Set<Seq<char>>,
)
    ensures
        !satisfies(SpecKnown::Undefined, expected, finite, fits),
        !satisfies(SpecKnown::Null, expected, finite, fits),
{
}

/// A closed union admits exactly the literals of its base that it names.
pub proof fn closed_unions_admit_what_they_name(
    known: SpecKnown,
    row: SpecRow,
    finite: bool,
    fits: Set<Seq<char>>,
)
    requires
        row.tail is Closed,
    ensures
        satisfies(known, SpecType::Variant(row), finite, fits) == (literal_of(known) matches Some(
            literal,
        ) && (literal is Number ==> finite) && row_base(row) is Some && row_base(row) == base_of(
            literal,
        ) && row.entries.contains(SpecRowEntry::Literal { value: literal })),
{
}

/// A known value satisfies the demand for a value that may be empty if it satisfies the
/// demand for one that may not.
pub proof fn present_values_are_their_payload(
    known: SpecKnown,
    inner: SpecType,
    finite: bool,
    fits: Set<Seq<char>>,
)
    ensures
        satisfies(known, SpecType::Optional(Box::new(inner)), finite, fits) == satisfies(
            known,
            inner,
            finite,
            fits,
        ),
        satisfies(known, SpecType::Nullable(Box::new(inner)), finite, fits) == satisfies(
            known,
            inner,
            finite,
            fits,
        ),
{
    assert(satisfies(known, inner, finite, fits) == satisfies(known, inner, finite, fits));
}

} // verus!
