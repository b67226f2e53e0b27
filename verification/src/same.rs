//! Values that are compared by what they say.
use crate::collections::{bound_key_is_listed, StringMap};
use crate::methods::{
    constraints_view, methods_view, same_constraints, BuiltinMethodType, MethodConstraint,
    NamedFamilyType, NamedMethodType, SpecBuiltinMethod, SpecConstraint, SpecFamily, SpecMethod,
};
use crate::normalize::{unfolding_of, RecursiveTypes};
use crate::rows::owned_type_view;
use crate::text::same_text;
use crate::types::{RecursiveTypeId, Row, SpecRow, SpecType, Type};
use vstd::prelude::*;

verus! {

/// Values that are the same if they say the same.
pub trait Same: Sized {
    type Said;

    /// What a value says.
    spec fn said(&self) -> Self::Said;

    /// Whether two values say the same.
    fn same(&self, other: &Self) -> (same: bool)
        ensures
            same == (self.said() == other.said()),
    ;
}

impl Same for String {
    type Said = Seq<char>;

    open spec fn said(&self) -> Seq<char> {
        self@
    }

    fn same(&self, other: &Self) -> (same: bool) {
        same_text(self.as_str(), other.as_str())
    }
}

impl Same for Type {
    type Said = SpecType;

    open spec fn said(&self) -> SpecType {
        self@
    }

    fn same(&self, other: &Self) -> (same: bool) {
        self.equals(other)
    }
}

impl Same for Row {
    type Said = SpecRow;

    open spec fn said(&self) -> SpecRow {
        self@
    }

    fn same(&self, other: &Self) -> (same: bool) {
        self.equals(other)
    }
}

impl<A: Same, B: Same> Same for (A, B) {
    type Said = (A::Said, B::Said);

    open spec fn said(&self) -> (A::Said, B::Said) {
        (self.0.said(), self.1.said())
    }

    fn same(&self, other: &Self) -> (same: bool) {
        self.0.same(&other.0) && self.1.same(&other.1)
    }
}

/// What an optional type says.
pub fn same_optional_types(left: &Option<Type>, right: &Option<Type>) -> (same: bool)
    ensures
        same == (owned_type_view(*left) == owned_type_view(*right)),
{
    match (left, right) {
        (Some(left), Some(right)) => left.equals(right),
        (None, None) => true,
        _ => false,
    }
}

impl<V: Same> Same for Vec<V> {
    type Said = Seq<V::Said>;

    open spec fn said(&self) -> Seq<V::Said> {
        Seq::new(self@.len(), |i: int| self@[i].said())
    }

    fn same(&self, other: &Self) -> (same: bool) {
        if self.len() != other.len() {
            assert(self.said().len() != other.said().len());
            return false;
        }
        let mut index: usize = 0;
        while index < self.len()
            invariant
                index <= self.len(),
                self.len() == other.len(),
                forall|i: int| 0 <= i < index ==> #[trigger] self@[i].said() == other@[i].said(),
            decreases self.len() - index,
        {
            if !self[index].same(&other[index]) {
                assert(self.said()[index as int] != other.said()[index as int]);
                return false;
            }
            index += 1;
        }
        assert(self.said() =~= other.said());
        true
    }
}

/// Whether every key of one map says the same in another.
fn keys_agree<V: Same>(left: &StringMap<V>, right: &StringMap<V>) -> (agree: bool)
    ensures
        agree == left.said().submap_of(right.said()),
{
    let ghost left_said = left.said();
    let ghost right_said = right.said();
    let ghost listing = left.listing();
    let mut index: usize = 0;
    while index < left.len()
        invariant
            index <= listing.len(),
            listing == left.listing(),
            left_said == left.said(),
            right_said == right.said(),
            forall|i: int|
                0 <= i < index ==> right_said.contains_key((#[trigger] listing[i]).0@)
                    && left_said[listing[i].0@] == right_said[listing[i].0@],
        decreases listing.len() - index,
    {
        let name = left.entry(index).0.as_str();
        match (left.get(name), right.get(name)) {
            (Some(value), Some(other)) => {
                if !value.same(other) {
                    assert(left_said.dom().contains(name@));
                    assert(left_said[name@] == value.said());
                    assert(right_said[name@] == other.said());
                    assert(left_said[name@] != right_said[name@]);
                    assert(!left_said.submap_of(right_said)) by {
                        if left_said.submap_of(right_said) {
                            assert(left_said.dom().contains(name@) && right_said.dom().contains(
                                name@,
                            ));
                        }
                    }
                    return false;
                }
            },
            _ => {
                assert(left_said.contains_key(name@));
                assert(!right_said.contains_key(name@));
                return false;
            },
        }
        index += 1;
    }
    proof {
        left.listing_denotes();
        assert forall|name: Seq<char>| #[trigger]
            left_said.contains_key(name) implies right_said.contains_key(name) && left_said[name]
            == right_said[name] by {
            bound_key_is_listed(listing, name);
            let i = choose|i: int| 0 <= i < listing.len() && (#[trigger] listing[i]).0@ == name;
            assert(right_said.contains_key(listing[i].0@));
        }
        assert forall|name: Seq<char>|
            left_said.dom().contains(name) implies right_said.dom().contains(name) by {
            assert(left_said.contains_key(name));
        }
        assert(left_said.submap_of(right_said));
    }
    true
}

proof fn submaps_are_equal<K, V>(left: Map<K, V>, right: Map<K, V>)
    ensures
        (left.submap_of(right) && right.submap_of(left)) == (left == right),
{
    if left.submap_of(right) && right.submap_of(left) {
        assert forall|key: K| left.contains_key(key) == right.contains_key(key) by {
            assert(left.dom().contains(key) ==> right.dom().contains(key));
            assert(right.dom().contains(key) ==> left.dom().contains(key));
        }
        assert(left =~= right);
    }
}

impl<V: Same> Same for StringMap<V> {
    type Said = Map<Seq<char>, V::Said>;

    open spec fn said(&self) -> Map<Seq<char>, V::Said> {
        Map::new(|name: Seq<char>| self@.contains_key(name), |name: Seq<char>| self@[name].said())
    }

    fn same(&self, other: &Self) -> (same: bool) {
        proof {
            submaps_are_equal(self.said(), other.said());
        }
        keys_agree(self, other) && keys_agree(other, self)
    }
}

// ---------------------------------------------------------------------------
// Methods and families
// ---------------------------------------------------------------------------
impl Same for BuiltinMethodType {
    type Said = SpecBuiltinMethod;

    open spec fn said(&self) -> SpecBuiltinMethod {
        self@
    }

    fn same(&self, other: &Self) -> (same: bool) {
        self.equals(other)
    }
}

impl Same for NamedMethodType {
    type Said = SpecMethod;

    open spec fn said(&self) -> SpecMethod {
        self@
    }

    fn same(&self, other: &Self) -> (same: bool) {
        self.equals(other)
    }
}

impl Same for NamedFamilyType {
    type Said = SpecFamily;

    open spec fn said(&self) -> SpecFamily {
        self@
    }

    fn same(&self, other: &Self) -> (same: bool) {
        proof {
            assert(self.methods.said() =~= methods_view(self.methods@));
            assert(other.methods.said() =~= methods_view(other.methods@));
        }
        same_text(self.owner.as_str(), other.owner.as_str()) && self.data.equals(&other.data)
            && self.defaulted_fields.same_names(&other.defaulted_fields) && same_optional_types(
            &self.primitive_base,
            &other.primitive_base,
        ) && self.methods.same(&other.methods)
    }
}

/// What a type that a module exports is, with the methods that its variables must have.
#[derive(Debug)]
pub struct QualifiedType {
    pub ty: Type,
    pub constraints: Vec<MethodConstraint>,
}

/// What a type that a module exports is.
pub ghost struct SpecQualifiedType {
    pub ty: SpecType,
    pub constraints: Seq<SpecConstraint>,
}

impl QualifiedType {
    pub open spec fn view(&self) -> SpecQualifiedType {
        SpecQualifiedType { ty: self.ty@, constraints: constraints_view(self.constraints@) }
    }
}

impl Same for QualifiedType {
    type Said = SpecQualifiedType;

    open spec fn said(&self) -> SpecQualifiedType {
        self@
    }

    fn same(&self, other: &Self) -> (same: bool) {
        self.ty.equals(&other.ty) && same_constraints(&self.constraints, &other.constraints)
    }
}

// ---------------------------------------------------------------------------
// Recursive types
// ---------------------------------------------------------------------------
/// Whether every recursive reference of one list stands for the same type in another.
fn unfoldings_agree(left: &RecursiveTypes, right: &RecursiveTypes) -> (agree: bool)
    ensures
        agree == left.said().submap_of(right.said()),
{
    let ghost left_said = left.said();
    let ghost right_said = right.said();
    let mut index: usize = 0;
    while index < left.entries.len()
        invariant
            index <= left.entries.len(),
            left_said == left.said(),
            right_said == right.said(),
            forall|i: int|
                0 <= i < index ==> right_said.contains_key((#[trigger] left.entries@[i]).0)
                    && left_said[left.entries@[i].0] == right_said[left.entries@[i].0],
        decreases left.entries.len() - index,
    {
        let id: RecursiveTypeId = left.entries[index].0;
        proof {
            listed_reference_unfolds(left.entries@, id, index as int, 0);
        }
        assert(left_said.contains_key(id));
        match (left.get(id), right.get(id)) {
            (Some(ty), Some(other)) => {
                if !ty.same(other) {
                    assert(left_said[id] != right_said[id]);
                    return false;
                }
            },
            _ => {
                assert(!right_said.contains_key(id));
                return false;
            },
        }
        index += 1;
    }
    proof {
        assert forall|id: RecursiveTypeId| #[trigger]
            left_said.contains_key(id) implies right_said.contains_key(id) && left_said[id]
            == right_said[id] by {
            unfolding_reference_is_listed(left.entries@, id, 0);
            let i = choose|i: int|
                0 <= i < left.entries@.len() && (#[trigger] left.entries@[i]).0 == id;
            assert(right_said.contains_key(left.entries@[i].0));
        }
        assert forall|id: RecursiveTypeId|
            left_said.dom().contains(id) implies right_said.dom().contains(id) by {
            assert(left_said.contains_key(id));
        }
        assert(left_said.submap_of(right_said));
    }
    true
}

proof fn listed_reference_unfolds(
    entries: Seq<(RecursiveTypeId, Type)>,
    id: RecursiveTypeId,
    index: int,
    from: int,
)
    requires
        0 <= from <= index < entries.len(),
        entries[index].0 == id,
    ensures
        unfolding_of(entries, id, from) is Some,
    decreases index - from,
{
    if entries[from].0 != id {
        listed_reference_unfolds(entries, id, index, from + 1);
    }
}

proof fn unfolding_reference_is_listed(
    entries: Seq<(RecursiveTypeId, Type)>,
    id: RecursiveTypeId,
    from: int,
)
    requires
        0 <= from,
        unfolding_of(entries, id, from) is Some,
    ensures
        exists|i: int| 0 <= i < entries.len() && (#[trigger] entries[i]).0 == id,
    decreases entries.len() - from,
{
    if from < entries.len() && entries[from].0 != id {
        unfolding_reference_is_listed(entries, id, from + 1);
    }
}

impl Same for RecursiveTypes {
    type Said = Map<RecursiveTypeId, SpecType>;

    open spec fn said(&self) -> Map<RecursiveTypeId, SpecType> {
        Map::new(
            |id: RecursiveTypeId| self.unfolding(id) is Some,
            |id: RecursiveTypeId| self.unfolding(id)->0,
        )
    }

    fn same(&self, other: &Self) -> (same: bool) {
        proof {
            submaps_are_equal(self.said(), other.said());
        }
        unfoldings_agree(self, other) && unfoldings_agree(other, self)
    }
}

} // verus!
