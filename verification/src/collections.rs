//! Maps and sets keyed by text, and sorted lists of names.
use crate::text::{same_text, texts_view};
use vstd::prelude::*;

verus! {

/// The map that a list of bindings denotes: a later binding of a key replaces
/// an earlier one.
pub open spec fn bindings_map<V>(entries: Seq<(String, V)>) -> Map<Seq<char>, V>
    decreases entries.len(),
{
    if entries.len() == 0 {
        Map::empty()
    } else {
        bindings_map(entries.drop_last()).insert(entries.last().0@, entries.last().1)
    }
}

proof fn bindings_map_is_finite<V>(entries: Seq<(String, V)>)
    ensures
        bindings_map(entries).dom().finite(),
    decreases entries.len(),
{
    if entries.len() > 0 {
        bindings_map_is_finite(entries.drop_last());
    }
}

/// The last binding of a key is the one that counts.
pub proof fn last_binding_wins<V>(entries: Seq<(String, V)>, index: int)
    requires
        0 <= index < entries.len(),
        forall|i: int|
            index < i < entries.len() ==> (#[trigger] entries[i]).0@ != entries[index].0@,
    ensures
        bindings_map(entries).contains_key(entries[index].0@),
        bindings_map(entries)[entries[index].0@] == entries[index].1,
    decreases entries.len(),
{
    if index < entries.len() - 1 {
        let shorter = entries.drop_last();
        assert(shorter[index] == entries[index]);
        assert forall|i: int| index < i < shorter.len() implies (
        #[trigger] shorter[i]).0@ != shorter[index].0@ by {
            assert(entries[i].0@ != entries[index].0@);
        }
        last_binding_wins(shorter, index);
        assert(entries[entries.len() - 1].0@ != entries[index].0@);
    }
}

proof fn unbound_key<V>(entries: Seq<(String, V)>, key: Seq<char>)
    requires
        forall|i: int| 0 <= i < entries.len() ==> (#[trigger] entries[i]).0@ != key,
    ensures
        !bindings_map(entries).contains_key(key),
    decreases entries.len(),
{
    if entries.len() > 0 {
        let shorter = entries.drop_last();
        assert forall|i: int| 0 <= i < shorter.len() implies (
        #[trigger] shorter[i]).0@ != key by {
            assert(entries[i].0@ != key);
        }
        unbound_key(shorter, key);
        assert(entries[entries.len() - 1].0@ != key);
    }
}

proof fn replace_last_binding<V>(entries: Seq<(String, V)>, index: int, binding: (String, V))
    requires
        0 <= index < entries.len(),
        binding.0@ == entries[index].0@,
        forall|i: int|
            index < i < entries.len() ==> (#[trigger] entries[i]).0@ != entries[index].0@,
    ensures
        bindings_map(entries.update(index, binding)) == bindings_map(entries).insert(
            binding.0@,
            binding.1,
        ),
    decreases entries.len(),
{
    let updated = entries.update(index, binding);
    let shorter = entries.drop_last();
    if index == entries.len() - 1 {
        assert(updated.drop_last() =~= shorter);
        assert(bindings_map(updated) =~= bindings_map(entries).insert(binding.0@, binding.1));
    } else {
        assert(updated.drop_last() =~= shorter.update(index, binding));
        assert forall|i: int| index < i < shorter.len() implies (
        #[trigger] shorter[i]).0@ != shorter[index].0@ by {
            assert(entries[i].0@ != entries[index].0@);
        }
        replace_last_binding(shorter, index, binding);
        assert(entries[entries.len() - 1].0@ != entries[index].0@);
        assert(bindings_map(updated) =~= bindings_map(entries).insert(binding.0@, binding.1));
    }
}

/// A map with text keys.
#[derive(Debug)]
pub struct StringMap<V> {
    entries: Vec<(String, V)>,
}

impl<V> StringMap<V> {
    pub closed spec fn view(&self) -> Map<Seq<char>, V> {
        bindings_map(self.entries@)
    }

    /// The bindings in the order in which their keys were first inserted.
    pub closed spec fn listing(&self) -> Seq<(String, V)> {
        self.entries@
    }

    /// A map is what its listing denotes.
    pub proof fn listing_denotes(&self)
        ensures
            self@ == bindings_map(self.listing()),
    {
    }

    /// A map binds finitely many keys.
    pub proof fn keys_are_finite(&self)
        ensures
            self@.dom().finite(),
    {
        bindings_map_is_finite(self.entries@);
    }

    /// The empty map.
    pub fn new() -> (map: Self)
        ensures
            map@ == Map::<Seq<char>, V>::empty(),
    {
        StringMap { entries: Vec::new() }
    }

    fn position(&self, key: &str) -> (position: Option<usize>)
        ensures
            match position {
                Some(position) => {
                    &&& position < self.entries.len()
                    &&& self.entries@[position as int].0@ == key@
                    &&& forall|i: int|
                        position < i < self.entries.len() ==> (
                        #[trigger] self.entries@[i]).0@ != key@
                    &&& self@.contains_key(key@)
                    &&& self@[key@] == self.entries@[position as int].1
                },
                None => !self@.contains_key(key@),
            },
    {
        let mut index: usize = self.entries.len();
        while index > 0
            invariant
                index <= self.entries.len(),
                forall|i: int|
                    index <= i < self.entries.len() ==> (#[trigger] self.entries@[i]).0@ != key@,
            decreases index,
        {
            index -= 1;
            if same_text(self.entries[index].0.as_str(), key) {
                proof {
                    last_binding_wins(self.entries@, index as int);
                }
                return Some(index);
            }
        }
        proof {
            unbound_key(self.entries@, key@);
        }
        None
    }

    /// The value bound to a key.
    pub fn get(&self, key: &str) -> (value: Option<&V>)
        ensures
            match value {
                Some(value) => self@.contains_key(key@) && *value == self@[key@],
                None => !self@.contains_key(key@),
            },
    {
        match self.position(key) {
            Some(position) => Some(&self.entries[position].1),
            None => None,
        }
    }

    /// Whether a key is bound.
    pub fn contains_key(&self, key: &str) -> (bound: bool)
        ensures
            bound == self@.contains_key(key@),
    {
        self.position(key).is_some()
    }

    /// Bind a key, replacing an earlier binding of it.
    pub fn insert(&mut self, key: String, value: V)
        ensures
            final(self)@ == old(self)@.insert(key@, value),
    {
        match self.position(key.as_str()) {
            Some(position) => {
                proof {
                    replace_last_binding(self.entries@, position as int, (key, value));
                }
                self.entries.set(position, (key, value));
            },
            None => {
                proof {
                    assert(self.entries@.push((key, value)).drop_last() =~= self.entries@);
                }
                self.entries.push((key, value));
            },
        }
    }

    /// The number of listed bindings.
    pub fn len(&self) -> (len: usize)
        ensures
            len == self.listing().len(),
    {
        self.entries.len()
    }

    /// The binding at a position of the listing.
    pub fn entry(&self, index: usize) -> (entry: &(String, V))
        requires
            index < self.listing().len(),
        ensures
            *entry == self.listing()[index as int],
            self@.contains_key(entry.0@),
    {
        proof {
            listed_key_is_bound(self.entries@, index as int);
        }
        &self.entries[index]
    }
}

proof fn listed_key_is_bound<V>(entries: Seq<(String, V)>, index: int)
    requires
        0 <= index < entries.len(),
    ensures
        bindings_map(entries).contains_key(entries[index].0@),
    decreases entries.len(),
{
    if index < entries.len() - 1 {
        assert(entries.drop_last()[index] == entries[index]);
        listed_key_is_bound(entries.drop_last(), index);
    }
}

/// Every bound key is listed.
pub proof fn bound_key_is_listed<V>(entries: Seq<(String, V)>, key: Seq<char>)
    requires
        bindings_map(entries).contains_key(key),
    ensures
        exists|i: int| 0 <= i < entries.len() && (#[trigger] entries[i]).0@ == key,
{
    if forall|i: int| 0 <= i < entries.len() ==> (#[trigger] entries[i]).0@ != key {
        unbound_key(entries, key);
    }
}

/// The text that a map of texts holds under each key.
pub open spec fn names_view(map: Map<Seq<char>, String>) -> Map<Seq<char>, Seq<char>> {
    Map::new(|name: Seq<char>| map.contains_key(name), |name: Seq<char>| map[name]@)
}

impl Clone for StringMap<String> {
    fn clone(&self) -> (copied: StringMap<String>)
        ensures
            copied@ == self@,
    {
        let mut entries: Vec<(String, String)> = Vec::new();
        let mut index: usize = 0;
        while index < self.entries.len()
            invariant
                index <= self.entries.len(),
                entries.len() == index,
                forall|i: int| 0 <= i < index ==> entries@[i] == self.entries@[i],
            decreases self.entries.len() - index,
        {
            entries.push((self.entries[index].0.clone(), self.entries[index].1.clone()));
            index += 1;
        }
        assert(entries@ =~= self.entries@);
        StringMap { entries }
    }
}

/// A set of texts.
#[derive(Debug)]
pub struct StringSet {
    names: Vec<String>,
}

impl Clone for StringSet {
    fn clone(&self) -> (copied: StringSet)
        ensures
            copied@ == self@,
    {
        StringSet { names: crate::text::clone_texts(&self.names) }
    }
}

impl StringSet {
    pub closed spec fn view(&self) -> Set<Seq<char>> {
        texts_view(self.names@).to_set()
    }

    /// The empty set.
    pub fn new() -> (set: Self)
        ensures
            set@ == Set::<Seq<char>>::empty(),
    {
        let set = StringSet { names: Vec::new() };
        assert(set@ =~= Set::<Seq<char>>::empty());
        set
    }

    /// A set holds finitely many texts.
    pub proof fn names_are_finite(&self)
        ensures
            self@.finite(),
    {
        vstd::seq_lib::seq_to_set_is_finite(texts_view(self.names@));
    }

    /// Whether a text is in the set.
    pub fn contains(&self, name: &str) -> (found: bool)
        ensures
            found == self@.contains(name@),
    {
        crate::text::texts_contain(&self.names, name)
    }

    /// Add a text; whether it was new.
    pub fn insert(&mut self, name: String) -> (added: bool)
        ensures
            final(self)@ == old(self)@.insert(name@),
            added == !old(self)@.contains(name@),
    {
        if self.contains(name.as_str()) {
            assert(self@ =~= old(self)@.insert(name@));
            false
        } else {
            let ghost before = texts_view(self.names@);
            self.names.push(name);
            proof {
                let after = texts_view(self.names@);
                assert(after =~= before.push(name@));
                assert forall|text: Seq<char>| after.contains(text) == (before.contains(text)
                    || text == name@) by {
                    if before.contains(text) {
                        let i = choose|i: int| 0 <= i < before.len() && before[i] == text;
                        assert(after[i] == text);
                    }
                    if text == name@ {
                        assert(after[before.len() as int] == text);
                    }
                }
                assert(self@ =~= old(self)@.insert(name@));
            }
            true
        }
    }

    /// The texts of a set, in some order.
    pub fn to_names(&self) -> (names: Vec<String>)
        ensures
            texts_view(names@).to_set() == self@,
    {
        crate::text::clone_texts(&self.names)
    }

    /// Whether two sets hold the same texts.
    pub fn same_names(&self, other: &StringSet) -> (same: bool)
        ensures
            same == (self@ == other@),
    {
        let forward = self.is_within(other);
        let backward = other.is_within(self);
        proof {
            if forward && backward {
                assert(self@ =~= other@);
            }
        }
        forward && backward
    }

    fn is_within(&self, other: &StringSet) -> (within: bool)
        ensures
            within == self@.subset_of(other@),
    {
        let ghost all = texts_view(self.names@);
        let mut index: usize = 0;
        while index < self.names.len()
            invariant
                index <= self.names.len(),
                all == texts_view(self.names@),
                forall|i: int| 0 <= i < index ==> other@.contains(#[trigger] all[i]),
            decreases self.names.len() - index,
        {
            assert(all[index as int] == self.names@[index as int]@);
            if !other.contains(self.names[index].as_str()) {
                assert(all.contains(all[index as int]));
                assert(self@.contains(all[index as int]));
                return false;
            }
            index += 1;
        }
        proof {
            assert forall|name: Seq<char>| self@.contains(name) implies other@.contains(name) by {
                let i = choose|i: int| 0 <= i < all.len() && all[i] == name;
                assert(other@.contains(all[i]));
            }
        }
        true
    }

    /// Remove a text.
    pub fn remove(&mut self, name: &str)
        ensures
            final(self)@ == old(self)@.remove(name@),
    {
        let mut kept: Vec<String> = Vec::new();
        let mut index: usize = 0;
        while index < self.names.len()
            invariant
                index <= self.names.len(),
                forall|text: Seq<char>|
                    texts_view(kept@).contains(text) <==> text != name@ && texts_view(
                        self.names@,
                    ).take(index as int).contains(text),
            decreases self.names.len() - index,
        {
            let ghost before = texts_view(kept@);
            let ghost names = texts_view(self.names@);
            let ghost shorter = names.take(index as int);
            let ghost longer = names.take(index + 1);
            if !same_text(self.names[index].as_str(), name) {
                kept.push(self.names[index].clone());
                proof {
                    assert(texts_view(kept@) =~= before.push(names[index as int]));
                }
            }
            proof {
                let after = texts_view(kept@);
                assert(longer =~= shorter.push(names[index as int]));
                assert forall|text: Seq<char>| after.contains(text) <==> text != name@
                    && longer.contains(text) by {
                    if shorter.contains(text) {
                        let i = choose|i: int| 0 <= i < shorter.len() && shorter[i] == text;
                        assert(longer[i] == text);
                    }
                    if longer.contains(text) {
                        let i = choose|i: int| 0 <= i < longer.len() && longer[i] == text;
                        if i < index {
                            assert(shorter[i] == text);
                        }
                    }
                    if before.contains(text) {
                        let i = choose|i: int| 0 <= i < before.len() && before[i] == text;
                        assert(after[i] == text);
                    }
                    if names[index as int] == text && text != name@ {
                        assert(after[before.len() as int] == text);
                        assert(longer[index as int] == text);
                    }
                    if after.contains(text) {
                        let i = choose|i: int| 0 <= i < after.len() && after[i] == text;
                        if i < before.len() {
                            assert(before[i] == text);
                        }
                    }
                }
            }
            index += 1;
        }
        assert(texts_view(self.names@).take(self.names@.len() as int) =~= texts_view(self.names@));
        self.names = kept;
        assert(self@ =~= old(self)@.remove(name@));
    }
}

/// Lexicographic order of texts by character.
pub open spec fn text_less(left: Seq<char>, right: Seq<char>) -> bool
    decreases left.len(),
{
    if right.len() == 0 {
        false
    } else if left.len() == 0 {
        true
    } else if left[0] == right[0] {
        text_less(left.skip(1), right.skip(1))
    } else {
        left[0] < right[0]
    }
}

/// Of two texts one comes before the other, unless they are the same.
pub proof fn text_less_total(left: Seq<char>, right: Seq<char>)
    ensures
        text_less(left, right) || text_less(right, left) || left == right,
        !(text_less(left, right) && text_less(right, left)),
        !text_less(left, left),
    decreases left.len(),
{
    if left.len() > 0 && right.len() > 0 {
        text_less_total(left.skip(1), right.skip(1));
        if left[0] == right[0] && left.skip(1) == right.skip(1) {
            assert(left =~= seq![left[0]] + left.skip(1));
            assert(right =~= seq![right[0]] + right.skip(1));
        }
    } else if left.len() > 0 {
        text_less_total(left.skip(1), left.skip(1));
    } else if right.len() == 0 {
        assert(left =~= right);
    }
}

/// The order of texts is transitive.
pub proof fn text_less_transitive(a: Seq<char>, b: Seq<char>, c: Seq<char>)
    requires
        text_less(a, b),
        text_less(b, c),
    ensures
        text_less(a, c),
    decreases a.len(),
{
    if a.len() > 0 && a[0] == b[0] && b[0] == c[0] {
        text_less_transitive(a.skip(1), b.skip(1), c.skip(1));
    }
}

/// Whether the first text comes before the second in lexicographic order.
pub fn text_precedes(left: &str, right: &str) -> (less: bool)
    ensures
        less == text_less(left@, right@),
{
    let left_length: usize = left.unicode_len();
    let right_length: usize = right.unicode_len();
    let mut index: usize = 0;
    assert(left@.skip(0) =~= left@);
    assert(right@.skip(0) =~= right@);
    while index < left_length && index < right_length
        invariant
            index <= left_length,
            index <= right_length,
            left_length == left@.len(),
            right_length == right@.len(),
            text_less(left@, right@) == text_less(
                left@.skip(index as int),
                right@.skip(index as int),
            ),
        decreases left_length - index,
    {
        let left_char: char = left.get_char(index);
        let right_char: char = right.get_char(index);
        if left_char != right_char {
            return left_char < right_char;
        }
        proof {
            assert(left@.skip(index as int).skip(1) =~= left@.skip(index + 1));
            assert(right@.skip(index as int).skip(1) =~= right@.skip(index + 1));
        }
        index += 1;
    }
    index < right_length
}

/// Whether a list of names is strictly increasing.
pub open spec fn increasing(names: Seq<Seq<char>>) -> bool {
    forall|i: int, j: int| 0 <= i < j < names.len() ==> text_less(#[trigger] names[i], #[trigger]
        names[j])
}

/// A strictly increasing list is determined by the set of its names.
pub proof fn increasing_is_unique(left: Seq<Seq<char>>, right: Seq<Seq<char>>)
    requires
        increasing(left),
        increasing(right),
        left.to_set() == right.to_set(),
    ensures
        left == right,
    decreases left.len(),
{
    if left.len() == 0 {
        if right.len() > 0 {
            assert(right.to_set().contains(right[0]));
            assert(left.to_set().contains(right[0]));
        }
        assert(left =~= right);
    } else {
        assert(left.to_set().contains(left[0]));
        assert(right.to_set().contains(left[0]));
        let j = choose|j: int| 0 <= j < right.len() && right[j] == left[0];
        assert(right.to_set().contains(right[0]));
        assert(left.to_set().contains(right[0]));
        let i = choose|i: int| 0 <= i < left.len() && left[i] == right[0];
        if i > 0 && j > 0 {
            text_less_total(left[0], right[0]);
            assert(text_less(left[0], left[i]));
            assert(text_less(right[0], right[j]));
        }
        assert(left[0] == right[0]);
        let left_rest = left.skip(1);
        let right_rest = right.skip(1);
        assert forall|text: Seq<char>| left_rest.to_set().contains(text) == right_rest.to_set().contains(
            text,
        ) by {
            if left_rest.contains(text) {
                let k = choose|k: int| 0 <= k < left_rest.len() && left_rest[k] == text;
                assert(text == left[k + 1]);
                assert(left.to_set().contains(text));
                assert(right.to_set().contains(text));
                let m = choose|m: int| 0 <= m < right.len() && right[m] == text;
                text_less_total(text, text);
                assert(text_less(left[0], left[k + 1]));
                assert(m > 0);
                assert(right_rest[m - 1] == text);
            }
            if right_rest.contains(text) {
                let k = choose|k: int| 0 <= k < right_rest.len() && right_rest[k] == text;
                assert(text == right[k + 1]);
                assert(right.to_set().contains(text));
                assert(left.to_set().contains(text));
                let m = choose|m: int| 0 <= m < left.len() && left[m] == text;
                text_less_total(text, text);
                assert(text_less(right[0], right[k + 1]));
                assert(m > 0);
                assert(left_rest[m - 1] == text);
            }
        }
        assert(left_rest.to_set() =~= right_rest.to_set());
        increasing_is_unique(left_rest, right_rest);
        assert(left =~= seq![left[0]] + left_rest);
        assert(right =~= seq![right[0]] + right_rest);
    }
}

/// Add a name to a strictly increasing list, unless it is there already.
pub fn insert_name(names: &mut Vec<String>, name: &str)
    requires
        increasing(texts_view(old(names)@)),
    ensures
        increasing(texts_view(final(names)@)),
        texts_view(final(names)@).to_set() == texts_view(old(names)@).to_set().insert(name@),
{
    let ghost before = texts_view(names@);
    let mut index: usize = 0;
    while index < names.len() && text_precedes(names[index].as_str(), name)
        invariant
            index <= names.len(),
            before == texts_view(names@),
            forall|i: int| 0 <= i < index ==> text_less(#[trigger] before[i], name@),
        decreases names.len() - index,
    {
        assert(before[index as int] == names@[index as int]@);
        index += 1;
    }
    if index < names.len() && same_text(names[index].as_str(), name) {
        proof {
            assert(before[index as int] == name@);
            assert(before.to_set().contains(name@));
            assert(before.to_set() =~= before.to_set().insert(name@));
        }
    } else {
        names.insert(index, name.to_owned());
        proof {
            let after = texts_view(names@);
            assert(after =~= before.insert(index as int, name@));
            if index < before.len() {
                text_less_total(before[index as int], name@);
            }
            assert forall|i: int, j: int| 0 <= i < j < after.len() implies text_less(
                #[trigger] after[i],
                #[trigger] after[j],
            ) by {
                let old_i = if i < index {
                    i
                } else {
                    i - 1
                };
                let old_j = if j < index {
                    j
                } else {
                    j - 1
                };
                if i != index && j != index {
                    assert(text_less(before[old_i], before[old_j]));
                } else if j == index {
                    assert(text_less(before[old_i], name@));
                } else {
                    if old_j > index {
                        assert(text_less(before[index as int], before[old_j]));
                        text_less_transitive(name@, before[index as int], before[old_j]);
                    }
                }
            }
            assert forall|text: Seq<char>| after.to_set().contains(text) == before.to_set().insert(
                name@,
            ).contains(text) by {
                if before.contains(text) {
                    let i = choose|i: int| 0 <= i < before.len() && before[i] == text;
                    if i < index {
                        assert(after[i] == text);
                    } else {
                        assert(after[i + 1] == text);
                    }
                }
                if text == name@ {
                    assert(after[index as int] == text);
                }
                if after.contains(text) {
                    let i = choose|i: int| 0 <= i < after.len() && after[i] == text;
                    if i < index {
                        assert(before[i] == text);
                    } else if i > index {
                        assert(before[i - 1] == text);
                    }
                }
            }
            assert(after.to_set() =~= before.to_set().insert(name@));
        }
    }
}

} // verus!
