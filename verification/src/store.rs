//! A small map from names to values that remembers the order in which the
//! names came.

use vstd::prelude::*;

verus! {

/// The first index at or after `from` whose name reads `name`, or the number
/// of names where there is none.
pub open spec fn position_from(names: Seq<String>, name: Seq<char>, from: int) -> int
    decreases names.len() - from,
{
    if from < 0 || from >= names.len() {
        names.len() as int
    } else if names[from]@ == name {
        from
    } else {
        position_from(names, name, from + 1)
    }
}

/// The first index whose name reads `name`, or the number of names.
pub open spec fn position(names: Seq<String>, name: Seq<char>) -> int {
    position_from(names, name, 0)
}

/// `position_from` is the least index from `from` on that holds the name.
pub proof fn lemma_position_from(names: Seq<String>, name: Seq<char>, from: int, k: int)
    requires
        0 <= from <= k <= names.len(),
        forall|j: int| from <= j < k ==> names[j]@ != name,
        k == names.len() || names[k]@ == name,
    ensures
        position_from(names, name, from) == k,
    decreases k - from,
{
    if from < k {
        lemma_position_from(names, name, from + 1, k);
    }
}

/// What `position_from` returns lies between `from` and the number of names,
/// holds the name if it is an index, and no index between holds it.
pub proof fn lemma_position_from_bounds(names: Seq<String>, name: Seq<char>, from: int)
    requires
        0 <= from <= names.len(),
    ensures
        from <= position_from(names, name, from) <= names.len(),
        position_from(names, name, from) < names.len() ==> names[position_from(
            names,
            name,
            from,
        )]@ == name,
        forall|j: int| from <= j < position_from(names, name, from) ==> names[j]@ != name,
    decreases names.len() - from,
{
    if from < names.len() && names[from]@ != name {
        lemma_position_from_bounds(names, name, from + 1);
    }
}

/// Names with their values, each name once, in the order of first insertion.
pub struct StringMap<V> {
    pub names: Vec<String>,
    pub values: Vec<V>,
}

impl<V> StringMap<V> {
    /// As many values as names, and no name twice.
    pub open spec fn wf(&self) -> bool {
        &&& self.names.len() == self.values.len()
        &&& forall|i: int, j: int|
            0 <= i < j < self.names.len() ==> self.names[i]@ != self.names[j]@
    }

    /// Whether `name` has a value.
    pub open spec fn contains(&self, name: Seq<char>) -> bool {
        position(self.names@, name) < self.names.len()
    }

    /// The value of `name`, where it has one.
    pub open spec fn value_of(&self, name: Seq<char>) -> V
        recommends
            self.contains(name),
    {
        self.values[position(self.names@, name)]
    }

    /// The map with no name.
    pub fn new() -> (m: Self)
        ensures
            m.wf(),
            m.names@.len() == 0,
            m.values@.len() == 0,
    {
        StringMap { names: Vec::new(), values: Vec::new() }
    }

    /// Whether the map is well formed.
    pub fn is_wf(&self) -> (r: bool)
        ensures
            r == self.wf(),
    {
        if self.names.len() != self.values.len() {
            return false;
        }
        let mut j: usize = 0;
        while j < self.names.len()
            invariant
                j <= self.names.len(),
                forall|a: int, b: int| 0 <= a < b < j ==> self.names[a]@ != self.names[b]@,
            decreases self.names.len() - j,
        {
            let mut i: usize = 0;
            while i < j
                invariant
                    i <= j < self.names.len(),
                    forall|a: int| 0 <= a < i ==> self.names[a]@ != self.names[j as int]@,
                decreases j - i,
            {
                if self.names[i] == self.names[j] {
                    return false;
                }
                i = i + 1;
            }
            j = j + 1;
        }
        true
    }

    /// How many names there are.
    pub fn len(&self) -> (n: usize)
        ensures
            n == self.names.len(),
    {
        self.names.len()
    }

    /// The index of `name`, or the number of names where it has no value.
    pub fn find(&self, name: &String) -> (i: usize)
        ensures
            i == position(self.names@, name@),
            i <= self.names.len(),
    {
        let mut i: usize = 0;
        while i < self.names.len() && self.names[i] != *name
            invariant
                i <= self.names.len(),
                forall|j: int| 0 <= j < i ==> self.names[j]@ != name@,
            decreases self.names.len() - i,
        {
            i = i + 1;
        }
        proof {
            lemma_position_from(self.names@, name@, 0, i as int);
        }
        i
    }

    /// The value of `name`, if it has one.
    pub fn get(&self, name: &String) -> (r: Option<&V>)
        requires
            self.wf(),
        ensures
            r is Some <==> self.contains(name@),
            r matches Some(v) ==> *v == self.value_of(name@),
    {
        let i = self.find(name);
        if i < self.names.len() {
            Some(&self.values[i])
        } else {
            None
        }
    }

    /// Gives `name` the value `value`: in place of the one it had, or as a
    /// new last entry.
    pub fn insert(&mut self, name: String, value: V)
        requires
            old(self).wf(),
        ensures
            final(self).wf(),
            old(self).contains(name@) ==> final(self).names@ == old(self).names@ && final(self).values@ == old(self).values@.update(position(old(self).names@, name@), value),
            !old(self).contains(name@) ==> final(self).names@ == old(self).names@.push(name)
                && final(self).values@ == old(self).values@.push(value),
            final(self).contains(name@),
            final(self).value_of(name@) == value,
            forall|other: Seq<char>|
                other != name@ ==> final(self).contains(other) == old(self).contains(other) && (
                old(self).contains(other) ==> final(self).value_of(other) == old(self).value_of(
                    other,
                )),
    {
        let i = self.find(&name);
        proof {
            lemma_position_from_bounds(self.names@, name@, 0);
        }
        if i < self.names.len() {
            self.values.set(i, value);
            assert forall|other: Seq<char>| other != name@ implies self.contains(other) == old(self).contains(other) && (old(self).contains(other) ==> self.value_of(other) == old(self).value_of(other)) by {
                lemma_position_from_bounds(self.names@, other, 0);
            }
        } else {
            self.names.push(name);
            self.values.push(value);
            proof {
                lemma_position_from(self.names@, name@, 0, i as int);
            }
            assert forall|other: Seq<char>| other != name@ implies self.contains(other) == old(self).contains(other) && (old(self).contains(other) ==> self.value_of(other) == old(self).value_of(other)) by {
                lemma_position_from_bounds(old(self).names@, other, 0);
                let k = position(old(self).names@, other);
                if k < old(self).names.len() {
                    lemma_position_from(self.names@, other, 0, k);
                } else {
                    lemma_position_from(self.names@, other, 0, self.names.len() as int);
                }
            }
        }
    }
}

/// The first index at or after `from` of an entry named `name`, or the
/// number of entries where there is none.
pub open spec fn entry_position<T>(entries: Seq<(Seq<char>, T)>, name: Seq<char>, from: int) -> int
    decreases entries.len() - from,
{
    if from < 0 || from >= entries.len() {
        entries.len() as int
    } else if entries[from].0 == name {
        from
    } else {
        entry_position(entries, name, from + 1)
    }
}

/// The value of the entry named `name`, if there is one.
pub open spec fn entry_value<T>(entries: Seq<(Seq<char>, T)>, name: Seq<char>) -> Option<T> {
    let i = entry_position(entries, name, 0);
    if 0 <= i < entries.len() {
        Some(entries[i].1)
    } else {
        None
    }
}

/// The entries once `name` has the value `value`: in place of the value it
/// had, or as a new last entry.
pub open spec fn put_entry<T>(entries: Seq<(Seq<char>, T)>, name: Seq<char>, value: T) -> Seq<
    (Seq<char>, T),
> {
    let i = entry_position(entries, name, 0);
    if 0 <= i < entries.len() {
        entries.update(i, (name, value))
    } else {
        entries.push((name, value))
    }
}

impl<V: DeepView> DeepView for StringMap<V> {
    type V = Seq<(Seq<char>, V::V)>;

    open spec fn deep_view(&self) -> Seq<(Seq<char>, V::V)> {
        Seq::new(self.names.len() as nat, |i: int| (self.names[i]@, self.values[i].deep_view()))
    }
}

/// The position of a name among the names of a map is its position among
/// the entries of the map's view.
pub proof fn lemma_position_in_view<V: DeepView>(m: StringMap<V>, name: Seq<char>, from: int)
    requires
        m.names.len() == m.values.len(),
        0 <= from <= m.names.len(),
    ensures
        position_from(m.names@, name, from) == entry_position(m.deep_view(), name, from),
    decreases m.names.len() - from,
{
    if from < m.names.len() && m.names[from]@ != name {
        lemma_position_in_view(m, name, from + 1);
    }
}

/// What `insert` does to the view of a map: it puts the entry.
pub proof fn lemma_insert_view<V: DeepView>(
    before: StringMap<V>,
    after: StringMap<V>,
    name: String,
    value: V,
)
    requires
        before.wf(),
        before.contains(name@) ==> after.names@ == before.names@ && after.values@
            == before.values@.update(position(before.names@, name@), value),
        !before.contains(name@) ==> after.names@ == before.names@.push(name) && after.values@
            == before.values@.push(value),
    ensures
        after.deep_view() == put_entry(before.deep_view(), name@, value.deep_view()),
{
    lemma_position_in_view(before, name@, 0);
    lemma_position_from_bounds(before.names@, name@, 0);
    assert(after.deep_view() =~= put_entry(before.deep_view(), name@, value.deep_view()));
}

} // verus!
