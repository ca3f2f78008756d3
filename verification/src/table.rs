//! A small mapping from names to values.

use vstd::prelude::*;

verus! {

/// The place of the first pair under `name`, or the number of pairs if there is none.
pub open spec fn position<T>(pairs: Seq<(Seq<char>, T)>, name: Seq<char>) -> int
    decreases pairs.len(),
{
    if pairs.len() == 0 {
        0
    } else if pairs[0].0 == name {
        0
    } else {
        1 + position(pairs.drop_first(), name)
    }
}

/// The first pair under a name is the one that no pair under that name stands before.
pub proof fn position_is_first<T>(pairs: Seq<(Seq<char>, T)>, name: Seq<char>, index: int)
    requires
        0 <= index <= pairs.len(),
        forall|i: int| 0 <= i < index ==> (#[trigger] pairs[i]).0 != name,
        index < pairs.len() ==> pairs[index].0 == name,
    ensures
        position(pairs, name) == index,
    decreases pairs.len(),
{
    if index > 0 {
        let rest = pairs.drop_first();
        assert forall|i: int| 0 <= i < index - 1 implies (#[trigger] rest[i]).0 != name by {
            assert(rest[i] == pairs[i + 1]);
        }
        position_is_first(rest, name, index - 1);
    }
}

/// Where [`position`] points, and what stands before it.
pub proof fn position_points<T>(pairs: Seq<(Seq<char>, T)>, name: Seq<char>)
    ensures
        0 <= position(pairs, name) <= pairs.len(),
        forall|i: int| 0 <= i < position(pairs, name) ==> (#[trigger] pairs[i]).0 != name,
        position(pairs, name) < pairs.len() ==> pairs[position(pairs, name)].0 == name,
    decreases pairs.len(),
{
    if pairs.len() > 0 && pairs[0].0 != name {
        let rest = pairs.drop_first();
        position_points(rest, name);
        assert forall|i: int| 0 <= i < position(pairs, name) implies (#[trigger] pairs[i]).0
            != name by {
            if i > 0 {
                assert(rest[i - 1] == pairs[i]);
            }
        }
    }
}

/// The mapping that a list of pairs stands for: each name is mapped to the value of the first
/// pair under it.
pub open spec fn mapping<T>(pairs: Seq<(Seq<char>, T)>) -> Map<Seq<char>, T> {
    Map::new(
        |name: Seq<char>| position(pairs, name) < pairs.len(),
        |name: Seq<char>| pairs[position(pairs, name)].1,
    )
}

/// The pairs after `value` is put under `name`: in the place of the pair that was under that
/// name, or at the end if there was none.
pub open spec fn put<T>(pairs: Seq<(Seq<char>, T)>, name: Seq<char>, value: T) -> Seq<
    (Seq<char>, T),
> {
    if position(pairs, name) < pairs.len() {
        pairs.update(position(pairs, name), (name, value))
    } else {
        pairs.push((name, value))
    }
}

/// Putting a value under a name changes the mapping at that name and nowhere else.
pub proof fn put_inserts<T>(pairs: Seq<(Seq<char>, T)>, name: Seq<char>, value: T)
    ensures
        mapping(put(pairs, name, value)) == mapping(pairs).insert(name, value),
{
    let after = put(pairs, name, value);
    let at = position(pairs, name);
    position_points(pairs, name);
    assert forall|other: Seq<char>|
        position(after, other) < after.len() <==> (other == name || position(pairs, other)
            < pairs.len()) by {
        put_moves_nothing(pairs, name, value, other);
    }
    assert forall|other: Seq<char>| position(after, other) < after.len() implies after[position(
        after,
        other,
    )].1 == (if other == name {
        value
    } else {
        pairs[position(pairs, other)].1
    }) by {
        put_moves_nothing(pairs, name, value, other);
    }
    assert(mapping(after) =~= mapping(pairs).insert(name, value));
}

/// Putting a value under a name leaves every name in its place; a new name takes the place
/// behind the last.
pub proof fn put_moves_nothing<T>(
    pairs: Seq<(Seq<char>, T)>,
    name: Seq<char>,
    value: T,
    other: Seq<char>,
)
    ensures
        position(put(pairs, name, value), other) == (if other == name || position(pairs, other)
            < pairs.len() {
            position(pairs, other)
        } else {
            pairs.len() + (if position(pairs, name) < pairs.len() {
                0int
            } else {
                1int
            })
        }),
        put(pairs, name, value).len() == pairs.len() + (if position(pairs, name) < pairs.len() {
            0int
        } else {
            1int
        }),
        position(put(pairs, name, value), name) < put(pairs, name, value).len(),
        put(pairs, name, value)[position(pairs, name)] == (name, value),
        other != name && position(pairs, other) < pairs.len() ==> put(pairs, name, value)[position(
            pairs,
            other,
        )] == pairs[position(pairs, other)],
{
    let after = put(pairs, name, value);
    let at = position(pairs, name);
    let p = position(pairs, other);
    position_points(pairs, name);
    position_points(pairs, other);
    if other == name {
        assert forall|i: int| 0 <= i < at implies (#[trigger] after[i]).0 != other by {
            assert(after[i] == pairs[i]);
        }
        position_is_first(after, other, at);
    } else if p < pairs.len() {
        assert forall|i: int| 0 <= i < p implies (#[trigger] after[i]).0 != other by {
            if i != at {
                assert(after[i] == pairs[i]);
            }
        }
        assert(after[p] == pairs[p]);
        position_is_first(after, other, p);
    } else {
        assert forall|i: int| 0 <= i < after.len() implies (#[trigger] after[i]).0 != other by {
            if i != at {
                assert(after[i] == pairs[i]);
            }
        }
        position_is_first(after, other, after.len() as int);
    }
    if other != name {
        assert forall|i: int| 0 <= i < at implies (#[trigger] after[i]).0 != name by {
            assert(after[i] == pairs[i]);
        }
        position_is_first(after, name, at);
    }
}

/// A mapping from names to values, kept in the order in which the names first came.
#[derive(Debug, PartialEq, Eq)]
pub struct NameMap<V> {
    entries: Vec<(String, V)>,
}

impl<V: View> NameMap<V> {
    /// The names and values held, in the order in which the names first came.
    pub closed spec fn pairs(&self) -> Seq<(Seq<char>, V::V)> {
        Seq::new(self.entries@.len(), |i: int| (self.entries@[i].0@, self.entries@[i].1@))
    }

    /// A mapping that holds nothing.
    pub fn new() -> (r: Self)
        ensures
            r.pairs() == Seq::<(Seq<char>, V::V)>::empty(),
            r@ == Map::<Seq<char>, V::V>::empty(),
    {
        let r = NameMap { entries: Vec::new() };
        assert(r.pairs() =~= Seq::<(Seq<char>, V::V)>::empty());
        assert(r@ =~= Map::<Seq<char>, V::V>::empty());
        r
    }

    /// The number of names held.
    pub fn len(&self) -> (r: usize)
        ensures
            r == self.pairs().len(),
    {
        self.entries.len()
    }

    /// The name in place `index`.
    pub fn name_at(&self, index: usize) -> (r: &String)
        requires
            index < self.pairs().len(),
        ensures
            r@ == self.pairs()[index as int].0,
    {
        &self.entries[index].0
    }

    /// The value in place `index`.
    pub fn value_at(&self, index: usize) -> (r: &V)
        requires
            index < self.pairs().len(),
        ensures
            r@ == self.pairs()[index as int].1,
    {
        &self.entries[index].1
    }

    /// The place of `name`, or the number of names if it is not held.
    fn find(&self, name: &str) -> (r: usize)
        ensures
            r == position(self.pairs(), name@),
            r <= self.entries@.len(),
    {
        let mut i: usize = 0;
        while i < self.entries.len()
            invariant
                i <= self.entries@.len(),
                forall|j: int| 0 <= j < i ==> (#[trigger] self.pairs()[j]).0 != name@,
            decreases self.entries@.len() - i,
        {
            if same_text(self.entries[i].0.as_str(), name) {
                proof {
                    position_is_first(self.pairs(), name@, i as int);
                }
                return i;
            }
            i += 1;
        }
        proof {
            position_is_first(self.pairs(), name@, i as int);
        }
        i
    }

    /// The value under `name`, if there is one.
    pub fn get(&self, name: &str) -> (r: Option<&V>)
        ensures
            match r {
                Some(value) => self@.contains_key(name@) && self@[name@] == value@,
                None => !self@.contains_key(name@),
            },
    {
        let at = self.find(name);
        if at < self.entries.len() {
            Some(&self.entries[at].1)
        } else {
            None
        }
    }

    /// Puts `value` under `name`. What stood under that name before is replaced.
    pub fn insert(&mut self, name: String, value: V)
        ensures
            final(self)@ == old(self)@.insert(name@, value@),
            final(self).pairs() == put(old(self).pairs(), name@, value@),
    {
        let at = self.find(name.as_str());
        proof {
            put_inserts(self.pairs(), name@, value@);
        }
        let ghost before = self.pairs();
        if at < self.entries.len() {
            self.entries.set(at, (name, value));
            assert(self.pairs() =~= before.update(at as int, (name@, value@)));
        } else {
            self.entries.push((name, value));
            assert(self.pairs() =~= before.push((name@, value@)));
        }
    }
}

impl Clone for NameMap<String> {
    fn clone(&self) -> (r: Self)
        ensures
            r.pairs() == self.pairs(),
            r@ == self@,
    {
        let mut entries: Vec<(String, String)> = Vec::new();
        let mut i: usize = 0;
        while i < self.entries.len()
            invariant
                i <= self.entries@.len(),
                entries@.len() == i,
                forall|j: int|
                    0 <= j < i ==> (#[trigger] entries@[j]).0@ == self.entries@[j].0@ && entries@[j].1@
                        == self.entries@[j].1@,
            decreases self.entries@.len() - i,
        {
            entries.push((self.entries[i].0.clone(), self.entries[i].1.clone()));
            i += 1;
        }
        let r = NameMap { entries };
        assert(r.pairs() =~= self.pairs());
        r
    }
}

impl<V: View> View for NameMap<V> {
    type V = Map<Seq<char>, V::V>;

    open spec fn view(&self) -> Map<Seq<char>, V::V> {
        mapping(self.pairs())
    }
}

/// Whether two texts hold the same characters.
pub fn same_text(a: &str, b: &str) -> (r: bool)
    ensures
        r == (a@ == b@),
{
    crate::text::same_chars(&crate::text::chars_of(a), &crate::text::chars_of(b))
}

} // verus!
