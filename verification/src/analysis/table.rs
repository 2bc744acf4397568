//! A table from names to values, kept as a list of entries in which a later
//! entry for a name hides the earlier ones.

use vstd::prelude::*;
use vstd::string::*;

verus! {

/// A table from names to values.
pub struct Table<V> {
    pub entries: Vec<(String, V)>,
}

/// The map that a list of entries stands for: each entry in turn binds its
/// name, so that the last entry for a name is the one that counts.
pub open spec fn entries_map<V: DeepView>(s: Seq<(String, V)>) -> Map<Seq<char>, V::V>
    decreases s.len(),
{
    if s.len() == 0 {
        Map::empty()
    } else {
        entries_map(s.drop_last()).insert(s.last().0@, s.last().1.deep_view())
    }
}

impl<V: DeepView> Table<V> {
    /// The map that the table stands for.
    pub open spec fn model(&self) -> Map<Seq<char>, V::V> {
        entries_map(self.entries@)
    }

    /// An empty table.
    pub fn new() -> (t: Table<V>)
        ensures
            t.model() == Map::<Seq<char>, V::V>::empty(),
    {
        Table { entries: Vec::new() }
    }

    /// Binds `key` to `value`, in place of whatever it was bound to.
    pub fn insert(&mut self, key: String, value: V)
        ensures
            final(self).model() == old(self).model().insert(key@, value.deep_view()),
    {
        self.entries.push((key, value));
        proof {
            assert(final(self).entries@.drop_last() =~= old(self).entries@);
        }
    }

    /// The value that `key` is bound to, if it is bound.
    pub fn get(&self, key: &String) -> (r: Option<&V>)
        ensures
            r is Some <==> self.model().contains_key(key@),
            r matches Some(v) ==> self.model()[key@] == v.deep_view(),
    {
        let mut i: usize = self.entries.len();
        proof {
            assert(self.entries@.take(i as int) =~= self.entries@);
        }
        while i > 0
            invariant
                i <= self.entries@.len(),
                self.model().contains_key(key@) <==> entries_map(
                    self.entries@.take(i as int),
                ).contains_key(key@),
                self.model().contains_key(key@) ==> self.model()[key@] == entries_map(
                    self.entries@.take(i as int),
                )[key@],
            decreases i,
        {
            proof {
                let cur = self.entries@.take(i as int);
                assert(cur.drop_last() =~= self.entries@.take(i - 1));
                assert(cur.last() == self.entries@[i - 1]);
            }
            i -= 1;
            if self.entries[i].0 == *key {
                return Some(&self.entries[i].1);
            }
        }
        proof {
            assert(self.entries@.take(0) =~= Seq::<(String, V)>::empty());
        }
        None
    }

    /// Whether `key` is bound.
    pub fn contains(&self, key: &String) -> (b: bool)
        ensures
            b == self.model().contains_key(key@),
    {
        self.get(key).is_some()
    }
}

} // verus!
