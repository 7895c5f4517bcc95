use vstd::prelude::*;

use crate::text::same_text;

verus! {

/// The value stored last under `key` among `entries`, if any.
pub open spec fn last_under<T>(entries: Seq<(String, T)>, key: Seq<char>) -> Option<T>
    decreases entries.len(),
{
    if entries.len() == 0 {
        None
    } else if entries.last().0@ == key {
        Some(entries.last().1)
    } else {
        last_under(entries.drop_last(), key)
    }
}

/// Reference records indexed by their name. A later insertion under a name replaces
/// the earlier one, as in a map.
#[derive(Debug, Clone)]
pub struct NameIndex<T> {
    pub entries: Vec<(String, T)>,
}

impl<T> NameIndex<T> {
    /// What the index holds under `key`.
    pub open spec fn lookup(&self, key: Seq<char>) -> Option<T> {
        last_under(self.entries@, key)
    }

    pub fn new() -> (r: Self)
        ensures
            forall|k: Seq<char>| r.lookup(k) is None,
    {
        NameIndex { entries: Vec::new() }
    }

    /// Stores `value` under `name`, replacing what was stored under it.
    pub fn insert(&mut self, name: String, value: T)
        ensures
            final(self).lookup(name@) == Some(value),
            forall|k: Seq<char>| k != name@ ==> final(self).lookup(k) == old(self).lookup(k),
    {
        let ghost key = name@;
        self.entries.push((name, value));
        assert(self.entries@.drop_last() =~= old(self).entries@);
        assert forall|k: Seq<char>| k != key implies self.lookup(k) == old(self).lookup(k) by {
            assert(self.entries@.drop_last() =~= old(self).entries@);
        }
    }

    /// The value stored under `name`, if any.
    pub fn get(&self, name: &str) -> (r: Option<&T>)
        ensures
            match r {
                Some(v) => self.lookup(name@) == Some(*v),
                None => self.lookup(name@) is None,
            },
    {
        let mut i = self.entries.len();
        assert(self.entries@.take(i as int) =~= self.entries@);
        while i > 0
            invariant
                i <= self.entries@.len(),
                last_under(self.entries@.take(i as int), name@) == self.lookup(name@),
            decreases i,
        {
            let ghost prefix = self.entries@.take(i as int);
            assert(prefix.drop_last() =~= self.entries@.take(i - 1));
            if same_text(self.entries[i - 1].0.as_str(), name) {
                return Some(&self.entries[i - 1].1);
            }
            i = i - 1;
        }
        None
    }

    /// Whether a value is stored under `name`.
    pub fn contains_key(&self, name: &str) -> (r: bool)
        ensures
            r == self.lookup(name@) is Some,
    {
        match self.get(name) {
            Some(_) => true,
            None => false,
        }
    }
}

} // verus!
