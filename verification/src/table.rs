//! A table from names to values, where a later entry for a name replaces an
//! earlier one (as in a hash map), kept in insertion order.
use vstd::prelude::*;

verus! {

/// The value the entries give for `k`: that of the last entry named `k`.
pub open spec fn lookup<V>(s: Seq<(String, V)>, k: Seq<char>) -> Option<V>
    decreases s.len(),
{
    if s.len() == 0 {
        None
    } else if s.last().0@ == k {
        Some(s.last().1)
    } else {
        lookup(s.drop_last(), k)
    }
}

pub struct NameTable<V> {
    entries: Vec<(String, V)>,
}

impl<V> NameTable<V> {
    /// The entries, oldest first.
    pub closed spec fn entries(&self) -> Seq<(String, V)> {
        self.entries@
    }

    /// The value recorded for `k`.
    pub open spec fn get_spec(&self, k: Seq<char>) -> Option<V> {
        lookup(self.entries(), k)
    }

    pub fn new() -> (r: Self)
        ensures
            r.entries().len() == 0,
            forall|k: Seq<char>| r.get_spec(k) is None,
    {
        NameTable { entries: Vec::new() }
    }

    /// Records `v` for `name`, replacing what was recorded for it before.
    pub fn insert(&mut self, name: String, v: V)
        ensures
            final(self).entries() == old(self).entries().push((name, v)),
            final(self).get_spec(name@) == Some(v),
            forall|k: Seq<char>| k != name@ ==> final(self).get_spec(k) == old(self).get_spec(k),
    {
        self.entries.push((name, v));
        assert(self.entries@.drop_last() =~= old(self).entries@);
    }

    /// Forgets every entry.
    pub fn clear(&mut self)
        ensures
            final(self).entries().len() == 0,
            forall|k: Seq<char>| final(self).get_spec(k) is None,
    {
        self.entries = Vec::new();
    }

    /// The value recorded for `name`.
    pub fn get(&self, name: &str) -> (r: Option<&V>)
        ensures
            match self.get_spec(name@) {
                Some(v) => r matches Some(x) && *x == v,
                None => r is None,
            },
    {
        let mut i = self.entries.len();
        assert(self.entries@.subrange(0, i as int) =~= self.entries@);
        while i > 0
            invariant
                i <= self.entries@.len(),
                lookup(self.entries@, name@) == lookup(self.entries@.subrange(0, i as int), name@),
            decreases i,
        {
            let ghost s = self.entries@.subrange(0, i as int);
            assert(s.drop_last() =~= self.entries@.subrange(0, i - 1));
            if crate::text::text_eq(self.entries[i - 1].0.as_str(), name) {
                return Some(&self.entries[i - 1].1);
            }
            i = i - 1;
        }
        None
    }

    /// Whether something is recorded for `name`.
    pub fn contains(&self, name: &str) -> (r: bool)
        ensures
            r == (self.get_spec(name@) is Some),
    {
        self.get(name).is_some()
    }

    pub fn len(&self) -> (r: usize)
        ensures
            r == self.entries().len(),
    {
        self.entries.len()
    }

    /// The `i`-th entry, oldest first.
    pub fn entry(&self, i: usize) -> (r: &(String, V))
        requires
            i < self.entries().len(),
        ensures
            *r == self.entries()[i as int],
    {
        &self.entries[i]
    }
}

/// A name recorded later wins over one recorded earlier.
pub proof fn law_last_insert_wins<V>(s: Seq<(String, V)>, name: String, v: V, w: V)
    ensures
        lookup(s.push((name, v)).push((name, w)), name@) == Some(w),
{
}

} // verus!
