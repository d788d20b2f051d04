//! The connection registry: the single source of truth for which client
//! identifiers are currently reachable, and through which write handle.
//! Handles are opaque tokens (`u64`); the caller keys its transport
//! endpoints by them. Registering an identifier that is already present
//! silently replaces the old handle, as re-registration must.

use vstd::prelude::*;
use crate::bytes::bytes_eq;

verus! {

/// One registered connection: an identifier and its write handle.
pub struct Entry {
    pub id: Vec<u8>,
    pub handle: u64,
}

/// Mapping from client identifier to the write handle of the most
/// recently registered connection under that identifier.
pub struct Registry {
    entries: Vec<Entry>,
}

/// The map an entry list denotes: later entries win, so the list is kept
/// duplicate-free and the fold order is immaterial.
pub open spec fn entries_map(s: Seq<Entry>) -> Map<Seq<u8>, u64>
    decreases s.len(),
{
    if s.len() == 0 {
        Map::empty()
    } else {
        entries_map(s.drop_last()).insert(s.last().id@, s.last().handle)
    }
}

impl View for Registry {
    type V = Map<Seq<u8>, u64>;

    closed spec fn view(&self) -> Map<Seq<u8>, u64> {
        entries_map(self.entries@)
    }
}

impl Registry {
    /// No two entries claim the same identifier.
    pub closed spec fn wf(&self) -> bool {
        forall|i: int, j: int|
            0 <= i < j < self.entries@.len() ==> self.entries@[i].id@ != self.entries@[j].id@
    }

    /// An empty registry: nobody is reachable.
    pub fn new() -> (r: Registry)
        ensures
            r.wf(),
            r@ == Map::<Seq<u8>, u64>::empty(),
    {
        Registry { entries: Vec::new() }
    }

    /// Inserts or silently replaces the entry for `id`.
    pub fn register(&mut self, id: Vec<u8>, handle: u64)
        requires
            old(self).wf(),
        ensures
            final(self).wf(),
            final(self)@ == old(self)@.insert(id@, handle),
    {
        let n = self.entries.len();
        let mut i: usize = 0;
        while i < n
            invariant
                self == old(self),
                self.wf(),
                n == self.entries@.len(),
                i <= n,
                forall|j: int| 0 <= j < i ==> self.entries@[j].id@ != id@,
            decreases n - i,
        {
            if bytes_eq(self.entries[i].id.as_slice(), id.as_slice()) {
                let ghost olds = self.entries@;
                self.entries.set(i, Entry { id, handle });
                proof {
                    lemma_entries_map_update(olds, i as int, self.entries@[i as int]);
                }
                return ;
            }
            i = i + 1;
        }
        let ghost olds = self.entries@;
        self.entries.push(Entry { id, handle });
        proof {
            assert(self.entries@.drop_last() =~= olds);
        }
    }

    /// The current handle for `id`, or `None` when `id` is absent.
    pub fn lookup(&self, id: &[u8]) -> (r: Option<u64>)
        requires
            self.wf(),
        ensures
            r == (if self@.dom().contains(id@) {
                Some(self@[id@])
            } else {
                None::<u64>
            }),
    {
        let n = self.entries.len();
        let mut i: usize = 0;
        while i < n
            invariant
                self.wf(),
                n == self.entries@.len(),
                i <= n,
                forall|j: int| 0 <= j < i ==> self.entries@[j].id@ != id@,
            decreases n - i,
        {
            if bytes_eq(self.entries[i].id.as_slice(), id) {
                proof {
                    lemma_entries_map_index(self.entries@, i as int);
                }
                return Some(self.entries[i].handle);
            }
            i = i + 1;
        }
        proof {
            lemma_entries_map_absent(self.entries@, id@);
        }
        None
    }

    /// Removes the entry for `id`, if present.
    pub fn deregister(&mut self, id: &[u8])
        requires
            old(self).wf(),
        ensures
            final(self).wf(),
            final(self)@ == old(self)@.remove(id@),
    {
        let n = self.entries.len();
        let mut i: usize = 0;
        while i < n
            invariant
                self == old(self),
                self.wf(),
                n == self.entries@.len(),
                i <= n,
                forall|j: int| 0 <= j < i ==> self.entries@[j].id@ != id@,
            decreases n - i,
        {
            if bytes_eq(self.entries[i].id.as_slice(), id) {
                let ghost olds = self.entries@;
                self.entries.remove(i);
                proof {
                    lemma_entries_map_remove(olds, i as int);
                    assert forall|a: int, b: int|
                        0 <= a < b < self.entries@.len() implies self.entries@[a].id@
                        != self.entries@[b].id@ by {
                        let a0: int = if a < i { a } else { a + 1 };
                        let b0: int = if b < i { b } else { b + 1 };
                        assert(self.entries@[a] == olds[a0]);
                        assert(self.entries@[b] == olds[b0]);
                    }
                }
                return ;
            }
            i = i + 1;
        }
        proof {
            lemma_entries_map_absent(self.entries@, id@);
            assert(self@ =~= self@.remove(id@));
        }
    }
}

/// Every entry of a duplicate-free list is in its map, at its handle.
proof fn lemma_entries_map_index(s: Seq<Entry>, i: int)
    requires
        0 <= i < s.len(),
        forall|a: int, b: int| 0 <= a < b < s.len() ==> s[a].id@ != s[b].id@,
    ensures
        entries_map(s).dom().contains(s[i].id@),
        entries_map(s)[s[i].id@] == s[i].handle,
    decreases s.len(),
{
    if i < s.len() - 1 {
        assert(s.drop_last()[i] == s[i]);
        lemma_entries_map_index(s.drop_last(), i);
        assert(s[i].id@ != s.last().id@);
    }
}

/// An identifier no entry claims is not in the map.
proof fn lemma_entries_map_absent(s: Seq<Entry>, id: Seq<u8>)
    requires
        forall|j: int| 0 <= j < s.len() ==> s[j].id@ != id,
    ensures
        !entries_map(s).dom().contains(id),
    decreases s.len(),
{
    if s.len() > 0 {
        assert(forall|j: int| 0 <= j < s.drop_last().len() ==> s.drop_last()[j] == s[j]);
        lemma_entries_map_absent(s.drop_last(), id);
    }
}

/// Replacing the one entry that claims an identifier inserts over it.
proof fn lemma_entries_map_update(s: Seq<Entry>, i: int, e: Entry)
    requires
        0 <= i < s.len(),
        forall|a: int, b: int| 0 <= a < b < s.len() ==> s[a].id@ != s[b].id@,
        e.id@ == s[i].id@,
    ensures
        entries_map(s.update(i, e)) == entries_map(s).insert(e.id@, e.handle),
    decreases s.len(),
{
    let t = s.update(i, e);
    if i == s.len() - 1 {
        assert(t.drop_last() =~= s.drop_last());
        assert(t.last() == e);
        assert(entries_map(t) =~= entries_map(s).insert(e.id@, e.handle));
    } else {
        assert(t.drop_last() =~= s.drop_last().update(i, e));
        assert(s.drop_last()[i] == s[i]);
        assert(forall|a: int, b: int|
            0 <= a < b < s.drop_last().len() ==> s.drop_last()[a].id@ != s.drop_last()[b].id@);
        lemma_entries_map_update(s.drop_last(), i, e);
        assert(t.last() == s.last());
        assert(s.last().id@ != e.id@);
        assert(entries_map(t) =~= entries_map(s).insert(e.id@, e.handle));
    }
}

/// Removing the one entry that claims an identifier removes it from the
/// map.
proof fn lemma_entries_map_remove(s: Seq<Entry>, i: int)
    requires
        0 <= i < s.len(),
        forall|a: int, b: int| 0 <= a < b < s.len() ==> s[a].id@ != s[b].id@,
    ensures
        entries_map(s.remove(i)) == entries_map(s).remove(s[i].id@),
    decreases s.len(),
{
    let t = s.remove(i);
    if i == s.len() - 1 {
        assert(t =~= s.drop_last());
        assert(forall|j: int| 0 <= j < s.drop_last().len() ==> s.drop_last()[j] == s[j]);
        lemma_entries_map_absent(s.drop_last(), s[i].id@);
        assert(entries_map(t) =~= entries_map(s).remove(s[i].id@));
    } else {
        assert(t.drop_last() =~= s.drop_last().remove(i));
        assert(s.drop_last()[i] == s[i]);
        assert(forall|a: int, b: int|
            0 <= a < b < s.drop_last().len() ==> s.drop_last()[a].id@ != s.drop_last()[b].id@);
        lemma_entries_map_remove(s.drop_last(), i);
        assert(t.last() == s.last());
        assert(s.last().id@ != s[i].id@);
        assert(entries_map(t) =~= entries_map(s).remove(s[i].id@));
    }
}

} // verus!
