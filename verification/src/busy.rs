//! The busy set: identifiers currently engaged in an active paired
//! session. An identifier enters on ACCEPT and leaves on DISCONNECT;
//! membership is a pure flag on the identifier, not a pair record.

use vstd::prelude::*;
use crate::bytes::bytes_eq;

verus! {

/// The set of busy client identifiers.
pub struct BusySet {
    ids: Vec<Vec<u8>>,
}

/// The set a list of identifiers denotes.
pub open spec fn ids_set(s: Seq<Vec<u8>>) -> Set<Seq<u8>> {
    Set::new(|id: Seq<u8>| exists|i: int| 0 <= i < s.len() && s[i]@ == id)
}

impl View for BusySet {
    type V = Set<Seq<u8>>;

    closed spec fn view(&self) -> Set<Seq<u8>> {
        ids_set(self.ids@)
    }
}

impl BusySet {
    /// No identifier is listed twice.
    pub closed spec fn wf(&self) -> bool {
        forall|i: int, j: int| 0 <= i < j < self.ids@.len() ==> self.ids@[i]@ != self.ids@[j]@
    }

    /// An empty busy set: nobody is in a session.
    pub fn new() -> (r: BusySet)
        ensures
            r.wf(),
            r@ == Set::<Seq<u8>>::empty(),
    {
        let r = BusySet { ids: Vec::new() };
        proof {
            assert(r@ =~= Set::<Seq<u8>>::empty());
        }
        r
    }

    /// True exactly when `id` is busy.
    pub fn is_busy(&self, id: &[u8]) -> (r: bool)
        ensures
            r == self@.contains(id@),
    {
        let n = self.ids.len();
        let mut i: usize = 0;
        while i < n
            invariant
                n == self.ids@.len(),
                i <= n,
                forall|j: int| 0 <= j < i ==> self.ids@[j]@ != id@,
            decreases n - i,
        {
            if bytes_eq(self.ids[i].as_slice(), id) {
                return true;
            }
            i = i + 1;
        }
        false
    }

    /// Marks `id` busy; marking an already busy identifier changes
    /// nothing.
    pub fn mark_busy(&mut self, id: Vec<u8>)
        requires
            old(self).wf(),
        ensures
            final(self).wf(),
            final(self)@ == old(self)@.insert(id@),
    {
        let n = self.ids.len();
        let mut i: usize = 0;
        while i < n
            invariant
                self == old(self),
                self.wf(),
                n == self.ids@.len(),
                i <= n,
                forall|j: int| 0 <= j < i ==> self.ids@[j]@ != id@,
            decreases n - i,
        {
            if bytes_eq(self.ids[i].as_slice(), id.as_slice()) {
                proof {
                    assert(self@.contains(id@));
                    assert(self@ =~= self@.insert(id@));
                }
                return ;
            }
            i = i + 1;
        }
        let ghost olds = self.ids@;
        self.ids.push(id);
        proof {
            assert forall|x: Seq<u8>| self@.contains(x) <==> ids_set(olds).insert(
                id@,
            ).contains(x) by {
                if x == id@ {
                    assert(self.ids@[olds.len() as int]@ == x);
                }
                if ids_set(olds).contains(x) {
                    let k = choose|k: int| 0 <= k < olds.len() && olds[k]@ == x;
                    assert(self.ids@[k]@ == x);
                }
                if self@.contains(x) {
                    let k = choose|k: int| 0 <= k < self.ids@.len() && self.ids@[k]@ == x;
                    if k < olds.len() {
                        assert(olds[k]@ == x);
                    }
                }
            }
            assert(self@ =~= ids_set(olds).insert(id@));
        }
    }

    /// Clears `id`'s busy flag; clearing an identifier that is not busy
    /// changes nothing.
    pub fn clear_busy(&mut self, id: &[u8])
        requires
            old(self).wf(),
        ensures
            final(self).wf(),
            final(self)@ == old(self)@.remove(id@),
    {
        let n = self.ids.len();
        let mut i: usize = 0;
        while i < n
            invariant
                self == old(self),
                self.wf(),
                n == self.ids@.len(),
                i <= n,
                forall|j: int| 0 <= j < i ==> self.ids@[j]@ != id@,
            decreases n - i,
        {
            if bytes_eq(self.ids[i].as_slice(), id) {
                let ghost olds = self.ids@;
                self.ids.remove(i);
                proof {
                    assert forall|a: int, b: int|
                        0 <= a < b < self.ids@.len() implies self.ids@[a]@ != self.ids@[b]@ by {
                        let a0: int = if a < i { a } else { a + 1 };
                        let b0: int = if b < i { b } else { b + 1 };
                        assert(self.ids@[a] == olds[a0]);
                        assert(self.ids@[b] == olds[b0]);
                    }
                    assert forall|x: Seq<u8>| self@.contains(x) <==> ids_set(olds).remove(
                        id@,
                    ).contains(x) by {
                        if self@.contains(x) {
                            let k = choose|k: int| 0 <= k < self.ids@.len() && self.ids@[k]@ == x;
                            let k0: int = if k < i { k } else { k + 1 };
                            assert(olds[k0]@ == x);
                            assert(k0 != i);
                        }
                        if ids_set(olds).remove(id@).contains(x) {
                            let k = choose|k: int| 0 <= k < olds.len() && olds[k]@ == x;
                            let k1: int = if k < i { k } else { k - 1 };
                            assert(self.ids@[k1]@ == x);
                        }
                    }
                    assert(self@ =~= ids_set(olds).remove(id@));
                }
                return ;
            }
            i = i + 1;
        }
        proof {
            assert(!self@.contains(id@));
            assert(self@ =~= self@.remove(id@));
        }
    }
}

} // verus!
