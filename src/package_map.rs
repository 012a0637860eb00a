//! Packages received from peers, keyed by sender.
use vstd::prelude::*;
use crate::primitives::{has_key, same_participant, unique_keys, Entries, ParticipantId};

verus! {

/// Packages received from peers, one per sender: a later package from the same
/// sender replaces the earlier one, so the map never grows on a repeat.
pub struct PackageMap<P> {
    entries: Vec<(ParticipantId, P)>,
}

impl<P> View for PackageMap<P> {
    type V = Entries<P>;

    closed spec fn view(&self) -> Entries<P> {
        self.entries@
    }
}

/// The entries after `v` is stored under `k`: the entry with key `k` is replaced
/// in place, or, where there is none, a new entry is appended.
pub open spec fn put<P>(s: Entries<P>, k: ParticipantId, v: P) -> Entries<P> {
    if has_key(s, k) {
        s.update(choose|i: int| 0 <= i < s.len() && (#[trigger] s[i]).0 == k, (k, v))
    } else {
        s.push((k, v))
    }
}

/// Storing under a key that is already present keeps the number of entries.
pub proof fn lemma_put_present_keeps_len<P>(s: Entries<P>, k: ParticipantId, v: P)
    requires
        has_key(s, k),
    ensures
        put(s, k, v).len() == s.len(),
        has_key(put(s, k, v), k),
{
    let i = choose|i: int| 0 <= i < s.len() && (#[trigger] s[i]).0 == k;
    assert(put(s, k, v)[i].0 == k);
}

impl<P> PackageMap<P> {
    /// No two entries share a sender.
    pub open spec fn wf(&self) -> bool {
        unique_keys(self@)
    }

    pub fn new() -> (r: Self)
        ensures
            r@ == Seq::<(ParticipantId, P)>::empty(),
            r.wf(),
    {
        PackageMap { entries: Vec::new() }
    }

    pub fn len(&self) -> (r: usize)
        ensures
            r == self@.len(),
    {
        self.entries.len()
    }

    pub fn contains(&self, id: &ParticipantId) -> (r: bool)
        ensures
            r == has_key(self@, *id),
    {
        let mut i: usize = 0;
        while i < self.entries.len()
            invariant
                0 <= i <= self.entries@.len(),
                forall|j: int| 0 <= j < i ==> (#[trigger] self.entries@[j]).0 != *id,
            decreases self.entries@.len() - i,
        {
            if same_participant(&self.entries[i].0, id) {
                assert(self.entries@[i as int].0 == *id);
                return true;
            }
            i += 1;
        }
        false
    }

    /// Stores `package` as the one received from `id`.
    pub fn insert(&mut self, id: ParticipantId, package: P)
        requires
            old(self).wf(),
        ensures
            final(self).wf(),
            final(self)@ == put(old(self)@, id, package),
    {
        let mut i: usize = 0;
        while i < self.entries.len()
            invariant
                0 <= i <= self.entries@.len(),
                self.entries@ == old(self).entries@,
                unique_keys(self.entries@),
                forall|j: int| 0 <= j < i ==> (#[trigger] self.entries@[j]).0 != id,
            decreases self.entries@.len() - i,
        {
            if same_participant(&self.entries[i].0, &id) {
                proof {
                    let s = old(self).entries@;
                    assert(s[i as int].0 == id);
                    assert(has_key(s, id));
                    let c = choose|c: int| 0 <= c < s.len() && (#[trigger] s[c]).0 == id;
                    if c < i {
                        assert(s[c].0 != s[i as int].0);
                    } else if c > i {
                        assert(s[i as int].0 != s[c].0);
                    }
                }
                self.entries.set(i, (id, package));
                assert forall|a: int, b: int| 0 <= a < b < self.entries@.len() implies (
                #[trigger] self.entries@[a]).0 != (#[trigger] self.entries@[b]).0 by {
                    let s = old(self).entries@;
                    assert(s[a].0 != s[b].0);
                }
                return;
            }
            i += 1;
        }
        assert(!has_key(self.entries@, id));
        self.entries.push((id, package));
        assert forall|a: int, b: int| 0 <= a < b < self.entries@.len() implies (
        #[trigger] self.entries@[a]).0 != (#[trigger] self.entries@[b]).0 by {
            let s = old(self).entries@;
            if b < s.len() {
                assert(s[a].0 != s[b].0);
            } else {
                assert(s[a].0 != id);
            }
        }
    }

    /// The entries in the order they were first received.
    pub fn entries(&self) -> (r: &Vec<(ParticipantId, P)>)
        ensures
            r@ == self@,
    {
        &self.entries
    }
}

} // verus!
