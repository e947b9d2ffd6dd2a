//! The per-guest socket registry.
//!
//! Kernel socket objects are named inside one guest by small integer ids.
//! Ids are assigned from a counter that never decreases within a guest's
//! lifetime, so an id is never reused after close; a missing id on lookup is
//! `None`, which the calling ABI stub surfaces to the guest as -1. A guest
//! can name only its own registry, so it cannot observe a peer's entries.

use vstd::prelude::*;

verus! {

/// One live registry entry: a guest-visible id and the kernel socket token
/// it names.
#[derive(Clone, Copy, PartialEq, Eq, Structural, Debug)]
pub struct SocketEntry {
    pub id: i32,
    pub handle: u64,
}

/// The token the first entry with the given id names, if any.
pub open spec fn seq_get(entries: Seq<SocketEntry>, id: i32) -> Option<u64>
    decreases entries.len(),
{
    if entries.len() == 0 {
        None
    } else if entries[0].id == id {
        Some(entries[0].handle)
    } else {
        seq_get(entries.drop_first(), id)
    }
}

/// The mapping from guest-visible ids to kernel socket tokens for one guest.
#[derive(Debug)]
pub struct SocketRegistry {
    /// Live entries, in order of assignment.
    pub entries: Vec<SocketEntry>,
    /// The next id to assign; never decreases.
    pub next_id: i32,
}

impl SocketRegistry {
    /// Well-formed: ids are non-negative, strictly increasing in assignment
    /// order, and all below the counter.
    pub open spec fn wf(self) -> bool {
        &&& 0 <= self.next_id
        &&& forall|i: int|
            0 <= i < self.entries@.len() ==> 0 <= (#[trigger] self.entries@[i].id) < self.next_id
        &&& forall|i: int, j: int|
            0 <= i < j < self.entries@.len() ==> self.entries@[i].id < self.entries@[j].id
    }

    /// The kernel token a live id names, if any.
    pub open spec fn spec_get(self, id: i32) -> Option<u64> {
        seq_get(self.entries@, id)
    }

    /// Whether some live entry has the given id.
    pub open spec fn spec_contains(self, id: i32) -> bool {
        self.spec_get(id) is Some
    }

    /// An empty registry with the id counter at zero.
    pub fn new() -> (r: SocketRegistry)
        ensures
            r.wf(),
            r.entries@ =~= Seq::<SocketEntry>::empty(),
            r.next_id == 0,
            forall|id: i32| r.spec_get(id) == None::<u64>,
    {
        SocketRegistry { entries: Vec::new(), next_id: 0 }
    }

    /// Registers a kernel socket token and returns the fresh id that names
    /// it. Ids grow monotonically; no id is ever handed out twice.
    pub fn add_handle(&mut self, handle: u64) -> (id: i32)
        requires
            old(self).wf(),
            old(self).next_id < i32::MAX,
        ensures
            final(self).wf(),
            id == old(self).next_id,
            final(self).next_id == old(self).next_id + 1,
            final(self).entries@ =~= old(self).entries@ + seq![SocketEntry { id, handle }],
            final(self).spec_get(id) == Some(handle),
            forall|other: i32|
                other != id ==> final(self).spec_get(other) == old(self).spec_get(other),
    {
        let id = self.next_id;
        self.next_id = self.next_id + 1;
        self.entries.push(SocketEntry { id, handle });
        proof {
            let pre = old(self).entries@;
            let e = SocketEntry { id, handle };
            assert(self.entries@ =~= pre + seq![e]);
            lemma_seq_get_append(pre, e, id);
            assert forall|k: int| 0 <= k < pre.len() implies (#[trigger] pre[k].id) != id by {
                assert(pre[k].id < old(self).next_id);
            }
            lemma_seq_get_absent_all(pre, id);
            assert forall|other: i32| other != id implies self.spec_get(other) == seq_get(
                pre,
                other,
            ) by {
                lemma_seq_get_append(pre, e, other);
            }
        }
        id
    }

    /// Looks an id up; `None` exactly when no live entry has it.
    pub fn get_handle(&self, id: i32) -> (r: Option<u64>)
        ensures
            r == self.spec_get(id),
    {
        let n = self.entries.len();
        let mut i: usize = 0;
        proof {
            assert(self.entries@.skip(0) =~= self.entries@);
        }
        while i < n
            invariant
                i <= n,
                n == self.entries@.len(),
                seq_get(self.entries@, id) == seq_get(self.entries@.skip(i as int), id),
            decreases n - i,
        {
            let e = self.entries[i];
            proof {
                assert(self.entries@.skip(i as int)[0] == self.entries@[i as int]);
                assert(self.entries@.skip(i as int).drop_first() =~= self.entries@.skip(i + 1));
            }
            if e.id == id {
                return Some(e.handle);
            }
            i = i + 1;
        }
        proof {
            assert(self.entries@.skip(n as int).len() == 0);
        }
        None
    }

    /// Drops the entry named by `id`, keeping every other entry and the id
    /// counter; the id is not reused later. Returns the token the id named,
    /// or `None` if it named nothing, in which case nothing changes.
    pub fn drop_handle(&mut self, id: i32) -> (r: Option<u64>)
        requires
            old(self).wf(),
        ensures
            final(self).wf(),
            r == old(self).spec_get(id),
            final(self).next_id == old(self).next_id,
            final(self).spec_get(id) == None::<u64>,
            forall|other: i32|
                other != id ==> final(self).spec_get(other) == old(self).spec_get(other),
            r is None ==> *final(self) == *old(self),
    {
        let n = self.entries.len();
        let mut i: usize = 0;
        proof {
            assert(self.entries@.skip(0) =~= self.entries@);
        }
        while i < n
            invariant
                i <= n,
                n == self.entries@.len(),
                self == old(self),
                old(self).wf(),
                seq_get(self.entries@, id) == seq_get(self.entries@.skip(i as int), id),
                forall|k: int| 0 <= k < i ==> (#[trigger] self.entries@[k].id) != id,
            decreases n - i,
        {
            let e = self.entries[i];
            proof {
                assert(self.entries@.skip(i as int)[0] == self.entries@[i as int]);
                assert(self.entries@.skip(i as int).drop_first() =~= self.entries@.skip(i + 1));
            }
            if e.id == id {
                let ghost pre = self.entries@;
                self.entries.remove(i);
                proof {
                    assert(seq_get(pre, id) == Some(e.handle));
                    assert(self.entries@ =~= pre.remove(i as int));
                    lemma_wf_remove(pre, i as int, old(self).next_id);
                    assert forall|other: i32| other != id implies seq_get(self.entries@, other)
                        == seq_get(pre, other) by {
                        lemma_seq_get_remove(pre, i as int, other);
                    }
                    assert forall|k: int|
                        0 <= k < self.entries@.len() implies (#[trigger] self.entries@[k].id)
                        != id by {
                        if k < i {
                            assert(self.entries@[k] == pre[k]);
                        } else {
                            assert(self.entries@[k] == pre[k + 1]);
                            assert(pre[i as int].id < pre[k + 1].id);
                        }
                    }
                    lemma_seq_get_absent_all(self.entries@, id);
                }
                return Some(e.handle);
            }
            i = i + 1;
        }
        proof {
            assert(self.entries@.skip(n as int).len() == 0);
        }
        None
    }
}

/// Appending an entry changes only the lookup of its own id, and that only
/// when the id was absent.
proof fn lemma_seq_get_append(s: Seq<SocketEntry>, e: SocketEntry, id: i32)
    ensures
        seq_get(s + seq![e], id) == if seq_get(s, id) is Some {
            seq_get(s, id)
        } else if e.id == id {
            Some(e.handle)
        } else {
            None
        },
    decreases s.len(),
{
    if s.len() == 0 {
        assert(s + seq![e] =~= seq![e]);
        assert((s + seq![e]).len() == 1);
    } else {
        assert((s + seq![e])[0] == s[0]);
        assert((s + seq![e]).drop_first() =~= s.drop_first() + seq![e]);
        lemma_seq_get_append(s.drop_first(), e, id);
    }
}

/// A sequence in which no entry has the id looks the id up to `None`.
proof fn lemma_seq_get_absent_all(s: Seq<SocketEntry>, id: i32)
    requires
        forall|i: int| 0 <= i < s.len() ==> (#[trigger] s[i].id) != id,
    ensures
        seq_get(s, id) == None::<u64>,
    decreases s.len(),
{
    if s.len() > 0 {
        lemma_seq_get_absent_all(s.drop_first(), id);
    }
}

/// Removing one entry keeps every other id's lookup, as long as the removed
/// entry's id is not looked up.
proof fn lemma_seq_get_remove(s: Seq<SocketEntry>, i: int, other: i32)
    requires
        0 <= i < s.len(),
        s[i].id != other,
    ensures
        seq_get(s.remove(i), other) == seq_get(s, other),
    decreases i,
{
    if i == 0 {
        assert(s.remove(0) =~= s.drop_first());
    } else {
        assert(s.remove(i)[0] == s[0]);
        if s[0].id != other {
            assert(s.remove(i).drop_first() =~= s.drop_first().remove(i - 1));
            lemma_seq_get_remove(s.drop_first(), i - 1, other);
        }
    }
}

/// Removing an entry keeps ids strictly increasing and below the counter.
proof fn lemma_wf_remove(s: Seq<SocketEntry>, i: int, bound: i32)
    requires
        0 <= i < s.len(),
        forall|k: int| 0 <= k < s.len() ==> 0 <= (#[trigger] s[k].id) < bound,
        forall|k: int, l: int| 0 <= k < l < s.len() ==> s[k].id < s[l].id,
    ensures
        forall|k: int| 0 <= k < s.remove(i).len() ==> 0 <= (#[trigger] s.remove(i)[k].id) < bound,
        forall|k: int, l: int| 0 <= k < l < s.remove(i).len() ==> s.remove(i)[k].id < s.remove(
            i,
        )[l].id,
{
    assert forall|k: int, l: int| 0 <= k < l < s.remove(i).len() implies s.remove(i)[k].id
        < s.remove(i)[l].id by {
        let k2 = if k < i {
            k
        } else {
            k + 1
        };
        let l2 = if l < i {
            l
        } else {
            l + 1
        };
        assert(s.remove(i)[k] == s[k2]);
        assert(s.remove(i)[l] == s[l2]);
    }
}

/// Handle isolation between guests: an id that one guest's registry holds
/// names nothing in another registry that never assigned it. Ids a registry
/// never assigned are exactly those at or above its counter, so a fresh id
/// of one guest is invisible in every other guest's registry.
pub proof fn lemma_handle_isolation(g1: SocketRegistry, g2: SocketRegistry, id: i32)
    requires
        g1.wf(),
        g2.wf(),
        g1.spec_contains(id),
        id >= g2.next_id,
    ensures
        g2.spec_get(id) == None::<u64>,
{
    assert forall|k: int| 0 <= k < g2.entries@.len() implies (#[trigger] g2.entries@[k].id)
        != id by {
        assert(g2.entries@[k].id < g2.next_id);
    }
    lemma_seq_get_absent_all(g2.entries@, id);
}

} // verus!
