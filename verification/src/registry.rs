//! The peer registry: which peers the discovery collaborator currently
//! reports as reachable, in the order they were first seen.
//!
//! Discovery feeds it two events, appearance and expiry.  A repeated
//! appearance is a no-op, as is the expiry of an unknown peer; no
//! ordering is assumed between events beyond per-peer causal order.

use vstd::prelude::*;

verus! {

/// Opaque stable identifier the transport layer assigns to a peer.
/// Equality is the only operation the core needs of it; the transport
/// adapter picks the token.
#[derive(Debug, Clone, Copy, PartialEq, Eq, Structural)]
pub struct PeerId {
    pub id: u64,
}

/// A reachable peer, and the registry tick at which it first appeared.
#[derive(Debug, Clone, Copy, PartialEq, Eq, Structural)]
pub struct PeerEntry {
    pub peer: PeerId,
    pub first_seen: u64,
}

/// Whether no two entries name the same peer.
pub open spec fn entries_distinct(s: Seq<PeerEntry>) -> bool {
    forall|i: int, j: int| 0 <= i < j < s.len() ==> #[trigger] s[i].peer != #[trigger] s[j].peer
}

/// Appending an entry for an unlisted peer keeps the entries
/// distinct.
proof fn lemma_distinct_push(s: Seq<PeerEntry>, e: PeerEntry)
    requires
        entries_distinct(s),
        forall|k: int| 0 <= k < s.len() ==> (#[trigger] s[k]).peer != e.peer,
    ensures
        entries_distinct(s.push(e)),
{
    let s1 = s.push(e);
    assert forall|i: int, j: int| 0 <= i < j < s1.len() implies #[trigger] s1[i].peer
        != #[trigger] s1[j].peer by {
        assert(s1[i] == s[i]);
        if j == s1.len() - 1 {
            assert(s1[j] == e);
        } else {
            assert(s1[j] == s[j]);
        }
    }
}

/// The currently reachable peers, first-seen order, no peer twice.
pub struct PeerRegistry {
    entries: Vec<PeerEntry>,
    ticks: u64,
}

impl View for PeerRegistry {
    type V = Seq<PeerEntry>;

    closed spec fn view(&self) -> Seq<PeerEntry> {
        self.entries@
    }
}

impl PeerRegistry {
    /// How many appearance events the registry has processed.
    pub closed spec fn ticks(self) -> u64 {
        self.ticks
    }

    /// The known peers, in first-seen order.
    pub open spec fn peers(self) -> Seq<PeerId> {
        self@.map_values(|e: PeerEntry| e.peer)
    }

    /// Whether `p` is currently known.
    pub open spec fn spec_contains(self, p: PeerId) -> bool {
        self.peers().contains(p)
    }

    /// No peer stands in the registry twice.
    pub open spec fn wf(self) -> bool {
        entries_distinct(self@)
    }

    /// The position of `p`; meaningful only while `p` is known.
    pub open spec fn index_of_peer(self, p: PeerId) -> int {
        choose|i: int| 0 <= i < self@.len() && self@[i].peer == p
    }

    /// How an appearance event changes the registry: a new peer is
    /// appended with the current tick, a known one changes nothing;
    /// either way the tick advances (until it saturates).
    pub open spec fn appeared_spec(pre: Self, post: Self, p: PeerId, added: bool) -> bool {
        &&& added == !pre.spec_contains(p)
        &&& if added {
            post@ == pre@.push(PeerEntry { peer: p, first_seen: pre.ticks() })
        } else {
            post@ == pre@
        }
        &&& post.ticks() == if pre.ticks() < u64::MAX {
            (pre.ticks() + 1) as u64
        } else {
            pre.ticks()
        }
    }

    /// How an expiry event changes the registry: a known peer's entry
    /// leaves, an unknown peer changes nothing.
    pub open spec fn expired_spec(pre: Self, post: Self, p: PeerId, removed: bool) -> bool {
        &&& removed == pre.spec_contains(p)
        &&& !post.spec_contains(p)
        &&& if removed {
            post@ == pre@.remove(pre.index_of_peer(p))
        } else {
            post@ == pre@
        }
        &&& forall|q: PeerId|
            q != p ==> (#[trigger] post.spec_contains(q) <==> pre.spec_contains(q))
        &&& post.ticks() == pre.ticks()
    }

    /// An empty registry.
    pub fn new() -> (r: Self)
        ensures
            r@ == Seq::<PeerEntry>::empty(),
            r.wf(),
            r.ticks() == 0,
    {
        PeerRegistry { entries: Vec::new(), ticks: 0 }
    }

    /// Looks `p` up; `None` while it is unknown.
    fn find(&self, p: PeerId) -> (r: Option<usize>)
        requires
            self.wf(),
        ensures
            match r {
                Some(i) => {
                    &&& i < self@.len()
                    &&& self@[i as int].peer == p
                    &&& i as int == self.index_of_peer(p)
                    &&& self.spec_contains(p)
                },
                None => !self.spec_contains(p),
            },
    {
        let n = self.entries.len();
        let mut i: usize = 0;
        while i < n
            invariant
                self.wf(),
                n == self@.len(),
                i <= n,
                forall|k: int| 0 <= k < i ==> #[trigger] self@[k].peer != p,
            decreases n - i,
        {
            if self.entries[i].peer == p {
                assert(self.peers()[i as int] == p);
                return Some(i);
            }
            i = i + 1;
        }
        assert(forall|k: int|
            0 <= k < self@.len() ==> #[trigger] self.peers()[k] == self@[k].peer);
        None
    }

    /// Notes that discovery reported `p`; says whether it was new.
    pub fn on_appeared(&mut self, p: PeerId) -> (added: bool)
        requires
            old(self).wf(),
        ensures
            final(self).wf(),
            Self::appeared_spec(*old(self), *final(self), p, added),
    {
        let added = match self.find(p) {
            Some(_) => false,
            None => {
                let entry = PeerEntry { peer: p, first_seen: self.ticks };
                self.entries.push(entry);
                true
            },
        };
        if self.ticks < u64::MAX {
            self.ticks = self.ticks + 1;
        }
        proof {
            if added {
                let e = PeerEntry { peer: p, first_seen: old(self).ticks() };
                assert(self@ == old(self)@.push(e));
                assert forall|k: int|
                    0 <= k < old(self)@.len() implies (#[trigger] old(self)@[k]).peer != p by {
                    if old(self)@[k].peer == p {
                        assert(old(self).peers()[k] == p);
                    }
                }
                lemma_distinct_push(old(self)@, e);
            }
        }
        added
    }

    /// Notes that discovery reported `p` gone; says whether it was
    /// known.
    pub fn on_expired(&mut self, p: PeerId) -> (removed: bool)
        requires
            old(self).wf(),
        ensures
            final(self).wf(),
            Self::expired_spec(*old(self), *final(self), p, removed),
    {
        match self.find(p) {
            None => false,
            Some(i) => {
                self.entries.remove(i);
                proof {
                    let pre = *old(self);
                    let ii = i as int;
                    assert forall|a: int, b: int| 0 <= a < b < self@.len() implies #[trigger] self@[
                        a
                    ].peer != #[trigger] self@[b].peer by {
                        let a0 = if a < ii { a } else { a + 1 };
                        let b0 = if b < ii { b } else { b + 1 };
                        assert(self@[a] == pre@[a0]);
                        assert(self@[b] == pre@[b0]);
                    }
                    assert forall|q: PeerId| #[trigger] self.spec_contains(q) implies
                        pre.spec_contains(q) && q != p by {
                        let k = choose|k: int| 0 <= k < self.peers().len() && self.peers()[k] == q;
                        let k0 = if k < ii { k } else { k + 1 };
                        assert(self@[k] == pre@[k0]);
                        assert(pre.peers()[k0] == q);
                        if q == p {
                            assert(pre@[k0].peer == pre@[ii].peer);
                        }
                    }
                    assert forall|q: PeerId|
                        q != p && pre.spec_contains(q) implies #[trigger] self.spec_contains(
                        q,
                    ) by {
                        let k0 = choose|k: int|
                            0 <= k < pre.peers().len() && pre.peers()[k] == q;
                        assert(pre@[k0].peer == q);
                        let k = if k0 < ii { k0 } else { k0 - 1 };
                        assert(k0 != ii);
                        assert(self@[k] == pre@[k0]);
                        assert(self.peers()[k] == q);
                    }
                }
                true
            },
        }
    }

    /// The known peers, in the order they were first seen.
    pub fn known_peers(&self) -> (r: Vec<PeerId>)
        ensures
            r@ == self.peers(),
    {
        let n = self.entries.len();
        let mut r: Vec<PeerId> = Vec::new();
        let mut i: usize = 0;
        while i < n
            invariant
                n == self@.len(),
                i <= n,
                r@.len() == i,
                forall|k: int| 0 <= k < i ==> #[trigger] r@[k] == self@[k].peer,
            decreases n - i,
        {
            r.push(self.entries[i].peer);
            i = i + 1;
        }
        assert(r@ =~= self.peers());
        r
    }

    /// Whether `p` has not been seen (and not expired since).
    pub fn is_new(&self, p: PeerId) -> (r: bool)
        requires
            self.wf(),
        ensures
            r == !self.spec_contains(p),
    {
        match self.find(p) {
            Some(_) => false,
            None => true,
        }
    }

    /// The earliest-seen peer still known, if any.
    pub fn first_peer(&self) -> (r: Option<PeerId>)
        ensures
            match r {
                Some(p) => self@.len() > 0 && p == self.peers()[0] && self.spec_contains(p),
                None => self@.len() == 0,
            },
    {
        if self.entries.len() > 0 {
            let p = self.entries[0].peer;
            assert(self.peers()[0] == p);
            Some(p)
        } else {
            None
        }
    }

    /// How many peers are known.
    pub fn len(&self) -> (r: usize)
        ensures
            r == self@.len(),
    {
        self.entries.len()
    }
}

/// Law: whatever the registry held before, after `PeerAppeared(p)`
/// twice the second event was a no-op, `p` is known, `known_peers()`
/// holds exactly one occurrence of `p`, and a fresh `p` was appended
/// to the peers already known.
pub proof fn lemma_appeared_idempotent(
    r0: PeerRegistry,
    r1: PeerRegistry,
    r2: PeerRegistry,
    p: PeerId,
    a1: bool,
    a2: bool,
)
    requires
        r0.wf(),
        PeerRegistry::appeared_spec(r0, r1, p, a1),
        PeerRegistry::appeared_spec(r1, r2, p, a2),
    ensures
        !a2,
        r2@ == r1@,
        r1.wf(),
        r2.spec_contains(p),
        a1 ==> r2.peers() =~= r0.peers().push(p),
        forall|i: int, j: int|
            0 <= i < j < r2.peers().len() ==> !(#[trigger] r2.peers()[i] == p
                && #[trigger] r2.peers()[j] == p),
{
    if a1 {
        let e = PeerEntry { peer: p, first_seen: r0.ticks() };
        assert(r1@ == r0@.push(e));
        assert forall|k: int| 0 <= k < r0@.len() implies (#[trigger] r0@[k]).peer != p by {
            if r0@[k].peer == p {
                assert(r0.peers()[k] == p);
            }
        }
        lemma_distinct_push(r0@, e);
        assert(r1.peers()[r0@.len() as int] == p);
        assert(r1.peers() =~= r0.peers().push(p));
    } else {
        assert(r1@ == r0@);
    }
    assert(r1.spec_contains(p));
    assert forall|i: int, j: int|
        0 <= i < j < r2.peers().len() implies !(#[trigger] r2.peers()[i] == p
        && #[trigger] r2.peers()[j] == p) by {
        assert(r2.peers()[i] == r2@[i].peer);
        assert(r2.peers()[j] == r2@[j].peer);
        assert(r2@[i].peer != r2@[j].peer);
    }
}

/// Law: expiry of a known peer removes exactly that peer; every other
/// peer stays; expiry of an unknown peer changes nothing.
pub proof fn lemma_expired_exact(
    r2: PeerRegistry,
    r3: PeerRegistry,
    p: PeerId,
    removed: bool,
)
    requires
        r2.wf(),
        PeerRegistry::expired_spec(r2, r3, p, removed),
    ensures
        removed == r2.spec_contains(p),
        !r3.spec_contains(p),
        forall|q: PeerId| q != p ==> (#[trigger] r3.spec_contains(q) <==> r2.spec_contains(q)),
        !r2.spec_contains(p) ==> r3@ == r2@,
{
}

} // verus!
