//! The request correlator: the one piece of state shared between the
//! reactor and the external command surface.
//!
//! Each outstanding outbound request is held under its request id
//! together with the single-use slot its caller awaits.  An entry
//! leaves the table exactly when it is resolved, so a slot can be
//! handed out at most once; a resolution for an unknown id is a miss
//! and changes nothing.

use vstd::prelude::*;

verus! {

/// Whether no two entries carry the same request id.
pub open spec fn ids_distinct<S>(s: Seq<(u64, S)>) -> bool {
    forall|i: int, j: int| 0 <= i < j < s.len() ==> #[trigger] s[i].0 != #[trigger] s[j].0
}

/// Appending an entry under a fresh id keeps the ids distinct.
proof fn lemma_ids_distinct_push<S>(s: Seq<(u64, S)>, e: (u64, S))
    requires
        ids_distinct(s),
        forall|k: int| 0 <= k < s.len() ==> (#[trigger] s[k]).0 != e.0,
    ensures
        ids_distinct(s.push(e)),
{
    let s1 = s.push(e);
    assert forall|i: int, j: int| 0 <= i < j < s1.len() implies #[trigger] s1[i].0
        != #[trigger] s1[j].0 by {
        assert(s1[i] == s[i]);
        if j == s1.len() - 1 {
            assert(s1[j] == e);
        } else {
            assert(s1[j] == s[j]);
        }
    }
}

/// Outstanding outbound requests, each with the slot that awaits its
/// answer.  `S` is the slot: the library never opens it, it only
/// guarantees to hand each out at most once.
pub struct Correlator<S> {
    entries: Vec<(u64, S)>,
}

impl<S> View for Correlator<S> {
    type V = Seq<(u64, S)>;

    closed spec fn view(&self) -> Seq<(u64, S)> {
        self.entries@
    }
}

impl<S> Correlator<S> {
    /// The outstanding request ids, oldest first.
    pub open spec fn ids(self) -> Seq<u64> {
        self@.map_values(|e: (u64, S)| e.0)
    }

    /// Whether `id` is outstanding.
    pub open spec fn spec_contains(self, id: u64) -> bool {
        self.ids().contains(id)
    }

    /// No id is outstanding twice.
    pub open spec fn wf(self) -> bool {
        ids_distinct(self@)
    }

    /// The position of `id`; meaningful only while it is outstanding.
    pub open spec fn index_of(self, id: u64) -> int {
        choose|i: int| 0 <= i < self@.len() && self@[i].0 == id
    }

    /// The slot registered under `id`; meaningful only while `id` is
    /// outstanding.
    pub open spec fn slot_for(self, id: u64) -> S {
        self@[self.index_of(id)].1
    }

    /// How registration changes the table: a fresh id is appended with
    /// its slot; an id already outstanding changes nothing.
    pub open spec fn register_spec(pre: Self, post: Self, id: u64, slot: S, fresh: bool) -> bool {
        &&& fresh == !pre.spec_contains(id)
        &&& if fresh {
            post@ == pre@.push((id, slot))
        } else {
            post@ == pre@
        }
    }

    /// How resolution changes the table: an outstanding id leaves and
    /// its slot comes back; a miss changes nothing.  Either way the id
    /// is not outstanding afterward, and every other id is untouched.
    pub open spec fn resolve_spec(pre: Self, post: Self, id: u64, taken: Option<S>) -> bool {
        &&& match taken {
            Some(s) => {
                &&& pre.spec_contains(id)
                &&& s == pre.slot_for(id)
                &&& post@ == pre@.remove(pre.index_of(id))
            },
            None => {
                &&& !pre.spec_contains(id)
                &&& post@ == pre@
            },
        }
        &&& !post.spec_contains(id)
        &&& forall|q: u64| q != id ==> (#[trigger] post.spec_contains(q) <==> pre.spec_contains(q))
    }

    /// An empty correlator.
    pub fn new() -> (r: Self)
        ensures
            r@ == Seq::<(u64, S)>::empty(),
            r.wf(),
    {
        Correlator { entries: Vec::new() }
    }

    /// Looks `id` up; `None` while it is not outstanding.
    fn find(&self, id: u64) -> (r: Option<usize>)
        requires
            self.wf(),
        ensures
            match r {
                Some(i) => {
                    &&& i < self@.len()
                    &&& self@[i as int].0 == id
                    &&& i as int == self.index_of(id)
                    &&& self.spec_contains(id)
                },
                None => !self.spec_contains(id),
            },
    {
        let n = self.entries.len();
        let mut i: usize = 0;
        while i < n
            invariant
                self.wf(),
                n == self@.len(),
                i <= n,
                forall|k: int| 0 <= k < i ==> #[trigger] self@[k].0 != id,
            decreases n - i,
        {
            if self.entries[i].0 == id {
                assert(self.ids()[i as int] == id);
                return Some(i);
            }
            i = i + 1;
        }
        assert(forall|k: int| 0 <= k < self@.len() ==> #[trigger] self.ids()[k] == self@[k].0);
        None
    }

    /// How many requests are outstanding.
    pub fn len(&self) -> (r: usize)
        ensures
            r == self@.len(),
    {
        self.entries.len()
    }

    /// Registers `slot` under `id`; reports whether the id was fresh.
    /// An id already outstanding keeps its first slot.
    pub fn register(&mut self, id: u64, slot: S) -> (fresh: bool)
        requires
            old(self).wf(),
        ensures
            final(self).wf(),
            Self::register_spec(*old(self), *final(self), id, slot, fresh),
    {
        match self.find(id) {
            Some(_) => false,
            None => {
                self.entries.push((id, slot));
                proof {
                    assert forall|k: int|
                        0 <= k < old(self)@.len() implies (#[trigger] old(self)@[k]).0 != id by {
                        if old(self)@[k].0 == id {
                            assert(old(self).ids()[k] == id);
                        }
                    }
                    lemma_ids_distinct_push(old(self)@, (id, slot));
                }
                true
            },
        }
    }

    /// Takes the slot outstanding under `id`, if any; afterward `id`
    /// is no longer outstanding either way.
    pub fn resolve(&mut self, id: u64) -> (taken: Option<S>)
        requires
            old(self).wf(),
        ensures
            final(self).wf(),
            Self::resolve_spec(*old(self), *final(self), id, taken),
    {
        match self.find(id) {
            None => None,
            Some(i) => {
                let (_, slot) = self.entries.remove(i);
                proof {
                    let pre = *old(self);
                    let ii = i as int;
                    assert forall|a: int, b: int| 0 <= a < b < self@.len() implies #[trigger] self@[
                        a
                    ].0 != #[trigger] self@[b].0 by {
                        let a0 = if a < ii { a } else { a + 1 };
                        let b0 = if b < ii { b } else { b + 1 };
                        assert(self@[a] == pre@[a0]);
                        assert(self@[b] == pre@[b0]);
                        assert(pre@[a0].0 != pre@[b0].0);
                    }
                    assert forall|q: u64| #[trigger] self.spec_contains(q) implies
                        pre.spec_contains(q) && q != id by {
                        let k = choose|k: int| 0 <= k < self.ids().len() && self.ids()[k] == q;
                        let k0 = if k < ii { k } else { k + 1 };
                        assert(self@[k] == pre@[k0]);
                        assert(pre.ids()[k0] == q);
                        if q == id {
                            assert(pre@[k0].0 == pre@[ii].0);
                        }
                    }
                    assert forall|q: u64| q != id && pre.spec_contains(q) implies #[trigger] self
                        .spec_contains(q) by {
                        let k0 = choose|k: int| 0 <= k < pre.ids().len() && pre.ids()[k] == q;
                        assert(pre@[k0].0 == q);
                        let k = if k0 < ii { k0 } else { k0 - 1 };
                        assert(k0 != ii);
                        assert(self@[k] == pre@[k0]);
                        assert(self.ids()[k] == q);
                    }
                }
                Some(slot)
            },
        }
    }

    /// Empties the table for shutdown, handing back every slot, oldest
    /// first, so the caller can fail each waiting caller.
    pub fn fail_all(&mut self) -> (slots: Vec<S>)
        requires
            old(self).wf(),
        ensures
            final(self)@ == Seq::<(u64, S)>::empty(),
            final(self).wf(),
            slots@ == old(self)@.map_values(|e: (u64, S)| e.1),
    {
        let mut slots: Vec<S> = Vec::new();
        while self.entries.len() > 0
            invariant
                slots@.len() + self@.len() == old(self)@.len(),
                self@ == old(self)@.subrange(slots@.len() as int, old(self)@.len() as int),
                forall|k: int| 0 <= k < slots@.len() ==> #[trigger] slots@[k] == old(self)@[k].1,
            decreases self@.len(),
        {
            let (_, slot) = self.entries.remove(0);
            slots.push(slot);
            assert(self@ =~= old(self)@.subrange(slots@.len() as int, old(self)@.len() as int));
        }
        assert(slots@ =~= old(self)@.map_values(|e: (u64, S)| e.1));
        slots
    }
}

/// Law: a registered request is resolved exactly once.  After
/// registering a fresh id, the first resolution yields precisely the
/// registered slot; the second misses and changes nothing.
pub proof fn lemma_resolve_exactly_once<S>(
    c0: Correlator<S>,
    c1: Correlator<S>,
    c2: Correlator<S>,
    c3: Correlator<S>,
    id: u64,
    slot: S,
    fresh: bool,
    t1: Option<S>,
    t2: Option<S>,
)
    requires
        c0.wf(),
        !c0.spec_contains(id),
        Correlator::register_spec(c0, c1, id, slot, fresh),
        Correlator::resolve_spec(c1, c2, id, t1),
        Correlator::resolve_spec(c2, c3, id, t2),
    ensures
        fresh,
        t1 == Some(slot),
        t2 == None::<S>,
        c3@ == c2@,
{
    assert(c1@ == c0@.push((id, slot)));
    let n = c0@.len() as int;
    assert(c1@[n].0 == id);
    assert(c1.ids()[n] == id);
    assert(c1.spec_contains(id));
    assert(t1 is Some);
    let i = c1.index_of(id);
    assert(0 <= i < c1@.len() && c1@[i].0 == id);
    if i < n {
        assert(c1@[i] == c0@[i]);
        assert(c0.ids()[i] == id);
        assert(c0.spec_contains(id));
    }
    assert(i == n);
    assert(c1.slot_for(id) == slot);
}

} // verus!
