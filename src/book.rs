use vstd::prelude::*;
use crate::actor::Actor;

verus! {

/// A set of identities, kept as a list without repeats.
pub struct ActorSet {
    items: Vec<Actor>,
    set: Ghost<Set<Seq<u8>>>,
}

impl View for ActorSet {
    type V = Set<Seq<u8>>;

    closed spec fn view(&self) -> Set<Seq<u8>> {
        self.set@
    }
}

impl ActorSet {
    pub closed spec fn wf(&self) -> bool {
        &&& forall|i: int| 0 <= i < self.items@.len() ==> self.set@.contains(#[trigger] self.items@[i]@)
        &&& forall|k: Seq<u8>| #[trigger] self.set@.contains(k) ==> exists|i: int|
            0 <= i < self.items@.len() && self.items@[i]@ == k
    }

    pub fn new() -> (r: ActorSet)
        ensures
            r.wf(),
            r@ == Set::<Seq<u8>>::empty(),
    {
        ActorSet { items: Vec::new(), set: Ghost(Set::empty()) }
    }

    pub fn contains(&self, who: &Actor) -> (r: bool)
        requires
            self.wf(),
        ensures
            r == self@.contains(who@),
    {
        let mut i: usize = 0;
        while i < self.items.len()
            invariant
                self.wf(),
                0 <= i <= self.items@.len(),
                forall|j: int| 0 <= j < i ==> self.items@[j]@ != who@,
            decreases self.items@.len() - i,
        {
            if self.items[i].same(who) {
                return true;
            }
            i = i + 1;
        }
        false
    }

    /// The members, each once.
    pub fn members(&self) -> (r: Vec<Actor>)
        requires
            self.wf(),
        ensures
            forall|i: int| 0 <= i < r@.len() ==> self@.contains(#[trigger] r@[i]@),
            forall|k: Seq<u8>| #[trigger] self@.contains(k) ==> exists|i: int| 0 <= i < r@.len() && r@[i]@ == k,
    {
        let mut out: Vec<Actor> = Vec::new();
        let mut i: usize = 0;
        while i < self.items.len()
            invariant
                self.wf(),
                0 <= i <= self.items@.len(),
                out@.len() == i,
                forall|j: int| 0 <= j < i ==> (#[trigger] out@[j])@ == self.items@[j]@,
            decreases self.items@.len() - i,
        {
            out.push(self.items[i].duplicate());
            i = i + 1;
        }
        assert forall|k: Seq<u8>| #[trigger] self@.contains(k) implies exists|j: int|
            0 <= j < out@.len() && out@[j]@ == k by {
            let j = choose|j: int| 0 <= j < self.items@.len() && self.items@[j]@ == k;
            assert(out@[j]@ == k);
        }
        out
    }

    /// Adds `who`; adding a member again changes nothing.
    pub fn insert(&mut self, who: &Actor)
        requires
            old(self).wf(),
        ensures
            final(self).wf(),
            final(self)@ == old(self)@.insert(who@),
    {
        if !self.contains(who) {
            self.items.push(who.duplicate());
            self.set = Ghost(self.set@.insert(who@));
            assert forall|k: Seq<u8>| #[trigger] self.set@.contains(k) implies exists|i: int|
                0 <= i < self.items@.len() && self.items@[i]@ == k by {
                if k == who@ {
                    assert(self.items@[self.items@.len() - 1]@ == k);
                } else {
                    let i = choose|i: int| 0 <= i < old(self).items@.len() && old(self).items@[i]@ == k;
                    assert(self.items@[i]@ == k);
                }
            }
        } else {
            assert(self@ =~= old(self)@.insert(who@));
        }
    }
}

/// One row of a `Book`.
pub struct Entry<V> {
    pub who: Actor,
    pub value: V,
}

/// A table from identities to values, one row per identity.
pub struct Book<V> {
    entries: Vec<Entry<V>>,
    map: Ghost<Map<Seq<u8>, V>>,
}

impl<V> View for Book<V> {
    type V = Map<Seq<u8>, V>;

    closed spec fn view(&self) -> Map<Seq<u8>, V> {
        self.map@
    }
}

impl<V: Copy> Book<V> {
    pub closed spec fn wf(&self) -> bool {
        &&& forall|i: int, j: int|
            0 <= i < j < self.entries@.len() ==> self.entries@[i].who@ != self.entries@[j].who@
        &&& forall|i: int|
            0 <= i < self.entries@.len() ==> self.map@.contains_key(#[trigger] self.entries@[i].who@)
                && self.map@[self.entries@[i].who@] == self.entries@[i].value
        &&& forall|k: Seq<u8>| #[trigger] self.map@.contains_key(k) ==> exists|i: int|
            0 <= i < self.entries@.len() && self.entries@[i].who@ == k
    }

    pub fn new() -> (r: Book<V>)
        ensures
            r.wf(),
            r@ == Map::<Seq<u8>, V>::empty(),
    {
        Book { entries: Vec::new(), map: Ghost(Map::empty()) }
    }

    fn find(&self, who: &Actor) -> (r: Option<usize>)
        requires
            self.wf(),
        ensures
            match r {
                Some(i) => i < self.entries@.len() && self.entries@[i as int].who@ == who@,
                None => !self@.contains_key(who@),
            },
    {
        let mut i: usize = 0;
        while i < self.entries.len()
            invariant
                self.wf(),
                0 <= i <= self.entries@.len(),
                forall|j: int| 0 <= j < i ==> self.entries@[j].who@ != who@,
            decreases self.entries@.len() - i,
        {
            if self.entries[i].who.same(who) {
                return Some(i);
            }
            i = i + 1;
        }
        None
    }

    /// The value recorded for `who`, if any.
    pub fn get(&self, who: &Actor) -> (r: Option<V>)
        requires
            self.wf(),
        ensures
            r == (if self@.contains_key(who@) { Some(self@[who@]) } else { None::<V> }),
    {
        match self.find(who) {
            Some(i) => Some(self.entries[i].value),
            None => None,
        }
    }

    /// Records `value` for `who`, replacing what was there.
    pub fn set(&mut self, who: &Actor, value: V)
        requires
            old(self).wf(),
        ensures
            final(self).wf(),
            final(self)@ == old(self)@.insert(who@, value),
    {
        match self.find(who) {
            Some(i) => {
                let who2 = self.entries[i].who.duplicate();
                self.entries.set(i, Entry { who: who2, value });
                self.map = Ghost(self.map@.insert(who@, value));
                assert forall|k: Seq<u8>| #[trigger] self.map@.contains_key(k) implies exists|j: int|
                    0 <= j < self.entries@.len() && self.entries@[j].who@ == k by {
                    if k != who@ {
                        let j = choose|j: int|
                            0 <= j < old(self).entries@.len() && old(self).entries@[j].who@ == k;
                        assert(self.entries@[j].who@ == k);
                    } else {
                        assert(self.entries@[i as int].who@ == k);
                    }
                }
            },
            None => {
                self.entries.push(Entry { who: who.duplicate(), value });
                self.map = Ghost(self.map@.insert(who@, value));
                assert forall|k: Seq<u8>| #[trigger] self.map@.contains_key(k) implies exists|j: int|
                    0 <= j < self.entries@.len() && self.entries@[j].who@ == k by {
                    if k != who@ {
                        let j = choose|j: int|
                            0 <= j < old(self).entries@.len() && old(self).entries@[j].who@ == k;
                        assert(self.entries@[j].who@ == k);
                    } else {
                        assert(self.entries@[self.entries@.len() - 1].who@ == k);
                    }
                }
            },
        }
    }
}

} // verus!
