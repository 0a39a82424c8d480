use vstd::prelude::*;
use crate::event::PeerId;

verus! {

/// The members of one group that are currently online.
pub struct Presence {
    online: Vec<PeerId>,
}

/// Marking a member online and then offline leaves the presence set as it
/// was before, for a member that was not online to begin with.
pub proof fn lemma_online_then_offline(s: Set<Seq<u8>>, x: Seq<u8>)
    requires
        !s.contains(x),
    ensures
        s.insert(x).remove(x) == s,
{
    assert(s.insert(x).remove(x) =~= s);
}

impl View for Presence {
    type V = Set<Seq<u8>>;

    closed spec fn view(&self) -> Set<Seq<u8>> {
        Set::new(|x: Seq<u8>| exists|i: int| 0 <= i < self.online@.len() && (#[trigger] self.online@[i])@ == x)
    }
}

impl Presence {
    /// No member is listed twice.
    pub closed spec fn wf(&self) -> bool {
        forall|i: int, j: int|
            0 <= i < j < self.online@.len() ==> (#[trigger] self.online@[i])@ != (#[trigger] self.online@[j])@
    }

    /// Nobody online.
    pub fn new() -> (r: Presence)
        ensures
            r.wf(),
            r@ == Set::<Seq<u8>>::empty(),
    {
        let r = Presence { online: Vec::new() };
        assert(r@ =~= Set::<Seq<u8>>::empty());
        r
    }

    /// Whether `id` is online.
    pub fn is_online(&self, id: &PeerId) -> (r: bool)
        ensures
            r == self@.contains(id@),
    {
        let mut i: usize = 0;
        while i < self.online.len()
            invariant
                i <= self.online@.len(),
                forall|j: int| 0 <= j < i ==> (#[trigger] self.online@[j])@ != id@,
            decreases self.online@.len() - i,
        {
            if self.online[i].same(id) {
                return true;
            }
            i = i + 1;
        }
        false
    }

    /// Marks `id` online; a repeated signal changes nothing.
    pub fn mark_online(&mut self, id: PeerId)
        requires
            old(self).wf(),
        ensures
            final(self).wf(),
            final(self)@ == old(self)@.insert(id@),
    {
        if !self.is_online(&id) {
            self.online.push(id);
            assert forall|x: Seq<u8>| self@.contains(x) == old(self)@.insert(id@).contains(x) by {
                if old(self)@.contains(x) {
                    let i = choose|i: int| 0 <= i < old(self).online@.len() && (#[trigger] old(self).online@[i])@ == x;
                    assert(self.online@[i] == old(self).online@[i]);
                }
                if x == id@ {
                    assert(self.online@[self.online@.len() - 1]@ == x);
                }
                if self@.contains(x) {
                    let i = choose|i: int| 0 <= i < self.online@.len() && (#[trigger] self.online@[i])@ == x;
                    if i < old(self).online@.len() {
                        assert(old(self).online@[i] == self.online@[i]);
                    }
                }
            }
        }
        assert(self@ =~= old(self)@.insert(id@));
    }

    /// Marks `id` offline; a repeated signal changes nothing.
    pub fn mark_offline(&mut self, id: &PeerId)
        requires
            old(self).wf(),
        ensures
            final(self).wf(),
            final(self)@ == old(self)@.remove(id@),
    {
        let mut kept: Vec<PeerId> = Vec::new();
        let mut i: usize = 0;
        while i < self.online.len()
            invariant
                i <= self.online@.len(),
                forall|a: int, b: int|
                    0 <= a < b < self.online@.len() ==> (#[trigger] self.online@[a])@ != (#[trigger] self.online@[b])@,
                forall|k: int| 0 <= k < kept@.len() ==> (#[trigger] kept@[k])@ != id@,
                forall|k: int| #![trigger kept@[k]] 0 <= k < kept@.len() ==>
                    exists|j: int| #![trigger self.online@[j]] 0 <= j < i && self.online@[j] == kept@[k],
                forall|j: int| #![trigger self.online@[j]] 0 <= j < i && self.online@[j]@ != id@ ==>
                    exists|k: int| #![trigger kept@[k]] 0 <= k < kept@.len() && kept@[k] == self.online@[j],
                forall|a: int, b: int|
                    0 <= a < b < kept@.len() ==> (#[trigger] kept@[a])@ != (#[trigger] kept@[b])@,
                forall|k: int| 0 <= k < kept@.len() ==>
                    forall|j: int| i <= j < self.online@.len() ==> (#[trigger] kept@[k])@ != (#[trigger] self.online@[j])@,
            decreases self.online@.len() - i,
        {
            let p = self.online[i];
            let ghost before = kept@;
            if !p.same(id) {
                kept.push(p);
                assert(kept@[kept@.len() - 1] == self.online@[i as int]);
            }
            assert forall|j: int| #![trigger self.online@[j]] 0 <= j <= i && self.online@[j]@ != id@ implies
                exists|k: int| #![trigger kept@[k]] 0 <= k < kept@.len() && kept@[k] == self.online@[j] by {
                if j < i {
                    let k = choose|k: int| #![trigger before[k]] 0 <= k < before.len() && before[k] == self.online@[j];
                    assert(kept@[k] == before[k]);
                }
            }
            i = i + 1;
        }
        self.online = kept;
        assert forall|x: Seq<u8>| self@.contains(x) == old(self)@.remove(id@).contains(x) by {
            if self@.contains(x) {
                let k = choose|k: int| 0 <= k < self.online@.len() && (#[trigger] self.online@[k])@ == x;
                let j = choose|j: int| 0 <= j < old(self).online@.len() && (#[trigger] old(self).online@[j]) == self.online@[k];
                assert(old(self)@.contains(x));
            }
            if old(self)@.remove(id@).contains(x) {
                let j = choose|j: int| 0 <= j < old(self).online@.len() && (#[trigger] old(self).online@[j])@ == x;
                let k = choose|k: int| 0 <= k < self.online@.len() && (#[trigger] self.online@[k]) == old(self).online@[j];
                assert(self.online@[k]@ == x);
            }
        }
        assert(self@ =~= old(self)@.remove(id@));
    }

    /// The online members, each once.
    pub fn online_members(&self) -> (r: Vec<PeerId>)
        requires
            self.wf(),
        ensures
            forall|x: Seq<u8>| self@.contains(x) <==> exists|i: int| 0 <= i < r@.len() && (#[trigger] r@[i])@ == x,
            forall|i: int, j: int| 0 <= i < j < r@.len() ==> (#[trigger] r@[i])@ != (#[trigger] r@[j])@,
    {
        let mut r: Vec<PeerId> = Vec::new();
        let mut i: usize = 0;
        while i < self.online.len()
            invariant
                i <= self.online@.len(),
                r@ == self.online@.subrange(0, i as int),
            decreases self.online@.len() - i,
        {
            r.push(self.online[i]);
            i = i + 1;
            assert(r@ =~= self.online@.subrange(0, i as int));
        }
        assert(r@ =~= self.online@);
        r
    }

    /// Replaces the presence set with a snapshot received from a peer.
    pub fn reconcile(&mut self, snapshot: &Vec<PeerId>)
        ensures
            final(self).wf(),
            final(self)@ == Set::new(|x: Seq<u8>| exists|i: int| 0 <= i < snapshot@.len() && (#[trigger] snapshot@[i])@ == x),
    {
        let mut fresh = Presence::new();
        let mut i: usize = 0;
        while i < snapshot.len()
            invariant
                i <= snapshot@.len(),
                fresh.wf(),
                fresh@ == Set::new(|x: Seq<u8>| exists|j: int| 0 <= j < i && (#[trigger] snapshot@[j])@ == x),
            decreases snapshot@.len() - i,
        {
            fresh.mark_online(snapshot[i]);
            i = i + 1;
            assert(fresh@ =~= Set::new(|x: Seq<u8>| exists|j: int| 0 <= j < i && (#[trigger] snapshot@[j])@ == x));
        }
        *self = fresh;
    }
}

} // verus!
