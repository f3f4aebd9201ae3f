use vstd::prelude::*;
use crate::key::EntityKey;

verus! {

/// The segments that touched a segment of another agent during the current
/// tick, without bone detail.
pub struct TouchedSet {
    keys: Vec<EntityKey>,
}

/// The keys that a batch of contacts adds: both sides of each contact between
/// two different agents, without bone detail.
pub open spec fn contact_keys(pairs: Seq<(EntityKey, EntityKey)>) -> Set<EntityKey> {
    Set::new(
        |k: EntityKey|
            exists|i: int|
                0 <= i < pairs.len() && #[trigger] pairs[i].0.agent_id != pairs[i].1.agent_id && (k
                    == pairs[i].0.stripped() || k == pairs[i].1.stripped()),
    )
}

impl View for TouchedSet {
    type V = Set<EntityKey>;

    closed spec fn view(&self) -> Set<EntityKey> {
        self.keys@.to_set()
    }
}

impl TouchedSet {
    /// No key holds bone detail.
    pub open spec fn wf(&self) -> bool {
        forall|k: EntityKey| self@.contains(k) ==> k.bone_index is None
    }

    pub fn new() -> (r: TouchedSet)
        ensures
            r@ == Set::<EntityKey>::empty(),
            r.wf(),
    {
        let r = TouchedSet { keys: Vec::new() };
        assert(r@ =~= Set::<EntityKey>::empty());
        r
    }

    pub fn contains(&self, k: &EntityKey) -> (r: bool)
        ensures
            r == self@.contains(*k),
    {
        let mut i: usize = 0;
        while i < self.keys.len()
            invariant
                i <= self.keys@.len(),
                forall|j: int| 0 <= j < i ==> self.keys@[j] != *k,
            decreases self.keys@.len() - i,
        {
            if self.keys[i].same_key(k) {
                assert(self.keys@.contains(*k));
                return true;
            }
            i = i + 1;
        }
        false
    }

    pub fn is_empty(&self) -> (r: bool)
        ensures
            r == (self@ == Set::<EntityKey>::empty()),
    {
        if self.keys.len() == 0 {
            assert(self@ =~= Set::<EntityKey>::empty());
            true
        } else {
            assert(self@.contains(self.keys@[0]));
            false
        }
    }

    fn insert(&mut self, k: EntityKey)
        ensures
            final(self)@ == old(self)@.insert(k),
    {
        if !self.contains(&k) {
            self.keys.push(k);
            proof {
                old(self).keys@.lemma_push_to_set_commute(k);
            }
        } else {
            assert(old(self)@.insert(k) =~= old(self)@);
        }
    }

    /// Records one contact reported by the engine. A contact between two
    /// different agents adds both sides without their bone detail; a contact
    /// within one agent is ignored.
    pub fn record_contact(&mut self, a: &EntityKey, b: &EntityKey)
        requires
            old(self).wf(),
        ensures
            final(self).wf(),
            a.agent_id != b.agent_id ==> final(self)@ == old(self)@.insert(a.stripped()).insert(
                b.stripped(),
            ),
            a.agent_id == b.agent_id ==> final(self)@ == old(self)@,
    {
        if a.agent_id != b.agent_id {
            self.insert(a.no_bone());
            self.insert(b.no_bone());
        }
    }

    /// Records the contacts of one solve, in any order.
    pub fn record_contacts(&mut self, pairs: &Vec<(EntityKey, EntityKey)>)
        requires
            old(self).wf(),
        ensures
            final(self).wf(),
            final(self)@ == old(self)@.union(contact_keys(pairs@)),
    {
        let mut i: usize = 0;
        while i < pairs.len()
            invariant
                i <= pairs@.len(),
                self.wf(),
                self@ == old(self)@.union(contact_keys(pairs@.take(i as int))),
            decreases pairs@.len() - i,
        {
            let (a, b) = &pairs[i];
            self.record_contact(a, b);
            proof {
                let pre = pairs@.take(i as int);
                let cur = pairs@.take(i as int + 1);
                assert forall|j: int| 0 <= j < i implies #[trigger] cur[j] == pre[j] by {}
                assert(cur[i as int] == pairs@[i as int]);
                assert(self@ =~= old(self)@.union(contact_keys(cur))) by {
                    assert forall|k: EntityKey| #[trigger] contact_keys(cur).contains(k) implies (
                    contact_keys(pre).contains(k) || (a.agent_id != b.agent_id && (k
                        == a.stripped() || k == b.stripped()))) by {
                        let j = choose|j: int|
                            0 <= j < cur.len() && #[trigger] cur[j].0.agent_id != cur[j].1.agent_id
                                && (k == cur[j].0.stripped() || k == cur[j].1.stripped());
                        if j < i {
                            assert(pre[j] == cur[j]);
                        }
                    }
                    assert forall|k: EntityKey| #[trigger] contact_keys(pre).contains(k) implies contact_keys(
                    cur).contains(k) by {
                        let j = choose|j: int|
                            0 <= j < pre.len() && #[trigger] pre[j].0.agent_id != pre[j].1.agent_id
                                && (k == pre[j].0.stripped() || k == pre[j].1.stripped());
                        assert(cur[j] == pre[j]);
                    }
                    if a.agent_id != b.agent_id {
                        assert(contact_keys(cur).contains(a.stripped()));
                        assert(contact_keys(cur).contains(b.stripped()));
                    }
                }
            }
            i = i + 1;
        }
        assert(pairs@.take(pairs@.len() as int) =~= pairs@);
    }

    /// Forgets every key.
    pub fn clear(&mut self)
        ensures
            final(self)@ == Set::<EntityKey>::empty(),
            final(self).wf(),
    {
        self.keys.clear();
        assert(self@ =~= Set::<EntityKey>::empty());
    }
}

} // verus!
