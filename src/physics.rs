use vstd::prelude::*;
use crate::key::EntityKey;
use crate::builder::segment_key;
use crate::contact::{TouchedSet, contact_keys};

verus! {

/// What the AI wants a segment to do this tick; `V` is the caller's vector.
#[derive(Clone, Copy, Debug, PartialEq, Eq)]
pub enum Intent<V> {
    Idle,
    Move(V),
    RunAway(V),
}

/// How a vector acts on a body.
#[derive(Clone, Copy, Debug, PartialEq, Eq, Structural)]
pub enum PushKind {
    /// A continuous force at the body's world center.
    Force,
    /// One linear impulse at the body's world center.
    Impulse,
}

/// One force or impulse to apply before the engine steps.
#[derive(Clone, Copy, Debug)]
pub struct Push<H, V> {
    pub key: EntityKey,
    pub body: H,
    pub kind: PushKind,
    pub vector: V,
}

/// What export writes back for one body: its key, its handle (the caller
/// reads position and angle from it) and the segment's collision flag.
#[derive(Clone, Copy, Debug)]
pub struct SyncEntry<H> {
    pub key: EntityKey,
    pub body: H,
    pub collided: bool,
}

/// A segment's pose in the world model.
#[derive(Clone, Copy, Debug, PartialEq)]
pub struct Transform<P, A, S> {
    pub position: P,
    pub angle: A,
    pub scale: S,
}

/// The push that an entry gets from what the world model says of its
/// segment: `None` when the segment is gone.
pub open spec fn push_of<H, V>(entry: (EntityKey, H), intent: Option<Intent<V>>) -> Option<Push<H, V>> {
    match intent {
        Some(Intent::Move(v)) => Some(Push { key: entry.0, body: entry.1, kind: PushKind::Force, vector: v }),
        Some(Intent::RunAway(v)) => Some(Push { key: entry.0, body: entry.1, kind: PushKind::Impulse, vector: v }),
        _ => None,
    }
}

/// The pushes of a tick: the entries paired with the intents, in table order.
pub open spec fn pushes_of<H, V>(entries: Seq<(EntityKey, H)>, intents: Seq<Option<Intent<V>>>) -> Seq<
    Push<H, V>,
>
    decreases entries.len(),
{
    if entries.len() == 0 || intents.len() != entries.len() {
        Seq::empty()
    } else {
        let n = entries.len() - 1;
        let prev = pushes_of(entries.take(n), intents.take(n));
        match push_of(entries[n], intents[n]) {
            Some(p) => prev.push(p),
            None => prev,
        }
    }
}

pub open spec fn not_of_agent<H>(agent_id: usize) -> spec_fn((EntityKey, H)) -> bool {
    |e: (EntityKey, H)| e.0.agent_id != agent_id
}

pub open spec fn of_agent<H>(agent_id: usize) -> spec_fn((EntityKey, H)) -> bool {
    |e: (EntityKey, H)| e.0.agent_id == agent_id
}

pub open spec fn sync_of<H>(e: (EntityKey, H), touched: Set<EntityKey>) -> SyncEntry<H> {
    SyncEntry { key: e.0, body: e.1, collided: touched.contains(e.0.stripped()) }
}

/// The bookkeeping of the physics system: the handle table, which maps each
/// registered segment to its engine body, and the touched set of the tick.
pub struct PhysicsSystem<H> {
    handles: Vec<(EntityKey, H)>,
    touched: TouchedSet,
}

impl<H: Copy> PhysicsSystem<H> {
    /// The handle table, in registration order.
    pub closed spec fn entries(&self) -> Seq<(EntityKey, H)> {
        self.handles@
    }

    pub closed spec fn touched(&self) -> Set<EntityKey> {
        self.touched@
    }

    pub open spec fn has_agent(&self, agent_id: usize) -> bool {
        exists|i: int| 0 <= i < self.entries().len() && #[trigger] self.entries()[i].0.agent_id == agent_id
    }

    /// Keys are unique in the handle table; the touched set holds no bone
    /// detail.
    pub open spec fn wf(&self) -> bool {
        &&& forall|i: int, j: int|
            0 <= i < j < self.entries().len() ==> #[trigger] self.entries()[i].0
                != #[trigger] self.entries()[j].0
        &&& forall|k: EntityKey| self.touched().contains(k) ==> k.bone_index is None
    }

    proof fn lemma_touched_wf(&self)
        ensures
            self.wf() ==> self.touched.wf(),
            self.touched.wf() ==> forall|k: EntityKey|
                self.touched().contains(k) ==> k.bone_index is None,
            self.wf() ==> forall|i: int, j: int|
                0 <= i < j < self.handles@.len() ==> #[trigger] self.handles@[i].0
                    != #[trigger] self.handles@[j].0,
    {
        if self.wf() {
            assert forall|k: EntityKey| self.touched@.contains(k) implies k.bone_index is None by {
                assert(self.touched().contains(k));
            }
            assert forall|i: int, j: int|
                0 <= i < j < self.handles@.len() implies #[trigger] self.handles@[i].0
                != #[trigger] self.handles@[j].0 by {
                assert(self.entries()[i] == self.handles@[i]);
                assert(self.entries()[j] == self.handles@[j]);
            }
        }
    }

    pub fn new() -> (r: Self)
        ensures
            r.wf(),
            r.entries() == Seq::<(EntityKey, H)>::empty(),
            r.touched() == Set::<EntityKey>::empty(),
    {
        PhysicsSystem { handles: Vec::new(), touched: TouchedSet::new() }
    }

    /// Whether any body of the agent is in the handle table.
    pub fn is_registered(&self, agent_id: usize) -> (r: bool)
        ensures
            r == self.has_agent(agent_id),
    {
        let mut i: usize = 0;
        while i < self.handles.len()
            invariant
                i <= self.handles@.len(),
                forall|j: int| 0 <= j < i ==> #[trigger] self.handles@[j].0.agent_id != agent_id,
            decreases self.handles@.len() - i,
        {
            if self.handles[i].0.agent_id == agent_id {
                return true;
            }
            i = i + 1;
        }
        false
    }

    /// The keys of the handle table, in its order.
    pub fn keys(&self) -> (r: Vec<EntityKey>)
        ensures
            r@.len() == self.entries().len(),
            forall|i: int| 0 <= i < r@.len() ==> #[trigger] r@[i] == self.entries()[i].0,
    {
        let mut r: Vec<EntityKey> = Vec::new();
        let mut i: usize = 0;
        while i < self.handles.len()
            invariant
                i <= self.handles@.len(),
                r@.len() == i,
                forall|j: int| 0 <= j < i ==> #[trigger] r@[j] == self.handles@[j].0,
            decreases self.handles@.len() - i,
        {
            r.push(self.handles[i].0);
            i = i + 1;
        }
        r
    }

    /// Records the bodies built for a new agent, the `i`th for its segment
    /// `i`.
    pub fn record_bodies(&mut self, agent_id: usize, bodies: &Vec<H>)
        requires
            old(self).wf(),
            !old(self).has_agent(agent_id),
        ensures
            final(self).wf(),
            final(self).touched() == old(self).touched(),
            final(self).entries() == old(self).entries() + Seq::new(
                bodies@.len(),
                |i: int| (segment_key(agent_id, i as usize), bodies@[i]),
            ),
    {
        let ghost start = self.handles@;
        proof {
            self.lemma_touched_wf();
        }
        let mut i: usize = 0;
        while i < bodies.len()
            invariant
                i <= bodies@.len(),
                self.touched@ == old(self).touched@,
                self.touched.wf(),
                self.handles@ == start + Seq::new(
                    i as nat,
                    |j: int| (segment_key(agent_id, j as usize), bodies@[j]),
                ),
                forall|a: int, b: int|
                    0 <= a < b < start.len() ==> #[trigger] start[a].0 != #[trigger] start[b].0,
                forall|a: int| 0 <= a < start.len() ==> #[trigger] start[a].0.agent_id != agent_id,
            decreases bodies@.len() - i,
        {
            self.handles.push((EntityKey::with_segment(agent_id, i), bodies[i]));
            i = i + 1;
            assert(self.handles@ =~= start + Seq::new(
                i as nat,
                |j: int| (segment_key(agent_id, j as usize), bodies@[j]),
            ));
        }
        proof {
            self.lemma_touched_wf();
        }
        assert forall|a: int, b: int|
            0 <= a < b < self.handles@.len() implies #[trigger] self.handles@[a].0
            != #[trigger] self.handles@[b].0 by {
            if b >= start.len() && a < start.len() {
                assert(start[a].0.agent_id != agent_id);
            }
        }
    }

    /// Removes every entry of an agent from the handle table and returns
    /// their bodies, for the caller to destroy.
    pub fn unregister(&mut self, agent_id: usize) -> (r: Vec<H>)
        requires
            old(self).wf(),
        ensures
            final(self).wf(),
            final(self).touched() == old(self).touched(),
            final(self).entries() == old(self).entries().filter(not_of_agent(agent_id)),
            r@ == old(self).entries().filter(of_agent(agent_id)).map_values(
                |e: (EntityKey, H)| e.1,
            ),
            !final(self).has_agent(agent_id),
    {
        let ghost start = self.handles@;
        let mut kept: Vec<(EntityKey, H)> = Vec::new();
        let mut removed: Vec<H> = Vec::new();
        let mut i: usize = 0;
        while i < self.handles.len()
            invariant
                i <= start.len(),
                self.handles@ == start,
                kept@ == start.take(i as int).filter(not_of_agent(agent_id)),
                removed@ == start.take(i as int).filter(of_agent(agent_id)).map_values(
                    |e: (EntityKey, H)| e.1,
                ),
            decreases start.len() - i,
        {
            let e = self.handles[i];
            proof {
                assert(start.take(i as int + 1) =~= start.take(i as int).push(e));
                start.take(i as int).lemma_filter_push(e, not_of_agent(agent_id));
                start.take(i as int).lemma_filter_push(e, of_agent(agent_id));
            }
            if e.0.agent_id == agent_id {
                removed.push(e.1);
                assert(removed@ =~= start.take(i as int + 1).filter(of_agent(agent_id)).map_values(
                    |e: (EntityKey, H)| e.1,
                ));
            } else {
                kept.push(e);
            }
            i = i + 1;
        }
        assert(start.take(start.len() as int) =~= start);
        proof {
            self.lemma_touched_wf();
        }
        self.handles = kept;
        proof {
            self.lemma_touched_wf();
            broadcast use vstd::seq_lib::group_filter_ensures;

            let f = start.filter(not_of_agent::<H>(agent_id));
            assert forall|a: int, b: int| 0 <= a < b < f.len() implies #[trigger] f[a].0
                != #[trigger] f[b].0 by {
                lemma_filter_unique(start, not_of_agent::<H>(agent_id), a, b);
            }
            assert forall|j: int| 0 <= j < f.len() implies #[trigger] f[j].0.agent_id
                != agent_id by {
                assert(not_of_agent::<H>(agent_id)(f[j]));
            }
        }
        removed
    }

    /// Decides the forces and impulses of a tick. `intents[i]` is what the
    /// world model holds for the segment of the `i`th table entry, or `None`
    /// when that agent or segment is gone: such entries are skipped, as are
    /// idle segments.
    pub fn plan_pushes<V: Copy>(&self, intents: &Vec<Option<Intent<V>>>) -> (r: Vec<Push<H, V>>)
        requires
            intents@.len() == self.entries().len(),
        ensures
            r@ == pushes_of(self.entries(), intents@),
    {
        let mut r: Vec<Push<H, V>> = Vec::new();
        let mut i: usize = 0;
        while i < self.handles.len()
            invariant
                i <= self.handles@.len(),
                intents@.len() == self.handles@.len(),
                r@ == pushes_of(self.handles@.take(i as int), intents@.take(i as int)),
            decreases self.handles@.len() - i,
        {
            let e = self.handles[i];
            proof {
                assert(self.handles@.take(i as int + 1).take(i as int) =~= self.handles@.take(
                    i as int,
                ));
                assert(intents@.take(i as int + 1).take(i as int) =~= intents@.take(i as int));
            }
            match intents[i] {
                Some(Intent::Move(v)) => r.push(Push { key: e.0, body: e.1, kind: PushKind::Force, vector: v }),
                Some(Intent::RunAway(v)) => r.push(
                    Push { key: e.0, body: e.1, kind: PushKind::Impulse, vector: v },
                ),
                _ => {},
            }
            i = i + 1;
        }
        assert(self.handles@.take(self.handles@.len() as int) =~= self.handles@);
        assert(intents@.take(intents@.len() as int) =~= intents@);
        r
    }

    /// Feeds the contacts that the engine reported during a solve to the
    /// touched set.
    pub fn record_contacts(&mut self, pairs: &Vec<(EntityKey, EntityKey)>)
        requires
            old(self).wf(),
        ensures
            final(self).wf(),
            final(self).entries() == old(self).entries(),
            final(self).touched() == old(self).touched().union(contact_keys(pairs@)),
    {
        proof {
            self.lemma_touched_wf();
        }
        self.touched.record_contacts(pairs);
        proof {
            self.lemma_touched_wf();
        }
    }

    /// Export: for every table entry, in order, the body to read the pose
    /// from and whether the segment touched another agent this tick. The
    /// touched set is empty afterwards.
    pub fn export(&mut self) -> (r: Vec<SyncEntry<H>>)
        requires
            old(self).wf(),
        ensures
            final(self).wf(),
            final(self).entries() == old(self).entries(),
            final(self).touched() == Set::<EntityKey>::empty(),
            r@.len() == old(self).entries().len(),
            forall|i: int|
                0 <= i < r@.len() ==> #[trigger] r@[i] == sync_of(
                    old(self).entries()[i],
                    old(self).touched(),
                ),
    {
        let mut r: Vec<SyncEntry<H>> = Vec::new();
        let mut i: usize = 0;
        while i < self.handles.len()
            invariant
                i <= self.handles@.len(),
                r@.len() == i,
                forall|j: int|
                    0 <= j < i ==> #[trigger] r@[j] == sync_of(self.handles@[j], self.touched@),
            decreases self.handles@.len() - i,
        {
            let e = self.handles[i];
            let collided = self.touched.contains(&e.0.no_bone());
            r.push(SyncEntry { key: e.0, body: e.1, collided });
            i = i + 1;
        }
        self.touched.clear();
        proof {
            self.lemma_touched_wf();
        }
        r
    }
}

proof fn lemma_filter_unique<H>(s: Seq<(EntityKey, H)>, p: spec_fn((EntityKey, H)) -> bool, a: int, b: int)
    requires
        forall|i: int, j: int| 0 <= i < j < s.len() ==> #[trigger] s[i].0 != #[trigger] s[j].0,
        0 <= a < b < s.filter(p).len(),
    ensures
        s.filter(p)[a].0 != s.filter(p)[b].0,
    decreases s.len(),
{
    reveal(Seq::filter);
    let pre = s.drop_last();
    let pf = pre.filter(p);
    assert forall|i: int, j: int| 0 <= i < j < pre.len() implies #[trigger] pre[i].0
        != #[trigger] pre[j].0 by {
        assert(pre[i] == s[i] && pre[j] == s[j]);
    }
    if p(s.last()) {
        assert(s.filter(p) == pf.push(s.last()));
        if b == pf.len() {
            let x = pf[a];
            assert(pf.contains(x));
            pre.lemma_filter_contains_rev(p, x);
            let k = choose|k: int| 0 <= k < pre.len() && pre[k] == x;
            assert(pre[k] == s[k]);
            assert(s[k].0 != s[s.len() - 1].0);
        } else {
            lemma_filter_unique(pre, p, a, b);
        }
    } else {
        assert(s.filter(p) == pf);
        lemma_filter_unique(pre, p, a, b);
    }
}

/// Each push comes from an entry of the table: same key, same body.
pub proof fn lemma_pushes_come_from_entries<H, V>(
    entries: Seq<(EntityKey, H)>,
    intents: Seq<Option<Intent<V>>>,
)
    ensures
        forall|i: int|
            0 <= i < pushes_of(entries, intents).len() ==> exists|j: int|
                0 <= j < entries.len() && (#[trigger] pushes_of(entries, intents)[i]).key
                    == entries[j].0 && pushes_of(entries, intents)[i].body == entries[j].1,
    decreases entries.len(),
{
    if entries.len() > 0 && intents.len() == entries.len() {
        let n = entries.len() - 1;
        let pe = entries.take(n);
        let pi = intents.take(n);
        lemma_pushes_come_from_entries(pe, pi);
        let prev = pushes_of(pe, pi);
        let all = pushes_of(entries, intents);
        assert forall|i: int| 0 <= i < all.len() implies exists|j: int|
            0 <= j < entries.len() && (#[trigger] all[i]).key == entries[j].0 && all[i].body
                == entries[j].1 by {
            if i < prev.len() {
                assert(all[i] == prev[i]);
                let j = choose|j: int|
                    0 <= j < pe.len() && (#[trigger] prev[i]).key == pe[j].0 && prev[i].body
                        == pe[j].1;
                assert(pe[j] == entries[j]);
            } else {
                assert(push_of(entries[n], intents[n]) is Some);
                assert(all[i].key == entries[n].0);
            }
        }
    }
}

/// Once an agent is removed, no later tick touches it: the pushes planned
/// from the table that removal leaves, and the entries that export walks,
/// all belong to other agents.
pub proof fn lemma_removed_agent_left_alone<H, V>(
    entries: Seq<(EntityKey, H)>,
    agent_id: usize,
    intents: Seq<Option<Intent<V>>>,
    touched: Set<EntityKey>,
)
    ensures
        ({
            let kept = entries.filter(not_of_agent(agent_id));
            &&& forall|i: int|
                0 <= i < pushes_of(kept, intents).len() ==> (#[trigger] pushes_of(
                    kept,
                    intents,
                )[i]).key.agent_id != agent_id
            &&& forall|i: int|
                0 <= i < kept.len() ==> (#[trigger] sync_of(kept[i], touched)).key.agent_id
                    != agent_id
        }),
{
    broadcast use vstd::seq_lib::group_filter_ensures;

    let kept = entries.filter(not_of_agent::<H>(agent_id));
    assert forall|j: int| 0 <= j < kept.len() implies #[trigger] kept[j].0.agent_id != agent_id by {
        assert(not_of_agent::<H>(agent_id)(kept[j]));
    }
    lemma_pushes_come_from_entries(kept, intents);
    assert forall|i: int| 0 <= i < pushes_of(kept, intents).len() implies (#[trigger] pushes_of(
        kept,
        intents,
    )[i]).key.agent_id != agent_id by {
        let j = choose|j: int|
            0 <= j < kept.len() && (#[trigger] pushes_of(kept, intents)[i]).key == kept[j].0
                && pushes_of(kept, intents)[i].body == kept[j].1;
    }
}

/// A contact between two different agents flags both of its segments in the
/// export of the same tick; contacts within one agent flag no segment of
/// their own accord.
pub proof fn lemma_contacts_flag_both_sides<H>(
    touched: Set<EntityKey>,
    pairs: Seq<(EntityKey, EntityKey)>,
    e: (EntityKey, H),
)
    ensures
        (exists|i: int|
            0 <= i < pairs.len() && #[trigger] pairs[i].0.agent_id != pairs[i].1.agent_id && (
            e.0.stripped() == pairs[i].0.stripped() || e.0.stripped() == pairs[i].1.stripped()))
            ==> sync_of(e, touched.union(contact_keys(pairs))).collided,
        (!touched.contains(e.0.stripped()) && forall|i: int|
            0 <= i < pairs.len() && #[trigger] pairs[i].0.agent_id != pairs[i].1.agent_id ==> (
            e.0.stripped() != pairs[i].0.stripped() && e.0.stripped() != pairs[i].1.stripped()))
            ==> !sync_of(e, touched.union(contact_keys(pairs))).collided,
{
    assert(e.0.stripped().stripped() == e.0.stripped());
}

/// The pose that export writes: the engine's position and angle, and the
/// segment's own scale.
pub fn synced<P, A, S>(t: Transform<P, A, S>, position: P, angle: A) -> (r: Transform<P, A, S>)
    ensures
        r == (Transform { position, angle, scale: t.scale }),
{
    Transform { position, angle, scale: t.scale }
}

} // verus!
