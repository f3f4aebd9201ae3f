use vstd::prelude::*;

verus! {

/// Identity of one engine primitive: the agent, the segment inside it, and,
/// for segments made of several fixtures, the bone (sub-fixture) index.
#[derive(Clone, Copy, Debug, PartialEq, Eq, Hash, Structural)]
pub struct EntityKey {
    pub agent_id: usize,
    pub segment_index: usize,
    pub bone_index: Option<usize>,
}

impl EntityKey {
    /// The key of a whole segment.
    pub fn with_segment(agent_id: usize, segment_index: usize) -> (r: EntityKey)
        ensures
            r == (EntityKey { agent_id, segment_index, bone_index: None }),
    {
        EntityKey { agent_id, segment_index, bone_index: None }
    }

    /// The key of one bone (sub-fixture) of a segment.
    pub fn with_bone(agent_id: usize, segment_index: usize, bone_index: usize) -> (r: EntityKey)
        ensures
            r == (EntityKey { agent_id, segment_index, bone_index: Some(bone_index) }),
    {
        EntityKey { agent_id, segment_index, bone_index: Some(bone_index) }
    }

    pub open spec fn stripped(self) -> EntityKey {
        EntityKey { bone_index: None, ..self }
    }

    /// The same key without its bone detail, as used for contact aggregation.
    pub fn no_bone(&self) -> (r: EntityKey)
        ensures
            r == self.stripped(),
    {
        EntityKey { agent_id: self.agent_id, segment_index: self.segment_index, bone_index: None }
    }

    pub fn same_key(&self, other: &EntityKey) -> (r: bool)
        ensures
            r == (*self == *other),
    {
        *self == *other
    }
}

} // verus!
