use vstd::prelude::*;
use crate::builder::{BodyPlan, plan_body, fixtures_of, segment_key};
use crate::joints::{JointPlan, plan_joints, joints_of, joint_matches};
use crate::mesh::{SegmentSpec, check_mesh, mesh_fits, fixture_count};

verus! {

/// Why an agent cannot be built. Each names the first offending segment.
#[derive(Clone, Copy, Debug, PartialEq, Eq, Structural)]
pub enum BuildError {
    /// The mesh's vertex count does not match its shape.
    MeshMismatch { segment: usize },
    /// The attachment names this segment itself or a later one, whose body
    /// would not exist yet.
    DanglingAttachment { segment: usize },
    /// The attachment point is not a vertex of the parent's mesh, or the
    /// segment's own mesh has no vertex to anchor at.
    AnchorOutOfRange { segment: usize },
}

/// Everything to create for one agent: a body per segment, in segment
/// order, then the joints between them.
pub struct AgentPlan {
    pub bodies: Vec<BodyPlan>,
    pub joints: Vec<JointPlan>,
}

/// What is wrong with segment `i`, if anything.
pub open spec fn segment_error(segs: Seq<SegmentSpec>, i: int) -> Option<BuildError> {
    let s = segs[i];
    if !mesh_fits(s) {
        Some(BuildError::MeshMismatch { segment: i as usize })
    } else {
        match s.attachment {
            None => None,
            Some(a) => if a.index >= i {
                Some(BuildError::DanglingAttachment { segment: i as usize })
            } else if a.attachment_point >= segs[a.index as int].vertex_count || s.vertex_count
                == 0 {
                Some(BuildError::AnchorOutOfRange { segment: i as usize })
            } else {
                None
            },
        }
    }
}

/// The error of the first faulty segment among the first `n`.
pub open spec fn first_error(segs: Seq<SegmentSpec>, n: nat) -> Option<BuildError>
    decreases n,
{
    if n == 0 {
        None
    } else {
        match first_error(segs, (n - 1) as nat) {
            Some(e) => Some(e),
            None => segment_error(segs, n - 1),
        }
    }
}

pub open spec fn agent_error(segs: Seq<SegmentSpec>) -> Option<BuildError> {
    first_error(segs, segs.len())
}

/// The plan is the one that the segments ask for.
pub open spec fn plan_matches(agent_id: usize, segs: Seq<SegmentSpec>, p: AgentPlan) -> bool {
    &&& p.bodies@.len() == segs.len()
    &&& forall|i: int|
        0 <= i < segs.len() ==> {
            &&& (#[trigger] p.bodies@[i]).key == segment_key(agent_id, i as usize)
            &&& p.bodies@[i].fixtures@ == fixtures_of(agent_id, i as usize, segs[i])
        }
    &&& p.joints@ == joints_of(segs)
}

proof fn lemma_no_error_prefix(segs: Seq<SegmentSpec>, n: nat)
    requires
        first_error(segs, n) is None,
    ensures
        forall|i: int| 0 <= i < n ==> (#[trigger] segment_error(segs, i)) is None,
    decreases n,
{
    if n > 0 {
        lemma_no_error_prefix(segs, (n - 1) as nat);
    }
}

/// A sound agent has no faulty segment.
pub proof fn lemma_sound_agent(segs: Seq<SegmentSpec>)
    requires
        agent_error(segs) is None,
    ensures
        forall|i: int|
            0 <= i < segs.len() ==> mesh_fits(#[trigger] segs[i]) && match segs[i].attachment {
                Some(a) => a.index < i && a.attachment_point < segs[a.index as int].vertex_count
                    && segs[i].vertex_count > 0,
                None => true,
            },
{
    lemma_no_error_prefix(segs, segs.len());
    assert forall|i: int| 0 <= i < segs.len() implies mesh_fits(#[trigger] segs[i]) && match segs[i].attachment {
        Some(a) => a.index < i && a.attachment_point < segs[a.index as int].vertex_count
            && segs[i].vertex_count > 0,
        None => true,
    } by {
        assert(segment_error(segs, i) is None);
    }
}

proof fn lemma_first_error_kept(segs: Seq<SegmentSpec>, n: nat, m: nat)
    requires
        n <= m,
        first_error(segs, n) is Some,
    ensures
        first_error(segs, m) == first_error(segs, n),
    decreases m - n,
{
    if n < m {
        lemma_first_error_kept(segs, n, (m - 1) as nat);
    }
}

fn check_segment(segs: &Vec<SegmentSpec>, i: usize) -> (r: Option<BuildError>)
    requires
        i < segs@.len(),
    ensures
        r == segment_error(segs@, i as int),
{
    let s = &segs[i];
    if !check_mesh(s) {
        return Some(BuildError::MeshMismatch { segment: i });
    }
    match &s.attachment {
        None => None,
        Some(a) => {
            if a.index >= i {
                Some(BuildError::DanglingAttachment { segment: i })
            } else if a.attachment_point >= segs[a.index].vertex_count || s.vertex_count == 0 {
                Some(BuildError::AnchorOutOfRange { segment: i })
            } else {
                None
            }
        },
    }
}

/// Finds the first faulty segment of an agent, if any.
pub fn validate(segs: &Vec<SegmentSpec>) -> (r: Option<BuildError>)
    ensures
        r == agent_error(segs@),
{
    let mut i: usize = 0;
    while i < segs.len()
        invariant
            i <= segs@.len(),
            first_error(segs@, i as nat) is None,
        decreases segs@.len() - i,
    {
        let e = check_segment(segs, i);
        if e.is_some() {
            proof {
                lemma_first_error_kept(segs@, (i + 1) as nat, segs@.len());
            }
            return e;
        }
        i = i + 1;
    }
    None
}

/// Plans the bodies and joints of agent `agent_id`: one body per segment, in
/// segment order, with one fixture for a ball, box or triangle and one per
/// point for a star; then one joint per attached segment. A faulty agent
/// yields the error of its first faulty segment, and no plan at all.
pub fn plan_agent(agent_id: usize, segs: &Vec<SegmentSpec>) -> (r: Result<AgentPlan, BuildError>)
    ensures
        match r {
            Ok(p) => {
                &&& agent_error(segs@) is None
                &&& plan_matches(agent_id, segs@, p)
                &&& forall|i: int|
                    0 <= i < segs@.len() ==> (#[trigger] p.bodies@[i]).fixtures@.len()
                        == fixture_count(segs@[i].shape)
            },
            Err(e) => agent_error(segs@) == Some(e),
        },
{
    if let Some(e) = validate(segs) {
        return Err(e);
    }
    proof {
        lemma_sound_agent(segs@);
    }
    let mut bodies: Vec<BodyPlan> = Vec::new();
    let mut i: usize = 0;
    while i < segs.len()
        invariant
            i <= segs@.len(),
            bodies@.len() == i,
            forall|k: int| 0 <= k < segs@.len() ==> mesh_fits(#[trigger] segs@[k]),
            forall|k: int|
                0 <= k < i ==> {
                    &&& (#[trigger] bodies@[k]).key == segment_key(agent_id, k as usize)
                    &&& bodies@[k].fixtures@ == fixtures_of(agent_id, k as usize, segs@[k])
                    &&& bodies@[k].fixtures@.len() == fixture_count(segs@[k].shape)
                },
        decreases segs@.len() - i,
    {
        let b = plan_body(agent_id, i, &segs[i]);
        bodies.push(b);
        i = i + 1;
    }
    let joints = plan_joints(segs);
    Ok(AgentPlan { bodies, joints })
}

/// Registration of a sound agent plans exactly one body per segment, and per
/// body one fixture for a ball, box or triangle and `n` for a star of `n`.
pub proof fn lemma_body_and_fixture_counts(agent_id: usize, segs: Seq<SegmentSpec>, p: AgentPlan)
    requires
        agent_error(segs) is None,
        plan_matches(agent_id, segs, p),
    ensures
        p.bodies@.len() == segs.len(),
        forall|i: int|
            0 <= i < segs.len() ==> (#[trigger] p.bodies@[i]).fixtures@.len() == fixture_count(
                segs[i].shape,
            ),
{
    lemma_sound_agent(segs);
    assert forall|i: int| 0 <= i < segs.len() implies (#[trigger] p.bodies@[i]).fixtures@.len()
        == fixture_count(segs[i].shape) by {
        assert(p.bodies@[i].fixtures@ == fixtures_of(agent_id, i as usize, segs[i]));
    }
}

/// In a sound agent every planned joint ties a segment to an earlier one, at
/// vertices that exist on both meshes.
pub proof fn lemma_joints_well_anchored(segs: Seq<SegmentSpec>)
    requires
        segs.len() <= usize::MAX,
        agent_error(segs) is None,
    ensures
        forall|j: int|
            0 <= j < joints_of(segs).len() ==> {
                let jp = #[trigger] joints_of(segs)[j];
                &&& jp.parent < jp.child < segs.len()
                &&& jp.parent_anchor < segs[jp.parent as int].vertex_count
                &&& jp.child_anchor < segs[jp.child as int].vertex_count
            },
{
    lemma_sound_agent(segs);
    crate::joints::lemma_joints_match(segs);
    assert forall|j: int| 0 <= j < joints_of(segs).len() implies {
        let jp = #[trigger] joints_of(segs)[j];
        &&& jp.parent < jp.child < segs.len()
        &&& jp.parent_anchor < segs[jp.parent as int].vertex_count
        &&& jp.child_anchor < segs[jp.child as int].vertex_count
    } by {
        assert(joint_matches(segs, joints_of(segs)[j]));
    }
}

} // verus!
