use vstd::prelude::*;
use crate::mesh::{Attachment, JointKind, SegmentSpec};

verus! {

/// Rotation limit of an articulated joint, either way from its reference
/// angle, in degrees.
pub const REVOLUTE_LIMIT_DEGREES: u32 = 30;

/// Resonance frequency of a weld joint's spring, in hertz.
pub const WELD_FREQUENCY_HZ: u32 = 5;

/// Damping ratio of a weld joint's spring, in hundredths.
pub const WELD_DAMPING_PERCENT: u32 = 90;

/// The constraint between a parent body and its child.
#[derive(Clone, Copy, Debug, PartialEq, Eq, Structural)]
pub enum JointDef {
    /// Revolute, rotation limited to `limit_degrees` either way around the
    /// reference angle.
    Revolute { limit_degrees: u32 },
    /// Weld, spring-damped.
    Weld { frequency_hz: u32, damping_percent: u32 },
}

/// One joint to create. Bodies are named by segment index; anchors by mesh
/// vertex index (the caller scales them by each mesh's radius). The reference
/// angle is the child's rest angle minus the parent's.
#[derive(Clone, Copy, Debug, PartialEq, Eq, Structural)]
pub struct JointPlan {
    pub parent: usize,
    pub child: usize,
    pub parent_anchor: usize,
    pub child_anchor: usize,
    pub collide_connected: bool,
    pub def: JointDef,
}

pub open spec fn joint_def_of(kind: JointKind) -> JointDef {
    match kind {
        JointKind::Articulated => JointDef::Revolute { limit_degrees: 30 },
        JointKind::Rigid => JointDef::Weld { frequency_hz: 5, damping_percent: 90 },
    }
}

/// The joint that ties segment `i` to the segment it is attached to.
pub open spec fn joint_of(i: usize, s: SegmentSpec, a: Attachment) -> JointPlan {
    JointPlan {
        parent: a.index,
        child: i,
        parent_anchor: a.attachment_point,
        child_anchor: 0,
        collide_connected: false,
        def: joint_def_of(s.joint),
    }
}

/// The joints of an agent: one for each attached segment, in segment order.
pub open spec fn joints_of(segs: Seq<SegmentSpec>) -> Seq<JointPlan>
    decreases segs.len(),
{
    if segs.len() == 0 {
        Seq::empty()
    } else {
        let i = (segs.len() - 1) as int;
        let prev = joints_of(segs.take(i));
        match segs[i].attachment {
            Some(a) => prev.push(joint_of(i as usize, segs[i], a)),
            None => prev,
        }
    }
}

pub fn plan_joint(i: usize, s: &SegmentSpec, a: &Attachment) -> (r: JointPlan)
    ensures
        r == joint_of(i, *s, *a),
{
    let def = match s.joint {
        JointKind::Articulated => JointDef::Revolute { limit_degrees: REVOLUTE_LIMIT_DEGREES },
        JointKind::Rigid => JointDef::Weld {
            frequency_hz: WELD_FREQUENCY_HZ,
            damping_percent: WELD_DAMPING_PERCENT,
        },
    };
    JointPlan {
        parent: a.index,
        child: i,
        parent_anchor: a.attachment_point,
        child_anchor: 0,
        collide_connected: false,
        def,
    }
}

/// Plans the joints of an agent whose segments are given in order.
pub fn plan_joints(segs: &Vec<SegmentSpec>) -> (r: Vec<JointPlan>)
    ensures
        r@ == joints_of(segs@),
{
    let mut r: Vec<JointPlan> = Vec::new();
    let mut i: usize = 0;
    while i < segs.len()
        invariant
            i <= segs@.len(),
            r@ == joints_of(segs@.take(i as int)),
        decreases segs@.len() - i,
    {
        assert(segs@.take(i as int + 1).take(i as int) =~= segs@.take(i as int));
        if let Some(a) = &segs[i].attachment {
            r.push(plan_joint(i, &segs[i], a));
        }
        i = i + 1;
    }
    assert(segs@.take(segs@.len() as int) =~= segs@);
    r
}

/// `jp` is the joint that the attachment of its child segment asks for.
pub open spec fn joint_matches(segs: Seq<SegmentSpec>, jp: JointPlan) -> bool {
    &&& jp.child < segs.len()
    &&& segs[jp.child as int].attachment is Some
    &&& jp == joint_of(jp.child, segs[jp.child as int], segs[jp.child as int].attachment->0)
}

proof fn lemma_joints_step(segs: Seq<SegmentSpec>)
    requires
        segs.len() > 0,
    ensures
        ({
            let n = segs.len() - 1;
            let pj = joints_of(segs.take(n));
            match segs[n].attachment {
                Some(a) => joints_of(segs) == pj.push(joint_of(n as usize, segs[n], a)),
                None => joints_of(segs) == pj,
            }
        }),
{
}

pub proof fn lemma_joints_match(segs: Seq<SegmentSpec>)
    requires
        segs.len() <= usize::MAX,
    ensures
        forall|j: int|
            0 <= j < joints_of(segs).len() ==> joint_matches(segs, #[trigger] joints_of(segs)[j]),
    decreases segs.len(),
{
    if segs.len() > 0 {
        let n = segs.len() - 1;
        let pre = segs.take(n);
        lemma_joints_match(pre);
        lemma_joints_step(segs);
        let pj = joints_of(pre);
        let js = joints_of(segs);
        assert forall|j: int| 0 <= j < js.len() implies joint_matches(segs, #[trigger] js[j]) by {
            if j < pj.len() {
                assert(js[j] == pj[j]);
                assert(joint_matches(pre, pj[j]));
                assert(pre[pj[j].child as int] == segs[pj[j].child as int]);
            } else {
                assert(segs[n].attachment is Some);
            }
        }
    }
}

proof fn lemma_joints_ordered(segs: Seq<SegmentSpec>)
    requires
        segs.len() <= usize::MAX,
    ensures
        forall|j1: int, j2: int|
            0 <= j1 < j2 < joints_of(segs).len() ==> #[trigger] joints_of(segs)[j1].child
                < #[trigger] joints_of(segs)[j2].child,
    decreases segs.len(),
{
    if segs.len() > 0 {
        let n = segs.len() - 1;
        let pre = segs.take(n);
        lemma_joints_ordered(pre);
        lemma_joints_match(pre);
        lemma_joints_step(segs);
        let pj = joints_of(pre);
        let js = joints_of(segs);
        assert forall|j1: int, j2: int| 0 <= j1 < j2 < js.len() implies #[trigger] js[j1].child
            < #[trigger] js[j2].child by {
            assert(js[j1] == pj[j1]);
            assert(joint_matches(pre, pj[j1]));
            if j2 < pj.len() {
                assert(js[j2] == pj[j2]);
            } else {
                assert(segs[n].attachment is Some);
                assert(js[j2].child == n);
            }
        }
    }
}

proof fn lemma_joints_cover(segs: Seq<SegmentSpec>)
    requires
        segs.len() <= usize::MAX,
    ensures
        forall|i: int|
            0 <= i < segs.len() && (#[trigger] segs[i]).attachment is Some ==> exists|j: int|
                0 <= j < joints_of(segs).len() && #[trigger] joints_of(segs)[j].child == i,
    decreases segs.len(),
{
    if segs.len() > 0 {
        let n = segs.len() - 1;
        let pre = segs.take(n);
        lemma_joints_cover(pre);
        lemma_joints_step(segs);
        let pj = joints_of(pre);
        let js = joints_of(segs);
        assert forall|i: int|
            0 <= i < segs.len() && (#[trigger] segs[i]).attachment is Some implies exists|j: int|
                0 <= j < js.len() && #[trigger] js[j].child == i by {
            if i < n {
                assert(pre[i] == segs[i]);
                let j = choose|j: int| 0 <= j < pj.len() && #[trigger] pj[j].child == i;
                assert(js[j] == pj[j]);
            } else {
                assert(segs[n].attachment is Some);
                assert(js[pj.len() as int].child == i);
            }
        }
    }
}

/// For every segment: if it is attached, exactly one joint names it as the
/// child, and that joint goes to the declared parent; if it is a root, no
/// joint names it.
pub proof fn lemma_one_joint_per_attached_segment(segs: Seq<SegmentSpec>, i: int)
    requires
        segs.len() <= usize::MAX,
        0 <= i < segs.len(),
    ensures
        segs[i].attachment is None ==> forall|j: int|
            0 <= j < joints_of(segs).len() ==> #[trigger] joints_of(segs)[j].child != i,
        segs[i].attachment is Some ==> exists|j: int|
            0 <= j < joints_of(segs).len() && #[trigger] joints_of(segs)[j].child == i
                && joints_of(segs)[j].parent == segs[i].attachment->0.index && forall|k: int|
                0 <= k < joints_of(segs).len() && #[trigger] joints_of(segs)[k].child == i
                    ==> k == j,
{
    lemma_joints_match(segs);
    lemma_joints_ordered(segs);
    lemma_joints_cover(segs);
    let js = joints_of(segs);
    if segs[i].attachment is Some {
        assert(segs[i].attachment is Some);
        let j = choose|j: int| 0 <= j < js.len() && #[trigger] js[j].child == i;
        assert forall|k: int| 0 <= k < js.len() && #[trigger] js[k].child == i implies k == j by {
            if k < j {
                assert(js[k].child < js[j].child);
            } else if j < k {
                assert(js[j].child < js[k].child);
            }
        }
    }
}

/// An articulated segment gets a revolute joint limited to 30 degrees
/// either way around its reference angle; any other attached segment gets a
/// weld of 5 Hz damped at 0.9. No joint lets its two bodies collide.
pub proof fn lemma_joint_kinds(segs: Seq<SegmentSpec>)
    requires
        segs.len() <= usize::MAX,
    ensures
        forall|j: int|
            0 <= j < joints_of(segs).len() ==> {
                let jp = #[trigger] joints_of(segs)[j];
                &&& !jp.collide_connected
                &&& segs[jp.child as int].joint == JointKind::Articulated ==> jp.def
                    == JointDef::Revolute { limit_degrees: REVOLUTE_LIMIT_DEGREES }
                &&& segs[jp.child as int].joint == JointKind::Rigid ==> jp.def == JointDef::Weld {
                    frequency_hz: WELD_FREQUENCY_HZ,
                    damping_percent: WELD_DAMPING_PERCENT,
                }
            },
{
    lemma_joints_match(segs);
    assert forall|j: int| 0 <= j < joints_of(segs).len() implies {
        let jp = #[trigger] joints_of(segs)[j];
        &&& !jp.collide_connected
        &&& segs[jp.child as int].joint == JointKind::Articulated ==> jp.def
            == JointDef::Revolute { limit_degrees: REVOLUTE_LIMIT_DEGREES }
        &&& segs[jp.child as int].joint == JointKind::Rigid ==> jp.def == JointDef::Weld {
            frequency_hz: WELD_FREQUENCY_HZ,
            damping_percent: WELD_DAMPING_PERCENT,
        }
    } by {
        assert(joint_matches(segs, joints_of(segs)[j]));
    }
}

} // verus!
