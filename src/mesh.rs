use vstd::prelude::*;

verus! {

/// The kind of collision geometry of a segment. Radii, ratios and vertex
/// coordinates stay with the caller: what is decided here depends only on the
/// kind, the vertex count and the winding.
#[derive(Clone, Copy, Debug, PartialEq, Eq, Structural)]
pub enum Shape {
    Ball,
    Box,
    Star { n: usize },
    Triangle,
}

/// Orientation of a mesh's rim.
#[derive(Clone, Copy, Debug, PartialEq, Eq, Structural)]
pub enum Winding {
    CW,
    CCW,
}

/// How a segment is tied to its parent.
#[derive(Clone, Copy, Debug, PartialEq, Eq, Structural)]
pub enum JointKind {
    /// A rotation-limited revolute joint.
    Articulated,
    /// A spring-damped weld.
    Rigid,
}

/// A segment's reference to an earlier segment of the same agent: its index,
/// and the index of the vertex of that segment's mesh to attach to.
#[derive(Clone, Copy, Debug, PartialEq, Eq, Structural)]
pub struct Attachment {
    pub index: usize,
    pub attachment_point: usize,
}

/// What the physics core reads of one segment.
#[derive(Clone, Copy, Debug, PartialEq, Eq, Structural)]
pub struct SegmentSpec {
    pub shape: Shape,
    pub vertex_count: usize,
    pub winding: Winding,
    pub joint: JointKind,
    pub attachment: Option<Attachment>,
}

/// The vertex count agrees with the shape: a star of `n` points has `2n`
/// rim vertices, a triangle three.
pub open spec fn mesh_fits(s: SegmentSpec) -> bool {
    match s.shape {
        Shape::Star { n } => s.vertex_count == 2 * n,
        Shape::Triangle => s.vertex_count == 3,
        _ => true,
    }
}

/// Number of fixtures a segment of this shape is made of.
pub open spec fn fixture_count(shape: Shape) -> nat {
    match shape {
        Shape::Star { n } => n as nat,
        _ => 1,
    }
}

pub fn check_mesh(s: &SegmentSpec) -> (r: bool)
    ensures
        r == mesh_fits(*s),
{
    match s.shape {
        Shape::Star { n } => n <= usize::MAX / 2 && s.vertex_count == 2 * n,
        Shape::Triangle => s.vertex_count == 3,
        _ => true,
    }
}

} // verus!
