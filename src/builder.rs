use vstd::prelude::*;
use crate::key::EntityKey;
use crate::mesh::{Shape, Winding, SegmentSpec};

verus! {

/// Geometry of one fixture, by mesh vertex index. The caller scales the
/// vertices by the segment's radius.
#[derive(Clone, Copy, Debug, PartialEq, Eq, Structural)]
pub enum FixtureShape {
    /// A circle of the segment's radius.
    Circle,
    /// A rectangle with half-extents (radius * ratio, radius).
    Rect,
    /// A polygon made of the body center and the three rim vertices given.
    Slice(usize, usize, usize),
    /// A triangle of the three mesh vertices given.
    Tri(usize, usize, usize),
}

/// One fixture to create: its tag and its geometry. Material comes from the
/// segment.
#[derive(Clone, Copy, Debug, PartialEq, Eq, Structural)]
pub struct FixturePlan {
    pub key: EntityKey,
    pub shape: FixtureShape,
}

/// One dynamic body to create for a segment, with its fixtures.
pub struct BodyPlan {
    pub key: EntityKey,
    pub fixtures: Vec<FixturePlan>,
}

/// Linear damping of every agent body, in hundredths.
pub const LINEAR_DAMPING_PERCENT: u32 = 50;

/// Angular damping of every agent body, in hundredths.
pub const ANGULAR_DAMPING_PERCENT: u32 = 80;

/// The rim vertex before `v` on a rim of `count` vertices.
pub open spec fn rim_prev(v: nat, count: nat) -> nat {
    if v == 0 {
        (count - 1) as nat
    } else {
        (v - 1) as nat
    }
}

/// Slice `b` of a star with `n` points spans the tip `2b` and the two rim
/// vertices next to it, listed in an order that keeps the outward normal.
pub open spec fn star_slice(n: nat, b: nat, winding: Winding) -> FixtureShape {
    let tip = 2 * b;
    let next = (tip + 1) as usize;
    let prev = rim_prev(tip, 2 * n) as usize;
    match winding {
        Winding::CW => FixtureShape::Slice(next, tip as usize, prev),
        Winding::CCW => FixtureShape::Slice(next, prev, tip as usize),
    }
}

pub open spec fn triangle_of(winding: Winding) -> FixtureShape {
    match winding {
        Winding::CW => FixtureShape::Tri(0, 2, 1),
        Winding::CCW => FixtureShape::Tri(0, 1, 2),
    }
}

pub open spec fn segment_key(agent_id: usize, segment_index: usize) -> EntityKey {
    EntityKey { agent_id, segment_index, bone_index: None }
}

/// The fixtures of segment `i` of agent `agent_id`.
pub open spec fn fixtures_of(agent_id: usize, i: usize, s: SegmentSpec) -> Seq<FixturePlan> {
    let key = segment_key(agent_id, i);
    match s.shape {
        Shape::Ball => seq![FixturePlan { key, shape: FixtureShape::Circle }],
        Shape::Box => seq![FixturePlan { key, shape: FixtureShape::Rect }],
        Shape::Triangle => seq![FixturePlan { key, shape: triangle_of(s.winding) }],
        Shape::Star { n } => Seq::new(
            n as nat,
            |b: int|
                FixturePlan {
                    key: EntityKey { agent_id, segment_index: i, bone_index: Some(b as usize) },
                    shape: star_slice(n as nat, b as nat, s.winding),
                },
        ),
    }
}

/// The slice fixtures of a star, in bone order.
fn star_fixtures(agent_id: usize, i: usize, n: usize, winding: Winding) -> (r: Vec<FixturePlan>)
    requires
        2 * n <= usize::MAX,
    ensures
        r@ == Seq::new(
            n as nat,
            |b: int|
                FixturePlan {
                    key: EntityKey { agent_id, segment_index: i, bone_index: Some(b as usize) },
                    shape: star_slice(n as nat, b as nat, winding),
                },
        ),
{
    let mut r: Vec<FixturePlan> = Vec::new();
    let mut b: usize = 0;
    while b < n
        invariant
            b <= n,
            2 * n <= usize::MAX,
            r@.len() == b,
            forall|j: int|
                0 <= j < b ==> #[trigger] r@[j] == (FixturePlan {
                    key: EntityKey { agent_id, segment_index: i, bone_index: Some(j as usize) },
                    shape: star_slice(n as nat, j as nat, winding),
                }),
        decreases n - b,
    {
        let tip: usize = 2 * b;
        let next: usize = tip + 1;
        let prev: usize = if tip == 0 {
            2 * n - 1
        } else {
            tip - 1
        };
        let shape = match winding {
            Winding::CW => FixtureShape::Slice(next, tip, prev),
            Winding::CCW => FixtureShape::Slice(next, prev, tip),
        };
        r.push(FixturePlan { key: EntityKey::with_bone(agent_id, i, b), shape });
        b = b + 1;
    }
    r
}

/// Plans the body of segment `i` of agent `agent_id`: one fixture for a
/// ball, box or triangle, one per point for a star.
pub fn plan_body(agent_id: usize, i: usize, s: &SegmentSpec) -> (r: BodyPlan)
    requires
        crate::mesh::mesh_fits(*s),
    ensures
        r.key == segment_key(agent_id, i),
        r.fixtures@ == fixtures_of(agent_id, i, *s),
        r.fixtures@.len() == crate::mesh::fixture_count(s.shape),
{
    let key = EntityKey::with_segment(agent_id, i);
    let fixtures = match s.shape {
        Shape::Ball => vec![FixturePlan { key, shape: FixtureShape::Circle }],
        Shape::Box => vec![FixturePlan { key, shape: FixtureShape::Rect }],
        Shape::Triangle => {
            let shape = match s.winding {
                Winding::CW => FixtureShape::Tri(0, 2, 1),
                Winding::CCW => FixtureShape::Tri(0, 1, 2),
            };
            vec![FixturePlan { key, shape }]
        },
        Shape::Star { n } => star_fixtures(agent_id, i, n, s.winding),
    };
    proof {
        if let Shape::Star { n } = s.shape {
            assert(fixtures@ =~= fixtures_of(agent_id, i, *s));
        } else {
            assert(fixtures@ =~= fixtures_of(agent_id, i, *s));
        }
    }
    BodyPlan { key, fixtures }
}

} // verus!
