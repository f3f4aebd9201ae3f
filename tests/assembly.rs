use rust_oids::assembly::{plan_agent, validate, BuildError};
use rust_oids::builder::FixtureShape;
use rust_oids::joints::JointDef;
use rust_oids::key::EntityKey;
use rust_oids::mesh::{Attachment, JointKind, SegmentSpec, Shape, Winding};

fn seg(shape: Shape, vertex_count: usize, attachment: Option<(usize, usize)>, joint: JointKind) -> SegmentSpec {
    SegmentSpec {
        shape,
        vertex_count,
        winding: Winding::CW,
        joint,
        attachment: attachment.map(|(index, attachment_point)| Attachment { index, attachment_point }),
    }
}

#[test]
fn one_body_per_segment_and_fixtures_per_shape() {
    let segs = vec![
        seg(Shape::Ball, 4, None, JointKind::Rigid),
        seg(Shape::Box, 4, Some((0, 1)), JointKind::Rigid),
        seg(Shape::Triangle, 3, Some((1, 2)), JointKind::Rigid),
        seg(Shape::Star { n: 3 }, 6, Some((0, 0)), JointKind::Articulated),
    ];
    let plan = plan_agent(9, &segs).unwrap();
    assert_eq!(plan.bodies.len(), 4);
    let counts: Vec<usize> = plan.bodies.iter().map(|b| b.fixtures.len()).collect();
    assert_eq!(counts, vec![1, 1, 1, 3]);
    for (i, b) in plan.bodies.iter().enumerate() {
        assert_eq!(b.key, EntityKey::with_segment(9, i));
    }
    assert_eq!(plan.bodies[0].fixtures[0].shape, FixtureShape::Circle);
    assert_eq!(plan.bodies[1].fixtures[0].shape, FixtureShape::Rect);
    assert_eq!(plan.bodies[2].fixtures[0].key, EntityKey::with_segment(9, 2));
}

#[test]
fn empty_agent_has_no_bodies() {
    let plan = plan_agent(1, &Vec::new()).unwrap();
    assert!(plan.bodies.is_empty());
    assert!(plan.joints.is_empty());
}

#[test]
fn star_slices_follow_winding_and_carry_bones() {
    let mut s = seg(Shape::Star { n: 3 }, 6, None, JointKind::Rigid);
    let cw = plan_agent(2, &vec![s]).unwrap();
    let shapes: Vec<FixtureShape> = cw.bodies[0].fixtures.iter().map(|f| f.shape).collect();
    assert_eq!(
        shapes,
        vec![FixtureShape::Slice(1, 0, 5), FixtureShape::Slice(3, 2, 1), FixtureShape::Slice(5, 4, 3)]
    );
    for (b, f) in cw.bodies[0].fixtures.iter().enumerate() {
        assert_eq!(f.key, EntityKey::with_bone(2, 0, b));
        assert_eq!(f.key.no_bone(), EntityKey::with_segment(2, 0));
    }
    s.winding = Winding::CCW;
    let ccw = plan_agent(2, &vec![s]).unwrap();
    let shapes: Vec<FixtureShape> = ccw.bodies[0].fixtures.iter().map(|f| f.shape).collect();
    assert_eq!(
        shapes,
        vec![FixtureShape::Slice(1, 5, 0), FixtureShape::Slice(3, 1, 2), FixtureShape::Slice(5, 3, 4)]
    );
}

#[test]
fn triangle_order_follows_winding() {
    let mut s = seg(Shape::Triangle, 3, None, JointKind::Rigid);
    assert_eq!(plan_agent(0, &vec![s]).unwrap().bodies[0].fixtures[0].shape, FixtureShape::Tri(0, 2, 1));
    s.winding = Winding::CCW;
    assert_eq!(plan_agent(0, &vec![s]).unwrap().bodies[0].fixtures[0].shape, FixtureShape::Tri(0, 1, 2));
}

#[test]
fn joints_follow_the_attachment_tree() {
    let segs = vec![
        seg(Shape::Ball, 4, None, JointKind::Rigid),
        seg(Shape::Box, 4, Some((0, 2)), JointKind::Articulated),
        seg(Shape::Box, 4, Some((1, 3)), JointKind::Rigid),
        seg(Shape::Ball, 4, None, JointKind::Articulated),
    ];
    let plan = plan_agent(5, &segs).unwrap();
    assert_eq!(plan.joints.len(), 2);
    let j0 = plan.joints[0];
    assert_eq!((j0.parent, j0.child, j0.parent_anchor, j0.child_anchor), (0, 1, 2, 0));
    assert!(!j0.collide_connected);
    assert_eq!(j0.def, JointDef::Revolute { limit_degrees: 30 });
    let j1 = plan.joints[1];
    assert_eq!((j1.parent, j1.child, j1.parent_anchor, j1.child_anchor), (1, 2, 3, 0));
    assert!(!j1.collide_connected);
    assert_eq!(j1.def, JointDef::Weld { frequency_hz: 5, damping_percent: 90 });
    assert!(plan.joints.iter().all(|j| j.child != 0 && j.child != 3));
}

#[test]
fn star_without_twice_n_vertices_is_refused() {
    let segs = vec![seg(Shape::Ball, 4, None, JointKind::Rigid), seg(Shape::Star { n: 3 }, 5, None, JointKind::Rigid)];
    assert_eq!(plan_agent(0, &segs).err(), Some(BuildError::MeshMismatch { segment: 1 }));
    assert_eq!(validate(&segs), Some(BuildError::MeshMismatch { segment: 1 }));
}

#[test]
fn triangle_without_three_vertices_is_refused() {
    let segs = vec![seg(Shape::Triangle, 4, None, JointKind::Rigid)];
    assert_eq!(plan_agent(0, &segs).err(), Some(BuildError::MeshMismatch { segment: 0 }));
}

#[test]
fn attachment_to_a_later_or_same_segment_is_refused() {
    let forward = vec![seg(Shape::Ball, 4, Some((1, 0)), JointKind::Rigid), seg(Shape::Ball, 4, None, JointKind::Rigid)];
    assert_eq!(plan_agent(0, &forward).err(), Some(BuildError::DanglingAttachment { segment: 0 }));
    let itself = vec![seg(Shape::Ball, 4, None, JointKind::Rigid), seg(Shape::Ball, 4, Some((1, 0)), JointKind::Rigid)];
    assert_eq!(plan_agent(0, &itself).err(), Some(BuildError::DanglingAttachment { segment: 1 }));
}

#[test]
fn anchor_outside_the_meshes_is_refused() {
    let point = vec![seg(Shape::Ball, 4, None, JointKind::Rigid), seg(Shape::Ball, 4, Some((0, 4)), JointKind::Rigid)];
    assert_eq!(plan_agent(0, &point).err(), Some(BuildError::AnchorOutOfRange { segment: 1 }));
    let bare = vec![seg(Shape::Ball, 4, None, JointKind::Rigid), seg(Shape::Box, 0, Some((0, 3)), JointKind::Rigid)];
    assert_eq!(plan_agent(0, &bare).err(), Some(BuildError::AnchorOutOfRange { segment: 1 }));
}

#[test]
fn first_faulty_segment_is_reported() {
    let segs = vec![
        seg(Shape::Ball, 4, None, JointKind::Rigid),
        seg(Shape::Ball, 4, Some((0, 9)), JointKind::Rigid),
        seg(Shape::Star { n: 2 }, 3, None, JointKind::Rigid),
    ];
    assert_eq!(plan_agent(0, &segs).err(), Some(BuildError::AnchorOutOfRange { segment: 1 }));
    assert_eq!(validate(&segs[..1].to_vec()), None);
}
