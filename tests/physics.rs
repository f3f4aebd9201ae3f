use rust_oids::assembly::plan_agent;
use rust_oids::contact::TouchedSet;
use rust_oids::joints::JointDef;
use rust_oids::key::EntityKey;
use rust_oids::mesh::{Attachment, JointKind, SegmentSpec, Shape, Winding};
use rust_oids::physics::{synced, Intent, PhysicsSystem, PushKind, Transform};

fn seg(shape: Shape, attachment: Option<(usize, usize)>, joint: JointKind) -> SegmentSpec {
    SegmentSpec {
        shape,
        vertex_count: 4,
        winding: Winding::CCW,
        joint,
        attachment: attachment.map(|(index, attachment_point)| Attachment { index, attachment_point }),
    }
}

fn register(sys: &mut PhysicsSystem<usize>, agent_id: usize, n: usize, first_handle: usize) {
    let handles: Vec<usize> = (first_handle..first_handle + n).collect();
    assert!(!sys.is_registered(agent_id));
    sys.record_bodies(agent_id, &handles);
}

#[test]
fn three_segment_creature_pushes_its_root() {
    let segs = vec![
        seg(Shape::Ball, None, JointKind::Rigid),
        seg(Shape::Box, Some((0, 1)), JointKind::Articulated),
        seg(Shape::Box, Some((1, 2)), JointKind::Rigid),
    ];
    let plan = plan_agent(1, &segs).unwrap();
    assert_eq!(plan.bodies.len(), 3);
    assert_eq!(plan.joints.len(), 2);
    assert_eq!(plan.joints[0].def, JointDef::Revolute { limit_degrees: 30 });
    assert_eq!(plan.joints[1].def, JointDef::Weld { frequency_hz: 5, damping_percent: 90 });

    let mut sys: PhysicsSystem<usize> = PhysicsSystem::new();
    register(&mut sys, 1, 3, 100);
    let intents: Vec<Option<Intent<(f32, f32)>>> =
        vec![Some(Intent::Move((1.0, 0.0))), Some(Intent::Idle), Some(Intent::Idle)];
    let pushes = sys.plan_pushes(&intents);
    assert_eq!(pushes.len(), 1);
    assert_eq!(pushes[0].key, EntityKey::with_segment(1, 0));
    assert_eq!(pushes[0].body, 100);
    assert_eq!(pushes[0].kind, PushKind::Force);
    assert_eq!(pushes[0].vector, (1.0, 0.0));
}

#[test]
fn run_away_is_an_impulse_and_stale_entries_are_skipped() {
    let mut sys: PhysicsSystem<usize> = PhysicsSystem::new();
    register(&mut sys, 4, 3, 0);
    let intents: Vec<Option<Intent<(f32, f32)>>> =
        vec![None, Some(Intent::RunAway((0.0, -2.0))), Some(Intent::Move((3.0, 1.0)))];
    let pushes = sys.plan_pushes(&intents);
    assert_eq!(pushes.len(), 2);
    assert_eq!((pushes[0].body, pushes[0].kind, pushes[0].vector), (1, PushKind::Impulse, (0.0, -2.0)));
    assert_eq!((pushes[1].body, pushes[1].kind, pushes[1].vector), (2, PushKind::Force, (3.0, 1.0)));
}

#[test]
fn overlapping_agents_flag_each_other_for_one_tick() {
    let mut sys: PhysicsSystem<usize> = PhysicsSystem::new();
    register(&mut sys, 1, 2, 10);
    register(&mut sys, 2, 1, 20);
    sys.record_contacts(&vec![(EntityKey::with_segment(1, 0), EntityKey::with_bone(2, 0, 3))]);
    let flags: Vec<(EntityKey, usize, bool)> = sys.export().iter().map(|e| (e.key, e.body, e.collided)).collect();
    assert_eq!(
        flags,
        vec![
            (EntityKey::with_segment(1, 0), 10, true),
            (EntityKey::with_segment(1, 1), 11, false),
            (EntityKey::with_segment(2, 0), 20, true),
        ]
    );
    sys.record_contacts(&Vec::new());
    assert!(sys.export().iter().all(|e| !e.collided));
}

#[test]
fn contacts_within_one_agent_flag_nothing() {
    let mut sys: PhysicsSystem<usize> = PhysicsSystem::new();
    register(&mut sys, 3, 2, 0);
    sys.record_contacts(&vec![(EntityKey::with_segment(3, 0), EntityKey::with_bone(3, 1, 0))]);
    assert!(sys.export().iter().all(|e| !e.collided));
}

#[test]
fn touched_set_is_empty_after_export() {
    let mut sys: PhysicsSystem<usize> = PhysicsSystem::new();
    register(&mut sys, 1, 1, 0);
    register(&mut sys, 2, 1, 1);
    sys.record_contacts(&vec![(EntityKey::with_segment(1, 0), EntityKey::with_segment(2, 0))]);
    assert!(sys.export().iter().all(|e| e.collided));
    assert!(sys.export().iter().all(|e| !e.collided));
}

#[test]
fn removing_an_agent_purges_its_entries() {
    let mut sys: PhysicsSystem<usize> = PhysicsSystem::new();
    register(&mut sys, 1, 2, 10);
    register(&mut sys, 2, 3, 20);
    let removed = sys.unregister(1);
    assert_eq!(removed, vec![10, 11]);
    assert!(!sys.is_registered(1));
    assert!(sys.is_registered(2));
    let keys = sys.keys();
    assert_eq!(keys.len(), 3);
    assert!(keys.iter().all(|k| k.agent_id == 2));
    let intents: Vec<Option<Intent<(f32, f32)>>> = vec![Some(Intent::Move((1.0, 1.0))); 3];
    let pushes = sys.plan_pushes(&intents);
    assert_eq!(pushes.iter().map(|p| p.body).collect::<Vec<usize>>(), vec![20, 21, 22]);
    assert!(sys.export().iter().all(|e| e.key.agent_id == 2));
    assert!(sys.unregister(1).is_empty());
}

#[test]
fn touched_set_keeps_no_bone_detail() {
    let mut t = TouchedSet::new();
    assert!(t.is_empty());
    t.record_contact(&EntityKey::with_bone(1, 2, 3), &EntityKey::with_bone(4, 0, 1));
    assert!(t.contains(&EntityKey::with_segment(1, 2)));
    assert!(t.contains(&EntityKey::with_segment(4, 0)));
    assert!(!t.contains(&EntityKey::with_bone(1, 2, 3)));
    t.record_contact(&EntityKey::with_segment(5, 0), &EntityKey::with_segment(5, 1));
    assert!(!t.contains(&EntityKey::with_segment(5, 0)));
    t.clear();
    assert!(t.is_empty());
}

#[test]
fn export_keeps_the_segment_scale() {
    let t = Transform { position: (1.0f32, 2.0f32), angle: 0.5f32, scale: 3.0f32 };
    let r = synced(t, (4.0, 5.0), -1.0);
    assert_eq!(r, Transform { position: (4.0, 5.0), angle: -1.0, scale: 3.0 });
}
