use rust_oids::audio::Voice;
use rust_oids::input::WinitEventMapper;
use rust_oids::render::Shader;

#[test]
fn voice_advances_and_stops_at_its_end() {
    let mut v = Voice::new(2, 10);
    assert_eq!((v.signal, v.length, v.position), (Some(2), 10, 0));
    assert_eq!(v.remaining(), 10);
    assert!(!v.advance(4));
    assert_eq!(v.remaining(), 6);
    assert!(v.advance(100));
    assert_eq!(v.position, 10);
    assert_eq!(v.remaining(), 0);
}

#[test]
fn voice_reaching_its_end_exactly_reports_it() {
    let mut v = Voice::new(0, 3);
    assert!(v.advance(3));
    let d = Voice::default();
    assert_eq!((d.signal, d.length, d.position), (None, 0, 0));
    let mut e = Voice::new(1, 0);
    assert!(e.advance(0));
    assert!(Voice::new(1, 5).advance(usize::MAX));
}

#[test]
fn shader_slots() {
    let all = [Shader::Ball, Shader::Flat, Shader::Wireframe, Shader::Lines, Shader::DebugLines, Shader::Count];
    let idx: Vec<usize> = all.iter().map(|s| s.index()).collect();
    assert_eq!(idx, vec![0, 1, 2, 3, 4, 5]);
}

#[test]
fn event_mapper_builds() {
    let _m = WinitEventMapper::new();
}
