use smelter_colors::outputs::{
    EndCondition, OutputHandle, OutputKind, OutputMultiplexer, RegistrationError, Resolution,
    UnknownOutputError,
};
use smelter_colors::scene::{
    Alignment, HorizontalAlign, Position, SceneNode, Size, VerticalAlign,
};

fn image(id: &str) -> SceneNode {
    SceneNode::Image { source_id: id.to_string() }
}

fn video(id: &str) -> SceneNode {
    SceneNode::Video { source_id: id.to_string() }
}

fn layout(child: SceneNode) -> SceneNode {
    SceneNode::Layout {
        child: Box::new(child),
        position: Position { left: 1, top: 2 },
        size: Size { width: 30, height: 40 },
        alignment: Alignment { horizontal: HorizontalAlign::Left, vertical: VerticalAlign::Bottom },
    }
}

fn hd() -> Resolution {
    Resolution { width: 1920, height: 1080 }
}

fn handle(id: &str, kind: OutputKind, resolution: Resolution, scene: SceneNode) -> OutputHandle {
    OutputHandle { id: id.to_string(), kind, resolution, scene, end_condition: EndCondition::Never }
}

#[test]
fn two_outputs_register_and_a_duplicate_is_refused() {
    let mut table = OutputMultiplexer::new();
    let preview = table.register_output("preview".to_string(), OutputKind::Preview, hd(), image("a"));
    assert_eq!(preview, Ok(handle("preview", OutputKind::Preview, hd(), image("a"))));
    let small = Resolution { width: 640, height: 360 };
    let record = table.register_output("record".to_string(), OutputKind::Recording, small, video("b"));
    assert_eq!(record, Ok(handle("record", OutputKind::Recording, small, video("b"))));
    assert_eq!(table.len(), 2);

    let third = table.register_output("preview".to_string(), OutputKind::Recording, small, video("c"));
    assert_eq!(third, Err(RegistrationError::DuplicateId));
    assert_eq!(table.len(), 2);
    assert_eq!(table.get(&"preview".to_string()), Some(&handle("preview", OutputKind::Preview, hd(), image("a"))));
    assert_eq!(table.get(&"record".to_string()), Some(&handle("record", OutputKind::Recording, small, video("b"))));

    let gone = table.unregister_output(&"preview".to_string());
    assert_eq!(gone, Ok(handle("preview", OutputKind::Preview, hd(), image("a"))));
    assert_eq!(table.len(), 1);
    assert!(!table.contains(&"preview".to_string()));
    assert_eq!(table.get(&"record".to_string()), Some(&handle("record", OutputKind::Recording, small, video("b"))));
    assert_eq!(table.update_scene(&"record".to_string(), image("d")), Ok(()));
    assert_eq!(table.get(&"record".to_string()).unwrap().scene, image("d"));
}

#[test]
fn zero_resolution_is_refused() {
    let mut table = OutputMultiplexer::new();
    for (width, height) in [(0, 1080), (1920, 0), (0, 0)] {
        let r = table.register_output("out".to_string(), OutputKind::Preview, Resolution { width, height }, image("a"));
        assert_eq!(r, Err(RegistrationError::InvalidResolution));
        assert_eq!(table.len(), 0);
        assert!(!table.contains(&"out".to_string()));
    }
    let r = table.register_output("out".to_string(), OutputKind::Preview, Resolution { width: 1, height: 1 }, image("a"));
    assert!(r.is_ok());
}

#[test]
fn zero_resolution_is_named_before_a_taken_name() {
    let mut table = OutputMultiplexer::new();
    table.register_output("out".to_string(), OutputKind::Preview, hd(), image("a")).unwrap();
    let r = table.register_output("out".to_string(), OutputKind::Preview, Resolution { width: 0, height: 9 }, image("a"));
    assert_eq!(r, Err(RegistrationError::InvalidResolution));
}

#[test]
fn update_scene_swaps_the_scene_of_one_output_only() {
    let mut table = OutputMultiplexer::new();
    table.register_output("a".to_string(), OutputKind::Preview, hd(), image("one")).unwrap();
    table.register_output("b".to_string(), OutputKind::Recording, hd(), image("one")).unwrap();
    table.register_output("c".to_string(), OutputKind::Preview, hd(), image("one")).unwrap();
    assert_eq!(table.update_scene(&"b".to_string(), layout(video("two"))), Ok(()));
    assert_eq!(table.len(), 3);
    assert_eq!(table.get(&"a".to_string()), Some(&handle("a", OutputKind::Preview, hd(), image("one"))));
    assert_eq!(table.get(&"b".to_string()), Some(&handle("b", OutputKind::Recording, hd(), layout(video("two")))));
    assert_eq!(table.get(&"c".to_string()), Some(&handle("c", OutputKind::Preview, hd(), image("one"))));
}

#[test]
fn unknown_output_is_reported() {
    let mut table = OutputMultiplexer::new();
    assert_eq!(table.update_scene(&"ghost".to_string(), image("a")), Err(UnknownOutputError));
    assert_eq!(table.unregister_output(&"ghost".to_string()), Err(UnknownOutputError));
    assert_eq!(table.get(&"ghost".to_string()), None);
    table.register_output("real".to_string(), OutputKind::Preview, hd(), image("a")).unwrap();
    assert_eq!(table.update_scene(&"ghost".to_string(), image("b")), Err(UnknownOutputError));
    assert_eq!(table.get(&"real".to_string()).unwrap().scene, image("a"));
}

#[test]
fn swap_after_unregister_is_an_error_and_changes_nothing() {
    let mut table = OutputMultiplexer::new();
    table.register_output("a".to_string(), OutputKind::Preview, hd(), image("one")).unwrap();
    table.register_output("b".to_string(), OutputKind::Preview, hd(), image("one")).unwrap();
    table.unregister_output(&"a".to_string()).unwrap();
    assert_eq!(table.update_scene(&"a".to_string(), image("two")), Err(UnknownOutputError));
    assert_eq!(table.unregister_output(&"a".to_string()), Err(UnknownOutputError));
    assert_eq!(table.len(), 1);
    assert_eq!(table.get(&"b".to_string()).unwrap().scene, image("one"));
}

#[test]
fn a_name_can_be_registered_again_once_it_is_free() {
    let mut table = OutputMultiplexer::new();
    table.register_output("a".to_string(), OutputKind::Preview, hd(), image("one")).unwrap();
    table.unregister_output(&"a".to_string()).unwrap();
    let again = table.register_output("a".to_string(), OutputKind::Recording, hd(), video("two"));
    assert_eq!(again, Ok(handle("a", OutputKind::Recording, hd(), video("two"))));
}

#[test]
fn scene_resolves_to_its_one_leaf() {
    let leaf = video("clip");
    let scene = layout(layout(video("clip")));
    assert!(!scene.is_leaf());
    assert!(leaf.is_leaf());
    assert_eq!(scene.resolve(), &leaf);
    assert_eq!(leaf.resolve(), &leaf);
    assert_eq!(scene.source_id(), "clip");
    assert_eq!(image("still").source_id(), "still");
}

#[test]
fn scene_copy_equals_the_scene() {
    for scene in [image("a"), video("b"), layout(image("c")), layout(layout(video("d")))] {
        assert_eq!(scene.duplicate(), scene);
    }
    let h = handle("x", OutputKind::Recording, hd(), layout(image("c")));
    assert_eq!(h.duplicate(), h);
}

#[test]
fn resolution_is_valid_when_no_dimension_is_zero() {
    assert!(Resolution { width: 1, height: 1 }.is_valid());
    assert!(!Resolution { width: 0, height: 1 }.is_valid());
    assert!(!Resolution { width: 1, height: 0 }.is_valid());
}
