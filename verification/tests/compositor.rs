use crossbeam_channel::unbounded;
use smelter_colors::compositor::{
    duplicate_scenes, CompositorPipeline, RECORDING_DURATION_MS, RECORDING_HEIGHT,
    RECORDING_WIDTH, TICK_INTERVAL_MS,
};
use smelter_colors::frames::{Frame, FrameData, FrameEvent};
use smelter_colors::outputs::{
    EndCondition, OutputHandle, OutputKind, RegistrationError, Resolution, UnknownOutputError,
};
use smelter_colors::scene::{
    Alignment, HorizontalAlign, Position, SceneNode, Size, VerticalAlign,
};

fn image_scene() -> SceneNode {
    SceneNode::Image { source_id: "image_input".to_string() }
}

fn video_scene(width: usize, height: usize) -> SceneNode {
    SceneNode::Layout {
        child: Box::new(SceneNode::Video { source_id: "mp4_input".to_string() }),
        position: Position { left: 0, top: 0 },
        size: Size { width, height },
        alignment: Alignment {
            horizontal: HorizontalAlign::Center,
            vertical: VerticalAlign::Center,
        },
    }
}

fn one_pixel_frame(pts: u64) -> Frame {
    Frame { pts, width: 1, height: 1, data: FrameData::Pixels(vec![0, 0, 0, 255]) }
}

fn raw() -> String {
    "raw_output".to_string()
}

fn mp4() -> String {
    "mp4_output".to_string()
}

#[test]
fn new_pipeline_has_its_scenes_and_its_preview() {
    let pipeline = CompositorPipeline::new(1280, 720).unwrap();
    assert_eq!(pipeline.components(), &vec![image_scene(), video_scene(1280, 720)]);
    assert!(!pipeline.is_recording());
    let table = pipeline.multiplexer();
    assert_eq!(table.len(), 1);
    assert_eq!(
        table.get(&raw()),
        Some(&OutputHandle {
            id: raw(),
            kind: OutputKind::Preview,
            resolution: Resolution { width: 1280, height: 720 },
            scene: image_scene(),
            end_condition: EndCondition::Never,
        })
    );
}

#[test]
fn new_pipeline_refuses_a_zero_dimension() {
    assert_eq!(CompositorPipeline::new(0, 720).err(), Some(RegistrationError::InvalidResolution));
    assert_eq!(CompositorPipeline::new(1280, 0).err(), Some(RegistrationError::InvalidResolution));
}

#[test]
fn start_sets_up_the_preview_loop_and_the_recording() {
    let mut pipeline = CompositorPipeline::new(1920, 1080).unwrap();
    let (mut preview, recording) = pipeline.start();
    assert_eq!(preview.interval(), TICK_INTERVAL_MS);
    assert_eq!(preview.index(), 0);
    assert_eq!(preview.tick(), Some(1));
    assert!(preview.check_elapsed(u64::MAX));

    let recording = recording.unwrap();
    assert_eq!(recording.path, "output.mp4");
    assert_eq!(recording.hold_ms, RECORDING_DURATION_MS);
    assert_eq!(recording.hold_ms, 5000);
    let expected = OutputHandle {
        id: mp4(),
        kind: OutputKind::Recording,
        resolution: Resolution { width: RECORDING_WIDTH, height: RECORDING_HEIGHT },
        scene: image_scene(),
        end_condition: EndCondition::Never,
    };
    assert_eq!(recording.output, expected);
    assert_eq!((RECORDING_WIDTH, RECORDING_HEIGHT), (1920, 1080));
    assert!(pipeline.is_recording());
    assert_eq!(pipeline.multiplexer().len(), 2);
    assert_eq!(pipeline.multiplexer().get(&mp4()), Some(&expected));

    let mut scheduler = recording.scheduler;
    let mut swaps = 0;
    let mut elapsed = 0;
    while let Some(index) = scheduler.tick() {
        assert_eq!(pipeline.swap_scene(&mp4(), index), Ok(()));
        assert_eq!(&pipeline.multiplexer().get(&mp4()).unwrap().scene, scheduler.scene());
        swaps += 1;
        elapsed += scheduler.interval();
        if !scheduler.check_elapsed(elapsed) {
            break;
        }
    }
    assert_eq!(swaps, 5);
    assert_eq!(pipeline.multiplexer().get(&mp4()).unwrap().scene, video_scene(1920, 1080));
    assert_eq!(pipeline.multiplexer().get(&raw()).unwrap().scene, image_scene());
}

#[test]
fn second_recording_is_refused_while_one_runs() {
    let mut pipeline = CompositorPipeline::new(640, 480).unwrap();
    assert!(pipeline.record(640, 480, 1000, "a.mp4".to_string()).is_ok());
    let second = pipeline.record(640, 480, 1000, "b.mp4".to_string());
    assert_eq!(second.err(), Some(RegistrationError::DuplicateId));
    assert!(pipeline.is_recording());
    assert_eq!(pipeline.multiplexer().len(), 2);
    let (_, again) = pipeline.start();
    assert_eq!(again.err(), Some(RegistrationError::DuplicateId));
}

#[test]
fn recording_of_zero_size_is_refused() {
    let mut pipeline = CompositorPipeline::new(640, 480).unwrap();
    let r = pipeline.record(0, 480, 1000, "a.mp4".to_string());
    assert_eq!(r.err(), Some(RegistrationError::InvalidResolution));
    assert!(!pipeline.is_recording());
    assert_eq!(pipeline.multiplexer().len(), 1);
}

#[test]
fn stop_record_unregisters_the_recording() {
    let mut pipeline = CompositorPipeline::new(640, 480).unwrap();
    assert_eq!(pipeline.stop_record(), Err(UnknownOutputError));
    let recording = pipeline.record(320, 240, 2000, "clip.mp4".to_string()).unwrap();
    assert_eq!(recording.path, "clip.mp4");
    assert_eq!(recording.hold_ms, 2000);
    assert_eq!(recording.output.resolution, Resolution { width: 320, height: 240 });
    let stopped = pipeline.stop_record().unwrap();
    assert_eq!(stopped, recording.output);
    assert!(!pipeline.is_recording());
    assert!(!pipeline.multiplexer().contains(&mp4()));
    assert!(pipeline.multiplexer().contains(&raw()));
    assert_eq!(pipeline.stop_record(), Err(UnknownOutputError));
    assert_eq!(pipeline.swap_scene(&mp4(), 1), Err(UnknownOutputError));
    assert!(pipeline.record(320, 240, 2000, "clip.mp4".to_string()).is_ok());
}

#[test]
fn swap_scene_shows_the_scene_at_the_index() {
    let mut pipeline = CompositorPipeline::new(800, 600).unwrap();
    assert_eq!(pipeline.swap_scene(&raw(), 1), Ok(()));
    assert_eq!(pipeline.multiplexer().get(&raw()).unwrap().scene, video_scene(800, 600));
    assert_eq!(pipeline.swap_scene(&raw(), 0), Ok(()));
    assert_eq!(pipeline.multiplexer().get(&raw()).unwrap().scene, image_scene());
    assert_eq!(pipeline.swap_scene(&"nowhere".to_string(), 0), Err(UnknownOutputError));
}

#[test]
fn try_get_frame_without_a_channel_is_none() {
    let mut pipeline = CompositorPipeline::new(800, 600).unwrap();
    assert_eq!(pipeline.try_get_frame(), None);
}

#[test]
fn try_get_frame_returns_the_newest_frame() {
    let mut pipeline = CompositorPipeline::new(800, 600).unwrap();
    let (sender, receiver) = unbounded();
    pipeline.attach_receiver(receiver);
    assert_eq!(pipeline.try_get_frame(), None);
    sender.send(FrameEvent::Data(one_pixel_frame(10))).unwrap();
    sender.send(FrameEvent::Data(one_pixel_frame(20))).unwrap();
    sender.send(FrameEvent::EndOfStream).unwrap();
    assert_eq!(pipeline.try_get_frame(), Some(one_pixel_frame(20)));
    assert_eq!(pipeline.try_get_frame(), None);
    sender.send(FrameEvent::Data(one_pixel_frame(30))).unwrap();
    assert_eq!(pipeline.try_get_frame(), Some(one_pixel_frame(30)));
}

#[test]
fn alternate_scenes_gives_a_fresh_scheduler() {
    let pipeline = CompositorPipeline::new(800, 600).unwrap();
    let mut timed = pipeline.alternate_scenes(Some(1000));
    assert_eq!(timed.scene(), &image_scene());
    assert_eq!(timed.tick(), Some(1));
    assert_eq!(timed.scene(), &video_scene(800, 600));
    assert!(!timed.check_elapsed(1000));
    let mut endless = pipeline.alternate_scenes(None);
    assert_eq!(endless.tick(), Some(1));
    assert!(endless.check_elapsed(1000));
}

#[test]
fn duplicate_scenes_copies_the_list() {
    let list = vec![image_scene(), video_scene(3, 4)];
    assert_eq!(duplicate_scenes(&list), list);
    assert_eq!(duplicate_scenes(&Vec::new()), Vec::<SceneNode>::new());
}
