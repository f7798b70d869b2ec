//! The compositing pipeline as the application sees it: two scenes that
//! alternate on a preview output, a timed recording, and the newest frame.

use vstd::prelude::*;
use crossbeam_channel::Receiver;
use crate::frames::{latest_frame, Frame, FrameDrainer, FrameEvent, DRAIN_LIMIT};
use crate::outputs::{
    EndCondition, OutputHandle, OutputKind, OutputMultiplexer, RegistrationError, Resolution,
    UnknownOutputError,
};
use crate::scene::{Alignment, HorizontalAlign, Position, SceneNode, Size, VerticalAlign};
use crate::scheduler::{SceneScheduler, Schedule};

verus! {

/// The time between two scene swaps, in milliseconds.
pub const TICK_INTERVAL_MS: u64 = 1000;

/// The width of the recording that `start` makes.
pub const RECORDING_WIDTH: usize = 1920;

/// The height of the recording that `start` makes.
pub const RECORDING_HEIGHT: usize = 1080;

/// The length of the recording that `start` makes, in milliseconds.
pub const RECORDING_DURATION_MS: u64 = 5000;

/// The identifier under which the still image is registered as a source.
pub const IMAGE_INPUT_ID: &'static str = "image_input";

/// The identifier under which the video stream is registered as a source.
pub const VIDEO_INPUT_ID: &'static str = "mp4_input";

/// The identifier of the preview output.
pub const RAW_OUTPUT_ID: &'static str = "raw_output";

/// The identifier of the recording output.
pub const MP4_OUTPUT_ID: &'static str = "mp4_output";

/// The file that the recording of `start` goes to.
pub const RECORDING_PATH: &'static str = "output.mp4";

/// The identifier of the preview output.
pub open spec fn raw_output_id() -> Seq<char> {
    RAW_OUTPUT_ID@
}

/// The identifier of the recording output.
pub open spec fn mp4_output_id() -> Seq<char> {
    MP4_OUTPUT_ID@
}

/// Whether `scenes` are the two scenes of a pipeline of `width` by `height`
/// pixels: the still image, and the video scaled to fill the output.
pub open spec fn alternating_scenes(scenes: Seq<SceneNode>, width: usize, height: usize) -> bool {
    &&& scenes.len() == 2
    &&& scenes[0] matches SceneNode::Image { source_id }
    &&& source_id@ == IMAGE_INPUT_ID@
    &&& scenes[1] matches SceneNode::Layout { child, position, size, alignment }
    &&& *child matches SceneNode::Video { source_id: video_id }
    &&& video_id@ == VIDEO_INPUT_ID@
    &&& position == (Position { left: 0, top: 0 })
    &&& size == (Size { width, height })
    &&& alignment == (Alignment {
        horizontal: HorizontalAlign::Center,
        vertical: VerticalAlign::Center,
    })
}

/// A recording to make: the output that was registered for it, the file it
/// goes to, the scheduler that alternates its scenes, and how long to let it
/// run before it is stopped.
pub struct Recording {
    /// The output that was registered for the recording.
    pub output: OutputHandle,
    /// The file to write; one that is there already is replaced.
    pub path: String,
    /// The scheduler that alternates the recording's scenes.
    pub scheduler: SceneScheduler,
    /// The time to let the recording run, in milliseconds.
    pub hold_ms: u64,
}

/// The pipeline: its outputs, the scenes that alternate on them, and the
/// channel on which the preview's frames arrive.
pub struct CompositorPipeline {
    outputs: OutputMultiplexer,
    drainer: Option<FrameDrainer>,
    components: Vec<SceneNode>,
    raw_output: String,
    mp4_output: String,
    is_recording: bool,
}

impl CompositorPipeline {
    /// The pipeline has scenes to alternate and knows its outputs by their
    /// names. Every pipeline that `new` makes is well formed and stays so.
    pub closed spec fn wf(&self) -> bool {
        &&& self.components@.len() > 0
        &&& self.raw_output@ == raw_output_id()
        &&& self.mp4_output@ == mp4_output_id()
        &&& self.outputs@.dom().contains(raw_output_id())
        &&& self.is_recording == self.outputs@.dom().contains(mp4_output_id())
    }

    /// In every state of a pipeline the preview output is registered and
    /// there are scenes to show, and a recording is under way exactly while
    /// the recording output is registered.
    pub proof fn lemma_recording_is_registered(&self)
        requires
            self.wf(),
        ensures
            self.scenes().len() > 0,
            self.outputs()@.dom().contains(raw_output_id()),
            self.recording() == self.outputs()@.dom().contains(mp4_output_id()),
    {
    }

    /// The table of registered outputs.
    pub closed spec fn outputs(&self) -> OutputMultiplexer {
        self.outputs
    }

    /// The scenes that alternate.
    pub closed spec fn scenes(&self) -> Seq<SceneNode> {
        self.components@
    }

    /// The drainer of the preview's channel, once a channel is attached.
    pub closed spec fn drainer(&self) -> Option<FrameDrainer> {
        self.drainer
    }

    /// Whether a recording is under way.
    pub closed spec fn recording(&self) -> bool {
        self.is_recording
    }

    /// A pipeline of `width` by `height` pixels with its preview output
    /// registered, showing the first scene. Fails if a dimension is zero.
    pub fn new(width: usize, height: usize) -> (r: Result<CompositorPipeline, RegistrationError>)
        ensures
            width == 0 || height == 0 ==> r matches Err(RegistrationError::InvalidResolution),
            width > 0 && height > 0 ==> r is Ok,
            r matches Ok(pipeline) ==> {
                &&& pipeline.wf()
                &&& alternating_scenes(pipeline.scenes(), width, height)
                &&& pipeline.outputs()@.dom() == set![raw_output_id()]
                &&& pipeline.outputs()@[raw_output_id()].id@ == raw_output_id()
                &&& pipeline.outputs()@[raw_output_id()].kind == OutputKind::Preview
                &&& pipeline.outputs()@[raw_output_id()].resolution == (Resolution { width, height })
                &&& pipeline.outputs()@[raw_output_id()].scene == pipeline.scenes()[0]
                &&& pipeline.outputs()@[raw_output_id()].end_condition == EndCondition::Never
                &&& pipeline.drainer() is None
                &&& !pipeline.recording()
            },
    {
        let image = SceneNode::Image { source_id: IMAGE_INPUT_ID.to_owned() };
        let video = SceneNode::Layout {
            child: Box::new(SceneNode::Video { source_id: VIDEO_INPUT_ID.to_owned() }),
            position: Position { left: 0, top: 0 },
            size: Size { width, height },
            alignment: Alignment {
                horizontal: HorizontalAlign::Center,
                vertical: VerticalAlign::Center,
            },
        };
        let initial = image.duplicate();
        let mut components: Vec<SceneNode> = Vec::new();
        components.push(image);
        components.push(video);
        let mut outputs = OutputMultiplexer::new();
        let raw_output: String = RAW_OUTPUT_ID.to_owned();
        let registered = outputs.register_output(
            raw_output.clone(),
            OutputKind::Preview,
            Resolution { width, height },
            initial,
        );
        match registered {
            Err(e) => Err(e),
            Ok(_) => {
                proof {
                    lemma_output_ids_differ();
                }
                assert(outputs@.dom() =~= set![raw_output_id()]);
                Ok(
                    CompositorPipeline {
                        outputs,
                        drainer: None,
                        components,
                        raw_output,
                        mp4_output: MP4_OUTPUT_ID.to_owned(),
                        is_recording: false,
                    },
                )
            },
        }
    }

    /// Attaches the channel on which the preview's frames arrive. Nothing
    /// has been taken from it yet.
    pub fn attach_receiver(&mut self, receiver: Receiver<FrameEvent>)
        requires
            old(self).wf(),
        ensures
            final(self).wf(),
            final(self).drainer() matches Some(drainer) && drainer.taken() == Seq::<
                FrameEvent,
            >::empty() && !drainer.idle(),
            final(self).outputs() == old(self).outputs(),
            final(self).scenes() == old(self).scenes(),
            final(self).recording() == old(self).recording(),
    {
        self.drainer = Some(FrameDrainer::new(receiver));
    }

    /// A scheduler that alternates the pipeline's scenes once per tick
    /// interval, for `duration` milliseconds or, without one, until it is
    /// cancelled.
    pub fn alternate_scenes(&self, duration: Option<u64>) -> (r: SceneScheduler)
        requires
            self.wf(),
        ensures
            r@ == Self::fresh_schedule(self.scenes(), duration),
            r@.wf(),
    {
        SceneScheduler::new(duplicate_scenes(&self.components), TICK_INTERVAL_MS, duration)
    }

    /// The schedule of a scheduler that has not ticked yet.
    pub open spec fn fresh_schedule(scenes: Seq<SceneNode>, duration: Option<u64>) -> Schedule {
        Schedule {
            scenes,
            index: 0,
            interval: TICK_INTERVAL_MS as int,
            duration: match duration {
                Some(d) => Some(d as int),
                None => None,
            },
            swaps: 0,
            stopped: false,
        }
    }

    /// Makes the scene at `index` the active scene of the output named
    /// `output_id`: the swap that a scheduler's tick asks for. Fails, and
    /// changes nothing, if no such output is registered.
    pub fn swap_scene(&mut self, output_id: &String, index: usize) -> (r: Result<
        (),
        UnknownOutputError,
    >)
        requires
            old(self).wf(),
            index < old(self).scenes().len(),
        ensures
            final(self).wf(),
            r is Ok <==> old(self).outputs()@.dom().contains(output_id@),
            r is Ok ==> final(self).outputs()@ == old(self).outputs()@.insert(
                output_id@,
                old(self).outputs()@[output_id@].showing(old(self).scenes()[index as int]),
            ),
            r is Err ==> final(self).outputs()@ == old(self).outputs()@,
            final(self).scenes() == old(self).scenes(),
            final(self).drainer() == old(self).drainer(),
            final(self).recording() == old(self).recording(),
    {
        let scene: SceneNode = self.components[index].duplicate();
        self.outputs.update_scene(output_id, scene)
    }

    /// Begins a recording of `width` by `height` pixels to the file at
    /// `path`, to run for `duration` milliseconds: registers the recording
    /// output, showing the first scene, and sets up the scheduler that
    /// alternates its scenes. Fails, and changes nothing, if a dimension is
    /// zero or if a recording is registered already.
    pub fn record(&mut self, width: usize, height: usize, duration: u64, path: String) -> (r:
        Result<Recording, RegistrationError>)
        requires
            old(self).wf(),
        ensures
            final(self).wf(),
            width == 0 || height == 0 ==> r matches Err(RegistrationError::InvalidResolution),
            width > 0 && height > 0 && old(self).outputs()@.dom().contains(mp4_output_id())
                ==> r matches Err(RegistrationError::DuplicateId),
            width > 0 && height > 0 && !old(self).outputs()@.dom().contains(mp4_output_id())
                ==> r is Ok,
            r is Err ==> final(self).outputs()@ == old(self).outputs()@ && final(self).recording()
                == old(self).recording(),
            r matches Ok(recording) ==> {
                &&& recording.output.id@ == mp4_output_id()
                &&& recording.output.kind == OutputKind::Recording
                &&& recording.output.resolution == (Resolution { width, height })
                &&& recording.output.scene == old(self).scenes()[0]
                &&& recording.output.end_condition == EndCondition::Never
                &&& recording.path == path
                &&& recording.hold_ms == duration
                &&& recording.scheduler@ == Self::fresh_schedule(
                    old(self).scenes(),
                    Some(duration),
                )
                &&& final(self).outputs()@ == old(self).outputs()@.insert(
                    mp4_output_id(),
                    recording.output,
                )
                &&& final(self).recording()
            },
            final(self).scenes() == old(self).scenes(),
            final(self).drainer() == old(self).drainer(),
    {
        let initial: SceneNode = self.components[0].duplicate();
        let registered = self.outputs.register_output(
            self.mp4_output.clone(),
            OutputKind::Recording,
            Resolution { width, height },
            initial,
        );
        match registered {
            Err(e) => Err(e),
            Ok(output) => {
                self.is_recording = true;
                let scheduler = self.alternate_scenes(Some(duration));
                Ok(Recording { output, path, scheduler, hold_ms: duration })
            },
        }
    }

    /// Ends the recording: unregisters the recording output and returns its
    /// handle. Fails, and changes nothing, if no recording is registered.
    pub fn stop_record(&mut self) -> (r: Result<OutputHandle, UnknownOutputError>)
        requires
            old(self).wf(),
        ensures
            final(self).wf(),
            r is Ok <==> old(self).outputs()@.dom().contains(mp4_output_id()),
            r matches Ok(handle) ==> handle == old(self).outputs()@[mp4_output_id()] && final(self).outputs()@ == old(self).outputs()@.remove(mp4_output_id()) && !final(self).recording(),
            r is Err ==> final(self).outputs()@ == old(self).outputs()@ && final(self).recording()
                == old(self).recording(),
            final(self).scenes() == old(self).scenes(),
            final(self).drainer() == old(self).drainer(),
    {
        proof {
            lemma_output_ids_differ();
        }
        let r = self.outputs.unregister_output(&self.mp4_output);
        if r.is_ok() {
            self.is_recording = false;
        }
        r
    }

    /// Starts the pipeline's work: a scheduler that alternates the preview's
    /// scenes until it is cancelled, and a recording of the standard size and
    /// length to the standard file.
    pub fn start(&mut self) -> (r: (SceneScheduler, Result<Recording, RegistrationError>))
        requires
            old(self).wf(),
        ensures
            final(self).wf(),
            r.0@ == Self::fresh_schedule(old(self).scenes(), None),
            r.1 is Ok <==> !old(self).outputs()@.dom().contains(mp4_output_id()),
            r.1 is Err ==> r.1->Err_0 == RegistrationError::DuplicateId && final(self).outputs()@
                == old(self).outputs()@ && final(self).recording() == old(self).recording(),
            r.1 matches Ok(recording) ==> {
                &&& recording.output.id@ == mp4_output_id()
                &&& recording.output.kind == OutputKind::Recording
                &&& recording.output.resolution == (Resolution {
                    width: RECORDING_WIDTH,
                    height: RECORDING_HEIGHT,
                })
                &&& recording.output.scene == old(self).scenes()[0]
                &&& recording.path@ == RECORDING_PATH@
                &&& recording.hold_ms == RECORDING_DURATION_MS
                &&& recording.scheduler@ == Self::fresh_schedule(
                    old(self).scenes(),
                    Some(RECORDING_DURATION_MS),
                )
                &&& final(self).outputs()@ == old(self).outputs()@.insert(
                    mp4_output_id(),
                    recording.output,
                )
                &&& final(self).recording()
            },
            final(self).scenes() == old(self).scenes(),
            final(self).drainer() == old(self).drainer(),
    {
        let preview = self.alternate_scenes(None);
        let recording = self.record(
            RECORDING_WIDTH,
            RECORDING_HEIGHT,
            RECORDING_DURATION_MS,
            RECORDING_PATH.to_owned(),
        );
        (preview, recording)
    }

    /// The newest frame that is pending on the preview's channel, if any;
    /// older pending frames are dropped. Without a channel there is no frame.
    pub fn try_get_frame(&mut self) -> (r: Option<Frame>)
        requires
            old(self).wf(),
        ensures
            final(self).wf(),
            match (old(self).drainer(), final(self).drainer()) {
                (None, None) => r is None,
                (Some(before), Some(after)) => {
                    &&& after.continues(&before)
                    &&& r == latest_frame(after.taken_since(&before))
                    &&& after.idle() || after.taken_since(&before).len() == DRAIN_LIMIT
                },
                _ => false,
            },
            final(self).outputs() == old(self).outputs(),
            final(self).scenes() == old(self).scenes(),
            final(self).recording() == old(self).recording(),
    {
        match &mut self.drainer {
            None => None,
            Some(drainer) => drainer.try_latest(),
        }
    }

    /// Whether a recording is under way.
    pub fn is_recording(&self) -> (r: bool)
        ensures
            r == self.recording(),
    {
        self.is_recording
    }

    /// The table of registered outputs.
    pub fn multiplexer(&self) -> (r: &OutputMultiplexer)
        ensures
            *r == self.outputs(),
    {
        &self.outputs
    }

    /// The scenes that alternate.
    pub fn components(&self) -> (r: &Vec<SceneNode>)
        ensures
            r@ == self.scenes(),
    {
        &self.components
    }
}

/// The preview and the recording go by different names.
pub proof fn lemma_output_ids_differ()
    ensures
        raw_output_id() != mp4_output_id(),
{
    reveal_strlit("raw_output");
    reveal_strlit("mp4_output");
    assert(raw_output_id()[0] == 'r');
    assert(mp4_output_id()[0] == 'm');
}

/// A copy of `scenes`.
pub fn duplicate_scenes(scenes: &Vec<SceneNode>) -> (r: Vec<SceneNode>)
    ensures
        r@ == scenes@,
{
    let mut copy: Vec<SceneNode> = Vec::new();
    let mut i: usize = 0;
    while i < scenes.len()
        invariant
            i <= scenes@.len(),
            copy@ == scenes@.take(i as int),
        decreases scenes@.len() - i,
    {
        copy.push(scenes[i].duplicate());
        proof {
            assert(scenes@.take(i as int).push(scenes@[i as int]) =~= scenes@.take(i + 1));
        }
        i = i + 1;
    }
    proof {
        assert(scenes@.take(scenes@.len() as int) =~= scenes@);
    }
    copy
}

} // verus!
