//! Frames, the events that carry them, and the drain that hands a consumer
//! the newest frame while dropping the stale ones.

use vstd::prelude::*;
use crossbeam_channel::Receiver;
use crate::texture::Texture;

verus! {

/// What a frame holds: pixels in host memory, or a texture on the GPU.
#[derive(Clone, Debug, PartialEq, Eq)]
pub enum FrameData {
    /// Tightly packed RGBA8 pixels, row by row.
    Pixels(Vec<u8>),
    /// A texture that stays on the GPU.
    Texture(Texture),
}

/// One rendered result for one output at one point in time.
#[derive(Clone, Debug, PartialEq, Eq)]
pub struct Frame {
    /// Presentation time, in nanoseconds since the output began.
    pub pts: u64,
    pub width: usize,
    pub height: usize,
    pub data: FrameData,
}

/// What an output's channel delivers.
#[derive(Clone, Debug, PartialEq, Eq)]
pub enum FrameEvent {
    Data(Frame),
    EndOfStream,
}

/// The most events that one drain takes. A drain ends when the channel has
/// nothing pending; the limit only keeps a drain finite before a producer
/// that never rests.
pub const DRAIN_LIMIT: usize = usize::MAX;

/// The stream ended before any frame arrived.
#[derive(Clone, Copy, Debug, PartialEq, Eq, Structural)]
pub struct ChannelClosedError;

/// The frame of the last `Data` event in `events`, if there is one.
pub open spec fn latest_frame(events: Seq<FrameEvent>) -> Option<Frame>
    decreases events.len(),
{
    if events.len() == 0 {
        None
    } else {
        match events.last() {
            FrameEvent::Data(frame) => Some(frame),
            FrameEvent::EndOfStream => latest_frame(events.drop_last()),
        }
    }
}

/// The candidate that a drain holds after one more event: a `Data` event
/// replaces it, an end-of-stream marker leaves it.
pub fn supersede(candidate: Option<Frame>, event: FrameEvent) -> (r: Option<Frame>)
    ensures
        r == match event {
            FrameEvent::Data(frame) => Some(frame),
            FrameEvent::EndOfStream => candidate,
        },
{
    match event {
        FrameEvent::Data(frame) => Some(frame),
        FrameEvent::EndOfStream => candidate,
    }
}

/// `crossbeam_channel::Receiver`, the receiving side of a channel. Nothing
/// is known of what a receiver holds: other threads fill the channel.
#[verifier::external_type_specification]
#[verifier::external_body]
#[verifier::reject_recursive_types(T)]
pub struct ExReceiver<T>(Receiver<T>);

/// What a wait for the first frame comes to, given what arrived: the frame,
/// if an event arrived and carries one; a failure if the channel closed
/// with nothing in it or if the stream ended first.
pub fn first_frame(arrived: Option<FrameEvent>) -> (r: Result<Frame, ChannelClosedError>)
    ensures
        r == match arrived {
            Some(FrameEvent::Data(frame)) => Ok::<Frame, ChannelClosedError>(frame),
            _ => Err::<Frame, ChannelClosedError>(ChannelClosedError),
        },
{
    match arrived {
        Some(FrameEvent::Data(frame)) => Ok(frame),
        _ => Err(ChannelClosedError),
    }
}

/// What one poll of a channel found.
enum Polled {
    /// An event was pending and has been taken.
    Event(FrameEvent),
    /// Nothing was pending.
    Empty,
    /// Nothing was pending and no sender is left.
    Disconnected,
}

/// `Receiver::try_recv`: takes the next pending event without blocking, or
/// reports that none is pending. What it finds depends on the senders, so
/// nothing is claimed of the result.
#[verifier::external_body]
fn poll(receiver: &Receiver<FrameEvent>) -> Polled {
    match receiver.try_recv() {
        Ok(event) => Polled::Event(event),
        Err(crossbeam_channel::TryRecvError::Empty) => Polled::Empty,
        Err(crossbeam_channel::TryRecvError::Disconnected) => Polled::Disconnected,
    }
}

/// `Receiver::recv`: blocks until an event arrives, or until the channel is
/// empty with no sender left, which gives `None`. What arrives, and when,
/// depends on the senders, so nothing is claimed of the result.
#[verifier::external_body]
fn wait(receiver: &Receiver<FrameEvent>) -> Option<FrameEvent> {
    match receiver.recv() {
        Ok(event) => Some(event),
        Err(_) => None,
    }
}

/// Drains one output's channel for its consumer.
///
/// The drainer keeps a ghost record of every event it has taken from the
/// channel, in the order in which they came.
pub struct FrameDrainer {
    receiver: Receiver<FrameEvent>,
    taken: Ghost<Seq<FrameEvent>>,
    idle: bool,
}

impl FrameDrainer {
    /// Every event taken from the channel so far, oldest first.
    pub closed spec fn taken(&self) -> Seq<FrameEvent> {
        self.taken@
    }

    /// Whether the last look at the channel found nothing pending.
    pub closed spec fn idle(&self) -> bool {
        self.idle
    }

    /// The events that lie in `self`'s record beyond the record of `before`:
    /// what was taken between the two.
    pub open spec fn taken_since(&self, before: &FrameDrainer) -> Seq<FrameEvent> {
        self.taken().skip(before.taken().len() as int)
    }

    /// Whether `self`'s record continues that of `before`.
    pub open spec fn continues(&self, before: &FrameDrainer) -> bool {
        before.taken().is_prefix_of(self.taken())
    }

    /// A drainer for the channel that `receiver` reads, with nothing taken yet.
    pub fn new(receiver: Receiver<FrameEvent>) -> (r: FrameDrainer)
        ensures
            r.taken() == Seq::<FrameEvent>::empty(),
            !r.idle(),
    {
        FrameDrainer { receiver, taken: Ghost(Seq::empty()), idle: false }
    }

    /// Whether the last look at the channel found nothing pending.
    pub fn is_idle(&self) -> (r: bool)
        ensures
            r == self.idle(),
    {
        self.idle
    }

    /// Polls until the channel has nothing pending, holding on to the newest
    /// frame. `start` is where the current batch begins in the record.
    fn drain(&mut self, held: Option<Frame>, Ghost(start): Ghost<int>) -> (r: Option<Frame>)
        requires
            0 <= start <= old(self).taken().len(),
            held == latest_frame(old(self).taken().skip(start)),
        ensures
            final(self).continues(old(self)),
            r == latest_frame(final(self).taken().skip(start)),
            final(self).idle() || final(self).taken_since(old(self)).len() == DRAIN_LIMIT,
    {
        let mut candidate: Option<Frame> = held;
        let mut budget: usize = DRAIN_LIMIT;
        self.idle = false;
        while budget > 0 && !self.idle
            invariant
                0 <= start <= old(self).taken().len(),
                old(self).taken().is_prefix_of(self.taken()),
                candidate == latest_frame(self.taken().skip(start)),
                self.taken().len() - old(self).taken().len() == DRAIN_LIMIT - budget,
            decreases budget, if self.idle { 0int } else { 1int },
        {
            match poll(&self.receiver) {
                Polled::Event(event) => {
                    proof {
                        let ghost before = self.taken@;
                        self.taken@ = before.push(event);
                        assert(before.push(event).skip(start) =~= before.skip(start).push(event));
                        assert(before.skip(start).push(event).drop_last() =~= before.skip(start));
                    }
                    candidate = supersede(candidate, event);
                    budget = budget - 1;
                },
                Polled::Empty => {
                    self.idle = true;
                },
                Polled::Disconnected => {
                    self.idle = true;
                },
            }
        }
        candidate
    }

    /// Takes every pending event without blocking and returns the newest
    /// frame among them, or nothing if no frame was pending. Older frames are
    /// dropped. The drain ends on a poll that finds nothing pending, or
    /// after `DRAIN_LIMIT` events.
    pub fn try_latest(&mut self) -> (r: Option<Frame>)
        ensures
            final(self).continues(old(self)),
            r == latest_frame(final(self).taken_since(old(self))),
            final(self).idle() || final(self).taken_since(old(self)).len() == DRAIN_LIMIT,
    {
        let ghost start: int = self.taken@.len() as int;
        proof {
            assert(self.taken@.skip(start) =~= Seq::<FrameEvent>::empty());
        }
        self.drain(None, Ghost(start))
    }

    /// Blocks until an event arrives. If it carries a frame, takes whatever
    /// else is pending without blocking and returns the newest frame of all;
    /// if the stream ends before any frame has come, fails. After a failure
    /// the drainer is idle exactly if nothing was taken: the channel was
    /// empty with no sender left.
    pub fn await_latest(&mut self) -> (r: Result<Frame, ChannelClosedError>)
        ensures
            final(self).continues(old(self)),
            ({
                let batch = final(self).taken_since(old(self));
                &&& r is Err <==> batch.len() == 0 || batch[0] is EndOfStream
                &&& r is Err ==> batch.len() <= 1
                &&& r is Err ==> (final(self).idle() <==> batch.len() == 0)
                &&& r matches Ok(frame) ==> latest_frame(batch) == Some(frame)
                &&& r is Ok ==> final(self).idle() || batch.len() == DRAIN_LIMIT + 1
            }),
    {
        let ghost start: int = self.taken@.len() as int;
        let arrived: Option<FrameEvent> = wait(&self.receiver);
        self.idle = arrived.is_none();
        let ghost seen: Option<FrameEvent> = arrived;
        proof {
            let ghost before = self.taken@;
            match seen {
                Some(event) => {
                    self.taken@ = before.push(event);
                    assert(self.taken@.skip(start) =~= seq![event]);
                },
                None => {
                    assert(self.taken@.skip(start) =~= Seq::<FrameEvent>::empty());
                },
            }
        }
        match first_frame(arrived) {
            Err(closed) => Err(closed),
            Ok(first) => {
                let ghost mid = self.taken@;
                let newest: Option<Frame> = self.drain(Some(first), Ghost(start));
                proof {
                    assert(self.taken@.skip(start)[0] == mid[start]);
                    lemma_latest_after_data(self.taken@.skip(start));
                }
                match newest {
                    Some(frame) => Ok(frame),
                    None => Err(ChannelClosedError),
                }
            },
        }
    }
}

/// Once a `Data` event lies in `events`, there is a latest frame.
pub proof fn lemma_latest_after_data(events: Seq<FrameEvent>)
    requires
        exists|i: int| 0 <= i < events.len() && events[i] is Data,
    ensures
        latest_frame(events) is Some,
    decreases events.len(),
{
    if events.last() is EndOfStream {
        let i = choose|i: int| 0 <= i < events.len() && events[i] is Data;
        assert(events.drop_last()[i] is Data);
        lemma_latest_after_data(events.drop_last());
    }
}

/// The latest frame of `events` is the frame of one of its `Data` events,
/// and no `Data` event comes after that one.
pub proof fn lemma_latest_is_last_data(events: Seq<FrameEvent>)
    ensures
        latest_frame(events) matches Some(frame) ==> exists|i: int|
            0 <= i < events.len() && events[i] == FrameEvent::Data(frame) && forall|j: int|
                i < j < events.len() ==> events[j] is EndOfStream,
        latest_frame(events) is None ==> forall|j: int|
            0 <= j < events.len() ==> events[j] is EndOfStream,
    decreases events.len(),
{
    if events.len() > 0 {
        match events.last() {
            FrameEvent::Data(frame) => {
                let i = events.len() - 1;
                assert(events[i] == FrameEvent::Data(frame));
            },
            FrameEvent::EndOfStream => {
                let shorter = events.drop_last();
                lemma_latest_is_last_data(shorter);
                if let Some(frame) = latest_frame(shorter) {
                    let i = choose|i: int|
                        0 <= i < shorter.len() && shorter[i] == FrameEvent::Data(frame)
                            && forall|j: int| i < j < shorter.len() ==> shorter[j] is EndOfStream;
                    assert(events[i] == FrameEvent::Data(frame));
                    assert forall|j: int| i < j < events.len() implies events[j] is EndOfStream by {
                        if j < shorter.len() {
                            assert(shorter[j] is EndOfStream);
                        }
                    }
                } else {
                    assert forall|j: int| 0 <= j < events.len() implies events[j] is EndOfStream by {
                        if j < shorter.len() {
                            assert(shorter[j] is EndOfStream);
                        }
                    }
                }
            },
        }
    }
}

/// A drain that finds `Data` events only, at least one of them, returns the
/// frame of the last one.
pub proof fn lemma_latest_of_buffered(events: Seq<FrameEvent>)
    requires
        events.len() > 0,
        forall|i: int| 0 <= i < events.len() ==> events[i] is Data,
    ensures
        latest_frame(events) == Some(events[events.len() - 1]->Data_0),
{
}

/// Whether the frames of `events` come in the order of their presentation
/// times, as a first-in, first-out channel delivers what a renderer produces.
pub open spec fn in_presentation_order(events: Seq<FrameEvent>) -> bool {
    forall|i: int, j: int|
        0 <= i <= j < events.len() && events[i] is Data && events[j] is Data
            ==> events[i]->Data_0.pts <= events[j]->Data_0.pts
}

/// Monotonic freshness: of two drains of one stream, the later one never
/// returns a frame that came before the one that the earlier drain
/// returned; and where the stream delivers its frames in presentation order,
/// the later frame is no older by its presentation time either. The
/// earlier drain took `stream[a..b]`, the later one `stream[c..d]`.
pub proof fn lemma_monotonic_freshness(stream: Seq<FrameEvent>, a: int, b: int, c: int, d: int)
    requires
        0 <= a <= b <= c <= d <= stream.len(),
        latest_frame(stream.subrange(a, b)) is Some,
        latest_frame(stream.subrange(c, d)) is Some,
    ensures
        exists|i: int, j: int|
            a <= i < b && c <= j < d && stream[i] == FrameEvent::Data(
                latest_frame(stream.subrange(a, b))->Some_0,
            ) && stream[j] == FrameEvent::Data(latest_frame(stream.subrange(c, d))->Some_0),
        in_presentation_order(stream) ==> latest_frame(stream.subrange(a, b))->Some_0.pts
            <= latest_frame(stream.subrange(c, d))->Some_0.pts,
{
    let first = stream.subrange(a, b);
    let second = stream.subrange(c, d);
    let earlier = latest_frame(first)->Some_0;
    let later = latest_frame(second)->Some_0;
    lemma_latest_is_last_data(first);
    lemma_latest_is_last_data(second);
    let i = choose|i: int| 0 <= i < first.len() && first[i] == FrameEvent::Data(earlier);
    let j = choose|j: int| 0 <= j < second.len() && second[j] == FrameEvent::Data(later);
    assert(stream[a + i] == FrameEvent::Data(earlier));
    assert(stream[c + j] == FrameEvent::Data(later));
}

/// Monotonic freshness of a drainer: if a drain took the drainer from
/// `first` to `second` and a later one from `third` to `fourth`, and both
/// returned a frame, then the later frame is no older than the earlier one,
/// provided the channel has delivered its frames in presentation order.
pub proof fn lemma_drains_stay_fresh(
    first: FrameDrainer,
    second: FrameDrainer,
    third: FrameDrainer,
    fourth: FrameDrainer,
)
    requires
        second.continues(&first),
        third.continues(&second),
        fourth.continues(&third),
        in_presentation_order(fourth.taken()),
        latest_frame(second.taken_since(&first)) is Some,
        latest_frame(fourth.taken_since(&third)) is Some,
    ensures
        latest_frame(second.taken_since(&first))->Some_0.pts <= latest_frame(
            fourth.taken_since(&third),
        )->Some_0.pts,
{
    let stream = fourth.taken();
    let a = first.taken().len() as int;
    let b = second.taken().len() as int;
    let c = third.taken().len() as int;
    let d = stream.len() as int;
    assert(second.taken_since(&first) =~= stream.subrange(a, b));
    assert(fourth.taken_since(&third) =~= stream.subrange(c, d));
    lemma_monotonic_freshness(stream, a, b, c, d);
}

} // verus!
