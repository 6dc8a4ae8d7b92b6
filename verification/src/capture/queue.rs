//! The queue between the capture and those who wait for its frames.

use vstd::prelude::*;

use std::collections::VecDeque;

use crate::capture::frame::{is_captured, is_frame_of, ChannelReply, Chunk, Frame};

verus! {

/// Most frames that wait in the queue.
pub const QUEUE_CAPACITY: usize = 10;

/// Captured frames that wait to be received, oldest first. The capture never
/// waits: a frame that finds the queue full is dropped.
#[derive(Debug, Clone)]
pub struct FrameQueue {
    frames: VecDeque<Frame>,
    ended: bool,
}

/// What a [`FrameQueue`] holds.
pub struct QueueView {
    pub frames: Seq<Frame>,
    /// Whether the capture has ended.
    pub ended: bool,
}

impl QueueView {
    /// With a frame more, unless the queue is full.
    pub open spec fn offered(self, frame: Frame) -> QueueView {
        if self.frames.len() < QUEUE_CAPACITY {
            QueueView { frames: self.frames.push(frame), ..self }
        } else {
            self
        }
    }

    /// After a buffer of the stream, of which a frame has come, or none.
    pub open spec fn delivered(self, frame: Option<Frame>) -> QueueView {
        match frame {
            Some(frame) => self.offered(frame),
            None => self,
        }
    }

    /// What is received, and what remains.
    pub open spec fn received(self) -> (ChannelReply, QueueView) {
        if self.frames.len() > 0 {
            (
                ChannelReply::Ready(self.frames[0]),
                QueueView { frames: self.frames.drop_first(), ..self },
            )
        } else if self.ended {
            (ChannelReply::Disconnected, self)
        } else {
            (ChannelReply::Empty, self)
        }
    }
}

impl View for FrameQueue {
    type V = QueueView;

    closed spec fn view(&self) -> QueueView {
        QueueView { frames: self.frames@, ended: self.ended }
    }
}

impl FrameQueue {
    /// Whether the queue is within its bound.
    pub open spec fn wf(&self) -> bool {
        self@.frames.len() <= QUEUE_CAPACITY
    }

    /// Creates an empty queue for a capture that has not ended.
    pub fn new() -> (queue: FrameQueue)
        ensures
            queue.wf(),
            queue@ == (QueueView { frames: Seq::empty(), ended: false }),
    {
        FrameQueue { frames: VecDeque::new(), ended: false }
    }

    /// Puts a frame behind the others, or drops it if the queue is full. Says
    /// whether it was kept.
    pub fn offer(&mut self, frame: Frame) -> (kept: bool)
        requires
            old(self).wf(),
        ensures
            final(self).wf(),
            final(self)@ == old(self)@.offered(frame),
            kept == (old(self)@.frames.len() < QUEUE_CAPACITY),
    {
        if self.frames.len() < QUEUE_CAPACITY {
            self.frames.push_back(frame);
            true
        } else {
            false
        }
    }

    /// Takes what has come of a buffer of the stream: a frame is put behind the
    /// others, unless the queue is full.
    pub fn deliver(&mut self, frame: Option<Frame>)
        requires
            old(self).wf(),
        ensures
            final(self).wf(),
            final(self)@ == old(self)@.delivered(frame),
    {
        if let Some(frame) = frame {
            self.offer(frame);
        }
    }

    /// Takes the oldest frame. Without one, says whether there may still be
    /// one.
    pub fn receive(&mut self) -> (reply: ChannelReply)
        requires
            old(self).wf(),
        ensures
            final(self).wf(),
            (reply, final(self)@) == old(self)@.received(),
    {
        let first: Option<Frame> = self.frames.pop_front();
        match first {
            Some(frame) => {
                assert(self.frames@ =~= old(self)@.frames.drop_first());
                ChannelReply::Ready(frame)
            },
            None => if self.ended {
                ChannelReply::Disconnected
            } else {
                ChannelReply::Empty
            },
        }
    }

    /// Takes note that the capture has ended. The frames that wait can still
    /// be received.
    pub fn end(&mut self)
        ensures
            final(self)@ == (QueueView { ended: true, ..old(self)@ }),
            old(self).wf() ==> final(self).wf(),
    {
        self.ended = true;
    }
}

/// A full queue keeps what it has: the new frame is dropped. One that is not
/// full keeps everything, the new frame last.
pub proof fn full_queue_drops_new_frames(queue: QueueView, frame: Frame)
    ensures
        queue.frames.len() >= QUEUE_CAPACITY ==> queue.offered(frame) == queue,
        queue.frames.len() < QUEUE_CAPACITY ==> queue.offered(frame).frames == queue.frames.push(
            frame,
        ),
        queue.frames.len() <= QUEUE_CAPACITY ==> queue.offered(frame).frames.len()
            <= QUEUE_CAPACITY,
{
}

/// A buffer that comes while the capture is paused, or that holds no frame,
/// leaves the queue as it is, and so does one that finds the queue full. Any
/// other adds its frame, behind those that wait. The capture has not ended by
/// it.
pub proof fn buffers_reach_queue(
    queue: QueueView,
    frame: Option<Frame>,
    paused: bool,
    width: u32,
    height: u32,
    chunk: Option<Chunk>,
    mapped: Option<&[u8]>,
)
    requires
        is_captured(frame, paused, width, height, chunk, mapped),
    ensures
        ({
            let after = queue.delivered(frame);
            let added = frame is Some && queue.frames.len() < QUEUE_CAPACITY;
            &&& after.ended == queue.ended
            &&& paused || chunk is None || mapped is None ==> after == queue
            &&& queue.frames.len() >= QUEUE_CAPACITY ==> after == queue
            &&& !added ==> after == queue
            &&& added ==> {
                &&& !paused
                &&& after.frames.drop_last() == queue.frames
                &&& is_frame_of(after.frames.last(), width, height, chunk->Some_0, mapped)
            }
        }),
{
    if frame is Some && queue.frames.len() < QUEUE_CAPACITY {
        assert(queue.delivered(frame).frames.drop_last() =~= queue.frames);
    }
}

/// Frames are received in the order in which they were kept, and receiving a
/// frame from a queue makes room for another one.
pub proof fn frames_come_in_order(queue: QueueView, frame: Frame)
    requires
        0 < queue.frames.len() <= QUEUE_CAPACITY,
    ensures
        queue.received().0 == ChannelReply::Ready(queue.frames[0]),
        queue.received().1.offered(frame).frames == queue.frames.drop_first().push(frame),
        queue.frames.len() < QUEUE_CAPACITY ==> queue.offered(frame).received().0
            == queue.received().0,
{
}

/// Without a frame that waits, there may still be one exactly if the capture has
/// not ended, and asking for one changes nothing.
pub proof fn empty_queue_tells_of_end(queue: QueueView)
    requires
        queue.frames.len() == 0,
    ensures
        queue.received().0 == if queue.ended {
            ChannelReply::Disconnected
        } else {
            ChannelReply::Empty
        },
        queue.received().1 == queue,
{
}

} // verus!
