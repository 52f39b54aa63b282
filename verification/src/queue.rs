//! The bounded queue between reassembly and a decoder. A decoder that falls
//! behind loses the oldest frames, so that what it gets stays recent.
use crate::transport::{frame_views, FrameView, ReassembledFrame};
use std::collections::VecDeque;
use vstd::prelude::*;

verus! {

/// How many frames may wait for the video decoder.
pub const VIDEO_QUEUE_FRAMES: usize = 2;

/// How many frames may wait for the audio decoder.
pub const AUDIO_QUEUE_FRAMES: usize = 16;

/// A bounded queue of frames.
pub struct FrameQueue {
    frames: VecDeque<ReassembledFrame>,
    capacity: usize,
}

/// What a [`FrameQueue`] holds, the oldest frame first.
#[verifier::ext_equal]
pub struct QueueView {
    pub frames: Seq<FrameView>,
    pub capacity: nat,
}

impl View for FrameQueue {
    type V = QueueView;

    closed spec fn view(&self) -> QueueView {
        QueueView { frames: frame_views(self.frames@), capacity: self.capacity as nat }
    }
}

impl QueueView {
    /// There is room for a frame at least, and no more frames than room.
    pub open spec fn wf(self) -> bool {
        self.frames.len() <= self.capacity && self.capacity > 0
    }

    pub open spec fn full(self) -> bool {
        self.frames.len() >= self.capacity
    }

    /// A frame is put in; if the queue is full, the oldest one is dropped.
    pub open spec fn pushed(self, frame: FrameView) -> QueueView {
        QueueView {
            frames: if self.full() {
                self.frames.drop_first().push(frame)
            } else {
                self.frames.push(frame)
            },
            ..self
        }
    }

    /// The frame that is dropped to put another in.
    pub open spec fn dropped(self) -> Option<FrameView> {
        if self.full() {
            Some(self.frames[0])
        } else {
            None
        }
    }

    /// Some frames are put in, one after the other.
    pub open spec fn pushed_all(self, frames: Seq<FrameView>) -> QueueView
        decreases frames.len(),
    {
        if frames.len() == 0 {
            self
        } else {
            self.pushed_all(frames.drop_last()).pushed(frames.last())
        }
    }
}

/// The view of a frame, if there is one.
pub open spec fn frame_view(frame: Option<ReassembledFrame>) -> Option<FrameView> {
    match frame {
        Some(frame) => Some(frame@),
        None => None,
    }
}

impl FrameQueue {
    /// An empty queue.
    pub fn new(capacity: usize) -> (queue: FrameQueue)
        requires
            capacity > 0,
        ensures
            queue@ == (QueueView { frames: Seq::empty(), capacity: capacity as nat }),
            queue@.wf(),
    {
        let queue = FrameQueue { frames: VecDeque::new(), capacity };
        assert(queue@.frames =~= Seq::empty());
        queue
    }

    /// How many frames wait.
    pub fn len(&self) -> (n: usize)
        ensures
            n == self@.frames.len(),
    {
        self.frames.len()
    }

    /// Puts a frame in. If the queue is full, the oldest frame is dropped
    /// and returned.
    pub fn push(&mut self, frame: ReassembledFrame) -> (dropped: Option<ReassembledFrame>)
        requires
            old(self)@.wf(),
        ensures
            final(self)@.wf(),
            final(self)@ == old(self)@.pushed(frame@),
            frame_view(dropped) == old(self)@.dropped(),
    {
        let dropped = if self.frames.len() >= self.capacity {
            self.frames.pop_front()
        } else {
            None
        };
        self.frames.push_back(frame);
        assert(self@.frames =~= old(self)@.pushed(frame@).frames);
        dropped
    }

    /// Takes the oldest frame out.
    pub fn pop(&mut self) -> (frame: Option<ReassembledFrame>)
        requires
            old(self)@.wf(),
        ensures
            final(self)@.wf(),
            old(self)@.frames.len() == 0 ==> frame is None && final(self)@ == old(self)@,
            old(self)@.frames.len() > 0 ==> frame_view(frame) == Some(old(self)@.frames[0])
                && final(self)@ == (QueueView {
                frames: old(self)@.frames.drop_first(),
                ..old(self)@
            }),
    {
        let frame = self.frames.pop_front();
        proof {
            if old(self)@.frames.len() > 0 {
                assert(self@.frames =~= old(self)@.frames.drop_first());
            } else {
                assert(self@.frames =~= old(self)@.frames);
            }
        }
        frame
    }
}

/// The last `n` frames of some.
pub open spec fn last_frames(frames: Seq<FrameView>, n: nat) -> Seq<FrameView> {
    if frames.len() <= n {
        frames
    } else {
        frames.skip(frames.len() - n)
    }
}

/// A queue keeps the newest frames, in their order, as many as it has room
/// for.
pub proof fn law_queue_keeps_newest(q: QueueView, frames: Seq<FrameView>)
    requires
        q.wf(),
    ensures
        q.pushed_all(frames).wf(),
        q.pushed_all(frames).capacity == q.capacity,
        q.pushed_all(frames).frames == last_frames(q.frames + frames, q.capacity),
    decreases frames.len(),
{
    if frames.len() == 0 {
        assert(q.frames + frames =~= q.frames);
    } else {
        law_queue_keeps_newest(q, frames.drop_last());
        let before = q.pushed_all(frames.drop_last());
        assert(q.frames + frames =~= (q.frames + frames.drop_last()).push(frames.last()));
        assert(before.pushed(frames.last()).frames =~= last_frames(
            q.frames + frames,
            q.capacity,
        ));
    }
}

} // verus!
