//! The queue of frames on their way to the transport.

use std::collections::VecDeque;
use vstd::prelude::*;

verus! {

/// Frames waiting to be written, oldest first. Any number of producers may
/// add to it; whoever writes to the transport takes from the front.
pub struct OutboundQueue {
    frames: VecDeque<String>,
}

impl View for OutboundQueue {
    type V = Seq<Seq<char>>;

    /// The texts of the waiting frames, oldest first.
    closed spec fn view(&self) -> Seq<Seq<char>> {
        self.frames@.map_values(|frame: String| frame@)
    }
}

impl OutboundQueue {
    /// An empty queue.
    pub fn new() -> (queue: OutboundQueue)
        ensures
            queue@ == Seq::<Seq<char>>::empty(),
    {
        let queue = OutboundQueue { frames: VecDeque::new() };
        assert(queue@ =~= Seq::<Seq<char>>::empty());
        queue
    }

    /// Adds `frame` behind all the frames that are waiting.
    pub fn send(&mut self, frame: String)
        ensures
            final(self)@ == old(self)@.push(frame@),
    {
        self.frames.push_back(frame);
        assert(self@ =~= old(self)@.push(frame@));
    }

    /// Takes the oldest waiting frame, `None` when nothing waits.
    pub fn recv(&mut self) -> (frame: Option<String>)
        ensures
            old(self)@.len() == 0 ==> frame is None && final(self)@ == old(self)@,
            old(self)@.len() > 0 ==> frame is Some && frame->0@ == old(self)@[0] && final(self)@
                == old(self)@.skip(1),
    {
        let frame = self.frames.pop_front();
        assert(old(self)@.len() > 0 ==> self@ =~= old(self)@.skip(1));
        assert(old(self)@.len() == 0 ==> self@ =~= old(self)@);
        frame
    }

    /// How many frames wait.
    pub fn len(&self) -> (n: usize)
        ensures
            n == self@.len(),
    {
        self.frames.len()
    }
}

} // verus!
