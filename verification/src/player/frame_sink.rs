//! Frames that wait to be drawn.

use vstd::prelude::*;

verus! {

/// The most frames that wait.
pub const SINK_CAPACITY: usize = 2;

/// Frames that wait, the newest last. Only the newest is ever drawn.
#[derive(Debug)]
pub struct NativeVideoSink<Frame> {
    queue: Vec<Frame>,
}

impl<Frame> View for NativeVideoSink<Frame> {
    type V = Seq<Frame>;

    closed spec fn view(&self) -> Seq<Frame> {
        self.queue@
    }
}

impl<Frame> NativeVideoSink<Frame> {
    pub fn new() -> (sink: Self)
        ensures
            sink@ == Seq::<Frame>::empty(),
    {
        NativeVideoSink { queue: Vec::new() }
    }

    /// Adds a frame. Where too many wait, the oldest leave.
    pub fn submit(&mut self, frame: Frame)
        ensures
            final(self)@ == if old(self)@.len() < SINK_CAPACITY {
                old(self)@.push(frame)
            } else {
                old(self)@.skip(old(self)@.len() - 1).push(frame)
            },
    {
        let ghost before = self.queue@;
        let ghost mut gone: int = 0;
        assert(before.skip(0) =~= before);
        while self.queue.len() >= SINK_CAPACITY
            invariant
                0 <= gone <= before.len(),
                self.queue@ == before.skip(gone),
                gone > 0 ==> self.queue@.len() >= SINK_CAPACITY - 1,
            decreases self.queue@.len(),
        {
            let _ = self.queue.remove(0);
            proof {
                gone = gone + 1;
                assert(self.queue@ =~= before.skip(gone));
            }
        }
        self.queue.push(frame);
    }

    /// Whether something waits to be drawn.
    pub fn is_empty(&self) -> (empty: bool)
        ensures
            empty == (self@.len() == 0),
    {
        self.queue.len() == 0
    }

    /// Takes the newest frame and drops all others.
    pub fn take_latest(&mut self) -> (latest: Option<Frame>)
        ensures
            final(self)@ == Seq::<Frame>::empty(),
            latest == if old(self)@.len() == 0 {
                None
            } else {
                Some(old(self)@.last())
            },
    {
        let latest = self.queue.pop();
        self.queue.clear();
        latest
    }
}

} // verus!
