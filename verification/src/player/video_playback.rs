//! Video that waits to be shown, and the time it shows.

use crate::time::Instant;
use std::collections::VecDeque;
use vstd::prelude::*;

verus! {

pub const VIDEO_QUEUE_CAPACITY: usize = 2;

/// Frames of which only the newest is shown.
#[derive(Debug)]
pub struct LatestVideoQueue<T> {
    frames: VecDeque<T>,
    dropped: u64,
}

/// The contents of a [`LatestVideoQueue`], oldest frame first.
#[verifier::ext_equal]
pub struct LatestVideoModel<T> {
    pub frames: Seq<T>,
    pub dropped: u64,
}

impl<T> View for LatestVideoQueue<T> {
    type V = LatestVideoModel<T>;

    closed spec fn view(&self) -> LatestVideoModel<T> {
        LatestVideoModel { frames: self.frames@, dropped: self.dropped }
    }
}

/// The number after `count` more, which wraps round.
pub open spec fn counted(dropped: u64, count: int) -> u64 {
    ((dropped + count) % 0x1_0000_0000_0000_0000) as u64
}

impl<T> LatestVideoModel<T> {
    pub open spec fn well_formed(self) -> bool {
        self.frames.len() <= VIDEO_QUEUE_CAPACITY
    }

    pub open spec fn pushed(self, frame: T) -> LatestVideoModel<T> {
        if self.frames.len() >= VIDEO_QUEUE_CAPACITY {
            LatestVideoModel {
                frames: self.frames.skip(1).push(frame),
                dropped: counted(self.dropped, 1),
            }
        } else {
            LatestVideoModel { frames: self.frames.push(frame), ..self }
        }
    }

    /// The queue without its frames, the newest of them, and how many there were.
    pub open spec fn taken(self) -> (LatestVideoModel<T>, Option<T>, nat) {
        if self.frames.len() == 0 {
            (self, None, 0)
        } else {
            (
                LatestVideoModel {
                    frames: Seq::empty(),
                    dropped: counted(self.dropped, self.frames.len() - 1),
                },
                Some(self.frames.last()),
                self.frames.len(),
            )
        }
    }
}

impl<T> Default for LatestVideoQueue<T> {
    fn default() -> (queue: Self)
        ensures
            queue@ == (LatestVideoModel { frames: Seq::<T>::empty(), dropped: 0 }),
            queue@.well_formed(),
    {
        let queue = LatestVideoQueue { frames: VecDeque::new(), dropped: 0 };
        assert(queue@ =~= LatestVideoModel { frames: Seq::<T>::empty(), dropped: 0 });
        queue
    }
}

impl<T> LatestVideoQueue<T> {
    pub fn push(&mut self, frame: T)
        requires
            old(self)@.well_formed(),
        ensures
            final(self)@ == old(self)@.pushed(frame),
            final(self)@.well_formed(),
    {
        let ghost before = self@;
        if self.frames.len() >= VIDEO_QUEUE_CAPACITY {
            self.frames.pop_front();
            self.dropped = self.dropped.wrapping_add(1);
        }
        self.frames.push_back(frame);
        assert(self@.frames =~= before.pushed(frame).frames);
    }

    /// The newest frame, if there is one, and how many frames waited.
    pub fn take_latest(&mut self) -> (result: (Option<T>, usize))
        requires
            old(self)@.well_formed(),
        ensures
            (final(self)@, result.0, result.1 as nat) == old(self)@.taken(),
            final(self)@.well_formed(),
    {
        let ghost before = self@;
        let depth: usize = self.frames.len();
        let latest = self.frames.pop_back();
        self.dropped = self.dropped.wrapping_add(self.frames.len() as u64);
        self.frames.clear();
        assert(self@.frames =~= Seq::<T>::empty());
        proof {
            if before.frames.len() == 0 {
                assert(self@.frames =~= before.frames);
            }
        }
        (latest, depth)
    }

    pub fn clear(&mut self)
        ensures
            final(self)@ == (LatestVideoModel { frames: Seq::<T>::empty(), ..old(self)@ }),
    {
        self.frames.clear();
        assert(self@.frames =~= Seq::<T>::empty());
    }

    #[must_use]
    pub fn is_empty(&self) -> (empty: bool)
        ensures
            empty == (self@.frames.len() == 0),
    {
        self.frames.len() == 0
    }

    /// How many frames were never shown.
    #[must_use]
    pub fn dropped(&self) -> (dropped: u64)
        ensures
            dropped == self@.dropped,
    {
        self.dropped
    }
}

/// The moment of the source that shows, as time goes on.
#[derive(Clone, Copy, Debug, PartialEq, Eq, Structural)]
pub struct VideoPlaybackClock {
    captured_at_micros: u64,
    presented_at: Instant,
}

impl VideoPlaybackClock {
    pub closed spec fn spec_captured_at_micros(self) -> u64 {
        self.captured_at_micros
    }

    pub closed spec fn spec_presented_at(self) -> Instant {
        self.presented_at
    }

    #[must_use]
    pub fn new(captured_at_micros: u64, presented_at: Instant) -> (clock: Self)
        ensures
            clock.spec_captured_at_micros() == captured_at_micros,
            clock.spec_presented_at() == presented_at,
    {
        VideoPlaybackClock { captured_at_micros, presented_at }
    }

    #[must_use]
    pub fn timestamp_at(self, now: Instant) -> (timestamp: u64)
        ensures
            timestamp == self.spec_captured_at_micros().saturating_add(
                now.spec_since(self.spec_presented_at()).spec_held_micros(),
            ),
    {
        self.captured_at_micros.saturating_add(
            now.saturating_duration_since(self.presented_at).held_micros(),
        )
    }
}

/// However frames are pushed and taken, none is shown after one that came later,
/// and what waits is never more than the capacity: a taken frame is the last
/// that was pushed.
pub proof fn law_the_newest_frame_is_shown<T>(queue: LatestVideoModel<T>, frame: T)
    requires
        queue.well_formed(),
    ensures
        queue.pushed(frame).taken().1 == Some(frame),
        queue.pushed(frame).taken().0.frames == Seq::<T>::empty(),
        queue.pushed(frame).taken().2 <= VIDEO_QUEUE_CAPACITY,
{
}

/// A call that changes a queue.
pub ghost enum VideoQueueCall<T> {
    Push { frame: T },
    Take,
    Clear,
}

/// What a history of calls has done: the frames that were pushed and those that
/// were taken, in their order, and how many were dropped and how many cleared.
#[verifier::ext_equal]
pub ghost struct VideoQueueHistory<T> {
    pub queue: LatestVideoModel<T>,
    pub pushed: Seq<T>,
    pub taken: Seq<T>,
    pub dropped: nat,
    pub cleared: nat,
}

/// The history of a fresh queue. A push drops the frame that it displaces, and
/// a take all frames but the newest.
pub open spec fn video_queue_history<T>(calls: Seq<VideoQueueCall<T>>) -> VideoQueueHistory<T>
    decreases calls.len(),
{
    if calls.len() == 0 {
        VideoQueueHistory {
            queue: LatestVideoModel { frames: Seq::empty(), dropped: 0 },
            pushed: Seq::empty(),
            taken: Seq::empty(),
            dropped: 0,
            cleared: 0,
        }
    } else {
        let before = video_queue_history(calls.drop_last());
        let waiting = before.queue.frames.len();
        match calls.last() {
            VideoQueueCall::Push { frame } => VideoQueueHistory {
                queue: before.queue.pushed(frame),
                pushed: before.pushed.push(frame),
                dropped: if waiting >= VIDEO_QUEUE_CAPACITY {
                    before.dropped + 1
                } else {
                    before.dropped
                },
                ..before
            },
            VideoQueueCall::Take => {
                let (queue, newest, depth) = before.queue.taken();
                match newest {
                    Some(frame) => VideoQueueHistory {
                        queue,
                        taken: before.taken.push(frame),
                        dropped: (before.dropped + depth - 1) as nat,
                        ..before
                    },
                    None => VideoQueueHistory { queue, ..before },
                }
            },
            VideoQueueCall::Clear => VideoQueueHistory {
                queue: LatestVideoModel { frames: Seq::empty(), ..before.queue },
                cleared: before.cleared + waiting,
                ..before
            },
        }
    }
}

proof fn lemma_counted(dropped: nat, more: nat)
    ensures
        counted(counted(0, dropped as int), more as int) == counted(0, (dropped + more) as int),
{
    let turn = 0x1_0000_0000_0000_0000int;
    vstd::arithmetic::div_mod::lemma_add_mod_noop_right(more as int, dropped as int, turn);
    assert(0 <= (dropped as int) % turn < turn);
}

/// No frame is lost or made up, whatever is asked of a queue: each that was
/// pushed was taken, dropped or cleared, or it waits. What waits are the newest,
/// at most as many as there is room for, and the queue's own count is how many
/// were dropped, which wraps round.
pub proof fn law_every_frame_is_accounted_for<T>(calls: Seq<VideoQueueCall<T>>)
    ensures
        ({
            let history = video_queue_history(calls);
            let waiting = history.queue.frames;
            &&& history.queue.well_formed()
            &&& waiting.len() <= VIDEO_QUEUE_CAPACITY
            &&& history.pushed.len() == history.taken.len() + history.dropped + waiting.len()
                + history.cleared
            &&& waiting == history.pushed.skip(history.pushed.len() - waiting.len())
            &&& history.queue.dropped == history.dropped % 0x1_0000_0000_0000_0000
        }),
    decreases calls.len(),
{
    let history = video_queue_history(calls);
    if calls.len() == 0 {
        assert(history.queue.frames =~= history.pushed.skip(0));
    } else {
        law_every_frame_is_accounted_for(calls.drop_last());
        let before = video_queue_history(calls.drop_last());
        assert(before.queue.dropped == counted(0, before.dropped as int));
        lemma_counted(before.dropped, (history.dropped - before.dropped) as nat);
        assert(history.queue.frames =~= history.pushed.skip(
            history.pushed.len() - history.queue.frames.len(),
        ));
    }
}

/// A frame that is taken straight after it was pushed is that frame, whatever
/// was asked of the queue before.
pub proof fn law_a_pushed_frame_is_taken_next<T>(calls: Seq<VideoQueueCall<T>>, frame: T)
    ensures
        video_queue_history(calls.push(VideoQueueCall::Push { frame })).queue.taken().1 == Some(
            frame,
        ),
{
    let all = calls.push(VideoQueueCall::Push { frame });
    law_every_frame_is_accounted_for(calls);
    assert(all.drop_last() =~= calls);
    law_the_newest_frame_is_shown(video_queue_history(calls).queue, frame);
}

/// What a frame does to those that wait: with fewer than two it comes after
/// them, with two it comes after the second, and the first is dropped.
pub proof fn law_two_frames_wait<T>(queue: LatestVideoModel<T>, frame: T)
    requires
        queue.well_formed(),
        queue.dropped < u64::MAX,
    ensures
        queue.frames.len() <= 2,
        queue.pushed(frame).frames.last() == frame,
        queue.frames.len() < 2 ==> queue.pushed(frame).frames == queue.frames + seq![frame]
            && queue.pushed(frame).dropped == queue.dropped,
        queue.frames.len() == 2 ==> queue.pushed(frame).frames == seq![queue.frames[1], frame]
            && queue.pushed(frame).dropped == queue.dropped + 1,
        queue.frames.len() == 0 ==> queue.taken().1 is None && queue.taken().0 == queue,
        queue.frames.len() == 1 ==> queue.taken().1 == Some(queue.frames[0])
            && queue.taken().0.dropped == queue.dropped,
        queue.frames.len() == 2 ==> queue.taken().1 == Some(queue.frames[1])
            && queue.taken().0.dropped == queue.dropped + 1,
        queue.frames.len() > 0 ==> queue.taken().0.frames.len() == 0,
        queue.taken().2 == queue.frames.len(),
{
}

} // verus!
