//! Which video frames can be decoded.

use vstd::prelude::*;

verus! {

/// What has been decoded, and whether what depends on it can be.
#[derive(Clone, Copy, Debug, PartialEq, Eq, Structural)]
pub struct DecodeContinuity {
    pub last: Option<u64>,
    pub ready: bool,
}

impl Default for DecodeContinuity {
    fn default() -> (continuity: Self)
        ensures
            continuity == (DecodeContinuity { last: None, ready: false }),
    {
        DecodeContinuity { last: None, ready: false }
    }
}

impl DecodeContinuity {
    /// Whether `sequence` comes straight after the last frame, or is the first.
    pub open spec fn follows(self, sequence: u64) -> bool {
        match self.last {
            Some(last) => sequence == last + 1,
            None => true,
        }
    }

    /// After a frame: a keyframe can always be decoded, another only where
    /// nothing is missing before it.
    pub open spec fn after(self, sequence: u64, keyframe: bool) -> DecodeContinuity {
        DecodeContinuity {
            last: Some(sequence),
            ready: keyframe || (self.ready && self.follows(sequence)),
        }
    }

    /// Notes a frame: whether it can be decoded.
    pub fn accept(&mut self, sequence: u64, keyframe: bool) -> (accepted: bool)
        ensures
            *final(self) == old(self).after(sequence, keyframe),
            accepted == final(self).ready,
    {
        match self.last {
            Some(last) => {
                let follows = match last.checked_add(1) {
                    Some(next) => next == sequence,
                    None => false,
                };
                if !follows {
                    self.ready = false;
                }
            },
            None => {},
        }
        self.last = Some(sequence);
        if keyframe {
            self.ready = true;
        }
        self.ready
    }

    /// Something that later frames depend on is lost.
    pub fn interrupt(&mut self)
        ensures
            *final(self) == (DecodeContinuity { ready: false, ..*old(self) }),
    {
        self.ready = false;
    }
}

/// The frames of a stream, one after another.
pub open spec fn after_all(
    continuity: DecodeContinuity,
    frames: Seq<(u64, bool)>,
) -> DecodeContinuity
    decreases frames.len(),
{
    if frames.len() == 0 {
        continuity
    } else {
        after_all(continuity, frames.drop_last()).after(frames.last().0, frames.last().1)
    }
}

/// Once something is lost no frame is decoded until a keyframe comes, however
/// many others do.
pub proof fn law_a_loss_needs_a_keyframe(continuity: DecodeContinuity, frames: Seq<(u64, bool)>)
    requires
        !continuity.ready,
        forall|i: int| 0 <= i < frames.len() ==> !(#[trigger] frames[i]).1,
    ensures
        !after_all(continuity, frames).ready,
    decreases frames.len(),
{
    if frames.len() > 0 {
        law_a_loss_needs_a_keyframe(continuity, frames.drop_last());
    }
}

/// What happens to a stream: a frame comes, or something is lost.
pub ghost enum StreamStep {
    Frame { sequence: u64, keyframe: bool },
    Interruption,
}

/// The steps of a stream, one after another.
pub open spec fn after_steps(steps: Seq<StreamStep>) -> DecodeContinuity
    decreases steps.len(),
{
    if steps.len() == 0 {
        DecodeContinuity { last: None, ready: false }
    } else {
        let before = after_steps(steps.drop_last());
        match steps.last() {
            StreamStep::Frame { sequence, keyframe } => before.after(sequence, keyframe),
            StreamStep::Interruption => DecodeContinuity { ready: false, ..before },
        }
    }
}

/// From the keyframe at `start` on, every step is a frame, straight after the
/// one before it or a keyframe itself.
pub open spec fn is_unbroken(steps: Seq<StreamStep>, start: int) -> bool {
    &&& 0 <= start < steps.len()
    &&& steps[start] matches StreamStep::Frame { keyframe, .. } && keyframe
    &&& forall|i: int|
        #![trigger steps[i]]
        start < i < steps.len() ==> {
            &&& steps[i] matches StreamStep::Frame { sequence, keyframe }
            &&& keyframe || (steps[i - 1] matches StreamStep::Frame { sequence: before, .. }
                && sequence == before + 1)
        }
}

/// A frame is decoded only where a keyframe came before it, or it is one, and
/// nothing is missing since.
pub proof fn law_decoded_frames_go_back_to_a_keyframe(steps: Seq<StreamStep>) -> (start: int)
    requires
        after_steps(steps).ready,
    ensures
        is_unbroken(steps, start),
    decreases steps.len(),
{
    let earlier = steps.drop_last();
    let last = steps.len() - 1;
    match steps.last() {
        StreamStep::Frame { sequence, keyframe } => {
            if keyframe {
                last
            } else {
                let start = law_decoded_frames_go_back_to_a_keyframe(earlier);
                assert(earlier[last - 1] == steps[last - 1]);
                assert(earlier.last() == steps[last - 1]);
                assert forall|i: int|
                    #![trigger steps[i]]
                    start < i < steps.len() implies {
                    &&& steps[i] matches StreamStep::Frame { sequence, keyframe }
                    &&& keyframe || (steps[i - 1] matches StreamStep::Frame {
                        sequence: before,
                        ..
                    } && sequence == before + 1)
                } by {
                    if i < last {
                        assert(earlier[i] == steps[i]);
                        assert(earlier[i - 1] == steps[i - 1]);
                    } else {
                        assert(steps[i] == steps.last());
                        if start < i - 1 {
                            assert(earlier[i - 1] == steps[i - 1]);
                        }
                    }
                }
                assert(earlier[start] == steps[start]);
                start
            }
        },
        StreamStep::Interruption => 0,
    }
}

/// Which frames can be decoded: a keyframe always, and any other where the one
/// before it could be and it is the next. Each frame is the one that the next
/// has to follow.
pub proof fn law_which_frames_are_accepted(
    continuity: DecodeContinuity,
    sequence: u64,
    keyframe: bool,
)
    ensures
        ({
            let after = continuity.after(sequence, keyframe);
            &&& after.last == Some(sequence)
            &&& keyframe ==> after.ready
            &&& !keyframe && !continuity.ready ==> !after.ready
            &&& !keyframe && continuity.ready ==> (continuity.last matches Some(last)
                ==> after.ready == (sequence == last + 1))
        }),
{
}

} // verus!
