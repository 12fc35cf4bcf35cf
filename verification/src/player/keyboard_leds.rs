//! The state of the host's keyboard lights.

use crate::protocol::wire::KeyboardLeds;
use vstd::prelude::*;

verus! {

/// The lights there are: num, caps, scroll, compose and kana.
pub const MAX_KEYBOARD_LED_MASK: u32 = 0x1f;

#[derive(Clone, Copy, Debug, PartialEq, Eq, Structural)]
pub struct KeyboardLedSnapshot {
    pub generation: u64,
    pub sequence: u64,
    pub mask: u8,
}

#[derive(Clone, Copy, Debug, PartialEq, Eq, Structural)]
pub enum KeyboardLedError {
    MaskOutOfRange,
    InvalidState,
    StaleGeneration,
    OutOfOrder,
}

#[derive(Clone, Copy, Debug, PartialEq, Eq, Structural)]
pub struct KeyboardLedReceiver {
    last: Option<KeyboardLedSnapshot>,
}

impl View for KeyboardLedReceiver {
    type V = Option<KeyboardLedSnapshot>;

    closed spec fn view(&self) -> Option<KeyboardLedSnapshot> {
        self.last
    }
}

/// What is wrong with a state after `last`, if anything is.
pub open spec fn fault(last: Option<KeyboardLedSnapshot>, state: KeyboardLeds) -> Option<
    KeyboardLedError,
> {
    if state.mask > u8::MAX {
        Some(KeyboardLedError::MaskOutOfRange)
    } else if state.generation == 0 || state.sequence == 0 || state.mask > MAX_KEYBOARD_LED_MASK {
        Some(KeyboardLedError::InvalidState)
    } else {
        match last {
            Some(last) => if state.generation < last.generation {
                Some(KeyboardLedError::StaleGeneration)
            } else if state.generation == last.generation && state.sequence != last.sequence + 1 {
                Some(KeyboardLedError::OutOfOrder)
            } else {
                None
            },
            None => None,
        }
    }
}

impl Default for KeyboardLedReceiver {
    fn default() -> (receiver: Self)
        ensures
            receiver@ is None,
    {
        KeyboardLedReceiver { last: None }
    }
}

impl KeyboardLedReceiver {
    /// Takes a state that follows on the one before it.
    pub fn push(&mut self, state: KeyboardLeds) -> (result: Result<
        KeyboardLedSnapshot,
        KeyboardLedError,
    >)
        ensures
            match fault(old(self)@, state) {
                Some(error) => result == Err::<KeyboardLedSnapshot, _>(error) && final(self)@
                    == old(self)@,
                None => {
                    let next = KeyboardLedSnapshot {
                        generation: state.generation,
                        sequence: state.sequence,
                        mask: state.mask as u8,
                    };
                    result == Ok::<_, KeyboardLedError>(next) && final(self)@ == Some(next)
                },
            },
    {
        if state.mask > 0xff {
            return Err(KeyboardLedError::MaskOutOfRange);
        }
        if state.generation == 0 || state.sequence == 0 || state.mask > MAX_KEYBOARD_LED_MASK {
            return Err(KeyboardLedError::InvalidState);
        }
        match self.last {
            Some(last) => {
                if state.generation < last.generation {
                    return Err(KeyboardLedError::StaleGeneration);
                }
                let follows = match last.sequence.checked_add(1) {
                    Some(sequence) => sequence == state.sequence,
                    None => false,
                };
                if state.generation == last.generation && !follows {
                    return Err(KeyboardLedError::OutOfOrder);
                }
            },
            None => {},
        }
        let next = KeyboardLedSnapshot {
            generation: state.generation,
            sequence: state.sequence,
            mask: state.mask as u8,
        };
        self.last = Some(next);
        Ok(next)
    }
}

/// A state that is taken is newer than every one before it, by generation and
/// then by sequence.
pub proof fn law_lights_only_move_forward(last: KeyboardLedSnapshot, state: KeyboardLeds)
    requires
        fault(Some(last), state) is None,
    ensures
        state.generation > last.generation || (state.generation == last.generation
            && state.sequence > last.sequence),
{
}

/// Which states of the lights are taken: five lights, with a generation and a
/// sequence, of a newer generation than the last or the next of the same.
pub proof fn law_which_lights_are_taken(last: Option<KeyboardLedSnapshot>, state: KeyboardLeds)
    ensures
        fault(last, state) is None <==> {
            &&& state.mask < 32
            &&& state.generation > 0
            &&& state.sequence > 0
            &&& last matches Some(held) ==> state.generation > held.generation || (state.generation
                == held.generation && state.sequence == held.sequence + 1)
        },
        fault(last, state) == Some(KeyboardLedError::MaskOutOfRange) <==> state.mask > 255,
        fault(last, state) == Some(KeyboardLedError::InvalidState) <==> state.mask <= 255 && (
        state.mask >= 32 || state.generation == 0 || state.sequence == 0),
        fault(last, state) == Some(KeyboardLedError::StaleGeneration) ==> (last matches Some(held)
            && state.generation < held.generation),
        fault(last, state) == Some(KeyboardLedError::OutOfOrder) ==> (last matches Some(held)
            && state.generation == held.generation && state.sequence != held.sequence + 1),
{
}

} // verus!
