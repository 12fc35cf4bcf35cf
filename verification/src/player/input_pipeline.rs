//! Local input on its way to the host.

use crate::protocol::features::InputEvent;
use crate::protocol::wire::input_transition::Action;
use crate::protocol::wire::{
    InputTransition, KeyTransition, PointerButtonTransition, PointerMode, PointerModeTransition,
    PointerMotionTransition, PointerPositionTransition, ReleaseAll, WheelTransition,
};
use crate::session::input_datagram::PointerSnapshot;
use vstd::prelude::*;

verus! {

/// The one generation of input that a stream has.
pub const INPUT_GENERATION: u64 = 1;

/// The most input events that are taken at one tick.
pub const MAX_INPUT_EVENTS_PER_TICK: usize = 256;

/// What an input event asks the host to do.
pub open spec fn action_of(event: InputEvent) -> Action {
    match event {
        InputEvent::Key { hid_usage, pressed } => Action::Key(
            KeyTransition { hid_usage: hid_usage as u32, pressed },
        ),
        InputEvent::ReleaseAll => Action::ReleaseAll(ReleaseAll {  }),
        InputEvent::PointerButton { button, pressed } => Action::PointerButton(
            PointerButtonTransition { button: button as u32, pressed },
        ),
        InputEvent::PointerMotion { delta_x, delta_y } => Action::PointerMotion(
            PointerMotionTransition { delta_x, delta_y },
        ),
        InputEvent::PointerPosition { x, y } => Action::PointerPosition(
            PointerPositionTransition { x: x as u32, y: y as u32 },
        ),
        InputEvent::Wheel { horizontal, vertical } => Action::Wheel(
            WheelTransition { horizontal: horizontal as i32, vertical: vertical as i32 },
        ),
    }
}

/// The transition that carries a local event reliably.
#[must_use]
pub fn encode_reliable_input(
    event: InputEvent,
    generation: u64,
    sequence: u64,
    player_sent_at_micros: u64,
) -> (transition: InputTransition)
    ensures
        transition == (InputTransition {
            generation,
            sequence,
            action: Some(action_of(event)),
            player_sent_at_micros,
        }),
        event matches InputEvent::Key { hid_usage, pressed } ==> (
        transition.action matches Some(Action::Key(key)) && key.hid_usage == hid_usage
            && key.pressed == pressed),
        event matches InputEvent::PointerButton { button, pressed } ==> (
        transition.action matches Some(Action::PointerButton(change)) && change.button == button
            && change.pressed == pressed),
        event matches InputEvent::PointerMotion { delta_x, delta_y } ==> (
        transition.action matches Some(Action::PointerMotion(motion)) && motion.delta_x == delta_x
            && motion.delta_y == delta_y),
        event matches InputEvent::PointerPosition { x, y } ==> (
        transition.action matches Some(Action::PointerPosition(position)) && position.x == x
            && position.y == y),
        event matches InputEvent::Wheel { horizontal, vertical } ==> (
        transition.action matches Some(Action::Wheel(wheel)) && wheel.horizontal == horizontal
            && wheel.vertical == vertical),
{
    let action = match event {
        InputEvent::Key { hid_usage, pressed } => Action::Key(
            KeyTransition { hid_usage: hid_usage as u32, pressed },
        ),
        InputEvent::ReleaseAll => Action::ReleaseAll(ReleaseAll {  }),
        InputEvent::PointerButton { button, pressed } => Action::PointerButton(
            PointerButtonTransition { button: button as u32, pressed },
        ),
        InputEvent::PointerMotion { delta_x, delta_y } => Action::PointerMotion(
            PointerMotionTransition { delta_x, delta_y },
        ),
        InputEvent::PointerPosition { x, y } => Action::PointerPosition(
            PointerPositionTransition { x: x as u32, y: y as u32 },
        ),
        InputEvent::Wheel { horizontal, vertical } => Action::Wheel(
            WheelTransition { horizontal: horizontal as i32, vertical: vertical as i32 },
        ),
    };
    InputTransition { generation, sequence, action: Some(action), player_sent_at_micros }
}

#[derive(Clone, Copy, Debug, PartialEq, Eq, Structural)]
pub enum InputError {
    InputSequenceExhausted,
    RelativeXOverflow,
    RelativeYOverflow,
    PointerSequenceExhausted,
}

/// What a stream remembers of the input it has sent.
#[derive(Clone, Copy, Debug, PartialEq, Eq, Structural)]
pub struct InputSender {
    pub input_sequence: u64,
    pub pointer_sequence: u64,
    pub cumulative_x: i64,
    pub cumulative_y: i64,
    pub pointer_mode: Option<PointerMode>,
}

/// What is sent for an event, in this order: the transition on the reliable
/// stream, then the pointer datagram. With an error the stream ends after it.
#[derive(Clone, Copy, Debug, PartialEq, Eq, Structural)]
pub struct InputStep {
    pub transition: Option<InputTransition>,
    pub pointer: Option<PointerSnapshot>,
    pub error: Option<InputError>,
}

impl InputStep {
    pub open spec fn failed(error: InputError) -> InputStep {
        InputStep { transition: None, pointer: None, error: Some(error) }
    }
}

/// Whether a number fits the counters of relative motion.
pub open spec fn fits(value: int) -> bool {
    i64::MIN <= value <= i64::MAX
}

impl InputSender {
    pub open spec fn initial() -> InputSender {
        InputSender {
            input_sequence: 0,
            pointer_sequence: 0,
            cumulative_x: 0,
            cumulative_y: 0,
            pointer_mode: None,
        }
    }

    /// The next transition on the reliable stream.
    pub open spec fn reliable(self, action: Action, sent_at_micros: u64) -> (
        InputSender,
        InputStep,
    ) {
        if self.input_sequence == u64::MAX {
            (self, InputStep::failed(InputError::InputSequenceExhausted))
        } else {
            let sequence = (self.input_sequence + 1) as u64;
            (
                InputSender { input_sequence: sequence, ..self },
                InputStep {
                    transition: Some(
                        InputTransition {
                            generation: INPUT_GENERATION,
                            sequence,
                            action: Some(action),
                            player_sent_at_micros: sent_at_micros,
                        },
                    ),
                    pointer: None,
                    error: None,
                },
            )
        }
    }

    /// The switch to a pointer mode, where the pointer is not in it already.
    pub open spec fn switched(self, mode: PointerMode, sent_at_micros: u64) -> (
        InputSender,
        InputStep,
    ) {
        if self.pointer_mode == Some(mode) {
            (self, InputStep { transition: None, pointer: None, error: None })
        } else {
            let (next, step) = self.reliable(
                Action::PointerMode(PointerModeTransition { mode: mode.spec_number() }),
                sent_at_micros,
            );
            if step.error is Some {
                (next, step)
            } else {
                (InputSender { pointer_mode: Some(mode), ..next }, step)
            }
        }
    }

    /// The pointer after a relative motion.
    pub open spec fn moved(self, delta_x: i32, delta_y: i32) -> (
        InputSender,
        Result<PointerSnapshot, InputError>,
    ) {
        let x = self.cumulative_x + delta_x;
        let y = self.cumulative_y + delta_y;
        if !fits(x) {
            (self, Err(InputError::RelativeXOverflow))
        } else if !fits(y) {
            (InputSender { cumulative_x: x as i64, ..self }, Err(InputError::RelativeYOverflow))
        } else {
            let counted = InputSender { cumulative_x: x as i64, cumulative_y: y as i64, ..self };
            if self.pointer_sequence == u64::MAX {
                (counted, Err(InputError::PointerSequenceExhausted))
            } else {
                let sequence = (self.pointer_sequence + 1) as u64;
                (
                    InputSender { pointer_sequence: sequence, ..counted },
                    Ok(
                        PointerSnapshot::Relative {
                            generation: INPUT_GENERATION,
                            sequence,
                            cumulative_x: x as i64,
                            cumulative_y: y as i64,
                        },
                    ),
                )
            }
        }
    }

    /// The pointer at a position.
    pub open spec fn placed(self, x: u16, y: u16) -> (
        InputSender,
        Result<PointerSnapshot, InputError>,
    ) {
        if self.pointer_sequence == u64::MAX {
            (self, Err(InputError::PointerSequenceExhausted))
        } else {
            let sequence = (self.pointer_sequence + 1) as u64;
            (
                InputSender { pointer_sequence: sequence, ..self },
                Ok(PointerSnapshot::Absolute { generation: INPUT_GENERATION, sequence, x, y }),
            )
        }
    }

    /// A step with the pointer's part added.
    pub open spec fn with_pointer(
        step: InputStep,
        pointer: Result<PointerSnapshot, InputError>,
    ) -> InputStep {
        match pointer {
            Ok(snapshot) => InputStep { pointer: Some(snapshot), ..step },
            Err(error) => InputStep { error: Some(error), ..step },
        }
    }

    /// What is sent for an event: pointer motion and position as datagrams in
    /// their mode, everything else reliably.
    pub open spec fn sent(
        self,
        event: InputEvent,
        sent_at_micros: u64,
    ) -> (InputSender, InputStep) {
        match event {
            InputEvent::PointerMotion { delta_x, delta_y } => {
                let (switched, step) = self.switched(PointerMode::Relative, sent_at_micros);
                if step.error is Some {
                    (switched, step)
                } else {
                    let (next, pointer) = switched.moved(delta_x, delta_y);
                    (next, InputSender::with_pointer(step, pointer))
                }
            },
            InputEvent::PointerPosition { x, y } => {
                let (switched, step) = self.switched(PointerMode::Absolute, sent_at_micros);
                if step.error is Some {
                    (switched, step)
                } else {
                    let (next, pointer) = switched.placed(x, y);
                    (next, InputSender::with_pointer(step, pointer))
                }
            },
            _ => self.reliable(action_of(event), sent_at_micros),
        }
    }
}

impl Default for InputSender {
    fn default() -> (sender: Self)
        ensures
            sender == InputSender::initial(),
    {
        InputSender {
            input_sequence: 0,
            pointer_sequence: 0,
            cumulative_x: 0,
            cumulative_y: 0,
            pointer_mode: None,
        }
    }
}

impl InputSender {
    /// What to send for an event.
    pub fn push(&mut self, event: InputEvent, sent_at_micros: u64) -> (step: InputStep)
        ensures
            (*final(self), step) == old(self).sent(event, sent_at_micros),
    {
        match event {
            InputEvent::PointerMotion { delta_x, delta_y } => {
                let step = self.switch(PointerMode::Relative, sent_at_micros);
                if step.error.is_some() {
                    return step;
                }
                let pointer = self.move_by(delta_x, delta_y);
                attach(step, pointer)
            },
            InputEvent::PointerPosition { x, y } => {
                let step = self.switch(PointerMode::Absolute, sent_at_micros);
                if step.error.is_some() {
                    return step;
                }
                let pointer = self.move_to(x, y);
                attach(step, pointer)
            },
            _ => {
                let transition = encode_reliable_input(event, INPUT_GENERATION, 0, sent_at_micros);
                match transition.action {
                    Some(action) => self.send(action, sent_at_micros),
                    None => InputStep { transition: None, pointer: None, error: None },
                }
            },
        }
    }

    /// The last transition of a stream: every key and button is let go.
    pub fn release_all(&mut self) -> (step: InputStep)
        ensures
            (*final(self), step) == old(self).reliable(Action::ReleaseAll(ReleaseAll {  }), 0),
    {
        self.send(Action::ReleaseAll(ReleaseAll {  }), 0)
    }

    fn send(&mut self, action: Action, sent_at_micros: u64) -> (step: InputStep)
        ensures
            (*final(self), step) == old(self).reliable(action, sent_at_micros),
    {
        match self.input_sequence.checked_add(1) {
            Some(sequence) => {
                self.input_sequence = sequence;
                InputStep {
                    transition: Some(
                        InputTransition {
                            generation: INPUT_GENERATION,
                            sequence,
                            action: Some(action),
                            player_sent_at_micros: sent_at_micros,
                        },
                    ),
                    pointer: None,
                    error: None,
                }
            },
            None => InputStep {
                transition: None,
                pointer: None,
                error: Some(InputError::InputSequenceExhausted),
            },
        }
    }

    fn switch(&mut self, mode: PointerMode, sent_at_micros: u64) -> (step: InputStep)
        ensures
            (*final(self), step) == old(self).switched(mode, sent_at_micros),
    {
        let current = match self.pointer_mode {
            Some(current) => current == mode,
            None => false,
        };
        if current {
            return InputStep { transition: None, pointer: None, error: None };
        }
        let step = self.send(
            Action::PointerMode(PointerModeTransition { mode: mode.number() }),
            sent_at_micros,
        );
        if step.error.is_none() {
            self.pointer_mode = Some(mode);
        }
        step
    }

    fn move_by(&mut self, delta_x: i32, delta_y: i32) -> (result: Result<
        PointerSnapshot,
        InputError,
    >)
        ensures
            (*final(self), result) == old(self).moved(delta_x, delta_y),
    {
        match self.cumulative_x.checked_add(delta_x as i64) {
            Some(x) => {
                self.cumulative_x = x;
            },
            None => {
                return Err(InputError::RelativeXOverflow);
            },
        }
        match self.cumulative_y.checked_add(delta_y as i64) {
            Some(y) => {
                self.cumulative_y = y;
            },
            None => {
                return Err(InputError::RelativeYOverflow);
            },
        }
        match self.pointer_sequence.checked_add(1) {
            Some(sequence) => {
                self.pointer_sequence = sequence;
                Ok(
                    PointerSnapshot::Relative {
                        generation: INPUT_GENERATION,
                        sequence,
                        cumulative_x: self.cumulative_x,
                        cumulative_y: self.cumulative_y,
                    },
                )
            },
            None => Err(InputError::PointerSequenceExhausted),
        }
    }

    fn move_to(&mut self, x: u16, y: u16) -> (result: Result<PointerSnapshot, InputError>)
        ensures
            (*final(self), result) == old(self).placed(x, y),
    {
        match self.pointer_sequence.checked_add(1) {
            Some(sequence) => {
                self.pointer_sequence = sequence;
                Ok(PointerSnapshot::Absolute { generation: INPUT_GENERATION, sequence, x, y })
            },
            None => Err(InputError::PointerSequenceExhausted),
        }
    }
}

fn attach(step: InputStep, pointer: Result<PointerSnapshot, InputError>) -> (result: InputStep)
    ensures
        result == InputSender::with_pointer(step, pointer),
{
    match pointer {
        Ok(snapshot) => InputStep {
            transition: step.transition,
            pointer: Some(snapshot),
            error: step.error,
        },
        Err(error) => InputStep {
            transition: step.transition,
            pointer: step.pointer,
            error: Some(error),
        },
    }
}

/// Whether diagnostics look for the mark that this event makes on the screen.
pub fn correlates_test_marker(event: InputEvent) -> (result: bool)
    ensures
        result == (event matches InputEvent::PointerButton { pressed, .. } && pressed),
{
    match event {
        InputEvent::PointerButton { button: _, pressed } => pressed,
        _ => false,
    }
}

/// Every local event has a reliable action of its own: two events with one
/// action are the same event.
pub proof fn law_every_input_has_its_own_action(first: InputEvent, second: InputEvent)
    requires
        action_of(first) == action_of(second),
    ensures
        first == second,
{
}

/// Without an error a transition has the next sequence, so that none is left
/// out, and the pointer is in the mode that its datagram speaks.
pub proof fn law_sequences_follow_on(sender: InputSender, event: InputEvent, sent_at_micros: u64)
    ensures
        ({
            let (next, step) = sender.sent(event, sent_at_micros);
            step.error is None ==> {
                &&& match step.transition {
                    Some(transition) => transition.sequence == sender.input_sequence + 1
                        && next.input_sequence == transition.sequence,
                    None => next.input_sequence == sender.input_sequence,
                }
                &&& match step.pointer {
                    Some(PointerSnapshot::Relative { sequence, cumulative_x, cumulative_y, .. }) => {
                        &&& sequence == sender.pointer_sequence + 1
                        &&& next.pointer_mode == Some(PointerMode::Relative)
                        &&& event == (InputEvent::PointerMotion {
                            delta_x: (cumulative_x - sender.cumulative_x) as i32,
                            delta_y: (cumulative_y - sender.cumulative_y) as i32,
                        })
                    },
                    Some(PointerSnapshot::Absolute { sequence, x, y, .. }) => {
                        &&& sequence == sender.pointer_sequence + 1
                        &&& next.pointer_mode == Some(PointerMode::Absolute)
                        &&& event == (InputEvent::PointerPosition { x, y })
                    },
                    None => step.transition is Some,
                }
            }
        }),
{
}

/// The action of an event says what the event says: each field is the event's
/// field of the same meaning.
pub proof fn law_actions_carry_their_event(event: InputEvent)
    ensures
        event matches InputEvent::Key { hid_usage, pressed } ==> {
            &&& action_of(event) matches Action::Key(key)
            &&& key.hid_usage == hid_usage
            &&& key.pressed == pressed
        },
        event matches InputEvent::PointerButton { button, pressed } ==> {
            &&& action_of(event) matches Action::PointerButton(transition)
            &&& transition.button == button
            &&& transition.pressed == pressed
        },
        event matches InputEvent::PointerMotion { delta_x, delta_y } ==> {
            &&& action_of(event) matches Action::PointerMotion(motion)
            &&& motion.delta_x == delta_x
            &&& motion.delta_y == delta_y
        },
        event matches InputEvent::PointerPosition { x, y } ==> {
            &&& action_of(event) matches Action::PointerPosition(position)
            &&& position.x == x
            &&& position.y == y
        },
        event matches InputEvent::Wheel { horizontal, vertical } ==> {
            &&& action_of(event) matches Action::Wheel(wheel)
            &&& wheel.horizontal == horizontal
            &&& wheel.vertical == vertical
        },
        event is ReleaseAll ==> action_of(event) is ReleaseAll,
{
}

/// A key, a button, the wheel and the release of everything go out reliably,
/// at once and alone: the transition is of the first generation, has the next
/// sequence and the time of sending, and nothing else of the sender changes.
pub proof fn law_other_events_are_sent_reliably(
    sender: InputSender,
    event: InputEvent,
    sent_at_micros: u64,
)
    requires
        !(event is PointerMotion),
        !(event is PointerPosition),
    ensures
        ({
            let (next, step) = sender.sent(event, sent_at_micros);
            &&& step.pointer is None
            &&& next.pointer_sequence == sender.pointer_sequence
            &&& next.cumulative_x == sender.cumulative_x
            &&& next.cumulative_y == sender.cumulative_y
            &&& next.pointer_mode == sender.pointer_mode
            &&& if sender.input_sequence < u64::MAX {
                &&& step.error is None
                &&& next.input_sequence == sender.input_sequence + 1
                &&& step.transition matches Some(transition)
                &&& transition.generation == 1
                &&& transition.sequence == sender.input_sequence + 1
                &&& transition.player_sent_at_micros == sent_at_micros
                &&& transition.action matches Some(action)
                &&& match (event, action) {
                    (InputEvent::Key { hid_usage, pressed }, Action::Key(key)) => {
                        key.hid_usage == hid_usage && key.pressed == pressed
                    },
                    (
                        InputEvent::PointerButton { button, pressed },
                        Action::PointerButton(transition),
                    ) => transition.button == button && transition.pressed == pressed,
                    (InputEvent::Wheel { horizontal, vertical }, Action::Wheel(wheel)) => {
                        wheel.horizontal == horizontal && wheel.vertical == vertical
                    },
                    (InputEvent::ReleaseAll, Action::ReleaseAll(_)) => true,
                    _ => false,
                }
            } else {
                &&& next.input_sequence == u64::MAX
                &&& step.transition is None
                &&& step.error == Some(InputError::InputSequenceExhausted)
            }
        }),
{
}

/// A relative motion goes out as a datagram with the sums of all motion so
/// far, and a position as a datagram with its own coordinates. The mode is
/// switched reliably before it where the pointer was not in it, and only then.
pub proof fn law_pointer_events_are_sent_as_datagrams(
    sender: InputSender,
    event: InputEvent,
    sent_at_micros: u64,
)
    requires
        event is PointerMotion || event is PointerPosition,
        sender.input_sequence < u64::MAX,
        sender.pointer_sequence < u64::MAX,
        event matches InputEvent::PointerMotion { delta_x, delta_y } ==> {
            &&& i64::MIN <= sender.cumulative_x + delta_x <= i64::MAX
            &&& i64::MIN <= sender.cumulative_y + delta_y <= i64::MAX
        },
    ensures
        ({
            let (next, step) = sender.sent(event, sent_at_micros);
            let mode = if event is PointerMotion {
                PointerMode::Relative
            } else {
                PointerMode::Absolute
            };
            &&& step.error is None
            &&& next.pointer_sequence == sender.pointer_sequence + 1
            &&& next.pointer_mode == Some(mode)
            &&& match (event, step.pointer) {
                (
                    InputEvent::PointerMotion { delta_x, delta_y },
                    Some(
                        PointerSnapshot::Relative {
                            generation,
                            sequence,
                            cumulative_x,
                            cumulative_y,
                        },
                    ),
                ) => {
                    &&& generation == 1
                    &&& sequence == sender.pointer_sequence + 1
                    &&& cumulative_x == sender.cumulative_x + delta_x
                    &&& cumulative_y == sender.cumulative_y + delta_y
                    &&& next.cumulative_x == cumulative_x
                    &&& next.cumulative_y == cumulative_y
                },
                (
                    InputEvent::PointerPosition { x, y },
                    Some(
                        PointerSnapshot::Absolute {
                            generation,
                            sequence,
                            x: sent_x,
                            y: sent_y,
                        },
                    ),
                ) => {
                    &&& generation == 1
                    &&& sequence == sender.pointer_sequence + 1
                    &&& sent_x == x
                    &&& sent_y == y
                    &&& next.cumulative_x == sender.cumulative_x
                    &&& next.cumulative_y == sender.cumulative_y
                },
                _ => false,
            }
            &&& if sender.pointer_mode == Some(mode) {
                &&& step.transition is None
                &&& next.input_sequence == sender.input_sequence
            } else {
                &&& next.input_sequence == sender.input_sequence + 1
                &&& step.transition matches Some(transition)
                &&& transition.generation == 1
                &&& transition.sequence == sender.input_sequence + 1
                &&& transition.player_sent_at_micros == sent_at_micros
                &&& transition.action matches Some(Action::PointerMode(switch))
                &&& switch.mode == if event is PointerMotion {
                    2i32
                } else {
                    1i32
                }
            }
        }),
{
}

/// Motion that the sums cannot hold, and a sequence that has run out, end the
/// stream with their own error and send no datagram.
pub proof fn law_exhausted_pointer_events_fail(
    sender: InputSender,
    event: InputEvent,
    sent_at_micros: u64,
)
    ensures
        ({
            let (next, step) = sender.sent(event, sent_at_micros);
            let switches = match event {
                InputEvent::PointerMotion { .. } => sender.pointer_mode != Some(
                    PointerMode::Relative,
                ),
                InputEvent::PointerPosition { .. } => sender.pointer_mode != Some(
                    PointerMode::Absolute,
                ),
                _ => true,
            };
            let exhausted = switches && sender.input_sequence == u64::MAX;
            &&& step.error is Some ==> step.pointer is None
            &&& step.error == Some(InputError::InputSequenceExhausted) <==> exhausted
            &&& step.error == Some(InputError::RelativeXOverflow) <==> !exhausted && (
            event matches InputEvent::PointerMotion { delta_x, .. } && !(i64::MIN
                <= sender.cumulative_x + delta_x <= i64::MAX))
            &&& step.error == Some(InputError::RelativeYOverflow) <==> !exhausted && (
            event matches InputEvent::PointerMotion { delta_x, delta_y } && i64::MIN
                <= sender.cumulative_x + delta_x <= i64::MAX && !(i64::MIN <= sender.cumulative_y
                + delta_y <= i64::MAX))
        }),
{
}

/// The last transition of a stream lets everything go: it has the next
/// sequence and no time of sending.
pub proof fn law_the_last_transition_releases_all(sender: InputSender)
    requires
        sender.input_sequence < u64::MAX,
    ensures
        ({
            let (next, step) = sender.reliable(Action::ReleaseAll(ReleaseAll {  }), 0);
            &&& next.input_sequence == sender.input_sequence + 1
            &&& step.error is None
            &&& step.pointer is None
            &&& step.transition matches Some(transition)
            &&& transition.generation == 1
            &&& transition.sequence == sender.input_sequence + 1
            &&& transition.player_sent_at_micros == 0
            &&& transition.action matches Some(Action::ReleaseAll(_))
        }),
{
}

} // verus!
