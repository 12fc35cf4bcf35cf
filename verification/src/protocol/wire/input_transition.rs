//! The action of an input transition.

use super::field;
use super::field::{Field, WireField, WireValue};
use super::message;
use super::message::{put_nested, take_nested, WireMessage};
use super::input_messages::{
    KeyTransition, PointerButtonTransition, PointerModeTransition, PointerMotionTransition,
    PointerPositionTransition, ReleaseAll, WheelTransition,
};
use vstd::prelude::*;

verus! {

/// What the player did.
#[derive(Clone, Copy, Debug, PartialEq, Eq, Structural)]
pub enum Action {
    Key(KeyTransition),
    PointerButton(PointerButtonTransition),
    Wheel(WheelTransition),
    PointerMode(PointerModeTransition),
    ReleaseAll(ReleaseAll),
    PointerMotion(PointerMotionTransition),
    PointerPosition(PointerPositionTransition),
}

/// The bytes of what is chosen: one field, present whatever it holds.
pub open spec fn choice_bytes(choice: Option<Action>) -> Seq<u8> {
    match choice {
        Some(Action::Key(inner)) => field::delimited_field(3, KeyTransition::wire(inner)),
        Some(Action::PointerButton(inner)) => field::delimited_field(
            4,
            PointerButtonTransition::wire(inner),
        ),
        Some(Action::Wheel(inner)) => field::delimited_field(5, WheelTransition::wire(inner)),
        Some(Action::PointerMode(inner)) => {
            field::delimited_field(6, PointerModeTransition::wire(inner))
        },
        Some(Action::ReleaseAll(inner)) => field::delimited_field(7, ReleaseAll::wire(inner)),
        Some(Action::PointerMotion(inner)) => field::delimited_field(
            9,
            PointerMotionTransition::wire(inner),
        ),
        Some(Action::PointerPosition(inner)) => field::delimited_field(
            10,
            PointerPositionTransition::wire(inner),
        ),
        None => Seq::empty(),
    }
}

/// The tags that a choice is written under.
pub open spec fn is_choice_tag(tag: u32) -> bool {
    tag == 3 || tag == 4 || tag == 5 || tag == 6 || tag == 7 || tag == 9 || tag == 10
}

/// The choice after a field of one of its tags. A field of the tag at hand
/// changes what is held; one of another tag replaces it.
pub open spec fn merge_choice(
    choice: Option<Action>,
    field: WireField,
    limit: nat,
) -> Option<Action> {
    if field.tag == 3 {
        let held = match choice {
            Some(Action::Key(held)) => held,
            _ => KeyTransition::initial(),
        };
        match message::merge_nested::<KeyTransition>(held, field.value, limit) {
            Some(next) => Some(Action::Key(next)),
            None => None,
        }
    } else if field.tag == 4 {
        let held = match choice {
            Some(Action::PointerButton(held)) => held,
            _ => PointerButtonTransition::initial(),
        };
        match message::merge_nested::<PointerButtonTransition>(held, field.value, limit) {
            Some(next) => Some(Action::PointerButton(next)),
            None => None,
        }
    } else if field.tag == 5 {
        let held = match choice {
            Some(Action::Wheel(held)) => held,
            _ => WheelTransition::initial(),
        };
        match message::merge_nested::<WheelTransition>(held, field.value, limit) {
            Some(next) => Some(Action::Wheel(next)),
            None => None,
        }
    } else if field.tag == 6 {
        let held = match choice {
            Some(Action::PointerMode(held)) => held,
            _ => PointerModeTransition::initial(),
        };
        match message::merge_nested::<PointerModeTransition>(held, field.value, limit) {
            Some(next) => Some(Action::PointerMode(next)),
            None => None,
        }
    } else if field.tag == 7 {
        let held = match choice {
            Some(Action::ReleaseAll(held)) => held,
            _ => ReleaseAll::initial(),
        };
        match message::merge_nested::<ReleaseAll>(held, field.value, limit) {
            Some(next) => Some(Action::ReleaseAll(next)),
            None => None,
        }
    } else if field.tag == 9 {
        let held = match choice {
            Some(Action::PointerMotion(held)) => held,
            _ => PointerMotionTransition::initial(),
        };
        match message::merge_nested::<PointerMotionTransition>(held, field.value, limit) {
            Some(next) => Some(Action::PointerMotion(next)),
            None => None,
        }
    } else if field.tag == 10 {
        let held = match choice {
            Some(Action::PointerPosition(held)) => held,
            _ => PointerPositionTransition::initial(),
        };
        match message::merge_nested::<PointerPositionTransition>(held, field.value, limit) {
            Some(next) => Some(Action::PointerPosition(next)),
            None => None,
        }
    } else {
        None
    }
}

/// Appends what is chosen.
pub fn put_choice(out: &mut Vec<u8>, choice: &Option<Action>)
    ensures
        final(out)@ == old(out)@ + choice_bytes(*choice),
{
    match choice {
        Some(Action::Key(inner)) => put_nested(out, 3, inner),
        Some(Action::PointerButton(inner)) => put_nested(out, 4, inner),
        Some(Action::Wheel(inner)) => put_nested(out, 5, inner),
        Some(Action::PointerMode(inner)) => put_nested(out, 6, inner),
        Some(Action::ReleaseAll(inner)) => put_nested(out, 7, inner),
        Some(Action::PointerMotion(inner)) => put_nested(out, 9, inner),
        Some(Action::PointerPosition(inner)) => put_nested(out, 10, inner),
        None => {
            assert(out@ =~= old(out)@ + choice_bytes(*choice));
        },
    }
}

/// Reads a field of one of the choice's tags.
pub fn take_choice(choice: &mut Option<Action>, field: &Field<'_>, limit: u32) -> (accepted: bool)
    requires
        is_choice_tag(field.tag),
    ensures
        accepted
            ==> merge_choice(*old(choice), field@, limit as nat) == *final(choice)
                && *final(choice) is Some,
        !accepted ==> merge_choice(*old(choice), field@, limit as nat) is None,
{
    if field.tag == 3 {
        let mut inner = match choice.take() {
            Some(Action::Key(inner)) => inner,
            _ => KeyTransition::empty(),
        };
        let accepted = take_nested(&mut inner, &field.value, limit);
        *choice = Some(Action::Key(inner));
        accepted
    } else if field.tag == 4 {
        let mut inner = match choice.take() {
            Some(Action::PointerButton(inner)) => inner,
            _ => PointerButtonTransition::empty(),
        };
        let accepted = take_nested(&mut inner, &field.value, limit);
        *choice = Some(Action::PointerButton(inner));
        accepted
    } else if field.tag == 5 {
        let mut inner = match choice.take() {
            Some(Action::Wheel(inner)) => inner,
            _ => WheelTransition::empty(),
        };
        let accepted = take_nested(&mut inner, &field.value, limit);
        *choice = Some(Action::Wheel(inner));
        accepted
    } else if field.tag == 6 {
        let mut inner = match choice.take() {
            Some(Action::PointerMode(inner)) => inner,
            _ => PointerModeTransition::empty(),
        };
        let accepted = take_nested(&mut inner, &field.value, limit);
        *choice = Some(Action::PointerMode(inner));
        accepted
    } else if field.tag == 7 {
        let mut inner = match choice.take() {
            Some(Action::ReleaseAll(inner)) => inner,
            _ => ReleaseAll::empty(),
        };
        let accepted = take_nested(&mut inner, &field.value, limit);
        *choice = Some(Action::ReleaseAll(inner));
        accepted
    } else if field.tag == 9 {
        let mut inner = match choice.take() {
            Some(Action::PointerMotion(inner)) => inner,
            _ => PointerMotionTransition::empty(),
        };
        let accepted = take_nested(&mut inner, &field.value, limit);
        *choice = Some(Action::PointerMotion(inner));
        accepted
    } else if field.tag == 10 {
        let mut inner = match choice.take() {
            Some(Action::PointerPosition(inner)) => inner,
            _ => PointerPositionTransition::empty(),
        };
        let accepted = take_nested(&mut inner, &field.value, limit);
        *choice = Some(Action::PointerPosition(inner));
        accepted
    } else {
        false
    }
}

/// A written choice is read back.
pub proof fn lemma_choice_round_trip(choice: Action, limit: nat)
    requires
        limit >= 2,
        choice_bytes(Some(choice)).len() <= u64::MAX,
    ensures
        exists|tag: u32, value: Seq<u8>|
            #![trigger field::delimited_field(tag, value)]
            {
                &&& is_choice_tag(tag)
                &&& field::valid_tag(tag)
                &&& value.len() <= u64::MAX
                &&& choice_bytes(Some(choice)) == field::delimited_field(tag, value)
                &&& merge_choice(
                    None,
                    (WireField { tag, value: WireValue::Bytes(value) }),
                    limit,
                ) == Some(choice)
            },
{
    match choice {
        Action::Key(inner) => {
            let value = KeyTransition::wire(inner);
            assert(value.len() <= field::delimited_field(3, value).len());
            KeyTransition::lemma_round_trip(inner, (limit - 1) as nat);
        },
        Action::PointerButton(inner) => {
            let value = PointerButtonTransition::wire(inner);
            assert(value.len() <= field::delimited_field(4, value).len());
            PointerButtonTransition::lemma_round_trip(inner, (limit - 1) as nat);
        },
        Action::Wheel(inner) => {
            let value = WheelTransition::wire(inner);
            assert(value.len() <= field::delimited_field(5, value).len());
            WheelTransition::lemma_round_trip(inner, (limit - 1) as nat);
        },
        Action::PointerMode(inner) => {
            let value = PointerModeTransition::wire(inner);
            assert(value.len() <= field::delimited_field(6, value).len());
            PointerModeTransition::lemma_round_trip(inner, (limit - 1) as nat);
        },
        Action::ReleaseAll(inner) => {
            let value = ReleaseAll::wire(inner);
            assert(value.len() <= field::delimited_field(7, value).len());
            ReleaseAll::lemma_round_trip(inner, (limit - 1) as nat);
        },
        Action::PointerMotion(inner) => {
            let value = PointerMotionTransition::wire(inner);
            assert(value.len() <= field::delimited_field(9, value).len());
            PointerMotionTransition::lemma_round_trip(inner, (limit - 1) as nat);
        },
        Action::PointerPosition(inner) => {
            let value = PointerPositionTransition::wire(inner);
            assert(value.len() <= field::delimited_field(10, value).len());
            PointerPositionTransition::lemma_round_trip(inner, (limit - 1) as nat);
        },
    }
}

} // verus!
