//! Input transitions and their acknowledgement.

use super::field;
use super::field::{put_varint_field, Field, FieldValue, WireField, WireValue};
use super::message;
use super::message::{WireMessage};
use super::scalar;
use vstd::prelude::*;

verus! {

/// A key went down or came up.
#[derive(Clone, Copy, Debug, PartialEq, Eq, Structural)]
pub struct KeyTransition {
    pub hid_usage: u32,
    pub pressed: bool,
}

impl View for KeyTransition {
    type V = KeyTransition;

    open spec fn view(&self) -> KeyTransition {
        *self
    }
}

impl Default for KeyTransition {
    fn default() -> (message: Self)
        ensures
            message@ == Self::initial(),
    {
        Self::empty()
    }
}

impl WireMessage for KeyTransition {
    open spec fn initial() -> KeyTransition {
        KeyTransition { hid_usage: 0, pressed: false }
    }

    open spec fn wire(model: KeyTransition) -> Seq<u8> {
        field::varint_field(1, model.hid_usage as u64)
            + field::varint_field(2, scalar::spec_bool_number(model.pressed))
    }

    open spec fn merge(
        model: KeyTransition,
        field: WireField,
        limit: nat,
    ) -> Option<KeyTransition> {
        if field.tag == 1 {
            match field.value {
                WireValue::Varint(value) => Some(
                    KeyTransition { hid_usage: value as u32, ..model },
                ),
                _ => None,
            }
        } else if field.tag == 2 {
            match field.value {
                WireValue::Varint(value) => Some(KeyTransition { pressed: value != 0, ..model }),
                _ => None,
            }
        } else {
            Some(model)
        }
    }

    fn empty() -> (message: Self) {
        KeyTransition { hid_usage: 0, pressed: false }
    }

    fn put(&self, out: &mut Vec<u8>) {
        broadcast use message::lemma_concatenation_associates;

        put_varint_field(out, 1, self.hid_usage as u64);
        put_varint_field(out, 2, scalar::bool_number(self.pressed));
    }

    fn take(&mut self, field: &Field<'_>, limit: u32) -> (accepted: bool) {
        if field.tag == 1 {
            match field.value {
                FieldValue::Varint(value) => {
                    self.hid_usage = value as u32;
                    true
                },
                _ => false,
            }
        } else if field.tag == 2 {
            match field.value {
                FieldValue::Varint(value) => {
                    self.pressed = value != 0;
                    true
                },
                _ => false,
            }
        } else {
            true
        }
    }
}

impl KeyTransition {
    /// A written message is read back.
    pub proof fn lemma_round_trip(model: KeyTransition, limit: nat)
        requires
            limit >= 1,
            Self::wire(model).len() <= u64::MAX,
        ensures
            message::merge_all::<Self>(Self::initial(), Self::wire(model), limit) == Some(model),
    {
        let start = Self::initial();
        let at_hid_usage = KeyTransition { hid_usage: model.hid_usage, ..start };
        message::lemma_after_varint::<Self>(
            start,
            Seq::<u8>::empty(),
            start,
            1,
            model.hid_usage as u64,
            at_hid_usage,
            limit,
        );
        assert(Seq::<u8>::empty() + field::varint_field(1, model.hid_usage as u64)
            =~= field::varint_field(1, model.hid_usage as u64));
        let w1 = field::varint_field(1, model.hid_usage as u64);
        let at_pressed = KeyTransition { pressed: model.pressed, ..at_hid_usage };
        message::lemma_after_varint::<Self>(
            start,
            w1,
            at_hid_usage,
            2,
            scalar::spec_bool_number(model.pressed),
            at_pressed,
            limit,
        );
        assert(at_pressed == model);
    }
}

/// A pointer button went down or came up.
#[derive(Clone, Copy, Debug, PartialEq, Eq, Structural)]
pub struct PointerButtonTransition {
    pub button: u32,
    pub pressed: bool,
}

impl View for PointerButtonTransition {
    type V = PointerButtonTransition;

    open spec fn view(&self) -> PointerButtonTransition {
        *self
    }
}

impl Default for PointerButtonTransition {
    fn default() -> (message: Self)
        ensures
            message@ == Self::initial(),
    {
        Self::empty()
    }
}

impl WireMessage for PointerButtonTransition {
    open spec fn initial() -> PointerButtonTransition {
        PointerButtonTransition { button: 0, pressed: false }
    }

    open spec fn wire(model: PointerButtonTransition) -> Seq<u8> {
        field::varint_field(1, model.button as u64)
            + field::varint_field(2, scalar::spec_bool_number(model.pressed))
    }

    open spec fn merge(
        model: PointerButtonTransition,
        field: WireField,
        limit: nat,
    ) -> Option<PointerButtonTransition> {
        if field.tag == 1 {
            match field.value {
                WireValue::Varint(value) => Some(
                    PointerButtonTransition { button: value as u32, ..model },
                ),
                _ => None,
            }
        } else if field.tag == 2 {
            match field.value {
                WireValue::Varint(value) => Some(
                    PointerButtonTransition { pressed: value != 0, ..model },
                ),
                _ => None,
            }
        } else {
            Some(model)
        }
    }

    fn empty() -> (message: Self) {
        PointerButtonTransition { button: 0, pressed: false }
    }

    fn put(&self, out: &mut Vec<u8>) {
        broadcast use message::lemma_concatenation_associates;

        put_varint_field(out, 1, self.button as u64);
        put_varint_field(out, 2, scalar::bool_number(self.pressed));
    }

    fn take(&mut self, field: &Field<'_>, limit: u32) -> (accepted: bool) {
        if field.tag == 1 {
            match field.value {
                FieldValue::Varint(value) => {
                    self.button = value as u32;
                    true
                },
                _ => false,
            }
        } else if field.tag == 2 {
            match field.value {
                FieldValue::Varint(value) => {
                    self.pressed = value != 0;
                    true
                },
                _ => false,
            }
        } else {
            true
        }
    }
}

impl PointerButtonTransition {
    /// A written message is read back.
    pub proof fn lemma_round_trip(model: PointerButtonTransition, limit: nat)
        requires
            limit >= 1,
            Self::wire(model).len() <= u64::MAX,
        ensures
            message::merge_all::<Self>(Self::initial(), Self::wire(model), limit) == Some(model),
    {
        let start = Self::initial();
        let at_button = PointerButtonTransition { button: model.button, ..start };
        message::lemma_after_varint::<Self>(
            start,
            Seq::<u8>::empty(),
            start,
            1,
            model.button as u64,
            at_button,
            limit,
        );
        assert(Seq::<u8>::empty() + field::varint_field(1, model.button as u64)
            =~= field::varint_field(1, model.button as u64));
        let w1 = field::varint_field(1, model.button as u64);
        let at_pressed = PointerButtonTransition { pressed: model.pressed, ..at_button };
        message::lemma_after_varint::<Self>(
            start,
            w1,
            at_button,
            2,
            scalar::spec_bool_number(model.pressed),
            at_pressed,
            limit,
        );
        assert(at_pressed == model);
    }
}

/// Relative pointer motion.
#[derive(Clone, Copy, Debug, PartialEq, Eq, Structural)]
pub struct PointerMotionTransition {
    pub delta_x: i32,
    pub delta_y: i32,
}

impl View for PointerMotionTransition {
    type V = PointerMotionTransition;

    open spec fn view(&self) -> PointerMotionTransition {
        *self
    }
}

impl Default for PointerMotionTransition {
    fn default() -> (message: Self)
        ensures
            message@ == Self::initial(),
    {
        Self::empty()
    }
}

impl WireMessage for PointerMotionTransition {
    open spec fn initial() -> PointerMotionTransition {
        PointerMotionTransition { delta_x: 0, delta_y: 0 }
    }

    open spec fn wire(model: PointerMotionTransition) -> Seq<u8> {
        field::varint_field(1, scalar::spec_zigzag(model.delta_x))
            + field::varint_field(2, scalar::spec_zigzag(model.delta_y))
    }

    open spec fn merge(
        model: PointerMotionTransition,
        field: WireField,
        limit: nat,
    ) -> Option<PointerMotionTransition> {
        if field.tag == 1 {
            match field.value {
                WireValue::Varint(value) => Some(
                    PointerMotionTransition { delta_x: scalar::spec_unzigzag(value), ..model },
                ),
                _ => None,
            }
        } else if field.tag == 2 {
            match field.value {
                WireValue::Varint(value) => Some(
                    PointerMotionTransition { delta_y: scalar::spec_unzigzag(value), ..model },
                ),
                _ => None,
            }
        } else {
            Some(model)
        }
    }

    fn empty() -> (message: Self) {
        PointerMotionTransition { delta_x: 0, delta_y: 0 }
    }

    fn put(&self, out: &mut Vec<u8>) {
        broadcast use message::lemma_concatenation_associates;

        put_varint_field(out, 1, scalar::zigzag(self.delta_x));
        put_varint_field(out, 2, scalar::zigzag(self.delta_y));
    }

    fn take(&mut self, field: &Field<'_>, limit: u32) -> (accepted: bool) {
        if field.tag == 1 {
            match field.value {
                FieldValue::Varint(value) => {
                    self.delta_x = scalar::unzigzag(value);
                    true
                },
                _ => false,
            }
        } else if field.tag == 2 {
            match field.value {
                FieldValue::Varint(value) => {
                    self.delta_y = scalar::unzigzag(value);
                    true
                },
                _ => false,
            }
        } else {
            true
        }
    }
}

impl PointerMotionTransition {
    /// A written message is read back.
    pub proof fn lemma_round_trip(model: PointerMotionTransition, limit: nat)
        requires
            limit >= 1,
            Self::wire(model).len() <= u64::MAX,
        ensures
            message::merge_all::<Self>(Self::initial(), Self::wire(model), limit) == Some(model),
    {
        let start = Self::initial();
        let at_delta_x = PointerMotionTransition { delta_x: model.delta_x, ..start };
        scalar::lemma_zigzag_round_trip(model.delta_x);
        message::lemma_after_varint::<Self>(
            start,
            Seq::<u8>::empty(),
            start,
            1,
            scalar::spec_zigzag(model.delta_x),
            at_delta_x,
            limit,
        );
        assert(Seq::<u8>::empty() + field::varint_field(1, scalar::spec_zigzag(model.delta_x))
            =~= field::varint_field(1, scalar::spec_zigzag(model.delta_x)));
        let w1 = field::varint_field(1, scalar::spec_zigzag(model.delta_x));
        let at_delta_y = PointerMotionTransition { delta_y: model.delta_y, ..at_delta_x };
        scalar::lemma_zigzag_round_trip(model.delta_y);
        message::lemma_after_varint::<Self>(
            start,
            w1,
            at_delta_x,
            2,
            scalar::spec_zigzag(model.delta_y),
            at_delta_y,
            limit,
        );
        assert(at_delta_y == model);
    }
}

/// An absolute pointer position.
#[derive(Clone, Copy, Debug, PartialEq, Eq, Structural)]
pub struct PointerPositionTransition {
    pub x: u32,
    pub y: u32,
}

impl View for PointerPositionTransition {
    type V = PointerPositionTransition;

    open spec fn view(&self) -> PointerPositionTransition {
        *self
    }
}

impl Default for PointerPositionTransition {
    fn default() -> (message: Self)
        ensures
            message@ == Self::initial(),
    {
        Self::empty()
    }
}

impl WireMessage for PointerPositionTransition {
    open spec fn initial() -> PointerPositionTransition {
        PointerPositionTransition { x: 0, y: 0 }
    }

    open spec fn wire(model: PointerPositionTransition) -> Seq<u8> {
        field::varint_field(1, model.x as u64)
            + field::varint_field(2, model.y as u64)
    }

    open spec fn merge(
        model: PointerPositionTransition,
        field: WireField,
        limit: nat,
    ) -> Option<PointerPositionTransition> {
        if field.tag == 1 {
            match field.value {
                WireValue::Varint(value) => Some(
                    PointerPositionTransition { x: value as u32, ..model },
                ),
                _ => None,
            }
        } else if field.tag == 2 {
            match field.value {
                WireValue::Varint(value) => Some(
                    PointerPositionTransition { y: value as u32, ..model },
                ),
                _ => None,
            }
        } else {
            Some(model)
        }
    }

    fn empty() -> (message: Self) {
        PointerPositionTransition { x: 0, y: 0 }
    }

    fn put(&self, out: &mut Vec<u8>) {
        broadcast use message::lemma_concatenation_associates;

        put_varint_field(out, 1, self.x as u64);
        put_varint_field(out, 2, self.y as u64);
    }

    fn take(&mut self, field: &Field<'_>, limit: u32) -> (accepted: bool) {
        if field.tag == 1 {
            match field.value {
                FieldValue::Varint(value) => {
                    self.x = value as u32;
                    true
                },
                _ => false,
            }
        } else if field.tag == 2 {
            match field.value {
                FieldValue::Varint(value) => {
                    self.y = value as u32;
                    true
                },
                _ => false,
            }
        } else {
            true
        }
    }
}

impl PointerPositionTransition {
    /// A written message is read back.
    pub proof fn lemma_round_trip(model: PointerPositionTransition, limit: nat)
        requires
            limit >= 1,
            Self::wire(model).len() <= u64::MAX,
        ensures
            message::merge_all::<Self>(Self::initial(), Self::wire(model), limit) == Some(model),
    {
        let start = Self::initial();
        let at_x = PointerPositionTransition { x: model.x, ..start };
        message::lemma_after_varint::<Self>(
            start,
            Seq::<u8>::empty(),
            start,
            1,
            model.x as u64,
            at_x,
            limit,
        );
        assert(Seq::<u8>::empty() + field::varint_field(1, model.x as u64)
            =~= field::varint_field(1, model.x as u64));
        let w1 = field::varint_field(1, model.x as u64);
        let at_y = PointerPositionTransition { y: model.y, ..at_x };
        message::lemma_after_varint::<Self>(start, w1, at_x, 2, model.y as u64, at_y, limit);
        assert(at_y == model);
    }
}

/// Wheel motion.
#[derive(Clone, Copy, Debug, PartialEq, Eq, Structural)]
pub struct WheelTransition {
    pub horizontal: i32,
    pub vertical: i32,
}

impl View for WheelTransition {
    type V = WheelTransition;

    open spec fn view(&self) -> WheelTransition {
        *self
    }
}

impl Default for WheelTransition {
    fn default() -> (message: Self)
        ensures
            message@ == Self::initial(),
    {
        Self::empty()
    }
}

impl WireMessage for WheelTransition {
    open spec fn initial() -> WheelTransition {
        WheelTransition { horizontal: 0, vertical: 0 }
    }

    open spec fn wire(model: WheelTransition) -> Seq<u8> {
        field::varint_field(1, scalar::spec_zigzag(model.horizontal))
            + field::varint_field(2, scalar::spec_zigzag(model.vertical))
    }

    open spec fn merge(
        model: WheelTransition,
        field: WireField,
        limit: nat,
    ) -> Option<WheelTransition> {
        if field.tag == 1 {
            match field.value {
                WireValue::Varint(value) => Some(
                    WheelTransition { horizontal: scalar::spec_unzigzag(value), ..model },
                ),
                _ => None,
            }
        } else if field.tag == 2 {
            match field.value {
                WireValue::Varint(value) => Some(
                    WheelTransition { vertical: scalar::spec_unzigzag(value), ..model },
                ),
                _ => None,
            }
        } else {
            Some(model)
        }
    }

    fn empty() -> (message: Self) {
        WheelTransition { horizontal: 0, vertical: 0 }
    }

    fn put(&self, out: &mut Vec<u8>) {
        broadcast use message::lemma_concatenation_associates;

        put_varint_field(out, 1, scalar::zigzag(self.horizontal));
        put_varint_field(out, 2, scalar::zigzag(self.vertical));
    }

    fn take(&mut self, field: &Field<'_>, limit: u32) -> (accepted: bool) {
        if field.tag == 1 {
            match field.value {
                FieldValue::Varint(value) => {
                    self.horizontal = scalar::unzigzag(value);
                    true
                },
                _ => false,
            }
        } else if field.tag == 2 {
            match field.value {
                FieldValue::Varint(value) => {
                    self.vertical = scalar::unzigzag(value);
                    true
                },
                _ => false,
            }
        } else {
            true
        }
    }
}

impl WheelTransition {
    /// A written message is read back.
    pub proof fn lemma_round_trip(model: WheelTransition, limit: nat)
        requires
            limit >= 1,
            Self::wire(model).len() <= u64::MAX,
        ensures
            message::merge_all::<Self>(Self::initial(), Self::wire(model), limit) == Some(model),
    {
        let start = Self::initial();
        let at_horizontal = WheelTransition { horizontal: model.horizontal, ..start };
        scalar::lemma_zigzag_round_trip(model.horizontal);
        message::lemma_after_varint::<Self>(
            start,
            Seq::<u8>::empty(),
            start,
            1,
            scalar::spec_zigzag(model.horizontal),
            at_horizontal,
            limit,
        );
        assert(Seq::<u8>::empty() + field::varint_field(1, scalar::spec_zigzag(model.horizontal))
            =~= field::varint_field(1, scalar::spec_zigzag(model.horizontal)));
        let w1 = field::varint_field(1, scalar::spec_zigzag(model.horizontal));
        let at_vertical = WheelTransition { vertical: model.vertical, ..at_horizontal };
        scalar::lemma_zigzag_round_trip(model.vertical);
        message::lemma_after_varint::<Self>(
            start,
            w1,
            at_horizontal,
            2,
            scalar::spec_zigzag(model.vertical),
            at_vertical,
            limit,
        );
        assert(at_vertical == model);
    }
}

/// A change of pointer mode, by its number.
#[derive(Clone, Copy, Debug, PartialEq, Eq, Structural)]
pub struct PointerModeTransition {
    pub mode: i32,
}

impl View for PointerModeTransition {
    type V = PointerModeTransition;

    open spec fn view(&self) -> PointerModeTransition {
        *self
    }
}

impl Default for PointerModeTransition {
    fn default() -> (message: Self)
        ensures
            message@ == Self::initial(),
    {
        Self::empty()
    }
}

impl WireMessage for PointerModeTransition {
    open spec fn initial() -> PointerModeTransition {
        PointerModeTransition { mode: 0 }
    }

    open spec fn wire(model: PointerModeTransition) -> Seq<u8> {
        field::varint_field(1, scalar::spec_int32_number(model.mode))
    }

    open spec fn merge(
        model: PointerModeTransition,
        field: WireField,
        limit: nat,
    ) -> Option<PointerModeTransition> {
        if field.tag == 1 {
            match field.value {
                WireValue::Varint(value) => Some(
                    PointerModeTransition { mode: scalar::spec_int32_value(value) },
                ),
                _ => None,
            }
        } else {
            Some(model)
        }
    }

    fn empty() -> (message: Self) {
        PointerModeTransition { mode: 0 }
    }

    fn put(&self, out: &mut Vec<u8>) {
        put_varint_field(out, 1, scalar::int32_number(self.mode));
    }

    fn take(&mut self, field: &Field<'_>, limit: u32) -> (accepted: bool) {
        if field.tag == 1 {
            match field.value {
                FieldValue::Varint(value) => {
                    self.mode = scalar::int32_value(value);
                    true
                },
                _ => false,
            }
        } else {
            true
        }
    }
}

impl PointerModeTransition {
    /// A written message is read back.
    pub proof fn lemma_round_trip(model: PointerModeTransition, limit: nat)
        requires
            limit >= 1,
            Self::wire(model).len() <= u64::MAX,
        ensures
            message::merge_all::<Self>(Self::initial(), Self::wire(model), limit) == Some(model),
    {
        let start = Self::initial();
        let at_mode = PointerModeTransition { mode: model.mode };
        scalar::lemma_int32_round_trip(model.mode);
        message::lemma_after_varint::<Self>(
            start,
            Seq::<u8>::empty(),
            start,
            1,
            scalar::spec_int32_number(model.mode),
            at_mode,
            limit,
        );
        assert(Seq::<u8>::empty() + field::varint_field(1, scalar::spec_int32_number(model.mode))
            =~= field::varint_field(1, scalar::spec_int32_number(model.mode)));
        assert(at_mode == model);
    }
}

/// Release everything that is held.
#[derive(Clone, Copy, Debug, PartialEq, Eq, Structural)]
pub struct ReleaseAll {}

impl View for ReleaseAll {
    type V = ReleaseAll;

    open spec fn view(&self) -> ReleaseAll {
        *self
    }
}

impl Default for ReleaseAll {
    fn default() -> (message: Self)
        ensures
            message@ == Self::initial(),
    {
        Self::empty()
    }
}

impl WireMessage for ReleaseAll {
    open spec fn initial() -> ReleaseAll {
        ReleaseAll {}
    }

    open spec fn wire(model: ReleaseAll) -> Seq<u8> {
        Seq::empty()
    }

    open spec fn merge(model: ReleaseAll, field: WireField, limit: nat) -> Option<ReleaseAll> {
        Some(model)
    }

    fn empty() -> (message: Self) {
        ReleaseAll {}
    }

    fn put(&self, out: &mut Vec<u8>) {
        assert(out@ =~= old(out)@ + Self::wire(self@));
    }

    fn take(&mut self, field: &Field<'_>, limit: u32) -> (accepted: bool) {
        true
    }
}

impl ReleaseAll {
    /// A written message is read back.
    pub proof fn lemma_round_trip(model: ReleaseAll, limit: nat)
        requires
            limit >= 1,
            Self::wire(model).len() <= u64::MAX,
        ensures
            message::merge_all::<Self>(Self::initial(), Self::wire(model), limit) == Some(model),
    {
    }
}

/// What the host has done with the input it received.
#[derive(Clone, Copy, Debug, PartialEq, Eq, Structural)]
pub struct InputAck {
    pub generation: u64,
    pub through_sequence: u64,
    pub player_sent_at_micros: u64,
    pub host_received_at_micros: u64,
    pub host_submitted_at_micros: u64,
    pub pointer_datagrams_received: u64,
    pub pointer_updates_applied: u64,
    pub pointer_updates_ignored: u64,
    pub mouse_reports_published: u64,
    pub keyboard_reports_published: u64,
    pub reliable_transitions_received: u64,
    pub reliable_transitions_applied: u64,
    pub reliable_transitions_rejected: u64,
    pub reliable_transitions_missing: u64,
    pub reliable_transitions_duplicate_or_late: u64,
    pub release_all_transitions: u64,
    pub pointer_missing_datagrams: u64,
    pub pointer_stale_generations: u64,
    pub pointer_duplicate_or_late: u64,
    pub pointer_mode_rejections: u64,
    pub pointer_relative_baselines: u64,
}

impl View for InputAck {
    type V = InputAck;

    open spec fn view(&self) -> InputAck {
        *self
    }
}

impl Default for InputAck {
    fn default() -> (message: Self)
        ensures
            message@ == Self::initial(),
    {
        Self::empty()
    }
}

impl WireMessage for InputAck {
    open spec fn initial() -> InputAck {
        InputAck {
            generation: 0,
            through_sequence: 0,
            player_sent_at_micros: 0,
            host_received_at_micros: 0,
            host_submitted_at_micros: 0,
            pointer_datagrams_received: 0,
            pointer_updates_applied: 0,
            pointer_updates_ignored: 0,
            mouse_reports_published: 0,
            keyboard_reports_published: 0,
            reliable_transitions_received: 0,
            reliable_transitions_applied: 0,
            reliable_transitions_rejected: 0,
            reliable_transitions_missing: 0,
            reliable_transitions_duplicate_or_late: 0,
            release_all_transitions: 0,
            pointer_missing_datagrams: 0,
            pointer_stale_generations: 0,
            pointer_duplicate_or_late: 0,
            pointer_mode_rejections: 0,
            pointer_relative_baselines: 0,
        }
    }

    open spec fn wire(model: InputAck) -> Seq<u8> {
        field::varint_field(1, model.generation)
            + field::varint_field(2, model.through_sequence)
            + field::varint_field(3, model.player_sent_at_micros)
            + field::varint_field(4, model.host_received_at_micros)
            + field::varint_field(5, model.host_submitted_at_micros)
            + field::varint_field(6, model.pointer_datagrams_received)
            + field::varint_field(7, model.pointer_updates_applied)
            + field::varint_field(8, model.pointer_updates_ignored)
            + field::varint_field(9, model.mouse_reports_published)
            + field::varint_field(10, model.keyboard_reports_published)
            + field::varint_field(11, model.reliable_transitions_received)
            + field::varint_field(12, model.reliable_transitions_applied)
            + field::varint_field(13, model.reliable_transitions_rejected)
            + field::varint_field(14, model.reliable_transitions_missing)
            + field::varint_field(15, model.reliable_transitions_duplicate_or_late)
            + field::varint_field(16, model.release_all_transitions)
            + field::varint_field(17, model.pointer_missing_datagrams)
            + field::varint_field(18, model.pointer_stale_generations)
            + field::varint_field(19, model.pointer_duplicate_or_late)
            + field::varint_field(20, model.pointer_mode_rejections)
            + field::varint_field(21, model.pointer_relative_baselines)
    }

    open spec fn merge(model: InputAck, field: WireField, limit: nat) -> Option<InputAck> {
        if field.tag == 1 {
            match field.value {
                WireValue::Varint(value) => Some(InputAck { generation: value, ..model }),
                _ => None,
            }
        } else if field.tag == 2 {
            match field.value {
                WireValue::Varint(value) => Some(InputAck { through_sequence: value, ..model }),
                _ => None,
            }
        } else if field.tag == 3 {
            match field.value {
                WireValue::Varint(value) => Some(
                    InputAck { player_sent_at_micros: value, ..model },
                ),
                _ => None,
            }
        } else if field.tag == 4 {
            match field.value {
                WireValue::Varint(value) => Some(
                    InputAck { host_received_at_micros: value, ..model },
                ),
                _ => None,
            }
        } else if field.tag == 5 {
            match field.value {
                WireValue::Varint(value) => Some(
                    InputAck { host_submitted_at_micros: value, ..model },
                ),
                _ => None,
            }
        } else if field.tag == 6 {
            match field.value {
                WireValue::Varint(value) => Some(
                    InputAck { pointer_datagrams_received: value, ..model },
                ),
                _ => None,
            }
        } else if field.tag == 7 {
            match field.value {
                WireValue::Varint(value) => Some(
                    InputAck { pointer_updates_applied: value, ..model },
                ),
                _ => None,
            }
        } else if field.tag == 8 {
            match field.value {
                WireValue::Varint(value) => Some(
                    InputAck { pointer_updates_ignored: value, ..model },
                ),
                _ => None,
            }
        } else if field.tag == 9 {
            match field.value {
                WireValue::Varint(value) => Some(
                    InputAck { mouse_reports_published: value, ..model },
                ),
                _ => None,
            }
        } else if field.tag == 10 {
            match field.value {
                WireValue::Varint(value) => Some(
                    InputAck { keyboard_reports_published: value, ..model },
                ),
                _ => None,
            }
        } else if field.tag == 11 {
            match field.value {
                WireValue::Varint(value) => Some(
                    InputAck { reliable_transitions_received: value, ..model },
                ),
                _ => None,
            }
        } else if field.tag == 12 {
            match field.value {
                WireValue::Varint(value) => Some(
                    InputAck { reliable_transitions_applied: value, ..model },
                ),
                _ => None,
            }
        } else if field.tag == 13 {
            match field.value {
                WireValue::Varint(value) => Some(
                    InputAck { reliable_transitions_rejected: value, ..model },
                ),
                _ => None,
            }
        } else if field.tag == 14 {
            match field.value {
                WireValue::Varint(value) => Some(
                    InputAck { reliable_transitions_missing: value, ..model },
                ),
                _ => None,
            }
        } else if field.tag == 15 {
            match field.value {
                WireValue::Varint(value) => Some(
                    InputAck { reliable_transitions_duplicate_or_late: value, ..model },
                ),
                _ => None,
            }
        } else if field.tag == 16 {
            match field.value {
                WireValue::Varint(value) => Some(
                    InputAck { release_all_transitions: value, ..model },
                ),
                _ => None,
            }
        } else if field.tag == 17 {
            match field.value {
                WireValue::Varint(value) => Some(
                    InputAck { pointer_missing_datagrams: value, ..model },
                ),
                _ => None,
            }
        } else if field.tag == 18 {
            match field.value {
                WireValue::Varint(value) => Some(
                    InputAck { pointer_stale_generations: value, ..model },
                ),
                _ => None,
            }
        } else if field.tag == 19 {
            match field.value {
                WireValue::Varint(value) => Some(
                    InputAck { pointer_duplicate_or_late: value, ..model },
                ),
                _ => None,
            }
        } else if field.tag == 20 {
            match field.value {
                WireValue::Varint(value) => Some(
                    InputAck { pointer_mode_rejections: value, ..model },
                ),
                _ => None,
            }
        } else if field.tag == 21 {
            match field.value {
                WireValue::Varint(value) => Some(
                    InputAck { pointer_relative_baselines: value, ..model },
                ),
                _ => None,
            }
        } else {
            Some(model)
        }
    }

    fn empty() -> (message: Self) {
        InputAck {
            generation: 0,
            through_sequence: 0,
            player_sent_at_micros: 0,
            host_received_at_micros: 0,
            host_submitted_at_micros: 0,
            pointer_datagrams_received: 0,
            pointer_updates_applied: 0,
            pointer_updates_ignored: 0,
            mouse_reports_published: 0,
            keyboard_reports_published: 0,
            reliable_transitions_received: 0,
            reliable_transitions_applied: 0,
            reliable_transitions_rejected: 0,
            reliable_transitions_missing: 0,
            reliable_transitions_duplicate_or_late: 0,
            release_all_transitions: 0,
            pointer_missing_datagrams: 0,
            pointer_stale_generations: 0,
            pointer_duplicate_or_late: 0,
            pointer_mode_rejections: 0,
            pointer_relative_baselines: 0,
        }
    }

    fn put(&self, out: &mut Vec<u8>) {
        broadcast use message::lemma_concatenation_associates;

        put_varint_field(out, 1, self.generation);
        put_varint_field(out, 2, self.through_sequence);
        put_varint_field(out, 3, self.player_sent_at_micros);
        put_varint_field(out, 4, self.host_received_at_micros);
        put_varint_field(out, 5, self.host_submitted_at_micros);
        put_varint_field(out, 6, self.pointer_datagrams_received);
        put_varint_field(out, 7, self.pointer_updates_applied);
        put_varint_field(out, 8, self.pointer_updates_ignored);
        put_varint_field(out, 9, self.mouse_reports_published);
        put_varint_field(out, 10, self.keyboard_reports_published);
        put_varint_field(out, 11, self.reliable_transitions_received);
        put_varint_field(out, 12, self.reliable_transitions_applied);
        put_varint_field(out, 13, self.reliable_transitions_rejected);
        put_varint_field(out, 14, self.reliable_transitions_missing);
        put_varint_field(out, 15, self.reliable_transitions_duplicate_or_late);
        put_varint_field(out, 16, self.release_all_transitions);
        put_varint_field(out, 17, self.pointer_missing_datagrams);
        put_varint_field(out, 18, self.pointer_stale_generations);
        put_varint_field(out, 19, self.pointer_duplicate_or_late);
        put_varint_field(out, 20, self.pointer_mode_rejections);
        put_varint_field(out, 21, self.pointer_relative_baselines);
    }

    fn take(&mut self, field: &Field<'_>, limit: u32) -> (accepted: bool) {
        if field.tag == 1 {
            match field.value {
                FieldValue::Varint(value) => {
                    self.generation = value;
                    true
                },
                _ => false,
            }
        } else if field.tag == 2 {
            match field.value {
                FieldValue::Varint(value) => {
                    self.through_sequence = value;
                    true
                },
                _ => false,
            }
        } else if field.tag == 3 {
            match field.value {
                FieldValue::Varint(value) => {
                    self.player_sent_at_micros = value;
                    true
                },
                _ => false,
            }
        } else if field.tag == 4 {
            match field.value {
                FieldValue::Varint(value) => {
                    self.host_received_at_micros = value;
                    true
                },
                _ => false,
            }
        } else if field.tag == 5 {
            match field.value {
                FieldValue::Varint(value) => {
                    self.host_submitted_at_micros = value;
                    true
                },
                _ => false,
            }
        } else if field.tag == 6 {
            match field.value {
                FieldValue::Varint(value) => {
                    self.pointer_datagrams_received = value;
                    true
                },
                _ => false,
            }
        } else if field.tag == 7 {
            match field.value {
                FieldValue::Varint(value) => {
                    self.pointer_updates_applied = value;
                    true
                },
                _ => false,
            }
        } else if field.tag == 8 {
            match field.value {
                FieldValue::Varint(value) => {
                    self.pointer_updates_ignored = value;
                    true
                },
                _ => false,
            }
        } else if field.tag == 9 {
            match field.value {
                FieldValue::Varint(value) => {
                    self.mouse_reports_published = value;
                    true
                },
                _ => false,
            }
        } else if field.tag == 10 {
            match field.value {
                FieldValue::Varint(value) => {
                    self.keyboard_reports_published = value;
                    true
                },
                _ => false,
            }
        } else if field.tag == 11 {
            match field.value {
                FieldValue::Varint(value) => {
                    self.reliable_transitions_received = value;
                    true
                },
                _ => false,
            }
        } else if field.tag == 12 {
            match field.value {
                FieldValue::Varint(value) => {
                    self.reliable_transitions_applied = value;
                    true
                },
                _ => false,
            }
        } else if field.tag == 13 {
            match field.value {
                FieldValue::Varint(value) => {
                    self.reliable_transitions_rejected = value;
                    true
                },
                _ => false,
            }
        } else if field.tag == 14 {
            match field.value {
                FieldValue::Varint(value) => {
                    self.reliable_transitions_missing = value;
                    true
                },
                _ => false,
            }
        } else if field.tag == 15 {
            match field.value {
                FieldValue::Varint(value) => {
                    self.reliable_transitions_duplicate_or_late = value;
                    true
                },
                _ => false,
            }
        } else if field.tag == 16 {
            match field.value {
                FieldValue::Varint(value) => {
                    self.release_all_transitions = value;
                    true
                },
                _ => false,
            }
        } else if field.tag == 17 {
            match field.value {
                FieldValue::Varint(value) => {
                    self.pointer_missing_datagrams = value;
                    true
                },
                _ => false,
            }
        } else if field.tag == 18 {
            match field.value {
                FieldValue::Varint(value) => {
                    self.pointer_stale_generations = value;
                    true
                },
                _ => false,
            }
        } else if field.tag == 19 {
            match field.value {
                FieldValue::Varint(value) => {
                    self.pointer_duplicate_or_late = value;
                    true
                },
                _ => false,
            }
        } else if field.tag == 20 {
            match field.value {
                FieldValue::Varint(value) => {
                    self.pointer_mode_rejections = value;
                    true
                },
                _ => false,
            }
        } else if field.tag == 21 {
            match field.value {
                FieldValue::Varint(value) => {
                    self.pointer_relative_baselines = value;
                    true
                },
                _ => false,
            }
        } else {
            true
        }
    }
}

impl InputAck {
    /// A written message is read back.
    pub proof fn lemma_round_trip(model: InputAck, limit: nat)
        requires
            limit >= 1,
            Self::wire(model).len() <= u64::MAX,
        ensures
            message::merge_all::<Self>(Self::initial(), Self::wire(model), limit) == Some(model),
    {
        let start = Self::initial();
        let at_generation = InputAck { generation: model.generation, ..start };
        message::lemma_after_varint::<Self>(
            start,
            Seq::<u8>::empty(),
            start,
            1,
            model.generation,
            at_generation,
            limit,
        );
        assert(Seq::<u8>::empty() + field::varint_field(1, model.generation)
            =~= field::varint_field(1, model.generation));
        let w1 = field::varint_field(1, model.generation);
        let at_through_sequence = InputAck {
            through_sequence: model.through_sequence,
            ..at_generation
        };
        message::lemma_after_varint::<Self>(
            start,
            w1,
            at_generation,
            2,
            model.through_sequence,
            at_through_sequence,
            limit,
        );
        let w2 = w1 + field::varint_field(2, model.through_sequence);
        let at_player_sent_at_micros = InputAck {
            player_sent_at_micros: model.player_sent_at_micros,
            ..at_through_sequence
        };
        message::lemma_after_varint::<Self>(
            start,
            w2,
            at_through_sequence,
            3,
            model.player_sent_at_micros,
            at_player_sent_at_micros,
            limit,
        );
        let w3 = w2 + field::varint_field(3, model.player_sent_at_micros);
        let at_host_received_at_micros = InputAck {
            host_received_at_micros: model.host_received_at_micros,
            ..at_player_sent_at_micros
        };
        message::lemma_after_varint::<Self>(
            start,
            w3,
            at_player_sent_at_micros,
            4,
            model.host_received_at_micros,
            at_host_received_at_micros,
            limit,
        );
        let w4 = w3 + field::varint_field(4, model.host_received_at_micros);
        let at_host_submitted_at_micros = InputAck {
            host_submitted_at_micros: model.host_submitted_at_micros,
            ..at_host_received_at_micros
        };
        message::lemma_after_varint::<Self>(
            start,
            w4,
            at_host_received_at_micros,
            5,
            model.host_submitted_at_micros,
            at_host_submitted_at_micros,
            limit,
        );
        let w5 = w4 + field::varint_field(5, model.host_submitted_at_micros);
        let at_pointer_datagrams_received = InputAck {
            pointer_datagrams_received: model.pointer_datagrams_received,
            ..at_host_submitted_at_micros
        };
        message::lemma_after_varint::<Self>(
            start,
            w5,
            at_host_submitted_at_micros,
            6,
            model.pointer_datagrams_received,
            at_pointer_datagrams_received,
            limit,
        );
        let w6 = w5 + field::varint_field(6, model.pointer_datagrams_received);
        let at_pointer_updates_applied = InputAck {
            pointer_updates_applied: model.pointer_updates_applied,
            ..at_pointer_datagrams_received
        };
        message::lemma_after_varint::<Self>(
            start,
            w6,
            at_pointer_datagrams_received,
            7,
            model.pointer_updates_applied,
            at_pointer_updates_applied,
            limit,
        );
        let w7 = w6 + field::varint_field(7, model.pointer_updates_applied);
        let at_pointer_updates_ignored = InputAck {
            pointer_updates_ignored: model.pointer_updates_ignored,
            ..at_pointer_updates_applied
        };
        message::lemma_after_varint::<Self>(
            start,
            w7,
            at_pointer_updates_applied,
            8,
            model.pointer_updates_ignored,
            at_pointer_updates_ignored,
            limit,
        );
        let w8 = w7 + field::varint_field(8, model.pointer_updates_ignored);
        let at_mouse_reports_published = InputAck {
            mouse_reports_published: model.mouse_reports_published,
            ..at_pointer_updates_ignored
        };
        message::lemma_after_varint::<Self>(
            start,
            w8,
            at_pointer_updates_ignored,
            9,
            model.mouse_reports_published,
            at_mouse_reports_published,
            limit,
        );
        let w9 = w8 + field::varint_field(9, model.mouse_reports_published);
        let at_keyboard_reports_published = InputAck {
            keyboard_reports_published: model.keyboard_reports_published,
            ..at_mouse_reports_published
        };
        message::lemma_after_varint::<Self>(
            start,
            w9,
            at_mouse_reports_published,
            10,
            model.keyboard_reports_published,
            at_keyboard_reports_published,
            limit,
        );
        let w10 = w9 + field::varint_field(10, model.keyboard_reports_published);
        let at_reliable_transitions_received = InputAck {
            reliable_transitions_received: model.reliable_transitions_received,
            ..at_keyboard_reports_published
        };
        message::lemma_after_varint::<Self>(
            start,
            w10,
            at_keyboard_reports_published,
            11,
            model.reliable_transitions_received,
            at_reliable_transitions_received,
            limit,
        );
        let w11 = w10 + field::varint_field(11, model.reliable_transitions_received);
        let at_reliable_transitions_applied = InputAck {
            reliable_transitions_applied: model.reliable_transitions_applied,
            ..at_reliable_transitions_received
        };
        message::lemma_after_varint::<Self>(
            start,
            w11,
            at_reliable_transitions_received,
            12,
            model.reliable_transitions_applied,
            at_reliable_transitions_applied,
            limit,
        );
        let w12 = w11 + field::varint_field(12, model.reliable_transitions_applied);
        let at_reliable_transitions_rejected = InputAck {
            reliable_transitions_rejected: model.reliable_transitions_rejected,
            ..at_reliable_transitions_applied
        };
        message::lemma_after_varint::<Self>(
            start,
            w12,
            at_reliable_transitions_applied,
            13,
            model.reliable_transitions_rejected,
            at_reliable_transitions_rejected,
            limit,
        );
        let w13 = w12 + field::varint_field(13, model.reliable_transitions_rejected);
        let at_reliable_transitions_missing = InputAck {
            reliable_transitions_missing: model.reliable_transitions_missing,
            ..at_reliable_transitions_rejected
        };
        message::lemma_after_varint::<Self>(
            start,
            w13,
            at_reliable_transitions_rejected,
            14,
            model.reliable_transitions_missing,
            at_reliable_transitions_missing,
            limit,
        );
        let w14 = w13 + field::varint_field(14, model.reliable_transitions_missing);
        let at_reliable_transitions_duplicate_or_late = InputAck {
            reliable_transitions_duplicate_or_late: model.reliable_transitions_duplicate_or_late,
            ..at_reliable_transitions_missing
        };
        message::lemma_after_varint::<Self>(
            start,
            w14,
            at_reliable_transitions_missing,
            15,
            model.reliable_transitions_duplicate_or_late,
            at_reliable_transitions_duplicate_or_late,
            limit,
        );
        let w15 = w14 + field::varint_field(15, model.reliable_transitions_duplicate_or_late);
        let at_release_all_transitions = InputAck {
            release_all_transitions: model.release_all_transitions,
            ..at_reliable_transitions_duplicate_or_late
        };
        message::lemma_after_varint::<Self>(
            start,
            w15,
            at_reliable_transitions_duplicate_or_late,
            16,
            model.release_all_transitions,
            at_release_all_transitions,
            limit,
        );
        let w16 = w15 + field::varint_field(16, model.release_all_transitions);
        let at_pointer_missing_datagrams = InputAck {
            pointer_missing_datagrams: model.pointer_missing_datagrams,
            ..at_release_all_transitions
        };
        message::lemma_after_varint::<Self>(
            start,
            w16,
            at_release_all_transitions,
            17,
            model.pointer_missing_datagrams,
            at_pointer_missing_datagrams,
            limit,
        );
        let w17 = w16 + field::varint_field(17, model.pointer_missing_datagrams);
        let at_pointer_stale_generations = InputAck {
            pointer_stale_generations: model.pointer_stale_generations,
            ..at_pointer_missing_datagrams
        };
        message::lemma_after_varint::<Self>(
            start,
            w17,
            at_pointer_missing_datagrams,
            18,
            model.pointer_stale_generations,
            at_pointer_stale_generations,
            limit,
        );
        let w18 = w17 + field::varint_field(18, model.pointer_stale_generations);
        let at_pointer_duplicate_or_late = InputAck {
            pointer_duplicate_or_late: model.pointer_duplicate_or_late,
            ..at_pointer_stale_generations
        };
        message::lemma_after_varint::<Self>(
            start,
            w18,
            at_pointer_stale_generations,
            19,
            model.pointer_duplicate_or_late,
            at_pointer_duplicate_or_late,
            limit,
        );
        let w19 = w18 + field::varint_field(19, model.pointer_duplicate_or_late);
        let at_pointer_mode_rejections = InputAck {
            pointer_mode_rejections: model.pointer_mode_rejections,
            ..at_pointer_duplicate_or_late
        };
        message::lemma_after_varint::<Self>(
            start,
            w19,
            at_pointer_duplicate_or_late,
            20,
            model.pointer_mode_rejections,
            at_pointer_mode_rejections,
            limit,
        );
        let w20 = w19 + field::varint_field(20, model.pointer_mode_rejections);
        let at_pointer_relative_baselines = InputAck {
            pointer_relative_baselines: model.pointer_relative_baselines,
            ..at_pointer_mode_rejections
        };
        message::lemma_after_varint::<Self>(
            start,
            w20,
            at_pointer_mode_rejections,
            21,
            model.pointer_relative_baselines,
            at_pointer_relative_baselines,
            limit,
        );
        assert(at_pointer_relative_baselines == model);
    }
}

/// The keyboard lights of the host.
#[derive(Clone, Copy, Debug, PartialEq, Eq, Structural)]
pub struct KeyboardLeds {
    pub generation: u64,
    pub sequence: u64,
    pub mask: u32,
}

impl View for KeyboardLeds {
    type V = KeyboardLeds;

    open spec fn view(&self) -> KeyboardLeds {
        *self
    }
}

impl Default for KeyboardLeds {
    fn default() -> (message: Self)
        ensures
            message@ == Self::initial(),
    {
        Self::empty()
    }
}

impl WireMessage for KeyboardLeds {
    open spec fn initial() -> KeyboardLeds {
        KeyboardLeds { generation: 0, sequence: 0, mask: 0 }
    }

    open spec fn wire(model: KeyboardLeds) -> Seq<u8> {
        field::varint_field(1, model.generation)
            + field::varint_field(2, model.sequence)
            + field::varint_field(3, model.mask as u64)
    }

    open spec fn merge(model: KeyboardLeds, field: WireField, limit: nat) -> Option<KeyboardLeds> {
        if field.tag == 1 {
            match field.value {
                WireValue::Varint(value) => Some(KeyboardLeds { generation: value, ..model }),
                _ => None,
            }
        } else if field.tag == 2 {
            match field.value {
                WireValue::Varint(value) => Some(KeyboardLeds { sequence: value, ..model }),
                _ => None,
            }
        } else if field.tag == 3 {
            match field.value {
                WireValue::Varint(value) => Some(KeyboardLeds { mask: value as u32, ..model }),
                _ => None,
            }
        } else {
            Some(model)
        }
    }

    fn empty() -> (message: Self) {
        KeyboardLeds { generation: 0, sequence: 0, mask: 0 }
    }

    fn put(&self, out: &mut Vec<u8>) {
        broadcast use message::lemma_concatenation_associates;

        put_varint_field(out, 1, self.generation);
        put_varint_field(out, 2, self.sequence);
        put_varint_field(out, 3, self.mask as u64);
    }

    fn take(&mut self, field: &Field<'_>, limit: u32) -> (accepted: bool) {
        if field.tag == 1 {
            match field.value {
                FieldValue::Varint(value) => {
                    self.generation = value;
                    true
                },
                _ => false,
            }
        } else if field.tag == 2 {
            match field.value {
                FieldValue::Varint(value) => {
                    self.sequence = value;
                    true
                },
                _ => false,
            }
        } else if field.tag == 3 {
            match field.value {
                FieldValue::Varint(value) => {
                    self.mask = value as u32;
                    true
                },
                _ => false,
            }
        } else {
            true
        }
    }
}

impl KeyboardLeds {
    /// A written message is read back.
    pub proof fn lemma_round_trip(model: KeyboardLeds, limit: nat)
        requires
            limit >= 1,
            Self::wire(model).len() <= u64::MAX,
        ensures
            message::merge_all::<Self>(Self::initial(), Self::wire(model), limit) == Some(model),
    {
        let start = Self::initial();
        let at_generation = KeyboardLeds { generation: model.generation, ..start };
        message::lemma_after_varint::<Self>(
            start,
            Seq::<u8>::empty(),
            start,
            1,
            model.generation,
            at_generation,
            limit,
        );
        assert(Seq::<u8>::empty() + field::varint_field(1, model.generation)
            =~= field::varint_field(1, model.generation));
        let w1 = field::varint_field(1, model.generation);
        let at_sequence = KeyboardLeds { sequence: model.sequence, ..at_generation };
        message::lemma_after_varint::<Self>(
            start,
            w1,
            at_generation,
            2,
            model.sequence,
            at_sequence,
            limit,
        );
        let w2 = w1 + field::varint_field(2, model.sequence);
        let at_mask = KeyboardLeds { mask: model.mask, ..at_sequence };
        message::lemma_after_varint::<Self>(
            start,
            w2,
            at_sequence,
            3,
            model.mask as u64,
            at_mask,
            limit,
        );
        assert(at_mask == model);
    }
}

} // verus!
