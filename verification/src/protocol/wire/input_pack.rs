//! Packs of input transitions.

use super::field;
use super::field::{put_varint_field, Field, FieldValue, WireField, WireValue};
use super::message;
use super::message::{put_repeated, take_nested, WireMessage};
use super::input_transition;
use super::input_transition::{put_choice, take_choice, Action};
use vstd::prelude::*;

verus! {

/// One step of the player's input.
#[derive(Clone, Copy, Debug, PartialEq, Eq, Structural)]
pub struct InputTransition {
    pub generation: u64,
    pub sequence: u64,
    pub action: Option<Action>,
    pub player_sent_at_micros: u64,
}

impl View for InputTransition {
    type V = InputTransition;

    open spec fn view(&self) -> InputTransition {
        *self
    }
}

impl Default for InputTransition {
    fn default() -> (message: Self)
        ensures
            message@ == Self::initial(),
    {
        Self::empty()
    }
}

impl WireMessage for InputTransition {
    open spec fn initial() -> InputTransition {
        InputTransition { generation: 0, sequence: 0, action: None, player_sent_at_micros: 0 }
    }

    open spec fn wire(model: InputTransition) -> Seq<u8> {
        field::varint_field(1, model.generation)
            + field::varint_field(2, model.sequence)
            + input_transition::choice_bytes(model.action)
            + field::varint_field(8, model.player_sent_at_micros)
    }

    open spec fn merge(model: InputTransition, field: WireField, limit: nat) -> Option<
        InputTransition,
    > {
        if field.tag == 1 {
            match field.value {
                WireValue::Varint(value) => Some(InputTransition { generation: value, ..model }),
                _ => None,
            }
        } else if field.tag == 2 {
            match field.value {
                WireValue::Varint(value) => Some(InputTransition { sequence: value, ..model }),
                _ => None,
            }
        } else if field.tag == 8 {
            match field.value {
                WireValue::Varint(value) => Some(
                    InputTransition { player_sent_at_micros: value, ..model },
                ),
                _ => None,
            }
        } else if input_transition::is_choice_tag(field.tag) {
            match input_transition::merge_choice(model.action, field, limit) {
                Some(action) => Some(InputTransition { action: Some(action), ..model }),
                None => None,
            }
        } else {
            Some(model)
        }
    }

    fn empty() -> (message: Self) {
        InputTransition { generation: 0, sequence: 0, action: None, player_sent_at_micros: 0 }
    }

    fn put(&self, out: &mut Vec<u8>) {
        broadcast use message::lemma_concatenation_associates;

        put_varint_field(out, 1, self.generation);
        put_varint_field(out, 2, self.sequence);
        put_choice(out, &self.action);
        put_varint_field(out, 8, self.player_sent_at_micros);
    }

    fn take(&mut self, field: &Field<'_>, limit: u32) -> (accepted: bool) {
        if field.tag == 1 {
            match field.value {
                FieldValue::Varint(value) => {
                    self.generation = value;
                    true
                },
                _ => false,
            }
        } else if field.tag == 2 {
            match field.value {
                FieldValue::Varint(value) => {
                    self.sequence = value;
                    true
                },
                _ => false,
            }
        } else if field.tag == 8 {
            match field.value {
                FieldValue::Varint(value) => {
                    self.player_sent_at_micros = value;
                    true
                },
                _ => false,
            }
        } else if (3 <= field.tag && field.tag <= 7) || field.tag == 9 || field.tag == 10 {
            let mut action = self.action;
            let accepted = take_choice(&mut action, field, limit);
            self.action = action;
            accepted
        } else {
            true
        }
    }
}

impl InputTransition {
    /// A written message is read back.
    pub proof fn lemma_round_trip(model: InputTransition, limit: nat)
        requires
            limit >= 2,
            Self::wire(model).len() <= u64::MAX,
        ensures
            message::merge_all::<Self>(Self::initial(), Self::wire(model), limit) == Some(model),
    {
        let start = Self::initial();
        let at_generation = InputTransition { generation: model.generation, ..start };
        message::lemma_after_varint::<Self>(
            start,
            Seq::<u8>::empty(),
            start,
            1,
            model.generation,
            at_generation,
            limit,
        );
        let w1 = field::varint_field(1, model.generation);
        assert(Seq::<u8>::empty() + w1 =~= w1);
        let at_sequence = InputTransition { sequence: model.sequence, ..at_generation };
        message::lemma_after_varint::<Self>(
            start,
            w1,
            at_generation,
            2,
            model.sequence,
            at_sequence,
            limit,
        );
        let w2 = w1 + field::varint_field(2, model.sequence);
        let at_action = InputTransition { action: model.action, ..at_sequence };
        let w3 = w2 + input_transition::choice_bytes(model.action);
        match model.action {
            Some(action) => {
                input_transition::lemma_choice_round_trip(action, limit);
                let (tag, value) = choose|tag: u32, value: Seq<u8>|
                    #![trigger field::delimited_field(tag, value)]
                    {
                        &&& input_transition::is_choice_tag(tag)
                        &&& field::valid_tag(tag)
                        &&& value.len() <= u64::MAX
                        &&& input_transition::choice_bytes(Some(action)) == field::delimited_field(
                            tag,
                            value,
                        )
                        &&& input_transition::merge_choice(
                            None,
                            (WireField { tag, value: WireValue::Bytes(value) }),
                            limit,
                        ) == Some(action)
                    };
                message::lemma_after_delimited::<Self>(
                    start,
                    w2,
                    at_sequence,
                    tag,
                    value,
                    at_action,
                    limit,
                );
            },
            None => {
                assert(w3 =~= w2);
            },
        }
        message::lemma_after_varint::<Self>(
            start,
            w3,
            at_action,
            8,
            model.player_sent_at_micros,
            model,
            limit,
        );
    }
}

/// Transitions in the order they happened.
#[derive(Clone, Debug, PartialEq)]
pub struct InputPack {
    pub transitions: Vec<InputTransition>,
}

/// The contents of a [`InputPack`].
#[verifier::ext_equal]
pub struct InputPackModel {
    pub transitions: Seq<InputTransition>,
}

impl View for InputPack {
    type V = InputPackModel;

    open spec fn view(&self) -> InputPackModel {
        InputPackModel {
            transitions: self.transitions@.map_values(|item: InputTransition| item@),
        }
    }
}

impl Default for InputPack {
    fn default() -> (message: Self)
        ensures
            message@ == Self::initial(),
    {
        Self::empty()
    }
}

impl WireMessage for InputPack {
    open spec fn initial() -> InputPackModel {
        InputPackModel { transitions: Seq::empty() }
    }

    open spec fn wire(model: InputPackModel) -> Seq<u8> {
        message::repeated_field::<InputTransition>(1, model.transitions)
    }

    open spec fn merge(
        model: InputPackModel,
        field: WireField,
        limit: nat,
    ) -> Option<InputPackModel> {
        if field.tag == 1 {
            match message::merge_nested::<InputTransition>(
                InputTransition::initial(),
                field.value,
                limit,
            ) {
                Some(next) => Some(InputPackModel { transitions: model.transitions.push(next) }),
                None => None,
            }
        } else {
            Some(model)
        }
    }

    fn empty() -> (message: Self) {
        let message = InputPack { transitions: Vec::new() };
        assert(message.transitions@.map_values(|item: InputTransition| item@) =~= Seq::empty());
        message
    }

    fn put(&self, out: &mut Vec<u8>) {
        put_repeated(out, 1, &self.transitions);
    }

    fn take(&mut self, field: &Field<'_>, limit: u32) -> (accepted: bool) {
        if field.tag == 1 {
            let mut inner = InputTransition::empty();
            if take_nested(&mut inner, &field.value, limit) {
                let ghost models = self.transitions@.map_values(|item: InputTransition| item@);
                self.transitions.push(inner);
                assert(self.transitions@.map_values(|item: InputTransition| item@)
                    =~= models.push(inner@));
                true
            } else {
                false
            }
        } else {
            true
        }
    }
}

impl InputPack {
    /// A written message is read back.
    pub proof fn lemma_round_trip(model: InputPackModel, limit: nat)
        requires
            limit >= 3,
            Self::wire(model).len() <= u64::MAX,
        ensures
            message::merge_all::<Self>(Self::initial(), Self::wire(model), limit) == Some(model),
    {
        let start = Self::initial();
        let at_transitions = InputPackModel { transitions: model.transitions };
        let after_transitions = |count: int| InputPackModel {
            transitions: model.transitions.take(count),
        };
        assert(model.transitions.take(0) =~= Seq::empty());
        assert forall|index: int| 0 <= index < model.transitions.len() implies Self::merge(
            after_transitions(index),
            (
                WireField {
                    tag: 1,
                    value: WireValue::Bytes(
                        InputTransition::wire(#[trigger] model.transitions[index]),
                    ),
                }
            ),
            limit,
        ) == Some(after_transitions(index + 1)) by {
            message::lemma_repeated_item_size::<InputTransition>(1, model.transitions, index);
            InputTransition::lemma_round_trip(model.transitions[index], (limit - 1) as nat);
            assert(model.transitions.take(index).push(model.transitions[index])
                =~= model.transitions.take(index + 1));
        }
        assert(model.transitions.take(model.transitions.len() as int) =~= model.transitions);
        message::lemma_after_repeated::<Self, InputTransition>(
            start,
            Seq::<u8>::empty(),
            1,
            model.transitions,
            after_transitions,
            limit,
        );
        assert(Seq::<u8>::empty() + message::repeated_field::<InputTransition>(1, model.transitions)
            =~= message::repeated_field::<InputTransition>(1, model.transitions));
        assert(at_transitions =~= model);
    }
}

} // verus!
