//! Input on its way to the host.

use rustconsole::player::input_pipeline::encode_reliable_input;
use rustconsole::protocol::features::InputEvent;
use rustconsole::protocol::wire::{InputPack, Message};

#[test]
fn every_local_input_has_a_reliable_wire_action() {
    let events = [
        InputEvent::Key {
            hid_usage: 4,
            pressed: true,
        },
        InputEvent::ReleaseAll,
        InputEvent::PointerButton {
            button: 1,
            pressed: true,
        },
        InputEvent::PointerMotion {
            delta_x: -4,
            delta_y: 8,
        },
        InputEvent::PointerPosition { x: 10, y: 20 },
        InputEvent::Wheel {
            horizontal: -1,
            vertical: 2,
        },
    ];
    for (index, event) in events.into_iter().enumerate() {
        let transition = encode_reliable_input(event, 3, index as u64 + 1, 50);
        assert_eq!(transition.generation, 3);
        assert_eq!(transition.sequence, index as u64 + 1);
        assert!(transition.action.is_some());
    }
}

#[test]
fn local_input_survives_a_reliable_wire_round_trip() {
    let expected = encode_reliable_input(
        InputEvent::PointerMotion {
            delta_x: -17,
            delta_y: 23,
        },
        4,
        9,
        12_345,
    );
    let encoded = InputPack {
        transitions: vec![expected.clone()],
    }
    .encode_to_vec();
    let decoded = InputPack::decode(encoded.as_slice()).unwrap();
    assert_eq!(decoded.transitions, [expected]);
}
