//! Pointer snapshots in datagrams.

use rustconsole::session::input_datagram::{
    PointerSnapshot, PointerSnapshotReceiver, PointerUpdate,
};

#[test]
fn snapshots_round_trip() {
    for snapshot in [
        PointerSnapshot::Absolute {
            generation: 4,
            sequence: 9,
            x: 0,
            y: 32767,
        },
        PointerSnapshot::Relative {
            generation: 5,
            sequence: 10,
            cumulative_x: -7,
            cumulative_y: 12,
        },
    ] {
        assert_eq!(PointerSnapshot::decode(&snapshot.encode()), Ok(snapshot));
    }
}

#[test]
fn rejects_wrong_size_magic_version_kind_and_absolute_padding() {
    let mut bytes = PointerSnapshot::Absolute {
        generation: 1,
        sequence: 1,
        x: 2,
        y: 3,
    }
    .encode();
    assert!(PointerSnapshot::decode(&bytes[..31]).is_err());
    bytes[0] = 0;
    assert!(PointerSnapshot::decode(&bytes).is_err());
    bytes[0] = b'R';
    bytes[2] = 2;
    assert!(PointerSnapshot::decode(&bytes).is_err());
    bytes[2] = 1;
    bytes[3] = 9;
    assert!(PointerSnapshot::decode(&bytes).is_err());
    bytes[3] = 1;
    bytes[31] = 1;
    assert!(PointerSnapshot::decode(&bytes).is_err());
    bytes[31] = 0;
    bytes[20..22].copy_from_slice(&32768u16.to_be_bytes());
    assert!(PointerSnapshot::decode(&bytes).is_err());
}

#[test]
fn cumulative_relative_snapshots_recover_lost_datagrams() {
    let mut receiver = PointerSnapshotReceiver::default();
    assert_eq!(
        receiver
            .push(PointerSnapshot::Relative {
                generation: 1,
                sequence: 1,
                cumulative_x: 10,
                cumulative_y: -5,
            })
            .unwrap(),
        None
    );
    assert_eq!(
        receiver
            .push(PointerSnapshot::Relative {
                generation: 1,
                sequence: 3,
                cumulative_x: 19,
                cumulative_y: 7,
            })
            .unwrap(),
        Some(PointerUpdate::Relative {
            delta_x: 9,
            delta_y: 12,
        })
    );
    assert_eq!(
        receiver
            .push(PointerSnapshot::Relative {
                generation: 1,
                sequence: 2,
                cumulative_x: 11,
                cumulative_y: 0,
            })
            .unwrap(),
        None
    );
}

#[test]
fn generation_change_resets_relative_baseline() {
    let mut receiver = PointerSnapshotReceiver::default();
    for generation in [1, 2] {
        assert_eq!(
            receiver
                .push(PointerSnapshot::Relative {
                    generation,
                    sequence: 1,
                    cumulative_x: i64::MAX,
                    cumulative_y: i64::MIN,
                })
                .unwrap(),
            None
        );
    }
    assert_eq!(
        receiver
            .push(PointerSnapshot::Absolute {
                generation: 1,
                sequence: 99,
                x: 0,
                y: 0,
            })
            .unwrap(),
        None
    );
}
