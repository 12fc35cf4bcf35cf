//! The header of an audio fragment.

use rustconsole::protocol::audio::{HEADER_SIZE, Header};

#[test]
fn header_matches_fixed_network_fixture() {
    let h = Header {
        generation: 1,
        sequence: 2,
        captured_at_micros: 3,
        decoded_samples: 480,
        skip_start_samples: 312,
        skip_end_samples: 0,
        packet_size: 1,
        fragment_index: 0,
        fragment_count: 1,
        offset: 0,
        payload_size: 1,
    };
    let expected = [
        82, 65, 1, 2, 0, 0, 0, 0, 0, 0, 0, 1, 0, 0, 0, 0, 0, 0, 0, 2, 0, 0, 0, 0, 0, 0, 0, 3,
        0, 0, 187, 128, 1, 224, 1, 56, 0, 0, 0, 1, 0, 0, 0, 1, 0, 0, 0, 1,
    ];
    assert_eq!(h.encode().unwrap(), expected);
    let mut bytes = expected.to_vec();
    bytes.push(42);
    assert_eq!(Header::decode(&bytes).unwrap(), (h, &[42][..]));
    for index in [2, 3, 28, 38, 42, 46] {
        let mut bad = bytes.clone();
        bad[index] = 255;
        assert!(Header::decode(&bad).is_err());
    }
    assert!(Header::decode(&bytes[..HEADER_SIZE]).is_err());
}
