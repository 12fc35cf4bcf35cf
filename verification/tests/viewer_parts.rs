//! The parts of a viewer around the stream.

use rustconsole::player::audio_output::{
    AudioOutput, QueuedBytes, DEVICE_RETRY_NANOS, MAX_SDL_BYTES, PREBUFFER_BYTES, SAMPLE_RATE,
};
use rustconsole::player::audio_playback::AudioPlaybackQueueSnapshot;
use rustconsole::player::availability::{
    availability_probe, read_availability, AvailabilityFault, HostAvailability,
};
use rustconsole::player::clock::clock_offset;
use rustconsole::player::controls::{PlayerControls, PlayerGuiAction};
use rustconsole::player::discovery::{
    probe_timeout, probes_of, sort_endpoints, DiscoveredEndpoint, DiscoverySource,
    EndpointAddress, HostCandidate,
};
use rustconsole::player::host_key::host_identity_key;
use rustconsole::player::keyboard_leds::{KeyboardLedError, KeyboardLedReceiver};
use rustconsole::player::negotiation::{
    confirm, domain_capability, read_host_offer, select, viewer_offer, wire_capability,
    NegotiationFault, StreamOptions,
};
use rustconsole::player::one_frame::{
    announced_frame_size, checksum, read_trial_offer, require_dimensions, require_keyframe,
    stream_video, trial_capability, trial_offer, trial_selection, trial_settings, TrialFault,
    HEIGHT, WIDTH,
};
use rustconsole::player::process_protocol::{
    decode_command, decode_event, read_event, write_event, MessageFault, PlayerEvent,
    ProcessProtocolError, MAX_ERROR_SIZE,
};
use rustconsole::protocol::av1::{Av1NegotiationError, VideoBitDepth};
use rustconsole::protocol::wire::envelope::Body;
use rustconsole::protocol::wire::{
    ClockPong, EncodedVideoPacket, Envelope, HostOperatingSystem, KeyboardLeds,
    SessionAvailabilityResult,
};
use rustconsole::session::authentication::HostIdentity;
use rustconsole::time::{Duration, Instant};

fn at(millis: u64) -> Instant {
    Instant::from_nanos(millis * 1_000_000)
}

fn snapshot(output: &AudioOutput) -> rustconsole::player::audio_output::AudioPlaybackSnapshot {
    output.snapshot(AudioPlaybackQueueSnapshot {
        pending_packets: 2,
        queue_drops: 3,
        late_drops: 4,
        resets: 5,
        decoder_failures: 6,
        detail: String::new(),
    })
}

#[test]
fn an_output_starts_once_its_reserve_is_full() {
    let mut output = AudioOutput::new(at(0));
    assert!(output.must_open(at(0)) && !output.is_open());
    output.opened("speakers".to_owned());
    assert!(output.is_open() && !output.must_open(at(9)));
    assert!(output.check_format(SAMPLE_RATE, 2, 960));
    assert_eq!(output.make_room(QueuedBytes::Held(0), 3_840, at(1)), Some(0));
    assert!(!output.submitted(0, 3_840));
    assert!(output.submitted(PREBUFFER_BYTES - 3_840, 3_840));
    output.resumed();
    assert!(output.is_started());
    assert!(!output.submitted(PREBUFFER_BYTES, 3_840));
    assert_eq!(output.queued_micros(), 50_000);
    let known = snapshot(&output);
    assert_eq!(known.device_name, "speakers");
    assert_eq!((known.pending_packets, known.queue_drops, known.resets), (2, 3, 5));
}

#[test]
fn an_output_that_runs_empty_fills_its_reserve_again() {
    let mut output = AudioOutput::new(at(0));
    output.opened("speakers".to_owned());
    output.resumed();
    assert!(!output.polled(QueuedBytes::Held(8), at(1)));
    assert!(output.polled(QueuedBytes::Held(0), at(2)));
    output.paused();
    assert!(!output.is_started());
    assert!(!output.polled(QueuedBytes::Held(0), at(3)));
    assert_eq!(snapshot(&output).underruns, 1);
}

#[test]
fn what_an_output_cannot_take_is_dropped_and_counted() {
    let mut output = AudioOutput::new(at(0));
    output.unavailable();
    output.opened("speakers".to_owned());
    assert!(!output.check_format(44_100, 2, 960));
    assert!(!output.check_format(SAMPLE_RATE, 1, 960));
    assert_eq!(
        output.make_room(QueuedBytes::Held(MAX_SDL_BYTES as i32), 8, at(1)),
        None
    );
    assert!(output.is_open());
    assert_eq!(output.make_room(QueuedBytes::Held(-1), 8, at(1)), None);
    assert!(!output.is_open());
    assert!(!output.must_open(at(1)));
    assert!(output.must_open(at(1).after(Duration { nanos: DEVICE_RETRY_NANOS })));
    output.opened("speakers".to_owned());
    output.submission_failed("gone".to_owned(), at(2));
    let known = snapshot(&output);
    assert_eq!(
        (
            known.invalid_format_drops,
            known.unavailable_device_drops,
            known.software_capacity_drops,
            known.device_query_failures,
            known.device_submission_failures,
        ),
        (2, 1, 1, 1, 1)
    );
    assert_eq!(known.device_drops, 6);
    assert_eq!(known.detail, "gone");
}

#[test]
fn the_clock_of_the_host_is_estimated() {
    let pong = ClockPong {
        sequence: 1,
        player_sent_at_micros: 1_000,
        host_received_at_micros: 5_040,
        host_sent_at_micros: 5_060,
    };
    let estimate = clock_offset(pong, 1_121).expect("an estimate");
    assert_eq!(estimate.offset_micros, 3_989);
    assert_eq!(estimate.uncertainty_micros, 51);
    assert!(clock_offset(pong, 999).is_none());
    assert!(clock_offset(pong, 1_010).is_none());
    let backwards = ClockPong {
        host_sent_at_micros: 5_039,
        ..pong
    };
    assert!(clock_offset(backwards, 1_121).is_none());
}

#[test]
fn passwords_are_kept_under_the_identity_in_hexadecimal() {
    let mut identity = [0_u8; 32];
    identity[0] = 0xab;
    identity[31] = 0x05;
    let key = host_identity_key(&identity);
    assert_eq!(key.len(), 64);
    assert!(key.starts_with("ab00") && key.ends_with("0005"));
}

fn endpoint(source: DiscoverySource, address: EndpointAddress) -> DiscoveredEndpoint {
    DiscoveredEndpoint {
        source,
        source_name: None,
        address,
        host_identity: HostIdentity::from_bytes(&[1; 32]).expect("an identity"),
        display_name: None,
        operating_system: HostOperatingSystem::Windows,
    }
}

#[test]
fn found_hosts_are_shown_by_source_and_address() {
    let v4 = |address, port| EndpointAddress::V4 { address, port };
    let v6 = EndpointAddress::V6 {
        address: 0,
        port: 0,
        flow: 0,
        scope: 0,
    };
    let shown = sort_endpoints(vec![
        endpoint(DiscoverySource::Tailscale, v4(1, 1)),
        endpoint(DiscoverySource::Lan, v6),
        endpoint(DiscoverySource::Lan, v4(2, 1)),
        endpoint(DiscoverySource::Lan, v4(1, 9)),
        endpoint(DiscoverySource::Manual, v4(9, 9)),
    ]);
    let order: Vec<_> = shown.iter().map(|host| (host.source, host.address)).collect();
    let place = |source, address| order.iter().position(|&shown| shown == (source, address));
    assert_eq!(order.len(), 5);
    assert!(place(DiscoverySource::Lan, v4(1, 9)) < place(DiscoverySource::Lan, v4(2, 1)));
    assert!(place(DiscoverySource::Lan, v4(2, 1)) < place(DiscoverySource::Lan, v6));
}

#[test]
fn local_and_routed_addresses_are_probed_apart() {
    let candidate = |source, addresses: &[u32]| HostCandidate {
        source,
        display_name: Some("host".to_owned()),
        addresses: addresses
            .iter()
            .map(|&address| EndpointAddress::V4 { address, port: 7 })
            .collect(),
    };
    let candidates = vec![
        candidate(DiscoverySource::Lan, &[1, 2]),
        candidate(DiscoverySource::Tailscale, &[3]),
        candidate(DiscoverySource::Manual, &[4]),
    ];
    let local = probes_of(&candidates, true);
    let routed = probes_of(&candidates, false);
    assert_eq!(local.len() + routed.len(), 4);
    assert!(local.iter().all(|probe| probe.source == DiscoverySource::Lan));
    assert!(routed.iter().all(|probe| probe.source != DiscoverySource::Lan));
    assert_eq!(
        probe_timeout(DiscoverySource::Lan),
        Duration::from_millis(750)
    );
    assert_eq!(
        probe_timeout(DiscoverySource::Tailscale),
        Duration::from_secs(2)
    );
}

#[test]
fn an_unusable_availability_is_refused() {
    let answer = |availability, vb_cable_status| Envelope {
        body: Some(Body::SessionAvailabilityResult(SessionAvailabilityResult {
            availability,
            vb_cable_status,
            firewall_status: 0,
        })),
    };
    let ready = read_availability(&answer(2, 1)).expect("an answer");
    assert_eq!(ready.availability, HostAvailability::Busy);
    assert_eq!(
        read_availability(&answer(0, 1)).err(),
        Some(AvailabilityFault::UnspecifiedAvailability)
    );
    assert_eq!(
        read_availability(&answer(9, 1)).err(),
        Some(AvailabilityFault::UnknownAvailability(9))
    );
    assert_eq!(
        read_availability(&answer(1, 9)).err(),
        Some(AvailabilityFault::UnknownVbCableStatus)
    );
    assert_eq!(
        read_availability(&availability_probe()).err(),
        Some(AvailabilityFault::InvalidResponse)
    );
}

const OPTIONS: StreamOptions = StreamOptions {
    full_diagnostics: true,
    host_pointer_release: false,
    dedicated_input_stream: true,
};

#[test]
fn viewer_and_host_come_to_one_configuration() {
    let (capabilities, settings) = stream_video(50_000_000);
    let Some(Body::Av1CapabilityOffer(mut offer)) =
        viewer_offer(&capabilities, &settings, OPTIONS).body
    else {
        panic!("expected an offer");
    };
    assert!(offer.full_diagnostics && offer.dedicated_input_stream);
    offer.encoder_capabilities = vec![wire_capability(capabilities[1])];
    offer.decoder_capabilities.clear();
    offer.viewer_settings = None;
    let host = read_host_offer(Envelope {
        body: Some(Body::Av1CapabilityOffer(offer)),
    })
    .expect("an offer of a host");
    let (negotiated, selected) =
        select(&host, &capabilities, &settings, OPTIONS).expect("a common mode");
    assert_eq!(negotiated.mode.bit_depth, VideoBitDepth::Eight);
    assert_eq!(negotiated.maximum_bitrate_bits_per_second, 50_000_000);
    let answer = |selected| Envelope {
        body: Some(Body::SelectedAv1Configuration(selected)),
    };
    assert_eq!(confirm(selected, &answer(selected)), Ok(()));
    let mut other = selected;
    other.width += 1;
    assert_eq!(
        confirm(selected, &answer(other)),
        Err(NegotiationFault::DifferentConfiguration)
    );
    assert_eq!(
        read_host_offer(answer(selected)).err(),
        Some(NegotiationFault::InvalidOffer)
    );
    let mut unspecified = wire_capability(capabilities[0]);
    unspecified.chroma_subsampling = 0;
    assert_eq!(
        domain_capability(&unspecified),
        Err(NegotiationFault::UnspecifiedChroma)
    );
    unspecified.chroma_subsampling = 77;
    assert_eq!(
        domain_capability(&unspecified),
        Err(NegotiationFault::UnknownChroma(77))
    );
    let mut deep = wire_capability(capabilities[0]);
    deep.bit_depth = 0;
    assert_eq!(
        domain_capability(&deep),
        Err(NegotiationFault::UnspecifiedBitDepth)
    );
    let mut fast = wire_capability(capabilities[0]);
    fast.maximum_frames_per_second = 65_536;
    assert_eq!(
        domain_capability(&fast),
        Err(NegotiationFault::FrameRateOutOfRange(65_536))
    );
}

#[test]
fn the_trial_streams_one_keyframe() {
    let settings = trial_settings();
    let Some(Body::Av1CapabilityOffer(offer)) = trial_offer(&settings).body else {
        panic!("expected an offer");
    };
    assert_eq!(offer.decoder_capabilities.len(), 1);
    let capability = trial_capability(&offer.decoder_capabilities[0]).expect("eight bits");
    let mut host_offer = offer.clone();
    host_offer.encoder_capabilities = offer.decoder_capabilities.clone();
    host_offer.decoder_capabilities = Vec::new();
    host_offer.viewer_settings = None;
    let envelope = Envelope {
        body: Some(Body::Av1CapabilityOffer(host_offer)),
    };
    assert_eq!(read_trial_offer(&envelope), Ok(vec![capability]));
    let selected = trial_selection(&vec![capability], &settings).expect("a selection");
    assert_eq!((selected.width, selected.height), (WIDTH, HEIGHT));
    assert_eq!(
        trial_selection(&Vec::new(), &settings),
        Err(TrialFault::Configuration(
            Av1NegotiationError::EmptyEncoderCapabilities
        ))
    );
    let ten = wire_capability(stream_video(1).0[0]);
    assert_eq!(trial_capability(&ten), Err(TrialFault::UnsupportedMode));
    assert_eq!(announced_frame_size(&[0, 0, 1, 0], 256), Ok(256));
    assert_eq!(
        announced_frame_size(&[0, 0, 1, 1], 256),
        Err(TrialFault::FrameTooLarge {
            size: 257,
            maximum: 256
        })
    );
    let packet = |keyframe, payload| EncodedVideoPacket {
        sequence: 0,
        captured_at_micros: 0,
        keyframe,
        payload,
    };
    assert_eq!(require_keyframe(&packet(true, vec![1])), Ok(()));
    assert_eq!(
        require_keyframe(&packet(false, vec![1])),
        Err(TrialFault::NotAKeyframe)
    );
    assert_eq!(
        require_keyframe(&packet(true, Vec::new())),
        Err(TrialFault::NotAKeyframe)
    );
    assert_eq!(require_dimensions(WIDTH, HEIGHT), Ok(()));
    assert!(require_dimensions(WIDTH, 1).is_err());
    assert_eq!(checksum(&[1, 2, 3], &[250, 250]), 506);
}

#[test]
fn lights_are_refused_out_of_order() {
    let mut receiver = KeyboardLedReceiver::default();
    let mut push = |generation, sequence, mask| {
        receiver.push(KeyboardLeds {
            generation,
            sequence,
            mask,
        })
    };
    assert_eq!(push(1, 1, 256), Err(KeyboardLedError::MaskOutOfRange));
    assert_eq!(push(1, 1, 32), Err(KeyboardLedError::InvalidState));
    assert!(push(2, 1, 31).is_ok());
    assert_eq!(push(2, 3, 1), Err(KeyboardLedError::OutOfOrder));
    assert_eq!(push(1, 2, 1), Err(KeyboardLedError::StaleGeneration));
    assert!(push(2, 2, 0).is_ok());
    assert!(push(3, 9, 0).is_ok());
}

#[test]
fn clicks_switch_the_diagnostics_and_ask_for_the_full_screen() {
    let mut controls = PlayerControls::default();
    assert_eq!(controls.clicked(false, true), None);
    assert!(controls.diagnostics_visible);
    assert_eq!(
        controls.clicked(true, true),
        Some(PlayerGuiAction::ToggleFullscreen)
    );
    assert!(!controls.diagnostics_visible);
}

#[test]
fn a_process_message_that_is_no_message_says_why() {
    let command = |message: &[u8]| match decode_command(message) {
        Err(ProcessProtocolError::InvalidMessage(fault)) => fault,
        _ => panic!("expected a fault"),
    };
    assert_eq!(command(&[]), MessageFault::EmptyCommand);
    assert_eq!(command(&[99]), MessageFault::UnknownCommand);
    let event = |message: &[u8]| match decode_event(message) {
        Err(ProcessProtocolError::InvalidMessage(fault)) => fault,
        _ => panic!("expected a fault"),
    };
    assert_eq!(event(&[]), MessageFault::EmptyEvent);
    assert_eq!(event(&[99]), MessageFault::UnknownEvent);
    let mut bytes = Vec::new();
    assert!(matches!(
        write_event(&mut bytes, &PlayerEvent::Error("a".repeat(MAX_ERROR_SIZE + 1))),
        Err(ProcessProtocolError::MessageTooLarge { size, maximum })
            if size == MAX_ERROR_SIZE + 1 && maximum == MAX_ERROR_SIZE
    ));
    assert!(bytes.is_empty());
    write_event(&mut bytes, &PlayerEvent::Error("a".repeat(MAX_ERROR_SIZE))).expect("room");
    let mut reader = bytes.as_slice();
    let Ok(PlayerEvent::Error(told)) = read_event(&mut reader) else {
        panic!("expected an error");
    };
    assert_eq!(told.len(), MAX_ERROR_SIZE);
    assert!(reader.is_empty());
    let mut short = &bytes[..bytes.len() - 1];
    assert!(matches!(
        read_event(&mut short),
        Err(ProcessProtocolError::UnexpectedEnd)
    ));
}
