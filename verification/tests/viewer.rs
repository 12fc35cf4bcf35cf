//! Discovery and the parts of a viewer.

use rustconsole::player::availability::{vb_cable_availability, VbCableAvailability};
use rustconsole::player::discovery::{
    initial_progress, probes_of, record_discovery_probe, sort_endpoints, CompletedDiscoveryProbe,
    DiscoveredEndpoint, DiscoveryProgress, DiscoverySource, DiscoveryUpdate, EndpointAddress,
    HostCandidate, MAX_CONCURRENT_DISCOVERY_PROBES, MAX_CONCURRENT_LAN_PROBES,
    MAX_CONCURRENT_ROUTED_PROBES,
};
use rustconsole::player::platform::{
    AudioOutput, LocalInputSource, MediaTimestampMicros, SecretStore, VideoFormat, VideoFrame,
    VideoRenderer,
};
use rustconsole::protocol::features::InputEvent;
use rustconsole::protocol::wire::{HostOperatingSystem, VbCableStatus};
use rustconsole::session::authentication::HostIdentity;
use rustconsole::session::lifecycle::{SessionLifecycle, SessionPhase};
use std::collections::{BTreeMap, VecDeque};
use std::convert::Infallible;

/// Runs discovery with a network on which `answer` says what each probe finds.
fn discover(
    candidates: Vec<HostCandidate>,
    answer: impl Fn(EndpointAddress) -> Option<DiscoveredEndpoint>,
    mut observe: impl FnMut(DiscoveryUpdate),
) -> Vec<DiscoveredEndpoint> {
    let mut progress = initial_progress(&candidates);
    observe(DiscoveryUpdate::Progress(progress));
    let mut discovered = Vec::new();
    for local in [true, false] {
        for probe in probes_of(&candidates, local) {
            let completed = CompletedDiscoveryProbe {
                source: probe.source,
                endpoint: answer(probe.address),
            };
            for update in record_discovery_probe(completed, &mut progress, &mut discovered) {
                observe(update);
            }
        }
    }
    sort_endpoints(discovered)
}

#[test]
fn discovery_lanes_share_the_approved_global_limit() {
    assert_eq!(MAX_CONCURRENT_LAN_PROBES, 24);
    assert_eq!(MAX_CONCURRENT_ROUTED_PROBES, 8);
    assert_eq!(
        MAX_CONCURRENT_LAN_PROBES + MAX_CONCURRENT_ROUTED_PROBES,
        MAX_CONCURRENT_DISCOVERY_PROBES
    );
}

#[test]
fn empty_discovery_reports_a_complete_zero_total() {
    let mut updates = Vec::new();
    assert!(
        discover(Vec::new(), |_| None, |update| updates.push(update)).is_empty()
    );
    assert_eq!(updates, vec![DiscoveryUpdate::Progress(DiscoveryProgress::default())]);
}

#[test]
fn discovery_progress_is_monotone_through_a_timeout() {
    let mut updates = Vec::new();
    let candidates = vec![HostCandidate {
        source: DiscoverySource::Lan,
        display_name: None,
        addresses: vec![EndpointAddress::V4 { address: 0x7f00_0001, port: 9 }],
    }];
    assert!(
        discover(candidates, |_| None, |update| updates.push(update)).is_empty()
    );
    assert_eq!(updates.len(), 2);
    assert_eq!(
        updates,
        vec![
            DiscoveryUpdate::Progress(DiscoveryProgress {
                lan_total: 1,
                ..DiscoveryProgress::default()
            }),
            DiscoveryUpdate::Progress(DiscoveryProgress {
                lan_completed: 1,
                lan_total: 1,
                ..DiscoveryProgress::default()
            }),
        ]
    );
}

#[test]
fn successful_probe_reports_endpoint_before_completion() {
    let endpoint = DiscoveredEndpoint {
        source: DiscoverySource::Lan,
        source_name: None,
        address: EndpointAddress::V4 { address: 0xc000_020a, port: 47_999 },
        host_identity: HostIdentity::from_bytes(&[7; 32]).unwrap(),
        display_name: Some("host".to_owned()),
        operating_system: HostOperatingSystem::Windows,
    };
    let mut progress = DiscoveryProgress {
        lan_total: 1,
        ..DiscoveryProgress::default()
    };
    let mut discovered = Vec::new();

    let updates = record_discovery_probe(
        CompletedDiscoveryProbe {
            source: DiscoverySource::Lan,
            endpoint: Some(endpoint.clone()),
        },
        &mut progress,
        &mut discovered,
    );

    assert_eq!(discovered, vec![endpoint.clone()]);
    assert_eq!(
        updates,
        vec![
            DiscoveryUpdate::Endpoint(endpoint),
            DiscoveryUpdate::Progress(DiscoveryProgress {
                lan_completed: 1,
                lan_total: 1,
                ..DiscoveryProgress::default()
            }),
        ]
    );
}

struct AudioSamples {
    interleaved: Vec<f32>,
}

#[derive(Default)]
struct MockRenderer {
    presented_sequences: Vec<u64>,
    configured_format: Option<VideoFormat>,
}

impl VideoRenderer<Vec<u8>> for MockRenderer {
    type Error = Infallible;

    fn present(&mut self, frame: VideoFrame<Vec<u8>>) -> Result<(), Self::Error> {
        self.presented_sequences.push(frame.sequence);
        Ok(())
    }

    fn reconfigure(&mut self, format: VideoFormat) -> Result<(), Self::Error> {
        self.configured_format = Some(format);
        Ok(())
    }
}

#[derive(Default)]
struct MockAudioOutput {
    played_samples: usize,
}

impl AudioOutput<AudioSamples> for MockAudioOutput {
    type Error = Infallible;

    fn play(&mut self, samples: AudioSamples) -> Result<(), Self::Error> {
        self.played_samples += samples.interleaved.len();
        Ok(())
    }

    fn reset(&mut self) -> Result<(), Self::Error> {
        self.played_samples = 0;
        Ok(())
    }
}

struct MockInputSource {
    focused: bool,
    events: VecDeque<InputEvent>,
}

impl LocalInputSource for MockInputSource {
    type Error = Infallible;

    fn next_event(&mut self) -> Result<Option<InputEvent>, Self::Error> {
        Ok(self.events.pop_front())
    }

    fn focused(&self) -> bool {
        self.focused
    }
}

#[derive(Default)]
struct MockSecretStore {
    secrets: BTreeMap<String, Vec<u8>>,
}

impl SecretStore for MockSecretStore {
    type Error = Infallible;

    fn load(&self, host_identity: &str) -> Result<Option<Vec<u8>>, Self::Error> {
        Ok(self.secrets.get(host_identity).cloned())
    }

    fn store(&mut self, host_identity: &str, secret: &[u8]) -> Result<(), Self::Error> {
        self.secrets
            .insert(host_identity.to_owned(), secret.to_vec());
        Ok(())
    }

    fn remove(&mut self, host_identity: &str) -> Result<(), Self::Error> {
        self.secrets.remove(host_identity);
        Ok(())
    }
}

#[test]
fn vb_cable_wire_states_remain_distinct() {
    assert_eq!(
        vb_cable_availability(VbCableStatus::Unspecified.number()),
        Ok(VbCableAvailability::Unspecified)
    );
    assert_eq!(
        vb_cable_availability(VbCableStatus::Ready.number()),
        Ok(VbCableAvailability::Ready)
    );
    assert_eq!(
        vb_cable_availability(VbCableStatus::Unavailable.number()),
        Ok(VbCableAvailability::Unavailable)
    );
    assert_eq!(
        vb_cable_availability(VbCableStatus::CheckFailed.number()),
        Ok(VbCableAvailability::CheckFailed)
    );
    assert!(vb_cable_availability(99).is_err());
}

#[test]
fn mock_viewer_components_follow_streaming_lifecycle() {
    let format = VideoFormat {
        width: 2560,
        height: 1440,
        frames_per_second: 120,
    };
    let mut lifecycle = SessionLifecycle::connected();
    let mut renderer = MockRenderer::default();
    let mut audio = MockAudioOutput::default();
    let mut input = MockInputSource {
        focused: true,
        events: VecDeque::from([InputEvent::PointerMotion {
            delta_x: 4,
            delta_y: -2,
        }]),
    };
    let mut secrets = MockSecretStore::default();

    secrets.store("host-1", b"test password").unwrap();
    lifecycle.authenticate().unwrap();
    lifecycle.negotiate().unwrap();
    renderer.reconfigure(format).unwrap();
    lifecycle.start_streaming().unwrap();
    renderer
        .present(VideoFrame {
            sequence: 9,
            captured_at: MediaTimestampMicros(1_000),
            format,
            frame: vec![1, 2, 3],
        })
        .unwrap();
    audio
        .play(AudioSamples {
            interleaved: vec![0.0; 8],
        })
        .unwrap();

    assert_eq!(lifecycle.phase(), SessionPhase::Streaming);
    assert_eq!(renderer.configured_format, Some(format));
    assert_eq!(renderer.presented_sequences, [9]);
    assert_eq!(audio.played_samples, 8);
    assert!(input.focused());
    assert_eq!(
        input.next_event().unwrap(),
        Some(InputEvent::PointerMotion {
            delta_x: 4,
            delta_y: -2,
        })
    );
    assert_eq!(
        secrets.load("host-1").unwrap(),
        Some(b"test password".to_vec())
    );
}
