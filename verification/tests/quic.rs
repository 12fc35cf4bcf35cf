//! Discovery metadata and the delay of failed logins.

use rustconsole::protocol::wire;
use rustconsole::session::quic::{HostMetadata, MAX_DISCOVERY_DISPLAY_NAME_SIZE};
use rustconsole::session::rate_limiter::{
    AuthenticationRateLimiter, PeerAddress, MAX_FAILURE_DELAY_NANOS,
    MAX_TRACKED_FAILURE_ADDRESSES,
};
use rustconsole::time::{Duration, Instant};

#[test]
fn failure_delay_grows_is_bounded_and_success_clears_it() {
    let address = PeerAddress::V4(0x7f00_0001);
    let now = Instant::from_nanos(1_000_000);
    let mut limiter = AuthenticationRateLimiter::default();

    assert_eq!(
        limiter.record_failure(address, now),
        Duration::from_millis(250)
    );
    assert_eq!(
        limiter.record_failure(address, now),
        Duration::from_millis(500)
    );
    for _ in 0..10 {
        assert!(
            limiter.record_failure(address, now) <= Duration { nanos: MAX_FAILURE_DELAY_NANOS },
        );
    }
    limiter.record_success(address);
    assert_eq!(limiter.remaining_delay(address, now), Duration::from_nanos(0));
}

#[test]
fn failure_tracker_has_a_hard_address_bound() {
    let now = Instant::from_nanos(1_000_000);
    let mut limiter = AuthenticationRateLimiter::default();
    for index in 0..MAX_TRACKED_FAILURE_ADDRESSES + 20 {
        let address = PeerAddress::V4(
            (10 << 24) | ((index / 256) as u32) << 16 | ((index % 256) as u32) << 8 | 1,
        );
        limiter.record_failure(address, now.after(Duration::from_millis(index as u64)));
    }

    assert_eq!(limiter.tracked_addresses(), MAX_TRACKED_FAILURE_ADDRESSES);
}

#[test]
fn discovery_metadata_is_bounded_and_rejects_control_characters() {
    assert!(
        HostMetadata::new(
            "a".repeat(MAX_DISCOVERY_DISPLAY_NAME_SIZE),
            wire::HostOperatingSystem::Windows,
        )
        .is_ok()
    );
    assert!(
        HostMetadata::new(
            "a".repeat(MAX_DISCOVERY_DISPLAY_NAME_SIZE + 1),
            wire::HostOperatingSystem::Windows,
        )
        .is_err()
    );
    assert!(
        HostMetadata::new("bad\nname".to_owned(), wire::HostOperatingSystem::Windows,).is_err()
    );
}
