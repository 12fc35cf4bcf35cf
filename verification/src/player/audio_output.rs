//! When audio is handed to a sound device, and what becomes of it.
//!
//! The device itself is outside: each step here takes what the device said and
//! tells what to ask of it next.

use crate::player::audio_playback::AudioPlaybackQueueSnapshot;
use crate::time::{Duration, Instant};
use vstd::prelude::*;

verus! {

pub const SAMPLE_RATE: u32 = 48_000;

pub const PACKET_FRAMES: usize = 480;

pub const CHANNELS: usize = 2;

pub const SAMPLE_BYTES: usize = 4;

pub const PREBUFFER_PACKETS: usize = 4;

pub const MAX_DEVICE_PACKETS: usize = 8;

/// What a device holds before it starts to play.
pub const PREBUFFER_BYTES: usize = 15_360;

/// The most that is handed to a device ahead of time.
pub const MAX_SDL_BYTES: usize = 30_720;

pub const DEVICE_RETRY_NANOS: u128 = 250_000_000;

/// How long so many bytes of samples play, in microseconds. What does not fit
/// the result is cut off.
pub open spec fn spec_bytes_to_micros(bytes: usize) -> u32 {
    (((bytes / 8) * 1_000_000 / 48_000) % 0x1_0000_0000) as u32
}

pub fn bytes_to_micros(bytes: usize) -> (micros: u32)
    requires
        (bytes / 8) * 1_000_000 <= u64::MAX,
    ensures
        micros == spec_bytes_to_micros(bytes),
{
    let frames: u64 = (bytes / 8) as u64;
    ((frames * 1_000_000 / 48_000) % 0x1_0000_0000) as u32
}

#[derive(Clone, Debug, PartialEq, Eq)]
pub struct AudioPlaybackSnapshot {
    pub pending_packets: usize,
    pub queued_micros: u32,
    pub queue_drops: u64,
    pub late_drops: u64,
    pub device_drops: u64,
    pub invalid_format_drops: u64,
    pub unavailable_device_drops: u64,
    pub device_query_failures: u64,
    pub software_capacity_drops: u64,
    pub device_submission_failures: u64,
    pub underruns: u64,
    pub resets: u64,
    pub decoder_failures: u64,
    pub device_name: String,
    pub detail: String,
}

/// What was dropped, and why. Each stops at the greatest integer.
#[derive(Clone, Copy, Debug, PartialEq, Eq, Structural)]
pub struct DeviceCounters {
    pub device_drops: u64,
    pub invalid_format_drops: u64,
    pub unavailable_device_drops: u64,
    pub device_query_failures: u64,
    pub software_capacity_drops: u64,
    pub device_submission_failures: u64,
    pub underruns: u64,
}

impl DeviceCounters {
    pub open spec fn zero() -> DeviceCounters {
        DeviceCounters {
            device_drops: 0,
            invalid_format_drops: 0,
            unavailable_device_drops: 0,
            device_query_failures: 0,
            software_capacity_drops: 0,
            device_submission_failures: 0,
            underruns: 0,
        }
    }
}

/// Where a sound device is.
#[derive(Debug)]
pub struct AudioOutput {
    /// Whether there is an open device.
    open: bool,
    retry_at: Instant,
    started: bool,
    empty: bool,
    queued_micros: u32,
    counters: DeviceCounters,
    device_name: String,
    detail: String,
}

/// The contents of an [`AudioOutput`].
#[verifier::ext_equal]
pub struct OutputModel {
    pub open: bool,
    pub retry_at: Instant,
    pub started: bool,
    pub empty: bool,
    pub queued_micros: u32,
    pub counters: DeviceCounters,
    pub device_name: Seq<char>,
    pub detail: Seq<char>,
}

impl View for AudioOutput {
    type V = OutputModel;

    closed spec fn view(&self) -> OutputModel {
        OutputModel {
            open: self.open,
            retry_at: self.retry_at,
            started: self.started,
            empty: self.empty,
            queued_micros: self.queued_micros,
            counters: self.counters,
            device_name: self.device_name@,
            detail: self.detail@,
        }
    }
}

/// What a device says it holds.
pub enum QueuedBytes {
    Held(i32),
    Failed(String),
}

impl OutputModel {
    pub open spec fn initial(now: Instant) -> OutputModel {
        OutputModel {
            open: false,
            retry_at: now,
            started: false,
            empty: true,
            queued_micros: 0,
            counters: DeviceCounters::zero(),
            device_name: Seq::empty(),
            detail: Seq::empty(),
        }
    }

    /// The device is given up; it is tried again after a while.
    pub open spec fn failed(self, detail: Seq<char>, now: Instant) -> OutputModel {
        OutputModel {
            open: false,
            queued_micros: 0,
            device_name: Seq::empty(),
            detail,
            retry_at: now.spec_after(Duration { nanos: DEVICE_RETRY_NANOS }),
            started: false,
            empty: true,
            ..self
        }
    }

    /// What a device says of a queue that cannot be.
    pub open spec fn query_detail(queued: QueuedBytes) -> Seq<char> {
        match queued {
            QueuedBytes::Held(_) => "SDL reported a negative audio queue size"@,
            QueuedBytes::Failed(detail) => detail@,
        }
    }
}

/// What the device holds, where it said so.
pub open spec fn held_bytes(queued: QueuedBytes) -> Option<usize> {
    match queued {
        QueuedBytes::Held(bytes) if bytes >= 0 => Some(bytes as usize),
        _ => None,
    }
}

/// Whether decoded audio is of the one format that is played.
pub open spec fn is_playable(sample_rate: u32, channels: u16, samples: usize) -> bool {
    sample_rate == SAMPLE_RATE && channels == CHANNELS && samples > 0 && samples % CHANNELS == 0
}

impl AudioOutput {
    pub fn new(now: Instant) -> (output: Self)
        ensures
            output@ == OutputModel::initial(now),
    {
        let output = AudioOutput {
            open: false,
            retry_at: now,
            started: false,
            empty: true,
            queued_micros: 0,
            counters: DeviceCounters {
                device_drops: 0,
                invalid_format_drops: 0,
                unavailable_device_drops: 0,
                device_query_failures: 0,
                software_capacity_drops: 0,
                device_submission_failures: 0,
                underruns: 0,
            },
            device_name: String::new(),
            detail: String::new(),
        };
        assert(output@ =~= OutputModel::initial(now));
        output
    }

    /// Gives the device up.
    pub fn fail(&mut self, detail: String, now: Instant)
        ensures
            final(self)@ == old(self)@.failed(detail@, now),
    {
        self.open = false;
        self.queued_micros = 0;
        self.device_name = String::new();
        self.detail = detail;
        self.retry_at = now.after(Duration { nanos: DEVICE_RETRY_NANOS });
        self.started = false;
        self.empty = true;
        assert(self@ =~= old(self)@.failed(detail@, now));
    }

    /// A device is open.
    pub fn opened(&mut self, device_name: String)
        ensures
            final(self)@ == (OutputModel {
                open: true,
                device_name: device_name@,
                detail: Seq::empty(),
                started: false,
                empty: true,
                ..old(self)@
            }),
    {
        self.open = true;
        self.device_name = device_name;
        self.detail = String::new();
        self.started = false;
        self.empty = true;
        assert(self.detail@ =~= Seq::<char>::empty());
    }

    pub fn is_open(&self) -> (open: bool)
        ensures
            open == self@.open,
    {
        self.open
    }

    /// Whether to try to open a device.
    pub fn must_open(&self, now: Instant) -> (result: bool)
        ensures
            result == (!self@.open && now.nanos >= self@.retry_at.nanos),
    {
        !self.open && now.nanos >= self.retry_at.nanos
    }

    pub fn is_started(&self) -> (started: bool)
        ensures
            started == self@.started,
    {
        self.started
    }

    /// The device was cleared and paused.
    pub fn reset(&mut self)
        ensures
            final(self)@ == (OutputModel {
                started: false,
                empty: true,
                queued_micros: 0,
                ..old(self)@
            }),
    {
        self.started = false;
        self.empty = true;
        self.queued_micros = 0;
    }

    /// Whether audio of this format is played; what is not is dropped.
    pub fn check_format(&mut self, sample_rate: u32, channels: u16, samples: usize) -> (playable:
        bool)
        ensures
            playable == is_playable(sample_rate, channels, samples),
            final(self)@ == if playable {
                old(self)@
            } else {
                OutputModel {
                    counters: DeviceCounters {
                        device_drops: old(self)@.counters.device_drops.saturating_add(1),
                        invalid_format_drops: old(
                            self,
                        )@.counters.invalid_format_drops.saturating_add(1),
                        ..old(self)@.counters
                    },
                    detail: "decoded audio has an invalid format"@,
                    ..old(self)@
                }
            },
    {
        if sample_rate != SAMPLE_RATE || channels != 2 || samples == 0 || samples % CHANNELS != 0 {
            self.counters.device_drops = self.counters.device_drops.saturating_add(1);
            self.counters.invalid_format_drops =
            self.counters.invalid_format_drops.saturating_add(1);
            self.detail = "decoded audio has an invalid format".to_owned();
            return false;
        }
        true
    }

    /// There is no device to play on.
    pub fn unavailable(&mut self)
        ensures
            final(self)@ == (OutputModel {
                counters: DeviceCounters {
                    device_drops: old(self)@.counters.device_drops.saturating_add(1),
                    unavailable_device_drops: old(
                        self,
                    )@.counters.unavailable_device_drops.saturating_add(1),
                    ..old(self)@.counters
                },
                ..old(self)@
            }),
    {
        self.counters.device_drops = self.counters.device_drops.saturating_add(1);
        self.counters.unavailable_device_drops =
        self.counters.unavailable_device_drops.saturating_add(1);
    }

    /// Whether so many more bytes are handed to the device, which said what it
    /// holds: how much that is, if they are.
    pub fn make_room(&mut self, queued: QueuedBytes, bytes: usize, now: Instant) -> (room: Option<
        usize,
    >)
        ensures
            match held_bytes(queued) {
                None => {
                    let failed = old(self)@.failed(OutputModel::query_detail(queued), now);
                    &&& room is None
                    &&& final(self)@ == (OutputModel {
                        counters: DeviceCounters {
                            device_drops: failed.counters.device_drops.saturating_add(1),
                            device_query_failures: failed.counters.device_query_failures.saturating_add(
                                1,
                            ),
                            ..failed.counters
                        },
                        ..failed
                    })
                },
                Some(held) => if held.saturating_add(bytes) > MAX_SDL_BYTES {
                    &&& room is None
                    &&& final(self)@ == (OutputModel {
                        counters: DeviceCounters {
                            device_drops: old(self)@.counters.device_drops.saturating_add(1),
                            software_capacity_drops: old(
                                self,
                            )@.counters.software_capacity_drops.saturating_add(1),
                            ..old(self)@.counters
                        },
                        ..old(self)@
                    })
                } else {
                    room == Some(held) && final(self)@ == old(self)@
                },
            },
    {
        let held: usize = match queued {
            QueuedBytes::Held(held) => {
                if held < 0 {
                    self.fail("SDL reported a negative audio queue size".to_owned(), now);
                    self.note_query_failure();
                    return None;
                }
                held as usize
            },
            QueuedBytes::Failed(detail) => {
                self.fail(detail, now);
                self.note_query_failure();
                return None;
            },
        };
        if held.saturating_add(bytes) > MAX_SDL_BYTES {
            self.counters.device_drops = self.counters.device_drops.saturating_add(1);
            self.counters.software_capacity_drops =
            self.counters.software_capacity_drops.saturating_add(1);
            return None;
        }
        Some(held)
    }

    fn note_query_failure(&mut self)
        ensures
            final(self)@ == (OutputModel {
                counters: DeviceCounters {
                    device_drops: old(self)@.counters.device_drops.saturating_add(1),
                    device_query_failures: old(
                        self,
                    )@.counters.device_query_failures.saturating_add(1),
                    ..old(self)@.counters
                },
                ..old(self)@
            }),
    {
        self.counters.device_drops = self.counters.device_drops.saturating_add(1);
        self.counters.device_query_failures = self.counters.device_query_failures.saturating_add(1);
    }

    /// The device did not take what it was handed, or did not start.
    pub fn submission_failed(&mut self, detail: String, now: Instant)
        ensures
            ({
                let failed = old(self)@.failed(detail@, now);
                final(self)@ == (OutputModel {
                    counters: DeviceCounters {
                        device_drops: failed.counters.device_drops.saturating_add(1),
                        device_submission_failures: failed.counters.device_submission_failures.saturating_add(
                            1,
                        ),
                        ..failed.counters
                    },
                    ..failed
                })
            }),
    {
        self.fail(detail, now);
        self.counters.device_drops = self.counters.device_drops.saturating_add(1);
        self.counters.device_submission_failures =
        self.counters.device_submission_failures.saturating_add(1);
    }

    /// The device took `bytes` more than the `held` ones. Whether to start it
    /// now: it waits until its reserve is full.
    pub fn submitted(&mut self, held: usize, bytes: usize) -> (start: bool)
        requires
            held.saturating_add(bytes) <= MAX_SDL_BYTES,
        ensures
            start == (!old(self)@.started && held + bytes >= PREBUFFER_BYTES),
            final(self)@ == (OutputModel {
                queued_micros: spec_bytes_to_micros((held + bytes) as usize),
                empty: old(self)@.empty && !old(self)@.started,
                ..old(self)@
            }),
    {
        let queued: usize = held + bytes;
        self.queued_micros = bytes_to_micros(queued);
        if self.started {
            self.empty = false;
        }
        !self.started && queued >= PREBUFFER_BYTES
    }

    /// The device plays.
    pub fn resumed(&mut self)
        ensures
            final(self)@ == (OutputModel { started: true, empty: false, ..old(self)@ }),
    {
        self.started = true;
        self.empty = false;
    }

    /// Notes what an open device said it holds. Whether to pause it: it ran
    /// empty while it played, and has to fill its reserve again.
    pub fn polled(&mut self, queued: QueuedBytes, now: Instant) -> (pause: bool)
        ensures
            match held_bytes(queued) {
                None => !pause && final(self)@ == old(self)@.failed(
                    OutputModel::query_detail(queued),
                    now,
                ),
                Some(held) => {
                    &&& pause == (old(self)@.started && held == 0 && !old(self)@.empty)
                    &&& final(self)@ == (OutputModel {
                        queued_micros: spec_bytes_to_micros(held),
                        counters: if pause {
                            DeviceCounters {
                                underruns: old(self)@.counters.underruns.saturating_add(1),
                                ..old(self)@.counters
                            }
                        } else {
                            old(self)@.counters
                        },
                        empty: old(self)@.empty || pause,
                        ..old(self)@
                    })
                },
            },
    {
        let held: usize = match queued {
            QueuedBytes::Held(held) => {
                if held < 0 {
                    self.fail("SDL reported a negative audio queue size".to_owned(), now);
                    return false;
                }
                held as usize
            },
            QueuedBytes::Failed(detail) => {
                self.fail(detail, now);
                return false;
            },
        };
        self.queued_micros = bytes_to_micros(held);
        if self.started && held == 0 && !self.empty {
            self.counters.underruns = self.counters.underruns.saturating_add(1);
            self.empty = true;
            return true;
        }
        false
    }

    /// The device is paused.
    pub fn paused(&mut self)
        ensures
            final(self)@ == (OutputModel { started: false, ..old(self)@ }),
    {
        self.started = false;
    }

    #[must_use]
    pub fn queued_micros(&self) -> (micros: u32)
        ensures
            micros == self@.queued_micros,
    {
        self.queued_micros
    }

    /// What is known of the device and of what waits for it. What the device has
    /// to say comes before what the queue has.
    pub fn snapshot(&self, queue: AudioPlaybackQueueSnapshot) -> (snapshot: AudioPlaybackSnapshot)
        ensures
            snapshot.pending_packets == queue.pending_packets,
            snapshot.queued_micros == self@.queued_micros,
            snapshot.queue_drops == queue.queue_drops,
            snapshot.late_drops == queue.late_drops,
            snapshot.device_drops == self@.counters.device_drops,
            snapshot.invalid_format_drops == self@.counters.invalid_format_drops,
            snapshot.unavailable_device_drops == self@.counters.unavailable_device_drops,
            snapshot.device_query_failures == self@.counters.device_query_failures,
            snapshot.software_capacity_drops == self@.counters.software_capacity_drops,
            snapshot.device_submission_failures == self@.counters.device_submission_failures,
            snapshot.underruns == self@.counters.underruns,
            snapshot.resets == queue.resets,
            snapshot.decoder_failures == queue.decoder_failures,
            snapshot.device_name@ == self@.device_name,
            snapshot.detail@ == if self@.detail.len() == 0 {
                queue.detail@
            } else {
                self@.detail
            },
    {
        AudioPlaybackSnapshot {
            pending_packets: queue.pending_packets,
            queued_micros: self.queued_micros,
            queue_drops: queue.queue_drops,
            late_drops: queue.late_drops,
            device_drops: self.counters.device_drops,
            invalid_format_drops: self.counters.invalid_format_drops,
            unavailable_device_drops: self.counters.unavailable_device_drops,
            device_query_failures: self.counters.device_query_failures,
            software_capacity_drops: self.counters.software_capacity_drops,
            device_submission_failures: self.counters.device_submission_failures,
            underruns: self.counters.underruns,
            resets: queue.resets,
            decoder_failures: queue.decoder_failures,
            device_name: self.device_name.clone(),
            detail: if self.detail.as_str().is_empty() {
                queue.detail
            } else {
                self.detail.clone()
            },
        }
    }
}

/// Sizes are what they stand for: so many packets of stereo float samples.
pub proof fn law_buffer_sizes()
    ensures
        PREBUFFER_BYTES == PACKET_FRAMES * CHANNELS * PREBUFFER_PACKETS * SAMPLE_BYTES,
        MAX_SDL_BYTES == PACKET_FRAMES * CHANNELS * MAX_DEVICE_PACKETS * SAMPLE_BYTES,
        spec_bytes_to_micros(PREBUFFER_BYTES) == 40_000,
        spec_bytes_to_micros(MAX_SDL_BYTES) == 80_000,
{
}

/// How long queued bytes play: a frame has eight bytes, and 48 frames are a
/// millisecond.
pub proof fn law_queued_time(millis: usize)
    requires
        millis <= 1_000,
    ensures
        spec_bytes_to_micros((384 * millis) as usize) == 1_000 * millis,
{
}

/// What can be played: samples of 48 kHz in two channels, some of them, and as
/// many for each channel.
pub proof fn law_what_can_be_played(sample_rate: u32, channels: u16, samples: usize)
    ensures
        is_playable(sample_rate, channels, samples) <==> sample_rate == 48_000 && channels == 2
            && samples > 0 && samples % 2 == 0,
{
}

/// A device that failed is closed, says why, and is tried again after a quarter
/// of a second. The counts stay.
pub proof fn law_failed_devices_are_tried_again(
    output: OutputModel,
    detail: Seq<char>,
    now: Instant,
)
    requires
        now.nanos + 250_000_000 <= u128::MAX,
    ensures
        ({
            let after = output.failed(detail, now);
            &&& !after.open
            &&& !after.started
            &&& after.empty
            &&& after.queued_micros == 0
            &&& after.device_name.len() == 0
            &&& after.detail == detail
            &&& after.retry_at.nanos == now.nanos + 250_000_000
            &&& after.counters == output.counters
        }),
{
}

/// A device holds what it says that it holds, unless that is less than nothing.
pub proof fn law_what_a_device_holds(queued: QueuedBytes)
    ensures
        queued matches QueuedBytes::Held(bytes) ==> if bytes >= 0 {
            held_bytes(queued) matches Some(held) && held == bytes
        } else {
            held_bytes(queued) is None
        },
        queued is Failed ==> held_bytes(queued) is None,
{
}

/// The one format that is played: 48000 pairs of samples a second, at least one
/// pair and no half of one.
pub proof fn law_the_format_that_is_played(sample_rate: u32, channels: u16, samples: usize)
    ensures
        is_playable(sample_rate, channels, samples) <==> sample_rate == 48_000 && channels == 2
            && samples >= 2 && samples % 2 == 0,
{
}

/// A device holds what it says, unless it says less than nothing or nothing at
/// all.
pub proof fn law_what_the_device_holds(queued: QueuedBytes)
    ensures
        queued matches QueuedBytes::Held(bytes) ==> {
            &&& bytes >= 0 ==> (held_bytes(queued) matches Some(held) && held == bytes)
            &&& bytes < 0 ==> held_bytes(queued) is None
        },
        !(queued is Held) ==> held_bytes(queued) is None,
{
}

} // verus!
