//! The mark that a host draws on the screen to show that input was applied.

use vstd::prelude::*;

verus! {

pub const MAX_DIAGNOSTIC_MARKER_PROBES_PER_INPUT: u8 = 8;

/// The luma at and below which a sample is dark, of samples with `shift` more
/// bits than two.
pub open spec fn dark_level(shift: nat) -> int {
    vstd::arithmetic::power2::pow2(shift) as int
}

/// The luma at and above which a sample is bright.
pub open spec fn bright_level(shift: nat) -> int {
    (3 * vstd::arithmetic::power2::pow2(shift) as int) % 0x1_0000
}

/// What the mark shows: its white and its black anchor have to be there, and its
/// state has to be one of the two.
pub open spec fn marker_of(samples: Seq<u16>, bit_depth: u16) -> Option<bool> {
    if samples.len() != 3 || bit_depth < 2 || bit_depth >= 18 {
        None
    } else {
        let dark = dark_level((bit_depth - 2) as nat);
        let bright = bright_level((bit_depth - 2) as nat);
        if samples[0] >= bright && samples[1] <= dark && (samples[2] <= dark || samples[2]
            >= bright) {
            Some(samples[2] >= bright)
        } else {
            None
        }
    }
}

pub fn diagnostic_marker_state(samples: &[u16], bit_depth: u16) -> (state: Option<bool>)
    ensures
        state == marker_of(samples@, bit_depth),
{
    if samples.len() != 3 || bit_depth < 2 || bit_depth >= 18 {
        return None;
    }
    let shift: u16 = bit_depth - 2;
    let mut dark: u32 = 1;
    let mut step: u16 = 0;
    proof {
        vstd::arithmetic::power2::lemma2_to64();
    }
    while step < shift
        invariant
            step <= shift < 16,
            dark == vstd::arithmetic::power2::pow2(step as nat),
            dark <= 0x8000,
        decreases shift - step,
    {
        proof {
            vstd::arithmetic::power2::lemma_pow2_unfold((step + 1) as nat);
            vstd::arithmetic::power2::lemma2_to64();
            if step < 14 {
                vstd::arithmetic::power2::lemma_pow2_strictly_increases(step as nat, 14);
            }
        }
        dark = dark * 2;
        step = step + 1;
    }
    let bright: u32 = (3 * dark) % 0x1_0000;
    let white = samples[0] as u32;
    let black = samples[1] as u32;
    let state = samples[2] as u32;
    if white >= bright && black <= dark && (state <= dark || state >= bright) {
        Some(state >= bright)
    } else {
        None
    }
}

/// Whether to look for the mark in a frame: once to begin with, then for each
/// requested input that the frame already shows, so often and no more.
pub fn take_diagnostic_marker_probe(
    latency_diagnostics: bool,
    baseline_attempted: bool,
    frame_input_sequence: u64,
    requested_sequence: u64,
    last_probe_sequence: &mut u64,
    active_probe_sequence: &mut u64,
    probe_attempts: &mut u8,
) -> (probe: bool)
    ensures
        ({
            let before = ProbeModel {
                last: *old(last_probe_sequence),
                active: *old(active_probe_sequence),
                attempts: *old(probe_attempts),
            };
            let after = ProbeModel {
                last: *final(last_probe_sequence),
                active: *final(active_probe_sequence),
                attempts: *final(probe_attempts),
            };
            (after, probe) == before.probed(
                latency_diagnostics,
                baseline_attempted,
                frame_input_sequence,
                requested_sequence,
            )
        }),
{
    if !latency_diagnostics {
        return false;
    }
    if !baseline_attempted {
        return true;
    }
    if requested_sequence == 0 || requested_sequence <= *last_probe_sequence || frame_input_sequence
        < requested_sequence {
        return false;
    }
    if *active_probe_sequence != requested_sequence {
        *active_probe_sequence = requested_sequence;
        *probe_attempts = 0;
    }
    if *probe_attempts >= MAX_DIAGNOSTIC_MARKER_PROBES_PER_INPUT {
        *last_probe_sequence = requested_sequence;
        *active_probe_sequence = 0;
        *probe_attempts = 0;
        return false;
    }
    *probe_attempts = *probe_attempts + 1;
    true
}

/// Which input was last looked for, which is looked for now, and how often.
pub struct ProbeModel {
    pub last: u64,
    pub active: u64,
    pub attempts: u8,
}

impl ProbeModel {
    pub open spec fn probed(
        self,
        latency_diagnostics: bool,
        baseline_attempted: bool,
        frame_input_sequence: u64,
        requested_sequence: u64,
    ) -> (ProbeModel, bool) {
        let attempts = if self.active == requested_sequence {
            self.attempts
        } else {
            0u8
        };
        if !latency_diagnostics {
            (self, false)
        } else if !baseline_attempted {
            (self, true)
        } else if requested_sequence == 0 || requested_sequence <= self.last || frame_input_sequence
            < requested_sequence {
            (self, false)
        } else if attempts >= MAX_DIAGNOSTIC_MARKER_PROBES_PER_INPUT {
            (ProbeModel { last: requested_sequence, active: 0, attempts: 0 }, false)
        } else {
            (
                ProbeModel {
                    last: self.last,
                    active: requested_sequence,
                    attempts: (attempts + 1) as u8,
                },
                true,
            )
        }
    }
}

/// Where the search for the mark is.
#[derive(Clone, Copy, Debug, PartialEq, Eq, Structural)]
pub struct MarkerSearch {
    pub marker: Option<bool>,
    pub baseline_attempted: bool,
    pub last_probe_sequence: u64,
    pub active_probe_sequence: u64,
    pub probe_attempts: u8,
}

impl MarkerSearch {
    /// Nothing was looked for yet.
    pub fn new() -> (search: Self)
        ensures
            search == (MarkerSearch {
                marker: None,
                baseline_attempted: false,
                last_probe_sequence: 0,
                active_probe_sequence: 0,
                probe_attempts: 0,
            }),
    {
        MarkerSearch {
            marker: None,
            baseline_attempted: false,
            last_probe_sequence: 0,
            active_probe_sequence: 0,
            probe_attempts: 0,
        }
    }

    pub open spec fn probe_model(self) -> ProbeModel {
        ProbeModel {
            last: self.last_probe_sequence,
            active: self.active_probe_sequence,
            attempts: self.probe_attempts,
        }
    }

    /// Whether to look for the mark in a frame.
    pub fn take(
        &mut self,
        latency_diagnostics: bool,
        frame_input_sequence: u64,
        requested_sequence: u64,
    ) -> (probe: bool)
        ensures
            (final(self).probe_model(), probe) == old(self).probe_model().probed(
                latency_diagnostics,
                old(self).baseline_attempted,
                frame_input_sequence,
                requested_sequence,
            ),
            final(self).marker == old(self).marker,
            final(self).baseline_attempted == (old(self).baseline_attempted || probe),
    {
        let mut last = self.last_probe_sequence;
        let mut active = self.active_probe_sequence;
        let mut attempts = self.probe_attempts;
        let probe = take_diagnostic_marker_probe(
            latency_diagnostics,
            self.baseline_attempted,
            frame_input_sequence,
            requested_sequence,
            &mut last,
            &mut active,
            &mut attempts,
        );
        self.last_probe_sequence = last;
        self.active_probe_sequence = active;
        self.probe_attempts = attempts;
        if probe {
            self.baseline_attempted = true;
        }
        probe
    }

    /// The search after a look that saw `seen`, and the input that it showed to
    /// be applied: the mark changed.
    pub open spec fn observed(self, seen: Option<bool>, requested_sequence: u64) -> (
        MarkerSearch,
        Option<u64>,
    ) {
        let settled = MarkerSearch {
            last_probe_sequence: requested_sequence,
            active_probe_sequence: 0,
            probe_attempts: 0,
            ..self
        };
        let changed = seen is Some && self.marker is Some && self.marker != seen;
        let first = seen is Some && self.marker is None;
        let marker = if seen is Some {
            seen
        } else {
            self.marker
        };
        if changed {
            (MarkerSearch { marker, ..settled }, Some(requested_sequence))
        } else if first {
            (MarkerSearch { marker, probe_attempts: 0, ..self }, None)
        } else if self.probe_attempts >= MAX_DIAGNOSTIC_MARKER_PROBES_PER_INPUT
            && requested_sequence != 0 {
            (MarkerSearch { marker, ..settled }, None)
        } else {
            (MarkerSearch { marker, ..self }, None)
        }
    }

    /// Notes what a look saw: the input that it showed to be applied.
    pub fn observe(&mut self, seen: Option<bool>, requested_sequence: u64) -> (applied: Option<u64>)
        ensures
            (*final(self), applied) == old(self).observed(seen, requested_sequence),
    {
        let mut applied: Option<u64> = None;
        match seen {
            Some(state) => {
                match self.marker {
                    Some(previous) => {
                        if previous != state {
                            applied = Some(requested_sequence);
                            self.last_probe_sequence = requested_sequence;
                            self.active_probe_sequence = 0;
                            self.probe_attempts = 0;
                        }
                    },
                    None => {
                        self.probe_attempts = 0;
                    },
                }
                self.marker = Some(state);
            },
            None => {},
        }
        if applied.is_none() && self.probe_attempts >= MAX_DIAGNOSTIC_MARKER_PROBES_PER_INPUT
            && requested_sequence != 0 {
            self.last_probe_sequence = requested_sequence;
            self.active_probe_sequence = 0;
            self.probe_attempts = 0;
        }
        applied
    }
}

/// A frame is only looked at for an input that it already shows.
pub proof fn law_probes_wait_for_the_applied_input(
    probes: ProbeModel,
    frame_input_sequence: u64,
    requested_sequence: u64,
)
    requires
        frame_input_sequence < requested_sequence,
    ensures
        probes.probed(true, true, frame_input_sequence, requested_sequence) == (probes, false),
{
}

/// How a marker is read, of eight and of ten bits: its first sample is bright
/// and its second dark, and the third says whether it is on. Anything between a
/// quarter and three quarters of the range is no marker.
pub proof fn law_how_markers_are_read(samples: Seq<u16>, bit_depth: u16)
    requires
        samples.len() == 3,
        bit_depth == 8 || bit_depth == 10,
    ensures
        ({
            let quarter: int = if bit_depth == 8 {
                64
            } else {
                256
            };
            let is_marker = samples[0] >= 3 * quarter && samples[1] <= quarter;
            &&& is_marker && samples[2] >= 3 * quarter <==> marker_of(samples, bit_depth) == Some(
                true,
            )
            &&& is_marker && samples[2] <= quarter <==> marker_of(samples, bit_depth) == Some(
                false,
            )
        }),
{
    vstd::arithmetic::power2::lemma2_to64();
}

/// When a frame is searched for the marker: once to learn it, and then for an
/// input that is asked about and applied, at most eight times.
pub proof fn law_when_frames_are_searched(
    probes: ProbeModel,
    latency_diagnostics: bool,
    baseline_attempted: bool,
    frame_input_sequence: u64,
    requested_sequence: u64,
)
    ensures
        ({
            let (after, search) = probes.probed(
                latency_diagnostics,
                baseline_attempted,
                frame_input_sequence,
                requested_sequence,
            );
            let wanted = 0 < requested_sequence && probes.last < requested_sequence
                && requested_sequence <= frame_input_sequence;
            let tried: int = if probes.active == requested_sequence {
                probes.attempts as int
            } else {
                0
            };
            &&& search <==> latency_diagnostics && (!baseline_attempted || (wanted && tried < 8))
            &&& search && baseline_attempted ==> after.active == requested_sequence
                && after.attempts == tried + 1 && after.last == probes.last
            &&& latency_diagnostics && baseline_attempted && wanted && tried >= 8 ==> after.last
                == requested_sequence && after.active == 0 && after.attempts == 0
            &&& !latency_diagnostics || !baseline_attempted || !wanted ==> after == probes
        }),
{
}

/// What a search finds: a marker that changed tells that the input was applied,
/// and the search for it is over. The first marker is only remembered, and one
/// that was not seen leaves the last.
pub proof fn law_changed_markers_tell_of_the_input(
    search: MarkerSearch,
    seen: Option<bool>,
    requested_sequence: u64,
)
    ensures
        ({
            let (after, applied) = search.observed(seen, requested_sequence);
            let changed = seen is Some && search.marker is Some && seen != search.marker;
            &&& changed <==> applied is Some
            &&& applied matches Some(sequence) ==> sequence == requested_sequence
            &&& changed ==> after.last_probe_sequence == requested_sequence
                && after.active_probe_sequence == 0 && after.probe_attempts == 0
            &&& seen is Some ==> after.marker == seen
            &&& seen is None ==> after.marker == search.marker
            &&& !changed && search.probe_attempts < 8 ==> after.last_probe_sequence
                == search.last_probe_sequence && after.active_probe_sequence
                == search.active_probe_sequence
            &&& after.baseline_attempted == search.baseline_attempted
        }),
{
}

} // verus!
