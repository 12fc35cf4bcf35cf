//! Audio packets in the order they are played in.

use crate::protocol::audio::{AudioPacket, PACKET_DURATION_MICROS};
use crate::session::audio_assembly::{AUDIO_QUEUE_PACKETS, AUDIO_WAIT_NANOS};
use crate::time::Instant;
use vstd::prelude::*;

verus! {

/// What comes next in playback.
#[derive(Clone, Debug, PartialEq)]
pub enum AudioPlaybackEvent {
    Packet {
        packet: AudioPacket,
        assembled_at: Instant,
        released_at: Instant,
        assembled_at_micros: u64,
        assembled_payload_sha256: Option<[u8; 32]>,
    },
    Missing { generation: u64, sequence: u64, captured_at_micros: u64, missing_packets: u64 },
}

/// A packet that waits for the ones before it.
#[derive(Debug)]
pub struct PendingPacket {
    pub packet: AudioPacket,
    pub received: Instant,
    pub assembled_at_micros: u64,
    pub assembled_payload_sha256: Option<[u8; 32]>,
}

#[derive(Debug)]
pub struct OrderedAudioPackets {
    generation: u64,
    expected: Option<u64>,
    pending: Vec<PendingPacket>,
    started: bool,
    last_timestamp: Option<u64>,
}

/// What is waited for: `pending` holds the waiting packets by sequence, and
/// `expected` is the one that is played next.
#[verifier::ext_equal]
pub struct PlayoutModel {
    pub generation: u64,
    pub expected: Option<u64>,
    pub pending: Seq<PendingPacket>,
    pub started: bool,
    pub last_timestamp: Option<u64>,
}

impl View for OrderedAudioPackets {
    type V = PlayoutModel;

    closed spec fn view(&self) -> PlayoutModel {
        PlayoutModel {
            generation: self.generation,
            expected: self.expected,
            pending: self.pending@,
            started: self.started,
            last_timestamp: self.last_timestamp,
        }
    }
}

/// A call that may play something.
pub ghost enum PlayoutCall {
    Push { packet: PendingPacket, now: Instant },
    Expire { now: Instant },
}

pub open spec fn is_ascending(pending: Seq<PendingPacket>) -> bool {
    forall|i: int, j: int|
        0 <= i < j < pending.len() ==> (#[trigger] pending[i]).packet.sequence < (
        #[trigger] pending[j]).packet.sequence
}

/// How many waiting packets come before `sequence`.
pub open spec fn is_place(pending: Seq<PendingPacket>, sequence: u64, place: int) -> bool {
    &&& 0 <= place <= pending.len()
    &&& forall|i: int| 0 <= i < place ==> (#[trigger] pending[i]).packet.sequence < sequence
    &&& forall|i: int|
        place <= i < pending.len() ==> sequence <= (#[trigger] pending[i]).packet.sequence
}

pub open spec fn place(pending: Seq<PendingPacket>, sequence: u64) -> int {
    choose|place: int| is_place(pending, sequence, place)
}

/// The waiting packets with one more, which gives way to one of its sequence.
pub open spec fn waiting_with(pending: Seq<PendingPacket>, packet: PendingPacket) -> Seq<
    PendingPacket,
> {
    let at = place(pending, packet.packet.sequence);
    if at < pending.len() && pending[at].packet.sequence == packet.packet.sequence {
        pending
    } else {
        pending.insert(at, packet)
    }
}

/// When a missing packet was captured: a packet after the one before it, or
/// as long before the next one as packets are missing, or with the next one.
pub open spec fn gap_timestamp(last: Option<u64>, expected: u64, next: AudioPacket) -> u64 {
    match last {
        Some(timestamp) if timestamp + PACKET_DURATION_MICROS <= u64::MAX => (timestamp
            + PACKET_DURATION_MICROS) as u64,
        _ => {
            let distance = (next.sequence - expected) * PACKET_DURATION_MICROS;
            if 0 <= distance <= next.captured_at_micros {
                (next.captured_at_micros - distance) as u64
            } else {
                next.captured_at_micros
            }
        },
    }
}

impl PlayoutModel {
    pub open spec fn initial() -> PlayoutModel {
        PlayoutModel {
            generation: 0,
            expected: None,
            pending: Seq::empty(),
            started: false,
            last_timestamp: None,
        }
    }

    /// The waiting packets stand by sequence, and none of them is late.
    pub open spec fn well_formed(self) -> bool {
        &&& is_ascending(self.pending)
        &&& !self.started && self.expected is None ==> self.pending.len() == 0
        &&& match self.expected {
            Some(expected) => forall|i: int|
                0 <= i < self.pending.len() ==> expected <= (
                #[trigger] self.pending[i]).packet.sequence,
            None => true,
        }
    }

    /// A newer generation starts from nothing.
    pub open spec fn in_generation(self, generation: u64) -> PlayoutModel {
        if generation > self.generation {
            PlayoutModel { generation, ..PlayoutModel::initial() }
        } else {
            self
        }
    }

    /// Whether a packet is not waited for any longer: enough came after it, or
    /// one that did has waited long enough.
    pub open spec fn is_given_up(self, now: Instant) -> bool {
        self.pending.len() > 0 && (self.pending.len() >= AUDIO_QUEUE_PACKETS || now.spec_since(
            self.pending[0].received,
        ).nanos >= AUDIO_WAIT_NANOS)
    }

    /// The first waiting packet, as it is played.
    pub open spec fn first_packet(self, now: Instant) -> AudioPlaybackEvent {
        AudioPlaybackEvent::Packet {
            packet: self.pending[0].packet,
            assembled_at: self.pending[0].received,
            released_at: now,
            assembled_at_micros: self.pending[0].assembled_at_micros,
            assembled_payload_sha256: self.pending[0].assembled_payload_sha256,
        }
    }

    /// The playout after its first waiting packet is played.
    pub open spec fn after_packet(self) -> PlayoutModel {
        PlayoutModel {
            pending: self.pending.skip(1),
            expected: self.expected->0.checked_add(1),
            last_timestamp: Some(self.pending[0].packet.captured_at_micros),
            ..self
        }
    }

    /// What is missing before the first waiting packet.
    pub open spec fn first_gap(self) -> AudioPlaybackEvent {
        AudioPlaybackEvent::Missing {
            generation: self.generation,
            sequence: self.expected->0,
            captured_at_micros: gap_timestamp(
                self.last_timestamp,
                self.expected->0,
                self.pending[0].packet,
            ),
            missing_packets: self.pending[0].packet.sequence.saturating_sub(self.expected->0),
        }
    }

    /// The playout after what is missing is passed over.
    pub open spec fn after_gap(self) -> PlayoutModel {
        PlayoutModel {
            expected: Some(self.pending[0].packet.sequence),
            last_timestamp: self.pending[0].packet.captured_at_micros.checked_sub(
                PACKET_DURATION_MICROS,
            ),
            ..self
        }
    }

    /// What is played now, and what then still waits.
    pub open spec fn released(self, now: Instant) -> (PlayoutModel, Seq<AudioPlaybackEvent>)
        decreases
                self.pending.len(),
                if self.pending.len() > 0 && self.expected != Some(
                    self.pending[0].packet.sequence,
                ) {
                    1int
                } else {
                    0int
                },
    {
        if self.pending.len() == 0 || self.expected is None {
            (self, Seq::empty())
        } else if self.pending[0].packet.sequence == self.expected->0 {
            let (end, events) = self.after_packet().released(now);
            (end, seq![self.first_packet(now)] + events)
        } else if self.is_given_up(now) {
            let (end, events) = self.after_gap().released(now);
            (end, seq![self.first_gap()] + events)
        } else {
            (self, Seq::empty())
        }
    }

    /// Playback starts once enough packets wait or the first has waited long
    /// enough; then what is due is played.
    pub open spec fn drained(self, now: Instant) -> (PlayoutModel, Seq<AudioPlaybackEvent>) {
        if !self.started && !self.is_given_up(now) {
            (self, Seq::empty())
        } else {
            (PlayoutModel { started: true, ..self }).released(now)
        }
    }

    /// Whether what was expected comes after the packet.
    pub open spec fn has_passed(self, packet: PendingPacket) -> bool {
        match self.expected {
            Some(expected) => packet.packet.sequence < expected,
            None => false,
        }
    }

    /// The playout with one more packet that waits: until playback starts, the
    /// lowest one is the one expected.
    pub open spec fn joined(self, packet: PendingPacket) -> PlayoutModel {
        PlayoutModel {
            pending: waiting_with(self.pending, packet),
            expected: if !self.started && (self.expected is None || self.has_passed(packet)) {
                Some(packet.packet.sequence)
            } else {
                self.expected
            },
            ..self
        }
    }

    pub open spec fn pushed(self, packet: PendingPacket, now: Instant) -> (
        PlayoutModel,
        Seq<AudioPlaybackEvent>,
    ) {
        let next = self.in_generation(packet.packet.generation);
        if packet.packet.generation < self.generation {
            (self, Seq::empty())
        } else if next.started && next.has_passed(packet) {
            (next, Seq::empty())
        } else {
            next.joined(packet).drained(now)
        }
    }

    /// What a call plays.
    pub open spec fn called(self, call: PlayoutCall) -> (PlayoutModel, Seq<AudioPlaybackEvent>) {
        match call {
            PlayoutCall::Push { packet, now } => self.pushed(packet, now),
            PlayoutCall::Expire { now } => self.drained(now),
        }
    }

    /// What a history of calls plays, one after the other.
    pub open spec fn played(self, calls: Seq<PlayoutCall>) -> (
        PlayoutModel,
        Seq<AudioPlaybackEvent>,
    )
        decreases calls.len(),
    {
        if calls.len() == 0 {
            (self, Seq::empty())
        } else {
            let (before, events) = self.played(calls.drop_last());
            let (after, more) = before.called(calls.last());
            (after, events + more)
        }
    }
}

proof fn lemma_place(pending: Seq<PendingPacket>, sequence: u64, at: int)
    requires
        is_place(pending, sequence, at),
    ensures
        place(pending, sequence) == at,
{
    let other = place(pending, sequence);
    assert(is_place(pending, sequence, other));
    if other < at {
        assert(pending[other].packet.sequence < sequence);
    } else if at < other {
        assert(pending[at].packet.sequence < sequence);
    }
}

proof fn lemma_has_place(pending: Seq<PendingPacket>, sequence: u64) -> (at: int)
    requires
        is_ascending(pending),
    ensures
        is_place(pending, sequence, at),
    decreases pending.len(),
{
    if pending.len() == 0 || pending.last().packet.sequence < sequence {
        pending.len() as int
    } else {
        let shorter = pending.drop_last();
        assert(is_ascending(shorter)) by {
            assert forall|i: int, j: int| 0 <= i < j < shorter.len() implies (
            #[trigger] shorter[i]).packet.sequence < (#[trigger] shorter[j]).packet.sequence by {
                assert(pending[i].packet.sequence < pending[j].packet.sequence);
            }
        }
        let at = lemma_has_place(shorter, sequence);
        assert forall|i: int| 0 <= i < at implies (
        #[trigger] pending[i]).packet.sequence < sequence by {
            assert(shorter[i] == pending[i]);
        }
        assert forall|i: int| at <= i < pending.len() implies sequence <= (
        #[trigger] pending[i]).packet.sequence by {
            if i < shorter.len() {
                assert(shorter[i] == pending[i]);
            }
        }
        at
    }
}

/// One more packet leaves the waiting ones in order, and loses none of them.
proof fn lemma_waiting(pending: Seq<PendingPacket>, packet: PendingPacket)
    requires
        is_ascending(pending),
    ensures
        is_ascending(waiting_with(pending, packet)),
        waiting_with(pending, packet).len() > 0,
        forall|i: int|
            0 <= i < waiting_with(pending, packet).len() ==> (#[trigger] waiting_with(
                pending,
                packet,
            )[i]) == packet || exists|j: int|
                0 <= j < pending.len() && #[trigger] pending[j] == waiting_with(pending, packet)[i],
{
    let sequence = packet.packet.sequence;
    let at = lemma_has_place(pending, sequence);
    lemma_place(pending, sequence, at);
    let after = waiting_with(pending, packet);
    if at < pending.len() && pending[at].packet.sequence == sequence {
        assert forall|i: int| 0 <= i < after.len() implies (#[trigger] after[i]) == packet
            || exists|j: int| 0 <= j < pending.len() && #[trigger] pending[j] == after[i] by {
            assert(pending[i] == after[i]);
        }
    } else {
        assert forall|i: int, j: int| 0 <= i < j < after.len() implies (
        #[trigger] after[i]).packet.sequence < (#[trigger] after[j]).packet.sequence by {
            if i < at && j > at {
                assert(pending[i].packet.sequence < pending[j - 1].packet.sequence);
            } else if i < at && j < at {
                assert(pending[i].packet.sequence < pending[j].packet.sequence);
            } else if i > at {
                assert(pending[i - 1].packet.sequence < pending[j - 1].packet.sequence);
            } else if i == at {
                assert(sequence <= pending[j - 1].packet.sequence);
                if j - 1 > at {
                    assert(pending[at].packet.sequence < pending[j - 1].packet.sequence);
                }
            }
        }
        assert forall|i: int| 0 <= i < after.len() implies (#[trigger] after[i]) == packet
            || exists|j: int| 0 <= j < pending.len() && #[trigger] pending[j] == after[i] by {
            if i < at {
                assert(pending[i] == after[i]);
            } else if i > at {
                assert(pending[i - 1] == after[i]);
            }
        }
    }
}

proof fn lemma_joined(playout: PlayoutModel, packet: PendingPacket)
    requires
        playout.well_formed(),
        !(playout.started && playout.has_passed(packet)),
    ensures
        playout.joined(packet).well_formed(),
        playout.joined(packet).pending.len() > 0,
{
    lemma_waiting(playout.pending, packet);
    let joined = playout.joined(packet);
    assert forall|i: int| 0 <= i < joined.pending.len() implies match joined.expected {
        Some(expected) => expected <= (#[trigger] joined.pending[i]).packet.sequence,
        None => true,
    } by {
        if joined.pending[i] != packet {
            let j = choose|j: int|
                0 <= j < playout.pending.len() && #[trigger] playout.pending[j]
                    == joined.pending[i];
            assert(playout.pending[j] == joined.pending[i]);
        }
    }
}

impl Default for OrderedAudioPackets {
    fn default() -> (packets: Self)
        ensures
            packets@ == PlayoutModel::initial(),
            packets@.well_formed(),
    {
        let packets = OrderedAudioPackets {
            generation: 0,
            expected: None,
            pending: Vec::new(),
            started: false,
            last_timestamp: None,
        };
        assert(packets@ =~= PlayoutModel::initial());
        packets
    }
}

impl OrderedAudioPackets {
    /// Notes that the host has come to `generation`.
    pub fn generation(&mut self, generation: u64)
        requires
            old(self)@.well_formed(),
        ensures
            final(self)@ == old(self)@.in_generation(generation),
            final(self)@.well_formed(),
    {
        if generation > self.generation {
            self.generation = generation;
            self.expected = None;
            self.pending = Vec::new();
            self.started = false;
            self.last_timestamp = None;
            assert(self@ =~= old(self)@.in_generation(generation));
        }
    }

    /// Adds a packet: what is played now.
    pub fn push(
        &mut self,
        packet: AudioPacket,
        now: Instant,
        assembled_at_micros: u64,
        assembled_payload_sha256: Option<[u8; 32]>,
    ) -> (events: Vec<AudioPlaybackEvent>)
        requires
            old(self)@.well_formed(),
        ensures
            (final(self)@, events@) == old(self)@.pushed(
                (PendingPacket {
                    packet,
                    received: now,
                    assembled_at_micros,
                    assembled_payload_sha256,
                }),
                now,
            ),
            final(self)@.well_formed(),
            is_unbroken(events@),
    {
        if packet.generation < self.generation {
            return no_events();
        }
        self.generation(packet.generation);
        let ghost next = self@;
        let sequence = packet.sequence;
        let late = match self.expected {
            Some(expected) => sequence < expected,
            None => false,
        };
        if self.started && late {
            return no_events();
        }
        if !self.started && (self.expected.is_none() || late) {
            self.expected = Some(sequence);
        }
        let waiting = PendingPacket {
            packet,
            received: now,
            assembled_at_micros,
            assembled_payload_sha256,
        };
        proof {
            lemma_joined(next, waiting);
        }
        self.wait(waiting);
        assert(self@ =~= next.joined(waiting));
        self.drain(now)
    }

    /// What is played because its time has come.
    pub fn expire(&mut self, now: Instant) -> (events: Vec<AudioPlaybackEvent>)
        requires
            old(self)@.well_formed(),
        ensures
            (final(self)@, events@) == old(self)@.drained(now),
            final(self)@.well_formed(),
            is_unbroken(events@),
            old(self)@.expected matches Some(expected) ==> is_continuous(
                events@,
                expected as nat,
            ),
            !old(self)@.started && events@.len() > 0 ==> old(self)@.is_given_up(now),
    {
        self.drain(now)
    }

    fn wait(&mut self, packet: PendingPacket)
        requires
            is_ascending(old(self)@.pending),
        ensures
            final(self)@ == (PlayoutModel {
                pending: waiting_with(old(self)@.pending, packet),
                ..old(self)@
            }),
    {
        let ghost pending = self.pending@;
        let sequence = packet.packet.sequence;
        let mut at: usize = 0;
        while at < self.pending.len() && self.pending[at].packet.sequence < sequence
            invariant
                self.pending@ == pending,
                at <= pending.len(),
                is_ascending(pending),
                forall|i: int| 0 <= i < at ==> (#[trigger] pending[i]).packet.sequence < sequence,
            decreases pending.len() - at,
        {
            at = at + 1;
        }
        proof {
            assert(is_place(pending, sequence, at as int));
            lemma_place(pending, sequence, at as int);
        }
        if at < self.pending.len() && self.pending[at].packet.sequence == sequence {
            return;
        }
        self.pending.insert(at, packet);
        assert(self.pending@ =~= pending.insert(at as int, packet));
    }

    fn is_given_up(&self, now: Instant) -> (result: bool)
        ensures
            result == self@.is_given_up(now),
    {
        self.pending.len() > 0 && (self.pending.len() >= AUDIO_QUEUE_PACKETS
            || now.saturating_duration_since(self.pending[0].received).nanos >= AUDIO_WAIT_NANOS)
    }

    fn drain(&mut self, now: Instant) -> (ready: Vec<AudioPlaybackEvent>)
        requires
            old(self)@.well_formed(),
        ensures
            (final(self)@, ready@) == old(self)@.drained(now),
            final(self)@.well_formed(),
            is_unbroken(ready@),
            old(self)@.expected matches Some(expected) ==> is_continuous(ready@, expected as nat),
            !old(self)@.started && ready@.len() > 0 ==> old(self)@.is_given_up(now),
    {
        proof {
            lemma_drained_is_unbroken(self@, now);
        }
        if !self.started {
            if !self.is_given_up(now) {
                return no_events();
            }
            self.started = true;
        }
        let ghost begin = self@;
        let mut ready: Vec<AudioPlaybackEvent> = Vec::new();
        assert(ready@ + begin.released(now).1 =~= begin.released(now).1);
        while self.pending.len() > 0 && self.expected.is_some()
            invariant_except_break
                self@.well_formed(),
                self@.released(now).0 == begin.released(now).0,
                ready@ + self@.released(now).1 == begin.released(now).1,
            ensures
                self@.well_formed(),
                (self@, ready@) == begin.released(now),
            decreases
                    self@.pending.len(),
                    if self@.pending.len() > 0 && self@.expected != Some(
                        self@.pending[0].packet.sequence,
                    ) {
                        1int
                    } else {
                        0int
                    },
        {
            let ghost before = self@;
            let ghost shown = ready@;
            let expected = match self.expected {
                Some(expected) => expected,
                None => 0,
            };
            if self.pending[0].packet.sequence == expected {
                let next = self.pending.remove(0);
                self.last_timestamp = Some(next.packet.captured_at_micros);
                self.expected = expected.checked_add(1);
                ready.push(
                    AudioPlaybackEvent::Packet {
                        packet: next.packet,
                        assembled_at: next.received,
                        released_at: now,
                        assembled_at_micros: next.assembled_at_micros,
                        assembled_payload_sha256: next.assembled_payload_sha256,
                    },
                );
                proof {
                    assert(self@.pending =~= before.pending.skip(1));
                    assert(self@ =~= before.after_packet());
                    assert(ready@ =~= shown.push(before.first_packet(now)));
                    assert(ready@ + self@.released(now).1 =~= shown + (seq![
                        before.first_packet(now),
                    ] + self@.released(now).1));
                    assert forall|i: int| 0 <= i < self@.pending.len() implies match self@.expected {
                        Some(next_expected) => next_expected <= (
                        #[trigger] self@.pending[i]).packet.sequence,
                        None => true,
                    } by {
                        assert(before.pending[0].packet.sequence < before.pending[i
                            + 1].packet.sequence);
                    }
                }
                continue;
            }
            if !self.is_given_up(now) {
                proof {
                    assert(before.released(now) == (before, Seq::<AudioPlaybackEvent>::empty()));
                    assert(ready@ + Seq::<AudioPlaybackEvent>::empty() =~= ready@);
                }
                break;
            }
            let next_sequence = self.pending[0].packet.sequence;
            let next_captured = self.pending[0].packet.captured_at_micros;
            let captured_at_micros = missing_timestamp(
                self.last_timestamp,
                expected,
                &self.pending[0].packet,
            );
            self.last_timestamp = next_captured.checked_sub(PACKET_DURATION_MICROS);
            self.expected = Some(next_sequence);
            ready.push(
                AudioPlaybackEvent::Missing {
                    generation: self.generation,
                    sequence: expected,
                    captured_at_micros,
                    missing_packets: next_sequence.saturating_sub(expected),
                },
            );
            proof {
                assert(self@ =~= before.after_gap());
                assert(ready@ =~= shown.push(before.first_gap()));
                assert(ready@ + self@.released(now).1 =~= shown + (seq![before.first_gap()]
                    + self@.released(now).1));
            }
        }
        ready
    }
}

fn no_events() -> (events: Vec<AudioPlaybackEvent>)
    ensures
        events@ == Seq::<AudioPlaybackEvent>::empty(),
{
    let events: Vec<AudioPlaybackEvent> = Vec::new();
    assert(events@ =~= Seq::<AudioPlaybackEvent>::empty());
    events
}

fn missing_timestamp(last: Option<u64>, expected: u64, next: &AudioPacket) -> (timestamp: u64)
    requires
        expected <= next.sequence,
    ensures
        timestamp == gap_timestamp(last, expected, *next),
{
    match last {
        Some(timestamp) => match timestamp.checked_add(PACKET_DURATION_MICROS) {
            Some(timestamp) => {
                return timestamp;
            },
            None => {},
        },
        None => {},
    }
    match (next.sequence - expected).checked_mul(PACKET_DURATION_MICROS) {
        Some(distance) => match next.captured_at_micros.checked_sub(distance) {
            Some(timestamp) => timestamp,
            None => next.captured_at_micros,
        },
        None => next.captured_at_micros,
    }
}

/// The sequence an event begins at.
pub open spec fn event_sequence(event: AudioPlaybackEvent) -> u64 {
    match event {
        AudioPlaybackEvent::Packet { packet, .. } => packet.sequence,
        AudioPlaybackEvent::Missing { sequence, .. } => sequence,
    }
}

/// How many sequences an event stands for.
pub open spec fn event_span(event: AudioPlaybackEvent) -> nat {
    match event {
        AudioPlaybackEvent::Packet { .. } => 1,
        AudioPlaybackEvent::Missing { missing_packets, .. } => missing_packets as nat,
    }
}

/// Events that follow each other from `start` on without a gap or a repetition.
pub open spec fn is_continuous(events: Seq<AudioPlaybackEvent>, start: nat) -> bool
    decreases events.len(),
{
    events.len() == 0 || (event_sequence(events[0]) == start && event_span(events[0]) > 0
        && is_continuous(events.skip(1), start + event_span(events[0])))
}

/// How many sequences the events stand for.
pub open spec fn total_span(events: Seq<AudioPlaybackEvent>) -> nat
    decreases events.len(),
{
    if events.len() == 0 {
        0
    } else {
        event_span(events[0]) + total_span(events.skip(1))
    }
}

/// The sequence that is played next: past the last there is, where none is
/// expected any more.
pub open spec fn next_sequence(expected: Option<u64>) -> nat {
    match expected {
        Some(sequence) => sequence as nat,
        None => (u64::MAX + 1) as nat,
    }
}

/// Events that follow each other, wherever they start.
pub open spec fn is_unbroken(events: Seq<AudioPlaybackEvent>) -> bool {
    events.len() > 0 ==> is_continuous(events, event_sequence(events[0]) as nat)
}

proof fn lemma_drained_is_unbroken(playout: PlayoutModel, now: Instant)
    requires
        playout.well_formed(),
    ensures
        is_unbroken(playout.drained(now).1),
        playout.expected matches Some(expected) ==> is_continuous(
            playout.drained(now).1,
            expected as nat,
        ),
        !playout.started && playout.drained(now).1.len() > 0 ==> playout.is_given_up(now),
{
    let begun = PlayoutModel { started: true, ..playout };
    if begun.expected is Some {
        law_playout_is_continuous(begun, now);
    }
}

/// What is played follows on without a gap or a repetition: from the packet that
/// was expected, each event begins where the one before ended, and what is
/// expected then is where the last one ended.
#[verifier::spinoff_prover]
#[verifier::rlimit(60)]
pub proof fn law_playout_is_continuous(playout: PlayoutModel, now: Instant)
    requires
        playout.well_formed(),
        playout.expected is Some,
    ensures
        ({
            let (end, events) = playout.released(now);
            &&& is_continuous(events, playout.expected->0 as nat)
            &&& next_sequence(end.expected) == playout.expected->0 + total_span(events)
            &&& end.well_formed()
            &&& end.started == playout.started
            &&& end.generation == playout.generation
            &&& playout.is_given_up(now) ==> events.len() > 0
        }),
    decreases
            playout.pending.len(),
            if playout.pending.len() > 0 && playout.expected != Some(
                playout.pending[0].packet.sequence,
            ) {
                1int
            } else {
                0int
            },
{
    let (end, events) = playout.released(now);
    if playout.pending.len() == 0 {
    } else if playout.pending[0].packet.sequence == playout.expected->0 {
        let next = playout.after_packet();
        assert(events.skip(1) =~= next.released(now).1);
        assert forall|i: int| 0 <= i < next.pending.len() implies match next.expected {
            Some(expected) => expected <= (#[trigger] next.pending[i]).packet.sequence,
            None => true,
        } by {
            assert(playout.pending[0].packet.sequence < playout.pending[i + 1].packet.sequence);
        }
        assert(is_ascending(next.pending)) by {
            assert forall|i: int, j: int| 0 <= i < j < next.pending.len() implies (
            #[trigger] next.pending[i]).packet.sequence < (
            #[trigger] next.pending[j]).packet.sequence by {
                assert(playout.pending[i + 1].packet.sequence < playout.pending[j
                    + 1].packet.sequence);
            }
        }
        assert(next.well_formed());
        if next.expected is Some {
            law_playout_is_continuous(next, now);
        } else {
            assert(next.released(now).1 =~= Seq::<AudioPlaybackEvent>::empty());
            assert(next.pending.len() == 0) by {
                if next.pending.len() > 0 {
                    assert(playout.pending[0].packet.sequence
                        < playout.pending[1].packet.sequence);
                }
            }
        }
        assert(events[0] == playout.first_packet(now));
        assert(end == next.released(now).0);
        assert(total_span(events) == 1 + total_span(next.released(now).1));
        assert(is_continuous(events.skip(1), (playout.expected->0 + 1) as nat));
        assert(is_continuous(events, playout.expected->0 as nat));
    } else if playout.is_given_up(now) {
        let next = playout.after_gap();
        assert(events.skip(1) =~= next.released(now).1);
        assert(events[0] == playout.first_gap());
        assert(next.well_formed()) by {
            assert forall|i: int| 0 <= i < next.pending.len() implies next.expected->0 <= (
            #[trigger] next.pending[i]).packet.sequence by {
                if i > 0 {
                    assert(playout.pending[0].packet.sequence < playout.pending[i].packet.sequence);
                }
            }
        }
        law_playout_is_continuous(next, now);
        assert(end == next.released(now).0);
        assert(event_span(events[0]) == playout.pending[0].packet.sequence - playout.expected->0);
        assert(is_continuous(events, playout.expected->0 as nat));
    }
}

proof fn lemma_continuous_append(
    events: Seq<AudioPlaybackEvent>,
    more: Seq<AudioPlaybackEvent>,
    start: nat,
)
    requires
        is_continuous(events, start),
        is_continuous(more, start + total_span(events)),
    ensures
        is_continuous(events + more, start),
        total_span(events + more) == total_span(events) + total_span(more),
    decreases events.len(),
{
    if events.len() == 0 {
        assert(events + more =~= more);
    } else {
        assert((events + more).skip(1) =~= events.skip(1) + more);
        lemma_continuous_append(events.skip(1), more, start + event_span(events[0]));
    }
}

/// Events that follow each other rise: none of them stands for a sequence that
/// another one stands for.
proof fn lemma_continuous_rises(events: Seq<AudioPlaybackEvent>, start: nat)
    requires
        is_continuous(events, start),
    ensures
        forall|i: int|
            0 <= i < events.len() ==> start <= event_sequence(#[trigger] events[i]) && event_span(
                events[i],
            ) >= 1,
        forall|i: int, j: int|
            #![trigger events[i], events[j]]
            0 <= i < j < events.len() ==> event_sequence(events[i]) + event_span(events[i])
                <= event_sequence(events[j]) && (j == i + 1 ==> event_sequence(events[j])
                == event_sequence(events[i]) + event_span(events[i])),
    decreases events.len(),
{
    if events.len() > 0 {
        let rest = events.skip(1);
        lemma_continuous_rises(rest, start + event_span(events[0]));
        assert forall|i: int| 0 <= i < events.len() implies start <= event_sequence(
            #[trigger] events[i],
        ) && event_span(events[i]) >= 1 by {
            if i > 0 {
                assert(events[i] == rest[i - 1]);
            }
        }
        assert forall|i: int, j: int|
            #![trigger events[i], events[j]]
            0 <= i < j < events.len() implies event_sequence(events[i]) + event_span(events[i])
            <= event_sequence(events[j]) && (j == i + 1 ==> event_sequence(events[j])
            == event_sequence(events[i]) + event_span(events[i])) by {
            assert(events[j] == rest[j - 1]);
            if i > 0 {
                assert(events[i] == rest[i - 1]);
            }
        }
    }
}

/// A playout that holds nothing yet.
pub open spec fn fresh_playout(generation: u64) -> PlayoutModel {
    PlayoutModel { generation, ..PlayoutModel::initial() }
}

/// A packet of a later generation meets a playout that holds nothing yet.
pub proof fn law_a_generation_starts_afresh(
    playout: PlayoutModel,
    packet: PendingPacket,
    now: Instant,
)
    requires
        playout.generation < packet.packet.generation,
    ensures
        playout.in_generation(packet.packet.generation) == fresh_playout(
            packet.packet.generation,
        ),
        playout.pushed(packet, now) == fresh_playout(packet.packet.generation).pushed(packet, now),
{
    let fresh = fresh_playout(packet.packet.generation);
    assert(playout.in_generation(packet.packet.generation) =~= fresh);
}

/// No packet of the history is of a later generation.
pub open spec fn stays_in_generation(calls: Seq<PlayoutCall>, generation: u64) -> bool {
    forall|i: int|
        0 <= i < calls.len() ==> match #[trigger] calls[i] {
            PlayoutCall::Push { packet, .. } => packet.packet.generation <= generation,
            PlayoutCall::Expire { .. } => true,
        }
}

/// Over any history of calls within a generation, all that was played follows on
/// without a gap or a repetition: each event begins exactly where the one before
/// it ended, the next packet is expected where the last one ended, and nothing
/// was played as long as playback has not started.
pub proof fn law_history_is_continuous(generation: u64, calls: Seq<PlayoutCall>)
    requires
        stays_in_generation(calls, generation),
    ensures
        ({
            let (end, events) = fresh_playout(generation).played(calls);
            &&& end.well_formed()
            &&& end.generation == generation
            &&& end.started <==> events.len() > 0
            &&& events.len() > 0 ==> {
                let start = event_sequence(events[0]) as nat;
                &&& is_continuous(events, start)
                &&& next_sequence(end.expected) == start + total_span(events)
            }
        }),
    decreases calls.len(),
{
    if calls.len() > 0 {
        let earlier = calls.drop_last();
        let call = calls.last();
        assert(stays_in_generation(earlier, generation)) by {
            assert forall|i: int| 0 <= i < earlier.len() implies match #[trigger] earlier[i] {
                PlayoutCall::Push { packet, .. } => packet.packet.generation <= generation,
                PlayoutCall::Expire { .. } => true,
            } by {
                assert(earlier[i] == calls[i]);
            }
        }
        assert(call == calls[calls.len() - 1]);
        law_history_is_continuous(generation, earlier);
        let (before, events) = fresh_playout(generation).played(earlier);
        let (after, more) = before.called(call);
        match call {
            PlayoutCall::Push { packet, now } => {
                if packet.packet.generation < generation || (before.started && before.has_passed(
                    packet,
                )) {
                    assert(events + more =~= events);
                } else {
                    lemma_joined(before, packet);
                    lemma_drained(before.joined(packet), now, events);
                }
            },
            PlayoutCall::Expire { now } => {
                lemma_drained(before, now, events);
            },
        }
    }
}

proof fn lemma_drained(playout: PlayoutModel, now: Instant, events: Seq<AudioPlaybackEvent>)
    requires
        playout.well_formed(),
        playout.started <==> events.len() > 0,
        events.len() > 0 ==> is_continuous(events, event_sequence(events[0]) as nat)
            && next_sequence(playout.expected) == event_sequence(events[0]) + total_span(events),
    ensures
        ({
            let (end, more) = playout.drained(now);
            let all = events + more;
            &&& end.well_formed()
            &&& end.generation == playout.generation
            &&& end.started <==> all.len() > 0
            &&& all.len() > 0 ==> is_continuous(all, event_sequence(all[0]) as nat)
                && next_sequence(end.expected) == event_sequence(all[0]) + total_span(all)
        }),
{
    let (end, more) = playout.drained(now);
    if !playout.started && !playout.is_given_up(now) {
        assert(events + more =~= events);
    } else {
        let begun = PlayoutModel { started: true, ..playout };
        assert(begun.is_given_up(now) == playout.is_given_up(now));
        if begun.expected is Some {
            law_playout_is_continuous(begun, now);
            if playout.started {
                lemma_continuous_append(events, more, event_sequence(events[0]) as nat);
            } else {
                assert(events + more =~= more);
            }
        } else {
            assert(events + more =~= events);
        }
    }
}

/// Over any history of calls within a generation, each event starts exactly where
/// the one before it ended: no packet is played twice, and each gap is told once
/// and holds at least one packet.
pub proof fn law_nothing_is_played_twice(generation: u64, calls: Seq<PlayoutCall>)
    requires
        stays_in_generation(calls, generation),
    ensures
        ({
            let events = fresh_playout(generation).played(calls).1;
            &&& forall|i: int| 0 <= i < events.len() ==> event_span(#[trigger] events[i]) >= 1
            &&& forall|i: int, j: int|
                #![trigger events[i], events[j]]
                0 <= i && i + 1 == j && j < events.len() ==> event_sequence(events[j])
                    == event_sequence(events[i]) + event_span(events[i])
            &&& forall|i: int, j: int|
                #![trigger events[i], events[j]]
                0 <= i < j < events.len() ==> event_sequence(events[i]) + event_span(events[i])
                    <= event_sequence(events[j])
        }),
{
    law_history_is_continuous(generation, calls);
    let events = fresh_playout(generation).played(calls).1;
    if events.len() > 0 {
        lemma_continuous_rises(events, event_sequence(events[0]) as nat);
    }
}

/// Over any history of calls within a generation, the first call that plays
/// something finds the queue full, or the lowest packet in it old enough.
pub proof fn law_playback_waits_to_start(
    generation: u64,
    calls: Seq<PlayoutCall>,
    call: PlayoutCall,
)
    requires
        stays_in_generation(calls.push(call), generation),
        fresh_playout(generation).played(calls).1.len() == 0,
        fresh_playout(generation).played(calls.push(call)).1.len() > 0,
    ensures
        ({
            let before = fresh_playout(generation).played(calls).0;
            let (waiting, now) = match call {
                PlayoutCall::Push { packet, now } => (before.joined(packet), now),
                PlayoutCall::Expire { now } => (before, now),
            };
            ||| waiting.pending.len() >= AUDIO_QUEUE_PACKETS
            ||| waiting.pending.len() > 0 && now.spec_since(waiting.pending[0].received).nanos
                >= AUDIO_WAIT_NANOS
        }),
{
    let all = calls.push(call);
    assert(all.drop_last() =~= calls);
    assert(all[calls.len() as int] == call);
    assert(stays_in_generation(calls, generation)) by {
        assert forall|i: int| 0 <= i < calls.len() implies match #[trigger] calls[i] {
            PlayoutCall::Push { packet, .. } => packet.packet.generation <= generation,
            PlayoutCall::Expire { .. } => true,
        } by {
            assert(all[i] == calls[i]);
        }
    }
    law_history_is_continuous(generation, calls);
}

/// A packet of a generation that has passed is never played.
pub proof fn law_old_generations_are_discarded(
    playout: PlayoutModel,
    packet: PendingPacket,
    now: Instant,
)
    requires
        packet.packet.generation < playout.generation,
    ensures
        playout.pushed(packet, now) == (playout, Seq::<AudioPlaybackEvent>::empty()),
{
}

/// When the wait is over: four packets wait, or the first of them has waited
/// for 40 ms.
pub proof fn law_when_the_wait_is_over(playout: PlayoutModel, now: Instant)
    ensures
        playout.is_given_up(now) <==> playout.pending.len() >= 4 || (playout.pending.len() > 0
            && playout.pending[0].received.nanos + 40_000_000 <= now.nanos),
{
}

/// The packets among events, in their order.
pub open spec fn packets_of(events: Seq<AudioPlaybackEvent>) -> Seq<AudioPacket>
    decreases events.len(),
{
    if events.len() == 0 {
        Seq::empty()
    } else {
        match events[0] {
            AudioPlaybackEvent::Packet { packet, .. } => seq![packet] + packets_of(events.skip(1)),
            AudioPlaybackEvent::Missing { .. } => packets_of(events.skip(1)),
        }
    }
}

/// The packets that wait.
pub open spec fn waiting_packets(pending: Seq<PendingPacket>) -> Seq<AudioPacket> {
    pending.map_values(|waiting: PendingPacket| waiting.packet)
}

/// What is released is what waited, from the first on: the packets among the
/// events, followed by those that still wait, are those that waited before.
/// Then the next packet is not there, and the wait is not over, or nothing
/// waits.
pub proof fn law_released_packets_waited(playout: PlayoutModel, now: Instant)
    requires
        playout.well_formed(),
        playout.expected is Some,
    ensures
        ({
            let (end, events) = playout.released(now);
            &&& packets_of(events) + waiting_packets(end.pending) == waiting_packets(
                playout.pending,
            )
            &&& end.pending.len() == 0 || end.expected is None || (end.pending[0].packet.sequence
                != end.expected->0 && end.pending.len() < 4 && now.nanos
                < end.pending[0].received.nanos + 40_000_000)
        }),
    decreases
            playout.pending.len(),
            if playout.pending.len() > 0 && playout.expected != Some(
                playout.pending[0].packet.sequence,
            ) {
                1int
            } else {
                0int
            },
{
    let pending = playout.pending;
    let (end, events) = playout.released(now);
    if pending.len() == 0 {
        assert(packets_of(events) + waiting_packets(end.pending) =~= waiting_packets(pending));
    } else if pending[0].packet.sequence == playout.expected->0 {
        let next = playout.after_packet();
        assert(pending[0].packet.sequence < u64::MAX || pending.len() == 1) by {
            if pending.len() > 1 {
                assert(pending[0].packet.sequence < pending[1].packet.sequence);
            }
        }
        assert forall|i: int, j: int| 0 <= i < j < next.pending.len() implies (
        #[trigger] next.pending[i]).packet.sequence < (
        #[trigger] next.pending[j]).packet.sequence by {
            assert(pending[i + 1].packet.sequence < pending[j + 1].packet.sequence);
        }
        if next.expected is Some {
            assert forall|i: int| 0 <= i < next.pending.len() implies next.expected->0 <= (
            #[trigger] next.pending[i]).packet.sequence by {
                assert(pending[0].packet.sequence < pending[i + 1].packet.sequence);
            }
            assert(next.well_formed());
            law_released_packets_waited(next, now);
        } else {
            assert(next.pending.len() == 0);
            assert(next.released(now).1 =~= Seq::empty());
            assert(waiting_packets(next.pending) =~= Seq::empty());
        }
        let rest = next.released(now).1;
        assert(events.skip(1) =~= rest);
        assert(packets_of(events) =~= seq![pending[0].packet] + packets_of(rest));
        assert(waiting_packets(pending) =~= seq![pending[0].packet] + waiting_packets(
            next.pending,
        ));
        assert(packets_of(events) + waiting_packets(end.pending) =~= seq![pending[0].packet] + (
        packets_of(rest) + waiting_packets(end.pending)));
    } else if playout.is_given_up(now) {
        let next = playout.after_gap();
        assert forall|i: int| 0 <= i < next.pending.len() implies next.expected->0 <= (
        #[trigger] next.pending[i]).packet.sequence by {
            if i > 0 {
                assert(pending[0].packet.sequence < pending[i].packet.sequence);
            }
        }
        assert(next.well_formed());
        law_released_packets_waited(next, now);
        assert(events.skip(1) =~= next.released(now).1);
    } else {
        assert(packets_of(events) + waiting_packets(end.pending) =~= waiting_packets(pending));
    }
}

/// The packet that is next is released as it came: with the time at which it
/// was received, and now.
pub proof fn law_a_packet_is_released_as_it_came(playout: PlayoutModel, now: Instant)
    requires
        playout.pending.len() > 0,
        playout.expected == Some(playout.pending[0].packet.sequence),
    ensures
        ({
            let first = playout.pending[0];
            let events = playout.released(now).1;
            &&& events.len() > 0
            &&& events[0] matches AudioPlaybackEvent::Packet {
                packet,
                assembled_at,
                released_at,
                assembled_at_micros,
                assembled_payload_sha256,
            }
            &&& packet == first.packet
            &&& assembled_at == first.received
            &&& released_at == now
            &&& assembled_at_micros == first.assembled_at_micros
            &&& assembled_payload_sha256 == first.assembled_payload_sha256
        }),
{
}

/// A gap that is given up is told from the sequence that was expected up to the
/// packet that waits, and starts 10 ms after the packet before it. Where none
/// was, it starts as many times 10 ms before the packet that waits as there are
/// packets missing.
pub proof fn law_a_gap_is_told(playout: PlayoutModel, now: Instant)
    requires
        playout.pending.len() > 0,
        playout.expected matches Some(expected) && expected < playout.pending[0].packet.sequence,
        playout.pending.len() >= 4 || playout.pending[0].received.nanos + 40_000_000 <= now.nanos,
    ensures
        ({
            let next = playout.pending[0].packet;
            let events = playout.released(now).1;
            &&& events.len() > 0
            &&& events[0] matches AudioPlaybackEvent::Missing {
                generation,
                sequence,
                captured_at_micros,
                missing_packets,
            }
            &&& generation == playout.generation
            &&& playout.expected == Some(sequence)
            &&& missing_packets == next.sequence - sequence
            &&& playout.last_timestamp matches Some(last) ==> (last + 10_000 <= u64::MAX
                ==> captured_at_micros == last + 10_000)
            &&& playout.last_timestamp is None && 10_000 * missing_packets
                <= next.captured_at_micros ==> captured_at_micros == next.captured_at_micros
                - 10_000 * missing_packets
        }),
{
}

/// A packet that comes in takes its place by its sequence; one that waits
/// already stays as it is.
pub proof fn law_a_packet_takes_its_place(pending: Seq<PendingPacket>, packet: PendingPacket)
    requires
        is_ascending(pending),
    ensures
        is_ascending(waiting_with(pending, packet)),
        forall|waiting: PendingPacket| #[trigger]
            waiting_with(pending, packet).contains(waiting) <==> pending.contains(waiting) || (
            waiting == packet && forall|i: int|
                0 <= i < pending.len() ==> (#[trigger] pending[i]).packet.sequence
                    != packet.packet.sequence),
{
    let sequence = packet.packet.sequence;
    lemma_place_exists(pending, sequence, pending.len() as int);
    assert(pending.take(pending.len() as int) =~= pending);
    let at = place(pending, sequence);
    assert(is_place(pending, sequence, at));
    let after = waiting_with(pending, packet);
    if at < pending.len() && pending[at].packet.sequence == sequence {
    } else {
        assert forall|i: int| 0 <= i < pending.len() implies (#[trigger] pending[i]).packet.sequence
            != sequence by {
            if i > at {
                assert(pending[at].packet.sequence < pending[i].packet.sequence);
            }
        }
        assert forall|i: int, j: int| 0 <= i < j < after.len() implies (
        #[trigger] after[i]).packet.sequence < (#[trigger] after[j]).packet.sequence by {
            let a = if i < at {
                i
            } else {
                i - 1
            };
            let b = if j < at {
                j
            } else {
                j - 1
            };
            if i == at {
                assert(after[j] == pending[b]);
            } else if j == at {
                assert(after[i] == pending[a]);
            } else {
                assert(after[i] == pending[a] && after[j] == pending[b]);
            }
        }
        assert forall|waiting: PendingPacket| pending.contains(waiting) implies #[trigger]
            after.contains(waiting) by {
            let i = choose|i: int| 0 <= i < pending.len() && pending[i] == waiting;
            if i < at {
                assert(after[i] == waiting);
            } else {
                assert(after[i + 1] == waiting);
            }
        }
        assert(after[at] == packet);
        assert forall|waiting: PendingPacket| #[trigger] after.contains(
            waiting,
        ) implies pending.contains(waiting) || waiting == packet by {
            let i = choose|i: int| 0 <= i < after.len() && after[i] == waiting;
            if i < at {
                assert(pending[i] == waiting);
            } else if i > at {
                assert(pending[i - 1] == waiting);
            }
        }
    }
}

proof fn lemma_place_exists(pending: Seq<PendingPacket>, sequence: u64, count: int)
    requires
        is_ascending(pending),
        0 <= count <= pending.len(),
    ensures
        exists|at: int| is_place(pending.take(count), sequence, at),
    decreases count,
{
    let part = pending.take(count);
    if count == 0 {
        assert(is_place(part, sequence, 0));
    } else if pending[count - 1].packet.sequence < sequence {
        assert forall|i: int| 0 <= i < count implies (#[trigger] part[i]).packet.sequence
            < sequence by {
            if i < count - 1 {
                assert(pending[i].packet.sequence < pending[count - 1].packet.sequence);
            }
        }
        assert(is_place(part, sequence, count));
    } else {
        lemma_place_exists(pending, sequence, count - 1);
        let shorter = pending.take(count - 1);
        let at = choose|at: int| is_place(shorter, sequence, at);
        assert forall|i: int| 0 <= i < count - 1 implies shorter[i] == #[trigger] part[i] by {}
        assert forall|i: int| 0 <= i < at implies (#[trigger] part[i]).packet.sequence
            < sequence by {
            assert(shorter[i] == part[i]);
        }
        assert forall|i: int| at <= i < part.len() implies sequence <= (
        #[trigger] part[i]).packet.sequence by {
            if i < count - 1 {
                assert(shorter[i] == part[i]);
            }
        }
        assert(is_place(part, sequence, at));
    }
}

/// What is expected when a packet comes to wait: once playback has started, what
/// was expected; before that the lower of what was expected and the packet. The
/// packet is passed over where playback has started beyond it, and nowhere else.
pub proof fn law_what_is_expected(playout: PlayoutModel, packet: PendingPacket, now: Instant)
    ensures
        ({
            let sequence = packet.packet.sequence;
            let joined = playout.joined(packet);
            &&& playout.started ==> joined.expected == playout.expected
            &&& !playout.started ==> joined.expected == Some(
                match playout.expected {
                    Some(expected) if expected <= sequence => expected,
                    _ => sequence,
                },
            )
            &&& joined.started == playout.started
            &&& joined.generation == playout.generation
            &&& packet.packet.generation == playout.generation ==> {
                let passed = playout.started && (playout.expected matches Some(expected)
                    && sequence < expected);
                &&& passed ==> playout.pushed(packet, now) == (
                    playout,
                    Seq::<AudioPlaybackEvent>::empty(),
                )
                &&& !passed ==> playout.pushed(packet, now) == joined.drained(now)
            }
        }),
{
}

/// A packet that comes to wait is among those that wait, unless one of its
/// sequence is, and every other stays.
pub proof fn law_packets_wait(playout: PlayoutModel, packet: PendingPacket, other: PendingPacket)
    requires
        is_ascending(playout.pending),
    ensures
        ({
            let after = playout.joined(packet).pending;
            let waits = exists|i: int|
                0 <= i < playout.pending.len() && (#[trigger] playout.pending[i]).packet.sequence
                    == packet.packet.sequence;
            &&& waits ==> after == playout.pending
            &&& !waits ==> after.len() == playout.pending.len() + 1 && after.contains(packet)
            &&& playout.pending.contains(other) ==> after.contains(other)
            &&& after.contains(other) ==> other == packet || playout.pending.contains(other)
        }),
{
    let pending = playout.pending;
    let at = lemma_has_place(pending, packet.packet.sequence);
    lemma_place(pending, packet.packet.sequence, at);
    let after = waiting_with(pending, packet);
    if !(at < pending.len() && pending[at].packet.sequence == packet.packet.sequence) {
        assert(after[at] == packet);
        assert forall|i: int| 0 <= i < pending.len() implies (
        #[trigger] pending[i]).packet.sequence != packet.packet.sequence by {
            if i > at {
                assert(pending[at].packet.sequence < pending[i].packet.sequence);
            }
        }
        if pending.contains(other) {
            let i = pending.index_of(other);
            if i < at {
                assert(after[i] == other);
            } else {
                assert(after[i + 1] == other);
            }
        }
        if after.contains(other) && other != packet {
            let i = after.index_of(other);
            if i < at {
                assert(pending[i] == other);
            } else {
                assert(pending[i - 1] == other);
            }
        }
    }
}

} // verus!
