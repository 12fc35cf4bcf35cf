//! Fixed, bounded pointer datagrams.

use crate::bytes;
use crate::bytes::{get_be, put_be};
use vstd::prelude::*;

verus! {

pub const INPUT_DATAGRAM_SIZE: usize = 36;

/// The greatest coordinate of an absolute position.
pub const MAX_COORDINATE: u16 = 32_767;

#[derive(Clone, Copy, Debug, PartialEq, Eq, Structural)]
pub enum PointerSnapshot {
    Absolute { generation: u64, sequence: u64, x: u16, y: u16 },
    Relative { generation: u64, sequence: u64, cumulative_x: i64, cumulative_y: i64 },
}

#[derive(Clone, Copy, Debug, PartialEq, Eq, Structural)]
pub enum PointerUpdate {
    Absolute { x: u16, y: u16 },
    Relative { delta_x: i64, delta_y: i64 },
}

/// A datagram that is no snapshot, or a step that no update can express.
#[derive(Clone, Copy, Debug, PartialEq, Eq, Structural)]
pub struct InputDatagramError;

impl PointerSnapshot {
    pub open spec fn spec_identity(self) -> (u64, u64) {
        match self {
            PointerSnapshot::Absolute { generation, sequence, .. } => (generation, sequence),
            PointerSnapshot::Relative { generation, sequence, .. } => (generation, sequence),
        }
    }

    #[must_use]
    pub fn generation(self) -> (generation: u64)
        ensures
            generation == self.spec_identity().0,
    {
        self.identity().0
    }

    #[must_use]
    pub fn sequence(self) -> (sequence: u64)
        ensures
            sequence == self.spec_identity().1,
    {
        self.identity().1
    }

    #[must_use]
    pub fn is_absolute(self) -> (result: bool)
        ensures
            result == (self is Absolute),
    {
        match self {
            PointerSnapshot::Absolute { .. } => true,
            PointerSnapshot::Relative { .. } => false,
        }
    }

    fn identity(self) -> (identity: (u64, u64))
        ensures
            identity == self.spec_identity(),
    {
        match self {
            PointerSnapshot::Absolute { generation, sequence, .. } => (generation, sequence),
            PointerSnapshot::Relative { generation, sequence, .. } => (generation, sequence),
        }
    }

    /// "RI", version 1 and the kind.
    pub open spec fn opening(self) -> Seq<u8> {
        seq![
            82,
            73,
            1,
            if self is Absolute {
                1u8
            } else {
                2u8
            },
        ]
    }

    /// What follows the sequence.
    pub open spec fn position(self) -> Seq<u8> {
        match self {
            PointerSnapshot::Absolute { x, y, .. } => bytes::be_bytes(x as nat, 2)
                + bytes::be_bytes(y as nat, 2) + bytes::be_bytes(0, 8) + bytes::be_bytes(0, 4),
            PointerSnapshot::Relative { cumulative_x, cumulative_y, .. } => bytes::be_bytes(
                cumulative_x as u64 as nat,
                8,
            ) + bytes::be_bytes(cumulative_y as u64 as nat, 8),
        }
    }

    /// The 36 bytes of a snapshot.
    pub open spec fn wire(self) -> Seq<u8> {
        self.opening() + bytes::be_bytes(self.spec_identity().0 as nat, 8) + bytes::be_bytes(
            self.spec_identity().1 as nat,
            8,
        ) + self.position()
    }

    #[must_use]
    pub fn encode(self) -> (datagram: Vec<u8>)
        ensures
            datagram@ == self.wire(),
            datagram@.len() == INPUT_DATAGRAM_SIZE,
    {
        let mut out: Vec<u8> = Vec::with_capacity(INPUT_DATAGRAM_SIZE);
        out.push(82);
        out.push(73);
        out.push(1);
        out.push(
            if self.is_absolute() {
                1
            } else {
                2
            },
        );
        assert(out@ =~= self.opening());
        put_be(&mut out, self.generation(), 8);
        put_be(&mut out, self.sequence(), 8);
        let ghost before = out@;
        match self {
            PointerSnapshot::Absolute { x, y, .. } => {
                put_be(&mut out, x as u64, 2);
                put_be(&mut out, y as u64, 2);
                put_be(&mut out, 0, 8);
                put_be(&mut out, 0, 4);
            },
            PointerSnapshot::Relative { cumulative_x, cumulative_y, .. } => {
                put_be(&mut out, cumulative_x as u64, 8);
                put_be(&mut out, cumulative_y as u64, 8);
            },
        }
        proof {
            assert(out@ =~= before + self.position());
            lemma_wire_size(self);
        }
        out
    }

    /// The datagram is an absolute snapshot.
    pub open spec fn spells_absolute(datagram: Seq<u8>) -> bool {
        &&& datagram[3] == 1
        &&& bytes::be_value(datagram.subrange(20, 22)) <= MAX_COORDINATE
        &&& bytes::be_value(datagram.subrange(22, 24)) <= MAX_COORDINATE
        &&& forall|i: int| 24 <= i < INPUT_DATAGRAM_SIZE ==> #[trigger] datagram[i] == 0
    }

    /// The snapshot that a datagram holds, if it holds one.
    pub open spec fn spelled(datagram: Seq<u8>) -> Option<PointerSnapshot> {
        let generation = bytes::be_value(datagram.subrange(4, 12)) as u64;
        let sequence = bytes::be_value(datagram.subrange(12, 20)) as u64;
        if datagram.len() != INPUT_DATAGRAM_SIZE || datagram[0] != 82 || datagram[1] != 73
            || datagram[2] != 1 {
            None
        } else if PointerSnapshot::spells_absolute(datagram) {
            Some(
                PointerSnapshot::Absolute {
                    generation,
                    sequence,
                    x: bytes::be_value(datagram.subrange(20, 22)) as u16,
                    y: bytes::be_value(datagram.subrange(22, 24)) as u16,
                },
            )
        } else if datagram[3] == 2 {
            Some(
                PointerSnapshot::Relative {
                    generation,
                    sequence,
                    cumulative_x: bytes::be_value(datagram.subrange(20, 28)) as u64 as i64,
                    cumulative_y: bytes::be_value(datagram.subrange(28, 36)) as u64 as i64,
                },
            )
        } else {
            None
        }
    }

    pub fn decode(datagram: &[u8]) -> (result: Result<Self, InputDatagramError>)
        ensures
            match result {
                Ok(snapshot) => PointerSnapshot::spelled(datagram@) == Some(snapshot),
                Err(_) => PointerSnapshot::spelled(datagram@) is None,
            },
    {
        if datagram.len() != INPUT_DATAGRAM_SIZE || datagram[0] != 82 || datagram[1] != 73
            || datagram[2] != 1 {
            return Err(InputDatagramError);
        }
        proof {
            bytes::lemma_be_bounds();
        }
        let generation: u64 = get_be(datagram, 4, 8);
        let sequence: u64 = get_be(datagram, 12, 8);
        if datagram[3] == 1 {
            let mut index: usize = 24;
            while index < INPUT_DATAGRAM_SIZE
                invariant
                    24 <= index <= INPUT_DATAGRAM_SIZE,
                    datagram@.len() == INPUT_DATAGRAM_SIZE,
                    datagram@[3] == 1,
                    forall|i: int| 24 <= i < index ==> #[trigger] datagram@[i] == 0,
                decreases INPUT_DATAGRAM_SIZE - index,
            {
                if datagram[index] != 0 {
                    return Err(InputDatagramError);
                }
                index = index + 1;
            }
            let x: u16 = get_be(datagram, 20, 2) as u16;
            let y: u16 = get_be(datagram, 22, 2) as u16;
            if x > MAX_COORDINATE || y > MAX_COORDINATE {
                return Err(InputDatagramError);
            }
            return Ok(PointerSnapshot::Absolute { generation, sequence, x, y });
        }
        if datagram[3] == 2 {
            return Ok(
                PointerSnapshot::Relative {
                    generation,
                    sequence,
                    cumulative_x: get_be(datagram, 20, 8) as i64,
                    cumulative_y: get_be(datagram, 28, 8) as i64,
                },
            );
        }
        Err(InputDatagramError)
    }
}

proof fn lemma_wire_size(snapshot: PointerSnapshot)
    ensures
        snapshot.wire().len() == INPUT_DATAGRAM_SIZE,
{
    bytes::lemma_be_bytes_size(snapshot.spec_identity().0 as nat, 8);
    bytes::lemma_be_bytes_size(snapshot.spec_identity().1 as nat, 8);
    match snapshot {
        PointerSnapshot::Absolute { x, y, .. } => {
            bytes::lemma_be_bytes_size(x as nat, 2);
            bytes::lemma_be_bytes_size(y as nat, 2);
            bytes::lemma_be_bytes_size(0, 8);
            bytes::lemma_be_bytes_size(0, 4);
        },
        PointerSnapshot::Relative { cumulative_x, cumulative_y, .. } => {
            bytes::lemma_be_bytes_size(cumulative_x as u64 as nat, 8);
            bytes::lemma_be_bytes_size(cumulative_y as u64 as nat, 8);
        },
    }
}

/// Every snapshot whose coordinates are in range is read back.
pub proof fn law_snapshot_round_trip(snapshot: PointerSnapshot)
    requires
        snapshot matches PointerSnapshot::Absolute { x, y, .. } ==> x <= MAX_COORDINATE && y
            <= MAX_COORDINATE,
    ensures
        PointerSnapshot::spelled(snapshot.wire()) == Some(snapshot),
{
    let datagram = snapshot.wire();
    let opening = snapshot.opening();
    let (generation, sequence) = snapshot.spec_identity();
    let first = bytes::be_bytes(generation as nat, 8);
    let second = bytes::be_bytes(sequence as nat, 8);
    let position = snapshot.position();
    lemma_wire_size(snapshot);
    bytes::lemma_be_bounds();
    bytes::lemma_be_bytes_size(generation as nat, 8);
    bytes::lemma_be_bytes_size(sequence as nat, 8);
    assert(datagram =~= opening + first + (second + position));
    bytes::lemma_be_at(opening, generation as nat, 8, second + position);
    assert(datagram =~= (opening + first) + second + position);
    bytes::lemma_be_at(opening + first, sequence as nat, 8, position);
    let prefix = opening + first + second;
    match snapshot {
        PointerSnapshot::Absolute { x, y, .. } => {
            let (a, b) = (bytes::be_bytes(x as nat, 2), bytes::be_bytes(y as nat, 2));
            let (c, d) = (bytes::be_bytes(0, 8), bytes::be_bytes(0, 4));
            bytes::lemma_be_bytes_size(x as nat, 2);
            bytes::lemma_be_bytes_size(y as nat, 2);
            assert(datagram =~= prefix + a + (b + c + d));
            bytes::lemma_be_at(prefix, x as nat, 2, b + c + d);
            assert(datagram =~= (prefix + a) + b + (c + d));
            bytes::lemma_be_at(prefix + a, y as nat, 2, c + d);
            lemma_zero_bytes(8);
            lemma_zero_bytes(4);
            assert forall|i: int| 24 <= i < INPUT_DATAGRAM_SIZE implies #[trigger] datagram[i]
                == 0 by {
                if i < 32 {
                    assert(datagram[i] == c[i - 24]);
                } else {
                    assert(datagram[i] == d[i - 32]);
                }
            }
        },
        PointerSnapshot::Relative { cumulative_x, cumulative_y, .. } => {
            let (x, y) = (cumulative_x as u64, cumulative_y as u64);
            let (a, b) = (bytes::be_bytes(x as nat, 8), bytes::be_bytes(y as nat, 8));
            bytes::lemma_be_bytes_size(x as nat, 8);
            bytes::lemma_be_bytes_size(y as nat, 8);
            assert(datagram =~= prefix + a + b);
            bytes::lemma_be_at(prefix, x as nat, 8, b);
            assert(datagram =~= (prefix + a) + b + Seq::<u8>::empty());
            bytes::lemma_be_at(prefix + a, y as nat, 8, Seq::<u8>::empty());
            assert((cumulative_x as u64) as i64 == cumulative_x) by (bit_vector);
            assert((cumulative_y as u64) as i64 == cumulative_y) by (bit_vector);
        },
    }
}

proof fn lemma_zero_bytes(size: nat)
    ensures
        bytes::be_bytes(0, size).len() == size,
        forall|i: int| 0 <= i < size ==> #[trigger] bytes::be_bytes(0, size)[i] == 0,
    decreases size,
{
    if size > 0 {
        lemma_zero_bytes((size - 1) as nat);
        assert forall|i: int| 0 <= i < size implies #[trigger] bytes::be_bytes(0, size)[i] == 0 by {
            if i < size - 1 {
                assert(bytes::be_bytes(0, (size - 1) as nat)[i] == 0);
            }
        }
    }
}

/// What a receiver of snapshots knows.
#[derive(Clone, Copy, Debug, PartialEq, Eq)]
pub struct PointerSnapshotReceiver {
    generation: Option<u64>,
    sequence: u64,
    cumulative: Option<(i64, i64)>,
}

/// The contents of a [`PointerSnapshotReceiver`].
pub struct PointerReceiverModel {
    pub generation: Option<u64>,
    pub sequence: u64,
    pub cumulative: Option<(i64, i64)>,
}

impl View for PointerSnapshotReceiver {
    type V = PointerReceiverModel;

    closed spec fn view(&self) -> PointerReceiverModel {
        PointerReceiverModel {
            generation: self.generation,
            sequence: self.sequence,
            cumulative: self.cumulative,
        }
    }
}

impl PointerReceiverModel {
    pub open spec fn initial() -> PointerReceiverModel {
        PointerReceiverModel { generation: None, sequence: 0, cumulative: None }
    }

    /// A change of generation forgets the sequence and the baseline.
    pub open spec fn at_generation(self, generation: u64) -> PointerReceiverModel {
        if self.generation == Some(generation) {
            self
        } else {
            PointerReceiverModel { generation: Some(generation), sequence: 0, cumulative: None }
        }
    }

    /// The state after a snapshot, and the update that it leads to.
    pub open spec fn pushed(self, snapshot: PointerSnapshot) -> (
        PointerReceiverModel,
        Result<Option<PointerUpdate>, InputDatagramError>,
    ) {
        let (generation, sequence) = snapshot.spec_identity();
        let current = self.at_generation(generation);
        if self.generation matches Some(held) && generation < held {
            (self, Ok(None))
        } else if sequence == 0 || sequence <= current.sequence {
            (current, Ok(None))
        } else {
            match snapshot {
                PointerSnapshot::Absolute { x, y, .. } => (
                    PointerReceiverModel { sequence, cumulative: None, ..current },
                    Ok(Some(PointerUpdate::Absolute { x, y })),
                ),
                PointerSnapshot::Relative { cumulative_x, cumulative_y, .. } => {
                    let next = PointerReceiverModel {
                        sequence,
                        cumulative: Some((cumulative_x, cumulative_y)),
                        ..current
                    };
                    match current.cumulative {
                        None => (next, Ok(None)),
                        Some((x, y)) => if i64::MIN <= cumulative_x - x <= i64::MAX && i64::MIN
                            <= cumulative_y - y <= i64::MAX {
                            (
                                next,
                                Ok(
                                    Some(
                                        PointerUpdate::Relative {
                                            delta_x: (cumulative_x - x) as i64,
                                            delta_y: (cumulative_y - y) as i64,
                                        },
                                    ),
                                ),
                            )
                        } else {
                            (current, Err(InputDatagramError))
                        },
                    }
                },
            }
        }
    }
}

impl Default for PointerSnapshotReceiver {
    fn default() -> (receiver: Self)
        ensures
            receiver@ == PointerReceiverModel::initial(),
    {
        PointerSnapshotReceiver { generation: None, sequence: 0, cumulative: None }
    }
}

impl PointerSnapshotReceiver {
    #[must_use]
    pub fn generation(&self) -> (generation: Option<u64>)
        ensures
            generation == self@.generation,
    {
        self.generation
    }

    #[must_use]
    pub fn sequence(&self) -> (sequence: u64)
        ensures
            sequence == self@.sequence,
    {
        self.sequence
    }

    /// Takes a snapshot in: the update that it leads to, if it leads to one.
    pub fn push(&mut self, snapshot: PointerSnapshot) -> (result: Result<
        Option<PointerUpdate>,
        InputDatagramError,
    >)
        ensures
            (final(self)@, result) == old(self)@.pushed(snapshot),
    {
        let (generation, sequence) = snapshot.identity();
        let held = self.generation;
        match held {
            Some(current) => {
                if generation < current {
                    return Ok(None);
                }
            },
            None => {},
        }
        let same_generation = match held {
            Some(current) => current == generation,
            None => false,
        };
        if !same_generation {
            self.generation = Some(generation);
            self.sequence = 0;
            self.cumulative = None;
        }
        if sequence == 0 || sequence <= self.sequence {
            return Ok(None);
        }
        match snapshot {
            PointerSnapshot::Absolute { x, y, .. } => {
                self.sequence = sequence;
                self.cumulative = None;
                Ok(Some(PointerUpdate::Absolute { x, y }))
            },
            PointerSnapshot::Relative { cumulative_x, cumulative_y, .. } => {
                let update = match self.cumulative {
                    None => None,
                    Some((x, y)) => {
                        let (delta_x, delta_y) = match (
                            cumulative_x.checked_sub(x),
                            cumulative_y.checked_sub(y),
                        ) {
                            (Some(delta_x), Some(delta_y)) => (delta_x, delta_y),
                            _ => {
                                return Err(InputDatagramError);
                            },
                        };
                        Some(PointerUpdate::Relative { delta_x, delta_y })
                    },
                };
                self.sequence = sequence;
                self.cumulative = Some((cumulative_x, cumulative_y));
                Ok(update)
            },
        }
    }
}

/// Lost datagrams lose no motion: whatever of the snapshots between is lost or
/// comes late, the updates add up to the whole motion since the baseline.
pub proof fn law_lost_snapshots_lose_no_motion(
    receiver: PointerReceiverModel,
    middle: PointerSnapshot,
    last: PointerSnapshot,
)
    requires
        receiver.generation == Some(middle.spec_identity().0),
        receiver.generation == Some(last.spec_identity().0),
        receiver.cumulative is Some,
        middle is Relative,
        last is Relative,
        receiver.sequence < middle.spec_identity().1 < last.spec_identity().1,
        receiver.pushed(middle).1 is Ok,
        receiver.pushed(middle).0.pushed(last).1 is Ok,
        receiver.pushed(last).1 is Ok,
    ensures
        ({
            let (state, first) = receiver.pushed(middle);
            let (with_both, second) = state.pushed(last);
            let (with_last, only) = receiver.pushed(last);
            &&& with_both == with_last
            &&& first matches Ok(Some(PointerUpdate::Relative { delta_x: ax, delta_y: ay }))
                && second matches Ok(Some(PointerUpdate::Relative { delta_x: bx, delta_y: by }))
                && only matches Ok(Some(PointerUpdate::Relative { delta_x: cx, delta_y: cy }))
                && ax + bx == cx && ay + by == cy
            &&& with_last.pushed(middle) == (
                with_last,
                Ok::<Option<PointerUpdate>, InputDatagramError>(None),
            )
        }),
{
}

/// A snapshot of an older generation, or one that is not newer, changes nothing.
pub proof fn law_old_snapshots_are_ignored(
    receiver: PointerReceiverModel,
    snapshot: PointerSnapshot,
)
    requires
        receiver.generation matches Some(held) && (snapshot.spec_identity().0 < held || (
        snapshot.spec_identity().0 == held && snapshot.spec_identity().1 <= receiver.sequence)),
    ensures
        receiver.pushed(snapshot) == (
            receiver,
            Ok::<Option<PointerUpdate>, InputDatagramError>(None),
        ),
{
}

/// A newer absolute snapshot (of a newer generation with a sequence that is
/// not zero, or of the held generation with a greater sequence) leads to one
/// absolute update with the snapshot's own x and y, and is what the receiver
/// holds from then on.
pub proof fn law_newer_positions_are_taken(
    receiver: PointerReceiverModel,
    generation: u64,
    sequence: u64,
    x: u16,
    y: u16,
)
    requires
        match receiver.generation {
            None => sequence > 0,
            Some(held) => (generation > held && sequence > 0) || (generation == held && sequence
                > receiver.sequence),
        },
    ensures
        ({
            let (next, result) = receiver.pushed(
                PointerSnapshot::Absolute { generation, sequence, x, y },
            );
            &&& result matches Ok(Some(PointerUpdate::Absolute { x: update_x, y: update_y }))
            &&& update_x == x
            &&& update_y == y
            &&& next.generation == Some(generation)
            &&& next.sequence == sequence
            &&& next.cumulative is None
        }),
{
}

/// A newer relative snapshot leads to the motion since the held one: the
/// difference of the sums, x to x and y to y. Where none is held, in a new
/// generation or after a position, it is only the baseline of what follows.
/// Motion that no update can express is an error, and the baseline stays.
pub proof fn law_newer_sums_are_taken(
    receiver: PointerReceiverModel,
    generation: u64,
    sequence: u64,
    cumulative_x: i64,
    cumulative_y: i64,
)
    requires
        match receiver.generation {
            None => sequence > 0,
            Some(held) => (generation > held && sequence > 0) || (generation == held && sequence
                > receiver.sequence),
        },
    ensures
        ({
            let (next, result) = receiver.pushed(
                PointerSnapshot::Relative { generation, sequence, cumulative_x, cumulative_y },
            );
            let continues = receiver.generation == Some(generation);
            &&& next.generation == Some(generation)
            &&& result is Ok ==> {
                &&& next.sequence == sequence
                &&& next.cumulative == Some((cumulative_x, cumulative_y))
            }
            &&& result is Err ==> next == receiver
            &&& !continues || receiver.cumulative is None ==> (result matches Ok(update)
                && update is None)
            &&& continues ==> (receiver.cumulative matches Some((held_x, held_y)) ==> {
                let fits = i64::MIN <= cumulative_x - held_x <= i64::MAX && i64::MIN
                    <= cumulative_y - held_y <= i64::MAX;
                &&& fits <==> result is Ok
                &&& fits ==> (result matches Ok(
                    Some(PointerUpdate::Relative { delta_x, delta_y }),
                ) && delta_x == cumulative_x - held_x && delta_y == cumulative_y - held_y)
            })
        }),
{
}

/// A snapshot without a sequence moves nothing: at most it opens its
/// generation.
pub proof fn law_unnumbered_snapshots_move_nothing(
    receiver: PointerReceiverModel,
    snapshot: PointerSnapshot,
)
    requires
        match snapshot {
            PointerSnapshot::Absolute { sequence, .. } => sequence == 0,
            PointerSnapshot::Relative { sequence, .. } => sequence == 0,
        },
    ensures
        receiver.pushed(snapshot).1 == Ok::<Option<PointerUpdate>, InputDatagramError>(None),
        receiver.generation == Some(snapshot.spec_identity().0) ==> receiver.pushed(snapshot).0
            == receiver,
{
}

/// What the bytes of a snapshot are: "RI", the version, the kind, then from
/// the given places on generation, sequence and both coordinates, each with
/// its highest byte first, and zeros behind a position.
pub proof fn law_snapshot_layout(datagram: Seq<u8>, snapshot: PointerSnapshot)
    requires
        PointerSnapshot::spelled(datagram) == Some(snapshot),
    ensures
        datagram.len() == 36,
        datagram[0] == 82 && datagram[1] == 73 && datagram[2] == 1,
        match snapshot {
            PointerSnapshot::Absolute { generation, sequence, x, y } => {
                &&& datagram[3] == 1
                &&& generation == bytes::be_value(datagram.subrange(4, 12))
                &&& sequence == bytes::be_value(datagram.subrange(12, 20))
                &&& x == 256 * datagram[20] + datagram[21]
                &&& y == 256 * datagram[22] + datagram[23]
                &&& x <= 32_767
                &&& y <= 32_767
                &&& forall|i: int| 24 <= i < 36 ==> #[trigger] datagram[i] == 0
            },
            PointerSnapshot::Relative { generation, sequence, cumulative_x, cumulative_y } => {
                &&& datagram[3] == 2
                &&& generation == bytes::be_value(datagram.subrange(4, 12))
                &&& sequence == bytes::be_value(datagram.subrange(12, 20))
                &&& cumulative_x == bytes::be_value(datagram.subrange(20, 28)) as u64 as i64
                &&& cumulative_y == bytes::be_value(datagram.subrange(28, 36)) as u64 as i64
            },
        },
{
    bytes::lemma_be_bounds();
    bytes::lemma_be_value_bound(datagram.subrange(4, 12));
    bytes::lemma_be_value_bound(datagram.subrange(12, 20));
    bytes::law_most_significant_byte_first(datagram.subrange(20, 22));
    bytes::law_most_significant_byte_first(datagram.subrange(22, 24));
}

} // verus!
