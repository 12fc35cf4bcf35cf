//! A ring of reports in memory that a device shares with the host.
//!
//! One side produces and the other consumes. Each report has a sequence number;
//! the report with number `n` lies in slot `(n - 1) % SLOT_COUNT`.

use crate::bytes::owned_range;
use crate::driver::config::DeviceKind;
use vstd::prelude::*;

verus! {

pub const MAGIC: u32 = 0x4449_4856;

pub const VERSION: u32 = 1;

pub const SLOT_COUNT: u32 = 256;

pub const REPORT_CAPACITY: u32 = 80;

pub const OUTPUT_REPORT_OPERATION: u8 = 1;

/// The most bytes of an output report: a slot also holds the operation and the
/// report number.
pub const MAX_OUTPUT_PAYLOAD: usize = 78;

pub const MOUSE_REPORT_SIZE: usize = 8;

pub const KEYBOARD_REPORT_SIZE: usize = 29;

#[derive(Clone, Copy, Debug, PartialEq, Eq, Structural)]
pub struct RingHeader {
    pub magic: u32,
    pub version: u32,
    pub slot_count: u32,
    pub report_capacity: u32,
    pub generation: u64,
    pub producer_sequence: u64,
    pub consumer_sequence: u64,
    pub overflow_count: u64,
}

#[derive(Clone, Copy, Debug)]
pub struct ReportSlot {
    pub committed_sequence: u64,
    pub length: u16,
    pub reserved: u16,
    pub data: [u8; 80],
}

#[derive(Clone, Debug)]
pub struct SharedReportRing {
    pub header: RingHeader,
    pub slots: [ReportSlot; 256],
}

/// A ring, a report or a request that is not as it must be.
#[derive(Clone, Copy, Debug, PartialEq, Eq, Structural)]
pub struct RingFault;

impl RingHeader {
    /// The header is one of this layout, and the ring has been set up.
    pub open spec fn is_valid(self) -> bool {
        &&& self.magic == MAGIC
        &&& self.version == VERSION
        &&& self.slot_count == SLOT_COUNT
        &&& self.report_capacity == REPORT_CAPACITY
        &&& self.generation != 0
    }

    pub fn validate(&self) -> (result: Result<(), RingFault>)
        ensures
            result == if self.is_valid() {
                Ok::<(), RingFault>(())
            } else {
                Err::<(), RingFault>(RingFault)
            },
    {
        if self.magic != MAGIC || self.version != VERSION || self.slot_count != SLOT_COUNT
            || self.report_capacity != REPORT_CAPACITY || self.generation == 0 {
            return Err(RingFault);
        }
        Ok(())
    }

    /// The report to read next, or none where all are consumed.
    pub open spec fn spec_next_report(self) -> Result<Option<u64>, RingFault> {
        if !self.is_valid() || self.consumer_sequence == u64::MAX {
            Err(RingFault)
        } else if self.consumer_sequence + 1 > self.producer_sequence {
            Ok(None)
        } else {
            Ok(Some((self.consumer_sequence + 1) as u64))
        }
    }

    pub fn next_report(&self) -> (sequence: Result<Option<u64>, RingFault>)
        ensures
            sequence == self.spec_next_report(),
    {
        if self.validate().is_err() || self.consumer_sequence == u64::MAX {
            return Err(RingFault);
        }
        let sequence: u64 = self.consumer_sequence + 1;
        if sequence > self.producer_sequence {
            Ok(None)
        } else {
            Ok(Some(sequence))
        }
    }

    /// Where the next report goes.
    pub open spec fn spec_next_slot(self) -> Result<u64, OutputFault> {
        if !self.is_valid() {
            Err(OutputFault::Refused)
        } else if self.producer_sequence < self.consumer_sequence {
            Err(OutputFault::Refused)
        } else if self.producer_sequence - self.consumer_sequence >= SLOT_COUNT {
            Err(OutputFault::Full)
        } else if self.producer_sequence == u64::MAX {
            Err(OutputFault::Refused)
        } else {
            Ok((self.producer_sequence + 1) as u64)
        }
    }

    /// The number of the report to write next. A ring that holds as many
    /// unread reports as it has slots takes no more.
    pub fn next_slot(&self) -> (sequence: Result<u64, OutputFault>)
        ensures
            sequence == self.spec_next_slot(),
    {
        if self.validate().is_err() || self.producer_sequence < self.consumer_sequence {
            return Err(OutputFault::Refused);
        }
        if self.producer_sequence - self.consumer_sequence >= SLOT_COUNT as u64 {
            return Err(OutputFault::Full);
        }
        if self.producer_sequence == u64::MAX {
            return Err(OutputFault::Refused);
        }
        Ok(self.producer_sequence + 1)
    }
}

/// Why an output report was not written.
#[derive(Clone, Copy, Debug, PartialEq, Eq, Structural)]
pub enum OutputFault {
    /// The report or the ring is not as it must be.
    Refused,
    /// The host has not read the reports before.
    Full,
}

/// The slot of a report.
pub open spec fn slot_of(sequence: u64) -> int {
    (sequence - 1) % 256
}

pub fn slot_index(sequence: u64) -> (index: usize)
    requires
        sequence > 0,
    ensures
        index == slot_of(sequence),
        index < SLOT_COUNT,
{
    ((sequence - 1) % SLOT_COUNT as u64) as usize
}

/// The size of the reports of a device.
pub open spec fn spec_report_size(kind: DeviceKind) -> usize {
    match kind {
        DeviceKind::Mouse => MOUSE_REPORT_SIZE,
        DeviceKind::Keyboard => KEYBOARD_REPORT_SIZE,
    }
}

pub fn report_size(kind: DeviceKind) -> (size: usize)
    ensures
        size == spec_report_size(kind),
{
    match kind {
        DeviceKind::Mouse => MOUSE_REPORT_SIZE,
        DeviceKind::Keyboard => KEYBOARD_REPORT_SIZE,
    }
}

impl ReportSlot {
    /// The slot holds a report of this device: of its size, with nothing in the
    /// reserved field, and with report number 1 or 2 for a mouse.
    pub open spec fn holds_report(self, kind: DeviceKind) -> bool {
        &&& self.length == spec_report_size(kind)
        &&& self.reserved == 0
        &&& kind == DeviceKind::Mouse ==> self.data@[0] == 1 || self.data@[0] == 2
    }

    /// What is read of a slot that was looked for under a number, and whose number
    /// is `committed_after` once its bytes are copied. A slot that is not written
    /// yet, or is written anew meanwhile, gives nothing.
    pub open spec fn spec_report(
        self,
        sequence: u64,
        kind: DeviceKind,
        committed_after: u64,
    ) -> Result<Option<Seq<u8>>, RingFault> {
        if self.committed_sequence != sequence {
            Ok(None)
        } else if !self.holds_report(kind) {
            Err(RingFault)
        } else if committed_after != sequence {
            Ok(None)
        } else {
            Ok(Some(self.data@.take(spec_report_size(kind) as int)))
        }
    }

    pub fn report(&self, sequence: u64, kind: DeviceKind, committed_after: u64) -> (report: Result<
        Option<Vec<u8>>,
        RingFault,
    >)
        ensures
            report_model(report) == self.spec_report(sequence, kind, committed_after),
    {
        if self.committed_sequence != sequence {
            return Ok(None);
        }
        let size: usize = report_size(kind);
        if self.length as usize != size || self.reserved != 0 {
            return Err(RingFault);
        }
        if matches!(kind, DeviceKind::Mouse) && self.data[0] != 1 && self.data[0] != 2 {
            return Err(RingFault);
        }
        if committed_after != sequence {
            return Ok(None);
        }
        let report: Vec<u8> = owned_range(self.data.as_slice(), 0, size);
        assert(report@ =~= self.data@.take(size as int));
        Ok(Some(report))
    }
}

/// A report as its bytes.
pub open spec fn report_model(report: Result<Option<Vec<u8>>, RingFault>) -> Result<
    Option<Seq<u8>>,
    RingFault,
> {
    match report {
        Ok(Some(report)) => Ok(Some(report@)),
        Ok(None) => Ok(None),
        Err(fault) => Err(fault),
    }
}

/// What is read from a ring: the next report and its number.
pub open spec fn spec_read_report(ring: SharedReportRing, kind: DeviceKind) -> Result<
    Option<(u64, Seq<u8>)>,
    RingFault,
> {
    match ring.header.spec_next_report() {
        Err(fault) => Err(fault),
        Ok(None) => Ok(None),
        Ok(Some(sequence)) => {
            let slot = ring.slots@[slot_of(sequence)];
            match slot.spec_report(sequence, kind, slot.committed_sequence) {
                Err(fault) => Err(fault),
                Ok(None) => Ok(None),
                Ok(Some(report)) => Ok(Some((sequence, report))),
            }
        },
    }
}

/// The next report for a device, which stays in the ring.
pub fn read_report(ring: &SharedReportRing, kind: DeviceKind) -> (report: Result<
    Option<(u64, Vec<u8>)>,
    RingFault,
>)
    ensures
        (match report {
            Ok(Some((sequence, report))) => Ok::<Option<(u64, Seq<u8>)>, RingFault>(
                Some((sequence, report@)),
            ),
            Ok(None) => Ok(None),
            Err(fault) => Err(fault),
        }) == spec_read_report(*ring, kind),
{
    let sequence: u64 = match ring.header.next_report() {
        Ok(Some(sequence)) => sequence,
        Ok(None) => return Ok(None),
        Err(fault) => return Err(fault),
    };
    let slot: ReportSlot = ring.slots[slot_index(sequence)];
    match slot.report(sequence, kind, slot.committed_sequence) {
        Ok(Some(report)) => Ok(Some((sequence, report))),
        Ok(None) => Ok(None),
        Err(fault) => Err(fault),
    }
}

/// Frees the slot of a report that has been delivered, and those before it.
pub fn consume(ring: &mut SharedReportRing, sequence: u64)
    ensures
        final(ring).slots == old(ring).slots,
        final(ring).header == (RingHeader { consumer_sequence: sequence, ..old(ring).header }),
{
    ring.header.consumer_sequence = sequence;
}

/// The request is one that a ring carries.
pub open spec fn is_output(operation: u8, payload: Seq<u8>) -> bool {
    &&& operation == OUTPUT_REPORT_OPERATION
    &&& 0 < payload.len() <= MAX_OUTPUT_PAYLOAD
}

/// The bytes of an output report in its slot: the operation, the report number,
/// the payload, and zeros behind them.
pub open spec fn output_data(operation: u8, report_id: u8, payload: Seq<u8>) -> Seq<u8> {
    seq![operation, report_id] + payload + Seq::new((78 - payload.len()) as nat, |i: int| 0u8)
}

/// A slot holds an output report.
pub open spec fn is_output_slot(
    slot: ReportSlot,
    sequence: u64,
    operation: u8,
    report_id: u8,
    payload: Seq<u8>,
) -> bool {
    &&& slot.committed_sequence == sequence
    &&& slot.length == payload.len() + 2
    &&& slot.reserved == 0
    &&& slot.data@ == output_data(operation, report_id, payload)
}

/// The slot of an output report.
pub fn output_slot(sequence: u64, operation: u8, report_id: u8, payload: &[u8]) -> (slot:
    ReportSlot)
    requires
        payload@.len() <= MAX_OUTPUT_PAYLOAD,
    ensures
        is_output_slot(slot, sequence, operation, report_id, payload@),
{
    let mut data: [u8; 80] = [0u8;80];
    data[0] = operation;
    data[1] = report_id;
    let mut index: usize = 0;
    let ghost expected = output_data(operation, report_id, payload@);
    while index < payload.len()
        invariant
            index <= payload@.len() <= MAX_OUTPUT_PAYLOAD,
            expected == output_data(operation, report_id, payload@),
            data@.len() == 80,
            forall|i: int| 0 <= i < index + 2 ==> #[trigger] data@[i] == expected[i],
            forall|i: int| index + 2 <= i < 80 ==> #[trigger] data@[i] == 0,
        decreases payload@.len() - index,
    {
        data[2 + index] = payload[index];
        index = index + 1;
    }
    assert(data@ =~= expected);
    ReportSlot {
        committed_sequence: sequence,
        length: (payload.len() + 2) as u16,
        reserved: 0,
        data,
    }
}

impl SharedReportRing {
    /// The ring after an output report was offered.
    pub open spec fn published(
        before: SharedReportRing,
        after: SharedReportRing,
        operation: u8,
        report_id: u8,
        payload: Seq<u8>,
        result: Result<(), OutputFault>,
    ) -> bool {
        if !is_output(operation, payload) {
            result == Err::<(), OutputFault>(OutputFault::Refused) && after == before
        } else {
            match before.header.spec_next_slot() {
                Err(OutputFault::Refused) => {
                    result == Err::<(), OutputFault>(OutputFault::Refused) && after == before
                },
                Err(OutputFault::Full) => {
                    &&& result == Err::<(), OutputFault>(OutputFault::Full)
                    &&& after.slots == before.slots
                    &&& after.header == (RingHeader {
                        overflow_count: ((before.header.overflow_count + 1)
                            % 0x1_0000_0000_0000_0000) as u64,
                        ..before.header
                    })
                },
                Ok(sequence) => {
                    &&& result == Ok::<(), OutputFault>(())
                    &&& after.header
                        == (RingHeader { producer_sequence: sequence, ..before.header })
                    &&& is_output_slot(
                        after.slots@[slot_of(sequence)],
                        sequence,
                        operation,
                        report_id,
                        payload,
                    )
                    &&& forall|i: int|
                        0 <= i < 256 && i != slot_of(sequence) ==> #[trigger] after.slots@[i]
                            == before.slots@[i]
                },
            }
        }
    }

    /// Writes an output report for the host. A report that a full ring does not
    /// take is counted.
    pub fn publish_output(
        &mut self,
        operation: u8,
        report_id: u8,
        payload: &[u8],
    ) -> (result: Result<
        (),
        OutputFault,
    >)
        ensures
            SharedReportRing::published(
                *old(self),
                *final(self),
                operation,
                report_id,
                payload@,
                result,
            ),
    {
        if operation != OUTPUT_REPORT_OPERATION || payload.len() == 0 || payload.len()
            > MAX_OUTPUT_PAYLOAD {
            return Err(OutputFault::Refused);
        }
        let sequence: u64 = match self.header.next_slot() {
            Ok(sequence) => sequence,
            Err(OutputFault::Full) => {
                self.header.overflow_count = self.header.overflow_count.wrapping_add(1);
                return Err(OutputFault::Full);
            },
            Err(OutputFault::Refused) => return Err(OutputFault::Refused),
        };
        let index: usize = slot_index(sequence);
        self.slots[index] = output_slot(sequence, operation, report_id, payload);
        self.header.producer_sequence = sequence;
        Ok(())
    }
}

/// A ring never holds more unread reports than it has slots: publishing keeps
/// that, and so does consuming a report that was published.
pub proof fn law_unread_reports_fit(
    before: SharedReportRing,
    after: SharedReportRing,
    operation: u8,
    report_id: u8,
    payload: Seq<u8>,
    result: Result<(), OutputFault>,
)
    requires
        before.header.producer_sequence - before.header.consumer_sequence <= SLOT_COUNT,
        SharedReportRing::published(before, after, operation, report_id, payload, result),
    ensures
        after.header.producer_sequence - after.header.consumer_sequence <= SLOT_COUNT,
        after.header.consumer_sequence == before.header.consumer_sequence,
{
}

/// Publishing overwrites no report that the host has yet to read.
pub proof fn law_unread_reports_are_kept(
    before: SharedReportRing,
    after: SharedReportRing,
    operation: u8,
    report_id: u8,
    payload: Seq<u8>,
    result: Result<(), OutputFault>,
    sequence: u64,
)
    requires
        SharedReportRing::published(before, after, operation, report_id, payload, result),
        before.header.consumer_sequence < sequence <= before.header.producer_sequence,
    ensures
        after.slots@[slot_of(sequence)] == before.slots@[slot_of(sequence)],
{
    if is_output(operation, payload) {
        if let Ok(next) = before.header.spec_next_slot() {
            assert(next - sequence < 256 && next > sequence);
            assert(slot_of(next) != slot_of(sequence));
        }
    }
}

/// Reading does not move on by itself: once a report has been consumed, the next
/// one is that with the number behind it.
pub proof fn law_reports_are_read_in_order(
    before: SharedReportRing,
    after: SharedReportRing,
    kind: DeviceKind,
    sequence: u64,
    report: Seq<u8>,
)
    requires
        spec_read_report(before, kind) == Ok::<Option<(u64, Seq<u8>)>, RingFault>(
            Some((sequence, report)),
        ),
        after.slots == before.slots,
        after.header == (RingHeader { consumer_sequence: sequence, ..before.header }),
    ensures
        sequence == before.header.consumer_sequence + 1,
        match spec_read_report(after, kind) {
            Ok(Some((next, _))) => next == sequence + 1,
            _ => true,
        },
{
}

/// A ring that is used has the known layout of 256 slots of 80 bytes and is of
/// some generation.
pub proof fn law_valid_rings(header: RingHeader)
    ensures
        header.is_valid() <==> header.magic == 0x4449_4856 && header.version == 1
            && header.slot_count == 256 && header.report_capacity == 80 && header.generation > 0,
{
}

/// Which report is next: the one after the last that was consumed, where it was
/// produced. And which slot: the one after the last that was produced, where no
/// more than 256 are unread.
pub proof fn law_what_comes_next(header: RingHeader)
    requires
        header.is_valid(),
        header.consumer_sequence <= header.producer_sequence < u64::MAX,
    ensures
        header.consumer_sequence == header.producer_sequence <==> (
        header.spec_next_report() matches Ok(next) && next is None),
        header.consumer_sequence < header.producer_sequence ==> (
        header.spec_next_report() matches Ok(Some(next)) && next == header.consumer_sequence + 1),
        header.producer_sequence < header.consumer_sequence + 256 <==> (
        header.spec_next_slot() matches Ok(next) && next == header.producer_sequence + 1),
        header.producer_sequence >= header.consumer_sequence + 256 <==> (
        header.spec_next_slot() matches Err(fault) && fault is Full),
{
}

/// The slots are used in turn: 256 sequences after the first its slot comes
/// again, and in between no other has it.
pub proof fn law_slots_are_used_in_turn(sequence: u64, later: u64)
    requires
        0 < sequence < later,
    ensures
        sequence == 1 ==> slot_of(sequence) == 0,
        0 <= slot_of(sequence) < 256,
        later == sequence + 1 ==> slot_of(later) == slot_of(sequence) + 1 || (slot_of(later) == 0
            && slot_of(sequence) == 255),
        later < sequence + 256 ==> slot_of(later) != slot_of(sequence),
        later == sequence + 256 ==> slot_of(later) == slot_of(sequence),
{
}

/// Which reports are read: one that was committed before and after, of its
/// kind's size, and of a mouse only with its first or second number.
pub proof fn law_which_reports_are_read(
    slot: ReportSlot,
    sequence: u64,
    kind: DeviceKind,
    committed_after: u64,
)
    ensures
        ({
            let size: int = spec_report_size(kind) as int;
            let is_whole = slot.length == size && slot.reserved == 0 && (kind is Mouse
                ==> slot.data@[0] == 1 || slot.data@[0] == 2);
            let result = slot.spec_report(sequence, kind, committed_after);
            &&& kind is Mouse ==> size == 8
            &&& result matches Ok(Some(report)) ==> slot.committed_sequence == sequence
                && committed_after == sequence && is_whole && report == slot.data@.take(size)
            &&& slot.committed_sequence == sequence && committed_after == sequence && is_whole ==> (
            result matches Ok(report) && report is Some)
            &&& slot.committed_sequence == sequence && !is_whole <==> result is Err
        }),
{
}

/// What a published report is in its slot: the operation, the number and the
/// payload, and zeros behind them, committed under its sequence.
pub proof fn law_published_reports(
    before: SharedReportRing,
    after: SharedReportRing,
    operation: u8,
    report_id: u8,
    payload: Seq<u8>,
    result: Result<(), OutputFault>,
)
    requires
        SharedReportRing::published(before, after, operation, report_id, payload, result),
    ensures
        result is Ok ==> {
            let sequence = after.header.producer_sequence;
            let slot = after.slots@[slot_of(sequence)];
            &&& operation == 1
            &&& 1 <= payload.len() <= 78
            &&& sequence == before.header.producer_sequence + 1
            &&& slot.committed_sequence == sequence
            &&& slot.length == payload.len() + 2
            &&& slot.data@[0] == operation
            &&& slot.data@[1] == report_id
            &&& forall|i: int| 0 <= i < payload.len() ==> slot.data@[i + 2] == #[trigger] payload[i]
        },
        operation != 1 || payload.len() == 0 || payload.len() > 78 ==> result is Err && after
            == before,
        result is Err ==> after.slots == before.slots && after.header.producer_sequence
            == before.header.producer_sequence,
{
    if result is Ok {
        let slot = after.slots@[slot_of(after.header.producer_sequence)];
        assert forall|i: int| 0 <= i < payload.len() implies slot.data@[i + 2]
            == #[trigger] payload[i] by {
            assert(output_data(operation, report_id, payload)[i + 2] == payload[i]);
        }
    }
}

} // verus!
