//! How a virtual device answers the requests of the system.

use crate::driver::config::{DeviceConfig, DeviceKind};
use crate::driver::config;
use crate::driver::ring::OUTPUT_REPORT_OPERATION;
use crate::driver::status::{
    STATUS_INVALID_PARAMETER, STATUS_NOT_SUPPORTED, STATUS_SUCCESS, STATUS_UNSUCCESSFUL,
};
use crate::text;
use crate::text::{decimal_text, wide};
use vstd::prelude::*;
use vstd::string::StringExecFns;

verus! {

pub const IOCTL_HID_GET_DEVICE_DESCRIPTOR: u32 = 0xb_0003;

pub const IOCTL_HID_GET_REPORT_DESCRIPTOR: u32 = 0xb_0007;

pub const IOCTL_HID_READ_REPORT: u32 = 0xb_000b;

pub const IOCTL_HID_WRITE_REPORT: u32 = 0xb_000f;

pub const IOCTL_HID_GET_STRING: u32 = 0xb_0013;

pub const IOCTL_HID_ACTIVATE_DEVICE: u32 = 0xb_001f;

pub const IOCTL_HID_DEACTIVATE_DEVICE: u32 = 0xb_0023;

pub const IOCTL_HID_GET_DEVICE_ATTRIBUTES: u32 = 0xb_0027;

pub const IOCTL_UMDF_HID_SET_OUTPUT_REPORT: u32 = 0xb_005b;

/// The size of the attributes of a device.
pub const ATTRIBUTES_SIZE: u32 = 12;

pub const ATTRIBUTES_VERSION: u16 = 0x0100;

/// What a kind of device tells the system of itself.
#[derive(Clone, Debug)]
pub struct DeviceIdentity {
    pub vendor_id: u16,
    pub product_id: u16,
    pub report_descriptor: Vec<u8>,
}

/// What is done with a request.
#[derive(Clone, Debug)]
pub enum Answer {
    /// It is completed with these bytes.
    Bytes(Vec<u8>),
    /// It is completed with a status alone.
    Status(i32),
    /// It waits for a report.
    QueueRead,
    /// Two bytes of input are read: see [`output_report`].
    ReadOutputReport,
    /// Four bytes of input are read: see [`string_answer`].
    ReadStringNumber,
}

/// The contents of an [`Answer`].
#[verifier::ext_equal]
pub enum AnswerModel {
    Bytes(Seq<u8>),
    Status(i32),
    QueueRead,
    ReadOutputReport,
    ReadStringNumber,
}

impl View for Answer {
    type V = AnswerModel;

    open spec fn view(&self) -> AnswerModel {
        match self {
            Answer::Bytes(bytes) => AnswerModel::Bytes(bytes@),
            Answer::Status(status) => AnswerModel::Status(*status),
            Answer::QueueRead => AnswerModel::QueueRead,
            Answer::ReadOutputReport => AnswerModel::ReadOutputReport,
            Answer::ReadStringNumber => AnswerModel::ReadStringNumber,
        }
    }
}

/// A 16-bit number, its low byte first.
pub open spec fn le16(value: u16) -> Seq<u8> {
    seq![(value % 256) as u8, (value / 256) as u8]
}

/// The device descriptor. It names the size of the report descriptor, as far as
/// sixteen bits hold it.
pub open spec fn spec_hid_descriptor(report_descriptor_size: nat) -> Seq<u8> {
    seq![9u8, 0x21, 0x11, 0x01, 0, 1, 0x22] + le16((report_descriptor_size % 65536) as u16)
}

pub fn hid_descriptor(report_descriptor_size: usize) -> (descriptor: Vec<u8>)
    ensures
        descriptor@ == spec_hid_descriptor(report_descriptor_size as nat),
{
    let size: u16 = (report_descriptor_size % 65536) as u16;
    let descriptor: Vec<u8> = vec![
        9,
        0x21,
        0x11,
        0x01,
        0,
        1,
        0x22,
        (size % 256) as u8,
        (size / 256) as u8,
    ];
    assert(descriptor@ =~= spec_hid_descriptor(report_descriptor_size as nat));
    descriptor
}

/// The attributes: their size, the vendor, the product, the version, and two zero
/// bytes.
pub open spec fn spec_hid_attributes(vendor_id: u16, product_id: u16) -> Seq<u8> {
    seq![12u8, 0, 0, 0] + le16(vendor_id) + le16(product_id) + le16(ATTRIBUTES_VERSION) + le16(0)
}

pub fn hid_attributes(vendor_id: u16, product_id: u16) -> (attributes: Vec<u8>)
    ensures
        attributes@ == spec_hid_attributes(vendor_id, product_id),
        attributes@.len() == ATTRIBUTES_SIZE,
{
    let attributes: Vec<u8> = vec![
        12,
        0,
        0,
        0,
        (vendor_id % 256) as u8,
        (vendor_id / 256) as u8,
        (product_id % 256) as u8,
        (product_id / 256) as u8,
        0x00,
        0x01,
        0,
        0,
    ];
    assert(attributes@ =~= spec_hid_attributes(vendor_id, product_id));
    attributes
}

fn copy_of(bytes: &Vec<u8>) -> (copy: Vec<u8>)
    ensures
        copy@ == bytes@,
{
    crate::bytes::owned(bytes.as_slice())
}

/// What is done with a request to a device. A device that is not known answers
/// nothing; a mouse takes no output.
pub open spec fn spec_control(
    code: u32,
    kind: Option<DeviceKind>,
    identity: DeviceIdentity,
) -> AnswerModel {
    match kind {
        None => AnswerModel::Status(STATUS_UNSUCCESSFUL),
        Some(kind) => if code == IOCTL_HID_GET_DEVICE_DESCRIPTOR {
            AnswerModel::Bytes(spec_hid_descriptor(identity.report_descriptor@.len()))
        } else if code == IOCTL_HID_GET_REPORT_DESCRIPTOR {
            AnswerModel::Bytes(identity.report_descriptor@)
        } else if code == IOCTL_HID_READ_REPORT {
            AnswerModel::QueueRead
        } else if code == IOCTL_HID_WRITE_REPORT || code == IOCTL_UMDF_HID_SET_OUTPUT_REPORT {
            match kind {
                DeviceKind::Keyboard => AnswerModel::ReadOutputReport,
                DeviceKind::Mouse => AnswerModel::Status(STATUS_NOT_SUPPORTED),
            }
        } else if code == IOCTL_HID_GET_DEVICE_ATTRIBUTES {
            AnswerModel::Bytes(spec_hid_attributes(identity.vendor_id, identity.product_id))
        } else if code == IOCTL_HID_GET_STRING {
            AnswerModel::ReadStringNumber
        } else if code == IOCTL_HID_ACTIVATE_DEVICE || code == IOCTL_HID_DEACTIVATE_DEVICE {
            AnswerModel::Status(STATUS_SUCCESS)
        } else {
            AnswerModel::Status(STATUS_NOT_SUPPORTED)
        },
    }
}

pub fn control(code: u32, kind: Option<DeviceKind>, identity: &DeviceIdentity) -> (answer: Answer)
    ensures
        answer@ == spec_control(code, kind, *identity),
{
    let kind: DeviceKind = match kind {
        Some(kind) => kind,
        None => return Answer::Status(STATUS_UNSUCCESSFUL),
    };
    match code {
        IOCTL_HID_GET_DEVICE_DESCRIPTOR => Answer::Bytes(
            hid_descriptor(identity.report_descriptor.len()),
        ),
        IOCTL_HID_GET_REPORT_DESCRIPTOR => Answer::Bytes(copy_of(&identity.report_descriptor)),
        IOCTL_HID_READ_REPORT => Answer::QueueRead,
        IOCTL_HID_WRITE_REPORT | IOCTL_UMDF_HID_SET_OUTPUT_REPORT => match kind {
            DeviceKind::Keyboard => Answer::ReadOutputReport,
            DeviceKind::Mouse => Answer::Status(STATUS_NOT_SUPPORTED),
        },
        IOCTL_HID_GET_DEVICE_ATTRIBUTES => Answer::Bytes(
            hid_attributes(identity.vendor_id, identity.product_id),
        ),
        IOCTL_HID_GET_STRING => Answer::ReadStringNumber,
        IOCTL_HID_ACTIVATE_DEVICE | IOCTL_HID_DEACTIVATE_DEVICE => Answer::Status(STATUS_SUCCESS),
        _ => Answer::Status(STATUS_NOT_SUPPORTED),
    }
}

/// What is done with an output report.
#[derive(Clone, Copy, Debug, PartialEq, Eq, Structural)]
pub enum OutputRequest {
    /// The request is completed with this status.
    Complete(i32),
    /// The lights are handed to the host.
    Publish { operation: u8, report_id: u8, lights: u8 },
}

/// An output report is two bytes: report number zero, and five lights.
pub open spec fn spec_output_report(status: i32, input: Seq<u8>) -> OutputRequest {
    if status != STATUS_SUCCESS {
        OutputRequest::Complete(status)
    } else if input.len() != 2 || input[0] != 0 || input[1] >= 32 {
        OutputRequest::Complete(STATUS_INVALID_PARAMETER)
    } else {
        OutputRequest::Publish {
            operation: OUTPUT_REPORT_OPERATION,
            report_id: input[0],
            lights: input[1],
        }
    }
}

/// What is done with the input of an output report, and the status with which it
/// was read.
pub fn output_report(status: i32, input: &[u8]) -> (request: OutputRequest)
    ensures
        request == spec_output_report(status, input@),
{
    if status != STATUS_SUCCESS {
        return OutputRequest::Complete(status);
    }
    if input.len() != 2 || input[0] != 0 || input[1] >= 32 {
        return OutputRequest::Complete(STATUS_INVALID_PARAMETER);
    }
    OutputRequest::Publish {
        operation: OUTPUT_REPORT_OPERATION,
        report_id: input[0],
        lights: input[1],
    }
}

/// The status of an output report that was handed on or not, and how many of its
/// bytes were taken.
pub fn output_completion(published: bool) -> (completion: (i32, u64))
    ensures
        completion == if published {
            (STATUS_SUCCESS, 2u64)
        } else {
            (STATUS_UNSUCCESSFUL, 0u64)
        },
{
    if published {
        (STATUS_SUCCESS, 2)
    } else {
        (STATUS_UNSUCCESSFUL, 0)
    }
}

/// The text that a device gives under a number: who made it, what it is, or its
/// serial number.
pub open spec fn spec_device_text(number: u16, config: config::ConfigModel) -> Option<Seq<char>> {
    if number == 1 || number == 14 {
        Some("Rust Console"@)
    } else if number == 2 || number == 15 {
        match config.kind {
            DeviceKind::Mouse => Some("Rust Console Virtual Mouse"@),
            DeviceKind::Keyboard => Some("Rust Console Virtual Keyboard"@),
        }
    } else if number == 3 || number == 16 {
        Some("RC-"@ + config.token + "-"@ + text::decimal(config.index as nat))
    } else {
        None
    }
}

pub fn device_text(number: u16, config: &DeviceConfig) -> (value: Option<String>)
    ensures
        match value {
            Some(value) => spec_device_text(number, config@) == Some(value@),
            None => spec_device_text(number, config@) is None,
        },
{
    match number {
        1 | 14 => Some("Rust Console".to_owned()),
        2 | 15 => match config.kind {
            DeviceKind::Mouse => Some("Rust Console Virtual Mouse".to_owned()),
            DeviceKind::Keyboard => Some("Rust Console Virtual Keyboard".to_owned()),
        },
        3 | 16 => {
            let mut value: String = "RC-".to_owned();
            value.append(config.token.as_str());
            value.append("-");
            value.append(decimal_text(config.index as u64).as_str());
            Some(value)
        },
        _ => None,
    }
}

/// The bytes of UTF-16 units, each with its low byte first.
pub open spec fn unit_bytes(units: Seq<u16>) -> Seq<u8> {
    Seq::new(
        2 * units.len(),
        |i: int|
            if i % 2 == 0 {
                (units[i / 2] % 256) as u8
            } else {
                (units[i / 2] / 256) as u8
            },
    )
}

pub fn bytes_of_units(units: &[u16]) -> (bytes: Vec<u8>)
    ensures
        bytes@ == unit_bytes(units@),
{
    let mut bytes: Vec<u8> = Vec::new();
    let mut index: usize = 0;
    while index < units.len()
        invariant
            index <= units@.len(),
            bytes@.len() == 2 * index,
            forall|i: int| 0 <= i < 2 * index ==> #[trigger] bytes@[i] == unit_bytes(units@)[i],
        decreases units@.len() - index,
    {
        let unit: u16 = units[index];
        bytes.push((unit % 256) as u8);
        bytes.push((unit / 256) as u8);
        index = index + 1;
    }
    assert(bytes@ =~= unit_bytes(units@));
    bytes
}

/// The text under the number in the first two bytes of the input, in UTF-16 with a
/// zero behind it.
pub open spec fn spec_string_answer(
    status: i32,
    input: Seq<u8>,
    config: config::ConfigModel,
) -> AnswerModel {
    if status != STATUS_SUCCESS {
        AnswerModel::Status(status)
    } else {
        match spec_device_text((input[0] + 256 * input[1]) as u16, config) {
            Some(value) => AnswerModel::Bytes(unit_bytes(text::utf16(value).push(0))),
            None => AnswerModel::Status(STATUS_INVALID_PARAMETER),
        }
    }
}

/// The answer to a request for a text. `status` tells how its input was read,
/// which has at least four bytes where it was.
pub fn string_answer(status: i32, input: &[u8], config: &DeviceConfig) -> (answer: Answer)
    requires
        status == STATUS_SUCCESS ==> input@.len() >= 4,
    ensures
        answer@ == spec_string_answer(status, input@, config@),
{
    if status != STATUS_SUCCESS {
        return Answer::Status(status);
    }
    let number: u16 = input[0] as u16 + 256 * input[1] as u16;
    match device_text(number, config) {
        Some(value) => {
            let units: Vec<u16> = wide(value.as_str());
            Answer::Bytes(bytes_of_units(units.as_slice()))
        },
        None => Answer::Status(STATUS_INVALID_PARAMETER),
    }
}

/// Only a keyboard ever reads an output report, and what it hands on is a report
/// that the ring to the host takes.
pub proof fn law_only_keyboards_report_lights(
    code: u32,
    kind: DeviceKind,
    identity: DeviceIdentity,
    status: i32,
    input: Seq<u8>,
)
    requires
        spec_control(code, Some(kind), identity) == AnswerModel::ReadOutputReport,
    ensures
        kind == DeviceKind::Keyboard,
        spec_output_report(status, input) matches OutputRequest::Publish {
            operation,
            report_id,
            lights,
        } ==> crate::driver::ring::is_output(operation, seq![lights]) && lights < 32 && report_id
            == 0,
{
}

/// What a device answers: its descriptors and attributes in bytes, a read with
/// a report that is still to come, lights only as a keyboard, and nothing before
/// it is set up.
pub proof fn law_device_answers(code: u32, kind: DeviceKind, identity: DeviceIdentity)
    ensures
        spec_control(code, None, identity) is Status,
        code == 0xb_0003 ==> spec_control(code, Some(kind), identity) == AnswerModel::Bytes(
            spec_hid_descriptor(identity.report_descriptor@.len()),
        ),
        code == 0xb_0007 ==> spec_control(code, Some(kind), identity) == AnswerModel::Bytes(
            identity.report_descriptor@,
        ),
        code == 0xb_000b <==> spec_control(code, Some(kind), identity) is QueueRead,
        (code == 0xb_000f || code == 0xb_005b) && kind is Keyboard <==> spec_control(
            code,
            Some(kind),
            identity,
        ) is ReadOutputReport,
        code == 0xb_0013 <==> spec_control(code, Some(kind), identity) is ReadStringNumber,
        code == 0xb_0027 ==> spec_control(code, Some(kind), identity) == AnswerModel::Bytes(
            spec_hid_attributes(identity.vendor_id, identity.product_id),
        ),
        code == 0xb_001f || code == 0xb_0023 ==> spec_control(code, Some(kind), identity)
            == AnswerModel::Status(0),
{
}

/// The attributes of a device: their size, vendor, product and version, the
/// lowest byte of each first.
pub proof fn law_device_attributes(vendor_id: u16, product_id: u16, size: nat)
    ensures
        ({
            let attributes = spec_hid_attributes(vendor_id, product_id);
            &&& attributes.len() == 12
            &&& attributes[0] == 12 && attributes[1] == 0 && attributes[2] == 0 && attributes[3]
                == 0
            &&& attributes[4] + 256 * attributes[5] == vendor_id
            &&& attributes[6] + 256 * attributes[7] == product_id
            &&& attributes[8] == 0 && attributes[9] == 1
        }),
        size < 0x1_0000 ==> spec_hid_descriptor(size).len() == 9 && spec_hid_descriptor(size)[7]
            + 256 * spec_hid_descriptor(size)[8] == size,
{
}

/// Which lights are published: five of them in a report of two bytes, of which
/// the first is zero. A failed request is completed with its own status.
pub proof fn law_which_lights_are_published(status: i32, input: Seq<u8>)
    ensures
        spec_output_report(status, input) matches OutputRequest::Publish {
            operation,
            report_id,
            lights,
        } ==> status == 0 && operation == 1 && report_id == 0 && lights == input[1],
        spec_output_report(status, input) is Publish <==> status == 0 && input.len() == 2
            && input[0] == 0 && input[1] < 32,
        status != 0 ==> spec_output_report(status, input) == OutputRequest::Complete(status),
{
}

/// The bytes of a text: each unit with its lower byte first.
pub proof fn law_bytes_of_units(units: Seq<u16>, index: int)
    requires
        0 <= index < units.len(),
    ensures
        unit_bytes(units).len() == 2 * units.len(),
        unit_bytes(units)[2 * index] + 256 * unit_bytes(units)[2 * index + 1] == units[index],
{
}

/// The texts of a device by their numbers: its maker, its name and its serial
/// number of token and index.
pub proof fn law_texts_of_a_device(number: u16, config: config::ConfigModel)
    ensures
        number == 1 || number == 14 ==> spec_device_text(number, config) == Some("Rust Console"@),
        (number == 2 || number == 15) && config.kind is Mouse ==> spec_device_text(number, config)
            == Some("Rust Console Virtual Mouse"@),
        (number == 2 || number == 15) && config.kind is Keyboard ==> spec_device_text(
            number,
            config,
        ) == Some("Rust Console Virtual Keyboard"@),
        number == 3 || number == 16 ==> spec_device_text(number, config) == Some(
            "RC-"@ + config.token + "-"@ + text::decimal(config.index as nat),
        ),
        spec_device_text(number, config) is Some <==> 1 <= number <= 3 || 14 <= number <= 16,
{
}

} // verus!
