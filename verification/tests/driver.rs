//! The virtual input driver.

use rustconsole::driver::config::{
    device_kind, input_event_name, input_mapping_name, instance_token, load, output_event_name,
    output_mapping_name, registry_path, DeviceConfig, DeviceKind, RegistryNumber, RegistryText,
    REG_DWORD, REG_SZ, TOKEN_UNITS,
};
use rustconsole::driver::control::{
    control, device_text, hid_attributes, hid_descriptor, output_completion, output_report,
    string_answer, Answer, DeviceIdentity, OutputRequest, IOCTL_HID_ACTIVATE_DEVICE,
    IOCTL_HID_DEACTIVATE_DEVICE, IOCTL_HID_GET_DEVICE_ATTRIBUTES, IOCTL_HID_GET_DEVICE_DESCRIPTOR,
    IOCTL_HID_GET_REPORT_DESCRIPTOR, IOCTL_HID_GET_STRING, IOCTL_HID_READ_REPORT,
    IOCTL_HID_WRITE_REPORT, IOCTL_UMDF_HID_SET_OUTPUT_REPORT,
};
use rustconsole::driver::pump::{
    wait_result, worker_step, Pump, PumpRead, WaitResult, WorkerAction, WorkerEvent, WAIT_OBJECT_0,
    WAIT_TIMEOUT,
};
use rustconsole::driver::ring::{
    consume, read_report, slot_index, OutputFault, ReportSlot, RingFault, RingHeader,
    SharedReportRing, KEYBOARD_REPORT_SIZE, MAGIC, OUTPUT_REPORT_OPERATION, REPORT_CAPACITY,
    SLOT_COUNT, VERSION,
};
use rustconsole::driver::status::{
    error_status, ERROR_ACCESS_DENIED, ERROR_FILE_NOT_FOUND, ERROR_NOT_ENOUGH_MEMORY,
    STATUS_ACCESS_DENIED, STATUS_INVALID_PARAMETER, STATUS_NOT_SUPPORTED, STATUS_NO_MEMORY,
    STATUS_OBJECT_NAME_NOT_FOUND, STATUS_SUCCESS, STATUS_UNSUCCESSFUL,
};
use rustconsole::time::Duration;

fn number(value: u32) -> RegistryNumber {
    RegistryNumber {
        succeeded: true,
        value_type: REG_DWORD,
        size: 4,
        value,
    }
}

fn text(value: &str) -> RegistryText {
    let mut units: Vec<u16> = value.encode_utf16().collect();
    units.push(0);
    let size = 2 * units.len() as u32;
    units.resize(units.len().max(TOKEN_UNITS), 0xffff);
    RegistryText {
        succeeded: true,
        value_type: REG_SZ,
        size,
        units,
    }
}

fn config(kind: DeviceKind) -> DeviceConfig {
    DeviceConfig {
        index: 7,
        kind,
        token: "0123456789abcdef".to_owned(),
    }
}

#[test]
fn a_configuration_is_read_from_the_registry() {
    assert_eq!(
        registry_path(12),
        "SOFTWARE\\RustConsole\\VirtualInput\\Device12"
    );
    let read = load(7, number(2), &text("0123456789abcdef")).expect("a configuration");
    assert_eq!(read.index, 7);
    assert_eq!(read.kind, DeviceKind::Keyboard);
    assert_eq!(read.token, "0123456789abcdef");
    assert!(load(7, number(3), &text("0123456789abcdef")).is_err());
    assert!(load(7, number(1), &text("short")).is_err());
}

#[test]
fn a_kind_is_a_number_of_its_own_type() {
    assert_eq!(device_kind(number(1)), Ok(DeviceKind::Mouse));
    assert_eq!(device_kind(number(2)), Ok(DeviceKind::Keyboard));
    assert_eq!(device_kind(number(0)), Err(STATUS_INVALID_PARAMETER));
    let query = number(1);
    assert!(device_kind(RegistryNumber {
        succeeded: false,
        ..query
    })
    .is_err());
    assert!(device_kind(RegistryNumber {
        value_type: REG_SZ,
        ..query
    })
    .is_err());
    assert!(device_kind(RegistryNumber { size: 8, ..query }).is_err());
}

#[test]
fn a_token_is_bounded_ascii_that_ends_in_zero() {
    let long = "a".repeat(64);
    assert_eq!(instance_token(&text(&long)), Ok(long.clone()));
    assert!(instance_token(&text(&"a".repeat(65))).is_err());
    assert!(instance_token(&text("abc-DEF-0123456")).is_err());
    assert_eq!(
        instance_token(&text("abc-DEF-01234567")),
        Ok("abc-DEF-01234567".to_owned())
    );
    assert!(instance_token(&text("abc_DEF_01234567")).is_err());
    assert!(instance_token(&text("abc-DEF-0123456\u{e9}")).is_err());
    let mut unended = text("0123456789abcdef");
    unended.size -= 2;
    assert!(instance_token(&unended).is_err());
    let mut odd = text("0123456789abcdef");
    odd.size += 1;
    assert!(instance_token(&odd).is_err());
}

#[test]
fn shared_names_tell_purpose_token_and_kind() {
    let mouse = config(DeviceKind::Mouse);
    let keyboard = config(DeviceKind::Keyboard);
    let names = [
        input_mapping_name(&mouse),
        input_event_name(&mouse),
        output_mapping_name(&keyboard),
        output_event_name(&keyboard),
    ];
    for name in &names {
        assert!(name.starts_with("Global\\RustConsole"));
        assert!(name.contains("-0123456789abcdef-"));
    }
    assert!(names[0].ends_with("-mouse") && names[1].ends_with("-mouse"));
    assert!(names[2].ends_with("-keyboard") && names[3].ends_with("-keyboard"));
    assert_ne!(names[0], names[1]);
    assert_ne!(names[2], names[3]);
}

fn identity() -> DeviceIdentity {
    DeviceIdentity {
        vendor_id: 0x1209,
        product_id: 0x5d02,
        report_descriptor: vec![5, 1, 9, 6],
    }
}

#[test]
fn hid_requests_are_answered() {
    let keyboard = Some(DeviceKind::Keyboard);
    assert!(matches!(
        control(IOCTL_HID_GET_DEVICE_DESCRIPTOR, keyboard, &identity()),
        Answer::Bytes(bytes) if bytes == [9, 0x21, 0x11, 0x01, 0, 1, 0x22, 4, 0]
    ));
    assert!(matches!(
        control(IOCTL_HID_GET_REPORT_DESCRIPTOR, keyboard, &identity()),
        Answer::Bytes(bytes) if bytes == [5, 1, 9, 6]
    ));
    assert!(matches!(
        control(IOCTL_HID_GET_DEVICE_ATTRIBUTES, keyboard, &identity()),
        Answer::Bytes(bytes) if bytes == [12, 0, 0, 0, 0x09, 0x12, 0x02, 0x5d, 0, 1, 0, 0]
    ));
    assert!(matches!(
        control(IOCTL_HID_READ_REPORT, keyboard, &identity()),
        Answer::QueueRead
    ));
    assert!(matches!(
        control(IOCTL_HID_GET_STRING, keyboard, &identity()),
        Answer::ReadStringNumber
    ));
    for code in [IOCTL_HID_ACTIVATE_DEVICE, IOCTL_HID_DEACTIVATE_DEVICE] {
        assert!(matches!(
            control(code, keyboard, &identity()),
            Answer::Status(STATUS_SUCCESS)
        ));
    }
    assert!(matches!(
        control(1, keyboard, &identity()),
        Answer::Status(STATUS_NOT_SUPPORTED)
    ));
    assert!(matches!(
        control(IOCTL_HID_GET_DEVICE_DESCRIPTOR, None, &identity()),
        Answer::Status(STATUS_UNSUCCESSFUL)
    ));
    assert_eq!(hid_descriptor(0x1_0203)[7..], [0x03, 0x02]);
    assert_eq!(hid_attributes(1, 2).len(), 12);
}

#[test]
fn only_keyboards_take_lights() {
    for code in [IOCTL_HID_WRITE_REPORT, IOCTL_UMDF_HID_SET_OUTPUT_REPORT] {
        assert!(matches!(
            control(code, Some(DeviceKind::Keyboard), &identity()),
            Answer::ReadOutputReport
        ));
        assert!(matches!(
            control(code, Some(DeviceKind::Mouse), &identity()),
            Answer::Status(STATUS_NOT_SUPPORTED)
        ));
    }
    assert_eq!(
        output_report(STATUS_SUCCESS, &[0, 0x1f]),
        OutputRequest::Publish {
            operation: OUTPUT_REPORT_OPERATION,
            report_id: 0,
            lights: 0x1f
        }
    );
    for input in [&[0, 0x20][..], &[1, 0], &[0], &[0, 0, 0], &[]] {
        assert_eq!(
            output_report(STATUS_SUCCESS, input),
            OutputRequest::Complete(STATUS_INVALID_PARAMETER)
        );
    }
    assert_eq!(
        output_report(STATUS_NO_MEMORY, &[0, 0]),
        OutputRequest::Complete(STATUS_NO_MEMORY)
    );
    assert_eq!(output_completion(true), (STATUS_SUCCESS, 2));
    assert_eq!(output_completion(false), (STATUS_UNSUCCESSFUL, 0));
}

#[test]
fn a_device_tells_its_names() {
    let mouse = config(DeviceKind::Mouse);
    assert_eq!(device_text(14, &mouse).as_deref(), Some("Rust Console"));
    assert_eq!(
        device_text(15, &mouse).as_deref(),
        Some("Rust Console Virtual Mouse")
    );
    assert_eq!(
        device_text(2, &config(DeviceKind::Keyboard)).as_deref(),
        Some("Rust Console Virtual Keyboard")
    );
    assert_eq!(
        device_text(16, &mouse).as_deref(),
        Some("RC-0123456789abcdef-7")
    );
    assert_eq!(device_text(4, &mouse), None);
    let Answer::Bytes(bytes) = string_answer(STATUS_SUCCESS, &[1, 0, 9, 4], &mouse) else {
        panic!("expected a text");
    };
    assert_eq!(bytes.len(), 2 * ("Rust Console".len() + 1));
    assert_eq!(bytes[..4], [b'R', 0, b'u', 0]);
    assert_eq!(bytes[24..], [0, 0]);
    assert!(matches!(
        string_answer(STATUS_SUCCESS, &[1, 1, 0, 0], &mouse),
        Answer::Status(STATUS_INVALID_PARAMETER)
    ));
    assert!(matches!(
        string_answer(STATUS_NO_MEMORY, &[], &mouse),
        Answer::Status(STATUS_NO_MEMORY)
    ));
}

fn ring() -> SharedReportRing {
    SharedReportRing {
        header: RingHeader {
            magic: MAGIC,
            version: VERSION,
            slot_count: SLOT_COUNT,
            report_capacity: REPORT_CAPACITY,
            generation: 1,
            producer_sequence: 0,
            consumer_sequence: 0,
            overflow_count: 0,
        },
        slots: [ReportSlot {
            committed_sequence: 0,
            length: 0,
            reserved: 0,
            data: [0; 80],
        }; 256],
    }
}

fn write(ring: &mut SharedReportRing, sequence: u64, first: u8) {
    let slot = &mut ring.slots[slot_index(sequence)];
    slot.committed_sequence = sequence;
    slot.length = KEYBOARD_REPORT_SIZE as u16;
    slot.data[0] = first;
    ring.header.producer_sequence = sequence;
}

#[test]
fn reports_are_read_in_the_order_they_were_written() {
    let mut ring = ring();
    assert_eq!(read_report(&ring, DeviceKind::Keyboard), Ok(None));
    write(&mut ring, 1, 11);
    write(&mut ring, 2, 22);
    for (sequence, first) in [(1, 11), (2, 22)] {
        let (read, report) = read_report(&ring, DeviceKind::Keyboard)
            .expect("a valid ring")
            .expect("a report");
        assert_eq!(
            (read, report.len(), report[0]),
            (sequence, KEYBOARD_REPORT_SIZE, first)
        );
        consume(&mut ring, read);
    }
    assert_eq!(read_report(&ring, DeviceKind::Keyboard), Ok(None));
    assert_eq!(slot_index(1), 0);
    assert_eq!(slot_index(256), 255);
    assert_eq!(slot_index(257), 0);
}

#[test]
fn a_report_of_another_device_is_a_fault() {
    let mut ring = ring();
    write(&mut ring, 1, 1);
    assert_eq!(read_report(&ring, DeviceKind::Mouse), Err(RingFault));
    ring.slots[0].length = 8;
    assert!(matches!(
        read_report(&ring, DeviceKind::Mouse),
        Ok(Some((1, report))) if report.len() == 8
    ));
    ring.slots[0].data[0] = 3;
    assert_eq!(read_report(&ring, DeviceKind::Mouse), Err(RingFault));
    ring.slots[0].data[0] = 2;
    ring.slots[0].reserved = 1;
    assert_eq!(read_report(&ring, DeviceKind::Mouse), Err(RingFault));
}

#[test]
fn a_slot_that_changes_while_it_is_read_gives_nothing() {
    let mut ring = ring();
    write(&mut ring, 1, 5);
    let slot = ring.slots[0];
    assert_eq!(slot.report(1, DeviceKind::Keyboard, 257), Ok(None));
    assert_eq!(slot.report(2, DeviceKind::Keyboard, 2), Ok(None));
    assert!(slot
        .report(1, DeviceKind::Keyboard, 1)
        .is_ok_and(|report| report.is_some()));
}

#[test]
fn a_foreign_header_is_a_fault() {
    let valid = ring().header;
    assert_eq!(valid.validate(), Ok(()));
    for header in [
        RingHeader { magic: 0, ..valid },
        RingHeader {
            version: 2,
            ..valid
        },
        RingHeader {
            slot_count: 1,
            ..valid
        },
        RingHeader {
            report_capacity: 8,
            ..valid
        },
        RingHeader {
            generation: 0,
            ..valid
        },
    ] {
        assert_eq!(header.validate(), Err(RingFault));
        assert_eq!(header.next_report(), Err(RingFault));
        assert_eq!(header.next_slot(), Err(OutputFault::Refused));
    }
    let last = RingHeader {
        producer_sequence: u64::MAX,
        consumer_sequence: u64::MAX,
        ..valid
    };
    assert_eq!(last.next_report(), Err(RingFault));
    assert_eq!(last.next_slot(), Err(OutputFault::Refused));
    let backwards = RingHeader {
        consumer_sequence: 1,
        ..valid
    };
    assert_eq!(backwards.next_slot(), Err(OutputFault::Refused));
}

#[test]
fn a_full_ring_keeps_its_reports_and_counts_the_rest() {
    let mut ring = ring();
    for lights in 0..SLOT_COUNT {
        assert_eq!(
            ring.publish_output(OUTPUT_REPORT_OPERATION, 0, &[lights as u8]),
            Ok(())
        );
    }
    let full = ring.slots;
    assert_eq!(
        ring.publish_output(OUTPUT_REPORT_OPERATION, 0, &[1]),
        Err(OutputFault::Full)
    );
    assert_eq!(ring.header.overflow_count, 1);
    assert_eq!(ring.header.producer_sequence, 256);
    assert!(ring
        .slots
        .iter()
        .zip(&full)
        .all(|(now, before)| now.committed_sequence == before.committed_sequence
            && now.data == before.data));
    assert_eq!(ring.slots[3].data[..4], [1, 0, 3, 0]);
    assert_eq!(ring.slots[3].length, 3);
    ring.header.consumer_sequence = 1;
    assert_eq!(
        ring.publish_output(OUTPUT_REPORT_OPERATION, 0, &[9]),
        Ok(())
    );
    assert_eq!(ring.slots[0].committed_sequence, 257);
    assert_eq!(ring.slots[0].data[2], 9);
    assert_eq!(ring.publish_output(2, 0, &[1]), Err(OutputFault::Refused));
    assert_eq!(
        ring.publish_output(OUTPUT_REPORT_OPERATION, 0, &[]),
        Err(OutputFault::Refused)
    );
    assert_eq!(
        ring.publish_output(OUTPUT_REPORT_OPERATION, 0, &[0; 79]),
        Err(OutputFault::Refused)
    );
}

#[test]
fn the_worker_opens_waits_and_pumps() {
    assert_eq!(wait_result(WAIT_OBJECT_0), WaitResult::Stop);
    assert_eq!(wait_result(WAIT_OBJECT_0 + 1), WaitResult::InputOrTimeout);
    assert_eq!(wait_result(WAIT_TIMEOUT), WaitResult::InputOrTimeout);
    assert_eq!(wait_result(u32::MAX), WaitResult::Failed);
    let device = |known, connected| worker_step(WorkerEvent::Device { known, connected });
    assert_eq!(device(false, false), WorkerAction::Stop);
    assert_eq!(device(true, false), WorkerAction::Open);
    assert_eq!(device(true, true), WorkerAction::Wait);
    assert_eq!(worker_step(WorkerEvent::Opened(true)), WorkerAction::Pump);
    assert_eq!(
        worker_step(WorkerEvent::Opened(false)),
        WorkerAction::Sleep(Duration::from_millis(250))
    );
    assert_eq!(
        worker_step(WorkerEvent::Waited(WaitResult::InputOrTimeout)),
        WorkerAction::Pump
    );
    assert_eq!(
        worker_step(WorkerEvent::Waited(WaitResult::Failed)),
        WorkerAction::Stop
    );
}

#[test]
fn one_caller_hands_reports_on() {
    let mut pump = Pump { pumping: false };
    assert!(pump.begin());
    assert!(!pump.begin());
    assert_eq!(pump.read(PumpRead::Report(4)), Some(4));
    assert!(pump.requested(true));
    assert!(pump.completed(true));
    assert!(pump.pumping);
    assert_eq!(pump.read(PumpRead::Nothing), None);
    assert!(!pump.pumping && pump.begin());
    assert!(!pump.requested(false));
    assert!(pump.begin());
    assert!(!pump.completed(false));
    assert!(pump.begin());
    assert_eq!(pump.read(PumpRead::Disconnected), None);
    assert!(!pump.pumping);
}

#[test]
fn system_errors_become_statuses() {
    assert_eq!(
        error_status(ERROR_FILE_NOT_FOUND),
        STATUS_OBJECT_NAME_NOT_FOUND
    );
    assert_eq!(error_status(ERROR_ACCESS_DENIED), STATUS_ACCESS_DENIED);
    assert_eq!(error_status(ERROR_NOT_ENOUGH_MEMORY), STATUS_NO_MEMORY);
    assert_eq!(error_status(1_234), STATUS_UNSUCCESSFUL);
}
