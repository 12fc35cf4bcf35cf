//! What a virtual device is, as the registry of the machine says it.

use crate::driver::status::STATUS_INVALID_PARAMETER;
use crate::text;
use crate::text::{ascii_string, decimal_text};
use vstd::prelude::*;
use vstd::string::StringExecFns;

verus! {

/// The type number of a 32-bit registry value.
pub const REG_DWORD: u32 = 4;

/// The type number of a text in the registry.
pub const REG_SZ: u32 = 1;

/// The most UTF-16 units of an instance token, with the zero behind it.
pub const TOKEN_UNITS: usize = 65;

pub const MIN_TOKEN_SIZE: usize = 16;

pub const MAX_TOKEN_SIZE: usize = 64;

#[derive(Clone, Copy, Debug, PartialEq, Eq, Structural)]
pub enum DeviceKind {
    Mouse,
    Keyboard,
}

#[derive(Clone, Debug)]
pub struct DeviceConfig {
    pub index: u32,
    pub kind: DeviceKind,
    pub token: String,
}

/// The contents of a [`DeviceConfig`].
#[verifier::ext_equal]
pub struct ConfigModel {
    pub index: u32,
    pub kind: DeviceKind,
    pub token: Seq<char>,
}

impl View for DeviceConfig {
    type V = ConfigModel;

    open spec fn view(&self) -> ConfigModel {
        ConfigModel { index: self.index, kind: self.kind, token: self.token@ }
    }
}

/// What a query for a 32-bit value gave.
#[derive(Clone, Copy, Debug)]
pub struct RegistryNumber {
    pub succeeded: bool,
    pub value_type: u32,
    pub size: u32,
    pub value: u32,
}

/// What a query for a text gave: `size` bytes of `units`.
#[derive(Clone, Debug)]
pub struct RegistryText {
    pub succeeded: bool,
    pub value_type: u32,
    pub size: u32,
    pub units: Vec<u16>,
}

/// The registry key of a device.
pub open spec fn spec_registry_path(index: u32) -> Seq<char> {
    "SOFTWARE\\RustConsole\\VirtualInput\\Device"@ + text::decimal(index as nat)
}

pub fn registry_path(index: u32) -> (path: String)
    ensures
        path@ == spec_registry_path(index),
{
    let mut path: String = "SOFTWARE\\RustConsole\\VirtualInput\\Device".to_owned();
    path.append(decimal_text(index as u64).as_str());
    path
}

pub open spec fn spec_device_kind(query: RegistryNumber) -> Result<DeviceKind, i32> {
    if !query.succeeded || query.value_type != REG_DWORD || query.size != 4 {
        Err(STATUS_INVALID_PARAMETER)
    } else if query.value == 1 {
        Ok(DeviceKind::Mouse)
    } else if query.value == 2 {
        Ok(DeviceKind::Keyboard)
    } else {
        Err(STATUS_INVALID_PARAMETER)
    }
}

/// The kind of a device, from the number that stands for it.
pub fn device_kind(query: RegistryNumber) -> (kind: Result<DeviceKind, i32>)
    ensures
        kind == spec_device_kind(query),
{
    if !query.succeeded || query.value_type != REG_DWORD || query.size != 4 {
        return Err(STATUS_INVALID_PARAMETER);
    }
    match query.value {
        1 => Ok(DeviceKind::Mouse),
        2 => Ok(DeviceKind::Keyboard),
        _ => Err(STATUS_INVALID_PARAMETER),
    }
}

/// A letter or a digit of ASCII, or a hyphen.
pub open spec fn is_token_unit(unit: u16) -> bool {
    ||| 0x30 <= unit <= 0x39
    ||| 0x41 <= unit <= 0x5a
    ||| 0x61 <= unit <= 0x7a
    ||| unit == 0x2d
}

pub open spec fn is_token(units: Seq<u16>) -> bool {
    &&& MIN_TOKEN_SIZE <= units.len() <= MAX_TOKEN_SIZE
    &&& forall|i: int| 0 <= i < units.len() ==> is_token_unit(#[trigger] units[i])
}

/// The units that a query gave, without the zero behind them.
pub open spec fn text_units(query: RegistryText) -> Seq<u16> {
    query.units@.take(query.size / 2 - 1)
}

/// The query gave a text that ends in a zero and is a token.
pub open spec fn holds_token(query: RegistryText) -> bool {
    &&& query.succeeded
    &&& query.value_type == REG_SZ
    &&& query.size >= 2
    &&& query.size % 2 == 0
    &&& query.size / 2 <= query.units@.len()
    &&& query.units@[query.size / 2 - 1] == 0
    &&& is_token(text_units(query))
}

/// One character for each unit.
pub open spec fn unit_text(units: Seq<u16>) -> Seq<char> {
    Seq::new(units.len(), |i: int| units[i] as char)
}

fn token_unit(unit: u16) -> (result: bool)
    ensures
        result == is_token_unit(unit),
{
    (0x30 <= unit && unit <= 0x39) || (0x41 <= unit && unit <= 0x5a) || (0x61 <= unit && unit
        <= 0x7a) || unit == 0x2d
}

/// The token that names the shared memory of a device.
pub fn instance_token(query: &RegistryText) -> (token: Result<String, i32>)
    ensures
        match token {
            Ok(token) => holds_token(*query) && token@ == unit_text(text_units(*query)),
            Err(status) => !holds_token(*query) && status == STATUS_INVALID_PARAMETER,
        },
{
    if !query.succeeded || query.value_type != REG_SZ || query.size < 2 || query.size % 2 != 0 {
        return Err(STATUS_INVALID_PARAMETER);
    }
    let length: usize = query.size as usize / 2;
    if length > query.units.len() || query.units[length - 1] != 0 {
        return Err(STATUS_INVALID_PARAMETER);
    }
    let size: usize = length - 1;
    if size < MIN_TOKEN_SIZE || size > MAX_TOKEN_SIZE {
        return Err(STATUS_INVALID_PARAMETER);
    }
    let ghost units = text_units(*query);
    let mut bytes: Vec<u8> = Vec::new();
    let mut index: usize = 0;
    while index < size
        invariant
            index <= size,
            size < query.units@.len(),
            units == text_units(*query),
            units.len() == size,
            units == query.units@.take(size as int),
            bytes@.len() == index,
            forall|i: int|
                0 <= i < index ==> is_token_unit(#[trigger] units[i]) && bytes@[i] == units[i],
        decreases size - index,
    {
        let unit: u16 = query.units[index];
        assert(unit == units[index as int]);
        if !token_unit(unit) {
            return Err(STATUS_INVALID_PARAMETER);
        }
        bytes.push(unit as u8);
        index = index + 1;
    }
    assert forall|i: int| 0 <= i < bytes@.len() implies #[trigger] bytes@[i] < 128 by {
        assert(is_token_unit(units[i]));
    }
    assert(text::ascii_text(bytes@) =~= unit_text(units)) by {
        assert forall|i: int| 0 <= i < units.len() implies bytes@[i] as char == units[i] as char by {
            assert(is_token_unit(units[i]));
        }
    }
    Ok(ascii_string(bytes.as_slice()))
}

/// What the device with this index is. Its kind is looked at first.
pub fn load(index: u32, kind: RegistryNumber, token: &RegistryText) -> (config: Result<
    DeviceConfig,
    i32,
>)
    ensures
        match config {
            Ok(config) => {
                &&& spec_device_kind(kind) == Ok::<DeviceKind, i32>(config.kind)
                &&& holds_token(*token)
                &&& config.index == index
                &&& config.token@ == unit_text(text_units(*token))
            },
            Err(status) => {
                &&& status == STATUS_INVALID_PARAMETER
                &&& spec_device_kind(kind) is Err || !holds_token(*token)
            },
        },
{
    let kind: DeviceKind = match device_kind(kind) {
        Ok(kind) => kind,
        Err(status) => return Err(status),
    };
    match instance_token(token) {
        Ok(token) => Ok(DeviceConfig { index, kind, token }),
        Err(status) => Err(status),
    }
}

/// The name that a device of this kind has in shared names.
pub open spec fn kind_name(kind: DeviceKind) -> Seq<char> {
    match kind {
        DeviceKind::Mouse => "mouse"@,
        DeviceKind::Keyboard => "keyboard"@,
    }
}

/// A name that a device shares with the host: what it is for, the token of the
/// device and its kind.
pub open spec fn shared_name(purpose: Seq<char>, token: Seq<char>, kind: DeviceKind) -> Seq<char> {
    "Global\\RustConsole"@ + purpose + "-"@ + token + "-"@ + kind_name(kind)
}

fn name_of(purpose: &str, config: &DeviceConfig, kind: DeviceKind) -> (name: String)
    ensures
        name@ == shared_name(purpose@, config@.token, kind),
{
    let mut name: String = "Global\\RustConsole".to_owned();
    name.append(purpose);
    name.append("-");
    name.append(config.token.as_str());
    name.append("-");
    match kind {
        DeviceKind::Mouse => name.append("mouse"),
        DeviceKind::Keyboard => name.append("keyboard"),
    }
    name
}

/// The shared memory through which reports reach a device.
pub fn input_mapping_name(config: &DeviceConfig) -> (name: String)
    ensures
        name@ == shared_name("Input"@, config@.token, config@.kind),
{
    name_of("Input", config, config.kind)
}

/// The event that tells a device of reports.
pub fn input_event_name(config: &DeviceConfig) -> (name: String)
    ensures
        name@ == shared_name("InputEvent"@, config@.token, config@.kind),
{
    name_of("InputEvent", config, config.kind)
}

/// The shared memory through which a keyboard tells of its lights.
pub fn output_mapping_name(config: &DeviceConfig) -> (name: String)
    ensures
        name@ == shared_name("Output"@, config@.token, DeviceKind::Keyboard),
{
    name_of("Output", config, DeviceKind::Keyboard)
}

/// The event that tells the host of a keyboard's lights.
pub fn output_event_name(config: &DeviceConfig) -> (name: String)
    ensures
        name@ == shared_name("OutputEvent"@, config@.token, DeviceKind::Keyboard),
{
    name_of("OutputEvent", config, DeviceKind::Keyboard)
}

/// Which devices a number of the registry stands for: one for the mouse and two
/// for the keyboard, where it is a number of four bytes.
pub proof fn law_device_numbers(query: RegistryNumber)
    ensures
        ({
            let is_number = query.succeeded && query.value_type == 4 && query.size == 4;
            &&& (spec_device_kind(query) matches Ok(DeviceKind::Mouse)) <==> is_number && query.value
                == 1
            &&& (spec_device_kind(query) matches Ok(DeviceKind::Keyboard)) <==> is_number
                && query.value == 2
            &&& spec_device_kind(query) is Err <==> !is_number || query.value < 1 || query.value
                > 2
        }),
{
}

/// A token has between 16 and 64 letters, digits and hyphens, and ends in the
/// registry with a zero.
pub proof fn law_tokens(query: RegistryText)
    ensures
        holds_token(query) <==> {
            &&& query.succeeded
            &&& query.value_type == 1
            &&& query.size % 2 == 0
            &&& 17 <= query.size / 2 <= 65
            &&& query.size / 2 <= query.units@.len()
            &&& query.units@[query.size / 2 - 1] == 0
            &&& forall|i: int|
                0 <= i < query.size / 2 - 1 ==> {
                    let unit = #[trigger] query.units@[i];
                    ||| 48 <= unit <= 57
                    ||| 65 <= unit <= 90
                    ||| 97 <= unit <= 122
                    ||| unit == 45
                }
        },
{
    let count = query.size / 2 - 1;
    if query.size >= 2 && query.size / 2 <= query.units@.len() {
        assert forall|i: int| 0 <= i < count implies text_units(query)[i]
            == #[trigger] query.units@[i] by {}
        if holds_token(query) {
            assert forall|i: int| 0 <= i < count implies ({
                let unit = #[trigger] query.units@[i];
                ||| 48 <= unit <= 57
                ||| 65 <= unit <= 90
                ||| 97 <= unit <= 122
                ||| unit == 45
            }) by {
                assert(is_token_unit(text_units(query)[i]));
            }
        }
    }
}

/// The shared objects of a device are named by what they are for, its token and
/// its kind.
pub proof fn law_shared_names(purpose: Seq<char>, token: Seq<char>)
    ensures
        shared_name(purpose, token, DeviceKind::Mouse) == "Global\\RustConsole"@ + purpose + "-"@
            + token + "-"@ + "mouse"@,
        shared_name(purpose, token, DeviceKind::Keyboard) == "Global\\RustConsole"@ + purpose
            + "-"@ + token + "-"@ + "keyboard"@,
{
}

} // verus!
