//! Messages between the viewer and the process that plays a stream.

use crate::bytes;
use crate::bytes::{array32, get_be, owned_range, put_be};
use crate::protocol::av1::MAXIMUM_VIDEO_BITRATE_BITS_PER_SECOND;
use crate::secret::Secret;
use crate::text::owned_string;
use crate::text;
use vstd::prelude::*;

verus! {

pub const VERSION: u16 = 3;

pub const MAX_MESSAGE_SIZE: usize = 4_096;

pub const MAX_PASSWORD_SIZE: usize = 1_024;

pub const MAX_ERROR_SIZE: usize = 2_048;

pub const MINIMUM_MAXIMUM_BITRATE_BITS_PER_SECOND: u64 = 5_000_000;

/// The bytes of a frame before its message: the size of the message.
pub const FRAME_PREFIX_SIZE: usize = 4;

/// What is wrong with a message.
#[derive(Clone, Copy, Debug, PartialEq, Eq, Structural)]
pub enum MessageFault {
    EmptyCommand,
    UnknownCommand,
    StopHasTrailingData,
    ReconnectHasTrailingData,
    EmptyEvent,
    UnknownEvent,
    InvalidEventPayload,
    ErrorIsNotUtf8,
    UnsupportedVersion,
    AddressTooLong,
    AddressIsNotUtf8,
    InvalidAddress,
    BitrateOutOfRange,
    InvalidRememberPassword,
    InvalidLatencyDiagnostics,
    LaunchHasTrailingData,
    Truncated,
}

#[derive(Clone, Copy, Debug, PartialEq, Eq, Structural)]
pub enum ProcessProtocolError {
    /// The pipe ended before the frame did.
    UnexpectedEnd,
    MessageTooLarge { size: usize, maximum: usize },
    InvalidMessage(MessageFault),
}

/// What a player is started with.
#[derive(Clone, PartialEq, Eq)]
pub struct LaunchRequest {
    /// The network address of the host, as text.
    pub address: String,
    pub password: Secret,
    pub remember_password: bool,
    pub maximum_bitrate_bits_per_second: u64,
    pub latency_diagnostics: bool,
}

/// The contents of a [`LaunchRequest`].
#[verifier::ext_equal]
pub struct LaunchModel {
    pub address: Seq<char>,
    pub password: Seq<u8>,
    pub remember_password: bool,
    pub maximum_bitrate_bits_per_second: u64,
    pub latency_diagnostics: bool,
}

impl View for LaunchRequest {
    type V = LaunchModel;

    open spec fn view(&self) -> LaunchModel {
        LaunchModel {
            address: self.address@,
            password: self.password@,
            remember_password: self.remember_password,
            maximum_bitrate_bits_per_second: self.maximum_bitrate_bits_per_second,
            latency_diagnostics: self.latency_diagnostics,
        }
    }
}

/// A launch command whose address is read and whose options are not. Whether
/// the text is a network address is for the caller to say.
pub struct LaunchHead {
    pub address: String,
    pub options: Vec<u8>,
}

pub enum PlayerCommand {
    Launch(LaunchHead),
    Stop,
    Reconnect,
}

#[derive(Clone, Debug, PartialEq, Eq)]
pub enum PlayerEvent {
    Authenticated { host_identity: [u8; 32] },
    Started,
    Ended,
    Error(String),
}

/// The contents of a [`PlayerEvent`].
#[verifier::ext_equal]
pub enum EventModel {
    Authenticated(Seq<u8>),
    Started,
    Ended,
    Error(Seq<char>),
}

/// The contents of a [`PlayerCommand`]; a launch with its options unread.
#[verifier::ext_equal]
pub enum CommandModel {
    Launch { address: Seq<char>, options: Seq<u8> },
    Stop,
    Reconnect,
}

impl View for PlayerEvent {
    type V = EventModel;

    open spec fn view(&self) -> EventModel {
        match self {
            PlayerEvent::Authenticated { host_identity } => EventModel::Authenticated(
                host_identity@,
            ),
            PlayerEvent::Started => EventModel::Started,
            PlayerEvent::Ended => EventModel::Ended,
            PlayerEvent::Error(message) => EventModel::Error(message@),
        }
    }
}

impl View for PlayerCommand {
    type V = CommandModel;

    open spec fn view(&self) -> CommandModel {
        match self {
            PlayerCommand::Launch(head) => CommandModel::Launch {
                address: head.address@,
                options: head.options@,
            },
            PlayerCommand::Stop => CommandModel::Stop,
            PlayerCommand::Reconnect => CommandModel::Reconnect,
        }
    }
}

pub open spec fn invalid(fault: MessageFault) -> ProcessProtocolError {
    ProcessProtocolError::InvalidMessage(fault)
}

/// A message with its size in front.
pub open spec fn framed(message: Seq<u8>) -> Seq<u8> {
    bytes::be_bytes(message.len(), 4) + message
}

pub open spec fn flag(value: bool) -> u8 {
    if value {
        1
    } else {
        0
    }
}

pub open spec fn is_bitrate(value: u64) -> bool {
    MINIMUM_MAXIMUM_BITRATE_BITS_PER_SECOND <= value <= MAXIMUM_VIDEO_BITRATE_BITS_PER_SECOND
}

impl LaunchModel {
    /// The options behind the address.
    pub open spec fn options(self) -> Seq<u8> {
        bytes::be_bytes(self.maximum_bitrate_bits_per_second as nat, 8) + seq![
            flag(self.remember_password),
            flag(self.latency_diagnostics),
        ] + bytes::be_bytes(self.password.len(), 2) + self.password
    }

    pub open spec fn message(self) -> Seq<u8> {
        let address = vstd::utf8::encode_utf8(self.address);
        seq![1u8] + bytes::be_bytes(VERSION as nat, 2) + bytes::be_bytes(address.len(), 2) + address
            + self.options()
    }

    /// Why this cannot be sent, if it cannot.
    pub open spec fn fault(self) -> Option<ProcessProtocolError> {
        if self.password.len() > MAX_PASSWORD_SIZE {
            Some(
                ProcessProtocolError::MessageTooLarge {
                    size: self.password.len() as usize,
                    maximum: MAX_PASSWORD_SIZE,
                },
            )
        } else if !is_bitrate(self.maximum_bitrate_bits_per_second) {
            Some(invalid(MessageFault::BitrateOutOfRange))
        } else if text::byte_length(self.address) > u16::MAX {
            Some(invalid(MessageFault::AddressTooLong))
        } else if self.message().len() > MAX_MESSAGE_SIZE {
            Some(
                ProcessProtocolError::MessageTooLarge {
                    size: self.message().len() as usize,
                    maximum: MAX_MESSAGE_SIZE,
                },
            )
        } else {
            None
        }
    }
}

/// The address and the options of a launch command, behind its kind.
pub open spec fn launch_head(body: Seq<u8>) -> Result<
    (Seq<char>, Seq<u8>),
    ProcessProtocolError,
> {
    if body.len() < 2 {
        Err(invalid(MessageFault::Truncated))
    } else if bytes::be_value(body.subrange(0, 2)) != VERSION {
        Err(invalid(MessageFault::UnsupportedVersion))
    } else if body.len() < 4 {
        Err(invalid(MessageFault::Truncated))
    } else {
        let end = 4 + bytes::be_value(body.subrange(2, 4));
        if body.len() < end {
            Err(invalid(MessageFault::Truncated))
        } else if !vstd::utf8::valid_utf8(body.subrange(4, end as int)) {
            Err(invalid(MessageFault::AddressIsNotUtf8))
        } else {
            Ok((vstd::utf8::decode_utf8(body.subrange(4, end as int)), body.skip(end as int)))
        }
    }
}

/// The launch with this address and these options.
pub open spec fn launch_with(address: Seq<char>, options: Seq<u8>) -> Result<
    LaunchModel,
    ProcessProtocolError,
> {
    if options.len() < 8 {
        Err(invalid(MessageFault::Truncated))
    } else if !is_bitrate(bytes::be_value(options.subrange(0, 8)) as u64) {
        Err(invalid(MessageFault::BitrateOutOfRange))
    } else if options.len() < 9 {
        Err(invalid(MessageFault::Truncated))
    } else if options[8] > 1 {
        Err(invalid(MessageFault::InvalidRememberPassword))
    } else if options.len() < 10 {
        Err(invalid(MessageFault::Truncated))
    } else if options[9] > 1 {
        Err(invalid(MessageFault::InvalidLatencyDiagnostics))
    } else if options.len() < 12 {
        Err(invalid(MessageFault::Truncated))
    } else {
        let size = bytes::be_value(options.subrange(10, 12));
        if size > MAX_PASSWORD_SIZE {
            Err(
                ProcessProtocolError::MessageTooLarge {
                    size: size as usize,
                    maximum: MAX_PASSWORD_SIZE,
                },
            )
        } else if options.len() < 12 + size {
            Err(invalid(MessageFault::Truncated))
        } else if options.len() > 12 + size {
            Err(invalid(MessageFault::LaunchHasTrailingData))
        } else {
            Ok(
                LaunchModel {
                    address,
                    password: options.skip(12),
                    remember_password: options[8] == 1,
                    maximum_bitrate_bits_per_second: bytes::be_value(
                        options.subrange(0, 8),
                    ) as u64,
                    latency_diagnostics: options[9] == 1,
                },
            )
        }
    }
}

/// The command that a message is.
pub open spec fn command_in(message: Seq<u8>) -> Result<CommandModel, ProcessProtocolError> {
    if message.len() == 0 {
        Err(invalid(MessageFault::EmptyCommand))
    } else if message[0] == 1 {
        match launch_head(message.skip(1)) {
            Ok((address, options)) => Ok(CommandModel::Launch { address, options }),
            Err(error) => Err(error),
        }
    } else if message[0] == 2 {
        if message.len() == 1 {
            Ok(CommandModel::Stop)
        } else {
            Err(invalid(MessageFault::StopHasTrailingData))
        }
    } else if message[0] == 3 {
        if message.len() == 1 {
            Ok(CommandModel::Reconnect)
        } else {
            Err(invalid(MessageFault::ReconnectHasTrailingData))
        }
    } else {
        Err(invalid(MessageFault::UnknownCommand))
    }
}

impl EventModel {
    pub open spec fn message(self) -> Seq<u8> {
        match self {
            EventModel::Authenticated(identity) => seq![1u8] + identity,
            EventModel::Started => seq![2u8],
            EventModel::Ended => seq![3u8],
            EventModel::Error(message) => seq![4u8] + vstd::utf8::encode_utf8(message),
        }
    }

    /// Whether the event can be sent.
    pub open spec fn fits(self) -> bool {
        match self {
            EventModel::Error(message) => text::byte_length(message) <= MAX_ERROR_SIZE,
            _ => true,
        }
    }
}

/// The event that a message is.
pub open spec fn event_in(message: Seq<u8>) -> Result<EventModel, ProcessProtocolError> {
    if message.len() == 0 {
        Err(invalid(MessageFault::EmptyEvent))
    } else {
        let rest = message.skip(1);
        if message[0] == 1 && rest.len() == 32 {
            Ok(EventModel::Authenticated(rest))
        } else if message[0] == 2 && rest.len() == 0 {
            Ok(EventModel::Started)
        } else if message[0] == 3 && rest.len() == 0 {
            Ok(EventModel::Ended)
        } else if message[0] == 4 && rest.len() <= MAX_ERROR_SIZE {
            if vstd::utf8::valid_utf8(rest) {
                Ok(EventModel::Error(vstd::utf8::decode_utf8(rest)))
            } else {
                Err(invalid(MessageFault::ErrorIsNotUtf8))
            }
        } else if 1 <= message[0] <= 4 {
            Err(invalid(MessageFault::InvalidEventPayload))
        } else {
            Err(invalid(MessageFault::UnknownEvent))
        }
    }
}

/// The first message of a pipe, and what comes behind it.
pub open spec fn first_message(pipe: Seq<u8>) -> Result<
    (Seq<u8>, Seq<u8>),
    ProcessProtocolError,
> {
    if pipe.len() < 4 {
        Err(ProcessProtocolError::UnexpectedEnd)
    } else {
        let size = bytes::be_value(pipe.take(4));
        if size > MAX_MESSAGE_SIZE {
            Err(
                ProcessProtocolError::MessageTooLarge {
                    size: size as usize,
                    maximum: MAX_MESSAGE_SIZE,
                },
            )
        } else if pipe.len() < 4 + size {
            Err(ProcessProtocolError::UnexpectedEnd)
        } else {
            Ok((pipe.subrange(4, 4 + size as int), pipe.skip(4 + size as int)))
        }
    }
}

fn put_frame(writer: &mut Vec<u8>, message: &Vec<u8>) -> (result: Result<(), ProcessProtocolError>)
    ensures
        if message@.len() <= MAX_MESSAGE_SIZE {
            result is Ok && final(writer)@ == old(writer)@ + framed(message@)
        } else {
            &&& result == Err::<(), _>(
                ProcessProtocolError::MessageTooLarge {
                    size: message@.len() as usize,
                    maximum: MAX_MESSAGE_SIZE,
                },
            )
            &&& final(writer)@ == old(writer)@
        },
{
    if message.len() > MAX_MESSAGE_SIZE {
        return Err(
            ProcessProtocolError::MessageTooLarge {
                size: message.len(),
                maximum: MAX_MESSAGE_SIZE,
            },
        );
    }
    put_be(writer, message.len() as u64, 4);
    writer.extend_from_slice(message.as_slice());
    assert(writer@ =~= old(writer)@ + framed(message@));
    Ok(())
}

/// Writes a launch command.
pub fn write_launch(writer: &mut Vec<u8>, request: &LaunchRequest) -> (result: Result<
    (),
    ProcessProtocolError,
>)
    ensures
        match request@.fault() {
            Some(error) => result == Err::<(), _>(error) && final(writer)@ == old(writer)@,
            None => result is Ok && final(writer)@ == old(writer)@ + framed(request@.message()),
        },
{
    if request.password.len() > MAX_PASSWORD_SIZE {
        return Err(
            ProcessProtocolError::MessageTooLarge {
                size: request.password.len(),
                maximum: MAX_PASSWORD_SIZE,
            },
        );
    }
    match validate_maximum_bitrate(request.maximum_bitrate_bits_per_second) {
        Ok(()) => {},
        Err(error) => {
            return Err(error);
        },
    }
    let address = request.address.as_str().as_bytes();
    if address.len() > 0xffff {
        return Err(ProcessProtocolError::InvalidMessage(MessageFault::AddressTooLong));
    }
    let mut message: Vec<u8> = Vec::new();
    message.push(1);
    put_be(&mut message, VERSION as u64, 2);
    put_be(&mut message, address.len() as u64, 2);
    message.extend_from_slice(address);
    put_be(&mut message, request.maximum_bitrate_bits_per_second, 8);
    message.push(
        if request.remember_password {
            1
        } else {
            0
        },
    );
    message.push(
        if request.latency_diagnostics {
            1
        } else {
            0
        },
    );
    put_be(&mut message, request.password.len() as u64, 2);
    message.extend_from_slice(request.password.as_slice());
    assert(message@ =~= request@.message());
    put_frame(writer, &message)
}

/// Writes a stop command.
pub fn write_stop(writer: &mut Vec<u8>) -> (result: Result<(), ProcessProtocolError>)
    ensures
        result is Ok,
        final(writer)@ == old(writer)@ + framed(seq![2u8]),
{
    let message: Vec<u8> = vec![2];
    assert(message@ =~= seq![2u8]);
    put_frame(writer, &message)
}

/// Writes a reconnect command.
pub fn write_reconnect(writer: &mut Vec<u8>) -> (result: Result<(), ProcessProtocolError>)
    ensures
        result is Ok,
        final(writer)@ == old(writer)@ + framed(seq![3u8]),
{
    let message: Vec<u8> = vec![3];
    assert(message@ =~= seq![3u8]);
    put_frame(writer, &message)
}

/// Writes an event.
pub fn write_event(writer: &mut Vec<u8>, event: &PlayerEvent) -> (result: Result<
    (),
    ProcessProtocolError,
>)
    ensures
        match event@ {
            EventModel::Error(message) if !event@.fits() => {
                &&& result == Err::<(), _>(
                    ProcessProtocolError::MessageTooLarge {
                        size: text::byte_length(message) as usize,
                        maximum: MAX_ERROR_SIZE,
                    },
                )
                &&& final(writer)@ == old(writer)@
            },
            _ => result is Ok && final(writer)@ == old(writer)@ + framed(event@.message()),
        },
{
    let mut message: Vec<u8> = Vec::new();
    match event {
        PlayerEvent::Authenticated { host_identity } => {
            message.push(1);
            message.extend_from_slice(host_identity.as_slice());
        },
        PlayerEvent::Started => {
            message.push(2);
        },
        PlayerEvent::Ended => {
            message.push(3);
        },
        PlayerEvent::Error(error) => {
            let bytes = error.as_str().as_bytes();
            if bytes.len() > MAX_ERROR_SIZE {
                return Err(
                    ProcessProtocolError::MessageTooLarge {
                        size: bytes.len(),
                        maximum: MAX_ERROR_SIZE,
                    },
                );
            }
            message.push(4);
            message.extend_from_slice(bytes);
        },
    }
    assert(message@ =~= event@.message());
    put_frame(writer, &message)
}

/// The size of the message that a frame's prefix announces.
pub fn announced_size(prefix: &[u8]) -> (result: Result<usize, ProcessProtocolError>)
    requires
        prefix@.len() == FRAME_PREFIX_SIZE,
    ensures
        result == if bytes::be_value(prefix@) > MAX_MESSAGE_SIZE {
            Err(
                ProcessProtocolError::MessageTooLarge {
                    size: bytes::be_value(prefix@) as usize,
                    maximum: MAX_MESSAGE_SIZE,
                },
            )
        } else {
            Ok(bytes::be_value(prefix@) as usize)
        },
{
    proof {
        bytes::lemma_be_bounds();
    }
    let size: usize = get_be(prefix, 0, 4) as usize;
    assert(prefix@.subrange(0, 4) =~= prefix@);
    if size > MAX_MESSAGE_SIZE {
        return Err(ProcessProtocolError::MessageTooLarge { size, maximum: MAX_MESSAGE_SIZE });
    }
    Ok(size)
}

/// What is left of a pipe that no message could be taken from: what follows the
/// size where that is over the limit, and nothing where the pipe ended too soon.
pub open spec fn left_unread(pipe: Seq<u8>, error: ProcessProtocolError) -> Seq<u8> {
    match error {
        ProcessProtocolError::UnexpectedEnd => Seq::empty(),
        _ => pipe.skip(FRAME_PREFIX_SIZE as int),
    }
}

/// Takes the first message from a pipe.
fn take_message(reader: &mut &[u8]) -> (result: Result<Vec<u8>, ProcessProtocolError>)
    ensures
        match first_message(old(reader)@) {
            Ok((message, rest)) => {
                &&& result is Ok
                &&& result->Ok_0@ == message
                &&& final(reader)@ == rest
            },
            Err(error) => {
                &&& result == Err::<Vec<u8>, _>(error)
                &&& final(reader)@ == left_unread(old(reader)@, error)
            },
        },
{
    let pipe: &[u8] = *reader;
    let nothing = vstd::slice::slice_subrange(pipe, pipe.len(), pipe.len());
    assert(nothing@ =~= Seq::empty());
    if pipe.len() < FRAME_PREFIX_SIZE {
        *reader = nothing;
        return Err(ProcessProtocolError::UnexpectedEnd);
    }
    let prefix = vstd::slice::slice_subrange(pipe, 0, FRAME_PREFIX_SIZE);
    assert(prefix@ =~= pipe@.take(4));
    let behind = vstd::slice::slice_subrange(pipe, FRAME_PREFIX_SIZE, pipe.len());
    assert(behind@ =~= pipe@.skip(4));
    let size = match announced_size(prefix) {
        Ok(size) => size,
        Err(error) => {
            *reader = behind;
            return Err(error);
        },
    };
    if pipe.len() - FRAME_PREFIX_SIZE < size {
        *reader = nothing;
        return Err(ProcessProtocolError::UnexpectedEnd);
    }
    let end: usize = FRAME_PREFIX_SIZE + size;
    let message = owned_range(pipe, FRAME_PREFIX_SIZE, end);
    let rest = vstd::slice::slice_subrange(pipe, end, pipe.len());
    assert(rest@ =~= pipe@.skip(end as int));
    *reader = rest;
    Ok(message)
}

/// Reads a command.
pub fn read_command(reader: &mut &[u8]) -> (result: Result<PlayerCommand, ProcessProtocolError>)
    ensures
        match first_message(old(reader)@) {
            Ok((message, rest)) => {
                &&& final(reader)@ == rest
                &&& match result {
                    Ok(command) => command_in(message) == Ok::<_, ProcessProtocolError>(command@),
                    Err(error) => command_in(message) == Err::<CommandModel, _>(error),
                }
            },
            Err(error) => {
                &&& result == Err::<PlayerCommand, _>(error)
                &&& final(reader)@ == left_unread(old(reader)@, error)
            },
        },
{
    match take_message(reader) {
        Ok(message) => decode_command(message.as_slice()),
        Err(error) => Err(error),
    }
}

/// The command that a message is.
pub fn decode_command(message: &[u8]) -> (result: Result<PlayerCommand, ProcessProtocolError>)
    ensures
        match result {
            Ok(command) => command_in(message@) == Ok::<_, ProcessProtocolError>(command@),
            Err(error) => command_in(message@) == Err::<CommandModel, _>(error),
        },
{
    if message.len() == 0 {
        return Err(ProcessProtocolError::InvalidMessage(MessageFault::EmptyCommand));
    }
    match message[0] {
        1 => {
            let body = vstd::slice::slice_subrange(message, 1, message.len());
            assert(body@ =~= message@.skip(1));
            match decode_launch(body) {
                Ok(head) => Ok(PlayerCommand::Launch(head)),
                Err(error) => Err(error),
            }
        },
        2 => if message.len() == 1 {
            Ok(PlayerCommand::Stop)
        } else {
            Err(ProcessProtocolError::InvalidMessage(MessageFault::StopHasTrailingData))
        },
        3 => if message.len() == 1 {
            Ok(PlayerCommand::Reconnect)
        } else {
            Err(ProcessProtocolError::InvalidMessage(MessageFault::ReconnectHasTrailingData))
        },
        _ => Err(ProcessProtocolError::InvalidMessage(MessageFault::UnknownCommand)),
    }
}

fn decode_launch(body: &[u8]) -> (result: Result<LaunchHead, ProcessProtocolError>)
    ensures
        match result {
            Ok(head) => launch_head(body@) == Ok::<_, ProcessProtocolError>(
                (head.address@, head.options@),
            ),
            Err(error) => launch_head(body@) == Err::<(Seq<char>, Seq<u8>), _>(error),
        },
{
    proof {
        bytes::lemma_be_bounds();
    }
    if body.len() < 2 {
        return Err(ProcessProtocolError::InvalidMessage(MessageFault::Truncated));
    }
    if get_be(body, 0, 2) != VERSION as u64 {
        return Err(ProcessProtocolError::InvalidMessage(MessageFault::UnsupportedVersion));
    }
    if body.len() < 4 {
        return Err(ProcessProtocolError::InvalidMessage(MessageFault::Truncated));
    }
    let end: usize = 4 + get_be(body, 2, 2) as usize;
    if body.len() < end {
        return Err(ProcessProtocolError::InvalidMessage(MessageFault::Truncated));
    }
    match owned_string(vstd::slice::slice_subrange(body, 4, end)) {
        Some(address) => {
            let options = owned_range(body, end, body.len());
            assert(options@ =~= body@.skip(end as int));
            Ok(LaunchHead { address, options })
        },
        None => Err(ProcessProtocolError::InvalidMessage(MessageFault::AddressIsNotUtf8)),
    }
}

impl LaunchHead {
    /// The launch request, where its address is one.
    pub fn finish(self, address_is_valid: bool) -> (result: Result<
        LaunchRequest,
        ProcessProtocolError,
    >)
        ensures
            if !address_is_valid {
                result == Err::<LaunchRequest, _>(invalid(MessageFault::InvalidAddress))
            } else {
                match result {
                    Ok(request) => launch_with(self.address@, self.options@) == Ok::<
                        _,
                        ProcessProtocolError,
                    >(request@),
                    Err(error) => launch_with(self.address@, self.options@) == Err::<
                        LaunchModel,
                        _,
                    >(error),
                }
            },
    {
        if !address_is_valid {
            return Err(ProcessProtocolError::InvalidMessage(MessageFault::InvalidAddress));
        }
        proof {
            bytes::lemma_be_bounds();
        }
        let options = self.options.as_slice();
        if options.len() < 8 {
            return Err(ProcessProtocolError::InvalidMessage(MessageFault::Truncated));
        }
        let bitrate = get_be(options, 0, 8);
        match validate_maximum_bitrate(bitrate) {
            Ok(()) => {},
            Err(error) => {
                return Err(error);
            },
        }
        if options.len() < 9 {
            return Err(ProcessProtocolError::InvalidMessage(MessageFault::Truncated));
        }
        if options[8] > 1 {
            return Err(
                ProcessProtocolError::InvalidMessage(MessageFault::InvalidRememberPassword),
            );
        }
        if options.len() < 10 {
            return Err(ProcessProtocolError::InvalidMessage(MessageFault::Truncated));
        }
        if options[9] > 1 {
            return Err(
                ProcessProtocolError::InvalidMessage(MessageFault::InvalidLatencyDiagnostics),
            );
        }
        if options.len() < 12 {
            return Err(ProcessProtocolError::InvalidMessage(MessageFault::Truncated));
        }
        let size: usize = get_be(options, 10, 2) as usize;
        if size > MAX_PASSWORD_SIZE {
            return Err(
                ProcessProtocolError::MessageTooLarge { size, maximum: MAX_PASSWORD_SIZE },
            );
        }
        if options.len() < 12 + size {
            return Err(ProcessProtocolError::InvalidMessage(MessageFault::Truncated));
        }
        if options.len() > 12 + size {
            return Err(ProcessProtocolError::InvalidMessage(MessageFault::LaunchHasTrailingData));
        }
        let password = Secret::new(owned_range(options, 12, options.len()));
        assert(password@ =~= options@.skip(12));
        Ok(
            LaunchRequest {
                address: self.address,
                password,
                remember_password: options[8] == 1,
                maximum_bitrate_bits_per_second: bitrate,
                latency_diagnostics: options[9] == 1,
            },
        )
    }
}

/// Reads an event.
pub fn read_event(reader: &mut &[u8]) -> (result: Result<PlayerEvent, ProcessProtocolError>)
    ensures
        match first_message(old(reader)@) {
            Ok((message, rest)) => {
                &&& final(reader)@ == rest
                &&& match result {
                    Ok(event) => event_in(message) == Ok::<_, ProcessProtocolError>(event@),
                    Err(error) => event_in(message) == Err::<EventModel, _>(error),
                }
            },
            Err(error) => {
                &&& result == Err::<PlayerEvent, _>(error)
                &&& final(reader)@ == left_unread(old(reader)@, error)
            },
        },
{
    match take_message(reader) {
        Ok(message) => decode_event(message.as_slice()),
        Err(error) => Err(error),
    }
}

/// The event that a message is.
pub fn decode_event(message: &[u8]) -> (result: Result<PlayerEvent, ProcessProtocolError>)
    ensures
        match result {
            Ok(event) => event_in(message@) == Ok::<_, ProcessProtocolError>(event@),
            Err(error) => event_in(message@) == Err::<EventModel, _>(error),
        },
{
    if message.len() == 0 {
        return Err(ProcessProtocolError::InvalidMessage(MessageFault::EmptyEvent));
    }
    let kind = message[0];
    let rest = vstd::slice::slice_subrange(message, 1, message.len());
    assert(rest@ =~= message@.skip(1));
    if kind == 1 && rest.len() == 32 {
        let host_identity = array32(rest, 0);
        assert(host_identity@ =~= rest@);
        return Ok(PlayerEvent::Authenticated { host_identity });
    }
    if kind == 2 && rest.len() == 0 {
        return Ok(PlayerEvent::Started);
    }
    if kind == 3 && rest.len() == 0 {
        return Ok(PlayerEvent::Ended);
    }
    if kind == 4 && rest.len() <= MAX_ERROR_SIZE {
        return match owned_string(rest) {
            Some(error) => Ok(PlayerEvent::Error(error)),
            None => Err(ProcessProtocolError::InvalidMessage(MessageFault::ErrorIsNotUtf8)),
        };
    }
    if 1 <= kind && kind <= 4 {
        Err(ProcessProtocolError::InvalidMessage(MessageFault::InvalidEventPayload))
    } else {
        Err(ProcessProtocolError::InvalidMessage(MessageFault::UnknownEvent))
    }
}

fn validate_maximum_bitrate(value: u64) -> (result: Result<(), ProcessProtocolError>)
    ensures
        result == if is_bitrate(value) {
            Ok(())
        } else {
            Err(invalid(MessageFault::BitrateOutOfRange))
        },
{
    if value < MINIMUM_MAXIMUM_BITRATE_BITS_PER_SECOND || value
        > MAXIMUM_VIDEO_BITRATE_BITS_PER_SECOND {
        return Err(ProcessProtocolError::InvalidMessage(MessageFault::BitrateOutOfRange));
    }
    Ok(())
}

/// A written message is the first of the pipe.
pub proof fn law_frames_are_read_back(message: Seq<u8>, rest: Seq<u8>)
    requires
        message.len() <= MAX_MESSAGE_SIZE,
    ensures
        first_message(framed(message) + rest) == Ok::<_, ProcessProtocolError>((message, rest)),
{
    let pipe = framed(message) + rest;
    bytes::lemma_be_bounds();
    bytes::lemma_be_round_trip(message.len(), 4);
    assert(pipe.take(4) =~= bytes::be_bytes(message.len(), 4));
    assert(pipe.subrange(4, 4 + message.len() as int) =~= message);
    assert(pipe.skip(4 + message.len() as int) =~= rest);
}

/// A launch that can be written is read back as it was.
pub proof fn law_launch_round_trip(request: LaunchModel)
    requires
        request.fault() is None,
    ensures
        command_in(request.message()) == Ok::<_, ProcessProtocolError>(
            CommandModel::Launch { address: request.address, options: request.options() },
        ),
        launch_with(request.address, request.options()) == Ok::<_, ProcessProtocolError>(request),
{
    let address = vstd::utf8::encode_utf8(request.address);
    let options = request.options();
    let message = request.message();
    let body = message.skip(1);
    bytes::lemma_be_bounds();
    vstd::utf8::encode_utf8_valid_utf8(request.address);
    vstd::utf8::encode_utf8_decode_utf8(request.address);
    bytes::lemma_be_round_trip(VERSION as nat, 2);
    bytes::lemma_be_round_trip(address.len(), 2);
    assert(body.subrange(0, 2) =~= bytes::be_bytes(VERSION as nat, 2));
    assert(body.subrange(2, 4) =~= bytes::be_bytes(address.len(), 2));
    assert(body.subrange(4, 4 + address.len() as int) =~= address);
    assert(body.skip(4 + address.len() as int) =~= options);
    bytes::lemma_be_round_trip(request.maximum_bitrate_bits_per_second as nat, 8);
    bytes::lemma_be_round_trip(request.password.len(), 2);
    assert(options.subrange(0, 8) =~= bytes::be_bytes(
        request.maximum_bitrate_bits_per_second as nat,
        8,
    ));
    assert(options[8] == flag(request.remember_password));
    assert(options[9] == flag(request.latency_diagnostics));
    assert(options.subrange(10, 12) =~= bytes::be_bytes(request.password.len(), 2));
    assert(options.skip(12) =~= request.password);
}

/// An event that can be written is read back as it was.
pub proof fn law_event_round_trip(event: EventModel)
    requires
        event.fits(),
        event matches EventModel::Authenticated(identity) ==> identity.len() == 32,
    ensures
        event_in(event.message()) == Ok::<_, ProcessProtocolError>(event),
{
    let message = event.message();
    match event {
        EventModel::Authenticated(identity) => {
            assert(message.skip(1) =~= identity);
        },
        EventModel::Error(error) => {
            vstd::utf8::encode_utf8_valid_utf8(error);
            vstd::utf8::encode_utf8_decode_utf8(error);
            assert(message.skip(1) =~= vstd::utf8::encode_utf8(error));
        },
        _ => {},
    }
}

/// A size over the limit is refused before anything behind it is looked at.
pub proof fn law_the_outer_bound_comes_first(pipe: Seq<u8>)
    requires
        pipe.len() >= 4,
        bytes::be_value(pipe.take(4)) > MAX_MESSAGE_SIZE,
    ensures
        first_message(pipe) == first_message(pipe.take(4)),
        first_message(pipe) == Err::<(Seq<u8>, Seq<u8>), _>(
            ProcessProtocolError::MessageTooLarge {
                size: bytes::be_value(pipe.take(4)) as usize,
                maximum: MAX_MESSAGE_SIZE,
            },
        ),
{
    assert(pipe.take(4).take(4) =~= pipe.take(4));
}

/// Where the parts of a launch stand, behind the number of the command: the
/// version and the size of the address in two bytes each, the address, and then
/// the bitrate in eight, two flags, the size of the password in two, and the
/// password. All are highest byte first, and nothing follows.
pub proof fn law_launch_layout(
    body: Seq<u8>,
    address: Seq<char>,
    options: Seq<u8>,
    request: LaunchModel,
)
    requires
        launch_head(body) == Ok::<_, ProcessProtocolError>((address, options)),
        launch_with(address, options) == Ok::<_, ProcessProtocolError>(request),
    ensures
        256 * body[0] + body[1] == 3,
        ({
            let size = 256 * body[2] + body[3];
            &&& body.len() == 4 + size + options.len()
            &&& vstd::utf8::valid_utf8(body.subrange(4, 4 + size))
            &&& request.address == vstd::utf8::decode_utf8(body.subrange(4, 4 + size))
            &&& options == body.skip(4 + size)
        }),
        request.maximum_bitrate_bits_per_second == bytes::be_value(options.subrange(0, 8)),
        5_000_000 <= request.maximum_bitrate_bits_per_second <= 100_000_000,
        options[8] == 1 <==> request.remember_password,
        options[8] == 0 <==> !request.remember_password,
        options[9] == 1 <==> request.latency_diagnostics,
        options[9] == 0 <==> !request.latency_diagnostics,
        256 * options[10] + options[11] == request.password.len(),
        request.password.len() <= 1_024,
        request.password == options.skip(12),
{
    bytes::lemma_be_bounds();
    bytes::law_most_significant_byte_first(body.subrange(0, 2));
    bytes::law_most_significant_byte_first(body.subrange(2, 4));
    bytes::law_most_significant_byte_first(options.subrange(10, 12));
    bytes::lemma_be_value_bound(options.subrange(0, 8));
}

/// The commands and the events by their first byte.
pub proof fn law_command_and_event_numbers(message: Seq<u8>)
    requires
        message.len() > 0,
    ensures
        command_in(message) matches Ok(command) ==> {
            &&& command is Launch <==> message[0] == 1
            &&& command is Stop <==> message[0] == 2
            &&& command is Reconnect <==> message[0] == 3
        },
        message[0] == 2 && message.len() == 1 ==> (command_in(message) matches Ok(command)
            && command is Stop),
        message[0] == 3 && message.len() == 1 ==> (command_in(message) matches Ok(command)
            && command is Reconnect),
        message[0] == 0 || message[0] > 3 ==> command_in(message) == Err::<CommandModel, _>(
            invalid(MessageFault::UnknownCommand),
        ),
        event_in(message) matches Ok(event) ==> match event {
            EventModel::Authenticated(identity) => message[0] == 1 && message.len() == 33
                && identity == message.skip(1),
            EventModel::Started => message == seq![2u8],
            EventModel::Ended => message == seq![3u8],
            EventModel::Error(text) => message[0] == 4 && message.len() <= 2_049 && text
                == vstd::utf8::decode_utf8(message.skip(1)),
        },
        message[0] == 0 || message[0] > 4 ==> event_in(message) == Err::<EventModel, _>(
            invalid(MessageFault::UnknownEvent),
        ),
{
    if message.len() == 1 {
        assert(message =~= seq![message[0]]);
    }
}

/// Which launches are not written, and why: a password of more than 1024 bytes,
/// then a bitrate outside its limits.
pub proof fn law_which_launches_are_written(request: LaunchModel)
    ensures
        request.fault() is None ==> request.password.len() <= 1_024 && 5_000_000
            <= request.maximum_bitrate_bits_per_second <= 100_000_000
            && request.message().len() <= 4_096,
        request.password.len() <= 1_024 && !(5_000_000 <= request.maximum_bitrate_bits_per_second
            <= 100_000_000) <==> request.fault() == Some(invalid(MessageFault::BitrateOutOfRange)),
{
}

/// Why a launch is not written: its password is longer than 1024 bytes, its
/// bitrate is none of those from 5 to 100 Mbit/s, its address is longer than two
/// bytes can tell, or the whole, with seventeen bytes beside the address and the
/// password, is longer than 4096 bytes. The first of these that holds is named,
/// and a launch of which none holds is written.
pub proof fn law_why_launches_are_not_written(request: LaunchModel)
    ensures
        ({
            let address = vstd::utf8::encode_utf8(request.address).len();
            let password = request.password.len();
            let whole = 17 + address + password;
            let slow_or_fast = request.maximum_bitrate_bits_per_second < 5_000_000
                || request.maximum_bitrate_bits_per_second > 100_000_000;
            &&& request.message().len() == whole
            &&& request.fault() is None <==> password <= 1_024 && !slow_or_fast && whole <= 4_096
            &&& password > 1_024 ==> (request.fault() matches Some(
                ProcessProtocolError::MessageTooLarge { size, maximum },
            ) && size == password as usize && maximum == 1_024)
            &&& password <= 1_024 && slow_or_fast ==> request.fault() == Some(
                invalid(MessageFault::BitrateOutOfRange),
            )
            &&& password <= 1_024 && !slow_or_fast && address > 65_535 ==> request.fault() == Some(
                invalid(MessageFault::AddressTooLong),
            )
            &&& password <= 1_024 && !slow_or_fast && address <= 65_535 && whole > 4_096 ==> (
            request.fault() matches Some(ProcessProtocolError::MessageTooLarge { size, maximum })
                && size == whole && maximum == 4_096)
        }),
{
    let address = vstd::utf8::encode_utf8(request.address);
    bytes::lemma_be_bytes_size(VERSION as nat, 2);
    bytes::lemma_be_bytes_size(address.len(), 2);
    bytes::lemma_be_bytes_size(request.maximum_bitrate_bits_per_second as nat, 8);
    bytes::lemma_be_bytes_size(request.password.len(), 2);
}

} // verus!
