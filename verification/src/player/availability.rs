//! Whether a host can be streamed from.

use crate::protocol::wire::envelope::{Body, BodyModel};
use crate::protocol::wire::{
    Envelope, HostFirewallStatus, HostOperatingSystem, SessionAvailability,
    SessionAvailabilityProbe, SessionAvailabilityResult, VbCableStatus,
};
use crate::session::authentication::HostIdentity;
use crate::session::handshake;
use vstd::prelude::*;

verus! {

#[derive(Clone, Copy, Debug, PartialEq, Eq, Structural)]
pub enum HostAvailability {
    Available,
    Busy,
    DesktopSessionUnavailable,
}

#[derive(Clone, Copy, Debug, PartialEq, Eq, Structural)]
pub enum VbCableAvailability {
    Unspecified,
    Ready,
    Unavailable,
    CheckFailed,
}

#[derive(Clone, Copy, Debug, PartialEq, Eq, Structural)]
pub enum AvailabilityFault {
    UnknownAvailability(i32),
    UnspecifiedAvailability,
    UnknownVbCableStatus,
    InvalidResponse,
}

/// What a probe tells of a host.
#[derive(Clone, Debug, PartialEq)]
pub struct HostProbeResult {
    pub host_identity: HostIdentity,
    pub display_name: Option<String>,
    pub operating_system: HostOperatingSystem,
    pub firewall_status: HostFirewallStatus,
    pub availability: HostAvailability,
    pub vb_cable: VbCableAvailability,
}

/// The state of the virtual cable that a number stands for.
pub open spec fn vb_cable_of(status: i32) -> Option<VbCableAvailability> {
    if status == VbCableStatus::Unspecified.spec_number() {
        Some(VbCableAvailability::Unspecified)
    } else if status == VbCableStatus::Ready.spec_number() {
        Some(VbCableAvailability::Ready)
    } else if status == VbCableStatus::Unavailable.spec_number() {
        Some(VbCableAvailability::Unavailable)
    } else if status == VbCableStatus::CheckFailed.spec_number() {
        Some(VbCableAvailability::CheckFailed)
    } else {
        None
    }
}

pub fn vb_cable_availability(status: i32) -> (result: Result<
    VbCableAvailability,
    AvailabilityFault,
>)
    ensures
        result == match vb_cable_of(status) {
            Some(availability) => Ok(availability),
            None => Err(AvailabilityFault::UnknownVbCableStatus),
        },
{
    match VbCableStatus::try_from(status) {
        Ok(VbCableStatus::Unspecified) => Ok(VbCableAvailability::Unspecified),
        Ok(VbCableStatus::Ready) => Ok(VbCableAvailability::Ready),
        Ok(VbCableStatus::Unavailable) => Ok(VbCableAvailability::Unavailable),
        Ok(VbCableStatus::CheckFailed) => Ok(VbCableAvailability::CheckFailed),
        Err(_) => Err(AvailabilityFault::UnknownVbCableStatus),
    }
}

/// The availability that a number stands for.
pub open spec fn availability_of(number: i32) -> Result<HostAvailability, AvailabilityFault> {
    if number == SessionAvailability::Available.spec_number() {
        Ok(HostAvailability::Available)
    } else if number == SessionAvailability::Busy.spec_number() {
        Ok(HostAvailability::Busy)
    } else if number == SessionAvailability::DesktopSessionUnavailable.spec_number() {
        Ok(HostAvailability::DesktopSessionUnavailable)
    } else if number == SessionAvailability::Unspecified.spec_number() {
        Err(AvailabilityFault::UnspecifiedAvailability)
    } else {
        Err(AvailabilityFault::UnknownAvailability(number))
    }
}

/// What a host says of itself to an authenticated viewer.
#[derive(Clone, Copy, Debug, PartialEq, Eq, Structural)]
pub struct SessionReadiness {
    pub availability: HostAvailability,
    pub vb_cable: VbCableAvailability,
    pub firewall_status: HostFirewallStatus,
}

/// Whether `status` is what a number stands for; a number that stands for none
/// is an unknown status.
pub open spec fn is_firewall_status(number: i32, status: HostFirewallStatus) -> bool {
    status.spec_number() == number || (!HostFirewallStatus::is_number(number) && status
        == HostFirewallStatus::Unknown)
}

/// The message that asks a host whether it can be streamed from.
pub fn availability_probe() -> (envelope: Envelope)
    ensures
        envelope@ == handshake::envelope_of(
            BodyModel::SessionAvailabilityProbe(SessionAvailabilityProbe {  }),
        ),
{
    Envelope { body: Some(Body::SessionAvailabilityProbe(SessionAvailabilityProbe {  })) }
}

fn readiness(result: SessionAvailabilityResult) -> (readiness: Result<
    SessionReadiness,
    AvailabilityFault,
>)
    ensures
        match (availability_of(result.availability), vb_cable_of(result.vb_cable_status)) {
            (Err(fault), _) => readiness == Err::<SessionReadiness, _>(fault),
            (Ok(_), None) => readiness == Err::<SessionReadiness, _>(
                AvailabilityFault::UnknownVbCableStatus,
            ),
            (Ok(availability), Some(vb_cable)) => {
                &&& readiness is Ok
                &&& readiness->Ok_0.availability == availability
                &&& readiness->Ok_0.vb_cable == vb_cable
                &&& is_firewall_status(result.firewall_status, readiness->Ok_0.firewall_status)
            },
        },
{
    let availability = match SessionAvailability::try_from(result.availability) {
        Ok(SessionAvailability::Available) => HostAvailability::Available,
        Ok(SessionAvailability::Busy) => HostAvailability::Busy,
        Ok(SessionAvailability::DesktopSessionUnavailable) => {
            HostAvailability::DesktopSessionUnavailable
        },
        Ok(SessionAvailability::Unspecified) => {
            return Err(AvailabilityFault::UnspecifiedAvailability);
        },
        Err(error) => {
            return Err(AvailabilityFault::UnknownAvailability(error.0));
        },
    };
    let vb_cable = match vb_cable_availability(result.vb_cable_status) {
        Ok(vb_cable) => vb_cable,
        Err(fault) => {
            return Err(fault);
        },
    };
    let firewall_status = match HostFirewallStatus::try_from(result.firewall_status) {
        Ok(status) => status,
        Err(_) => HostFirewallStatus::Unknown,
    };
    Ok(SessionReadiness { availability, vb_cable, firewall_status })
}

/// Reads a host's answer to a probe.
pub fn read_availability(envelope: &Envelope) -> (result: Result<
    SessionReadiness,
    AvailabilityFault,
>)
    ensures
        match envelope@.body {
            Some(BodyModel::SessionAvailabilityResult(answer)) => match (
                availability_of(answer.availability),
                vb_cable_of(answer.vb_cable_status),
            ) {
                (Err(fault), _) => result == Err::<SessionReadiness, _>(fault),
                (Ok(_), None) => result == Err::<SessionReadiness, _>(
                    AvailabilityFault::UnknownVbCableStatus,
                ),
                (Ok(availability), Some(vb_cable)) => {
                    &&& result is Ok
                    &&& result->Ok_0.availability == availability
                    &&& result->Ok_0.vb_cable == vb_cable
                    &&& is_firewall_status(answer.firewall_status, result->Ok_0.firewall_status)
                },
            },
            _ => result == Err::<SessionReadiness, _>(AvailabilityFault::InvalidResponse),
        },
{
    match &envelope.body {
        Some(Body::SessionAvailabilityResult(answer)) => readiness(*answer),
        _ => Err(AvailabilityFault::InvalidResponse),
    }
}

/// The states of the virtual cable stay apart on the wire.
pub proof fn law_cable_states_stay_apart(first: i32, second: i32)
    requires
        vb_cable_of(first) is Some,
        vb_cable_of(first) == vb_cable_of(second),
    ensures
        first == second,
{
}

/// What the numbers of an answer mean.
pub proof fn law_what_answers_mean(number: i32)
    ensures
        (availability_of(number) matches Ok(HostAvailability::Available)) <==> number == 1,
        (availability_of(number) matches Ok(HostAvailability::Busy)) <==> number == 2,
        (availability_of(number) matches Ok(HostAvailability::DesktopSessionUnavailable)) <==> number
            == 3,
        (availability_of(number) matches Err(AvailabilityFault::UnspecifiedAvailability)) <==> number
            == 0,
        availability_of(number) is Err <==> !(1 <= number <= 3),
        availability_of(number) matches Err(AvailabilityFault::UnknownAvailability(unknown))
            ==> unknown == number,
        (vb_cable_of(number) matches Some(VbCableAvailability::Unspecified)) <==> number == 0,
        (vb_cable_of(number) matches Some(VbCableAvailability::Ready)) <==> number == 1,
        (vb_cable_of(number) matches Some(VbCableAvailability::Unavailable)) <==> number == 2,
        (vb_cable_of(number) matches Some(VbCableAvailability::CheckFailed)) <==> number == 3,
        vb_cable_of(number) is None <==> !(0 <= number <= 3),
{
}

/// A number that no state of the firewall has is the unknown state.
pub proof fn law_unknown_firewall_states(number: i32, status: HostFirewallStatus)
    requires
        is_firewall_status(number, status),
    ensures
        0 <= number <= 5 ==> status.spec_number() == number,
        !(0 <= number <= 5) ==> status is Unknown,
{
}

/// Every number stands for exactly one state of the firewall: the six numbers
/// from zero on for one each, all others for the unknown one.
pub proof fn law_firewall_numbers(number: i32, status: HostFirewallStatus)
    ensures
        is_firewall_status(number, status) <==> status == if number == 1 {
            HostFirewallStatus::Missing
        } else if number == 2 {
            HostFirewallStatus::PrivateLocalSubnet
        } else if number == 3 {
            HostFirewallStatus::AllProfilesLocalSubnet
        } else if number == 4 {
            HostFirewallStatus::AllAddresses
        } else if number == 5 {
            HostFirewallStatus::CheckFailed
        } else {
            HostFirewallStatus::Unknown
        },
{
}

} // verus!
