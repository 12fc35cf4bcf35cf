//! How far the host's clock is from the viewer's.

use crate::protocol::wire::ClockPong;
use crate::session::statistics::ClockOffsetEstimate;
use vstd::prelude::*;

verus! {

/// Half of `value`, rounded toward zero.
pub open spec fn half(value: int) -> int {
    if value >= 0 {
        value / 2
    } else {
        -((-value) / 2)
    }
}

/// The estimate that an answered ping gives: half of how much later the ping
/// came than it went and the answer went than it came, by the two clocks. There
/// is none where the times contradict each other.
pub open spec fn offset_of(pong: ClockPong, player_received_at_micros: u64) -> Option<
    ClockOffsetEstimate,
> {
    let round_trip = player_received_at_micros - pong.player_sent_at_micros;
    let host_processing = pong.host_sent_at_micros - pong.host_received_at_micros;
    let offset = half(
        (pong.host_received_at_micros - pong.player_sent_at_micros) + (pong.host_sent_at_micros
            - player_received_at_micros),
    );
    if round_trip < 0 || host_processing < 0 || host_processing > round_trip {
        None
    } else if !(i64::MIN <= offset <= i64::MAX) {
        None
    } else {
        Some(
            ClockOffsetEstimate {
                offset_micros: offset as i64,
                uncertainty_micros: ((round_trip - host_processing + 1) / 2) as u64,
            },
        )
    }
}

pub fn clock_offset(pong: ClockPong, player_received_at_micros: u64) -> (estimate: Option<
    ClockOffsetEstimate,
>)
    ensures
        estimate == offset_of(pong, player_received_at_micros),
{
    if pong.player_sent_at_micros > player_received_at_micros || pong.host_received_at_micros
        > pong.host_sent_at_micros {
        return None;
    }
    let round_trip: u64 = player_received_at_micros - pong.player_sent_at_micros;
    let host_processing: u64 = pong.host_sent_at_micros - pong.host_received_at_micros;
    if host_processing > round_trip {
        return None;
    }
    let later: i128 = pong.host_received_at_micros as i128 + pong.host_sent_at_micros as i128;
    let earlier: i128 = pong.player_sent_at_micros as i128 + player_received_at_micros as i128;
    let offset: i128 = if later >= earlier {
        (later - earlier) / 2
    } else {
        -((earlier - later) / 2)
    };
    if offset < i64::MIN as i128 || offset > i64::MAX as i128 {
        return None;
    }
    let travel: u64 = round_trip - host_processing;
    Some(
        ClockOffsetEstimate {
            offset_micros: offset as i64,
            uncertainty_micros: travel / 2 + travel % 2,
        },
    )
}

/// Whatever the two ways of a ping took, the true offset of the host's clock is
/// within the uncertainty of the estimate.
pub proof fn law_the_offset_is_within_its_uncertainty(
    pong: ClockPong,
    player_received_at_micros: u64,
    true_offset: int,
    way_there: nat,
    way_back: nat,
)
    requires
        pong.host_received_at_micros == pong.player_sent_at_micros + true_offset + way_there,
        pong.host_sent_at_micros == player_received_at_micros + true_offset - way_back,
        offset_of(pong, player_received_at_micros) is Some,
    ensures
        ({
            let estimate = offset_of(pong, player_received_at_micros)->0;
            &&& estimate.offset_micros - true_offset <= estimate.uncertainty_micros
            &&& true_offset - estimate.offset_micros <= estimate.uncertainty_micros
        }),
{
}

/// The estimate: twice the offset is the sum of how far the host was ahead on
/// the way there and on the way back, and twice the uncertainty is the time that
/// the message was on the way, each up to rounding. There is none where the times
/// run backwards, or the host worked longer than the answer took.
pub proof fn law_the_estimate(pong: ClockPong, player_received_at_micros: u64)
    ensures
        ({
            let ahead = (pong.host_received_at_micros - pong.player_sent_at_micros) + (
            pong.host_sent_at_micros - player_received_at_micros);
            let on_the_way = (player_received_at_micros - pong.player_sent_at_micros) - (
            pong.host_sent_at_micros - pong.host_received_at_micros);
            let estimate = offset_of(pong, player_received_at_micros);
            let runs_forward = pong.player_sent_at_micros <= player_received_at_micros
                && pong.host_received_at_micros <= pong.host_sent_at_micros && on_the_way >= 0;
            &&& estimate is Some ==> runs_forward
            &&& runs_forward && -0x1_0000_0000_0000_0000 < ahead < 0x1_0000_0000_0000_0000
                ==> estimate is Some
            &&& estimate matches Some(found) ==> {
                &&& ahead - 1 <= 2 * found.offset_micros <= ahead + 1
                &&& ahead >= 0 ==> 2 * found.offset_micros <= ahead
                &&& ahead <= 0 ==> 2 * found.offset_micros >= ahead
                &&& on_the_way <= 2 * found.uncertainty_micros <= on_the_way + 1
            }
        }),
{
}

} // verus!
