//! How long an address waits after authentication failures.

use crate::time::{Duration, Instant};
use vstd::prelude::*;

verus! {

pub const MAX_TRACKED_FAILURE_ADDRESSES: usize = 1_024;

pub const INITIAL_FAILURE_DELAY_NANOS: u128 = 250_000_000;

pub const MAX_FAILURE_DELAY_NANOS: u128 = 5_000_000_000;

/// The network address of a peer.
#[derive(Clone, Copy, Debug, PartialEq, Eq, Structural)]
pub enum PeerAddress {
    V4(u32),
    V6(u128),
}

/// What is remembered of an address that failed.
#[derive(Clone, Copy, Debug, PartialEq, Eq, Structural)]
pub struct FailureState {
    pub address: PeerAddress,
    pub failures: u32,
    pub blocked_until: Instant,
    pub last_seen: Instant,
}

#[derive(Debug)]
pub struct AuthenticationRateLimiter {
    failures: Vec<FailureState>,
}

impl View for AuthenticationRateLimiter {
    type V = Seq<FailureState>;

    closed spec fn view(&self) -> Seq<FailureState> {
        self.failures@
    }
}

/// Where `address` stands among the known ones.
pub open spec fn is_tracked_at(known: Seq<FailureState>, address: PeerAddress, index: int) -> bool {
    0 <= index < known.len() && known[index].address == address
}

pub open spec fn is_tracked(known: Seq<FailureState>, address: PeerAddress) -> bool {
    exists|index: int| is_tracked_at(known, address, index)
}

pub open spec fn position(known: Seq<FailureState>, address: PeerAddress) -> int {
    choose|index: int| is_tracked_at(known, address, index)
}

/// At most so many addresses, each once.
pub open spec fn well_formed(known: Seq<FailureState>) -> bool {
    &&& known.len() <= MAX_TRACKED_FAILURE_ADDRESSES
    &&& forall|i: int, j: int|
        0 <= i < j < known.len() ==> (#[trigger] known[i]).address != (
        #[trigger] known[j]).address
}

/// The first of the addresses that were seen longest ago.
pub open spec fn is_oldest(known: Seq<FailureState>, index: int) -> bool {
    &&& 0 <= index < known.len()
    &&& forall|i: int|
        0 <= i < known.len() ==> known[index].last_seen.nanos <= (
        #[trigger] known[i]).last_seen.nanos
    &&& forall|i: int|
        0 <= i < index ==> known[index].last_seen.nanos < (#[trigger] known[i]).last_seen.nanos
}

pub open spec fn oldest(known: Seq<FailureState>) -> int {
    choose|index: int| is_oldest(known, index)
}

/// The delay after so many failures in a row: it doubles up to the fifth.
pub open spec fn delay_after(failures: u32) -> Duration {
    Duration {
        nanos: if failures <= 1 {
            INITIAL_FAILURE_DELAY_NANOS
        } else if failures == 2 {
            500_000_000
        } else if failures == 3 {
            1_000_000_000
        } else if failures == 4 {
            2_000_000_000
        } else {
            4_000_000_000
        },
    }
}

/// The address after one more failure.
pub open spec fn failed_again(state: FailureState, now: Instant) -> FailureState {
    let failures = state.failures.saturating_add(1);
    FailureState {
        failures,
        blocked_until: now.spec_after(delay_after(failures)),
        last_seen: now,
        ..state
    }
}

/// The known addresses after a success of `address`.
pub open spec fn after_success(known: Seq<FailureState>, address: PeerAddress) -> Seq<
    FailureState,
> {
    if is_tracked(known, address) {
        known.remove(position(known, address))
    } else {
        known
    }
}

/// The known addresses after a failure of `address`: where there is no room
/// for another, the one seen longest ago is forgotten.
pub open spec fn after_failure(
    known: Seq<FailureState>,
    address: PeerAddress,
    now: Instant,
) -> Seq<FailureState> {
    if is_tracked(known, address) {
        let index = position(known, address);
        known.update(index, failed_again(known[index], now))
    } else {
        let kept = if known.len() >= MAX_TRACKED_FAILURE_ADDRESSES {
            known.remove(oldest(known))
        } else {
            known
        };
        kept.push(
            failed_again(
                FailureState { address, failures: 0, blocked_until: now, last_seen: now },
                now,
            ),
        )
    }
}

/// How often `address` has failed in a row.
pub open spec fn failures_of(known: Seq<FailureState>, address: PeerAddress) -> u32 {
    if is_tracked(known, address) {
        known[position(known, address)].failures
    } else {
        0
    }
}

proof fn lemma_position(known: Seq<FailureState>, address: PeerAddress, index: int)
    requires
        well_formed(known),
        is_tracked_at(known, address, index),
    ensures
        is_tracked(known, address),
        position(known, address) == index,
{
    let other = position(known, address);
    assert(is_tracked_at(known, address, other));
    if other < index {
        assert(known[other].address != known[index].address);
    } else if index < other {
        assert(known[index].address != known[other].address);
    }
}

proof fn lemma_oldest(known: Seq<FailureState>, index: int)
    requires
        is_oldest(known, index),
    ensures
        oldest(known) == index,
{
    let other = oldest(known);
    assert(is_oldest(known, other));
    if other < index {
        assert(known[index].last_seen.nanos < known[other].last_seen.nanos);
    } else if index < other {
        assert(known[other].last_seen.nanos < known[index].last_seen.nanos);
    }
}

impl Default for AuthenticationRateLimiter {
    fn default() -> (limiter: Self)
        ensures
            limiter@ == Seq::<FailureState>::empty(),
            well_formed(limiter@),
    {
        let limiter = AuthenticationRateLimiter { failures: Vec::new() };
        assert(limiter@ =~= Seq::<FailureState>::empty());
        limiter
    }
}

impl AuthenticationRateLimiter {
    fn find(&self, address: PeerAddress) -> (found: Option<usize>)
        requires
            well_formed(self@),
        ensures
            match found {
                Some(index) => is_tracked_at(self@, address, index as int) && position(
                    self@,
                    address,
                ) == index && is_tracked(self@, address),
                None => !is_tracked(self@, address),
            },
    {
        let mut index: usize = 0;
        while index < self.failures.len()
            invariant
                well_formed(self@),
                index <= self@.len(),
                self@ == self.failures@,
                forall|i: int| 0 <= i < index ==> (#[trigger] self@[i]).address != address,
            decreases self@.len() - index,
        {
            if self.failures[index].address == address {
                proof {
                    lemma_position(self@, address, index as int);
                }
                return Some(index);
            }
            index = index + 1;
        }
        None
    }

    fn find_oldest(&self) -> (found: usize)
        requires
            self@.len() > 0,
        ensures
            is_oldest(self@, found as int),
            oldest(self@) == found,
    {
        let mut found: usize = 0;
        let mut index: usize = 1;
        while index < self.failures.len()
            invariant
                self@ == self.failures@,
                0 < index <= self@.len(),
                found < index,
                forall|i: int|
                    0 <= i < index ==> self@[found as int].last_seen.nanos <= (
                    #[trigger] self@[i]).last_seen.nanos,
                forall|i: int|
                    0 <= i < found ==> self@[found as int].last_seen.nanos < (
                    #[trigger] self@[i]).last_seen.nanos,
            decreases self@.len() - index,
        {
            if self.failures[index].last_seen.nanos < self.failures[found].last_seen.nanos {
                found = index;
            }
            index = index + 1;
        }
        proof {
            lemma_oldest(self@, found as int);
        }
        found
    }

    /// How long `address` still has to wait. That it was seen is noted.
    #[must_use]
    pub fn remaining_delay(&mut self, address: PeerAddress, now: Instant) -> (delay: Duration)
        requires
            well_formed(old(self)@),
        ensures
            well_formed(final(self)@),
            if is_tracked(old(self)@, address) {
                let index = position(old(self)@, address);
                let state = old(self)@[index];
                &&& final(self)@ == old(self)@.update(
                    index,
                    (FailureState { last_seen: now, ..state }),
                )
                &&& delay == state.blocked_until.spec_since(now)
            } else {
                final(self)@ == old(self)@ && delay.nanos == 0
            },
    {
        match self.find(address) {
            Some(index) => {
                let mut state = self.failures[index];
                state.last_seen = now;
                self.failures.set(index, state);
                state.blocked_until.saturating_duration_since(now)
            },
            None => Duration::from_nanos(0),
        }
    }

    /// Notes a failure of `address`: how long it has to wait now.
    pub fn record_failure(&mut self, address: PeerAddress, now: Instant) -> (delay: Duration)
        requires
            well_formed(old(self)@),
        ensures
            well_formed(final(self)@),
            final(self)@ == after_failure(old(self)@, address, now),
            delay == delay_after(failures_of(old(self)@, address).saturating_add(1)),
    {
        let index = match self.find(address) {
            Some(index) => index,
            None => {
                if self.failures.len() >= MAX_TRACKED_FAILURE_ADDRESSES {
                    let oldest_index = self.find_oldest();
                    self.failures.remove(oldest_index);
                }
                self.failures.push(
                    FailureState { address, failures: 0, blocked_until: now, last_seen: now },
                );
                self.failures.len() - 1
            },
        };
        let mut state = self.failures[index];
        state.failures = state.failures.saturating_add(1);
        let delay = failure_delay(state.failures);
        state.blocked_until = now.after(delay);
        state.last_seen = now;
        self.failures.set(index, state);
        proof {
            assert(self@ =~= after_failure(old(self)@, address, now));
            law_tracked_addresses_are_bounded(old(self)@, address, now);
        }
        delay
    }

    /// Forgets the failures of `address`.
    pub fn record_success(&mut self, address: PeerAddress)
        requires
            well_formed(old(self)@),
        ensures
            well_formed(final(self)@),
            final(self)@ == after_success(old(self)@, address),
    {
        match self.find(address) {
            Some(index) => {
                self.failures.remove(index);
            },
            None => {},
        }
    }

    #[must_use]
    pub fn tracked_addresses(&self) -> (count: usize)
        ensures
            count == self@.len(),
    {
        self.failures.len()
    }

    /// Notes how an authentication of `address` ended: how long to wait before
    /// it is told.
    pub fn settle(&mut self, address: PeerAddress, accepted: bool, now: Instant) -> (delay:
        Duration)
        requires
            well_formed(old(self)@),
        ensures
            well_formed(final(self)@),
            accepted ==> final(self)@ == after_success(old(self)@, address) && delay.nanos == 0,
            !accepted ==> final(self)@ == after_failure(old(self)@, address, now) && delay
                == delay_after(failures_of(old(self)@, address).saturating_add(1)),
    {
        if accepted {
            self.record_success(address);
            Duration::from_nanos(0)
        } else {
            self.record_failure(address, now)
        }
    }
}

fn failure_delay(failures: u32) -> (delay: Duration)
    requires
        failures > 0,
    ensures
        delay == delay_after(failures),
{
    let steps: u32 = if failures - 1 < 4 {
        failures - 1
    } else {
        4
    };
    let mut nanos: u128 = INITIAL_FAILURE_DELAY_NANOS;
    let mut step: u32 = 0;
    while step < steps
        invariant
            step <= steps <= 4,
            nanos == delay_after((step + 1) as u32).nanos,
        decreases steps - step,
    {
        nanos = nanos * 2;
        step = step + 1;
    }
    if nanos > MAX_FAILURE_DELAY_NANOS {
        nanos = MAX_FAILURE_DELAY_NANOS;
    }
    Duration { nanos }
}

/// A failure delay never falls from one failure to the next, and stays within
/// its bounds.
pub proof fn law_delays_grow_and_are_bounded(failures: u32)
    requires
        failures > 0,
    ensures
        INITIAL_FAILURE_DELAY_NANOS <= delay_after(failures).nanos <= MAX_FAILURE_DELAY_NANOS,
        delay_after(failures).nanos <= delay_after(failures.saturating_add(1)).nanos,
{
}

/// No more than the allowed number of addresses is ever known, each once.
pub proof fn law_tracked_addresses_are_bounded(
    known: Seq<FailureState>,
    address: PeerAddress,
    now: Instant,
)
    requires
        well_formed(known),
    ensures
        well_formed(after_failure(known, address, now)),
        is_tracked(after_failure(known, address, now), address),
{
    let after = after_failure(known, address, now);
    if is_tracked(known, address) {
        let index = position(known, address);
        assert(is_tracked_at(known, address, index));
        assert(is_tracked_at(after, address, index));
    } else {
        if known.len() >= MAX_TRACKED_FAILURE_ADDRESSES {
            lemma_some_oldest(known, known.len() as int);
            assert(known.take(known.len() as int) =~= known);
            assert(is_oldest(known, oldest(known)));
        }
        assert forall|i: int| 0 <= i < known.len() implies (#[trigger] known[i]).address
            != address by {
            if known[i].address == address {
                assert(is_tracked_at(known, address, i));
            }
        }
        assert(is_tracked_at(after, address, after.len() - 1));
    }
}

/// A failure is counted for its address, which is blocked from then on.
pub proof fn law_a_failure_is_counted(
    known: Seq<FailureState>,
    address: PeerAddress,
    now: Instant,
)
    requires
        well_formed(known),
    ensures
        ({
            let after = after_failure(known, address, now);
            let failures = failures_of(known, address).saturating_add(1);
            &&& failures_of(after, address) == failures
            &&& after[position(after, address)].blocked_until == now.spec_after(
                delay_after(failures),
            )
        }),
{
    law_tracked_addresses_are_bounded(known, address, now);
    let after = after_failure(known, address, now);
    if is_tracked(known, address) {
        lemma_position(after, address, position(known, address));
    } else {
        lemma_position(after, address, after.len() - 1);
    }
}

proof fn lemma_some_oldest(known: Seq<FailureState>, count: int)
    requires
        0 < count <= known.len(),
    ensures
        exists|index: int| is_oldest(known.take(count), index),
    decreases count,
{
    let part = known.take(count);
    if count == 1 {
        assert(is_oldest(part, 0));
    } else {
        lemma_some_oldest(known, count - 1);
        let shorter = known.take(count - 1);
        let index = choose|index: int| is_oldest(shorter, index);
        assert(forall|i: int| 0 <= i < count - 1 ==> part[i] == shorter[i]);
        if part[count - 1].last_seen.nanos < part[index].last_seen.nanos {
            assert forall|i: int| 0 <= i < count - 1 implies part[count - 1].last_seen.nanos < (
            #[trigger] part[i]).last_seen.nanos by {
                assert(shorter[i].last_seen.nanos >= shorter[index].last_seen.nanos);
            }
            assert(is_oldest(part, count - 1));
        } else {
            assert forall|i: int| 0 <= i < part.len() implies part[index].last_seen.nanos <= (
            #[trigger] part[i]).last_seen.nanos by {
                if i < count - 1 {
                    assert(shorter[i].last_seen.nanos >= shorter[index].last_seen.nanos);
                }
            }
            assert forall|i: int| 0 <= i < index implies part[index].last_seen.nanos < (
            #[trigger] part[i]).last_seen.nanos by {
                assert(shorter[i].last_seen.nanos > shorter[index].last_seen.nanos);
            }
            assert(is_oldest(part, index));
        }
    }
}

/// After a success an address waits no more and starts again from its first
/// failure.
pub proof fn law_success_clears_the_failures(known: Seq<FailureState>, address: PeerAddress)
    requires
        well_formed(known),
    ensures
        !is_tracked(after_success(known, address), address),
        failures_of(after_success(known, address), address) == 0,
{
    if is_tracked(known, address) {
        let index = position(known, address);
        assert(is_tracked_at(known, address, index));
        let after = known.remove(index);
        if is_tracked(after, address) {
            let other = position(after, address);
            assert(is_tracked_at(after, address, other));
            let place = if other < index {
                other
            } else {
                other + 1
            };
            assert(known[place] == after[other]);
            if place < index {
                assert(known[place].address != known[index].address);
            } else {
                assert(known[index].address != known[place].address);
            }
        }
    }
}

/// The delays: a quarter of a second after the first failure, twice the one
/// before after each of the next four, and four seconds from then on.
pub proof fn law_delays_double(failures: u32)
    ensures
        failures == 1 ==> delay_after(failures).nanos == 250_000_000,
        2 <= failures <= 5 ==> delay_after(failures).nanos == 2 * delay_after(
            (failures - 1) as u32,
        ).nanos,
        failures >= 5 ==> delay_after(failures).nanos == 4_000_000_000,
{
}

/// What a failure does to the address that failed: one failure more, seen now,
/// and blocked from now on for the delay of that many. All other addresses stay
/// as they are.
pub proof fn law_a_failure_blocks_its_address(
    known: Seq<FailureState>,
    address: PeerAddress,
    now: Instant,
    index: int,
)
    requires
        well_formed(known),
        0 <= index < known.len(),
        known[index].address == address,
        known[index].failures < u32::MAX,
        now.nanos + 4_000_000_000 <= u128::MAX,
    ensures
        ({
            let after = after_failure(known, address, now);
            let delay = after[index].blocked_until.nanos - now.nanos;
            &&& after.len() == known.len()
            &&& after[index].address == address
            &&& after[index].failures == known[index].failures + 1
            &&& after[index].last_seen == now
            &&& known[index].failures == 0 ==> delay == 250_000_000
            &&& known[index].failures == 1 ==> delay == 500_000_000
            &&& known[index].failures == 2 ==> delay == 1_000_000_000
            &&& known[index].failures == 3 ==> delay == 2_000_000_000
            &&& known[index].failures >= 4 ==> delay == 4_000_000_000
            &&& forall|i: int|
                0 <= i < known.len() && i != index ==> #[trigger] after[i] == known[i]
        }),
{
    assert(is_tracked_at(known, address, index));
    lemma_position(known, address, index);
}

/// The first failure of an address is noted at the end, blocked for a quarter
/// of a second. Where 1024 addresses are known, the one that was seen longest
/// ago is forgotten for it, and no other.
pub proof fn law_a_first_failure_is_noted(
    known: Seq<FailureState>,
    address: PeerAddress,
    now: Instant,
)
    requires
        well_formed(known),
        forall|i: int| 0 <= i < known.len() ==> (#[trigger] known[i]).address != address,
        now.nanos + 4_000_000_000 <= u128::MAX,
    ensures
        ({
            let after = after_failure(known, address, now);
            let noted = after.last();
            &&& after.len() > 0
            &&& noted.address == address
            &&& noted.failures == 1
            &&& noted.blocked_until.nanos == now.nanos + 250_000_000
            &&& noted.last_seen == now
            &&& known.len() < 1_024 ==> {
                &&& after.len() == known.len() + 1
                &&& forall|i: int| 0 <= i < known.len() ==> #[trigger] after[i] == known[i]
            }
            &&& known.len() == 1_024 ==> {
                &&& after.len() == 1_024
                &&& forall|i: int|
                    0 <= i < known.len() && !after.contains(#[trigger] known[i]) ==> {
                        forall|j: int|
                            0 <= j < known.len() ==> known[i].last_seen.nanos <= (
                            #[trigger] known[j]).last_seen.nanos
                    }
                &&& forall|i: int|
                    0 <= i < after.len() - 1 ==> known.contains(#[trigger] after[i])
            }
        }),
{
    let after = after_failure(known, address, now);
    if is_tracked(known, address) {
        let index = choose|index: int| is_tracked_at(known, address, index);
        assert(known[index].address != address);
    }
    if known.len() == 1_024 {
        lemma_some_oldest(known, known.len() as int);
        assert(known.take(known.len() as int) =~= known);
        let first = oldest(known);
        assert(is_oldest(known, first));
        assert forall|i: int| 0 <= i < known.len() && !after.contains(#[trigger] known[i]) implies {
            forall|j: int|
                0 <= j < known.len() ==> known[i].last_seen.nanos <= (
                #[trigger] known[j]).last_seen.nanos
        } by {
            if i < first {
                assert(after[i] == known[i]);
            } else if i > first {
                assert(after[i - 1] == known[i]);
            }
        }
        assert forall|i: int| 0 <= i < after.len() - 1 implies known.contains(
            #[trigger] after[i],
        ) by {
            if i < first {
                assert(after[i] == known[i]);
            } else {
                assert(after[i] == known[i + 1]);
            }
        }
    }
}

/// A success forgets its own address and no other.
pub proof fn law_a_success_forgets_its_address(known: Seq<FailureState>, address: PeerAddress)
    requires
        well_formed(known),
    ensures
        forall|state: FailureState| #[trigger]
            after_success(known, address).contains(state) <==> known.contains(state)
                && state.address != address,
{
    let after = after_success(known, address);
    if is_tracked(known, address) {
        let index = position(known, address);
        assert(is_tracked_at(known, address, index));
        assert forall|state: FailureState|
            known.contains(state) && state.address != address implies #[trigger] after.contains(
            state,
        ) by {
            let i = choose|i: int| 0 <= i < known.len() && known[i] == state;
            if i < index {
                assert(after[i] == state);
            } else {
                assert(after[i - 1] == state);
            }
        }
        assert forall|state: FailureState| #[trigger] after.contains(
            state,
        ) implies known.contains(state) && state.address != address by {
            let i = choose|i: int| 0 <= i < after.len() && after[i] == state;
            let j = if i < index {
                i
            } else {
                i + 1
            };
            assert(known[j] == state);
            if j < index {
                assert(known[j].address != known[index].address);
            } else {
                assert(known[index].address != known[j].address);
            }
        }
    } else {
        assert forall|state: FailureState| known.contains(state) implies state.address
            != address by {
            let i = choose|i: int| 0 <= i < known.len() && known[i] == state;
            assert(!is_tracked_at(known, address, i));
        }
    }
}

} // verus!
