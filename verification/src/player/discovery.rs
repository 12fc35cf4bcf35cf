//! Looking for hosts: what is probed, how far it has come, and what was found.

use crate::protocol::wire::HostOperatingSystem;
use crate::session::authentication::HostIdentity;
use crate::session::quic;
use crate::session::quic::DiscoveredHost;
use crate::time::Duration;
use vstd::prelude::*;

verus! {

pub const LAN_DISCOVERY_TIMEOUT_NANOS: u128 = 750_000_000;

pub const ROUTED_DISCOVERY_TIMEOUT_NANOS: u128 = 2_000_000_000;

pub const MAX_CONCURRENT_DISCOVERY_PROBES: usize = 32;

pub const MAX_CONCURRENT_LAN_PROBES: usize = 24;

pub const MAX_CONCURRENT_ROUTED_PROBES: usize = MAX_CONCURRENT_DISCOVERY_PROBES
    - MAX_CONCURRENT_LAN_PROBES;

/// Where a candidate was heard of.
#[derive(Clone, Copy, Debug, PartialEq, Eq, Structural)]
pub enum DiscoverySource {
    Manual,
    Lan,
    Tailscale,
}

/// A network address with its port.
#[derive(Clone, Copy, Debug, PartialEq, Eq, Structural)]
pub enum EndpointAddress {
    V4 { address: u32, port: u16 },
    V6 { address: u128, port: u16, flow: u32, scope: u32 },
}

/// A host that may be there.
#[derive(Clone, Debug, PartialEq)]
pub struct HostCandidate {
    pub source: DiscoverySource,
    pub display_name: Option<String>,
    pub addresses: Vec<EndpointAddress>,
}

#[derive(Clone, Copy, Debug, PartialEq, Eq, Structural)]
pub struct DiscoveryProgress {
    pub lan_completed: usize,
    pub lan_total: usize,
    pub tailscale_completed: usize,
    pub tailscale_total: usize,
}

/// A host that is there.
#[derive(Debug, PartialEq)]
pub struct DiscoveredEndpoint {
    pub source: DiscoverySource,
    pub source_name: Option<String>,
    pub address: EndpointAddress,
    pub host_identity: HostIdentity,
    pub display_name: Option<String>,
    pub operating_system: HostOperatingSystem,
}

/// The contents of a [`DiscoveredEndpoint`].
#[verifier::ext_equal]
pub struct EndpointModel {
    pub source: DiscoverySource,
    pub source_name: Option<Seq<char>>,
    pub address: EndpointAddress,
    pub host_identity: Seq<u8>,
    pub display_name: Option<Seq<char>>,
    pub operating_system: HostOperatingSystem,
}

impl View for DiscoveredEndpoint {
    type V = EndpointModel;

    open spec fn view(&self) -> EndpointModel {
        EndpointModel {
            source: self.source,
            source_name: quic::text_model(self.source_name),
            address: self.address,
            host_identity: self.host_identity@,
            display_name: quic::text_model(self.display_name),
            operating_system: self.operating_system,
        }
    }
}

fn copy_text(text: &Option<String>) -> (copy: Option<String>)
    ensures
        quic::text_model(copy) == quic::text_model(*text),
{
    match text {
        Some(text) => Some(text.clone()),
        None => None,
    }
}

impl Clone for DiscoveredEndpoint {
    fn clone(&self) -> (copy: Self)
        ensures
            copy@ == self@,
    {
        DiscoveredEndpoint {
            source: self.source,
            source_name: copy_text(&self.source_name),
            address: self.address,
            host_identity: self.host_identity,
            display_name: copy_text(&self.display_name),
            operating_system: self.operating_system,
        }
    }
}

#[derive(Debug, PartialEq)]
pub enum DiscoveryUpdate {
    Progress(DiscoveryProgress),
    Endpoint(DiscoveredEndpoint),
}

/// The contents of a [`DiscoveryUpdate`].
#[verifier::ext_equal]
pub enum UpdateModel {
    Progress(DiscoveryProgress),
    Endpoint(EndpointModel),
}

impl View for DiscoveryUpdate {
    type V = UpdateModel;

    open spec fn view(&self) -> UpdateModel {
        match self {
            DiscoveryUpdate::Progress(progress) => UpdateModel::Progress(*progress),
            DiscoveryUpdate::Endpoint(endpoint) => UpdateModel::Endpoint(endpoint@),
        }
    }
}

pub struct CompletedDiscoveryProbe {
    pub source: DiscoverySource,
    pub endpoint: Option<DiscoveredEndpoint>,
}

/// One address to probe.
#[derive(Debug)]
pub struct Probe {
    pub source: DiscoverySource,
    pub source_name: Option<String>,
    pub address: EndpointAddress,
}

/// The contents of a [`Probe`].
#[verifier::ext_equal]
pub struct ProbeTarget {
    pub source: DiscoverySource,
    pub source_name: Option<Seq<char>>,
    pub address: EndpointAddress,
}

impl View for Probe {
    type V = ProbeTarget;

    open spec fn view(&self) -> ProbeTarget {
        ProbeTarget {
            source: self.source,
            source_name: quic::text_model(self.source_name),
            address: self.address,
        }
    }
}

impl Default for DiscoveryProgress {
    fn default() -> (progress: Self)
        ensures
            progress == (DiscoveryProgress {
                lan_completed: 0,
                lan_total: 0,
                tailscale_completed: 0,
                tailscale_total: 0,
            }),
    {
        DiscoveryProgress {
            lan_completed: 0,
            lan_total: 0,
            tailscale_completed: 0,
            tailscale_total: 0,
        }
    }
}

fn is_source(left: DiscoverySource, right: DiscoverySource) -> (result: bool)
    ensures
        result == (left == right),
{
    left == right
}

/// How long a probe of an address is waited for.
pub fn probe_timeout(source: DiscoverySource) -> (timeout: Duration)
    ensures
        timeout.nanos == if source == DiscoverySource::Lan {
            LAN_DISCOVERY_TIMEOUT_NANOS
        } else {
            ROUTED_DISCOVERY_TIMEOUT_NANOS
        },
{
    if is_source(source, DiscoverySource::Lan) {
        Duration { nanos: LAN_DISCOVERY_TIMEOUT_NANOS }
    } else {
        Duration { nanos: ROUTED_DISCOVERY_TIMEOUT_NANOS }
    }
}

/// The addresses of the candidates that were heard of in one way.
pub open spec fn address_total(candidates: Seq<HostCandidate>, source: DiscoverySource) -> nat
    decreases candidates.len(),
{
    if candidates.len() == 0 {
        0
    } else {
        address_total(candidates.drop_last(), source) + if candidates.last().source == source {
            candidates.last().addresses@.len()
        } else {
            0
        }
    }
}

fn address_count(candidates: &Vec<HostCandidate>, source: DiscoverySource) -> (count: usize)
    requires
        address_total(candidates@, source) <= usize::MAX,
    ensures
        count == address_total(candidates@, source),
{
    let mut count: usize = 0;
    let mut index: usize = 0;
    assert(candidates@.take(0) =~= Seq::<HostCandidate>::empty());
    while index < candidates.len()
        invariant
            index <= candidates@.len(),
            count == address_total(candidates@.take(index as int), source),
            address_total(candidates@, source) <= usize::MAX,
        decreases candidates@.len() - index,
    {
        proof {
            assert(candidates@.take(index + 1).drop_last() =~= candidates@.take(index as int));
            lemma_total_grows(candidates@, source, index + 1);
        }
        if is_source(candidates[index].source, source) {
            count = count + candidates[index].addresses.len();
        }
        index = index + 1;
    }
    assert(candidates@.take(index as int) =~= candidates@);
    count
}

proof fn lemma_total_grows(candidates: Seq<HostCandidate>, source: DiscoverySource, count: int)
    requires
        0 <= count <= candidates.len(),
    ensures
        address_total(candidates.take(count), source) <= address_total(candidates, source),
    decreases candidates.len() - count,
{
    if count == candidates.len() {
        assert(candidates.take(count) =~= candidates);
    } else {
        assert(candidates.take(count + 1).drop_last() =~= candidates.take(count));
        lemma_total_grows(candidates, source, count + 1);
    }
}

/// Where a search begins: nothing is probed yet.
pub fn initial_progress(candidates: &Vec<HostCandidate>) -> (progress: DiscoveryProgress)
    requires
        address_total(candidates@, DiscoverySource::Lan) <= usize::MAX,
        address_total(candidates@, DiscoverySource::Tailscale) <= usize::MAX,
    ensures
        progress == (DiscoveryProgress {
            lan_completed: 0,
            lan_total: address_total(candidates@, DiscoverySource::Lan) as usize,
            tailscale_completed: 0,
            tailscale_total: address_total(candidates@, DiscoverySource::Tailscale) as usize,
        }),
{
    DiscoveryProgress {
        lan_completed: 0,
        lan_total: address_count(candidates, DiscoverySource::Lan),
        tailscale_completed: 0,
        tailscale_total: address_count(candidates, DiscoverySource::Tailscale),
    }
}

/// The addresses of one candidate.
pub open spec fn targets_of(candidate: HostCandidate) -> Seq<ProbeTarget> {
    candidate.addresses@.map_values(
        |address: EndpointAddress|
            ProbeTarget {
                source: candidate.source,
                source_name: quic::text_model(candidate.display_name),
                address,
            },
    )
}

/// What is probed in one of the two lanes, candidate by candidate: the local
/// network, or everything else.
pub open spec fn lane(candidates: Seq<HostCandidate>, local: bool) -> Seq<ProbeTarget>
    decreases candidates.len(),
{
    if candidates.len() == 0 {
        Seq::empty()
    } else if (candidates.last().source == DiscoverySource::Lan) == local {
        lane(candidates.drop_last(), local) + targets_of(candidates.last())
    } else {
        lane(candidates.drop_last(), local)
    }
}

pub open spec fn probe_views(probes: Seq<Probe>) -> Seq<ProbeTarget> {
    probes.map_values(|probe: Probe| probe@)
}

/// What is probed in one of the two lanes.
pub fn probes_of(candidates: &Vec<HostCandidate>, local: bool) -> (probes: Vec<Probe>)
    ensures
        probe_views(probes@) == lane(candidates@, local),
{
    let mut probes: Vec<Probe> = Vec::new();
    let mut index: usize = 0;
    assert(candidates@.take(0) =~= Seq::<HostCandidate>::empty());
    assert(probe_views(probes@) =~= Seq::<ProbeTarget>::empty());
    while index < candidates.len()
        invariant
            index <= candidates@.len(),
            probe_views(probes@) == lane(candidates@.take(index as int), local),
        decreases candidates@.len() - index,
    {
        let ghost done = candidates@.take(index as int);
        let ghost before = probes@;
        proof {
            assert(candidates@.take(index + 1).drop_last() =~= done);
        }
        let candidate = &candidates[index];
        if is_source(candidate.source, DiscoverySource::Lan) == local {
            let mut place: usize = 0;
            assert(probe_views(probes@) =~= probe_views(before) + targets_of(*candidate).take(0));
            while place < candidate.addresses.len()
                invariant
                    place <= candidate.addresses@.len(),
                    probe_views(probes@) == probe_views(before) + targets_of(*candidate).take(
                        place as int,
                    ),
                decreases candidate.addresses@.len() - place,
            {
                let ghost shown = probes@;
                let probe = Probe {
                    source: candidate.source,
                    source_name: copy_text(&candidate.display_name),
                    address: candidate.addresses[place],
                };
                probes.push(probe);
                proof {
                    assert(probe@ == targets_of(*candidate)[place as int]);
                    assert(probe_views(probes@) =~= probe_views(shown).push(probe@));
                    assert(probe_views(probes@) =~= probe_views(before) + targets_of(
                        *candidate,
                    ).take(place + 1));
                }
                place = place + 1;
            }
            assert(targets_of(*candidate).take(place as int) =~= targets_of(*candidate));
        }
        index = index + 1;
    }
    assert(candidates@.take(index as int) =~= candidates@);
    probes
}

/// What a finished probe adds to the progress.
pub open spec fn counted(
    progress: DiscoveryProgress,
    source: DiscoverySource,
) -> DiscoveryProgress {
    match source {
        DiscoverySource::Lan => DiscoveryProgress {
            lan_completed: progress.lan_completed.saturating_add(1),
            ..progress
        },
        DiscoverySource::Tailscale => DiscoveryProgress {
            tailscale_completed: progress.tailscale_completed.saturating_add(1),
            ..progress
        },
        DiscoverySource::Manual => progress,
    }
}

pub open spec fn endpoint_views(endpoints: Seq<DiscoveredEndpoint>) -> Seq<EndpointModel> {
    endpoints.map_values(|endpoint: DiscoveredEndpoint| endpoint@)
}

pub open spec fn update_views(updates: Seq<DiscoveryUpdate>) -> Seq<UpdateModel> {
    updates.map_values(|update: DiscoveryUpdate| update@)
}

/// Takes a finished probe: what there is to tell, a found host before the
/// progress that it is part of.
pub fn record_discovery_probe(
    completed: CompletedDiscoveryProbe,
    progress: &mut DiscoveryProgress,
    discovered: &mut Vec<DiscoveredEndpoint>,
) -> (updates: Vec<DiscoveryUpdate>)
    ensures
        *final(progress) == counted(*old(progress), completed.source),
        match completed.endpoint {
            Some(endpoint) => {
                &&& endpoint_views(final(discovered)@) == endpoint_views(old(discovered)@).push(
                    endpoint@,
                )
                &&& update_views(updates@) == seq![
                    UpdateModel::Endpoint(endpoint@),
                    UpdateModel::Progress(*final(progress)),
                ]
            },
            None => {
                &&& endpoint_views(final(discovered)@) == endpoint_views(old(discovered)@)
                &&& update_views(updates@) == seq![UpdateModel::Progress(*final(progress))]
            },
        },
{
    let ghost found = completed.endpoint;
    let mut updates: Vec<DiscoveryUpdate> = Vec::new();
    match completed.endpoint {
        Some(endpoint) => {
            updates.push(DiscoveryUpdate::Endpoint(endpoint.clone()));
            discovered.push(endpoint);
            assert(endpoint_views(discovered@) =~= endpoint_views(old(discovered)@).push(
                endpoint@,
            ));
        },
        None => {},
    }
    match completed.source {
        DiscoverySource::Lan => {
            progress.lan_completed = progress.lan_completed.saturating_add(1);
        },
        DiscoverySource::Tailscale => {
            progress.tailscale_completed = progress.tailscale_completed.saturating_add(1);
        },
        DiscoverySource::Manual => {},
    }
    updates.push(DiscoveryUpdate::Progress(*progress));
    proof {
        match found {
            Some(endpoint) => {
                assert(update_views(updates@) =~= seq![
                    UpdateModel::Endpoint(endpoint@),
                    UpdateModel::Progress(*progress),
                ]);
            },
            None => {
                assert(update_views(updates@) =~= seq![UpdateModel::Progress(*progress)]);
            },
        }
    }
    updates
}

/// The endpoint that a probe found.
pub fn found_endpoint(probe: Probe, host: DiscoveredHost) -> (endpoint: DiscoveredEndpoint)
    ensures
        endpoint@ == (EndpointModel {
            source: probe.source,
            source_name: quic::text_model(probe.source_name),
            address: probe.address,
            host_identity: host@.host_identity,
            display_name: host@.display_name,
            operating_system: host@.operating_system,
        }),
{
    DiscoveredEndpoint {
        source: probe.source,
        source_name: probe.source_name,
        address: probe.address,
        host_identity: host.host_identity,
        display_name: host.display_name,
        operating_system: host.operating_system,
    }
}

/// Which of two ways of being heard of comes first.
pub open spec fn priority(source: DiscoverySource) -> int {
    match source {
        DiscoverySource::Manual => 0,
        DiscoverySource::Lan => 1,
        DiscoverySource::Tailscale => 2,
    }
}

fn discovery_source_priority(source: DiscoverySource) -> (result: u8)
    ensures
        result == priority(source),
{
    match source {
        DiscoverySource::Manual => 0,
        DiscoverySource::Lan => 1,
        DiscoverySource::Tailscale => 2,
    }
}

/// The order of addresses: the shorter kind first, then by address and port.
pub open spec fn address_before(left: EndpointAddress, right: EndpointAddress) -> bool {
    match (left, right) {
        (
            EndpointAddress::V4 { address: a, port: p },
            EndpointAddress::V4 { address: b, port: q },
        ) => a < b || (a == b && p < q),
        (EndpointAddress::V4 { .. }, EndpointAddress::V6 { .. }) => true,
        (EndpointAddress::V6 { .. }, EndpointAddress::V4 { .. }) => false,
        (
            EndpointAddress::V6 { address: a, port: p, flow: f, scope: s },
            EndpointAddress::V6 { address: b, port: q, flow: g, scope: t },
        ) => a < b || (a == b && (p < q || (p == q && (f < g || (f == g && s < t))))),
    }
}

/// The order in which found hosts are shown.
pub open spec fn shown_before(left: EndpointModel, right: EndpointModel) -> bool {
    priority(left.source) < priority(right.source) || (priority(left.source) == priority(
        right.source,
    ) && address_before(left.address, right.address))
}

fn is_address_before(left: EndpointAddress, right: EndpointAddress) -> (result: bool)
    ensures
        result == address_before(left, right),
{
    match (left, right) {
        (
            EndpointAddress::V4 { address: a, port: p },
            EndpointAddress::V4 { address: b, port: q },
        ) => a < b || (a == b && p < q),
        (EndpointAddress::V4 { .. }, EndpointAddress::V6 { .. }) => true,
        (EndpointAddress::V6 { .. }, EndpointAddress::V4 { .. }) => false,
        (
            EndpointAddress::V6 { address: a, port: p, flow: f, scope: s },
            EndpointAddress::V6 { address: b, port: q, flow: g, scope: t },
        ) => a < b || (a == b && (p < q || (p == q && (f < g || (f == g && s < t))))),
    }
}

fn is_shown_before(left: &DiscoveredEndpoint, right: &DiscoveredEndpoint) -> (result: bool)
    ensures
        result == shown_before(left@, right@),
{
    let first = discovery_source_priority(left.source);
    let second = discovery_source_priority(right.source);
    first < second || (first == second && is_address_before(left.address, right.address))
}

/// A place behind everything that is not shown after `endpoint`.
pub open spec fn place_for(shown: Seq<EndpointModel>, endpoint: EndpointModel) -> int
    decreases shown.len(),
{
    if shown.len() == 0 {
        0
    } else if shown_before(endpoint, shown.last()) {
        place_for(shown.drop_last(), endpoint)
    } else {
        shown.len() as int
    }
}

/// The hosts in the order they are shown in; those of one place in the order
/// they were found in.
pub open spec fn in_order(endpoints: Seq<EndpointModel>) -> Seq<EndpointModel>
    decreases endpoints.len(),
{
    if endpoints.len() == 0 {
        Seq::empty()
    } else {
        let shown = in_order(endpoints.drop_last());
        shown.insert(place_for(shown, endpoints.last()), endpoints.last())
    }
}

proof fn lemma_place_bounds(shown: Seq<EndpointModel>, endpoint: EndpointModel)
    ensures
        0 <= place_for(shown, endpoint) <= shown.len(),
    decreases shown.len(),
{
    if shown.len() > 0 && shown_before(endpoint, shown.last()) {
        lemma_place_bounds(shown.drop_last(), endpoint);
    }
}

/// Puts the found hosts in the order they are shown in.
pub fn sort_endpoints(endpoints: Vec<DiscoveredEndpoint>) -> (shown: Vec<DiscoveredEndpoint>)
    ensures
        endpoint_views(shown@) == in_order(endpoint_views(endpoints@)),
{
    let ghost all = endpoint_views(endpoints@);
    let mut rest = endpoints;
    let mut shown: Vec<DiscoveredEndpoint> = Vec::new();
    let mut done: Ghost<int> = Ghost(0);
    assert(all.take(0) =~= Seq::<EndpointModel>::empty());
    assert(endpoint_views(shown@) =~= Seq::<EndpointModel>::empty());
    assert(all.skip(0) =~= all);
    while rest.len() > 0
        invariant
            0 <= done@ <= all.len(),
            endpoint_views(rest@) == all.skip(done@),
            endpoint_views(shown@) == in_order(all.take(done@)),
        decreases rest@.len(),
    {
        let ghost waiting = rest@;
        let endpoint = rest.remove(0);
        let ghost views = endpoint_views(shown@);
        let mut place: usize = shown.len();
        assert(views.take(place as int) =~= views);
        while place > 0 && is_shown_before(&endpoint, &shown[place - 1])
            invariant
                place <= shown@.len(),
                views == endpoint_views(shown@),
                place_for(views, endpoint@) == place_for(views.take(place as int), endpoint@),
            decreases place,
        {
            proof {
                assert(views.take(place as int).last() == shown@[place - 1]@);
                assert(views.take(place as int).drop_last() =~= views.take(place - 1));
            }
            place = place - 1;
        }
        proof {
            assert(place_for(views, endpoint@) == place) by {
                let part = views.take(place as int);
                if place > 0 {
                    assert(part.last() == shown@[place - 1]@);
                }
            }
            assert(endpoint_views(waiting).len() == waiting.len());
            assert(done@ < all.len());
            assert(endpoint@ == all.skip(done@)[0]) by {
                assert(endpoint_views(waiting)[0] == endpoint@);
            }
            assert(all.take(done@ + 1).drop_last() =~= all.take(done@));
            assert(all.take(done@ + 1).last() == endpoint@);
        }
        let ghost before = shown@;
        shown.insert(place, endpoint);
        proof {
            assert(endpoint_views(shown@) =~= views.insert(place as int, endpoint@));
            assert(endpoint_views(rest@) =~= all.skip(done@ + 1)) by {
                assert(endpoint_views(waiting).len() == waiting.len());
                assert forall|i: int| 0 <= i < rest@.len() implies endpoint_views(rest@)[i]
                    == all.skip(done@ + 1)[i] by {
                    assert(rest@[i] == waiting[i + 1]);
                    assert(endpoint_views(waiting)[i + 1] == all.skip(done@)[i + 1]);
                }
            }
            done@ = done@ + 1;
        }
    }
    proof {
        assert(endpoint_views(rest@).len() == 0);
        assert(done@ == all.len());
        assert(all.take(done@) =~= all);
    }
    shown
}

pub open spec fn is_in_order(shown: Seq<EndpointModel>) -> bool {
    forall|i: int, j: int|
        0 <= i < j < shown.len() ==> !shown_before(#[trigger] shown[j], #[trigger] shown[i])
}

/// Nothing is lost or added by the order, and no host stands behind one that it
/// is shown before.
pub proof fn law_hosts_are_shown_in_order(endpoints: Seq<EndpointModel>)
    ensures
        is_in_order(in_order(endpoints)),
        in_order(endpoints).to_multiset() == endpoints.to_multiset(),
        in_order(endpoints).len() == endpoints.len(),
    decreases endpoints.len(),
{
    if endpoints.len() > 0 {
        let shorter = endpoints.drop_last();
        let last = endpoints.last();
        law_hosts_are_shown_in_order(shorter);
        let shown = in_order(shorter);
        let place = place_for(shown, last);
        lemma_place_bounds(shown, last);
        lemma_place_splits(shown, last);
        let after = in_order(endpoints);
        assert(after =~= shown.insert(place, last));
        assert forall|i: int, j: int| 0 <= i < j < after.len() implies !shown_before(
            #[trigger] after[j],
            #[trigger] after[i],
        ) by {
            if j == place {
                assert(!shown_before(last, shown[i]));
            } else if i == place {
                assert(shown_before(last, shown[j - 1]));
            } else {
                let p = if i < place {
                    i
                } else {
                    i - 1
                };
                let q = if j < place {
                    j
                } else {
                    j - 1
                };
                assert(!shown_before(shown[q], shown[p]));
            }
        }
        shown.insert_ensures(place, last);
        assert(endpoints =~= shorter.push(last));
        vstd::seq_lib::to_multiset_build(shorter, last);
        vstd::seq_lib::to_multiset_insert(shown, place, last);
    } else {
        assert(in_order(endpoints) =~= endpoints);
    }
}

proof fn lemma_place_splits(shown: Seq<EndpointModel>, endpoint: EndpointModel)
    requires
        is_in_order(shown),
    ensures
        forall|i: int|
            0 <= i < place_for(shown, endpoint) ==> !shown_before(endpoint, #[trigger] shown[i]),
        forall|i: int|
            place_for(shown, endpoint) <= i < shown.len() ==> shown_before(
                endpoint,
                #[trigger] shown[i],
            ),
    decreases shown.len(),
{
    lemma_place_bounds(shown, endpoint);
    if shown.len() > 0 {
        if shown_before(endpoint, shown.last()) {
            let shorter = shown.drop_last();
            lemma_place_splits(shorter, endpoint);
            assert forall|i: int| 0 <= i < place_for(shown, endpoint) implies !shown_before(
                endpoint,
                #[trigger] shown[i],
            ) by {
                lemma_place_bounds(shorter, endpoint);
                assert(shorter[i] == shown[i]);
            }
            assert forall|i: int| place_for(shown, endpoint) <= i < shown.len() implies shown_before(
                endpoint,
                #[trigger] shown[i],
            ) by {
                if i < shown.len() - 1 {
                    assert(shorter[i] == shown[i]);
                }
            }
        } else {
            assert forall|i: int| 0 <= i < shown.len() implies !shown_before(
                endpoint,
                #[trigger] shown[i],
            ) by {
                if i < shown.len() - 1 {
                    assert(!shown_before(shown.last(), shown[i]));
                }
            }
        }
    }
}

/// The two lanes share the probes that may run at once.
pub proof fn law_lanes_share_the_limit()
    ensures
        MAX_CONCURRENT_LAN_PROBES + MAX_CONCURRENT_ROUTED_PROBES
            == MAX_CONCURRENT_DISCOVERY_PROBES,
{
}

/// Progress never goes back, and a search of nothing is complete from the start.
pub proof fn law_progress_is_monotone(progress: DiscoveryProgress, source: DiscoverySource)
    ensures
        counted(progress, source).lan_completed >= progress.lan_completed,
        counted(progress, source).tailscale_completed >= progress.tailscale_completed,
        counted(progress, source).lan_total == progress.lan_total,
        counted(progress, source).tailscale_total == progress.tailscale_total,
{
}

/// Which of two hosts is shown first: one that was typed in, then one of the
/// local network, then one of the overlay; of one kind a shorter address before
/// a longer, and a lower before a higher, then by port.
pub proof fn law_which_host_is_shown_first(left: EndpointModel, right: EndpointModel)
    ensures
        left.source is Manual && !(right.source is Manual) ==> shown_before(left, right),
        left.source is Lan && right.source is Tailscale ==> shown_before(left, right),
        left.source is Lan && right.source is Manual ==> !shown_before(left, right),
        left.source is Tailscale && !(right.source is Tailscale) ==> !shown_before(left, right),
        left.source == right.source && left.address is V4 && right.address is V6 ==> shown_before(
            left,
            right,
        ),
        left.source == right.source && left.address is V6 && right.address is V4 ==> !shown_before(
            left,
            right,
        ),
        left.source == right.source ==> (left.address matches EndpointAddress::V4 {
            address: a,
            port: p,
        } ==> (right.address matches EndpointAddress::V4 { address: b, port: q } ==> (shown_before(
            left,
            right,
        ) <==> a < b || (a == b && p < q)))),
        left.source == right.source ==> (left.address matches EndpointAddress::V6 {
            address: a,
            port: p,
            flow: f,
            scope: s,
        } ==> (right.address matches EndpointAddress::V6 {
            address: b,
            port: q,
            flow: g,
            scope: t,
        } ==> (shown_before(left, right) <==> a < b || (a == b && p < q) || (a == b && p == q && f
            < g) || (a == b && p == q && f == g && s < t)))),
{
}

/// A search that is completed counts for its own network and no other.
pub proof fn law_searches_count_for_their_network(
    progress: DiscoveryProgress,
    source: DiscoverySource,
)
    requires
        progress.lan_completed < usize::MAX,
        progress.tailscale_completed < usize::MAX,
    ensures
        ({
            let after = counted(progress, source);
            &&& after.lan_completed == progress.lan_completed + if source is Lan {
                1int
            } else {
                0
            }
            &&& after.tailscale_completed == progress.tailscale_completed + if source is Tailscale {
                1int
            } else {
                0
            }
            &&& after.lan_total == progress.lan_total
            &&& after.tailscale_total == progress.tailscale_total
        }),
{
}

/// Every address of every candidate is searched once, with its source and name:
/// those of the local network in one lane, all others in the other, in order.
pub proof fn law_every_address_is_searched(candidates: Seq<HostCandidate>, candidate: HostCandidate)
    ensures
        ({
            let local = candidate.source is Lan;
            let more = candidates.push(candidate);
            let before = lane(candidates, local);
            let after = lane(more, local);
            &&& after.len() == before.len() + candidate.addresses@.len()
            &&& forall|i: int| 0 <= i < before.len() ==> #[trigger] after[i] == before[i]
            &&& forall|i: int|
                0 <= i < candidate.addresses@.len() ==> {
                    &&& (#[trigger] after[before.len() + i]).address == candidate.addresses@[i]
                    &&& after[before.len() + i].source == candidate.source
                    &&& after[before.len() + i].source_name == quic::text_model(
                        candidate.display_name,
                    )
                }
            &&& lane(more, !local) == lane(candidates, !local)
            &&& address_total(more, candidate.source) == address_total(candidates, candidate.source)
                + candidate.addresses@.len()
            &&& forall|other: DiscoverySource|
                other != candidate.source ==> #[trigger] address_total(more, other)
                    == address_total(candidates, other)
        }),
{
    assert(candidates.push(candidate).drop_last() =~= candidates);
}

/// The limits of a search: three quarters of a second on the local network, and
/// 24 and 8 of 32 searches at a time.
pub proof fn law_limits_of_a_search()
    ensures
        LAN_DISCOVERY_TIMEOUT_NANOS == 750_000_000,
        ROUTED_DISCOVERY_TIMEOUT_NANOS == 2_000_000_000,
        MAX_CONCURRENT_LAN_PROBES == 24,
        MAX_CONCURRENT_ROUTED_PROBES == 8,
{
}

} // verus!
