//! Protocol versions and feature negotiation.

use vstd::prelude::*;

verus! {

/// One platform-neutral input event before channel-specific wire encoding.
#[derive(Clone, Copy, Debug, PartialEq, Eq, Structural)]
pub enum InputEvent {
    Key { hid_usage: u16, pressed: bool },
    ReleaseAll,
    PointerButton { button: u8, pressed: bool },
    PointerMotion { delta_x: i32, delta_y: i32 },
    PointerPosition { x: u16, y: u16 },
    Wheel { horizontal: i16, vertical: i16 },
}

/// A protocol version whose major number marks breaking changes.
#[derive(Clone, Copy, Debug, PartialEq, Eq, PartialOrd, Ord, Structural)]
pub struct ProtocolVersion {
    pub major: u16,
    pub minor: u16,
}

/// Two peers cannot communicate because their protocol majors differ.
#[derive(Clone, Copy, Debug, PartialEq, Eq, Structural)]
pub struct ProtocolVersionMismatch {
    pub local: ProtocolVersion,
    pub peer: ProtocolVersion,
}

impl ProtocolVersion {
    #[must_use]
    pub fn new(major: u16, minor: u16) -> (version: Self)
        ensures
            version == (ProtocolVersion { major, minor }),
    {
        ProtocolVersion { major, minor }
    }

    /// The protocol version implemented by this build.
    #[must_use]
    pub fn current() -> (version: Self)
        ensures
            version == (ProtocolVersion { major: 1, minor: 4 }),
    {
        ProtocolVersion { major: 1, minor: 4 }
    }

    /// The version that two peers speak: the lower minor, where the majors agree.
    pub open spec fn common(self, peer: Self) -> Result<Self, ProtocolVersionMismatch> {
        if self.major != peer.major {
            Err(ProtocolVersionMismatch { local: self, peer })
        } else {
            Ok(
                ProtocolVersion {
                    major: self.major,
                    minor: if self.minor <= peer.minor {
                        self.minor
                    } else {
                        peer.minor
                    },
                },
            )
        }
    }

    /// Selects the newest minor version understood by both peers.
    pub fn negotiate(self, peer: Self) -> (result: Result<Self, ProtocolVersionMismatch>)
        ensures
            result == self.common(peer),
    {
        if self.major != peer.major {
            return Err(ProtocolVersionMismatch { local: self, peer });
        }
        let minor: u16 = if self.minor <= peer.minor {
            self.minor
        } else {
            peer.minor
        };
        Ok(ProtocolVersion { major: self.major, minor })
    }
}

/// Both peers select the same version, and both understand it.
pub proof fn law_version_negotiation_agrees(left: ProtocolVersion, right: ProtocolVersion)
    ensures
        left.common(right) is Ok <==> right.common(left) is Ok,
        left.common(right) matches Ok(version) ==> right.common(left) == left.common(right)
            && version.major == left.major && version.minor <= left.minor && version.minor
            <= right.minor,
{
}

/// A stable numeric feature identifier. Zero is reserved for invalid data.
#[derive(Clone, Copy, Debug, PartialEq, Eq, PartialOrd, Ord, Structural)]
pub struct FeatureId {
    value: u16,
}

impl FeatureId {
    #[verifier::type_invariant]
    spec fn is_nonzero(self) -> bool {
        self.value != 0
    }

    /// The identifier's number.
    pub closed spec fn number(self) -> u16 {
        self.value
    }

    pub fn new(value: u16) -> (id: Option<Self>)
        ensures
            match id {
                Some(id) => value != 0 && id.number() == value,
                None => value == 0,
            },
    {
        if value == 0 {
            None
        } else {
            Some(FeatureId { value })
        }
    }

    #[must_use]
    pub fn get(self) -> (value: u16)
        ensures
            value == self.number(),
            value != 0,
    {
        proof {
            use_type_invariant(self);
        }
        self.value
    }
}

/// An identifier is its number.
pub proof fn law_feature_ids_are_numbers(left: FeatureId, right: FeatureId)
    ensures
        left == right <==> left.number() == right.number(),
{
}

/// An inclusive range of versions supported for one feature.
#[derive(Clone, Copy, Debug, PartialEq, Eq, Structural)]
pub struct FeatureVersionRange {
    pub oldest: u16,
    pub newest: u16,
}

/// A range whose oldest version is newer than its newest.
#[derive(Clone, Copy, Debug, PartialEq, Eq, Structural)]
pub struct InvalidFeatureVersionRange {
    pub oldest: u16,
    pub newest: u16,
}

impl FeatureVersionRange {
    pub fn new(oldest: u16, newest: u16) -> (result: Result<Self, InvalidFeatureVersionRange>)
        ensures
            result == if oldest > newest {
                Err(InvalidFeatureVersionRange { oldest, newest })
            } else {
                Ok(FeatureVersionRange { oldest, newest })
            },
    {
        if oldest > newest {
            return Err(InvalidFeatureVersionRange { oldest, newest });
        }
        Ok(FeatureVersionRange { oldest, newest })
    }

    pub open spec fn contains(self, version: u16) -> bool {
        self.oldest <= version <= self.newest
    }

    /// The newest version in both ranges.
    pub open spec fn common(self, peer: Self) -> Option<u16> {
        let newest = if self.newest < peer.newest {
            self.newest
        } else {
            peer.newest
        };
        if self.contains(newest) && peer.contains(newest) {
            Some(newest)
        } else {
            None
        }
    }

    fn highest_common(self, peer: Self) -> (version: Option<u16>)
        ensures
            version == self.common(peer),
    {
        let oldest: u16 = if self.oldest > peer.oldest {
            self.oldest
        } else {
            peer.oldest
        };
        let newest: u16 = if self.newest < peer.newest {
            self.newest
        } else {
            peer.newest
        };
        if oldest <= newest {
            Some(newest)
        } else {
            None
        }
    }
}

/// The common version is in both ranges and none in both is newer; there is
/// one wherever any version is in both.
pub proof fn law_common_version_is_the_highest(
    left: FeatureVersionRange,
    right: FeatureVersionRange,
    version: u16,
)
    ensures
        left.common(right) == right.common(left),
        left.common(right) matches Some(common) ==> left.contains(common) && right.contains(common),
        left.contains(version) && right.contains(version) ==> (left.common(right) matches Some(
            common,
        ) && version <= common),
{
}

/// Whether a session can do without a feature.
#[derive(Clone, Copy, Debug, PartialEq, Eq, Structural)]
pub enum FeatureRequirement {
    Optional,
    Required,
}

/// A feature as one endpoint offers it.
#[derive(Clone, Copy, Debug, PartialEq, Eq, Structural)]
pub struct FeatureOffer {
    pub id: FeatureId,
    pub versions: FeatureVersionRange,
    pub requirement: FeatureRequirement,
}

/// A feature that both endpoints will use, at one version.
#[derive(Clone, Copy, Debug, PartialEq, Eq, Structural)]
pub struct NegotiatedFeature {
    pub id: FeatureId,
    pub version: u16,
}

/// Why two endpoints cannot agree on features.
#[derive(Clone, Copy, Debug, PartialEq, Eq, Structural)]
pub enum FeatureNegotiationError {
    DuplicateLocalFeature(FeatureId),
    DuplicatePeerFeature(FeatureId),
    MissingRequiredLocalFeature(FeatureId),
    MissingRequiredPeerFeature(FeatureId),
    IncompatibleRequiredFeature(FeatureId),
}

/// The first offer whose identifier an earlier one has.
pub open spec fn first_duplicate(offers: Seq<FeatureOffer>) -> Option<FeatureId>
    decreases offers.len(),
{
    if offers.len() == 0 {
        None
    } else {
        match first_duplicate(offers.drop_last()) {
            Some(id) => Some(id),
            None => if offered(offers.drop_last(), offers.last().id) is Some {
                Some(offers.last().id)
            } else {
                None
            },
        }
    }
}

/// The last offer of `id`: the only one, where none is offered twice.
pub open spec fn offered(offers: Seq<FeatureOffer>, id: FeatureId) -> Option<FeatureOffer>
    decreases offers.len(),
{
    if offers.len() == 0 {
        None
    } else if offers.last().id == id {
        Some(offers.last())
    } else {
        offered(offers.drop_last(), id)
    }
}

/// What stands in the way of a feature that the local side offers.
pub open spec fn local_obstacle(
    local: FeatureOffer,
    peer: Option<FeatureOffer>,
) -> Option<FeatureNegotiationError> {
    match peer {
        None => if local.requirement == FeatureRequirement::Required {
            Some(FeatureNegotiationError::MissingRequiredLocalFeature(local.id))
        } else {
            None
        },
        Some(peer) => if local.versions.common(peer.versions) is None && (local.requirement
            == FeatureRequirement::Required || peer.requirement == FeatureRequirement::Required) {
            Some(FeatureNegotiationError::IncompatibleRequiredFeature(local.id))
        } else {
            None
        },
    }
}

/// Offers in the order of their identifiers.
pub open spec fn in_id_order(offers: Seq<FeatureOffer>) -> bool {
    forall|i: int, j: int|
        #![trigger offers[i], offers[j]]
        0 <= i < j < offers.len() ==> offers[i].id.number() < offers[j].id.number()
}

/// The same offers, in the order of their identifiers.
pub open spec fn is_ordered_form(ordered: Seq<FeatureOffer>, offers: Seq<FeatureOffer>) -> bool {
    in_id_order(ordered) && forall|offer: FeatureOffer|
        ordered.contains(offer) <==> #[trigger] offered(offers, offer.id) == Some(offer)
}

/// The features that the local offers `ordered` lead to, or the first obstacle.
pub open spec fn local_outcome(ordered: Seq<FeatureOffer>, peer: Seq<FeatureOffer>) -> Result<
    Seq<NegotiatedFeature>,
    FeatureNegotiationError,
>
    decreases ordered.len(),
{
    if ordered.len() == 0 {
        Ok(Seq::empty())
    } else {
        match local_outcome(ordered.drop_last(), peer) {
            Err(error) => Err(error),
            Ok(features) => {
                let offer = ordered.last();
                match local_obstacle(offer, offered(peer, offer.id)) {
                    Some(error) => Err(error),
                    None => match offered(peer, offer.id) {
                        None => Ok(features),
                        Some(other) => match offer.versions.common(other.versions) {
                            Some(version) => Ok(
                                features.push(NegotiatedFeature { id: offer.id, version }),
                            ),
                            None => Ok(features),
                        },
                    },
                }
            },
        }
    }
}

/// The first of the peer's offers `ordered` that it requires and `local` lacks.
pub open spec fn peer_obstacle(
    ordered: Seq<FeatureOffer>,
    local: Seq<FeatureOffer>,
) -> Option<FeatureNegotiationError>
    decreases ordered.len(),
{
    if ordered.len() == 0 {
        None
    } else {
        match peer_obstacle(ordered.drop_last(), local) {
            Some(error) => Some(error),
            None => if ordered.last().requirement == FeatureRequirement::Required && offered(
                local,
                ordered.last().id,
            ) is None {
                Some(FeatureNegotiationError::MissingRequiredPeerFeature(ordered.last().id))
            } else {
                None
            },
        }
    }
}

/// The outcome for two lists of distinct offers in the order of their identifiers.
pub open spec fn outcome(local: Seq<FeatureOffer>, peer: Seq<FeatureOffer>) -> Result<
    Seq<NegotiatedFeature>,
    FeatureNegotiationError,
> {
    match local_outcome(local, peer) {
        Err(error) => Err(error),
        Ok(features) => match peer_obstacle(peer, local) {
            Some(error) => Err(error),
            None => Ok(features),
        },
    }
}

/// What negotiation returns: duplicates are refused first, and the rest is
/// decided in the order of the identifiers.
pub open spec fn negotiation_result(
    local: Seq<FeatureOffer>,
    peer: Seq<FeatureOffer>,
    result: Result<Seq<NegotiatedFeature>, FeatureNegotiationError>,
) -> bool {
    match first_duplicate(local) {
        Some(id) => result == Err::<Seq<NegotiatedFeature>, FeatureNegotiationError>(
            FeatureNegotiationError::DuplicateLocalFeature(id),
        ),
        None => match first_duplicate(peer) {
            Some(id) => result == Err::<Seq<NegotiatedFeature>, FeatureNegotiationError>(
                FeatureNegotiationError::DuplicatePeerFeature(id),
            ),
            None => exists|ordered_local: Seq<FeatureOffer>, ordered_peer: Seq<FeatureOffer>|
                #![trigger is_ordered_form(ordered_local, local), is_ordered_form(ordered_peer, peer)]
                is_ordered_form(ordered_local, local) && is_ordered_form(ordered_peer, peer)
                    && result == outcome(ordered_local, ordered_peer),
        },
    }
}

proof fn lemma_offered_has_id(offers: Seq<FeatureOffer>, id: FeatureId)
    ensures
        offered(offers, id) matches Some(offer) ==> offer.id == id && offers.contains(offer),
    decreases offers.len(),
{
    if offers.len() > 0 {
        if offers.last().id == id {
            assert(offers[offers.len() - 1] == offers.last());
        } else {
            lemma_offered_has_id(offers.drop_last(), id);
            match offered(offers.drop_last(), id) {
                Some(offer) => {
                    let index = choose|index: int|
                        0 <= index < offers.len() - 1 && offers.drop_last()[index] == offer;
                    assert(offers[index] == offer);
                },
                None => {},
            }
        }
    }
}

/// There is one way only to put offers in the order of their identifiers, so
/// negotiation has one result.
pub proof fn law_ordered_form_is_unique(
    left: Seq<FeatureOffer>,
    right: Seq<FeatureOffer>,
    offers: Seq<FeatureOffer>,
)
    requires
        is_ordered_form(left, offers),
        is_ordered_form(right, offers),
    ensures
        left == right,
    decreases left.len(),
{
    assert forall|offer: FeatureOffer| left.contains(offer) implies right.contains(offer) by {
        assert(offered(offers, offer.id) == Some(offer));
    }
    assert forall|offer: FeatureOffer| right.contains(offer) implies left.contains(offer) by {
        assert(offered(offers, offer.id) == Some(offer));
    }
    lemma_same_members_same_order(left, right);
}

proof fn lemma_same_members_same_order(left: Seq<FeatureOffer>, right: Seq<FeatureOffer>)
    requires
        in_id_order(left),
        in_id_order(right),
        forall|offer: FeatureOffer| left.contains(offer) <==> right.contains(offer),
    ensures
        left == right,
    decreases left.len(),
{
    if left.len() == 0 {
        if right.len() > 0 {
            assert(right.contains(right[0]));
            assert(left.contains(right[0]));
        }
        assert(left =~= right);
    } else {
        let last = left.last();
        assert(left.contains(left[left.len() - 1]));
        assert(right.contains(last));
        assert(right.len() > 0);
        assert(right.contains(right[right.len() - 1]));
        assert(left.contains(right.last()));
        let in_left = choose|index: int| 0 <= index < left.len() && left[index] == right.last();
        let in_right = choose|index: int| 0 <= index < right.len() && right[index] == last;
        assert(in_left == left.len() - 1);
        assert(right.last() == last);
        let shorter_left = left.drop_last();
        let shorter_right = right.drop_last();
        assert forall|offer: FeatureOffer| shorter_left.contains(offer) implies shorter_right.contains(
            offer,
        ) by {
            let index = choose|index: int|
                0 <= index < shorter_left.len() && shorter_left[index] == offer;
            assert(left[index] == offer);
            assert(left.contains(offer));
            let other = choose|other: int| 0 <= other < right.len() && right[other] == offer;
            assert(left[index].id.number() < left[left.len() - 1].id.number());
            assert(other < right.len() - 1);
            assert(shorter_right[other] == offer);
        }
        assert forall|offer: FeatureOffer| shorter_right.contains(offer) implies shorter_left.contains(
            offer,
        ) by {
            let index = choose|index: int|
                0 <= index < shorter_right.len() && shorter_right[index] == offer;
            assert(right[index] == offer);
            assert(right.contains(offer));
            let other = choose|other: int| 0 <= other < left.len() && left[other] == offer;
            assert(right[index].id.number() < right[right.len() - 1].id.number());
            assert(other < left.len() - 1);
            assert(shorter_left[other] == offer);
        }
        lemma_same_members_same_order(shorter_left, shorter_right);
        assert(left =~= shorter_left.push(last));
        assert(right =~= shorter_right.push(last));
    }
}

/// Negotiated features come in the order of their identifiers.
pub proof fn law_features_are_in_id_order(local: Seq<FeatureOffer>, peer: Seq<FeatureOffer>)
    requires
        in_id_order(local),
    ensures
        local_outcome(local, peer) matches Ok(features) ==> forall|i: int, j: int|
            #![trigger features[i], features[j]]
            0 <= i < j < features.len() ==> features[i].id.number() < features[j].id.number(),
        local_outcome(local, peer) matches Ok(features) ==> forall|i: int|
            0 <= i < features.len() ==> exists|j: int|
                0 <= j < local.len() && local[j].id == (#[trigger] features[i]).id,
    decreases local.len(),
{
    if local.len() > 0 {
        let shorter = local.drop_last();
        law_features_are_in_id_order(shorter, peer);
        match local_outcome(local, peer) {
            Ok(features) => {
                let earlier = local_outcome(shorter, peer)->Ok_0;
                assert forall|i: int| 0 <= i < features.len() implies exists|j: int|
                    0 <= j < local.len() && local[j].id == (#[trigger] features[i]).id by {
                    if i < earlier.len() {
                        assert(features[i] == earlier[i]);
                        let j = choose|j: int| 0 <= j < shorter.len()
                            && shorter[j].id == earlier[i].id;
                        assert(local[j].id == features[i].id);
                    } else {
                        assert(local[local.len() - 1].id == features[i].id);
                    }
                }
                assert forall|i: int, j: int|
                    #![trigger features[i], features[j]]
                    0 <= i < j < features.len() implies features[i].id.number()
                    < features[j].id.number() by {
                    if j < earlier.len() {
                        assert(features[i] == earlier[i]);
                        assert(features[j] == earlier[j]);
                    } else {
                        assert(features[i] == earlier[i]);
                        let k = choose|k: int| 0 <= k < shorter.len()
                            && shorter[k].id == earlier[i].id;
                        assert(local[k].id.number() < local[local.len() - 1].id.number());
                    }
                }
            },
            Err(_) => {},
        }
    }
}

/// Puts offers in the order of their identifiers; refuses the first that
/// repeats an identifier.
fn collect_offers(offers: &[FeatureOffer]) -> (result: Result<Vec<FeatureOffer>, FeatureId>)
    ensures
        match result {
            Ok(ordered) => first_duplicate(offers@) is None && is_ordered_form(
                ordered@,
                offers@,
            ),
            Err(id) => first_duplicate(offers@) == Some(id),
        },
{
    let mut ordered: Vec<FeatureOffer> = Vec::new();
    let mut index: usize = 0;
    while index < offers.len()
        invariant
            index <= offers@.len(),
            first_duplicate(offers@.take(index as int)) is None,
            is_ordered_form(ordered@, offers@.take(index as int)),
        decreases offers@.len() - index,
    {
        let offer = offers[index];
        let ghost before = offers@.take(index as int);
        let ghost after = offers@.take(index + 1);
        assert(after.drop_last() =~= before);
        let mut place: usize = 0;
        while place < ordered.len() && ordered[place].id.get() < offer.id.get()
            invariant
                place <= ordered@.len(),
                forall|i: int|
                    0 <= i < place ==> (#[trigger] ordered@[i]).id.number() < offer.id.number(),
            decreases ordered@.len() - place,
        {
            place = place + 1;
        }
        if place < ordered.len() && ordered[place].id.get() == offer.id.get() {
            proof {
                assert(ordered@.contains(ordered@[place as int]));
                assert(offered(before, offer.id) is Some);
                lemma_first_duplicate_extends(offers@, index + 1);
            }
            return Err(offer.id);
        }
        let ghost old_ordered = ordered@;
        ordered.insert(place, offer);
        proof {
            lemma_insert_keeps_order(old_ordered, before, offer, place as int);
            assert(ordered@ =~= old_ordered.insert(place as int, offer));
            assert(after =~= before.push(offer));
        }
        index = index + 1;
    }
    assert(offers@.take(index as int) =~= offers@);
    Ok(ordered)
}

proof fn lemma_first_duplicate_extends(offers: Seq<FeatureOffer>, count: int)
    requires
        0 <= count <= offers.len(),
        first_duplicate(offers.take(count)) is Some,
    ensures
        first_duplicate(offers) == first_duplicate(offers.take(count)),
    decreases offers.len(),
{
    if count == offers.len() {
        assert(offers.take(count) =~= offers);
    } else {
        assert(offers.drop_last().take(count) =~= offers.take(count));
        lemma_first_duplicate_extends(offers.drop_last(), count);
    }
}

proof fn lemma_insert_keeps_order(
    ordered: Seq<FeatureOffer>,
    offers: Seq<FeatureOffer>,
    offer: FeatureOffer,
    place: int,
)
    requires
        is_ordered_form(ordered, offers),
        first_duplicate(offers) is None,
        0 <= place <= ordered.len(),
        forall|i: int| 0 <= i < place ==> (#[trigger] ordered[i]).id.number() < offer.id.number(),
        place < ordered.len() ==> ordered[place].id.number() > offer.id.number(),
    ensures
        first_duplicate(offers.push(offer)) is None,
        is_ordered_form(ordered.insert(place, offer), offers.push(offer)),
{
    let longer = offers.push(offer);
    let inserted = ordered.insert(place, offer);
    assert(longer.drop_last() =~= offers);
    lemma_offered_has_id(offers, offer.id);
    if offered(offers, offer.id) is Some {
        let held = offered(offers, offer.id)->0;
        assert(ordered.contains(held));
        let index = choose|index: int| 0 <= index < ordered.len() && ordered[index] == held;
        if index > place {
            assert(ordered[place].id.number() < ordered[index].id.number());
        }
        assert(false);
    }
    assert forall|i: int, j: int|
        #![trigger inserted[i], inserted[j]]
        0 <= i < j < inserted.len() implies inserted[i].id.number() < inserted[j].id.number() by {
        let a = if i < place {
            i
        } else {
            i - 1
        };
        let b = if j < place {
            j
        } else {
            j - 1
        };
        if i == place {
            assert(inserted[j] == ordered[b]);
            assert(place <= b);
            assert(ordered[place].id.number() <= ordered[b].id.number());
        } else if j == place {
            assert(inserted[i] == ordered[a]);
        } else {
            assert(inserted[i] == ordered[a]);
            assert(inserted[j] == ordered[b]);
        }
    }
    assert forall|other: FeatureOffer|
        inserted.contains(other) <==> #[trigger] offered(longer, other.id) == Some(other) by {
        if inserted.contains(other) {
            let index = choose|index: int| 0 <= index < inserted.len() && inserted[index] == other;
            if index != place {
                let a = if index < place {
                    index
                } else {
                    index - 1
                };
                assert(ordered[a] == other);
                assert(ordered.contains(other));
                assert(offered(offers, other.id) == Some(other));
            }
        }
        if offered(longer, other.id) == Some(other) {
            if other.id == offer.id {
                assert(inserted[place] == other);
            } else {
                assert(ordered.contains(other));
                let a = choose|a: int| 0 <= a < ordered.len() && ordered[a] == other;
                if a < place {
                    assert(inserted[a] == other);
                } else {
                    assert(inserted[a + 1] == other);
                }
            }
        }
    }
}

/// The offer of `id` in `offers`.
fn find_offer(offers: &Vec<FeatureOffer>, id: FeatureId) -> (offer: Option<FeatureOffer>)
    ensures
        offer == offered(offers@, id),
{
    let mut left: usize = offers.len();
    assert(offers@.take(left as int) =~= offers@);
    while left > 0
        invariant
            left <= offers@.len(),
            offered(offers@, id) == offered(offers@.take(left as int), id),
        decreases left,
    {
        let ghost rest = offers@.take(left as int);
        if offers[left - 1].id == id {
            assert(rest.last() == offers@[left - 1]);
            return Some(offers[left - 1]);
        }
        assert(rest.drop_last() =~= offers@.take(left - 1));
        left = left - 1;
    }
    None
}

/// Negotiates independent features in stable identifier order.
pub fn negotiate_features(local: &[FeatureOffer], peer: &[FeatureOffer]) -> (result: Result<
    Vec<NegotiatedFeature>,
    FeatureNegotiationError,
>)
    ensures
        negotiation_result(local@, peer@, result_view(result)),
{
    match collect_offers(local) {
        Err(id) => Err(FeatureNegotiationError::DuplicateLocalFeature(id)),
        Ok(ordered_local) => match collect_offers(peer) {
            Err(id) => Err(FeatureNegotiationError::DuplicatePeerFeature(id)),
            Ok(ordered_peer) => negotiate_ordered(&ordered_local, &ordered_peer),
        },
    }
}

/// A result with the features as a sequence.
pub open spec fn result_view(
    result: Result<Vec<NegotiatedFeature>, FeatureNegotiationError>,
) -> Result<Seq<NegotiatedFeature>, FeatureNegotiationError> {
    match result {
        Ok(features) => Ok(features@),
        Err(error) => Err(error),
    }
}

fn negotiate_ordered(local: &Vec<FeatureOffer>, peer: &Vec<FeatureOffer>) -> (result: Result<
    Vec<NegotiatedFeature>,
    FeatureNegotiationError,
>)
    ensures
        result_view(result) == outcome(local@, peer@),
{
    let mut negotiated: Vec<NegotiatedFeature> = Vec::new();
    let mut index: usize = 0;
    while index < local.len()
        invariant
            index <= local@.len(),
            local_outcome(local@.take(index as int), peer@) == Ok::<
                Seq<NegotiatedFeature>,
                FeatureNegotiationError,
            >(negotiated@),
        decreases local@.len() - index,
    {
        let offer = local[index];
        let ghost next = local@.take(index + 1);
        assert(next.drop_last() =~= local@.take(index as int));
        assert(next.last() == offer);
        match find_offer(peer, offer.id) {
            None => {
                if offer.requirement == FeatureRequirement::Required {
                    proof {
                        lemma_local_error_stays(local@, peer@, index + 1);
                    }
                    return Err(FeatureNegotiationError::MissingRequiredLocalFeature(offer.id));
                }
            },
            Some(other) => {
                match offer.versions.highest_common(other.versions) {
                    Some(version) => {
                        negotiated.push(NegotiatedFeature { id: offer.id, version });
                    },
                    None => {
                        if offer.requirement == FeatureRequirement::Required || other.requirement
                            == FeatureRequirement::Required {
                            proof {
                                lemma_local_error_stays(local@, peer@, index + 1);
                            }
                            return Err(
                                FeatureNegotiationError::IncompatibleRequiredFeature(offer.id),
                            );
                        }
                    },
                }
            },
        }
        index = index + 1;
    }
    assert(local@.take(index as int) =~= local@);
    index = 0;
    while index < peer.len()
        invariant
            index <= peer@.len(),
            peer_obstacle(peer@.take(index as int), local@) is None,
            local_outcome(local@, peer@) is Ok,
        decreases peer@.len() - index,
    {
        let offer = peer[index];
        let ghost next = peer@.take(index + 1);
        assert(next.drop_last() =~= peer@.take(index as int));
        assert(next.last() == offer);
        if offer.requirement == FeatureRequirement::Required && find_offer(
            local,
            offer.id,
        ).is_none() {
            proof {
                lemma_peer_obstacle_stays(peer@, local@, index + 1);
            }
            return Err(FeatureNegotiationError::MissingRequiredPeerFeature(offer.id));
        }
        index = index + 1;
    }
    assert(peer@.take(index as int) =~= peer@);
    Ok(negotiated)
}

proof fn lemma_local_error_stays(ordered: Seq<FeatureOffer>, peer: Seq<FeatureOffer>, count: int)
    requires
        0 <= count <= ordered.len(),
        local_outcome(ordered.take(count), peer) is Err,
    ensures
        local_outcome(ordered, peer) == local_outcome(ordered.take(count), peer),
    decreases ordered.len(),
{
    if count == ordered.len() {
        assert(ordered.take(count) =~= ordered);
    } else {
        assert(ordered.drop_last().take(count) =~= ordered.take(count));
        lemma_local_error_stays(ordered.drop_last(), peer, count);
    }
}

proof fn lemma_peer_obstacle_stays(
    ordered: Seq<FeatureOffer>,
    local: Seq<FeatureOffer>,
    count: int,
)
    requires
        0 <= count <= ordered.len(),
        peer_obstacle(ordered.take(count), local) is Some,
    ensures
        peer_obstacle(ordered, local) == peer_obstacle(ordered.take(count), local),
    decreases ordered.len(),
{
    if count == ordered.len() {
        assert(ordered.take(count) =~= ordered);
    } else {
        assert(ordered.drop_last().take(count) =~= ordered.take(count));
        lemma_peer_obstacle_stays(ordered.drop_last(), local, count);
    }
}

/// No identifier is offered twice.
pub open spec fn are_distinct(offers: Seq<FeatureOffer>) -> bool {
    forall|i: int, j: int|
        #![trigger offers[i], offers[j]]
        0 <= i < j < offers.len() ==> offers[i].id != offers[j].id
}

pub open spec fn offers_id(offers: Seq<FeatureOffer>, id: FeatureId) -> bool {
    exists|i: int| 0 <= i < offers.len() && (#[trigger] offers[i]).id == id
}

/// The other side offers whatever one side requires.
pub open spec fn has_required(offers: Seq<FeatureOffer>, other: Seq<FeatureOffer>) -> bool {
    forall|i: int|
        0 <= i < offers.len() && (#[trigger] offers[i]).requirement == FeatureRequirement::Required
            ==> offers_id(other, offers[i].id)
}

/// What either side requires has a version that both know.
pub open spec fn required_have_versions(
    local: Seq<FeatureOffer>,
    peer: Seq<FeatureOffer>,
) -> bool {
    forall|i: int, j: int|
        #![trigger local[i], peer[j]]
        0 <= i < local.len() && 0 <= j < peer.len() && local[i].id == peer[j].id && (
        local[i].requirement == FeatureRequirement::Required || peer[j].requirement
            == FeatureRequirement::Required) ==> local[i].versions.common(peer[j].versions) is Some
}

/// Two sides can agree on features.
pub open spec fn are_compatible(local: Seq<FeatureOffer>, peer: Seq<FeatureOffer>) -> bool {
    &&& are_distinct(local)
    &&& are_distinct(peer)
    &&& has_required(local, peer)
    &&& has_required(peer, local)
    &&& required_have_versions(local, peer)
}

/// Both sides offer the feature, and its version is the newest that both know.
pub open spec fn is_shared(
    local: Seq<FeatureOffer>,
    peer: Seq<FeatureOffer>,
    feature: NegotiatedFeature,
) -> bool {
    exists|i: int, j: int|
        #![trigger local[i], peer[j]]
        0 <= i < local.len() && 0 <= j < peer.len() && local[i].id == feature.id && peer[j].id
            == feature.id && local[i].versions.common(peer[j].versions) == Some(feature.version)
}

pub open spec fn ascend_by_id(features: Seq<NegotiatedFeature>) -> bool {
    forall|i: int, j: int|
        #![trigger features[i], features[j]]
        0 <= i < j < features.len() ==> features[i].id.number() < features[j].id.number()
}

/// The offer of an identifier is found, and is the only one, in offers none of
/// which is repeated.
proof fn lemma_offered_is_the_one(offers: Seq<FeatureOffer>, index: int)
    requires
        are_distinct(offers),
        0 <= index < offers.len(),
    ensures
        offered(offers, offers[index].id) == Some(offers[index]),
    decreases offers.len(),
{
    if index < offers.len() - 1 {
        assert(offers[index].id != offers[offers.len() - 1].id);
        lemma_offered_is_the_one(offers.drop_last(), index);
    }
}

proof fn lemma_distinct(offers: Seq<FeatureOffer>)
    ensures
        first_duplicate(offers) is None <==> are_distinct(offers),
    decreases offers.len(),
{
    if offers.len() > 0 {
        let shorter = offers.drop_last();
        let last = offers.last();
        lemma_distinct(shorter);
        lemma_offered_has_id(shorter, last.id);
        if first_duplicate(shorter) is None {
            if offered(shorter, last.id) is Some {
                let held = offered(shorter, last.id)->0;
                let i = choose|i: int| 0 <= i < shorter.len() && shorter[i] == held;
                assert(offers[i].id == offers[offers.len() - 1].id);
            } else {
                assert forall|i: int, j: int|
                    #![trigger offers[i], offers[j]]
                    0 <= i < j < offers.len() implies offers[i].id != offers[j].id by {
                    assert(offers[i] == shorter[i]);
                    if j < shorter.len() {
                        assert(offers[j] == shorter[j]);
                    } else {
                        lemma_offered_is_the_one(shorter, i);
                    }
                }
            }
        } else if are_distinct(offers) {
            assert forall|i: int, j: int|
                #![trigger shorter[i], shorter[j]]
                0 <= i < j < shorter.len() implies shorter[i].id != shorter[j].id by {
                assert(offers[i].id != offers[j].id);
            }
        }
    }
}

proof fn lemma_offered(offers: Seq<FeatureOffer>, id: FeatureId)
    requires
        are_distinct(offers),
    ensures
        offered(offers, id) is Some <==> offers_id(offers, id),
        offered(offers, id) matches Some(offer) ==> offer.id == id && offers.contains(offer),
{
    lemma_offered_has_id(offers, id);
    if offered(offers, id) is Some {
        let i = choose|i: int| 0 <= i < offers.len() && offers[i] == offered(offers, id)->0;
        assert(offers[i].id == id);
    }
    if offers_id(offers, id) {
        let i = choose|i: int| 0 <= i < offers.len() && (#[trigger] offers[i]).id == id;
        lemma_offered_is_the_one(offers, i);
    }
}

/// Offers in order are distinct, and are the offers that they are an order of.
proof fn lemma_ordered_form(ordered: Seq<FeatureOffer>, offers: Seq<FeatureOffer>)
    requires
        is_ordered_form(ordered, offers),
        are_distinct(offers),
    ensures
        are_distinct(ordered),
        forall|offer: FeatureOffer| #[trigger] ordered.contains(offer) <==> offers.contains(offer),
        forall|id: FeatureId| #[trigger] offered(ordered, id) == offered(offers, id),
{
    assert forall|offer: FeatureOffer| #[trigger] ordered.contains(offer) implies offers.contains(
        offer,
    ) by {
        assert(offered(offers, offer.id) == Some(offer));
        lemma_offered_has_id(offers, offer.id);
    }
    assert forall|offer: FeatureOffer| offers.contains(offer) implies #[trigger] ordered.contains(
        offer,
    ) by {
        let i = choose|i: int| 0 <= i < offers.len() && offers[i] == offer;
        lemma_offered_is_the_one(offers, i);
        assert(offered(offers, offer.id) == Some(offer));
    }
    assert forall|id: FeatureId| #[trigger] offered(ordered, id) == offered(offers, id) by {
        lemma_offered(ordered, id);
        lemma_offered(offers, id);
        if offered(ordered, id) is Some {
            let offer = offered(ordered, id)->0;
            assert(ordered.contains(offer));
            assert(offered(offers, offer.id) == Some(offer));
        } else if offered(offers, id) is Some {
            let offer = offered(offers, id)->0;
            assert(offered(offers, offer.id) == Some(offer));
            assert(ordered.contains(offer));
            let i = choose|i: int| 0 <= i < ordered.len() && ordered[i] == offer;
            assert(ordered[i].id == id);
        }
    }
}

/// A feature that comes of one of the local offers.
spec fn comes_of(
    ordered: Seq<FeatureOffer>,
    peer: Seq<FeatureOffer>,
    feature: NegotiatedFeature,
) -> bool {
    exists|i: int|
        {
            &&& 0 <= i < ordered.len()
            &&& (#[trigger] ordered[i]).id == feature.id
            &&& offered(peer, feature.id) matches Some(other) && ordered[i].versions.common(
                other.versions,
            ) == Some(feature.version)
        }
}

proof fn lemma_local_outcome(ordered: Seq<FeatureOffer>, peer: Seq<FeatureOffer>)
    ensures
        local_outcome(ordered, peer) is Ok <==> forall|i: int|
            0 <= i < ordered.len() ==> local_obstacle(
                #[trigger] ordered[i],
                offered(peer, ordered[i].id),
            ) is None,
        local_outcome(ordered, peer) matches Ok(features) ==> forall|feature: NegotiatedFeature|
            #[trigger] features.contains(feature) <==> comes_of(ordered, peer, feature),
    decreases ordered.len(),
{
    if ordered.len() > 0 {
        let shorter = ordered.drop_last();
        let last = ordered.last();
        lemma_local_outcome(shorter, peer);
        assert(ordered[ordered.len() - 1] == last);
        if local_outcome(ordered, peer) is Ok {
            assert forall|i: int| 0 <= i < ordered.len() implies local_obstacle(
                #[trigger] ordered[i],
                offered(peer, ordered[i].id),
            ) is None by {
                if i < shorter.len() {
                    assert(shorter[i] == ordered[i]);
                }
            }
            let before = local_outcome(shorter, peer)->Ok_0;
            let features = local_outcome(ordered, peer)->Ok_0;
            assert forall|feature: NegotiatedFeature|
                #[trigger] features.contains(feature) <==> comes_of(ordered, peer, feature) by {
                if features.contains(feature) {
                    let k = choose|k: int| 0 <= k < features.len() && features[k] == feature;
                    if k < before.len() {
                        assert(before[k] == feature);
                        assert(before.contains(feature));
                        let i = choose|i: int|
                            {
                                &&& 0 <= i < shorter.len()
                                &&& (#[trigger] shorter[i]).id == feature.id
                                &&& offered(peer, feature.id) matches Some(other)
                                    && shorter[i].versions.common(other.versions) == Some(
                                    feature.version,
                                )
                            };
                        assert(ordered[i] == shorter[i]);
                    }
                }
                if comes_of(ordered, peer, feature) {
                    let i = choose|i: int|
                        {
                            &&& 0 <= i < ordered.len()
                            &&& (#[trigger] ordered[i]).id == feature.id
                            &&& offered(peer, feature.id) matches Some(other)
                                && ordered[i].versions.common(other.versions) == Some(
                                feature.version,
                            )
                        };
                    if i < shorter.len() {
                        assert(shorter[i] == ordered[i]);
                        assert(before.contains(feature));
                        let k = choose|k: int| 0 <= k < before.len() && before[k] == feature;
                        assert(features[k] == feature);
                    } else {
                        assert(features[before.len() as int] == feature);
                    }
                }
            }
        } else if local_outcome(shorter, peer) is Err {
            let i = choose|i: int|
                0 <= i < shorter.len() && local_obstacle(
                    #[trigger] shorter[i],
                    offered(peer, shorter[i].id),
                ) is Some;
            assert(ordered[i] == shorter[i]);
        }
    }
}

proof fn lemma_peer_obstacle(ordered: Seq<FeatureOffer>, local: Seq<FeatureOffer>)
    ensures
        peer_obstacle(ordered, local) is None <==> forall|i: int|
            0 <= i < ordered.len() && (#[trigger] ordered[i]).requirement
                == FeatureRequirement::Required ==> offered(local, ordered[i].id) is Some,
    decreases ordered.len(),
{
    if ordered.len() > 0 {
        let shorter = ordered.drop_last();
        lemma_peer_obstacle(shorter, local);
        assert(ordered[ordered.len() - 1] == ordered.last());
        if peer_obstacle(shorter, local) is None {
            assert forall|i: int|
                0 <= i < shorter.len() && (#[trigger] ordered[i]).requirement
                    == FeatureRequirement::Required implies offered(local, ordered[i].id) is Some by {
                assert(shorter[i] == ordered[i]);
            }
        } else {
            let i = choose|i: int|
                0 <= i < shorter.len() && (#[trigger] shorter[i]).requirement
                    == FeatureRequirement::Required && offered(local, shorter[i].id) is None;
            assert(ordered[i] == shorter[i]);
        }
    }
}

/// Two sides agree exactly where they are compatible, and then on exactly the
/// features that they share, in the order of their identifiers.
pub proof fn law_shared_features_are_negotiated(
    local: Seq<FeatureOffer>,
    peer: Seq<FeatureOffer>,
    result: Result<Seq<NegotiatedFeature>, FeatureNegotiationError>,
)
    requires
        negotiation_result(local, peer, result),
    ensures
        result is Ok <==> are_compatible(local, peer),
        result matches Ok(features) ==> {
            &&& ascend_by_id(features)
            &&& forall|feature: NegotiatedFeature| #[trigger]
                features.contains(feature) <==> is_shared(local, peer, feature)
        },
{
    lemma_distinct(local);
    lemma_distinct(peer);
    if are_distinct(local) && are_distinct(peer) {
        let (here, there) = choose|here: Seq<FeatureOffer>, there: Seq<FeatureOffer>|
            #![trigger is_ordered_form(here, local), is_ordered_form(there, peer)]
            is_ordered_form(here, local) && is_ordered_form(there, peer) && result == outcome(
                here,
                there,
            );
        lemma_ordered_form(here, local);
        lemma_ordered_form(there, peer);
        lemma_local_outcome(here, there);
        lemma_peer_obstacle(there, here);
        law_features_are_in_id_order(here, there);
        lemma_compatible(local, peer, here, there);
        if local_outcome(here, there) is Ok {
            let features = local_outcome(here, there)->Ok_0;
            assert forall|feature: NegotiatedFeature|
                #[trigger] features.contains(feature) <==> is_shared(local, peer, feature) by {
                lemma_shared(local, peer, here, there, feature);
            }
        }
    }
}

proof fn lemma_compatible(
    local: Seq<FeatureOffer>,
    peer: Seq<FeatureOffer>,
    here: Seq<FeatureOffer>,
    there: Seq<FeatureOffer>,
)
    requires
        are_distinct(local),
        are_distinct(peer),
        is_ordered_form(here, local),
        is_ordered_form(there, peer),
    ensures
        outcome(here, there) is Ok <==> are_compatible(local, peer),
{
    lemma_ordered_form(here, local);
    lemma_ordered_form(there, peer);
    lemma_local_outcome(here, there);
    lemma_peer_obstacle(there, here);
    if outcome(here, there) is Ok {
        assert forall|i: int|
            0 <= i < local.len() && (#[trigger] local[i]).requirement
                == FeatureRequirement::Required implies offers_id(peer, local[i].id) by {
            assert(local.contains(local[i]));
            assert(here.contains(local[i]));
            let k = choose|k: int| 0 <= k < here.len() && here[k] == local[i];
            assert(local_obstacle(here[k], offered(there, here[k].id)) is None);
            lemma_offered(peer, local[i].id);
        }
        assert forall|j: int|
            0 <= j < peer.len() && (#[trigger] peer[j]).requirement
                == FeatureRequirement::Required implies offers_id(local, peer[j].id) by {
            assert(peer.contains(peer[j]));
            assert(there.contains(peer[j]));
            let k = choose|k: int| 0 <= k < there.len() && there[k] == peer[j];
            assert(offered(here, there[k].id) is Some);
            lemma_offered(local, peer[j].id);
        }
        assert forall|i: int, j: int|
            #![trigger local[i], peer[j]]
            0 <= i < local.len() && 0 <= j < peer.len() && local[i].id == peer[j].id && (
            local[i].requirement == FeatureRequirement::Required || peer[j].requirement
                == FeatureRequirement::Required) implies local[i].versions.common(
            peer[j].versions,
        ) is Some by {
            assert(local.contains(local[i]));
            assert(here.contains(local[i]));
            let k = choose|k: int| 0 <= k < here.len() && here[k] == local[i];
            lemma_offered_is_the_one(peer, j);
            assert(offered(there, here[k].id) == Some(peer[j]));
            assert(local_obstacle(here[k], offered(there, here[k].id)) is None);
        }
    }
    if are_compatible(local, peer) {
        assert forall|k: int| 0 <= k < here.len() implies local_obstacle(
            #[trigger] here[k],
            offered(there, here[k].id),
        ) is None by {
            assert(here.contains(here[k]));
            assert(local.contains(here[k]));
            let i = choose|i: int| 0 <= i < local.len() && local[i] == here[k];
            lemma_offered(peer, here[k].id);
            if offered(peer, here[k].id) is Some {
                let other = offered(peer, here[k].id)->0;
                let j = choose|j: int| 0 <= j < peer.len() && peer[j] == other;
                assert(local[i].id == peer[j].id);
            } else {
                assert(local[i].requirement != FeatureRequirement::Required);
            }
        }
        assert forall|k: int|
            0 <= k < there.len() && (#[trigger] there[k]).requirement
                == FeatureRequirement::Required implies offered(here, there[k].id) is Some by {
            assert(there.contains(there[k]));
            assert(peer.contains(there[k]));
            let j = choose|j: int| 0 <= j < peer.len() && peer[j] == there[k];
            assert(offers_id(local, peer[j].id));
            lemma_offered(local, peer[j].id);
        }
    }
}

proof fn lemma_shared(
    local: Seq<FeatureOffer>,
    peer: Seq<FeatureOffer>,
    here: Seq<FeatureOffer>,
    there: Seq<FeatureOffer>,
    feature: NegotiatedFeature,
)
    requires
        are_distinct(local),
        are_distinct(peer),
        is_ordered_form(here, local),
        is_ordered_form(there, peer),
    ensures
        comes_of(here, there, feature) <==> is_shared(local, peer, feature),
{
    lemma_ordered_form(here, local);
    lemma_ordered_form(there, peer);
    lemma_offered(peer, feature.id);
    if comes_of(here, there, feature) {
        let k = choose|k: int|
            {
                &&& 0 <= k < here.len()
                &&& (#[trigger] here[k]).id == feature.id
                &&& offered(there, feature.id) matches Some(other) && here[k].versions.common(
                    other.versions,
                ) == Some(feature.version)
            };
        assert(here.contains(here[k]));
        assert(local.contains(here[k]));
        let i = choose|i: int| 0 <= i < local.len() && local[i] == here[k];
        let other = offered(peer, feature.id)->0;
        let j = choose|j: int| 0 <= j < peer.len() && peer[j] == other;
        assert(local[i].id == feature.id && peer[j].id == feature.id);
    }
    if is_shared(local, peer, feature) {
        let (i, j) = choose|i: int, j: int|
            #![trigger local[i], peer[j]]
            0 <= i < local.len() && 0 <= j < peer.len() && local[i].id == feature.id && peer[j].id
                == feature.id && local[i].versions.common(peer[j].versions) == Some(
                feature.version,
            );
        assert(local.contains(local[i]));
        assert(here.contains(local[i]));
        let k = choose|k: int| 0 <= k < here.len() && here[k] == local[i];
        lemma_offered_is_the_one(peer, j);
        assert(offered(there, feature.id) == Some(peer[j]));
        assert(here[k].id == feature.id);
    }
}

/// Both ends of a connection come to the same features, or neither to any.
pub proof fn law_both_ends_negotiate_the_same(
    local: Seq<FeatureOffer>,
    peer: Seq<FeatureOffer>,
    here: Result<Seq<NegotiatedFeature>, FeatureNegotiationError>,
    there: Result<Seq<NegotiatedFeature>, FeatureNegotiationError>,
)
    requires
        negotiation_result(local, peer, here),
        negotiation_result(peer, local, there),
    ensures
        here is Ok <==> there is Ok,
        here is Ok ==> here == there,
{
    law_shared_features_are_negotiated(local, peer, here);
    law_shared_features_are_negotiated(peer, local, there);
    assert(required_have_versions(local, peer) <==> required_have_versions(peer, local)) by {
        lemma_versions_both_ways(local, peer);
        lemma_versions_both_ways(peer, local);
    }
    if here is Ok {
        let (left, right) = (here->Ok_0, there->Ok_0);
        assert forall|feature: NegotiatedFeature|
            #[trigger] left.contains(feature) <==> right.contains(feature) by {
            lemma_shared_both_ways(local, peer, feature);
            lemma_shared_both_ways(peer, local, feature);
        }
        lemma_same_features(left, right);
    }
}

proof fn lemma_versions_both_ways(local: Seq<FeatureOffer>, peer: Seq<FeatureOffer>)
    ensures
        required_have_versions(local, peer) ==> required_have_versions(peer, local),
{
    if required_have_versions(local, peer) {
        assert forall|j: int, i: int|
            #![trigger peer[j], local[i]]
            0 <= j < peer.len() && 0 <= i < local.len() && peer[j].id == local[i].id && (
            peer[j].requirement == FeatureRequirement::Required || local[i].requirement
                == FeatureRequirement::Required) implies peer[j].versions.common(
            local[i].versions,
        ) is Some by {
            assert(local[i].versions.common(peer[j].versions) is Some);
        }
    }
}

proof fn lemma_shared_both_ways(
    local: Seq<FeatureOffer>,
    peer: Seq<FeatureOffer>,
    feature: NegotiatedFeature,
)
    ensures
        is_shared(local, peer, feature) ==> is_shared(peer, local, feature),
{
    if is_shared(local, peer, feature) {
        let (i, j) = choose|i: int, j: int|
            #![trigger local[i], peer[j]]
            0 <= i < local.len() && 0 <= j < peer.len() && local[i].id == feature.id && peer[j].id
                == feature.id && local[i].versions.common(peer[j].versions) == Some(
                feature.version,
            );
        assert(peer[j].versions.common(local[i].versions) == Some(feature.version));
    }
}

proof fn lemma_same_features(left: Seq<NegotiatedFeature>, right: Seq<NegotiatedFeature>)
    requires
        ascend_by_id(left),
        ascend_by_id(right),
        forall|feature: NegotiatedFeature| #[trigger]
            left.contains(feature) <==> right.contains(feature),
    ensures
        left == right,
    decreases left.len(),
{
    if left.len() == 0 {
        if right.len() > 0 {
            assert(right.contains(right[0]));
            assert(left.contains(right[0]));
        }
        assert(left =~= right);
    } else {
        let last = left.last();
        assert(left.contains(left[left.len() - 1]));
        assert(right.contains(last));
        assert(right.contains(right[right.len() - 1]));
        assert(left.contains(right.last()));
        let in_left = choose|index: int| 0 <= index < left.len() && left[index] == right.last();
        let in_right = choose|index: int| 0 <= index < right.len() && right[index] == last;
        assert(in_left == left.len() - 1);
        assert(right.last() == last);
        let shorter_left = left.drop_last();
        let shorter_right = right.drop_last();
        assert forall|feature: NegotiatedFeature|
            #[trigger] shorter_left.contains(feature) <==> shorter_right.contains(feature) by {
            lemma_among_the_first(left, right, feature);
            lemma_among_the_first(right, left, feature);
        }
        lemma_same_features(shorter_left, shorter_right);
        assert(left =~= shorter_left.push(last));
        assert(right =~= shorter_right.push(last));
    }
}

proof fn lemma_among_the_first(
    left: Seq<NegotiatedFeature>,
    right: Seq<NegotiatedFeature>,
    feature: NegotiatedFeature,
)
    requires
        ascend_by_id(left),
        left.len() > 0,
        right.len() > 0,
        left.last() == right.last(),
        left.contains(feature) ==> right.contains(feature),
    ensures
        left.drop_last().contains(feature) ==> right.drop_last().contains(feature),
{
    if left.drop_last().contains(feature) {
        let index = choose|index: int|
            0 <= index < left.drop_last().len() && left.drop_last()[index] == feature;
        assert(left[index] == feature);
        assert(left[index].id.number() < left[left.len() - 1].id.number());
        let other = choose|other: int| 0 <= other < right.len() && right[other] == feature;
        assert(other < right.len() - 1);
        assert(right.drop_last()[other] == feature);
    }
}

/// Two versions go together where their major parts are the same: the version
/// spoken has that major part and the lower of the two minor parts. Otherwise
/// both are named.
pub proof fn law_the_lower_minor_version_is_spoken(left: ProtocolVersion, right: ProtocolVersion)
    ensures
        left.major == right.major <==> left.common(right) is Ok,
        left.common(right) matches Ok(version) ==> {
            &&& version.major == left.major
            &&& version.major == right.major
            &&& version.minor <= left.minor
            &&& version.minor <= right.minor
            &&& version.minor == left.minor || version.minor == right.minor
        },
        left.common(right) matches Err(mismatch) ==> mismatch.local == left && mismatch.peer
            == right,
{
}

/// The version that two ranges share is the lower of their newest, where that
/// is not older than the oldest of either.
pub proof fn law_shared_versions(left: FeatureVersionRange, right: FeatureVersionRange)
    requires
        left.oldest <= left.newest,
        right.oldest <= right.newest,
    ensures
        left.common(right) is Some <==> left.oldest <= right.newest && right.oldest <= left.newest,
        left.common(right) matches Some(version) ==> {
            &&& left.oldest <= version <= left.newest
            &&& right.oldest <= version <= right.newest
            &&& version == left.newest || version == right.newest
        },
{
}

proof fn lemma_named_local_obstacle(
    ordered: Seq<FeatureOffer>,
    peer: Seq<FeatureOffer>,
    error: FeatureNegotiationError,
)
    requires
        local_outcome(ordered, peer) == Err::<Seq<NegotiatedFeature>, _>(error),
    ensures
        exists|i: int|
            0 <= i < ordered.len() && local_obstacle(
                #[trigger] ordered[i],
                offered(peer, ordered[i].id),
            ) == Some(error),
    decreases ordered.len(),
{
    let shorter = ordered.drop_last();
    if ordered.len() > 0 && local_outcome(shorter, peer) is Err {
        lemma_named_local_obstacle(shorter, peer, error);
        let i = choose|i: int|
            0 <= i < shorter.len() && local_obstacle(
                #[trigger] shorter[i],
                offered(peer, shorter[i].id),
            ) == Some(error);
        assert(ordered[i] == shorter[i]);
    } else {
        assert(ordered[ordered.len() - 1] == ordered.last());
    }
}

proof fn lemma_named_peer_obstacle(
    ordered: Seq<FeatureOffer>,
    local: Seq<FeatureOffer>,
    error: FeatureNegotiationError,
)
    requires
        peer_obstacle(ordered, local) == Some(error),
    ensures
        exists|i: int|
            0 <= i < ordered.len() && (#[trigger] ordered[i]).requirement
                == FeatureRequirement::Required && offered(local, ordered[i].id) is None && error
                == FeatureNegotiationError::MissingRequiredPeerFeature(ordered[i].id),
    decreases ordered.len(),
{
    let shorter = ordered.drop_last();
    if peer_obstacle(shorter, local) is Some {
        lemma_named_peer_obstacle(shorter, local, error);
        let i = choose|i: int|
            0 <= i < shorter.len() && (#[trigger] shorter[i]).requirement
                == FeatureRequirement::Required && offered(local, shorter[i].id) is None && error
                == FeatureNegotiationError::MissingRequiredPeerFeature(shorter[i].id);
        assert(ordered[i] == shorter[i]);
    } else {
        assert(ordered[ordered.len() - 1] == ordered.last());
    }
}

proof fn lemma_named_duplicate(offers: Seq<FeatureOffer>, id: FeatureId)
    requires
        first_duplicate(offers) == Some(id),
    ensures
        exists|i: int, j: int|
            0 <= i < j < offers.len() && (#[trigger] offers[i]).id == id && (
            #[trigger] offers[j]).id == id,
    decreases offers.len(),
{
    let shorter = offers.drop_last();
    if first_duplicate(shorter) is Some {
        lemma_named_duplicate(shorter, id);
        let (i, j) = choose|i: int, j: int|
            0 <= i < j < shorter.len() && (#[trigger] shorter[i]).id == id && (
            #[trigger] shorter[j]).id == id;
        assert(offers[i] == shorter[i] && offers[j] == shorter[j]);
    } else {
        lemma_offered_has_id(shorter, id);
        let held = offered(shorter, id)->0;
        let i = choose|i: int| 0 <= i < shorter.len() && shorter[i] == held;
        assert(offers[i] == held);
        assert(offers[offers.len() - 1].id == id);
    }
}

/// What each refusal says: a feature that one end offers twice, a feature that
/// one end requires and the other does not offer, or a feature that both offer,
/// of which one requires it, and of which they share no version.
pub proof fn law_refusals_name_their_feature(
    local: Seq<FeatureOffer>,
    peer: Seq<FeatureOffer>,
    result: Result<Seq<NegotiatedFeature>, FeatureNegotiationError>,
    error: FeatureNegotiationError,
)
    requires
        negotiation_result(local, peer, result),
        result == Err::<Seq<NegotiatedFeature>, _>(error),
    ensures
        match error {
            FeatureNegotiationError::DuplicateLocalFeature(id) => exists|i: int, j: int|
                0 <= i < j < local.len() && (#[trigger] local[i]).id == id && (
                #[trigger] local[j]).id == id,
            FeatureNegotiationError::DuplicatePeerFeature(id) => exists|i: int, j: int|
                0 <= i < j < peer.len() && (#[trigger] peer[i]).id == id && (
                #[trigger] peer[j]).id == id,
            FeatureNegotiationError::MissingRequiredLocalFeature(id) => is_required_alone(
                local,
                peer,
                id,
            ),
            FeatureNegotiationError::MissingRequiredPeerFeature(id) => is_required_alone(
                peer,
                local,
                id,
            ),
            FeatureNegotiationError::IncompatibleRequiredFeature(id) => exists|i: int, j: int|
                0 <= i < local.len() && 0 <= j < peer.len() && (#[trigger] local[i]).id == id && (
                #[trigger] peer[j]).id == id && (local[i].requirement is Required
                    || peer[j].requirement is Required) && local[i].versions.common(
                    peer[j].versions,
                ) is None,
        },
{
    lemma_distinct(local);
    lemma_distinct(peer);
    if first_duplicate(local) is Some {
        lemma_named_duplicate(local, first_duplicate(local)->0);
    } else if first_duplicate(peer) is Some {
        lemma_named_duplicate(peer, first_duplicate(peer)->0);
    } else {
        let (here, there) = choose|here: Seq<FeatureOffer>, there: Seq<FeatureOffer>|
            #![trigger is_ordered_form(here, local), is_ordered_form(there, peer)]
            is_ordered_form(here, local) && is_ordered_form(there, peer) && result == outcome(
                here,
                there,
            );
        if local_outcome(here, there) is Err {
            lemma_named_local_obstacle(here, there, error);
            let k = choose|k: int|
                0 <= k < here.len() && local_obstacle(
                    #[trigger] here[k],
                    offered(there, here[k].id),
                ) == Some(error);
            let offer = here[k];
            lemma_ordered_form(here, local);
            lemma_ordered_form(there, peer);
            assert(here.contains(offer));
            lemma_offered_has_id(local, offer.id);
            assert(offered(local, offer.id) == Some(offer));
            let i = choose|i: int| 0 <= i < local.len() && local[i] == offer;
            assert(local[i].id == offer.id);
            lemma_offered_has_id(peer, offer.id);
            lemma_offered(peer, offer.id);
            if offered(peer, offer.id) is Some {
                let other = offered(peer, offer.id)->0;
                let j = choose|j: int| 0 <= j < peer.len() && peer[j] == other;
                assert(peer[j].id == offer.id);
            }
        } else {
            lemma_named_peer_obstacle(there, here, error);
            let k = choose|k: int|
                0 <= k < there.len() && (#[trigger] there[k]).requirement
                    == FeatureRequirement::Required && offered(here, there[k].id) is None && error
                    == FeatureNegotiationError::MissingRequiredPeerFeature(there[k].id);
            let offer = there[k];
            lemma_ordered_form(here, local);
            lemma_ordered_form(there, peer);
            assert(there.contains(offer));
            lemma_offered_has_id(peer, offer.id);
            assert(offered(peer, offer.id) == Some(offer));
            let i = choose|i: int| 0 <= i < peer.len() && peer[i] == offer;
            assert(peer[i].id == offer.id);
            lemma_offered(local, offer.id);
        }
    }
}

/// A feature that one list requires and the other does not offer.
pub open spec fn is_required_alone(
    offers: Seq<FeatureOffer>,
    other: Seq<FeatureOffer>,
    id: FeatureId,
) -> bool {
    &&& exists|i: int|
        0 <= i < offers.len() && (#[trigger] offers[i]).id == id && offers[i].requirement
            is Required
    &&& forall|j: int| 0 <= j < other.len() ==> (#[trigger] other[j]).id != id
}

} // verus!
