//! Protocol versions and features.

use rustconsole::protocol::features::{
    negotiate_features, FeatureId, FeatureNegotiationError, FeatureOffer, FeatureRequirement,
    FeatureVersionRange, InvalidFeatureVersionRange, NegotiatedFeature, ProtocolVersion,
    ProtocolVersionMismatch,
};

fn feature(number: u16) -> FeatureId {
    FeatureId::new(number).unwrap()
}

fn offer(
    id: FeatureId,
    oldest: u16,
    newest: u16,
    requirement: FeatureRequirement,
) -> FeatureOffer {
    FeatureOffer {
        id,
        versions: FeatureVersionRange::new(oldest, newest).unwrap(),
        requirement,
    }
}

#[test]
fn matching_protocol_major_selects_lower_minor() {
    assert_eq!(
        ProtocolVersion::new(1, 4).negotiate(ProtocolVersion::new(1, 2)),
        Ok(ProtocolVersion::new(1, 2))
    );
}

#[test]
fn different_protocol_major_is_rejected() {
    assert_eq!(
        ProtocolVersion::new(1, 4).negotiate(ProtocolVersion::new(2, 0)),
        Err(ProtocolVersionMismatch {
            local: ProtocolVersion::new(1, 4),
            peer: ProtocolVersion::new(2, 0),
        })
    );
}

#[test]
fn invalid_feature_range_is_rejected() {
    assert_eq!(
        FeatureVersionRange::new(3, 2),
        Err(InvalidFeatureVersionRange {
            oldest: 3,
            newest: 2,
        })
    );
}

#[test]
fn feature_negotiation_selects_highest_common_version_in_id_order() {
    let local = [
        offer(feature(2), 1, 4, FeatureRequirement::Optional),
        offer(feature(1), 2, 5, FeatureRequirement::Required),
    ];
    let peer = [
        offer(feature(1), 3, 4, FeatureRequirement::Optional),
        offer(feature(2), 2, 3, FeatureRequirement::Required),
    ];

    assert_eq!(
        negotiate_features(&local, &peer),
        Ok(vec![
            NegotiatedFeature {
                id: feature(1),
                version: 4,
            },
            NegotiatedFeature {
                id: feature(2),
                version: 3,
            },
        ])
    );
}

#[test]
fn unsupported_optional_features_are_ignored() {
    let local = [offer(feature(1), 1, 1, FeatureRequirement::Optional)];
    let peer = [offer(feature(2), 1, 1, FeatureRequirement::Optional)];

    assert_eq!(negotiate_features(&local, &peer), Ok(Vec::new()));
}

#[test]
fn missing_required_feature_on_either_side_is_rejected() {
    let required = [offer(feature(1), 1, 1, FeatureRequirement::Required)];

    assert_eq!(
        negotiate_features(&required, &[]),
        Err(FeatureNegotiationError::MissingRequiredLocalFeature(
            feature(1)
        ))
    );
    assert_eq!(
        negotiate_features(&[], &required),
        Err(FeatureNegotiationError::MissingRequiredPeerFeature(
            feature(1)
        ))
    );
}

#[test]
fn incompatible_optional_feature_is_ignored_but_required_is_rejected() {
    let local = [offer(feature(1), 1, 2, FeatureRequirement::Optional)];
    let optional_peer = [offer(feature(1), 3, 4, FeatureRequirement::Optional)];
    let required_peer = [offer(feature(1), 3, 4, FeatureRequirement::Required)];

    assert_eq!(negotiate_features(&local, &optional_peer), Ok(Vec::new()));
    assert_eq!(
        negotiate_features(&local, &required_peer),
        Err(FeatureNegotiationError::IncompatibleRequiredFeature(
            feature(1)
        ))
    );
}

#[test]
fn duplicate_feature_is_rejected_on_either_side() {
    let duplicate = [
        offer(feature(1), 1, 1, FeatureRequirement::Optional),
        offer(feature(1), 1, 2, FeatureRequirement::Optional),
    ];

    assert_eq!(
        negotiate_features(&duplicate, &[]),
        Err(FeatureNegotiationError::DuplicateLocalFeature(feature(1)))
    );
    assert_eq!(
        negotiate_features(&[], &duplicate),
        Err(FeatureNegotiationError::DuplicatePeerFeature(feature(1)))
    );
}

#[test]
fn both_ends_come_to_the_same_features() {
    let here = [
        offer(feature(7), 1, 4, FeatureRequirement::Optional),
        offer(feature(1), 2, 5, FeatureRequirement::Required),
        offer(feature(3), 1, 2, FeatureRequirement::Optional),
        offer(feature(4), 1, 9, FeatureRequirement::Optional),
    ];
    let there = [
        offer(feature(3), 3, 4, FeatureRequirement::Optional),
        offer(feature(1), 1, 3, FeatureRequirement::Optional),
        offer(feature(7), 2, 9, FeatureRequirement::Required),
    ];
    let agreed = negotiate_features(&here, &there).unwrap();
    assert_eq!(
        agreed,
        [
            NegotiatedFeature {
                id: feature(1),
                version: 3,
            },
            NegotiatedFeature {
                id: feature(7),
                version: 4,
            },
        ]
    );
    assert_eq!(negotiate_features(&there, &here).unwrap(), agreed);
}
