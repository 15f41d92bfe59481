//! The read-only feature-requirement table: for each language feature, the
//! per-engine version floors at which native support begins. Below a floor,
//! a compatibility transform is required.
//!
//! The table is pure data with no further mutation: each lookup builds the
//! entry's map afresh from the same literals, so every read sees the same
//! immutable association and no synchronization is ever involved.

use vstd::prelude::*;

use crate::engine::Engine;
use crate::targets::{spec_should_enable, EngineTargets};
use crate::version::Version;

verus! {

/// An abstract language feature whose use may need a compatibility
/// transform on engines older than its native-support floors.
#[derive(Clone, Copy, PartialEq, Eq, Structural, Debug)]
pub enum ESFeature {
    ExponentiationOperator,
    AsyncFunctions,
    ObjectRestSpread,
    OptionalCatchBinding,
    OptionalChaining,
    NullishCoalescingOperator,
}

/// Shorthand for a version floor literal.
pub open spec fn spec_v(major: u32, minor: u32, patch: u32) -> Version {
    Version { major, minor, patch }
}

/// The engine floors at which each feature is natively supported.
pub open spec fn spec_feature_requirement(feature: ESFeature) -> Map<Engine, Version> {
    match feature {
        ESFeature::ExponentiationOperator => Map::empty().insert(Engine::Chrome, spec_v(52, 0, 0))
            .insert(Engine::Edge, spec_v(14, 0, 0)).insert(Engine::Firefox, spec_v(52, 0, 0))
            .insert(Engine::Safari, spec_v(10, 1, 0)).insert(Engine::Node, spec_v(7, 0, 0)).insert(
            Engine::Ios,
            spec_v(10, 3, 0),
        ),
        ESFeature::AsyncFunctions => Map::empty().insert(Engine::Chrome, spec_v(55, 0, 0)).insert(
            Engine::Edge,
            spec_v(15, 0, 0),
        ).insert(Engine::Firefox, spec_v(52, 0, 0)).insert(Engine::Safari, spec_v(11, 0, 0)).insert(
            Engine::Node,
            spec_v(7, 6, 0),
        ).insert(Engine::Ios, spec_v(11, 0, 0)),
        ESFeature::ObjectRestSpread => Map::empty().insert(Engine::Chrome, spec_v(60, 0, 0)).insert(
            Engine::Edge,
            spec_v(79, 0, 0),
        ).insert(Engine::Firefox, spec_v(55, 0, 0)).insert(Engine::Safari, spec_v(11, 1, 0)).insert(
            Engine::Node,
            spec_v(8, 3, 0),
        ).insert(Engine::Ios, spec_v(11, 3, 0)),
        ESFeature::OptionalCatchBinding => Map::empty().insert(Engine::Chrome, spec_v(66, 0, 0))
            .insert(Engine::Edge, spec_v(79, 0, 0)).insert(Engine::Firefox, spec_v(58, 0, 0))
            .insert(Engine::Safari, spec_v(11, 1, 0)).insert(Engine::Node, spec_v(10, 0, 0))
            .insert(Engine::Ios, spec_v(11, 3, 0)),
        ESFeature::OptionalChaining => Map::empty().insert(Engine::Chrome, spec_v(80, 0, 0)).insert(
            Engine::Edge,
            spec_v(80, 0, 0),
        ).insert(Engine::Firefox, spec_v(74, 0, 0)).insert(Engine::Safari, spec_v(13, 1, 0))
            .insert(Engine::Node, spec_v(14, 0, 0)).insert(Engine::Ios, spec_v(13, 4, 0)),
        ESFeature::NullishCoalescingOperator => Map::empty().insert(
            Engine::Chrome,
            spec_v(80, 0, 0),
        ).insert(Engine::Edge, spec_v(80, 0, 0)).insert(Engine::Firefox, spec_v(72, 0, 0)).insert(
            Engine::Safari,
            spec_v(13, 1, 0),
        ).insert(Engine::Node, spec_v(14, 0, 0)).insert(Engine::Ios, spec_v(13, 4, 0)),
    }
}

/// Whether a feature must be gated on the given ambient targets: true
/// exactly when gating on the feature's required floors asks for it.
pub open spec fn spec_has_feature(ambient: Map<Engine, Version>, feature: ESFeature) -> bool {
    spec_should_enable(ambient, spec_feature_requirement(feature))
}

/// The table entry for one feature, built from the floor literals.
pub fn feature_requirement(feature: ESFeature) -> (r: EngineTargets)
    ensures
        r@ == spec_feature_requirement(feature),
{
    let (chrome, edge, firefox, safari, node, ios): (
        Version,
        Version,
        Version,
        Version,
        Version,
        Version,
    ) = match feature {
        ESFeature::ExponentiationOperator => (
            Version { major: 52, minor: 0, patch: 0 },
            Version { major: 14, minor: 0, patch: 0 },
            Version { major: 52, minor: 0, patch: 0 },
            Version { major: 10, minor: 1, patch: 0 },
            Version { major: 7, minor: 0, patch: 0 },
            Version { major: 10, minor: 3, patch: 0 },
        ),
        ESFeature::AsyncFunctions => (
            Version { major: 55, minor: 0, patch: 0 },
            Version { major: 15, minor: 0, patch: 0 },
            Version { major: 52, minor: 0, patch: 0 },
            Version { major: 11, minor: 0, patch: 0 },
            Version { major: 7, minor: 6, patch: 0 },
            Version { major: 11, minor: 0, patch: 0 },
        ),
        ESFeature::ObjectRestSpread => (
            Version { major: 60, minor: 0, patch: 0 },
            Version { major: 79, minor: 0, patch: 0 },
            Version { major: 55, minor: 0, patch: 0 },
            Version { major: 11, minor: 1, patch: 0 },
            Version { major: 8, minor: 3, patch: 0 },
            Version { major: 11, minor: 3, patch: 0 },
        ),
        ESFeature::OptionalCatchBinding => (
            Version { major: 66, minor: 0, patch: 0 },
            Version { major: 79, minor: 0, patch: 0 },
            Version { major: 58, minor: 0, patch: 0 },
            Version { major: 11, minor: 1, patch: 0 },
            Version { major: 10, minor: 0, patch: 0 },
            Version { major: 11, minor: 3, patch: 0 },
        ),
        ESFeature::OptionalChaining => (
            Version { major: 80, minor: 0, patch: 0 },
            Version { major: 80, minor: 0, patch: 0 },
            Version { major: 74, minor: 0, patch: 0 },
            Version { major: 13, minor: 1, patch: 0 },
            Version { major: 14, minor: 0, patch: 0 },
            Version { major: 13, minor: 4, patch: 0 },
        ),
        ESFeature::NullishCoalescingOperator => (
            Version { major: 80, minor: 0, patch: 0 },
            Version { major: 80, minor: 0, patch: 0 },
            Version { major: 72, minor: 0, patch: 0 },
            Version { major: 13, minor: 1, patch: 0 },
            Version { major: 14, minor: 0, patch: 0 },
            Version { major: 13, minor: 4, patch: 0 },
        ),
    };
    let mut targets = EngineTargets::default();
    targets.insert(Engine::Chrome, chrome);
    targets.insert(Engine::Edge, edge);
    targets.insert(Engine::Firefox, firefox);
    targets.insert(Engine::Safari, safari);
    targets.insert(Engine::Node, node);
    targets.insert(Engine::Ios, ios);
    targets
}

impl EngineTargets {
    /// Looks the feature up in the requirement table and gates it against
    /// these ambient targets. Infallible and side-effect free at call time.
    pub fn has_feature(&self, feature: ESFeature) -> (r: bool)
        ensures
            r == spec_has_feature(self@, feature),
    {
        let required = feature_requirement(feature);
        self.should_enable(&required)
    }
}

/// For every ambient map and every feature, the feature gate answers
/// exactly as gating on that feature's entry of the requirement table does.
pub proof fn lemma_has_feature_consistent(ambient: Map<Engine, Version>, feature: ESFeature)
    ensures
        spec_has_feature(ambient, feature) == spec_should_enable(
            ambient,
            spec_feature_requirement(feature),
        ),
{
}

} // verus!
