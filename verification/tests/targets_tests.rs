use engine_targets::engine::Engine;
use engine_targets::errors::ConfigConversionError;
use engine_targets::features::{feature_requirement, ESFeature};
use engine_targets::targets::EngineTargets;
use engine_targets::version::Version;

fn v(major: u32, minor: u32, patch: u32) -> Version {
    Version { major, minor, patch }
}

fn pairs(raw: &[(&str, &str)]) -> Vec<(String, String)> {
    raw.iter().map(|(n, ver)| (n.to_string(), ver.to_string())).collect()
}

#[test]
fn resolve_alias_routes_known_aliases() {
    assert_eq!(Engine::resolve_alias("and_chr"), Some(Engine::Chrome));
    assert_eq!(Engine::resolve_alias("ie_mob"), Some(Engine::Ie));
    assert_eq!(Engine::resolve_alias("ios_saf"), Some(Engine::Ios));
    assert_eq!(Engine::resolve_alias("op_mob"), Some(Engine::Opera));
    assert_eq!(Engine::resolve_alias("and_ff"), Some(Engine::Firefox));
}

#[test]
fn resolve_alias_accepts_canonical_names() {
    assert_eq!(Engine::resolve_alias("chrome"), Some(Engine::Chrome));
    assert_eq!(Engine::resolve_alias("deno"), Some(Engine::Deno));
    assert_eq!(Engine::resolve_alias("opera_mobile"), Some(Engine::OperaMobile));
    assert_eq!(Engine::resolve_alias("android"), Some(Engine::Android));
    assert_eq!(Engine::resolve_alias("samsung"), Some(Engine::Samsung));
}

#[test]
fn strict_parse_fails_on_unknown_name() {
    assert!(Engine::from_str("bogus").is_err());
    assert!(Engine::from_str("Chrome").is_err());
    assert!(Engine::from_str("").is_err());
    assert!(Engine::resolve_alias("bogus").is_none());
}

#[test]
fn minimum_merge_keeps_the_lower_version() {
    let t = EngineTargets::parse_versions(pairs(&[("chrome", "90.0.0"), ("chrome", "80.0.0")]));
    assert_eq!(t.get(Engine::Chrome), Some(v(80, 0, 0)));
    assert_eq!(t.get(Engine::Node), None);
    let t = EngineTargets::parse_versions(pairs(&[("chrome", "80.0.0"), ("chrome", "90.0.0")]));
    assert_eq!(t.get(Engine::Chrome), Some(v(80, 0, 0)));
}

#[test]
fn aliases_merge_into_one_engine() {
    let t = EngineTargets::parse_versions(pairs(&[("and_chr", "70.0.0"), ("chrome", "90.0.0")]));
    assert_eq!(t.get(Engine::Chrome), Some(v(70, 0, 0)));
}

#[test]
fn unknown_entries_are_dropped_silently() {
    let t = EngineTargets::parse_versions(pairs(&[("bogus", "1.0.0"), ("node", "18.0.0")]));
    assert_eq!(t.get(Engine::Node), Some(v(18, 0, 0)));
    assert_eq!(t.get(Engine::Chrome), None);
    assert!(!t.is_any_target());
}

#[test]
fn unparsable_versions_are_dropped_silently() {
    let t = EngineTargets::parse_versions(pairs(&[("node", "tp"), ("chrome", "91.0.0")]));
    assert_eq!(t.get(Engine::Node), None);
    assert_eq!(t.get(Engine::Chrome), Some(v(91, 0, 0)));
}

#[test]
fn any_target_is_exactly_the_empty_map() {
    assert!(EngineTargets::parse_versions(Vec::new()).is_any_target());
    assert!(EngineTargets::default().is_any_target());
    assert!(EngineTargets::parse_versions(pairs(&[("bogus", "1.0.0")])).is_any_target());
    assert!(!EngineTargets::parse_versions(pairs(&[("node", "18.0.0")])).is_any_target());
}

#[test]
fn gating_triggers_on_lower_ambient_floor() {
    let ambient = EngineTargets::parse_versions(pairs(&[("chrome", "80.0.0")]));
    let required = EngineTargets::parse_versions(pairs(&[("chrome", "90.0.0")]));
    assert!(ambient.should_enable(&required));
}

#[test]
fn gating_skips_when_ambient_floor_is_high_enough() {
    let ambient = EngineTargets::parse_versions(pairs(&[("chrome", "90.0.0")]));
    let required = EngineTargets::parse_versions(pairs(&[("chrome", "80.0.0")]));
    assert!(!ambient.should_enable(&required));
    assert!(!ambient.should_enable(&ambient));
}

#[test]
fn gating_skips_engines_absent_from_ambient_targets() {
    let ambient = EngineTargets::parse_versions(pairs(&[("firefox", "10.0.0")]));
    let required = EngineTargets::parse_versions(pairs(&[("chrome", "1.0.0")]));
    assert!(!ambient.should_enable(&required));
}

#[test]
fn empty_ambient_targets_never_force_a_transform() {
    let ambient = EngineTargets::default();
    let required = EngineTargets::parse_versions(pairs(&[("chrome", "1.0.0")]));
    assert!(!ambient.should_enable(&required));
}

#[test]
fn has_feature_agrees_with_the_requirement_table() {
    let ambient = EngineTargets::parse_versions(pairs(&[
        ("chrome", "54.0.0"),
        ("firefox", "52.0.0"),
        ("node", "14.0.0"),
    ]));
    let all = [
        ESFeature::ExponentiationOperator,
        ESFeature::AsyncFunctions,
        ESFeature::ObjectRestSpread,
        ESFeature::OptionalCatchBinding,
        ESFeature::OptionalChaining,
        ESFeature::NullishCoalescingOperator,
    ];
    for feature in all {
        let required = feature_requirement(feature);
        assert_eq!(ambient.has_feature(feature), ambient.should_enable(&required));
    }
    assert!(!ambient.has_feature(ESFeature::ExponentiationOperator));
    assert!(ambient.has_feature(ESFeature::AsyncFunctions));
    assert!(ambient.has_feature(ESFeature::OptionalChaining));
}

#[test]
fn merging_already_held_minimums_changes_nothing() {
    let raw = [("chrome", "90.0.0"), ("chrome", "80.0.0"), ("node", "18.2.1"), ("bogus", "1.0.0")];
    let reference = EngineTargets::parse_versions(pairs(&raw));
    let mut merged_again = EngineTargets::parse_versions(pairs(&raw));
    for (name, ver) in raw {
        if let Some(engine) = Engine::resolve_alias(name) {
            if let Some(version) = Version::from_str(ver) {
                merged_again.merge_floor(engine, version);
            }
        }
    }
    let engines = [Engine::Chrome, Engine::Node, Engine::Firefox, Engine::Ie, Engine::Safari];
    for engine in engines {
        assert_eq!(merged_again.get(engine), reference.get(engine));
    }
}

#[test]
fn new_builds_from_explicit_entries() {
    let t = EngineTargets::new(vec![
        (Engine::Chrome, v(1, 2, 3)),
        (Engine::Node, v(4, 5, 6)),
        (Engine::Chrome, v(7, 8, 9)),
    ]);
    assert_eq!(t.get(Engine::Chrome), Some(v(7, 8, 9)));
    assert_eq!(t.get(Engine::Node), Some(v(4, 5, 6)));
}

#[test]
fn insert_replaces_and_merge_floor_keeps_minimum() {
    let mut t = EngineTargets::default();
    t.insert(Engine::Safari, v(15, 0, 0));
    t.insert(Engine::Safari, v(16, 0, 0));
    assert_eq!(t.get(Engine::Safari), Some(v(16, 0, 0)));
    t.merge_floor(Engine::Safari, v(16, 4, 0));
    assert_eq!(t.get(Engine::Safari), Some(v(16, 0, 0)));
    t.merge_floor(Engine::Safari, v(15, 6, 1));
    assert_eq!(t.get(Engine::Safari), Some(v(15, 6, 1)));
    t.merge_floor(Engine::Deno, v(1, 30, 0));
    assert_eq!(t.get(Engine::Deno), Some(v(1, 30, 0)));
}

#[test]
fn entries_list_exactly_the_constrained_engines_in_order() {
    let t = EngineTargets::parse_versions(pairs(&[
        ("node", "18.0.0"),
        ("chrome", "90.0.0"),
        ("safari", "15.4.0"),
    ]));
    let entries = t.entries();
    assert_eq!(
        entries,
        vec![
            (Engine::Chrome, v(90, 0, 0)),
            (Engine::Node, v(18, 0, 0)),
            (Engine::Safari, v(15, 4, 0)),
        ]
    );
    assert!(EngineTargets::default().entries().is_empty());
}

#[test]
fn duplicate_holds_the_same_floors() {
    let t = EngineTargets::parse_versions(pairs(&[("chrome", "90.0.0"), ("node", "18.0.0")]));
    let copy = t.duplicate();
    assert_eq!(copy.entries(), t.entries());
    let mut copy = copy;
    copy.insert(Engine::Deno, v(1, 0, 0));
    assert_eq!(t.get(Engine::Deno), None);
    assert_eq!(copy.get(Engine::Deno), Some(v(1, 0, 0)));
}

#[test]
fn from_config_accepts_known_engines_and_versions() {
    let entries = pairs(&[("chrome", "91"), ("node", "18.4"), ("ios_saf", "13.4.1")]);
    let t = EngineTargets::from_config(&entries).unwrap();
    assert_eq!(t.get(Engine::Chrome), Some(v(91, 0, 0)));
    assert_eq!(t.get(Engine::Node), Some(v(18, 4, 0)));
    assert_eq!(t.get(Engine::Ios), Some(v(13, 4, 1)));
}

#[test]
fn from_config_rejects_unknown_keys() {
    let entries = pairs(&[("chrome", "91"), ("netscape", "4.0")]);
    assert!(matches!(
        EngineTargets::from_config(&entries),
        Err(ConfigConversionError::UnknownEngine)
    ));
}

#[test]
fn from_config_rejects_unparsable_versions() {
    let entries = pairs(&[("chrome", "91"), ("node", "current")]);
    assert!(matches!(
        EngineTargets::from_config(&entries),
        Err(ConfigConversionError::InvalidVersion)
    ));
}

#[test]
fn from_config_reports_the_first_offence() {
    let entries = pairs(&[("node", "current"), ("netscape", "4.0")]);
    assert!(matches!(
        EngineTargets::from_config(&entries),
        Err(ConfigConversionError::InvalidVersion)
    ));
    let entries = pairs(&[("netscape", "4.0"), ("node", "current")]);
    assert!(matches!(
        EngineTargets::from_config(&entries),
        Err(ConfigConversionError::UnknownEngine)
    ));
}

#[test]
fn from_config_min_merges_colliding_aliases() {
    let entries = pairs(&[("chrome", "90"), ("and_chr", "70")]);
    let t = EngineTargets::from_config(&entries).unwrap();
    assert_eq!(t.get(Engine::Chrome), Some(v(70, 0, 0)));
}

#[test]
fn query_resolution_yields_merged_targets() {
    let t = EngineTargets::try_from_query("ie 6").unwrap();
    assert_eq!(t.get(Engine::Ie), Some(v(6, 0, 0)));
    assert_eq!(t.get(Engine::Chrome), None);
}

#[test]
fn unresolvable_queries_propagate_the_failure() {
    assert!(EngineTargets::try_from_query("no such browser !!").is_err());
}
