use pkginfo::deps::{classify_deps, dep_status, positions_of_kind};
use pkginfo::features::{
    ActivationToken, FeatureGraph, FeatureStatus, RawFeature, resolve_features,
};
use pkginfo::package::{DepKind, Dependency};
use pkginfo::render::{dep_display_entries, feature_display_entries};
use pkginfo::sorting::sort_entries;
use pkginfo::source::{SourceId, SourceKind};

fn feature(name: &str, tokens: Vec<ActivationToken>) -> RawFeature {
    RawFeature { name: name.to_string(), tokens }
}

fn feat_ref(name: &str) -> ActivationToken {
    ActivationToken::Feature { name: name.to_string() }
}

fn dep_ref(dep: &str) -> ActivationToken {
    ActivationToken::Dependency { dep: dep.to_string() }
}

fn dep_feature(dep: &str, feat: &str, weak: bool) -> ActivationToken {
    ActivationToken::DepFeature { dep: dep.to_string(), feature: feat.to_string(), weak }
}

fn registry_source() -> SourceId {
    SourceId { kind: SourceKind::CratesIo, locator: "registry-index".to_string() }
}

fn dependency(name: &str, kind: DepKind, optional: bool) -> Dependency {
    Dependency {
        name: name.to_string(),
        kind,
        optional,
        source: registry_source(),
        req_text: "^1.0".to_string(),
        req_single_comparator: true,
    }
}

#[test]
fn default_roots_and_transitive_activation() {
    let features = vec![
        feature("default", vec![feat_ref("fancy")]),
        feature("fancy", vec![feat_ref("glitter")]),
        feature("glitter", vec![]),
        feature("unused", vec![]),
    ];
    let st = resolve_features(&features);
    assert_eq!(
        st,
        vec![
            FeatureStatus::EnabledByUser,
            FeatureStatus::Enabled,
            FeatureStatus::Enabled,
            FeatureStatus::Disabled,
        ]
    );
}

#[test]
fn missing_default_disables_everything() {
    let features = vec![feature("fancy", vec![feat_ref("extra")]), feature("extra", vec![])];
    let st = resolve_features(&features);
    assert_eq!(st, vec![FeatureStatus::Disabled, FeatureStatus::Disabled]);
}

#[test]
fn empty_feature_map_resolves_to_nothing() {
    let features: Vec<RawFeature> = Vec::new();
    let st = resolve_features(&features);
    assert!(st.is_empty());
}

#[test]
fn resolution_is_deterministic_across_runs() {
    let features = vec![
        feature("default", vec![feat_ref("b"), feat_ref("a")]),
        feature("a", vec![feat_ref("c")]),
        feature("b", vec![feat_ref("c"), feat_ref("a")]),
        feature("c", vec![]),
        feature("d", vec![feat_ref("a")]),
    ];
    let first = resolve_features(&features);
    let second = resolve_features(&features);
    assert_eq!(first, second);
}

#[test]
fn cyclic_features_terminate_with_both_enabled() {
    let features = vec![
        feature("default", vec![feat_ref("a")]),
        feature("a", vec![feat_ref("b")]),
        feature("b", vec![feat_ref("a")]),
    ];
    let st = resolve_features(&features);
    assert_eq!(
        st,
        vec![FeatureStatus::EnabledByUser, FeatureStatus::Enabled, FeatureStatus::Enabled]
    );
}

#[test]
fn unknown_feature_references_are_skipped() {
    let features = vec![feature("default", vec![feat_ref("no-such-feature")])];
    let st = resolve_features(&features);
    assert_eq!(st, vec![FeatureStatus::EnabledByUser]);
}

#[test]
fn status_is_disabled_only_for_disabled() {
    assert!(!FeatureStatus::EnabledByUser.is_disabled());
    assert!(!FeatureStatus::Enabled.is_disabled());
    assert!(FeatureStatus::Disabled.is_disabled());
}

#[test]
fn optional_dep_in_disabled_feature_stays_disabled() {
    let features = vec![
        feature("default", vec![]),
        feature("net", vec![dep_ref("bar")]),
    ];
    let graph = FeatureGraph::new(&features);
    let st = resolve_features(&features);
    let bar = dependency("bar", DepKind::Normal, true);
    assert_eq!(dep_status(&bar, &graph, &st), FeatureStatus::Disabled);
}

#[test]
fn optional_dep_in_default_feature_is_enabled() {
    let features = vec![feature("default", vec![dep_ref("bar")])];
    let graph = FeatureGraph::new(&features);
    let st = resolve_features(&features);
    let bar = dependency("bar", DepKind::Normal, true);
    assert_eq!(dep_status(&bar, &graph, &st), FeatureStatus::Enabled);
}

#[test]
fn weak_dep_feature_reference_counts_as_activation() {
    let features = vec![feature("default", vec![dep_feature("bar", "glitter", true)])];
    let graph = FeatureGraph::new(&features);
    let st = resolve_features(&features);
    let bar = dependency("bar", DepKind::Normal, true);
    assert_eq!(dep_status(&bar, &graph, &st), FeatureStatus::Enabled);
}

#[test]
fn strong_dep_feature_reference_is_not_an_activation_event() {
    let features = vec![feature("default", vec![dep_feature("bar", "glitter", false)])];
    let graph = FeatureGraph::new(&features);
    let st = resolve_features(&features);
    let bar = dependency("bar", DepKind::Normal, true);
    assert_eq!(dep_status(&bar, &graph, &st), FeatureStatus::Disabled);
}

#[test]
fn mandatory_dep_is_enabled_by_user() {
    let features: Vec<RawFeature> = Vec::new();
    let graph = FeatureGraph::new(&features);
    let st = resolve_features(&features);
    let serde = dependency("serde", DepKind::Normal, false);
    assert_eq!(dep_status(&serde, &graph, &st), FeatureStatus::EnabledByUser);
}

#[test]
fn classification_covers_each_dependency() {
    let features = vec![feature("default", vec![dep_ref("colored")])];
    let graph = FeatureGraph::new(&features);
    let st = resolve_features(&features);
    let deps = vec![
        dependency("serde", DepKind::Normal, false),
        dependency("colored", DepKind::Normal, true),
        dependency("leftover", DepKind::Normal, true),
    ];
    let classified = classify_deps(&deps, &graph, &st);
    assert_eq!(
        classified,
        vec![FeatureStatus::EnabledByUser, FeatureStatus::Enabled, FeatureStatus::Disabled]
    );
}

#[test]
fn dev_dependencies_are_excluded_from_kind_positions() {
    let deps = vec![
        dependency("a", DepKind::Normal, false),
        dependency("b", DepKind::Dev, false),
        dependency("c", DepKind::Build, false),
        dependency("d", DepKind::Normal, true),
    ];
    assert_eq!(positions_of_kind(&deps, DepKind::Normal), vec![0, 3]);
    assert_eq!(positions_of_kind(&deps, DepKind::Build), vec![2]);
    assert_eq!(positions_of_kind(&deps, DepKind::Dev), vec![1]);
}

#[test]
fn display_order_sorts_by_status_then_name() {
    let features = vec![
        feature("zeta", vec![]),
        feature("default", vec![feat_ref("beta")]),
        feature("beta", vec![]),
        feature("alpha", vec![]),
    ];
    let st = resolve_features(&features);
    let entries = sort_entries(feature_display_entries(&features, &st));
    let order: Vec<(&str, u8)> =
        entries.iter().map(|e| (e.name.as_str(), e.rank)).collect();
    assert_eq!(order, vec![("default", 0), ("beta", 1), ("alpha", 2), ("zeta", 2)]);
}

#[test]
fn dep_display_order_breaks_status_ties_by_name() {
    let features: Vec<RawFeature> = Vec::new();
    let graph = FeatureGraph::new(&features);
    let st = resolve_features(&features);
    let deps = vec![
        dependency("zlib", DepKind::Normal, false),
        dependency("abc", DepKind::Normal, false),
        dependency("maybe", DepKind::Normal, true),
    ];
    let classified = classify_deps(&deps, &graph, &st);
    let positions = positions_of_kind(&deps, DepKind::Normal);
    let entries = sort_entries(dep_display_entries(&deps, &positions, &classified));
    let order: Vec<(&str, u8)> =
        entries.iter().map(|e| (e.name.as_str(), e.rank)).collect();
    assert_eq!(order, vec![("abc", 0), ("zlib", 0), ("maybe", 2)]);
}
