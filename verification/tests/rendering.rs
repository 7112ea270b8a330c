use pkginfo::features::{ActivationToken, RawFeature};
use pkginfo::owners::{Owner, OwnerPlan, TokenOutcome, get_username, owner_plan};
use pkginfo::package::{
    DepKind, Dependency, PackageId, PackageMetadata, ResolvedPackage, Summary,
};
use pkginfo::render::{
    Verbosity, latest_version, pretty_req, pretty_view, trim_end_text, u64_text, version_text,
};
use pkginfo::source::{SourceId, SourceKind};
use pkginfo::version::Version;

fn release(major: u64, minor: u64, patch: u64) -> Version {
    Version { major, minor, patch, pre: String::new() }
}

fn crates_io() -> SourceId {
    SourceId { kind: SourceKind::CratesIo, locator: "https://crates.io".to_string() }
}

fn path_source(locator: &str) -> SourceId {
    SourceId { kind: SourceKind::Path, locator: locator.to_string() }
}

fn feature(name: &str, tokens: Vec<ActivationToken>) -> RawFeature {
    RawFeature { name: name.to_string(), tokens }
}

fn feat_ref(name: &str) -> ActivationToken {
    ActivationToken::Feature { name: name.to_string() }
}

fn dep_ref(dep: &str) -> ActivationToken {
    ActivationToken::Dependency { dep: dep.to_string() }
}

fn registry_dep(name: &str, kind: DepKind, optional: bool, req: &str) -> Dependency {
    Dependency {
        name: name.to_string(),
        kind,
        optional,
        source: crates_io(),
        req_text: req.to_string(),
        req_single_comparator: true,
    }
}

fn demo_package() -> ResolvedPackage {
    ResolvedPackage {
        id: PackageId {
            name: "demo".to_string(),
            version: release(1, 2, 3),
            source: crates_io(),
        },
        metadata: PackageMetadata {
            description: Some("A demo tool.  \n".to_string()),
            license: Some("MIT".to_string()),
            rust_version: Some(release(1, 60, 0)),
            documentation: None,
            homepage: Some("https://example.com".to_string()),
            repository: None,
            keywords: vec!["cli".to_string(), "tool".to_string()],
        },
        features: vec![
            feature("default", vec![feat_ref("fancy")]),
            feature("fancy", vec![dep_ref("colored")]),
        ],
        deps: vec![
            registry_dep("serde", DepKind::Normal, false, "^1.0"),
            registry_dep("colored", DepKind::Normal, true, "^0.4"),
            registry_dep("cc", DepKind::Build, false, "^1.0"),
            registry_dep("rstest", DepKind::Dev, false, "^0.17"),
        ],
    }
}

#[test]
fn numbers_render_in_decimal() {
    assert_eq!(u64_text(0), "0");
    assert_eq!(u64_text(7), "7");
    assert_eq!(u64_text(10), "10");
    assert_eq!(u64_text(31415), "31415");
    assert_eq!(u64_text(1000), "1000");
}

#[test]
fn versions_render_with_prerelease_tags() {
    assert_eq!(version_text(&release(1, 2, 3)), "1.2.3");
    let pre = Version { major: 2, minor: 0, patch: 0, pre: "rc.1".to_string() };
    assert_eq!(version_text(&pre), "2.0.0-rc.1");
}

#[test]
fn single_caret_requirements_lose_the_caret() {
    assert_eq!(pretty_req(&"^1.2.3".to_string(), true), "1.2.3");
    assert_eq!(pretty_req(&"^1, ^2".to_string(), false), "^1, ^2");
    assert_eq!(pretty_req(&"*".to_string(), true), "*");
    assert_eq!(pretty_req(&"=2.0.0".to_string(), true), "=2.0.0");
}

#[test]
fn trailing_whitespace_is_trimmed_from_descriptions() {
    assert_eq!(trim_end_text(&"A demo tool.  \n".to_string()), "A demo tool.");
    assert_eq!(trim_end_text(&"   ".to_string()), "");
    assert_eq!(trim_end_text(&"keep".to_string()), "keep");
}

#[test]
fn latest_version_is_the_maximum_candidate() {
    let summaries = vec![
        Summary { id: PackageId { name: "demo".to_string(), version: release(1, 0, 0), source: crates_io() }, msrv: None },
        Summary { id: PackageId { name: "demo".to_string(), version: release(2, 0, 0), source: crates_io() }, msrv: None },
        Summary { id: PackageId { name: "demo".to_string(), version: release(1, 5, 0), source: crates_io() }, msrv: None },
    ];
    assert_eq!(latest_version(&summaries), Some(release(2, 0, 0)));
    assert_eq!(latest_version(&Vec::new()), None);
}

#[test]
fn usernames_carry_the_display_name_in_parentheses() {
    let alice = Owner { login: "alice".to_string(), name: Some("Alice".to_string()) };
    assert_eq!(get_username(&alice), "alice (Alice)");
    let bob = Owner { login: "bob".to_string(), name: None };
    assert_eq!(get_username(&bob), "bob");
}

#[test]
fn owner_lookup_decisions_follow_the_credential_outcome() {
    assert!(matches!(owner_plan(None, TokenOutcome::Missing), OwnerPlan::Skip));
    assert!(matches!(
        owner_plan(
            None,
            TokenOutcome::Granted { token: "t".to_string() }
        ),
        OwnerPlan::Skip
    ));
    assert!(matches!(
        owner_plan(Some("https://api.example".to_string()), TokenOutcome::Missing),
        OwnerPlan::Skip
    ));
    match owner_plan(
        Some("https://api.example".to_string()),
        TokenOutcome::Granted { token: "SECRET-REDACTED".to_string() },
    ) {
        OwnerPlan::Query { api, token } => {
            assert_eq!(api, "https://api.example");
            assert_eq!(token, "SECRET-REDACTED");
        }
        _ => panic!("expected a query plan"),
    }
    match owner_plan(
        Some("https://api.example".to_string()),
        TokenOutcome::Failed { message: "boom".to_string() },
    ) {
        OwnerPlan::Fail { message } => assert_eq!(message, "boom"),
        _ => panic!("expected a failure plan"),
    }
}

#[test]
fn full_report_renders_every_section_in_order() {
    let pkg = demo_package();
    let owners = Some(vec!["alice (Alice)".to_string(), "bob".to_string()]);
    let lines = pretty_view(&pkg, &Some(release(2, 0, 0)), &owners, true, Verbosity::Verbose);
    assert_eq!(
        lines,
        vec![
            "demo #cli #tool".to_string(),
            "A demo tool.".to_string(),
            "version: 1.2.3 (latest 2.0.0)".to_string(),
            "license: MIT".to_string(),
            "rust-version: 1.60.0".to_string(),
            "documentation: https://docs.rs/demo/1.2.3".to_string(),
            "homepage: https://example.com".to_string(),
            "crates.io: https://crates.io/crates/demo/1.2.3".to_string(),
            "features:".to_string(),
            " +default = [fancy]".to_string(),
            "  fancy   = [dep:colored]".to_string(),
            "dependencies:".to_string(),
            " +serde@1.0".to_string(),
            "  colored@0.4".to_string(),
            "build-dependencies:".to_string(),
            " +cc@1.0".to_string(),
            "owners:".to_string(),
            "  alice (Alice)".to_string(),
            "  bob".to_string(),
            "note: to see how you depend on demo, run `cargo tree --invert --package demo@1.2.3`"
                .to_string(),
        ]
    );
}

#[test]
fn quiet_report_hides_dependency_sections() {
    let pkg = demo_package();
    let lines = pretty_view(&pkg, &None, &None, false, Verbosity::Normal);
    assert!(!lines.iter().any(|l| l == "dependencies:"));
    assert!(!lines.iter().any(|l| l == "build-dependencies:"));
    assert!(lines.iter().any(|l| l == "features:"));
}

#[test]
fn non_registry_package_names_its_source() {
    let mut pkg = demo_package();
    pkg.id.source = path_source("./crates/demo");
    pkg.metadata.documentation = Some("https://docs.example".to_string());
    let lines = pretty_view(&pkg, &None, &None, false, Verbosity::Normal);
    assert!(lines.iter().any(|l| l == "version: 1.2.3 (from ./crates/demo)"));
    assert!(!lines.iter().any(|l| l.starts_with("crates.io:")));
    assert!(lines.iter().any(|l| l == "documentation: https://docs.example"));
}

#[test]
fn path_dependencies_show_their_location() {
    let mut pkg = demo_package();
    pkg.deps = vec![Dependency {
        name: "local".to_string(),
        kind: DepKind::Normal,
        optional: false,
        source: path_source("./crates/local"),
        req_text: "*".to_string(),
        req_single_comparator: false,
    }];
    let lines = pretty_view(&pkg, &None, &None, false, Verbosity::Verbose);
    assert!(lines.iter().any(|l| l == " +local (./crates/local)"));
}

#[test]
fn report_is_identical_across_repeated_runs() {
    let pkg = demo_package();
    let owners = Some(vec!["alice".to_string()]);
    let first = pretty_view(&pkg, &Some(release(2, 0, 0)), &owners, true, Verbosity::Verbose);
    let second = pretty_view(&pkg, &Some(release(2, 0, 0)), &owners, true, Verbosity::Verbose);
    assert_eq!(first, second);
    let third = pretty_view(&demo_package(), &Some(release(2, 0, 0)), &owners, true, Verbosity::Verbose);
    assert_eq!(first, third);
}

#[test]
fn too_many_activated_features_collapse_into_a_count() {
    let mut features = vec![feature(
        "default",
        (0..40).map(|i| feat_ref(&format!("f{:02}", i))).collect(),
    )];
    for i in 0..40 {
        features.push(feature(&format!("f{:02}", i), vec![]));
    }
    let mut pkg = demo_package();
    pkg.features = features;
    pkg.deps = Vec::new();
    let lines = pretty_view(&pkg, &None, &None, false, Verbosity::Normal);
    assert!(lines.iter().any(|l| l == "  41 activated features"));
    assert!(!lines.iter().any(|l| l.starts_with(" +default")));
    let verbose = pretty_view(&pkg, &None, &None, false, Verbosity::Verbose);
    assert!(verbose.iter().any(|l| l.starts_with(" +default")));
}
