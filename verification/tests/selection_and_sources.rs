use pkginfo::errors::{InfoError, UsageKind};
use pkginfo::package::{PackageId, PackageSpec, Summary};
use pkginfo::query::{effective_toolchain, plan_query, suggest_cargo_tree, validate_locked_and_frozen_options};
use pkginfo::resolver::resolve_source;
use pkginfo::select::{pick_pin, select_version};
use pkginfo::source::{ReplacementTable, SourceId, SourceKind};
use pkginfo::version::{PartialVersion, Version, msrv_admits, version_lt};

fn release(major: u64, minor: u64, patch: u64) -> Version {
    Version { major, minor, patch, pre: String::new() }
}

fn prerelease(major: u64, minor: u64, patch: u64, pre: &str) -> Version {
    Version { major, minor, patch, pre: pre.to_string() }
}

fn crates_io() -> SourceId {
    SourceId { kind: SourceKind::CratesIo, locator: "https://crates.io".to_string() }
}

fn mirror(locator: &str) -> SourceId {
    SourceId { kind: SourceKind::Registry, locator: locator.to_string() }
}

fn empty_table() -> ReplacementTable {
    ReplacementTable { entries: Vec::new() }
}

fn table(entries: Vec<(SourceId, SourceId)>) -> ReplacementTable {
    ReplacementTable { entries }
}

fn summary(name: &str, version: Version, msrv: Option<Version>) -> Summary {
    Summary { id: PackageId { name: name.to_string(), version, source: crates_io() }, msrv }
}

fn spec(name: &str) -> PackageSpec {
    PackageSpec { name: name.to_string(), req: None, source: None }
}

#[test]
fn msrv_compatible_selection_prefers_satisfying_candidates() {
    let candidates = vec![
        summary("foo", release(1, 0, 0), None),
        summary("foo", release(2, 0, 0), Some(release(1, 50, 0))),
        summary("foo", release(3, 0, 0), Some(release(1, 80, 0))),
    ];
    let chosen = select_version(
        &spec("foo"),
        false,
        &None,
        &candidates,
        &Some(release(1, 60, 0)),
        &crates_io(),
    )
    .unwrap();
    assert_eq!(chosen.version, release(2, 0, 0));
}

#[test]
fn ignoring_rust_version_picks_the_maximum() {
    let candidates = vec![
        summary("foo", release(1, 0, 0), None),
        summary("foo", release(2, 0, 0), Some(release(1, 50, 0))),
        summary("foo", release(3, 0, 0), Some(release(1, 80, 0))),
    ];
    let chosen =
        select_version(&spec("foo"), false, &None, &candidates, &None, &crates_io()).unwrap();
    assert_eq!(chosen.version, release(3, 0, 0));
}

#[test]
fn candidate_without_msrv_counts_as_compatible() {
    let candidates = vec![
        summary("foo", release(1, 0, 0), None),
        summary("foo", release(2, 0, 0), Some(release(2, 0, 0))),
    ];
    let chosen = select_version(
        &spec("foo"),
        false,
        &None,
        &candidates,
        &Some(release(1, 60, 0)),
        &crates_io(),
    )
    .unwrap();
    assert_eq!(chosen.version, release(1, 0, 0));
}

#[test]
fn no_msrv_compatible_candidate_is_not_found() {
    let candidates = vec![summary("foo", release(2, 0, 0), Some(release(1, 80, 0)))];
    let err = select_version(
        &spec("foo"),
        false,
        &None,
        &candidates,
        &Some(release(1, 60, 0)),
        &crates_io(),
    )
    .unwrap_err();
    assert!(matches!(err, InfoError::NotFound { .. }));
}

#[test]
fn pinned_package_wins_over_newer_registry_versions() {
    let pin = PackageId { name: "foo".to_string(), version: release(1, 2, 3), source: crates_io() };
    let resolution = resolve_source(
        &None,
        &Some(pin.source.duplicate()),
        &crates_io(),
        &empty_table(),
        &empty_table(),
    )
    .unwrap();
    assert!(resolution.use_pin);
    let candidates = vec![
        summary("foo", release(1, 2, 3), None),
        summary("foo", release(2, 0, 0), None),
    ];
    let chosen = select_version(
        &spec("foo"),
        resolution.use_pin,
        &Some(pin),
        &candidates,
        &None,
        &crates_io(),
    )
    .unwrap();
    assert_eq!(chosen.version, release(1, 2, 3));
}

#[test]
fn pin_picks_highest_matching_workspace_version() {
    let ids = vec![
        PackageId { name: "foo".to_string(), version: release(1, 0, 0), source: crates_io() },
        PackageId { name: "bar".to_string(), version: release(9, 0, 0), source: crates_io() },
        PackageId { name: "foo".to_string(), version: release(1, 4, 2), source: crates_io() },
    ];
    let picked = pick_pin(&spec("foo"), &ids).unwrap();
    assert_eq!(picked.version, release(1, 4, 2));
    assert!(pick_pin(&spec("absent"), &ids).is_none());
}

#[test]
fn empty_spec_name_is_a_usage_error_before_any_lookup() {
    let err = PackageSpec::validated(String::new(), None, None).unwrap_err();
    assert!(matches!(err, InfoError::Usage { kind: UsageKind::EmptySpecName }));
}

#[test]
fn configured_mirror_without_explicit_registry_is_ambiguous() {
    let configured = table(vec![(crates_io(), mirror("https://mirror.example"))]);
    let err = resolve_source(&None, &None, &crates_io(), &empty_table(), &configured).unwrap_err();
    match err {
        InfoError::AmbiguousSource { configured: named } => {
            assert_eq!(named.locator, "https://mirror.example");
        }
        other => panic!("expected an ambiguous-source error, got {:?}", other.message()),
    }
}

#[test]
fn explicit_registry_silences_the_mirror_ambiguity() {
    let configured = table(vec![(crates_io(), mirror("https://mirror.example"))]);
    let chosen = mirror("https://mirror.example");
    let resolution =
        resolve_source(&Some(chosen), &None, &crates_io(), &empty_table(), &configured).unwrap();
    assert!(!resolution.use_pin);
    assert_eq!(resolution.original.locator, "https://mirror.example");
}

#[test]
fn override_matching_configured_replacement_keeps_the_pin() {
    let pin_source = crates_io();
    let configured = table(vec![(crates_io(), mirror("https://mirror.example"))]);
    let resolution = resolve_source(
        &Some(mirror("https://mirror.example")),
        &Some(pin_source),
        &crates_io(),
        &empty_table(),
        &configured,
    )
    .unwrap();
    assert!(resolution.use_pin);
    assert_eq!(resolution.original.kind, SourceKind::CratesIo);
}

#[test]
fn locked_and_frozen_require_a_workspace() {
    let locked = validate_locked_and_frozen_options(false, true, false).unwrap_err();
    assert!(matches!(locked, InfoError::Usage { kind: UsageKind::LockedOutsideWorkspace }));
    let frozen = validate_locked_and_frozen_options(false, false, true).unwrap_err();
    assert!(matches!(frozen, InfoError::Usage { kind: UsageKind::FrozenOutsideWorkspace }));
    assert!(validate_locked_and_frozen_options(true, true, true).is_ok());
    assert!(validate_locked_and_frozen_options(false, false, false).is_ok());
}

#[test]
fn plan_query_reports_ambiguity_before_flag_validation() {
    let configured = table(vec![(crates_io(), mirror("https://mirror.example"))]);
    let err = plan_query(&None, None, &crates_io(), &empty_table(), &configured, true, false)
        .unwrap_err();
    assert!(matches!(err, InfoError::AmbiguousSource { .. }));
}

#[test]
fn plan_query_keeps_the_pin_and_validates_flags_inside_the_workspace() {
    let pin = PackageId { name: "foo".to_string(), version: release(1, 2, 3), source: crates_io() };
    let plan = plan_query(
        &None,
        Some(pin),
        &crates_io(),
        &empty_table(),
        &empty_table(),
        true,
        true,
    )
    .unwrap();
    assert!(plan.resolution.use_pin);
    assert_eq!(plan.pin.as_ref().map(|p| p.version.clone()), Some(release(1, 2, 3)));
}

#[test]
fn effective_toolchain_prefers_the_nearest_declared_minimum() {
    let rustc = prerelease(1, 82, 0, "nightly");
    assert_eq!(effective_toolchain(true, Some(release(1, 50, 0)), None, &rustc), None);
    assert_eq!(
        effective_toolchain(false, Some(release(1, 50, 0)), Some(release(1, 40, 0)), &rustc),
        Some(release(1, 50, 0))
    );
    assert_eq!(
        effective_toolchain(false, None, Some(release(1, 40, 0)), &rustc),
        Some(release(1, 40, 0))
    );
    assert_eq!(effective_toolchain(false, None, None, &rustc), Some(release(1, 82, 0)));
}

#[test]
fn tree_suggestion_applies_only_to_pinned_non_members() {
    assert!(suggest_cargo_tree(true, false));
    assert!(!suggest_cargo_tree(true, true));
    assert!(!suggest_cargo_tree(false, false));
}

#[test]
fn prerelease_ranks_below_the_release_of_the_same_triple() {
    assert!(version_lt(&prerelease(1, 0, 0, "alpha.1"), &release(1, 0, 0)));
    assert!(!version_lt(&release(1, 0, 0), &prerelease(1, 0, 0, "alpha.1")));
    assert!(version_lt(&release(1, 0, 0), &prerelease(1, 0, 1, "alpha")));
}

#[test]
fn partial_version_requirements_admit_by_given_precision() {
    let req = PartialVersion { major: 1, minor: Some(2), patch: None, pre: String::new() };
    assert!(req.admits(&release(1, 2, 0)));
    assert!(req.admits(&release(1, 2, 9)));
    assert!(!req.admits(&release(1, 3, 0)));
    assert!(!req.admits(&prerelease(1, 2, 0, "rc.1")));
    let exact = PartialVersion { major: 2, minor: Some(0), patch: Some(0), pre: String::new() };
    assert!(exact.admits(&release(2, 0, 0)));
    assert!(!exact.admits(&release(2, 0, 1)));
}

#[test]
fn spec_version_requirement_constrains_selection() {
    let mut s = spec("foo");
    s.req = Some(PartialVersion { major: 1, minor: None, patch: None, pre: String::new() });
    let candidates = vec![
        summary("foo", release(1, 0, 0), None),
        summary("foo", release(1, 4, 0), None),
        summary("foo", release(2, 0, 0), None),
    ];
    let chosen = select_version(&s, false, &None, &candidates, &None, &crates_io()).unwrap();
    assert_eq!(chosen.version, release(1, 4, 0));
}

#[test]
fn not_found_names_the_spec_and_the_source() {
    let err =
        select_version(&spec("nope"), false, &None, &Vec::new(), &None, &crates_io()).unwrap_err();
    match err {
        InfoError::NotFound { name, req, source } => {
            assert_eq!(name, "nope");
            assert_eq!(req, None);
            assert_eq!(source.locator, "https://crates.io");
        }
        other => panic!("expected not-found, got {:?}", other.message()),
    }
}

#[test]
fn error_messages_name_their_cause() {
    let usage = InfoError::Usage { kind: UsageKind::EmptySpecName };
    assert_eq!(usage.message(), "package ID specification must have a name");
    let not_found =
        InfoError::NotFound { name: "demo".to_string(), req: None, source: crates_io() };
    assert_eq!(not_found.message(), "could not find `demo` in registry `https://crates.io`");
    let precise = InfoError::NotFound {
        name: "demo".to_string(),
        req: Some(PartialVersion { major: 1, minor: Some(2), patch: Some(3), pre: String::new() }),
        source: crates_io(),
    };
    assert_eq!(precise.message(), "could not find `demo@1.2.3` in registry `https://crates.io`");
    let ambiguous = InfoError::AmbiguousSource { configured: mirror("https://mirror.example") };
    assert_eq!(
        ambiguous.message(),
        "crates-io is replaced with remote registry https://mirror.example; include `--registry https://mirror.example` or `--registry crates-io`"
    );
    let transport = InfoError::Transport { message: "connection reset".to_string() };
    assert_eq!(transport.message(), "connection reset");
    let auth = InfoError::Auth { message: "token rejected".to_string() };
    assert_eq!(auth.message(), "token rejected");
}

#[test]
fn msrv_check_follows_compatible_range_semantics() {
    assert!(msrv_admits(&release(1, 50, 0), &release(1, 60, 0)));
    assert!(msrv_admits(&release(1, 50, 0), &release(1, 50, 0)));
    assert!(!msrv_admits(&release(1, 80, 0), &release(1, 60, 0)));
    assert!(!msrv_admits(&release(1, 50, 0), &release(2, 0, 0)));
    assert!(msrv_admits(&release(0, 5, 1), &release(0, 5, 3)));
    assert!(!msrv_admits(&release(0, 5, 1), &release(0, 6, 0)));
    assert!(msrv_admits(&release(0, 0, 7), &release(0, 0, 7)));
    assert!(!msrv_admits(&release(0, 0, 7), &release(0, 0, 8)));
}

#[test]
fn msrv_check_agrees_with_semver_caret_ranges() {
    let samples = [
        ((1u64, 50u64, 0u64), (1u64, 60u64, 0u64)),
        ((1, 50, 0), (1, 49, 9)),
        ((1, 80, 0), (1, 60, 0)),
        ((1, 50, 0), (2, 0, 0)),
        ((0, 5, 1), (0, 5, 3)),
        ((0, 5, 1), (0, 6, 0)),
        ((0, 0, 7), (0, 0, 7)),
        ((0, 0, 7), (0, 0, 8)),
    ];
    for ((ma, mi, pa), (ta, ti, tp)) in samples {
        let req = semver::VersionReq::parse(&format!("^{}.{}.{}", ma, mi, pa)).unwrap();
        let target = semver::Version::new(ta, ti, tp);
        let mine = msrv_admits(&release(ma, mi, pa), &release(ta, ti, tp));
        assert_eq!(mine, req.matches(&target), "mismatch for ^{ma}.{mi}.{pa} vs {ta}.{ti}.{tp}");
    }
}

#[test]
fn version_order_agrees_with_semver_for_prereleases() {
    let a = semver::Version::parse("1.2.3-alpha").unwrap();
    let b = semver::Version::parse("1.2.3").unwrap();
    assert!(a < b);
    assert!(version_lt(&prerelease(1, 2, 3, "alpha"), &release(1, 2, 3)));
    let c = semver::Version::parse("1.2.4-alpha").unwrap();
    assert!(b < c);
    assert!(version_lt(&release(1, 2, 3), &prerelease(1, 2, 4, "alpha")));
}
