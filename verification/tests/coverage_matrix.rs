// Coverage building, drift validation, and matrix orchestration decisions.

use fencerunner::catalog::{
    Capability, CapabilityCatalog, CapabilityCategory, CapabilityLayer, CatalogKey,
    CatalogMetadata, Operations, PolicyLayer, Scope,
};
use fencerunner::connectors::RunMode;
use fencerunner::coverage::{
    CoverageEntry, CoverageIssue, build_probe_coverage_map, validate_coverage_map,
    validate_probe_capabilities,
};
use fencerunner::matrix::{
    CommandTarget, MatrixError, MatrixReport, PairAction, Selection, pair_outcome,
    probes_for_capability, sandbox_unavailable_signature, set_selection,
};
use fencerunner::probe::ResolvedProbeMetadata;
use fencerunner::{CapabilityId, CapabilityIndex, Probe};

fn two_cap_index() -> CapabilityIndex {
    let capabilities = vec![
        Capability {
            id: CapabilityId("cap_a".to_string()),
            category: CapabilityCategory::Filesystem,
            layer: CapabilityLayer::OsSandbox,
            description: "cap a".to_string(),
            operations: Operations { allow: Vec::new(), deny: Vec::new() },
            sources: Vec::new(),
        },
        Capability {
            id: CapabilityId("cap_b".to_string()),
            category: CapabilityCategory::Filesystem,
            layer: CapabilityLayer::OsSandbox,
            description: "cap b".to_string(),
            operations: Operations { allow: Vec::new(), deny: Vec::new() },
            sources: Vec::new(),
        },
    ];
    let catalog = CapabilityCatalog {
        schema_version: "sandbox_catalog_v1".to_string(),
        catalog: CatalogMetadata {
            key: CatalogKey("sample_catalog_v1".to_string()),
            title: "sample catalog".to_string(),
            labels: Vec::new(),
        },
        scope: Scope {
            description: "test".to_string(),
            policy_layers: vec![PolicyLayer {
                id: "os_sandbox".to_string(),
                description: "fixture layer".to_string(),
            }],
            categories: vec![("filesystem".to_string(), "fixture".to_string())],
        },
        docs: Vec::new(),
        capabilities,
    };
    CapabilityIndex::load(catalog, None).expect("fixture catalog loads")
}

fn probe_meta(id: &str, primary: &str) -> ResolvedProbeMetadata {
    ResolvedProbeMetadata {
        id: id.to_string(),
        version: "1".to_string(),
        primary_capability: primary.to_string(),
        secondary: Vec::new(),
    }
}

#[test]
fn coverage_builder_marks_declared_capabilities() {
    let index = two_cap_index();
    let probes = vec![probe_meta("probe_one", "cap_a")];
    let coverage = build_probe_coverage_map(&index, &probes);
    assert_eq!(coverage.len(), 2);
    assert_eq!(coverage[0].0 .0, "cap_a");
    assert!(coverage[0].1.has_probe);
    assert_eq!(coverage[0].1.probe_ids, vec!["probe_one".to_string()]);
    assert_eq!(coverage[1].0 .0, "cap_b");
    assert!(!coverage[1].1.has_probe);
    assert_eq!(coverage[1].1.probe_ids, Vec::<String>::new());
}

#[test]
fn coverage_builder_sorts_and_deduplicates_probe_ids() {
    let index = two_cap_index();
    let probes = vec![
        probe_meta("zeta", "cap_a"),
        probe_meta("alpha", "cap_a"),
        probe_meta("zeta", "cap_a"),
    ];
    let coverage = build_probe_coverage_map(&index, &probes);
    assert_eq!(coverage[0].1.probe_ids, vec!["alpha".to_string(), "zeta".to_string()]);
}

fn consistent_stored() -> Vec<(String, CoverageEntry)> {
    vec![
        (
            "cap_a".to_string(),
            CoverageEntry { has_probe: true, probe_ids: vec!["probe_one".to_string()] },
        ),
        ("cap_b".to_string(), CoverageEntry { has_probe: false, probe_ids: Vec::new() }),
    ]
}

#[test]
fn coverage_validator_accepts_consistent_map() {
    let index = two_cap_index();
    let probes = vec![probe_meta("probe_one", "cap_a")];
    let issues = validate_coverage_map(&index, &probes, &consistent_stored());
    assert!(issues.is_empty(), "unexpected drift: {issues:?}");
}

#[test]
fn coverage_validator_collects_every_discrepancy() {
    let index = two_cap_index();
    let probes = vec![probe_meta("probe_one", "cap_a"), probe_meta("probe_two", "cap_b")];
    let stored = vec![
        // Unknown capability, and a stale has_probe flag.
        ("cap_ghost".to_string(), CoverageEntry { has_probe: true, probe_ids: Vec::new() }),
        // Lists a probe that does not exist and one that targets another capability.
        (
            "cap_a".to_string(),
            CoverageEntry {
                has_probe: true,
                probe_ids: vec!["probe_missing".to_string(), "probe_two".to_string()],
            },
        ),
        // Marked uncovered although a probe targets it, and missing that probe.
        ("cap_b".to_string(), CoverageEntry { has_probe: false, probe_ids: Vec::new() }),
    ];
    let issues = validate_coverage_map(&index, &probes, &stored);
    assert!(issues.iter().any(|i| matches!(i, CoverageIssue::UnknownCapability(c) if c == "cap_ghost")));
    assert!(issues.iter().any(|i| matches!(i, CoverageIssue::MarkedCoveredWithoutProbes(c) if c == "cap_ghost")));
    assert!(issues.iter().any(
        |i| matches!(i, CoverageIssue::UnknownProbe(c, p) if c == "cap_a" && p == "probe_missing")
    ));
    assert!(issues.iter().any(
        |i| matches!(i, CoverageIssue::WrongCapability(c, p) if c == "cap_a" && p == "probe_two")
    ));
    assert!(issues.iter().any(
        |i| matches!(i, CoverageIssue::MarkedUncoveredDespiteProbes(c) if c == "cap_b")
    ));
    assert!(issues.iter().any(
        |i| matches!(i, CoverageIssue::MissingProbe(c, p) if c == "cap_b" && p == "probe_two")
    ));
}

#[test]
fn coverage_validator_reports_missing_entries() {
    let index = two_cap_index();
    let probes = vec![probe_meta("probe_one", "cap_a")];
    let stored = vec![(
        "cap_a".to_string(),
        CoverageEntry { has_probe: true, probe_ids: vec!["probe_one".to_string()] },
    )];
    let issues = validate_coverage_map(&index, &probes, &stored);
    assert!(issues.iter().any(|i| matches!(i, CoverageIssue::MissingEntry(c) if c == "cap_b")));
}

#[test]
fn probe_capability_validation_flags_unknown_primaries() {
    let index = two_cap_index();
    let good = vec![probe_meta("probe_one", "cap_a")];
    assert!(validate_probe_capabilities(&index, &good).is_empty());
    let bad = vec![probe_meta("probe_one", "cap_ghost")];
    let issues = validate_probe_capabilities(&index, &bad);
    assert!(issues.iter().any(
        |i| matches!(i, CoverageIssue::UnknownProbeCapability(p, c) if p == "probe_one" && c == "cap_ghost")
    ));
}

#[test]
fn matrix_run_aggregates_failures_without_aborting() {
    // A baseline run over a well-behaved probe and one that prints non-JSON:
    // the good pair emits, the malformed pair records a failure naming the
    // probe, and the run as a whole reports failure.
    let mut report = MatrixReport::new();

    let good = pair_outcome(RunMode::Baseline, "tests_fixture_probe", true, Some(0), "", true);
    assert!(matches!(good, PairAction::Emit));
    report.record(good);

    let malformed = pair_outcome(
        RunMode::Baseline,
        "tests_malformed_probe",
        true,
        Some(0),
        "",
        false,
    );
    assert!(matches!(malformed, PairAction::Fail(_)));
    report.record(malformed);

    assert!(!report.is_success());
    assert_eq!(report.failure_count(), 1);
    assert!(report.failures()[0].contains("tests_malformed_probe"));
    assert!(report.failures()[0].contains("baseline"));
}

#[test]
fn sandbox_unavailable_hosts_are_skipped_not_failed() {
    let skip_by_code = pair_outcome(
        RunMode::CodexSandbox,
        "fixture",
        false,
        Some(71),
        "",
        false,
    );
    assert!(matches!(skip_by_code, PairAction::SkipSandboxUnavailable));

    let skip_by_stderr = pair_outcome(
        RunMode::CodexSandbox,
        "fixture",
        false,
        Some(1),
        "sandbox_apply: operation rejected",
        false,
    );
    assert!(matches!(skip_by_stderr, PairAction::SkipSandboxUnavailable));

    // The signature never fires for an ambient mode.
    assert!(!sandbox_unavailable_signature(RunMode::Baseline, Some(71), "sandbox_apply"));
    let baseline_failure = pair_outcome(RunMode::Baseline, "fixture", false, Some(71), "", false);
    assert!(matches!(baseline_failure, PairAction::Fail(_)));
}

#[test]
fn selections_are_mutually_exclusive() {
    let first = set_selection(None, Selection::Probe("p".to_string())).expect("first selection");
    assert!(matches!(first, Some(Selection::Probe(_))));
    let replaced = set_selection(
        Some(Selection::All { explicit: false }),
        Selection::Bundle("cap_a".to_string()),
    )
    .expect("implicit default is replaceable");
    assert!(matches!(replaced, Some(Selection::Bundle(_))));
    let err = set_selection(
        Some(Selection::Probe("p".to_string())),
        Selection::Bundle("cap_a".to_string()),
    )
    .expect_err("conflicting selection");
    assert!(matches!(err, MatrixError::ConflictingSelection));
}

#[test]
fn probes_for_capability_filters_and_requires_matches() {
    let entries = vec![
        (
            Probe { id: "one".to_string(), path: "/ws/probes/one.sh".to_string() },
            probe_meta("one", "cap_a"),
        ),
        (
            Probe { id: "two".to_string(), path: "/ws/probes/two.sh".to_string() },
            probe_meta("two", "cap_b"),
        ),
        (
            Probe { id: "three".to_string(), path: "/ws/probes/three.sh".to_string() },
            probe_meta("three", "cap_a"),
        ),
    ];
    let matches = probes_for_capability(entries, &CapabilityId("cap_a".to_string()))
        .expect("matching probes");
    let ids: Vec<&str> = matches.iter().map(|p| p.id.as_str()).collect();
    assert_eq!(ids, vec!["one", "three"]);

    // Matches come back sorted ascending by id regardless of input order.
    let reversed = vec![
        (
            Probe { id: "zeta".to_string(), path: "/ws/probes/zeta.sh".to_string() },
            probe_meta("zeta", "cap_a"),
        ),
        (
            Probe { id: "alpha".to_string(), path: "/ws/probes/alpha.sh".to_string() },
            probe_meta("alpha", "cap_a"),
        ),
    ];
    let sorted = probes_for_capability(reversed, &CapabilityId("cap_a".to_string()))
        .expect("matching probes");
    let sorted_ids: Vec<&str> = sorted.iter().map(|p| p.id.as_str()).collect();
    assert_eq!(sorted_ids, vec!["alpha", "zeta"]);

    let err = probes_for_capability(Vec::new(), &CapabilityId("cap_a".to_string()))
        .expect_err("no probes");
    assert!(matches!(err, MatrixError::NoProbesForCapability(ref c) if c == "cap_a"));
}

#[test]
fn command_targets_map_to_helpers() {
    assert_eq!(CommandTarget::Bang.helper_name(), "fence-bang");
    assert_eq!(CommandTarget::Listen.helper_name(), "fence-listen");
    assert_eq!(CommandTarget::Test.helper_name(), "fence-test");
    assert_eq!(CommandTarget::CoverageMap.helper_name(), "");
    assert!(!CommandTarget::Bang.requires_repo_root());
    assert!(!CommandTarget::Listen.requires_repo_root());
    assert!(CommandTarget::Test.requires_repo_root());
    assert!(CommandTarget::CoverageMap.requires_repo_root());
    assert!(CommandTarget::ValidateCapabilities.requires_repo_root());
}
