// Probe resolution, containment, metadata parsing, workspace overrides, and
// the plain string utilities they rest on.

use fencerunner::probe::{
    ParsedProbeMetadata, ResolveError, parse_probe_metadata, path_within_dir, probe_filename,
    probe_id_from_filename, resolve_probe_check, resolve_probe_metadata,
};
use fencerunner::text::{str_contains, str_lt, trim_str};
use fencerunner::workspace::{
    WorkspaceOverride, WorkspacePlan, parse_workspace_override, workspace_plan_from_override,
    workspace_tmpdir_candidate, workspace_tmpdir_plan,
};
use fencerunner::{HarnessError, Probe, helper_candidates, resolve_helper_binary, split_list};

#[test]
fn workspace_override_skip_export() {
    let plan = workspace_plan_from_override(WorkspaceOverride::SkipExport);
    assert!(plan.export_value.is_none());
}

#[test]
fn workspace_override_canonicalizes_path() {
    let plan = workspace_plan_from_override(WorkspaceOverride::UsePath(
        "/tmp/workspace/probes".to_string(),
    ));
    assert!(plan.export_value.unwrap().contains("probes"));
}

#[test]
fn workspace_override_parses_empty_as_skip() {
    assert!(matches!(parse_workspace_override(""), WorkspaceOverride::SkipExport));
    assert!(
        matches!(parse_workspace_override("/srv/ws"), WorkspaceOverride::UsePath(ref p) if p == "/srv/ws")
    );
}

#[test]
fn workspace_tmpdir_prefers_workspace_tree() {
    let plan = WorkspacePlan { export_value: Some("/ws/custom".to_string()) };
    assert_eq!(workspace_tmpdir_candidate(&plan, "/ws/default"), "/ws/custom/tmp");
    let tmpdir = workspace_tmpdir_plan(&plan, "/ws/default", true, "");
    assert_eq!(tmpdir.path, Some("/ws/custom/tmp".to_string()));
    assert!(tmpdir.last_error.is_none());

    let fallback = WorkspacePlan { export_value: None };
    assert_eq!(workspace_tmpdir_candidate(&fallback, "/ws/default"), "/ws/default/tmp");
}

#[test]
fn workspace_tmpdir_records_error_when_creation_fails() {
    let plan = WorkspacePlan { export_value: Some("/ws/custom".to_string()) };
    let tmpdir = workspace_tmpdir_plan(&plan, "/ws/default", false, "read-only tree");
    assert!(tmpdir.path.is_none());
    let (attempted, message) = tmpdir.last_error.expect("missing error");
    assert_eq!(attempted, "/ws/custom/tmp");
    assert_eq!(message, "read-only tree");
    assert!(attempted.ends_with("tmp"));
}

#[test]
fn resolve_probe_metadata_prefers_script_values() {
    let script = "#!/usr/bin/env bash\nprobe_name=\"custom_probe\"\nprobe_version=\"2\"\nprimary_capability_id=\"cap_fs_read_workspace_tree\"\n";
    let parsed: ParsedProbeMetadata = parse_probe_metadata(script);
    let probe = Probe { id: "meta".to_string(), path: "/ws/probes/meta.sh".to_string() };
    let resolved = resolve_probe_metadata(&probe, parsed).expect("metadata resolves");
    assert_eq!(resolved.id, "custom_probe");
    assert_eq!(resolved.version, "2");
    assert_eq!(resolved.primary_capability, "cap_fs_read_workspace_tree");
}

#[test]
fn resolve_probe_metadata_falls_back_to_file_values() {
    let script = "#!/usr/bin/env bash\nprimary_capability_id=\"cap_fs_read_workspace_tree\"\n";
    let parsed = parse_probe_metadata(script);
    let probe = Probe { id: "meta".to_string(), path: "/ws/probes/meta.sh".to_string() };
    let resolved = resolve_probe_metadata(&probe, parsed).expect("metadata resolves");
    assert_eq!(resolved.id, "meta");
    assert_eq!(resolved.version, "0");
}

#[test]
fn resolve_probe_metadata_requires_primary_capability() {
    let parsed = parse_probe_metadata("#!/usr/bin/env bash\nexit 0\n");
    let probe = Probe { id: "bare".to_string(), path: "/ws/probes/bare.sh".to_string() };
    let err = resolve_probe_metadata(&probe, parsed).expect_err("missing primary must fail");
    assert!(matches!(err, ResolveError::MissingPrimaryCapability(ref p) if p == "bare"));
}

#[test]
fn parse_probe_metadata_splits_secondary_ids() {
    let script = "secondary_capability_ids=\"cap_a, cap_b cap_a\"\n";
    let parsed = parse_probe_metadata(script);
    assert_eq!(
        parsed.secondary,
        vec!["cap_a".to_string(), "cap_b".to_string(), "cap_a".to_string()]
    );
}

#[test]
fn probe_resolution_accepts_contained_path() {
    let probe = resolve_probe_check(
        "/ws/probes",
        "example",
        Some("/ws/probes/example.sh"),
        true,
        true,
    )
    .expect("contained probe resolves");
    assert_eq!(probe.id, "example");
    assert_eq!(probe.path, "/ws/probes/example.sh");
}

#[test]
fn probe_resolution_rejects_escapes_and_missing_files() {
    // An absolute path outside the probes tree.
    assert!(resolve_probe_check("/ws/probes", "evil", Some("/tmp/evil.sh"), true, true).is_err());
    // A symlink inside the tree whose canonical target lies outside it.
    assert!(
        resolve_probe_check(
            "/ws/probes",
            "sneaky",
            Some("/ws/elsewhere/target.sh"),
            true,
            true
        )
        .is_err()
    );
    // A path that does not canonicalize at all.
    assert!(resolve_probe_check("/ws/probes", "ghost", None, true, true).is_err());
    // A contained path without the execute bit.
    assert!(
        resolve_probe_check("/ws/probes", "dull", Some("/ws/probes/dull.sh"), true, false)
            .is_err()
    );
    // A contained path that is not a regular file.
    assert!(
        resolve_probe_check("/ws/probes", "dir", Some("/ws/probes/dir"), false, true).is_err()
    );
    let err = resolve_probe_check("/ws/probes", "evil", Some("/tmp/evil.sh"), true, true)
        .expect_err("outside path");
    assert!(err.describe().contains("Probe not found"));
}

#[test]
fn path_containment_requires_separator_boundary() {
    assert!(path_within_dir("/ws/probes", "/ws/probes/a.sh"));
    assert!(!path_within_dir("/ws/probes", "/ws/probes"));
    assert!(!path_within_dir("/ws/probes", "/ws/probes-evil/a.sh"));
    assert!(!path_within_dir("/ws/probes", "/other/probes/a.sh"));
}

#[test]
fn probe_ids_strip_the_script_extension() {
    assert_eq!(probe_id_from_filename("example.sh"), "example");
    assert_eq!(probe_id_from_filename("example"), "example");
    assert_eq!(probe_id_from_filename("a.b.sh"), "a.b");
    assert_eq!(probe_filename("example"), "example.sh");
    assert_eq!(probe_filename("example.sh"), "example.sh");
}

#[test]
fn split_list_handles_commas_whitespace_and_empties() {
    assert_eq!(split_list("a,b c"), vec!["a".to_string(), "b".to_string(), "c".to_string()]);
    assert_eq!(split_list("  ,, "), Vec::<String>::new());
    assert_eq!(split_list(""), Vec::<String>::new());
    assert_eq!(
        split_list(" cap_a ,cap_b,cap_a "),
        vec!["cap_a".to_string(), "cap_b".to_string(), "cap_a".to_string()]
    );
}

#[test]
fn trim_and_search_utilities_behave() {
    assert_eq!(trim_str("  hello\t"), "hello");
    assert_eq!(trim_str("   "), "");
    assert_eq!(trim_str("x"), "x");
    assert!(str_contains("sandbox_apply failed", "sandbox_apply"));
    assert!(!str_contains("sandbox", "sandbox_apply"));
    assert!(str_lt("cap_a", "cap_b"));
    assert!(!str_lt("cap_b", "cap_a"));
    assert!(str_lt("cap", "cap_a"));
}

#[test]
fn resolve_helper_prefers_release() {
    let resolved = resolve_helper_binary("/repo", "fence-run", &vec![false, true, false])
        .expect("release helper resolves");
    assert_eq!(resolved, "/repo/target/release/fence-run");
}

#[test]
fn resolve_helper_falls_back_to_bin() {
    let resolved = resolve_helper_binary("/repo", "emit-record", &vec![true, true, true])
        .expect("bin helper wins");
    assert_eq!(resolved, "/repo/bin/emit-record");
}

#[test]
fn resolve_helper_fails_when_nothing_is_executable() {
    let err = resolve_helper_binary("/repo", "fence-run", &vec![false, false, false])
        .expect_err("no helper");
    let HarnessError::HelperNotFound(name, root) = err;
    assert_eq!(name, "fence-run");
    assert_eq!(root, "/repo");
}

#[test]
fn helper_candidates_follow_search_order() {
    let candidates = helper_candidates("/repo", "probe-exec");
    assert_eq!(
        candidates,
        vec![
            "/repo/bin/probe-exec".to_string(),
            "/repo/target/release/probe-exec".to_string(),
            "/repo/target/debug/probe-exec".to_string(),
        ]
    );
}
