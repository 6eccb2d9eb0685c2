// Run-mode registry and planner guard rails.

use fencerunner::connectors::{
    Availability, CommandSpec, ConnectorKind, ModePlan, PlanError, PreflightPlan, RunMode,
    allowed_mode_names, default_mode_names, parse_modes, plan_for_mode,
};

#[test]
fn defaults_gate_on_external_availability() {
    let without_external = Availability { external_cli_present: false };
    let with_external = Availability { external_cli_present: true };

    assert_eq!(
        default_mode_names(without_external),
        vec!["baseline".to_string(), "codex-full".to_string()]
    );
    assert_eq!(
        default_mode_names(with_external),
        vec![
            "baseline".to_string(),
            "codex-full".to_string(),
            "codex-sandbox".to_string(),
        ]
    );
}

#[test]
fn run_mode_parse_and_strings_round_trip() {
    let baseline = RunMode::try_from("baseline").expect("baseline parses");
    assert_eq!(baseline.as_str(), "baseline");
    let codex_full = RunMode::try_from("codex-full").expect("codex-full parses");
    assert!(!codex_full.is_external());
    assert!(RunMode::try_from("unknown-mode").is_err());
}

#[test]
fn baseline_plan_uses_direct_execution() {
    let plan: ModePlan = plan_for_mode(
        "baseline",
        "Darwin",
        "/tmp/probe.sh",
        None,
        Availability { external_cli_present: false },
    )
    .expect("baseline plan");

    assert_eq!(plan.run_mode, RunMode::Baseline);
    assert_eq!(plan.connector, ConnectorKind::Ambient);
    assert!(plan.preflight.is_none());
    assert_eq!(plan.command.args.len(), 0);
    assert_eq!(plan.command.program, "/tmp/probe.sh".to_string());
}

#[test]
fn sandbox_plan_wraps_probe_in_external_cli() {
    let plan = plan_for_mode(
        "codex-sandbox",
        "Darwin",
        "/tmp/probe.sh",
        None,
        Availability { external_cli_present: true },
    )
    .expect("sandbox plan");

    assert_eq!(plan.run_mode, RunMode::CodexSandbox);
    assert_eq!(plan.connector, ConnectorKind::ExternalCli);
    let CommandSpec { program, args } = plan.command;
    assert_eq!(program, "codex");
    assert_eq!(
        args,
        vec![
            "sandbox".to_string(),
            "macos".to_string(),
            "--full-auto".to_string(),
            "--".to_string(),
            "/tmp/probe.sh".to_string(),
        ]
    );
    match plan.preflight {
        Some(PreflightPlan::ExternalTmp { platform_target }) => {
            assert_eq!(platform_target, "macos");
        }
        None => panic!("sandbox mode must carry a preflight plan"),
    }
    assert_eq!(plan.sandbox_env, "workspace-write");
}

#[test]
fn external_mode_without_cli_fails_before_touching_probes() {
    let err = plan_for_mode(
        "codex-sandbox",
        "Linux",
        "/tmp/probe.sh",
        None,
        Availability { external_cli_present: false },
    )
    .expect_err("missing external tool must fail");
    assert!(matches!(err, PlanError::ExternalCliMissing));
    assert!(err.describe().contains("codex"));
}

#[test]
fn unsupported_platform_fails_for_sandbox_mode() {
    let err = plan_for_mode(
        "codex-sandbox",
        "Plan9",
        "/tmp/probe.sh",
        None,
        Availability { external_cli_present: true },
    )
    .expect_err("unsupported platform must fail");
    assert!(matches!(err, PlanError::UnsupportedPlatform(ref p) if p == "Plan9"));
}

#[test]
fn full_access_mode_runs_probe_directly() {
    let plan = plan_for_mode(
        "codex-full",
        "Linux",
        "/tmp/probe.sh",
        None,
        Availability { external_cli_present: false },
    )
    .expect("full-access plan");
    assert_eq!(plan.connector, ConnectorKind::Ambient);
    assert!(plan.preflight.is_none());
    assert_eq!(plan.command.program, "/tmp/probe.sh");
    assert_eq!(plan.sandbox_env, "danger-full-access");
}

#[test]
fn sandbox_values_honor_override() {
    assert_eq!(RunMode::Baseline.sandbox_value(None), "");
    assert_eq!(RunMode::CodexSandbox.sandbox_value(None), "workspace-write");
    assert_eq!(RunMode::CodexFull.sandbox_value(None), "danger-full-access");
    assert_eq!(
        RunMode::CodexSandbox.sandbox_value(Some("read-only".to_string())),
        "read-only"
    );
    assert_eq!(RunMode::Baseline.sandbox_stack_value(None), None);
    assert_eq!(
        RunMode::CodexSandbox.sandbox_stack_value(None),
        Some("workspace-write".to_string())
    );
}

#[test]
fn parse_modes_accepts_known_and_rejects_unknown() {
    let modes = parse_modes(&vec!["baseline".to_string(), "codex-sandbox".to_string()])
        .expect("known modes parse");
    assert_eq!(modes, vec![RunMode::Baseline, RunMode::CodexSandbox]);
    assert!(parse_modes(&vec!["baseline".to_string(), "bogus".to_string()]).is_err());
}

#[test]
fn allowed_mode_names_lists_registry_order() {
    assert_eq!(allowed_mode_names(), vec!["baseline", "codex-full", "codex-sandbox"]);
}
