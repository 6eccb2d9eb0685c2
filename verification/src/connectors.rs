//! Run-mode registry and command planner.
//!
//! Every run mode maps to exactly one connector (direct spawn, or the
//! external sandboxing CLI), a sandbox parameter, a command line, and an
//! optional preflight step.  The plan is a pure function of the requested
//! mode, the host platform name, the probe path and an optional sandbox
//! override, so it is safe to compute speculatively; availability of the
//! external tool is threaded in explicitly so the planner itself never
//! touches the host.

use vstd::prelude::*;
use crate::text::str_eq;

verus! {

/// The mechanism used to invoke a probe.
#[derive(Clone, Copy, Debug, PartialEq, Eq, Structural)]
pub enum ConnectorKind {
    /// Spawn the probe directly.
    Ambient,
    /// Spawn the external sandboxing CLI with the probe as trailing argument.
    ExternalCli,
}

/// A named policy profile selecting a connector and its parameters.
#[derive(Clone, Copy, Debug, PartialEq, Eq, Structural)]
pub enum RunMode {
    /// Direct execution, no sandboxing.
    Baseline,
    /// Wrapped by the external CLI with a restrictive profile.
    CodexSandbox,
    /// Wrapped semantics with an unrestricted profile, run directly.
    CodexFull,
}

/// Why a plan could not be computed.
#[derive(Debug)]
pub enum PlanError {
    UnknownMode(String),
    UnsupportedPlatform(String),
    ExternalCliMissing,
}

/// The name of the external sandboxing CLI this harness drives.
pub fn external_cli_name() -> (r: &'static str)
    ensures
        r@ == "codex"@,
{
    "codex"
}

impl RunMode {
    /// The wire name of the mode.
    pub open spec fn spec_name(&self) -> Seq<char> {
        match self {
            RunMode::Baseline => "baseline"@,
            RunMode::CodexSandbox => "codex-sandbox"@,
            RunMode::CodexFull => "codex-full"@,
        }
    }

    /// The wire name of the mode.
    pub fn as_str(&self) -> (r: &'static str)
        ensures
            r@ == self.spec_name(),
    {
        match self {
            RunMode::Baseline => "baseline",
            RunMode::CodexSandbox => "codex-sandbox",
            RunMode::CodexFull => "codex-full",
        }
    }

    /// The connector of the mode.  The mapping is fixed and total: every
    /// mode has exactly one connector.
    pub open spec fn spec_connector(&self) -> ConnectorKind {
        match self {
            RunMode::Baseline => ConnectorKind::Ambient,
            RunMode::CodexSandbox => ConnectorKind::ExternalCli,
            RunMode::CodexFull => ConnectorKind::Ambient,
        }
    }

    /// The connector of the mode.
    pub fn connector(&self) -> (r: ConnectorKind)
        ensures
            r == self.spec_connector(),
    {
        match self {
            RunMode::Baseline => ConnectorKind::Ambient,
            RunMode::CodexSandbox => ConnectorKind::ExternalCli,
            RunMode::CodexFull => ConnectorKind::Ambient,
        }
    }

    /// Whether the mode runs through the external CLI.
    pub fn is_external(&self) -> (r: bool)
        ensures
            r == (self.spec_connector() == ConnectorKind::ExternalCli),
    {
        self.connector() == ConnectorKind::ExternalCli
    }

    /// The sandbox parameter of the mode: empty for baseline, else the
    /// mode's profile name, replaced by `override_value` when one is given.
    pub open spec fn spec_sandbox_value(&self, override_value: Option<Seq<char>>) -> Seq<char> {
        match self {
            RunMode::Baseline => Seq::empty(),
            RunMode::CodexSandbox => match override_value {
                Some(v) => v,
                None => "workspace-write"@,
            },
            RunMode::CodexFull => match override_value {
                Some(v) => v,
                None => "danger-full-access"@,
            },
        }
    }

    /// The sandbox parameter of the mode.
    pub fn sandbox_value(&self, override_value: Option<String>) -> (r: String)
        ensures
            r@ == self.spec_sandbox_value(spec_opt_view(override_value)),
    {
        match self {
            RunMode::Baseline => String::new(),
            RunMode::CodexSandbox => match override_value {
                Some(v) => v,
                None => String::from_str("workspace-write"),
            },
            RunMode::CodexFull => match override_value {
                Some(v) => v,
                None => String::from_str("danger-full-access"),
            },
        }
    }

    /// The sandbox parameter as recorded in stack metadata: `None` when the
    /// mode carries no sandbox value, else the value itself.
    pub fn sandbox_stack_value(&self, override_value: Option<String>) -> (r: Option<String>)
        ensures
            self.spec_sandbox_value(spec_opt_view(override_value)).len() == 0 <==> r is None,
            r matches Some(v) ==> v@ == self.spec_sandbox_value(spec_opt_view(override_value)),
    {
        let value = self.sandbox_value(override_value);
        if value.as_str().is_empty() {
            None
        } else {
            Some(value)
        }
    }

    /// Parse a wire name into a mode.  Unknown names are rejected.
    pub fn try_from(value: &str) -> (r: Result<RunMode, PlanError>)
        ensures
            r matches Ok(m) ==> spec_parse_mode(value@) == Some(m),
            r is Err <==> spec_parse_mode(value@) is None,
            r matches Err(e) ==> e matches PlanError::UnknownMode(v) && v@ == value@,
    {
        if str_eq(value, "baseline") {
            Ok(RunMode::Baseline)
        } else if str_eq(value, "codex-sandbox") {
            Ok(RunMode::CodexSandbox)
        } else if str_eq(value, "codex-full") {
            Ok(RunMode::CodexFull)
        } else {
            proof {
                lemma_mode_names_distinct();
            }
            Err(PlanError::UnknownMode(value.to_owned()))
        }
    }
}

/// The view of an optional owned string.
pub open spec fn spec_opt_view(v: Option<String>) -> Option<Seq<char>> {
    match v {
        Some(s) => Some(s@),
        None => None,
    }
}

/// The mode a wire name denotes, if any.
pub open spec fn spec_parse_mode(v: Seq<char>) -> Option<RunMode> {
    if v == "baseline"@ {
        Some(RunMode::Baseline)
    } else if v == "codex-sandbox"@ {
        Some(RunMode::CodexSandbox)
    } else if v == "codex-full"@ {
        Some(RunMode::CodexFull)
    } else {
        None
    }
}

/// The three mode names denote three distinct strings.
proof fn lemma_mode_names_distinct()
    ensures
        "baseline"@ != "codex-sandbox"@,
        "baseline"@ != "codex-full"@,
        "codex-sandbox"@ != "codex-full"@,
{
    reveal_strlit("baseline");
    reveal_strlit("codex-sandbox");
    reveal_strlit("codex-full");
    assert("baseline"@.len() == 8);
    assert("codex-sandbox"@.len() == 13);
    assert("codex-full"@.len() == 10);
}

/// The platform-sandbox target of a host platform name.  Only two platforms
/// are recognized; anything else fails early rather than guessing.
pub open spec fn spec_platform_target(platform: Seq<char>) -> Option<Seq<char>> {
    if platform == "Darwin"@ {
        Some("macos"@)
    } else if platform == "Linux"@ {
        Some("linux"@)
    } else {
        None
    }
}

/// Map a host platform name to the external CLI's sandbox target.
pub fn external_platform_target(platform: &str) -> (r: Result<&'static str, PlanError>)
    ensures
        r matches Ok(t) ==> spec_platform_target(platform@) == Some(t@),
        r is Err <==> spec_platform_target(platform@) is None,
        r matches Err(e) ==> e matches PlanError::UnsupportedPlatform(p) && p@ == platform@,
{
    if str_eq(platform, "Darwin") {
        Ok("macos")
    } else if str_eq(platform, "Linux") {
        Ok("linux")
    } else {
        proof {
            reveal_strlit("Darwin");
            reveal_strlit("Linux");
        }
        Err(PlanError::UnsupportedPlatform(platform.to_owned()))
    }
}

impl PlanError {
    /// A human-readable account of the failure.  The message for a missing
    /// external CLI names the tool and tells the operator to install it or
    /// run baseline instead.
    pub fn describe(&self) -> (r: String)
        ensures
            self matches PlanError::UnknownMode(m) ==> r@ == "Unknown mode: "@ + m@,
            self matches PlanError::UnsupportedPlatform(p) ==> r@
                == "Unsupported platform for external sandbox mode: "@ + p@,
            self matches PlanError::ExternalCliMissing ==> r@
                == "external CLI 'codex' not found; codex modes require the external runner. Install codex or run baseline instead."@,
    {
        match self {
            PlanError::UnknownMode(m) => String::from_str("Unknown mode: ").concat(m.as_str()),
            PlanError::UnsupportedPlatform(p) => String::from_str(
                "Unsupported platform for external sandbox mode: ",
            ).concat(p.as_str()),
            PlanError::ExternalCliMissing => String::from_str(
                "external CLI 'codex' not found; codex modes require the external runner. Install codex or run baseline instead.",
            ),
        }
    }
}

/// The names of the modes enabled by default on a host: baseline and the
/// full-access mode always; the external-sandbox mode only when the external
/// CLI is present.
pub fn default_mode_names(availability: Availability) -> (r: Vec<String>)
    ensures
        availability.external_cli_present ==> r.deep_view() == seq![
            "baseline"@,
            "codex-full"@,
            "codex-sandbox"@,
        ],
        !availability.external_cli_present ==> r.deep_view() == seq!["baseline"@, "codex-full"@],
{
    let mut r: Vec<String> = Vec::new();
    r.push(String::from_str("baseline"));
    r.push(String::from_str("codex-full"));
    if availability.external_cli_present {
        r.push(String::from_str("codex-sandbox"));
        proof {
            assert(r.deep_view() =~= seq!["baseline"@, "codex-full"@, "codex-sandbox"@]);
        }
    } else {
        proof {
            assert(r.deep_view() =~= seq!["baseline"@, "codex-full"@]);
        }
    }
    r
}

/// Every mode name the harness accepts, in registry order.
pub fn allowed_mode_names() -> (r: Vec<&'static str>)
    ensures
        r.deep_view() == seq!["baseline"@, "codex-full"@, "codex-sandbox"@],
{
    let mut r: Vec<&'static str> = Vec::new();
    r.push("baseline");
    r.push("codex-full");
    r.push("codex-sandbox");
    proof {
        assert(r.deep_view() =~= seq!["baseline"@, "codex-full"@, "codex-sandbox"@]);
    }
    r
}

/// Parse a list of mode names.  The whole list is rejected on the first
/// unknown name.
pub fn parse_modes(modes: &Vec<String>) -> (r: Result<Vec<RunMode>, PlanError>)
    ensures
        r is Ok <==> (forall|i: int|
            0 <= i < modes.deep_view().len() ==> spec_parse_mode(
                #[trigger] modes.deep_view()[i],
            ) is Some),
        r matches Ok(list) ==> list@.len() == modes.deep_view().len() && (forall|i: int|
            0 <= i < list@.len() ==> Some(#[trigger] list@[i]) == spec_parse_mode(
                modes.deep_view()[i],
            )),
        r matches Err(e) ==> e matches PlanError::UnknownMode(v) && modes.deep_view().contains(v@)
            && spec_parse_mode(v@) is None,
{
    let n = modes.len();
    let mut out: Vec<RunMode> = Vec::new();
    let mut i: usize = 0;
    while i < n
        invariant
            n == modes@.len(),
            0 <= i <= n,
            out@.len() == i,
            forall|j: int|
                0 <= j < i ==> Some(#[trigger] out@[j]) == spec_parse_mode(modes.deep_view()[j]),
        decreases n - i,
    {
        match RunMode::try_from(modes[i].as_str()) {
            Ok(m) => {
                out.push(m);
            },
            Err(e) => {
                proof {
                    assert(modes.deep_view()[i as int] == modes@[i as int]@);
                    assert(modes.deep_view().contains(modes@[i as int]@));
                    assert(spec_parse_mode(modes.deep_view()[i as int]) is None);
                }
                return Err(e);
            },
        }
        i = i + 1;
    }
    proof {
        assert forall|j: int|
            0 <= j < modes.deep_view().len() implies spec_parse_mode(
            #[trigger] modes.deep_view()[j],
        ) is Some by {
            assert(Some(out@[j]) == spec_parse_mode(modes.deep_view()[j]));
        }
    }
    Ok(out)
}

/// The concrete command to run for one (mode, probe) pair.
#[derive(Debug)]
pub struct CommandSpec {
    pub program: String,
    pub args: Vec<String>,
}

/// The optional trial step run before the real probe.
#[derive(Debug)]
pub enum PreflightPlan {
    /// Attempt a scratch-directory creation through the external CLI before
    /// trusting the connector for the real probe.
    ExternalTmp { platform_target: String },
}

/// A fully computed plan for one (mode, probe) pair.
#[derive(Debug)]
pub struct ModePlan {
    pub run_mode: RunMode,
    pub connector: ConnectorKind,
    pub sandbox_env: String,
    pub command: CommandSpec,
    pub preflight: Option<PreflightPlan>,
}

/// What the host offers: whether the external CLI is discoverable.
#[derive(Clone, Copy, PartialEq, Eq, Structural)]
pub struct Availability {
    pub external_cli_present: bool,
}

impl Availability {
    /// Package a host detection result.  The caller performs the actual
    /// lookup on the search path and passes the outcome in.
    pub fn for_host(external_cli_present: bool) -> (r: Availability)
        ensures
            r.external_cli_present == external_cli_present,
    {
        Availability { external_cli_present }
    }
}

/// The fixed argument shape of an external-sandbox invocation:
/// `sandbox <platform-target> --full-auto -- <probe>`.
pub open spec fn spec_sandbox_args(target: Seq<char>, probe_path: Seq<char>) -> Seq<Seq<char>> {
    seq!["sandbox"@, target, "--full-auto"@, "--"@, probe_path]
}

/// Whether a plan for `(mode, platform, availability)` can be computed: the
/// mode must parse, an external mode needs the external CLI present, and the
/// external-sandbox mode needs a recognized platform.
pub open spec fn spec_plan_ok(
    mode: Seq<char>,
    platform: Seq<char>,
    availability: Availability,
) -> bool {
    match spec_parse_mode(mode) {
        None => false,
        Some(m) => {
            &&& (m.spec_connector() == ConnectorKind::ExternalCli
                ==> availability.external_cli_present)
            &&& (m == RunMode::CodexSandbox ==> spec_platform_target(platform) is Some)
        },
    }
}

/// Compute the full plan for a requested mode: connector, sandbox parameter,
/// command line, and optional preflight step.
///
/// Baseline and the full-access mode run the probe directly with zero extra
/// arguments and no preflight.  The external-sandbox mode wraps the probe in
/// the external CLI with the fixed argument shape and carries a preflight
/// plan for the platform target.  An external mode with the external CLI
/// absent fails at once, before anything touches a probe.
pub fn plan_for_mode(
    requested_mode: &str,
    platform: &str,
    probe_path: &str,
    sandbox_override: Option<String>,
    availability: Availability,
) -> (r: Result<ModePlan, PlanError>)
    ensures
        r is Ok <==> spec_plan_ok(requested_mode@, platform@, availability),
        r matches Ok(plan) ==> {
            let m = spec_parse_mode(requested_mode@)->0;
            &&& spec_parse_mode(requested_mode@) is Some
            &&& plan.run_mode == m
            &&& plan.connector == m.spec_connector()
            &&& plan.sandbox_env@ == m.spec_sandbox_value(spec_opt_view(sandbox_override))
        },
        r matches Ok(plan) ==> (spec_parse_mode(requested_mode@)->0 != RunMode::CodexSandbox
            ==> {
            &&& plan.command.program@ == probe_path@
            &&& plan.command.args@.len() == 0
            &&& plan.preflight is None
        }),
        r matches Ok(plan) ==> (spec_parse_mode(requested_mode@)->0 == RunMode::CodexSandbox
            ==> {
            &&& plan.command.program@ == "codex"@
            &&& plan.command.args.deep_view() == spec_sandbox_args(
                spec_platform_target(platform@)->0,
                probe_path@,
            )
            &&& (plan.preflight matches Some(p) && p matches PreflightPlan::ExternalTmp {
                platform_target,
            } && platform_target@ == spec_platform_target(platform@)->0)
        }),
        r matches Err(e) ==> (e matches PlanError::UnknownMode(v) ==> v@ == requested_mode@),
        r matches Err(e) ==> (e is UnknownMode <==> spec_parse_mode(requested_mode@) is None),
        r matches Err(e) ==> (e is ExternalCliMissing <==> (spec_parse_mode(requested_mode@)
            matches Some(m) && m.spec_connector() == ConnectorKind::ExternalCli
            && !availability.external_cli_present)),
        r matches Err(e) ==> (e is UnsupportedPlatform <==> (spec_parse_mode(requested_mode@)
            == Some(RunMode::CodexSandbox) && availability.external_cli_present
            && spec_platform_target(platform@) is None)),
{
    let run_mode = match RunMode::try_from(requested_mode) {
        Ok(m) => m,
        Err(e) => {
            return Err(e);
        },
    };
    if run_mode.is_external() && !availability.external_cli_present {
        return Err(PlanError::ExternalCliMissing);
    }
    let sandbox_env = run_mode.sandbox_value(sandbox_override);
    match run_mode {
        RunMode::Baseline | RunMode::CodexFull => Ok(ModePlan {
            run_mode,
            connector: run_mode.connector(),
            sandbox_env,
            command: CommandSpec { program: probe_path.to_owned(), args: Vec::new() },
            preflight: None,
        }),
        RunMode::CodexSandbox => {
            let target = match external_platform_target(platform) {
                Ok(t) => t,
                Err(e) => {
                    return Err(e);
                },
            };
            let mut args: Vec<String> = Vec::new();
            args.push(String::from_str("sandbox"));
            args.push(target.to_owned());
            args.push(String::from_str("--full-auto"));
            args.push(String::from_str("--"));
            args.push(probe_path.to_owned());
            proof {
                assert(args.deep_view() =~= spec_sandbox_args(
                    spec_platform_target(platform@)->0,
                    probe_path@,
                ));
            }
            Ok(ModePlan {
                run_mode,
                connector: run_mode.connector(),
                sandbox_env,
                command: CommandSpec { program: String::from_str("codex"), args },
                preflight: Some(PreflightPlan::ExternalTmp { platform_target: target.to_owned() }),
            })
        },
    }
}

} // verus!
