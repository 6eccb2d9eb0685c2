//! Preflight checking for the external-sandbox connector.
//!
//! Before running the real probe in the external-sandbox mode, the harness
//! attempts to create a uniquely named scratch directory inside the resolved
//! workspace temp directory, through the same connector wrapper that will
//! run the probe.  On success the scratch directory is removed and the probe
//! runs normally; on failure the captured stderr is classified and a
//! synthetic boundary object describing the preflight operation itself is
//! emitted instead, so the matrix still produces one record per pair even
//! when the sandbox blocks writes outright.

use vstd::prelude::*;
use crate::codec::{spec_json_string, spec_json_opt_i64, json_string, json_opt_i64};
use crate::connectors::{CommandSpec, RunMode};
use crate::probe::{ResolvedProbeMetadata, spec_lines};
use crate::text::{seq_contains_sub, str_contains, trim_seq, trim_str};
use crate::{BoundaryObject, OperationInfo, ProbeInfo, ResultInfo, RunInfo};

verus! {

/// The classified outcome of a failed preflight: an observed-result status,
/// an optional errno name, and a message.
pub struct PreflightClassification {
    pub status: String,
    pub errno: Option<String>,
    pub message: String,
}

/// Whether the stderr of a failed preflight carries a known denial
/// signature.
pub open spec fn spec_preflight_denied(stderr: Seq<char>) -> bool {
    ||| seq_contains_sub(stderr, "Operation not permitted"@)
    ||| seq_contains_sub(stderr, "Permission denied"@)
    ||| seq_contains_sub(stderr, "Read-only file system"@)
}

/// The errno name a denial signature maps to, checked in a fixed order.
pub open spec fn spec_preflight_errno(stderr: Seq<char>) -> Seq<char> {
    if seq_contains_sub(stderr, "Operation not permitted"@) {
        "EPERM"@
    } else if seq_contains_sub(stderr, "Permission denied"@) {
        "EACCES"@
    } else {
        "EROFS"@
    }
}

/// The message of a classified preflight failure: the trimmed first line of
/// stderr, or a fixed fallback when stderr is blank.
pub open spec fn spec_preflight_message(stderr: Seq<char>) -> Seq<char> {
    if trim_seq(spec_lines(stderr)[0]).len() > 0 {
        trim_seq(spec_lines(stderr)[0])
    } else {
        "external preflight failed"@
    }
}

/// Classify the stderr of a failed preflight into a `(status, errno,
/// message)` triple: a known denial signature maps to `denied` with its
/// errno name, anything else to `error` with no errno; the message carries
/// the trimmed first stderr line, or a fixed fallback when that is blank.
pub fn classify_preflight_error(stderr: &str) -> (r: PreflightClassification)
    ensures
        spec_preflight_denied(stderr@) ==> r.status@ == "denied"@ && (r.errno matches Some(e)
            && e@ == spec_preflight_errno(stderr@)),
        !spec_preflight_denied(stderr@) ==> r.status@ == "error"@ && r.errno is None,
        r.message@ == spec_preflight_message(stderr@),
{
    let lines = crate::probe::split_lines(stderr);
    proof {
        crate::probe::lemma_spec_lines_nonempty(stderr@, Seq::empty());
        assert(lines.deep_view()[0] == lines@[0]@);
    }
    let first_trimmed = trim_str(lines[0].as_str());
    let message = if !first_trimmed.as_str().is_empty() {
        first_trimmed
    } else {
        String::from_str("external preflight failed")
    };
    if str_contains(stderr, "Operation not permitted") {
        PreflightClassification {
            status: String::from_str("denied"),
            errno: Some(String::from_str("EPERM")),
            message,
        }
    } else if str_contains(stderr, "Permission denied") {
        PreflightClassification {
            status: String::from_str("denied"),
            errno: Some(String::from_str("EACCES")),
            message,
        }
    } else if str_contains(stderr, "Read-only file system") {
        PreflightClassification {
            status: String::from_str("denied"),
            errno: Some(String::from_str("EROFS")),
            message,
        }
    } else {
        PreflightClassification {
            status: String::from_str("error"),
            errno: None,
            message,
        }
    }
}

/// The trial command of an external-sandbox preflight: the external CLI
/// creating a scratch directory through the same wrapper that will run the
/// probe.
pub fn preflight_command(platform_target: &str, target_dir: &str) -> (r: CommandSpec)
    ensures
        r.program@ == "codex"@,
        r.args.deep_view() == seq![
            "sandbox"@,
            platform_target@,
            "--full-auto"@,
            "--"@,
            "/bin/mkdir"@,
            target_dir@,
        ],
{
    let mut args: Vec<String> = Vec::new();
    args.push(String::from_str("sandbox"));
    args.push(platform_target.to_owned());
    args.push(String::from_str("--full-auto"));
    args.push(String::from_str("--"));
    args.push(String::from_str("/bin/mkdir"));
    args.push(target_dir.to_owned());
    proof {
        assert(args.deep_view() =~= seq![
            "sandbox"@,
            platform_target@,
            "--full-auto"@,
            "--"@,
            "/bin/mkdir"@,
            target_dir@,
        ]);
    }
    CommandSpec { program: String::from_str("codex"), args }
}

/// The payload of a synthetic preflight record: empty stdout, the captured
/// stderr, and the raw detail naming the attempted path, the preflight kind
/// and the trial's exit code.
pub open spec fn spec_preflight_payload(
    stderr: Seq<char>,
    target_path: Seq<char>,
    exit_code: i64,
) -> Seq<char> {
    "{\"stdout_snippet\":\"\",\"stderr_snippet\":"@ + spec_json_string(stderr)
        + ",\"raw\":{\"preflight_target\":"@ + spec_json_string(target_path)
        + ",\"preflight_kind\":\"external_tmp\",\"exit_code\":"@ + spec_json_opt_i64(
        Some(exit_code),
    ) + "}}"@
}

/// Build the synthetic boundary object a denied preflight emits in place of
/// the probe's own record: the preflight operation itself, with category
/// `preflight`, verb `mktemp`, the attempted path as target, the
/// classification's status, errno and message, the trial's raw exit code,
/// and a payload carrying the captured stderr.  `stack` is the host
/// detector's raw JSON, carried through opaquely.
pub fn preflight_denial_record(
    metadata: &ResolvedProbeMetadata,
    mode: RunMode,
    target_path: &str,
    exit_code: i64,
    stderr: &str,
    command_str: &str,
    workspace_root: Option<String>,
    stack: String,
    classification: PreflightClassification,
) -> (r: BoundaryObject)
    ensures
        r.schema_version@ == "cfbo-v1"@,
        r.stack == stack,
        r.probe.id@ == metadata.id@,
        r.probe.version@ == metadata.version@,
        r.probe.primary_capability_id@ == metadata.primary_capability@,
        r.probe.secondary_capability_ids@ == metadata.secondary@,
        r.run.mode@ == mode.spec_name(),
        r.run.workspace_root == workspace_root,
        r.run.command@ == command_str@,
        r.operation.category@ == "preflight"@,
        r.operation.verb@ == "mktemp"@,
        r.operation.target@ == target_path@,
        r.operation.args@ == "{\"preflight\":true}"@,
        r.result.observed_result == classification.status,
        r.result.errno == classification.errno,
        r.result.message == Some(classification.message),
        r.result.raw_exit_code == Some(exit_code),
        r.result.error_detail is None,
        r.payload@ == spec_preflight_payload(stderr@, target_path@, exit_code),
        r.capabilities_schema_version is None,
        r.capability_context is None,
{
    let payload = String::from_str("{\"stdout_snippet\":\"\",\"stderr_snippet\":").concat(
        json_string(stderr).as_str(),
    ).concat(",\"raw\":{\"preflight_target\":").concat(json_string(target_path).as_str()).concat(
        ",\"preflight_kind\":\"external_tmp\",\"exit_code\":",
    ).concat(json_opt_i64(&Some(exit_code)).as_str()).concat("}}");
    proof {
        assert(payload@ =~= spec_preflight_payload(stderr@, target_path@, exit_code));
    }
    BoundaryObject {
        schema_version: String::from_str("cfbo-v1"),
        capabilities_schema_version: None,
        stack,
        probe: ProbeInfo {
            id: metadata.id.clone(),
            version: metadata.version.clone(),
            primary_capability_id: metadata.primary_capability.clone(),
            secondary_capability_ids: clone_string_list(&metadata.secondary),
        },
        run: RunInfo {
            mode: mode.as_str().to_owned(),
            workspace_root,
            command: command_str.to_owned(),
        },
        operation: OperationInfo {
            category: String::from_str("preflight"),
            verb: String::from_str("mktemp"),
            target: target_path.to_owned(),
            args: String::from_str("{\"preflight\":true}"),
        },
        result: ResultInfo {
            observed_result: classification.status,
            errno: classification.errno,
            message: Some(classification.message),
            raw_exit_code: Some(exit_code),
            error_detail: None,
        },
        payload,
        capability_context: None,
    }
}

/// Copy a list of strings.
pub fn clone_string_list(list: &Vec<String>) -> (r: Vec<String>)
    ensures
        r@ == list@,
{
    let n = list.len();
    let mut r: Vec<String> = Vec::new();
    let mut i: usize = 0;
    while i < n
        invariant
            n == list@.len(),
            0 <= i <= n,
            r@ == list@.take(i as int),
        decreases n - i,
    {
        r.push(list[i].clone());
        proof {
            assert(r@ =~= list@.take(i + 1));
        }
        i = i + 1;
    }
    proof {
        assert(list@.take(n as int) =~= list@);
        assert(r@ == list@);
    }
    r
}

} // verus!
