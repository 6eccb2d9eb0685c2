//! Workspace-root export decisions.
//!
//! Probe execution exports the workspace root to probes and to the record
//! emitter.  A caller may override the export: an explicit path replaces the
//! default, and an empty override suppresses the export entirely so the
//! emitter falls back to its own resolution.  Path canonicalization happens
//! at the caller; the decisions over the resulting values live here.

use vstd::prelude::*;

verus! {

/// A caller-supplied override of the workspace-root export.
pub enum WorkspaceOverride {
    /// Export nothing: defer to the record emitter's own fallback.
    SkipExport,
    /// Export exactly this path.
    UsePath(String),
}

/// The resolved export plan: the value to export, or nothing.
pub struct WorkspacePlan {
    pub export_value: Option<String>,
}

/// Parse an override value: an empty string suppresses the export, anything
/// else is exported as given.
pub fn parse_workspace_override(value: &str) -> (r: WorkspaceOverride)
    ensures
        value@.len() == 0 ==> r is SkipExport,
        value@.len() != 0 ==> (r matches WorkspaceOverride::UsePath(p) && p@ == value@),
{
    if value.is_empty() {
        WorkspaceOverride::SkipExport
    } else {
        WorkspaceOverride::UsePath(value.to_owned())
    }
}

/// Turn an override into an export plan.
pub fn workspace_plan_from_override(value: WorkspaceOverride) -> (r: WorkspacePlan)
    ensures
        value is SkipExport ==> r.export_value is None,
        value matches WorkspaceOverride::UsePath(p) ==> r.export_value == Some(p),
{
    match value {
        WorkspaceOverride::SkipExport => WorkspacePlan { export_value: None },
        WorkspaceOverride::UsePath(p) => WorkspacePlan { export_value: Some(p) },
    }
}

/// The workspace temp directory a probe run should use, or, when it could
/// not be established, the attempted path with the root cause.
pub struct TmpdirPlan {
    pub path: Option<String>,
    pub last_error: Option<(String, String)>,
}

/// The base directory the workspace tmpdir goes under: the exported
/// workspace root when the plan carries one, else the default root.
pub open spec fn spec_tmpdir_base(plan: WorkspacePlan, default_root: Seq<char>) -> Seq<char> {
    match plan.export_value {
        Some(p) => p@,
        None => default_root,
    }
}

/// The tmpdir candidate of a workspace plan: `tmp` under the exported
/// workspace root, or under the default root when nothing is exported.
pub fn workspace_tmpdir_candidate(plan: &WorkspacePlan, default_root: &str) -> (r: String)
    ensures
        r@ == spec_tmpdir_base(*plan, default_root@) + "/tmp"@,
{
    let base = match &plan.export_value {
        Some(p) => p.as_str(),
        None => default_root,
    };
    let r = String::from_str(base).concat("/tmp");
    proof {
        assert(r@ =~= spec_tmpdir_base(*plan, default_root@) + "/tmp"@);
    }
    r
}

/// Turn the caller's attempt to create the tmpdir candidate into the final
/// plan: on success the candidate is the tmpdir; on failure no tmpdir
/// exists and the attempted path is recorded with the root cause, so a
/// synthetic record can name both.
pub fn workspace_tmpdir_plan(
    plan: &WorkspacePlan,
    default_root: &str,
    created_ok: bool,
    error_message: &str,
) -> (r: TmpdirPlan)
    ensures
        created_ok ==> (r.path matches Some(p) && p@ == spec_tmpdir_base(*plan, default_root@)
            + "/tmp"@) && r.last_error is None,
        !created_ok ==> r.path is None && (r.last_error matches Some(e) && e.0@
            == spec_tmpdir_base(*plan, default_root@) + "/tmp"@ && e.1@ == error_message@),
{
    let candidate = workspace_tmpdir_candidate(plan, default_root);
    if created_ok {
        TmpdirPlan { path: Some(candidate), last_error: None }
    } else {
        TmpdirPlan { path: None, last_error: Some((candidate, error_message.to_owned())) }
    }
}

} // verus!
