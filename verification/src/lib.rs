//! Verified core of a sandbox capability harness.
//!
//! The harness runs small instrumented probe scripts under several run modes
//! (direct execution or wrapped by an external sandboxing CLI) and records
//! each observed outcome as a structured boundary object.  This crate holds
//! the decision logic of that harness: the capability catalog and its index,
//! the run-mode planner, the probe containment guard, the preflight checker,
//! the matrix orchestration rules and the coverage builder.  Process spawning,
//! file reading and JSON (de)serialization live outside, and hand this crate
//! plain values.

pub mod boundary;
pub mod catalog;
pub mod codec;
pub mod connectors;
pub mod coverage;
pub mod matrix;
pub mod preflight;
pub mod probe;
pub mod record;
pub mod schema;
pub mod text;
pub mod workspace;

pub use catalog::index::CapabilityIndex;
pub use catalog::CapabilityId;
pub use catalog::CatalogKey;
pub use probe::Probe;
pub use text::split_list;

use vstd::prelude::*;

verus! {

/// A resolved snapshot of one capability, captured when a record is emitted
/// so the record stays self-describing even if the catalog changes later.
pub struct CapabilitySnapshot {
    pub id: String,
    pub category: String,
    pub layer: String,
}

/// The capability context of a boundary object: the primary capability and
/// any secondary capabilities the probe declared.
pub struct CapabilityContext {
    pub primary: CapabilitySnapshot,
    pub secondary: Vec<CapabilitySnapshot>,
}

/// The probe section of a boundary object.
pub struct ProbeInfo {
    pub id: String,
    pub version: String,
    pub primary_capability_id: String,
    pub secondary_capability_ids: Vec<String>,
}

/// The run section of a boundary object: which mode ran the probe and how.
pub struct RunInfo {
    pub mode: String,
    pub workspace_root: Option<String>,
    pub command: String,
}

/// The operation section of a boundary object.  `args` holds free-form JSON
/// text; this crate carries it through without interpreting it.
pub struct OperationInfo {
    pub category: String,
    pub verb: String,
    pub target: String,
    pub args: String,
}

/// The result section of a boundary object: the observed outcome and its
/// optional errno name, message, raw exit code and error detail.
pub struct ResultInfo {
    pub observed_result: String,
    pub errno: Option<String>,
    pub message: Option<String>,
    pub raw_exit_code: Option<i64>,
    pub error_detail: Option<String>,
}

/// One structured record describing a single probe's observed behavior under
/// one run mode.  Boundary objects are write-once: they are built, emitted and
/// never mutated.
pub struct BoundaryObject {
    pub schema_version: String,
    pub capabilities_schema_version: Option<String>,
    /// Host and sandbox descriptive info, opaque to this crate: raw JSON
    /// text carried through verbatim.
    pub stack: String,
    pub probe: ProbeInfo,
    pub run: RunInfo,
    pub result: ResultInfo,
    pub operation: OperationInfo,
    /// Free-form stdout/stderr snippets and raw detail: raw JSON text
    /// carried through verbatim.
    pub payload: String,
    pub capability_context: Option<CapabilityContext>,
}

impl BoundaryObject {
    /// The primary capability id of the record: the resolved snapshot wins
    /// over the probe's own declaration when a context was captured.
    pub fn primary_capability_id(&self) -> (r: Option<&str>)
        ensures
            r is Some,
            self.capability_context is Some ==> r->0@
                == self.capability_context->0.primary.id@,
            self.capability_context is None ==> r->0@ == self.probe.primary_capability_id@,
    {
        if let Some(ctx) = &self.capability_context {
            return Some(ctx.primary.id.as_str());
        }
        Some(self.probe.primary_capability_id.as_str())
    }
}

/// Why a harness-level lookup failed.
#[derive(Debug)]
pub enum HarnessError {
    /// No executable helper with this name was found; carries the helper
    /// name and the repository root searched under.
    HelperNotFound(String, String),
}

impl HarnessError {
    /// A human-readable account of the failure.
    pub fn describe(&self) -> (r: String)
        ensures
            self matches HarnessError::HelperNotFound(name, root) ==> r@
                == "Unable to locate helper '"@ + name@ + "' under "@ + root@,
    {
        match self {
            HarnessError::HelperNotFound(name, root) => {
                let r = String::from_str("Unable to locate helper '").concat(
                    name.as_str(),
                ).concat("' under ").concat(root.as_str());
                proof {
                    assert(r@ =~= "Unable to locate helper '"@ + name@ + "' under "@ + root@);
                }
                r
            },
        }
    }
}

/// The path where a helper binary may live, by preference order: the synced
/// `bin` directory first, then the release and debug build trees.
pub open spec fn spec_helper_candidate(root: Seq<char>, name: Seq<char>, i: int) -> Seq<char> {
    if i == 0 {
        root + "/bin/"@ + name
    } else if i == 1 {
        root + "/target/release/"@ + name
    } else {
        root + "/target/debug/"@ + name
    }
}

/// The candidate paths of a helper binary, in preference order.
pub fn helper_candidates(repo_root: &str, name: &str) -> (r: Vec<String>)
    ensures
        r@.len() == 3,
        forall|i: int|
            0 <= i < 3 ==> #[trigger] r.deep_view()[i] == spec_helper_candidate(
                repo_root@,
                name@,
                i,
            ),
{
    let mut r: Vec<String> = Vec::new();
    r.push(String::from_str(repo_root).concat("/bin/").concat(name));
    r.push(String::from_str(repo_root).concat("/target/release/").concat(name));
    r.push(String::from_str(repo_root).concat("/target/debug/").concat(name));
    proof {
        assert(r.deep_view()[0] =~= spec_helper_candidate(repo_root@, name@, 0));
        assert(r.deep_view()[1] =~= spec_helper_candidate(repo_root@, name@, 1));
        assert(r.deep_view()[2] =~= spec_helper_candidate(repo_root@, name@, 2));
    }
    r
}

/// Resolve a helper binary under the repository root.  `executable[i]` says
/// whether the `i`-th candidate of `helper_candidates` is an executable
/// file, as observed by the caller; the first executable candidate wins, and
/// a helper with none fails naming the helper and the root.
pub fn resolve_helper_binary(repo_root: &str, name: &str, executable: &Vec<bool>) -> (r: Result<
    String,
    HarnessError,
>)
    requires
        executable@.len() == 3,
    ensures
        r is Ok <==> exists|i: int| 0 <= i < 3 && executable@[i],
        r matches Ok(p) ==> exists|i: int|
            0 <= i < 3 && #[trigger] executable@[i] && (forall|j: int| 0 <= j < i ==> !executable@[j])
                && p@ == spec_helper_candidate(repo_root@, name@, i),
        r matches Err(e) ==> e matches HarnessError::HelperNotFound(n, root) && n@ == name@
            && root@ == repo_root@,
{
    let candidates = helper_candidates(repo_root, name);
    let mut i: usize = 0;
    while i < 3
        invariant
            executable@.len() == 3,
            candidates@.len() == 3,
            forall|k: int|
                0 <= k < 3 ==> #[trigger] candidates.deep_view()[k] == spec_helper_candidate(
                    repo_root@,
                    name@,
                    k,
                ),
            0 <= i <= 3,
            forall|j: int| 0 <= j < i ==> !executable@[j],
        decreases 3 - i,
    {
        if executable[i] {
            proof {
                assert(candidates.deep_view()[i as int] == candidates@[i as int]@);
            }
            return Ok(candidates[i].clone());
        }
        i = i + 1;
    }
    Err(HarnessError::HelperNotFound(name.to_owned(), repo_root.to_owned()))
}

} // verus!
