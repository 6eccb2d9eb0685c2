//! Matrix orchestration rules.
//!
//! The orchestrator executes every (mode, probe) pair once in a fixed nested
//! order and prints one boundary object per successful pair.  The decisions
//! live here: how a pair's outcome is classified, when a failing external
//! pair is skipped rather than counted (the host cannot apply the sandbox at
//! all), and how per-pair failures are aggregated without aborting the run.
//! The caller spawns the processes and hands back exit status, stderr, and
//! whether stdout parsed as one JSON object.

use vstd::prelude::*;
use crate::connectors::{ConnectorKind, RunMode};
use crate::probe::{Probe, ResolvedProbeMetadata};
use crate::text::{lex_lt, seq_contains_sub, str_contains, str_eq, str_lt};

verus! {

/// Why a matrix run could not proceed.
#[derive(Debug)]
pub enum MatrixError {
    /// More than one of the mutually exclusive selections was given.
    ConflictingSelection,
    /// The selected capability has no probes in this workspace.
    NoProbesForCapability(String),
}

impl MatrixError {
    /// A human-readable account of the failure.
    pub fn describe(&self) -> (r: String)
        ensures
            self matches MatrixError::ConflictingSelection ==> r@
                == "select exactly one probe selection flag"@,
            self matches MatrixError::NoProbesForCapability(c) ==> r@
                == "capability has no probes in this workspace: "@ + c@,
    {
        match self {
            MatrixError::ConflictingSelection => String::from_str(
                "select exactly one probe selection flag",
            ),
            MatrixError::NoProbesForCapability(c) => String::from_str(
                "capability has no probes in this workspace: ",
            ).concat(c.as_str()),
        }
    }
}

/// The skip heuristic for hosts where the external tool cannot apply its
/// sandbox policy at all: an external-mode failure whose exit code or stderr
/// carries the known signature.  The heuristic is fragile by nature (it is
/// tied to the external tool's current behavior), so it lives behind this
/// one named predicate.
pub open spec fn spec_sandbox_unavailable(
    mode: RunMode,
    exit_code: Option<i64>,
    stderr: Seq<char>,
) -> bool {
    &&& mode.spec_connector() == ConnectorKind::ExternalCli
    &&& (exit_code == Some(71i64) || seq_contains_sub(stderr, "sandbox_apply"@))
}

/// The skip heuristic for hosts where the external tool cannot apply its
/// sandbox policy at all.
pub fn sandbox_unavailable_signature(mode: RunMode, exit_code: Option<i64>, stderr: &str) -> (r:
    bool)
    ensures
        r == spec_sandbox_unavailable(mode, exit_code, stderr@),
{
    if !mode.is_external() {
        return false;
    }
    let code_match = match exit_code {
        Some(c) => c == 71,
        None => false,
    };
    code_match || str_contains(stderr, "sandbox_apply")
}

/// How one executed (mode, probe) pair is handled.
pub enum PairAction {
    /// The pair produced a record: print it as one output line.
    Emit,
    /// The host cannot apply the external sandbox: log and continue without
    /// counting a failure.
    SkipSandboxUnavailable,
    /// A per-pair failure: record the message and continue with the next
    /// pair.
    Fail(String),
}

/// The failure message of a pair: names the probe, the mode, and the reason.
pub open spec fn spec_pair_failure(
    probe_id: Seq<char>,
    mode: RunMode,
    reason: Seq<char>,
) -> Seq<char> {
    "probe "@ + probe_id + " in mode "@ + mode.spec_name() + " failed: "@ + reason
}

fn pair_failure(probe_id: &str, mode: RunMode, reason: &str) -> (r: String)
    ensures
        r@ == spec_pair_failure(probe_id@, mode, reason@),
{
    let r = String::from_str("probe ").concat(probe_id).concat(" in mode ").concat(
        mode.as_str(),
    ).concat(" failed: ").concat(reason);
    proof {
        assert(r@ =~= spec_pair_failure(probe_id@, mode, reason@));
    }
    r
}

/// Classify the outcome of one executed (mode, probe) pair.
///
/// A clean exit whose stdout parsed as exactly one JSON object is emitted.
/// A clean exit with anything else on stdout is a per-pair failure naming
/// the probe.  A non-zero exit carrying the sandbox-unavailable signature in
/// an external mode is skipped; any other non-zero exit is a per-pair
/// failure.
pub fn pair_outcome(
    mode: RunMode,
    probe_id: &str,
    exit_ok: bool,
    exit_code: Option<i64>,
    stderr: &str,
    stdout_is_json: bool,
) -> (r: PairAction)
    ensures
        exit_ok && stdout_is_json ==> r is Emit,
        exit_ok && !stdout_is_json ==> (r matches PairAction::Fail(m) && m@ == spec_pair_failure(
            probe_id@,
            mode,
            "stdout did not hold one valid boundary object"@,
        )),
        !exit_ok && spec_sandbox_unavailable(mode, exit_code, stderr@) ==> r
            is SkipSandboxUnavailable,
        !exit_ok && !spec_sandbox_unavailable(mode, exit_code, stderr@) ==> (
        r matches PairAction::Fail(m) && m@ == spec_pair_failure(
            probe_id@,
            mode,
            "returned a non-zero exit code"@,
        )),
{
    if exit_ok {
        if stdout_is_json {
            PairAction::Emit
        } else {
            PairAction::Fail(pair_failure(
                probe_id,
                mode,
                "stdout did not hold one valid boundary object",
            ))
        }
    } else {
        if sandbox_unavailable_signature(mode, exit_code, stderr) {
            PairAction::SkipSandboxUnavailable
        } else {
            PairAction::Fail(pair_failure(probe_id, mode, "returned a non-zero exit code"))
        }
    }
}

/// The running aggregation of a matrix run: every per-pair failure message,
/// in order.  Failures never abort the run; they are summarized at the end.
pub struct MatrixReport {
    failures: Vec<String>,
}

impl MatrixReport {
    /// The failure messages recorded so far, in order.
    pub closed spec fn spec_failures(&self) -> Seq<Seq<char>> {
        self.failures.deep_view()
    }

    /// An empty report: no pair has failed yet.
    pub fn new() -> (r: MatrixReport)
        ensures
            r.spec_failures().len() == 0,
    {
        let r = MatrixReport { failures: Vec::new() };
        proof {
            assert(r.spec_failures() =~= Seq::<Seq<char>>::empty());
        }
        r
    }

    /// Record one pair's outcome: a failure appends its message; an emitted
    /// or skipped pair changes nothing.
    pub fn record(&mut self, action: PairAction)
        ensures
            match action {
                PairAction::Fail(m) => final (self).spec_failures() == old(
                    self,
                ).spec_failures().push(m@),
                _ => final (self).spec_failures() == old(self).spec_failures(),
            },
    {
        match action {
            PairAction::Fail(m) => {
                let ghost old_deep = self.failures.deep_view();
                let ghost gm = m;
                self.failures.push(m);
                proof {
                    assert(self.failures.deep_view() =~= old_deep.push(gm@));
                }
            },
            _ => {},
        }
    }

    /// Whether every pair succeeded or was skipped.
    pub fn is_success(&self) -> (r: bool)
        ensures
            r == (self.spec_failures().len() == 0),
    {
        self.failures.len() == 0
    }

    /// How many pairs failed.
    pub fn failure_count(&self) -> (r: usize)
        ensures
            r == self.spec_failures().len(),
    {
        self.failures.len()
    }

    /// The recorded failure messages, in order.
    pub fn failures(&self) -> (r: &Vec<String>)
        ensures
            r.deep_view() == self.spec_failures(),
    {
        &self.failures
    }
}

/// Which probes a matrix invocation runs.
#[derive(Debug)]
pub enum Selection {
    /// Every probe; `explicit` records whether the caller asked for all
    /// probes rather than defaulting to it.
    All { explicit: bool },
    /// The probes whose primary capability matches the given id.
    Bundle(String),
    /// A single probe by id.
    Probe(String),
}

/// Combine a newly requested selection with the one seen so far.  The
/// selections are mutually exclusive: only an unset or implicit-default
/// selection may be replaced.
pub fn set_selection(current: Option<Selection>, new_selection: Selection) -> (r: Result<
    Option<Selection>,
    MatrixError,
>)
    ensures
        current is None ==> (r matches Ok(s) && s == Some(new_selection)),
        (current matches Some(c) && c matches Selection::All { explicit } && !explicit) ==> (
        r matches Ok(s) && s == Some(new_selection)),
        (current matches Some(c) && !(c matches Selection::All { explicit: false })) ==> (
        r matches Err(e) && e matches MatrixError::ConflictingSelection),
{
    match current {
        None => Ok(Some(new_selection)),
        Some(Selection::All { explicit: false }) => Ok(Some(new_selection)),
        Some(_) => Err(MatrixError::ConflictingSelection),
    }
}

/// The helper commands the top-level dispatcher can run.
#[derive(Clone, Copy, PartialEq, Eq, Structural)]
pub enum CommandTarget {
    Bang,
    Listen,
    Test,
    CoverageMap,
    ValidateCapabilities,
}

impl CommandTarget {
    /// The name of the helper binary a command delegates to; empty for the
    /// commands handled in-process.
    pub fn helper_name(self) -> (r: &'static str)
        ensures
            self == CommandTarget::Bang ==> r@ == "fence-bang"@,
            self == CommandTarget::Listen ==> r@ == "fence-listen"@,
            self == CommandTarget::Test ==> r@ == "fence-test"@,
            self == CommandTarget::CoverageMap || self == CommandTarget::ValidateCapabilities
                ==> r@.len() == 0,
    {
        proof {
            reveal_strlit("");
        }
        match self {
            CommandTarget::Bang => "fence-bang",
            CommandTarget::Listen => "fence-listen",
            CommandTarget::Test => "fence-test",
            CommandTarget::CoverageMap => "",
            CommandTarget::ValidateCapabilities => "",
        }
    }

    /// Whether the command needs the repository root to exist.
    pub fn requires_repo_root(self) -> (r: bool)
        ensures
            r == (self == CommandTarget::Test || self == CommandTarget::CoverageMap || self
                == CommandTarget::ValidateCapabilities),
    {
        match self {
            CommandTarget::Test | CommandTarget::CoverageMap
                | CommandTarget::ValidateCapabilities => true,
            CommandTarget::Bang | CommandTarget::Listen => false,
        }
    }
}

/// The probes among `entries` whose primary capability is `cap`, in input
/// order.
pub open spec fn spec_matching_probes(
    entries: Seq<(Probe, ResolvedProbeMetadata)>,
    cap: Seq<char>,
) -> Seq<Probe>
    decreases entries.len(),
{
    if entries.len() == 0 {
        Seq::empty()
    } else if entries.last().1.primary_capability@ == cap {
        spec_matching_probes(entries.drop_last(), cap).push(entries.last().0)
    } else {
        spec_matching_probes(entries.drop_last(), cap)
    }
}

/// Non-decreasing order by probe id.
pub open spec fn probes_sorted_by_id(list: Seq<Probe>) -> bool {
    forall|i: int, j: int|
        0 <= i < j < list.len() ==> lex_lt(#[trigger] list[i].id@, #[trigger] list[j].id@)
            || list[i].id@ == list[j].id@
}

/// Insert a probe into a list sorted by id, keeping it sorted; equal ids
/// keep their arrival order.
fn insert_probe_sorted(out: &mut Vec<Probe>, probe: Probe)
    requires
        probes_sorted_by_id(old(out)@),
    ensures
        probes_sorted_by_id(final(out)@),
        final(out)@.to_multiset() == old(out)@.to_multiset().insert(probe),
        final(out)@.len() == old(out)@.len() + 1,
{
    let n = out.len();
    let mut pos: usize = 0;
    while pos < n && (str_lt(out[pos].id.as_str(), probe.id.as_str()) || str_eq(out[
        pos
    ].id.as_str(), probe.id.as_str()))
        invariant
            n == out@.len(),
            probes_sorted_by_id(out@),
            0 <= pos <= n,
            forall|j: int|
                0 <= j < pos ==> lex_lt(#[trigger] out@[j].id@, probe.id@) || out@[j].id@
                    == probe.id@,
        decreases n - pos,
    {
        pos = pos + 1;
    }
    proof {
        assert forall|j: int|
            pos <= j < out@.len() implies lex_lt(probe.id@, #[trigger] out@[j].id@) by {
            crate::text::lemma_lex_connex(probe.id@, out@[pos as int].id@);
            if pos < j {
                if out@[pos as int].id@ == out@[j].id@ {
                } else {
                    crate::text::lemma_lex_trans(probe.id@, out@[pos as int].id@, out@[j].id@);
                }
            }
        }
    }
    let ghost old_view = out@;
    let ghost inserted = probe;
    out.insert(pos, probe);
    proof {
        old_view.insert_ensures(pos as int, inserted);
        vstd::seq_lib::to_multiset_insert(old_view, pos as int, inserted);
        assert forall|p: int, q: int|
            0 <= p < q < out@.len() implies lex_lt(#[trigger] out@[p].id@, #[trigger] out@[
            q
        ].id@) || out@[p].id@ == out@[q].id@ by {
            if q < pos {
                assert(out@[p] == old_view[p] && out@[q] == old_view[q]);
            } else if p > pos {
                assert(out@[p] == old_view[p - 1] && out@[q] == old_view[q - 1]);
            } else if p < pos && q == pos {
                assert(out@[p] == old_view[p]);
            } else if p == pos && q > pos {
                assert(out@[q] == old_view[q - 1]);
            } else {
                assert(out@[p] == old_view[p] && out@[q] == old_view[q - 1]);
            }
        }
    }
}

/// Select the probes whose primary capability matches `capability`, sorted
/// ascending by id so runs are reproducible.  A capability no probe declares
/// is an error.
pub fn probes_for_capability(
    entries: Vec<(Probe, ResolvedProbeMetadata)>,
    capability: &crate::catalog::CapabilityId,
) -> (r: Result<Vec<Probe>, MatrixError>)
    ensures
        r matches Ok(list) ==> {
            &&& probes_sorted_by_id(list@)
            &&& list@.to_multiset() == spec_matching_probes(entries@, capability.0@).to_multiset()
            &&& list@.len() > 0
        },
        r is Err <==> spec_matching_probes(entries@, capability.0@).len() == 0,
        r matches Err(e) ==> e matches MatrixError::NoProbesForCapability(c) && c@
            == capability.0@,
{
    let ghost all = entries@;
    let mut rest = entries;
    let mut out: Vec<Probe> = Vec::new();
    let mut i: usize = 0;
    let n = rest.len();
    proof {
        assert(all.take(0) =~= Seq::<(Probe, ResolvedProbeMetadata)>::empty());
        assert(out@.to_multiset() =~= spec_matching_probes(all.take(0), capability.0@
        ).to_multiset());
    }
    while i < n
        invariant
            n == all.len(),
            rest@ == all.skip(i as int),
            0 <= i <= n,
            probes_sorted_by_id(out@),
            out@.to_multiset() == spec_matching_probes(all.take(i as int), capability.0@
            ).to_multiset(),
            out@.len() == spec_matching_probes(all.take(i as int), capability.0@).len(),
        decreases n - i,
    {
        let entry = rest.remove(0);
        proof {
            assert(all.skip(i as int)[0] == all[i as int]);
            assert(all.skip(i as int).remove(0) =~= all.skip(i + 1));
            assert(all.take(i + 1).drop_last() =~= all.take(i as int));
            assert(all.take(i + 1).last() == all[i as int]);
        }
        if str_eq(entry.1.primary_capability.as_str(), capability.0.as_str()) {
            proof {
                vstd::seq_lib::to_multiset_build(
                    spec_matching_probes(all.take(i as int), capability.0@),
                    all[i as int].0,
                );
            }
            insert_probe_sorted(&mut out, entry.0);
        }
        i = i + 1;
    }
    proof {
        assert(all.take(n as int) =~= all);
    }
    if out.len() == 0 {
        return Err(MatrixError::NoProbesForCapability(capability.0.clone()));
    }
    Ok(out)
}

} // verus!
