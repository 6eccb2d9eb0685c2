//! Capability-to-probe coverage and drift checking.
//!
//! The builder cross-references the catalog's capabilities against the
//! probes' declared primary capabilities, producing one entry per capability
//! in the index's fixed id order.  The validator holds a previously
//! materialized coverage map against the live computation and collects every
//! discrepancy in one pass, so operators see the full drift in a single run.

use vstd::prelude::*;
use crate::catalog::index::CapabilityIndex;
use crate::catalog::{Capability, CapabilityId};
use crate::probe::ResolvedProbeMetadata;
use crate::text::{str_eq, strictly_sorted_strings, insert_sorted_dedup};

verus! {

/// Coverage of one capability: whether any probe declares it as primary,
/// and which probes do.
pub struct CoverageEntry {
    pub has_probe: bool,
    pub probe_ids: Vec<String>,
}

/// Whether some probe named `name` declares `cap` as its primary capability.
pub open spec fn spec_probe_declares(
    probes: Seq<ResolvedProbeMetadata>,
    name: Seq<char>,
    cap: Seq<char>,
) -> bool {
    exists|j: int|
        0 <= j < probes.len() && (#[trigger] probes[j]).id@ == name && probes[j].primary_capability@
            == cap
}

/// Whether some probe declares `cap` as its primary capability.
pub open spec fn spec_cap_covered(probes: Seq<ResolvedProbeMetadata>, cap: Seq<char>) -> bool {
    exists|j: int| 0 <= j < probes.len() && (#[trigger] probes[j]).primary_capability@ == cap
}

/// Whether some probe is named `name`.
pub open spec fn spec_probe_named(probes: Seq<ResolvedProbeMetadata>, name: Seq<char>) -> bool {
    exists|j: int| 0 <= j < probes.len() && (#[trigger] probes[j]).id@ == name
}

/// The coverage entry of one capability is exact: sorted, deduplicated, and
/// holding exactly the probes that declare the capability.
pub open spec fn spec_entry_exact(
    probes: Seq<ResolvedProbeMetadata>,
    cap: Seq<char>,
    entry: CoverageEntry,
) -> bool {
    &&& strictly_sorted_strings(entry.probe_ids.deep_view())
    &&& (forall|x: Seq<char>|
        entry.probe_ids.deep_view().contains(x) <==> spec_probe_declares(probes, x, cap))
    &&& entry.has_probe == spec_cap_covered(probes, cap)
}

/// The probes declaring `cap` as primary, as a sorted deduplicated id list.
fn probes_declaring(probes: &Vec<ResolvedProbeMetadata>, cap: &str) -> (r: Vec<String>)
    ensures
        strictly_sorted_strings(r.deep_view()),
        forall|x: Seq<char>| r.deep_view().contains(x) <==> spec_probe_declares(probes@, x, cap@),
{
    let n = probes.len();
    let mut r: Vec<String> = Vec::new();
    let mut j: usize = 0;
    proof {
        assert(forall|x: Seq<char>| !r.deep_view().contains(x));
    }
    while j < n
        invariant
            n == probes@.len(),
            0 <= j <= n,
            strictly_sorted_strings(r.deep_view()),
            forall|x: Seq<char>|
                r.deep_view().contains(x) <==> (exists|k: int|
                    0 <= k < j && (#[trigger] probes@[k]).id@ == x
                        && probes@[k].primary_capability@ == cap@),
        decreases n - j,
    {
        if str_eq(probes[j].primary_capability.as_str(), cap) {
            insert_sorted_dedup(&mut r, probes[j].id.clone());
        }
        j = j + 1;
    }
    r
}

/// Build the coverage map: one entry per capability of the index, in the
/// index's fixed id order.  `has_probe` is true exactly when at least one
/// probe declares the capability as primary, and `probe_ids` lists exactly
/// those probes, sorted and deduplicated.
pub fn build_probe_coverage_map(
    index: &CapabilityIndex,
    probes: &Vec<ResolvedProbeMetadata>,
) -> (r: Vec<(CapabilityId, CoverageEntry)>)
    requires
        index.wf(),
    ensures
        r@.len() == index.spec_caps().len(),
        forall|i: int|
            0 <= i < r@.len() ==> (#[trigger] r@[i]).0.0@ == index.spec_caps()[i].id.0@
                && spec_entry_exact(probes@, index.spec_caps()[i].id.0@, r@[i].1),
{
    let ids = index.ids();
    let n = ids.len();
    let mut r: Vec<(CapabilityId, CoverageEntry)> = Vec::new();
    let mut i: usize = 0;
    proof {
        assert(ids.deep_view().len() == ids@.len());
        assert(index.spec_caps().map_values(|c: Capability| c.id.0@).len()
            == index.spec_caps().len());
    }
    while i < n
        invariant
            index.wf(),
            n == ids@.len(),
            index.spec_caps().len() == n,
            ids.deep_view() == index.spec_caps().map_values(|c: Capability| c.id.0@),
            0 <= i <= n,
            r@.len() == i,
            forall|k: int|
                0 <= k < i ==> (#[trigger] r@[k]).0.0@ == index.spec_caps()[k].id.0@
                    && spec_entry_exact(probes@, index.spec_caps()[k].id.0@, r@[k].1),
        decreases n - i,
    {
        proof {
            assert(ids.deep_view()[i as int] == ids@[i as int]@);
        }
        let probe_ids = probes_declaring(probes, ids[i].as_str());
        let has_probe = probe_ids.len() > 0;
        proof {
            let cap = ids@[i as int]@;
            if probe_ids@.len() > 0 {
                assert(probe_ids.deep_view().contains(probe_ids.deep_view()[0]));
            }
            if spec_cap_covered(probes@, cap) {
                let w = choose|w: int|
                    0 <= w < probes@.len() && (#[trigger] probes@[w]).primary_capability@ == cap;
                assert(spec_probe_declares(probes@, probes@[w].id@, cap));
                assert(probe_ids.deep_view().contains(probes@[w].id@));
                assert(probe_ids.deep_view().len() > 0);
            }
        }
        let entry = CoverageEntry { has_probe, probe_ids };
        r.push((CapabilityId(ids[i].clone()), entry));
        proof {
            assert(ids.deep_view()[i as int] == index.spec_caps().map_values(
                |c: Capability| c.id.0@,
            )[i as int]);
            assert(index.spec_caps().map_values(|c: Capability| c.id.0@)[i as int]
                == index.spec_caps()[i as int].id.0@);
            assert(r@[i as int].0.0@ == ids@[i as int]@);
        }
        i = i + 1;
    }
    r
}

/// One discrepancy between a materialized coverage map and the live
/// computation, or between a probe and the catalog.
#[derive(Debug)]
pub enum CoverageIssue {
    /// The map references a capability the catalog does not declare.
    UnknownCapability(String),
    /// A catalog capability has no entry in the map.
    MissingEntry(String),
    /// An entry is marked `has_probe` but no probe declares the capability.
    MarkedCoveredWithoutProbes(String),
    /// An entry is not marked `has_probe` but probes declare the capability.
    MarkedUncoveredDespiteProbes(String),
    /// An entry lists a probe id that no probe carries.
    UnknownProbe(String, String),
    /// An entry lists a probe whose script targets a different capability.
    WrongCapability(String, String),
    /// A probe declares the capability but is absent from its entry.
    MissingProbe(String, String),
    /// A probe's primary capability does not resolve in the catalog.
    UnknownProbeCapability(String, String),
}

fn cap_covered(probes: &Vec<ResolvedProbeMetadata>, cap: &str) -> (r: bool)
    ensures
        r == spec_cap_covered(probes@, cap@),
{
    let n = probes.len();
    let mut j: usize = 0;
    while j < n
        invariant
            n == probes@.len(),
            0 <= j <= n,
            forall|k: int| 0 <= k < j ==> (#[trigger] probes@[k]).primary_capability@ != cap@,
        decreases n - j,
    {
        if str_eq(probes[j].primary_capability.as_str(), cap) {
            return true;
        }
        j = j + 1;
    }
    false
}

fn probe_declares(probes: &Vec<ResolvedProbeMetadata>, name: &str, cap: &str) -> (r: bool)
    ensures
        r == spec_probe_declares(probes@, name@, cap@),
{
    let n = probes.len();
    let mut j: usize = 0;
    while j < n
        invariant
            n == probes@.len(),
            0 <= j <= n,
            forall|k: int|
                0 <= k < j ==> !((#[trigger] probes@[k]).id@ == name@
                    && probes@[k].primary_capability@ == cap@),
        decreases n - j,
    {
        if str_eq(probes[j].id.as_str(), name) && str_eq(probes[j].primary_capability.as_str(),
            cap,
        ) {
            return true;
        }
        j = j + 1;
    }
    false
}

fn probe_named(probes: &Vec<ResolvedProbeMetadata>, name: &str) -> (r: bool)
    ensures
        r == spec_probe_named(probes@, name@),
{
    let n = probes.len();
    let mut j: usize = 0;
    while j < n
        invariant
            n == probes@.len(),
            0 <= j <= n,
            forall|k: int| 0 <= k < j ==> (#[trigger] probes@[k]).id@ != name@,
        decreases n - j,
    {
        if str_eq(probes[j].id.as_str(), name) {
            return true;
        }
        j = j + 1;
    }
    false
}

fn list_contains(list: &Vec<String>, x: &str) -> (r: bool)
    ensures
        r == list.deep_view().contains(x@),
{
    let n = list.len();
    let mut j: usize = 0;
    while j < n
        invariant
            n == list@.len(),
            0 <= j <= n,
            forall|k: int| 0 <= k < j ==> (#[trigger] list.deep_view()[k]) != x@,
        decreases n - j,
    {
        proof {
            assert(list.deep_view()[j as int] == list@[j as int]@);
        }
        if str_eq(list[j].as_str(), x) {
            proof {
                assert(list.deep_view().contains(x@));
            }
            return true;
        }
        j = j + 1;
    }
    false
}

/// All conditions one stored coverage entry must meet: a known capability,
/// an accurate `has_probe` flag, only genuinely declaring probes listed, and
/// every declaring probe listed.
pub open spec fn spec_entry_ok(
    index: &CapabilityIndex,
    probes: Seq<ResolvedProbeMetadata>,
    key: Seq<char>,
    entry: CoverageEntry,
) -> bool {
    &&& index.spec_has_capability(key)
    &&& entry.has_probe == spec_cap_covered(probes, key)
    &&& (forall|p: Seq<char>|
        entry.probe_ids.deep_view().contains(p) ==> spec_probe_declares(probes, p, key))
    &&& (forall|j: int|
        0 <= j < probes.len() && (#[trigger] probes[j]).primary_capability@ == key
            ==> entry.probe_ids.deep_view().contains(probes[j].id@))
}

/// Every discrepancy of one stored entry is present in `issues`: an unknown
/// key, a stale `has_probe` flag, each listed probe that does not declare
/// the capability, and each declaring probe absent from the list.  This is
/// the one-pass exhaustiveness of the validator: nothing fails fast.
pub open spec fn spec_entry_discrepancies_reported(
    index: &CapabilityIndex,
    probes: Seq<ResolvedProbeMetadata>,
    key: String,
    entry: CoverageEntry,
    issues: Seq<CoverageIssue>,
) -> bool {
    &&& (!index.spec_has_capability(key@) ==> issues.contains(
        CoverageIssue::UnknownCapability(key),
    ))
    &&& ((entry.has_probe && !spec_cap_covered(probes, key@)) ==> issues.contains(
        CoverageIssue::MarkedCoveredWithoutProbes(key),
    ))
    &&& ((!entry.has_probe && spec_cap_covered(probes, key@)) ==> issues.contains(
        CoverageIssue::MarkedUncoveredDespiteProbes(key),
    ))
    &&& (forall|k: int|
        0 <= k < entry.probe_ids@.len() && !spec_probe_declares(
            probes,
            (#[trigger] entry.probe_ids@[k])@,
            key@,
        ) ==> issues.contains(CoverageIssue::UnknownProbe(key, entry.probe_ids@[k]))
            || issues.contains(CoverageIssue::WrongCapability(key, entry.probe_ids@[k])))
    &&& (forall|j: int|
        0 <= j < probes.len() && (#[trigger] probes[j]).primary_capability@ == key@
            && !entry.probe_ids.deep_view().contains(probes[j].id@) ==> issues.contains(
            CoverageIssue::MissingProbe(key, probes[j].id),
        ))
}

/// Whatever is reported stays reported when more issues follow.
proof fn lemma_reported_grows(
    index: &CapabilityIndex,
    probes: Seq<ResolvedProbeMetadata>,
    key: String,
    entry: CoverageEntry,
    s1: Seq<CoverageIssue>,
    s2: Seq<CoverageIssue>,
)
    requires
        spec_entry_discrepancies_reported(index, probes, key, entry, s1) || spec_entry_discrepancies_reported(
            index,
            probes,
            key,
            entry,
            s2,
        ),
    ensures
        spec_entry_discrepancies_reported(index, probes, key, entry, s1 + s2),
{
    broadcast use vstd::seq_lib::lemma_seq_concat_contains_all_elements;

}

/// Collect every discrepancy of one stored entry.
fn check_stored_entry(
    index: &CapabilityIndex,
    probes: &Vec<ResolvedProbeMetadata>,
    key: &String,
    entry: &CoverageEntry,
) -> (r: Vec<CoverageIssue>)
    requires
        index.wf(),
    ensures
        r@.len() == 0 <==> spec_entry_ok(index, probes@, key@, *entry),
        spec_entry_discrepancies_reported(index, probes@, *key, *entry, r@),
{
    broadcast use vstd::seq_lib::lemma_seq_contains_after_push;

    let mut issues: Vec<CoverageIssue> = Vec::new();
    let key_id = crate::catalog::CapabilityId(key.clone());
    if index.capability(&key_id).is_none() {
        issues.push(CoverageIssue::UnknownCapability(key.clone()));
    }
    let covered = cap_covered(probes, key.as_str());
    if entry.has_probe && !covered {
        issues.push(CoverageIssue::MarkedCoveredWithoutProbes(key.clone()));
    }
    if !entry.has_probe && covered {
        issues.push(CoverageIssue::MarkedUncoveredDespiteProbes(key.clone()));
    }
    let ghost base = issues@.len();
    let n = entry.probe_ids.len();
    let mut j: usize = 0;
    while j < n
        invariant
            n == entry.probe_ids@.len(),
            0 <= j <= n,
            issues@.len() >= base,
            issues@.len() == base <==> (forall|k: int|
                0 <= k < j ==> spec_probe_declares(
                    probes@,
                    #[trigger] entry.probe_ids.deep_view()[k],
                    key@,
                )),
            !index.spec_has_capability(key@) ==> issues@.contains(
                CoverageIssue::UnknownCapability(*key),
            ),
            (entry.has_probe && !spec_cap_covered(probes@, key@)) ==> issues@.contains(
                CoverageIssue::MarkedCoveredWithoutProbes(*key),
            ),
            (!entry.has_probe && spec_cap_covered(probes@, key@)) ==> issues@.contains(
                CoverageIssue::MarkedUncoveredDespiteProbes(*key),
            ),
            forall|k: int|
                0 <= k < j && !spec_probe_declares(
                    probes@,
                    (#[trigger] entry.probe_ids@[k])@,
                    key@,
                ) ==> issues@.contains(CoverageIssue::UnknownProbe(*key, entry.probe_ids@[k]))
                    || issues@.contains(CoverageIssue::WrongCapability(*key, entry.probe_ids@[k])),
        decreases n - j,
    {
        broadcast use vstd::seq_lib::lemma_seq_contains_after_push;

        proof {
            assert(entry.probe_ids.deep_view()[j as int] == entry.probe_ids@[j as int]@);
        }
        if !probe_declares(probes, entry.probe_ids[j].as_str(), key.as_str()) {
            if probe_named(probes, entry.probe_ids[j].as_str()) {
                issues.push(CoverageIssue::WrongCapability(key.clone(), entry.probe_ids[
                    j
                ].clone()));
            } else {
                issues.push(CoverageIssue::UnknownProbe(key.clone(), entry.probe_ids[j].clone()));
            }
        }
        j = j + 1;
    }
    proof {
        assert forall|p: Seq<char>|
            issues@.len() == base && entry.probe_ids.deep_view().contains(p) implies
        spec_probe_declares(probes@, p, key@) by {
            let w = choose|w: int|
                0 <= w < entry.probe_ids.deep_view().len() && entry.probe_ids.deep_view()[w] == p;
            assert(spec_probe_declares(probes@, entry.probe_ids.deep_view()[w], key@));
        }
    }
    let ghost base2 = issues@.len();
    let np = probes.len();
    let mut j2: usize = 0;
    while j2 < np
        invariant
            np == probes@.len(),
            n == entry.probe_ids@.len(),
            0 <= j2 <= np,
            issues@.len() >= base2,
            issues@.len() == base2 <==> (forall|k: int|
                0 <= k < j2 && (#[trigger] probes@[k]).primary_capability@ == key@
                    ==> entry.probe_ids.deep_view().contains(probes@[k].id@)),
            !index.spec_has_capability(key@) ==> issues@.contains(
                CoverageIssue::UnknownCapability(*key),
            ),
            (entry.has_probe && !spec_cap_covered(probes@, key@)) ==> issues@.contains(
                CoverageIssue::MarkedCoveredWithoutProbes(*key),
            ),
            (!entry.has_probe && spec_cap_covered(probes@, key@)) ==> issues@.contains(
                CoverageIssue::MarkedUncoveredDespiteProbes(*key),
            ),
            forall|k: int|
                0 <= k < n && !spec_probe_declares(
                    probes@,
                    (#[trigger] entry.probe_ids@[k])@,
                    key@,
                ) ==> issues@.contains(CoverageIssue::UnknownProbe(*key, entry.probe_ids@[k]))
                    || issues@.contains(CoverageIssue::WrongCapability(*key, entry.probe_ids@[k])),
            forall|k: int|
                0 <= k < j2 && (#[trigger] probes@[k]).primary_capability@ == key@
                    && !entry.probe_ids.deep_view().contains(probes@[k].id@) ==> issues@.contains(
                    CoverageIssue::MissingProbe(*key, probes@[k].id),
                ),
        decreases np - j2,
    {
        broadcast use vstd::seq_lib::lemma_seq_contains_after_push;

        if str_eq(probes[j2].primary_capability.as_str(), key.as_str()) {
            if !list_contains(&entry.probe_ids, probes[j2].id.as_str()) {
                issues.push(CoverageIssue::MissingProbe(key.clone(), probes[j2].id.clone()));
            }
        }
        j2 = j2 + 1;
    }
    issues
}

/// Whether the stored map has an entry for `key`.
pub open spec fn spec_stored_has_key(stored: Seq<(String, CoverageEntry)>, key: Seq<char>) -> bool {
    exists|k: int| 0 <= k < stored.len() && (#[trigger] stored[k]).0@ == key
}

/// Full consistency of a materialized coverage map against the live catalog
/// and probe set: every stored entry is accurate, and every catalog
/// capability has an entry.
pub open spec fn spec_coverage_consistent(
    index: &CapabilityIndex,
    probes: Seq<ResolvedProbeMetadata>,
    stored: Seq<(String, CoverageEntry)>,
) -> bool {
    &&& (forall|k: int|
        0 <= k < stored.len() ==> spec_entry_ok(
            index,
            probes,
            (#[trigger] stored[k]).0@,
            stored[k].1,
        ))
    &&& (forall|i: int|
        0 <= i < index.spec_caps().len() ==> spec_stored_has_key(
            stored,
            (#[trigger] index.spec_caps()[i]).id.0@,
        ))
}

/// Cross-check a previously materialized coverage map against the live
/// computation.  Every discrepancy is collected in one pass rather than
/// failing fast: the result is empty exactly when the map is consistent.
pub fn validate_coverage_map(
    index: &CapabilityIndex,
    probes: &Vec<ResolvedProbeMetadata>,
    stored: &Vec<(String, CoverageEntry)>,
) -> (r: Vec<CoverageIssue>)
    requires
        index.wf(),
    ensures
        r@.len() == 0 <==> spec_coverage_consistent(index, probes@, stored@),
        forall|k: int|
            0 <= k < stored@.len() ==> spec_entry_discrepancies_reported(
                index,
                probes@,
                (#[trigger] stored@[k]).0,
                stored@[k].1,
                r@,
            ),
        forall|i: int|
            0 <= i < index.spec_caps().len() && !spec_stored_has_key(
                stored@,
                (#[trigger] index.spec_caps()[i]).id.0@,
            ) ==> r@.contains(CoverageIssue::MissingEntry(index.spec_caps()[i].id.0)),
{
    let mut issues: Vec<CoverageIssue> = Vec::new();
    let n = stored.len();
    let mut k: usize = 0;
    while k < n
        invariant
            index.wf(),
            n == stored@.len(),
            0 <= k <= n,
            issues@.len() == 0 <==> (forall|w: int|
                0 <= w < k ==> spec_entry_ok(
                    index,
                    probes@,
                    (#[trigger] stored@[w]).0@,
                    stored@[w].1,
                )),
            forall|w: int|
                0 <= w < k ==> spec_entry_discrepancies_reported(
                    index,
                    probes@,
                    (#[trigger] stored@[w]).0,
                    stored@[w].1,
                    issues@,
                ),
        decreases n - k,
    {
        let ghost old_issues = issues@;
        let mut sub = check_stored_entry(index, probes, &stored[k].0, &stored[k].1);
        let ghost sub_view = sub@;
        issues.append(&mut sub);
        proof {
            assert forall|w: int|
                0 <= w < k + 1 implies spec_entry_discrepancies_reported(
                index,
                probes@,
                (#[trigger] stored@[w]).0,
                stored@[w].1,
                issues@,
            ) by {
                if w < k {
                    lemma_reported_grows(
                        index,
                        probes@,
                        stored@[w].0,
                        stored@[w].1,
                        old_issues,
                        sub_view,
                    );
                } else {
                    lemma_reported_grows(
                        index,
                        probes@,
                        stored@[w].0,
                        stored@[w].1,
                        old_issues,
                        sub_view,
                    );
                }
            }
        }
        k = k + 1;
    }
    let ids = index.ids();
    let nc = ids.len();
    let ghost base = issues@.len();
    let mut i: usize = 0;
    proof {
        assert(ids.deep_view().len() == ids@.len());
        assert(index.spec_caps().map_values(|c: Capability| c.id.0@).len()
            == index.spec_caps().len());
    }
    while i < nc
        invariant
            index.wf(),
            nc == ids@.len(),
            index.spec_caps().len() == nc,
            ids.deep_view() == index.spec_caps().map_values(|c: Capability| c.id.0@),
            forall|w: int| 0 <= w < nc ==> #[trigger] ids@[w] == index.spec_caps()[w].id.0,
            n == stored@.len(),
            0 <= i <= nc,
            issues@.len() >= base,
            base == 0 <==> (forall|w: int|
                0 <= w < stored@.len() ==> spec_entry_ok(
                    index,
                    probes@,
                    (#[trigger] stored@[w]).0@,
                    stored@[w].1,
                )),
            issues@.len() == base <==> (forall|w: int|
                0 <= w < i ==> spec_stored_has_key(
                    stored@,
                    (#[trigger] index.spec_caps()[w]).id.0@,
                )),
            forall|w: int|
                0 <= w < stored@.len() ==> spec_entry_discrepancies_reported(
                    index,
                    probes@,
                    (#[trigger] stored@[w]).0,
                    stored@[w].1,
                    issues@,
                ),
            forall|w: int|
                0 <= w < i && !spec_stored_has_key(
                    stored@,
                    (#[trigger] index.spec_caps()[w]).id.0@,
                ) ==> issues@.contains(CoverageIssue::MissingEntry(index.spec_caps()[w].id.0)),
        decreases nc - i,
    {
        broadcast use vstd::seq_lib::lemma_seq_contains_after_push;

        proof {
            assert(ids.deep_view()[i as int] == index.spec_caps().map_values(
                |c: Capability| c.id.0@,
            )[i as int]);
            assert(ids.deep_view()[i as int] == ids@[i as int]@);
        }
        let mut found = false;
        let mut w: usize = 0;
        while w < n
            invariant
                n == stored@.len(),
                nc == ids@.len(),
                0 <= i < nc,
                0 <= w <= n,
                found ==> spec_stored_has_key(stored@, ids@[i as int]@),
                !found ==> (forall|t: int| 0 <= t < w ==> (#[trigger] stored@[t]).0@ != ids@[
                    i as int
                ]@),
            decreases n - w,
        {
            if str_eq(stored[w].0.as_str(), ids[i].as_str()) {
                found = true;
                proof {
                    assert(spec_stored_has_key(stored@, ids@[i as int]@));
                }
                w = n;
            } else {
                w = w + 1;
            }
        }
        if !found {
            let ghost old_issues = issues@;
            let issue = CoverageIssue::MissingEntry(ids[i].clone());
            issues.push(issue);
            proof {
                assert(issues@ =~= old_issues + seq![issue]);
                assert forall|w: int|
                    0 <= w < stored@.len() implies spec_entry_discrepancies_reported(
                    index,
                    probes@,
                    (#[trigger] stored@[w]).0,
                    stored@[w].1,
                    issues@,
                ) by {
                    lemma_reported_grows(
                        index,
                        probes@,
                        stored@[w].0,
                        stored@[w].1,
                        old_issues,
                        seq![issue],
                    );
                }
            }
        }
        i = i + 1;
    }
    issues
}

/// Every probe must declare a primary capability the catalog knows; the
/// result lists every probe that does not (exhaustively, never failing
/// fast), and is empty exactly when all resolve.
pub fn validate_probe_capabilities(
    index: &CapabilityIndex,
    probes: &Vec<ResolvedProbeMetadata>,
) -> (r: Vec<CoverageIssue>)
    requires
        index.wf(),
    ensures
        r@.len() == 0 <==> (forall|j: int|
            0 <= j < probes@.len() ==> index.spec_has_capability(
                (#[trigger] probes@[j]).primary_capability@,
            )),
        forall|j: int|
            0 <= j < probes@.len() && !index.spec_has_capability(
                (#[trigger] probes@[j]).primary_capability@,
            ) ==> r@.contains(
                CoverageIssue::UnknownProbeCapability(
                    probes@[j].id,
                    probes@[j].primary_capability,
                ),
            ),
{
    broadcast use vstd::seq_lib::lemma_seq_contains_after_push;

    let mut issues: Vec<CoverageIssue> = Vec::new();
    let n = probes.len();
    let mut j: usize = 0;
    while j < n
        invariant
            index.wf(),
            n == probes@.len(),
            0 <= j <= n,
            issues@.len() == 0 <==> (forall|k: int|
                0 <= k < j ==> index.spec_has_capability(
                    (#[trigger] probes@[k]).primary_capability@,
                )),
            forall|k: int|
                0 <= k < j && !index.spec_has_capability(
                    (#[trigger] probes@[k]).primary_capability@,
                ) ==> issues@.contains(
                    CoverageIssue::UnknownProbeCapability(
                        probes@[k].id,
                        probes@[k].primary_capability,
                    ),
                ),
        decreases n - j,
    {
        broadcast use vstd::seq_lib::lemma_seq_contains_after_push;

        let cap_id = crate::catalog::CapabilityId(probes[j].primary_capability.clone());
        if index.capability(&cap_id).is_none() {
            issues.push(CoverageIssue::UnknownProbeCapability(
                probes[j].id.clone(),
                probes[j].primary_capability.clone(),
            ));
        }
        j = j + 1;
    }
    issues
}

/// The primary capability a boundary object claims: the captured snapshot
/// wins over the probe's own declaration, mirroring
/// `BoundaryObject::primary_capability_id`.
pub open spec fn spec_record_primary(record: crate::BoundaryObject) -> String {
    match record.capability_context {
        Some(ctx) => ctx.primary.id,
        None => record.probe.primary_capability_id,
    }
}

/// Every emitted boundary object must reference a capability the catalog
/// knows; the result lists every record that does not (exhaustively, never
/// failing fast), and is empty exactly when all resolve.
pub fn validate_boundary_records(
    index: &CapabilityIndex,
    records: &Vec<crate::BoundaryObject>,
) -> (r: Vec<CoverageIssue>)
    requires
        index.wf(),
    ensures
        r@.len() == 0 <==> (forall|j: int|
            0 <= j < records@.len() ==> index.spec_has_capability(
                spec_record_primary(#[trigger] records@[j])@,
            )),
        forall|j: int|
            0 <= j < records@.len() && !index.spec_has_capability(
                spec_record_primary(#[trigger] records@[j])@,
            ) ==> r@.contains(
                CoverageIssue::UnknownProbeCapability(
                    records@[j].probe.id,
                    spec_record_primary(records@[j]),
                ),
            ),
{
    broadcast use vstd::seq_lib::lemma_seq_contains_after_push;

    let mut issues: Vec<CoverageIssue> = Vec::new();
    let n = records.len();
    let mut j: usize = 0;
    while j < n
        invariant
            index.wf(),
            n == records@.len(),
            0 <= j <= n,
            issues@.len() == 0 <==> (forall|k: int|
                0 <= k < j ==> index.spec_has_capability(
                    spec_record_primary(#[trigger] records@[k])@,
                )),
            forall|k: int|
                0 <= k < j && !index.spec_has_capability(
                    spec_record_primary(#[trigger] records@[k])@,
                ) ==> issues@.contains(
                    CoverageIssue::UnknownProbeCapability(
                        records@[k].probe.id,
                        spec_record_primary(records@[k]),
                    ),
                ),
        decreases n - j,
    {
        broadcast use vstd::seq_lib::lemma_seq_contains_after_push;

        let primary = match &records[j].capability_context {
            Some(ctx) => &ctx.primary.id,
            None => &records[j].probe.primary_capability_id,
        };
        let cap_id = crate::catalog::CapabilityId(primary.clone());
        if index.capability(&cap_id).is_none() {
            issues.push(CoverageIssue::UnknownProbeCapability(
                records[j].probe.id.clone(),
                primary.clone(),
            ));
        }
        j = j + 1;
    }
    issues
}

} // verus!
