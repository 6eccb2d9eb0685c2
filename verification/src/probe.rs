//! Probe resolution and probe metadata.
//!
//! A probe is an executable script identified by its file name minus the
//! extension.  Resolution is a security boundary: a probe may only run when
//! its canonical, symlink-resolved path lies strictly inside the canonical
//! probes directory.  The caller canonicalizes paths and checks file kind
//! and the execute bit; the decision over those observations lives here, so
//! an absolute path outside the tree and a symlink escaping it are rejected
//! the same way, before anything runs.

use vstd::prelude::*;
use crate::text::{split_list, spec_split_list, trim_seq, trim_str};

verus! {

/// A resolved probe: the derived id and the canonical executable path.
#[derive(Debug)]
pub struct Probe {
    pub id: String,
    pub path: String,
}

/// Why a probe did not resolve.  Outside paths, escaping symlinks, missing
/// files and missing execute bits all fall in one class, so a caller cannot
/// distinguish a guarded path from an absent one.
#[derive(Debug)]
pub enum ResolveError {
    ProbeNotFound(String),
    MissingPrimaryCapability(String),
}

impl ResolveError {
    /// A human-readable account of the failure.
    pub fn describe(&self) -> (r: String)
        ensures
            self matches ResolveError::ProbeNotFound(p) ==> r@
                == "Probe not found or not executable: "@ + p@,
            self matches ResolveError::MissingPrimaryCapability(p) ==> r@
                == "probe is missing primary_capability_id: "@ + p@,
    {
        match self {
            ResolveError::ProbeNotFound(p) => String::from_str(
                "Probe not found or not executable: ",
            ).concat(p.as_str()),
            ResolveError::MissingPrimaryCapability(p) => String::from_str(
                "probe is missing primary_capability_id: ",
            ).concat(p.as_str()),
        }
    }
}

/// Whether `suffix` ends `s`.
pub open spec fn spec_has_suffix(s: Seq<char>, suffix: Seq<char>) -> bool {
    s.len() >= suffix.len() && s.skip(s.len() - suffix.len()) == suffix
}

/// Whether `path` lies strictly inside `dir`: it extends `dir` with a `/`
/// and at least one further character.
pub open spec fn spec_within_dir(dir: Seq<char>, path: Seq<char>) -> bool {
    &&& path.len() > dir.len() + 1
    &&& path.take(dir.len() as int) == dir
    &&& path[dir.len() as int] == '/'
}

/// Whether `path` lies strictly inside `dir`.
pub fn path_within_dir(dir: &str, path: &str) -> (r: bool)
    ensures
        r == spec_within_dir(dir@, path@),
{
    let nd = dir.unicode_len();
    let np = path.unicode_len();
    if nd >= np {
        return false;
    }
    if np - nd <= 1 {
        return false;
    }
    if path.get_char(nd) != '/' {
        return false;
    }
    let mut i: usize = 0;
    while i < nd
        invariant
            nd == dir@.len(),
            np == path@.len(),
            np > nd + 1,
            0 <= i <= nd,
            forall|j: int| 0 <= j < i ==> path@[j] == dir@[j],
        decreases nd - i,
    {
        if path.get_char(i) != dir.get_char(i) {
            proof {
                assert(path@.take(nd as int)[i as int] != dir@[i as int]);
            }
            return false;
        }
        i = i + 1;
    }
    proof {
        assert(path@.take(nd as int) =~= dir@);
    }
    true
}

/// The probe id a file name derives: the name minus a trailing `.sh`.
pub open spec fn spec_probe_id(name: Seq<char>) -> Seq<char> {
    if spec_has_suffix(name, ".sh"@) {
        name.take(name.len() - 3)
    } else {
        name
    }
}

fn has_sh_suffix(name: &str) -> (r: bool)
    ensures
        r == spec_has_suffix(name@, ".sh"@),
        r ==> name@.len() >= 3,
{
    proof {
        reveal_strlit(".sh");
        assert(".sh"@.len() == 3);
        assert(".sh"@[0] == '.' && ".sh"@[1] == 's' && ".sh"@[2] == 'h');
    }
    let n = name.unicode_len();
    if n < 3 {
        return false;
    }
    let r = name.get_char(n - 3) == '.' && name.get_char(n - 2) == 's' && name.get_char(n - 1)
        == 'h';
    proof {
        assert(name@.skip(n - 3)[0] == name@[n - 3]);
        assert(name@.skip(n - 3)[1] == name@[n - 2]);
        assert(name@.skip(n - 3)[2] == name@[n - 1]);
        if r {
            assert(name@.skip(n - 3) =~= ".sh"@);
        } else {
            assert(name@.skip(n - 3) != ".sh"@);
        }
    }
    r
}

/// Derive a probe id from a file name by stripping a trailing `.sh`.
pub fn probe_id_from_filename(name: &str) -> (r: String)
    ensures
        r@ == spec_probe_id(name@),
{
    proof {
        reveal_strlit(".sh");
    }
    let n = name.unicode_len();
    if has_sh_suffix(name) {
        let stem = name.substring_char(0, n - 3);
        proof {
            assert(name@.subrange(0, n - 3) =~= name@.take(n - 3));
        }
        stem.to_owned()
    } else {
        name.to_owned()
    }
}

/// The file name a probe identifier denotes: the identifier itself when it
/// already carries the `.sh` extension, else the identifier with `.sh`
/// appended.
pub open spec fn spec_probe_filename(identifier: Seq<char>) -> Seq<char> {
    if spec_has_suffix(identifier, ".sh"@) {
        identifier
    } else {
        identifier + ".sh"@
    }
}

/// The file name a probe identifier denotes.
pub fn probe_filename(identifier: &str) -> (r: String)
    ensures
        r@ == spec_probe_filename(identifier@),
{
    if has_sh_suffix(identifier) {
        identifier.to_owned()
    } else {
        String::from_str(identifier).concat(".sh")
    }
}

/// Decide a probe resolution from the caller's observations of the file
/// system: the canonical (symlink-resolved) path of the candidate, if it
/// exists, and whether it is a regular, executable file.
///
/// Resolution succeeds exactly when the candidate exists as a regular
/// executable file whose canonical path lies strictly inside the canonical
/// probes directory; the probe then carries that canonical path and the id
/// derived from its location under the probes directory.  Everything else
/// fails as "not found or not executable", so a path outside the tree and a
/// symlink whose target escapes it are indistinguishable from an absent
/// probe.
pub fn resolve_probe_check(
    probes_dir: &str,
    identifier: &str,
    canonical_path: Option<&str>,
    is_file: bool,
    is_executable: bool,
) -> (r: Result<Probe, ResolveError>)
    ensures
        r is Ok <==> (canonical_path matches Some(p) && is_file && is_executable
            && spec_within_dir(probes_dir@, p@)),
        r matches Ok(probe) ==> (canonical_path matches Some(p) ==> probe.path@ == p@
            && probe.id@ == spec_probe_id(p@.skip(probes_dir@.len() as int + 1))),
        r matches Err(e) ==> e matches ResolveError::ProbeNotFound(v) && v@ == identifier@,
{
    if let Some(p) = canonical_path {
        if is_file && is_executable && path_within_dir(probes_dir, p) {
            let nd = probes_dir.unicode_len();
            let np = p.unicode_len();
            let relative = p.substring_char(nd + 1, np);
            proof {
                assert(p@.subrange(nd + 1, np as int) =~= p@.skip(probes_dir@.len() as int + 1));
            }
            let id = probe_id_from_filename(relative);
            return Ok(Probe { id, path: p.to_owned() });
        }
    }
    Err(ResolveError::ProbeNotFound(identifier.to_owned()))
}

/// The fields a probe script may declare about itself, each on one line of
/// the form `key="value"`.
pub struct ParsedProbeMetadata {
    pub name: Option<String>,
    pub version: Option<String>,
    pub primary_capability: Option<String>,
    pub secondary: Vec<String>,
}

/// Fully resolved probe metadata: script-declared values win over the
/// defaults derived from the file, and a primary capability is mandatory.
#[derive(Debug)]
pub struct ResolvedProbeMetadata {
    pub id: String,
    pub version: String,
    pub primary_capability: String,
    pub secondary: Vec<String>,
}

/// The lines of `s`, split at newline characters, empty lines kept.
pub open spec fn spec_lines_acc(s: Seq<char>, cur: Seq<char>) -> Seq<Seq<char>>
    decreases s.len(),
{
    if s.len() == 0 {
        seq![cur]
    } else if s[0] == '\n' {
        seq![cur] + spec_lines_acc(s.drop_first(), Seq::empty())
    } else {
        spec_lines_acc(s.drop_first(), cur.push(s[0]))
    }
}

/// The lines of `s`.
pub open spec fn spec_lines(s: Seq<char>) -> Seq<Seq<char>> {
    spec_lines_acc(s, Seq::empty())
}

/// Splitting always yields at least one line.
pub proof fn lemma_spec_lines_nonempty(s: Seq<char>, cur: Seq<char>)
    ensures
        spec_lines_acc(s, cur).len() > 0,
    decreases s.len(),
{
    if s.len() > 0 && s[0] != '\n' {
        lemma_spec_lines_nonempty(s.drop_first(), cur.push(s[0]));
    }
}

/// Split `text` into its lines.
pub fn split_lines(text: &str) -> (r: Vec<String>)
    ensures
        r.deep_view() == spec_lines(text@),
{
    let n = text.unicode_len();
    let mut result: Vec<String> = Vec::new();
    let mut cur = String::new();
    let mut i: usize = 0;
    proof {
        assert(text@.skip(0) =~= text@);
        assert(result.deep_view() + spec_lines_acc(text@, cur@) =~= spec_lines(text@));
    }
    while i < n
        invariant
            n == text@.len(),
            0 <= i <= n,
            result.deep_view() + spec_lines_acc(text@.skip(i as int), cur@) == spec_lines(text@),
        decreases n - i,
    {
        let c = text.get_char(i);
        proof {
            assert(text@.skip(i as int).drop_first() =~= text@.skip(i + 1));
            assert(text@.skip(i as int)[0] == text@[i as int]);
        }
        if c == '\n' {
            let ghost old_result = result.deep_view();
            let ghost old_cur = cur@;
            result.push(cur);
            cur = String::new();
            proof {
                assert(result.deep_view() =~= old_result.push(old_cur));
                assert(old_result + (seq![old_cur] + spec_lines_acc(
                    text@.skip(i + 1),
                    Seq::empty(),
                )) =~= result.deep_view() + spec_lines_acc(text@.skip(i + 1), cur@));
            }
        } else {
            let ghost old_cur = cur@;
            let piece = text.substring_char(i, i + 1);
            cur.append(piece);
            proof {
                assert(piece@ =~= seq![text@[i as int]]);
                assert(cur@ =~= old_cur.push(text@[i as int]));
            }
        }
        i = i + 1;
    }
    let ghost old_result = result.deep_view();
    let ghost old_cur = cur@;
    result.push(cur);
    proof {
        assert(text@.skip(n as int) =~= Seq::<char>::empty());
        assert(result.deep_view() =~= old_result.push(old_cur));
        assert(old_result.push(old_cur) =~= old_result + seq![old_cur]);
    }
    result
}

/// The value a `key="value"` line declares for `key`, after trimming.
pub open spec fn spec_kv_value(line: Seq<char>, key: Seq<char>) -> Option<Seq<char>> {
    let t = trim_seq(line);
    let prefix = key + seq!['=', '"'];
    if t.len() > prefix.len() && t.take(prefix.len() as int) == prefix && t.last() == '"' {
        Some(t.subrange(prefix.len() as int, t.len() - 1))
    } else {
        None
    }
}

/// Extract the value a `key="value"` line declares, if the line has that
/// exact shape.
pub fn kv_value(line: &str, key: &str) -> (r: Option<String>)
    ensures
        match r {
            Some(v) => spec_kv_value(line@, key@) == Some(v@),
            None => spec_kv_value(line@, key@) is None,
        },
{
    let t = trim_str(line);
    let ts = t.as_str();
    let nt = ts.unicode_len();
    let nk = key.unicode_len();
    if nk >= nt {
        return None;
    }
    if nt - nk <= 2 {
        return None;
    }
    if ts.get_char(nk) != '=' || ts.get_char(nk + 1) != '"' || ts.get_char(nt - 1) != '"' {
        proof {
            let prefix = key@ + seq!['=', '"'];
            assert(prefix[nk as int] == '=');
            assert(prefix[nk + 1] == '"');
            if ts@.take(prefix.len() as int) == prefix {
                assert(ts@.take(prefix.len() as int)[nk as int] == prefix[nk as int]);
                assert(ts@.take(prefix.len() as int)[nk + 1] == prefix[nk + 1]);
            }
        }
        return None;
    }
    let mut i: usize = 0;
    while i < nk
        invariant
            nt == ts@.len(),
            nk == key@.len(),
            nt > nk + 2,
            ts@ == trim_seq(line@),
            0 <= i <= nk,
            forall|j: int| 0 <= j < i ==> ts@[j] == key@[j],
        decreases nk - i,
    {
        if ts.get_char(i) != key.get_char(i) {
            proof {
                let prefix = key@ + seq!['=', '"'];
                if ts@.take(prefix.len() as int) == prefix {
                    assert(ts@.take(prefix.len() as int)[i as int] == prefix[i as int]);
                    assert(prefix[i as int] == key@[i as int]);
                }
            }
            return None;
        }
        i = i + 1;
    }
    let value = ts.substring_char(nk + 2, nt - 1);
    proof {
        let prefix = key@ + seq!['=', '"'];
        assert(ts@.take(prefix.len() as int) =~= prefix);
        assert(ts@.subrange(nk + 2, nt - 1) =~= ts@.subrange(prefix.len() as int, ts@.len() - 1));
    }
    Some(value.to_owned())
}

/// The first value any line declares for `key`.
pub open spec fn spec_first_kv(lines: Seq<Seq<char>>, key: Seq<char>) -> Option<Seq<char>>
    decreases lines.len(),
{
    if lines.len() == 0 {
        None
    } else if spec_kv_value(lines[0], key) is Some {
        spec_kv_value(lines[0], key)
    } else {
        spec_first_kv(lines.drop_first(), key)
    }
}

/// Find the first value any line of `lines` declares for `key`.
fn first_kv(lines: &Vec<String>, key: &str) -> (r: Option<String>)
    ensures
        match r {
            Some(v) => spec_first_kv(lines.deep_view(), key@) == Some(v@),
            None => spec_first_kv(lines.deep_view(), key@) is None,
        },
{
    let n = lines.len();
    let mut i: usize = 0;
    proof {
        assert(lines.deep_view().skip(0) =~= lines.deep_view());
    }
    while i < n
        invariant
            n == lines@.len(),
            lines.deep_view().len() == n,
            0 <= i <= n,
            spec_first_kv(lines.deep_view(), key@) == spec_first_kv(
                lines.deep_view().skip(i as int),
                key@,
            ),
        decreases n - i,
    {
        proof {
            assert(lines.deep_view().skip(i as int)[0] == lines.deep_view()[i as int]);
            assert(lines.deep_view()[i as int] == lines@[i as int]@);
            assert(lines.deep_view().skip(i as int).drop_first() =~= lines.deep_view().skip(
                i + 1,
            ));
        }
        if let Some(v) = kv_value(lines[i].as_str(), key) {
            return Some(v);
        }
        i = i + 1;
    }
    proof {
        assert(lines.deep_view().skip(n as int) =~= Seq::<Seq<char>>::empty());
    }
    None
}

/// The metadata fields a probe script's text declares.
pub open spec fn spec_parsed_name(text: Seq<char>) -> Option<Seq<char>> {
    spec_first_kv(spec_lines(text), "probe_name"@)
}

/// The version field a probe script's text declares.
pub open spec fn spec_parsed_version(text: Seq<char>) -> Option<Seq<char>> {
    spec_first_kv(spec_lines(text), "probe_version"@)
}

/// The primary capability field a probe script's text declares.
pub open spec fn spec_parsed_primary(text: Seq<char>) -> Option<Seq<char>> {
    spec_first_kv(spec_lines(text), "primary_capability_id"@)
}

/// Parse the metadata a probe script declares about itself: `probe_name`,
/// `probe_version`, `primary_capability_id`, and a separator-split
/// `secondary_capability_ids` list, each as a `key="value"` line.
pub fn parse_probe_metadata(text: &str) -> (r: ParsedProbeMetadata)
    ensures
        match r.name {
            Some(v) => spec_parsed_name(text@) == Some(v@),
            None => spec_parsed_name(text@) is None,
        },
        match r.version {
            Some(v) => spec_parsed_version(text@) == Some(v@),
            None => spec_parsed_version(text@) is None,
        },
        match r.primary_capability {
            Some(v) => spec_parsed_primary(text@) == Some(v@),
            None => spec_parsed_primary(text@) is None,
        },
        r.secondary.deep_view() == (match spec_first_kv(
            spec_lines(text@),
            "secondary_capability_ids"@,
        ) {
            Some(v) => spec_split_list(v),
            None => Seq::<Seq<char>>::empty(),
        }),
{
    let lines = split_lines(text);
    let name = first_kv(&lines, "probe_name");
    let version = first_kv(&lines, "probe_version");
    let primary_capability = first_kv(&lines, "primary_capability_id");
    let secondary = match first_kv(&lines, "secondary_capability_ids") {
        Some(v) => split_list(v.as_str()),
        None => Vec::new(),
    };
    proof {
        if spec_first_kv(spec_lines(text@), "secondary_capability_ids"@) is None {
            assert(secondary.deep_view() =~= Seq::<Seq<char>>::empty());
        }
    }
    ParsedProbeMetadata { name, version, primary_capability, secondary }
}

/// Combine a resolved probe with its parsed metadata: script-declared
/// values win over the file-derived id and the default version `0`, and a
/// missing primary capability fails resolution.
pub fn resolve_probe_metadata(probe: &Probe, parsed: ParsedProbeMetadata) -> (r: Result<
    ResolvedProbeMetadata,
    ResolveError,
>)
    ensures
        r is Ok <==> parsed.primary_capability is Some,
        r matches Ok(m) ==> {
            &&& m.id@ == (match parsed.name {
                Some(v) => v@,
                None => probe.id@,
            })
            &&& m.version@ == (match parsed.version {
                Some(v) => v@,
                None => "0"@,
            })
            &&& Some(m.primary_capability) == parsed.primary_capability
            &&& m.secondary == parsed.secondary
        },
        r matches Err(e) ==> e matches ResolveError::MissingPrimaryCapability(p) && p@
            == probe.id@,
{
    let primary_capability = match parsed.primary_capability {
        Some(v) => v,
        None => {
            return Err(ResolveError::MissingPrimaryCapability(probe.id.clone()));
        },
    };
    let id = match parsed.name {
        Some(v) => v,
        None => probe.id.clone(),
    };
    let version = match parsed.version {
        Some(v) => v,
        None => String::from_str("0"),
    };
    Ok(ResolvedProbeMetadata { id, version, primary_capability, secondary: parsed.secondary })
}

} // verus!
