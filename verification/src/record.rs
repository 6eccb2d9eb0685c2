//! Validation rules of the record emitter: observed-result status values,
//! schema-version shape, capability-id resolution against the adapter's
//! capability map, secondary-id normalization, required-flag assembly, and
//! integer flag parsing.

use vstd::prelude::*;
use crate::text::{
    is_ident_seq, is_ident_str, lex_lt, str_eq, strictly_sorted_strings, trim_seq, trim_str,
    insert_sorted_dedup,
};

verus! {

/// Why a record could not be assembled.
#[derive(Debug)]
pub enum RecordError {
    /// A required flag was never given; carries the flag name.
    MissingFlag(String),
    /// The status value is not one of the known observed results.
    UnknownStatus(String),
    /// A capability id did not resolve; carries the label of the field and
    /// the offending id.
    UnknownCapability(String, String),
    /// An integer flag did not parse; carries the label of the field.
    InvalidInteger(String),
}

/// One capability as reported by the capability adapter: an id with its
/// optional category and layer.
pub struct CapabilityRecord {
    pub id: String,
    pub category: Option<String>,
    pub layer: Option<String>,
}

/// Whether the adapter's capability map holds this id.
pub open spec fn spec_known_capability(caps: Seq<CapabilityRecord>, id: Seq<char>) -> bool {
    exists|i: int| 0 <= i < caps.len() && (#[trigger] caps[i].id@) == id
}

/// The known observed-result statuses.
pub open spec fn spec_status_known(s: Seq<char>) -> bool {
    s == "success"@ || s == "denied"@ || s == "partial"@ || s == "error"@
}

/// Check an observed-result status: `success`, `denied`, `partial` or
/// `error`, nothing else.
pub fn validate_status(status: &str) -> (r: Result<(), RecordError>)
    ensures
        r is Ok <==> spec_status_known(status@),
        r matches Err(e) ==> e matches RecordError::UnknownStatus(v) && v@ == status@,
{
    if str_eq(status, "success") || str_eq(status, "denied") || str_eq(status, "partial")
        || str_eq(status, "error") {
        Ok(())
    } else {
        Err(RecordError::UnknownStatus(status.to_owned()))
    }
}

/// Whether `value` has the shape of a schema version: non-empty and drawn
/// from `[A-Za-z0-9_.-]`.
pub fn is_valid_schema_version(value: &str) -> (r: bool)
    ensures
        r == is_ident_seq(value@),
{
    is_ident_str(value)
}

/// Check that `value` resolves in the adapter's capability map.  `label`
/// names the field for the error message.
pub fn validate_capability_id(caps: &Vec<CapabilityRecord>, value: &str, label: &str) -> (r:
    Result<(), RecordError>)
    ensures
        r is Ok <==> spec_known_capability(caps@, value@),
        r matches Err(e) ==> e matches RecordError::UnknownCapability(l, v) && l@ == label@ && v@
            == value@,
{
    let n = caps.len();
    let mut i: usize = 0;
    while i < n
        invariant
            n == caps@.len(),
            0 <= i <= n,
            forall|j: int| 0 <= j < i ==> (#[trigger] caps@[j].id@) != value@,
        decreases n - i,
    {
        if str_eq(caps[i].id.as_str(), value) {
            return Ok(());
        }
        i = i + 1;
    }
    Err(RecordError::UnknownCapability(label.to_owned(), value.to_owned()))
}

/// Normalize a list of secondary capability ids: trim whitespace, discard
/// blank entries, reject any id the capability map does not know, and return
/// the surviving ids deduplicated in ascending order.
pub fn normalize_secondary_ids(caps: &Vec<CapabilityRecord>, raw: &Vec<String>) -> (r: Result<
    Vec<String>,
    RecordError,
>)
    ensures
        r is Ok <==> (forall|i: int|
            0 <= i < raw.deep_view().len() ==> (trim_seq(#[trigger] raw.deep_view()[i]).len() == 0
                || spec_known_capability(caps@, trim_seq(raw.deep_view()[i])))),
        r matches Ok(out) ==> strictly_sorted_strings(out.deep_view()),
        r matches Ok(out) ==> (forall|x: Seq<char>|
            out.deep_view().contains(x) <==> (x.len() > 0 && exists|i: int|
                0 <= i < raw.deep_view().len() && trim_seq(#[trigger] raw.deep_view()[i]) == x)),
{
    let n = raw.len();
    let mut out: Vec<String> = Vec::new();
    let mut i: usize = 0;
    while i < n
        invariant
            n == raw@.len(),
            0 <= i <= n,
            strictly_sorted_strings(out.deep_view()),
            forall|j: int|
                0 <= j < i ==> (trim_seq(#[trigger] raw.deep_view()[j]).len() == 0
                    || spec_known_capability(caps@, trim_seq(raw.deep_view()[j]))),
            forall|x: Seq<char>|
                out.deep_view().contains(x) <==> (x.len() > 0 && exists|j: int|
                    0 <= j < i && trim_seq(#[trigger] raw.deep_view()[j]) == x),
        decreases n - i,
    {
        let trimmed = trim_str(raw[i].as_str());
        proof {
            assert(raw.deep_view()[i as int] == raw@[i as int]@);
        }
        if !trimmed.as_str().is_empty() {
            if let Err(e) = validate_capability_id(caps, trimmed.as_str(), "secondary capability id",
            ) {
                proof {
                    assert(trim_seq(raw.deep_view()[i as int]).len() != 0);
                    assert(!spec_known_capability(caps@, trim_seq(raw.deep_view()[i as int])));
                }
                return Err(e);
            }
            insert_sorted_dedup(&mut out, trimmed);
        }
        i = i + 1;
    }
    Ok(out)
}

/// An ASCII decimal digit.
pub open spec fn is_digit_char(c: char) -> bool {
    48 <= c as u32 <= 57
}

/// The numeric value of a digit character.
pub open spec fn digit_val(c: char) -> int {
    c as u32 - 48
}

/// Whether every character of `s` is a decimal digit.
pub open spec fn all_digits(s: Seq<char>) -> bool {
    forall|i: int| 0 <= i < s.len() ==> is_digit_char(#[trigger] s[i])
}

/// The value of a digit string read in base ten.
pub open spec fn digits_val(s: Seq<char>) -> int
    decreases s.len(),
{
    if s.len() == 0 {
        0
    } else {
        digits_val(s.drop_last()) * 10 + digit_val(s.last())
    }
}

/// Whether the number is written with a leading minus sign.
pub open spec fn spec_negative(s: Seq<char>) -> bool {
    s.len() > 0 && s[0] == '-'
}

/// The digit part of a signed decimal string.
pub open spec fn spec_digits_part(s: Seq<char>) -> Seq<char> {
    if s.len() > 0 && (s[0] == '-' || s[0] == '+') {
        s.drop_first()
    } else {
        s
    }
}

/// The `i64` a decimal string denotes: an optional sign, then one or more
/// digits, with the value in range; anything else is `None`.
pub open spec fn spec_parse_i64(s: Seq<char>) -> Option<int> {
    let digits = spec_digits_part(s);
    if digits.len() == 0 || !all_digits(digits) {
        None
    } else {
        let v = if spec_negative(s) {
            -digits_val(digits)
        } else {
            digits_val(digits)
        };
        if i64::MIN <= v <= i64::MAX {
            Some(v)
        } else {
            None
        }
    }
}

/// A digit string has a non-negative value.
proof fn lemma_digits_val_nonneg(s: Seq<char>)
    requires
        all_digits(s),
    ensures
        digits_val(s) >= 0,
    decreases s.len(),
{
    if s.len() > 0 {
        assert(all_digits(s.drop_last())) by {
            assert(forall|i: int| 0 <= i < s.len() - 1 ==> is_digit_char(#[trigger] s[i]));
        }
        lemma_digits_val_nonneg(s.drop_last());
    }
}

/// Reading more digits never decreases the value.
proof fn lemma_digits_val_prefix_le(s: Seq<char>, k: int)
    requires
        all_digits(s),
        0 <= k <= s.len(),
    ensures
        digits_val(s) >= digits_val(s.take(k)),
    decreases s.len(),
{
    if k == s.len() {
        assert(s.take(k) =~= s);
    } else {
        assert(all_digits(s.drop_last())) by {
            assert(forall|i: int| 0 <= i < s.len() - 1 ==> is_digit_char(#[trigger] s[i]));
        }
        assert(s.drop_last().take(k) =~= s.take(k));
        lemma_digits_val_prefix_le(s.drop_last(), k);
        lemma_digits_val_nonneg(s.drop_last());
    }
}

/// Parse a decimal `i64` flag value.  `label` names the flag for the error.
pub fn parse_i64(value: &str, label: &str) -> (r: Result<i64, RecordError>)
    ensures
        r is Ok <==> spec_parse_i64(value@) is Some,
        r matches Ok(v) ==> spec_parse_i64(value@) == Some(v as int),
        r matches Err(e) ==> e matches RecordError::InvalidInteger(l) && l@ == label@,
{
    let n = value.unicode_len();
    let mut start: usize = 0;
    let mut negative = false;
    if n > 0 {
        let c0 = value.get_char(0);
        if c0 == '-' {
            negative = true;
            start = 1;
        } else if c0 == '+' {
            start = 1;
        }
    }
    let ghost digits = spec_digits_part(value@);
    proof {
        assert(digits =~= value@.skip(start as int));
    }
    if start == n {
        return Err(RecordError::InvalidInteger(label.to_owned()));
    }
    let mut mag: u64 = 0;
    let mut i: usize = start;
    while i < n
        invariant
            n == value@.len(),
            digits == value@.skip(start as int),
            start <= i <= n,
            start < n,
            mag <= 9223372036854775808,
            all_digits(digits.take(i - start)),
            mag == digits_val(digits.take(i - start)),
            negative == spec_negative(value@),
            digits == spec_digits_part(value@),
        decreases n - i,
    {
        let c = value.get_char(i);
        let u = c as u32;
        if !(48 <= u && u <= 57) {
            proof {
                assert(digits[i - start] == value@[i as int]);
                assert(!is_digit_char(digits[i - start]));
            }
            return Err(RecordError::InvalidInteger(label.to_owned()));
        }
        let d = (u - 48) as u64;
        if mag > 922337203685477580 || (mag == 922337203685477580 && d > 8) {
            proof {
                assert(digits.take(i + 1 - start).drop_last() =~= digits.take(i - start));
                assert(digits.take(i + 1 - start).last() == value@[i as int]);
                assert(digits_val(digits.take(i + 1 - start)) > 9223372036854775808);
                if all_digits(digits) {
                    lemma_digits_val_prefix_le(digits, i + 1 - start);
                    assert(digits_val(digits) > 9223372036854775808);
                }
            }
            return Err(RecordError::InvalidInteger(label.to_owned()));
        }
        proof {
            assert(digits.take(i + 1 - start).drop_last() =~= digits.take(i - start));
            assert(digits.take(i + 1 - start).last() == value@[i as int]);
        }
        mag = mag * 10 + d;
        i = i + 1;
    }
    proof {
        assert(digits.take(n - start) =~= digits);
    }
    if negative {
        if mag == 9223372036854775808 {
            Ok(i64::MIN)
        } else {
            Ok(-(mag as i64))
        }
    } else {
        if mag > 9223372036854775807 {
            return Err(RecordError::InvalidInteger(label.to_owned()));
        }
        Ok(mag as i64)
    }
}

/// Whether an optional text field carries a non-empty value.
pub fn not_empty(value: &String) -> (r: bool)
    ensures
        r == (value@.len() != 0),
{
    !value.as_str().is_empty()
}

/// The assembled flags of one record emission.
#[derive(Debug)]
pub struct CliArgs {
    pub run_mode: String,
    pub probe_name: String,
    pub probe_version: String,
    pub category: String,
    pub verb: String,
    pub target: String,
    pub status: String,
    pub errno: Option<String>,
    pub message: Option<String>,
    pub duration_ms: Option<i64>,
    pub raw_exit_code: Option<i64>,
    pub error_detail: Option<String>,
    pub payload_file: Option<String>,
    pub operation_args: String,
    pub primary_capability_id: String,
    pub secondary_capability_ids: Vec<String>,
    pub command: String,
}

/// The flags collected so far while reading the command line; `build` turns
/// them into `CliArgs` once every required flag is present.
pub struct PartialArgs {
    pub run_mode: Option<String>,
    pub probe_name: Option<String>,
    pub probe_version: Option<String>,
    pub category: Option<String>,
    pub verb: Option<String>,
    pub target: Option<String>,
    pub status: Option<String>,
    pub errno: Option<String>,
    pub message: Option<String>,
    pub duration_ms: Option<i64>,
    pub raw_exit_code: Option<i64>,
    pub error_detail: Option<String>,
    pub payload_file: Option<String>,
    pub operation_args: Option<String>,
    pub primary_capability_id: Option<String>,
    pub secondary_capability_ids: Vec<String>,
    pub command: Option<String>,
}

/// The view of an optional string field after the blank filter: a `Some`
/// holding an empty string counts as absent.
pub open spec fn spec_filter_blank(v: Option<String>) -> Option<String> {
    match v {
        Some(s) => if s@.len() == 0 {
            None
        } else {
            Some(s)
        },
        None => None,
    }
}

impl PartialArgs {
    /// Whether every required flag was given.
    pub open spec fn spec_complete(&self) -> bool {
        &&& self.run_mode is Some
        &&& self.probe_name is Some
        &&& self.probe_version is Some
        &&& self.category is Some
        &&& self.verb is Some
        &&& self.target is Some
        &&& self.status is Some
        &&& self.primary_capability_id is Some
        &&& self.command is Some
    }

    /// Take a required flag's value or fail naming the flag.
    pub fn require(flag: &str, value: Option<String>) -> (r: Result<String, RecordError>)
        ensures
            r is Ok <==> value is Some,
            r matches Ok(v) ==> Some(v) == value,
            r matches Err(e) ==> e matches RecordError::MissingFlag(f) && f@ == flag@,
    {
        match value {
            Some(v) => Ok(v),
            None => Err(RecordError::MissingFlag(flag.to_owned())),
        }
    }

    /// Assemble the final arguments.  Succeeds exactly when every required
    /// flag is present; optional text fields are dropped when blank, and the
    /// operation arguments default to an empty JSON object.
    pub fn build(self) -> (r: Result<CliArgs, RecordError>)
        ensures
            r is Ok <==> self.spec_complete(),
            r matches Ok(args) ==> {
                &&& Some(args.run_mode) == self.run_mode
                &&& Some(args.probe_name) == self.probe_name
                &&& Some(args.probe_version) == self.probe_version
                &&& Some(args.category) == self.category
                &&& Some(args.verb) == self.verb
                &&& Some(args.target) == self.target
                &&& Some(args.status) == self.status
                &&& args.errno == spec_filter_blank(self.errno)
                &&& args.message == spec_filter_blank(self.message)
                &&& args.duration_ms == self.duration_ms
                &&& args.raw_exit_code == self.raw_exit_code
                &&& args.error_detail == spec_filter_blank(self.error_detail)
                &&& args.payload_file == self.payload_file
                &&& (match self.operation_args {
                    Some(v) => args.operation_args == v,
                    None => args.operation_args@ == "{}"@,
                })
                &&& Some(args.primary_capability_id) == self.primary_capability_id
                &&& args.secondary_capability_ids == self.secondary_capability_ids
                &&& Some(args.command) == self.command
            },
            r matches Err(e) ==> e matches RecordError::MissingFlag(..),
            self.run_mode is None ==> (r matches Err(e) && e matches RecordError::MissingFlag(f)
                && f@ == "--run-mode"@),
            self.run_mode is Some && self.probe_name is None ==> (r matches Err(e) && e
                matches RecordError::MissingFlag(f) && f@ == "--probe-name"@),
            self.run_mode is Some && self.probe_name is Some && self.probe_version is None ==> (
            r matches Err(e) && e matches RecordError::MissingFlag(f) && f@
                == "--probe-version"@),
            self.run_mode is Some && self.probe_name is Some && self.probe_version is Some
                && self.category is None ==> (r matches Err(e) && e
                matches RecordError::MissingFlag(f) && f@ == "--category"@),
            self.run_mode is Some && self.probe_name is Some && self.probe_version is Some
                && self.category is Some && self.verb is None ==> (r matches Err(e) && e
                matches RecordError::MissingFlag(f) && f@ == "--verb"@),
            self.run_mode is Some && self.probe_name is Some && self.probe_version is Some
                && self.category is Some && self.verb is Some && self.target is None ==> (
            r matches Err(e) && e matches RecordError::MissingFlag(f) && f@ == "--target"@),
            self.run_mode is Some && self.probe_name is Some && self.probe_version is Some
                && self.category is Some && self.verb is Some && self.target is Some
                && self.status is None ==> (r matches Err(e) && e
                matches RecordError::MissingFlag(f) && f@ == "--status"@),
            self.run_mode is Some && self.probe_name is Some && self.probe_version is Some
                && self.category is Some && self.verb is Some && self.target is Some
                && self.status is Some && self.primary_capability_id is None ==> (r matches Err(e)
                && e matches RecordError::MissingFlag(f) && f@ == "--primary-capability-id"@),
            self.run_mode is Some && self.probe_name is Some && self.probe_version is Some
                && self.category is Some && self.verb is Some && self.target is Some
                && self.status is Some && self.primary_capability_id is Some && self.command
                is None ==> (r matches Err(e) && e matches RecordError::MissingFlag(f) && f@
                == "--command"@),
    {
        let PartialArgs {
            run_mode,
            probe_name,
            probe_version,
            category,
            verb,
            target,
            status,
            errno,
            message,
            duration_ms,
            raw_exit_code,
            error_detail,
            payload_file,
            operation_args,
            primary_capability_id,
            secondary_capability_ids,
            command,
        } = self;
        let run_mode = match Self::require("--run-mode", run_mode) {
            Ok(v) => v,
            Err(e) => {
                return Err(e);
            },
        };
        let probe_name = match Self::require("--probe-name", probe_name) {
            Ok(v) => v,
            Err(e) => {
                return Err(e);
            },
        };
        let probe_version = match Self::require("--probe-version", probe_version) {
            Ok(v) => v,
            Err(e) => {
                return Err(e);
            },
        };
        let category = match Self::require("--category", category) {
            Ok(v) => v,
            Err(e) => {
                return Err(e);
            },
        };
        let verb = match Self::require("--verb", verb) {
            Ok(v) => v,
            Err(e) => {
                return Err(e);
            },
        };
        let target = match Self::require("--target", target) {
            Ok(v) => v,
            Err(e) => {
                return Err(e);
            },
        };
        let status = match Self::require("--status", status) {
            Ok(v) => v,
            Err(e) => {
                return Err(e);
            },
        };
        let primary_capability_id = match Self::require(
            "--primary-capability-id",
            primary_capability_id,
        ) {
            Ok(v) => v,
            Err(e) => {
                return Err(e);
            },
        };
        let command = match Self::require("--command", command) {
            Ok(v) => v,
            Err(e) => {
                return Err(e);
            },
        };
        let errno = filter_blank(errno);
        let message = filter_blank(message);
        let error_detail = filter_blank(error_detail);
        let operation_args = match operation_args {
            Some(v) => v,
            None => String::from_str("{}"),
        };
        Ok(CliArgs {
            run_mode,
            probe_name,
            probe_version,
            category,
            verb,
            target,
            status,
            errno,
            message,
            duration_ms,
            raw_exit_code,
            error_detail,
            payload_file,
            operation_args,
            primary_capability_id,
            secondary_capability_ids,
            command,
        })
    }
}

/// Assemble the boundary object an emission denotes: the validated flags,
/// the catalog's schema version, the host stack, the payload, the resolved
/// workspace root and the captured capability context, each landing in its
/// section of the record unchanged.
pub fn assemble_record(
    args: CliArgs,
    capabilities_schema_version: String,
    stack: String,
    payload: String,
    workspace_root: Option<String>,
    secondary_capability_ids: Vec<String>,
    capability_context: crate::CapabilityContext,
) -> (r: crate::BoundaryObject)
    ensures
        r.schema_version@ == "cfbo-v1"@,
        r.capabilities_schema_version == Some(capabilities_schema_version),
        r.stack == stack,
        r.probe.id == args.probe_name,
        r.probe.version == args.probe_version,
        r.probe.primary_capability_id == args.primary_capability_id,
        r.probe.secondary_capability_ids == secondary_capability_ids,
        r.run.mode == args.run_mode,
        r.run.workspace_root == workspace_root,
        r.run.command == args.command,
        r.operation.category == args.category,
        r.operation.verb == args.verb,
        r.operation.target == args.target,
        r.operation.args == args.operation_args,
        r.result.observed_result == args.status,
        r.result.errno == args.errno,
        r.result.message == args.message,
        r.result.raw_exit_code == args.raw_exit_code,
        r.result.error_detail == args.error_detail,
        r.payload == payload,
        r.capability_context == Some(capability_context),
{
    crate::BoundaryObject {
        schema_version: String::from_str("cfbo-v1"),
        capabilities_schema_version: Some(capabilities_schema_version),
        stack,
        probe: crate::ProbeInfo {
            id: args.probe_name,
            version: args.probe_version,
            primary_capability_id: args.primary_capability_id,
            secondary_capability_ids,
        },
        run: crate::RunInfo {
            mode: args.run_mode,
            workspace_root,
            command: args.command,
        },
        operation: crate::OperationInfo {
            category: args.category,
            verb: args.verb,
            target: args.target,
            args: args.operation_args,
        },
        result: crate::ResultInfo {
            observed_result: args.status,
            errno: args.errno,
            message: args.message,
            raw_exit_code: args.raw_exit_code,
            error_detail: args.error_detail,
        },
        payload,
        capability_context: Some(capability_context),
    }
}

/// Drop an optional text field when it holds an empty string.
fn filter_blank(v: Option<String>) -> (r: Option<String>)
    ensures
        r == spec_filter_blank(v),
{
    match v {
        Some(s) => if not_empty(&s) {
            Some(s)
        } else {
            None
        },
        None => None,
    }
}

} // verus!
