//! JSON Schema loading with optional descriptor indirection.
//!
//! A target file either is a schema itself, or is a descriptor that embeds
//! one inline or points at one via a relative `schema_path`.  When a
//! descriptor-contract document is supplied, the descriptor is held against
//! it before being trusted; a failure is fatal, never a warning.  Every
//! schema embeds its own version as a schema-level constant, which the
//! caller extracts and this module checks against the identifier shape and
//! the optional allowed set.  The caller reads the files and hands the
//! parsed documents in; schema compilation itself is delegated to the
//! `jsonschema` crate behind trusted wrappers.

use vstd::prelude::*;
use crate::text::{is_ident_seq, is_ident_str, str_eq};

verus! {

/// Why a schema failed to load.
#[derive(Debug)]
pub enum SchemaError {
    /// The descriptor-contract document itself did not compile.
    ContractCompileFailed(String),
    /// The descriptor failed validation against the contract.
    DescriptorContractViolation(String),
    /// The schema declares no `schema_version` constant.
    MissingSchemaVersion,
    /// The declared version holds characters outside `[A-Za-z0-9_.-]`.
    MalformedSchemaVersion(String),
    /// The declared version is not in the caller's allowed set.
    DisallowedSchemaVersion(String),
    /// The schema document itself did not compile.
    SchemaCompileFailed(String),
    /// A document failed validation against a compiled schema.
    DocumentRejected(String),
}

#[verifier::external_type_specification]
#[verifier::external_body]
pub struct ExValue(serde_json::Value);

/// A compiled `jsonschema` validator, held opaquely: `jsonschema::Validator`
/// is generic over a trait of its own crate, which cannot be declared here,
/// so the field is hidden whole.
#[verifier::external_body]
pub struct CompiledValidator {
    validator: jsonschema::Validator,
}

/// The validator a JSON Schema document compiles to, or `None` when the
/// document is not a valid schema.  Naming this result claims compilation
/// is a function of the document alone; that holds because the `jsonschema`
/// crate is built with its default features off, so reference resolution
/// can reach neither the network nor the disk.  The name is sound only
/// while those features stay off.
pub uninterp spec fn spec_compile_result(schema: serde_json::Value) -> Option<CompiledValidator>;

/// Whether a JSON Schema document compiles.
pub open spec fn spec_schema_compiles(schema: serde_json::Value) -> bool {
    spec_compile_result(schema) is Some
}

/// Whether `doc` satisfies the compiled schema `validator`.  Deterministic
/// for the same reason as `spec_compile_result`: with default features off,
/// validation is a function of the two values alone.
pub uninterp spec fn spec_document_valid(validator: CompiledValidator, doc: serde_json::Value) -> bool;

/// Whether a descriptor satisfies its contract schema: the contract
/// compiles and the compiled contract accepts the descriptor.
pub open spec fn spec_descriptor_ok(
    contract: serde_json::Value,
    descriptor: serde_json::Value,
) -> bool {
    spec_schema_compiles(contract) && spec_document_valid(
        spec_compile_result(contract)->0,
        descriptor,
    )
}

/// Relies on jsonschema::validator_for: compiles a JSON Schema document
/// into a validator with automatic draft detection, and reports an error on
/// an invalid schema or an unresolvable reference instead of panicking.
/// With default features off the result depends on the document alone.
#[verifier::external_body]
fn compile_schema_document(schema: &serde_json::Value) -> (r: Result<CompiledValidator, String>)
    ensures
        r is Ok <==> spec_schema_compiles(*schema),
        r matches Ok(v) ==> Some(v) == spec_compile_result(*schema),
{
    match jsonschema::validator_for(schema) {
        Ok(validator) => Ok(CompiledValidator { validator }),
        Err(e) => Err(format!("{e}")),
    }
}

/// Relies on jsonschema::Validator::validate: runs the compiled schema over
/// the document and reports the first violation.  With default features off
/// the verdict depends on the validator and the document alone.
#[verifier::external_body]
fn schema_validate(
    validator: &CompiledValidator,
    doc: &serde_json::Value,
) -> (r: Result<(), String>)
    ensures
        r is Ok <==> spec_document_valid(*validator, *doc),
{
    validator.validator.validate(doc).map_err(|e| format!("{e}"))
}

/// Where the actual schema of a target document lives.
pub enum SchemaSource {
    /// The target document is the schema itself.
    SelfDocument,
    /// The target is a descriptor embedding the schema inline.
    Inline,
    /// The target is a descriptor pointing at a schema file; carries the
    /// resolved path.
    AtPath(String),
}

/// Resolve a descriptor's schema reference against the descriptor's own
/// directory: an absolute path stands as it is, a relative one is joined
/// under the directory the descriptor lives in, never the process working
/// directory.
pub fn resolve_schema_location(descriptor_dir: &str, schema_path: &str) -> (r: String)
    ensures
        schema_path@.len() > 0 && schema_path@[0] == '/' ==> r@ == schema_path@,
        !(schema_path@.len() > 0 && schema_path@[0] == '/') ==> r@ == descriptor_dir@ + "/"@
            + schema_path@,
{
    let n = schema_path.unicode_len();
    if n > 0 && schema_path.get_char(0) == '/' {
        schema_path.to_owned()
    } else {
        let r = String::from_str(descriptor_dir).concat("/").concat(schema_path);
        proof {
            assert(r@ =~= descriptor_dir@ + "/"@ + schema_path@);
        }
        r
    }
}

/// Decide where the actual schema of a target document lives, from whether
/// the document carries a `schema` field and what its `schema_path` field
/// holds.  A document with neither field is the schema itself; a
/// `schema_path` wins over an inline schema.
pub fn descriptor_schema_source(
    has_inline_schema: bool,
    schema_path: Option<&str>,
    descriptor_dir: &str,
) -> (r: SchemaSource)
    ensures
        !has_inline_schema && schema_path is None ==> r is SelfDocument,
        has_inline_schema && schema_path is None ==> r is Inline,
        schema_path matches Some(p) ==> (r matches SchemaSource::AtPath(loc) && (p@.len() > 0
            && p@[0] == '/' ==> loc@ == p@) && (!(p@.len() > 0 && p@[0] == '/') ==> loc@
            == descriptor_dir@ + "/"@ + p@)),
{
    match schema_path {
        Some(p) => SchemaSource::AtPath(resolve_schema_location(descriptor_dir, p)),
        None => {
            if has_inline_schema {
                SchemaSource::Inline
            } else {
                SchemaSource::SelfDocument
            }
        },
    }
}

/// Whether a declared schema version passes the caller's constraints: it
/// exists, has the identifier shape, and lies in the allowed set when one
/// was supplied.
pub open spec fn spec_version_ok(version: Option<&str>, allowed: Option<&Vec<String>>) -> bool {
    &&& version is Some
    &&& is_ident_seq(version->0@)
    &&& (match allowed {
        Some(list) => list.deep_view().contains(version->0@),
        None => true,
    })
}

/// Check a schema's self-declared version: it must be present, shaped as an
/// identifier, and a member of the allowed set when one was supplied.  An
/// empty declared version is rejected as malformed: the version is the
/// schema's identity, and every other version gate of the harness demands
/// the non-empty `[A-Za-z0-9_.-]+` shape.
pub fn check_schema_version(version: Option<&str>, allowed: Option<&Vec<String>>) -> (r: Result<
    String,
    SchemaError,
>)
    ensures
        r is Ok <==> spec_version_ok(version, allowed),
        r matches Ok(v) ==> (version matches Some(given) && v@ == given@),
        version is None ==> (r matches Err(e) && e is MissingSchemaVersion),
        (version matches Some(given) && !is_ident_seq(given@)) ==> (r matches Err(e)
            && e matches SchemaError::MalformedSchemaVersion(v) && v@ == version->0@),
        r matches Err(e) ==> (e is MissingSchemaVersion || e is MalformedSchemaVersion || e
            is DisallowedSchemaVersion),
{
    let given = match version {
        Some(v) => v,
        None => {
            return Err(SchemaError::MissingSchemaVersion);
        },
    };
    if !is_ident_str(given) {
        return Err(SchemaError::MalformedSchemaVersion(given.to_owned()));
    }
    if let Some(list) = allowed {
        let n = list.len();
        let mut i: usize = 0;
        while i < n
            invariant
                version == Some(given),
                allowed == Some(list),
                is_ident_seq(given@),
                n == list.len(),
                0 <= i <= n,
                forall|j: int| 0 <= j < i ==> list.deep_view()[j] != given@,
            decreases n - i,
        {
            if str_eq(given, list[i].as_str()) {
                proof {
                    assert(list.deep_view()[i as int] == given@);
                    assert(list.deep_view().contains(given@));
                }
                return Ok(given.to_owned());
            }
            i = i + 1;
        }
        return Err(SchemaError::DisallowedSchemaVersion(given.to_owned()));
    }
    Ok(given.to_owned())
}

/// A compiled schema: the validator and the version the schema declared.
pub struct CompiledSchema {
    pub validator: CompiledValidator,
    pub schema_version: String,
}

/// Hold a descriptor against its contract schema: compile the contract and
/// validate the descriptor.  Failure is fatal for the load, never a warning.
pub fn check_descriptor_contract(
    contract: &serde_json::Value,
    descriptor: &serde_json::Value,
) -> (r: Result<(), SchemaError>)
    ensures
        r is Ok <==> spec_descriptor_ok(*contract, *descriptor),
        r matches Err(e) ==> (e is ContractCompileFailed <==> !spec_schema_compiles(*contract)),
        r matches Err(e) ==> (e is DescriptorContractViolation <==> (spec_schema_compiles(
            *contract,
        ) && !spec_document_valid(spec_compile_result(*contract)->0, *descriptor))),
        r matches Err(e) ==> (e is ContractCompileFailed || e is DescriptorContractViolation),
{
    let compiled = match compile_schema_document(contract) {
        Ok(c) => c,
        Err(m) => {
            return Err(SchemaError::ContractCompileFailed(m));
        },
    };
    match schema_validate(&compiled, descriptor) {
        Ok(_) => Ok(()),
        Err(m) => Err(SchemaError::DescriptorContractViolation(m)),
    }
}

/// The conditions a schema load must meet: the descriptor (when one was
/// given together with a contract) satisfies the contract, the declared
/// version passes the caller's constraints, and the schema document
/// compiles.
pub open spec fn spec_load_ok(
    schema_doc: serde_json::Value,
    schema_version: Option<&str>,
    allowed_versions: Option<&Vec<String>>,
    descriptor: Option<&serde_json::Value>,
    descriptor_contract: Option<&serde_json::Value>,
) -> bool {
    &&& (match (descriptor, descriptor_contract) {
        (Some(d), Some(c)) => spec_descriptor_ok(*c, *d),
        _ => true,
    })
    &&& spec_version_ok(schema_version, allowed_versions)
    &&& spec_schema_compiles(schema_doc)
}

/// Compile a resolved schema document after enforcing the version rules.
///
/// The caller resolved the descriptor indirection, read the documents, and
/// extracted the schema's self-declared version from its fixed location;
/// this function holds the descriptor against the contract when both are
/// given (a violation is fatal, never a warning), checks the version's
/// shape and the allowed set, and compiles the schema.  Loading succeeds
/// exactly when all three gates pass, and each error variant is tied to the
/// gate it reports.
pub fn load_json_schema(
    schema_doc: &serde_json::Value,
    schema_version: Option<&str>,
    allowed_versions: Option<&Vec<String>>,
    descriptor: Option<&serde_json::Value>,
    descriptor_contract: Option<&serde_json::Value>,
) -> (r: Result<CompiledSchema, SchemaError>)
    ensures
        r is Ok <==> spec_load_ok(
            *schema_doc,
            schema_version,
            allowed_versions,
            descriptor,
            descriptor_contract,
        ),
        r matches Ok(c) ==> (schema_version matches Some(given) && c.schema_version@ == given@)
            && Some(c.validator) == spec_compile_result(*schema_doc),
        schema_version is None && (descriptor is None || descriptor_contract is None) ==> (
        r matches Err(e) && e is MissingSchemaVersion),
        r matches Err(e) ==> ((e is MissingSchemaVersion || e is MalformedSchemaVersion || e
            is DisallowedSchemaVersion) ==> !spec_version_ok(schema_version, allowed_versions)),
        r matches Err(e) ==> (e is SchemaCompileFailed ==> spec_version_ok(
            schema_version,
            allowed_versions,
        ) && !spec_schema_compiles(*schema_doc)),
        r matches Err(e) ==> ((e is ContractCompileFailed || e is DescriptorContractViolation)
            ==> (descriptor matches Some(d) && descriptor_contract matches Some(c)
            && !spec_descriptor_ok(*c, *d))),
        r matches Err(e) ==> (e is MissingSchemaVersion || e is MalformedSchemaVersion || e
            is DisallowedSchemaVersion || e is ContractCompileFailed || e
            is DescriptorContractViolation || e is SchemaCompileFailed),
{
    if let Some(desc) = descriptor {
        if let Some(contract) = descriptor_contract {
            if let Err(e) = check_descriptor_contract(contract, desc) {
                proof {
                    assert(descriptor is Some);
                    assert(descriptor_contract is Some);
                    assert(!(e is SchemaCompileFailed));
                }
                return Err(e);
            }
        }
    }
    let version = match check_schema_version(schema_version, allowed_versions) {
        Ok(v) => v,
        Err(e) => {
            return Err(e);
        },
    };
    match compile_schema_document(schema_doc) {
        Ok(validator) => Ok(CompiledSchema { validator, schema_version: version }),
        Err(m) => Err(SchemaError::SchemaCompileFailed(m)),
    }
}

/// Run a compiled schema over a document.
pub fn validate_document(schema: &CompiledSchema, doc: &serde_json::Value) -> (r: Result<
    (),
    SchemaError,
>)
    ensures
        r is Ok <==> spec_document_valid(schema.validator, *doc),
        r matches Err(e) ==> e is DocumentRejected,
{
    match schema_validate(&schema.validator, doc) {
        Ok(_) => Ok(()),
        Err(m) => Err(SchemaError::DocumentRejected(m)),
    }
}

} // verus!
