// Schema loading, boundary descriptors, preflight classification, and the
// JSON wire form of boundary objects.

use fencerunner::boundary::{BoundaryError, BoundarySchemaCatalog, BoundarySchemaDescriptor};
use fencerunner::codec::{boundary_object_to_json, json_escape, json_string};
use fencerunner::connectors::RunMode;
use fencerunner::preflight::{
    classify_preflight_error, preflight_command, preflight_denial_record,
};
use fencerunner::probe::ResolvedProbeMetadata;
use fencerunner::schema::{
    SchemaError, SchemaSource, check_schema_version, descriptor_schema_source, load_json_schema,
    resolve_schema_location, validate_document,
};
use fencerunner::{
    BoundaryObject, CapabilityContext, CapabilitySnapshot, OperationInfo, ProbeInfo, ResultInfo,
    RunInfo,
};

#[test]
fn schema_version_checks_shape_and_allowed_set() {
    assert!(matches!(
        check_schema_version(None, None),
        Err(SchemaError::MissingSchemaVersion)
    ));
    assert!(matches!(
        check_schema_version(Some("bad version"), None),
        Err(SchemaError::MalformedSchemaVersion(_))
    ));
    assert_eq!(
        check_schema_version(Some("boundary_event_v1"), None).expect("shape ok"),
        "boundary_event_v1"
    );
    let allowed = vec!["boundary_event_v1".to_string()];
    assert!(check_schema_version(Some("boundary_event_v1"), Some(&allowed)).is_ok());
    assert!(matches!(
        check_schema_version(Some("boundary_event_v2"), Some(&allowed)),
        Err(SchemaError::DisallowedSchemaVersion(_))
    ));
}

#[test]
fn descriptor_indirection_resolves_relative_to_descriptor_dir() {
    assert_eq!(resolve_schema_location("/repo/catalogs", "event.json"), "/repo/catalogs/event.json");
    assert_eq!(resolve_schema_location("/repo/catalogs", "/abs/event.json"), "/abs/event.json");
    assert!(matches!(
        descriptor_schema_source(false, None, "/repo/catalogs"),
        SchemaSource::SelfDocument
    ));
    assert!(matches!(
        descriptor_schema_source(true, None, "/repo/catalogs"),
        SchemaSource::Inline
    ));
    assert!(matches!(
        descriptor_schema_source(true, Some("event.json"), "/repo/catalogs"),
        SchemaSource::AtPath(ref p) if p == "/repo/catalogs/event.json"
    ));
}

fn parse_json(text: &str) -> serde_json::Value {
    serde_json::from_str::<serde_json::Value>(text).expect("fixture JSON parses")
}

#[test]
fn load_json_schema_compiles_and_validates_documents() {
    let schema = parse_json(
        "{\"type\":\"object\",\"properties\":{\"schema_version\":{\"const\":\"boundary_event_v1\"}},\"required\":[\"schema_version\"]}",
    );
    let compiled = load_json_schema(&schema, Some("boundary_event_v1"), None, None, None)
        .expect("schema compiles");
    assert_eq!(compiled.schema_version, "boundary_event_v1");

    let good = parse_json("{\"schema_version\":\"boundary_event_v1\"}");
    assert!(validate_document(&compiled, &good).is_ok());
    let bad = parse_json("{\"schema_version\":\"other\"}");
    assert!(validate_document(&compiled, &bad).is_err());
    let missing = parse_json("{}");
    assert!(validate_document(&compiled, &missing).is_err());
}

#[test]
fn load_json_schema_holds_descriptor_against_contract() {
    let schema = parse_json("{\"type\":\"object\"}");
    let contract = parse_json(
        "{\"type\":\"object\",\"required\":[\"schema\"],\"properties\":{\"schema\":{\"type\":\"object\"}}}",
    );
    let good_descriptor = parse_json("{\"schema\":{}}");
    assert!(
        load_json_schema(
            &schema,
            Some("boundary_event_v1"),
            None,
            Some(&good_descriptor),
            Some(&contract)
        )
        .is_ok()
    );
    let bad_descriptor = parse_json("{\"title\":\"no schema here\"}");
    assert!(matches!(
        load_json_schema(
            &schema,
            Some("boundary_event_v1"),
            None,
            Some(&bad_descriptor),
            Some(&contract)
        ),
        Err(SchemaError::DescriptorContractViolation(_))
    ));
}

#[test]
fn load_json_schema_rejects_bad_versions_before_compiling() {
    let schema = parse_json("{\"type\":\"object\"}");
    assert!(matches!(
        load_json_schema(&schema, None, None, None, None),
        Err(SchemaError::MissingSchemaVersion)
    ));
    let allowed = vec!["boundary_event_v1".to_string()];
    assert!(matches!(
        load_json_schema(&schema, Some("boundary_event_v9"), Some(&allowed), None, None),
        Err(SchemaError::DisallowedSchemaVersion(_))
    ));
}

#[test]
fn load_json_schema_reports_uncompilable_schemas() {
    // "type" must be a string or an array of strings; a number cannot
    // compile.
    let bad_schema = parse_json("{\"type\":5}");
    assert!(matches!(
        load_json_schema(&bad_schema, Some("boundary_event_v1"), None, None, None),
        Err(SchemaError::SchemaCompileFailed(_))
    ));
    let schema = parse_json("{\"type\":\"object\"}");
    let bad_contract = parse_json("{\"type\":5}");
    let descriptor = parse_json("{\"schema\":{}}");
    assert!(matches!(
        load_json_schema(
            &schema,
            Some("boundary_event_v1"),
            None,
            Some(&descriptor),
            Some(&bad_contract)
        ),
        Err(SchemaError::ContractCompileFailed(_))
    ));
}

#[test]
fn boundary_schema_catalog_enforces_version_marker() {
    let descriptor = BoundarySchemaDescriptor {
        key: "cfbo-v1".to_string(),
        title: "boundary schema".to_string(),
        description: None,
        labels: Vec::new(),
        notes: None,
        schema_path: "schema/boundary_object.schema.json".to_string(),
    };
    let good = BoundarySchemaCatalog {
        schema_version: "boundary_object_schema_v1".to_string(),
        schema: descriptor,
        docs: Vec::new(),
    };
    let loaded = BoundarySchemaCatalog::load(good).expect("marker accepted");
    assert_eq!(loaded.schema.key, "cfbo-v1");
    assert_eq!(
        loaded.schema.schema_path("/repo"),
        "/repo/schema/boundary_object.schema.json"
    );

    let bad = BoundarySchemaCatalog {
        schema_version: "boundary_object_schema_v2".to_string(),
        schema: BoundarySchemaDescriptor {
            key: "cfbo-v1".to_string(),
            title: "boundary schema".to_string(),
            description: None,
            labels: Vec::new(),
            notes: None,
            schema_path: "/abs/schema.json".to_string(),
        },
        docs: Vec::new(),
    };
    let err = BoundarySchemaCatalog::load(bad).expect_err("marker rejected");
    assert!(
        matches!(err, BoundaryError::UnsupportedCatalogVersion(ref v) if v == "boundary_object_schema_v2")
    );
}

#[test]
fn absolute_descriptor_schema_paths_stand_as_given() {
    let descriptor = BoundarySchemaDescriptor {
        key: "cfbo-v1".to_string(),
        title: "boundary schema".to_string(),
        description: None,
        labels: Vec::new(),
        notes: None,
        schema_path: "/abs/boundary.schema.json".to_string(),
    };
    assert_eq!(descriptor.schema_path("/repo"), "/abs/boundary.schema.json");
}

#[test]
fn preflight_classification_maps_denials_to_errnos() {
    let denied = classify_preflight_error("mkdir: cannot create directory: Operation not permitted\n");
    assert_eq!(denied.status, "denied");
    assert_eq!(denied.errno, Some("EPERM".to_string()));
    assert_eq!(denied.message, "mkdir: cannot create directory: Operation not permitted");

    let access = classify_preflight_error("Permission denied");
    assert_eq!(access.status, "denied");
    assert_eq!(access.errno, Some("EACCES".to_string()));

    let rofs = classify_preflight_error("touch: Read-only file system");
    assert_eq!(rofs.errno, Some("EROFS".to_string()));

    let other = classify_preflight_error("something exploded");
    assert_eq!(other.status, "error");
    assert_eq!(other.errno, None);
    assert_eq!(other.message, "something exploded");

    let blank = classify_preflight_error("   \n");
    assert_eq!(blank.message, "external preflight failed");
}

#[test]
fn preflight_trial_uses_the_probe_connector_shape() {
    let command = preflight_command("macos", "/ws/tmp/probe-preflight-1");
    assert_eq!(command.program, "codex");
    assert_eq!(
        command.args,
        vec![
            "sandbox".to_string(),
            "macos".to_string(),
            "--full-auto".to_string(),
            "--".to_string(),
            "/bin/mkdir".to_string(),
            "/ws/tmp/probe-preflight-1".to_string(),
        ]
    );
}

#[test]
fn preflight_denial_record_describes_the_preflight_operation() {
    let metadata = ResolvedProbeMetadata {
        id: "fs_probe".to_string(),
        version: "2".to_string(),
        primary_capability: "cap_fs_read_workspace_tree".to_string(),
        secondary: vec!["cap_other".to_string()],
    };
    let classification = classify_preflight_error("Operation not permitted");
    let record = preflight_denial_record(
        &metadata,
        RunMode::CodexSandbox,
        "/ws/tmp/probe-preflight-1",
        1,
        "Operation not permitted",
        "codex sandbox macos --full-auto -- /bin/mkdir /ws/tmp/probe-preflight-1",
        Some("/ws".to_string()),
        "{\"os\":\"Linux\"}".to_string(),
        classification,
    );
    assert_eq!(record.schema_version, "cfbo-v1");
    assert_eq!(record.probe.id, "fs_probe");
    assert_eq!(record.run.mode, "codex-sandbox");
    assert_eq!(record.operation.category, "preflight");
    assert_eq!(record.operation.verb, "mktemp");
    assert_eq!(record.operation.target, "/ws/tmp/probe-preflight-1");
    assert_eq!(record.result.observed_result, "denied");
    assert_eq!(record.result.errno, Some("EPERM".to_string()));
    assert_eq!(record.result.raw_exit_code, Some(1));
    assert!(record.capability_context.is_none());

    // The synthetic record is itself a valid one-line boundary object whose
    // payload carries the captured stderr and the trial's exit code.
    let text = boundary_object_to_json(&record);
    let value = serde_json::from_str::<serde_json::Value>(&text).expect("record is valid JSON");
    assert_eq!(
        value.pointer("/payload/stderr_snippet").and_then(|v| v.as_str()),
        Some("Operation not permitted")
    );
    assert_eq!(value.pointer("/payload/raw/exit_code").and_then(|v| v.as_i64()), Some(1));
    assert_eq!(value.pointer("/result/errno").and_then(|v| v.as_str()), Some("EPERM"));
    assert_eq!(value.pointer("/stack/os").and_then(|v| v.as_str()), Some("Linux"));
}

#[test]
fn json_escaping_covers_quotes_backslashes_and_controls() {
    assert_eq!(json_escape("plain"), "plain");
    assert_eq!(json_escape("a\"b"), "a\\\"b");
    assert_eq!(json_escape("a\\b"), "a\\\\b");
    assert_eq!(json_escape("line\nbreak"), "line\\nbreak");
    assert_eq!(json_escape("tab\there"), "tab\\there");
    assert_eq!(json_escape("bell\u{0007}"), "bell\\u0007");
    assert_eq!(json_string("x"), "\"x\"");
}

fn sample_boundary_object() -> BoundaryObject {
    BoundaryObject {
        schema_version: "cfbo-v1".to_string(),
        capabilities_schema_version: Some("sandbox_catalog_v1".to_string()),
        stack: "{\"os\":\"Darwin\",\"sandbox_mode\":\"workspace-write\"}".to_string(),
        probe: ProbeInfo {
            id: "probe".to_string(),
            version: "1".to_string(),
            primary_capability_id: "cap_id".to_string(),
            secondary_capability_ids: vec!["cap_two".to_string()],
        },
        run: RunInfo {
            mode: "baseline".to_string(),
            workspace_root: Some("/tmp".to_string()),
            command: "echo \"test\"".to_string(),
        },
        operation: OperationInfo {
            category: "fs".to_string(),
            verb: "read".to_string(),
            target: "/dev/null".to_string(),
            args: "{\"fixture\":true}".to_string(),
        },
        result: ResultInfo {
            observed_result: "success".to_string(),
            errno: None,
            message: None,
            raw_exit_code: Some(0),
            error_detail: None,
        },
        payload: "{\"stdout_snippet\":null,\"stderr_snippet\":null,\"raw\":{}}".to_string(),
        capability_context: Some(CapabilityContext {
            primary: CapabilitySnapshot {
                id: "cap_id".to_string(),
                category: "cat".to_string(),
                layer: "layer".to_string(),
            },
            secondary: vec![CapabilitySnapshot {
                id: "cap_two".to_string(),
                category: "cat".to_string(),
                layer: "layer".to_string(),
            }],
        }),
    }
}

#[test]
fn boundary_object_round_trips_structs() {
    // Serialize through the library's writer, read back with a JSON parser,
    // and check the record survives unchanged, capability context included.
    let original = sample_boundary_object();
    let text = boundary_object_to_json(&original);
    let value = serde_json::from_str::<serde_json::Value>(&text).expect("wire form is valid JSON");

    assert_eq!(value.get("schema_version").and_then(|v| v.as_str()), Some("cfbo-v1"));
    assert_eq!(
        value.get("capabilities_schema_version").and_then(|v| v.as_str()),
        Some("sandbox_catalog_v1")
    );
    assert_eq!(
        value.pointer("/probe/id").and_then(|v| v.as_str()),
        Some(original.probe.id.as_str())
    );
    assert_eq!(
        value.pointer("/probe/secondary_capability_ids/0").and_then(|v| v.as_str()),
        Some("cap_two")
    );
    assert_eq!(value.pointer("/run/mode").and_then(|v| v.as_str()), Some("baseline"));
    assert_eq!(
        value.pointer("/run/command").and_then(|v| v.as_str()),
        Some(original.run.command.as_str())
    );
    assert_eq!(
        value.pointer("/operation/args/fixture").and_then(|v| v.as_bool()),
        Some(true)
    );
    assert_eq!(
        value.pointer("/result/observed_result").and_then(|v| v.as_str()),
        Some("success")
    );
    assert!(value.pointer("/result/message").map(|v| v.is_null()).unwrap_or(false));
    assert!(value.pointer("/result/errno").map(|v| v.is_null()).unwrap_or(false));
    assert_eq!(value.pointer("/result/raw_exit_code").and_then(|v| v.as_i64()), Some(0));
    assert_eq!(value.pointer("/stack/os").and_then(|v| v.as_str()), Some("Darwin"));
    assert!(value.pointer("/payload/raw").map(|v| v.is_object()).unwrap_or(false));
    assert_eq!(
        value.pointer("/capability_context/primary/id").and_then(|v| v.as_str()),
        Some("cap_id")
    );
    assert_eq!(
        value.pointer("/capability_context/secondary/0/id").and_then(|v| v.as_str()),
        Some("cap_two")
    );
}

#[test]
fn boundary_object_without_context_serializes_nulls() {
    let mut record = sample_boundary_object();
    record.capability_context = None;
    record.capabilities_schema_version = None;
    record.run.workspace_root = None;
    record.result.raw_exit_code = None;
    let text = boundary_object_to_json(&record);
    let value = serde_json::from_str::<serde_json::Value>(&text).expect("wire form is valid JSON");
    assert!(value.get("capability_context").map(|v| v.is_null()).unwrap_or(false));
    assert!(value.get("capabilities_schema_version").map(|v| v.is_null()).unwrap_or(false));
    assert!(value.pointer("/run/workspace_root").map(|v| v.is_null()).unwrap_or(false));
    assert!(value.pointer("/result/raw_exit_code").map(|v| v.is_null()).unwrap_or(false));
}

#[test]
fn json_numbers_cover_signs_and_extremes() {
    let mut record = sample_boundary_object();
    record.result.raw_exit_code = Some(-137);
    let text = boundary_object_to_json(&record);
    let value = serde_json::from_str::<serde_json::Value>(&text).expect("valid JSON");
    assert_eq!(value.pointer("/result/raw_exit_code").and_then(|v| v.as_i64()), Some(-137));

    record.result.raw_exit_code = Some(i64::MIN);
    let text = boundary_object_to_json(&record);
    let value = serde_json::from_str::<serde_json::Value>(&text).expect("valid JSON");
    assert_eq!(
        value.pointer("/result/raw_exit_code").and_then(|v| v.as_i64()),
        Some(i64::MIN)
    );

    record.result.raw_exit_code = Some(i64::MAX);
    let text = boundary_object_to_json(&record);
    let value = serde_json::from_str::<serde_json::Value>(&text).expect("valid JSON");
    assert_eq!(
        value.pointer("/result/raw_exit_code").and_then(|v| v.as_i64()),
        Some(i64::MAX)
    );
}
