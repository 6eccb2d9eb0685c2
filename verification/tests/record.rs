// Record-emission validation rules: statuses, schema versions, capability
// ids, secondary-id normalization, flag assembly and integer parsing.

use fencerunner::record::{
    CapabilityRecord, CliArgs, PartialArgs, RecordError, is_valid_schema_version,
    normalize_secondary_ids, parse_i64, validate_capability_id, validate_status,
};

fn sample_caps() -> Vec<CapabilityRecord> {
    vec![
        CapabilityRecord {
            id: "cap_a".to_string(),
            category: Some("cat".to_string()),
            layer: Some("layer".to_string()),
        },
        CapabilityRecord { id: "cap_b".to_string(), category: None, layer: None },
    ]
}

#[test]
fn schema_version_validation() {
    assert!(is_valid_schema_version("macOS_codex_v1"));
    assert!(is_valid_schema_version("abc-1.2"));
    assert!(!is_valid_schema_version(""));
    assert!(!is_valid_schema_version("invalid value"));
}

#[test]
fn emit_record_validate_status_allows_known_values() {
    for value in ["success", "denied", "partial", "error"] {
        validate_status(value).expect("status should pass");
    }
    assert!(validate_status("bogus").is_err());
}

#[test]
fn contracts_validate_status_allows_known_values() {
    for value in ["success", "denied", "partial", "error"] {
        validate_status(value).expect("status should pass");
    }
    assert!(validate_status("bogus").is_err());
}

#[test]
fn emit_record_normalize_secondary_deduplicates_and_trims() {
    let caps = sample_caps();
    let input = vec![
        " cap_a ".to_string(),
        "cap_b".to_string(),
        "".to_string(),
        "cap_a".to_string(),
    ];
    let normalized = normalize_secondary_ids(&caps, &input).expect("normalized");
    assert_eq!(normalized, vec!["cap_a".to_string(), "cap_b".to_string()]);
}

#[test]
fn emit_record_normalize_secondary_rejects_unknown() {
    let caps = sample_caps();
    let input = vec!["cap_a".to_string(), "cap_missing".to_string()];
    assert!(normalize_secondary_ids(&caps, &input).is_err());
}

#[test]
fn contracts_normalize_secondary_deduplicates_and_trims() {
    let caps = vec![
        CapabilityRecord {
            id: "cap_a".to_string(),
            category: Some("filesystem".to_string()),
            layer: Some("os_sandbox".to_string()),
        },
        CapabilityRecord {
            id: "cap_b".to_string(),
            category: Some("process".to_string()),
            layer: Some("agent_runtime".to_string()),
        },
    ];
    let input = vec![
        " cap_a ".to_string(),
        "cap_b".to_string(),
        "".to_string(),
        "cap_a".to_string(),
    ];
    let normalized = normalize_secondary_ids(&caps, &input).expect("normalized");
    assert_eq!(normalized, vec!["cap_a".to_string(), "cap_b".to_string()]);
}

#[test]
fn contracts_normalize_secondary_rejects_unknown() {
    let caps = vec![CapabilityRecord {
        id: "cap_a".to_string(),
        category: Some("filesystem".to_string()),
        layer: Some("os_sandbox".to_string()),
    }];
    let input = vec!["cap_a".to_string(), "cap_missing".to_string()];
    assert!(normalize_secondary_ids(&caps, &input).is_err());
}

#[test]
fn validate_capability_id_names_label_and_value() {
    let caps = sample_caps();
    assert!(validate_capability_id(&caps, "cap_a", "primary capability id").is_ok());
    let err = validate_capability_id(&caps, "cap_missing", "primary capability id")
        .expect_err("unknown id must fail");
    assert!(
        matches!(err, RecordError::UnknownCapability(ref l, ref v)
            if l == "primary capability id" && v == "cap_missing")
    );
}

#[test]
fn parse_i64_reads_signed_decimals() {
    assert_eq!(parse_i64("0", "duration-ms").expect("zero"), 0);
    assert_eq!(parse_i64("1234", "duration-ms").expect("plain"), 1234);
    assert_eq!(parse_i64("-17", "duration-ms").expect("negative"), -17);
    assert_eq!(parse_i64("+42", "duration-ms").expect("plus sign"), 42);
    assert_eq!(
        parse_i64("9223372036854775807", "raw-exit-code").expect("max"),
        i64::MAX
    );
    assert_eq!(
        parse_i64("-9223372036854775808", "raw-exit-code").expect("min"),
        i64::MIN
    );
}

#[test]
fn parse_i64_rejects_malformed_and_overflowing_input() {
    assert!(parse_i64("", "duration-ms").is_err());
    assert!(parse_i64("-", "duration-ms").is_err());
    assert!(parse_i64("12a", "duration-ms").is_err());
    assert!(parse_i64(" 12", "duration-ms").is_err());
    assert!(parse_i64("9223372036854775808", "duration-ms").is_err());
    assert!(parse_i64("-9223372036854775809", "duration-ms").is_err());
    assert!(parse_i64("99999999999999999999999", "duration-ms").is_err());
    let err = parse_i64("oops", "duration-ms").expect_err("label carried");
    assert!(matches!(err, RecordError::InvalidInteger(ref l) if l == "duration-ms"));
}

fn empty_partial() -> PartialArgs {
    PartialArgs {
        run_mode: None,
        probe_name: None,
        probe_version: None,
        category: None,
        verb: None,
        target: None,
        status: None,
        errno: None,
        message: None,
        duration_ms: None,
        raw_exit_code: None,
        error_detail: None,
        payload_file: None,
        operation_args: None,
        primary_capability_id: None,
        secondary_capability_ids: Vec::new(),
        command: None,
    }
}

fn complete_partial() -> PartialArgs {
    let mut args = empty_partial();
    args.run_mode = Some("baseline".to_string());
    args.probe_name = Some("fixture".to_string());
    args.probe_version = Some("1".to_string());
    args.category = Some("fs".to_string());
    args.verb = Some("read".to_string());
    args.target = Some("/dev/null".to_string());
    args.status = Some("success".to_string());
    args.primary_capability_id = Some("cap_a".to_string());
    args.command = Some("true".to_string());
    args
}

#[test]
fn build_requires_every_mandatory_flag() {
    let err = empty_partial().build().expect_err("empty args must fail");
    assert!(matches!(err, RecordError::MissingFlag(ref f) if f == "--run-mode"));

    let mut missing_primary = complete_partial();
    missing_primary.primary_capability_id = None;
    let err = missing_primary.build().expect_err("missing primary capability");
    assert!(matches!(err, RecordError::MissingFlag(ref f) if f == "--primary-capability-id"));
}

#[test]
fn build_applies_defaults_and_blank_filters() {
    let mut partial = complete_partial();
    partial.errno = Some("".to_string());
    partial.message = Some("hello".to_string());
    let args: CliArgs = partial.build().expect("complete args build");
    assert_eq!(args.run_mode, "baseline");
    assert_eq!(args.operation_args, "{}");
    assert_eq!(args.errno, None);
    assert_eq!(args.message, Some("hello".to_string()));
    assert_eq!(args.secondary_capability_ids, Vec::<String>::new());
}
