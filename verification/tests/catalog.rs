// Catalog validation and capability index guard rails.

use fencerunner::catalog::{
    Capability, CapabilityCatalog, CapabilityCategory, CapabilityLayer, CapabilitySource,
    CatalogKey, CatalogMetadata, DocRef, Operations, PolicyLayer, Scope,
};
use fencerunner::{CapabilityId, CapabilityIndex};

fn sample_capability(id: &str, category: &str, layer: &str) -> Capability {
    Capability {
        id: CapabilityId(id.to_string()),
        category: CapabilityCategory::from_name(category),
        layer: CapabilityLayer::from_name(layer),
        description: format!("cap {id}"),
        operations: Operations { allow: Vec::new(), deny: Vec::new() },
        sources: Vec::new(),
    }
}

fn sample_catalog(schema_version: &str, capabilities: Vec<Capability>) -> CapabilityCatalog {
    let mut categories: Vec<(String, String)> = Vec::new();
    let mut layers: Vec<PolicyLayer> = Vec::new();
    for cap in &capabilities {
        let category = cap.category.name();
        if !categories.iter().any(|(c, _)| *c == category) {
            categories.push((category, "fixture".to_string()));
        }
        let layer = cap.layer.name();
        if !layers.iter().any(|l| l.id == layer) {
            layers.push(PolicyLayer { id: layer, description: "fixture layer".to_string() });
        }
    }
    CapabilityCatalog {
        schema_version: schema_version.to_string(),
        catalog: CatalogMetadata {
            key: CatalogKey("sample_catalog_v1".to_string()),
            title: "sample catalog".to_string(),
            labels: Vec::new(),
        },
        scope: Scope { description: "test".to_string(), policy_layers: layers, categories },
        docs: Vec::new(),
        capabilities,
    }
}

#[test]
fn capability_index_enforces_schema_version() {
    let catalog = CapabilityCatalog {
        schema_version: "unexpected".to_string(),
        catalog: CatalogMetadata {
            key: CatalogKey(String::new()),
            title: String::new(),
            labels: Vec::new(),
        },
        scope: Scope {
            description: "test".to_string(),
            policy_layers: Vec::new(),
            categories: Vec::new(),
        },
        docs: Vec::new(),
        capabilities: Vec::new(),
    };
    assert!(CapabilityIndex::load(catalog, None).is_err());
}

#[test]
fn capability_index_accepts_allowed_schema_version_override() {
    let catalog = CapabilityCatalog {
        schema_version: "custom_catalog_v1".to_string(),
        catalog: CatalogMetadata {
            key: CatalogKey("custom_catalog_v1".to_string()),
            title: "custom catalog".to_string(),
            labels: Vec::new(),
        },
        scope: Scope {
            description: "test".to_string(),
            policy_layers: vec![PolicyLayer {
                id: "os_sandbox".to_string(),
                description: "fixture layer".to_string(),
            }],
            categories: vec![("filesystem".to_string(), "fixture".to_string())],
        },
        docs: Vec::new(),
        capabilities: vec![sample_capability("cap_fs_custom", "filesystem", "os_sandbox")],
    };
    assert!(
        CapabilityIndex::load(catalog, None).is_err(),
        "custom catalog schema_version should be rejected"
    );
}

#[test]
fn explicit_override_admits_custom_schema_version() {
    let catalog = sample_catalog(
        "custom_catalog_v1",
        vec![sample_capability("cap_fs_custom", "filesystem", "os_sandbox")],
    );
    let allowed = vec!["custom_catalog_v1".to_string()];
    let index = CapabilityIndex::load(catalog, Some(&allowed)).expect("override should admit");
    assert_eq!(index.key().0, "sample_catalog_v1");
}

#[test]
fn load_accepts_valid_catalog_and_resolves_capabilities() {
    let catalog = sample_catalog(
        "sandbox_catalog_v1",
        vec![
            sample_capability("cap_b", "filesystem", "os_sandbox"),
            sample_capability("cap_a", "process", "agent_runtime"),
        ],
    );
    let index = CapabilityIndex::load(catalog, None).expect("valid catalog should load");
    assert!(index.capability(&CapabilityId("cap_a".to_string())).is_some());
    assert!(index.capability(&CapabilityId("cap_missing".to_string())).is_none());
    assert_eq!(index.catalog().capabilities.len(), 2);
}

#[test]
fn ids_are_sorted_lexicographically() {
    let catalog = sample_catalog(
        "sandbox_catalog_v1",
        vec![
            sample_capability("cap_net", "network", "os_sandbox"),
            sample_capability("cap_fs", "filesystem", "os_sandbox"),
            sample_capability("cap_proc", "process", "os_sandbox"),
        ],
    );
    let index = CapabilityIndex::load(catalog, None).expect("valid catalog should load");
    let ids = index.ids();
    assert_eq!(ids, vec!["cap_fs".to_string(), "cap_net".to_string(), "cap_proc".to_string()]);
}

#[test]
fn load_rejects_duplicate_capability_ids() {
    let catalog = sample_catalog(
        "sandbox_catalog_v1",
        vec![
            sample_capability("cap_a", "filesystem", "os_sandbox"),
            sample_capability("cap_a", "filesystem", "os_sandbox"),
        ],
    );
    assert!(CapabilityIndex::load(catalog, None).is_err());
}

#[test]
fn load_rejects_unknown_category_reference() {
    let mut catalog = sample_catalog(
        "sandbox_catalog_v1",
        vec![sample_capability("cap_a", "filesystem", "os_sandbox")],
    );
    catalog.capabilities[0].category = CapabilityCategory::from_name("not_declared");
    assert!(CapabilityIndex::load(catalog, None).is_err());
}

#[test]
fn load_rejects_unknown_layer_reference() {
    let mut catalog = sample_catalog(
        "sandbox_catalog_v1",
        vec![sample_capability("cap_a", "filesystem", "os_sandbox")],
    );
    catalog.capabilities[0].layer = CapabilityLayer::from_name("not_declared");
    assert!(CapabilityIndex::load(catalog, None).is_err());
}

#[test]
fn load_rejects_unknown_doc_reference() {
    let mut catalog = sample_catalog(
        "sandbox_catalog_v1",
        vec![sample_capability("cap_a", "filesystem", "os_sandbox")],
    );
    catalog.capabilities[0].sources.push(CapabilitySource { doc: "missing_doc".to_string() });
    assert!(CapabilityIndex::load(catalog, None).is_err());
}

#[test]
fn load_accepts_resolved_doc_reference() {
    let mut catalog = sample_catalog(
        "sandbox_catalog_v1",
        vec![sample_capability("cap_a", "filesystem", "os_sandbox")],
    );
    catalog.docs.push(("guide".to_string(), DocRef("docs/guide.md".to_string())));
    catalog.capabilities[0].sources.push(CapabilitySource { doc: "guide".to_string() });
    assert!(CapabilityIndex::load(catalog, None).is_ok());
}

#[test]
fn load_rejects_blank_capability_id() {
    let catalog = sample_catalog(
        "sandbox_catalog_v1",
        vec![sample_capability("  ", "filesystem", "os_sandbox")],
    );
    assert!(CapabilityIndex::load(catalog, None).is_err());
}

#[test]
fn load_rejects_empty_capability_list() {
    let mut catalog = sample_catalog(
        "sandbox_catalog_v1",
        vec![sample_capability("cap_a", "filesystem", "os_sandbox")],
    );
    catalog.capabilities = Vec::new();
    assert!(CapabilityIndex::load(catalog, None).is_err());
}

#[test]
fn load_rejects_blank_title() {
    let mut catalog = sample_catalog(
        "sandbox_catalog_v1",
        vec![sample_capability("cap_a", "filesystem", "os_sandbox")],
    );
    catalog.catalog.title = "   ".to_string();
    assert!(CapabilityIndex::load(catalog, None).is_err());
}

#[test]
fn load_rejects_malformed_catalog_key() {
    let mut catalog = sample_catalog(
        "sandbox_catalog_v1",
        vec![sample_capability("cap_a", "filesystem", "os_sandbox")],
    );
    catalog.catalog.key = CatalogKey("bad key!".to_string());
    assert!(CapabilityIndex::load(catalog, None).is_err());
}

#[test]
fn load_rejects_malformed_schema_version() {
    let catalog = sample_catalog(
        "bad version!",
        vec![sample_capability("cap_a", "filesystem", "os_sandbox")],
    );
    assert!(CapabilityIndex::load(catalog, None).is_err());
}

#[test]
fn load_rejects_blank_policy_layer_id() {
    let mut catalog = sample_catalog(
        "sandbox_catalog_v1",
        vec![sample_capability("cap_a", "filesystem", "os_sandbox")],
    );
    catalog.scope.policy_layers.push(PolicyLayer {
        id: "  ".to_string(),
        description: "blank".to_string(),
    });
    assert!(CapabilityIndex::load(catalog, None).is_err());
}

#[test]
fn load_rejects_blank_label() {
    let mut catalog = sample_catalog(
        "sandbox_catalog_v1",
        vec![sample_capability("cap_a", "filesystem", "os_sandbox")],
    );
    catalog.catalog.labels.push(" ".to_string());
    assert!(CapabilityIndex::load(catalog, None).is_err());
}

#[test]
fn category_round_trips_known_and_unknown() {
    let known = CapabilityCategory::SandboxProfile;
    assert_eq!(known.name(), "sandbox_profile");
    assert!(matches!(
        CapabilityCategory::from_name("sandbox_profile"),
        CapabilityCategory::SandboxProfile
    ));
    let parsed = CapabilityCategory::from_name("custom_category");
    assert!(matches!(parsed, CapabilityCategory::Other(ref v) if v == "custom_category"));
    assert_eq!(parsed.name(), "custom_category");
}

#[test]
fn layer_round_trips_known_and_unknown() {
    let known = CapabilityLayer::AgentRuntime;
    assert_eq!(known.name(), "agent_runtime");
    assert!(matches!(
        CapabilityLayer::from_name("agent_runtime"),
        CapabilityLayer::AgentRuntime
    ));
    let parsed = CapabilityLayer::from_name("custom_layer");
    assert!(matches!(parsed, CapabilityLayer::Other(ref v) if v == "custom_layer"));
    assert_eq!(parsed.name(), "custom_layer");
}
