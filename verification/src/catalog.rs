//! Capability catalog data model.
//!
//! A catalog is a versioned document: metadata (key, title), a scope that
//! declares the category and policy-layer vocabularies, a documentation map,
//! and an ordered list of capabilities.  Every cross-reference a capability
//! makes (its category, its layer, its doc keys) must resolve within the same
//! document; `index::CapabilityIndex::load` enforces that.

pub mod index;

use vstd::prelude::*;
use crate::text::{is_ident_seq, trim_seq};

verus! {

/// Identifier of one capability within a catalog.
#[derive(Clone)]
pub struct CapabilityId(pub String);

/// Identifier of a catalog document.
#[derive(Clone)]
pub struct CatalogKey(pub String);

/// A documentation reference: the text an entry of the catalog's doc map
/// points at.
#[derive(Clone, Debug)]
pub struct DocRef(pub String);

/// Category of a capability.  The vocabulary is open: a handful of values
/// have special meaning, and any other string is carried through verbatim.
#[derive(Clone)]
pub enum CapabilityCategory {
    Filesystem,
    Process,
    Network,
    SandboxProfile,
    Other(String),
}

impl CapabilityCategory {
    /// The wire name of the category.
    pub open spec fn spec_name(&self) -> Seq<char> {
        match self {
            CapabilityCategory::Filesystem => "filesystem"@,
            CapabilityCategory::Process => "process"@,
            CapabilityCategory::Network => "network"@,
            CapabilityCategory::SandboxProfile => "sandbox_profile"@,
            CapabilityCategory::Other(s) => s@,
        }
    }

    /// The wire name of the category.
    pub fn name(&self) -> (r: String)
        ensures
            r@ == self.spec_name(),
    {
        match self {
            CapabilityCategory::Filesystem => String::from_str("filesystem"),
            CapabilityCategory::Process => String::from_str("process"),
            CapabilityCategory::Network => String::from_str("network"),
            CapabilityCategory::SandboxProfile => String::from_str("sandbox_profile"),
            CapabilityCategory::Other(s) => s.clone(),
        }
    }

    /// Parse a wire name, mapping unknown names to `Other` so that the value
    /// round-trips verbatim.
    pub fn from_name(name: &str) -> (r: CapabilityCategory)
        ensures
            r.spec_name() == name@,
    {
        proof {
            reveal_strlit("filesystem");
            reveal_strlit("process");
            reveal_strlit("network");
            reveal_strlit("sandbox_profile");
        }
        if crate::text::str_eq(name, "filesystem") {
            CapabilityCategory::Filesystem
        } else if crate::text::str_eq(name, "process") {
            CapabilityCategory::Process
        } else if crate::text::str_eq(name, "network") {
            CapabilityCategory::Network
        } else if crate::text::str_eq(name, "sandbox_profile") {
            CapabilityCategory::SandboxProfile
        } else {
            CapabilityCategory::Other(name.to_owned())
        }
    }
}

/// Policy layer of a capability.  Open vocabulary, like the categories.
#[derive(Clone)]
pub enum CapabilityLayer {
    OsSandbox,
    AgentRuntime,
    Other(String),
}

impl CapabilityLayer {
    /// The wire name of the layer.
    pub open spec fn spec_name(&self) -> Seq<char> {
        match self {
            CapabilityLayer::OsSandbox => "os_sandbox"@,
            CapabilityLayer::AgentRuntime => "agent_runtime"@,
            CapabilityLayer::Other(s) => s@,
        }
    }

    /// The wire name of the layer.
    pub fn name(&self) -> (r: String)
        ensures
            r@ == self.spec_name(),
    {
        match self {
            CapabilityLayer::OsSandbox => String::from_str("os_sandbox"),
            CapabilityLayer::AgentRuntime => String::from_str("agent_runtime"),
            CapabilityLayer::Other(s) => s.clone(),
        }
    }

    /// Parse a wire name, mapping unknown names to `Other`.
    pub fn from_name(name: &str) -> (r: CapabilityLayer)
        ensures
            r.spec_name() == name@,
    {
        proof {
            reveal_strlit("os_sandbox");
            reveal_strlit("agent_runtime");
        }
        if crate::text::str_eq(name, "os_sandbox") {
            CapabilityLayer::OsSandbox
        } else if crate::text::str_eq(name, "agent_runtime") {
            CapabilityLayer::AgentRuntime
        } else {
            CapabilityLayer::Other(name.to_owned())
        }
    }
}

/// One declared policy layer of the catalog scope.
#[derive(Clone)]
pub struct PolicyLayer {
    pub id: String,
    pub description: String,
}

/// The scope of a catalog: the category and policy-layer vocabularies that
/// capabilities may reference.
#[derive(Clone)]
pub struct Scope {
    pub description: String,
    pub policy_layers: Vec<PolicyLayer>,
    /// Mapping of category id to description.
    pub categories: Vec<(String, String)>,
}

/// Catalog metadata: a key in `[A-Za-z0-9_.-]+` and a non-empty title.
#[derive(Clone)]
pub struct CatalogMetadata {
    pub key: CatalogKey,
    pub title: String,
    pub labels: Vec<String>,
}

/// Allow and deny operation lists of a capability.
#[derive(Clone)]
pub struct Operations {
    pub allow: Vec<String>,
    pub deny: Vec<String>,
}

/// A documentation source referenced by a capability; `doc` must be a key of
/// the catalog's doc map.
#[derive(Clone)]
pub struct CapabilitySource {
    pub doc: String,
}

/// A named, cataloged unit of sandbox-relevant behavior.
#[derive(Clone)]
pub struct Capability {
    pub id: CapabilityId,
    pub category: CapabilityCategory,
    pub layer: CapabilityLayer,
    pub description: String,
    pub operations: Operations,
    pub sources: Vec<CapabilitySource>,
}

/// A capability catalog document, as parsed from disk.
#[derive(Clone)]
pub struct CapabilityCatalog {
    pub schema_version: String,
    pub catalog: CatalogMetadata,
    pub scope: Scope,
    /// Mapping of doc key to reference.
    pub docs: Vec<(String, DocRef)>,
    pub capabilities: Vec<Capability>,
}

/// Whether the scope declares a category with this id.
pub open spec fn scope_has_category(scope: Scope, name: Seq<char>) -> bool {
    exists|i: int| 0 <= i < scope.categories@.len() && #[trigger] scope.categories@[i].0@ == name
}

/// Whether the scope declares a policy layer with this id.
pub open spec fn scope_has_layer(scope: Scope, name: Seq<char>) -> bool {
    exists|i: int|
        0 <= i < scope.policy_layers@.len() && #[trigger] scope.policy_layers@[i].id@ == name
}

/// Whether the doc map holds this key.
pub open spec fn docs_have_key(docs: Seq<(String, DocRef)>, key: Seq<char>) -> bool {
    exists|i: int| 0 <= i < docs.len() && #[trigger] docs[i].0@ == key
}

/// Whether every cross-reference of `cap` (category, layer, doc keys)
/// resolves within `catalog`.
pub open spec fn capability_refs_resolve(catalog: CapabilityCatalog, cap: Capability) -> bool {
    &&& scope_has_category(catalog.scope, cap.category.spec_name())
    &&& scope_has_layer(catalog.scope, cap.layer.spec_name())
    &&& forall|j: int|
        0 <= j < cap.sources@.len() ==> docs_have_key(
            catalog.docs@,
            #[trigger] cap.sources@[j].doc@,
        )
}

/// Whether the capability ids of `caps` are pairwise distinct.
pub open spec fn capability_ids_unique(caps: Seq<Capability>) -> bool {
    forall|i: int, j: int|
        0 <= i < j < caps.len() ==> (#[trigger] caps[i].id.0@) != (#[trigger] caps[j].id.0@)
}

/// The scope is well formed: at least one category, and no policy layer with
/// a blank id.
pub open spec fn spec_scope_ok(scope: Scope) -> bool {
    &&& scope.categories@.len() > 0
    &&& forall|i: int|
        0 <= i < scope.policy_layers@.len() ==> trim_seq(
            #[trigger] scope.policy_layers@[i].id@,
        ).len() > 0
}

/// The catalog metadata is well formed: key in `[A-Za-z0-9_.-]+`, non-blank
/// title, no blank label.
pub open spec fn spec_metadata_ok(meta: CatalogMetadata) -> bool {
    &&& is_ident_seq(meta.key.0@)
    &&& trim_seq(meta.title@).len() > 0
    &&& forall|i: int| 0 <= i < meta.labels@.len() ==> trim_seq(#[trigger] meta.labels@[i]@).len()
        > 0
}

/// The capability list is well formed: non-empty, no blank id, unique ids,
/// and every cross-reference resolves.
pub open spec fn spec_capabilities_ok(catalog: CapabilityCatalog) -> bool {
    &&& catalog.capabilities@.len() > 0
    &&& forall|i: int|
        0 <= i < catalog.capabilities@.len() ==> trim_seq(
            (#[trigger] catalog.capabilities@[i]).id.0@,
        ).len() > 0
    &&& capability_ids_unique(catalog.capabilities@)
    &&& forall|i: int|
        0 <= i < catalog.capabilities@.len() ==> capability_refs_resolve(
            catalog,
            #[trigger] catalog.capabilities@[i],
        )
}

} // verus!
