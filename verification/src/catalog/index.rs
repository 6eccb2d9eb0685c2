//! Indexed view of a capability catalog instance.
//!
//! The index enforces the expected catalog schema version and referential
//! integrity, and keeps capability ids in a fixed lexicographic order so
//! downstream output is stable across runs.  It is intentionally strict about
//! duplicates and unknown schema versions: a catalog that fails any check is
//! rejected whole, never partially loaded.

use vstd::prelude::*;
use crate::text::{is_ident_seq, is_ident_str, lex_lt, trim_seq, trim_str, str_eq, str_lt};
use crate::text::{lemma_lex_connex, lemma_lex_trans};
use crate::catalog::{
    Capability, CapabilityCatalog, CapabilityId, CatalogKey, CatalogMetadata, Scope,
    capability_ids_unique, capability_refs_resolve, docs_have_key, scope_has_category,
    scope_has_layer, spec_capabilities_ok, spec_metadata_ok, spec_scope_ok,
};
use crate::catalog::DocRef;

verus! {

/// Why a catalog was rejected.  Each variant names the offending field, and
/// where a capability is at fault, its id.
#[derive(Debug)]
pub enum CatalogError {
    EmptySchemaVersion,
    MalformedSchemaVersion(String),
    UnknownSchemaVersion(String),
    EmptyCatalogKey,
    MalformedCatalogKey(String),
    EmptyCatalogTitle,
    EmptyCatalogLabel,
    EmptyPolicyLayerId,
    NoCategories,
    NoCapabilities,
    EmptyCapabilityId,
    DuplicateCapabilityId(String),
    UnknownCategory(String, String),
    UnknownLayer(String, String),
    UnknownDoc(String, String),
}

/// The single catalog schema version accepted without an explicit override.
pub open spec fn spec_default_schema_version() -> Seq<char> {
    "sandbox_catalog_v1"@
}

/// The single catalog schema version accepted without an explicit override.
pub fn default_schema_version() -> (r: &'static str)
    ensures
        r@ == spec_default_schema_version(),
{
    "sandbox_catalog_v1"
}

/// The allowed-version view of an optional override list.
pub open spec fn spec_allowed_extra(extra: Option<&Vec<String>>) -> Option<Seq<Seq<char>>> {
    match extra {
        Some(list) => Some(list.deep_view()),
        None => None,
    }
}

/// Whether `v` is an accepted catalog schema version: the pinned default, or
/// a member of the explicit override list when one was supplied.
pub open spec fn spec_version_allowed(v: Seq<char>, extra: Option<Seq<Seq<char>>>) -> bool {
    v == spec_default_schema_version() || (match extra {
        Some(list) => list.contains(v),
        None => false,
    })
}

/// Full validity of a catalog document: accepted schema version, well-formed
/// metadata and scope, and a non-empty capability list whose ids are unique
/// and whose cross-references all resolve within the document.
pub open spec fn spec_catalog_valid(
    catalog: CapabilityCatalog,
    extra: Option<Seq<Seq<char>>>,
) -> bool {
    &&& is_ident_seq(catalog.schema_version@)
    &&& spec_version_allowed(catalog.schema_version@, extra)
    &&& spec_metadata_ok(catalog.catalog)
    &&& spec_scope_ok(catalog.scope)
    &&& spec_capabilities_ok(catalog)
}

/// An unrecognized schema version outside the allowed set is always rejected,
/// and adding that version to an explicit override list makes an
/// otherwise-valid catalog acceptable.
pub proof fn lemma_schema_version_override(catalog: CapabilityCatalog, extra: Vec<String>)
    requires
        is_ident_seq(catalog.schema_version@),
        spec_metadata_ok(catalog.catalog),
        spec_scope_ok(catalog.scope),
        spec_capabilities_ok(catalog),
        catalog.schema_version@ != spec_default_schema_version(),
    ensures
        !spec_catalog_valid(catalog, None),
        extra.deep_view().contains(catalog.schema_version@) ==> spec_catalog_valid(
            catalog,
            Some(extra.deep_view()),
        ),
{
}

/// Check a catalog schema version: it must be non-empty, drawn from
/// `[A-Za-z0-9_.-]`, and a member of the allowed set.
pub fn validate_schema_version(schema_version: &str, extra: Option<&Vec<String>>) -> (r: Result<
    (),
    CatalogError,
>)
    ensures
        r is Ok <==> is_ident_seq(schema_version@) && spec_version_allowed(
            schema_version@,
            spec_allowed_extra(extra),
        ),
{
    if schema_version.unicode_len() == 0 {
        return Err(CatalogError::EmptySchemaVersion);
    }
    if !is_ident_str(schema_version) {
        return Err(CatalogError::MalformedSchemaVersion(schema_version.to_owned()));
    }
    if str_eq(schema_version, default_schema_version()) {
        return Ok(());
    }
    if let Some(list) = extra {
        let n = list.len();
        let mut i: usize = 0;
        while i < n
            invariant
                extra == Some(list),
                is_ident_seq(schema_version@),
                n == list.len(),
                0 <= i <= n,
                forall|j: int| 0 <= j < i ==> list.deep_view()[j] != schema_version@,
            decreases n - i,
        {
            if str_eq(schema_version, list[i].as_str()) {
                proof {
                    assert(list.deep_view()[i as int] == schema_version@);
                    assert(list.deep_view().contains(schema_version@));
                }
                return Ok(());
            }
            i = i + 1;
        }
    }
    Err(CatalogError::UnknownSchemaVersion(schema_version.to_owned()))
}

/// Check a catalog key: non-empty and drawn from `[A-Za-z0-9_.-]`.
pub fn validate_catalog_key(key: &CatalogKey) -> (r: Result<(), CatalogError>)
    ensures
        r is Ok <==> is_ident_seq(key.0@),
{
    if key.0.as_str().is_empty() {
        return Err(CatalogError::EmptyCatalogKey);
    }
    if !is_ident_str(key.0.as_str()) {
        return Err(CatalogError::MalformedCatalogKey(key.0.clone()));
    }
    Ok(())
}

/// Check catalog metadata: a well-formed key, a non-blank title, and no
/// blank label.
pub fn validate_catalog_metadata(meta: &CatalogMetadata) -> (r: Result<(), CatalogError>)
    ensures
        r is Ok <==> spec_metadata_ok(*meta),
{
    if let Err(e) = validate_catalog_key(&meta.key) {
        return Err(e);
    }
    let title_trimmed = trim_str(meta.title.as_str());
    if title_trimmed.as_str().is_empty() {
        return Err(CatalogError::EmptyCatalogTitle);
    }
    let n = meta.labels.len();
    let mut i: usize = 0;
    while i < n
        invariant
            n == meta.labels.len(),
            0 <= i <= n,
            forall|j: int| 0 <= j < i ==> trim_seq(#[trigger] meta.labels@[j]@).len() > 0,
        decreases n - i,
    {
        let label_trimmed = trim_str(meta.labels[i].as_str());
        if label_trimmed.as_str().is_empty() {
            return Err(CatalogError::EmptyCatalogLabel);
        }
        i = i + 1;
    }
    Ok(())
}

fn scope_category_exists(scope: &Scope, name: &str) -> (r: bool)
    ensures
        r == scope_has_category(*scope, name@),
{
    let n = scope.categories.len();
    let mut i: usize = 0;
    while i < n
        invariant
            n == scope.categories.len(),
            0 <= i <= n,
            forall|j: int| 0 <= j < i ==> (#[trigger] scope.categories@[j].0@) != name@,
        decreases n - i,
    {
        if str_eq(scope.categories[i].0.as_str(), name) {
            return true;
        }
        i = i + 1;
    }
    false
}

fn scope_layer_exists(scope: &Scope, name: &str) -> (r: bool)
    ensures
        r == scope_has_layer(*scope, name@),
{
    let n = scope.policy_layers.len();
    let mut i: usize = 0;
    while i < n
        invariant
            n == scope.policy_layers.len(),
            0 <= i <= n,
            forall|j: int| 0 <= j < i ==> (#[trigger] scope.policy_layers@[j].id@) != name@,
        decreases n - i,
    {
        if str_eq(scope.policy_layers[i].id.as_str(), name) {
            return true;
        }
        i = i + 1;
    }
    false
}

fn doc_key_exists(docs: &Vec<(String, DocRef)>, key: &str) -> (r: bool)
    ensures
        r == docs_have_key(docs@, key@),
{
    let n = docs.len();
    let mut i: usize = 0;
    while i < n
        invariant
            n == docs.len(),
            0 <= i <= n,
            forall|j: int| 0 <= j < i ==> (#[trigger] docs@[j].0@) != key@,
        decreases n - i,
    {
        if str_eq(docs[i].0.as_str(), key) {
            return true;
        }
        i = i + 1;
    }
    false
}

/// The sequence of capability positions `order` maps to, read off `caps`.
pub open spec fn caps_at(caps: Seq<Capability>, order: Seq<usize>) -> Seq<Capability> {
    order.map_values(|k: usize| caps[k as int])
}

/// `order` indexes `caps` in strictly ascending id order.
pub open spec fn order_sorted(caps: Seq<Capability>, order: Seq<usize>) -> bool {
    &&& forall|i: int| 0 <= i < order.len() ==> (#[trigger] order[i]) < caps.len()
    &&& forall|i: int, j: int|
        0 <= i < j < order.len() ==> lex_lt(
            caps[(#[trigger] order[i]) as int].id.0@,
            caps[(#[trigger] order[j]) as int].id.0@,
        )
}

/// Find a capability by id among the positions listed in `order`.
fn find_ordered(caps: &Vec<Capability>, order: &Vec<usize>, id: &str) -> (r: Option<usize>)
    requires
        forall|i: int| 0 <= i < order@.len() ==> (#[trigger] order@[i]) < caps@.len(),
    ensures
        match r {
            Some(k) => order@.contains(k) && k < caps@.len() && caps@[k as int].id.0@ == id@,
            None => forall|i: int|
                0 <= i < order@.len() ==> caps@[(#[trigger] order@[i]) as int].id.0@ != id@,
        },
{
    let n = order.len();
    let mut i: usize = 0;
    while i < n
        invariant
            n == order.len(),
            0 <= i <= n,
            forall|j: int| 0 <= j < order@.len() ==> (#[trigger] order@[j]) < caps@.len(),
            forall|j: int| 0 <= j < i ==> caps@[(#[trigger] order@[j]) as int].id.0@ != id@,
        decreases n - i,
    {
        let k = order[i];
        if str_eq(caps[k].id.0.as_str(), id) {
            return Some(k);
        }
        i = i + 1;
    }
    None
}

/// Insert position `pos` into `order`, keeping it strictly sorted by id.
fn insert_ordered(caps: &Vec<Capability>, order: &mut Vec<usize>, pos: usize)
    requires
        pos < caps@.len(),
        order_sorted(caps@, old(order)@),
        forall|i: int|
            0 <= i < old(order)@.len() ==> caps@[(#[trigger] old(order)@[i]) as int].id.0@
                != caps@[pos as int].id.0@,
    ensures
        final(order)@.len() == old(order)@.len() + 1,
        order_sorted(caps@, final(order)@),
        forall|k: usize| final(order)@.contains(k) <==> (old(order)@.contains(k) || k == pos),
{
    let n = order.len();
    let mut i: usize = 0;
    while i < n && str_lt(caps[order[i]].id.0.as_str(), caps[pos].id.0.as_str())
        invariant
            n == order.len(),
            pos < caps@.len(),
            0 <= i <= n,
            order_sorted(caps@, order@),
            forall|j: int|
                0 <= j < order@.len() ==> caps@[(#[trigger] order@[j]) as int].id.0@
                    != caps@[pos as int].id.0@,
            forall|j: int|
                0 <= j < i ==> lex_lt(
                    caps@[(#[trigger] order@[j]) as int].id.0@,
                    caps@[pos as int].id.0@,
                ),
        decreases n - i,
    {
        i = i + 1;
    }
    proof {
        // Everything at or after the insertion point sorts strictly after `pos`.
        assert forall|j: int|
            i <= j < order@.len() implies lex_lt(
            caps@[pos as int].id.0@,
            caps@[(#[trigger] order@[j]) as int].id.0@,
        ) by {
            lemma_lex_connex(caps@[pos as int].id.0@, caps@[order@[i as int] as int].id.0@);
            if i < j {
                lemma_lex_trans(
                    caps@[pos as int].id.0@,
                    caps@[order@[i as int] as int].id.0@,
                    caps@[order@[j] as int].id.0@,
                );
            }
        }
    }
    let ghost old_order = order@;
    order.insert(i, pos);
    proof {
        old_order.insert_ensures(i as int, pos);
        assert forall|k: usize| order@.contains(k) implies (old_order.contains(k) || k == pos) by {
            let w = choose|w: int| 0 <= w < order@.len() && order@[w] == k;
            if w < i {
                assert(old_order[w] == k);
            } else if w > i {
                assert(old_order[w - 1] == k);
            }
        }
        assert forall|k: usize| (old_order.contains(k) || k == pos) implies order@.contains(k) by {
            if old_order.contains(k) {
                let w = choose|w: int| 0 <= w < old_order.len() && old_order[w] == k;
                if w < i {
                    assert(order@[w] == k);
                } else {
                    assert(order@[w + 1] == k);
                }
            } else {
                assert(order@[i as int] == pos);
            }
        }
    }
}

/// Validate the scope and capability list of `catalog` and build the sorted
/// index order: a list of positions into `catalog.capabilities`, one per
/// capability, in strictly ascending id order.
pub fn build_index(catalog: &CapabilityCatalog) -> (r: Result<Vec<usize>, CatalogError>)
    ensures
        r is Ok <==> spec_scope_ok(catalog.scope) && spec_capabilities_ok(*catalog),
        r matches Ok(order) ==> order@.len() == catalog.capabilities@.len(),
        r matches Ok(order) ==> order_sorted(catalog.capabilities@, order@),
        r matches Ok(order) ==> forall|p: usize|
            order@.contains(p) <==> (p as int) < catalog.capabilities@.len(),
{
    if catalog.capabilities.len() == 0 {
        return Err(CatalogError::NoCapabilities);
    }
    let n_layers = catalog.scope.policy_layers.len();
    let mut li: usize = 0;
    while li < n_layers
        invariant
            n_layers == catalog.scope.policy_layers.len(),
            0 <= li <= n_layers,
            forall|j: int|
                0 <= j < li ==> trim_seq(#[trigger] catalog.scope.policy_layers@[j].id@).len() > 0,
        decreases n_layers - li,
    {
        let t = trim_str(catalog.scope.policy_layers[li].id.as_str());
        if t.as_str().is_empty() {
            return Err(CatalogError::EmptyPolicyLayerId);
        }
        li = li + 1;
    }
    if catalog.scope.categories.len() == 0 {
        return Err(CatalogError::NoCategories);
    }
    let n = catalog.capabilities.len();
    let mut order: Vec<usize> = Vec::new();
    let mut i: usize = 0;
    while i < n
        invariant
            n == catalog.capabilities@.len(),
            0 <= i <= n,
            order@.len() == i,
            order_sorted(catalog.capabilities@, order@),
            forall|p: usize| order@.contains(p) <==> (p as int) < i,
            forall|j: int|
                0 <= j < i ==> trim_seq((#[trigger] catalog.capabilities@[j]).id.0@).len() > 0,
            forall|j: int, k: int|
                0 <= j < k < i ==> (#[trigger] catalog.capabilities@[j].id.0@) != (
                #[trigger] catalog.capabilities@[k].id.0@),
            forall|j: int|
                0 <= j < i ==> capability_refs_resolve(
                    *catalog,
                    #[trigger] catalog.capabilities@[j],
                ),
        decreases n - i,
    {
        let cap_id_trimmed = trim_str(catalog.capabilities[i].id.0.as_str());
        if cap_id_trimmed.as_str().is_empty() {
            return Err(CatalogError::EmptyCapabilityId);
        }
        if let Some(_k) = find_ordered(&catalog.capabilities, &order, catalog.capabilities[
            i
        ].id.0.as_str()) {
            return Err(CatalogError::DuplicateCapabilityId(catalog.capabilities[i].id.0.clone()));
        }
        let category_name = catalog.capabilities[i].category.name();
        if !scope_category_exists(&catalog.scope, category_name.as_str()) {
            return Err(CatalogError::UnknownCategory(
                catalog.capabilities[i].id.0.clone(),
                category_name,
            ));
        }
        let layer_name = catalog.capabilities[i].layer.name();
        if !scope_layer_exists(&catalog.scope, layer_name.as_str()) {
            return Err(CatalogError::UnknownLayer(
                catalog.capabilities[i].id.0.clone(),
                layer_name,
            ));
        }
        let n_sources = catalog.capabilities[i].sources.len();
        let mut si: usize = 0;
        while si < n_sources
            invariant
                n == catalog.capabilities@.len(),
                0 <= i < n,
                n_sources == catalog.capabilities@[i as int].sources@.len(),
                0 <= si <= n_sources,
                forall|j: int|
                    0 <= j < si ==> docs_have_key(
                        catalog.docs@,
                        #[trigger] catalog.capabilities@[i as int].sources@[j].doc@,
                    ),
            decreases n_sources - si,
        {
            if !doc_key_exists(&catalog.docs, catalog.capabilities[i].sources[si].doc.as_str()) {
                return Err(CatalogError::UnknownDoc(
                    catalog.capabilities[i].id.0.clone(),
                    catalog.capabilities[i].sources[si].doc.clone(),
                ));
            }
            si = si + 1;
        }
        proof {
            // The duplicate scan covered every earlier capability: the order
            // prefix holds exactly the positions below `i`.
            assert forall|j: int|
                0 <= j < i implies (#[trigger] catalog.capabilities@[j].id.0@)
                != catalog.capabilities@[i as int].id.0@ by {
                assert(order@.contains(j as usize));
                let w = choose|w: int| 0 <= w < order@.len() && order@[w] == j as usize;
                assert(catalog.capabilities@[order@[w] as int].id.0@
                    != catalog.capabilities@[i as int].id.0@);
            }
        }
        insert_ordered(&catalog.capabilities, &mut order, i);
        i = i + 1;
    }
    Ok(order)
}

/// Capability catalog plus a derived index: the positions of the catalog's
/// capabilities in strictly ascending id order.
pub struct CapabilityIndex {
    catalog: CapabilityCatalog,
    order: Vec<usize>,
}

impl CapabilityIndex {
    /// The catalog this index was built from.
    pub closed spec fn spec_catalog(&self) -> CapabilityCatalog {
        self.catalog
    }

    /// The capability positions in id order.
    pub closed spec fn spec_order(&self) -> Seq<usize> {
        self.order@
    }

    /// The catalog's capabilities, in strictly ascending id order.
    pub open spec fn spec_caps(&self) -> Seq<Capability> {
        caps_at(self.spec_catalog().capabilities@, self.spec_order())
    }

    /// Well-formedness: the order lists every capability position exactly
    /// once, sorted strictly by id.  `load` establishes this.
    pub open spec fn wf(&self) -> bool {
        &&& self.spec_order().len() == self.spec_catalog().capabilities@.len()
        &&& order_sorted(self.spec_catalog().capabilities@, self.spec_order())
        &&& forall|p: usize|
            self.spec_order().contains(p) <==> (p as int) < self.spec_catalog().capabilities@.len()
    }

    /// Whether the catalog declares a capability with this id.
    pub open spec fn spec_has_capability(&self, id: Seq<char>) -> bool {
        exists|i: int|
            0 <= i < self.spec_catalog().capabilities@.len()
                && (#[trigger] self.spec_catalog().capabilities@[i]).id.0@ == id
    }

    /// Validate `catalog` and build the index.
    ///
    /// The load succeeds exactly when the catalog is valid: an accepted
    /// schema version (the pinned default, or one of `allowed_extra` when
    /// given), well-formed metadata and scope, and a non-empty capability
    /// list with unique, non-blank ids whose category, layer and doc
    /// references all resolve within the same document.  A catalog that
    /// fails any check is rejected whole.
    pub fn load(catalog: CapabilityCatalog, allowed_extra: Option<&Vec<String>>) -> (r: Result<
        CapabilityIndex,
        CatalogError,
    >)
        ensures
            r is Ok <==> spec_catalog_valid(catalog, spec_allowed_extra(allowed_extra)),
            r matches Ok(index) ==> index.wf() && index.spec_catalog() == catalog,
    {
        if let Err(e) = validate_schema_version(catalog.schema_version.as_str(), allowed_extra) {
            return Err(e);
        }
        if let Err(e) = validate_catalog_metadata(&catalog.catalog) {
            return Err(e);
        }
        let order = match build_index(&catalog) {
            Ok(order) => order,
            Err(e) => {
                return Err(e);
            },
        };
        Ok(CapabilityIndex { catalog, order })
    }

    /// The catalog key declared in the loaded document.
    pub fn key(&self) -> (r: &CatalogKey)
        ensures
            *r == self.spec_catalog().catalog.key,
    {
        &self.catalog.catalog.key
    }

    /// Resolve a capability by id, by binary search over the sorted order.
    /// Absence is not an error at this layer: callers attach the context
    /// that referenced the missing id.
    pub fn capability(&self, id: &CapabilityId) -> (r: Option<&Capability>)
        requires
            self.wf(),
        ensures
            match r {
                Some(cap) => self.spec_catalog().capabilities@.contains(*cap) && cap.id.0@
                    == id.0@,
                None => !self.spec_has_capability(id.0@),
            },
    {
        let ghost caps = self.catalog.capabilities@;
        let mut lo: usize = 0;
        let mut hi: usize = self.order.len();
        while lo < hi
            invariant
                self.wf(),
                caps == self.catalog.capabilities@,
                0 <= lo <= hi <= self.order@.len(),
                forall|w: int|
                    0 <= w < lo ==> lex_lt(
                        caps[(#[trigger] self.order@[w]) as int].id.0@,
                        id.0@,
                    ),
                forall|w: int|
                    hi <= w < self.order@.len() ==> lex_lt(
                        id.0@,
                        caps[(#[trigger] self.order@[w]) as int].id.0@,
                    ),
            decreases hi - lo,
        {
            let mid = lo + (hi - lo) / 2;
            let k = self.order[mid];
            if str_eq(self.catalog.capabilities[k].id.0.as_str(), id.0.as_str()) {
                proof {
                    assert(caps.contains(caps[k as int]));
                }
                return Some(&self.catalog.capabilities[k]);
            } else if str_lt(self.catalog.capabilities[k].id.0.as_str(), id.0.as_str()) {
                proof {
                    assert forall|w: int|
                        0 <= w < mid + 1 implies lex_lt(
                        caps[(#[trigger] self.order@[w]) as int].id.0@,
                        id.0@,
                    ) by {
                        if w < mid {
                            lemma_lex_trans(
                                caps[self.order@[w] as int].id.0@,
                                caps[self.order@[mid as int] as int].id.0@,
                                id.0@,
                            );
                        }
                    }
                }
                lo = mid + 1;
            } else {
                proof {
                    lemma_lex_connex(id.0@, caps[self.order@[mid as int] as int].id.0@);
                    assert forall|w: int|
                        mid <= w < self.order@.len() implies lex_lt(
                        id.0@,
                        caps[(#[trigger] self.order@[w]) as int].id.0@,
                    ) by {
                        if mid < w {
                            lemma_lex_trans(
                                id.0@,
                                caps[self.order@[mid as int] as int].id.0@,
                                caps[self.order@[w] as int].id.0@,
                            );
                        }
                    }
                }
                hi = mid;
            }
        }
        proof {
            assert forall|p: int| 0 <= p < caps.len() implies (#[trigger] caps[p]).id.0@ != id.0@
                by {
                assert(self.spec_order().contains(p as usize));
                let w = choose|w: int|
                    0 <= w < self.spec_order().len() && self.spec_order()[w] == p as usize;
                if w < lo {
                    if caps[p].id.0@ == id.0@ {
                        crate::text::lemma_lex_irrefl(id.0@);
                    }
                } else {
                    if caps[p].id.0@ == id.0@ {
                        crate::text::lemma_lex_irrefl(id.0@);
                    }
                }
            }
        }
        None
    }

    /// The capability ids, in the index's fixed lexicographic order.
    pub fn ids(&self) -> (r: Vec<String>)
        requires
            self.wf(),
        ensures
            r.deep_view() == self.spec_caps().map_values(|c: Capability| c.id.0@),
            r@.len() == self.spec_caps().len(),
            forall|i: int| 0 <= i < r@.len() ==> #[trigger] r@[i] == self.spec_caps()[i].id.0,
    {
        let n = self.order.len();
        let mut r: Vec<String> = Vec::new();
        let mut i: usize = 0;
        while i < n
            invariant
                self.wf(),
                n == self.order@.len(),
                0 <= i <= n,
                r.deep_view().len() == i,
                r@.len() == i,
                forall|j: int|
                    0 <= j < i ==> r.deep_view()[j] == self.spec_caps().map_values(
                        |c: Capability| c.id.0@,
                    )[j],
                forall|j: int| 0 <= j < i ==> #[trigger] r@[j] == self.spec_caps()[j].id.0,
            decreases n - i,
        {
            let k = self.order[i];
            let ghost old_r = r.deep_view();
            r.push(self.catalog.capabilities[k].id.0.clone());
            proof {
                assert(r.deep_view() =~= old_r.push(
                    self.catalog.capabilities@[k as int].id.0@,
                ));
                assert(r@[i as int] == self.spec_caps()[i as int].id.0);
            }
            i = i + 1;
        }
        proof {
            assert(r.deep_view() =~= self.spec_caps().map_values(|c: Capability| c.id.0@));
        }
        r
    }

    /// Access the underlying catalog (categories, docs, and the rest).
    pub fn catalog(&self) -> (r: &CapabilityCatalog)
        ensures
            *r == self.spec_catalog(),
    {
        &self.catalog
    }
}

} // verus!
