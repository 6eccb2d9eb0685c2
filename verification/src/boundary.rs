//! Boundary-object schema descriptors.
//!
//! A descriptor is a small indirection document that names a boundary-object
//! schema (key, title, labels) and points at the physical schema file, so
//! multiple named contracts can share one schema.  Its own top-level
//! `schema_version` must equal a fixed descriptor-format marker, distinct
//! from the boundary-event schema's own version.

use vstd::prelude::*;
use crate::catalog::DocRef;
use crate::text::str_eq;

verus! {

/// Why a boundary schema descriptor was rejected.
#[derive(Debug)]
pub enum BoundaryError {
    /// The descriptor's own version marker is not the supported one; carries
    /// the offending value.
    UnsupportedCatalogVersion(String),
}

/// The version marker every boundary-object schema descriptor file must
/// carry.
pub fn boundary_schema_catalog_version() -> (r: &'static str)
    ensures
        r@ == "boundary_object_schema_v1"@,
{
    "boundary_object_schema_v1"
}

/// Metadata of a single boundary-object schema.
#[derive(Debug)]
pub struct BoundarySchemaDescriptor {
    pub key: String,
    pub title: String,
    pub description: Option<String>,
    pub labels: Vec<String>,
    pub notes: Option<String>,
    pub schema_path: String,
}

/// A boundary-object schema descriptor document.
#[derive(Debug)]
pub struct BoundarySchemaCatalog {
    pub schema_version: String,
    pub schema: BoundarySchemaDescriptor,
    pub docs: Vec<(String, DocRef)>,
}

impl BoundarySchemaCatalog {
    /// Accept a parsed descriptor document after verifying its version
    /// marker; a document with any other marker is rejected whole.
    pub fn load(catalog: BoundarySchemaCatalog) -> (r: Result<BoundarySchemaCatalog, BoundaryError>)
        ensures
            r is Ok <==> catalog.schema_version@ == "boundary_object_schema_v1"@,
            r matches Ok(c) ==> c == catalog,
            r matches Err(e) ==> e matches BoundaryError::UnsupportedCatalogVersion(v) && v@
                == catalog.schema_version@,
    {
        if str_eq(catalog.schema_version.as_str(), boundary_schema_catalog_version()) {
            Ok(catalog)
        } else {
            Err(BoundaryError::UnsupportedCatalogVersion(catalog.schema_version))
        }
    }
}

impl BoundarySchemaDescriptor {
    /// Resolve the descriptor's schema path against the repository root: an
    /// absolute path stands as it is, a relative one is joined under the
    /// root.
    pub fn schema_path(&self, repo_root: &str) -> (r: String)
        ensures
            self.schema_path@.len() > 0 && self.schema_path@[0] == '/' ==> r@
                == self.schema_path@,
            !(self.schema_path@.len() > 0 && self.schema_path@[0] == '/') ==> r@ == repo_root@
                + "/"@ + self.schema_path@,
    {
        let n = self.schema_path.as_str().unicode_len();
        if n > 0 && self.schema_path.as_str().get_char(0) == '/' {
            self.schema_path.clone()
        } else {
            let r = String::from_str(repo_root).concat("/").concat(self.schema_path.as_str());
            proof {
                assert(r@ =~= repo_root@ + "/"@ + self.schema_path@);
            }
            r
        }
    }
}

} // verus!
