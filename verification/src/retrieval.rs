//! Mechanisms for retrieving blobs.
//!
//! A retrieval strategy turns a declarative item specification into the
//! byte stream to ingest. The set of strategies is a closed enumeration so
//! that the chosen strategy survives a save/load round trip of the
//! manifest; the verified part resolves the specification, and the
//! unverified shell performs the transport it names.

use vstd::prelude::*;

use crate::errors::Error;
use crate::meta::{meta_find, MetaTable, MetaValue, MetaValueV};

verus! {

/// Retrieving items where each is tagged with a URL.
#[derive(Clone, Copy, Debug, PartialEq, Eq, Structural)]
pub struct UrlRetrieval {}

impl UrlRetrieval {
    /// Create a new UrlRetrieval item.
    pub fn new() -> (r: UrlRetrieval)
        ensures
            r == (UrlRetrieval {  }),
    {
        UrlRetrieval {  }
    }

    /// Resolve an item specification to the URL its content comes from.
    ///
    /// The specification must carry a text "url" field; one without it is
    /// rejected, and nothing is fetched.
    pub fn resolve(&self, item_spec: &MetaTable) -> (r: Result<String, Error>)
        ensures
            match meta_find(item_spec@, "url"@) {
                Some(MetaValueV::Str(u)) => r matches Ok(s) && s@ == u,
                _ => r == Err::<String, Error>(Error::MissingUrlField),
            },
    {
        match item_spec.get("url") {
            Some(MetaValue::Str(u)) => Ok(u.clone()),
            _ => Err(Error::MissingUrlField),
        }
    }
}

/// An enumeration of all retrieval types recognized by this crate.
#[derive(Clone, Copy, Debug, PartialEq, Eq, Structural)]
pub enum AnyRetrieval {
    /// Retrieval performed using per-item "url" records.
    Url(UrlRetrieval),
}

impl AnyRetrieval {
    /// Resolve an item specification to the URL its content comes from,
    /// according to the strategy at hand.
    pub fn resolve(&self, item_spec: &MetaTable) -> (r: Result<String, Error>)
        ensures
            match meta_find(item_spec@, "url"@) {
                Some(MetaValueV::Str(u)) => r matches Ok(s) && s@ == u,
                _ => r == Err::<String, Error>(Error::MissingUrlField),
            },
    {
        match self {
            AnyRetrieval::Url(u) => u.resolve(item_spec),
        }
    }
}

} // verus!
