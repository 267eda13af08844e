//! What the plugin is configured with.

use vstd::prelude::*;

verus! {

/// The configuration of the plugin, as read from its configuration file.
#[derive(Clone, Debug, PartialEq, Eq)]
pub struct Configuration {
    /// The base address of the remote store's REST endpoint.
    pub supabase_url: String,
    /// The API key that is sent with every request.
    pub supabase_key: String,
    /// The base58 identifiers of the tracked programs, if any are named.
    pub programs: Option<Vec<String>>,
}

} // verus!
