//! Root configuration of a node.
use vstd::prelude::*;

verus! {

/// Settings shared by every role of a node.
pub struct HelexaConfig {
    pub node_id: Option<String>,
}

/// Reads the configuration at `path`; no setting is read yet, so every node
/// starts without a configured id.
pub fn load_from_file(path: &str) -> (r: HelexaConfig)
    ensures
        r.node_id is None,
{
    HelexaConfig { node_id: None }
}

} // verus!
