//! Participation of a control node in the mesh of control nodes (membership
//! itself is not implemented here).
use vstd::prelude::*;

verus! {

/// Handle on this node's mesh membership.
pub struct MeshHandle {
    node_id: String,
}

impl Clone for MeshHandle {
    fn clone(&self) -> (r: Self)
        ensures
            r == *self,
    {
        MeshHandle { node_id: self.node_id.clone() }
    }
}

impl MeshHandle {
    /// The node's id in the mesh.
    pub closed spec fn spec_node_id(&self) -> Seq<char> {
        self.node_id@
    }

    /// A handle for node `node_id`.
    pub fn new(node_id: String) -> (r: Self)
        ensures
            r.spec_node_id() == node_id@,
    {
        MeshHandle { node_id }
    }

    /// The node's id in the mesh.
    pub fn node_id(&self) -> (r: &str)
        ensures
            r@ == self.spec_node_id(),
    {
        self.node_id.as_str()
    }
}

/// The mesh id a control node joins under: its configured id, or
/// `anonymous-cortex`.
pub open spec fn mesh_id(node_id: Option<String>) -> Seq<char> {
    match node_id {
        Some(id) => id@,
        None => "anonymous-cortex"@,
    }
}

/// Joins the mesh as `node_id`.
pub fn start_mesh(node_id: Option<String>) -> (r: MeshHandle)
    ensures
        r.spec_node_id() == mesh_id(node_id),
{
    let id = match node_id {
        Some(id) => id,
        None => String::from_str("anonymous-cortex"),
    };
    MeshHandle::new(id)
}

} // verus!
