//! Scheduling and provisioning roles of the control node. Routing policy is
//! not part of this library: the basic scheduler routes each workload class
//! to its default model.
use vstd::prelude::*;
use crate::mesh::MeshHandle;
use crate::protocol::{ModelCapability, RoutingDecision, WorkloadClass};

verus! {

/// Makes routing decisions.
pub trait Scheduler {
    fn schedule(&self, workload: WorkloadClass) -> RoutingDecision;
}

/// Ensures models are loaded on target workers.
pub trait Provisioner {
    fn ensure_model_loaded(&self, model: &ModelCapability);
}

/// Scheduler with a fixed default model per workload class.
pub struct BasicScheduler {
    pub mesh: MeshHandle,
}

impl BasicScheduler {
    /// A scheduler for this mesh node.
    pub fn new(mesh: MeshHandle) -> (r: Self)
        ensures
            r.mesh == mesh,
    {
        BasicScheduler { mesh }
    }
}

impl Scheduler for BasicScheduler {
    fn schedule(&self, workload: WorkloadClass) -> RoutingDecision {
        RoutingDecision::default_for(workload)
    }
}

} // verus!
