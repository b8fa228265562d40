//! Messages of a control-plane session between a worker and the control node.
use vstd::prelude::*;
use crate::protocol::{clone_opt_string, ProvisioningCommand, ProvisioningResponse};

verus! {

/// Identity a worker reports for itself when it registers.
pub struct NeuronDescriptor {
    /// Stable id; without it the worker cannot be addressed or persisted.
    pub node_id: Option<String>,
    /// Human-readable label, such as a hostname.
    pub label: Option<String>,
    /// Free-form data (operating system, architecture, accelerators).
    pub metadata: serde_json::Value,
}

impl Clone for NeuronDescriptor {
    fn clone(&self) -> (r: Self)
        ensures
            r == *self,
    {
        NeuronDescriptor {
            node_id: clone_opt_string(&self.node_id),
            label: clone_opt_string(&self.label),
            metadata: self.metadata.clone(),
        }
    }
}

/// Worker to control node.
pub enum NeuronToCortex {
    /// First message of a session; sent again to refresh the descriptor.
    Register { neuron: NeuronDescriptor },
    /// Liveness signal with free-form metrics.
    Heartbeat { neuron_id: String, metrics: serde_json::Value },
    /// Acknowledgement of a provisioning command.
    ProvisioningResponse { neuron_id: String, response: ProvisioningResponse },
    /// The worker is exiting and will not heartbeat again.
    Shutdown { neuron_id: String, reason: Option<String> },
}

/// Control node to worker.
pub enum CortexToNeuron {
    /// A provisioning directive.
    Provisioning { cmd: ProvisioningCommand },
    /// Ask the worker to report its capabilities.
    RequestCapabilities,
    /// The control node is going down; the worker keeps serving and reconnects.
    ShutdownNotice { reason: Option<String> },
}

} // verus!
