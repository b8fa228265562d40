//! Fleet control plane: a control node tracks connected workers, pushes model
//! provisioning commands to them and publishes fleet events to observers;
//! each worker keeps its model configurations, supervises backend processes
//! and reconnects with exponential backoff.
use vstd::prelude::*;

pub mod backoff;
pub mod cache;
pub mod cache_state;
pub mod chat;
pub mod config;
pub mod control;
pub mod demand;
pub mod fleet;
pub mod hostinfo;
pub mod mesh;
pub mod messages;
pub mod observe;
pub mod orchestrator;
pub mod process;
pub mod table;
pub mod protocol;
pub mod runtime;
pub mod session;
pub mod status;

verus! {

} // verus!
