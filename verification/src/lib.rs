//! Mutating-admission core for a cluster-orchestration simulator.
//!
//! The library decides whether an incoming pod belongs to the active
//! simulation (by resolving its owner-reference ancestry through a memoizing
//! cache) and, if so, plans an ordered JSON Patch that tags the pod with the
//! simulation label, an optional lifecycle annotation, and virtual-node
//! placement.  All decision logic lives here and is verified; transport,
//! serialization and the cluster accessor stay outside and hand plain values
//! in and out.

pub mod cache;
pub mod json;
pub mod jsonptr;
pub mod laws;
pub mod patch;
pub mod planner;
pub mod pod;
pub mod response;

use vstd::prelude::*;

verus! {

/// Process-wide configuration of the simulation: the simulation's name, the
/// name of the root object that marks the simulated workload tree, and the
/// deployment-configured well-known keys used by the planned mutations.
pub struct SimulationContext {
    /// Name of the running simulation; becomes the value of the simulation label.
    pub name: String,
    /// Name of the simulation root object; a pod is eligible iff its resolved
    /// ownership chain contains an owner with this name.
    pub sim_root: String,
    /// Label key under which the simulation name is recorded.
    pub label_key: String,
    /// Annotation key that marks a pod as the replay of a previously observed
    /// object and carries that object's original namespace.
    pub orig_ns_annotation_key: String,
    /// Toleration key appended so the pod can schedule onto virtual nodes.
    pub toleration_key: String,
    /// Node-selector value that selects virtual capacity.
    pub virtual_value: String,
}

} // verus!
