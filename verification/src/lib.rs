//! Structural core of the SAIREN-OS liquid neural mesh.
//!
//! The mesh groups neurons into circuits that share neurons through overlap
//! zones. This crate holds the discrete part of that design: which neurons
//! belong to which circuit, the hard limit of two circuits per neuron, the
//! default layout, the labelling rules used in training, the freeze rules,
//! and the decision rules that turn readouts into risk levels and modes.

pub mod adaptation;
pub mod circuit;
pub mod config;
pub mod io;
pub mod layout;
pub mod memory;
pub mod mesh;
pub mod overlap;
pub mod rng;
pub mod topology;
pub mod training;

pub use adaptation::ReplayBuffer;
pub use circuit::{Circuit, CircuitCriticality, CircuitId, CircuitType};
pub use config::DegradationMode;
pub use io::{RiskLevel, Severity};
pub use memory::DiagnosisType;
pub use mesh::MeshStructure;
pub use overlap::OverlapZone;
pub use topology::{TopologyConstraint, TopologyError};
pub use training::AnomalyType;
