//! Adaptation: replay buffer and the decision rules of the production mesh.

pub mod production;
pub mod replay;

pub use replay::ReplayBuffer;
