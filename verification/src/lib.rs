//! Evaluation core for an NNUE-style, quantised neural network: a read-only
//! weight store, per-perspective accumulators that are updated incrementally
//! as features toggle, and an integer-exact forward pass producing a score.

pub mod arith;
pub mod laws;
pub mod model;
pub mod network;

pub use network::Accumulator;
pub use network::Network;
pub use network::NnueError;

pub use arith::QA;
pub use arith::QB;
pub use arith::SCALE;
