// A state-vector simulator of small quantum circuits: bit addressing of basis
// indices, gate transforms, circuits with loops and measurements, their
// validation, and a step-by-step executor.

pub mod bits;
pub mod gate_op;
pub mod base_gate;
pub mod gate;
pub mod measure;
pub mod execution;
pub mod condition;
pub mod _loop;
pub mod operation;
pub mod circuit;
pub mod builder;
pub mod common_gate;
pub mod computer;
pub mod id_generator;
pub mod executor;
pub mod energy;
pub mod laws;
