//! Constants of the client, by the part of it they tune.

pub mod prover;
