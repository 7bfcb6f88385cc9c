//! On-chain validation core for a decentralised naming service.
//!
//! State lives as typed cells on a UTXO-style chain. A transaction snapshot
//! — inputs, outputs, cell-deps, each a sequence of cells, plus hash-anchored
//! witnesses — is handed in as plain values, and the validators decide
//! whether the state transition is admissible, answering with a stable
//! numeric error code otherwise.

pub mod actions;
pub mod apply_register;
pub mod byteseq;
pub mod codec;
pub mod entity;
pub mod error;
pub mod fees;
pub mod hash;
pub mod indexer;
pub mod laws;
pub mod model;
pub mod oracle;
pub mod profit;
pub mod proposal;
pub mod witness;
