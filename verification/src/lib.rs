//! A permissioned registry of collection records.
//!
//! Each record holds an ordered membership list, a set of identities
//! authorized to mutate it, and signed back-references to other collections
//! it claims membership in. The library provides the record's binary layout,
//! its deterministic addressing scheme, and the authority-gated operations
//! that mutate it. Account allocation, funding and instruction transport are
//! left to the embedding program.

pub mod address;
pub mod codec;
pub mod errors;
pub mod instruction;
pub mod ops;
pub mod pages;
pub mod state;
pub mod types;
