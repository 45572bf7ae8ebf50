//! A minimal account-based record store.
//!
//! An account is a byte buffer plus a balance, supplied by an outer host.
//! The library defines the binary layout of the records kept in such
//! buffers, the wire format of the instructions that mutate them, and the
//! state machine that applies an instruction to an account while enforcing
//! authorization and initialization rules.

pub mod byteops;
pub mod error;
pub mod instruction;
pub mod processor;
pub mod pubkey;
pub mod state;
pub mod swap;
