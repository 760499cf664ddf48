//! The rules of a prediction market on a ledger: who may stake on which outcome, what a
//! stake moves, and which records it leaves behind.
//!
//! The crate decides and never touches the ledger itself. An [`invocation::Invocation`]
//! carries what was read and collects, in order, the effects that are to be performed. What the
//! host and the token decide about them is a [`host::Host`]; [`ledger`] says what performing
//! them does, and [`laws`] proves what always holds of a ledger on which nothing else acts.
//! [`guarantees`] says field by field what a submission leaves behind and how it is answered.

pub mod errors;
pub mod escrow;
pub mod guarantees;
pub mod host;
pub mod invocation;
pub mod laws;
pub mod ledger;
pub mod prediction;
pub mod storage_types;
