//! Verification rules of the token-info type script.
//!
//! A token-info cell is accepted when its script argument names a companion
//! token cell among the outputs, when an input is locked by the token's
//! owner, and when the cell's payload is a line-delimited metadata record.
//! Every rule is a function of a read-only transaction snapshot.

pub mod bytes;
pub mod context;
pub mod error;
pub mod hash;
pub mod locator;
pub mod owner;
pub mod payload;
pub mod pipeline;
