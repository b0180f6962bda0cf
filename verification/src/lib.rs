//! A pluggable-encryption environment subsystem: a boundary layer that lets
//! an embedding application supply a custom block cipher which a storage
//! engine's I/O path invokes on every data block read or written.
//!
//! The heart of the library is the bridge lifecycle: a cipher capability is
//! packed into a single bridge record, the record is exposed to the engine as
//! one opaque address, the engine calls the encrypt/decrypt entry points any
//! number of times, and the record is released exactly once — either by the
//! single destroy call at environment teardown, or immediately by the
//! constructing side when environment construction itself fails.
#![allow(unused_imports)]
use vstd::prelude::*;

pub mod bridge;
pub mod cipher;
pub mod env;

verus! {

/// A synchronous failure to allocate a native environment. No partial state
/// is retained when construction fails.
#[derive(Clone, Copy, Debug, PartialEq, Eq, Structural)]
pub enum Error {
    EnvCreationFailed,
}

} // verus!
