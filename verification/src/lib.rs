//! Host-side runtime for co-simulation modules that speak a fixed
//! WebAssembly ABI: eight exported entry points driven over the guest's
//! linear memory with length-prefixed binary messages.
//!
//! The crate is organised in three layers, leaves first: a sandbox adapter
//! over the embedded engine (`sandbox`), a wire codec for the binary
//! messages (`codec`), and the instance manager that drives the protocol
//! (`runtime`).  A reference guest, an adder, lives in `adder` and `guest`
//! as a worked example of the contract the host depends on.

pub mod types;
pub mod codec;
pub mod validate;
pub mod adder;
pub mod guest;
pub mod sandbox;
pub mod runtime;
