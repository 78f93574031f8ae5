//! Linking and loading stage of an in-kernel WebAssembly execution engine.
//!
//! The library places already-generated native function bodies into one
//! contiguous executable region, resolves every call-site relocation (to
//! sibling functions and to host-provided functions), patches the machine
//! code in place, and packages the result into an immutable, runnable
//! artifact with a resolved entry point.
//!
//! The code generation backend, the executable-memory provider and the
//! host-function table are collaborators outside this library: their
//! outputs (function bodies, relocation sites, a base address, host
//! entries) are handed in as plain values, so that everything the linker
//! decides and computes is verified.

pub mod error;
pub mod module;
pub mod region;
pub mod reloc;
pub mod abi;
pub mod compilation;
pub mod compiler;
pub mod bump;
