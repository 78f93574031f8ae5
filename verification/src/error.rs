//! Terminal errors of the build and link stages.

use vstd::prelude::*;

verus! {

/// Every failure of the build or link stage. All are terminal for the
/// attempt that raised them: no partially linked artifact is ever handed
/// out. Each variant carries the flat function index it concerns, where
/// one exists, so a caller can produce a diagnostic.
#[derive(Debug, Clone, Copy, PartialEq, Eq, Structural)]
pub enum Error {
    /// Code generation failed for the unit with this submission index.
    BackendError(usize),
    /// The executable region could not be allocated.
    OutOfMemory,
    /// An imported function names an unknown host module, or a host name
    /// absent from the host table; carries the import's flat index.
    UnresolvedImport(usize),
    /// A host entry's signature differs from the import's declared
    /// signature; carries the import's flat index.
    SignatureMismatch(usize),
    /// The module's start function is required but absent.
    MissingEntryPoint,
}

} // verus!
