//! Metadata of a parsed bytecode module, as the parser hands it in.

use vstd::prelude::*;

verus! {

/// A value type of the bytecode type system. Only the tag matters to the
/// linker: signatures are compared element-wise.
#[derive(Debug, Clone, Copy, PartialEq, Eq, Structural)]
pub enum WasmType {
    I32,
    I64,
    F32,
    F64,
}

/// A function signature: parameter and return type lists.
#[derive(Debug)]
pub struct Signature {
    pub params: Vec<WasmType>,
    pub returns: Vec<WasmType>,
}

impl Signature {
    /// Element-wise equality of two signatures, as a spec-level statement.
    pub open spec fn matches(self, other: Signature) -> bool {
        self.params@ == other.params@ && self.returns@ == other.returns@
    }
}

/// Element-wise equality of two type lists.
pub fn types_eq(a: &Vec<WasmType>, b: &Vec<WasmType>) -> (r: bool)
    ensures
        r == (a@ == b@),
{
    if a.len() != b.len() {
        assert(a@ != b@) by {
            assert(a@.len() != b@.len());
        }
        return false;
    }
    let n = a.len();
    let mut i: usize = 0;
    while i < n
        invariant
            n == a@.len() && n == b@.len(),
            i <= n,
            forall|j: int| 0 <= j < i ==> a@[j] == b@[j],
        decreases n - i,
    {
        if a[i] != b[i] {
            return false;
        }
        i += 1;
    }
    proof {
        assert(a@ =~= b@);
    }
    true
}

/// Structural equality of two signatures: parameter and return type lists
/// element-wise equal.
pub fn sig_matches(a: &Signature, b: &Signature) -> (r: bool)
    ensures
        r == a.matches(*b),
{
    types_eq(&a.params, &b.params) && types_eq(&a.returns, &b.returns)
}

/// One per-module data initializer. The linker does not interpret it: it
/// is passed through untouched to the instance context.
#[derive(Debug)]
pub struct DataInitializer {
    pub offset: usize,
    pub data: Vec<u8>,
}

/// Read-only metadata of a parsed module, as consumed by the linker:
/// imported (host module, host name) pairs in declaration order, function
/// signatures aligned with the flat function index space (imports first,
/// then locally defined functions), and the optional flat index of the
/// start function.
#[derive(Debug)]
pub struct Module {
    pub imported_funcs: Vec<(String, String)>,
    pub signatures: Vec<Signature>,
    pub start_func: Option<usize>,
}

/// The per-instance execution context. Generated code consumes it at run
/// time; this library only carries the module's data initializers into it,
/// untouched.
#[derive(Debug)]
pub struct Instance {
    pub data_initializers: Vec<DataInitializer>,
}

impl Instance {
    /// Builds the instance context for a module from its data initializers.
    pub fn new(data_initializers: Vec<DataInitializer>) -> (r: Instance)
        ensures
            r.data_initializers == data_initializers,
    {
        Instance { data_initializers }
    }
}

} // verus!
