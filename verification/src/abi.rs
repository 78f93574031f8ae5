//! The host-function table: the entries a call to an imported function can
//! resolve to.
//!
//! The table is injected into the linker as a plain value rather than
//! reached as a global: an entry carries the host name, the native address
//! of the host function, and its signature. Only imports from the single
//! reserved host module are accepted.

use vstd::prelude::*;
use crate::module::{Signature, sig_matches};

verus! {

/// One host-provided function: its name within the reserved host module,
/// its absolute native address, and its signature as declared by the host.
#[derive(Debug)]
pub struct AbiEntry {
    pub name: String,
    pub addr: u64,
    pub sig: Signature,
}

impl AbiEntry {
    /// Whether an import's declared signature structurally matches this
    /// host entry's signature.
    pub fn same_sig(&self, imported: &Signature) -> (r: bool)
        ensures
            r == self.sig.matches(*imported),
    {
        sig_matches(&self.sig, imported)
    }
}

/// The single host-module name under which host functions are reachable.
pub open spec fn reserved_module() -> Seq<char> {
    "abi"@
}

/// Whether a host-module name is the one reserved name the linker accepts.
pub fn is_reserved_module(s: &String) -> (r: bool)
    ensures
        r == (s@ == reserved_module()),
{
    let reserved: String = "abi".to_owned();
    *s == reserved
}

/// The entry a host name resolves to: the first entry of the table whose
/// name equals it, if any.
pub open spec fn abi_lookup(table: Seq<AbiEntry>, name: Seq<char>) -> Option<AbiEntry>
    decreases table.len(),
{
    if table.len() == 0 {
        None
    } else if table[0].name@ == name {
        Some(table[0])
    } else {
        abi_lookup(table.drop_first(), name)
    }
}

proof fn lemma_abi_lookup_hit(table: Seq<AbiEntry>, name: Seq<char>, i: int)
    requires
        0 <= i < table.len(),
        table[i].name@ == name,
        forall|j: int| 0 <= j < i ==> table[j].name@ != name,
    ensures
        abi_lookup(table, name) == Some(table[i]),
    decreases i,
{
    if i == 0 {
    } else {
        lemma_abi_lookup_hit(table.drop_first(), name, i - 1);
    }
}

proof fn lemma_abi_lookup_miss(table: Seq<AbiEntry>, name: Seq<char>)
    requires
        forall|j: int| 0 <= j < table.len() ==> table[j].name@ != name,
    ensures
        abi_lookup(table, name) is None,
    decreases table.len(),
{
    if table.len() > 0 {
        lemma_abi_lookup_miss(table.drop_first(), name);
    }
}

/// Finds the first table entry with the given host name, as the index of
/// that entry.
pub fn abi_find(table: &Vec<AbiEntry>, name: &String) -> (r: Option<usize>)
    ensures
        match r {
            Some(i) => i < table@.len() && abi_lookup(table@, name@) == Some(table@[i as int]),
            None => abi_lookup(table@, name@) is None,
        },
{
    let n = table.len();
    let mut i: usize = 0;
    while i < n
        invariant
            n == table@.len(),
            i <= n,
            forall|j: int| 0 <= j < i ==> table@[j].name@ != name@,
        decreases n - i,
    {
        if table[i].name == *name {
            proof {
                lemma_abi_lookup_hit(table@, name@, i as int);
            }
            return Some(i);
        }
        i += 1;
    }
    proof {
        lemma_abi_lookup_miss(table@, name@);
    }
    None
}

} // verus!
