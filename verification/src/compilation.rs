//! The linked module under construction: function slots, call-site
//! resolution, relocation patching, and the finished runnable artifact.

use vstd::prelude::*;
use crate::abi::{AbiEntry, abi_lookup, abi_find, is_reserved_module, reserved_module};
use crate::error::Error;
use crate::module::{Instance, Module};
use crate::region::{Region, write4};
use crate::reloc::{RelocationEntry, displacement32, mod32, truncate32};

verus! {

/// One function visible to the module, in the flat index space shared by
/// imports and locally defined functions. Every `External` slot precedes
/// every `Local` slot; a `Local` slot records where its body was emitted
/// into the executable region.
#[derive(Debug, PartialEq)]
pub enum FunctionType {
    Local { offset: usize, size: usize },
    External { module: String, name: String },
}

/// Whether a slot is a locally defined function.
pub open spec fn slot_is_local(f: FunctionType) -> bool {
    match f {
        FunctionType::Local { .. } => true,
        FunctionType::External { .. } => false,
    }
}

/// The emission offset of a local slot (zero for an external one).
pub open spec fn slot_offset(f: FunctionType) -> int {
    match f {
        FunctionType::Local { offset, .. } => offset as int,
        FunctionType::External { .. } => 0,
    }
}

/// The body size of a local slot (zero for an external one).
pub open spec fn slot_size(f: FunctionType) -> int {
    match f {
        FunctionType::Local { size, .. } => size as int,
        FunctionType::External { .. } => 0,
    }
}

/// The sum of the body sizes of the slots in `[first, k)`: the prefix sum
/// that assigns every local function its emission offset. Kept opaque so
/// that reasoning about one slot does not unfold the sums of all earlier
/// ones; `lemma_local_sizes_sum_step` exposes one step.
#[verifier::opaque]
pub open spec fn local_sizes_sum(functions: Seq<FunctionType>, first: int, k: int) -> int
    decreases k - first,
{
    if k <= first {
        0
    } else {
        local_sizes_sum(functions, first, k - 1) + slot_size(functions[k - 1])
    }
}

/// One unfolding step of the emission prefix sum.
pub proof fn lemma_local_sizes_sum_step(functions: Seq<FunctionType>, first: int, k: int)
    ensures
        k <= first ==> local_sizes_sum(functions, first, k) == 0,
        k > first ==> local_sizes_sum(functions, first, k) == local_sizes_sum(
            functions,
            first,
            k - 1,
        ) + slot_size(functions[k - 1]),
{
    reveal(local_sizes_sum);
}

/// The flat index of the first local slot: the least index holding a
/// `Local`, or the slot count when the module defines no function of its
/// own (then there is nothing to emit or to patch).
pub open spec fn first_local_index(functions: Seq<FunctionType>, k: int) -> int
    decreases functions.len() - k,
{
    if k < 0 || k >= functions.len() {
        functions.len() as int
    } else if slot_is_local(functions[k]) {
        k
    } else {
        first_local_index(functions, k + 1)
    }
}

/// The compiled function bodies of a module, emitted into one executable
/// region and not yet (or just) linked.
#[derive(Debug)]
pub struct Compilation {
    /// The module this is instantiated from.
    pub module: Module,
    pub instance: Instance,
    pub region: Region,
    /// Every function of the module, imports first, then locals in
    /// emission order; local bodies are mapped onto `region`.
    pub functions: Vec<FunctionType>,
    pub first_local_function: usize,
    /// The call sites still to be patched.
    pub relocations: Vec<RelocationEntry>,
}

impl Compilation {
    /// The structural invariant of a compilation: imports precede locals,
    /// every local body lies inside the region at its prefix-sum offset,
    /// signatures align with the flat index space, every call site lies
    /// inside its function's body and names an existing target, and the
    /// whole region is addressable without wrapping.
    pub open spec fn wf(self) -> bool {
        &&& self.first_local_function <= self.functions@.len()
        &&& self.module.signatures@.len() == self.functions@.len()
        &&& self.region.base + self.region.bytes@.len() <= u64::MAX
        &&& forall|k: int|
            0 <= k < self.first_local_function ==> !slot_is_local(#[trigger] self.functions@[k])
        &&& forall|k: int|
            self.first_local_function <= k < self.functions@.len() ==> {
                &&& slot_is_local(#[trigger] self.functions@[k])
                &&& slot_offset(self.functions@[k]) == local_sizes_sum(
                    self.functions@,
                    self.first_local_function as int,
                    k,
                )
                &&& slot_offset(self.functions@[k]) + slot_size(self.functions@[k])
                    <= self.region.bytes@.len()
            }
        &&& forall|k: int|
            0 <= k < self.relocations@.len() ==> {
                let r = #[trigger] self.relocations@[k];
                &&& r.func + self.first_local_function < self.functions@.len()
                &&& r.target < self.functions@.len()
                &&& r.offset + 4 <= slot_size(
                    self.functions@[self.first_local_function + r.func],
                )
            }
        &&& (self.module.start_func matches Some(s) ==> s < self.functions@.len())
    }

    /// What flat index `idx` resolves to: the absolute address of a local
    /// body, or the host entry's address for an import, together with a
    /// flag saying which of the two it was. An import fails to resolve when
    /// its host-module name is not the reserved one or its name is absent
    /// from the table, and is refused when the host signature differs from
    /// the declared one.
    pub open spec fn resolve(self, abi: Seq<AbiEntry>, idx: int) -> Result<(int, bool), Error> {
        match self.functions@[idx] {
            FunctionType::Local { offset, size } => Ok((self.region.base + offset, true)),
            FunctionType::External { module, name } => {
                if module@ != reserved_module() {
                    Err(Error::UnresolvedImport(idx as usize))
                } else {
                    match abi_lookup(abi, name@) {
                        None => Err(Error::UnresolvedImport(idx as usize)),
                        Some(e) => {
                            if e.sig.matches(self.module.signatures@[idx]) {
                                Ok((e.addr as int, false))
                            } else {
                                Err(Error::SignatureMismatch(idx as usize))
                            }
                        },
                    }
                }
            },
        }
    }

    /// Resolves a flat function index to an absolute address and a flag
    /// saying whether the target is locally defined, consulting the host
    /// table for imports exactly as `resolve` states.
    pub fn get_function_addr(&self, index: usize, abi: &Vec<AbiEntry>) -> (r: Result<
        (u64, bool),
        Error,
    >)
        requires
            self.wf(),
            index < self.functions@.len(),
        ensures
            match r {
                Ok((addr, is_local)) => self.resolve(abi@, index as int) == Ok::<(int, bool), Error>(
                    (addr as int, is_local),
                ),
                Err(e) => self.resolve(abi@, index as int) == Err::<(int, bool), Error>(e),
            },
    {
        match &self.functions[index] {
            FunctionType::Local { offset, size: _ } => {
                assert(self.region.base + *offset <= u64::MAX);
                Ok((self.region.base + (*offset as u64), true))
            },
            FunctionType::External { module, name } => {
                if !is_reserved_module(module) {
                    return Err(Error::UnresolvedImport(index));
                }
                let entry = match abi_find(abi, name) {
                    None => {
                        return Err(Error::UnresolvedImport(index));
                    },
                    Some(i) => &abi[i],
                };
                if !entry.same_sig(&self.module.signatures[index]) {
                    return Err(Error::SignatureMismatch(index));
                }
                Ok((entry.addr, false))
            },
        }
    }

    /// The region-relative offset of the 4-byte operand that call site `k`
    /// patches.
    pub open spec fn entry_site(self, k: int) -> int {
        let r = self.relocations@[k];
        slot_offset(self.functions@[self.first_local_function + r.func]) + r.offset
    }

    /// What resolving call site `k` yields: the operand's region-relative
    /// offset and the 4-byte value to write there — a relative displacement
    /// for a local target, the truncated absolute address for a host
    /// target — or the error that resolving the target raises. The value is
    /// a function of the slots and the entry alone, never of the region's
    /// prior contents.
    pub open spec fn entry_result(self, abi: Seq<AbiEntry>, k: int) -> Result<(int, u32), Error> {
        let r = self.relocations@[k];
        match self.resolve(abi, r.target as int) {
            Err(e) => Err(e),
            Ok((taddr, is_local)) => {
                let site = self.entry_site(k);
                if is_local {
                    Ok((site, mod32(taddr - (self.region.base + site) + r.addend - 4)))
                } else {
                    Ok((site, mod32(taddr)))
                }
            },
        }
    }

    /// The first call site among the first `k` that fails to resolve, if
    /// any. Relocation stops there; nothing is written for a failing site.
    pub open spec fn first_fail_before(self, abi: Seq<AbiEntry>, k: int) -> Option<int>
        decreases k,
    {
        if k <= 0 {
            None
        } else {
            match self.first_fail_before(abi, k - 1) {
                Some(j) => Some(j),
                None => if self.entry_result(abi, k - 1) is Err {
                    Some(k - 1)
                } else {
                    None
                },
            }
        }
    }

    /// The region contents after patching the first `k` call sites into
    /// `bytes`, in order, skipping none but writing nothing for a site that
    /// fails to resolve.
    pub open spec fn apply_upto(self, bytes: Seq<u8>, abi: Seq<AbiEntry>, k: int) -> Seq<u8>
        decreases k,
    {
        if k <= 0 {
            bytes
        } else {
            let prev = self.apply_upto(bytes, abi, k - 1);
            match self.entry_result(abi, k - 1) {
                Ok((off, v)) => write4(prev, off, v),
                Err(_) => prev,
            }
        }
    }

    /// Once a call site fails to resolve, it is the first failure of every
    /// longer prefix.
    proof fn lemma_first_fail_stops(self, abi: Seq<AbiEntry>, i: int, n: int)
        requires
            self.first_fail_before(abi, i) is None,
            self.entry_result(abi, i) is Err,
            0 <= i < n,
        ensures
            self.first_fail_before(abi, n) == Some(i),
        decreases n,
    {
        if i + 1 < n {
            self.lemma_first_fail_stops(abi, i, n - 1);
        }
    }

    /// Patches every call site of the compilation into the region, in
    /// order: a relative displacement for each local target, a truncated
    /// absolute host address for each external target. Stops at the first
    /// call site whose target fails to resolve and returns its error,
    /// leaving that site and all later ones unwritten. Every function body
    /// must already be emitted: relocation is a distinct, later pass.
    #[verifier::rlimit(100)]
    pub fn relocate(&mut self, abi: &Vec<AbiEntry>) -> (r: Result<(), Error>)
        requires
            old(self).wf(),
        ensures
            final(self).module == old(self).module,
            final(self).instance == old(self).instance,
            final(self).functions == old(self).functions,
            final(self).first_local_function == old(self).first_local_function,
            final(self).relocations == old(self).relocations,
            final(self).region.base == old(self).region.base,
            final(self).wf(),
            match old(self).first_fail_before(abi@, old(self).relocations@.len() as int) {
                None => r == Ok::<(), Error>(())
                    && final(self).region.bytes@
                    == old(self).apply_upto(old(self).region.bytes@, abi@, old(self).relocations@.len() as int),
                Some(j) => r == Err::<(), Error>(old(self).entry_result(abi@, j)->Err_0)
                    && final(self).region.bytes@
                    == old(self).apply_upto(old(self).region.bytes@, abi@, j),
            },
    {
        let n = self.relocations.len();
        let mut i: usize = 0;
        while i < n
            invariant
                old(self).wf(),
                self.wf(),
                n == self.relocations@.len(),
                i <= n,
                self.module == old(self).module,
                self.instance == old(self).instance,
                self.functions == old(self).functions,
                self.first_local_function == old(self).first_local_function,
                self.relocations == old(self).relocations,
                self.region.base == old(self).region.base,
                self.region.bytes@.len() == old(self).region.bytes@.len(),
                old(self).first_fail_before(abi@, i as int) is None,
                self.region.bytes@ == old(self).apply_upto(old(self).region.bytes@, abi@, i as int),
            decreases n - i,
        {
            let r = self.relocations[i];
            let nf = self.functions.len();
            assert(self.first_local_function + r.func < nf);
            let body_index = self.first_local_function + r.func;
            let (target_addr, target_is_local) = match self.get_function_addr(r.target, abi) {
                Ok(p) => p,
                Err(e) => {
                    proof {
                        assert(old(self).resolve(abi@, r.target as int) == self.resolve(
                            abi@,
                            r.target as int,
                        ));
                        assert(old(self).entry_result(abi@, i as int) == Err::<(int, u32), Error>(
                            e,
                        ));
                        old(self).lemma_first_fail_stops(abi@, i as int, n as int);
                    }
                    return Err(e);
                },
            };
            // every slot at or past first_local_function is Local, so the
            // second arm is unreachable
            let body_offset: usize = match &self.functions[body_index] {
                FunctionType::Local { offset, .. } => *offset,
                FunctionType::External { .. } => {
                    proof {
                        assert(false);
                    }
                    0
                },
            };
            let region_len = self.region.bytes.len();
            assert(body_offset + r.offset + 4 <= region_len);
            let site_off: usize = body_offset + r.offset;
            let site_addr: u64 = self.region.base + (site_off as u64);
            let value: u32 = if target_is_local {
                displacement32(target_addr, site_addr, r.addend)
            } else {
                truncate32(target_addr)
            };
            proof {
                assert(old(self).resolve(abi@, r.target as int) == self.resolve(
                    abi@,
                    r.target as int,
                ));
                assert(old(self).entry_site(i as int) == site_off as int);
                assert(old(self).entry_result(abi@, i as int) == Ok::<(int, u32), Error>(
                    (site_off as int, value),
                ));
            }
            self.region.write_u32_le(site_off, value);
            proof {
                assert(self.region.bytes@ == old(self).apply_upto(
                    old(self).region.bytes@,
                    abi@,
                    i + 1 as int,
                ));
            }
            i += 1;
        }
        Ok(())
    }

    /// What resolving the module's start function yields once relocation
    /// has succeeded: its entry address, or `MissingEntryPoint` when the
    /// module designates none.
    pub open spec fn link_entry(self, abi: Seq<AbiEntry>) -> Result<int, Error> {
        match self.module.start_func {
            None => Err(Error::MissingEntryPoint),
            Some(s) => match self.resolve(abi, s as int) {
                Ok((addr, is_local)) => Ok(addr),
                Err(e) => Err(e),
            },
        }
    }

    /// The outcome of linking: the first relocation failure if any, and
    /// only otherwise — the region then already fully relocated — the
    /// resolution of the start function.
    pub open spec fn link_result(self, abi: Seq<AbiEntry>) -> Result<int, Error> {
        match self.first_fail_before(abi, self.relocations@.len() as int) {
            Some(j) => Err(self.entry_result(abi, j)->Err_0),
            None => self.link_entry(abi),
        }
    }

    /// Emits the runnable artifact: patches every call site, then — only
    /// with the region fully relocated — resolves the module's designated
    /// start function to its entry address. A relocation failure, an absent
    /// start function and an unresolvable start function are each terminal:
    /// no partially linked artifact escapes.
    pub fn emit(self, abi: &Vec<AbiEntry>) -> (r: Result<Code, Error>)
        requires
            self.wf(),
        ensures
            match r {
                Ok(code) => {
                    &&& self.link_result(abi@) == Ok::<int, Error>(code.start_addr as int)
                    &&& code.module == self.module
                    &&& code.instance == self.instance
                    &&& code.region.base == self.region.base
                    &&& code.region.bytes@ == self.apply_upto(
                        self.region.bytes@,
                        abi@,
                        self.relocations@.len() as int,
                    )
                },
                Err(e) => self.link_result(abi@) == Err::<int, Error>(e),
            },
    {
        let mut this = self;
        match this.relocate(abi) {
            Ok(()) => {},
            Err(e) => {
                return Err(e);
            },
        }
        let start_index = match this.module.start_func {
            None => {
                return Err(Error::MissingEntryPoint);
            },
            Some(s) => s,
        };
        let (start_addr, _is_local) = match this.get_function_addr(start_index, abi) {
            Ok(p) => p,
            Err(e) => {
                proof {
                    assert(self.resolve(abi@, start_index as int) == this.resolve(
                        abi@,
                        start_index as int,
                    ));
                }
                return Err(e);
            },
        };
        proof {
            assert(self.resolve(abi@, start_index as int) == this.resolve(
                abi@,
                start_index as int,
            ));
        }
        Ok(Code { module: this.module, region: this.region, instance: this.instance, start_addr })
    }

    /// Collects the compiled bodies, the executable region and the computed
    /// relocations into a not-yet-linked compilation, recording the flat
    /// index of the first local slot once. A module with no local function
    /// records the slot count itself, so that nothing is emitted or
    /// patched.
    pub fn new(
        module: Module,
        region: Region,
        functions: Vec<FunctionType>,
        relocations: Vec<RelocationEntry>,
        instance: Instance,
    ) -> (r: Compilation)
        requires
            (Compilation {
                first_local_function: first_local_index(functions@, 0) as usize,
                module,
                region,
                functions,
                relocations,
                instance,
            }).wf(),
        ensures
            r.module == module,
            r.region == region,
            r.functions == functions,
            r.relocations == relocations,
            r.instance == instance,
            r.first_local_function == first_local_index(functions@, 0),
            r.wf(),
    {
        let first_local_function = find_first_local(&functions);
        Compilation { module, region, functions, first_local_function, relocations, instance }
    }
}

/// Scans the slots once for the first locally defined function.
fn find_first_local(functions: &Vec<FunctionType>) -> (r: usize)
    ensures
        r as int == first_local_index(functions@, 0),
{
    let n = functions.len();
    let mut i: usize = 0;
    while i < n
        invariant
            n == functions@.len(),
            i <= n,
            first_local_index(functions@, 0) == first_local_index(functions@, i as int),
        decreases n - i,
    {
        match &functions[i] {
            FunctionType::Local { .. } => {
                return i;
            },
            FunctionType::External { .. } => {},
        }
        i += 1;
    }
    n
}

/// The finished, linked, immutable, runnable artifact: the module, its
/// fully patched executable region, its instance context and the absolute
/// address of its entry point. After construction nothing mutates the
/// region any more.
#[derive(Debug)]
pub struct Code {
    pub module: Module,
    pub region: Region,
    pub instance: Instance,
    pub start_addr: u64,
}

/// Local functions are laid out contiguously: the first local body starts
/// at offset zero, and each later body starts exactly where the previous
/// one ends — no overlap and no gap beyond the recorded sizes.
pub proof fn lemma_local_layout_contiguous(c: Compilation)
    requires
        c.wf(),
    ensures
        c.first_local_function < c.functions@.len() ==> slot_offset(
            c.functions@[c.first_local_function as int],
        ) == 0,
        forall|k: int|
            c.first_local_function < k < c.functions@.len() ==> slot_offset(
                #[trigger] c.functions@[k],
            ) == slot_offset(c.functions@[k - 1]) + slot_size(c.functions@[k - 1]),
{
    let first = c.first_local_function as int;
    if first < c.functions@.len() {
        lemma_local_sizes_sum_step(c.functions@, first, first);
    }
    assert forall|k: int| c.first_local_function < k < c.functions@.len() implies slot_offset(
        #[trigger] c.functions@[k],
    ) == slot_offset(c.functions@[k - 1]) + slot_size(c.functions@[k - 1]) by {
        lemma_local_sizes_sum_step(c.functions@, first, k);
    }
}

/// A self-call's patched displacement resolves back to the calling
/// function's own emitted start: adding the call-site address and the
/// operand-width correction to the patched value yields the function's
/// start address, modulo the 32 bits of the operand, for every addend the
/// backend reports.
pub proof fn lemma_self_call_resolves_to_own_start(c: Compilation, abi: Seq<AbiEntry>, k: int)
    requires
        c.wf(),
        0 <= k < c.relocations@.len(),
        c.relocations@[k].target == c.first_local_function + c.relocations@[k].func,
    ensures
        c.entry_result(abi, k) is Ok,
        ({
            let r = c.relocations@[k];
            let site = c.region.base + c.entry_site(k);
            let v = c.entry_result(abi, k)->Ok_0.1;
            let start = c.region.base + slot_offset(c.functions@[r.target as int]);
            (v + site + 4 - r.addend) % 0x1_0000_0000 == start % 0x1_0000_0000
        }),
{
    let r = c.relocations@[k];
    let site = c.region.base + c.entry_site(k);
    let start = c.region.base + slot_offset(c.functions@[r.target as int]);
    assert(slot_is_local(c.functions@[r.target as int]));
    let v = c.entry_result(abi, k)->Ok_0.1;
    assert(v == mod32(start - site + r.addend - 4));
    assert(0 <= start <= u64::MAX);
    assert(0 <= site <= u64::MAX);
    crate::reloc::lemma_self_call_round_trip(start as u64, site as u64, r.addend, v);
}

/// For an import whose declared signature does not element-wise equal its
/// host entry's signature, resolving the call site fails with
/// `SignatureMismatch`, and relocation writes nothing to the region for
/// that call site.
pub proof fn lemma_signature_mismatch_writes_nothing(
    c: Compilation,
    abi: Seq<AbiEntry>,
    k: int,
    bytes: Seq<u8>,
)
    requires
        0 <= k < c.relocations@.len(),
        ({
            let t = c.relocations@[k].target as int;
            c.functions@[t] matches FunctionType::External { module, name }
                && module@ == reserved_module()
                && (abi_lookup(abi, name@) matches Some(e)
                && !e.sig.matches(c.module.signatures@[t]))
        }),
    ensures
        c.entry_result(abi, k) == Err::<(int, u32), Error>(
            Error::SignatureMismatch(c.relocations@[k].target),
        ),
        c.apply_upto(bytes, abi, k + 1) == c.apply_upto(bytes, abi, k),
{
}

/// A module that designates no start function fails with
/// `MissingEntryPoint`, and only once every call site has been resolved
/// and patched: relocation strictly precedes entry-point resolution.
pub proof fn lemma_missing_entry_point_after_relocation(c: Compilation, abi: Seq<AbiEntry>)
    requires
        c.first_fail_before(abi, c.relocations@.len() as int) is None,
        c.module.start_func is None,
    ensures
        c.link_result(abi) == Err::<int, Error>(Error::MissingEntryPoint),
{
}

/// The four bytes patched by call site `k` cover byte `j` of a region of
/// length `len`.
pub open spec fn entry_covers(
    c: Compilation,
    abi: Seq<AbiEntry>,
    k: int,
    j: int,
    len: int,
) -> bool {
    &&& c.entry_result(abi, k) is Ok
    &&& ({
        let off = c.entry_result(abi, k)->Ok_0.0;
        0 <= off && off + 4 <= len && off <= j < off + 4
    })
}

/// Patching never changes the region's length.
pub proof fn lemma_apply_len(c: Compilation, bytes: Seq<u8>, abi: Seq<AbiEntry>, k: int)
    ensures
        c.apply_upto(bytes, abi, k).len() == bytes.len(),
    decreases k,
{
    if k > 0 {
        lemma_apply_len(c, bytes, abi, k - 1);
    }
}

/// A byte that no patched window covers keeps its prior value.
proof fn lemma_apply_outside(c: Compilation, bytes: Seq<u8>, abi: Seq<AbiEntry>, k: int, j: int)
    requires
        0 <= j < bytes.len(),
        forall|m: int| 0 <= m < k ==> !entry_covers(c, abi, m, j, bytes.len() as int),
    ensures
        c.apply_upto(bytes, abi, k)[j] == bytes[j],
    decreases k,
{
    if k > 0 {
        lemma_apply_outside(c, bytes, abi, k - 1, j);
        lemma_apply_len(c, bytes, abi, k - 1);
        let prev = c.apply_upto(bytes, abi, k - 1);
        assert(!entry_covers(c, abi, k - 1, j, bytes.len() as int));
        match c.entry_result(abi, k - 1) {
            Ok((off, v)) => {
                if 0 <= off && off + 4 <= prev.len() {
                    crate::region::lemma_write4_outside(prev, off, v, j);
                }
            },
            Err(_) => {},
        }
    }
}

/// A byte that some patched window covers carries the same value whatever
/// the region held before patching: the patch values are functions of the
/// slots and entries alone.
proof fn lemma_apply_agree(
    c: Compilation,
    b1: Seq<u8>,
    b2: Seq<u8>,
    abi: Seq<AbiEntry>,
    k: int,
    j: int,
)
    requires
        b1.len() == b2.len(),
        0 <= j < b1.len(),
        exists|m: int| 0 <= m < k && entry_covers(c, abi, m, j, b1.len() as int),
    ensures
        c.apply_upto(b1, abi, k)[j] == c.apply_upto(b2, abi, k)[j],
    decreases k,
{
    let len = b1.len() as int;
    lemma_apply_len(c, b1, abi, k - 1);
    lemma_apply_len(c, b2, abi, k - 1);
    let p1 = c.apply_upto(b1, abi, k - 1);
    let p2 = c.apply_upto(b2, abi, k - 1);
    if entry_covers(c, abi, k - 1, j, len) {
        let off = c.entry_result(abi, k - 1)->Ok_0.0;
        let v = c.entry_result(abi, k - 1)->Ok_0.1;
        crate::region::lemma_write4_inside(p1, off, v, j);
        crate::region::lemma_write4_inside(p2, off, v, j);
    } else {
        let m = choose|m: int| 0 <= m < k && entry_covers(c, abi, m, j, len);
        assert(m < k - 1);
        lemma_apply_agree(c, b1, b2, abi, k - 1, j);
        match c.entry_result(abi, k - 1) {
            Ok((off, v)) => {
                if 0 <= off && off + 4 <= len {
                    crate::region::lemma_write4_outside(p1, off, v, j);
                    crate::region::lemma_write4_outside(p2, off, v, j);
                }
            },
            Err(_) => {},
        }
    }
}

/// Relocation resolution is idempotent: running the whole patching pass a
/// second time over an already-patched region changes nothing, byte for
/// byte, because every patched value is a pure function of the slot
/// positions and the relocation entries, never of the region's prior
/// contents.
pub proof fn lemma_relocation_idempotent(c: Compilation, abi: Seq<AbiEntry>, bytes: Seq<u8>)
    ensures
        c.apply_upto(
            c.apply_upto(bytes, abi, c.relocations@.len() as int),
            abi,
            c.relocations@.len() as int,
        ) == c.apply_upto(bytes, abi, c.relocations@.len() as int),
{
    let n = c.relocations@.len() as int;
    let a1 = c.apply_upto(bytes, abi, n);
    let a2 = c.apply_upto(a1, abi, n);
    lemma_apply_len(c, bytes, abi, n);
    lemma_apply_len(c, a1, abi, n);
    assert forall|j: int| 0 <= j < a1.len() implies a2[j] == a1[j] by {
        if exists|m: int| 0 <= m < n && entry_covers(c, abi, m, j, a1.len() as int) {
            lemma_apply_agree(c, a1, bytes, abi, n, j);
        } else {
            lemma_apply_outside(c, a1, abi, n, j);
        }
    }
    assert(a2 =~= a1);
}

} // verus!
