//! The build stage: accumulates one code-generation unit per module-defined
//! function and drives the link.
//!
//! The external code generator is a collaborator: what it produces for one
//! function — the emitted machine code and the call sites needing patching
//! — is handed in as a plain `CompiledUnit`, or as its diagnostic when
//! generation failed. Submission order becomes the module's local function
//! ordering.

use vstd::prelude::*;
use crate::compilation::{
    Compilation, FunctionType, first_local_index, local_sizes_sum, lemma_local_sizes_sum_step,
    slot_is_local, slot_offset, slot_size,
};
use crate::error::Error;
use crate::module::{DataInitializer, Instance, Module};
use crate::region::Region;
use crate::reloc::{Relocation, RelocationEntry};

verus! {

/// The outcome of generating code for one function: its machine code and
/// every call site in it that still needs patching.
#[derive(Debug)]
pub struct CompiledUnit {
    pub code: Vec<u8>,
    pub relocs: Vec<Relocation>,
}

/// The sum of the byte sizes of the first `k` retained units: the memory
/// the executable region must provide for them.
pub open spec fn units_total(contexts: Seq<(CompiledUnit, usize)>, k: int) -> int
    decreases k,
{
    if k <= 0 {
        0
    } else {
        units_total(contexts, k - 1) + contexts[k - 1].1
    }
}

/// Prefix sums of unit sizes never decrease.
pub proof fn lemma_units_total_le(contexts: Seq<(CompiledUnit, usize)>, k: int, n: int)
    requires
        0 <= k <= n <= contexts.len(),
    ensures
        units_total(contexts, k) <= units_total(contexts, n),
    decreases n,
{
    if k < n {
        lemma_units_total_le(contexts, k, n - 1);
    }
}

/// The prefix sum reads only the first `k` units: two unit lists that
/// agree there have the same sum.
pub proof fn lemma_units_total_prefix(
    s1: Seq<(CompiledUnit, usize)>,
    s2: Seq<(CompiledUnit, usize)>,
    k: int,
)
    requires
        forall|j: int| 0 <= j < k ==> s1[j] == s2[j],
    ensures
        units_total(s1, k) == units_total(s2, k),
    decreases k,
{
    if k > 0 {
        lemma_units_total_prefix(s1, s2, k - 1);
    }
}

/// The relocation entries of one unit, tagged with its emission-order
/// index.
pub open spec fn tag_unit(u: CompiledUnit, i: int) -> Seq<RelocationEntry> {
    Seq::new(
        u.relocs@.len(),
        |j: int|
            RelocationEntry {
                func: i as usize,
                offset: u.relocs@[j].offset,
                target: u.relocs@[j].func_index,
                addend: u.relocs@[j].addend,
            },
    )
}

/// Every call site of the first `k` units, in emission order.
pub open spec fn flat_relocs(contexts: Seq<(CompiledUnit, usize)>, k: int) -> Seq<RelocationEntry>
    decreases k,
{
    if k <= 0 {
        Seq::empty()
    } else {
        flat_relocs(contexts, k - 1) + tag_unit(contexts[k - 1].0, k - 1)
    }
}

/// Accumulates compiled units and then links them all into a
/// `Compilation`.
#[derive(Debug)]
pub struct Compiler {
    /// The retained units with their byte sizes, in submission order.
    pub contexts: Vec<(CompiledUnit, usize)>,
    /// The running total of all emitted sizes.
    pub total_size: usize,
}

impl Compiler {
    /// The builder's invariant: the recorded size of every unit is the
    /// length of its code, and the running total is their sum.
    pub open spec fn wf(self) -> bool {
        &&& self.total_size == units_total(self.contexts@, self.contexts@.len() as int)
        &&& forall|i: int|
            0 <= i < self.contexts@.len() ==> (#[trigger] self.contexts@[i]).1
                == self.contexts@[i].0.code@.len()
    }

    /// An empty builder.
    pub fn new() -> (r: Compiler)
        ensures
            r.wf(),
            r.contexts@.len() == 0,
            r.total_size == 0,
    {
        Self::with_capacity(0)
    }

    /// An empty builder that pre-allocates room for `capacity` units.
    pub fn with_capacity(capacity: usize) -> (r: Compiler)
        ensures
            r.wf(),
            r.contexts@.len() == 0,
            r.total_size == 0,
    {
        Compiler { contexts: Vec::with_capacity(capacity), total_size: 0 }
    }

    /// Records the outcome of generating code for one function. A
    /// successful unit is retained, in submission order, and its size joins
    /// the running total; a backend diagnostic fails the whole build, as
    /// there is no partial linking of a module with a broken function.
    pub fn define_function(&mut self, compiled: Result<CompiledUnit, String>) -> (r: Result<
        (),
        Error,
    >)
        requires
            old(self).wf(),
            compiled matches Ok(u) ==> old(self).total_size + u.code@.len() <= usize::MAX,
        ensures
            final(self).wf(),
            match compiled {
                Ok(u) => r == Ok::<(), Error>(()) && final(self).contexts@ == old(
                    self,
                ).contexts@.push((u, u.code@.len() as usize)) && final(self).total_size == old(
                    self,
                ).total_size + u.code@.len(),
                Err(_) => r == Err::<(), Error>(Error::BackendError(old(self).contexts@.len() as usize))
                    && *final(self) == *old(self),
            },
    {
        match compiled {
            Ok(unit) => {
                let code_size = unit.code.len();
                self.contexts.push((unit, code_size));
                self.total_size = self.total_size + code_size;
                proof {
                    assert(units_total(self.contexts@, self.contexts@.len() as int)
                        == units_total(old(self).contexts@, old(self).contexts@.len() as int)
                        + code_size) by {
                        lemma_units_total_prefix(
                            self.contexts@,
                            old(self).contexts@,
                            old(self).contexts@.len() as int,
                        );
                    }
                }
                Ok(())
            },
            Err(_diagnostic) => Err(Error::BackendError(self.contexts.len())),
        }
    }

    /// Links everything the builder retained: takes the executable region
    /// the memory provider produced for `total_size` bytes (`None` — the
    /// provider had no memory — is the terminal `OutOfMemory`), populates
    /// the function slots with one external slot per import followed by one
    /// local slot per unit at its prefix-sum offset, emits every unit's
    /// code into the region at that offset, collects every call site
    /// tagged with its emission-order index, and bundles module, region,
    /// instance context and slots into a not-yet-linked compilation. A
    /// zero-byte total with a zero-length region is accepted and yields an
    /// artifact with nothing to patch.
    #[verifier::loop_isolation(false)]
    pub fn compile(
        self,
        module: Module,
        data_initializers: Vec<DataInitializer>,
        region: Option<Region>,
    ) -> (r: Result<Compilation, Error>)
        requires
            self.wf(),
            module.signatures@.len() == module.imported_funcs@.len() + self.contexts@.len(),
            module.start_func matches Some(s) ==> s < module.signatures@.len(),
            region matches Some(rg) ==> rg.bytes@.len() == self.total_size && rg.base
                + rg.bytes@.len() <= u64::MAX,
            forall|i: int, j: int|
                0 <= i < self.contexts@.len() && 0 <= j < (
                #[trigger] self.contexts@[i]).0.relocs@.len() ==> {
                    let cs = #[trigger] self.contexts@[i].0.relocs@[j];
                    &&& cs.offset + 4 <= self.contexts@[i].0.code@.len()
                    &&& cs.func_index < module.imported_funcs@.len() + self.contexts@.len()
                },
        ensures
            match r {
                Ok(c) => {
                    let ni = module.imported_funcs@.len() as int;
                    let nu = self.contexts@.len() as int;
                    &&& region is Some
                    &&& c.wf()
                    &&& c.module == module
                    &&& c.instance.data_initializers == data_initializers
                    &&& c.first_local_function == ni
                    &&& c.functions@.len() == ni + nu
                    &&& forall|k: int|
                        0 <= k < ni ==> ((#[trigger] c.functions@[k]) matches
                            FunctionType::External { module: m, name: nm } && (m
                            == module.imported_funcs@[k].0 && nm == module.imported_funcs@[k].1))
                    &&& forall|k: int|
                        0 <= k < nu ==> ((#[trigger] c.functions@[ni + k]) matches
                            FunctionType::Local { offset, size } && (offset == units_total(
                            self.contexts@,
                            k,
                        ) && size == self.contexts@[k].1))
                    &&& c.region.base == region->Some_0.base
                    &&& c.region.bytes@.len() == region->Some_0.bytes@.len()
                    &&& forall|k: int, b: int|
                        0 <= k < nu && 0 <= b < self.contexts@[k].0.code@.len()
                            ==> c.region.bytes@[units_total(self.contexts@, k) + b] == (
                        #[trigger] self.contexts@[k].0.code@[b])
                    &&& c.relocations@ == flat_relocs(self.contexts@, nu)
                },
                Err(e) => e == Error::OutOfMemory && region is None,
            },
    {
        let mut reg = match region {
            None => {
                return Err(Error::OutOfMemory);
            },
            Some(rg) => rg,
        };
        let ni = module.imported_funcs.len();
        let nu = self.contexts.len();
        let ns = module.signatures.len();
        assert(ni + nu == ns);
        let mut functions: Vec<FunctionType> = Vec::with_capacity(ns);
        let mut i: usize = 0;
        while i < ni
            invariant
                ni == module.imported_funcs@.len(),
                i <= ni,
                functions@.len() == i,
                forall|k: int|
                    0 <= k < i ==> ((#[trigger] functions@[k]) matches FunctionType::External {
                        module: m,
                        name: nm,
                    } && (m == module.imported_funcs@[k].0 && nm == module.imported_funcs@[k].1)),
            decreases ni - i,
        {
            let host_module = module.imported_funcs[i].0.clone();
            let host_name = module.imported_funcs[i].1.clone();
            functions.push(FunctionType::External { module: host_module, name: host_name });
            i += 1;
        }
        let mut relocations: Vec<RelocationEntry> = Vec::new();
        let mut offset: usize = 0;
        let mut u: usize = 0;
        while u < nu
            invariant
                self.wf(),
                nu == self.contexts@.len(),
                ni == module.imported_funcs@.len(),
                u <= nu,
                functions@.len() == ni + u,
                forall|k: int|
                    0 <= k < ni ==> ((#[trigger] functions@[k]) matches FunctionType::External {
                        module: m,
                        name: nm,
                    } && (m == module.imported_funcs@[k].0 && nm == module.imported_funcs@[k].1)),
                forall|k: int|
                    ni <= k < ni + u ==> ((#[trigger] functions@[k]) matches FunctionType::Local {
                        offset: o,
                        size: s,
                    } && (o == units_total(self.contexts@, k - ni) && s == self.contexts@[k
                        - ni].1)),
                offset == units_total(self.contexts@, u as int),
                reg.base == region->Some_0.base,
                reg.bytes@.len() == region->Some_0.bytes@.len(),
                reg.bytes@.len() == self.total_size,
                forall|k: int, b: int|
                    0 <= k < u && 0 <= b < self.contexts@[k].0.code@.len() ==> reg.bytes@[
                        units_total(self.contexts@, k) + b
                    ] == (#[trigger] self.contexts@[k].0.code@[b]),
                relocations@ == flat_relocs(self.contexts@, u as int),
                forall|idx: int|
                    0 <= idx < relocations@.len() ==> {
                        let e = #[trigger] relocations@[idx];
                        &&& e.func < u
                        &&& e.offset + 4 <= self.contexts@[e.func as int].0.code@.len()
                        &&& e.target < ni + nu
                    },
            decreases nu - u,
        {
            let unit_size = self.contexts[u].1;
            proof {
                lemma_units_total_le(self.contexts@, u as int + 1, nu as int);
                assert(units_total(self.contexts@, u as int + 1) == offset + unit_size);
            }
            assert(offset + unit_size <= reg.bytes@.len());
            reg.write_bytes(offset, &self.contexts[u].0.code);
            proof {
                assert forall|k: int, b: int|
                    0 <= k < u && 0 <= b < self.contexts@[k].0.code@.len() implies reg.bytes@[
                    units_total(self.contexts@, k) + b
                ] == (#[trigger] self.contexts@[k].0.code@[b]) by {
                    lemma_units_total_le(self.contexts@, 0, k);
                    lemma_units_total_le(self.contexts@, k + 1, u as int);
                    assert(units_total(self.contexts@, k + 1) == units_total(self.contexts@, k)
                        + self.contexts@[k].1);
                    assert(units_total(self.contexts@, k) + b < offset);
                }
            }
            functions.push(FunctionType::Local { offset, size: unit_size });
            let nr = self.contexts[u].0.relocs.len();
            let ghost tagged = tag_unit(self.contexts@[u as int].0, u as int);
            let mut j: usize = 0;
            while j < nr
                invariant
                    nu == self.contexts@.len(),
                    u < nu,
                    nr == self.contexts@[u as int].0.relocs@.len(),
                    j <= nr,
                    tagged == tag_unit(self.contexts@[u as int].0, u as int),
                    relocations@ == flat_relocs(self.contexts@, u as int) + tagged.take(j as int),
                    ni == module.imported_funcs@.len(),
                    forall|idx: int|
                        0 <= idx < relocations@.len() ==> {
                            let e = #[trigger] relocations@[idx];
                            &&& e.func <= u
                            &&& e.offset + 4 <= self.contexts@[e.func as int].0.code@.len()
                            &&& e.target < ni + nu
                        },
                decreases nr - j,
            {
                let cs = self.contexts[u].0.relocs[j];
                proof {
                    assert(cs == self.contexts@[u as int].0.relocs@[j as int]);
                    assert(cs.offset + 4 <= self.contexts@[u as int].0.code@.len());
                    assert(cs.func_index < ni + nu);
                }
                relocations.push(
                    RelocationEntry {
                        func: u,
                        offset: cs.offset,
                        target: cs.func_index,
                        addend: cs.addend,
                    },
                );
                proof {
                    assert(relocations@ =~= flat_relocs(self.contexts@, u as int) + tagged.take(
                        j as int + 1,
                    ));
                }
                j += 1;
            }
            proof {
                assert(tagged.take(nr as int) =~= tagged);
                assert(flat_relocs(self.contexts@, u as int + 1) == flat_relocs(
                    self.contexts@,
                    u as int,
                ) + tagged);
            }
            offset = offset + unit_size;
            u += 1;
        }
        let instance = Instance::new(data_initializers);
        proof {
            let fseq = functions@;
            assert forall|j: int| 0 <= j < ni implies !slot_is_local(#[trigger] fseq[j]) by {}
            if (ni as int) < fseq.len() {
                assert(slot_is_local(fseq[ni as int]));
            }
            lemma_first_local_from(fseq, 0, ni as int);
            assert forall|m: int| ni <= m < fseq.len() implies slot_size(#[trigger] fseq[m])
                == self.contexts@[m - ni].1 by {}
            assert forall|k: int| ni <= k < fseq.len() implies slot_is_local(#[trigger] fseq[k])
                && slot_offset(fseq[k]) == local_sizes_sum(fseq, ni as int, k) && slot_offset(
                fseq[k],
            ) + slot_size(fseq[k]) <= reg.bytes@.len() by {
                lemma_sums_align(fseq, self.contexts@, ni as int, k);
                lemma_sums_align(fseq, self.contexts@, ni as int, k + 1);
                lemma_local_sizes_sum_step(fseq, ni as int, k + 1);
                lemma_units_total_le(self.contexts@, k + 1 - ni, nu as int);
            }
            assert forall|idx: int| 0 <= idx < relocations@.len() implies {
                let e = #[trigger] relocations@[idx];
                &&& e.func + ni < fseq.len()
                &&& e.target < fseq.len()
                &&& e.offset + 4 <= slot_size(fseq[ni + e.func])
            } by {
                let e = relocations@[idx];
                assert(slot_size(fseq[ni + e.func]) == self.contexts@[e.func as int].1);
            }
        }
        let c = Compilation::new(module, reg, functions, relocations, instance);
        Ok(c)
    }
}

/// The slots before `f` hold no local function and slot `f`, if any, does:
/// then `f` is the first local index.
proof fn lemma_first_local_from(s: Seq<FunctionType>, i: int, f: int)
    requires
        0 <= i <= f <= s.len(),
        forall|j: int| i <= j < f ==> !slot_is_local(#[trigger] s[j]),
        f < s.len() ==> slot_is_local(s[f]),
    ensures
        first_local_index(s, i) == f,
    decreases f - i,
{
    if i < f {
        lemma_first_local_from(s, i + 1, f);
    }
}

/// The emission prefix sum over the local slots equals the prefix sum over
/// the retained units they were built from.
proof fn lemma_sums_align(
    f: Seq<FunctionType>,
    contexts: Seq<(CompiledUnit, usize)>,
    first: int,
    k: int,
)
    requires
        0 <= first <= k,
        forall|m: int| first <= m < k ==> slot_size(#[trigger] f[m]) == contexts[m - first].1,
    ensures
        local_sizes_sum(f, first, k) == units_total(contexts, k - first),
    decreases k - first,
{
    lemma_local_sizes_sum_step(f, first, k);
    if k > first {
        lemma_sums_align(f, contexts, first, k - 1);
    }
}

} // verus!
