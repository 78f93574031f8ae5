//! Call-site relocations and the displacement arithmetic that patches them.
//!
//! Every call instruction the backend emits carries a 4-byte placeholder
//! operand. For a call to a sibling function the patched value is a signed
//! 32-bit displacement measured from the address just past the 4-byte
//! operand (the near-call convention of the one supported architecture);
//! for a call to a host function it is the host's absolute native address
//! truncated to 32 bits.

use vstd::prelude::*;
use vstd::arithmetic::div_mod::{lemma_fundamental_div_mod, lemma_mod_multiples_vanish};

verus! {

/// One call site as the backend reports it for a single function body:
/// the byte offset of the operand within the body, the flat index of the
/// called function, and the backend's signed addend (how many bytes past
/// the call opcode the measurement of the displacement begins).
#[derive(Debug, Clone, Copy)]
pub struct Relocation {
    pub offset: usize,
    pub func_index: usize,
    pub addend: i64,
}

/// One call site of the whole module, tagged with the emission-order index
/// of the local function whose body contains it (not its flat index: the
/// flat index adds the count of the imports that precede the locals).
#[derive(Debug, Clone, Copy)]
pub struct RelocationEntry {
    pub func: usize,
    pub offset: usize,
    pub target: usize,
    pub addend: i64,
}

/// Truncation of a mathematical integer to 32 bits, as the Euclidean
/// remainder; the value every patched operand carries.
pub open spec fn mod32(x: int) -> u32 {
    (x % 0x1_0000_0000) as u32
}

/// Truncates an absolute host address to the 32 bits of the call operand.
pub fn truncate32(x: u64) -> (v: u32)
    ensures
        v == mod32(x as int),
{
    (x % 0x1_0000_0000u64) as u32
}

/// The patched operand of a call to a sibling function: the signed 32-bit
/// displacement `target - site + addend - 4`, taken modulo `2^32`. The
/// `- 4` accounts for the near-call encoding, where the displacement is
/// measured from the address immediately after the 4-byte operand.
pub fn displacement32(target: u64, site: u64, addend: i64) -> (v: u32)
    ensures
        v == mod32(target - site + addend - 4),
{
    let d1: u64 = target.wrapping_sub(site);
    let d2: u64 = d1.wrapping_add_signed(addend);
    let d3: u64 = d2.wrapping_sub(4);
    let v: u32 = (d3 % 0x1_0000_0000u64) as u32;
    proof {
        let e: int = target - site + addend - 4;
        let t64: int = 0x1_0000_0000_0000_0000;
        let t32: int = 0x1_0000_0000;
        assert(d1 == target - site || d1 == target - site + t64);
        assert(d2 == d1 + addend || d2 == d1 + addend - t64 || d2 == d1 + addend + t64);
        assert(d3 == d2 - 4 || d3 == d2 - 4 + t64);
        if d3 == e {
            lemma_shift_mod32(d3 as int, e, 0);
        } else if d3 == e + t64 {
            lemma_shift_mod32(d3 as int, e, 1);
        } else if d3 == e + 2 * t64 {
            lemma_shift_mod32(d3 as int, e, 2);
        } else if d3 == e + 3 * t64 {
            lemma_shift_mod32(d3 as int, e, 3);
        } else {
            assert(d3 == e - t64);
            lemma_shift_mod32(d3 as int, e, -1);
        }
        assert(d3 as int % t32 == e % t32);
    }
    v
}

/// Two integers a multiple of `2^64` apart agree modulo `2^32`.
proof fn lemma_shift_mod32(d: int, e: int, k: int)
    requires
        d == e + k * 0x1_0000_0000_0000_0000,
    ensures
        d % 0x1_0000_0000 == e % 0x1_0000_0000,
{
    assert(d == 0x1_0000_0000 * (k * 0x1_0000_0000) + e) by (nonlinear_arith)
        requires
            d == e + k * 0x1_0000_0000_0000_0000,
    ;
    lemma_mod_multiples_vanish(k * 0x1_0000_0000, e, 0x1_0000_0000);
}

/// A self-call resolves back to the function's own emitted start: adding
/// the call-site address and the operand-width correction to the patched
/// displacement yields the target address again, modulo the 32 bits of the
/// operand. This holds for every addend the backend reports.
pub proof fn lemma_self_call_round_trip(target: u64, site: u64, addend: i64, v: u32)
    requires
        v == mod32(target - site + addend - 4),
    ensures
        (v + site + 4 - addend) % 0x1_0000_0000 == target as int % 0x1_0000_0000,
{
    let t32: int = 0x1_0000_0000;
    let e: int = target - site + addend - 4;
    lemma_fundamental_div_mod(e, t32);
    assert(v == e - t32 * (e / t32));
    let q = e / t32;
    assert(v + site + 4 - addend == t32 * (-q) + target) by {
        assert(t32 * (-q) == -(t32 * q)) by (nonlinear_arith);
    }
    lemma_mod_multiples_vanish(-q, target as int, t32);
}

} // verus!
