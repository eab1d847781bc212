//! The SysV x86-64 convention: two register-spill tracks (integer and
//! vector class) inside one register save area, with a shared overflow
//! stack that takes a class's arguments once its register budget is spent.

use vstd::prelude::*;
use crate::bytes::{le_val, pow256, read_le};
use crate::kind::Kind;

verus! {

/// Bytes of the register save area holding spilled integer registers:
/// six 8-byte registers.
pub const GP_LIMIT: u32 = 48;

/// End of the vector-register part of the register save area: the
/// integer part plus eight 16-byte vector registers.
pub const FP_LIMIT: u32 = 176;

/// `a` rounded up to the next multiple of `n`.
pub open spec fn round_up(a: int, n: int) -> int {
    if a % n == 0 {
        a
    } else {
        a + n - a % n
    }
}

/// Rounding up lands on the next multiple of `n`, never further than
/// one whole `n` away.
pub proof fn lemma_round_up(a: int, n: int)
    requires
        n > 0,
    ensures
        a <= round_up(a, n) < a + n,
        round_up(a, n) % n == 0,
{
    vstd::arithmetic::div_mod::lemma_fundamental_div_mod(a, n);
    vstd::arithmetic::div_mod::lemma_mod_multiples_basic(a / n, n);
    vstd::arithmetic::div_mod::lemma_mod_multiples_basic(a / n + 1, n);
    assert(n * (a / n) == (a / n) * n) by (nonlinear_arith);
    assert(n * (a / n + 1) == (a / n + 1) * n) by (nonlinear_arith);
    if a % n != 0 {
        assert(round_up(a, n) == a + n - a % n);
        assert(a + n - a % n == n * (a / n) + n);
        assert(n * (a / n) + n == n * (a / n + 1)) by (nonlinear_arith);
        assert(((a / n + 1) * n) % n == 0);
    }
}

/// Exec mirror of `round_up`, shared with unverified callers that walk
/// a native overflow area.
pub fn round_up_addr(a: usize, n: usize) -> (r: usize)
    requires
        n == 8 || n == 16,
        round_up(a as int, n as int) <= usize::MAX,
    ensures
        r == round_up(a as int, n as int),
        a <= r < a + n,
        r % n == 0,
{
    let rem = a % n;
    proof {
        vstd::arithmetic::div_mod::lemma_fundamental_div_mod(a as int, n as int);
        vstd::arithmetic::div_mod::lemma_mod_multiples_basic((a as int) / (n as int) + 1, n as int);
        vstd::arithmetic::div_mod::lemma_mod_multiples_basic((a as int) / (n as int), n as int);
        assert((n as int) * ((a as int) / (n as int)) == ((a as int) / (n as int)) * (n as int));
        assert((n as int) * ((a as int) / (n as int) + 1) == ((a as int) / (n as int) + 1) * (
        n as int)) by (nonlinear_arith);
    }
    if rem == 0 {
        a
    } else {
        a + (n - rem)
    }
}

/// The mutable state behind a SysV x86-64 `va_list`.
///
/// `reg_save_area` holds the 176 bytes the call prologue spilled:
/// integer registers at offsets below `GP_LIMIT`, vector registers in
/// 16-byte slots from there to `FP_LIMIT`.  `gp_offset` and `fp_offset`
/// count the bytes already consumed from each track.  `overflow_area`
/// holds the stack slots past the register budget; it stands at address
/// `overflow_base`, and `overflow_pos` is the offset of its next
/// unconsumed byte.
#[verifier::ext_equal]
pub struct VaListInner {
    pub gp_offset: u32,
    pub fp_offset: u32,
    pub reg_save_area: Vec<u8>,
    pub overflow_base: usize,
    pub overflow_pos: usize,
    pub overflow_area: Vec<u8>,
}

impl VaListInner {
    /// Well-formed state, as the call prologue delivers it.
    pub open spec fn wf(self) -> bool {
        &&& self.gp_offset % 8 == 0
        &&& self.gp_offset <= GP_LIMIT
        &&& self.fp_offset % 16 == 0
        &&& GP_LIMIT <= self.fp_offset <= FP_LIMIT
        &&& self.reg_save_area@.len() == FP_LIMIT
        &&& self.overflow_pos <= self.overflow_area@.len()
        &&& self.overflow_base + self.overflow_area@.len() <= usize::MAX
    }

    /// Whether one more integer-class argument still fits its register track.
    pub open spec fn gp_fits(self) -> bool {
        self.gp_offset + 8 <= GP_LIMIT
    }

    /// Whether one more vector-class argument still fits its register track.
    pub open spec fn fp_fits(self) -> bool {
        self.fp_offset + 16 <= FP_LIMIT
    }

    /// Where in the overflow area a read of alignment `align` starts:
    /// the cursor address rounded up to 16 bytes where the alignment
    /// exceeds 8 bytes, else to 8 bytes.
    pub open spec fn ovf_read_pos(self, align: int) -> int {
        round_up(
            self.overflow_base + self.overflow_pos,
            if align > 8 {
                16
            } else {
                8
            },
        ) - self.overflow_base
    }

    /// Whether a `w`-byte read of alignment `align` fits the overflow area.
    pub open spec fn ovf_fits(self, w: int, align: int) -> bool {
        self.ovf_read_pos(align) + w <= self.overflow_area@.len()
    }

    /// Width in bytes of a value of kind `k`; the word width is 8.
    pub open spec fn width_of(self, k: Kind) -> int {
        k.spec_width(8)
    }

    /// Whether a read of kind `k` is possible.
    pub open spec fn can_get(self, k: Kind) -> bool {
        &&& self.wf()
        &&& if k.spec_is_float() {
            self.fp_fits() || self.ovf_fits(self.width_of(k), self.width_of(k))
        } else {
            self.gp_fits() || self.ovf_fits(self.width_of(k), self.width_of(k))
        }
    }

    /// The bit pattern a read of kind `k` returns.
    pub open spec fn val(self, k: Kind) -> int {
        let w = self.width_of(k);
        if k.spec_is_float() {
            if self.fp_fits() {
                le_val(self.reg_save_area@, self.fp_offset as int, w)
            } else {
                le_val(self.overflow_area@, self.ovf_read_pos(w), w)
            }
        } else {
            if self.gp_fits() {
                le_val(self.reg_save_area@, self.gp_offset as int, w)
            } else {
                le_val(self.overflow_area@, self.ovf_read_pos(w), w)
            }
        }
    }

    /// The state after a read of kind `k`.
    pub open spec fn step(self, k: Kind) -> VaListInner {
        let w = self.width_of(k);
        if k.spec_is_float() && self.fp_fits() {
            VaListInner { fp_offset: (self.fp_offset + 16) as u32, ..self }
        } else if !k.spec_is_float() && self.gp_fits() {
            VaListInner { gp_offset: (self.gp_offset + 8) as u32, ..self }
        } else {
            VaListInner { overflow_pos: (self.ovf_read_pos(w) + w) as usize, ..self }
        }
    }

    /// Whether the register tracks still hold `num_gp` integer-class and
    /// `num_fp` vector-class arguments.
    pub fn check_space(&self, num_gp: u32, num_fp: u32) -> (r: bool)
        requires
            self.wf(),
            num_gp <= 6,
            num_fp <= 8,
        ensures
            r == (self.gp_offset + num_gp * 8 <= GP_LIMIT && self.fp_offset + num_fp * 16
                <= FP_LIMIT),
    {
        self.gp_offset + num_gp * 8 <= GP_LIMIT && self.fp_offset + num_fp * 16 <= FP_LIMIT
    }

    /// Reads a `w`-byte integer-class value from the register save area.
    pub fn get_gp(&mut self, w: usize) -> (r: u64)
        requires
            old(self).wf(),
            w == 4 || w == 8,
            old(self).gp_fits(),
        ensures
            r == le_val(old(self).reg_save_area@, old(self).gp_offset as int, w as int),
            r < pow256(w as int),
            final(self).gp_offset == old(self).gp_offset + 8,
            *final(self) == (VaListInner { gp_offset: (old(self).gp_offset + 8) as u32, ..*old(self) }),
            final(self).wf(),
    {
        let r = read_le(&self.reg_save_area, self.gp_offset as usize, w);
        self.gp_offset = self.gp_offset + 8;
        r
    }

    /// Reads the low `w` bytes of the next 16-byte vector-register slot.
    pub fn get_fp(&mut self, w: usize) -> (r: u64)
        requires
            old(self).wf(),
            w == 4 || w == 8,
            old(self).fp_fits(),
        ensures
            r == le_val(old(self).reg_save_area@, old(self).fp_offset as int, w as int),
            r < pow256(w as int),
            final(self).fp_offset == old(self).fp_offset + 16,
            *final(self) == (VaListInner { fp_offset: (old(self).fp_offset + 16) as u32, ..*old(self) }),
            final(self).wf(),
    {
        let r = read_le(&self.reg_save_area, self.fp_offset as usize, w);
        self.fp_offset = self.fp_offset + 16;
        r
    }

    /// Reads a `w`-byte value of alignment `align` from the overflow
    /// area, first rounding the cursor up as the convention demands.
    pub fn get_overflow(&mut self, w: usize, align: usize) -> (r: u64)
        requires
            old(self).wf(),
            w == 4 || w == 8,
            align == 4 || align == 8 || align == 16,
            old(self).ovf_fits(w as int, align as int),
        ensures
            r == le_val(old(self).overflow_area@, old(self).ovf_read_pos(align as int), w as int),
            r < pow256(w as int),
            final(self).overflow_pos == old(self).ovf_read_pos(align as int) + w,
            *final(self) == (VaListInner {
                overflow_pos: (old(self).ovf_read_pos(align as int) + w) as usize,
                ..*old(self)
            }),
            final(self).wf(),
    {
        let len: usize = self.overflow_area.len();
        let addr = self.overflow_base + self.overflow_pos;
        let slot_align: usize = if align > 8 {
            16
        } else {
            8
        };
        let rounded = round_up_addr(addr, slot_align);
        let read_pos = rounded - self.overflow_base;
        let r = read_le(&self.overflow_area, read_pos, w);
        self.overflow_pos = read_pos + w;
        r
    }

    /// Reads the next value of kind `k` and returns its bit pattern,
    /// zero-extended to 64 bits.  Integer-class values come from the
    /// integer register track while it lasts, vector-class values from
    /// the vector track; either class falls back to the overflow area
    /// for good once its own budget is spent.
    pub fn get(&mut self, k: Kind) -> (r: u64)
        requires
            old(self).can_get(k),
        ensures
            r == old(self).val(k),
            r < pow256(old(self).width_of(k)),
            *final(self) == old(self).step(k),
            final(self).wf(),
    {
        let w = k.width(8);
        if k.is_float() {
            if self.check_space(0, 1) {
                self.get_fp(w)
            } else {
                self.get_overflow(w, w)
            }
        } else {
            if self.check_space(1, 0) {
                self.get_gp(w)
            } else {
                self.get_overflow(w, w)
            }
        }
    }
}

} // verus!
