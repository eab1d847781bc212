//! The AArch64 ELF convention: two downward-growing register save areas,
//! addressed as `top - |offset|`.  Integer-class arguments occupy 8-byte
//! slots of the general-register area, vector-class arguments 16-byte
//! slots of the vector-register area.  No fall-back to a stack overflow
//! region is modelled: reads past the register budget are out of contract.

use vstd::prelude::*;
use crate::bytes::{le_val, pow256, read_le};
use crate::kind::Kind;

verus! {

/// The mutable state behind an AArch64 ELF `va_list`.
///
/// `gr_area` and `vr_area` hold the spilled register bytes; each area's
/// `top` is its end, and the negative `gr_offs` / `vr_offs` count the
/// bytes not yet consumed, moving toward zero.  The next integer-class
/// argument lives at `gr_area.len() + gr_offs`.
#[verifier::ext_equal]
pub struct VaListInner {
    pub gr_area: Vec<u8>,
    pub vr_area: Vec<u8>,
    pub gr_offs: i32,
    pub vr_offs: i32,
}

impl VaListInner {
    /// Well-formed state, as the call prologue delivers it.
    pub open spec fn wf(self) -> bool {
        &&& self.gr_offs <= 0
        &&& self.gr_offs % 8 == 0
        &&& -self.gr_offs <= self.gr_area@.len() <= 0x7fffffff
        &&& self.vr_offs <= 0
        &&& self.vr_offs % 16 == 0
        &&& -self.vr_offs <= self.vr_area@.len() <= 0x7fffffff
    }

    /// Index of the next unconsumed integer-class byte.
    pub open spec fn gr_index(self) -> int {
        self.gr_area@.len() + self.gr_offs
    }

    /// Index of the next unconsumed vector-class byte.
    pub open spec fn vr_index(self) -> int {
        self.vr_area@.len() + self.vr_offs
    }

    /// Whether an 8-byte general-register slot is left.
    pub open spec fn gr_fits(self) -> bool {
        self.gr_offs + 8 <= 0
    }

    /// Whether a 16-byte vector-register slot is left.
    pub open spec fn vr_fits(self) -> bool {
        self.vr_offs + 16 <= 0
    }

    /// Width in bytes of a value of kind `k`; the word width is 8.
    pub open spec fn width_of(self, k: Kind) -> int {
        k.spec_width(8)
    }

    /// Whether a read of kind `k` is possible.
    pub open spec fn can_get(self, k: Kind) -> bool {
        &&& self.wf()
        &&& if k.spec_is_float() {
            self.vr_fits()
        } else {
            self.gr_fits()
        }
    }

    /// The bit pattern a read of kind `k` returns.
    pub open spec fn val(self, k: Kind) -> int {
        if k.spec_is_float() {
            le_val(self.vr_area@, self.vr_index(), self.width_of(k))
        } else {
            le_val(self.gr_area@, self.gr_index(), self.width_of(k))
        }
    }

    /// The state after a read of kind `k`.
    pub open spec fn step(self, k: Kind) -> VaListInner {
        if k.spec_is_float() {
            VaListInner { vr_offs: (self.vr_offs + 16) as i32, ..self }
        } else {
            VaListInner { gr_offs: (self.gr_offs + 8) as i32, ..self }
        }
    }

    /// Reads the low `w` bytes of the next 8-byte general-register slot.
    pub fn get_gr(&mut self, w: usize) -> (r: u64)
        requires
            old(self).wf(),
            w == 4 || w == 8,
            old(self).gr_fits(),
        ensures
            r == le_val(old(self).gr_area@, old(self).gr_index(), w as int),
            r < pow256(w as int),
            *final(self) == (VaListInner { gr_offs: (old(self).gr_offs + 8) as i32, ..*old(self) }),
            final(self).wf(),
    {
        let off = (0 - self.gr_offs) as usize;
        let idx = self.gr_area.len() - off;
        let r = read_le(&self.gr_area, idx, w);
        self.gr_offs = self.gr_offs + 8;
        r
    }

    /// Reads the low `w` bytes of the next 16-byte vector-register slot.
    pub fn get_vr(&mut self, w: usize) -> (r: u64)
        requires
            old(self).wf(),
            w == 4 || w == 8,
            old(self).vr_fits(),
        ensures
            r == le_val(old(self).vr_area@, old(self).vr_index(), w as int),
            r < pow256(w as int),
            *final(self) == (VaListInner { vr_offs: (old(self).vr_offs + 16) as i32, ..*old(self) }),
            final(self).wf(),
    {
        let off = (0 - self.vr_offs) as usize;
        let idx = self.vr_area.len() - off;
        let r = read_le(&self.vr_area, idx, w);
        self.vr_offs = self.vr_offs + 16;
        r
    }

    /// Reads the next value of kind `k` and returns its bit pattern,
    /// zero-extended to 64 bits.
    pub fn get(&mut self, k: Kind) -> (r: u64)
        requires
            old(self).can_get(k),
        ensures
            r == old(self).val(k),
            r < pow256(old(self).width_of(k)),
            *final(self) == old(self).step(k),
            final(self).wf(),
    {
        let w = k.width(8);
        if k.is_float() {
            self.get_vr(w)
        } else {
            self.get_gr(w)
        }
    }
}

} // verus!
