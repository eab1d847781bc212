//! The stack-cursor family of conventions: one forward-only cursor over a
//! flat argument block, with a fixed slot size of 4 bytes (x86 cdecl,
//! ARM AAPCS32) or 8 bytes (Win64, AArch64 on Apple systems).

use vstd::prelude::*;
use crate::bytes::{le_val, pow256, read_le, lemma_le_val_bound, lemma_le_val_split};
use crate::kind::Kind;

verus! {

/// How many bytes one fetch of a `w`-byte value moves the cursor:
/// every value consumes whole slots, however small it is.
pub open spec fn spec_advance(w: int, slot: int) -> int {
    ((w + slot - 1) / slot) * slot
}

/// The alignment a fetch must find the cursor in: the value's natural
/// alignment, capped at the slot size (32-bit conventions pack 8-byte
/// values on 4-byte boundaries).
pub open spec fn spec_align(w: int, slot: int) -> int {
    if w <= slot {
        w
    } else {
        slot
    }
}

/// Width in bytes of the memory a read of kind `k` touches under the
/// given slot size: 32-bit integers load a full 8-byte slot where the
/// convention homes them wide.
pub open spec fn spec_fetch_width(k: Kind, slot: int, wide: bool) -> int {
    if wide && !k.spec_is_float() && k.spec_width(slot) == 4 {
        8
    } else {
        k.spec_width(slot)
    }
}

/// Exec mirror of `spec_advance`, shared with unverified callers that
/// walk a native argument block.
pub fn advance_len(w: usize, slot: usize) -> (r: usize)
    requires
        w == 4 || w == 8,
        slot == 4 || slot == 8,
    ensures
        r == spec_advance(w as int, slot as int),
        w <= r <= 8,
        r % slot == 0,
{
    ((w + slot - 1) / slot) * slot
}

/// A cursor over one contiguous block of argument slots.
///
/// `mem` holds the block's bytes, standing at address `base` in the
/// caller's frame; `pos` is the offset of the next unconsumed byte.
/// `slot` is the convention's slot size, and `wide_ints` says whether
/// 32-bit integers are homed in full 8-byte slots (Win64 does this
/// because it passes register-class arguments as 64-bit values).
#[allow(non_camel_case_types)]
#[verifier::ext_equal]
pub struct va_list {
    pub mem: Vec<u8>,
    pub base: usize,
    pub pos: usize,
    pub slot: usize,
    pub wide_ints: bool,
}

impl va_list {
    /// Well-formed cursor state.
    pub open spec fn wf(self) -> bool {
        &&& (self.slot == 4 || self.slot == 8)
        &&& (self.wide_ints ==> self.slot == 8)
        &&& self.pos <= self.mem@.len()
        &&& self.base + self.mem@.len() <= usize::MAX
    }

    /// Width in bytes of the value a read of kind `k` returns.
    pub open spec fn value_width(self, k: Kind) -> int {
        k.spec_width(self.slot as int)
    }

    /// Width in bytes of the memory a read of kind `k` touches:
    /// 32-bit integers load a full 8-byte slot where they are homed wide.
    pub open spec fn fetch_width(self, k: Kind) -> int {
        spec_fetch_width(k, self.slot as int, self.wide_ints)
    }

    /// How far a read of kind `k` advances the cursor.
    pub open spec fn advance(self, k: Kind) -> int {
        spec_advance(self.fetch_width(k), self.slot as int)
    }

    /// Whether a read of kind `k` is possible: the cursor address meets
    /// the value's alignment and a whole number of slots is left.
    pub open spec fn can_get(self, k: Kind) -> bool {
        &&& self.wf()
        &&& (self.base + self.pos) % spec_align(self.fetch_width(k), self.slot as int) == 0
        &&& self.pos + self.advance(k) <= self.mem@.len()
    }

    /// The bit pattern a read of kind `k` returns: the little-endian
    /// value of the value-width bytes at the cursor.
    pub open spec fn val(self, k: Kind) -> int {
        le_val(self.mem@, self.pos as int, self.value_width(k))
    }

    /// The cursor state after a read of kind `k`.
    pub open spec fn step(self, k: Kind) -> va_list {
        va_list {
            mem: self.mem,
            base: self.base,
            pos: (self.pos + self.advance(k)) as usize,
            slot: self.slot,
            wide_ints: self.wide_ints,
        }
    }

    /// Reads the raw `w`-byte value at the cursor and consumes whole slots.
    pub fn get_raw(&mut self, w: usize) -> (r: u64)
        requires
            old(self).wf(),
            w == 4 || w == 8,
            (old(self).base + old(self).pos) % spec_align(w as int, old(self).slot as int) == 0,
            old(self).pos + spec_advance(w as int, old(self).slot as int) <= old(self).mem@.len(),
        ensures
            r == le_val(old(self).mem@, old(self).pos as int, w as int),
            r < pow256(w as int),
            final(self).mem == old(self).mem,
            final(self).base == old(self).base,
            final(self).slot == old(self).slot,
            final(self).wide_ints == old(self).wide_ints,
            final(self).pos == old(self).pos + spec_advance(w as int, old(self).slot as int),
            final(self).wf(),
    {
        let r = read_le(&self.mem, self.pos, w);
        self.pos = self.pos + advance_len(w, self.slot);
        r
    }

    /// Reads the next value of kind `k` and returns its bit pattern,
    /// zero-extended to 64 bits.
    pub fn get(&mut self, k: Kind) -> (r: u64)
        requires
            old(self).can_get(k),
        ensures
            r == old(self).val(k),
            r < pow256(old(self).value_width(k)),
            *final(self) == old(self).step(k),
            final(self).wf(),
    {
        let w = k.width(self.slot);
        let fetch_wide = self.wide_ints && !k.is_float() && w == 4;
        let r = if fetch_wide {
            let x = self.get_raw(8);
            proof {
                lemma_le_val_split(old(self).mem@, old(self).pos as int, 4, 4);
                lemma_le_val_bound(old(self).mem@, old(self).pos as int, 4);
                lemma_le_val_bound(old(self).mem@, old(self).pos + 4, 4);
                reveal_with_fuel(pow256, 5);
                let lo = le_val(old(self).mem@, old(self).pos as int, 4);
                let hi = le_val(old(self).mem@, old(self).pos + 4, 4);
                assert((lo + 0x100000000 * hi) % 0x100000000 == lo) by (nonlinear_arith)
                    requires
                        0 <= lo < 0x100000000,
                        0 <= hi,
                ;
            }
            x % 0x100000000
        } else {
            self.get_raw(w)
        };
        proof {
            assert(*self =~= old(self).step(k));
        }
        r
    }
}

} // verus!
