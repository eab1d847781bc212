//! The facade handle: one value type wrapping exactly one convention's
//! cursor, forwarding "read the next value of kind `k`" to it.

use vstd::prelude::*;
use crate::aarch64_elf;
use crate::bytes::{pow256, reinterpret_i32, reinterpret_i64, sign32, sign64};
use crate::kind::Kind;
use crate::stack;
use crate::sysv_x86_64;

verus! {

/// A variadic argument list, bound to one calling convention.
///
/// The variant is fixed when the handle is built from the native call's
/// argument memory and never changes; there is deliberately no way to
/// copy a handle, so no two cursors can alias one argument block.
#[verifier::ext_equal]
pub enum VaList {
    /// SysV x86-64: register save area with integer and vector tracks,
    /// plus an overflow stack.
    SysV64(sysv_x86_64::VaListInner),
    /// AArch64 ELF: downward-growing general and vector register areas.
    Aarch64Elf(aarch64_elf::VaListInner),
    /// x86 cdecl: flat stack block, 4-byte slots.
    X86Cdecl(stack::va_list),
    /// ARM AAPCS32: flat stack block, 4-byte slots.
    Aapcs32(stack::va_list),
    /// Win64: flat stack block, 8-byte slots, 32-bit integers homed wide.
    Win64(stack::va_list),
    /// AArch64 on Apple systems: flat stack block, 8-byte slots.
    Aarch64Apple(stack::va_list),
}

impl VaList {
    /// Well-formed handle: the wrapped cursor is well-formed and its
    /// parameters are the ones of the named convention.
    pub open spec fn wf(self) -> bool {
        match self {
            VaList::SysV64(inner) => inner.wf(),
            VaList::Aarch64Elf(inner) => inner.wf(),
            VaList::X86Cdecl(l) => l.wf() && l.slot == 4 && !l.wide_ints,
            VaList::Aapcs32(l) => l.wf() && l.slot == 4 && !l.wide_ints,
            VaList::Win64(l) => l.wf() && l.slot == 8 && l.wide_ints,
            VaList::Aarch64Apple(l) => l.wf() && l.slot == 8 && !l.wide_ints,
        }
    }

    /// The convention's word width in bytes: the width of `Word`,
    /// `SignedWord` and `Ptr` values.
    pub open spec fn word_bytes(self) -> int {
        match self {
            VaList::SysV64(_) => 8,
            VaList::Aarch64Elf(_) => 8,
            VaList::X86Cdecl(_) => 4,
            VaList::Aapcs32(_) => 4,
            VaList::Win64(_) => 8,
            VaList::Aarch64Apple(_) => 8,
        }
    }

    /// Width in bytes of the value a read of kind `k` returns.
    pub open spec fn value_width(self, k: Kind) -> int {
        k.spec_width(self.word_bytes())
    }

    /// Whether a read of kind `k` is possible in the current state.
    pub open spec fn can_get(self, k: Kind) -> bool {
        match self {
            VaList::SysV64(inner) => inner.can_get(k),
            VaList::Aarch64Elf(inner) => inner.can_get(k),
            VaList::X86Cdecl(l) => l.can_get(k),
            VaList::Aapcs32(l) => l.can_get(k),
            VaList::Win64(l) => l.can_get(k),
            VaList::Aarch64Apple(l) => l.can_get(k),
        }
    }

    /// The bit pattern a read of kind `k` returns, zero-extended.
    pub open spec fn val(self, k: Kind) -> int {
        match self {
            VaList::SysV64(inner) => inner.val(k),
            VaList::Aarch64Elf(inner) => inner.val(k),
            VaList::X86Cdecl(l) => l.val(k),
            VaList::Aapcs32(l) => l.val(k),
            VaList::Win64(l) => l.val(k),
            VaList::Aarch64Apple(l) => l.val(k),
        }
    }

    /// The handle after a read of kind `k`: same convention, stepped cursor.
    pub open spec fn step(self, k: Kind) -> VaList {
        match self {
            VaList::SysV64(inner) => VaList::SysV64(inner.step(k)),
            VaList::Aarch64Elf(inner) => VaList::Aarch64Elf(inner.step(k)),
            VaList::X86Cdecl(l) => VaList::X86Cdecl(l.step(k)),
            VaList::Aapcs32(l) => VaList::Aapcs32(l.step(k)),
            VaList::Win64(l) => VaList::Win64(l.step(k)),
            VaList::Aarch64Apple(l) => VaList::Aarch64Apple(l.step(k)),
        }
    }

    /// Reads the next value of kind `k` as a zero-extended bit pattern.
    pub fn get_bits(&mut self, k: Kind) -> (r: u64)
        requires
            old(self).wf(),
            old(self).can_get(k),
        ensures
            r == old(self).val(k),
            r < pow256(old(self).value_width(k)),
            *final(self) == old(self).step(k),
            final(self).wf(),
    {
        match self {
            VaList::SysV64(inner) => inner.get(k),
            VaList::Aarch64Elf(inner) => inner.get(k),
            VaList::X86Cdecl(l) => l.get(k),
            VaList::Aapcs32(l) => l.get(k),
            VaList::Win64(l) => l.get(k),
            VaList::Aarch64Apple(l) => l.get(k),
        }
    }

    /// Exec mirror of `word_bytes`.
    pub fn word_len(&self) -> (r: usize)
        ensures
            r == self.word_bytes(),
    {
        match self {
            VaList::SysV64(_) => 8,
            VaList::Aarch64Elf(_) => 8,
            VaList::X86Cdecl(_) => 4,
            VaList::Aapcs32(_) => 4,
            VaList::Win64(_) => 8,
            VaList::Aarch64Apple(_) => 8,
        }
    }

    /// Reads the next 32-bit unsigned integer.
    pub fn get_u32(&mut self) -> (r: u32)
        requires
            old(self).wf(),
            old(self).can_get(Kind::U32),
        ensures
            r == old(self).val(Kind::U32),
            *final(self) == old(self).step(Kind::U32),
            final(self).wf(),
    {
        let b = self.get_bits(Kind::U32);
        proof {
            reveal_with_fuel(pow256, 5);
        }
        b as u32
    }

    /// Reads the next 32-bit signed integer: the unsigned fetch, its bit
    /// pattern reinterpreted as two's-complement.
    pub fn get_i32(&mut self) -> (r: i32)
        requires
            old(self).wf(),
            old(self).can_get(Kind::I32),
        ensures
            r as int == sign32(old(self).val(Kind::I32)),
            *final(self) == old(self).step(Kind::I32),
            final(self).wf(),
    {
        let b = self.get_bits(Kind::I32);
        proof {
            reveal_with_fuel(pow256, 5);
        }
        reinterpret_i32(b as u32)
    }

    /// Reads the next 64-bit unsigned integer.
    pub fn get_u64(&mut self) -> (r: u64)
        requires
            old(self).wf(),
            old(self).can_get(Kind::U64),
        ensures
            r == old(self).val(Kind::U64),
            *final(self) == old(self).step(Kind::U64),
            final(self).wf(),
    {
        self.get_bits(Kind::U64)
    }

    /// Reads the next 64-bit signed integer: the unsigned fetch, its bit
    /// pattern reinterpreted as two's-complement.
    pub fn get_i64(&mut self) -> (r: i64)
        requires
            old(self).wf(),
            old(self).can_get(Kind::I64),
        ensures
            r as int == sign64(old(self).val(Kind::I64)),
            *final(self) == old(self).step(Kind::I64),
            final(self).wf(),
    {
        let b = self.get_bits(Kind::I64);
        reinterpret_i64(b)
    }

    /// Reads the next word-sized unsigned integer.
    pub fn get_usize(&mut self) -> (r: usize)
        requires
            old(self).wf(),
            old(self).can_get(Kind::Word),
            old(self).val(Kind::Word) <= usize::MAX,
        ensures
            r == old(self).val(Kind::Word),
            *final(self) == old(self).step(Kind::Word),
            final(self).wf(),
    {
        let b = self.get_bits(Kind::Word);
        b as usize
    }

    /// The two's-complement meaning of the next word-sized bit pattern.
    pub open spec fn signed_word_val(self) -> int {
        if self.word_bytes() == 4 {
            sign32(self.val(Kind::SignedWord))
        } else {
            sign64(self.val(Kind::SignedWord))
        }
    }

    /// Reads the next word-sized signed integer: the unsigned fetch, its
    /// bit pattern reinterpreted as two's-complement.
    pub fn get_isize(&mut self) -> (r: isize)
        requires
            old(self).wf(),
            old(self).can_get(Kind::SignedWord),
            isize::MIN <= old(self).signed_word_val() <= isize::MAX,
        ensures
            r as int == old(self).signed_word_val(),
            *final(self) == old(self).step(Kind::SignedWord),
            final(self).wf(),
    {
        let word = self.word_len();
        let b = self.get_bits(Kind::SignedWord);
        if word == 4 {
            proof {
                reveal_with_fuel(pow256, 5);
            }
            let v = reinterpret_i32(b as u32);
            v as isize
        } else {
            let v = reinterpret_i64(b);
            v as isize
        }
    }

    /// Reads the next pointer-typed value, as its word-sized bit pattern.
    /// A pointer is fetched exactly as the word-sized unsigned integer.
    pub fn get_ptr(&mut self) -> (r: usize)
        requires
            old(self).wf(),
            old(self).can_get(Kind::Ptr),
            old(self).val(Kind::Ptr) <= usize::MAX,
        ensures
            r == old(self).val(Kind::Ptr),
            *final(self) == old(self).step(Kind::Ptr),
            final(self).wf(),
    {
        let b = self.get_bits(Kind::Ptr);
        b as usize
    }

    /// Reads the next 32-bit floating-point value, as its bit pattern.
    pub fn get_f32_bits(&mut self) -> (r: u32)
        requires
            old(self).wf(),
            old(self).can_get(Kind::F32),
        ensures
            r == old(self).val(Kind::F32),
            *final(self) == old(self).step(Kind::F32),
            final(self).wf(),
    {
        let b = self.get_bits(Kind::F32);
        proof {
            reveal_with_fuel(pow256, 5);
        }
        b as u32
    }

    /// Reads the next 64-bit floating-point value, as its bit pattern.
    pub fn get_f64_bits(&mut self) -> (r: u64)
        requires
            old(self).wf(),
            old(self).can_get(Kind::F64),
        ensures
            r == old(self).val(Kind::F64),
            *final(self) == old(self).step(Kind::F64),
            final(self).wf(),
    {
        self.get_bits(Kind::F64)
    }

    /// Reads the next value as type `T`.
    ///
    /// The caller must know that the next argument the native caller
    /// passed truly has this type: the argument memory carries no tag
    /// that could catch a mismatch.
    pub fn get<T: VaPrimitive>(&mut self) -> (r: T)
        requires
            old(self).wf(),
            old(self).can_get(T::kind()),
            T::fits(*old(self)),
        ensures
            *final(self) == old(self).step(T::kind()),
            final(self).wf(),
            T::is_read(*old(self), r),
    {
        T::get(self)
    }
}

/// Types that can be read out of a `VaList`.
///
/// `kind()` names the primitive kind the type reads as, `fits` any room
/// the bit pattern needs in the reading platform's type, and `is_read`
/// how the returned value relates to the pattern fetched.
pub trait VaPrimitive: Sized {
    /// The primitive kind this type reads as.
    spec fn kind() -> Kind;

    /// Whether the value to be read fits this type on the reading platform.
    spec fn fits(v: VaList) -> bool;

    /// How a returned value relates to the state read from.
    spec fn is_read(v: VaList, r: Self) -> bool;

    /// Reads the next value of this type from `l`.
    fn get(l: &mut VaList) -> (r: Self)
        requires
            old(l).wf(),
            old(l).can_get(Self::kind()),
            Self::fits(*old(l)),
        ensures
            *final(l) == old(l).step(Self::kind()),
            final(l).wf(),
            Self::is_read(*old(l), r),
    ;
}

impl VaPrimitive for u32 {
    open spec fn kind() -> Kind {
        Kind::U32
    }

    open spec fn fits(v: VaList) -> bool {
        true
    }

    open spec fn is_read(v: VaList, r: u32) -> bool {
        r == v.val(Kind::U32)
    }

    fn get(l: &mut VaList) -> (r: u32) {
        l.get_u32()
    }
}

impl VaPrimitive for i32 {
    open spec fn kind() -> Kind {
        Kind::I32
    }

    open spec fn fits(v: VaList) -> bool {
        true
    }

    open spec fn is_read(v: VaList, r: i32) -> bool {
        r as int == sign32(v.val(Kind::I32))
    }

    fn get(l: &mut VaList) -> (r: i32) {
        l.get_i32()
    }
}

impl VaPrimitive for u64 {
    open spec fn kind() -> Kind {
        Kind::U64
    }

    open spec fn fits(v: VaList) -> bool {
        true
    }

    open spec fn is_read(v: VaList, r: u64) -> bool {
        r == v.val(Kind::U64)
    }

    fn get(l: &mut VaList) -> (r: u64) {
        l.get_u64()
    }
}

impl VaPrimitive for i64 {
    open spec fn kind() -> Kind {
        Kind::I64
    }

    open spec fn fits(v: VaList) -> bool {
        true
    }

    open spec fn is_read(v: VaList, r: i64) -> bool {
        r as int == sign64(v.val(Kind::I64))
    }

    fn get(l: &mut VaList) -> (r: i64) {
        l.get_i64()
    }
}

impl VaPrimitive for usize {
    open spec fn kind() -> Kind {
        Kind::Word
    }

    open spec fn fits(v: VaList) -> bool {
        v.val(Kind::Word) <= usize::MAX
    }

    open spec fn is_read(v: VaList, r: usize) -> bool {
        r == v.val(Kind::Word)
    }

    fn get(l: &mut VaList) -> (r: usize) {
        l.get_usize()
    }
}

impl VaPrimitive for isize {
    open spec fn kind() -> Kind {
        Kind::SignedWord
    }

    open spec fn fits(v: VaList) -> bool {
        isize::MIN <= v.signed_word_val() <= isize::MAX
    }

    open spec fn is_read(v: VaList, r: isize) -> bool {
        r as int == v.signed_word_val()
    }

    fn get(l: &mut VaList) -> (r: isize) {
        l.get_isize()
    }
}

} // verus!
