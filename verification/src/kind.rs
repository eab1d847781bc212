//! The primitive kinds a variadic argument can be read as.

use vstd::prelude::*;

verus! {

/// One primitive kind of variadic argument.
///
/// Sub-32-bit integers never appear: C promotes them before the call.
/// `Word`, `SignedWord` and `Ptr` take the convention's word width;
/// a pointer is fetched exactly as the word-sized unsigned integer.
#[derive(Clone, Copy, PartialEq, Eq, Structural)]
pub enum Kind {
    U32,
    I32,
    U64,
    I64,
    Word,
    SignedWord,
    Ptr,
    F32,
    F64,
}

impl Kind {
    /// Floating-point class: stored in the vector-register area where
    /// the convention has one.
    pub open spec fn spec_is_float(self) -> bool {
        self is F32 || self is F64
    }

    /// Exec mirror of `spec_is_float`.
    #[verifier::when_used_as_spec(spec_is_float)]
    pub fn is_float(self) -> (r: bool)
        ensures
            r == self.spec_is_float(),
    {
        match self {
            Kind::F32 | Kind::F64 => true,
            _ => false,
        }
    }

    /// Width in bytes of the value itself; word-sized kinds take the
    /// convention's word width.
    pub open spec fn spec_width(self, word: int) -> int {
        match self {
            Kind::U32 | Kind::I32 | Kind::F32 => 4,
            Kind::U64 | Kind::I64 | Kind::F64 => 8,
            Kind::Word | Kind::SignedWord | Kind::Ptr => word,
        }
    }

    /// Exec mirror of `spec_width`.
    pub fn width(self, word: usize) -> (r: usize)
        ensures
            r == self.spec_width(word as int),
    {
        match self {
            Kind::U32 | Kind::I32 | Kind::F32 => 4,
            Kind::U64 | Kind::I64 | Kind::F64 => 8,
            Kind::Word | Kind::SignedWord | Kind::Ptr => word,
        }
    }
}

} // verus!
