//! Reading values out of a C-style variadic argument list.
//!
//! Each supported calling convention stores variadic arguments in its own
//! mix of register-spill areas and stack slots.  This crate models that
//! memory as byte buffers and verifies, for every convention, where the
//! next argument of a given primitive kind lives, what value a read
//! returns, and how the cursor advances.  All layouts are little-endian,
//! as on every machine these conventions target.

pub mod aarch64_elf;
pub mod bytes;
pub mod kind;
pub mod laws;
pub mod stack;
pub mod sysv_x86_64;
pub mod wrapper;

pub use crate::kind::Kind;
pub use crate::wrapper::{VaList, VaPrimitive};
