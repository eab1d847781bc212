//! Reading typed values back out of each convention's argument memory.

use va_list::aarch64_elf::VaListInner as A64Inner;
use va_list::stack::va_list as StackCursor;
use va_list::sysv_x86_64::VaListInner as SysvInner;
use va_list::{VaList, VaPrimitive};

/// An empty SysV overflow area.
fn no_overflow() -> Vec<u8> {
    Vec::new()
}

/// A SysV handle whose six integer register slots hold the given values.
fn sysv_regs(vals: [u64; 6]) -> VaList {
    let mut reg = Vec::new();
    for v in vals.iter() {
        reg.extend_from_slice(&v.to_le_bytes());
    }
    while reg.len() < 176 {
        reg.push(0);
    }
    VaList::SysV64(SysvInner {
        gp_offset: 0,
        fp_offset: 48,
        reg_save_area: reg,
        overflow_base: 0,
        overflow_pos: 0,
        overflow_area: no_overflow(),
    })
}

#[test]
fn trivial_values() {
    // Four random-ish sized integers, passed as six integer-class
    // arguments of a native call on the SysV x86-64 convention: each is
    // homed in one 8-byte register slot.
    let mut list = sysv_regs([
        0xaabbaabbu64,
        0xccddccddu64,
        123456u64,
        2u64,
        1u64,
        (-23i64) as u64,
    ]);
    assert_eq!(list.get::<u32>(), 0xaabbaabb);
    assert_eq!(list.get::<u32>(), 0xccddccdd);
    assert_eq!(list.get::<u32>(), 123456u32);
    assert_eq!(list.get::<u64>(), 2u64);
    assert_eq!(list.get::<i32>(), 1i32);
    assert_eq!(list.get::<i64>(), -23i64);
}

#[test]
fn floating_point() {
    // Two doubles on AArch64 ELF: each is spilled into one 16-byte
    // vector-register slot.
    let vals = [123456f64, 0.1f64];
    let mut vr = Vec::new();
    for v in vals.iter() {
        vr.extend_from_slice(&v.to_bits().to_le_bytes());
        vr.extend_from_slice(&[0u8; 8]);
    }
    let mut list = VaList::Aarch64Elf(A64Inner {
        gr_area: Vec::new(),
        vr_area: vr,
        gr_offs: 0,
        vr_offs: -32,
    });
    assert_eq!(f64::from_bits(list.get_f64_bits()), 123456f64);
    assert_eq!(f64::from_bits(list.get_f64_bits()), 0.1f64);
}

#[test]
fn word_and_pointer_reads() {
    // A pointer read returns the same bit pattern as a word-sized
    // unsigned read of the same slot, on a 64-bit and a 32-bit
    // convention alike.
    let mut a = sysv_regs([0x1122334455667788, 0, 0, 0, 0, 0]);
    let mut b = sysv_regs([0x1122334455667788, 0, 0, 0, 0, 0]);
    let ptr_bits = a.get_ptr();
    assert_eq!(ptr_bits, 0x1122334455667788usize);
    assert_eq!(ptr_bits, b.get_usize());

    let mem: Vec<u8> = 0xcafe1234u32.to_le_bytes().to_vec();
    let mut c = VaList::X86Cdecl(StackCursor {
        mem: mem.clone(),
        base: 0,
        pos: 0,
        slot: 4,
        wide_ints: false,
    });
    let mut d = VaList::X86Cdecl(StackCursor {
        mem,
        base: 0,
        pos: 0,
        slot: 4,
        wide_ints: false,
    });
    let narrow_ptr_bits = c.get_ptr();
    assert_eq!(narrow_ptr_bits, 0xcafe1234usize);
    assert_eq!(narrow_ptr_bits, d.get_usize());
}

#[test]
fn signed_reads_preserve_bits() {
    // Signed fetches reinterpret the unsigned bit pattern exactly,
    // two's-complement values included.
    let mut list = sysv_regs([
        0xffffffffu64,           // -1 as i32
        0x80000000u64,           // i32::MIN
        u64::MAX,                // -1 as i64
        0x8000000000000000u64,   // i64::MIN
        (-5i64) as u64,          // -5 as isize
        0,
    ]);
    assert_eq!(list.get::<i32>(), -1i32);
    assert_eq!(list.get::<i32>(), i32::MIN);
    assert_eq!(list.get::<i64>(), -1i64);
    assert_eq!(list.get::<i64>(), i64::MIN);
    assert_eq!(list.get::<isize>(), -5isize);
    assert_eq!(list.get::<usize>(), 0usize);
}

#[test]
fn word_reads_on_32_bit_conventions() {
    // On a 4-byte-slot convention the word kinds are 32 bits wide.
    let mut mem = Vec::new();
    mem.extend_from_slice(&0xdeadbeefu32.to_le_bytes());
    mem.extend_from_slice(&(-7i32 as u32).to_le_bytes());
    let mut list = VaList::Aapcs32(StackCursor {
        mem,
        base: 0,
        pos: 0,
        slot: 4,
        wide_ints: false,
    });
    assert_eq!(list.get::<usize>(), 0xdeadbeefusize);
    assert_eq!(list.get::<isize>(), -7isize);
}

#[test]
fn f32_reads_low_bytes_of_slot() {
    // A 32-bit float sits in the low four bytes of its slot: a 16-byte
    // vector slot on AArch64 ELF, an 8-byte stack slot on Apple AArch64.
    let x = 2.5f32;
    let mut vr = Vec::new();
    vr.extend_from_slice(&x.to_bits().to_le_bytes());
    vr.extend_from_slice(&[0xffu8; 12]);
    let mut a = VaList::Aarch64Elf(A64Inner {
        gr_area: Vec::new(),
        vr_area: vr,
        gr_offs: 0,
        vr_offs: -16,
    });
    assert_eq!(f32::from_bits(a.get_f32_bits()), 2.5f32);

    let mut mem = Vec::new();
    mem.extend_from_slice(&x.to_bits().to_le_bytes());
    mem.extend_from_slice(&[0xffu8; 4]);
    mem.extend_from_slice(&3.5f32.to_bits().to_le_bytes());
    mem.extend_from_slice(&[0u8; 4]);
    let mut b = VaList::Aarch64Apple(StackCursor {
        mem,
        base: 0,
        pos: 0,
        slot: 8,
        wide_ints: false,
    });
    assert_eq!(f32::from_bits(b.get_f32_bits()), 2.5f32);
    // The second slot is read whole-slot aligned, past the first's padding.
    assert_eq!(f32::from_bits(b.get_f32_bits()), 3.5f32);
}

#[test]
fn sysv_float_register_track() {
    // Doubles on SysV x86-64 come from the vector track: 16-byte slots
    // starting at offset 48 of the register save area, independent of
    // the integer track.
    let mut reg = vec![0u8; 48];
    reg.extend_from_slice(&1.25f64.to_bits().to_le_bytes());
    reg.extend_from_slice(&[0u8; 8]);
    reg.extend_from_slice(&(-2.5f64).to_bits().to_le_bytes());
    while reg.len() < 176 {
        reg.push(0);
    }
    // Put an integer in the integer track to show the tracks are independent.
    reg[0..8].copy_from_slice(&77u64.to_le_bytes());
    let mut list = VaList::SysV64(SysvInner {
        gp_offset: 0,
        fp_offset: 48,
        reg_save_area: reg,
        overflow_base: 0,
        overflow_pos: 0,
        overflow_area: no_overflow(),
    });
    assert_eq!(f64::from_bits(list.get_f64_bits()), 1.25f64);
    assert_eq!(list.get::<u64>(), 77u64);
    assert_eq!(f64::from_bits(list.get_f64_bits()), -2.5f64);
}

#[test]
fn sysv_overflow_respects_alignment() {
    // An overflow read first rounds the cursor address up to an 8-byte
    // boundary (16 for over-aligned values); the area's absolute base
    // address takes part in the rounding.
    let mut ovf = vec![0u8; 4];
    ovf.extend_from_slice(&0x0123456789abcdefu64.to_le_bytes());
    let mut inner = SysvInner {
        gp_offset: 48, // integer register budget spent
        fp_offset: 176,
        reg_save_area: vec![0u8; 176],
        overflow_base: 4, // area starts 4 past an 8-byte boundary
        overflow_pos: 0,
        overflow_area: ovf,
    };
    // Address 4 rounds up to 8: the value sits 4 bytes into the area.
    let v = inner.get_overflow(8, 8);
    assert_eq!(v, 0x0123456789abcdef);
    assert_eq!(inner.overflow_pos, 12);

    // With 16-byte alignment the cursor rounds to the next 16 boundary.
    let mut ovf16 = vec![0u8; 12];
    ovf16.extend_from_slice(&0xfeedface0badf00du64.to_le_bytes());
    let mut inner16 = SysvInner {
        gp_offset: 48,
        fp_offset: 176,
        reg_save_area: vec![0u8; 176],
        overflow_base: 4,
        overflow_pos: 0,
        overflow_area: ovf16,
    };
    let v16 = inner16.get_overflow(8, 16);
    assert_eq!(v16, 0xfeedface0badf00d);
    assert_eq!(inner16.overflow_pos, 20);
}

#[test]
fn spent_budget_reads_from_overflow_at_once() {
    // A handle can arrive with its integer register budget already
    // spent; every integer-class read then comes from the overflow
    // stack, vector-class reads still from the vector track.
    let mut reg = vec![0u8; 48];
    reg.extend_from_slice(&9.75f64.to_bits().to_le_bytes());
    while reg.len() < 176 {
        reg.push(0);
    }
    let mut ovf = Vec::new();
    ovf.extend_from_slice(&511u64.to_le_bytes());
    let mut list = VaList::SysV64(SysvInner {
        gp_offset: 48,
        fp_offset: 48,
        reg_save_area: reg,
        overflow_base: 0,
        overflow_pos: 0,
        overflow_area: ovf,
    });
    assert_eq!(list.get::<u64>(), 511u64);
    assert_eq!(f64::from_bits(list.get_f64_bits()), 9.75f64);
}

#[test]
fn backend_cursors_direct() {
    // The per-convention cursors can be driven directly.
    let mut reg = Vec::new();
    reg.extend_from_slice(&0x11u64.to_le_bytes());
    while reg.len() < 176 {
        reg.push(0);
    }
    let mut sysv = SysvInner {
        gp_offset: 0,
        fp_offset: 48,
        reg_save_area: reg,
        overflow_base: 0,
        overflow_pos: 0,
        overflow_area: Vec::new(),
    };
    assert!(sysv.check_space(1, 0));
    assert_eq!(sysv.get_gp(8), 0x11);
    assert_eq!(sysv.gp_offset, 8);

    let mut gr = Vec::new();
    gr.extend_from_slice(&0x22u64.to_le_bytes());
    let mut a64 = A64Inner {
        gr_area: gr,
        vr_area: 0x33u64
            .to_le_bytes()
            .iter()
            .copied()
            .chain([0u8; 8])
            .collect(),
        gr_offs: -8,
        vr_offs: -16,
    };
    assert_eq!(a64.get_gr(8), 0x22);
    assert_eq!(a64.gr_offs, 0);
    assert_eq!(a64.get_vr(8), 0x33);
    assert_eq!(a64.vr_offs, 0);

    let mut cur = StackCursor {
        mem: 0x44u32.to_le_bytes().to_vec(),
        base: 0,
        pos: 0,
        slot: 4,
        wide_ints: false,
    };
    assert_eq!(cur.get_raw(4), 0x44);
    assert_eq!(cur.pos, 4);
}

#[test]
fn read_le_assembles_little_endian() {
    let mem = vec![0xefu8, 0xbe, 0xad, 0xde, 0x78, 0x56, 0x34, 0x12];
    assert_eq!(va_list::bytes::read_le(&mem, 0, 4), 0xdeadbeef);
    assert_eq!(va_list::bytes::read_le(&mem, 4, 4), 0x12345678);
    assert_eq!(va_list::bytes::read_le(&mem, 0, 8), 0x12345678deadbeef);
    assert_eq!(va_list::bytes::read_le(&mem, 3, 1), 0xde);
    assert_eq!(va_list::bytes::read_le(&mem, 8, 0), 0);
}

#[test]
fn reinterpret_helpers_preserve_bits() {
    assert_eq!(va_list::bytes::reinterpret_i32(0xffffffff), -1i32);
    assert_eq!(va_list::bytes::reinterpret_i32(0x7fffffff), i32::MAX);
    assert_eq!(va_list::bytes::reinterpret_i32(0x80000000), i32::MIN);
    assert_eq!(va_list::bytes::reinterpret_i64(u64::MAX), -1i64);
    assert_eq!(va_list::bytes::reinterpret_i64(1u64 << 63), i64::MIN);
    assert_eq!(va_list::bytes::reinterpret_i64(42), 42i64);
}

#[test]
fn rounding_and_slot_advance_helpers() {
    assert_eq!(va_list::sysv_x86_64::round_up_addr(0, 8), 0);
    assert_eq!(va_list::sysv_x86_64::round_up_addr(1, 8), 8);
    assert_eq!(va_list::sysv_x86_64::round_up_addr(8, 8), 8);
    assert_eq!(va_list::sysv_x86_64::round_up_addr(17, 16), 32);
    assert_eq!(va_list::stack::advance_len(4, 4), 4);
    assert_eq!(va_list::stack::advance_len(8, 4), 8);
    assert_eq!(va_list::stack::advance_len(4, 8), 8);
    assert_eq!(va_list::stack::advance_len(8, 8), 8);
}
