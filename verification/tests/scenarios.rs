//! Whole argument lists read back across the conventions, and the
//! bookkeeping the cursors keep while doing it.

use va_list::aarch64_elf::VaListInner as A64Inner;
use va_list::stack::va_list as StackCursor;
use va_list::sysv_x86_64::VaListInner as SysvInner;
use va_list::{VaList, VaPrimitive};

/// The shared argument list: `0xAABBAABBu32, 0xCCDDCCDDu32, 123456u32,
/// 2u64, 1i32, -23i64`.
fn check_mixed_integers(list: &mut VaList) {
    assert_eq!(list.get::<u32>(), 0xaabbaabbu32);
    assert_eq!(list.get::<u32>(), 0xccddccddu32);
    assert_eq!(list.get::<u32>(), 123456u32);
    assert_eq!(list.get::<u64>(), 2u64);
    assert_eq!(list.get::<i32>(), 1i32);
    assert_eq!(list.get::<i64>(), -23i64);
}

/// The argument list laid out in 4-byte stack slots: 8-byte values
/// take two slots, 4-byte values one.
fn narrow_slot_block() -> Vec<u8> {
    let mut mem = Vec::new();
    mem.extend_from_slice(&0xaabbaabbu32.to_le_bytes());
    mem.extend_from_slice(&0xccddccddu32.to_le_bytes());
    mem.extend_from_slice(&123456u32.to_le_bytes());
    mem.extend_from_slice(&2u64.to_le_bytes());
    mem.extend_from_slice(&1u32.to_le_bytes());
    mem.extend_from_slice(&(-23i64).to_le_bytes());
    mem
}

/// The argument list laid out in 8-byte stack slots, one per value.
fn wide_slot_block() -> Vec<u8> {
    let mut mem = Vec::new();
    mem.extend_from_slice(&0xaabbaabbu64.to_le_bytes());
    mem.extend_from_slice(&0xccddccddu64.to_le_bytes());
    mem.extend_from_slice(&123456u64.to_le_bytes());
    mem.extend_from_slice(&2u64.to_le_bytes());
    mem.extend_from_slice(&1u64.to_le_bytes());
    mem.extend_from_slice(&(-23i64).to_le_bytes());
    mem
}

#[test]
fn mixed_integers_x86_cdecl() {
    let mut list = VaList::X86Cdecl(StackCursor {
        mem: narrow_slot_block(),
        base: 0,
        pos: 0,
        slot: 4,
        wide_ints: false,
    });
    check_mixed_integers(&mut list);
}

#[test]
fn mixed_integers_aapcs32() {
    let mut list = VaList::Aapcs32(StackCursor {
        mem: narrow_slot_block(),
        base: 0,
        pos: 0,
        slot: 4,
        wide_ints: false,
    });
    check_mixed_integers(&mut list);
}

#[test]
fn mixed_integers_win64() {
    let mut list = VaList::Win64(StackCursor {
        mem: wide_slot_block(),
        base: 0,
        pos: 0,
        slot: 8,
        wide_ints: true,
    });
    check_mixed_integers(&mut list);
}

#[test]
fn mixed_integers_aarch64_apple() {
    let mut list = VaList::Aarch64Apple(StackCursor {
        mem: wide_slot_block(),
        base: 0,
        pos: 0,
        slot: 8,
        wide_ints: false,
    });
    check_mixed_integers(&mut list);
}

#[test]
fn mixed_integers_sysv_x86_64() {
    let mut reg = wide_slot_block();
    while reg.len() < 176 {
        reg.push(0);
    }
    let mut list = VaList::SysV64(SysvInner {
        gp_offset: 0,
        fp_offset: 48,
        reg_save_area: reg,
        overflow_base: 0,
        overflow_pos: 0,
        overflow_area: Vec::new(),
    });
    check_mixed_integers(&mut list);
}

#[test]
fn mixed_integers_aarch64_elf() {
    let mut list = VaList::Aarch64Elf(A64Inner {
        gr_area: wide_slot_block(),
        vr_area: Vec::new(),
        gr_offs: -48,
        vr_offs: 0,
    });
    check_mixed_integers(&mut list);
}

/// Two doubles, read back bit-identical on every convention that
/// stores them in its stack block.
fn check_two_doubles(list: &mut VaList) {
    assert_eq!(list.get_f64_bits(), 123456.0f64.to_bits());
    assert_eq!(list.get_f64_bits(), 0.1f64.to_bits());
}

fn double_block() -> Vec<u8> {
    let mut mem = Vec::new();
    mem.extend_from_slice(&123456.0f64.to_bits().to_le_bytes());
    mem.extend_from_slice(&0.1f64.to_bits().to_le_bytes());
    mem
}

#[test]
fn doubles_on_stack_conventions() {
    let mut a = VaList::X86Cdecl(StackCursor {
        mem: double_block(),
        base: 0,
        pos: 0,
        slot: 4,
        wide_ints: false,
    });
    check_two_doubles(&mut a);
    let mut b = VaList::Win64(StackCursor {
        mem: double_block(),
        base: 0,
        pos: 0,
        slot: 8,
        wide_ints: true,
    });
    check_two_doubles(&mut b);
    let mut c = VaList::Aarch64Apple(StackCursor {
        mem: double_block(),
        base: 0,
        pos: 0,
        slot: 8,
        wide_ints: false,
    });
    check_two_doubles(&mut c);
}

#[test]
fn doubles_in_register_tracks() {
    let mut reg = vec![0u8; 48];
    reg.extend_from_slice(&123456.0f64.to_bits().to_le_bytes());
    reg.extend_from_slice(&[0u8; 8]);
    reg.extend_from_slice(&0.1f64.to_bits().to_le_bytes());
    while reg.len() < 176 {
        reg.push(0);
    }
    let mut a = VaList::SysV64(SysvInner {
        gp_offset: 0,
        fp_offset: 48,
        reg_save_area: reg,
        overflow_base: 0,
        overflow_pos: 0,
        overflow_area: Vec::new(),
    });
    check_two_doubles(&mut a);

    let mut vr = Vec::new();
    vr.extend_from_slice(&123456.0f64.to_bits().to_le_bytes());
    vr.extend_from_slice(&[0u8; 8]);
    vr.extend_from_slice(&0.1f64.to_bits().to_le_bytes());
    vr.extend_from_slice(&[0u8; 8]);
    let mut b = VaList::Aarch64Elf(A64Inner {
        gr_area: Vec::new(),
        vr_area: vr,
        gr_offs: 0,
        vr_offs: -32,
    });
    check_two_doubles(&mut b);
}

#[test]
fn sysv_eight_integers_spill_to_overflow() {
    // Eight integer-class arguments on SysV x86-64: the first six fill
    // the integer register slots, the seventh and eighth come from the
    // overflow stack.
    let mut reg = Vec::new();
    for v in 101u64..107u64 {
        reg.extend_from_slice(&v.to_le_bytes());
    }
    while reg.len() < 176 {
        reg.push(0);
    }
    let mut ovf = Vec::new();
    ovf.extend_from_slice(&107u64.to_le_bytes());
    ovf.extend_from_slice(&108u64.to_le_bytes());
    let mut list = VaList::SysV64(SysvInner {
        gp_offset: 0,
        fp_offset: 48,
        reg_save_area: reg,
        overflow_base: 0,
        overflow_pos: 0,
        overflow_area: ovf,
    });
    for expect in 101u64..109u64 {
        assert_eq!(list.get::<u64>(), expect);
        match &list {
            VaList::SysV64(inner) => {
                if expect < 107 {
                    // Still in the register phase: the integer track
                    // advanced, the overflow cursor did not move.
                    assert_eq!(inner.gp_offset, (expect - 100) as u32 * 8);
                    assert_eq!(inner.overflow_pos, 0);
                } else {
                    // Register budget spent for good.
                    assert_eq!(inner.gp_offset, 48);
                    assert_eq!(inner.overflow_pos, (expect - 106) as usize * 8);
                }
            }
            _ => unreachable!(),
        }
    }
}

#[test]
fn win64_narrows_wide_slot() {
    // A 32-bit integer on Win64 is homed in a full 8-byte slot; the
    // read takes the whole slot and narrows it, whatever the high half
    // holds.
    let mut mem = Vec::new();
    mem.extend_from_slice(&42u32.to_le_bytes());
    mem.extend_from_slice(&[0xffu8; 4]); // garbage in the high half
    mem.extend_from_slice(&7u64.to_le_bytes());
    let mut list = VaList::Win64(StackCursor {
        mem,
        base: 0,
        pos: 0,
        slot: 8,
        wide_ints: true,
    });
    assert_eq!(list.get::<u32>(), 42u32);
    match &list {
        // The whole slot was consumed.
        VaList::Win64(l) => assert_eq!(l.pos, 8),
        _ => unreachable!(),
    }
    assert_eq!(list.get::<u64>(), 7u64);
}

#[test]
fn cursors_never_move_backwards() {
    // Across a mixed read sequence the stack cursor only grows, each
    // time by at least the bytes read.
    let mut list = VaList::Aarch64Apple(StackCursor {
        mem: wide_slot_block(),
        base: 0,
        pos: 0,
        slot: 8,
        wide_ints: false,
    });
    let mut last: usize = 0;
    for _ in 0..6 {
        list.get::<u32>();
        let pos = match &list {
            VaList::Aarch64Apple(l) => l.pos,
            _ => unreachable!(),
        };
        assert!(pos >= last + 4);
        last = pos;
    }
}

#[test]
fn reads_consume_disjoint_ranges() {
    // Every byte is observed at most once: with a block of pairwise
    // distinct bytes, consecutive u32 reads return values with no byte
    // in common.
    let mem: Vec<u8> = (1u8..=16u8).collect();
    let mut list = VaList::X86Cdecl(StackCursor {
        mem,
        base: 0,
        pos: 0,
        slot: 4,
        wide_ints: false,
    });
    let mut seen: Vec<u8> = Vec::new();
    for _ in 0..4 {
        let v = list.get::<u32>();
        for b in v.to_le_bytes().iter() {
            assert!(!seen.contains(b));
            seen.push(*b);
        }
    }
}
