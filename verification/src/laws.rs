//! Properties that hold of every convention's cursor: reads only move
//! cursors forward, a pointer read is the word-sized unsigned read, and
//! no two reads observe overlapping memory.

use vstd::prelude::*;
use crate::bytes::{le_bytes, lemma_le_bytes_len, lemma_le_bytes_read, lemma_le_val_equal_ranges,
    pow256};
use crate::kind::Kind;
use crate::stack::{spec_advance, spec_align, spec_fetch_width};
use crate::wrapper::VaList;

verus! {

/// Whether every read in `ks`, made in order, is possible.
pub open spec fn can_read_all(v: VaList, ks: Seq<Kind>) -> bool
    decreases ks.len(),
{
    ks.len() == 0 || (v.can_get(ks[0]) && can_read_all(v.step(ks[0]), ks.drop_first()))
}

/// The bit patterns the reads of `ks`, made in order, return.
pub open spec fn read_vals(v: VaList, ks: Seq<Kind>) -> Seq<int>
    decreases ks.len(),
{
    if ks.len() == 0 {
        Seq::empty()
    } else {
        seq![v.val(ks[0])] + read_vals(v.step(ks[0]), ks.drop_first())
    }
}

/// The kinds of an argument list.
pub open spec fn kinds_of(args: Seq<(Kind, int)>) -> Seq<Kind> {
    args.map_values(|a: (Kind, int)| a.0)
}

/// The bit patterns of an argument list.
pub open spec fn values_of(args: Seq<(Kind, int)>) -> Seq<int> {
    args.map_values(|a: (Kind, int)| a.1)
}

/// The offsets a handle's cursor state consists of, one entry per track.
pub open spec fn cursors(v: VaList) -> Seq<int> {
    match v {
        VaList::SysV64(i) => seq![
            i.gp_offset as int,
            i.fp_offset as int,
            i.overflow_pos as int,
        ],
        VaList::Aarch64Elf(i) => seq![i.gr_offs as int, i.vr_offs as int],
        VaList::X86Cdecl(l) => seq![l.pos as int],
        VaList::Aapcs32(l) => seq![l.pos as int],
        VaList::Win64(l) => seq![l.pos as int],
        VaList::Aarch64Apple(l) => seq![l.pos as int],
    }
}

/// The sum of a handle's cursor offsets: a measure of consumed memory.
pub open spec fn cursors_total(v: VaList) -> int
    decreases cursors(v).len(),
{
    cursors(v).fold_left(0, |acc: int, c: int| acc + c)
}

/// A read moves no track backwards: every cursor offset after the read
/// is at least what it was before, and in total the cursors move
/// forward by at least the width of the value read.
pub proof fn lemma_read_advances(v: VaList, k: Kind)
    requires
        v.wf(),
        v.can_get(k),
    ensures
        v.step(k).wf(),
        cursors(v.step(k)).len() == cursors(v).len(),
        forall|i: int| 0 <= i < cursors(v).len() ==> cursors(v.step(k))[i] >= cursors(v)[i],
        cursors_total(v.step(k)) >= cursors_total(v) + v.value_width(k),
{
    reveal_with_fuel(Seq::fold_left, 5);
    let s = v.step(k);
    match v {
        VaList::SysV64(inner) => {
            assert(cursors(s)[0] >= cursors(v)[0]);
            assert(cursors(s)[1] >= cursors(v)[1]);
            assert(cursors(s)[2] >= cursors(v)[2]);
        },
        VaList::Aarch64Elf(inner) => {
            assert(cursors(s)[0] >= cursors(v)[0]);
            assert(cursors(s)[1] >= cursors(v)[1]);
        },
        VaList::X86Cdecl(l) => {
            assert(cursors(s)[0] >= cursors(v)[0]);
        },
        VaList::Aapcs32(l) => {
            assert(cursors(s)[0] >= cursors(v)[0]);
        },
        VaList::Win64(l) => {
            assert(cursors(s)[0] >= cursors(v)[0]);
        },
        VaList::Aarch64Apple(l) => {
            assert(cursors(s)[0] >= cursors(v)[0]);
        },
    }
}

/// A pointer-typed read and a word-sized unsigned read are the same
/// operation: possible in the same states, observing the same memory,
/// returning the same bit pattern, leaving the same state.
pub proof fn lemma_ptr_reads_as_word(v: VaList)
    ensures
        v.can_get(Kind::Ptr) == v.can_get(Kind::Word),
        v.val(Kind::Ptr) == v.val(Kind::Word),
        v.step(Kind::Ptr) == v.step(Kind::Word),
        footprint(v, Kind::Ptr) == footprint(v, Kind::Word),
{
    assert(v.step(Kind::Ptr) =~= v.step(Kind::Word));
}

/// Which of the caller's memory regions a read observes.
pub enum Area {
    /// The SysV x86-64 register save area (both of its tracks).
    RegSave,
    /// The SysV x86-64 overflow stack.
    Overflow,
    /// The AArch64 ELF general-register area.
    GrArea,
    /// The AArch64 ELF vector-register area.
    VrArea,
    /// The flat argument block of a stack-cursor convention.
    StackBlock,
}

/// A byte range `lo..hi` within one region.
pub struct Span {
    pub area: Area,
    pub lo: int,
    pub hi: int,
}

/// The bytes a read of kind `k` observes in state `v`.
pub open spec fn footprint(v: VaList, k: Kind) -> Span {
    match v {
        VaList::SysV64(i) => {
            let w = i.width_of(k);
            if k.spec_is_float() {
                if i.fp_fits() {
                    Span { area: Area::RegSave, lo: i.fp_offset as int, hi: i.fp_offset + w }
                } else {
                    Span { area: Area::Overflow, lo: i.ovf_read_pos(w), hi: i.ovf_read_pos(w) + w }
                }
            } else {
                if i.gp_fits() {
                    Span { area: Area::RegSave, lo: i.gp_offset as int, hi: i.gp_offset + w }
                } else {
                    Span { area: Area::Overflow, lo: i.ovf_read_pos(w), hi: i.ovf_read_pos(w) + w }
                }
            }
        },
        VaList::Aarch64Elf(i) => {
            let w = i.width_of(k);
            if k.spec_is_float() {
                Span { area: Area::VrArea, lo: i.vr_index(), hi: i.vr_index() + w }
            } else {
                Span { area: Area::GrArea, lo: i.gr_index(), hi: i.gr_index() + w }
            }
        },
        VaList::X86Cdecl(l) => stack_footprint(l, k),
        VaList::Aapcs32(l) => stack_footprint(l, k),
        VaList::Win64(l) => stack_footprint(l, k),
        VaList::Aarch64Apple(l) => stack_footprint(l, k),
    }
}

/// The bytes a stack-cursor read observes: the fetch width, so a 32-bit
/// integer homed in a wide slot counts its whole 8-byte slot.
pub open spec fn stack_footprint(l: crate::stack::va_list, k: Kind) -> Span {
    Span { area: Area::StackBlock, lo: l.pos as int, hi: l.pos + l.fetch_width(k) }
}

/// Whether two spans share no byte.
pub open spec fn spans_disjoint(a: Span, b: Span) -> bool {
    a.area != b.area || a.hi <= b.lo || b.hi <= a.lo
}

/// Two successive reads never observe overlapping memory: what the
/// first read consumed, the second cannot see.
pub proof fn lemma_reads_disjoint(v: VaList, k1: Kind, k2: Kind)
    requires
        v.wf(),
        v.can_get(k1),
        v.step(k1).can_get(k2),
    ensures
        spans_disjoint(footprint(v, k1), footprint(v.step(k1), k2)),
{
}

/// Whether two handles of one convention view the same caller memory,
/// as a handle and any later state of it do: reads change offsets only.
pub open spec fn same_regions(a: VaList, b: VaList) -> bool {
    match (a, b) {
        (VaList::SysV64(x), VaList::SysV64(y)) => x.reg_save_area@ == y.reg_save_area@
            && x.overflow_area@ == y.overflow_area@ && x.overflow_base == y.overflow_base,
        (VaList::Aarch64Elf(x), VaList::Aarch64Elf(y)) => x.gr_area@ == y.gr_area@ && x.vr_area@
            == y.vr_area@,
        (VaList::X86Cdecl(x), VaList::X86Cdecl(y)) => x.mem@ == y.mem@ && x.base == y.base
            && x.slot == y.slot && x.wide_ints == y.wide_ints,
        (VaList::Aapcs32(x), VaList::Aapcs32(y)) => x.mem@ == y.mem@ && x.base == y.base
            && x.slot == y.slot && x.wide_ints == y.wide_ints,
        (VaList::Win64(x), VaList::Win64(y)) => x.mem@ == y.mem@ && x.base == y.base && x.slot
            == y.slot && x.wide_ints == y.wide_ints,
        (VaList::Aarch64Apple(x), VaList::Aarch64Apple(y)) => x.mem@ == y.mem@ && x.base
            == y.base && x.slot == y.slot && x.wide_ints == y.wide_ints,
        _ => false,
    }
}

/// Whether every cursor offset of `a` is at most the one of `b`.
pub open spec fn cursors_le(a: VaList, b: VaList) -> bool {
    &&& cursors(a).len() == cursors(b).len()
    &&& forall|i: int| 0 <= i < cursors(a).len() ==> cursors(a)[i] <= cursors(b)[i]
}

/// A read, and any read made from a state whose cursors all stand at or
/// past the first read's successor, observe disjoint memory — however
/// many other reads came between.
pub proof fn lemma_separated_reads_disjoint(a: VaList, k1: Kind, b: VaList, k2: Kind)
    requires
        a.wf(),
        a.can_get(k1),
        b.wf(),
        b.can_get(k2),
        same_regions(a, b),
        cursors_le(a.step(k1), b),
    ensures
        spans_disjoint(footprint(a, k1), footprint(b, k2)),
{
    match (a, b) {
        (VaList::SysV64(x), VaList::SysV64(y)) => {
            assert(cursors(a.step(k1))[0] <= cursors(b)[0]);
            assert(cursors(a.step(k1))[1] <= cursors(b)[1]);
            assert(cursors(a.step(k1))[2] <= cursors(b)[2]);
            crate::sysv_x86_64::lemma_round_up(x.overflow_base + x.overflow_pos, 8);
            crate::sysv_x86_64::lemma_round_up(x.overflow_base + x.overflow_pos, 16);
            crate::sysv_x86_64::lemma_round_up(y.overflow_base + y.overflow_pos, 8);
            crate::sysv_x86_64::lemma_round_up(y.overflow_base + y.overflow_pos, 16);
        },
        (VaList::Aarch64Elf(x), VaList::Aarch64Elf(y)) => {
            assert(cursors(a.step(k1))[0] <= cursors(b)[0]);
            assert(cursors(a.step(k1))[1] <= cursors(b)[1]);
        },
        _ => {
            assert(cursors(a.step(k1))[0] <= cursors(b)[0]);
        },
    }
}

/// The handle after the first `i` reads of `ks`.
pub open spec fn state_at(v: VaList, ks: Seq<Kind>, i: int) -> VaList
    decreases i,
{
    if i <= 0 {
        v
    } else {
        state_at(v.step(ks[0]), ks.drop_first(), i - 1)
    }
}

/// Walking a readable sequence keeps the handle well-formed, able to
/// make the remaining reads, over the same memory, with no cursor
/// moved backwards.
pub proof fn lemma_chain(v: VaList, ks: Seq<Kind>, i: int)
    requires
        v.wf(),
        can_read_all(v, ks),
        0 <= i <= ks.len(),
    ensures
        state_at(v, ks, i).wf(),
        can_read_all(state_at(v, ks, i), ks.skip(i)),
        same_regions(v, state_at(v, ks, i)),
        cursors_le(v, state_at(v, ks, i)),
    decreases i,
{
    if i == 0 {
        assert(ks.skip(0) =~= ks);
    } else {
        let v1 = v.step(ks[0]);
        lemma_read_advances(v, ks[0]);
        assert(same_regions(v, v1));
        lemma_chain(v1, ks.drop_first(), i - 1);
        assert(ks.drop_first().skip(i - 1) =~= ks.skip(i));
        let b = state_at(v, ks, i);
        assert(same_regions(v, b));
        assert(cursors_le(v, b)) by {
            assert(cursors_le(v, v1));
            assert(cursors_le(v1, b));
        }
    }
}

/// Splitting a walk: the state after `j` reads is the state after `i`
/// reads walked `j - i` further.
pub proof fn lemma_state_at_split(v: VaList, ks: Seq<Kind>, i: int, j: int)
    requires
        0 <= i <= j <= ks.len(),
    ensures
        state_at(v, ks, j) == state_at(state_at(v, ks, i), ks.skip(i), j - i),
    decreases i,
{
    if i == 0 {
        assert(ks.skip(0) =~= ks);
    } else {
        lemma_state_at_split(v.step(ks[0]), ks.drop_first(), i - 1, j - 1);
        assert(ks.drop_first().skip(i - 1) =~= ks.skip(i));
    }
}

/// No two reads of one sequence ever observe overlapping memory, on
/// any convention: every byte is consumed at most once.
pub proof fn lemma_seq_reads_disjoint(v: VaList, ks: Seq<Kind>, i: int, j: int)
    requires
        v.wf(),
        can_read_all(v, ks),
        0 <= i < j < ks.len(),
    ensures
        spans_disjoint(
            footprint(state_at(v, ks, i), ks[i]),
            footprint(state_at(v, ks, j), ks[j]),
        ),
{
    let a = state_at(v, ks, i);
    lemma_chain(v, ks, i);
    assert(ks.skip(i)[0] == ks[i]);
    assert(a.can_get(ks[i]));
    let a1 = a.step(ks[i]);
    lemma_read_advances(a, ks[i]);
    assert(ks.skip(i).drop_first() =~= ks.skip(i + 1));
    lemma_chain(a1, ks.skip(i + 1), j - i - 1);
    let b = state_at(a1, ks.skip(i + 1), j - i - 1);
    assert(b == state_at(v, ks, j)) by {
        lemma_state_at_split(v, ks, i, j);
        assert(state_at(v, ks, j) == state_at(a, ks.skip(i), j - i));
        assert(state_at(a, ks.skip(i), j - i) == state_at(
            a1,
            ks.skip(i).drop_first(),
            j - i - 1,
        ));
    }
    assert(ks.skip(i + 1).skip(j - i - 1) =~= ks.skip(j));
    assert(ks.skip(j)[0] == ks[j]);
    assert(b.can_get(ks[j]));
    assert(same_regions(a, b)) by {
        assert(same_regions(a, a1));
        assert(same_regions(a1, b));
    }
    lemma_separated_reads_disjoint(a, ks[i], b, ks[j]);
}

/// Whether the handle wraps a stack-cursor convention.
pub open spec fn is_stack(v: VaList) -> bool {
    v is X86Cdecl || v is Aapcs32 || v is Win64 || v is Aarch64Apple
}

/// The wrapped stack cursor of a stack-cursor handle.
pub open spec fn stack_state(v: VaList) -> crate::stack::va_list {
    match v {
        VaList::X86Cdecl(l) => l,
        VaList::Aapcs32(l) => l,
        VaList::Win64(l) => l,
        VaList::Aarch64Apple(l) => l,
        _ => arbitrary(),
    }
}

/// Total bytes a native caller's stack block spends on `args`.
pub open spec fn stack_args_len(args: Seq<(Kind, int)>, slot: int, wide: bool) -> int
    decreases args.len(),
{
    if args.len() == 0 {
        0
    } else {
        spec_advance(spec_fetch_width(args[0].0, slot, wide), slot) + stack_args_len(
            args.drop_first(),
            slot,
            wide,
        )
    }
}

/// The bytes a native caller lays down in a stack block for the
/// argument list `args`: each value little-endian, zero-extended over
/// the whole slots its fetch consumes.
pub open spec fn stack_args_bytes(args: Seq<(Kind, int)>, slot: int, wide: bool) -> Seq<u8>
    decreases args.len(),
{
    if args.len() == 0 {
        Seq::empty()
    } else {
        le_bytes(args[0].1, spec_advance(spec_fetch_width(args[0].0, slot, wide), slot))
            + stack_args_bytes(args.drop_first(), slot, wide)
    }
}

pub proof fn lemma_stack_args_bytes_len(args: Seq<(Kind, int)>, slot: int, wide: bool)
    requires
        slot == 4 || slot == 8,
    ensures
        stack_args_len(args, slot, wide) >= 0,
        stack_args_bytes(args, slot, wide).len() == stack_args_len(args, slot, wide),
    decreases args.len(),
{
    if args.len() > 0 {
        lemma_le_bytes_len(
            args[0].1,
            spec_advance(spec_fetch_width(args[0].0, slot, wide), slot),
        );
        lemma_stack_args_bytes_len(args.drop_first(), slot, wide);
    }
}

/// Round trip for the stack-cursor conventions: when a native caller
/// has laid the argument list `args` down at the cursor, reading the
/// declared kinds back in order is possible and reproduces exactly the
/// bit patterns the caller wrote.
pub proof fn lemma_stack_round_trip(v: VaList, args: Seq<(Kind, int)>)
    requires
        v.wf(),
        is_stack(v),
        (stack_state(v).base + stack_state(v).pos) % (stack_state(v).slot as int) == 0,
        forall|i: int|
            0 <= i < args.len() ==> 0 <= (#[trigger] args[i]).1 < pow256(
                v.value_width(args[i].0),
            ),
        stack_state(v).pos + stack_args_len(
            args,
            stack_state(v).slot as int,
            stack_state(v).wide_ints,
        ) <= stack_state(v).mem@.len(),
        stack_state(v).mem@.subrange(
            stack_state(v).pos as int,
            stack_state(v).pos + stack_args_len(
                args,
                stack_state(v).slot as int,
                stack_state(v).wide_ints,
            ),
        ) == stack_args_bytes(args, stack_state(v).slot as int, stack_state(v).wide_ints),
    ensures
        can_read_all(v, kinds_of(args)),
        read_vals(v, kinds_of(args)) == values_of(args),
    decreases args.len(),
{
    let l = stack_state(v);
    let slot = l.slot as int;
    let wide = l.wide_ints;
    let total = stack_args_len(args, slot, wide);
    lemma_stack_args_bytes_len(args, slot, wide);
    if args.len() == 0 {
        assert(read_vals(v, kinds_of(args)) =~= values_of(args));
    } else {
        let k = args[0].0;
        let x = args[0].1;
        let wv = v.value_width(k);
        let fw = spec_fetch_width(k, slot, wide);
        let adv = spec_advance(fw, slot);
        let rest = args.drop_first();
        let enc = stack_args_bytes(args, slot, wide);
        let first = le_bytes(x, adv);
        let enc_rest = stack_args_bytes(rest, slot, wide);
        let total_rest = stack_args_len(rest, slot, wide);
        lemma_stack_args_bytes_len(rest, slot, wide);
        lemma_le_bytes_len(x, adv);
        assert(0 <= x < pow256(wv));

        // The first read is possible: the cursor is aligned for every
        // kind once it is slot-aligned, and the first fetch fits.
        assert(spec_align(fw, slot) == 4 || spec_align(fw, slot) == slot);
        assert((l.base + l.pos) % spec_align(fw, slot) == 0);
        assert(v.can_get(k));

        // The first read returns exactly the bits the caller wrote.
        assert(forall|i: int|
            0 <= i < wv ==> l.mem@[#[trigger] (l.pos + i)] == first[0 + i]) by {
            assert forall|i: int| 0 <= i < wv implies l.mem@[#[trigger] (l.pos + i)] == first[0
                + i] by {
                assert(l.mem@[l.pos + i] == l.mem@.subrange(l.pos as int, l.pos + total)[i]);
                assert(enc[i] == first[i]);
            }
        }
        lemma_le_val_equal_ranges(l.mem@, first, l.pos as int, 0, wv);
        lemma_le_bytes_read(x, adv, wv);
        assert(v.val(k) == x);

        // The stepped handle satisfies every premise for the remaining
        // arguments.
        let v2 = v.step(k);
        let l2 = stack_state(v2);
        assert(l2.pos == l.pos + adv);
        assert(v2.wf());
        vstd::arithmetic::div_mod::lemma_fundamental_div_mod(fw + slot - 1, slot);
        vstd::arithmetic::div_mod::lemma_mod_multiples_vanish(
            (fw + slot - 1) / slot,
            l2.base + l.pos,
            slot,
        );
        assert((fw + slot - 1) / slot * slot == slot * ((fw + slot - 1) / slot));
        assert((l2.base + l2.pos) % slot == 0);
        assert(forall|i: int|
            0 <= i < rest.len() ==> 0 <= (#[trigger] rest[i]).1 < pow256(
                v2.value_width(rest[i].0),
            )) by {
            assert forall|i: int|
                0 <= i < rest.len() implies 0 <= (#[trigger] rest[i]).1 < pow256(
                v2.value_width(rest[i].0),
            ) by {
                assert(rest[i] == args[i + 1]);
            }
        }
        assert(l2.mem@.subrange(l2.pos as int, l2.pos + total_rest) == enc_rest) by {
            assert forall|j: int| 0 <= j < total_rest implies l2.mem@.subrange(
                l2.pos as int,
                l2.pos + total_rest,
            )[j] == enc_rest[j] by {
                assert(l2.mem@.subrange(l2.pos as int, l2.pos + total_rest)[j] == l.mem@[l.pos
                    + adv + j]);
                assert(l.mem@[l.pos + adv + j] == l.mem@.subrange(l.pos as int, l.pos + total)[
                    adv + j]);
                assert(enc[adv + j] == enc_rest[j]);
            }
            assert(l2.mem@.subrange(l2.pos as int, l2.pos + total_rest) =~= enc_rest);
        }
        lemma_stack_round_trip(v2, rest);

        // Assemble the sequence facts.
        assert(kinds_of(args)[0] == k);
        assert(kinds_of(args).drop_first() =~= kinds_of(rest));
        assert(can_read_all(v, kinds_of(args)));
        assert(read_vals(v, kinds_of(args)) =~= values_of(args)) by {
            assert(read_vals(v2, kinds_of(rest)) == values_of(rest));
            assert(forall|i: int|
                0 <= i < rest.len() ==> values_of(rest)[i] == (#[trigger] rest[i]).1);
        }
    }
}

/// The integer-class arguments of a list, in order.
pub open spec fn int_args(args: Seq<(Kind, int)>) -> Seq<(Kind, int)>
    decreases args.len(),
{
    if args.len() == 0 {
        Seq::empty()
    } else if args[0].0.spec_is_float() {
        int_args(args.drop_first())
    } else {
        seq![args[0]] + int_args(args.drop_first())
    }
}

/// The vector-class arguments of a list, in order.
pub open spec fn float_args(args: Seq<(Kind, int)>) -> Seq<(Kind, int)>
    decreases args.len(),
{
    if args.len() == 0 {
        Seq::empty()
    } else if args[0].0.spec_is_float() {
        seq![args[0]] + float_args(args.drop_first())
    } else {
        float_args(args.drop_first())
    }
}

/// The bytes a caller lays down in an area of fixed `size`-byte slots
/// for the argument list `args`: one slot per argument, each value
/// little-endian in the low bytes of its slot, zero-extended.
pub open spec fn slot_args_bytes(args: Seq<(Kind, int)>, size: int) -> Seq<u8>
    decreases args.len(),
{
    if args.len() == 0 {
        Seq::empty()
    } else {
        le_bytes(args[0].1, size) + slot_args_bytes(args.drop_first(), size)
    }
}

pub proof fn lemma_slot_args_bytes_len(args: Seq<(Kind, int)>, size: int)
    requires
        0 <= size,
    ensures
        slot_args_bytes(args, size).len() == size * args.len(),
    decreases args.len(),
{
    if args.len() > 0 {
        lemma_le_bytes_len(args[0].1, size);
        lemma_slot_args_bytes_len(args.drop_first(), size);
        assert(size * args.len() == size + size * (args.len() - 1)) by (nonlinear_arith);
    }
}

/// Round trip for the AArch64 ELF convention: when the call prologue
/// has spilled the argument list `args` — integer-class values into the
/// remaining 8-byte general-register slots, vector-class values into
/// the remaining 16-byte vector-register slots, each class in order —
/// reading the declared kinds back in order is possible and reproduces
/// exactly the bit patterns the caller passed.
pub proof fn lemma_aarch64_round_trip(v: VaList, args: Seq<(Kind, int)>)
    requires
        v.wf(),
        v is Aarch64Elf,
        forall|i: int|
            0 <= i < args.len() ==> 0 <= (#[trigger] args[i]).1 < pow256(
                v.value_width(args[i].0),
            ),
        aarch64_state(v).gr_offs + 8 * int_args(args).len() <= 0,
        aarch64_state(v).vr_offs + 16 * float_args(args).len() <= 0,
        aarch64_state(v).gr_area@.subrange(
            aarch64_state(v).gr_index(),
            aarch64_state(v).gr_index() + 8 * int_args(args).len(),
        ) == slot_args_bytes(int_args(args), 8),
        aarch64_state(v).vr_area@.subrange(
            aarch64_state(v).vr_index(),
            aarch64_state(v).vr_index() + 16 * float_args(args).len(),
        ) == slot_args_bytes(float_args(args), 16),
    ensures
        can_read_all(v, kinds_of(args)),
        read_vals(v, kinds_of(args)) == values_of(args),
    decreases args.len(),
{
    let i = aarch64_state(v);
    if args.len() == 0 {
        assert(read_vals(v, kinds_of(args)) =~= values_of(args));
    } else {
        let k = args[0].0;
        let x = args[0].1;
        let wv = v.value_width(k);
        let rest = args.drop_first();
        let v2 = v.step(k);
        let i2 = aarch64_state(v2);
        lemma_le_bytes_len(x, 8);
        lemma_le_bytes_len(x, 16);
        lemma_slot_args_bytes_len(int_args(args), 8);
        lemma_slot_args_bytes_len(float_args(args), 16);
        lemma_slot_args_bytes_len(int_args(rest), 8);
        lemma_slot_args_bytes_len(float_args(rest), 16);
        assert(0 <= x < pow256(wv));

        if k.spec_is_float() {
            let nf = float_args(args).len() as int;
            assert(float_args(args) == seq![args[0]] + float_args(rest));
            assert(float_args(args)[0] == args[0]);
            assert(int_args(args) == int_args(rest));
            let enc = slot_args_bytes(float_args(args), 16);
            let first = le_bytes(x, 16);
            assert(i.vr_fits());
            assert(forall|j: int|
                0 <= j < wv ==> i.vr_area@[#[trigger] (i.vr_index() + j)] == first[0 + j]) by {
                assert forall|j: int|
                    0 <= j < wv implies i.vr_area@[#[trigger] (i.vr_index() + j)] == first[0
                    + j] by {
                    assert(i.vr_area@[i.vr_index() + j] == i.vr_area@.subrange(
                        i.vr_index(),
                        i.vr_index() + 16 * nf,
                    )[j]);
                    assert(enc[j] == first[j]);
                }
            }
            lemma_le_val_equal_ranges(i.vr_area@, first, i.vr_index(), 0, wv);
            lemma_le_bytes_read(x, 16, wv);
            assert(v.val(k) == x);
            assert(float_args(rest) =~= float_args(args).drop_first());
            assert(i2.vr_area@.subrange(i2.vr_index(), i2.vr_index() + 16 * float_args(
                rest,
            ).len()) =~= slot_args_bytes(float_args(rest), 16)) by {
                let e2 = slot_args_bytes(float_args(rest), 16);
                assert forall|j: int| 0 <= j < 16 * float_args(rest).len() implies i2.vr_area@[
                    i2.vr_index() + j] == e2[j] by {
                    assert(i2.vr_area@[i2.vr_index() + j] == i.vr_area@.subrange(
                        i.vr_index(),
                        i.vr_index() + 16 * nf,
                    )[16 + j]);
                    assert(enc[16 + j] == e2[j]);
                }
            }
            assert(i2.gr_area@.subrange(i2.gr_index(), i2.gr_index() + 8 * int_args(rest).len())
                == slot_args_bytes(int_args(rest), 8));
        } else {
            let ni = int_args(args).len() as int;
            assert(int_args(args) == seq![args[0]] + int_args(rest));
            assert(int_args(args)[0] == args[0]);
            assert(float_args(args) == float_args(rest));
            let enc = slot_args_bytes(int_args(args), 8);
            let first = le_bytes(x, 8);
            assert(i.gr_fits());
            assert(forall|j: int|
                0 <= j < wv ==> i.gr_area@[#[trigger] (i.gr_index() + j)] == first[0 + j]) by {
                assert forall|j: int|
                    0 <= j < wv implies i.gr_area@[#[trigger] (i.gr_index() + j)] == first[0
                    + j] by {
                    assert(i.gr_area@[i.gr_index() + j] == i.gr_area@.subrange(
                        i.gr_index(),
                        i.gr_index() + 8 * ni,
                    )[j]);
                    assert(enc[j] == first[j]);
                }
            }
            lemma_le_val_equal_ranges(i.gr_area@, first, i.gr_index(), 0, wv);
            lemma_le_bytes_read(x, 8, wv);
            assert(v.val(k) == x);
            assert(int_args(rest) =~= int_args(args).drop_first());
            assert(i2.gr_area@.subrange(i2.gr_index(), i2.gr_index() + 8 * int_args(rest).len())
                =~= slot_args_bytes(int_args(rest), 8)) by {
                let e2 = slot_args_bytes(int_args(rest), 8);
                assert forall|j: int| 0 <= j < 8 * int_args(rest).len() implies i2.gr_area@[
                    i2.gr_index() + j] == e2[j] by {
                    assert(i2.gr_area@[i2.gr_index() + j] == i.gr_area@.subrange(
                        i.gr_index(),
                        i.gr_index() + 8 * ni,
                    )[8 + j]);
                    assert(enc[8 + j] == e2[j]);
                }
            }
            assert(i2.vr_area@.subrange(i2.vr_index(), i2.vr_index() + 16 * float_args(
                rest,
            ).len()) == slot_args_bytes(float_args(rest), 16));
        }

        assert(forall|j: int|
            0 <= j < rest.len() ==> 0 <= (#[trigger] rest[j]).1 < pow256(
                v2.value_width(rest[j].0),
            )) by {
            assert forall|j: int|
                0 <= j < rest.len() implies 0 <= (#[trigger] rest[j]).1 < pow256(
                v2.value_width(rest[j].0),
            ) by {
                assert(rest[j] == args[j + 1]);
            }
        }
        lemma_aarch64_round_trip(v2, rest);
        assert(kinds_of(args)[0] == k);
        assert(kinds_of(args).drop_first() =~= kinds_of(rest));
        assert(can_read_all(v, kinds_of(args)));
        assert(read_vals(v, kinds_of(args)) =~= values_of(args)) by {
            assert(read_vals(v2, kinds_of(rest)) == values_of(rest));
            assert(forall|j: int|
                0 <= j < rest.len() ==> values_of(rest)[j] == (#[trigger] rest[j]).1);
        }
    }
}

/// The wrapped cursor of an AArch64 ELF handle.
pub open spec fn aarch64_state(v: VaList) -> crate::aarch64_elf::VaListInner {
    match v {
        VaList::Aarch64Elf(i) => i,
        _ => arbitrary(),
    }
}

/// The wrapped cursor of a SysV x86-64 handle.
pub open spec fn sysv_state(v: VaList) -> crate::sysv_x86_64::VaListInner {
    match v {
        VaList::SysV64(i) => i,
        _ => arbitrary(),
    }
}
/// Where a native caller homes each argument of `args`, given the
/// bytes still free in each register track: integer-class values take
/// 8-byte integer-register slots while they last, vector-class values
/// take 16-byte vector-register slots while they last, and every
/// argument past its class's budget goes to the overflow stack, all in
/// call order.  Returns the three placed lists: integer-register,
/// vector-register, overflow.
pub open spec fn sysv_split(args: Seq<(Kind, int)>, gp_avail: int, fp_avail: int) -> (
    Seq<(Kind, int)>,
    Seq<(Kind, int)>,
    Seq<(Kind, int)>,
)
    decreases args.len(),
{
    if args.len() == 0 {
        (Seq::empty(), Seq::empty(), Seq::empty())
    } else {
        let a0 = args[0];
        if !a0.0.spec_is_float() && gp_avail >= 8 {
            let r = sysv_split(args.drop_first(), gp_avail - 8, fp_avail);
            (seq![a0] + r.0, r.1, r.2)
        } else if a0.0.spec_is_float() && fp_avail >= 16 {
            let r = sysv_split(args.drop_first(), gp_avail, fp_avail - 16);
            (r.0, seq![a0] + r.1, r.2)
        } else {
            let r = sysv_split(args.drop_first(), gp_avail, fp_avail);
            (r.0, r.1, seq![a0] + r.2)
        }
    }
}

/// Register-homed arguments fit their track's budget, and every
/// argument is placed exactly once.
pub proof fn lemma_sysv_split_bounds(args: Seq<(Kind, int)>, gp_avail: int, fp_avail: int)
    requires
        gp_avail >= 0,
        fp_avail >= 0,
    ensures
        8 * sysv_split(args, gp_avail, fp_avail).0.len() <= gp_avail,
        16 * sysv_split(args, gp_avail, fp_avail).1.len() <= fp_avail,
        sysv_split(args, gp_avail, fp_avail).0.len() + sysv_split(args, gp_avail, fp_avail).1.len()
            + sysv_split(args, gp_avail, fp_avail).2.len() == args.len(),
    decreases args.len(),
{
    if args.len() > 0 {
        let a0 = args[0];
        if !a0.0.spec_is_float() && gp_avail >= 8 {
            lemma_sysv_split_bounds(args.drop_first(), gp_avail - 8, fp_avail);
        } else if a0.0.spec_is_float() && fp_avail >= 16 {
            lemma_sysv_split_bounds(args.drop_first(), gp_avail, fp_avail - 16);
        } else {
            lemma_sysv_split_bounds(args.drop_first(), gp_avail, fp_avail);
        }
    }
}

/// How a native caller lays an argument list down for SysV x86-64:
/// each register-homed value in its class's next register slot, each
/// overflowed value in the next 8-byte-aligned overflow stack slot,
/// every class and the overflow in call order.
pub open spec fn sysv_image(s: crate::sysv_x86_64::VaListInner, args: Seq<(Kind, int)>) -> bool {
    let placed = sysv_split(args, 48 - s.gp_offset, 176 - s.fp_offset);
    let start = s.ovf_read_pos(8);
    &&& s.reg_save_area@.subrange(
        s.gp_offset as int,
        s.gp_offset + 8 * placed.0.len(),
    ) == slot_args_bytes(placed.0, 8)
    &&& s.reg_save_area@.subrange(
        s.fp_offset as int,
        s.fp_offset + 16 * placed.1.len(),
    ) == slot_args_bytes(placed.1, 16)
    &&& start + 8 * placed.2.len() <= s.overflow_area@.len()
    &&& s.overflow_area@.subrange(start, start + 8 * placed.2.len()) == slot_args_bytes(
        placed.2,
        8,
    )
}

/// Round trip for SysV x86-64: when the caller has laid `args` down as
/// `sysv_image` describes, reading the declared kinds back in order is
/// possible and reproduces exactly the bit patterns the caller passed
/// — each class from the register save area while its budget lasts,
/// from the overflow stack after.
#[verifier::rlimit(80)]
pub proof fn lemma_sysv64_round_trip(v: VaList, args: Seq<(Kind, int)>)
    requires
        v.wf(),
        v is SysV64,
        forall|i: int|
            0 <= i < args.len() ==> 0 <= (#[trigger] args[i]).1 < pow256(
                v.value_width(args[i].0),
            ),
        sysv_image(sysv_state(v), args),
    ensures
        can_read_all(v, kinds_of(args)),
        read_vals(v, kinds_of(args)) == values_of(args),
    decreases args.len(),
{
    let s = sysv_state(v);
    let n = args.len() as int;
    let placed = sysv_split(args, 48 - s.gp_offset, 176 - s.fp_offset);
    let start = s.ovf_read_pos(8);
    lemma_sysv_split_bounds(args, 48 - s.gp_offset, 176 - s.fp_offset);
    lemma_slot_args_bytes_len(placed.0, 8);
    lemma_slot_args_bytes_len(placed.1, 16);
    lemma_slot_args_bytes_len(placed.2, 8);
    if n == 0 {
        assert(read_vals(v, kinds_of(args)) =~= values_of(args));
    } else {
        let k = args[0].0;
        let x = args[0].1;
        let wv = v.value_width(k);
        let rest = args.drop_first();
        let v2 = v.step(k);
        let s2 = sysv_state(v2);
        assert(0 <= x < pow256(wv));

        if !k.spec_is_float() && s.gp_fits() {
            // Homed in the next integer register slot.
            let placed2 = sysv_split(rest, 48 - s.gp_offset - 8, 176 - s.fp_offset);
            lemma_sysv_split_bounds(rest, 48 - s.gp_offset - 8, 176 - s.fp_offset);
            assert(placed.0 == seq![args[0]] + placed2.0);
            assert(placed.0.drop_first() =~= placed2.0);
            assert(placed.1 == placed2.1);
            assert(placed.2 == placed2.2);
            lemma_slot_args_bytes_len(placed2.0, 8);
            let enc = slot_args_bytes(placed.0, 8);
            let first = le_bytes(x, 8);
            lemma_le_bytes_len(x, 8);
            assert(placed.0[0] == args[0]);
            let off = s.gp_offset as int;
            assert(forall|j: int|
                0 <= j < wv ==> s.reg_save_area@[#[trigger] (off + j)] == first[0 + j]) by {
                assert forall|j: int| 0 <= j < wv implies s.reg_save_area@[#[trigger] (off + j)]
                    == first[0 + j] by {
                    assert(s.reg_save_area@[off + j] == s.reg_save_area@.subrange(
                        off,
                        off + 8 * placed.0.len(),
                    )[j]);
                    assert(enc[j] == first[j]);
                }
            }
            lemma_le_val_equal_ranges(s.reg_save_area@, first, off, 0, wv);
            lemma_le_bytes_read(x, 8, wv);
            assert(v.val(k) == x);
            assert(v.can_get(k));

            assert(s2.gp_offset == off + 8);
            assert(s2.reg_save_area@.subrange(off + 8, off + 8 + 8 * placed2.0.len())
                =~= slot_args_bytes(placed2.0, 8)) by {
                let e2 = slot_args_bytes(placed2.0, 8);
                assert(enc == le_bytes(x, 8) + e2);
                assert forall|j: int| 0 <= j < 8 * placed2.0.len() implies s2.reg_save_area@[off
                    + 8 + j] == e2[j] by {
                    assert(s.reg_save_area@[off + 8 + j] == s.reg_save_area@.subrange(
                        off,
                        off + 8 * placed.0.len(),
                    )[8 + j]);
                    assert(enc[8 + j] == e2[j]);
                }
            }
            assert(s2.fp_offset == s.fp_offset && s2.overflow_pos == s.overflow_pos);
            assert(s2.ovf_read_pos(8) == start);
            assert(sysv_image(s2, rest));
        } else if k.spec_is_float() && s.fp_fits() {
            // Homed in the next vector register slot.
            let placed2 = sysv_split(rest, 48 - s.gp_offset, 176 - s.fp_offset - 16);
            lemma_sysv_split_bounds(rest, 48 - s.gp_offset, 176 - s.fp_offset - 16);
            assert(placed.1 == seq![args[0]] + placed2.1);
            assert(placed.1.drop_first() =~= placed2.1);
            assert(placed.0 == placed2.0);
            assert(placed.2 == placed2.2);
            lemma_slot_args_bytes_len(placed2.1, 16);
            let enc = slot_args_bytes(placed.1, 16);
            let first = le_bytes(x, 16);
            lemma_le_bytes_len(x, 16);
            assert(placed.1[0] == args[0]);
            let off = s.fp_offset as int;
            assert(forall|j: int|
                0 <= j < wv ==> s.reg_save_area@[#[trigger] (off + j)] == first[0 + j]) by {
                assert forall|j: int| 0 <= j < wv implies s.reg_save_area@[#[trigger] (off + j)]
                    == first[0 + j] by {
                    assert(s.reg_save_area@[off + j] == s.reg_save_area@.subrange(
                        off,
                        off + 16 * placed.1.len(),
                    )[j]);
                    assert(enc[j] == first[j]);
                }
            }
            lemma_le_val_equal_ranges(s.reg_save_area@, first, off, 0, wv);
            lemma_le_bytes_read(x, 16, wv);
            assert(v.val(k) == x);
            assert(v.can_get(k));

            assert(s2.fp_offset == off + 16);
            assert(s2.reg_save_area@.subrange(off + 16, off + 16 + 16 * placed2.1.len())
                =~= slot_args_bytes(placed2.1, 16)) by {
                let e2 = slot_args_bytes(placed2.1, 16);
                assert(enc == le_bytes(x, 16) + e2);
                assert forall|j: int| 0 <= j < 16 * placed2.1.len() implies s2.reg_save_area@[
                    off + 16 + j] == e2[j] by {
                    assert(s.reg_save_area@[off + 16 + j] == s.reg_save_area@.subrange(
                        off,
                        off + 16 * placed.1.len(),
                    )[16 + j]);
                    assert(enc[16 + j] == e2[j]);
                }
            }
            assert(s2.gp_offset == s.gp_offset && s2.overflow_pos == s.overflow_pos);
            assert(s2.ovf_read_pos(8) == start);
            assert(sysv_image(s2, rest));
        } else {
            // The class's register budget is spent: homed in the next
            // 8-byte-aligned overflow stack slot.
            let placed2 = sysv_split(rest, 48 - s.gp_offset, 176 - s.fp_offset);
            lemma_sysv_split_bounds(rest, 48 - s.gp_offset, 176 - s.fp_offset);
            assert(placed.2 == seq![args[0]] + placed2.2);
            assert(placed.2.drop_first() =~= placed2.2);
            assert(placed.0 == placed2.0);
            assert(placed.1 == placed2.1);
            lemma_slot_args_bytes_len(placed2.2, 8);
            let enc = slot_args_bytes(placed.2, 8);
            let first = le_bytes(x, 8);
            lemma_le_bytes_len(x, 8);
            assert(placed.2[0] == args[0]);
            assert(s.ovf_read_pos(wv) == start);
            assert(forall|j: int|
                0 <= j < wv ==> s.overflow_area@[#[trigger] (start + j)] == first[0 + j]) by {
                assert forall|j: int| 0 <= j < wv implies s.overflow_area@[#[trigger] (start
                    + j)] == first[0 + j] by {
                    assert(s.overflow_area@[start + j] == s.overflow_area@.subrange(
                        start,
                        start + 8 * placed.2.len(),
                    )[j]);
                    assert(enc[j] == first[j]);
                }
            }
            lemma_le_val_equal_ranges(s.overflow_area@, first, start, 0, wv);
            lemma_le_bytes_read(x, 8, wv);
            assert(v.val(k) == x);
            assert(v.can_get(k));

            // The overflow cursor lands on the next 8-byte boundary:
            // exactly one slot past the one just read.
            crate::sysv_x86_64::lemma_round_up(s.overflow_base + s.overflow_pos, 8);
            assert((s.overflow_base + start) % 8 == 0);
            assert(s2.overflow_pos == start + wv);
            crate::sysv_x86_64::lemma_round_up(s.overflow_base + start + wv, 8);
            let start2 = s2.ovf_read_pos(8);
            assert(start2 == start + 8) by {
                let y = s.overflow_base + start;
                let z = s.overflow_base + start2;
                assert(y + wv <= z < y + wv + 8);
                assert(z % 8 == 0);
                vstd::arithmetic::div_mod::lemma_fundamental_div_mod(y, 8);
                vstd::arithmetic::div_mod::lemma_fundamental_div_mod(z, 8);
                assert(z - y == 8 * (z / 8) - 8 * (y / 8));
                assert(8 * (z / 8) - 8 * (y / 8) == 8 * (z / 8 - y / 8)) by (nonlinear_arith);
                assert(0 < z - y < 16);
                assert(z / 8 - y / 8 == 1) by (nonlinear_arith)
                    requires
                        z - y == 8 * (z / 8 - y / 8),
                        0 < z - y < 16,
                ;
            }
            assert(s2.gp_offset == s.gp_offset && s2.fp_offset == s.fp_offset);
            assert(s2.overflow_area@.subrange(start2, start2 + 8 * placed2.2.len())
                =~= slot_args_bytes(placed2.2, 8)) by {
                let e2 = slot_args_bytes(placed2.2, 8);
                assert(enc == le_bytes(x, 8) + e2);
                assert forall|j: int| 0 <= j < 8 * placed2.2.len() implies s2.overflow_area@[
                    start2 + j] == e2[j] by {
                    assert(s.overflow_area@[start + 8 + j] == s.overflow_area@.subrange(
                        start,
                        start + 8 * placed.2.len(),
                    )[8 + j]);
                    assert(enc[8 + j] == e2[j]);
                }
            }
            assert(sysv_image(s2, rest));
        }

        assert(forall|j: int|
            0 <= j < rest.len() ==> 0 <= (#[trigger] rest[j]).1 < pow256(
                v2.value_width(rest[j].0),
            )) by {
            assert forall|j: int|
                0 <= j < rest.len() implies 0 <= (#[trigger] rest[j]).1 < pow256(
                v2.value_width(rest[j].0),
            ) by {
                assert(rest[j] == args[j + 1]);
            }
        }
        lemma_sysv64_round_trip(v2, rest);
        assert(kinds_of(args)[0] == k);
        assert(kinds_of(args).drop_first() =~= kinds_of(rest));
        assert(can_read_all(v, kinds_of(args)));
        assert(read_vals(v, kinds_of(args)) =~= values_of(args)) by {
            assert(read_vals(v2, kinds_of(rest)) == values_of(rest));
            assert(forall|j: int|
                0 <= j < rest.len() ==> values_of(rest)[j] == (#[trigger] rest[j]).1);
        }
    }
}
} // verus!
