use yaavre::emulator::{prune_frames, Emulator};
use yaavre::insn::{Insn, InsnClass, MemAccess, MemRegUpdate};
use yaavre::machine::{Fault, Notice};
use yaavre::sreg::{Flag, SReg};

fn machine() -> Emulator {
    let mut emu = Emulator::new();
    emu.io_mem.set_sp(0x3fff);
    emu
}

fn exec(emu: &mut Emulator, insn: Insn) -> Option<Notice> {
    emu.step(Some(insn)).unwrap()
}

fn binary(insn: Insn, rd: u8, rr: u8, before: SReg) -> (u8, SReg) {
    let mut emu = machine();
    emu.set_reg8(16, rd);
    emu.set_reg8(17, rr);
    emu.io_mem.sreg = before;
    exec(&mut emu, insn);
    (emu.get_reg8(16), emu.io_mem.sreg)
}

fn unary(insn: Insn, rd: u8, before: SReg) -> (u8, SReg) {
    binary(insn, rd, 0, before)
}

fn flags(letters: &str) -> SReg {
    let mut sreg = SReg::new();
    for ch in letters.chars() {
        match ch {
            'C' => sreg.c = true,
            'Z' => sreg.z = true,
            'N' => sreg.n = true,
            'V' => sreg.v = true,
            'S' => sreg.s = true,
            'H' => sreg.h = true,
            'T' => sreg.t = true,
            'I' => sreg.i = true,
            _ => unreachable!(),
        }
    }
    sreg
}

#[test]
fn sub_of_a_value_from_itself_sets_only_zero() {
    for u in 0..=255u8 {
        let (r, sreg) = binary(Insn::Sub(16, 17), u, u, flags("CNVSH"));
        assert_eq!(r, 0);
        assert!(sreg.z);
        assert!(!sreg.n);
        assert!(!sreg.v);
        assert!(!sreg.c);
    }
}

#[test]
fn sub_carry_is_the_borrow() {
    for u in 0..=255u8 {
        for v in [0u8, 1, 2, 0x0f, 0x10, 0x7f, 0x80, 0x81, 0xfe, 0xff] {
            let (r, sreg) = binary(Insn::Sub(16, 17), u, v, SReg::new());
            assert_eq!(r, u.wrapping_sub(v));
            assert_eq!(sreg.c, u < v);
        }
    }
}

#[test]
fn add_carry_is_the_overflow_out_of_eight_bits() {
    for u in 0..=255u8 {
        for v in [0u8, 1, 0x0f, 0x10, 0x7f, 0x80, 0xff] {
            let (r, sreg) = binary(Insn::Add(16, 17), u, v, SReg::new());
            assert_eq!(r, u.wrapping_add(v));
            assert_eq!(sreg.c, (u as u16) + (v as u16) > 0xff);
        }
    }
}

#[test]
fn add_7f_and_01_overflows_into_the_sign() {
    let (r, sreg) = binary(Insn::Add(16, 17), 0x7f, 0x01, SReg::new());
    assert_eq!(r, 0x80);
    assert!(sreg.v);
    assert!(sreg.n);
    assert!(sreg.h);
    assert!(!sreg.c);
    assert!(!sreg.z);
    assert!(!sreg.s);
}

#[test]
fn add_ff_and_01_carries_out() {
    let (r, sreg) = binary(Insn::Add(16, 17), 0xff, 0x01, SReg::new());
    assert_eq!(r, 0x00);
    assert!(sreg.c);
    assert!(sreg.z);
    assert!(!sreg.v);
    assert!(sreg.h);
    assert!(!sreg.n);
}

#[test]
fn inc_and_dec_flags_at_the_edges() {
    let (r, sreg) = unary(Insn::Inc(16), 0x7f, SReg::new());
    assert_eq!(r, 0x80);
    assert!(sreg.v && sreg.n && !sreg.s && !sreg.z);
    let (r, sreg) = unary(Insn::Inc(16), 0xff, SReg::new());
    assert_eq!(r, 0x00);
    assert!(sreg.z && !sreg.v && !sreg.n);
    let (r, sreg) = unary(Insn::Dec(16), 0x80, SReg::new());
    assert_eq!(r, 0x7f);
    assert!(sreg.v && !sreg.n && sreg.s);
    let (r, sreg) = unary(Insn::Dec(16), 0x00, SReg::new());
    assert_eq!(r, 0xff);
    assert!(sreg.n && !sreg.v && sreg.s && !sreg.z);
}

#[test]
fn inc_and_dec_leave_the_carry_alone() {
    let (_, sreg) = unary(Insn::Inc(16), 0xff, flags("C"));
    assert!(sreg.c);
    let (_, sreg) = unary(Insn::Dec(16), 0x00, SReg::new());
    assert!(!sreg.c);
}

#[test]
fn adc_adds_the_carry_in() {
    let (r, sreg) = binary(Insn::Adc(16, 17), 0x0f, 0x00, flags("C"));
    assert_eq!(r, 0x10);
    assert!(sreg.h && !sreg.c && !sreg.z);
    let (r, sreg) = binary(Insn::Adc(16, 17), 0xff, 0x00, flags("C"));
    assert_eq!(r, 0x00);
    assert!(sreg.c && sreg.z);
}

#[test]
fn with_carry_subtraction_only_ever_clears_zero() {
    let (r, sreg) = binary(Insn::Sbc(16, 17), 5, 5, flags("Z"));
    assert_eq!(r, 0);
    assert!(sreg.z);
    let (r, sreg) = binary(Insn::Sbc(16, 17), 5, 5, SReg::new());
    assert_eq!(r, 0);
    assert!(!sreg.z);
    let (r, sreg) = binary(Insn::Sbc(16, 17), 5, 4, flags("CZ"));
    assert_eq!(r, 0);
    assert!(sreg.z && !sreg.c);
    let (r, sreg) = binary(Insn::Sbci(16, 1), 0, 0, flags("CZ"));
    assert_eq!(r, 0xfe);
    assert!(!sreg.z && sreg.c && sreg.n);
    let (r, sreg) = binary(Insn::Cpc(16, 17), 3, 3, flags("Z"));
    assert_eq!(r, 3);
    assert!(sreg.z);
}

#[test]
fn compare_sets_flags_and_keeps_the_register() {
    let (r, sreg) = binary(Insn::Cp(16, 17), 3, 4, SReg::new());
    assert_eq!(r, 3);
    assert!(sreg.c && sreg.n && sreg.h && sreg.s && !sreg.z && !sreg.v);
    let (r, sreg) = binary(Insn::Cpi(16, 0x80), 0x80, 0, flags("C"));
    assert_eq!(r, 0x80);
    assert!(sreg.z && !sreg.c);
    let (r, sreg) = binary(Insn::Subi(16, 1), 0x80, 0, SReg::new());
    assert_eq!(r, 0x7f);
    assert!(sreg.v && sreg.s && !sreg.n && sreg.h);
}

#[test]
fn logic_clears_overflow_and_keeps_carry() {
    let (r, sreg) = binary(Insn::And(16, 17), 0xf0, 0x8f, flags("CVH"));
    assert_eq!(r, 0x80);
    assert!(sreg.n && sreg.s && !sreg.v && !sreg.z && sreg.c && sreg.h);
    let (r, sreg) = binary(Insn::Eor(16, 17), 0x5a, 0x5a, flags("NS"));
    assert_eq!(r, 0);
    assert!(sreg.z && !sreg.n && !sreg.s);
    let (r, _) = binary(Insn::Or(16, 17), 0x0f, 0x30, SReg::new());
    assert_eq!(r, 0x3f);
    let (r, _) = binary(Insn::Andi(16, 0x0f), 0xab, 0, SReg::new());
    assert_eq!(r, 0x0b);
    let (r, _) = binary(Insn::Ori(16, 0x0f), 0xa0, 0, SReg::new());
    assert_eq!(r, 0xaf);
}

#[test]
fn shifts_move_bit_zero_into_the_carry() {
    let (r, sreg) = unary(Insn::Lsr(16), 0x81, SReg::new());
    assert_eq!(r, 0x40);
    assert!(sreg.c && !sreg.n && sreg.v && sreg.s && !sreg.z);
    let (r, sreg) = unary(Insn::Asr(16), 0x82, flags("C"));
    assert_eq!(r, 0xc1);
    assert!(!sreg.c && sreg.n && sreg.v && !sreg.s);
    let (r, sreg) = unary(Insn::Ror(16), 0x01, flags("C"));
    assert_eq!(r, 0x80);
    assert!(sreg.c && sreg.n && !sreg.v && sreg.s);
    let (r, sreg) = unary(Insn::Ror(16), 0x01, SReg::new());
    assert_eq!(r, 0x00);
    assert!(sreg.c && sreg.z && sreg.v);
}

#[test]
fn swap_exchanges_the_nibbles() {
    let (r, sreg) = unary(Insn::Swap(16), 0xa5, flags("CZ"));
    assert_eq!(r, 0x5a);
    assert_eq!(sreg, flags("CZ"));
}

#[test]
fn com_and_neg() {
    let (r, sreg) = unary(Insn::Com(16), 0x0f, SReg::new());
    assert_eq!(r, 0xf0);
    assert!(sreg.c && sreg.n && sreg.s && !sreg.v && !sreg.z);
    let (r, sreg) = unary(Insn::Com(16), 0xff, SReg::new());
    assert_eq!(r, 0x00);
    assert!(sreg.c && sreg.z);
    let (r, sreg) = unary(Insn::Neg(16), 0x01, SReg::new());
    assert_eq!(r, 0xff);
    assert!(sreg.c && sreg.n && sreg.h && !sreg.v && sreg.s);
    let (r, sreg) = unary(Insn::Neg(16), 0x80, SReg::new());
    assert_eq!(r, 0x80);
    assert!(sreg.c && sreg.v && sreg.n && !sreg.s && !sreg.h);
    let (r, sreg) = unary(Insn::Neg(16), 0x00, flags("C"));
    assert_eq!(r, 0x00);
    assert!(!sreg.c && sreg.z);
}

#[test]
fn mul_writes_the_product_to_r1_r0() {
    let mut emu = machine();
    emu.set_reg8(16, 0xff);
    emu.set_reg8(17, 0xff);
    emu.io_mem.sreg = flags("ZN");
    exec(&mut emu, Insn::Mul(16, 17));
    assert_eq!(emu.get_reg16(0), 0xfe01);
    assert_eq!(emu.io_mem.sreg, flags("CN"));
    emu.set_reg8(17, 0);
    exec(&mut emu, Insn::Mul(16, 17));
    assert_eq!(emu.get_reg16(0), 0);
    assert_eq!(emu.io_mem.sreg, flags("ZN"));
}

#[test]
fn word_arithmetic_on_a_pair() {
    let mut emu = machine();
    emu.set_reg16(24, 0x7fff);
    exec(&mut emu, Insn::Adiw(24, 1));
    assert_eq!(emu.get_reg16(24), 0x8000);
    assert_eq!(emu.io_mem.sreg, flags("NV"));
    emu.set_reg16(24, 0xffff);
    exec(&mut emu, Insn::Adiw(24, 1));
    assert_eq!(emu.get_reg16(24), 0);
    assert_eq!(emu.io_mem.sreg, flags("CZ"));
    exec(&mut emu, Insn::Sbiw(24, 1));
    assert_eq!(emu.get_reg16(24), 0xffff);
    assert_eq!(emu.io_mem.sreg, flags("CNS"));
    emu.set_reg16(24, 0x8000);
    exec(&mut emu, Insn::Sbiw(24, 1));
    assert_eq!(emu.get_reg16(24), 0x7fff);
    assert_eq!(emu.io_mem.sreg, flags("VS"));
}

#[test]
fn moves_copy_registers() {
    let mut emu = machine();
    exec(&mut emu, Insn::Ldi(20, 0x42));
    exec(&mut emu, Insn::Mov(21, 20));
    assert_eq!(emu.get_reg8(21), 0x42);
    emu.set_reg16(2, 0xbeef);
    exec(&mut emu, Insn::Movw(4, 2));
    assert_eq!(emu.get_reg16(4), 0xbeef);
    assert_eq!(emu.io_mem.sreg, SReg::new());
    assert_eq!(emu.pc, 6);
    assert_eq!(emu.insn_count, 3);
}

#[test]
fn flag_instructions_set_and_clear_one_flag() {
    let all = [Flag::C, Flag::Z, Flag::N, Flag::V, Flag::S, Flag::H, Flag::T, Flag::I];
    let mut emu = machine();
    for (k, flag) in all.iter().enumerate() {
        exec(&mut emu, Insn::SetFlag(*flag));
        assert_eq!(emu.io_mem.sreg.as_u8(), 1 << k);
        exec(&mut emu, Insn::ClearFlag(*flag));
        assert_eq!(emu.io_mem.sreg.as_u8(), 0);
    }
}

#[test]
fn bst_and_bld_move_one_bit_through_t() {
    let mut emu = machine();
    emu.set_reg8(16, 0b0000_1000);
    exec(&mut emu, Insn::Bst(16, 3));
    assert!(emu.io_mem.sreg.t);
    exec(&mut emu, Insn::Bld(17, 7));
    assert_eq!(emu.get_reg8(17), 0x80);
    exec(&mut emu, Insn::Bst(16, 2));
    assert!(!emu.io_mem.sreg.t);
    emu.set_reg8(17, 0xff);
    exec(&mut emu, Insn::Bld(17, 0));
    assert_eq!(emu.get_reg8(17), 0xfe);
}

#[test]
fn branches_follow_their_flags() {
    let cases = [
        (Insn::Breq(10), "Z", true),
        (Insn::Breq(10), "", false),
        (Insn::Brne(10), "", true),
        (Insn::Brne(10), "Z", false),
        (Insn::Brcc(10), "", true),
        (Insn::Brcc(10), "C", false),
        (Insn::Brcs(10), "C", true),
        (Insn::Brcs(10), "", false),
        (Insn::Brge(10), "", true),
        (Insn::Brge(10), "NV", true),
        (Insn::Brge(10), "N", false),
        (Insn::Brlt(10), "V", true),
        (Insn::Brlt(10), "NV", false),
        (Insn::Brmi(10), "N", true),
        (Insn::Brmi(10), "", false),
        (Insn::Brpl(10), "", true),
        (Insn::Brpl(10), "N", false),
        (Insn::Brtc(10), "", true),
        (Insn::Brtc(10), "T", false),
        (Insn::Brts(10), "T", true),
        (Insn::Brts(10), "", false),
    ];
    for (insn, letters, taken) in cases {
        let mut emu = machine();
        emu.pc = 100;
        emu.io_mem.sreg = flags(letters);
        exec(&mut emu, insn);
        assert_eq!(emu.pc, if taken { 112 } else { 102 });
        assert_eq!(emu.io_mem.sreg, flags(letters));
    }
}

#[test]
fn backward_branch_and_wrapping_relative_jump() {
    let mut emu = machine();
    emu.pc = 100;
    emu.io_mem.sreg.z = true;
    exec(&mut emu, Insn::Breq(-128));
    assert_eq!(emu.pc, 0xffff_ffe6);
    let mut emu = machine();
    exec(&mut emu, Insn::Rjmp(-4));
    assert_eq!(emu.pc, 0xffff_fffe);
    assert!(!emu.halted);
}

#[test]
fn jumps_set_the_program_counter() {
    let mut emu = machine();
    exec(&mut emu, Insn::Jmp(0x1234));
    assert_eq!(emu.pc, 0x1234);
    let mut emu = machine();
    exec(&mut emu, Insn::Rjmp(20));
    assert_eq!(emu.pc, 22);
    let mut emu = machine();
    emu.io_mem.set8(0x3c, 0x01);
    emu.set_reg16(30, 0x0004);
    exec(&mut emu, Insn::Eijmp);
    assert_eq!(emu.pc, 0x02_0008);
}

#[test]
fn relative_and_indirect_calls_push_the_return_address() {
    let mut emu = machine();
    emu.pc = 0x100;
    exec(&mut emu, Insn::Rcall(0x20));
    assert_eq!(emu.pc, 0x122);
    assert_eq!(emu.call_stack, vec![(0x3fff, 0x100, 0x122)]);
    assert_eq!(emu.io_mem.get_sp(), 0x3ffc);
    assert_eq!(emu.io_mem.data_mem[0x3fff], 0x81);
    emu.set_reg16(30, 0x0040);
    emu.pc = 0x122;
    exec(&mut emu, Insn::Eicall);
    assert_eq!(emu.pc, 0x80);
    assert_eq!(emu.call_stack, vec![(0x3fff, 0x100, 0x122), (0x3ffc, 0x122, 0x80)]);
    exec(&mut emu, Insn::Ret);
    assert_eq!(emu.pc, 0x124);
    assert_eq!(emu.call_stack, vec![(0x3fff, 0x100, 0x122)]);
    exec(&mut emu, Insn::Reti);
    assert_eq!(emu.pc, 0x102);
    assert!(emu.call_stack.is_empty());
    assert!(emu.io_mem.sreg.i);
    assert_eq!(emu.io_mem.get_sp(), 0x3fff);
}

#[test]
fn return_prunes_every_frame_at_or_below_the_stack_pointer() {
    let mut emu = machine();
    exec(&mut emu, Insn::Call(0x10));
    exec(&mut emu, Insn::Rcall(0));
    exec(&mut emu, Insn::Rcall(0));
    assert_eq!(emu.call_stack.len(), 3);
    emu.io_mem.set_sp(0x3ffc);
    exec(&mut emu, Insn::Ret);
    assert_eq!(emu.pc, 4);
    assert!(emu.call_stack.is_empty());
    assert_eq!(emu.io_mem.get_sp(), 0x3fff);
}

#[test]
fn return_prunes_a_low_frame_below_a_higher_one() {
    let mut emu = machine();
    emu.call_stack = vec![(5, 0x20, 0x40), (100, 0x42, 0x60)];
    emu.io_mem.set_sp(7);
    exec(&mut emu, Insn::Ret);
    assert_eq!(emu.io_mem.get_sp(), 10);
    assert_eq!(emu.call_stack, vec![(100, 0x42, 0x60)]);
}

#[test]
fn return_prunes_frames_wherever_they_stand() {
    let mut emu = machine();
    emu.call_stack =
        vec![(0x3000, 1, 2), (0x10, 3, 4), (0x2003, 5, 6), (0x2004, 7, 8), (0x1fff, 9, 10)];
    emu.io_mem.set_sp(0x2000);
    exec(&mut emu, Insn::Reti);
    assert_eq!(emu.io_mem.get_sp(), 0x2003);
    assert_eq!(emu.call_stack, vec![(0x3000, 1, 2), (0x2004, 7, 8)]);
}

#[test]
fn prune_frames_keeps_the_frames_above_the_stack_pointer_in_order() {
    let mut frames = vec![(5u16, 0u32, 0u32), (100, 1, 1), (10, 2, 2), (11, 3, 3)];
    prune_frames(&mut frames, 10);
    assert_eq!(frames, vec![(100, 1, 1), (11, 3, 3)]);
    prune_frames(&mut frames, 4);
    assert_eq!(frames, vec![(100, 1, 1), (11, 3, 3)]);
    prune_frames(&mut frames, 0xffff);
    assert!(frames.is_empty());
    prune_frames(&mut frames, 0);
    assert!(frames.is_empty());
}

#[test]
fn flag_setter_for_subtraction() {
    for u in [0u8, 1, 0x7f, 0x80, 0xff] {
        let mut emu = machine();
        emu.io_mem.sreg = flags("CNVSHTI");
        emu.set_sreg_for_sub(u, u, 0, false);
        assert_eq!(emu.io_mem.sreg, flags("ZTI"));
    }
    let mut emu = machine();
    emu.set_sreg_for_sub(3, 5, 0xfe, false);
    assert_eq!(emu.io_mem.sreg, flags("CNSH"));
    emu.set_sreg_for_sub(0x80, 1, 0x7f, false);
    assert_eq!(emu.io_mem.sreg, flags("VSH"));
    emu.set_sreg_for_sub(5, 5, 0, true);
    assert_eq!(emu.io_mem.sreg, SReg::new());
}

#[test]
fn flag_setter_for_addition() {
    let mut emu = machine();
    emu.io_mem.sreg = flags("TI");
    emu.set_sreg_for_add(0x7f, 0x01, 0x80);
    assert_eq!(emu.io_mem.sreg, flags("NVHTI"));
    emu.set_sreg_for_add(0xff, 0x01, 0x00);
    assert_eq!(emu.io_mem.sreg, flags("CZHTI"));
    emu.set_sreg_for_add(0x80, 0x80, 0x00);
    assert_eq!(emu.io_mem.sreg, flags("CZVSTI"));
}

#[test]
fn push_and_pop_registers() {
    let mut emu = machine();
    emu.set_reg8(3, 0x99);
    exec(&mut emu, Insn::Push(3));
    assert_eq!(emu.io_mem.get_sp(), 0x3ffe);
    assert_eq!(emu.io_mem.data_mem[0x3fff], 0x99);
    exec(&mut emu, Insn::Pop(4));
    assert_eq!(emu.get_reg8(4), 0x99);
    assert_eq!(emu.io_mem.get_sp(), 0x3fff);
}

#[test]
fn skips_suppress_the_next_instruction_but_advance_over_it() {
    let mut emu = machine();
    emu.set_reg8(16, 0b0000_0100);
    exec(&mut emu, Insn::Sbrc(16, 2));
    assert!(!emu.skip_next_insn);
    exec(&mut emu, Insn::Sbrc(16, 1));
    assert!(emu.skip_next_insn);
    exec(&mut emu, Insn::Ldi(20, 7));
    assert!(!emu.skip_next_insn);
    assert_eq!(emu.get_reg8(20), 0);
    assert_eq!(emu.pc, 6);
    assert_eq!(emu.insn_count, 3);
    exec(&mut emu, Insn::Sbrs(16, 2));
    assert!(emu.skip_next_insn);
    exec(&mut emu, Insn::Jmp(0x1000));
    assert_eq!(emu.pc, 12);
    exec(&mut emu, Insn::Sbrs(16, 0));
    assert!(!emu.skip_next_insn);
}

#[test]
fn compare_and_skip() {
    let mut emu = machine();
    emu.set_reg8(1, 9);
    emu.set_reg8(2, 9);
    exec(&mut emu, Insn::Cpse(1, 2));
    assert!(emu.skip_next_insn);
    exec(&mut emu, Insn::Other);
    assert_eq!(emu.pc, 4);
    emu.set_reg8(2, 8);
    exec(&mut emu, Insn::Cpse(1, 2));
    assert!(!emu.skip_next_insn);
}

#[test]
fn in_and_out_use_the_data_space() {
    let mut emu = machine();
    emu.set_reg8(16, 0x12);
    assert_eq!(exec(&mut emu, Insn::Out(0x3b, 16)), None);
    assert_eq!(emu.io_mem.get_rampz(), 0x12);
    assert_eq!(exec(&mut emu, Insn::In(17, 0x3b)), None);
    assert_eq!(emu.get_reg8(17), 0x12);
    emu.io_mem.sreg = flags("CT");
    assert_eq!(exec(&mut emu, Insn::In(18, 0x3f)), None);
    assert_eq!(emu.get_reg8(18), 0x41);
    assert_eq!(exec(&mut emu, Insn::In(19, 0x51)), None);
    assert_eq!(emu.get_reg8(19), 0xff);
}

#[test]
fn unmodelled_accesses_are_reported() {
    let mut emu = machine();
    emu.set_reg8(16, 0x12);
    emu.set_reg8(17, 0x34);
    assert_eq!(
        exec(&mut emu, Insn::Out(0x10, 16)),
        Some(Notice::UnmodelledWrite { addr: 0x10, val: 0x12 })
    );
    assert_eq!(exec(&mut emu, Insn::In(17, 0x10)), Some(Notice::UnmodelledRead { addr: 0x10 }));
    assert_eq!(emu.get_reg8(17), 0);
    assert_eq!(
        exec(&mut emu, Insn::Lds(17, 0x1fff)),
        Some(Notice::UnmodelledRead { addr: 0x1fff })
    );
    assert_eq!(
        exec(&mut emu, Insn::Sts(0x0400, 16)),
        Some(Notice::UnmodelledWrite { addr: 0x0400, val: 0x12 })
    );
}

#[test]
fn lds_and_sts_reach_sram() {
    let mut emu = machine();
    emu.set_reg8(16, 0x77);
    assert_eq!(exec(&mut emu, Insn::Sts(0x2345, 16)), None);
    assert_eq!(emu.io_mem.data_mem[0x2345], 0x77);
    assert_eq!(exec(&mut emu, Insn::Lds(17, 0x2345)), None);
    assert_eq!(emu.get_reg8(17), 0x77);
    assert_eq!(emu.pc, 8);
}

#[test]
fn load_with_displacement() {
    let mut emu = machine();
    emu.io_mem.data_mem[0x2105] = 0xaa;
    emu.set_reg16(28, 0x2100);
    let y5 = MemAccess { reg_pair: 28, ofs: 5, update: MemRegUpdate::Unchanged };
    assert_eq!(exec(&mut emu, Insn::Ldd(16, y5)), None);
    assert_eq!(emu.get_reg8(16), 0xaa);
    assert_eq!(emu.get_reg16(28), 0x2100);
}

#[test]
fn store_with_pre_decrement_and_load_with_post_increment() {
    let mut emu = machine();
    emu.set_reg16(26, 0x2100);
    emu.set_reg8(16, 0x55);
    let minus_x = MemAccess { reg_pair: 26, ofs: 0, update: MemRegUpdate::PreDec };
    let x_plus = MemAccess { reg_pair: 26, ofs: 0, update: MemRegUpdate::PostInc };
    assert_eq!(exec(&mut emu, Insn::St(minus_x, 16)), None);
    assert_eq!(emu.io_mem.data_mem[0x20ff], 0x55);
    assert_eq!(emu.io_mem.get_full_x(), 0x20ff);
    assert_eq!(exec(&mut emu, Insn::Ld(17, x_plus)), None);
    assert_eq!(emu.get_reg8(17), 0x55);
    assert_eq!(emu.io_mem.get_full_x(), 0x2100);
}

#[test]
fn wide_pointers_carry_into_and_out_of_the_ramp_byte() {
    let mut emu = machine();
    emu.io_mem.set_full_y(0x01_0000);
    emu.set_reg8(16, 0x66);
    let minus_y = MemAccess { reg_pair: 28, ofs: 0, update: MemRegUpdate::PreDec };
    let y_plus = MemAccess { reg_pair: 28, ofs: 0, update: MemRegUpdate::PostInc };
    assert_eq!(exec(&mut emu, Insn::St(minus_y, 16)), None);
    assert_eq!(emu.io_mem.data_mem[0xffff], 0x66);
    assert_eq!(emu.io_mem.get_full_y(), 0x00_ffff);
    assert_eq!(exec(&mut emu, Insn::Ld(17, y_plus)), None);
    assert_eq!(emu.get_reg8(17), 0x66);
    assert_eq!(emu.io_mem.get_full_y(), 0x01_0000);
    assert_eq!(emu.io_mem.get_rampy(), 0x01);
}

#[test]
fn wide_pointer_wraps_at_twenty_four_bits() {
    let mut emu = machine();
    emu.io_mem.set_full_z(0);
    let minus_z = MemAccess { reg_pair: 30, ofs: 0, update: MemRegUpdate::PreDec };
    let z_plus = MemAccess { reg_pair: 30, ofs: 0, update: MemRegUpdate::PostInc };
    assert_eq!(
        exec(&mut emu, Insn::ElpmZ(5, minus_z)),
        Some(Notice::ProgramReadPastEnd { addr: 0xff_ffff })
    );
    assert_eq!(emu.io_mem.get_full_z(), 0xff_ffff);
    assert_eq!(emu.get_reg8(5), 0);
    assert_eq!(
        exec(&mut emu, Insn::ElpmZ(5, z_plus)),
        Some(Notice::ProgramReadPastEnd { addr: 0xff_ffff })
    );
    assert_eq!(emu.io_mem.get_full_z(), 0);
}

#[test]
fn narrow_pointer_wraps_at_sixteen_bits_and_leaves_the_ramp_byte() {
    let mut emu = machine();
    assert_eq!(emu.load_bin(&[0x11, 0x22, 0x33, 0x44]), Ok(()));
    emu.io_mem.set_full_z(0x05_ffff);
    let z_plus = MemAccess { reg_pair: 30, ofs: 0, update: MemRegUpdate::PostInc };
    assert_eq!(
        exec(&mut emu, Insn::LpmZ(5, z_plus)),
        Some(Notice::ProgramReadPastEnd { addr: 0xffff })
    );
    assert_eq!(emu.get_reg16(30), 0);
    assert_eq!(emu.io_mem.get_rampz(), 0x05);
    let z3 = MemAccess { reg_pair: 30, ofs: 3, update: MemRegUpdate::Unchanged };
    assert_eq!(exec(&mut emu, Insn::LpmZ(6, z3)), None);
    assert_eq!(emu.get_reg8(6), 0x44);
}

#[test]
fn elpm_reads_through_rampz() {
    let mut emu = machine();
    let mut image = vec![0u8; 0x1_0004];
    image[0x1_0002] = 0xcd;
    assert_eq!(emu.load_bin(&image), Ok(()));
    emu.io_mem.set_full_z(0x01_0002);
    let z = MemAccess { reg_pair: 30, ofs: 0, update: MemRegUpdate::Unchanged };
    assert_eq!(exec(&mut emu, Insn::ElpmZ(7, z)), None);
    assert_eq!(emu.get_reg8(7), 0xcd);
    assert_eq!(exec(&mut emu, Insn::LpmZ(8, z)), None);
    assert_eq!(emu.get_reg8(8), 0);
}

#[test]
fn usart_input_is_read_through_a_load() {
    let mut emu = machine();
    emu.io_mem.usart_input = vec![b'x'];
    assert_eq!(exec(&mut emu, Insn::Lds(16, 0x08a1)), None);
    assert_eq!(emu.get_reg8(16), 0xa0);
    assert_eq!(exec(&mut emu, Insn::Lds(16, 0x08a0)), None);
    assert_eq!(emu.get_reg8(16), b'x');
    assert_eq!(exec(&mut emu, Insn::Lds(16, 0x08a1)), None);
    assert_eq!(emu.get_reg8(16), 0x20);
}

fn faults_and_leaves_alone(emu: &mut Emulator, fetched: Option<Insn>, fault: Fault) {
    let pc = emu.pc;
    let count = emu.insn_count;
    let sp = emu.io_mem.get_sp();
    let regs = emu.io_mem.regs.r;
    assert_eq!(emu.step(fetched), Err(fault));
    assert_eq!(emu.pc, pc);
    assert_eq!(emu.insn_count, count);
    assert_eq!(emu.io_mem.get_sp(), sp);
    assert_eq!(emu.io_mem.regs.r, regs);
}

#[test]
fn decode_faults() {
    let mut emu = machine();
    faults_and_leaves_alone(&mut emu, None, Fault::Decode);
    faults_and_leaves_alone(&mut emu, Some(Insn::Ldi(32, 0)), Fault::Decode);
    faults_and_leaves_alone(&mut emu, Some(Insn::Movw(31, 0)), Fault::Decode);
    faults_and_leaves_alone(&mut emu, Some(Insn::Bst(0, 8)), Fault::Decode);
    emu.pc = 1 << 22;
    faults_and_leaves_alone(&mut emu, Some(Insn::Nop), Fault::Decode);
    emu.pc = (1 << 22) - 1;
    assert_eq!(emu.step(Some(Insn::Nop)), Ok(None));
}

#[test]
fn unimplemented_instruction_faults() {
    let mut emu = machine();
    faults_and_leaves_alone(&mut emu, Some(Insn::Other), Fault::NotImplemented);
}

#[test]
fn stack_faults() {
    let mut emu = machine();
    emu.io_mem.set_sp(0);
    faults_and_leaves_alone(&mut emu, Some(Insn::Push(0)), Fault::Stack);
    emu.io_mem.set_sp(2);
    faults_and_leaves_alone(&mut emu, Some(Insn::Call(0x10)), Fault::Stack);
    faults_and_leaves_alone(&mut emu, Some(Insn::Rcall(0)), Fault::Stack);
    faults_and_leaves_alone(&mut emu, Some(Insn::Eicall), Fault::Stack);
    emu.io_mem.set_sp(0xffff);
    faults_and_leaves_alone(&mut emu, Some(Insn::Pop(0)), Fault::Stack);
    emu.io_mem.set_sp(0xfffd);
    faults_and_leaves_alone(&mut emu, Some(Insn::Ret), Fault::Stack);
    faults_and_leaves_alone(&mut emu, Some(Insn::Reti), Fault::Stack);
    assert!(!emu.io_mem.sreg.i);
    emu.io_mem.set_sp(0xfffc);
    assert_eq!(emu.step(Some(Insn::Ret)), Ok(None));
}

#[test]
fn bad_base_faults() {
    let mut emu = machine();
    let r24 = MemAccess { reg_pair: 24, ofs: 0, update: MemRegUpdate::PreDec };
    faults_and_leaves_alone(&mut emu, Some(Insn::Ld(0, r24)), Fault::BadBase);
    faults_and_leaves_alone(&mut emu, Some(Insn::Ldd(0, r24)), Fault::BadBase);
    faults_and_leaves_alone(&mut emu, Some(Insn::St(r24, 0)), Fault::BadBase);
    faults_and_leaves_alone(&mut emu, Some(Insn::Std(r24, 0)), Fault::BadBase);
    faults_and_leaves_alone(&mut emu, Some(Insn::ElpmZ(0, r24)), Fault::BadBase);
    emu.set_reg16(24, 1);
    assert_eq!(emu.step(Some(Insn::LpmZ(0, r24))), Ok(None));
    assert_eq!(emu.get_reg16(24), 0);
}

#[test]
fn address_faults() {
    let mut emu = machine();
    emu.io_mem.set_full_x(0x40_0000);
    let x = MemAccess { reg_pair: 26, ofs: 0, update: MemRegUpdate::Unchanged };
    let minus_x = MemAccess { reg_pair: 26, ofs: 0, update: MemRegUpdate::PreDec };
    faults_and_leaves_alone(&mut emu, Some(Insn::Ld(0, x)), Fault::Address);
    faults_and_leaves_alone(&mut emu, Some(Insn::St(x, 0)), Fault::Address);
    assert_eq!(emu.step(Some(Insn::Ld(0, minus_x))), Ok(None));
    assert_eq!(emu.io_mem.get_full_x(), 0x3f_ffff);
    emu.io_mem.set_full_x(0xff_ffff);
    let x1 = MemAccess { reg_pair: 26, ofs: 1, update: MemRegUpdate::Unchanged };
    faults_and_leaves_alone(&mut emu, Some(Insn::Ld(0, x)), Fault::Address);
    assert_eq!(
        emu.step(Some(Insn::Ld(0, x1))),
        Ok(Some(Notice::UnmodelledRead { addr: 0x100_0000 }))
    );
}

#[test]
fn input_exhaustion_faults() {
    let mut emu = machine();
    faults_and_leaves_alone(&mut emu, Some(Insn::Lds(0, 0x08a0)), Fault::InputExhausted);
    emu.set_reg16(30, 0x08a1);
    let minus_z = MemAccess { reg_pair: 30, ofs: 0, update: MemRegUpdate::PreDec };
    faults_and_leaves_alone(&mut emu, Some(Insn::Ld(0, minus_z)), Fault::InputExhausted);
    assert_eq!(emu.get_reg16(30), 0x08a1);
}

#[test]
fn counter_fault() {
    let mut emu = machine();
    emu.insn_count = u64::MAX;
    faults_and_leaves_alone(&mut emu, Some(Insn::Nop), Fault::Counter);
    emu.insn_count = u64::MAX - 1;
    assert_eq!(emu.step(Some(Insn::Nop)), Ok(None));
    assert_eq!(emu.insn_count, u64::MAX);
}

#[test]
fn a_pending_skip_hides_the_fault_of_the_skipped_instruction() {
    let mut emu = machine();
    emu.skip_next_insn = true;
    assert_eq!(emu.step(Some(Insn::Other)), Ok(None));
    assert_eq!(emu.pc, 2);
    emu.skip_next_insn = true;
    assert_eq!(emu.step(Some(Insn::Sts(0x0010, 0))), Ok(None));
    assert_eq!(emu.pc, 6);
    assert!(!emu.skip_next_insn);
}

#[test]
fn instruction_sizes() {
    assert_eq!(Insn::Jmp(0).byte_size(), 4);
    assert_eq!(Insn::Call(0).byte_size(), 4);
    assert_eq!(Insn::Lds(0, 0).byte_size(), 4);
    assert_eq!(Insn::Sts(0, 0).byte_size(), 4);
    assert_eq!(Insn::Nop.byte_size(), 2);
    assert_eq!(Insn::Rjmp(0).byte_size(), 2);
    assert_eq!(Insn::Other.byte_size(), 2);
    let z = MemAccess { reg_pair: 30, ofs: 0, update: MemRegUpdate::Unchanged };
    assert_eq!(Insn::Ld(0, z).byte_size(), 2);
}

#[test]
fn instruction_families() {
    assert_eq!(Insn::Nop.classify(), InsnClass::Flow);
    assert_eq!(Insn::Cpse(0, 1).classify(), InsnClass::Flow);
    assert_eq!(Insn::Ldi(16, 0).classify(), InsnClass::Bits);
    assert_eq!(Insn::Cp(0, 1).classify(), InsnClass::AddSub);
    assert_eq!(Insn::Mul(0, 1).classify(), InsnClass::Arith);
    assert_eq!(Insn::Push(0).classify(), InsnClass::Transfer);
    assert_eq!(Insn::Other.classify(), InsnClass::Unknown);
    assert!(Insn::Ldi(31, 0).is_wf());
    assert!(!Insn::Ldi(32, 0).is_wf());
    assert!(Insn::Adiw(30, 0).is_wf());
    assert!(!Insn::Adiw(31, 0).is_wf());
}
