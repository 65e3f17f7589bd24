//! The execution engine: program counter, skip pipeline, shadow call stack
//! and the handler of every implemented instruction.
use vstd::prelude::*;
use crate::flags::{is_difference_flags, is_sum_flags, lemma_add_flags, lemma_sub_flags};
use crate::insn::{Insn, InsnClass, MemAccess, MemRegUpdate};
use crate::iomem::{
    is_echoed, is_pointer_reg, is_xyz, lemma_full_of_bound, ramp_of, IOMemory, IoState,
    DATA_CAPACITY, SRAM_END, SRAM_START, USART_C0,
};
use crate::machine::{carry_of, product, pruned, rel_target, Fault, Frame, Machine, Notice};
use crate::progmem::{byte_at, image_words, ImageError, ProgramMemory, PROG_CAPACITY};

verus! {

/// Number of code words of the program memory that a new machine starts
/// with, all zero.
pub const DEFAULT_PROG_WORDS: usize = 0x20_0000;

pub struct Emulator {
    pub prog_mem: ProgramMemory,
    pub io_mem: IOMemory,
    pub pc: u32,
    pub call_stack: Vec<(u16, u32, u32)>,
    pub skip_next_insn: bool,
    pub insn_count: u64,
    pub halted: bool,
}

impl View for Emulator {
    type V = Machine;

    open spec fn view(&self) -> Machine {
        Machine {
            prog: self.prog_mem@,
            io: self.io_mem@,
            pc: self.pc,
            call_stack: self.call_stack@,
            skip_next_insn: self.skip_next_insn,
            insn_count: self.insn_count,
            halted: self.halted,
        }
    }
}

/// What a run did: what the host should report, in order, and the fault
/// that ended the run, if one did.
pub struct RunReport {
    pub notices: Vec<Notice>,
    pub fault: Option<Fault>,
}

/// Drops every frame of the shadow call stack whose recorded stack pointer
/// is at or below `sp`, and keeps the others in their order.
pub fn prune_frames(frames: &mut Vec<(u16, u32, u32)>, sp: u16)
    ensures
        final(frames)@ == pruned(old(frames)@, sp),
{
    let mut kept: Vec<(u16, u32, u32)> = Vec::new();
    let mut i: usize = 0;
    proof {
        reveal(Seq::filter);
        assert(frames@.take(0) =~= Seq::<Frame>::empty());
    }
    while i < frames.len()
        invariant
            i <= frames.len(),
            kept@ == pruned(frames@.take(i as int), sp),
        decreases frames.len() - i,
    {
        let frame = frames[i];
        proof {
            reveal(Seq::filter);
            let upto = frames@.take(i as int + 1);
            assert(upto.drop_last() =~= frames@.take(i as int));
            assert(upto.last() == frame);
        }
        if frame.0 > sp {
            kept.push(frame);
        }
        i += 1;
    }
    assert(frames@.take(i as int) =~= frames@);
    *frames = kept;
}

impl Emulator {
    pub open spec fn wf(&self) -> bool {
        self@.wf()
    }

    pub fn new() -> (emu: Emulator)
        ensures
            emu.wf(),
            emu@.prog == Seq::new(DEFAULT_PROG_WORDS as nat, |i: int| 0u16),
            emu@ == emu@.reset(),
    {
        Emulator {
            prog_mem: ProgramMemory { words: vec![0u16; DEFAULT_PROG_WORDS] },
            io_mem: IOMemory::new(),
            pc: 0,
            call_stack: Vec::new(),
            skip_next_insn: false,
            insn_count: 0,
            halted: false,
        }
    }

    pub fn reset(&mut self)
        requires
            old(self).wf(),
        ensures
            final(self).wf(),
            final(self)@ == old(self)@.reset(),
    {
        self.pc = 0;
        self.io_mem = IOMemory::new();
        self.call_stack = Vec::new();
        self.skip_next_insn = false;
        self.insn_count = 0;
        self.halted = false;
    }

    /// Replaces the program by the words of a little-endian image; nothing
    /// else of the machine changes. An image of more words than program
    /// memory holds is refused and changes nothing.
    pub fn load_bin(&mut self, image: &[u8]) -> (r: Result<(), ImageError>)
        requires
            old(self).wf(),
        ensures
            final(self).wf(),
            image@.len() / 2 <= PROG_CAPACITY ==> r is Ok && final(self)@ == (Machine {
                prog: image_words(image@),
                ..old(self)@
            }),
            image@.len() / 2 > PROG_CAPACITY ==> r == Err::<(), ImageError>(
                ImageError::TooLarge,
            ) && final(self)@ == old(self)@,
    {
        self.prog_mem.set_bytes(image)
    }

    pub fn get_reg8(&self, r: u8) -> (val: u8)
        requires
            r < 32,
        ensures
            val == self@.io.reg(r),
    {
        self.io_mem.regs.get8(r)
    }

    pub fn set_reg8(&mut self, r: u8, val: u8)
        requires
            r < 32,
        ensures
            final(self)@ == old(self)@.with_io(old(self)@.io.with_reg(r, val)),
    {
        self.io_mem.regs.set8(r, val);
    }

    pub fn get_reg16(&self, r: u8) -> (val: u16)
        requires
            r < 31,
        ensures
            val == self@.io.pair(r),
    {
        self.io_mem.regs.get16(r)
    }

    pub fn set_reg16(&mut self, r: u8, val: u16)
        requires
            r < 31,
        ensures
            final(self)@ == old(self)@.with_io(old(self)@.io.with_pair_val(r, val)),
    {
        self.io_mem.regs.set16(r, val);
    }

    fn get_prog_mem_byte(&self, addr: u32) -> (val: u8)
        ensures
            val == byte_at(self@.prog, addr),
    {
        self.prog_mem.get_prog_mem_byte(addr)
    }

    /// Sets the flags after a logical operation with result `r_val`.
    pub fn set_sreg_for_bits(&mut self, r_val: u8)
        ensures
            final(self)@ == old(self)@.with_io(
                old(self)@.io.with_sreg(old(self)@.io.sreg.after_logic(r_val)),
            ),
    {
        self.io_mem.sreg.v = false;
        self.io_mem.sreg.n = (r_val & (1u8 << 7)) != 0;
        self.io_mem.sreg.z = r_val == 0;
        self.io_mem.sreg.s = self.io_mem.sreg.n != self.io_mem.sreg.v;
    }

    /// Sets the flags after a shift that turned `val_before` into
    /// `val_after`.
    pub fn set_sreg_for_shift(&mut self, val_before: u8, val_after: u8)
        ensures
            final(self)@ == old(self)@.with_io(
                old(self)@.io.with_sreg(old(self)@.io.sreg.after_shift(val_before, val_after)),
            ),
    {
        self.io_mem.sreg.c = (val_before & (1u8 << 0)) != 0;
        self.io_mem.sreg.n = (val_after & (1u8 << 7)) != 0;
        self.io_mem.sreg.z = val_after == 0;
        self.io_mem.sreg.v = self.io_mem.sreg.n != self.io_mem.sreg.c;
        self.io_mem.sreg.s = self.io_mem.sreg.n != self.io_mem.sreg.v;
    }

    /// Sets the flags after an addition of `rd_val` and `rr_val` with result
    /// `r_val`. Where `r_val` is the sum without carry-in, the new flags are
    /// those of the sum.
    pub fn set_sreg_for_add(&mut self, rd_val: u8, rr_val: u8, r_val: u8)
        ensures
            final(self)@ == old(self)@.with_io(
                old(self)@.io.with_sreg(old(self)@.io.sreg.after_add(rd_val, rr_val, r_val)),
            ),
            r_val == rd_val.wrapping_add(rr_val) ==> is_sum_flags(
                final(self)@.io.sreg,
                old(self)@.io.sreg,
                rd_val,
                rr_val,
            ),
    {
        proof {
            lemma_add_flags(self@.io.sreg, rd_val, rr_val);
        }
        self.io_mem.sreg = self.io_mem.sreg.added(rd_val, rr_val, r_val);
    }

    /// Sets the flags after a subtraction of `rr_val` from `rd_val` with
    /// result `r_val`; with `use_prev` the zero flag can only be cleared.
    /// Where `r_val` is the difference without carry-in and `use_prev` is
    /// off, the new flags are those of the difference.
    pub fn set_sreg_for_sub(&mut self, rd_val: u8, rr_val: u8, r_val: u8, use_prev: bool)
        ensures
            final(self)@ == old(self)@.with_io(
                old(self)@.io.with_sreg(
                    old(self)@.io.sreg.after_sub(rd_val, rr_val, r_val, use_prev),
                ),
            ),
            !use_prev && r_val == rd_val.wrapping_sub(rr_val) ==> is_difference_flags(
                final(self)@.io.sreg,
                old(self)@.io.sreg,
                rd_val,
                rr_val,
            ),
    {
        proof {
            lemma_sub_flags(self@.io.sreg, rd_val, rr_val);
        }
        self.io_mem.sreg = self.io_mem.sreg.subtracted(rd_val, rr_val, r_val, use_prev);
    }

    /// Sets the flags after `ADIW` turned the pair value `rdw_val` into
    /// `r_val`.
    fn set_sreg_for_adiw(&mut self, rdw_val: u16, r_val: u16)
        ensures
            final(self)@ == old(self)@.with_io(
                old(self)@.io.with_sreg(old(self)@.io.sreg.after_adiw(rdw_val, r_val)),
            ),
    {
        let r15 = (r_val & (1u16 << 15)) != 0;
        let rdh7 = (rdw_val & (1u16 << 15)) != 0;
        self.io_mem.sreg.v = !rdh7 && r15;
        self.io_mem.sreg.n = r15;
        self.io_mem.sreg.z = r_val == 0;
        self.io_mem.sreg.c = !r15 && rdh7;
        self.io_mem.sreg.s = self.io_mem.sreg.n != self.io_mem.sreg.v;
    }

    /// Sets the flags after `SBIW` turned the pair value `rdw_val` into
    /// `r_val`.
    fn set_sreg_for_sbiw(&mut self, rdw_val: u16, r_val: u16)
        ensures
            final(self)@ == old(self)@.with_io(
                old(self)@.io.with_sreg(old(self)@.io.sreg.after_sbiw(rdw_val, r_val)),
            ),
    {
        let r15 = (r_val & (1u16 << 15)) != 0;
        let rdh7 = (rdw_val & (1u16 << 15)) != 0;
        self.io_mem.sreg.v = rdh7 && !r15;
        self.io_mem.sreg.n = r15;
        self.io_mem.sreg.z = r_val == 0;
        self.io_mem.sreg.c = r15 && !rdh7;
        self.io_mem.sreg.s = self.io_mem.sreg.n != self.io_mem.sreg.v;
    }

    /// Sets the flags after `INC` or `DEC` gave `r_val`, where `overflow`
    /// says whether the operand was the one value that overflows.
    fn set_sreg_for_step(&mut self, overflow: bool, r_val: u8)
        ensures
            final(self)@ == old(self)@.with_io(
                old(self)@.io.with_sreg(old(self)@.io.sreg.after_step(overflow, r_val)),
            ),
    {
        self.io_mem.sreg.v = overflow;
        self.io_mem.sreg.n = (r_val & (1u8 << 7)) != 0;
        self.io_mem.sreg.z = r_val == 0;
        self.io_mem.sreg.s = self.io_mem.sreg.n != self.io_mem.sreg.v;
    }

    /// Sets the flags after `NEG` turned `rd_val` into `r_val`.
    fn set_sreg_for_neg(&mut self, rd_val: u8, r_val: u8)
        ensures
            final(self)@ == old(self)@.with_io(
                old(self)@.io.with_sreg(old(self)@.io.sreg.after_neg(rd_val, r_val)),
            ),
    {
        self.io_mem.sreg.h = ((r_val & (1u8 << 6)) != 0) && !((rd_val & (1u8 << 6)) != 0);
        self.io_mem.sreg.v = r_val == 0x80;
        self.io_mem.sreg.n = (r_val & (1u8 << 7)) != 0;
        self.io_mem.sreg.z = r_val == 0;
        self.io_mem.sreg.c = r_val != 0;
        self.io_mem.sreg.s = self.io_mem.sreg.n != self.io_mem.sreg.v;
    }

    /// Stores the product of two register values in r1:r0 and sets the
    /// flags.
    fn finish_mul(&mut self, rd_val: u8, rr_val: u8)
        ensures
            final(self)@ == old(self)@.with_io(
                old(self)@.io.with_pair_val(0, product(rd_val, rr_val)).with_sreg(
                    old(self)@.io.sreg.after_mul(product(rd_val, rr_val)),
                ),
            ),
    {
        assert(rd_val * rr_val <= 0xffff) by (nonlinear_arith)
            requires
                rd_val <= 0xff,
                rr_val <= 0xff,
        ;
        reveal(product);
        let r_val = (rd_val as u16) * (rr_val as u16);
        self.set_reg16(0, r_val);
        self.io_mem.sreg.c = (r_val & (1u16 << 15)) != 0;
        self.io_mem.sreg.z = r_val == 0;
    }

    fn get_carry(&self) -> (carry: u8)
        ensures
            carry == carry_of(self@.io.sreg),
    {
        if self.io_mem.sreg.c {
            1
        } else {
            0
        }
    }

    fn push_ret_addr(&mut self, ret_addr: u32, call_tgt: u32)
        requires
            old(self).wf(),
            old(self)@.io.sp() >= 3,
        ensures
            final(self).wf(),
            final(self)@ == old(self)@.after_call(ret_addr, call_tgt),
    {
        let sp = self.io_mem.get_sp();
        self.call_stack.push((sp, self.pc, call_tgt));
        self.io_mem.push24(ret_addr >> 1);
    }

    fn pop_ret_addr(&mut self) -> (ret_addr: u32)
        requires
            old(self).wf(),
            old(self)@.io.sp() + 3 <= u16::MAX,
        ensures
            final(self).wf(),
            final(self)@ == old(self)@.after_ret(),
            ret_addr == old(self)@.ret_target(),
    {
        let ret_addr = self.io_mem.pop24() << 1;
        let sp = self.io_mem.get_sp();
        prune_frames(&mut self.call_stack, sp);
        ret_addr
    }

    fn do_call(&mut self, next_pc: &mut u32, call_tgt: u32)
        requires
            old(self).wf(),
            old(self)@.io.sp() >= 3,
        ensures
            final(self).wf(),
            final(self)@ == old(self)@.after_call(*old(next_pc), call_tgt),
            *final(next_pc) == call_tgt,
    {
        let ret_addr = *next_pc;
        self.push_ret_addr(ret_addr, call_tgt);
        *next_pc = call_tgt;
    }

    /// The base of an access after its pre-decrement, with nothing changed.
    fn peek_base(&self, mema: MemAccess, full_reg: bool) -> (base: u32)
        requires
            self.wf(),
            mema.wf(),
            full_reg ==> is_pointer_reg(mema.reg_pair),
        ensures
            base == self@.io.base(mema, full_reg),
            base <= 0xff_ffff,
    {
        let dec = match mema.update {
            MemRegUpdate::PreDec => true,
            _ => false,
        };
        if full_reg {
            let val = self.io_mem.get_full_reg(mema.reg_pair);
            proof {
                lemma_full_of_bound(
                    self@.io.mem[ramp_of(mema.reg_pair) as int],
                    self@.io.pair(mema.reg_pair),
                );
            }
            if !dec {
                val
            } else if val == 0 {
                0xff_ffff
            } else {
                val - 1
            }
        } else {
            let val = self.get_reg16(mema.reg_pair);
            if dec {
                val.wrapping_sub(1) as u32
            } else {
                val as u32
            }
        }
    }

    /// The effective address of an access, with nothing changed.
    fn peek_addr(&self, mema: MemAccess, full_reg: bool) -> (addr: u32)
        requires
            self.wf(),
            mema.wf(),
            full_reg ==> is_pointer_reg(mema.reg_pair),
        ensures
            addr == self@.io.ea(mema, full_reg),
    {
        self.peek_base(mema, full_reg) + (mema.ofs as u32)
    }

    /// Does the pre-update of the base and returns the effective address.
    fn do_pre_mem_access(&mut self, mema: MemAccess, full_reg: bool) -> (addr: u32)
        requires
            old(self).wf(),
            mema.wf(),
            full_reg ==> is_pointer_reg(mema.reg_pair),
        ensures
            final(self).wf(),
            final(self)@ == old(self)@.with_io(old(self)@.io.pre_access(mema, full_reg)),
            addr == old(self)@.io.ea(mema, full_reg),
    {
        let base_addr = self.peek_base(mema, full_reg);
        match mema.update {
            MemRegUpdate::PreDec => {
                if full_reg {
                    self.io_mem.set_full_reg(mema.reg_pair, base_addr);
                } else {
                    let val = self.get_reg16(mema.reg_pair);
                    self.set_reg16(mema.reg_pair, val.wrapping_sub(1));
                }
            },
            _ => {},
        }
        base_addr + (mema.ofs as u32)
    }

    /// Does the post-update of the base.
    fn do_post_mem_access(&mut self, mema: MemAccess, full_reg: bool)
        requires
            old(self).wf(),
            mema.wf(),
            full_reg ==> is_pointer_reg(mema.reg_pair),
        ensures
            final(self).wf(),
            final(self)@ == old(self)@.with_io(old(self)@.io.post_access(mema, full_reg)),
    {
        match mema.update {
            MemRegUpdate::PostInc => {
                if full_reg {
                    let val = self.io_mem.get_full_reg(mema.reg_pair);
                    proof {
                        lemma_full_of_bound(
                            self@.io.mem[ramp_of(mema.reg_pair) as int],
                            self@.io.pair(mema.reg_pair),
                        );
                    }
                    self.io_mem.set_full_reg(mema.reg_pair, val + 1);
                } else {
                    let val = self.get_reg16(mema.reg_pair);
                    self.set_reg16(mema.reg_pair, val.wrapping_add(1));
                }
            },
            _ => {},
        }
    }

    fn get_rel_jmp_target(&self, next_pc: u32, ofs: i16) -> (tgt: u32)
        ensures
            tgt == rel_target(next_pc, ofs),
    {
        next_pc.wrapping_add_signed(ofs as i32)
    }

    /// Why a read at `addr` cannot be served, if it cannot.
    fn read_fault(&self, addr: u32) -> (fault: Option<Fault>)
        ensures
            fault == self@.io.read_fault(addr),
            fault is None ==> self@.io.can_read(addr),
    {
        if addr == USART_C0 && self.io_mem.usart_input.len() == 0 {
            Some(Fault::InputExhausted)
        } else if SRAM_START <= addr && addr <= SRAM_END && addr as usize >= DATA_CAPACITY {
            Some(Fault::Address)
        } else {
            None
        }
    }

    /// Why a write at `addr` cannot be served, if it cannot.
    fn write_fault(&self, addr: u32) -> (fault: Option<Fault>)
        ensures
            fault == self@.io.write_fault(addr),
            fault is None ==> self@.io.can_write(addr),
    {
        if SRAM_START <= addr && addr <= SRAM_END && addr as usize >= DATA_CAPACITY {
            Some(Fault::Address)
        } else {
            None
        }
    }

    /// Why the handler of `insn` cannot run, if it cannot.
    pub fn fault_of(&self, insn: &Insn) -> (fault: Option<Fault>)
        requires
            self.wf(),
            insn.wf(),
        ensures
            fault == self@.io.fault_of(*insn),
    {
        match *insn {
            Insn::Call(_) | Insn::Rcall(_) | Insn::Eicall => if self.io_mem.get_sp() < 3 {
                Some(Fault::Stack)
            } else {
                None
            },
            Insn::Ret | Insn::Reti => if self.io_mem.get_sp() > u16::MAX - 3 {
                Some(Fault::Stack)
            } else {
                None
            },
            Insn::Push(_) => if self.io_mem.get_sp() < 1 {
                Some(Fault::Stack)
            } else {
                None
            },
            Insn::Pop(_) => if self.io_mem.get_sp() == u16::MAX {
                Some(Fault::Stack)
            } else {
                None
            },
            Insn::In(_, port) => self.read_fault(port as u32),
            Insn::Out(port, _) => self.write_fault(port as u32),
            Insn::Lds(_, k) => self.read_fault(k as u32),
            Insn::Sts(k, _) => self.write_fault(k as u32),
            Insn::ElpmZ(_, mema) => if !is_xyz(mema.reg_pair) {
                Some(Fault::BadBase)
            } else {
                None
            },
            Insn::Ld(_, mema) | Insn::Ldd(_, mema) => if !is_xyz(mema.reg_pair) {
                Some(Fault::BadBase)
            } else {
                self.read_fault(self.peek_addr(mema, true))
            },
            Insn::St(mema, _) | Insn::Std(mema, _) => if !is_xyz(mema.reg_pair) {
                Some(Fault::BadBase)
            } else {
                self.write_fault(self.peek_addr(mema, true))
            },
            Insn::Other => Some(Fault::NotImplemented),
            _ => None,
        }
    }

    /// Loads register `rd` from data address `addr`.
    fn do_load(&mut self, rd: u8, addr: u32) -> (notice: Option<Notice>)
        requires
            old(self).wf(),
            rd < 32,
            old(self)@.io.can_read(addr),
        ensures
            final(self).wf(),
            final(self)@ == old(self)@.with_io(old(self)@.io.load(rd, addr)),
            notice == IoState::read_notice(addr),
    {
        let val = self.io_mem.get8(addr);
        self.set_reg8(rd, val);
        if IOMemory::models_read(addr) {
            None
        } else {
            Some(Notice::UnmodelledRead { addr })
        }
    }

    /// Stores register `rr` to data address `addr`.
    fn do_store(&mut self, addr: u32, rr: u8) -> (notice: Option<Notice>)
        requires
            old(self).wf(),
            rr < 32,
            old(self)@.io.can_write(addr),
        ensures
            final(self).wf(),
            final(self)@ == old(self)@.with_io(old(self)@.io.store(addr, rr)),
            notice == IoState::write_notice(addr, old(self)@.io.reg(rr)),
    {
        let val = self.get_reg8(rr);
        self.io_mem.set8(addr, val);
        if addr == USART_C0 {
            if is_echoed(val) {
                Some(Notice::UsartEcho { val })
            } else {
                None
            }
        } else if IOMemory::models_write(addr) {
            None
        } else {
            Some(Notice::UnmodelledWrite { addr, val })
        }
    }

    /// Loads register `rd` from program address `addr`.
    fn do_prog_load(&mut self, rd: u8, addr: u32) -> (notice: Option<Notice>)
        requires
            old(self).wf(),
            rd < 32,
        ensures
            final(self).wf(),
            final(self)@ == old(self)@.with_io(
                old(self)@.io.with_reg(rd, byte_at(old(self)@.prog, addr)),
            ),
            notice == IoState::prog_notice(old(self)@.prog, addr),
    {
        let val = self.get_prog_mem_byte(addr);
        self.set_reg8(rd, val);
        if self.prog_mem.contains(addr) {
            None
        } else {
            Some(Notice::ProgramReadPastEnd { addr })
        }
    }

    /// Stores the result of a logical operation and sets the flags.
    fn finish_logic(&mut self, rd: u8, r_val: u8)
        requires
            rd < 32,
        ensures
            final(self)@ == old(self)@.with_io(
                old(self)@.io.with_reg(rd, r_val).with_sreg(
                    old(self)@.io.sreg.after_logic(r_val),
                ),
            ),
    {
        self.set_reg8(rd, r_val);
        self.set_sreg_for_bits(r_val);
    }

    /// Stores the result of a shift and sets the flags.
    fn finish_shift(&mut self, rd: u8, val_before: u8, val_after: u8)
        requires
            rd < 32,
        ensures
            final(self)@ == old(self)@.with_io(
                old(self)@.io.with_reg(rd, val_after).with_sreg(
                    old(self)@.io.sreg.after_shift(val_before, val_after),
                ),
            ),
    {
        self.set_sreg_for_shift(val_before, val_after);
        self.set_reg8(rd, val_after);
    }

    /// Stores the result of an addition and sets the flags.
    fn finish_add(&mut self, rd: u8, rd_val: u8, rr_val: u8, r_val: u8)
        requires
            rd < 32,
        ensures
            final(self)@ == old(self)@.with_io(
                old(self)@.io.with_reg(rd, r_val).with_sreg(
                    old(self)@.io.sreg.after_add(rd_val, rr_val, r_val),
                ),
            ),
    {
        self.set_sreg_for_add(rd_val, rr_val, r_val);
        self.set_reg8(rd, r_val);
    }

    /// Stores the result of a subtraction and sets the flags.
    fn finish_sub(&mut self, rd: u8, rd_val: u8, rr_val: u8, r_val: u8, use_prev: bool)
        requires
            rd < 32,
        ensures
            final(self)@ == old(self)@.with_io(
                old(self)@.io.with_reg(rd, r_val).with_sreg(
                    old(self)@.io.sreg.after_sub(rd_val, rr_val, r_val, use_prev),
                ),
            ),
    {
        self.set_sreg_for_sub(rd_val, rr_val, r_val, use_prev);
        self.set_reg8(rd, r_val);
    }

    /// Handles jumps, calls, returns, branches and skips.
    fn do_flow(&mut self, insn: &Insn, next_pc: &mut u32)
        requires
            old(self).wf(),
            insn.wf(),
            insn.class() == InsnClass::Flow,
            old(self)@.io.fault_of(*insn) is None,
        ensures
            final(self).wf(),
            final(self)@ == old(self)@.after(*insn, *old(next_pc)),
            *final(next_pc) == old(self)@.target(*insn, *old(next_pc)),
    {
        match *insn {
            Insn::Nop => {},
            Insn::Jmp(tgt) => {
                *next_pc = tgt;
            },
            Insn::Rjmp(ofs) => {
                if ofs == -2 && !self.io_mem.sreg.i {
                    self.halted = true;
                }
                *next_pc = self.get_rel_jmp_target(*next_pc, ofs);
            },
            Insn::Eijmp => {
                *next_pc = self.io_mem.get_full_ind() << 1;
            },
            Insn::Call(tgt) => {
                self.do_call(next_pc, tgt);
            },
            Insn::Rcall(ofs) => {
                let tgt = self.get_rel_jmp_target(*next_pc, ofs);
                self.do_call(next_pc, tgt);
            },
            Insn::Eicall => {
                let tgt = self.io_mem.get_full_ind() << 1;
                self.do_call(next_pc, tgt);
            },
            Insn::Ret => {
                *next_pc = self.pop_ret_addr();
            },
            Insn::Reti => {
                self.io_mem.sreg.i = true;
                *next_pc = self.pop_ret_addr();
            },
            Insn::Breq(ofs) => {
                if self.io_mem.sreg.z {
                    *next_pc = self.get_rel_jmp_target(*next_pc, ofs as i16);
                }
            },
            Insn::Brne(ofs) => {
                if !self.io_mem.sreg.z {
                    *next_pc = self.get_rel_jmp_target(*next_pc, ofs as i16);
                }
            },
            Insn::Brcc(ofs) => {
                if !self.io_mem.sreg.c {
                    *next_pc = self.get_rel_jmp_target(*next_pc, ofs as i16);
                }
            },
            Insn::Brcs(ofs) => {
                if self.io_mem.sreg.c {
                    *next_pc = self.get_rel_jmp_target(*next_pc, ofs as i16);
                }
            },
            Insn::Brge(ofs) => {
                if !(self.io_mem.sreg.n != self.io_mem.sreg.v) {
                    *next_pc = self.get_rel_jmp_target(*next_pc, ofs as i16);
                }
            },
            Insn::Brlt(ofs) => {
                if self.io_mem.sreg.n != self.io_mem.sreg.v {
                    *next_pc = self.get_rel_jmp_target(*next_pc, ofs as i16);
                }
            },
            Insn::Brmi(ofs) => {
                if self.io_mem.sreg.n {
                    *next_pc = self.get_rel_jmp_target(*next_pc, ofs as i16);
                }
            },
            Insn::Brpl(ofs) => {
                if !self.io_mem.sreg.n {
                    *next_pc = self.get_rel_jmp_target(*next_pc, ofs as i16);
                }
            },
            Insn::Brtc(ofs) => {
                if !self.io_mem.sreg.t {
                    *next_pc = self.get_rel_jmp_target(*next_pc, ofs as i16);
                }
            },
            Insn::Brts(ofs) => {
                if self.io_mem.sreg.t {
                    *next_pc = self.get_rel_jmp_target(*next_pc, ofs as i16);
                }
            },
            Insn::Sbrc(rr, bit) => {
                let rr_val = self.get_reg8(rr);
                self.skip_next_insn = !((rr_val & (1u8 << bit)) != 0);
            },
            Insn::Sbrs(rr, bit) => {
                let rr_val = self.get_reg8(rr);
                self.skip_next_insn = (rr_val & (1u8 << bit)) != 0;
            },
            Insn::Cpse(rd, rr) => {
                let rd_val = self.get_reg8(rd);
                let rr_val = self.get_reg8(rr);
                self.skip_next_insn = rd_val == rr_val;
            },
            _ => {},
        }
    }

    /// Handles flag and bit operations, moves, logic and shifts.
    fn do_bits(&mut self, insn: &Insn)
        requires
            old(self).wf(),
            insn.wf(),
            insn.class() == InsnClass::Bits,
            old(self)@.io.fault_of(*insn) is None,
        ensures
            final(self).wf(),
            final(self)@ == old(self)@.with_io(old(self)@.io.after_bits(*insn)),
    {
        match *insn {
            Insn::ClearFlag(flag) => {
                self.io_mem.sreg.set_flag(flag, false);
            },
            Insn::SetFlag(flag) => {
                self.io_mem.sreg.set_flag(flag, true);
            },
            Insn::Bst(rr, bit) => {
                let rr_val = self.get_reg8(rr);
                self.io_mem.sreg.t = (rr_val & (1u8 << bit)) != 0;
            },
            Insn::Bld(rd, bit) => {
                let mut val = self.get_reg8(rd);
                if self.io_mem.sreg.t {
                    val = val | (1u8 << bit);
                } else {
                    val = val & !(1u8 << bit);
                }
                self.set_reg8(rd, val);
            },
            Insn::Ldi(rd, k) => {
                self.set_reg8(rd, k);
            },
            Insn::Mov(rd, rr) => {
                let val = self.get_reg8(rr);
                self.set_reg8(rd, val);
            },
            Insn::Movw(rd, rr) => {
                let val = self.get_reg16(rr);
                self.set_reg16(rd, val);
            },
            Insn::Andi(rd, k) => {
                let r_val = self.get_reg8(rd) & k;
                self.finish_logic(rd, r_val);
            },
            Insn::Ori(rd, k) => {
                let r_val = self.get_reg8(rd) | k;
                self.finish_logic(rd, r_val);
            },
            Insn::And(rd, rr) => {
                let r_val = self.get_reg8(rd) & self.get_reg8(rr);
                self.finish_logic(rd, r_val);
            },
            Insn::Or(rd, rr) => {
                let r_val = self.get_reg8(rd) | self.get_reg8(rr);
                self.finish_logic(rd, r_val);
            },
            Insn::Eor(rd, rr) => {
                let r_val = self.get_reg8(rd) ^ self.get_reg8(rr);
                self.finish_logic(rd, r_val);
            },
            Insn::Lsr(rd) => {
                let val_before = self.get_reg8(rd);
                self.finish_shift(rd, val_before, val_before >> 1);
            },
            Insn::Asr(rd) => {
                let val_before = self.get_reg8(rd);
                self.finish_shift(rd, val_before, (val_before & 0x80) | (val_before >> 1));
            },
            Insn::Ror(rd) => {
                let val_before = self.get_reg8(rd);
                let val_after = if self.io_mem.sreg.c {
                    (val_before >> 1) | 0x80
                } else {
                    val_before >> 1
                };
                self.finish_shift(rd, val_before, val_after);
            },
            Insn::Swap(rd) => {
                let n = self.get_reg8(rd);
                self.set_reg8(rd, ((n & 0xf0) >> 4) | ((n & 0x0f) << 4));
            },
            _ => {},
        }
    }

    /// Handles additions, subtractions and comparisons of two bytes.
    fn do_add_sub(&mut self, insn: &Insn)
        requires
            old(self).wf(),
            insn.wf(),
            insn.class() == InsnClass::AddSub,
            old(self)@.io.fault_of(*insn) is None,
        ensures
            final(self).wf(),
            final(self)@ == old(self)@.with_io(old(self)@.io.after_add_sub(*insn)),
    {
        match *insn {
            Insn::Add(rd, rr) => {
                let rd_val = self.get_reg8(rd);
                let rr_val = self.get_reg8(rr);
                self.finish_add(rd, rd_val, rr_val, rd_val.wrapping_add(rr_val));
            },
            Insn::Adc(rd, rr) => {
                let rd_val = self.get_reg8(rd);
                let rr_val = self.get_reg8(rr);
                let r_val = rd_val.wrapping_add(rr_val).wrapping_add(self.get_carry());
                self.finish_add(rd, rd_val, rr_val, r_val);
            },
            Insn::Cp(rd, rr) => {
                let rd_val = self.get_reg8(rd);
                let rr_val = self.get_reg8(rr);
                self.set_sreg_for_sub(rd_val, rr_val, rd_val.wrapping_sub(rr_val), false);
            },
            Insn::Cpi(rd, k) => {
                let rd_val = self.get_reg8(rd);
                self.set_sreg_for_sub(rd_val, k, rd_val.wrapping_sub(k), false);
            },
            Insn::Cpc(rd, rr) => {
                let rd_val = self.get_reg8(rd);
                let rr_val = self.get_reg8(rr);
                let r_val = rd_val.wrapping_sub(rr_val).wrapping_sub(self.get_carry());
                self.set_sreg_for_sub(rd_val, rr_val, r_val, true);
            },
            Insn::Sub(rd, rr) => {
                let rd_val = self.get_reg8(rd);
                let rr_val = self.get_reg8(rr);
                self.finish_sub(rd, rd_val, rr_val, rd_val.wrapping_sub(rr_val), false);
            },
            Insn::Subi(rd, k) => {
                let rd_val = self.get_reg8(rd);
                self.finish_sub(rd, rd_val, k, rd_val.wrapping_sub(k), false);
            },
            Insn::Sbc(rd, rr) => {
                let rd_val = self.get_reg8(rd);
                let rr_val = self.get_reg8(rr);
                let r_val = rd_val.wrapping_sub(rr_val).wrapping_sub(self.get_carry());
                self.finish_sub(rd, rd_val, rr_val, r_val, true);
            },
            Insn::Sbci(rd, k) => {
                let rd_val = self.get_reg8(rd);
                let r_val = rd_val.wrapping_sub(k).wrapping_sub(self.get_carry());
                self.finish_sub(rd, rd_val, k, r_val, true);
            },
            _ => {},
        }
    }

    /// Handles word arithmetic, increment, decrement, complement, negation
    /// and multiplication.
    #[verifier::rlimit(40)]
    fn do_arith(&mut self, insn: &Insn)
        requires
            old(self).wf(),
            insn.wf(),
            insn.class() == InsnClass::Arith,
            old(self)@.io.fault_of(*insn) is None,
        ensures
            final(self).wf(),
            final(self)@ == old(self)@.with_io(old(self)@.io.after_arith(*insn)),
    {
        match *insn {
            Insn::Adiw(rd, k) => {
                let rdw_val = self.get_reg16(rd);
                let r_val = rdw_val.wrapping_add(k as u16);
                self.set_reg16(rd, r_val);
                self.set_sreg_for_adiw(rdw_val, r_val);
            },
            Insn::Sbiw(rd, k) => {
                let rdw_val = self.get_reg16(rd);
                let r_val = rdw_val.wrapping_sub(k as u16);
                self.set_reg16(rd, r_val);
                self.set_sreg_for_sbiw(rdw_val, r_val);
            },
            Insn::Inc(rd) => {
                let rd_val = self.get_reg8(rd);
                let r_val = rd_val.wrapping_add(1);
                self.set_reg8(rd, r_val);
                self.set_sreg_for_step(rd_val == 0x7f, r_val);
            },
            Insn::Dec(rd) => {
                let rd_val = self.get_reg8(rd);
                let r_val = rd_val.wrapping_sub(1);
                self.set_reg8(rd, r_val);
                self.set_sreg_for_step(rd_val == 0x80, r_val);
            },
            Insn::Com(rd) => {
                let rd_val = self.get_reg8(rd);
                let r_val = 0xff - rd_val;
                self.set_reg8(rd, r_val);
                self.set_sreg_for_bits(r_val);
                self.io_mem.sreg.c = true;
            },
            Insn::Neg(rd) => {
                let rd_val = self.get_reg8(rd);
                let r_val = 0u8.wrapping_sub(rd_val);
                self.set_reg8(rd, r_val);
                self.set_sreg_for_neg(rd_val, r_val);
            },
            Insn::Mul(rd, rr) => {
                let rd_val = self.get_reg8(rd);
                let rr_val = self.get_reg8(rr);
                self.finish_mul(rd_val, rr_val);
            },
            _ => {},
        }
    }

    /// Handles stack, I/O, data-memory and program-memory traffic.
    fn do_transfer(&mut self, insn: &Insn) -> (notice: Option<Notice>)
        requires
            old(self).wf(),
            insn.wf(),
            insn.class() == InsnClass::Transfer,
            old(self)@.io.fault_of(*insn) is None,
        ensures
            final(self).wf(),
            final(self)@ == old(self)@.with_io(old(self)@.io.after_transfer(*insn, old(self)@.prog)),
            notice == old(self)@.io.notice_of(*insn, old(self)@.prog),
    {
        let mut notice: Option<Notice> = None;
        match *insn {
            Insn::Push(rr) => {
                let val = self.get_reg8(rr);
                self.io_mem.push8(val);
            },
            Insn::Pop(rd) => {
                let val = self.io_mem.pop8();
                self.set_reg8(rd, val);
            },
            Insn::In(rd, port) => {
                notice = self.do_load(rd, port as u32);
            },
            Insn::Out(port, rr) => {
                notice = self.do_store(port as u32, rr);
            },
            Insn::LpmZ(rd, mema) => {
                let addr = self.do_pre_mem_access(mema, false);
                notice = self.do_prog_load(rd, addr);
                self.do_post_mem_access(mema, false);
            },
            Insn::ElpmZ(rd, mema) => {
                let addr = self.do_pre_mem_access(mema, true);
                notice = self.do_prog_load(rd, addr);
                self.do_post_mem_access(mema, true);
            },
            Insn::Ld(rd, mema) | Insn::Ldd(rd, mema) => {
                let addr = self.do_pre_mem_access(mema, true);
                notice = self.do_load(rd, addr);
                self.do_post_mem_access(mema, true);
            },
            Insn::St(mema, rr) | Insn::Std(mema, rr) => {
                let addr = self.do_pre_mem_access(mema, true);
                notice = self.do_store(addr, rr);
                self.do_post_mem_access(mema, true);
            },
            Insn::Lds(rd, k) => {
                notice = self.do_load(rd, k as u32);
            },
            Insn::Sts(k, rr) => {
                notice = self.do_store(k as u32, rr);
            },
            _ => {},
        }
        notice
    }

    /// Runs the handler of `insn`. On entry `next_pc` is the address of the
    /// instruction that follows `insn` in memory; on return it is the address
    /// at which execution continues.
    pub fn do_opcode(&mut self, insn: &Insn, next_pc: &mut u32) -> (notice: Option<Notice>)
        requires
            old(self).wf(),
            insn.wf(),
            old(self)@.io.fault_of(*insn) is None,
        ensures
            final(self).wf(),
            final(self)@ == old(self)@.after(*insn, *old(next_pc)),
            *final(next_pc) == old(self)@.target(*insn, *old(next_pc)),
            notice == old(self)@.io.notice_of(*insn, old(self)@.prog),
    {
        match insn.classify() {
            InsnClass::Flow => {
                self.do_flow(insn, next_pc);
                None
            },
            InsnClass::Bits => {
                self.do_bits(insn);
                None
            },
            InsnClass::AddSub => {
                self.do_add_sub(insn);
                None
            },
            InsnClass::Arith => {
                self.do_arith(insn);
                None
            },
            InsnClass::Transfer => self.do_transfer(insn),
            InsnClass::Unknown => None,
        }
    }

    /// Executes one instruction: `fetched` is what the decoder made of the
    /// code words at the program counter. A fault leaves the machine as it
    /// was.
    pub fn step(&mut self, fetched: Option<Insn>) -> (r: Result<Option<Notice>, Fault>)
        requires
            old(self).wf(),
        ensures
            final(self).wf(),
            match old(self)@.fault_of(fetched) {
                Some(fault) => r == Err::<Option<Notice>, Fault>(fault) && final(self)@ == old(
                    self,
                )@,
                None => r == Ok::<Option<Notice>, Fault>(old(self)@.notice_of(fetched.unwrap()))
                    && final(self)@ == old(self)@.step(fetched.unwrap()),
            },
    {
        let insn = match fetched {
            Some(insn) => insn,
            None => {
                return Err(Fault::Decode);
            },
        };
        if !self.prog_mem.contains(self.pc) || !insn.is_wf() {
            return Err(Fault::Decode);
        }
        if self.insn_count == u64::MAX {
            return Err(Fault::Counter);
        }
        let mut next_pc = self.pc + insn.byte_size();
        let mut notice: Option<Notice> = None;
        if self.skip_next_insn {
            self.skip_next_insn = false;
        } else {
            match self.fault_of(&insn) {
                Some(fault) => {
                    return Err(fault);
                },
                None => {},
            }
            notice = self.do_opcode(&insn, &mut next_pc);
        }
        self.pc = next_pc;
        self.insn_count += 1;
        Ok(notice)
    }

    /// What the decoder made of the code words at the program counter.
    fn get_cur_insn(&self, decoded: &[Option<Insn>]) -> (fetched: Option<Insn>)
        ensures
            fetched == self@.fetch(decoded@),
    {
        let index = (self.pc / 2) as usize;
        if index < decoded.len() {
            decoded[index]
        } else {
            None
        }
    }

    /// Takes the next step on what the decoder made of the code words at
    /// the program counter.
    fn step_decoded(&mut self, decoded: &[Option<Insn>]) -> (r: Result<Option<Notice>, Fault>)
        requires
            old(self).wf(),
        ensures
            final(self).wf(),
            match old(self)@.next_fault(decoded@) {
                Some(fault) => r == Err::<Option<Notice>, Fault>(fault) && final(self)@ == old(
                    self,
                )@,
                None => r == Ok::<Option<Notice>, Fault>(old(self)@.next_notice(decoded@))
                    && final(self)@ == old(self)@.advance(decoded@) && final(self).insn_count
                    == old(self).insn_count + 1,
            },
    {
        proof {
            reveal(Machine::next_fault);
            reveal(Machine::advance);
            reveal(Machine::next_notice);
        }
        let fetched = self.get_cur_insn(decoded);
        self.step(fetched)
    }

    /// Steps until the machine halts, stands at `target` after a step, or
    /// faults.
    fn run_until(&mut self, target: Option<u32>, decoded: &[Option<Insn>]) -> (report: RunReport)
        requires
            old(self).wf(),
        ensures
            final(self).wf(),
            exists|n: nat|
                {
                    &&& old(self)@.runs_for(decoded@, target, n)
                    &&& final(self)@ == #[trigger] old(self)@.started().steps(decoded@, n)
                    &&& report.notices@ == old(self)@.started().notices(decoded@, n)
                    &&& report.fault == old(self)@.run_fault(decoded@, target, n)
                    &&& report.fault is None ==> n >= 1 && final(self)@.stops(target)
                },
    {
        self.halted = false;
        let mut notices: Vec<Notice> = Vec::new();
        let ghost start = self@;
        let ghost mut n: nat = 0;
        loop
            invariant
                self.wf(),
                start == old(self)@.started(),
                old(self)@.runs_for(decoded@, target, n),
                self@ == start.steps(decoded@, n),
                notices@ == start.notices(decoded@, n),
                n >= 1 ==> !self@.stops(target),
            decreases u64::MAX - self.insn_count,
        {
            let ghost before = self@;
            match self.step_decoded(decoded) {
                Err(fault) => {
                    return RunReport { notices, fault: Some(fault) };
                },
                Ok(notice) => {
                    match notice {
                        Some(notice) => {
                            notices.push(notice);
                        },
                        None => {},
                    }
                },
            }
            proof {
                assert(before.can_step(decoded@));
                n = n + 1;
                assert(start.steps(decoded@, (n - 1) as nat) == before);
                assert(self@ == start.steps(decoded@, n));
                assert(notices@ == start.notices(decoded@, n));
                assert(old(self)@.runs_for(decoded@, target, n));
            }
            let at_target = match target {
                Some(pc) => self.pc == pc,
                None => false,
            };
            if self.halted || at_target {
                return RunReport { notices, fault: None };
            }
        }
    }

    /// Executes instructions until the machine halts or faults. `decoded[i]`
    /// is what the decoder makes of the code words from word `i` on.
    pub fn run(&mut self, decoded: &[Option<Insn>]) -> (report: RunReport)
        requires
            old(self).wf(),
        ensures
            final(self).wf(),
            exists|n: nat|
                {
                    &&& old(self)@.runs_for(decoded@, None, n)
                    &&& final(self)@ == #[trigger] old(self)@.started().steps(decoded@, n)
                    &&& report.notices@ == old(self)@.started().notices(decoded@, n)
                    &&& report.fault == old(self)@.run_fault(decoded@, None, n)
                    &&& report.fault is None ==> n >= 1 && final(self)@.halted
                },
    {
        self.run_until(None, decoded)
    }

    /// Executes instructions until the machine halts, faults, or stands at
    /// the program counter `pc` after an instruction. `decoded[i]` is what
    /// the decoder makes of the code words from word `i` on.
    pub fn until(&mut self, pc: u32, decoded: &[Option<Insn>]) -> (report: RunReport)
        requires
            old(self).wf(),
        ensures
            final(self).wf(),
            exists|n: nat|
                {
                    &&& old(self)@.runs_for(decoded@, Some(pc), n)
                    &&& final(self)@ == #[trigger] old(self)@.started().steps(decoded@, n)
                    &&& report.notices@ == old(self)@.started().notices(decoded@, n)
                    &&& report.fault == old(self)@.run_fault(decoded@, Some(pc), n)
                    &&& report.fault is None ==> n >= 1 && (final(self)@.halted || final(self)@.pc
                        == pc)
                },
    {
        self.run_until(Some(pc), decoded)
    }
}

} // verus!
