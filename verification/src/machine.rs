//! The mathematical model of the machine: its state and what one
//! instruction does to it. The execution engine is specified against this
//! model.
use vstd::prelude::*;
use crate::insn::{Insn, InsnClass, MemAccess, MemRegUpdate};
use crate::iomem::{
    clear_of_sp, is_pointer_reg, is_printable, is_sram, lemma_pop24_reads, lemma_push24_writes,
    lemma_triple_bytes, read_is_modelled, write_is_modelled, IoState, DATA_CAPACITY, USART_C0,
};
use crate::progmem::{byte_at, in_program, PROG_CAPACITY};
use crate::registers::{pair_at, with_pair};
use crate::sreg::{bit_of, SReg};

verus! {

/// Why an instruction could not be executed. The machine is left as it was.
#[derive(Clone, Copy, Debug, PartialEq, Eq, Structural)]
pub enum Fault {
    /// No instruction could be decoded at the program counter: the program
    /// counter lies outside the program, the decoder gave nothing, or the
    /// record it gave names a register or bit that does not exist.
    Decode,
    /// The instruction is not implemented.
    NotImplemented,
    /// A load or store through a 24-bit pointer names a base pair that is
    /// not X, Y or Z.
    BadBase,
    /// A push with the stack pointer at the floor of memory, or a pop with
    /// it at the ceiling.
    Stack,
    /// A data address in the SRAM range with no cell behind it.
    Address,
    /// A read of the USART data register with no input waiting.
    InputExhausted,
    /// The instruction counter cannot count further.
    Counter,
}

/// Something for the host to report after an instruction.
#[derive(Clone, Copy, Debug, PartialEq, Eq, Structural)]
pub enum Notice {
    /// A read at a data address that is not modelled gave 0.
    UnmodelledRead { addr: u32 },
    /// A write at a data address that is not modelled was dropped.
    UnmodelledWrite { addr: u32, val: u8 },
    /// A program-memory read past the end of the program gave 0.
    ProgramReadPastEnd { addr: u32 },
    /// A printable byte was written to the USART.
    UsartEcho { val: u8 },
}

/// One frame of the shadow call stack: the stack pointer at the call, the
/// address of the call and the address called.
pub type Frame = (u16, u32, u32);

/// Whether a frame stays on the shadow call stack when the stack pointer
/// stands at `sp`: its recorded stack pointer lies above `sp`.
pub open spec fn outlives(sp: u16) -> spec_fn(Frame) -> bool {
    |frame: Frame| frame.0 > sp
}

/// The shadow call stack after a return that left the stack pointer at `sp`:
/// every frame whose recorded stack pointer is at or below `sp` is dropped,
/// wherever it stands, and the others stay in their order.
pub open spec fn pruned(frames: Seq<Frame>, sp: u16) -> Seq<Frame> {
    frames.filter(outlives(sp))
}

/// What pruning does to the shadow call stack: it keeps exactly the frames
/// recorded above `sp`, and a stack without any other frame stays as it is.
pub proof fn lemma_pruned(frames: Seq<Frame>, sp: u16)
    ensures
        forall|i: int| 0 <= i < pruned(frames, sp).len() ==> (#[trigger] pruned(frames, sp)[i]).0 > sp,
        forall|i: int|
            0 <= i < frames.len() && (#[trigger] frames[i]).0 > sp ==> pruned(frames, sp).contains(
                frames[i],
            ),
        pruned(frames, sp).len() <= frames.len(),
        (forall|i: int| 0 <= i < frames.len() ==> (#[trigger] frames[i]).0 > sp) ==> pruned(
            frames,
            sp,
        ) == frames,
    decreases frames.len(),
{
    reveal(Seq::filter);
    if frames.len() > 0 {
        let rest = frames.drop_last();
        lemma_pruned(rest, sp);
        assert forall|i: int| 0 <= i < frames.len() && (#[trigger] frames[i]).0 > sp implies pruned(
            frames,
            sp,
        ).contains(frames[i]) by {
            if i < rest.len() {
                assert(rest[i] == frames[i]);
                let k = choose|k: int| 0 <= k < pruned(rest, sp).len() && pruned(rest, sp)[k] == rest[i];
                assert(pruned(frames, sp)[k] == frames[i]);
            } else {
                assert(pruned(frames, sp).last() == frames[i]);
            }
        }
        if forall|i: int| 0 <= i < frames.len() ==> (#[trigger] frames[i]).0 > sp {
            assert forall|i: int| 0 <= i < rest.len() implies (#[trigger] rest[i]).0 > sp by {
                assert(rest[i] == frames[i]);
            }
            assert(rest.push(frames.last()) =~= frames);
        }
    }
}

/// The target of a relative jump: the signed byte offset added to the
/// address of the next instruction, wrapping at 32 bits.
pub open spec fn rel_target(next_pc: u32, ofs: i16) -> u32 {
    next_pc.wrapping_add_signed(ofs as i32)
}

/// The byte address that a word address stands for.
pub open spec fn byte_addr(word_addr: u32) -> u32 {
    word_addr << 1
}

/// The word address that a byte address lies in.
pub open spec fn word_addr(byte_addr: u32) -> u32 {
    byte_addr >> 1
}

/// `SWAP`: the two nibbles of a byte exchanged.
pub open spec fn swapped(val: u8) -> u8 {
    ((val & 0xf0) >> 4) | ((val & 0x0f) << 4)
}

/// `ASR`: shifted right by one with the sign bit kept.
pub open spec fn asr(val: u8) -> u8 {
    (val & 0x80) | (val >> 1)
}

/// `ROR`: shifted right by one with the carry moved into bit 7.
pub open spec fn ror(val: u8, carry: bool) -> u8 {
    if carry {
        (val >> 1) | 0x80
    } else {
        val >> 1
    }
}

/// `BLD`: `val` with bit `b` replaced by `t`.
pub open spec fn with_bit(val: u8, b: u8, t: bool) -> u8 {
    if t {
        val | (1u8 << b)
    } else {
        val & !(1u8 << b)
    }
}

/// `MUL`: the 16-bit product of two bytes.
#[verifier::opaque]
pub open spec fn product(a: u8, b: u8) -> u16 {
    (a * b) as u16
}

/// The carry flag as a number.
pub open spec fn carry_of(sreg: SReg) -> u8 {
    if sreg.c {
        1
    } else {
        0
    }
}

/// Whether a conditional branch is taken under the given flags. Every
/// other instruction counts as not taken.
pub open spec fn branch_taken(sreg: SReg, insn: Insn) -> bool {
    match insn {
        Insn::Breq(_) => sreg.z,
        Insn::Brne(_) => !sreg.z,
        Insn::Brcc(_) => !sreg.c,
        Insn::Brcs(_) => sreg.c,
        Insn::Brge(_) => !(sreg.n != sreg.v),
        Insn::Brlt(_) => sreg.n != sreg.v,
        Insn::Brmi(_) => sreg.n,
        Insn::Brpl(_) => !sreg.n,
        Insn::Brtc(_) => !sreg.t,
        Insn::Brts(_) => sreg.t,
        _ => false,
    }
}

/// The offset of a conditional branch.
pub open spec fn branch_offset(insn: Insn) -> i8 {
    match insn {
        Insn::Breq(o) | Insn::Brne(o) | Insn::Brcc(o) | Insn::Brcs(o) | Insn::Brge(o) | Insn::Brlt(
            o,
        ) | Insn::Brmi(o) | Insn::Brpl(o) | Insn::Brtc(o) | Insn::Brts(o) => o,
        _ => 0,
    }
}

/// Whether the instruction is a conditional branch.
pub open spec fn is_branch(insn: Insn) -> bool {
    match insn {
        Insn::Breq(_) | Insn::Brne(_) | Insn::Brcc(_) | Insn::Brcs(_) | Insn::Brge(_) | Insn::Brlt(
            _,
        ) | Insn::Brmi(_) | Insn::Brpl(_) | Insn::Brtc(_) | Insn::Brts(_) => true,
        _ => false,
    }
}

impl IoState {
    pub open spec fn reg(self, r: u8) -> u8 {
        self.regs[r as int]
    }

    pub open spec fn with_reg(self, r: u8, val: u8) -> IoState {
        self.with_regs(self.regs.update(r as int, val))
    }

    pub open spec fn pair(self, r: u8) -> u16 {
        pair_at(self.regs, r as int)
    }

    pub open spec fn with_pair_val(self, r: u8, val: u16) -> IoState {
        self.with_regs(with_pair(self.regs, r as int, val))
    }

    /// The base of an access after its pre-decrement, if it has one. A wide
    /// base is the 24-bit RAMPx:pair and wraps at 24 bits, a narrow one is
    /// the pair alone and wraps at 16 bits.
    pub open spec fn base(self, m: MemAccess, wide: bool) -> u32 {
        let dec = m.update == MemRegUpdate::PreDec;
        if wide {
            let b = self.full_reg(m.reg_pair);
            if !dec {
                b
            } else if b == 0 {
                0xff_ffff
            } else {
                (b - 1) as u32
            }
        } else {
            let b = self.pair(m.reg_pair);
            if dec {
                b.wrapping_sub(1) as u32
            } else {
                b as u32
            }
        }
    }

    /// The effective address of an access: base plus displacement.
    pub open spec fn ea(self, m: MemAccess, wide: bool) -> u32 {
        (self.base(m, wide) + m.ofs) as u32
    }

    /// The state before the access proper: a pre-decrement is written back.
    pub open spec fn pre_access(self, m: MemAccess, wide: bool) -> IoState {
        if m.update != MemRegUpdate::PreDec {
            self
        } else if wide {
            self.with_full_reg(m.reg_pair, self.base(m, wide))
        } else {
            self.with_pair_val(m.reg_pair, self.pair(m.reg_pair).wrapping_sub(1))
        }
    }

    /// The state after the access proper: a post-increment is written back.
    pub open spec fn post_access(self, m: MemAccess, wide: bool) -> IoState {
        if m.update != MemRegUpdate::PostInc {
            self
        } else if wide {
            self.with_full_reg(m.reg_pair, (self.full_reg(m.reg_pair) + 1) as u32)
        } else {
            self.with_pair_val(m.reg_pair, self.pair(m.reg_pair).wrapping_add(1))
        }
    }

    /// Why a read at `addr` cannot be served, if it cannot.
    pub open spec fn read_fault(self, addr: u32) -> Option<Fault> {
        if addr == USART_C0 && self.usart_input.len() == 0 {
            Some(Fault::InputExhausted)
        } else if is_sram(addr) && addr >= DATA_CAPACITY {
            Some(Fault::Address)
        } else {
            None
        }
    }

    /// Why a write at `addr` cannot be served, if it cannot.
    pub open spec fn write_fault(self, addr: u32) -> Option<Fault> {
        if is_sram(addr) && addr >= DATA_CAPACITY {
            Some(Fault::Address)
        } else {
            None
        }
    }

    /// A load of register `d` from data address `addr`.
    pub open spec fn load(self, d: u8, addr: u32) -> IoState {
        self.after_read8(addr).with_reg(d, self.read8(addr))
    }

    /// A store of register `r` to data address `addr`.
    pub open spec fn store(self, addr: u32, r: u8) -> IoState {
        self.write8(addr, self.reg(r))
    }

    /// The data space after a flag or bit operation, a move, a logical
    /// operation or a shift; for any other instruction the state itself.
    pub open spec fn after_bits(self, insn: Insn) -> IoState {
        let f = self.sreg;
        match insn {
            Insn::ClearFlag(flag) => self.with_sreg(f.with_flag(flag, false)),
            Insn::SetFlag(flag) => self.with_sreg(f.with_flag(flag, true)),
            Insn::Bst(r, b) => self.with_sreg(SReg { t: bit_of(self.reg(r), b), ..f }),
            Insn::Bld(d, b) => self.with_reg(d, with_bit(self.reg(d), b, f.t)),
            Insn::Ldi(d, k) => self.with_reg(d, k),
            Insn::Mov(d, r) => self.with_reg(d, self.reg(r)),
            Insn::Movw(d, r) => self.with_pair_val(d, self.pair(r)),
            Insn::Andi(d, k) => {
                let res = self.reg(d) & k;
                self.with_reg(d, res).with_sreg(f.after_logic(res))
            },
            Insn::Ori(d, k) => {
                let res = self.reg(d) | k;
                self.with_reg(d, res).with_sreg(f.after_logic(res))
            },
            Insn::And(d, r) => {
                let res = self.reg(d) & self.reg(r);
                self.with_reg(d, res).with_sreg(f.after_logic(res))
            },
            Insn::Or(d, r) => {
                let res = self.reg(d) | self.reg(r);
                self.with_reg(d, res).with_sreg(f.after_logic(res))
            },
            Insn::Eor(d, r) => {
                let res = self.reg(d) ^ self.reg(r);
                self.with_reg(d, res).with_sreg(f.after_logic(res))
            },
            Insn::Lsr(d) => {
                let before = self.reg(d);
                let res = before >> 1;
                self.with_reg(d, res).with_sreg(f.after_shift(before, res))
            },
            Insn::Asr(d) => {
                let before = self.reg(d);
                let res = asr(before);
                self.with_reg(d, res).with_sreg(f.after_shift(before, res))
            },
            Insn::Ror(d) => {
                let before = self.reg(d);
                let res = ror(before, f.c);
                self.with_reg(d, res).with_sreg(f.after_shift(before, res))
            },
            Insn::Swap(d) => self.with_reg(d, swapped(self.reg(d))),
            _ => self,
        }
    }

    /// The data space after an addition, a subtraction or a comparison of
    /// two bytes; for any other instruction the state itself.
    pub open spec fn after_add_sub(self, insn: Insn) -> IoState {
        let f = self.sreg;
        match insn {
            Insn::Add(d, r) => {
                let (a, b) = (self.reg(d), self.reg(r));
                let res = a.wrapping_add(b);
                self.with_reg(d, res).with_sreg(f.after_add(a, b, res))
            },
            Insn::Adc(d, r) => {
                let (a, b) = (self.reg(d), self.reg(r));
                let res = a.wrapping_add(b).wrapping_add(carry_of(f));
                self.with_reg(d, res).with_sreg(f.after_add(a, b, res))
            },
            Insn::Cp(d, r) => {
                let (a, b) = (self.reg(d), self.reg(r));
                self.with_sreg(f.after_sub(a, b, a.wrapping_sub(b), false))
            },
            Insn::Cpi(d, k) => {
                let a = self.reg(d);
                self.with_sreg(f.after_sub(a, k, a.wrapping_sub(k), false))
            },
            Insn::Cpc(d, r) => {
                let (a, b) = (self.reg(d), self.reg(r));
                self.with_sreg(f.after_sub(a, b, a.wrapping_sub(b).wrapping_sub(carry_of(f)), true))
            },
            Insn::Sub(d, r) => {
                let (a, b) = (self.reg(d), self.reg(r));
                let res = a.wrapping_sub(b);
                self.with_reg(d, res).with_sreg(f.after_sub(a, b, res, false))
            },
            Insn::Subi(d, k) => {
                let a = self.reg(d);
                let res = a.wrapping_sub(k);
                self.with_reg(d, res).with_sreg(f.after_sub(a, k, res, false))
            },
            Insn::Sbc(d, r) => {
                let (a, b) = (self.reg(d), self.reg(r));
                let res = a.wrapping_sub(b).wrapping_sub(carry_of(f));
                self.with_reg(d, res).with_sreg(f.after_sub(a, b, res, true))
            },
            Insn::Sbci(d, k) => {
                let a = self.reg(d);
                let res = a.wrapping_sub(k).wrapping_sub(carry_of(f));
                self.with_reg(d, res).with_sreg(f.after_sub(a, k, res, true))
            },
            _ => self,
        }
    }

    /// The data space after word arithmetic, an increment, a decrement, a
    /// complement, a negation or a multiplication; for any other instruction
    /// the state itself.
    pub open spec fn after_arith(self, insn: Insn) -> IoState {
        let f = self.sreg;
        match insn {
            Insn::Adiw(d, k) => {
                let before = self.pair(d);
                let res = before.wrapping_add(k as u16);
                self.with_pair_val(d, res).with_sreg(f.after_adiw(before, res))
            },
            Insn::Sbiw(d, k) => {
                let before = self.pair(d);
                let res = before.wrapping_sub(k as u16);
                self.with_pair_val(d, res).with_sreg(f.after_sbiw(before, res))
            },
            Insn::Inc(d) => {
                let before = self.reg(d);
                let res = before.wrapping_add(1);
                self.with_reg(d, res).with_sreg(f.after_inc(before, res))
            },
            Insn::Dec(d) => {
                let before = self.reg(d);
                let res = before.wrapping_sub(1);
                self.with_reg(d, res).with_sreg(f.after_dec(before, res))
            },
            Insn::Com(d) => {
                let res = (0xff - self.reg(d)) as u8;
                self.with_reg(d, res).with_sreg(f.after_com(res))
            },
            Insn::Neg(d) => {
                let before = self.reg(d);
                let res = 0u8.wrapping_sub(before);
                self.with_reg(d, res).with_sreg(f.after_neg(before, res))
            },
            Insn::Mul(d, r) => {
                let res = product(self.reg(d), self.reg(r));
                self.with_pair_val(0, res).with_sreg(f.after_mul(res))
            },
            _ => self,
        }
    }

    /// The data space after stack, I/O, data-memory or program-memory
    /// traffic, where `prog` is the program; for any other instruction the
    /// state itself.
    pub open spec fn after_transfer(self, insn: Insn, prog: Seq<u16>) -> IoState {
        let f = self.sreg;
        match insn {
            Insn::Push(r) => self.push8(self.reg(r)),
            Insn::Pop(d) => self.after_pop8().with_reg(d, self.pop8()),
            Insn::In(d, port) => self.load(d, port as u32),
            Insn::Out(port, r) => self.store(port as u32, r),
            Insn::Lds(d, k) => self.load(d, k as u32),
            Insn::Sts(k, r) => self.store(k as u32, r),
            Insn::LpmZ(d, m) => self.pre_access(m, false).with_reg(
                d,
                byte_at(prog, self.ea(m, false)),
            ).post_access(m, false),
            Insn::ElpmZ(d, m) => self.pre_access(m, true).with_reg(
                d,
                byte_at(prog, self.ea(m, true)),
            ).post_access(m, true),
            Insn::Ld(d, m) | Insn::Ldd(d, m) => self.pre_access(m, true).load(
                d,
                self.ea(m, true),
            ).post_access(m, true),
            Insn::St(m, r) | Insn::Std(m, r) => self.pre_access(m, true).store(
                self.ea(m, true),
                r,
            ).post_access(m, true),
            _ => self,
        }
    }

    /// The data space after an instruction that touches nothing else of the
    /// machine. For a jump, call, return, branch or skip, and for an
    /// instruction that is not implemented, it is the state itself.
    pub open spec fn after(self, insn: Insn, prog: Seq<u16>) -> IoState {
        match insn.class() {
            InsnClass::Bits => self.after_bits(insn),
            InsnClass::AddSub => self.after_add_sub(insn),
            InsnClass::Arith => self.after_arith(insn),
            InsnClass::Transfer => self.after_transfer(insn, prog),
            _ => self,
        }
    }

    /// Why the data space cannot take the instruction, if it cannot.
    pub open spec fn fault_of(self, insn: Insn) -> Option<Fault> {
        match insn {
            Insn::Call(_) | Insn::Rcall(_) | Insn::Eicall => if self.sp() < 3 {
                Some(Fault::Stack)
            } else {
                None
            },
            Insn::Ret | Insn::Reti => if self.sp() + 3 > u16::MAX {
                Some(Fault::Stack)
            } else {
                None
            },
            Insn::Push(_) => if self.sp() < 1 {
                Some(Fault::Stack)
            } else {
                None
            },
            Insn::Pop(_) => if self.sp() + 1 > u16::MAX {
                Some(Fault::Stack)
            } else {
                None
            },
            Insn::In(_, port) => self.read_fault(port as u32),
            Insn::Out(port, _) => self.write_fault(port as u32),
            Insn::Lds(_, k) => self.read_fault(k as u32),
            Insn::Sts(k, _) => self.write_fault(k as u32),
            Insn::ElpmZ(_, m) => if !is_pointer_reg(m.reg_pair) {
                Some(Fault::BadBase)
            } else {
                None
            },
            Insn::Ld(_, m) | Insn::Ldd(_, m) => if !is_pointer_reg(m.reg_pair) {
                Some(Fault::BadBase)
            } else {
                self.read_fault(self.ea(m, true))
            },
            Insn::St(m, _) | Insn::Std(m, _) => if !is_pointer_reg(m.reg_pair) {
                Some(Fault::BadBase)
            } else {
                self.write_fault(self.ea(m, true))
            },
            Insn::Other => Some(Fault::NotImplemented),
            _ => None,
        }
    }

    /// What the host should report after a read at `addr`.
    pub open spec fn read_notice(addr: u32) -> Option<Notice> {
        if read_is_modelled(addr) {
            None
        } else {
            Some(Notice::UnmodelledRead { addr })
        }
    }

    /// What the host should report after a write of `val` at `addr`.
    pub open spec fn write_notice(addr: u32, val: u8) -> Option<Notice> {
        if addr == USART_C0 {
            if is_printable(val) {
                Some(Notice::UsartEcho { val })
            } else {
                None
            }
        } else if write_is_modelled(addr) {
            None
        } else {
            Some(Notice::UnmodelledWrite { addr, val })
        }
    }

    /// What the host should report after a program-memory read at `addr`.
    pub open spec fn prog_notice(prog: Seq<u16>, addr: u32) -> Option<Notice> {
        if in_program(prog, addr) {
            None
        } else {
            Some(Notice::ProgramReadPastEnd { addr })
        }
    }

    /// What the host should report after the instruction.
    pub open spec fn notice_of(self, insn: Insn, prog: Seq<u16>) -> Option<Notice> {
        match insn {
            Insn::In(_, port) => Self::read_notice(port as u32),
            Insn::Out(port, r) => Self::write_notice(port as u32, self.reg(r)),
            Insn::Lds(_, k) => Self::read_notice(k as u32),
            Insn::Sts(k, r) => Self::write_notice(k as u32, self.reg(r)),
            Insn::LpmZ(_, m) => Self::prog_notice(prog, self.ea(m, false)),
            Insn::ElpmZ(_, m) => Self::prog_notice(prog, self.ea(m, true)),
            Insn::Ld(_, m) | Insn::Ldd(_, m) => Self::read_notice(self.ea(m, true)),
            Insn::St(m, r) | Insn::Std(m, r) => Self::write_notice(
                self.ea(m, true),
                self.pre_access(m, true).reg(r),
            ),
            _ => None,
        }
    }
}

/// The state of the whole machine.
#[verifier::ext_equal]
pub struct Machine {
    pub prog: Seq<u16>,
    pub io: IoState,
    pub pc: u32,
    pub call_stack: Seq<Frame>,
    pub skip_next_insn: bool,
    pub insn_count: u64,
    pub halted: bool,
}

impl Machine {
    pub open spec fn wf(self) -> bool {
        self.io.wf() && self.prog.len() <= PROG_CAPACITY
    }

    /// The machine with its data space replaced.
    pub open spec fn with_io(self, io: IoState) -> Machine {
        Machine { io, ..self }
    }

    /// The machine after a call to `tgt` that returns to `ret_addr`: a
    /// shadow frame is recorded and the word address of `ret_addr` is pushed
    /// as three bytes.
    pub open spec fn after_call(self, ret_addr: u32, tgt: u32) -> Machine {
        Machine {
            call_stack: self.call_stack.push((self.io.sp(), self.pc, tgt)),
            io: self.io.push24(word_addr(ret_addr)),
            ..self
        }
    }

    /// The machine after a return: three bytes are popped and the shadow
    /// call stack is pruned.
    pub open spec fn after_ret(self) -> Machine {
        let io = self.io.after_pop24();
        Machine { io, call_stack: pruned(self.call_stack, io.sp()), ..self }
    }

    /// The address that a return continues at.
    pub open spec fn ret_target(self) -> u32 {
        byte_addr(self.io.pop24())
    }

    /// The target of a call instruction.
    pub open spec fn call_target(self, insn: Insn, next_pc: u32) -> u32 {
        match insn {
            Insn::Call(t) => t,
            Insn::Rcall(ofs) => rel_target(next_pc, ofs),
            _ => byte_addr(self.io.full_ind()),
        }
    }

    /// The machine after the handler of `insn` ran, where `next_pc` is the
    /// address of the instruction that follows `insn` in memory. The program
    /// counter itself is not touched by a handler.
    pub open spec fn after(self, insn: Insn, next_pc: u32) -> Machine {
        match insn {
            Insn::Rjmp(ofs) => Machine {
                halted: self.halted || (ofs == -2 && !self.io.sreg.i),
                ..self
            },
            Insn::Call(_) | Insn::Rcall(_) | Insn::Eicall => self.after_call(
                next_pc,
                self.call_target(insn, next_pc),
            ),
            Insn::Ret => self.after_ret(),
            Insn::Reti => Machine {
                io: self.io.with_sreg(SReg { i: true, ..self.io.sreg }),
                ..self
            }.after_ret(),
            Insn::Sbrc(r, b) => Machine {
                skip_next_insn: !bit_of(self.io.reg(r), b),
                ..self
            },
            Insn::Sbrs(r, b) => Machine { skip_next_insn: bit_of(self.io.reg(r), b), ..self },
            Insn::Cpse(d, r) => Machine {
                skip_next_insn: self.io.reg(d) == self.io.reg(r),
                ..self
            },
            _ => Machine { io: self.io.after(insn, self.prog), ..self },
        }
    }

    /// The address at which execution continues after the handler of `insn`
    /// ran.
    pub open spec fn target(self, insn: Insn, next_pc: u32) -> u32 {
        match insn {
            Insn::Jmp(t) => t,
            Insn::Rjmp(ofs) => rel_target(next_pc, ofs),
            Insn::Eijmp => byte_addr(self.io.full_ind()),
            Insn::Call(_) | Insn::Rcall(_) | Insn::Eicall => self.call_target(insn, next_pc),
            Insn::Ret | Insn::Reti => self.ret_target(),
            _ => if is_branch(insn) && branch_taken(self.io.sreg, insn) {
                rel_target(next_pc, branch_offset(insn) as i16)
            } else {
                next_pc
            },
        }
    }

    /// Why the machine cannot take a step on what the decoder handed over,
    /// if it cannot. A skipped instruction is not looked at beyond its size.
    pub open spec fn fault_of(self, fetched: Option<Insn>) -> Option<Fault> {
        match fetched {
            None => Some(Fault::Decode),
            Some(insn) => if !in_program(self.prog, self.pc) || !insn.wf() {
                Some(Fault::Decode)
            } else if self.insn_count == u64::MAX {
                Some(Fault::Counter)
            } else if self.skip_next_insn {
                None
            } else {
                self.io.fault_of(insn)
            },
        }
    }

    /// The machine after one step on the instruction `insn` found at the
    /// program counter. A pending skip is consumed and suppresses the
    /// handler; either way the program counter moves on and the instruction
    /// is counted.
    pub open spec fn step(self, insn: Insn) -> Machine {
        let next_pc = (self.pc + insn.size()) as u32;
        let counted = (self.insn_count + 1) as u64;
        if self.skip_next_insn {
            Machine { skip_next_insn: false, pc: next_pc, insn_count: counted, ..self }
        } else {
            Machine {
                pc: self.target(insn, next_pc),
                insn_count: counted,
                ..self.after(insn, next_pc)
            }
        }
    }

    /// What the host should report after the step.
    pub open spec fn notice_of(self, insn: Insn) -> Option<Notice> {
        if self.skip_next_insn {
            None
        } else {
            self.io.notice_of(insn, self.prog)
        }
    }

    /// The machine after a reset: the program stays, everything else is as
    /// after construction.
    pub open spec fn reset(self) -> Machine {
        Machine {
            prog: self.prog,
            io: IoState::initial(),
            pc: 0,
            call_stack: Seq::empty(),
            skip_next_insn: false,
            insn_count: 0,
            halted: false,
        }
    }

    /// What the decoder made of the code words at the program counter,
    /// where `decoded[i]` is what it makes of the words from word `i` on.
    pub open spec fn fetch(self, decoded: Seq<Option<Insn>>) -> Option<Insn> {
        if self.pc / 2 < decoded.len() {
            decoded[self.pc as int / 2]
        } else {
            None
        }
    }

    /// Why the machine cannot take its next step, if it cannot.
    #[verifier::opaque]
    pub open spec fn next_fault(self, decoded: Seq<Option<Insn>>) -> Option<Fault> {
        self.fault_of(self.fetch(decoded))
    }

    /// Whether the machine can take its next step.
    pub open spec fn can_step(self, decoded: Seq<Option<Insn>>) -> bool {
        self.next_fault(decoded) is None
    }

    /// The machine after its next step, or the machine itself where the
    /// decoder has nothing for it.
    #[verifier::opaque]
    pub open spec fn advance(self, decoded: Seq<Option<Insn>>) -> Machine {
        match self.fetch(decoded) {
            Some(insn) => self.step(insn),
            None => self,
        }
    }

    /// What the host should report after the next step.
    #[verifier::opaque]
    pub open spec fn next_notice(self, decoded: Seq<Option<Insn>>) -> Option<Notice> {
        match self.fetch(decoded) {
            Some(insn) => self.notice_of(insn),
            None => None,
        }
    }

    /// The machine after `n` steps.
    pub open spec fn steps(self, decoded: Seq<Option<Insn>>, n: nat) -> Machine
        decreases n,
    {
        if n == 0 {
            self
        } else {
            self.steps(decoded, (n - 1) as nat).advance(decoded)
        }
    }

    /// What the host should report after `n` steps, in order.
    pub open spec fn notices(self, decoded: Seq<Option<Insn>>, n: nat) -> Seq<Notice>
        decreases n,
    {
        if n == 0 {
            Seq::empty()
        } else {
            let before = self.steps(decoded, (n - 1) as nat);
            let log = self.notices(decoded, (n - 1) as nat);
            match before.next_notice(decoded) {
                Some(notice) => log.push(notice),
                None => log,
            }
        }
    }

    /// Whether a run ends here: the machine has halted, or it stands at the
    /// program counter that the run was to reach.
    pub open spec fn stops(self, target: Option<u32>) -> bool {
        self.halted || target == Some(self.pc)
    }

    /// The machine as a run starts it: not halted.
    pub open spec fn started(self) -> Machine {
        Machine { halted: false, ..self }
    }

    /// Whether a run of the machine `self` takes exactly `n` steps: each of
    /// them can be taken, and none but the last ends the run. A run always
    /// takes its first step.
    pub open spec fn runs_for(self, decoded: Seq<Option<Insn>>, target: Option<u32>, n: nat) -> bool {
        forall|k: nat|
            k < n ==> {
                &&& (#[trigger] self.started().steps(decoded, k)).can_step(decoded)
                &&& k >= 1 ==> !self.started().steps(decoded, k).stops(target)
            }
    }

    /// The fault that ends a run after `n` steps, if one does: none where
    /// the run has ended of itself.
    pub open spec fn run_fault(self, decoded: Seq<Option<Insn>>, target: Option<u32>, n: nat)
        -> Option<Fault> {
        let end = self.started().steps(decoded, n);
        if n >= 1 && end.stops(target) {
            None
        } else {
            end.next_fault(decoded)
        }
    }
}

/// Whether the instruction is a call.
pub open spec fn is_call(insn: Insn) -> bool {
    insn is Call || insn is Rcall || insn is Eicall
}

/// Whether the addresses and offsets that the instruction jumps by are even.
pub open spec fn is_aligned(insn: Insn) -> bool {
    match insn {
        Insn::Jmp(t) | Insn::Call(t) => t % 2 == 0,
        Insn::Rjmp(ofs) | Insn::Rcall(ofs) => ofs % 2 == 0,
        _ => branch_offset(insn) % 2 == 0,
    }
}

/// The byte address of a word address is even, and for an even byte address
/// below 2^25 the word address fits 24 bits and leads back to it.
pub proof fn lemma_word_and_byte_addr(addr: u32)
    ensures
        byte_addr(addr) % 2 == 0,
        addr % 2 == 0 && addr < 0x200_0000 ==> word_addr(addr) <= 0xff_ffff && byte_addr(
            word_addr(addr),
        ) == addr,
{
    assert((addr << 1) % 2 == 0) by (bit_vector);
    assert(addr % 2 == 0 && addr < 0x200_0000 ==> (addr >> 1) <= 0xff_ffff && ((addr >> 1) << 1)
        == addr) by (bit_vector);
}

/// A return continues at the instruction after the matching call: if a call
/// pushed the return address `next_pc`, and a later state of the machine has
/// the stack pointer where the call left it and the three cells above it as
/// the call left them, then a return in that state leads to `next_pc` and
/// puts the stack pointer back where it was before the call.
pub proof fn lemma_return_matches_call(m: Machine, call: Insn, next_pc: u32, later: Machine)
    requires
        m.wf(),
        later.wf(),
        is_call(call),
        m.io.fault_of(call) is None,
        next_pc % 2 == 0,
        next_pc < 0x200_0000,
        clear_of_sp(m.io.sp() as int),
        clear_of_sp(m.io.sp() - 1),
        clear_of_sp(m.io.sp() - 2),
        later.io.sp() == m.after(call, next_pc).io.sp(),
        forall|a: int|
            m.io.sp() - 2 <= a <= m.io.sp() ==> later.io.mem[a] == m.after(call, next_pc).io.mem[a],
    ensures
        later.ret_target() == next_pc,
        later.target(Insn::Ret, 0) == next_pc,
        later.target(Insn::Reti, 0) == next_pc,
        later.after_ret().io.sp() == m.io.sp(),
{
    let pushed = word_addr(next_pc);
    lemma_word_and_byte_addr(next_pc);
    lemma_push24_writes(m.io, pushed);
    lemma_pop24_reads(later.io);
    lemma_triple_bytes(pushed);
}

/// A step that can be taken from an even program counter, on an instruction
/// with even jump operands, leaves the program counter even.
pub proof fn lemma_step_keeps_pc_even(m: Machine, insn: Insn)
    requires
        m.wf(),
        m.fault_of(Some(insn)) is None,
        m.pc % 2 == 0,
        is_aligned(insn),
    ensures
        m.step(insn).pc % 2 == 0,
{
    lemma_word_and_byte_addr(m.io.full_ind());
    lemma_word_and_byte_addr(m.io.pop24());
}

/// Flag and bit operations, moves, logic and shifts keep the data space
/// well formed.
proof fn lemma_bits_keep_wf(io: IoState, insn: Insn)
    requires
        io.wf(),
        insn.wf(),
    ensures
        io.after_bits(insn).wf(),
{
}

/// Additions, subtractions and comparisons keep the data space well formed.
proof fn lemma_add_sub_keeps_wf(io: IoState, insn: Insn)
    requires
        io.wf(),
        insn.wf(),
    ensures
        io.after_add_sub(insn).wf(),
{
}

/// Word arithmetic, increment, decrement, complement, negation and
/// multiplication keep the data space well formed.
proof fn lemma_arith_keeps_wf(io: IoState, insn: Insn)
    requires
        io.wf(),
        insn.wf(),
    ensures
        io.after_arith(insn).wf(),
{
}

/// Stack and memory traffic that the data space can take keeps it well
/// formed.
proof fn lemma_transfer_keeps_wf(io: IoState, insn: Insn, prog: Seq<u16>)
    requires
        io.wf(),
        insn.wf(),
        io.fault_of(insn) is None,
    ensures
        io.after_transfer(insn, prog).wf(),
{
}

/// No instruction that the data space can take changes how many registers
/// and data cells there are.
pub proof fn lemma_after_keeps_wf(io: IoState, insn: Insn, prog: Seq<u16>)
    requires
        io.wf(),
        insn.wf(),
        io.fault_of(insn) is None,
    ensures
        io.after(insn, prog).wf(),
{
    lemma_bits_keep_wf(io, insn);
    lemma_add_sub_keeps_wf(io, insn);
    lemma_arith_keeps_wf(io, insn);
    lemma_transfer_keeps_wf(io, insn, prog);
}

/// A step that can be taken leaves the machine well formed and the program
/// as it was.
pub proof fn lemma_step_keeps_wf(m: Machine, insn: Insn)
    requires
        m.wf(),
        m.fault_of(Some(insn)) is None,
    ensures
        m.step(insn).wf(),
        m.step(insn).prog == m.prog,
{
    if !m.skip_next_insn {
        lemma_after_keeps_wf(m.io, insn, m.prog);
        let next_pc = (m.pc + insn.size()) as u32;
        assert(m.after(insn, next_pc).io.wf());
    }
}

/// Along a run of a program whose jump operands are all even, started at an
/// even program counter, the program counter is even after every
/// instruction, every instruction is fetched from inside the program, and
/// the program itself never changes.
pub proof fn lemma_run_keeps_pc_in_program(
    m: Machine,
    decoded: Seq<Option<Insn>>,
    target: Option<u32>,
    n: nat,
)
    requires
        m.wf(),
        m.pc % 2 == 0,
        forall|i: int| 0 <= i < decoded.len() && decoded[i] is Some ==> is_aligned(decoded[i]->0),
        m.runs_for(decoded, target, n),
    ensures
        m.started().steps(decoded, n).pc % 2 == 0,
        m.started().steps(decoded, n).prog == m.prog,
        m.started().steps(decoded, n).wf(),
        forall|k: nat|
            k < n ==> in_program(m.prog, (#[trigger] m.started().steps(decoded, k)).pc),
    decreases n,
{
    if n > 0 {
        let before = m.started().steps(decoded, (n - 1) as nat);
        assert(m.runs_for(decoded, target, (n - 1) as nat));
        lemma_run_keeps_pc_in_program(m, decoded, target, (n - 1) as nat);
        assert(before.can_step(decoded));
        let fetched = before.fetch(decoded);
        assert(before.fault_of(fetched) is None && fetched is Some && before.advance(decoded)
            == before.step(fetched->0) && in_program(before.prog, before.pc)) by {
            reveal(Machine::next_fault);
            reveal(Machine::advance);
        }
        let insn = fetched->0;
        lemma_step_keeps_pc_even(before, insn);
        lemma_step_keeps_wf(before, insn);
        assert forall|k: nat| k < n implies in_program(
            m.prog,
            (#[trigger] m.started().steps(decoded, k)).pc,
        ) by {
            if k == n - 1 {
            }
        }
    }
}

} // verus!
