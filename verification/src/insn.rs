//! Decoded instruction records. A decoder turns code words into these; the
//! execution engine only consumes them.
use vstd::prelude::*;
use crate::sreg::Flag;

verus! {

/// What a load or store does to its base register pair.
#[derive(Clone, Copy, Debug, PartialEq, Eq, Structural)]
pub enum MemRegUpdate {
    /// The base is left as it is.
    Unchanged,
    /// The base is decremented before the access.
    PreDec,
    /// The base is incremented after the access.
    PostInc,
}

/// The addressing mode of a load or store: the low register of the base
/// pair, a displacement and the update of the base.
#[derive(Clone, Copy, Debug, PartialEq, Eq, Structural)]
pub struct MemAccess {
    pub reg_pair: u8,
    pub ofs: u8,
    pub update: MemRegUpdate,
}

/// One decoded instruction. Registers and register pairs are given by the
/// index of the register, or of the low register of the pair; branch and
/// relative jump offsets are signed byte offsets; absolute jump and call
/// targets are byte addresses.
#[derive(Clone, Copy, Debug, PartialEq, Eq, Structural)]
pub enum Insn {
    Nop,
    Jmp(u32),
    Rjmp(i16),
    Eijmp,
    Call(u32),
    Rcall(i16),
    Eicall,
    Ret,
    Reti,
    Push(u8),
    Pop(u8),
    Breq(i8),
    Brne(i8),
    Brcc(i8),
    Brcs(i8),
    Brge(i8),
    Brlt(i8),
    Brmi(i8),
    Brpl(i8),
    Brtc(i8),
    Brts(i8),
    Sbrc(u8, u8),
    Sbrs(u8, u8),
    Cpse(u8, u8),
    /// `CLC`, `CLZ`, ... : clears the named flag.
    ClearFlag(Flag),
    /// `SEC`, `SEZ`, ... : sets the named flag.
    SetFlag(Flag),
    Bst(u8, u8),
    Bld(u8, u8),
    Ldi(u8, u8),
    Mov(u8, u8),
    Movw(u8, u8),
    Andi(u8, u8),
    Ori(u8, u8),
    And(u8, u8),
    Or(u8, u8),
    Eor(u8, u8),
    Lsr(u8),
    Asr(u8),
    Ror(u8),
    Swap(u8),
    Add(u8, u8),
    Adc(u8, u8),
    Cp(u8, u8),
    Cpi(u8, u8),
    Cpc(u8, u8),
    Sub(u8, u8),
    Subi(u8, u8),
    Sbc(u8, u8),
    Sbci(u8, u8),
    Adiw(u8, u8),
    Sbiw(u8, u8),
    Inc(u8),
    Dec(u8),
    Com(u8),
    Neg(u8),
    Mul(u8, u8),
    In(u8, u8),
    Out(u8, u8),
    LpmZ(u8, MemAccess),
    ElpmZ(u8, MemAccess),
    Ld(u8, MemAccess),
    Ldd(u8, MemAccess),
    St(MemAccess, u8),
    Std(MemAccess, u8),
    Lds(u8, u16),
    Sts(u16, u8),
    /// Any instruction that the engine does not implement.
    Other,
}

/// The family of an instruction, by what its handler touches.
#[derive(Clone, Copy, Debug, PartialEq, Eq, Structural)]
pub enum InsnClass {
    /// Jumps, calls, returns, branches and skips.
    Flow,
    /// Flag and bit operations, moves, logic and shifts.
    Bits,
    /// Additions, subtractions and comparisons of two bytes.
    AddSub,
    /// Word arithmetic, increment, decrement, complement, negation and
    /// multiplication.
    Arith,
    /// Stack, I/O, data-memory and program-memory traffic.
    Transfer,
    /// Instructions that the engine does not implement.
    Unknown,
}

/// A register index names one of the 32 registers.
pub open spec fn is_reg(r: u8) -> bool {
    r < 32
}

/// A pair index leaves room for the high register of the pair.
pub open spec fn is_pair(r: u8) -> bool {
    r < 31
}

/// A bit index names one of the 8 bits of a register.
pub open spec fn is_bit(b: u8) -> bool {
    b < 8
}

impl MemAccess {
    pub open spec fn wf(self) -> bool {
        is_pair(self.reg_pair)
    }

    pub fn is_wf(&self) -> (ok: bool)
        ensures
            ok == self.wf(),
    {
        self.reg_pair < 31
    }
}

impl Insn {
    /// Every register, pair and bit index of the record is in range.
    pub open spec fn wf(self) -> bool {
        match self {
            Insn::Push(r) | Insn::Pop(r) | Insn::Lsr(r) | Insn::Asr(r) | Insn::Ror(r) | Insn::Swap(
                r,
            ) | Insn::Inc(r) | Insn::Dec(r) | Insn::Com(r) | Insn::Neg(r) => is_reg(r),
            Insn::Sbrc(r, b) | Insn::Sbrs(r, b) | Insn::Bst(r, b) | Insn::Bld(r, b) => is_reg(r)
                && is_bit(b),
            Insn::Cpse(d, r) | Insn::Mov(d, r) | Insn::And(d, r) | Insn::Or(d, r) | Insn::Eor(
                d,
                r,
            ) | Insn::Add(d, r) | Insn::Adc(d, r) | Insn::Cp(d, r) | Insn::Cpc(d, r) | Insn::Sub(
                d,
                r,
            ) | Insn::Sbc(d, r) | Insn::Mul(d, r) => is_reg(d) && is_reg(r),
            Insn::Ldi(d, _) | Insn::Andi(d, _) | Insn::Ori(d, _) | Insn::Cpi(d, _) | Insn::Subi(
                d,
                _,
            ) | Insn::Sbci(d, _) | Insn::In(d, _) | Insn::Lds(d, _) => is_reg(d),
            Insn::Out(_, r) | Insn::Sts(_, r) => is_reg(r),
            Insn::Movw(d, r) => is_pair(d) && is_pair(r),
            Insn::Adiw(d, _) | Insn::Sbiw(d, _) => is_pair(d),
            Insn::LpmZ(d, m) | Insn::ElpmZ(d, m) | Insn::Ld(d, m) | Insn::Ldd(d, m) => is_reg(d)
                && m.wf(),
            Insn::St(m, r) | Insn::Std(m, r) => is_reg(r) && m.wf(),
            _ => true,
        }
    }

    /// Size of the instruction in bytes: 4 for `JMP`, `CALL`, `LDS` and
    /// `STS`, 2 for every other instruction.
    pub open spec fn size(self) -> u32 {
        match self {
            Insn::Jmp(_) | Insn::Call(_) | Insn::Lds(_, _) | Insn::Sts(_, _) => 4,
            _ => 2,
        }
    }

    /// The family of the instruction.
    pub open spec fn class(self) -> InsnClass {
        match self {
            Insn::Nop
            | Insn::Jmp(_)
            | Insn::Rjmp(_)
            | Insn::Eijmp
            | Insn::Call(_)
            | Insn::Rcall(_)
            | Insn::Eicall
            | Insn::Ret
            | Insn::Reti
            | Insn::Breq(_)
            | Insn::Brne(_)
            | Insn::Brcc(_)
            | Insn::Brcs(_)
            | Insn::Brge(_)
            | Insn::Brlt(_)
            | Insn::Brmi(_)
            | Insn::Brpl(_)
            | Insn::Brtc(_)
            | Insn::Brts(_)
            | Insn::Sbrc(_, _)
            | Insn::Sbrs(_, _)
            | Insn::Cpse(_, _) => InsnClass::Flow,
            Insn::ClearFlag(_)
            | Insn::SetFlag(_)
            | Insn::Bst(_, _)
            | Insn::Bld(_, _)
            | Insn::Ldi(_, _)
            | Insn::Mov(_, _)
            | Insn::Movw(_, _)
            | Insn::Andi(_, _)
            | Insn::Ori(_, _)
            | Insn::And(_, _)
            | Insn::Or(_, _)
            | Insn::Eor(_, _)
            | Insn::Lsr(_)
            | Insn::Asr(_)
            | Insn::Ror(_)
            | Insn::Swap(_) => InsnClass::Bits,
            Insn::Add(_, _)
            | Insn::Adc(_, _)
            | Insn::Cp(_, _)
            | Insn::Cpi(_, _)
            | Insn::Cpc(_, _)
            | Insn::Sub(_, _)
            | Insn::Subi(_, _)
            | Insn::Sbc(_, _)
            | Insn::Sbci(_, _) => InsnClass::AddSub,
            Insn::Adiw(_, _)
            | Insn::Sbiw(_, _)
            | Insn::Inc(_)
            | Insn::Dec(_)
            | Insn::Com(_)
            | Insn::Neg(_)
            | Insn::Mul(_, _) => InsnClass::Arith,
            Insn::Push(_)
            | Insn::Pop(_)
            | Insn::In(_, _)
            | Insn::Out(_, _)
            | Insn::LpmZ(_, _)
            | Insn::ElpmZ(_, _)
            | Insn::Ld(_, _)
            | Insn::Ldd(_, _)
            | Insn::St(_, _)
            | Insn::Std(_, _)
            | Insn::Lds(_, _)
            | Insn::Sts(_, _) => InsnClass::Transfer,
            Insn::Other => InsnClass::Unknown,
        }
    }

    pub fn classify(&self) -> (class: InsnClass)
        ensures
            class == self.class(),
    {
        match *self {
            Insn::Nop
            | Insn::Jmp(_)
            | Insn::Rjmp(_)
            | Insn::Eijmp
            | Insn::Call(_)
            | Insn::Rcall(_)
            | Insn::Eicall
            | Insn::Ret
            | Insn::Reti
            | Insn::Breq(_)
            | Insn::Brne(_)
            | Insn::Brcc(_)
            | Insn::Brcs(_)
            | Insn::Brge(_)
            | Insn::Brlt(_)
            | Insn::Brmi(_)
            | Insn::Brpl(_)
            | Insn::Brtc(_)
            | Insn::Brts(_)
            | Insn::Sbrc(_, _)
            | Insn::Sbrs(_, _)
            | Insn::Cpse(_, _) => InsnClass::Flow,
            Insn::ClearFlag(_)
            | Insn::SetFlag(_)
            | Insn::Bst(_, _)
            | Insn::Bld(_, _)
            | Insn::Ldi(_, _)
            | Insn::Mov(_, _)
            | Insn::Movw(_, _)
            | Insn::Andi(_, _)
            | Insn::Ori(_, _)
            | Insn::And(_, _)
            | Insn::Or(_, _)
            | Insn::Eor(_, _)
            | Insn::Lsr(_)
            | Insn::Asr(_)
            | Insn::Ror(_)
            | Insn::Swap(_) => InsnClass::Bits,
            Insn::Add(_, _)
            | Insn::Adc(_, _)
            | Insn::Cp(_, _)
            | Insn::Cpi(_, _)
            | Insn::Cpc(_, _)
            | Insn::Sub(_, _)
            | Insn::Subi(_, _)
            | Insn::Sbc(_, _)
            | Insn::Sbci(_, _) => InsnClass::AddSub,
            Insn::Adiw(_, _)
            | Insn::Sbiw(_, _)
            | Insn::Inc(_)
            | Insn::Dec(_)
            | Insn::Com(_)
            | Insn::Neg(_)
            | Insn::Mul(_, _) => InsnClass::Arith,
            Insn::Push(_)
            | Insn::Pop(_)
            | Insn::In(_, _)
            | Insn::Out(_, _)
            | Insn::LpmZ(_, _)
            | Insn::ElpmZ(_, _)
            | Insn::Ld(_, _)
            | Insn::Ldd(_, _)
            | Insn::St(_, _)
            | Insn::Std(_, _)
            | Insn::Lds(_, _)
            | Insn::Sts(_, _) => InsnClass::Transfer,
            Insn::Other => InsnClass::Unknown,
        }
    }

    pub fn is_wf(&self) -> (ok: bool)
        ensures
            ok == self.wf(),
    {
        match *self {
            Insn::Push(r) | Insn::Pop(r) | Insn::Lsr(r) | Insn::Asr(r) | Insn::Ror(r) | Insn::Swap(
                r,
            ) | Insn::Inc(r) | Insn::Dec(r) | Insn::Com(r) | Insn::Neg(r) => r < 32,
            Insn::Sbrc(r, b) | Insn::Sbrs(r, b) | Insn::Bst(r, b) | Insn::Bld(r, b) => r < 32 && b
                < 8,
            Insn::Cpse(d, r) | Insn::Mov(d, r) | Insn::And(d, r) | Insn::Or(d, r) | Insn::Eor(
                d,
                r,
            ) | Insn::Add(d, r) | Insn::Adc(d, r) | Insn::Cp(d, r) | Insn::Cpc(d, r) | Insn::Sub(
                d,
                r,
            ) | Insn::Sbc(d, r) | Insn::Mul(d, r) => d < 32 && r < 32,
            Insn::Ldi(d, _) | Insn::Andi(d, _) | Insn::Ori(d, _) | Insn::Cpi(d, _) | Insn::Subi(
                d,
                _,
            ) | Insn::Sbci(d, _) | Insn::In(d, _) | Insn::Lds(d, _) => d < 32,
            Insn::Out(_, r) | Insn::Sts(_, r) => r < 32,
            Insn::Movw(d, r) => d < 31 && r < 31,
            Insn::Adiw(d, _) | Insn::Sbiw(d, _) => d < 31,
            Insn::LpmZ(d, m) | Insn::ElpmZ(d, m) | Insn::Ld(d, m) | Insn::Ldd(d, m) => d < 32
                && m.is_wf(),
            Insn::St(m, r) | Insn::Std(m, r) => r < 32 && m.is_wf(),
            _ => true,
        }
    }

    pub fn byte_size(&self) -> (n: u32)
        ensures
            n == self.size(),
    {
        match *self {
            Insn::Jmp(_) | Insn::Call(_) | Insn::Lds(_, _) | Insn::Sts(_, _) => 4,
            _ => 2,
        }
    }
}

} // verus!
