//! The unified data space: register file, status register, the low I/O
//! window, a few peripherals (oscillator status, RTC, USART) and SRAM, all
//! behind one byte-addressed read and write interface. The stack pointer and
//! the extension bytes RAMPx and EIND live in this space.
use vstd::prelude::*;
use crate::registers::{
    hi_byte, lemma_word_bytes, lo_byte, pair_at, with_pair, word_of, RegisterFile,
};
use crate::sreg::SReg;

verus! {

pub const RAMPD: u32 = 0x0038;

pub const RAMPX: u32 = 0x0039;

pub const RAMPY: u32 = 0x003A;

pub const RAMPZ: u32 = 0x003B;

pub const EIND: u32 = 0x003C;

pub const SPL: u32 = 0x003D;

pub const SPH: u32 = 0x003E;

pub const SREG: u32 = 0x003F;

/// Base address of the oscillator registers.
pub const OSC: u32 = 0x50;

/// Oscillator status register: always reads as ready.
pub const OSC_STATUS: u32 = 0x0051;

pub const RTC_STATUS: u32 = 0x0401;

pub const RTC_CNT_L: u32 = 0x0408;

pub const RTC_CNT_H: u32 = 0x0409;

pub const USART_C0: u32 = 0x08A0;

pub const USART_C0_STATUS: u32 = 0x08A1;

/// First address of SRAM.
pub const SRAM_START: u32 = 0x2000;

/// Last address that is decoded as SRAM.
pub const SRAM_END: u32 = 0xFF_FFFF;

/// Number of byte cells that back the data space.
pub const DATA_CAPACITY: usize = 0x40_0000;

/// What one read of the RTC count register adds to the counter.
pub const RTC_TICK: u16 = 1000;

/// Index of the low register of the X, Y and Z pairs.
pub const X_L: u8 = 26;

pub const Y_L: u8 = 28;

pub const Z_L: u8 = 30;

/// A 24-bit value made of an extension byte and a 16-bit word.
pub open spec fn full_of(ext: u8, word: u16) -> u32 {
    ((ext as u32) << 16) | (word as u32)
}

/// The low 16 bits of a 24-bit value.
pub open spec fn low_word(val: u32) -> u16 {
    (val & 0xffff) as u16
}

/// Bits 16 to 23 of a value.
pub open spec fn ext_byte(val: u32) -> u8 {
    ((val >> 16) & 0xff) as u8
}

/// Byte `k` (0, 1 or 2) of a 24-bit value, least significant first.
pub open spec fn byte_of(val: u32, k: int) -> u8 {
    if k == 0 {
        (val & 0xff) as u8
    } else if k == 1 {
        ((val >> 8) & 0xff) as u8
    } else {
        ((val >> 16) & 0xff) as u8
    }
}

/// The 24-bit value with the given bytes, least significant first.
pub open spec fn triple_of(b0: u8, b1: u8, b2: u8) -> u32 {
    ((b2 as u32) << 16) | ((b1 as u32) << 8) | (b0 as u32)
}

/// Addresses of the plain cells of the low I/O window (RAMPD to SPH).
pub open spec fn is_plain_io(addr: u32) -> bool {
    0x38 <= addr <= 0x3e
}

/// Addresses decoded as SRAM.
pub open spec fn is_sram(addr: u32) -> bool {
    SRAM_START <= addr <= SRAM_END
}

/// Addresses at which a read is modelled; a read anywhere else gives 0 and
/// is worth a trace to the host.
pub open spec fn read_is_modelled(addr: u32) -> bool {
    addr == OSC_STATUS || addr == RTC_STATUS || addr == RTC_CNT_L || addr == RTC_CNT_H || addr
        == USART_C0 || addr == USART_C0_STATUS || is_plain_io(addr) || addr == SREG || is_sram(
        addr,
    )
}

/// Addresses at which a write is modelled; a write anywhere else changes
/// nothing and is worth a trace to the host.
pub open spec fn write_is_modelled(addr: u32) -> bool {
    addr == USART_C0 || is_plain_io(addr) || addr == SREG || is_sram(addr)
}

/// Bytes that a terminal can show: ASCII graphic characters and ASCII
/// whitespace (space, tab, line feed, form feed, carriage return).
pub open spec fn is_printable(val: u8) -> bool {
    0x21 <= val <= 0x7e || val == 0x20 || val == 0x09 || val == 0x0a || val == 0x0c || val == 0x0d
}

/// The mathematical state of the data space.
#[verifier::ext_equal]
pub struct IoState {
    pub regs: Seq<u8>,
    pub sreg: SReg,
    pub mem: Seq<u8>,
    pub usart_input: Seq<u8>,
    pub usart_output: Seq<u8>,
    pub rtc_cnt: u16,
}

impl IoState {
    /// The state after construction: everything zero, both USART queues empty.
    pub open spec fn initial() -> IoState {
        IoState {
            regs: Seq::new(32, |i: int| 0u8),
            sreg: SReg::cleared(),
            mem: Seq::new(DATA_CAPACITY as nat, |i: int| 0u8),
            usart_input: Seq::empty(),
            usart_output: Seq::empty(),
            rtc_cnt: 0,
        }
    }

    pub open spec fn wf(self) -> bool {
        self.regs.len() == 32 && self.mem.len() == DATA_CAPACITY
    }

    /// The state with the cell at `addr` replaced.
    pub open spec fn with_cell(self, addr: int, val: u8) -> IoState {
        IoState { mem: self.mem.update(addr, val), ..self }
    }

    /// The word stored little-endian in the cells `addr` and `addr + 1`.
    pub open spec fn cell_word(self, addr: int) -> u16 {
        word_of(self.mem[addr], self.mem[addr + 1])
    }

    /// The state with a word stored little-endian in the cells `addr` and
    /// `addr + 1`.
    pub open spec fn with_cell_word(self, addr: int, val: u16) -> IoState {
        self.with_cell(addr, lo_byte(val)).with_cell(addr + 1, hi_byte(val))
    }

    /// The stack pointer.
    pub open spec fn sp(self) -> u16 {
        self.cell_word(SPL as int)
    }

    pub open spec fn with_sp(self, val: u16) -> IoState {
        self.with_cell_word(SPL as int, val)
    }

    pub open spec fn with_regs(self, regs: Seq<u8>) -> IoState {
        IoState { regs, ..self }
    }

    pub open spec fn with_sreg(self, sreg: SReg) -> IoState {
        IoState { sreg, ..self }
    }

    /// RAMPX:X, RAMPY:Y or RAMPZ:Z, for the pair whose low register is `reg`.
    pub open spec fn full_reg(self, reg: u8) -> u32 {
        full_of(self.mem[ramp_of(reg) as int], pair_at(self.regs, reg as int))
    }

    pub open spec fn with_full_reg(self, reg: u8, val: u32) -> IoState {
        self.with_regs(with_pair(self.regs, reg as int, low_word(val))).with_cell(
            ramp_of(reg) as int,
            ext_byte(val),
        )
    }

    /// EIND:Z, the target of an indirect jump or call.
    pub open spec fn full_ind(self) -> u32 {
        full_of(self.mem[EIND as int], pair_at(self.regs, Z_L as int))
    }

    /// Whether a read at `addr` can be served: the USART data register needs
    /// a byte waiting, and an SRAM address needs a cell behind it.
    pub open spec fn can_read(self, addr: u32) -> bool {
        &&& addr == USART_C0 ==> self.usart_input.len() > 0
        &&& is_sram(addr) ==> addr < DATA_CAPACITY
    }

    /// Whether a write at `addr` can be served: an SRAM address needs a cell
    /// behind it.
    pub open spec fn can_write(self, addr: u32) -> bool {
        is_sram(addr) ==> addr < DATA_CAPACITY
    }

    /// The byte that a read at `addr` returns.
    pub open spec fn read8(self, addr: u32) -> u8 {
        if addr == OSC_STATUS {
            0xff
        } else if addr == RTC_STATUS {
            0
        } else if addr == RTC_CNT_L {
            lo_byte(self.rtc_cnt.wrapping_add(RTC_TICK))
        } else if addr == RTC_CNT_H {
            (self.rtc_cnt >> 8) as u8
        } else if addr == USART_C0 {
            self.usart_input[0]
        } else if addr == USART_C0_STATUS {
            if self.usart_input.len() > 0 {
                0xa0
            } else {
                0x20
            }
        } else if is_plain_io(addr) || is_sram(addr) {
            self.mem[addr as int]
        } else if addr == SREG {
            self.sreg.byte()
        } else {
            0
        }
    }

    /// The state that a read at `addr` leaves behind: reading the RTC count
    /// advances the counter, reading the USART data register consumes the
    /// head of the input queue, any other read changes nothing.
    pub open spec fn after_read8(self, addr: u32) -> IoState {
        if addr == RTC_CNT_L {
            IoState { rtc_cnt: self.rtc_cnt.wrapping_add(RTC_TICK), ..self }
        } else if addr == USART_C0 {
            IoState { usart_input: self.usart_input.remove(0), ..self }
        } else {
            self
        }
    }

    /// The state after `val` was written at `addr`.
    pub open spec fn write8(self, addr: u32, val: u8) -> IoState {
        if addr == USART_C0 {
            IoState { usart_output: self.usart_output.push(val), ..self }
        } else if is_plain_io(addr) || is_sram(addr) {
            self.with_cell(addr as int, val)
        } else if addr == SREG {
            self.with_sreg(SReg::from_byte(val))
        } else {
            self
        }
    }

    /// The word that a 16-bit read at `addr` returns: the byte read at `addr`
    /// is the low one, the byte read next at `addr + 1` the high one.
    pub open spec fn read16(self, addr: u32) -> u16 {
        word_of(self.read8(addr), self.after_read8(addr).read8((addr + 1) as u32))
    }

    pub open spec fn after_read16(self, addr: u32) -> IoState {
        self.after_read8(addr).after_read8((addr + 1) as u32)
    }

    pub open spec fn write16(self, addr: u32, val: u16) -> IoState {
        self.write8(addr, lo_byte(val)).write8((addr + 1) as u32, hi_byte(val))
    }

    /// Push: store at SP, then decrement SP.
    pub open spec fn push8(self, val: u8) -> IoState {
        self.with_cell(self.sp() as int, val).with_sp((self.sp() - 1) as u16)
    }

    /// The state after a pop: SP incremented.
    pub open spec fn after_pop8(self) -> IoState {
        self.with_sp((self.sp() + 1) as u16)
    }

    /// The byte that a pop returns: the cell at the incremented SP.
    pub open spec fn pop8(self) -> u8 {
        self.after_pop8().mem[self.sp() + 1]
    }

    pub open spec fn push16(self, val: u16) -> IoState {
        self.push8(lo_byte(val)).push8(hi_byte(val))
    }

    pub open spec fn after_pop16(self) -> IoState {
        self.after_pop8().after_pop8()
    }

    pub open spec fn pop16(self) -> u16 {
        word_of(self.after_pop8().pop8(), self.pop8())
    }

    pub open spec fn push24(self, val: u32) -> IoState {
        self.push8(byte_of(val, 0)).push8(byte_of(val, 1)).push8(byte_of(val, 2))
    }

    pub open spec fn after_pop24(self) -> IoState {
        self.after_pop8().after_pop8().after_pop8()
    }

    pub open spec fn pop24(self) -> u32 {
        triple_of(self.after_pop8().after_pop8().pop8(), self.after_pop8().pop8(), self.pop8())
    }
}

/// Address of the extension byte of the pair whose low register is `reg`.
pub open spec fn ramp_of(reg: u8) -> u32 {
    if reg == X_L {
        RAMPX
    } else if reg == Y_L {
        RAMPY
    } else {
        RAMPZ
    }
}

/// Whether `reg` is the low register of X, Y or Z.
pub open spec fn is_pointer_reg(reg: u8) -> bool {
    reg == X_L || reg == Y_L || reg == Z_L
}

pub struct IOMemory {
    pub regs: RegisterFile,
    pub sreg: SReg,
    pub data_mem: Vec<u8>,
    pub usart_input: Vec<u8>,
    pub usart_output_log: Vec<u8>,
    pub rtc_cnt: u16,
}

impl View for IOMemory {
    type V = IoState;

    open spec fn view(&self) -> IoState {
        IoState {
            regs: self.regs@,
            sreg: self.sreg,
            mem: self.data_mem@,
            usart_input: self.usart_input@,
            usart_output: self.usart_output_log@,
            rtc_cnt: self.rtc_cnt,
        }
    }
}

impl IOMemory {
    /// Every cell of the data space has backing store.
    pub open spec fn wf(&self) -> bool {
        self@.wf()
    }

    pub fn new() -> (io: IOMemory)
        ensures
            io.wf(),
            io@ == IoState::initial(),
    {
        IOMemory {
            regs: RegisterFile::new(),
            sreg: SReg::new(),
            data_mem: vec![0u8; DATA_CAPACITY],
            usart_input: Vec::new(),
            usart_output_log: Vec::new(),
            rtc_cnt: 0,
        }
    }

    /// Reads a cell directly, with no address decoding.
    pub fn _get8(&self, addr: u32) -> (val: u8)
        requires
            self.wf(),
            addr < DATA_CAPACITY,
        ensures
            val == self@.mem[addr as int],
    {
        self.data_mem[addr as usize]
    }

    /// Writes a cell directly, with no address decoding.
    pub fn _set8(&mut self, addr: u32, val: u8)
        requires
            old(self).wf(),
            addr < DATA_CAPACITY,
        ensures
            final(self).wf(),
            final(self)@ == old(self)@.with_cell(addr as int, val),
    {
        self.data_mem.set(addr as usize, val);
    }

    pub fn get_rampd(&self) -> (val: u8)
        requires
            self.wf(),
        ensures
            val == self@.mem[RAMPD as int],
    {
        self._get8(RAMPD)
    }

    pub fn get_rampx(&self) -> (val: u8)
        requires
            self.wf(),
        ensures
            val == self@.mem[RAMPX as int],
    {
        self._get8(RAMPX)
    }

    pub fn get_rampy(&self) -> (val: u8)
        requires
            self.wf(),
        ensures
            val == self@.mem[RAMPY as int],
    {
        self._get8(RAMPY)
    }

    pub fn get_rampz(&self) -> (val: u8)
        requires
            self.wf(),
        ensures
            val == self@.mem[RAMPZ as int],
    {
        self._get8(RAMPZ)
    }

    pub fn get_eind(&self) -> (val: u8)
        requires
            self.wf(),
        ensures
            val == self@.mem[EIND as int],
    {
        self._get8(EIND)
    }

    pub fn set_rampx(&mut self, val: u8)
        requires
            old(self).wf(),
        ensures
            final(self).wf(),
            final(self)@ == old(self)@.with_cell(RAMPX as int, val),
    {
        self._set8(RAMPX, val);
    }

    pub fn set_rampy(&mut self, val: u8)
        requires
            old(self).wf(),
        ensures
            final(self).wf(),
            final(self)@ == old(self)@.with_cell(RAMPY as int, val),
    {
        self._set8(RAMPY, val);
    }

    pub fn set_rampz(&mut self, val: u8)
        requires
            old(self).wf(),
        ensures
            final(self).wf(),
            final(self)@ == old(self)@.with_cell(RAMPZ as int, val),
    {
        self._set8(RAMPZ, val);
    }

    pub fn get_full_x(&self) -> (val: u32)
        requires
            self.wf(),
        ensures
            val == self@.full_reg(X_L),
    {
        ((self.get_rampx() as u32) << 16) | (self.regs.get16(X_L) as u32)
    }

    pub fn get_full_y(&self) -> (val: u32)
        requires
            self.wf(),
        ensures
            val == self@.full_reg(Y_L),
    {
        ((self.get_rampy() as u32) << 16) | (self.regs.get16(Y_L) as u32)
    }

    pub fn get_full_z(&self) -> (val: u32)
        requires
            self.wf(),
        ensures
            val == self@.full_reg(Z_L),
    {
        ((self.get_rampz() as u32) << 16) | (self.regs.get16(Z_L) as u32)
    }

    pub fn get_full_ind(&self) -> (val: u32)
        requires
            self.wf(),
        ensures
            val == self@.full_ind(),
    {
        ((self.get_eind() as u32) << 16) | (self.regs.get16(Z_L) as u32)
    }

    pub fn get_full_reg(&self, reg: u8) -> (val: u32)
        requires
            self.wf(),
            is_pointer_reg(reg),
        ensures
            val == self@.full_reg(reg),
    {
        if reg == X_L {
            self.get_full_x()
        } else if reg == Y_L {
            self.get_full_y()
        } else {
            self.get_full_z()
        }
    }

    pub fn set_full_x(&mut self, val: u32)
        requires
            old(self).wf(),
        ensures
            final(self).wf(),
            final(self)@ == old(self)@.with_full_reg(X_L, val),
    {
        self.regs.set16(X_L, (val & 0xffff) as u16);
        self.set_rampx(((val >> 16) & 0xff) as u8);
    }

    pub fn set_full_y(&mut self, val: u32)
        requires
            old(self).wf(),
        ensures
            final(self).wf(),
            final(self)@ == old(self)@.with_full_reg(Y_L, val),
    {
        self.regs.set16(Y_L, (val & 0xffff) as u16);
        self.set_rampy(((val >> 16) & 0xff) as u8);
    }

    pub fn set_full_z(&mut self, val: u32)
        requires
            old(self).wf(),
        ensures
            final(self).wf(),
            final(self)@ == old(self)@.with_full_reg(Z_L, val),
    {
        self.regs.set16(Z_L, (val & 0xffff) as u16);
        self.set_rampz(((val >> 16) & 0xff) as u8);
    }

    pub fn set_full_reg(&mut self, reg: u8, val: u32)
        requires
            old(self).wf(),
            is_pointer_reg(reg),
        ensures
            final(self).wf(),
            final(self)@ == old(self)@.with_full_reg(reg, val),
    {
        if reg == X_L {
            self.set_full_x(val)
        } else if reg == Y_L {
            self.set_full_y(val)
        } else {
            self.set_full_z(val)
        }
    }

    /// Whether a read at `addr` is modelled.
    pub fn models_read(addr: u32) -> (modelled: bool)
        ensures
            modelled == read_is_modelled(addr),
    {
        addr == OSC_STATUS || addr == RTC_STATUS || addr == RTC_CNT_L || addr == RTC_CNT_H || addr
            == USART_C0 || addr == USART_C0_STATUS || (0x38 <= addr && addr <= 0x3f) || (SRAM_START
            <= addr && addr <= SRAM_END)
    }

    /// Whether a write at `addr` is modelled.
    pub fn models_write(addr: u32) -> (modelled: bool)
        ensures
            modelled == write_is_modelled(addr),
    {
        addr == USART_C0 || (0x38 <= addr && addr <= 0x3f) || (SRAM_START <= addr && addr
            <= SRAM_END)
    }

    /// Whether a read at `addr` can be served.
    pub fn readable(&self, addr: u32) -> (ok: bool)
        ensures
            ok == self@.can_read(addr),
    {
        if addr == USART_C0 {
            self.usart_input.len() > 0
        } else if SRAM_START <= addr && addr <= SRAM_END {
            (addr as usize) < DATA_CAPACITY
        } else {
            true
        }
    }

    /// Whether a write at `addr` can be served.
    pub fn writable(&self, addr: u32) -> (ok: bool)
        ensures
            ok == self@.can_write(addr),
    {
        if SRAM_START <= addr && addr <= SRAM_END {
            (addr as usize) < DATA_CAPACITY
        } else {
            true
        }
    }

    pub fn get8(&mut self, addr: u32) -> (val: u8)
        requires
            old(self).wf(),
            old(self)@.can_read(addr),
        ensures
            final(self).wf(),
            val == old(self)@.read8(addr),
            final(self)@ == old(self)@.after_read8(addr),
    {
        if addr == OSC_STATUS {
            0xff
        } else if addr == RTC_STATUS {
            0
        } else if addr == RTC_CNT_L {
            self.rtc_cnt = self.rtc_cnt.wrapping_add(RTC_TICK);
            (self.rtc_cnt & 0xff) as u8
        } else if addr == RTC_CNT_H {
            (self.rtc_cnt >> 8) as u8
        } else if addr == USART_C0 {
            self.usart_input.remove(0)
        } else if addr == USART_C0_STATUS {
            if self.usart_input.len() > 0 {
                0xa0
            } else {
                0x20
            }
        } else if (0x38 <= addr && addr <= 0x3e) || (SRAM_START <= addr && addr <= SRAM_END) {
            self._get8(addr)
        } else if addr == SREG {
            self.sreg.as_u8()
        } else {
            0
        }
    }

    pub fn set8(&mut self, addr: u32, val: u8)
        requires
            old(self).wf(),
            old(self)@.can_write(addr),
        ensures
            final(self).wf(),
            final(self)@ == old(self)@.write8(addr, val),
    {
        if addr == USART_C0 {
            self.usart_output_log.push(val);
        } else if (0x38 <= addr && addr <= 0x3e) || (SRAM_START <= addr && addr <= SRAM_END) {
            self._set8(addr, val);
        } else if addr == SREG {
            self.sreg.set_u8(val);
        }
    }

    pub fn get16(&mut self, addr: u32) -> (val: u16)
        requires
            old(self).wf(),
            addr < u32::MAX,
            old(self)@.can_read(addr),
            old(self)@.after_read8(addr).can_read((addr + 1) as u32),
        ensures
            final(self).wf(),
            val == old(self)@.read16(addr),
            final(self)@ == old(self)@.after_read16(addr),
    {
        let lo = self.get8(addr);
        let hi = self.get8(addr + 1);
        (lo as u16) | ((hi as u16) << 8)
    }

    pub fn set16(&mut self, addr: u32, val: u16)
        requires
            old(self).wf(),
            addr < u32::MAX,
            old(self)@.can_write(addr),
            old(self)@.can_write((addr + 1) as u32),
        ensures
            final(self).wf(),
            final(self)@ == old(self)@.write16(addr, val),
    {
        self.set8(addr, (val & 0xff) as u8);
        self.set8(addr + 1, ((val >> 8) & 0xff) as u8);
    }

    /// Reads a little-endian word directly from two cells.
    pub fn _get16(&self, addr: u32) -> (val: u16)
        requires
            self.wf(),
            addr + 1 < DATA_CAPACITY,
        ensures
            val == self@.cell_word(addr as int),
    {
        (self._get8(addr) as u16) | ((self._get8(addr + 1) as u16) << 8)
    }

    /// Writes a little-endian word directly to two cells.
    pub fn _set16(&mut self, addr: u32, val: u16)
        requires
            old(self).wf(),
            addr + 1 < DATA_CAPACITY,
        ensures
            final(self).wf(),
            final(self)@ == old(self)@.with_cell_word(addr as int, val),
    {
        self._set8(addr, (val & 0xff) as u8);
        self._set8(addr + 1, ((val >> 8) & 0xff) as u8);
    }

    pub fn get_sp(&self) -> (sp: u16)
        requires
            self.wf(),
        ensures
            sp == self@.sp(),
    {
        self._get16(SPL)
    }

    pub fn set_sp(&mut self, val: u16)
        requires
            old(self).wf(),
        ensures
            final(self).wf(),
            final(self)@ == old(self)@.with_sp(val),
    {
        self._set16(SPL, val)
    }

    pub fn push8(&mut self, val: u8)
        requires
            old(self).wf(),
            old(self)@.sp() >= 1,
        ensures
            final(self).wf(),
            final(self)@ == old(self)@.push8(val),
    {
        let old_sp = self.get_sp();
        self._set8(old_sp as u32, val);
        self.set_sp(old_sp - 1);
    }

    pub fn pop8(&mut self) -> (val: u8)
        requires
            old(self).wf(),
            old(self)@.sp() < u16::MAX,
        ensures
            final(self).wf(),
            val == old(self)@.pop8(),
            final(self)@ == old(self)@.after_pop8(),
    {
        let old_sp = self.get_sp();
        self.set_sp(old_sp + 1);
        self._get8((old_sp + 1) as u32)
    }

    pub fn push16(&mut self, val: u16)
        requires
            old(self).wf(),
            old(self)@.sp() >= 2,
        ensures
            final(self).wf(),
            final(self)@ == old(self)@.push16(val),
    {
        proof {
            lemma_sp_after_push8(self@, lo_byte(val));
        }
        self.push8((val & 0xff) as u8);
        self.push8(((val >> 8) & 0xff) as u8);
    }

    pub fn pop16(&mut self) -> (val: u16)
        requires
            old(self).wf(),
            old(self)@.sp() + 2 <= u16::MAX,
        ensures
            final(self).wf(),
            val == old(self)@.pop16(),
            final(self)@ == old(self)@.after_pop16(),
    {
        proof {
            lemma_sp_after_pop8(self@);
        }
        let hi = self.pop8();
        let lo = self.pop8();
        (lo as u16) | ((hi as u16) << 8)
    }

    pub fn push24(&mut self, val: u32)
        requires
            old(self).wf(),
            old(self)@.sp() >= 3,
        ensures
            final(self).wf(),
            final(self)@ == old(self)@.push24(val),
    {
        proof {
            lemma_sp_after_push8(self@, byte_of(val, 0));
            lemma_sp_after_push8(self@.push8(byte_of(val, 0)), byte_of(val, 1));
        }
        self.push8((val & 0xff) as u8);
        self.push8(((val >> 8) & 0xff) as u8);
        self.push8(((val >> 16) & 0xff) as u8);
    }

    pub fn pop24(&mut self) -> (val: u32)
        requires
            old(self).wf(),
            old(self)@.sp() + 3 <= u16::MAX,
        ensures
            final(self).wf(),
            val == old(self)@.pop24(),
            final(self)@ == old(self)@.after_pop24(),
    {
        proof {
            lemma_sp_after_pop8(self@);
            lemma_sp_after_pop8(self@.after_pop8());
        }
        let b2 = self.pop8();
        let b1 = self.pop8();
        let b0 = self.pop8();
        ((b2 as u32) << 16) | ((b1 as u32) << 8) | (b0 as u32)
    }
}

/// Whether `reg` is the low register of X, Y or Z.
pub fn is_xyz(reg: u8) -> (ok: bool)
    ensures
        ok == is_pointer_reg(reg),
{
    reg == X_L || reg == Y_L || reg == Z_L
}

/// Whether a byte written to the USART is shown on the host's terminal.
pub fn is_echoed(val: u8) -> (ok: bool)
    ensures
        ok == is_printable(val),
{
    (0x21 <= val && val <= 0x7e) || val == 0x20 || val == 0x09 || val == 0x0a || val == 0x0c
        || val == 0x0d
}

/// A 24-bit pointer never exceeds 24 bits.
pub proof fn lemma_full_of_bound(ext: u8, word: u16)
    ensures
        full_of(ext, word) <= 0xff_ffff,
{
    assert(full_of(ext, word) <= 0xff_ffff) by (bit_vector);
}

/// Setting the stack pointer and reading it gives the value set, and leaves
/// every cell but SPL and SPH as it was.
pub proof fn lemma_sp_after_with_sp(state: IoState, val: u16)
    requires
        state.wf(),
    ensures
        state.with_sp(val).wf(),
        state.with_sp(val).sp() == val,
        forall|a: int|
            0 <= a < DATA_CAPACITY && a != SPL && a != SPH ==> state.with_sp(val).mem[a]
                == state.mem[a],
{
    lemma_word_bytes(val, 0, 0);
}

/// A push lowers the stack pointer by one.
pub proof fn lemma_sp_after_push8(state: IoState, val: u8)
    requires
        state.wf(),
        state.sp() >= 1,
    ensures
        state.push8(val).wf(),
        state.push8(val).sp() == state.sp() - 1,
{
    lemma_sp_after_with_sp(state.with_cell(state.sp() as int, val), (state.sp() - 1) as u16);
}

/// A pop raises the stack pointer by one.
pub proof fn lemma_sp_after_pop8(state: IoState)
    requires
        state.wf(),
        state.sp() < u16::MAX,
    ensures
        state.after_pop8().wf(),
        state.after_pop8().sp() == state.sp() + 1,
{
    lemma_sp_after_with_sp(state, (state.sp() + 1) as u16);
}

/// Whether the stack cell at `addr` lies clear of the stack pointer's own
/// two cells.
pub open spec fn clear_of_sp(addr: int) -> bool {
    addr != SPL && addr != SPH
}

/// A push followed by a pop returns the byte pushed and restores the stack
/// pointer, wherever the stack does not run over the stack pointer's own
/// cells.
pub proof fn lemma_push8_pop8(state: IoState, val: u8)
    requires
        state.wf(),
        state.sp() >= 1,
        clear_of_sp(state.sp() as int),
    ensures
        state.push8(val).pop8() == val,
        state.push8(val).after_pop8().sp() == state.sp(),
        state.push8(val).after_pop8().mem[state.sp() as int] == val,
{
    let sp = state.sp();
    let written = state.with_cell(sp as int, val);
    lemma_sp_after_with_sp(written, (sp - 1) as u16);
    let pushed = state.push8(val);
    lemma_sp_after_with_sp(pushed, sp);
}

/// A 24-bit push lowers the stack pointer by three and leaves the three
/// bytes of the value, least significant first, in the cells from the old
/// stack pointer downwards.
pub proof fn lemma_push24_writes(state: IoState, val: u32)
    requires
        state.wf(),
        state.sp() >= 3,
        clear_of_sp(state.sp() as int),
        clear_of_sp(state.sp() - 1),
        clear_of_sp(state.sp() - 2),
    ensures
        state.push24(val).wf(),
        state.push24(val).sp() == state.sp() - 3,
        state.push24(val).mem[state.sp() as int] == byte_of(val, 0),
        state.push24(val).mem[state.sp() - 1] == byte_of(val, 1),
        state.push24(val).mem[state.sp() - 2] == byte_of(val, 2),
{
    let sp = state.sp();
    let s1 = state.push8(byte_of(val, 0));
    lemma_sp_after_with_sp(state.with_cell(sp as int, byte_of(val, 0)), (sp - 1) as u16);
    let s2 = s1.push8(byte_of(val, 1));
    lemma_sp_after_with_sp(s1.with_cell(sp - 1, byte_of(val, 1)), (sp - 2) as u16);
    lemma_sp_after_with_sp(s2.with_cell(sp - 2, byte_of(val, 2)), (sp - 3) as u16);
}

/// A 24-bit pop raises the stack pointer by three and joins the three cells
/// above the old stack pointer, most significant first.
pub proof fn lemma_pop24_reads(state: IoState)
    requires
        state.wf(),
        state.sp() + 3 <= u16::MAX,
        clear_of_sp(state.sp() + 1),
        clear_of_sp(state.sp() + 2),
        clear_of_sp(state.sp() + 3),
    ensures
        state.after_pop24().wf(),
        state.after_pop24().sp() == state.sp() + 3,
        state.pop24() == triple_of(
            state.mem[state.sp() + 3],
            state.mem[state.sp() + 2],
            state.mem[state.sp() + 1],
        ),
{
    let sp = state.sp();
    lemma_sp_after_with_sp(state, (sp + 1) as u16);
    let p1 = state.after_pop8();
    lemma_sp_after_with_sp(p1, (sp + 2) as u16);
    let p2 = p1.after_pop8();
    lemma_sp_after_with_sp(p2, (sp + 3) as u16);
}

/// The three bytes of a 24-bit value, joined again, give the value.
pub proof fn lemma_triple_bytes(val: u32)
    requires
        val <= 0xff_ffff,
    ensures
        triple_of(byte_of(val, 0), byte_of(val, 1), byte_of(val, 2)) == val,
{
    let b0 = byte_of(val, 0);
    let b1 = byte_of(val, 1);
    let b2 = byte_of(val, 2);
    assert(triple_of(b0, b1, b2) == val) by (bit_vector)
        requires
            val <= 0xff_ffff,
            b0 == (val & 0xff) as u8,
            b1 == ((val >> 8) & 0xff) as u8,
            b2 == ((val >> 16) & 0xff) as u8,
    ;
}

/// Pushing a 24-bit value and popping three bytes returns the value and
/// restores the stack pointer, wherever the stack does not run over the
/// stack pointer's own cells.
pub proof fn lemma_push24_pop24(state: IoState, val: u32)
    requires
        state.wf(),
        state.sp() >= 3,
        clear_of_sp(state.sp() as int),
        clear_of_sp(state.sp() - 1),
        clear_of_sp(state.sp() - 2),
        val <= 0xff_ffff,
    ensures
        state.push24(val).pop24() == val,
        state.push24(val).after_pop24().sp() == state.sp(),
{
    lemma_push24_writes(state, val);
    lemma_pop24_reads(state.push24(val));
    lemma_triple_bytes(val);
}

} // verus!
