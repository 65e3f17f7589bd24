//! The AVR status register: eight independent flags and their packed form.
use vstd::prelude::*;

verus! {

/// The eight status flags. Bit `k` of the packed byte holds the `k`-th flag
/// in the order carry, zero, negative, overflow, sign, half-carry, transfer,
/// interrupt enable.
#[derive(Clone, Copy, Debug, PartialEq, Eq, Structural)]
pub struct SReg {
    pub c: bool,
    pub z: bool,
    pub n: bool,
    pub v: bool,
    pub s: bool,
    pub h: bool,
    pub t: bool,
    pub i: bool,
}

/// The name of one flag.
#[derive(Clone, Copy, Debug, PartialEq, Eq, Structural)]
pub enum Flag {
    C,
    Z,
    N,
    V,
    S,
    H,
    T,
    I,
}

/// The byte that has bit `k` set exactly when `flag` holds.
pub open spec fn flag_bit(flag: bool, k: u8) -> u8 {
    if flag {
        1u8 << k
    } else {
        0u8
    }
}

/// Whether bit `k` of `val` is set.
pub open spec fn bit_of(val: u8, k: u8) -> bool {
    val & (1u8 << k) != 0
}

impl SReg {
    /// The register with every flag cleared.
    pub open spec fn cleared() -> SReg {
        SReg { c: false, z: false, n: false, v: false, s: false, h: false, t: false, i: false }
    }

    /// The packed projection of the flags.
    pub open spec fn byte(self) -> u8 {
        flag_bit(self.c, 0) | flag_bit(self.z, 1) | flag_bit(self.n, 2) | flag_bit(self.v, 3)
            | flag_bit(self.s, 4) | flag_bit(self.h, 5) | flag_bit(self.t, 6) | flag_bit(
            self.i,
            7,
        )
    }

    /// The flags that a packed byte stands for.
    pub open spec fn from_byte(val: u8) -> SReg {
        SReg {
            c: bit_of(val, 0),
            z: bit_of(val, 1),
            n: bit_of(val, 2),
            v: bit_of(val, 3),
            s: bit_of(val, 4),
            h: bit_of(val, 5),
            t: bit_of(val, 6),
            i: bit_of(val, 7),
        }
    }

    /// The flags with the named one replaced.
    pub open spec fn with_flag(self, flag: Flag, val: bool) -> SReg {
        match flag {
            Flag::C => SReg { c: val, ..self },
            Flag::Z => SReg { z: val, ..self },
            Flag::N => SReg { n: val, ..self },
            Flag::V => SReg { v: val, ..self },
            Flag::S => SReg { s: val, ..self },
            Flag::H => SReg { h: val, ..self },
            Flag::T => SReg { t: val, ..self },
            Flag::I => SReg { i: val, ..self },
        }
    }

    /// Sets or clears the named flag.
    pub fn set_flag(&mut self, flag: Flag, val: bool)
        ensures
            *final(self) == old(self).with_flag(flag, val),
    {
        match flag {
            Flag::C => self.c = val,
            Flag::Z => self.z = val,
            Flag::N => self.n = val,
            Flag::V => self.v = val,
            Flag::S => self.s = val,
            Flag::H => self.h = val,
            Flag::T => self.t = val,
            Flag::I => self.i = val,
        }
    }

    pub fn new() -> (sreg: SReg)
        ensures
            sreg == SReg::cleared(),
    {
        SReg { c: false, z: false, n: false, v: false, s: false, h: false, t: false, i: false }
    }

    pub fn as_u8(&self) -> (val: u8)
        ensures
            val == self.byte(),
    {
        (if self.c { 1u8 << 0 } else { 0 })
            | (if self.z { 1u8 << 1 } else { 0 })
            | (if self.n { 1u8 << 2 } else { 0 })
            | (if self.v { 1u8 << 3 } else { 0 })
            | (if self.s { 1u8 << 4 } else { 0 })
            | (if self.h { 1u8 << 5 } else { 0 })
            | (if self.t { 1u8 << 6 } else { 0 })
            | (if self.i { 1u8 << 7 } else { 0 })
    }

    pub fn set_u8(&mut self, val: u8)
        ensures
            *final(self) == SReg::from_byte(val),
    {
        self.c = (val & (1u8 << 0)) != 0;
        self.z = (val & (1u8 << 1)) != 0;
        self.n = (val & (1u8 << 2)) != 0;
        self.v = (val & (1u8 << 3)) != 0;
        self.s = (val & (1u8 << 4)) != 0;
        self.h = (val & (1u8 << 5)) != 0;
        self.t = (val & (1u8 << 6)) != 0;
        self.i = (val & (1u8 << 7)) != 0;
    }
}

/// Packing the flags and unpacking the byte gives the flags back.
pub proof fn lemma_flags_round_trip(sreg: SReg)
    ensures
        SReg::from_byte(sreg.byte()) == sreg,
{
    let c = sreg.c;
    let z = sreg.z;
    let n = sreg.n;
    let v = sreg.v;
    let s = sreg.s;
    let h = sreg.h;
    let t = sreg.t;
    let i = sreg.i;
    let b = sreg.byte();
    assert(b == flag_bit(c, 0) | flag_bit(z, 1) | flag_bit(n, 2) | flag_bit(v, 3) | flag_bit(s, 4)
        | flag_bit(h, 5) | flag_bit(t, 6) | flag_bit(i, 7));
    assert(bit_of(b, 0) == c && bit_of(b, 1) == z && bit_of(b, 2) == n && bit_of(b, 3) == v
        && bit_of(b, 4) == s && bit_of(b, 5) == h && bit_of(b, 6) == t && bit_of(b, 7) == i)
        by (bit_vector)
        requires
            b == flag_bit(c, 0) | flag_bit(z, 1) | flag_bit(n, 2) | flag_bit(v, 3) | flag_bit(s, 4)
                | flag_bit(h, 5) | flag_bit(t, 6) | flag_bit(i, 7),
    ;
}

/// Unpacking a byte and packing the flags gives the byte back.
pub proof fn lemma_byte_round_trip(val: u8)
    ensures
        SReg::from_byte(val).byte() == val,
{
    assert(flag_bit(bit_of(val, 0), 0) | flag_bit(bit_of(val, 1), 1) | flag_bit(bit_of(val, 2), 2)
        | flag_bit(bit_of(val, 3), 3) | flag_bit(bit_of(val, 4), 4) | flag_bit(bit_of(val, 5), 5)
        | flag_bit(bit_of(val, 6), 6) | flag_bit(bit_of(val, 7), 7) == val) by (bit_vector);
}

} // verus!
