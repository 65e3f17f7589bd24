//! How arithmetic and logic instructions update the status register. Each
//! recipe takes the flags before the instruction with the operands and the
//! result, and gives the flags after it. Flags that a recipe does not name
//! keep their value.
use vstd::prelude::*;
use crate::sreg::{bit_of, SReg};

verus! {

/// Whether bit `k` of a 16-bit value is set.
pub open spec fn word_bit(val: u16, k: u16) -> bool {
    val & (1u16 << k) != 0
}

impl SReg {
    /// `AND`, `OR`, `EOR`, `ANDI`, `ORI` with result `r`.
    pub open spec fn after_logic(self, r: u8) -> SReg {
        let n = bit_of(r, 7);
        SReg { v: false, n, z: r == 0, s: n, ..self }
    }

    /// `LSR`, `ASR`, `ROR` that turned `before` into `after`.
    pub open spec fn after_shift(self, before: u8, after: u8) -> SReg {
        let c = bit_of(before, 0);
        let n = bit_of(after, 7);
        let v = n != c;
        SReg { c, n, z: after == 0, v, s: n != v, ..self }
    }

    /// `ADD`, `ADC` of `rd` and `rr` with result `r`.
    pub open spec fn after_add(self, rd: u8, rr: u8, r: u8) -> SReg {
        let rd3 = bit_of(rd, 3);
        let rr3 = bit_of(rr, 3);
        let r3 = bit_of(r, 3);
        let rd7 = bit_of(rd, 7);
        let rr7 = bit_of(rr, 7);
        let r7 = bit_of(r, 7);
        let v = (rd7 && rr7 && !r7) || (!rd7 && !rr7 && r7);
        SReg {
            h: (rd3 && rr3) || (rr3 && !r3) || (!r3 && rd3),
            v,
            n: r7,
            z: r == 0,
            c: (rd7 && rr7) || (rr7 && !r7) || (!r7 && rd7),
            s: r7 != v,
            ..self
        }
    }

    /// `SUB`, `SUBI`, `CP`, `CPI` (`with_carry` false) and `SBC`, `SBCI`,
    /// `CPC` (`with_carry` true) of `rr` from `rd` with result `r`. The
    /// with-carry forms only ever clear the zero flag.
    pub open spec fn after_sub(self, rd: u8, rr: u8, r: u8, with_carry: bool) -> SReg {
        let rd3 = bit_of(rd, 3);
        let rr3 = bit_of(rr, 3);
        let r3 = bit_of(r, 3);
        let rd7 = bit_of(rd, 7);
        let rr7 = bit_of(rr, 7);
        let r7 = bit_of(r, 7);
        let v = (rd7 && !rr7 && !r7) || (!rd7 && rr7 && r7);
        SReg {
            h: (!rd3 && rr3) || (rr3 && r3) || (r3 && !rd3),
            v,
            n: r7,
            z: if with_carry {
                r == 0 && self.z
            } else {
                r == 0
            },
            c: (!rd7 && rr7) || (rr7 && r7) || (r7 && !rd7),
            s: r7 != v,
            ..self
        }
    }

    /// `ADIW` that turned the pair value `rdw` into `r`.
    pub open spec fn after_adiw(self, rdw: u16, r: u16) -> SReg {
        let rdh7 = word_bit(rdw, 15);
        let r15 = word_bit(r, 15);
        let v = !rdh7 && r15;
        SReg { v, n: r15, z: r == 0, c: !r15 && rdh7, s: r15 != v, ..self }
    }

    /// `SBIW` that turned the pair value `rdw` into `r`.
    pub open spec fn after_sbiw(self, rdw: u16, r: u16) -> SReg {
        let rdh7 = word_bit(rdw, 15);
        let r15 = word_bit(r, 15);
        let v = rdh7 && !r15;
        SReg { v, n: r15, z: r == 0, c: r15 && !rdh7, s: r15 != v, ..self }
    }

    /// `INC` or `DEC` with result `r`, where `overflow` says whether the
    /// operand was the one value that overflows.
    pub open spec fn after_step(self, overflow: bool, r: u8) -> SReg {
        let n = bit_of(r, 7);
        SReg { v: overflow, n, z: r == 0, s: n != overflow, ..self }
    }

    /// `INC` that turned `rd` into `r`: V is set when `rd` was 0x7f.
    pub open spec fn after_inc(self, rd: u8, r: u8) -> SReg {
        self.after_step(rd == 0x7f, r)
    }

    /// `DEC` that turned `rd` into `r`: V is set when `rd` was 0x80.
    pub open spec fn after_dec(self, rd: u8, r: u8) -> SReg {
        self.after_step(rd == 0x80, r)
    }

    /// `COM` with result `r`: as a logical operation, with C set.
    pub open spec fn after_com(self, r: u8) -> SReg {
        SReg { c: true, ..self.after_logic(r) }
    }

    /// `NEG` that turned `rd` into `r`.
    pub open spec fn after_neg(self, rd: u8, r: u8) -> SReg {
        let n = bit_of(r, 7);
        let v = r == 0x80;
        SReg {
            h: bit_of(r, 6) && !bit_of(rd, 6),
            v,
            n,
            z: r == 0,
            c: r != 0,
            s: n != v,
            ..self
        }
    }

    /// `MUL` with the 16-bit product `r`.
    pub open spec fn after_mul(self, r: u16) -> SReg {
        SReg { c: word_bit(r, 15), z: r == 0, ..self }
    }
}

impl SReg {
    /// The flags after an addition of `rd_val` and `rr_val` with result
    /// `r_val`.
    pub fn added(&self, rd_val: u8, rr_val: u8, r_val: u8) -> (sreg: SReg)
        ensures
            sreg == self.after_add(rd_val, rr_val, r_val),
    {
        let rd3 = (rd_val & (1u8 << 3)) != 0;
        let rr3 = (rr_val & (1u8 << 3)) != 0;
        let r3 = (r_val & (1u8 << 3)) != 0;
        let rd7 = (rd_val & (1u8 << 7)) != 0;
        let rr7 = (rr_val & (1u8 << 7)) != 0;
        let r7 = (r_val & (1u8 << 7)) != 0;
        let v = (rd7 && rr7 && !r7) || (!rd7 && !rr7 && r7);
        SReg {
            h: (rd3 && rr3) || (rr3 && !r3) || (!r3 && rd3),
            v,
            n: r7,
            z: r_val == 0,
            c: (rd7 && rr7) || (rr7 && !r7) || (!r7 && rd7),
            s: r7 != v,
            t: self.t,
            i: self.i,
        }
    }

    /// The flags after a subtraction of `rr_val` from `rd_val` with result
    /// `r_val`; with `use_prev` the zero flag can only be cleared.
    pub fn subtracted(&self, rd_val: u8, rr_val: u8, r_val: u8, use_prev: bool) -> (sreg: SReg)
        ensures
            sreg == self.after_sub(rd_val, rr_val, r_val, use_prev),
    {
        let rd3 = (rd_val & (1u8 << 3)) != 0;
        let rr3 = (rr_val & (1u8 << 3)) != 0;
        let r3 = (r_val & (1u8 << 3)) != 0;
        let rd7 = (rd_val & (1u8 << 7)) != 0;
        let rr7 = (rr_val & (1u8 << 7)) != 0;
        let r7 = (r_val & (1u8 << 7)) != 0;
        let v = (rd7 && !rr7 && !r7) || (!rd7 && rr7 && r7);
        SReg {
            h: (!rd3 && rr3) || (rr3 && r3) || (r3 && !rd3),
            v,
            n: r7,
            z: if use_prev {
                (r_val == 0) && self.z
            } else {
                r_val == 0
            },
            c: (!rd7 && rr7) || (rr7 && r7) || (r7 && !rd7),
            s: r7 != v,
            t: self.t,
            i: self.i,
        }
    }
}

/// A byte read as a two's-complement number.
pub open spec fn signed(val: u8) -> int {
    if val >= 0x80 {
        val - 256
    } else {
        val as int
    }
}

/// Whether `after` holds the flags of the subtraction of `v` from `u`
/// without carry-in, where `before` held the flags before it: C is the
/// borrow, Z says that the operands are equal, N is the sign bit of the
/// difference, H is the borrow out of the low nibble, V says that the signed
/// difference does not fit in eight bits, S says that `u` is the smaller
/// signed number, and T and I stay.
pub open spec fn is_difference_flags(after: SReg, before: SReg, u: u8, v: u8) -> bool {
    &&& after.c == (u < v)
    &&& after.z == (u == v)
    &&& after.n == (u.wrapping_sub(v) >= 0x80)
    &&& after.h == (u % 16 < v % 16)
    &&& after.v == !(-128 <= signed(u) - signed(v) <= 127)
    &&& after.s == (signed(u) < signed(v))
    &&& after.t == before.t
    &&& after.i == before.i
}

/// Bit 7 of a byte is set exactly when the byte is 0x80 or more.
pub proof fn lemma_sign_bit(val: u8)
    ensures
        bit_of(val, 7) == (val >= 0x80),
{
    assert(bit_of(val, 7) == (val >= 0x80)) by (bit_vector);
}

/// Bit 3 of a byte is set exactly when its low nibble is 8 or more.
pub proof fn lemma_nibble_bit(val: u8)
    ensures
        bit_of(val, 3) == (val % 16 >= 8),
{
    assert(bit_of(val, 3) == (val % 16 >= 8)) by (bit_vector);
}

/// The flag recipe of a subtraction without carry-in gives the flags of the
/// difference.
pub proof fn lemma_sub_flags(sreg: SReg, u: u8, v: u8)
    ensures
        is_difference_flags(sreg.after_sub(u, v, u.wrapping_sub(v), false), sreg, u, v),
{
    let r = u.wrapping_sub(v);
    lemma_sign_bit(u);
    lemma_sign_bit(v);
    lemma_sign_bit(r);
    lemma_nibble_bit(u);
    lemma_nibble_bit(v);
    lemma_nibble_bit(r);
    assert(r % 16 == (if u % 16 < v % 16 {
        u % 16 - v % 16 + 16
    } else {
        u % 16 - v % 16
    }));
}

/// Subtracting a value from itself sets Z and clears C, N, V, S and H; T
/// and I stay.
pub proof fn lemma_sub_from_itself(sreg: SReg, u: u8)
    ensures
        sreg.after_sub(u, u, u.wrapping_sub(u), false) == (SReg {
            c: false,
            z: true,
            n: false,
            v: false,
            s: false,
            h: false,
            t: sreg.t,
            i: sreg.i,
        }),
{
    lemma_sub_flags(sreg, u, u);
}

/// A subtraction sets the carry flag exactly when it borrows, that is when
/// the subtrahend is the larger value, and the zero flag exactly when the
/// two values are equal.
pub proof fn lemma_sub_carry_is_borrow(sreg: SReg, u: u8, v: u8)
    ensures
        sreg.after_sub(u, v, u.wrapping_sub(v), false).c == (u < v),
        sreg.after_sub(u, v, u.wrapping_sub(v), false).z == (u == v),
{
    lemma_sub_flags(sreg, u, v);
}

/// Whether `after` holds the flags of the addition of `u` and `v` without
/// carry-in, where `before` held the flags before it: C is the carry out of
/// bit 7, Z says that the sum is 0 modulo 256, N is the sign bit of the sum,
/// H is the carry out of the low nibble, V says that the signed sum does not
/// fit in eight bits, S says that the signed sum is negative, and T and I
/// stay.
pub open spec fn is_sum_flags(after: SReg, before: SReg, u: u8, v: u8) -> bool {
    &&& after.c == (u + v > 0xff)
    &&& after.z == (u.wrapping_add(v) == 0)
    &&& after.n == (u.wrapping_add(v) >= 0x80)
    &&& after.h == (u % 16 + v % 16 > 0xf)
    &&& after.v == !(-128 <= signed(u) + signed(v) <= 127)
    &&& after.s == (signed(u) + signed(v) < 0)
    &&& after.t == before.t
    &&& after.i == before.i
}

/// The flag recipe of an addition without carry-in gives the flags of the
/// sum.
pub proof fn lemma_add_flags(sreg: SReg, u: u8, v: u8)
    ensures
        is_sum_flags(sreg.after_add(u, v, u.wrapping_add(v)), sreg, u, v),
{
    let r = u.wrapping_add(v);
    lemma_sign_bit(u);
    lemma_sign_bit(v);
    lemma_sign_bit(r);
    lemma_nibble_bit(u);
    lemma_nibble_bit(v);
    lemma_nibble_bit(r);
    assert(r % 16 == (if u % 16 + v % 16 > 0xf {
        u % 16 + v % 16 - 16
    } else {
        u % 16 + v % 16
    }));
}

/// An addition sets the carry flag exactly when the sum does not fit in
/// eight bits.
pub proof fn lemma_add_carry_is_overflow(sreg: SReg, u: u8, v: u8)
    ensures
        sreg.after_add(u, v, u.wrapping_add(v)).c == (u + v > 0xff),
{
    lemma_add_flags(sreg, u, v);
}

} // verus!
