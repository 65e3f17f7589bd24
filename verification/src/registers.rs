//! The register file: 32 general-purpose 8-bit registers, with 16-bit pair
//! views that read two neighbouring registers as a little-endian word.
use vstd::prelude::*;

verus! {

/// Number of general-purpose registers.
pub const REG_COUNT: u8 = 32;

/// The little-endian word made of a low and a high byte.
pub open spec fn word_of(lo: u8, hi: u8) -> u16 {
    (lo as u16) | ((hi as u16) << 8)
}

/// The low byte of a word.
pub open spec fn lo_byte(val: u16) -> u8 {
    (val & 0xff) as u8
}

/// The high byte of a word.
pub open spec fn hi_byte(val: u16) -> u8 {
    ((val >> 8) & 0xff) as u8
}

/// The pair view of a register sequence: registers `i` and `i + 1` read as a
/// little-endian word.
pub open spec fn pair_at(regs: Seq<u8>, i: int) -> u16 {
    word_of(regs[i], regs[i + 1])
}

/// The register sequence after the word `val` was stored in the pair at `i`.
pub open spec fn with_pair(regs: Seq<u8>, i: int, val: u16) -> Seq<u8> {
    regs.update(i, lo_byte(val)).update(i + 1, hi_byte(val))
}

/// Splitting a word into its bytes and joining them again gives the word, and
/// joining two bytes and splitting the word gives the bytes.
pub proof fn lemma_word_bytes(val: u16, lo: u8, hi: u8)
    ensures
        word_of(lo_byte(val), hi_byte(val)) == val,
        lo_byte(word_of(lo, hi)) == lo,
        hi_byte(word_of(lo, hi)) == hi,
{
    assert(word_of(lo_byte(val), hi_byte(val)) == val) by (bit_vector);
    assert(lo_byte(word_of(lo, hi)) == lo) by (bit_vector);
    assert(hi_byte(word_of(lo, hi)) == hi) by (bit_vector);
}

pub struct RegisterFile {
    pub r: [u8; 32],
}

impl View for RegisterFile {
    type V = Seq<u8>;

    open spec fn view(&self) -> Seq<u8> {
        self.r@
    }
}

impl RegisterFile {
    pub fn new() -> (regs: RegisterFile)
        ensures
            regs@ =~= Seq::new(32, |i: int| 0u8),
    {
        RegisterFile { r: [0; 32] }
    }

    pub fn get8(&self, i: u8) -> (val: u8)
        requires
            i < REG_COUNT,
        ensures
            val == self@[i as int],
    {
        self.r[i as usize]
    }

    pub fn set8(&mut self, i: u8, val: u8)
        requires
            i < REG_COUNT,
        ensures
            final(self)@ == old(self)@.update(i as int, val),
    {
        self.r[i as usize] = val;
    }

    pub fn get16(&self, i: u8) -> (val: u16)
        requires
            i + 1 < REG_COUNT,
        ensures
            val == pair_at(self@, i as int),
    {
        (self.get8(i) as u16) | ((self.get8(i + 1) as u16) << 8)
    }

    pub fn set16(&mut self, i: u8, val: u16)
        requires
            i + 1 < REG_COUNT,
        ensures
            final(self)@ == with_pair(old(self)@, i as int, val),
    {
        self.set8(i, (val & 0xff) as u8);
        self.set8(i + 1, ((val >> 8) & 0xff) as u8)
    }
}

/// Storing a word in a register pair and reading the pair gives the word.
pub proof fn lemma_pair_round_trip(regs: Seq<u8>, i: int, val: u16)
    requires
        regs.len() == 32,
        0 <= i < 31,
    ensures
        pair_at(with_pair(regs, i, val), i) == val,
{
    lemma_word_bytes(val, 0, 0);
}

} // verus!
