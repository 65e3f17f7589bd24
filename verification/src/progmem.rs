//! Program memory: a sequence of 16-bit code words that can be read byte by
//! byte. A program image is a little-endian byte stream of such words.
use vstd::prelude::*;
use byteorder::{ByteOrder, LittleEndian};
use crate::registers::{hi_byte, lo_byte, word_of};

verus! {

/// Largest number of code words that program memory holds.
pub const PROG_CAPACITY: usize = 0x40_0000;

/// Why a program image was not loaded.
#[derive(Clone, Copy, Debug, PartialEq, Eq, Structural)]
pub enum ImageError {
    /// The image holds more words than program memory has room for.
    TooLarge,
}

/// The code words of an image: byte `2 * i` is the low byte of word `i`,
/// byte `2 * i + 1` the high byte. A trailing odd byte belongs to no word.
pub open spec fn image_words(bytes: Seq<u8>) -> Seq<u16> {
    Seq::new(bytes.len() / 2, |i: int| word_of(bytes[2 * i], bytes[2 * i + 1]))
}

/// The byte at byte address `addr`: the low byte of word `addr / 2` for an
/// even address, its high byte for an odd one, and 0 past the end.
pub open spec fn byte_at(words: Seq<u16>, addr: u32) -> u8 {
    if addr / 2 < words.len() {
        if addr % 2 == 0 {
            lo_byte(words[addr as int / 2])
        } else {
            hi_byte(words[addr as int / 2])
        }
    } else {
        0
    }
}

/// Whether byte address `addr` lies inside the program.
pub open spec fn in_program(words: Seq<u16>, addr: u32) -> bool {
    addr / 2 < words.len()
}

/// The two bytes of `word` in little-endian order, as byteorder's
/// `LittleEndian::write_u16` lays them out in a two-byte buffer: the low byte
/// first, the high byte second.
#[verifier::external_body]
fn le_bytes(word: u16) -> (bytes: [u8; 2])
    ensures
        bytes@[0] == lo_byte(word),
        bytes@[1] == hi_byte(word),
{
    let mut bytes: [u8; 2] = [0; 2];
    LittleEndian::write_u16(&mut bytes, word);
    bytes
}

/// byteorder's `LittleEndian::read_u16_into`: it fills `words` from `bytes`,
/// two bytes per word, low byte first. The two lengths must agree, or the
/// outside function panics.
#[verifier::external_body]
fn read_u16_le_into(bytes: &[u8], words: &mut Vec<u16>)
    requires
        bytes@.len() == 2 * old(words)@.len(),
    ensures
        final(words)@.len() == old(words)@.len(),
        forall|i: int|
            0 <= i < final(words)@.len() ==> #[trigger] final(words)@[i] == word_of(
                bytes@[2 * i],
                bytes@[2 * i + 1],
            ),
{
    LittleEndian::read_u16_into(bytes, words);
}

pub struct ProgramMemory {
    pub words: Vec<u16>,
}

impl View for ProgramMemory {
    type V = Seq<u16>;

    open spec fn view(&self) -> Seq<u16> {
        self.words@
    }
}

impl ProgramMemory {
    /// The program fits the capacity of program memory.
    pub open spec fn wf(&self) -> bool {
        self@.len() <= PROG_CAPACITY
    }

    pub fn new() -> (mem: ProgramMemory)
        ensures
            mem.wf(),
            mem@ == Seq::<u16>::empty(),
    {
        ProgramMemory { words: Vec::new() }
    }

    /// Replaces the program by the words of a little-endian image. An image
    /// of more than `PROG_CAPACITY` words is refused and leaves the program
    /// as it was.
    pub fn set_bytes(&mut self, bytes: &[u8]) -> (r: Result<(), ImageError>)
        ensures
            bytes@.len() / 2 <= PROG_CAPACITY ==> r is Ok && final(self)@ == image_words(bytes@),
            bytes@.len() / 2 > PROG_CAPACITY ==> r == Err::<(), ImageError>(ImageError::TooLarge)
                && final(self)@ == old(self)@,
            old(self).wf() ==> final(self).wf(),
            r is Ok ==> final(self).wf(),
    {
        let count = bytes.len() / 2;
        if count > PROG_CAPACITY {
            return Err(ImageError::TooLarge);
        }
        let mut words = vec![0u16; count];
        read_u16_le_into(&bytes[0..2 * count], &mut words);
        assert(words@ =~= image_words(bytes@));
        self.words = words;
        Ok(())
    }

    /// The byte at byte address `addr`, or 0 where `addr` lies past the end
    /// of the program.
    pub fn get_prog_mem_byte(&self, addr: u32) -> (val: u8)
        ensures
            val == byte_at(self@, addr),
    {
        let pmem_index = (addr / 2) as usize;
        if pmem_index >= self.words.len() {
            return 0;
        }
        let word = self.words[pmem_index];
        let bytes = le_bytes(word);
        assert(addr & 1 == addr % 2) by (bit_vector);
        bytes[(addr & 1) as usize]
    }

    /// Whether byte address `addr` lies inside the program.
    pub fn contains(&self, addr: u32) -> (inside: bool)
        ensures
            inside == in_program(self@, addr),
    {
        ((addr / 2) as usize) < self.words.len()
    }
}

} // verus!
