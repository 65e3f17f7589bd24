//! Text for the host's diagnostics: the flag letters of the status register,
//! the shadow call stack and the bytes at the top of the stack.
use vstd::prelude::*;
use vstd::string::*;
use crate::emulator::Emulator;
use crate::machine::Frame;
use crate::sreg::SReg;

verus! {

/// Number of stack bytes that a state dump shows.
pub const STACK_WINDOW: usize = 16;

/// The lowercase hexadecimal digit of a value below 16.
pub open spec fn hex_digit(n: int) -> char {
    "0123456789abcdef"@[n]
}

/// Two lowercase hexadecimal digits for each byte, the high nibble first.
pub open spec fn hex_text(bytes: Seq<u8>) -> Seq<char> {
    Seq::new(
        2 * bytes.len(),
        |i: int|
            if i % 2 == 0 {
                hex_digit(bytes[i / 2] as int / 16)
            } else {
                hex_digit(bytes[i / 2] as int % 16)
            },
    )
}

/// The lowercase hexadecimal digits of a number, without leading zeros.
pub open spec fn hex_number(n: nat) -> Seq<char>
    decreases n,
{
    if n < 16 {
        seq![hex_digit(n as int)]
    } else {
        hex_number(n / 16).push(hex_digit(n as int % 16))
    }
}

/// An address as text: `0x` and its hexadecimal digits.
pub open spec fn hex_address(n: u32) -> Seq<char> {
    "0x"@ + hex_number(n as nat)
}

/// The text of one frame of the shadow call stack: the address of the call
/// and the address called, with an arrow between them.
pub open spec fn frame_text(frame: Frame) -> Seq<char> {
    hex_address(frame.1) + "->"@ + hex_address(frame.2)
}

/// The texts of the frames, oldest first, with a comma and a space between
/// neighbours.
pub open spec fn frames_text(frames: Seq<Frame>) -> Seq<char>
    decreases frames.len(),
{
    if frames.len() == 0 {
        Seq::empty()
    } else if frames.len() == 1 {
        frame_text(frames[0])
    } else {
        frames_text(frames.drop_last()) + ", "@ + frame_text(frames.last())
    }
}

/// The frames in square brackets.
pub open spec fn call_stack_text(frames: Seq<Frame>) -> Seq<char> {
    "["@ + frames_text(frames) + "]"@
}

/// The letter of a flag that is set, a dot for one that is cleared.
pub open spec fn flag_letter(flag: bool, letter: char) -> char {
    if flag {
        letter
    } else {
        '.'
    }
}

/// The eight flags as letters, carry first.
pub open spec fn sreg_text(sreg: SReg) -> Seq<char> {
    seq![
        flag_letter(sreg.c, 'C'),
        flag_letter(sreg.z, 'Z'),
        flag_letter(sreg.n, 'N'),
        flag_letter(sreg.v, 'V'),
        flag_letter(sreg.s, 'S'),
        flag_letter(sreg.h, 'H'),
        flag_letter(sreg.t, 'T'),
        flag_letter(sreg.i, 'I'),
    ]
}

/// The `hex` crate's `encode`: each byte becomes two lowercase hexadecimal
/// digits, the high nibble first.
#[verifier::external_body]
fn hex_encode(bytes: &[u8]) -> (text: String)
    ensures
        text@ == hex_text(bytes@),
{
    hex::encode(bytes)
}

/// std's formatting of a number with `{:#x}`: lowercase hexadecimal without
/// leading zeros and with `0x` in front.
#[verifier::external_body]
fn fmt_hex(n: u32) -> (text: String)
    ensures
        text@ == hex_address(n),
{
    format!("{:#x}", n)
}

/// Appends the letter of a flag, or a dot.
fn push_flag(text: &mut String, flag: bool, letter: &str)
    requires
        letter@.len() == 1,
    ensures
        final(text)@ == old(text)@.push(flag_letter(flag, letter@[0])),
{
    proof {
        reveal_strlit(".");
    }
    if flag {
        text.append(letter);
        assert(letter@ =~= seq![letter@[0]]);
    } else {
        text.append(".");
        assert("."@ =~= seq!['.']);
    }
}

impl SReg {
    /// The flags as eight characters: the letter of each flag that is set
    /// and a dot for each that is cleared, carry first.
    pub fn letters(&self) -> (text: String)
        ensures
            text@ == sreg_text(*self),
    {
        proof {
            reveal_strlit("");
            reveal_strlit("C");
            reveal_strlit("Z");
            reveal_strlit("N");
            reveal_strlit("V");
            reveal_strlit("S");
            reveal_strlit("H");
            reveal_strlit("T");
            reveal_strlit("I");
        }
        let mut text = String::from_str("");
        push_flag(&mut text, self.c, "C");
        push_flag(&mut text, self.z, "Z");
        push_flag(&mut text, self.n, "N");
        push_flag(&mut text, self.v, "V");
        push_flag(&mut text, self.s, "S");
        push_flag(&mut text, self.h, "H");
        push_flag(&mut text, self.t, "T");
        push_flag(&mut text, self.i, "I");
        assert(text@ =~= sreg_text(*self));
        text
    }
}

impl Emulator {
    /// The shadow call stack as text: in square brackets, for each frame the
    /// address of the call, an arrow and the address called, oldest frame
    /// first.
    pub fn fmt_call_stack(&self) -> (text: String)
        ensures
            text@ == call_stack_text(self@.call_stack),
    {
        let mut text = String::from_str("[");
        let mut i: usize = 0;
        while i < self.call_stack.len()
            invariant
                i <= self.call_stack.len(),
                text@ == "["@ + frames_text(self.call_stack@.take(i as int)),
            decreases self.call_stack.len() - i,
        {
            if i > 0 {
                text.append(", ");
            }
            let frame = self.call_stack[i];
            let from = fmt_hex(frame.1);
            let to = fmt_hex(frame.2);
            text.append(from.as_str());
            text.append("->");
            text.append(to.as_str());
            proof {
                let frames = self.call_stack@;
                let upto = frames.take(i as int + 1);
                assert(upto.drop_last() =~= frames.take(i as int));
                assert(upto.last() == frames[i as int]);
                if i == 0 {
                    assert(frames.take(0).len() == 0);
                    assert(text@ =~= "["@ + frames_text(upto));
                } else {
                    assert(text@ =~= "["@ + frames_text(upto));
                }
            }
            i += 1;
        }
        assert(self.call_stack@.take(i as int) =~= self.call_stack@);
        text.append("]");
        text
    }

    /// The sixteen bytes of the data space from the stack pointer upwards,
    /// as hexadecimal text.
    pub fn stack_hex(&self) -> (text: String)
        requires
            self.wf(),
        ensures
            text@ == hex_text(
                self@.io.mem.subrange(self@.io.sp() as int, self@.io.sp() + STACK_WINDOW),
            ),
    {
        let sp = self.io_mem.get_sp() as usize;
        let mem = self.io_mem.data_mem.as_slice();
        hex_encode(&mem[sp..sp + STACK_WINDOW])
    }
}

} // verus!
