use yaavre::emulator::Emulator;
use yaavre::insn::Insn;
use yaavre::sreg::SReg;

#[test]
fn flag_letters_of_a_cleared_register() {
    assert_eq!(SReg::new().letters(), "........");
}

#[test]
fn flag_letters_follow_the_bit_order() {
    let mut sreg = SReg::new();
    sreg.set_u8(0xff);
    assert_eq!(sreg.letters(), "CZNVSHTI");
    sreg.set_u8(0x81);
    assert_eq!(sreg.letters(), "C......I");
    sreg.set_u8(0x22);
    assert_eq!(sreg.letters(), ".Z...H..");
}

#[test]
fn empty_call_stack_as_text() {
    let emu = Emulator::new();
    assert_eq!(emu.fmt_call_stack(), "[]");
}

#[test]
fn one_frame_as_text() {
    let mut emu = Emulator::new();
    emu.io_mem.set_sp(0x3fff);
    assert_eq!(emu.step(Some(Insn::Call(0x10))), Ok(None));
    assert_eq!(emu.fmt_call_stack(), "[0x0->0x10]");
}

#[test]
fn frames_are_joined_oldest_first() {
    let mut emu = Emulator::new();
    emu.call_stack = vec![(0x3fff, 0, 0x10), (0x3ffc, 0x12, 0xabc), (0x3ff9, 0xabcdef, 0xffff_ffff)];
    assert_eq!(emu.fmt_call_stack(), "[0x0->0x10, 0x12->0xabc, 0xabcdef->0xffffffff]");
}

#[test]
fn stack_bytes_in_hex() {
    let mut emu = Emulator::new();
    emu.io_mem.set_sp(0x2000);
    for k in 0..16usize {
        emu.io_mem.data_mem[0x2000 + k] = (k as u8) * 17;
    }
    emu.io_mem.data_mem[0x2010] = 0xee;
    assert_eq!(emu.stack_hex(), "00112233445566778899aabbccddeeff");
}

#[test]
fn stack_bytes_at_the_top_of_the_stack_pointer_range() {
    let mut emu = Emulator::new();
    emu.io_mem.set_sp(0xffff);
    emu.io_mem.data_mem[0xffff] = 0x0a;
    emu.io_mem.data_mem[0x1000e] = 0xf0;
    assert_eq!(emu.stack_hex(), "0a0000000000000000000000000000f0");
}

#[test]
fn stack_bytes_show_the_stack_pointer_cells() {
    let mut emu = Emulator::new();
    emu.io_mem.set_sp(0x003d);
    assert_eq!(emu.stack_hex(), "3d000000000000000000000000000000");
}
