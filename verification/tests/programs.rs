use yaavre::emulator::{Emulator, RunReport};
use yaavre::insn::{Insn, MemAccess, MemRegUpdate};
use yaavre::machine::{Fault, Notice};

fn words_to_image(words: &[u16]) -> Vec<u8> {
    let mut image = Vec::new();
    for w in words {
        image.push((w & 0xff) as u8);
        image.push((w >> 8) as u8);
    }
    image
}

fn loaded(words: &[u16]) -> Emulator {
    let mut emu = Emulator::new();
    assert_eq!(emu.load_bin(&words_to_image(words)), Ok(()));
    emu
}

fn clean(report: &RunReport) {
    assert_eq!(report.fault, None);
    assert!(report.notices.is_empty());
}

#[test]
fn new_machine_starts_at_zero() {
    let emu = Emulator::new();
    assert_eq!(emu.pc, 0);
    assert_eq!(emu.prog_mem.words.len(), 1 << 21);
    assert!(emu.prog_mem.words.iter().all(|w| *w == 0));
    assert!(emu.call_stack.is_empty());
    assert!(!emu.skip_next_insn);
    assert!(!emu.halted);
    assert_eq!(emu.insn_count, 0);
    assert_eq!(emu.io_mem.get_sp(), 0);
}

#[test]
fn add_program_runs_to_the_stop_loop() {
    let mut emu = loaded(&[0xe005, 0xe011, 0x0f01, 0xcffe]);
    let decoded = [
        Some(Insn::Ldi(16, 5)),
        Some(Insn::Ldi(17, 1)),
        Some(Insn::Add(16, 17)),
        Some(Insn::Rjmp(-2)),
    ];
    let report = emu.run(&decoded);
    clean(&report);
    assert_eq!(emu.get_reg8(16), 6);
    assert_eq!(emu.get_reg8(17), 1);
    assert_eq!(emu.pc, 6);
    assert!(emu.halted);
    assert_eq!(emu.insn_count, 4);
}

#[test]
fn lone_stop_loop_halts_at_once() {
    let mut emu = loaded(&[0xcffe]);
    let report = emu.run(&[Some(Insn::Rjmp(-2))]);
    clean(&report);
    assert!(emu.halted);
    assert_eq!(emu.pc, 0);
    assert_eq!(emu.insn_count, 1);
}

#[test]
fn stop_loop_with_interrupts_enabled_does_not_halt() {
    let mut emu = loaded(&[0xcffe]);
    emu.io_mem.sreg.i = true;
    assert_eq!(emu.step(Some(Insn::Rjmp(-2))), Ok(None));
    assert!(!emu.halted);
    assert_eq!(emu.pc, 0);
}

#[test]
fn add_with_carry_out_sets_zero_carry_and_half_carry() {
    let mut emu = loaded(&[0xef0f, 0xe011, 0x0f01, 0xcffe]);
    let decoded = [
        Some(Insn::Ldi(16, 0xff)),
        Some(Insn::Ldi(17, 0x01)),
        Some(Insn::Add(16, 17)),
        Some(Insn::Rjmp(-2)),
    ];
    clean(&emu.run(&decoded));
    assert_eq!(emu.get_reg8(16), 0x00);
    let sreg = emu.io_mem.sreg;
    assert!(sreg.z);
    assert!(sreg.c);
    assert!(sreg.h);
    assert!(!sreg.v);
    assert!(!sreg.n);
}

#[test]
fn usart_write_is_logged_and_echoed() {
    let mut emu = loaded(&[0xe401, 0x9300, 0x08a0, 0xcffe]);
    let decoded = [
        Some(Insn::Ldi(16, b'A')),
        Some(Insn::Sts(0x08a0, 16)),
        None,
        Some(Insn::Rjmp(-2)),
    ];
    let report = emu.run(&decoded);
    assert_eq!(report.fault, None);
    assert_eq!(report.notices, vec![Notice::UsartEcho { val: 0x41 }]);
    assert_eq!(emu.io_mem.usart_output_log, vec![0x41]);
    assert_eq!(emu.pc, 6);
    assert!(emu.halted);
}

#[test]
fn unprintable_usart_write_is_logged_but_not_echoed() {
    let mut emu = loaded(&[0xe001, 0x9300, 0x08a0]);
    assert_eq!(emu.step(Some(Insn::Ldi(16, 0x01))), Ok(None));
    assert_eq!(emu.step(Some(Insn::Sts(0x08a0, 16))), Ok(None));
    assert_eq!(emu.io_mem.usart_output_log, vec![0x01]);
}

#[test]
fn call_then_return_comes_back_behind_the_call() {
    let mut emu = Emulator::new();
    emu.io_mem.set_sp(0x3fff);
    let mut decoded = vec![None; 9];
    decoded[0] = Some(Insn::Call(0x0010));
    decoded[8] = Some(Insn::Ret);
    assert_eq!(emu.step(decoded[0]), Ok(None));
    assert_eq!(emu.pc, 0x10);
    assert_eq!(emu.call_stack, vec![(0x3fff, 0, 0x10)]);
    assert_eq!(emu.io_mem.get_sp(), 0x3ffc);
    assert_eq!(emu.io_mem.data_mem[0x3fff], 0x02);
    assert_eq!(emu.io_mem.data_mem[0x3ffe], 0x00);
    assert_eq!(emu.io_mem.data_mem[0x3ffd], 0x00);
    assert_eq!(emu.step(decoded[8]), Ok(None));
    assert_eq!(emu.pc, 4);
    assert!(emu.call_stack.is_empty());
    assert_eq!(emu.io_mem.get_sp(), 0x3fff);
}

#[test]
fn until_stops_at_the_target() {
    let mut emu = Emulator::new();
    emu.io_mem.set_sp(0x3fff);
    let mut decoded = vec![Some(Insn::Nop); 16];
    decoded[0] = Some(Insn::Call(0x0010));
    decoded[8] = Some(Insn::Ret);
    let report = emu.until(4, &decoded);
    clean(&report);
    assert_eq!(emu.pc, 4);
    assert!(!emu.halted);
    assert_eq!(emu.insn_count, 2);
}

#[test]
fn until_takes_a_step_even_when_already_at_the_target() {
    let mut emu = Emulator::new();
    let decoded = vec![Some(Insn::Nop), Some(Insn::Rjmp(-4))];
    let report = emu.until(0, &decoded);
    clean(&report);
    assert_eq!(emu.pc, 0);
    assert_eq!(emu.insn_count, 2);
}

#[test]
fn run_clears_an_earlier_halt() {
    let mut emu = loaded(&[0x0000, 0xcffe]);
    let decoded = [Some(Insn::Nop), Some(Insn::Rjmp(-2))];
    emu.halted = true;
    clean(&emu.run(&decoded));
    assert!(emu.halted);
    assert_eq!(emu.pc, 2);
    assert_eq!(emu.insn_count, 2);
}

#[test]
fn run_reports_the_fault_that_ends_it() {
    let mut emu = loaded(&[0x0000, 0x0000]);
    let decoded = [Some(Insn::Nop), Some(Insn::Other)];
    let report = emu.run(&decoded);
    assert_eq!(report.fault, Some(Fault::NotImplemented));
    assert_eq!(emu.pc, 2);
    assert_eq!(emu.insn_count, 1);
    assert!(!emu.halted);
}

#[test]
fn run_past_the_end_of_the_program_is_a_decode_fault() {
    let mut emu = loaded(&[0x0000]);
    let decoded = [Some(Insn::Nop), Some(Insn::Nop)];
    let report = emu.run(&decoded);
    assert_eq!(report.fault, Some(Fault::Decode));
    assert_eq!(emu.pc, 2);
    assert_eq!(emu.insn_count, 1);
}

#[test]
fn lpm_with_post_increment_reads_the_program() {
    let mut emu = loaded(&[0xe0e0, 0xe0f0, 0x9005, 0xcffe]);
    let z_plus = MemAccess { reg_pair: 30, ofs: 0, update: MemRegUpdate::PostInc };
    let decoded = [
        Some(Insn::Ldi(30, 0)),
        Some(Insn::Ldi(31, 0)),
        Some(Insn::LpmZ(0, z_plus)),
        Some(Insn::Rjmp(-2)),
    ];
    clean(&emu.run(&decoded));
    assert_eq!(emu.get_reg8(0), 0xe0);
    assert_eq!(emu.get_reg16(30), 1);
    assert!(emu.halted);
}

#[test]
fn reset_keeps_the_program_and_clears_the_rest() {
    let mut emu = loaded(&[0xe005, 0xcffe]);
    emu.io_mem.set_sp(0x3fff);
    emu.io_mem.usart_input = vec![1, 2, 3];
    clean(&emu.run(&[Some(Insn::Ldi(16, 5)), Some(Insn::Rjmp(-2))]));
    emu.skip_next_insn = true;
    emu.call_stack.push((1, 2, 3));
    emu.reset();
    assert_eq!(emu.prog_mem.words, vec![0xe005, 0xcffe]);
    assert_eq!(emu.pc, 0);
    assert_eq!(emu.insn_count, 0);
    assert!(!emu.halted);
    assert!(!emu.skip_next_insn);
    assert!(emu.call_stack.is_empty());
    assert_eq!(emu.get_reg8(16), 0);
    assert_eq!(emu.io_mem.get_sp(), 0);
    assert!(emu.io_mem.usart_input.is_empty());
}

#[test]
fn load_bin_refuses_an_image_over_capacity() {
    let mut emu = loaded(&[0x1234]);
    let image = vec![0u8; 2 * ((1 << 22) + 1)];
    assert_eq!(emu.load_bin(&image), Err(yaavre::progmem::ImageError::TooLarge));
    assert_eq!(emu.prog_mem.words, vec![0x1234]);
}

#[test]
fn register_accessors_reach_the_register_file() {
    let mut emu = Emulator::new();
    emu.set_reg8(5, 0x12);
    emu.set_reg16(26, 0xbeef);
    assert_eq!(emu.get_reg8(5), 0x12);
    assert_eq!(emu.get_reg8(26), 0xef);
    assert_eq!(emu.get_reg8(27), 0xbe);
    assert_eq!(emu.get_reg16(26), 0xbeef);
    assert_eq!(emu.io_mem.regs.get8(5), 0x12);
}
