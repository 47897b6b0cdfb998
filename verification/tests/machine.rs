//! Machine-level behaviour: whole-ROM scenarios, per-instruction semantics,
//! stack discipline, and the key-wait suspension.

use chip8::cpu::{ControlSignal, Fault, CPU};
use chip8::instr::Instruction;
use chip8::interconnect::Interconnect;

fn machine(rom: Vec<u8>) -> CPU {
    let mut cpu = CPU::new(Interconnect::new(rom));
    cpu.boot();
    cpu
}

/// Runs until the program halts, panicking on a fault; returns the number
/// of fetches made.
fn run_to_halt(cpu: &mut CPU) -> usize {
    let mut fetches = 0;
    loop {
        fetches += 1;
        match cpu.step() {
            ControlSignal::Continue => {}
            ControlSignal::Halt => return fetches,
            ControlSignal::Fatal { fault, addr } => {
                panic!("fault {:?} at {:#x}", fault, addr)
            }
        }
        assert!(fetches < 10_000, "program did not halt");
    }
}

#[test]
fn scenario_load_add_halt() {
    // load 10 into reg0; load 5 into reg1; add reg1 into reg0; halt
    let mut cpu = machine(vec![0x60, 0x0A, 0x61, 0x05, 0x80, 0x14, 0x00, 0x00]);
    let fetches = run_to_halt(&mut cpu);
    assert_eq!(fetches, 4);
    assert_eq!(cpu.reg(0), 15);
    assert_eq!(cpu.reg(15), 0);
}

#[test]
fn scenario_draw_glyph_zero() {
    // index = 0; draw the 5-byte glyph at (reg0, reg1) = (0, 0); halt
    let mut cpu = machine(vec![0xA0, 0x00, 0xD0, 0x15, 0x00, 0x00]);
    run_to_halt(&mut cpu);
    assert_eq!(cpu.reg(15), 0);
    let glyph = [0xF0u8, 0x90, 0x90, 0x90, 0xF0];
    for row in 0..32 {
        for col in 0..64 {
            let expected = if row < 5 && col < 8 {
                (glyph[row] >> (7 - col)) & 1 == 1
            } else {
                false
            };
            assert_eq!(cpu.pixel(col, row), expected, "pixel {},{}", col, row);
        }
    }
}

#[test]
fn boot_points_at_program_base() {
    let cpu = machine(vec![]);
    assert_eq!(cpu.pc(), 512);
    for x in 0..16 {
        assert_eq!(cpu.reg(x), 0);
    }
    assert_eq!(cpu.index_reg(), 0);
    assert_eq!(cpu.delay_timer(), 0);
    assert_eq!(cpu.sound_timer(), 0);
}

#[test]
fn add_with_carry_sets_flag_on_overflow() {
    let mut cpu = machine(vec![]);
    cpu.execute(Instruction::LoadImm { x: 0, kk: 200 }, 0, 0);
    cpu.execute(Instruction::LoadImm { x: 1, kk: 100 }, 0, 0);
    cpu.execute(Instruction::AddCarry { x: 0, y: 1 }, 0, 0);
    assert_eq!(cpu.reg(0), 44);
    assert_eq!(cpu.reg(15), 1);
}

#[test]
fn add_without_carry_clears_flag() {
    let mut cpu = machine(vec![]);
    cpu.execute(Instruction::LoadImm { x: 15, kk: 1 }, 0, 0);
    cpu.execute(Instruction::LoadImm { x: 0, kk: 10 }, 0, 0);
    cpu.execute(Instruction::LoadImm { x: 1, kk: 5 }, 0, 0);
    cpu.execute(Instruction::AddCarry { x: 0, y: 1 }, 0, 0);
    assert_eq!(cpu.reg(0), 15);
    assert_eq!(cpu.reg(15), 0);
}

#[test]
fn add_exactly_255_does_not_carry() {
    let mut cpu = machine(vec![]);
    cpu.execute(Instruction::LoadImm { x: 0, kk: 255 }, 0, 0);
    cpu.execute(Instruction::LoadImm { x: 1, kk: 0 }, 0, 0);
    cpu.execute(Instruction::AddCarry { x: 0, y: 1 }, 0, 0);
    assert_eq!(cpu.reg(0), 255);
    assert_eq!(cpu.reg(15), 0);
}

#[test]
fn subtract_with_larger_minuend_sets_flag() {
    let mut cpu = machine(vec![]);
    cpu.execute(Instruction::LoadImm { x: 0, kk: 10 }, 0, 0);
    cpu.execute(Instruction::LoadImm { x: 1, kk: 5 }, 0, 0);
    cpu.execute(Instruction::SubBorrow { x: 0, y: 1 }, 0, 0);
    assert_eq!(cpu.reg(0), 5);
    assert_eq!(cpu.reg(15), 1);
}

#[test]
fn subtract_equal_operands_sets_flag() {
    let mut cpu = machine(vec![]);
    cpu.execute(Instruction::LoadImm { x: 0, kk: 7 }, 0, 0);
    cpu.execute(Instruction::LoadImm { x: 1, kk: 7 }, 0, 0);
    cpu.execute(Instruction::SubBorrow { x: 0, y: 1 }, 0, 0);
    assert_eq!(cpu.reg(0), 0);
    assert_eq!(cpu.reg(15), 1);
}

#[test]
fn subtract_with_borrow_clears_flag_and_wraps() {
    let mut cpu = machine(vec![]);
    cpu.execute(Instruction::LoadImm { x: 0, kk: 5 }, 0, 0);
    cpu.execute(Instruction::LoadImm { x: 1, kk: 10 }, 0, 0);
    cpu.execute(Instruction::SubBorrow { x: 0, y: 1 }, 0, 0);
    assert_eq!(cpu.reg(0), 251);
    assert_eq!(cpu.reg(15), 0);
}

#[test]
fn subtract_from_uses_other_direction() {
    let mut cpu = machine(vec![]);
    cpu.execute(Instruction::LoadImm { x: 0, kk: 5 }, 0, 0);
    cpu.execute(Instruction::LoadImm { x: 1, kk: 10 }, 0, 0);
    cpu.execute(Instruction::SubFrom { x: 0, y: 1 }, 0, 0);
    assert_eq!(cpu.reg(0), 5);
    assert_eq!(cpu.reg(15), 1);
}

#[test]
fn shift_right_reads_source_register() {
    let mut cpu = machine(vec![]);
    cpu.execute(Instruction::LoadImm { x: 1, kk: 5 }, 0, 0);
    cpu.execute(Instruction::ShiftRight { x: 0, y: 1 }, 0, 0);
    assert_eq!(cpu.reg(0), 2);
    assert_eq!(cpu.reg(15), 1);
    assert_eq!(cpu.reg(1), 5);
}

#[test]
fn shift_left_reads_source_register() {
    let mut cpu = machine(vec![]);
    cpu.execute(Instruction::LoadImm { x: 1, kk: 0x81 }, 0, 0);
    cpu.execute(Instruction::ShiftLeft { x: 0, y: 1 }, 0, 0);
    assert_eq!(cpu.reg(0), 0x02);
    assert_eq!(cpu.reg(15), 1);
    assert_eq!(cpu.reg(1), 0x81);
}

#[test]
fn bitwise_ops() {
    let mut cpu = machine(vec![]);
    cpu.execute(Instruction::LoadImm { x: 0, kk: 0b1100 }, 0, 0);
    cpu.execute(Instruction::LoadImm { x: 1, kk: 0b1010 }, 0, 0);
    cpu.execute(Instruction::BitOr { x: 0, y: 1 }, 0, 0);
    assert_eq!(cpu.reg(0), 0b1110);
    cpu.execute(Instruction::LoadImm { x: 0, kk: 0b1100 }, 0, 0);
    cpu.execute(Instruction::BitAnd { x: 0, y: 1 }, 0, 0);
    assert_eq!(cpu.reg(0), 0b1000);
    cpu.execute(Instruction::LoadImm { x: 0, kk: 0b1100 }, 0, 0);
    cpu.execute(Instruction::BitXor { x: 0, y: 1 }, 0, 0);
    assert_eq!(cpu.reg(0), 0b0110);
}

#[test]
fn add_immediate_wraps_without_touching_flag() {
    let mut cpu = machine(vec![]);
    cpu.execute(Instruction::LoadImm { x: 0, kk: 250 }, 0, 0);
    cpu.execute(Instruction::AddImm { x: 0, kk: 10 }, 0, 0);
    assert_eq!(cpu.reg(0), 4);
    assert_eq!(cpu.reg(15), 0);
}

#[test]
fn register_block_store_load_round_trip() {
    for x in 0..16u8 {
        let mut cpu = machine(vec![]);
        for j in 0..=x {
            cpu.execute(Instruction::LoadImm { x: j, kk: 3 * j + 7 }, 0, 0);
        }
        cpu.execute(Instruction::LoadIndex { nnn: 0x300 }, 0, 0);
        cpu.execute(Instruction::StoreRegs { x }, 0, 0);
        for j in 0..=x {
            assert_eq!(cpu.mem_byte(0x300 + j as usize), 3 * j + 7);
        }
        for j in 0..=x {
            cpu.execute(Instruction::LoadImm { x: j, kk: 0 }, 0, 0);
        }
        cpu.execute(Instruction::LoadRegs { x }, 0, 0);
        for j in 0..=x {
            assert_eq!(cpu.reg(j), 3 * j + 7, "register {} after reload, x={}", j, x);
        }
    }
}

#[test]
fn register_block_store_wraps_at_top_of_memory() {
    let mut cpu = machine(vec![]);
    cpu.execute(Instruction::LoadImm { x: 0, kk: 0xAA }, 0, 0);
    cpu.execute(Instruction::LoadImm { x: 1, kk: 0xBB }, 0, 0);
    cpu.execute(Instruction::LoadIndex { nnn: 0xFFF }, 0, 0);
    cpu.execute(Instruction::StoreRegs { x: 1 }, 0, 0);
    assert_eq!(cpu.mem_byte(0xFFF), 0xAA);
    assert_eq!(cpu.mem_byte(0x000), 0xBB);
}

#[test]
fn bcd_store() {
    let mut cpu = machine(vec![]);
    cpu.execute(Instruction::LoadImm { x: 2, kk: 234 }, 0, 0);
    cpu.execute(Instruction::LoadIndex { nnn: 0x400 }, 0, 0);
    cpu.execute(Instruction::StoreBcd { x: 2 }, 0, 0);
    assert_eq!(cpu.mem_byte(0x400), 2);
    assert_eq!(cpu.mem_byte(0x401), 3);
    assert_eq!(cpu.mem_byte(0x402), 4);
}

#[test]
fn bcd_store_of_small_value() {
    let mut cpu = machine(vec![]);
    cpu.execute(Instruction::LoadImm { x: 2, kk: 7 }, 0, 0);
    cpu.execute(Instruction::LoadIndex { nnn: 0x400 }, 0, 0);
    cpu.execute(Instruction::StoreBcd { x: 2 }, 0, 0);
    assert_eq!(cpu.mem_byte(0x400), 0);
    assert_eq!(cpu.mem_byte(0x401), 0);
    assert_eq!(cpu.mem_byte(0x402), 7);
}

#[test]
fn call_pushes_and_return_pops() {
    let mut cpu = machine(vec![]);
    let sig = cpu.execute(Instruction::Call { nnn: 0x300 }, 512, 0);
    assert_eq!(sig, ControlSignal::Continue);
    assert_eq!(cpu.pc(), 0x300);
    let sig = cpu.execute(Instruction::Return, 0x300, 0);
    assert_eq!(sig, ControlSignal::Continue);
    assert_eq!(cpu.pc(), 512);
}

#[test]
fn return_on_empty_stack_is_fatal() {
    let mut cpu = machine(vec![]);
    let sig = cpu.execute(Instruction::Return, 0x222, 0);
    assert_eq!(
        sig,
        ControlSignal::Fatal { fault: Fault::StackUnderflow, addr: 0x222 }
    );
}

#[test]
fn seventeenth_nested_call_is_fatal() {
    let mut cpu = machine(vec![]);
    for _ in 0..16 {
        let sig = cpu.execute(Instruction::Call { nnn: 0x300 }, 0x345, 0);
        assert_eq!(sig, ControlSignal::Continue);
    }
    let sig = cpu.execute(Instruction::Call { nnn: 0x300 }, 0x345, 0);
    assert_eq!(
        sig,
        ControlSignal::Fatal { fault: Fault::StackOverflow, addr: 0x345 }
    );
}

#[test]
fn fatal_fault_surfaces_from_step() {
    // a bare return at the program base
    let mut cpu = machine(vec![0x00, 0xEE]);
    let sig = cpu.step();
    assert_eq!(
        sig,
        ControlSignal::Fatal { fault: Fault::StackUnderflow, addr: 512 }
    );
}

#[test]
fn skip_instructions() {
    let mut cpu = machine(vec![]);
    cpu.execute(Instruction::LoadImm { x: 0, kk: 9 }, 0, 0);
    cpu.execute(Instruction::LoadImm { x: 1, kk: 9 }, 0, 0);
    let pc = cpu.pc();
    cpu.execute(Instruction::SkipEqImm { x: 0, kk: 9 }, 0, 0);
    assert_eq!(cpu.pc(), pc + 2);
    cpu.execute(Instruction::SkipEqImm { x: 0, kk: 8 }, 0, 0);
    assert_eq!(cpu.pc(), pc + 2);
    cpu.execute(Instruction::SkipNeImm { x: 0, kk: 8 }, 0, 0);
    assert_eq!(cpu.pc(), pc + 4);
    cpu.execute(Instruction::SkipEqReg { x: 0, y: 1 }, 0, 0);
    assert_eq!(cpu.pc(), pc + 6);
    cpu.execute(Instruction::SkipNeReg { x: 0, y: 1 }, 0, 0);
    assert_eq!(cpu.pc(), pc + 6);
}

#[test]
fn jump_and_jump_offset() {
    let mut cpu = machine(vec![]);
    cpu.execute(Instruction::Jump { nnn: 0x234 }, 0, 0);
    assert_eq!(cpu.pc(), 0x234);
    cpu.execute(Instruction::LoadImm { x: 0, kk: 0x10 }, 0, 0);
    cpu.execute(Instruction::JumpOffset { nnn: 0x200 }, 0, 0);
    assert_eq!(cpu.pc(), 0x210);
}

#[test]
fn machine_routine_word_is_a_recovered_no_op() {
    // 0x0123 asks for a machine routine; the machine skips it and carries on
    let mut cpu = machine(vec![0x01, 0x23, 0x00, 0x00]);
    assert_eq!(cpu.step(), ControlSignal::Continue);
    assert_eq!(cpu.pc(), 514);
    for x in 0..16 {
        assert_eq!(cpu.reg(x), 0);
    }
    assert_eq!(cpu.step(), ControlSignal::Halt);
}

#[test]
fn index_register_ops() {
    let mut cpu = machine(vec![]);
    cpu.execute(Instruction::LoadIndex { nnn: 0xFFF }, 0, 0);
    assert_eq!(cpu.index_reg(), 0xFFF);
    cpu.execute(Instruction::LoadImm { x: 0, kk: 2 }, 0, 0);
    cpu.execute(Instruction::AddIndex { x: 0 }, 0, 0);
    // the index register is not masked on assignment
    assert_eq!(cpu.index_reg(), 0x1001);
    // but memory access through it masks: these land at 1, 2, 3
    cpu.execute(Instruction::LoadImm { x: 0, kk: 123 }, 0, 0);
    cpu.execute(Instruction::StoreBcd { x: 0 }, 0, 0);
    assert_eq!(cpu.mem_byte(1), 1);
    assert_eq!(cpu.mem_byte(2), 2);
    assert_eq!(cpu.mem_byte(3), 3);
}

#[test]
fn load_glyph_points_at_digit_sprite() {
    let mut cpu = machine(vec![]);
    cpu.execute(Instruction::LoadImm { x: 3, kk: 0xA }, 0, 0);
    cpu.execute(Instruction::LoadGlyph { x: 3 }, 0, 0);
    assert_eq!(cpu.index_reg(), 50);
}

#[test]
fn random_masks_with_immediate() {
    // reg0 = random & 0x0F; halt
    let mut cpu = machine(vec![0xC0, 0x0F, 0x00, 0x00]);
    let sig = cpu.step_with_random(0xAB);
    assert_eq!(sig, ControlSignal::Continue);
    assert_eq!(cpu.reg(0), 0x0B);
}

#[test]
fn random_instruction_draws_some_byte() {
    let mut cpu = machine(vec![0xC0, 0xFF, 0x00, 0x00]);
    assert_eq!(cpu.step(), ControlSignal::Continue);
    assert_eq!(cpu.step(), ControlSignal::Halt);
}

#[test]
fn delay_timer_read_and_write() {
    let mut cpu = machine(vec![]);
    cpu.execute(Instruction::LoadImm { x: 0, kk: 42 }, 0, 0);
    cpu.execute(Instruction::SetDelay { x: 0 }, 0, 0);
    assert_eq!(cpu.delay_timer(), 42);
    cpu.execute(Instruction::ReadDelay { x: 5 }, 0, 0);
    assert_eq!(cpu.reg(5), 42);
}

#[test]
fn sound_timer_drives_tone() {
    let mut cpu = machine(vec![]);
    assert!(!cpu.sound_on());
    cpu.execute(Instruction::LoadImm { x: 0, kk: 2 }, 0, 0);
    cpu.execute(Instruction::SetSound { x: 0 }, 0, 0);
    assert_eq!(cpu.sound_timer(), 2);
    assert!(cpu.sound_on());
    cpu.tick_timers(1);
    assert!(cpu.sound_on());
    cpu.tick_timers(1);
    assert!(!cpu.sound_on());
}

#[test]
fn key_skips() {
    let mut cpu = machine(vec![]);
    cpu.execute(Instruction::LoadImm { x: 0, kk: 4 }, 0, 0);
    let pc = cpu.pc();
    cpu.execute(Instruction::SkipKeyPressed { x: 0 }, 0, 0);
    assert_eq!(cpu.pc(), pc);
    cpu.execute(Instruction::SkipKeyNotPressed { x: 0 }, 0, 0);
    assert_eq!(cpu.pc(), pc + 2);
    cpu.press_key(4);
    cpu.execute(Instruction::SkipKeyPressed { x: 0 }, 0, 0);
    assert_eq!(cpu.pc(), pc + 4);
    cpu.release_key(4);
    cpu.execute(Instruction::SkipKeyPressed { x: 0 }, 0, 0);
    assert_eq!(cpu.pc(), pc + 4);
}

#[test]
fn wait_key_suspends_until_a_key_arrives() {
    // wait for a key into reg0; halt
    let mut cpu = machine(vec![0xF0, 0x0A, 0x00, 0x00]);
    assert_eq!(cpu.step(), ControlSignal::Continue);
    assert!(cpu.is_waiting());
    let pc = cpu.pc();
    // suspended: further steps make no progress
    assert_eq!(cpu.step(), ControlSignal::Continue);
    assert_eq!(cpu.pc(), pc);
    // timers keep decaying during the wait
    cpu.execute(Instruction::LoadImm { x: 1, kk: 3 }, 0, 0);
    cpu.execute(Instruction::SetDelay { x: 1 }, 0, 0);
    cpu.tick_timers(2);
    assert_eq!(cpu.delay_timer(), 1);
    // a key press resumes with the key value in the awaited register
    cpu.press_key(7);
    assert!(!cpu.is_waiting());
    assert_eq!(cpu.reg(0), 7);
    assert_eq!(cpu.step(), ControlSignal::Halt);
}

#[test]
fn halt_request_is_visible() {
    let mut cpu = machine(vec![]);
    assert!(!cpu.halted());
    cpu.request_halt();
    assert!(cpu.halted());
}

#[test]
fn unknown_word_is_a_no_op() {
    // 0x8008 has no meaning; the machine carries on and halts
    let mut cpu = machine(vec![0x80, 0x08, 0x00, 0x00]);
    assert_eq!(cpu.step(), ControlSignal::Continue);
    assert_eq!(cpu.pc(), 514);
    assert_eq!(cpu.reg(0), 0);
    assert_eq!(cpu.step(), ControlSignal::Halt);
}

#[test]
fn clear_screen_instruction_darkens_framebuffer() {
    let mut cpu = machine(vec![0xA2, 0x06, 0xD0, 0x12, 0x00, 0xE0, 0xFF, 0xFF]);
    // draw two rows of 0xFF, then clear
    assert_eq!(cpu.step(), ControlSignal::Continue);
    assert_eq!(cpu.step(), ControlSignal::Continue);
    assert!(cpu.pixel(0, 0));
    assert_eq!(cpu.step(), ControlSignal::Continue);
    for row in 0..32 {
        for col in 0..64 {
            assert!(!cpu.pixel(col, row));
        }
    }
}

#[test]
fn program_counter_wraps_through_memory() {
    let mut cpu = machine(vec![]);
    cpu.execute(Instruction::Jump { nnn: 0xFFE }, 0, 0);
    assert_eq!(cpu.pc(), 0xFFE);
    // the word at 0xFFE is zero, so the machine halts with the counter wrapped
    assert_eq!(cpu.step(), ControlSignal::Halt);
    assert_eq!(cpu.pc(), 0);
}

#[test]
fn jump_offset_target_masks_into_memory() {
    let mut cpu = machine(vec![]);
    cpu.execute(Instruction::LoadImm { x: 0, kk: 255 }, 0, 0);
    cpu.execute(Instruction::JumpOffset { nnn: 0xFFF }, 0, 0);
    assert_eq!(cpu.pc(), (255 + 0xFFF) % 4096);
}

#[test]
fn copy_register() {
    let mut cpu = machine(vec![]);
    cpu.execute(Instruction::LoadImm { x: 1, kk: 77 }, 0, 0);
    cpu.execute(Instruction::Copy { x: 0, y: 1 }, 0, 0);
    assert_eq!(cpu.reg(0), 77);
}
