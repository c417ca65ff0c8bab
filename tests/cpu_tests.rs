use chip8_core::{decode, Cpu, CpuError, Instruction, SCREEN_HEIGHT, SCREEN_WIDTH};

fn machine_with(program: &[u8]) -> Cpu {
    let mut cpu = Cpu::new();
    cpu.load(program).unwrap();
    cpu
}

fn run(cpu: &mut Cpu, steps: usize) {
    for _ in 0..steps {
        cpu.tick_with(0).unwrap();
    }
}

fn lit(cpu: &Cpu, x: usize, y: usize) -> bool {
    cpu.get_display()[x + SCREEN_WIDTH * y]
}

#[test]
fn new_machine_state() {
    let cpu = Cpu::new();
    assert_eq!(cpu.pc(), 0x200);
    assert_eq!(cpu.index_register(), 0);
    assert_eq!(cpu.stack_depth(), 0);
    assert_eq!(cpu.delay_timer(), 0);
    assert_eq!(cpu.sound_timer(), 0);
    assert!(!cpu.get_beep_status());
    assert_eq!(cpu.get_display().len(), SCREEN_WIDTH * SCREEN_HEIGHT);
    assert!(cpu.get_display().iter().all(|p| !*p));
    for k in 0..16 {
        assert_eq!(cpu.register(k), 0);
    }
    let glyph_zero = [0xF0, 0x90, 0x90, 0x90, 0xF0];
    for (k, b) in glyph_zero.iter().enumerate() {
        assert_eq!(cpu.memory(k), *b);
    }
    assert_eq!(cpu.memory(75), 0xF0);
    assert_eq!(cpu.memory(79), 0x80);
    assert_eq!(cpu.memory(80), 0);
    assert_eq!(cpu.memory(0x200), 0);
}

#[test]
fn load_immediate_example() {
    let mut cpu = machine_with(&[0x6A, 0x12]);
    cpu.tick_with(0).unwrap();
    assert_eq!(cpu.register(0xA), 0x12);
    assert_eq!(cpu.pc(), 0x202);
}

#[test]
fn load_immediate_touches_only_its_register() {
    for x in 0..16u8 {
        let mut cpu = machine_with(&[0x60 | x, 0x5C]);
        cpu.tick_with(0).unwrap();
        for k in 0..16usize {
            let expected = if k == x as usize { 0x5C } else { 0 };
            assert_eq!(cpu.register(k), expected);
        }
        assert_eq!(cpu.pc(), 0x202);
        assert_eq!(cpu.index_register(), 0);
    }
}

#[test]
fn add_registers_with_carry() {
    let mut cpu = machine_with(&[0x60, 0xFF, 0x61, 0x02, 0x80, 0x14]);
    run(&mut cpu, 3);
    assert_eq!(cpu.register(0), 0x01);
    assert_eq!(cpu.register(0xF), 1);

    let mut cpu = machine_with(&[0x60, 0x01, 0x61, 0x02, 0x80, 0x14]);
    run(&mut cpu, 3);
    assert_eq!(cpu.register(0), 0x03);
    assert_eq!(cpu.register(0xF), 0);
}

#[test]
fn subn_borrow_flag() {
    let mut cpu = machine_with(&[0x60, 0x05, 0x61, 0x0A, 0x80, 0x17]);
    run(&mut cpu, 3);
    assert_eq!(cpu.register(0), 0x05);
    assert_eq!(cpu.register(0xF), 1);

    let mut cpu = machine_with(&[0x60, 0x0A, 0x61, 0x05, 0x80, 0x17]);
    run(&mut cpu, 3);
    assert_eq!(cpu.register(0), 0xFB);
    assert_eq!(cpu.register(0xF), 0);
}

#[test]
fn sub_borrow_flag() {
    let mut cpu = machine_with(&[0x60, 0x0A, 0x61, 0x05, 0x80, 0x15]);
    run(&mut cpu, 3);
    assert_eq!(cpu.register(0), 0x05);
    assert_eq!(cpu.register(0xF), 1);

    let mut cpu = machine_with(&[0x60, 0x05, 0x61, 0x0A, 0x80, 0x15]);
    run(&mut cpu, 3);
    assert_eq!(cpu.register(0), 0xFB);
    assert_eq!(cpu.register(0xF), 0);
}

#[test]
fn shifts_set_flag_to_shifted_out_bit() {
    let mut cpu = machine_with(&[0x60, 0x05, 0x80, 0x06]);
    run(&mut cpu, 2);
    assert_eq!(cpu.register(0), 0x02);
    assert_eq!(cpu.register(0xF), 1);

    let mut cpu = machine_with(&[0x60, 0x81, 0x80, 0x0E]);
    run(&mut cpu, 2);
    assert_eq!(cpu.register(0), 0x02);
    assert_eq!(cpu.register(0xF), 1);

    let mut cpu = machine_with(&[0x60, 0x40, 0x80, 0x0E]);
    run(&mut cpu, 2);
    assert_eq!(cpu.register(0), 0x80);
    assert_eq!(cpu.register(0xF), 0);
}

#[test]
fn logic_and_add_immediate() {
    let mut cpu = machine_with(&[
        0x60, 0xF0, 0x61, 0x3C, 0x62, 0xF0, 0x63, 0xF0, 0x80, 0x11, 0x82, 0x12, 0x83, 0x13, 0x61,
        0xFF, 0x71, 0x02, 0x84, 0x00,
    ]);
    run(&mut cpu, 10);
    assert_eq!(cpu.register(0), 0xFC);
    assert_eq!(cpu.register(2), 0x30);
    assert_eq!(cpu.register(3), 0xCC);
    assert_eq!(cpu.register(1), 0x01);
    assert_eq!(cpu.register(4), 0xFC);
}

#[test]
fn double_draw_restores_display_and_reports_collision() {
    let mut cpu = machine_with(&[0xA0, 0x00, 0x60, 0x05, 0x61, 0x05, 0xD0, 0x15, 0xD0, 0x15]);
    run(&mut cpu, 4);
    assert_eq!(cpu.register(0xF), 0);
    assert!(lit(&cpu, 5, 5));
    assert!(lit(&cpu, 8, 5));
    assert!(!lit(&cpu, 6, 6));
    assert!(lit(&cpu, 5, 6));
    assert_eq!(cpu.get_display().iter().filter(|p| **p).count(), 14);
    run(&mut cpu, 1);
    assert_eq!(cpu.register(0xF), 1);
    assert!(cpu.get_display().iter().all(|p| !*p));
}

#[test]
fn draw_wraps_at_edges() {
    let mut cpu = machine_with(&[0xA0, 0x00, 0x60, 62, 0x61, 31, 0xD0, 0x12]);
    run(&mut cpu, 4);
    assert!(lit(&cpu, 62, 31));
    assert!(lit(&cpu, 63, 31));
    assert!(lit(&cpu, 0, 31));
    assert!(lit(&cpu, 1, 31));
    assert!(lit(&cpu, 62, 0));
    assert!(lit(&cpu, 1, 0));
    assert!(!lit(&cpu, 63, 0));
    assert_eq!(cpu.get_display().iter().filter(|p| **p).count(), 6);
}

#[test]
fn clear_screen_blanks_display() {
    let mut cpu = machine_with(&[0xA0, 0x00, 0xD0, 0x05, 0x00, 0xE0]);
    run(&mut cpu, 2);
    assert!(cpu.get_display().iter().any(|p| *p));
    run(&mut cpu, 1);
    assert!(cpu.get_display().iter().all(|p| !*p));
}

#[test]
fn call_then_return_resumes_after_call() {
    let mut program = vec![0u8; 0x102];
    program[0] = 0x23;
    program[1] = 0x00;
    program[0x100] = 0x00;
    program[0x101] = 0xEE;
    let mut cpu = machine_with(&program);
    cpu.tick_with(0).unwrap();
    assert_eq!(cpu.pc(), 0x300);
    assert_eq!(cpu.stack_depth(), 1);
    cpu.tick_with(0).unwrap();
    assert_eq!(cpu.pc(), 0x202);
    assert_eq!(cpu.stack_depth(), 0);
}

#[test]
fn jumps() {
    let mut cpu = machine_with(&[0x12, 0x34]);
    run(&mut cpu, 1);
    assert_eq!(cpu.pc(), 0x234);

    let mut cpu = machine_with(&[0x60, 0x04, 0xB3, 0x00]);
    run(&mut cpu, 2);
    assert_eq!(cpu.pc(), 0x304);
}

#[test]
fn conditional_skips() {
    let mut cpu = machine_with(&[0x60, 0x07, 0x30, 0x07]);
    run(&mut cpu, 2);
    assert_eq!(cpu.pc(), 0x206);

    let mut cpu = machine_with(&[0x60, 0x07, 0x40, 0x07]);
    run(&mut cpu, 2);
    assert_eq!(cpu.pc(), 0x204);

    let mut cpu = machine_with(&[0x60, 0x07, 0x61, 0x07, 0x50, 0x10]);
    run(&mut cpu, 3);
    assert_eq!(cpu.pc(), 0x208);

    let mut cpu = machine_with(&[0x60, 0x07, 0x61, 0x07, 0x90, 0x10]);
    run(&mut cpu, 3);
    assert_eq!(cpu.pc(), 0x206);
}

#[test]
fn delay_timer_saturates_at_zero() {
    let mut cpu = machine_with(&[0x60, 0x01, 0xF0, 0x15]);
    run(&mut cpu, 2);
    assert_eq!(cpu.delay_timer(), 1);
    cpu.tick_timers();
    assert_eq!(cpu.delay_timer(), 0);
    cpu.tick_timers();
    assert_eq!(cpu.delay_timer(), 0);
}

#[test]
fn delay_timer_readable_by_program() {
    let mut cpu = machine_with(&[0x60, 0x09, 0xF0, 0x15, 0xF3, 0x07]);
    run(&mut cpu, 2);
    cpu.tick_timers();
    run(&mut cpu, 1);
    assert_eq!(cpu.register(3), 8);
}

#[test]
fn beep_lasts_one_tick_for_sound_one() {
    let mut cpu = machine_with(&[0x60, 0x01, 0xF0, 0x18]);
    run(&mut cpu, 2);
    assert_eq!(cpu.sound_timer(), 1);
    cpu.tick_timers();
    assert_eq!(cpu.sound_timer(), 0);
    assert!(cpu.get_beep_status());
    cpu.tick_timers();
    assert!(!cpu.get_beep_status());
}

#[test]
fn store_writes_registers_through_x_inclusive() {
    let mut cpu = machine_with(&[
        0xA3, 0x00, 0x60, 0x01, 0x61, 0x02, 0x62, 0x03, 0x63, 0x04, 0x64, 0x05, 0xF3, 0x55,
    ]);
    run(&mut cpu, 7);
    assert_eq!(cpu.memory(0x300), 1);
    assert_eq!(cpu.memory(0x301), 2);
    assert_eq!(cpu.memory(0x302), 3);
    assert_eq!(cpu.memory(0x303), 4);
    assert_eq!(cpu.memory(0x304), 0);
    assert_eq!(cpu.index_register(), 0x304);
}

#[test]
fn load_reads_registers_through_x_inclusive() {
    let mut cpu = machine_with(&[0xA0, 0x05, 0xF2, 0x65]);
    run(&mut cpu, 2);
    assert_eq!(cpu.register(0), 0x20);
    assert_eq!(cpu.register(1), 0x60);
    assert_eq!(cpu.register(2), 0x20);
    assert_eq!(cpu.register(3), 0);
    assert_eq!(cpu.index_register(), 0x08);
}

#[test]
fn bcd_digits() {
    let mut cpu = machine_with(&[0x60, 0xFE, 0xA3, 0x00, 0xF0, 0x33]);
    run(&mut cpu, 3);
    assert_eq!(cpu.memory(0x300), 2);
    assert_eq!(cpu.memory(0x301), 5);
    assert_eq!(cpu.memory(0x302), 4);
}

#[test]
fn index_register_arithmetic() {
    let mut cpu = machine_with(&[0xA1, 0x00, 0x60, 0x20, 0xF0, 0x1E]);
    run(&mut cpu, 3);
    assert_eq!(cpu.index_register(), 0x120);

    let mut cpu = machine_with(&[0x60, 0x0A, 0xF0, 0x29]);
    run(&mut cpu, 2);
    assert_eq!(cpu.index_register(), 50);
}

#[test]
fn random_is_masked() {
    let mut cpu = machine_with(&[0xC0, 0xF0]);
    cpu.tick_with(0xAB).unwrap();
    assert_eq!(cpu.register(0), 0xA0);

    let mut cpu = machine_with(&[0xC0, 0x0F]);
    cpu.tick().unwrap();
    assert!(cpu.register(0) <= 0x0F);
    assert_eq!(cpu.pc(), 0x202);
}

#[test]
fn tick_runs_ordinary_instructions() {
    let mut cpu = machine_with(&[0x6A, 0x12, 0x7A, 0x01]);
    cpu.tick().unwrap();
    cpu.tick().unwrap();
    assert_eq!(cpu.register(0xA), 0x13);
}

#[test]
fn key_skips() {
    let mut cpu = machine_with(&[0x60, 0x05, 0xE0, 0x9E]);
    cpu.keypress(5, true).unwrap();
    run(&mut cpu, 2);
    assert_eq!(cpu.pc(), 0x206);

    let mut cpu = machine_with(&[0x60, 0x05, 0xE0, 0xA1]);
    cpu.keypress(5, true).unwrap();
    run(&mut cpu, 2);
    assert_eq!(cpu.pc(), 0x204);
}

#[test]
fn wait_for_key_repeats_until_pressed() {
    let mut cpu = machine_with(&[0xF4, 0x0A]);
    run(&mut cpu, 3);
    assert_eq!(cpu.pc(), 0x200);
    cpu.keypress(7, true).unwrap();
    cpu.keypress(3, true).unwrap();
    run(&mut cpu, 1);
    assert_eq!(cpu.register(4), 3);
    assert_eq!(cpu.pc(), 0x202);
}

#[test]
fn unknown_opcode_is_reported_and_changes_nothing() {
    let mut cpu = machine_with(&[0x01, 0x23]);
    assert_eq!(cpu.tick_with(0), Err(CpuError::UnknownOpcode(0x0123)));
    assert_eq!(cpu.pc(), 0x200);

    let mut cpu = machine_with(&[0x80, 0x18]);
    assert_eq!(cpu.tick_with(0), Err(CpuError::UnknownOpcode(0x8018)));
    assert_eq!(cpu.pc(), 0x200);
}

#[test]
fn return_on_empty_stack_underflows() {
    let mut cpu = machine_with(&[0x00, 0xEE]);
    assert_eq!(cpu.tick_with(0), Err(CpuError::StackUnderflow));
    assert_eq!(cpu.pc(), 0x200);
}

#[test]
fn seventeenth_nested_call_overflows() {
    let mut cpu = machine_with(&[0x22, 0x00]);
    run(&mut cpu, 16);
    assert_eq!(cpu.stack_depth(), 16);
    assert_eq!(cpu.tick_with(0), Err(CpuError::StackOverflow));
    assert_eq!(cpu.stack_depth(), 16);
    assert_eq!(cpu.pc(), 0x200);
}

#[test]
fn fetch_past_memory_end_is_out_of_bounds() {
    let mut cpu = machine_with(&[0x1F, 0xFF]);
    run(&mut cpu, 1);
    assert_eq!(cpu.pc(), 0xFFF);
    assert_eq!(cpu.tick_with(0), Err(CpuError::OutOfBoundsAddress));
    assert_eq!(cpu.pc(), 0xFFF);
}

#[test]
fn memory_instructions_out_of_bounds() {
    let mut cpu = machine_with(&[0xAF, 0xFF, 0xD0, 0x05]);
    run(&mut cpu, 1);
    assert_eq!(cpu.tick_with(0), Err(CpuError::OutOfBoundsAddress));
    assert!(cpu.get_display().iter().all(|p| !*p));

    let mut cpu = machine_with(&[0xAF, 0xFE, 0xF0, 0x33]);
    run(&mut cpu, 1);
    assert_eq!(cpu.tick_with(0), Err(CpuError::OutOfBoundsAddress));
    assert_eq!(cpu.pc(), 0x202);

    let mut cpu = machine_with(&[0xAF, 0xFF, 0xF1, 0x55]);
    run(&mut cpu, 1);
    assert_eq!(cpu.tick_with(0), Err(CpuError::OutOfBoundsAddress));
    assert_eq!(cpu.index_register(), 0xFFF);

    let mut cpu = machine_with(&[0xAF, 0xFF, 0xF1, 0x65]);
    run(&mut cpu, 1);
    assert_eq!(cpu.tick_with(0), Err(CpuError::OutOfBoundsAddress));
}

#[test]
fn key_index_out_of_range() {
    let mut cpu = machine_with(&[0x60, 0x10, 0xE0, 0x9E]);
    run(&mut cpu, 1);
    assert_eq!(cpu.tick_with(0), Err(CpuError::InvalidKeyIndex));
    assert_eq!(cpu.pc(), 0x202);

    let mut cpu = Cpu::new();
    assert_eq!(cpu.keypress(16, true), Err(CpuError::InvalidKeyIndex));
    assert_eq!(cpu.keypress(15, true), Ok(()));
}

#[test]
fn program_size_limit() {
    let mut cpu = Cpu::new();
    assert_eq!(cpu.load(&vec![0xAB; 4096 - 0x200 + 1]), Err(CpuError::ProgramTooLarge));
    assert_eq!(cpu.memory(0x200), 0);
    assert_eq!(cpu.load(&vec![0xAB; 4096 - 0x200]), Ok(()));
    assert_eq!(cpu.memory(0x200), 0xAB);
    assert_eq!(cpu.memory(4095), 0xAB);
    assert_eq!(cpu.memory(0x1FF), 0);
}

#[test]
fn reset_discards_program_and_state() {
    let mut cpu = machine_with(&[0x6A, 0x12, 0x60, 0x03, 0xF0, 0x18]);
    cpu.keypress(2, true).unwrap();
    run(&mut cpu, 3);
    cpu.tick_timers();
    assert!(cpu.get_beep_status());
    cpu.reest();
    assert_eq!(cpu.pc(), 0x200);
    assert_eq!(cpu.register(0xA), 0);
    assert_eq!(cpu.sound_timer(), 0);
    assert!(!cpu.get_beep_status());
    assert_eq!(cpu.memory(0x200), 0);
    assert_eq!(cpu.memory(0), 0xF0);
    let mut wait = cpu;
    wait.load(&[0xF0, 0x0A]).unwrap();
    wait.tick_with(0).unwrap();
    assert_eq!(wait.pc(), 0x200);
}

#[test]
fn decode_names_instructions() {
    assert_eq!(decode(0x6A12), Ok(Instruction::LdImm { x: 0xA, kk: 0x12 }));
    assert_eq!(decode(0xD125), Ok(Instruction::Draw { x: 1, y: 2, n: 5 }));
    assert_eq!(decode(0x2ABC), Ok(Instruction::Call { addr: 0xABC }));
    assert_eq!(decode(0x0000), Ok(Instruction::Nop));
    assert_eq!(decode(0x00E0), Ok(Instruction::Cls));
    assert_eq!(decode(0x00EE), Ok(Instruction::Ret));
    assert_eq!(decode(0xF365), Ok(Instruction::Load { x: 3 }));
    assert_eq!(decode(0xE3A1), Ok(Instruction::Sknp { x: 3 }));
    assert_eq!(decode(0x5121), Err(CpuError::UnknownOpcode(0x5121)));
    assert_eq!(decode(0xF3FF), Err(CpuError::UnknownOpcode(0xF3FF)));
}
