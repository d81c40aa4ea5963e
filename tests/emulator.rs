use chip8::{Chip8Emulator, CycleOutcome, Fault, LoadError, Opcode};

fn machine() -> Chip8Emulator {
    let mut emu = Chip8Emulator::new();
    emu.initialize();
    emu
}

fn run(emu: &mut Chip8Emulator, op: Opcode) {
    assert_eq!(emu.execute(op, 0), Ok(()));
}

#[test]
fn new_machine_is_zeroed() {
    let emu = Chip8Emulator::new();
    assert_eq!(emu.program_counter(), 0);
    assert_eq!(emu.memory_at(0), 0);
    assert_eq!(emu.stack_pointer(), 0);
    assert!(emu.screen().iter().all(|p| !p));
}

#[test]
fn initialize_loads_font_and_sets_pc() {
    let emu = machine();
    assert_eq!(emu.program_counter(), 0x200);
    assert_eq!(emu.address_register(), 0);
    assert_eq!(emu.memory_at(0), 0xF0);
    assert_eq!(emu.memory_at(5), 0x20);
    assert_eq!(emu.memory_at(79), 0x80);
    assert_eq!(emu.memory_at(80), 0);
}

#[test]
fn initialize_resets_a_used_machine() {
    let mut emu = machine();
    run(&mut emu, Opcode::SetConst(3, 9));
    run(&mut emu, Opcode::SetAR(0x345));
    emu.initialize();
    assert_eq!(emu.register(3), 0);
    assert_eq!(emu.address_register(), 0);
    assert_eq!(emu.program_counter(), 0x200);
}

#[test]
fn load_game_copies_at_program_start() {
    let mut emu = machine();
    assert_eq!(emu.load_game(&[0x12, 0x34, 0x56]), Ok(()));
    assert_eq!(emu.memory_at(0x200), 0x12);
    assert_eq!(emu.memory_at(0x202), 0x56);
    assert_eq!(emu.memory_at(0x203), 0);
}

#[test]
fn load_game_accepts_exactly_full_memory() {
    let mut emu = machine();
    let rom = vec![7u8; 4096 - 0x200];
    assert_eq!(emu.load_game(&rom), Ok(()));
    assert_eq!(emu.memory_at(4095), 7);
}

#[test]
fn load_game_too_large_leaves_memory_untouched() {
    let mut emu = machine();
    assert_eq!(emu.load_game(&[0xAA, 0xBB]), Ok(()));
    let rom = vec![1u8; 4096 - 0x200 + 1];
    assert_eq!(emu.load_game(&rom), Err(LoadError::TooLarge));
    assert_eq!(emu.memory_at(0x200), 0xAA);
    assert_eq!(emu.memory_at(0x201), 0xBB);
    assert_eq!(emu.memory_at(0x202), 0);
    assert_eq!(emu.memory_at(0), 0xF0);
}

#[test]
fn add_with_carry_sets_flag_on_overflow() {
    let mut emu = machine();
    run(&mut emu, Opcode::SetConst(1, 0xFF));
    run(&mut emu, Opcode::SetConst(2, 0x02));
    run(&mut emu, Opcode::AddReg(1, 2));
    assert_eq!(emu.register(1), 0x01);
    assert_eq!(emu.register(0xF), 1);
}

#[test]
fn add_with_carry_clears_flag_without_overflow() {
    let mut emu = machine();
    run(&mut emu, Opcode::SetConst(0xF, 1));
    run(&mut emu, Opcode::SetConst(1, 0x01));
    run(&mut emu, Opcode::SetConst(2, 0x01));
    run(&mut emu, Opcode::AddReg(1, 2));
    assert_eq!(emu.register(1), 0x02);
    assert_eq!(emu.register(0xF), 0);
}

#[test]
fn sub_with_borrow_flags() {
    let mut emu = machine();
    run(&mut emu, Opcode::SetConst(1, 0x05));
    run(&mut emu, Opcode::SetConst(2, 0x03));
    run(&mut emu, Opcode::SubReg(1, 2));
    assert_eq!(emu.register(1), 0x02);
    assert_eq!(emu.register(0xF), 1);

    run(&mut emu, Opcode::SetConst(1, 0x03));
    run(&mut emu, Opcode::SetConst(2, 0x05));
    run(&mut emu, Opcode::SubReg(1, 2));
    assert_eq!(emu.register(1), 0xFE);
    assert_eq!(emu.register(0xF), 0);
}

#[test]
fn reverse_sub_and_shifts() {
    let mut emu = machine();
    run(&mut emu, Opcode::SetConst(1, 0x03));
    run(&mut emu, Opcode::SetConst(2, 0x05));
    run(&mut emu, Opcode::DiffReg(1, 2));
    assert_eq!(emu.register(1), 0x02);
    assert_eq!(emu.register(0xF), 1);

    run(&mut emu, Opcode::SetConst(2, 0x81));
    run(&mut emu, Opcode::Div2(1, 2));
    assert_eq!(emu.register(1), 0x40);
    assert_eq!(emu.register(0xF), 1);

    run(&mut emu, Opcode::Mul2(1, 2));
    assert_eq!(emu.register(1), 0x02);
    assert_eq!(emu.register(0xF), 1);
}

#[test]
fn bitwise_and_constant_ops() {
    let mut emu = machine();
    run(&mut emu, Opcode::SetConst(1, 0b1100));
    run(&mut emu, Opcode::SetConst(2, 0b1010));
    run(&mut emu, Opcode::SetReg(3, 1));
    run(&mut emu, Opcode::Or(3, 2));
    assert_eq!(emu.register(3), 0b1110);
    run(&mut emu, Opcode::SetReg(3, 1));
    run(&mut emu, Opcode::And(3, 2));
    assert_eq!(emu.register(3), 0b1000);
    run(&mut emu, Opcode::SetReg(3, 1));
    run(&mut emu, Opcode::Xor(3, 2));
    assert_eq!(emu.register(3), 0b0110);
    run(&mut emu, Opcode::SetConst(4, 0xFE));
    run(&mut emu, Opcode::AddConst(4, 3));
    assert_eq!(emu.register(4), 0x01);
}

#[test]
fn draw_twice_clears_and_reports_collision() {
    let mut emu = machine();
    assert_eq!(emu.load_game(&[0xFF]), Ok(()));
    run(&mut emu, Opcode::SetAR(0x200));
    run(&mut emu, Opcode::SetConst(0, 3));
    run(&mut emu, Opcode::SetConst(1, 2));
    run(&mut emu, Opcode::Draw(0, 1, 1));
    assert_eq!(emu.register(0xF), 0);
    for c in 0..8 {
        assert!(emu.screen()[3 + c + 2 * 64]);
    }
    assert!(!emu.screen()[2 + 2 * 64]);
    assert!(!emu.screen()[11 + 2 * 64]);
    run(&mut emu, Opcode::Draw(0, 1, 1));
    assert_eq!(emu.register(0xF), 1);
    for c in 0..8 {
        assert!(!emu.screen()[3 + c + 2 * 64]);
    }
}

#[test]
fn draw_clips_at_the_right_edge() {
    let mut emu = machine();
    assert_eq!(emu.load_game(&[0xFF]), Ok(()));
    run(&mut emu, Opcode::SetAR(0x200));
    run(&mut emu, Opcode::SetConst(0, 60));
    run(&mut emu, Opcode::SetConst(1, 0));
    run(&mut emu, Opcode::Draw(0, 1, 1));
    let lit = emu.screen().iter().filter(|p| **p).count();
    assert_eq!(lit, 4);
    assert!(!emu.screen()[64]);
}

#[test]
fn clear_screen_blanks_every_cell() {
    let mut emu = machine();
    run(&mut emu, Opcode::SetConst(0, 0));
    run(&mut emu, Opcode::SetISprite(0));
    run(&mut emu, Opcode::Draw(0, 0, 5));
    assert!(emu.screen().iter().any(|p| *p));
    run(&mut emu, Opcode::ClearScreen);
    assert!(emu.screen().iter().all(|p| !p));
}

#[test]
fn call_then_return_resumes_after_the_call() {
    let mut emu = machine();
    run(&mut emu, Opcode::Goto(0x300));
    assert_eq!(emu.program_counter(), 0x300);
    let sp = emu.stack_pointer();
    run(&mut emu, Opcode::CallSub(0x400));
    assert_eq!(emu.program_counter(), 0x400);
    assert_eq!(emu.stack_pointer(), sp + 1);
    run(&mut emu, Opcode::ReturnFromSub);
    assert_eq!(emu.program_counter(), 0x302);
    assert_eq!(emu.stack_pointer(), sp);
}

#[test]
fn return_with_empty_stack_faults() {
    let mut emu = machine();
    assert_eq!(emu.execute(Opcode::ReturnFromSub, 0), Err(Fault::OutOfBounds));
    assert_eq!(emu.program_counter(), 0x200);
}

#[test]
fn call_with_full_stack_faults() {
    let mut emu = machine();
    for _ in 0..16 {
        run(&mut emu, Opcode::CallSub(0x200));
    }
    assert_eq!(emu.stack_pointer(), 16);
    assert_eq!(emu.execute(Opcode::CallSub(0x200), 0), Err(Fault::OutOfBounds));
    assert_eq!(emu.stack_pointer(), 16);
}

#[test]
fn register_dump_then_load_round_trip() {
    let mut emu = machine();
    for (k, val) in [1u8, 2, 3, 4].iter().enumerate() {
        run(&mut emu, Opcode::SetConst(k as u8, *val));
    }
    run(&mut emu, Opcode::SetAR(0x500));
    run(&mut emu, Opcode::RegDump(3));
    assert_eq!(emu.memory_at(0x503), 4);
    for k in 0..4u8 {
        run(&mut emu, Opcode::SetConst(k, 0));
    }
    run(&mut emu, Opcode::RegLoad(3));
    for k in 0..4u8 {
        assert_eq!(emu.register(k), k + 1);
    }
}

#[test]
fn register_dump_past_memory_faults() {
    let mut emu = machine();
    run(&mut emu, Opcode::SetAR(0xFFE));
    assert_eq!(emu.execute(Opcode::RegDump(3), 0), Err(Fault::OutOfBounds));
    assert_eq!(emu.execute(Opcode::BCD(0), 0), Err(Fault::OutOfBounds));
}

#[test]
fn bcd_stores_three_digits() {
    let mut emu = machine();
    run(&mut emu, Opcode::SetConst(5, 254));
    run(&mut emu, Opcode::SetAR(0x600));
    run(&mut emu, Opcode::BCD(5));
    assert_eq!(emu.memory_at(0x600), 2);
    assert_eq!(emu.memory_at(0x601), 5);
    assert_eq!(emu.memory_at(0x602), 4);
}

#[test]
fn sprite_address_uses_register_value() {
    let mut emu = machine();
    run(&mut emu, Opcode::SetConst(2, 0xA));
    run(&mut emu, Opcode::SetISprite(2));
    assert_eq!(emu.address_register(), 50);
}

#[test]
fn add_to_address_register_wraps_within_memory() {
    let mut emu = machine();
    run(&mut emu, Opcode::SetAR(0xFFF));
    run(&mut emu, Opcode::SetConst(1, 3));
    run(&mut emu, Opcode::AddToI(1));
    assert_eq!(emu.address_register(), 2);
}

#[test]
fn skips_advance_by_four_when_taken() {
    let mut emu = machine();
    run(&mut emu, Opcode::SetConst(1, 7));
    let pc = emu.program_counter();
    run(&mut emu, Opcode::SkipEQ(1, 7));
    assert_eq!(emu.program_counter(), pc + 4);
    run(&mut emu, Opcode::SkipNEQ(1, 7));
    assert_eq!(emu.program_counter(), pc + 6);
    run(&mut emu, Opcode::SkipRegEQ(1, 1));
    assert_eq!(emu.program_counter(), pc + 10);
    run(&mut emu, Opcode::SkipRegNEQ(1, 2));
    assert_eq!(emu.program_counter(), pc + 14);
}

#[test]
fn jumps_set_the_program_counter() {
    let mut emu = machine();
    run(&mut emu, Opcode::Goto(0x345));
    assert_eq!(emu.program_counter(), 0x345);
    run(&mut emu, Opcode::SetConst(0, 0x10));
    run(&mut emu, Opcode::Jump(0x300));
    assert_eq!(emu.program_counter(), 0x310);
    run(&mut emu, Opcode::MachineCode(0x123));
    assert_eq!(emu.program_counter(), 0x312);
}

#[test]
fn key_skips_read_the_keypad() {
    let mut emu = machine();
    let mut keys = [false; 16];
    keys[5] = true;
    emu.set_keys(&keys);
    run(&mut emu, Opcode::SetConst(1, 5));
    let pc = emu.program_counter();
    run(&mut emu, Opcode::KeyEQ(1));
    assert_eq!(emu.program_counter(), pc + 4);
    run(&mut emu, Opcode::KeyNEQ(1));
    assert_eq!(emu.program_counter(), pc + 6);
    run(&mut emu, Opcode::SetConst(1, 0x20));
    assert_eq!(emu.execute(Opcode::KeyEQ(1), 0), Err(Fault::OutOfBounds));
}

#[test]
fn get_key_waits_then_takes_lowest_held_key() {
    let mut emu = machine();
    let pc = emu.program_counter();
    run(&mut emu, Opcode::GetKey(2));
    assert_eq!(emu.program_counter(), pc);
    let mut keys = [false; 16];
    keys[9] = true;
    keys[4] = true;
    emu.set_keys(&keys);
    run(&mut emu, Opcode::GetKey(2));
    assert_eq!(emu.program_counter(), pc + 2);
    assert_eq!(emu.register(2), 4);
}

#[test]
fn rand_is_masked() {
    let mut emu = machine();
    assert_eq!(emu.execute(Opcode::Rand(1, 0x0F), 0xAB), Ok(()));
    assert_eq!(emu.register(1), 0x0B);
}

#[test]
fn timers_move_through_registers() {
    let mut emu = machine();
    run(&mut emu, Opcode::SetConst(1, 30));
    run(&mut emu, Opcode::SetDelayTimer(1));
    assert_eq!(emu.delay_timer(), 30);
    run(&mut emu, Opcode::GetDelayTimer(2));
    assert_eq!(emu.register(2), 30);
}

#[test]
fn sound_timer_decays_and_beeps_once() {
    let mut emu = machine();
    // V0 = 2; sound = V0; V1 = 0; V1 = 0
    let rom = [0x60, 0x02, 0xF0, 0x18, 0x61, 0x00, 0x61, 0x00];
    assert_eq!(emu.load_game(&rom), Ok(()));
    assert_eq!(emu.step(0), CycleOutcome::Continue);
    assert_eq!(emu.step(0), CycleOutcome::Continue);
    assert_eq!(emu.sound_timer(), 1);
    assert_eq!(emu.step(0), CycleOutcome::Beeped);
    assert_eq!(emu.sound_timer(), 0);
    assert_eq!(emu.step(0), CycleOutcome::Continue);
    assert_eq!(emu.sound_timer(), 0);
}

#[test]
fn delay_timer_counts_down_per_cycle() {
    let mut emu = machine();
    let rom = [0x60, 0x05, 0xF0, 0x15, 0x61, 0x00];
    assert_eq!(emu.load_game(&rom), Ok(()));
    emu.step(0);
    emu.step(0);
    assert_eq!(emu.delay_timer(), 4);
    emu.step(0);
    assert_eq!(emu.delay_timer(), 3);
}

#[test]
fn step_faults_on_unknown_opcode_without_change() {
    let mut emu = machine();
    assert_eq!(emu.load_game(&[0xFF, 0xFF]), Ok(()));
    assert_eq!(emu.step(0), CycleOutcome::Fault(Fault::UnknownOpcode(0xFFFF, 0x200)));
    assert_eq!(emu.program_counter(), 0x200);
}

#[test]
fn step_faults_at_end_of_memory() {
    let mut emu = machine();
    run(&mut emu, Opcode::Goto(0xFFF));
    assert_eq!(emu.step(0), CycleOutcome::Fault(Fault::OutOfBounds));
    assert_eq!(emu.program_counter(), 0xFFF);
}

#[test]
fn step_runs_a_small_program() {
    let mut emu = machine();
    // V1 = 0x10; V2 = 0x20; V1 += V2; jump to self
    let rom = [0x61, 0x10, 0x62, 0x20, 0x81, 0x24, 0x12, 0x06];
    assert_eq!(emu.load_game(&rom), Ok(()));
    for _ in 0..4 {
        assert_eq!(emu.step(0), CycleOutcome::Continue);
    }
    assert_eq!(emu.register(1), 0x30);
    assert_eq!(emu.program_counter(), 0x206);
}

#[test]
fn emulate_cycle_runs_masked_random() {
    let mut emu = machine();
    assert_eq!(emu.load_game(&[0xC3, 0x0F]), Ok(()));
    assert_eq!(emu.emulate_cycle(), CycleOutcome::Continue);
    assert!(emu.register(3) < 16);
    assert_eq!(emu.program_counter(), 0x202);
}
