use chip8::cpu::CPU;
use chip8::fault::Fault;
use chip8::keypad::Keypad;

fn machine_with(program: &[u8]) -> CPU {
    let mut cpu = CPU::new();
    cpu.load_font_in_ram().unwrap();
    cpu.load_program_in_ram(program).unwrap();
    cpu
}

fn run(cpu: &mut CPU, keypad: &Keypad, cycles: usize) {
    for _ in 0..cycles {
        cpu.step(keypad).unwrap();
    }
}

fn registers(cpu: &CPU) -> Vec<u8> {
    (0..16).map(|x| cpu.register(x)).collect()
}

#[test]
fn machine_starts_at_reset() {
    let cpu = CPU::new();
    assert_eq!(cpu.program_counter(), 0x200);
    assert_eq!(cpu.index(), 0);
    assert_eq!(cpu.stack_pointer(), 0);
    assert_eq!(cpu.delay_timer(), 0);
    assert_eq!(cpu.sound_timer(), 0);
    assert_eq!(registers(&cpu), vec![0; 16]);
    assert!(!cpu.speaker().is_beeping());
    assert!(cpu.ram().read(0, 4096).unwrap().iter().all(|byte| *byte == 0));
}

#[test]
fn instruction_fields_are_decoded() {
    let instruction = CPU::parse_instruction(0xD1, 0x2F);
    assert_eq!(instruction.nibbles, (0xD, 0x1, 0x2, 0xF));
    assert_eq!(instruction.x, 1);
    assert_eq!(instruction.y, 2);
    assert_eq!(instruction.kk, 0x2F);
    assert_eq!(instruction.nnn, 0x12F);
    let other = CPU::parse_instruction(0xFF, 0xFF);
    assert_eq!(other.nibbles, (0xF, 0xF, 0xF, 0xF));
    assert_eq!(other.nnn, 0xFFF);
    assert_eq!(other.kk, 0xFF);
}

#[test]
fn font_and_program_are_loaded_at_their_addresses() {
    let cpu = machine_with(&[0x12, 0x34, 0x56]);
    assert_eq!(cpu.ram().read(0, 5).unwrap(), &[0xF0, 0x90, 0x90, 0x90, 0xF0]);
    assert_eq!(cpu.ram().read(75, 6).unwrap(), &[0xF0, 0x80, 0xF0, 0x80, 0x80, 0x00]);
    assert_eq!(cpu.ram().read(0x1FF, 5).unwrap(), &[0x00, 0x12, 0x34, 0x56, 0x00]);
}

#[test]
fn program_that_does_not_fit_is_rejected() {
    let mut cpu = CPU::new();
    let image = vec![0xEE; 4096 - 0x200 + 1];
    assert_eq!(
        cpu.load_program_in_ram(&image),
        Err(Fault::MemoryOutOfBounds { address: 0x200, count: 3585 })
    );
    assert!(cpu.ram().read(0, 4096).unwrap().iter().all(|byte| *byte == 0));
    let largest = vec![0xEE; 4096 - 0x200];
    assert_eq!(cpu.load_program_in_ram(&largest), Ok(()));
    assert_eq!(cpu.ram().read(4095, 1).unwrap(), &[0xEE]);
}

#[test]
fn fetch_advances_the_program_counter_before_dispatch() {
    let mut cpu = machine_with(&[0x6A, 0x42]);
    let instruction = cpu.read_instruction().unwrap();
    assert_eq!(instruction.nibbles, (0x6, 0xA, 0x4, 0x2));
    assert_eq!(cpu.program_counter(), 0x202);
    assert_eq!(cpu.register(0xA), 0);
}

#[test]
fn loads_adds_and_ignores_an_undefined_word() {
    let mut cpu = machine_with(&[0x60, 0x05, 0x61, 0x05, 0x80, 0x14, 0x00, 0xFF]);
    let keypad = Keypad::new();
    run(&mut cpu, &keypad, 1);
    assert_eq!(cpu.register(0), 5);
    run(&mut cpu, &keypad, 1);
    assert_eq!(cpu.register(1), 5);
    run(&mut cpu, &keypad, 1);
    assert_eq!(cpu.register(0), 10);
    assert_eq!(cpu.register(0xF), 0);
    let before = registers(&cpu);
    run(&mut cpu, &keypad, 1);
    assert_eq!(registers(&cpu), before);
    assert_eq!(cpu.program_counter(), 0x208);
    assert_eq!(cpu.index(), 0);
    assert_eq!(cpu.stack_pointer(), 0);
}

#[test]
fn undefined_words_do_nothing() {
    let words: [(u8, u8); 8] = [
        (0x00, 0x00),
        (0x00, 0xE1),
        (0x51, 0x21),
        (0x81, 0x28),
        (0x91, 0x2F),
        (0xE1, 0x9F),
        (0xF1, 0x2E),
        (0xF1, 0xFF),
    ];
    for (high, low) in words {
        let mut cpu = machine_with(&[0x61, 0x07, 0x62, 0x09, 0xA1, 0x23, high, low]);
        let keypad = Keypad::new();
        run(&mut cpu, &keypad, 3);
        let before = registers(&cpu);
        run(&mut cpu, &keypad, 1);
        assert_eq!(registers(&cpu), before);
        assert_eq!(cpu.program_counter(), 0x208);
        assert_eq!(cpu.index(), 0x123);
    }
}

#[test]
fn add_wraps_and_sets_the_carry() {
    let mut cpu = machine_with(&[0x63, 0xFF, 0x64, 0x02, 0x83, 0x44]);
    run(&mut cpu, &Keypad::new(), 3);
    assert_eq!(cpu.register(3), 0x01);
    assert_eq!(cpu.register(0xF), 1);
}

#[test]
fn add_without_carry_clears_the_flag() {
    let mut cpu = machine_with(&[0x6F, 0x01, 0x63, 0xF0, 0x64, 0x0F, 0x83, 0x44]);
    run(&mut cpu, &Keypad::new(), 4);
    assert_eq!(cpu.register(3), 0xFF);
    assert_eq!(cpu.register(0xF), 0);
}

#[test]
fn add_into_the_flag_register_keeps_the_carry() {
    let mut cpu = machine_with(&[0x6F, 0xFF, 0x61, 0x03, 0x8F, 0x14]);
    run(&mut cpu, &Keypad::new(), 3);
    assert_eq!(cpu.register(0xF), 1);
    let mut other = machine_with(&[0x6F, 0x10, 0x61, 0x03, 0x8F, 0x14]);
    run(&mut other, &Keypad::new(), 3);
    assert_eq!(other.register(0xF), 0);
}

#[test]
fn add_immediate_wraps_and_leaves_the_flag() {
    let mut cpu = machine_with(&[0x6F, 0x07, 0x62, 0xFE, 0x72, 0x05]);
    run(&mut cpu, &Keypad::new(), 3);
    assert_eq!(cpu.register(2), 0x03);
    assert_eq!(cpu.register(0xF), 0x07);
}

#[test]
fn subtract_wraps_and_flags_the_larger_minuend() {
    let mut cpu = machine_with(&[0x61, 0x05, 0x62, 0x07, 0x81, 0x25]);
    run(&mut cpu, &Keypad::new(), 3);
    assert_eq!(cpu.register(1), 0xFE);
    assert_eq!(cpu.register(0xF), 0);
    let mut other = machine_with(&[0x61, 0x09, 0x62, 0x07, 0x81, 0x25]);
    run(&mut other, &Keypad::new(), 3);
    assert_eq!(other.register(1), 0x02);
    assert_eq!(other.register(0xF), 1);
    let mut equal = machine_with(&[0x6F, 0x01, 0x61, 0x07, 0x62, 0x07, 0x81, 0x25]);
    run(&mut equal, &Keypad::new(), 4);
    assert_eq!(equal.register(1), 0);
    assert_eq!(equal.register(0xF), 0);
}

#[test]
fn reverse_subtract_wraps_and_flags_the_larger_minuend() {
    let mut cpu = machine_with(&[0x61, 0x05, 0x62, 0x07, 0x81, 0x27]);
    run(&mut cpu, &Keypad::new(), 3);
    assert_eq!(cpu.register(1), 0x02);
    assert_eq!(cpu.register(0xF), 1);
    let mut other = machine_with(&[0x61, 0x09, 0x62, 0x07, 0x81, 0x27]);
    run(&mut other, &Keypad::new(), 3);
    assert_eq!(other.register(1), 0xFE);
    assert_eq!(other.register(0xF), 0);
}

#[test]
fn shift_right_is_logical() {
    let mut cpu = machine_with(&[0x65, 0x03, 0x85, 0x06]);
    run(&mut cpu, &Keypad::new(), 2);
    assert_eq!(cpu.register(5), 0x01);
    assert_eq!(cpu.register(0xF), 1);
    let mut other = machine_with(&[0x6F, 0x01, 0x65, 0xFE, 0x85, 0x06]);
    run(&mut other, &Keypad::new(), 3);
    assert_eq!(other.register(5), 0x7F);
    assert_eq!(other.register(0xF), 0);
}

#[test]
fn shift_left_is_logical() {
    let mut cpu = machine_with(&[0x65, 0x81, 0x85, 0x0E]);
    run(&mut cpu, &Keypad::new(), 2);
    assert_eq!(cpu.register(5), 0x02);
    assert_eq!(cpu.register(0xF), 1);
    let mut other = machine_with(&[0x6F, 0x01, 0x65, 0x7F, 0x85, 0x0E]);
    run(&mut other, &Keypad::new(), 3);
    assert_eq!(other.register(5), 0xFE);
    assert_eq!(other.register(0xF), 0);
}

#[test]
fn register_copy_and_bitwise_operations() {
    let setup = [0x61, 0b1100_1010, 0x62, 0b1010_0110];
    let cases: [(u8, u8); 4] =
        [(0x20, 0b1010_0110), (0x21, 0b1110_1110), (0x22, 0b1000_0010), (0x23, 0b0110_1100)];
    for (low, expected) in cases {
        let mut program = setup.to_vec();
        program.extend_from_slice(&[0x81, low]);
        let mut cpu = machine_with(&program);
        run(&mut cpu, &Keypad::new(), 3);
        assert_eq!(cpu.register(1), expected);
        assert_eq!(cpu.register(2), 0b1010_0110);
        assert_eq!(cpu.register(0xF), 0);
    }
}

#[test]
fn jump_sets_the_program_counter() {
    let mut cpu = machine_with(&[0x1A, 0xBC]);
    run(&mut cpu, &Keypad::new(), 1);
    assert_eq!(cpu.program_counter(), 0xABC);
}

#[test]
fn indirect_jump_adds_register_zero() {
    let mut cpu = machine_with(&[0x60, 0xFF, 0xBF, 0xFF]);
    run(&mut cpu, &Keypad::new(), 2);
    assert_eq!(cpu.program_counter(), 0xFFF + 0xFF);
}

#[test]
fn return_after_call_comes_back_behind_the_call() {
    let mut program = vec![0u8; 0x100];
    program[0] = 0x60;
    program[1] = 0x01;
    program[2] = 0x22;
    program[3] = 0x80;
    program[0x80] = 0x00;
    program[0x81] = 0xEE;
    let mut cpu = machine_with(&program);
    let keypad = Keypad::new();
    run(&mut cpu, &keypad, 2);
    assert_eq!(cpu.program_counter(), 0x280);
    assert_eq!(cpu.stack_pointer(), 1);
    run(&mut cpu, &keypad, 1);
    assert_eq!(cpu.program_counter(), 0x204);
    assert_eq!(cpu.stack_pointer(), 0);
}

#[test]
fn return_without_a_call_is_a_stack_underflow() {
    let mut cpu = machine_with(&[0x00, 0xEE]);
    assert_eq!(cpu.step(&Keypad::new()), Err(Fault::StackUnderflow));
    assert_eq!(cpu.program_counter(), 0x202);
    assert_eq!(cpu.stack_pointer(), 0);
}

#[test]
fn sixteenth_nested_call_is_a_stack_overflow() {
    let mut cpu = machine_with(&[0x22, 0x00]);
    let keypad = Keypad::new();
    for depth in 1u8..16 {
        assert_eq!(cpu.step(&keypad), Ok(()));
        assert_eq!(cpu.stack_pointer(), depth);
        assert_eq!(cpu.program_counter(), 0x200);
    }
    assert_eq!(cpu.step(&keypad), Err(Fault::StackOverflow));
    assert_eq!(cpu.stack_pointer(), 15);
    assert_eq!(cpu.program_counter(), 0x202);
}

#[test]
fn skips_on_immediate_comparison() {
    let cases: [(u8, u8, u16); 4] =
        [(0x31, 0x44, 0x206), (0x31, 0x45, 0x204), (0x41, 0x44, 0x204), (0x41, 0x45, 0x206)];
    for (high, low, expected) in cases {
        let mut cpu = machine_with(&[0x61, 0x44, high, low]);
        run(&mut cpu, &Keypad::new(), 2);
        assert_eq!(cpu.program_counter(), expected);
    }
}

#[test]
fn skips_on_register_comparison() {
    let cases: [(u8, u8, u16); 4] =
        [(0x07, 0x50, 0x208), (0x08, 0x50, 0x206), (0x07, 0x90, 0x206), (0x08, 0x90, 0x208)];
    for (value, high, expected) in cases {
        let mut cpu = machine_with(&[0x61, 0x07, 0x62, value, high | 0x01, 0x20]);
        run(&mut cpu, &Keypad::new(), 3);
        assert_eq!(cpu.program_counter(), expected);
    }
}

#[test]
fn index_register_is_set_and_advanced() {
    let mut cpu = machine_with(&[0xA1, 0x23, 0x63, 0xFF, 0xF3, 0x1E]);
    run(&mut cpu, &Keypad::new(), 3);
    assert_eq!(cpu.index(), 0x123 + 0xFF);
    assert_eq!(cpu.register(0xF), 0);
}

#[test]
fn index_register_wraps_at_sixteen_bits() {
    let mut program = vec![0xAF, 0xFF, 0x61, 0xFF];
    for _ in 0..241 {
        program.extend_from_slice(&[0xF1, 0x1E]);
    }
    let mut cpu = machine_with(&program);
    let keypad = Keypad::new();
    run(&mut cpu, &keypad, 2 + 240);
    assert_eq!(cpu.index(), 0xFFF + 240 * 255);
    run(&mut cpu, &keypad, 1);
    assert_eq!(cpu.index(), ((0xFFFu32 + 241 * 255) % 65536) as u16);
    assert_eq!(cpu.index(), 14);
}

#[test]
fn glyph_address_is_five_times_the_digit() {
    let mut cpu = machine_with(&[0x64, 0x0B, 0xF4, 0x29, 0x64, 0xFF, 0xF4, 0x29]);
    let keypad = Keypad::new();
    run(&mut cpu, &keypad, 2);
    assert_eq!(cpu.index(), 55);
    run(&mut cpu, &keypad, 2);
    assert_eq!(cpu.index(), 1275);
}

#[test]
fn decimal_digits_are_stored_at_the_index() {
    let mut cpu = machine_with(&[0x67, 156, 0xA3, 0x00, 0xF7, 0x33]);
    run(&mut cpu, &Keypad::new(), 3);
    assert_eq!(cpu.ram().read(0x2FF, 5).unwrap(), &[0, 1, 5, 6, 0]);
    assert_eq!(cpu.index(), 0x300);
}

#[test]
fn decimal_digits_of_small_and_large_values() {
    let cases: [(u8, [u8; 3]); 5] =
        [(0, [0, 0, 0]), (7, [0, 0, 7]), (90, [0, 9, 0]), (200, [2, 0, 0]), (255, [2, 5, 5])];
    for (value, digits) in cases {
        let mut cpu = machine_with(&[0x67, value, 0xA3, 0x00, 0xF7, 0x33]);
        run(&mut cpu, &Keypad::new(), 3);
        assert_eq!(cpu.ram().read(0x300, 3).unwrap(), &digits);
    }
}

#[test]
fn decimal_store_past_the_end_faults_and_writes_nothing() {
    let mut cpu = machine_with(&[0x67, 156, 0xAF, 0xFE, 0xF7, 0x33]);
    let keypad = Keypad::new();
    run(&mut cpu, &keypad, 2);
    assert_eq!(cpu.step(&keypad), Err(Fault::MemoryOutOfBounds { address: 0xFFE, count: 3 }));
    assert_eq!(cpu.ram().read(0xFFE, 2).unwrap(), &[0, 0]);
    let mut fits = machine_with(&[0x67, 156, 0xAF, 0xFD, 0xF7, 0x33]);
    run(&mut fits, &keypad, 3);
    assert_eq!(fits.ram().read(0xFFD, 3).unwrap(), &[1, 5, 6]);
}

#[test]
fn registers_are_stored_up_to_x_inclusive() {
    let mut cpu =
        machine_with(&[0x60, 0x11, 0x61, 0x22, 0x62, 0x33, 0x63, 0x44, 0xA4, 0x00, 0xF2, 0x55]);
    run(&mut cpu, &Keypad::new(), 6);
    assert_eq!(cpu.ram().read(0x3FF, 5).unwrap(), &[0, 0x11, 0x22, 0x33, 0]);
    assert_eq!(cpu.index(), 0x400);
}

#[test]
fn registers_are_loaded_up_to_x_inclusive() {
    let mut program = vec![0x63, 0x99, 0xA2, 0x10, 0xF2, 0x65];
    program.resize(0x10, 0);
    program.extend_from_slice(&[0xA1, 0xB2, 0xC3, 0xD4]);
    let mut cpu = machine_with(&program);
    run(&mut cpu, &Keypad::new(), 3);
    assert_eq!(&registers(&cpu)[0..5], &[0xA1, 0xB2, 0xC3, 0x99, 0]);
    assert_eq!(cpu.index(), 0x210);
}

#[test]
fn all_sixteen_registers_round_trip_through_memory() {
    let mut program = Vec::new();
    for x in 0u8..16 {
        program.extend_from_slice(&[0x60 | x, 0xA0 + x]);
    }
    program.extend_from_slice(&[0xA8, 0x00, 0xFF, 0x55]);
    for x in 0u8..16 {
        program.extend_from_slice(&[0x60 | x, 0x00]);
    }
    program.extend_from_slice(&[0xFF, 0x65]);
    let mut cpu = machine_with(&program);
    run(&mut cpu, &Keypad::new(), 16 + 2 + 16 + 1);
    let expected: Vec<u8> = (0u8..16).map(|x| 0xA0 + x).collect();
    assert_eq!(registers(&cpu), expected);
    assert_eq!(cpu.ram().read(0x800, 16).unwrap(), &expected[..]);
}

#[test]
fn register_load_across_the_memory_bound_faults() {
    let mut cpu = machine_with(&[0x61, 0x77, 0xAF, 0xFF, 0xF1, 0x65]);
    let keypad = Keypad::new();
    run(&mut cpu, &keypad, 2);
    assert_eq!(cpu.step(&keypad), Err(Fault::MemoryOutOfBounds { address: 0xFFF, count: 2 }));
    assert_eq!(cpu.register(0), 0);
    assert_eq!(cpu.register(1), 0x77);
}

#[test]
fn register_store_across_the_memory_bound_faults() {
    let mut cpu = machine_with(&[0x60, 0x77, 0xAF, 0xFF, 0xF1, 0x55]);
    let keypad = Keypad::new();
    run(&mut cpu, &keypad, 2);
    assert_eq!(cpu.step(&keypad), Err(Fault::MemoryOutOfBounds { address: 0xFFF, count: 2 }));
    assert_eq!(cpu.ram().read(0xFFF, 1).unwrap(), &[0]);
}

#[test]
fn timers_are_written_and_read_by_instructions() {
    let mut cpu = machine_with(&[0x61, 0x2A, 0xF1, 0x15, 0xF1, 0x18, 0xF3, 0x07]);
    run(&mut cpu, &Keypad::new(), 4);
    assert_eq!(cpu.delay_timer(), 0x2A);
    assert_eq!(cpu.sound_timer(), 0x2A);
    assert_eq!(cpu.register(3), 0x2A);
    assert!(!cpu.speaker().is_beeping());
}

#[test]
fn timers_count_down_once_per_tick_and_stop_at_zero() {
    let mut cpu = machine_with(&[0x61, 0x03, 0xF1, 0x15, 0x62, 0x02, 0xF2, 0x18]);
    let keypad = Keypad::new();
    assert_eq!(cpu.tick(&keypad, 4), Ok(()));
    assert_eq!((cpu.delay_timer(), cpu.sound_timer()), (2, 1));
    assert!(cpu.speaker().is_beeping());
    assert_eq!(cpu.tick(&keypad, 0), Ok(()));
    assert_eq!((cpu.delay_timer(), cpu.sound_timer()), (1, 0));
    assert!(!cpu.speaker().is_beeping());
    assert_eq!(cpu.tick(&keypad, 0), Ok(()));
    assert_eq!((cpu.delay_timer(), cpu.sound_timer()), (0, 0));
    for _ in 0..5 {
        assert_eq!(cpu.tick(&keypad, 0), Ok(()));
        assert_eq!((cpu.delay_timer(), cpu.sound_timer()), (0, 0));
        assert!(!cpu.speaker().is_beeping());
    }
}

#[test]
fn end_of_frame_with_sound_timer_at_one_silences_the_tone() {
    let mut cpu = machine_with(&[0x62, 0x01, 0xF2, 0x18]);
    assert_eq!(cpu.tick(&Keypad::new(), 2), Ok(()));
    assert_eq!(cpu.sound_timer(), 0);
    assert!(!cpu.speaker().is_beeping());
}

#[test]
fn tick_runs_the_given_number_of_instructions() {
    let mut cpu = machine_with(&[0x70, 0x01, 0x70, 0x01, 0x70, 0x01, 0x70, 0x01]);
    let keypad = Keypad::new();
    assert_eq!(cpu.tick(&keypad, 3), Ok(()));
    assert_eq!(cpu.register(0), 3);
    assert_eq!(cpu.program_counter(), 0x206);
    assert_eq!(cpu.tick(&keypad, 0), Ok(()));
    assert_eq!(cpu.program_counter(), 0x206);
}

#[test]
fn a_fault_ends_the_tick_before_the_timers_move() {
    let mut cpu = machine_with(&[0x61, 0x09, 0xF1, 0x15, 0x00, 0xEE, 0x61, 0x01]);
    assert_eq!(cpu.tick(&Keypad::new(), 4), Err(Fault::StackUnderflow));
    assert_eq!(cpu.delay_timer(), 9);
    assert_eq!(cpu.register(1), 9);
    assert_eq!(cpu.program_counter(), 0x206);
}

#[test]
fn running_off_the_end_of_memory_faults_at_fetch() {
    let mut cpu = machine_with(&[0x1F, 0xFE, 0x00, 0x00]);
    let keypad = Keypad::new();
    run(&mut cpu, &keypad, 2);
    assert_eq!(cpu.program_counter(), 0x1000);
    assert_eq!(cpu.step(&keypad), Err(Fault::MemoryOutOfBounds { address: 0x1000, count: 2 }));
    assert_eq!(cpu.program_counter(), 0x1000);
    let mut odd = machine_with(&[0x1F, 0xFF]);
    run(&mut odd, &keypad, 1);
    assert_eq!(odd.step(&keypad), Err(Fault::MemoryOutOfBounds { address: 0xFFF, count: 2 }));
}

#[test]
fn key_skips_follow_the_key_level() {
    let mut keypad = Keypad::new();
    keypad.press_key(55);
    let cases: [(u8, u8, u8, u16); 4] = [
        (7, 0xE1, 0x9E, 0x206),
        (8, 0xE1, 0x9E, 0x204),
        (7, 0xE1, 0xA1, 0x204),
        (8, 0xE1, 0xA1, 0x206),
    ];
    for (key, high, low, expected) in cases {
        let mut cpu = machine_with(&[0x61, key, high, low]);
        run(&mut cpu, &keypad, 2);
        assert_eq!(cpu.program_counter(), expected);
    }
}

#[test]
fn key_skip_on_an_unknown_key_faults() {
    for low in [0x9E, 0xA1] {
        let mut cpu = machine_with(&[0x61, 0x10, 0xE1, low]);
        let keypad = Keypad::new();
        run(&mut cpu, &keypad, 1);
        assert_eq!(cpu.step(&keypad), Err(Fault::UnknownKey { key: 0x10 }));
        assert_eq!(cpu.program_counter(), 0x204);
    }
}

#[test]
fn wait_for_key_repeats_until_a_key_is_down() {
    let mut cpu = machine_with(&[0x63, 0x55, 0xF3, 0x0A, 0x64, 0x01]);
    let mut keypad = Keypad::new();
    run(&mut cpu, &keypad, 1);
    for _ in 0..3 {
        run(&mut cpu, &keypad, 1);
        assert_eq!(cpu.program_counter(), 0x202);
        assert_eq!(cpu.register(3), 0x55);
    }
    keypad.press_key(100);
    keypad.press_key(54);
    run(&mut cpu, &keypad, 1);
    assert_eq!(cpu.register(3), 6);
    assert_eq!(cpu.program_counter(), 0x204);
    run(&mut cpu, &keypad, 1);
    assert_eq!(cpu.register(4), 1);
}

#[test]
fn random_byte_is_masked_by_the_immediate() {
    let mut program = Vec::new();
    for _ in 0..64 {
        program.extend_from_slice(&[0xC1, 0x00, 0xC2, 0x0F, 0xC3, 0x80]);
    }
    let mut cpu = machine_with(&program);
    let keypad = Keypad::new();
    for _ in 0..64 {
        run(&mut cpu, &keypad, 3);
        assert_eq!(cpu.register(1), 0);
        assert!(cpu.register(2) <= 0x0F);
        assert!(cpu.register(3) == 0 || cpu.register(3) == 0x80);
        assert_eq!(cpu.register(0xF), 0);
    }
}

#[test]
fn execute_with_uses_the_given_random_byte() {
    let mut cpu = CPU::new();
    let keypad = Keypad::new();
    let instruction = CPU::parse_instruction(0xC5, 0x3C);
    assert_eq!(cpu.execute_with(&instruction, &keypad, 0xA5), Ok(()));
    assert_eq!(cpu.register(5), 0xA5 & 0x3C);
    let plain = CPU::parse_instruction(0x65, 0x11);
    assert_eq!(cpu.execute_with(&plain, &keypad, 0xFF), Ok(()));
    assert_eq!(cpu.register(5), 0x11);
    assert_eq!(cpu.execute_instruction(&plain, &keypad), Ok(()));
    assert_eq!(cpu.program_counter(), 0x200);
}

#[test]
fn draw_reads_the_sprite_at_the_index_and_flags_collisions() {
    let mut cpu = machine_with(&[0x61, 0x3E, 0x62, 0x1F, 0xA0, 0x05, 0xD1, 0x25, 0xD1, 0x25]);
    let keypad = Keypad::new();
    run(&mut cpu, &keypad, 4);
    assert_eq!(cpu.register(0xF), 0);
    assert!(cpu.display().pixel(31, 0));
    assert!(!cpu.display().pixel(31, 62));
    assert!(!cpu.display().pixel(31, 63));
    assert!(cpu.display().pixel(0, 63));
    assert!(cpu.display().pixel(0, 0));
    assert!(cpu.display().pixel(3, 63));
    run(&mut cpu, &keypad, 1);
    assert_eq!(cpu.register(0xF), 1);
    for row in 0..32 {
        for col in 0..64 {
            assert!(!cpu.display().pixel(row, col));
        }
    }
}

#[test]
fn draw_of_no_rows_changes_nothing() {
    let mut cpu = machine_with(&[0x6F, 0x01, 0xAF, 0xFF, 0xD1, 0x20]);
    run(&mut cpu, &Keypad::new(), 3);
    assert_eq!(cpu.register(0xF), 0);
    assert!(cpu.refresh(640, 320).is_empty());
}

#[test]
fn draw_across_the_memory_bound_faults() {
    let mut cpu = machine_with(&[0xAF, 0xFE, 0xD1, 0x23]);
    let keypad = Keypad::new();
    run(&mut cpu, &keypad, 1);
    assert_eq!(cpu.step(&keypad), Err(Fault::MemoryOutOfBounds { address: 0xFFE, count: 3 }));
    assert!(cpu.refresh(640, 320).is_empty());
}

#[test]
fn clear_screen_blanks_the_display() {
    let mut cpu = machine_with(&[0xA0, 0x00, 0xD0, 0x05, 0x00, 0xE0]);
    let keypad = Keypad::new();
    run(&mut cpu, &keypad, 2);
    assert_eq!(cpu.refresh(64, 32).len(), 14);
    assert!(!cpu.display().is_present_due());
    run(&mut cpu, &keypad, 1);
    assert!(cpu.display().is_present_due());
    assert!(cpu.refresh(64, 32).is_empty());
    assert!(!cpu.display().is_present_due());
}
