use chip8::display::draw_sprite;
use chip8::fonts::FONT_SET_1;
use chip8::{CoreError, CPU, RAM_SIZE, ROM_SIZE_MAX, SCREEN_BUFF_SIZE, START_ADDRESS};

fn same_state(a: &CPU, b: &CPU) -> bool {
    a.program_counter == b.program_counter
        && a.ram == b.ram
        && a.index_register == b.index_register
        && a.v_register == b.v_register
        && a.stack == b.stack
        && a.delay_timer == b.delay_timer
        && a.sound_timer == b.sound_timer
        && a.display_buffer == b.display_buffer
        && a.display_update_flag == b.display_update_flag
        && a.key_states == b.key_states
}

#[test]
fn new_machine_is_zeroed_with_font() {
    let cpu = CPU::new();
    assert_eq!(cpu.program_counter, 0x200);
    assert_eq!(cpu.index_register, 0);
    assert_eq!(cpu.v_register, [0u8; 16]);
    assert!(cpu.stack.is_empty());
    assert_eq!(cpu.delay_timer, 0);
    assert_eq!(cpu.sound_timer, 0);
    assert_eq!(cpu.display_buffer, [false; SCREEN_BUFF_SIZE]);
    assert!(!cpu.display_update_flag);
    assert_eq!(cpu.key_states, [false; 16]);
    assert_eq!(cpu.ram[0..80], FONT_SET_1);
    assert_eq!(cpu.ram[0], 0xF0);
    assert_eq!(cpu.ram[79], 0x80);
    assert!(cpu.ram[80..].iter().all(|b| *b == 0));
}

#[test]
fn reset_returns_to_the_initial_state() {
    let mut cpu = CPU::new();
    cpu.load_rom_from_buffer(&vec![0x61, 0x07, 0x22, 0x08, 0xD0, 0x05]).unwrap();
    cpu.ram[3] = 0x55;
    cpu.cycle().unwrap();
    cpu.cycle().unwrap();
    cpu.keypress(4, true).unwrap();
    cpu.delay_timer = 9;
    cpu.sound_timer = 3;
    cpu.index_register = 0x123;
    cpu.display_buffer[17] = true;
    cpu.display_update_flag = true;
    cpu.reset();
    assert!(same_state(&cpu, &CPU::new()));
}

#[test]
fn load_accepts_the_largest_rom() {
    let mut cpu = CPU::new();
    let mut rom = vec![0x11u8; 2560];
    rom[0] = 0xAB;
    rom[2559] = 0xCD;
    assert_eq!(rom.len(), ROM_SIZE_MAX);
    assert_eq!(cpu.load_rom_from_buffer(&rom), Ok(()));
    assert_eq!(cpu.ram[0x200], 0xAB);
    assert_eq!(cpu.ram[0x201], 0x11);
    assert_eq!(cpu.ram[0x200 + 2559], 0xCD);
    assert_eq!(cpu.ram[0x200 + 2560], 0);
    assert_eq!(cpu.ram[0x1FF], 0);
    assert_eq!(cpu.ram[0..80], FONT_SET_1);
    assert_eq!(cpu.program_counter, START_ADDRESS);
}

#[test]
fn load_refuses_one_byte_more() {
    let mut cpu = CPU::new();
    cpu.ram[0x300] = 0x77;
    let before = cpu.clone();
    let rom = vec![0x11u8; 2561];
    assert_eq!(cpu.load_rom_from_buffer(&rom), Err(CoreError::RomSizeError));
    assert!(same_state(&cpu, &before));
}

#[test]
fn load_of_nothing_changes_nothing() {
    let mut cpu = CPU::new();
    let before = cpu.clone();
    assert_eq!(cpu.load_rom_from_buffer(&Vec::new()), Ok(()));
    assert!(same_state(&cpu, &before));
}

#[test]
fn load_leaves_the_rest_of_the_machine() {
    let mut cpu = CPU::new();
    cpu.v_register[3] = 9;
    cpu.ram[0x204] = 0x99;
    cpu.load_rom_from_buffer(&vec![1, 2, 3, 4]).unwrap();
    assert_eq!(cpu.ram[0x200..0x205], [1, 2, 3, 4, 0x99]);
    assert_eq!(cpu.v_register[3], 9);
}

#[test]
fn keypress_latches_each_key() {
    let mut cpu = CPU::new();
    assert_eq!(cpu.keypress(0, true), Ok(()));
    assert_eq!(cpu.keypress(15, true), Ok(()));
    assert!(cpu.key_states[0]);
    assert!(cpu.key_states[15]);
    assert!(!cpu.key_states[1]);
    assert_eq!(cpu.keypress(15, false), Ok(()));
    assert!(!cpu.key_states[15]);
    assert!(cpu.key_states[0]);
}

#[test]
fn keypress_refuses_key_sixteen() {
    let mut cpu = CPU::new();
    let before = cpu.clone();
    assert_eq!(cpu.keypress(16, true), Err(CoreError::KeyIndexError { key: 16 }));
    assert_eq!(cpu.keypress(17, true), Err(CoreError::KeyIndexError { key: 17 }));
    assert_eq!(
        cpu.keypress(usize::MAX, false),
        Err(CoreError::KeyIndexError { key: usize::MAX })
    );
    assert!(same_state(&cpu, &before));
}

#[test]
fn timers_stop_at_zero() {
    let mut cpu = CPU::new();
    cpu.delay_timer = 1;
    cpu.sound_timer = 255;
    cpu.tick_timers();
    assert_eq!(cpu.delay_timer, 0);
    assert_eq!(cpu.sound_timer, 254);
    cpu.tick_timers();
    assert_eq!(cpu.delay_timer, 0);
    assert_eq!(cpu.sound_timer, 253);
}

#[test]
fn timers_do_not_depend_on_cycles() {
    let mut cpu = CPU::new();
    cpu.delay_timer = 3;
    let before = cpu.clone();
    cpu.tick_timers();
    assert_eq!(cpu.delay_timer, 2);
    cpu.delay_timer = 3;
    assert!(same_state(&cpu, &before));
}

#[test]
fn fetch_reads_big_endian_and_advances() {
    let mut cpu = CPU::new();
    cpu.ram[4094] = 0x12;
    cpu.ram[4095] = 0x34;
    cpu.program_counter = 4094;
    assert_eq!(cpu.fetch(), Ok(0x1234));
    assert_eq!(cpu.program_counter, 4096);
}

#[test]
fn fetch_refuses_the_last_byte() {
    let mut cpu = CPU::new();
    cpu.program_counter = 4095;
    let before = cpu.clone();
    assert_eq!(cpu.fetch(), Err(CoreError::ProgramCounterError { index: 4095 }));
    assert!(same_state(&cpu, &before));
}

#[test]
fn cycle_refuses_every_counter_from_the_last_byte_on() {
    for pc in [4095u16, 4096, 4097, 0x8000, 0xFFFE, 0xFFFF] {
        let mut cpu = CPU::new();
        cpu.v_register[2] = 7;
        cpu.program_counter = pc;
        let before = cpu.clone();
        assert_eq!(cpu.cycle(), Err(CoreError::ProgramCounterError { index: pc }));
        assert!(same_state(&cpu, &before));
    }
}

#[test]
fn cycle_runs_a_program() {
    let mut cpu = CPU::new();
    cpu.load_rom_from_buffer(&vec![0x60, 0x05, 0x70, 0x03, 0x30, 0x08, 0x00, 0x00, 0x12, 0x00])
        .unwrap();
    assert_eq!(cpu.cycle(), Ok(()));
    assert_eq!(cpu.v_register[0], 5);
    assert_eq!(cpu.program_counter, 0x202);
    assert_eq!(cpu.cycle(), Ok(()));
    assert_eq!(cpu.v_register[0], 8);
    assert_eq!(cpu.program_counter, 0x204);
    assert_eq!(cpu.cycle(), Ok(()));
    assert_eq!(cpu.program_counter, 0x208);
    assert_eq!(cpu.cycle(), Ok(()));
    assert_eq!(cpu.program_counter, 0x200);
}

#[test]
fn cycle_at_the_last_word_of_memory() {
    let mut cpu = CPU::new();
    cpu.ram[4094] = 0x6A;
    cpu.ram[4095] = 0x42;
    cpu.program_counter = 4094;
    assert_eq!(cpu.cycle(), Ok(()));
    assert_eq!(cpu.v_register[0xA], 0x42);
    assert_eq!(cpu.program_counter, 4096);
    assert_eq!(cpu.cycle(), Err(CoreError::ProgramCounterError { index: 4096 }));
}

#[test]
fn cycle_keeps_the_fetch_when_the_instruction_fails() {
    let mut cpu = CPU::new();
    cpu.load_rom_from_buffer(&vec![0x00, 0xEE]).unwrap();
    let mut expected = cpu.clone();
    expected.program_counter = 0x202;
    assert_eq!(cpu.cycle(), Err(CoreError::StackEmptyError));
    assert!(same_state(&cpu, &expected));
}

#[test]
fn cycle_waits_for_a_key_in_place() {
    let mut cpu = CPU::new();
    cpu.load_rom_from_buffer(&vec![0xF3, 0x0A, 0x63, 0x01]).unwrap();
    let before = cpu.clone();
    for _ in 0..5 {
        assert_eq!(cpu.cycle(), Ok(()));
        assert!(same_state(&cpu, &before));
    }
    cpu.keypress(0xB, true).unwrap();
    assert_eq!(cpu.cycle(), Ok(()));
    assert_eq!(cpu.v_register[3], 0xB);
    assert_eq!(cpu.program_counter, 0x202);
}

#[test]
fn display_is_the_framebuffer() {
    let mut cpu = CPU::new();
    assert_eq!(cpu.get_display().len(), 2048);
    assert!(cpu.get_display().iter().all(|p| !*p));
    cpu.execute(0xD005).unwrap();
    let shown = cpu.get_display();
    assert_eq!(shown, &cpu.display_buffer[..]);
    assert!(shown[0] && shown[3] && shown[64] && !shown[65]);
}

#[test]
fn draw_sprite_flips_and_reports() {
    let mut display = [false; SCREEN_BUFF_SIZE];
    let sprite = vec![0b1010_0000u8, 0b0000_0001];
    assert!(!draw_sprite(&mut display, &sprite, 2, 1));
    let lit: Vec<usize> = (0..SCREEN_BUFF_SIZE).filter(|p| display[*p]).collect();
    assert_eq!(lit, vec![64 + 2, 64 + 4, 128 + 9]);
    let single = vec![0b0010_0000u8];
    assert!(draw_sprite(&mut display, &single, 2, 1));
    let lit: Vec<usize> = (0..SCREEN_BUFF_SIZE).filter(|p| display[*p]).collect();
    assert_eq!(lit, vec![64 + 2, 128 + 9]);
}

#[test]
fn draw_sprite_wraps_large_coordinates() {
    let mut display = [false; SCREEN_BUFF_SIZE];
    let sprite = vec![0b1000_0001u8, 0b1000_0000];
    assert!(!draw_sprite(&mut display, &sprite, 255, 255));
    let lit: Vec<usize> = (0..SCREEN_BUFF_SIZE).filter(|p| display[*p]).collect();
    assert_eq!(lit, vec![63, 31 * 64 + 6, 31 * 64 + 63]);
}

#[test]
fn draw_sprite_of_no_rows() {
    let mut display = [true; SCREEN_BUFF_SIZE];
    assert!(!draw_sprite(&mut display, &Vec::new(), 5, 5));
    assert_eq!(display, [true; SCREEN_BUFF_SIZE]);
}

#[test]
fn draw_sprite_twice_restores() {
    let mut display = [false; SCREEN_BUFF_SIZE];
    for p in (0..SCREEN_BUFF_SIZE).step_by(3) {
        display[p] = true;
    }
    let before = display;
    let sprite: Vec<u8> = (1..=15u8).map(|r| r.wrapping_mul(37)).collect();
    let first = draw_sprite(&mut display, &sprite, 60, 25);
    assert!(first);
    assert_ne!(display, before);
    let second = draw_sprite(&mut display, &sprite, 60, 25);
    assert!(second);
    assert_eq!(display, before);
}

#[test]
fn memory_has_4096_bytes() {
    let cpu = CPU::new();
    assert_eq!(cpu.ram.len(), RAM_SIZE);
    assert_eq!(RAM_SIZE, 4096);
}
