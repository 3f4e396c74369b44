use chip8::cpu::get_digits;
use chip8::{Chip8Error, Cpu, Instruction, Memory};

fn cpu_with_rom(rom: Vec<u8>, use_copy_shift: bool) -> Cpu {
    Cpu::new(Memory::new(rom).unwrap(), use_copy_shift)
}

fn set(cpu: &mut Cpu, register: u8, value: u8) {
    cpu.execute(Instruction::SetVX { register, value }).unwrap();
}

#[test]
fn test_get_digits() {
    assert_eq!(get_digits(156), vec![1, 5, 6]);
    assert_eq!(get_digits(150), vec![1, 5, 0]);
    assert_eq!(get_digits(0), vec![]);
}

#[test]
fn get_digits_single_and_largest() {
    assert_eq!(get_digits(7), vec![7]);
    assert_eq!(get_digits(255), vec![2, 5, 5]);
}

#[test]
fn decode_examples() {
    let cpu = cpu_with_rom(vec![], false);
    assert_eq!(cpu.decode(0x00E0), Ok(Instruction::ClearScreen));
    assert_eq!(cpu.decode(0x1ABC), Ok(Instruction::Jump(0xABC)));
    assert_eq!(cpu.decode(0x6A12), Ok(Instruction::SetVX { register: 0xA, value: 0x12 }));
}

#[test]
fn decode_every_class() {
    let cpu = cpu_with_rom(vec![], false);
    assert_eq!(cpu.decode(0x00EE), Ok(Instruction::SubroutineReturn));
    assert_eq!(cpu.decode(0x2345), Ok(Instruction::SubroutineCall(0x345)));
    assert_eq!(cpu.decode(0x3A07), Ok(Instruction::NoopImmediateEq { register: 0xA, value: 7 }));
    assert_eq!(cpu.decode(0x4B08), Ok(Instruction::NoopImmediateNotEq { register: 0xB, value: 8 }));
    assert_eq!(cpu.decode(0x5120), Ok(Instruction::NoopRegisterEq { register_x: 1, register_y: 2 }));
    assert_eq!(cpu.decode(0x9120), Ok(Instruction::NoopRegisterNotEq { register_x: 1, register_y: 2 }));
    assert_eq!(cpu.decode(0x7C05), Ok(Instruction::AddVX { register: 0xC, value: 5 }));
    assert_eq!(cpu.decode(0x8340), Ok(Instruction::ArithmeticSet { register_x: 3, register_y: 4 }));
    assert_eq!(cpu.decode(0x8341), Ok(Instruction::ArithmeticOr { register_x: 3, register_y: 4 }));
    assert_eq!(cpu.decode(0x8342), Ok(Instruction::ArithmeticAnd { register_x: 3, register_y: 4 }));
    assert_eq!(cpu.decode(0x8343), Ok(Instruction::ArithmeticXor { register_x: 3, register_y: 4 }));
    assert_eq!(cpu.decode(0x8344), Ok(Instruction::ArithmeticAdd { register_x: 3, register_y: 4 }));
    assert_eq!(cpu.decode(0x8345), Ok(Instruction::ArithmeticSubtractXY { register_x: 3, register_y: 4 }));
    assert_eq!(cpu.decode(0x8346), Ok(Instruction::ArithmeticShiftRight { register_x: 3, register_y: 4 }));
    assert_eq!(cpu.decode(0x8347), Ok(Instruction::ArithmeticSubtractYX { register_x: 3, register_y: 4 }));
    assert_eq!(cpu.decode(0x834E), Ok(Instruction::ArithmeticShiftLeft { register_x: 3, register_y: 4 }));
    assert_eq!(cpu.decode(0xA123), Ok(Instruction::SetI(0x123)));
    assert_eq!(cpu.decode(0xD125), Ok(Instruction::DisplayDraw { register_x: 1, register_y: 2, n: 5 }));
    assert_eq!(cpu.decode(0xE59E), Ok(Instruction::NoopVXDown(5)));
    assert_eq!(cpu.decode(0xE5A1), Ok(Instruction::NoopVXNotDown(5)));
    assert_eq!(cpu.decode(0xF607), Ok(Instruction::SetVXFromDelayTimer(6)));
    assert_eq!(cpu.decode(0xF615), Ok(Instruction::SetDelayTimerFromVX(6)));
    assert_eq!(cpu.decode(0xF618), Ok(Instruction::SetSoundTimerFromVX(6)));
    assert_eq!(cpu.decode(0xF61E), Ok(Instruction::AddToIndex(6)));
    assert_eq!(cpu.decode(0xF629), Ok(Instruction::FontCharacter(6)));
    assert_eq!(cpu.decode(0xF633), Ok(Instruction::BcdConversion(6)));
    assert_eq!(cpu.decode(0xF655), Ok(Instruction::Store(6)));
    assert_eq!(cpu.decode(0xF665), Ok(Instruction::Load(6)));
}

#[test]
fn decode_unknown_words_fail() {
    let cpu = cpu_with_rom(vec![], false);
    for raw in [0x0000u16, 0x0123, 0x5121, 0x9121, 0x8008, 0xB123, 0xC123, 0xE500, 0xF500, 0xFFFF] {
        assert_eq!(cpu.decode(raw), Err(Chip8Error::DecodeFailure(raw)));
    }
}

#[test]
fn fetch_reads_big_endian_and_advances() {
    let mut cpu = cpu_with_rom(vec![0x12, 0x34, 0xAB, 0xCD], false);
    assert_eq!(cpu.program_counter(), 0x200);
    assert_eq!(cpu.fetch(), Ok(0x1234));
    assert_eq!(cpu.program_counter(), 0x202);
    assert_eq!(cpu.fetch(), Ok(0xABCD));
    assert_eq!(cpu.program_counter(), 0x204);
}

#[test]
fn fetch_past_memory_is_an_error() {
    let mut cpu = cpu_with_rom(vec![], false);
    cpu.execute(Instruction::Jump(0xFFF)).unwrap();
    assert_eq!(cpu.fetch(), Err(Chip8Error::AddressOutOfRange(4096)));
    assert_eq!(cpu.program_counter(), 0xFFF);
    cpu.execute(Instruction::Jump(0x1200)).unwrap();
    assert_eq!(cpu.fetch(), Err(Chip8Error::AddressOutOfRange(0x1200)));
}

#[test]
fn add_immediate_wraps_and_keeps_flag() {
    let mut cpu = cpu_with_rom(vec![], false);
    set(&mut cpu, 0xF, 7);
    set(&mut cpu, 2, 250);
    cpu.execute(Instruction::AddVX { register: 2, value: 10 }).unwrap();
    assert_eq!(cpu.register(2), 4);
    assert_eq!(cpu.register(0xF), 7);
    cpu.execute(Instruction::AddVX { register: 2, value: 3 }).unwrap();
    assert_eq!(cpu.register(2), 7);
    assert_eq!(cpu.register(0xF), 7);
}

#[test]
fn add_registers_sets_carry() {
    let mut cpu = cpu_with_rom(vec![], false);
    set(&mut cpu, 0, 200);
    set(&mut cpu, 1, 100);
    cpu.execute(Instruction::ArithmeticAdd { register_x: 0, register_y: 1 }).unwrap();
    assert_eq!(cpu.register(0), 44);
    assert_eq!(cpu.register(0xF), 1);
    set(&mut cpu, 0, 155);
    cpu.execute(Instruction::ArithmeticAdd { register_x: 0, register_y: 1 }).unwrap();
    assert_eq!(cpu.register(0), 255);
    assert_eq!(cpu.register(0xF), 0);
    set(&mut cpu, 0, 156);
    cpu.execute(Instruction::ArithmeticAdd { register_x: 0, register_y: 1 }).unwrap();
    assert_eq!(cpu.register(0), 0);
    assert_eq!(cpu.register(0xF), 1);
}

#[test]
fn subtract_flag_includes_equal_values() {
    let mut cpu = cpu_with_rom(vec![], false);
    set(&mut cpu, 0, 5);
    set(&mut cpu, 1, 3);
    cpu.execute(Instruction::ArithmeticSubtractXY { register_x: 0, register_y: 1 }).unwrap();
    assert_eq!(cpu.register(0), 2);
    assert_eq!(cpu.register(0xF), 1);

    set(&mut cpu, 0, 3);
    set(&mut cpu, 1, 5);
    cpu.execute(Instruction::ArithmeticSubtractXY { register_x: 0, register_y: 1 }).unwrap();
    assert_eq!(cpu.register(0), 254);
    assert_eq!(cpu.register(0xF), 0);

    set(&mut cpu, 0, 5);
    set(&mut cpu, 1, 5);
    cpu.execute(Instruction::ArithmeticSubtractXY { register_x: 0, register_y: 1 }).unwrap();
    assert_eq!(cpu.register(0), 0);
    assert_eq!(cpu.register(0xF), 1);
}

#[test]
fn subtract_reversed() {
    let mut cpu = cpu_with_rom(vec![], false);
    set(&mut cpu, 0, 3);
    set(&mut cpu, 1, 5);
    cpu.execute(Instruction::ArithmeticSubtractYX { register_x: 0, register_y: 1 }).unwrap();
    assert_eq!(cpu.register(0), 2);
    assert_eq!(cpu.register(0xF), 1);
    set(&mut cpu, 0, 9);
    cpu.execute(Instruction::ArithmeticSubtractYX { register_x: 0, register_y: 1 }).unwrap();
    assert_eq!(cpu.register(0), 252);
    assert_eq!(cpu.register(0xF), 0);
}

#[test]
fn logic_operations() {
    let mut cpu = cpu_with_rom(vec![], false);
    set(&mut cpu, 0, 0b1100);
    set(&mut cpu, 1, 0b1010);
    cpu.execute(Instruction::ArithmeticOr { register_x: 0, register_y: 1 }).unwrap();
    assert_eq!(cpu.register(0), 0b1110);
    set(&mut cpu, 0, 0b1100);
    cpu.execute(Instruction::ArithmeticAnd { register_x: 0, register_y: 1 }).unwrap();
    assert_eq!(cpu.register(0), 0b1000);
    set(&mut cpu, 0, 0b1100);
    cpu.execute(Instruction::ArithmeticXor { register_x: 0, register_y: 1 }).unwrap();
    assert_eq!(cpu.register(0), 0b0110);
    cpu.execute(Instruction::ArithmeticSet { register_x: 0, register_y: 1 }).unwrap();
    assert_eq!(cpu.register(0), 0b1010);
}

#[test]
fn shifts_in_place() {
    let mut cpu = cpu_with_rom(vec![], false);
    set(&mut cpu, 0, 0b1000_0011);
    set(&mut cpu, 1, 0b0000_0100);
    cpu.execute(Instruction::ArithmeticShiftRight { register_x: 0, register_y: 1 }).unwrap();
    assert_eq!(cpu.register(0), 0b0100_0001);
    assert_eq!(cpu.register(0xF), 1);
    set(&mut cpu, 0, 0b1000_0011);
    cpu.execute(Instruction::ArithmeticShiftLeft { register_x: 0, register_y: 1 }).unwrap();
    assert_eq!(cpu.register(0), 0b0000_0110);
    assert_eq!(cpu.register(0xF), 1);
    cpu.execute(Instruction::ArithmeticShiftLeft { register_x: 0, register_y: 1 }).unwrap();
    assert_eq!(cpu.register(0), 0b0000_1100);
    assert_eq!(cpu.register(0xF), 0);
}

#[test]
fn shifts_with_copy_quirk() {
    let mut cpu = cpu_with_rom(vec![], true);
    set(&mut cpu, 0, 0xFF);
    set(&mut cpu, 1, 0b0000_0100);
    cpu.execute(Instruction::ArithmeticShiftRight { register_x: 0, register_y: 1 }).unwrap();
    assert_eq!(cpu.register(0), 0b0000_0010);
    assert_eq!(cpu.register(0xF), 0);
    set(&mut cpu, 1, 0b1000_0001);
    cpu.execute(Instruction::ArithmeticShiftLeft { register_x: 0, register_y: 1 }).unwrap();
    assert_eq!(cpu.register(0), 0b0000_0010);
    assert_eq!(cpu.register(0xF), 1);
}

#[test]
fn store_then_load_restores_registers() {
    let mut cpu = cpu_with_rom(vec![], false);
    for r in 0..4u8 {
        set(&mut cpu, r, 10 * r + 1);
    }
    set(&mut cpu, 4, 99);
    cpu.execute(Instruction::SetI(0x300)).unwrap();
    cpu.execute(Instruction::Store(3)).unwrap();
    assert_eq!(cpu.memory().get(0x300), Ok(1));
    assert_eq!(cpu.memory().get(0x303), Ok(31));
    assert_eq!(cpu.memory().get(0x304), Ok(0));
    assert_eq!(cpu.index_register(), 0x300);
    for r in 0..5u8 {
        set(&mut cpu, r, 0);
    }
    cpu.execute(Instruction::Load(3)).unwrap();
    for r in 0..4u8 {
        assert_eq!(cpu.register(r), 10 * r + 1);
    }
    assert_eq!(cpu.register(4), 0);
    assert_eq!(cpu.index_register(), 0x300);
}

#[test]
fn store_past_memory_is_an_error() {
    let mut cpu = cpu_with_rom(vec![], false);
    set(&mut cpu, 0, 1);
    cpu.execute(Instruction::SetI(0xFFE)).unwrap();
    assert_eq!(cpu.execute(Instruction::Store(2)), Err(Chip8Error::AddressOutOfRange(4096)));
    assert_eq!(cpu.memory().get(0xFFE), Ok(0));
    assert_eq!(cpu.execute(Instruction::Load(2)), Err(Chip8Error::AddressOutOfRange(4096)));
    assert_eq!(cpu.execute(Instruction::Store(1)), Ok(()));
    assert_eq!(cpu.memory().get(0xFFE), Ok(1));
}

#[test]
fn draw_then_redraw_collides() {
    let mut cpu = cpu_with_rom(vec![0xFF], false);
    cpu.execute(Instruction::SetI(0x200)).unwrap();
    set(&mut cpu, 0, 0);
    set(&mut cpu, 1, 0);
    set(&mut cpu, 0xF, 9);
    let draw = Instruction::DisplayDraw { register_x: 0, register_y: 1, n: 1 };
    cpu.execute(draw).unwrap();
    for x in 0..8u8 {
        assert!(cpu.vram().get_cell(x, 0));
    }
    assert!(!cpu.vram().get_cell(8, 0));
    assert!(!cpu.vram().get_cell(0, 1));
    assert_eq!(cpu.register(0xF), 0);
    cpu.execute(draw).unwrap();
    for x in 0..8u8 {
        assert!(!cpu.vram().get_cell(x, 0));
    }
    assert_eq!(cpu.register(0xF), 1);
}

#[test]
fn draw_clips_at_edges_and_wraps_start() {
    // A font glyph "0": 0xF0, 0x90, 0x90, 0x90, 0xF0.
    let mut cpu = cpu_with_rom(vec![], false);
    set(&mut cpu, 2, 0);
    cpu.execute(Instruction::FontCharacter(2)).unwrap();
    assert_eq!(cpu.index_register(), 0x50);
    set(&mut cpu, 0, 62 + 64);
    set(&mut cpu, 1, 29 + 32);
    cpu.execute(Instruction::DisplayDraw { register_x: 0, register_y: 1, n: 5 }).unwrap();
    assert!(cpu.vram().get_cell(62, 29));
    assert!(cpu.vram().get_cell(63, 29));
    assert!(cpu.vram().get_cell(62, 30));
    assert!(!cpu.vram().get_cell(63, 30));
    assert!(cpu.vram().get_cell(62, 31));
    assert!(!cpu.vram().get_cell(0, 29));
    assert!(!cpu.vram().get_cell(62, 0));
    assert_eq!(cpu.register(0xF), 0);
    cpu.execute(Instruction::ClearScreen).unwrap();
    assert!(!cpu.vram().get_cell(62, 29));
}

#[test]
fn draw_sprite_past_memory_is_an_error() {
    let mut cpu = cpu_with_rom(vec![], false);
    cpu.execute(Instruction::SetI(0xFFE)).unwrap();
    set(&mut cpu, 0, 0);
    let r = cpu.execute(Instruction::DisplayDraw { register_x: 0, register_y: 0, n: 3 });
    assert_eq!(r, Err(Chip8Error::AddressOutOfRange(4096)));
    // Only rows above the bottom edge are read.
    set(&mut cpu, 1, 30);
    let r = cpu.execute(Instruction::DisplayDraw { register_x: 0, register_y: 1, n: 3 });
    assert_eq!(r, Ok(()));
}

#[test]
fn bcd_writes_decimal_digits() {
    let mut cpu = cpu_with_rom(vec![], false);
    set(&mut cpu, 3, 156);
    cpu.execute(Instruction::SetI(0x400)).unwrap();
    cpu.execute(Instruction::BcdConversion(3)).unwrap();
    assert_eq!(cpu.memory().get(0x400), Ok(1));
    assert_eq!(cpu.memory().get(0x401), Ok(5));
    assert_eq!(cpu.memory().get(0x402), Ok(6));
}

#[test]
fn bcd_of_zero_writes_nothing() {
    let mut cpu = cpu_with_rom(vec![], false);
    set(&mut cpu, 3, 42);
    cpu.execute(Instruction::SetI(0x400)).unwrap();
    cpu.execute(Instruction::Store(0)).unwrap();
    set(&mut cpu, 3, 0);
    cpu.execute(Instruction::BcdConversion(3)).unwrap();
    assert_eq!(cpu.memory().get(0x400), Ok(0));
    assert_eq!(cpu.memory().get(0x401), Ok(0));
}

#[test]
fn timers_count_down_to_zero() {
    let mut cpu = cpu_with_rom(vec![], false);
    assert!(!cpu.should_play_sound());
    set(&mut cpu, 0, 2);
    set(&mut cpu, 1, 3);
    cpu.execute(Instruction::SetSoundTimerFromVX(0)).unwrap();
    cpu.execute(Instruction::SetDelayTimerFromVX(1)).unwrap();
    assert!(cpu.should_play_sound());
    cpu.tick_timers();
    assert_eq!(cpu.sound_timer(), 1);
    assert_eq!(cpu.delay_timer(), 2);
    assert!(cpu.should_play_sound());
    cpu.tick_timers();
    assert_eq!(cpu.sound_timer(), 0);
    assert!(!cpu.should_play_sound());
    cpu.tick_timers();
    cpu.tick_timers();
    assert_eq!(cpu.sound_timer(), 0);
    assert_eq!(cpu.delay_timer(), 0);
    cpu.execute(Instruction::SetVXFromDelayTimer(5)).unwrap();
    assert_eq!(cpu.register(5), 0);
}

#[test]
fn call_and_return() {
    let mut cpu = cpu_with_rom(vec![], false);
    assert_eq!(cpu.execute(Instruction::SubroutineReturn), Err(Chip8Error::StackUnderflow));
    cpu.execute(Instruction::SubroutineCall(0x345)).unwrap();
    assert_eq!(cpu.program_counter(), 0x345);
    assert_eq!(cpu.stack_depth(), 1);
    cpu.execute(Instruction::SubroutineReturn).unwrap();
    assert_eq!(cpu.program_counter(), 0x200);
    assert_eq!(cpu.stack_depth(), 0);
}

#[test]
fn skips_advance_past_next_instruction() {
    let mut cpu = cpu_with_rom(vec![], false);
    set(&mut cpu, 0, 7);
    set(&mut cpu, 1, 7);
    cpu.execute(Instruction::NoopImmediateEq { register: 0, value: 7 }).unwrap();
    assert_eq!(cpu.program_counter(), 0x202);
    cpu.execute(Instruction::NoopImmediateNotEq { register: 0, value: 7 }).unwrap();
    assert_eq!(cpu.program_counter(), 0x202);
    cpu.execute(Instruction::NoopRegisterEq { register_x: 0, register_y: 1 }).unwrap();
    assert_eq!(cpu.program_counter(), 0x204);
    cpu.execute(Instruction::NoopRegisterNotEq { register_x: 0, register_y: 1 }).unwrap();
    assert_eq!(cpu.program_counter(), 0x204);
}

#[test]
fn key_skips() {
    let mut cpu = cpu_with_rom(vec![], false);
    set(&mut cpu, 0, 0xC);
    cpu.execute(Instruction::NoopVXDown(0)).unwrap();
    assert_eq!(cpu.program_counter(), 0x200);
    cpu.execute(Instruction::NoopVXNotDown(0)).unwrap();
    assert_eq!(cpu.program_counter(), 0x202);
    cpu.keypad().on_down(chip8::PhysicalKey::Num4);
    cpu.execute(Instruction::NoopVXDown(0)).unwrap();
    assert_eq!(cpu.program_counter(), 0x204);
    set(&mut cpu, 1, 16);
    assert_eq!(cpu.execute(Instruction::NoopVXDown(1)), Err(Chip8Error::InvalidKey(16)));
}

#[test]
fn index_register_operations() {
    let mut cpu = cpu_with_rom(vec![], false);
    set(&mut cpu, 0, 0x1A);
    cpu.execute(Instruction::FontCharacter(0)).unwrap();
    assert_eq!(cpu.index_register(), 0x50 + 10 * 5);
    set(&mut cpu, 0xF, 0);
    cpu.execute(Instruction::SetI(0xFFE)).unwrap();
    set(&mut cpu, 1, 1);
    cpu.execute(Instruction::AddToIndex(1)).unwrap();
    assert_eq!(cpu.index_register(), 0xFFF);
    assert_eq!(cpu.register(0xF), 0);
    cpu.execute(Instruction::AddToIndex(1)).unwrap();
    assert_eq!(cpu.index_register(), 0x1000);
    assert_eq!(cpu.register(0xF), 1);
}

#[test]
fn unwired_instructions_are_refused() {
    let mut cpu = cpu_with_rom(vec![], false);
    assert_eq!(cpu.execute(Instruction::GetKey(0)), Err(Chip8Error::Unsupported));
    assert_eq!(
        cpu.execute(Instruction::Random { register_x: 0, mask: 0xFF }),
        Err(Chip8Error::Unsupported)
    );
    assert_eq!(
        cpu.execute(Instruction::JumpWithOffset { register_x: 0, address: 0x300 }),
        Err(Chip8Error::Unsupported)
    );
    assert_eq!(cpu.program_counter(), 0x200);
}
