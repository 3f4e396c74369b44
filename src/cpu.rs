use vstd::prelude::*;
use crate::error::Chip8Error;
use crate::instruction::{decoded, nibble, lemma_nibble_bound, Instruction};
use crate::keypad::Keypad;
use crate::memory::{Memory, FONT_START, MEMORY_SIZE};
use crate::vram::{cell, VRAM, SCREEN_HEIGHT, SCREEN_WIDTH};

verus! {

/// The flag register, written as a side effect by arithmetic and drawing.
pub const FLAG_REGISTER: u8 = 0x0F;

/// Where execution starts.
pub const PROGRAM_START: u16 = 0x200;

/// The whole machine state as mathematical values.
pub struct CpuView {
    pub pc: u16,
    pub memory: Seq<u8>,
    pub registers: Seq<u8>,
    pub index: u16,
    pub display: Seq<bool>,
    pub stack: Seq<u16>,
    pub use_copy_shift: bool,
    pub sound_timer: u8,
    pub delay_timer: u8,
    pub keys: Seq<bool>,
}

/// The decimal digits of `n`, most significant first; zero has none.
pub open spec fn decimal_digits(n: nat) -> Seq<u8>
    decreases n,
{
    if n == 0 {
        Seq::empty()
    } else {
        decimal_digits(n / 10).push((n % 10) as u8)
    }
}

/// The CHIP-8 interpreter: memory, registers, display, keypad, timers and call stack.
pub struct Cpu {
    pc: u16,
    memory: Memory,
    registers: [u8; 16],
    index_register: u16,
    vram: VRAM,
    call_stack: Vec<u16>,
    use_copy_shift: bool,
    sound_timer: u8,
    delay_timer: u8,
    keypad: Keypad,
}

impl View for Cpu {
    type V = CpuView;

    closed spec fn view(&self) -> CpuView {
        CpuView {
            pc: self.pc,
            memory: self.memory@,
            registers: self.registers@,
            index: self.index_register,
            display: self.vram@,
            stack: self.call_stack@,
            use_copy_shift: self.use_copy_shift,
            sound_timer: self.sound_timer,
            delay_timer: self.delay_timer,
            keys: self.keypad@,
        }
    }
}

/// The 4-bit field of `value` at position `i`, counted from the least significant.
fn get_nibble_from_right(i: u8, value: u16) -> (r: u8)
    requires
        i < 4,
    ensures
        r == nibble(value, i),
        r < 16,
{
    proof {
        lemma_nibble_bound(value, i);
    }
    let shift: u16 = 4 * (i as u16);
    ((value >> shift) & 0x000F) as u8
}

/// The decimal digits of `value`, most significant first; zero gives none.
pub fn get_digits(value: u8) -> (r: Vec<u8>)
    ensures
        r@ == decimal_digits(value as nat),
{
    let mut digits: Vec<u8> = Vec::new();
    let mut remaining: u8 = value;
    while remaining > 0
        invariant
            decimal_digits(value as nat) == decimal_digits(remaining as nat) + digits@,
        decreases remaining,
    {
        let ghost before = digits@;
        digits.insert(0, remaining % 10);
        assert(decimal_digits(remaining as nat) == decimal_digits((remaining / 10) as nat).push(
            (remaining % 10) as u8,
        ));
        assert(decimal_digits(remaining as nat) + before =~= decimal_digits((remaining / 10) as nat)
            + digits@);
        remaining /= 10;
    }
    assert(decimal_digits(0) + digits@ =~= digits@);
    digits
}

impl Cpu {
    /// The fixed sizes: 4096 bytes, 16 registers, 64x32 cells, 16 keys.
    pub proof fn lemma_view_lens(&self)
        ensures
            self@.memory.len() == 4096,
            self@.registers.len() == 16,
            self@.display.len() == 2048,
            self@.keys.len() == 16,
    {
        self.memory.lemma_view_len();
        self.vram.lemma_view_len();
        self.keypad.lemma_view_len();
    }

    /// A machine that starts at 0x200 with `memory`, zeroed registers and timers, an
    /// empty stack, a clear display and every key up.
    pub fn new(memory: Memory, use_copy_shift: bool) -> (r: Cpu)
        ensures
            r@ == (CpuView {
                pc: PROGRAM_START,
                memory: memory@,
                registers: Seq::new(16, |i: int| 0u8),
                index: 0,
                display: Seq::new(2048, |i: int| false),
                stack: Seq::empty(),
                use_copy_shift,
                sound_timer: 0,
                delay_timer: 0,
                keys: Seq::new(16, |i: int| false),
            }),
    {
        let cpu = Cpu {
            pc: PROGRAM_START,
            memory,
            registers: [0; 16],
            index_register: 0,
            vram: VRAM::new(),
            call_stack: Vec::new(),
            use_copy_shift,
            sound_timer: 0,
            delay_timer: 0,
            keypad: Keypad::new(),
        };
        assert(cpu.registers@ =~= Seq::new(16, |i: int| 0u8));
        cpu
    }

    pub fn vram(&self) -> (r: &VRAM)
        ensures
            r@ == self@.display,
    {
        &self.vram
    }

    /// The keypad, for the host to report key events; nothing else changes.
    pub fn keypad(&mut self) -> (r: &mut Keypad)
        ensures
            r@ == old(self)@.keys,
            final(self)@ == (CpuView { keys: final(r)@, ..old(self)@ }),
    {
        &mut self.keypad
    }

    /// Reads the big-endian word at the program counter and advances it by 2; a word
    /// that does not lie inside memory is an error and changes nothing.
    pub fn fetch(&mut self) -> (r: Result<u16, Chip8Error>)
        ensures
            old(self)@.pc + 1 < MEMORY_SIZE ==> r == Ok::<u16, Chip8Error>(
                (old(self)@.memory[old(self)@.pc as int] * 256 + old(self)@.memory[old(
                    self,
                )@.pc + 1]) as u16,
            ) && final(self)@ == (CpuView { pc: (old(self)@.pc + 2) as u16, ..old(self)@ }),
            old(self)@.pc + 1 >= MEMORY_SIZE ==> r == Err::<u16, Chip8Error>(
                Chip8Error::AddressOutOfRange(first_invalid(old(self)@.pc)),
            ) && final(self)@ == old(self)@,
    {
        if self.pc_as_index() + 1 >= MEMORY_SIZE {
            return Err(
                Chip8Error::AddressOutOfRange(
                    if self.pc_as_index() >= MEMORY_SIZE {
                        self.pc as u32
                    } else {
                        MEMORY_SIZE as u32
                    },
                ),
            );
        }
        let first_byte = self.memory.read(self.pc_as_index());
        let second_byte = self.memory.read(self.pc_as_index() + 1);
        self.pc += 2;

        let mut result: u16 = first_byte as u16;
        result = result << 8;
        result |= second_byte as u16;
        assert(((first_byte as u16) << 8u16) | (second_byte as u16) == first_byte * 256u16
            + second_byte) by (bit_vector)
            requires
                first_byte <= 255,
        ;
        Ok(result)
    }

    /// The instruction that `raw` encodes, or `DecodeFailure` carrying `raw`.
    pub fn decode(&self, raw: u16) -> (r: Result<Instruction, Chip8Error>)
        ensures
            r == match decoded(raw) {
                Some(i) => Ok::<Instruction, Chip8Error>(i),
                None => Err(Chip8Error::DecodeFailure(raw)),
            },
            r matches Ok(i) ==> i.well_formed(),
    {
        let x = get_nibble_from_right(2, raw);
        let y = get_nibble_from_right(1, raw);
        let n = get_nibble_from_right(0, raw);
        let kk = (raw & 0x00FF) as u8;
        let nnn = raw & 0x0FFF;
        let unknown = Err(Chip8Error::DecodeFailure(raw));
        match get_nibble_from_right(3, raw) {
            0x0 => if raw == 0x00E0 {
                Ok(Instruction::ClearScreen)
            } else if raw == 0x00EE {
                Ok(Instruction::SubroutineReturn)
            } else {
                unknown
            },
            0x1 => Ok(Instruction::Jump(nnn)),
            0x2 => Ok(Instruction::SubroutineCall(nnn)),
            0x3 => Ok(Instruction::NoopImmediateEq { register: x, value: kk }),
            0x4 => Ok(Instruction::NoopImmediateNotEq { register: x, value: kk }),
            0x5 => if n == 0 {
                Ok(Instruction::NoopRegisterEq { register_x: x, register_y: y })
            } else {
                unknown
            },
            0x6 => Ok(Instruction::SetVX { register: x, value: kk }),
            0x7 => Ok(Instruction::AddVX { register: x, value: kk }),
            0x8 => match n {
                0x0 => Ok(Instruction::ArithmeticSet { register_x: x, register_y: y }),
                0x1 => Ok(Instruction::ArithmeticOr { register_x: x, register_y: y }),
                0x2 => Ok(Instruction::ArithmeticAnd { register_x: x, register_y: y }),
                0x3 => Ok(Instruction::ArithmeticXor { register_x: x, register_y: y }),
                0x4 => Ok(Instruction::ArithmeticAdd { register_x: x, register_y: y }),
                0x5 => Ok(Instruction::ArithmeticSubtractXY { register_x: x, register_y: y }),
                0x6 => Ok(Instruction::ArithmeticShiftRight { register_x: x, register_y: y }),
                0x7 => Ok(Instruction::ArithmeticSubtractYX { register_x: x, register_y: y }),
                0xE => Ok(Instruction::ArithmeticShiftLeft { register_x: x, register_y: y }),
                _ => unknown,
            },
            0x9 => if n == 0 {
                Ok(Instruction::NoopRegisterNotEq { register_x: x, register_y: y })
            } else {
                unknown
            },
            0xA => Ok(Instruction::SetI(nnn)),
            0xD => Ok(Instruction::DisplayDraw { register_x: x, register_y: y, n }),
            0xE => if kk == 0x9E {
                Ok(Instruction::NoopVXDown(x))
            } else if kk == 0xA1 {
                Ok(Instruction::NoopVXNotDown(x))
            } else {
                unknown
            },
            0xF => match kk {
                0x07 => Ok(Instruction::SetVXFromDelayTimer(x)),
                0x15 => Ok(Instruction::SetDelayTimerFromVX(x)),
                0x18 => Ok(Instruction::SetSoundTimerFromVX(x)),
                0x1E => Ok(Instruction::AddToIndex(x)),
                0x29 => Ok(Instruction::FontCharacter(x)),
                0x33 => Ok(Instruction::BcdConversion(x)),
                0x55 => Ok(Instruction::Store(x)),
                0x65 => Ok(Instruction::Load(x)),
                _ => unknown,
            },
            _ => unknown,
        }
    }

    /// Counts both timers down by one, each only while it is above zero.
    pub fn tick_timers(&mut self)
        ensures
            final(self)@ == ticked(old(self)@),
    {
        if self.sound_timer > 0 {
            self.sound_timer -= 1;
        }
        if self.delay_timer > 0 {
            self.delay_timer -= 1;
        }
    }

    /// Whether the host should sound its tone: the sound timer is running.
    pub fn should_play_sound(&self) -> (r: bool)
        ensures
            r == (self@.sound_timer > 0),
    {
        self.sound_timer > 0
    }

    /// Applies one instruction. On an error nothing has changed: no instruction is
    /// partly applied.
    pub fn execute(&mut self, instruction: Instruction) -> (r: Result<(), Chip8Error>)
        requires
            instruction.well_formed(),
        ensures
            executed(old(self)@, instruction, r, final(self)@),
    {
        match instruction {
            Instruction::ClearScreen
            | Instruction::Jump(_)
            | Instruction::SubroutineReturn
            | Instruction::SubroutineCall(_)
            | Instruction::SetI(_)
            | Instruction::FontCharacter(_)
            | Instruction::AddToIndex(_)
            | Instruction::SetVXFromDelayTimer(_)
            | Instruction::SetDelayTimerFromVX(_)
            | Instruction::SetSoundTimerFromVX(_) => self.execute_flow(instruction),
            Instruction::NoopImmediateEq { .. }
            | Instruction::NoopImmediateNotEq { .. }
            | Instruction::NoopRegisterEq { .. }
            | Instruction::NoopRegisterNotEq { .. }
            | Instruction::NoopVXDown(_)
            | Instruction::NoopVXNotDown(_) => self.execute_skip(instruction),
            Instruction::SetVX { .. }
            | Instruction::AddVX { .. }
            | Instruction::ArithmeticSet { .. }
            | Instruction::ArithmeticOr { .. }
            | Instruction::ArithmeticAnd { .. }
            | Instruction::ArithmeticXor { .. }
            | Instruction::ArithmeticAdd { .. }
            | Instruction::ArithmeticSubtractXY { .. }
            | Instruction::ArithmeticSubtractYX { .. }
            | Instruction::ArithmeticShiftRight { .. }
            | Instruction::ArithmeticShiftLeft { .. } => self.execute_register_op(instruction),
            Instruction::DisplayDraw { register_x, register_y, n } => self.draw_sprite(
                register_x,
                register_y,
                n,
            ),
            Instruction::Store(inclusive_end_register_x) => self.store(inclusive_end_register_x),
            Instruction::Load(inclusive_end_register_x) => self.load(inclusive_end_register_x),
            Instruction::BcdConversion(register_x) => {
                let value_x = self.get_register(register_x);
                let digits = get_digits(value_x);
                self.write_bytes(&digits)
            },
            // Declared, but their behaviour is not settled yet.
            Instruction::JumpWithOffset { .. }
            | Instruction::GetKey(_)
            | Instruction::Random { .. } => Err(Chip8Error::Unsupported),
        }
    }

    /// Control flow, the index register and the timers.
    fn execute_flow(&mut self, instruction: Instruction) -> (r: Result<(), Chip8Error>)
        requires
            instruction.well_formed(),
            is_flow(instruction),
        ensures
            executed(old(self)@, instruction, r, final(self)@),
    {
        proof {
            self.lemma_view_lens();
        }
        match instruction {
            Instruction::ClearScreen => self.vram.clear(),
            Instruction::Jump(address) => {
                self.pc = address;
            },
            Instruction::SubroutineReturn => {
                match self.call_stack.pop() {
                    Some(address) => self.pc = address,
                    None => return Err(Chip8Error::StackUnderflow),
                }
            },
            Instruction::SubroutineCall(address) => {
                self.call_stack.push(self.pc);
                self.pc = address;
            },
            Instruction::SetI(value) => {
                self.index_register = value;
            },
            Instruction::FontCharacter(register_x) => {
                // Only the last nibble names a glyph
                let value_x = self.get_register(register_x);
                let character = value_x & 0x0F;
                assert(value_x & 0x0F == value_x % 16) by (bit_vector);
                self.index_register = self.memory.get_font_address(character);
            },
            Instruction::AddToIndex(register_x) => {
                let value_x = self.get_register(register_x);
                self.index_register = self.index_register.wrapping_add(value_x as u16);
                // Interpreters differ on this flag; this one raises it past 0xFFF.
                if self.index_register as usize >= MEMORY_SIZE {
                    self.set_register(FLAG_REGISTER, 1);
                }
            },
            Instruction::SetVXFromDelayTimer(register_x) => {
                let delay = self.delay_timer;
                self.set_register(register_x, delay);
            },
            Instruction::SetDelayTimerFromVX(register_x) => {
                self.delay_timer = self.get_register(register_x);
            },
            Instruction::SetSoundTimerFromVX(register_x) => {
                self.sound_timer = self.get_register(register_x);
            },
            _ => {},
        }
        Ok(())
    }

    /// The instructions that may skip the next one.
    fn execute_skip(&mut self, instruction: Instruction) -> (r: Result<(), Chip8Error>)
        requires
            instruction.well_formed(),
            is_skip(instruction),
        ensures
            executed(old(self)@, instruction, r, final(self)@),
    {
        proof {
            self.lemma_view_lens();
        }
        match instruction {
            Instruction::NoopImmediateEq { register, value } => {
                if self.get_register(register) == value {
                    self.do_noop();
                }
            },
            Instruction::NoopImmediateNotEq { register, value } => {
                if self.get_register(register) != value {
                    self.do_noop();
                }
            },
            Instruction::NoopRegisterEq { register_x, register_y } => {
                if self.get_register(register_x) == self.get_register(register_y) {
                    self.do_noop();
                }
            },
            Instruction::NoopRegisterNotEq { register_x, register_y } => {
                if self.get_register(register_x) != self.get_register(register_y) {
                    self.do_noop();
                }
            },
            Instruction::NoopVXDown(register_x) => {
                let value = self.get_register(register_x);
                if value >= 16 {
                    return Err(Chip8Error::InvalidKey(value));
                }
                let keycode = Keypad::require_from(value as u32);
                if self.keypad.is_down(keycode) {
                    self.do_noop();
                }
            },
            Instruction::NoopVXNotDown(register_x) => {
                let value = self.get_register(register_x);
                if value >= 16 {
                    return Err(Chip8Error::InvalidKey(value));
                }
                let keycode = Keypad::require_from(value as u32);
                if !self.keypad.is_down(keycode) {
                    self.do_noop();
                }
            },
            _ => {},
        }
        Ok(())
    }

    /// Register loads and arithmetic.
    fn execute_register_op(&mut self, instruction: Instruction) -> (r: Result<(), Chip8Error>)
        requires
            instruction.well_formed(),
            is_register_op(instruction),
        ensures
            executed(old(self)@, instruction, r, final(self)@),
    {
        proof {
            self.lemma_view_lens();
        }
        let ghost before = self@;
        match instruction {
            Instruction::SetVX { register, value } => {
                self.set_register(register, value);
            },
            Instruction::AddVX { register, value } => {
                let existing_value = self.get_register(register);
                self.set_register(register, existing_value.wrapping_add(value));
            },
            Instruction::ArithmeticSet { register_x, register_y } => {
                let value_y = self.get_register(register_y);
                self.set_register(register_x, value_y);
            },
            Instruction::ArithmeticOr { register_x, register_y } => {
                let value_x = self.get_register(register_x);
                let value_y = self.get_register(register_y);
                self.set_register(register_x, value_x | value_y);
            },
            Instruction::ArithmeticAnd { register_x, register_y } => {
                let value_x = self.get_register(register_x);
                let value_y = self.get_register(register_y);
                self.set_register(register_x, value_x & value_y);
            },
            Instruction::ArithmeticXor { register_x, register_y } => {
                let value_x = self.get_register(register_x);
                let value_y = self.get_register(register_y);
                self.set_register(register_x, value_x ^ value_y);
            },
            Instruction::ArithmeticAdd { register_x, register_y } => {
                let value_x = self.get_register(register_x);
                let value_y = self.get_register(register_y);
                self.set_register(register_x, value_x.wrapping_add(value_y));
                let did_overflow = value_x > 0xFF - value_y;
                let carry = if did_overflow {
                    1
                } else {
                    0
                };
                self.set_register(FLAG_REGISTER, carry);
            },
            Instruction::ArithmeticSubtractXY { register_x, register_y } => {
                let value_x = self.get_register(register_x);
                let value_y = self.get_register(register_y);
                self.set_register(register_x, value_x.wrapping_sub(value_y));
                // No borrow when the two are equal: the flag is set on `>=`.
                let carry = if value_x >= value_y {
                    1
                } else {
                    0
                };
                self.set_register(FLAG_REGISTER, carry);
            },
            Instruction::ArithmeticSubtractYX { register_x, register_y } => {
                let value_x = self.get_register(register_x);
                let value_y = self.get_register(register_y);
                self.set_register(register_x, value_y.wrapping_sub(value_x));
                let carry = if value_y >= value_x {
                    1
                } else {
                    0
                };
                self.set_register(FLAG_REGISTER, carry);
            },
            Instruction::ArithmeticShiftRight { register_x, register_y } => {
                if self.use_copy_shift {
                    let value_y = self.get_register(register_y);
                    self.set_register(register_x, value_y);
                }
                let value_x = self.get_register(register_x);
                let carry = value_x & 0x01;
                self.set_register(register_x, value_x >> 1u8);
                self.set_register(FLAG_REGISTER, carry);
            },
            Instruction::ArithmeticShiftLeft { register_x, register_y } => {
                if self.use_copy_shift {
                    let value_y = self.get_register(register_y);
                    self.set_register(register_x, value_y);
                }
                let value_x = self.get_register(register_x);
                let carry = value_x >> 7u8;
                self.set_register(register_x, value_x << 1u8);
                self.set_register(FLAG_REGISTER, carry);
            },
            _ => {},
        }
        assert(self@.registers =~= step(before, instruction)->Ok_0.registers);
        Ok(())
    }

    /// XOR-draws the `n`-row sprite at the index register at (VX mod 64, VY mod 32),
    /// clipped at the right and bottom edges; the flag register tells of a collision.
    fn draw_sprite(&mut self, register_x: u8, register_y: u8, n: u8) -> (r: Result<
        (),
        Chip8Error,
    >)
        requires
            register_x < 16,
            register_y < 16,
        ensures
            match draw(
                old(self)@,
                reg(old(self)@, register_x) as int % 64,
                reg(old(self)@, register_y) as int % 32,
                n as int,
            ) {
                Ok(v) => r == Ok::<(), Chip8Error>(()) && final(self)@ == v,
                Err(e) => r == Err::<(), Chip8Error>(e) && final(self)@ == old(self)@,
            },
    {
        proof {
            self.lemma_view_lens();
        }
        let x0 = self.get_register(register_x) % SCREEN_WIDTH;
        let y0 = self.get_register(register_y) % SCREEN_HEIGHT;
        let rows: u8 = if n < SCREEN_HEIGHT - y0 {
            n
        } else {
            SCREEN_HEIGHT - y0
        };
        let start = self.index_register as usize;
        if rows > 0 && start + rows as usize > MEMORY_SIZE {
            return Err(out_of_range(self.index_register));
        }
        let ghost before = self@;
        let ghost mem = before.memory;
        let ghost index = before.index;
        let mut collided = false;
        let mut i: u8 = 0;
        let mut y: u8 = y0;
        while i < n && y < SCREEN_HEIGHT
            invariant
                before.memory.len() == 4096,
                before.registers.len() == 16,
                before.display.len() == 2048,
                mem == before.memory,
                index == before.index,
                self@ == (CpuView { display: self@.display, ..before }),
                self@.display.len() == 2048,
                x0 < 64,
                y0 < 32,
                i <= n,
                y == y0 + i,
                start == index,
                rows == rows_read(y0 as int, n as int),
                rows == 0 || start + rows <= MEMORY_SIZE,
                forall|cx: int, cy: int|
                    0 <= cx < 64 && 0 <= cy < 32 ==> self@.display[cell(cx, cy)] == (
                    before.display[cell(cx, cy)] != hit_before(
                        mem,
                        index,
                        x0 as int,
                        y0 as int,
                        n as int,
                        i as int,
                        0,
                        cx,
                        cy,
                    )),
                collided == collided_before(before, x0 as int, y0 as int, n as int, i as int, 0),
            decreases n - i,
        {
            // Get the row's byte of sprite data, counting from the index register
            let sprite_data = self.memory.read(start + i as usize);
            let mut col: u8 = 0;
            let mut x: u8 = x0;
            // Each pixel of the row, most significant bit first, up to the right edge
            while col < 8 && x < SCREEN_WIDTH
                invariant
                    before.memory.len() == 4096,
                    before.registers.len() == 16,
                    before.display.len() == 2048,
                    mem == before.memory,
                    index == before.index,
                    self@ == (CpuView { display: self@.display, ..before }),
                    self@.display.len() == 2048,
                    x0 < 64,
                    y0 < 32,
                    i < n,
                    y == y0 + i,
                    y < 32,
                    col <= 8,
                    x == x0 + col,
                    sprite_data == mem[index + i],
                    forall|cx: int, cy: int|
                        0 <= cx < 64 && 0 <= cy < 32 ==> self@.display[cell(cx, cy)] == (
                        before.display[cell(cx, cy)] != hit_before(
                            mem,
                            index,
                            x0 as int,
                            y0 as int,
                            n as int,
                            i as int,
                            col as int,
                            cx,
                            cy,
                        )),
                    collided == collided_before(
                        before,
                        x0 as int,
                        y0 as int,
                        n as int,
                        i as int,
                        col as int,
                    ),
                decreases 8 - col,
            {
                let ghost was_collided = collided;
                let sprite_bit_enabled = (sprite_data >> (7 - col)) & 1 == 1;
                proof {
                    lemma_hit_step(
                        mem,
                        index,
                        x0 as int,
                        y0 as int,
                        n as int,
                        i as int,
                        col as int,
                        sprite_bit_enabled,
                    );
                }
                if sprite_bit_enabled {
                    // A set pixel on a lit cell turns it off: a collision
                    if self.vram.get_cell(x, y) {
                        self.vram.set_cell(x, y, false);
                        collided = true;
                        proof {
                            assert(hit_before(
                                mem,
                                index,
                                x0 as int,
                                y0 as int,
                                n as int,
                                i as int,
                                col + 1,
                                x as int,
                                y as int,
                            ) && before.display[cell(x as int, y as int)]);
                        }
                    } else {
                        self.vram.set_cell(x, y, true);
                    }
                }
                proof {
                    assert forall|cx: int, cy: int|
                        0 <= cx < 64 && 0 <= cy < 32 implies self@.display[cell(cx, cy)] == (
                        before.display[cell(cx, cy)] != hit_before(
                            mem,
                            index,
                            x0 as int,
                            y0 as int,
                            n as int,
                            i as int,
                            col + 1,
                            cx,
                            cy,
                        )) by {
                        if cx != x || cy != y {
                            assert(cell(cx, cy) != cell(x as int, y as int));
                        }
                    }
                    if was_collided {
                        lemma_collided_grows(before, x0 as int, y0 as int, n as int, i as int, col as int, i as int, col + 1);
                    } else if !collided {
                        if collided_before(before, x0 as int, y0 as int, n as int, i as int, col + 1) {
                            let (cx, cy) = choose|cx: int, cy: int|
                                0 <= cx < 64 && 0 <= cy < 32 && #[trigger] hit_before(
                                    mem,
                                    index,
                                    x0 as int,
                                    y0 as int,
                                    n as int,
                                    i as int,
                                    col + 1,
                                    cx,
                                    cy,
                                ) && before.display[cell(cx, cy)];
                            assert(hit_before(
                                mem,
                                index,
                                x0 as int,
                                y0 as int,
                                n as int,
                                i as int,
                                col as int,
                                cx,
                                cy,
                            ));
                        }
                    }
                }
                x += 1;
                col += 1;
            }
            proof {
                lemma_row_done(mem, index, x0 as int, y0 as int, n as int, i as int, col as int);
                lemma_collided_same(before, x0 as int, y0 as int, n as int, i as int, col as int, i + 1, 0);
            }
            y += 1;
            i += 1;
        }
        proof {
            lemma_rows_done(mem, index, x0 as int, y0 as int, n as int, i as int);
        }
        let flag = if collided {
            1
        } else {
            0
        };
        self.set_register(FLAG_REGISTER, flag);
        proof {
            let ghost x0i = x0 as int;
            let ghost y0i = y0 as int;
            assert(x0i == reg(before, register_x) as int % 64);
            assert(y0i == reg(before, register_y) as int % 32);
            assert forall|k: int| 0 <= k < 2048 implies self@.display[k] == (before.display[k]
                != sprite_hit(mem, index, x0i, y0i, n as int, k % 64, k / 64)) by {
                assert(cell(k % 64, k / 64) == k);
            }
            assert(self@.display =~= draw(before, x0i, y0i, n as int)->Ok_0.display);
            assert(collides(before, x0i, y0i, n as int) == collided_before(before, x0i, y0i, n as int, i as int, 0)) by {
                if collides(before, x0i, y0i, n as int) {
                    let (cx, cy) = choose|cx: int, cy: int|
                        0 <= cx < 64 && 0 <= cy < 32 && #[trigger] sprite_hit(before.memory, before.index, x0i, y0i, n as int, cx, cy)
                            && before.display[cell(cx, cy)];
                    assert(hit_before(mem, index, x0i, y0i, n as int, i as int, 0, cx, cy));
                }
                if collided_before(before, x0i, y0i, n as int, i as int, 0) {
                    let (cx, cy) = choose|cx: int, cy: int|
                        0 <= cx < 64 && 0 <= cy < 32 && #[trigger] hit_before(mem, index, x0i, y0i, n as int, i as int, 0, cx, cy)
                            && before.display[cell(cx, cy)];
                    assert(sprite_hit(before.memory, before.index, x0i, y0i, n as int, cx, cy));
                }
            }
        }
        Ok(())
    }

    /// Copies registers 0 to `x` into memory from the index register on.
    fn store(&mut self, x: u8) -> (r: Result<(), Chip8Error>)
        requires
            x < 16,
        ensures
            match write_at_index(old(self)@, old(self)@.registers.take(x + 1)) {
                Ok(v) => r == Ok::<(), Chip8Error>(()) && final(self)@ == v,
                Err(e) => r == Err::<(), Chip8Error>(e) && final(self)@ == old(self)@,
            },
    {
        proof {
            self.lemma_view_lens();
        }
        // NOTE: For old CHIP-8 versions, index register should be incremented.
        let start = self.index_register as usize;
        if start + x as usize + 1 > MEMORY_SIZE {
            return Err(out_of_range(self.index_register));
        }
        let ghost before = self@;
        let mut i: u8 = 0;
        while i <= x
            invariant
                i <= x + 1,
                x < 16,
                start == before.index,
                start + x + 1 <= MEMORY_SIZE,
                before.memory.len() == 4096,
                before.registers.len() == 16,
                self@ == (CpuView { memory: self@.memory, ..before }),
                self@.memory.len() == 4096,
                forall|a: int|
                    0 <= a < 4096 ==> self@.memory[a] == if start <= a < start + i {
                        before.registers[a - start]
                    } else {
                        before.memory[a]
                    },
            decreases x + 1 - i,
        {
            let value = self.get_register(i);
            self.memory.set(start + i as usize, value);
            i += 1;
        }
        assert(self@.memory =~= write_at_index(before, before.registers.take(x + 1))->Ok_0.memory);
        Ok(())
    }

    /// Loads registers 0 to `x` from memory at the index register on.
    fn load(&mut self, x: u8) -> (r: Result<(), Chip8Error>)
        requires
            x < 16,
        ensures
            match load_registers(old(self)@, x) {
                Ok(v) => r == Ok::<(), Chip8Error>(()) && final(self)@ == v,
                Err(e) => r == Err::<(), Chip8Error>(e) && final(self)@ == old(self)@,
            },
    {
        proof {
            self.lemma_view_lens();
        }
        // NOTE: For old CHIP-8 versions, index register should be incremented.
        let start = self.index_register as usize;
        if start + x as usize + 1 > MEMORY_SIZE {
            return Err(out_of_range(self.index_register));
        }
        let ghost before = self@;
        let mut i: u8 = 0;
        while i <= x
            invariant
                i <= x + 1,
                x < 16,
                start == before.index,
                start + x + 1 <= MEMORY_SIZE,
                before.memory.len() == 4096,
                before.registers.len() == 16,
                self@ == (CpuView { registers: self@.registers, ..before }),
                self@.registers.len() == 16,
                forall|r: int|
                    0 <= r < 16 ==> self@.registers[r] == if r < i {
                        before.memory[start + r]
                    } else {
                        before.registers[r]
                    },
            decreases x + 1 - i,
        {
            let value = self.memory.read(start + i as usize);
            self.set_register(i, value);
            i += 1;
        }
        assert(self@.registers =~= load_registers(before, x)->Ok_0.registers);
        Ok(())
    }

    /// Writes `bytes` to memory from the index register on.
    fn write_bytes(&mut self, bytes: &Vec<u8>) -> (r: Result<(), Chip8Error>)
        ensures
            match write_at_index(old(self)@, bytes@) {
                Ok(v) => r == Ok::<(), Chip8Error>(()) && final(self)@ == v,
                Err(e) => r == Err::<(), Chip8Error>(e) && final(self)@ == old(self)@,
            },
    {
        proof {
            self.lemma_view_lens();
        }
        let start = self.index_register as usize;
        if bytes.len() > 0 && (start >= MEMORY_SIZE || bytes.len() > MEMORY_SIZE - start) {
            return Err(out_of_range(self.index_register));
        }
        let ghost before = self@;
        let mut i: usize = 0;
        while i < bytes.len()
            invariant
                i <= bytes@.len(),
                start == before.index,
                bytes@.len() == 0 || start + bytes@.len() <= MEMORY_SIZE,
                before.memory.len() == 4096,
                self@ == (CpuView { memory: self@.memory, ..before }),
                self@.memory.len() == 4096,
                forall|a: int|
                    0 <= a < 4096 ==> self@.memory[a] == if start <= a < start + i {
                        bytes@[a - start]
                    } else {
                        before.memory[a]
                    },
            decreases bytes@.len() - i,
        {
            self.memory.set(start + i, bytes[i]);
            i += 1;
        }
        assert(self@.memory =~= write_at_index(before, bytes@)->Ok_0.memory);
        Ok(())
    }

    /// Register `register`'s value.
    pub fn register(&self, register: u8) -> (r: u8)
        requires
            register < 16,
        ensures
            r == self@.registers[register as int],
    {
        self.get_register(register)
    }

    pub fn program_counter(&self) -> (r: u16)
        ensures
            r == self@.pc,
    {
        self.pc
    }

    pub fn index_register(&self) -> (r: u16)
        ensures
            r == self@.index,
    {
        self.index_register
    }

    pub fn delay_timer(&self) -> (r: u8)
        ensures
            r == self@.delay_timer,
    {
        self.delay_timer
    }

    pub fn sound_timer(&self) -> (r: u8)
        ensures
            r == self@.sound_timer,
    {
        self.sound_timer
    }

    pub fn memory(&self) -> (r: &Memory)
        ensures
            r@ == self@.memory,
    {
        &self.memory
    }

    /// How many return addresses the call stack holds.
    pub fn stack_depth(&self) -> (r: usize)
        ensures
            r == self@.stack.len(),
    {
        self.call_stack.len()
    }

    fn set_register(&mut self, register: u8, value: u8)
        requires
            register < 16,
        ensures
            final(self)@ == (CpuView {
                registers: old(self)@.registers.update(register as int, value),
                ..old(self)@
            }),
    {
        self.registers[register as usize] = value;
    }

    fn get_register(&self, register: u8) -> (r: u8)
        requires
            register < 16,
        ensures
            r == self@.registers[register as int],
    {
        self.registers[register as usize]
    }

    fn pc_as_index(&self) -> (r: usize)
        ensures
            r == self@.pc,
    {
        self.pc as usize
    }

    fn do_noop(&mut self)
        ensures
            final(self)@ == (CpuView { pc: old(self)@.pc.wrapping_add(2), ..old(self)@ }),
    {
        self.pc = self.pc.wrapping_add(2);
    }
}

/// The sprite pixels on cells visited before row `row`, column `col` of the sprite.
spec fn hit_before(
    memory: Seq<u8>,
    index: u16,
    x0: int,
    y0: int,
    n: int,
    row: int,
    col: int,
    cx: int,
    cy: int,
) -> bool {
    sprite_hit(memory, index, x0, y0, n, cx, cy) && (cy < y0 + row || (cy == y0 + row && cx < x0
        + col))
}

/// Whether a lit cell was hit before row `row`, column `col` of the sprite.
spec fn collided_before(s: CpuView, x0: int, y0: int, n: int, row: int, col: int) -> bool {
    exists|cx: int, cy: int|
        0 <= cx < 64 && 0 <= cy < 32 && #[trigger] hit_before(
            s.memory,
            s.index,
            x0,
            y0,
            n,
            row,
            col,
            cx,
            cy,
        ) && s.display[cell(cx, cy)]
}

/// Visiting one more pixel adds exactly that cell when its sprite bit is set.
proof fn lemma_hit_step(
    memory: Seq<u8>,
    index: u16,
    x0: int,
    y0: int,
    n: int,
    row: int,
    col: int,
    bit: bool,
)
    requires
        0 <= row < n,
        0 <= col < 8,
        y0 + row < 32,
        x0 + col < 64,
        0 <= x0,
        bit == sprite_bit(memory[index + row], col),
    ensures
        forall|cx: int, cy: int|
            #[trigger] hit_before(memory, index, x0, y0, n, row, col + 1, cx, cy) == (hit_before(
                memory,
                index,
                x0,
                y0,
                n,
                row,
                col,
                cx,
                cy,
            ) || (bit && cx == x0 + col && cy == y0 + row)),
        !hit_before(memory, index, x0, y0, n, row, col, x0 + col, y0 + row),
{
}

/// Once a row has met its eighth pixel or the right edge, the next row begins.
proof fn lemma_row_done(
    memory: Seq<u8>,
    index: u16,
    x0: int,
    y0: int,
    n: int,
    row: int,
    col: int,
)
    requires
        col == 8 || x0 + col >= 64,
    ensures
        forall|cx: int, cy: int|
            #[trigger] hit_before(memory, index, x0, y0, n, row + 1, 0, cx, cy) == hit_before(
                memory,
                index,
                x0,
                y0,
                n,
                row,
                col,
                cx,
                cy,
            ),
{
}

/// Once the rows have run out or met the bottom edge, every pixel has been visited.
proof fn lemma_rows_done(memory: Seq<u8>, index: u16, x0: int, y0: int, n: int, row: int)
    requires
        row == n || y0 + row >= 32,
    ensures
        forall|cx: int, cy: int|
            #[trigger] sprite_hit(memory, index, x0, y0, n, cx, cy) == hit_before(
                memory,
                index,
                x0,
                y0,
                n,
                row,
                0,
                cx,
                cy,
            ),
{
}

proof fn lemma_collided_grows(
    s: CpuView,
    x0: int,
    y0: int,
    n: int,
    row: int,
    col: int,
    row2: int,
    col2: int,
)
    requires
        collided_before(s, x0, y0, n, row, col),
        row < row2 || (row == row2 && col <= col2),
    ensures
        collided_before(s, x0, y0, n, row2, col2),
{
    let (cx, cy) = choose|cx: int, cy: int|
        0 <= cx < 64 && 0 <= cy < 32 && #[trigger] hit_before(
            s.memory,
            s.index,
            x0,
            y0,
            n,
            row,
            col,
            cx,
            cy,
        ) && s.display[cell(cx, cy)];
    assert(hit_before(s.memory, s.index, x0, y0, n, row2, col2, cx, cy));
}

proof fn lemma_collided_same(
    s: CpuView,
    x0: int,
    y0: int,
    n: int,
    row: int,
    col: int,
    row2: int,
    col2: int,
)
    requires
        forall|cx: int, cy: int|
            #[trigger] hit_before(s.memory, s.index, x0, y0, n, row2, col2, cx, cy) == hit_before(
                s.memory,
                s.index,
                x0,
                y0,
                n,
                row,
                col,
                cx,
                cy,
            ),
    ensures
        collided_before(s, x0, y0, n, row2, col2) == collided_before(s, x0, y0, n, row, col),
{
    if collided_before(s, x0, y0, n, row, col) {
        let (cx, cy) = choose|cx: int, cy: int|
            0 <= cx < 64 && 0 <= cy < 32 && #[trigger] hit_before(
                s.memory,
                s.index,
                x0,
                y0,
                n,
                row,
                col,
                cx,
                cy,
            ) && s.display[cell(cx, cy)];
        assert(hit_before(s.memory, s.index, x0, y0, n, row2, col2, cx, cy));
    }
    if collided_before(s, x0, y0, n, row2, col2) {
        let (cx, cy) = choose|cx: int, cy: int|
            0 <= cx < 64 && 0 <= cy < 32 && #[trigger] hit_before(
                s.memory,
                s.index,
                x0,
                y0,
                n,
                row2,
                col2,
                cx,
                cy,
            ) && s.display[cell(cx, cy)];
        assert(hit_before(s.memory, s.index, x0, y0, n, row, col, cx, cy));
    }
}

fn out_of_range(start: u16) -> (r: Chip8Error)
    ensures
        r == Chip8Error::AddressOutOfRange(first_invalid(start)),
{
    if start as usize >= MEMORY_SIZE {
        Chip8Error::AddressOutOfRange(start as u32)
    } else {
        Chip8Error::AddressOutOfRange(MEMORY_SIZE as u32)
    }
}

/// The first address at or beyond the end of memory met by an access that starts at
/// `start` and does not fit.
pub open spec fn first_invalid(start: u16) -> u32 {
    if start >= MEMORY_SIZE {
        start as u32
    } else {
        MEMORY_SIZE as u32
    }
}

/// Register `r`'s value in `s`.
pub open spec fn reg(s: CpuView, r: u8) -> u8 {
    s.registers[r as int]
}

/// `s` with register `r` set to `v`.
pub open spec fn with_reg(s: CpuView, r: u8, v: u8) -> CpuView {
    CpuView { registers: s.registers.update(r as int, v), ..s }
}

/// `s` with the program counter moved past the next instruction when `cond` holds.
pub open spec fn skip_if(s: CpuView, cond: bool) -> CpuView {
    if cond {
        CpuView { pc: s.pc.wrapping_add(2), ..s }
    } else {
        s
    }
}

/// An access of `len` bytes from `start` stays inside memory (an empty one always does).
pub open spec fn span_ok(start: u16, len: int) -> bool {
    len == 0 || start + len <= MEMORY_SIZE
}

/// Bit `col` of a sprite row, counting from the most significant (the leftmost pixel).
pub open spec fn sprite_bit(byte: u8, col: int) -> bool {
    (byte >> ((7 - col) as u8)) & 1u8 == 1u8
}

/// Whether a sprite of `n` rows read from `memory` at `index` and drawn with its top left
/// at (`x0`, `y0`) has a set pixel on the cell (`cx`, `cy`); pixels past the right or
/// bottom edge are clipped.
pub open spec fn sprite_hit(
    memory: Seq<u8>,
    index: u16,
    x0: int,
    y0: int,
    n: int,
    cx: int,
    cy: int,
) -> bool {
    &&& x0 <= cx < x0 + 8
    &&& cx < SCREEN_WIDTH
    &&& y0 <= cy < y0 + n
    &&& cy < SCREEN_HEIGHT
    &&& sprite_bit(memory[index + (cy - y0)], cx - x0)
}

/// Whether drawing that sprite turns off a cell that was lit.
pub open spec fn collides(s: CpuView, x0: int, y0: int, n: int) -> bool {
    exists|cx: int, cy: int|
        0 <= cx < 64 && 0 <= cy < 32 && #[trigger] sprite_hit(s.memory, s.index, x0, y0, n, cx, cy)
            && s.display[cell(cx, cy)]
}

/// The sprite rows that a draw reads: those above the bottom edge.
pub open spec fn rows_read(y0: int, n: int) -> int {
    if n < SCREEN_HEIGHT - y0 {
        n
    } else {
        SCREEN_HEIGHT - y0
    }
}

/// XOR-draws the sprite of `n` rows at the index register onto the display at (`x0`, `y0`),
/// with the flag register telling whether a lit cell was turned off.
pub open spec fn draw(s: CpuView, x0: int, y0: int, n: int) -> Result<CpuView, Chip8Error> {
    if span_ok(s.index, rows_read(y0, n)) {
        Ok(
            CpuView {
                display: Seq::new(
                    2048,
                    |k: int| s.display[k] != sprite_hit(s.memory, s.index, x0, y0, n, k % 64, k / 64),
                ),
                registers: s.registers.update(
                    FLAG_REGISTER as int,
                    if collides(s, x0, y0, n) {
                        1u8
                    } else {
                        0u8
                    },
                ),
                ..s
            },
        )
    } else {
        Err(Chip8Error::AddressOutOfRange(first_invalid(s.index)))
    }
}

/// `s` with the bytes of `bytes` written to memory from the index register on.
pub open spec fn write_at_index(s: CpuView, bytes: Seq<u8>) -> Result<CpuView, Chip8Error> {
    if span_ok(s.index, bytes.len() as int) {
        Ok(
            CpuView {
                memory: Seq::new(
                    4096,
                    |a: int|
                        if s.index <= a < s.index + bytes.len() {
                            bytes[a - s.index]
                        } else {
                            s.memory[a]
                        },
                ),
                ..s
            },
        )
    } else {
        Err(Chip8Error::AddressOutOfRange(first_invalid(s.index)))
    }
}

/// `s` with registers 0 to `x` loaded from memory at the index register on.
pub open spec fn load_registers(s: CpuView, x: u8) -> Result<CpuView, Chip8Error> {
    if span_ok(s.index, x + 1) {
        Ok(
            CpuView {
                registers: Seq::new(
                    16,
                    |r: int|
                        if r <= x {
                            s.memory[s.index + r]
                        } else {
                            s.registers[r]
                        },
                ),
                ..s
            },
        )
    } else {
        Err(Chip8Error::AddressOutOfRange(first_invalid(s.index)))
    }
}

/// The value of `v` shifted one bit left, and the bit shifted out.
pub open spec fn shifted_left(v: u8) -> (u8, u8) {
    (v << 1u8, v >> 7u8)
}

/// The value of `v` shifted one bit right, and the bit shifted out.
pub open spec fn shifted_right(v: u8) -> (u8, u8) {
    (v >> 1u8, v & 1u8)
}

/// The state after executing `ins` in `s`, or the error that stops it (and leaves `s` as
/// it was).
pub open spec fn step(s: CpuView, ins: Instruction) -> Result<CpuView, Chip8Error> {
    match ins {
        Instruction::ClearScreen => Ok(CpuView { display: Seq::new(2048, |i: int| false), ..s }),
        Instruction::Jump(a) => Ok(CpuView { pc: a, ..s }),
        Instruction::SubroutineReturn => if s.stack.len() == 0 {
            Err(Chip8Error::StackUnderflow)
        } else {
            Ok(CpuView { pc: s.stack.last(), stack: s.stack.drop_last(), ..s })
        },
        Instruction::SubroutineCall(a) => Ok(CpuView { pc: a, stack: s.stack.push(s.pc), ..s }),
        Instruction::SetVX { register, value } => Ok(with_reg(s, register, value)),
        Instruction::AddVX { register, value } => Ok(
            with_reg(s, register, ((reg(s, register) + value) % 256) as u8),
        ),
        Instruction::SetI(a) => Ok(CpuView { index: a, ..s }),
        Instruction::DisplayDraw { register_x, register_y, n } => draw(
            s,
            reg(s, register_x) as int % 64,
            reg(s, register_y) as int % 32,
            n as int,
        ),
        Instruction::NoopImmediateEq { register, value } => Ok(
            skip_if(s, reg(s, register) == value),
        ),
        Instruction::NoopImmediateNotEq { register, value } => Ok(
            skip_if(s, reg(s, register) != value),
        ),
        Instruction::NoopRegisterEq { register_x, register_y } => Ok(
            skip_if(s, reg(s, register_x) == reg(s, register_y)),
        ),
        Instruction::NoopRegisterNotEq { register_x, register_y } => Ok(
            skip_if(s, reg(s, register_x) != reg(s, register_y)),
        ),
        Instruction::ArithmeticSet { register_x, register_y } => Ok(
            with_reg(s, register_x, reg(s, register_y)),
        ),
        Instruction::ArithmeticOr { register_x, register_y } => Ok(
            with_reg(s, register_x, reg(s, register_x) | reg(s, register_y)),
        ),
        Instruction::ArithmeticAnd { register_x, register_y } => Ok(
            with_reg(s, register_x, reg(s, register_x) & reg(s, register_y)),
        ),
        Instruction::ArithmeticXor { register_x, register_y } => Ok(
            with_reg(s, register_x, reg(s, register_x) ^ reg(s, register_y)),
        ),
        Instruction::ArithmeticAdd { register_x, register_y } => {
            let vx = reg(s, register_x);
            let vy = reg(s, register_y);
            Ok(
                with_reg(
                    with_reg(s, register_x, ((vx + vy) % 256) as u8),
                    FLAG_REGISTER,
                    if vx + vy > 255 {
                        1
                    } else {
                        0
                    },
                ),
            )
        },
        Instruction::ArithmeticSubtractXY { register_x, register_y } => {
            let vx = reg(s, register_x);
            let vy = reg(s, register_y);
            Ok(
                with_reg(
                    with_reg(s, register_x, ((vx - vy + 256) % 256) as u8),
                    FLAG_REGISTER,
                    if vx >= vy {
                        1
                    } else {
                        0
                    },
                ),
            )
        },
        Instruction::ArithmeticSubtractYX { register_x, register_y } => {
            let vx = reg(s, register_x);
            let vy = reg(s, register_y);
            Ok(
                with_reg(
                    with_reg(s, register_x, ((vy - vx + 256) % 256) as u8),
                    FLAG_REGISTER,
                    if vy >= vx {
                        1
                    } else {
                        0
                    },
                ),
            )
        },
        Instruction::ArithmeticShiftRight { register_x, register_y } => {
            let src = if s.use_copy_shift {
                reg(s, register_y)
            } else {
                reg(s, register_x)
            };
            Ok(
                with_reg(
                    with_reg(s, register_x, shifted_right(src).0),
                    FLAG_REGISTER,
                    shifted_right(src).1,
                ),
            )
        },
        Instruction::ArithmeticShiftLeft { register_x, register_y } => {
            let src = if s.use_copy_shift {
                reg(s, register_y)
            } else {
                reg(s, register_x)
            };
            Ok(
                with_reg(
                    with_reg(s, register_x, shifted_left(src).0),
                    FLAG_REGISTER,
                    shifted_left(src).1,
                ),
            )
        },
        Instruction::Store(x) => write_at_index(s, s.registers.take(x + 1)),
        Instruction::Load(x) => load_registers(s, x),
        Instruction::BcdConversion(x) => write_at_index(s, decimal_digits(reg(s, x) as nat)),
        Instruction::FontCharacter(x) => Ok(
            CpuView { index: (FONT_START + 5 * (reg(s, x) % 16)) as u16, ..s },
        ),
        Instruction::AddToIndex(x) => {
            let index = s.index.wrapping_add(reg(s, x) as u16);
            let t = CpuView { index, ..s };
            Ok(
                if index >= MEMORY_SIZE {
                    with_reg(t, FLAG_REGISTER, 1)
                } else {
                    t
                },
            )
        },
        Instruction::SetVXFromDelayTimer(x) => Ok(with_reg(s, x, s.delay_timer)),
        Instruction::SetDelayTimerFromVX(x) => Ok(CpuView { delay_timer: reg(s, x), ..s }),
        Instruction::SetSoundTimerFromVX(x) => Ok(CpuView { sound_timer: reg(s, x), ..s }),
        Instruction::NoopVXDown(x) => if reg(s, x) >= 16 {
            Err(Chip8Error::InvalidKey(reg(s, x)))
        } else {
            Ok(skip_if(s, s.keys[reg(s, x) as int]))
        },
        Instruction::NoopVXNotDown(x) => if reg(s, x) >= 16 {
            Err(Chip8Error::InvalidKey(reg(s, x)))
        } else {
            Ok(skip_if(s, !s.keys[reg(s, x) as int]))
        },
        Instruction::JumpWithOffset { .. } => Err(Chip8Error::Unsupported),
        Instruction::GetKey(_) => Err(Chip8Error::Unsupported),
        Instruction::Random { .. } => Err(Chip8Error::Unsupported),
    }
}

/// Control flow, the index register and the timers.
pub open spec fn is_flow(ins: Instruction) -> bool {
    ins is ClearScreen || ins is Jump || ins is SubroutineReturn || ins is SubroutineCall
        || ins is SetI || ins is FontCharacter || ins is AddToIndex || ins is SetVXFromDelayTimer
        || ins is SetDelayTimerFromVX || ins is SetSoundTimerFromVX
}

/// The instructions that may skip the next one.
pub open spec fn is_skip(ins: Instruction) -> bool {
    ins is NoopImmediateEq || ins is NoopImmediateNotEq || ins is NoopRegisterEq
        || ins is NoopRegisterNotEq || ins is NoopVXDown || ins is NoopVXNotDown
}

/// Register loads and arithmetic.
pub open spec fn is_register_op(ins: Instruction) -> bool {
    ins is SetVX || ins is AddVX || ins is ArithmeticSet || ins is ArithmeticOr
        || ins is ArithmeticAnd || ins is ArithmeticXor || ins is ArithmeticAdd
        || ins is ArithmeticSubtractXY || ins is ArithmeticSubtractYX
        || ins is ArithmeticShiftRight || ins is ArithmeticShiftLeft
}

/// A timer one tick later: one less while above zero, zero stays zero.
pub open spec fn tick(t: u8) -> u8 {
    if t > 0 {
        (t - 1) as u8
    } else {
        0
    }
}

/// `s` one timer tick later.
pub open spec fn ticked(s: CpuView) -> CpuView {
    CpuView { sound_timer: tick(s.sound_timer), delay_timer: tick(s.delay_timer), ..s }
}

/// `s` after `k` timer ticks.
pub open spec fn ticked_times(s: CpuView, k: nat) -> CpuView
    decreases k,
{
    if k == 0 {
        s
    } else {
        ticked(ticked_times(s, (k - 1) as nat))
    }
}

/// What `execute` promises: on success the state that `step` gives, on an error that
/// error and the state unchanged.
pub open spec fn executed(
    before: CpuView,
    ins: Instruction,
    r: Result<(), Chip8Error>,
    after: CpuView,
) -> bool {
    match step(before, ins) {
        Ok(v) => r == Ok::<(), Chip8Error>(()) && after == v,
        Err(e) => r == Err::<(), Chip8Error>(e) && after == before,
    }
}

} // verus!
