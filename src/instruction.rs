use vstd::prelude::*;

verus! {

/// One decoded CHIP-8 instruction with its operand fields.
#[derive(Debug, Clone, Copy, PartialEq, Eq, Structural)]
pub enum Instruction {
    ClearScreen,
    Jump(u16),
    SubroutineReturn,
    SubroutineCall(u16),
    SetVX { register: u8, value: u8 },
    AddVX { register: u8, value: u8 },
    SetI(u16),
    DisplayDraw { register_x: u8, register_y: u8, n: u8 },
    NoopImmediateEq { register: u8, value: u8 },
    NoopImmediateNotEq { register: u8, value: u8 },
    NoopRegisterEq { register_x: u8, register_y: u8 },
    NoopRegisterNotEq { register_x: u8, register_y: u8 },
    ArithmeticSet { register_x: u8, register_y: u8 },
    ArithmeticOr { register_x: u8, register_y: u8 },
    ArithmeticAnd { register_x: u8, register_y: u8 },
    ArithmeticXor { register_x: u8, register_y: u8 },
    ArithmeticAdd { register_x: u8, register_y: u8 },
    ArithmeticSubtractXY { register_x: u8, register_y: u8 },
    ArithmeticSubtractYX { register_x: u8, register_y: u8 },
    ArithmeticShiftLeft { register_x: u8, register_y: u8 },
    ArithmeticShiftRight { register_x: u8, register_y: u8 },
    Store(u8),
    Load(u8),
    BcdConversion(u8),
    FontCharacter(u8),
    AddToIndex(u8),
    SetVXFromDelayTimer(u8),
    SetDelayTimerFromVX(u8),
    SetSoundTimerFromVX(u8),
    NoopVXDown(u8),
    NoopVXNotDown(u8),
    JumpWithOffset { register_x: u8, address: u16 },
    GetKey(u8),
    Random { register_x: u8, mask: u8 },
}

impl Instruction {
    /// Every register operand names one of the sixteen registers.
    pub open spec fn well_formed(self) -> bool {
        match self {
            Instruction::SetVX { register, .. } => register < 16,
            Instruction::AddVX { register, .. } => register < 16,
            Instruction::DisplayDraw { register_x, register_y, .. } => register_x < 16
                && register_y < 16,
            Instruction::NoopImmediateEq { register, .. } => register < 16,
            Instruction::NoopImmediateNotEq { register, .. } => register < 16,
            Instruction::NoopRegisterEq { register_x, register_y } => register_x < 16
                && register_y < 16,
            Instruction::NoopRegisterNotEq { register_x, register_y } => register_x < 16
                && register_y < 16,
            Instruction::ArithmeticSet { register_x, register_y } => register_x < 16
                && register_y < 16,
            Instruction::ArithmeticOr { register_x, register_y } => register_x < 16
                && register_y < 16,
            Instruction::ArithmeticAnd { register_x, register_y } => register_x < 16
                && register_y < 16,
            Instruction::ArithmeticXor { register_x, register_y } => register_x < 16
                && register_y < 16,
            Instruction::ArithmeticAdd { register_x, register_y } => register_x < 16
                && register_y < 16,
            Instruction::ArithmeticSubtractXY { register_x, register_y } => register_x < 16
                && register_y < 16,
            Instruction::ArithmeticSubtractYX { register_x, register_y } => register_x < 16
                && register_y < 16,
            Instruction::ArithmeticShiftLeft { register_x, register_y } => register_x < 16
                && register_y < 16,
            Instruction::ArithmeticShiftRight { register_x, register_y } => register_x < 16
                && register_y < 16,
            Instruction::Store(x) => x < 16,
            Instruction::Load(x) => x < 16,
            Instruction::BcdConversion(x) => x < 16,
            Instruction::FontCharacter(x) => x < 16,
            Instruction::AddToIndex(x) => x < 16,
            Instruction::SetVXFromDelayTimer(x) => x < 16,
            Instruction::SetDelayTimerFromVX(x) => x < 16,
            Instruction::SetSoundTimerFromVX(x) => x < 16,
            Instruction::NoopVXDown(x) => x < 16,
            Instruction::NoopVXNotDown(x) => x < 16,
            Instruction::JumpWithOffset { register_x, .. } => register_x < 16,
            Instruction::GetKey(x) => x < 16,
            Instruction::Random { register_x, .. } => register_x < 16,
            _ => true,
        }
    }
}

/// The 4-bit field of `raw` at position `i`, counted from the least significant.
pub open spec fn nibble(raw: u16, i: u8) -> u8 {
    ((raw >> ((4 * i) as u16)) & 0xF) as u8
}

/// The instruction that the word `raw` encodes, or `None` when it matches no opcode.
pub open spec fn decoded(raw: u16) -> Option<Instruction> {
    let x = nibble(raw, 2);
    let y = nibble(raw, 1);
    let n = nibble(raw, 0);
    let kk = (raw & 0xFF) as u8;
    let nnn = raw & 0xFFF;
    match nibble(raw, 3) {
        0 => if raw == 0x00E0 {
            Some(Instruction::ClearScreen)
        } else if raw == 0x00EE {
            Some(Instruction::SubroutineReturn)
        } else {
            None
        },
        1 => Some(Instruction::Jump(nnn)),
        2 => Some(Instruction::SubroutineCall(nnn)),
        3 => Some(Instruction::NoopImmediateEq { register: x, value: kk }),
        4 => Some(Instruction::NoopImmediateNotEq { register: x, value: kk }),
        5 => if n == 0 {
            Some(Instruction::NoopRegisterEq { register_x: x, register_y: y })
        } else {
            None
        },
        6 => Some(Instruction::SetVX { register: x, value: kk }),
        7 => Some(Instruction::AddVX { register: x, value: kk }),
        8 => match n {
            0 => Some(Instruction::ArithmeticSet { register_x: x, register_y: y }),
            1 => Some(Instruction::ArithmeticOr { register_x: x, register_y: y }),
            2 => Some(Instruction::ArithmeticAnd { register_x: x, register_y: y }),
            3 => Some(Instruction::ArithmeticXor { register_x: x, register_y: y }),
            4 => Some(Instruction::ArithmeticAdd { register_x: x, register_y: y }),
            5 => Some(Instruction::ArithmeticSubtractXY { register_x: x, register_y: y }),
            6 => Some(Instruction::ArithmeticShiftRight { register_x: x, register_y: y }),
            7 => Some(Instruction::ArithmeticSubtractYX { register_x: x, register_y: y }),
            0xE => Some(Instruction::ArithmeticShiftLeft { register_x: x, register_y: y }),
            _ => None,
        },
        9 => if n == 0 {
            Some(Instruction::NoopRegisterNotEq { register_x: x, register_y: y })
        } else {
            None
        },
        0xA => Some(Instruction::SetI(nnn)),
        0xD => Some(Instruction::DisplayDraw { register_x: x, register_y: y, n }),
        0xE => if kk == 0x9E {
            Some(Instruction::NoopVXDown(x))
        } else if kk == 0xA1 {
            Some(Instruction::NoopVXNotDown(x))
        } else {
            None
        },
        0xF => match kk {
            0x07 => Some(Instruction::SetVXFromDelayTimer(x)),
            0x15 => Some(Instruction::SetDelayTimerFromVX(x)),
            0x18 => Some(Instruction::SetSoundTimerFromVX(x)),
            0x1E => Some(Instruction::AddToIndex(x)),
            0x29 => Some(Instruction::FontCharacter(x)),
            0x33 => Some(Instruction::BcdConversion(x)),
            0x55 => Some(Instruction::Store(x)),
            0x65 => Some(Instruction::Load(x)),
            _ => None,
        },
        _ => None,
    }
}

/// A nibble always names one of sixteen values.
pub proof fn lemma_nibble_bound(raw: u16, i: u8)
    ensures
        nibble(raw, i) < 16,
{
    let s = (4 * i) as u16;
    assert((raw >> s) & 0xF <= 0xF) by (bit_vector);
}

} // verus!
