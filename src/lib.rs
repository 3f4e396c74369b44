pub mod cpu;
pub mod display;
pub mod error;
pub mod instruction;
pub mod keypad;
pub mod lemmas;
pub mod memory;
pub mod vram;

pub use cpu::Cpu;
pub use display::Display;
pub use error::Chip8Error;
pub use instruction::Instruction;
pub use keypad::{Keycode, Keypad, PhysicalKey};
pub use memory::Memory;
pub use vram::VRAM;
