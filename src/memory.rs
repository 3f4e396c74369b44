use vstd::prelude::*;
use crate::error::Chip8Error;

verus! {

/// Bytes in the address space.
pub const MEMORY_SIZE: usize = 4096;

/// Where a loaded ROM image begins.
pub const ROM_START: usize = 0x200;

/// Where the built-in font table begins.
pub const FONT_START: u16 = 0x50;

/// The sixteen hexadecimal glyphs, five rows of four pixels each, glyph 0 first.
pub open spec fn font_glyphs() -> Seq<u8> {
    seq![
        0xF0u8, 0x90, 0x90, 0x90, 0xF0,
        0x20, 0x60, 0x20, 0x20, 0x70,
        0xF0, 0x10, 0xF0, 0x80, 0xF0,
        0xF0, 0x10, 0xF0, 0x10, 0xF0,
        0x90, 0x90, 0xF0, 0x10, 0x10,
        0xF0, 0x80, 0xF0, 0x10, 0xF0,
        0xF0, 0x80, 0xF0, 0x90, 0xF0,
        0xF0, 0x10, 0x20, 0x40, 0x40,
        0xF0, 0x90, 0xF0, 0x90, 0xF0,
        0xF0, 0x90, 0xF0, 0x10, 0xF0,
        0xF0, 0x90, 0xF0, 0x90, 0x90,
        0xE0, 0x90, 0xE0, 0x90, 0xE0,
        0xF0, 0x80, 0x80, 0x80, 0xF0,
        0xE0, 0x90, 0x90, 0x90, 0xE0,
        0xF0, 0x80, 0xF0, 0x80, 0xF0,
        0xF0, 0x80, 0xF0, 0x80, 0x80,
    ]
}

fn fonts() -> (r: [u8; 80])
    ensures
        r@ == font_glyphs(),
{
    let t: [u8; 80] = [
        0xF0, 0x90, 0x90, 0x90, 0xF0, // 0
        0x20, 0x60, 0x20, 0x20, 0x70, // 1
        0xF0, 0x10, 0xF0, 0x80, 0xF0, // 2
        0xF0, 0x10, 0xF0, 0x10, 0xF0, // 3
        0x90, 0x90, 0xF0, 0x10, 0x10, // 4
        0xF0, 0x80, 0xF0, 0x10, 0xF0, // 5
        0xF0, 0x80, 0xF0, 0x90, 0xF0, // 6
        0xF0, 0x10, 0x20, 0x40, 0x40, // 7
        0xF0, 0x90, 0xF0, 0x90, 0xF0, // 8
        0xF0, 0x90, 0xF0, 0x10, 0xF0, // 9
        0xF0, 0x90, 0xF0, 0x90, 0x90, // A
        0xE0, 0x90, 0xE0, 0x90, 0xE0, // B
        0xF0, 0x80, 0x80, 0x80, 0xF0, // C
        0xE0, 0x90, 0x90, 0x90, 0xE0, // D
        0xF0, 0x80, 0xF0, 0x80, 0xF0, // E
        0xF0, 0x80, 0xF0, 0x80, 0x80, // F
    ];
    assert(t@ =~= font_glyphs());
    t
}

/// The address space at start-up: the font table at 0x050, the ROM image at 0x200,
/// zero everywhere else.
pub open spec fn initial_memory(rom: Seq<u8>) -> Seq<u8> {
    Seq::new(
        4096,
        |a: int|
            if FONT_START <= a < FONT_START + 80 {
                font_glyphs()[a - FONT_START]
            } else if ROM_START <= a < ROM_START + rom.len() {
                rom[a - ROM_START]
            } else {
                0u8
            },
    )
}

/// The 4096-byte address space of the interpreter.
pub struct Memory {
    data: [u8; 4096],
}

impl View for Memory {
    type V = Seq<u8>;

    closed spec fn view(&self) -> Seq<u8> {
        self.data@
    }
}

impl Memory {
    /// The address space holds 4096 bytes.
    pub proof fn lemma_view_len(&self)
        ensures
            self@.len() == 4096,
    {
    }

    /// Loads `rom_data` at 0x200 and the font table at 0x050; a ROM longer than the
    /// 3584 bytes above 0x200 is refused.
    pub fn new(rom_data: Vec<u8>) -> (r: Result<Memory, Chip8Error>)
        ensures
            rom_data@.len() <= MEMORY_SIZE - ROM_START ==> (r matches Ok(m) && m@
                == initial_memory(rom_data@)),
            rom_data@.len() > MEMORY_SIZE - ROM_START ==> r == Err::<Memory, Chip8Error>(
                Chip8Error::RomTooLarge(rom_data@.len() as usize),
            ),
    {
        if rom_data.len() > MEMORY_SIZE - ROM_START {
            return Err(Chip8Error::RomTooLarge(rom_data.len()));
        }
        let mut memory: [u8; 4096] = [0; 4096];

        // Write ROM to memory
        let mut i: usize = 0;
        while i < rom_data.len()
            invariant
                rom_data@.len() <= MEMORY_SIZE - ROM_START,
                i <= rom_data@.len(),
                forall|a: int|
                    0 <= a < 4096 ==> memory@[a] == if ROM_START <= a < ROM_START + i {
                        rom_data@[a - ROM_START]
                    } else {
                        0u8
                    },
            decreases rom_data@.len() - i,
        {
            memory[ROM_START + i] = rom_data[i];
            i += 1;
        }

        // Write fonts to memory
        let font = fonts();
        let font_start = FONT_START as usize;
        let mut j: usize = 0;
        while j < 80
            invariant
                j <= 80,
                font@ == font_glyphs(),
                font_start == FONT_START,
                forall|a: int|
                    0 <= a < 4096 ==> memory@[a] == if FONT_START <= a < FONT_START + j {
                        font_glyphs()[a - FONT_START]
                    } else if ROM_START <= a < ROM_START + rom_data@.len() {
                        rom_data@[a - ROM_START]
                    } else {
                        0u8
                    },
            decreases 80 - j,
        {
            memory[font_start + j] = font[j];
            j += 1;
        }
        let m = Memory { data: memory };
        assert(m@ =~= initial_memory(rom_data@));
        Ok(m)
    }

    /// The byte at `address`, or an error for an address outside the 4096 bytes.
    pub fn get(&self, address: u16) -> (r: Result<u8, Chip8Error>)
        ensures
            address < MEMORY_SIZE ==> r == Ok::<u8, Chip8Error>(self@[address as int]),
            address >= MEMORY_SIZE ==> r == Err::<u8, Chip8Error>(
                Chip8Error::AddressOutOfRange(address as u32),
            ),
    {
        if (address as usize) < MEMORY_SIZE {
            Ok(self.data[address as usize])
        } else {
            Err(Chip8Error::AddressOutOfRange(address as u32))
        }
    }

    pub(crate) fn read(&self, address: usize) -> (r: u8)
        requires
            address < MEMORY_SIZE,
        ensures
            r == self@[address as int],
    {
        self.data[address]
    }

    pub(crate) fn set(&mut self, address: usize, value: u8)
        requires
            address < MEMORY_SIZE,
        ensures
            final(self)@ == old(self)@.update(address as int, value),
    {
        self.data[address] = value;
    }

    /// Where the glyph of the hexadecimal digit `character` begins; each glyph is 5 bytes.
    pub(crate) fn get_font_address(&self, character: u8) -> (r: u16)
        requires
            character < 16,
        ensures
            r == FONT_START + 5 * character,
    {
        FONT_START + (character as u16) * 5
    }
}

} // verus!
