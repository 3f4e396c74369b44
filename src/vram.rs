use vstd::prelude::*;

verus! {

/// Columns of the interpreter's display.
pub const SCREEN_WIDTH: u8 = 64;

/// Rows of the interpreter's display.
pub const SCREEN_HEIGHT: u8 = 32;

/// The interpreter's 64x32 display memory, cells stored row after row.
pub struct VRAM {
    pub width: u8,
    pub height: u8,
    data: [bool; 2048],
}

/// The position of the cell at column `x` of row `y` in the display's view.
pub open spec fn cell(x: int, y: int) -> int {
    y * 64 + x
}

impl View for VRAM {
    type V = Seq<bool>;

    /// Entry `cell(x, y)` is the cell at column `x` of row `y`.
    closed spec fn view(&self) -> Seq<bool> {
        self.data@
    }
}

impl VRAM {
    /// The display has 64x32 cells.
    pub proof fn lemma_view_len(&self)
        ensures
            self@.len() == 2048,
    {
    }

    /// A display of 64 by 32 unlit cells.
    pub fn new() -> (r: VRAM)
        ensures
            r@ == Seq::new(2048, |i: int| false),
    {
        let v = VRAM { width: SCREEN_WIDTH, height: SCREEN_HEIGHT, data: [false; 2048] };
        assert(v@ =~= Seq::new(2048, |i: int| false));
        v
    }

    /// The cell at column `x` of row `y`.
    pub fn get_cell(&self, x: u8, y: u8) -> (r: bool)
        requires
            x < 64,
            y < 32,
        ensures
            r == self@[cell(x as int, y as int)],
    {
        self.data[y as usize * 64 + x as usize]
    }

    pub(crate) fn set_cell(&mut self, x: u8, y: u8, value: bool)
        requires
            x < 64,
            y < 32,
        ensures
            final(self)@ == old(self)@.update(cell(x as int, y as int), value),
    {
        self.data[y as usize * 64 + x as usize] = value;
    }

    pub(crate) fn clear(&mut self)
        ensures
            final(self)@ == Seq::new(2048, |i: int| false),
    {
        self.data = [false; 2048];
        assert(self@ =~= Seq::new(2048, |i: int| false));
    }
}

} // verus!
