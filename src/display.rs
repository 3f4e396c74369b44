use vstd::prelude::*;

verus! {

/// A 64x32 monochrome frame buffer, cells stored row after row.
pub struct Display {
    pub width: u32,
    pub height: u32,
    data: [bool; 2048],
}

impl View for Display {
    type V = Seq<bool>;

    /// Entry `y * 64 + x` is the cell at column `x` of row `y`.
    closed spec fn view(&self) -> Seq<bool> {
        self.data@
    }
}

impl Display {
    /// The display has 64x32 cells.
    pub proof fn lemma_view_len(&self)
        ensures
            self@.len() == 2048,
    {
    }

    /// A display of 64 by 32 unlit cells.
    pub fn new() -> (r: Display)
        ensures
            r@ == Seq::new(2048, |i: int| false),
    {
        let width: u32 = 64;
        let height: u32 = 32;
        let d = Display { width, height, data: [false; 2048] };
        assert(d@ =~= Seq::new(2048, |i: int| false));
        d
    }

    /// The cell at column `x` of row `y`.
    pub fn get(&self, x: u32, y: u32) -> (r: bool)
        requires
            x < 64,
            y < 32,
        ensures
            r == self@[y * 64 + x],
    {
        self.data[(y * 64 + x) as usize]
    }

    /// Sets the cell at column `x` of row `y` and no other.
    pub fn set(&mut self, x: u32, y: u32, value: bool)
        requires
            x < 64,
            y < 32,
        ensures
            final(self)@ == old(self)@.update(y * 64 + x, value),
    {
        self.data[(y * 64 + x) as usize] = value;
    }
}

} // verus!
