use crate::config::{HEIGHT, WIDTH};
use crate::functions::in_grid;
use vstd::prelude::*;

verus! {

/// A set of cells of the grid, kept as one flag for each cell.
pub struct CellGrid {
    cells: Vec<bool>,
}

impl View for CellGrid {
    type V = Set<(int, int)>;

    /// The cells that are marked.
    closed spec fn view(&self) -> Set<(int, int)> {
        Set::new(|c: (int, int)| in_grid(c.0, c.1) && self.cells@[c.0 * HEIGHT + c.1])
    }
}

impl CellGrid {
    /// There is one flag for each cell of the grid.
    pub closed spec fn wf(&self) -> bool {
        self.cells@.len() == WIDTH * HEIGHT
    }

    /// Only cells of the grid are ever marked.
    pub proof fn lemma_marked_in_grid(&self)
        ensures
            forall|x: int, y: int| #[trigger] self@.contains((x, y)) ==> in_grid(x, y),
    {
    }

    /// A grid with no cell marked.
    pub fn new() -> (grid: CellGrid)
        ensures
            grid.wf(),
            grid@ == Set::<(int, int)>::empty(),
    {
        CellGrid { cells: vec![false; WIDTH * HEIGHT] }
    }

    /// Whether the cell `(x, y)` is marked; no cell outside the grid is.
    pub fn contains(&self, x: i32, y: i32) -> (marked: bool)
        requires
            self.wf(),
        ensures
            marked == self@.contains((x as int, y as int)),
    {
        if x < 0 || y < 0 || x >= WIDTH as i32 || y >= HEIGHT as i32 {
            return false;
        }
        self.cells[x as usize * HEIGHT + y as usize]
    }

    /// Marks the cell `(x, y)`. Outside the grid there is nothing to mark.
    pub fn mark(&mut self, x: i32, y: i32)
        requires
            old(self).wf(),
        ensures
            final(self).wf(),
            final(self)@ == if in_grid(x as int, y as int) {
                old(self)@.insert((x as int, y as int))
            } else {
                old(self)@
            },
    {
        if x < 0 || y < 0 || x >= WIDTH as i32 || y >= HEIGHT as i32 {
            return;
        }
        self.cells[x as usize * HEIGHT + y as usize] = true;
    }

    /// Takes the mark off every cell.
    pub fn clear(&mut self)
        ensures
            final(self).wf(),
            final(self)@ == Set::<(int, int)>::empty(),
    {
        self.cells = vec![false; WIDTH * HEIGHT];
    }
}

} // verus!
