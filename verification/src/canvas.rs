//! Canvas and Cell data structures.

use vstd::prelude::*;

verus! {

/// A single cell on the canvas: one glyph plus a foreground/background
/// color pair (ANSI indices 0-15).
#[derive(Clone, Copy, PartialEq, Eq, Structural, Debug)]
pub struct Cell {
    /// Character to display
    pub char: char,
    /// Foreground color (0-15 ANSI)
    pub fg: u8,
    /// Background color (0-15 ANSI)
    pub bg: u8,
}

impl Cell {
    /// The empty cell: a space with default colors.
    pub open spec fn empty_spec() -> Cell {
        Cell { char: ' ', fg: 7, bg: 0 }
    }

    /// A full block glyph with the given foreground color.
    pub open spec fn block_spec(fg: u8) -> Cell {
        Cell { char: '█', fg, bg: 0 }
    }

    /// Empty cell (space with default colors).
    pub fn empty() -> (c: Cell)
        ensures
            c == Cell::empty_spec(),
    {
        Cell { char: ' ', fg: 7, bg: 0 }
    }

    /// Full block character with default colors.
    pub fn block_default() -> (c: Cell)
        ensures
            c == Cell::block_spec(7),
    {
        Cell { char: '█', fg: 7, bg: 0 }
    }

    /// Create a new cell with specified character and foreground color.
    pub fn new(char: char, fg: u8) -> (c: Cell)
        ensures
            c == (Cell { char, fg, bg: 0 }),
    {
        Cell { char, fg, bg: 0 }
    }

    /// Create a block with specified foreground color.
    pub fn block(fg: u8) -> (c: Cell)
        ensures
            c == Cell::block_spec(fg),
    {
        Cell { char: '█', fg, bg: 0 }
    }

    /// A cell is empty when it holds the space character.
    pub open spec fn is_empty_spec(self) -> bool {
        self.char == ' '
    }

    /// Check if this cell is empty (space character).
    pub fn is_empty(&self) -> (r: bool)
        ensures
            r == self.is_empty_spec(),
    {
        self.char == ' '
    }
}

impl Default for Cell {
    /// The default cell is the empty cell.
    fn default() -> (c: Cell)
        ensures
            c == Cell::empty_spec(),
    {
        Cell::empty()
    }
}

/// The drawing canvas: a dense row-major grid of cells, each dimension
/// fixed at construction and at most 32.
#[derive(Clone, Debug)]
pub struct Canvas {
    /// Width in cells
    pub width: u16,
    /// Height in cells
    pub height: u16,
    /// Cell data in row-major order
    pub cells: Vec<Cell>,
}

/// Maximum allowed canvas dimension.
pub const MAX_SIZE: u16 = 32;

impl Canvas {
    /// The grid contents, row-major.
    pub open spec fn grid(self) -> Seq<Cell> {
        self.cells@
    }

    /// Well-formedness: every position holds a cell and the dimensions
    /// respect the hard cap.
    pub open spec fn wf(self) -> bool {
        &&& self.grid().len() == self.width * self.height
        &&& self.width <= MAX_SIZE
        &&& self.height <= MAX_SIZE
    }

    /// Whether (x, y) lies on the canvas.
    pub open spec fn in_bounds(self, x: int, y: int) -> bool {
        0 <= x < self.width && 0 <= y < self.height
    }

    /// Row-major index of (x, y).
    pub open spec fn idx_of(self, x: int, y: int) -> int {
        y * self.width + x
    }

    /// The cell at (x, y); positions off the canvas read as empty.
    pub open spec fn cell_at(self, x: int, y: int) -> Cell {
        if self.in_bounds(x, y) {
            self.grid()[self.idx_of(x, y)]
        } else {
            Cell::empty_spec()
        }
    }

    /// Create a new canvas with the given dimensions, each clamped to the
    /// maximum size, every cell empty.
    pub fn new(width: u16, height: u16) -> (c: Canvas)
        ensures
            c.wf(),
            c.width == if width <= MAX_SIZE { width } else { MAX_SIZE },
            c.height == if height <= MAX_SIZE { height } else { MAX_SIZE },
            forall|x: int, y: int| c.in_bounds(x, y) ==> c.cell_at(x, y) == Cell::empty_spec(),
            forall|i: int| 0 <= i < c.grid().len() ==> c.grid()[i] == Cell::empty_spec(),
    {
        let width = if width <= MAX_SIZE { width } else { MAX_SIZE };
        let height = if height <= MAX_SIZE { height } else { MAX_SIZE };
        proof {
            lemma_grid_index(width as int, height as int);
        }
        let cells = vec![Cell::empty(); (width as usize) * (height as usize)];
        let c = Canvas { width, height, cells };
        proof {
            assert forall|x: int, y: int| c.in_bounds(x, y) implies c.cell_at(x, y)
                == Cell::empty_spec() by {
                lemma_index_bound(x, y, c.width as int, c.height as int);
            }
        }
        c
    }

    /// Get a reference to the cell at (x, y); `None` outside the bounds.
    pub fn get(&self, x: u16, y: u16) -> (r: Option<&Cell>)
        requires
            self.wf(),
        ensures
            r is Some <==> self.in_bounds(x as int, y as int),
            r matches Some(c) ==> *c == self.cell_at(x as int, y as int),
    {
        if x < self.width && y < self.height {
            proof {
                lemma_index_bound(x as int, y as int, self.width as int, self.height as int);
                lemma_grid_index(self.width as int, self.height as int);
            }
            let idx = (y as usize) * (self.width as usize) + (x as usize);
            Some(&self.cells[idx])
        } else {
            None
        }
    }

    /// Get a mutable reference to the cell at (x, y); `None` outside
    /// the bounds.
    pub fn get_mut(&mut self, x: u16, y: u16) -> (r: Option<&mut Cell>)
        requires
            old(self).wf(),
        ensures
            r is Some <==> old(self).in_bounds(x as int, y as int),
            r matches Some(c) ==> {
                &&& *c == old(self).cell_at(x as int, y as int)
                &&& final(self).wf()
                &&& final(self).width == old(self).width
                &&& final(self).height == old(self).height
                &&& final(self).grid() == old(self).grid().update(
                    old(self).idx_of(x as int, y as int),
                    *final(c),
                )
            },
            r is None ==> *final(self) == *old(self),
    {
        if x < self.width && y < self.height {
            proof {
                lemma_index_bound(x as int, y as int, self.width as int, self.height as int);
                lemma_grid_index(self.width as int, self.height as int);
            }
            let idx = (y as usize) * (self.width as usize) + (x as usize);
            Some(&mut self.cells[idx])
        } else {
            None
        }
    }

    /// Set the cell at (x, y); a no-op outside the bounds.
    pub fn set(&mut self, x: u16, y: u16, cell: Cell)
        requires
            old(self).wf(),
        ensures
            final(self).wf(),
            final(self).width == old(self).width,
            final(self).height == old(self).height,
            final(self).grid() == if old(self).in_bounds(x as int, y as int) {
                old(self).grid().update(old(self).idx_of(x as int, y as int), cell)
            } else {
                old(self).grid()
            },
    {
        if x < self.width && y < self.height {
            proof {
                lemma_index_bound(x as int, y as int, self.width as int, self.height as int);
                lemma_grid_index(self.width as int, self.height as int);
            }
            let idx = (y as usize) * (self.width as usize) + (x as usize);
            self.cells[idx] = cell;
        }
    }

    /// Fill the entire canvas with a cell.
    pub fn fill(&mut self, cell: Cell)
        requires
            old(self).wf(),
        ensures
            final(self).wf(),
            final(self).width == old(self).width,
            final(self).height == old(self).height,
            final(self).grid().len() == old(self).grid().len(),
            forall|i: int| 0 <= i < final(self).grid().len() ==> final(self).grid()[i] == cell,
    {
        let n = self.cells.len();
        let mut i: usize = 0;
        while i < n
            invariant
                i <= n,
                n == self.cells@.len(),
                self.wf(),
                self.width == old(self).width,
                self.height == old(self).height,
                forall|j: int| 0 <= j < i ==> self.cells@[j] == cell,
            decreases n - i,
        {
            self.cells[i] = cell;
            i = i + 1;
        }
    }

    /// Clear the canvas (fill with empty cells).
    pub fn clear(&mut self)
        requires
            old(self).wf(),
        ensures
            final(self).wf(),
            final(self).width == old(self).width,
            final(self).height == old(self).height,
            final(self).grid().len() == old(self).grid().len(),
            forall|i: int| 0 <= i < final(self).grid().len() ==> final(self).grid()[i]
                == Cell::empty_spec(),
    {
        self.fill(Cell::empty());
    }

    /// Get all cells as a slice.
    pub fn cells(&self) -> (r: &Vec<Cell>)
        ensures
            r@ == self.grid(),
    {
        &self.cells
    }

    /// All cells with their coordinates, in row-major order.
    pub fn iter(&self) -> (r: Vec<(u16, u16, Cell)>)
        requires
            self.wf(),
        ensures
            r@ == self.iter_spec(),
    {
        let mut r: Vec<(u16, u16, Cell)> = Vec::new();
        let n = self.cells.len();
        proof {
            if n > 0 {
                assert(self.width > 0) by (nonlinear_arith)
                    requires
                        self.width * self.height > 0,
                ;
            }
        }
        let mut k: usize = 0;
        while k < n
            invariant
                k <= n,
                n == self.grid().len(),
                self.wf(),
                n > 0 ==> self.width > 0,
                r@ =~= self.iter_spec().take(k as int),
            decreases n - k,
        {
            proof {
                let wi = self.width as int;
                let hi = self.height as int;
                assert((k as int) / wi < hi && 0 <= (k as int) % wi < wi) by (nonlinear_arith)
                    requires
                        wi > 0,
                        0 <= k < wi * hi,
                ;
            }
            let x = (k % (self.width as usize)) as u16;
            let y = (k / (self.width as usize)) as u16;
            r.push((x, y, self.cells[k]));
            proof {
                assert(r@ =~= self.iter_spec().take(k + 1));
            }
            k = k + 1;
        }
        proof {
            assert(self.iter_spec().take(n as int) =~= self.iter_spec());
        }
        r
    }

    /// The non-empty cells with their coordinates, in row-major order.
    pub fn iter_non_empty(&self) -> (r: Vec<(u16, u16, Cell)>)
        requires
            self.wf(),
        ensures
            r@ == self.iter_spec().filter(|t: (u16, u16, Cell)| !t.2.is_empty_spec()),
    {
        let all = self.iter();
        let ghost all0 = all@;
        let mut r: Vec<(u16, u16, Cell)> = Vec::new();
        let n = all.len();
        let mut k: usize = 0;
        while k < n
            invariant
                k <= n,
                n == all@.len(),
                all@ == all0,
                r@ == all0.take(k as int).filter(|t: (u16, u16, Cell)| !t.2.is_empty_spec()),
            decreases n - k,
        {
            proof {
                reveal_with_fuel(Seq::filter, 2);
                assert(all0.take(k + 1).drop_last() =~= all0.take(k as int));
                assert(all0.take(k + 1).last() == all0[k as int]);
            }
            let t = all[k];
            if !t.2.is_empty() {
                r.push(t);
            }
            k = k + 1;
        }
        proof {
            assert(all0.take(n as int) =~= all0);
        }
        r
    }

    /// The row-major (x, y, cell) listing that `iter` returns.
    pub open spec fn iter_spec(self) -> Seq<(u16, u16, Cell)> {
        Seq::new(
            self.grid().len(),
            |k: int|
                (
                    (k % (self.width as int)) as u16,
                    (k / (self.width as int)) as u16,
                    self.grid()[k],
                ),
        )
    }
}

/// The row-major index of an in-bounds position lies within the grid.
pub proof fn lemma_index_bound(x: int, y: int, w: int, h: int)
    requires
        0 <= x < w,
        0 <= y < h,
    ensures
        0 <= y * w + x < w * h,
{
    assert(0 <= y * w + x < w * h) by (nonlinear_arith)
        requires
            0 <= x < w,
            0 <= y < h,
    ;
}

/// A grid of w * h cells fits in a usize-indexed vector when both
/// dimensions respect the cap.
pub proof fn lemma_grid_index(w: int, h: int)
    requires
        0 <= w <= MAX_SIZE,
        0 <= h <= MAX_SIZE,
    ensures
        w * h <= 1024,
{
    assert(w * h <= 1024) by (nonlinear_arith)
        requires
            0 <= w <= 32,
            0 <= h <= 32,
    ;
}

/// Distinct in-bounds positions have distinct row-major indices.
pub proof fn lemma_index_injective(x1: int, y1: int, x2: int, y2: int, w: int, h: int)
    requires
        0 <= x1 < w,
        0 <= y1 < h,
        0 <= x2 < w,
        0 <= y2 < h,
        y1 * w + x1 == y2 * w + x2,
    ensures
        x1 == x2 && y1 == y2,
{
    assert(x1 == x2 && y1 == y2) by (nonlinear_arith)
        requires
            0 <= x1 < w,
            0 <= y1 < h,
            0 <= x2 < w,
            0 <= y2 < h,
            y1 * w + x1 == y2 * w + x2,
    ;
}

} // verus!
