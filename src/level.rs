use vstd::prelude::*;
use crate::position::Coord;
use crate::tile::Tile;

verus! {

/// The board: its dimensions, its tiles in row-major order and the
/// remaining budget of lateral moves.
#[derive(Clone, Debug)]
pub struct Level {
    pub width: u8,
    pub height: u8,
    /// Row `y` occupies indices `y * width .. (y + 1) * width`.
    pub level: Vec<Tile>,
    pub side_moves: u8,
}

/// The board as a grid of rows.
pub struct LevelView {
    pub width: nat,
    pub height: nat,
    /// `grid[y][x]` is the tile at column `x` of row `y`.
    pub grid: Seq<Seq<Tile>>,
    pub side_moves: nat,
}

/// The tile of cell `(x, y)` in a row-major sequence of rows `w` wide.
pub open spec fn at(tiles: Seq<Tile>, w: int, x: int, y: int) -> Tile {
    tiles[y * w + x]
}

/// A row-major sequence of tiles cut into `h` rows of `w` tiles.
pub open spec fn grid_of(tiles: Seq<Tile>, w: int, h: int) -> Seq<Seq<Tile>> {
    Seq::new(h as nat, |y: int| Seq::new(w as nat, |x: int| at(tiles, w, x, y)))
}

/// Cell `(x, y)` of a `w`-wide grid lies before everything from row `y2`
/// column `x2` on, when it is on an earlier row.
pub proof fn lemma_index_before(w: int, x: int, y: int, x2: int, y2: int)
    requires
        0 <= x < w,
        0 <= y < y2,
        0 <= x2,
    ensures
        y * w + x < y2 * w + x2,
{
    assert(y * w + w <= y2 * w) by (nonlinear_arith)
        requires
            y < y2,
            0 <= w,
    ;
}

/// Cell `(x, y)` of a `w` by `h` grid has an index below `w * h`.
pub proof fn lemma_index_in_grid(w: int, h: int, x: int, y: int)
    requires
        0 <= x < w,
        0 <= y < h,
    ensures
        0 <= y * w,
        0 <= y * w + x < w * h,
{
    lemma_index_before(w, x, y, 0, h);
    assert(0 <= y * w) by (nonlinear_arith)
        requires
            0 <= y,
            0 <= w,
    ;
    assert(h * w == w * h) by (nonlinear_arith);
}

/// A grid of at most 15 by 15 cells has at most 225 of them.
pub proof fn lemma_area_small(w: int, h: int)
    requires
        0 <= w <= 15,
        0 <= h <= 15,
    ensures
        0 <= w * h <= 225,
{
    assert(0 <= w * h <= 225) by (nonlinear_arith)
        requires
            0 <= w <= 15,
            0 <= h <= 15,
    ;
}

impl View for Level {
    type V = LevelView;

    open spec fn view(&self) -> LevelView {
        LevelView {
            width: self.width as nat,
            height: self.height as nat,
            grid: grid_of(self.level@, self.width as int, self.height as int),
            side_moves: self.side_moves as nat,
        }
    }
}

impl LevelView {
    /// The grid has `height` rows of `width` tiles.
    pub open spec fn shaped(self) -> bool {
        &&& self.grid.len() == self.height
        &&& forall|y: int| 0 <= y < self.height ==> (#[trigger] self.grid[y]).len() == self.width
    }

    /// The board is one a well-formed `Level` can have: at most 15 by 15
    /// cells, `height` rows of `width` tiles.
    pub open spec fn valid(self) -> bool {
        &&& self.width <= 15
        &&& self.height <= 15
        &&& self.shaped()
    }

    /// The tile at column `x` of row `y`.
    pub open spec fn cell(self, x: int, y: int) -> Tile {
        self.grid[y][x]
    }
}

impl Level {
    /// Dimensions fit in a nibble each and there is one tile per cell.
    pub open spec fn wf(&self) -> bool {
        &&& self.width <= 15
        &&& self.height <= 15
        &&& self.level@.len() == self.width * self.height
    }

    /// The tile at column `x` of row `y`.
    pub fn tile_at(&self, x: u8, y: u8) -> (r: Tile)
        requires
            self.wf(),
            x < self.width,
            y < self.height,
        ensures
            r == self@.cell(x as int, y as int),
            r == self.level@[y * self.width + x],
    {
        proof {
            lemma_index_in_grid(self.width as int, self.height as int, x as int, y as int);
            lemma_area_small(self.width as int, self.height as int);
        }
        self.level[y as usize * self.width as usize + x as usize]
    }

    /// The tile at the given cell.
    pub fn tile_at_vec(&self, p: Coord) -> (r: Tile)
        requires
            self.wf(),
            p.within(self.width as int, self.height as int),
        ensures
            r == self@.cell(p.x as int, p.y as int),
    {
        self.tile_at(p.x as u8, p.y as u8)
    }

    /// A copy of the grid as `height` rows of `width` tiles each.
    pub fn rows(&self) -> (r: Vec<Vec<Tile>>)
        requires
            self.wf(),
        ensures
            r@.len() == self.height,
            forall|y: int| 0 <= y < self.height ==> (#[trigger] r@[y])@ == self@.grid[y],
    {
        let mut result: Vec<Vec<Tile>> = Vec::new();
        let mut y: u8 = 0;
        while y < self.height
            invariant
                self.wf(),
                y <= self.height,
                result@.len() == y,
                forall|j: int| 0 <= j < y ==> (#[trigger] result@[j])@ == self@.grid[j],
            decreases self.height - y,
        {
            let mut row: Vec<Tile> = Vec::new();
            let mut x: u8 = 0;
            while x < self.width
                invariant
                    self.wf(),
                    x <= self.width,
                    y < self.height,
                    row@.len() == x,
                    forall|i: int| 0 <= i < x ==> row@[i] == self@.grid[y as int][i],
                decreases self.width - x,
            {
                row.push(self.tile_at(x, y));
                x = x + 1;
            }
            assert(row@ =~= self@.grid[y as int]);
            result.push(row);
            y = y + 1;
        }
        result
    }

    /// Replaces every tile by the tile at the same place of `rows`, which
    /// holds `height` rows of `width` tiles.
    pub fn replace_all(&mut self, rows: Vec<Vec<Tile>>)
        requires
            old(self).wf(),
            rows@.len() == old(self).height,
            forall|y: int| 0 <= y < old(self).height ==> (#[trigger] rows@[y])@.len() == old(self).width,
        ensures
            final(self).wf(),
            final(self).width == old(self).width,
            final(self).height == old(self).height,
            final(self).side_moves == old(self).side_moves,
            final(self)@.grid == Seq::new(rows@.len(), |y: int| rows@[y]@),
    {
        let w = self.width;
        let h = self.height;
        let mut tiles: Vec<Tile> = Vec::new();
        let mut y: u8 = 0;
        while y < h
            invariant
                w <= 15,
                h <= 15,
                y <= h,
                rows@.len() == h,
                forall|j: int| 0 <= j < h ==> (#[trigger] rows@[j])@.len() == w,
                tiles@.len() == y * w,
                forall|j: int, i: int|
                    0 <= j < y && 0 <= i < w ==> #[trigger] at(tiles@, w as int, i, j) == rows@[j]@[i],
            decreases h - y,
        {
            let mut x: u8 = 0;
            while x < w
                invariant
                    w <= 15,
                    h <= 15,
                    y < h,
                    x <= w,
                    rows@.len() == h,
                    forall|j: int| 0 <= j < h ==> (#[trigger] rows@[j])@.len() == w,
                    tiles@.len() == y * w + x,
                    forall|j: int, i: int|
                        0 <= j < y && 0 <= i < w ==> #[trigger] at(tiles@, w as int, i, j)
                            == rows@[j]@[i],
                    forall|i: int| 0 <= i < x ==> #[trigger] at(tiles@, w as int, i, y as int) == rows@[y as int]@[i],
                decreases w - x,
            {
                let ghost before = tiles@;
                tiles.push(rows[y as usize][x as usize]);
                assert forall|j: int, i: int| 0 <= j < y && 0 <= i < w implies #[trigger] at(tiles@, w as int, i, j)
                    == rows@[j]@[i] by {
                    lemma_index_before(w as int, i, j, x as int, y as int);
                    assert(at(before, w as int, i, j) == rows@[j]@[i]);
                }
                assert forall|i: int| 0 <= i < x + 1 implies #[trigger] at(tiles@, w as int, i, y as int) == rows@[y as int]@[i] by {
                    if i < x {
                        assert(at(before, w as int, i, y as int) == rows@[y as int]@[i]);
                    }
                }
                x = x + 1;
            }
            assert((y + 1) * w == y * w + w) by (nonlinear_arith);
            y = y + 1;
        }
        assert(h * w == w * h) by (nonlinear_arith);
        self.level = tiles;
        assert(self@.grid =~= Seq::new(rows@.len(), |y: int| rows@[y]@)) by {
            assert forall|y: int| 0 <= y < h implies self@.grid[y] =~= rows@[y]@ by {
                assert forall|x: int| 0 <= x < w implies self@.grid[y][x] == rows@[y]@[x] by {
                    assert(at(tiles@, w as int, x, y) == rows@[y]@[x]);
                }
            }
        }
    }
}

} // verus!
