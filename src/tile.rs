use vstd::prelude::*;
use vstd::arithmetic::div_mod::{lemma_mod_add_multiples_vanish, lemma_mod_sub_multiples_vanish, lemma_small_mod};
use crate::facing::{Facing, Side};
use crate::level::{Level, LevelView};
use crate::position::{Coord, Position};

verus! {

/// The content of one grid cell. The set of kinds is closed.
#[derive(Clone, Copy, Debug, PartialEq, Eq, Structural)]
pub enum Tile {
    /// Inert floor.
    Empty,
    /// Blocks entry.
    Wall,
    /// Entering it wins the game.
    Finish,
    /// Turns the player a quarter turn towards the side.
    PlayerRotate(Side),
    /// Shifts the player's row (horizontal facing) or column (vertical
    /// facing) one cell in the facing's direction, wrapping at the edges.
    RowShift(Facing),
}

/// What a tile does to a move that enters it.
#[derive(Clone, Copy, Debug, PartialEq, Eq, Structural)]
pub enum MoveOutcome {
    /// The move stands; `Some(c)` when the tile carried the player to `c`
    /// instead of the entered cell.
    OK(Option<Coord>),
    /// The tile cannot be entered.
    Illegal,
    /// The game is won.
    Win,
}

/// `a mod n` for an `a` at most one period away from `0 .. n`.
pub proof fn lemma_wrap(a: int, n: int)
    requires
        0 < n,
        -n <= a < 2 * n,
    ensures
        a % n == (if a < 0 {
            a + n
        } else if a >= n {
            a - n
        } else {
            a
        }),
{
    if a < 0 {
        lemma_mod_add_multiples_vanish(a, n);
        lemma_small_mod((a + n) as nat, n as nat);
    } else if a >= n {
        lemma_mod_sub_multiples_vanish(a, n);
        lemma_small_mod((a - n) as nat, n as nat);
    } else {
        lemma_small_mod(a as nat, n as nat);
    }
}

/// Cell `(x, y)` lies on the line that a shift towards `f` through `at`
/// moves: the row of `at` for a horizontal facing, its column otherwise.
pub open spec fn on_line(f: Facing, at: Coord, x: int, y: int) -> bool {
    if f.is_horizontal() {
        y == at.y
    } else {
        x == at.x
    }
}

/// The `w` by `h` grid after the line through `at` moved one cell towards
/// `f`, the cell that leaves at one edge coming back at the other.
pub open spec fn shifted_grid(g: Seq<Seq<Tile>>, w: int, h: int, f: Facing, at: Coord) -> Seq<
    Seq<Tile>,
> {
    let (dx, dy) = f.forward_spec();
    Seq::new(
        h as nat,
        |y: int|
            Seq::new(
                w as nat,
                |x: int|
                    if on_line(f, at, x, y) {
                        g[(y - dy) % h][(x - dx) % w]
                    } else {
                        g[y][x]
                    },
            ),
    )
}

/// The cell one step from `c` towards `f` on a `w` by `h` grid that wraps
/// at its edges.
pub open spec fn wrapped_step(c: Coord, f: Facing, w: int, h: int) -> Coord {
    let (dx, dy) = f.forward_spec();
    Coord { x: ((c.x + dx) % w) as u32, y: ((c.y + dy) % h) as u32 }
}

impl Tile {
    /// The tile's name, which picks its sprite.
    pub open spec fn name_spec(self) -> Seq<char> {
        match self {
            Tile::Empty => "empty"@,
            Tile::Wall => "wall"@,
            Tile::Finish => "finish"@,
            Tile::PlayerRotate(Side::Left) => "player_rot_left"@,
            Tile::PlayerRotate(Side::Right) => "player_rot_right"@,
            Tile::RowShift(Facing::Up) => "row_shift_up"@,
            Tile::RowShift(Facing::Right) => "row_shift_right"@,
            Tile::RowShift(Facing::Down) => "row_shift_down"@,
            Tile::RowShift(Facing::Left) => "row_shift_left"@,
        }
    }

    /// The tile that a record with kind tag `tag` and metadata `meta`
    /// stands for; `None` when its kind needs metadata and there is none.
    pub open spec fn from_record(tag: u8, meta: Seq<u8>) -> Option<Tile> {
        if tag == 1 {
            Some(Tile::Wall)
        } else if tag == 2 {
            Some(Tile::Finish)
        } else if tag == 3 {
            if meta.len() == 0 {
                None
            } else {
                Some(Tile::PlayerRotate(side_of_byte(meta[0])))
            }
        } else if tag == 4 {
            if meta.len() == 0 {
                None
            } else {
                Some(Tile::RowShift(Facing::from_ord(meta[0] as int)))
            }
        } else {
            Some(Tile::Empty)
        }
    }

    /// What entering the tile does: the board and player afterwards, and the
    /// outcome. The player stands on the entered cell.
    pub open spec fn effect(self, s: LevelView, p: Position) -> (LevelView, Position, MoveOutcome) {
        match self {
            Tile::Empty => (s, p, MoveOutcome::OK(None)),
            Tile::Wall => (s, p, MoveOutcome::Illegal),
            Tile::Finish => (s, p, MoveOutcome::Win),
            Tile::PlayerRotate(side) => (
                s,
                Position { rotation: p.rotation.turned(side.delta()), ..p },
                MoveOutcome::OK(None),
            ),
            Tile::RowShift(f) => (
                LevelView {
                    grid: shifted_grid(s.grid, s.width as int, s.height as int, f, p.position),
                    ..s
                },
                p,
                MoveOutcome::OK(Some(wrapped_step(p.position, f, s.width as int, s.height as int))),
            ),
        }
    }
}

/// The side a rotation tile's metadata byte selects: `0` is `Left`.
pub open spec fn side_of_byte(b: u8) -> Side {
    if b == 0 {
        Side::Left
    } else {
        Side::Right
    }
}

/// The empty tile as a value of its own.
#[derive(Clone, Copy, Debug, PartialEq, Eq, Structural)]
pub struct TileEmpty;

/// The wall tile as a value of its own.
#[derive(Clone, Copy, Debug, PartialEq, Eq, Structural)]
pub struct TileWall;

/// The finish tile as a value of its own.
#[derive(Clone, Copy, Debug, PartialEq, Eq, Structural)]
pub struct TileFinish;

/// The rotation tile as a value of its own.
#[derive(Clone, Copy, Debug, PartialEq, Eq, Structural)]
pub struct TilePlayerRot {
    pub side: Side,
}

impl TileEmpty {
    pub open spec fn tile(self) -> Tile {
        Tile::Empty
    }

    pub fn name(&self) -> (r: String)
        ensures
            r@ == self.tile().name_spec(),
    {
        "empty".to_owned()
    }

    /// Leaves everything as it is and accepts the move.
    pub fn step(&self, level: &mut Level, player: &mut Position) -> (r: MoveOutcome)
        ensures
            *final(level) == *old(level),
            (final(level)@, *final(player), r) == self.tile().effect(old(level)@, *old(player)),
    {
        MoveOutcome::OK(None)
    }

    /// Needs no metadata.
    pub fn parse(_meta: &[u8]) -> (r: Option<TileEmpty>)
        ensures
            r == Some(TileEmpty),
    {
        Some(TileEmpty)
    }

    pub fn wrap(self) -> (r: Tile)
        ensures
            r == self.tile(),
    {
        Tile::Empty
    }
}

impl TileWall {
    pub open spec fn tile(self) -> Tile {
        Tile::Wall
    }

    pub fn name(&self) -> (r: String)
        ensures
            r@ == self.tile().name_spec(),
    {
        "wall".to_owned()
    }

    /// Refuses the move and changes nothing.
    pub fn step(&self, level: &mut Level, player: &mut Position) -> (r: MoveOutcome)
        ensures
            *final(level) == *old(level),
            (final(level)@, *final(player), r) == self.tile().effect(old(level)@, *old(player)),
    {
        MoveOutcome::Illegal
    }

    /// Needs no metadata.
    pub fn parse(_meta: &[u8]) -> (r: Option<TileWall>)
        ensures
            r == Some(TileWall),
    {
        Some(TileWall)
    }

    pub fn wrap(self) -> (r: Tile)
        ensures
            r == self.tile(),
    {
        Tile::Wall
    }
}

impl TileFinish {
    pub open spec fn tile(self) -> Tile {
        Tile::Finish
    }

    pub fn name(&self) -> (r: String)
        ensures
            r@ == self.tile().name_spec(),
    {
        "finish".to_owned()
    }

    /// Wins the game and changes nothing.
    pub fn step(&self, level: &mut Level, player: &mut Position) -> (r: MoveOutcome)
        ensures
            *final(level) == *old(level),
            (final(level)@, *final(player), r) == self.tile().effect(old(level)@, *old(player)),
    {
        MoveOutcome::Win
    }

    /// Needs no metadata.
    pub fn parse(_meta: &[u8]) -> (r: Option<TileFinish>)
        ensures
            r == Some(TileFinish),
    {
        Some(TileFinish)
    }

    pub fn wrap(self) -> (r: Tile)
        ensures
            r == self.tile(),
    {
        Tile::Finish
    }
}

impl TilePlayerRot {
    pub open spec fn tile(self) -> Tile {
        Tile::PlayerRotate(self.side)
    }

    pub fn name(&self) -> (r: String)
        ensures
            r@ == self.tile().name_spec(),
    {
        match self.side {
            Side::Right => "player_rot_right".to_owned(),
            Side::Left => "player_rot_left".to_owned(),
        }
    }

    /// Turns the player a quarter turn towards `side`; the player keeps its
    /// cell and the board is untouched.
    pub fn step(&self, level: &mut Level, player: &mut Position) -> (r: MoveOutcome)
        ensures
            *final(level) == *old(level),
            final(player).rotation.ord() == (old(player).rotation.ord() + self.side.delta()) % 4,
            (final(level)@, *final(player), r) == self.tile().effect(old(level)@, *old(player)),
    {
        player.rotation = player.rotation.rotate_by(self.side.rotation_delta());
        MoveOutcome::OK(None)
    }

    /// Reads the side from the first metadata byte (`0` is `Left`, anything
    /// else `Right`); `None` without metadata.
    pub fn parse(meta: &[u8]) -> (r: Option<TilePlayerRot>)
        ensures
            r matches Some(t) ==> Some(t.tile()) == Tile::from_record(3, meta@),
            r is None <==> Tile::from_record(3, meta@) is None,
    {
        if meta.len() == 0 {
            None
        } else if meta[0] == 0 {
            Some(TilePlayerRot { side: Side::Left })
        } else {
            Some(TilePlayerRot { side: Side::Right })
        }
    }

    pub fn wrap(self) -> (r: Tile)
        ensures
            r == self.tile(),
    {
        Tile::PlayerRotate(self.side)
    }
}

/// The row-shift tile as a value of its own.
#[derive(Clone, Copy, Debug, PartialEq, Eq, Structural)]
pub struct TileRowShift {
    pub facing: Facing,
}

impl TileRowShift {
    pub open spec fn tile(self) -> Tile {
        Tile::RowShift(self.facing)
    }

    /// Shifts the player's row or column one cell towards `facing`, wrapping,
    /// and reports where the player was carried.
    pub fn step(&self, level: &mut Level, player: &mut Position) -> (r: MoveOutcome)
        requires
            old(level).wf(),
            old(player).position.within(old(level).width as int, old(level).height as int),
        ensures
            final(level).wf(),
            (final(level)@, *final(player), r) == self.tile().effect(old(level)@, *old(player)),
    {
        let ghost g = level@.grid;
        let w = level.width;
        let h = level.height;
        let px = player.position.x as u8;
        let py = player.position.y as u8;
        let d = self.facing.forward();
        let mut rows = level.rows();
        let new_pos: Coord;
        match self.facing {
            Facing::Right | Facing::Left => {
                let mut row = rows.remove(py as usize);
                let ghost old_row = row@;
                if self.facing == Facing::Right {
                    let last = row[row.len() - 1];
                    row.insert(0, last);
                    let _ = row.remove(row.len() - 1);
                } else {
                    let first = row[0];
                    row.push(first);
                    let _ = row.remove(0);
                }
                assert forall|x: int| 0 <= x < w implies #[trigger] row@[x] == old_row[(x - d.x) % (w as int)] by {
                    lemma_wrap(x - d.x, w as int);
                }
                rows.insert(py as usize, row);
                new_pos = Coord { x: ((px as i32 + d.x + w as i32) as u32) % (w as u32), y: py as u32 };
            },
            Facing::Up | Facing::Down => {
                let mut i: u8 = 0;
                while i < h
                    invariant
                        level.wf(),
                        level@.grid == g,
                        w == level.width,
                        h == level.height,
                        px < w,
                        i <= h,
                        d.x == 0,
                        d.y == 1 || d.y == -1,
                        rows@.len() == h,
                        forall|y: int| 0 <= y < h ==> (#[trigger] rows@[y])@.len() == w,
                        forall|y: int| i <= y < h ==> (#[trigger] rows@[y])@ == g[y],
                        forall|y: int| 0 <= y < i ==> (#[trigger] rows@[y])@ == g[y].update(px as int, g[(y - d.y) % (h as int)][px as int]),
                    decreases h - i,
                {
                    let src = ((i as i32 - d.y + h as i32) as u32 % h as u32) as u8;
                    proof {
                        lemma_wrap(i - d.y, h as int);
                        lemma_mod_add_multiples_vanish(i - d.y, h as int);
                    }
                    let t = level.tile_at(px, src);
                    let ghost before = rows@;
                    let mut row = rows.remove(i as usize);
                    row.set(px as usize, t);
                    let ghost new_row = row;
                    rows.insert(i as usize, row);
                    assert(rows@ =~= before.update(i as int, new_row));
                    assert(new_row@ =~= g[i as int].update(px as int, g[(i - d.y) % (h as int)][px as int]));
                    i = i + 1;
                }
                new_pos = Coord { x: px as u32, y: ((py as i32 + d.y + h as i32) as u32) % (h as u32) };
            },
        }
        proof {
            lemma_wrap(px + d.x, w as int);
            lemma_wrap(py + d.y, h as int);
            lemma_mod_add_multiples_vanish(px + d.x, w as int);
            lemma_mod_add_multiples_vanish(py + d.y, h as int);
        }
        level.replace_all(rows);
        assert(level@.grid =~= shifted_grid(g, w as int, h as int, self.facing, player.position)) by {
            assert forall|y: int| 0 <= y < h implies level@.grid[y] =~= shifted_grid(g, w as int, h as int, self.facing, player.position)[y] by {
                assert forall|x: int| 0 <= x < w implies level@.grid[y][x] == shifted_grid(g, w as int, h as int, self.facing, player.position)[y][x] by {
                    lemma_small_mod(x as nat, w as nat);
                    lemma_small_mod(y as nat, h as nat);
                }
            }
        }
        MoveOutcome::OK(Some(new_pos))
    }

    pub fn name(&self) -> (r: String)
        ensures
            r@ == self.tile().name_spec(),
    {
        match self.facing {
            Facing::Up => "row_shift_up".to_owned(),
            Facing::Right => "row_shift_right".to_owned(),
            Facing::Down => "row_shift_down".to_owned(),
            Facing::Left => "row_shift_left".to_owned(),
        }
    }

    /// Reads the facing from the low two bits of the first metadata byte
    /// (`0` Up, `1` Right, `2` Down, `3` Left); `None` without metadata.
    pub fn parse(meta: &[u8]) -> (r: Option<TileRowShift>)
        ensures
            r matches Some(t) ==> Some(t.tile()) == Tile::from_record(4, meta@),
            r is None <==> Tile::from_record(4, meta@) is None,
    {
        if meta.len() == 0 {
            None
        } else {
            let b = meta[0];
            assert(b & 3 == b % 4) by (bit_vector);
            Some(TileRowShift { facing: Facing::from_quarter_turns(b & 3) })
        }
    }

    pub fn wrap(self) -> (r: Tile)
        ensures
            r == self.tile(),
    {
        Tile::RowShift(self.facing)
    }
}

impl Tile {
    /// Reads one tile record: kind tag `tag`, metadata `meta`. Unknown tags
    /// read as `Empty`.
    pub fn parse(tag: u8, meta: &[u8]) -> (r: Option<Tile>)
        ensures
            r == Tile::from_record(tag, meta@),
    {
        match tag {
            1 => match TileWall::parse(meta) {
                Some(t) => Some(t.wrap()),
                None => None,
            },
            2 => match TileFinish::parse(meta) {
                Some(t) => Some(t.wrap()),
                None => None,
            },
            3 => match TilePlayerRot::parse(meta) {
                Some(t) => Some(t.wrap()),
                None => None,
            },
            4 => match TileRowShift::parse(meta) {
                Some(t) => Some(t.wrap()),
                None => None,
            },
            _ => match TileEmpty::parse(meta) {
                Some(t) => Some(t.wrap()),
                None => None,
            },
        }
    }

    /// The tile's name, which picks its sprite (`sprites/tiles/{name}.png`).
    pub fn name(&self) -> (r: String)
        ensures
            r@ == self.name_spec(),
    {
        match *self {
            Tile::Empty => TileEmpty.name(),
            Tile::Wall => TileWall.name(),
            Tile::Finish => TileFinish.name(),
            Tile::PlayerRotate(side) => TilePlayerRot { side }.name(),
            Tile::RowShift(facing) => TileRowShift { facing }.name(),
        }
    }

    /// Applies the tile's effect to a player that has just entered it.
    pub fn step(&self, level: &mut Level, player: &mut Position) -> (r: MoveOutcome)
        requires
            old(level).wf(),
            old(player).position.within(old(level).width as int, old(level).height as int),
        ensures
            final(level).wf(),
            final(level).width == old(level).width,
            final(level).height == old(level).height,
            final(level).side_moves == old(level).side_moves,
            (final(level)@, *final(player), r) == self.effect(old(level)@, *old(player)),
    {
        match *self {
            Tile::Empty => TileEmpty.step(level, player),
            Tile::Wall => TileWall.step(level, player),
            Tile::Finish => TileFinish.step(level, player),
            Tile::PlayerRotate(side) => TilePlayerRot { side }.step(level, player),
            Tile::RowShift(facing) => TileRowShift { facing }.step(level, player),
        }
    }
}

/// Four turns towards the same side bring the player back to its facing,
/// on its cell.
pub proof fn lemma_four_turns_return(s: LevelView, p: Position, side: Side)
    ensures
        ({
            let t = Tile::PlayerRotate(side);
            let p1 = t.effect(s, p).1;
            let p2 = t.effect(s, p1).1;
            let p3 = t.effect(s, p2).1;
            t.effect(s, p3).1 == p
        }),
{
    match p.rotation {
        Facing::Up => {},
        Facing::Right => {},
        Facing::Down => {},
        Facing::Left => {},
    }
}

/// The tiles of the line that a shift towards `f` through `at` moves: the
/// row of `at` for a horizontal facing, its column otherwise.
pub open spec fn line_of(g: Seq<Seq<Tile>>, h: int, f: Facing, at: Coord) -> Seq<Tile> {
    if f.is_horizontal() {
        g[at.y as int]
    } else {
        Seq::new(h as nat, |y: int| g[y][at.x as int])
    }
}

/// A sequence whose element `i` is element `i - d` (cyclically) of another,
/// for `d` one step either way, holds the same tiles.
pub proof fn lemma_rotation_keeps_tiles(a: Seq<Tile>, b: Seq<Tile>, d: int)
    requires
        a.len() == b.len(),
        a.len() > 0,
        d == 1 || d == -1,
        forall|i: int| 0 <= i < b.len() ==> #[trigger] b[i] == a[(i - d) % (a.len() as int)],
    ensures
        b.to_multiset() == a.to_multiset(),
{
    let n = a.len() as int;
    if d == 1 {
        assert(b =~= seq![a.last()] + a.drop_last()) by {
            assert forall|i: int| 0 <= i < n implies b[i] == (seq![a.last()] + a.drop_last())[i] by {
                lemma_wrap(i - 1, n);
            }
        }
        assert(a =~= a.drop_last() + seq![a.last()]);
        vstd::seq_lib::lemma_seq_union_to_multiset_commutative(seq![a.last()], a.drop_last());
        assert((seq![a.last()] + a.drop_last()).to_multiset() =~= (a.drop_last() + seq![
            a.last(),
        ]).to_multiset());
    } else {
        assert(b =~= a.drop_first() + seq![a[0]]) by {
            assert forall|i: int| 0 <= i < n implies b[i] == (a.drop_first() + seq![a[0]])[i] by {
                lemma_wrap(i + 1, n);
            }
        }
        assert(a =~= seq![a[0]] + a.drop_first());
        vstd::seq_lib::lemma_seq_union_to_multiset_commutative(a.drop_first(), seq![a[0]]);
        assert((a.drop_first() + seq![a[0]]).to_multiset() =~= (seq![a[0]]
            + a.drop_first()).to_multiset());
    }
}

/// A shift moves the tiles of one line only, keeps the tiles of that line,
/// and carries the player one cell along it, wrapping at the edge.
pub proof fn lemma_shift_conserves_line(s: LevelView, p: Position, f: Facing)
    requires
        s.valid(),
        p.position.within(s.width as int, s.height as int),
    ensures
        ({
            let (s2, p2, r) = Tile::RowShift(f).effect(s, p);
            let (dx, dy) = f.forward_spec();
            let w = s.width as int;
            let h = s.height as int;
            &&& s2.valid()
            &&& s2.width == s.width && s2.height == s.height
            &&& s2.side_moves == s.side_moves
            &&& p2 == p
            &&& line_of(s2.grid, h, f, p.position).to_multiset() == line_of(
                s.grid,
                h,
                f,
                p.position,
            ).to_multiset()
            &&& forall|x: int, y: int|
                0 <= x < w && 0 <= y < h && !on_line(f, p.position, x, y) ==> #[trigger] s2.cell(x, y)
                    == s.cell(x, y)
            &&& r matches MoveOutcome::OK(Some(c)) && (if f.is_horizontal() {
                c.y == p.position.y && c.x == (p.position.x + dx) % w
            } else {
                c.x == p.position.x && c.y == (p.position.y + dy) % h
            })
        }),
{
    let w = s.width as int;
    let h = s.height as int;
    let (dx, dy) = f.forward_spec();
    let s2 = Tile::RowShift(f).effect(s, p).0;
    let at = p.position;
    let a = line_of(s.grid, h, f, at);
    let b = line_of(s2.grid, h, f, at);
    lemma_wrap(at.x + dx, w);
    lemma_wrap(at.y + dy, h);
    if f.is_horizontal() {
        assert forall|i: int| 0 <= i < b.len() implies #[trigger] b[i] == a[(i - dx) % (a.len() as int)] by {
            lemma_wrap(i - dx, w);
            vstd::arithmetic::div_mod::lemma_small_mod(at.y as nat, h as nat);
        }
        lemma_rotation_keeps_tiles(a, b, dx);
    } else {
        assert forall|i: int| 0 <= i < b.len() implies #[trigger] b[i] == a[(i - dy) % (a.len() as int)] by {
            lemma_wrap(i - dy, h);
            vstd::arithmetic::div_mod::lemma_small_mod(at.x as nat, w as nat);
        }
        lemma_rotation_keeps_tiles(a, b, dy);
    }
}

} // verus!
