//! Resolution of one directional move: the target cell, the tile's effect,
//! the budget of lateral moves, and the session that ends on a win.
use vstd::prelude::*;
use crate::facing::Facing;
use crate::level::{Level, LevelView};
use crate::position::{Coord, Position};
use crate::tile::{MoveOutcome, Tile};

verus! {

/// What became of a move request.
#[derive(Clone, Copy, Debug, PartialEq, Eq, Structural)]
pub enum MoveReport {
    /// The target cell is off the board; nothing changed.
    OutOfBounds,
    /// The target tile cannot be entered; nothing changed.
    Blocked,
    /// A lateral move with no budget left: the player stays where it was,
    /// though the entered tile's effect on the board and on the facing stays.
    NoSideMoves,
    /// The player moved.
    Moved,
    /// The player entered a finish tile.
    Win,
    /// The session was already won; nothing changed.
    Finished,
}

/// The cell a move `dir` aims at. `dir` is relative to the player's facing:
/// the step taken is that of the facing composed with `dir`.
pub open spec fn target_of(p: Position, dir: Facing) -> (int, int) {
    let (dx, dy) = p.rotation.composed(dir).forward_spec();
    (p.position.x + dx, p.position.y + dy)
}

/// The board, the player and the report after the move `dir`.
pub open spec fn resolve(s: LevelView, p: Position, dir: Facing) -> (LevelView, Position, MoveReport) {
    let (tx, ty) = target_of(p, dir);
    if !(0 <= tx < s.width && 0 <= ty < s.height) {
        (s, p, MoveReport::OutOfBounds)
    } else {
        let entered = Position { position: Coord { x: tx as u32, y: ty as u32 }, ..p };
        let (s2, p2, outcome) = s.cell(tx, ty).effect(s, entered);
        match outcome {
            MoveOutcome::Illegal => (s2, Position { position: p.position, ..p2 }, MoveReport::Blocked),
            MoveOutcome::Win => (s2, p2, MoveReport::Win),
            MoveOutcome::OK(carried) => {
                let dest = match carried {
                    Some(c) => c,
                    None => entered.position,
                };
                if !dir.is_horizontal() {
                    (s2, Position { position: dest, ..p2 }, MoveReport::Moved)
                } else if s2.side_moves > 0 {
                    (
                        LevelView { side_moves: (s2.side_moves - 1) as nat, ..s2 },
                        Position { position: dest, ..p2 },
                        MoveReport::Moved,
                    )
                } else {
                    (s2, Position { position: p.position, ..p2 }, MoveReport::NoSideMoves)
                }
            },
        }
    }
}

/// The session after the move `dir`: the board, the player, and whether
/// the game is won. A won game no longer changes.
pub open spec fn session_step(s: LevelView, p: Position, won: bool, dir: Facing) -> (
    LevelView,
    Position,
    bool,
) {
    if won {
        (s, p, true)
    } else {
        let (s2, p2, r) = resolve(s, p, dir);
        (s2, p2, r == MoveReport::Win)
    }
}

/// The session after the moves `dirs`, in order.
pub open spec fn run(s: LevelView, p: Position, won: bool, dirs: Seq<Facing>) -> (
    LevelView,
    Position,
    bool,
)
    decreases dirs.len(),
{
    if dirs.len() == 0 {
        (s, p, won)
    } else {
        let (s2, p2, w2) = session_step(s, p, won, dirs[0]);
        run(s2, p2, w2, dirs.drop_first())
    }
}

/// One move keeps a valid board valid, with its dimensions, and keeps a
/// player that stands on the board on it.
pub proof fn lemma_move_keeps_player_on_board(s: LevelView, p: Position, dir: Facing)
    requires
        s.valid(),
        p.position.within(s.width as int, s.height as int),
    ensures
        resolve(s, p, dir).0.valid(),
        resolve(s, p, dir).0.width == s.width,
        resolve(s, p, dir).0.height == s.height,
        resolve(s, p, dir).1.position.within(s.width as int, s.height as int),
{
}

/// Whatever the moves, a player that starts on a valid board stays on it.
pub proof fn lemma_player_stays_on_board(s: LevelView, p: Position, won: bool, dirs: Seq<Facing>)
    requires
        s.valid(),
        p.position.within(s.width as int, s.height as int),
    ensures
        run(s, p, won, dirs).0.valid(),
        run(s, p, won, dirs).0.width == s.width,
        run(s, p, won, dirs).0.height == s.height,
        run(s, p, won, dirs).1.position.within(s.width as int, s.height as int),
    decreases dirs.len(),
{
    if dirs.len() > 0 {
        lemma_move_keeps_player_on_board(s, p, dirs[0]);
        let (s2, p2, w2) = session_step(s, p, won, dirs[0]);
        lemma_player_stays_on_board(s2, p2, w2, dirs.drop_first());
    }
}

/// Entering a wall, whatever the facing and the direction, leaves the board
/// and the player (cell and facing) as they were.
pub proof fn lemma_wall_blocks(s: LevelView, p: Position, dir: Facing)
    requires
        ({
            let (tx, ty) = target_of(p, dir);
            &&& 0 <= tx < s.width
            &&& 0 <= ty < s.height
            &&& s.cell(tx, ty) == Tile::Wall
        }),
    ensures
        resolve(s, p, dir) == (s, p, MoveReport::Blocked),
{
}

/// One move spends at most one side move, and only on an accepted lateral
/// move; it never adds any.
pub proof fn lemma_move_budget(s: LevelView, p: Position, dir: Facing)
    ensures
        ({
            let (s2, p2, r) = resolve(s, p, dir);
            &&& s2.side_moves <= s.side_moves
            &&& s2.side_moves + 1 >= s.side_moves
            &&& s2.side_moves < s.side_moves ==> r == MoveReport::Moved && dir.is_horizontal()
        }),
{
}

/// Over any moves the budget of side moves never grows, and it shrinks by
/// at most one per move.
pub proof fn lemma_budget_never_grows(s: LevelView, p: Position, won: bool, dirs: Seq<Facing>)
    ensures
        run(s, p, won, dirs).0.side_moves <= s.side_moves,
        run(s, p, won, dirs).0.side_moves + dirs.len() >= s.side_moves,
    decreases dirs.len(),
{
    if dirs.len() > 0 {
        lemma_move_budget(s, p, dirs[0]);
        let (s2, p2, w2) = session_step(s, p, won, dirs[0]);
        lemma_budget_never_grows(s2, p2, w2, dirs.drop_first());
    }
}

/// Once the game is won, no move changes the board or the player.
pub proof fn lemma_won_game_is_final(s: LevelView, p: Position, dirs: Seq<Facing>)
    ensures
        run(s, p, true, dirs) == (s, p, true),
    decreases dirs.len(),
{
    if dirs.len() > 0 {
        lemma_won_game_is_final(s, p, dirs.drop_first());
    }
}

/// Resolves the move `dir` (relative to the player's facing) on the board.
///
/// A target off the board changes nothing. Otherwise the player enters the
/// target and its tile acts: a wall sends the player back, a finish wins,
/// other tiles accept the move, maybe carrying the player elsewhere. An
/// accepted lateral move (`dir` Left or Right) costs one side move, and with
/// none left the player goes back to where it was.
pub fn move_player(level: &mut Level, player: &mut Position, dir: Facing) -> (r: MoveReport)
    requires
        old(level).wf(),
    ensures
        final(level).wf(),
        final(level).width == old(level).width,
        final(level).height == old(level).height,
        (final(level)@, *final(player), r) == resolve(old(level)@, *old(player), dir),
{
    let step = player.rotation.add_rotation(dir).forward();
    let tx: i64 = player.position.x as i64 + step.x as i64;
    let ty: i64 = player.position.y as i64 + step.y as i64;
    if tx < 0 || ty < 0 || tx >= level.width as i64 || ty >= level.height as i64 {
        return MoveReport::OutOfBounds;
    }
    let new_pos = Coord { x: tx as u32, y: ty as u32 };
    let old_pos = player.position;
    player.position = new_pos;
    let tile = level.tile_at_vec(new_pos);
    match tile.step(level, player) {
        MoveOutcome::OK(carried) => {
            let dest = match carried {
                Some(c) => c,
                None => new_pos,
            };
            if dir == Facing::Up || dir == Facing::Down {
                player.position = dest;
                MoveReport::Moved
            } else if level.side_moves > 0 {
                level.side_moves = level.side_moves - 1;
                player.position = dest;
                MoveReport::Moved
            } else {
                player.position = old_pos;
                MoveReport::NoSideMoves
            }
        },
        MoveOutcome::Win => MoveReport::Win,
        MoveOutcome::Illegal => {
            player.position = old_pos;
            MoveReport::Blocked
        },
    }
}

/// One game: the board, the single player, and whether it has been won.
pub struct Session {
    pub level: Level,
    pub player: Position,
    pub won: bool,
}

impl Session {
    /// The board is well formed and the player stands on it.
    pub open spec fn wf(&self) -> bool {
        &&& self.level.wf()
        &&& self.player.position.within(self.level.width as int, self.level.height as int)
    }

    /// Starts a game with the player at `(0, 0)` facing `Up`; `None` when the
    /// board has no cell.
    pub fn new(level: Level) -> (r: Option<Session>)
        requires
            level.wf(),
        ensures
            r is Some <==> level.width > 0 && level.height > 0,
            r matches Some(s) ==> {
                &&& s.wf()
                &&& s.level == level
                &&& s.player == Position { position: Coord { x: 0, y: 0 }, rotation: Facing::Up }
                &&& !s.won
            },
    {
        if level.width == 0 || level.height == 0 {
            None
        } else {
            Some(Session { level, player: Position::new(0, 0, Facing::Up), won: false })
        }
    }

    /// Plays the move `dir`. Once the game is won nothing changes any more.
    pub fn make_move(&mut self, dir: Facing) -> (r: MoveReport)
        requires
            old(self).wf(),
        ensures
            final(self).wf(),
            old(self).won ==> *final(self) == *old(self) && r == MoveReport::Finished,
            !old(self).won ==> {
                &&& (final(self).level@, final(self).player, r) == resolve(
                    old(self).level@,
                    old(self).player,
                    dir,
                )
                &&& final(self).won == (r == MoveReport::Win)
            },
            (final(self).level@, final(self).player, final(self).won) == session_step(
                old(self).level@,
                old(self).player,
                old(self).won,
                dir,
            ),
    {
        if self.won {
            return MoveReport::Finished;
        }
        let r = move_player(&mut self.level, &mut self.player, dir);
        if r == MoveReport::Win {
            self.won = true;
        }
        r
    }
}

} // verus!
