use tile_puzzle::{move_player, Coord, Facing, Level, MoveReport, Position, Session, Side, Tile};

fn board(width: u8, height: u8, tiles: Vec<Tile>, side_moves: u8) -> Level {
    Level { width, height, level: tiles, side_moves }
}

#[test]
fn entering_finish_from_the_side_wins() {
    let mut level = board(3, 1, vec![Tile::Empty, Tile::Finish, Tile::Empty], 3);
    let mut player = Position::new(0, 0, Facing::Up);
    assert_eq!(move_player(&mut level, &mut player, Facing::Right), MoveReport::Win);
    assert_eq!(player.position, Coord::new(1, 0));
    assert_eq!(level.side_moves, 3);
}

#[test]
fn finish_wins_without_budget() {
    let mut level = board(2, 1, vec![Tile::Empty, Tile::Finish], 0);
    let mut player = Position::new(0, 0, Facing::Up);
    assert_eq!(move_player(&mut level, &mut player, Facing::Right), MoveReport::Win);
}

#[test]
fn moves_off_the_board_are_ignored() {
    let mut level = board(2, 2, vec![Tile::Empty; 4], 5);
    let mut player = Position::new(0, 0, Facing::Up);
    assert_eq!(move_player(&mut level, &mut player, Facing::Down), MoveReport::OutOfBounds);
    assert_eq!(move_player(&mut level, &mut player, Facing::Left), MoveReport::OutOfBounds);
    assert_eq!(player, Position::new(0, 0, Facing::Up));
    assert_eq!(level.side_moves, 5);
    let mut far = Position::new(1, 1, Facing::Up);
    assert_eq!(move_player(&mut level, &mut far, Facing::Up), MoveReport::OutOfBounds);
    assert_eq!(far, Position::new(1, 1, Facing::Up));
}

#[test]
fn input_is_relative_to_facing() {
    let mut level = board(2, 2, vec![Tile::Empty; 4], 0);
    // Facing Right, "up" steps right and costs nothing.
    let mut player = Position::new(0, 0, Facing::Right);
    assert_eq!(move_player(&mut level, &mut player, Facing::Up), MoveReport::Moved);
    assert_eq!(player.position, Coord::new(1, 0));
    // Facing Down, "down" steps up.
    let mut other = Position::new(0, 0, Facing::Down);
    assert_eq!(move_player(&mut level, &mut other, Facing::Down), MoveReport::Moved);
    assert_eq!(other.position, Coord::new(0, 1));
}

#[test]
fn walls_block_from_every_facing() {
    let mut level = board(3, 3, vec![
        Tile::Empty, Tile::Wall, Tile::Empty,
        Tile::Wall, Tile::Empty, Tile::Wall,
        Tile::Empty, Tile::Wall, Tile::Empty,
    ], 9);
    for facing in [Facing::Up, Facing::Right, Facing::Down, Facing::Left] {
        for dir in [Facing::Up, Facing::Right, Facing::Down, Facing::Left] {
            let mut player = Position::new(1, 1, facing);
            assert_eq!(move_player(&mut level, &mut player, dir), MoveReport::Blocked);
            assert_eq!(player, Position::new(1, 1, facing));
        }
    }
    assert_eq!(level.side_moves, 9);
}

#[test]
fn lateral_moves_spend_budget() {
    let mut level = board(3, 1, vec![Tile::Empty; 3], 1);
    let mut player = Position::new(0, 0, Facing::Up);
    assert_eq!(move_player(&mut level, &mut player, Facing::Right), MoveReport::Moved);
    assert_eq!(level.side_moves, 0);
    assert_eq!(player.position, Coord::new(1, 0));
    assert_eq!(move_player(&mut level, &mut player, Facing::Right), MoveReport::NoSideMoves);
    assert_eq!(level.side_moves, 0);
    assert_eq!(player.position, Coord::new(1, 0));
}

#[test]
fn forward_moves_are_free() {
    let mut level = board(1, 3, vec![Tile::Empty; 3], 0);
    let mut player = Position::new(0, 0, Facing::Up);
    assert_eq!(move_player(&mut level, &mut player, Facing::Up), MoveReport::Moved);
    assert_eq!(move_player(&mut level, &mut player, Facing::Up), MoveReport::Moved);
    assert_eq!(player.position, Coord::new(0, 2));
    assert_eq!(move_player(&mut level, &mut player, Facing::Down), MoveReport::Moved);
    assert_eq!(player.position, Coord::new(0, 1));
    assert_eq!(level.side_moves, 0);
}

#[test]
fn rotation_tile_turns_and_moves() {
    let mut level = board(1, 2, vec![Tile::Empty, Tile::PlayerRotate(Side::Right)], 0);
    let mut player = Position::new(0, 0, Facing::Up);
    assert_eq!(move_player(&mut level, &mut player, Facing::Up), MoveReport::Moved);
    assert_eq!(player, Position::new(0, 1, Facing::Right));
}

#[test]
fn rejected_lateral_move_keeps_tile_effects() {
    // The rotation stays although the player goes back.
    let mut level = board(2, 1, vec![Tile::Empty, Tile::PlayerRotate(Side::Left)], 0);
    let mut player = Position::new(0, 0, Facing::Up);
    assert_eq!(move_player(&mut level, &mut player, Facing::Right), MoveReport::NoSideMoves);
    assert_eq!(player, Position::new(0, 0, Facing::Left));
    // The shifted row stays although the player goes back.
    let shift = Tile::RowShift(Facing::Right);
    let mut level = board(3, 1, vec![Tile::Empty, shift, Tile::Wall], 0);
    let mut player = Position::new(0, 0, Facing::Up);
    assert_eq!(move_player(&mut level, &mut player, Facing::Right), MoveReport::NoSideMoves);
    assert_eq!(level.level, vec![Tile::Wall, Tile::Empty, shift]);
    assert_eq!(player.position, Coord::new(0, 0));
}

#[test]
fn shift_tile_carries_the_player() {
    let shift = Tile::RowShift(Facing::Right);
    let mut level = board(3, 1, vec![Tile::Empty, shift, Tile::Wall], 1);
    let mut player = Position::new(0, 0, Facing::Up);
    assert_eq!(move_player(&mut level, &mut player, Facing::Right), MoveReport::Moved);
    assert_eq!(level.level, vec![Tile::Wall, Tile::Empty, shift]);
    assert_eq!(player.position, Coord::new(2, 0));
    assert_eq!(level.side_moves, 0);
}

#[test]
fn session_needs_a_cell() {
    assert!(Session::new(board(0, 3, vec![], 0)).is_none());
    assert!(Session::new(board(3, 0, vec![], 0)).is_none());
    let s = Session::new(board(1, 1, vec![Tile::Empty], 0)).unwrap();
    assert_eq!(s.player, Position::new(0, 0, Facing::Up));
    assert!(!s.won);
}

#[test]
fn won_session_ignores_moves() {
    let mut s = Session::new(board(1, 3, vec![Tile::Empty, Tile::Finish, Tile::Empty], 2)).unwrap();
    assert_eq!(s.make_move(Facing::Up), MoveReport::Win);
    assert!(s.won);
    let player = s.player;
    for dir in [Facing::Up, Facing::Down, Facing::Left, Facing::Right] {
        assert_eq!(s.make_move(dir), MoveReport::Finished);
        assert_eq!(s.player, player);
        assert_eq!(s.level.side_moves, 2);
        assert_eq!(s.level.level, vec![Tile::Empty, Tile::Finish, Tile::Empty]);
    }
}

#[test]
fn player_stays_on_board_and_budget_only_falls() {
    let tiles = vec![
        Tile::Empty, Tile::RowShift(Facing::Up), Tile::Wall, Tile::PlayerRotate(Side::Left),
        Tile::RowShift(Facing::Left), Tile::Empty, Tile::PlayerRotate(Side::Right), Tile::Empty,
        Tile::Empty, Tile::RowShift(Facing::Down), Tile::Empty, Tile::RowShift(Facing::Right),
    ];
    let mut s = Session::new(board(4, 3, tiles, 20)).unwrap();
    let dirs = [Facing::Up, Facing::Right, Facing::Left, Facing::Down];
    let mut budget = s.level.side_moves;
    for k in 0..200usize {
        let dir = dirs[(k * 7 + k / 3) % 4];
        let r = s.make_move(dir);
        assert!(s.player.position.x < 4 && s.player.position.y < 3);
        assert_eq!(s.level.level.len(), 12);
        assert!(s.level.side_moves <= budget);
        assert!(s.level.side_moves + 1 >= budget);
        if s.level.side_moves < budget {
            assert_eq!(r, MoveReport::Moved);
            assert!(dir == Facing::Left || dir == Facing::Right);
        }
        budget = s.level.side_moves;
    }
}
