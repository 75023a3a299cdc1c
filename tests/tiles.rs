use tile_puzzle::{
    Coord, Facing, Level, MoveOutcome, Position, Side, Tile, TileEmpty, TileFinish, TilePlayerRot,
    TileRowShift, TileWall,
};

fn board(width: u8, height: u8, tiles: Vec<Tile>) -> Level {
    Level { width, height, level: tiles, side_moves: 0 }
}

#[test]
fn tile_names_pick_sprites() {
    assert_eq!(Tile::Empty.name(), "empty");
    assert_eq!(Tile::Wall.name(), "wall");
    assert_eq!(Tile::Finish.name(), "finish");
    assert_eq!(Tile::PlayerRotate(Side::Left).name(), "player_rot_left");
    assert_eq!(Tile::PlayerRotate(Side::Right).name(), "player_rot_right");
    assert_eq!(Tile::RowShift(Facing::Up).name(), "row_shift_up");
    assert_eq!(Tile::RowShift(Facing::Right).name(), "row_shift_right");
    assert_eq!(Tile::RowShift(Facing::Down).name(), "row_shift_down");
    assert_eq!(Tile::RowShift(Facing::Left).name(), "row_shift_left");
    assert_eq!(TileEmpty.name(), "empty");
    assert_eq!(TileWall.name(), "wall");
    assert_eq!(TileFinish.name(), "finish");
}

#[test]
fn rotation_metadata_zero_is_left() {
    assert_eq!(TilePlayerRot::parse(&[0x00]), Some(TilePlayerRot { side: Side::Left }));
    assert_eq!(TilePlayerRot::parse(&[0x07, 0x00]), Some(TilePlayerRot { side: Side::Right }));
    assert_eq!(TilePlayerRot::parse(&[]), None);
}

#[test]
fn shift_metadata_reads_low_two_bits() {
    assert_eq!(TileRowShift::parse(&[0]), Some(TileRowShift { facing: Facing::Up }));
    assert_eq!(TileRowShift::parse(&[1]), Some(TileRowShift { facing: Facing::Right }));
    assert_eq!(TileRowShift::parse(&[2]), Some(TileRowShift { facing: Facing::Down }));
    assert_eq!(TileRowShift::parse(&[3]), Some(TileRowShift { facing: Facing::Left }));
    assert_eq!(TileRowShift::parse(&[0xfe]), Some(TileRowShift { facing: Facing::Down }));
    assert_eq!(TileRowShift::parse(&[]), None);
}

#[test]
fn record_tags_select_kinds() {
    assert_eq!(Tile::parse(0, &[]), Some(Tile::Empty));
    assert_eq!(Tile::parse(1, &[9]), Some(Tile::Wall));
    assert_eq!(Tile::parse(2, &[]), Some(Tile::Finish));
    assert_eq!(Tile::parse(3, &[1]), Some(Tile::PlayerRotate(Side::Right)));
    assert_eq!(Tile::parse(4, &[3]), Some(Tile::RowShift(Facing::Left)));
    assert_eq!(Tile::parse(3, &[]), None);
    assert_eq!(Tile::parse(4, &[]), None);
    assert_eq!(Tile::parse(9, &[]), Some(Tile::Empty));
    assert_eq!(Tile::parse(15, &[1, 2]), Some(Tile::Empty));
}

#[test]
fn wrap_gives_the_tile_kind() {
    assert_eq!(TileEmpty.wrap(), Tile::Empty);
    assert_eq!(TileWall.wrap(), Tile::Wall);
    assert_eq!(TileFinish.wrap(), Tile::Finish);
    assert_eq!(TilePlayerRot { side: Side::Left }.wrap(), Tile::PlayerRotate(Side::Left));
    assert_eq!(TileRowShift { facing: Facing::Down }.wrap(), Tile::RowShift(Facing::Down));
}

#[test]
fn plain_tiles_change_nothing() {
    let mut level = board(2, 1, vec![Tile::Empty, Tile::Wall]);
    let mut player = Position::new(0, 0, Facing::Right);
    assert_eq!(Tile::Empty.step(&mut level, &mut player), MoveOutcome::OK(None));
    assert_eq!(Tile::Wall.step(&mut level, &mut player), MoveOutcome::Illegal);
    assert_eq!(Tile::Finish.step(&mut level, &mut player), MoveOutcome::Win);
    assert_eq!(player, Position::new(0, 0, Facing::Right));
    assert_eq!(level.level, vec![Tile::Empty, Tile::Wall]);
}

#[test]
fn rotate_left_from_up_faces_left() {
    let rot = TilePlayerRot::parse(&[0x00]).unwrap();
    let mut level = board(1, 1, vec![rot.wrap()]);
    let mut player = Position::new(0, 0, Facing::Up);
    assert_eq!(rot.step(&mut level, &mut player), MoveOutcome::OK(None));
    assert_eq!(player.rotation, Facing::Left);
    assert_eq!(player.position, Coord::new(0, 0));
}

#[test]
fn four_rotations_restore_the_facing() {
    for side in [Side::Left, Side::Right] {
        for facing in [Facing::Up, Facing::Right, Facing::Down, Facing::Left] {
            let tile = Tile::PlayerRotate(side);
            let mut level = board(1, 1, vec![tile]);
            let mut player = Position::new(0, 0, facing);
            for turn in 0..4 {
                tile.step(&mut level, &mut player);
                if turn < 3 {
                    assert_ne!(player.rotation, facing);
                }
            }
            assert_eq!(player.rotation, facing);
        }
    }
}

#[test]
fn shift_right_rotates_row_and_carries_player() {
    let a = Tile::RowShift(Facing::Right);
    let b = Tile::Wall;
    let c = Tile::Finish;
    let d = Tile::PlayerRotate(Side::Left);
    let mut level = board(4, 1, vec![a, b, c, d]);
    let mut player = Position::new(0, 0, Facing::Up);
    let out = TileRowShift { facing: Facing::Right }.step(&mut level, &mut player);
    assert_eq!(level.level, vec![d, a, b, c]);
    assert_eq!(out, MoveOutcome::OK(Some(Coord::new(1, 0))));
    assert_eq!(player, Position::new(0, 0, Facing::Up));
}

#[test]
fn shift_left_wraps_player_to_last_column() {
    let a = Tile::RowShift(Facing::Left);
    let mut level = board(3, 2, vec![a, Tile::Wall, Tile::Finish, Tile::Empty, Tile::Wall, Tile::Empty]);
    let mut player = Position::new(0, 0, Facing::Up);
    let out = a.step(&mut level, &mut player);
    assert_eq!(level.level, vec![Tile::Wall, Tile::Finish, a, Tile::Empty, Tile::Wall, Tile::Empty]);
    assert_eq!(out, MoveOutcome::OK(Some(Coord::new(2, 0))));
}

#[test]
fn shift_up_moves_column_towards_higher_rows() {
    let s = Tile::RowShift(Facing::Up);
    // 2 wide, 3 high; column 1 holds Wall, s, Finish from row 0 to row 2.
    let mut level = board(2, 3, vec![Tile::Empty, Tile::Wall, Tile::Empty, s, Tile::Empty, Tile::Finish]);
    let mut player = Position::new(1, 1, Facing::Up);
    let out = s.step(&mut level, &mut player);
    assert_eq!(level.level, vec![Tile::Empty, Tile::Finish, Tile::Empty, Tile::Wall, Tile::Empty, s]);
    assert_eq!(out, MoveOutcome::OK(Some(Coord::new(1, 2))));
}

#[test]
fn shift_down_wraps_player_to_top_row() {
    let s = Tile::RowShift(Facing::Down);
    let mut level = board(2, 3, vec![Tile::Empty, s, Tile::Wall, Tile::Empty, Tile::Finish, Tile::Empty]);
    let mut player = Position::new(1, 0, Facing::Left);
    let out = s.step(&mut level, &mut player);
    assert_eq!(level.level, vec![Tile::Empty, Tile::Empty, Tile::Wall, Tile::Empty, Tile::Finish, s]);
    assert_eq!(out, MoveOutcome::OK(Some(Coord::new(1, 2))));
}

#[test]
fn shift_keeps_the_tiles_of_the_line() {
    let s = Tile::RowShift(Facing::Right);
    let row = vec![s, Tile::Wall, Tile::Finish, Tile::Wall, Tile::Empty];
    let mut level = board(5, 2, [row.clone(), vec![Tile::Empty; 5]].concat());
    let mut player = Position::new(0, 0, Facing::Up);
    s.step(&mut level, &mut player);
    let shifted = level.rows();
    let count = |r: &Vec<Tile>, t: Tile| r.iter().filter(|x| **x == t).count();
    for t in [s, Tile::Wall, Tile::Finish, Tile::Empty] {
        assert_eq!(count(&shifted[0], t), count(&row, t));
    }
    assert_ne!(shifted[0], row);
    assert_eq!(shifted[1], vec![Tile::Empty; 5]);
}

#[test]
fn tile_at_and_rows_read_row_major() {
    let level = board(3, 2, vec![Tile::Empty, Tile::Wall, Tile::Finish, Tile::Wall, Tile::Empty, Tile::Finish]);
    assert_eq!(level.tile_at(1, 0), Tile::Wall);
    assert_eq!(level.tile_at(2, 0), Tile::Finish);
    assert_eq!(level.tile_at(0, 1), Tile::Wall);
    assert_eq!(level.tile_at_vec(Coord::new(2, 1)), Tile::Finish);
    let rows = level.rows();
    assert_eq!(rows, vec![vec![Tile::Empty, Tile::Wall, Tile::Finish], vec![Tile::Wall, Tile::Empty, Tile::Finish]]);
}

#[test]
fn replace_all_flattens_rows() {
    let mut level = board(2, 2, vec![Tile::Empty; 4]);
    level.side_moves = 7;
    level.replace_all(vec![vec![Tile::Wall, Tile::Empty], vec![Tile::Finish, Tile::Wall]]);
    assert_eq!(level.level, vec![Tile::Wall, Tile::Empty, Tile::Finish, Tile::Wall]);
    assert_eq!((level.width, level.height, level.side_moves), (2, 2, 7));
}
