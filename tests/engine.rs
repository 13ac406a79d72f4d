use textris::block::Block;
use textris::coord::{Coord, Dir, RotateDir};
use textris::field::Field;
use textris::play::{Play, Random};
use textris::tetromino::Tetromino;

fn b(c: char) -> Option<Block> {
    Some(Block { chr: c })
}

fn filled_count(f: &Field) -> usize {
    f.lines_iter().map(|l| l.iter().filter(|c| c.is_some()).count()).sum()
}

fn piece_cells(p: &Play) -> Vec<Coord> {
    p.tetro().make_coords(p.piece_pos(), p.tetro_dir())
}

#[test]
fn new_game() {
    let p = Play::new();
    assert_eq!(p.score(), 0);
    assert_eq!(p.elapsed().secs(), 0);
    assert_eq!(p.field().width(), 16);
    assert_eq!(p.field().height(), 16);
    let pos = p.piece_pos();
    assert_eq!(pos.1, 0);
    assert!(2 <= pos.0 && pos.0 < 14);
    let on_field = piece_cells(&p).into_iter().filter(|c| p.field().is_in_range(*c)).count();
    assert_eq!(filled_count(p.field()), on_field);
    for c in piece_cells(&p) {
        if p.field().is_in_range(c) {
            assert_eq!(p.field().get(c), b('I'));
        }
    }
}

#[test]
fn vertical_piece_falls_until_blocked() {
    let mut p = Play::from_field(Field::new(16, 16), Tetromino::I, Dir::Up, Coord(5, 0));
    for _ in 0..7 {
        assert_eq!(p.move_piece(Dir::Down), Ok(()));
    }
    assert_eq!(p.piece_pos(), Coord(5, 7));
    for y in 7..11 {
        assert_eq!(p.field().get(Coord(5, y)), b('I'));
    }
    assert_eq!(p.field().get(Coord(5, 6)), None);
    let mut f = Field::new(16, 16);
    for y in 7..11 {
        f.set(Coord(5, y), b('I'));
    }
    f.set(Coord(5, 11), b('X'));
    let mut p = Play::from_field(f, Tetromino::I, Dir::Up, Coord(5, 7));
    assert_eq!(p.move_piece(Dir::Down), Err(()));
    assert_eq!(p.piece_pos(), Coord(5, 7));
    for y in 7..11 {
        assert_eq!(p.field().get(Coord(5, y)), b('I'));
    }
    assert_eq!(p.field().get(Coord(5, 11)), b('X'));
    assert_eq!(filled_count(p.field()), 5);
}

#[test]
fn filling_the_gap_clears_the_row() {
    let mut f = Field::new(16, 16);
    for x in 0..16i8 {
        if x != 5 {
            f.set(Coord(x, 15), b('O'));
        }
    }
    f.set(Coord(0, 14), b('M'));
    let mut p = Play::from_field(f, Tetromino::I, Dir::Up, Coord(5, 12));
    assert_eq!(filled_count(p.field()), 15 + 1 + 4);
    assert_eq!(p.update(), Ok(()));
    assert_eq!(p.score(), 1);
    let f = p.field();
    // the rows above moved down by one
    assert_eq!(f.get(Coord(0, 15)), b('M'));
    assert_eq!(f.get(Coord(5, 15)), b('I'));
    assert_eq!(f.get(Coord(5, 14)), b('I'));
    assert_eq!(f.get(Coord(5, 13)), b('I'));
    assert_eq!(f.get(Coord(5, 12)), None);
    for x in 1..16i8 {
        if x != 5 {
            assert_eq!(f.get(Coord(x, 15)), None);
        }
    }
    // the row on top is new: only the freshly spawned piece is there
    let cells = piece_cells(&p);
    for x in 0..16i8 {
        let expected = if cells.contains(&Coord(x, 0)) { b('I') } else { None };
        assert_eq!(f.get(Coord(x, 0)), expected);
    }
    assert_eq!(p.piece_pos().1, 0);
    // twenty filled cells, one full row of sixteen gone, then the new piece
    let spawned = cells.iter().filter(|c| f.is_in_range(**c)).count();
    assert_eq!(filled_count(f), 20 - 16 + spawned);
}

#[test]
fn grace_tick_after_spawn() {
    let mut f = Field::new(16, 16);
    for x in 0..16i8 {
        if x != 5 {
            f.set(Coord(x, 15), b('O'));
        }
    }
    let mut p = Play::from_field(f, Tetromino::I, Dir::Up, Coord(5, 12));
    assert_eq!(p.update(), Ok(()));
    let spawned = p.piece_pos();
    assert_eq!(p.update(), Ok(()));
    assert_eq!(p.piece_pos(), spawned);
    assert_eq!(p.update(), Ok(()));
    assert_eq!(p.piece_pos(), Coord(spawned.0, 1));
}

#[test]
fn lock_on_top_row_ends_game() {
    let mut f = Field::new(16, 16);
    f.set(Coord(5, 4), b('X'));
    let mut p = Play::from_field(f, Tetromino::I, Dir::Up, Coord(5, 0));
    assert_eq!(p.update(), Err(()));
    assert_eq!(p.score(), 0);
    assert_eq!(p.piece_pos(), Coord(5, 0));
    assert_eq!(filled_count(p.field()), 5);
    for y in 0..4 {
        assert_eq!(p.field().get(Coord(5, y)), b('I'));
    }
    assert!(p.field().is_reached());
}

#[test]
fn repeated_locks_end_the_game() {
    let mut p = Play::new();
    let mut over = false;
    for _ in 0..1_000_000 {
        let before: Vec<Vec<Option<Block>>> = p.field().lines_iter().cloned().collect();
        let pos = p.piece_pos();
        let score = p.score();
        if p.update().is_err() {
            over = true;
            // nothing new was spawned
            assert_eq!(p.piece_pos(), pos);
            if p.score() == score {
                let after: Vec<Vec<Option<Block>>> = p.field().lines_iter().cloned().collect();
                assert_eq!(after, before);
            }
            break;
        }
    }
    assert!(over);
    assert!(p.field().is_reached());
}

#[test]
fn slides_and_blocked_slides() {
    let mut p = Play::from_field(Field::new(16, 16), Tetromino::I, Dir::Up, Coord(1, 3));
    p.slide_piece(Dir::Left);
    assert_eq!(p.piece_pos(), Coord(0, 3));
    p.slide_piece(Dir::Left);
    assert_eq!(p.piece_pos(), Coord(0, 3));
    p.slide_piece(Dir::Up);
    assert_eq!(p.piece_pos(), Coord(0, 3));
    p.slide_piece(Dir::Down);
    assert_eq!(p.piece_pos(), Coord(0, 4));
    p.slide_piece(Dir::Right);
    assert_eq!(p.piece_pos(), Coord(1, 4));
    assert_eq!(filled_count(p.field()), 4);
    for y in 4..8 {
        assert_eq!(p.field().get(Coord(1, y)), b('I'));
    }
}

#[test]
fn rotation_in_place_and_rejected() {
    let mut p = Play::from_field(Field::new(16, 16), Tetromino::I, Dir::Up, Coord(5, 5));
    p.rotate_piece(RotateDir::Clockwise);
    assert_eq!(p.tetro_dir(), Dir::Right);
    for x in 5..9 {
        assert_eq!(p.field().get(Coord(x, 5)), b('I'));
    }
    assert_eq!(filled_count(p.field()), 4);
    p.rotate_piece(RotateDir::Clockwise);
    p.rotate_piece(RotateDir::Clockwise);
    p.rotate_piece(RotateDir::AntiClockwise);
    p.rotate_piece(RotateDir::AntiClockwise);
    assert_eq!(p.tetro_dir(), Dir::Right);
    p.rotate_piece(RotateDir::AntiClockwise);
    assert_eq!(p.tetro_dir(), Dir::Up);

    let mut f = Field::new(16, 16);
    f.set(Coord(7, 5), b('X'));
    let mut p = Play::from_field(f, Tetromino::I, Dir::Up, Coord(5, 5));
    p.rotate_piece(RotateDir::Clockwise);
    assert_eq!(p.tetro_dir(), Dir::Up);
    for y in 5..9 {
        assert_eq!(p.field().get(Coord(5, y)), b('I'));
    }
    assert_eq!(filled_count(p.field()), 5);
}

#[test]
fn rotation_at_right_edge_is_rejected() {
    let mut p = Play::from_field(Field::new(16, 16), Tetromino::I, Dir::Up, Coord(14, 3));
    p.rotate_piece(RotateDir::Clockwise);
    assert_eq!(p.tetro_dir(), Dir::Up);
    assert_eq!(filled_count(p.field()), 4);
}

#[test]
fn piece_may_rise_above_the_ceiling() {
    let mut p = Play::from_field(Field::new(16, 16), Tetromino::I, Dir::Up, Coord(3, 0));
    assert_eq!(p.move_piece(Dir::Up), Ok(()));
    assert_eq!(p.piece_pos(), Coord(3, -1));
    assert_eq!(filled_count(p.field()), 3);
    assert_eq!(p.move_piece(Dir::Down), Ok(()));
    assert_eq!(filled_count(p.field()), 4);
}

#[test]
fn clock_ticks() {
    let mut p = Play::new();
    p.tick();
    p.tick();
    assert_eq!(p.elapsed().secs(), 2);
}

#[test]
fn spawn_at_given_spot() {
    let mut p = Play::from_field(Field::new(16, 16), Tetromino::I, Dir::Up, Coord(0, 10));
    p.spawn_piece_at(Tetromino::I, Dir::Left, Coord(4, 0));
    assert_eq!(p.piece_pos(), Coord(4, 0));
    assert_eq!(p.tetro_dir(), Dir::Left);
    for x in 4..8 {
        assert_eq!(p.field().get(Coord(x, 0)), b('I'));
    }
    assert_eq!(filled_count(p.field()), 8);
}

#[test]
fn spawn_columns_stay_inside() {
    let mut r = Random::new(rand::thread_rng());
    let mut columns = std::collections::BTreeSet::new();
    let mut facings = Vec::new();
    for _ in 0..2000 {
        let t = r.random_tetro();
        let d = r.random_tetro_dir();
        let pos = r.random_piece_pos(16);
        assert_eq!(t, Tetromino::I);
        assert_eq!(pos.1, 0);
        assert!(2 <= pos.0 && pos.0 < 14);
        let f = Field::new(16, 16);
        for facing in Dir::all().iter() {
            let cells = t.make_coords(pos, *facing);
            let horizontal = *facing == Dir::Left || *facing == Dir::Right;
            if !(horizontal && pos.0 == 13) {
                assert!(cells.iter().all(|c| f.is_in_range(*c)));
            }
        }
        columns.insert(pos.0);
        if !facings.contains(&d) {
            facings.push(d);
        }
    }
    assert!(columns.len() > 1);
    assert!(facings.len() > 1);
}
