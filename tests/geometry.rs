use textris::coord::{Coord, Dir, RotateDir};
use textris::piece::Piece;
use textris::tetromino::Tetromino;

#[test]
fn dir_vectors() {
    assert_eq!(Dir::Up.to_coord(), Coord(0, -1));
    assert_eq!(Dir::Right.to_coord(), Coord(1, 0));
    assert_eq!(Dir::Down.to_coord(), Coord(0, 1));
    assert_eq!(Dir::Left.to_coord(), Coord(-1, 0));
}

#[test]
fn dir_cycle_and_opposite() {
    assert_eq!(Dir::all(), [Dir::Up, Dir::Right, Dir::Down, Dir::Left]);
    assert_eq!(Dir::Up.next_dir(), Dir::Right);
    assert_eq!(Dir::Right.next_dir(), Dir::Down);
    assert_eq!(Dir::Down.next_dir(), Dir::Left);
    assert_eq!(Dir::Left.next_dir(), Dir::Up);
    assert_eq!(Dir::Up.opponent(), Dir::Down);
    assert_eq!(Dir::Right.opponent(), Dir::Left);
    assert_eq!(Dir::Down.opponent(), Dir::Up);
    assert_eq!(Dir::Left.opponent(), Dir::Right);
}

#[test]
fn rotate_steps() {
    assert_eq!(RotateDir::Clockwise.rotate(Dir::Up), Dir::Right);
    assert_eq!(RotateDir::AntiClockwise.rotate(Dir::Up), Dir::Left);
    assert_eq!(RotateDir::AntiClockwise.rotate(Dir::Right), Dir::Up);
    assert_eq!(RotateDir::AntiClockwise.rotate(Dir::Left), Dir::Down);
}

#[test]
fn rotate_twice_each_way_returns() {
    for d in Dir::all().iter() {
        let mut f = *d;
        f = RotateDir::Clockwise.rotate(f);
        f = RotateDir::Clockwise.rotate(f);
        f = RotateDir::AntiClockwise.rotate(f);
        f = RotateDir::AntiClockwise.rotate(f);
        assert_eq!(f, *d);
    }
}

#[test]
fn coord_add() {
    assert_eq!(Coord(3, -2).add(Coord(-1, 5)), Coord(2, 3));
    let mut c = Coord::default();
    c.add_assign(Coord(4, 7));
    assert_eq!(c, Coord(4, 7));
    assert_eq!(c.x(), 4);
    assert_eq!(c.y(), 7);
    assert_eq!(Dir::default(), Dir::Up);
}

#[test]
fn i_piece_shapes() {
    let vertical = vec![Coord(5, 2), Coord(5, 3), Coord(5, 4), Coord(5, 5)];
    let horizontal = vec![Coord(5, 2), Coord(6, 2), Coord(7, 2), Coord(8, 2)];
    assert_eq!(Tetromino::I.make_coords(Coord(5, 2), Dir::Up), vertical);
    assert_eq!(Tetromino::I.make_coords(Coord(5, 2), Dir::Down), vertical);
    assert_eq!(Tetromino::I.make_coords(Coord(5, 2), Dir::Left), horizontal);
    assert_eq!(Tetromino::I.make_coords(Coord(5, 2), Dir::Right), horizontal);
    let p = Tetromino::I.make_piece(Dir::Right);
    assert_eq!(p.block.chr, 'I');
    assert_eq!(p.coords, [Coord(0, 0), Coord(1, 0), Coord(2, 0), Coord(3, 0)]);
    assert_eq!(Tetromino::I.block().chr, 'I');
    assert_eq!(Tetromino::all(), [Tetromino::I]);
}

#[test]
fn piece_at_anchor() {
    let p = Piece::new('X', [Coord(0, 0), Coord(1, 0), Coord(0, 1), Coord(-1, 1)]);
    assert_eq!(p.block.chr, 'X');
    assert_eq!(
        p.coords_at(Coord(3, -1)),
        vec![Coord(3, -1), Coord(4, -1), Coord(3, 0), Coord(2, 0)]
    );
}
