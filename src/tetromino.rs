use crate::block::Block;
use crate::coord::{Coord, Dir};
use crate::piece::{placed, positions, Piece};
use vstd::prelude::*;

verus! {

/// The kinds of piece.
#[derive(Debug, Clone, Copy, PartialEq, Eq, Structural)]
pub enum Tetromino {
    I,
}

/// Offsets of the cells of kind `t` in facing `d`, relative to the anchor.
pub open spec fn shape(t: Tetromino, d: Dir) -> Seq<(int, int)> {
    match t {
        Tetromino::I => match d {
            Dir::Up | Dir::Down => seq![(0, 0), (0, 1), (0, 2), (0, 3)],
            Dir::Left | Dir::Right => seq![(0, 0), (1, 0), (2, 0), (3, 0)],
        },
    }
}

/// The glyph of kind `t`.
pub open spec fn glyph(t: Tetromino) -> Block {
    match t {
        Tetromino::I => Block { chr: 'I' },
    }
}

/// The absolute cells of kind `t` in facing `d` anchored at `pos`.
pub open spec fn cells(t: Tetromino, pos: (int, int), d: Dir) -> Seq<(int, int)> {
    placed(shape(t, d), pos)
}

/// Every offset of every shape lies in `[0, 3] x [0, 3]`, and the anchor
/// itself is the first cell.
pub proof fn lemma_shape_extent(t: Tetromino, d: Dir)
    ensures
        shape(t, d).len() == 4,
        shape(t, d)[0] == (0int, 0int),
        forall|i: int|
            0 <= i < 4 ==> 0 <= (#[trigger] shape(t, d)[i]).0 <= 3 && 0 <= shape(t, d)[i].1 <= 3,
{
}

impl Tetromino {
    pub fn all() -> (r: [Tetromino; 1])
        ensures
            r@ == seq![Tetromino::I],
    {
        let r = [Tetromino::I];
        assert(r@ =~= seq![Tetromino::I]);
        r
    }

    pub fn block(&self) -> (r: Block)
        ensures
            r == glyph(*self),
    {
        match self {
            Tetromino::I => Block { chr: 'I' },
        }
    }

    pub fn make_piece(&self, dir: Dir) -> (r: Piece)
        ensures
            r.block == glyph(*self),
            positions(r.coords@) == shape(*self, dir),
    {
        match self {
            Tetromino::I => {
                let coords = match dir {
                    Dir::Up | Dir::Down => [Coord(0, 0), Coord(0, 1), Coord(0, 2), Coord(0, 3)],
                    Dir::Left | Dir::Right => [Coord(0, 0), Coord(1, 0), Coord(2, 0), Coord(3, 0)],
                };
                let r = Piece::new('I', coords);
                assert(positions(r.coords@) =~= shape(*self, dir));
                r
            },
        }
    }

    /// The absolute cells of this kind in facing `dir` anchored at `pos`.
    pub fn make_coords(&self, pos: Coord, dir: Dir) -> (r: Vec<Coord>)
        requires
            pos.0 + 3 <= i8::MAX,
            pos.1 + 3 <= i8::MAX,
        ensures
            positions(r@) == cells(*self, pos.pos(), dir),
    {
        let piece = self.make_piece(dir);
        proof {
            lemma_shape_extent(*self, dir);
            assert forall|i: int| 0 <= i < 4 implies 0 <= (#[trigger] piece.coords@[i]).0 <= 3
                && 0 <= piece.coords@[i].1 <= 3 by {
                assert(positions(piece.coords@)[i] == piece.coords@[i].pos());
            }
        }
        piece.coords_at(pos)
    }
}

} // verus!
