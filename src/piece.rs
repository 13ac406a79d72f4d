use crate::block::Block;
use crate::coord::Coord;
use vstd::prelude::*;

verus! {

/// A piece in one facing: its glyph and the offsets of its four cells from
/// the anchor.
#[derive(Debug, Clone, Copy)]
pub struct Piece {
    pub block: Block,
    pub coords: [Coord; 4],
}

/// The cells covered by `offsets` placed at anchor `pos`.
pub open spec fn placed(offsets: Seq<(int, int)>, pos: (int, int)) -> Seq<(int, int)> {
    offsets.map_values(|o: (int, int)| (pos.0 + o.0, pos.1 + o.1))
}

/// Views of a sequence of coordinates as integer pairs.
pub open spec fn positions(cs: Seq<Coord>) -> Seq<(int, int)> {
    cs.map_values(|c: Coord| c.pos())
}

impl Piece {
    pub fn new(chr: char, coords: [Coord; 4]) -> (r: Piece)
        ensures
            r.block.chr == chr,
            r.coords == coords,
    {
        Piece { block: Block { chr }, coords }
    }

    /// The absolute cells of this piece with its anchor at `pos`.
    pub fn coords_at(&self, pos: Coord) -> (r: Vec<Coord>)
        requires
            forall|i: int|
                0 <= i < 4 ==> i8::MIN <= pos.0 + (#[trigger] self.coords@[i]).0 <= i8::MAX
                    && i8::MIN <= pos.1 + self.coords@[i].1 <= i8::MAX,
        ensures
            positions(r@) == placed(positions(self.coords@), pos.pos()),
    {
        let mut r: Vec<Coord> = Vec::new();
        let mut i: usize = 0;
        while i < 4
            invariant
                i <= 4,
                forall|j: int|
                    0 <= j < 4 ==> i8::MIN <= pos.0 + (#[trigger] self.coords@[j]).0 <= i8::MAX
                        && i8::MIN <= pos.1 + self.coords@[j].1 <= i8::MAX,
                r@.len() == i,
                forall|j: int|
                    0 <= j < i ==> (#[trigger] r@[j]).pos() == (
                        pos.0 + self.coords@[j].0,
                        pos.1 + self.coords@[j].1,
                    ),
            decreases 4 - i,
        {
            let c = self.coords[i];
            r.push(pos.add(c));
            i = i + 1;
        }
        assert(positions(r@) =~= placed(positions(self.coords@), pos.pos()));
        r
    }
}

} // verus!
