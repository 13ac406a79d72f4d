use crate::block::Block;
use crate::coord::Coord;
use crate::piece::positions;
use vstd::std_specs::slice::into_iter_elts;
use vstd::prelude::*;

verus! {

pub type Line = Vec<Option<Block>>;

pub type Cells = Vec<Line>;

/// The grid as rows of cells, row 0 on top.
pub type Grid = Seq<Seq<Option<Block>>>;

/// A row of `w` empty cells.
pub open spec fn empty_row(w: nat) -> Seq<Option<Block>> {
    Seq::new(w, |i: int| None)
}

/// Every cell of the row is filled.
pub open spec fn is_full(row: Seq<Option<Block>>) -> bool {
    forall|i: int| 0 <= i < row.len() ==> (#[trigger] row[i]) is Some
}

/// `p` names a cell of `g`.
pub open spec fn in_grid(g: Grid, p: (int, int)) -> bool {
    0 <= p.1 < g.len() && 0 <= p.0 < g[p.1].len()
}

/// The content of `g` at `p`; nothing outside the grid.
pub open spec fn at(g: Grid, p: (int, int)) -> Option<Block> {
    if in_grid(g, p) {
        g[p.1][p.0]
    } else {
        None
    }
}

/// `g` with every cell named in `ps` set to `v`; positions outside the grid
/// are ignored.
pub open spec fn painted(g: Grid, ps: Seq<(int, int)>, v: Option<Block>) -> Grid {
    Seq::new(
        g.len(),
        |y: int|
            Seq::new(g[y].len(), |x: int| if ps.contains((x, y)) { v } else { g[y][x] }),
    )
}

/// `g` with row `y` taken out and an empty row of width `w` put on top.
pub open spec fn without_row(g: Grid, y: int, w: nat) -> Grid {
    seq![empty_row(w)] + g.remove(y)
}

/// A piece cell may stand at `p` in `g` of width `w`: above the top row
/// within the columns, or on an empty cell.
pub open spec fn free_in(g: Grid, w: nat, p: (int, int)) -> bool {
    (p.1 < 0 && 0 <= p.0 < w) || (in_grid(g, p) && at(g, p) is None)
}

/// Every one of `ps` may hold a piece cell.
pub open spec fn fits(g: Grid, w: nat, ps: Seq<(int, int)>) -> bool {
    forall|i: int| 0 <= i < ps.len() ==> #[trigger] free_in(g, w, ps[i])
}

/// Some cell of the top row is filled.
pub open spec fn top_filled(g: Grid) -> bool {
    exists|x: int| #![trigger at(g, (x, 0))] in_grid(g, (x, 0)) && at(g, (x, 0)) is Some
}

/// The rows of `g` that are not full, in order.
pub open spec fn kept(g: Grid) -> Grid
    decreases g.len(),
{
    if g.len() == 0 {
        g
    } else if is_full(g.last()) {
        kept(g.drop_last())
    } else {
        kept(g.drop_last()).push(g.last())
    }
}

/// How many rows of `g` are full.
pub open spec fn n_full(g: Grid) -> nat
    decreases g.len(),
{
    if g.len() == 0 {
        0
    } else if is_full(g.last()) {
        n_full(g.drop_last()) + 1
    } else {
        n_full(g.drop_last())
    }
}

/// `n` empty rows of width `w`.
pub open spec fn empty_rows(n: nat, w: nat) -> Grid {
    Seq::new(n, |i: int| empty_row(w))
}

/// `g` after its full rows are deleted: one empty row on top for each, then
/// the other rows in their order.
pub open spec fn cleared(g: Grid, w: nat) -> Grid {
    empty_rows(n_full(g), w) + kept(g)
}

pub struct Field {
    cells: Cells,
    width: usize,
    height: usize,
}

fn make_line(width: usize) -> (r: Line)
    ensures
        r@ == empty_row(width as nat),
{
    let mut r: Line = Vec::new();
    let mut i: usize = 0;
    while i < width
        invariant
            i <= width,
            r@ == empty_row(i as nat),
        decreases width - i,
    {
        r.push(None);
        i = i + 1;
        assert(r@ =~= empty_row(i as nat));
    }
    r
}

impl View for Field {
    type V = Grid;

    closed spec fn view(&self) -> Grid {
        self.cells@.map_values(|l: Line| l@)
    }
}

impl Field {
    /// Number of columns.
    pub closed spec fn cols(&self) -> nat {
        self.width as nat
    }

    /// Number of rows.
    pub closed spec fn rows(&self) -> nat {
        self.height as nat
    }

    /// The grid has `rows()` rows of `cols()` cells each.
    pub open spec fn wf(&self) -> bool {
        &&& self@.len() == self.rows()
        &&& forall|y: int| 0 <= y < self@.len() ==> (#[trigger] self@[y]).len() == self.cols()
    }

    pub open spec fn in_bounds(&self, p: (int, int)) -> bool {
        0 <= p.0 < self.cols() && 0 <= p.1 < self.rows()
    }

    /// Above the top row, within the columns: where a piece may stand
    /// without being drawn.
    pub open spec fn above_ceil(&self, p: (int, int)) -> bool {
        p.1 < 0 && 0 <= p.0 < self.cols()
    }

    pub open spec fn cell(&self, p: (int, int)) -> Option<Block> {
        at(self@, p)
    }

    /// A piece cell may stand at `p`.
    pub open spec fn free(&self, p: (int, int)) -> bool {
        free_in(self@, self.cols(), p)
    }

    /// Every one of `ps` may hold a piece cell.
    pub open spec fn movable(&self, ps: Seq<(int, int)>) -> bool {
        fits(self@, self.cols(), ps)
    }

    /// Some cell of the top row is filled.
    pub open spec fn reached(&self) -> bool {
        top_filled(self@)
    }

    /// A field of `width` by `height` empty cells.
    pub fn new(width: usize, height: usize) -> (r: Field)
        ensures
            r.wf(),
            r.cols() == width,
            r.rows() == height,
            r@ == Seq::new(height as nat, |y: int| empty_row(width as nat)),
    {
        let mut cells: Cells = Vec::new();
        let mut i: usize = 0;
        while i < height
            invariant
                i <= height,
                cells@.len() == i,
                forall|j: int| 0 <= j < i ==> (#[trigger] cells@[j])@ == empty_row(width as nat),
            decreases height - i,
        {
            let line = make_line(width);
            cells.push(line);
            i = i + 1;
        }
        assert(cells@.map_values(|l: Line| l@) =~= Seq::new(height as nat, |y: int| empty_row(width as nat)));
        Field { cells, width, height }
    }

    pub fn width(&self) -> (r: usize)
        ensures
            r == self.cols(),
    {
        self.width
    }

    pub fn height(&self) -> (r: usize)
        ensures
            r == self.rows(),
    {
        self.height
    }

    pub fn is_in_range(&self, pos: Coord) -> (r: bool)
        ensures
            r == self.in_bounds(pos.pos()),
    {
        0 <= pos.x() && (pos.x() as usize) < self.width && 0 <= pos.y() && (pos.y() as usize)
            < self.height
    }

    fn is_above_ceil(&self, pos: Coord) -> (r: bool)
        ensures
            r == self.above_ceil(pos.pos()),
    {
        pos.y() < 0 && 0 <= pos.x() && (pos.x() as usize) < self.width
    }

    /// The content of the cell at `pos`; nothing outside the field.
    pub fn get(&self, pos: Coord) -> (r: Option<Block>)
        requires
            self.wf(),
        ensures
            r == self.cell(pos.pos()),
            !self.in_bounds(pos.pos()) ==> r is None,
    {
        if !self.is_in_range(pos) {
            return None;
        }
        let x = pos.x() as usize;
        let y = pos.y() as usize;
        assert(self.cells@[y as int]@ == self@[y as int]);
        self.cells[y][x]
    }

    /// Sets the cell at `pos` to `v`; a position outside the field is ignored.
    pub fn set(&mut self, pos: Coord, v: Option<Block>)
        requires
            old(self).wf(),
        ensures
            final(self).wf(),
            final(self).cols() == old(self).cols(),
            final(self).rows() == old(self).rows(),
            final(self)@ == painted(old(self)@, seq![pos.pos()], v),
    {
        proof {
            lemma_single_contains(pos.pos());
        }
        if self.is_in_range(pos) {
            let x = pos.x() as usize;
            let y = pos.y() as usize;
            assert(self@[y as int] == self.cells@[y as int]@);
            let mut row = self.cells.remove(y);
            row.set(x, v);
            self.cells.insert(y, row);
            proof {
                assert forall|j: int| 0 <= j < self@.len() implies #[trigger] self@[j] =~= painted(
                    old(self)@,
                    seq![pos.pos()],
                    v,
                )[j] by {
                    assert(old(self)@[j] == old(self).cells@[j]@);
                }
            }
        } else {
            proof {
                assert forall|j: int| 0 <= j < self@.len() implies #[trigger] self@[j] =~= painted(
                    old(self)@,
                    seq![pos.pos()],
                    v,
                )[j] by {
                }
            }
        }
        assert(self@ =~= painted(old(self)@, seq![pos.pos()], v));
    }

    /// Sets every in-range cell named in `coords` to `v`.
    fn paint(&mut self, v: Option<Block>, coords: &[Coord])
        requires
            old(self).wf(),
        ensures
            final(self).wf(),
            final(self).cols() == old(self).cols(),
            final(self).rows() == old(self).rows(),
            final(self)@ == painted(old(self)@, positions(coords@), v),
    {
        let mut i: usize = 0;
        proof {
            assert(painted(self@, positions(coords@.take(0)), v) =~~= self@);
        }
        while i < coords.len()
            invariant
                i <= coords@.len(),
                self.wf(),
                self.cols() == old(self).cols(),
                self.rows() == old(self).rows(),
                self@ == painted(old(self)@, positions(coords@.take(i as int)), v),
            decreases coords@.len() - i,
        {
            let pos = coords[i];
            self.set(pos, v);
            proof {
                assert(positions(coords@.take(i + 1)) =~= positions(coords@.take(i as int)).push(
                    pos.pos(),
                ));
                lemma_paint_push(old(self)@, positions(coords@.take(i as int)), pos.pos(), v);
            }
            i = i + 1;
        }
        assert(coords@.take(coords@.len() as int) =~= coords@);
    }

    /// Empties every in-range cell named in `coords`; others are left alone.
    pub fn clear_blocks(&mut self, coords: &[Coord])
        requires
            old(self).wf(),
        ensures
            final(self).wf(),
            final(self).cols() == old(self).cols(),
            final(self).rows() == old(self).rows(),
            final(self)@ == painted(old(self)@, positions(coords@), None),
    {
        self.paint(None, coords);
    }

    /// Fills every in-range cell named in `coords` with `block`; others are
    /// left alone.
    pub fn render_blocks(&mut self, block: Block, coords: &[Coord])
        requires
            old(self).wf(),
        ensures
            final(self).wf(),
            final(self).cols() == old(self).cols(),
            final(self).rows() == old(self).rows(),
            final(self)@ == painted(old(self)@, positions(coords@), Some(block)),
    {
        self.paint(Some(block), coords);
    }

    /// Whether a piece may occupy all of `coords`: each is above the ceiling
    /// or an empty cell of the field.
    pub fn is_movable(&self, coords: &[Coord]) -> (r: bool)
        requires
            self.wf(),
        ensures
            r == self.movable(positions(coords@)),
    {
        let mut i: usize = 0;
        while i < coords.len()
            invariant
                self.wf(),
                i <= coords@.len(),
                forall|j: int| 0 <= j < i ==> #[trigger] self.free(coords@[j].pos()),
            decreases coords@.len() - i,
        {
            let c = coords[i];
            if !(self.is_above_ceil(c) || self.is_in_range(c) && self.get(c).is_none()) {
                assert(positions(coords@)[i as int] == c.pos());
                assert(!self.free(positions(coords@)[i as int]));
                return false;
            }
            i = i + 1;
        }
        assert forall|j: int| 0 <= j < positions(coords@).len() implies #[trigger] free_in(
            self@,
            self.cols(),
            positions(coords@)[j],
        ) by {
            assert(positions(coords@)[j] == coords@[j].pos());
            assert(self.free(coords@[j].pos()));
        }
        true
    }

    /// Whether some cell of the top row is filled.
    pub fn is_reached(&self) -> (r: bool)
        requires
            self.wf(),
        ensures
            r == self.reached(),
    {
        if self.height == 0 {
            return false;
        }
        let row = &self.cells[0];
        assert(row@ == self@[0]);
        let mut x: usize = 0;
        while x < row.len()
            invariant
                self.wf(),
                self.rows() > 0,
                row@ == self@[0],
                x <= row@.len(),
                forall|j: int| 0 <= j < x ==> (#[trigger] row@[j]) is None,
            decreases row@.len() - x,
        {
            if row[x].is_some() {
                assert(at(self@, (x as int, 0)) is Some);
                return true;
            }
            x = x + 1;
        }
        assert(!self.reached()) by {
            assert forall|j: int| in_grid(self@, (j, 0)) implies !(#[trigger] at(self@, (j, 0))
                is Some) by {
                assert(row@[j] is None);
            }
        }
        false
    }

    /// The rows of the grid, top first.
    pub fn lines_iter(&self) -> (r: std::slice::Iter<'_, Line>)
        requires
            self.wf(),
        ensures
            into_iter_elts(r).map_values(|l: Line| l@) == self@,
    {
        let r = self.cells.as_slice().iter();
        proof {
            broadcast use vstd::std_specs::slice::group_slice_axioms;
            assert(into_iter_elts(r) =~= self.cells@);
        }
        r
    }

    /// Row `y` of the grid.
    pub fn get_line(&self, y: usize) -> (r: &Line)
        requires
            self.wf(),
            y < self.rows(),
        ensures
            r@ == self@[y as int],
    {
        &self.cells[y]
    }

    /// Replaces row `y` by `line`; a row index past the bottom is ignored.
    pub fn set_line(&mut self, y: usize, line: Line)
        requires
            old(self).wf(),
            line@.len() == old(self).cols(),
        ensures
            final(self).wf(),
            final(self).cols() == old(self).cols(),
            final(self).rows() == old(self).rows(),
            y < old(self).rows() ==> final(self)@ == old(self)@.update(y as int, line@),
            y >= old(self).rows() ==> final(self)@ == old(self)@,
    {
        if y < self.height {
            let ghost l = line@;
            self.cells.set(y, line);
            assert(self@ =~= old(self)@.update(y as int, l));
        }
    }

    /// Deletes row `idx`; the rows above it move down by one and an empty row
    /// appears on top.
    pub fn delete_line(&mut self, idx: usize)
        requires
            old(self).wf(),
            idx < old(self).rows(),
        ensures
            final(self).wf(),
            final(self).cols() == old(self).cols(),
            final(self).rows() == old(self).rows(),
            final(self)@ == without_row(old(self)@, idx as int, old(self).cols()),
    {
        self.cells.remove(idx);
        let line = make_line(self.width);
        self.cells.insert(0, line);
        assert(self@ =~= without_row(old(self)@, idx as int, old(self).cols()));
    }
}

/// Extending a prefix of `g` by the next row adds that row to the kept
/// rows, or counts it as full.
pub proof fn lemma_prefix_step(g: Grid, y: int)
    requires
        0 <= y < g.len(),
    ensures
        is_full(g[y]) ==> kept(g.take(y + 1)) == kept(g.take(y)) && n_full(g.take(y + 1)) == n_full(
            g.take(y),
        ) + 1,
        !is_full(g[y]) ==> kept(g.take(y + 1)) == kept(g.take(y)).push(g[y]) && n_full(
            g.take(y + 1),
        ) == n_full(g.take(y)),
{
    assert(g.take(y + 1).drop_last() =~= g.take(y));
    assert(g.take(y + 1).last() == g[y]);
}

/// Each row is either kept or counted as full.
pub proof fn lemma_kept_len(g: Grid)
    ensures
        kept(g).len() + n_full(g) == g.len(),
    decreases g.len(),
{
    if g.len() > 0 {
        lemma_kept_len(g.drop_last());
    }
}

/// Reads and writes agree: a cell is on the grid exactly when it is in
/// bounds; after a write, reading the written in-bounds cell gives the
/// written value, and every other cell, and every cell after a write out of
/// bounds, reads as before; the grid keeps its shape.
pub proof fn lemma_write_then_read(f: Field, p: (int, int), v: Option<Block>, q: (int, int))
    requires
        f.wf(),
    ensures
        in_grid(f@, q) <==> f.in_bounds(q),
        painted(f@, seq![p], v).len() == f@.len(),
        forall|y: int| 0 <= y < f@.len() ==> #[trigger] painted(f@, seq![p], v)[y].len() == f@[y].len(),
        at(painted(f@, seq![p], v), q) == if f.in_bounds(p) && q == p {
            v
        } else {
            f.cell(q)
        },
        !f.in_bounds(p) ==> painted(f@, seq![p], v) == f@,
{
    lemma_single_contains(p);
    if in_grid(f@, q) {
        assert(f@[q.1].len() == f.cols());
    }
    if !f.in_bounds(p) {
        assert forall|y: int| 0 <= y < f@.len() implies #[trigger] painted(f@, seq![p], v)[y] =~= f@[y] by {
            assert(f@[y].len() == f.cols());
        }
        assert(painted(f@, seq![p], v) =~= f@);
    }
}

/// When every candidate cell is in bounds or above the ceiling, a
/// placement is refused exactly when some candidate is an in-bounds filled
/// cell; a candidate above the ceiling never refuses it.
pub proof fn lemma_placement(f: Field, ps: Seq<(int, int)>)
    requires
        f.wf(),
        forall|i: int| 0 <= i < ps.len() ==> f.in_bounds(#[trigger] ps[i]) || f.above_ceil(ps[i]),
    ensures
        !f.movable(ps) <==> exists|i: int|
            0 <= i < ps.len() && f.in_bounds(#[trigger] ps[i]) && f.cell(ps[i]) is Some,
        forall|i: int| 0 <= i < ps.len() && f.above_ceil(#[trigger] ps[i]) ==> f.free(ps[i]),
{
    assert forall|i: int| 0 <= i < ps.len() implies #[trigger] f.free(ps[i]) <==> !(f.in_bounds(ps[i])
        && f.cell(ps[i]) is Some) by {
        let q = ps[i];
        if f.in_bounds(q) {
            assert(f@[q.1].len() == f.cols());
        }
    }
    if f.movable(ps) {
        assert forall|i: int| 0 <= i < ps.len() implies !(f.in_bounds(#[trigger] ps[i]) && f.cell(
            ps[i],
        ) is Some) by {
            assert(free_in(f@, f.cols(), ps[i]));
            assert(f.free(ps[i]));
        }
    } else {
        let i = choose|i: int| 0 <= i < ps.len() && !free_in(f@, f.cols(), #[trigger] ps[i]);
        assert(!f.free(ps[i]));
        assert(f.in_bounds(ps[i]) && f.cell(ps[i]) is Some);
    }
}

/// Deleting row `y`: the top row is empty, each row above `y` sits one
/// lower, each row below `y` stays, and the number of rows is kept.
pub proof fn lemma_remove_row(g: Grid, y: int, w: nat)
    requires
        0 <= y < g.len(),
    ensures
        without_row(g, y, w).len() == g.len(),
        without_row(g, y, w)[0] == empty_row(w),
        forall|i: int| 0 <= i < y ==> #[trigger] without_row(g, y, w)[i + 1] == g[i],
        forall|i: int| y < i < g.len() ==> #[trigger] without_row(g, y, w)[i] == g[i],
{
}

/// How many cells of the row are filled.
pub open spec fn filled(row: Seq<Option<Block>>) -> nat
    decreases row.len(),
{
    if row.len() == 0 {
        0
    } else {
        filled(row.drop_last()) + if row.last() is Some {
            1nat
        } else {
            0nat
        }
    }
}

/// How many cells of the grid are filled.
pub open spec fn occupied(g: Grid) -> nat
    decreases g.len(),
{
    if g.len() == 0 {
        0
    } else {
        occupied(g.drop_last()) + filled(g.last())
    }
}

proof fn lemma_filled_full(row: Seq<Option<Block>>)
    requires
        is_full(row),
    ensures
        filled(row) == row.len(),
    decreases row.len(),
{
    if row.len() > 0 {
        lemma_filled_full(row.drop_last());
    }
}

proof fn lemma_filled_empty(w: nat)
    ensures
        filled(empty_row(w)) == 0,
    decreases w,
{
    if w > 0 {
        assert(empty_row(w).drop_last() =~= empty_row((w - 1) as nat));
        lemma_filled_empty((w - 1) as nat);
    }
}

proof fn lemma_occupied_concat(a: Grid, b: Grid)
    ensures
        occupied(a + b) == occupied(a) + occupied(b),
    decreases b.len(),
{
    if b.len() == 0 {
        assert(a + b =~= a);
    } else {
        assert((a + b).drop_last() =~= a + b.drop_last());
        lemma_occupied_concat(a, b.drop_last());
    }
}

proof fn lemma_occupied_empty(n: nat, w: nat)
    ensures
        occupied(empty_rows(n, w)) == 0,
    decreases n,
{
    if n > 0 {
        assert(empty_rows(n, w).drop_last() =~= empty_rows((n - 1) as nat, w));
        lemma_filled_empty(w);
        lemma_occupied_empty((n - 1) as nat, w);
    }
}

proof fn lemma_occupied_kept(g: Grid, w: nat)
    requires
        forall|y: int| 0 <= y < g.len() ==> (#[trigger] g[y]).len() == w,
    ensures
        occupied(kept(g)) + w * n_full(g) == occupied(g),
    decreases g.len(),
{
    if g.len() > 0 {
        let d = g.drop_last();
        assert forall|y: int| 0 <= y < d.len() implies (#[trigger] d[y]).len() == w by {
            assert(d[y] == g[y]);
        }
        lemma_occupied_kept(d, w);
        assert(g.last() == g[g.len() - 1]);
        assert(occupied(g) == occupied(d) + filled(g.last()));
        if is_full(g.last()) {
            lemma_filled_full(g.last());
            assert(kept(g) == kept(d));
            assert(n_full(g) == n_full(d) + 1);
            assert(w * (n_full(d) + 1) == w * n_full(d) + w) by (nonlinear_arith);
        } else {
            assert(kept(g) == kept(d).push(g.last()));
            assert(kept(g).drop_last() =~= kept(d));
            assert(kept(g).last() == g.last());
            assert(n_full(g) == n_full(d));
            assert(occupied(kept(g)) == occupied(kept(d)) + filled(g.last()));
        }
    } else {
        assert(w * 0 == 0);
    }
}

/// Deleting the full rows of a grid `w` wide takes away exactly `w` filled
/// cells for each deleted row.
pub proof fn lemma_clear_count(g: Grid, w: nat)
    requires
        forall|y: int| 0 <= y < g.len() ==> (#[trigger] g[y]).len() == w,
    ensures
        occupied(cleared(g, w)) + w * n_full(g) == occupied(g),
{
    lemma_occupied_concat(empty_rows(n_full(g), w), kept(g));
    lemma_occupied_empty(n_full(g), w);
    lemma_occupied_kept(g, w);
}

/// Painting one more position after a sequence of them is painting the
/// longer sequence.
proof fn lemma_paint_push(g: Grid, ps: Seq<(int, int)>, p: (int, int), v: Option<Block>)
    ensures
        painted(painted(g, ps, v), seq![p], v) == painted(g, ps.push(p), v),
{
    lemma_single_contains(p);
    assert forall|q: (int, int)| #[trigger] ps.push(p).contains(q) <==> ps.contains(q) || q == p by {
        if ps.contains(q) {
            let i = choose|i: int| 0 <= i < ps.len() && ps[i] == q;
            assert(ps.push(p)[i] == q);
        }
        if q == p {
            assert(ps.push(p)[ps.len() as int] == q);
        }
        if ps.push(p).contains(q) && q != p {
            let i = choose|i: int| 0 <= i < ps.len() + 1 && ps.push(p)[i] == q;
            assert(ps[i] == q);
        }
    }
    assert(painted(painted(g, ps, v), seq![p], v) =~~= painted(g, ps.push(p), v));
}

/// A one-element sequence holds its element and nothing else.
proof fn lemma_single_contains(p: (int, int))
    ensures
        forall|q: (int, int)| #[trigger] seq![p].contains(q) <==> q == p,
{
    assert forall|q: (int, int)| #[trigger] seq![p].contains(q) <==> q == p by {
        if q == p {
            assert(seq![p][0] == q);
        }
    }
}

} // verus!
