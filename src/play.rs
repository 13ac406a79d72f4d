use crate::block::Block;
use crate::coord::{dir_vector, rotated, Coord, Dir, Dirs, RotateDir};
use crate::elapsed::Elapsed;
use crate::field::{
    at, cleared, empty_rows, fits, in_grid, is_full, kept, lemma_clear_count, lemma_kept_len,
    lemma_prefix_step, n_full, occupied, painted, top_filled, Field, Grid, Line,
};
use crate::piece::positions;
use crate::tetromino::{cells, glyph, lemma_shape_extent, Tetromino};
use rand::rngs::ThreadRng;
use rand::Rng;
use vstd::prelude::*;

verus! {

#[verifier::external_type_specification]
#[verifier::external_body]
pub struct ExThreadRng(ThreadRng);

/// Relies on rand's `thread_rng`: a handle to the generator of this thread.
#[verifier::external_body]
fn new_thread_rng() -> ThreadRng {
    rand::thread_rng()
}

/// Relies on rand's `Rng::choose`: nothing for an empty slice, else one of
/// its elements.
#[verifier::external_body]
fn choose_one<T: Copy>(rng: &mut ThreadRng, values: &[T]) -> (r: Option<T>)
    ensures
        r is None <==> values@.len() == 0,
        r matches Some(v) ==> values@.contains(v),
{
    rng.choose(values).copied()
}

/// Relies on rand's `Rng::gen_range` on `i8`: a value in `[low, high)`; it
/// panics when `low >= high`.
#[verifier::external_body]
fn gen_range_i8(rng: &mut ThreadRng, low: i8, high: i8) -> (r: i8)
    requires
        low < high,
    ensures
        low <= r < high,
{
    rng.gen_range(low, high)
}

/// The largest width or height of a field that a game runs on: piece cells
/// and one step beyond them stay within `i8`.
pub const MAX_SIDE: usize = 100;

/// The source of the random choices of a game.
pub struct Random {
    rng: ThreadRng,
    tetros: [Tetromino; 1],
    dirs: Dirs,
}

impl Random {
    pub closed spec fn wf(&self) -> bool {
        &&& self.tetros@ == seq![Tetromino::I]
        &&& self.dirs@ == seq![Dir::Up, Dir::Right, Dir::Down, Dir::Left]
    }

    pub fn new(rng: ThreadRng) -> (r: Random)
        ensures
            r.wf(),
    {
        Random { rng, tetros: Tetromino::all(), dirs: Dir::all() }
    }

    /// A kind of piece, drawn uniformly.
    pub fn random_tetro(&mut self) -> (r: Tetromino)
        requires
            old(self).wf(),
        ensures
            final(self).wf(),
    {
        match choose_one(&mut self.rng, &self.tetros) {
            Some(t) => t,
            None => Tetromino::I,
        }
    }

    /// A facing, drawn uniformly.
    pub fn random_tetro_dir(&mut self) -> (r: Dir)
        requires
            old(self).wf(),
        ensures
            final(self).wf(),
    {
        match choose_one(&mut self.rng, &self.dirs) {
            Some(d) => d,
            None => Dir::Up,
        }
    }

    /// A spawn position on the top row, in a column of `[2, width - 2)`.
    pub fn random_piece_pos(&mut self, width: usize) -> (r: Coord)
        requires
            old(self).wf(),
            5 <= width <= MAX_SIDE,
        ensures
            final(self).wf(),
            2 <= r.0 < width - 2,
            r.1 == 0,
    {
        let right_limit = width - 2;
        Coord(gen_range_i8(&mut self.rng, 2, right_limit as i8), 0)
    }
}

/// The state of a game.
pub struct Play {
    random: Random,
    tetro: Tetromino,
    tetro_dir: Dir,
    tetro_stopped: bool,
    piece_pos: Coord,
    field: Field,
    elapsed: Elapsed,
    score: u64,
}

/// Whether a piece may spawn with its anchor at `pos` on a field `w` wide.
pub open spec fn spawn_spot(w: nat, pos: (int, int)) -> bool {
    2 <= pos.0 < w - 2 && pos.1 == 0
}

impl Play {
    pub closed spec fn kind(&self) -> Tetromino {
        self.tetro
    }

    pub closed spec fn facing(&self) -> Dir {
        self.tetro_dir
    }

    pub closed spec fn anchor(&self) -> (int, int) {
        self.piece_pos.pos()
    }

    pub closed spec fn stopped(&self) -> bool {
        self.tetro_stopped
    }

    pub closed spec fn playfield(&self) -> Field {
        self.field
    }

    pub closed spec fn points(&self) -> nat {
        self.score as nat
    }

    pub closed spec fn clock(&self) -> Elapsed {
        self.elapsed
    }

    pub closed spec fn source_ok(&self) -> bool {
        self.random.wf()
    }

    /// The grid.
    pub open spec fn grid(&self) -> Grid {
        self.playfield()@
    }

    pub open spec fn cols(&self) -> nat {
        self.playfield().cols()
    }

    /// The cells of the falling piece.
    pub open spec fn piece_cells(&self) -> Seq<(int, int)> {
        cells(self.kind(), self.anchor(), self.facing())
    }

    /// The grid with the falling piece lifted off.
    pub open spec fn lifted(&self) -> Grid {
        painted(self.grid(), self.piece_cells(), None)
    }

    /// The falling piece may stand at `pos` in facing `d` once lifted.
    pub open spec fn can_stand(&self, pos: (int, int), d: Dir) -> bool {
        fits(self.lifted(), self.cols(), cells(self.kind(), pos, d))
    }

    /// `after` is this state once the piece was lifted and drawn again at
    /// `pos` in facing `d` where it may stand there, or where it was
    /// otherwise.
    pub open spec fn tried(&self, after: Play, pos: (int, int), d: Dir) -> bool {
        &&& after.kind() == self.kind()
        &&& after.stopped() == self.stopped()
        &&& after.points() == self.points()
        &&& after.clock() == self.clock()
        &&& after.playfield().cols() == self.playfield().cols()
        &&& after.playfield().rows() == self.playfield().rows()
        &&& if self.can_stand(pos, d) {
            &&& after.anchor() == pos
            &&& after.facing() == d
            &&& after.grid() == painted(self.lifted(), cells(self.kind(), pos, d), Some(glyph(self.kind())))
        } else {
            &&& after.anchor() == self.anchor()
            &&& after.facing() == self.facing()
            &&& after.grid() == painted(self.lifted(), self.piece_cells(), Some(glyph(self.kind())))
        }
    }

    /// The anchor after one step in direction `d`.
    pub open spec fn step_of(&self, d: Dir) -> (int, int) {
        (self.anchor().0 + dir_vector(d).0, self.anchor().1 + dir_vector(d).1)
    }

    /// The state every operation keeps: a well-formed field of a size the
    /// game runs on, and the anchor inside the columns, at most on the bottom
    /// row and not far above the top.
    pub open spec fn wf(&self) -> bool {
        &&& self.playfield().wf()
        &&& self.source_ok()
        &&& 5 <= self.playfield().cols() <= MAX_SIDE
        &&& 1 <= self.playfield().rows() <= MAX_SIDE
        &&& 0 <= self.anchor().0 < self.playfield().cols()
        &&& -(MAX_SIDE as int) <= self.anchor().1 < self.playfield().rows()
    }

    /// The falling piece fills its cells that lie on the field.
    pub open spec fn piece_drawn(&self) -> bool {
        forall|i: int|
            0 <= i < self.piece_cells().len() && in_grid(self.grid(), #[trigger] self.piece_cells()[i])
                ==> at(self.grid(), self.piece_cells()[i]) == Some(glyph(self.kind()))
    }
}

/// Reading a painted grid: the painted value on the named cells of the
/// grid, the old content elsewhere; the shape of the grid is kept.
pub proof fn lemma_painted_at(g: Grid, ps: Seq<(int, int)>, v: Option<Block>, q: (int, int))
    ensures
        painted(g, ps, v).len() == g.len(),
        in_grid(painted(g, ps, v), q) == in_grid(g, q),
        at(painted(g, ps, v), q) == if in_grid(g, q) && ps.contains(q) {
            v
        } else {
            at(g, q)
        },
{
}

/// Lifting cells that all hold `b` and drawing `b` there again gives back
/// the grid.
proof fn lemma_lift_redraw(g: Grid, ps: Seq<(int, int)>, b: Block)
    requires
        forall|i: int|
            0 <= i < ps.len() && in_grid(g, #[trigger] ps[i]) ==> at(g, ps[i]) == Some(b),
    ensures
        painted(painted(g, ps, None), ps, Some(b)) == g,
{
    assert forall|y: int| 0 <= y < g.len() implies #[trigger] painted(painted(g, ps, None), ps, Some(b))[y]
        =~= g[y] by {
        assert forall|x: int| 0 <= x < g[y].len() implies painted(painted(g, ps, None), ps, Some(b))[y][x]
            == g[y][x] by {
            if ps.contains((x, y)) {
                let i = choose|i: int| 0 <= i < ps.len() && ps[i] == (x, y);
                assert(in_grid(g, ps[i]));
            }
        }
    }
    assert(painted(painted(g, ps, None), ps, Some(b)) =~= g);
}

/// After drawing `b` on `ps`, every cell of `ps` on the grid holds `b`.
proof fn lemma_drawn(g: Grid, ps: Seq<(int, int)>, b: Block)
    ensures
        forall|i: int|
            0 <= i < ps.len() && in_grid(painted(g, ps, Some(b)), #[trigger] ps[i]) ==> at(
                painted(g, ps, Some(b)),
                ps[i],
            ) == Some(b),
{
    assert forall|i: int|
        0 <= i < ps.len() && in_grid(painted(g, ps, Some(b)), #[trigger] ps[i]) implies at(
        painted(g, ps, Some(b)),
        ps[i],
    ) == Some(b) by {
        assert(ps.contains(ps[i]));
    }
}

/// When a drawn piece locks, the grid before clearing is the grid as it was,
/// and clearing takes away exactly one row's width of filled cells for each
/// deleted row.
pub proof fn lemma_lock_count(p: Play)
    requires
        p.wf(),
        p.piece_drawn(),
    ensures
        p.landed() == p.grid(),
        occupied(cleared(p.landed(), p.cols())) + p.cols() * n_full(p.landed()) == occupied(p.grid()),
{
    lemma_lift_redraw(p.grid(), p.piece_cells(), glyph(p.kind()));
    lemma_clear_count(p.grid(), p.cols());
}

/// A piece spawned on the top row of a field at least four rows high, in a
/// column of `[2, width - 2)`, has all its cells on the field in every
/// facing, but for the horizontal facings in column `width - 3`, where its
/// last cell lies one column past the right edge.
pub proof fn lemma_spawn_inside(w: nat, h: nat, t: Tetromino, pos: (int, int), d: Dir)
    requires
        5 <= w,
        4 <= h,
        spawn_spot(w, pos),
        !(pos.0 == w - 3 && (d == Dir::Left || d == Dir::Right)),
    ensures
        forall|i: int|
            0 <= i < cells(t, pos, d).len() ==> 0 <= (#[trigger] cells(t, pos, d)[i]).0 < w && 0
                <= cells(t, pos, d)[i].1 < h,
{
    lemma_shape_extent(t, d);
}

/// Whether every cell of `line` is filled.
fn is_line_full(line: &Line) -> (r: bool)
    ensures
        r == is_full(line@),
{
    let mut i: usize = 0;
    while i < line.len()
        invariant
            i <= line@.len(),
            forall|j: int| 0 <= j < i ==> (#[trigger] line@[j]) is Some,
        decreases line@.len() - i,
    {
        if line[i].is_none() {
            return false;
        }
        i = i + 1;
    }
    true
}

impl Play {
    /// A game on an empty 16 by 16 field, with a first piece spawned.
    pub fn new() -> (r: Play)
        ensures
            r.wf(),
            r.playfield().cols() == 16,
            r.playfield().rows() == 16,
            r.points() == 0,
            r.clock().total() == 0,
            !r.stopped(),
            spawn_spot(16, r.anchor()),
            r.grid() == painted(empty_rows(16, 16), r.piece_cells(), Some(glyph(r.kind()))),
            r.piece_drawn(),
    {
        let field = Field::new(16, 16);
        assert(field@ =~= empty_rows(16, 16));
        let mut play = Play {
            random: Random::new(new_thread_rng()),
            tetro: Tetromino::I,
            tetro_dir: Dir::default(),
            tetro_stopped: false,
            piece_pos: Coord::default(),
            field,
            elapsed: Elapsed::new(),
            score: 0,
        };
        play.drop_tetro();
        play
    }

    /// A game on `field` with a piece of kind `tetro` facing `dir` drawn with
    /// its anchor at `pos`.
    pub fn from_field(field: Field, tetro: Tetromino, dir: Dir, pos: Coord) -> (r: Play)
        requires
            field.wf(),
            5 <= field.cols() <= MAX_SIDE,
            1 <= field.rows() <= MAX_SIDE,
            0 <= pos.0 < field.cols(),
            -(MAX_SIDE as int) <= pos.1 < field.rows(),
        ensures
            r.wf(),
            r.kind() == tetro,
            r.facing() == dir,
            r.anchor() == pos.pos(),
            r.playfield().cols() == field.cols(),
            r.playfield().rows() == field.rows(),
            r.grid() == painted(field@, cells(tetro, pos.pos(), dir), Some(glyph(tetro))),
            r.points() == 0,
            r.clock().total() == 0,
            !r.stopped(),
            r.piece_drawn(),
    {
        let mut play = Play {
            random: Random::new(new_thread_rng()),
            tetro,
            tetro_dir: dir,
            tetro_stopped: false,
            piece_pos: pos,
            field,
            elapsed: Elapsed::new(),
            score: 0,
        };
        let coords = tetro.make_coords(pos, dir);
        let block = tetro.block();
        play.field.render_blocks(block, coords.as_slice());
        proof {
            lemma_drawn(field@, positions(coords@), block);
        }
        play
    }

    /// Draws a random kind, facing and column, and spawns that piece.
    fn drop_tetro(&mut self)
        requires
            old(self).wf(),
        ensures
            final(self).wf(),
            spawn_spot(final(self).cols(), final(self).anchor()),
            final(self).grid() == painted(
                old(self).grid(),
                final(self).piece_cells(),
                Some(glyph(final(self).kind())),
            ),
            final(self).playfield().cols() == old(self).playfield().cols(),
            final(self).playfield().rows() == old(self).playfield().rows(),
            final(self).stopped() == old(self).stopped(),
            final(self).points() == old(self).points(),
            final(self).clock() == old(self).clock(),
            final(self).piece_drawn(),
    {
        let tetro = self.random.random_tetro();
        let dir = self.random.random_tetro_dir();
        let pos = self.random.random_piece_pos(self.field.width());
        self.spawn_piece_at(tetro, dir, pos);
    }

    /// Makes a piece of kind `tetro` facing `dir` with its anchor at `pos`
    /// the falling piece, and draws it.
    pub fn spawn_piece_at(&mut self, tetro: Tetromino, dir: Dir, pos: Coord)
        requires
            old(self).wf(),
            spawn_spot(old(self).cols(), pos.pos()),
        ensures
            final(self).wf(),
            final(self).kind() == tetro,
            final(self).facing() == dir,
            final(self).anchor() == pos.pos(),
            final(self).grid() == painted(old(self).grid(), cells(tetro, pos.pos(), dir), Some(glyph(tetro))),
            final(self).playfield().cols() == old(self).playfield().cols(),
            final(self).playfield().rows() == old(self).playfield().rows(),
            final(self).stopped() == old(self).stopped(),
            final(self).points() == old(self).points(),
            final(self).clock() == old(self).clock(),
            final(self).piece_drawn(),
    {
        self.tetro = tetro;
        self.tetro_dir = dir;
        self.piece_pos = pos;
        let coords = tetro.make_coords(pos, dir);
        let block = self.block();
        self.field.render_blocks(block, coords.as_slice());
        proof {
            lemma_drawn(old(self).grid(), positions(coords@), block);
        }
    }

    fn block(&self) -> (r: Block)
        ensures
            r == glyph(self.kind()),
    {
        self.tetro.block()
    }

    pub fn field(&self) -> (r: &Field)
        ensures
            *r == self.playfield(),
    {
        &self.field
    }

    pub fn elapsed(&self) -> (r: &Elapsed)
        ensures
            *r == self.clock(),
    {
        &self.elapsed
    }

    pub fn score(&self) -> (r: u64)
        ensures
            r == self.points(),
    {
        self.score
    }

    pub fn piece_pos(&self) -> (r: Coord)
        ensures
            r.pos() == self.anchor(),
    {
        self.piece_pos
    }

    pub fn tetro(&self) -> (r: Tetromino)
        ensures
            r == self.kind(),
    {
        self.tetro
    }

    pub fn tetro_dir(&self) -> (r: Dir)
        ensures
            r == self.facing(),
    {
        self.tetro_dir
    }

    /// Lifts the falling piece and draws it at `pos` facing `dir` if it may
    /// stand there, else where it was.
    fn try_place(&mut self, pos: Coord, dir: Dir) -> (r: Result<(), ()>)
        requires
            old(self).wf(),
            pos.0 <= MAX_SIDE,
            -(MAX_SIDE as int) <= pos.1 <= MAX_SIDE,
        ensures
            final(self).wf(),
            old(self).tried(*final(self), pos.pos(), dir),
            r is Ok <==> old(self).can_stand(pos.pos(), dir),
            old(self).piece_drawn() ==> final(self).piece_drawn(),
            old(self).piece_drawn() && r is Err ==> final(self).grid() == old(self).grid(),
    {
        let current = self.tetro.make_coords(self.piece_pos, self.tetro_dir);
        self.field.clear_blocks(current.as_slice());
        let coords = self.tetro.make_coords(pos, dir);
        let block = self.block();
        proof {
            lemma_shape_extent(self.tetro, dir);
        }
        if self.field.is_movable(coords.as_slice()) {
            proof {
                assert(positions(coords@)[0] == pos.pos());
                assert(crate::field::free_in(
                    self.field@,
                    self.field.cols(),
                    positions(coords@)[0],
                ));
                if in_grid(self.field@, pos.pos()) {
                    assert(self.field@[pos.1 as int].len() == self.field.cols());
                }
            }
            self.field.render_blocks(block, coords.as_slice());
            self.piece_pos = pos;
            self.tetro_dir = dir;
            proof {
                lemma_drawn(old(self).lifted(), positions(coords@), block);
            }
            Ok(())
        } else {
            self.field.render_blocks(block, current.as_slice());
            proof {
                lemma_drawn(old(self).lifted(), positions(current@), block);
                if old(self).piece_drawn() {
                    lemma_lift_redraw(old(self).grid(), old(self).piece_cells(), block);
                }
            }
            Err(())
        }
    }

    /// Moves the falling piece one cell in direction `dir` if it may stand
    /// there; `Err` when it is blocked, and it stays where it was.
    pub fn move_piece(&mut self, dir: Dir) -> (r: Result<(), ()>)
        requires
            old(self).wf(),
            dir == Dir::Up ==> old(self).anchor().1 > -(MAX_SIDE as int),
        ensures
            final(self).wf(),
            old(self).tried(*final(self), old(self).step_of(dir), old(self).facing()),
            r is Ok <==> old(self).can_stand(old(self).step_of(dir), old(self).facing()),
            old(self).piece_drawn() ==> final(self).piece_drawn(),
            old(self).piece_drawn() && r is Err ==> final(self).grid() == old(self).grid(),
    {
        let new_pos = self.piece_pos.add(dir.to_coord());
        let dir_now = self.tetro_dir;
        self.try_place(new_pos, dir_now)
    }

    /// A move asked for by the player: left, right or down; up is ignored,
    /// and so is a blocked move.
    pub fn slide_piece(&mut self, dir: Dir)
        requires
            old(self).wf(),
        ensures
            final(self).wf(),
            dir == Dir::Up ==> *final(self) == *old(self),
            dir != Dir::Up ==> old(self).tried(*final(self), old(self).step_of(dir), old(self).facing()),
            old(self).piece_drawn() ==> final(self).piece_drawn(),
            old(self).piece_drawn() && !old(self).can_stand(old(self).step_of(dir), old(self).facing())
                ==> final(self).grid() == old(self).grid(),
    {
        if dir != Dir::Up {
            let _ = self.move_piece(dir);
        }
    }

    /// Turns the falling piece in place if it may stand in the new facing;
    /// else it stays as it was.
    pub fn rotate_piece(&mut self, rotate_dir: RotateDir)
        requires
            old(self).wf(),
        ensures
            final(self).wf(),
            old(self).tried(*final(self), old(self).anchor(), rotated(rotate_dir, old(self).facing())),
            old(self).piece_drawn() ==> final(self).piece_drawn(),
            old(self).piece_drawn() && !old(self).can_stand(
                old(self).anchor(),
                rotated(rotate_dir, old(self).facing()),
            ) ==> final(self).grid() == old(self).grid(),
    {
        let dir = rotate_dir.rotate(self.tetro_dir);
        let pos = self.piece_pos;
        let _ = self.try_place(pos, dir);
    }

    /// The grid once the blocked piece is drawn back where it was.
    pub open spec fn landed(&self) -> Grid {
        painted(self.lifted(), self.piece_cells(), Some(glyph(self.kind())))
    }

    /// One gravity tick. Right after a spawn it only ends the grace tick.
    /// Otherwise the piece falls one row if it may; if it is blocked, full
    /// rows are deleted and scored one point each, and the game is over
    /// (`Err`) when the top row is then filled; else a new piece spawns and
    /// a grace tick begins.
    pub fn update(&mut self) -> (r: Result<(), ()>)
        requires
            old(self).wf(),
            old(self).points() + old(self).playfield().rows() <= u64::MAX,
        ensures
            final(self).wf(),
            final(self).clock() == old(self).clock(),
            final(self).playfield().cols() == old(self).playfield().cols(),
            final(self).playfield().rows() == old(self).playfield().rows(),
            old(self).piece_drawn() && r is Ok ==> final(self).piece_drawn(),
            old(self).stopped() ==> {
                &&& r is Ok
                &&& !final(self).stopped()
                &&& final(self).grid() == old(self).grid()
                &&& final(self).kind() == old(self).kind()
                &&& final(self).facing() == old(self).facing()
                &&& final(self).anchor() == old(self).anchor()
                &&& final(self).points() == old(self).points()
            },
            !old(self).stopped() && old(self).can_stand(old(self).step_of(Dir::Down), old(self).facing())
                ==> r is Ok && old(self).tried(*final(self), old(self).step_of(Dir::Down), old(self).facing()),
            !old(self).stopped() && !old(self).can_stand(old(self).step_of(Dir::Down), old(self).facing())
                ==> {
                &&& final(self).points() == old(self).points() + n_full(old(self).landed())
                &&& (r is Err <==> top_filled(cleared(old(self).landed(), old(self).cols())))
                &&& r is Err ==> final(self).grid() == cleared(old(self).landed(), old(self).cols())
                &&& r is Ok ==> {
                    &&& final(self).stopped()
                    &&& spawn_spot(final(self).cols(), final(self).anchor())
                    &&& final(self).grid() == painted(
                        cleared(old(self).landed(), old(self).cols()),
                        final(self).piece_cells(),
                        Some(glyph(final(self).kind())),
                    )
                }
            },
    {
        if self.tetro_stopped {
            self.tetro_stopped = false;
            return Ok(());
        }
        match self.move_piece(Dir::Down) {
            Ok(_) => {},
            Err(_) => {
                let n_deleted = self.delete_completed_lines();
                proof {
                    lemma_kept_len(old(self).landed());
                }
                self.score = self.score + n_deleted;
                if self.field.is_reached() {
                    return Err(());
                }
                self.drop_tetro();
                self.tetro_stopped = true;
            },
        }
        Ok(())
    }

    /// Advances the clock by one second.
    pub fn tick(&mut self)
        requires
            old(self).clock().total() < u64::MAX,
        ensures
            final(self).clock().total() == old(self).clock().total() + 1,
            final(self).kind() == old(self).kind(),
            final(self).facing() == old(self).facing(),
            final(self).anchor() == old(self).anchor(),
            final(self).stopped() == old(self).stopped(),
            final(self).playfield() == old(self).playfield(),
            final(self).points() == old(self).points(),
            final(self).source_ok() == old(self).source_ok(),
    {
        self.elapsed.add_secs(1);
    }

    /// Deletes every full row; returns how many there were.
    fn delete_completed_lines(&mut self) -> (r: u64)
        requires
            old(self).wf(),
        ensures
            final(self).wf(),
            final(self).grid() == cleared(old(self).grid(), old(self).cols()),
            r == n_full(old(self).grid()),
            final(self).kind() == old(self).kind(),
            final(self).facing() == old(self).facing(),
            final(self).anchor() == old(self).anchor(),
            final(self).stopped() == old(self).stopped(),
            final(self).points() == old(self).points(),
            final(self).clock() == old(self).clock(),
            final(self).playfield().cols() == old(self).playfield().cols(),
            final(self).playfield().rows() == old(self).playfield().rows(),
    {
        let ghost g = self.field@;
        let ghost w = self.field.cols();
        let h = self.field.height();
        let mut n: u64 = 0;
        let mut y: usize = 0;
        proof {
            assert(g.take(0) =~= Seq::<Seq<Option<Block>>>::empty());
            assert(self.field@ =~= empty_rows(0, w) + kept(g.take(0)) + g.skip(0));
        }
        while y < h
            invariant
                self.wf(),
                h == self.field.rows(),
                w == self.field.cols(),
                g.len() == h,
                y <= h,
                n == n_full(g.take(y as int)),
                n + kept(g.take(y as int)).len() == y,
                self.field@ == empty_rows(n as nat, w) + kept(g.take(y as int)) + g.skip(y as int),
                self.tetro == old(self).tetro,
                self.tetro_dir == old(self).tetro_dir,
                self.piece_pos == old(self).piece_pos,
                self.tetro_stopped == old(self).tetro_stopped,
                self.score == old(self).score,
                self.elapsed == old(self).elapsed,
                self.random.wf(),
            decreases h - y,
        {
            proof {
                lemma_prefix_step(g, y as int);
                lemma_kept_len(g.take(y + 1));
                assert(self.field@[y as int] == g[y as int]);
            }
            if is_line_full(self.field.get_line(y)) {
                self.field.delete_line(y);
                n = n + 1;
                proof {
                    assert(self.field@ =~= empty_rows(n as nat, w) + kept(g.take(y + 1)) + g.skip(y + 1));
                }
            } else {
                proof {
                    assert(self.field@ =~= empty_rows(n as nat, w) + kept(g.take(y + 1)) + g.skip(y + 1));
                }
            }
            y = y + 1;
        }
        proof {
            assert(g.take(h as int) =~= g);
            assert(self.field@ =~= cleared(g, w));
        }
        n
    }
}

} // verus!
