use vstd::prelude::*;

verus! {

/// A position or a displacement on the grid; `y` grows downward.
#[derive(Debug, Clone, Copy, PartialEq, Eq, Structural)]
pub struct Coord(pub i8, pub i8);

impl Coord {
    /// The coordinate as a pair of mathematical integers.
    pub open spec fn pos(self) -> (int, int) {
        (self.0 as int, self.1 as int)
    }

    pub fn x(&self) -> (r: i8)
        ensures
            r == self.0,
    {
        self.0
    }

    pub fn y(&self) -> (r: i8)
        ensures
            r == self.1,
    {
        self.1
    }

    /// Component-wise sum.
    pub fn add(self, rhs: Coord) -> (r: Coord)
        requires
            i8::MIN <= self.0 + rhs.0 <= i8::MAX,
            i8::MIN <= self.1 + rhs.1 <= i8::MAX,
        ensures
            r.0 == self.0 + rhs.0,
            r.1 == self.1 + rhs.1,
    {
        Coord(self.0 + rhs.0, self.1 + rhs.1)
    }

    /// Component-wise sum, in place.
    pub fn add_assign(&mut self, rhs: Coord)
        requires
            i8::MIN <= old(self).0 + rhs.0 <= i8::MAX,
            i8::MIN <= old(self).1 + rhs.1 <= i8::MAX,
        ensures
            final(self).0 == old(self).0 + rhs.0,
            final(self).1 == old(self).1 + rhs.1,
    {
        self.0 = self.0 + rhs.0;
        self.1 = self.1 + rhs.1;
    }
}

impl Default for Coord {
    fn default() -> (r: Coord)
        ensures
            r == Coord(0, 0),
    {
        Coord(0, 0)
    }
}

/// The four facings, in clockwise order.
pub type Dirs = [Dir; 4];

#[derive(Debug, Clone, Copy, PartialEq, Eq, Structural)]
pub enum Dir {
    Up,
    Right,
    Down,
    Left,
}

/// Unit displacement of a direction.
pub open spec fn dir_vector(d: Dir) -> (int, int) {
    match d {
        Dir::Up => (0, -1),
        Dir::Right => (1, 0),
        Dir::Down => (0, 1),
        Dir::Left => (-1, 0),
    }
}

/// A clockwise quarter turn.
pub open spec fn turn_cw(d: Dir) -> Dir {
    match d {
        Dir::Up => Dir::Right,
        Dir::Right => Dir::Down,
        Dir::Down => Dir::Left,
        Dir::Left => Dir::Up,
    }
}

/// A half turn.
pub open spec fn reverse(d: Dir) -> Dir {
    match d {
        Dir::Up => Dir::Down,
        Dir::Right => Dir::Left,
        Dir::Down => Dir::Up,
        Dir::Left => Dir::Right,
    }
}

/// The facing reached by one rotation step: a clockwise quarter turn,
/// followed by a half turn when the rotation is anti-clockwise.
pub open spec fn rotated(r: RotateDir, d: Dir) -> Dir {
    match r {
        RotateDir::Clockwise => turn_cw(d),
        RotateDir::AntiClockwise => reverse(turn_cw(d)),
    }
}

impl Dir {
    pub fn all() -> (r: Dirs)
        ensures
            r@ == seq![Dir::Up, Dir::Right, Dir::Down, Dir::Left],
    {
        let r = [Dir::Up, Dir::Right, Dir::Down, Dir::Left];
        assert(r@ =~= seq![Dir::Up, Dir::Right, Dir::Down, Dir::Left]);
        r
    }

    pub fn to_coord(&self) -> (r: Coord)
        ensures
            r.pos() == dir_vector(*self),
    {
        match self {
            Dir::Up => Coord(0, -1),
            Dir::Right => Coord(1, 0),
            Dir::Down => Coord(0, 1),
            Dir::Left => Coord(-1, 0),
        }
    }

    pub fn next_dir(&self) -> (r: Dir)
        ensures
            r == turn_cw(*self),
    {
        match self {
            Dir::Up => Dir::Right,
            Dir::Right => Dir::Down,
            Dir::Down => Dir::Left,
            Dir::Left => Dir::Up,
        }
    }

    pub fn opponent(&self) -> (r: Dir)
        ensures
            r == reverse(*self),
    {
        match self {
            Dir::Up => Dir::Down,
            Dir::Right => Dir::Left,
            Dir::Down => Dir::Up,
            Dir::Left => Dir::Right,
        }
    }
}

impl Default for Dir {
    fn default() -> (r: Dir)
        ensures
            r == Dir::Up,
    {
        Dir::Up
    }
}

#[derive(Debug, Clone, Copy, PartialEq, Eq, Structural)]
pub enum RotateDir {
    Clockwise,
    AntiClockwise,
}

impl RotateDir {
    pub fn rotate(&self, dir: Dir) -> (r: Dir)
        ensures
            r == rotated(*self, dir),
    {
        let dir = dir.next_dir();
        match self {
            RotateDir::Clockwise => dir,
            RotateDir::AntiClockwise => dir.opponent(),
        }
    }
}

/// An anti-clockwise step undoes a clockwise one on the four-direction cycle.
pub proof fn lemma_anticlockwise_undoes_clockwise(d: Dir)
    ensures
        rotated(RotateDir::AntiClockwise, rotated(RotateDir::Clockwise, d)) == d,
{
}

/// Two clockwise steps followed by two anti-clockwise steps give back the
/// starting facing.
pub proof fn lemma_rotation_round_trip(d: Dir)
    ensures
        rotated(
            RotateDir::AntiClockwise,
            rotated(RotateDir::AntiClockwise, rotated(RotateDir::Clockwise, rotated(RotateDir::Clockwise, d))),
        ) == d,
{
}

} // verus!
