use vstd::prelude::*;

verus! {

/// What a filled cell shows: the glyph of the piece that left it there.
#[derive(Debug, Clone, Copy, PartialEq, Eq, Structural)]
pub struct Block {
    pub chr: char,
}

} // verus!
