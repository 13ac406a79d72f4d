use vstd::prelude::*;

verus! {

/// Simulated seconds since the game began.
#[derive(Debug, Clone, Copy, PartialEq, Eq, Structural)]
pub struct Elapsed {
    secs: u64,
}

impl Elapsed {
    pub closed spec fn total(&self) -> nat {
        self.secs as nat
    }

    pub fn new() -> (r: Elapsed)
        ensures
            r.total() == 0,
    {
        Elapsed { secs: 0 }
    }

    pub fn secs(&self) -> (r: u64)
        ensures
            r == self.total(),
    {
        self.secs
    }

    pub fn add_secs(&mut self, n: u64)
        requires
            old(self).total() + n <= u64::MAX,
        ensures
            final(self).total() == old(self).total() + n,
    {
        self.secs = self.secs + n;
    }
}

} // verus!
