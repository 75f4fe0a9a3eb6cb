use vstd::prelude::*;

verus! {

/// Hands out consecutive identifiers, starting at 0.
pub struct IdGenerator {
    id: u32,
}

impl IdGenerator {
    pub closed spec fn next_id(&self) -> u32 {
        self.id
    }

    pub fn new() -> (r: Self)
        ensures
            r.next_id() == 0,
    {
        IdGenerator { id: 0 }
    }

    /// Returns the next identifier and moves past it.
    pub fn get_and_increment(&mut self) -> (r: u32)
        requires
            old(self).next_id() < u32::MAX,
        ensures
            r == old(self).next_id(),
            final(self).next_id() == old(self).next_id() + 1,
    {
        let result = self.id;
        self.id = self.id + 1;
        result
    }
}

} // verus!
