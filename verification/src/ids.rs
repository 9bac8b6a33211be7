//! Process-scoped identifiers for wallets and transactions.
//!
//! Identifiers are never persisted: every load draws fresh ones. Instead of a
//! hidden global counter, the generator is an explicit value handed to the
//! operations that need an identifier, so callers (and tests) control it.

use vstd::prelude::*;

verus! {

/// A monotonically increasing source of non-zero identifiers. Identifier 0
/// is reserved for drafts — entities not yet promoted.
#[derive(Clone, Copy, Debug, PartialEq, Eq, Structural)]
pub struct IdGenerator {
    pub next_id: usize,
}

/// The generator hands out non-zero identifiers and never repeats one.
pub open spec fn id_generator_wf(g: IdGenerator) -> bool {
    g.next_id >= 1
}

impl IdGenerator {
    /// A fresh generator; the first identifier drawn is 1.
    pub fn new() -> (r: IdGenerator)
        ensures
            r.next_id == 1,
            id_generator_wf(r),
    {
        IdGenerator { next_id: 1 }
    }

    /// Draws the next identifier. Identifiers strictly increase, so one never
    /// comes out twice.
    pub fn fresh(&mut self) -> (r: usize)
        requires
            id_generator_wf(*old(self)),
            old(self).next_id < usize::MAX,
        ensures
            r == old(self).next_id,
            r >= 1,
            final(self).next_id == r + 1,
            id_generator_wf(*final(self)),
    {
        let r = self.next_id;
        self.next_id = self.next_id + 1;
        r
    }
}

impl Default for IdGenerator {
    fn default() -> (r: Self)
        ensures
            r.next_id == 1,
            id_generator_wf(r),
    {
        IdGenerator { next_id: 1 }
    }
}

} // verus!
