//! A registry of independent particle systems, addressed by handle.

use vstd::prelude::*;

use crate::system::ParticleSystem;

verus! {

/// Holds many systems.  Handles are dense indices into the backing
/// sequence; removal swaps the last system into the removed slot, so
/// removing any system may move the handle of whichever system was
/// last.  Handles are not stable across removals.
pub struct ParticleManager {
    systems: Vec<ParticleSystem>,
}

impl View for ParticleManager {
    type V = Seq<ParticleSystem>;

    closed spec fn view(&self) -> Seq<ParticleSystem> {
        self.systems@
    }
}

impl ParticleManager {
    /// An empty registry.
    pub fn new() -> (m: Self)
        ensures
            m@ == Seq::<ParticleSystem>::empty(),
    {
        ParticleManager { systems: Vec::new() }
    }

    /// Add a system; the returned handle indexes it until a removal
    /// moves it.
    pub fn add_system(&mut self, system: ParticleSystem) -> (id: usize)
        ensures
            final(self)@ == old(self)@.push(system),
            id == old(self)@.len(),
    {
        let id = self.systems.len();
        self.systems.push(system);
        id
    }

    /// Remove the system under `id` by swapping the last system into
    /// its slot.
    pub fn remove_system(&mut self, id: usize)
        requires
            id < old(self)@.len(),
        ensures
            final(self)@ == old(self)@.update(id as int, old(self)@.last()).drop_last(),
    {
        self.systems.swap_remove(id);
    }

    /// The system a handle currently addresses, read-only.
    pub fn system(&self, id: usize) -> (r: &ParticleSystem)
        requires
            id < self@.len(),
        ensures
            r == self@[id as int],
    {
        &self.systems[id]
    }

    /// How many systems are registered.
    pub fn len(&self) -> (n: usize)
        ensures
            n == self@.len(),
    {
        self.systems.len()
    }
}

} // verus!
