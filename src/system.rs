use vstd::prelude::*;

verus! {

/// A subsystem of the simulation, driven tick by tick. `W` is the world
/// model, `A` an agent of it, `T` a time step.
pub trait System<W, A, T> {
    fn init(&mut self, world: &W) {
    }

    fn register(&mut self, agent: &A) {
    }

    fn unregister(&mut self, agent: &A) {
    }

    fn import(&mut self, world: &W) {
    }

    fn update(&mut self, world: &W, dt: T) {
    }

    fn export(&mut self, world: &mut W) {
    }

    /// Reads the world, then advances by `dt`.
    fn step(&mut self, world: &W, dt: T) {
        self.import(world);
        self.update(world, dt)
    }

    /// Writes the results back into the world.
    fn apply(&mut self, world: &mut W) {
        self.export(world)
    }
}

} // verus!
