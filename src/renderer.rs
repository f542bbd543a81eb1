use vstd::prelude::*;

verus! {

/// Something that renders successive frames of a running simulation.
pub trait Renderer {
    /// The renderer's state is consistent.
    spec fn ready(&self) -> bool;

    /// Renders the current state as text.
    fn generate_frame(&mut self) -> (frame: String)
        requires
            old(self).ready(),
        ensures
            final(self).ready(),
    ;

    /// Advances the simulation by one step.
    fn update_simulation(&mut self)
        requires
            old(self).ready(),
        ensures
            final(self).ready(),
    ;
}

} // verus!
