use vstd::prelude::*;

verus! {

/// Common trait for components that have to do something each cycle.
///
/// `inv` is the component's well-formedness condition and `tick_view` the
/// mathematical description of its per-cycle transition on the component's
/// view; `tick` performs exactly that transition.
pub trait CanTick: View + Sized {
    /// Well-formedness of the component's state.
    spec fn inv(&self) -> bool;

    /// The view of the component after one cycle.
    spec fn tick_view(&self) -> Self::V;

    /// Perform actions for this cycle.
    fn tick(&mut self)
        requires
            old(self).inv(),
        ensures
            final(self).inv(),
            final(self)@ == old(self).tick_view(),
    ;
}

} // verus!
