use vstd::prelude::*;

verus! {

/// A belief over one tracked source, as the semantic engine consumes it.
pub trait BeliefState {
    type Observation;
    type Posterior;
    type Measure;

    /// Draws an observation from the belief's source.
    fn observe(&self) -> Self::Observation;

    /// Updates the belief from an observation.
    fn update(&mut self, observation: &Self::Observation);

    /// The uncertainty of the belief.
    fn entropy(&self) -> Self::Measure;
}

/// Combines the tracked beliefs into one posterior.
pub trait BeliefFusion<B: BeliefState> {
    fn fuse(&self, beliefs: &[B]) -> B::Posterior;
}

} // verus!
