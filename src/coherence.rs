use vstd::prelude::*;
use vstd::std_specs::cmp::PartialOrdSpec;
use core::cmp::Ordering;
use crate::belief::BeliefState;

verus! {

/// An entropy-triggered corrective action on a belief and the entanglement
/// state.
pub trait CoherencePulse<B, E> {
    /// Whether the pulse should fire for `belief`.
    fn should_trigger(&self, belief: &B) -> bool;

    /// Applies the pulse to `belief` and the entanglement state.
    fn trigger(&mut self, belief: &mut B, entanglement: &mut E);
}

/// A pulse that fires when a belief's entropy exceeds a threshold.
///
/// Firing is an observation hook: it leaves the belief and the entanglement
/// state as they are.
pub struct EntropyPulse<M> {
    pub threshold: M,
}

impl<M: PartialOrd> EntropyPulse<M> {
    /// Whether `entropy` is strictly above the threshold.
    pub fn exceeds(&self, entropy: &M) -> (r: bool)
        ensures
            M::obeys_partial_cmp_spec() ==> (r <==> entropy.partial_cmp_spec(&self.threshold)
                == Some(Ordering::Greater)),
    {
        *entropy > self.threshold
    }
}

impl<M: PartialOrd> EntropyPulse<M> {
    /// Whether the entropy that `belief` reports is strictly above the threshold.
    pub fn belief_exceeds<B: BeliefState<Measure = M>>(&self, belief: &B) -> (r: bool)
        ensures
            exists|e: M|
                #![trigger call_ensures(B::entropy, (belief,), e)]
                call_ensures(B::entropy, (belief,), e) && (M::obeys_partial_cmp_spec() ==> (r
                    <==> e.partial_cmp_spec(&self.threshold) == Some(Ordering::Greater))),
    {
        let entropy = belief.entropy();
        self.exceeds(&entropy)
    }
}

impl<M: PartialOrd, B: BeliefState<Measure = M>, E> CoherencePulse<B, E> for EntropyPulse<M> {
    /// Whether the entropy that `belief` reports is above the threshold: see
    /// [`EntropyPulse::belief_exceeds`].
    fn should_trigger(&self, belief: &B) -> bool {
        self.belief_exceeds(belief)
    }

    fn trigger(&mut self, belief: &mut B, entanglement: &mut E)
        ensures
            *final(self) == *old(self),
            *final(belief) == *old(belief),
            *final(entanglement) == *old(entanglement),
    {
    }
}

} // verus!
