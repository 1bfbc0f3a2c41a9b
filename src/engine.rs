use vstd::prelude::*;
use crate::belief::{BeliefFusion, BeliefState};
use crate::coherence::CoherencePulse;
use crate::field::{LawSynthEngine, ResonanceField};

verus! {

/// What one completed step reports: its index, the position, the fused
/// posterior and the resonance computed during the step.
pub struct StepRecord<P, Q, R> {
    pub step: usize,
    pub position: P,
    pub fused: Q,
    pub resonance: R,
}

/// `resonance` is a possible result of computing the resonance of `field` at
/// `position`.
pub open spec fn resonance_of<F: ResonanceField>(
    field: &F,
    position: &F::Position,
    resonance: F::Resonance,
) -> bool {
    call_ensures(F::compute_resonance, (field, position), resonance)
}

/// Propagates `influence` into `field` at `position`.
fn propagate_into<F: ResonanceField>(field: &mut F, position: &F::Position, influence: &F::Resonance)
    ensures
        exists|m: &mut F|
            #![trigger call_ensures(F::propagate, (m, position, influence), ())]
            mut_ref_current(m) == *old(field) && mut_ref_future(m) == *final(field) && call_ensures(
                F::propagate,
                (m, position, influence),
                (),
            ),
{
    field.propagate(position, influence);
}

/// Drives beliefs, a resonance field, an entanglement state, a control-law
/// synthesizer and a coherence pulse through one ordered cycle per step.
pub struct SemanticEngine<B, F, E, S, BF, CP> where B: BeliefState, F: ResonanceField {
    pub beliefs: Vec<B>,
    pub fusion_strategy: BF,
    pub field: F,
    pub entanglement: E,
    pub synthesizer: S,
    pub position: F::Position,
    pub pulse: CP,
    pub step: usize,
}

impl<B, F, E, S, BF, CP> SemanticEngine<B, F, E, S, BF, CP> where
    B: BeliefState,
    F: ResonanceField,
    F::Position: Copy,
    E: Sized,
    S: LawSynthEngine<B::Posterior, F::Resonance, E>,
    BF: BeliefFusion<B>,
    CP: CoherencePulse<B, E>,
 {
    /// An engine at `position` that has taken no step yet.
    pub fn new(
        beliefs: Vec<B>,
        fusion_strategy: BF,
        field: F,
        entanglement: E,
        synthesizer: S,
        position: F::Position,
        pulse: CP,
    ) -> (r: Self)
        ensures
            r.step == 0,
            r.beliefs@ == beliefs@,
            r.position == position,
    {
        SemanticEngine {
            beliefs,
            fusion_strategy,
            field,
            entanglement,
            synthesizer,
            position,
            pulse,
            step: 0,
        }
    }

    /// The position the engine moves to under a control law: the control law
    /// does not move it.
    fn apply_control(&self, _law: &S::ControlLaw) -> (r: F::Position)
        ensures
            r == self.position,
    {
        self.position
    }

    /// One cycle: update every belief from its own observation, fuse the
    /// beliefs, compute the resonance at the current position, synthesize a
    /// control law, move, propagate the resonance at the new position, fire
    /// the coherence pulse on every belief when the first one calls for it,
    /// and count the step.
    pub fn step(&mut self) -> (r: StepRecord<F::Position, B::Posterior, F::Resonance>)
        requires
            old(self).step < usize::MAX,
        ensures
            final(self).step == old(self).step + 1,
            r.step == old(self).step,
            final(self).position == old(self).position,
            r.position == final(self).position,
            final(self).beliefs@.len() == old(self).beliefs@.len(),
            final(self).fusion_strategy == old(self).fusion_strategy,
            final(self).synthesizer == old(self).synthesizer,
            // the resonance comes from the field before this step changed it
            resonance_of(&old(self).field, &old(self).position, r.resonance),
            // the field is propagated with that resonance at the new position
            exists|m: &mut F|
                #![trigger call_ensures(F::propagate, (m, &final(self).position, &r.resonance), ())]
                mut_ref_current(m) == old(self).field && mut_ref_future(m) == final(self).field
                    && call_ensures(F::propagate, (m, &final(self).position, &r.resonance), ()),
            // the beliefs as the update phase left them are fused, and the
            // pulse is consulted on the first of them: when it declines, or
            // when there are no beliefs, the beliefs, the pulse and the
            // entanglement state stay as the update phase left them
            exists|updated: &[B]|
                #![trigger call_ensures(BF::fuse, (&old(self).fusion_strategy, updated), r.fused)]
                {
                    &&& call_ensures(BF::fuse, (&old(self).fusion_strategy, updated), r.fused)
                    &&& updated@.len() == old(self).beliefs@.len()
                    &&& updated@.len() == 0 ==> final(self).beliefs@ == updated@ && final(self).pulse
                        == old(self).pulse && final(self).entanglement == old(self).entanglement
                    &&& updated@.len() > 0 ==> exists|t: bool|
                        #![trigger call_ensures(CP::should_trigger, (&old(self).pulse, &updated@[0]), t)]
                        call_ensures(CP::should_trigger, (&old(self).pulse, &updated@[0]), t) && (!t
                            ==> final(self).beliefs@ == updated@ && final(self).pulse == old(self).pulse
                            && final(self).entanglement == old(self).entanglement)
                },
    {
        let n = self.beliefs.len();
        let mut i: usize = 0;
        while i < n
            invariant
                n == self.beliefs@.len(),
                n == old(self).beliefs@.len(),
                i <= n,
                self.step == old(self).step,
                self.position == old(self).position,
                self.field == old(self).field,
                self.pulse == old(self).pulse,
                self.entanglement == old(self).entanglement,
                self.fusion_strategy == old(self).fusion_strategy,
                self.synthesizer == old(self).synthesizer,
            decreases n - i,
        {
            let observation = self.beliefs[i].observe();
            self.beliefs[i].update(&observation);
            i = i + 1;
        }

        let beliefs = self.beliefs.as_slice();
        let fused = self.fusion_strategy.fuse(beliefs);
        let resonance = self.field.compute_resonance(&self.position);
        let law = self.synthesizer.synthesize(&fused, &resonance, &self.entanglement);

        self.position = self.apply_control(&law);
        propagate_into(&mut self.field, &self.position, &resonance);
        let ghost propagated = self.field;

        let ghost updated = self.beliefs@;
        let mut fire_all = false;
        if n > 0 {
            fire_all = self.pulse.should_trigger(&self.beliefs[0]);
            assert(call_ensures(CP::should_trigger, (&old(self).pulse, &beliefs@[0]), fire_all));
        }
        if fire_all {
            let mut j: usize = 0;
            while j < n
                invariant
                    n == self.beliefs@.len(),
                    j <= n,
                    self.step == old(self).step,
                    self.position == old(self).position,
                    self.fusion_strategy == old(self).fusion_strategy,
                    self.synthesizer == old(self).synthesizer,
                    self.field == propagated,
                decreases n - j,
            {
                self.pulse.trigger(&mut self.beliefs[j], &mut self.entanglement);
                j = j + 1;
            }
        }

        let record = StepRecord { step: self.step, position: self.position, fused, resonance };
        self.step = self.step + 1;
        proof {
            assert(beliefs@ == updated);
            if !fire_all {
                assert(self.beliefs@ == beliefs@);
            }
            assert(call_ensures(BF::fuse, (&old(self).fusion_strategy, beliefs), fused));
            assert(record.fused == fused);
            assert(call_ensures(BF::fuse, (&old(self).fusion_strategy, beliefs), record.fused));
            assert(beliefs@.len() == old(self).beliefs@.len());
            assert(beliefs@.len() > 0 ==> call_ensures(CP::should_trigger, (&old(self).pulse, &beliefs@[0]), fire_all));
        }
        record
    }

    /// Takes `m` steps and returns their records in order.
    pub fn run(&mut self, m: usize) -> (r: Vec<StepRecord<F::Position, B::Posterior, F::Resonance>>)
        requires
            old(self).step + m <= usize::MAX,
        ensures
            final(self).step == old(self).step + m,
            r@.len() == m,
            forall|i: int| 0 <= i < m ==> (#[trigger] r@[i]).step == old(self).step + i,
            final(self).position == old(self).position,
    {
        let mut records: Vec<StepRecord<F::Position, B::Posterior, F::Resonance>> = Vec::new();
        let mut k: usize = 0;
        while k < m
            invariant
                k <= m,
                self.step == old(self).step + k,
                old(self).step + m <= usize::MAX,
                records@.len() == k,
                forall|i: int| 0 <= i < k ==> (#[trigger] records@[i]).step == old(self).step + i,
                self.position == old(self).position,
            decreases m - k,
        {
            let record = self.step();
            records.push(record);
            k = k + 1;
        }
        records
    }
}

} // verus!
