use vstd::prelude::*;
use crate::basis::WaveletBasis;
use crate::spectral::{
    BasisTransform, FusionError, WaveletDecomposition, WaveletEngine, WaveletFusionStrategy,
    dominant_of, engine_fusion_of, scores_of, select_dominant,
};

verus! {

/// A store of scalar state that can be observed, queried for resonance and
/// updated at a position, and that exposes a flat signal for spectral fusion.
pub trait ResonanceField {
    type Position;
    type Gradient;
    type Resonance;
    type Sample;
    type Context;

    /// The local gradient at `position`; reads the store only.
    fn observe(&self, position: &Self::Position) -> Self::Gradient;

    /// The resonance at `position`; reads the store only.
    fn compute_resonance(&self, position: &Self::Position) -> Self::Resonance;

    /// Feeds `influence` into the store at `position`.
    fn propagate(&mut self, position: &Self::Position, influence: &Self::Resonance);

    /// The flat signal that spectral fusion works on.
    fn signal(&self) -> &[Self::Sample];

    /// A label naming the field's semantic domain.
    fn domain_label(&self) -> &str;

    /// Side information for spectral fusion of [`ResonanceField::signal`].
    fn fusion_context(&self) -> Self::Context;
}

/// Turns a fused belief, a resonance and the entanglement state into a
/// control law.
pub trait LawSynthEngine<P, R, E> {
    type ControlLaw;

    fn synthesize(&self, belief: &P, resonance: &R, entanglement: &E) -> Self::ControlLaw;
}

/// The fused decomposition of the field's signal under the engine's bases.
pub fn fused_spectrum<Fd, F, X>(field: &Fd, engine: &WaveletEngine<F, X>, level: usize) -> (r: Result<
    WaveletDecomposition<Fd::Sample>,
    FusionError,
>) where Fd: ResonanceField, F: WaveletFusionStrategy<Fd::Sample, Fd::Context>, X: BasisTransform<Fd::Sample>,

    ensures
        engine.basis_set@.len() == 0 <==> r == Err::<WaveletDecomposition<Fd::Sample>, FusionError>(
            FusionError::NoDecompositions,
        ),
        exists|signal: &[Fd::Sample], context: Fd::Context|
            #![trigger call_ensures(Fd::signal, (field,), signal), call_ensures(Fd::fusion_context, (field,), context)]
            call_ensures(Fd::signal, (field,), signal) && call_ensures(
                Fd::fusion_context,
                (field,),
                context,
            ) && engine_fusion_of::<Fd::Sample, Fd::Context, F, X>(
                &engine.transform,
                engine.basis_set@,
                signal,
                &context,
                level,
                r,
            ),
{
    let context = field.fusion_context();
    let signal = field.signal();
    engine.fuse(signal, &context, level)
}

/// The engine's basis that scores highest on the field's signal, the first
/// such one on a tie; `None` when the engine has no bases.
pub fn dominant_basis<Fd, F, X>(field: &Fd, engine: &WaveletEngine<F, X>) -> (r: Option<WaveletBasis>) where
    Fd: ResonanceField,
    Fd::Sample: PartialOrd + Copy,
    F: WaveletFusionStrategy<Fd::Sample, Fd::Context>,

    ensures
        r is None <==> engine.basis_set@.len() == 0,
        r is Some ==> exists|i: int|
            0 <= i < engine.basis_set@.len() && r->Some_0 == #[trigger] engine.basis_set@[i],
        exists|signal: &[Fd::Sample], context: Fd::Context, scored: Seq<(WaveletBasis, Fd::Sample)>|
            #![trigger call_ensures(Fd::signal, (field,), signal), call_ensures(Fd::fusion_context, (field,), context), scores_of::<Fd::Sample, Fd::Context, F>(engine.basis_set@, signal, &context, scored)]
            call_ensures(Fd::signal, (field,), signal) && call_ensures(
                Fd::fusion_context,
                (field,),
                context,
            ) && scores_of::<Fd::Sample, Fd::Context, F>(engine.basis_set@, signal, &context, scored)
                && dominant_of(scored, r),
{
    let context = field.fusion_context();
    let signal = field.signal();
    let scored = engine.score_bases(signal, &context);
    let r = select_dominant(scored.as_slice());
    proof {
        if r is Some {
            let i = choose|i: int| 0 <= i < scored@.len() && r->Some_0 == scored@[i].0;
            assert(r->Some_0 == engine.basis_set@[i]);
        }
    }
    r
}

/// The samples that a backward difference at column `col`, row `row` of a
/// grid reads: the cell itself, its left neighbour and the one above, each
/// clamped to the cell itself at index zero.
pub open spec fn backward_cells<T>(grid: Seq<Vec<T>>, col: nat, row: nat) -> Option<(T, T, T)> {
    let left = if col > 0 {
        (col - 1) as nat
    } else {
        col
    };
    let up = if row > 0 {
        (row - 1) as nat
    } else {
        row
    };
    if row < grid.len() && col < grid[row as int]@.len() && col < grid[up as int]@.len() {
        Some((grid[row as int]@[col as int], grid[row as int]@[left as int], grid[up as int]@[col as int]))
    } else {
        None
    }
}

/// The cell at `col`, `row` of a grid with its left and upper neighbours, or
/// `None` when the position lies outside the grid.
pub fn backward_neighbourhood<T: Copy>(grid: &Vec<Vec<T>>, col: usize, row: usize) -> (r: Option<(T, T, T)>)
    ensures
        r == backward_cells(grid@, col as nat, row as nat),
{
    let left = col.saturating_sub(1);
    let up = row.saturating_sub(1);
    if row < grid.len() && col < grid[row].len() && col < grid[up].len() {
        Some((grid[row][col], grid[row][left], grid[up][col]))
    } else {
        None
    }
}

} // verus!
