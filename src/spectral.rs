use vstd::prelude::*;
use vstd::laws_cmp::obeys_partial_cmp_spec_properties;
use vstd::std_specs::cmp::PartialOrdSpec;
use core::cmp::Ordering;
use crate::basis::{coefficient_count, coefficient_count_of, WaveletBasis};

verus! {

/// The coefficients of one signal under one basis, tagged with a level.
pub struct WaveletDecomposition<T> {
    pub basis: WaveletBasis,
    pub coefficients: Vec<T>,
    pub level: usize,
}

/// Why a set of decompositions cannot be fused.
#[derive(Debug, Clone, Copy, PartialEq, Eq, Structural)]
pub enum FusionError {
    /// There is nothing to fuse: the basis set is empty.
    NoDecompositions,
    /// Two decompositions differ in their number of coefficients.
    ShapeMismatch,
    /// The strategy returned a number of coefficients other than the common one.
    FusedShapeMismatch,
    /// A transform returned another number of coefficients than its basis
    /// fixes for the signal's length.
    CoefficientCountMismatch,
}

/// The transform primitive behind each basis.
pub trait BasisTransform<T> {
    /// The coefficients of `signal` under `basis`.
    fn transform(&self, basis: &WaveletBasis, signal: &[T]) -> Vec<T>;
}

/// `coefficients` is a possible result of `transform` on `basis` and `signal`.
pub open spec fn transformed_by<T, X: BasisTransform<T>>(
    transform: &X,
    basis: &WaveletBasis,
    signal: &[T],
    coefficients: Vec<T>,
) -> bool {
    call_ensures(X::transform, (transform, basis, signal), coefficients)
}

/// `ds` are the decompositions of `signal` under `bases`, in that order,
/// each tagged with its basis and `level`.
pub open spec fn decompositions_of<T, X: BasisTransform<T>>(
    transform: &X,
    bases: Seq<WaveletBasis>,
    signal: &[T],
    level: usize,
    ds: Seq<WaveletDecomposition<T>>,
) -> bool {
    &&& ds.len() == bases.len()
    &&& forall|i: int|
        0 <= i < ds.len() ==> (#[trigger] ds[i]).basis == bases[i] && ds[i].level == level
            && transformed_by(transform, &bases[i], signal, ds[i].coefficients)
}

/// A rule that combines decompositions of one signal under several bases,
/// and scores a single basis for how well it fits a signal.
pub trait WaveletFusionStrategy<T, C> {
    /// Fuses decompositions that all hold the same number of coefficients.
    fn fuse(decompositions: &[WaveletDecomposition<T>], context: &C) -> WaveletDecomposition<T>
        requires
            decompositions@.len() > 0,
            same_lengths(decompositions@),
    ;

    /// The fit of `basis` for `signal`; a higher score is a better fit.
    fn score_basis(basis: &WaveletBasis, signal: &[T], context: &C) -> T;
}

/// Every decomposition holds as many coefficients as the first.
pub open spec fn same_lengths<T>(ds: Seq<WaveletDecomposition<T>>) -> bool {
    forall|i: int|
        0 <= i < ds.len() ==> #[trigger] ds[i].coefficients@.len() == ds[0].coefficients@.len()
}

/// The outcome of fusing `ds`: an error exactly when there is nothing to fuse
/// or the shapes differ.
pub open spec fn fusion_precheck<T>(ds: Seq<WaveletDecomposition<T>>) -> Result<nat, FusionError> {
    if ds.len() == 0 {
        Err(FusionError::NoDecompositions)
    } else if !same_lengths(ds) {
        Err(FusionError::ShapeMismatch)
    } else {
        Ok(ds[0].coefficients@.len())
    }
}

/// The common number of coefficients of `ds`, or why there is none.
pub fn common_length<T>(ds: &[WaveletDecomposition<T>]) -> (r: Result<usize, FusionError>)
    ensures
        match fusion_precheck(ds@) {
            Ok(n) => r == Ok::<usize, FusionError>(n as usize),
            Err(e) => r == Err::<usize, FusionError>(e),
        },
        r is Ok ==> fusion_precheck(ds@) == Ok::<nat, FusionError>(r->Ok_0 as nat),
{
    if ds.len() == 0 {
        return Err(FusionError::NoDecompositions);
    }
    let n = ds[0].coefficients.len();
    let mut i: usize = 1;
    while i < ds.len()
        invariant
            1 <= i <= ds@.len(),
            n == ds@[0].coefficients@.len(),
            forall|j: int| 0 <= j < i ==> #[trigger] ds@[j].coefficients@.len() == n,
        decreases ds@.len() - i,
    {
        if ds[i].coefficients.len() != n {
            return Err(FusionError::ShapeMismatch);
        }
        i = i + 1;
    }
    Ok(n)
}

/// `r` is what fusing `ds` with strategy `F` after the shape check may give:
/// the check's error when it fails; otherwise the strategy's result when it
/// keeps the common length, and `FusedShapeMismatch` when it does not.
pub open spec fn strategy_fusion_of<T, C, F: WaveletFusionStrategy<T, C>>(
    ds: &[WaveletDecomposition<T>],
    context: &C,
    r: Result<WaveletDecomposition<T>, FusionError>,
) -> bool {
    match fusion_precheck(ds@) {
        Err(e) => r == Err::<WaveletDecomposition<T>, FusionError>(e),
        Ok(n) => exists|f: WaveletDecomposition<T>|
            #[trigger] call_ensures(F::fuse, (ds, context), f) && r == if f.coefficients@.len() == n {
                Ok::<WaveletDecomposition<T>, FusionError>(f)
            } else {
                Err::<WaveletDecomposition<T>, FusionError>(FusionError::FusedShapeMismatch)
            },
    }
}

/// Fuses `ds` with strategy `F` after checking that their shapes agree, and
/// checks that the fused decomposition keeps the common length.
pub fn fuse_decompositions<T, C, F: WaveletFusionStrategy<T, C>>(
    ds: &[WaveletDecomposition<T>],
    context: &C,
) -> (r: Result<WaveletDecomposition<T>, FusionError>)
    ensures
        strategy_fusion_of::<T, C, F>(ds, context, r),
{
    let n = match common_length(ds) {
        Ok(n) => n,
        Err(e) => return Err(e),
    };
    assert(fusion_precheck(ds@) == Ok::<nat, FusionError>(n as nat));
    let fused = F::fuse(ds, context);
    if fused.coefficients.len() != n {
        return Err(FusionError::FusedShapeMismatch);
    }
    Ok(fused)
}

/// `a` compares greater than `b`.
pub open spec fn greater<T: PartialOrd>(a: T, b: T) -> bool {
    a.partial_cmp_spec(&b) == Some(Ordering::Greater)
}

/// Every two scores of `s` are equal or one is greater than the other.
pub open spec fn totally_ordered<T: PartialOrd>(s: Seq<T>) -> bool {
    forall|i: int, j: int|
        #![trigger s[i], s[j]]
        0 <= i < s.len() && 0 <= j < s.len() ==> s[i] == s[j] || greater(s[i], s[j]) || greater(
            s[j],
            s[i],
        )
}

/// The index of the first highest score, or `None` for no scores.
///
/// When the scores obey the laws of a partial order, no score beats the
/// chosen one; when they are moreover totally ordered, it beats every
/// earlier score, so ties go to the first.
pub fn first_max_index<T: PartialOrd>(scores: &[T]) -> (r: Option<usize>)
    ensures
        r is None <==> scores@.len() == 0,
        r is Some ==> r->Some_0 < scores@.len(),
        r is Some && T::obeys_partial_cmp_spec() && obeys_partial_cmp_spec_properties::<T>()
            ==> forall|k: int|
            0 <= k < scores@.len() ==> !greater(#[trigger] scores@[k], scores@[r->Some_0 as int]),
        r is Some && T::obeys_partial_cmp_spec() && obeys_partial_cmp_spec_properties::<T>()
            && totally_ordered(scores@) ==> forall|k: int|
            0 <= k < r->Some_0 ==> greater(scores@[r->Some_0 as int], #[trigger] scores@[k]),
{
    if scores.len() == 0 {
        return None;
    }
    let ghost laws = T::obeys_partial_cmp_spec() && obeys_partial_cmp_spec_properties::<T>();
    proof {
        if laws {
            reveal(obeys_partial_cmp_spec_properties);
        }
    }
    let mut best: usize = 0;
    let mut j: usize = 1;
    while j < scores.len()
        invariant
            1 <= j <= scores@.len(),
            best < j,
            laws == (T::obeys_partial_cmp_spec() && obeys_partial_cmp_spec_properties::<T>()),
            laws ==> forall|k: int| 0 <= k < j ==> !greater(#[trigger] scores@[k], scores@[best as int]),
            laws && totally_ordered(scores@) ==> forall|k: int|
                0 <= k < best ==> greater(scores@[best as int], #[trigger] scores@[k]),
        decreases scores@.len() - j,
    {
        if scores[j] > scores[best] {
            proof {
                if laws {
                    reveal(obeys_partial_cmp_spec_properties);
                    assert forall|k: int| 0 <= k < j + 1 implies !greater(
                        #[trigger] scores@[k],
                        scores@[j as int],
                    ) by {
                        if greater(scores@[k], scores@[j as int]) {
                            assert(greater(scores@[k], scores@[best as int]));
                        }
                    }
                    if totally_ordered(scores@) {
                        assert forall|k: int| 0 <= k < j implies greater(
                            scores@[j as int],
                            #[trigger] scores@[k],
                        ) by {
                            if k < best {
                                assert(greater(scores@[best as int], scores@[k]));
                            } else if k > best {
                                assert(!greater(scores@[k], scores@[best as int]));
                                if scores@[k] != scores@[best as int] {
                                    assert(greater(scores@[best as int], scores@[k]));
                                }
                            }
                        }
                    }
                }
            }
            best = j;
        }
        j = j + 1;
    }
    Some(best)
}

/// The sample at `i`, or `fallback` when `i` is past the end.
pub fn sample_or<T: Copy>(samples: &[T], i: usize, fallback: T) -> (r: T)
    ensures
        r == if i < samples@.len() {
            samples@[i as int]
        } else {
            fallback
        },
{
    if i < samples.len() {
        samples[i]
    } else {
        fallback
    }
}

/// Side information that biases fusion and scoring.
pub struct FusionContext<T> {
    pub domain_entropy: T,
    /// A weight per coefficient index; an index it does not cover weighs one unit.
    pub resonance_profile: Option<Vec<T>>,
    pub semantic_tags: Vec<String>,
    pub coherence_map: Option<Vec<T>>,
    pub curvature_profile: Option<Vec<T>>,
    pub domain_label: Option<String>,
}

/// The weight of index `i` under an optional weight profile: the profile's
/// entry when it has one, else `unit`.
pub open spec fn weight_of<T>(profile: Option<Vec<T>>, i: nat, unit: T) -> T {
    match profile {
        Some(p) => if i < p@.len() {
            p@[i as int]
        } else {
            unit
        },
        None => unit,
    }
}

impl<T> FusionContext<T> {
    /// A context with the given entropy and nothing else.
    pub fn with_entropy(domain_entropy: T) -> (r: Self)
        ensures
            r.domain_entropy == domain_entropy,
            r.resonance_profile is None,
            r.semantic_tags@.len() == 0,
            r.coherence_map is None,
            r.curvature_profile is None,
            r.domain_label is None,
    {
        FusionContext {
            domain_entropy,
            resonance_profile: None,
            semantic_tags: Vec::new(),
            coherence_map: None,
            curvature_profile: None,
            domain_label: None,
        }
    }
}

impl<T: Copy> FusionContext<T> {
    /// The resonance weight of coefficient `i`, `unit` where the profile is
    /// absent or too short.
    pub fn resonance_weight(&self, i: usize, unit: T) -> (r: T)
        ensures
            r == weight_of(self.resonance_profile, i as nat, unit),
    {
        match &self.resonance_profile {
            Some(p) => sample_or(p.as_slice(), i, unit),
            None => unit,
        }
    }
}

impl<T: Default> Default for FusionContext<T> {
    /// A context with the sample type's default entropy and nothing else.
    fn default() -> (r: Self)
        ensures
            r.resonance_profile is None,
            r.semantic_tags@.len() == 0,
            r.coherence_map is None,
            r.curvature_profile is None,
            r.domain_label is None,
    {
        FusionContext::with_entropy(T::default())
    }
}

/// Fusing `k >= 1` decompositions of length `n` each passes the shape check,
/// and the fused decomposition that comes out holds exactly `n` coefficients:
/// fusion succeeds exactly when the strategy keeps that length.
pub proof fn lemma_fusion_keeps_length<T, C, F: WaveletFusionStrategy<T, C>>(
    ds: &[WaveletDecomposition<T>],
    context: &C,
    n: nat,
    r: Result<WaveletDecomposition<T>, FusionError>,
)
    requires
        ds@.len() > 0,
        forall|i: int| 0 <= i < ds@.len() ==> #[trigger] ds@[i].coefficients@.len() == n,
        strategy_fusion_of::<T, C, F>(ds, context, r),
    ensures
        fusion_precheck(ds@) == Ok::<nat, FusionError>(n),
        r is Ok ==> r->Ok_0.coefficients@.len() == n,
        r is Err ==> r == Err::<WaveletDecomposition<T>, FusionError>(
            FusionError::FusedShapeMismatch,
        ),
        exists|f: WaveletDecomposition<T>|
            #[trigger] call_ensures(F::fuse, (ds, context), f) && (f.coefficients@.len() == n
                ==> r == Ok::<WaveletDecomposition<T>, FusionError>(f)),
{
    assert(ds@[0].coefficients@.len() == n);
}

/// `r` is the basis of a highest-scoring entry of `scored`, the first one on
/// a tie, or `None` when there are no entries. With scores that obey the
/// laws of a partial order no entry beats the chosen one; with totally
/// ordered scores it beats every earlier entry.
pub open spec fn dominant_of<T: PartialOrd>(scored: Seq<(WaveletBasis, T)>, r: Option<WaveletBasis>) -> bool {
    &&& r is None <==> scored.len() == 0
    &&& r is Some ==> exists|i: int|
        0 <= i < scored.len() && r->Some_0 == scored[i].0 && (T::obeys_partial_cmp_spec()
            && obeys_partial_cmp_spec_properties::<T>() ==> forall|k: int|
            0 <= k < scored.len() ==> !greater(#[trigger] scored[k].1, scored[i].1)) && (
        T::obeys_partial_cmp_spec() && obeys_partial_cmp_spec_properties::<T>() && totally_ordered(
            scored.map_values(|p: (WaveletBasis, T)| p.1),
        ) ==> forall|k: int| 0 <= k < i ==> greater(scored[i].1, #[trigger] scored[k].1))
}

/// Counts that follow the bases depend on the signal's length alone: two
/// decomposition sets over the same bases and length agree, basis by basis.
pub proof fn lemma_counts_fixed_by_length<T>(
    d1: Seq<WaveletDecomposition<T>>,
    d2: Seq<WaveletDecomposition<T>>,
    n: nat,
)
    requires
        d1.len() == d2.len(),
        forall|i: int| 0 <= i < d1.len() ==> #[trigger] d1[i].basis == d2[i].basis,
        counts_follow_bases(d1, n),
        counts_follow_bases(d2, n),
    ensures
        forall|i: int|
            0 <= i < d1.len() ==> #[trigger] d1[i].coefficients@.len() == d2[i].coefficients@.len(),
{
    assert forall|i: int| 0 <= i < d1.len() implies #[trigger] d1[i].coefficients@.len()
        == d2[i].coefficients@.len() by {
        assert(d1[i].basis == d2[i].basis);
        assert(d1[i].coefficients@.len() == coefficient_count_of(&d1[i].basis, n));
        assert(d2[i].coefficients@.len() == coefficient_count_of(&d2[i].basis, n));
    }
}

/// The basis of the first entry with the highest score, or `None` when there
/// are no entries.
pub fn select_dominant<T: PartialOrd + Copy>(scored: &[(WaveletBasis, T)]) -> (r: Option<WaveletBasis>)
    ensures
        dominant_of(scored@, r),
{
    let mut scores: Vec<T> = Vec::new();
    let mut j: usize = 0;
    while j < scored.len()
        invariant
            j <= scored@.len(),
            scores@ == scored@.subrange(0, j as int).map_values(|p: (WaveletBasis, T)| p.1),
        decreases scored@.len() - j,
    {
        scores.push(scored[j].1);
        j = j + 1;
        assert(scores@ =~= scored@.subrange(0, j as int).map_values(|p: (WaveletBasis, T)| p.1));
    }
    assert(scored@.subrange(0, scored@.len() as int) =~= scored@);
    match first_max_index(scores.as_slice()) {
        Some(i) => {
            let b = scored[i].0.clone();
            proof {
                let i = i as int;
                assert(scores@[i] == scored@[i].1);
                assert forall|k: int| 0 <= k < scored@.len() implies #[trigger] scored@[k].1
                    == scores@[k] by {}
            }
            Some(b)
        },
        None => None,
    }
}

/// Every decomposition of `ds` holds as many coefficients as its basis
/// yields from `n` samples.
pub open spec fn counts_follow_bases<T>(ds: Seq<WaveletDecomposition<T>>, n: nat) -> bool {
    forall|i: int|
        0 <= i < ds.len() ==> #[trigger] ds[i].coefficients@.len() == coefficient_count_of(
            &ds[i].basis,
            n,
        )
}

/// `r` is what decomposing `signal` under `bases` may give: the
/// decompositions that the transform returned, when each holds the number of
/// coefficients its basis fixes, else `CoefficientCountMismatch`.
pub open spec fn decomposition_outcome<T, X: BasisTransform<T>>(
    transform: &X,
    bases: Seq<WaveletBasis>,
    signal: &[T],
    level: usize,
    r: Result<Vec<WaveletDecomposition<T>>, FusionError>,
) -> bool {
    exists|ds: Seq<WaveletDecomposition<T>>|
        #[trigger] decompositions_of(transform, bases, signal, level, ds) && if counts_follow_bases(
            ds,
            signal@.len(),
        ) {
            r is Ok && r->Ok_0@ == ds
        } else {
            r == Err::<Vec<WaveletDecomposition<T>>, FusionError>(
                FusionError::CoefficientCountMismatch,
            )
        }
}

/// `r` is what decomposing `signal` under `bases` and fusing the
/// decompositions with strategy `F` may give.
pub open spec fn engine_fusion_of<T, C, F: WaveletFusionStrategy<T, C>, X: BasisTransform<T>>(
    transform: &X,
    bases: Seq<WaveletBasis>,
    signal: &[T],
    context: &C,
    level: usize,
    r: Result<WaveletDecomposition<T>, FusionError>,
) -> bool {
    exists|d: Result<Vec<WaveletDecomposition<T>>, FusionError>|
        #[trigger] decomposition_outcome(transform, bases, signal, level, d) && match d {
            Err(e) => r == Err::<WaveletDecomposition<T>, FusionError>(e),
            Ok(ds) => exists|sl: &[WaveletDecomposition<T>]|
                sl@ == ds@ && #[trigger] strategy_fusion_of::<T, C, F>(sl, context, r),
        }
}

/// `scored` pairs each basis of `bases`, in order, with a score that the
/// strategy `F` may give it for `signal`.
pub open spec fn scores_of<T, C, F: WaveletFusionStrategy<T, C>>(
    bases: Seq<WaveletBasis>,
    signal: &[T],
    context: &C,
    scored: Seq<(WaveletBasis, T)>,
) -> bool {
    &&& scored.len() == bases.len()
    &&& forall|i: int|
        0 <= i < scored.len() ==> (#[trigger] scored[i]).0 == bases[i] && call_ensures(
            F::score_basis,
            (&bases[i], signal, context),
            scored[i].1,
        )
}

/// A set of bases together with the rule that fuses their decompositions and
/// the transform primitive that computes them.
pub struct WaveletEngine<F, X> {
    pub basis_set: Vec<WaveletBasis>,
    pub fusion_strategy: F,
    pub transform: X,
}

impl<F, X> WaveletEngine<F, X> {
    pub fn new(basis_set: Vec<WaveletBasis>, fusion_strategy: F, transform: X) -> (r: Self)
        ensures
            r.basis_set@ == basis_set@,
            r.fusion_strategy == fusion_strategy,
            r.transform == transform,
    {
        WaveletEngine { basis_set, fusion_strategy, transform }
    }

    /// Decomposes `signal` under every basis of the set, in the set's order,
    /// each decomposition tagged with its basis and with `level`; fails when
    /// the transform gives a basis another number of coefficients than the
    /// basis fixes for the signal's length.
    pub fn decompose_all<T>(&self, signal: &[T], level: usize) -> (r: Result<
        Vec<WaveletDecomposition<T>>,
        FusionError,
    >) where X: BasisTransform<T>,

        ensures
            decomposition_outcome(&self.transform, self.basis_set@, signal, level, r),
    {
        let n = signal.len();
        let mut out: Vec<WaveletDecomposition<T>> = Vec::new();
        let mut counts_ok = true;
        let mut i: usize = 0;
        while i < self.basis_set.len()
            invariant
                n == signal@.len(),
                i <= self.basis_set@.len(),
                out@.len() == i,
                forall|j: int|
                    0 <= j < i ==> (#[trigger] out@[j]).basis == self.basis_set@[j] && out@[j].level
                        == level && transformed_by(
                        &self.transform,
                        &self.basis_set@[j],
                        signal,
                        out@[j].coefficients,
                    ),
                counts_ok == counts_follow_bases(out@, n as nat),
            decreases self.basis_set@.len() - i,
        {
            let basis = &self.basis_set[i];
            let coefficients = self.transform.transform(basis, signal);
            if coefficients.len() != coefficient_count(basis, n) {
                counts_ok = false;
            }
            let ghost prev = out@;
            out.push(WaveletDecomposition { basis: basis.clone(), coefficients, level });
            proof {
                assert(out@.subrange(0, i as int) =~= prev);
                if counts_ok {
                    assert forall|j: int| 0 <= j < out@.len() implies #[trigger]
                        out@[j].coefficients@.len() == coefficient_count_of(
                        &out@[j].basis,
                        n as nat,
                    ) by {
                        if j < i {
                            assert(out@[j] == prev[j]);
                        }
                    }
                } else if counts_follow_bases(prev, n as nat) {
                    assert(!(out@[i as int].coefficients@.len() == coefficient_count_of(
                        &out@[i as int].basis,
                        n as nat,
                    )));
                } else {
                    let k = choose|k: int|
                        0 <= k < prev.len() && !(#[trigger] prev[k].coefficients@.len()
                            == coefficient_count_of(&prev[k].basis, n as nat));
                    assert(out@[k] == prev[k]);
                }
            }
            i = i + 1;
        }
        assert(decompositions_of(&self.transform, self.basis_set@, signal, level, out@));
        if counts_ok {
            Ok(out)
        } else {
            Err(FusionError::CoefficientCountMismatch)
        }
    }

    /// Decomposes `signal` under every basis and fuses the results with the
    /// configured strategy; fails when the basis set is empty, when the
    /// decompositions break their counts or differ in length, or when the
    /// strategy breaks the common length.
    pub fn fuse<T, C>(&self, signal: &[T], context: &C, level: usize) -> (r: Result<
        WaveletDecomposition<T>,
        FusionError,
    >) where F: WaveletFusionStrategy<T, C>, X: BasisTransform<T>,

        ensures
            self.basis_set@.len() == 0 <==> r == Err::<WaveletDecomposition<T>, FusionError>(
                FusionError::NoDecompositions,
            ),
            engine_fusion_of::<T, C, F, X>(&self.transform, self.basis_set@, signal, context, level, r),
    {
        let d = self.decompose_all(signal, level);
        match d {
            Err(e) => {
                assert(self.basis_set@.len() > 0);
                Err(e)
            },
            Ok(decompositions) => {
                let sl = decompositions.as_slice();
                let r = fuse_decompositions::<T, C, F>(sl, context);
                assert(strategy_fusion_of::<T, C, F>(sl, context, r));
                r
            },
        }
    }

    /// Scores every basis of the set for `signal`, in the set's order.
    pub fn score_bases<T, C>(&self, signal: &[T], context: &C) -> (r: Vec<(WaveletBasis, T)>) where
        F: WaveletFusionStrategy<T, C>,

        ensures
            scores_of::<T, C, F>(self.basis_set@, signal, context, r@),
    {
        let mut out: Vec<(WaveletBasis, T)> = Vec::new();
        let mut i: usize = 0;
        while i < self.basis_set.len()
            invariant
                i <= self.basis_set@.len(),
                out@.len() == i,
                forall|j: int|
                    0 <= j < i ==> (#[trigger] out@[j]).0 == self.basis_set@[j] && call_ensures(
                        F::score_basis,
                        (&self.basis_set@[j], signal, context),
                        out@[j].1,
                    ),
            decreases self.basis_set@.len() - i,
        {
            let basis = &self.basis_set[i];
            let score = F::score_basis(basis, signal, context);
            out.push((basis.clone(), score));
            i = i + 1;
        }
        out
    }
}

} // verus!
