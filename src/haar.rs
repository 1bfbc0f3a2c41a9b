use vstd::prelude::*;

verus! {

/// Why a signal cannot be split into pairs, or coefficients cannot be put
/// back together.
#[derive(Debug, Clone, Copy, PartialEq, Eq, Structural)]
pub enum TransformError {
    /// The signal has an odd number of samples.
    InvalidLength,
    /// The approximation and detail halves differ in length.
    ReconstructionFailed,
}

/// The consecutive pairs `(s[2i], s[2i + 1])` of a signal.
pub open spec fn pairs_of<T>(s: Seq<T>) -> Seq<(T, T)> {
    Seq::new(s.len() / 2, |i: int| (s[2 * i], s[2 * i + 1]))
}

/// The pairs laid out one after the other, first members at even indices.
pub open spec fn interleaved<T>(p: Seq<(T, T)>) -> Seq<T> {
    Seq::new(2 * p.len(), |k: int| if k % 2 == 0 { p[k / 2].0 } else { p[k / 2].1 })
}

/// Splits a signal into its consecutive pairs; a signal of odd length has none.
pub fn sample_pairs<T: Copy>(signal: &[T]) -> (r: Result<Vec<(T, T)>, TransformError>)
    ensures
        signal@.len() % 2 == 1 <==> r == Err::<Vec<(T, T)>, TransformError>(
            TransformError::InvalidLength,
        ),
        signal@.len() % 2 == 0 ==> r is Ok,
        r is Ok ==> r->Ok_0@ == pairs_of(signal@),
{
    let n = signal.len();
    if n % 2 != 0 {
        return Err(TransformError::InvalidLength);
    }
    let mut pairs: Vec<(T, T)> = Vec::new();
    let mut i: usize = 0;
    while i < n / 2
        invariant
            n == signal@.len(),
            n % 2 == 0,
            i <= n / 2,
            pairs@.len() == i,
            forall|j: int| 0 <= j < i ==> #[trigger] pairs@[j] == (signal@[2 * j], signal@[2 * j + 1]),
        decreases n / 2 - i,
    {
        pairs.push((signal[2 * i], signal[2 * i + 1]));
        i = i + 1;
    }
    assert(pairs@ =~= pairs_of(signal@));
    Ok(pairs)
}

/// Pairs each approximation coefficient with the detail coefficient at the
/// same index; the two halves must be equally long.
pub fn zip_coefficients<T: Copy>(approximation: &[T], detail: &[T]) -> (r: Result<
    Vec<(T, T)>,
    TransformError,
>)
    ensures
        approximation@.len() != detail@.len() <==> r == Err::<Vec<(T, T)>, TransformError>(
            TransformError::ReconstructionFailed,
        ),
        approximation@.len() == detail@.len() ==> r is Ok,
        r is Ok ==> r->Ok_0@.len() == approximation@.len() && forall|i: int|
            0 <= i < approximation@.len() ==> #[trigger] r->Ok_0@[i] == (
                approximation@[i],
                detail@[i],
            ),
{
    let n = approximation.len();
    if n != detail.len() {
        return Err(TransformError::ReconstructionFailed);
    }
    let mut pairs: Vec<(T, T)> = Vec::new();
    let mut i: usize = 0;
    while i < n
        invariant
            n == approximation@.len(),
            n == detail@.len(),
            i <= n,
            pairs@.len() == i,
            forall|j: int| 0 <= j < i ==> #[trigger] pairs@[j] == (approximation@[j], detail@[j]),
        decreases n - i,
    {
        pairs.push((approximation[i], detail[i]));
        i = i + 1;
    }
    Ok(pairs)
}

/// Lays pairs out one after the other.
pub fn interleave<T: Copy>(pairs: &[(T, T)]) -> (r: Vec<T>)
    requires
        2 * pairs@.len() <= usize::MAX,
    ensures
        r@ == interleaved(pairs@),
{
    let n = pairs.len();
    let mut out: Vec<T> = Vec::new();
    let mut i: usize = 0;
    while i < n
        invariant
            n == pairs@.len(),
            i <= n,
            out@.len() == 2 * i,
            forall|k: int| 0 <= k < 2 * i ==> #[trigger] out@[k] == interleaved(pairs@)[k],
        decreases n - i,
    {
        let (a, b) = pairs[i];
        out.push(a);
        out.push(b);
        i = i + 1;
    }
    assert(out@ =~= interleaved(pairs@));
    out
}

/// Splitting an even-length signal into pairs and laying the pairs out again
/// gives back the signal.
pub proof fn lemma_pairs_round_trip<T>(s: Seq<T>)
    requires
        s.len() % 2 == 0,
    ensures
        interleaved(pairs_of(s)) == s,
{
    let r = interleaved(pairs_of(s));
    assert forall|k: int| 0 <= k < s.len() implies #[trigger] r[k] == s[k] by {
        if k % 2 == 0 {
            assert(2 * (k / 2) == k);
        } else {
            assert(2 * (k / 2) + 1 == k);
        }
    }
    assert(r =~= s);
}

} // verus!
