use vstd::prelude::*;

verus! {

/// A strategy for turning a signal into coefficients.
#[derive(Debug)]
pub enum WaveletBasis {
    /// The elementary pairwise basis.
    Haar,
    /// A moving-average basis over a window of the given order.
    Daubechies(u8),
    /// Analysis and synthesis orders.
    Biorthogonal(u8, u8),
    /// A transform chosen by name (see [`CustomTransform`]).
    Custom(String),
}

/// Equality of bases: same variant, same orders, same name.
pub open spec fn same_basis(a: &WaveletBasis, b: &WaveletBasis) -> bool {
    match (a, b) {
        (WaveletBasis::Haar, WaveletBasis::Haar) => true,
        (WaveletBasis::Daubechies(x), WaveletBasis::Daubechies(y)) => x == y,
        (WaveletBasis::Biorthogonal(x1, x2), WaveletBasis::Biorthogonal(y1, y2)) => x1 == y1 && x2
            == y2,
        (WaveletBasis::Custom(x), WaveletBasis::Custom(y)) => x@ == y@,
        _ => false,
    }
}

impl PartialEq for WaveletBasis {
    fn eq(&self, other: &WaveletBasis) -> (r: bool) {
        match (self, other) {
            (WaveletBasis::Haar, WaveletBasis::Haar) => true,
            (WaveletBasis::Daubechies(x), WaveletBasis::Daubechies(y)) => *x == *y,
            (WaveletBasis::Biorthogonal(x1, x2), WaveletBasis::Biorthogonal(y1, y2)) => *x1 == *y1
                && *x2 == *y2,
            (WaveletBasis::Custom(x), WaveletBasis::Custom(y)) => *x == *y,
            _ => false,
        }
    }
}

impl vstd::std_specs::cmp::PartialEqSpecImpl for WaveletBasis {
    open spec fn obeys_eq_spec() -> bool {
        true
    }

    open spec fn eq_spec(&self, other: &WaveletBasis) -> bool {
        same_basis(self, other)
    }
}

impl Eq for WaveletBasis {

}

impl Clone for WaveletBasis {
    fn clone(&self) -> (r: Self)
        ensures
            r == *self,
    {
        match self {
            WaveletBasis::Haar => WaveletBasis::Haar,
            WaveletBasis::Daubechies(x) => WaveletBasis::Daubechies(*x),
            WaveletBasis::Biorthogonal(a, s) => WaveletBasis::Biorthogonal(*a, *s),
            WaveletBasis::Custom(name) => WaveletBasis::Custom(name.clone()),
        }
    }
}

/// The window length of a basis order: orders below two use two samples.
pub open spec fn window_of(order: u8) -> nat {
    if order < 2 {
        2
    } else {
        order as nat
    }
}

/// `n - w`, or zero when `w` exceeds `n`.
pub open spec fn sat_sub(n: nat, w: nat) -> nat {
    if n >= w {
        (n - w) as nat
    } else {
        0
    }
}

/// The number of coefficients that `basis` produces from a signal of `n` samples.
pub open spec fn coefficient_count_of(basis: &WaveletBasis, n: nat) -> nat {
    match basis {
        WaveletBasis::Haar => n,
        WaveletBasis::Daubechies(order) => sat_sub(n, window_of(*order)),
        WaveletBasis::Biorthogonal(a, _) => sat_sub(n, window_of(*a)),
        WaveletBasis::Custom(_) => n,
    }
}

/// The window length that a basis order stands for.
pub fn window_size(order: u8) -> (r: usize)
    ensures
        r == window_of(order),
        2 <= r <= 255,
{
    if order < 2 {
        2
    } else {
        order as usize
    }
}

/// How many coefficients `basis` produces from a signal of `n` samples.
pub fn coefficient_count(basis: &WaveletBasis, n: usize) -> (r: usize)
    ensures
        r == coefficient_count_of(basis, n as nat),
{
    match basis {
        WaveletBasis::Haar => n,
        WaveletBasis::Daubechies(order) => n.saturating_sub(window_size(*order)),
        WaveletBasis::Biorthogonal(a, _) => n.saturating_sub(window_size(*a)),
        WaveletBasis::Custom(_) => n,
    }
}

/// A half-open range `start..end` of sample indices.
#[derive(Debug, Clone, Copy, PartialEq, Eq, Structural)]
pub struct Span {
    pub start: usize,
    pub end: usize,
}

/// The analysis window of coefficient `i`: `w` samples starting at `i`.
pub open spec fn analysis_span(i: nat, w: nat) -> Span {
    Span { start: i as usize, end: (i + w) as usize }
}

/// The synthesis window of coefficient `i`: `w` samples starting `w / 2`
/// before `i` (clamped at zero) and cut off at the end of the signal.
pub open spec fn synthesis_span(i: nat, w: nat, n: nat) -> Span {
    let start = sat_sub(i, w / 2);
    Span { start: start as usize, end: if start + w <= n { (start + w) as usize } else { n as usize } }
}

/// The windows averaged by the order-`order` moving-average basis over `n`
/// samples: one per coefficient, each of `window_size(order)` samples.
pub fn daubechies_spans(n: usize, order: u8) -> (r: Vec<Span>)
    ensures
        r@.len() == sat_sub(n as nat, window_of(order)),
        forall|i: int|
            0 <= i < r@.len() ==> #[trigger] r@[i] == analysis_span(i as nat, window_of(order)),
        forall|i: int| 0 <= i < r@.len() ==> r@[i].end <= n,
{
    let w = window_size(order);
    let count = n.saturating_sub(w);
    let mut spans: Vec<Span> = Vec::new();
    let mut i: usize = 0;
    while i < count
        invariant
            count == sat_sub(n as nat, w as nat),
            w == window_of(order),
            i <= count,
            spans@.len() == i,
            forall|j: int| 0 <= j < i ==> #[trigger] spans@[j] == analysis_span(j as nat, w as nat),
            forall|j: int| 0 <= j < i ==> spans@[j].end <= n,
        decreases count - i,
    {
        spans.push(Span { start: i, end: i + w });
        i = i + 1;
    }
    spans
}

/// The windows of the biorthogonal basis with analysis order `a` and
/// synthesis order `s` over `n` samples: for each coefficient, the analysis
/// window and the synthesis window whose averages it combines.
pub fn biorthogonal_spans(n: usize, a: u8, s: u8) -> (r: Vec<(Span, Span)>)
    ensures
        r@.len() == sat_sub(n as nat, window_of(a)),
        forall|i: int|
            0 <= i < r@.len() ==> #[trigger] r@[i] == (
                analysis_span(i as nat, window_of(a)),
                synthesis_span(i as nat, window_of(s), n as nat),
            ),
        forall|i: int| 0 <= i < r@.len() ==> r@[i].0.end <= n && r@[i].1.start <= r@[i].1.end <= n,
{
    let wa = window_size(a);
    let ws = window_size(s);
    let count = n.saturating_sub(wa);
    let mut spans: Vec<(Span, Span)> = Vec::new();
    let mut i: usize = 0;
    while i < count
        invariant
            count == sat_sub(n as nat, wa as nat),
            wa == window_of(a),
            ws == window_of(s),
            i <= count,
            spans@.len() == i,
            forall|j: int|
                0 <= j < i ==> #[trigger] spans@[j] == (
                    analysis_span(j as nat, wa as nat),
                    synthesis_span(j as nat, ws as nat, n as nat),
                ),
            forall|j: int|
                0 <= j < i ==> spans@[j].0.end <= n && spans@[j].1.start <= spans@[j].1.end <= n,
        decreases count - i,
    {
        let start = i.saturating_sub(ws / 2);
        let end = if ws <= n - start {
            start + ws
        } else {
            n
        };
        spans.push((Span { start: i, end: i + wa }, Span { start, end }));
        i = i + 1;
    }
    spans
}

/// The transforms that a custom basis name selects.
#[derive(Debug, Clone, Copy, PartialEq, Eq, Structural)]
pub enum CustomTransform {
    /// The coefficients are the samples.
    Identity,
    /// The coefficients are the samples in reverse order.
    Reverse,
    /// Each sample `x` becomes `x * sin(x)`.
    Pulse,
}

/// The transform named `name`; an unknown name selects the identity.
pub open spec fn custom_transform_of(name: Seq<char>) -> CustomTransform {
    if name == "reverse"@ {
        CustomTransform::Reverse
    } else if name == "pulse"@ {
        CustomTransform::Pulse
    } else {
        CustomTransform::Identity
    }
}

/// Whether two strings hold the same characters.
fn same_text(a: &str, b: &str) -> (r: bool)
    ensures
        r == (a@ == b@),
{
    let n = a.unicode_len();
    if n != b.unicode_len() {
        return false;
    }
    let mut i: usize = 0;
    while i < n
        invariant
            n == a@.len(),
            n == b@.len(),
            i <= n,
            forall|j: int| 0 <= j < i ==> a@[j] == b@[j],
        decreases n - i,
    {
        if a.get_char(i) != b.get_char(i) {
            return false;
        }
        i = i + 1;
    }
    assert(a@ =~= b@);
    true
}

impl CustomTransform {
    /// The transform that a custom basis of this name applies.
    pub fn from_name(name: &str) -> (r: CustomTransform)
        ensures
            r == custom_transform_of(name@),
    {
        if same_text(name, "reverse") {
            CustomTransform::Reverse
        } else if same_text(name, "pulse") {
            CustomTransform::Pulse
        } else {
            CustomTransform::Identity
        }
    }
}

/// The samples in reverse order.
pub fn reversed<T: Copy>(signal: &[T]) -> (r: Vec<T>)
    ensures
        r@ == signal@.reverse(),
{
    let n = signal.len();
    let mut out: Vec<T> = Vec::new();
    let mut i: usize = 0;
    while i < n
        invariant
            n == signal@.len(),
            i <= n,
            out@.len() == i,
            forall|j: int| 0 <= j < i ==> out@[j] == signal@[n - 1 - j],
        decreases n - i,
    {
        out.push(signal[n - 1 - i]);
        i = i + 1;
    }
    assert(out@ =~= signal@.reverse());
    out
}

} // verus!
