use vstd::prelude::*;
use std::collections::HashMap;

verus! {

/// A semantic domain between which couplings are recorded.
#[derive(Debug, Clone, Copy, PartialEq, Eq, Hash, Structural)]
pub enum SemanticDomain {
    Biological,
    Quantum,
    Linguistic,
    Cognitive,
}

/// Number of semantic domains; the coupling table has one slot per ordered pair.
pub const DOMAIN_COUNT: usize = 4;

/// The position of a domain in the fixed total order used to canonicalize pairs.
pub open spec fn domain_rank(d: SemanticDomain) -> nat {
    match d {
        SemanticDomain::Biological => 0,
        SemanticDomain::Quantum => 1,
        SemanticDomain::Linguistic => 2,
        SemanticDomain::Cognitive => 3,
    }
}

/// The unordered pair `{a, b}` written with the lower-ranked domain first.
pub open spec fn canonical_pair(a: SemanticDomain, b: SemanticDomain) -> (
    SemanticDomain,
    SemanticDomain,
) {
    if domain_rank(a) <= domain_rank(b) {
        (a, b)
    } else {
        (b, a)
    }
}

/// The table slot that holds the coupling of the unordered pair `{a, b}`.
pub open spec fn pair_slot(a: SemanticDomain, b: SemanticDomain) -> nat {
    let (lo, hi) = canonical_pair(a, b);
    domain_rank(lo) * 4 + domain_rank(hi)
}

impl SemanticDomain {
    /// The rank of this domain in the canonical order.
    pub fn rank(&self) -> (r: usize)
        ensures
            r == domain_rank(*self),
    {
        match self {
            SemanticDomain::Biological => 0,
            SemanticDomain::Quantum => 1,
            SemanticDomain::Linguistic => 2,
            SemanticDomain::Cognitive => 3,
        }
    }
}

/// The slot of the unordered pair `{a, b}`: `(a, b)` and `(b, a)` share it.
pub fn coupling_slot(a: &SemanticDomain, b: &SemanticDomain) -> (r: usize)
    ensures
        r == pair_slot(*a, *b),
        r < DOMAIN_COUNT * DOMAIN_COUNT,
{
    let ra = a.rank();
    let rb = b.rank();
    if ra <= rb {
        ra * DOMAIN_COUNT + rb
    } else {
        rb * DOMAIN_COUNT + ra
    }
}

/// Two unordered pairs of domains are the same pair exactly when their slots agree.
pub proof fn lemma_slot_identifies_pair(
    a: SemanticDomain,
    b: SemanticDomain,
    x: SemanticDomain,
    y: SemanticDomain,
)
    ensures
        pair_slot(a, b) == pair_slot(x, y) <==> canonical_pair(a, b) == canonical_pair(x, y),
{
}

/// The coupling of two domains: a strength and a phase shift.
#[derive(Debug, Clone, Copy, PartialEq)]
pub struct Coupling<T> {
    pub strength: T,
    pub phase_shift: T,
}

/// A table of couplings between semantic domains.
///
/// Each unordered pair of domains owns at most one stored coupling; a pair
/// with none reads as the neutral coupling the table was created with.
pub trait EntangleMap {
    type Domain;
    type Coupling;

    fn get_coupling(&self, domain_a: &Self::Domain, domain_b: &Self::Domain) -> Self::Coupling;

    fn update_coupling(
        &mut self,
        domain_a: &Self::Domain,
        domain_b: &Self::Domain,
        coupling: Self::Coupling,
    );
}

/// The coupling table keyed by unordered pairs of [`SemanticDomain`]s: each
/// pair is stored under its slot, which `(a, b)` and `(b, a)` share.
pub struct SimpleEntangleMap<C> {
    map: HashMap<usize, C>,
    neutral: C,
}

impl<C: Copy> SimpleEntangleMap<C> {
    /// What is stored for the unordered pair `{a, b}`, if anything.
    pub closed spec fn stored(&self, a: SemanticDomain, b: SemanticDomain) -> Option<C> {
        let k = pair_slot(a, b) as usize;
        if self.map@.contains_key(k) {
            Some(self.map@[k])
        } else {
            None
        }
    }

    /// The value returned for a pair with nothing stored.
    pub closed spec fn neutral_value(&self) -> C {
        self.neutral
    }

    /// The coupling of the unordered pair `{a, b}`.
    pub open spec fn coupling(&self, a: SemanticDomain, b: SemanticDomain) -> C {
        match self.stored(a, b) {
            Some(c) => c,
            None => self.neutral_value(),
        }
    }

    /// No pair has a stored coupling.
    pub open spec fn is_fresh(&self) -> bool {
        forall|a: SemanticDomain, b: SemanticDomain| #[trigger] self.stored(a, b) is None
    }

    /// An empty table whose every pair reads as `neutral`.
    pub fn new(neutral: C) -> (r: Self)
        ensures
            r.is_fresh(),
            r.neutral_value() == neutral,
    {
        let r = SimpleEntangleMap { map: HashMap::new(), neutral };
        assert forall|a: SemanticDomain, b: SemanticDomain| #[trigger] r.stored(a, b) is None by {}
        r
    }
}

impl<C: Copy> EntangleMap for SimpleEntangleMap<C> {
    type Domain = SemanticDomain;
    type Coupling = C;

    /// The coupling stored for `{domain_a, domain_b}`, or the neutral one.
    fn get_coupling(&self, domain_a: &SemanticDomain, domain_b: &SemanticDomain) -> (r: C)
        ensures
            r == self.coupling(*domain_a, *domain_b),
    {
        let k = coupling_slot(domain_a, domain_b);
        match self.map.get(&k) {
            Some(c) => *c,
            None => self.neutral,
        }
    }

    /// Replaces whatever was stored for `{domain_a, domain_b}` by `coupling`.
    fn update_coupling(
        &mut self,
        domain_a: &SemanticDomain,
        domain_b: &SemanticDomain,
        coupling: C,
    )
        ensures
            final(self).neutral_value() == old(self).neutral_value(),
            forall|x: SemanticDomain, y: SemanticDomain| #[trigger]
                final(self).stored(x, y) == if canonical_pair(x, y) == canonical_pair(
                    *domain_a,
                    *domain_b,
                ) {
                    Some(coupling)
                } else {
                    old(self).stored(x, y)
                },
    {
        let k = coupling_slot(domain_a, domain_b);
        self.map.insert(k, coupling);
        proof {
            assert forall|x: SemanticDomain, y: SemanticDomain| #[trigger]
                final(self).stored(x, y) == if canonical_pair(x, y) == canonical_pair(
                    *domain_a,
                    *domain_b,
                ) {
                    Some(coupling)
                } else {
                    old(self).stored(x, y)
                } by {
                lemma_slot_identifies_pair(x, y, *domain_a, *domain_b);
            }
        }
    }
}

/// A table that no update has touched reads as its neutral coupling for
/// every pair of domains.
pub proof fn lemma_fresh_map_is_neutral<C: Copy>(
    m: SimpleEntangleMap<C>,
    a: SemanticDomain,
    b: SemanticDomain,
)
    requires
        m.is_fresh(),
    ensures
        m.coupling(a, b) == m.neutral_value(),
{
    assert(m.stored(a, b) is None);
}

/// A lookup does not depend on the order in which the two domains are given.
pub proof fn lemma_coupling_symmetric<C: Copy>(
    m: SimpleEntangleMap<C>,
    a: SemanticDomain,
    b: SemanticDomain,
)
    ensures
        m.coupling(a, b) == m.coupling(b, a),
{
    assert(pair_slot(a, b) == pair_slot(b, a));
}

} // verus!
