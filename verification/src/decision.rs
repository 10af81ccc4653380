//! Decision mass functions over the frame {accept, restrict} and their
//! combination by Dempster's rule.
//!
//! A mass is a fixed-point number counted in millionths, so that a full
//! decision is a triple of non-negative masses summing to exactly
//! [`MASS_SCALE`]. The millionth granularity matches the six fractional
//! digits used when a decision is serialized into a header value.

use vstd::prelude::*;

verus! {

/// One unit of mass is a millionth of certainty; a valid decision's
/// components always sum to exactly this scale.
pub const MASS_SCALE: u64 = 1_000_000;

/// A Dempster-Shafer mass function over {accept}, {restrict} and the
/// ignorance mass {accept, restrict}, in millionths.
#[derive(Clone, Copy, PartialEq, Eq, Structural, Debug)]
pub struct Decision {
    pub accept: u64,
    pub restrict: u64,
    pub unknown: u64,
}

impl Decision {
    /// A decision is well formed when its masses sum to exactly one.
    pub open spec fn valid(self) -> bool {
        self.accept + self.restrict + self.unknown == MASS_SCALE
    }

    /// The neutral element: total ignorance.
    pub open spec fn spec_neutral() -> Decision {
        Decision { accept: 0, restrict: 0, unknown: MASS_SCALE }
    }

    /// Builds the neutral (fully ignorant) decision.
    pub fn neutral() -> (d: Decision)
        ensures
            d == Decision::spec_neutral(),
            d.valid(),
    {
        Decision { accept: 0, restrict: 0, unknown: MASS_SCALE }
    }
}

/// Dempster conflict between two pieces of evidence, scaled by
/// `MASS_SCALE * MASS_SCALE`.
pub open spec fn spec_conflict(d1: Decision, d2: Decision) -> int {
    d1.accept * d2.restrict + d1.restrict * d2.accept
}

/// Dempster's rule for two pieces of evidence. Total conflict yields the
/// neutral element; otherwise the accept and restrict masses are the
/// normalised sums of the agreeing products, rounded down, and the unknown
/// mass takes up exactly the remainder of the scale.
pub open spec fn spec_pairwise(d1: Decision, d2: Decision) -> Decision {
    let k = spec_conflict(d1, d2);
    if k == MASS_SCALE * MASS_SCALE {
        Decision::spec_neutral()
    } else {
        let den = MASS_SCALE * MASS_SCALE - k;
        let na = d1.accept * d2.accept + d1.accept * d2.unknown + d1.unknown * d2.accept;
        let nb = d1.restrict * d2.restrict + d1.restrict * d2.unknown + d1.unknown * d2.restrict;
        let a = MASS_SCALE * na / den;
        let b = MASS_SCALE * nb / den;
        Decision {
            accept: a as u64,
            restrict: b as u64,
            unknown: (MASS_SCALE - a - b) as u64,
        }
    }
}

/// The products appearing in Dempster's rule partition the full product of
/// the two mass totals: agreeing accept terms, agreeing restrict terms, the
/// doubly-unknown term, and the conflict.
proof fn lemma_product_partition(d1: Decision, d2: Decision)
    ensures
        (d1.accept + d1.restrict + d1.unknown) * (d2.accept + d2.restrict + d2.unknown)
            == (d1.accept * d2.accept + d1.accept * d2.unknown + d1.unknown * d2.accept)
                + (d1.restrict * d2.restrict + d1.restrict * d2.unknown + d1.unknown * d2.restrict)
                + d1.unknown * d2.unknown + spec_conflict(d1, d2),
{
    assert((d1.accept + d1.restrict + d1.unknown) * (d2.accept + d2.restrict + d2.unknown)
        == (d1.accept * d2.accept + d1.accept * d2.unknown + d1.unknown * d2.accept)
            + (d1.restrict * d2.restrict + d1.restrict * d2.unknown + d1.unknown * d2.restrict)
            + d1.unknown * d2.unknown + (d1.accept * d2.restrict + d1.restrict * d2.accept))
        by (nonlinear_arith);
}

/// Floor division respects addition of numerators: splitting a numerator
/// never increases the quotient total.
proof fn lemma_div_split_le(x: int, y: int, den: int)
    requires
        den > 0,
        x >= 0,
        y >= 0,
    ensures
        x / den + y / den <= (x + y) / den,
{
    vstd::arithmetic::div_mod::lemma_fundamental_div_mod(x, den);
    vstd::arithmetic::div_mod::lemma_fundamental_div_mod(y, den);
    vstd::arithmetic::div_mod::lemma_fundamental_div_mod(x + y, den);
    vstd::arithmetic::div_mod::lemma_mod_bound(x, den);
    vstd::arithmetic::div_mod::lemma_mod_bound(y, den);
    vstd::arithmetic::div_mod::lemma_mod_bound(x + y, den);
    let q1 = x / den;
    let q2 = y / den;
    let q = (x + y) / den;
    assert(den * q1 + den * q2 <= den * q + (x + y) % den) by (nonlinear_arith)
        requires
            x == den * q1 + x % den,
            y == den * q2 + y % den,
            x + y == den * q + (x + y) % den,
            x % den >= 0,
            y % den >= 0,
    ;
    assert(q1 + q2 <= q) by (nonlinear_arith)
        requires
            den > 0,
            den * q1 + den * q2 <= den * q + (x + y) % den,
            (x + y) % den < den,
    ;
}

/// A quotient of a numerator bounded by `s * den` is bounded by `s`.
proof fn lemma_div_bounded(x: int, den: int, s: int)
    requires
        den > 0,
        0 <= x <= s * den,
    ensures
        0 <= x / den <= s,
{
    assert(s * den == den * s) by (nonlinear_arith);
    vstd::arithmetic::div_mod::lemma_div_is_ordered(x, s * den, den);
    vstd::arithmetic::div_mod::lemma_div_multiples_vanish(s, den);
    vstd::arithmetic::div_mod::lemma_div_pos_is_pos(x, den);
}

/// Combining two well-formed decisions yields a well-formed decision.
pub proof fn lemma_pairwise_valid(d1: Decision, d2: Decision)
    requires
        d1.valid(),
        d2.valid(),
    ensures
        spec_pairwise(d1, d2).valid(),
{
    let s = MASS_SCALE as int;
    let k = spec_conflict(d1, d2);
    lemma_product_partition(d1, d2);
    if k != s * s {
        let den = s * s - k;
        let na = d1.accept * d2.accept + d1.accept * d2.unknown + d1.unknown * d2.accept;
        let nb = d1.restrict * d2.restrict + d1.restrict * d2.unknown
            + d1.unknown * d2.restrict;
        assert(na + nb + d1.unknown * d2.unknown + k == s * s);
        assert(d1.unknown * d2.unknown >= 0
            && d1.accept * d2.accept >= 0
            && d1.accept * d2.unknown >= 0
            && d1.unknown * d2.accept >= 0
            && d1.restrict * d2.restrict >= 0
            && d1.restrict * d2.unknown >= 0
            && d1.unknown * d2.restrict >= 0) by (nonlinear_arith)
            requires
                d1.accept >= 0,
                d1.restrict >= 0,
                d1.unknown >= 0,
                d2.accept >= 0,
                d2.restrict >= 0,
                d2.unknown >= 0,
        ;
        assert(na >= 0 && nb >= 0);
        assert(na + nb <= den);
        let a = s * na / den;
        let b = s * nb / den;
        lemma_div_split_le(s * na, s * nb, den);
        assert(s * na + s * nb == s * (na + nb)) by (nonlinear_arith);
        assert(s * (na + nb) <= s * den) by (nonlinear_arith)
            requires na + nb <= den, s >= 0,
        ;
        lemma_div_bounded(s * (na + nb), den, s);
        assert(s * na >= 0 && s * nb >= 0) by (nonlinear_arith)
            requires s >= 0, na >= 0, nb >= 0,
        ;
        vstd::arithmetic::div_mod::lemma_div_pos_is_pos(s * na, den);
        vstd::arithmetic::div_mod::lemma_div_pos_is_pos(s * nb, den);
        assert(a + b <= s);
    }
}

/// Combines two pieces of evidence by Dempster's rule.
pub fn combine_pair(d1: &Decision, d2: &Decision) -> (r: Decision)
    requires
        d1.valid(),
        d2.valid(),
    ensures
        r == spec_pairwise(*d1, *d2),
        r.valid(),
{
    proof {
        lemma_pairwise_valid(*d1, *d2);
        lemma_product_partition(*d1, *d2);
        assert(d1.accept * d2.restrict <= (MASS_SCALE as int) * (MASS_SCALE as int)
            && d1.restrict * d2.accept <= (MASS_SCALE as int) * (MASS_SCALE as int)
            && d1.accept * d2.accept >= 0
            && d1.accept * d2.unknown >= 0
            && d1.unknown * d2.accept >= 0
            && d1.restrict * d2.restrict >= 0
            && d1.restrict * d2.unknown >= 0
            && d1.unknown * d2.restrict >= 0
            && d1.unknown * d2.unknown >= 0) by (nonlinear_arith)
            requires
                0 <= d1.accept <= MASS_SCALE,
                0 <= d1.restrict <= MASS_SCALE,
                0 <= d1.unknown <= MASS_SCALE,
                0 <= d2.accept <= MASS_SCALE,
                0 <= d2.restrict <= MASS_SCALE,
                0 <= d2.unknown <= MASS_SCALE,
        ;
    }
    let k: u64 = d1.accept * d2.restrict + d1.restrict * d2.accept;
    if k == MASS_SCALE * MASS_SCALE {
        Decision::neutral()
    } else {
        let den: u64 = MASS_SCALE * MASS_SCALE - k;
        let na: u64 = d1.accept * d2.accept + d1.accept * d2.unknown + d1.unknown * d2.accept;
        let nb: u64 = d1.restrict * d2.restrict + d1.restrict * d2.unknown
            + d1.unknown * d2.restrict;
        proof {
            assert(MASS_SCALE * (na as int) <= MASS_SCALE * ((MASS_SCALE as int) * (MASS_SCALE as int))
                && MASS_SCALE * (nb as int) <= MASS_SCALE * ((MASS_SCALE as int) * (MASS_SCALE as int)))
                by (nonlinear_arith)
                requires
                    0 <= na <= (MASS_SCALE as int) * (MASS_SCALE as int),
                    0 <= nb <= (MASS_SCALE as int) * (MASS_SCALE as int),
            ;
        }
        let a: u64 = MASS_SCALE * na / den;
        let b: u64 = MASS_SCALE * nb / den;
        Decision { accept: a, restrict: b, unknown: MASS_SCALE - a - b }
    }
}

/// Dempster combination of a whole evidence list: a left fold starting from
/// the neutral element.
pub open spec fn spec_combine(ds: Seq<Decision>) -> Decision
    decreases ds.len(),
{
    if ds.len() == 0 {
        Decision::spec_neutral()
    } else {
        spec_pairwise(spec_combine(ds.drop_last()), ds.last())
    }
}

/// Combining any list of well-formed decisions yields a well-formed
/// decision: components stay within the scale and sum to exactly one.
pub proof fn lemma_combine_valid(ds: Seq<Decision>)
    requires
        forall|i: int| 0 <= i < ds.len() ==> ds[i].valid(),
    ensures
        spec_combine(ds).valid(),
        spec_combine(ds).accept <= MASS_SCALE,
        spec_combine(ds).restrict <= MASS_SCALE,
        spec_combine(ds).unknown <= MASS_SCALE,
    decreases ds.len(),
{
    if ds.len() > 0 {
        lemma_combine_valid(ds.drop_last());
        lemma_pairwise_valid(spec_combine(ds.drop_last()), ds.last());
    }
}

/// Folds an evidence list into one decision by Dempster's rule.
pub fn combine(ds: &Vec<Decision>) -> (r: Decision)
    requires
        forall|i: int| 0 <= i < ds@.len() ==> ds@[i].valid(),
    ensures
        r == spec_combine(ds@),
        r.valid(),
{
    let mut acc = Decision::neutral();
    let mut i: usize = 0;
    while i < ds.len()
        invariant
            0 <= i <= ds@.len(),
            forall|j: int| 0 <= j < ds@.len() ==> ds@[j].valid(),
            acc == spec_combine(ds@.take(i as int)),
            acc.valid(),
        decreases ds@.len() - i,
    {
        acc = combine_pair(&acc, &ds[i]);
        proof {
            assert(ds@.take(i + 1).drop_last() =~= ds@.take(i as int));
            assert(ds@.take(i + 1).last() == ds@[i as int]);
        }
        i += 1;
    }
    proof {
        assert(ds@.take(ds@.len() as int) =~= ds@);
    }
    acc
}

/// Decision thresholds, in millionths, against which a combined decision
/// is classified.
#[derive(Clone, Copy, PartialEq, Eq, Structural, Debug)]
pub struct Thresholds {
    pub trust: u64,
    pub suspicious: u64,
    pub restrict: u64,
}

impl Thresholds {
    /// The thresholds used when the configuration names none:
    /// trust 0.8, suspicious 0.6, restrict 0.8.
    pub open spec fn spec_default() -> Thresholds {
        Thresholds { trust: 800_000, suspicious: 600_000, restrict: 800_000 }
    }
}

impl Default for Thresholds {
    fn default() -> (t: Thresholds)
        ensures
            t == Thresholds::spec_default(),
    {
        Thresholds { trust: 800_000, suspicious: 600_000, restrict: 800_000 }
    }
}

/// The four-valued classification of a combined decision. Every outcome but
/// `Restricted` lets the transaction pass.
#[derive(Clone, Copy, PartialEq, Eq, Structural, Debug)]
pub enum Outcome {
    Trusted,
    Accepted,
    Suspected,
    Restricted,
}

/// Classification of a decision: a restrict mass at or above the restrict
/// threshold blocks; otherwise enough accept mass is trusted; otherwise a
/// restrict mass at or above the suspicious threshold is suspected; the
/// rest is accepted.
pub open spec fn spec_outcome(d: Decision, t: Thresholds) -> Outcome {
    if d.restrict >= t.restrict {
        Outcome::Restricted
    } else if d.accept >= t.trust {
        Outcome::Trusted
    } else if d.restrict >= t.suspicious {
        Outcome::Suspected
    } else {
        Outcome::Accepted
    }
}

/// How far an outcome leans toward blocking: Trusted is mildest,
/// Restricted harshest.
pub open spec fn severity(o: Outcome) -> int {
    match o {
        Outcome::Trusted => 0,
        Outcome::Accepted => 1,
        Outcome::Suspected => 2,
        Outcome::Restricted => 3,
    }
}

impl Decision {
    /// Classifies this decision against the given thresholds.
    pub fn outcome(&self, t: &Thresholds) -> (o: Outcome)
        ensures
            o == spec_outcome(*self, *t),
    {
        if self.restrict >= t.restrict {
            Outcome::Restricted
        } else if self.accept >= t.trust {
            Outcome::Trusted
        } else if self.restrict >= t.suspicious {
            Outcome::Suspected
        } else {
            Outcome::Accepted
        }
    }
}

/// Raising the restrict mass while holding the accept mass fixed never
/// moves the outcome toward Trusted.
pub proof fn lemma_outcome_monotone_restrict(d1: Decision, d2: Decision, t: Thresholds)
    requires
        d1.accept == d2.accept,
        d1.restrict <= d2.restrict,
    ensures
        severity(spec_outcome(d1, t)) <= severity(spec_outcome(d2, t)),
{
}

/// Raising the accept mass while holding the restrict mass fixed never
/// moves the outcome toward Restricted.
pub proof fn lemma_outcome_monotone_accept(d1: Decision, d2: Decision, t: Thresholds)
    requires
        d1.restrict == d2.restrict,
        d1.accept <= d2.accept,
    ensures
        severity(spec_outcome(d2, t)) <= severity(spec_outcome(d1, t)),
{
}

/// Normalisation of a raw mass triple: clamp each component to the scale,
/// then rescale so the components sum to exactly one; an all-zero triple
/// becomes the neutral element.
pub open spec fn spec_normalize(accept: u64, restrict: u64, unknown: u64) -> Decision {
    let a = if accept > MASS_SCALE { MASS_SCALE as int } else { accept as int };
    let b = if restrict > MASS_SCALE { MASS_SCALE as int } else { restrict as int };
    let c = if unknown > MASS_SCALE { MASS_SCALE as int } else { unknown as int };
    let sum = a + b + c;
    if sum == 0 {
        Decision::spec_neutral()
    } else {
        let na = a * MASS_SCALE / sum;
        let nb = b * MASS_SCALE / sum;
        Decision { accept: na as u64, restrict: nb as u64, unknown: (MASS_SCALE - na - nb) as u64 }
    }
}

/// Clamps and rescales a raw mass triple into a well-formed decision.
pub fn normalize(accept: u64, restrict: u64, unknown: u64) -> (d: Decision)
    ensures
        d == spec_normalize(accept, restrict, unknown),
        d.valid(),
{
    let a: u64 = if accept > MASS_SCALE { MASS_SCALE } else { accept };
    let b: u64 = if restrict > MASS_SCALE { MASS_SCALE } else { restrict };
    let c: u64 = if unknown > MASS_SCALE { MASS_SCALE } else { unknown };
    let sum: u64 = a + b + c;
    if sum == 0 {
        Decision::neutral()
    } else {
        proof {
            let s = MASS_SCALE as int;
            assert(a * s >= 0 && b * s >= 0 && a * s + b * s == (a + b) * s
                && (a + b) * s <= (sum as int) * s && (a + b) * s <= s * (sum as int)
                && a * s <= s * (sum as int) && (sum as int) * s == s * (sum as int))
                by (nonlinear_arith)
                requires 0 <= a, 0 <= b, a + b <= sum, s > 0,
            ;
            lemma_div_split_le(a * MASS_SCALE, b * MASS_SCALE, sum as int);
            lemma_div_bounded((a + b) * MASS_SCALE, sum as int, MASS_SCALE as int);
            lemma_div_bounded(a * MASS_SCALE, sum as int, MASS_SCALE as int);
            vstd::arithmetic::div_mod::lemma_div_pos_is_pos(b * MASS_SCALE, sum as int);
        }
        let na: u64 = a * MASS_SCALE / sum;
        let nb: u64 = b * MASS_SCALE / sum;
        Decision { accept: na, restrict: nb, unknown: MASS_SCALE - na - nb }
    }
}

/// Dempster combination of two pieces of evidence is commutative.
pub proof fn lemma_pairwise_commutative(d1: Decision, d2: Decision)
    ensures
        spec_pairwise(d1, d2) == spec_pairwise(d2, d1),
{
    assert(spec_conflict(d1, d2) == spec_conflict(d2, d1)) by (nonlinear_arith);
    assert(d1.accept * d2.accept + d1.accept * d2.unknown + d1.unknown * d2.accept
        == d2.accept * d1.accept + d2.accept * d1.unknown + d2.unknown * d1.accept)
        by (nonlinear_arith);
    assert(d1.restrict * d2.restrict + d1.restrict * d2.unknown + d1.unknown * d2.restrict
        == d2.restrict * d1.restrict + d2.restrict * d1.unknown + d2.unknown * d1.restrict)
        by (nonlinear_arith);
}

/// Two pieces of evidence combine to the same decision in either order:
/// the commutativity of the pairwise rule lifted to the evidence fold.
/// Rounding keeps longer folds from commuting exactly, so nothing more is
/// claimed of them.
pub proof fn lemma_combine_two_order_independent(d1: Decision, d2: Decision)
    requires
        d1.valid(),
        d2.valid(),
    ensures
        spec_combine(seq![d1, d2]) == spec_combine(seq![d2, d1]),
{
    let s12 = seq![d1, d2];
    let s21 = seq![d2, d1];
    assert(s12.drop_last() =~= seq![d1]);
    assert(s21.drop_last() =~= seq![d2]);
    assert(seq![d1].drop_last() =~= Seq::<Decision>::empty());
    assert(seq![d2].drop_last() =~= Seq::<Decision>::empty());
    lemma_neutral_identity(d1);
    lemma_neutral_identity(d2);
    assert(spec_combine(Seq::<Decision>::empty()) == Decision::spec_neutral());
    assert(spec_combine(seq![d1]) == spec_pairwise(Decision::spec_neutral(), d1));
    assert(spec_combine(seq![d2]) == spec_pairwise(Decision::spec_neutral(), d2));
    assert(spec_combine(s12) == spec_pairwise(d1, d2));
    assert(spec_combine(s21) == spec_pairwise(d2, d1));
    lemma_pairwise_commutative(d1, d2);
}

/// The neutral element is an identity of Dempster combination on
/// well-formed decisions, on either side.
pub proof fn lemma_neutral_identity(d: Decision)
    requires
        d.valid(),
    ensures
        spec_pairwise(d, Decision::spec_neutral()) == d,
        spec_pairwise(Decision::spec_neutral(), d) == d,
{
    let s = MASS_SCALE as int;
    let n = Decision::spec_neutral();
    assert(spec_conflict(d, n) == 0) by (nonlinear_arith)
        requires n.accept == 0, n.restrict == 0,
    ;
    assert(d.accept * n.accept + d.accept * n.unknown + d.unknown * n.accept == d.accept * s
        && d.restrict * n.restrict + d.restrict * n.unknown + d.unknown * n.restrict
            == d.restrict * s) by (nonlinear_arith)
        requires n.accept == 0, n.restrict == 0, n.unknown == s,
    ;
    assert(s * (d.accept * s) == d.accept * (s * s)
        && s * (d.restrict * s) == d.restrict * (s * s)) by (nonlinear_arith);
    vstd::arithmetic::div_mod::lemma_div_multiples_vanish(d.accept as int, s * s);
    vstd::arithmetic::div_mod::lemma_div_multiples_vanish(d.restrict as int, s * s);
    lemma_pairwise_commutative(d, n);
}

}
