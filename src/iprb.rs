//! Mendelian inheritance: the chance of a dominant phenotype in the offspring
//! of two organisms drawn from a population, as an exact fraction.
use vstd::prelude::*;

verus! {

/// An exact probability `numerator / denominator`.
#[derive(Debug, Clone, Copy, PartialEq, Eq)]
pub struct Fraction {
    pub numerator: u128,
    pub denominator: u128,
}

/// The probability that two organisms drawn at random from a population of
/// `d` homozygous dominant, `h` heterozygous and `r` homozygous recessive ones
/// have an offspring with the dominant phenotype, multiplied by `4 t (t - 1)`
/// where `t = d + h + r`:
/// `d/t + h/t (1/2 + 1/2 (d/(t-1) + 1/2 (h-1)/(t-1))) + r/t (d/(t-1) + 1/2 h/(t-1))`.
pub open spec fn dominant_numerator(d: int, h: int, r: int) -> int {
    let t = d + h + r;
    4 * d * (t - 1) + 2 * h * (t - 1) + 2 * h * d + h * (h - 1) + 4 * r * d + 2 * r * h
}

/// The common denominator `4 t (t - 1)` of that probability.
pub open spec fn dominant_denominator(d: int, h: int, r: int) -> int {
    let t = d + h + r;
    4 * t * (t - 1)
}

proof fn lemma_small_product(x: int, y: int)
    requires
        0 <= x <= 0x10_0000_0000,
        0 <= y <= 0x10_0000_0000,
    ensures
        0 <= x * y <= 0x100_0000_0000_0000_0000,
{
    assert(0 <= x * y <= 0x10_0000_0000 * 0x10_0000_0000int) by (nonlinear_arith)
        requires
            0 <= x <= 0x10_0000_0000,
            0 <= y <= 0x10_0000_0000,
    ;
}

/// The probability of the dominant phenotype in the offspring of two
/// organisms drawn from the population, as an exact fraction.
pub fn p_dominant_phenotype(homozyg_dom: u32, heterozyg: u32, homozyg_rec: u32) -> (p: Fraction)
    requires
        homozyg_dom + heterozyg + homozyg_rec >= 2,
    ensures
        p.numerator == dominant_numerator(homozyg_dom as int, heterozyg as int, homozyg_rec as int),
        p.denominator == dominant_denominator(homozyg_dom as int, heterozyg as int, homozyg_rec as int),
{
    let d = homozyg_dom as u128;
    let h = heterozyg as u128;
    let r = homozyg_rec as u128;
    let t = d + h + r;
    let t1 = t - 1;
    let h1: u128 = if h > 0 { h - 1 } else { 0 };
    proof {
        lemma_small_product(4 * d, t1 as int);
        lemma_small_product(2 * h, t1 as int);
        lemma_small_product(2 * h, d as int);
        lemma_small_product(h as int, h1 as int);
        lemma_small_product(4 * r, d as int);
        lemma_small_product(2 * r, h as int);
        lemma_small_product(4 * t, t1 as int);
        if h == 0 {
            assert(h * (h - 1) == 0);
            assert(h * h1 == 0);
        } else {
            assert(h * (h - 1) == h * h1);
        }
    }
    let numerator = 4 * d * t1 + 2 * h * t1 + 2 * h * d + h * h1 + 4 * r * d + 2 * r * h;
    Fraction { numerator, denominator: 4 * t * t1 }
}

} // verus!
