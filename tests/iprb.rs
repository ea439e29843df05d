use rosalind::iprb::{p_dominant_phenotype, Fraction};

fn prob(p: Fraction) -> f64 {
    p.numerator as f64 / p.denominator as f64
}

#[test]
fn given_example() {
    assert!(prob(p_dominant_phenotype(2, 2, 2)) - 0.78333 <= 0.00001);
}

#[test]
fn given_example_exact() {
    assert_eq!(Fraction { numerator: 94, denominator: 120 }, p_dominant_phenotype(2, 2, 2));
}

#[test]
fn all_hom_recessive() {
    assert_eq!(0.00, prob(p_dominant_phenotype(0, 0, 2)));
}

#[test]
fn all_hom_dominant() {
    assert_eq!(1.00, prob(p_dominant_phenotype(2, 0, 0)));
}

#[test]
fn all_hetero() {
    assert_eq!(0.75, prob(p_dominant_phenotype(0, 2, 0)));
}

#[test]
fn dom_and_hetero() {
    assert_eq!(1.00, prob(p_dominant_phenotype(1, 1, 0)));
}

#[test]
fn dom_and_rec() {
    assert_eq!(1.00, prob(p_dominant_phenotype(1, 0, 1)));
}

#[test]
fn het_and_rec() {
    assert_eq!(0.50, prob(p_dominant_phenotype(0, 1, 1)));
}

#[test]
fn largest_population_fits() {
    let m = u32::MAX;
    let p = p_dominant_phenotype(m, m, m);
    let t = 3 * (m as u128);
    assert_eq!(4 * t * (t - 1), p.denominator);
    assert!(p.numerator <= p.denominator);
}
