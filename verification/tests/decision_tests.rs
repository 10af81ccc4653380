use bulwark_ext_filter::decision::{
    combine, combine_pair, normalize, Decision, Outcome, Thresholds, MASS_SCALE,
};

fn d(accept: u64, restrict: u64, unknown: u64) -> Decision {
    Decision { accept, restrict, unknown }
}

#[test]
fn neutral_is_all_unknown() {
    let n = Decision::neutral();
    assert_eq!(n, d(0, 0, MASS_SCALE));
}

#[test]
fn normalize_clamps_oversized_components() {
    assert_eq!(normalize(2_000_000, 0, 0), d(MASS_SCALE, 0, 0));
}

#[test]
fn normalize_all_zero_is_neutral() {
    assert_eq!(normalize(0, 0, 0), d(0, 0, MASS_SCALE));
}

#[test]
fn normalize_rescales_to_unit_sum() {
    assert_eq!(normalize(500_000, 500_000, 0), d(500_000, 500_000, 0));
    assert_eq!(normalize(1, 1, 0), d(500_000, 500_000, 0));
    let r = normalize(300_000, 300_000, 300_000);
    assert_eq!(r.accept + r.restrict + r.unknown, MASS_SCALE);
}

#[test]
fn total_conflict_combines_to_neutral() {
    let r = combine_pair(&d(MASS_SCALE, 0, 0), &d(0, MASS_SCALE, 0));
    assert_eq!(r, d(0, 0, MASS_SCALE));
}

#[test]
fn empty_evidence_combines_to_neutral() {
    let r = combine(&Vec::new());
    assert_eq!(r, d(0, 0, MASS_SCALE));
}

#[test]
fn single_evidence_is_kept() {
    let r = combine(&vec![d(700_000, 100_000, 200_000)]);
    assert_eq!(r, d(700_000, 100_000, 200_000));
}

#[test]
fn pairwise_combination_exact_value() {
    // conflict 0.28; accept products 0.52, restrict products 0.16
    let r = combine_pair(&d(600_000, 200_000, 200_000), &d(500_000, 300_000, 200_000));
    assert_eq!(r, d(722_222, 222_222, 55_556));
}

#[test]
fn combined_mass_sums_to_one() {
    let evidence = vec![
        d(600_000, 200_000, 200_000),
        d(500_000, 300_000, 200_000),
        d(0, 0, MASS_SCALE),
        d(100_000, 850_000, 50_000),
    ];
    let r = combine(&evidence);
    assert_eq!(r.accept + r.restrict + r.unknown, MASS_SCALE);
    assert!(r.accept <= MASS_SCALE && r.restrict <= MASS_SCALE && r.unknown <= MASS_SCALE);
}

#[test]
fn combination_is_commutative() {
    let a = d(600_000, 200_000, 200_000);
    let b = d(100_000, 700_000, 200_000);
    assert_eq!(combine_pair(&a, &b), combine_pair(&b, &a));
    assert_eq!(combine(&vec![a, b]), combine(&vec![b, a]));
}

#[test]
fn neutral_is_identity() {
    let a = d(123_456, 500_000, 376_544);
    let n = Decision::neutral();
    assert_eq!(combine_pair(&a, &n), a);
    assert_eq!(combine_pair(&n, &a), a);
}

#[test]
fn default_thresholds() {
    let t = Thresholds::default();
    assert_eq!(t.trust, 800_000);
    assert_eq!(t.suspicious, 600_000);
    assert_eq!(t.restrict, 800_000);
}

#[test]
fn outcome_classification() {
    let t = Thresholds::default();
    assert_eq!(d(MASS_SCALE, 0, 0).outcome(&t), Outcome::Trusted);
    assert_eq!(d(0, MASS_SCALE, 0).outcome(&t), Outcome::Restricted);
    assert_eq!(d(0, 0, MASS_SCALE).outcome(&t), Outcome::Accepted);
    assert_eq!(d(0, 700_000, 300_000).outcome(&t), Outcome::Suspected);
    assert_eq!(d(800_000, 100_000, 100_000).outcome(&t), Outcome::Trusted);
}

#[test]
fn outcome_monotone_in_restrict() {
    // raising restrict mass, accept held fixed, never moves toward Trusted
    let t = Thresholds::default();
    let low = d(100_000, 500_000, 400_000).outcome(&t);
    let high = d(100_000, 900_000, 0).outcome(&t);
    assert_eq!(low, Outcome::Accepted);
    assert_eq!(high, Outcome::Restricted);
}

#[test]
fn outcome_monotone_in_accept() {
    // raising accept mass, restrict held fixed, never moves toward Restricted
    let t = Thresholds::default();
    let low = d(100_000, 600_000, 300_000).outcome(&t);
    let high = d(400_000, 600_000, 0).outcome(&t);
    assert_eq!(low, Outcome::Suspected);
    assert_eq!(high, Outcome::Suspected);
    assert_eq!(d(900_000, 50_000, 50_000).outcome(&t), Outcome::Trusted);
}
