use intel_registry::reputation::reputation;
use intel_registry::types::SourceStats;

fn stats(
    total_proofs: u64,
    total_attestations: u64,
    confidence_sum: u64,
    verified_count: u64,
    refuted_count: u64,
) -> SourceStats {
    SourceStats {
        total_proofs,
        total_attestations,
        confidence_sum,
        verified_count,
        refuted_count,
        first_proof_height: 0,
        last_proof_height: 0,
    }
}

#[test]
fn zero_proofs_score_zero() {
    assert_eq!(reputation(&stats(0, 0, 0, 0, 0)), 0);
    assert_eq!(reputation(&stats(0, 99, 9999, 99, 99)), 0);
}

#[test]
fn score_stays_in_bounds_for_arbitrary_inputs() {
    let cases = [
        stats(1, 0, 0, 0, 0),
        stats(u64::MAX, u64::MAX, u64::MAX, u64::MAX, u64::MAX),
        stats(1, u64::MAX, u64::MAX, u64::MAX, 0),
        stats(3, 0, u64::MAX, 0, u64::MAX),
        stats(u64::MAX, 1, 1, 1, 1),
        stats(7, 2, 1000, 100, 0),
        stats(2, 5, 3, 0, 2),
    ];
    for s in cases {
        let r = reputation(&s);
        assert!(r <= 100);
    }
}

#[test]
fn known_scores_are_exact() {
    // (3/5)*50 + min(240/3, 30) - 0 + min(5, 10) == 65
    assert_eq!(reputation(&stats(5, 3, 240, 3, 0)), 65);
    // everything verified: 50 + 30 - 0 + 10 == 90
    assert_eq!(reputation(&stats(10, 5, 500, 10, 0)), 90);
    // all refuted: 0 + 0 - 30 + 4 clamps to 0
    assert_eq!(reputation(&stats(4, 0, 0, 0, 4)), 0);
    // fractions combine before the floor:
    // (50*1 - 30*1)/3 + 25/2 + 3 == 6.66.. + 12.5 + 3 == 22.16.. -> 22
    assert_eq!(reputation(&stats(3, 2, 25, 1, 1)), 22);
    // one unattested proof scores just its activity bonus
    assert_eq!(reputation(&stats(1, 0, 0, 0, 0)), 1);
    // a verified-only history caps at 100
    assert_eq!(reputation(&stats(1, 1, 100, 200, 0)), 100);
}

#[test]
fn attestation_bonus_caps_at_thirty() {
    // min(10000/10, 30) == 30
    let high = reputation(&stats(1, 10, 10000, 0, 0));
    // min(300/10, 30) == 30
    let exact = reputation(&stats(1, 10, 300, 0, 0));
    assert_eq!(high, exact);
    assert_eq!(high, 31);
}
