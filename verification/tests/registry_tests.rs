use intel_registry::registry::IntelRegistry;
use intel_registry::types::{ProofType, RegistryError, VerificationStatus};

fn test_commitment() -> String {
    "a".repeat(64)
}

fn new_registry() -> IntelRegistry {
    IntelRegistry::new("owner.near".to_string())
}

fn register_default(contract: &mut IntelRegistry, proof_id: &str) {
    contract
        .register_proof(
            100,
            1_000_000_000,
            proof_id.to_string(),
            test_commitment(),
            ProofType::LocationProximity,
            test_commitment(),
            test_commitment(),
            test_commitment(),
            None,
        )
        .unwrap();
}

#[test]
fn test_register_proof() {
    let mut contract = new_registry();

    let proof = contract
        .register_proof(
            100,
            1_000_000_000,
            "proof-001".to_string(),
            test_commitment(),
            ProofType::LocationProximity,
            test_commitment(),
            test_commitment(),
            test_commitment(),
            Some("{\"radius_km\": 5}".to_string()),
        )
        .unwrap();

    assert_eq!(proof.proof_id, "proof-001");
    assert_eq!(proof.status, VerificationStatus::Pending);
    assert_eq!(contract.get_stats().0, 1);
}

#[test]
fn test_attestation() {
    let mut contract = new_registry();
    register_default(&mut contract, "proof-001");

    contract
        .attest(
            "attestor.near".to_string(),
            100,
            "proof-001".to_string(),
            85,
            Some("Verified via satellite".to_string()),
        )
        .unwrap();

    let proof = contract.get_proof("proof-001".to_string()).unwrap();
    assert_eq!(proof.attestation_count, 1);
    assert_eq!(proof.avg_confidence, 85);
    assert_eq!(proof.status, VerificationStatus::Verified);
}

#[test]
fn test_source_reputation() {
    let mut contract = new_registry();
    let source_hash = test_commitment();

    for i in 0..5 {
        contract
            .register_proof(
                100,
                1_000_000_000,
                format!("proof-{:03}", i),
                test_commitment(),
                ProofType::TimestampRange,
                source_hash.clone(),
                format!("{:064}", i),
                test_commitment(),
                None,
            )
            .unwrap();
    }

    for i in 0..3 {
        contract
            .attest("attestor.near".to_string(), 100, format!("proof-{:03}", i), 80, None)
            .unwrap();
    }

    let stats = contract.get_source_stats(source_hash.clone()).unwrap();
    assert_eq!(stats.total_proofs, 5);
    assert_eq!(stats.total_attestations, 3);

    let reputation = contract.get_source_reputation(source_hash);
    assert!(reputation > 50);
}

#[test]
fn duplicate_proof_id_is_rejected_and_state_kept() {
    let mut contract = new_registry();
    register_default(&mut contract, "proof-001");

    let second = contract.register_proof(
        101,
        2_000_000_000,
        "proof-001".to_string(),
        "b".repeat(64),
        ProofType::DocumentContains,
        "c".repeat(64),
        "d".repeat(64),
        "e".repeat(64),
        None,
    );
    assert_eq!(second.unwrap_err(), RegistryError::DuplicateProof);
    assert_eq!(contract.get_stats().0, 1);
    let stored = contract.get_proof("proof-001".to_string()).unwrap();
    assert_eq!(stored.commitment, test_commitment());
    assert_eq!(stored.block_height, 100);
}

#[test]
fn malformed_hashes_are_rejected_and_nothing_persists() {
    let mut contract = new_registry();

    // wrong length
    let r = contract.register_proof(
        100,
        1,
        "p1".to_string(),
        "a".repeat(63),
        ProofType::GenericCommitment,
        test_commitment(),
        test_commitment(),
        test_commitment(),
        None,
    );
    assert_eq!(r.unwrap_err(), RegistryError::InvalidFormat);

    // wrong character set
    let r = contract.register_proof(
        100,
        1,
        "p1".to_string(),
        test_commitment(),
        ProofType::GenericCommitment,
        "z".repeat(64),
        test_commitment(),
        test_commitment(),
        None,
    );
    assert_eq!(r.unwrap_err(), RegistryError::InvalidFormat);

    // over-long identifier
    let r = contract.register_proof(
        100,
        1,
        "p".repeat(65),
        test_commitment(),
        ProofType::GenericCommitment,
        test_commitment(),
        test_commitment(),
        test_commitment(),
        None,
    );
    assert_eq!(r.unwrap_err(), RegistryError::InvalidFormat);

    // over-long metadata
    let r = contract.register_proof(
        100,
        1,
        "p1".to_string(),
        test_commitment(),
        ProofType::GenericCommitment,
        test_commitment(),
        test_commitment(),
        test_commitment(),
        Some("m".repeat(501)),
    );
    assert_eq!(r.unwrap_err(), RegistryError::InvalidFormat);

    assert_eq!(contract.get_stats().0, 0);
    assert!(contract.get_proof("p1".to_string()).is_none());
}

#[test]
fn average_is_floor_of_live_confidences() {
    let mut contract = new_registry();
    register_default(&mut contract, "proof-001");

    contract
        .attest("a.near".to_string(), 100, "proof-001".to_string(), 50, None)
        .unwrap();
    contract
        .attest("b.near".to_string(), 101, "proof-001".to_string(), 51, None)
        .unwrap();

    let proof = contract.get_proof("proof-001".to_string()).unwrap();
    assert_eq!(proof.attestation_count, 2);
    // floor((50 + 51) / 2) == 50
    assert_eq!(proof.avg_confidence, 50);
    assert_eq!(proof.status, VerificationStatus::Contested);
}

#[test]
fn repeat_attestor_replaces_in_place() {
    let mut contract = new_registry();
    register_default(&mut contract, "proof-001");

    contract
        .attest("a.near".to_string(), 100, "proof-001".to_string(), 40, None)
        .unwrap();
    let first = contract.get_proof("proof-001".to_string()).unwrap();
    assert_eq!(first.attestation_count, 1);
    assert_eq!(first.avg_confidence, 40);
    assert_eq!(first.status, VerificationStatus::Contested);

    contract
        .attest("a.near".to_string(), 105, "proof-001".to_string(), 90, None)
        .unwrap();
    let second = contract.get_proof("proof-001".to_string()).unwrap();
    assert_eq!(second.attestation_count, 1);
    assert_eq!(second.avg_confidence, 90);
    assert_eq!(second.status, VerificationStatus::Verified);

    let pwa = contract
        .get_proof_with_attestations("proof-001".to_string())
        .unwrap();
    assert_eq!(pwa.attestations.len(), 1);
    assert_eq!(pwa.attestations[0].confidence, 90);
    assert_eq!(pwa.attestations[0].block_height, 105);
}

#[test]
fn three_attestors_at_eighty_verify_a_fresh_proof() {
    let mut contract = new_registry();
    register_default(&mut contract, "proof-001");

    for who in ["a.near", "b.near", "c.near"] {
        contract
            .attest(who.to_string(), 100, "proof-001".to_string(), 80, None)
            .unwrap();
    }

    let proof = contract.get_proof("proof-001".to_string()).unwrap();
    assert_eq!(proof.attestation_count, 3);
    assert_eq!(proof.avg_confidence, 80);
    assert_eq!(proof.status, VerificationStatus::Verified);
}

#[test]
fn attest_input_errors() {
    let mut contract = new_registry();
    register_default(&mut contract, "proof-001");

    let r = contract.attest("a.near".to_string(), 100, "proof-001".to_string(), 0, None);
    assert_eq!(r.unwrap_err(), RegistryError::InvalidConfidence);
    let r = contract.attest("a.near".to_string(), 100, "proof-001".to_string(), 101, None);
    assert_eq!(r.unwrap_err(), RegistryError::InvalidConfidence);
    let r = contract.attest(
        "a.near".to_string(),
        100,
        "proof-001".to_string(),
        50,
        Some("n".repeat(201)),
    );
    assert_eq!(r.unwrap_err(), RegistryError::NoteTooLong);
    let r = contract.attest("a.near".to_string(), 100, "missing".to_string(), 50, None);
    assert_eq!(r.unwrap_err(), RegistryError::NotFound);

    let proof = contract.get_proof("proof-001".to_string()).unwrap();
    assert_eq!(proof.attestation_count, 0);
}

#[test]
fn refute_authorization() {
    let mut contract = new_registry();
    register_default(&mut contract, "proof-001");
    register_default(&mut contract, "proof-002");

    // the owner may refute regardless of attestation state
    contract
        .refute_proof("owner.near".to_string(), "proof-001".to_string(), "fabricated".to_string())
        .unwrap();
    let proof = contract.get_proof("proof-001".to_string()).unwrap();
    assert_eq!(proof.status, VerificationStatus::Refuted);

    // a non-owner with fewer than 3 attestations may not
    let r = contract.refute_proof(
        "bystander.near".to_string(),
        "proof-002".to_string(),
        "doubt".to_string(),
    );
    assert_eq!(r.unwrap_err(), RegistryError::NotAuthorized);

    // a non-owner may once 3 attestations average below 30
    for who in ["a.near", "b.near", "c.near"] {
        contract
            .attest(who.to_string(), 100, "proof-002".to_string(), 10, None)
            .unwrap();
    }
    contract
        .refute_proof("bystander.near".to_string(), "proof-002".to_string(), "doubt".to_string())
        .unwrap();
    let proof = contract.get_proof("proof-002".to_string()).unwrap();
    assert_eq!(proof.status, VerificationStatus::Refuted);

    // but not while the average confidence stays at or above 30
    register_default(&mut contract, "proof-003");
    for who in ["a.near", "b.near", "c.near"] {
        contract
            .attest(who.to_string(), 100, "proof-003".to_string(), 30, None)
            .unwrap();
    }
    let r = contract.refute_proof(
        "bystander.near".to_string(),
        "proof-003".to_string(),
        "doubt".to_string(),
    );
    assert_eq!(r.unwrap_err(), RegistryError::NotAuthorized);
}

#[test]
fn refute_input_errors() {
    let mut contract = new_registry();
    register_default(&mut contract, "proof-001");

    let r = contract.refute_proof("owner.near".to_string(), "missing".to_string(), "x".to_string());
    assert_eq!(r.unwrap_err(), RegistryError::NotFound);

    let r = contract.refute_proof(
        "owner.near".to_string(),
        "proof-001".to_string(),
        "r".repeat(501),
    );
    assert_eq!(r.unwrap_err(), RegistryError::ReasonTooLong);
    let proof = contract.get_proof("proof-001".to_string()).unwrap();
    assert_eq!(proof.status, VerificationStatus::Pending);
}

#[test]
fn end_to_end_source_statistics() {
    let mut contract = new_registry();
    let source_hash = "5".repeat(64);

    for i in 0..5 {
        contract
            .register_proof(
                100 + i,
                1_000 + i,
                format!("proof-{:03}", i),
                test_commitment(),
                ProofType::MultiSourceCorroboration,
                source_hash.clone(),
                format!("{:064}", i),
                test_commitment(),
                None,
            )
            .unwrap();
    }
    let attestors = ["x.near", "y.near", "z.near"];
    for i in 0..3 {
        contract
            .attest(
                attestors[i].to_string(),
                200,
                format!("proof-{:03}", i),
                80,
                None,
            )
            .unwrap();
    }

    let stats = contract.get_source_stats(source_hash.clone()).unwrap();
    assert_eq!(stats.total_proofs, 5);
    assert_eq!(stats.total_attestations, 3);
    assert_eq!(stats.confidence_sum, 240);
    assert_eq!(stats.verified_count, 3);
    assert_eq!(stats.refuted_count, 0);
    assert_eq!(stats.first_proof_height, 100);
    assert_eq!(stats.last_proof_height, 104);

    // (3/5)*50 + min(240/3, 30) - 0 + min(5, 10) == 30 + 30 + 5
    assert_eq!(contract.get_source_reputation(source_hash), 65);
}

#[test]
fn verify_commitment_checks_exact_equality() {
    let mut contract = new_registry();
    register_default(&mut contract, "proof-001");

    assert!(contract.verify_commitment("proof-001".to_string(), test_commitment()));
    assert!(!contract.verify_commitment("proof-001".to_string(), "b".repeat(64)));
    assert!(!contract.verify_commitment("missing".to_string(), test_commitment()));
}

#[test]
fn intel_index_links_proofs_in_order() {
    let mut contract = new_registry();
    let intel = "0".repeat(64);
    for (i, id) in ["p-a", "p-b"].iter().enumerate() {
        contract
            .register_proof(
                100 + i as u64,
                1,
                id.to_string(),
                test_commitment(),
                ProofType::SatelliteImagery,
                test_commitment(),
                intel.clone(),
                test_commitment(),
                None,
            )
            .unwrap();
    }
    let proofs = contract.get_intel_proofs(intel);
    assert_eq!(proofs.len(), 2);
    assert_eq!(proofs[0].proof_id, "p-a");
    assert_eq!(proofs[1].proof_id, "p-b");
    assert!(contract.get_intel_proofs("1".repeat(64)).is_empty());
}

#[test]
fn recent_proofs_sorted_by_descending_height() {
    let mut contract = new_registry();
    let heights = [5u64, 10, 7];
    for (i, h) in heights.iter().enumerate() {
        contract
            .register_proof(
                *h,
                1,
                format!("p-{}", i),
                test_commitment(),
                ProofType::NetworkMembership,
                test_commitment(),
                format!("{:064}", i),
                test_commitment(),
                None,
            )
            .unwrap();
    }
    let all = contract.get_recent_proofs(10);
    assert_eq!(all.len(), 3);
    assert_eq!(all[0].block_height, 10);
    assert_eq!(all[1].block_height, 7);
    assert_eq!(all[2].block_height, 5);

    let two = contract.get_recent_proofs(2);
    assert_eq!(two.len(), 2);
    assert_eq!(two[0].block_height, 10);
    assert_eq!(two[1].block_height, 7);
}

#[test]
fn attest_after_refute_reapplies_the_rule() {
    let mut contract = new_registry();
    register_default(&mut contract, "proof-001");
    contract
        .refute_proof("owner.near".to_string(), "proof-001".to_string(), "bad".to_string())
        .unwrap();

    contract
        .attest("a.near".to_string(), 100, "proof-001".to_string(), 95, None)
        .unwrap();
    let proof = contract.get_proof("proof-001".to_string()).unwrap();
    // the status rule runs unguarded, pulling the proof out of Refuted
    assert_eq!(proof.status, VerificationStatus::Verified);
}

#[test]
fn get_owner_returns_the_owner() {
    let contract = new_registry();
    assert_eq!(contract.get_owner(), "owner.near");
}
