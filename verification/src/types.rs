//! Data model of the proof and attestation registry.

use vstd::prelude::*;
use crate::hex::spec_is_hex_64;

verus! {

/// The closed set of proof kinds a commitment can be registered under.
/// The registry stores the kind; no kind-specific behaviour exists.
#[derive(Clone, Copy, PartialEq, Eq, Structural, Debug)]
pub enum ProofType {
    /// Proves location within a radius of coordinates.
    LocationProximity,
    /// Proves a timestamp lies within a range.
    TimestampRange,
    /// Proves a document contains keywords.
    DocumentContains,
    /// Proves image metadata properties.
    ImageMetadata,
    /// Multiple sources corroborate one claim.
    MultiSourceCorroboration,
    /// A verifiable credential.
    VerifiableCredential,
    /// A satellite imagery match.
    SatelliteImagery,
    /// A network membership proof.
    NetworkMembership,
    /// A financial threshold proof.
    FinancialThreshold,
    /// A generic commitment, used as the fallback kind.
    GenericCommitment,
}

/// Verification status of a proof, derived from its attestation aggregate.
#[derive(Clone, Copy, PartialEq, Eq, Structural, Debug)]
pub enum VerificationStatus {
    /// Just registered, no attestations.
    Pending,
    /// Has attestations and average confidence at least 70.
    Verified,
    /// Has attestations and average confidence below 70.
    Contested,
    /// Forced terminal state set by an explicit refute operation.
    Refuted,
}

/// Why a registry operation was rejected. A rejected call leaves the
/// registry exactly as it was.
#[derive(Clone, Copy, PartialEq, Eq, Structural, Debug)]
pub enum RegistryError {
    /// A proof with this identifier is already registered.
    DuplicateProof,
    /// A hash field is not exactly 64 hex characters, or a string field
    /// exceeds its length bound.
    InvalidFormat,
    /// No proof with this identifier exists.
    NotFound,
    /// The confidence of an attestation must lie in 1..=100.
    InvalidConfidence,
    /// An attestation note may hold at most 200 characters.
    NoteTooLong,
    /// A refutation reason may hold at most 500 characters.
    ReasonTooLong,
    /// The caller may not refute this proof.
    NotAuthorized,
}

/// A proof commitment. Only hashes are stored; the proof itself never
/// leaves the submitting client.
#[derive(Debug)]
pub struct ProofCommitment {
    /// Unique proof identifier, at most 64 characters.
    pub proof_id: String,
    /// 64-hex-character digest binding proof bytes, public inputs and source.
    pub commitment: String,
    /// Kind of proof the commitment was generated for.
    pub proof_type: ProofType,
    /// 64-hex-character privacy-preserving source identifier.
    pub source_hash: String,
    /// 64-hex-character identifier of the claim this proof supports.
    pub intel_hash: String,
    /// 64-hex-character digest of the public inputs.
    pub public_inputs_hash: String,
    /// Host height at registration; immutable afterwards.
    pub block_height: u64,
    /// Host timestamp in nanoseconds at registration; immutable afterwards.
    pub timestamp_ns: u64,
    /// Optional free-form metadata, at most 500 characters.
    pub metadata: Option<String>,
    /// Derived verification status.
    pub status: VerificationStatus,
    /// Number of live attestations; mirrors the ledger size.
    pub attestation_count: u32,
    /// Floor of the mean of all live confidences, 0 if there are none.
    pub avg_confidence: u8,
}

/// A third-party confidence assertion about one proof.
pub struct Attestation {
    /// Identity of the attestor, supplied authenticated by the host.
    pub attestor: String,
    /// Confidence in 1..=100.
    pub confidence: u8,
    /// Host height when the attestation was recorded or last replaced.
    pub block_height: u64,
    /// Optional note, at most 200 characters.
    pub note: Option<String>,
}

/// Rolling per-source counters, updated as side effects of registration,
/// first-time attestation, verification and refutation.
pub struct SourceStats {
    /// Proofs registered under this source.
    pub total_proofs: u64,
    /// First-time attestations received across this source's proofs.
    pub total_attestations: u64,
    /// Sum of the confidences of those first-time attestations.
    pub confidence_sum: u64,
    /// Times an attest call left one of this source's proofs `Verified`.
    pub verified_count: u64,
    /// Times one of this source's proofs was refuted.
    pub refuted_count: u64,
    /// Height of this source's first registered proof.
    pub first_proof_height: u64,
    /// Height of this source's most recent registered proof.
    pub last_proof_height: u64,
}

/// A proof together with its full live attestation list.
pub struct ProofWithAttestations {
    pub proof: ProofCommitment,
    pub attestations: Vec<Attestation>,
}

/// An attestation is well formed: confidence in 1..=100 and note at most
/// 200 characters.
pub open spec fn attestation_valid(a: Attestation) -> bool {
    &&& 1 <= a.confidence <= 100
    &&& (a.note matches Some(n) ==> n@.len() <= 200)
}

/// The immutable fields of a commitment are well formed: identifier at most
/// 64 characters, every hash field exactly 64 hex characters, metadata at
/// most 500 characters.
pub open spec fn commitment_fields_valid(p: ProofCommitment) -> bool {
    &&& p.proof_id@.len() <= 64
    &&& spec_is_hex_64(p.commitment@)
    &&& spec_is_hex_64(p.source_hash@)
    &&& spec_is_hex_64(p.intel_hash@)
    &&& spec_is_hex_64(p.public_inputs_hash@)
    &&& (p.metadata matches Some(m) ==> m@.len() <= 500)
}

impl Clone for Attestation {
    fn clone(&self) -> (res: Self)
        ensures
            res == *self,
    {
        let res = Attestation {
            attestor: self.attestor.clone(),
            confidence: self.confidence,
            block_height: self.block_height,
            note: self.note.clone(),
        };
        proof {
            assert(res.note == self.note);
        }
        res
    }
}

impl Clone for ProofCommitment {
    fn clone(&self) -> (res: Self)
        ensures
            res == *self,
    {
        let res = ProofCommitment {
            proof_id: self.proof_id.clone(),
            commitment: self.commitment.clone(),
            proof_type: self.proof_type,
            source_hash: self.source_hash.clone(),
            intel_hash: self.intel_hash.clone(),
            public_inputs_hash: self.public_inputs_hash.clone(),
            block_height: self.block_height,
            timestamp_ns: self.timestamp_ns,
            metadata: self.metadata.clone(),
            status: self.status,
            attestation_count: self.attestation_count,
            avg_confidence: self.avg_confidence,
        };
        proof {
            assert(res.metadata == self.metadata);
        }
        res
    }
}

impl Clone for SourceStats {
    fn clone(&self) -> (res: Self)
        ensures
            res == *self,
    {
        SourceStats {
            total_proofs: self.total_proofs,
            total_attestations: self.total_attestations,
            confidence_sum: self.confidence_sum,
            verified_count: self.verified_count,
            refuted_count: self.refuted_count,
            first_proof_height: self.first_proof_height,
            last_proof_height: self.last_proof_height,
        }
    }
}

impl Default for SourceStats {
    /// The zero-valued statistics a source starts from.
    fn default() -> (res: Self)
        ensures
            res.total_proofs == 0,
            res.total_attestations == 0,
            res.confidence_sum == 0,
            res.verified_count == 0,
            res.refuted_count == 0,
            res.first_proof_height == 0,
            res.last_proof_height == 0,
    {
        SourceStats {
            total_proofs: 0,
            total_attestations: 0,
            confidence_sum: 0,
            verified_count: 0,
            refuted_count: 0,
            first_proof_height: 0,
            last_proof_height: 0,
        }
    }
}

} // verus!
