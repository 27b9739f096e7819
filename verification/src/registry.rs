//! The proof and attestation registry engine.
//!
//! One `IntelRegistry` value holds the whole durable state: the proof
//! store, the per-proof attestation ledgers, the intel index and the
//! per-source statistics. Each mutating operation either fully commits or
//! fully aborts with an error and leaves the state untouched. Caller
//! identity and the host clock are passed in as explicit parameters; the
//! registry never reads an ambient environment.

use vstd::prelude::*;
use crate::hex::{is_hex_64, spec_is_hex_64};
use crate::types::{
    Attestation, ProofCommitment, ProofType, ProofWithAttestations, RegistryError, SourceStats,
    VerificationStatus, attestation_valid, commitment_fields_valid,
};

verus! {

/// A stored proof together with its attestation ledger.
pub struct ProofEntry {
    pub proof: ProofCommitment,
    pub attestations: Vec<Attestation>,
}

/// The ordered list of proof identifiers that reference one intel claim.
pub struct IntelEntry {
    pub intel_hash: String,
    pub proof_ids: Vec<String>,
}

/// The rolling counters of one source.
pub struct StatsEntry {
    pub source_hash: String,
    pub stats: SourceStats,
}

/// The registry state: proof store, intel index, source statistics and
/// global counters.
pub struct IntelRegistry {
    /// All proofs in registration order, identified by `proof.proof_id`.
    pub proofs: Vec<ProofEntry>,
    /// Intel hash to the proofs that reference it, in registration order.
    pub intel_proofs: Vec<IntelEntry>,
    /// Source hash to that source's rolling counters.
    pub source_stats: Vec<StatsEntry>,
    /// Number of proofs ever registered.
    pub total_proofs: u64,
    /// Number of first-time attestations ever recorded.
    pub total_attestations: u64,
    /// The registry owner, who may always refute.
    pub owner: String,
}

// ---------------------------------------------------------------------------
// Aggregation model
// ---------------------------------------------------------------------------

/// Sum of the confidences of a ledger.
pub open spec fn sum_confidences(s: Seq<Attestation>) -> int
    decreases s.len(),
{
    if s.len() == 0 {
        0
    } else {
        sum_confidences(s.drop_last()) + s.last().confidence
    }
}

/// Floor of the mean confidence of a ledger; 0 if the ledger is empty.
pub open spec fn spec_avg_confidence(s: Seq<Attestation>) -> int {
    if s.len() == 0 {
        0
    } else {
        sum_confidences(s) / (s.len() as int)
    }
}

/// The attestation-driven status rule: no attestations leaves a proof
/// `Pending`; average confidence of at least 70 makes it `Verified`;
/// anything else makes it `Contested`. `Refuted` is never produced here.
pub open spec fn spec_status_rule(count: int, avg: int) -> VerificationStatus {
    if count == 0 {
        VerificationStatus::Pending
    } else if avg >= 70 {
        VerificationStatus::Verified
    } else {
        VerificationStatus::Contested
    }
}

proof fn lemma_sum_confidences_bounds(s: Seq<Attestation>)
    requires
        forall|i: int| 0 <= i < s.len() ==> attestation_valid(#[trigger] s[i]),
    ensures
        s.len() <= sum_confidences(s) <= 100 * s.len(),
    decreases s.len(),
{
    if s.len() > 0 {
        lemma_sum_confidences_bounds(s.drop_last());
    }
}

/// The floor of the mean of values in 1..=100 again lies in 1..=100 (and in
/// 0..=100 for an empty ledger).
pub proof fn lemma_avg_confidence_in_range(s: Seq<Attestation>)
    requires
        forall|i: int| 0 <= i < s.len() ==> attestation_valid(#[trigger] s[i]),
    ensures
        0 <= spec_avg_confidence(s) <= 100,
        s.len() > 0 ==> 1 <= spec_avg_confidence(s),
{
    if s.len() > 0 {
        lemma_sum_confidences_bounds(s);
        let n = s.len() as int;
        let sum = sum_confidences(s);
        assert(sum / n >= 1 && sum / n <= 100) by (nonlinear_arith)
            requires
                n >= 1,
                n <= sum,
                sum <= 100 * n,
        ;
    }
}

// ---------------------------------------------------------------------------
// Lookup model
// ---------------------------------------------------------------------------

/// Some attestation in `s` was made by `who`.
pub open spec fn has_attestor(s: Seq<Attestation>, who: Seq<char>) -> bool {
    exists|i: int| 0 <= i < s.len() && (#[trigger] s[i].attestor@) == who
}

/// No two attestations in `s` share an attestor.
pub open spec fn attestors_unique(s: Seq<Attestation>) -> bool {
    forall|i: int, j: int|
        0 <= i < j < s.len() ==> (#[trigger] s[i].attestor@) != (#[trigger] s[j].attestor@)
}

/// Some proof in `s` carries the identifier `id`.
pub open spec fn has_proof(s: Seq<ProofEntry>, id: Seq<char>) -> bool {
    exists|i: int| 0 <= i < s.len() && (#[trigger] s[i].proof.proof_id@) == id
}

/// The index of the proof with identifier `id`; meaningful only under
/// `has_proof` and identifier uniqueness.
pub open spec fn proof_index(s: Seq<ProofEntry>, id: Seq<char>) -> int {
    choose|i: int| 0 <= i < s.len() && (#[trigger] s[i].proof.proof_id@) == id
}

/// No two proofs in `s` share an identifier.
pub open spec fn proof_ids_unique(s: Seq<ProofEntry>) -> bool {
    forall|i: int, j: int|
        0 <= i < j < s.len() ==> (#[trigger] s[i].proof.proof_id@) != (#[trigger] s[j].proof.proof_id@)
}

/// Some intel entry in `s` is keyed by `key`.
pub open spec fn has_intel(s: Seq<IntelEntry>, key: Seq<char>) -> bool {
    exists|i: int| 0 <= i < s.len() && (#[trigger] s[i].intel_hash@) == key
}

/// No two intel entries in `s` share a key.
pub open spec fn intel_keys_unique(s: Seq<IntelEntry>) -> bool {
    forall|i: int, j: int|
        0 <= i < j < s.len() ==> (#[trigger] s[i].intel_hash@) != (#[trigger] s[j].intel_hash@)
}

/// Some stats entry in `s` is keyed by `key`.
pub open spec fn has_stats(s: Seq<StatsEntry>, key: Seq<char>) -> bool {
    exists|i: int| 0 <= i < s.len() && (#[trigger] s[i].source_hash@) == key
}

/// No two stats entries in `s` share a key.
pub open spec fn stats_keys_unique(s: Seq<StatsEntry>) -> bool {
    forall|i: int, j: int|
        0 <= i < j < s.len() ==> (#[trigger] s[i].source_hash@) != (#[trigger] s[j].source_hash@)
}

/// Some identifier in `ids` reads `id`.
pub open spec fn contains_id(ids: Seq<String>, id: Seq<char>) -> bool {
    exists|k: int| 0 <= k < ids.len() && (#[trigger] ids[k]@) == id
}

// ---------------------------------------------------------------------------
// Well-formedness
// ---------------------------------------------------------------------------

/// One stored proof is internally consistent: valid immutable fields, a
/// valid ledger with one attestation per attestor, and aggregate fields
/// that mirror the ledger. The status is the one the attestation rule
/// derives, unless a refutation forced `Refuted`.
pub open spec fn entry_wf(e: ProofEntry) -> bool {
    &&& commitment_fields_valid(e.proof)
    &&& forall|i: int|
        0 <= i < e.attestations@.len() ==> attestation_valid(#[trigger] e.attestations@[i])
    &&& attestors_unique(e.attestations@)
    &&& e.proof.attestation_count == e.attestations@.len()
    &&& e.proof.avg_confidence == spec_avg_confidence(e.attestations@)
    &&& (e.proof.status == VerificationStatus::Refuted || e.proof.status == spec_status_rule(
        e.attestations@.len() as int,
        e.proof.avg_confidence as int,
    ))
}

/// An identifier listed in the intel index resolves to a stored proof
/// that references that same intel hash.
pub open spec fn listed_id_resolves(proofs: Seq<ProofEntry>, id: Seq<char>, key: Seq<char>) -> bool {
    exists|p: int|
        0 <= p < proofs.len() && (#[trigger] proofs[p].proof.proof_id@) == id
            && proofs[p].proof.intel_hash@ == key
}

impl IntelRegistry {
    /// Every stored proof is linked under its intel hash and has a stats
    /// entry for its source.
    pub open spec fn proof_linked(self, e: ProofEntry) -> bool {
        &&& exists|j: int|
            0 <= j < self.intel_proofs@.len() && (#[trigger] self.intel_proofs@[j].intel_hash@)
                == e.proof.intel_hash@ && contains_id(
                self.intel_proofs@[j].proof_ids@,
                e.proof.proof_id@,
            )
        &&& has_stats(self.source_stats@, e.proof.source_hash@)
    }

    /// Per-source counters stay within what the global counters allow.
    pub open spec fn stats_bounded(self, se: StatsEntry) -> bool {
        &&& 1 <= se.stats.total_proofs <= self.total_proofs
        &&& se.stats.total_attestations <= self.total_attestations
        &&& se.stats.confidence_sum <= 100 * se.stats.total_attestations
    }

    /// The registry invariant. Established by `new`, preserved by every
    /// operation.
    pub open spec fn wf(self) -> bool {
        &&& proof_ids_unique(self.proofs@)
        &&& forall|i: int| 0 <= i < self.proofs@.len() ==> entry_wf(#[trigger] self.proofs@[i])
        &&& self.total_proofs == self.proofs@.len()
        &&& intel_keys_unique(self.intel_proofs@)
        &&& stats_keys_unique(self.source_stats@)
        &&& forall|i: int, k: int|
            0 <= i < self.intel_proofs@.len() && 0 <= k < self.intel_proofs@[i].proof_ids@.len()
                ==> listed_id_resolves(
                self.proofs@,
                (#[trigger] self.intel_proofs@[i].proof_ids@[k]@),
                self.intel_proofs@[i].intel_hash@,
            )
        &&& forall|i: int|
            0 <= i < self.proofs@.len() ==> self.proof_linked(#[trigger] self.proofs@[i])
        &&& forall|i: int|
            0 <= i < self.source_stats@.len() ==> self.stats_bounded(
                #[trigger] self.source_stats@[i],
            )
    }

    /// The stored proof with identifier `id`; meaningful under `wf` and
    /// `has_proof`.
    pub open spec fn spec_proof_of(self, id: Seq<char>) -> ProofCommitment {
        self.proofs@[proof_index(self.proofs@, id)].proof
    }

    /// The ledger of the proof with identifier `id`.
    pub open spec fn spec_ledger_of(self, id: Seq<char>) -> Seq<Attestation> {
        self.proofs@[proof_index(self.proofs@, id)].attestations@
    }

    /// The stats of source `key`; meaningful under `wf` and `has_stats`.
    pub open spec fn spec_stats_of(self, key: Seq<char>) -> SourceStats {
        self.source_stats@[choose|i: int|
            0 <= i < self.source_stats@.len() && (#[trigger] self.source_stats@[i].source_hash@)
                == key].stats
    }
}

// ---------------------------------------------------------------------------
// Construction
// ---------------------------------------------------------------------------

impl IntelRegistry {
    /// An empty registry owned by `owner`.
    pub fn new(owner: String) -> (r: IntelRegistry)
        ensures
            r.wf(),
            r.proofs@.len() == 0,
            r.intel_proofs@.len() == 0,
            r.source_stats@.len() == 0,
            r.total_proofs == 0,
            r.total_attestations == 0,
            r.owner == owner,
    {
        IntelRegistry {
            proofs: Vec::new(),
            intel_proofs: Vec::new(),
            source_stats: Vec::new(),
            total_proofs: 0,
            total_attestations: 0,
            owner,
        }
    }
}

// ---------------------------------------------------------------------------
// Transition relations
// ---------------------------------------------------------------------------

/// The inputs of a registration are well formed: identifier at most 64
/// characters, all four hashes exactly 64 hex characters, metadata at most
/// 500 characters.
pub open spec fn register_input_valid(
    proof_id: Seq<char>,
    commitment: Seq<char>,
    source_hash: Seq<char>,
    intel_hash: Seq<char>,
    public_inputs_hash: Seq<char>,
    metadata: Option<String>,
) -> bool {
    &&& proof_id.len() <= 64
    &&& spec_is_hex_64(commitment)
    &&& spec_is_hex_64(source_hash)
    &&& spec_is_hex_64(intel_hash)
    &&& spec_is_hex_64(public_inputs_hash)
    &&& (metadata matches Some(m) ==> m@.len() <= 500)
}

/// The intel index after linking `id` under `key`: the entry keyed by
/// `key` gains `id` at its end (the entry is created if absent); all other
/// entries are untouched.
pub open spec fn intel_extended(
    pre: Seq<IntelEntry>,
    post: Seq<IntelEntry>,
    key: Seq<char>,
    id: Seq<char>,
) -> bool {
    if has_intel(pre, key) {
        exists|j: int|
            {
                &&& 0 <= j < pre.len()
                &&& (#[trigger] pre[j].intel_hash@) == key
                &&& post.len() == pre.len()
                &&& (forall|i: int| 0 <= i < pre.len() && i != j ==> post[i] == pre[i])
                &&& post[j].intel_hash == pre[j].intel_hash
                &&& post[j].proof_ids@.len() == pre[j].proof_ids@.len() + 1
                &&& (forall|k: int|
                    0 <= k < pre[j].proof_ids@.len() ==> post[j].proof_ids@[k] == pre[j].proof_ids@[k])
                &&& post[j].proof_ids@.last()@ == id
            }
    } else {
        &&& post.len() == pre.len() + 1
        &&& (forall|i: int| 0 <= i < pre.len() ==> post[i] == pre[i])
        &&& post.last().intel_hash@ == key
        &&& post.last().proof_ids@.len() == 1
        &&& post.last().proof_ids@[0]@ == id
    }
}

/// The source statistics after a registration at `height` for source
/// `key`: that source's proof count grows by one and its last height
/// becomes `height` (a fresh zero-based entry is created first if the
/// source was never seen); all other entries are untouched.
pub open spec fn stats_after_register(
    pre: Seq<StatsEntry>,
    post: Seq<StatsEntry>,
    key: Seq<char>,
    height: u64,
) -> bool {
    if has_stats(pre, key) {
        exists|j: int|
            {
                &&& 0 <= j < pre.len()
                &&& (#[trigger] pre[j].source_hash@) == key
                &&& post.len() == pre.len()
                &&& (forall|i: int| 0 <= i < pre.len() && i != j ==> post[i] == pre[i])
                &&& post[j].source_hash == pre[j].source_hash
                &&& post[j].stats.total_proofs == pre[j].stats.total_proofs + 1
                &&& post[j].stats.last_proof_height == height
                &&& post[j].stats.first_proof_height == pre[j].stats.first_proof_height
                &&& post[j].stats.total_attestations == pre[j].stats.total_attestations
                &&& post[j].stats.confidence_sum == pre[j].stats.confidence_sum
                &&& post[j].stats.verified_count == pre[j].stats.verified_count
                &&& post[j].stats.refuted_count == pre[j].stats.refuted_count
            }
    } else {
        &&& post.len() == pre.len() + 1
        &&& (forall|i: int| 0 <= i < pre.len() ==> post[i] == pre[i])
        &&& post.last().source_hash@ == key
        &&& post.last().stats.total_proofs == 1
        &&& post.last().stats.total_attestations == 0
        &&& post.last().stats.confidence_sum == 0
        &&& post.last().stats.verified_count == 0
        &&& post.last().stats.refuted_count == 0
        &&& post.last().stats.first_proof_height == height
        &&& post.last().stats.last_proof_height == height
    }
}

/// Everything a successful registration of the commitment `p` does:
/// append the proof with an empty ledger, count it, link it in the intel
/// index, and update its source's statistics.
pub open spec fn register_effect(pre: IntelRegistry, post: IntelRegistry, p: ProofCommitment) -> bool {
    &&& post.proofs@.len() == pre.proofs@.len() + 1
    &&& (forall|i: int| 0 <= i < pre.proofs@.len() ==> post.proofs@[i] == pre.proofs@[i])
    &&& post.proofs@.last().proof == p
    &&& post.proofs@.last().attestations@.len() == 0
    &&& post.total_proofs == pre.total_proofs + 1
    &&& post.total_attestations == pre.total_attestations
    &&& post.owner == pre.owner
    &&& intel_extended(pre.intel_proofs@, post.intel_proofs@, p.intel_hash@, p.proof_id@)
    &&& stats_after_register(pre.source_stats@, post.source_stats@, p.source_hash@, p.block_height)
}

/// The ledger after recording `att`: if its attestor is already present,
/// that attestation is replaced in place; otherwise `att` is appended.
pub open spec fn attest_applied(pre: Seq<Attestation>, post: Seq<Attestation>, att: Attestation) -> bool {
    if has_attestor(pre, att.attestor@) {
        &&& post.len() == pre.len()
        &&& (forall|i: int|
            0 <= i < pre.len() && (#[trigger] pre[i].attestor@) != att.attestor@ ==> post[i]
                == pre[i])
        &&& (forall|i: int|
            0 <= i < pre.len() && (#[trigger] pre[i].attestor@) == att.attestor@ ==> post[i] == att)
    } else {
        post == pre.push(att)
    }
}

/// The source statistics after an attest call for source `key`:
/// first-time attestations raise the attestation count and confidence
/// sum; every call that lands the proof in `Verified` raises the verified
/// count; all other entries are untouched.
pub open spec fn stats_after_attest(
    pre: Seq<StatsEntry>,
    post: Seq<StatsEntry>,
    key: Seq<char>,
    newly: bool,
    confidence: u8,
    verified: bool,
) -> bool {
    exists|m: int|
        {
            &&& 0 <= m < pre.len()
            &&& (#[trigger] pre[m].source_hash@) == key
            &&& post.len() == pre.len()
            &&& (forall|i: int| 0 <= i < pre.len() && i != m ==> post[i] == pre[i])
            &&& post[m].source_hash == pre[m].source_hash
            &&& post[m].stats.total_attestations == pre[m].stats.total_attestations + (if newly {
                1int
            } else {
                0int
            })
            &&& post[m].stats.confidence_sum == pre[m].stats.confidence_sum + (if newly {
                confidence as int
            } else {
                0int
            })
            &&& post[m].stats.verified_count == pre[m].stats.verified_count + (if verified {
                1int
            } else {
                0int
            })
            &&& post[m].stats.total_proofs == pre[m].stats.total_proofs
            &&& post[m].stats.refuted_count == pre[m].stats.refuted_count
            &&& post[m].stats.first_proof_height == pre[m].stats.first_proof_height
            &&& post[m].stats.last_proof_height == pre[m].stats.last_proof_height
        }
}

/// Everything a successful attest call recording `att` on proof `pid`
/// does: update that proof's ledger and aggregates, derive its status,
/// and update the counters. `attest_effect_at` spells the effect out for
/// the entry holding the proof.
pub open spec fn attest_effect(
    pre: IntelRegistry,
    post: IntelRegistry,
    att: Attestation,
    pid: Seq<char>,
) -> bool {
    exists|j: int|
        0 <= j < pre.proofs@.len() && (#[trigger] pre.proofs@[j].proof.proof_id@) == pid
            && attest_effect_at(pre, post, att, pid, j)
}

impl IntelRegistry {
    /// Machine limits under which an attest call cannot overflow the
    /// `u64`/`u32` counters it increments.
    pub open spec fn room_to_attest(self, pid: Seq<char>) -> bool {
        &&& 100 * (self.total_attestations as int) + 100 <= u64::MAX as int
        &&& (has_proof(self.proofs@, pid) ==> {
            let e = self.proofs@[proof_index(self.proofs@, pid)];
            &&& e.attestations@.len() < u32::MAX
            &&& self.spec_stats_of(e.proof.source_hash@).verified_count < u64::MAX
        })
    }
}

// ---------------------------------------------------------------------------
// Registration
// ---------------------------------------------------------------------------

impl IntelRegistry {
    /// Registers a new proof commitment.
    ///
    /// `height` and `timestamp_ns` are the host clock at this call. On
    /// success the commitment is created with `Pending` status and an
    /// empty ledger, linked under its intel hash, and counted against its
    /// source. A call with malformed inputs fails `InvalidFormat`; one
    /// whose identifier is already registered fails `DuplicateProof`; a
    /// failed call leaves the registry exactly as it was.
    pub fn register_proof(
        &mut self,
        height: u64,
        timestamp_ns: u64,
        proof_id: String,
        commitment: String,
        proof_type: ProofType,
        source_hash: String,
        intel_hash: String,
        public_inputs_hash: String,
        metadata: Option<String>,
    ) -> (r: Result<ProofCommitment, RegistryError>)
        requires
            old(self).wf(),
            // machine limit: the u64 proof counter must have room
            old(self).total_proofs < u64::MAX,
        ensures
            final(self).wf(),
            r is Err ==> *final(self) == *old(self),
            (r matches Ok(p)) <==> (register_input_valid(
                proof_id@,
                commitment@,
                source_hash@,
                intel_hash@,
                public_inputs_hash@,
                metadata,
            ) && !has_proof(old(self).proofs@, proof_id@)),
            r == Err::<ProofCommitment, RegistryError>(RegistryError::InvalidFormat) <==> !register_input_valid(
                proof_id@,
                commitment@,
                source_hash@,
                intel_hash@,
                public_inputs_hash@,
                metadata,
            ),
            r == Err::<ProofCommitment, RegistryError>(RegistryError::DuplicateProof) <==> (
            register_input_valid(
                proof_id@,
                commitment@,
                source_hash@,
                intel_hash@,
                public_inputs_hash@,
                metadata,
            ) && has_proof(old(self).proofs@, proof_id@)),
            r matches Ok(p) ==> {
                &&& p.proof_id == proof_id
                &&& p.commitment == commitment
                &&& p.proof_type == proof_type
                &&& p.source_hash == source_hash
                &&& p.intel_hash == intel_hash
                &&& p.public_inputs_hash == public_inputs_hash
                &&& p.block_height == height
                &&& p.timestamp_ns == timestamp_ns
                &&& p.metadata == metadata
                &&& p.status == VerificationStatus::Pending
                &&& p.attestation_count == 0
                &&& p.avg_confidence == 0
                &&& register_effect(*old(self), *final(self), p)
            },
    {
        // Validation; nothing is written before every check has passed.
        if proof_id.as_str().unicode_len() > 64 {
            return Err(RegistryError::InvalidFormat);
        }
        if !is_hex_64(commitment.as_str()) {
            return Err(RegistryError::InvalidFormat);
        }
        if !is_hex_64(source_hash.as_str()) {
            return Err(RegistryError::InvalidFormat);
        }
        if !is_hex_64(intel_hash.as_str()) {
            return Err(RegistryError::InvalidFormat);
        }
        if !is_hex_64(public_inputs_hash.as_str()) {
            return Err(RegistryError::InvalidFormat);
        }
        match &metadata {
            Some(m) => {
                if m.as_str().unicode_len() > 500 {
                    return Err(RegistryError::InvalidFormat);
                }
            },
            None => {},
        }
        if self.find_proof(&proof_id).is_some() {
            return Err(RegistryError::DuplicateProof);
        }

        let ghost pre = *self;

        let id_key = proof_id.clone();
        let intel_key = intel_hash.clone();
        let source_key = source_hash.clone();
        let ghost g_id = id_key;
        let ghost g_intel = intel_key;
        let ghost g_source = source_key;

        let proof = ProofCommitment {
            proof_id,
            commitment,
            proof_type,
            source_hash,
            intel_hash,
            public_inputs_hash,
            block_height: height,
            timestamp_ns,
            metadata,
            status: VerificationStatus::Pending,
            attestation_count: 0,
            avg_confidence: 0,
        };
        let result = proof.clone();

        self.proofs.push(ProofEntry { proof, attestations: Vec::new() });
        self.total_proofs = self.total_proofs + 1;

        match self.find_intel(&intel_key) {
            Some(j) => {
                self.intel_proofs[j].proof_ids.push(id_key);
                proof {
                    assert(pre.intel_proofs@[j as int].intel_hash@ == g_intel@);
                    assert(self.intel_proofs@[j as int].proof_ids@.last() == g_id);
                    assert(forall|i: int|
                        0 <= i < pre.intel_proofs@.len() && i != j ==> self.intel_proofs@[i]
                            == pre.intel_proofs@[i]);
                    assert(intel_extended(pre.intel_proofs@, self.intel_proofs@, g_intel@, g_id@));
                }
            },
            None => {
                let mut ids: Vec<String> = Vec::new();
                ids.push(id_key);
                self.intel_proofs.push(IntelEntry { intel_hash: intel_key, proof_ids: ids });
                proof {
                    assert(self.intel_proofs@.last().proof_ids@[0] == g_id);
                    assert(intel_extended(pre.intel_proofs@, self.intel_proofs@, g_intel@, g_id@));
                }
            },
        }

        match self.find_stats(&source_key) {
            Some(k) => {
                proof {
                    assert(pre.stats_bounded(pre.source_stats@[k as int]));
                }
                let t = self.source_stats[k].stats.total_proofs;
                self.source_stats[k].stats.total_proofs = t + 1;
                self.source_stats[k].stats.last_proof_height = height;
                proof {
                    assert(pre.source_stats@[k as int].source_hash@ == g_source@);
                    assert(forall|i: int|
                        0 <= i < pre.source_stats@.len() && i != k ==> self.source_stats@[i]
                            == pre.source_stats@[i]);
                    assert(stats_after_register(
                        pre.source_stats@,
                        self.source_stats@,
                        g_source@,
                        height,
                    ));
                }
            },
            None => {
                self.source_stats.push(
                    StatsEntry {
                        source_hash: source_key,
                        stats: SourceStats {
                            total_proofs: 1,
                            total_attestations: 0,
                            confidence_sum: 0,
                            verified_count: 0,
                            refuted_count: 0,
                            first_proof_height: height,
                            last_proof_height: height,
                        },
                    },
                );
                proof {
                    assert(stats_after_register(
                        pre.source_stats@,
                        self.source_stats@,
                        g_source@,
                        height,
                    ));
                }
            },
        }

        proof {
            assert(g_intel@ == result.intel_hash@);
            assert(g_source@ == result.source_hash@);
            assert(g_id@ == result.proof_id@);
            assert(register_effect(pre, *self, result));
            lemma_register_restores_wf(pre, *self, result);
        }
        Ok(result)
    }
}

// ---------------------------------------------------------------------------
// Attestation
// ---------------------------------------------------------------------------

impl IntelRegistry {
    /// Records the attestation of `attestor` on `proof_id` with the given
    /// confidence and optional note, at host height `height`.
    ///
    /// A second attestation from the same attestor replaces the first in
    /// place without growing the ledger. After either branch the proof's
    /// average confidence and status are derived anew from the live
    /// ledger, and the source counters are updated: attestation count and
    /// confidence sum on first-time attestations only, verified count on
    /// every call that lands the proof in `Verified`. A failed call
    /// leaves the registry exactly as it was.
    pub fn attest(
        &mut self,
        attestor: String,
        height: u64,
        proof_id: String,
        confidence: u8,
        note: Option<String>,
    ) -> (r: Result<(), RegistryError>)
        requires
            old(self).wf(),
            // machine limit: the counters this call increments have room
            old(self).room_to_attest(proof_id@),
        ensures
            final(self).wf(),
            r is Err ==> *final(self) == *old(self),
            r is Ok <==> (1 <= confidence <= 100 && (note matches Some(n) ==> n@.len() <= 200)
                && has_proof(old(self).proofs@, proof_id@)),
            r == Err::<(), RegistryError>(RegistryError::InvalidConfidence) <==> !(1 <= confidence
                <= 100),
            r == Err::<(), RegistryError>(RegistryError::NoteTooLong) <==> (1 <= confidence <= 100
                && !(note matches Some(n) ==> n@.len() <= 200)),
            r == Err::<(), RegistryError>(RegistryError::NotFound) <==> (1 <= confidence <= 100 && (
            note matches Some(n) ==> n@.len() <= 200) && !has_proof(old(self).proofs@, proof_id@)),
            r is Ok ==> attest_effect(
                *old(self),
                *final(self),
                (Attestation { attestor, confidence, block_height: height, note }),
                proof_id@,
            ),
    {
        if confidence < 1 || confidence > 100 {
            return Err(RegistryError::InvalidConfidence);
        }
        match &note {
            Some(n) => {
                if n.as_str().unicode_len() > 200 {
                    return Err(RegistryError::NoteTooLong);
                }
            },
            None => {},
        }
        let j = match self.find_proof(&proof_id) {
            Some(j) => j,
            None => {
                return Err(RegistryError::NotFound);
            },
        };

        let ghost pre = *self;
        proof {
            let w = proof_index(pre.proofs@, proof_id@);
            assert(0 <= w < pre.proofs@.len() && pre.proofs@[w].proof.proof_id@ == proof_id@);
            if w != j as int {
                assert(false);
            }
            assert(entry_wf(pre.proofs@[j as int]));
            assert(pre.proof_linked(pre.proofs@[j as int]));
        }

        let source_key = self.proofs[j].proof.source_hash.clone();
        let ghost g_source = pre.proofs@[j as int].proof.source_hash@;
        let att = Attestation { attestor, confidence, block_height: height, note };
        let ghost g_att = att;

        // replace in place if this attestor already attested, else append
        let n0 = self.proofs[j].attestations.len();
        let mut k: usize = 0;
        let mut found: Option<usize> = None;
        while k < n0
            invariant
                n0 == self.proofs@[j as int].attestations@.len(),
                j < self.proofs@.len(),
                0 <= k <= n0,
                g_att == att,
                match found {
                    None => forall|i: int|
                        0 <= i < k ==> (#[trigger] self.proofs@[j as int].attestations@[i].attestor@)
                            != g_att.attestor@,
                    Some(f) => f < n0 && self.proofs@[j as int].attestations@[
                        f as int
                    ].attestor@ == g_att.attestor@,
                },
            decreases n0 - k,
        {
            if found.is_none() {
                let same = self.proofs[j].attestations[k].attestor == att.attestor;
                if same {
                    found = Some(k);
                } else {
                    proof {
                        assert(self.proofs@[j as int].attestations@[k as int].attestor@
                            != g_att.attestor@);
                    }
                }
            }
            k += 1;
        }

        let ghost newly = !has_attestor(pre.proofs@[j as int].attestations@, g_att.attestor@);
        match found {
            Some(f) => {
                proof {
                    assert(has_attestor(pre.proofs@[j as int].attestations@, g_att.attestor@));
                }
                self.proofs[j].attestations.set(f, att);
                proof {
                    assert forall|i: int|
                        0 <= i < pre.proofs@[j as int].attestations@.len() && (
                        #[trigger] pre.proofs@[j as int].attestations@[i].attestor@)
                            == g_att.attestor@ implies self.proofs@[j as int].attestations@[i]
                        == g_att by {
                        if i != f as int {
                            assert(pre.proofs@[j as int].attestations@[i].attestor@ == pre.proofs@[
                                j as int
                            ].attestations@[f as int].attestor@);
                            assert(false);
                        }
                    }
                    assert(attest_applied(
                        pre.proofs@[j as int].attestations@,
                        self.proofs@[j as int].attestations@,
                        g_att,
                    ));
                }
            },
            None => {
                proof {
                    assert(!has_attestor(pre.proofs@[j as int].attestations@, g_att.attestor@));
                    assert(pre.proofs@[j as int].attestations@.len() < u32::MAX);
                }
                self.proofs[j].attestations.push(att);
                let c = self.proofs[j].proof.attestation_count;
                self.proofs[j].proof.attestation_count = c + 1;
                let t = self.total_attestations;
                self.total_attestations = t + 1;
                proof {
                    assert(attest_applied(
                        pre.proofs@[j as int].attestations@,
                        self.proofs@[j as int].attestations@,
                        g_att,
                    ));
                }
            },
        }

        // recompute the aggregate average from the live ledger
        let cnt = self.proofs[j].attestations.len();
        proof {
            assert forall|i: int| 0 <= i < self.proofs@[j as int].attestations@.len() implies
                attestation_valid(#[trigger] self.proofs@[j as int].attestations@[i]) by {
                if newly {
                    if i < cnt - 1 {
                        assert(self.proofs@[j as int].attestations@[i] == pre.proofs@[
                            j as int
                        ].attestations@[i]);
                    }
                } else {
                    if pre.proofs@[j as int].attestations@[i].attestor@ != g_att.attestor@ {
                        assert(self.proofs@[j as int].attestations@[i] == pre.proofs@[
                            j as int
                        ].attestations@[i]);
                    }
                }
            }
        }
        let ghost ledger = self.proofs@[j as int].attestations@;
        proof {
            if newly {
                assert(ledger.len() == pre.proofs@[j as int].attestations@.len() + 1);
            }
            assert(cnt <= u32::MAX);
        }
        let mut total: u64 = 0;
        let mut q: usize = 0;
        while q < cnt
            invariant
                cnt == ledger.len(),
                cnt <= u32::MAX,
                ledger == self.proofs@[j as int].attestations@,
                j < self.proofs@.len(),
                forall|i: int| 0 <= i < ledger.len() ==> attestation_valid(#[trigger] ledger[i]),
                0 <= q <= cnt,
                total == sum_confidences(ledger.take(q as int)),
                total <= 100 * q,
            decreases cnt - q,
        {
            proof {
                assert(ledger.take(q as int + 1).drop_last() =~= ledger.take(q as int));
                assert(ledger.take(q as int + 1).last() == ledger[q as int]);
            }
            total = total + self.proofs[j].attestations[q].confidence as u64;
            q += 1;
        }
        proof {
            assert(ledger.take(cnt as int) =~= ledger);
            lemma_avg_confidence_in_range(ledger);
        }
        let avg = (total / (cnt as u64)) as u8;

        let status = if avg >= 70 {
            VerificationStatus::Verified
        } else if self.proofs[j].proof.attestation_count > 0 {
            VerificationStatus::Contested
        } else {
            VerificationStatus::Pending
        };

        self.proofs[j].proof.avg_confidence = avg;
        self.proofs[j].proof.status = status;
        let is_verified = status == VerificationStatus::Verified;

        // update the source counters
        let m = match self.find_stats(&source_key) {
            Some(m) => m,
            None => {
                proof {
                    assert(has_stats(pre.source_stats@, g_source));
                }
                vstd::pervasive::unreached()
            },
        };
        proof {
            assert(pre.stats_bounded(pre.source_stats@[m as int]));
            let w = choose|i: int|
                0 <= i < pre.source_stats@.len() && (#[trigger] pre.source_stats@[i].source_hash@)
                    == g_source;
            if w != m as int {
                assert(false);
            }
            assert(pre.spec_stats_of(g_source) == pre.source_stats@[m as int].stats);
        }
        if found.is_none() {
            let ta = self.source_stats[m].stats.total_attestations;
            self.source_stats[m].stats.total_attestations = ta + 1;
            let cs = self.source_stats[m].stats.confidence_sum;
            self.source_stats[m].stats.confidence_sum = cs + confidence as u64;
        }
        if is_verified {
            let vc = self.source_stats[m].stats.verified_count;
            self.source_stats[m].stats.verified_count = vc + 1;
        }

        proof {
            assert(stats_after_attest(
                pre.source_stats@,
                self.source_stats@,
                g_source,
                newly,
                g_att.confidence,
                is_verified,
            ));
            assert(spec_avg_confidence(ledger) == total as int / cnt as int);
            assert(self.proofs@[j as int].proof.avg_confidence == spec_avg_confidence(ledger));
            assert(self.proofs@[j as int].proof.status == spec_status_rule(
                ledger.len() as int,
                spec_avg_confidence(ledger),
            ));
            assert(attest_effect(pre, *self, g_att, proof_id@));
            lemma_attest_restores_wf(pre, *self, g_att, proof_id@);
        }
        Ok(())
    }
}

/// After the ledger, aggregate and counter updates of an attest call the
/// invariant holds again.
proof fn lemma_attest_restores_wf(
    pre: IntelRegistry,
    post: IntelRegistry,
    att: Attestation,
    pid: Seq<char>,
)
    requires
        pre.wf(),
        pre.room_to_attest(pid),
        has_proof(pre.proofs@, pid),
        attestation_valid(att),
        attest_effect(pre, post, att, pid),
    ensures
        post.wf(),
{
    let j = choose|j: int|
        0 <= j < pre.proofs@.len() && (#[trigger] pre.proofs@[j].proof.proof_id@) == pid
            && attest_effect_at(pre, post, att, pid, j);
    assert(attest_effect_at(pre, post, att, pid, j));
    let e = pre.proofs@[j];
    let e2 = post.proofs@[j];
    let newly = !has_attestor(e.attestations@, att.attestor@);

    assert(entry_wf(e));
    let w = proof_index(pre.proofs@, pid);
    assert(0 <= w < pre.proofs@.len() && pre.proofs@[w].proof.proof_id@ == pid);
    if w != j {
        assert(false);
    }

    // identifiers are pointwise unchanged
    assert forall|i: int| 0 <= i < post.proofs@.len() implies (
    #[trigger] post.proofs@[i].proof.proof_id@) == pre.proofs@[i].proof.proof_id@ && post.proofs@[
        i
    ].proof.intel_hash@ == pre.proofs@[i].proof.intel_hash@ && post.proofs@[i].proof.source_hash@
        == pre.proofs@[i].proof.source_hash@ by {
        if i != j {
            assert(post.proofs@[i] == pre.proofs@[i]);
        }
    }

    // the touched ledger is still valid and attestor-unique
    assert forall|i: int| 0 <= i < e2.attestations@.len() implies attestation_valid(
        #[trigger] e2.attestations@[i],
    ) by {
        if newly {
            if i < e.attestations@.len() {
                assert(e2.attestations@[i] == e.attestations@[i]);
            }
        } else {
            if e.attestations@[i].attestor@ != att.attestor@ {
                assert(e2.attestations@[i] == e.attestations@[i]);
            } else {
                assert(e2.attestations@[i] == att);
            }
        }
    }
    assert forall|i: int, i2: int| 0 <= i < i2 < e2.attestations@.len() implies (
    #[trigger] e2.attestations@[i].attestor@) != (#[trigger] e2.attestations@[i2].attestor@) by {
        if newly {
            if i2 < e.attestations@.len() {
                assert(e2.attestations@[i] == e.attestations@[i]);
                assert(e2.attestations@[i2] == e.attestations@[i2]);
            } else {
                assert(e2.attestations@[i] == e.attestations@[i]);
                assert(e2.attestations@[i2] == att);
                if e.attestations@[i].attestor@ == att.attestor@ {
                    assert(has_attestor(e.attestations@, att.attestor@));
                }
            }
        } else {
            assert(e2.attestations@[i].attestor@ == e.attestations@[i].attestor@);
            assert(e2.attestations@[i2].attestor@ == e.attestations@[i2].attestor@);
        }
    }

    // every entry is well formed
    assert forall|i: int| 0 <= i < post.proofs@.len() implies entry_wf(#[trigger] post.proofs@[i]) by {
        if i != j {
            assert(post.proofs@[i] == pre.proofs@[i]);
            assert(entry_wf(pre.proofs@[i]));
        } else {
            assert(commitment_fields_valid(e2.proof));
            if newly {
                assert(e2.attestations@.len() == e.attestations@.len() + 1);
            }
            assert(e2.proof.attestation_count == e2.attestations@.len());
        }
    }

    // identifier uniqueness carries over pointwise
    assert forall|i: int, i2: int| 0 <= i < i2 < post.proofs@.len() implies (
    #[trigger] post.proofs@[i].proof.proof_id@) != (#[trigger] post.proofs@[i2].proof.proof_id@) by {
        assert(pre.proofs@[i].proof.proof_id@ != pre.proofs@[i2].proof.proof_id@);
    }

    // the stats sequence: keys pointwise unchanged
    let m = choose|m: int|
        {
            &&& 0 <= m < pre.source_stats@.len()
            &&& (#[trigger] pre.source_stats@[m].source_hash@) == e.proof.source_hash@
            &&& post.source_stats@.len() == pre.source_stats@.len()
            &&& (forall|i: int|
                0 <= i < pre.source_stats@.len() && i != m ==> post.source_stats@[i]
                    == pre.source_stats@[i])
            &&& post.source_stats@[m].source_hash == pre.source_stats@[m].source_hash
            &&& post.source_stats@[m].stats.total_attestations == pre.source_stats@[
                m
            ].stats.total_attestations + (if newly {
                1int
            } else {
                0int
            })
            &&& post.source_stats@[m].stats.confidence_sum == pre.source_stats@[
                m
            ].stats.confidence_sum + (if newly {
                att.confidence as int
            } else {
                0int
            })
            &&& post.source_stats@[m].stats.verified_count == pre.source_stats@[
                m
            ].stats.verified_count + (if e2.proof.status == VerificationStatus::Verified {
                1int
            } else {
                0int
            })
            &&& post.source_stats@[m].stats.total_proofs == pre.source_stats@[m].stats.total_proofs
            &&& post.source_stats@[m].stats.refuted_count == pre.source_stats@[
                m
            ].stats.refuted_count
            &&& post.source_stats@[m].stats.first_proof_height == pre.source_stats@[
                m
            ].stats.first_proof_height
            &&& post.source_stats@[m].stats.last_proof_height == pre.source_stats@[
                m
            ].stats.last_proof_height
        };
    assert forall|i: int| 0 <= i < post.source_stats@.len() implies (
    #[trigger] post.source_stats@[i].source_hash@) == pre.source_stats@[i].source_hash@ by {
        if i != m {
            assert(post.source_stats@[i] == pre.source_stats@[i]);
        }
    }
    assert forall|i: int, i2: int| 0 <= i < i2 < post.source_stats@.len() implies (
    #[trigger] post.source_stats@[i].source_hash@) != (#[trigger] post.source_stats@[i2].source_hash@) by {
        assert(pre.source_stats@[i].source_hash@ != pre.source_stats@[i2].source_hash@);
    }

    // the intel index still resolves
    assert forall|i: int, k: int|
        0 <= i < post.intel_proofs@.len() && 0 <= k < post.intel_proofs@[i].proof_ids@.len() implies listed_id_resolves(
        post.proofs@,
        (#[trigger] post.intel_proofs@[i].proof_ids@[k]@),
        post.intel_proofs@[i].intel_hash@,
    ) by {
        assert(listed_id_resolves(
            pre.proofs@,
            pre.intel_proofs@[i].proof_ids@[k]@,
            pre.intel_proofs@[i].intel_hash@,
        ));
        let p = choose|p: int|
            0 <= p < pre.proofs@.len() && (#[trigger] pre.proofs@[p].proof.proof_id@)
                == pre.intel_proofs@[i].proof_ids@[k]@ && pre.proofs@[p].proof.intel_hash@
                == pre.intel_proofs@[i].intel_hash@;
        assert(post.proofs@[p].proof.proof_id@ == pre.proofs@[p].proof.proof_id@);
        assert(post.proofs@[p].proof.intel_hash@ == pre.proofs@[p].proof.intel_hash@);
    }

    // every proof is still linked and has stats
    assert forall|i: int| 0 <= i < post.proofs@.len() implies post.proof_linked(
        #[trigger] post.proofs@[i],
    ) by {
        assert(pre.proof_linked(pre.proofs@[i]));
        let j0 = choose|j0: int|
            0 <= j0 < pre.intel_proofs@.len() && (#[trigger] pre.intel_proofs@[j0].intel_hash@)
                == pre.proofs@[i].proof.intel_hash@ && contains_id(
                pre.intel_proofs@[j0].proof_ids@,
                pre.proofs@[i].proof.proof_id@,
            );
        assert(post.intel_proofs@[j0].intel_hash@ == post.proofs@[i].proof.intel_hash@);
        assert(contains_id(post.intel_proofs@[j0].proof_ids@, post.proofs@[i].proof.proof_id@));
        let m0 = choose|m0: int|
            0 <= m0 < pre.source_stats@.len() && (#[trigger] pre.source_stats@[m0].source_hash@)
                == pre.proofs@[i].proof.source_hash@;
        assert(post.source_stats@[m0].source_hash@ == post.proofs@[i].proof.source_hash@);
    }

    // per-source counters stay bounded
    assert forall|i: int| 0 <= i < post.source_stats@.len() implies post.stats_bounded(
        #[trigger] post.source_stats@[i],
    ) by {
        assert(pre.stats_bounded(pre.source_stats@[i]));
        if i != m {
            assert(post.source_stats@[i] == pre.source_stats@[i]);
        }
    }
}

// ---------------------------------------------------------------------------
// Refutation
// ---------------------------------------------------------------------------

/// The source statistics after a refutation for source `key`: the
/// refuted count grows by one; all other entries are untouched.
pub open spec fn stats_after_refute(pre: Seq<StatsEntry>, post: Seq<StatsEntry>, key: Seq<char>) -> bool {
    exists|m: int|
        {
            &&& 0 <= m < pre.len()
            &&& (#[trigger] pre[m].source_hash@) == key
            &&& post.len() == pre.len()
            &&& (forall|i: int| 0 <= i < pre.len() && i != m ==> post[i] == pre[i])
            &&& post[m].source_hash == pre[m].source_hash
            &&& post[m].stats.refuted_count == pre[m].stats.refuted_count + 1
            &&& post[m].stats.total_proofs == pre[m].stats.total_proofs
            &&& post[m].stats.total_attestations == pre[m].stats.total_attestations
            &&& post[m].stats.confidence_sum == pre[m].stats.confidence_sum
            &&& post[m].stats.verified_count == pre[m].stats.verified_count
            &&& post[m].stats.first_proof_height == pre[m].stats.first_proof_height
            &&& post[m].stats.last_proof_height == pre[m].stats.last_proof_height
        }
}

/// Everything a successful refutation of proof `pid` does: force its
/// status to `Refuted` and count the refutation against its source.
pub open spec fn refute_effect(pre: IntelRegistry, post: IntelRegistry, pid: Seq<char>) -> bool {
    exists|j: int|
        {
            let e = pre.proofs@[j];
            let e2 = post.proofs@[j];
            &&& 0 <= j < pre.proofs@.len()
            &&& (#[trigger] pre.proofs@[j].proof.proof_id@) == pid
            &&& post.proofs@.len() == pre.proofs@.len()
            &&& (forall|i: int|
                0 <= i < pre.proofs@.len() && i != j ==> post.proofs@[i] == pre.proofs@[i])
            &&& e2.attestations@ == e.attestations@
            &&& e2.proof.proof_id == e.proof.proof_id
            &&& e2.proof.commitment == e.proof.commitment
            &&& e2.proof.proof_type == e.proof.proof_type
            &&& e2.proof.source_hash == e.proof.source_hash
            &&& e2.proof.intel_hash == e.proof.intel_hash
            &&& e2.proof.public_inputs_hash == e.proof.public_inputs_hash
            &&& e2.proof.block_height == e.proof.block_height
            &&& e2.proof.timestamp_ns == e.proof.timestamp_ns
            &&& e2.proof.metadata == e.proof.metadata
            &&& e2.proof.attestation_count == e.proof.attestation_count
            &&& e2.proof.avg_confidence == e.proof.avg_confidence
            &&& e2.proof.status == VerificationStatus::Refuted
            &&& post.total_proofs == pre.total_proofs
            &&& post.total_attestations == pre.total_attestations
            &&& post.owner == pre.owner
            &&& post.intel_proofs@ == pre.intel_proofs@
            &&& stats_after_refute(pre.source_stats@, post.source_stats@, e.proof.source_hash@)
        }
}

impl IntelRegistry {
    /// Whether `caller` may refute the proof `pid`: the registry owner
    /// always may; anyone else only once the proof has at least 3
    /// attestations and an average confidence below 30.
    pub open spec fn spec_can_refute(self, caller: Seq<char>, pid: Seq<char>) -> bool {
        let e = self.proofs@[proof_index(self.proofs@, pid)];
        caller == self.owner@ || (e.proof.attestation_count >= 3 && e.proof.avg_confidence < 30)
    }

    /// Machine limit: the u64 refuted counter this call increments has
    /// room.
    pub open spec fn room_to_refute(self, pid: Seq<char>) -> bool {
        has_proof(self.proofs@, pid) ==> self.spec_stats_of(
            self.proofs@[proof_index(self.proofs@, pid)].proof.source_hash@,
        ).refuted_count < u64::MAX
    }

    /// Forces the status of `proof_id` to `Refuted`, for `reason`, on
    /// behalf of `caller`.
    ///
    /// Fails `NotFound` for an unknown proof, `ReasonTooLong` for a
    /// reason over 500 characters, and `NotAuthorized` when `caller` is
    /// neither the owner nor backed by at least 3 attestations averaging
    /// below 30. A failed call leaves the registry exactly as it was.
    /// There is no way back: only a later attest call can overwrite the
    /// forced status.
    pub fn refute_proof(&mut self, caller: String, proof_id: String, reason: String) -> (r: Result<
        (),
        RegistryError,
    >)
        requires
            old(self).wf(),
            old(self).room_to_refute(proof_id@),
        ensures
            final(self).wf(),
            r is Err ==> *final(self) == *old(self),
            r is Ok <==> (has_proof(old(self).proofs@, proof_id@) && reason@.len() <= 500 && old(
                self,
            ).spec_can_refute(caller@, proof_id@)),
            r == Err::<(), RegistryError>(RegistryError::NotFound) <==> !has_proof(
                old(self).proofs@,
                proof_id@,
            ),
            r == Err::<(), RegistryError>(RegistryError::ReasonTooLong) <==> (has_proof(
                old(self).proofs@,
                proof_id@,
            ) && reason@.len() > 500),
            r == Err::<(), RegistryError>(RegistryError::NotAuthorized) <==> (has_proof(
                old(self).proofs@,
                proof_id@,
            ) && reason@.len() <= 500 && !old(self).spec_can_refute(caller@, proof_id@)),
            r is Ok ==> refute_effect(*old(self), *final(self), proof_id@),
    {
        let j = match self.find_proof(&proof_id) {
            Some(j) => j,
            None => {
                return Err(RegistryError::NotFound);
            },
        };
        let ghost pre = *self;
        proof {
            let w = proof_index(pre.proofs@, proof_id@);
            assert(0 <= w < pre.proofs@.len() && pre.proofs@[w].proof.proof_id@ == proof_id@);
            if w != j as int {
                assert(false);
            }
            assert(entry_wf(pre.proofs@[j as int]));
            assert(pre.proof_linked(pre.proofs@[j as int]));
        }
        if reason.as_str().unicode_len() > 500 {
            return Err(RegistryError::ReasonTooLong);
        }
        let authorized = caller == self.owner || (self.proofs[j].proof.attestation_count >= 3
            && self.proofs[j].proof.avg_confidence < 30);
        if !authorized {
            return Err(RegistryError::NotAuthorized);
        }

        let source_key = self.proofs[j].proof.source_hash.clone();
        let ghost g_source = pre.proofs@[j as int].proof.source_hash@;
        self.proofs[j].proof.status = VerificationStatus::Refuted;

        let m = match self.find_stats(&source_key) {
            Some(m) => m,
            None => {
                proof {
                    assert(has_stats(pre.source_stats@, g_source));
                }
                vstd::pervasive::unreached()
            },
        };
        proof {
            let w = choose|i: int|
                0 <= i < pre.source_stats@.len() && (#[trigger] pre.source_stats@[i].source_hash@)
                    == g_source;
            if w != m as int {
                assert(false);
            }
            assert(pre.spec_stats_of(g_source) == pre.source_stats@[m as int].stats);
        }
        let rc = self.source_stats[m].stats.refuted_count;
        self.source_stats[m].stats.refuted_count = rc + 1;

        proof {
            assert(stats_after_refute(pre.source_stats@, self.source_stats@, g_source));
            assert(refute_effect(pre, *self, proof_id@));
            lemma_refute_restores_wf(pre, *self, proof_id@);
        }
        Ok(())
    }
}

/// After forcing a status and counting the refutation the invariant
/// holds again.
proof fn lemma_refute_restores_wf(pre: IntelRegistry, post: IntelRegistry, pid: Seq<char>)
    requires
        pre.wf(),
        has_proof(pre.proofs@, pid),
        refute_effect(pre, post, pid),
    ensures
        post.wf(),
{
    let j = choose|j: int|
        {
            let e = pre.proofs@[j];
            let e2 = post.proofs@[j];
            &&& 0 <= j < pre.proofs@.len()
            &&& (#[trigger] pre.proofs@[j].proof.proof_id@) == pid
            &&& post.proofs@.len() == pre.proofs@.len()
            &&& (forall|i: int|
                0 <= i < pre.proofs@.len() && i != j ==> post.proofs@[i] == pre.proofs@[i])
            &&& e2.attestations@ == e.attestations@
            &&& e2.proof.proof_id == e.proof.proof_id
            &&& e2.proof.commitment == e.proof.commitment
            &&& e2.proof.proof_type == e.proof.proof_type
            &&& e2.proof.source_hash == e.proof.source_hash
            &&& e2.proof.intel_hash == e.proof.intel_hash
            &&& e2.proof.public_inputs_hash == e.proof.public_inputs_hash
            &&& e2.proof.block_height == e.proof.block_height
            &&& e2.proof.timestamp_ns == e.proof.timestamp_ns
            &&& e2.proof.metadata == e.proof.metadata
            &&& e2.proof.attestation_count == e.proof.attestation_count
            &&& e2.proof.avg_confidence == e.proof.avg_confidence
            &&& e2.proof.status == VerificationStatus::Refuted
            &&& post.total_proofs == pre.total_proofs
            &&& post.total_attestations == pre.total_attestations
            &&& post.owner == pre.owner
            &&& post.intel_proofs@ == pre.intel_proofs@
            &&& stats_after_refute(pre.source_stats@, post.source_stats@, e.proof.source_hash@)
        };
    let m = choose|m: int|
        {
            &&& 0 <= m < pre.source_stats@.len()
            &&& (#[trigger] pre.source_stats@[m].source_hash@) == pre.proofs@[j].proof.source_hash@
            &&& post.source_stats@.len() == pre.source_stats@.len()
            &&& (forall|i: int|
                0 <= i < pre.source_stats@.len() && i != m ==> post.source_stats@[i]
                    == pre.source_stats@[i])
            &&& post.source_stats@[m].source_hash == pre.source_stats@[m].source_hash
            &&& post.source_stats@[m].stats.refuted_count == pre.source_stats@[
                m
            ].stats.refuted_count + 1
            &&& post.source_stats@[m].stats.total_proofs == pre.source_stats@[m].stats.total_proofs
            &&& post.source_stats@[m].stats.total_attestations == pre.source_stats@[
                m
            ].stats.total_attestations
            &&& post.source_stats@[m].stats.confidence_sum == pre.source_stats@[
                m
            ].stats.confidence_sum
            &&& post.source_stats@[m].stats.verified_count == pre.source_stats@[
                m
            ].stats.verified_count
            &&& post.source_stats@[m].stats.first_proof_height == pre.source_stats@[
                m
            ].stats.first_proof_height
            &&& post.source_stats@[m].stats.last_proof_height == pre.source_stats@[
                m
            ].stats.last_proof_height
        };

    assert forall|i: int| 0 <= i < post.proofs@.len() implies (
    #[trigger] post.proofs@[i].proof.proof_id@) == pre.proofs@[i].proof.proof_id@ && post.proofs@[
        i
    ].proof.intel_hash@ == pre.proofs@[i].proof.intel_hash@ && post.proofs@[i].proof.source_hash@
        == pre.proofs@[i].proof.source_hash@ by {
        if i != j {
            assert(post.proofs@[i] == pre.proofs@[i]);
        }
    }
    assert forall|i: int| 0 <= i < post.proofs@.len() implies entry_wf(#[trigger] post.proofs@[i]) by {
        assert(entry_wf(pre.proofs@[i]));
        if i != j {
            assert(post.proofs@[i] == pre.proofs@[i]);
        }
    }
    assert forall|i: int, i2: int| 0 <= i < i2 < post.proofs@.len() implies (
    #[trigger] post.proofs@[i].proof.proof_id@) != (#[trigger] post.proofs@[i2].proof.proof_id@) by {
        assert(pre.proofs@[i].proof.proof_id@ != pre.proofs@[i2].proof.proof_id@);
    }
    assert forall|i: int| 0 <= i < post.source_stats@.len() implies (
    #[trigger] post.source_stats@[i].source_hash@) == pre.source_stats@[i].source_hash@ by {
        if i != m {
            assert(post.source_stats@[i] == pre.source_stats@[i]);
        }
    }
    assert forall|i: int, i2: int| 0 <= i < i2 < post.source_stats@.len() implies (
    #[trigger] post.source_stats@[i].source_hash@) != (#[trigger] post.source_stats@[i2].source_hash@) by {
        assert(pre.source_stats@[i].source_hash@ != pre.source_stats@[i2].source_hash@);
    }
    assert forall|i: int, k: int|
        0 <= i < post.intel_proofs@.len() && 0 <= k < post.intel_proofs@[i].proof_ids@.len() implies listed_id_resolves(
        post.proofs@,
        (#[trigger] post.intel_proofs@[i].proof_ids@[k]@),
        post.intel_proofs@[i].intel_hash@,
    ) by {
        assert(listed_id_resolves(
            pre.proofs@,
            pre.intel_proofs@[i].proof_ids@[k]@,
            pre.intel_proofs@[i].intel_hash@,
        ));
        let p = choose|p: int|
            0 <= p < pre.proofs@.len() && (#[trigger] pre.proofs@[p].proof.proof_id@)
                == pre.intel_proofs@[i].proof_ids@[k]@ && pre.proofs@[p].proof.intel_hash@
                == pre.intel_proofs@[i].intel_hash@;
        assert(post.proofs@[p].proof.proof_id@ == pre.proofs@[p].proof.proof_id@);
    }
    assert forall|i: int| 0 <= i < post.proofs@.len() implies post.proof_linked(
        #[trigger] post.proofs@[i],
    ) by {
        assert(pre.proof_linked(pre.proofs@[i]));
        let j0 = choose|j0: int|
            0 <= j0 < pre.intel_proofs@.len() && (#[trigger] pre.intel_proofs@[j0].intel_hash@)
                == pre.proofs@[i].proof.intel_hash@ && contains_id(
                pre.intel_proofs@[j0].proof_ids@,
                pre.proofs@[i].proof.proof_id@,
            );
        assert(post.intel_proofs@[j0].intel_hash@ == post.proofs@[i].proof.intel_hash@);
        assert(contains_id(post.intel_proofs@[j0].proof_ids@, post.proofs@[i].proof.proof_id@));
        let m0 = choose|m0: int|
            0 <= m0 < pre.source_stats@.len() && (#[trigger] pre.source_stats@[m0].source_hash@)
                == pre.proofs@[i].proof.source_hash@;
        assert(post.source_stats@[m0].source_hash@ == post.proofs@[i].proof.source_hash@);
    }
    assert forall|i: int| 0 <= i < post.source_stats@.len() implies post.stats_bounded(
        #[trigger] post.source_stats@[i],
    ) by {
        assert(pre.stats_bounded(pre.source_stats@[i]));
        if i != m {
            assert(post.source_stats@[i] == pre.source_stats@[i]);
        }
    }
}

/// After the three updates of a registration the invariant holds again.
proof fn lemma_register_restores_wf(pre: IntelRegistry, post: IntelRegistry, p: ProofCommitment)
    requires
        pre.wf(),
        pre.total_proofs < u64::MAX,
        register_input_valid(
            p.proof_id@,
            p.commitment@,
            p.source_hash@,
            p.intel_hash@,
            p.public_inputs_hash@,
            p.metadata,
        ),
        !has_proof(pre.proofs@, p.proof_id@),
        p.status == VerificationStatus::Pending,
        p.attestation_count == 0,
        p.avg_confidence == 0,
        register_effect(pre, post, p),
    ensures
        post.wf(),
{
    let n = pre.proofs@.len() as int;

    // identifiers stay unique: the new identifier was absent
    assert forall|i: int, j: int| 0 <= i < j < post.proofs@.len() implies (
    #[trigger] post.proofs@[i].proof.proof_id@) != (#[trigger] post.proofs@[j].proof.proof_id@) by {
        if j < n {
            assert(pre.proofs@[i].proof.proof_id@ != pre.proofs@[j].proof.proof_id@);
        } else {
            assert(post.proofs@[j].proof == p);
            if post.proofs@[i].proof.proof_id@ == p.proof_id@ {
                assert(has_proof(pre.proofs@, p.proof_id@));
            }
        }
    }

    // every entry is well formed; the new one has an empty ledger
    assert forall|i: int| 0 <= i < post.proofs@.len() implies entry_wf(#[trigger] post.proofs@[i]) by {
        if i < n {
            assert(entry_wf(pre.proofs@[i]));
        } else {
            assert(post.proofs@[i].proof == p);
            assert(post.proofs@[i].attestations@.len() == 0);
        }
    }

    // the intel index still resolves, entry by entry
    assert forall|i: int, k: int|
        0 <= i < post.intel_proofs@.len() && 0 <= k < post.intel_proofs@[i].proof_ids@.len() implies listed_id_resolves(
        post.proofs@,
        (#[trigger] post.intel_proofs@[i].proof_ids@[k]@),
        post.intel_proofs@[i].intel_hash@,
    ) by {
        if has_intel(pre.intel_proofs@, p.intel_hash@) {
            let j = choose|j: int|
                {
                    &&& 0 <= j < pre.intel_proofs@.len()
                    &&& (#[trigger] pre.intel_proofs@[j].intel_hash@) == p.intel_hash@
                    &&& post.intel_proofs@.len() == pre.intel_proofs@.len()
                    &&& (forall|i2: int|
                        0 <= i2 < pre.intel_proofs@.len() && i2 != j ==> post.intel_proofs@[i2]
                            == pre.intel_proofs@[i2])
                    &&& post.intel_proofs@[j].intel_hash == pre.intel_proofs@[j].intel_hash
                    &&& post.intel_proofs@[j].proof_ids@.len() == pre.intel_proofs@[j].proof_ids@.len()
                        + 1
                    &&& (forall|k2: int|
                        0 <= k2 < pre.intel_proofs@[j].proof_ids@.len()
                            ==> post.intel_proofs@[j].proof_ids@[k2]
                            == pre.intel_proofs@[j].proof_ids@[k2])
                    &&& post.intel_proofs@[j].proof_ids@.last()@ == p.proof_id@
                };
            if i == j && k == post.intel_proofs@[j].proof_ids@.len() - 1 {
                assert(post.proofs@[n].proof.proof_id@ == p.proof_id@);
                assert(post.proofs@[n].proof.intel_hash@ == p.intel_hash@);
            } else {
                assert(post.intel_proofs@[i].proof_ids@[k] == pre.intel_proofs@[i].proof_ids@[k]);
                assert(listed_id_resolves(
                    pre.proofs@,
                    pre.intel_proofs@[i].proof_ids@[k]@,
                    pre.intel_proofs@[i].intel_hash@,
                ));
                let w = choose|w: int|
                    0 <= w < pre.proofs@.len() && (#[trigger] pre.proofs@[w].proof.proof_id@)
                        == pre.intel_proofs@[i].proof_ids@[k]@ && pre.proofs@[w].proof.intel_hash@
                        == pre.intel_proofs@[i].intel_hash@;
                assert(post.proofs@[w] == pre.proofs@[w]);
            }
        } else {
            if i == post.intel_proofs@.len() - 1 {
                assert(post.intel_proofs@[i].proof_ids@[k]@ == p.proof_id@);
                assert(post.proofs@[n].proof.proof_id@ == p.proof_id@);
            } else {
                assert(post.intel_proofs@[i] == pre.intel_proofs@[i]);
                assert(listed_id_resolves(
                    pre.proofs@,
                    pre.intel_proofs@[i].proof_ids@[k]@,
                    pre.intel_proofs@[i].intel_hash@,
                ));
                let w = choose|w: int|
                    0 <= w < pre.proofs@.len() && (#[trigger] pre.proofs@[w].proof.proof_id@)
                        == pre.intel_proofs@[i].proof_ids@[k]@ && pre.proofs@[w].proof.intel_hash@
                        == pre.intel_proofs@[i].intel_hash@;
                assert(post.proofs@[w] == pre.proofs@[w]);
            }
        }
    }

    // intel keys stay unique
    assert forall|i: int, j: int| 0 <= i < j < post.intel_proofs@.len() implies (
    #[trigger] post.intel_proofs@[i].intel_hash@) != (#[trigger] post.intel_proofs@[j].intel_hash@) by {
        if has_intel(pre.intel_proofs@, p.intel_hash@) {
        } else {
            if j == post.intel_proofs@.len() - 1 {
                assert(post.intel_proofs@[i] == pre.intel_proofs@[i]);
                if post.intel_proofs@[i].intel_hash@ == p.intel_hash@ {
                    assert(has_intel(pre.intel_proofs@, p.intel_hash@));
                }
            }
        }
    }

    // stats keys stay unique
    assert forall|i: int, j: int| 0 <= i < j < post.source_stats@.len() implies (
    #[trigger] post.source_stats@[i].source_hash@) != (#[trigger] post.source_stats@[j].source_hash@) by {
        if has_stats(pre.source_stats@, p.source_hash@) {
        } else {
            if j == post.source_stats@.len() - 1 {
                assert(post.source_stats@[i] == pre.source_stats@[i]);
                if post.source_stats@[i].source_hash@ == p.source_hash@ {
                    assert(has_stats(pre.source_stats@, p.source_hash@));
                }
            }
        }
    }

    // every proof is still linked and has stats
    assert forall|i: int| 0 <= i < post.proofs@.len() implies post.proof_linked(
        #[trigger] post.proofs@[i],
    ) by {
        let e = post.proofs@[i];
        if i < n {
            assert(pre.proof_linked(pre.proofs@[i]));
            assert(e == pre.proofs@[i]);
            let j0 = choose|j0: int|
                0 <= j0 < pre.intel_proofs@.len() && (#[trigger] pre.intel_proofs@[j0].intel_hash@)
                    == e.proof.intel_hash@ && contains_id(
                    pre.intel_proofs@[j0].proof_ids@,
                    e.proof.proof_id@,
                );
            let k0 = choose|k0: int|
                0 <= k0 < pre.intel_proofs@[j0].proof_ids@.len() && (
                #[trigger] pre.intel_proofs@[j0].proof_ids@[k0]@) == e.proof.proof_id@;
            lemma_intel_extended_keeps_entry(
                pre.intel_proofs@,
                post.intel_proofs@,
                p.intel_hash@,
                p.proof_id@,
                j0,
                k0,
            );
            let m0 = choose|m0: int|
                0 <= m0 < pre.source_stats@.len() && (#[trigger] pre.source_stats@[m0].source_hash@)
                    == e.proof.source_hash@;
            lemma_stats_after_register_keeps_key(
                pre.source_stats@,
                post.source_stats@,
                p.source_hash@,
                p.block_height,
                m0,
            );
        } else {
            assert(e.proof == p);
            lemma_intel_extended_links_new(
                pre.intel_proofs@,
                post.intel_proofs@,
                p.intel_hash@,
                p.proof_id@,
            );
            lemma_stats_after_register_has_key(
                pre.source_stats@,
                post.source_stats@,
                p.source_hash@,
                p.block_height,
            );
        }
    }

    // per-source counters stay bounded
    assert forall|i: int| 0 <= i < post.source_stats@.len() implies post.stats_bounded(
        #[trigger] post.source_stats@[i],
    ) by {
        if has_stats(pre.source_stats@, p.source_hash@) {
            let j = choose|j: int|
                {
                    &&& 0 <= j < pre.source_stats@.len()
                    &&& (#[trigger] pre.source_stats@[j].source_hash@) == p.source_hash@
                    &&& post.source_stats@.len() == pre.source_stats@.len()
                    &&& (forall|i2: int|
                        0 <= i2 < pre.source_stats@.len() && i2 != j ==> post.source_stats@[i2]
                            == pre.source_stats@[i2])
                    &&& post.source_stats@[j].source_hash == pre.source_stats@[j].source_hash
                    &&& post.source_stats@[j].stats.total_proofs == pre.source_stats@[j].stats.total_proofs
                        + 1
                    &&& post.source_stats@[j].stats.last_proof_height == p.block_height
                    &&& post.source_stats@[j].stats.first_proof_height
                        == pre.source_stats@[j].stats.first_proof_height
                    &&& post.source_stats@[j].stats.total_attestations
                        == pre.source_stats@[j].stats.total_attestations
                    &&& post.source_stats@[j].stats.confidence_sum
                        == pre.source_stats@[j].stats.confidence_sum
                    &&& post.source_stats@[j].stats.verified_count
                        == pre.source_stats@[j].stats.verified_count
                    &&& post.source_stats@[j].stats.refuted_count
                        == pre.source_stats@[j].stats.refuted_count
                };
            if i == j {
                assert(pre.stats_bounded(pre.source_stats@[j]));
            } else {
                assert(post.source_stats@[i] == pre.source_stats@[i]);
                assert(pre.stats_bounded(pre.source_stats@[i]));
            }
        } else {
            if i == post.source_stats@.len() - 1 {
            } else {
                assert(post.source_stats@[i] == pre.source_stats@[i]);
                assert(pre.stats_bounded(pre.source_stats@[i]));
            }
        }
    }
}

/// An intel entry untouched by `intel_extended` keeps its key and its
/// listed identifiers; the touched entry keeps its prefix.
proof fn lemma_intel_extended_keeps_entry(
    pre: Seq<IntelEntry>,
    post: Seq<IntelEntry>,
    key: Seq<char>,
    id: Seq<char>,
    j0: int,
    k0: int,
)
    requires
        intel_extended(pre, post, key, id),
        0 <= j0 < pre.len(),
        0 <= k0 < pre[j0].proof_ids@.len(),
    ensures
        exists|j: int|
            0 <= j < post.len() && (#[trigger] post[j].intel_hash@) == pre[j0].intel_hash@
                && contains_id(post[j].proof_ids@, pre[j0].proof_ids@[k0]@),
{
    if has_intel(pre, key) {
        let j = choose|j: int|
            {
                &&& 0 <= j < pre.len()
                &&& (#[trigger] pre[j].intel_hash@) == key
                &&& post.len() == pre.len()
                &&& (forall|i2: int| 0 <= i2 < pre.len() && i2 != j ==> post[i2] == pre[i2])
                &&& post[j].intel_hash == pre[j].intel_hash
                &&& post[j].proof_ids@.len() == pre[j].proof_ids@.len() + 1
                &&& (forall|k2: int|
                    0 <= k2 < pre[j].proof_ids@.len() ==> post[j].proof_ids@[k2]
                        == pre[j].proof_ids@[k2])
                &&& post[j].proof_ids@.last()@ == id
            };
        if j0 == j {
            assert(post[j0].proof_ids@[k0] == pre[j0].proof_ids@[k0]);
            assert(contains_id(post[j0].proof_ids@, pre[j0].proof_ids@[k0]@));
        } else {
            assert(post[j0] == pre[j0]);
            assert(contains_id(post[j0].proof_ids@, pre[j0].proof_ids@[k0]@));
        }
    } else {
        assert(post[j0] == pre[j0]);
        assert(contains_id(post[j0].proof_ids@, pre[j0].proof_ids@[k0]@));
    }
}

/// After `intel_extended`, `id` is listed under `key`.
proof fn lemma_intel_extended_links_new(
    pre: Seq<IntelEntry>,
    post: Seq<IntelEntry>,
    key: Seq<char>,
    id: Seq<char>,
)
    requires
        intel_extended(pre, post, key, id),
    ensures
        exists|j: int|
            0 <= j < post.len() && (#[trigger] post[j].intel_hash@) == key && contains_id(
                post[j].proof_ids@,
                id,
            ),
{
    if has_intel(pre, key) {
        let j = choose|j: int|
            {
                &&& 0 <= j < pre.len()
                &&& (#[trigger] pre[j].intel_hash@) == key
                &&& post.len() == pre.len()
                &&& (forall|i2: int| 0 <= i2 < pre.len() && i2 != j ==> post[i2] == pre[i2])
                &&& post[j].intel_hash == pre[j].intel_hash
                &&& post[j].proof_ids@.len() == pre[j].proof_ids@.len() + 1
                &&& (forall|k2: int|
                    0 <= k2 < pre[j].proof_ids@.len() ==> post[j].proof_ids@[k2]
                        == pre[j].proof_ids@[k2])
                &&& post[j].proof_ids@.last()@ == id
            };
        let last = post[j].proof_ids@.len() - 1;
        assert(post[j].proof_ids@[last]@ == id);
        assert(contains_id(post[j].proof_ids@, id));
    } else {
        let last = post.len() - 1;
        assert(post[last].proof_ids@[0]@ == id);
        assert(contains_id(post[last].proof_ids@, id));
    }
}

/// A stats key present before `stats_after_register` is still present.
proof fn lemma_stats_after_register_keeps_key(
    pre: Seq<StatsEntry>,
    post: Seq<StatsEntry>,
    key: Seq<char>,
    height: u64,
    m0: int,
)
    requires
        stats_after_register(pre, post, key, height),
        0 <= m0 < pre.len(),
    ensures
        has_stats(post, pre[m0].source_hash@),
{
    if has_stats(pre, key) {
        let j = choose|j: int|
            {
                &&& 0 <= j < pre.len()
                &&& (#[trigger] pre[j].source_hash@) == key
                &&& post.len() == pre.len()
                &&& (forall|i2: int| 0 <= i2 < pre.len() && i2 != j ==> post[i2] == pre[i2])
                &&& post[j].source_hash == pre[j].source_hash
                &&& post[j].stats.total_proofs == pre[j].stats.total_proofs + 1
                &&& post[j].stats.last_proof_height == height
                &&& post[j].stats.first_proof_height == pre[j].stats.first_proof_height
                &&& post[j].stats.total_attestations == pre[j].stats.total_attestations
                &&& post[j].stats.confidence_sum == pre[j].stats.confidence_sum
                &&& post[j].stats.verified_count == pre[j].stats.verified_count
                &&& post[j].stats.refuted_count == pre[j].stats.refuted_count
            };
        if m0 == j {
            assert(post[j].source_hash@ == pre[m0].source_hash@);
        } else {
            assert(post[m0] == pre[m0]);
        }
    } else {
        assert(post[m0] == pre[m0]);
    }
}

/// After `stats_after_register`, `key` has a stats entry.
proof fn lemma_stats_after_register_has_key(
    pre: Seq<StatsEntry>,
    post: Seq<StatsEntry>,
    key: Seq<char>,
    height: u64,
)
    requires
        stats_after_register(pre, post, key, height),
    ensures
        has_stats(post, key),
{
    if has_stats(pre, key) {
        let j = choose|j: int|
            {
                &&& 0 <= j < pre.len()
                &&& (#[trigger] pre[j].source_hash@) == key
                &&& post.len() == pre.len()
                &&& (forall|i2: int| 0 <= i2 < pre.len() && i2 != j ==> post[i2] == pre[i2])
                &&& post[j].source_hash == pre[j].source_hash
                &&& post[j].stats.total_proofs == pre[j].stats.total_proofs + 1
                &&& post[j].stats.last_proof_height == height
                &&& post[j].stats.first_proof_height == pre[j].stats.first_proof_height
                &&& post[j].stats.total_attestations == pre[j].stats.total_attestations
                &&& post[j].stats.confidence_sum == pre[j].stats.confidence_sum
                &&& post[j].stats.verified_count == pre[j].stats.verified_count
                &&& post[j].stats.refuted_count == pre[j].stats.refuted_count
            };
        assert(post[j].source_hash@ == key);
    } else {
        assert(post[post.len() - 1].source_hash@ == key);
    }
}

// ---------------------------------------------------------------------------
// Queries
// ---------------------------------------------------------------------------

impl IntelRegistry {
    /// The identifiers listed under intel hash `key`; meaningful under
    /// `wf` and `has_intel`.
    pub open spec fn spec_intel_ids(self, key: Seq<char>) -> Seq<String> {
        self.intel_proofs@[choose|i: int|
            0 <= i < self.intel_proofs@.len() && (#[trigger] self.intel_proofs@[i].intel_hash@)
                == key].proof_ids@
    }

    /// The proof registered under `proof_id`, if any.
    pub fn get_proof(&self, proof_id: String) -> (r: Option<ProofCommitment>)
        requires
            self.wf(),
        ensures
            r is Some <==> has_proof(self.proofs@, proof_id@),
            r matches Some(p) ==> p == self.spec_proof_of(proof_id@),
    {
        match self.find_proof(&proof_id) {
            Some(j) => {
                proof {
                    let w = proof_index(self.proofs@, proof_id@);
                    assert(0 <= w < self.proofs@.len() && self.proofs@[w].proof.proof_id@
                        == proof_id@);
                    if w != j as int {
                        assert(false);
                    }
                }
                Some(self.proofs[j].proof.clone())
            },
            None => None,
        }
    }

    /// The proof registered under `proof_id` together with its full live
    /// attestation list, in ledger order.
    pub fn get_proof_with_attestations(&self, proof_id: String) -> (r: Option<
        ProofWithAttestations,
    >)
        requires
            self.wf(),
        ensures
            r is Some <==> has_proof(self.proofs@, proof_id@),
            r matches Some(pwa) ==> pwa.proof == self.spec_proof_of(proof_id@)
                && pwa.attestations@ == self.spec_ledger_of(proof_id@),
    {
        match self.find_proof(&proof_id) {
            Some(j) => {
                proof {
                    let w = proof_index(self.proofs@, proof_id@);
                    assert(0 <= w < self.proofs@.len() && self.proofs@[w].proof.proof_id@
                        == proof_id@);
                    if w != j as int {
                        assert(false);
                    }
                }
                let atts = self.proofs[j].attestations.clone();
                proof {
                    assert forall|i: int| 0 <= i < atts@.len() implies atts@[i] == self.proofs@[
                        j as int
                    ].attestations@[i] by {
                        assert(cloned::<Attestation>(
                            self.proofs@[j as int].attestations@[i],
                            atts@[i],
                        ));
                    }
                    assert(atts@ =~= self.proofs@[j as int].attestations@);
                }
                Some(ProofWithAttestations { proof: self.proofs[j].proof.clone(), attestations: atts })
            },
            None => None,
        }
    }

    /// All proofs registered for `intel_hash`, in registration order.
    pub fn get_intel_proofs(&self, intel_hash: String) -> (r: Vec<ProofCommitment>)
        requires
            self.wf(),
        ensures
            !has_intel(self.intel_proofs@, intel_hash@) ==> r@.len() == 0,
            has_intel(self.intel_proofs@, intel_hash@) ==> {
                let ids = self.spec_intel_ids(intel_hash@);
                &&& r@.len() == ids.len()
                &&& forall|k: int| 0 <= k < ids.len() ==> (#[trigger] r@[k]) == self.spec_proof_of(
                    ids[k]@,
                )
            },
    {
        let j = match self.find_intel(&intel_hash) {
            Some(j) => j,
            None => {
                return Vec::new();
            },
        };
        proof {
            let w = choose|i: int|
                0 <= i < self.intel_proofs@.len() && (#[trigger] self.intel_proofs@[i].intel_hash@)
                    == intel_hash@;
            if w != j as int {
                assert(false);
            }
            assert(self.spec_intel_ids(intel_hash@) == self.intel_proofs@[j as int].proof_ids@);
        }
        let n = self.intel_proofs[j].proof_ids.len();
        let mut out: Vec<ProofCommitment> = Vec::new();
        let mut k: usize = 0;
        while k < n
            invariant
                self.wf(),
                j < self.intel_proofs@.len(),
                self.intel_proofs@[j as int].intel_hash@ == intel_hash@,
                n == self.intel_proofs@[j as int].proof_ids@.len(),
                0 <= k <= n,
                out@.len() == k,
                forall|i: int|
                    0 <= i < k ==> (#[trigger] out@[i]) == self.spec_proof_of(
                        self.intel_proofs@[j as int].proof_ids@[i]@,
                    ),
            decreases n - k,
        {
            proof {
                assert(listed_id_resolves(
                    self.proofs@,
                    self.intel_proofs@[j as int].proof_ids@[k as int]@,
                    self.intel_proofs@[j as int].intel_hash@,
                ));
            }
            let w = match self.find_proof(&self.intel_proofs[j].proof_ids[k]) {
                Some(w) => w,
                None => {
                    vstd::pervasive::unreached()
                },
            };
            proof {
                let c = proof_index(self.proofs@, self.intel_proofs@[j as int].proof_ids@[k as int]@);
                assert(0 <= c < self.proofs@.len() && self.proofs@[c].proof.proof_id@
                    == self.intel_proofs@[j as int].proof_ids@[k as int]@);
                if c != w as int {
                    assert(false);
                }
            }
            out.push(self.proofs[w].proof.clone());
            k += 1;
        }
        proof {
            assert(self.spec_intel_ids(intel_hash@) == self.intel_proofs@[j as int].proof_ids@);
        }
        out
    }

    /// The rolling counters of `source_hash`, if that source was ever
    /// referenced.
    pub fn get_source_stats(&self, source_hash: String) -> (r: Option<SourceStats>)
        requires
            self.wf(),
        ensures
            r is Some <==> has_stats(self.source_stats@, source_hash@),
            r matches Some(s) ==> s == self.spec_stats_of(source_hash@),
    {
        match self.find_stats(&source_hash) {
            Some(m) => {
                proof {
                    let w = choose|i: int|
                        0 <= i < self.source_stats@.len() && (
                        #[trigger] self.source_stats@[i].source_hash@) == source_hash@;
                    if w != m as int {
                        assert(false);
                    }
                }
                Some(self.source_stats[m].stats.clone())
            },
            None => None,
        }
    }

    /// Whether a commitment computed off-platform matches the one stored
    /// under `proof_id`. `false` for an unknown proof.
    pub fn verify_commitment(&self, proof_id: String, computed_commitment: String) -> (r: bool)
        requires
            self.wf(),
        ensures
            r == (has_proof(self.proofs@, proof_id@) && self.spec_proof_of(proof_id@).commitment@
                == computed_commitment@),
    {
        match self.find_proof(&proof_id) {
            Some(j) => {
                proof {
                    let w = proof_index(self.proofs@, proof_id@);
                    assert(0 <= w < self.proofs@.len() && self.proofs@[w].proof.proof_id@
                        == proof_id@);
                    if w != j as int {
                        assert(false);
                    }
                }
                self.proofs[j].proof.commitment == computed_commitment
            },
            None => false,
        }
    }

    /// The global counters: proofs ever registered and first-time
    /// attestations ever recorded.
    pub fn get_stats(&self) -> (r: (u64, u64))
        ensures
            r.0 == self.total_proofs,
            r.1 == self.total_attestations,
    {
        (self.total_proofs, self.total_attestations)
    }

    /// The registry owner.
    pub fn get_owner(&self) -> (r: String)
        ensures
            r == self.owner,
    {
        self.owner.clone()
    }
}

// ---------------------------------------------------------------------------
// Laws
// ---------------------------------------------------------------------------

/// The aggregate fields of every stored proof mirror its live ledger: the
/// attestation count equals the ledger's size and the average confidence
/// equals the floor of the mean of the live confidences (0 if there are
/// none). This holds in every reachable registry state, so in particular
/// after every successful attest call.
pub proof fn lemma_aggregates_mirror_ledger(r: IntelRegistry, id: Seq<char>)
    requires
        r.wf(),
        has_proof(r.proofs@, id),
    ensures
        r.spec_proof_of(id).attestation_count == r.spec_ledger_of(id).len(),
        r.spec_proof_of(id).avg_confidence == spec_avg_confidence(r.spec_ledger_of(id)),
{
    let j = proof_index(r.proofs@, id);
    assert(0 <= j < r.proofs@.len() && r.proofs@[j].proof.proof_id@ == id);
    assert(entry_wf(r.proofs@[j]));
}

/// Two attest calls by the same attestor on the same proof: the second
/// call replaces the first attestation in place. The ledger's size, the
/// proof's attestation count and the global attestation counter are
/// unchanged by the second call, while the average confidence is derived
/// from the ledger in which the replacement took part.
pub proof fn lemma_repeat_attestor_replaces(
    s0: IntelRegistry,
    s1: IntelRegistry,
    s2: IntelRegistry,
    a1: Attestation,
    a2: Attestation,
    pid: Seq<char>,
)
    requires
        s0.wf(),
        s1.wf(),
        has_proof(s0.proofs@, pid),
        a1.attestor@ == a2.attestor@,
        attest_effect(s0, s1, a1, pid),
        attest_effect(s1, s2, a2, pid),
    ensures
        s2.spec_ledger_of(pid).len() == s1.spec_ledger_of(pid).len(),
        s2.spec_proof_of(pid).attestation_count == s1.spec_proof_of(pid).attestation_count,
        s2.total_attestations == s1.total_attestations,
        has_attestor(s1.spec_ledger_of(pid), a2.attestor@),
        attest_applied(s1.spec_ledger_of(pid), s2.spec_ledger_of(pid), a2),
        s2.spec_proof_of(pid).avg_confidence == spec_avg_confidence(s2.spec_ledger_of(pid)),
{
    let j1 = choose|j: int|
        0 <= j < s0.proofs@.len() && (#[trigger] s0.proofs@[j].proof.proof_id@) == pid
            && attest_effect_at(s0, s1, a1, pid, j);
    assert(0 <= j1 < s0.proofs@.len() && s0.proofs@[j1].proof.proof_id@ == pid
        && attest_effect_at(s0, s1, a1, pid, j1));

    // after the first call, the attestor is present in the ledger
    let led1 = s1.proofs@[j1].attestations@;
    if has_attestor(s0.proofs@[j1].attestations@, a1.attestor@) {
        let w = choose|i: int|
            0 <= i < s0.proofs@[j1].attestations@.len() && (#[trigger] s0.proofs@[
                j1
            ].attestations@[i].attestor@) == a1.attestor@;
        assert(led1[w] == a1);
        assert(has_attestor(led1, a1.attestor@));
    } else {
        assert(led1 == s0.proofs@[j1].attestations@.push(a1));
        assert(led1[led1.len() - 1] == a1);
        assert(has_attestor(led1, a1.attestor@));
    }

    // the witness of the second call is the same entry, by uniqueness in s1
    let j2 = choose|j: int|
        0 <= j < s1.proofs@.len() && (#[trigger] s1.proofs@[j].proof.proof_id@) == pid
            && attest_effect_at(s1, s2, a2, pid, j);
    assert(0 <= j2 < s1.proofs@.len() && s1.proofs@[j2].proof.proof_id@ == pid
        && attest_effect_at(s1, s2, a2, pid, j2));
    assert(s1.proofs@[j1].proof.proof_id@ == pid);
    if j2 != j1 {
        assert(false);
    }

    // by uniqueness, the choose-based views agree with the witnesses
    let w1 = proof_index(s1.proofs@, pid);
    assert(0 <= w1 < s1.proofs@.len() && s1.proofs@[w1].proof.proof_id@ == pid);
    if w1 != j1 {
        assert(false);
    }
    let w2 = proof_index(s2.proofs@, pid);
    assert(s2.proofs@[j1].proof.proof_id@ == pid);
    assert(has_proof(s2.proofs@, pid));
    assert(0 <= w2 < s2.proofs@.len() && s2.proofs@[w2].proof.proof_id@ == pid);
    if w2 != j1 {
        assert(s2.proofs@[w2].proof.proof_id@ == s1.proofs@[w2].proof.proof_id@);
        assert(false);
    }

    assert(has_attestor(led1, a2.attestor@));
    assert(s2.proofs@[j1].attestations@.len() == led1.len());
}

/// The body of `attest_effect` for one fixed entry index, so that laws
/// can name the witness.
pub open spec fn attest_effect_at(
    pre: IntelRegistry,
    post: IntelRegistry,
    att: Attestation,
    pid: Seq<char>,
    j: int,
) -> bool {
    let e = pre.proofs@[j];
    let e2 = post.proofs@[j];
    let newly = !has_attestor(e.attestations@, att.attestor@);
    &&& post.proofs@.len() == pre.proofs@.len()
    &&& (forall|i: int| 0 <= i < pre.proofs@.len() && i != j ==> post.proofs@[i] == pre.proofs@[i])
    &&& attest_applied(e.attestations@, e2.attestations@, att)
    &&& e2.proof.proof_id == e.proof.proof_id
    &&& e2.proof.commitment == e.proof.commitment
    &&& e2.proof.proof_type == e.proof.proof_type
    &&& e2.proof.source_hash == e.proof.source_hash
    &&& e2.proof.intel_hash == e.proof.intel_hash
    &&& e2.proof.public_inputs_hash == e.proof.public_inputs_hash
    &&& e2.proof.block_height == e.proof.block_height
    &&& e2.proof.timestamp_ns == e.proof.timestamp_ns
    &&& e2.proof.metadata == e.proof.metadata
    &&& e2.proof.attestation_count == e.proof.attestation_count + (if newly {
        1int
    } else {
        0int
    })
    &&& e2.proof.avg_confidence == spec_avg_confidence(e2.attestations@)
    &&& e2.proof.status == spec_status_rule(
        e2.attestations@.len() as int,
        e2.proof.avg_confidence as int,
    )
    &&& post.total_proofs == pre.total_proofs
    &&& post.total_attestations == pre.total_attestations + (if newly {
        1int
    } else {
        0int
    })
    &&& post.owner == pre.owner
    &&& post.intel_proofs@ == pre.intel_proofs@
    &&& stats_after_attest(
        pre.source_stats@,
        post.source_stats@,
        e.proof.source_hash@,
        newly,
        att.confidence,
        e2.proof.status == VerificationStatus::Verified,
    )
}

// ---------------------------------------------------------------------------
// Recency query
// ---------------------------------------------------------------------------

/// Heights never increase along `s`.
pub open spec fn sorted_desc_by_height(s: Seq<ProofCommitment>) -> bool {
    forall|i: int, j: int|
        0 <= i < j < s.len() ==> (#[trigger] s[i].block_height) >= (#[trigger] s[j].block_height)
}

/// The stored commitments, in registration order.
pub open spec fn all_commitments(proofs: Seq<ProofEntry>) -> Seq<ProofCommitment> {
    proofs.map_values(|e: ProofEntry| e.proof)
}

impl IntelRegistry {
    /// The most recent proofs: all stored commitments sorted by
    /// descending height, truncated to at most `limit`. Which of two
    /// proofs at the same height comes first is not pinned down.
    pub fn get_recent_proofs(&self, limit: u64) -> (r: Vec<ProofCommitment>)
        ensures
            r@.len() == if (limit as int) < self.proofs@.len() as int {
                limit as int
            } else {
                self.proofs@.len() as int
            },
            sorted_desc_by_height(r@),
            exists|full: Seq<ProofCommitment>|
                {
                    &&& (#[trigger] full.to_multiset()) == all_commitments(
                        self.proofs@,
                    ).to_multiset()
                    &&& sorted_desc_by_height(full)
                    &&& r@ == full.take(r@.len() as int)
                },
    {
        broadcast use vstd::seq_lib::group_to_multiset_ensures;
        broadcast use vstd::multiset::group_multiset_axioms;

        let n = self.proofs.len();
        let mut work: Vec<ProofCommitment> = Vec::new();
        let mut i: usize = 0;
        while i < n
            invariant
                n == self.proofs@.len(),
                0 <= i <= n,
                work@.len() == i,
                forall|k: int| 0 <= k < i ==> (#[trigger] work@[k]) == self.proofs@[k].proof,
            decreases n - i,
        {
            work.push(self.proofs[i].proof.clone());
            i += 1;
        }
        proof {
            assert(work@ =~= all_commitments(self.proofs@));
        }
        let ghost everything = all_commitments(self.proofs@);

        let mut out: Vec<ProofCommitment> = Vec::new();
        while work.len() > 0
            invariant
                out@.to_multiset().add(work@.to_multiset()) == everything.to_multiset(),
                sorted_desc_by_height(out@),
                forall|a: int, b: int|
                    0 <= a < out@.len() && 0 <= b < work@.len() ==> (
                    #[trigger] out@[a].block_height) >= (#[trigger] work@[b].block_height),
                out@.len() + work@.len() == everything.len(),
            decreases work.len(),
        {
            let m = work.len();
            let mut best: usize = 0;
            let mut k: usize = 1;
            while k < m
                invariant
                    m == work@.len(),
                    0 < m,
                    best < m,
                    1 <= k <= m,
                    forall|b: int|
                        0 <= b < k ==> work@[best as int].block_height >= (
                        #[trigger] work@[b].block_height),
                decreases m - k,
            {
                if work[k].block_height > work[best].block_height {
                    best = k;
                }
                k += 1;
            }
            let ghost pre_out = out@;
            let ghost pre_work = work@;
            let x = work.remove(best);
            out.push(x);
            proof {
                pre_work.to_multiset_ensures();
                pre_out.to_multiset_ensures();
                assert(pre_work[best as int] == x);
                assert(pre_work.contains(x));
                assert(pre_work.to_multiset().count(x) > 0);
                assert(work@.to_multiset() =~= pre_work.to_multiset().remove(x));
                assert(out@.to_multiset() =~= pre_out.to_multiset().insert(x));
                assert forall|e: ProofCommitment|
                    out@.to_multiset().add(work@.to_multiset()).count(e)
                        == everything.to_multiset().count(e) by {
                    assert(pre_out.to_multiset().add(pre_work.to_multiset()).count(e)
                        == everything.to_multiset().count(e));
                }
                assert(out@.to_multiset().add(work@.to_multiset()) =~= everything.to_multiset());
                // the popped maximum dominates what is left
                assert forall|a: int, b: int|
                    0 <= a < out@.len() && 0 <= b < work@.len() implies (
                #[trigger] out@[a].block_height) >= (#[trigger] work@[b].block_height) by {
                    let wb = if b < best as int {
                        pre_work[b]
                    } else {
                        pre_work[b + 1]
                    };
                    assert(work@[b] == wb);
                    if a < pre_out.len() {
                        assert(out@[a] == pre_out[a]);
                    } else {
                        assert(out@[a] == x);
                        assert(x.block_height >= wb.block_height);
                    }
                }
                assert(sorted_desc_by_height(out@));
            }
        }

        let ghost full = out@;
        if (out.len() as u64) > limit {
            out.truncate(limit as usize);
        }
        proof {
            if everything.len() <= limit as int {
                assert(out@ =~= full.take(out@.len() as int));
            }
            assert((full.to_multiset()) == all_commitments(self.proofs@).to_multiset()
                && sorted_desc_by_height(full) && out@ == full.take(out@.len() as int));
        }
        out
    }
}

// ---------------------------------------------------------------------------
// Lookup helpers
// ---------------------------------------------------------------------------

impl IntelRegistry {
    /// Index of the proof with identifier `id`, if any.
    fn find_proof(&self, id: &String) -> (r: Option<usize>)
        ensures
            match r {
                Some(j) => j < self.proofs@.len() && self.proofs@[j as int].proof.proof_id@ == id@
                    && has_proof(self.proofs@, id@),
                None => !has_proof(self.proofs@, id@),
            },
    {
        let n = self.proofs.len();
        let mut i: usize = 0;
        while i < n
            invariant
                n == self.proofs@.len(),
                0 <= i <= n,
                forall|k: int| 0 <= k < i ==> (#[trigger] self.proofs@[k].proof.proof_id@) != id@,
            decreases n - i,
        {
            if self.proofs[i].proof.proof_id == *id {
                return Some(i);
            }
            i += 1;
        }
        None
    }

    /// Index of the intel entry keyed by `key`, if any.
    fn find_intel(&self, key: &String) -> (r: Option<usize>)
        ensures
            match r {
                Some(j) => j < self.intel_proofs@.len() && self.intel_proofs@[j as int].intel_hash@
                    == key@ && has_intel(self.intel_proofs@, key@),
                None => !has_intel(self.intel_proofs@, key@),
            },
    {
        let n = self.intel_proofs.len();
        let mut i: usize = 0;
        while i < n
            invariant
                n == self.intel_proofs@.len(),
                0 <= i <= n,
                forall|k: int| 0 <= k < i ==> (#[trigger] self.intel_proofs@[k].intel_hash@) != key@,
            decreases n - i,
        {
            if self.intel_proofs[i].intel_hash == *key {
                return Some(i);
            }
            i += 1;
        }
        None
    }

    /// Index of the stats entry keyed by `key`, if any.
    fn find_stats(&self, key: &String) -> (r: Option<usize>)
        ensures
            match r {
                Some(j) => j < self.source_stats@.len() && self.source_stats@[j as int].source_hash@
                    == key@ && has_stats(self.source_stats@, key@),
                None => !has_stats(self.source_stats@, key@),
            },
    {
        let n = self.source_stats.len();
        let mut i: usize = 0;
        while i < n
            invariant
                n == self.source_stats@.len(),
                0 <= i <= n,
                forall|k: int| 0 <= k < i ==> (#[trigger] self.source_stats@[k].source_hash@) != key@,
            decreases n - i,
        {
            if self.source_stats[i].source_hash == *key {
                return Some(i);
            }
            i += 1;
        }
        None
    }
}

} // verus!
