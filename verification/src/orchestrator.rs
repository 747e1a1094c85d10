//! The batch orchestrator: one batch is evaluated as a whole, terminal on
//! first failure. Executed headers are collected in block order, the
//! chaining inputs are resolved (a proof bundle verified against the last
//! header's state root, or the no-chaining defaults), and the commitment is
//! assembled from the Merkle root of the state roots chained to the previous
//! batch's hash. No partial commitment is ever produced.

use vstd::prelude::*;
use crate::bytes::clone_bytes;
use crate::bytes::zero_bytes;
use crate::codec::PublicCommitment;
use crate::executor::{collect_state_roots, state_roots_of, ExecutedHeader};
use crate::hashing::{chain_spec, compute_batch_hash};
use crate::inclusion::{extract_counters, proof_ok, word_fits_u64, word_u64, AccountProof};
use crate::merkle::{merkle_root, merkle_root_spec, zero_word};

verus! {

/// The chaining inputs of a batch: either absent — no chaining, counters
/// default to zero — or the previous batch's commitment hash together with
/// the proof bundle to be verified against the last executed header's state
/// root.
#[derive(Clone, Debug)]
pub enum ChainingInput {
    Absent,
    Present { prev_batch_hash: Vec<u8>, proof: AccountProof },
}

impl ChainingInput {
    /// A present previous hash is a 32-byte word and its bundle well-formed.
    pub open spec fn wf(&self) -> bool {
        match self {
            ChainingInput::Absent => true,
            ChainingInput::Present { prev_batch_hash, proof } => prev_batch_hash@.len() == 32
                && proof.wf(),
        }
    }
}

/// Why a batch evaluation failed. Every failure is fatal for the whole
/// batch; nothing is retried inside the core.
#[derive(Clone, Copy, Debug, PartialEq, Eq, Structural)]
pub enum BatchError {
    /// The requested range contains no blocks; detected before anything
    /// else.
    EmptyRange,
    /// The previous batch's hash was needed for chaining but not supplied.
    MissingPreviousHash,
    /// The chaining proof bundle does not reconstruct the last executed
    /// header's state root.
    ProofVerification,
    /// A counter read from a verified storage slot is wider than 64 bits.
    CounterOverflow,
    /// The endpoints of the requested range resolve to different batches.
    RangeMismatch,
}

/// The previous-batch hash a chaining input supplies: the all-zero word for
/// the first batch, the carried hash otherwise.
pub open spec fn prev_hash_of(chaining: ChainingInput) -> Seq<u8> {
    match chaining {
        ChainingInput::Absent => zero_word(),
        ChainingInput::Present { prev_batch_hash, proof } => prev_batch_hash@,
    }
}

/// Whether the chaining proof checks out against the last header's state
/// root; absent chaining has nothing to check.
pub open spec fn chaining_ok(chaining: ChainingInput, last_state_root: Seq<u8>) -> bool {
    match chaining {
        ChainingInput::Absent => true,
        ChainingInput::Present { prev_batch_hash, proof } => proof_ok(proof, last_state_root),
    }
}

/// Whether both counter slots, where present, hold values that fit 64 bits.
pub open spec fn counters_fit(chaining: ChainingInput) -> bool {
    match chaining {
        ChainingInput::Absent => true,
        ChainingInput::Present { prev_batch_hash, proof } => {
            &&& (proof.storage_proofs@.len() < 1 || word_fits_u64(proof.storage_proofs@[0].value@))
            &&& (proof.storage_proofs@.len() < 2 || word_fits_u64(proof.storage_proofs@[1].value@))
        },
    }
}

/// The ethereum-side counter a chaining input supplies: the value of slot 0,
/// or zero when absent.
pub open spec fn eth_count_of(chaining: ChainingInput) -> nat {
    match chaining {
        ChainingInput::Absent => 0,
        ChainingInput::Present { prev_batch_hash, proof } => if proof.storage_proofs@.len() >= 1 {
            word_u64(proof.storage_proofs@[0].value@)
        } else {
            0
        },
    }
}

/// The solana-side counter a chaining input supplies: the value of slot 1,
/// or zero when absent.
pub open spec fn sol_count_of(chaining: ChainingInput) -> nat {
    match chaining {
        ChainingInput::Absent => 0,
        ChainingInput::Present { prev_batch_hash, proof } => if proof.storage_proofs@.len() >= 2 {
            word_u64(proof.storage_proofs@[1].value@)
        } else {
            0
        },
    }
}

/// The batch hash owed for the given headers and chaining input: the Merkle
/// root of the state roots in block order, chained to the previous batch's
/// hash.
pub open spec fn batch_hash_of(headers: Seq<ExecutedHeader>, chaining: ChainingInput) -> Seq<u8> {
    chain_spec(merkle_root_spec(state_roots_of(headers)), prev_hash_of(chaining))
}

/// Evaluates one batch: verifies the chaining proof against the last
/// header's state root, reads the counters, and assembles the commitment.
/// Succeeds exactly when the batch is nonempty, the proof (if present)
/// checks out, and the counters fit; the commitment's batch hash is then a
/// pure function of the ordered state roots and the previous batch's hash.
pub fn evaluate_batch(headers: &Vec<ExecutedHeader>, chaining: &ChainingInput) -> (r: Result<
    PublicCommitment,
    BatchError,
>)
    requires
        chaining.wf(),
        forall|i: int| 0 <= i < headers@.len() ==> (#[trigger] headers@[i]).wf(),
    ensures
        r is Ok <==> (headers@.len() > 0 && chaining_ok(
            *chaining,
            headers@.last().state_root@,
        ) && counters_fit(*chaining)),
        r == Err::<PublicCommitment, BatchError>(BatchError::EmptyRange) <==> headers@.len() == 0,
        headers@.len() > 0 ==> (r == Err::<PublicCommitment, BatchError>(
            BatchError::ProofVerification,
        ) <==> !chaining_ok(*chaining, headers@.last().state_root@)),
        (headers@.len() > 0 && chaining_ok(*chaining, headers@.last().state_root@)) ==> (r
            == Err::<PublicCommitment, BatchError>(BatchError::CounterOverflow) <==> !counters_fit(
            *chaining,
        )),
        r matches Ok(c) ==> {
            &&& c.wf()
            &&& c.prev_batch_hash@ == prev_hash_of(*chaining)
            &&& c.batch_hash@ == batch_hash_of(headers@, *chaining)
            &&& c.ethereum_message_count == eth_count_of(*chaining)
            &&& c.solana_message_count == sol_count_of(*chaining)
        },
{
    if headers.len() == 0 {
        return Err(BatchError::EmptyRange);
    }
    let last_index = headers.len() - 1;
    let prev_hash: Vec<u8>;
    let eth_count: u64;
    let sol_count: u64;
    match chaining {
        ChainingInput::Absent => {
            prev_hash = zero_bytes(32);
            assert(prev_hash@ =~= zero_word());
            eth_count = 0;
            sol_count = 0;
        },
        ChainingInput::Present { prev_batch_hash, proof } => {
            match proof.verify(&headers[last_index].state_root) {
                Ok(_) => {},
                Err(_) => {
                    return Err(BatchError::ProofVerification);
                },
            }
            match extract_counters(&proof.storage_proofs) {
                Some(c) => {
                    prev_hash = clone_bytes(prev_batch_hash);
                    eth_count = c.0;
                    sol_count = c.1;
                },
                None => {
                    return Err(BatchError::CounterOverflow);
                },
            }
        },
    }
    let roots = collect_state_roots(headers);
    let root = merkle_root(&roots);
    let batch_hash = compute_batch_hash(&root, &prev_hash);
    Ok(
        PublicCommitment {
            prev_batch_hash: prev_hash,
            batch_hash,
            ethereum_message_count: eth_count,
            solana_message_count: sol_count,
        },
    )
}

/// Evaluates one batch and serializes the commitment for the proving
/// backend: the encoded bytes are the eighty-byte packed layout of the
/// commitment that `evaluate_batch` owes for the same inputs.
pub fn evaluate_and_encode(headers: &Vec<ExecutedHeader>, chaining: &ChainingInput) -> (r: Result<
    Vec<u8>,
    BatchError,
>)
    requires
        chaining.wf(),
        forall|i: int| 0 <= i < headers@.len() ==> (#[trigger] headers@[i]).wf(),
    ensures
        r is Ok <==> (headers@.len() > 0 && chaining_ok(
            *chaining,
            headers@.last().state_root@,
        ) && counters_fit(*chaining)),
        r == Err::<Vec<u8>, BatchError>(BatchError::EmptyRange) <==> headers@.len() == 0,
        headers@.len() > 0 ==> (r == Err::<Vec<u8>, BatchError>(BatchError::ProofVerification)
            <==> !chaining_ok(*chaining, headers@.last().state_root@)),
        (headers@.len() > 0 && chaining_ok(*chaining, headers@.last().state_root@)) ==> (r
            == Err::<Vec<u8>, BatchError>(BatchError::CounterOverflow) <==> !counters_fit(
            *chaining,
        )),
        r matches Ok(bytes) ==> {
            &&& bytes@.len() == 80
            &&& bytes@.subrange(0, 32) == prev_hash_of(*chaining)
            &&& bytes@.subrange(32, 64) == batch_hash_of(headers@, *chaining)
            &&& crate::bytes::be_val(bytes@.subrange(64, 72)) == eth_count_of(*chaining)
            &&& crate::bytes::be_val(bytes@.subrange(72, 80)) == sol_count_of(*chaining)
        },
{
    match evaluate_batch(headers, chaining) {
        Ok(c) => {
            let bytes = c.abi_encode_packed();
            proof {
                crate::codec::lemma_codec_round_trip(c);
            }
            Ok(bytes)
        },
        Err(e) => Err(e),
    }
}

/// Assembles the chaining inputs of a batch from what the proof source
/// returned: the range endpoints must resolve to one batch, the first batch
/// chains to the all-zero word, and any later batch needs the fetched hash
/// of its predecessor. The proof bundle is carried through for verification
/// against the last executed header.
pub fn build_batch_metadata(
    from_batch: u64,
    to_batch: u64,
    fetched_prev_hash: Option<Vec<u8>>,
    proof: AccountProof,
) -> (r: Result<ChainingInput, BatchError>)
    requires
        proof.wf(),
        fetched_prev_hash matches Some(v) ==> v@.len() == 32,
    ensures
        r is Ok <==> (from_batch == to_batch && (from_batch == 0 || fetched_prev_hash is Some)),
        from_batch != to_batch <==> r == Err::<ChainingInput, BatchError>(
            BatchError::RangeMismatch,
        ),
        (from_batch == to_batch && from_batch > 0 && fetched_prev_hash is None) <==> r == Err::<
            ChainingInput,
            BatchError,
        >(BatchError::MissingPreviousHash),
        r matches Ok(c) ==> {
            &&& c.wf()
            &&& prev_hash_of(c) == (if from_batch == 0 {
                zero_word()
            } else {
                fetched_prev_hash->Some_0@
            })
            &&& c matches ChainingInput::Present { prev_batch_hash, proof: p } && p == proof
        },
{
    if from_batch != to_batch {
        return Err(BatchError::RangeMismatch);
    }
    let prev_batch_hash: Vec<u8>;
    if from_batch == 0 {
        prev_batch_hash = zero_bytes(32);
        assert(prev_batch_hash@ =~= zero_word());
    } else {
        match fetched_prev_hash {
            Some(v) => {
                prev_batch_hash = v;
            },
            None => {
                return Err(BatchError::MissingPreviousHash);
            },
        }
    }
    Ok(ChainingInput::Present { prev_batch_hash, proof })
}

/// The first and last block numbers of a batch, taken from its first and
/// last executed headers; an empty batch has none.
pub fn batch_block_range(headers: &Vec<ExecutedHeader>) -> (r: Option<(u64, u64)>)
    ensures
        r is Some <==> headers@.len() > 0,
        r matches Some(p) ==> p.0 == headers@[0].number && p.1 == headers@.last().number,
{
    if headers.len() == 0 {
        None
    } else {
        Some((headers[0].number, headers[headers.len() - 1].number))
    }
}

/// Checks that the endpoints of a requested block range resolve to the same
/// batch: a mismatch is a fatal configuration error, raised before any block
/// execution begins.
pub fn check_batch_continuity(from_batch: u64, to_batch: u64) -> (r: Result<(), BatchError>)
    ensures
        r is Ok <==> from_batch == to_batch,
        r is Err ==> r == Err::<(), BatchError>(BatchError::RangeMismatch),
{
    if from_batch == to_batch {
        Ok(())
    } else {
        Err(BatchError::RangeMismatch)
    }
}

/// Which earlier batch's hash must be fetched to chain a batch: none for the
/// first batch — its previous hash is the all-zero word — and the
/// immediately preceding batch otherwise.
pub fn previous_batch_index(batch: u64) -> (r: Option<u64>)
    ensures
        batch == 0 ==> r is None,
        batch > 0 ==> r == Some((batch - 1) as u64),
{
    if batch == 0 {
        None
    } else {
        Some(batch - 1)
    }
}

} // verus!
