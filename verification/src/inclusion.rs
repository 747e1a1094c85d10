//! Account/storage inclusion-proof checking: an account's Merkle-Patricia
//! proof is checked against a claimed state root, then each nested storage
//! proof against the account's storage root; only then may the storage
//! values be read. The two bridge counters live at fixed slot positions,
//! a positional contract with whoever builds the proof bundle.

use vstd::prelude::*;
use crate::bytes::{be_val, u64_from_be, views_of};
use crate::hashing::{keccak, keccak_spec};
use crate::rlp::{account_rlp, account_rlp_spec, slot_expected, slot_expected_spec};
use crate::trienode::{check_proof_nodes, proof_nodes_safe};

verus! {

/// What `alloy_trie::proof::verify_proof` decides: whether the proof nodes
/// show that the path `key_hash` carries `expected` (`Some` for inclusion,
/// `None` for exclusion) under the trie root `root`.
pub uninterp spec fn trie_includes(
    root: Seq<u8>,
    key_hash: Seq<u8>,
    expected: Option<Seq<u8>>,
    nodes: Seq<Seq<u8>>,
) -> bool;

/// The view of an optional byte vector.
pub open spec fn opt_view(o: Option<Vec<u8>>) -> Option<Seq<u8>> {
    match o {
        Some(v) => Some(v@),
        None => None,
    }
}

/// Relies on `alloy_trie::proof::verify_proof`: whether a Merkle-Patricia
/// proof checks out is a function of the root, the hashed key, the expected
/// value and the proof nodes alone. The nodes must first pass the
/// structural screen: on a dishonest in-place nesting, an over-long node
/// key, or a bundle whose accumulated walk outgrows a hashed key, the
/// outside walk aborts instead of returning, so such bundles never reach
/// it.
#[verifier::external_body]
fn trie_verify(
    root: &Vec<u8>,
    key_hash: &Vec<u8>,
    expected: Option<Vec<u8>>,
    nodes: &Vec<Vec<u8>>,
) -> (r: bool)
    requires
        root@.len() == 32,
        key_hash@.len() == 32,
        proof_nodes_safe(views_of(nodes@)),
    ensures
        r == trie_includes(root@, key_hash@, opt_view(expected), views_of(nodes@)),
{
    let root_word = alloy_primitives::B256::from_slice(root.as_slice());
    let key = alloy_trie::Nibbles::unpack(key_hash.as_slice());
    let proof: Vec<alloy_primitives::Bytes> = nodes
        .iter()
        .map(|n| alloy_primitives::Bytes::copy_from_slice(n.as_slice()))
        .collect();
    alloy_trie::proof::verify_proof(root_word, key, expected, proof.iter()).is_ok()
}

/// One storage slot's nested proof: the 32-byte slot key, the 32-byte
/// big-endian value claimed for it, and the proof nodes from the account's
/// storage root down.
#[derive(Clone, Debug)]
pub struct StorageSlotProof {
    pub key: Vec<u8>,
    pub value: Vec<u8>,
    pub nodes: Vec<Vec<u8>>,
}

/// An account's inclusion proof together with its nested storage proofs.
/// The proof is meaningless until `verify` succeeds against the intended
/// state root; only then may the storage values be trusted.
#[derive(Clone, Debug)]
pub struct AccountProof {
    pub address: Vec<u8>,
    pub nonce: u64,
    pub balance: Vec<u8>,
    pub storage_root: Vec<u8>,
    pub code_hash: Vec<u8>,
    pub nodes: Vec<Vec<u8>>,
    pub storage_proofs: Vec<StorageSlotProof>,
}

/// Why a proof bundle was rejected.
#[derive(Clone, Copy, Debug, PartialEq, Eq, Structural)]
pub enum ProofError {
    /// The account proof does not reconstruct the claimed state root.
    Account,
    /// A nested storage proof does not reconstruct the account's storage
    /// root.
    Storage,
}

impl StorageSlotProof {
    /// The slot key and value are 32-byte words.
    pub open spec fn wf(&self) -> bool {
        &&& self.key@.len() == 32
        &&& self.value@.len() == 32
    }
}

impl AccountProof {
    /// Field widths: a 20-byte address and 32-byte words throughout.
    pub open spec fn wf(&self) -> bool {
        &&& self.address@.len() == 20
        &&& self.balance@.len() == 32
        &&& self.storage_root@.len() == 32
        &&& self.code_hash@.len() == 32
        &&& forall|i: int|
            0 <= i < self.storage_proofs@.len() ==> (#[trigger] self.storage_proofs@[i]).wf()
    }
}

/// The account's leaf, as committed for it in the state trie, is proven
/// under `root` at the path of the hashed address — by nodes that pass the
/// structural screen, so the proof can be walked at all.
pub open spec fn account_proof_ok(p: AccountProof, root: Seq<u8>) -> bool {
    &&& proof_nodes_safe(views_of(p.nodes@))
    &&& trie_includes(
        root,
        keccak_spec(p.address@),
        Some(account_rlp_spec(p.nonce, p.balance@, p.storage_root@, p.code_hash@)),
        views_of(p.nodes@),
    )
}

/// The slot's claimed value is proven under `storage_root` at the path of
/// the hashed slot key — again by screened nodes — with zero values proven
/// by exclusion and others by inclusion of their RLP form.
pub open spec fn slot_proof_ok(s: StorageSlotProof, storage_root: Seq<u8>) -> bool {
    &&& proof_nodes_safe(views_of(s.nodes@))
    &&& trie_includes(
        storage_root,
        keccak_spec(s.key@),
        slot_expected_spec(s.value@),
        views_of(s.nodes@),
    )
}

/// The whole bundle checks out against `root`: the account proof and every
/// nested storage proof.
pub open spec fn proof_ok(p: AccountProof, root: Seq<u8>) -> bool {
    &&& account_proof_ok(p, root)
    &&& forall|i: int|
        0 <= i < p.storage_proofs@.len() ==> slot_proof_ok(
            #[trigger] p.storage_proofs@[i],
            p.storage_root@,
        )
}

impl AccountProof {
    /// Checks the account proof against the expected state root, then each
    /// storage proof against the account's storage root. Succeeds exactly
    /// when the whole bundle checks out; names the failing layer otherwise.
    pub fn verify(&self, expected_state_root: &Vec<u8>) -> (r: Result<(), ProofError>)
        requires
            self.wf(),
            expected_state_root@.len() == 32,
        ensures
            r is Ok <==> proof_ok(*self, expected_state_root@),
            r == Err::<(), ProofError>(ProofError::Account) <==> !account_proof_ok(
                *self,
                expected_state_root@,
            ),
    {
        if !check_proof_nodes(&self.nodes) {
            return Err(ProofError::Account);
        }
        let address_hash = keccak(&self.address);
        let leaf = account_rlp(self.nonce, &self.balance, &self.storage_root, &self.code_hash);
        if !trie_verify(expected_state_root, &address_hash, Some(leaf), &self.nodes) {
            return Err(ProofError::Account);
        }
        let n = self.storage_proofs.len();
        let mut i: usize = 0;
        while i < n
            invariant
                i <= n,
                n == self.storage_proofs@.len(),
                self.wf(),
                expected_state_root@.len() == 32,
                account_proof_ok(*self, expected_state_root@),
                forall|k: int|
                    0 <= k < i ==> slot_proof_ok(
                        #[trigger] self.storage_proofs@[k],
                        self.storage_root@,
                    ),
            decreases n - i,
        {
            let sp = &self.storage_proofs[i];
            if !check_proof_nodes(&sp.nodes) {
                proof {
                    assert(!slot_proof_ok(self.storage_proofs@[i as int], self.storage_root@));
                }
                return Err(ProofError::Storage);
            }
            let key_hash = keccak(&sp.key);
            let expected = slot_expected(&sp.value);
            if !trie_verify(&self.storage_root, &key_hash, expected, &sp.nodes) {
                proof {
                    assert(!slot_proof_ok(self.storage_proofs@[i as int], self.storage_root@));
                }
                return Err(ProofError::Storage);
            }
            i = i + 1;
        }
        Ok(())
    }
}

/// Whether a 32-byte big-endian word fits in 64 bits.
pub open spec fn word_fits_u64(s: Seq<u8>) -> bool {
    forall|i: int| 0 <= i < 24 ==> s[i] == 0
}

/// The 64-bit value of a 32-byte big-endian word.
pub open spec fn word_u64(s: Seq<u8>) -> nat {
    be_val(s.subrange(24, 32))
}

/// Reads a 32-byte big-endian word as a 64-bit counter, range-checked: a
/// value wider than 64 bits is rejected rather than truncated.
pub fn word_to_u64(v: &Vec<u8>) -> (r: Option<u64>)
    requires
        v@.len() == 32,
    ensures
        r is Some <==> word_fits_u64(v@),
        r matches Some(x) ==> x == word_u64(v@),
{
    let mut i: usize = 0;
    while i < 24
        invariant
            i <= 24,
            v@.len() == 32,
            forall|j: int| 0 <= j < i ==> v@[j] == 0,
        decreases 24 - i,
    {
        if v[i] != 0 {
            return None;
        }
        i = i + 1;
    }
    Some(u64_from_be(v, 24))
}

/// Reads the two bridge counters from a bundle's storage proofs by their
/// fixed positions: index 0 is the ethereum-side counter, index 1 the
/// solana-side counter; a missing index yields zero, never an error. Fails
/// only when a present value is wider than 64 bits.
pub fn extract_counters(proofs: &Vec<StorageSlotProof>) -> (r: Option<(u64, u64)>)
    requires
        forall|i: int| 0 <= i < proofs@.len() ==> (#[trigger] proofs@[i]).wf(),
    ensures
        r is Some <==> ((proofs@.len() < 1 || word_fits_u64(proofs@[0].value@)) && (proofs@.len()
            < 2 || word_fits_u64(proofs@[1].value@))),
        r matches Some(c) ==> {
            &&& c.0 == if proofs@.len() >= 1 {
                word_u64(proofs@[0].value@)
            } else {
                0
            }
            &&& c.1 == if proofs@.len() >= 2 {
                word_u64(proofs@[1].value@)
            } else {
                0
            }
        },
{
    let mut eth: u64 = 0;
    let mut sol: u64 = 0;
    if proofs.len() >= 1 {
        match word_to_u64(&proofs[0].value) {
            Some(x) => {
                eth = x;
            },
            None => {
                return None;
            },
        }
    }
    if proofs.len() >= 2 {
        match word_to_u64(&proofs[1].value) {
            Some(x) => {
                sol = x;
            },
            None => {
                return None;
            },
        }
    }
    Some((eth, sol))
}

} // verus!
