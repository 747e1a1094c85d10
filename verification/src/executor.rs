//! The stateless execution side of the library: the executed-header record
//! each block execution yields, the executor factories that configure the
//! execution engine, and the beneficiary override some source chains need.

use vstd::prelude::*;
use crate::bytes::clone_bytes;

verus! {

/// The result of executing one block's witness input: the block number and
/// the header digests the batch commitment reads. Re-executing identical
/// witness input yields a bit-identical record.
#[derive(Clone, Debug)]
pub struct ExecutedHeader {
    pub number: u64,
    pub parent_hash: Vec<u8>,
    pub state_root: Vec<u8>,
    pub transactions_root: Vec<u8>,
    pub receipts_root: Vec<u8>,
}

impl ExecutedHeader {
    /// All digests are 32-byte words.
    pub open spec fn wf(&self) -> bool {
        &&& self.parent_hash@.len() == 32
        &&& self.state_root@.len() == 32
        &&& self.transactions_root@.len() == 32
        &&& self.receipts_root@.len() == 32
    }
}

/// The state roots of a sequence of executed headers, in block order.
pub open spec fn state_roots_of(headers: Seq<ExecutedHeader>) -> Seq<Seq<u8>> {
    Seq::new(headers.len(), |i: int| headers[i].state_root@)
}

/// Collects each header's state root, in order, as Merkle leaves.
pub fn collect_state_roots(headers: &Vec<ExecutedHeader>) -> (r: Vec<Vec<u8>>)
    ensures
        crate::bytes::views_of(r@) == state_roots_of(headers@),
{
    let n = headers.len();
    let mut r: Vec<Vec<u8>> = Vec::new();
    let mut i: usize = 0;
    while i < n
        invariant
            i <= n,
            n == headers@.len(),
            r@.len() == i,
            forall|j: int| 0 <= j < i ==> r@[j]@ == headers@[j].state_root@,
        decreases n - i,
    {
        r.push(clone_bytes(&headers[i].state_root));
        i = i + 1;
    }
    assert(crate::bytes::views_of(r@) =~= state_roots_of(headers@));
    r
}

/// The executor factory configured with an optional beneficiary override
/// and the validator-set map threaded into the consensus precompile. Some
/// source chains credit block rewards to a signer address instead of the
/// header's nominal beneficiary; when the override is set it must be applied
/// to the execution environment before any precompile or transaction runs,
/// with or without an inspector attached.
#[derive(Clone, Debug)]
pub struct CustomEvmFactory {
    pub custom_beneficiary: Option<Vec<u8>>,
    pub validator_sets: Vec<(String, String)>,
}

impl CustomEvmFactory {
    /// A factory with the given beneficiary override and validator sets.
    pub fn new(custom_beneficiary: Option<Vec<u8>>, validator_sets: Vec<(String, String)>) -> (r:
        Self)
        ensures
            r.custom_beneficiary == custom_beneficiary,
            r.validator_sets@ == validator_sets@,
    {
        CustomEvmFactory { custom_beneficiary, validator_sets }
    }

    /// The registry this factory configures for each execution: the fixed
    /// precompile table, carrying the factory's validator sets into the
    /// consensus verifier.
    pub fn registry(&self) -> (r: crate::registry::CustomPrecompiles)
        ensures
            r.twine_precompiles.wf(),
            r.twine_precompiles.transaction_precompile@ == crate::registry::addr_of_u64(
                crate::registry::TRANSACTION_PRECOMPILE_ID,
            ),
            r.twine_precompiles.consensus_precompile@ == crate::registry::addr_of_u64(
                crate::registry::CONSENSUS_PRECOMPILE_ID,
            ),
            r.twine_precompiles.zstd_precompile@ == crate::registry::addr_of_u64(
                crate::registry::ZSTD_PRECOMPILE_ID,
            ),
            r.validator_sets@ == self.validator_sets@,
    {
        let n = self.validator_sets.len();
        let mut sets: Vec<(String, String)> = Vec::new();
        let mut i: usize = 0;
        while i < n
            invariant
                i <= n,
                n == self.validator_sets@.len(),
                sets@ == self.validator_sets@.take(i as int),
            decreases n - i,
        {
            let pair = &self.validator_sets[i];
            let ghost pre = sets@;
            sets.push((pair.0.clone(), pair.1.clone()));
            proof {
                assert(pre.push(sets@.last()) =~= self.validator_sets@.take(i + 1));
            }
            i = i + 1;
        }
        proof {
            assert(self.validator_sets@.take(n as int) =~= self.validator_sets@);
        }
        crate::registry::CustomPrecompiles::new(sets)
    }

    /// The beneficiary the execution environment must run with: the override
    /// when one is configured, the block's own beneficiary otherwise. This
    /// applies uniformly whether or not an inspector is attached.
    pub fn effective_beneficiary(&self, block_beneficiary: Vec<u8>) -> (r: Vec<u8>)
        ensures
            r@ == match self.custom_beneficiary {
                Some(b) => b@,
                None => block_beneficiary@,
            },
    {
        match &self.custom_beneficiary {
            Some(b) => clone_bytes(b),
            None => block_beneficiary,
        }
    }
}

/// The host-side executor factory: a fixed configuration with no override,
/// whose registry is the host-side precompile table.
#[derive(Clone, Copy, Debug, PartialEq, Eq, Structural)]
pub struct TwineEvmFactory;

impl TwineEvmFactory {
    /// The factory has no configuration of its own.
    pub fn new() -> (r: Self)
        ensures
            r == TwineEvmFactory,
    {
        TwineEvmFactory
    }
}

impl Default for TwineEvmFactory {
    fn default() -> (r: Self)
        ensures
            r == TwineEvmFactory,
    {
        TwineEvmFactory
    }
}

/// An instrumentation hook that remembers the opcode currently executing.
/// It is a side channel for cycle reports, never part of the correctness
/// contract.
#[derive(Clone, Debug, PartialEq, Eq, PartialOrd, Ord, Hash)]
pub struct OpCodeTrackingInspector {
    pub current: String,
}

impl Default for OpCodeTrackingInspector {
    fn default() -> (r: Self)
        ensures
            r.current@.len() == 0,
    {
        OpCodeTrackingInspector { current: String::new() }
    }
}

} // verus!
