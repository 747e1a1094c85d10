//! The precompile registry: a fixed dispatch table over 20-byte addresses.
//! A custom bridge precompile always wins over a standard one at the same
//! address, the standard set covers the ten built-in addresses, and the
//! warm-address set is consistent with resolution — an inconsistency there
//! silently diverges from reference execution through gas metering.

use vstd::prelude::*;
use crate::bytes::{bytes_eq, clone_bytes, u64_be_spec, u64_to_be, views_of, zero_bytes};

verus! {

/// The identity of a resolved precompile address.
#[derive(Clone, Copy, Debug, PartialEq, Eq, Structural)]
pub enum PrecompileKind {
    /// One of the ten standard built-in precompiles.
    Standard,
    /// The bridge's validator-set/consensus verifier.
    ConsensusVerifier,
    /// The bridge's cross-chain transaction ingestion precompile.
    TransactionIngest,
    /// The bridge's payload decompression precompile.
    Decompression,
}

/// The 20-byte address whose last eight bytes are the big-endian image of
/// `x`.
pub open spec fn addr_of_u64(x: u64) -> Seq<u8> {
    Seq::new(12, |i: int| 0u8) + u64_be_spec(x)
}

/// The standard precompile set: the ten built-in addresses, one through
/// ten. This models the fixed table the registry's address-name listing
/// enumerates; the execution engine's own standard set grows with the
/// configured hardfork, and addresses it may add beyond these ten resolve
/// as plain calls here, not as precompiles.
pub open spec fn is_standard_address(a: Seq<u8>) -> bool {
    &&& a.len() == 20
    &&& forall|i: int| 0 <= i < 19 ==> a[i] == 0
    &&& 1 <= a[19] <= 10
}

/// Builds the 20-byte address of a small integer.
pub fn address_from_u64(x: u64) -> (r: Vec<u8>)
    ensures
        r@ == addr_of_u64(x),
        r@.len() == 20,
{
    let mut r = zero_bytes(12);
    let tail = u64_to_be(x);
    crate::bytes::extend_bytes(&mut r, &tail);
    assert(r@ =~= addr_of_u64(x));
    r
}

/// A small integer's address is a standard address exactly when the integer
/// is one through ten; and a standard address is the address of its last
/// byte.
pub proof fn lemma_standard_addresses(x: u64)
    requires
        1 <= x <= 10,
    ensures
        is_standard_address(addr_of_u64(x)),
        addr_of_u64(x)[19] == x,
{
    let a = addr_of_u64(x);
    assert forall|i: int| 0 <= i < 19 implies a[i] == 0 by {
        if i >= 12 {
            let k = (i - 12) as int;
            assert(a[i] == u64_be_spec(x)[k]);
            let sh = (((7 - k) * 8) as u64);
            lemma_small_be_bytes(x, sh);
        }
    }
    assert(a[19] == u64_be_spec(x)[7]);
    assert(((x >> 0u64) & 0xff) == x) by (bit_vector)
        requires
            x <= 10,
    ;
}

/// For a value below 256, every big-endian byte but the last is zero.
proof fn lemma_small_be_bytes(x: u64, sh: u64)
    by (bit_vector)
    requires
        x <= 255,
        8 <= sh < 64,
    ensures
        (x >> sh) & 0xff == 0,
{
}

/// A standard address is exactly the address of its last byte.
pub proof fn lemma_standard_address_form(a: Seq<u8>)
    requires
        is_standard_address(a),
    ensures
        a == addr_of_u64(a[19] as u64),
{
    let x = a[19] as u64;
    lemma_standard_addresses(x);
    let b = addr_of_u64(x);
    assert forall|i: int| 0 <= i < 20 implies a[i] == b[i] by {
        if i < 19 {
            assert(b[i] == 0);
        } else {
            assert(b[19] == x);
        }
    }
    assert(a =~= b);
}

/// The identifier of the transaction-ingestion precompile address. The
/// three identifiers below stand in for the bridge deployment's assigned
/// precompile addresses; what the contracts rely on is only that the three
/// are pairwise distinct and outside the standard set, which
/// `TwinePrecompiles::default` proves of them.
pub const TRANSACTION_PRECOMPILE_ID: u64 = 0x1001;

/// The deployment-assigned identifier of the consensus-verifier precompile
/// address.
pub const CONSENSUS_PRECOMPILE_ID: u64 = 0x1002;

/// The deployment-assigned identifier of the decompression precompile
/// address.
pub const ZSTD_PRECOMPILE_ID: u64 = 0x1003;

/// The fixed addresses of the three bridge precompiles. Their set is
/// disjoint from the standard set by construction.
#[derive(Clone, Debug)]
pub struct TwinePrecompiles {
    pub transaction_precompile: Vec<u8>,
    pub consensus_precompile: Vec<u8>,
    pub zstd_precompile: Vec<u8>,
}

impl TwinePrecompiles {
    /// The three custom addresses are 20 bytes, pairwise distinct, and
    /// disjoint from the standard set.
    pub open spec fn wf(&self) -> bool {
        &&& self.transaction_precompile@.len() == 20
        &&& self.consensus_precompile@.len() == 20
        &&& self.zstd_precompile@.len() == 20
        &&& self.transaction_precompile@ != self.consensus_precompile@
        &&& self.transaction_precompile@ != self.zstd_precompile@
        &&& self.consensus_precompile@ != self.zstd_precompile@
        &&& !is_standard_address(self.transaction_precompile@)
        &&& !is_standard_address(self.consensus_precompile@)
        &&& !is_standard_address(self.zstd_precompile@)
    }

    /// Whether `a` is one of the three custom precompile addresses.
    pub open spec fn contains_spec(&self, a: Seq<u8>) -> bool {
        ||| a == self.consensus_precompile@
        ||| a == self.transaction_precompile@
        ||| a == self.zstd_precompile@
    }

    /// Whether the address is one of the three custom precompiles.
    pub fn contains(&self, address: &Vec<u8>) -> (r: bool)
        ensures
            r == self.contains_spec(address@),
    {
        if bytes_eq(&self.consensus_precompile, address) {
            return true;
        }
        if bytes_eq(&self.transaction_precompile, address) {
            return true;
        }
        if bytes_eq(&self.zstd_precompile, address) {
            return true;
        }
        false
    }
}

impl Default for TwinePrecompiles {
    /// The fixed table of the three bridge precompile addresses.
    fn default() -> (r: Self)
        ensures
            r.transaction_precompile@ == addr_of_u64(TRANSACTION_PRECOMPILE_ID),
            r.consensus_precompile@ == addr_of_u64(CONSENSUS_PRECOMPILE_ID),
            r.zstd_precompile@ == addr_of_u64(ZSTD_PRECOMPILE_ID),
            r.wf(),
    {
        let r = TwinePrecompiles {
            transaction_precompile: address_from_u64(TRANSACTION_PRECOMPILE_ID),
            consensus_precompile: address_from_u64(CONSENSUS_PRECOMPILE_ID),
            zstd_precompile: address_from_u64(ZSTD_PRECOMPILE_ID),
        };
        proof {
            lemma_custom_ids_not_standard(TRANSACTION_PRECOMPILE_ID);
            lemma_custom_ids_not_standard(CONSENSUS_PRECOMPILE_ID);
            lemma_custom_ids_not_standard(ZSTD_PRECOMPILE_ID);
            lemma_addr_of_u64_injective(TRANSACTION_PRECOMPILE_ID, CONSENSUS_PRECOMPILE_ID);
            lemma_addr_of_u64_injective(TRANSACTION_PRECOMPILE_ID, ZSTD_PRECOMPILE_ID);
            lemma_addr_of_u64_injective(CONSENSUS_PRECOMPILE_ID, ZSTD_PRECOMPILE_ID);
        }
        r
    }
}

/// An address built from an identifier above 255 has a nonzero byte among
/// its first nineteen, so it is not standard.
proof fn lemma_custom_ids_not_standard(x: u64)
    requires
        256 <= x <= 0xffff,
    ensures
        !is_standard_address(addr_of_u64(x)),
{
    let a = addr_of_u64(x);
    assert(a[18] == u64_be_spec(x)[6]);
    assert(0 < ((x >> 8u64) & 0xff) < 256) by (bit_vector)
        requires
            256 <= x <= 0xffff,
    ;
    assert(a[18] != 0);
}

/// Distinct identifiers give distinct addresses.
proof fn lemma_addr_of_u64_injective(x: u64, y: u64)
    requires
        x != y,
    ensures
        addr_of_u64(x) != addr_of_u64(y),
{
    if addr_of_u64(x) == addr_of_u64(y) {
        assert forall|k: int| 0 <= k < 8 implies u64_be_spec(x)[k] == u64_be_spec(y)[k] by {
            assert(addr_of_u64(x)[12 + k] == u64_be_spec(x)[k]);
            assert(addr_of_u64(y)[12 + k] == u64_be_spec(y)[k]);
        }
        assert(u64_be_spec(x) =~= u64_be_spec(y));
        crate::bytes::lemma_u64_be_round_trip(x);
        crate::bytes::lemma_u64_be_round_trip(y);
    }
}

/// The full registry: the standard set, the bridge precompiles, and the
/// validator-set map handed to the consensus verifier at construction time.
#[derive(Clone, Debug)]
pub struct CustomPrecompiles {
    pub twine_precompiles: TwinePrecompiles,
    pub validator_sets: Vec<(String, String)>,
}

impl Default for CustomPrecompiles {
    /// The registry over the fixed precompile table, with no validator sets
    /// registered: the consensus verifier then has nothing to verify
    /// against, which is a legal default.
    fn default() -> (r: Self)
        ensures
            r.twine_precompiles.wf(),
            r.twine_precompiles.transaction_precompile@ == addr_of_u64(TRANSACTION_PRECOMPILE_ID),
            r.twine_precompiles.consensus_precompile@ == addr_of_u64(CONSENSUS_PRECOMPILE_ID),
            r.twine_precompiles.zstd_precompile@ == addr_of_u64(ZSTD_PRECOMPILE_ID),
            r.validator_sets@.len() == 0,
    {
        CustomPrecompiles {
            twine_precompiles: TwinePrecompiles::default(),
            validator_sets: Vec::new(),
        }
    }
}

/// Resolution of an address, custom precompiles first: a custom bridge
/// precompile is dispatched exclusively — standard logic at the same address
/// never runs — then the standard set, and any other address is simply not a
/// precompile.
pub open spec fn resolve_spec(t: TwinePrecompiles, a: Seq<u8>) -> Option<PrecompileKind> {
    if a == t.consensus_precompile@ {
        Some(PrecompileKind::ConsensusVerifier)
    } else if a == t.transaction_precompile@ {
        Some(PrecompileKind::TransactionIngest)
    } else if a == t.zstd_precompile@ {
        Some(PrecompileKind::Decompression)
    } else if is_standard_address(a) {
        Some(PrecompileKind::Standard)
    } else {
        None
    }
}

/// Whether the address is one of the ten standard precompiles.
pub fn is_standard(address: &Vec<u8>) -> (r: bool)
    ensures
        r == is_standard_address(address@),
{
    if address.len() != 20 {
        return false;
    }
    let mut i: usize = 0;
    while i < 19
        invariant
            i <= 19,
            address@.len() == 20,
            forall|j: int| 0 <= j < i ==> address@[j] == 0,
        decreases 19 - i,
    {
        if address[i] != 0 {
            return false;
        }
        i = i + 1;
    }
    let last = address[19];
    1 <= last && last <= 10
}

impl CustomPrecompiles {
    /// A fresh registry over the fixed precompile table, carrying the given
    /// validator-set map.
    pub fn new(validator_sets: Vec<(String, String)>) -> (r: Self)
        ensures
            r.twine_precompiles.wf(),
            r.twine_precompiles.transaction_precompile@ == addr_of_u64(TRANSACTION_PRECOMPILE_ID),
            r.twine_precompiles.consensus_precompile@ == addr_of_u64(CONSENSUS_PRECOMPILE_ID),
            r.twine_precompiles.zstd_precompile@ == addr_of_u64(ZSTD_PRECOMPILE_ID),
            r.validator_sets@ == validator_sets@,
    {
        CustomPrecompiles { twine_precompiles: TwinePrecompiles::default(), validator_sets }
    }

    /// Resolves an address to the precompile that would run there, custom
    /// bridge precompiles taking precedence over the standard set.
    pub fn resolve(&self, address: &Vec<u8>) -> (r: Option<PrecompileKind>)
        ensures
            r == resolve_spec(self.twine_precompiles, address@),
    {
        if bytes_eq(&self.twine_precompiles.consensus_precompile, address) {
            return Some(PrecompileKind::ConsensusVerifier);
        }
        if bytes_eq(&self.twine_precompiles.transaction_precompile, address) {
            return Some(PrecompileKind::TransactionIngest);
        }
        if bytes_eq(&self.twine_precompiles.zstd_precompile, address) {
            return Some(PrecompileKind::Decompression);
        }
        if is_standard(address) {
            return Some(PrecompileKind::Standard);
        }
        None
    }

    /// Whether some precompile runs at this address: agrees exactly with
    /// what `resolve` can resolve.
    pub fn contains(&self, address: &Vec<u8>) -> (r: bool)
        ensures
            r == (resolve_spec(self.twine_precompiles, address@) is Some),
    {
        match self.resolve(address) {
            Some(_) => true,
            None => false,
        }
    }

    /// The warm-address set: the ten standard addresses followed by the
    /// three custom precompile addresses, so that warmth is consistent with
    /// resolution.
    pub fn warm_addresses(&self) -> (r: Vec<Vec<u8>>)
        ensures
            views_of(r@) == warm_spec(self.twine_precompiles),
    {
        let mut r: Vec<Vec<u8>> = Vec::new();
        let mut k: u64 = 1;
        while k <= 10
            invariant
                1 <= k <= 11,
                r@.len() == k - 1,
                forall|j: int| 0 <= j < k - 1 ==> views_of(r@)[j] == addr_of_u64((j + 1) as u64),
            decreases 11 - k,
        {
            let ghost pre = r@;
            r.push(address_from_u64(k));
            proof {
                assert(views_of(pre).len() == pre.len());
                assert forall|j: int| 0 <= j < k implies views_of(r@)[j] == addr_of_u64(
                    (j + 1) as u64,
                ) by {
                    assert(views_of(r@)[j] == r@[j]@);
                    if j < k - 1 {
                        assert(r@[j] == pre[j]);
                        assert(views_of(pre)[j] == pre[j]@);
                    }
                }
            }
            k = k + 1;
        }
        let ghost standard_part = r@;
        r.push(clone_bytes(&self.twine_precompiles.consensus_precompile));
        r.push(clone_bytes(&self.twine_precompiles.transaction_precompile));
        r.push(clone_bytes(&self.twine_precompiles.zstd_precompile));
        proof {
            assert forall|j: int| 0 <= j < 13 implies views_of(r@)[j] == warm_spec(
                self.twine_precompiles,
            )[j] by {
                assert(views_of(r@)[j] == r@[j]@);
                if j < 10 {
                    assert(r@[j] == standard_part[j]);
                    assert(views_of(standard_part)[j] == standard_part[j]@);
                }
            }
            assert(views_of(r@) =~= warm_spec(self.twine_precompiles));
        }
        r
    }
}

/// The warm-address set demanded of the registry: the ten standard
/// addresses, then the three custom ones.
pub open spec fn warm_spec(t: TwinePrecompiles) -> Seq<Seq<u8>> {
    Seq::new(10, |j: int| addr_of_u64((j + 1) as u64)) + seq![
        t.consensus_precompile@,
        t.transaction_precompile@,
        t.zstd_precompile@,
    ]
}

/// Every address that resolution can resolve is warm: a standard address
/// appears among the first ten entries, a custom one among the last three.
pub proof fn lemma_warm_covers_resolvable(t: TwinePrecompiles, a: Seq<u8>)
    requires
        resolve_spec(t, a) is Some,
    ensures
        warm_spec(t).contains(a),
{
    let w = warm_spec(t);
    if a == t.consensus_precompile@ {
        assert(w[10] == a);
    } else if a == t.transaction_precompile@ {
        assert(w[11] == a);
    } else if a == t.zstd_precompile@ {
        assert(w[12] == a);
    } else {
        lemma_standard_address_form(a);
        let x = a[19] as u64;
        assert(w[x - 1] == addr_of_u64((x - 1 + 1) as u64));
        assert(w[x - 1] == a);
    }
}

/// A custom bridge address never resolves to the standard kind, whatever
/// overlaps the table might have: custom dispatch is exclusive.
pub proof fn lemma_custom_precedence(t: TwinePrecompiles, a: Seq<u8>)
    requires
        t.contains_spec(a),
    ensures
        resolve_spec(t, a) is Some,
        resolve_spec(t, a) != Some(PrecompileKind::Standard),
{
}

/// The host-side registry variant: the standard set plus the two bridge
/// precompiles it dispatches, consensus verification and transaction
/// ingestion.
#[derive(Clone, Debug)]
pub struct TwineCustomPrecompile {
    pub l1_consensus: Vec<u8>,
    pub l1_transaction: Vec<u8>,
}

/// Resolution for the host-side registry, custom precompiles first.
pub open spec fn twine_resolve_spec(p: TwineCustomPrecompile, a: Seq<u8>) -> Option<
    PrecompileKind,
> {
    if a == p.l1_transaction@ {
        Some(PrecompileKind::TransactionIngest)
    } else if a == p.l1_consensus@ {
        Some(PrecompileKind::ConsensusVerifier)
    } else if is_standard_address(a) {
        Some(PrecompileKind::Standard)
    } else {
        None
    }
}

impl Default for TwineCustomPrecompile {
    /// The fixed pair of bridge precompile addresses.
    fn default() -> (r: Self)
        ensures
            r.l1_consensus@ == addr_of_u64(CONSENSUS_PRECOMPILE_ID),
            r.l1_transaction@ == addr_of_u64(TRANSACTION_PRECOMPILE_ID),
    {
        TwineCustomPrecompile {
            l1_consensus: address_from_u64(CONSENSUS_PRECOMPILE_ID),
            l1_transaction: address_from_u64(TRANSACTION_PRECOMPILE_ID),
        }
    }
}

impl TwineCustomPrecompile {
    /// Re-pins the dispatch table to the fixed bridge addresses whenever the
    /// engine's hardfork configuration changes; the table itself does not
    /// depend on the hardfork. Always reports that the change was taken.
    pub fn set_spec(&mut self) -> (r: bool)
        ensures
            final(self).l1_consensus@ == addr_of_u64(CONSENSUS_PRECOMPILE_ID),
            final(self).l1_transaction@ == addr_of_u64(TRANSACTION_PRECOMPILE_ID),
            r == true,
    {
        self.l1_consensus = address_from_u64(CONSENSUS_PRECOMPILE_ID);
        self.l1_transaction = address_from_u64(TRANSACTION_PRECOMPILE_ID);
        true
    }

    /// Resolves an address, the transaction and consensus precompiles taking
    /// precedence over the standard set.
    pub fn resolve(&self, address: &Vec<u8>) -> (r: Option<PrecompileKind>)
        ensures
            r == twine_resolve_spec(*self, address@),
    {
        if bytes_eq(&self.l1_transaction, address) {
            return Some(PrecompileKind::TransactionIngest);
        }
        if bytes_eq(&self.l1_consensus, address) {
            return Some(PrecompileKind::ConsensusVerifier);
        }
        if is_standard(address) {
            return Some(PrecompileKind::Standard);
        }
        None
    }

    /// Whether some precompile runs at this address: the standard set or one
    /// of the two bridge addresses, in agreement with `resolve`.
    pub fn contains(&self, address: &Vec<u8>) -> (r: bool)
        ensures
            r == (twine_resolve_spec(*self, address@) is Some),
    {
        match self.resolve(address) {
            Some(_) => true,
            None => false,
        }
    }

    /// The warm-address set: the ten standard addresses, then the consensus
    /// and transaction precompile addresses.
    pub fn warm_addresses(&self) -> (r: Vec<Vec<u8>>)
        ensures
            views_of(r@) == Seq::new(10, |j: int| addr_of_u64((j + 1) as u64)) + seq![
                self.l1_consensus@,
                self.l1_transaction@,
            ],
    {
        let mut r: Vec<Vec<u8>> = Vec::new();
        let mut k: u64 = 1;
        while k <= 10
            invariant
                1 <= k <= 11,
                r@.len() == k - 1,
                forall|j: int| 0 <= j < k - 1 ==> views_of(r@)[j] == addr_of_u64((j + 1) as u64),
            decreases 11 - k,
        {
            let ghost pre = r@;
            r.push(address_from_u64(k));
            proof {
                assert(views_of(pre).len() == pre.len());
                assert forall|j: int| 0 <= j < k implies views_of(r@)[j] == addr_of_u64(
                    (j + 1) as u64,
                ) by {
                    assert(views_of(r@)[j] == r@[j]@);
                    if j < k - 1 {
                        assert(r@[j] == pre[j]);
                        assert(views_of(pre)[j] == pre[j]@);
                    }
                }
            }
            k = k + 1;
        }
        let ghost standard_part = r@;
        r.push(clone_bytes(&self.l1_consensus));
        r.push(clone_bytes(&self.l1_transaction));
        proof {
            let whole = Seq::new(10, |j: int| addr_of_u64((j + 1) as u64)) + seq![
                self.l1_consensus@,
                self.l1_transaction@,
            ];
            assert forall|j: int| 0 <= j < 12 implies views_of(r@)[j] == whole[j] by {
                assert(views_of(r@)[j] == r@[j]@);
                if j < 10 {
                    assert(r@[j] == standard_part[j]);
                    assert(views_of(standard_part)[j] == standard_part[j]@);
                }
            }
            assert(views_of(r@) =~= whole);
        }
        r
    }
}

} // verus!
