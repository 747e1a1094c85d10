//! The RLP forms committed into the state trie: short byte strings, minimal
//! big-endian integers, and the four-field account leaf. These are the exact
//! byte images the trie-verification primitive is asked to find.

use vstd::prelude::*;
use crate::bytes::{be_val, clone_bytes, extend_bytes, u64_be_spec, u64_to_be};

verus! {

/// The minimal big-endian form of an integer image: leading zero bytes
/// removed. The empty sequence stands for zero.
pub open spec fn minimal_be_spec(s: Seq<u8>) -> Seq<u8>
    decreases s.len(),
{
    if s.len() == 0 {
        s
    } else if s[0] == 0 {
        minimal_be_spec(s.drop_first())
    } else {
        s
    }
}

/// The RLP image of a byte string of at most 55 bytes: a single byte below
/// 0x80 stands for itself, anything else is prefixed with `0x80 + len`.
pub open spec fn rlp_str_spec(s: Seq<u8>) -> Seq<u8>
    recommends
        s.len() <= 55,
{
    if s.len() == 1 && s[0] < 0x80 {
        s
    } else {
        seq![(0x80 + s.len()) as u8] + s
    }
}

/// The minimal form never grows.
pub proof fn lemma_minimal_be_len(s: Seq<u8>)
    ensures
        minimal_be_spec(s).len() <= s.len(),
    decreases s.len(),
{
    if s.len() > 0 && s[0] == 0 {
        lemma_minimal_be_len(s.drop_first());
    }
}

/// A run of leading zeros can be dropped in one step.
pub proof fn lemma_minimal_be_skip(s: Seq<u8>, i: int)
    requires
        0 <= i <= s.len(),
        forall|j: int| 0 <= j < i ==> s[j] == 0,
    ensures
        minimal_be_spec(s) == minimal_be_spec(s.subrange(i, s.len() as int)),
    decreases i,
{
    if i > 0 {
        assert(s.len() > 0 && s[0] == 0);
        lemma_minimal_be_skip(s.drop_first(), i - 1);
        assert(s.drop_first().subrange(i - 1, s.drop_first().len() as int) =~= s.subrange(
            i,
            s.len() as int,
        ));
    } else {
        assert(s.subrange(0, s.len() as int) =~= s);
    }
}

/// The minimal big-endian form of `v`: the suffix after its leading zeros.
pub fn minimal_be(v: &Vec<u8>) -> (r: Vec<u8>)
    ensures
        r@ == minimal_be_spec(v@),
        r@.len() <= v@.len(),
{
    let n = v.len();
    let mut i: usize = 0;
    while i < n && v[i] == 0
        invariant
            i <= n,
            n == v@.len(),
            forall|j: int| 0 <= j < i ==> v@[j] == 0,
        decreases n - i,
    {
        i = i + 1;
    }
    let mut r: Vec<u8> = Vec::new();
    let mut k: usize = i;
    while k < n
        invariant
            i <= k <= n,
            n == v@.len(),
            r@ == v@.subrange(i as int, k as int),
        decreases n - k,
    {
        let ghost pre = r@;
        r.push(v[k]);
        proof {
            assert(pre.push(v@[k as int]) =~= v@.subrange(i as int, k + 1));
        }
        k = k + 1;
    }
    proof {
        lemma_minimal_be_skip(v@, i as int);
        if i < n {
            assert(v@.subrange(i as int, n as int)[0] == v@[i as int]);
            assert(v@[i as int] != 0);
        }
    }
    r
}

/// The RLP image of a byte string of at most 55 bytes.
pub fn rlp_encode_bytes(v: &Vec<u8>) -> (r: Vec<u8>)
    requires
        v@.len() <= 55,
    ensures
        r@ == rlp_str_spec(v@),
        r@.len() <= v@.len() + 1,
{
    if v.len() == 1 && v[0] < 0x80 {
        let r = clone_bytes(v);
        return r;
    }
    let mut r: Vec<u8> = Vec::new();
    r.push((0x80 + v.len() as u8) as u8);
    extend_bytes(&mut r, v);
    assert(r@ =~= rlp_str_spec(v@));
    r
}

/// The RLP payload of an account leaf: nonce and balance in minimal
/// big-endian form, then the storage root and the code hash as 32-byte
/// strings.
pub open spec fn account_payload_spec(
    nonce: u64,
    balance: Seq<u8>,
    storage_root: Seq<u8>,
    code_hash: Seq<u8>,
) -> Seq<u8> {
    rlp_str_spec(minimal_be_spec(u64_be_spec(nonce))) + rlp_str_spec(minimal_be_spec(balance))
        + rlp_str_spec(storage_root) + rlp_str_spec(code_hash)
}

/// The RLP image of an account leaf: with 32-byte roots the payload always
/// spans 68 to 108 bytes, so the list header is the long form with a single
/// length byte.
pub open spec fn account_rlp_spec(
    nonce: u64,
    balance: Seq<u8>,
    storage_root: Seq<u8>,
    code_hash: Seq<u8>,
) -> Seq<u8> {
    seq![0xf8u8, account_payload_spec(nonce, balance, storage_root, code_hash).len() as u8]
        + account_payload_spec(nonce, balance, storage_root, code_hash)
}

/// Builds the RLP image of an account leaf, the exact byte string committed
/// for the account in the state trie.
pub fn account_rlp(
    nonce: u64,
    balance: &Vec<u8>,
    storage_root: &Vec<u8>,
    code_hash: &Vec<u8>,
) -> (r: Vec<u8>)
    requires
        balance@.len() == 32,
        storage_root@.len() == 32,
        code_hash@.len() == 32,
    ensures
        r@ == account_rlp_spec(nonce, balance@, storage_root@, code_hash@),
{
    let nonce_word = u64_to_be(nonce);
    let nonce_min = minimal_be(&nonce_word);
    let nonce_part = rlp_encode_bytes(&nonce_min);
    let balance_min = minimal_be(balance);
    let balance_part = rlp_encode_bytes(&balance_min);
    let root_part = rlp_encode_bytes(storage_root);
    let code_part = rlp_encode_bytes(code_hash);
    let mut payload: Vec<u8> = Vec::new();
    extend_bytes(&mut payload, &nonce_part);
    extend_bytes(&mut payload, &balance_part);
    extend_bytes(&mut payload, &root_part);
    extend_bytes(&mut payload, &code_part);
    assert(payload@ =~= account_payload_spec(nonce, balance@, storage_root@, code_hash@));
    let mut r: Vec<u8> = Vec::new();
    r.push(0xf8u8);
    r.push(payload.len() as u8);
    extend_bytes(&mut r, &payload);
    assert(r@ =~= account_rlp_spec(nonce, balance@, storage_root@, code_hash@));
    r
}

/// The expected trie value for a storage slot: zero values are absent from
/// the trie (an exclusion proof), any other value is committed as the RLP of
/// its minimal big-endian form.
pub open spec fn slot_expected_spec(value: Seq<u8>) -> Option<Seq<u8>> {
    if minimal_be_spec(value).len() == 0 {
        None
    } else {
        Some(rlp_str_spec(minimal_be_spec(value)))
    }
}

/// Builds the expected trie value for a storage slot.
pub fn slot_expected(value: &Vec<u8>) -> (r: Option<Vec<u8>>)
    requires
        value@.len() <= 55,
    ensures
        r is Some <==> slot_expected_spec(value@) is Some,
        r matches Some(v) ==> slot_expected_spec(value@) == Some(v@),
{
    let m = minimal_be(value);
    if m.len() == 0 {
        None
    } else {
        Some(rlp_encode_bytes(&m))
    }
}

} // verus!
