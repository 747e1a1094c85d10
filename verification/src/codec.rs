//! The public commitment of a batch and its fixed-width packed encoding: the
//! byte layout is part of the cryptographic contract, hashed and checked by
//! an external verifier, so encoding and decoding are bit-exact.

use vstd::prelude::*;
use vstd::string::StringExecFns;
use crate::bytes::{be_val, extend_bytes, lemma_u64_be_round_trip, u64_be_spec, u64_from_be,
    u64_to_be};

verus! {

/// The terminal artifact of one batch evaluation: the previous batch's
/// commitment hash, the batch's own chained hash, and the two bridge message
/// counters.
#[derive(Clone, Debug)]
pub struct PublicCommitment {
    pub prev_batch_hash: Vec<u8>,
    pub batch_hash: Vec<u8>,
    pub ethereum_message_count: u64,
    pub solana_message_count: u64,
}

/// The per-block digest bundle whose packed form concatenates its four
/// 32-byte words.
#[derive(Clone, Debug)]
pub struct BlockInfo {
    pub previous_block: Vec<u8>,
    pub block_hash: Vec<u8>,
    pub transaction_root: Vec<u8>,
    pub receipt_root: Vec<u8>,
}

impl PublicCommitment {
    /// Both hashes are 32-byte words.
    pub open spec fn wf(&self) -> bool {
        &&& self.prev_batch_hash@.len() == 32
        &&& self.batch_hash@.len() == 32
    }

    /// The packed layout, big-endian and without padding:
    /// `prev_batch_hash`[32] ‖ `batch_hash`[32] ‖ `ethereum_message_count`[8]
    /// ‖ `solana_message_count`[8], eighty bytes in all.
    pub open spec fn encoding(&self) -> Seq<u8> {
        self.prev_batch_hash@ + self.batch_hash@ + u64_be_spec(self.ethereum_message_count)
            + u64_be_spec(self.solana_message_count)
    }

    /// Packs the commitment into its eighty-byte wire form.
    pub fn abi_encode_packed(&self) -> (r: Vec<u8>)
        ensures
            r@ == self.encoding(),
            self.wf() ==> r@.len() == 80,
    {
        let mut buf: Vec<u8> = Vec::new();
        extend_bytes(&mut buf, &self.prev_batch_hash);
        extend_bytes(&mut buf, &self.batch_hash);
        let eth = u64_to_be(self.ethereum_message_count);
        extend_bytes(&mut buf, &eth);
        let sol = u64_to_be(self.solana_message_count);
        extend_bytes(&mut buf, &sol);
        assert(buf@ =~= self.encoding());
        buf
    }

    /// Unpacks an eighty-byte wire form; any other length is rejected with a
    /// descriptive error, never truncated.
    pub fn abi_decode_packed(bytes: Vec<u8>) -> (r: Result<PublicCommitment, String>)
        ensures
            r is Ok <==> bytes@.len() == 80,
            r matches Err(m) ==> m@ == length_error_message(bytes@.len()),
            r matches Ok(c) ==> {
                &&& c.wf()
                &&& c.prev_batch_hash@ == bytes@.subrange(0, 32)
                &&& c.batch_hash@ == bytes@.subrange(32, 64)
                &&& c.ethereum_message_count == be_val(bytes@.subrange(64, 72))
                &&& c.solana_message_count == be_val(bytes@.subrange(72, 80))
            },
    {
        if bytes.len() != 80 {
            let mut msg = "expected 80 bytes, got ".to_string();
            let num = usize_to_decimal(bytes.len());
            msg.append(num.as_str());
            return Err(msg);
        }
        let mut prev_batch_hash: Vec<u8> = Vec::new();
        let mut i: usize = 0;
        while i < 32
            invariant
                i <= 32,
                bytes@.len() == 80,
                prev_batch_hash@ == bytes@.subrange(0, i as int),
            decreases 32 - i,
        {
            let ghost pre = prev_batch_hash@;
            prev_batch_hash.push(bytes[i]);
            proof {
                assert(pre.push(bytes@[i as int]) =~= bytes@.subrange(0, i + 1));
            }
            i = i + 1;
        }
        let mut batch_hash: Vec<u8> = Vec::new();
        let mut j: usize = 32;
        while j < 64
            invariant
                32 <= j <= 64,
                bytes@.len() == 80,
                batch_hash@ == bytes@.subrange(32, j as int),
            decreases 64 - j,
        {
            let ghost pre = batch_hash@;
            batch_hash.push(bytes[j]);
            proof {
                assert(pre.push(bytes@[j as int]) =~= bytes@.subrange(32, j + 1));
            }
            j = j + 1;
        }
        let ethereum_message_count = u64_from_be(&bytes, 64);
        let solana_message_count = u64_from_be(&bytes, 72);
        Ok(
            PublicCommitment {
                prev_batch_hash,
                batch_hash,
                ethereum_message_count,
                solana_message_count,
            },
        )
    }
}

/// Decoding recovers every field of an encoded commitment: the wire form is
/// eighty bytes, its subranges are exactly the fields written, and the
/// big-endian counter words read back to the counters.
pub proof fn lemma_codec_round_trip(c: PublicCommitment)
    requires
        c.wf(),
    ensures
        c.encoding().len() == 80,
        c.encoding().subrange(0, 32) == c.prev_batch_hash@,
        c.encoding().subrange(32, 64) == c.batch_hash@,
        be_val(c.encoding().subrange(64, 72)) == c.ethereum_message_count,
        be_val(c.encoding().subrange(72, 80)) == c.solana_message_count,
{
    let e = c.encoding();
    assert(e.subrange(0, 32) =~= c.prev_batch_hash@);
    assert(e.subrange(32, 64) =~= c.batch_hash@);
    assert(e.subrange(64, 72) =~= u64_be_spec(c.ethereum_message_count));
    assert(e.subrange(72, 80) =~= u64_be_spec(c.solana_message_count));
    lemma_u64_be_round_trip(c.ethereum_message_count);
    lemma_u64_be_round_trip(c.solana_message_count);
}

/// Two commitments with the same encoding are equal field by field: the
/// packed layout loses nothing.
pub proof fn lemma_encoding_injective(c1: PublicCommitment, c2: PublicCommitment)
    requires
        c1.wf(),
        c2.wf(),
        c1.encoding() == c2.encoding(),
    ensures
        c1.prev_batch_hash@ == c2.prev_batch_hash@,
        c1.batch_hash@ == c2.batch_hash@,
        c1.ethereum_message_count == c2.ethereum_message_count,
        c1.solana_message_count == c2.solana_message_count,
{
    lemma_codec_round_trip(c1);
    lemma_codec_round_trip(c2);
}

/// The decimal character of a digit.
pub open spec fn digit_char(d: int) -> char {
    if d == 0 {
        '0'
    } else if d == 1 {
        '1'
    } else if d == 2 {
        '2'
    } else if d == 3 {
        '3'
    } else if d == 4 {
        '4'
    } else if d == 5 {
        '5'
    } else if d == 6 {
        '6'
    } else if d == 7 {
        '7'
    } else if d == 8 {
        '8'
    } else {
        '9'
    }
}

/// The decimal digits of `n`, most significant first.
pub open spec fn decimal_spec(n: nat) -> Seq<char>
    decreases n,
{
    if n < 10 {
        seq![digit_char(n as int)]
    } else {
        decimal_spec(n / 10) + seq![digit_char((n % 10) as int)]
    }
}

/// The digit characters of a least-significant-first digit list, read back
/// most significant first.
pub open spec fn rev_chars(ds: Seq<u8>) -> Seq<char> {
    Seq::new(ds.len(), |i: int| digit_char(ds[ds.len() - 1 - i] as int))
}

/// Renders a length in decimal.
fn usize_to_decimal(n: usize) -> (r: String)
    ensures
        r@ == decimal_spec(n as nat),
{
    let mut digits: Vec<u8> = Vec::new();
    let mut m: usize = n;
    if m == 0 {
        digits.push(0);
        proof {
            assert(rev_chars(digits@) =~= decimal_spec(n as nat));
        }
    } else {
        while m > 0
            invariant
                m > 0 ==> decimal_spec(n as nat) == decimal_spec(m as nat) + rev_chars(digits@),
                m == 0 ==> decimal_spec(n as nat) == rev_chars(digits@),
                forall|k: int| 0 <= k < digits@.len() ==> digits@[k] < 10,
            decreases m,
        {
            let d = (m % 10) as u8;
            let ghost pre = digits@;
            let ghost m0 = m as nat;
            digits.push(d);
            m = m / 10;
            proof {
                assert(rev_chars(digits@) =~= seq![digit_char(d as int)] + rev_chars(pre));
                if m > 0 {
                    assert(decimal_spec(m0) == decimal_spec(m0 / 10) + seq![
                        digit_char((m0 % 10) as int),
                    ]);
                    assert(decimal_spec(m as nat) + (seq![digit_char(d as int)] + rev_chars(pre))
                        =~= (decimal_spec(m as nat) + seq![digit_char(d as int)]) + rev_chars(
                        pre,
                    ));
                } else {
                    assert(decimal_spec(m0) == seq![digit_char(d as int)]);
                }
            }
        }
    }
    let len = digits.len();
    let mut r = String::new();
    let mut t: usize = 0;
    while t < len
        invariant
            t <= len,
            len == digits@.len(),
            forall|k: int| 0 <= k < digits@.len() ==> digits@[k] < 10,
            r@ == rev_chars(digits@).take(t as int),
        decreases len - t,
    {
        let d = digits[len - 1 - t];
        match d {
            0 => {
                r.append("0");
                proof {
                    reveal_strlit("0");
                }
            },
            1 => {
                r.append("1");
                proof {
                    reveal_strlit("1");
                }
            },
            2 => {
                r.append("2");
                proof {
                    reveal_strlit("2");
                }
            },
            3 => {
                r.append("3");
                proof {
                    reveal_strlit("3");
                }
            },
            4 => {
                r.append("4");
                proof {
                    reveal_strlit("4");
                }
            },
            5 => {
                r.append("5");
                proof {
                    reveal_strlit("5");
                }
            },
            6 => {
                r.append("6");
                proof {
                    reveal_strlit("6");
                }
            },
            7 => {
                r.append("7");
                proof {
                    reveal_strlit("7");
                }
            },
            8 => {
                r.append("8");
                proof {
                    reveal_strlit("8");
                }
            },
            _ => {
                proof {
                    assert(d == 9);
                }
                r.append("9");
                proof {
                    reveal_strlit("9");
                }
            },
        }
        proof {
            assert(rev_chars(digits@)[t as int] == digit_char(digits@[len - 1 - t] as int));
            assert(r@ =~= rev_chars(digits@).take(t + 1));
        }
        t = t + 1;
    }
    proof {
        assert(rev_chars(digits@).take(len as int) =~= rev_chars(digits@));
    }
    r
}

/// The rejection message for a wire form of `got` bytes instead of eighty.
pub open spec fn length_error_message(got: nat) -> Seq<char> {
    "expected 80 bytes, got "@ + decimal_spec(got)
}

/// The value of an ASCII hex digit, or 16 for any other byte.
pub open spec fn hex_digit_val(c: u8) -> int {
    if 0x30 <= c <= 0x39 {
        c - 0x30
    } else if 0x61 <= c <= 0x66 {
        c - 0x61 + 10
    } else if 0x41 <= c <= 0x46 {
        c - 0x41 + 10
    } else {
        16
    }
}

/// A hex string with every leading `0x` marker removed.
pub open spec fn strip_hex_prefix(s: Seq<u8>) -> Seq<u8>
    decreases s.len(),
{
    if s.len() >= 2 && s[0] == 0x30 && s[1] == 0x78 {
        strip_hex_prefix(s.subrange(2, s.len() as int))
    } else {
        s
    }
}

/// The value of one ASCII hex digit.
pub fn hex_digit(c: u8) -> (r: Option<u8>)
    ensures
        r is Some <==> hex_digit_val(c) < 16,
        r matches Some(v) ==> v == hex_digit_val(c),
{
    if 0x30 <= c && c <= 0x39 {
        Some(c - 0x30)
    } else if 0x61 <= c && c <= 0x66 {
        Some(c - 0x61 + 10)
    } else if 0x41 <= c && c <= 0x46 {
        Some(c - 0x41 + 10)
    } else {
        None
    }
}

/// Parses a 32-byte hash from its ASCII hex form, with any leading `0x`
/// markers removed first: exactly 64 hex digits, or nothing.
pub fn parse_hash_hex(s: &Vec<u8>) -> (r: Option<Vec<u8>>)
    ensures
        r is Some <==> (strip_hex_prefix(s@).len() == 64 && forall|k: int|
            0 <= k < 64 ==> hex_digit_val(strip_hex_prefix(s@)[k]) < 16),
        r matches Some(v) ==> {
            &&& v@.len() == 32
            &&& forall|j: int|
                0 <= j < 32 ==> v@[j] == hex_digit_val(strip_hex_prefix(s@)[2 * j]) * 16
                    + hex_digit_val(strip_hex_prefix(s@)[2 * j + 1])
        },
{
    let n = s.len();
    proof {
        assert(s@.subrange(0, n as int) =~= s@);
    }
    let mut start: usize = 0;
    while n - start >= 2 && s[start] == 0x30 && s[start + 1] == 0x78
        invariant
            start <= n,
            n == s@.len(),
            strip_hex_prefix(s@) == strip_hex_prefix(s@.subrange(start as int, n as int)),
        decreases n - start,
    {
        proof {
            let cur = s@.subrange(start as int, n as int);
            assert(cur.subrange(2, cur.len() as int) =~= s@.subrange(start + 2, n as int));
        }
        start = start + 2;
    }
    proof {
        let cur = s@.subrange(start as int, n as int);
        if start < n {
            assert(cur[0] == s@[start as int]);
        }
        if start + 1 < n {
            assert(cur[1] == s@[start + 1]);
        }
        assert(strip_hex_prefix(cur) == cur);
    }
    let ghost stripped = strip_hex_prefix(s@);
    if n - start != 64 {
        return None;
    }
    let mut out: Vec<u8> = Vec::new();
    let mut j: usize = 0;
    while j < 32
        invariant
            j <= 32,
            n == s@.len(),
            start + 64 == n,
            stripped == s@.subrange(start as int, n as int),
            stripped == strip_hex_prefix(s@),
            stripped.len() == 64,
            out@.len() == j,
            forall|t: int|
                0 <= t < j ==> out@[t] == hex_digit_val(stripped[2 * t]) * 16 + hex_digit_val(
                    stripped[2 * t + 1],
                ),
            forall|t: int|
                0 <= t < 2 * j ==> hex_digit_val(#[trigger] stripped[t]) < 16,
        decreases 32 - j,
    {
        proof {
            assert(stripped[2 * j] == s@[start + 2 * j]);
            assert(stripped[2 * j + 1] == s@[start + 2 * j + 1]);
        }
        let hi = match hex_digit(s[start + 2 * j]) {
            Some(v) => v,
            None => {
                proof {
                    assert(!(hex_digit_val(strip_hex_prefix(s@)[2 * j]) < 16));
                }
                return None;
            },
        };
        let lo = match hex_digit(s[start + 2 * j + 1]) {
            Some(v) => v,
            None => {
                proof {
                    assert(!(hex_digit_val(strip_hex_prefix(s@)[2 * j + 1]) < 16));
                }
                return None;
            },
        };
        out.push(hi * 16 + lo);
        j = j + 1;
    }
    Some(out)
}

impl BlockInfo {
    /// All four words are 32 bytes.
    pub open spec fn wf(&self) -> bool {
        &&& self.previous_block@.len() == 32
        &&& self.block_hash@.len() == 32
        &&& self.transaction_root@.len() == 32
        &&& self.receipt_root@.len() == 32
    }

    /// The packed layout: the four 32-byte words in order, no padding.
    pub open spec fn encoding(&self) -> Seq<u8> {
        self.previous_block@ + self.block_hash@ + self.transaction_root@ + self.receipt_root@
    }

    /// Packs the block info into its 128-byte wire form.
    pub fn abi_encode_packed(&self) -> (r: Vec<u8>)
        ensures
            r@ == self.encoding(),
            self.wf() ==> r@.len() == 128,
    {
        let mut buf: Vec<u8> = Vec::new();
        extend_bytes(&mut buf, &self.previous_block);
        extend_bytes(&mut buf, &self.block_hash);
        extend_bytes(&mut buf, &self.transaction_root);
        extend_bytes(&mut buf, &self.receipt_root);
        assert(buf@ =~= self.encoding());
        buf
    }
}

} // verus!
