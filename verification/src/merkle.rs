//! Merkle aggregation of a batch's state roots: a binary Merkle root over an
//! ordered sequence of 32-byte leaves, with the level padded by duplicating
//! its last element whenever it has odd length.

use vstd::prelude::*;
use crate::bytes::{clone_bytes, extend_bytes, views_of, zero_bytes};
use crate::hashing::{keccak, keccak_spec};

verus! {

/// Thirty-two zero bytes, the root of an empty batch.
pub open spec fn zero_word() -> Seq<u8> {
    Seq::new(32, |i: int| 0u8)
}

/// A level padded to even length by duplicating its last element. The
/// duplicate-last tie-break is deliberate: any other padding rule gives a
/// different root for every batch with an odd number of blocks.
pub open spec fn pad_level(level: Seq<Seq<u8>>) -> Seq<Seq<u8>> {
    if level.len() % 2 == 1 {
        level.push(level.last())
    } else {
        level
    }
}

/// One aggregation step: adjacent elements of the padded level are
/// concatenated and hashed.
pub open spec fn next_level(level: Seq<Seq<u8>>) -> Seq<Seq<u8>> {
    Seq::new(
        pad_level(level).len() / 2,
        |i: int| keccak_spec(pad_level(level)[2 * i] + pad_level(level)[2 * i + 1]),
    )
}

/// The Merkle root of an ordered sequence of leaves: the zero word for no
/// leaves, the leaf itself for one, and otherwise the root of the next level.
pub open spec fn merkle_root_spec(leaves: Seq<Seq<u8>>) -> Seq<u8>
    decreases leaves.len(),
{
    if leaves.len() == 0 {
        zero_word()
    } else if leaves.len() == 1 {
        leaves[0]
    } else {
        merkle_root_spec(next_level(leaves))
    }
}

/// Aggregating one level leaves the root unchanged.
pub proof fn lemma_merkle_step(level: Seq<Seq<u8>>)
    requires
        level.len() >= 2,
    ensures
        merkle_root_spec(next_level(level)) == merkle_root_spec(level),
{
}

/// The root of no leaves is the zero word.
pub proof fn lemma_merkle_empty()
    ensures
        merkle_root_spec(Seq::<Seq<u8>>::empty()) == zero_word(),
{
}

/// The root of a single leaf is that leaf.
pub proof fn lemma_merkle_singleton(x: Seq<u8>)
    ensures
        merkle_root_spec(seq![x]) == x,
{
}

/// For three leaves the first two are paired and the third is padded by
/// duplicating itself: the root is `hash(hash(a‖b) ‖ hash(c‖c))`.
pub proof fn lemma_merkle_three(a: Seq<u8>, b: Seq<u8>, c: Seq<u8>)
    ensures
        merkle_root_spec(seq![a, b, c]) == keccak_spec(keccak_spec(a + b) + keccak_spec(c + c)),
{
    let l = seq![a, b, c];
    assert(pad_level(l) =~= seq![a, b, c, c]);
    assert(next_level(l) =~= seq![keccak_spec(a + b), keccak_spec(c + c)]);
    let l2 = next_level(l);
    assert(pad_level(l2) =~= l2);
    assert(next_level(l2) =~= seq![keccak_spec(keccak_spec(a + b) + keccak_spec(c + c))]);
    assert(merkle_root_spec(l) == merkle_root_spec(l2));
    assert(merkle_root_spec(l2) == merkle_root_spec(next_level(l2)));
}

/// For two leaves the root is the hash of their concatenation.
pub proof fn lemma_merkle_two(a: Seq<u8>, b: Seq<u8>)
    ensures
        merkle_root_spec(seq![a, b]) == keccak_spec(a + b),
{
    let l = seq![a, b];
    assert(pad_level(l) =~= l);
    assert(next_level(l) =~= seq![keccak_spec(a + b)]);
    let l2 = seq![keccak_spec(a + b)];
    assert(merkle_root_spec(l2) == keccak_spec(a + b));
    assert(merkle_root_spec(l) == merkle_root_spec(l2));
}

/// The Merkle root of the given leaves, in order.
pub fn merkle_root(leaves: &Vec<Vec<u8>>) -> (r: Vec<u8>)
    ensures
        r@ == merkle_root_spec(views_of(leaves@)),
{
    let n = leaves.len();
    if n == 0 {
        let r = zero_bytes(32);
        assert(r@ =~= zero_word());
        return r;
    }
    let mut level: Vec<Vec<u8>> = Vec::new();
    let mut i: usize = 0;
    while i < n
        invariant
            i <= n,
            n == leaves@.len(),
            views_of(level@) == views_of(leaves@).take(i as int),
        decreases n - i,
    {
        let ghost pre = level@;
        proof {
            assert(views_of(pre).len() == pre.len());
            assert(pre.len() == i);
        }
        level.push(clone_bytes(&leaves[i]));
        proof {
            assert forall|k: int| 0 <= k < i + 1 implies views_of(level@)[k] == views_of(
                leaves@,
            ).take(i + 1)[k] by {
                assert(views_of(level@)[k] == level@[k]@);
                if k < i {
                    assert(level@[k] == pre[k]);
                    assert(views_of(pre)[k] == pre[k]@);
                    assert(views_of(pre)[k] == views_of(leaves@).take(i as int)[k]);
                } else {
                    assert(level@[k]@ == leaves@[k]@);
                }
            }
            assert(views_of(level@) =~= views_of(leaves@).take(i + 1));
        }
        i = i + 1;
    }
    proof {
        assert(views_of(leaves@).take(n as int) =~= views_of(leaves@));
    }
    while level.len() >= 2
        invariant
            level@.len() >= 1,
            merkle_root_spec(views_of(level@)) == merkle_root_spec(views_of(leaves@)),
        decreases level@.len(),
    {
        let ghost cur = views_of(level@);
        let ghost start_len = level@.len();
        if level.len() % 2 == 1 {
            let idx = level.len() - 1;
            let last = clone_bytes(&level[idx]);
            level.push(last);
        }
        proof {
            assert(views_of(level@) =~= pad_level(cur));
        }
        let lv_len = level.len();
        let m = lv_len / 2;
        let mut next: Vec<Vec<u8>> = Vec::new();
        let mut j: usize = 0;
        while j < m
            invariant
                j <= m,
                lv_len == level@.len(),
                2 * m == lv_len,
                views_of(level@) == pad_level(cur),
                next_level(cur).len() == m,
                views_of(next@) == next_level(cur).take(j as int),
            decreases m - j,
        {
            let k = 2 * j;
            let mut buf: Vec<u8> = Vec::new();
            extend_bytes(&mut buf, &level[k]);
            extend_bytes(&mut buf, &level[k + 1]);
            proof {
                assert(buf@ =~= pad_level(cur)[2 * j] + pad_level(cur)[2 * j + 1]);
            }
            let h = keccak(&buf);
            let ghost pre = next@;
            proof {
                assert(views_of(pre).len() == pre.len());
                assert(pre.len() == j);
            }
            next.push(h);
            proof {
                assert forall|k: int| 0 <= k < j + 1 implies views_of(next@)[k] == next_level(
                    cur,
                ).take(j + 1)[k] by {
                    assert(views_of(next@)[k] == next@[k]@);
                    if k < j {
                        assert(next@[k] == pre[k]);
                        assert(views_of(pre)[k] == pre[k]@);
                        assert(views_of(pre)[k] == next_level(cur).take(j as int)[k]);
                    } else {
                        assert(next@[k]@ == h@);
                        assert(next_level(cur)[k] == keccak_spec(
                            pad_level(cur)[2 * k] + pad_level(cur)[2 * k + 1],
                        ));
                    }
                }
                assert(views_of(next@) =~= next_level(cur).take(j + 1));
            }
            j = j + 1;
        }
        proof {
            assert(next_level(cur).take(m as int) =~= next_level(cur));
            lemma_merkle_step(cur);
        }
        level = next;
        proof {
            assert(level@.len() < start_len);
        }
    }
    let r = clone_bytes(&level[0]);
    assert(views_of(level@) =~= seq![level@[0]@]);
    r
}

} // verus!
