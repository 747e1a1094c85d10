//! A structural screen over Merkle-Patricia proof nodes. The outside trie
//! verifier walks attacker-supplied node bytes and aborts, instead of
//! returning an error, on shapes no honest trie contains: a branch child
//! encoded in place that is an extension node whose own child is anything
//! but a branch node; a two-item node whose key payload overruns the
//! 32-byte nibble unpacking, or makes 65 nibbles under an odd flag; and any
//! bundle whose accumulated walk outgrows the 64 nibbles of a hashed key —
//! the walked path is one object extended across every node of the proof
//! and every in-place child. Before a bundle reaches the verifier, this
//! screen parses each node under the verifier's own framing rules, rejects
//! those shapes and anything it cannot parse, and bounds the whole walk, so
//! a malformed bundle fails verification instead of aborting it.

use vstd::prelude::*;
use crate::bytes::{be_val, be_val_of, copy_range, lemma_be_val_bound, lemma_pow256_monotonic,
    lemma_pow256_values, pow256, views_of};

verus! {

/// One parsed RLP header at position `i` of `s`: the payload's absolute
/// start, its length, and whether the item is a list. `None` mirrors every
/// framing error of the outside decoder: a missing byte, a non-canonical
/// length, a payload running past the end.
pub open spec fn rlp_header_spec(s: Seq<u8>, i: int) -> Option<(int, int, bool)> {
    if !(0 <= i < s.len()) {
        None
    } else {
        let b = s[i];
        if b <= 0x7f {
            Some((i, 1, false))
        } else if b <= 0xb7 {
            let pl = b - 0x80;
            if i + 1 + pl > s.len() {
                None
            } else if pl == 1 && s[i + 1] < 0x80 {
                None
            } else {
                Some((i + 1, pl as int, false))
            }
        } else if b <= 0xbf {
            let lol = b - 0xb7;
            if i + 1 + lol > s.len() {
                None
            } else if s[i + 1] == 0 {
                None
            } else {
                let pl = be_val(s.subrange(i + 1, i + 1 + lol));
                if pl < 56 {
                    None
                } else if i + 1 + lol + pl > s.len() {
                    None
                } else {
                    Some((i + 1 + lol, pl as int, false))
                }
            }
        } else if b <= 0xf7 {
            let pl = b - 0xc0;
            if i + 1 + pl > s.len() {
                None
            } else {
                Some((i + 1, pl as int, true))
            }
        } else {
            let lol = b - 0xf7;
            if i + 1 + lol > s.len() {
                None
            } else if s[i + 1] == 0 {
                None
            } else {
                let pl = be_val(s.subrange(i + 1, i + 1 + lol));
                if pl < 56 {
                    None
                } else if i + 1 + lol + pl > s.len() {
                    None
                } else {
                    Some((i + 1 + lol, pl as int, true))
                }
            }
        }
    }
}

/// The consecutive items of a list payload `s[from..to)`, each as its
/// `(start, end)` span, header included. `None` when an item cannot be
/// framed or overruns the payload.
pub open spec fn rlp_items_spec(s: Seq<u8>, from: int, to: int) -> Option<Seq<(int, int)>>
    decreases to - from,
{
    if from >= to {
        if from == to {
            Some(Seq::empty())
        } else {
            None
        }
    } else {
        match rlp_header_spec(s, from) {
            None => None,
            Some(h) => {
                let end = h.0 + h.1;
                if end > to || end <= from {
                    None
                } else {
                    match rlp_items_spec(s, end, to) {
                        None => None,
                        Some(rest) => Some(seq![(from, end)] + rest),
                    }
                }
            },
        }
    }
}

/// Every item span of a framed list lies inside the payload and is
/// nonempty.
pub proof fn lemma_items_in_bounds(s: Seq<u8>, from: int, to: int, items: Seq<(int, int)>)
    requires
        rlp_items_spec(s, from, to) == Some(items),
    ensures
        forall|k: int|
            0 <= k < items.len() ==> {
                let sp = #[trigger] items[k];
                from <= sp.0 < sp.1 <= to
            },
    decreases to - from,
{
    if from < to {
        let h = rlp_header_spec(s, from)->Some_0;
        let end = h.0 + h.1;
        let rest = rlp_items_spec(s, end, to)->Some_0;
        lemma_items_in_bounds(s, end, to, rest);
        assert forall|k: int| 0 <= k < items.len() implies {
            let sp = #[trigger] items[k];
            from <= sp.0 < sp.1 <= to
        } by {
            if k > 0 {
                assert(items[k] == rest[k - 1]);
            }
        }
    }
}

/// The decoded shape of a trie node, as the outside decoder classifies it.
#[derive(Clone, Copy, Debug, PartialEq, Eq, Structural)]
pub enum NodeShape {
    /// An empty string: the empty root marker.
    Empty,
    /// A seventeen-item list.
    Branch,
    /// A two-item list whose key flag marks an extension.
    Extension,
    /// A two-item list whose key flag marks a leaf.
    Leaf,
}

/// The raw bytes of an item span.
pub open spec fn item_of(s: Seq<u8>, sp: (int, int)) -> Seq<u8> {
    s.subrange(sp.0, sp.1)
}

/// The empty-child marker: a lone empty-string byte.
pub open spec fn is_empty_item(s: Seq<u8>, sp: (int, int)) -> bool {
    item_of(s, sp) == seq![0x80u8]
}

/// Whether a seventeen-item node decodes as a branch: an empty value slot
/// and every nonempty child at most 33 bytes.
pub open spec fn branch_decode_ok(s: Seq<u8>, items: Seq<(int, int)>) -> bool {
    &&& is_empty_item(s, items[16])
    &&& forall|i: int|
        0 <= i < 16 ==> (is_empty_item(s, #[trigger] items[i]) || items[i].1 - items[i].0 <= 33)
}

/// The shape of a two-item node: the key item must be a nonempty string
/// whose first payload byte carries a leaf or extension flag in its high
/// nibble; a leaf's value item must be a string; an extension's child item
/// must be at most 33 bytes.
pub open spec fn pair_shape(s: Seq<u8>, items: Seq<(int, int)>) -> Option<NodeShape> {
    match rlp_header_spec(s, items[0].0) {
        None => None,
        Some(h) => {
            if h.2 {
                None
            } else if h.1 == 0 {
                None
            } else {
                let flag = s[h.0] >> 4;
                if flag == 0 || flag == 1 {
                    if items[1].1 - items[1].0 <= 33 {
                        Some(NodeShape::Extension)
                    } else {
                        None
                    }
                } else if flag == 2 || flag == 3 {
                    match rlp_header_spec(s, items[1].0) {
                        None => None,
                        Some(h1) => if h1.2 {
                            None
                        } else {
                            Some(NodeShape::Leaf)
                        },
                    }
                } else {
                    None
                }
            }
        },
    }
}

/// What the outside decoder makes of a node's bytes: `None` on any decode
/// error, otherwise its shape. Bytes past the first item are ignored, as
/// the decoder ignores them.
pub open spec fn node_shape_spec(s: Seq<u8>) -> Option<NodeShape> {
    match rlp_header_spec(s, 0) {
        None => None,
        Some(h) => {
            if !h.2 {
                if h.1 == 0 {
                    Some(NodeShape::Empty)
                } else {
                    None
                }
            } else {
                match rlp_items_spec(s, h.0, h.0 + h.1) {
                    None => None,
                    Some(items) => {
                        if items.len() == 17 {
                            if branch_decode_ok(s, items) {
                                Some(NodeShape::Branch)
                            } else {
                                None
                            }
                        } else if items.len() == 2 {
                            pair_shape(s, items)
                        } else {
                            None
                        }
                    },
                }
            }
        },
    }
}

/// The item spans of a node that frames as a list.
pub open spec fn node_items(s: Seq<u8>) -> Seq<(int, int)> {
    match rlp_header_spec(s, 0) {
        Some(h) => match rlp_items_spec(s, h.0, h.0 + h.1) {
            Some(items) => items,
            None => Seq::empty(),
        },
        None => Seq::empty(),
    }
}

/// An extension node's raw child bytes: its second item.
pub open spec fn ext_child_bytes(s: Seq<u8>) -> Seq<u8> {
    item_of(s, node_items(s)[1])
}

/// Whether decoding this node's bytes itself aborts. The outside decoder
/// unpacks a two-item node's key before it looks at anything else: a key
/// payload past 33 bytes overruns the 32-byte unpacking bound, and exactly
/// 33 bytes under an odd flag makes 65 nibbles, one past a hashed key — the
/// decoder asserts on both instead of returning an error.
pub open spec fn decode_panics(s: Seq<u8>) -> bool {
    match rlp_header_spec(s, 0) {
        None => false,
        Some(h) => h.2 && match rlp_items_spec(s, h.0, h.0 + h.1) {
            None => false,
            Some(items) => items.len() == 2 && match rlp_header_spec(s, items[0].0) {
                None => false,
                Some(h0) => {
                    &&& !h0.2
                    &&& h0.1 >= 1
                    &&& s[h0.0] >> 4 <= 3
                    &&& (h0.1 > 33 || ((s[h0.0] >> 4 == 1 || s[h0.0] >> 4 == 3) && h0.1 > 32))
                },
            },
        },
    }
}

/// Saturation of the nibble accounting at 65, one past the longest path a
/// hashed key allows: an over-long contribution stays over-long.
pub open spec fn cap65(x: int) -> int {
    if x > 65 {
        65
    } else {
        x
    }
}

/// The nibble count of a two-item node's key: two per payload byte after
/// the flag byte, plus one under an odd flag; saturated.
pub open spec fn key_nibbles_of(s: Seq<u8>) -> int {
    match rlp_header_spec(s, node_items(s)[0].0) {
        None => 0,
        Some(h) => if h.1 < 1 {
            0
        } else {
            let odd = s[h.0] >> 4 == 1 || s[h.0] >> 4 == 3;
            cap65(
                2 * (h.1 - 1) + if odd {
                    1int
                } else {
                    0int
                },
            )
        },
    }
}

/// No walk of this node by the outside verifier can reach its aborting
/// shapes, whatever key is being proven: decoding it must not abort on its
/// key, and in the verifier's outer walk an undecodable node, the empty
/// marker and a leaf end safely; an extension's in-place child is walked in
/// the same outer way; only a branch leads to the in-place handling below.
pub open spec fn node_safe_outer(s: Seq<u8>) -> bool
    decreases s.len(), 3int, 1int,
{
    if decode_panics(s) {
        false
    } else {
        node_safe_outer_shape(s)
    }
}

/// The shape part of the outer screen, after the decode gate.
pub open spec fn node_safe_outer_shape(s: Seq<u8>) -> bool
    decreases s.len(), 3int, 0int,
{
    match node_shape_spec(s) {
        None => true,
        Some(NodeShape::Empty) => true,
        Some(NodeShape::Leaf) => true,
        Some(NodeShape::Extension) => {
            let c = ext_child_bytes(s);
            if c.len() == 33 {
                true
            } else if c.len() < s.len() {
                node_safe_outer(c)
            } else {
                false
            }
        },
        Some(NodeShape::Branch) => children_safe_from(s, 0),
    }
}

/// Every child slot of a branch, from slot `i` on, is safe to process.
pub open spec fn children_safe_from(s: Seq<u8>, i: int) -> bool
    decreases s.len(), 2int, 16 - i,
{
    if !(0 <= i < 16) {
        true
    } else {
        child_slot_safe_at(s, i) && children_safe_from(s, i + 1)
    }
}

/// One child slot of a branch: an empty marker or a 33-byte hash reference
/// is left alone; anything else is decoded in place.
pub open spec fn child_slot_safe_at(s: Seq<u8>, i: int) -> bool
    decreases s.len(), 1int, 0int,
{
    let c = item_of(s, node_items(s)[i]);
    if c == seq![0x80u8] {
        true
    } else if c.len() == 33 {
        true
    } else if c.len() < s.len() {
        child_safe_inner(c)
    } else {
        false
    }
}

/// Processing an in-place branch child cannot abort: a nested branch's own
/// children must be safe in turn, and an in-place extension's child must
/// either fail to decode or be a branch — any other decodable child is
/// exactly the verifier's aborting shape.
pub open spec fn child_safe_inner(c: Seq<u8>) -> bool
    decreases c.len(), 4int, 1int,
{
    if decode_panics(c) {
        false
    } else {
        child_safe_inner_shape(c)
    }
}

/// The shape part of the in-place screen, after the decode gate: the
/// grandchild of an in-place extension is decoded too, so its own decode
/// must not abort either.
pub open spec fn child_safe_inner_shape(c: Seq<u8>) -> bool
    decreases c.len(), 4int, 0int,
{
    match node_shape_spec(c) {
        None => true,
        Some(NodeShape::Empty) => true,
        Some(NodeShape::Leaf) => true,
        Some(NodeShape::Branch) => children_safe_from(c, 0),
        Some(NodeShape::Extension) => {
            let g = ext_child_bytes(c);
            if decode_panics(g) {
                false
            } else {
                match node_shape_spec(g) {
                    None => true,
                    Some(NodeShape::Branch) => if g.len() < c.len() {
                        children_safe_from(g, 0)
                    } else {
                        false
                    },
                    Some(NodeShape::Empty) => false,
                    Some(NodeShape::Extension) => false,
                    Some(NodeShape::Leaf) => false,
                }
            }
        },
    }
}

/// The most the verifier's walk can add to its path from this node in the
/// outer walk, saturated: a leaf or extension adds its key before anything
/// else is looked at, an in-place extension child walks on, and a branch
/// adds one nibble plus whichever in-place child the key selects.
pub open spec fn node_walk_nibbles(s: Seq<u8>) -> int
    decreases s.len(), 3int, 0int,
{
    match node_shape_spec(s) {
        None => 0,
        Some(NodeShape::Empty) => 0,
        Some(NodeShape::Leaf) => key_nibbles_of(s),
        Some(NodeShape::Extension) => {
            let c = ext_child_bytes(s);
            if c.len() == 33 {
                key_nibbles_of(s)
            } else if c.len() < s.len() {
                cap65(key_nibbles_of(s) + node_walk_nibbles(c))
            } else {
                65
            }
        },
        Some(NodeShape::Branch) => cap65(1 + children_walk_from(s, 0)),
    }
}

/// The largest walk contribution among a branch's child slots from `i` on.
pub open spec fn children_walk_from(s: Seq<u8>, i: int) -> int
    decreases s.len(), 2int, 16 - i,
{
    if !(0 <= i < 16) {
        0
    } else {
        let here = slot_walk_at(s, i);
        let rest = children_walk_from(s, i + 1);
        if here >= rest {
            here
        } else {
            rest
        }
    }
}

/// One slot's walk contribution: nothing for an empty marker or a hash
/// reference, the in-place walk otherwise.
pub open spec fn slot_walk_at(s: Seq<u8>, i: int) -> int
    decreases s.len(), 1int, 0int,
{
    let c = item_of(s, node_items(s)[i]);
    if c == seq![0x80u8] {
        0
    } else if c.len() == 33 {
        0
    } else if c.len() < s.len() {
        child_walk_inner(c)
    } else {
        65
    }
}

/// An in-place branch child's walk contribution: its key goes onto the
/// path before its own child is looked at.
pub open spec fn child_walk_inner(c: Seq<u8>) -> int
    decreases c.len(), 4int, 0int,
{
    match node_shape_spec(c) {
        None => 0,
        Some(NodeShape::Empty) => 0,
        Some(NodeShape::Leaf) => key_nibbles_of(c),
        Some(NodeShape::Branch) => cap65(1 + children_walk_from(c, 0)),
        Some(NodeShape::Extension) => {
            let g = ext_child_bytes(c);
            match node_shape_spec(g) {
                Some(NodeShape::Branch) => if g.len() < c.len() {
                    cap65(key_nibbles_of(c) + 1 + children_walk_from(g, 0))
                } else {
                    65
                },
                _ => key_nibbles_of(c),
            }
        },
    }
}

/// The walk contributions of all proof nodes from index `i` on.
pub open spec fn walk_total_from(nodes: Seq<Seq<u8>>, i: int) -> int
    decreases nodes.len() - i,
{
    if !(0 <= i < nodes.len()) {
        0
    } else {
        node_walk_nibbles(nodes[i]) + walk_total_from(nodes, i + 1)
    }
}

/// Slots safe one by one, from `i` on, are safe as a chain.
pub proof fn lemma_children_safe_from(s: Seq<u8>, i: int)
    requires
        0 <= i <= 16,
        forall|k: int| i <= k < 16 ==> #[trigger] child_slot_safe_at(s, k),
    ensures
        children_safe_from(s, i),
    decreases 16 - i,
{
    if i < 16 {
        lemma_children_safe_from(s, i + 1);
        assert(child_slot_safe_at(s, i));
        assert(children_safe_from(s, i) == (child_slot_safe_at(s, i) && children_safe_from(
            s,
            i + 1,
        )));
    } else {
        assert(children_safe_from(s, i));
    }
}

/// A safe chain of slots makes each of its slots safe.
pub proof fn lemma_children_safe_at(s: Seq<u8>, j: int, i: int)
    requires
        0 <= j <= i < 16,
        children_safe_from(s, j),
    ensures
        child_slot_safe_at(s, i),
    decreases i - j,
{
    if j < i {
        lemma_children_safe_at(s, j + 1, i);
    }
}

/// Every node of a proof passes the structural screen, and the walk over
/// the whole list cannot outgrow a hashed key's 64 nibbles — the verifier
/// extends one accumulated path across all nodes, so the bound is a
/// property of the list, not of any one node.
pub open spec fn proof_nodes_safe(nodes: Seq<Seq<u8>>) -> bool {
    &&& forall|i: int| 0 <= i < nodes.len() ==> node_safe_outer(#[trigger] nodes[i])
    &&& walk_total_from(nodes, 0) <= 64
}

/// Parses one RLP header at position `i` of `v`, by the outside decoder's
/// rules: payload start, payload length, list flag.
pub fn rlp_header(v: &Vec<u8>, i: usize) -> (r: Option<(usize, usize, bool)>)
    ensures
        r is None ==> rlp_header_spec(v@, i as int) is None,
        r matches Some(t) ==> {
            &&& rlp_header_spec(v@, i as int) == Some((t.0 as int, t.1 as int, t.2))
            &&& i <= t.0
            &&& i < t.0 + t.1
            &&& t.0 + t.1 <= v@.len()
        },
{
    let n = v.len();
    if i >= n {
        return None;
    }
    let b = v[i];
    if b <= 0x7f {
        Some((i, 1, false))
    } else if b <= 0xb7 {
        let pl = (b - 0x80) as usize;
        if pl > n - (i + 1) {
            None
        } else if pl == 1 && v[i + 1] < 0x80 {
            None
        } else {
            Some((i + 1, pl, false))
        }
    } else if b <= 0xbf {
        rlp_header_long(v, i, (b - 0xb7) as usize, false)
    } else if b <= 0xf7 {
        let pl = (b - 0xc0) as usize;
        if pl > n - (i + 1) {
            None
        } else {
            Some((i + 1, pl, true))
        }
    } else {
        rlp_header_long(v, i, (b - 0xf7) as usize, true)
    }
}

/// The long-form tail of `rlp_header`: a length-of-length in 1..=8, then a
/// canonical big-endian payload length of at least 56.
fn rlp_header_long(v: &Vec<u8>, i: usize, lol: usize, is_list: bool) -> (r: Option<
    (usize, usize, bool),
>)
    requires
        i < v@.len(),
        1 <= lol <= 8,
        is_list ==> v@[i as int] >= 0xf8,
        !is_list ==> 0xb8 <= v@[i as int] <= 0xbf,
        lol == (if is_list {
            v@[i as int] - 0xf7
        } else {
            v@[i as int] - 0xb7
        }),
    ensures
        r is None ==> rlp_header_spec(v@, i as int) is None,
        r matches Some(t) ==> {
            &&& rlp_header_spec(v@, i as int) == Some((t.0 as int, t.1 as int, t.2))
            &&& i <= t.0
            &&& i < t.0 + t.1
            &&& t.0 + t.1 <= v@.len()
        },
{
    let n = v.len();
    if lol > n - (i + 1) {
        return None;
    }
    if v[i + 1] == 0 {
        return None;
    }
    let plv = be_val_of(v, i + 1, lol);
    proof {
        lemma_be_val_bound(v@.subrange(i + 1, i + 1 + lol));
        lemma_pow256_monotonic(lol as nat, 8);
        lemma_pow256_values();
    }
    if plv < 56 {
        return None;
    }
    let ps = i + 1 + lol;
    if plv > (n - ps) as u64 {
        return None;
    }
    let pl = plv as usize;
    Some((ps, pl, is_list))
}

/// The view of exec item spans as the spec's integer spans.
pub open spec fn spans_view(items: Seq<(usize, usize)>) -> Seq<(int, int)> {
    Seq::new(items.len(), |i: int| (items[i].0 as int, items[i].1 as int))
}

/// Frames the consecutive items of a list payload `v[from..to)`.
pub fn rlp_items(v: &Vec<u8>, from: usize, to: usize) -> (r: Option<Vec<(usize, usize)>>)
    requires
        from <= to,
        to <= v@.len(),
    ensures
        r is None ==> rlp_items_spec(v@, from as int, to as int) is None,
        r matches Some(items) ==> rlp_items_spec(v@, from as int, to as int) == Some(
            spans_view(items@),
        ),
{
    let mut acc: Vec<(usize, usize)> = Vec::new();
    let mut cur: usize = from;
    while cur < to
        invariant
            from <= cur <= to,
            to <= v@.len(),
            rlp_items_spec(v@, from as int, to as int) == opt_concat(
                spans_view(acc@),
                rlp_items_spec(v@, cur as int, to as int),
            ),
        decreases to - cur,
    {
        let n = v.len();
        let h = match rlp_header(v, cur) {
            Some(h) => h,
            None => {
                proof {
                    assert(rlp_items_spec(v@, cur as int, to as int) is None);
                }
                return None;
            },
        };
        let end = h.0 + h.1;
        if end > to {
            return None;
        }
        let ghost pre = acc@;
        acc.push((cur, end));
        proof {
            let rest = rlp_items_spec(v@, end as int, to as int);
            assert(rlp_items_spec(v@, cur as int, to as int) == opt_concat(
                seq![(cur as int, end as int)],
                rest,
            ));
            assert(spans_view(acc@) =~= spans_view(pre) + seq![(cur as int, end as int)]);
            match rest {
                None => {},
                Some(r0) => {
                    assert((spans_view(pre) + seq![(cur as int, end as int)]) + r0 =~= spans_view(
                        pre,
                    ) + (seq![(cur as int, end as int)] + r0));
                },
            }
        }
        cur = end;
    }
    proof {
        assert(rlp_items_spec(v@, to as int, to as int) == Some(Seq::<(int, int)>::empty()));
        assert(spans_view(acc@) + Seq::<(int, int)>::empty() =~= spans_view(acc@));
    }
    Some(acc)
}

/// Joins a framed prefix with the framing of the remainder.
pub open spec fn opt_concat(pre: Seq<(int, int)>, rest: Option<Seq<(int, int)>>) -> Option<
    Seq<(int, int)>,
> {
    match rest {
        None => None,
        Some(r) => Some(pre + r),
    }
}

/// Classifies a node's bytes as the outside decoder would.
pub fn node_shape_of(v: &Vec<u8>) -> (r: Option<NodeShape>)
    ensures
        r == node_shape_spec(v@),
{
    let n = v.len();
    let h = match rlp_header(v, 0) {
        Some(h) => h,
        None => {
            return None;
        },
    };
    if !h.2 {
        if h.1 == 0 {
            return Some(NodeShape::Empty);
        } else {
            return None;
        }
    }
    let items = match rlp_items(v, h.0, h.0 + h.1) {
        Some(items) => items,
        None => {
            return None;
        },
    };
    proof {
        lemma_items_in_bounds(v@, h.0 as int, h.0 + h.1, spans_view(items@));
    }
    if items.len() == 17 {
        let ghost ispec = spans_view(items@);
        let val = items[16];
        if !(val.1 - val.0 == 1 && v[val.0] == 0x80) {
            proof {
                assert(item_of(v@, ispec[16]) =~= v@.subrange(val.0 as int, val.1 as int));
                if val.1 - val.0 == 1 {
                    assert(item_of(v@, ispec[16])[0] == v@[val.0 as int]);
                    assert(item_of(v@, ispec[16]) != seq![0x80u8]);
                } else {
                    assert(item_of(v@, ispec[16]).len() != 1);
                }
            }
            return None;
        }
        proof {
            assert(item_of(v@, ispec[16]) =~= seq![0x80u8]);
        }
        let mut i: usize = 0;
        while i < 16
            invariant
                i <= 16,
                items@.len() == 17,
                ispec == spans_view(items@),
                rlp_header_spec(v@, 0) == Some((h.0 as int, h.1 as int, true)),
                rlp_items_spec(v@, h.0 as int, h.0 + h.1) == Some(ispec),
                is_empty_item(v@, ispec[16]),
                forall|k: int|
                    0 <= k < i ==> (is_empty_item(v@, #[trigger] ispec[k]) || ispec[k].1
                        - ispec[k].0 <= 33),
                forall|k: int|
                    0 <= k < ispec.len() ==> 0 <= (#[trigger] ispec[k]).0 < ispec[k].1
                        <= v@.len(),
            decreases 16 - i,
        {
            let sp = items[i];
            proof {
                assert(ispec[i as int] == (sp.0 as int, sp.1 as int));
            }
            if sp.1 - sp.0 > 33 {
                proof {
                    assert(item_of(v@, ispec[i as int]).len() == sp.1 - sp.0);
                    assert(!is_empty_item(v@, ispec[i as int]));
                    assert(!branch_decode_ok(v@, ispec));
                    assert(node_shape_spec(v@) is None);
                }
                return None;
            }
            i = i + 1;
        }
        proof {
            assert(branch_decode_ok(v@, ispec));
        }
        return Some(NodeShape::Branch);
    }
    if items.len() != 2 {
        return None;
    }
    let ghost ispec = spans_view(items@);
    let key_span = items[0];
    let h0 = match rlp_header(v, key_span.0) {
        Some(h0) => h0,
        None => {
            return None;
        },
    };
    if h0.2 {
        return None;
    }
    if h0.1 == 0 {
        return None;
    }
    let flag = v[h0.0] >> 4;
    if flag == 0 || flag == 1 {
        let child_span = items[1];
        if child_span.1 - child_span.0 <= 33 {
            Some(NodeShape::Extension)
        } else {
            None
        }
    } else if flag == 2 || flag == 3 {
        let val_span = items[1];
        let h1 = match rlp_header(v, val_span.0) {
            Some(h1) => h1,
            None => {
                return None;
            },
        };
        if h1.2 {
            None
        } else {
            Some(NodeShape::Leaf)
        }
    } else {
        None
    }
}

/// The span of an extension node's child item.
fn ext_child_span(v: &Vec<u8>) -> (r: (usize, usize))
    requires
        node_shape_spec(v@) == Some(NodeShape::Extension),
    ensures
        r.0 as int == node_items(v@)[1].0,
        r.1 as int == node_items(v@)[1].1,
        r.0 < r.1,
        r.1 <= v@.len(),
{
    let n = v.len();
    let h = match rlp_header(v, 0) {
        Some(h) => h,
        None => {
            proof {
                assert(false);
            }
            (0, 0, false)
        },
    };
    let items = match rlp_items(v, h.0, h.0 + h.1) {
        Some(items) => items,
        None => {
            proof {
                assert(false);
            }
            (Vec::new())
        },
    };
    proof {
        assert(spans_view(items@).len() == 2);
        lemma_items_in_bounds(v@, h.0 as int, h.0 + h.1, spans_view(items@));
        assert(node_items(v@) == spans_view(items@));
        assert(node_items(v@)[1] == (items@[1].0 as int, items@[1].1 as int));
    }
    let sp = items[1];
    (sp.0, sp.1)
}

/// Whether decoding this node aborts on its key, by the decode gate.
fn key_item_panics(v: &Vec<u8>) -> (r: bool)
    ensures
        r == decode_panics(v@),
{
    let h = match rlp_header(v, 0) {
        Some(h) => h,
        None => {
            return false;
        },
    };
    if !h.2 {
        return false;
    }
    let n = v.len();
    let items = match rlp_items(v, h.0, h.0 + h.1) {
        Some(items) => items,
        None => {
            return false;
        },
    };
    if items.len() != 2 {
        proof {
            assert(spans_view(items@).len() == items@.len());
        }
        return false;
    }
    proof {
        assert(spans_view(items@).len() == 2);
        lemma_items_in_bounds(v@, h.0 as int, h.0 + h.1, spans_view(items@));
        assert(spans_view(items@)[0] == (items@[0].0 as int, items@[0].1 as int));
    }
    let sp = items[0];
    let h0 = match rlp_header(v, sp.0) {
        Some(h0) => h0,
        None => {
            return false;
        },
    };
    if h0.2 {
        return false;
    }
    if h0.1 < 1 {
        return false;
    }
    let flag = v[h0.0] >> 4;
    if flag > 3 {
        return false;
    }
    let odd = flag == 1 || flag == 3;
    if h0.1 > 33 {
        true
    } else if odd && h0.1 > 32 {
        true
    } else {
        false
    }
}

/// The nibble count of a two-item node's key.
fn key_nibbles_exec(v: &Vec<u8>) -> (r: u64)
    requires
        node_shape_spec(v@) == Some(NodeShape::Leaf) || node_shape_spec(v@) == Some(
            NodeShape::Extension,
        ),
    ensures
        r as int == key_nibbles_of(v@),
        r <= 65,
{
    let n = v.len();
    let h = match rlp_header(v, 0) {
        Some(h) => h,
        None => {
            proof {
                assert(false);
            }
            (0, 0, false)
        },
    };
    let items = match rlp_items(v, h.0, h.0 + h.1) {
        Some(items) => items,
        None => {
            proof {
                assert(false);
            }
            (Vec::new())
        },
    };
    proof {
        assert(spans_view(items@).len() == 2);
        lemma_items_in_bounds(v@, h.0 as int, h.0 + h.1, spans_view(items@));
        assert(node_items(v@) == spans_view(items@));
        assert(node_items(v@)[0] == (items@[0].0 as int, items@[0].1 as int));
    }
    let sp = items[0];
    let h0 = match rlp_header(v, sp.0) {
        Some(h0) => h0,
        None => {
            proof {
                assert(false);
            }
            (0, 0, false)
        },
    };
    proof {
        assert(h0.1 >= 1);
    }
    let flag = v[h0.0] >> 4;
    let odd: u64 = if flag == 1 || flag == 3 {
        1
    } else {
        0
    };
    if h0.1 > 33 {
        65
    } else {
        let base = 2 * ((h0.1 - 1) as u64) + odd;
        if base > 65 {
            65
        } else {
            base
        }
    }
}

/// Screens one proof node in the verifier's outer walk and accounts the
/// most it can add to the walked path.
fn screen_node(v: &Vec<u8>) -> (r: (bool, u64))
    ensures
        r.0 == node_safe_outer(v@),
        r.0 ==> r.1 as int == node_walk_nibbles(v@),
        r.1 <= 65,
    decreases v@.len(), 3int,
{
    if key_item_panics(v) {
        return (false, 0);
    }
    match node_shape_of(v) {
        None => (true, 0),
        Some(NodeShape::Empty) => (true, 0),
        Some(NodeShape::Leaf) => {
            let k = key_nibbles_exec(v);
            (true, k)
        },
        Some(NodeShape::Extension) => {
            let k = key_nibbles_exec(v);
            let sp = ext_child_span(v);
            let c = copy_range(v, sp.0, sp.1);
            proof {
                assert(c@ == ext_child_bytes(v@));
            }
            if c.len() == 33 {
                (true, k)
            } else if c.len() < v.len() {
                let rr = screen_node(&c);
                let total = k + rr.1;
                let w = if total > 65 {
                    65
                } else {
                    total
                };
                (rr.0, w)
            } else {
                (false, 0)
            }
        },
        Some(NodeShape::Branch) => {
            let rr = screen_children(v);
            let total = 1 + rr.1;
            let w = if total > 65 {
                65
            } else {
                total
            };
            (rr.0, w)
        },
    }
}

/// The larger of two walk contributions.
spec fn walk_max2(a: int, b: int) -> int {
    if a >= b {
        a
    } else {
        b
    }
}

/// The slot maximum never goes below its zero base.
proof fn lemma_children_walk_nonneg(s: Seq<u8>, i: int)
    requires
        0 <= i <= 16,
    ensures
        children_walk_from(s, i) >= 0,
    decreases 16 - i,
{
    if i < 16 {
        lemma_children_walk_nonneg(s, i + 1);
    }
}

/// Screens every child slot of a branch node and takes the largest walk
/// contribution among them.
fn screen_children(v: &Vec<u8>) -> (r: (bool, u64))
    requires
        node_shape_spec(v@) == Some(NodeShape::Branch),
    ensures
        r.0 == children_safe_from(v@, 0),
        r.0 ==> r.1 as int == children_walk_from(v@, 0),
        r.1 <= 65,
    decreases v@.len(), 2int,
{
    let n = v.len();
    let h = match rlp_header(v, 0) {
        Some(h) => h,
        None => {
            proof {
                assert(false);
            }
            (0, 0, false)
        },
    };
    let items = match rlp_items(v, h.0, h.0 + h.1) {
        Some(items) => items,
        None => {
            proof {
                assert(false);
            }
            (Vec::new())
        },
    };
    proof {
        assert(spans_view(items@).len() == 17);
        lemma_items_in_bounds(v@, h.0 as int, h.0 + h.1, spans_view(items@));
        assert(node_items(v@) == spans_view(items@));
    }
    proof {
        lemma_children_walk_nonneg(v@, 0);
    }
    let mut acc: u64 = 0;
    let mut i: usize = 0;
    while i < 16
        invariant
            i <= 16,
            acc <= 65,
            node_shape_spec(v@) == Some(NodeShape::Branch),
            items@.len() == 17,
            node_items(v@) == spans_view(items@),
            forall|k: int|
                0 <= k < node_items(v@).len() ==> {
                    let sp = #[trigger] node_items(v@)[k];
                    0 <= sp.0 < sp.1 <= v@.len()
                },
            forall|k: int| 0 <= k < i ==> child_slot_safe_at(v@, k),
            children_walk_from(v@, 0) == walk_max2(
                acc as int,
                children_walk_from(v@, i as int),
            ),
        decreases 16 - i,
    {
        let sp = items[i];
        proof {
            assert(node_items(v@)[i as int] == (sp.0 as int, sp.1 as int));
            assert(item_of(v@, node_items(v@)[i as int]) =~= v@.subrange(
                sp.0 as int,
                sp.1 as int,
            ));
        }
        let len = sp.1 - sp.0;
        let sw: u64;
        if len == 1 && v[sp.0] == 0x80 {
            proof {
                assert(item_of(v@, node_items(v@)[i as int]) =~= seq![0x80u8]);
                assert(child_slot_safe_at(v@, i as int));
                assert(slot_walk_at(v@, i as int) == 0);
            }
            sw = 0;
        } else if len == 33 {
            proof {
                let c = item_of(v@, node_items(v@)[i as int]);
                assert(c.len() == 33);
                if c == seq![0x80u8] {
                    assert(c.len() == 1);
                }
                assert(child_slot_safe_at(v@, i as int));
                assert(slot_walk_at(v@, i as int) == 0);
            }
            sw = 0;
        } else if len < v.len() {
            let c = copy_range(v, sp.0, sp.1);
            proof {
                let ci = item_of(v@, node_items(v@)[i as int]);
                assert(c@ == ci);
                if ci == seq![0x80u8] {
                    assert(ci.len() == 1 && ci[0] == 0x80);
                }
            }
            let rr = screen_child_inner(&c);
            if !rr.0 {
                proof {
                    assert(!child_slot_safe_at(v@, i as int));
                    if children_safe_from(v@, 0) {
                        lemma_children_safe_at(v@, 0, i as int);
                    }
                }
                return (false, 0);
            }
            proof {
                assert(child_slot_safe_at(v@, i as int));
                assert(slot_walk_at(v@, i as int) == rr.1 as int);
            }
            sw = rr.1;
        } else {
            proof {
                let ci = item_of(v@, node_items(v@)[i as int]);
                if ci == seq![0x80u8] {
                    assert(ci.len() == 1 && ci[0] == 0x80);
                }
                assert(!child_slot_safe_at(v@, i as int));
                if children_safe_from(v@, 0) {
                    lemma_children_safe_at(v@, 0, i as int);
                }
            }
            return (false, 0);
        }
        proof {
            assert(children_walk_from(v@, i as int) == walk_max2(
                slot_walk_at(v@, i as int),
                children_walk_from(v@, i + 1),
            ));
        }
        if sw > acc {
            acc = sw;
        }
        i = i + 1;
    }
    proof {
        lemma_children_safe_from(v@, 0);
        assert(children_walk_from(v@, 16) == 0);
    }
    (true, acc)
}

/// Screens an in-place branch child and accounts its walk contribution:
/// the aborting shapes here are a key that cannot be decoded and an
/// extension whose child decodes as anything but a branch.
fn screen_child_inner(c: &Vec<u8>) -> (r: (bool, u64))
    ensures
        r.0 == child_safe_inner(c@),
        r.0 ==> r.1 as int == child_walk_inner(c@),
        r.1 <= 65,
    decreases c@.len(), 4int,
{
    if key_item_panics(c) {
        return (false, 0);
    }
    match node_shape_of(c) {
        None => (true, 0),
        Some(NodeShape::Empty) => (true, 0),
        Some(NodeShape::Leaf) => {
            let k = key_nibbles_exec(c);
            (true, k)
        },
        Some(NodeShape::Branch) => {
            let rr = screen_children(c);
            let total = 1 + rr.1;
            let w = if total > 65 {
                65
            } else {
                total
            };
            (rr.0, w)
        },
        Some(NodeShape::Extension) => {
            let k = key_nibbles_exec(c);
            let sp = ext_child_span(c);
            let g = copy_range(c, sp.0, sp.1);
            proof {
                assert(g@ == ext_child_bytes(c@));
            }
            if key_item_panics(&g) {
                return (false, 0);
            }
            match node_shape_of(&g) {
                None => (true, k),
                Some(NodeShape::Branch) => {
                    if g.len() < c.len() {
                        let rr = screen_children(&g);
                        let total = k + 1 + rr.1;
                        let w = if total > 65 {
                            65
                        } else {
                            total
                        };
                        (rr.0, w)
                    } else {
                        (false, 0)
                    }
                },
                Some(NodeShape::Empty) => (false, 0),
                Some(NodeShape::Extension) => (false, 0),
                Some(NodeShape::Leaf) => (false, 0),
            }
        },
    }
}

/// Screens one proof node in the verifier's outer walk.
pub fn check_node_safe(v: &Vec<u8>) -> (r: bool)
    ensures
        r == node_safe_outer(v@),
{
    screen_node(v).0
}

/// Screens every node of a proof and bounds the whole walk at a hashed
/// key's 64 nibbles.
pub fn check_proof_nodes(nodes: &Vec<Vec<u8>>) -> (r: bool)
    ensures
        r == proof_nodes_safe(views_of(nodes@)),
{
    let n = nodes.len();
    let mut acc: u128 = 0;
    let mut i: usize = 0;
    while i < n
        invariant
            i <= n,
            n == nodes@.len(),
            acc <= 65 * (i as int),
            forall|k: int| 0 <= k < i ==> node_safe_outer(#[trigger] views_of(nodes@)[k]),
            walk_total_from(views_of(nodes@), 0) == acc + walk_total_from(
                views_of(nodes@),
                i as int,
            ),
        decreases n - i,
    {
        let rr = screen_node(&nodes[i]);
        proof {
            assert(views_of(nodes@)[i as int] == nodes@[i as int]@);
        }
        if !rr.0 {
            return false;
        }
        proof {
            assert(walk_total_from(views_of(nodes@), i as int) == node_walk_nibbles(
                views_of(nodes@)[i as int],
            ) + walk_total_from(views_of(nodes@), i + 1));
        }
        acc = acc + rr.1 as u128;
        i = i + 1;
    }
    proof {
        assert(walk_total_from(views_of(nodes@), n as int) == 0);
    }
    acc <= 64
}

} // verus!
