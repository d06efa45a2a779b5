//! Decoding of the order tree that an order-book market keeps for each side:
//! a header followed by fixed-size tagged nodes (inner nodes with two
//! children, leaves holding one resting order).
use vstd::prelude::*;

use vstd::bytes::{
    spec_u128_from_le_bytes, spec_u32_from_le_bytes, spec_u64_from_le_bytes, u128_from_le_bytes,
    u32_from_le_bytes, u64_from_le_bytes,
};
use vstd::slice::{slice_subrange, slice_to_vec};

use crate::math::{convert_price_to_decimals, mul_div_u64, price_in_decimals};
use crate::order_book::OrderBookItem;

verus! {

pub type NodeHandle = u32;

/// Header: bump index (u64), free-list length (u64), free-list head (u32),
/// root node (u32), leaf count (u64).
pub const SLAB_HEADER_LEN: usize = 32;

/// Every node takes 72 bytes, its tag in the first four.
pub const NODE_LEN: usize = 72;

pub const INNER_NODE_TAG: u32 = 1;

pub const LEAF_NODE_TAG: u32 = 2;

/// The little-endian u32 at `offset`.
pub open spec fn field_u32(b: Seq<u8>, offset: int) -> u32 {
    spec_u32_from_le_bytes(b.subrange(offset, offset + 4))
}

/// The little-endian u64 at `offset`.
pub open spec fn field_u64(b: Seq<u8>, offset: int) -> u64 {
    spec_u64_from_le_bytes(b.subrange(offset, offset + 8))
}

/// The little-endian u128 at `offset`.
pub open spec fn field_u128(b: Seq<u8>, offset: int) -> u128 {
    spec_u128_from_le_bytes(b.subrange(offset, offset + 16))
}

pub(crate) fn read_u32(b: &[u8], offset: usize) -> (r: u32)
    requires
        offset + 4 <= b@.len(),
    ensures
        r == field_u32(b@, offset as int),
{
    let len = b.len();
    assert(offset + 4 <= len);
    u32_from_le_bytes(slice_subrange(b, offset, offset + 4))
}

pub(crate) fn read_u64(b: &[u8], offset: usize) -> (r: u64)
    requires
        offset + 8 <= b@.len(),
    ensures
        r == field_u64(b@, offset as int),
{
    let len = b.len();
    assert(offset + 8 <= len);
    u64_from_le_bytes(slice_subrange(b, offset, offset + 8))
}

pub(crate) fn read_u128(b: &[u8], offset: usize) -> (r: u128)
    requires
        offset + 16 <= b@.len(),
    ensures
        r == field_u128(b@, offset as int),
{
    let len = b.len();
    assert(offset + 16 <= len);
    u128_from_le_bytes(slice_subrange(b, offset, offset + 16))
}

/// A resting order. Its key holds the price in the high 64 bits.
#[derive(Debug, Copy, Clone, PartialEq, Eq)]
pub struct LeafNode {
    pub tag: u32,
    pub owner_slot: u8,
    pub fee_tier: u8,
    pub padding: [u8; 2],
    pub key: u128,
    pub owner: [u64; 4],
    pub quantity: u64,
    pub client_order_id: u64,
}

impl LeafNode {
    pub fn new(
        owner_slot: u8,
        key: u128,
        owner: [u64; 4],
        quantity: u64,
        fee_tier: u8,
        client_order_id: u64,
    ) -> (r: Self)
        ensures
            r.tag == LEAF_NODE_TAG,
            r.owner_slot == owner_slot,
            r.fee_tier == fee_tier,
            r.padding@ == seq![0u8, 0u8],
            r.key == key,
            r.owner == owner,
            r.quantity == quantity,
            r.client_order_id == client_order_id,
    {
        LeafNode {
            tag: LEAF_NODE_TAG,
            owner_slot,
            fee_tier,
            padding: [0u8, 0u8],
            key,
            owner,
            quantity,
            client_order_id,
        }
    }

    /// The limit price in lots: the high 64 bits of the key, never zero.
    pub fn price(&self) -> (r: u64)
        requires
            self.key >> 64 != 0,
        ensures
            r == self.key >> 64,
            r != 0,
    {
        let key = self.key;
        assert(key >> 64 <= u64::MAX as u128) by (bit_vector);
        (key >> 64) as u64
    }

    pub fn order_id(&self) -> (r: u128)
        ensures
            r == self.key,
    {
        self.key
    }

    pub fn quantity(&self) -> (r: u64)
        ensures
            r == self.quantity,
    {
        self.quantity
    }

    pub fn set_quantity(&mut self, quantity: u64)
        ensures
            *final(self) == (LeafNode { quantity, ..*old(self) }),
    {
        self.quantity = quantity;
    }

    pub fn owner(&self) -> (r: [u64; 4])
        ensures
            r == self.owner,
    {
        self.owner
    }

    pub fn owner_slot(&self) -> (r: u8)
        ensures
            r == self.owner_slot,
    {
        self.owner_slot
    }

    pub fn client_order_id(&self) -> (r: u64)
        ensures
            r == self.client_order_id,
    {
        self.client_order_id
    }
}

/// An inner node of the order tree.
#[derive(Debug, Copy, Clone)]
pub struct InnerNode {
    pub tag: u32,
    pub prefix_len: u32,
    pub key: u128,
    pub children: [u32; 2],
}

/// A node of either kind that the tree walk follows.
pub enum NodeRef {
    Inner(InnerNode),
    Leaf(LeafNode),
}

/// The raw bytes of one node.
pub struct AnyNode {
    pub bytes: Vec<u8>,
}

impl AnyNode {
    /// The node's tag.
    pub open spec fn tag(&self) -> u32 {
        field_u32(self.bytes@, 0)
    }

    /// Reads the node as an inner node or a leaf; `None` for any other tag.
    pub fn case(&self) -> (r: Option<NodeRef>)
        requires
            self.bytes@.len() == NODE_LEN,
        ensures
            self.tag() == INNER_NODE_TAG <==> r matches Some(NodeRef::Inner(_)),
            self.tag() == LEAF_NODE_TAG <==> r matches Some(NodeRef::Leaf(_)),
            r matches Some(NodeRef::Inner(i)) ==> {
                &&& i.tag == self.tag()
                &&& i.prefix_len == field_u32(self.bytes@, 4)
                &&& i.key == field_u128(self.bytes@, 8)
                &&& i.children[0] == field_u32(self.bytes@, 24)
                &&& i.children[1] == field_u32(self.bytes@, 28)
            },
            r matches Some(NodeRef::Leaf(l)) ==> {
                &&& l.tag == self.tag()
                &&& l.owner_slot == self.bytes@[4]
                &&& l.fee_tier == self.bytes@[5]
                &&& l.padding[0] == self.bytes@[6]
                &&& l.padding[1] == self.bytes@[7]
                &&& l.key == field_u128(self.bytes@, 8)
                &&& l.owner[0] == field_u64(self.bytes@, 24)
                &&& l.owner[1] == field_u64(self.bytes@, 32)
                &&& l.owner[2] == field_u64(self.bytes@, 40)
                &&& l.owner[3] == field_u64(self.bytes@, 48)
                &&& l.quantity == field_u64(self.bytes@, 56)
                &&& l.client_order_id == field_u64(self.bytes@, 64)
            },
    {
        let b = self.bytes.as_slice();
        let tag = read_u32(b, 0);
        if tag == INNER_NODE_TAG {
            let c0 = read_u32(b, 24);
            let c1 = read_u32(b, 28);
            Some(
                NodeRef::Inner(
                    InnerNode { tag, prefix_len: read_u32(b, 4), key: read_u128(b, 8), children: [c0, c1] },
                ),
            )
        } else if tag == LEAF_NODE_TAG {
            Some(
                NodeRef::Leaf(
                    LeafNode {
                        tag,
                        owner_slot: b[4],
                        fee_tier: b[5],
                        padding: [b[6], b[7]],
                        key: read_u128(b, 8),
                        owner: [read_u64(b, 24), read_u64(b, 32), read_u64(b, 40), read_u64(b, 48)],
                        quantity: read_u64(b, 56),
                        client_order_id: read_u64(b, 64),
                    },
                ),
            )
        } else {
            None
        }
    }
}

/// The number of whole nodes after the header.
pub open spec fn node_count(data: Seq<u8>) -> int {
    (data.len() - SLAB_HEADER_LEN) / NODE_LEN as int
}

/// The bytes of node `h`.
pub open spec fn node_bytes(data: Seq<u8>, h: int) -> Seq<u8> {
    data.subrange(
        SLAB_HEADER_LEN + NODE_LEN * h,
        SLAB_HEADER_LEN + NODE_LEN * h + NODE_LEN,
    )
}

pub open spec fn node_tag(data: Seq<u8>, h: int) -> u32 {
    field_u32(node_bytes(data, h), 0)
}

/// Whether handle `h` names an inner node or a leaf.
pub open spec fn is_live_node(data: Seq<u8>, h: int) -> bool {
    0 <= h < node_count(data) && (node_tag(data, h) == INNER_NODE_TAG || node_tag(data, h)
        == LEAF_NODE_TAG)
}

pub open spec fn slab_root(data: Seq<u8>) -> u32 {
    field_u32(data, 20)
}

pub open spec fn slab_leaf_count(data: Seq<u8>) -> u64 {
    field_u64(data, 24)
}

/// A leaf as the walk reports it: its key and its quantity in lots.
pub open spec fn leaf_entry(data: Seq<u8>, h: int) -> (u128, u64) {
    (field_u128(node_bytes(data, h), 8), field_u64(node_bytes(data, h), 56))
}

/// The depth-first walk from `stack`, best price first: bids visit the
/// second child first, asks the first. It stops once `limit` leaves are
/// found. `None` for a handle that names no live node, or when the walk
/// takes more steps than there are nodes (the tree has a cycle).
pub open spec fn leaf_walk(
    data: Seq<u8>,
    is_bids: bool,
    limit: int,
    stack: Seq<u32>,
    found: Seq<(u128, u64)>,
    fuel: nat,
) -> Option<Seq<(u128, u64)>>
    decreases fuel,
{
    if stack.len() == 0 {
        Some(found)
    } else if fuel == 0 {
        None
    } else {
        let h = stack.last() as int;
        let rest = stack.drop_last();
        if !is_live_node(data, h) {
            None
        } else if node_tag(data, h) == INNER_NODE_TAG {
            let c0 = field_u32(node_bytes(data, h), 24);
            let c1 = field_u32(node_bytes(data, h), 28);
            let next = if is_bids {
                rest.push(c0).push(c1)
            } else {
                rest.push(c1).push(c0)
            };
            leaf_walk(data, is_bids, limit, next, found, (fuel - 1) as nat)
        } else {
            let found = found.push(leaf_entry(data, h));
            if found.len() == limit {
                Some(found)
            } else {
                leaf_walk(data, is_bids, limit, rest, found, (fuel - 1) as nat)
            }
        }
    }
}

/// The leaves from the best price on, at most `min(max_depth, leaf count)`
/// of them.
pub open spec fn top_leaves(data: Seq<u8>, max_depth: usize, is_bids: bool) -> Option<Seq<(u128, u64)>> {
    let leaf_count = slab_leaf_count(data);
    if leaf_count == 0 || max_depth == 0 {
        Some(Seq::empty())
    } else {
        let limit = if (max_depth as int) < leaf_count as int { max_depth as int } else { leaf_count as int };
        leaf_walk(data, is_bids, limit, seq![slab_root(data)], Seq::empty(), node_count(data) as nat)
    }
}

/// The rung after `prev` for a leaf: its quantity in token decimals, its
/// price rescaled into token decimals, and the running sums.
pub open spec fn next_rung(
    prev: Seq<OrderBookItem>,
    leaf: (u128, u64),
    coin_lot_size: u64,
    base_decimals_factor: u64,
    pc_lot_size: u64,
) -> Option<OrderBookItem> {
    let quantity_sum = if prev.len() == 0 { 0 } else { prev.last().quantity_sum as int };
    let price_quantity_sum = if prev.len() == 0 { 0 } else { prev.last().price_quantity_sum as int };
    let token_quantity = leaf.1 as int * coin_lot_size as int;
    let lot_price = (leaf.0 >> 64) as u64;
    if token_quantity > u64::MAX || lot_price == 0 || quantity_sum + token_quantity > u64::MAX {
        None
    } else {
        match price_in_decimals(lot_price, coin_lot_size, base_decimals_factor, pc_lot_size) {
            None => None,
            Some(price) => if price_quantity_sum + price as int * token_quantity > u128::MAX {
                None
            } else {
                Some(
                    OrderBookItem {
                        price,
                        quantity: token_quantity as u64,
                        quantity_sum: (quantity_sum + token_quantity) as u64,
                        price_quantity_sum: (price_quantity_sum + price as int * token_quantity) as u128,
                    },
                )
            },
        }
    }
}

/// The ladder for a list of leaves, or `None` where a conversion overflows or
/// a price is zero.
pub open spec fn ladder_of(
    leaves: Seq<(u128, u64)>,
    coin_lot_size: u64,
    base_decimals_factor: u64,
    pc_lot_size: u64,
) -> Option<Seq<OrderBookItem>>
    decreases leaves.len(),
{
    if leaves.len() == 0 {
        Some(Seq::empty())
    } else {
        match ladder_of(leaves.drop_last(), coin_lot_size, base_decimals_factor, pc_lot_size) {
            None => None,
            Some(prev) => match next_rung(
                prev,
                leaves.last(),
                coin_lot_size,
                base_decimals_factor,
                pc_lot_size,
            ) {
                None => None,
                Some(item) => Some(prev.push(item)),
            },
        }
    }
}

/// A ladder that fails on a prefix of the leaves fails on all of them.
proof fn lemma_ladder_prefix_fails(
    leaves: Seq<(u128, u64)>,
    n: int,
    coin_lot_size: u64,
    base_decimals_factor: u64,
    pc_lot_size: u64,
)
    requires
        0 <= n <= leaves.len(),
        ladder_of(leaves.take(n), coin_lot_size, base_decimals_factor, pc_lot_size) is None,
    ensures
        ladder_of(leaves, coin_lot_size, base_decimals_factor, pc_lot_size) is None,
    decreases leaves.len() - n,
{
    if n < leaves.len() {
        let longer = leaves.take(n + 1);
        assert(longer.drop_last() == leaves.take(n));
        lemma_ladder_prefix_fails(leaves, n + 1, coin_lot_size, base_decimals_factor, pc_lot_size);
    } else {
        assert(leaves.take(n) == leaves);
    }
}

/// The price ladder that a slab's bytes decode to.
pub open spec fn order_book_items(
    data: Seq<u8>,
    max_depth: usize,
    is_bids: bool,
    coin_lot_size: u64,
    base_decimals_factor: u64,
    pc_lot_size: u64,
) -> Option<Seq<OrderBookItem>> {
    match top_leaves(data, max_depth, is_bids) {
        None => None,
        Some(leaves) => ladder_of(leaves, coin_lot_size, base_decimals_factor, pc_lot_size),
    }
}

/// The order tree of one side of a market, held as its header and whole nodes.
pub struct Slab {
    data: Vec<u8>,
}

impl View for Slab {
    type V = Seq<u8>;

    closed spec fn view(&self) -> Seq<u8> {
        self.data@
    }
}

/// Access to the live nodes of a tree by handle.
pub trait SlabView<T> {
    spec fn live(&self, h: NodeHandle) -> bool;

    fn get(&self, h: NodeHandle) -> (r: Option<T>)
        ensures
            r is Some <==> self.live(h),
    ;
}

impl SlabView<AnyNode> for Slab {
    open spec fn live(&self, h: NodeHandle) -> bool {
        is_live_node(self@, h as int)
    }

    /// Node `h` when it is an inner node or a leaf.
    fn get(&self, h: NodeHandle) -> (r: Option<AnyNode>)
        ensures
            r matches Some(n) ==> n.bytes@ == node_bytes(self@, h as int),
    {
        if self.data.len() < SLAB_HEADER_LEN {
            return None;
        }
        let count = (self.data.len() - SLAB_HEADER_LEN) / NODE_LEN;
        if h as usize >= count {
            return None;
        }
        assert(NODE_LEN * h + NODE_LEN <= self@.len() - SLAB_HEADER_LEN) by (nonlinear_arith)
            requires h < count, count == (self@.len() - SLAB_HEADER_LEN) / 72, NODE_LEN == 72;
        let start = SLAB_HEADER_LEN + NODE_LEN * (h as usize);
        let bytes = slice_to_vec(slice_subrange(self.data.as_slice(), start, start + NODE_LEN));
        let tag = read_u32(bytes.as_slice(), 0);
        if tag == INNER_NODE_TAG || tag == LEAF_NODE_TAG {
            Some(AnyNode { bytes })
        } else {
            None
        }
    }
}

impl Slab {
    pub open spec fn wf(&self) -> bool {
        self@.len() >= SLAB_HEADER_LEN && (self@.len() - SLAB_HEADER_LEN) % NODE_LEN as int == 0
    }

    /// Holds the header and the whole nodes of `bytes`; a partial node at the
    /// end is dropped.
    pub fn new(bytes: &[u8]) -> (s: Slab)
        requires
            bytes@.len() >= SLAB_HEADER_LEN,
        ensures
            s.wf(),
            s@ == bytes@.subrange(
                0,
                SLAB_HEADER_LEN + node_count(bytes@) * NODE_LEN,
            ),
    {
        let len_without_header = bytes.len() - SLAB_HEADER_LEN;
        let slop = len_without_header % NODE_LEN;
        let truncated_len = bytes.len() - slop;
        assert(truncated_len == SLAB_HEADER_LEN + node_count(bytes@) * NODE_LEN);
        let data = slice_to_vec(slice_subrange(bytes, 0, truncated_len));
        Slab { data }
    }

    /// The root handle, or `None` for an empty tree.
    fn root(&self) -> (r: Option<NodeHandle>)
        requires
            self.wf(),
        ensures
            r == (if slab_leaf_count(self@) == 0 { None } else { Some(slab_root(self@)) }),
    {
        let b = self.data.as_slice();
        if read_u64(b, 24) == 0 {
            return None;
        }
        Some(read_u32(b, 20))
    }

    /// The leaves of the tree from the best price on, as the depth-first
    /// walk of `leaf_walk` finds them.
    fn walk_top_leaves(&self, max_depth: usize, is_bids: bool) -> (r: Option<Vec<LeafNode>>)
        requires
            self.wf(),
        ensures
            r is Some <==> top_leaves(self@, max_depth, is_bids) is Some,
            r matches Some(leaves) ==> leaves@.len() == top_leaves(self@, max_depth, is_bids)->0.len()
                && forall|i: int|
                0 <= i < leaves@.len() ==> (#[trigger] leaves@[i].key, leaves@[i].quantity)
                    == top_leaves(self@, max_depth, is_bids)->0[i],
    {
        if max_depth == 0 {
            return Some(Vec::new());
        }
        let root = match self.root() {
            Some(root) => root,
            None => return Some(Vec::new()),
        };
        let leaf_count = read_u64(self.data.as_slice(), 24);
        let limit: u64 = if (max_depth as u64) < leaf_count { max_depth as u64 } else { leaf_count };
        let ghost data = self@;
        let ghost target = top_leaves(data, max_depth, is_bids);
        let mut fuel: usize = (self.data.len() - SLAB_HEADER_LEN) / NODE_LEN;
        let mut stack: Vec<NodeHandle> = Vec::new();
        stack.push(root);
        let mut found: Vec<LeafNode> = Vec::new();
        let ghost mut entries: Seq<(u128, u64)> = Seq::empty();
        assert(stack@ == seq![slab_root(data)]);
        while stack.len() > 0
            invariant
                self.wf(),
                data == self@,
                target == top_leaves(data, max_depth, is_bids),
                limit as int == (if (max_depth as int) < leaf_count as int { max_depth as int } else { leaf_count as int }),
                leaf_count == slab_leaf_count(data),
                leaf_count != 0,
                max_depth != 0,
                target == leaf_walk(data, is_bids, limit as int, stack@, entries, fuel as nat),
                found@.len() == entries.len(),
                entries.len() < limit,
                forall|i: int| 0 <= i < found@.len() ==> (#[trigger] found@[i].key, found@[i].quantity) == entries[i],
            decreases fuel,
        {
            if fuel == 0 {
                assert(target is None);
                return None;
            }
            let ghost before = stack@;
            let h = stack.pop().unwrap();
            assert(stack@ == before.drop_last());
            assert(h == before.last());
            fuel = fuel - 1;
            let node = match self.get(h) {
                Some(node) => node,
                None => {
                    assert(target is None);
                    return None;
                },
            };
            match node.case() {
                Some(NodeRef::Inner(inner)) => {
                    if is_bids {
                        stack.push(inner.children[0]);
                        stack.push(inner.children[1]);
                    } else {
                        stack.push(inner.children[1]);
                        stack.push(inner.children[0]);
                    }
                },
                Some(NodeRef::Leaf(leaf)) => {
                    found.push(leaf);
                    proof {
                        entries = entries.push(leaf_entry(data, h as int));
                    }
                    if found.len() as u64 == limit {
                        assert(target == Some(entries));
                        assert forall|i: int| 0 <= i < found@.len() implies (#[trigger] found@[i].key, found@[i].quantity) == entries[i] by {
                        }
                        return Some(found);
                    }
                },
                None => return None,
            }
        }
        Some(found)
    }

    /// Decodes the top of the book: at most `max_depth` rungs, best price first, with prices and quantities in token
    /// decimals and running sums. `None` for a malformed tree or where a
    /// conversion overflows, divides by zero or meets a zero price.
    pub fn get_order_book_items(
        &self,
        max_depth: usize,
        is_bids: bool,
        coin_lot_size: u64,
        base_decimals_factor: u64,
        pc_lot_size: u64,
    ) -> (r: Option<Vec<OrderBookItem>>)
        requires
            self.wf(),
        ensures
            r is Some <==> order_book_items(self@, max_depth, is_bids, coin_lot_size, base_decimals_factor, pc_lot_size) is Some,
            r matches Some(items) ==> items@ == order_book_items(self@, max_depth, is_bids, coin_lot_size, base_decimals_factor, pc_lot_size)->0,
    {
        let leaves = match self.walk_top_leaves(max_depth, is_bids) {
            Some(leaves) => leaves,
            None => return None,
        };
        let ghost entries = top_leaves(self@, max_depth, is_bids)->0;
        let mut res: Vec<OrderBookItem> = Vec::new();
        let mut quantity_sum: u64 = 0;
        let mut price_quantity_sum: u128 = 0;
        let mut i: usize = 0;
        while i < leaves.len()
            invariant
                top_leaves(self@, max_depth, is_bids) == Some(entries),
                i <= leaves@.len(),
                leaves@.len() == entries.len(),
                forall|k: int| 0 <= k < leaves@.len() ==> (#[trigger] leaves@[k].key, leaves@[k].quantity) == entries[k],
                ladder_of(entries.take(i as int), coin_lot_size, base_decimals_factor, pc_lot_size) == Some(res@),
                quantity_sum == (if res@.len() == 0 { 0 } else { res@.last().quantity_sum }),
                price_quantity_sum == (if res@.len() == 0 { 0 } else { res@.last().price_quantity_sum }),
            decreases leaves.len() - i,
        {
            let leaf = leaves[i];
            assert(entries.take(i + 1).drop_last() == entries.take(i as int));
            assert(entries.take(i + 1).last() == (leaf.key, leaf.quantity));
            let ghost step = next_rung(res@, (leaf.key, leaf.quantity), coin_lot_size, base_decimals_factor, pc_lot_size);
            assert(step is None ==> ladder_of(entries, coin_lot_size, base_decimals_factor, pc_lot_size) is None) by {
                if step is None {
                    lemma_ladder_prefix_fails(entries, i + 1, coin_lot_size, base_decimals_factor, pc_lot_size);
                }
            }
            let token_quantity = match leaf.quantity().checked_mul(coin_lot_size) {
                Some(q) => q,
                None => return None,
            };
            let key = leaf.key;
            assert(key >> 64 <= u64::MAX as u128) by (bit_vector);
            if key >> 64 == 0 {
                return None;
            }
            let leaf_price = leaf.price();
            quantity_sum = match quantity_sum.checked_add(token_quantity) {
                Some(s) => s,
                None => return None,
            };
            let q = match mul_div_u64(leaf_price, base_decimals_factor, coin_lot_size) {
                Some(q) => q,
                None => return None,
            };
            if q > 0 && pc_lot_size > u64::MAX / q {
                assert(pc_lot_size as int * q as int > u64::MAX) by (nonlinear_arith)
                    requires q > 0, pc_lot_size > u64::MAX / q;
                return None;
            }
            assert(pc_lot_size as int * q as int <= u64::MAX) by (nonlinear_arith)
                requires q == 0 || pc_lot_size <= u64::MAX / q;
            let price = convert_price_to_decimals(leaf_price, coin_lot_size, base_decimals_factor, pc_lot_size);
            assert(price as int * token_quantity as int <= u64::MAX as int * u64::MAX as int) by (nonlinear_arith);
            let line = (price as u128) * (token_quantity as u128);
            price_quantity_sum = match price_quantity_sum.checked_add(line) {
                Some(s) => s,
                None => return None,
            };
            let item = OrderBookItem { price, quantity: token_quantity, quantity_sum, price_quantity_sum };
            res.push(item);
            i = i + 1;
        }
        assert(entries.take(leaves@.len() as int) == entries);
        Some(res)
    }
} // impl Slab

} // verus!
