//! The visualizer's block graph, as plain values: nodes of both chains with
//! their parents, lookup by hash, PoW nodes waiting for a parent that has
//! not arrived, and the lowest and highest PoW node.  Screen positions are
//! the drawing code's business.

use vstd::prelude::*;
use crate::bytes::bytes32_eq;
use crate::viz_logic::NodeKind;

verus! {

/// A node of the graph.
#[derive(Clone, Copy, Debug, PartialEq, Eq)]
pub struct VizNode {
    /// Which chain the node is on.
    pub kind: NodeKind,
    /// The index of its parent node, once known.
    pub parent: Option<u32>,
    /// The block hash, for nodes of real blocks.
    pub hash: Option<[u8; 32]>,
    /// The block height.
    pub height: u32,
}

/// What a new node is made from; without a height, the node is one above
/// its parent.
#[derive(Clone, Copy, Debug, PartialEq, Eq)]
pub struct VizNodeInit {
    pub kind: NodeKind,
    pub parent: Option<u32>,
    pub hash: Option<[u8; 32]>,
    pub height: Option<u32>,
}

/// The block graph.
#[derive(Clone, Debug)]
pub struct VizGraph {
    /// The nodes, in the order they were added.
    pub nodes: Vec<VizNode>,
    /// PoW nodes whose parent has not been added yet, by the parent's hash.
    pub missing_bc_parents: Vec<([u8; 32], u32)>,
    /// The PoW node of least height.
    pub bc_lo: Option<u32>,
    /// The PoW node of greatest height.
    pub bc_hi: Option<u32>,
}

/// The last node of `kind` with hash `h`: what a lookup by hash finds.
pub open spec fn hash_index(nodes: Seq<VizNode>, kind: NodeKind, h: [u8; 32]) -> Option<int>
    decreases nodes.len(),
{
    if nodes.len() == 0 {
        None
    } else if nodes.last().kind == kind && nodes.last().hash == Some(h) {
        Some(nodes.len() - 1)
    } else {
        hash_index(nodes.drop_last(), kind, h)
    }
}

/// Where key `k` stands in an association list, or its length.
pub open spec fn key_pos(m: Seq<([u8; 32], u32)>, k: [u8; 32]) -> int
    decreases m.len(),
{
    if m.len() == 0 {
        0
    } else if m[0].0 == k {
        0
    } else {
        1 + key_pos(m.drop_first(), k)
    }
}

/// The value for key `k` in an association list.
pub open spec fn missing_lookup(m: Seq<([u8; 32], u32)>, k: [u8; 32]) -> Option<u32> {
    if key_pos(m, k) < m.len() {
        Some(m[key_pos(m, k)].1)
    } else {
        None
    }
}

/// The association list with `k` mapped to `v`.
pub open spec fn missing_insert(m: Seq<([u8; 32], u32)>, k: [u8; 32], v: u32) -> Seq<([u8; 32], u32)> {
    if key_pos(m, k) < m.len() {
        m.update(key_pos(m, k), (k, v))
    } else {
        m.push((k, v))
    }
}

/// The association list without key `k`.
pub open spec fn missing_remove(m: Seq<([u8; 32], u32)>, k: [u8; 32]) -> Seq<([u8; 32], u32)> {
    if key_pos(m, k) < m.len() {
        m.remove(key_pos(m, k))
    } else {
        m
    }
}

/// The position of a key is characterised by the keys before it.
pub proof fn lemma_key_pos(m: Seq<([u8; 32], u32)>, k: [u8; 32], p: int)
    requires
        0 <= p <= m.len(),
        forall|j: int| 0 <= j < p ==> m[j].0 != k,
        p < m.len() ==> m[p].0 == k,
    ensures
        key_pos(m, k) == p,
    decreases m.len(),
{
    if m.len() > 0 && p > 0 {
        assert(m[0].0 != k);
        lemma_key_pos(m.drop_first(), k, p - 1);
    }
}

/// What holds around the position of a key.
pub proof fn lemma_key_pos_bounds(m: Seq<([u8; 32], u32)>, k: [u8; 32])
    ensures
        0 <= key_pos(m, k) <= m.len(),
        forall|j: int| 0 <= j < key_pos(m, k) ==> m[j].0 != k,
        key_pos(m, k) < m.len() ==> m[key_pos(m, k)].0 == k,
    decreases m.len(),
{
    if m.len() > 0 && m[0].0 != k {
        lemma_key_pos_bounds(m.drop_first(), k);
        assert forall|j: int| 0 <= j < key_pos(m, k) implies m[j].0 != k by {
            if j > 0 {
                assert(m[j] == m.drop_first()[j - 1]);
            }
        }
    }
}

/// Every parent of a node is a node.
pub open spec fn parents_in(nodes: Seq<VizNode>) -> bool {
    forall|j: int|
        0 <= j < nodes.len() ==> ((#[trigger] nodes[j]).parent matches Some(p) ==> p < nodes.len())
}

/// Every waiting node is below `bound`, and each parent hash waits once.
pub open spec fn missing_wf(m: Seq<([u8; 32], u32)>, bound: nat) -> bool {
    &&& forall|j: int| 0 <= j < m.len() ==> (#[trigger] m[j]).1 < bound
    &&& forall|a: int, b: int| 0 <= a < b < m.len() ==> (#[trigger] m[a]).0 != (#[trigger] m[b]).0
}

/// Two node lists with the same chains and heights, node by node.
pub open spec fn same_shape(a: Seq<VizNode>, b: Seq<VizNode>) -> bool {
    &&& a.len() == b.len()
    &&& forall|j: int|
        0 <= j < a.len() ==> (#[trigger] a[j]).kind == b[j].kind && a[j].height == b[j].height
}

/// Whether `i` is the index of a PoW node of least height.
pub open spec fn is_lowest_bc(nodes: Seq<VizNode>, i: int) -> bool {
    &&& 0 <= i < nodes.len()
    &&& nodes[i].kind == NodeKind::BC
    &&& forall|j: int|
        0 <= j < nodes.len() && (#[trigger] nodes[j]).kind == NodeKind::BC ==> nodes[i].height
            <= nodes[j].height
}

/// Whether `i` is the index of a PoW node of greatest height.
pub open spec fn is_highest_bc(nodes: Seq<VizNode>, i: int) -> bool {
    &&& 0 <= i < nodes.len()
    &&& nodes[i].kind == NodeKind::BC
    &&& forall|j: int|
        0 <= j < nodes.len() && (#[trigger] nodes[j]).kind == NodeKind::BC ==> nodes[i].height
            >= nodes[j].height
}

/// Whether some node is a PoW node.
pub open spec fn has_bc(nodes: Seq<VizNode>) -> bool {
    exists|j: int| 0 <= j < nodes.len() && (#[trigger] nodes[j]).kind == NodeKind::BC
}

/// A lookup of a 32-byte key in an association list: its position, or the
/// list's length.
fn find_key(m: &Vec<([u8; 32], u32)>, k: &[u8; 32]) -> (res: usize)
    ensures
        res == key_pos(m@, *k),
{
    let mut i: usize = 0;
    while i < m.len()
        invariant
            i <= m@.len(),
            forall|j: int| 0 <= j < i ==> m@[j].0 != *k,
        decreases m@.len() - i,
    {
        if bytes32_eq(&m[i].0, k) {
            proof {
                lemma_key_pos(m@, *k, i as int);
            }
            return i;
        }
        i = i + 1;
    }
    proof {
        lemma_key_pos(m@, *k, i as int);
    }
    i
}

/// Whether a hash is all zero bytes, the parent hash of a first block.
pub open spec fn is_zero_hash(h: [u8; 32]) -> bool {
    forall|j: int| 0 <= j < 32 ==> h[j] == 0
}

/// Whether a hash is all zero bytes.
fn hash_is_zero(h: &[u8; 32]) -> (res: bool)
    ensures
        res == is_zero_hash(*h),
{
    let mut i: usize = 0;
    while i < 32
        invariant
            i <= 32,
            forall|j: int| 0 <= j < i ==> h[j] == 0,
        decreases 32 - i,
    {
        if h[i] != 0 {
            return false;
        }
        i = i + 1;
    }
    true
}

/// Whether two optional hashes are the same hash.
fn hash_is(a: &Option<[u8; 32]>, h: &[u8; 32]) -> (res: bool)
    ensures
        res == (*a == Some(*h)),
{
    match a {
        Some(x) => bytes32_eq(x, h),
        None => false,
    }
}

impl VizGraph {
    /// The invariant: every parent, waiting node and end node is a node;
    /// each parent hash waits once; the lowest and highest PoW nodes are
    /// known exactly when there is a PoW node.
    pub open spec fn wf(&self) -> bool {
        &&& self.nodes@.len() < u32::MAX
        &&& parents_in(self.nodes@)
        &&& missing_wf(self.missing_bc_parents@, self.nodes@.len())
        &&& (self.bc_lo is Some <==> has_bc(self.nodes@))
        &&& (self.bc_hi is Some <==> has_bc(self.nodes@))
        &&& (self.bc_lo matches Some(l) ==> is_lowest_bc(self.nodes@, l as int))
        &&& (self.bc_hi matches Some(h) ==> is_highest_bc(self.nodes@, h as int))
    }

    /// An empty graph.
    pub fn new() -> (res: VizGraph)
        ensures
            res.wf(),
            res.nodes@.len() == 0,
            res.missing_bc_parents@.len() == 0,
            res.bc_lo is None,
            res.bc_hi is None,
    {
        VizGraph { nodes: Vec::new(), missing_bc_parents: Vec::new(), bc_lo: None, bc_hi: None }
    }

    /// Removes every node.
    pub fn clear_nodes(&mut self)
        ensures
            final(self).wf(),
            final(self).nodes@.len() == 0,
            final(self).missing_bc_parents@.len() == 0,
            final(self).bc_lo is None,
            final(self).bc_hi is None,
    {
        self.nodes = Vec::new();
        self.missing_bc_parents = Vec::new();
        self.bc_lo = None;
        self.bc_hi = None;
    }

    /// The index of the last added node of `kind` with hash `h`.
    pub fn find_node_by_hash(&self, kind: NodeKind, h: &[u8; 32]) -> (res: Option<u32>)
        requires
            self.nodes@.len() <= u32::MAX,
        ensures
            match hash_index(self.nodes@, kind, *h) {
                Some(i) => res == Some(i as u32),
                None => res is None,
            },
    {
        let mut i: usize = self.nodes.len();
        assert(self.nodes@.take(i as int) =~= self.nodes@);
        while i > 0
            invariant
                i <= self.nodes@.len() <= u32::MAX,
                hash_index(self.nodes@, kind, *h) == hash_index(self.nodes@.take(i as int), kind, *h),
            decreases i,
        {
            let node = self.nodes[i - 1];
            let ghost t = self.nodes@.take(i as int);
            assert(t.last() == node);
            assert(t.drop_last() =~= self.nodes@.take(i - 1));
            if node.kind == kind && hash_is(&node.hash, h) {
                return Some((i - 1) as u32);
            }
            i = i - 1;
        }
        assert(self.nodes@.take(0) =~= Seq::<VizNode>::empty());
        None
    }

    /// The index of the first PoW node at `height`.
    pub fn find_bc_node_i_by_height(&self, height: u32) -> (res: Option<u32>)
        requires
            self.nodes@.len() <= u32::MAX,
        ensures
            match res {
                Some(i) => i < self.nodes@.len() && self.nodes@[i as int].kind == NodeKind::BC
                    && self.nodes@[i as int].height == height && forall|j: int|
                    0 <= j < i ==> !((#[trigger] self.nodes@[j]).kind == NodeKind::BC
                        && self.nodes@[j].height == height),
                None => forall|j: int|
                    0 <= j < self.nodes@.len() ==> !((#[trigger] self.nodes@[j]).kind
                        == NodeKind::BC && self.nodes@[j].height == height),
            },
    {
        let mut i: usize = 0;
        while i < self.nodes.len()
            invariant
                i <= self.nodes@.len() <= u32::MAX,
                forall|j: int|
                    0 <= j < i ==> !((#[trigger] self.nodes@[j]).kind == NodeKind::BC
                        && self.nodes@[j].height == height),
            decreases self.nodes@.len() - i,
        {
            if self.nodes[i].kind == NodeKind::BC && self.nodes[i].height == height {
                return Some(i as u32);
            }
            i = i + 1;
        }
        None
    }
}

/// The node a PoW block is pushed as: its height and hash, its parent
/// found by its previous hash.
pub open spec fn bc_block_init(height: u32, hash: [u8; 32]) -> VizNodeInit {
    VizNodeInit { kind: NodeKind::BC, parent: None, hash: Some(hash), height: Some(height) }
}

/// What `push_bc_block` did, from `old` to `new`: nothing when a PoW node
/// with the hash is there, else it pushed the block's node.
pub open spec fn bc_block_pushed(
    old: VizGraph,
    new: VizGraph,
    height: u32,
    hash: [u8; 32],
    prev_hash: [u8; 32],
    res: Option<u32>,
) -> bool {
    match res {
        None => hash_index(old.nodes@, NodeKind::BC, hash) is Some && new == old,
        Some(i) => hash_index(old.nodes@, NodeKind::BC, hash) is None && VizGraph::pushed(
            old,
            new,
            bc_block_init(height, hash),
            Some(prev_hash),
            i,
        ),
    }
}

/// A PoW block pushed twice is added once: the second push finds it and
/// leaves the graph as it was.
pub proof fn law_viz_bc_block_added_once(
    g0: VizGraph,
    g1: VizGraph,
    g2: VizGraph,
    height: u32,
    hash: [u8; 32],
    prev_hash: [u8; 32],
    r1: Option<u32>,
    r2: Option<u32>,
)
    requires
        bc_block_pushed(g0, g1, height, hash, prev_hash, r1),
        bc_block_pushed(g1, g2, height, hash, prev_hash, r2),
    ensures
        r2 is None,
        g2 == g1,
{
}

/// A lookup by hash sees only the nodes' chains and hashes.
proof fn lemma_hash_index_same_keys(a: Seq<VizNode>, b: Seq<VizNode>, kind: NodeKind, h: [u8; 32])
    requires
        a.len() == b.len(),
        forall|j: int| 0 <= j < a.len() ==> (#[trigger] a[j]).kind == b[j].kind && a[j].hash == b[j].hash,
    ensures
        hash_index(a, kind, h) == hash_index(b, kind, h),
    decreases a.len(),
{
    if a.len() > 0 {
        lemma_hash_index_same_keys(a.drop_last(), b.drop_last(), kind, h);
    }
}

/// After a push, a lookup of another hash than the new node's finds what
/// it found before.
proof fn lemma_pushed_other_hash(
    old: VizGraph,
    new: VizGraph,
    init: VizNodeInit,
    parent_hash: Option<[u8; 32]>,
    res: u32,
    kind: NodeKind,
    h: [u8; 32],
)
    requires
        VizGraph::pushed(old, new, init, parent_hash, res),
        !(init.kind == kind && init.hash == Some(h)),
    ensures
        hash_index(new.nodes@, kind, h) == hash_index(old.nodes@, kind, h),
{
    let n = new.nodes@;
    assert forall|j: int| 0 <= j < old.nodes@.len() implies (#[trigger] n.drop_last()[j]).kind
        == old.nodes@[j].kind && n.drop_last()[j].hash == old.nodes@[j].hash by {
        assert(n.drop_last()[j] == n[j]);
    }
    lemma_hash_index_same_keys(n.drop_last(), old.nodes@, kind, h);
}

/// The value of a key just mapped.
proof fn lemma_missing_lookup_insert(m: Seq<([u8; 32], u32)>, k: [u8; 32], v: u32, k2: [u8; 32])
    ensures
        missing_lookup(missing_insert(m, k, v), k2) == if k2 == k {
            Some(v)
        } else {
            missing_lookup(m, k2)
        },
{
    lemma_key_pos_bounds(m, k);
    lemma_key_pos_bounds(m, k2);
    let r = missing_insert(m, k, v);
    let kp = key_pos(m, k);
    let q = key_pos(m, k2);
    if k2 == k {
        assert forall|j: int| 0 <= j < kp implies r[j].0 != k by {
            assert(r[j] == m[j]);
        }
        lemma_key_pos(r, k, kp);
    } else {
        if kp < m.len() && q < m.len() {
            assert(q != kp);
        }
        assert forall|j: int| 0 <= j < q implies r[j].0 != k2 by {
            if j < m.len() {
                assert(r[j] == m[j] || r[j] == (k, v));
            }
        }
        if q < m.len() {
            assert(r[q] == m[q]);
            lemma_key_pos(r, k2, q);
        } else if kp < m.len() {
            lemma_key_pos(r, k2, q);
        } else {
            assert(r[m.len() as int] == (k, v));
            lemma_key_pos(r, k2, r.len() as int);
        }
    }
}

/// Taking a key off leaves the values of the other keys.
proof fn lemma_missing_lookup_remove(m: Seq<([u8; 32], u32)>, k: [u8; 32], k2: [u8; 32])
    requires
        k2 != k,
    ensures
        missing_lookup(missing_remove(m, k), k2) == missing_lookup(m, k2),
{
    lemma_key_pos_bounds(m, k);
    lemma_key_pos_bounds(m, k2);
    let kp = key_pos(m, k);
    let q = key_pos(m, k2);
    if kp < m.len() {
        let r = m.remove(kp);
        if q < m.len() {
            assert(q != kp);
        }
        if q < kp {
            assert forall|j: int| 0 <= j < q implies r[j].0 != k2 by {
                assert(r[j] == m[j]);
            }
            assert(r[q] == m[q]);
            lemma_key_pos(r, k2, q);
        } else {
            assert forall|j: int| 0 <= j < q - 1 implies r[j].0 != k2 by {
                if j < kp {
                    assert(r[j] == m[j]);
                } else {
                    assert(r[j] == m[j + 1]);
                }
            }
            if q < m.len() {
                assert(r[q - 1] == m[q]);
            }
            lemma_key_pos(r, k2, q - 1);
        }
    }
}

/// A PoW block added after its parent is linked to it at once.
pub proof fn law_viz_parent_then_child_linked(
    g0: VizGraph,
    g1: VizGraph,
    g2: VizGraph,
    height: u32,
    parent_hash: [u8; 32],
    parent_prev: [u8; 32],
    child_hash: [u8; 32],
    rp: Option<u32>,
    rc: Option<u32>,
)
    requires
        height < u32::MAX,
        parent_hash != child_hash,
        hash_index(g0.nodes@, NodeKind::BC, parent_hash) is None,
        hash_index(g0.nodes@, NodeKind::BC, child_hash) is None,
        bc_block_pushed(g0, g1, height, parent_hash, parent_prev, rp),
        bc_block_pushed(g1, g2, (height + 1) as u32, child_hash, parent_hash, rc),
    ensures
        rp matches Some(p) && rc matches Some(c) && g2.nodes@[c as int].parent == Some(p),
{
    let p = rp->0;
    lemma_pushed_other_hash(g0, g1, bc_block_init(height, parent_hash), Some(parent_prev), p, NodeKind::BC, child_hash);
}

/// A PoW block added before its parent waits for it and is linked to it
/// when the parent is added.
pub proof fn law_viz_child_then_parent_linked(
    g0: VizGraph,
    g1: VizGraph,
    g2: VizGraph,
    height: u32,
    parent_hash: [u8; 32],
    parent_prev: [u8; 32],
    child_hash: [u8; 32],
    rc: Option<u32>,
    rp: Option<u32>,
)
    requires
        height < u32::MAX,
        parent_hash != child_hash,
        parent_prev != parent_hash,
        !is_zero_hash(parent_hash),
        hash_index(g0.nodes@, NodeKind::BC, parent_hash) is None,
        hash_index(g0.nodes@, NodeKind::BC, child_hash) is None,
        bc_block_pushed(g0, g1, (height + 1) as u32, child_hash, parent_hash, rc),
        bc_block_pushed(g1, g2, height, parent_hash, parent_prev, rp),
    ensures
        rc matches Some(c) && rp matches Some(p) && g2.nodes@[c as int].parent == Some(p),
{
    let c = rc->0;
    let child = bc_block_init((height + 1) as u32, child_hash);
    let par = bc_block_init(height, parent_hash);
    lemma_pushed_other_hash(g0, g1, child, Some(parent_hash), c, NodeKind::BC, parent_hash);
    let p = rp->0;
    let m0 = missing_after_parent(g0.nodes@, g0.missing_bc_parents@, child, Some(parent_hash), c);
    assert(m0 == missing_insert(g0.missing_bc_parents@, parent_hash, c));
    lemma_missing_lookup_insert(g0.missing_bc_parents@, parent_hash, c, parent_hash);
    lemma_missing_lookup_remove(m0, child_hash, parent_hash);
    let m1 = missing_after_parent(g1.nodes@, g1.missing_bc_parents@, par, Some(parent_prev), p);
    lemma_missing_lookup_insert(g1.missing_bc_parents@, parent_prev, p, parent_hash);
    assert(missing_lookup(m1, parent_hash) == Some(c));
}

/// The height a new node gets: its own, or one above its parent.
pub open spec fn init_height(nodes: Seq<VizNode>, init: VizNodeInit) -> int {
    match init.height {
        Some(h) => h as int,
        None => nodes[init.parent->0 as int].height + 1,
    }
}

/// The parent a new node gets: its own, or, for a PoW node, the node of
/// its parent hash when that is one block lower.
pub open spec fn linked_parent(nodes: Seq<VizNode>, init: VizNodeInit, parent_hash: Option<[u8; 32]>) -> Option<u32> {
    match (init.kind, parent_hash) {
        (NodeKind::BC, Some(ph)) => match hash_index(nodes, NodeKind::BC, ph) {
            Some(p) => if nodes[p].height + 1 == init_height(nodes, init) {
                Some(p as u32)
            } else {
                init.parent
            },
            None => init.parent,
        },
        _ => init.parent,
    }
}

/// The waiting list after a new node at index `i` whose parent is not in
/// the graph: a PoW node with a nonzero parent hash waits for it.
pub open spec fn missing_after_parent(
    nodes: Seq<VizNode>,
    m: Seq<([u8; 32], u32)>,
    init: VizNodeInit,
    parent_hash: Option<[u8; 32]>,
    i: u32,
) -> Seq<([u8; 32], u32)> {
    match (init.kind, parent_hash) {
        (NodeKind::BC, Some(ph)) => if hash_index(nodes, NodeKind::BC, ph) is None && !is_zero_hash(ph) {
            missing_insert(m, ph, i)
        } else {
            m
        },
        _ => m,
    }
}

/// Whether hash index lookups see a pushed node last.
proof fn lemma_hash_index_push(nodes: Seq<VizNode>, n: VizNode, kind: NodeKind, h: [u8; 32])
    ensures
        (n.kind == kind && n.hash == Some(h)) ==> hash_index(nodes.push(n), kind, h) == Some(
            nodes.len() as int,
        ),
        !(n.kind == kind && n.hash == Some(h)) ==> hash_index(nodes.push(n), kind, h)
            == hash_index(nodes, kind, h),
{
    assert(nodes.push(n).drop_last() =~= nodes);
}

/// A hash index lookup finds a node of that kind and hash.
proof fn lemma_hash_index_found(nodes: Seq<VizNode>, kind: NodeKind, h: [u8; 32])
    ensures
        hash_index(nodes, kind, h) matches Some(i) ==> 0 <= i < nodes.len() && nodes[i].kind == kind
            && nodes[i].hash == Some(h),
    decreases nodes.len(),
{
    if nodes.len() > 0 {
        lemma_hash_index_found(nodes.drop_last(), kind, h);
    }
}

impl VizGraph {
    /// What `push_node` needs: the graph has room, a given parent is a
    /// node, a node without a height has a parent whose height can grow, a
    /// given height is one above a given parent, a PoW node's given parent
    /// is the node of its parent hash, and a PoW node waiting for the new
    /// node's hash has no parent yet and is one block higher.
    pub open spec fn can_push(&self, init: VizNodeInit, parent_hash: Option<[u8; 32]>) -> bool {
        let nodes = self.nodes@;
        &&& nodes.len() + 1 < u32::MAX
        &&& init.parent matches Some(p) ==> p < nodes.len()
        &&& init.height is None ==> (init.parent is Some && nodes[init.parent->0 as int].height
            < u32::MAX)
        &&& init.height matches Some(h) ==> (init.parent matches Some(p) ==> nodes[p as int].height
            + 1 == h)
        &&& init.kind == NodeKind::BC ==> (parent_hash matches Some(ph) ==> (hash_index(
            nodes,
            NodeKind::BC,
            ph,
        ) matches Some(p) ==> (init.parent is None || init.parent == Some(p as u32))))
        &&& init.kind == NodeKind::BC ==> (init.hash matches Some(h) ==> (missing_lookup(
            missing_after_parent(nodes, self.missing_bc_parents@, init, parent_hash, nodes.len() as u32),
            h,
        ) matches Some(c) ==> (c < nodes.len() ==> (nodes[c as int].parent is None
            && nodes[c as int].height == init_height(nodes, init) + 1))))
    }

    /// What `push_node` did, from `old` to `new`, returning `res`: the new
    /// node is last, with the parent it links to and its height; a lookup
    /// of its hash finds it; the waiting list and the node waiting for its
    /// hash are updated, the other nodes are unchanged; the lowest and
    /// highest PoW nodes take it into account.
    pub open spec fn pushed(
        old: VizGraph,
        new: VizGraph,
        init: VizNodeInit,
        parent_hash: Option<[u8; 32]>,
        res: u32,
    ) -> bool {
        let height = init_height(old.nodes@, init);
        let m1 = missing_after_parent(old.nodes@, old.missing_bc_parents@, init, parent_hash, res);
        &&& res == old.nodes@.len()
        &&& new.nodes@.len() == old.nodes@.len() + 1
        &&& new.nodes@[res as int] == (VizNode {
            kind: init.kind,
            parent: linked_parent(old.nodes@, init, parent_hash),
            hash: init.hash,
            height: height as u32,
        })
        &&& init.hash matches Some(h) ==> hash_index(new.nodes@, init.kind, h) == Some(res as int)
        &&& match (init.kind, init.hash) {
            (NodeKind::BC, Some(h)) => {
                &&& new.missing_bc_parents@ == missing_remove(m1, h)
                &&& forall|j: int|
                    0 <= j < old.nodes@.len() ==> (#[trigger] new.nodes@[j]) == if missing_lookup(
                        m1,
                        h,
                    ) == Some(j as u32) {
                        VizNode { parent: Some(res), ..old.nodes@[j] }
                    } else {
                        old.nodes@[j]
                    }
            },
            _ => {
                &&& new.missing_bc_parents@ == m1
                &&& forall|j: int|
                    0 <= j < old.nodes@.len() ==> (#[trigger] new.nodes@[j]) == old.nodes@[j]
            },
        }
        &&& init.kind == NodeKind::BC ==> new.bc_lo == (if old.bc_lo matches Some(l)
            && old.nodes@[l as int].height <= height {
            old.bc_lo
        } else {
            Some(res)
        })
        &&& init.kind == NodeKind::BC ==> new.bc_hi == (if old.bc_hi matches Some(h)
            && old.nodes@[h as int].height >= height {
            old.bc_hi
        } else {
            Some(res)
        })
        &&& init.kind == NodeKind::BFT ==> new.bc_lo == old.bc_lo && new.bc_hi == old.bc_hi
    }

    /// Adds a node; returns its index.  A PoW node is linked to the node of
    /// its parent hash when that is one block lower, or else waits for it;
    /// a PoW node waiting for this node's hash gets it as parent.  The
    /// lowest and highest PoW nodes are kept up to date.
    pub fn push_node(&mut self, init: VizNodeInit, parent_hash: Option<[u8; 32]>) -> (res: u32)
        requires
            old(self).wf(),
            old(self).can_push(init, parent_hash),
        ensures
            final(self).wf(),
            VizGraph::pushed(*old(self), *final(self), init, parent_hash, res),
    {
        let ghost old_nodes = self.nodes@;
        let ghost old_missing = self.missing_bc_parents@;
        let i = self.nodes.len() as u32;
        let height: u32 = match init.height {
            Some(h) => h,
            None => {
                let p = match init.parent {
                    Some(p) => p,
                    None => 0,
                };
                self.nodes[p as usize].height + 1
            },
        };
        let parent = self.link_parent(&init, parent_hash, height);
        let ghost m1 = self.missing_bc_parents@;
        if init.kind == NodeKind::BC {
            if let Some(h) = init.hash {
                self.adopt_child(&h, i);
            }
        }
        let ghost mid_nodes = self.nodes@;
        assert(same_shape(old_nodes, mid_nodes));
        if init.kind == NodeKind::BC {
            self.update_ends(height, i);
        }
        let new_node = VizNode { kind: init.kind, parent, hash: init.hash, height };
        self.nodes.push(new_node);
        proof {
            lemma_ends_after_push(old_nodes, mid_nodes, new_node, old(self).bc_lo, old(self).bc_hi, self.bc_lo, self.bc_hi);
            if let Some(h) = init.hash {
                lemma_hash_index_push(mid_nodes, new_node, init.kind, h);
            }
            assert forall|j: int| 0 <= j < self.nodes@.len() implies (#[trigger] self.nodes@[j]).parent matches Some(p) ==> p < self.nodes@.len() by {
                if j < mid_nodes.len() {
                    assert(self.nodes@[j] == mid_nodes[j]);
                }
            }
            assert forall|j: int| 0 <= j < old_nodes.len() implies (#[trigger] self.nodes@[j]) == mid_nodes[j] by {}
        }
        i
    }

    /// Adds a node for a PoW block at `height` with `hash`, whose previous
    /// block is `prev_hash`, unless a PoW node with that hash is already in
    /// the graph; returns the new node's index.
    pub fn push_bc_block(&mut self, height: u32, hash: [u8; 32], prev_hash: [u8; 32]) -> (res: Option<u32>)
        requires
            old(self).wf(),
            hash_index(old(self).nodes@, NodeKind::BC, hash) is None ==> old(self).can_push(
                bc_block_init(height, hash),
                Some(prev_hash),
            ),
        ensures
            final(self).wf(),
            bc_block_pushed(*old(self), *final(self), height, hash, prev_hash, res),
    {
        if self.find_bc_node_by_hash(&hash).is_some() {
            return None;
        }
        let init = VizNodeInit { kind: NodeKind::BC, parent: None, hash: Some(hash), height: Some(height) };
        Some(self.push_node(init, Some(prev_hash)))
    }

    /// The index of the PoW node with hash `h`.
    pub fn find_bc_node_by_hash(&self, h: &[u8; 32]) -> (res: Option<u32>)
        requires
            self.nodes@.len() <= u32::MAX,
        ensures
            match hash_index(self.nodes@, NodeKind::BC, *h) {
                Some(i) => res == Some(i as u32),
                None => res is None,
            },
    {
        self.find_node_by_hash(NodeKind::BC, h)
    }

    /// The index of the BFT node with hash `h`.
    pub fn find_bft_node_by_hash(&self, h: &[u8; 32]) -> (res: Option<u32>)
        requires
            self.nodes@.len() <= u32::MAX,
        ensures
            match hash_index(self.nodes@, NodeKind::BFT, *h) {
                Some(i) => res == Some(i as u32),
                None => res is None,
            },
    {
        self.find_node_by_hash(NodeKind::BFT, h)
    }

    /// Links a new node to the node of its parent hash, or records that it
    /// waits for that hash; returns the new node's parent.
    fn link_parent(&mut self, init: &VizNodeInit, parent_hash: Option<[u8; 32]>, height: u32) -> (parent: Option<u32>)
        requires
            old(self).nodes@.len() + 1 < u32::MAX,
            missing_wf(old(self).missing_bc_parents@, old(self).nodes@.len()),
            height == init_height(old(self).nodes@, *init),
            init.parent matches Some(p) ==> p < old(self).nodes@.len(),
        ensures
            final(self).nodes@ == old(self).nodes@,
            final(self).bc_lo == old(self).bc_lo,
            final(self).bc_hi == old(self).bc_hi,
            parent == linked_parent(old(self).nodes@, *init, parent_hash),
            parent matches Some(p) ==> p < old(self).nodes@.len(),
            final(self).missing_bc_parents@ == missing_after_parent(
                old(self).nodes@,
                old(self).missing_bc_parents@,
                *init,
                parent_hash,
                old(self).nodes@.len() as u32,
            ),
            missing_wf(final(self).missing_bc_parents@, old(self).nodes@.len() + 1),
    {
        let i = self.nodes.len() as u32;
        let mut parent = init.parent;
        if init.kind == NodeKind::BC {
            if let Some(ph) = parent_hash {
                let found = self.find_node_by_hash(NodeKind::BC, &ph);
                proof {
                    lemma_hash_index_found(self.nodes@, NodeKind::BC, ph);
                }
                match found {
                    Some(p) => {
                        if self.nodes[p as usize].height as u64 + 1 == height as u64 {
                            parent = Some(p);
                        }
                    },
                    None => {
                        if !hash_is_zero(&ph) {
                            let ghost m = self.missing_bc_parents@;
                            let k = find_key(&self.missing_bc_parents, &ph);
                            proof {
                                lemma_key_pos_bounds(m, ph);
                                lemma_missing_insert_wf(m, ph, i, self.nodes@.len() + 1);
                            }
                            if k < self.missing_bc_parents.len() {
                                self.missing_bc_parents.set(k, (ph, i));
                            } else {
                                self.missing_bc_parents.push((ph, i));
                            }
                            assert(self.missing_bc_parents@ == missing_insert(m, ph, i));
                        }
                    },
                }
            }
        }
        parent
    }

    /// Makes the node at index `i` the parent of the node waiting for hash
    /// `h`, if one waits, and takes `h` off the waiting list.
    fn adopt_child(&mut self, h: &[u8; 32], i: u32)
        requires
            i == old(self).nodes@.len(),
            missing_wf(old(self).missing_bc_parents@, old(self).nodes@.len() + 1),
            parents_in(old(self).nodes@),
        ensures
            final(self).bc_lo == old(self).bc_lo,
            final(self).bc_hi == old(self).bc_hi,
            final(self).missing_bc_parents@ == missing_remove(old(self).missing_bc_parents@, *h),
            missing_wf(final(self).missing_bc_parents@, old(self).nodes@.len() + 1),
            final(self).nodes@.len() == old(self).nodes@.len(),
            same_shape(old(self).nodes@, final(self).nodes@),
            forall|j: int|
                0 <= j < old(self).nodes@.len() ==> (#[trigger] final(self).nodes@[j]) == if missing_lookup(
                    old(self).missing_bc_parents@,
                    *h,
                ) == Some(j as u32) {
                    VizNode { parent: Some(i), ..old(self).nodes@[j] }
                } else {
                    old(self).nodes@[j]
                },
            forall|j: int|
                0 <= j < final(self).nodes@.len() ==> ((#[trigger] final(self).nodes@[j]).parent matches Some(
                    p,
                ) ==> p <= old(self).nodes@.len()),
    {
        let ghost m = self.missing_bc_parents@;
        let k = find_key(&self.missing_bc_parents, h);
        proof {
            lemma_key_pos_bounds(m, *h);
            lemma_missing_remove_wf(m, *h, self.nodes@.len() + 1);
        }
        if k < self.missing_bc_parents.len() {
            let c = self.missing_bc_parents[k].1;
            if (c as usize) < self.nodes.len() {
                let child = self.nodes[c as usize];
                self.nodes.set(c as usize, VizNode { parent: Some(i), ..child });
            }
            self.missing_bc_parents.remove(k);
        }
    }

    /// Keeps the lowest and highest PoW node up to date for a new PoW node
    /// of `height` at index `i`.
    fn update_ends(&mut self, height: u32, i: u32)
        requires
            old(self).bc_lo matches Some(l) ==> l < old(self).nodes@.len(),
            old(self).bc_hi matches Some(h) ==> h < old(self).nodes@.len(),
        ensures
            final(self).nodes@ == old(self).nodes@,
            final(self).missing_bc_parents@ == old(self).missing_bc_parents@,
            final(self).bc_lo == (if old(self).bc_lo matches Some(l) && old(self).nodes@[l as int].height
                <= height {
                old(self).bc_lo
            } else {
                Some(i)
            }),
            final(self).bc_hi == (if old(self).bc_hi matches Some(h) && old(self).nodes@[h as int].height
                >= height {
                old(self).bc_hi
            } else {
                Some(i)
            }),
    {
        let lo_keeps = match self.bc_lo {
            Some(l) => self.nodes[l as usize].height <= height,
            None => false,
        };
        if !lo_keeps {
            self.bc_lo = Some(i);
        }
        let hi_keeps = match self.bc_hi {
            Some(h) => self.nodes[h as usize].height >= height,
            None => false,
        };
        if !hi_keeps {
            self.bc_hi = Some(i);
        }
    }
}


/// Mapping a key keeps the waiting list well formed.
proof fn lemma_missing_insert_wf(m: Seq<([u8; 32], u32)>, k: [u8; 32], v: u32, bound: nat)
    requires
        missing_wf(m, bound),
        v < bound,
    ensures
        missing_wf(missing_insert(m, k, v), bound),
{
    lemma_key_pos_bounds(m, k);
    let r = missing_insert(m, k, v);
    assert forall|a: int, b: int| 0 <= a < b < r.len() implies (#[trigger] r[a]).0 != (#[trigger] r[b]).0 by {
        if key_pos(m, k) == m.len() && b == m.len() {
            assert(m[a].0 != k);
        }
    }
}

/// Removing a key keeps the waiting list well formed.
proof fn lemma_missing_remove_wf(m: Seq<([u8; 32], u32)>, k: [u8; 32], bound: nat)
    requires
        missing_wf(m, bound),
    ensures
        missing_wf(missing_remove(m, k), bound),
{
    lemma_key_pos_bounds(m, k);
    let r = missing_remove(m, k);
    if key_pos(m, k) < m.len() {
        let p = key_pos(m, k);
        assert forall|j: int| 0 <= j < r.len() implies (#[trigger] r[j]).1 < bound by {
            if j < p {
                assert(r[j] == m[j]);
            } else {
                assert(r[j] == m[j + 1]);
            }
        }
        assert forall|a: int, b: int| 0 <= a < b < r.len() implies (#[trigger] r[a]).0 != (#[trigger] r[b]).0 by {
            let a2 = if a < p { a } else { a + 1 };
            let b2 = if b < p { b } else { b + 1 };
            assert(r[a] == m[a2]);
            assert(r[b] == m[b2]);
            assert(m[a2].0 != m[b2].0);
        }
    }
}

/// The lowest and highest PoW nodes after a node is pushed onto a list of
/// the same shape.
proof fn lemma_ends_after_push(
    old_nodes: Seq<VizNode>,
    mid: Seq<VizNode>,
    n: VizNode,
    lo: Option<u32>,
    hi: Option<u32>,
    new_lo: Option<u32>,
    new_hi: Option<u32>,
)
    requires
        same_shape(old_nodes, mid),
        old_nodes.len() < u32::MAX,
        lo is Some <==> has_bc(old_nodes),
        hi is Some <==> has_bc(old_nodes),
        lo matches Some(l) ==> is_lowest_bc(old_nodes, l as int),
        hi matches Some(h) ==> is_highest_bc(old_nodes, h as int),
        n.kind == NodeKind::BC ==> new_lo == (if lo matches Some(l) && mid[l as int].height
            <= n.height {
            lo
        } else {
            Some(old_nodes.len() as u32)
        }),
        n.kind == NodeKind::BC ==> new_hi == (if hi matches Some(h) && mid[h as int].height
            >= n.height {
            hi
        } else {
            Some(old_nodes.len() as u32)
        }),
        n.kind == NodeKind::BFT ==> new_lo == lo && new_hi == hi,
    ensures
        new_lo is Some <==> has_bc(mid.push(n)),
        new_hi is Some <==> has_bc(mid.push(n)),
        new_lo matches Some(l) ==> is_lowest_bc(mid.push(n), l as int),
        new_hi matches Some(h) ==> is_highest_bc(mid.push(n), h as int),
{
    let f = mid.push(n);
    assert forall|j: int| 0 <= j < old_nodes.len() implies (#[trigger] f[j]).kind == old_nodes[j].kind
        && f[j].height == old_nodes[j].height by {
        assert(f[j] == mid[j]);
    }
    assert(f[old_nodes.len() as int] == n);
    if has_bc(old_nodes) {
        let w = choose|j: int| 0 <= j < old_nodes.len() && (#[trigger] old_nodes[j]).kind == NodeKind::BC;
        assert(f[w].kind == NodeKind::BC);
    }
    if has_bc(f) {
        let w = choose|j: int| 0 <= j < f.len() && (#[trigger] f[j]).kind == NodeKind::BC;
        if w < old_nodes.len() {
            assert(old_nodes[w].kind == NodeKind::BC);
        }
    }
    if n.kind == NodeKind::BC {
        assert(f[old_nodes.len() as int].kind == NodeKind::BC);
    }
}

} // verus!
