//! The ratchet tree: an array-based complete binary tree of public keys,
//! changed only through diffs that are validated before they are merged.
use vstd::prelude::*;
use crate::codec::{append_bytes, append_opaque_u16, append_opaque_u8, opaque_u16, opaque_u8};
use crate::crypto::{sha256, sha256_of};
use crate::errors::TreeSyncDiffError;

verus! {

/// The deepest tree this library holds: 2^16 leaves.
pub const MAX_DEPTH: usize = 16;

/// A node of the tree. Leaves sit at even indices, parents at odd ones.
pub enum Node {
    Blank,
    Leaf { public_key: Vec<u8> },
    Parent { public_key: Vec<u8>, parent_hash: Vec<u8> },
}

pub open spec fn pow2(l: nat) -> nat
    decreases l,
{
    if l == 0 {
        1
    } else {
        2 * pow2((l - 1) as nat)
    }
}

pub proof fn lemma_pow2_le(l: nat, m: nat)
    requires
        l <= m,
    ensures
        1 <= pow2(l) <= pow2(m),
    decreases m,
{
    if l < m {
        lemma_pow2_le(l, (m - 1) as nat);
    } else if l > 0 {
        lemma_pow2_le((l - 1) as nat, (l - 1) as nat);
    }
}

pub proof fn lemma_pow2_max()
    ensures
        pow2(MAX_DEPTH as nat) == 65536,
{
    reveal_with_fuel(pow2, 17);
}

/// Node `x` of level `l` is the left child of its parent.
pub open spec fn is_left(x: int, l: nat) -> bool {
    (x / (pow2(l + 1) as int)) % 2 == 0
}

/// The parent of node `x` of level `l`.
pub open spec fn parent_of(x: int, l: nat) -> int {
    if is_left(x, l) {
        x + pow2(l)
    } else {
        x - pow2(l)
    }
}

/// The sibling of node `x` of level `l`.
pub open spec fn sibling_of(x: int, l: nat) -> int {
    if is_left(x, l) {
        x + pow2(l + 1)
    } else {
        x - pow2(l + 1)
    }
}

/// The public key a node holds, if it is not blank.
pub open spec fn key_of(n: Node) -> Option<Seq<u8>> {
    match n {
        Node::Blank => None,
        Node::Leaf { public_key } => Some(public_key@),
        Node::Parent { public_key, .. } => Some(public_key@),
    }
}

/// The parent hash a node holds; empty but for parents.
pub open spec fn stored_hash_of(n: Node) -> Seq<u8> {
    match n {
        Node::Parent { parent_hash, .. } => parent_hash@,
        _ => Seq::empty(),
    }
}

/// The encoded public keys of the resolution of node `x` of level `l`: the
/// node itself when it is not blank, else the resolutions of its children,
/// left first.
pub open spec fn resolution(nodes: Seq<Node>, x: int, l: nat) -> Seq<u8>
    decreases l,
{
    if x < 0 || x >= nodes.len() {
        Seq::empty()
    } else {
        match key_of(nodes[x]) {
            Some(k) => opaque_u16(k),
            None => if l == 0 {
                Seq::empty()
            } else {
                resolution(nodes, x - pow2((l - 1) as nat), (l - 1) as nat) + resolution(
                    nodes,
                    x + pow2((l - 1) as nat),
                    (l - 1) as nat,
                )
            },
        }
    }
}

/// The parent hash that node `x` of level `l` must hold in a tree of depth
/// `depth`: empty at the root; else the hash over its own key, its parent's
/// parent hash and the resolution of its sibling.
pub open spec fn expected_parent_hash(nodes: Seq<Node>, x: int, l: nat, depth: nat) -> Seq<u8> {
    if l >= depth {
        Seq::empty()
    } else {
        let own = match key_of(nodes[x]) {
            Some(k) => k,
            None => Seq::empty(),
        };
        sha256_of(
            opaque_u16(own) + opaque_u8(stored_hash_of(nodes[parent_of(x, l)])) + resolution(
                nodes,
                sibling_of(x, l),
                l,
            ),
        )
    }
}

/// Node `x` of level `l` is a parent whose stored hash is the expected one.
pub open spec fn parent_hash_valid(nodes: Seq<Node>, x: int, l: nat, depth: nat) -> bool {
    &&& 0 <= x < nodes.len()
    &&& nodes[x] is Parent
    &&& l < depth ==> 0 <= parent_of(x, l) < nodes.len() && sibling_of(x, l) >= 0
    &&& stored_hash_of(nodes[x]) == expected_parent_hash(nodes, x, l, depth)
}

/// Two distinct leaves hold the same public key.
pub open spec fn has_duplicate_leaves(nodes: Seq<Node>) -> bool {
    exists|i: int, j: int|
        0 <= i < j < nodes.len() && i % 2 == 0 && j % 2 == 0 && #[trigger] nodes[i] is Leaf && #[trigger] nodes[j] is Leaf
            && key_of(nodes[i]) == key_of(nodes[j])
}

/// Every key fits a two-byte length and every parent hash a one-byte one.
pub open spec fn node_fits(n: Node) -> bool {
    match n {
        Node::Blank => true,
        Node::Leaf { public_key } => public_key@.len() < 0x1_0000,
        Node::Parent { public_key, parent_hash } => public_key@.len() < 0x1_0000 && parent_hash@.len() < 256,
    }
}

/// The shape of a tree of depth `depth` with every node encodable.
pub open spec fn shape_ok(nodes: Seq<Node>, depth: nat) -> bool {
    &&& depth <= MAX_DEPTH
    &&& nodes.len() == 2 * pow2(depth) - 1
    &&& forall|i: int| 0 <= i < nodes.len() ==> node_fits(#[trigger] nodes[i])
}

fn pow2_exec(l: usize) -> (r: usize)
    requires
        l <= MAX_DEPTH + 1,
    ensures
        r == pow2(l as nat),
        1 <= r <= 131072,
{
    let mut r: usize = 1;
    let mut i: usize = 0;
    proof {
        lemma_pow2_le(0, (MAX_DEPTH + 1) as nat);
    }
    while i < l
        invariant
            i <= l <= MAX_DEPTH + 1,
            r == pow2(i as nat),
            r <= pow2((MAX_DEPTH + 1) as nat),
        decreases l - i,
    {
        proof {
            lemma_pow2_le((i + 1) as nat, (MAX_DEPTH + 1) as nat);
            lemma_pow2_max();
        }
        r = r * 2;
        i = i + 1;
    }
    proof {
        lemma_pow2_le(l as nat, (MAX_DEPTH + 1) as nat);
        lemma_pow2_le(0, l as nat);
        lemma_pow2_max();
    }
    r
}

/// The public key of a node, if it is not blank.
fn node_key(n: &Node) -> (r: Option<&Vec<u8>>)
    ensures
        r is Some <==> key_of(*n) is Some,
        r is Some ==> r->Some_0@ == key_of(*n)->Some_0,
{
    match n {
        Node::Blank => None,
        Node::Leaf { public_key } => Some(public_key),
        Node::Parent { public_key, .. } => Some(public_key),
    }
}

/// Appends the resolution of node `x` of level `l`.
fn append_resolution(nodes: &Vec<Node>, x: usize, l: usize, out: &mut Vec<u8>)
    requires
        nodes@.len() <= 131071,
        forall|i: int| 0 <= i < nodes@.len() ==> node_fits(#[trigger] nodes@[i]),
        x <= 262144,
        l <= MAX_DEPTH,
    ensures
        final(out)@ == old(out)@ + resolution(nodes@, x as int, l as nat),
    decreases l,
{
    if x >= nodes.len() {
        assert(old(out)@ + Seq::<u8>::empty() == old(out)@);
        return;
    }
    match node_key(&nodes[x]) {
        Some(k) => {
            assert(node_fits(nodes@[x as int]));
            append_opaque_u16(out, k.as_slice());
        },
        None => {
            if l == 0 {
                assert(old(out)@ + Seq::<u8>::empty() == old(out)@);
                return;
            }
            let half = pow2_exec(l - 1);
            proof {
                lemma_pow2_le((l - 1) as nat, MAX_DEPTH as nat);
                lemma_pow2_max();
            }
            let ghost before = out@;
            if x >= half {
                append_resolution(nodes, x - half, l - 1, out);
            } else {
                assert(resolution(nodes@, x - half, (l - 1) as nat) == Seq::<u8>::empty());
                assert(out@ == before + Seq::<u8>::empty());
            }
            let ghost mid = out@;
            append_resolution(nodes, x + half, l - 1, out);
            assert(out@ == before + resolution(nodes@, x - half, (l - 1) as nat) + resolution(nodes@, x + half, (l - 1) as nat));
        },
    }
}

/// The parent and the sibling of node `x` of level `l`; `None` where either
/// falls below index zero.
fn relatives(x: usize, l: usize) -> (r: Option<(usize, usize)>)
    requires
        x <= 131071,
        l < MAX_DEPTH,
    ensures
        r is Some <==> (parent_of(x as int, l as nat) >= 0 && sibling_of(x as int, l as nat) >= 0),
        r is Some ==> r->Some_0.0 == parent_of(x as int, l as nat) && r->Some_0.1 == sibling_of(x as int, l as nat),
{
    let p = pow2_exec(l);
    let p2 = pow2_exec(l + 1);
    assert(pow2((l + 1) as nat) == 2 * pow2(l as nat));
    proof {
        lemma_pow2_le(l as nat, (l + 1) as nat);
    }
    if (x / p2) % 2 == 0 {
        Some((x + p, x + p2))
    } else if x >= p2 {
        Some((x - p, x - p2))
    } else {
        None
    }
}

/// The parent hash node `x` of level `l` must hold.
fn compute_parent_hash(nodes: &Vec<Node>, x: usize, l: usize, depth: usize) -> (r: Vec<u8>)
    requires
        nodes@.len() <= 131071,
        forall|i: int| 0 <= i < nodes@.len() ==> node_fits(#[trigger] nodes@[i]),
        x < nodes@.len(),
        l <= depth <= MAX_DEPTH,
        l < depth ==> 0 <= parent_of(x as int, l as nat) < nodes@.len(),
        l < depth ==> sibling_of(x as int, l as nat) >= 0,
    ensures
        r@ == expected_parent_hash(nodes@, x as int, l as nat, depth as nat),
{
    if l >= depth {
        return Vec::new();
    }
    let (parent, sibling) = match relatives(x, l) {
        Some(ps) => ps,
        None => return Vec::new(),
    };
    let mut input: Vec<u8> = Vec::new();
    assert(node_fits(nodes@[x as int]));
    assert(node_fits(nodes@[parent as int]));
    match node_key(&nodes[x]) {
        Some(k) => append_opaque_u16(&mut input, k.as_slice()),
        None => {
            let none: Vec<u8> = Vec::new();
            append_opaque_u16(&mut input, none.as_slice());
        },
    }
    match &nodes[parent] {
        Node::Parent { parent_hash, .. } => append_opaque_u8(&mut input, parent_hash.as_slice()),
        _ => {
            let none: Vec<u8> = Vec::new();
            append_opaque_u8(&mut input, none.as_slice());
        },
    }
    append_resolution(nodes, sibling, l, &mut input);
    match sha256(input.as_slice()) {
        Ok(h) => h,
        Err(_) => Vec::new(),
    }
}

/// The parent hash a node holds; empty but for parents.
fn stored_hash(n: &Node) -> (r: &[u8])
    ensures
        r@ == stored_hash_of(*n),
{
    match n {
        Node::Parent { parent_hash, .. } => parent_hash.as_slice(),
        _ => &[],
    }
}

/// Whether node `x` of level `l` is a parent holding the expected hash.
fn check_parent_hash(nodes: &Vec<Node>, x: usize, l: usize, depth: usize) -> (r: bool)
    requires
        nodes@.len() <= 131071,
        forall|i: int| 0 <= i < nodes@.len() ==> node_fits(#[trigger] nodes@[i]),
        l <= depth <= MAX_DEPTH,
    ensures
        r == parent_hash_valid(nodes@, x as int, l as nat, depth as nat),
{
    if x >= nodes.len() {
        return false;
    }
    match &nodes[x] {
        Node::Parent { .. } => {},
        _ => return false,
    }
    let parent = if l < depth {
        match relatives(x, l) {
            Some(ps) => ps.0,
            None => return false,
        }
    } else {
        0
    };
    if l < depth && parent >= nodes.len() {
        return false;
    }
    let expected = compute_parent_hash(nodes, x, l, depth);
    crate::kat::bytes_eq(stored_hash(&nodes[x]), expected.as_slice())
}

/// Whether two distinct leaves hold the same public key.
fn find_duplicate_leaves(nodes: &Vec<Node>) -> (r: bool)
    ensures
        r == has_duplicate_leaves(nodes@),
{
    let n = nodes.len();
    let mut i: usize = 0;
    while i < n
        invariant
            n == nodes@.len(),
            i <= n,
            forall|a: int, b: int|
                0 <= a < i && a < b < n && a % 2 == 0 && b % 2 == 0 && #[trigger] nodes@[a] is Leaf
                    && #[trigger] nodes@[b] is Leaf ==> key_of(nodes@[a]) != key_of(nodes@[b]),
        decreases n - i,
    {
        if i % 2 == 0 {
            if let Node::Leaf { public_key: ki } = &nodes[i] {
                let mut j: usize = i + 1;
                while j < n
                    invariant
                        n == nodes@.len(),
                        i < n,
                        i % 2 == 0,
                        nodes@[i as int] is Leaf,
                        key_of(nodes@[i as int]) == Some(ki@),
                        i < j <= n,
                        forall|b: int|
                            i < b < j && b % 2 == 0 && #[trigger] nodes@[b] is Leaf ==> key_of(nodes@[i as int])
                                != key_of(nodes@[b]),
                    decreases n - j,
                {
                    if j % 2 == 0 {
                        if let Node::Leaf { public_key: kj } = &nodes[j] {
                            if crate::kat::bytes_eq(ki.as_slice(), kj.as_slice()) {
                                assert(key_of(nodes@[i as int]) == key_of(nodes@[j as int]));
                                return true;
                            }
                        }
                    }
                    j = j + 1;
                }
            }
        }
        i = i + 1;
    }
    false
}

/// A node, as values.
pub enum NodeView {
    Blank,
    Leaf(Seq<u8>),
    Parent(Seq<u8>, Seq<u8>),
}

pub open spec fn node_view(n: Node) -> NodeView {
    match n {
        Node::Blank => NodeView::Blank,
        Node::Leaf { public_key } => NodeView::Leaf(public_key@),
        Node::Parent { public_key, parent_hash } => NodeView::Parent(public_key@, parent_hash@),
    }
}

/// The nodes of a tree, as values.
pub open spec fn nodes_view(nodes: Seq<Node>) -> Seq<NodeView> {
    nodes.map_values(|n: Node| node_view(n))
}

fn clone_node(n: &Node) -> (r: Node)
    ensures
        node_view(r) == node_view(*n),
{
    match n {
        Node::Blank => Node::Blank,
        Node::Leaf { public_key } => Node::Leaf { public_key: crate::codec::copy_bytes(public_key.as_slice()) },
        Node::Parent { public_key, parent_hash } => Node::Parent {
            public_key: crate::codec::copy_bytes(public_key.as_slice()),
            parent_hash: crate::codec::copy_bytes(parent_hash.as_slice()),
        },
    }
}

/// A ratchet tree of depth `depth`: 2^depth leaves and 2^(depth+1)-1 nodes.
pub struct TreeSync {
    nodes: Vec<Node>,
    depth: usize,
}

/// A pending change of a tree: a copy of its nodes, and the parent nodes
/// that paths were set on, each with its level.
pub struct TreeSyncDiff {
    nodes: Vec<Node>,
    depth: usize,
    modified: Vec<(usize, usize)>,
}

/// One node of a path: the new public key and the parent hash claimed for it.
pub struct PathEntry {
    pub public_key: Vec<u8>,
    pub parent_hash: Vec<u8>,
}

/// Every parent node that a diff set a path on holds the expected hash.
pub open spec fn modified_valid(nodes: Seq<Node>, modified: Seq<(usize, usize)>, depth: nat) -> bool {
    forall|i: int|
        0 <= i < modified.len() ==> parent_hash_valid(nodes, (#[trigger] modified[i]).0 as int, modified[i].1 as nat, depth)
}

/// What validating a diff yields: a duplicate leaf key first, then a parent
/// hash that does not match.
pub open spec fn diff_verdict(nodes: Seq<Node>, modified: Seq<(usize, usize)>, depth: nat) -> Result<(), TreeSyncDiffError> {
    if has_duplicate_leaves(nodes) {
        Err(TreeSyncDiffError::DuplicateKeyPackage)
    } else if !modified_valid(nodes, modified, depth) {
        Err(TreeSyncDiffError::InvalidParentHash)
    } else {
        Ok(())
    }
}

impl TreeSync {
    pub closed spec fn nodes(&self) -> Seq<Node> {
        self.nodes@
    }

    pub closed spec fn depth(&self) -> nat {
        self.depth as nat
    }

    pub closed spec fn wf(&self) -> bool {
        shape_ok(self.nodes@, self.depth as nat)
    }

    /// A tree of depth `depth` whose every node is blank.
    pub fn new(depth: usize) -> (r: Option<TreeSync>)
        ensures
            r is Some <==> depth <= MAX_DEPTH,
            r is Some ==> r->Some_0.wf() && r->Some_0.depth() == depth,
            r is Some ==> forall|i: int| 0 <= i < r->Some_0.nodes().len() ==> #[trigger] r->Some_0.nodes()[i] is Blank,
    {
        if depth > MAX_DEPTH {
            return None;
        }
        let p = pow2_exec(depth);
        let count = 2 * p - 1;
        let mut nodes: Vec<Node> = Vec::new();
        let mut i: usize = 0;
        while i < count
            invariant
                i <= count,
                nodes@.len() == i,
                forall|k: int| 0 <= k < i ==> #[trigger] nodes@[k] is Blank,
            decreases count - i,
        {
            nodes.push(Node::Blank);
            i = i + 1;
        }
        let t = TreeSync { nodes, depth };
        assert(forall|k: int| 0 <= k < t.nodes@.len() ==> node_fits(#[trigger] t.nodes@[k]));
        Some(t)
    }

    /// The number of leaves.
    pub fn leaf_count(&self) -> (r: usize)
        requires
            self.wf(),
        ensures
            r == pow2(self.depth()),
    {
        pow2_exec(self.depth)
    }

    /// The public key at a leaf, if the leaf is in the tree and not blank.
    pub fn leaf_key(&self, leaf_index: usize) -> (r: Option<Vec<u8>>)
        requires
            self.wf(),
        ensures
            r is Some <==> (2 * leaf_index < self.nodes().len() && self.nodes()[2 * leaf_index] is Leaf),
            r is Some ==> Some(r->Some_0@) == key_of(self.nodes()[2 * leaf_index]),
            r is Some ==> r->Some_0@.len() < 0x1_0000,
    {
        if leaf_index >= self.nodes.len() / 2 + 1 {
            return None;
        }
        assert(node_fits(self.nodes@[2 * leaf_index as int]));
        match &self.nodes[2 * leaf_index] {
            Node::Leaf { public_key } => Some(crate::codec::copy_bytes(public_key.as_slice())),
            _ => None,
        }
    }

    /// A diff over a copy of the tree, with no path set yet.
    pub fn empty_diff(&self) -> (r: TreeSyncDiff)
        requires
            self.wf(),
        ensures
            r.wf(),
            r.depth() == self.depth(),
            nodes_view(r.nodes()) == nodes_view(self.nodes()),
            r.modified().len() == 0,
    {
        let mut nodes: Vec<Node> = Vec::new();
        let mut i: usize = 0;
        while i < self.nodes.len()
            invariant
                self.wf(),
                i <= self.nodes@.len(),
                nodes@.len() == i,
                forall|k: int| 0 <= k < i ==> node_view(#[trigger] nodes@[k]) == node_view(self.nodes@[k]),
            decreases self.nodes@.len() - i,
        {
            nodes.push(clone_node(&self.nodes[i]));
            i = i + 1;
        }
        assert(nodes_view(nodes@) =~= nodes_view(self.nodes@));
        let d = TreeSyncDiff { nodes, depth: self.depth, modified: Vec::new() };
        assert(forall|k: int| 0 <= k < d.nodes@.len() ==> node_fits(#[trigger] d.nodes@[k])) by {
            assert forall|k: int| 0 <= k < d.nodes@.len() implies node_fits(#[trigger] d.nodes@[k]) by {
                assert(node_view(d.nodes@[k]) == node_view(self.nodes@[k]));
                assert(node_fits(self.nodes@[k]));
            }
        }
        d
    }

    /// Validates a diff and, if it is valid, makes its nodes the tree's. A
    /// diff that fails leaves the tree exactly as it was.
    pub fn merge_diff(&mut self, diff: TreeSyncDiff) -> (r: Result<(), TreeSyncDiffError>)
        requires
            old(self).wf(),
            diff.wf(),
            diff.depth() == old(self).depth(),
        ensures
            r == diff_verdict(diff.nodes(), diff.modified(), diff.depth()),
            r is Ok ==> final(self).wf() && final(self).nodes() == diff.nodes() && final(self).depth() == old(self).depth(),
            r is Ok ==> modified_valid(final(self).nodes(), diff.modified(), final(self).depth()),
            r is Err ==> *final(self) == *old(self),
    {
        let r = diff.validate();
        match r {
            Ok(()) => {
                self.nodes = diff.nodes;
                Ok(())
            },
            Err(e) => Err(e),
        }
    }
}

impl TreeSyncDiff {
    pub closed spec fn nodes(&self) -> Seq<Node> {
        self.nodes@
    }

    pub closed spec fn depth(&self) -> nat {
        self.depth as nat
    }

    pub closed spec fn modified(&self) -> Seq<(usize, usize)> {
        self.modified@
    }

    pub closed spec fn wf(&self) -> bool {
        &&& shape_ok(self.nodes@, self.depth as nat)
        &&& forall|i: int| 0 <= i < self.modified@.len() ==> (#[trigger] self.modified@[i]).1 <= self.depth
    }

    /// Checks the diff: no two leaves share a key, and every parent node a
    /// path was set on holds the expected parent hash.
    pub fn validate(&self) -> (r: Result<(), TreeSyncDiffError>)
        requires
            self.wf(),
        ensures
            r == diff_verdict(self.nodes(), self.modified(), self.depth()),
    {
        if find_duplicate_leaves(&self.nodes) {
            return Err(TreeSyncDiffError::DuplicateKeyPackage);
        }
        proof {
            lemma_pow2_le(self.depth as nat, MAX_DEPTH as nat);
            lemma_pow2_max();
        }
        let mut i: usize = 0;
        while i < self.modified.len()
            invariant
                self.wf(),
                self.nodes@.len() <= 131071,
                !has_duplicate_leaves(self.nodes@),
                i <= self.modified@.len(),
                forall|k: int|
                    0 <= k < i ==> parent_hash_valid(
                        self.nodes@,
                        (#[trigger] self.modified@[k]).0 as int,
                        self.modified@[k].1 as nat,
                        self.depth as nat,
                    ),
            decreases self.modified@.len() - i,
        {
            let (x, l) = self.modified[i];
            assert(self.modified@[i as int].1 <= self.depth);
            if !check_parent_hash(&self.nodes, x, l, self.depth) {
                assert(!parent_hash_valid(self.nodes@, self.modified@[i as int].0 as int, self.modified@[i as int].1 as nat, self.depth as nat));
                return Err(TreeSyncDiffError::InvalidParentHash);
            }
            i = i + 1;
        }
        Ok(())
    }
}

/// The ancestor `k` levels above node `x` of level zero.
pub open spec fn ancestor(x: int, k: nat) -> int
    decreases k,
{
    if k == 0 {
        x
    } else {
        parent_of(ancestor(x, (k - 1) as nat), (k - 1) as nat)
    }
}

/// The direct path of node `x` of level zero, up to level `depth`, stays in a
/// tree of `len` nodes.
pub open spec fn path_in_tree(x: int, depth: nat, len: nat) -> bool {
    forall|k: nat|
        k < depth ==> 0 <= #[trigger] parent_of(ancestor(x, k), k) < len && sibling_of(ancestor(x, k), k) >= 0
}

/// The nodes after the first `k` entries of `path` were set on the direct
/// path of node `x`, bottom up.
pub open spec fn path_applied(nodes: Seq<NodeView>, x: int, path: Seq<PathEntry>, k: nat) -> Seq<NodeView>
    decreases k,
{
    if k == 0 || k > path.len() {
        nodes
    } else {
        path_applied(nodes, x, path, (k - 1) as nat).update(
            ancestor(x, k),
            NodeView::Parent(path[k - 1].public_key@, path[k - 1].parent_hash@),
        )
    }
}

/// The direct-path nodes of `x` of levels one to `k`, each with its level.
pub open spec fn path_nodes(x: int, k: nat) -> Seq<(usize, usize)> {
    Seq::new(k, |i: int| (ancestor(x, (i + 1) as nat) as usize, (i + 1) as usize))
}

/// Every entry of a path fits the encoding of a node.
pub open spec fn path_fits(path: Seq<PathEntry>) -> bool {
    forall|i: int|
        0 <= i < path.len() ==> (#[trigger] path[i]).public_key@.len() < 0x1_0000 && path[i].parent_hash@.len() < 256
}

impl TreeSyncDiff {
    /// Marks a leaf absent.
    pub fn blank_leaf(&mut self, leaf_index: usize) -> (r: Result<(), TreeSyncDiffError>)
        requires
            old(self).wf(),
        ensures
            final(self).wf(),
            final(self).depth() == old(self).depth(),
            final(self).modified() == old(self).modified(),
            r is Ok <==> 2 * leaf_index < old(self).nodes().len(),
            r is Ok ==> nodes_view(final(self).nodes()) == nodes_view(old(self).nodes()).update(
                2 * leaf_index,
                NodeView::Blank,
            ),
            r is Err ==> r == Err::<(), TreeSyncDiffError>(TreeSyncDiffError::LibraryError) && *final(self) == *old(self),
    {
        if leaf_index >= self.nodes.len() / 2 + 1 {
            return Err(TreeSyncDiffError::LibraryError);
        }
        let idx = 2 * leaf_index;
        self.nodes.set(idx, Node::Blank);
        assert(nodes_view(self.nodes@) =~= nodes_view(old(self).nodes@).update(idx as int, NodeView::Blank));
        assert(forall|i: int| 0 <= i < self.nodes@.len() ==> node_fits(#[trigger] self.nodes@[i])) by {
            assert forall|i: int| 0 <= i < self.nodes@.len() implies node_fits(#[trigger] self.nodes@[i]) by {
                if i != idx {
                    assert(self.nodes@[i] == old(self).nodes@[i]);
                }
            }
        }
        Ok(())
    }

    /// Puts a member's public key at a leaf. A key that another leaf holds
    /// is accepted here and rejected when the diff is validated.
    pub fn merge_leaf(&mut self, leaf_index: usize, public_key: Vec<u8>) -> (r: Result<(), TreeSyncDiffError>)
        requires
            old(self).wf(),
        ensures
            final(self).wf(),
            final(self).depth() == old(self).depth(),
            final(self).modified() == old(self).modified(),
            r is Ok <==> 2 * leaf_index < old(self).nodes().len() && public_key@.len() < 0x1_0000,
            r is Ok ==> nodes_view(final(self).nodes()) == nodes_view(old(self).nodes()).update(
                2 * leaf_index,
                NodeView::Leaf(public_key@),
            ),
            r is Err ==> r == Err::<(), TreeSyncDiffError>(TreeSyncDiffError::LibraryError) && *final(self) == *old(self),
    {
        if leaf_index >= self.nodes.len() / 2 + 1 || public_key.len() >= 0x1_0000 {
            return Err(TreeSyncDiffError::LibraryError);
        }
        let idx = 2 * leaf_index;
        let ghost key = public_key@;
        self.nodes.set(idx, Node::Leaf { public_key });
        assert(nodes_view(self.nodes@) =~= nodes_view(old(self).nodes@).update(idx as int, NodeView::Leaf(key)));
        assert(forall|i: int| 0 <= i < self.nodes@.len() ==> node_fits(#[trigger] self.nodes@[i])) by {
            assert forall|i: int| 0 <= i < self.nodes@.len() implies node_fits(#[trigger] self.nodes@[i]) by {
                if i != idx {
                    assert(self.nodes@[i] == old(self).nodes@[i]);
                }
            }
        }
        Ok(())
    }
}

impl TreeSyncDiff {
    /// Sets a path: the entries, bottom up, become the parent nodes on the
    /// direct path of the leaf, with the parent hashes they claim, and those
    /// nodes are recorded for validation. Fails with `PathLengthError` when
    /// the path is not as long as the tree is deep, and with `LibraryError`
    /// when the leaf or the path does not fit the tree; a failure changes
    /// nothing.
    pub fn apply_path(&mut self, leaf_index: usize, path: Vec<PathEntry>) -> (r: Result<(), TreeSyncDiffError>)
        requires
            old(self).wf(),
        ensures
            final(self).wf(),
            final(self).depth() == old(self).depth(),
            path@.len() != old(self).depth() ==> r == Err::<(), TreeSyncDiffError>(TreeSyncDiffError::PathLengthError),
            r is Ok <==> (path@.len() == old(self).depth() && 2 * leaf_index < old(self).nodes().len() && path_fits(path@)
                && path_in_tree(2 * leaf_index, old(self).depth(), old(self).nodes().len())),
            r is Ok ==> nodes_view(final(self).nodes()) == path_applied(
                nodes_view(old(self).nodes()),
                2 * leaf_index,
                path@,
                path@.len(),
            ),
            r is Ok ==> final(self).modified() == old(self).modified() + path_nodes(2 * leaf_index, path@.len()),
            r is Err ==> *final(self) == *old(self),
    {
        if path.len() != self.depth {
            return Err(TreeSyncDiffError::PathLengthError);
        }
        if leaf_index >= self.nodes.len() / 2 + 1 {
            return Err(TreeSyncDiffError::LibraryError);
        }
        let mut j: usize = 0;
        while j < path.len()
            invariant
                *self == *old(self),
                self.wf(),
                path@.len() == self.depth,
                j <= path@.len(),
                forall|i: int|
                    0 <= i < j ==> (#[trigger] path@[i]).public_key@.len() < 0x1_0000 && path@[i].parent_hash@.len() < 256,
            decreases path@.len() - j,
        {
            if path[j].public_key.len() >= 0x1_0000 || path[j].parent_hash.len() >= 256 {
                return Err(TreeSyncDiffError::LibraryError);
            }
            j = j + 1;
        }
        let x = 2 * leaf_index;
        proof {
            lemma_pow2_le(self.depth as nat, MAX_DEPTH as nat);
            lemma_pow2_max();
        }
        // Find the direct path first, so that a path that leaves the tree
        // changes nothing.
        let mut ancestors: Vec<usize> = Vec::new();
        let mut cur: usize = x;
        let mut k: usize = 0;
        while k < self.depth
            invariant
                *self == *old(self),
                path@.len() == self.depth,
                path_fits(path@),
                x == 2 * leaf_index,
                x < self.nodes@.len(),
                self.wf(),
                self.nodes@.len() <= 131071,
                k <= self.depth,
                cur < self.nodes@.len(),
                forall|i: int| 0 <= i < k ==> #[trigger] ancestors@[i] < self.nodes@.len(),
                cur == ancestor(x as int, k as nat),
                ancestors@.len() == k,
                forall|i: int| 0 <= i < k ==> #[trigger] ancestors@[i] == ancestor(x as int, (i + 1) as nat),
                forall|i: nat|
                    i < k ==> 0 <= #[trigger] parent_of(ancestor(x as int, i), i) < self.nodes@.len() && sibling_of(
                        ancestor(x as int, i),
                        i,
                    ) >= 0,
            decreases self.depth - k,
        {
            let parent = match relatives(cur, k) {
                Some(ps) => ps.0,
                None => {
                    assert(!(0 <= parent_of(ancestor(x as int, k as nat), k as nat) < self.nodes@.len()
                        && sibling_of(ancestor(x as int, k as nat), k as nat) >= 0));
                    return Err(TreeSyncDiffError::LibraryError);
                },
            };
            if parent >= self.nodes.len() {
                assert(!(0 <= parent_of(ancestor(x as int, k as nat), k as nat) < self.nodes@.len()));
                return Err(TreeSyncDiffError::LibraryError);
            }
            ancestors.push(parent);
            cur = parent;
            k = k + 1;
        }
        assert(path_in_tree(x as int, self.depth as nat, self.nodes@.len()));
        let ghost start = nodes_view(self.nodes@);
        let ghost start_modified = self.modified@;
        let mut path = path;
        let mut k: usize = 0;
        while k < self.depth
            invariant
                self.wf(),
                self.depth == old(self).depth,
                path@.len() == self.depth,
                path_fits(path@),
                k <= self.depth,
                ancestors@.len() == self.depth,
                forall|i: int| 0 <= i < self.depth ==> #[trigger] ancestors@[i] == ancestor(x as int, (i + 1) as nat),
                forall|i: int| 0 <= i < self.depth ==> #[trigger] ancestors@[i] < self.nodes@.len(),
                nodes_view(self.nodes@) == path_applied(start, x as int, path@, k as nat),
                self.modified@ == start_modified + path_nodes(x as int, k as nat),
            decreases self.depth - k,
        {
            let public_key = crate::codec::copy_bytes(path[k].public_key.as_slice());
            let parent_hash = crate::codec::copy_bytes(path[k].parent_hash.as_slice());
            let idx = ancestors[k];
            let ghost before = self.nodes@;
            self.nodes.set(idx, Node::Parent { public_key, parent_hash });
            assert(nodes_view(self.nodes@) =~= nodes_view(before).update(
                idx as int,
                NodeView::Parent(path@[k as int].public_key@, path@[k as int].parent_hash@),
            ));
            assert(forall|i: int| 0 <= i < self.nodes@.len() ==> node_fits(#[trigger] self.nodes@[i])) by {
                assert forall|i: int| 0 <= i < self.nodes@.len() implies node_fits(#[trigger] self.nodes@[i]) by {
                    if i != idx {
                        assert(self.nodes@[i] == before[i]);
                    } else {
                        assert(path_fits(path@));
                        assert(path@[k as int].public_key@.len() < 0x1_0000);
                    }
                }
            }
            self.modified.push((idx, k + 1));
            assert(self.modified@ =~= start_modified + path_nodes(x as int, (k + 1) as nat));
            k = k + 1;
        }
        Ok(())
    }
}

/// Resolutions read public keys only: trees that agree on every node's key
/// agree on every resolution.
pub proof fn lemma_resolution_keys(a: Seq<Node>, b: Seq<Node>, x: int, l: nat)
    requires
        a.len() == b.len(),
        forall|i: int| 0 <= i < a.len() ==> key_of(#[trigger] a[i]) == key_of(b[i]),
    ensures
        resolution(a, x, l) == resolution(b, x, l),
    decreases l,
{
    if 0 <= x < a.len() {
        assert(key_of(a[x]) == key_of(b[x]));
        if l > 0 {
            lemma_resolution_keys(a, b, x - pow2((l - 1) as nat), (l - 1) as nat);
            lemma_resolution_keys(a, b, x + pow2((l - 1) as nat), (l - 1) as nat);
        }
    }
}

/// No duplicate members: a diff in which two distinct leaves hold the same
/// public key, wherever they stand and however large the tree, is rejected
/// with `DuplicateKeyPackage`.
pub proof fn lemma_duplicate_leaf_rejected(
    nodes: Seq<Node>,
    modified: Seq<(usize, usize)>,
    depth: nat,
    i: int,
    j: int,
)
    requires
        0 <= i < nodes.len(),
        0 <= j < nodes.len(),
        i != j,
        i % 2 == 0,
        j % 2 == 0,
        nodes_view(nodes)[i] is Leaf,
        nodes_view(nodes)[i] == nodes_view(nodes)[j],
    ensures
        diff_verdict(nodes, modified, depth) == Err::<(), TreeSyncDiffError>(TreeSyncDiffError::DuplicateKeyPackage),
{
    assert(nodes_view(nodes)[i] == node_view(nodes[i]));
    assert(nodes_view(nodes)[j] == node_view(nodes[j]));
    if i < j {
        assert(nodes[i] is Leaf && nodes[j] is Leaf && key_of(nodes[i]) == key_of(nodes[j]));
    } else {
        assert(nodes[j] is Leaf && nodes[i] is Leaf && key_of(nodes[j]) == key_of(nodes[i]));
    }
}

/// Parent-hash chain: changing the stored parent hash of a node whose hash
/// was valid, and nothing else, makes that node's hash invalid.
pub proof fn lemma_corrupted_parent_hash_invalid(
    nodes: Seq<Node>,
    corrupted: Seq<Node>,
    x: int,
    l: nat,
    depth: nat,
)
    requires
        parent_hash_valid(nodes, x, l, depth),
        corrupted.len() == nodes.len(),
        forall|i: int| 0 <= i < nodes.len() && i != x ==> node_view(#[trigger] corrupted[i]) == node_view(nodes[i]),
        corrupted[x] is Parent,
        key_of(corrupted[x]) == key_of(nodes[x]),
        stored_hash_of(corrupted[x]) != stored_hash_of(nodes[x]),
    ensures
        !parent_hash_valid(corrupted, x, l, depth),
{
    assert forall|i: int| 0 <= i < nodes.len() implies key_of(#[trigger] corrupted[i]) == key_of(nodes[i]) by {
        if i != x {
            assert(node_view(corrupted[i]) == node_view(nodes[i]));
        }
    }
    if l < depth {
        lemma_pow2_le(0, l);
        let p = parent_of(x, l);
        assert(p != x);
        assert(node_view(corrupted[p]) == node_view(nodes[p]));
        assert(stored_hash_of(corrupted[p]) == stored_hash_of(nodes[p]));
        lemma_resolution_keys(corrupted, nodes, sibling_of(x, l), l);
        assert(expected_parent_hash(corrupted, x, l, depth) == expected_parent_hash(nodes, x, l, depth));
    }
}

/// Parent-hash chain: a diff in which a node that a path was set on holds a
/// parent hash other than a valid one fails validation, with
/// `InvalidParentHash` unless two leaves share a key.
pub proof fn lemma_corrupted_diff_rejected(
    nodes: Seq<Node>,
    corrupted: Seq<Node>,
    modified: Seq<(usize, usize)>,
    m: int,
    depth: nat,
)
    requires
        0 <= m < modified.len(),
        parent_hash_valid(nodes, modified[m].0 as int, modified[m].1 as nat, depth),
        corrupted.len() == nodes.len(),
        forall|i: int|
            0 <= i < nodes.len() && i != modified[m].0 as int ==> node_view(#[trigger] corrupted[i]) == node_view(nodes[i]),
        corrupted[modified[m].0 as int] is Parent,
        key_of(corrupted[modified[m].0 as int]) == key_of(nodes[modified[m].0 as int]),
        stored_hash_of(corrupted[modified[m].0 as int]) != stored_hash_of(nodes[modified[m].0 as int]),
    ensures
        diff_verdict(corrupted, modified, depth) is Err,
        !has_duplicate_leaves(corrupted) ==> diff_verdict(corrupted, modified, depth) == Err::<(), TreeSyncDiffError>(
            TreeSyncDiffError::InvalidParentHash,
        ),
{
    lemma_corrupted_parent_hash_invalid(nodes, corrupted, modified[m].0 as int, modified[m].1 as nat, depth);
    assert(!modified_valid(corrupted, modified, depth));
}

impl TreeSyncDiff {
    /// The encoded public keys of the resolution of node `node_index`, of
    /// level `level`, in tree order.
    pub fn resolution_of(&self, node_index: usize, level: usize) -> (r: Vec<u8>)
        requires
            self.wf(),
        ensures
            level <= MAX_DEPTH && node_index <= 262144 ==> r@ == resolution(self.nodes(), node_index as int, level as nat),
    {
        if level > MAX_DEPTH || node_index > 262144 {
            return Vec::new();
        }
        proof {
            lemma_pow2_le(self.depth as nat, MAX_DEPTH as nat);
            lemma_pow2_max();
        }
        let mut out: Vec<u8> = Vec::new();
        append_resolution(&self.nodes, node_index, level, &mut out);
        assert(out@ =~= resolution(self.nodes@, node_index as int, level as nat));
        out
    }

    /// The parent hash that node `node_index`, of level `level`, must hold;
    /// `None` where the node, its parent or its sibling is not in the tree.
    pub fn parent_hash(&self, node_index: usize, level: usize) -> (r: Option<Vec<u8>>)
        requires
            self.wf(),
        ensures
            r is Some <==> (node_index < self.nodes().len() && level <= self.depth() && (level < self.depth() ==> (0
                <= parent_of(node_index as int, level as nat) < self.nodes().len() && sibling_of(
                node_index as int,
                level as nat,
            ) >= 0))),
            r is Some ==> r->Some_0@ == expected_parent_hash(self.nodes(), node_index as int, level as nat, self.depth()),
    {
        if node_index >= self.nodes.len() || level > self.depth {
            return None;
        }
        proof {
            lemma_pow2_le(self.depth as nat, MAX_DEPTH as nat);
            lemma_pow2_max();
        }
        if level < self.depth {
            match relatives(node_index, level) {
                Some(ps) => if ps.0 >= self.nodes.len() {
                    return None;
                },
                None => return None,
            }
        }
        Some(compute_parent_hash(&self.nodes, node_index, level, self.depth))
    }
}

/// The resolution of node `x` of level `l` with the leaves whose indices are
/// in `excluded` left out: the encoded public keys, in tree order.
pub open spec fn filtered_resolution(nodes: Seq<Node>, x: int, l: nat, excluded: Seq<usize>) -> Seq<u8>
    decreases l,
{
    if x < 0 || x >= nodes.len() {
        Seq::empty()
    } else {
        match key_of(nodes[x]) {
            Some(k) => if x % 2 == 0 && excluded.contains((x / 2) as usize) {
                Seq::empty()
            } else {
                opaque_u16(k)
            },
            None => if l == 0 {
                Seq::empty()
            } else {
                filtered_resolution(nodes, x - pow2((l - 1) as nat), (l - 1) as nat, excluded)
                    + filtered_resolution(nodes, x + pow2((l - 1) as nat), (l - 1) as nat, excluded)
            },
        }
    }
}

fn contains_index(v: &Vec<usize>, n: usize) -> (r: bool)
    ensures
        r == v@.contains(n),
{
    let mut i: usize = 0;
    while i < v.len()
        invariant
            i <= v@.len(),
            forall|j: int| 0 <= j < i ==> v@[j] != n,
        decreases v@.len() - i,
    {
        if v[i] == n {
            assert(v@[i as int] == n);
            return true;
        }
        i = i + 1;
    }
    false
}

fn append_filtered_resolution(nodes: &Vec<Node>, x: usize, l: usize, excluded: &Vec<usize>, out: &mut Vec<u8>)
    requires
        nodes@.len() <= 131071,
        forall|i: int| 0 <= i < nodes@.len() ==> node_fits(#[trigger] nodes@[i]),
        x <= 262144,
        l <= MAX_DEPTH,
    ensures
        final(out)@ == old(out)@ + filtered_resolution(nodes@, x as int, l as nat, excluded@),
    decreases l,
{
    if x >= nodes.len() {
        assert(old(out)@ + Seq::<u8>::empty() == old(out)@);
        return;
    }
    match node_key(&nodes[x]) {
        Some(k) => {
            if x % 2 == 0 && contains_index(excluded, x / 2) {
                assert(old(out)@ + Seq::<u8>::empty() == old(out)@);
                return;
            }
            assert(node_fits(nodes@[x as int]));
            append_opaque_u16(out, k.as_slice());
        },
        None => {
            if l == 0 {
                assert(old(out)@ + Seq::<u8>::empty() == old(out)@);
                return;
            }
            let half = pow2_exec(l - 1);
            proof {
                lemma_pow2_le((l - 1) as nat, MAX_DEPTH as nat);
                lemma_pow2_max();
            }
            let ghost before = out@;
            if x >= half {
                append_filtered_resolution(nodes, x - half, l - 1, excluded, out);
            } else {
                assert(out@ == before + Seq::<u8>::empty());
            }
            append_filtered_resolution(nodes, x + half, l - 1, excluded, out);
            assert(out@ == before + filtered_resolution(nodes@, x - half, (l - 1) as nat, excluded@)
                + filtered_resolution(nodes@, x + half, (l - 1) as nat, excluded@));
        },
    }
}

impl TreeSyncDiff {
    /// The encoded public keys of the resolution of node `node_index`, of
    /// level `level`, without the leaves in `excluded`, in tree order: the
    /// members that receive a path secret for that node.
    pub fn filtered_resolution(&self, node_index: usize, level: usize, excluded: &Vec<usize>) -> (r: Vec<u8>)
        requires
            self.wf(),
        ensures
            level <= MAX_DEPTH && node_index <= 262144 ==> r@ == filtered_resolution(
                self.nodes(),
                node_index as int,
                level as nat,
                excluded@,
            ),
    {
        if level > MAX_DEPTH || node_index > 262144 {
            return Vec::new();
        }
        proof {
            lemma_pow2_le(self.depth as nat, MAX_DEPTH as nat);
            lemma_pow2_max();
        }
        let mut out: Vec<u8> = Vec::new();
        append_filtered_resolution(&self.nodes, node_index, level, excluded, &mut out);
        assert(out@ =~= filtered_resolution(self.nodes@, node_index as int, level as nat, excluded@));
        out
    }
}

/// No duplicate members, for a merged leaf: after a leaf is set to the key
/// that another leaf of the diff already holds, validation fails with
/// `DuplicateKeyPackage`, whatever the positions and the size of the tree.
pub proof fn lemma_merged_duplicate_rejected(
    before: Seq<NodeView>,
    after: Seq<Node>,
    modified: Seq<(usize, usize)>,
    depth: nat,
    added: int,
    existing: int,
    key: Seq<u8>,
)
    requires
        0 <= 2 * added < before.len(),
        0 <= 2 * existing < before.len(),
        added != existing,
        before[2 * existing] == NodeView::Leaf(key),
        nodes_view(after) == before.update(2 * added, NodeView::Leaf(key)),
    ensures
        diff_verdict(after, modified, depth) == Err::<(), TreeSyncDiffError>(TreeSyncDiffError::DuplicateKeyPackage),
{
    assert(nodes_view(after).len() == after.len());
    assert(nodes_view(after)[2 * existing] == before[2 * existing]);
    lemma_duplicate_leaf_rejected(after, modified, depth, 2 * added, 2 * existing);
}

/// The encoding of one node: a kind byte, then its key and parent hash.
pub open spec fn node_bytes(n: Node) -> Seq<u8> {
    match n {
        Node::Blank => seq![0u8],
        Node::Leaf { public_key } => seq![1u8] + opaque_u16(public_key@),
        Node::Parent { public_key, parent_hash } => seq![2u8] + opaque_u16(public_key@) + opaque_u8(parent_hash@),
    }
}

/// The encodings of the first `k` nodes, in index order.
pub open spec fn nodes_bytes(nodes: Seq<Node>, k: nat) -> Seq<u8>
    decreases k,
{
    if k == 0 || k > nodes.len() {
        Seq::empty()
    } else {
        nodes_bytes(nodes, (k - 1) as nat) + node_bytes(nodes[k - 1])
    }
}

/// The hash of a whole tree: SHA-256 over the encodings of all its nodes.
pub open spec fn tree_hash_of(nodes: Seq<Node>) -> Seq<u8> {
    sha256_of(nodes_bytes(nodes, nodes.len()))
}

impl TreeSync {
    /// Every node of a well-formed tree fits its encoding.
    pub proof fn lemma_nodes_fit(&self)
        requires
            self.wf(),
        ensures
            forall|i: int| 0 <= i < self.nodes().len() ==> node_fits(#[trigger] self.nodes()[i]),
    {
    }

    /// The tree hash, which binds the whole tree into the key schedule.
    pub fn tree_hash(&self) -> (r: Vec<u8>)
        requires
            self.wf(),
        ensures
            r@ == tree_hash_of(self.nodes()),
    {
        let mut out: Vec<u8> = Vec::new();
        let mut i: usize = 0;
        while i < self.nodes.len()
            invariant
                self.wf(),
                i <= self.nodes@.len(),
                out@ == nodes_bytes(self.nodes@, i as nat),
            decreases self.nodes@.len() - i,
        {
            assert(node_fits(self.nodes@[i as int]));
            match &self.nodes[i] {
                Node::Blank => out.push(0u8),
                Node::Leaf { public_key } => {
                    out.push(1u8);
                    append_opaque_u16(&mut out, public_key.as_slice());
                },
                Node::Parent { public_key, parent_hash } => {
                    out.push(2u8);
                    append_opaque_u16(&mut out, public_key.as_slice());
                    append_opaque_u8(&mut out, parent_hash.as_slice());
                },
            }
            i = i + 1;
            assert(out@ =~= nodes_bytes(self.nodes@, i as nat));
        }
        match sha256(out.as_slice()) {
            Ok(h) => h,
            Err(_) => Vec::new(),
        }
    }
}

impl TreeSyncDiff {
    /// Every node of a well-formed diff fits its encoding.
    pub proof fn lemma_nodes_fit(&self)
        requires
            self.wf(),
        ensures
            forall|i: int| 0 <= i < self.nodes().len() ==> node_fits(#[trigger] self.nodes()[i]),
    {
    }
}

} // verus!
