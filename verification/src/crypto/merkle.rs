//! A binary hash tree over 32-byte leaves, and proofs that a leaf belongs to
//! the tree with a given root.
//!
//! A level with an odd number of nodes pairs its last node with itself. The
//! tree over no leaves has the all-zero root.

use crate::crypto::hashing::HashFunction;
use vstd::array::spec_array_fill_for_copy_type;
use vstd::prelude::*;

verus! {

/// One step of an inclusion proof: the hash that the running hash is combined
/// with, and the side on which it stands.
#[derive(Clone, Copy, Debug)]
pub struct ProofStep {
    pub sibling: [u8; 32],
    pub sibling_on_left: bool,
}

/// An inclusion proof: the steps from a leaf up to the root.
#[derive(Clone, Debug)]
pub struct MerkleProof {
    pub steps: Vec<ProofStep>,
}

/// A hash tree, held level by level from the leaves up.
#[derive(Debug)]
pub struct MerkleTree {
    levels: Vec<Vec<[u8; 32]>>,
}

/// The root of the tree over no leaves: 32 zero bytes.
pub open spec fn empty_root() -> [u8; 32] {
    spec_array_fill_for_copy_type::<u8, 32>(0u8)
}

/// The hash of an inner node: the digest of its children's hashes, left
/// before right.
pub open spec fn node_hash<H: HashFunction>(left: [u8; 32], right: [u8; 32]) -> [u8; 32] {
    H::digest_of(left@ + right@)
}

/// The position, in a level of `len` nodes, of the node that node `i` is
/// hashed with. The last node of an odd level is hashed with itself.
pub open spec fn sibling_index(len: int, i: int) -> int {
    if i % 2 == 1 {
        i - 1
    } else if i + 1 < len {
        i + 1
    } else {
        i
    }
}

/// The level above `level`: node `j` is the hash of nodes `2j` and `2j + 1`.
pub open spec fn parent_level<H: HashFunction>(level: Seq<[u8; 32]>) -> Seq<[u8; 32]> {
    Seq::new(
        ((level.len() + 1) / 2) as nat,
        |j: int| node_hash::<H>(level[2 * j], level[sibling_index(level.len() as int, 2 * j)]),
    )
}

/// The root of the tree over `leaves`, in their order.
pub open spec fn merkle_root<H: HashFunction>(leaves: Seq<[u8; 32]>) -> [u8; 32]
    decreases leaves.len(),
{
    if leaves.len() == 0 {
        empty_root()
    } else if leaves.len() == 1 {
        leaves[0]
    } else {
        merkle_root::<H>(parent_level::<H>(leaves))
    }
}

/// All levels of the tree over `leaves`, from the leaves up to the root.
pub open spec fn levels_of<H: HashFunction>(leaves: Seq<[u8; 32]>) -> Seq<Seq<[u8; 32]>>
    decreases leaves.len(),
{
    if leaves.len() <= 1 {
        seq![leaves]
    } else {
        seq![leaves] + levels_of::<H>(parent_level::<H>(leaves))
    }
}

/// The proof step that takes node `i` of `level` one level up.
pub open spec fn step_at(level: Seq<[u8; 32]>, i: int) -> ProofStep {
    ProofStep { sibling: level[sibling_index(level.len() as int, i)], sibling_on_left: i % 2 == 1 }
}

/// The steps from node `i` of the lowest of `levels` to the top, read off the
/// levels.
pub open spec fn path_in(levels: Seq<Seq<[u8; 32]>>, i: int) -> Seq<ProofStep>
    decreases levels.len(),
{
    if levels.len() <= 1 {
        Seq::empty()
    } else {
        seq![step_at(levels[0], i)] + path_in(levels.drop_first(), i / 2)
    }
}

/// The proof that leaf `i` belongs to the tree over `leaves`.
pub open spec fn inclusion_path<H: HashFunction>(leaves: Seq<[u8; 32]>, i: int) -> Seq<ProofStep> {
    path_in(levels_of::<H>(leaves), i)
}

/// The running hash after one step of a proof.
pub open spec fn apply_step<H: HashFunction>(acc: [u8; 32], step: ProofStep) -> [u8; 32] {
    if step.sibling_on_left {
        node_hash::<H>(step.sibling, acc)
    } else {
        node_hash::<H>(acc, step.sibling)
    }
}

/// The hash that a proof leads to, starting from `acc`.
pub open spec fn fold_proof<H: HashFunction>(acc: [u8; 32], steps: Seq<ProofStep>) -> [u8; 32]
    decreases steps.len(),
{
    if steps.len() == 0 {
        acc
    } else {
        fold_proof::<H>(apply_step::<H>(acc, steps[0]), steps.drop_first())
    }
}

/// Whether `i` is the first position of `x` in `s`.
pub open spec fn is_first_occurrence(s: Seq<[u8; 32]>, x: [u8; 32], i: int) -> bool {
    &&& 0 <= i < s.len()
    &&& s[i] == x
    &&& forall|j: int| 0 <= j < i ==> s[j] != x
}

/// Whether `levels` has the shape of a tree: each level but the last has at
/// least two nodes and half as many above it, rounded up, and the last has at
/// most one.
pub open spec fn well_shaped(levels: Seq<Seq<[u8; 32]>>) -> bool {
    &&& levels.len() >= 1
    &&& levels.last().len() <= 1
    &&& forall|k: int|
        0 <= k < levels.len() - 1 ==> (#[trigger] levels[k]).len() >= 2 && levels[k + 1].len() == (
        levels[k].len() + 1) / 2
}

/// The levels of a tree have the shape of a tree, start with the leaves and
/// end with the root.
pub proof fn lemma_levels_of<H: HashFunction>(leaves: Seq<[u8; 32]>)
    ensures
        well_shaped(levels_of::<H>(leaves)),
        levels_of::<H>(leaves)[0] == leaves,
        leaves.len() == 0 ==> levels_of::<H>(leaves).last().len() == 0,
        leaves.len() > 0 ==> levels_of::<H>(leaves).last() == seq![merkle_root::<H>(leaves)],
    decreases leaves.len(),
{
    if leaves.len() == 1 {
        assert(leaves == seq![merkle_root::<H>(leaves)]);
    } else if leaves.len() > 1 {
        let rest = levels_of::<H>(parent_level::<H>(leaves));
        lemma_levels_of::<H>(parent_level::<H>(leaves));
        let all = levels_of::<H>(leaves);
        assert forall|k: int| 0 <= k < all.len() - 1 implies (#[trigger] all[k]).len() >= 2
            && all[k + 1].len() == (all[k].len() + 1) / 2 by {
            if k > 0 {
                assert(all[k] == rest[k - 1]);
            }
        }
    }
}

/// Round trip: the proof for leaf `i` leads from that leaf to the root.
pub proof fn lemma_inclusion_path_reaches_root<H: HashFunction>(leaves: Seq<[u8; 32]>, i: int)
    requires
        0 <= i < leaves.len(),
    ensures
        fold_proof::<H>(leaves[i], inclusion_path::<H>(leaves, i)) == merkle_root::<H>(leaves),
    decreases leaves.len(),
{
    if leaves.len() > 1 {
        let above = parent_level::<H>(leaves);
        let all = levels_of::<H>(leaves);
        assert(all == seq![leaves] + levels_of::<H>(above));
        assert(all.drop_first() == levels_of::<H>(above));
        assert(inclusion_path::<H>(leaves, i).drop_first() == inclusion_path::<H>(above, i / 2));
        assert(apply_step::<H>(leaves[i], step_at(leaves, i)) == above[i / 2]);
        lemma_inclusion_path_reaches_root::<H>(above, i / 2);
    }
}

/// Two engine types that compute the same digests lead a proof to the same
/// hash.
pub proof fn lemma_same_digests_same_fold<H1: HashFunction, H2: HashFunction>(
    acc: [u8; 32],
    steps: Seq<ProofStep>,
)
    requires
        forall|data: Seq<u8>| #[trigger] H1::digest_of(data) == H2::digest_of(data),
    ensures
        fold_proof::<H1>(acc, steps) == fold_proof::<H2>(acc, steps),
    decreases steps.len(),
{
    if steps.len() > 0 {
        lemma_same_digests_same_fold::<H1, H2>(apply_step::<H1>(acc, steps[0]), steps.drop_first());
    }
}

/// A sequence that contains `x` has a first position of `x`.
pub proof fn lemma_first_occurrence_exists(s: Seq<[u8; 32]>, x: [u8; 32]) -> (i: int)
    requires
        s.contains(x),
    ensures
        is_first_occurrence(s, x, i),
    decreases s.len(),
{
    let at = choose|j: int| 0 <= j < s.len() && s[j] == x;
    let before = s.take(at);
    if before.contains(x) {
        let i = lemma_first_occurrence_exists(before, x);
        assert forall|j: int| 0 <= j < i implies s[j] != x by {
            assert(before[j] == s[j]);
        }
        i
    } else {
        assert forall|j: int| 0 <= j < at implies s[j] != x by {
            if s[j] == x {
                assert(before[j] == x);
            }
        }
        at
    }
}

/// Order sensitivity: two different sequences of as many leaves have
/// different roots, unless the engine type gives one digest for two different
/// inputs. The result is such a pair of inputs.
pub proof fn lemma_equal_roots_collide<H: HashFunction>(a: Seq<[u8; 32]>, b: Seq<[u8; 32]>) -> (pair:
    (Seq<u8>, Seq<u8>))
    requires
        a.len() == b.len(),
        a != b,
        merkle_root::<H>(a) == merkle_root::<H>(b),
    ensures
        pair.0 != pair.1,
        H::digest_of(pair.0) == H::digest_of(pair.1),
    decreases a.len(),
{
    if forall|j: int| 0 <= j < a.len() ==> a[j] == b[j] {
        assert(a =~= b);
    }
    // The sequences differ at `j`. With one leaf each the roots would be
    // those leaves, so there are at least two.
    let j = choose|j: int| 0 <= j < a.len() && a[j] != b[j];
    let above_a = parent_level::<H>(a);
    let above_b = parent_level::<H>(b);
    if a.len() > 1 && above_a != above_b {
        lemma_equal_roots_collide::<H>(above_a, above_b)
    } else {
        // The levels above are the same, so the node above position `j` is
        // the digest of two different inputs.
        let k = j / 2;
        let beside = sibling_index(a.len() as int, 2 * k);
        let in_a = a[2 * k]@ + a[beside]@;
        let in_b = b[2 * k]@ + b[beside]@;
        assert(above_a[k] == H::digest_of(in_a));
        assert(above_b[k] == H::digest_of(in_b));
        if a[j]@ == b[j]@ {
            assert(a[j] =~= b[j]);
        }
        if in_a == in_b {
            assert(in_a.subrange(0, 32) =~= a[2 * k]@);
            assert(in_b.subrange(0, 32) =~= b[2 * k]@);
            assert(in_a.subrange(32, 64) =~= a[beside]@);
            assert(in_b.subrange(32, 64) =~= b[beside]@);
        }
        (in_a, in_b)
    }
}

impl MerkleTree {
    /// The levels of the tree, from the leaves up.
    pub closed spec fn levels(&self) -> Seq<Seq<[u8; 32]>> {
        Seq::new(self.levels.len() as nat, |k: int| self.levels[k]@)
    }

    #[verifier::type_invariant]
    spec fn shaped(&self) -> bool {
        well_shaped(self.levels())
    }

    /// The leaves, in their order.
    pub open spec fn leaves(&self) -> Seq<[u8; 32]> {
        self.levels()[0]
    }

    /// The root hash.
    pub open spec fn root(&self) -> [u8; 32] {
        if self.levels().last().len() == 0 {
            empty_root()
        } else {
            self.levels().last()[0]
        }
    }

    /// The steps stored along the way from leaf `i` to the root.
    pub open spec fn path(&self, i: int) -> Seq<ProofStep> {
        path_in(self.levels(), i)
    }

    /// Whether every inner node holds the hash that engines of type `H`
    /// compute for its children.
    pub open spec fn built_by<H: HashFunction>(&self) -> bool {
        self.levels() == levels_of::<H>(self.leaves())
    }

    /// The number of leaves.
    pub fn leaf_count(&self) -> (n: usize)
        ensures
            n == self.leaves().len(),
    {
        proof {
            use_type_invariant(self);
        }
        self.levels[0].len()
    }

    /// The root hash: that of the top node, or 32 zero bytes for the tree over
    /// no leaves.
    pub fn root_hash(&self) -> (out: [u8; 32])
        ensures
            out == self.root(),
    {
        proof {
            use_type_invariant(self);
        }
        let top = &self.levels[self.levels.len() - 1];
        if top.len() == 0 {
            [0u8; 32]
        } else {
            top[0]
        }
    }
}

/// In a tree built with engines of type `H`, the stored path of every leaf
/// leads from that leaf to the root, and the root is that of the leaves.
pub proof fn lemma_built_tree<H: HashFunction>(tree: MerkleTree, i: int)
    requires
        tree.built_by::<H>(),
        0 <= i < tree.leaves().len(),
    ensures
        tree.path(i) == inclusion_path::<H>(tree.leaves(), i),
        tree.root() == merkle_root::<H>(tree.leaves()),
        fold_proof::<H>(tree.leaves()[i], tree.path(i)) == tree.root(),
{
    lemma_levels_of::<H>(tree.leaves());
    lemma_inclusion_path_reaches_root::<H>(tree.leaves(), i);
}

/// A copy of a vector of hashes.
fn copy_hashes(hashes: &Vec<[u8; 32]>) -> (out: Vec<[u8; 32]>)
    ensures
        out@ == hashes@,
{
    let mut out: Vec<[u8; 32]> = Vec::new();
    let mut i: usize = 0;
    while i < hashes.len()
        invariant
            i <= hashes.len(),
            out@ == hashes@.subrange(0, i as int),
        decreases hashes.len() - i,
    {
        out.push(hashes[i]);
        i += 1;
    }
    assert(hashes@.subrange(0, i as int) =~= hashes@);
    out
}

/// The levels held in a vector of vectors.
pub open spec fn levels_view(levels: Seq<Vec<[u8; 32]>>) -> Seq<Seq<[u8; 32]>> {
    Seq::new(levels.len(), |k: int| levels[k]@)
}

impl Clone for MerkleTree {
    fn clone(&self) -> (out: Self)
        ensures
            out.levels() == self.levels(),
    {
        proof {
            use_type_invariant(self);
        }
        let mut levels: Vec<Vec<[u8; 32]>> = Vec::new();
        let mut k: usize = 0;
        while k < self.levels.len()
            invariant
                k <= self.levels.len(),
                levels.len() == k,
                forall|j: int| 0 <= j < k ==> levels[j]@ == self.levels[j]@,
            decreases self.levels.len() - k,
        {
            levels.push(copy_hashes(&self.levels[k]));
            k += 1;
        }
        assert(levels_view(levels@) =~= self.levels());
        MerkleTree { levels }
    }
}

/// Whether two digests hold the same bytes.
pub fn same_digest(a: &[u8; 32], b: &[u8; 32]) -> (same: bool)
    ensures
        same == (*a == *b),
{
    let mut i: usize = 0;
    while i < 32
        invariant
            i <= 32,
            forall|j: int| 0 <= j < i ==> a@[j] == b@[j],
        decreases 32 - i,
    {
        if a[i] != b[i] {
            return false;
        }
        i += 1;
    }
    assert(*a =~= *b);
    true
}

/// The digest of two hashes, left before right, from an engine with nothing
/// pending.
fn hash_pair<H: HashFunction>(left: &[u8; 32], right: &[u8; 32], hasher: &mut H) -> (out: [u8; 32])
    requires
        old(hasher).pending() == Seq::<u8>::empty(),
    ensures
        out == node_hash::<H>(*left, *right),
        final(hasher).pending() == Seq::<u8>::empty(),
        !final(hasher).primed(),
{
    hasher.update(left.as_slice());
    hasher.update(right.as_slice());
    assert(hasher.pending() =~= left@ + right@);
    hasher.digest().unwrap()
}

/// The level above `level`.
fn hash_level<H: HashFunction>(level: &Vec<[u8; 32]>, hasher: &mut H) -> (above: Vec<[u8; 32]>)
    requires
        old(hasher).pending() == Seq::<u8>::empty(),
        !old(hasher).primed(),
    ensures
        above@ == parent_level::<H>(level@),
        final(hasher).pending() == Seq::<u8>::empty(),
        !final(hasher).primed(),
{
    let n: usize = level.len();
    let mut above: Vec<[u8; 32]> = Vec::new();
    let mut i: usize = 0;
    while i < n
        invariant
            n == level.len(),
            i <= n,
            i % 2 == 0 || i == n,
            above.len() == (i + 1) / 2,
            forall|j: int| 0 <= j < above.len() ==> above[j] == parent_level::<H>(level@)[j],
            hasher.pending() == Seq::<u8>::empty(),
            !hasher.primed(),
        decreases n - i,
    {
        let left = level[i];
        let last_alone: bool = n - i < 2;
        let right = if last_alone {
            level[i]
        } else {
            level[i + 1]
        };
        let node = hash_pair(&left, &right, hasher);
        assert(node == parent_level::<H>(level@)[above.len() as int]);
        above.push(node);
        if last_alone {
            i = n;
        } else {
            i = i + 2;
        }
    }
    assert(above@ =~= parent_level::<H>(level@));
    above
}

/// Builds the tree over `leaves`, in their order, hashing with `hasher`.
/// The engine is finalized first, so that bytes left pending in it do not
/// enter the tree; it is empty afterwards.
pub fn generate_tree<H: HashFunction>(leaves: Vec<[u8; 32]>, hasher: &mut H) -> (tree: MerkleTree)
    ensures
        tree.leaves() == leaves@,
        tree.built_by::<H>(),
        tree.root() == merkle_root::<H>(leaves@),
        final(hasher).pending() == Seq::<u8>::empty(),
        !final(hasher).primed(),
{
    let _ = hasher.digest();
    let ghost base = leaves@;
    let mut levels: Vec<Vec<[u8; 32]>> = Vec::new();
    levels.push(leaves);
    assert(levels_view(levels@) =~= seq![base]);
    assert(levels_view(levels@).drop_last() + levels_of::<H>(base) =~= levels_of::<H>(base));
    while levels[levels.len() - 1].len() > 1
        invariant
            levels.len() >= 1,
            levels_of::<H>(base) == levels_view(levels@).drop_last() + levels_of::<H>(
                levels_view(levels@).last(),
            ),
            hasher.pending() == Seq::<u8>::empty(),
            !hasher.primed(),
        decreases levels@.last().len(),
    {
        let ghost before = levels_view(levels@);
        let above = hash_level(&levels[levels.len() - 1], hasher);
        levels.push(above);
        proof {
            let after = levels_view(levels@);
            assert(after.drop_last() =~= before);
            assert(after.last() == parent_level::<H>(before.last()));
            assert(before =~= before.drop_last() + seq![before.last()]);
            assert(levels_of::<H>(before.last()) == seq![before.last()] + levels_of::<H>(
                after.last(),
            ));
        }
    }
    proof {
        let all = levels_view(levels@);
        assert(levels_of::<H>(all.last()) == seq![all.last()]);
        assert(all =~= all.drop_last() + seq![all.last()]);
        lemma_levels_of::<H>(base);
    }
    let tree = MerkleTree { levels };
    assert(tree.levels() =~= levels_of::<H>(base));
    tree
}

/// One level up along a stored path: the path from node `at` of level `k` is
/// the step at that level, then the path from node `at / 2` of level `k + 1`.
proof fn lemma_path_one_level_up(levels: Seq<Seq<[u8; 32]>>, k: int, at: int)
    requires
        well_shaped(levels),
        0 <= k < levels.len() - 1,
        0 <= at < levels[k].len(),
    ensures
        path_in(levels.skip(k), at) == seq![step_at(levels[k], at)] + path_in(
            levels.skip(k + 1),
            at / 2,
        ),
        0 <= sibling_index(levels[k].len() as int, at) < levels[k].len(),
        at / 2 < levels[k + 1].len(),
{
    let here = levels.skip(k);
    assert(here[0] == levels[k]);
    assert(here.drop_first() =~= levels.skip(k + 1));
    assert(levels[k + 1].len() == (levels[k].len() + 1) / 2);
}

/// The proof that `leaf` belongs to `tree`, for the first leaf that holds
/// these bytes; `None` if no leaf does.
pub fn generate_proof_of_inclusion(tree: &MerkleTree, leaf: [u8; 32]) -> (out: Option<MerkleProof>)
    ensures
        match out {
            None => !tree.leaves().contains(leaf),
            Some(proof) => exists|i: int| #[trigger]
                is_first_occurrence(tree.leaves(), leaf, i) && proof.steps@ == tree.path(i),
        },
{
    proof {
        use_type_invariant(tree);
    }
    let ghost all = tree.levels();
    let leaves = &tree.levels[0];
    let mut at: usize = 0;
    while at < leaves.len() && !same_digest(&leaves[at], &leaf)
        invariant
            at <= leaves.len(),
            forall|j: int| 0 <= j < at ==> leaves[j] != leaf,
        decreases leaves.len() - at,
    {
        at += 1;
    }
    if at == leaves.len() {
        return None;
    }
    let ghost first = at as int;
    assert(is_first_occurrence(tree.leaves(), leaf, first));
    let mut steps: Vec<ProofStep> = Vec::new();
    let mut k: usize = 0;
    assert(all.skip(0) =~= all);
    while k + 1 < tree.levels.len()
        invariant
            all == tree.levels(),
            well_shaped(all),
            k < tree.levels.len(),
            at < tree.levels[k as int].len(),
            path_in(all, first) == steps@ + path_in(all.skip(k as int), at as int),
        decreases tree.levels.len() - k,
    {
        let level = &tree.levels[k];
        let on_left: bool = at % 2 == 1;
        let beside: usize = if on_left {
            at - 1
        } else if at + 1 < level.len() {
            at + 1
        } else {
            at
        };
        let step = ProofStep { sibling: level[beside], sibling_on_left: on_left };
        proof {
            lemma_path_one_level_up(all, k as int, at as int);
            assert(level@ == all[k as int]);
            assert(step == step_at(all[k as int], at as int));
            assert(steps@.push(step) =~= steps@ + seq![step]);
        }
        steps.push(step);
        at = at / 2;
        k += 1;
    }
    assert(path_in(all.skip(k as int), at as int) =~= Seq::<ProofStep>::empty());
    Some(MerkleProof { steps })
}

/// Whether `proof` leads from `leaf` to `root`, hashing with `hasher`. The
/// engine is finalized first, so that bytes left pending in it do not enter
/// the hashes; it is empty afterwards.
pub fn verify_proof_of_inclusion<H: HashFunction>(
    leaf: [u8; 32],
    proof: &MerkleProof,
    root: [u8; 32],
    hasher: &mut H,
) -> (ok: bool)
    ensures
        ok == (fold_proof::<H>(leaf, proof.steps@) == root),
        final(hasher).pending() == Seq::<u8>::empty(),
        !final(hasher).primed(),
{
    let _ = hasher.digest();
    let mut acc: [u8; 32] = leaf;
    let mut k: usize = 0;
    assert(proof.steps@.skip(0) =~= proof.steps@);
    while k < proof.steps.len()
        invariant
            k <= proof.steps.len(),
            fold_proof::<H>(leaf, proof.steps@) == fold_proof::<H>(acc, proof.steps@.skip(k as int)),
            hasher.pending() == Seq::<u8>::empty(),
            !hasher.primed(),
        decreases proof.steps.len() - k,
    {
        let step = proof.steps[k];
        let ghost rest = proof.steps@.skip(k as int);
        assert(rest[0] == step);
        assert(rest.drop_first() =~= proof.steps@.skip(k + 1));
        acc = if step.sibling_on_left {
            hash_pair(&step.sibling, &acc, hasher)
        } else {
            hash_pair(&acc, &step.sibling, hasher)
        };
        k += 1;
    }
    same_digest(&acc, &root)
}

} // verus!
