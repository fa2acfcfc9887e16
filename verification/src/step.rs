//! The steps of the stamp PCD tree, and what the merge step computes.
use vstd::prelude::*;

use crate::header::{DigestView, StampDigestData};
use crate::pallas::{accumulate, accumulates, all_on_curve, on_curve, pallas_add};

verus! {

/// The leaf step for a single **spend** action, registered at index 0.
///
/// Only the step's index is held here: its circuit (authorization, value
/// commitment, nullifier, note commitment, hash-to-curve) is not defined
/// yet, so the header it makes is taken as given — a leaf of
/// [`StampTree`].
pub struct SpendLeaf;

/// The leaf step for a single **output** action, registered at index 1.
///
/// As for [`SpendLeaf`], only the index is held here.
pub struct OutputLeaf;

/// Merge step that combines two sub-proofs (index 2).
///
/// 1. Enforces `left.anchor == right.anchor`
/// 2. Accumulates `d_hat = left.d_hat + right.d_hat`  (EC point addition)
/// 3. Accumulates `tg_hat = left.tg_hat + right.tg_hat`  (EC point addition)
///
/// The point additions are incomplete: they need distinct `x` coordinates,
/// which honest accumulators of distinct sub-trees have.
pub struct StampMerge;

impl SpendLeaf {
    /// The step's index in the application.
    pub const INDEX: usize = 0;
}

impl OutputLeaf {
    /// The step's index in the application.
    pub const INDEX: usize = 1;
}

impl StampMerge {
    /// The step's index in the application.
    pub const INDEX: usize = 2;
}

/// Why two headers cannot be merged.
#[derive(Clone, Copy, Debug, PartialEq, Eq, Structural)]
pub enum MergeError {
    /// The two sub-proofs were made for different epochs.
    AnchorMismatch,
    /// The two D̂ accumulators share their `x` coordinate, which incomplete
    /// addition cannot add.
    DigestCollision,
    /// The two TĜ accumulators share their `x` coordinate.
    TachygramCollision,
}

/// Whether every accumulator of the header is a point of the curve.
pub open spec fn digest_on_curve(d: DigestView) -> bool {
    on_curve(d.d_hat.0, d.d_hat.1) && on_curve(d.tg_hat.0, d.tg_hat.1)
}

/// The header that merging `l` with `r` produces when the merge succeeds:
/// both accumulators added, the left anchor kept.
pub open spec fn merged(l: DigestView, r: DigestView) -> DigestView {
    DigestView {
        d_hat: pallas_add(l.d_hat, r.d_hat),
        tg_hat: pallas_add(l.tg_hat, r.tg_hat),
        anchor: l.anchor,
    }
}

/// Whether the merge of `l` with `r` succeeds.
pub open spec fn mergeable(l: DigestView, r: DigestView) -> bool {
    &&& l.anchor == r.anchor
    &&& l.d_hat.0 != r.d_hat.0
    &&& l.tg_hat.0 != r.tg_hat.0
}

/// `m` accumulates, for each of D̂ and TĜ, every leaf point of two sub-trees
/// whose headers are `l` and `r`, in any order.
pub open spec fn merge_accumulates(l: DigestView, r: DigestView, m: DigestView) -> bool {
    accumulates(l.d_hat, r.d_hat, m.d_hat) && accumulates(l.tg_hat, r.tg_hat, m.tg_hat)
}

/// The outcome of the merge step on two headers.
pub open spec fn merge_spec(l: DigestView, r: DigestView) -> Result<DigestView, MergeError> {
    if l.anchor != r.anchor {
        Err(MergeError::AnchorMismatch)
    } else if l.d_hat.0 == r.d_hat.0 {
        Err(MergeError::DigestCollision)
    } else if l.tg_hat.0 == r.tg_hat.0 {
        Err(MergeError::TachygramCollision)
    } else {
        Ok(merged(l, r))
    }
}

/// The merge refuses two headers exactly for a differing anchor or a shared
/// `x` coordinate of one of the accumulators (in that order of precedence),
/// and otherwise adds both accumulators and keeps the common anchor.
pub proof fn lemma_merge_outcome(l: DigestView, r: DigestView)
    ensures
        (merge_spec(l, r) == Err::<DigestView, MergeError>(MergeError::AnchorMismatch)) <==> l.anchor
            != r.anchor,
        (merge_spec(l, r) == Err::<DigestView, MergeError>(MergeError::DigestCollision)) <==> (
        l.anchor == r.anchor && l.d_hat.0 == r.d_hat.0),
        (merge_spec(l, r) == Err::<DigestView, MergeError>(MergeError::TachygramCollision)) <==> (
        l.anchor == r.anchor && l.d_hat.0 != r.d_hat.0 && l.tg_hat.0 == r.tg_hat.0),
        l.anchor == r.anchor && l.d_hat.0 != r.d_hat.0 && l.tg_hat.0 != r.tg_hat.0 ==> (merge_spec(
            l,
            r,
        ) matches Ok(m) && m.d_hat == pallas_add(l.d_hat, r.d_hat) && m.tg_hat == pallas_add(
            l.tg_hat,
            r.tg_hat,
        ) && m.anchor == l.anchor && m.anchor == r.anchor),
{
}

impl StampMerge {
    /// The merge step on two sub-proofs' headers: checks that the anchors
    /// agree, then adds the D̂ accumulators and the TĜ accumulators.
    ///
    /// Beside the outcome, the contract states the properties that make the
    /// shape of the PCD tree irrelevant: the merged accumulators are the sums
    /// of all the points that the two sub-trees accumulate, in any order
    /// (see [`lemma_tree_root_accumulates`]); the merge is commutative; and
    /// it associates with any third header wherever both groupings succeed.
    pub fn witness(left: &StampDigestData, right: &StampDigestData) -> (r: Result<
        StampDigestData,
        MergeError,
    >)
        ensures
            match r {
                Ok(d) => merge_spec(left@, right@) == Ok::<DigestView, MergeError>(d@),
                Err(e) => merge_spec(left@, right@) == Err::<DigestView, MergeError>(e),
            },
            merge_spec(right@, left@) == merge_spec(left@, right@),
            left@.anchor == right@.anchor && left@.d_hat.0 != right@.d_hat.0 && left@.tg_hat.0
                != right@.tg_hat.0 ==> (r matches Ok(d) && d@.d_hat == pallas_add(
                left@.d_hat,
                right@.d_hat,
            ) && d@.tg_hat == pallas_add(left@.tg_hat, right@.tg_hat) && d@.anchor
                == left@.anchor),
            r matches Ok(d) ==> left@.anchor == right@.anchor && left@.d_hat.0 != right@.d_hat.0
                && left@.tg_hat.0 != right@.tg_hat.0 && d@.anchor == left@.anchor
                && d@.anchor == right@.anchor,
            (r == Err::<StampDigestData, MergeError>(MergeError::AnchorMismatch)) <==> left@.anchor
                != right@.anchor,
            (r == Err::<StampDigestData, MergeError>(MergeError::DigestCollision)) <==> (
            left@.anchor == right@.anchor && left@.d_hat.0 == right@.d_hat.0),
            (r == Err::<StampDigestData, MergeError>(MergeError::TachygramCollision)) <==> (
            left@.anchor == right@.anchor && left@.d_hat.0 != right@.d_hat.0 && left@.tg_hat.0
                == right@.tg_hat.0),
            r is Ok ==> merge_accumulates(left@, right@, merged(left@, right@)),
            r is Ok ==> forall|c: DigestView|
                digest_on_curve(c) && mergeable(merged(left@, right@), c) && mergeable(right@, c)
                    && mergeable(left@, merged(right@, c)) ==> #[trigger] merged(
                    merged(left@, right@),
                    c,
                ) == merged(left@, merged(right@, c)),
    {
        if !left.anchor.equals(&right.anchor) {
            return Err(MergeError::AnchorMismatch);
        }
        let merged_d = match left.d_hat.add_incomplete(&right.d_hat) {
            Some(p) => p,
            None => {
                return Err(MergeError::DigestCollision);
            },
        };
        let merged_tg = match left.tg_hat.add_incomplete(&right.tg_hat) {
            Some(p) => p,
            None => {
                return Err(MergeError::TachygramCollision);
            },
        };
        let out = StampDigestData { d_hat: merged_d, tg_hat: merged_tg, anchor: left.anchor };
        assert(out@ == merged(left@, right@));
        assert(merged(right@, left@) == merged(left@, right@));
        Ok(out)
    }
}

/// A PCD tree of stamp headers: leaves made by the leaf steps, inner nodes
/// made by the merge step.
pub enum StampTree {
    Leaf(DigestView),
    Merge(Box<StampTree>, Box<StampTree>),
}

/// The header at the root of a tree, or the first merge that fails
/// (left sub-tree first): what applying [`StampMerge::witness`] bottom-up
/// gives, since each of its calls returns exactly `merge_spec`.
pub open spec fn tree_digest(t: StampTree) -> Result<DigestView, MergeError>
    decreases t,
{
    match t {
        StampTree::Leaf(d) => Ok(d),
        StampTree::Merge(l, r) => match tree_digest(*l) {
            Err(e) => Err(e),
            Ok(a) => match tree_digest(*r) {
                Err(e) => Err(e),
                Ok(b) => merge_spec(a, b),
            },
        },
    }
}

/// The leaves of a tree, left to right.
pub open spec fn tree_leaves(t: StampTree) -> Seq<DigestView>
    decreases t,
{
    match t {
        StampTree::Leaf(d) => seq![d],
        StampTree::Merge(l, r) => tree_leaves(*l) + tree_leaves(*r),
    }
}

/// Every action of a stamp is for one epoch: where the whole tree merges,
/// each leaf carries the anchor of the root.
pub proof fn lemma_tree_anchor(t: StampTree)
    ensures
        tree_digest(t) matches Ok(root) ==> forall|i: int|
            0 <= i < tree_leaves(t).len() ==> #[trigger] tree_leaves(t)[i].anchor == root.anchor,
    decreases t,
{
    match t {
        StampTree::Leaf(d) => {},
        StampTree::Merge(l, r) => {
            lemma_tree_anchor(*l);
            lemma_tree_anchor(*r);
            if let Ok(root) = tree_digest(t) {
                let ll = tree_leaves(*l);
                let rl = tree_leaves(*r);
                assert forall|i: int| 0 <= i < tree_leaves(t).len() implies #[trigger] tree_leaves(
                    t,
                )[i].anchor == root.anchor by {
                    if i < ll.len() {
                        assert(tree_leaves(t)[i] == ll[i]);
                    } else {
                        assert(tree_leaves(t)[i] == rl[i - ll.len()]);
                    }
                }
            }
        },
    }
}

/// The D̂ points of the leaves of a tree, left to right.
pub open spec fn tree_d_points(t: StampTree) -> Seq<(nat, nat)>
    decreases t,
{
    match t {
        StampTree::Leaf(d) => seq![d.d_hat],
        StampTree::Merge(l, r) => tree_d_points(*l) + tree_d_points(*r),
    }
}

/// The TĜ points of the leaves of a tree, left to right.
pub open spec fn tree_tg_points(t: StampTree) -> Seq<(nat, nat)>
    decreases t,
{
    match t {
        StampTree::Leaf(d) => seq![d.tg_hat],
        StampTree::Merge(l, r) => tree_tg_points(*l) + tree_tg_points(*r),
    }
}

/// Every leaf header of the tree holds points of the curve, as every
/// [`StampDigestData`] does.
pub open spec fn tree_leaves_on_curve(t: StampTree) -> bool
    decreases t,
{
    match t {
        StampTree::Leaf(d) => digest_on_curve(d),
        StampTree::Merge(l, r) => tree_leaves_on_curve(*l) && tree_leaves_on_curve(*r),
    }
}

/// Every successful merge of the tree is one that [`StampMerge::witness`]
/// makes: its header accumulates the points of both sub-trees
/// (`merge_accumulates`, which `witness` ensures of every header it
/// returns).
pub open spec fn tree_merged_by_witness(t: StampTree) -> bool
    decreases t,
{
    match t {
        StampTree::Leaf(_) => true,
        StampTree::Merge(l, r) => {
            &&& tree_merged_by_witness(*l)
            &&& tree_merged_by_witness(*r)
            &&& match (tree_digest(*l), tree_digest(*r)) {
                (Ok(a), Ok(b)) => mergeable(a, b) ==> merge_accumulates(a, b, merged(a, b)),
                _ => true,
            }
        },
    }
}

proof fn lemma_leaf_points_on_curve(t: StampTree)
    requires
        tree_leaves_on_curve(t),
    ensures
        all_on_curve(tree_d_points(t)),
        all_on_curve(tree_tg_points(t)),
    decreases t,
{
    match t {
        StampTree::Leaf(d) => {},
        StampTree::Merge(l, r) => {
            lemma_leaf_points_on_curve(*l);
            lemma_leaf_points_on_curve(*r);
            let (dl, dr) = (tree_d_points(*l), tree_d_points(*r));
            let (gl, gr) = (tree_tg_points(*l), tree_tg_points(*r));
            assert forall|i: int| 0 <= i < (dl + dr).len() implies on_curve(
                #[trigger] (dl + dr)[i].0,
                (dl + dr)[i].1,
            ) by {
                if i < dl.len() {
                    assert((dl + dr)[i] == dl[i]);
                } else {
                    assert((dl + dr)[i] == dr[i - dl.len()]);
                }
            }
            assert forall|i: int| 0 <= i < (gl + gr).len() implies on_curve(
                #[trigger] (gl + gr)[i].0,
                (gl + gr)[i].1,
            ) by {
                if i < gl.len() {
                    assert((gl + gr)[i] == gl[i]);
                } else {
                    assert((gl + gr)[i] == gr[i - gl.len()]);
                }
            }
        },
    }
}

/// A sequence with the points of a single point is that point alone.
proof fn lemma_singleton_reordering(p: (nat, nat), u: Seq<(nat, nat)>)
    requires
        u.to_multiset() == seq![p].to_multiset(),
    ensures
        accumulate(u) == p,
{
    broadcast use vstd::seq_lib::group_to_multiset_ensures;

    assert(seq![p] =~= Seq::<(nat, nat)>::empty().push(p));
    assert(Seq::<(nat, nat)>::empty().to_multiset() =~= vstd::multiset::Multiset::<(nat, nat)>::empty());
    assert(u.len() == u.to_multiset().len());
    assert(u.len() == 1);
    assert(u.contains(u[0]));
    assert(u.to_multiset().count(u[0]) > 0);
    assert(u[0] == p);
}

/// The root of a merged PCD tree is the sum of its leaves: D̂ at the root is
/// the sum of the leaves' D̂ points and TĜ the sum of their TĜ points,
/// summed in any order.  This holds of every tree whose merges were made by
/// the merge step.
pub proof fn lemma_tree_root_accumulates(t: StampTree)
    requires
        tree_leaves_on_curve(t),
        tree_merged_by_witness(t),
    ensures
        tree_digest(t) matches Ok(root) ==> {
            &&& root.d_hat == accumulate(tree_d_points(t))
            &&& root.tg_hat == accumulate(tree_tg_points(t))
            &&& forall|u: Seq<(nat, nat)>|
                u.to_multiset() == tree_d_points(t).to_multiset() ==> #[trigger] accumulate(u)
                    == root.d_hat
            &&& forall|u: Seq<(nat, nat)>|
                u.to_multiset() == tree_tg_points(t).to_multiset() ==> #[trigger] accumulate(u)
                    == root.tg_hat
        },
    decreases t,
{
    match t {
        StampTree::Leaf(d) => {
            assert forall|u: Seq<(nat, nat)>|
                u.to_multiset() == tree_d_points(t).to_multiset() implies #[trigger] accumulate(u)
                == d.d_hat by {
                lemma_singleton_reordering(d.d_hat, u);
            }
            assert forall|u: Seq<(nat, nat)>|
                u.to_multiset() == tree_tg_points(t).to_multiset() implies #[trigger] accumulate(u)
                == d.tg_hat by {
                lemma_singleton_reordering(d.tg_hat, u);
            }
        },
        StampTree::Merge(l, r) => {
            lemma_tree_root_accumulates(*l);
            lemma_tree_root_accumulates(*r);
            if let Ok(root) = tree_digest(t) {
                let a = tree_digest(*l)->Ok_0;
                let b = tree_digest(*r)->Ok_0;
                assert(mergeable(a, b));
                assert(root == merged(a, b));
                lemma_leaf_points_on_curve(*l);
                lemma_leaf_points_on_curve(*r);
                let (dl, dr) = (tree_d_points(*l), tree_d_points(*r));
                let (gl, gr) = (tree_tg_points(*l), tree_tg_points(*r));
                assert(accumulate(dl) == a.d_hat);
                assert(accumulate(dr) == b.d_hat);
                assert(accumulate(gl) == a.tg_hat);
                assert(accumulate(gr) == b.tg_hat);
                assert forall|u: Seq<(nat, nat)>|
                    u.to_multiset() == tree_d_points(t).to_multiset() implies #[trigger] accumulate(
                    u,
                ) == root.d_hat by {
                    assert(accumulates(a.d_hat, b.d_hat, root.d_hat));
                    assert(u.to_multiset() == (dl + dr).to_multiset());
                }
                assert forall|u: Seq<(nat, nat)>|
                    u.to_multiset() == tree_tg_points(t).to_multiset() implies #[trigger] accumulate(
                    u,
                ) == root.tg_hat by {
                    assert(accumulates(a.tg_hat, b.tg_hat, root.tg_hat));
                    assert(u.to_multiset() == (gl + gr).to_multiset());
                }
            }
        },
    }
}

/// The shape of the PCD tree does not matter: two merged trees whose leaves
/// carry the same D̂ points and the same TĜ points, in any arrangement, have
/// the same accumulators at the root.
pub proof fn lemma_tree_shape_irrelevant(t1: StampTree, t2: StampTree)
    requires
        tree_leaves_on_curve(t1),
        tree_leaves_on_curve(t2),
        tree_merged_by_witness(t1),
        tree_merged_by_witness(t2),
        tree_d_points(t1).to_multiset() == tree_d_points(t2).to_multiset(),
        tree_tg_points(t1).to_multiset() == tree_tg_points(t2).to_multiset(),
    ensures
        tree_digest(t1) matches Ok(r1) ==> (tree_digest(t2) matches Ok(r2) ==> r1.d_hat == r2.d_hat
            && r1.tg_hat == r2.tg_hat),
{
    lemma_tree_root_accumulates(t1);
    lemma_tree_root_accumulates(t2);
}

/// Every action of a stamp is for one epoch: a tree with two leaves of
/// different anchors does not merge, so it produces no root header.
pub proof fn lemma_tree_anchor_mismatch_fails(t: StampTree, i: int, j: int)
    requires
        0 <= i < tree_leaves(t).len(),
        0 <= j < tree_leaves(t).len(),
        tree_leaves(t)[i].anchor != tree_leaves(t)[j].anchor,
    ensures
        tree_digest(t) is Err,
{
    lemma_tree_anchor(t);
    if let Ok(root) = tree_digest(t) {
        assert(tree_leaves(t)[i].anchor == root.anchor);
        assert(tree_leaves(t)[j].anchor == root.anchor);
    }
}

} // verus!
