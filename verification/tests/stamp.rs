use pasta_curves::arithmetic::CurveAffine;
use pasta_curves::group::ff::PrimeField;
use pasta_curves::group::Curve;
use pasta_curves::{EpAffine, Fp};

use tachyon::header::{StampDigest, StampDigestData, HEADER_SIZE};
use tachyon::pallas::{AffinePoint, FieldElement};
use tachyon::step::{MergeError, OutputLeaf, SpendLeaf, StampMerge};
use tachyon::{StepKind, TachystampApp};

const MODULUS_LE: [u8; 32] = [
    0x01, 0x00, 0x00, 0x00, 0xed, 0x30, 0x2d, 0x99, 0x1b, 0xf9, 0x4c, 0x09, 0xfc, 0x98, 0x46, 0x22,
    0x00, 0x00, 0x00, 0x00, 0x00, 0x00, 0x00, 0x00, 0x00, 0x00, 0x00, 0x00, 0x00, 0x00, 0x00, 0x40,
];

fn fe(v: Fp) -> FieldElement {
    FieldElement::from_repr(v.to_repr()).unwrap()
}

fn fe_u64(v: u64) -> FieldElement {
    fe(Fp::from(v))
}

fn generator() -> EpAffine {
    <EpAffine as pasta_curves::group::CurveAffine>::generator()
}

fn point(p: EpAffine) -> AffinePoint {
    let c = p.coordinates().unwrap();
    AffinePoint::from_xy(fe(*c.x()), fe(*c.y())).unwrap()
}

fn multiple(k: u64) -> EpAffine {
    let g = generator();
    let mut acc = pasta_curves::group::CurveAffine::to_curve(&g);
    for _ in 1..k {
        acc = acc + g;
    }
    acc.to_affine()
}

fn same_point(a: &AffinePoint, b: &AffinePoint) -> bool {
    a.x().to_repr() == b.x().to_repr() && a.y().to_repr() == b.y().to_repr()
}

fn digest(d: u64, tg: u64, anchor: u64) -> StampDigestData {
    StampDigestData {
        d_hat: point(multiple(d)),
        tg_hat: point(multiple(tg)),
        anchor: fe_u64(anchor),
    }
}

#[test]
fn field_element_rejects_non_canonical_encodings() {
    assert!(FieldElement::from_repr(MODULUS_LE).is_none());
    assert!(FieldElement::from_repr([0xff; 32]).is_none());
    let mut below = MODULUS_LE;
    below[0] = 0x00;
    let e = FieldElement::from_repr(below).unwrap();
    assert_eq!(e.to_repr(), below);
    assert_eq!(e.to_repr(), (-Fp::from(1u64)).to_repr());
}

#[test]
fn field_element_round_trips_and_compares() {
    let a = fe_u64(7);
    let b = fe_u64(7);
    let c = fe_u64(8);
    assert_eq!(a.to_repr(), Fp::from(7u64).to_repr());
    assert!(a.equals(&b));
    assert!(!a.equals(&c));
    assert!(fe_u64(0).is_zero());
    assert!(!a.is_zero());
}

#[test]
fn from_xy_accepts_exactly_points_of_the_curve() {
    let g = generator();
    let c = g.coordinates().unwrap();
    let p = AffinePoint::from_xy(fe(*c.x()), fe(*c.y())).unwrap();
    assert_eq!(p.x().to_repr(), (-Fp::from(1u64)).to_repr());
    assert_eq!(p.y().to_repr(), Fp::from(2u64).to_repr());
    assert!(p.is_valid());
    assert!(AffinePoint::from_xy(fe(*c.x()), fe_u64(3)).is_none());
    assert!(AffinePoint::from_xy(fe_u64(1), fe_u64(1)).is_none());
    // The identity's (0, 0) is accepted by the curve library but is no
    // affine point.
    assert!(AffinePoint::from_xy(fe_u64(0), fe_u64(0)).is_none());
}

#[test]
fn add_incomplete_adds_points_with_distinct_x() {
    let one = point(multiple(1));
    let two = point(multiple(2));
    let three = point(multiple(3));
    let sum = one.add_incomplete(&two).unwrap();
    assert!(same_point(&sum, &three));
    assert!(!same_point(&sum, &one));
    assert!(!same_point(&sum, &two));
    let swapped = two.add_incomplete(&one).unwrap();
    assert!(same_point(&swapped, &three));
}

#[test]
fn add_incomplete_refuses_equal_or_opposite_points() {
    let one = point(multiple(1));
    assert!(one.add_incomplete(&one).is_none());
    let neg = point(-generator());
    assert!(one.add_incomplete(&neg).is_none());
}

#[test]
fn add_incomplete_associates() {
    let a = point(multiple(1));
    let b = point(multiple(2));
    let c = point(multiple(4));
    let left = a.add_incomplete(&b).unwrap().add_incomplete(&c).unwrap();
    let right = a.add_incomplete(&b.add_incomplete(&c).unwrap()).unwrap();
    assert!(same_point(&left, &right));
    assert!(same_point(&left, &point(multiple(7))));
}

#[test]
fn encode_writes_five_elements_in_order() {
    let d = digest(1, 2, 9);
    let enc = StampDigest::encode(&d);
    assert_eq!(enc.len(), HEADER_SIZE);
    assert_eq!(enc.len(), TachystampApp::HEADER_SIZE);
    assert_eq!(TachystampApp::HEADER_SIZE, 5);
    assert_eq!(enc[0].to_repr(), d.d_hat.x().to_repr());
    assert_eq!(enc[1].to_repr(), d.d_hat.y().to_repr());
    assert_eq!(enc[2].to_repr(), d.tg_hat.x().to_repr());
    assert_eq!(enc[3].to_repr(), d.tg_hat.y().to_repr());
    assert_eq!(enc[4].to_repr(), Fp::from(9u64).to_repr());
    assert_eq!(StampDigest::SUFFIX, 0);
}

#[test]
fn merge_adds_both_accumulators_and_keeps_the_anchor() {
    let left = digest(1, 3, 42);
    let right = digest(2, 5, 42);
    let out = StampMerge::witness(&left, &right).unwrap();
    assert!(same_point(&out.d_hat, &point(multiple(3))));
    assert!(same_point(&out.tg_hat, &point(multiple(8))));
    assert_eq!(out.anchor.to_repr(), Fp::from(42u64).to_repr());
}

#[test]
fn merge_is_commutative() {
    let left = digest(1, 3, 42);
    let right = digest(2, 5, 42);
    let lr = StampMerge::witness(&left, &right).unwrap();
    let rl = StampMerge::witness(&right, &left).unwrap();
    assert!(same_point(&lr.d_hat, &rl.d_hat));
    assert!(same_point(&lr.tg_hat, &rl.tg_hat));
    assert!(lr.anchor.equals(&rl.anchor));
}

#[test]
fn merge_tree_shape_does_not_matter() {
    let a = digest(1, 3, 5);
    let b = digest(2, 5, 5);
    let c = digest(4, 11, 5);
    let ab = StampMerge::witness(&a, &b).unwrap();
    let left = StampMerge::witness(&ab, &c).unwrap();
    let bc = StampMerge::witness(&b, &c).unwrap();
    let right = StampMerge::witness(&a, &bc).unwrap();
    assert!(same_point(&left.d_hat, &right.d_hat));
    assert!(same_point(&left.tg_hat, &right.tg_hat));
    assert!(same_point(&left.d_hat, &point(multiple(7))));
    assert!(same_point(&left.tg_hat, &point(multiple(19))));
}

#[test]
fn merge_rejects_different_anchors() {
    let left = digest(1, 3, 42);
    let right = digest(2, 5, 43);
    assert_eq!(StampMerge::witness(&left, &right).err(), Some(MergeError::AnchorMismatch));
}

#[test]
fn merge_rejects_colliding_digest_accumulators() {
    let left = digest(1, 3, 42);
    let right = digest(1, 5, 42);
    assert_eq!(StampMerge::witness(&left, &right).err(), Some(MergeError::DigestCollision));
    let opposite = StampDigestData {
        d_hat: point(-generator()),
        tg_hat: point(multiple(5)),
        anchor: fe_u64(42),
    };
    assert_eq!(StampMerge::witness(&left, &opposite).err(), Some(MergeError::DigestCollision));
}

#[test]
fn merge_rejects_colliding_tachygram_accumulators() {
    let left = digest(1, 3, 42);
    let right = digest(2, 3, 42);
    assert_eq!(StampMerge::witness(&left, &right).err(), Some(MergeError::TachygramCollision));
}

#[test]
fn anchor_is_checked_before_the_accumulators() {
    let left = digest(1, 3, 1);
    let right = digest(1, 3, 2);
    assert_eq!(StampMerge::witness(&left, &right).err(), Some(MergeError::AnchorMismatch));
}

#[test]
fn build_registers_the_steps_in_index_order() {
    let steps = TachystampApp::build();
    assert_eq!(steps, vec![StepKind::Spend, StepKind::Output, StepKind::Merge]);
    for (i, s) in steps.iter().enumerate() {
        assert_eq!(s.index(), i);
    }
    assert_eq!(SpendLeaf::INDEX, 0);
    assert_eq!(OutputLeaf::INDEX, 1);
    assert_eq!(StampMerge::INDEX, 2);
}

#[test]
fn merged_root_is_the_sum_of_all_leaves_in_any_arrangement() {
    let a = digest(1, 3, 6);
    let b = digest(2, 5, 6);
    let c = digest(4, 11, 6);
    let d = digest(8, 23, 6);
    let ab = StampMerge::witness(&a, &b).unwrap();
    let cd = StampMerge::witness(&c, &d).unwrap();
    let balanced = StampMerge::witness(&ab, &cd).unwrap();
    let da = StampMerge::witness(&d, &a).unwrap();
    let dac = StampMerge::witness(&da, &c).unwrap();
    let comb = StampMerge::witness(&dac, &b).unwrap();
    assert!(same_point(&balanced.d_hat, &comb.d_hat));
    assert!(same_point(&balanced.tg_hat, &comb.tg_hat));
    assert!(same_point(&balanced.d_hat, &point(multiple(15))));
    assert!(same_point(&balanced.tg_hat, &point(multiple(42))));
    assert!(balanced.anchor.equals(&comb.anchor));
}

#[test]
fn a_tree_with_two_epochs_does_not_merge() {
    let a = digest(1, 3, 6);
    let b = digest(2, 5, 6);
    let c = digest(4, 11, 7);
    let d = digest(8, 23, 7);
    let ab = StampMerge::witness(&a, &b).unwrap();
    let cd = StampMerge::witness(&c, &d).unwrap();
    assert_eq!(StampMerge::witness(&ab, &cd).err(), Some(MergeError::AnchorMismatch));
}
