//! Pallas base-field elements and affine curve points, held as canonical
//! little-endian byte encodings.
//!
//! Field and group arithmetic is done by `pasta_curves`; this module keeps
//! the values that the stamp logic reads (coordinates, the anchor) as plain
//! bytes with their invariants, and states what the curve library computes.
use vstd::prelude::*;

use pasta_curves::arithmetic::CurveAffine;
use group::ff::PrimeField;
use group::Curve;
use pasta_curves::{EpAffine, Fp};

verus! {

/// The Pallas base-field modulus
/// `p = 0x40000000000000000000000000000000224698fc094cf91b992d30ed00000001`.
pub open spec fn modulus() -> nat {
    0x40000000000000000000000000000000224698fc094cf91b992d30ed00000001nat
}

/// The number that a byte string denotes, read little-endian.
pub open spec fn le_value(s: Seq<u8>) -> nat
    decreases s.len(),
{
    if s.len() == 0 {
        0
    } else {
        s[0] as nat + 256 * le_value(s.drop_first())
    }
}

/// `(x, y)` is an affine point of Pallas, `y^2 = x^3 + 5` over the base
/// field, with both coordinates reduced.  The identity has no affine
/// coordinates and is not such a point.
pub open spec fn on_curve(x: nat, y: nat) -> bool {
    &&& x < modulus()
    &&& y < modulus()
    &&& (y * y) % modulus() == (x * x * x + 5) % modulus()
}

/// The sum of two Pallas points given by their affine coordinates, as
/// `pasta_curves` computes it, with `(0, 0)` standing for the identity both
/// in the arguments and in the result.
pub uninterp spec fn pallas_add(a: (nat, nat), b: (nat, nat)) -> (nat, nat);

/// Every point of the sequence is an affine point of the curve.
pub open spec fn all_on_curve(s: Seq<(nat, nat)>) -> bool {
    forall|i: int| 0 <= i < s.len() ==> on_curve(#[trigger] s[i].0, s[i].1)
}

/// The sum of a sequence of points, added left to right; `(0, 0)` (the
/// identity) for the empty sequence.
pub open spec fn accumulate(s: Seq<(nat, nat)>) -> (nat, nat)
    decreases s.len(),
{
    if s.len() == 0 {
        (0, 0)
    } else if s.len() == 1 {
        s[0]
    } else {
        pallas_add(accumulate(s.drop_last()), s.last())
    }
}

/// `m` is the accumulator of every sequence of points that reorders the
/// points of a sequence accumulating to `a` followed by those of a sequence
/// accumulating to `b`: adding two accumulators accumulates all of their
/// points, in any order.
pub open spec fn accumulates(a: (nat, nat), b: (nat, nat), m: (nat, nat)) -> bool {
    forall|s: Seq<(nat, nat)>, t: Seq<(nat, nat)>, u: Seq<(nat, nat)>|
        #![trigger accumulate(s), accumulate(t), u.to_multiset()]
        all_on_curve(s) && all_on_curve(t) && accumulate(s) == a && accumulate(t) == b
            && u.to_multiset() == (s + t).to_multiset() ==> accumulate(u) == m
}

/// The Jacobian sum that `pasta_curves` forms for two affine points with
/// distinct `x` (`h = x2 - x1`, `i = 4h^2`, `j = h i`, `r = 2(y2 - y1)`,
/// `v = x1 i`, `X = r^2 - j - 2v`, `Y = r(v - X) - 2 y1 j`, `Z = 2h`),
/// and the affine point `s` that normalising it gives: `s.x Z^2 = X` and
/// `s.y Z^3 = Y` modulo `p`.
pub open spec fn jacobian_sum_matches(a: (nat, nat), b: (nat, nat), s: (nat, nat)) -> bool {
    let p = modulus() as int;
    let x1 = a.0 as int;
    let y1 = a.1 as int;
    let x2 = b.0 as int;
    let y2 = b.1 as int;
    let h = x2 - x1;
    let i = 4 * (h * h);
    let j = h * i;
    let r = 2 * (y2 - y1);
    let v = x1 * i;
    let xj = r * r - j - 2 * v;
    let yj = r * (v - xj) - 2 * (y1 * j);
    let z = 2 * h;
    &&& (s.0 * (z * z) - xj) % p == 0
    &&& (s.1 * (z * z * z) - yj) % p == 0
}

/// Two little-endian strings of one length denote one number only if they
/// are equal.
pub proof fn lemma_le_value_injective(s: Seq<u8>, t: Seq<u8>)
    requires
        s.len() == t.len(),
        le_value(s) == le_value(t),
    ensures
        s == t,
    decreases s.len(),
{
    if s.len() > 0 {
        let a = le_value(s.drop_first());
        let b = le_value(t.drop_first());
        assert(s[0] as int + 256 * a == t[0] as int + 256 * b);
        assert(s[0] == t[0] && a == b);
        lemma_le_value_injective(s.drop_first(), t.drop_first());
        assert(s =~= t) by {
            assert forall|k: int| 0 <= k < s.len() implies s[k] == t[k] by {
                if k > 0 {
                    assert(s[k] == s.drop_first()[k - 1]);
                    assert(t[k] == t.drop_first()[k - 1]);
                }
            }
        }
    }
}

/// A little-endian string denotes zero exactly when every byte is zero.
pub proof fn lemma_le_value_zero(s: Seq<u8>)
    ensures
        le_value(s) == 0 <==> (forall|k: int| 0 <= k < s.len() ==> s[k] == 0),
    decreases s.len(),
{
    if s.len() > 0 {
        lemma_le_value_zero(s.drop_first());
        if le_value(s) == 0 {
            assert forall|k: int| 0 <= k < s.len() implies s[k] == 0 by {
                if k > 0 {
                    assert(s[k] == s.drop_first()[k - 1]);
                }
            }
        }
        if forall|k: int| 0 <= k < s.len() ==> s[k] == 0 {
            assert(s[0] == 0);
            assert forall|k: int| 0 <= k < s.drop_first().len() implies s.drop_first()[k] == 0 by {
                assert(s.drop_first()[k] == s[k + 1]);
            }
        }
    }
}

/// The sum of two points is the sum of the pair in either order.
pub proof fn lemma_accumulates_commutes(a: (nat, nat), b: (nat, nat), m: (nat, nat))
    requires
        on_curve(a.0, a.1),
        on_curve(b.0, b.1),
        accumulates(a, b, m),
    ensures
        m == pallas_add(a, b),
        m == pallas_add(b, a),
{
    let s = seq![a];
    let t = seq![b];
    let ab = seq![a, b];
    let ba = seq![b, a];
    assert(accumulate(s) == a);
    assert(accumulate(t) == b);
    assert(s + t =~= ab);
    assert(ab.drop_last() =~= s);
    assert(ba.drop_last() =~= t);
    assert(accumulate(ab) == pallas_add(a, b));
    assert(accumulate(ba) == pallas_add(b, a));
    assert(ba.to_multiset() =~= ab.to_multiset()) by {
        broadcast use vstd::seq_lib::group_to_multiset_ensures;
        assert(ab =~= seq![a].push(b));
        assert(ba =~= seq![b].push(a));
        assert(seq![a] =~= Seq::<(nat, nat)>::empty().push(a));
        assert(seq![b] =~= Seq::<(nat, nat)>::empty().push(b));
    }
    assert(all_on_curve(s));
    assert(all_on_curve(t));
    assert(accumulate(ab) == m);
    assert(accumulate(ba) == m);
}

/// Whether `repr` is the canonical encoding of a base-field element, by
/// `pasta_curves::Fp::from_repr`: its source accepts exactly the 32-byte
/// little-endian strings whose value is below the modulus.
#[verifier::external_body]
fn fp_repr_is_canonical(repr: &[u8; 32]) -> (r: bool)
    ensures
        r == (le_value(repr@) < modulus()),
{
    bool::from(Fp::from_repr(*repr).is_some())
}

/// An element of the Pallas base field `F_p`, held as its canonical
/// 32-byte little-endian encoding.
#[derive(Clone, Copy)]
pub struct FieldElement {
    repr: [u8; 32],
}

impl FieldElement {
    #[verifier::type_invariant]
    spec fn is_canonical(self) -> bool {
        le_value(self.repr@) < modulus()
    }

    /// The encoding that this element holds.
    pub closed spec fn repr_spec(self) -> Seq<u8> {
        self.repr@
    }

    /// The element whose canonical encoding is `repr`; `None` where `repr`
    /// encodes a number not below the modulus.
    pub fn from_repr(repr: [u8; 32]) -> (r: Option<FieldElement>)
        ensures
            r is Some <==> le_value(repr@) < modulus(),
            r matches Some(e) ==> e@ == le_value(repr@) && e.repr_spec() == repr@,
    {
        if fp_repr_is_canonical(&repr) {
            Some(FieldElement { repr })
        } else {
            None
        }
    }

    /// The canonical little-endian encoding of this element.
    pub fn to_repr(&self) -> (r: [u8; 32])
        ensures
            le_value(r@) == self@,
            r@ == self.repr_spec(),
            self@ < modulus(),
    {
        proof {
            use_type_invariant(self);
        }
        self.repr
    }

    /// Whether the two elements are the same field element.
    pub fn equals(&self, other: &FieldElement) -> (r: bool)
        ensures
            r == (self@ == other@),
    {
        let mut i: usize = 0;
        while i < 32
            invariant
                i <= 32,
                self.repr@.len() == 32,
                other.repr@.len() == 32,
                forall|k: int| 0 <= k < i ==> self.repr@[k] == other.repr@[k],
            decreases 32 - i,
        {
            if self.repr[i] != other.repr[i] {
                proof {
                    if le_value(self.repr@) == le_value(other.repr@) {
                        lemma_le_value_injective(self.repr@, other.repr@);
                    }
                }
                return false;
            }
            i += 1;
        }
        assert(self.repr@ =~= other.repr@);
        true
    }

    /// Whether this is the zero element.
    pub fn is_zero(&self) -> (r: bool)
        ensures
            r == (self@ == 0),
    {
        proof {
            lemma_le_value_zero(self.repr@);
        }
        let mut i: usize = 0;
        while i < 32
            invariant
                i <= 32,
                self.repr@.len() == 32,
                forall|k: int| 0 <= k < i ==> self.repr@[k] == 0,
                le_value(self.repr@) == 0 <==> (forall|k: int|
                    0 <= k < self.repr@.len() ==> self.repr@[k] == 0),
            decreases 32 - i,
        {
            if self.repr[i] != 0 {
                return false;
            }
            i += 1;
        }
        true
    }
}

impl View for FieldElement {
    type V = nat;

    closed spec fn view(&self) -> nat {
        le_value(self.repr@)
    }
}

/// Whether `(x, y)` passes `pasta_curves`'s `EpAffine::from_xy`.  Its
/// source builds the point and accepts it when `y^2 - x^3 = 5` in the base
/// field, or when `(x, y) = (0, 0)`, the encoding of the identity.
#[verifier::external_body]
fn pallas_xy_is_valid(x: &FieldElement, y: &FieldElement) -> (r: bool)
    requires
        x@ < modulus(),
        y@ < modulus(),
    ensures
        r == (on_curve(x@, y@) || (x@ == 0 && y@ == 0)),
{
    let px = Fp::from_repr(x.repr).unwrap();
    let py = Fp::from_repr(y.repr).unwrap();
    bool::from(EpAffine::from_xy(px, py).is_some())
}

/// The affine sum of two Pallas points with distinct `x`, by `pasta_curves`'s
/// `&EpAffine + &EpAffine` followed by `to_affine` and `coordinates`.
///
/// What is claimed: the sum is an affine point (distinct `x` rules out the
/// identity); it is named `pallas_add(a, b)`; it agrees with the Jacobian
/// formulas of the source (`jacobian_sum_matches`); and, since Pallas is a
/// prime-order (so commutative) group, it is the sum of all the points of
/// any two sequences that add up to `a` and to `b`, in any order
/// (`accumulates`), and it associates with any third point wherever every
/// intermediate sum again has distinct `x`.  The coordinates of the sum are
/// not written out in closed form: that needs the inverse in `F_p`, and the
/// Jacobian relation fixes them only because `p` is prime, which is not
/// proved here.
#[verifier::external_body]
fn pallas_sum(a: &AffinePoint, b: &AffinePoint) -> (r: AffinePoint)
    requires
        on_curve(a@.0, a@.1),
        on_curve(b@.0, b@.1),
        a@.0 != b@.0,
    ensures
        on_curve(r@.0, r@.1),
        r@ == pallas_add(a@, b@),
        jacobian_sum_matches(a@, b@, r@),
        accumulates(a@, b@, r@),
        forall|c: (nat, nat)|
            on_curve(c.0, c.1) && c.0 != r@.0 && c.0 != b@.0 && a@.0 != pallas_add(b@, c).0
                ==> #[trigger] pallas_add(r@, c) == pallas_add(a@, pallas_add(b@, c)),
{
    let pa = EpAffine::from_xy(Fp::from_repr(a.x.repr).unwrap(), Fp::from_repr(a.y.repr).unwrap());
    let pb = EpAffine::from_xy(Fp::from_repr(b.x.repr).unwrap(), Fp::from_repr(b.y.repr).unwrap());
    let c = (pa.unwrap() + pb.unwrap()).to_affine().coordinates().unwrap();
    AffinePoint {
        x: FieldElement { repr: c.x().to_repr() },
        y: FieldElement { repr: c.y().to_repr() },
    }
}

/// An affine point of the Pallas curve (never the identity), held by its
/// coordinates.
#[derive(Clone, Copy)]
pub struct AffinePoint {
    x: FieldElement,
    y: FieldElement,
}

impl AffinePoint {
    #[verifier::type_invariant]
    spec fn is_on_curve(self) -> bool {
        on_curve(self.x@, self.y@)
    }

    /// The point with coordinates `(x, y)`; `None` where they do not satisfy
    /// the curve equation (the identity's `(0, 0)` among them).
    pub fn from_xy(x: FieldElement, y: FieldElement) -> (r: Option<AffinePoint>)
        ensures
            r is Some <==> on_curve(x@, y@),
            r matches Some(p) ==> p@ == (x@, y@),
    {
        proof {
            use_type_invariant(&x);
            use_type_invariant(&y);
        }
        let valid = pallas_xy_is_valid(&x, &y);
        if valid && !(x.is_zero() && y.is_zero()) {
            Some(AffinePoint { x, y })
        } else {
            None
        }
    }

    /// The `x` coordinate.
    pub fn x(&self) -> (r: FieldElement)
        ensures
            r@ == self@.0,
    {
        self.x
    }

    /// The `y` coordinate.
    pub fn y(&self) -> (r: FieldElement)
        ensures
            r@ == self@.1,
    {
        self.y
    }

    /// Whether the point satisfies the curve equation: always, as every
    /// `AffinePoint` does.
    pub fn is_valid(&self) -> (r: bool)
        ensures
            r,
            on_curve(self@.0, self@.1),
    {
        proof {
            use_type_invariant(self);
        }
        true
    }

    /// Incomplete addition: the sum of two points whose `x` coordinates
    /// differ, and `None` where they coincide (the points are then equal or
    /// opposite, which the incomplete formula cannot add).
    pub fn add_incomplete(&self, other: &AffinePoint) -> (r: Option<AffinePoint>)
        ensures
            r is Some <==> self@.0 != other@.0,
            r matches Some(s) ==> {
                &&& s@ == pallas_add(self@, other@)
                &&& s@ == pallas_add(other@, self@)
                &&& jacobian_sum_matches(self@, other@, s@)
                &&& accumulates(self@, other@, s@)
                &&& forall|c: (nat, nat)|
                    on_curve(c.0, c.1) && c.0 != s@.0 && c.0 != other@.0 && self@.0 != pallas_add(
                        other@,
                        c,
                    ).0 ==> #[trigger] pallas_add(s@, c) == pallas_add(self@, pallas_add(other@, c))
            },
    {
        proof {
            use_type_invariant(self);
            use_type_invariant(other);
        }
        if self.x.equals(&other.x) {
            None
        } else {
            let s = pallas_sum(self, other);
            proof {
                lemma_accumulates_commutes(self@, other@, s@);
            }
            Some(s)
        }
    }
}

impl View for AffinePoint {
    type V = (nat, nat);

    closed spec fn view(&self) -> (nat, nat) {
        (self.x@, self.y@)
    }
}

} // verus!
