//! The stamp header: the succinct state that every node of the PCD tree
//! carries.
use vstd::prelude::*;

use crate::pallas::{AffinePoint, FieldElement};

verus! {

/// The number of field elements in an encoded stamp header:
/// `(d_hat.x, d_hat.y, tg_hat.x, tg_hat.y, anchor)`.
pub const HEADER_SIZE: usize = 5;

/// Succinct stamp state carried through the PCD tree.
///
/// Two Pedersen multiset hash accumulators (curve points on Pallas) plus an
/// epoch anchor.  The proof binds D̂ to TĜ — without it there is no public
/// link between an action and its tachygram.
pub struct StampDigest;

/// Raw data for the [`StampDigest`] header.
#[derive(Clone, Copy)]
pub struct StampDigestData {
    /// Action digest accumulator D̂.
    pub d_hat: AffinePoint,
    /// Tachygram accumulator TĜ.
    pub tg_hat: AffinePoint,
    /// The epoch anchor.
    pub anchor: FieldElement,
}

/// The mathematical content of a header: the two accumulators by their
/// coordinates, and the anchor.
pub struct DigestView {
    pub d_hat: (nat, nat),
    pub tg_hat: (nat, nat),
    pub anchor: nat,
}

impl View for StampDigestData {
    type V = DigestView;

    open spec fn view(&self) -> DigestView {
        DigestView { d_hat: self.d_hat@, tg_hat: self.tg_hat@, anchor: self.anchor@ }
    }
}

/// The field elements that a header is written as, in order.
pub open spec fn header_encoding(d: DigestView) -> Seq<nat> {
    seq![d.d_hat.0, d.d_hat.1, d.tg_hat.0, d.tg_hat.1, d.anchor]
}

/// The encoding determines the header: two headers written as the same
/// field elements are the same header.
pub proof fn lemma_header_encoding_injective(a: DigestView, b: DigestView)
    requires
        header_encoding(a) == header_encoding(b),
    ensures
        a == b,
{
    assert(header_encoding(a)[0] == header_encoding(b)[0]);
    assert(header_encoding(a)[1] == header_encoding(b)[1]);
    assert(header_encoding(a)[2] == header_encoding(b)[2]);
    assert(header_encoding(a)[3] == header_encoding(b)[3]);
    assert(header_encoding(a)[4] == header_encoding(b)[4]);
}

/// The encoding lists, position by position, the D̂ coordinates, the TĜ
/// coordinates and the anchor.
pub proof fn lemma_header_encoding_order(d: DigestView)
    ensures
        header_encoding(d).len() == HEADER_SIZE,
        header_encoding(d)[0] == d.d_hat.0,
        header_encoding(d)[1] == d.d_hat.1,
        header_encoding(d)[2] == d.tg_hat.0,
        header_encoding(d)[3] == d.tg_hat.1,
        header_encoding(d)[4] == d.anchor,
{
}

impl StampDigest {
    /// The header's suffix in the PCD application.
    pub const SUFFIX: usize = 0;

    /// The header's field elements: `(d_hat.x, d_hat.y, tg_hat.x, tg_hat.y,
    /// anchor)`.
    pub fn encode(data: &StampDigestData) -> (r: Vec<FieldElement>)
        ensures
            r@.len() == HEADER_SIZE,
            r@.map_values(|e: FieldElement| e@) == header_encoding(data@),
            r@[0]@ == data.d_hat@.0,
            r@[1]@ == data.d_hat@.1,
            r@[2]@ == data.tg_hat@.0,
            r@[3]@ == data.tg_hat@.1,
            r@[4]@ == data.anchor@,
    {
        let mut r: Vec<FieldElement> = Vec::new();
        r.push(data.d_hat.x());
        r.push(data.d_hat.y());
        r.push(data.tg_hat.x());
        r.push(data.tg_hat.y());
        r.push(data.anchor);
        assert(r@.map_values(|e: FieldElement| e@) =~= header_encoding(data@));
        r
    }
}

} // verus!
