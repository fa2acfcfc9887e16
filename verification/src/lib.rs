//! Out-of-circuit semantics of the Tachyon stamp: the header that the PCD
//! tree carries, the step that merges two sub-proofs, and the registration
//! of the application's steps.
//!
//! The stamp proof produces two Pedersen multiset hash accumulators on the
//! Pallas curve — D̂ over action digests and TĜ over tachygrams — and an
//! epoch anchor.  Because point addition is commutative and associative, the
//! shape of the PCD tree does not matter; the merge step states both
//! properties in its contract.
use vstd::prelude::*;

pub mod header;
pub mod pallas;
pub mod step;

use crate::header::HEADER_SIZE;
use crate::step::{OutputLeaf, SpendLeaf, StampMerge};

verus! {

/// The steps that the stamp application registers.
#[derive(Clone, Copy, Debug, PartialEq, Eq, Structural)]
pub enum StepKind {
    /// [`SpendLeaf`]: one spend action.
    Spend,
    /// [`OutputLeaf`]: one output action.
    Output,
    /// [`StampMerge`]: two sub-proofs combined.
    Merge,
}

/// The index of a step in the application.
pub open spec fn step_index(k: StepKind) -> nat {
    match k {
        StepKind::Spend => 0,
        StepKind::Output => 1,
        StepKind::Merge => 2,
    }
}

impl StepKind {
    /// The index of this step in the application.
    pub fn index(&self) -> (r: usize)
        ensures
            r == step_index(*self),
    {
        match self {
            StepKind::Spend => SpendLeaf::INDEX,
            StepKind::Output => OutputLeaf::INDEX,
            StepKind::Merge => StampMerge::INDEX,
        }
    }
}

/// The stamp PCD application: its header size and its steps.
pub struct TachystampApp;

impl TachystampApp {
    /// Header size for the stamp circuit.
    ///
    /// Five field elements: two curve points `(d_hat.x, d_hat.y,
    /// tg_hat.x, tg_hat.y)` and one scalar `(anchor)`.
    pub const HEADER_SIZE: usize = HEADER_SIZE;

    /// The steps of the application in the order of registration:
    /// `SpendLeaf` (0), `OutputLeaf` (1), `StampMerge` (2), each at the
    /// position given by its index.
    pub fn build() -> (steps: Vec<StepKind>)
        ensures
            steps@ == seq![StepKind::Spend, StepKind::Output, StepKind::Merge],
            forall|i: int| 0 <= i < steps@.len() ==> step_index(#[trigger] steps@[i]) == i,
    {
        let mut steps: Vec<StepKind> = Vec::new();
        steps.push(StepKind::Spend);
        steps.push(StepKind::Output);
        steps.push(StepKind::Merge);
        assert(steps@ =~= seq![StepKind::Spend, StepKind::Output, StepKind::Merge]);
        steps
    }
}

} // verus!
