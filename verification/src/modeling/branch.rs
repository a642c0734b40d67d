//! How a basic block ends: the conditional branches taken along the way, in
//! order, and the final fallthrough or unconditional branch.
use crate::sleigh::{GeneralizedVarNode, VarNode};
use vstd::prelude::*;

verus! {

/// A conditional branch: taken to `destination` when `condition` is non-zero.
#[derive(Debug, Clone, Copy, PartialEq, Eq, Structural)]
pub struct BlockConditionalBranchInfo {
    pub condition: VarNode,
    pub destination: GeneralizedVarNode,
}

/// The final control transfer of a block.
#[derive(Debug, Clone, Copy, PartialEq, Eq, Structural)]
pub enum BlockEndBehavior {
    /// Execution falls through to the address named by this varnode.
    Fallthrough(VarNode),
    /// An unconditional branch to this destination.
    UnconditionalBranch(GeneralizedVarNode),
}

/// The control flow out of a block: the conditional branches in the order in
/// which they were met, then `last`.
#[derive(Debug, Clone, PartialEq, Eq)]
pub struct BranchConstraint {
    pub last: BlockEndBehavior,
    pub conditional_branches: Vec<BlockConditionalBranchInfo>,
}

impl BranchConstraint {
    /// A block that falls through to `last` and has no conditional branch.
    pub fn new(last: &VarNode) -> (r: Self)
        ensures
            r.last == BlockEndBehavior::Fallthrough(*last),
            r.conditional_branches@ == Seq::<BlockConditionalBranchInfo>::empty(),
    {
        BranchConstraint { last: BlockEndBehavior::Fallthrough(*last), conditional_branches: Vec::new() }
    }

    /// A constraint with `other`'s final transfer and no conditional branch.
    pub fn with_same_final_branch(other: &Self) -> (r: Self)
        ensures
            r.last == other.last,
            r.conditional_branches@ == Seq::<BlockConditionalBranchInfo>::empty(),
    {
        BranchConstraint { conditional_branches: Vec::new(), last: other.last }
    }

    /// Whether control can leave the block other than by falling through.
    pub open spec fn spec_has_branch(self) -> bool {
        match self.last {
            BlockEndBehavior::Fallthrough(_) => self.conditional_branches@.len() > 0,
            BlockEndBehavior::UnconditionalBranch(_) => true,
        }
    }

    pub fn has_branch(&self) -> (r: bool)
        ensures
            r == self.spec_has_branch(),
    {
        match self.last {
            BlockEndBehavior::Fallthrough(_) => !self.conditional_branches.is_empty(),
            BlockEndBehavior::UnconditionalBranch(_) => true,
        }
    }

    /// Records one more conditional branch, after those already recorded.
    pub fn push_conditional(&mut self, cond: &BlockConditionalBranchInfo)
        ensures
            final(self).last == old(self).last,
            final(self).conditional_branches@ == old(self).conditional_branches@.push(*cond),
    {
        self.conditional_branches.push(*cond);
    }

    /// Ends the block with an unconditional branch to `new_last`.
    pub fn set_last(&mut self, new_last: &GeneralizedVarNode)
        ensures
            final(self).last == BlockEndBehavior::UnconditionalBranch(*new_last),
            final(self).conditional_branches@ == old(self).conditional_branches@,
    {
        self.last = BlockEndBehavior::UnconditionalBranch(*new_last);
    }
}

} // verus!
