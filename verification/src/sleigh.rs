//! The data model of SLEIGH varnodes that the analyses read: a sized location
//! in an address space, and a location reached through a pointer.
use vstd::prelude::*;

verus! {

/// The index of the constant space; hardcoded in SLEIGH.
pub const CONST_SPACE_INDEX: usize = 0;

/// A sized location (`size` bytes starting at `offset`) in the space with
/// index `space_index`.
#[derive(Clone, Copy, Debug, PartialEq, Eq, Hash, Structural)]
pub struct VarNode {
    pub space_index: usize,
    pub offset: u64,
    pub size: usize,
}

impl VarNode {
    /// The byte addresses of this varnode: `offset <= a < offset + size`.
    pub open spec fn contains_addr(self, a: int) -> bool {
        self.offset <= a < self.offset + self.size
    }

    /// The end (exclusive) of the byte range, as a mathematical integer.
    pub open spec fn end(self) -> int {
        self.offset + self.size
    }

    pub fn new(offset: u64, size: usize, space: usize) -> (r: VarNode)
        ensures
            r == (VarNode { space_index: space, offset, size }),
    {
        VarNode { space_index: space, offset, size }
    }

    pub fn new_const(offset: u64, size: usize) -> (r: VarNode)
        ensures
            r == (VarNode { space_index: CONST_SPACE_INDEX, offset, size }),
    {
        VarNode { space_index: CONST_SPACE_INDEX, offset, size }
    }

    pub fn is_const(&self) -> (r: bool)
        ensures
            r == (self.space_index == CONST_SPACE_INDEX),
    {
        self.space_index == CONST_SPACE_INDEX
    }

    pub fn offset(&self) -> (r: u64)
        ensures
            r == self.offset,
    {
        self.offset
    }

    pub fn size(&self) -> (r: usize)
        ensures
            r == self.size,
    {
        self.size
    }

    pub fn space_index(&self) -> (r: usize)
        ensures
            r == self.space_index,
    {
        self.space_index
    }

    /// `self` covers `other` when both lie in one space and every byte of
    /// `other` is a byte of `self`.
    pub open spec fn spec_covers(self, other: VarNode) -> bool {
        &&& self.space_index == other.space_index
        &&& self.offset <= other.offset
        &&& other.end() <= self.end()
    }

    pub fn covers(&self, other: &VarNode) -> (r: bool)
        requires
            self.end() <= u64::MAX,
            other.end() <= u64::MAX,
        ensures
            r == self.spec_covers(*other),
    {
        if self.space_index != other.space_index {
            return false;
        }
        self.offset <= other.offset && (self.offset + self.size as u64) >= (other.offset
            + other.size as u64)
    }

    /// Two varnodes overlap when they lie in one space and share a start
    /// point inside each other's range.
    pub open spec fn spec_overlaps(self, other: VarNode) -> bool {
        &&& self.space_index == other.space_index
        &&& {
            ||| (self.offset <= other.offset && self.end() > other.offset)
            ||| (other.offset <= self.offset && other.end() > self.offset)
        }
    }

    pub fn overlaps(&self, other: &VarNode) -> (r: bool)
        requires
            self.end() <= u64::MAX,
            other.end() <= u64::MAX,
        ensures
            r == self.spec_overlaps(*other),
    {
        if self.space_index != other.space_index {
            return false;
        }
        let self_end = self.offset + self.size as u64;
        let other_end = other.offset + other.size as u64;
        let left = self.offset <= other.offset && self_end > other.offset;
        let right = other.offset <= self.offset && other_end > self.offset;
        left || right
    }
}

/// Covering is reflexive and transitive; a varnode overlaps every non-empty
/// varnode it covers.
pub proof fn lemma_covers_laws(a: VarNode, b: VarNode, c: VarNode)
    ensures
        a.spec_covers(a),
        a.spec_covers(b) && b.spec_covers(c) ==> a.spec_covers(c),
        a.spec_covers(b) && b.size > 0 ==> a.spec_overlaps(b) && b.spec_overlaps(a),
{
}

/// A location reached by reading `access_size_bytes` bytes in the space
/// `pointer_space_index` at the address held by `pointer_location`.
#[derive(Clone, Copy, Debug, PartialEq, Eq, Hash, Structural)]
pub struct IndirectVarNode {
    pub pointer_space_index: usize,
    pub pointer_location: VarNode,
    pub access_size_bytes: usize,
}

impl IndirectVarNode {
    pub fn new(pointer: VarNode, size: usize, space: usize) -> (r: IndirectVarNode)
        ensures
            r == (IndirectVarNode {
                pointer_space_index: space,
                pointer_location: pointer,
                access_size_bytes: size,
            }),
    {
        IndirectVarNode {
            pointer_space_index: space,
            pointer_location: pointer,
            access_size_bytes: size,
        }
    }

    pub fn pointer_location(&self) -> (r: &VarNode)
        ensures
            *r == self.pointer_location,
    {
        &self.pointer_location
    }

    pub fn pointer_space_index(&self) -> (r: usize)
        ensures
            r == self.pointer_space_index,
    {
        self.pointer_space_index
    }

    pub fn access_size_bytes(&self) -> (r: usize)
        ensures
            r == self.access_size_bytes,
    {
        self.access_size_bytes
    }
}

/// A direct or an indirect location.
#[derive(Clone, Copy, Debug, PartialEq, Eq, Hash, Structural)]
pub enum GeneralizedVarNode {
    Direct(VarNode),
    Indirect(IndirectVarNode),
}

impl GeneralizedVarNode {
    pub fn is_direct(&self) -> (r: bool)
        ensures
            r == (*self is Direct),
    {
        matches!(self, GeneralizedVarNode::Direct(_))
    }

    pub fn is_indirect(&self) -> (r: bool)
        ensures
            r == (*self is Indirect),
    {
        matches!(self, GeneralizedVarNode::Indirect(_))
    }

    pub fn space_index(&self) -> (r: usize)
        ensures
            r == match *self {
                GeneralizedVarNode::Direct(vn) => vn.space_index,
                GeneralizedVarNode::Indirect(i) => i.pointer_space_index,
            },
    {
        match self {
            GeneralizedVarNode::Direct(vn) => vn.space_index,
            GeneralizedVarNode::Indirect(i) => i.pointer_space_index,
        }
    }
}

/// A p-code operation: its kind, its output and its inputs.
#[derive(Clone, Debug, PartialEq, Eq, Hash)]
pub enum PcodeOperation {
    Copy {
        input: VarNode,
        output: VarNode,
    },
    Load {
        input: IndirectVarNode,
        output: VarNode,
    },
    Store {
        output: IndirectVarNode,
        input: VarNode,
    },
    Branch {
        input: VarNode,
    },
    Fallthrough {
        input: VarNode,
    },
    CBranch {
        input0: VarNode,
        input1: VarNode,
    },
    BranchInd {
        input: IndirectVarNode,
    },
    Call {
        dest: VarNode,
    },
    CallInd {
        input: IndirectVarNode,
    },
    CallOther {
        output: Option<VarNode>,
        inputs: Vec<VarNode>,
    },
    Return {
        input: IndirectVarNode,
    },
    IntEqual {
        output: VarNode,
        input0: VarNode,
        input1: VarNode,
    },
    IntNotEqual {
        output: VarNode,
        input0: VarNode,
        input1: VarNode,
    },
    IntSignedLess {
        output: VarNode,
        input0: VarNode,
        input1: VarNode,
    },
    IntSignedLessEqual {
        output: VarNode,
        input0: VarNode,
        input1: VarNode,
    },
    IntLess {
        output: VarNode,
        input0: VarNode,
        input1: VarNode,
    },
    IntLessEqual {
        output: VarNode,
        input0: VarNode,
        input1: VarNode,
    },
    IntSExt {
        input: VarNode,
        output: VarNode,
    },
    IntZExt {
        input: VarNode,
        output: VarNode,
    },
    IntAdd {
        output: VarNode,
        input0: VarNode,
        input1: VarNode,
    },
    IntSub {
        output: VarNode,
        input0: VarNode,
        input1: VarNode,
    },
    IntCarry {
        output: VarNode,
        input0: VarNode,
        input1: VarNode,
    },
    IntSignedCarry {
        output: VarNode,
        input0: VarNode,
        input1: VarNode,
    },
    IntSignedBorrow {
        output: VarNode,
        input0: VarNode,
        input1: VarNode,
    },
    Int2Comp {
        output: VarNode,
        input: VarNode,
    },
    IntNegate {
        output: VarNode,
        input: VarNode,
    },
    IntXor {
        output: VarNode,
        input0: VarNode,
        input1: VarNode,
    },
    IntAnd {
        output: VarNode,
        input0: VarNode,
        input1: VarNode,
    },
    IntOr {
        output: VarNode,
        input0: VarNode,
        input1: VarNode,
    },
    IntLeftShift {
        output: VarNode,
        input0: VarNode,
        input1: VarNode,
    },
    IntRightShift {
        output: VarNode,
        input0: VarNode,
        input1: VarNode,
    },
    IntSignedRightShift {
        output: VarNode,
        input0: VarNode,
        input1: VarNode,
    },
    IntMult {
        output: VarNode,
        input0: VarNode,
        input1: VarNode,
    },
    IntDiv {
        output: VarNode,
        input0: VarNode,
        input1: VarNode,
    },
    IntSignedDiv {
        output: VarNode,
        input0: VarNode,
        input1: VarNode,
    },
    IntRem {
        output: VarNode,
        input0: VarNode,
        input1: VarNode,
    },
    IntSignedRem {
        output: VarNode,
        input0: VarNode,
        input1: VarNode,
    },
    BoolNegate {
        output: VarNode,
        input: VarNode,
    },
    BoolXor {
        output: VarNode,
        input0: VarNode,
        input1: VarNode,
    },
    BoolAnd {
        output: VarNode,
        input0: VarNode,
        input1: VarNode,
    },
    BoolOr {
        output: VarNode,
        input0: VarNode,
        input1: VarNode,
    },
    FloatEqual {
        output: VarNode,
        input0: VarNode,
        input1: VarNode,
    },
    FloatNotEqual {
        output: VarNode,
        input0: VarNode,
        input1: VarNode,
    },
    FloatLess {
        output: VarNode,
        input0: VarNode,
        input1: VarNode,
    },
    FloatLessEqual {
        output: VarNode,
        input0: VarNode,
        input1: VarNode,
    },
    FloatNaN {
        output: VarNode,
        input: VarNode,
    },
    FloatAdd {
        output: VarNode,
        input0: VarNode,
        input1: VarNode,
    },
    FloatDiv {
        output: VarNode,
        input0: VarNode,
        input1: VarNode,
    },
    FloatMult {
        output: VarNode,
        input0: VarNode,
        input1: VarNode,
    },
    FloatSub {
        output: VarNode,
        input0: VarNode,
        input1: VarNode,
    },
    FloatNeg {
        output: VarNode,
        input: VarNode,
    },
    FloatAbs {
        output: VarNode,
        input: VarNode,
    },
    FloatSqrt {
        output: VarNode,
        input: VarNode,
    },
    Int2Float {
        output: VarNode,
        input: VarNode,
    },
    Float2Float {
        output: VarNode,
        input: VarNode,
    },
    FloatTrunc {
        output: VarNode,
        input: VarNode,
    },
    FloatCeil {
        output: VarNode,
        input: VarNode,
    },
    FloatFloor {
        output: VarNode,
        input: VarNode,
    },
    FloatRound {
        output: VarNode,
        input: VarNode,
    },
    Piece {
        output: VarNode,
        input0: VarNode,
        input1: VarNode,
    },
    SubPiece {
        output: VarNode,
        input0: VarNode,
        input1: VarNode,
    },
    Cast {
        output: VarNode,
        input: VarNode,
    },
    PtrAdd {
        output: VarNode,
        input0: VarNode,
        input1: VarNode,
        input2: u16,
    },
    PtrSub {
        output: VarNode,
        input0: VarNode,
        input1: VarNode,
    },
    CPoolRef {
        input0: VarNode,
        input1: VarNode,
        inputs: Vec<VarNode>,
        output: VarNode,
    },
    New {
        output: VarNode,
        input: VarNode,
        size: Option<VarNode>,
    },
    Insert {
        output: VarNode,
        input0: VarNode,
        input1: VarNode,
        position: u8,
        size: u8,
    },
    Extract {
        output: VarNode,
        input0: VarNode,
        position: u8,
        size: u8,
    },
    PopCount {
        input: VarNode,
        output: VarNode,
    },
    LzCount {
        output: VarNode,
        input: VarNode,
    },
}

impl PcodeOperation {
    /// The location that the operation writes, if any.
    pub open spec fn spec_output(self) -> Option<GeneralizedVarNode> {
        match self {
            PcodeOperation::Copy { output, .. } => Some(GeneralizedVarNode::Direct(output)),
            PcodeOperation::Load { output, .. } => Some(GeneralizedVarNode::Direct(output)),
            PcodeOperation::Store { output, .. } => Some(GeneralizedVarNode::Indirect(output)),
            PcodeOperation::Branch { .. } => None,
            PcodeOperation::Fallthrough { .. } => None,
            PcodeOperation::CBranch { .. } => None,
            PcodeOperation::BranchInd { .. } => None,
            PcodeOperation::Call { .. } => None,
            PcodeOperation::CallInd { .. } => None,
            PcodeOperation::CallOther { output, .. } => match output {
                Some(o) => Some(GeneralizedVarNode::Direct(o)),
                None => None,
            },
            PcodeOperation::Return { .. } => None,
            PcodeOperation::IntEqual { output, .. } => Some(GeneralizedVarNode::Direct(output)),
            PcodeOperation::IntNotEqual { output, .. } => Some(GeneralizedVarNode::Direct(output)),
            PcodeOperation::IntSignedLess { output, .. } => Some(GeneralizedVarNode::Direct(output)),
            PcodeOperation::IntSignedLessEqual { output, .. } => Some(GeneralizedVarNode::Direct(output)),
            PcodeOperation::IntLess { output, .. } => Some(GeneralizedVarNode::Direct(output)),
            PcodeOperation::IntLessEqual { output, .. } => Some(GeneralizedVarNode::Direct(output)),
            PcodeOperation::IntSExt { output, .. } => Some(GeneralizedVarNode::Direct(output)),
            PcodeOperation::IntZExt { output, .. } => Some(GeneralizedVarNode::Direct(output)),
            PcodeOperation::IntAdd { output, .. } => Some(GeneralizedVarNode::Direct(output)),
            PcodeOperation::IntSub { output, .. } => Some(GeneralizedVarNode::Direct(output)),
            PcodeOperation::IntCarry { output, .. } => Some(GeneralizedVarNode::Direct(output)),
            PcodeOperation::IntSignedCarry { output, .. } => Some(GeneralizedVarNode::Direct(output)),
            PcodeOperation::IntSignedBorrow { output, .. } => Some(GeneralizedVarNode::Direct(output)),
            PcodeOperation::Int2Comp { output, .. } => Some(GeneralizedVarNode::Direct(output)),
            PcodeOperation::IntNegate { output, .. } => Some(GeneralizedVarNode::Direct(output)),
            PcodeOperation::IntXor { output, .. } => Some(GeneralizedVarNode::Direct(output)),
            PcodeOperation::IntAnd { output, .. } => Some(GeneralizedVarNode::Direct(output)),
            PcodeOperation::IntOr { output, .. } => Some(GeneralizedVarNode::Direct(output)),
            PcodeOperation::IntLeftShift { output, .. } => Some(GeneralizedVarNode::Direct(output)),
            PcodeOperation::IntRightShift { output, .. } => Some(GeneralizedVarNode::Direct(output)),
            PcodeOperation::IntSignedRightShift { output, .. } => Some(GeneralizedVarNode::Direct(output)),
            PcodeOperation::IntMult { output, .. } => Some(GeneralizedVarNode::Direct(output)),
            PcodeOperation::IntDiv { output, .. } => Some(GeneralizedVarNode::Direct(output)),
            PcodeOperation::IntSignedDiv { output, .. } => Some(GeneralizedVarNode::Direct(output)),
            PcodeOperation::IntRem { output, .. } => Some(GeneralizedVarNode::Direct(output)),
            PcodeOperation::IntSignedRem { output, .. } => Some(GeneralizedVarNode::Direct(output)),
            PcodeOperation::BoolNegate { output, .. } => Some(GeneralizedVarNode::Direct(output)),
            PcodeOperation::BoolXor { output, .. } => Some(GeneralizedVarNode::Direct(output)),
            PcodeOperation::BoolAnd { output, .. } => Some(GeneralizedVarNode::Direct(output)),
            PcodeOperation::BoolOr { output, .. } => Some(GeneralizedVarNode::Direct(output)),
            PcodeOperation::FloatEqual { output, .. } => Some(GeneralizedVarNode::Direct(output)),
            PcodeOperation::FloatNotEqual { output, .. } => Some(GeneralizedVarNode::Direct(output)),
            PcodeOperation::FloatLess { output, .. } => Some(GeneralizedVarNode::Direct(output)),
            PcodeOperation::FloatLessEqual { output, .. } => Some(GeneralizedVarNode::Direct(output)),
            PcodeOperation::FloatNaN { output, .. } => Some(GeneralizedVarNode::Direct(output)),
            PcodeOperation::FloatAdd { output, .. } => Some(GeneralizedVarNode::Direct(output)),
            PcodeOperation::FloatDiv { output, .. } => Some(GeneralizedVarNode::Direct(output)),
            PcodeOperation::FloatMult { output, .. } => Some(GeneralizedVarNode::Direct(output)),
            PcodeOperation::FloatSub { output, .. } => Some(GeneralizedVarNode::Direct(output)),
            PcodeOperation::FloatNeg { output, .. } => Some(GeneralizedVarNode::Direct(output)),
            PcodeOperation::FloatAbs { output, .. } => Some(GeneralizedVarNode::Direct(output)),
            PcodeOperation::FloatSqrt { output, .. } => Some(GeneralizedVarNode::Direct(output)),
            PcodeOperation::Int2Float { output, .. } => Some(GeneralizedVarNode::Direct(output)),
            PcodeOperation::Float2Float { output, .. } => Some(GeneralizedVarNode::Direct(output)),
            PcodeOperation::FloatTrunc { output, .. } => Some(GeneralizedVarNode::Direct(output)),
            PcodeOperation::FloatCeil { output, .. } => Some(GeneralizedVarNode::Direct(output)),
            PcodeOperation::FloatFloor { output, .. } => Some(GeneralizedVarNode::Direct(output)),
            PcodeOperation::FloatRound { output, .. } => Some(GeneralizedVarNode::Direct(output)),
            PcodeOperation::Piece { output, .. } => Some(GeneralizedVarNode::Direct(output)),
            PcodeOperation::SubPiece { output, .. } => Some(GeneralizedVarNode::Direct(output)),
            PcodeOperation::Cast { output, .. } => Some(GeneralizedVarNode::Direct(output)),
            PcodeOperation::PtrAdd { output, .. } => Some(GeneralizedVarNode::Direct(output)),
            PcodeOperation::PtrSub { output, .. } => Some(GeneralizedVarNode::Direct(output)),
            PcodeOperation::CPoolRef { output, .. } => Some(GeneralizedVarNode::Direct(output)),
            PcodeOperation::New { output, .. } => Some(GeneralizedVarNode::Direct(output)),
            PcodeOperation::Insert { output, .. } => Some(GeneralizedVarNode::Direct(output)),
            PcodeOperation::Extract { output, .. } => Some(GeneralizedVarNode::Direct(output)),
            PcodeOperation::PopCount { output, .. } => Some(GeneralizedVarNode::Direct(output)),
            PcodeOperation::LzCount { output, .. } => Some(GeneralizedVarNode::Direct(output)),
        }
    }

    pub fn output(&self) -> (r: Option<GeneralizedVarNode>)
        ensures
            r == self.spec_output(),
    {
        match self {
            PcodeOperation::Copy { output, .. } => Some(GeneralizedVarNode::Direct(*output)),
            PcodeOperation::Load { output, .. } => Some(GeneralizedVarNode::Direct(*output)),
            PcodeOperation::Store { output, .. } => Some(GeneralizedVarNode::Indirect(*output)),
            PcodeOperation::Branch { .. } => None,
            PcodeOperation::Fallthrough { .. } => None,
            PcodeOperation::CBranch { .. } => None,
            PcodeOperation::BranchInd { .. } => None,
            PcodeOperation::Call { .. } => None,
            PcodeOperation::CallInd { .. } => None,
            PcodeOperation::CallOther { output, .. } => match output {
                Some(o) => Some(GeneralizedVarNode::Direct(*o)),
                None => None,
            },
            PcodeOperation::Return { .. } => None,
            PcodeOperation::IntEqual { output, .. } => Some(GeneralizedVarNode::Direct(*output)),
            PcodeOperation::IntNotEqual { output, .. } => Some(GeneralizedVarNode::Direct(*output)),
            PcodeOperation::IntSignedLess { output, .. } => Some(GeneralizedVarNode::Direct(*output)),
            PcodeOperation::IntSignedLessEqual { output, .. } => Some(GeneralizedVarNode::Direct(*output)),
            PcodeOperation::IntLess { output, .. } => Some(GeneralizedVarNode::Direct(*output)),
            PcodeOperation::IntLessEqual { output, .. } => Some(GeneralizedVarNode::Direct(*output)),
            PcodeOperation::IntSExt { output, .. } => Some(GeneralizedVarNode::Direct(*output)),
            PcodeOperation::IntZExt { output, .. } => Some(GeneralizedVarNode::Direct(*output)),
            PcodeOperation::IntAdd { output, .. } => Some(GeneralizedVarNode::Direct(*output)),
            PcodeOperation::IntSub { output, .. } => Some(GeneralizedVarNode::Direct(*output)),
            PcodeOperation::IntCarry { output, .. } => Some(GeneralizedVarNode::Direct(*output)),
            PcodeOperation::IntSignedCarry { output, .. } => Some(GeneralizedVarNode::Direct(*output)),
            PcodeOperation::IntSignedBorrow { output, .. } => Some(GeneralizedVarNode::Direct(*output)),
            PcodeOperation::Int2Comp { output, .. } => Some(GeneralizedVarNode::Direct(*output)),
            PcodeOperation::IntNegate { output, .. } => Some(GeneralizedVarNode::Direct(*output)),
            PcodeOperation::IntXor { output, .. } => Some(GeneralizedVarNode::Direct(*output)),
            PcodeOperation::IntAnd { output, .. } => Some(GeneralizedVarNode::Direct(*output)),
            PcodeOperation::IntOr { output, .. } => Some(GeneralizedVarNode::Direct(*output)),
            PcodeOperation::IntLeftShift { output, .. } => Some(GeneralizedVarNode::Direct(*output)),
            PcodeOperation::IntRightShift { output, .. } => Some(GeneralizedVarNode::Direct(*output)),
            PcodeOperation::IntSignedRightShift { output, .. } => Some(GeneralizedVarNode::Direct(*output)),
            PcodeOperation::IntMult { output, .. } => Some(GeneralizedVarNode::Direct(*output)),
            PcodeOperation::IntDiv { output, .. } => Some(GeneralizedVarNode::Direct(*output)),
            PcodeOperation::IntSignedDiv { output, .. } => Some(GeneralizedVarNode::Direct(*output)),
            PcodeOperation::IntRem { output, .. } => Some(GeneralizedVarNode::Direct(*output)),
            PcodeOperation::IntSignedRem { output, .. } => Some(GeneralizedVarNode::Direct(*output)),
            PcodeOperation::BoolNegate { output, .. } => Some(GeneralizedVarNode::Direct(*output)),
            PcodeOperation::BoolXor { output, .. } => Some(GeneralizedVarNode::Direct(*output)),
            PcodeOperation::BoolAnd { output, .. } => Some(GeneralizedVarNode::Direct(*output)),
            PcodeOperation::BoolOr { output, .. } => Some(GeneralizedVarNode::Direct(*output)),
            PcodeOperation::FloatEqual { output, .. } => Some(GeneralizedVarNode::Direct(*output)),
            PcodeOperation::FloatNotEqual { output, .. } => Some(GeneralizedVarNode::Direct(*output)),
            PcodeOperation::FloatLess { output, .. } => Some(GeneralizedVarNode::Direct(*output)),
            PcodeOperation::FloatLessEqual { output, .. } => Some(GeneralizedVarNode::Direct(*output)),
            PcodeOperation::FloatNaN { output, .. } => Some(GeneralizedVarNode::Direct(*output)),
            PcodeOperation::FloatAdd { output, .. } => Some(GeneralizedVarNode::Direct(*output)),
            PcodeOperation::FloatDiv { output, .. } => Some(GeneralizedVarNode::Direct(*output)),
            PcodeOperation::FloatMult { output, .. } => Some(GeneralizedVarNode::Direct(*output)),
            PcodeOperation::FloatSub { output, .. } => Some(GeneralizedVarNode::Direct(*output)),
            PcodeOperation::FloatNeg { output, .. } => Some(GeneralizedVarNode::Direct(*output)),
            PcodeOperation::FloatAbs { output, .. } => Some(GeneralizedVarNode::Direct(*output)),
            PcodeOperation::FloatSqrt { output, .. } => Some(GeneralizedVarNode::Direct(*output)),
            PcodeOperation::Int2Float { output, .. } => Some(GeneralizedVarNode::Direct(*output)),
            PcodeOperation::Float2Float { output, .. } => Some(GeneralizedVarNode::Direct(*output)),
            PcodeOperation::FloatTrunc { output, .. } => Some(GeneralizedVarNode::Direct(*output)),
            PcodeOperation::FloatCeil { output, .. } => Some(GeneralizedVarNode::Direct(*output)),
            PcodeOperation::FloatFloor { output, .. } => Some(GeneralizedVarNode::Direct(*output)),
            PcodeOperation::FloatRound { output, .. } => Some(GeneralizedVarNode::Direct(*output)),
            PcodeOperation::Piece { output, .. } => Some(GeneralizedVarNode::Direct(*output)),
            PcodeOperation::SubPiece { output, .. } => Some(GeneralizedVarNode::Direct(*output)),
            PcodeOperation::Cast { output, .. } => Some(GeneralizedVarNode::Direct(*output)),
            PcodeOperation::PtrAdd { output, .. } => Some(GeneralizedVarNode::Direct(*output)),
            PcodeOperation::PtrSub { output, .. } => Some(GeneralizedVarNode::Direct(*output)),
            PcodeOperation::CPoolRef { output, .. } => Some(GeneralizedVarNode::Direct(*output)),
            PcodeOperation::New { output, .. } => Some(GeneralizedVarNode::Direct(*output)),
            PcodeOperation::Insert { output, .. } => Some(GeneralizedVarNode::Direct(*output)),
            PcodeOperation::Extract { output, .. } => Some(GeneralizedVarNode::Direct(*output)),
            PcodeOperation::PopCount { output, .. } => Some(GeneralizedVarNode::Direct(*output)),
            PcodeOperation::LzCount { output, .. } => Some(GeneralizedVarNode::Direct(*output)),
        }
    }
}

} // verus!
