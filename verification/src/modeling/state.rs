//! The modelled machine state of a trace: for each address space an array
//! of data bytes and an array of one metadata bit per byte, each given as
//! its initial contents and the log of stores made to it since.
use crate::modeling::branch::{BlockConditionalBranchInfo, BlockEndBehavior, BranchConstraint};
use crate::modeling::term::{ArrayRef, BinaryOp, Term, bin, cst, plus};
use crate::sleigh::{CONST_SPACE_INDEX, GeneralizedVarNode, IndirectVarNode, VarNode};
use vstd::prelude::*;

verus! {

/// What the model needs of an address space.
#[derive(Debug, Clone, Copy, PartialEq, Eq, Structural)]
pub struct SpaceDesc {
    /// The space holds constants: reading a varnode gives its offset.
    pub is_constant: bool,
    /// The width of an address in the space, in bytes.
    pub index_size_bytes: u32,
    /// Multi-byte values are stored most significant byte first.
    pub big_endian: bool,
}

/// One store into an array: `value` at `offset` of the data bytes (or the
/// metadata bits, when `meta`) of `space`.
#[derive(Debug, PartialEq, Eq)]
pub struct Store {
    pub space: usize,
    pub meta: bool,
    pub offset: Term,
    pub value: Term,
}

/// A location read or written by a trace, with the pointer of an indirect
/// access given by the term it evaluated to.
#[derive(Debug, PartialEq, Eq)]
pub enum ResolvedVarnode {
    Direct(VarNode),
    Indirect { pointer: Term, pointer_location: VarNode, access_size_bytes: usize, pointer_space_idx: usize },
}

/// Why modelling an operation failed.
#[derive(Debug, Clone, Copy, PartialEq, Eq, Structural)]
pub enum ModelError {
    /// Something referenced a space that isn't declared.
    UnmodeledSpace,
    /// Something tried to access a 0-sized varnode.
    ZeroSizedVarnode,
    /// Cannot write values into constant space.
    ConstantWrite,
    /// Attempt to read an indirect value from the constant space.
    IndirectConstantRead,
    /// A value was written to a varnode of another width.
    MismatchedWordSize,
    /// An address of the wrong width was used in a space.
    MismatchedAddressSize,
    /// The operation is not modelled.
    UnmodeledInstruction,
    /// An indirect branch target is not a machine address.
    InvalidBranchTargetSize,
}

/// A trace being modelled: the spaces, the code space, the store logs of the
/// original and the current state, the locations read and written so far, in
/// order, and how the trace ends.
#[derive(Debug)]
pub struct TraceModel {
    pub spaces: Vec<SpaceDesc>,
    pub code_space: usize,
    pub original: Vec<Store>,
    pub log: Vec<Store>,
    pub inputs: Vec<ResolvedVarnode>,
    pub outputs: Vec<ResolvedVarnode>,
    pub branch: BranchConstraint,
}

/// The mathematical content of a `TraceModel`.
pub struct TraceView {
    pub spaces: Seq<SpaceDesc>,
    pub code_space: usize,
    pub original: Seq<Store>,
    pub log: Seq<Store>,
    pub inputs: Seq<ResolvedVarnode>,
    pub outputs: Seq<ResolvedVarnode>,
    pub last: BlockEndBehavior,
    pub conds: Seq<BlockConditionalBranchInfo>,
}

impl TraceModel {
    pub open spec fn view(&self) -> TraceView {
        TraceView {
            spaces: self.spaces@,
            code_space: self.code_space,
            original: self.original@,
            log: self.log@,
            inputs: self.inputs@,
            outputs: self.outputs@,
            last: self.branch.last,
            conds: self.branch.conditional_branches@,
        }
    }

    /// The constant space is space 0, the code space exists, and every space
    /// has addresses of one to eight bytes.
    pub open spec fn wf(&self) -> bool {
        trace_wf(self.view())
    }
}

pub open spec fn trace_wf(v: TraceView) -> bool {
    &&& CONST_SPACE_INDEX < v.spaces.len()
    &&& v.spaces[CONST_SPACE_INDEX as int].is_constant
    &&& v.code_space < v.spaces.len()
    &&& forall|i: int| 0 <= i < v.spaces.len() ==> 1 <= #[trigger] v.spaces[i].index_size_bytes <= 8
}

/// The outcome of a step: the state after it, and its result.
pub type Step<T> = (TraceView, Result<T, ModelError>);

/// The description of space `s`, if it is declared.
pub open spec fn space_of(v: TraceView, s: usize) -> Option<SpaceDesc> {
    if s < v.spaces.len() { Some(v.spaces[s as int]) } else { None }
}

/// The width of an address of `d`, in bits.
pub open spec fn index_bits(d: SpaceDesc) -> u32 {
    (d.index_size_bytes * 8) as u32
}

/// The current data (or metadata) array of `space`.
pub open spec fn current_array(v: TraceView, space: usize, meta: bool) -> ArrayRef {
    ArrayRef { base: 0, original: false, space, meta, version: v.log.len() as usize }
}

/// The bytes (or bits) `offset + 0 .. offset + n` of `array`, joined in
/// the order of the endianness: the first element lowest when little endian.
pub open spec fn read_elems(array: ArrayRef, offset: Term, bits: u32, n: nat, big: bool) -> Term
    decreases n,
{
    let sel0 = Term::Select { array, offset: Box::new(plus(offset, 0, bits)) };
    if n <= 1 {
        sel0
    } else {
        let acc = read_elems(array, offset, bits, (n - 1) as nat, big);
        let next = Term::Select { array, offset: Box::new(plus(offset, (n - 1) as u64, bits)) };
        if big { bin(BinaryOp::Concat, acc, next) } else { bin(BinaryOp::Concat, next, acc) }
    }
}

/// Reading `n` elements of `array` in a space described by `d`, at an
/// offset that is `offset_bits` wide.
pub open spec fn read_array(d: SpaceDesc, array: ArrayRef, offset: Term, offset_bits: u32, n: usize) -> Result<Term, ModelError> {
    if offset_bits != index_bits(d) {
        Err(ModelError::MismatchedAddressSize)
    } else if n == 0 {
        Err(ModelError::ZeroSizedVarnode)
    } else {
        Ok(read_elems(array, offset, offset_bits, n as nat, d.big_endian))
    }
}

/// The value of `vn` in the current state.
pub open spec fn spec_read_varnode(v: TraceView, vn: VarNode) -> Result<Term, ModelError> {
    match space_of(v, vn.space_index) {
        None => Err(ModelError::UnmodeledSpace),
        Some(d) => if d.is_constant {
            Ok(cst(vn.offset, (vn.size * 8) as u32))
        } else {
            read_array(d, current_array(v, vn.space_index, false), cst(vn.offset, index_bits(d)), index_bits(d), vn.size)
        },
    }
}

/// The metadata of `vn` in the original state.
pub open spec fn spec_read_original_metadata(v: TraceView, vn: VarNode) -> Result<Term, ModelError> {
    match space_of(v, vn.space_index) {
        None => Err(ModelError::UnmodeledSpace),
        Some(d) => read_array(
            d,
            ArrayRef { base: 0, original: true, space: vn.space_index, meta: true, version: v.original.len() as usize },
            cst(vn.offset, index_bits(d)),
            index_bits(d),
            vn.size,
        ),
    }
}

/// The value reached through the pointer of `ind` in the current state.
pub open spec fn spec_read_indirect(v: TraceView, ind: IndirectVarNode) -> Result<Term, ModelError> {
    match space_of(v, ind.pointer_space_index) {
        None => Err(ModelError::UnmodeledSpace),
        Some(d) => if d.is_constant {
            Err(ModelError::IndirectConstantRead)
        } else {
            match spec_read_varnode(v, ind.pointer_location) {
                Err(e) => Err(e),
                Ok(p) => read_array(
                    d,
                    current_array(v, ind.pointer_space_index, false),
                    p,
                    (ind.pointer_location.size * 8) as u32,
                    ind.access_size_bytes,
                ),
            }
        },
    }
}

/// `v` with `r` recorded as read.
pub open spec fn with_input(v: TraceView, r: ResolvedVarnode) -> TraceView {
    TraceView { inputs: v.inputs.push(r), ..v }
}

/// `v` with `r` recorded as written.
pub open spec fn with_output(v: TraceView, r: ResolvedVarnode) -> TraceView {
    TraceView { outputs: v.outputs.push(r), ..v }
}

/// Reading `g`, recording what is read: the varnode, or for an indirect
/// access the pointer's location and then the resolved access.
pub open spec fn spec_read_and_track(v: TraceView, g: GeneralizedVarNode) -> Step<Term> {
    match g {
        GeneralizedVarNode::Direct(d) => (with_input(v, ResolvedVarnode::Direct(d)), spec_read_varnode(v, d)),
        GeneralizedVarNode::Indirect(ind) => {
            let v1 = with_input(v, ResolvedVarnode::Direct(ind.pointer_location));
            match spec_read_varnode(v, ind.pointer_location) {
                Err(e) => (v1, Err(e)),
                Ok(p) => (
                    with_input(v1, ResolvedVarnode::Indirect {
                        pointer: p,
                        pointer_location: ind.pointer_location,
                        access_size_bytes: ind.access_size_bytes,
                        pointer_space_idx: ind.pointer_space_index,
                    }),
                    spec_read_indirect(v, ind),
                ),
            }
        },
    }
}

/// The log `log` followed by the stores of the `k` lowest elements (of `w`
/// bits each) of `value`, `bits` wide, at `offset`, `offset + 1`, ...
pub open spec fn stores_of(
    log: Seq<Store>,
    space: usize,
    meta: bool,
    offset: Term,
    offset_bits: u32,
    value: Term,
    bits: u32,
    w: u32,
    big: bool,
    k: nat,
) -> Seq<Store>
    decreases k,
{
    if k == 0 {
        log
    } else {
        let prev = stores_of(log, space, meta, offset, offset_bits, value, bits, w, big, (k - 1) as nat);
        let i = k - 1;
        let high = if big { bits - w * i - 1 } else { w * (i + 1) - 1 };
        let low = if big { bits - w * (i + 1) } else { w * i };
        prev.push(Store {
            space,
            meta,
            offset: plus(offset, i as u64, offset_bits),
            value: Term::Extract { high: high as u32, low: low as u32, arg: Box::new(value) },
        })
    }
}

/// Writing `value`, `bits` wide, into the data bytes (or the metadata bits,
/// when `meta`) of `space`, described by `d`, at `offset`.
pub open spec fn spec_write_array(
    v: TraceView,
    space: usize,
    d: SpaceDesc,
    meta: bool,
    offset: Term,
    offset_bits: u32,
    value: Term,
    bits: u32,
) -> Step<()> {
    if offset_bits != index_bits(d) {
        (v, Err(ModelError::MismatchedAddressSize))
    } else {
        let w: u32 = if meta { 1 } else { 8 };
        (
            TraceView { log: stores_of(v.log, space, meta, offset, offset_bits, value, bits, w, d.big_endian, (bits / w) as nat), ..v },
            Ok(()),
        )
    }
}

/// Writing `value`, `bits` wide, to `dest`.
pub open spec fn spec_write_varnode(v: TraceView, dest: VarNode, value: Term, bits: u32) -> Step<()> {
    if dest.size * 8 != bits {
        (v, Err(ModelError::MismatchedWordSize))
    } else {
        match space_of(v, dest.space_index) {
            None => (v, Err(ModelError::UnmodeledSpace)),
            Some(d) => if d.is_constant {
                (v, Err(ModelError::ConstantWrite))
            } else {
                spec_write_array(v, dest.space_index, d, false, cst(dest.offset, index_bits(d)), index_bits(d), value, bits)
            },
        }
    }
}

/// Writing the metadata `value`, `bits` wide, of `dest` (also in the
/// constant space).
pub open spec fn spec_write_metadata(v: TraceView, dest: VarNode, value: Term, bits: u32) -> Step<()> {
    if dest.size != bits {
        (v, Err(ModelError::MismatchedWordSize))
    } else {
        match space_of(v, dest.space_index) {
            None => (v, Err(ModelError::UnmodeledSpace)),
            Some(d) => spec_write_array(v, dest.space_index, d, true, cst(dest.offset, index_bits(d)), index_bits(d), value, bits),
        }
    }
}

/// Writing `value`, `bits` wide, through the pointer of `dest`.
pub open spec fn spec_write_indirect(v: TraceView, dest: IndirectVarNode, value: Term, bits: u32) -> Step<()> {
    match space_of(v, dest.pointer_space_index) {
        None => (v, Err(ModelError::UnmodeledSpace)),
        Some(d) => if d.is_constant {
            (v, Err(ModelError::ConstantWrite))
        } else {
            match spec_read_varnode(v, dest.pointer_location) {
                Err(e) => (v, Err(e)),
                Ok(p) => spec_write_array(v, dest.pointer_space_index, d, false, p, (dest.pointer_location.size * 8) as u32, value, bits),
            }
        },
    }
}

/// Writing `value`, `bits` wide, to `g`, recording what is written (and, for
/// an indirect write, the pointer read).
pub open spec fn spec_write(v: TraceView, g: GeneralizedVarNode, value: Term, bits: u32) -> Step<()> {
    match g {
        GeneralizedVarNode::Direct(d) => spec_write_varnode(with_output(v, ResolvedVarnode::Direct(d)), d, value, bits),
        GeneralizedVarNode::Indirect(ind) => {
            let (v1, r) = spec_read_and_track(v, GeneralizedVarNode::Direct(ind.pointer_location));
            match r {
                Err(e) => (v1, Err(e)),
                Ok(p) => spec_write_indirect(
                    with_output(v1, ResolvedVarnode::Indirect {
                        pointer: p,
                        pointer_location: ind.pointer_location,
                        access_size_bytes: ind.access_size_bytes,
                        pointer_space_idx: ind.pointer_space_index,
                    }),
                    ind,
                    value,
                    bits,
                ),
            }
        },
    }
}

/// The varnode is non-empty and its width in bits fits a `u32`.
pub open spec fn vn_sized(vn: VarNode) -> bool {
    1 <= vn.size && vn.size * 8 <= u32::MAX
}

impl TraceModel {
    /// A fresh trace over `spaces`: nothing stored, read or written, and a
    /// block that falls through to `fallthrough`.
    pub fn new(spaces: Vec<SpaceDesc>, code_space: usize, fallthrough: &VarNode) -> (r: Self)
        ensures
            r.view().spaces == spaces@,
            r.view().code_space == code_space,
            r.view().original.len() == 0,
            r.view().log.len() == 0,
            r.view().inputs.len() == 0,
            r.view().outputs.len() == 0,
            r.view().last == BlockEndBehavior::Fallthrough(*fallthrough),
            r.view().conds.len() == 0,
    {
        TraceModel {
            spaces,
            code_space,
            original: Vec::new(),
            log: Vec::new(),
            inputs: Vec::new(),
            outputs: Vec::new(),
            branch: BranchConstraint::new(fallthrough),
        }
    }

    /// The description of space `s`, if it is declared.
    fn space(&self, s: usize) -> (r: Option<SpaceDesc>)
        ensures
            r == space_of(self.view(), s),
    {
        if s < self.spaces.len() {
            Some(self.spaces[s])
        } else {
            None
        }
    }

    /// Reads `n` elements of `array` at `offset`.
    pub(crate) fn read_array(d: SpaceDesc, array: ArrayRef, offset: &Term, offset_bits: u32, n: usize) -> (r: Result<Term, ModelError>)
        requires
            1 <= d.index_size_bytes <= 8,
        ensures
            r == read_array(d, array, *offset, offset_bits, n),
    {
        if offset_bits != d.index_size_bytes * 8 {
            return Err(ModelError::MismatchedAddressSize);
        }
        if n == 0 {
            return Err(ModelError::ZeroSizedVarnode);
        }
        let mut acc = Term::Select {
            array,
            offset: Box::new(Term::Binary {
                op: BinaryOp::Add,
                lhs: Box::new(offset.copy()),
                rhs: Box::new(Term::Const { value: 0, bits: offset_bits }),
            }),
        };
        let mut i: usize = 1;
        while i < n
            invariant
                1 <= i <= n,
                acc == read_elems(array, *offset, offset_bits, i as nat, d.big_endian),
            decreases n - i,
        {
            let next = Term::Select {
                array,
                offset: Box::new(Term::Binary {
                    op: BinaryOp::Add,
                    lhs: Box::new(offset.copy()),
                    rhs: Box::new(Term::Const { value: i as u64, bits: offset_bits }),
                }),
            };
            acc = if d.big_endian {
                Term::Binary { op: BinaryOp::Concat, lhs: Box::new(acc), rhs: Box::new(next) }
            } else {
                Term::Binary { op: BinaryOp::Concat, lhs: Box::new(next), rhs: Box::new(acc) }
            };
            i = i + 1;
        }
        Ok(acc)
    }

    /// The value of `vn` in the current state.
    pub fn read_varnode(&self, vn: &VarNode) -> (r: Result<Term, ModelError>)
        requires
            self.wf(),
            vn.size * 8 <= u32::MAX,
        ensures
            r == spec_read_varnode(self.view(), *vn),
    {
        match self.space(vn.space_index) {
            None => Err(ModelError::UnmodeledSpace),
            Some(d) => {
                if d.is_constant {
                    Ok(Term::Const { value: vn.offset, bits: (vn.size * 8) as u32 })
                } else {
                    let bits = d.index_size_bytes * 8;
                    let array = ArrayRef { base: 0, original: false, space: vn.space_index, meta: false, version: self.log.len() };
                    Self::read_array(d, array, &Term::Const { value: vn.offset, bits }, bits, vn.size)
                }
            },
        }
    }

    /// The metadata of `vn` in the original state.
    pub(crate) fn read_original_metadata(&self, vn: &VarNode) -> (r: Result<Term, ModelError>)
        requires
            self.wf(),
        ensures
            r == spec_read_original_metadata(self.view(), *vn),
    {
        match self.space(vn.space_index) {
            None => Err(ModelError::UnmodeledSpace),
            Some(d) => {
                let bits = d.index_size_bytes * 8;
                let array = ArrayRef { base: 0, original: true, space: vn.space_index, meta: true, version: self.original.len() };
                Self::read_array(d, array, &Term::Const { value: vn.offset, bits }, bits, vn.size)
            },
        }
    }

    /// The value reached through the pointer of `ind` in the current state.
    fn read_indirect(&self, ind: &IndirectVarNode) -> (r: Result<Term, ModelError>)
        requires
            self.wf(),
            ind.pointer_location.size * 8 <= u32::MAX,
        ensures
            r == spec_read_indirect(self.view(), *ind),
    {
        match self.space(ind.pointer_space_index) {
            None => Err(ModelError::UnmodeledSpace),
            Some(d) => {
                if d.is_constant {
                    return Err(ModelError::IndirectConstantRead);
                }
                let p = match self.read_varnode(&ind.pointer_location) {
                    Ok(p) => p,
                    Err(e) => return Err(e),
                };
                let array = ArrayRef { base: 0, original: false, space: ind.pointer_space_index, meta: false, version: self.log.len() };
                Self::read_array(d, array, &p, (ind.pointer_location.size * 8) as u32, ind.access_size_bytes)
            },
        }
    }
}

impl TraceModel {
    /// Writes `value`, `bits` wide, into the data bytes (or the metadata bits,
    /// when `meta`) of `space`, described by `d`, at `offset`.
    fn write_array(
        &mut self,
        space: usize,
        d: SpaceDesc,
        meta: bool,
        offset: &Term,
        offset_bits: u32,
        value: &Term,
        bits: u32,
    ) -> (r: Result<(), ModelError>)
        requires
            1 <= d.index_size_bytes <= 8,
        ensures
            (final(self).view(), r) == spec_write_array(old(self).view(), space, d, meta, *offset, offset_bits, *value, bits),
    {
        if offset_bits != d.index_size_bytes * 8 {
            return Err(ModelError::MismatchedAddressSize);
        }
        push_stores(&mut self.log, space, meta, offset, offset_bits, value, bits, d.big_endian);
        Ok(())
    }

    /// Writes `value`, `bits` wide, to `dest`.
    fn write_varnode(&mut self, dest: &VarNode, value: &Term, bits: u32) -> (r: Result<(), ModelError>)
        requires
            old(self).wf(),
        ensures
            (final(self).view(), r) == spec_write_varnode(old(self).view(), *dest, *value, bits),
    {
        if dest.size as u64 > 0x2000_0000 || (dest.size as u64) * 8 != bits as u64 {
            return Err(ModelError::MismatchedWordSize);
        }
        match self.space(dest.space_index) {
            None => Err(ModelError::UnmodeledSpace),
            Some(d) => {
                if d.is_constant {
                    return Err(ModelError::ConstantWrite);
                }
                let ib = d.index_size_bytes * 8;
                self.write_array(dest.space_index, d, false, &Term::Const { value: dest.offset, bits: ib }, ib, value, bits)
            },
        }
    }

    /// Writes the metadata `value`, `bits` wide, of `dest`.
    pub(crate) fn write_metadata(&mut self, dest: &VarNode, value: &Term, bits: u32) -> (r: Result<(), ModelError>)
        requires
            old(self).wf(),
        ensures
            (final(self).view(), r) == spec_write_metadata(old(self).view(), *dest, *value, bits),
    {
        if dest.size != bits as usize {
            return Err(ModelError::MismatchedWordSize);
        }
        match self.space(dest.space_index) {
            None => Err(ModelError::UnmodeledSpace),
            Some(d) => {
                let ib = d.index_size_bytes * 8;
                self.write_array(dest.space_index, d, true, &Term::Const { value: dest.offset, bits: ib }, ib, value, bits)
            },
        }
    }

    /// Writes `value`, `bits` wide, through the pointer of `dest`.
    fn write_indirect(&mut self, dest: &IndirectVarNode, value: &Term, bits: u32) -> (r: Result<(), ModelError>)
        requires
            old(self).wf(),
            dest.pointer_location.size * 8 <= u32::MAX,
        ensures
            (final(self).view(), r) == spec_write_indirect(old(self).view(), *dest, *value, bits),
    {
        match self.space(dest.pointer_space_index) {
            None => Err(ModelError::UnmodeledSpace),
            Some(d) => {
                if d.is_constant {
                    return Err(ModelError::ConstantWrite);
                }
                let p = match self.read_varnode(&dest.pointer_location) {
                    Ok(p) => p,
                    Err(e) => return Err(e),
                };
                self.write_array(dest.pointer_space_index, d, false, &p, (dest.pointer_location.size * 8) as u32, value, bits)
            },
        }
    }

    /// Reads `g`, recording what is read.
    pub fn read_and_track(&mut self, g: &GeneralizedVarNode) -> (r: Result<Term, ModelError>)
        requires
            old(self).wf(),
            match *g {
                GeneralizedVarNode::Direct(d) => d.size * 8 <= u32::MAX,
                GeneralizedVarNode::Indirect(i) => i.pointer_location.size * 8 <= u32::MAX,
            },
        ensures
            (final(self).view(), r) == spec_read_and_track(old(self).view(), *g),
            final(self).wf(),
    {
        match g {
            GeneralizedVarNode::Direct(d) => {
                self.inputs.push(ResolvedVarnode::Direct(*d));
                self.read_varnode(d)
            },
            GeneralizedVarNode::Indirect(ind) => {
                self.inputs.push(ResolvedVarnode::Direct(ind.pointer_location));
                let p = match self.read_varnode(&ind.pointer_location) {
                    Ok(p) => p,
                    Err(e) => return Err(e),
                };
                self.inputs.push(ResolvedVarnode::Indirect {
                    pointer: p,
                    pointer_location: ind.pointer_location,
                    access_size_bytes: ind.access_size_bytes,
                    pointer_space_idx: ind.pointer_space_index,
                });
                self.read_indirect(ind)
            },
        }
    }

    /// Writes `value`, `bits` wide, to `g`, recording what is written.
    pub fn write(&mut self, g: &GeneralizedVarNode, value: &Term, bits: u32) -> (r: Result<(), ModelError>)
        requires
            old(self).wf(),
            match *g {
                GeneralizedVarNode::Direct(d) => true,
                GeneralizedVarNode::Indirect(i) => i.pointer_location.size * 8 <= u32::MAX,
            },
        ensures
            (final(self).view(), r) == spec_write(old(self).view(), *g, *value, bits),
            final(self).wf(),
    {
        match g {
            GeneralizedVarNode::Direct(d) => {
                self.outputs.push(ResolvedVarnode::Direct(*d));
                self.write_varnode(d, value, bits)
            },
            GeneralizedVarNode::Indirect(ind) => {
                let p = match self.read_and_track(&GeneralizedVarNode::Direct(ind.pointer_location)) {
                    Ok(p) => p,
                    Err(e) => return Err(e),
                };
                self.outputs.push(ResolvedVarnode::Indirect {
                    pointer: p,
                    pointer_location: ind.pointer_location,
                    access_size_bytes: ind.access_size_bytes,
                    pointer_space_idx: ind.pointer_space_index,
                });
                self.write_indirect(ind, value, bits)
            },
        }
    }
}

/// Appends to `log` the stores of `value`, `bits` wide, element by element
/// (bytes, or bits when `meta`) at `offset`, `offset + 1`, ...
pub fn push_stores(
    log: &mut Vec<Store>,
    space: usize,
    meta: bool,
    offset: &Term,
    offset_bits: u32,
    value: &Term,
    bits: u32,
    big: bool,
)
    ensures
        final(log)@ == stores_of(old(log)@, space, meta, *offset, offset_bits, *value, bits, if meta { 1u32 } else { 8u32 }, big, (bits / (if meta { 1u32 } else { 8u32 })) as nat),
{
    let ghost l0 = log@;
    let w: u32 = if meta { 1 } else { 8 };
    let n: u32 = bits / w;
    let mut k: u32 = 0;
    while k < n
        invariant
            k <= n == bits / w,
            w == (if meta { 1u32 } else { 8u32 }),
            log@ == stores_of(l0, space, meta, *offset, offset_bits, *value, bits, w, big, k as nat),
        decreases n - k,
    {
        assert(w * (k + 1) <= bits) by (nonlinear_arith)
            requires
                k < n,
                n == bits / w,
                w == 1 || w == 8,
        ;
        let high: u32 = if big { bits - w * k - 1 } else { w * (k + 1) - 1 };
        let low: u32 = if big { bits - w * (k + 1) } else { w * k };
        log.push(Store {
            space,
            meta,
            offset: Term::Binary {
                op: BinaryOp::Add,
                lhs: Box::new(offset.copy()),
                rhs: Box::new(Term::Const { value: k as u64, bits: offset_bits }),
            },
            value: Term::Extract { high, low, arg: Box::new(value.copy()) },
        });
        k = k + 1;
    }
}

impl Store {
    /// A copy of the store.
    pub fn copy(&self) -> (r: Store)
        ensures
            r == *self,
    {
        Store { space: self.space, meta: self.meta, offset: self.offset.copy(), value: self.value.copy() }
    }
}

/// A copy of `log`.
pub fn copy_log(log: &Vec<Store>) -> (r: Vec<Store>)
    ensures
        r@ == log@,
{
    let mut out: Vec<Store> = Vec::new();
    let mut k: usize = 0;
    while k < log.len()
        invariant
            k <= log@.len(),
            out@ == log@.take(k as int),
        decreases log@.len() - k,
    {
        out.push(log[k].copy());
        proof {
            assert(log@.take(k + 1) == log@.take(k as int).push(log@[k as int]));
        }
        k = k + 1;
    }
    proof {
        assert(log@.take(log@.len() as int) == log@);
    }
    out
}

} // verus!
