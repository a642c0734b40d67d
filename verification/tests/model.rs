use jingle::modeling::branch::BlockEndBehavior;
use jingle::modeling::model::hash_inputs;
use jingle::modeling::state::{ModelError, ResolvedVarnode, SpaceDesc, TraceModel};
use jingle::modeling::term::{ArrayRef, BinaryOp, Term};
use jingle::sleigh::{GeneralizedVarNode, IndirectVarNode, PcodeOperation, VarNode};

fn spaces(ram_big_endian: bool) -> Vec<SpaceDesc> {
    vec![
        SpaceDesc { is_constant: true, index_size_bytes: 8, big_endian: false },
        SpaceDesc { is_constant: false, index_size_bytes: 4, big_endian: ram_big_endian },
        SpaceDesc { is_constant: false, index_size_bytes: 4, big_endian: false },
    ]
}

fn fresh() -> TraceModel {
    TraceModel::new(spaces(false), 1, &VarNode::new(0x1004, 4, 1))
}

fn reg(offset: u64, size: usize) -> VarNode {
    VarNode::new(offset, size, 2)
}

fn cst(value: u64, bits: u32) -> Term {
    Term::Const { value, bits }
}

fn add(a: Term, b: Term) -> Term {
    Term::Binary { op: BinaryOp::Add, lhs: Box::new(a), rhs: Box::new(b) }
}

fn concat(a: Term, b: Term) -> Term {
    Term::Binary { op: BinaryOp::Concat, lhs: Box::new(a), rhs: Box::new(b) }
}

fn select(array: ArrayRef, offset: Term) -> Term {
    Term::Select { array, offset: Box::new(offset) }
}

/// The little-endian read of `n` bytes of `space` at `offset` (32-bit
/// addresses) after `version` stores.
fn read_le(space: usize, version: usize, offset: Term, n: u64) -> Term {
    let array = ArrayRef { base: 0, original: false, space, meta: false, version };
    let mut acc = select(array, add(offset.copy(), cst(0, 32)));
    for i in 1..n {
        acc = concat(select(array, add(offset.copy(), cst(i, 32))), acc);
    }
    acc
}

#[test]
fn int_add_reads_both_inputs_and_stores_the_sum_bytewise() {
    let mut t = fresh();
    let op = PcodeOperation::IntAdd { output: reg(8, 4), input0: reg(0, 4), input1: reg(4, 4) };
    assert_eq!(t.model_pcode_op(&op), Ok(()));
    assert_eq!(t.inputs, vec![ResolvedVarnode::Direct(reg(0, 4)), ResolvedVarnode::Direct(reg(4, 4))]);
    assert_eq!(t.outputs, vec![ResolvedVarnode::Direct(reg(8, 4))]);
    assert_eq!(t.log.len(), 4);
    let sum = add(read_le(2, 0, cst(0, 32), 4), read_le(2, 0, cst(4, 32), 4));
    for (i, store) in t.log.iter().enumerate() {
        assert_eq!(store.space, 2);
        assert!(!store.meta);
        assert_eq!(store.offset, add(cst(8, 32), cst(i as u64, 32)));
        let low = 8 * i as u32;
        assert_eq!(store.value, Term::Extract { high: low + 7, low, arg: Box::new(sum.copy()) });
    }
}

#[test]
fn later_reads_see_the_stores_made_before_them() {
    let mut t = fresh();
    let first = PcodeOperation::IntAdd { output: reg(8, 4), input0: reg(0, 4), input1: reg(4, 4) };
    let second = PcodeOperation::IntSub { output: reg(12, 4), input0: reg(8, 4), input1: reg(8, 4) };
    assert_eq!(t.model_pcode_op(&first), Ok(()));
    assert_eq!(t.model_pcode_op(&second), Ok(()));
    assert_eq!(t.log.len(), 8);
    let later = read_le(2, 4, cst(8, 32), 4);
    let diff = Term::Binary { op: BinaryOp::Sub, lhs: Box::new(later.copy()), rhs: Box::new(later) };
    assert_eq!(t.log[4].value, Term::Extract { high: 7, low: 0, arg: Box::new(diff) });
}

#[test]
fn constants_read_as_their_offset() {
    let mut t = fresh();
    let op = PcodeOperation::IntAdd {
        output: reg(0, 4),
        input0: VarNode::new_const(5, 4),
        input1: VarNode::new_const(7, 4),
    };
    assert_eq!(t.model_pcode_op(&op), Ok(()));
    assert_eq!(t.log[0].value, Term::Extract { high: 7, low: 0, arg: Box::new(add(cst(5, 32), cst(7, 32))) });
}

#[test]
fn big_endian_spaces_store_the_high_byte_first() {
    let mut t = TraceModel::new(spaces(true), 1, &VarNode::new(0, 4, 1));
    let op = PcodeOperation::Copy { input: VarNode::new_const(0xdead_beef, 4), output: VarNode::new(0x10, 4, 1) };
    assert_eq!(t.model_pcode_op(&op), Ok(()));
    // four metadata bits, then four data bytes
    assert_eq!(t.log.len(), 8);
    assert!(t.log[0].meta);
    assert!(!t.log[4].meta);
    assert_eq!(t.log[4].value, Term::Extract { high: 31, low: 24, arg: Box::new(cst(0xdead_beef, 32)) });
    assert_eq!(t.log[7].value, Term::Extract { high: 7, low: 0, arg: Box::new(cst(0xdead_beef, 32)) });
}

#[test]
fn writing_a_constant_fails() {
    let mut t = fresh();
    let op = PcodeOperation::IntAdd { output: VarNode::new_const(0, 4), input0: reg(0, 4), input1: reg(4, 4) };
    assert_eq!(t.model_pcode_op(&op), Err(ModelError::ConstantWrite));
    assert_eq!(t.log.len(), 0);
    assert_eq!(t.outputs.len(), 1);
}

#[test]
fn writing_a_value_of_another_width_fails() {
    let mut t = fresh();
    let op = PcodeOperation::IntAdd { output: reg(8, 2), input0: reg(0, 4), input1: reg(4, 4) };
    assert_eq!(t.model_pcode_op(&op), Err(ModelError::MismatchedWordSize));
    assert_eq!(t.log.len(), 0);
    let op = PcodeOperation::IntLess { output: reg(8, 4), input0: reg(0, 4), input1: reg(4, 4) };
    assert_eq!(t.model_pcode_op(&op), Err(ModelError::MismatchedWordSize));
    let op = PcodeOperation::IntLess { output: reg(8, 1), input0: reg(0, 4), input1: reg(4, 4) };
    assert_eq!(t.model_pcode_op(&op), Ok(()));
}

#[test]
fn unknown_spaces_fail() {
    let mut t = fresh();
    let op = PcodeOperation::IntAdd { output: reg(8, 4), input0: VarNode::new(0, 4, 9), input1: reg(4, 4) };
    assert_eq!(t.model_pcode_op(&op), Err(ModelError::UnmodeledSpace));
    assert_eq!(t.inputs, vec![ResolvedVarnode::Direct(VarNode::new(0, 4, 9))]);
}

#[test]
fn unmodeled_operations_fail_without_effect() {
    let mut t = fresh();
    let op = PcodeOperation::Fallthrough { input: VarNode::new_const(0x1000, 8) };
    assert_eq!(t.model_pcode_op(&op), Err(ModelError::UnmodeledInstruction));
    assert_eq!(t.inputs.len(), 0);
    assert_eq!(t.log.len(), 0);
}

#[test]
fn stores_go_through_the_pointer() {
    let mut t = fresh();
    let dest = IndirectVarNode { pointer_space_index: 1, pointer_location: reg(0, 4), access_size_bytes: 4 };
    let op = PcodeOperation::Store { output: dest, input: reg(4, 4) };
    assert_eq!(t.model_pcode_op(&op), Ok(()));
    let pointer = read_le(2, 0, cst(0, 32), 4);
    assert_eq!(
        t.outputs,
        vec![ResolvedVarnode::Indirect {
            pointer: pointer.copy(),
            pointer_location: reg(0, 4),
            access_size_bytes: 4,
            pointer_space_idx: 1,
        }]
    );
    assert_eq!(t.inputs, vec![ResolvedVarnode::Direct(reg(4, 4)), ResolvedVarnode::Direct(reg(0, 4))]);
    assert_eq!(t.log.len(), 4);
    assert_eq!(t.log[3].space, 1);
    assert_eq!(t.log[3].offset, add(pointer, cst(3, 32)));
}

#[test]
fn loads_check_the_pointer() {
    let mut t = fresh();
    let narrow = IndirectVarNode { pointer_space_index: 1, pointer_location: reg(0, 2), access_size_bytes: 4 };
    let op = PcodeOperation::Load { input: narrow, output: reg(8, 4) };
    assert_eq!(t.model_pcode_op(&op), Err(ModelError::MismatchedAddressSize));
    let in_constants = IndirectVarNode { pointer_space_index: 0, pointer_location: reg(0, 4), access_size_bytes: 4 };
    let op = PcodeOperation::Load { input: in_constants, output: reg(8, 4) };
    assert_eq!(t.model_pcode_op(&op), Err(ModelError::IndirectConstantRead));
    let good = IndirectVarNode { pointer_space_index: 1, pointer_location: reg(0, 4), access_size_bytes: 4 };
    let op = PcodeOperation::Load { input: good, output: reg(8, 4) };
    assert_eq!(t.model_pcode_op(&op), Ok(()));
    assert_eq!(t.log.len(), 4);
}

#[test]
fn copies_need_equal_sizes() {
    let mut t = fresh();
    let op = PcodeOperation::Copy { input: reg(0, 4), output: reg(8, 2) };
    assert_eq!(t.model_pcode_op(&op), Err(ModelError::MismatchedWordSize));
    assert_eq!(t.log.len(), 0);
}

#[test]
fn branches_end_the_trace() {
    let mut t = fresh();
    let target = VarNode::new(0x2000, 4, 1);
    assert_eq!(t.model_pcode_op(&PcodeOperation::Branch { input: target }), Ok(()));
    assert_eq!(t.branch.last, BlockEndBehavior::UnconditionalBranch(GeneralizedVarNode::Direct(target)));
    assert_eq!(t.inputs, vec![ResolvedVarnode::Direct(target)]);
    let cond = reg(0, 1);
    assert_eq!(t.model_pcode_op(&PcodeOperation::CBranch { input0: target, input1: cond }), Ok(()));
    assert_eq!(t.branch.conditional_branches.len(), 1);
    assert_eq!(t.branch.conditional_branches[0].condition, cond);
    assert_eq!(t.inputs.len(), 3);
}

#[test]
fn extensions_and_pieces() {
    let mut t = fresh();
    let a = read_le(2, 0, cst(0, 32), 4);
    let op = PcodeOperation::IntZExt { input: reg(0, 4), output: reg(8, 8) };
    assert_eq!(t.model_pcode_op(&op), Ok(()));
    assert_eq!(t.log.len(), 8);
    assert_eq!(t.log[0].value, Term::Extract { high: 7, low: 0, arg: Box::new(Term::ZeroExt { bits: 32, arg: Box::new(a) }) });
    let op = PcodeOperation::SubPiece { input0: reg(0, 4), input1: VarNode::new_const(1, 4), output: reg(16, 2) };
    assert_eq!(t.model_pcode_op(&op), Ok(()));
    // the second read sees the eight stores of the first operation
    let later = read_le(2, 8, cst(0, 32), 4);
    let piece = Term::Extract { high: 23, low: 8, arg: Box::new(later) };
    assert_eq!(t.log[8].value, Term::Extract { high: 7, low: 0, arg: Box::new(piece) });
}

#[test]
fn user_operations_write_their_hash() {
    let mut t = fresh();
    let op = PcodeOperation::CallOther { output: Some(reg(0, 4)), inputs: vec![reg(4, 4), reg(8, 4)] };
    assert_eq!(t.model_pcode_op(&op), Ok(()));
    assert_eq!(t.inputs.len(), 2);
    let hash_vn = match t.branch.last {
        BlockEndBehavior::UnconditionalBranch(GeneralizedVarNode::Direct(vn)) => vn,
        _ => panic!("the trace should end at the hash"),
    };
    assert_eq!(hash_vn.space_index, 0);
    assert_eq!(hash_vn.size, 4);
    assert_eq!(hash_vn.offset, hash_inputs(&vec![reg(4, 4), reg(8, 4)]));
    // metadata of the hash (4 bits), of the output (4 bits), then 4 data bytes
    assert_eq!(t.log.len(), 12);
    assert_eq!(t.log[11].value, Term::Extract { high: 31, low: 24, arg: Box::new(cst(hash_vn.offset, 32)) });
}

#[test]
fn modelling_only_adds_to_what_was_recorded() {
    let mut t = fresh();
    let first = PcodeOperation::IntAdd { output: reg(8, 4), input0: reg(0, 4), input1: reg(4, 4) };
    assert_eq!(t.model_pcode_op(&first), Ok(()));
    let log: Vec<Term> = t.log.iter().map(|s| s.value.copy()).collect();
    let inputs = t.inputs.len();
    // a failing operation still keeps what was there
    let bad = PcodeOperation::IntAdd { output: reg(8, 2), input0: reg(0, 4), input1: reg(4, 4) };
    assert_eq!(t.model_pcode_op(&bad), Err(ModelError::MismatchedWordSize));
    let second = PcodeOperation::Copy { input: reg(8, 4), output: reg(12, 4) };
    assert_eq!(t.model_pcode_op(&second), Ok(()));
    assert!(t.log.len() > log.len());
    for (i, v) in log.iter().enumerate() {
        assert_eq!(&t.log[i].value, v);
    }
    assert!(t.inputs.len() > inputs);
    assert_eq!(t.inputs[0], ResolvedVarnode::Direct(reg(0, 4)));
    assert_eq!(t.original.len(), 0);
}
