use jingle::modeling::machine::cpu::concrete::ConcretePcodeAddress;
use jingle::modeling::machine::cpu::symbolic::SymbolicPcodeAddress;
use jingle::modeling::machine::memory::MemoryState;
use jingle::modeling::machine::MachineState;
use jingle::modeling::model::hash_inputs;
use jingle::modeling::state::{ModelError, SpaceDesc};
use jingle::modeling::term::{ArrayRef, BinaryOp, Predicate, Term};
use jingle::sleigh::{GeneralizedVarNode, IndirectVarNode, PcodeOperation, VarNode};

fn spaces(big: bool) -> Vec<SpaceDesc> {
    vec![
        SpaceDesc { is_constant: true, index_size_bytes: 8, big_endian: big },
        SpaceDesc { is_constant: false, index_size_bytes: 4, big_endian: big },
        SpaceDesc { is_constant: false, index_size_bytes: 4, big_endian: big },
    ]
}

fn reg(offset: u64, size: usize) -> VarNode {
    VarNode::new(offset, size, 2)
}

fn cst(value: u64, bits: u32) -> Term {
    Term::Const { value, bits }
}

fn bin(op: BinaryOp, a: Term, b: Term) -> Term {
    Term::Binary { op, lhs: Box::new(a), rhs: Box::new(b) }
}

fn byte(base: u64, space: usize, version: usize, offset: u64, i: u64) -> Term {
    Term::Select {
        array: ArrayRef { base, original: false, space, meta: false, version },
        offset: Box::new(bin(BinaryOp::Add, cst(offset, 32), cst(i, 32))),
    }
}

/// The read of 4 bytes at `offset`: byte 0 lowest when little endian,
/// highest when big endian.
fn read4(base: u64, space: usize, version: usize, offset: u64, big: bool) -> Term {
    let mut acc = byte(base, space, version, offset, 0);
    for i in 1..4 {
        let b = byte(base, space, version, offset, i);
        acc = if big { bin(BinaryOp::Concat, acc, b) } else { bin(BinaryOp::Concat, b, acc) };
    }
    acc
}

#[test]
fn little_endian_write_stores_the_low_byte_first() {
    let m = MemoryState::fresh(spaces(false), 7);
    let op = PcodeOperation::Copy { input: VarNode::new_const(0xdead_beef, 4), output: reg(0, 4) };
    let m2 = m.apply(&op).unwrap();
    assert_eq!(m.log.len(), 0);
    assert_eq!(m2.log.len(), 4);
    let v = cst(0xdead_beef, 32);
    for i in 0..4u32 {
        assert_eq!(m2.log[i as usize].offset, bin(BinaryOp::Add, cst(0, 32), cst(i as u64, 32)));
        assert_eq!(m2.log[i as usize].value, Term::Extract { high: 8 * i + 7, low: 8 * i, arg: Box::new(v.copy()) });
    }
}

#[test]
fn big_endian_write_stores_the_high_byte_first() {
    let m = MemoryState::fresh(spaces(true), 7);
    let op = PcodeOperation::Copy { input: VarNode::new_const(0xdead_beef, 4), output: reg(0, 4) };
    let m2 = m.apply(&op).unwrap();
    let v = cst(0xdead_beef, 32);
    for i in 0..4u32 {
        assert_eq!(m2.log[i as usize].value, Term::Extract { high: 31 - 8 * i, low: 24 - 8 * i, arg: Box::new(v.copy()) });
    }
}

#[test]
fn reads_join_bytes_in_the_space_order() {
    for big in [false, true] {
        let m = MemoryState::fresh(spaces(big), 3);
        let copy = PcodeOperation::Copy { input: reg(0, 4), output: reg(8, 4) };
        let m2 = m.apply(&copy).unwrap();
        let read = read4(3, 2, 0, 0, big);
        let expected = if big {
            Term::Extract { high: 31, low: 24, arg: Box::new(read) }
        } else {
            Term::Extract { high: 7, low: 0, arg: Box::new(read) }
        };
        assert_eq!(m2.log[0].value, expected);
        // a later read sees the four stores
        let m3 = m2.apply(&PcodeOperation::Copy { input: reg(8, 4), output: reg(12, 4) }).unwrap();
        for i in 0..m2.log.len() {
            assert_eq!(m3.log[i].value, m2.log[i].value);
        }
        let later = read4(3, 2, 4, 8, big);
        let last = m3.log.len() - 1;
        let expected = if big {
            Term::Extract { high: 7, low: 0, arg: Box::new(later) }
        } else {
            Term::Extract { high: 31, low: 24, arg: Box::new(later) }
        };
        assert_eq!(m3.log[last].value, expected);
    }
}

#[test]
fn memory_apply_reports_errors() {
    let m = MemoryState::fresh(spaces(false), 0);
    let op = PcodeOperation::IntAdd { output: VarNode::new_const(0, 4), input0: reg(0, 4), input1: reg(4, 4) };
    assert_eq!(m.apply(&op).unwrap_err(), ModelError::ConstantWrite);
    let op = PcodeOperation::IntAdd { output: reg(8, 2), input0: reg(0, 4), input1: reg(4, 4) };
    assert_eq!(m.apply(&op).unwrap_err(), ModelError::MismatchedWordSize);
    let op = PcodeOperation::Fallthrough { input: VarNode::new_const(0, 8) };
    assert_eq!(m.apply(&op).unwrap_err(), ModelError::UnmodeledInstruction);
    let narrow = IndirectVarNode { pointer_space_index: 1, pointer_location: reg(0, 2), access_size_bytes: 4 };
    let op = PcodeOperation::Store { output: narrow, input: reg(4, 4) };
    assert_eq!(m.apply(&op).unwrap_err(), ModelError::MismatchedAddressSize);
}

#[test]
fn memory_left_shift_fits_the_amount_to_the_value() {
    let m = MemoryState::fresh(spaces(false), 0);
    let op = PcodeOperation::IntLeftShift { output: reg(0, 4), input0: VarNode::new_const(1, 4), input1: VarNode::new_const(3, 1) };
    let m2 = m.apply(&op).unwrap();
    let shifted = bin(BinaryOp::Shl, cst(1, 32), Term::ZeroExt { bits: 24, arg: Box::new(cst(3, 8)) });
    assert_eq!(m2.log[0].value, Term::Extract { high: 7, low: 0, arg: Box::new(shifted) });
}

#[test]
fn user_operations_write_the_hash_of_their_inputs() {
    let m = MemoryState::fresh(spaces(false), 0);
    let inputs = vec![reg(4, 4), reg(8, 4)];
    let op = PcodeOperation::CallOther { output: Some(reg(0, 8)), inputs: inputs.clone() };
    let m2 = m.apply(&op).unwrap();
    let h = hash_inputs(&inputs);
    assert_eq!(h, hash_inputs(&vec![reg(4, 4), reg(8, 4)]));
    assert_ne!(h, hash_inputs(&vec![reg(8, 4), reg(4, 4)]));
    assert_eq!(m2.log[0].value, Term::Extract { high: 7, low: 0, arg: Box::new(cst(h, 64)) });
    let none = PcodeOperation::CallOther { output: None, inputs };
    assert_eq!(m.apply(&none).unwrap().log.len(), 0);
}

#[test]
fn control_flow_moves_the_program_counter() {
    let start = ConcretePcodeAddress { machine: 0x1000, pcode: 2 };
    let s = MachineState::fresh_for_address(spaces(false), 0, &start);
    assert_eq!(s.pc, SymbolicPcodeAddress { machine: cst(0x1000, 64), pcode: cst(2, 8) });
    // ordinary operations step to the next p-code operation
    let add = PcodeOperation::IntAdd { output: reg(8, 4), input0: reg(0, 4), input1: reg(4, 4) };
    let s2 = s.apply(&add).unwrap();
    assert_eq!(s2.pc.pcode, bin(BinaryOp::Add, cst(2, 8), cst(1, 8)));
    assert_eq!(s2.memory.log.len(), 4);
    // a branch to a machine address
    let b = s.apply(&PcodeOperation::Branch { input: VarNode::new(0x2000, 8, 1) }).unwrap();
    assert_eq!(b.pc, SymbolicPcodeAddress { machine: cst(0x2000, 64), pcode: cst(0, 8) });
    // a branch by a p-code offset
    let r = s.apply(&PcodeOperation::Branch { input: VarNode::new_const(3, 8) }).unwrap();
    assert_eq!(r.pc, SymbolicPcodeAddress { machine: cst(0x1000, 64), pcode: bin(BinaryOp::Add, cst(2, 8), cst(3, 8)) });
}

#[test]
fn conditional_branches_choose_on_bit_zero() {
    let start = ConcretePcodeAddress { machine: 0x1000, pcode: 0 };
    let s = MachineState::fresh_for_address(spaces(false), 0, &start);
    let op = PcodeOperation::CBranch { input0: VarNode::new(0x3000, 8, 1), input1: VarNode::new_const(1, 1) };
    let s2 = s.apply(&op).unwrap();
    let bit = Term::Extract { high: 0, low: 0, arg: Box::new(cst(1, 8)) };
    assert_eq!(
        s2.pc.machine,
        Term::Ite {
            pred: Predicate::Eq,
            lhs: Box::new(bit),
            rhs: Box::new(cst(1, 1)),
            if_true: Box::new(cst(0x3000, 64)),
            if_false: Box::new(cst(0x1000, 64)),
        }
    );
    assert_eq!(s2.memory.log.len(), 0);
}

#[test]
fn indirect_branches_need_machine_wide_targets() {
    let s = MachineState::fresh(spaces(false), 5);
    assert_eq!(s.pc, SymbolicPcodeAddress { machine: Term::InitialPc { base: 5, pcode: false }, pcode: Term::InitialPc { base: 5, pcode: true } });
    let narrow = IndirectVarNode { pointer_space_index: 1, pointer_location: reg(0, 4), access_size_bytes: 4 };
    assert_eq!(s.apply(&PcodeOperation::Return { input: narrow }).unwrap_err(), ModelError::InvalidBranchTargetSize);
    let wide = IndirectVarNode { pointer_space_index: 1, pointer_location: reg(0, 4), access_size_bytes: 8 };
    let s2 = s.apply(&PcodeOperation::Return { input: wide }).unwrap();
    assert_eq!(s2.pc.pcode, cst(0, 8));
    let _ = GeneralizedVarNode::Indirect(wide);
}
