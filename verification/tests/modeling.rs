use jingle::modeling::branch::{BlockConditionalBranchInfo, BlockEndBehavior, BranchConstraint};
use jingle::modeling::machine::cpu::concrete::{ConcretePcodeAddress, FlatLattice, PcodeOffset};
use jingle::sleigh::{GeneralizedVarNode, IndirectVarNode, PcodeOperation, VarNode};

#[test]
fn test_relative_math() {
    let addr = ConcretePcodeAddress {
        machine: 4,
        pcode: 4,
    };
    let dec1 = addr.add_pcode_offset(-1i8 as PcodeOffset);
    let add1 = addr.add_pcode_offset(1i8 as PcodeOffset);
    let add255 = addr.add_pcode_offset(255);

    assert_eq!(
        dec1,
        ConcretePcodeAddress {
            machine: 4,
            pcode: 3
        }
    );
    assert_eq!(
        add1,
        ConcretePcodeAddress {
            machine: 4,
            pcode: 5
        }
    );
    assert_eq!(dec1, add255);
}

#[test]
fn next_pcode_wraps_within_instruction() {
    let addr = ConcretePcodeAddress { machine: 0x1000, pcode: 0xff };
    let next = addr.next_pcode();
    assert_eq!(next.machine(), 0x1000);
    assert_eq!(next.pcode(), 0);
}

#[test]
fn from_machine_address_starts_at_pcode_zero() {
    let addr = ConcretePcodeAddress::from(0xdead_beefu64);
    assert_eq!(addr, ConcretePcodeAddress { machine: 0xdead_beef, pcode: 0 });
}

#[test]
fn resolve_relative_and_absolute_targets() {
    let here = ConcretePcodeAddress { machine: 0x40, pcode: 2 };
    let rel = VarNode::new_const(3, 4);
    assert_eq!(
        ConcretePcodeAddress::resolve_from_varnode(&rel, here),
        ConcretePcodeAddress { machine: 0x40, pcode: 5 }
    );
    let back = VarNode::new_const(0xffff_ffff_ffff_fffe, 8);
    assert_eq!(
        ConcretePcodeAddress::resolve_from_varnode(&back, here),
        ConcretePcodeAddress { machine: 0x40, pcode: 0 }
    );
    let abs = VarNode::new(0x500, 8, 1);
    assert_eq!(
        ConcretePcodeAddress::resolve_from_varnode(&abs, here),
        ConcretePcodeAddress { machine: 0x500, pcode: 0 }
    );
}

#[test]
fn flat_transfer_successors() {
    let here = FlatLattice::Value(ConcretePcodeAddress { machine: 0x40, pcode: 1 });
    let branch = PcodeOperation::Branch { input: VarNode::new(0x80, 8, 1) };
    assert_eq!(
        here.transfer(&branch),
        vec![FlatLattice::Value(ConcretePcodeAddress { machine: 0x80, pcode: 0 })]
    );
    let cbranch = PcodeOperation::CBranch {
        input0: VarNode::new_const(2, 4),
        input1: VarNode::new(0x10, 1, 2),
    };
    assert_eq!(
        here.transfer(&cbranch),
        vec![
            FlatLattice::Value(ConcretePcodeAddress { machine: 0x40, pcode: 3 }),
            FlatLattice::Value(ConcretePcodeAddress { machine: 0x40, pcode: 2 }),
        ]
    );
    let ret = PcodeOperation::Return {
        input: IndirectVarNode::new(VarNode::new(0x20, 8, 2), 8, 1),
    };
    assert_eq!(here.transfer(&ret), vec![FlatLattice::Top]);
    let copy = PcodeOperation::Copy {
        input: VarNode::new(0x20, 8, 2),
        output: VarNode::new(0x28, 8, 2),
    };
    assert_eq!(
        here.transfer(&copy),
        vec![FlatLattice::Value(ConcretePcodeAddress { machine: 0x40, pcode: 2 })]
    );
    let top: FlatLattice<ConcretePcodeAddress> = FlatLattice::Top;
    assert!(top.transfer(&copy).is_empty());
}

#[test]
fn branch_constraint_records_branches() {
    let ft = VarNode::new(0x44, 8, 1);
    let mut bc = BranchConstraint::new(&ft);
    assert!(!bc.has_branch());
    assert_eq!(bc.last, BlockEndBehavior::Fallthrough(ft));
    let cond = BlockConditionalBranchInfo {
        condition: VarNode::new(0x10, 1, 2),
        destination: GeneralizedVarNode::Direct(VarNode::new(0x90, 8, 1)),
    };
    bc.push_conditional(&cond);
    assert!(bc.has_branch());
    assert_eq!(bc.conditional_branches, vec![cond]);
    let same = BranchConstraint::with_same_final_branch(&bc);
    assert_eq!(same.last, bc.last);
    assert!(same.conditional_branches.is_empty());
    assert!(!same.has_branch());
    let dest = GeneralizedVarNode::Direct(VarNode::new(0xa0, 8, 1));
    bc.set_last(&dest);
    assert_eq!(bc.last, BlockEndBehavior::UnconditionalBranch(dest));
    assert_eq!(bc.conditional_branches.len(), 1);
}
