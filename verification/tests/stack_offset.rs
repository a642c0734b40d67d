use jingle::analysis::stack_offset::{StackOffsetLattice, StackOffsetState};
use jingle::sleigh::{PcodeOperation, VarNode};

#[test]
fn test_stack_offset_lattice_ordering() {
    let bottom = StackOffsetLattice::Bottom;
    let offset_0 = StackOffsetLattice::Offset(0);
    let offset_8 = StackOffsetLattice::Offset(8);
    let range = StackOffsetLattice::Range(-16, 16);
    let top = StackOffsetLattice::Top;

    assert!(bottom < offset_0);
    assert!(bottom < top);
    assert!(offset_0 < top);
    assert!(offset_0.partial_cmp(&offset_8).is_none());
    assert!(offset_0 < range);
    assert!(offset_8 < range);
}

#[test]
fn test_stack_offset_lattice_join() {
    let mut offset_0 = StackOffsetLattice::Offset(0);
    let offset_8 = StackOffsetLattice::Offset(8);

    offset_0.join(&offset_8);
    assert_eq!(offset_0, StackOffsetLattice::Range(0, 8));

    let mut range1 = StackOffsetLattice::Range(0, 8);
    let range2 = StackOffsetLattice::Range(4, 12);
    range1.join(&range2);
    assert_eq!(range1, StackOffsetLattice::Range(0, 12));
}

#[test]
fn test_stack_offset_arithmetic() {
    let offset = StackOffsetLattice::Offset(0);
    assert_eq!(offset.add(8), StackOffsetLattice::Offset(8));
    assert_eq!(offset.sub(16), StackOffsetLattice::Offset(-16));

    let range = StackOffsetLattice::Range(0, 8);
    assert_eq!(range.add(4), StackOffsetLattice::Range(4, 12));
    assert_eq!(range.sub(4), StackOffsetLattice::Range(-4, 4));
}

fn sp() -> VarNode {
    VarNode { space_index: 1, offset: 0x20, size: 8 }
}

#[test]
fn transfer_sp_add_constant_shifts_offset() {
    let state = StackOffsetState::new(sp());
    let op = PcodeOperation::IntAdd {
        output: sp(),
        input0: sp(),
        input1: VarNode::new_const(8, 8),
    };
    let next = state.transfer(&op);
    assert_eq!(*next.offset(), StackOffsetLattice::Offset(8));
    assert_eq!(*next.stack_pointer(), sp());
}

#[test]
fn transfer_sp_sub_constant_shifts_offset() {
    let state = StackOffsetState::with_offset(sp(), 4);
    let op = PcodeOperation::IntSub {
        output: sp(),
        input0: sp(),
        input1: VarNode::new_const(16, 8),
    };
    assert_eq!(*state.transfer(&op).offset(), StackOffsetLattice::Offset(-12));
}

#[test]
fn transfer_sp_from_unknown_is_top() {
    let state = StackOffsetState::new(sp());
    let op = PcodeOperation::Copy {
        output: sp(),
        input: VarNode { space_index: 1, offset: 0x40, size: 8 },
    };
    assert_eq!(*state.transfer(&op).offset(), StackOffsetLattice::Top);
    let other = PcodeOperation::IntXor {
        output: sp(),
        input0: sp(),
        input1: sp(),
    };
    assert_eq!(*state.transfer(&other).offset(), StackOffsetLattice::Top);
}

#[test]
fn transfer_other_write_keeps_offset() {
    let state = StackOffsetState::with_offset(sp(), -8);
    let op = PcodeOperation::IntAdd {
        output: VarNode { space_index: 1, offset: 0x40, size: 8 },
        input0: sp(),
        input1: VarNode::new_const(8, 8),
    };
    assert_eq!(*state.transfer(&op).offset(), StackOffsetLattice::Offset(-8));
}

#[test]
fn lattice_join_with_bottom_and_top() {
    let mut b = StackOffsetLattice::Bottom;
    b.join(&StackOffsetLattice::Offset(3));
    assert_eq!(b, StackOffsetLattice::Offset(3));
    let mut t = StackOffsetLattice::Range(1, 2);
    t.join(&StackOffsetLattice::Top);
    assert_eq!(t, StackOffsetLattice::Top);
    let mut o = StackOffsetLattice::Offset(5);
    o.join(&StackOffsetLattice::Range(0, 3));
    assert_eq!(o, StackOffsetLattice::Range(0, 5));
    assert!(StackOffsetLattice::Offset(5) < o);
}

#[test]
fn lattice_arithmetic_wraps_and_round_trips() {
    let v = StackOffsetLattice::Offset(i64::MAX);
    assert_eq!(v.add(1), StackOffsetLattice::Offset(i64::MIN));
    assert_eq!(v.add(1).sub(1), v);
    assert!(v.is_concrete());
    assert_eq!(v.concrete_value(), Some(i64::MAX));
    assert_eq!(StackOffsetLattice::Top.concrete_value(), None);
    assert_eq!(StackOffsetLattice::new(7), StackOffsetLattice::Offset(7));
}

#[test]
fn state_join_different_stack_pointer_is_top() {
    let mut a = StackOffsetState::with_offset(sp(), 4);
    let b = StackOffsetState::with_offset(VarNode { space_index: 1, offset: 0x28, size: 8 }, 4);
    a.join(&b);
    assert_eq!(*a.offset(), StackOffsetLattice::Top);
    assert!(a.partial_cmp(&b).is_none());
    let mut c = StackOffsetState::with_offset(sp(), 4);
    c.join(&StackOffsetState::with_offset(sp(), 12));
    assert_eq!(*c.offset(), StackOffsetLattice::Range(4, 12));
}

#[test]
fn transfer_reads_constants_signed_by_their_size() {
    let state = StackOffsetState::new(sp());
    let minus_eight = VarNode::new_const(0xFFFF_FFF8, 4);
    let op = PcodeOperation::IntAdd { output: sp(), input0: sp(), input1: minus_eight };
    assert_eq!(*state.transfer(&op).offset(), StackOffsetLattice::Offset(-8));
    let op = PcodeOperation::IntSub { output: sp(), input0: sp(), input1: minus_eight };
    assert_eq!(*state.transfer(&op).offset(), StackOffsetLattice::Offset(8));
    let byte = VarNode::new_const(0x80, 1);
    let op = PcodeOperation::IntAdd { output: sp(), input0: byte, input1: sp() };
    assert_eq!(*state.transfer(&op).offset(), StackOffsetLattice::Offset(-128));
    let positive = VarNode::new_const(0x7F, 1);
    let op = PcodeOperation::IntAdd { output: sp(), input0: sp(), input1: positive };
    assert_eq!(*state.transfer(&op).offset(), StackOffsetLattice::Offset(127));
    let wide = VarNode::new_const(0xFFFF_FFFF_FFFF_FFF0, 8);
    let op = PcodeOperation::IntAdd { output: sp(), input0: sp(), input1: wide };
    assert_eq!(*state.transfer(&op).offset(), StackOffsetLattice::Offset(-16));
}
