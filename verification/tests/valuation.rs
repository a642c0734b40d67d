use jingle::analysis::valuation::state::{
    ArchSpaces, MergeBehavior, SpaceType, ValuationAnalysis, ValuationState,
};
use jingle::analysis::valuation::jingle_display::{ArchNames, SpaceName};
use jingle::analysis::valuation::valuation::{Location, ValuationSet};
use jingle::analysis::valuation::value::Value;
use jingle::sleigh::{IndirectVarNode, PcodeOperation, VarNode};
use std::cmp::Ordering;

fn test_arch() -> ArchSpaces {
    ArchSpaces::new(vec![SpaceType::Constant, SpaceType::Processor])
}

fn reg(offset: u64, size: usize) -> VarNode {
    VarNode::new(offset, size, 1)
}

#[test]
fn transfer_bool_negate_folds_constant() {
    let state = ValuationState::new(test_arch());
    let out = reg(0x10, 1);
    let op = PcodeOperation::BoolNegate {
        output: out,
        input: VarNode::new_const(0, 1),
    };

    let next = state.transfer_impl(&op);

    assert_eq!(next.get_value(&out), Some(&Value::const_(1, 1)));
}

#[test]
fn transfer_bool_and_uses_boolean_value_node() {
    let state = ValuationState::new(test_arch());
    let out = reg(0x10, 1);
    let left = reg(0x20, 8);
    let right = reg(0x30, 8);
    let op = PcodeOperation::BoolAnd {
        output: out,
        input0: left,
        input1: right,
    };

    let next = state.transfer_impl(&op);
    let value = next.get_value(&out).expect("expected output valuation");
    let expr = value.as_bool_and().expect("expected BoolAnd node");

    assert_eq!(expr.0.as_ref(), &Value::entry(left));
    assert_eq!(expr.1.as_ref(), &Value::entry(right));
}

#[test]
fn transfer_bool_xor_folds_to_bool_negate_when_rhs_true() {
    let mut state = ValuationState::new(test_arch());
    let out = reg(0x10, 1);
    let flag = reg(0x20, 1);
    state.valuation.add(
        flag.into(),
        Value::int_equal(Value::entry(reg(0x30, 8)), Value::entry(reg(0x40, 8))),
    );
    let op = PcodeOperation::BoolXor {
        output: out,
        input0: flag,
        input1: VarNode::new_const(1, 1),
    };

    let next = state.transfer_impl(&op);
    let value = next.get_value(&out).expect("expected output valuation");

    assert_eq!(
        *value,
        Value::int_not_equal(Value::entry(reg(0x30, 8)), Value::entry(reg(0x40, 8))).simplify()
    );
}

#[test]
fn transfer_read_sub_register_after_wider_zext_write() {
    let mut state = ValuationState::new(test_arch());
    let eax = reg(0x0, 4);
    let rax = reg(0x0, 8);
    let zf = reg(0x100, 1);
    let src = reg(0x200, 4);

    state
        .valuation
        .add(eax.into(), Value::entry(src) + Value::const_(1, 4));

    state = state.transfer_impl(&PcodeOperation::IntZExt {
        input: eax,
        output: rax,
    });
    assert!(
        state.get_value(&eax).is_none(),
        "EAX should be evicted after RAX write"
    );

    state = state.transfer_impl(&PcodeOperation::IntEqual {
        output: zf,
        input0: eax,
        input1: VarNode::new_const(0, 4),
    });

    let expected =
        Value::int_equal(Value::entry(src) + Value::const_(1, 4), Value::const_(0, 4)).simplify();
    assert_eq!(*state.get_value(&zf).expect("ZF should be set"), expected);
}

#[test]
fn transfer_read_sub_register_nonzero_byte_offset() {
    let mut state = ValuationState::new(test_arch());
    let wide = reg(0x0, 4);
    let upper = reg(0x2, 2);
    let out = reg(0x100, 1);
    let src = reg(0x200, 4);

    state.valuation.add(wide.into(), Value::entry(src));

    state = state.transfer_impl(&PcodeOperation::IntEqual {
        output: out,
        input0: upper,
        input1: VarNode::new_const(0, 2),
    });

    let expected =
        Value::int_equal(Value::extract(Value::entry(src), 2, 2), Value::const_(0, 2)).simplify();
    assert_eq!(*state.get_value(&out).expect("out should be set"), expected);
}

#[test]
fn transfer_read_wide_register_assembled_from_sub_register_at_nonzero_offset() {
    let mut state = ValuationState::new(test_arch());
    let rax = reg(0x0, 8);
    let ah = reg(0x1, 1);
    let out = reg(0x200, 8);
    let ah_val = Value::const_(0x42, 1);

    state.valuation.add(ah.into(), ah_val.clone());

    state = state.transfer_impl(&PcodeOperation::Copy {
        input: rax,
        output: out,
    });

    let result = state.get_value(&out).expect("out must be set");
    assert_ne!(*result, Value::entry(rax), "should not return bare Entry(RAX)");
    let expected = Value::insert_bytes(Value::entry(rax), ah_val, 1).simplify();
    assert_eq!(*result, expected);
}

#[test]
fn join_indirect_write_missing_in_self_top_behavior_becomes_top() {
    let addr_reg = reg(0x1000, 8);
    let rax = reg(0x2000, 8);

    let load_key = Value::load(Value::entry(addr_reg), 8, 1);

    let mut self_state = ValuationState::new_with_behavior(test_arch(), MergeBehavior::Top);
    let mut other_state = ValuationState::new_with_behavior(test_arch(), MergeBehavior::Top);
    other_state
        .valuation
        .add(Location::Indirect(load_key.clone()), Value::entry(rax));

    self_state.join(&other_state);

    assert_eq!(
        self_state.valuation.get(&Location::Indirect(load_key)),
        Some(&Value::Top),
    );
}

#[test]
fn join_indirect_write_missing_in_self_choice_behavior_becomes_choice() {
    let addr_reg = reg(0x1000, 8);

    let load_key = Value::load(Value::entry(addr_reg), 8, 1);
    let written = Value::const_(0x42, 8);

    let mut self_state = ValuationState::new_with_behavior(test_arch(), MergeBehavior::Choice);
    let mut other_state = ValuationState::new_with_behavior(test_arch(), MergeBehavior::Choice);
    other_state
        .valuation
        .add(Location::Indirect(load_key.clone()), written.clone());

    self_state.join(&other_state);

    let result = self_state
        .valuation
        .get(&Location::Indirect(load_key.clone()))
        .expect("should have an entry after join");
    let choice = result.as_choice().expect("expected a Choice node");
    assert!(
        (choice.0.as_ref() == &load_key && choice.1.as_ref() == &written)
            || (choice.1.as_ref() == &load_key && choice.0.as_ref() == &written),
        "expected Choice(load_key, written) in any order, got {result:?}",
    );
}

#[test]
fn add_trims_covered_sub_entries() {
    let mut val = ValuationSet::new();

    let small_vn = VarNode::new(4u64, 4, 0);
    val.add(small_vn.into(), Value::const_(0x42, 8));

    let big_vn = VarNode::new(4u64, 8, 0);
    val.add(big_vn.into(), Value::const_(0x1234, 8));

    assert!(
        val.direct_writes.get(&small_vn).is_none(),
        "small entry should be trimmed after larger write covers it"
    );
    assert!(val.direct_writes.get(&big_vn).is_some());
}

#[test]
fn add_does_not_trim_non_covered_entries() {
    let mut val = ValuationSet::new();

    let vn_other = VarNode::new(0x100u64, 4, 0);
    val.add(vn_other.into(), Value::const_(0x99, 8));

    let vn_new = VarNode::new(4u64, 8, 0);
    val.add(vn_new.into(), Value::const_(0x1234, 8));

    assert!(
        val.direct_writes.get(&vn_other).is_some(),
        "unrelated entry should not be trimmed"
    );
}

// --- joins of direct writes --------------------------------------------

#[test]
fn join_same_value_keeps_it() {
    let r = reg(0x10, 8);
    let mut a = ValuationState::new(test_arch());
    let mut b = ValuationState::new(test_arch());
    a.valuation.add(r.into(), Value::const_(5, 8));
    b.valuation.add(r.into(), Value::const_(5, 8));
    a.join(&b);
    assert_eq!(a.get_value(&r), Some(&Value::const_(5, 8)));
}

#[test]
fn join_differing_values_choice_behavior() {
    let r = reg(0x10, 8);
    let mut a = ValuationState::new(test_arch());
    let mut b = ValuationState::new(test_arch());
    a.valuation.add(r.into(), Value::const_(5, 8));
    b.valuation.add(r.into(), Value::const_(6, 8));
    a.join(&b);
    let v = a.get_value(&r).expect("value after join");
    let c = v.as_choice().expect("a Choice");
    let five = Value::const_(5, 8);
    let six = Value::const_(6, 8);
    assert!(
        (c.0.as_ref() == &five && c.1.as_ref() == &six)
            || (c.1.as_ref() == &five && c.0.as_ref() == &six)
    );
}

#[test]
fn join_differing_values_top_behavior() {
    let r = reg(0x10, 8);
    let mut a = ValuationState::new_with_behavior(test_arch(), MergeBehavior::Top);
    let mut b = ValuationState::new_with_behavior(test_arch(), MergeBehavior::Top);
    a.valuation.add(r.into(), Value::const_(5, 8));
    b.valuation.add(r.into(), Value::const_(6, 8));
    a.join(&b);
    assert_eq!(a.get_value(&r), Some(&Value::Top));
}

#[test]
fn join_top_absorbs() {
    let r = reg(0x10, 8);
    let mut a = ValuationState::new(test_arch());
    let mut b = ValuationState::new(test_arch());
    a.valuation.add(r.into(), Value::const_(5, 8));
    b.valuation.add(r.into(), Value::Top);
    a.join(&b);
    assert_eq!(a.get_value(&r), Some(&Value::Top));
}

#[test]
fn join_missing_direct_write_choice_with_entry() {
    let r = reg(0x10, 8);
    let mut a = ValuationState::new(test_arch());
    let mut b = ValuationState::new(test_arch());
    b.valuation.add(r.into(), Value::const_(6, 8));
    a.join(&b);
    let v = a.get_value(&r).expect("value after join");
    let c = v.as_choice().expect("a Choice");
    let entry = Value::entry(r);
    let written = Value::const_(6, 8);
    assert!(
        (c.0.as_ref() == &entry && c.1.as_ref() == &written)
            || (c.1.as_ref() == &entry && c.0.as_ref() == &written)
    );
}

// --- comparison ----------------------------------------------------------

#[test]
fn partial_cmp_equal_states() {
    let r = reg(0x10, 8);
    let mut a = ValuationState::new(test_arch());
    let mut b = ValuationState::new(test_arch());
    a.valuation.add(r.into(), Value::const_(5, 8));
    b.valuation.add(r.into(), Value::const_(5, 8));
    assert_eq!(a.partial_cmp(&b), Some(Ordering::Equal));
    assert_eq!(a.partial_cmp(&a), Some(Ordering::Equal));
}

#[test]
fn partial_cmp_differing_states() {
    let r = reg(0x10, 8);
    let mut a = ValuationState::new(test_arch());
    let mut b = ValuationState::new(test_arch());
    a.valuation.add(r.into(), Value::const_(5, 8));
    b.valuation.add(r.into(), Value::const_(6, 8));
    assert_eq!(a.partial_cmp(&b), None);
    let c = ValuationState::new(test_arch());
    assert_eq!(a.partial_cmp(&c), None);
    assert_eq!(c.partial_cmp(&a), None);
}

#[test]
fn analysis_initial_state_is_empty() {
    let analysis = ValuationAnalysis::new(test_arch(), MergeBehavior::Top);
    let s = analysis.into_state();
    assert!(s.valuation().is_empty());
    assert_eq!(s.get_value(&reg(0, 8)), None);
}

#[test]
fn transfer_copy_of_unwritten_register_is_entry() {
    let state = ValuationState::new(test_arch());
    let out = reg(0x10, 8);
    let src = reg(0x20, 8);
    let next = state.transfer_impl(&PcodeOperation::Copy { input: src, output: out });
    assert_eq!(next.get_value(&out), Some(&Value::entry(src)));
}

// --- the valuation set ---------------------------------------------------

#[test]
fn test_iter_yields_tuples() {
    let mut valuation = ValuationSet::new();
    let vn = VarNode::new(0x1000, 8, 0);
    valuation.direct_writes.insert(vn, Value::const_(42, 8));

    let mut count = 0;
    for (loc, val) in valuation.iter() {
        count += 1;
        assert!(matches!(loc, Location::Direct(_)));
        assert_eq!(val, Value::const_(42, 8));
    }
    assert_eq!(count, 1);
}

#[test]
fn test_into_iter_yields_entries() {
    let mut valuation = ValuationSet::new();
    let vn = VarNode::new(0x1000, 8, 0);
    valuation.direct_writes.insert(vn, Value::const_(42, 8));

    let mut count = 0;
    for entry in valuation.into_iter() {
        count += 1;
        assert!(matches!(entry.location, Location::Direct(_)));
        assert_eq!(entry.value, Value::const_(42, 8));
    }
    assert_eq!(count, 1);
}

#[test]
fn test_len_and_is_empty() {
    let mut valuation = ValuationSet::new();
    assert_eq!(valuation.len(), 0);
    assert!(valuation.is_empty());

    let vn = VarNode::new(0x1000, 8, 0);
    valuation.direct_writes.insert(vn, Value::const_(42, 8));

    assert_eq!(valuation.len(), 1);
    assert!(!valuation.is_empty());

    let load_key = Value::load(Value::const_(100, 8), 8, 1);
    valuation.add(Location::Indirect(load_key), Value::const_(200, 8));

    assert_eq!(valuation.len(), 2);
    assert!(!valuation.is_empty());
}

#[test]
fn test_keys_iterator() {
    let mut valuation = ValuationSet::new();
    let vn1 = VarNode::new(0x1000, 8, 0);
    let vn2 = VarNode::new(0x2000, 8, 0);

    valuation.direct_writes.insert(vn1, Value::const_(42, 8));
    valuation.direct_writes.insert(vn2, Value::const_(99, 8));

    let keys: Vec<_> = valuation.keys();
    assert_eq!(keys.len(), 2);
    for key in keys {
        assert!(matches!(key, Location::Direct(_)));
    }
}

#[test]
fn test_values_iterator() {
    let mut valuation = ValuationSet::new();
    let vn1 = VarNode::new(0x1000, 8, 0);
    let vn2 = VarNode::new(0x2000, 8, 0);

    valuation.direct_writes.insert(vn1, Value::const_(42, 8));
    valuation.direct_writes.insert(vn2, Value::const_(99, 8));

    let values: Vec<_> = valuation.values();
    assert_eq!(values.len(), 2);
    assert!(values.contains(&Value::const_(42, 8)));
    assert!(values.contains(&Value::const_(99, 8)));
}

#[test]
fn test_display() {
    let mut valuation = ValuationSet::new();
    let vn = VarNode::new(0x1000, 8, 0);
    valuation.direct_writes.insert(vn, Value::const_(42, 8));

    let display_str = valuation.to_string();
    assert!(display_str.starts_with("Valuation {"));
    assert!(display_str.contains("="));
    assert!(display_str.ends_with("}"));
}

#[test]
fn sub_register_write_updates_parent() {
    let rax = VarNode::new(0x0u64, 8, 0);
    let al = VarNode::new(0x0u64, 1, 0);

    let mut vs = ValuationSet::new();
    vs.add(rax.into(), Value::const_(0x1122334455667788_u64 as i64, 8));
    vs.add(al.into(), Value::const_(0x49, 1));

    let rax_val = vs.direct_writes.get(&rax).expect("RAX must be present");
    assert_eq!(*rax_val, Value::const_(0x1122334455667749_u64 as i64, 8));

    let al_val = vs.direct_writes.get(&al).expect("AL must be present");
    assert_eq!(*al_val, Value::const_(0x49, 1));
}

#[test]
fn sub_register_write_at_nonzero_byte_offset_updates_parent() {
    let parent = VarNode::new(0x0u64, 4, 0);
    let child = VarNode::new(0x1u64, 1, 0);

    let mut vs = ValuationSet::new();
    vs.add(parent.into(), Value::const_(0xAABBCCDD_u64 as i64, 4));
    vs.add(child.into(), Value::const_(0x49, 1));

    let parent_val = vs
        .direct_writes
        .get(&parent)
        .expect("parent must be present");
    assert_eq!(*parent_val, Value::const_(0xAABB49DD_u64 as i64, 4));
}

#[test]
fn sub_register_write_with_symbolic_parent_stores_expression() {
    let rax_vn = VarNode::new(0x100u64, 8, 0);
    let rbx_vn = VarNode::new(0x200u64, 8, 0);
    let al_vn = VarNode::new(0x100u64, 1, 0);

    let mut vs = ValuationSet::new();
    vs.add(rax_vn.into(), Value::entry(rbx_vn));
    vs.add(al_vn.into(), Value::const_(0x49, 1));

    let rax_val = vs.direct_writes.get(&rax_vn).expect("RAX must be present");
    assert!(
        rax_val.as_or().is_some(),
        "expected Or expression when parent was symbolic, got: {:?}",
        rax_val
    );
    assert_eq!(rax_val.size(), 8);
}

fn inner_of(vs: &ValuationSet, ptr: &Value) -> usize {
    vs.find_pointer(ptr).expect("ptr must be a key")
}

#[test]
fn indirect_larger_write_removes_smaller() {
    let ptr = Value::entry(VarNode::new(0x1000u64, 8, 0));
    let mut vs = ValuationSet::new();
    vs.add(Location::Indirect(Value::load(ptr.clone(), 2, 1)), Value::const_(0xABCD, 2));
    vs.add(
        Location::Indirect(Value::load(ptr.clone(), 8, 1)),
        Value::const_(0x1122334455667788_u64 as i64, 8),
    );

    let inner = &vs.indirect_writes[inner_of(&vs, &ptr)].1;
    assert_eq!(inner.len(), 1, "only one entry should remain");
    let vn8 = VarNode::new(0u64, 8, 1);
    assert!(inner.contains(&vn8), "the 8-byte entry must survive");
}

#[test]
fn indirect_smaller_write_splices_parent() {
    let ptr = Value::entry(VarNode::new(0x1000u64, 8, 0));
    let mut vs = ValuationSet::new();
    vs.add(
        Location::Indirect(Value::load(ptr.clone(), 8, 1)),
        Value::const_(0x1122334455667788_u64 as i64, 8),
    );
    vs.add(Location::Indirect(Value::load(ptr.clone(), 2, 1)), Value::const_(0x4949, 2));

    let inner = &vs.indirect_writes[inner_of(&vs, &ptr)].1;
    let vn8 = VarNode::new(0u64, 8, 1);
    let vn2 = VarNode::new(0u64, 2, 1);
    assert!(inner.contains(&vn8), "8-byte entry must survive");
    assert!(inner.contains(&vn2), "2-byte entry must survive");

    let expected = Value::insert_bytes(
        Value::const_(0x1122334455667788_u64 as i64, 8),
        Value::const_(0x4949, 2),
        0,
    )
    .simplify();
    let actual = inner.get(&vn8).expect("8-byte entry present");
    assert_eq!(*actual, expected);
}

#[test]
fn indirect_same_size_overwrites() {
    let ptr = Value::entry(VarNode::new(0x1000u64, 8, 0));
    let mut vs = ValuationSet::new();
    vs.add(Location::Indirect(Value::load(ptr.clone(), 4, 1)), Value::const_(0xDEAD, 4));
    vs.add(Location::Indirect(Value::load(ptr.clone(), 4, 1)), Value::const_(0x1234, 4));

    let inner = &vs.indirect_writes[inner_of(&vs, &ptr)].1;
    assert_eq!(inner.len(), 1);
    let vn4 = VarNode::new(0u64, 4, 1);
    assert_eq!(*inner.get(&vn4).unwrap(), Value::const_(0x1234, 4));
}

#[test]
fn full_register_overwrite_does_not_trigger_upward_propagation() {
    let rax = VarNode::new(0x0u64, 8, 0);

    let mut vs = ValuationSet::new();
    vs.add(rax.into(), Value::const_(0xDEAD, 8));
    vs.add(rax.into(), Value::const_(0x1234, 8));

    assert_eq!(vs.direct_writes.len(), 1);
    assert_eq!(vs.get(&Location::Direct(rax)), Some(&Value::const_(0x1234, 8)));
}

// --- text forms ----------------------------------------------------------------

#[test]
fn value_text_of_leaves() {
    assert_eq!(Value::entry(reg(0x10, 8)).to_string(), "1[16]:8");
    assert_eq!(Value::const_(255, 8).to_string(), "0xff");
    assert_eq!(Value::const_(0, 4).to_string(), "0x0");
    assert_eq!(Value::Top.to_string(), "⊤");
}

#[test]
fn value_text_of_operators() {
    let a = Value::entry(reg(0, 8));
    let sum = Value::entry(reg(8, 8)) + Value::const_(1, 8);
    assert_eq!((a.clone() + Value::const_(2, 8)).to_string(), "1[0]:8+0x2");
    assert_eq!((a.clone() * sum.clone()).to_string(), "1[0]:8*(1[8]:8+0x1)");
    assert_eq!(Value::load(a.clone(), 4, 1).to_string(), "*[1]1[0]:8:4");
    assert_eq!(Value::zero_extend(a.clone(), 8).to_string(), "zext(1[0]:8, 8)");
    assert_eq!(Value::extract(a.clone(), 2, 1).to_string(), "extract(1[0]:8, 2:1)");
    assert_eq!(Value::bool_negate(sum).to_string(), "!(1[8]:8+0x1)");
}

#[test]
fn valuation_text_lists_entries() {
    let mut vs = ValuationSet::new();
    vs.add(reg(0, 8).into(), Value::const_(1, 8));
    vs.add(
        Location::Indirect(Value::load(Value::entry(reg(8, 8)), 4, 1)),
        Value::const_(2, 4),
    );
    assert_eq!(
        vs.to_string(),
        "Valuation {1[0]:8 = 0x1, [*[1]1[8]:8:4] = 0x2}"
    );
    assert_eq!(Location::Direct(reg(0, 8)).to_string(), "1[0]:8");
}

// --- text forms with an architecture's names -------------------------------

fn names() -> ArchNames {
    ArchNames {
        spaces: vec![
            SpaceName {
                name: "const".to_string(),
                space_type: SpaceType::Constant,
            },
            SpaceName {
                name: "register".to_string(),
                space_type: SpaceType::Processor,
            },
            SpaceName {
                name: "unique".to_string(),
                space_type: SpaceType::Internal,
            },
        ],
        registers: vec![(reg(0, 8), "RAX".to_string())],
    }
}

#[test]
fn jingle_text_names_registers_and_spaces() {
    let info = names();
    assert_eq!(Value::entry(reg(0, 8)).fmt_jingle(&info), Some("RAX".to_string()));
    assert_eq!(
        Value::entry(reg(0x10, 8)).fmt_jingle(&info),
        Some("[register]0x10:8".to_string())
    );
    assert_eq!(
        Value::entry(VarNode::new(0x20, 4, 2)).fmt_jingle(&info),
        Some("$U20:4".to_string())
    );
    assert_eq!(
        Value::entry(VarNode::new_const(5, 4)).fmt_jingle(&info),
        Some("0x5:4".to_string())
    );
    assert_eq!(Value::const_(42, 8).fmt_jingle(&info), Some("0x2a".to_string()));
}

#[test]
fn jingle_text_of_operators() {
    let info = names();
    let rax = Value::entry(reg(0, 8));
    assert_eq!(
        Value::load(rax.clone() + Value::const_(8, 8), 4, 1).fmt_jingle(&info),
        Some("*[register](RAX+0x8):4".to_string())
    );
    assert_eq!(
        Value::int_carry(rax.clone(), Value::entry(reg(0x10, 8))).fmt_jingle(&info),
        Some("carry(RAX,[register]0x10:8)".to_string())
    );
}

#[test]
fn jingle_text_fails_on_unknown_space() {
    let info = names();
    assert_eq!(Value::entry(VarNode::new(0, 8, 7)).fmt_jingle(&info), None);
    assert_eq!(Value::load(Value::const_(0, 8), 8, 9).fmt_jingle(&info), None);
}

#[test]
fn jingle_text_of_a_valuation() {
    let info = names();
    let mut vs = ValuationSet::new();
    vs.add(reg(0, 8).into(), Value::const_(1, 8));
    assert_eq!(vs.fmt_jingle(&info), Some("Valuation {RAX = 0x1}".to_string()));
    assert_eq!(
        Location::Direct(reg(0x10, 8)).fmt_jingle(&info),
        Some("[register]0x10:8".to_string())
    );
}

#[test]
fn join_with_an_equal_state_changes_nothing() {
    let r = reg(0x10, 8);
    let ptr = Value::entry(reg(0x20, 8));
    let mut a = ValuationState::new(test_arch());
    a.valuation.add(r.into(), Value::entry(reg(0x30, 8)) + Value::const_(1, 8));
    a.valuation.add(Location::Indirect(Value::load(ptr.clone(), 4, 1)), Value::Top);
    let b = a.duplicate();
    a.join(&b);
    assert_eq!(a.partial_cmp(&b), Some(Ordering::Equal));
    assert_eq!(
        a.valuation.get(&Location::Indirect(Value::load(ptr, 4, 1))),
        Some(&Value::Top)
    );
}

#[test]
fn top_absorbs_operators() {
    let x = Value::entry(reg(0, 8));
    assert_eq!(Value::zero_extend(Value::Top, 8).simplify(), Value::Top);
    assert_eq!((x.clone() * Value::Top).simplify(), Value::Top);
    assert_eq!(Value::int_equal(Value::Top, x).simplify(), Value::Top);
}

#[test]
fn hex_text_of_values() {
    let a = Value::entry(reg(0x10, 8));
    assert_eq!(Value::const_(255, 8).to_hex_string(), "ff");
    assert_eq!((a.clone() + Value::const_(0x20, 8)).to_hex_string(), "1[16]:8+20");
    assert_eq!(Value::load(a.clone(), 16, 1).to_hex_string(), "*[1]1[16]:8:10");
    assert_eq!(Value::zero_extend(a.clone(), 16).to_hex_string(), "zext(1[16]:8, 16)");
    assert_eq!(
        Value::offset(reg(0x10, 8), VarNode::new_const(0x20, 8)).to_hex_string(),
        "offset(1[10]:8, 0[20]:8)"
    );
    assert_eq!(Value::bind(255, 8).to_hex_string(), "bind(ff, 8)");
}

#[test]
fn store_then_load_reads_the_stored_value() {
    let state = ValuationState::new(test_arch());
    let ptr = reg(0x40, 8);
    let src = reg(0x50, 8);
    let out = reg(0x60, 8);
    let at = IndirectVarNode::new(ptr, 8, 1);
    let stored = state.transfer_impl(&PcodeOperation::Store { output: at, input: src });
    let loaded = stored.transfer_impl(&PcodeOperation::Load { input: at, output: out });
    assert_eq!(loaded.get_value(&out), Some(&Value::entry(src)));
}

#[test]
fn copy_then_read_gives_the_copied_value() {
    let mut state = ValuationState::new(test_arch());
    let src = reg(0x50, 8);
    let out = reg(0x60, 8);
    state.valuation.add(src.into(), Value::const_(7, 8));
    let next = state.transfer_impl(&PcodeOperation::Copy { input: src, output: out });
    assert_eq!(next.read_vn(&out), Value::const_(7, 8));
}

#[test]
fn indirect_writes_are_kept_in_pointer_order() {
    let mut vs = ValuationSet::new();
    let high = Value::const_(0x40, 8);
    let low = Value::entry(VarNode::new(0x10, 8, 1));
    let mid = Value::entry(VarNode::new(0x20, 8, 1));
    vs.add(Location::Indirect(Value::load(high.clone(), 4, 1)), Value::const_(1, 4));
    vs.add(Location::Indirect(Value::load(mid.clone(), 4, 1)), Value::const_(2, 4));
    vs.add(Location::Indirect(Value::load(low.clone(), 4, 1)), Value::const_(3, 4));
    let pointers: Vec<Value> = vs.indirect_writes.iter().map(|(p, _)| p.clone()).collect();
    // entries come before constants, and entries by space, offset and size
    assert_eq!(pointers, vec![low.clone(), mid.clone(), high.clone()]);
    let locations = vs.keys();
    assert_eq!(
        locations,
        vec![
            Location::Indirect(Value::load(low, 4, 1)),
            Location::Indirect(Value::load(mid, 4, 1)),
            Location::Indirect(Value::load(high, 4, 1)),
        ]
    );
}
