use jingle::analysis::varnode_map::VarNodeMap;
use jingle::sleigh::VarNode;

#[test]
fn test_insert_get_contains() {
    let mut m = VarNodeMap::new();

    let vn1 = VarNode {
        space_index: 1,
        offset: 0x10,
        size: 4,
    };
    let vn2 = VarNode {
        space_index: 1,
        offset: 0x08,
        size: 4,
    };

    assert!(!m.contains(&vn1));
    assert!(m.insert(vn1.clone(), 100).is_none());
    assert!(m.contains(&vn1));
    assert_eq!(m.get(&vn1), Some(&100));

    // Insert second in a position that should sort before vn1
    assert!(m.insert(vn2.clone(), 200).is_none());
    assert!(m.contains(&vn2));
    assert_eq!(m.get(&vn2), Some(&200));
    assert_eq!(m.get(&vn1), Some(&100));
    assert_eq!(m.len(), 2);
}

#[test]
fn test_replace_returns_old() {
    let mut m = VarNodeMap::new();
    let vn = VarNode {
        space_index: 0,
        offset: 0x0,
        size: 8,
    };
    assert!(m.insert(vn.clone(), 1).is_none());
    let old = m.insert(vn.clone(), 2);
    assert_eq!(old, Some(1));
    assert_eq!(m.get(&vn), Some(&2));
}

#[test]
fn test_remove_and_indices() {
    let mut m = VarNodeMap::new();
    let a = VarNode {
        space_index: 0,
        offset: 0,
        size: 4,
    };
    let b = VarNode {
        space_index: 0,
        offset: 4,
        size: 4,
    };
    let c = VarNode {
        space_index: 0,
        offset: 8,
        size: 4,
    };

    m.insert(b.clone(), "b");
    m.insert(a.clone(), "a");
    m.insert(c.clone(), "c");

    // ensure all present
    assert_eq!(m.get(&a), Some(&"a"));
    assert_eq!(m.get(&b), Some(&"b"));
    assert_eq!(m.get(&c), Some(&"c"));

    // remove middle element (originally b)
    let removed = m.remove(&b);
    assert_eq!(removed, Some("b"));
    assert!(!m.contains(&b));
    assert_eq!(m.len(), 2);

    // remaining entries still retrievable
    assert_eq!(m.get(&a), Some(&"a"));
    assert_eq!(m.get(&c), Some(&"c"));
}

#[test]
fn test_iteration_order_is_sorted() {
    let mut m = VarNodeMap::new();
    let v1 = VarNode {
        space_index: 1,
        offset: 0x20,
        size: 4,
    };
    let v2 = VarNode {
        space_index: 0,
        offset: 0x10,
        size: 4,
    };
    let v3 = VarNode {
        space_index: 1,
        offset: 0x10,
        size: 4,
    };

    m.insert(v1.clone(), 1);
    m.insert(v2.clone(), 2);
    m.insert(v3.clone(), 3);

    // iteration should yield keys in sorted order defined by (space_index, offset, size)
    let keys: Vec<(usize, u64, usize)> = m
        .items()
        .into_iter()
        .map(|(k, _)| (k.space_index, k.offset, k.size))
        .collect();

    assert_eq!(
        keys,
        vec![
            (0, 0x10, 4), // v2
            (1, 0x10, 4), // v3
            (1, 0x20, 4)  // v1
        ]
    );
}

#[test]
fn test_into_iter_consumes() {
    let mut m = VarNodeMap::new();
    let v1 = VarNode {
        space_index: 0,
        offset: 0x10,
        size: 4,
    };
    let v2 = VarNode {
        space_index: 0,
        offset: 0x20,
        size: 4,
    };

    m.insert(v1.clone(), "foo");
    m.insert(v2.clone(), "bar");

    let items: Vec<(VarNode, &str)> = m.into_vec();
    assert_eq!(items.len(), 2);
    // Map was consumed, can't use it anymore
}

#[test]
fn test_iter_mut() {
    let mut m = VarNodeMap::new();
    let v1 = VarNode {
        space_index: 0,
        offset: 0x10,
        size: 4,
    };
    let v2 = VarNode {
        space_index: 0,
        offset: 0x20,
        size: 4,
    };

    m.insert(v1.clone(), 100);
    m.insert(v2.clone(), 200);

    for value in m.values_mut().iter_mut() {
        *value *= 2;
    }

    assert_eq!(m.get(&v1), Some(&200));
    assert_eq!(m.get(&v2), Some(&400));
}

#[test]
fn get_mut_changes_one_value() {
    let mut m = VarNodeMap::new();
    let v1 = VarNode::new(0x10, 4, 0);
    let v2 = VarNode::new(0x20, 4, 0);
    m.insert(v1, 1);
    m.insert(v2, 2);
    if let Some(x) = m.get_mut(&v2) {
        *x = 20;
    }
    assert_eq!(m.get(&v1), Some(&1));
    assert_eq!(m.get(&v2), Some(&20));
    assert!(m.get_mut(&VarNode::new(0x30, 4, 0)).is_none());
}
