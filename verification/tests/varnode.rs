use jingle::analysis::varnode::VarNodeSet;
use jingle::sleigh::VarNode;
use std::cmp::Ordering;
#[test]
fn test_single_insert() {
    let mut set = VarNodeSet::default();
    let vn = VarNode {
        space_index: 0,
        offset: 4,
        size: 4,
    };
    set.insert(&vn);
    let items = set.varnodes().into_iter().collect::<Vec<_>>();
    assert_eq!(items, vec![vn]);
}

#[test]
fn test_covers() {
    let mut set = VarNodeSet::default();
    let vn = VarNode {
        space_index: 0,
        offset: 4,
        size: 4,
    };
    set.insert(&vn);
    assert!(set.covers(&vn));
    assert!(!set.covers(&VarNode {
        space_index: 0,
        offset: 4,
        size: 43,
    }));
}

#[test]
fn test_ord() {
    let mut set = VarNodeSet::default();
    let vn = VarNode {
        space_index: 0,
        offset: 4,
        size: 4,
    };
    set.insert(&vn);
    let mut set2 = VarNodeSet::default();
    let vn2 = VarNode {
        space_index: 0,
        offset: 4,
        size: 1,
    };
    set2.insert(&vn2);
    assert_eq!(set.partial_cmp(&set2), Some(Ordering::Less));
    set2.insert(&vn);
    assert_eq!(set.partial_cmp(&set2), Some(Ordering::Equal));
    set2.insert(&VarNode {
        space_index: 0,
        offset: 80,
        size: 4,
    });
    assert_eq!(set.partial_cmp(&set2), Some(Ordering::Greater));
    set.insert(&VarNode {
        space_index: 1,
        offset: 80,
        size: 4,
    });
    assert_eq!(set.partial_cmp(&set2), None);
}

#[test]
fn test_overlapping_insert() {
    let mut set = VarNodeSet::default();
    let vn = VarNode {
        space_index: 0,
        offset: 4,
        size: 4,
    };
    let vn2 = VarNode {
        space_index: 0,
        offset: 6,
        size: 4,
    };
    set.insert(&vn);
    set.insert(&vn2);
    let items = set.varnodes().into_iter().collect::<Vec<_>>();
    assert_eq!(
        items,
        vec![VarNode {
            space_index: 0,
            offset: 4,
            size: 6
        }]
    );
}

#[test]
fn test_nonoverlapping_insert() {
    let mut set = VarNodeSet::default();
    let vn = VarNode {
        space_index: 0,
        offset: 4,
        size: 4,
    };
    let vn2 = VarNode {
        space_index: 0,
        offset: 9,
        size: 4,
    };
    set.insert(&vn);
    set.insert(&vn2);
    let items = set.varnodes().into_iter().collect::<Vec<_>>();
    assert_eq!(items, vec![vn, vn2]);
}

#[test]
fn test_intersection_partial() {
    let mut set = VarNodeSet::default();
    let mut set2 = VarNodeSet::default();
    let vn = VarNode {
        space_index: 0,
        offset: 4,
        size: 4,
    };
    let vn2 = VarNode {
        space_index: 0,
        offset: 9,
        size: 4,
    };
    let vn3 = VarNode {
        space_index: 0,
        offset: 5,
        size: 6,
    };
    set.insert(&vn);
    set.insert(&vn2);
    set2.insert(&vn3);
    let intersect = set.intersect(&set2);
    let intersect2 = set2.intersect(&set);
    assert_eq!(intersect, intersect2);
    let items = intersect.varnodes().into_iter().collect::<Vec<_>>();
    assert_eq!(
        items,
        vec![
            VarNode {
                space_index: 0,
                offset: 5,
                size: 3
            },
            VarNode {
                space_index: 0,
                offset: 9,
                size: 2
            }
        ]
    );
}

#[test]
fn test_empty_set_behavior() {
    let set = VarNodeSet::default();
    let vn = VarNode {
        space_index: 0,
        offset: 0,
        size: 4,
    };
    assert!(!set.covers(&vn));
    assert_eq!(set.varnodes().into_iter().count(), 0);
    let set2 = VarNodeSet::default();
    assert_eq!(set.partial_cmp(&set2), Some(Ordering::Equal));
}

#[test]
fn test_multi_space_insert_and_cmp() {
    let mut set = VarNodeSet::default();
    let mut set2 = VarNodeSet::default();
    let vn1 = VarNode {
        space_index: 0,
        offset: 0,
        size: 4,
    };
    let vn2 = VarNode {
        space_index: 1,
        offset: 0,
        size: 4,
    };
    set.insert(&vn1);
    set2.insert(&vn2);
    assert_eq!(set.partial_cmp(&set2), None);
    set.insert(&vn2);
    set2.insert(&vn1);
    assert_eq!(set.partial_cmp(&set2), Some(Ordering::Equal));
}

#[test]
fn test_full_overlap_insert() {
    let mut set = VarNodeSet::default();
    let vn1 = VarNode {
        space_index: 0,
        offset: 0,
        size: 8,
    };
    let vn2 = VarNode {
        space_index: 0,
        offset: 2,
        size: 2,
    };
    set.insert(&vn1);
    set.insert(&vn2);
    let items = set.varnodes().into_iter().collect::<Vec<_>>();
    assert_eq!(items, vec![vn1]);
}

#[test]
fn test_adjacent_insert_merging() {
    let mut set = VarNodeSet::default();
    let vn1 = VarNode {
        space_index: 0,
        offset: 0,
        size: 4,
    };
    let vn2 = VarNode {
        space_index: 0,
        offset: 4,
        size: 4,
    };
    set.insert(&vn1);
    set.insert(&vn2);
    let items = set.varnodes().into_iter().collect::<Vec<_>>();
    assert_eq!(
        items,
        vec![VarNode {
            space_index: 0,
            offset: 0,
            size: 8
        }]
    );
}

#[test]
fn test_covers_partial_and_full() {
    let mut set = VarNodeSet::default();
    let vn = VarNode {
        space_index: 0,
        offset: 0,
        size: 8,
    };
    set.insert(&vn);
    let partial = VarNode {
        space_index: 0,
        offset: 2,
        size: 2,
    };
    let outside = VarNode {
        space_index: 0,
        offset: 8,
        size: 2,
    };
    assert!(set.covers(&vn));
    assert!(set.covers(&partial));
    assert!(!set.covers(&outside));
}

#[test]
fn test_intersect_disjoint() {
    let mut set1 = VarNodeSet::default();
    let mut set2 = VarNodeSet::default();
    let vn1 = VarNode {
        space_index: 0,
        offset: 0,
        size: 4,
    };
    let vn2 = VarNode {
        space_index: 0,
        offset: 8,
        size: 4,
    };
    set1.insert(&vn1);
    set2.insert(&vn2);
    let intersect = set1.intersect(&set2);
    assert_eq!(intersect.varnodes().into_iter().count(), 0);
}

#[test]
fn test_intersect_full_overlap() {
    let mut set1 = VarNodeSet::default();
    let mut set2 = VarNodeSet::default();
    let vn = VarNode {
        space_index: 0,
        offset: 0,
        size: 8,
    };
    set1.insert(&vn);
    set2.insert(&vn);
    let intersect = set1.intersect(&set2);
    let items = intersect.varnodes().into_iter().collect::<Vec<_>>();
    assert_eq!(items, vec![vn]);
}

#[test]
fn test_union_basic() {
    let mut set1 = VarNodeSet::default();
    let mut set2 = VarNodeSet::default();
    let vn1 = VarNode {
        space_index: 0,
        offset: 0,
        size: 4,
    };
    let vn2 = VarNode {
        space_index: 0,
        offset: 4,
        size: 4,
    };
    set1.insert(&vn1);
    set2.insert(&vn2);
    set1.union(&set2);
    let items = set1.varnodes().into_iter().collect::<Vec<_>>();
    assert_eq!(
        items,
        vec![VarNode {
            space_index: 0,
            offset: 0,
            size: 8
        }]
    );
}

#[test]
fn test_union_disjoint_spaces() {
    let mut set1 = VarNodeSet::default();
    let mut set2 = VarNodeSet::default();
    let vn1 = VarNode {
        space_index: 0,
        offset: 0,
        size: 4,
    };
    let vn2 = VarNode {
        space_index: 1,
        offset: 0,
        size: 4,
    };
    set1.insert(&vn1);
    set2.insert(&vn2);
    set1.union(&set2);
    let mut items = set1.varnodes().into_iter().collect::<Vec<_>>();
    items.sort_by_key(|vn| vn.space_index);
    assert_eq!(items, vec![vn1, vn2]);
}

#[test]
fn test_subtract_partial_overlap() {
    let mut set1 = VarNodeSet::default();
    let mut set2 = VarNodeSet::default();
    let vn1 = VarNode {
        space_index: 0,
        offset: 0,
        size: 8,
    };
    let vn2 = VarNode {
        space_index: 0,
        offset: 2,
        size: 4,
    };
    set1.insert(&vn1);
    set2.insert(&vn2);
    set1.subtract(&set2);
    let items = set1.varnodes().into_iter().collect::<Vec<_>>();
    assert_eq!(
        items,
        vec![
            VarNode {
                space_index: 0,
                offset: 0,
                size: 2
            },
            VarNode {
                space_index: 0,
                offset: 6,
                size: 2
            }
        ]
    );
}

#[test]
fn test_subtract_full_overlap() {
    let mut set1 = VarNodeSet::default();
    let mut set2 = VarNodeSet::default();
    let vn1 = VarNode {
        space_index: 0,
        offset: 0,
        size: 4,
    };
    let vn2 = VarNode {
        space_index: 0,
        offset: 0,
        size: 4,
    };
    set1.insert(&vn1);
    set2.insert(&vn2);
    set1.subtract(&set2);
    assert_eq!(set1.varnodes().into_iter().count(), 0);
}

#[test]
fn test_subtract_disjoint() {
    let mut set1 = VarNodeSet::default();
    let mut set2 = VarNodeSet::default();
    let vn1 = VarNode {
        space_index: 0,
        offset: 0,
        size: 4,
    };
    let vn2 = VarNode {
        space_index: 0,
        offset: 8,
        size: 4,
    };
    set1.insert(&vn1);
    set2.insert(&vn2);
    set1.subtract(&set2);
    let items = set1.varnodes().into_iter().collect::<Vec<_>>();
    assert_eq!(items, vec![vn1]);
}

#[test]
fn test_covers_empty_set() {
    let set = VarNodeSet::default();
    let vn = VarNode {
        space_index: 0,
        offset: 0,
        size: 4,
    };
    assert!(!set.covers(&vn));
}

#[test]
fn test_varnodes_iterator_empty() {
    let set = VarNodeSet::default();
    assert_eq!(set.varnodes().into_iter().count(), 0);
}

#[test]
fn test_insert_and_subtract_adjacent() {
    let mut set = VarNodeSet::default();
    let vn1 = VarNode {
        space_index: 0,
        offset: 0,
        size: 4,
    };
    let vn2 = VarNode {
        space_index: 0,
        offset: 4,
        size: 4,
    };
    set.insert(&vn1);
    set.insert(&vn2);
    let mut set2 = VarNodeSet::default();
    let vn3 = VarNode {
        space_index: 0,
        offset: 2,
        size: 4,
    };
    set2.insert(&vn3);
    set.subtract(&set2);
    let items = set.varnodes().into_iter().collect::<Vec<_>>();
    assert_eq!(
        items,
        vec![
            VarNode {
                space_index: 0,
                offset: 0,
                size: 2
            },
            VarNode {
                space_index: 0,
                offset: 6,
                size: 2
            }
        ]
    );
}

#[test]
fn test_union_with_empty() {
    let mut set1 = VarNodeSet::default();
    let set2 = VarNodeSet::default();
    let vn = VarNode {
        space_index: 0,
        offset: 0,
        size: 4,
    };
    set1.insert(&vn);
    set1.union(&set2);
    let items = set1.varnodes().into_iter().collect::<Vec<_>>();
    assert_eq!(items, vec![vn]);
}

#[test]
fn test_subtract_empty() {
    let mut set1 = VarNodeSet::default();
    let set2 = VarNodeSet::default();
    let vn = VarNode {
        space_index: 0,
        offset: 0,
        size: 4,
    };
    set1.insert(&vn);
    set1.subtract(&set2);
    let items = set1.varnodes().into_iter().collect::<Vec<_>>();
    assert_eq!(items, vec![vn]);
}

#[test]
fn test_insert_multiple_nonoverlapping() {
    let mut set = VarNodeSet::default();
    let vn1 = VarNode {
        space_index: 0,
        offset: 0,
        size: 2,
    };
    let vn2 = VarNode {
        space_index: 0,
        offset: 4,
        size: 2,
    };
    let vn3 = VarNode {
        space_index: 0,
        offset: 8,
        size: 2,
    };
    set.insert(&vn1);
    set.insert(&vn2);
    set.insert(&vn3);
    let mut items = set.varnodes().into_iter().collect::<Vec<_>>();
    items.sort_by_key(|vn| vn.offset);
    assert_eq!(items, vec![vn1, vn2, vn3]);
}

#[test]
fn varnode_covering_is_reflexive_and_transitive() {
    let a = VarNode::new(0, 8, 1);
    let b = VarNode::new(2, 4, 1);
    let c = VarNode::new(3, 1, 1);
    assert!(a.covers(&a));
    assert!(a.covers(&b) && b.covers(&c) && a.covers(&c));
    assert!(a.overlaps(&b) && b.overlaps(&a));
    assert!(!c.covers(&b));
}

#[test]
fn adjacent_insert_merges_in_either_order() {
    let lo = VarNode { space_index: 0, offset: 0, size: 4 };
    let hi = VarNode { space_index: 0, offset: 4, size: 4 };
    let whole = vec![VarNode { space_index: 0, offset: 0, size: 8 }];
    let mut a = VarNodeSet::default();
    a.insert(&lo);
    a.insert(&hi);
    let mut b = VarNodeSet::default();
    b.insert(&hi);
    b.insert(&lo);
    assert_eq!(a.varnodes(), whole);
    assert_eq!(b.varnodes(), whole);
}

#[test]
fn touching_ranges_intersect_to_nothing() {
    let mut a = VarNodeSet::default();
    a.insert(&VarNode { space_index: 0, offset: 0, size: 4 });
    let mut b = VarNodeSet::default();
    b.insert(&VarNode { space_index: 0, offset: 4, size: 4 });
    assert_eq!(a.intersect(&b).varnodes().len(), 0);
    assert_eq!(b.intersect(&a).varnodes().len(), 0);
}

#[test]
fn different_spaces_intersect_to_nothing() {
    let mut a = VarNodeSet::default();
    a.insert(&VarNode { space_index: 0, offset: 0, size: 4 });
    let mut b = VarNodeSet::default();
    b.insert(&VarNode { space_index: 1, offset: 0, size: 4 });
    assert_eq!(a.intersect(&b).varnodes().len(), 0);
    assert!(!a.intersect(&b).covers(&VarNode { space_index: 0, offset: 0, size: 1 }));
}

#[test]
fn empty_insert_adds_nothing() {
    let mut a = VarNodeSet::default();
    a.insert(&VarNode { space_index: 0, offset: 4, size: 0 });
    assert_eq!(a.varnodes().len(), 0);
    a.insert(&VarNode { space_index: 0, offset: 0, size: 4 });
    a.insert(&VarNode { space_index: 0, offset: 2, size: 0 });
    assert_eq!(a.varnodes(), vec![VarNode { space_index: 0, offset: 0, size: 4 }]);
}
