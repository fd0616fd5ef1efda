#[test]
fn test_tree_basics() {
    let mut t: libcmbr::tree::Tree<u32> = libcmbr::tree::Tree::new();
    assert!(t.is_leaf());
    assert_eq!(*t.get_value(), 0);
    t.insert(5);
    t.insert(7);
    assert!(!t.is_leaf());
    assert_eq!(t.get_children().len(), 2);
    assert_eq!(*t.get_children()[0].get_value(), 5);
    assert_eq!(*t.get_children()[1].get_value(), 7);
    *t.get_value_mut() = 9;
    assert_eq!(*t.get_value(), 9);
    let t2 = libcmbr::tree::Tree::new_with_value(3u32);
    assert_eq!(*t2.get_value(), 3);
}

#[test]
fn test_pgn_tree_insert_returns_child() {
    let mut t = libcmbr::pgn::tree::Tree::new_with_value(1u32);
    t.append(2);
    {
        let child = t.insert(3);
        assert_eq!(*child.get_value(), 3);
        child.append(4);
    }
    assert_eq!(t.get_children().len(), 2);
    let grand = &t.get_children()[1];
    assert_eq!(*grand.get_value(), 3);
    assert_eq!(grand.get_children().len(), 1);
    assert_eq!(*grand.get_children()[0].get_value(), 4);
    assert!(t.get_children()[0].is_leaf());
    let mut via = libcmbr::pgn::tree::Tree::new_with_value(0u32);
    via.get_children_mut().clear();
    assert!(via.is_leaf());
}
