use drag::utils::{
    get_window_pointer_is_over, has_correct_xdnd_aware_property, WindowNode, WindowRect,
    WindowTree,
};

fn node(id: u64, x: i32, y: i32, width: i32, height: i32, children: Vec<usize>) -> WindowNode {
    WindowNode {
        id,
        rect: WindowRect { x, y, width, height },
        children,
    }
}

/// A root with two overlapping children; the second child is above
/// the first in stacking order and has a nested child of its own.
///
/// index 0: root, 1000x1000 at (0, 0), id 100
/// index 1: child A, 100x100 at (10, 10), id 101 (bottom)
/// index 2: child B, 100x100 at (50, 50), id 102 (top)
/// index 3: grandchild of B, 20x20 at (5, 5) within B, id 103
fn sample_tree() -> WindowTree {
    WindowTree {
        nodes: vec![
            node(100, 0, 0, 1000, 1000, vec![1, 2]),
            node(101, 10, 10, 100, 100, vec![]),
            node(102, 50, 50, 100, 100, vec![3]),
            node(103, 5, 5, 20, 20, vec![]),
        ],
    }
}

#[test]
fn pointer_outside_every_child_stays_on_the_root() {
    let tree = sample_tree();
    assert_eq!(get_window_pointer_is_over(&tree, 0, 500, 500, 0, 0), 100);
}

#[test]
fn pointer_in_a_single_child_finds_that_child() {
    let tree = sample_tree();
    assert_eq!(get_window_pointer_is_over(&tree, 0, 20, 20, 0, 0), 101);
}

#[test]
fn overlap_goes_to_the_topmost_child() {
    let tree = sample_tree();
    // (100, 60) lies in both A and B but not in B's own child;
    // B is later in stacking order and wins
    assert_eq!(get_window_pointer_is_over(&tree, 0, 100, 60, 0, 0), 102);
}

#[test]
fn descent_translates_coordinates_into_the_grandchild() {
    let tree = sample_tree();
    // B's origin is (50, 50); its child covers [55, 75) on both axes
    assert_eq!(get_window_pointer_is_over(&tree, 0, 55, 55, 0, 0), 103);
    assert_eq!(get_window_pointer_is_over(&tree, 0, 74, 74, 0, 0), 103);
    assert_eq!(get_window_pointer_is_over(&tree, 0, 75, 75, 0, 0), 102);
    assert_eq!(get_window_pointer_is_over(&tree, 0, 76, 76, 0, 0), 102);
}

#[test]
fn box_edges_are_half_open() {
    let tree = sample_tree();
    // A covers [10, 110) in both axes: its low edge is inside,
    // its high edge is not (and (110, 10) is outside B as well)
    assert_eq!(get_window_pointer_is_over(&tree, 0, 10, 10, 0, 0), 101);
    assert_eq!(get_window_pointer_is_over(&tree, 0, 110, 10, 0, 0), 100);
}

#[test]
fn traversal_may_start_below_the_root() {
    let tree = sample_tree();
    // starting at B itself with B's screen origin already accumulated
    assert_eq!(get_window_pointer_is_over(&tree, 2, 56, 56, 50, 50), 103);
}

#[test]
fn aware_property_accepts_versions_up_to_the_supported_one() {
    assert_eq!(has_correct_xdnd_aware_property(Some(&vec![5]), 5), Some(5));
    assert_eq!(has_correct_xdnd_aware_property(Some(&vec![3]), 5), Some(3));
    // the first byte alone decides
    assert_eq!(
        has_correct_xdnd_aware_property(Some(&vec![4, 0, 0, 0]), 5),
        Some(4)
    );
}

#[test]
fn aware_property_rejects_newer_versions_and_absence() {
    assert_eq!(has_correct_xdnd_aware_property(Some(&vec![6]), 5), None);
    assert_eq!(has_correct_xdnd_aware_property(Some(&vec![]), 5), None);
    assert_eq!(has_correct_xdnd_aware_property(None, 5), None);
}
