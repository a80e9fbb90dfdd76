use arendur::component::bvh::{BVHStrategy, BuildNode};
use arendur::geometry::bbox::BBox3;
use arendur::geometry::point::Point3;

fn unit_box(x: i32) -> BBox3<i32> {
    BBox3::new(Point3::new(x, 0, 0), Point3::new(x + 1, 1, 1))
}

fn leaf(offset: usize, len: usize, x: i32) -> Box<BuildNode<i32>> {
    let mut n = BuildNode { bound: unit_box(0), childs: None, offset: 0, len: 1 };
    n.to_leaf(offset, len, unit_box(x));
    Box::new(n)
}

fn interior(c0: Box<BuildNode<i32>>, c1: Box<BuildNode<i32>>, axis: usize) -> Box<BuildNode<i32>> {
    let mut n = BuildNode { bound: unit_box(0), childs: None, offset: 0, len: 1 };
    n.to_interior(c0, c1, axis);
    Box::new(n)
}

#[test]
fn bvh_build_nodes() {
    let l = leaf(3, 2, 5);
    assert!(l.is_leaf());
    assert_eq!(l.node_length(), 1);
    assert_eq!((l.offset, l.len), (3, 2));
    let t = interior(leaf(0, 1, 0), leaf(1, 2, 4), 0);
    assert!(!t.is_leaf());
    assert_eq!(t.node_length(), 3);
    assert_eq!(t.offset, 2);
    assert_eq!(t.bound, BBox3::new(Point3::new(0, 0, 0), Point3::new(5, 1, 1)));
}

#[test]
fn bvh_flatten_preorder_layout() {
    // ((A, B), C) with A, B, C leaves
    let left = interior(leaf(0, 1, 0), leaf(1, 1, 1), 1);
    let root = interior(left, leaf(2, 3, 2), 0);
    let nodes = root.flatten(5);
    assert_eq!(nodes.len(), 5);
    // root: interior, second child 4 positions on
    assert_eq!((nodes[0].len, nodes[0].offset, nodes[0].split_axis), (0, 4, 0));
    // left subtree root right after the root
    assert_eq!((nodes[1].len, nodes[1].offset, nodes[1].split_axis), (0, 2, 1));
    assert_eq!((nodes[2].len, nodes[2].offset, nodes[2].split_axis), (1, 0, 4));
    assert_eq!((nodes[3].len, nodes[3].offset), (1, 1));
    assert_eq!((nodes[4].len, nodes[4].offset), (3, 2));
    assert_eq!(nodes[1 + nodes[1].offset].offset, 1);
    assert_eq!(nodes[4].bound, unit_box(2));
}

#[test]
fn bvh_strategy_values() {
    let all = [BVHStrategy::SAH, BVHStrategy::MiddleCount, BVHStrategy::MidPoint];
    assert_eq!(all.iter().filter(|s| **s == BVHStrategy::MidPoint).count(), 1);
}
