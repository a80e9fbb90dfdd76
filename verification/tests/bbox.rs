use arendur::geometry::bbox::{BBox2, BBox3};
use arendur::geometry::point::{Point2, Point3, Vector2, Vector3};

#[test]
fn test_bbox2_new() {
    let bbox = BBox2::new(Point2::new(1, 0), Point2::new(0, 1));
    assert!(bbox.pmin == Point2::new(0, 0));
    assert!(bbox.pmax == Point2::new(1, 1));
}

#[test]
fn test_bbox2_corner() {
    let bbox = BBox2::new(Point2::new(1, 0), Point2::new(0, 1));
    assert!(bbox.corner(0) == Point2::new(0, 0));
    assert!(bbox.corner(1) == Point2::new(1, 0));
    assert!(bbox.corner(2) == Point2::new(0, 1));
    assert!(bbox.corner(3) == Point2::new(1, 1));
}

#[test]
fn test_bbox2_extend_contain() {
    let bbox = BBox2::new(Point2::new(1, 0), Point2::new(0, 1));
    let bbox1 = bbox.extend(Point2::new(2, 3));
    assert!(bbox1.contain(Point2::new(2, 2)));
    assert!(!bbox1.contain_lb(Point2::new(2, 2)));
}

#[test]
fn test_bbox2_union() {
    let bbox = BBox2::new(Point2::new(1, 0), Point2::new(0, 1));
    let bbox1 = BBox2::new(Point2::new(20, 4), Point2::new(10, 8));
    assert!(bbox1.union(&bbox) == BBox2::new(Point2::new(0, 0), Point2::new(20, 8)));
}

#[test]
fn test_bbox2_intersect() {
    let bbox: BBox2<usize> = BBox2::new(Point2::new(1, 0), Point2::new(0, 1));
    let bbox1: BBox2<usize> = BBox2::new(Point2::new(20, 4), Point2::new(10, 8));
    assert!(bbox1.intersect(&bbox) == None);
    let bbox = BBox2::new(Point2::new(0, 0), Point2::new(2, 2));
    let bbox1 = BBox2::new(Point2::new(1, 3), Point2::new(3, 1));
    let bbox2 = BBox2::new(Point2::new(1, 1), Point2::new(2, 2));
    assert!(bbox.intersect(&bbox1) == Some(bbox2));
}

#[test]
fn test_bbox2_overlap() {
    let bbox = BBox2::new(Point2::new(1, 0), Point2::new(0, 1));
    let bbox1 = BBox2::new(Point2::new(20, 4), Point2::new(10, 8));
    assert!(!bbox.overlap(&bbox1));
    let bbox2 = BBox2::new(Point2::new(-1, 4), Point2::new(17, 3));
    assert!(bbox1.overlap(&bbox2));
}

#[test]
fn test_bbox2_expand_by() {
    let bbox = BBox2::new(Point2::new(1, 0), Point2::new(0, 1));
    let bbox1 = bbox.expand_by(3);
    assert!(bbox1.pmin == Point2::new(-3, -3));
    assert!(bbox1.pmax == Point2::new(4, 4));
}

#[test]
fn test_bbox2_surface_area() {
    let bbox = BBox2::new(Point2::new(1, 0), Point2::new(0, 1));
    let bbox1 = bbox.expand_by(3);
    assert!(bbox1.surface_area() == 49);
}

#[test]
fn test_bbox2_max_extent() {
    let bbox = BBox2::new(Point2::new(1, 0), Point2::new(0, 10));
    assert!(bbox.max_extent() == 1);
    let bbox = BBox2::new(Point2::new(100, 0), Point2::new(0, 10));
    assert!(bbox.max_extent() == 0);
}

#[test]
fn test_bbox2_iter() {
    let bbox = BBox2::new(Point2::new(0, 0), Point2::new(2, 2));
    let mut bboxiter = bbox.into_iter();
    assert_eq!(bboxiter.next(), Some(Point2::new(0, 0)));
    assert_eq!(bboxiter.next(), Some(Point2::new(1, 0)));
    assert_eq!(bboxiter.next(), Some(Point2::new(0, 1)));
    assert_eq!(bboxiter.next(), Some(Point2::new(1, 1)));
    assert_eq!(bboxiter.next(), None);
}

#[test]
fn bbox2_iter_row_major_wide_box() {
    let bbox: BBox2<isize> = BBox2::new(Point2::new(-1, 5), Point2::new(2, 7));
    let mut it = bbox.into_iter();
    let mut seen = Vec::new();
    while let Some(p) = it.next() {
        seen.push((p.x, p.y));
    }
    assert_eq!(seen, vec![(-1, 5), (0, 5), (1, 5), (-1, 6), (0, 6), (1, 6)]);
    assert_eq!(it.next(), None);
}

#[test]
fn bbox2_iter_empty_box() {
    let bbox: BBox2<isize> = BBox2::new(Point2::new(3, 0), Point2::new(3, 4));
    let mut it = bbox.into_iter();
    assert_eq!(it.next(), None);
    assert_eq!(it.next(), None);
}

#[test]
fn bbox2_diagonal_and_cast() {
    let bbox = BBox2::new(Point2::new(7i64, -2), Point2::new(1, 4));
    assert_eq!(bbox.diagonal(), Vector2::new(6, 6));
    let c: BBox2<i32> = bbox.cast();
    assert_eq!(c, BBox2::new(Point2::new(1i32, -2), Point2::new(7, 4)));
}

#[test]
fn bbox2_surface_area_of_inverted_box_is_zero() {
    let bbox = BBox2::new(Point2::new(0, 0), Point2::new(2, 3));
    let shrunk = bbox.expand_by(-2);
    assert_eq!(shrunk.surface_area(), 0);
    assert_eq!(bbox.surface_area(), 6);
}

#[test]
fn bbox3_basics() {
    let b = BBox3::new(Point3::new(4, 0, 2), Point3::new(0, 3, 0));
    assert_eq!(b.pmin, Point3::new(0, 0, 0));
    assert_eq!(b.pmax, Point3::new(4, 3, 2));
    assert_eq!(b.diagonal(), Vector3::new(4, 3, 2));
    assert_eq!(b.surface_area(), 2 * (12 + 8 + 6));
    assert_eq!(b.volume(), 24);
    assert_eq!(b.max_extent(), 0);
    assert_eq!(b.corner(0), Point3::new(0, 0, 0));
    assert_eq!(b.corner(1), Point3::new(4, 0, 0));
    assert_eq!(b.corner(2), Point3::new(0, 3, 0));
    assert_eq!(b.corner(3), Point3::new(4, 3, 0));
    assert_eq!(b.corner(4), Point3::new(0, 0, 2));
    assert_eq!(b.corner(7), Point3::new(4, 3, 2));
    assert_eq!(b.index(false), b.pmin);
    assert_eq!(b.index(true), b.pmax);
}

#[test]
fn bbox3_set_operations() {
    let a = BBox3::new(Point3::new(0, 0, 0), Point3::new(4, 4, 4));
    let b = BBox3::new(Point3::new(2, 3, 1), Point3::new(6, 5, 3));
    assert_eq!(a.union(&b), BBox3::new(Point3::new(0, 0, 0), Point3::new(6, 5, 4)));
    assert_eq!(a.intersect(&b), Some(BBox3::new(Point3::new(2, 3, 1), Point3::new(4, 4, 3))));
    assert!(a.overlap(&b));
    let c = BBox3::new(Point3::new(5, 0, 0), Point3::new(6, 1, 1));
    assert_eq!(a.intersect(&c), None);
    assert!(!a.overlap(&c));
    assert!(a.contain(Point3::new(4, 4, 4)));
    assert!(!a.contain_lb(Point3::new(4, 4, 4)));
    assert!(a.contain_lb(Point3::new(3, 0, 2)));
    let e = a.extend(Point3::new(-1, 9, 2));
    assert_eq!(e, BBox3::new(Point3::new(-1, 0, 0), Point3::new(4, 9, 4)));
    assert_eq!(a.expand_by(1).expand_by(-1), a);
}

#[test]
fn bbox3_degenerate_measures() {
    let flat = BBox3::new(Point3::new(0, 0, 0), Point3::new(3, 2, 0));
    assert_eq!(flat.volume(), 0);
    assert_eq!(flat.surface_area(), 12);
    let tie = BBox3::new(Point3::new(0, 0, 0), Point3::new(2, 2, 2));
    assert_eq!(tie.max_extent(), 2);
    let ymax = BBox3::new(Point3::new(0, 0, 0), Point3::new(1, 5, 2));
    assert_eq!(ymax.max_extent(), 1);
    let as_u32: BBox3<u32> = ymax.cast();
    assert_eq!(as_u32.pmax, Point3::new(1u32, 5, 2));
}

#[test]
fn bbox3_unit_box_has_eight_distinct_corners() {
    let b = BBox3::new(Point3::new(0, 0, 0), Point3::new(1, 1, 1));
    assert_eq!(b.corner(1), Point3::new(1, 0, 0));
    assert_eq!(b.corner(4), Point3::new(0, 0, 1));
    assert_eq!(b.corner(7), Point3::new(1, 1, 1));
    let mut corners: Vec<(i32, i32, i32)> = (0..8).map(|i| {
        let c = b.corner(i);
        (c.x, c.y, c.z)
    }).collect();
    corners.sort();
    corners.dedup();
    assert_eq!(corners.len(), 8);
}

#[test]
fn small_coordinate_types() {
    let b: BBox2<u8> = BBox2::new(Point2::new(10, 2), Point2::new(3, 20));
    assert_eq!(b.surface_area(), 7 * 18);
    let c: BBox2<i8> = BBox2::new(Point2::new(-5, 1), Point2::new(4, -1));
    assert_eq!(c.expand_by(2).pmin, Point2::new(-7, -3));
    let d: BBox2<i16> = b.cast();
    assert_eq!(d.pmax, Point2::new(10i16, 20));
}
