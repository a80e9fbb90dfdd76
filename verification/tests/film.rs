use arendur::filming::film::{BoundedSink2D, Image};
use arendur::filming::tiles::spawn_tile_bounds;
use arendur::geometry::bbox::BBox2;
use arendur::geometry::point::Point2;

#[test]
fn bounded_sink_offsets_row_by_row() {
    let bbox = BBox2::new(Point2::new(2usize, 5), Point2::new(5, 7));
    let mut sink = BoundedSink2D::with_value(0u32, bbox);
    assert_eq!(sink.bounding(), bbox);
    assert_eq!(sink.get_pixel_offset(Point2::new(2, 5)), 0);
    assert_eq!(sink.get_pixel_offset(Point2::new(4, 5)), 2);
    assert_eq!(sink.get_pixel_offset(Point2::new(2, 6)), 3);
    assert_eq!(sink.get_pixel_offset(Point2::new(4, 6)), 5);
    *sink.get_pixel_mut(Point2::new(3, 6)) = 9;
    assert_eq!(*sink.get_pixel(Point2::new(3, 6)), 9);
    assert_eq!(*sink.get_pixel(Point2::new(3, 5)), 0);
}

#[test]
fn image_new_and_index() {
    let mut img = Image::new(1.5f32, Point2::new(3, 2));
    assert_eq!(*img.index(Point2::new(2, 1)), 1.5);
    *img.index_mut(Point2::new(0, 1)) = 0.25;
    assert_eq!(*img.index(Point2::new(0, 1)), 0.25);
    let inner = img.into_inner();
    assert_eq!(inner.bounding(), BBox2::new(Point2::new(0, 0), Point2::new(3, 2)));
    assert_eq!(*inner.get_pixel(Point2::new(0, 1)), 0.25);
}

#[test]
fn tiles_split_evenly() {
    let crop = BBox2::new(Point2::new(0usize, 0), Point2::new(8, 6));
    let tiles = spawn_tile_bounds(&crop, 2, 3);
    assert_eq!(tiles.len(), 6);
    assert_eq!(tiles[0], BBox2::new(Point2::new(0, 0), Point2::new(4, 2)));
    assert_eq!(tiles[1], BBox2::new(Point2::new(0, 2), Point2::new(4, 4)));
    assert_eq!(tiles[2], BBox2::new(Point2::new(0, 4), Point2::new(4, 6)));
    assert_eq!(tiles[5], BBox2::new(Point2::new(4, 4), Point2::new(8, 6)));
}

#[test]
fn tiles_last_takes_the_remainder() {
    let crop = BBox2::new(Point2::new(1usize, 1), Point2::new(11, 4));
    let tiles = spawn_tile_bounds(&crop, 3, 1);
    // extent 10 split in 3: 3, 3, 3 + 10 % 3, starting at the window's corner
    assert_eq!(tiles[0], BBox2::new(Point2::new(1, 1), Point2::new(4, 4)));
    assert_eq!(tiles[1], BBox2::new(Point2::new(4, 1), Point2::new(7, 4)));
    assert_eq!(tiles[2], BBox2::new(Point2::new(7, 1), Point2::new(11, 4)));
}

#[test]
fn tiles_partition_the_window() {
    let crop = BBox2::new(Point2::new(2usize, 3), Point2::new(12, 10));
    let (nx, ny) = (4usize, 2usize);
    let tiles = spawn_tile_bounds(&crop, nx, ny);
    assert_eq!(tiles.len(), 8);
    for x in 0..14 {
        for y in 0..12 {
            let n = tiles.iter().filter(|t| t.contain_lb(Point2::new(x, y))).count();
            let inside = crop.contain_lb(Point2::new(x, y));
            assert_eq!(n, if inside { 1 } else { 0 }, "point ({}, {})", x, y);
        }
    }
    // extent 10 in 4: 2, 2, 2, 2 + 10 % 4
    assert_eq!(tiles[6], BBox2::new(Point2::new(8, 3), Point2::new(12, 6)));
    assert_eq!(tiles[7], BBox2::new(Point2::new(8, 6), Point2::new(12, 10)));
}

#[test]
fn scan_order_is_storage_order() {
    let bbox = BBox2::new(Point2::new(3usize, 1), Point2::new(6, 5));
    let sink = BoundedSink2D::with_value(0u8, bbox);
    let mut it = bbox.cast::<isize>().into_iter();
    let mut k = 0usize;
    while let Some(p) = it.next() {
        let q = Point2::new(p.x as usize, p.y as usize);
        assert_eq!(sink.get_pixel_offset(q), k);
        k += 1;
    }
    assert_eq!(k, 12);
}

#[test]
fn image_every_pixel_is_the_fill_value_and_pair_indexing() {
    let mut img = Image::new(7u16, Point2::new(4, 3));
    for x in 0..4 {
        for y in 0..3 {
            assert_eq!(*img.at(x, y), 7);
        }
    }
    *img.at_mut(3, 2) = 9;
    assert_eq!(*img.index(Point2::new(3, 2)), 9);
    assert_eq!(*img.at(2, 2), 7);
}

#[test]
fn bounded_sink_new_uses_default() {
    let bbox = BBox2::new(Point2::new(0usize, 0), Point2::new(2, 2));
    let sink: BoundedSink2D<u32> = BoundedSink2D::new(bbox);
    assert_eq!(*sink.get_pixel(Point2::new(1, 1)), 0);
    assert_eq!(sink.bounding(), bbox);
}
