use lightbox_render::types::{Roi, TileCoord};

fn roi(x: i32, y: i32, w: u32, h: u32) -> Roi {
    Roi { x, y, w, h }
}

#[test]
fn expand_grows_all_sides_and_may_go_negative() {
    let r = roi(10, 20, 100, 80).expand(4);
    assert_eq!(r, roi(6, 16, 108, 88));
    // Apron past the top-left border.
    let a = roi(2, 1, 8, 8).expand(4);
    assert_eq!(a, roi(-2, -3, 16, 16));
}

#[test]
fn expand_by_zero_is_identity() {
    let r = roi(-5, 7, 3, 9);
    assert_eq!(r.expand(0), r);
}

#[test]
fn expand_saturates_every_field() {
    let r = roi(i32::MIN + 1, i32::MIN, u32::MAX - 1, 7).expand(5);
    assert_eq!(r, roi(i32::MIN, i32::MIN, u32::MAX, 17));
    let all = roi(0, 0, 1, 1).expand(u32::MAX);
    assert_eq!(all, roi(i32::MIN, i32::MIN, u32::MAX, u32::MAX));
}

#[test]
fn edges_and_area_do_not_overflow() {
    let r = roi(i32::MAX, i32::MIN, u32::MAX, u32::MAX);
    assert_eq!(r.right(), i64::from(i32::MAX) + i64::from(u32::MAX));
    assert_eq!(r.bottom(), i64::from(i32::MIN) + i64::from(u32::MAX));
    assert_eq!(r.area(), u64::from(u32::MAX) * u64::from(u32::MAX));
}

#[test]
fn intersect_overlap_disjoint_and_touching() {
    let a = roi(0, 0, 100, 100);
    assert_eq!(
        a.intersect(&roi(50, 50, 100, 100)),
        Some(roi(50, 50, 50, 50))
    );
    // Fully disjoint.
    assert_eq!(a.intersect(&roi(200, 0, 10, 10)), None);
    // Edge-touching (right edge == left edge) is NOT an overlap.
    assert_eq!(a.intersect(&roi(100, 0, 10, 100)), None);
    // Containment.
    assert_eq!(a.intersect(&roi(10, 10, 20, 20)), Some(roi(10, 10, 20, 20)));
    assert!(a.intersect(&a).is_some());
}

#[test]
fn intersect_is_commutative_and_empty_never_hits() {
    let a = roi(3, 4, 30, 40);
    let b = roi(10, 10, 50, 5);
    assert_eq!(a.intersect(&b), b.intersect(&a));
    assert_eq!(a.intersect(&roi(3, 4, 0, 40)), None);
}

#[test]
fn tiles_cover_and_align_to_global_grid() {
    // A ROI straddling three 256-tiles horizontally, two vertically.
    let t: Vec<TileCoord> = roi(200, 100, 400, 300).tiles(256);
    // x: [200,600) -> tx 0,1,2 ; y: [100,400) -> ty 0,1
    let txs: Vec<u32> = t.iter().map(|c| c.tx).collect();
    let tys: Vec<u32> = t.iter().map(|c| c.ty).collect();
    assert_eq!(t.len(), 6);
    assert_eq!(*txs.iter().max().unwrap(), 2);
    assert_eq!(*txs.iter().min().unwrap(), 0);
    assert_eq!(*tys.iter().max().unwrap(), 1);
    assert!(t.iter().all(|c| c.scale_q == 0));
}

#[test]
fn tiles_exact_tile_boundaries() {
    // Exactly one tile.
    assert_eq!(roi(0, 0, 256, 256).tiles(256).len(), 1);
    // 257 wide spills into a second column.
    assert_eq!(roi(0, 0, 257, 256).tiles(256).len(), 2);
    // Empty ROI yields nothing.
    assert_eq!(roi(0, 0, 0, 256).tiles(256).len(), 0);
}

#[test]
fn tiles_are_listed_row_by_row_from_the_grid_origin() {
    // The apron past the border is clamped away, and a zero pitch counts as one.
    let t = roi(-3, -1, 5, 3).tiles(0);
    let got: Vec<(u32, u32)> = t.iter().map(|c| (c.tx, c.ty)).collect();
    assert_eq!(got, vec![(0, 0), (1, 0), (0, 1), (1, 1)]);
    assert!(roi(-8, 0, 8, 8).tiles(4).is_empty());
}

#[test]
fn every_pixel_lies_in_exactly_one_listed_tile() {
    let r = roi(5, 3, 9, 7);
    let t = r.tiles(4);
    for y in 3..10u32 {
        for x in 5..14u32 {
            let hits = t.iter().filter(|c| c.tx == x / 4 && c.ty == y / 4).count();
            assert_eq!(hits, 1, "pixel {x},{y}");
        }
    }
}
