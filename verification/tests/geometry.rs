use term_test::Rectangle;

fn samples() -> Vec<Rectangle> {
    let mut out = Vec::new();
    for row in [0u16, 3, 65535] {
        for col in [0u16, 4, 65535] {
            for width in [0u16, 1, 5, 65535] {
                for height in [0u16, 2, 65535] {
                    out.push(Rectangle::new(row, col, width, height));
                }
            }
        }
    }
    out
}

#[test]
fn contains_follows_the_four_inequalities() {
    let outer = Rectangle::new(5, 30, 70, 25);
    assert!(outer.contains(&Rectangle::new(9, 39, 25, 17)));
    assert!(outer.contains(&Rectangle::new(5, 30, 70, 25)));
    assert!(!outer.contains(&Rectangle::new(4, 30, 70, 25)));
    assert!(!outer.contains(&Rectangle::new(5, 29, 70, 25)));
    assert!(!outer.contains(&Rectangle::new(5, 30, 71, 25)));
    assert!(!outer.contains(&Rectangle::new(5, 30, 70, 26)));
}

#[test]
fn every_rectangle_contains_itself() {
    for r in samples() {
        assert!(r.contains(&r), "{:?}", r);
    }
}

#[test]
fn containment_of_a_rectangle_with_extent_implies_overlap() {
    let all = samples();
    for a in &all {
        for b in &all {
            if b.width > 0 && b.height > 0 && a.contains(b) {
                assert!(a.overlaps(b), "{:?} {:?}", a, b);
            }
        }
    }
}

#[test]
fn overlap_is_symmetric() {
    let all = samples();
    for a in &all {
        for b in &all {
            assert_eq!(a.overlaps(b), b.overlaps(a), "{:?} {:?}", a, b);
        }
    }
}

#[test]
fn touching_edges_do_not_overlap() {
    let a = Rectangle::new(0, 0, 5, 5);
    assert!(!a.overlaps(&Rectangle::new(5, 0, 5, 5)));
    assert!(!a.overlaps(&Rectangle::new(0, 5, 5, 5)));
    assert!(a.overlaps(&Rectangle::new(4, 4, 5, 5)));
}

#[test]
fn a_point_is_contained_when_its_origin_is_within_the_bounds() {
    let a = Rectangle::new(2, 2, 4, 4);
    assert!(a.contains(&Rectangle::new(2, 2, 0, 0)));
    assert!(a.contains(&Rectangle::new(6, 6, 0, 0)));
    assert!(!a.contains(&Rectangle::new(7, 6, 0, 0)));
    assert!(!a.contains(&Rectangle::new(1, 2, 0, 0)));
}

#[test]
fn sums_do_not_wrap() {
    let far = Rectangle::new(65535, 65535, 65535, 65535);
    let near = Rectangle::new(0, 0, 65535, 65535);
    assert!(!near.contains(&far));
    assert!(!far.contains(&near));
    assert!(!near.overlaps(&far));
    assert!(far.overlaps(&Rectangle::new(65535, 65535, 1, 1)));
}

#[test]
fn tuples_are_row_col_width_height() {
    let r = Rectangle::from_tuple((1, 2, 3, 4));
    assert_eq!(r, Rectangle { row: 1, col: 2, width: 3, height: 4 });
    assert_eq!(r.to_tuple(), (1, 2, 3, 4));
    assert_eq!(Rectangle::new(1, 2, 3, 4), r);
}
