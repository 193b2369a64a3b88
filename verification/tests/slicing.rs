use nine_slice::{BorderOffsets, PositionU, Size};

#[test]
fn border_offsets_test_sliced_borders() {
    let size = Size { width: 400, height: 300 };
    assert!(BorderOffsets { left: 2, top: 2, right: 2, bottom: 2 }.is_valid(&size));
    assert!(BorderOffsets { left: 2, top: 270, right: 2, bottom: 2 }.is_valid(&size));

    // Can't have values that equal zero.
    assert!(!BorderOffsets { left: 0, top: 0, right: 0, bottom: 0 }.is_valid(&size));
    assert!(!BorderOffsets { left: 0, top: 1, right: 2, bottom: 3 }.is_valid(&size));

    // Can't have borders cross each other.
    assert!(!BorderOffsets { left: 500, top: 2, right: 2, bottom: 2 }.is_valid(&size));
    assert!(!BorderOffsets { left: 250, top: 2, right: 270, bottom: 2 }.is_valid(&size));
    assert!(!BorderOffsets { left: 250, top: 2, right: 250, bottom: 2 }.is_valid(&size));
    assert!(!BorderOffsets { left: 2, top: 500, right: 2, bottom: 2 }.is_valid(&size));

    // Can't have borders exceed size.
    assert!(!BorderOffsets { left: 900, top: 1000, right: 1200, bottom: 2000 }.is_valid(&size));
    assert!(!BorderOffsets { left: 2, top: 2, right: 2, bottom: 2000 }.is_valid(&size));
}

#[test]
fn border_offsets_documented_examples() {
    let size = Size { width: 12, height: 12 };
    assert!(BorderOffsets { left: 2, top: 1, right: 3, bottom: 8 }.is_valid(&size));
    assert!(!BorderOffsets { left: 0, top: 12, right: 20, bottom: 5 }.is_valid(&size));
}

#[test]
fn nine_slices_test_slices() {
    const LEFT: usize = 6;
    const TOP: usize = 5;
    const RIGHT: usize = 4;
    const BOTTOM: usize = 3;
    const D: usize = 64;

    let slices = BorderOffsets { left: LEFT, top: TOP, right: RIGHT, bottom: BOTTOM }
        .into_slices(Size { width: D, height: D })
        .unwrap();
    assert_eq!(slices.top_left.position, PositionU::default());
    assert_eq!(slices.top_left.size, Size { width: LEFT, height: TOP });
    assert_eq!(slices.top.position, PositionU { x: LEFT, y: 0 });
    assert_eq!(slices.top.size, Size { width: D - LEFT - RIGHT, height: TOP });
    assert_eq!(slices.top_right.position, PositionU { x: D - LEFT, y: 0 });
    assert_eq!(slices.top_right.size, Size { width: RIGHT, height: TOP });
    assert_eq!(slices.right.position, PositionU { x: D - RIGHT, y: TOP });
    assert_eq!(slices.right.size, Size { width: RIGHT, height: D - TOP - BOTTOM });
    assert_eq!(slices.bottom_right.position, PositionU { x: D - RIGHT, y: D - BOTTOM });
    assert_eq!(slices.right.size, Size { width: RIGHT, height: D - TOP - BOTTOM });
    assert_eq!(slices.bottom.position, PositionU { x: LEFT, y: D - BOTTOM });
    assert_eq!(slices.bottom.size, Size { width: D - LEFT - RIGHT, height: BOTTOM });
    assert_eq!(slices.bottom_left.position, PositionU { x: 0, y: D - BOTTOM });
    assert_eq!(slices.bottom_left.size, Size { width: LEFT, height: BOTTOM });
    assert_eq!(slices.left.position, PositionU { x: 0, y: TOP });
    assert_eq!(slices.left.size, Size { width: LEFT, height: D - TOP - BOTTOM })
}

#[test]
fn into_slices_rejects_invalid_offsets() {
    let offsets = BorderOffsets { left: 0, top: 1, right: 2, bottom: 3 };
    match offsets.into_slices(Size { width: 64, height: 64 }) {
        Err(nine_slice::NineSliceError::InvalidSlices(o)) => assert_eq!(o, offsets),
        _ => panic!("expected InvalidSlices"),
    }
}

#[test]
fn slices_with_equal_side_offsets_cover_every_pixel_once() {
    let size = Size { width: 10, height: 8 };
    let s = BorderOffsets { left: 3, top: 2, right: 3, bottom: 1 }.into_slices(size).unwrap();
    let rects = [
        s.top_left, s.top, s.top_right, s.left, s.inner, s.right, s.bottom_left, s.bottom,
        s.bottom_right,
    ];
    for y in 0..size.height {
        for x in 0..size.width {
            let n = rects
                .iter()
                .filter(|r| {
                    r.position.x <= x
                        && x < r.position.x + r.size.width
                        && r.position.y <= y
                        && y < r.position.y + r.size.height
                })
                .count();
            assert_eq!(n, 1, "pixel ({x}, {y})");
        }
    }
}
