use nine_slice::slices::NineSlices;
use nine_slice::{BorderOffsets, NineSliceError, PositionU, Size};

#[test]
fn slices_test_slices() {
    const LEFT: usize = 6;
    const TOP: usize = 5;
    const RIGHT: usize = 4;
    const BOTTOM: usize = 3;
    const D: usize = 64;

    let slices = NineSlices { left: LEFT, top: TOP, right: RIGHT, bottom: BOTTOM }
        .into_internal(Size { width: D, height: D })
        .unwrap();
    let top_left = slices.top_left();
    assert_eq!(top_left.position, PositionU::default());
    assert_eq!(top_left.size, Size { width: LEFT, height: TOP });
    let top = slices.top();
    assert_eq!(top.position, PositionU { x: LEFT, y: 0 });
    assert_eq!(top.size, Size { width: D - LEFT - RIGHT, height: TOP });
    let top_right = slices.top_right();
    assert_eq!(top_right.position, PositionU { x: D - LEFT, y: 0 });
    assert_eq!(top_right.size, Size { width: RIGHT, height: TOP });
    let right = slices.right();
    assert_eq!(right.position, PositionU { x: D - RIGHT, y: TOP });
    assert_eq!(right.size, Size { width: RIGHT, height: D - TOP - BOTTOM });
    let bottom_right = slices.bottom_right();
    assert_eq!(bottom_right.position, PositionU { x: D - RIGHT, y: D - BOTTOM });
    assert_eq!(right.size, Size { width: RIGHT, height: D - TOP - BOTTOM });
    let bottom = slices.bottom();
    assert_eq!(bottom.position, PositionU { x: LEFT, y: D - BOTTOM });
    assert_eq!(bottom.size, Size { width: D - LEFT - RIGHT, height: BOTTOM });
    let bottom_left = slices.bottom_left();
    assert_eq!(bottom_left.position, PositionU { x: 0, y: D - BOTTOM });
    assert_eq!(bottom_left.size, Size { width: LEFT, height: BOTTOM });
    let left = slices.left();
    assert_eq!(left.position, PositionU { x: 0, y: TOP });
    assert_eq!(left.size, Size { width: LEFT, height: D - TOP - BOTTOM });
    let inner = slices.inner();
    assert_eq!(inner.position, PositionU { x: LEFT, y: TOP });
    assert_eq!(inner.size, Size { width: D - LEFT - RIGHT, height: D - TOP - BOTTOM });
}

#[test]
fn slices_test_sliced_borders() {
    let size = Size { width: 400, height: 300 };
    assert!(NineSlices { left: 2, top: 2, right: 2, bottom: 2 }.is_valid(&size));
    assert!(NineSlices { left: 2, top: 270, right: 2, bottom: 2 }.is_valid(&size));
    assert!(!NineSlices { left: 0, top: 0, right: 0, bottom: 0 }.is_valid(&size));
    assert!(!NineSlices { left: 0, top: 1, right: 2, bottom: 3 }.is_valid(&size));
    assert!(!NineSlices { left: 500, top: 2, right: 2, bottom: 2 }.is_valid(&size));
    assert!(!NineSlices { left: 250, top: 2, right: 270, bottom: 2 }.is_valid(&size));
    assert!(!NineSlices { left: 250, top: 2, right: 250, bottom: 2 }.is_valid(&size));
    assert!(!NineSlices { left: 2, top: 500, right: 2, bottom: 2 }.is_valid(&size));
    assert!(!NineSlices { left: 900, top: 1000, right: 1200, bottom: 2000 }.is_valid(&size));
    assert!(!NineSlices { left: 2, top: 2, right: 2, bottom: 2000 }.is_valid(&size));
}

#[test]
fn into_internal_rejects_crossing_offsets() {
    let slices = NineSlices { left: 250, top: 2, right: 250, bottom: 2 };
    match slices.into_internal(Size { width: 400, height: 300 }) {
        Err(NineSliceError::InvalidSlices(o)) => {
            assert_eq!(o, BorderOffsets { left: 250, top: 2, right: 250, bottom: 2 })
        }
        _ => panic!("expected InvalidSlices"),
    }
}
