use nine_slice::borders::SlicedBorders;
use nine_slice::corners::{Borders, Corner, Corners, Rect, UVec2};
use nine_slice::sliced_borders::SlicedBorders as SlicedLines;
use nine_slice::Size;

#[test]
fn text_sliced_borders() {
    let size = Size { width: 400, height: 300 };
    assert!(SlicedBorders::new_checked(0, 1, 2, 3, size).is_none());
    assert!(SlicedBorders::new_checked(2, 2, 2, 2, size).is_some());
    assert!(SlicedBorders::new_checked(500, 2, 2, 2, size).is_none());
    assert!(SlicedBorders::new_checked(250, 2, 270, 2, size).is_none());
    assert!(SlicedBorders::new_checked(250, 2, 250, 2, size).is_none());
    assert!(SlicedBorders::new_checked(2, 500, 2, 2, size).is_none());
    assert!(SlicedBorders::new_checked(2, 270, 2, 250, size).is_none());
    assert!(SlicedBorders::new_checked(2, 250, 2, 250, size).is_none());
}

#[test]
fn sliced_borders_keep_their_values() {
    let b = SlicedBorders::new_checked(3, 4, 5, 6, Size { width: 20, height: 20 }).unwrap();
    assert_eq!((b.top, b.right, b.bottom, b.left), (3, 4, 5, 6));
    // Opposite offsets must leave one pixel between them.
    assert!(SlicedBorders::new_checked(10, 4, 10, 6, Size { width: 20, height: 20 }).is_none());
    assert!(SlicedBorders::new_checked(9, 4, 10, 6, Size { width: 20, height: 20 }).is_some());
}

#[test]
fn sliced_lines_must_be_ordered() {
    let size = Size { width: 400, height: 300 };
    // Lines are coordinates: top above bottom, left of right.
    let b = SlicedLines::new_checked(2, 390, 290, 5, size).unwrap();
    assert_eq!((b.top, b.right, b.bottom, b.left), (2, 390, 290, 5));
    assert!(SlicedLines::new_checked(0, 390, 290, 5, size).is_none());
    assert!(SlicedLines::new_checked(290, 390, 290, 5, size).is_none());
    assert!(SlicedLines::new_checked(2, 5, 290, 5, size).is_none());
    assert!(SlicedLines::new_checked(2, 400, 290, 5, size).is_none());
    assert!(SlicedLines::new_checked(2, 390, 300, 5, size).is_none());
}

#[test]
fn corners_of_a_whole_bitmap() {
    let borders = Borders { left: 2, top: 3, right: 4, bottom: 5 };
    let c = Corners::new(&borders, &Rect::Size(UVec2 { x: 20, y: 30 }));
    assert_eq!(c.top_left, Corner { left: 0, top: 0, width: 2, height: 3 });
    assert_eq!(c.top_right, Corner { left: 16, top: 0, width: 4, height: 3 });
    assert_eq!(c.bottom_right, Corner { left: 16, top: 25, width: 4, height: 5 });
    assert_eq!(c.bottom_left, Corner { left: 0, top: 25, width: 2, height: 5 });
}

#[test]
fn corners_of_a_sprite_in_an_atlas() {
    let borders = Borders { left: 2, top: 3, right: 4, bottom: 5 };
    let rect = Rect::InAtlas {
        atlas_size: UVec2 { x: 100, y: 100 },
        position: UVec2 { x: 10, y: 20 },
        sprite_size: UVec2 { x: 20, y: 30 },
    };
    let c = Corners::new(&borders, &rect);
    assert_eq!(c.top_left, Corner { left: 10, top: 20, width: 2, height: 3 });
    assert_eq!(c.top_right, Corner { left: 26, top: 20, width: 4, height: 3 });
    assert_eq!(c.bottom_right, Corner { left: 26, top: 45, width: 4, height: 5 });
    assert_eq!(c.bottom_left, Corner { left: 10, top: 45, width: 2, height: 5 });
}
