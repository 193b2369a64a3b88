use fast_image_resize::ResizeAlg;
use nine_slice::{
    Bitmap, BorderOffsets, BorderScaling, NineSliceError, NineSlicedSprite, PositionU, RectU,
    Resample, ResizeMethod, Size,
};

/// An 8x8 bitmap whose pixel (x, y) is `y * 8 + x`.
fn counting() -> Bitmap<u8> {
    Bitmap::new(Size { width: 8, height: 8 }, (0u8..64).collect()).unwrap()
}

fn at(b: &Bitmap<u8>, x: usize, y: usize) -> u8 {
    b.pixels()[x + y * b.size().width]
}

fn rect(x: usize, y: usize, width: usize, height: usize) -> RectU {
    RectU { position: PositionU { x, y }, size: Size { width, height } }
}

const TWO: BorderOffsets = BorderOffsets { left: 2, top: 2, right: 2, bottom: 2 };

#[test]
fn bitmap_needs_every_pixel() {
    assert!(Bitmap::new(Size { width: 2, height: 2 }, vec![0u8; 3]).is_none());
    let b = Bitmap::new(Size { width: 2, height: 2 }, vec![1u8, 2, 3, 4]).unwrap();
    assert_eq!(b.size(), Size { width: 2, height: 2 });
    assert_eq!(b.get_pixel_unchecked(PositionU { x: 1, y: 1 }), 4);
    assert_eq!(b.into_pixels(), vec![1, 2, 3, 4]);
}

#[test]
fn sprite_rejects_invalid_offsets() {
    let offsets = BorderOffsets { left: 4, top: 2, right: 4, bottom: 2 };
    match NineSlicedSprite::new(counting(), offsets, BorderScaling::Repeat) {
        Err(NineSliceError::InvalidSlices(o)) => assert_eq!(o, offsets),
        _ => panic!("expected InvalidSlices"),
    }
}

#[test]
fn resize_methods_tell_single_colors_apart() {
    let b = Bitmap::new(Size { width: 3, height: 2 }, vec![5u8, 5, 5, 5, 5, 6]).unwrap();
    assert_eq!(ResizeMethod::new(&rect(0, 0, 2, 2), &b), ResizeMethod::Fill(5));
    assert_eq!(ResizeMethod::new(&rect(0, 0, 3, 2), &b), ResizeMethod::Resize);
    assert_eq!(ResizeMethod::new(&rect(2, 1, 1, 1), &b), ResizeMethod::Fill(6));
}

#[test]
fn repeat_keeps_corners_and_tiles_borders() {
    let mut sprite = NineSlicedSprite::new(counting(), TWO, BorderScaling::Repeat).unwrap();
    let resized = sprite.resize(12, 10).unwrap();
    let src = counting();
    let out = &resized.bitmap;
    assert_eq!(out.size(), Size { width: 12, height: 10 });
    for j in 0..2 {
        for i in 0..2 {
            assert_eq!(at(out, i, j), at(&src, i, j));
            assert_eq!(at(out, 10 + i, j), at(&src, 6 + i, j));
            assert_eq!(at(out, 10 + i, 8 + j), at(&src, 6 + i, 6 + j));
            assert_eq!(at(out, i, 8 + j), at(&src, i, 6 + j));
        }
    }
    for x in 2..10 {
        for y in 0..2 {
            assert_eq!(at(out, x, y), at(&src, 2 + (x - 2) % 4, y));
            assert_eq!(at(out, x, 8 + y), at(&src, 2 + (x - 2) % 4, 6 + y));
        }
    }
    for y in 2..8 {
        for x in 0..2 {
            assert_eq!(at(out, x, y), at(&src, x, 2 + y % 4));
            assert_eq!(at(out, 10 + x, y), at(&src, 6 + x, 2 + y % 4));
        }
    }
    // The inner area has several colors, so it is left to resample.
    assert_eq!(
        resized.resamples,
        vec![Resample {
            area: rect(2, 2, 4, 4),
            position: PositionU { x: 2, y: 2 },
            size: Size { width: 8, height: 6 },
        }]
    );
    for y in 2..8 {
        for x in 2..10 {
            assert_eq!(at(out, x, y), 0);
        }
    }
}

/// An 8x8 bitmap with single-color borders and a two-color inner area.
fn framed() -> Bitmap<u8> {
    let mut v = vec![0u8; 64];
    for y in 0..8 {
        for x in 0..8 {
            v[x + y * 8] = match (x < 2, x >= 6, y < 2, y >= 6) {
                (true, _, true, _) => 1,
                (_, true, true, _) => 2,
                (_, true, _, true) => 3,
                (true, _, _, true) => 4,
                (_, _, true, _) => 50,
                (_, true, _, _) => 60,
                (_, _, _, true) => 70,
                (true, _, _, _) => 80,
                _ => 90 + (x % 2) as u8,
            };
        }
    }
    Bitmap::new(Size { width: 8, height: 8 }, v).unwrap()
}

#[test]
fn stretch_fills_single_color_borders() {
    let mut sprite = NineSlicedSprite::new(framed(), TWO, BorderScaling::Stretch).unwrap();
    let resized = sprite.resize(12, 10).unwrap();
    let out = &resized.bitmap;
    // Corners.
    assert_eq!(at(out, 0, 0), 1);
    assert_eq!(at(out, 11, 1), 2);
    assert_eq!(at(out, 10, 9), 3);
    assert_eq!(at(out, 1, 8), 4);
    // A fill covers the place its border is resized to, and nothing else.
    for y in 0..2 {
        for x in 2..10 {
            assert_eq!(at(out, x, y), 50);
            assert_eq!(at(out, x, 8 + y), 70);
        }
    }
    for y in 2..8 {
        for x in 0..2 {
            assert_eq!(at(out, x, y), 80);
            assert_eq!(at(out, 10 + x, y), 60);
        }
    }
    // The inner area is left for resampling.
    for y in 2..8 {
        for x in 2..10 {
            assert_eq!(at(out, x, y), 0);
        }
    }
    // Only the inner area is left to resample.
    assert_eq!(
        resized.resamples,
        vec![Resample {
            area: rect(2, 2, 4, 4),
            position: PositionU { x: 2, y: 2 },
            size: Size { width: 8, height: 6 },
        }]
    );
}

#[test]
fn stretch_lists_several_color_borders_to_resample() {
    let mut sprite = NineSlicedSprite::new(counting(), TWO, BorderScaling::Stretch).unwrap();
    let resized = sprite.resize(12, 10).unwrap();
    assert_eq!(
        resized.resamples,
        vec![
            Resample { area: rect(2, 2, 4, 4), position: PositionU { x: 2, y: 2 }, size: Size { width: 8, height: 6 } },
            Resample { area: rect(2, 0, 4, 2), position: PositionU { x: 2, y: 0 }, size: Size { width: 8, height: 2 } },
            Resample { area: rect(6, 2, 2, 4), position: PositionU { x: 10, y: 2 }, size: Size { width: 2, height: 6 } },
            Resample { area: rect(2, 6, 4, 2), position: PositionU { x: 2, y: 8 }, size: Size { width: 8, height: 2 } },
            Resample { area: rect(0, 2, 2, 4), position: PositionU { x: 0, y: 2 }, size: Size { width: 2, height: 6 } },
        ]
    );
}

#[test]
fn top_right_corner_starts_left_offset_from_the_edge() {
    let offsets = BorderOffsets { left: 3, top: 2, right: 1, bottom: 2 };
    let mut sprite = NineSlicedSprite::new(counting(), offsets, BorderScaling::Repeat).unwrap();
    let resized = sprite.resize(10, 8).unwrap();
    let src = counting();
    for y in 0..2 {
        assert_eq!(at(&resized.bitmap, 9, y), at(&src, 5, y));
    }
}

#[test]
fn resize_to_the_source_size_keeps_the_bitmap_outside_resampled_areas() {
    let mut sprite = NineSlicedSprite::new(framed(), TWO, BorderScaling::Stretch).unwrap();
    let resized = sprite.resize(8, 8).unwrap();
    let src = framed();
    for y in 0..8 {
        for x in 0..8 {
            if !(2..6).contains(&x) || !(2..6).contains(&y) {
                assert_eq!(at(&resized.bitmap, x, y), at(&src, x, y));
            }
        }
    }
}

#[test]
fn sprite_keeps_its_settings_and_source() {
    let mut sprite = NineSlicedSprite::new(counting(), TWO, BorderScaling::Stretch).unwrap();
    assert_eq!(sprite.resize_algorithm(), ResizeAlg::default());
    sprite.set_resize_algorithm(ResizeAlg::Nearest);
    assert_eq!(sprite.resize_algorithm(), ResizeAlg::Nearest);
    assert_eq!(sprite.surface().pixels(), counting().pixels());
    assert_eq!(sprite.finish().into_pixels(), (0u8..64).collect::<Vec<u8>>());
}

/// An 8x8 bitmap whose top and left borders have several colors; the rest is single-colored.
fn mixed_borders() -> Bitmap<u8> {
    let mut v = vec![0u8; 64];
    for y in 0..8 {
        for x in 0..8 {
            v[x + y * 8] = match (x < 2, x >= 6, y < 2, y >= 6) {
                (true, _, true, _) => 1,
                (_, true, true, _) => 2,
                (_, true, _, true) => 3,
                (true, _, _, true) => 4,
                (_, _, true, _) => 10 + x as u8,
                (_, true, _, _) => 60,
                (_, _, _, true) => 70,
                (true, _, _, _) => 20 + y as u8,
                _ => 90,
            };
        }
    }
    Bitmap::new(Size { width: 8, height: 8 }, v).unwrap()
}

#[test]
fn shrinking_paints_nothing_where_resampled_borders_land() {
    let mut sprite = NineSlicedSprite::new(mixed_borders(), TWO, BorderScaling::Stretch).unwrap();
    let resized = sprite.resize(6, 6).unwrap();
    let out = &resized.bitmap;
    assert_eq!(
        resized.resamples,
        vec![
            Resample { area: rect(2, 0, 4, 2), position: PositionU { x: 2, y: 0 }, size: Size { width: 2, height: 2 } },
            Resample { area: rect(0, 2, 2, 4), position: PositionU { x: 0, y: 2 }, size: Size { width: 2, height: 2 } },
        ]
    );
    for job in &resized.resamples {
        for y in job.position.y..job.position.y + job.size.height {
            for x in job.position.x..job.position.x + job.size.width {
                assert_eq!(at(out, x, y), 0);
            }
        }
    }
    // Each fill covers exactly the place its slice is resized to; the corners are kept.
    assert_eq!(at(out, 2, 2), 90);
    assert_eq!(at(out, 3, 3), 90);
    assert_eq!(at(out, 4, 2), 60);
    assert_eq!(at(out, 5, 3), 60);
    assert_eq!(at(out, 2, 4), 70);
    assert_eq!(at(out, 3, 5), 70);
    assert_eq!(at(out, 4, 4), 3);
    assert_eq!(at(out, 5, 5), 3);
    assert_eq!(at(out, 0, 4), 4);
    assert_eq!(at(out, 5, 0), 2);
}

#[test]
fn repeated_side_borders_stop_at_the_bottom_corners() {
    let src = counting();
    for (top, bottom) in [(1usize, 3usize), (3, 1)] {
        let offsets = BorderOffsets { left: 2, top, right: 2, bottom };
        let mut sprite = NineSlicedSprite::new(counting(), offsets, BorderScaling::Repeat).unwrap();
        let resized = sprite.resize(12, 10).unwrap();
        let out = &resized.bitmap;
        for y in top..10 - bottom {
            for x in 0..2 {
                assert_eq!(at(out, x, y), at(&src, x, top + y % 4));
                assert_eq!(at(out, 10 + x, y), at(&src, 6 + x, top + y % 4));
            }
        }
        for j in 0..bottom {
            for x in 0..2 {
                assert_eq!(at(out, x, 10 - bottom + j), at(&src, x, 8 - bottom + j));
                assert_eq!(at(out, 10 + x, 10 - bottom + j), at(&src, 6 + x, 8 - bottom + j));
            }
        }
    }
}

#[test]
fn shrinking_keeps_the_corners() {
    let src = counting();
    let mut sprite = NineSlicedSprite::new(counting(), TWO, BorderScaling::Stretch).unwrap();
    let resized = sprite.resize(5, 5).unwrap();
    let out = &resized.bitmap;
    for j in 0..2 {
        for i in 0..2 {
            assert_eq!(at(out, i, j), at(&src, i, j));
            assert_eq!(at(out, 3 + i, j), at(&src, 6 + i, j));
            assert_eq!(at(out, 3 + i, 3 + j), at(&src, 6 + i, 6 + j));
            assert_eq!(at(out, i, 3 + j), at(&src, i, 6 + j));
        }
    }
}

#[test]
fn finish_gives_back_the_source_after_resizing() {
    let mut sprite = NineSlicedSprite::new(counting(), TWO, BorderScaling::Repeat).unwrap();
    sprite.set_resize_algorithm(ResizeAlg::Nearest);
    let _ = sprite.resize(20, 16).unwrap();
    let _ = sprite.resize(5, 4).unwrap();
    assert_eq!(sprite.finish().into_pixels(), counting().into_pixels());
}
