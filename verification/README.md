# nine_slice

Nine-slice scaling of sprites, verified with Verus.

A sprite is cut by four border offsets into a 3x3 grid. When it is resized, the corners are
blitted unchanged, single-colored slices are filled, and the borders are either stretched
(resampled) or repeated (tiled); the inner area is resampled.

## Layout

- `src/` — the verified library.
  - `bitmap.rs`: row-major bitmaps with their invariant, and the blit through `blittle`.
  - `paint.rs`: a model of every paint step (blit, fill, horizontal and vertical repeat) and
    the verified code that performs fills and repeats.
  - `border_offsets.rs`, `nine_slices.rs`: validity of offsets and the nine slices they cut.
  - `resize_method.rs`: whether a slice is a single color (filled) or resampled.
  - `nine_sliced_sprite.rs`: the sprite, resizing, and the laws about its result: corners are
    kept whether the sprite grows or shrinks, borders paint only their own places, repeated
    borders tile the source, single-colored slices cover exactly their places, resizing to the
    source size paints the source back, resampled areas are placed inside the destination,
    apart from each other and from every paint step, and the source is kept across calls.
  - `pixel_type.rs`, `pixel_bytes.rs`, `pixel_color.rs`, `fill.rs`: pixel formats of the image
    crates and byte-level pixel colors and fills.
  - `borders.rs`, `sliced_borders.rs`, `slices.rs`, `corners.rs`, `params/`, `rect.rs`,
    `sprite.rs`: further slicing, corner and parameter types.
- `tests/` — tests of the library on concrete values.
- `app/` — what Verus does not see: resampling with `fast_image_resize`, conversions from and
  to `blittle` surfaces and the image crates' types, float-valued scales, and the error type
  with its `Display`.
