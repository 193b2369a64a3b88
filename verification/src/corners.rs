use vstd::prelude::*;

verus! {

/// A pair of pixel coordinates or extents.
#[derive(Copy, Clone, Debug, PartialEq, Eq, Structural)]
pub struct UVec2 {
    pub x: u32,
    pub y: u32,
}

/// Border offsets of a sprite, each a pixel count from its own side.
#[derive(Copy, Clone, Debug, PartialEq, Eq, Structural)]
pub struct Borders {
    pub left: u32,
    pub top: u32,
    pub right: u32,
    pub bottom: u32,
}

/// Where a sprite lies: a rectangle of an atlas, or a whole bitmap of a given size.
#[derive(Copy, Clone, Debug, PartialEq, Eq, Structural)]
pub enum Rect {
    InAtlas { atlas_size: UVec2, position: UVec2, sprite_size: UVec2 },
    Size(UVec2),
}

/// A corner rectangle: its left column, top row, width and height.
#[derive(Copy, Clone, Debug, PartialEq, Eq, Structural)]
pub struct Corner {
    pub left: u32,
    pub top: u32,
    pub width: u32,
    pub height: u32,
}

/// The four corners of a sprite.
#[derive(Copy, Clone, Debug, PartialEq, Eq, Structural)]
pub struct Corners {
    pub top_left: Corner,
    pub top_right: Corner,
    pub bottom_right: Corner,
    pub bottom_left: Corner,
}

/// The corner rectangles of a sprite whose top-left pixel is `(x, y)` and whose size is
/// `w x h`: each corner is as wide as its side's offset and as tall as its row's offset,
/// flush with the sprite's edges.
pub open spec fn corners_at(borders: Borders, x: int, y: int, w: int, h: int) -> Corners {
    let top_left = Corner {
        left: x as u32,
        top: y as u32,
        width: borders.left,
        height: borders.top,
    };
    let top_right = Corner {
        left: (x + w - borders.right) as u32,
        top: y as u32,
        width: borders.right,
        height: borders.top,
    };
    let bottom_right = Corner {
        left: (x + w - borders.right) as u32,
        top: (y + h - borders.bottom) as u32,
        width: borders.right,
        height: borders.bottom,
    };
    let bottom_left = Corner {
        left: x as u32,
        top: (y + h - borders.bottom) as u32,
        width: borders.left,
        height: borders.bottom,
    };
    Corners { top_left, top_right, bottom_right, bottom_left }
}

/// The corners can be computed without leaving `u32`.
pub open spec fn corners_fit(borders: Borders, rect: Rect) -> bool {
    match rect {
        Rect::InAtlas { position, sprite_size, .. } => {
            &&& position.x + sprite_size.x <= u32::MAX
            &&& position.y + sprite_size.y <= u32::MAX
            &&& borders.right <= position.x + sprite_size.x
            &&& borders.bottom <= position.y + sprite_size.y
        },
        Rect::Size(size) => borders.right <= size.x && borders.bottom <= size.y,
    }
}

impl Corners {
    pub fn new(borders: &Borders, rect: &Rect) -> (c: Self)
        requires
            corners_fit(*borders, *rect),
        ensures
            c == match *rect {
                Rect::InAtlas { position, sprite_size, .. } => corners_at(
                    *borders,
                    position.x as int,
                    position.y as int,
                    sprite_size.x as int,
                    sprite_size.y as int,
                ),
                Rect::Size(size) => corners_at(*borders, 0, 0, size.x as int, size.y as int),
            },
    {
        match rect {
            Rect::InAtlas { atlas_size: _, position, sprite_size } => {
                let top_left = Corner {
                    left: position.x,
                    top: position.y,
                    width: borders.left,
                    height: borders.top,
                };
                let top_right = Corner {
                    left: position.x + sprite_size.x - borders.right,
                    top: top_left.top,
                    width: borders.right,
                    height: top_left.height,
                };
                let bottom_right = Corner {
                    left: top_right.left,
                    top: position.y + sprite_size.y - borders.bottom,
                    width: top_right.width,
                    height: borders.bottom,
                };
                let bottom_left = Corner {
                    left: top_left.left,
                    top: bottom_right.top,
                    width: top_left.width,
                    height: bottom_right.height,
                };
                Self { top_left, top_right, bottom_right, bottom_left }
            },
            Rect::Size(size) => {
                let top_left = Corner { left: 0, top: 0, width: borders.left, height: borders.top };
                let top_right = Corner {
                    left: size.x - borders.right,
                    top: top_left.top,
                    width: borders.right,
                    height: top_left.height,
                };
                let bottom_right = Corner {
                    left: top_right.left,
                    top: size.y - borders.bottom,
                    width: top_right.width,
                    height: borders.bottom,
                };
                let bottom_left = Corner {
                    left: top_left.left,
                    top: bottom_right.top,
                    width: top_left.width,
                    height: bottom_right.height,
                };
                Self { top_left, top_right, bottom_right, bottom_left }
            },
        }
    }
}

} // verus!
