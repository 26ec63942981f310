//! Window geometry: where a new window is placed.
use vstd::prelude::*;

verus! {

pub const DEFAULT_WINDOW_WIDTH: u32 = 1920;

pub const DEFAULT_WINDOW_HEIGHT: u32 = 1080;

/// How far a new window is moved from the window it is opened from.
pub const WINDOW_OFFSET: i32 = 25;

/// A window's size and the position of its top-left corner, in logical pixels.
#[derive(Clone, Copy, Debug, PartialEq, Eq, Structural)]
pub struct WindowBounds {
    pub width: u32,
    pub height: u32,
    pub x: i32,
    pub y: i32,
}

/// Whether moving `b` by `offset` along both axes stays in range.
pub open spec fn offset_fits(b: WindowBounds, offset: i32) -> bool {
    i32::MIN <= b.x + offset <= i32::MAX && i32::MIN <= b.y + offset <= i32::MAX
}

impl WindowBounds {
    /// The same window moved by `offset` right and down.
    pub fn with_offset(self, offset: i32) -> (r: WindowBounds)
        requires
            offset_fits(self, offset),
        ensures
            r == (WindowBounds { x: (self.x + offset) as i32, y: (self.y + offset) as i32, ..self }),
    {
        let mut b = self;
        b.x = b.x + offset;
        b.y = b.y + offset;
        b
    }
}

/// The bounds of a new window: next to the window it is opened from, if any
/// (and if the move stays in range), else the bounds saved at the last exit,
/// else the default size at the origin.
pub fn choose_window_bounds(from_window: Option<WindowBounds>, saved: Option<WindowBounds>) -> (r:
    WindowBounds)
    ensures
        r == match from_window {
            Some(b) if offset_fits(b, WINDOW_OFFSET) => WindowBounds {
                x: (b.x + WINDOW_OFFSET) as i32,
                y: (b.y + WINDOW_OFFSET) as i32,
                ..b
            },
            _ => match saved {
                Some(s) => s,
                None => WindowBounds {
                    width: DEFAULT_WINDOW_WIDTH,
                    height: DEFAULT_WINDOW_HEIGHT,
                    x: 0,
                    y: 0,
                },
            },
        },
{
    if let Some(b) = from_window {
        if b.x <= i32::MAX - WINDOW_OFFSET && b.y <= i32::MAX - WINDOW_OFFSET {
            return b.with_offset(WINDOW_OFFSET);
        }
    }
    match saved {
        Some(s) => s,
        None => WindowBounds {
            width: DEFAULT_WINDOW_WIDTH,
            height: DEFAULT_WINDOW_HEIGHT,
            x: 0,
            y: 0,
        },
    }
}

} // verus!
