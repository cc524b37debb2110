use vstd::prelude::*;

use crate::point::Point;
use crate::rect::Rect;

verus! {

/// The images the game draws from. The surrounding layer owns the actual
/// decoded images; the core refers to them by name only.
#[derive(Clone, Copy, PartialEq, Eq, Structural, Debug)]
pub enum ImageId {
    /// The character's sprite sheet image.
    Boy,
    /// The tiling background image.
    Background,
    /// The stone barrier image.
    Stone,
    /// The obstacle (platform) sprite sheet image.
    Tiles,
}

/// One rendering instruction, computed by the core and carried out by the
/// renderer: the core never touches pixels, it only emits these with
/// computed rectangles.
#[derive(Clone, Copy, PartialEq, Eq, Structural, Debug)]
pub enum DrawCommand {
    /// Clear the given region.
    Clear { rect: Rect },
    /// Blit the `source` region of `image` onto the `destination` region.
    Sprite { image: ImageId, source: Rect, destination: Rect },
    /// Blit the whole of `image` with its top-left corner at `position`.
    Entire { image: ImageId, position: Point },
    /// Trace the outline of a rectangle (a debugging aid).
    Outline { rect: Rect },
}

} // verus!
