//! Rectangles, canvas sizes and placement records.

use vstd::prelude::*;

verus! {

/// An axis-aligned rectangle of pixels, as contracts speak of it.
pub struct Region {
    pub x: int,
    pub y: int,
    pub width: int,
    pub height: int,
}

impl Region {
    /// The two rectangles share no pixel.
    pub open spec fn disjoint(self, other: Region) -> bool {
        ||| self.width <= 0
        ||| self.height <= 0
        ||| other.width <= 0
        ||| other.height <= 0
        ||| self.x + self.width <= other.x
        ||| other.x + other.width <= self.x
        ||| self.y + self.height <= other.y
        ||| other.y + other.height <= self.y
    }

    /// The rectangle lies on a canvas of the given size.
    pub open spec fn within(self, canvas_width: int, canvas_height: int) -> bool {
        &&& 0 <= self.x
        &&& 0 <= self.y
        &&& 0 <= self.width
        &&& 0 <= self.height
        &&& self.x + self.width <= canvas_width
        &&& self.y + self.height <= canvas_height
    }

    /// The pixel at column `px`, row `py` belongs to the rectangle.
    pub open spec fn covers(self, px: int, py: int) -> bool {
        &&& self.x <= px < self.x + self.width
        &&& self.y <= py < self.y + self.height
    }
}

/// Two rectangles that are disjoint have no pixel in common, and two that
/// have none are disjoint.
pub proof fn lemma_disjoint_means_no_shared_pixel(a: Region, b: Region)
    ensures
        a.disjoint(b) <==> forall|px: int, py: int| !(a.covers(px, py) && b.covers(px, py)),
{
    if !a.disjoint(b) {
        let px = if a.x >= b.x { a.x } else { b.x };
        let py = if a.y >= b.y { a.y } else { b.y };
        assert(a.covers(px, py) && b.covers(px, py));
    }
}

/// Width and height of the output canvas.
#[derive(Debug, Clone, Copy, PartialEq, Eq, Structural)]
pub struct CanvasSize {
    pub width: u32,
    pub height: u32,
}

/// Where one source image sits on the canvas.
#[derive(Debug, Clone, PartialEq, Eq)]
pub struct PlacementRecord {
    pub identifier: String,
    pub offset_x: u32,
    pub offset_y: u32,
    pub width: u32,
    pub height: u32,
}

/// A placement as contracts speak of it.
pub struct Placement {
    pub identifier: Seq<char>,
    pub x: int,
    pub y: int,
    pub width: int,
    pub height: int,
}

impl Placement {
    /// The rectangle that the placement takes on the canvas.
    pub open spec fn region(self) -> Region {
        Region { x: self.x, y: self.y, width: self.width, height: self.height }
    }
}

impl View for PlacementRecord {
    type V = Placement;

    open spec fn view(&self) -> Placement {
        Placement {
            identifier: self.identifier@,
            x: self.offset_x as int,
            y: self.offset_y as int,
            width: self.width as int,
            height: self.height as int,
        }
    }
}

} // verus!
