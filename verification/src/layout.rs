//! The result of a layout run and what holds of every valid one.

use vstd::prelude::*;
use crate::error::{Failure, SpriteError};
use crate::geometry::{CanvasSize, Placement, PlacementRecord};
use crate::source::ImageView;

verus! {

/// The outcome of a layout run: the canvas and one placement per input image.
#[derive(Debug, Clone, PartialEq, Eq)]
pub struct LayoutResult {
    pub canvas: CanvasSize,
    pub placements: Vec<PlacementRecord>,
}

/// A layout as contracts speak of it.
pub struct Arrangement {
    pub canvas_width: int,
    pub canvas_height: int,
    pub placements: Seq<Placement>,
}

/// The placements of a list of records, in the list's order.
pub open spec fn placement_views(records: Seq<PlacementRecord>) -> Seq<Placement> {
    Seq::new(records.len(), |i: int| records[i]@)
}

impl View for LayoutResult {
    type V = Arrangement;

    open spec fn view(&self) -> Arrangement {
        Arrangement {
            canvas_width: self.canvas.width as int,
            canvas_height: self.canvas.height as int,
            placements: placement_views(self.placements@),
        }
    }
}

/// What a layout run returned, as contracts speak of it.
pub open spec fn outcome_view(r: Result<LayoutResult, SpriteError>) -> Result<Arrangement, Failure> {
    match r {
        Ok(layout) => Ok(layout@),
        Err(e) => Err(e@),
    }
}

impl Arrangement {
    /// There is one placement per image, in the order of the images, and each
    /// carries the identifier and the size of its image.
    pub open spec fn places(self, images: Seq<ImageView>) -> bool {
        &&& self.placements.len() == images.len()
        &&& forall|i: int|
            0 <= i < images.len() ==> {
                &&& (#[trigger] self.placements[i]).identifier == images[i].name
                &&& self.placements[i].width == images[i].width
                &&& self.placements[i].height == images[i].height
            }
    }

    /// Every placement lies on the canvas.
    pub open spec fn in_canvas(self) -> bool {
        forall|i: int|
            0 <= i < self.placements.len() ==> (#[trigger] self.placements[i]).region().within(
                self.canvas_width,
                self.canvas_height,
            )
    }

    /// No two placements share a pixel.
    pub open spec fn non_overlapping(self) -> bool {
        forall|i: int, j: int|
            0 <= i < j < self.placements.len() ==> (#[trigger] self.placements[i]).region().disjoint(
                (#[trigger] self.placements[j]).region(),
            )
    }

    /// What holds of every layout that a strategy returns for `images`: the
    /// canvas is not degenerate, the input is not empty, each image is placed
    /// once, on the canvas, and no two placements overlap.
    pub open spec fn valid_for(self, images: Seq<ImageView>) -> bool {
        &&& images.len() > 0
        &&& self.canvas_width > 0
        &&& self.canvas_height > 0
        &&& self.places(images)
        &&& self.in_canvas()
        &&& self.non_overlapping()
    }

    /// The identifiers of the placements, in order.
    pub open spec fn identifiers(self) -> Seq<Seq<char>> {
        Seq::new(self.placements.len(), |i: int| self.placements[i].identifier)
    }
}

/// The identifiers of the images, in order.
pub open spec fn names(images: Seq<ImageView>) -> Seq<Seq<char>> {
    Seq::new(images.len(), |i: int| images[i].name)
}

/// A valid layout names exactly the images it was made for: the same
/// identifiers in the same order, each as often as the input holds it, and at
/// least one.
pub proof fn lemma_identifiers_preserved(layout: Arrangement, images: Seq<ImageView>)
    requires
        layout.valid_for(images),
    ensures
        layout.identifiers() == names(images),
        layout.identifiers().to_set() == names(images).to_set(),
        layout.identifiers().to_multiset() == names(images).to_multiset(),
        layout.identifiers().len() > 0,
        names(images).no_duplicates() ==> layout.identifiers().no_duplicates(),
{
    assert(layout.identifiers() =~= names(images));
}

} // verus!
