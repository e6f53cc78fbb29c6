//! The two strip strategies: the images in one column or in one row.

use vstd::prelude::*;
use crate::error::{Failure, SpriteError};
use crate::estimate::max_width;
use crate::geometry::{CanvasSize, Placement, PlacementRecord};
use crate::layout::{outcome_view, Arrangement, LayoutResult};
use crate::source::{image_views, sized, ImageView, SourceImage};

verus! {

/// The heights of all images added up.
pub open spec fn total_height(images: Seq<ImageView>) -> int
    decreases images.len(),
{
    if images.len() == 0 {
        0
    } else {
        total_height(images.drop_last()) + images.last().height
    }
}

/// The widths of all images added up.
pub open spec fn total_width(images: Seq<ImageView>) -> int
    decreases images.len(),
{
    if images.len() == 0 {
        0
    } else {
        total_width(images.drop_last()) + images.last().width
    }
}

/// The height of the highest image, 0 where there is none.
pub open spec fn max_height(images: Seq<ImageView>) -> int
    decreases images.len(),
{
    if images.len() == 0 {
        0
    } else if max_height(images.drop_last()) >= images.last().height {
        max_height(images.drop_last())
    } else {
        images.last().height
    }
}

/// The images one below the other, each at the left edge, in input order.
pub open spec fn vertical_arrangement(images: Seq<ImageView>) -> Arrangement {
    Arrangement {
        canvas_width: max_width(images),
        canvas_height: total_height(images),
        placements: Seq::new(
            images.len(),
            |i: int|
                Placement {
                    identifier: images[i].name,
                    x: 0,
                    y: total_height(images.take(i)),
                    width: images[i].width,
                    height: images[i].height,
                },
        ),
    }
}

/// The images side by side, each at the top edge, in input order.
pub open spec fn horizontal_arrangement(images: Seq<ImageView>) -> Arrangement {
    Arrangement {
        canvas_width: total_width(images),
        canvas_height: max_height(images),
        placements: Seq::new(
            images.len(),
            |i: int|
                Placement {
                    identifier: images[i].name,
                    x: total_width(images.take(i)),
                    y: 0,
                    width: images[i].width,
                    height: images[i].height,
                },
        ),
    }
}

/// What vertical layout returns: no layout for no images, none for a canvas
/// without width or height, else the images one below the other.
pub open spec fn vertical_outcome(images: Seq<ImageView>) -> Result<Arrangement, Failure> {
    if images.len() == 0 {
        Err(Failure::EmptyInput)
    } else if max_width(images) == 0 || total_height(images) == 0 {
        Err(Failure::DegenerateCanvas)
    } else {
        Ok(vertical_arrangement(images))
    }
}

/// What horizontal layout returns: no layout for no images, none for a canvas
/// without width or height, else the images side by side.
pub open spec fn horizontal_outcome(images: Seq<ImageView>) -> Result<Arrangement, Failure> {
    if images.len() == 0 {
        Err(Failure::EmptyInput)
    } else if total_width(images) == 0 || max_height(images) == 0 {
        Err(Failure::DegenerateCanvas)
    } else {
        Ok(horizontal_arrangement(images))
    }
}

/// An image with width and height exchanged.
pub open spec fn flipped(image: ImageView) -> ImageView {
    ImageView { name: image.name, width: image.height, height: image.width, pixels: image.pixels }
}

/// All images with width and height exchanged.
pub open spec fn all_flipped(images: Seq<ImageView>) -> Seq<ImageView> {
    Seq::new(images.len(), |i: int| flipped(images[i]))
}

/// A layout mirrored at the diagonal: the two axes change places.
pub open spec fn mirrored(layout: Arrangement) -> Arrangement {
    Arrangement {
        canvas_width: layout.canvas_height,
        canvas_height: layout.canvas_width,
        placements: Seq::new(
            layout.placements.len(),
            |i: int|
                Placement {
                    identifier: layout.placements[i].identifier,
                    x: layout.placements[i].y,
                    y: layout.placements[i].x,
                    width: layout.placements[i].height,
                    height: layout.placements[i].width,
                },
        ),
    }
}

proof fn lemma_flipped_measures(images: Seq<ImageView>)
    ensures
        total_width(images) == total_height(all_flipped(images)),
        max_height(images) == max_width(all_flipped(images)),
    decreases images.len(),
{
    if images.len() > 0 {
        assert(all_flipped(images).drop_last() =~= all_flipped(images.drop_last()));
        lemma_flipped_measures(images.drop_last());
    }
}

/// Horizontal layout is the dual of vertical layout: it is the vertical
/// layout of the images with width and height exchanged, mirrored at the
/// diagonal.
pub proof fn lemma_horizontal_is_dual(images: Seq<ImageView>)
    ensures
        horizontal_arrangement(images) == mirrored(vertical_arrangement(all_flipped(images))),
{
    lemma_flipped_measures(images);
    let h = horizontal_arrangement(images);
    let m = mirrored(vertical_arrangement(all_flipped(images)));
    assert forall|i: int| 0 <= i < images.len() implies h.placements[i] == m.placements[i] by {
        assert(all_flipped(images).take(i) =~= all_flipped(images.take(i)));
        lemma_flipped_measures(images.take(i));
    }
    assert(h.placements =~= m.placements);
}

/// The heights of the first `i` images and of the next one together do not
/// exceed the heights of the first `j`, for `i < j`.
pub proof fn lemma_heights_grow(images: Seq<ImageView>, i: int, j: int)
    requires
        sized(images),
        0 <= i <= j <= images.len(),
    ensures
        0 <= total_height(images.take(i)) <= total_height(images.take(j)),
        i < j ==> total_height(images.take(i)) + images[i].height <= total_height(images.take(j)),
    decreases j,
{
    if j == 0 {
        assert(images.take(0).len() == 0);
    } else {
        assert(images.take(j).drop_last() =~= images.take(j - 1));
        assert(images.take(j).last() == images[j - 1]);
        if i < j {
            lemma_heights_grow(images, i, j - 1);
        } else {
            lemma_heights_grow(images, i - 1, j - 1);
        }
    }
}

/// The same for widths.
pub proof fn lemma_widths_grow(images: Seq<ImageView>, i: int, j: int)
    requires
        sized(images),
        0 <= i <= j <= images.len(),
    ensures
        0 <= total_width(images.take(i)) <= total_width(images.take(j)),
        i < j ==> total_width(images.take(i)) + images[i].width <= total_width(images.take(j)),
    decreases j,
{
    if j == 0 {
        assert(images.take(0).len() == 0);
    } else {
        assert(images.take(j).drop_last() =~= images.take(j - 1));
        assert(images.take(j).last() == images[j - 1]);
        if i < j {
            lemma_widths_grow(images, i, j - 1);
        } else {
            lemma_widths_grow(images, i - 1, j - 1);
        }
    }
}

/// No image is wider than the widest.
pub proof fn lemma_max_width_bounds(images: Seq<ImageView>, i: int)
    requires
        0 <= i < images.len(),
    ensures
        images[i].width <= max_width(images),
    decreases images.len(),
{
    if i < images.len() - 1 {
        lemma_max_width_bounds(images.drop_last(), i);
    }
}

/// No image is higher than the highest.
pub proof fn lemma_max_height_bounds(images: Seq<ImageView>, i: int)
    requires
        0 <= i < images.len(),
    ensures
        images[i].height <= max_height(images),
    decreases images.len(),
{
    if i < images.len() - 1 {
        lemma_max_height_bounds(images.drop_last(), i);
    }
}

/// A vertical layout whose canvas is not degenerate is valid: every image is
/// placed once, on the canvas, and no two placements overlap.
pub proof fn lemma_vertical_is_valid(images: Seq<ImageView>)
    requires
        sized(images),
        images.len() > 0,
        max_width(images) > 0,
        total_height(images) > 0,
    ensures
        vertical_arrangement(images).valid_for(images),
{
    let a = vertical_arrangement(images);
    assert(images.take(images.len() as int) =~= images);
    assert forall|i: int| 0 <= i < a.placements.len() implies (#[trigger] a.placements[i]).region().within(
        a.canvas_width,
        a.canvas_height,
    ) by {
        lemma_max_width_bounds(images, i);
        lemma_heights_grow(images, i, images.len() as int);
    }
    assert forall|i: int, j: int| 0 <= i < j < a.placements.len() implies (
    #[trigger] a.placements[i]).region().disjoint((#[trigger] a.placements[j]).region()) by {
        lemma_heights_grow(images, i, j);
    }
}

/// A horizontal layout whose canvas is not degenerate is valid.
pub proof fn lemma_horizontal_is_valid(images: Seq<ImageView>)
    requires
        sized(images),
        images.len() > 0,
        total_width(images) > 0,
        max_height(images) > 0,
    ensures
        horizontal_arrangement(images).valid_for(images),
{
    let a = horizontal_arrangement(images);
    assert(images.take(images.len() as int) =~= images);
    assert forall|i: int| 0 <= i < a.placements.len() implies (#[trigger] a.placements[i]).region().within(
        a.canvas_width,
        a.canvas_height,
    ) by {
        lemma_max_height_bounds(images, i);
        lemma_widths_grow(images, i, images.len() as int);
    }
    assert forall|i: int, j: int| 0 <= i < j < a.placements.len() implies (
    #[trigger] a.placements[i]).region().disjoint((#[trigger] a.placements[j]).region()) by {
        lemma_widths_grow(images, i, j);
    }
}

/// The four measures of a list of images that the strip layouts rest on.
pub struct StripMeasures {
    pub total_width: u128,
    pub total_height: u128,
    pub max_width: u32,
    pub max_height: u32,
}

/// Adds up widths and heights and finds the widest and the highest image.
pub fn measure_strips(images: &Vec<SourceImage>) -> (r: StripMeasures)
    ensures
        r.total_width == total_width(image_views(images@)),
        r.total_height == total_height(image_views(images@)),
        r.max_width == max_width(image_views(images@)),
        r.max_height == max_height(image_views(images@)),
        sized(image_views(images@)),
{
    let ghost views = image_views(images@);
    let mut m = StripMeasures { total_width: 0, total_height: 0, max_width: 0, max_height: 0 };
    let mut i: usize = 0;
    while i < images.len()
        invariant
            i <= images.len(),
            views == image_views(images@),
            m.total_width == total_width(views.take(i as int)),
            m.total_height == total_height(views.take(i as int)),
            m.max_width == max_width(views.take(i as int)),
            m.max_height == max_height(views.take(i as int)),
            m.total_width <= i * 0xffff_ffff,
            m.total_height <= i * 0xffff_ffff,
            sized(views.take(i as int)),
        decreases images.len() - i,
    {
        let w: u32 = images[i].width();
        let h: u32 = images[i].height();
        proof {
            assert(views.take(i + 1).drop_last() =~= views.take(i as int));
            assert(views.take(i + 1).last() == views[i as int]);
            assert(views[i as int] == images@[i as int]@);
            assert forall|j: int| 0 <= j < views.take(i + 1).len() implies 0 <= (
            #[trigger] views.take(i + 1)[j]).width <= u32::MAX && 0 <= views.take(
                i + 1,
            )[j].height <= u32::MAX by {
                if j < i {
                    assert(views.take(i + 1)[j] == views.take(i as int)[j]);
                }
            }
        }
        m.total_width = m.total_width + w as u128;
        m.total_height = m.total_height + h as u128;
        if w > m.max_width {
            m.max_width = w;
        }
        if h > m.max_height {
            m.max_height = h;
        }
        i = i + 1;
    }
    proof {
        assert(views.take(images.len() as int) =~= views);
    }
    m
}

/// Vertical layout: the canvas is as wide as the widest image and as high as
/// all images together; each image sits at the left edge, below those that
/// come before it in the input.
pub fn layout_vertical(images: &Vec<SourceImage>) -> (r: Result<LayoutResult, SpriteError>)
    requires
        total_height(image_views(images@)) <= u32::MAX,
    ensures
        outcome_view(r) == vertical_outcome(image_views(images@)),
        images.len() == 0 ==> r == Err::<LayoutResult, SpriteError>(SpriteError::EmptyInput),
        r matches Ok(l) ==> {
            &&& l.canvas.width == max_width(image_views(images@))
            &&& l.canvas.height == total_height(image_views(images@))
            &&& l@.valid_for(image_views(images@))
        },
{
    if images.len() == 0 {
        return Err(SpriteError::EmptyInput);
    }
    let ghost views = image_views(images@);
    let m = measure_strips(images);
    if m.max_width == 0 || m.total_height == 0 {
        return Err(SpriteError::DegenerateCanvas);
    }
    let canvas = CanvasSize { width: m.max_width, height: m.total_height as u32 };
    let mut placements: Vec<PlacementRecord> = Vec::new();
    let mut y_offset: u32 = 0;
    let mut i: usize = 0;
    while i < images.len()
        invariant
            i <= images.len(),
            views == image_views(images@),
            sized(views),
            total_height(views) <= u32::MAX,
            y_offset == total_height(views.take(i as int)),
            placements@.len() == i,
            forall|j: int|
                0 <= j < i ==> (#[trigger] placements@[j])@ == vertical_arrangement(
                    views,
                ).placements[j],
        decreases images.len() - i,
    {
        let h: u32 = images[i].height();
        proof {
            assert(views[i as int] == images@[i as int]@);
            assert(views.take(i + 1).drop_last() =~= views.take(i as int));
            assert(views.take(i + 1).last() == views[i as int]);
            lemma_heights_grow(views, i + 1, images.len() as int);
            assert(views.take(images.len() as int) =~= views);
        }
        placements.push(
            PlacementRecord {
                identifier: images[i].name().clone(),
                offset_x: 0,
                offset_y: y_offset,
                width: images[i].width(),
                height: h,
            },
        );
        y_offset = y_offset + h;
        i = i + 1;
    }
    let result = LayoutResult { canvas, placements };
    proof {
        assert(result@.placements =~= vertical_arrangement(views).placements);
        lemma_vertical_is_valid(views);
    }
    Ok(result)
}

/// Horizontal layout: the canvas is as wide as all images together and as
/// high as the highest; each image sits at the top edge, to the right of
/// those that come before it in the input.
pub fn layout_horizontal(images: &Vec<SourceImage>) -> (r: Result<LayoutResult, SpriteError>)
    requires
        total_width(image_views(images@)) <= u32::MAX,
    ensures
        outcome_view(r) == horizontal_outcome(image_views(images@)),
        images.len() == 0 ==> r == Err::<LayoutResult, SpriteError>(SpriteError::EmptyInput),
        r matches Ok(l) ==> {
            &&& l.canvas.width == total_width(image_views(images@))
            &&& l.canvas.height == max_height(image_views(images@))
            &&& l@.valid_for(image_views(images@))
        },
{
    if images.len() == 0 {
        return Err(SpriteError::EmptyInput);
    }
    let ghost views = image_views(images@);
    let m = measure_strips(images);
    if m.total_width == 0 || m.max_height == 0 {
        return Err(SpriteError::DegenerateCanvas);
    }
    let canvas = CanvasSize { width: m.total_width as u32, height: m.max_height };
    let mut placements: Vec<PlacementRecord> = Vec::new();
    let mut x_offset: u32 = 0;
    let mut i: usize = 0;
    while i < images.len()
        invariant
            i <= images.len(),
            views == image_views(images@),
            sized(views),
            total_width(views) <= u32::MAX,
            x_offset == total_width(views.take(i as int)),
            placements@.len() == i,
            forall|j: int|
                0 <= j < i ==> (#[trigger] placements@[j])@ == horizontal_arrangement(
                    views,
                ).placements[j],
        decreases images.len() - i,
    {
        let w: u32 = images[i].width();
        proof {
            assert(views[i as int] == images@[i as int]@);
            assert(views.take(i + 1).drop_last() =~= views.take(i as int));
            assert(views.take(i + 1).last() == views[i as int]);
            lemma_widths_grow(views, i + 1, images.len() as int);
            assert(views.take(images.len() as int) =~= views);
        }
        placements.push(
            PlacementRecord {
                identifier: images[i].name().clone(),
                offset_x: x_offset,
                offset_y: 0,
                width: w,
                height: images[i].height(),
            },
        );
        x_offset = x_offset + w;
        i = i + 1;
    }
    let result = LayoutResult { canvas, placements };
    proof {
        assert(result@.placements =~= horizontal_arrangement(views).placements);
        lemma_horizontal_is_valid(views);
    }
    Ok(result)
}

} // verus!
