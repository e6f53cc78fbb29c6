//! The packed strategy: the images go into a square bin, one after the
//! other, wherever the packer finds room.

use vstd::prelude::*;
use crate::error::{Failure, SpriteError};
use crate::estimate::{bin_edge, estimate_bin_size, lemma_grow_edge, max_width, total_area, MIN_EDGE};
use crate::geometry::{CanvasSize, Placement, PlacementRecord};
use crate::layout::{outcome_view, Arrangement, LayoutResult};
use crate::packer::{all_in_bin, fit, pairwise_disjoint, RectanglePacker};
use crate::skyline::region_of;
use crate::source::{image_views, ImageView, SourceImage};

verus! {

/// The rectangles that the packer hands out for the first `n` images, asked
/// for in input order in a square bin of the given edge, or the index of the
/// first image that found no room.
pub open spec fn packed_prefix(edge: int, images: Seq<ImageView>, n: int) -> Result<
    Seq<(i32, i32, i32, i32)>,
    int,
>
    decreases n,
{
    if n <= 0 {
        Ok(Seq::empty())
    } else {
        match packed_prefix(edge, images, n - 1) {
            Err(k) => Err(k),
            Ok(placed) => {
                let w = images[n - 1].width;
                let h = images[n - 1].height;
                match fit(edge, edge, placed, w, h) {
                    None => Err(n - 1),
                    Some(c) => Ok(placed.push((c.0, c.1, w as i32, h as i32))),
                }
            },
        }
    }
}

/// The lowest row that any of the rectangles reaches, as a height from the
/// top of the bin.
pub open spec fn used_height(placed: Seq<(i32, i32, i32, i32)>) -> int
    decreases placed.len(),
{
    if placed.len() == 0 {
        0
    } else if used_height(placed.drop_last()) >= placed.last().1 + placed.last().3 {
        used_height(placed.drop_last())
    } else {
        placed.last().1 + placed.last().3
    }
}

/// The placement of the image named `name` on the rectangle that the packer
/// handed out for it.
pub open spec fn placement_on(name: Seq<char>, rect: (i32, i32, i32, i32)) -> Placement {
    Placement {
        identifier: name,
        x: rect.0 as int,
        y: rect.1 as int,
        width: rect.2 as int,
        height: rect.3 as int,
    }
}

/// The layout that the rectangles handed out by the packer make: the canvas
/// keeps the width of the starting bin and is cut to the height in use.
pub open spec fn packed_arrangement(
    images: Seq<ImageView>,
    placed: Seq<(i32, i32, i32, i32)>,
) -> Arrangement {
    Arrangement {
        canvas_width: bin_edge(images),
        canvas_height: used_height(placed),
        placements: Seq::new(images.len(), |i: int| placement_on(images[i].name, placed[i])),
    }
}

/// What packed layout returns: no layout for no images, the name of the
/// first image that finds no room in the starting bin, else the layout that
/// the packer's rectangles make.
pub open spec fn packed_outcome(images: Seq<ImageView>) -> Result<Arrangement, Failure> {
    if images.len() == 0 {
        Err(Failure::EmptyInput)
    } else {
        match packed_prefix(bin_edge(images), images, images.len() as int) {
            Err(k) => Err(Failure::PackingFailed(images[k].name)),
            Ok(placed) => Ok(packed_arrangement(images, placed)),
        }
    }
}

/// Once an image has found no room, the images after it are not asked for,
/// and the failure stays with that image.
pub proof fn lemma_packing_failure_stays(edge: int, images: Seq<ImageView>, k: int, n: int)
    requires
        0 <= k <= n,
        packed_prefix(edge, images, k) is Err,
    ensures
        packed_prefix(edge, images, n) == packed_prefix(edge, images, k),
    decreases n - k,
{
    if k < n {
        lemma_packing_failure_stays(edge, images, k, n - 1);
    }
}

/// The two sequences hold images of the same sizes in the same order.
pub open spec fn same_sizes(a: Seq<ImageView>, b: Seq<ImageView>) -> bool {
    &&& a.len() == b.len()
    &&& forall|i: int|
        0 <= i < a.len() ==> (#[trigger] a[i]).width == b[i].width && a[i].height == b[i].height
}

proof fn lemma_measures_agree(a: Seq<ImageView>, b: Seq<ImageView>)
    requires
        same_sizes(a, b),
    ensures
        total_area(a) == total_area(b),
        max_width(a) == max_width(b),
    decreases a.len(),
{
    if a.len() > 0 {
        assert(a.last().width == b[a.len() - 1].width);
        assert(a.last().height == b[a.len() - 1].height);
        assert forall|i: int| 0 <= i < a.drop_last().len() implies (#[trigger] a.drop_last()[i]).width
            == b.drop_last()[i].width && a.drop_last()[i].height == b.drop_last()[i].height by {
            assert(a[i].width == b[i].width);
        }
        lemma_measures_agree(a.drop_last(), b.drop_last());
    }
}

proof fn lemma_prefixes_agree(edge: int, a: Seq<ImageView>, b: Seq<ImageView>, n: int)
    requires
        same_sizes(a, b),
        0 <= n <= a.len(),
    ensures
        packed_prefix(edge, a, n) == packed_prefix(edge, b, n),
    decreases n,
{
    if n > 0 {
        lemma_prefixes_agree(edge, a, b, n - 1);
        assert(a[n - 1].width == b[n - 1].width);
        assert(a[n - 1].height == b[n - 1].height);
    }
}

/// Packed layout is deterministic: images of the same sizes in the same order
/// get the same bin, the same rectangles and the same canvas, whatever they
/// are called and whatever they show.
pub proof fn lemma_packed_is_deterministic(a: Seq<ImageView>, b: Seq<ImageView>)
    requires
        same_sizes(a, b),
    ensures
        bin_edge(a) == bin_edge(b),
        packed_prefix(bin_edge(a), a, a.len() as int) == packed_prefix(
            bin_edge(b),
            b,
            b.len() as int,
        ),
        packed_outcome(a) is Ok <==> packed_outcome(b) is Ok,
        packed_outcome(a) matches Ok(x) ==> {
            let y = packed_outcome(b)->Ok_0;
            &&& x.canvas_width == y.canvas_width
            &&& x.canvas_height == y.canvas_height
            &&& x.placements.len() == y.placements.len()
            &&& forall|i: int|
                0 <= i < x.placements.len() ==> (#[trigger] x.placements[i]).region()
                    == y.placements[i].region()
        },
{
    lemma_measures_agree(a, b);
    lemma_prefixes_agree(bin_edge(a), a, b, a.len() as int);
}

/// Packed layout. The bin is the estimated square; the images are handed to
/// the packer in input order, none rotated; the canvas is as wide as the bin
/// and as high as the lowest row in use.
pub fn layout_packed(images: &Vec<SourceImage>) -> (r: Result<LayoutResult, SpriteError>)
    requires
        2 * bin_edge(image_views(images@)) <= i32::MAX,
    ensures
        outcome_view(r) == packed_outcome(image_views(images@)),
        images.len() == 0 ==> r == Err::<LayoutResult, SpriteError>(SpriteError::EmptyInput),
        r matches Ok(l) ==> {
            &&& l.canvas.width == bin_edge(image_views(images@))
            &&& l.canvas.height <= l.canvas.width
            &&& l@.valid_for(image_views(images@))
        },
{
    if images.len() == 0 {
        return Err(SpriteError::EmptyInput);
    }
    let ghost views = image_views(images@);
    let size = estimate_bin_size(images);
    let edge: u32 = size.0;
    proof {
        lemma_grow_edge(MIN_EDGE as int, max_width(views), total_area(views));
    }
    let mut packer = RectanglePacker::new(edge, size.1);
    let mut placements: Vec<PlacementRecord> = Vec::new();
    let mut used: u32 = 0;
    let mut i: usize = 0;
    while i < images.len()
        invariant
            i <= images.len(),
            views == image_views(images@),
            edge == bin_edge(views),
            MIN_EDGE <= edge,
            2 * edge <= i32::MAX,
            packer.width() == edge,
            packer.height() == edge,
            packed_prefix(edge as int, views, i as int) == Ok::<Seq<(i32, i32, i32, i32)>, int>(
                packer.placed(),
            ),
            packer.placed().len() == i,
            all_in_bin(packer.placed(), edge as int, edge as int),
            pairwise_disjoint(packer.placed()),
            placements@.len() == i,
            used == used_height(packer.placed()),
            used <= edge,
            i > 0 ==> used > 0,
            forall|j: int|
                0 <= j < i ==> (#[trigger] placements@[j])@ == placement_on(
                    views[j].name,
                    packer.placed()[j],
                ),
            forall|j: int|
                0 <= j < i ==> {
                    &&& (#[trigger] packer.placed()[j]).2 == views[j].width
                    &&& packer.placed()[j].3 == views[j].height
                    &&& packer.placed()[j].1 + packer.placed()[j].3 <= used
                },
        decreases images.len() - i,
    {
        let w: u32 = images[i].width();
        let h: u32 = images[i].height();
        let ghost before = packer.placed();
        assert(views[i as int] == images@[i as int]@);
        match packer.pack(w, h) {
            None => {
                proof {
                    assert(packed_prefix(edge as int, views, i + 1) == Err::<
                        Seq<(i32, i32, i32, i32)>,
                        int,
                    >(i as int));
                    lemma_packing_failure_stays(edge as int, views, i + 1, images.len() as int);
                }
                return Err(SpriteError::PackingFailed(images[i].name().clone()));
            },
            Some(corner) => {
                let ghost rect = (corner.0 as i32, corner.1 as i32, w as i32, h as i32);
                proof {
                    assert(packer.placed() == before.push(rect));
                    assert(packer.placed().drop_last() =~= before);
                    assert(packer.placed()[i as int] == rect);
                    assert(region_of(rect).within(edge as int, edge as int));
                }
                let bottom: u32 = corner.1 + h;
                if bottom > used {
                    used = bottom;
                }
                let ghost earlier = placements@;
                placements.push(
                    PlacementRecord {
                        identifier: images[i].name().clone(),
                        offset_x: corner.0,
                        offset_y: corner.1,
                        width: w,
                        height: h,
                    },
                );
                proof {
                    assert(w <= edge && h <= edge);
                    assert forall|j: int| 0 <= j < i + 1 implies (#[trigger] placements@[j])@
                        == placement_on(views[j].name, packer.placed()[j]) by {
                        if j < i {
                            assert(packer.placed()[j] == before[j]);
                            assert(placements@[j] == earlier[j]);
                        }
                    }
                    assert forall|j: int| 0 <= j < i + 1 implies {
                        &&& (#[trigger] packer.placed()[j]).2 == views[j].width
                        &&& packer.placed()[j].3 == views[j].height
                        &&& packer.placed()[j].1 + packer.placed()[j].3 <= used
                    } by {
                        if j < i {
                            assert(packer.placed()[j] == before[j]);
                        }
                    }
                }
            },
        }
        i = i + 1;
    }
    let result = LayoutResult { canvas: CanvasSize { width: edge, height: used }, placements };
    proof {
        let placed = packer.placed();
        let a = packed_arrangement(views, placed);
        assert(result@.placements =~= a.placements);
        assert(result@ == a);
        assert forall|j: int| 0 <= j < a.placements.len() implies (#[trigger] a.placements[j]).region().within(
            a.canvas_width,
            a.canvas_height,
        ) by {
            assert(region_of(placed[j]).within(edge as int, edge as int));
        }
        assert forall|j: int, k: int| 0 <= j < k < a.placements.len() implies (
        #[trigger] a.placements[j]).region().disjoint((#[trigger] a.placements[k]).region()) by {
            assert(region_of(placed[j]).disjoint(region_of(placed[k])));
        }
        assert(result@.valid_for(views));
    }
    Ok(result)
}

} // verus!
