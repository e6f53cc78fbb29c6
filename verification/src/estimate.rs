//! The bin size estimator of the packed strategy.

use vstd::prelude::*;
use crate::source::{image_views, sized, ImageView, SourceImage};

verus! {

/// The edge that the search for a bin starts from.
pub const MIN_EDGE: u32 = 512;

/// The pixels of all images together.
pub open spec fn total_area(images: Seq<ImageView>) -> int
    decreases images.len(),
{
    if images.len() == 0 {
        0
    } else {
        total_area(images.drop_last()) + images.last().width * images.last().height
    }
}

/// The width of the widest image, 0 where there is none.
pub open spec fn max_width(images: Seq<ImageView>) -> int
    decreases images.len(),
{
    if images.len() == 0 {
        0
    } else if max_width(images.drop_last()) >= images.last().width {
        max_width(images.drop_last())
    } else {
        images.last().width
    }
}

/// A square bin of this edge is as wide as the widest image and has room for
/// the pixels of all of them.
pub open spec fn roomy(edge: int, widest: int, area: int) -> bool {
    edge >= widest && edge * edge >= area
}

/// What is left to grow before an edge is roomy.
pub open spec fn shortfall(edge: int, widest: int, area: int) -> int {
    (if widest > edge { widest - edge } else { 0 }) + (if area > edge { area - edge } else { 0 })
}

/// The first roomy edge among `edge`, `2 * edge`, `4 * edge`, ...
pub open spec fn grow_edge(edge: int, widest: int, area: int) -> int
    decreases shortfall(edge, widest, area),
    when edge >= 1
    via grow_edge_terminates
{
    if roomy(edge, widest, area) {
        edge
    } else {
        grow_edge(2 * edge, widest, area)
    }
}

#[via_fn]
proof fn grow_edge_terminates(edge: int, widest: int, area: int) {
    if !roomy(edge, widest, area) {
        assert(edge * edge >= edge) by (nonlinear_arith)
            requires
                edge >= 1,
        ;
    }
}

/// The edge of the square bin that the packed strategy starts with.
pub open spec fn bin_edge(images: Seq<ImageView>) -> int {
    grow_edge(MIN_EDGE as int, max_width(images), total_area(images))
}

/// `edge` is the starting edge doubled some number of times.
pub open spec fn doubled_from_min(edge: int) -> bool
    decreases edge,
{
    edge == MIN_EDGE || (edge > MIN_EDGE && edge % 2 == 0 && doubled_from_min(edge / 2))
}

/// Growing never shrinks an edge, and stops at a roomy one.
pub proof fn lemma_grow_edge(edge: int, widest: int, area: int)
    requires
        edge >= 1,
    ensures
        grow_edge(edge, widest, area) >= edge,
        roomy(grow_edge(edge, widest, area), widest, area),
    decreases shortfall(edge, widest, area),
{
    if !roomy(edge, widest, area) {
        assert(edge * edge >= edge) by (nonlinear_arith)
            requires
                edge >= 1,
        ;
        lemma_grow_edge(2 * edge, widest, area);
    }
}

/// An edge that is reached by growing from a doubling of the starting edge is
/// such a doubling itself, and unless it is where the growing began, half of
/// it is not roomy.
proof fn lemma_grow_edge_least(edge: int, widest: int, area: int)
    requires
        doubled_from_min(edge),
    ensures
        doubled_from_min(grow_edge(edge, widest, area)),
        grow_edge(edge, widest, area) > edge ==> !roomy(
            grow_edge(edge, widest, area) / 2,
            widest,
            area,
        ),
    decreases shortfall(edge, widest, area),
{
    if !roomy(edge, widest, area) {
        assert(edge * edge >= edge) by (nonlinear_arith)
            requires
                edge >= 1,
        ;
        assert(doubled_from_min(2 * edge));
        lemma_grow_edge_least(2 * edge, widest, area);
        lemma_grow_edge(2 * edge, widest, area);
    }
}

/// The starting bin is the smallest roomy square whose edge is the starting
/// edge doubled some number of times.
pub proof fn lemma_bin_edge_is_least(images: Seq<ImageView>)
    ensures
        doubled_from_min(bin_edge(images)),
        roomy(bin_edge(images), max_width(images), total_area(images)),
        bin_edge(images) == MIN_EDGE || !roomy(
            bin_edge(images) / 2,
            max_width(images),
            total_area(images),
        ),
{
    lemma_grow_edge(MIN_EDGE as int, max_width(images), total_area(images));
    lemma_grow_edge_least(MIN_EDGE as int, max_width(images), total_area(images));
}

/// Adds up the pixels of all images and finds the widest.
pub fn measure(images: &Vec<SourceImage>) -> (r: (u128, u32))
    ensures
        r.0 == total_area(image_views(images@)),
        r.1 == max_width(image_views(images@)),
        sized(image_views(images@)),
{
    let ghost views = image_views(images@);
    let mut area: u128 = 0;
    let mut widest: u32 = 0;
    let mut i: usize = 0;
    while i < images.len()
        invariant
            i <= images.len(),
            views == image_views(images@),
            area == total_area(views.take(i as int)),
            widest == max_width(views.take(i as int)),
            area <= i * 0xffff_fffe_0000_0001,
            sized(views.take(i as int)),
        decreases images.len() - i,
    {
        let w: u32 = images[i].width();
        let h: u32 = images[i].height();
        proof {
            assert(views.take(i + 1).drop_last() =~= views.take(i as int));
            assert(views.take(i + 1).last() == views[i as int]);
            assert(views[i as int] == images@[i as int]@);
            assert((w as int) * (h as int) <= 0xffff_fffe_0000_0001) by (nonlinear_arith)
                requires
                    0 <= w <= 0xffff_ffff,
                    0 <= h <= 0xffff_ffff,
            ;
            assert((i + 1) * 0xffff_fffe_0000_0001 <= 0xffff_ffff_ffff_ffff
                * 0xffff_fffe_0000_0001) by (nonlinear_arith)
                requires
                    i + 1 <= 0xffff_ffff_ffff_ffff,
            ;
            assert forall|j: int| 0 <= j < views.take(i + 1).len() implies 0 <= (
            #[trigger] views.take(i + 1)[j]).width <= u32::MAX && 0 <= views.take(
                i + 1,
            )[j].height <= u32::MAX by {
                if j < i {
                    assert(views.take(i + 1)[j] == views.take(i as int)[j]);
                }
            }
        }
        let pixels: u128 = (w as u128) * (h as u128);
        area = area + pixels;
        if w > widest {
            widest = w;
        }
        i = i + 1;
    }
    proof {
        assert(views.take(images.len() as int) =~= views);
    }
    (area, widest)
}

/// The bin that the packed strategy starts with, or `None` where its edge
/// does not fit in 32 bits.
pub fn try_estimate_bin_size(images: &Vec<SourceImage>) -> (r: Option<(u32, u32)>)
    ensures
        r is Some <==> bin_edge(image_views(images@)) <= u32::MAX,
        r matches Some(size) ==> size.0 == bin_edge(image_views(images@)) && size.1 == size.0,
{
    let (area, widest) = measure(images);
    let ghost goal = bin_edge(image_views(images@));
    let mut edge: u32 = MIN_EDGE;
    loop
        invariant
            edge >= 1,
            goal == bin_edge(image_views(images@)),
            area == total_area(image_views(images@)),
            widest == max_width(image_views(images@)),
            grow_edge(edge as int, widest as int, area as int) == goal,
        decreases u32::MAX - edge,
    {
        assert((edge as int) * (edge as int) <= 0xffff_ffff * 0xffff_ffff) by (nonlinear_arith)
            requires
                0 <= edge <= 0xffff_ffff,
        ;
        let square: u128 = (edge as u128) * (edge as u128);
        if edge >= widest && square >= area {
            return Some((edge, edge));
        }
        proof {
            lemma_grow_edge(2 * edge, widest as int, area as int);
        }
        if edge > u32::MAX / 2 {
            return None;
        }
        edge = edge * 2;
    }
}

/// The bin that the packed strategy starts with: a square whose edge is the
/// starting edge, doubled until the square is as wide as the widest image and
/// has room for the pixels of all images.
pub fn estimate_bin_size(images: &Vec<SourceImage>) -> (r: (u32, u32))
    requires
        bin_edge(image_views(images@)) <= u32::MAX,
    ensures
        r.0 == bin_edge(image_views(images@)),
        r.1 == r.0,
{
    try_estimate_bin_size(images).unwrap()
}

} // verus!
