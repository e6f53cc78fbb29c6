//! The rectangle packer of `rect_packer`, as the packed strategy uses it.

use vstd::prelude::*;
use rect_packer::Packer;
use crate::geometry::Region;

verus! {

#[verifier::external_type_specification]
#[verifier::external_body]
pub struct ExPacker(rect_packer::Packer);

/// The rectangles that a packer has handed out so far, oldest first, each as
/// (x, y, width, height).
pub uninterp spec fn packed_rects(p: Packer) -> Seq<(i32, i32, i32, i32)>;

/// What a packer was made with: the bin's width and height, the padding at
/// the bin's border and the padding between rectangles.
pub uninterp spec fn packer_config(p: Packer) -> (i32, i32, i32, i32);

/// The corner that the skyline search of `rect_packer` picks in a bin
/// without padding that already holds `placed`, for a request of `width` by
/// `height` that may not be rotated, or `None` where it finds no room.
pub uninterp spec fn skyline_corner(
    bin_width: int,
    bin_height: int,
    placed: Seq<(i32, i32, i32, i32)>,
    width: int,
    height: int,
) -> Option<(i32, i32)>;

/// The width of a packer's bin: the width that it was made with, zero where
/// that is negative.
pub open spec fn bin_width(p: Packer) -> int {
    if packer_config(p).0 > 0 {
        packer_config(p).0 as int
    } else {
        0
    }
}

/// The height of a packer's bin: the height that it was made with, zero
/// where that is negative.
pub open spec fn bin_height(p: Packer) -> int {
    if packer_config(p).1 > 0 {
        packer_config(p).1 as int
    } else {
        0
    }
}

/// The packer pads neither the bin's border nor its rectangles.
pub open spec fn unpadded(p: Packer) -> bool {
    packer_config(p).2 == 0 && packer_config(p).3 == 0
}

/// The rectangle of a packer's record, as a region of the bin.
pub open spec fn region_of(r: (i32, i32, i32, i32)) -> Region {
    Region { x: r.0 as int, y: r.1 as int, width: r.2 as int, height: r.3 as int }
}

/// `rect_packer::Packer::new`, for a bin without padding. The new packer
/// keeps what it was made with and has handed out nothing.
#[verifier::external_body]
pub(crate) fn new_bin(width: i32, height: i32, border_padding: i32, rectangle_padding: i32) -> (p:
    Packer)
    requires
        border_padding == 0,
        rectangle_padding == 0,
    ensures
        packed_rects(p) == Seq::<(i32, i32, i32, i32)>::empty(),
        packer_config(p) == (width, height, border_padding, rectangle_padding),
{
    Packer::new(rect_packer::Config { width, height, border_padding, rectangle_padding })
}

/// `rect_packer::Packer::config`, of which the bin's width and height: what
/// the packer was made with.
#[verifier::external_body]
pub(crate) fn packer_size(p: &Packer) -> (r: (i32, i32))
    ensures
        r.0 == packer_config(*p).0,
        r.1 == packer_config(*p).1,
{
    let config = p.config();
    (config.width, config.height)
}

/// `rect_packer::Packer::pack` without rotation, on a packer without
/// padding. The answer is the corner that the skyline search picks, a
/// function of the bin, of what it holds and of the request. A request with a
/// side that is not positive finds no room. A rectangle that is handed out
/// lies in the bin, shares no pixel with any handed out before, and is
/// recorded last; a request that finds no room leaves the packer as it was.
/// The packer adds a side of the request to an offset in the bin in 32 bits,
/// so the sum of a side and the bin's side has to fit; with that the call
/// does not panic.
#[verifier::external_body]
pub(crate) fn pack_rect(p: &mut Packer, width: i32, height: i32, allow_rotation: bool) -> (r: Option<
    (i32, i32),
>)
    requires
        unpadded(*old(p)),
        !allow_rotation,
        width + bin_width(*old(p)) <= i32::MAX,
        height + bin_height(*old(p)) <= i32::MAX,
    ensures
        packer_config(*final(p)) == packer_config(*old(p)),
        r == skyline_corner(
            bin_width(*old(p)),
            bin_height(*old(p)),
            packed_rects(*old(p)),
            width as int,
            height as int,
        ),
        (width <= 0 || height <= 0) ==> r is None,
        r is None ==> packed_rects(*final(p)) == packed_rects(*old(p)),
        r matches Some(c) ==> {
            &&& packed_rects(*final(p)) == packed_rects(*old(p)).push((c.0, c.1, width, height))
            &&& region_of((c.0, c.1, width, height)).within(
                bin_width(*old(p)),
                bin_height(*old(p)),
            )
            &&& forall|i: int|
                0 <= i < packed_rects(*old(p)).len() ==> region_of(
                    (c.0, c.1, width, height),
                ).disjoint(region_of(#[trigger] packed_rects(*old(p))[i]))
        },
    no_unwind
{
    p.pack(width, height, allow_rotation).map(|r| (r.x, r.y))
}

} // verus!
