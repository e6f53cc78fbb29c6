//! The rectangle packer: hands out places in a bin of fixed size, one
//! request after the other, so that no two of them overlap.

use vstd::prelude::*;
use rect_packer::Packer;
use crate::skyline::{
    bin_height, bin_width, new_bin, pack_rect, packed_rects, packer_size, region_of,
    skyline_corner, unpadded,
};

verus! {

/// A bin of fixed size and the rectangles handed out in it so far.
pub struct RectanglePacker {
    packer: Packer,
}

/// Every rectangle has positive sides and lies in a bin of the given size.
pub open spec fn all_in_bin(placed: Seq<(i32, i32, i32, i32)>, width: int, height: int) -> bool {
    forall|i: int|
        0 <= i < placed.len() ==> {
            &&& (#[trigger] placed[i]).2 > 0
            &&& placed[i].3 > 0
            &&& region_of(placed[i]).within(width, height)
        }
}

/// No two of the rectangles share a pixel.
pub open spec fn pairwise_disjoint(placed: Seq<(i32, i32, i32, i32)>) -> bool {
    forall|i: int, j: int|
        0 <= i < j < placed.len() ==> region_of(#[trigger] placed[i]).disjoint(
            region_of(#[trigger] placed[j]),
        )
}

/// Where a request of `width` by `height` is placed in a bin that already
/// holds `placed`: nowhere if it is wider or higher than the bin, else where
/// the skyline search puts it, if it finds room.
pub open spec fn fit(
    bin_width: int,
    bin_height: int,
    placed: Seq<(i32, i32, i32, i32)>,
    width: int,
    height: int,
) -> Option<(i32, i32)> {
    if width > bin_width || height > bin_height {
        None
    } else {
        skyline_corner(bin_width, bin_height, placed, width, height)
    }
}

impl RectanglePacker {
    #[verifier::type_invariant]
    spec fn well_formed(&self) -> bool {
        &&& unpadded(self.packer)
        &&& 2 * bin_width(self.packer) <= i32::MAX
        &&& 2 * bin_height(self.packer) <= i32::MAX
        &&& all_in_bin(packed_rects(self.packer), bin_width(self.packer), bin_height(self.packer))
        &&& pairwise_disjoint(packed_rects(self.packer))
    }

    /// The width of the bin.
    pub closed spec fn width(&self) -> int {
        bin_width(self.packer)
    }

    /// The height of the bin.
    pub closed spec fn height(&self) -> int {
        bin_height(self.packer)
    }

    /// The rectangles handed out so far, oldest first, each as
    /// (x, y, width, height).
    pub closed spec fn placed(&self) -> Seq<(i32, i32, i32, i32)> {
        packed_rects(self.packer)
    }

    /// An empty bin of the given size. Offsets in the bin are kept in 32 bits
    /// with a sign and a side is added to them, so twice a side has to fit.
    pub fn new(width: u32, height: u32) -> (r: RectanglePacker)
        requires
            2 * width <= i32::MAX,
            2 * height <= i32::MAX,
        ensures
            r.width() == width,
            r.height() == height,
            r.placed() == Seq::<(i32, i32, i32, i32)>::empty(),
    {
        RectanglePacker { packer: new_bin(width as i32, height as i32, 0, 0) }
    }

    /// Asks for a place for a rectangle of `width` by `height`. The answer
    /// depends on nothing but the bin, what it holds and the request. A
    /// rectangle that gets a place lies in the bin and overlaps none that
    /// was placed before; a request without a place leaves the bin as it
    /// was. A rectangle without width or height gets none.
    pub fn pack(&mut self, width: u32, height: u32) -> (r: Option<(u32, u32)>)
        ensures
            final(self).width() == old(self).width(),
            final(self).height() == old(self).height(),
            match r {
                None => fit(
                    old(self).width(),
                    old(self).height(),
                    old(self).placed(),
                    width as int,
                    height as int,
                ) is None && final(self).placed() == old(self).placed(),
                Some(corner) => fit(
                    old(self).width(),
                    old(self).height(),
                    old(self).placed(),
                    width as int,
                    height as int,
                ) == Some((corner.0 as i32, corner.1 as i32)) && final(self).placed() == old(
                    self,
                ).placed().push((corner.0 as i32, corner.1 as i32, width as i32, height as i32))
                    && corner.0 <= i32::MAX && corner.1 <= i32::MAX,
            },
            width == 0 || height == 0 ==> r is None,
            all_in_bin(final(self).placed(), final(self).width(), final(self).height()),
            pairwise_disjoint(final(self).placed()),
    {
        proof {
            use_type_invariant(&*self);
        }
        let ghost before = packed_rects(self.packer);
        if width > i32::MAX as u32 || height > i32::MAX as u32 {
            return None;
        }
        let (bin_w, bin_h) = self.size();
        if width > bin_w || height > bin_h {
            return None;
        }
        match pack_rect(&mut self.packer, width as i32, height as i32, false) {
            None => None,
            Some(corner) => {
                proof {
                    let after = packed_rects(self.packer);
                    let rect = (corner.0, corner.1, width as i32, height as i32);
                    assert(after == before.push(rect));
                    assert forall|i: int| 0 <= i < after.len() implies {
                        &&& (#[trigger] after[i]).2 > 0
                        &&& after[i].3 > 0
                        &&& region_of(after[i]).within(
                            bin_width(self.packer),
                            bin_height(self.packer),
                        )
                    } by {
                        if i < before.len() {
                            assert(after[i] == before[i]);
                        }
                    }
                    assert forall|i: int, j: int| 0 <= i < j < after.len() implies region_of(
                        #[trigger] after[i],
                    ).disjoint(region_of(#[trigger] after[j])) by {
                        assert(after[i] == before[i]);
                        if j < before.len() {
                            assert(after[j] == before[j]);
                        }
                    }
                }
                Some((corner.0 as u32, corner.1 as u32))
            },
        }
    }

    /// Width and height of the bin.
    pub fn size(&self) -> (r: (u32, u32))
        ensures
            r.0 == self.width(),
            r.1 == self.height(),
    {
        proof {
            use_type_invariant(self);
        }
        let (width, height) = packer_size(&self.packer);
        (if width > 0 { width as u32 } else { 0 }, if height > 0 { height as u32 } else { 0 })
    }
}

} // verus!
