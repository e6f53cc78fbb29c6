//! The source images.

use vstd::prelude::*;

verus! {

/// A source image as contracts speak of it: its identifier, its size and its
/// pixels, four bytes (red, green, blue, alpha) per pixel, row after row.
pub struct ImageView {
    pub name: Seq<char>,
    pub width: int,
    pub height: int,
    pub pixels: Seq<u8>,
}

/// One decoded image. The pixel data always holds `4 * width * height` bytes.
#[derive(Debug)]
pub struct SourceImage {
    name: String,
    width: u32,
    height: u32,
    pixels: Vec<u8>,
}

impl View for SourceImage {
    type V = ImageView;

    closed spec fn view(&self) -> ImageView {
        ImageView {
            name: self.name@,
            width: self.width as int,
            height: self.height as int,
            pixels: self.pixels@,
        }
    }
}

impl SourceImage {
    #[verifier::type_invariant]
    spec fn holds_all_pixels(&self) -> bool {
        self.pixels@.len() == 4 * self.width * self.height
    }

    /// Builds an image from its identifier, its size and its pixel bytes.
    /// Returns `None` exactly when the byte count is not
    /// `4 * width * height`.
    pub fn new(name: String, width: u32, height: u32, pixels: Vec<u8>) -> (r: Option<SourceImage>)
        ensures
            r is Some <==> pixels@.len() == 4 * width * height,
            r matches Some(img) ==> img@ == (ImageView {
                name: name@,
                width: width as int,
                height: height as int,
                pixels: pixels@,
            }),
    {
        assert((width as int) * (height as int) <= 0xffff_ffff * 0xffff_ffff) by (nonlinear_arith)
            requires
                0 <= width <= 0xffff_ffff,
                0 <= height <= 0xffff_ffff,
        ;
        assert(4 * width * height == 4 * ((width as int) * (height as int))) by (nonlinear_arith);
        let area: u128 = (width as u128) * (height as u128);
        let wanted: u128 = 4u128 * area;
        if pixels.len() as u128 == wanted {
            Some(SourceImage { name, width, height, pixels })
        } else {
            None
        }
    }

    /// The identifier.
    pub fn name(&self) -> (r: &String)
        ensures
            r@ == self@.name,
    {
        &self.name
    }

    /// The width in pixels.
    pub fn width(&self) -> (r: u32)
        ensures
            r == self@.width,
    {
        self.width
    }

    /// The height in pixels.
    pub fn height(&self) -> (r: u32)
        ensures
            r == self@.height,
    {
        self.height
    }

    /// The pixel bytes.
    pub fn pixels(&self) -> (r: &Vec<u8>)
        ensures
            r@ == self@.pixels,
            r@.len() == 4 * self@.width * self@.height,
    {
        proof {
            use_type_invariant(self);
        }
        &self.pixels
    }
}

impl Clone for SourceImage {
    fn clone(&self) -> (r: SourceImage)
        ensures
            r@ == self@,
    {
        proof {
            use_type_invariant(self);
        }
        SourceImage {
            name: self.name.clone(),
            width: self.width,
            height: self.height,
            pixels: self.pixels.clone(),
        }
    }
}

/// The images of a list as contracts speak of them, in the list's order.
pub open spec fn image_views(images: Seq<SourceImage>) -> Seq<ImageView> {
    Seq::new(images.len(), |i: int| images[i]@)
}

/// Every image of the sequence has sides that fit in 32 bits.
pub open spec fn sized(images: Seq<ImageView>) -> bool {
    forall|i: int|
        0 <= i < images.len() ==> 0 <= (#[trigger] images[i]).width <= u32::MAX && 0
            <= images[i].height <= u32::MAX
}

} // verus!
