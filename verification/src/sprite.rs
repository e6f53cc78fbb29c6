//! The sprite: a list of images, laid out, drawn and described by a
//! stylesheet.

use vstd::prelude::*;
use crate::canvas::{
    byte_at, compose, composited, crop, lemma_composited_len, lemma_composited_pixel,
    lemma_composited_rows, SpriteSheet,
};
use crate::encoding::{encoding_for, encoding_of_path, SheetEncoding};
use crate::error::{Failure, SpriteError};
use crate::estimate::{bin_edge, max_width, try_estimate_bin_size};
use crate::geometry::CanvasSize;
use crate::layout::{outcome_view, Arrangement, LayoutResult};
use crate::packed::{layout_packed, packed_outcome};
use crate::source::{image_views, ImageView, SourceImage};
use crate::strip::{
    horizontal_outcome, layout_horizontal, layout_vertical, max_height, measure_strips,
    total_height, total_width, vertical_outcome,
};
use crate::stylesheet::{stylesheet, stylesheet_text};

verus! {

/// Layout options for the sprite sheet.
#[derive(Debug, Clone, Copy, PartialEq, Eq, Structural)]
pub enum Layout {
    Horizontal,
    Vertical,
    Packed,
}

/// The images that go onto one sheet.
#[derive(Debug)]
pub struct Sprite {
    pub images: Vec<SourceImage>,
}

/// What is written out for a sprite: the sheet with its encoding, and the
/// stylesheet.
#[derive(Debug, Clone, PartialEq, Eq)]
pub struct SpriteFiles {
    pub sheet: SpriteSheet,
    pub encoding: SheetEncoding,
    pub css: String,
}

/// A finished sprite as contracts speak of it: the sheet's size and bytes,
/// and the stylesheet's text.
pub struct Rendering {
    pub width: int,
    pub height: int,
    pub pixels: Seq<u8>,
    pub css: Seq<char>,
}

/// The sprite that a layout of `images` makes: every image drawn at its
/// placement on a blank canvas, and one rule per placement.
pub open spec fn rendering(layout: Layout, a: Arrangement, images: Seq<ImageView>) -> Rendering {
    Rendering {
        width: a.canvas_width,
        height: a.canvas_height,
        pixels: composited(
            a.canvas_width,
            a.canvas_height,
            a.placements,
            images,
            images.len() as int,
        ),
        css: stylesheet_text(layout, a.placements, a.placements.len() as int),
    }
}

/// The sprite of a valid layout shows every image at its placement and is
/// blank elsewhere: a byte of a pixel under a placement is the byte of the
/// image's pixel that lies there, and a byte of a pixel under no placement is
/// zero.
pub proof fn lemma_sprite_shows_images(
    layout: Layout,
    a: Arrangement,
    images: Seq<ImageView>,
    px: int,
    py: int,
    c: int,
)
    requires
        a.valid_for(images),
        0 <= px < a.canvas_width,
        0 <= py < a.canvas_height,
        0 <= c < 4,
    ensures
        forall|i: int|
            0 <= i < images.len() && (#[trigger] a.placements[i]).region().covers(px, py)
                ==> rendering(layout, a, images).pixels[byte_at(a.canvas_width, px, py, c)]
                == images[i].pixels[byte_at(
                images[i].width,
                px - a.placements[i].x,
                py - a.placements[i].y,
                c,
            )],
        (forall|i: int| 0 <= i < images.len() ==> !(#[trigger] a.placements[i]).region().covers(px, py))
            ==> rendering(layout, a, images).pixels[byte_at(a.canvas_width, px, py, c)] == 0,
{
    lemma_composited_pixel(
        a.canvas_width,
        a.canvas_height,
        a.placements,
        images,
        images.len() as int,
        px,
        py,
        c,
    );
}

/// What the chosen strategy returns for `images`.
pub open spec fn layout_outcome(layout: Layout, images: Seq<ImageView>) -> Result<
    Arrangement,
    Failure,
> {
    match layout {
        Layout::Vertical => vertical_outcome(images),
        Layout::Horizontal => horizontal_outcome(images),
        Layout::Packed => packed_outcome(images),
    }
}

/// What building a sprite returns for `images`: the error of the layout, or
/// the sprite that the layout makes.
pub open spec fn sprite_outcome(layout: Layout, images: Seq<ImageView>) -> Result<
    Rendering,
    Failure,
> {
    match layout_outcome(layout, images) {
        Ok(a) => Ok(rendering(layout, a, images)),
        Err(f) => Err(f),
    }
}

/// What a build returned, as contracts speak of it.
pub open spec fn build_view(r: Result<(SpriteSheet, String), SpriteError>) -> Result<
    Rendering,
    Failure,
> {
    match r {
        Ok(built) => Ok(
            Rendering {
                width: built.0.width as int,
                height: built.0.height as int,
                pixels: built.0.pixels@,
                css: built.1@,
            },
        ),
        Err(e) => Err(e@),
    }
}

/// The offsets of the chosen strategy fit the integers that carry them:
/// 32 bits without a sign for the strips, and for the packed strategy twice
/// the bin's edge in 32 bits with a sign, as the packer adds a side to an
/// offset.
pub open spec fn placeable(layout: Layout, images: Seq<ImageView>) -> bool {
    match layout {
        Layout::Vertical => total_height(images) <= u32::MAX,
        Layout::Horizontal => total_width(images) <= u32::MAX,
        Layout::Packed => 2 * bin_edge(images) <= i32::MAX,
    }
}

/// The layout can be computed and the canvas that is drawn on can be
/// allocated: its bytes do not exceed the largest allocation.
pub open spec fn buildable(layout: Layout, images: Seq<ImageView>) -> bool {
    &&& placeable(layout, images)
    &&& match layout {
        Layout::Vertical => 4 * max_width(images) * total_height(images) <= isize::MAX,
        Layout::Horizontal => 4 * total_width(images) * max_height(images) <= isize::MAX,
        Layout::Packed => 4 * bin_edge(images) * bin_edge(images) <= isize::MAX,
    }
}

impl Sprite {
    /// The images as contracts speak of them.
    pub open spec fn views(&self) -> Seq<ImageView> {
        image_views(self.images@)
    }

    /// A sprite of the given images, in the given order.
    pub fn new(images: Vec<SourceImage>) -> (r: Sprite)
        ensures
            r.images == images,
    {
        Sprite { images }
    }

    /// Whether the layout of the chosen strategy can be computed.
    pub fn can_place(&self, layout: Layout) -> (r: bool)
        ensures
            r == placeable(layout, self.views()),
    {
        match layout {
            Layout::Vertical => {
                let m = measure_strips(&self.images);
                m.total_height <= u32::MAX as u128
            },
            Layout::Horizontal => {
                let m = measure_strips(&self.images);
                m.total_width <= u32::MAX as u128
            },
            Layout::Packed => {
                match try_estimate_bin_size(&self.images) {
                    None => false,
                    Some(size) => size.0 <= 0x3fff_ffff,
                }
            },
        }
    }

    /// Whether a sprite of the chosen strategy can be built.
    pub fn can_build(&self, layout: Layout) -> (r: bool)
        ensures
            r == buildable(layout, self.views()),
    {
        match layout {
            Layout::Vertical => {
                let m = measure_strips(&self.images);
                m.total_height <= u32::MAX as u128 && canvas_fits(
                    m.max_width,
                    m.total_height as u32,
                )
            },
            Layout::Horizontal => {
                let m = measure_strips(&self.images);
                m.total_width <= u32::MAX as u128 && canvas_fits(
                    m.total_width as u32,
                    m.max_height,
                )
            },
            Layout::Packed => {
                match try_estimate_bin_size(&self.images) {
                    None => false,
                    Some(size) => size.0 <= 0x3fff_ffff && canvas_fits(size.0, size.0),
                }
            },
        }
    }

    /// The layout of the chosen strategy.
    pub fn layout(&self, layout: Layout) -> (r: Result<LayoutResult, SpriteError>)
        requires
            placeable(layout, self.views()),
        ensures
            outcome_view(r) == layout_outcome(layout, self.views()),
            self.images.len() == 0 ==> r == Err::<LayoutResult, SpriteError>(
                SpriteError::EmptyInput,
            ),
            r matches Ok(l) ==> l@.valid_for(self.views()),
    {
        match layout {
            Layout::Vertical => layout_vertical(&self.images),
            Layout::Horizontal => layout_horizontal(&self.images),
            Layout::Packed => layout_packed(&self.images),
        }
    }

    /// Builds the sheet and the stylesheet with the chosen strategy.
    pub fn build_sprite(&self, layout: Layout) -> (r: Result<(SpriteSheet, String), SpriteError>)
        requires
            buildable(layout, self.views()),
        ensures
            build_view(r) == sprite_outcome(layout, self.views()),
            self.images.len() == 0 ==> r == Err::<(SpriteSheet, String), SpriteError>(
                SpriteError::EmptyInput,
            ),
    {
        if self.images.len() == 0 {
            return Err(SpriteError::EmptyInput);
        }
        match layout {
            Layout::Vertical => self.build_vertical(),
            Layout::Horizontal => self.build_horizontal(),
            Layout::Packed => self.build_packed(),
        }
    }

    /// Builds the sheet and the stylesheet with the chosen strategy and picks
    /// the encoding for the file that the sheet goes to.
    pub fn generate_sprite_and_css(&self, output_image: &str, layout: Layout) -> (r: Result<
        SpriteFiles,
        SpriteError,
    >)
        requires
            buildable(layout, self.views()),
        ensures
            match r {
                Ok(files) => build_view(Ok((files.sheet, files.css))) == sprite_outcome(
                    layout,
                    self.views(),
                ) && exists|extension: Seq<char>| files.encoding == encoding_for(extension),
                Err(e) => Err::<Rendering, Failure>(e@) == sprite_outcome(layout, self.views()),
            },
    {
        let (sheet, css) = match self.build_sprite(layout) {
            Ok(built) => built,
            Err(e) => {
                return Err(e);
            },
        };
        let encoding = encoding_of_path(output_image);
        Ok(SpriteFiles { sheet, encoding, css })
    }

    /// Builds the sheet and the stylesheet with the images one below the
    /// other.
    pub fn build_vertical(&self) -> (r: Result<(SpriteSheet, String), SpriteError>)
        requires
            buildable(Layout::Vertical, self.views()),
        ensures
            build_view(r) == sprite_outcome(Layout::Vertical, self.views()),
            self.images.len() == 0 ==> r == Err::<(SpriteSheet, String), SpriteError>(
                SpriteError::EmptyInput,
            ),
    {
        let layout = match layout_vertical(&self.images) {
            Ok(layout) => layout,
            Err(e) => {
                return Err(e);
            },
        };
        let sheet = match compose(layout.canvas, &layout.placements, &self.images) {
            Ok(sheet) => sheet,
            Err(e) => {
                return Err(e);
            },
        };
        let css = stylesheet(Layout::Vertical, &layout.placements);
        Ok((sheet, css))
    }

    /// Builds the sheet and the stylesheet with the images side by side.
    pub fn build_horizontal(&self) -> (r: Result<(SpriteSheet, String), SpriteError>)
        requires
            buildable(Layout::Horizontal, self.views()),
        ensures
            build_view(r) == sprite_outcome(Layout::Horizontal, self.views()),
            self.images.len() == 0 ==> r == Err::<(SpriteSheet, String), SpriteError>(
                SpriteError::EmptyInput,
            ),
    {
        let layout = match layout_horizontal(&self.images) {
            Ok(layout) => layout,
            Err(e) => {
                return Err(e);
            },
        };
        let sheet = match compose(layout.canvas, &layout.placements, &self.images) {
            Ok(sheet) => sheet,
            Err(e) => {
                return Err(e);
            },
        };
        let css = stylesheet(Layout::Horizontal, &layout.placements);
        Ok((sheet, css))
    }

    /// The bin that the packed strategy starts with.
    pub fn estimate_bin_size(&self) -> (r: (u32, u32))
        requires
            bin_edge(self.views()) <= u32::MAX,
        ensures
            r.0 == bin_edge(self.views()),
            r.1 == r.0,
    {
        crate::estimate::estimate_bin_size(&self.images)
    }

    /// Builds the sheet and the stylesheet with the images packed into the
    /// estimated bin. The images are drawn on a canvas of the bin's size,
    /// which is then cut to the height in use; its width stays.
    pub fn build_packed(&self) -> (r: Result<(SpriteSheet, String), SpriteError>)
        requires
            buildable(Layout::Packed, self.views()),
        ensures
            build_view(r) == sprite_outcome(Layout::Packed, self.views()),
            self.images.len() == 0 ==> r == Err::<(SpriteSheet, String), SpriteError>(
                SpriteError::EmptyInput,
            ),
    {
        let layout = match layout_packed(&self.images) {
            Ok(layout) => layout,
            Err(e) => {
                return Err(e);
            },
        };
        let edge: u32 = layout.canvas.width;
        let used: u32 = layout.canvas.height;
        let bin = CanvasSize { width: edge, height: edge };
        let drawn = match compose(bin, &layout.placements, &self.images) {
            Ok(sheet) => sheet,
            Err(e) => {
                return Err(e);
            },
        };
        proof {
            lemma_composited_len(
                edge as int,
                edge as int,
                layout@.placements,
                self.views(),
                self.images.len() as int,
            );
            lemma_composited_rows(
                edge as int,
                edge as int,
                used as int,
                layout@.placements,
                self.views(),
                self.images.len() as int,
            );
        }
        let pixels = crop(drawn.pixels, edge, edge, 0, 0, edge, used);
        let css = stylesheet(Layout::Packed, &layout.placements);
        Ok((SpriteSheet { width: edge, height: used, pixels }, css))
    }
}

/// Whether the bytes of a canvas of four-byte pixels do not exceed the
/// largest allocation.
pub fn canvas_fits(width: u32, height: u32) -> (r: bool)
    ensures
        r == (4 * width * height <= isize::MAX),
{
    assert(4 * width * height <= 4 * 0xffff_ffff * 0xffff_ffff) by (nonlinear_arith)
        requires
            0 <= width <= 0xffff_ffff,
            0 <= height <= 0xffff_ffff,
    ;
    assert(0 <= 4 * width * height) by (nonlinear_arith)
        requires
            0 <= width,
            0 <= height,
    ;
    let bytes: u128 = 4u128 * (width as u128) * (height as u128);
    bytes <= isize::MAX as u128
}

} // verus!
