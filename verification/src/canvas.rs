//! The canvas compositor: draws every image at its placement on a blank
//! canvas. The pixel buffers are those of `image`.

use vstd::prelude::*;
use crate::error::SpriteError;
use crate::geometry::{CanvasSize, Placement, PlacementRecord};
use crate::layout::placement_views;
use crate::source::{image_views, ImageView, SourceImage};
use image::{GenericImage, ImageBuffer, Rgba, RgbaImage};

verus! {

/// The finished sheet: its size and its pixels, four bytes (red, green, blue,
/// alpha) per pixel, row after row.
#[derive(Debug, Clone, PartialEq, Eq)]
pub struct SpriteSheet {
    pub width: u32,
    pub height: u32,
    pub pixels: Vec<u8>,
}

/// Where channel `c` of the pixel at column `x`, row `y` stands in the bytes
/// of an image of the given width.
pub open spec fn byte_at(width: int, x: int, y: int, c: int) -> int {
    (y * width + x) * 4 + c
}

/// The row of the pixel that byte `k` belongs to.
pub open spec fn row_of(width: int, k: int) -> int {
    k / (4 * width)
}

/// The column of the pixel that byte `k` belongs to.
pub open spec fn column_of(width: int, k: int) -> int {
    (k % (4 * width)) / 4
}

/// The bytes of a canvas after `source` was copied onto it with its top left
/// corner at column `x`, row `y`: a byte under the source takes the source's
/// value, every other byte keeps its own.
pub open spec fn blitted(
    canvas: Seq<u8>,
    canvas_width: int,
    source: Seq<u8>,
    source_width: int,
    source_height: int,
    x: int,
    y: int,
) -> Seq<u8> {
    Seq::new(
        canvas.len(),
        |k: int|
            {
                let row = row_of(canvas_width, k);
                let column = column_of(canvas_width, k);
                if x <= column < x + source_width && y <= row < y + source_height {
                    source[byte_at(source_width, column - x, row - y, k % 4)]
                } else {
                    canvas[k]
                }
            },
    )
}

/// The bytes of the part of a canvas that is `width` wide and `height` high
/// and has its top left corner at column `x`, row `y`.
pub open spec fn cropped(
    canvas: Seq<u8>,
    canvas_width: int,
    x: int,
    y: int,
    width: int,
    height: int,
) -> Seq<u8> {
    Seq::new(
        (4 * width * height) as nat,
        |k: int| canvas[byte_at(canvas_width, x + column_of(width, k), y + row_of(width, k), k % 4)],
    )
}

/// `image::ImageBuffer::new` for four-byte pixels, handed back as its bytes:
/// `4 * width * height` of them, all zero.
#[verifier::external_body]
pub(crate) fn blank_canvas(width: u32, height: u32) -> (canvas: Vec<u8>)
    requires
        4 * width * height <= isize::MAX,
    ensures
        canvas@.len() == 4 * width * height,
        forall|k: int| 0 <= k < canvas@.len() ==> canvas@[k] == 0,
{
    RgbaImage::new(width, height).into_raw()
}

/// `image::GenericImage::copy_from` on two buffers of four-byte pixels. The
/// copy is made exactly when the source, put with its top left corner at
/// column `x`, row `y`, does not reach beyond the canvas; it overwrites the
/// bytes under the source and no others. Otherwise the canvas stays as it
/// was.
#[verifier::external_body]
pub(crate) fn blit(
    canvas: &mut Vec<u8>,
    canvas_width: u32,
    canvas_height: u32,
    source: &Vec<u8>,
    source_width: u32,
    source_height: u32,
    x: u32,
    y: u32,
) -> (copied: bool)
    requires
        old(canvas)@.len() == 4 * canvas_width * canvas_height,
        source@.len() == 4 * source_width * source_height,
    ensures
        copied == (x + source_width <= canvas_width && y + source_height <= canvas_height),
        copied ==> final(canvas)@ == blitted(
            old(canvas)@,
            canvas_width as int,
            source@,
            source_width as int,
            source_height as int,
            x as int,
            y as int,
        ),
        !copied ==> final(canvas)@ == old(canvas)@,
{
    let mut sheet = RgbaImage::from_raw(canvas_width, canvas_height, std::mem::take(canvas)).unwrap();
    let tile: ImageBuffer<Rgba<u8>, &[u8]> =
        ImageBuffer::from_raw(source_width, source_height, source.as_slice()).unwrap();
    let copied = sheet.copy_from(&tile, x, y).is_ok();
    *canvas = sheet.into_raw();
    copied
}

/// `image::imageops::crop` followed by `SubImage::to_image`, on a buffer of
/// four-byte pixels and for a part that lies on the canvas: the bytes of that
/// part, row after row.
#[verifier::external_body]
pub(crate) fn crop(
    canvas: Vec<u8>,
    canvas_width: u32,
    canvas_height: u32,
    x: u32,
    y: u32,
    width: u32,
    height: u32,
) -> (part: Vec<u8>)
    requires
        canvas@.len() == 4 * canvas_width * canvas_height,
        x + width <= canvas_width,
        y + height <= canvas_height,
    ensures
        part@ == cropped(
            canvas@,
            canvas_width as int,
            x as int,
            y as int,
            width as int,
            height as int,
        ),
{
    let mut sheet = RgbaImage::from_raw(canvas_width, canvas_height, canvas).unwrap();
    image::imageops::crop(&mut sheet, x, y, width, height).to_image().into_raw()
}

/// There is one placement per image, and each has the size of its image.
pub open spec fn sized_like(placements: Seq<Placement>, images: Seq<ImageView>) -> bool {
    &&& placements.len() == images.len()
    &&& forall|i: int|
        0 <= i < images.len() ==> (#[trigger] placements[i]).width == images[i].width
            && placements[i].height == images[i].height
}

/// Every placement lies on a canvas of the given size.
pub open spec fn on_canvas(placements: Seq<Placement>, canvas_width: int, canvas_height: int) -> bool {
    forall|i: int|
        0 <= i < placements.len() ==> (#[trigger] placements[i]).region().within(
            canvas_width,
            canvas_height,
        )
}

/// The bytes of a canvas of the given size after the first `n` images were
/// copied onto a blank canvas, each at its placement, in order.
pub open spec fn composited(
    canvas_width: int,
    canvas_height: int,
    placements: Seq<Placement>,
    images: Seq<ImageView>,
    n: int,
) -> Seq<u8>
    decreases n,
{
    if n <= 0 {
        Seq::new((4 * canvas_width * canvas_height) as nat, |k: int| 0u8)
    } else {
        blitted(
            composited(canvas_width, canvas_height, placements, images, n - 1),
            canvas_width,
            images[n - 1].pixels,
            images[n - 1].width,
            images[n - 1].height,
            placements[n - 1].x,
            placements[n - 1].y,
        )
    }
}

/// Compositing keeps the number of bytes.
pub proof fn lemma_composited_len(
    canvas_width: int,
    canvas_height: int,
    placements: Seq<Placement>,
    images: Seq<ImageView>,
    n: int,
)
    requires
        0 <= 4 * canvas_width * canvas_height,
    ensures
        composited(canvas_width, canvas_height, placements, images, n).len() == 4 * canvas_width
            * canvas_height,
    decreases n,
{
    if n > 0 {
        lemma_composited_len(canvas_width, canvas_height, placements, images, n - 1);
    }
}

/// A byte's place gives back the pixel and the channel it was computed from.
pub proof fn lemma_byte_at_parts(width: int, x: int, y: int, c: int)
    requires
        0 <= x < width,
        0 <= y,
        0 <= c < 4,
    ensures
        row_of(width, byte_at(width, x, y, c)) == y,
        column_of(width, byte_at(width, x, y, c)) == x,
        byte_at(width, x, y, c) % 4 == c,
        0 <= byte_at(width, x, y, c) < 4 * width * (y + 1),
{
    let k = byte_at(width, x, y, c);
    assert(k == y * (4 * width) + (4 * x + c)) by (nonlinear_arith)
        requires
            k == (y * width + x) * 4 + c,
    ;
    assert(k == 4 * (y * width + x) + c);
    vstd::arithmetic::div_mod::lemma_fundamental_div_mod_converse(k, 4 * width, y, 4 * x + c);
    vstd::arithmetic::div_mod::lemma_fundamental_div_mod_converse(4 * x + c, 4, x, c);
    vstd::arithmetic::div_mod::lemma_fundamental_div_mod_converse(k, 4, y * width + x, c);
    assert(4 * width * (y + 1) == y * (4 * width) + 4 * width) by (nonlinear_arith);
    assert(0 <= y * (4 * width)) by (nonlinear_arith)
        requires
            0 <= y,
            0 < width,
    ;
}

/// A pixel's bytes lie in the bytes of an image that the pixel lies on.
pub proof fn lemma_byte_at_in_image(width: int, height: int, x: int, y: int, c: int)
    requires
        0 <= x < width,
        0 <= y < height,
        0 <= c < 4,
    ensures
        0 <= byte_at(width, x, y, c) < 4 * width * height,
{
    lemma_byte_at_parts(width, x, y, c);
    assert(4 * width * (y + 1) <= 4 * width * height) by (nonlinear_arith)
        requires
            0 < width,
            y + 1 <= height,
    ;
}

/// After the first `n` images were copied, a pixel that the placement of one
/// of them covers shows that image, and a pixel that none covers is blank,
/// provided that these placements lie on the canvas and no two of them
/// overlap.
pub proof fn lemma_composited_pixel(
    canvas_width: int,
    canvas_height: int,
    placements: Seq<Placement>,
    images: Seq<ImageView>,
    n: int,
    px: int,
    py: int,
    c: int,
)
    requires
        0 <= n <= placements.len(),
        placements.len() == images.len(),
        forall|i: int|
            0 <= i < n ==> {
                &&& (#[trigger] placements[i]).region().within(canvas_width, canvas_height)
                &&& placements[i].width == images[i].width
                &&& placements[i].height == images[i].height
            },
        forall|i: int, j: int|
            0 <= i < j < n ==> (#[trigger] placements[i]).region().disjoint(
                (#[trigger] placements[j]).region(),
            ),
        0 <= px < canvas_width,
        0 <= py < canvas_height,
        0 <= c < 4,
    ensures
        forall|i: int|
            0 <= i < n && (#[trigger] placements[i]).region().covers(px, py) ==> composited(
                canvas_width,
                canvas_height,
                placements,
                images,
                n,
            )[byte_at(canvas_width, px, py, c)] == images[i].pixels[byte_at(
                images[i].width,
                px - placements[i].x,
                py - placements[i].y,
                c,
            )],
        (forall|i: int| 0 <= i < n ==> !(#[trigger] placements[i]).region().covers(px, py))
            ==> composited(canvas_width, canvas_height, placements, images, n)[byte_at(
            canvas_width,
            px,
            py,
            c,
        )] == 0,
    decreases n,
{
    let k = byte_at(canvas_width, px, py, c);
    lemma_byte_at_parts(canvas_width, px, py, c);
    lemma_byte_at_in_image(canvas_width, canvas_height, px, py, c);
    assert(0 <= 4 * canvas_width * canvas_height);
    lemma_composited_len(canvas_width, canvas_height, placements, images, n);
    if n > 0 {
        lemma_composited_len(canvas_width, canvas_height, placements, images, n - 1);
        lemma_composited_pixel(canvas_width, canvas_height, placements, images, n - 1, px, py, c);
        let last = placements[n - 1];
        assert forall|i: int| 0 <= i < n && (#[trigger] placements[i]).region().covers(
            px,
            py,
        ) implies composited(canvas_width, canvas_height, placements, images, n)[k]
            == images[i].pixels[byte_at(
            images[i].width,
            px - placements[i].x,
            py - placements[i].y,
            c,
        )] by {
            if i < n - 1 {
                assert(placements[i].region().disjoint(last.region()));
                assert(!last.region().covers(px, py));
            }
        }
    }
}

/// Every byte is the byte of the pixel and channel that it belongs to.
pub proof fn lemma_byte_at_own_place(width: int, k: int)
    requires
        0 < width,
        0 <= k,
    ensures
        k == byte_at(width, column_of(width, k), row_of(width, k), k % 4),
        0 <= column_of(width, k) < width,
        0 <= row_of(width, k),
{
    let m = k % (4 * width);
    vstd::arithmetic::div_mod::lemma_fundamental_div_mod(k, 4 * width);
    vstd::arithmetic::div_mod::lemma_fundamental_div_mod(m, 4);
    vstd::arithmetic::div_mod::lemma_mod_mod(k, 4, width);
    vstd::arithmetic::div_mod::lemma_mod_bound(k, 4 * width);
    vstd::arithmetic::div_mod::lemma_div_pos_is_pos(k, 4 * width);
    assert((row_of(width, k) * width + column_of(width, k)) * 4 + k % 4 == (4 * width) * row_of(
        width,
        k,
    ) + (4 * (m / 4) + m % 4)) by (nonlinear_arith)
        requires
            column_of(width, k) == m / 4,
            k % 4 == m % 4,
    ;
}

/// Cutting rows off the bottom of a canvas leaves the same bytes as drawing
/// on the lower canvas from the start.
pub proof fn lemma_composited_rows(
    canvas_width: int,
    canvas_height: int,
    kept_height: int,
    placements: Seq<Placement>,
    images: Seq<ImageView>,
    n: int,
)
    requires
        0 < canvas_width,
        0 <= kept_height <= canvas_height,
    ensures
        cropped(
            composited(canvas_width, canvas_height, placements, images, n),
            canvas_width,
            0,
            0,
            canvas_width,
            kept_height,
        ) == composited(canvas_width, kept_height, placements, images, n),
    decreases n,
{
    let high = composited(canvas_width, canvas_height, placements, images, n);
    let low = composited(canvas_width, kept_height, placements, images, n);
    let cut = cropped(high, canvas_width, 0, 0, canvas_width, kept_height);
    assert(0 <= 4 * canvas_width * kept_height <= 4 * canvas_width * canvas_height)
        by (nonlinear_arith)
        requires
            0 < canvas_width,
            0 <= kept_height <= canvas_height,
    ;
    lemma_composited_len(canvas_width, canvas_height, placements, images, n);
    lemma_composited_len(canvas_width, kept_height, placements, images, n);
    assert forall|k: int| 0 <= k < cut.len() implies cut[k] == low[k] by {
        lemma_byte_at_own_place(canvas_width, k);
        assert(cut[k] == high[k]);
        if n > 0 {
            lemma_composited_rows(canvas_width, canvas_height, kept_height, placements, images, n - 1);
            lemma_composited_len(canvas_width, canvas_height, placements, images, n - 1);
            lemma_composited_len(canvas_width, kept_height, placements, images, n - 1);
            let high_before = composited(canvas_width, canvas_height, placements, images, n - 1);
            let low_before = composited(canvas_width, kept_height, placements, images, n - 1);
            let cut_before = cropped(high_before, canvas_width, 0, 0, canvas_width, kept_height);
            assert(cut_before[k] == high_before[k]);
            assert(cut_before[k] == low_before[k]);
        }
    }
    assert(cut =~= low);
}

/// Draws the sheet: a blank canvas of the given size, onto which each image
/// is copied at its placement, in order, replacing what was there. Fails with
/// `CopyOutOfBounds` exactly when a placement reaches beyond the canvas.
pub fn compose(
    canvas_size: CanvasSize,
    placements: &Vec<PlacementRecord>,
    images: &Vec<SourceImage>,
) -> (r: Result<SpriteSheet, SpriteError>)
    requires
        sized_like(placement_views(placements@), image_views(images@)),
        4 * canvas_size.width * canvas_size.height <= isize::MAX,
    ensures
        on_canvas(placement_views(placements@), canvas_size.width as int, canvas_size.height as int)
            ==> (r matches Ok(sheet) && sheet.width == canvas_size.width && sheet.height
            == canvas_size.height && sheet.pixels@ == composited(
            canvas_size.width as int,
            canvas_size.height as int,
            placement_views(placements@),
            image_views(images@),
            images.len() as int,
        )),
        !on_canvas(
            placement_views(placements@),
            canvas_size.width as int,
            canvas_size.height as int,
        ) ==> r == Err::<SpriteSheet, SpriteError>(SpriteError::CopyOutOfBounds),
{
    let ghost views = image_views(images@);
    let ghost places = placement_views(placements@);
    let width: u32 = canvas_size.width;
    let height: u32 = canvas_size.height;
    let mut canvas = blank_canvas(width, height);
    assert(canvas@ =~= composited(width as int, height as int, places, views, 0));
    let mut i: usize = 0;
    while i < images.len()
        invariant
            i <= images.len(),
            views == image_views(images@),
            places == placement_views(placements@),
            sized_like(places, views),
            width == canvas_size.width,
            height == canvas_size.height,
            canvas@.len() == 4 * width * height,
            canvas@ == composited(width as int, height as int, places, views, i as int),
            forall|j: int|
                0 <= j < i ==> (#[trigger] places[j]).region().within(width as int, height as int),
        decreases images.len() - i,
    {
        let record = &placements[i];
        let source = images[i].pixels();
        proof {
            assert(views[i as int] == images@[i as int]@);
            assert(places[i as int] == placements@[i as int]@);
            assert(places[i as int].width == views[i as int].width);
            assert(places[i as int].height == views[i as int].height);
        }
        let copied = blit(
            &mut canvas,
            width,
            height,
            source,
            record.width,
            record.height,
            record.offset_x,
            record.offset_y,
        );
        if !copied {
            proof {
                assert(!places[i as int].region().within(width as int, height as int));
            }
            return Err(SpriteError::CopyOutOfBounds);
        }
        i = i + 1;
    }
    Ok(SpriteSheet { width, height, pixels: canvas })
}

} // verus!
