//! Composing a texture from the images of its sections.

use crate::layout_laws::{cells_tile_the_rectangle, hits, inside};
use crate::sections::{CompositionCell, Layout, PixelRect};
use vstd::prelude::*;

verus! {

/// An image of eight-bit red, green, blue and alpha samples, row by row.
pub struct Raster {
    pub width: u32,
    pub height: u32,
    pub data: Vec<u8>,
}

/// Whether the samples of an image of the given size, and those of one of its rows, can be counted.
pub open spec fn countable(width: u32, height: u32) -> bool {
    4 * (width as int) <= isize::MAX && 4 * (width as int * height as int) <= isize::MAX
}

impl Raster {
    /// Whether there are samples for each pixel, and no others.
    pub open spec fn whole(self) -> bool {
        &&& countable(self.width, self.height)
        &&& self.data@.len() == 4 * (self.width as int * self.height as int)
    }

    /// Whether a position lies in the image.
    pub open spec fn has(self, x: int, y: int) -> bool {
        0 <= x < self.width && 0 <= y < self.height
    }

    /// The samples of a pixel.
    pub open spec fn pixel(self, x: int, y: int) -> Seq<u8> {
        let start = 4 * (y * self.width as int + x);
        self.data@.subrange(start, start + 4)
    }
}

/// The samples of the canvas: transparent where the alpha channel is kept, else opaque white.
pub open spec fn background(keep_alpha: bool) -> Seq<u8> {
    if keep_alpha {
        seq![0u8, 0u8, 0u8, 0u8]
    } else {
        seq![255u8, 255u8, 255u8, 255u8]
    }
}

/// `ImageBuffer::from_pixel` makes an image of the given size in which each pixel is the given
/// one. It panics where there are more samples than a vector can hold, or where those of a row
/// cannot be counted.
#[verifier::external_body]
fn filled(width: u32, height: u32, sample: u8) -> (r: Raster)
    requires
        countable(width, height),
    ensures
        r.width == width,
        r.height == height,
        r.whole(),
        forall|x: int, y: int|
            r.has(x, y) ==> #[trigger] r.pixel(x, y) == seq![sample, sample, sample, sample],
{
    let canvas = image::RgbaImage::from_pixel(width, height, image::Rgba([sample; 4]));
    Raster { width, height, data: canvas.into_raw() }
}

/// `imageops::replace` puts the pixels of one image over those of another, from the given
/// position on, as far as they lie inside; the other pixels stay.
#[verifier::external_body]
fn replaced(bottom: Raster, top: &Raster, x: u32, y: u32) -> (r: Raster)
    requires
        bottom.whole(),
        top.whole(),
    ensures
        r.width == bottom.width,
        r.height == bottom.height,
        r.whole(),
        forall|px: int, py: int|
            r.has(px, py) ==> #[trigger] r.pixel(px, py) == if top.has(px - x, py - y) {
                top.pixel(px - x, py - y)
            } else {
                bottom.pixel(px, py)
            },
{
    let (width, height) = (bottom.width, bottom.height);
    let mut canvas = image::RgbaImage::from_raw(width, height, bottom.data).unwrap();
    let patch = image::RgbaImage::from_raw(top.width, top.height, top.data.clone()).unwrap();
    image::imageops::replace(&mut canvas, &patch, i64::from(x), i64::from(y));
    Raster { width, height, data: canvas.into_raw() }
}

/// Whether each cell has an image of its own size.
pub open spec fn fits_cells(cells: Seq<CompositionCell>, fitted: Seq<Raster>) -> bool {
    &&& cells.len() == fitted.len()
    &&& forall|i: int|
        0 <= i < fitted.len() ==> (#[trigger] fitted[i]).whole() && fitted[i].width
            == cells[i].rect.width && fitted[i].height == cells[i].rect.height
}

/// The pixel at a position once the first `n` cells are in place: that of the last of them that
/// holds the position, or the background.
pub open spec fn composed_pixel(
    cells: Seq<CompositionCell>,
    fitted: Seq<Raster>,
    n: int,
    keep_alpha: bool,
    x: int,
    y: int,
) -> Seq<u8>
    decreases n,
{
    if n <= 0 {
        background(keep_alpha)
    } else if inside(cells[n - 1].rect, x, y) {
        fitted[n - 1].pixel(x - cells[n - 1].rect.x, y - cells[n - 1].rect.y)
    } else {
        composed_pixel(cells, fitted, n - 1, keep_alpha, x, y)
    }
}

/// The image of a texture: on the background, the image of each cell in its place.
pub fn compose_final_image(
    target_width: u32,
    target_height: u32,
    keep_alpha: bool,
    cells: &Vec<CompositionCell>,
    fitted: &Vec<Raster>,
) -> (r: Raster)
    requires
        countable(target_width, target_height),
        fits_cells(cells@, fitted@),
    ensures
        r.width == target_width,
        r.height == target_height,
        r.whole(),
        forall|x: int, y: int|
            r.has(x, y) ==> #[trigger] r.pixel(x, y) == composed_pixel(
                cells@,
                fitted@,
                cells@.len() as int,
                keep_alpha,
                x,
                y,
            ),
{
    let mut canvas = filled(
        target_width,
        target_height,
        if keep_alpha {
            0
        } else {
            255
        },
    );
    let mut i: usize = 0;
    while i < cells.len()
        invariant
            fits_cells(cells@, fitted@),
            0 <= i <= cells@.len(),
            canvas.width == target_width,
            canvas.height == target_height,
            canvas.whole(),
            forall|x: int, y: int|
                canvas.has(x, y) ==> #[trigger] canvas.pixel(x, y) == composed_pixel(
                    cells@,
                    fitted@,
                    i as int,
                    keep_alpha,
                    x,
                    y,
                ),
        decreases cells@.len() - i,
    {
        let ghost before = canvas;
        let rect = cells[i].rect;
        proof {
            assert(fitted@[i as int].whole());
        }
        canvas = replaced(canvas, &fitted[i], rect.x, rect.y);
        proof {
            assert forall|x: int, y: int| canvas.has(x, y) implies #[trigger] canvas.pixel(x, y)
                == composed_pixel(cells@, fitted@, i + 1, keep_alpha, x, y) by {
                assert(before.has(x, y));
                assert(before.pixel(x, y) == composed_pixel(
                    cells@,
                    fitted@,
                    i as int,
                    keep_alpha,
                    x,
                    y,
                ));
            }
        }
        i += 1;
    }
    canvas
}

proof fn lemma_no_hit(cells: Seq<CompositionCell>, n: int, x: int, y: int)
    requires
        0 <= n <= cells.len(),
        hits(cells.take(n), x, y) == 0,
    ensures
        forall|i: int| 0 <= i < n ==> !inside((#[trigger] cells[i]).rect, x, y),
    decreases n,
{
    if n > 0 {
        assert(cells.take(n).drop_last() =~= cells.take(n - 1));
        assert(cells.take(n).last() == cells[n - 1]);
        lemma_no_hit(cells, n - 1, x, y);
    }
}

proof fn lemma_composed(
    cells: Seq<CompositionCell>,
    fitted: Seq<Raster>,
    n: int,
    keep_alpha: bool,
    x: int,
    y: int,
    i: int,
)
    requires
        0 <= i < n <= cells.len(),
        hits(cells.take(n), x, y) == 1,
        inside(cells[i].rect, x, y),
    ensures
        composed_pixel(cells, fitted, n, keep_alpha, x, y) == fitted[i].pixel(
            x - cells[i].rect.x,
            y - cells[i].rect.y,
        ),
    decreases n,
{
    assert(cells.take(n).drop_last() =~= cells.take(n - 1));
    assert(cells.take(n).last() == cells[n - 1]);
    if inside(cells[n - 1].rect, x, y) {
        lemma_no_hit(cells, n - 1, x, y);
    } else {
        lemma_composed(cells, fitted, n - 1, keep_alpha, x, y, i);
    }
}

/// In a texture composed from a layout in which no image is missing, each pixel is the pixel of
/// the image of the one cell that holds it: no pixel is left to the background and no image
/// covers another.
pub proof fn each_pixel_comes_from_its_cell(
    layout: Layout,
    width: u32,
    height: u32,
    keep_alpha: bool,
    fitted: Seq<Raster>,
    x: int,
    y: int,
    i: int,
)
    requires
        layout.missing() == 0,
        layout.inhabited(),
        0 <= x < width,
        0 <= y < height,
        ({
            let cells = layout.cells(PixelRect { x: 0, y: 0, width, height }, keep_alpha);
            &&& fits_cells(cells, fitted)
            &&& 0 <= i < cells.len()
            &&& inside(cells[i].rect, x, y)
        }),
    ensures
        ({
            let cells = layout.cells(PixelRect { x: 0, y: 0, width, height }, keep_alpha);
            composed_pixel(cells, fitted, cells.len() as int, keep_alpha, x, y) == fitted[i].pixel(
                x - cells[i].rect.x,
                y - cells[i].rect.y,
            )
        }),
{
    let rect = PixelRect { x: 0, y: 0, width, height };
    let cells = layout.cells(rect, keep_alpha);
    cells_tile_the_rectangle(layout, rect, keep_alpha, x, y);
    assert(cells.take(cells.len() as int) =~= cells);
    lemma_composed(cells, fitted, cells.len() as int, keep_alpha, x, y, i);
}

/// How much is cut off at the beginning of an extent, so that the same is lost at both ends.
pub open spec fn cut(scaled: u32, target: u32) -> int {
    if scaled < target {
        0
    } else {
        (scaled - target) / 2
    }
}

fn crop_offset(scaled: u32, target: u32) -> (r: u32)
    ensures
        r == cut(scaled, target),
{
    if scaled < target {
        0
    } else {
        (scaled - target) / 2
    }
}

/// `imageops::crop_imm` takes the part of an image with the given position and size, and
/// `SubImage::to_image` copies its pixels.
#[verifier::external_body]
fn cropped(source: &Raster, x: u32, y: u32, width: u32, height: u32) -> (r: Raster)
    requires
        source.whole(),
        x + width <= source.width,
        y + height <= source.height,
    ensures
        r.width == width,
        r.height == height,
        r.whole(),
        forall|px: int, py: int|
            r.has(px, py) ==> #[trigger] r.pixel(px, py) == source.pixel(px + x, py + y),
{
    let whole = image::RgbaImage::from_raw(source.width, source.height, source.data.clone());
    let part = image::imageops::crop_imm(&whole.unwrap(), x, y, width, height).to_image();
    Raster { width, height, data: part.into_raw() }
}

/// The largest extent of an image that is resampled: up to it the filter places each pixel of the
/// result within a pixel of its place in the source.
pub const LARGEST_EXTENT: u32 = 0x40_0000;

/// Whether an image can be brought to a size: it has this size already, or it has no pixels, or
/// no extent is too large for the filter and the samples between its two steps can be counted.
pub open spec fn can_resize(source: Raster, width: u32, height: u32) -> bool {
    ||| width == source.width && height == source.height
    ||| source.width == 0
    ||| source.height == 0
    ||| {
        &&& source.width <= LARGEST_EXTENT
        &&& source.height <= LARGEST_EXTENT
        &&& width <= LARGEST_EXTENT
        &&& height <= LARGEST_EXTENT
        &&& 16 * (source.width as int * height as int) <= isize::MAX
    }
}

/// `imageops::resize` gives an image the given size; one that has this size already is copied.
/// The samples of an image of another size come from the Lanczos filter, which computes in floating
/// point with `f32::sin`: they may differ from one machine to another, so nothing is said of them.
/// It panics where there are more samples than a vector can hold: in the result, or in the image
/// between the two steps, which has the width of the source and the height of the result. It also
/// panics where an extent is so large that coordinates in 32-bit floating point miss the source.
#[verifier::external_body]
fn resized(source: &Raster, width: u32, height: u32) -> (r: Raster)
    requires
        source.whole(),
        countable(width, height),
        can_resize(*source, width, height),
    ensures
        r.width == width,
        r.height == height,
        r.whole(),
        width == source.width && height == source.height ==> r.data@ == source.data@,
{
    let whole = image::RgbaImage::from_raw(source.width, source.height, source.data.clone());
    let filter = image::imageops::FilterType::Lanczos3;
    let scaled = image::imageops::resize(&whole.unwrap(), width, height, filter);
    Raster { width, height, data: scaled.into_raw() }
}

/// The middle of an image that covers a target.
pub fn cut_to_target(scaled: &Raster, width: u32, height: u32) -> (r: Raster)
    requires
        scaled.whole(),
        width <= scaled.width,
        height <= scaled.height,
    ensures
        r.width == width,
        r.height == height,
        r.whole(),
        forall|x: int, y: int|
            r.has(x, y) ==> #[trigger] r.pixel(x, y) == scaled.pixel(
                x + cut(scaled.width, width),
                y + cut(scaled.height, height),
            ),
{
    let x: u32 = crop_offset(scaled.width, width);
    let y: u32 = crop_offset(scaled.height, height);
    cropped(scaled, x, y, width, height)
}

/// The image of a cell: the source, scaled to a size that covers the cell, and cut to the cell.
pub fn prepare_cell_image(
    source: &Raster,
    scaled_width: u32,
    scaled_height: u32,
    target_width: u32,
    target_height: u32,
) -> (r: Raster)
    requires
        source.whole(),
        target_width <= scaled_width,
        target_height <= scaled_height,
        countable(scaled_width, scaled_height),
        can_resize(*source, scaled_width, scaled_height),
    ensures
        r.width == target_width,
        r.height == target_height,
        r.whole(),
        scaled_width == source.width && scaled_height == source.height ==> forall|x: int, y: int|
            r.has(x, y) ==> #[trigger] r.pixel(x, y) == source.pixel(
                x + cut(scaled_width, target_width),
                y + cut(scaled_height, target_height),
            ),
{
    let scaled = resized(source, scaled_width, scaled_height);
    let cell = cut_to_target(&scaled, target_width, target_height);
    proof {
        if scaled_width == source.width && scaled_height == source.height {
            assert forall|x: int, y: int| cell.has(x, y) implies #[trigger] cell.pixel(x, y)
                == source.pixel(
                x + cut(scaled_width, target_width),
                y + cut(scaled_height, target_height),
            ) by {
                assert(scaled.pixel(
                    x + cut(scaled_width, target_width),
                    y + cut(scaled_height, target_height),
                ) == source.pixel(
                    x + cut(scaled_width, target_width),
                    y + cut(scaled_height, target_height),
                ));
            }
        }
    }
    cell
}

/// What is cut off before the kept part and what is cut off behind it differ by one pixel at most,
/// and the larger part is cut off behind. Nothing is cut off an extent that is no larger.
pub proof fn the_middle_is_kept(scaled: u32, target: u32)
    ensures
        target <= scaled ==> 0 <= (scaled - target - cut(scaled, target)) - cut(scaled, target) <= 1,
        scaled <= target ==> cut(scaled, target) == 0,
{
}

proof fn lemma_last_layer(
    cells: Seq<CompositionCell>,
    fitted: Seq<Raster>,
    n: int,
    keep_alpha: bool,
    x: int,
    y: int,
    i: int,
)
    requires
        0 <= i < n <= cells.len(),
        inside(cells[i].rect, x, y),
        forall|j: int| i < j < n ==> !inside((#[trigger] cells[j]).rect, x, y),
    ensures
        composed_pixel(cells, fitted, n, keep_alpha, x, y) == fitted[i].pixel(
            x - cells[i].rect.x,
            y - cells[i].rect.y,
        ),
    decreases n,
{
    if i < n - 1 {
        lemma_last_layer(cells, fitted, n - 1, keep_alpha, x, y, i);
    }
}

/// Where cells lie over each other the last one is seen.
pub proof fn the_last_cell_is_seen(
    cells: Seq<CompositionCell>,
    fitted: Seq<Raster>,
    keep_alpha: bool,
    x: int,
    y: int,
    i: int,
)
    requires
        0 <= i < cells.len(),
        inside(cells[i].rect, x, y),
        forall|j: int| i < j < cells.len() ==> !inside((#[trigger] cells[j]).rect, x, y),
    ensures
        composed_pixel(cells, fitted, cells.len() as int, keep_alpha, x, y) == fitted[i].pixel(
            x - cells[i].rect.x,
            y - cells[i].rect.y,
        ),
{
    lemma_last_layer(cells, fitted, cells.len() as int, keep_alpha, x, y, i);
}

proof fn lemma_bare(
    cells: Seq<CompositionCell>,
    fitted: Seq<Raster>,
    n: int,
    keep_alpha: bool,
    x: int,
    y: int,
)
    requires
        0 <= n <= cells.len(),
        forall|j: int| 0 <= j < n ==> !inside((#[trigger] cells[j]).rect, x, y),
    ensures
        composed_pixel(cells, fitted, n, keep_alpha, x, y) == background(keep_alpha),
    decreases n,
{
    if n > 0 {
        lemma_bare(cells, fitted, n - 1, keep_alpha, x, y);
    }
}

/// Where no cell lies each of the four samples is zero if the alpha channel is kept, so that nothing
/// is seen, and the largest if it is not, which is opaque white.
pub proof fn an_empty_place_is_clear_or_white(
    cells: Seq<CompositionCell>,
    fitted: Seq<Raster>,
    keep_alpha: bool,
    x: int,
    y: int,
    sample: int,
)
    requires
        forall|j: int| 0 <= j < cells.len() ==> !inside((#[trigger] cells[j]).rect, x, y),
        0 <= sample < 4,
    ensures
        ({
            let seen = composed_pixel(cells, fitted, cells.len() as int, keep_alpha, x, y);
            &&& seen.len() == 4
            &&& keep_alpha ==> seen[sample] == 0
            &&& !keep_alpha ==> seen[sample] == u8::MAX
        }),
{
    lemma_bare(cells, fitted, cells.len() as int, keep_alpha, x, y);
}

/// Images of up to 8192 pixels in width and height can be brought to any such size.
pub proof fn common_images_can_be_resized(source: Raster, width: u32, height: u32)
    requires
        source.width <= 8192,
        source.height <= 8192,
        width <= 8192,
        height <= 8192,
    ensures
        can_resize(source, width, height),
{
    assert(source.width as int * height as int <= 8192 * 8192) by (nonlinear_arith)
        requires
            0 <= source.width <= 8192,
            0 <= height <= 8192,
    ;
}

}
