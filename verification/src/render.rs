//! The raster scan: one colour per pixel, written into an image buffer.

use vstd::arithmetic::div_mod::lemma_fundamental_div_mod_converse;
use vstd::prelude::*;
use crate::color::Color;

verus! {

/// An RGB image of fixed size, held in an `image::RgbImage`. The buffer is
/// not looked into by the proofs: they know a canvas by its size and its
/// pixels, and by what is stated below of the three calls that make, fill
/// and give up the buffer.
#[verifier::external_body]
pub struct Canvas {
    img: image::RgbImage,
}

/// The width and height of a canvas, in pixels: what
/// `image::ImageBuffer::dimensions` returns for its buffer.
pub uninterp spec fn canvas_dimensions(canvas: Canvas) -> (u32, u32);

/// The pixels of a canvas: for each `(x, y)` inside it, the channels of
/// what `image::ImageBuffer::get_pixel` returns for its buffer.
pub uninterp spec fn canvas_pixels(canvas: Canvas) -> Map<(u32, u32), Color>;

/// The coordinates inside an image of the given size.
pub open spec fn inside(width: u32, height: u32) -> Set<(u32, u32)> {
    Set::new(|p: (u32, u32)| p.0 < width && p.1 < height)
}

/// The pixels of an image of the given size that is black all over.
pub open spec fn blank(width: u32, height: u32) -> Map<(u32, u32), Color> {
    Map::new(
        |p: (u32, u32)| inside(width, height).contains(p),
        |p: (u32, u32)| Color { r: 0, g: 0, b: 0 },
    )
}

/// The bytes of an image in raster order: row after row from the top, each
/// row from the left, three bytes per pixel, red first.
pub open spec fn raster_bytes(pixels: Map<(u32, u32), Color>, width: u32, height: u32) -> Seq<u8> {
    Seq::new(
        (3 * width * height) as nat,
        |i: int|
            {
                let c = pixels[(((i / 3) % (width as int)) as u32, ((i / 3) / (width as int)) as u32)];
                if i % 3 == 0 {
                    c.r
                } else if i % 3 == 1 {
                    c.g
                } else {
                    c.b
                }
            },
    )
}

/// Where a pixel stands among the bytes: the three bytes of the pixel at
/// `(x, y)` begin at `3 (y width + x)`.
pub proof fn lemma_raster_bytes_at(
    pixels: Map<(u32, u32), Color>,
    width: u32,
    height: u32,
    x: u32,
    y: u32,
)
    requires
        x < width,
        y < height,
    ensures
        raster_bytes(pixels, width, height).len() == 3 * width * height,
        3 * (y * width + x) + 2 < raster_bytes(pixels, width, height).len(),
        raster_bytes(pixels, width, height)[3 * (y * width + x)] == pixels[(x, y)].r,
        raster_bytes(pixels, width, height)[3 * (y * width + x) + 1] == pixels[(x, y)].g,
        raster_bytes(pixels, width, height)[3 * (y * width + x) + 2] == pixels[(x, y)].b,
{
    let w = width as int;
    let q = y * w + x;
    assert(0 <= y * w && (y + 1) * w <= height * w && (y + 1) * w == y * w + w) by (nonlinear_arith)
        requires
            0 <= y < height,
            0 < w,
    ;
    assert(0 <= q < w * height);
    assert(3 * width * height == 3 * (w * height)) by (nonlinear_arith)
        requires
            w == width,
    ;
    lemma_fundamental_div_mod_converse(q, w, y as int, x as int);
    assert((3 * q) / 3 == q && (3 * q + 1) / 3 == q && (3 * q + 2) / 3 == q);
    assert((3 * q) % 3 == 0 && (3 * q + 1) % 3 == 1 && (3 * q + 2) % 3 == 2);
}

/// `image::ImageBuffer::new`: an image of the given size with every channel
/// of every pixel at zero. The call panics where the buffer's length, three
/// bytes per pixel, is more than a vector can hold.
#[verifier::external_body]
fn canvas_new(width: u32, height: u32) -> (canvas: Canvas)
    requires
        3 * width * height <= isize::MAX,
    ensures
        canvas_dimensions(canvas) == (width, height),
        canvas_pixels(canvas) == blank(width, height),
{
    Canvas { img: image::RgbImage::new(width, height) }
}

/// `image::ImageBuffer::put_pixel`: replaces the pixel at `(x, y)` and leaves
/// the others and the size as they were. The call panics outside the image.
#[verifier::external_body]
fn canvas_put(canvas: &mut Canvas, x: u32, y: u32, c: Color)
    requires
        x < canvas_dimensions(*old(canvas)).0,
        y < canvas_dimensions(*old(canvas)).1,
    ensures
        canvas_dimensions(*final(canvas)) == canvas_dimensions(*old(canvas)),
        canvas_pixels(*final(canvas)) == canvas_pixels(*old(canvas)).insert((x, y), c),
{
    canvas.img.put_pixel(x, y, image::Rgb([c.r, c.g, c.b]))
}

/// `image::ImageBuffer::into_raw`: the buffer behind the image, which holds
/// the pixels in raster order, three bytes each.
#[verifier::external_body]
fn canvas_into_raw(canvas: Canvas) -> (bytes: Vec<u8>)
    ensures
        bytes@ == raster_bytes(
            canvas_pixels(canvas),
            canvas_dimensions(canvas).0,
            canvas_dimensions(canvas).1,
        ),
{
    canvas.img.into_raw()
}

impl Canvas {
    /// Gives up the canvas for its bytes in raster order.
    pub fn into_raw(self) -> (bytes: Vec<u8>)
        ensures
            bytes@ == raster_bytes(
                canvas_pixels(self),
                canvas_dimensions(self).0,
                canvas_dimensions(self).1,
            ),
    {
        canvas_into_raw(self)
    }
}

/// Renders an image of `width` by `height` pixels. `shade` gives the colour
/// of the pixel at `(x, y)`, where `x` counts columns from the left and `y`
/// rows from the top; it is asked once for each pixel, row after row from the
/// top and each row from the left. `progress` is told the row and the number
/// of rows after each row.
pub fn render<F, G>(width: u32, height: u32, shade: F, progress: G) -> (canvas: Canvas) where
    F: Fn(u32, u32) -> Color,
    G: Fn(u32, u32) -> (),

    requires
        3 * width * height <= isize::MAX,
        forall|x: u32, y: u32| x < width && y < height ==> call_requires(shade, (x, y)),
        forall|y: u32| y < height ==> call_requires(progress, (y, height)),
    ensures
        canvas_dimensions(canvas) == (width, height),
        canvas_pixels(canvas).dom() == inside(width, height),
        forall|x: u32, y: u32|
            x < width && y < height ==> call_ensures(
                shade,
                (x, y),
                #[trigger] canvas_pixels(canvas)[(x, y)],
            ),
{
    let mut canvas = canvas_new(width, height);
    assert(canvas_pixels(canvas).dom() =~= inside(width, height));
    let mut y: u32 = 0;
    while y < height
        invariant
            0 <= y <= height,
            canvas_dimensions(canvas) == (width, height),
            canvas_pixels(canvas).dom() == inside(width, height),
            forall|x: u32, y: u32| x < width && y < height ==> call_requires(shade, (x, y)),
            forall|y: u32| y < height ==> call_requires(progress, (y, height)),
            forall|px: u32, py: u32|
                px < width && py < y ==> call_ensures(
                    shade,
                    (px, py),
                    #[trigger] canvas_pixels(canvas)[(px, py)],
                ),
        decreases height - y,
    {
        let mut x: u32 = 0;
        while x < width
            invariant
                0 <= x <= width,
                y < height,
                canvas_dimensions(canvas) == (width, height),
                canvas_pixels(canvas).dom() == inside(width, height),
                forall|x: u32, y: u32| x < width && y < height ==> call_requires(shade, (x, y)),
                forall|px: u32, py: u32|
                    px < width && py < y ==> call_ensures(
                        shade,
                        (px, py),
                        #[trigger] canvas_pixels(canvas)[(px, py)],
                    ),
                forall|px: u32|
                    px < x ==> call_ensures(
                        shade,
                        (px, y),
                        #[trigger] canvas_pixels(canvas)[(px, y)],
                    ),
            decreases width - x,
        {
            let color = shade(x, y);
            let ghost before = canvas_pixels(canvas);
            canvas_put(&mut canvas, x, y, color);
            assert(canvas_pixels(canvas).dom() =~= inside(width, height));
            x += 1;
        }
        progress(y, height);
        y += 1;
    }
    canvas
}

} // verus!
