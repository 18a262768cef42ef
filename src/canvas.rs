use vstd::prelude::*;

verus! {

/// `image::Rgba`: a pixel is its public array of four channels (red, green,
/// blue, alpha), which verified code reads and builds directly.
#[verifier::external_type_specification]
#[verifier::reject_recursive_types(T)]
pub struct ExRgba<T>(image::Rgba<T>);

pub type Color = image::Rgba<u8>;

/// Side length, in pixels, of the square icon every render produces.
pub const ICON_SIZE: u32 = 144;

/// An RGBA8 raster held in a single row-major buffer, indexed by `y * width + x`.
///
/// The pixels are stored in an `image::RgbaImage`, so the finished canvas can be
/// handed to the `image` crate's encoders and text drawing as it is.
#[verifier::external_body]
pub struct Canvas {
    pub img: image::RgbaImage,
}

/// The pixels of a canvas in row-major order.
pub uninterp spec fn canvas_pixels(c: Canvas) -> Seq<Color>;

/// The number of pixels in one row of a canvas.
pub uninterp spec fn canvas_width(c: Canvas) -> nat;

/// `(x, y)` lies on the icon.
pub open spec fn in_canvas(x: int, y: int) -> bool {
    0 <= x < ICON_SIZE && 0 <= y < ICON_SIZE
}

/// Position of pixel `(x, y)` in the row-major buffer.
pub open spec fn idx(x: int, y: int) -> int {
    y * ICON_SIZE + x
}

/// The canvas has the fixed icon dimensions.
pub open spec fn is_icon(c: Canvas) -> bool {
    &&& canvas_width(c) == ICON_SIZE
    &&& canvas_pixels(c).len() == ICON_SIZE * ICON_SIZE
}

/// The pixel at `(x, y)` of an icon-sized pixel sequence.
pub open spec fn px_at(p: Seq<Color>, x: int, y: int) -> Color {
    p[idx(x, y)]
}

/// The color with these channels.
pub open spec fn rgba(r: u8, g: u8, b: u8, a: u8) -> Color {
    image::Rgba([r, g, b, a])
}

/// Relies on `ImageBuffer::from_pixel`: a `width` x `height` image, every pixel
/// `px`; it panics when the buffer's length overflows `usize`, which `requires`
/// leaves out.
#[verifier::external_body]
fn image_from_pixel(width: u32, height: u32, px: Color) -> (r: Canvas)
    requires
        width * height * 4 <= usize::MAX,
    ensures
        canvas_width(r) == width,
        canvas_pixels(r) == Seq::new((width * height) as nat, |i: int| px),
{
    Canvas { img: image::RgbaImage::from_pixel(width, height, px) }
}

/// Relies on `ImageBuffer::get_pixel`: the pixel stored at `y * width + x`; it
/// panics outside `width` x `height`, which `requires` leaves out.
#[verifier::external_body]
fn image_get_pixel(c: &Canvas, x: u32, y: u32) -> (r: Color)
    requires
        x < canvas_width(*c),
        y * canvas_width(*c) + x < canvas_pixels(*c).len(),
    ensures
        r == canvas_pixels(*c)[y * canvas_width(*c) + x],
{
    *c.img.get_pixel(x, y)
}

/// Relies on `ImageBuffer::put_pixel`: replaces the pixel stored at
/// `y * width + x`; it panics outside `width` x `height`, which `requires` leaves out.
#[verifier::external_body]
fn image_put_pixel(c: &mut Canvas, x: u32, y: u32, px: Color)
    requires
        x < canvas_width(*old(c)),
        y * canvas_width(*old(c)) + x < canvas_pixels(*old(c)).len(),
    ensures
        canvas_width(*final(c)) == canvas_width(*old(c)),
        canvas_pixels(*final(c)) == canvas_pixels(*old(c)).update(
            y * canvas_width(*old(c)) + x,
            px,
        ),
{
    c.img.put_pixel(x, y, px)
}

/// Opaque black, the background of every render.
pub open spec fn background_spec() -> Color {
    rgba(0, 0, 0, 255)
}

/// `p` with the pixel at `(x, y)` replaced by `c` when `(x, y)` lies on the canvas.
pub open spec fn plot(p: Seq<Color>, x: int, y: int, c: Color) -> Seq<Color> {
    if in_canvas(x, y) {
        p.update(idx(x, y), c)
    } else {
        p
    }
}

impl Canvas {
    /// The canvas's pixels in row-major order.
    pub open spec fn pixels(self) -> Seq<Color> {
        canvas_pixels(self)
    }

    /// A fresh icon-sized canvas, every pixel opaque black.
    pub fn new_background() -> (r: Canvas)
        ensures
            is_icon(r),
            forall|x: int, y: int|
                in_canvas(x, y) ==> #[trigger] px_at(r.pixels(), x, y) == background_spec(),
    {
        let r = image_from_pixel(ICON_SIZE, ICON_SIZE, image::Rgba([0u8, 0, 0, 255]));
        assert forall|x: int, y: int| in_canvas(x, y) implies #[trigger] px_at(
            r.pixels(),
            x,
            y,
        ) == background_spec() by {
            assert(0 <= idx(x, y) < ICON_SIZE * ICON_SIZE) by (nonlinear_arith)
                requires
                    in_canvas(x, y),
            ;
        }
        r
    }

    /// The pixel at `(x, y)`.
    pub fn get(&self, x: u32, y: u32) -> (r: Color)
        requires
            is_icon(*self),
            in_canvas(x as int, y as int),
        ensures
            r == px_at(self.pixels(), x as int, y as int),
    {
        assert(0 <= idx(x as int, y as int) < ICON_SIZE * ICON_SIZE) by (nonlinear_arith)
            requires
                in_canvas(x as int, y as int),
        ;
        image_get_pixel(self, x, y)
    }

    /// Writes `c` at `(x, y)` when that position lies on the canvas, and does
    /// nothing otherwise: the one place where drawing touches the buffer.
    pub fn put(&mut self, x: i64, y: i64, c: Color)
        requires
            is_icon(*old(self)),
        ensures
            is_icon(*final(self)),
            final(self).pixels() == plot(old(self).pixels(), x as int, y as int, c),
    {
        if 0 <= x && x < ICON_SIZE as i64 && 0 <= y && y < ICON_SIZE as i64 {
            assert(0 <= idx(x as int, y as int) < ICON_SIZE * ICON_SIZE) by (nonlinear_arith)
                requires
                    in_canvas(x as int, y as int),
            ;
            image_put_pixel(self, x as u32, y as u32, c);
        }
    }
}

/// Pixel writes at different positions do not disturb each other.
pub proof fn lemma_idx_injective(x1: int, y1: int, x2: int, y2: int)
    requires
        in_canvas(x1, y1),
        in_canvas(x2, y2),
        idx(x1, y1) == idx(x2, y2),
    ensures
        x1 == x2,
        y1 == y2,
{
    assert(x1 == x2 && y1 == y2) by (nonlinear_arith)
        requires
            0 <= x1 < 144,
            0 <= x2 < 144,
            y1 * 144 + x1 == y2 * 144 + x2,
    ;
}

/// A pixel on the canvas has a position inside the buffer.
pub proof fn lemma_idx_bounds(x: int, y: int)
    requires
        in_canvas(x, y),
    ensures
        0 <= idx(x, y) < ICON_SIZE * ICON_SIZE,
{
    assert(0 <= idx(x, y) < ICON_SIZE * ICON_SIZE) by (nonlinear_arith)
        requires
            in_canvas(x, y),
    ;
}

/// The row-major sequence whose pixel at `(x, y)` is `f(x, y)`.
pub open spec fn raster(f: spec_fn(int, int) -> Color) -> Seq<Color> {
    Seq::new((ICON_SIZE * ICON_SIZE) as nat, |i: int| f(i % (ICON_SIZE as int), i / (ICON_SIZE as int)))
}

/// An icon-sized pixel sequence is the raster of what it holds at each position.
pub proof fn lemma_raster_ext(p: Seq<Color>, f: spec_fn(int, int) -> Color)
    requires
        p.len() == ICON_SIZE * ICON_SIZE,
        forall|x: int, y: int| in_canvas(x, y) ==> #[trigger] px_at(p, x, y) == f(x, y),
    ensures
        p == raster(f),
{
    assert forall|i: int| 0 <= i < p.len() implies p[i] == raster(f)[i] by {
        let x = i % 144;
        let y = i / 144;
        vstd::arithmetic::div_mod::lemma_fundamental_div_mod(i, 144);
        assert(in_canvas(x, y));
        assert(idx(x, y) == i);
        assert(px_at(p, x, y) == f(x, y));
    }
    assert(p =~= raster(f));
}

} // verus!
