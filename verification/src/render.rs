use vstd::prelude::*;
use image::{ImageBuffer, Rgb, RgbImage};
use crate::models::ImageSize;

verus! {

/// An RGB image of the `image` crate (`image::RgbImage`), for the caller to
/// save; its size and pixels are given by `image_dimensions` and `image_pixels`.
/// `ImageBuffer` bounds its pixel type by the crate's `Pixel` trait, which has no
/// declaration here, so the image is held in this struct instead.
#[verifier::external_body]
pub struct Canvas {
    pub image: RgbImage,
}

/// A pixel position (x, y).
pub type Position = (u32, u32);

/// The colour a new image starts with.
pub open spec fn black() -> (u8, u8, u8) {
    (0u8, 0u8, 0u8)
}

/// The colour of every pixel of an RGB image, by position (x, y).
pub uninterp spec fn image_pixels(img: Canvas) -> Map<(u32, u32), (u8, u8, u8)>;

/// The width and height an RGB image was made with.
pub uninterp spec fn image_dimensions(img: Canvas) -> (u32, u32);

/// `ImageBuffer::new`: an image of the given width and height whose pixels are
/// all black. It panics when the buffer length (3 · width · height) overflows
/// `usize`, which `requires` leaves out.
#[verifier::external_body]
fn new_image(width: u32, height: u32) -> (canvas: Canvas)
    requires
        3 * (width as int) * (height as int) <= usize::MAX,
    ensures
        image_dimensions(canvas).0 == width && image_dimensions(canvas).1 == height,
        forall|p: Position| #[trigger] image_pixels(canvas).dom().contains(p) == (p.0 < width && p.1 < height),
        forall|p: Position| p.0 < width && p.1 < height ==> #[trigger] image_pixels(canvas)[p] == black(),
{
    Canvas { image: ImageBuffer::new(width, height) }
}

/// `ImageBuffer::get_pixel_mut`, then an assignment: the pixel at (x, y) takes
/// the given colour and nothing else changes. It panics outside the image, which
/// `requires` leaves out.
#[verifier::external_body]
fn set_pixel(img: &mut Canvas, x: u32, y: u32, colour: (u8, u8, u8))
    requires
        x < image_dimensions(*old(img)).0,
        y < image_dimensions(*old(img)).1,
    ensures
        image_dimensions(*final(img)) == image_dimensions(*old(img)),
        image_pixels(*final(img)) == image_pixels(*old(img)).insert((x, y), colour),
{
    *img.image.get_pixel_mut(x, y) = Rgb([colour.0, colour.1, colour.2]);
}

/// How an intensity level is shown.
#[derive(Clone, Copy, Debug, PartialEq, Eq, Structural)]
pub enum Tint {
    /// Level in all three channels.
    Gray,
    /// Level in the red channel only.
    Red,
}

/// The colour of a pixel of intensity `level`.
pub open spec fn tinted(level: u8, tint: Tint) -> (u8, u8, u8) {
    match tint {
        Tint::Gray => (level, level, level),
        Tint::Red => (level, 0u8, 0u8),
    }
}

/// The image can be made and indexed: its buffer fits in memory, the pixel index
/// fits in `u32`, and there is a level for every pixel.
pub open spec fn renderable(levels: Seq<u8>, side: u32) -> bool {
    &&& 3 * (side as int) * (side as int) <= usize::MAX
    &&& (side as int) * (side as int) <= u32::MAX + 1
    &&& levels.len() >= (side as int) * (side as int)
}

/// `img` is the square image of side `side` whose pixel (x, y) shows level
/// `levels[x · side + y]`.
pub open spec fn shows_levels(img: Canvas, levels: Seq<u8>, side: u32, tint: Tint) -> bool {
    &&& image_dimensions(img) == (side, side)
    &&& forall|x: u32, y: u32| #[trigger] image_pixels(img).dom().contains((x, y)) <==> x < side && y < side
    &&& forall|x: u32, y: u32| x < side && y < side
        ==> #[trigger] image_pixels(img)[(x, y)] == tinted(levels[x * side + y], tint)
}

/// Every level of a square image is shown by exactly one pixel: position
/// (x, y) reads level x · side + y, which lies below side², and distinct
/// positions read distinct levels.
pub proof fn pixels_read_distinct_levels(side: u32, x1: u32, y1: u32, x2: u32, y2: u32)
    requires
        x1 < side,
        y1 < side,
        x2 < side,
        y2 < side,
    ensures
        x1 * side + y1 < side * side,
        (x1 * side + y1 == x2 * side + y2) ==> x1 == x2 && y1 == y2,
{
    assert(x1 * side + y1 < side * side) by (nonlinear_arith)
        requires
            x1 < side,
            y1 < side,
    ;
    if x1 * side + y1 == x2 * side + y2 {
        if x1 < x2 {
            assert(x1 * side + y1 < x2 * side + y2) by (nonlinear_arith)
                requires
                    x1 < x2,
                    y1 < side,
            ;
        } else if x2 < x1 {
            assert(x2 * side + y2 < x1 * side + y1) by (nonlinear_arith)
                requires
                    x2 < x1,
                    y2 < side,
            ;
        }
    }
}

/// Every level below side² is shown by some pixel: level k is at position
/// (k / side, k % side).
pub proof fn every_level_shown(side: u32, k: int)
    requires
        0 <= k < side * side,
    ensures
        0 <= k / (side as int) < side,
        0 <= k % (side as int) < side,
        (k / (side as int)) * side + k % (side as int) == k,
{
    assert(side > 0) by (nonlinear_arith)
        requires
            0 <= k < side * side,
    ;
    vstd::arithmetic::div_mod::lemma_fundamental_div_mod(k, side as int);
    vstd::arithmetic::div_mod::lemma_div_pos_is_pos(k, side as int);
    vstd::arithmetic::div_mod::lemma_mod_pos_bound(k, side as int);
    vstd::arithmetic::div_mod::lemma_multiply_divide_lt(k, side as int, side as int);
    vstd::arithmetic::mul::lemma_mul_is_commutative(k / (side as int), side as int);
}

/// The square image of side `side` whose pixel (x, y) shows `levels[x · side + y]`.
pub fn render_levels(levels: &Vec<u8>, side: u32, tint: Tint) -> (img: Canvas)
    requires
        renderable(levels@, side),
    ensures
        shows_levels(img, levels@, side, tint),
{
    let mut img = new_image(side, side);
    let n: usize = side as usize;
    let mut i: u32 = 0;
    while i < side
        invariant
            renderable(levels@, side),
            n == side,
            i <= side,
            image_dimensions(img) == (side, side),
            forall|x: u32, y: u32| #[trigger] image_pixels(img).dom().contains((x, y)) <==> x < side && y < side,
            forall|x: u32, y: u32| x < i && y < side
                ==> #[trigger] image_pixels(img)[(x, y)] == tinted(levels@[x * side + y], tint),
        decreases side - i,
    {
        let mut j: u32 = 0;
        while j < side
            invariant
                renderable(levels@, side),
                n == side,
                i < side,
                j <= side,
                image_dimensions(img) == (side, side),
                forall|x: u32, y: u32| #[trigger] image_pixels(img).dom().contains((x, y)) <==> x < side && y < side,
                forall|x: u32, y: u32| (x < i || (x == i && y < j)) && y < side
                    ==> #[trigger] image_pixels(img)[(x, y)] == tinted(levels@[x * side + y], tint),
            decreases side - j,
        {
            assert((i as int) * (side as int) + (j as int) < (side as int) * (side as int)) by (nonlinear_arith)
                requires
                    i < side,
                    j < side,
            ;
            let index: usize = (i as usize) * n + (j as usize);
            let level = levels[index];
            let colour = match tint {
                Tint::Gray => (level, level, level),
                Tint::Red => (level, 0u8, 0u8),
            };
            set_pixel(&mut img, i, j, colour);
            j = j + 1;
        }
        i = i + 1;
    }
    img
}

/// The grey image that shows a reconstruction of the given size: pixel (x, y)
/// shows `levels[x · side + y]` in all three channels.
pub fn gray_image(levels: &Vec<u8>, size: ImageSize) -> (img: Canvas)
    requires
        levels@.len() >= (size.spec_side() as int) * (size.spec_side() as int),
    ensures
        shows_levels(img, levels@, size.spec_side(), Tint::Gray),
{
    let side = size.side();
    render_levels(levels, side, Tint::Gray)
}

/// The red image of side `side` that shows a reconstruction: pixel (x, y) shows
/// `levels[x · side + y]` in the red channel.
pub fn red_image(levels: &Vec<u8>, side: u32) -> (img: Canvas)
    requires
        renderable(levels@, side),
    ensures
        shows_levels(img, levels@, side, Tint::Red),
{
    render_levels(levels, side, Tint::Red)
}

} // verus!
