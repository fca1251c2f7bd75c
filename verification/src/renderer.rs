//! The pixel loop: the order in which pixels are produced and the place of
//! each pixel's bytes in the image.

use vstd::prelude::*;
use crate::camera::Camera;
use crate::color::{push_color, Rgb8};

verus! {

/// The bytes of a row of colours: three per colour, in order.
pub open spec fn flatten(pixels: Seq<Rgb8>) -> Seq<u8> {
    Seq::new(3 * pixels.len(), |k: int| pixels[k / 3].channel(k % 3))
}

/// A picture in the making, as a value: the colours produced so far, in scan
/// order.
pub struct Frame {
    /// Pixel columns.
    pub width: nat,
    /// Pixel rows.
    pub height: nat,
    /// The colours of the pixels shaded so far.
    pub pixels: Seq<Rgb8>,
}

impl Frame {
    /// No more colours than pixels.
    pub open spec fn wf(self) -> bool {
        self.pixels.len() <= self.width * self.height
    }

    /// Every pixel has its colour.
    pub open spec fn is_complete(self) -> bool {
        self.pixels.len() == self.width * self.height
    }

    /// The place of pixel `(i, j)` in scan order: rows from the top, each
    /// from the left.
    pub open spec fn index(self, i: nat, j: nat) -> int {
        (j * self.width + i) as int
    }

    /// The colour of pixel `(i, j)`.
    pub open spec fn pixel(self, i: nat, j: nat) -> Rgb8 {
        self.pixels[self.index(i, j)]
    }

    /// The image: the bytes of all colours produced so far.
    pub open spec fn image(self) -> Seq<u8> {
        flatten(self.pixels)
    }
}

/// Scan order is row-major: within the frame, a pixel comes before another
/// exactly when it is in a higher row, or in the same row further left; so
/// no two pixels share a place, and every place below `width * height`
/// belongs to a pixel.
pub proof fn lemma_scan_order(frame: Frame, i: nat, j: nat, i2: nat, j2: nat)
    requires
        i < frame.width,
        j < frame.height,
        i2 < frame.width,
        j2 < frame.height,
    ensures
        frame.index(i, j) < frame.width * frame.height,
        frame.index(i, j) < frame.index(i2, j2) <==> j < j2 || (j == j2 && i < i2),
        frame.index(i, j) % (frame.width as int) == i,
        frame.index(i, j) / (frame.width as int) == j,
{
    let w = frame.width as int;
    let h = frame.height as int;
    assert(j * w + i < w * h) by (nonlinear_arith)
        requires
            0 <= i < w,
            0 <= j < h,
    ;
    assert(j < j2 ==> j * w + i < j2 * w + i2) by (nonlinear_arith)
        requires
            0 <= i < w,
            0 <= i2 < w,
            0 <= j,
            0 <= j2,
    ;
    assert(j2 < j ==> j2 * w + i2 < j * w + i) by (nonlinear_arith)
        requires
            0 <= i < w,
            0 <= i2 < w,
            0 <= j,
            0 <= j2,
    ;
    vstd::arithmetic::div_mod::lemma_fundamental_div_mod_converse(j * w + i, w, j as int, i as int);
}

/// The layout of the image: the bytes of the pixel at place `n` are the
/// three bytes from offset `3 * n`, so pixel `(i, j)` of a frame is found at
/// `3 * (j * width + i)`; and a complete image has `3 * width * height`
/// bytes.
pub proof fn lemma_image_layout(frame: Frame, i: nat, j: nat)
    requires
        frame.index(i, j) < frame.pixels.len(),
    ensures
        frame.image().len() == 3 * frame.pixels.len(),
        frame.is_complete() ==> frame.image().len() == 3 * frame.width * frame.height,
        frame.image().subrange(3 * frame.index(i, j), 3 * frame.index(i, j) + 3) == frame.pixel(
            i,
            j,
        ).bytes(),
{
    let n = frame.index(i, j);
    let image = frame.image();
    assert(image.subrange(3 * n, 3 * n + 3) =~= frame.pixels[n].bytes());
    assert(3 * (frame.width * frame.height) == 3 * frame.width * frame.height)
        by (nonlinear_arith);
}

/// The colour that an image of `width` pixels a row holds for pixel `(i, j)`:
/// the three bytes from offset `3 * (j * width + i)`, if the pixel is in a
/// row and the image reaches that far.
pub open spec fn pixel_of(image: Seq<u8>, width: nat, i: nat, j: nat) -> Option<Rgb8> {
    let at = (3 * (j * width + i)) as int;
    if i < width && at + 3 <= image.len() {
        Some(Rgb8 { r: image[at], g: image[at + 1], b: image[at + 2] })
    } else {
        None
    }
}

/// Reads the colour of pixel `(i, j)` from an image of `width` pixels a row,
/// as whoever is handed the image is to read it.
pub fn pixel_at(image: &Vec<u8>, width: u32, i: u32, j: u32) -> (color: Option<Rgb8>)
    ensures
        color == pixel_of(image@, width as nat, i as nat, j as nat),
{
    if i >= width {
        return None;
    }
    proof {
        assert(j * width <= 0xffff_ffff * 0xffff_ffff) by (nonlinear_arith)
            requires
                j <= 0xffff_ffff,
                width <= 0xffff_ffff,
        ;
    }
    let place: u64 = j as u64 * width as u64 + i as u64;
    let held: usize = image.len() / 3;
    if place >= held as u64 {
        return None;
    }
    let at: usize = 3 * (place as usize);
    Some(Rgb8 { r: image[at], g: image[at + 1], b: image[at + 2] })
}

/// What is rendered is read back: the image of a frame holds, for every
/// pixel shaded so far, the colour it was given.
pub proof fn lemma_image_round_trip(frame: Frame, i: nat, j: nat)
    requires
        i < frame.width,
        frame.index(i, j) < frame.pixels.len(),
    ensures
        pixel_of(frame.image(), frame.width, i, j) == Some(frame.pixel(i, j)),
{
}

/// Appending a colour appends its bytes: the image grows by one colour for
/// each pixel.
pub proof fn lemma_flatten_push(pixels: Seq<Rgb8>, color: Rgb8)
    ensures
        flatten(pixels.push(color)) == flatten(pixels) + color.bytes(),
{
    assert(flatten(pixels.push(color)) =~= flatten(pixels) + color.bytes());
}

/// Collects the colours of a render, one per pixel, in scan order.
pub struct Renderer {
    width: u32,
    height: u32,
    image: Vec<u8>,
}

impl View for Renderer {
    type V = Frame;

    closed spec fn view(&self) -> Frame {
        Frame {
            width: self.width as nat,
            height: self.height as nat,
            pixels: Seq::new(
                (self.image@.len() / 3) as nat,
                |n: int|
                    Rgb8 { r: self.image@[3 * n], g: self.image@[3 * n + 1], b: self.image@[3 * n + 2] },
            ),
        }
    }
}

impl Renderer {
    #[verifier::type_invariant]
    spec fn inv(self) -> bool {
        &&& self.width >= 1
        &&& self.height >= 1
        &&& self.image@.len() % 3 == 0
        &&& self.image@.len() / 3 <= self.width * self.height
    }

    /// Starts a render for the pixel grid of `camera`, with no pixel shaded
    /// yet.
    pub fn new(camera: &Camera) -> (renderer: Renderer)
        ensures
            renderer@ == (Frame {
                width: camera@.width,
                height: camera@.height,
                pixels: Seq::<Rgb8>::empty(),
            }),
            renderer@.wf(),
    {
        let renderer = Renderer {
            width: camera.width(),
            height: camera.height(),
            image: Vec::new(),
        };
        proof {
            assert(renderer@.pixels =~= Seq::<Rgb8>::empty());
        }
        renderer
    }

    /// The pixel whose colour is due next, as column and row, or `None` when
    /// the picture is complete. Pixels come row by row from the top, each row
    /// from the left.
    pub fn next_pixel(&self) -> (next: Option<(u32, u32)>)
        ensures
            self@.wf(),
            next is None <==> self@.is_complete(),
            next matches Some((i, j)) ==> {
                &&& i < self@.width
                &&& j < self@.height
                &&& self@.index(i as nat, j as nat) == self@.pixels.len()
            },
    {
        proof {
            use_type_invariant(self);
        }
        let width: u64 = self.width as u64;
        let height: u64 = self.height as u64;
        proof {
            assert(width * height <= u64::MAX) by (nonlinear_arith)
                requires
                    width <= u32::MAX,
                    height <= u32::MAX,
            ;
        }
        let shaded: u64 = self.shaded();
        if shaded >= width * height {
            None
        } else {
            let i: u64 = shaded % width;
            let j: u64 = shaded / width;
            proof {
                let n = shaded as int;
                let w = width as int;
                vstd::arithmetic::div_mod::lemma_fundamental_div_mod(n, w);
                assert(n == w * (n / w) + n % w);
                assert(w * (n / w) == (n / w) * w) by (nonlinear_arith);
                assert(n / w < height) by (nonlinear_arith)
                    requires
                        n < w * height,
                        w > 0,
                        n == (n / w) * w + n % w,
                        0 <= n % w,
                ;
            }
            Some((i as u32, j as u32))
        }
    }

    /// Stores `color` as the colour of the pixel that is due. Returns whether
    /// it was stored: a complete picture takes no more colours and stays as
    /// it is.
    pub fn push_pixel(&mut self, color: Rgb8) -> (stored: bool)
        ensures
            stored == !old(self)@.is_complete(),
            final(self)@.width == old(self)@.width,
            final(self)@.height == old(self)@.height,
            final(self)@.pixels == if stored {
                old(self)@.pixels.push(color)
            } else {
                old(self)@.pixels
            },
            final(self)@.wf(),
    {
        proof {
            use_type_invariant(&*self);
            assert(self.width * self.height <= u64::MAX) by (nonlinear_arith)
                requires
                    self.width <= u32::MAX,
                    self.height <= u32::MAX,
            ;
        }
        if self.shaded() >= self.width as u64 * self.height as u64 {
            false
        } else {
            let ghost before = self@;
            let mut image = Vec::new();
            std::mem::swap(&mut image, &mut self.image);
            push_color(&mut image, &color);
            self.image = image;
            proof {
                assert(self@.pixels =~= before.pixels.push(color));
            }
            true
        }
    }

    /// The number of pixels shaded so far.
    pub fn shaded(&self) -> (shaded: u64)
        ensures
            shaded == self@.pixels.len(),
    {
        (self.image.len() / 3) as u64
    }

    /// Ends the render. A complete picture is handed out as its image,
    /// `3 * width * height` bytes; an incomplete one is dropped.
    pub fn into_image(self) -> (image: Option<Vec<u8>>)
        ensures
            image is Some <==> self@.is_complete(),
            image matches Some(bytes) ==> bytes@ == self@.image() && bytes@.len() == 3
                * self@.width * self@.height,
    {
        proof {
            use_type_invariant(&self);
            assert(self.width * self.height <= u64::MAX) by (nonlinear_arith)
                requires
                    self.width <= u32::MAX,
                    self.height <= u32::MAX,
            ;
        }
        if self.shaded() == self.width as u64 * self.height as u64 {
            proof {
                assert(self.image@ =~= self@.image());
                assert(3 * (self.width * self.height) == 3 * self.width * self.height)
                    by (nonlinear_arith);
            }
            Some(self.image)
        } else {
            None
        }
    }
}

} // verus!
