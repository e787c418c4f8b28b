//! Takes the current screen and blurs it so that you can't see what
//! is going on.
//!
//! The capture arrives as raw bytes and the blur filter runs outside this
//! library, one pass at a time. What is decided here is the pixel layout of
//! the captured frame, when a pass is due, and what is published to the
//! window after every change of the image.

use image::{imageops, RgbaImage, SubImage};
use vstd::arithmetic::div_mod::lemma_fundamental_div_mod_converse;
use vstd::prelude::*;

use crate::window::{lemma_allocatable_sides, Resolution, Window};

verus! {

/// The bytes of a raw capture with every whole group of four bytes rotated
/// by one place: a group `a b c d` becomes `d a b c`. Bytes after the last
/// whole group stay as they are.
pub open spec fn rotated(raw: Seq<u8>) -> Seq<u8> {
    Seq::new(
        raw.len(),
        |i: int|
            if i >= raw.len() - raw.len() % 4 {
                raw[i]
            } else if i % 4 == 0 {
                raw[i + 3]
            } else {
                raw[i - 1]
            },
    )
}

/// The rows of an image of `width` pixels in the opposite order: row `y` of
/// the result is row `height - 1 - y` of `pixels`.
pub open spec fn flipped(pixels: Seq<u8>, width: nat, height: nat) -> Seq<u8> {
    Seq::new(
        pixels.len(),
        |i: int|
            {
                let row = i / (4 * width as int);
                let offset = i % (4 * width as int);
                pixels[(height - 1 - row) * (4 * width) + offset]
            },
    )
}

/// A colour channel rescaled by the pixel's alpha.
pub open spec fn scaled(value: u8, alpha: u8) -> u8 {
    (value as int * alpha as int / 255) as u8
}

/// Every pixel with its first three channels rescaled by its alpha, the
/// fourth byte, and the first and third channel exchanged afterwards.
pub open spec fn corrected(pixels: Seq<u8>) -> Seq<u8> {
    Seq::new(
        pixels.len(),
        |i: int|
            {
                let first = i - i % 4;
                let alpha = pixels[first + 3];
                if i % 4 == 0 {
                    scaled(pixels[first + 2], alpha)
                } else if i % 4 == 1 {
                    scaled(pixels[first + 1], alpha)
                } else if i % 4 == 2 {
                    scaled(pixels[first], alpha)
                } else {
                    alpha
                }
            },
    )
}

/// The display-ready image of a raw capture: byte groups rotated, rows
/// flipped, channels rescaled by alpha and reordered.
pub open spec fn display_ready(raw: Seq<u8>, width: nat, height: nat) -> Seq<u8> {
    corrected(flipped(rotated(raw), width, height))
}

/// Longest side, in pixels, of the rectangle that is inverted to signal
/// input.
pub const CIRCLE_SIDE: u32 = 32;

/// Side of the input signal along a side of the image of `extent` pixels:
/// [`CIRCLE_SIDE`], or the whole side of the image where that is shorter, so
/// that the signal fits within any image.
pub open spec fn circle_side(extent: u32) -> u32 {
    if extent < CIRCLE_SIDE {
        extent
    } else {
        CIRCLE_SIDE
    }
}

/// Where the input signal is put along a side of the image of `extent`
/// pixels for the number `draw`: one of the `extent - CIRCLE_SIDE` places
/// that leave room behind the signal, or the start of the side where the
/// image leaves no such place.
pub open spec fn circle_place(extent: u32, draw: u32) -> u32 {
    if extent > CIRCLE_SIDE {
        (draw as int % (extent - CIRCLE_SIDE)) as u32
    } else {
        0
    }
}

/// The region of `cw` by `ch` pixels whose top left corner is the pixel
/// `(x, y)` of an image of `width` pixels per row.
pub open spec fn cropped(pixels: Seq<u8>, width: nat, x: nat, y: nat, cw: nat, ch: nat) -> Seq<u8> {
    Seq::new(
        4 * cw * ch,
        |i: int|
            {
                let row = i / (4 * cw as int);
                let offset = i % (4 * cw as int);
                pixels[(y + row) * (4 * width) + 4 * x + offset]
            },
    )
}

/// Every pixel with its first three channels inverted and its alpha kept.
pub open spec fn inverted(pixels: Seq<u8>) -> Seq<u8> {
    Seq::new(
        pixels.len(),
        |i: int|
            if i % 4 == 3 {
                pixels[i]
            } else {
                (255 - pixels[i]) as u8
            },
    )
}

/// The image `bottom` of `width` pixels per row with the image `top`, of
/// `tw` by `th` pixels, copied over it so that the top left corner of `top`
/// lies on the pixel `(x, y)`. What would fall outside `bottom` is left out.
pub open spec fn replaced(
    bottom: Seq<u8>,
    width: nat,
    top: Seq<u8>,
    tw: nat,
    th: nat,
    x: nat,
    y: nat,
) -> Seq<u8> {
    Seq::new(
        bottom.len(),
        |i: int|
            {
                let row = i / (4 * width as int);
                let offset = i % (4 * width as int);
                if y <= row < y + th && 4 * x <= offset < 4 * (x + tw) {
                    top[(row - y) * (4 * tw) + (offset - 4 * x)]
                } else {
                    bottom[i]
                }
            },
    )
}

/// The image with the colour channels inverted in the rectangle of `sw` by
/// `sh` pixels whose top left corner is the pixel `(x, y)`. Alpha values,
/// and every pixel outside the rectangle, stay as they are.
pub open spec fn flashed(pixels: Seq<u8>, width: nat, x: nat, y: nat, sw: nat, sh: nat) -> Seq<
    u8,
> {
    Seq::new(
        pixels.len(),
        |i: int|
            {
                let row = i / (4 * width as int);
                let column = i % (4 * width as int) / 4;
                if y <= row < y + sh && x <= column < x + sw && i % 4 != 3 {
                    (255 - pixels[i]) as u8
                } else {
                    pixels[i]
                }
            },
    )
}

/// Exchanges two bytes of a buffer with three exclusive-ors.
fn xor_swap(buffer: &mut Vec<u8>, i: usize, j: usize)
    requires
        i < old(buffer)@.len(),
        j < old(buffer)@.len(),
        i != j,
    ensures
        final(buffer)@ == old(buffer)@.update(i as int, old(buffer)@[j as int]).update(
            j as int,
            old(buffer)@[i as int],
        ),
{
    let a: u8 = buffer[i];
    let b: u8 = buffer[j];
    assert((a ^ b) ^ b == a) by (bit_vector);
    assert((a ^ b) ^ ((a ^ b) ^ b) == b) by (bit_vector);
    buffer[i] = a ^ b;
    buffer[j] = buffer[i] ^ b;
    buffer[i] = buffer[i] ^ buffer[j];
    assert(buffer@ =~= old(buffer)@.update(i as int, b).update(j as int, a));
}

/// Rotates every whole group of four bytes of a raw capture in place, so
/// that a group `a b c d` reads `d a b c`.
pub fn convert_to_png(buffer: &mut Vec<u8>)
    ensures
        final(buffer)@ == rotated(old(buffer)@),
{
    let mut length: usize = buffer.len();
    length -= length % 4;
    let mut i: usize = 0;
    while i < length
        invariant
            length == old(buffer)@.len() - old(buffer)@.len() % 4,
            buffer@.len() == old(buffer)@.len(),
            i <= length,
            i % 4 == 0,
            forall|j: int| 0 <= j < i ==> buffer@[j] == rotated(old(buffer)@)[j],
            forall|j: int| i <= j < buffer@.len() ==> buffer@[j] == old(buffer)@[j],
        decreases length - i,
    {
        // a b c d -> d a b c
        xor_swap(buffer, i + 2, i + 3);
        xor_swap(buffer, i, i + 2);
        xor_swap(buffer, i + 2, i + 1);
        i += 4;
    }
    assert(buffer@ =~= rotated(old(buffer)@));
}

/// Rescales a colour channel by an alpha value: `num * third_num / 255`,
/// cut to its low byte.
pub fn rgba_conversion(num: u8, third_num: u32) -> (out: u8)
    requires
        num * third_num <= u32::MAX,
    ensures
        out == num * third_num / 255 % 0x100,
        third_num <= 255 ==> out == scaled(num, third_num as u8),
{
    let big_num: u32 = num as u32;
    let product: u32 = big_num * third_num;
    let quotient: u32 = product / 255;
    assert(quotient as u8 == quotient % 0x100) by (bit_vector);
    assert(third_num <= 255 ==> big_num * third_num / 255 <= 255) by (nonlinear_arith)
        requires
            big_num <= 255,
    ;
    #[verifier::truncate]
    (quotient as u8)
}

/// The product of a channel and an alpha of at most 255 fits 32 bits.
proof fn lemma_byte_product(num: u8, alpha: u32)
    requires
        alpha <= 255,
    ensures
        num * alpha <= u32::MAX,
{
    assert(num * alpha <= 255 * 255) by (nonlinear_arith)
        requires
            0 <= num <= 255,
            0 <= alpha <= 255,
    ;
}

/// Flips an image of RGBA pixels with `image::imageops::flip_vertical`.
/// Nothing is proved of the call; the contract claims what its source shows:
/// the result has the same size, and the pixel at `(x, y)` of the result is
/// the pixel at `(x, height - 1 - y)` of the input.
#[verifier::external_body]
fn flip_vertical(pixels: Vec<u8>, width: u32, height: u32) -> (out: Vec<u8>)
    requires
        pixels@.len() == 4 * (width * height),
    ensures
        out@ == flipped(pixels@, width as nat, height as nat),
{
    let image = RgbaImage::from_raw(width, height, pixels).expect("Buffer smaller than image");
    imageops::flip_vertical(&image).into_raw()
}

/// Turns the raw pixels of a captured output into the image that is shown
/// on it: see [`display_ready`].
pub fn get_screen(raw: Vec<u8>, res: Resolution) -> (image: Vec<u8>)
    requires
        raw@.len() == res.byte_len(),
    ensures
        image@ == display_ready(raw@, res.w as nat, res.h as nat),
{
    let mut pixels = raw;
    convert_to_png(&mut pixels);
    let mut image = flip_vertical(pixels, res.w, res.h);
    let ghost flat = image@;
    let len: usize = image.len();
    let mut i: usize = 0;
    while i < len
        invariant
            len == flat.len(),
            len % 4 == 0,
            image@.len() == len,
            i <= len,
            i % 4 == 0,
            forall|j: int| 0 <= j < i ==> image@[j] == corrected(flat)[j],
            forall|j: int| i <= j < len ==> image@[j] == flat[j],
        decreases len - i,
    {
        let alpha: u32 = image[i + 3] as u32;
        proof {
            lemma_byte_product(image@[i as int], alpha);
            lemma_byte_product(image@[i + 1], alpha);
            lemma_byte_product(image@[i + 2], alpha);
        }
        let red = rgba_conversion(image[i], alpha);
        let green = rgba_conversion(image[i + 1], alpha);
        let blue = rgba_conversion(image[i + 2], alpha);
        image[i] = blue;
        image[i + 1] = green;
        image[i + 2] = red;
        i += 4;
    }
    assert(image@ =~= corrected(flat));
    image
}

/// Copies a region out of an image of RGBA pixels with
/// `image::SubImage::new` and `to_image`. Nothing is proved of the call; the
/// contract claims what its source shows for a region inside the image: the
/// pixel at `(i, j)` of the result is the pixel at `(x + i, y + j)` of the
/// input.
#[verifier::external_body]
fn crop(pixels: &Vec<u8>, width: u32, height: u32, x: u32, y: u32, cw: u32, ch: u32) -> (out: Vec<
    u8,
>)
    requires
        pixels@.len() == 4 * (width * height),
        x + cw <= width,
        y + ch <= height,
    ensures
        out@ == cropped(pixels@, width as nat, x as nat, y as nat, cw as nat, ch as nat),
{
    let image = RgbaImage::from_raw(width, height, pixels.clone()).expect(
        "Buffer smaller than image",
    );
    SubImage::new(&image, x, y, cw, ch).to_image().into_raw()
}

/// Inverts an image of RGBA pixels with `image::imageops::invert`. Nothing
/// is proved of the call; the contract claims what its source shows: each of
/// the first three channels `c` of a pixel becomes `255 - c`, the alpha
/// channel is kept.
#[verifier::external_body]
fn invert(pixels: Vec<u8>, width: u32, height: u32) -> (out: Vec<u8>)
    requires
        pixels@.len() == 4 * (width * height),
    ensures
        out@ == inverted(pixels@),
{
    let mut image = RgbaImage::from_raw(width, height, pixels).expect("Buffer smaller than image");
    imageops::invert(&mut image);
    image.into_raw()
}

/// Copies the image `top` over the image `bottom` at `(x, y)` with
/// `image::imageops::replace`. Nothing is proved of the call; the contract
/// claims what its source shows: the pixel at `(x + i, y + j)` of the result
/// is the pixel at `(i, j)` of `top` wherever that lies inside `bottom`, and
/// every other pixel is the one of `bottom`.
#[verifier::external_body]
fn replace(
    bottom: Vec<u8>,
    width: u32,
    height: u32,
    top: &Vec<u8>,
    tw: u32,
    th: u32,
    x: u32,
    y: u32,
) -> (out: Vec<u8>)
    requires
        bottom@.len() == 4 * (width * height),
        top@.len() == 4 * (tw * th),
    ensures
        out@ == replaced(bottom@, width as nat, top@, tw as nat, th as nat, x as nat, y as nat),
{
    let mut image = RgbaImage::from_raw(width, height, bottom).expect("Buffer smaller than image");
    let patch = RgbaImage::from_raw(tw, th, top.clone()).expect("Buffer smaller than image");
    imageops::replace(&mut image, &patch, i64::from(x), i64::from(y));
    image.into_raw()
}

/// A number that `rand::random` draws. Nothing is claimed of it.
#[verifier::external_body]
fn random_u32() -> u32 {
    rand::random::<u32>()
}

/// Cutting a rectangle out of an image, inverting it and copying it back to
/// where it came from inverts the image inside the rectangle and nowhere
/// else.
pub proof fn lemma_flash(
    pixels: Seq<u8>,
    width: nat,
    height: nat,
    x: nat,
    y: nat,
    sw: nat,
    sh: nat,
)
    requires
        pixels.len() == 4 * (width * height),
        0 < sw,
        0 < sh,
        x + sw <= width,
        y + sh <= height,
    ensures
        cropped(pixels, width, x, y, sw, sh).len() == 4 * (sw * sh),
        replaced(pixels, width, inverted(cropped(pixels, width, x, y, sw, sh)), sw, sh, x, y)
            == flashed(pixels, width, x, y, sw, sh),
{
    let stride = 4 * width as int;
    let span = 4 * sw as int;
    let square = cropped(pixels, width, x, y, sw, sh);
    let patch = inverted(square);
    let pasted = replaced(pixels, width, patch, sw, sh, x, y);
    let flash = flashed(pixels, width, x, y, sw, sh);
    assert(4 * sw * sh == 4 * (sw * sh) && 4 * sw * sh == span * sh) by (nonlinear_arith)
        requires
            span == 4 * sw,
    ;
    assert forall|i: int| 0 <= i < pixels.len() implies pasted[i] == flash[i] by {
        let row = i / stride;
        let offset = i % stride;
        assert(i == row * stride + offset && 0 <= offset < stride) by (nonlinear_arith)
            requires
                row == i / stride,
                offset == i % stride,
                stride > 0,
        ;
        assert(row * stride == 4 * (row * width)) by (nonlinear_arith)
            requires
                stride == 4 * width,
        ;
        if y <= row < y + sh && 4 * x <= offset < 4 * (x + sw) {
            let down = row - y;
            let along = offset - 4 * x;
            let t = down * span + along;
            lemma_fundamental_div_mod_converse(t, span, down, along);
            assert(down * span == 4 * (down * sw)) by (nonlinear_arith)
                requires
                    span == 4 * sw,
            ;
            assert(0 <= t < span * sh) by (nonlinear_arith)
                requires
                    t == down * span + along,
                    0 <= down < sh,
                    0 <= along < span,
            ;
            assert(t % 4 == i % 4);
            assert((y + t / span) * stride + 4 * x + t % span == i);
            assert(square[t] == pixels[i]);
        }
    }
    assert(pasted =~= flash);
}

/// The screen-obscuring effect of one output: the image that is shown on it,
/// and the number of blur passes that are still to be applied to it.
pub struct Blur {
    image: Vec<u8>,
    resolution: Resolution,
    passes: u32,
}

/// What a [`Blur`] holds.
pub struct BlurView {
    /// The stored image, four bytes per pixel, row by row.
    pub image: Seq<u8>,
    /// Resolution of the output when it was captured.
    pub resolution: Resolution,
    /// Blur passes that are still due.
    pub passes: nat,
}

/// Where an effect stands: passes are still due, or the image is final.
#[derive(Clone, Copy, Debug, PartialEq, Eq, Structural)]
pub enum Phase {
    /// This many blur passes are still due, at least one.
    Refining(u32),
    /// No pass is due: the image is not filtered any more.
    Steady,
}

impl BlurView {
    /// The image has exactly four bytes for every pixel of an allocatable
    /// resolution, and the number of due passes fits 32 bits.
    pub open spec fn wf(self) -> bool {
        &&& self.resolution.allocatable()
        &&& self.image.len() == self.resolution.byte_len()
        &&& self.passes <= u32::MAX
    }

    /// Where the effect stands.
    pub open spec fn phase(self) -> Phase {
        if self.passes > 0 {
            Phase::Refining(self.passes as u32)
        } else {
            Phase::Steady
        }
    }

    /// The image that the next pass of the filter is applied to, if a pass
    /// is due.
    pub open spec fn pending(self) -> Option<Seq<u8>> {
        if self.passes > 0 {
            Some(self.image)
        } else {
            None
        }
    }

    /// The effect after the filter handed back `filtered`: while a pass is
    /// due the image is replaced and one pass less is due; a steady effect
    /// stays as it is.
    pub open spec fn refined(self, filtered: Seq<u8>) -> BlurView {
        if self.passes > 0 {
            BlurView { image: filtered, passes: (self.passes - 1) as nat, ..self }
        } else {
            self
        }
    }

    /// The effect after one turn of the dispatch loop in which `filter` is
    /// applied to the pending image, if there is one.
    pub open spec fn tick(self, filter: spec_fn(Seq<u8>) -> Seq<u8>) -> BlurView {
        match self.pending() {
            Some(image) => self.refined(filter(image)),
            None => self,
        }
    }

    /// The effect after `n` turns of the dispatch loop.
    pub open spec fn ticks(self, filter: spec_fn(Seq<u8>) -> Seq<u8>, n: nat) -> BlurView
        decreases n,
    {
        if n == 0 {
            self
        } else {
            self.ticks(filter, (n - 1) as nat).tick(filter)
        }
    }

    /// The effect with the input signal drawn at `(x, y)`: the colours are
    /// inverted in the rectangle with that top left corner whose sides are
    /// the [`circle_side`] of the image's width and height.
    pub open spec fn with_circle(self, x: nat, y: nat) -> BlurView {
        BlurView {
            image: flashed(
                self.image,
                self.resolution.w as nat,
                x,
                y,
                circle_side(self.resolution.w) as nat,
                circle_side(self.resolution.h) as nat,
            ),
            ..self
        }
    }
}

/// `filter` applied `n` times to `image`.
pub open spec fn iterated(filter: spec_fn(Seq<u8>) -> Seq<u8>, n: nat, image: Seq<u8>) -> Seq<u8>
    decreases n,
{
    if n == 0 {
        image
    } else {
        filter(iterated(filter, (n - 1) as nat, image))
    }
}

/// After `n` turns of the dispatch loop the stored image is the image the
/// effect started with, filtered once per turn until no pass was due any
/// more. Once all passes are applied there is no pending image, so later
/// turns do not reach the filter and leave the effect as it is.
pub proof fn lemma_refinement(blur: BlurView, filter: spec_fn(Seq<u8>) -> Seq<u8>, n: nat)
    ensures
        n <= blur.passes ==> blur.ticks(filter, n) == (BlurView {
            image: iterated(filter, n, blur.image),
            passes: (blur.passes - n) as nat,
            ..blur
        }),
        n >= blur.passes ==> blur.ticks(filter, n) == (BlurView {
            image: iterated(filter, blur.passes, blur.image),
            passes: 0,
            ..blur
        }),
        n >= blur.passes ==> blur.ticks(filter, n).pending() is None,
        n >= blur.passes ==> blur.ticks(filter, n).phase() == Phase::Steady,
    decreases n,
{
    if n > 0 {
        lemma_refinement(blur, filter, (n - 1) as nat);
    }
}

impl View for Blur {
    type V = BlurView;

    closed spec fn view(&self) -> BlurView {
        BlurView { image: self.image@, resolution: self.resolution, passes: self.passes as nat }
    }
}

impl Blur {
    /// Starts the effect of an output of resolution `res` from `capture`,
    /// the raw pixels that the capture of the output returned: the capture
    /// is made display-ready and published into `window`, and `passes` blur
    /// passes are due.
    pub fn new(res: Resolution, capture: Vec<u8>, passes: u32, window: &mut Window) -> (blur: Self)
        requires
            res.allocatable(),
            capture@.len() == res.byte_len(),
        ensures
            blur@.wf(),
            blur@ == (BlurView {
                image: display_ready(capture@, res.w as nat, res.h as nat),
                resolution: res,
                passes: passes as nat,
            }),
            final(window)@.wf(),
            final(window)@ == old(window)@.published(res, blur@.image),
    {
        let image = get_screen(capture, res);
        window.write_bytes(res, image.as_slice());
        Blur { image, resolution: res, passes }
    }

    /// The stored image.
    pub fn image(&self) -> (image: &[u8])
        ensures
            image@ == self@.image,
    {
        self.image.as_slice()
    }

    /// Resolution of the output when it was captured.
    pub fn resolution(&self) -> (res: Resolution)
        ensures
            res == self@.resolution,
    {
        self.resolution
    }

    /// Where the effect stands.
    pub fn phase(&self) -> (phase: Phase)
        ensures
            phase == self@.phase(),
    {
        if self.passes > 0 {
            Phase::Refining(self.passes)
        } else {
            Phase::Steady
        }
    }

    /// The image that the blur filter is to be applied to in this turn of
    /// the dispatch loop, or `None` when the effect is steady.
    pub fn pending_pass(&self) -> (image: Option<&[u8]>)
        ensures
            image is Some <==> self@.pending() is Some,
            image matches Some(bytes) ==> self@.pending() == Some(bytes@),
    {
        if self.passes > 0 {
            Some(self.image.as_slice())
        } else {
            None
        }
    }

    /// Takes `filtered`, the pending image after one pass of the blur
    /// filter, stores it and publishes it into `window`. On a steady effect
    /// nothing is stored and nothing is published.
    pub fn blur(&mut self, filtered: Vec<u8>, window: &mut Window)
        requires
            old(self)@.wf(),
            filtered@.len() == old(self)@.image.len(),
        ensures
            final(self)@.wf(),
            final(self)@ == old(self)@.refined(filtered@),
            old(self)@.passes > 0 ==> final(window)@.wf() && final(window)@ == old(window)@.published(
                old(self)@.resolution,
                filtered@,
            ),
            old(self)@.passes == 0 ==> final(window)@ == old(window)@,
    {
        if self.passes > 0 {
            self.image = filtered;
            self.passes = self.passes - 1;
            window.write_bytes(self.resolution, self.image.as_slice());
        }
    }

    /// Draws the input signal with its top left corner at `(x, y)`, where
    /// it lies within the image, and publishes the image into `window`.
    pub fn input_circle_at(&mut self, x: u32, y: u32, window: &mut Window)
        requires
            old(self)@.wf(),
            x + circle_side(old(self)@.resolution.w) <= old(self)@.resolution.w,
            y + circle_side(old(self)@.resolution.h) <= old(self)@.resolution.h,
        ensures
            final(self)@.wf(),
            final(self)@ == old(self)@.with_circle(x as nat, y as nat),
            final(window)@.wf(),
            final(window)@ == old(window)@.published(old(self)@.resolution, final(self)@.image),
    {
        let w = self.resolution.w;
        let h = self.resolution.h;
        let w_ = circle_side_of(w);
        let h_ = circle_side_of(h);
        proof {
            lemma_allocatable_sides(self.resolution);
            lemma_flash(
                self.image@,
                w as nat,
                h as nat,
                x as nat,
                y as nat,
                w_ as nat,
                h_ as nat,
            );
            assert(w_ * h_ <= 32 * 32) by (nonlinear_arith)
                requires
                    0 <= w_ <= 32,
                    0 <= h_ <= 32,
            ;
        }
        let mut image: Vec<u8> = Vec::new();
        core::mem::swap(&mut self.image, &mut image);
        let sub_image = crop(&image, w, h, x, y, w_, h_);
        let sub_image = invert(sub_image, w_, h_);
        image = replace(image, w, h, &sub_image, w_, h_, x, y);
        self.image = image;
        window.write_bytes(self.resolution, self.image.as_slice());
    }

    /// Draws the input signal at the place that the two numbers `rx` and
    /// `ry` pick, see [`circle_place`], and publishes the image into
    /// `window`.
    pub fn input_circle_for(&mut self, rx: u32, ry: u32, window: &mut Window)
        requires
            old(self)@.wf(),
        ensures
            final(self)@.wf(),
            final(self)@ == old(self)@.with_circle(
                circle_place(old(self)@.resolution.w, rx) as nat,
                circle_place(old(self)@.resolution.h, ry) as nat,
            ),
            final(window)@.wf(),
            final(window)@ == old(window)@.published(old(self)@.resolution, final(self)@.image),
    {
        let x = circle_place_of(self.resolution.w, rx);
        let y = circle_place_of(self.resolution.h, ry);
        self.input_circle_at(x, y, window);
    }

    /// Puts random circles to signify input: draws the input signal at a
    /// random place where it fits within the image, whatever the size of
    /// the image, and publishes the image into `window`.
    pub fn random_input_circles(&mut self, window: &mut Window)
        requires
            old(self)@.wf(),
        ensures
            final(self)@.wf(),
            exists|x: nat, y: nat|
                {
                    &&& x + circle_side(old(self)@.resolution.w) <= old(self)@.resolution.w
                    &&& y + circle_side(old(self)@.resolution.h) <= old(self)@.resolution.h
                    &&& old(self)@.resolution.w > CIRCLE_SIDE ==> x + CIRCLE_SIDE < old(
                        self,
                    )@.resolution.w
                    &&& old(self)@.resolution.h > CIRCLE_SIDE ==> y + CIRCLE_SIDE < old(
                        self,
                    )@.resolution.h
                    &&& old(self)@.resolution.w <= CIRCLE_SIDE ==> x == 0
                    &&& old(self)@.resolution.h <= CIRCLE_SIDE ==> y == 0
                    &&& #[trigger] old(self)@.with_circle(x, y) == final(self)@
                },
            final(window)@.wf(),
            final(window)@ == old(window)@.published(old(self)@.resolution, final(self)@.image),
    {
        let rx = random_u32();
        let ry = random_u32();
        self.input_circle_for(rx, ry, window);
    }
}

/// Side of the input signal along a side of the image, see [`circle_side`].
pub fn circle_side_of(extent: u32) -> (side: u32)
    ensures
        side == circle_side(extent),
        side <= extent,
        side <= CIRCLE_SIDE,
{
    if extent < CIRCLE_SIDE {
        extent
    } else {
        CIRCLE_SIDE
    }
}

/// Place of the input signal along a side of the image for the number
/// `draw`, see [`circle_place`]. Behind the place there is room for the
/// signal.
pub fn circle_place_of(extent: u32, draw: u32) -> (place: u32)
    ensures
        place == circle_place(extent, draw),
        place + circle_side(extent) <= extent,
        extent > CIRCLE_SIDE ==> place + CIRCLE_SIDE < extent,
{
    if extent > CIRCLE_SIDE {
        draw % (extent - CIRCLE_SIDE)
    } else {
        0
    }
}

} // verus!
