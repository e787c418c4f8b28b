//! Per-output surface state: the tracked resolution of an output and the
//! window that owns the pixel buffer shown on it.
//!
//! A [`Window`] never talks to the display server itself. It keeps the bytes
//! of its backing region and queues the protocol requests that make them
//! visible; whoever owns the connection drains the queue with
//! [`Window::take_requests`] and performs the requests in order.

use byteorder::{LittleEndian, WriteBytesExt};
use vstd::prelude::*;
use vstd::slice::slice_to_vec;

use crate::color::Color;

verus! {

/// Bit of an output's mode flags that marks the mode as the current one.
pub const MODE_CURRENT: u32 = 0x1;

/// Used to know how big to make the surface.
#[derive(Clone, Copy, Debug, PartialEq, Eq, Structural)]
pub struct Resolution {
    pub w: u32,
    pub h: u32,
}

impl Resolution {
    /// Number of pixels.
    pub open spec fn area(self) -> int {
        self.w * self.h
    }

    /// Number of bytes of a buffer with four bytes per pixel.
    pub open spec fn byte_len(self) -> int {
        4 * self.area()
    }

    /// A buffer can be allocated for this resolution: it has at least one
    /// pixel, and its byte length fits the signed 32-bit sizes of the display
    /// protocol.
    pub open spec fn allocatable(self) -> bool {
        0 < self.area() && self.byte_len() <= i32::MAX
    }

    /// The resolution after a mode notification with the given flags and
    /// size. Only the mode flagged as current is stored; every other
    /// reported mode leaves the resolution as it was. The signed protocol
    /// values are reinterpreted as unsigned.
    pub open spec fn after_mode(self, flags: u32, width: i32, height: i32) -> Resolution {
        if flags & MODE_CURRENT != 0 {
            Resolution { w: width as u32, h: height as u32 }
        } else {
            self
        }
    }

    /// The resolution of an output whose mode is not known yet.
    pub fn new() -> (res: Self)
        ensures
            res == (Resolution { w: 0, h: 0 }),
    {
        Resolution { w: 0, h: 0 }
    }

    /// Gets the size of the resolution (width * height).
    pub fn size(self) -> (area: u32)
        requires
            self.area() <= u32::MAX,
        ensures
            area == self.area(),
    {
        self.w * self.h
    }

    /// Whether a buffer can be allocated for this resolution.
    pub fn can_allocate(self) -> (ok: bool)
        ensures
            ok == self.allocatable(),
    {
        let w: u64 = self.w as u64;
        let h: u64 = self.h as u64;
        assert(w * h <= u64::MAX) by (nonlinear_arith)
            requires
                w <= u32::MAX,
                h <= u32::MAX,
        ;
        let area: u64 = w * h;
        0 < area && area <= (i32::MAX as u64) / 4
    }

    /// Handles a mode notification of the output, see
    /// [`Resolution::after_mode`].
    pub fn mode(&mut self, flags: u32, width: i32, height: i32)
        ensures
            *final(self) == old(self).after_mode(flags, width, height),
    {
        if flags & MODE_CURRENT != 0 {
            self.w = #[verifier::truncate] (width as u32);
            self.h = #[verifier::truncate] (height as u32);
        }
    }
}

/// A request to the display server on behalf of one window.
#[derive(Clone, Copy, Debug, PartialEq, Eq, Structural)]
pub enum SurfaceRequest {
    /// Map the backing region as a pool of `size` bytes and create from it,
    /// at offset 0, a 32-bit ARGB buffer of the given geometry.
    CreateBuffer { size: i32, width: i32, height: i32, stride: i32 },
    /// Give the surface the fullscreen role on the window's output.
    SetFullscreen,
    /// Mark a rectangle of the surface as changed.
    Damage { x: i32, y: i32, width: i32, height: i32 },
    /// Attach the window's buffer to the surface at the given offset.
    Attach { x: i32, y: i32 },
    /// Commit the surface, which makes the attached buffer visible.
    Commit,
    /// Answer a liveness check with its serial.
    Pong { serial: u32 },
}

/// `n` copies of `pixel`, one after the other.
pub open spec fn repeated(pixel: Seq<u8>, n: nat) -> Seq<u8>
    decreases n,
{
    if n == 0 {
        Seq::empty()
    } else {
        repeated(pixel, (n - 1) as nat) + pixel
    }
}

/// The four bytes of `word`, least significant first.
pub open spec fn le_bytes(word: u32) -> Seq<u8> {
    seq![
        (word as int % 0x100) as u8,
        (word as int / 0x100 % 0x100) as u8,
        (word as int / 0x1_0000 % 0x100) as u8,
        (word as int / 0x100_0000) as u8,
    ]
}

/// The request that allocates the buffer for `res`.
pub open spec fn allocation(res: Resolution) -> SurfaceRequest {
    SurfaceRequest::CreateBuffer {
        size: res.byte_len() as i32,
        width: res.w as i32,
        height: res.h as i32,
        stride: (4 * res.w) as i32,
    }
}

/// The requests that show a window for the first time.
pub open spec fn creation(res: Resolution) -> Seq<SurfaceRequest> {
    seq![
        allocation(res),
        SurfaceRequest::SetFullscreen,
        SurfaceRequest::Attach { x: 0, y: 0 },
        SurfaceRequest::Commit,
    ]
}

/// The requests that make new buffer contents visible: the whole surface is
/// damaged, the buffer attached again and the surface committed.
pub open spec fn presentation(res: Resolution) -> Seq<SurfaceRequest> {
    seq![
        SurfaceRequest::Damage { x: 0, y: 0, width: res.w as i32, height: res.h as i32 },
        SurfaceRequest::Attach { x: 0, y: 0 },
        SurfaceRequest::Commit,
    ]
}

/// The requests that publish a buffer of resolution `res` on a window whose
/// buffer had resolution `before`: a buffer of another size is allocated
/// anew first.
pub open spec fn publication(before: Resolution, res: Resolution) -> Seq<SurfaceRequest> {
    if before == res {
        presentation(res)
    } else {
        seq![allocation(res)] + presentation(res)
    }
}

/// The main window struct: the bytes of the region backing the surface of one
/// output, and the requests that have not been handed to the display server
/// yet.
pub struct Window {
    buffer: Vec<u8>,
    resolution: Resolution,
    requests: Vec<SurfaceRequest>,
}

/// What a [`Window`] holds.
pub struct WindowView {
    /// Contents of the backing region, four bytes per pixel, row by row.
    pub buffer: Seq<u8>,
    /// Resolution the buffer was last written for.
    pub resolution: Resolution,
    /// Requests queued for the display server, oldest first.
    pub requests: Seq<SurfaceRequest>,
}

impl WindowView {
    /// The buffer has exactly four bytes for every pixel of an allocatable
    /// resolution.
    pub open spec fn wf(self) -> bool {
        &&& self.resolution.allocatable()
        &&& self.buffer.len() == self.resolution.byte_len()
    }

    /// This window after a frame `bytes` of resolution `res` was published
    /// on it: the frame replaces the whole buffer, and the requests that
    /// make it visible are queued behind those already waiting.
    pub open spec fn published(self, res: Resolution, bytes: Seq<u8>) -> WindowView {
        WindowView {
            buffer: bytes,
            resolution: res,
            requests: self.requests + publication(self.resolution, res),
        }
    }
}

impl View for Window {
    type V = WindowView;

    closed spec fn view(&self) -> WindowView {
        WindowView {
            buffer: self.buffer@,
            resolution: self.resolution,
            requests: self.requests@,
        }
    }
}

/// Appends `word` to `buf` with `byteorder::WriteBytesExt::write_u32`, in
/// little-endian order. Nothing is proved of the call; the contract claims
/// what byteorder documents for a `Vec<u8>` writer: the four bytes of the
/// word are appended, least significant first, and the bytes already in the
/// vector stay as they are.
#[verifier::external_body]
fn write_u32_le(buf: &mut Vec<u8>, word: u32)
    ensures
        final(buf)@ == old(buf)@ + le_bytes(word),
{
    buf.write_u32::<LittleEndian>(word).expect("Could not write to buffer");
}

/// In memory order the pixel word of a colour is its red, green, blue and
/// alpha byte.
pub proof fn lemma_packed_bytes(color: Color)
    ensures
        le_bytes(color.packed()) == color.bytes(),
{
    let r = color.red as u32;
    let g = color.green as u32;
    let b = color.blue as u32;
    let a = color.alpha as u32;
    let word = (r + 0x100 * g + 0x1_0000 * b + 0x100_0000 * a) as u32;
    assert(word % 0x100 == r && word / 0x100 % 0x100 == g && word / 0x1_0000 % 0x100 == b && word
        / 0x100_0000 == a) by (bit_vector)
        requires
            r < 0x100,
            g < 0x100,
            b < 0x100,
            a < 0x100,
            word == (r + 0x100 * g + 0x1_0000 * b + 0x100_0000 * a) as u32,
    ;
    assert(color.packed() == word);
    assert(le_bytes(color.packed()) =~= color.bytes());
}

/// `n` copies of a pixel take `n` times its length.
pub proof fn lemma_repeated_len(pixel: Seq<u8>, n: nat)
    ensures
        repeated(pixel, n).len() == n * pixel.len(),
    decreases n,
{
    let len = pixel.len();
    if n == 0 {
        assert(n * len == 0) by (nonlinear_arith)
            requires
                n == 0,
        ;
    } else {
        lemma_repeated_len(pixel, (n - 1) as nat);
        assert(n * len == (n - 1) * len + len) by (nonlinear_arith);
    }
}

/// Each side of an allocatable resolution is positive and no larger than the
/// area.
pub proof fn lemma_allocatable_sides(res: Resolution)
    requires
        res.allocatable(),
    ensures
        0 < res.w <= res.area(),
        0 < res.h <= res.area(),
{
    let w = res.w as int;
    let h = res.h as int;
    assert(0 < w <= w * h && 0 < h <= w * h) by (nonlinear_arith)
        requires
            0 <= w,
            0 <= h,
            0 < w * h,
    ;
}

/// Publishing the same frame again leaves the buffer and its resolution as
/// they are, and queues one more presentation.
pub proof fn lemma_publish_again(window: WindowView, res: Resolution, bytes: Seq<u8>)
    ensures
        window.published(res, bytes).published(res, bytes) == (WindowView {
            requests: window.published(res, bytes).requests + presentation(res),
            ..window.published(res, bytes)
        }),
{
}

/// A buffer of `res.area()` pixels of one colour.
fn filled(color: Color, res: Resolution) -> (buf: Vec<u8>)
    requires
        res.allocatable(),
    ensures
        buf@ == repeated(color.bytes(), res.area() as nat),
        buf@.len() == res.byte_len(),
{
    let area: u32 = res.size();
    let word: u32 = color.to_u32();
    let mut buf: Vec<u8> = Vec::new();
    let mut i: u32 = 0;
    while i < area
        invariant
            i <= area,
            word == color.packed(),
            buf@ == repeated(color.bytes(), i as nat),
        decreases area - i,
    {
        write_u32_le(&mut buf, word);
        proof {
            lemma_packed_bytes(color);
        }
        i = i + 1;
    }
    proof {
        let pixel = color.bytes();
        lemma_repeated_len(pixel, area as nat);
        assert((area as nat) * pixel.len() == 4 * area) by (nonlinear_arith)
            requires
                pixel.len() == 4,
        ;
    }
    buf
}

impl Window {
    /// Allocates the buffer that holds the surface data of an output with
    /// resolution `res`, fills it with opaque black and queues the requests
    /// that show it fullscreen.
    pub fn new(res: Resolution) -> (window: Self)
        requires
            res.allocatable(),
        ensures
            window@.wf(),
            window@.buffer.len() == 4 * (res.w * res.h),
            window@ == (WindowView {
                buffer: repeated(Color::solid(0, 0, 0).bytes(), res.area() as nat),
                resolution: res,
                requests: creation(res),
            }),
    {
        let black: Color = 0x000000.into();
        let buffer = filled(black, res);
        let mut requests: Vec<SurfaceRequest> = Vec::new();
        requests.push(allocation_of(res));
        requests.push(SurfaceRequest::SetFullscreen);
        requests.push(SurfaceRequest::Attach { x: 0, y: 0 });
        requests.push(SurfaceRequest::Commit);
        assert(requests@ =~= creation(res));
        Window { buffer, resolution: res, requests }
    }

    /// Allocates the window of an output with resolution `res` if a buffer
    /// can be allocated for it, see [`Window::new`]. A resolution without
    /// pixels, or one too large for the protocol, gives no window.
    pub fn try_new(res: Resolution) -> (window: Option<Self>)
        ensures
            window is Some <==> res.allocatable(),
            window matches Some(window) ==> window@.wf() && window@ == (WindowView {
                buffer: repeated(Color::solid(0, 0, 0).bytes(), res.area() as nat),
                resolution: res,
                requests: creation(res),
            }),
    {
        if res.can_allocate() {
            Some(Window::new(res))
        } else {
            None
        }
    }

    /// Contents of the backing region.
    pub fn bytes(&self) -> (bytes: &[u8])
        ensures
            bytes@ == self@.buffer,
    {
        self.buffer.as_slice()
    }

    /// Resolution the buffer was last written for.
    pub fn resolution(&self) -> (res: Resolution)
        ensures
            res == self@.resolution,
    {
        self.resolution
    }

    /// Hands out the queued requests, oldest first, and empties the queue.
    pub fn take_requests(&mut self) -> (requests: Vec<SurfaceRequest>)
        ensures
            requests@ == old(self)@.requests,
            final(self)@ == (WindowView { requests: Seq::empty(), ..old(self)@ }),
    {
        let mut requests: Vec<SurfaceRequest> = Vec::new();
        core::mem::swap(&mut self.requests, &mut requests);
        requests
    }

    /// Replaces the whole buffer by `bytes`, the pixels of a frame of
    /// resolution `res`, and queues the requests that make it visible.
    pub fn write_bytes(&mut self, res: Resolution, bytes: &[u8])
        requires
            res.allocatable(),
            bytes@.len() == res.byte_len(),
        ensures
            final(self)@.wf(),
            final(self)@ == old(self)@.published(res, bytes@),
    {
        self.buffer = slice_to_vec(bytes);
        self.publish(res);
    }

    /// Updates the buffer to have the given color in every pixel, whatever
    /// it held before, and queues the requests that make it visible.
    pub fn update_color(&mut self, color: Color, res: Resolution)
        requires
            res.allocatable(),
        ensures
            final(self)@.wf(),
            final(self)@ == old(self)@.published(
                res,
                repeated(color.bytes(), res.area() as nat),
            ),
    {
        self.buffer = filled(color, res);
        self.publish(res);
    }

    /// Answers a liveness check of the display server: queues a pong with
    /// the serial of the ping.
    pub fn ping(&mut self, serial: u32)
        ensures
            final(self)@ == (WindowView {
                requests: old(self)@.requests.push(SurfaceRequest::Pong { serial }),
                ..old(self)@
            }),
    {
        self.requests.push(SurfaceRequest::Pong { serial });
    }

    /// Records that the buffer now holds a frame of resolution `res` and
    /// queues its publication.
    fn publish(&mut self, res: Resolution)
        requires
            res.allocatable(),
        ensures
            final(self)@ == old(self)@.published(res, old(self)@.buffer),
    {
        proof {
            lemma_allocatable_sides(res);
        }
        if !(self.resolution.w == res.w && self.resolution.h == res.h) {
            self.requests.push(allocation_of(res));
        }
        self.requests.push(
            SurfaceRequest::Damage { x: 0, y: 0, width: res.w as i32, height: res.h as i32 },
        );
        self.requests.push(SurfaceRequest::Attach { x: 0, y: 0 });
        self.requests.push(SurfaceRequest::Commit);
        self.resolution = res;
        assert(self.requests@ =~= old(self)@.requests + publication(old(self)@.resolution, res));
    }
}

/// Geometry of the buffer for `res`, in the signed sizes of the protocol.
fn allocation_of(res: Resolution) -> (request: SurfaceRequest)
    requires
        res.allocatable(),
    ensures
        request == allocation(res),
{
    proof {
        lemma_allocatable_sides(res);
    }
    let area: u32 = res.size();
    SurfaceRequest::CreateBuffer {
        size: (area * 4) as i32,
        width: res.w as i32,
        height: res.h as i32,
        stride: (res.w * 4) as i32,
    }
}

} // verus!
