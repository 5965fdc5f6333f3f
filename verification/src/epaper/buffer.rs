//! The packed framebuffer: one full panel frame at 4 bits per pixel, two
//! pixels per byte, with an optional 180-degree rotation applied at write
//! time.
//!
//! Layout: the pixel at logical coordinate `(x, y)` lives in the byte at
//! `(x + y * width) / 2`, in the high nibble when its physical `x` is even and
//! in the low nibble when it is odd. Writes outside the panel are discarded,
//! never an error, so primitive renderers may draw past the frame edge.

use vstd::prelude::*;
use vstd::pervasive::VecAdditionalExecFns;

use crate::epaper::{spec_from_rgb888, Color, Rgb888};
use crate::{EPD_7IN3F_HEIGHT, EPD_7IN3F_IMAGE_SIZE, EPD_7IN3F_WIDTH};

verus! {

/// One pixel as a content generator emits it: a logical coordinate (possibly
/// outside the panel) and a full 24-bit color.
#[derive(Clone, Copy, Debug, PartialEq, Eq, Structural)]
pub struct Pixel {
    pub x: i32,
    pub y: i32,
    pub color: Rgb888,
}

/// Whether a logical coordinate lies on the panel.
pub open spec fn in_bounds(x: int, y: int) -> bool {
    &&& 0 <= x < EPD_7IN3F_WIDTH
    &&& 0 <= y < EPD_7IN3F_HEIGHT
}

/// The physical coordinate a logical coordinate is stored at: the same point,
/// or the point reflected through the panel center when rotation is enabled.
pub open spec fn physical(rotate: bool, x: int, y: int) -> (int, int) {
    if rotate {
        (EPD_7IN3F_WIDTH - 1 - x, EPD_7IN3F_HEIGHT - 1 - y)
    } else {
        (x, y)
    }
}

/// The index of the byte holding the pixel at physical coordinate `(px, py)`.
pub open spec fn byte_index(px: int, py: int) -> int {
    (px + py * EPD_7IN3F_WIDTH) / 2
}

/// A byte with one of its two pixel nibbles replaced by `idx`.
pub open spec fn packed_byte(b: u8, high_nibble: bool, idx: u8) -> u8 {
    if high_nibble {
        ((idx << 4) & 0xF0) | (b & 0x0F)
    } else {
        (b & 0xF0) | (idx & 0x0F)
    }
}

/// The frame contents after writing palette index `idx` at logical `(x, y)`:
/// unchanged when the coordinate is off the panel, otherwise the one byte
/// holding that pixel has the matching nibble replaced.
pub open spec fn spec_set_pixel(bytes: Seq<u8>, rotate: bool, x: int, y: int, idx: u8) -> Seq<u8> {
    if in_bounds(x, y) {
        let (px, py) = physical(rotate, x, y);
        let i = byte_index(px, py);
        bytes.update(i, packed_byte(bytes[i], px % 2 == 0, idx))
    } else {
        bytes
    }
}

/// The palette index stored for the pixel at logical `(x, y)`.
pub open spec fn spec_pixel_at(bytes: Seq<u8>, rotate: bool, x: int, y: int) -> u8
    recommends
        in_bounds(x, y),
{
    let (px, py) = physical(rotate, x, y);
    let i = byte_index(px, py);
    if px % 2 == 0 {
        bytes[i] >> 4
    } else {
        bytes[i] & 0x0F
    }
}

/// The frame contents after drawing a whole sequence of full-color pixels in
/// order: each is reduced to the palette and packed as in [`spec_set_pixel`].
pub open spec fn spec_draw_iter(bytes: Seq<u8>, rotate: bool, pixels: Seq<Pixel>) -> Seq<u8>
    decreases pixels.len(),
{
    if pixels.len() == 0 {
        bytes
    } else {
        let p = pixels[0];
        let written = spec_set_pixel(
            bytes,
            rotate,
            p.x as int,
            p.y as int,
            spec_from_rgb888(p.color).spec_index(),
        );
        spec_draw_iter(written, rotate, pixels.drop_first())
    }
}

/// One full frame in the panel's packed pixel format, plus the rotation flag
/// chosen once at startup for how the panel is mounted.
pub struct DisplayBuffer {
    frame_buffer: Vec<u8>,
    rotate_180: bool,
}

impl DisplayBuffer {
    /// The packed bytes of the frame.
    pub closed spec fn bytes(self) -> Seq<u8> {
        self.frame_buffer@
    }

    /// Whether writes go through the 180-degree rotation transform.
    pub closed spec fn rotated(self) -> bool {
        self.rotate_180
    }

    /// A well-formed buffer holds exactly one full frame.
    pub open spec fn wf(self) -> bool {
        self.bytes().len() == EPD_7IN3F_IMAGE_SIZE
    }

    /// Allocates one zeroed frame. The rotation flag is decided once here,
    /// so the same content generators work however the panel is mounted.
    pub fn new(rotate_180: bool) -> (r: DisplayBuffer)
        ensures
            r.wf(),
            r.rotated() == rotate_180,
            forall|i: int| 0 <= i < EPD_7IN3F_IMAGE_SIZE ==> r.bytes()[i] == 0u8,
    {
        let mut frame_buffer: Vec<u8> = Vec::new();
        let mut n: usize = 0;
        while n < EPD_7IN3F_IMAGE_SIZE
            invariant
                n == frame_buffer@.len(),
                n <= EPD_7IN3F_IMAGE_SIZE,
                forall|i: int| 0 <= i < n ==> frame_buffer@[i] == 0u8,
            decreases EPD_7IN3F_IMAGE_SIZE - n,
        {
            frame_buffer.push(0u8);
            n = n + 1;
        }
        DisplayBuffer { frame_buffer, rotate_180 }
    }

    /// Writes one palette index at logical `(x, y)`, honoring rotation.
    /// Out-of-range coordinates are a no-op.
    pub fn set_pixel(&mut self, x: usize, y: usize, color: Color)
        requires
            old(self).wf(),
        ensures
            final(self).wf(),
            final(self).rotated() == old(self).rotated(),
            final(self).bytes() == spec_set_pixel(
                old(self).bytes(),
                old(self).rotated(),
                x as int,
                y as int,
                color.spec_index(),
            ),
    {
        if x >= EPD_7IN3F_WIDTH || y >= EPD_7IN3F_HEIGHT {
            return;
        }
        let (px, py) = if self.rotate_180 {
            (EPD_7IN3F_WIDTH - 1 - x, EPD_7IN3F_HEIGHT - 1 - y)
        } else {
            (x, y)
        };
        let index = (px + py * EPD_7IN3F_WIDTH) / 2;
        let idx = color.index();
        let b = self.frame_buffer[index];
        let packed = if px % 2 == 0 {
            ((idx << 4) & 0xF0) | (b & 0x0F)
        } else {
            (b & 0xF0) | (idx & 0x0F)
        };
        self.frame_buffer.set(index, packed);
    }

    /// Reads back the palette index stored for logical `(x, y)`.
    pub fn get_pixel(&self, x: usize, y: usize) -> (r: u8)
        requires
            self.wf(),
            x < EPD_7IN3F_WIDTH,
            y < EPD_7IN3F_HEIGHT,
        ensures
            r == spec_pixel_at(self.bytes(), self.rotated(), x as int, y as int),
    {
        let (px, py) = if self.rotate_180 {
            (EPD_7IN3F_WIDTH - 1 - x, EPD_7IN3F_HEIGHT - 1 - y)
        } else {
            (x, y)
        };
        let index = (px + py * EPD_7IN3F_WIDTH) / 2;
        let b = self.frame_buffer[index];
        if px % 2 == 0 {
            b >> 4
        } else {
            b & 0x0F
        }
    }

    /// Draws a finite sequence of full-color pixels: the generic draw-target
    /// contract every content generator renders through. Each pixel is
    /// rotated, discarded if off the panel, else reduced to the palette and
    /// packed exactly as in [`Self::set_pixel`].
    pub fn draw_iter(&mut self, pixels: &[Pixel])
        requires
            old(self).wf(),
        ensures
            final(self).wf(),
            final(self).rotated() == old(self).rotated(),
            final(self).bytes() == spec_draw_iter(old(self).bytes(), old(self).rotated(), pixels@),
    {
        let ghost bytes0 = self.bytes();
        let ghost rot = self.rotated();
        proof {
            assert(pixels@.skip(0) =~= pixels@);
        }
        let n = pixels.len();
        let mut k: usize = 0;
        while k < n
            invariant
                k <= n,
                n == pixels@.len(),
                self.wf(),
                self.rotated() == rot,
                spec_draw_iter(bytes0, rot, pixels@) == spec_draw_iter(
                    self.bytes(),
                    rot,
                    pixels@.skip(k as int),
                ),
            decreases n - k,
        {
            let p = pixels[k];
            let ghost pre = self.bytes();
            if p.x >= 0 && p.y >= 0 && (p.x as usize) < EPD_7IN3F_WIDTH && (p.y as usize)
                < EPD_7IN3F_HEIGHT {
                let c = Color::from_rgb888(p.color);
                self.set_pixel(p.x as usize, p.y as usize, c);
            }
            proof {
                assert(pixels@.skip(k as int)[0] == p);
                assert(self.bytes() == spec_set_pixel(
                    pre,
                    rot,
                    p.x as int,
                    p.y as int,
                    spec_from_rgb888(p.color).spec_index(),
                ));
                assert(pixels@.skip(k as int).drop_first() =~= pixels@.skip(k + 1));
            }
            k = k + 1;
        }
        proof {
            assert(pixels@.skip(n as int) =~= Seq::<Pixel>::empty());
        }
    }

    /// Copies out the packed bytes of one physical row, as the protocol
    /// driver streams them to the panel.
    pub fn row_bytes(&self, y: usize) -> (r: Vec<u8>)
        requires
            self.wf(),
            y < EPD_7IN3F_HEIGHT,
        ensures
            r@ == self.bytes().subrange(
                y as int * (EPD_7IN3F_WIDTH / 2),
                y as int * (EPD_7IN3F_WIDTH / 2) + (EPD_7IN3F_WIDTH / 2),
            ),
    {
        let offset = y * (EPD_7IN3F_WIDTH / 2);
        proof {
            assert(y * 400 <= 479 * 400) by (nonlinear_arith)
                requires
                    y <= 479,
            ;
        }
        let mut r: Vec<u8> = Vec::new();
        let mut k: usize = 0;
        while k < EPD_7IN3F_WIDTH / 2
            invariant
                k <= EPD_7IN3F_WIDTH / 2,
                offset == y * (EPD_7IN3F_WIDTH / 2),
                offset + (EPD_7IN3F_WIDTH / 2) <= EPD_7IN3F_IMAGE_SIZE,
                y < EPD_7IN3F_HEIGHT,
                self.wf(),
                r@.len() == k,
                forall|i: int| 0 <= i < k ==> r@[i] == self.bytes()[offset + i],
            decreases EPD_7IN3F_WIDTH / 2 - k,
        {
            assert(offset + k < EPD_7IN3F_IMAGE_SIZE);
            r.push(self.frame_buffer[offset + k]);
            k = k + 1;
        }
        proof {
            assert(r@ =~= self.bytes().subrange(
                y as int * (EPD_7IN3F_WIDTH / 2),
                y as int * (EPD_7IN3F_WIDTH / 2) + (EPD_7IN3F_WIDTH / 2),
            ));
        }
        r
    }

    /// Reports the drawable area: the full panel, anchored at the origin.
    /// Rotation is a presentation transform only and does not change the
    /// logical size reported here.
    pub fn bounding_box(&self) -> (r: ((i32, i32), (u32, u32)))
        ensures
            r == (((0i32, 0i32), (800u32, 480u32))),
    {
        ((0i32, 0i32), (800u32, 480u32))
    }

    /// Overwrites the whole frame with one palette color in both nibbles of
    /// every byte.
    pub fn fill(&mut self, color: Color)
        requires
            old(self).wf(),
        ensures
            final(self).wf(),
            final(self).rotated() == old(self).rotated(),
            forall|i: int|
                0 <= i < EPD_7IN3F_IMAGE_SIZE ==> final(self).bytes()[i] == (
                (color.spec_index() << 4) | color.spec_index()),
    {
        let idx = color.index();
        let b = (idx << 4) | idx;
        let mut k: usize = 0;
        while k < EPD_7IN3F_IMAGE_SIZE
            invariant
                k <= EPD_7IN3F_IMAGE_SIZE,
                self.wf(),
                self.rotated() == old(self).rotated(),
                b == (color.spec_index() << 4) | color.spec_index(),
                forall|i: int| 0 <= i < k ==> self.bytes()[i] == b,
            decreases EPD_7IN3F_IMAGE_SIZE - k,
        {
            self.frame_buffer.set(k, b);
            k = k + 1;
        }
    }
}

/// Writing a pixel and reading it back yields exactly the written palette
/// index, honoring the configured rotation.
pub proof fn lemma_set_pixel_readback(bytes: Seq<u8>, rotate: bool, x: int, y: int, idx: u8)
    requires
        bytes.len() == EPD_7IN3F_IMAGE_SIZE,
        in_bounds(x, y),
        idx < 16,
    ensures
        spec_pixel_at(spec_set_pixel(bytes, rotate, x, y, idx), rotate, x, y) == idx,
{
    let (px, py) = physical(rotate, x, y);
    let i = byte_index(px, py);
    assert(0 <= px < EPD_7IN3F_WIDTH && 0 <= py < EPD_7IN3F_HEIGHT);
    assert(px + py * EPD_7IN3F_WIDTH < EPD_7IN3F_WIDTH * EPD_7IN3F_HEIGHT) by {
        assert(py * 800 <= 479 * 800) by (nonlinear_arith)
            requires
                py <= 479,
        ;
    }
    assert(0 <= i < EPD_7IN3F_IMAGE_SIZE);
    let b = bytes[i];
    if px % 2 == 0 {
        assert(idx < 16 ==> (((idx << 4) & 0xF0) | (b & 0x0F)) >> 4 == idx) by (bit_vector);
    } else {
        assert(idx < 16 ==> ((b & 0xF0) | (idx & 0x0F)) & 0x0F == idx) by (bit_vector);
    }
}

/// Pixels on different physical rows are stored in different bytes, because
/// each row occupies its own run of `width / 2` bytes.
proof fn lemma_distinct_rows_distinct_bytes(px_a: int, py_a: int, px_b: int, py_b: int)
    requires
        0 <= px_a < EPD_7IN3F_WIDTH,
        0 <= px_b < EPD_7IN3F_WIDTH,
        0 <= py_a,
        0 <= py_b,
        py_a != py_b,
    ensures
        byte_index(px_a, py_a) != byte_index(px_b, py_b),
{
    if py_a < py_b {
        assert((px_a + py_a * 800) / 2 <= py_a * 400 + 399);
        assert((px_b + py_b * 800) / 2 >= py_b * 400);
        assert(py_a * 400 + 400 <= py_b * 400) by (nonlinear_arith)
            requires
                py_a + 1 <= py_b,
        ;
    } else {
        assert((px_b + py_b * 800) / 2 <= py_b * 400 + 399);
        assert((px_a + py_a * 800) / 2 >= py_a * 400);
        assert(py_b * 400 + 400 <= py_a * 400) by (nonlinear_arith)
            requires
                py_b + 1 <= py_a,
        ;
    }
}

/// Rotation round-trip: with rotation enabled, writing at `(x, y)` and then
/// at the rotated counterpart `(width-1-x, height-1-y)` never corrupts the
/// first write. The two writes always land in different bytes: their physical
/// rows are `height-1-y` and `y`, which can never coincide because the panel
/// height is even.
pub proof fn lemma_rotation_round_trip(bytes: Seq<u8>, x: int, y: int, c1: u8, c2: u8)
    requires
        bytes.len() == EPD_7IN3F_IMAGE_SIZE,
        in_bounds(x, y),
        c1 < 16,
    ensures
        ({
            let first = spec_set_pixel(bytes, true, x, y, c1);
            let second = spec_set_pixel(
                first,
                true,
                EPD_7IN3F_WIDTH - 1 - x,
                EPD_7IN3F_HEIGHT - 1 - y,
                c2,
            );
            spec_pixel_at(second, true, x, y) == c1
        }),
{
    lemma_set_pixel_readback(bytes, true, x, y, c1);
    let first = spec_set_pixel(bytes, true, x, y, c1);
    let second = spec_set_pixel(
        first,
        true,
        EPD_7IN3F_WIDTH - 1 - x,
        EPD_7IN3F_HEIGHT - 1 - y,
        c2,
    );
    // The first write and the read-back use physical (width-1-x, height-1-y);
    // the second write uses physical (x, y).
    lemma_distinct_rows_distinct_bytes(EPD_7IN3F_WIDTH - 1 - x, EPD_7IN3F_HEIGHT - 1 - y, x, y);
    assert(second[byte_index(EPD_7IN3F_WIDTH - 1 - x, EPD_7IN3F_HEIGHT - 1 - y)] == first[
        byte_index(EPD_7IN3F_WIDTH - 1 - x, EPD_7IN3F_HEIGHT - 1 - y)]);
}

/// A pixel outside the panel leaves the frame untouched: the draw contract
/// silently discards it.
pub proof fn lemma_out_of_bounds_noop(bytes: Seq<u8>, rotate: bool, p: Pixel)
    requires
        !in_bounds(p.x as int, p.y as int),
    ensures
        spec_draw_iter(bytes, rotate, seq![p]) == bytes,
{
    reveal_with_fuel(spec_draw_iter, 2);
    let s = seq![p];
    assert(s.len() == 1 && s[0] == p);
    assert(spec_set_pixel(bytes, rotate, p.x as int, p.y as int,
        spec_from_rgb888(p.color).spec_index()) == bytes);
    assert(s.drop_first() =~= Seq::<Pixel>::empty());
}

} // verus!
