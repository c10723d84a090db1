//! An in-memory copy of a framebuffer and the writing of single pixels into it.
use vstd::prelude::*;

verus! {

/// The frame as the display expects it: `line_length` bytes per row, `bits_per_pixel / 8`
/// bytes per pixel, blue first.
pub struct PixelBuffer {
    pub width: u32,
    pub height: u32,
    pub bits_per_pixel: u32,
    pub line_length: u32,
    pub buffer: Vec<u8>,
}

/// Where pixel `(x, y)` starts in the buffer.
pub open spec fn pixel_offset(p: PixelBuffer, x: u32, y: u32) -> int {
    y as int * p.line_length as int + x as int * (p.bits_per_pixel / 8) as int
}

/// A pixel is written when it lies on the screen, its first four bytes lie in the buffer, and
/// the depth is 16, 24 or 32 bits.
pub open spec fn writes_pixel(p: PixelBuffer, x: u32, y: u32) -> bool {
    x < p.width && y < p.height && pixel_offset(p, x, y) + 3 < p.buffer@.len() && (
    p.bits_per_pixel == 32 || p.bits_per_pixel == 24 || p.bits_per_pixel == 16)
}

/// A colour packed as RGB565.
pub open spec fn rgb565(r: u8, g: u8, b: u8) -> u16 {
    (((r as u16) & 0xF8u16) << 8u16) | (((g as u16) & 0xFCu16) << 3u16) | (((b as u16) & 0xF8u16)
        >> 3u16)
}

/// The bytes that a pixel of colour `(r, g, b)` takes at the given depth.
pub open spec fn pixel_bytes(bpp: u32, r: u8, g: u8, b: u8) -> Seq<u8> {
    if bpp == 32 {
        seq![b, g, r, 255u8]
    } else if bpp == 24 {
        seq![b, g, r]
    } else {
        seq![(rgb565(r, g, b) & 0xFFu16) as u8, ((rgb565(r, g, b) >> 8u16) & 0xFFu16) as u8]
    }
}

impl PixelBuffer {
    /// Writes pixel `(x, y)` in colour `(r, g, b)`; a pixel off the screen or past the end of
    /// the buffer, or a depth other than 16, 24 or 32 bits, leaves the buffer as it was.
    pub fn put_pixel(&mut self, x: u32, y: u32, r: u8, g: u8, b: u8)
        ensures
            final(self).width == old(self).width,
            final(self).height == old(self).height,
            final(self).bits_per_pixel == old(self).bits_per_pixel,
            final(self).line_length == old(self).line_length,
            final(self).buffer@.len() == old(self).buffer@.len(),
            !writes_pixel(*old(self), x, y) ==> final(self).buffer@ == old(self).buffer@,
            writes_pixel(*old(self), x, y) ==> ({
                let o = pixel_offset(*old(self), x, y);
                let px = pixel_bytes(old(self).bits_per_pixel, r, g, b);
                &&& forall|k: int| 0 <= k < px.len() ==> #[trigger] final(self).buffer@[o + k] == px[k]
                &&& forall|i: int|
                    0 <= i < old(self).buffer@.len() && !(o <= i < o + px.len())
                        ==> #[trigger] final(self).buffer@[i] == old(self).buffer@[i]
            }),
    {
        if x >= self.width || y >= self.height {
            return;
        }
        let bytes_per_pixel = (self.bits_per_pixel / 8) as u128;
        let row = y as u128;
        let line = self.line_length as u128;
        let col = x as u128;
        proof {
            assert(row * line <= 0xFFFF_FFFFu128 * 0xFFFF_FFFFu128) by (nonlinear_arith)
                requires
                    row <= 0xFFFF_FFFFu128,
                    line <= 0xFFFF_FFFFu128,
            ;
            assert(col * bytes_per_pixel <= 0xFFFF_FFFFu128 * 0xFFFF_FFFFu128) by (nonlinear_arith)
                requires
                    col <= 0xFFFF_FFFFu128,
                    bytes_per_pixel <= 0xFFFF_FFFFu128,
            ;
        }
        let offset128 = row * line + col * bytes_per_pixel;
        proof {
            assert(offset128 == pixel_offset(*old(self), x, y));
        }
        if offset128 + 3 >= self.buffer.len() as u128 {
            return;
        }
        let offset = offset128 as usize;
        let bpp = self.bits_per_pixel;
        if bpp == 32 {
            self.buffer.set(offset, b);
            self.buffer.set(offset + 1, g);
            self.buffer.set(offset + 2, r);
            self.buffer.set(offset + 3, 255);
        } else if bpp == 24 {
            self.buffer.set(offset, b);
            self.buffer.set(offset + 1, g);
            self.buffer.set(offset + 2, r);
        } else if bpp == 16 {
            let v: u16 = (((r as u16) & 0xF8u16) << 8u16) | (((g as u16) & 0xFCu16) << 3u16) | (((
            b as u16) & 0xF8u16) >> 3u16);
            assert(v & 0xFFu16 <= 0xFFu16) by (bit_vector);
            assert((v >> 8u16) & 0xFFu16 <= 0xFFu16) by (bit_vector);
            self.buffer.set(offset, (v & 0xFFu16) as u8);
            self.buffer.set(offset + 1, ((v >> 8u16) & 0xFFu16) as u8);
        }
    }
}

} // verus!
