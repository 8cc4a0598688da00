//! The pixel surface: an owned, row-major buffer of three bytes per pixel.

use vstd::prelude::*;
use crate::types::Color;

verus! {

/// Byte offset of the pixel in column `x` of row `y` on a surface `width`
/// pixels wide.
pub open spec fn pixel_offset(width: int, x: int, y: int) -> int {
    (x + y * width) * 3
}

/// Number of bytes in the buffer of a `width` by `height` surface.
pub open spec fn buffer_len(width: int, height: int) -> int {
    width * height * 3
}

/// A rectangular buffer of packed red, green and blue bytes.
///
/// The buffer always holds exactly `width * height * 3` bytes; the pixel in
/// column `x` of row `y` starts at byte `(x + y * width) * 3`.
pub struct PixelSurface {
    width: u32,
    height: u32,
    bytes: Vec<u8>,
}

impl View for PixelSurface {
    type V = Seq<u8>;

    /// The bytes of the buffer, row by row.
    closed spec fn view(&self) -> Seq<u8> {
        self.bytes@
    }
}

impl PixelSurface {
    /// Width in pixels.
    pub closed spec fn spec_width(&self) -> int {
        self.width as int
    }

    /// Height in pixels.
    pub closed spec fn spec_height(&self) -> int {
        self.height as int
    }

    /// Whether `(x, y)` names a pixel of this surface.
    pub open spec fn contains(&self, x: int, y: int) -> bool {
        0 <= x < self.spec_width() && 0 <= y < self.spec_height()
    }

    /// The three stored channels of the pixel at `(x, y)`.
    pub open spec fn pixel(&self, x: int, y: int) -> (u8, u8, u8) {
        let at = pixel_offset(self.spec_width(), x, y);
        (self@[at], self@[at + 1], self@[at + 2])
    }

    /// Same dimensions as `other`, and a buffer of the same length.
    pub open spec fn same_size(&self, other: &PixelSurface) -> bool {
        &&& self.spec_width() == other.spec_width()
        &&& self.spec_height() == other.spec_height()
        &&& self@.len() == other@.len()
    }

    /// Whether the buffer has the length that the dimensions give. Every
    /// surface that executable code holds is well formed.
    #[verifier::type_invariant]
    pub closed spec fn wf(&self) -> bool {
        self.bytes@.len() == buffer_len(self.width as int, self.height as int)
    }

    /// Whether every pixel of this surface holds what `other` holds there.
    pub open spec fn same_pixels(&self, other: &PixelSurface) -> bool {
        &&& self.same_size(other)
        &&& forall|x: int, y: int|
            self.contains(x, y) ==> #[trigger] self.pixel(x, y) == other.pixel(x, y)
    }

    /// Whether this surface is `before` with the pixel at `(x, y)` set to
    /// `color` and nothing else touched.
    pub open spec fn is_plot_of(&self, before: &PixelSurface, x: int, y: int, color: Color) -> bool {
        &&& self.same_size(before)
        &&& forall|px: int, py: int|
            self.contains(px, py) ==> #[trigger] self.pixel(px, py) == if px == x && py == y {
                color.rgb()
            } else {
                before.pixel(px, py)
            }
    }

    /// Allocates a surface with every byte set to `fill`. There is no surface
    /// whose buffer length does not fit the address space.
    pub fn new(width: u32, height: u32, fill: u8) -> (made: Option<PixelSurface>)
        ensures
            made.is_some() <==> buffer_len(width as int, height as int) <= usize::MAX,
            made matches Some(s) ==> {
                &&& s.wf()
                &&& s.spec_width() == width
                &&& s.spec_height() == height
                &&& s@ == Seq::new(buffer_len(width as int, height as int) as nat, |i: int| fill)
            },
    {
        assert(0 <= width as int * height as int <= 0xffff_ffff * 0xffff_ffff) by (nonlinear_arith)
            requires
                0 <= width <= 0xffff_ffff,
                0 <= height <= 0xffff_ffff,
        ;
        let pixels: u128 = (width as u128) * (height as u128);
        let len: u128 = pixels * 3;
        if len > usize::MAX as u128 {
            return None;
        }
        let bytes: Vec<u8> = vec![fill; len as usize];
        Some(PixelSurface { width, height, bytes })
    }

    /// Takes `bytes` as the buffer of a surface of the given size. There is
    /// no such surface unless `bytes` holds three bytes for each pixel.
    pub fn from_bytes(width: u32, height: u32, bytes: Vec<u8>) -> (made: Option<PixelSurface>)
        ensures
            made.is_some() <==> bytes@.len() == buffer_len(width as int, height as int),
            made matches Some(s) ==> {
                &&& s.wf()
                &&& s.spec_width() == width
                &&& s.spec_height() == height
                &&& s@ == bytes@
            },
    {
        assert(0 <= width as int * height as int <= 0xffff_ffff * 0xffff_ffff) by (nonlinear_arith)
            requires
                0 <= width <= 0xffff_ffff,
                0 <= height <= 0xffff_ffff,
        ;
        let len: u128 = (width as u128) * (height as u128) * 3;
        if bytes.len() as u128 != len {
            return None;
        }
        Some(PixelSurface { width, height, bytes })
    }

    /// A surface without pixels.
    pub fn empty() -> (s: PixelSurface)
        ensures
            s.wf(),
            s.spec_width() == 0,
            s.spec_height() == 0,
            s@ == Seq::<u8>::empty(),
    {
        PixelSurface { width: 0, height: 0, bytes: Vec::new() }
    }

    /// Width in pixels.
    pub fn width(&self) -> (w: u32)
        ensures
            w == self.spec_width(),
            self.wf(),
    {
        proof {
            use_type_invariant(self);
        }
        self.width
    }

    /// Height in pixels.
    pub fn height(&self) -> (h: u32)
        ensures
            h == self.spec_height(),
            self.wf(),
    {
        proof {
            use_type_invariant(self);
        }
        self.height
    }

    /// The raw buffer, for presentation.
    pub fn bytes(&self) -> (raw: &[u8])
        ensures
            raw@ == self@,
            self.wf(),
    {
        proof {
            use_type_invariant(self);
        }
        self.bytes.as_slice()
    }

    /// Reads the pixel at `(x, y)`, or nothing where the surface has no such
    /// pixel.
    pub fn get_pixel(&self, x: u32, y: u32) -> (found: Option<(u8, u8, u8)>)
        ensures
            found == if self.contains(x as int, y as int) {
                Some(self.pixel(x as int, y as int))
            } else {
                None::<(u8, u8, u8)>
            },
    {
        if x >= self.width || y >= self.height {
            return None;
        }
        proof {
            use_type_invariant(self);
            lemma_offset_in_buffer(self.width as int, self.height as int, x as int, y as int);
            assert(self.bytes.len() <= usize::MAX);
        }
        let at: usize = (x as usize + y as usize * self.width as usize) * 3;
        Some((self.bytes[at], self.bytes[at + 1], self.bytes[at + 2]))
    }

    /// Overwrites the whole buffer with `bytes`, which has to be as long.
    pub fn copy_from(&mut self, bytes: &Vec<u8>)
        requires
            bytes@.len() == old(self)@.len(),
        ensures
            final(self).wf(),
            final(self).same_size(old(self)),
            final(self)@ == bytes@,
    {
        proof {
            use_type_invariant(&*self);
        }
        let ghost before = *self;
        let len = self.bytes.len();
        let mut i: usize = 0;
        while i < len
            invariant
                i <= len,
                len == bytes@.len(),
                self.width == before.width,
                self.height == before.height,
                self.bytes@.len() == len,
                before.bytes@.len() == len,
                self.wf(),
                forall|j: int| 0 <= j < i ==> self.bytes@[j] == bytes@[j],
            decreases len - i,
        {
            self.bytes[i] = bytes[i];
            i = i + 1;
        }
        assert(self.bytes@ =~= bytes@);
    }

    /// Writes `color` to the pixel at `(x, y)`.
    pub fn set_pixel(&mut self, x: u32, y: u32, color: Color)
        requires
            old(self).contains(x as int, y as int),
        ensures
            final(self).wf(),
            final(self).is_plot_of(old(self), x as int, y as int, color),
    {
        proof {
            use_type_invariant(&*self);
            lemma_offset_in_buffer(self.width as int, self.height as int, x as int, y as int);
            assert(self.bytes.len() <= usize::MAX);
        }
        let ghost before = *self;
        let at: usize = (x as usize + y as usize * self.width as usize) * 3;
        self.bytes[at] = color.r;
        self.bytes[at + 1] = color.g;
        self.bytes[at + 2] = color.b;
        proof {
            assert forall|px: int, py: int| self.contains(px, py) implies #[trigger] self.pixel(
                px,
                py,
            ) == if px == x && py == y {
                color.rgb()
            } else {
                before.pixel(px, py)
            } by {
                lemma_offset_in_buffer(self.width as int, self.height as int, px, py);
                if !(px == x && py == y) {
                    lemma_offsets_apart(self.width as int, px, py, x as int, y as int);
                }
            }
        }
    }
}

/// The buffer of a well-formed surface holds three bytes for each pixel.
pub proof fn lemma_buffer_len(surface: &PixelSurface)
    requires
        surface.wf(),
    ensures
        surface@.len() == buffer_len(surface.spec_width(), surface.spec_height()),
{
}

/// The three bytes of a pixel of the surface lie inside its buffer.
pub proof fn lemma_offset_in_buffer(width: int, height: int, x: int, y: int)
    requires
        0 <= x < width,
        0 <= y < height,
    ensures
        0 <= x + y * width < width * height,
        0 <= y * width <= pixel_offset(width, x, y),
        pixel_offset(width, x, y) + 3 <= buffer_len(width, height),
{
    assert(0 <= y * width && x + y * width <= width * height - 1) by (nonlinear_arith)
        requires
            0 <= x < width,
            0 <= y < height,
    ;
}

/// Two different pixels of a row-major buffer share no byte.
pub proof fn lemma_offsets_apart(width: int, x1: int, y1: int, x2: int, y2: int)
    requires
        0 <= x1 < width,
        0 <= x2 < width,
        0 <= y1,
        0 <= y2,
        x1 != x2 || y1 != y2,
    ensures
        pixel_offset(width, x1, y1) + 3 <= pixel_offset(width, x2, y2) || pixel_offset(
            width,
            x2,
            y2,
        ) + 3 <= pixel_offset(width, x1, y1),
{
    assert(x1 + y1 * width != x2 + y2 * width) by (nonlinear_arith)
        requires
            0 <= x1 < width,
            0 <= x2 < width,
            x1 != x2 || y1 != y2,
    ;
}

/// Two well-formed surfaces that agree on every pixel hold the same bytes.
pub proof fn lemma_same_pixels_same_bytes(a: &PixelSurface, b: &PixelSurface)
    requires
        a.wf(),
        b.wf(),
        a.same_pixels(b),
    ensures
        a@ == b@,
{
    let w = a.spec_width();
    let h = a.spec_height();
    assert forall|i: int| 0 <= i < a@.len() implies a@[i] == b@[i] by {
        let q = i / 3;
        assert(w > 0) by (nonlinear_arith)
            requires
                w >= 0,
                w * h > 0,
        ;
        let y = q / w;
        let x = q % w;
        assert(0 <= x < w && 0 <= y < h && q == x + y * w) by (nonlinear_arith)
            requires
                0 <= q < w * h,
                w > 0,
                y == q / w,
                x == q % w,
        ;
        assert(a.pixel(x, y) == b.pixel(x, y));
    }
    assert(a@ =~= b@);
}

} // verus!
