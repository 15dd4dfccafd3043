//! Layout of a raw video frame and single-pixel sampling.

use vstd::prelude::*;

verus! {

/// Raw video formats a frame may arrive in.
#[derive(Clone, Copy, Debug, PartialEq, Eq, Structural)]
pub enum VideoFormat {
    /// No format negotiated yet.
    Unknown,
    /// Planar YUV 4:2:0.
    I420,
    /// Packed red, green, blue, one padding byte.
    RGBx,
    /// Packed blue, green, red, one padding byte.
    BGRx,
    /// Packed red, green, blue, alpha.
    RGBA,
    /// Packed red, green, blue.
    RGB,
    /// Any other format, by its raw identifier.
    Other(u32),
}

/// One pixel as red, green, blue and alpha channels.
#[derive(Clone, Copy, Debug, PartialEq, Eq)]
pub struct Rgba(pub [u8; 4]);

/// A whole frame of pixels, row by row: pixel (`x`, `y`) is
/// `pixels[y * width + x]`.
#[derive(Clone, Debug)]
pub struct RgbaImage {
    pub width: u32,
    pub height: u32,
    pub pixels: Vec<Rgba>,
}

/// Layout of a raw video buffer.
#[derive(Clone, Debug)]
pub struct BufferContext {
    pub offset: usize,
    pub stride: i32,
    pub width: u32,
    pub height: u32,
    pub format: VideoFormat,
}

/// Bytes per pixel of the packed formats that can be sampled.
pub open spec fn format_bytes_per_pixel(format: VideoFormat) -> Option<usize> {
    match format {
        VideoFormat::RGB => Some(3usize),
        VideoFormat::RGBA | VideoFormat::RGBx | VideoFormat::BGRx => Some(4usize),
        _ => None,
    }
}

/// The magnitude of a row stride.
pub open spec fn stride_magnitude(stride: i32) -> nat {
    if stride < 0 {
        (-stride) as nat
    } else {
        stride as nat
    }
}

impl BufferContext {
    /// Byte distance between consecutive rows: the stride's magnitude, or
    /// tightly packed rows when the stride is zero.
    pub open spec fn spec_row_stride(&self, bpp: usize) -> nat {
        if self.stride == 0 {
            (self.width * bpp) as nat
        } else {
            stride_magnitude(self.stride)
        }
    }

    /// Stored row of logical row `y`: rows are stored bottom-up when the
    /// stride is negative (clamped at row 0), top-down otherwise.
    pub open spec fn spec_src_row(&self, y: u32) -> nat {
        if self.stride < 0 {
            if self.height - 1 - y < 0 {
                0
            } else {
                (self.height - 1 - y) as nat
            }
        } else {
            y as nat
        }
    }

    /// Index of the first byte of pixel (`x`, `y`) for `bpp` bytes per pixel.
    pub open spec fn pixel_index(&self, x: u32, y: u32, bpp: usize) -> int {
        self.offset + self.spec_src_row(y) * self.spec_row_stride(bpp) + x * bpp
    }

    /// Pixel (`x`, `y`) lies inside the frame.
    pub open spec fn in_frame(&self, x: u32, y: u32) -> bool {
        x < self.width && y < self.height
    }

    /// The index arithmetic for pixel (`x`, `y`) fits in a `usize`.
    pub open spec fn index_fits(&self, x: u32, y: u32) -> bool {
        self.in_frame(x, y) ==> match format_bytes_per_pixel(self.format) {
            Some(bpp) => {
                &&& (self.stride == 0 ==> self.width * bpp <= usize::MAX)
                &&& self.pixel_index(x, y, bpp) + bpp <= usize::MAX
            },
            None => true,
        }
    }

    /// The channels of pixel (`x`, `y`) read out of `bytes`, or `None` when
    /// the pixel is outside the frame, the format is not a packed one, or the
    /// pixel's bytes run past the end of `bytes`.
    pub open spec fn spec_sample(&self, bytes: Seq<u8>, x: u32, y: u32) -> Option<Seq<u8>> {
        if !self.in_frame(x, y) {
            None
        } else {
            match format_bytes_per_pixel(self.format) {
                None => None,
                Some(bpp) => {
                    let i = self.pixel_index(x, y, bpp);
                    if i + bpp > bytes.len() {
                        None
                    } else {
                        match self.format {
                            VideoFormat::RGBA => Some(seq![bytes[i], bytes[i + 1], bytes[i + 2], bytes[i + 3]]),
                            VideoFormat::BGRx => Some(seq![bytes[i + 2], bytes[i + 1], bytes[i], 255u8]),
                            _ => Some(seq![bytes[i], bytes[i + 1], bytes[i + 2], 255u8]),
                        }
                    }
                },
            }
        }
    }

    /// Every pixel of the frame can be sampled out of `bytes`.
    pub open spec fn frame_sampleable(&self, bytes: Seq<u8>) -> bool {
        forall|x: u32, y: u32|
            self.in_frame(x, y) ==> self.index_fits(x, y) && (#[trigger] self.spec_sample(bytes, x, y)) is Some
    }

    /// Number of bytes per pixel for the current format.
    pub fn bytes_per_pixel(&self) -> (r: Option<usize>)
        ensures
            r == format_bytes_per_pixel(self.format),
    {
        match self.format {
            VideoFormat::RGB => Some(3),
            VideoFormat::RGBA | VideoFormat::RGBx | VideoFormat::BGRx => Some(4),
            _ => None,
        }
    }

    /// Byte stride between consecutive rows.
    pub fn row_stride(&self, bpp: usize) -> (r: usize)
        requires
            self.stride == 0 ==> self.width * bpp <= usize::MAX,
        ensures
            r == self.spec_row_stride(bpp),
    {
        if self.stride == 0 {
            self.width as usize * bpp
        } else if self.stride < 0 {
            (-(self.stride as i64)) as usize
        } else {
            self.stride as usize
        }
    }

    /// Source buffer row index for logical row `y`.
    pub fn src_row(&self, y: u32) -> (r: usize)
        ensures
            r == self.spec_src_row(y),
    {
        if self.stride < 0 {
            self.height.saturating_sub(1).saturating_sub(y) as usize
        } else {
            y as usize
        }
    }

    /// Whether the index arithmetic of pixel (`x`, `y`) fits in a `usize`,
    /// as [`BufferContext::sample_pixel`] asks of its callers.
    pub fn index_in_range(&self, x: u32, y: u32) -> (r: bool)
        ensures
            r == self.index_fits(x, y),
    {
        if x >= self.width || y >= self.height {
            return true;
        }
        let bpp = match self.bytes_per_pixel() {
            Some(b) => b,
            None => return true,
        };
        if self.stride == 0 {
            match (self.width as usize).checked_mul(bpp) {
                Some(_) => {},
                None => return false,
            }
        }
        let row = self.src_row(y);
        let stride = self.row_stride(bpp);
        proof {
            vstd::arithmetic::mul::lemma_mul_nonnegative(row as int, stride as int);
            vstd::arithmetic::mul::lemma_mul_nonnegative(x as int, bpp as int);
        }
        let rows = match row.checked_mul(stride) {
            Some(v) => v,
            None => return false,
        };
        let cols = match (x as usize).checked_mul(bpp) {
            Some(v) => v,
            None => return false,
        };
        match self.offset.checked_add(rows) {
            Some(a) => match a.checked_add(cols) {
                Some(b) => match b.checked_add(bpp) {
                    Some(_) => true,
                    None => false,
                },
                None => false,
            },
            None => false,
        }
    }

    /// Read a single pixel without copying the entire buffer.
    pub fn sample_pixel(&self, bytes: &[u8], x: u32, y: u32) -> (r: Option<Rgba>)
        requires
            self.index_fits(x, y),
        ensures
            match r {
                Some(p) => self.spec_sample(bytes@, x, y) == Some(p.0@),
                None => self.spec_sample(bytes@, x, y) is None,
            },
    {
        if x >= self.width || y >= self.height {
            return None;
        }
        let bpp = match self.bytes_per_pixel() {
            Some(b) => b,
            None => return None,
        };
        let row = self.src_row(y);
        let stride = self.row_stride(bpp);
        proof {
            vstd::arithmetic::mul::lemma_mul_nonnegative(row as int, stride as int);
            vstd::arithmetic::mul::lemma_mul_nonnegative(x as int, bpp as int);
        }
        let idx = self.offset + row * stride + x as usize * bpp;
        if idx + bpp > bytes.len() {
            return None;
        }
        let out = match self.format {
            VideoFormat::RGB | VideoFormat::RGBx => Rgba([bytes[idx], bytes[idx + 1], bytes[idx + 2], 255]),
            VideoFormat::RGBA => Rgba([bytes[idx], bytes[idx + 1], bytes[idx + 2], bytes[idx + 3]]),
            _ => Rgba([bytes[idx + 2], bytes[idx + 1], bytes[idx], 255]),
        };
        assert(out.0@ =~= self.spec_sample(bytes@, x, y).unwrap());
        Some(out)
    }
}

impl BufferContext {
    /// `pixels` holds, at the row-major position of pixel (`x`, `y`), what
    /// is sampled there, and that pixel's index fits in a `usize`.
    pub open spec fn holds_sample(&self, pixels: Seq<Rgba>, bytes: Seq<u8>, x: u32, y: u32) -> bool {
        &&& self.index_fits(x, y)
        &&& 0 <= y * self.width + x < pixels.len()
        &&& Some(pixels[y * self.width + x].0@) == self.spec_sample(bytes, x, y)
    }

    /// Convert the whole frame into an [`RgbaImage`], or `None` when some
    /// pixel of the frame cannot be sampled out of `bytes` (see
    /// [`BufferContext::sample_pixel`]) or its index does not fit in a
    /// `usize`. Each pixel of the image is the one `sample_pixel` reads.
    pub fn to_rgba_image(&self, bytes: &[u8]) -> (r: Option<RgbaImage>)
        ensures
            r is Some <==> self.frame_sampleable(bytes@),
            r matches Some(img) ==> {
                &&& img.width == self.width
                &&& img.height == self.height
                &&& img.pixels@.len() == self.width * self.height
                &&& forall|x: u32, y: u32|
                    self.in_frame(x, y) ==> #[trigger] self.holds_sample(img.pixels@, bytes@, x, y)
            },
    {
        let mut pixels: Vec<Rgba> = Vec::new();
        let mut y: u32 = 0;
        while y < self.height
            invariant
                y <= self.height,
                pixels@.len() == y * self.width,
                forall|xx: u32, yy: u32|
                    yy < y && xx < self.width ==> #[trigger] self.holds_sample(pixels@, bytes@, xx, yy),
            decreases self.height - y,
        {
            let mut x: u32 = 0;
            while x < self.width
                invariant
                    y < self.height,
                    x <= self.width,
                    pixels@.len() == y * self.width + x,
                    forall|xx: u32, yy: u32|
                        ((yy < y && xx < self.width) || (yy == y && xx < x)) ==> #[trigger] self.holds_sample(
                            pixels@,
                            bytes@,
                            xx,
                            yy,
                        ),
                decreases self.width - x,
            {
                if !self.index_in_range(x, y) {
                    assert(!(self.index_fits(x, y) && self.spec_sample(bytes@, x, y) is Some));
                    return None;
                }
                let p = match self.sample_pixel(bytes, x, y) {
                    Some(p) => p,
                    None => {
                        assert(!(self.index_fits(x, y) && self.spec_sample(bytes@, x, y) is Some));
                        return None;
                    },
                };
                let ghost before = pixels@;
                pixels.push(p);
                proof {
                    assert forall|xx: u32, yy: u32|
                        ((yy < y && xx < self.width) || (yy == y && xx < x + 1)) implies #[trigger] self.holds_sample(
                            pixels@,
                            bytes@,
                            xx,
                            yy,
                        ) by {
                        lemma_row_major_index(self.width as int, x as int, y as int, xx as int, yy as int);
                        if !(yy == y && xx == x) {
                            assert(self.holds_sample(before, bytes@, xx, yy));
                            assert(pixels@[yy * self.width + xx] == before[yy * self.width + xx]);
                        }
                    }
                }
                x = x + 1;
            }
            proof {
                assert(y * self.width + self.width == (y + 1) * self.width) by (nonlinear_arith);
            }
            y = y + 1;
        }
        let img = RgbaImage { width: self.width, height: self.height, pixels };
        assert forall|x: u32, y: u32| self.in_frame(x, y) implies self.index_fits(x, y) && (#[trigger] self.spec_sample(bytes@, x, y)) is Some by {
            assert(self.holds_sample(img.pixels@, bytes@, x, y));
        }
        Some(img)
    }
}

/// Row-major positions: pixel (`xx`, `yy`) comes before pixel (`x`, `y`)
/// of the same row length `w`, exactly when it is an earlier one.
proof fn lemma_row_major_index(w: int, x: int, y: int, xx: int, yy: int)
    requires
        0 <= x < w,
        0 <= y,
        0 <= xx < w,
        0 <= yy,
        (yy < y) || (yy == y && xx <= x),
    ensures
        0 <= yy * w + xx <= y * w + x,
        (yy * w + xx == y * w + x) <==> (yy == y && xx == x),
{
    if yy < y {
        assert(yy * w + w <= y * w) by (nonlinear_arith)
            requires yy < y, w >= 0;
    }
    assert(yy * w >= 0) by (nonlinear_arith)
        requires yy >= 0, w >= 0;
}

/// Every pixel's index arithmetic fits in a `usize` when the offset plus
/// `height` rows, each as long as the stride's magnitude plus a packed row
/// of four-byte pixels, fits: a bound that can be checked on the frame's
/// numbers alone, without the row, stride and index of each pixel.
pub proof fn lemma_index_fits_within(ctx: BufferContext, x: u32, y: u32)
    requires
        ctx.offset + ctx.height * (stride_magnitude(ctx.stride) + ctx.width * 4) <= usize::MAX,
    ensures
        ctx.index_fits(x, y),
{
    if ctx.in_frame(x, y) {
        if let Some(bpp) = format_bytes_per_pixel(ctx.format) {
            let m = stride_magnitude(ctx.stride) + ctx.width * 4;
            let h = ctx.height as int;
            let w = ctx.width as int;
            let b = bpp as int;
            let rs = ctx.spec_row_stride(bpp) as int;
            let row = ctx.spec_src_row(y) as int;
            assert(w * b <= w * 4) by (nonlinear_arith)
                requires 0 <= w, b <= 4;
            assert(rs <= m);
            assert(row <= h - 1);
            assert(row * rs <= (h - 1) * m) by (nonlinear_arith)
                requires 0 <= row <= h - 1, 0 <= rs <= m;
            assert(x * b + b <= w * b) by (nonlinear_arith)
                requires x < w, 0 <= b;
            assert((h - 1) * m + m == h * m) by (nonlinear_arith);
            assert(m <= h * m) by (nonlinear_arith)
                requires h >= 1, m >= 0;
        }
    }
}

/// Where pixel (`x`, `y`) of a frame with `bpp` bytes per pixel starts:
/// top-down rows of the stride's length for a positive stride, tightly
/// packed rows for a zero stride, and bottom-up rows of the stride's
/// magnitude for a negative one.
pub proof fn lemma_pixel_position(ctx: BufferContext, x: u32, y: u32, bpp: usize)
    ensures
        ctx.stride > 0 ==> ctx.pixel_index(x, y, bpp) == ctx.offset + y * ctx.stride + x * bpp,
        ctx.stride == 0 ==> ctx.pixel_index(x, y, bpp) == ctx.offset + y * (ctx.width * bpp) + x * bpp,
        ctx.stride < 0 && y < ctx.height ==> ctx.pixel_index(x, y, bpp) == ctx.offset + (ctx.height - 1 - y) * (
        -ctx.stride) + x * bpp,
{
}

/// The channels of a pixel inside the frame are its bytes in stored order
/// for RGBA; its first three bytes in stored order, fully opaque, for RGB
/// and RGBx; and its first three bytes in reverse order, fully opaque, for
/// BGRx. A pixel whose bytes run past the end is not sampled.
pub proof fn lemma_channels_in_stored_order(ctx: BufferContext, bytes: Seq<u8>, x: u32, y: u32)
    requires
        ctx.in_frame(x, y),
    ensures
        ({
            let i = ctx.pixel_index(x, y, 3);
            ctx.format == VideoFormat::RGB ==> if i + 3 <= bytes.len() {
                ctx.spec_sample(bytes, x, y) == Some(seq![bytes[i], bytes[i + 1], bytes[i + 2], 255u8])
            } else {
                ctx.spec_sample(bytes, x, y) is None
            }
        }),
        ({
            let i = ctx.pixel_index(x, y, 4);
            ctx.format == VideoFormat::RGBx ==> if i + 4 <= bytes.len() {
                ctx.spec_sample(bytes, x, y) == Some(seq![bytes[i], bytes[i + 1], bytes[i + 2], 255u8])
            } else {
                ctx.spec_sample(bytes, x, y) is None
            }
        }),
        ({
            let i = ctx.pixel_index(x, y, 4);
            ctx.format == VideoFormat::RGBA ==> if i + 4 <= bytes.len() {
                ctx.spec_sample(bytes, x, y) == Some(seq![bytes[i], bytes[i + 1], bytes[i + 2], bytes[i + 3]])
            } else {
                ctx.spec_sample(bytes, x, y) is None
            }
        }),
        ({
            let i = ctx.pixel_index(x, y, 4);
            ctx.format == VideoFormat::BGRx ==> if i + 4 <= bytes.len() {
                ctx.spec_sample(bytes, x, y) == Some(seq![bytes[i + 2], bytes[i + 1], bytes[i], 255u8])
            } else {
                ctx.spec_sample(bytes, x, y) is None
            }
        }),
{
}

/// A pixel outside the frame is never sampled.
pub proof fn lemma_outside_frame_is_none(ctx: BufferContext, bytes: Seq<u8>, x: u32, y: u32)
    requires
        !ctx.in_frame(x, y),
    ensures
        ctx.spec_sample(bytes, x, y) is None,
{
}

/// A frame in a format that is not a packed one is never sampled.
pub proof fn lemma_unpacked_format_is_none(ctx: BufferContext, bytes: Seq<u8>, x: u32, y: u32)
    requires
        format_bytes_per_pixel(ctx.format) is None,
    ensures
        ctx.spec_sample(bytes, x, y) is None,
{
}

/// Formats without an alpha channel are sampled fully opaque.
pub proof fn lemma_no_alpha_is_opaque(ctx: BufferContext, bytes: Seq<u8>, x: u32, y: u32)
    requires
        ctx.format != VideoFormat::RGBA,
        ctx.spec_sample(bytes, x, y) is Some,
    ensures
        ctx.spec_sample(bytes, x, y).unwrap()[3] == 255u8,
{
}

/// A BGRx frame is sampled as the RGBx frame of the same layout with the
/// red and blue channels swapped.
pub proof fn lemma_bgrx_swaps_red_and_blue(ctx: BufferContext, bytes: Seq<u8>, x: u32, y: u32)
    requires
        ctx.format == VideoFormat::BGRx,
    ensures
        ({
            let rgbx = BufferContext {
                offset: ctx.offset,
                stride: ctx.stride,
                width: ctx.width,
                height: ctx.height,
                format: VideoFormat::RGBx,
            };
            let p = ctx.spec_sample(bytes, x, y);
            let q = rgbx.spec_sample(bytes, x, y);
            &&& p is Some <==> q is Some
            &&& p is Some ==> p.unwrap() == seq![q.unwrap()[2], q.unwrap()[1], q.unwrap()[0], 255u8]
        }),
{
}

/// A frame with a negative stride stores its rows bottom-up: logical row
/// `y` is what the same bytes read top-down, with the positive stride of
/// the same magnitude, hold at row `height - 1 - y`.
pub proof fn lemma_negative_stride_flips_rows(ctx: BufferContext, bytes: Seq<u8>, x: u32, y: u32)
    requires
        ctx.stride < 0,
        ctx.stride != i32::MIN,
        y < ctx.height,
    ensures
        ctx.spec_sample(bytes, x, y) == (BufferContext {
            offset: ctx.offset,
            stride: (-ctx.stride) as i32,
            width: ctx.width,
            height: ctx.height,
            format: ctx.format,
        }).spec_sample(bytes, x, (ctx.height - 1 - y) as u32),
{
}

} // verus!
