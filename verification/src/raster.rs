use crate::error::InputError;
use vstd::prelude::*;

verus! {

/// A pixel darker than this is ink.
pub const INK_THRESHOLD: u8 = 128;

/// Most pixels that are traced; a larger image is sampled down first.
pub const MAX_PIXELS: usize = 1_000_000;

/// A decoded image: one grey value per pixel, row by row from the top, 0
/// for black and 255 for white.
#[derive(Clone, Debug)]
pub struct RasterImage {
    pub width: u32,
    pub height: u32,
    pub pixels: Vec<u8>,
}

/// Number of samples along an axis of `n` pixels when every `f`-th pixel is
/// kept, starting with the first.
pub open spec fn sampled_len(n: int, f: int) -> int {
    (n + f - 1) / f
}

/// Sampling keeps at least one pixel of an axis and adds none.
pub proof fn lemma_sampled_len_bounds(n: int, f: int)
    requires
        n >= 1,
        f >= 1,
    ensures
        1 <= sampled_len(n, f) <= n,
{
    let q = (n + f - 1) / f;
    assert(1 <= q <= n) by (nonlinear_arith)
        requires
            q == (n + f - 1) / f,
            n >= 1,
            f >= 1,
    ;
}

/// Every sample of an axis is a pixel of it.
pub proof fn lemma_sample_in_axis(n: int, f: int, k: int)
    requires
        n >= 1,
        f >= 1,
        0 <= k < sampled_len(n, f),
    ensures
        0 <= k * f < n,
{
    let q = (n + f - 1) / f;
    assert(q * f <= n + f - 1 && 1 <= q <= n) by (nonlinear_arith)
        requires
            q == (n + f - 1) / f,
            n >= 1,
            f >= 1,
    ;
    assert(0 <= k * f <= q * f - f) by (nonlinear_arith)
        requires
            0 <= k <= q - 1,
            f >= 1,
    ;
}

/// Keeping at most every `n`-th pixel of an axis of `n` pixels leaves one.
pub proof fn lemma_sampled_len_one(n: int, f: int)
    requires
        1 <= n <= f,
    ensures
        sampled_len(n, f) == 1,
{
    assert((n + f - 1) / f == 1) by (nonlinear_arith)
        requires
            1 <= n <= f,
    ;
}

/// A decoded image as contracts see it.
pub struct RasterView {
    pub width: int,
    pub height: int,
    pub pixels: Seq<u8>,
}

impl View for RasterImage {
    type V = RasterView;

    open spec fn view(&self) -> RasterView {
        RasterView { width: self.width as int, height: self.height as int, pixels: self.pixels@ }
    }
}

impl RasterView {
    /// The image has area and one value for each pixel.
    pub open spec fn wf(self) -> bool {
        &&& self.width > 0
        &&& self.height > 0
        &&& self.pixels.len() == self.width * self.height
    }

    /// Whether the pixel in column `x` of row `y` is ink; outside the image
    /// nothing is.
    pub open spec fn ink_at(self, x: int, y: int) -> bool {
        &&& 0 <= x < self.width
        &&& 0 <= y < self.height
        &&& self.pixels[y * self.width + x] < INK_THRESHOLD
    }

    /// Whether some pixel of the image is ink.
    pub open spec fn has_ink(self) -> bool {
        exists|x: int, y: int| self.ink_at(x, y)
    }

    /// Whether keeping every `f`-th pixel of every `f`-th row leaves no more
    /// than `MAX_PIXELS` pixels.
    pub open spec fn fits(self, f: int) -> bool {
        sampled_len(self.width, f) * sampled_len(self.height, f) <= MAX_PIXELS
    }

    /// The first factor from `f` upwards that fits.
    pub open spec fn factor_from(self, f: int) -> int
        decreases self.width + self.height - f,
    {
        if self.fits(f) || f >= self.width + self.height {
            f
        } else {
            self.factor_from(f + 1)
        }
    }

    /// The factor by which the image is sampled down before it is traced:
    /// the least that fits, 1 for an image that is small enough.
    pub open spec fn sample_factor(self) -> int {
        self.factor_from(1)
    }

    /// Where sample number `i` of the image sampled by `f` comes from.
    pub open spec fn sample_source(self, f: int, i: int) -> int {
        let w2 = sampled_len(self.width, f);
        ((i / w2) * f) * self.width + (i % w2) * f
    }

    /// The image sampled down by `f`: pixel `(x, y)` of the result is pixel
    /// `(x * f, y * f)` of the image.
    pub open spec fn sampled(self, f: int) -> RasterView {
        let w2 = sampled_len(self.width, f);
        let h2 = sampled_len(self.height, f);
        RasterView {
            width: w2,
            height: h2,
            pixels: Seq::new((w2 * h2) as nat, |i: int| self.pixels[self.sample_source(f, i)]),
        }
    }

    /// The image that is traced: the image sampled down to size.
    pub open spec fn traced(self) -> RasterView {
        self.sampled(self.sample_factor())
    }

    /// A factor that reaches both sides of the image fits.
    pub proof fn lemma_large_factor_fits(self, f: int)
        requires
            self.wf(),
            f >= self.width,
            f >= self.height,
        ensures
            self.fits(f),
    {
        lemma_sampled_len_one(self.width, f);
        lemma_sampled_len_one(self.height, f);
    }

    /// The search for a factor ends on one that fits, and passes none that
    /// does.
    pub proof fn lemma_factor_from(self, f: int)
        requires
            self.wf(),
            f >= 1,
        ensures
            self.factor_from(f) >= f,
            self.fits(self.factor_from(f)),
            forall|g: int| f <= g < self.factor_from(f) ==> !self.fits(g),
        decreases self.width + self.height - f,
    {
        if self.fits(f) {
        } else if f >= self.width + self.height {
            self.lemma_large_factor_fits(f);
        } else {
            self.lemma_factor_from(f + 1);
        }
    }

    /// The sample factor is the least factor that fits.
    pub proof fn lemma_sample_factor_least(self)
        requires
            self.wf(),
        ensures
            self.sample_factor() >= 1,
            self.fits(self.sample_factor()),
            forall|g: int| 1 <= g < self.sample_factor() ==> !self.fits(g),
            self.width * self.height <= MAX_PIXELS ==> self.sample_factor() == 1,
    {
        self.lemma_factor_from(1);
        assert(sampled_len(self.width, 1) == self.width);
        assert(sampled_len(self.height, 1) == self.height);
    }

    /// Every sample comes from a pixel of the image.
    pub proof fn lemma_sample_source(self, f: int, i: int)
        requires
            self.wf(),
            f >= 1,
            0 <= i < sampled_len(self.width, f) * sampled_len(self.height, f),
        ensures
            0 <= self.sample_source(f, i) < self.width * self.height,
            0 <= (i / sampled_len(self.width, f)) * f < self.height,
            0 <= (i % sampled_len(self.width, f)) * f < self.width,
    {
        let w2 = sampled_len(self.width, f);
        let h2 = sampled_len(self.height, f);
        lemma_sampled_len_bounds(self.width, f);
        lemma_sampled_len_bounds(self.height, f);
        assert(0 <= i / w2 < h2) by (nonlinear_arith)
            requires
                0 <= i < w2 * h2,
                w2 >= 1,
        ;
        assert(0 <= i % w2 < w2) by (nonlinear_arith)
            requires
                w2 >= 1,
        ;
        lemma_sample_in_axis(self.height, f, i / w2);
        lemma_sample_in_axis(self.width, f, i % w2);
        let sy = (i / w2) * f;
        let sx = (i % w2) * f;
        assert(0 <= sy * self.width + sx < self.width * self.height) by (nonlinear_arith)
            requires
                0 <= sy < self.height,
                0 <= sx < self.width,
        ;
    }

    /// The image sampled down is well formed.
    pub proof fn lemma_sampled_wf(self, f: int)
        requires
            self.wf(),
            f >= 1,
        ensures
            self.sampled(f).wf(),
    {
        lemma_sampled_len_bounds(self.width, f);
        lemma_sampled_len_bounds(self.height, f);
        assert(sampled_len(self.width, f) * sampled_len(self.height, f) >= 0) by (nonlinear_arith)
            requires
                sampled_len(self.width, f) >= 1,
                sampled_len(self.height, f) >= 1,
        ;
    }
}

impl RasterImage {
    /// The image has area and one value for each pixel.
    pub open spec fn wf(&self) -> bool {
        self@.wf()
    }

    /// The image is well formed and small enough to be traced as it is.
    pub open spec fn traceable(&self) -> bool {
        self.wf() && self.width * self.height <= MAX_PIXELS
    }

    /// Tests the invariant.
    pub fn is_valid(&self) -> (b: bool)
        ensures
            b == self.wf(),
    {
        assert(self.width * self.height <= 0xFFFF_FFFF * 0xFFFF_FFFF) by (nonlinear_arith)
            requires
                self.width <= 0xFFFF_FFFF,
                self.height <= 0xFFFF_FFFF,
        ;
        self.width > 0 && self.height > 0 && (self.pixels.len() as u64) == (self.width as u64) * (
        self.height as u64)
    }

    /// Tests whether a pixel is ink.
    pub fn is_ink(&self, x: u32, y: u32) -> (b: bool)
        requires
            self.wf(),
        ensures
            b == self@.ink_at(x as int, y as int),
    {
        if x >= self.width || y >= self.height {
            return false;
        }
        assert(y * self.width + x < self.width * self.height) by (nonlinear_arith)
            requires
                0 <= x < self.width,
                0 <= y < self.height,
        ;
        assert(0 <= y * self.width) by (nonlinear_arith)
            requires
                0 <= y,
                0 <= self.width,
        ;
        let len: usize = self.pixels.len();
        assert(y * self.width + x < len);
        let idx: usize = (y as usize) * (self.width as usize) + (x as usize);
        self.pixels[idx] < INK_THRESHOLD
    }

    /// Finds the factor by which the image is sampled down.
    pub fn sample_factor(&self) -> (f: u32)
        requires
            self.wf(),
        ensures
            f == self@.sample_factor(),
            f >= 1,
            self@.fits(f as int),
    {
        let mut f: u32 = 1;
        proof {
            self@.lemma_sample_factor_least();
        }
        loop
            invariant
                self.wf(),
                f >= 1,
                self@.factor_from(f as int) == self@.sample_factor(),
                self@.fits(self@.sample_factor()),
            decreases u32::MAX - f,
        {
            let w2: u64 = ((self.width as u64) + (f as u64) - 1) / (f as u64);
            let h2: u64 = ((self.height as u64) + (f as u64) - 1) / (f as u64);
            proof {
                lemma_sampled_len_bounds(self.width as int, f as int);
                lemma_sampled_len_bounds(self.height as int, f as int);
                assert(w2 * h2 <= 0xFFFF_FFFF * 0xFFFF_FFFF) by (nonlinear_arith)
                    requires
                        0 <= w2 <= 0xFFFF_FFFF,
                        0 <= h2 <= 0xFFFF_FFFF,
                ;
            }
            if w2 * h2 <= MAX_PIXELS as u64 {
                return f;
            }
            proof {
                if f >= self.width && f >= self.height {
                    self@.lemma_large_factor_fits(f as int);
                }
            }
            f = f + 1;
        }
    }

    /// Samples the image down by `f`.
    pub fn downsample(&self, f: u32) -> (small: RasterImage)
        requires
            self.wf(),
            f >= 1,
            self@.fits(f as int),
        ensures
            small@ == self@.sampled(f as int),
            small.traceable(),
    {
        proof {
            lemma_sampled_len_bounds(self.width as int, f as int);
            lemma_sampled_len_bounds(self.height as int, f as int);
            self@.lemma_sampled_wf(f as int);
        }
        let w2: u32 = (((self.width as u64) + (f as u64) - 1) / (f as u64)) as u32;
        let h2: u32 = (((self.height as u64) + (f as u64) - 1) / (f as u64)) as u32;
        let total: usize = (w2 as usize) * (h2 as usize);
        let len: usize = self.pixels.len();
        let mut pixels: Vec<u8> = Vec::new();
        let mut i: usize = 0;
        while i < total
            invariant
                self.wf(),
                f >= 1,
                w2 == sampled_len(self.width as int, f as int),
                h2 == sampled_len(self.height as int, f as int),
                w2 >= 1,
                total == w2 * h2,
                total <= MAX_PIXELS,
                len == self.pixels@.len(),
                i <= total,
                pixels@.len() == i,
                forall|k: int|
                    0 <= k < i ==> #[trigger] pixels@[k] == self.pixels@[self@.sample_source(
                        f as int,
                        k,
                    )],
            decreases total - i,
        {
            proof {
                self@.lemma_sample_source(f as int, i as int);
                let sy = (i / (w2 as usize)) * f;
                assert(0 <= sy * self.width <= self.width * self.height) by (nonlinear_arith)
                    requires
                        0 <= sy < self.height,
                        0 <= self.width,
                ;
            }
            let sy: usize = (i / (w2 as usize)) * (f as usize);
            let sx: usize = (i % (w2 as usize)) * (f as usize);
            let src: usize = sy * (self.width as usize) + sx;
            pixels.push(self.pixels[src]);
            i = i + 1;
        }
        let small = RasterImage { width: w2, height: h2, pixels };
        assert(small@.pixels =~= self@.sampled(f as int).pixels);
        small
    }
}

/// Bytes in front of the pixels of a frame: the width and the height.
pub const HEADER_LEN: usize = 8;

/// The number that four bytes from `at` on spell, least significant first.
pub open spec fn le_u32(bytes: Seq<u8>, at: int) -> int {
    bytes[at] + 256 * bytes[at + 1] + 65536 * bytes[at + 2] + 16777216 * bytes[at + 3]
}

/// Whether the bytes are a frame: the header, then one byte for each pixel
/// of an image with area.
pub open spec fn frame_ok(bytes: Seq<u8>) -> bool {
    &&& bytes.len() >= HEADER_LEN
    &&& le_u32(bytes, 0) > 0
    &&& le_u32(bytes, 4) > 0
    &&& bytes.len() - HEADER_LEN == le_u32(bytes, 0) * le_u32(bytes, 4)
}

/// The image that a frame holds.
pub open spec fn frame_image(bytes: Seq<u8>) -> RasterView {
    RasterView {
        width: le_u32(bytes, 0),
        height: le_u32(bytes, 4),
        pixels: bytes.subrange(HEADER_LEN as int, bytes.len() as int),
    }
}

/// Reads four bytes as a number, least significant first.
fn read_le_u32(bytes: &[u8], at: usize) -> (v: u32)
    requires
        at + 4 <= bytes@.len(),
    ensures
        v == le_u32(bytes@, at as int),
{
    (bytes[at] as u32) + 256 * (bytes[at + 1] as u32) + 65536 * (bytes[at + 2] as u32) + 16777216
        * (bytes[at + 3] as u32)
}

/// Reads a frame of grey values: the width and the height, four bytes each
/// with the least significant first, then the pixels row by row. Anything
/// else is refused as unsupported.
pub fn decode_frame(bytes: &[u8]) -> (r: Result<RasterImage, InputError>)
    ensures
        match r {
            Ok(image) => frame_ok(bytes@) && image@ == frame_image(bytes@) && image.wf(),
            Err(e) => e == InputError::UnsupportedFormat && !frame_ok(bytes@),
        },
{
    let n: usize = bytes.len();
    if n < HEADER_LEN {
        return Err(InputError::UnsupportedFormat);
    }
    let width: u32 = read_le_u32(bytes, 0);
    let height: u32 = read_le_u32(bytes, 4);
    assert(width * height <= 0xFFFF_FFFF * 0xFFFF_FFFF) by (nonlinear_arith)
        requires
            width <= 0xFFFF_FFFF,
            height <= 0xFFFF_FFFF,
    ;
    if width == 0 || height == 0 || ((n - HEADER_LEN) as u64) != (width as u64) * (height as u64) {
        return Err(InputError::UnsupportedFormat);
    }
    let mut pixels: Vec<u8> = Vec::new();
    let mut i: usize = HEADER_LEN;
    while i < n
        invariant
            HEADER_LEN <= i <= n,
            n == bytes@.len(),
            pixels@ =~= bytes@.subrange(HEADER_LEN as int, i as int),
        decreases n - i,
    {
        pixels.push(bytes[i]);
        i = i + 1;
    }
    Ok(RasterImage { width, height, pixels })
}

} // verus!
