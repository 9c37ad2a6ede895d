use crate::error::InputError;
use crate::geometry::{NormPoint, UNIT};
use crate::raster::{RasterImage, RasterView, INK_THRESHOLD};
use crate::schedule::{stroke_views, stroke_wf, strokes_wf, Stroke, VectorImage, MAX_STROKES};
use vstd::prelude::*;

verus! {

/// How the image is turned into strokes.
#[derive(Clone, Copy, Debug, PartialEq, Eq, Structural)]
pub enum Method {
    /// Trace the borders of the inked areas.
    Outline,
    /// Fill the inked areas line by line.
    Raster,
}

impl RasterView {
    /// Whether the pixel is ink on the border of an inked area: one of its
    /// four neighbours is not ink.
    pub open spec fn edge_at(self, x: int, y: int) -> bool {
        &&& self.ink_at(x, y)
        &&& (!self.ink_at(x - 1, y) || !self.ink_at(x + 1, y) || !self.ink_at(x, y - 1)
            || !self.ink_at(x, y + 1))
    }

    /// Whether the method draws the pixel.
    pub open spec fn marked(self, method: Method, x: int, y: int) -> bool {
        match method {
            Method::Raster => self.ink_at(x, y),
            Method::Outline => self.edge_at(x, y),
        }
    }

    /// The first column of the unbroken run of drawn pixels that ends just
    /// before column `x` of row `y`; `x` itself where no run ends there.
    pub open spec fn run_start(self, method: Method, x: int, y: int) -> int
        decreases x,
    {
        if x > 0 && self.marked(method, x - 1, y) {
            self.run_start(method, x - 1, y)
        } else {
            x
        }
    }

    /// The points of the stroke that draws columns `x0` up to `x1` of row
    /// `y`: from the left border of the first pixel to the right border of
    /// the last, through the middle of the row.
    pub open spec fn segment(self, x0: int, x1: int, y: int) -> Seq<NormPoint> {
        let ny = ((2 * y + 1) * (UNIT as int) / (2 * self.height)) as u32;
        seq![
            NormPoint { x: (x0 * (UNIT as int) / self.width) as u32, y: ny },
            NormPoint { x: (x1 * (UNIT as int) / self.width) as u32, y: ny },
        ]
    }

    /// The strokes of row `y` for the runs that end at or before column `n`,
    /// from left to right: one stroke for each maximal run of drawn pixels.
    pub open spec fn row_strokes(self, method: Method, y: int, n: int) -> Seq<Seq<NormPoint>>
        decreases n,
    {
        if n <= 0 {
            Seq::empty()
        } else {
            let before = self.row_strokes(method, y, n - 1);
            if self.marked(method, n - 1, y) && !self.marked(method, n, y) {
                before.push(self.segment(self.run_start(method, n, y), n, y))
            } else {
                before
            }
        }
    }

    /// The strokes of the first `rows` rows, from the top.
    pub open spec fn image_strokes(self, method: Method, rows: int) -> Seq<Seq<NormPoint>>
        decreases rows,
    {
        if rows <= 0 {
            Seq::empty()
        } else {
            self.image_strokes(method, rows - 1) + self.row_strokes(
                method,
                rows - 1,
                self.width,
            )
        }
    }

    /// Number of strokes that a row gives up to a column: never more than
    /// the columns passed.
    pub proof fn lemma_row_strokes_len(self, method: Method, y: int, n: int)
        requires
            0 <= n,
        ensures
            self.row_strokes(method, y, n).len() <= n,
        decreases n,
    {
        if n > 0 {
            self.lemma_row_strokes_len(method, y, n - 1);
        }
    }

    /// An image without a drawn pixel gives no stroke.
    pub proof fn lemma_blank_has_no_strokes(self, method: Method, rows: int)
        requires
            forall|x: int, y: int| !self.ink_at(x, y),
        ensures
            self.image_strokes(method, rows).len() == 0,
        decreases rows,
    {
        if rows > 0 {
            self.lemma_blank_has_no_strokes(method, rows - 1);
            self.lemma_blank_row(method, rows - 1, self.width);
        }
    }

    /// A row without a drawn pixel gives no stroke.
    pub proof fn lemma_blank_row(self, method: Method, y: int, n: int)
        requires
            forall|x: int, y: int| !self.ink_at(x, y),
        ensures
            self.row_strokes(method, y, n).len() == 0,
        decreases n,
    {
        if n > 0 {
            self.lemma_blank_row(method, y, n - 1);
            assert(!self.ink_at(n - 1, y));
        }
    }

    /// Whether columns `s` up to `e` of row `y` are a maximal run of drawn
    /// pixels: all of them are drawn, and neither neighbour is.
    pub open spec fn is_run(self, method: Method, s: int, e: int, y: int) -> bool {
        &&& 0 <= s < e
        &&& forall|c: int| s <= c < e ==> self.marked(method, c, y)
        &&& !self.marked(method, s - 1, y)
        &&& !self.marked(method, e, y)
    }

    /// The run that ends before a column starts where `run_start` says: from
    /// there on every pixel is drawn, and the pixel before is not.
    pub proof fn lemma_run_start(self, method: Method, x: int, y: int)
        requires
            0 <= x,
        ensures
            0 <= self.run_start(method, x, y) <= x,
            forall|c: int| self.run_start(method, x, y) <= c < x ==> self.marked(method, c, y),
            !self.marked(method, self.run_start(method, x, y) - 1, y),
        decreases x,
    {
        if x > 0 && self.marked(method, x - 1, y) {
            self.lemma_run_start(method, x - 1, y);
        }
    }

    /// A run of drawn pixels with an undrawn pixel before it starts where
    /// `run_start` says.
    pub proof fn lemma_run_start_unique(self, method: Method, s: int, x: int, y: int)
        requires
            0 <= s <= x,
            forall|c: int| s <= c < x ==> self.marked(method, c, y),
            !self.marked(method, s - 1, y),
        ensures
            self.run_start(method, x, y) == s,
        decreases x - s,
    {
        if x > s {
            self.lemma_run_start_unique(method, s, x - 1, y);
        }
    }

    /// Whether the stroke draws a maximal run of row `y` that ends at or
    /// before column `n`.
    pub open spec fn draws_run(self, method: Method, stroke: Seq<NormPoint>, y: int, n: int) -> bool {
        exists|s: int, e: int|
            self.is_run(method, s, e, y) && e <= n && #[trigger] self.segment(s, e, y) == stroke
    }

    /// Every stroke of a row draws a maximal run of the row that ends at or
    /// before the column.
    pub proof fn lemma_row_strokes_are_runs(self, method: Method, y: int, n: int)
        ensures
            forall|k: int|
                0 <= k < self.row_strokes(method, y, n).len() ==> self.draws_run(
                    method,
                    #[trigger] self.row_strokes(method, y, n)[k],
                    y,
                    n,
                ),
        decreases n,
    {
        if n > 0 {
            self.lemma_row_strokes_are_runs(method, y, n - 1);
            let before = self.row_strokes(method, y, n - 1);
            let all = self.row_strokes(method, y, n);
            assert forall|k: int| 0 <= k < all.len() implies self.draws_run(
                method,
                #[trigger] all[k],
                y,
                n,
            ) by {
                if k < before.len() {
                    assert(all[k] == before[k]);
                    assert(self.draws_run(method, before[k], y, n - 1));
                    let (s, e) = choose|s: int, e: int|
                        self.is_run(method, s, e, y) && e <= n - 1 && #[trigger] self.segment(
                            s,
                            e,
                            y,
                        ) == before[k];
                    assert(self.is_run(method, s, e, y) && e <= n && self.segment(s, e, y)
                        == all[k]);
                } else {
                    let s = self.run_start(method, n, y);
                    self.lemma_run_start(method, n, y);
                    assert(self.is_run(method, s, n, y) && self.segment(s, n, y) == all[k]);
                }
            }
        }
    }

    /// Every maximal run of a row that ends at or before the column has its
    /// stroke among those of the row.
    pub proof fn lemma_runs_are_row_strokes(self, method: Method, y: int, n: int, s: int, e: int)
        requires
            self.is_run(method, s, e, y),
            e <= n,
        ensures
            self.row_strokes(method, y, n).contains(self.segment(s, e, y)),
        decreases n,
    {
        let all = self.row_strokes(method, y, n);
        if e == n {
            self.lemma_run_start_unique(method, s, e, y);
            assert(all[all.len() - 1] == self.segment(s, e, y));
        } else {
            self.lemma_runs_are_row_strokes(method, y, n - 1, s, e);
            let before = self.row_strokes(method, y, n - 1);
            let k = choose|k: int| 0 <= k < before.len() && before[k] == self.segment(s, e, y);
            assert(all[k] == before[k]);
        }
    }

    /// In a row with an ink pixel, every method draws a pixel: the raster
    /// method that one, the outline method the first of its run.
    pub proof fn lemma_ink_is_marked(self, method: Method, x: int, y: int) -> (c: int)
        requires
            self.ink_at(x, y),
        ensures
            0 <= c <= x,
            self.marked(method, c, y),
        decreases x,
    {
        if method == Method::Raster || !self.ink_at(x - 1, y) {
            x
        } else {
            self.lemma_ink_is_marked(method, x - 1, y)
        }
    }

    /// From a drawn pixel on, a row either has given a stroke or is drawn
    /// without a break.
    pub proof fn lemma_marked_run_ends(self, method: Method, x: int, y: int, n: int)
        requires
            0 <= x <= n,
            self.marked(method, x, y),
        ensures
            self.row_strokes(method, y, n).len() > 0 || forall|c: int|
                x <= c <= n ==> self.marked(method, c, y),
        decreases n,
    {
        if n > x {
            self.lemma_marked_run_ends(method, x, y, n - 1);
        }
    }

    /// The strokes of a row are among the strokes of the rows down to it.
    pub proof fn lemma_image_strokes_len(self, method: Method, y: int, rows: int)
        requires
            0 <= y < rows,
        ensures
            self.image_strokes(method, rows).len() >= self.row_strokes(method, y, self.width).len(),
        decreases rows,
    {
        if y < rows - 1 {
            self.lemma_image_strokes_len(method, y, rows - 1);
        }
    }

    /// An image gives a stroke exactly if it has an ink pixel, whatever the
    /// method.
    pub proof fn lemma_strokes_iff_ink(self, method: Method)
        requires
            self.wf(),
        ensures
            (self.image_strokes(method, self.height).len() > 0) == self.has_ink(),
    {
        if self.has_ink() {
            let (x, y) = choose|x: int, y: int| self.ink_at(x, y);
            let c = self.lemma_ink_is_marked(method, x, y);
            self.lemma_marked_run_ends(method, c, y, self.width);
            assert(!self.marked(method, self.width, y));
            self.lemma_image_strokes_len(method, y, self.height);
        } else {
            self.lemma_blank_has_no_strokes(method, self.height);
        }
    }

    /// The strokes of the image: those of all rows of the image that is
    /// traced.
    pub open spec fn strokes(self, method: Method) -> Seq<Seq<NormPoint>> {
        self.traced().image_strokes(method, self.traced().height)
    }

    /// An image without a dark pixel has no strokes, whatever the method.
    pub proof fn lemma_blank_image_is_empty(self, method: Method)
        requires
            self.wf(),
            forall|i: int| 0 <= i < self.pixels.len() ==> self.pixels[i] >= INK_THRESHOLD,
        ensures
            self.strokes(method).len() == 0,
    {
        self.lemma_sample_factor_least();
        let f = self.sample_factor();
        let small = self.sampled(f);
        self.lemma_sampled_wf(f);
        assert forall|x: int, y: int| !small.ink_at(x, y) by {
            if 0 <= x < small.width && 0 <= y < small.height {
                let i = y * small.width + x;
                assert(0 <= i < small.width * small.height) by (nonlinear_arith)
                    requires
                        0 <= x < small.width,
                        0 <= y < small.height,
                        i == y * small.width + x,
                ;
                self.lemma_sample_source(f, i);
            }
        }
        small.lemma_blank_has_no_strokes(method, small.height);
    }
}

impl RasterImage {
    /// Tests whether the method draws a pixel.
    pub fn is_marked(&self, method: Method, x: u32, y: u32) -> (b: bool)
        requires
            self.wf(),
        ensures
            b == self@.marked(method, x as int, y as int),
    {
        if !self.is_ink(x, y) {
            return false;
        }
        match method {
            Method::Raster => true,
            Method::Outline => {
                x == 0 || y == 0 || !self.is_ink(x - 1, y) || !self.is_ink(x, y - 1) || x + 1
                    >= self.width || y + 1 >= self.height || !self.is_ink(x + 1, y) || !self.is_ink(
                    x,
                    y + 1,
                )
            },
        }
    }

    /// Builds the stroke of one run.
    fn make_segment(&self, x0: u32, x1: u32, y: u32) -> (s: Stroke)
        requires
            self.wf(),
            x0 <= x1 <= self.width,
            y < self.height,
        ensures
            s@ == self@.segment(x0 as int, x1 as int, y as int),
            stroke_wf(s@),
    {
        let u: u64 = UNIT as u64;
        let w: u64 = self.width as u64;
        let h2: u64 = 2 * (self.height as u64);
        assert(x0 * u <= w * u && x1 * u <= w * u && w * u <= 0xFFFF_FFFF * 1_000_000) by (nonlinear_arith)
            requires
                0 <= x0 <= x1 <= w,
                w <= 0xFFFF_FFFF,
                u == 1_000_000,
        ;
        assert((2 * y + 1) * u <= h2 * u && h2 * u <= 0x1_FFFF_FFFE * 1_000_000) by (nonlinear_arith)
            requires
                0 <= 2 * y + 1 <= h2,
                h2 <= 0x1_FFFF_FFFE,
                u == 1_000_000,
        ;
        assert((x0 * u) / (w as int) <= u && (x1 * u) / (w as int) <= u) by (nonlinear_arith)
            requires
                x0 * u <= w * u,
                x1 * u <= w * u,
                w > 0,
        ;
        assert(((2 * y + 1) * u) / (h2 as int) <= u) by (nonlinear_arith)
            requires
                (2 * y + 1) * u <= h2 * u,
                h2 > 0,
        ;
        let nx0: u64 = ((x0 as u64) * u) / w;
        let nx1: u64 = ((x1 as u64) * u) / w;
        let ny: u64 = ((2 * (y as u64) + 1) * u) / h2;
        let mut points: Vec<NormPoint> = Vec::new();
        points.push(NormPoint { x: nx0 as u32, y: ny as u32 });
        points.push(NormPoint { x: nx1 as u32, y: ny as u32 });
        let s = Stroke { points };
        assert(s@ =~= self@.segment(x0 as int, x1 as int, y as int));
        s
    }

    /// Traces one row: appends a stroke for each maximal run of drawn
    /// pixels, from left to right.
    fn trace_row(&self, method: Method, y: u32, out: &mut Vec<Stroke>)
        requires
            self.wf(),
            y < self.height,
        ensures
            stroke_views(final(out)@) == stroke_views(old(out)@) + self@.row_strokes(
                method,
                y as int,
                self.width as int,
            ),
            strokes_wf(stroke_views(old(out)@)) ==> strokes_wf(stroke_views(final(out)@)),
    {
        let ghost base = stroke_views(out@);
        let w: u32 = self.width;
        let mut x: u32 = 0;
        let mut start: u32 = 0;
        let mut in_run: bool = false;
        assert(stroke_views(out@) =~= base + self@.row_strokes(method, y as int, -1));
        while x < w
            invariant
                self.wf(),
                w == self.width,
                y < self.height,
                x <= w,
                start <= x,
                start == self@.run_start(method, x as int, y as int),
                in_run == (x > 0 && self@.marked(method, x - 1, y as int)),
                stroke_views(out@) =~= base + self@.row_strokes(method, y as int, x - 1),
                strokes_wf(base) ==> strokes_wf(stroke_views(out@)),
            decreases w - x,
        {
            let m: bool = self.is_marked(method, x, y);
            if m {
                in_run = true;
            } else {
                if in_run {
                    let s = self.make_segment(start, x, y);
                    let ghost before = out@;
                    out.push(s);
                    assert(stroke_views(out@) =~= stroke_views(before).push(s@));
                }
                in_run = false;
                start = x + 1;
            }
            x = x + 1;
        }
        assert(!self@.marked(method, w as int, y as int));
        if in_run {
            let s = self.make_segment(start, w, y);
            let ghost before = out@;
            out.push(s);
            assert(stroke_views(out@) =~= stroke_views(before).push(s@));
        }
    }

    /// Traces the whole image, row by row from the top.
    fn trace(&self, method: Method) -> (out: Vec<Stroke>)
        requires
            self.traceable(),
        ensures
            stroke_views(out@) == self@.image_strokes(method, self.height as int),
            out@.len() <= MAX_STROKES,
            strokes_wf(stroke_views(out@)),
    {
        let mut out: Vec<Stroke> = Vec::new();
        let mut y: u32 = 0;
        assert(stroke_views(out@) =~= self@.image_strokes(method, 0));
        while y < self.height
            invariant
                self.traceable(),
                y <= self.height,
                stroke_views(out@) == self@.image_strokes(method, y as int),
                out@.len() <= y * self.width,
                strokes_wf(stroke_views(out@)),
            decreases self.height - y,
        {
            proof {
                self@.lemma_row_strokes_len(method, y as int, self.width as int);
                assert((y + 1) * self.width == y * self.width + self.width) by (nonlinear_arith);
            }
            let ghost before = out@;
            self.trace_row(method, y, &mut out);
            assert(out@.len() == stroke_views(out@).len());
            assert(before.len() == stroke_views(before).len());
            y = y + 1;
        }
        assert(out@.len() <= MAX_STROKES) by (nonlinear_arith)
            requires
                out@.len() <= y * self.width,
                y <= self.height,
                self.width * self.height <= MAX_STROKES,
        ;
        out
    }
}

/// Turns a decoded image into strokes. An image that is not well formed is
/// refused as unsupported. A larger image than `MAX_PIXELS` is sampled down
/// first. Each maximal run of drawn pixels in a row becomes one stroke, rows
/// from the top and runs from the left; the raster method draws every dark
/// pixel, the outline method those on the border of a dark area. An image
/// that gives no stroke is refused as empty.
pub fn vectorize(image: &RasterImage, method: Method) -> (r: Result<VectorImage, InputError>)
    ensures
        match r {
            Ok(v) => image.wf() && image@.traced().has_ink() && v@ == image@.strokes(method)
                && v.wf(),
            Err(InputError::UnsupportedFormat) => !image.wf(),
            Err(InputError::EmptyImage) => image.wf() && !image@.traced().has_ink(),
            Err(InputError::InvalidParams) => false,
        },
{
    proof {
        if image.wf() {
            image@.lemma_sample_factor_least();
            image@.lemma_sampled_wf(image@.sample_factor());
            image@.traced().lemma_strokes_iff_ink(method);
        }
    }
    if !image.is_valid() {
        return Err(InputError::UnsupportedFormat);
    }
    let f: u32 = image.sample_factor();
    let small = image.downsample(f);
    let strokes = small.trace(method);
    assert(strokes@.len() == stroke_views(strokes@).len());
    if strokes.len() == 0 {
        Err(InputError::EmptyImage)
    } else {
        Ok(VectorImage { strokes })
    }
}

} // verus!
