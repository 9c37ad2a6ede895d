use crate::geometry::{lemma_map_axis_fits, map_axis, map_coord, CanvasRegion, NormPoint};
use crate::pen::{lemma_schedule_balanced, lemma_schedule_within, moves_within, pen_balanced};
use vstd::prelude::*;

verus! {

/// Most strokes that one image may hold.
pub const MAX_STROKES: usize = 1_000_000;

/// Most points that one stroke may hold.
pub const MAX_STROKE_POINTS: usize = 1_000_000;

/// Highest speed multiplier.
pub const MAX_SPEED: u32 = 64;

/// Milliseconds between two moves at speed 1.
pub const BASE_DELAY_MS: u64 = 16;

/// Shortest delay between two moves, whatever the speed.
pub const MIN_DELAY_MS: u64 = 2;

/// What the pointing device is asked to do.
#[derive(Clone, Copy, Debug, PartialEq, Eq, Structural)]
pub enum ActionKind {
    MoveTo { x: i64, y: i64 },
    PenDown,
    PenUp,
}

/// One device instruction and the time, counted from the start of the
/// session, at which it is due.
#[derive(Clone, Copy, Debug, PartialEq, Eq, Structural)]
pub struct ScheduledAction {
    pub kind: ActionKind,
    pub at_ms: u64,
}

/// One continuous pen-down path through normalized image space.
#[derive(Clone, Debug)]
pub struct Stroke {
    pub points: Vec<NormPoint>,
}

impl View for Stroke {
    type V = Seq<NormPoint>;

    open spec fn view(&self) -> Seq<NormPoint> {
        self.points@
    }
}

/// A stroke has at least two points, no more than `MAX_STROKE_POINTS`, all of
/// them in the unit square.
pub open spec fn stroke_wf(pts: Seq<NormPoint>) -> bool {
    &&& 2 <= pts.len() <= MAX_STROKE_POINTS
    &&& forall|k: int| 0 <= k < pts.len() ==> (#[trigger] pts[k]).wf()
}

impl Stroke {
    pub open spec fn wf(&self) -> bool {
        stroke_wf(self@)
    }

    /// Tests the invariant.
    pub fn is_valid(&self) -> (b: bool)
        ensures
            b == self.wf(),
    {
        let n: usize = self.points.len();
        if n < 2 || n > MAX_STROKE_POINTS {
            return false;
        }
        let mut k: usize = 0;
        while k < n
            invariant
                k <= n,
                n == self.points.len(),
                forall|j: int| 0 <= j < k ==> (#[trigger] self.points@[j]).wf(),
            decreases n - k,
        {
            if !self.points[k].is_valid() {
                return false;
            }
            k += 1;
        }
        true
    }

    /// A copy of the stroke.
    pub fn duplicate(&self) -> (r: Stroke)
        ensures
            r@ == self@,
    {
        let mut points: Vec<NormPoint> = Vec::new();
        let n: usize = self.points.len();
        let mut k: usize = 0;
        while k < n
            invariant
                k <= n,
                n == self.points.len(),
                points@ =~= self.points@.take(k as int),
            decreases n - k,
        {
            points.push(self.points[k]);
            k += 1;
        }
        assert(self.points@.take(n as int) =~= self.points@);
        Stroke { points }
    }

    /// Builds a stroke from its points, refusing a sequence that breaks the
    /// invariant.
    pub fn new(points: Vec<NormPoint>) -> (r: Option<Stroke>)
        ensures
            stroke_wf(points@) ==> r is Some && r->0@ == points@,
            !stroke_wf(points@) ==> r is None,
    {
        let s = Stroke { points };
        if s.is_valid() {
            Some(s)
        } else {
            None
        }
    }
}

/// The point sequences of a sequence of strokes.
pub open spec fn stroke_views(strokes: Seq<Stroke>) -> Seq<Seq<NormPoint>> {
    strokes.map_values(|s: Stroke| s@)
}

/// The strokes of one source image, in the order in which they are drawn.
#[derive(Clone, Debug)]
pub struct VectorImage {
    pub strokes: Vec<Stroke>,
}

impl View for VectorImage {
    type V = Seq<Seq<NormPoint>>;

    open spec fn view(&self) -> Seq<Seq<NormPoint>> {
        stroke_views(self.strokes@)
    }
}

/// Every stroke of the sequence is well formed.
pub open spec fn strokes_wf(strokes: Seq<Seq<NormPoint>>) -> bool {
    forall|i: int| 0 <= i < strokes.len() ==> stroke_wf(#[trigger] strokes[i])
}

/// An image has at least one stroke, no more than `MAX_STROKES`, each of them
/// well formed.
pub open spec fn image_wf(strokes: Seq<Seq<NormPoint>>) -> bool {
    &&& 1 <= strokes.len() <= MAX_STROKES
    &&& strokes_wf(strokes)
}

impl VectorImage {
    pub open spec fn wf(&self) -> bool {
        image_wf(self@)
    }

    /// Tests the invariant.
    pub fn is_valid(&self) -> (b: bool)
        ensures
            b == self.wf(),
    {
        let n: usize = self.strokes.len();
        if n < 1 || n > MAX_STROKES {
            return false;
        }
        let mut i: usize = 0;
        while i < n
            invariant
                i <= n,
                n == self.strokes.len(),
                self@.len() == n,
                forall|j: int| 0 <= j < i ==> stroke_wf(#[trigger] self@[j]),
            decreases n - i,
        {
            if !self.strokes[i].is_valid() {
                assert(self@[i as int] == self.strokes@[i as int]@);
                return false;
            }
            assert(self@[i as int] == self.strokes@[i as int]@);
            i += 1;
        }
        true
    }

    /// A copy of the image.
    pub fn duplicate(&self) -> (r: VectorImage)
        ensures
            r@ == self@,
    {
        let mut strokes: Vec<Stroke> = Vec::new();
        let n: usize = self.strokes.len();
        let mut i: usize = 0;
        while i < n
            invariant
                i <= n,
                n == self.strokes.len(),
                stroke_views(strokes@) =~= self@.take(i as int),
            decreases n - i,
        {
            let s = self.strokes[i].duplicate();
            let ghost before = strokes@;
            strokes.push(s);
            assert(self@[i as int] == self.strokes@[i as int]@);
            assert(stroke_views(strokes@) =~= stroke_views(before).push(s@));
            i += 1;
        }
        assert(self@.take(n as int) =~= self@);
        VectorImage { strokes }
    }

    /// Builds an image from its strokes, refusing a sequence that breaks the
    /// invariant.
    pub fn new(strokes: Vec<Stroke>) -> (r: Option<VectorImage>)
        ensures
            match r {
                Some(img) => img.strokes@ == strokes@ && img.wf(),
                None => !image_wf(stroke_views(strokes@)),
            },
    {
        let img = VectorImage { strokes };
        if img.is_valid() {
            Some(img)
        } else {
            None
        }
    }
}

/// A speed multiplier lies between 1 and `MAX_SPEED`.
pub open spec fn valid_speed(speed: u32) -> bool {
    1 <= speed <= MAX_SPEED
}

/// Milliseconds between two consecutive moves: the base delay divided by the
/// speed, and never under the floor.
pub open spec fn step_delay(speed: int) -> int
    recommends
        speed >= 1,
{
    let d = (BASE_DELAY_MS as int) / speed;
    if d < MIN_DELAY_MS as int {
        MIN_DELAY_MS as int
    } else {
        d
    }
}

/// Computes the delay between two consecutive moves.
pub fn step_delay_ms(speed: u32) -> (d: u64)
    requires
        speed >= 1,
    ensures
        d == step_delay(speed as int),
        MIN_DELAY_MS <= d <= BASE_DELAY_MS,
{
    let d: u64 = BASE_DELAY_MS / (speed as u64);
    assert(d <= BASE_DELAY_MS) by (nonlinear_arith)
        requires
            d == BASE_DELAY_MS as int / speed as int,
            speed >= 1,
    ;
    if d < MIN_DELAY_MS {
        MIN_DELAY_MS
    } else {
        d
    }
}

/// The move to the screen point of `p`, due at `at`.
pub open spec fn move_action(region: CanvasRegion, p: NormPoint, at: int) -> ScheduledAction {
    ScheduledAction {
        kind: ActionKind::MoveTo {
            x: map_axis(region.x as int, region.width as int, p.x as int) as i64,
            y: map_axis(region.y as int, region.height as int, p.y as int) as i64,
        },
        at_ms: at as u64,
    }
}

/// The actions of one stroke whose first move is move number `first_move` of
/// the session: the move to the first point, the press, the moves through the
/// other points, the release. Move number `m` is due at `m * delay`; a press
/// or release is due with the move before it.
pub open spec fn stroke_actions(
    region: CanvasRegion,
    pts: Seq<NormPoint>,
    delay: int,
    first_move: int,
) -> Seq<ScheduledAction> {
    if pts.len() == 0 {
        Seq::empty()
    } else {
        Seq::new(
            pts.len() + 2,
            |i: int|
                if i == 0 {
                    move_action(region, pts[0], first_move * delay)
                } else if i == 1 {
                    ScheduledAction { kind: ActionKind::PenDown, at_ms: (first_move * delay) as u64 }
                } else if i <= pts.len() {
                    move_action(region, pts[i - 1], (first_move + i - 1) * delay)
                } else {
                    ScheduledAction {
                        kind: ActionKind::PenUp,
                        at_ms: ((first_move + pts.len() - 1) * delay) as u64,
                    }
                },
        )
    }
}

/// Number of points in all the strokes together.
pub open spec fn total_points(strokes: Seq<Seq<NormPoint>>) -> int
    decreases strokes.len(),
{
    if strokes.len() == 0 {
        0
    } else {
        total_points(strokes.drop_last()) + strokes.last().len()
    }
}

/// The action sequence of an image: the actions of its strokes, one stroke
/// after the other, on one running clock.
pub open spec fn schedule(region: CanvasRegion, strokes: Seq<Seq<NormPoint>>, delay: int) -> Seq<
    ScheduledAction,
>
    decreases strokes.len(),
{
    if strokes.len() == 0 {
        Seq::empty()
    } else {
        schedule(region, strokes.drop_last(), delay) + stroke_actions(
            region,
            strokes.last(),
            delay,
            total_points(strokes.drop_last()),
        )
    }
}

/// Builds the move to the screen point of `p`.
fn make_move(region: &CanvasRegion, p: NormPoint, at: u64) -> (a: ScheduledAction)
    ensures
        a == move_action(*region, p, at as int),
{
    proof {
        lemma_map_axis_fits(region.x as int, region.width as int, p.x as int);
        lemma_map_axis_fits(region.y as int, region.height as int, p.y as int);
    }
    ScheduledAction {
        kind: ActionKind::MoveTo {
            x: map_coord(region.x, region.width, p.x),
            y: map_coord(region.y, region.height, p.y),
        },
        at_ms: at,
    }
}

/// Appends the actions of one stroke to `out`.
fn push_stroke(
    out: &mut Vec<ScheduledAction>,
    region: &CanvasRegion,
    stroke: &Stroke,
    delay: u64,
    first_move: u64,
)
    requires
        stroke@.len() <= MAX_STROKE_POINTS,
        delay <= BASE_DELAY_MS,
        first_move <= MAX_STROKES * MAX_STROKE_POINTS,
    ensures
        final(out)@ == old(out)@ + stroke_actions(*region, stroke@, delay as int, first_move as int),
{
    let n: usize = stroke.points.len();
    if n == 0 {
        assert(out@ =~= out@ + Seq::<ScheduledAction>::empty());
        return ;
    }
    let ghost base = out@;
    let ghost target = stroke_actions(*region, stroke@, delay as int, first_move as int);
    assert(first_move * delay <= 1_000_000_000_000 * 16) by (nonlinear_arith)
        requires
            first_move <= 1_000_000_000_000,
            delay <= 16,
    ;
    let t0: u64 = first_move * delay;
    out.push(make_move(region, stroke.points[0], t0));
    out.push(ScheduledAction { kind: ActionKind::PenDown, at_ms: t0 });
    assert(out@ =~= base + target.take(2));
    let mut j: usize = 1;
    while j < n
        invariant
            1 <= j <= n,
            n == stroke.points.len(),
            n <= MAX_STROKE_POINTS,
            delay <= BASE_DELAY_MS,
            first_move <= MAX_STROKES * MAX_STROKE_POINTS,
            target == stroke_actions(*region, stroke@, delay as int, first_move as int),
            out@ =~= base + target.take(j + 1),
        decreases n - j,
    {
        assert((first_move + j) * delay <= 1_000_001_000_000 * 16) by (nonlinear_arith)
            requires
                first_move + j <= 1_000_001_000_000,
                0 <= delay <= 16,
        ;
        let t: u64 = (first_move + (j as u64)) * delay;
        out.push(make_move(region, stroke.points[j], t));
        assert(target[j + 1] == move_action(*region, stroke@[j as int], (first_move + j) * delay));
        j += 1;
    }
    assert((first_move + n - 1) * delay <= 1_000_001_000_000 * 16) by (nonlinear_arith)
        requires
            0 <= first_move + n - 1 <= 1_000_001_000_000,
            0 <= delay <= 16,
    ;
    let t_end: u64 = (first_move + ((n - 1) as u64)) * delay;
    out.push(ScheduledAction { kind: ActionKind::PenUp, at_ms: t_end });
    assert(out@ =~= base + target);
}

/// Lays an image out as the action sequence of a session: each stroke's
/// points mapped into the region, a press after the move to its first point,
/// a release after its last, and consecutive moves one delay apart.
pub fn build_schedule(image: &VectorImage, region: &CanvasRegion, speed: u32) -> (out: Vec<
    ScheduledAction,
>)
    requires
        image.wf(),
        valid_speed(speed),
    ensures
        out@ == schedule(*region, image@, step_delay(speed as int)),
        pen_balanced(out@),
        moves_within(out@, *region),
{
    proof {
        lemma_schedule_balanced(*region, image@, step_delay(speed as int));
        assert forall|i: int, k: int|
            0 <= i < image@.len() && 0 <= k < image@[i].len() implies (#[trigger] image@[i][k]).wf() by {
            assert(stroke_wf(image@[i]));
        }
        lemma_schedule_within(*region, image@, step_delay(speed as int));
    }
    let delay: u64 = step_delay_ms(speed);
    let mut out: Vec<ScheduledAction> = Vec::new();
    let mut moves: u64 = 0;
    let mut i: usize = 0;
    let count: usize = image.strokes.len();
    while i < count
        invariant
            i <= count,
            count == image.strokes.len(),
            image.wf(),
            delay <= BASE_DELAY_MS,
            moves == total_points(image@.take(i as int)),
            moves <= i * MAX_STROKE_POINTS,
            out@ == schedule(*region, image@.take(i as int), delay as int),
        decreases count - i,
    {
        let stroke = &image.strokes[i];
        proof {
            assert(image@[i as int] == stroke@);
            assert(stroke_wf(image@[i as int]));
            assert(image@.take(i + 1).drop_last() =~= image@.take(i as int));
            assert(image@.take(i + 1).last() == stroke@);
        }
        push_stroke(&mut out, region, stroke, delay, moves);
        moves = moves + (stroke.points.len() as u64);
        i += 1;
    }
    assert(image@.take(count as int) =~= image@);
    out
}

} // verus!
