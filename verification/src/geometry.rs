use vstd::prelude::*;

verus! {

/// Number of fixed-point units in the whole of a normalized axis: `UNIT`
/// stands for 1.0 and `UNIT / 2` for 0.5.
pub const UNIT: u32 = 1_000_000;

/// The screen rectangle that a drawing is mapped into.
#[derive(Clone, Copy, Debug, PartialEq, Eq, Structural)]
pub struct CanvasRegion {
    pub x: i32,
    pub y: i32,
    pub width: u32,
    pub height: u32,
}

impl CanvasRegion {
    /// A region has a positive width and a positive height.
    pub open spec fn wf(&self) -> bool {
        self.width > 0 && self.height > 0
    }

    /// Whether the screen point `(px, py)` lies in the closed rectangle.
    pub open spec fn contains(&self, px: int, py: int) -> bool {
        &&& self.x <= px <= self.x + self.width
        &&& self.y <= py <= self.y + self.height
    }

    /// Builds a region, refusing one without area.
    pub fn new(x: i32, y: i32, width: u32, height: u32) -> (r: Option<CanvasRegion>)
        ensures
            r == if width > 0 && height > 0 {
                Some(CanvasRegion { x, y, width, height })
            } else {
                None
            },
    {
        if width > 0 && height > 0 {
            Some(CanvasRegion { x, y, width, height })
        } else {
            None
        }
    }

    /// Tests the invariant.
    pub fn is_valid(&self) -> (b: bool)
        ensures
            b == self.wf(),
    {
        self.width > 0 && self.height > 0
    }
}

/// A point of normalized image space, each axis in units of `1 / UNIT`.
#[derive(Clone, Copy, Debug, PartialEq, Eq, Structural)]
pub struct NormPoint {
    pub x: u32,
    pub y: u32,
}

impl NormPoint {
    /// Both coordinates lie in the unit interval.
    pub open spec fn wf(&self) -> bool {
        self.x <= UNIT && self.y <= UNIT
    }

    /// Builds a point, refusing one outside the unit square.
    pub fn new(x: u32, y: u32) -> (r: Option<NormPoint>)
        ensures
            r == if x <= UNIT && y <= UNIT {
                Some(NormPoint { x, y })
            } else {
                None
            },
    {
        if x <= UNIT && y <= UNIT {
            Some(NormPoint { x, y })
        } else {
            None
        }
    }

    /// Tests the invariant.
    pub fn is_valid(&self) -> (b: bool)
        ensures
            b == self.wf(),
    {
        self.x <= UNIT && self.y <= UNIT
    }
}

/// The screen coordinate of the normalized coordinate `n` on an axis that
/// starts at `origin` and is `extent` long: `origin + n * extent / UNIT`,
/// rounded to the nearest integer, halves upwards.
pub open spec fn map_axis(origin: int, extent: int, n: int) -> int {
    origin + (n * extent + (UNIT as int) / 2) / (UNIT as int)
}

/// The screen point of a normalized point in a region.
pub open spec fn map_point_spec(region: CanvasRegion, p: NormPoint) -> (int, int) {
    (
        map_axis(region.x as int, region.width as int, p.x as int),
        map_axis(region.y as int, region.height as int, p.y as int),
    )
}

/// A mapped coordinate always fits the machine type that carries it.
pub proof fn lemma_map_axis_fits(origin: int, extent: int, n: int)
    requires
        i32::MIN <= origin <= i32::MAX,
        0 <= extent <= u32::MAX,
        0 <= n <= u32::MAX,
    ensures
        0 <= n * extent <= 0xFFFF_FFFE_0000_0001,
        origin <= map_axis(origin, extent, n) <= origin + 0x1_0000_0000_0000,
{
    assert(0 <= n * extent <= 0xFFFF_FFFF * 0xFFFF_FFFF) by (nonlinear_arith)
        requires
            0 <= extent <= 0xFFFF_FFFF,
            0 <= n <= 0xFFFF_FFFF,
    ;
}

/// Normalized coordinates of the unit interval land inside the axis they are
/// mapped to, both ends included.
pub proof fn lemma_map_axis_in_range(origin: int, extent: int, n: int)
    requires
        0 <= extent,
        0 <= n <= UNIT,
    ensures
        origin <= map_axis(origin, extent, n) <= origin + extent,
{
    let u = UNIT as int;
    assert(0 <= n * extent <= u * extent) by (nonlinear_arith)
        requires
            0 <= extent,
            0 <= n <= u,
    ;
    assert((u * extent + u / 2) / u == extent) by (nonlinear_arith)
        requires
            u == 1_000_000,
    ;
    assert((n * extent + u / 2) / u <= (u * extent + u / 2) / u) by (nonlinear_arith)
        requires
            n * extent <= u * extent,
            u == 1_000_000,
    ;
    assert(0 <= (n * extent + u / 2) / u) by (nonlinear_arith)
        requires
            0 <= n * extent,
            u == 1_000_000,
    ;
}

/// The two ends of the unit interval map to the two ends of the axis.
pub proof fn lemma_map_axis_ends(origin: int, extent: int)
    requires
        0 <= extent,
    ensures
        map_axis(origin, extent, 0) == origin,
        map_axis(origin, extent, UNIT as int) == origin + extent,
{
    let u = UNIT as int;
    assert((u * extent + u / 2) / u == extent) by (nonlinear_arith)
        requires
            u == 1_000_000,
    ;
    assert(0 * extent == 0);
}

/// Every point of the unit square maps into the closed rectangle of the
/// region.
pub proof fn lemma_mapped_point_in_region(region: CanvasRegion, p: NormPoint)
    requires
        p.wf(),
    ensures
        region.contains(map_point_spec(region, p).0, map_point_spec(region, p).1),
{
    lemma_map_axis_in_range(region.x as int, region.width as int, p.x as int);
    lemma_map_axis_in_range(region.y as int, region.height as int, p.y as int);
}

/// Maps one normalized coordinate onto a screen axis.
pub fn map_coord(origin: i32, extent: u32, n: u32) -> (r: i64)
    ensures
        r == map_axis(origin as int, extent as int, n as int),
{
    proof {
        lemma_map_axis_fits(origin as int, extent as int, n as int);
    }
    let scaled: u64 = (n as u64) * (extent as u64) + (UNIT as u64) / 2;
    let offset: u64 = scaled / (UNIT as u64);
    (origin as i64) + (offset as i64)
}

/// Maps a normalized point into a region.
pub fn map_point(region: &CanvasRegion, p: NormPoint) -> (r: (i64, i64))
    ensures
        (r.0 as int, r.1 as int) == map_point_spec(*region, p),
        p.wf() ==> region.contains(r.0 as int, r.1 as int),
{
    proof {
        if p.wf() {
            lemma_mapped_point_in_region(*region, p);
        }
    }
    (map_coord(region.x, region.width, p.x), map_coord(region.y, region.height, p.y))
}

} // verus!
