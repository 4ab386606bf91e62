use vstd::prelude::*;

verus! {

/// World units per degree of longitude or latitude: a world coordinate is a
/// number of 1e-7 degrees, treated as a planar frame.
pub const COORD_PER_DEGREE: i64 = 10_000_000;

/// A planar world position, in units of 1e-7 degree.
#[derive(Clone, Copy, Debug, PartialEq, Eq, Structural)]
pub struct Coord {
    pub x: i32,
    pub y: i32,
}

/// A world position with room for back-projected screen points, which may lie
/// outside the range of a `Coord`.
#[derive(Clone, Copy, Debug, PartialEq, Eq, Structural)]
pub struct WorldPoint {
    pub x: i128,
    pub y: i128,
}

/// A point on screen, in sub-pixel units (see `projection::SUBPIXEL`).
#[derive(Clone, Copy, Debug, PartialEq, Eq, Structural)]
pub struct ScreenPoint {
    pub x: i128,
    pub y: i128,
}

/// An axis-aligned rectangle in world units, bounds included.
#[derive(Clone, Copy, Debug, PartialEq, Eq, Structural)]
pub struct Rect {
    pub min_x: i128,
    pub min_y: i128,
    pub max_x: i128,
    pub max_y: i128,
}

impl Coord {
    pub fn new(x: i32, y: i32) -> (r: Coord)
        ensures
            r.x == x && r.y == y,
    {
        Coord { x, y }
    }

    /// The same position as a `WorldPoint`.
    pub fn to_world(&self) -> (r: WorldPoint)
        ensures
            r == self.world(),
    {
        WorldPoint { x: self.x as i128, y: self.y as i128 }
    }

    pub open spec fn world(self) -> WorldPoint {
        WorldPoint { x: self.x as i128, y: self.y as i128 }
    }
}

impl Rect {
    /// Lower bounds do not exceed upper bounds.
    pub open spec fn wf(self) -> bool {
        self.min_x <= self.max_x && self.min_y <= self.max_y
    }

    /// Closed rectangles that share at least one point.
    pub open spec fn meets(self, o: Rect) -> bool {
        self.min_x <= o.max_x && o.min_x <= self.max_x && self.min_y <= o.max_y && o.min_y
            <= self.max_y
    }

    /// Every bound is a value that a `Coord` can hold.
    pub open spec fn in_coord_range(self) -> bool {
        &&& i32::MIN <= self.min_x && self.max_x <= i32::MAX
        &&& i32::MIN <= self.min_y && self.max_y <= i32::MAX
    }

    pub open spec fn contains(self, p: WorldPoint) -> bool {
        self.min_x <= p.x <= self.max_x && self.min_y <= p.y <= self.max_y
    }

    /// The rectangle spanned by two opposite corners, given in any order.
    pub fn from_corners(p: WorldPoint, q: WorldPoint) -> (r: Rect)
        ensures
            r.wf(),
            r.min_x == min_i(p.x as int, q.x as int),
            r.max_x == max_i(p.x as int, q.x as int),
            r.min_y == min_i(p.y as int, q.y as int),
            r.max_y == max_i(p.y as int, q.y as int),
    {
        Rect {
            min_x: if p.x <= q.x { p.x } else { q.x },
            max_x: if p.x <= q.x { q.x } else { p.x },
            min_y: if p.y <= q.y { p.y } else { q.y },
            max_y: if p.y <= q.y { q.y } else { p.y },
        }
    }

    /// Whether two rectangles share a point; borders count.
    pub fn intersects(&self, o: &Rect) -> (r: bool)
        ensures
            r == self.meets(*o),
    {
        self.min_x <= o.max_x && o.min_x <= self.max_x && self.min_y <= o.max_y && o.min_y
            <= self.max_y
    }
}

pub open spec fn min_i(a: int, b: int) -> int {
    if a <= b {
        a
    } else {
        b
    }
}

pub open spec fn max_i(a: int, b: int) -> int {
    if a <= b {
        b
    } else {
        a
    }
}

/// Smallest x over a non-empty sequence of positions.
pub open spec fn seq_min_x(s: Seq<Coord>) -> int
    decreases s.len(),
{
    if s.len() <= 1 {
        s[0].x as int
    } else {
        min_i(seq_min_x(s.drop_last()), s.last().x as int)
    }
}

pub open spec fn seq_max_x(s: Seq<Coord>) -> int
    decreases s.len(),
{
    if s.len() <= 1 {
        s[0].x as int
    } else {
        max_i(seq_max_x(s.drop_last()), s.last().x as int)
    }
}

pub open spec fn seq_min_y(s: Seq<Coord>) -> int
    decreases s.len(),
{
    if s.len() <= 1 {
        s[0].y as int
    } else {
        min_i(seq_min_y(s.drop_last()), s.last().y as int)
    }
}

pub open spec fn seq_max_y(s: Seq<Coord>) -> int
    decreases s.len(),
{
    if s.len() <= 1 {
        s[0].y as int
    } else {
        max_i(seq_max_y(s.drop_last()), s.last().y as int)
    }
}

/// The smallest rectangle that holds every position of a non-empty sequence.
pub open spec fn bbox_of(s: Seq<Coord>) -> Rect {
    Rect {
        min_x: seq_min_x(s) as i128,
        min_y: seq_min_y(s) as i128,
        max_x: seq_max_x(s) as i128,
        max_y: seq_max_y(s) as i128,
    }
}

proof fn lemma_seq_bounds(s: Seq<Coord>)
    requires
        s.len() >= 1,
    ensures
        i32::MIN <= seq_min_x(s) <= seq_max_x(s) <= i32::MAX,
        i32::MIN <= seq_min_y(s) <= seq_max_y(s) <= i32::MAX,
        forall|i: int|
            0 <= i < s.len() ==> seq_min_x(s) <= #[trigger] s[i].x <= seq_max_x(s) && seq_min_y(s) <= s[i].y
                <= seq_max_y(s),
    decreases s.len(),
{
    if s.len() > 1 {
        lemma_seq_bounds(s.drop_last());
        assert forall|i: int| 0 <= i < s.len() - 1 implies s[i] == s.drop_last()[i] by {}
    }
}

/// The bounding box of a non-empty line-string.
pub fn bounding_box(points: &Vec<Coord>) -> (r: Rect)
    requires
        points@.len() >= 1,
    ensures
        r == bbox_of(points@),
        r.wf(),
        r.in_coord_range(),
        forall|i: int| 0 <= i < points@.len() ==> r.contains(#[trigger] points@[i].world()),
{
    let mut lo_x: i32 = points[0].x;
    let mut hi_x: i32 = points[0].x;
    let mut lo_y: i32 = points[0].y;
    let mut hi_y: i32 = points[0].y;
    let mut i: usize = 1;
    while i < points.len()
        invariant
            1 <= i <= points@.len(),
            lo_x == seq_min_x(points@.subrange(0, i as int)),
            hi_x == seq_max_x(points@.subrange(0, i as int)),
            lo_y == seq_min_y(points@.subrange(0, i as int)),
            hi_y == seq_max_y(points@.subrange(0, i as int)),
        decreases points@.len() - i,
    {
        let p = points[i];
        assert(points@.subrange(0, i + 1).drop_last() =~= points@.subrange(0, i as int));
        if p.x < lo_x {
            lo_x = p.x;
        }
        if p.x > hi_x {
            hi_x = p.x;
        }
        if p.y < lo_y {
            lo_y = p.y;
        }
        if p.y > hi_y {
            hi_y = p.y;
        }
        i = i + 1;
    }
    assert(points@.subrange(0, i as int) =~= points@);
    proof {
        lemma_seq_bounds(points@);
    }
    Rect { min_x: lo_x as i128, min_y: lo_y as i128, max_x: hi_x as i128, max_y: hi_y as i128 }
}

} // verus!
