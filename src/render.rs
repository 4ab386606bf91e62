use vstd::prelude::*;
use vstd::arithmetic::div_mod::lemma_div_is_ordered;

use crate::geometry::{Coord, Rect, ScreenPoint, bbox_of, max_i, min_i};
use crate::projection::{Heading, Projection, SUBPIXEL, in_pixel_reach, in_screen_reach};
use crate::state::State;
use crate::transform::{Transform, rotated, scale_step};

verus! {

/// Half of `SUBPIXEL`: the viewport center is a whole number of these.
pub const HALF_SUBPIXEL: i128 = 81_920_000_000;

/// Radius of the current-position marker, in pixels; it does not zoom.
pub const POSITION_RADIUS: i128 = 10;

/// Stroke widths, in pixels.
pub const TRAIL_WIDTH: u32 = 3;

pub const ROAD_WIDTH: u32 = 1;

/// Compass glyph coordinates are thousandths of the compass radius.
pub const GLYPH_UNIT: i128 = 1000;

/// Sub-pixels per glyph unit, per heading unit and per pixel of compass
/// height: `SUBPIXEL / (HEADING_UNIT * GLYPH_UNIT * 2)`.
pub const COMPASS_FACTOR: i128 = 5000;

/// The on-screen drawing region of one frame, in pixels; `right` and `bottom`
/// lie past the last column and row.
#[derive(Clone, Copy, Debug, PartialEq, Eq, Structural)]
pub struct Viewport {
    pub left: i32,
    pub top: i32,
    pub right: i32,
    pub bottom: i32,
}

#[derive(Clone, Copy, Debug, PartialEq, Eq, Structural)]
pub enum Color {
    Gold,
    Blue,
    Red,
    DarkBlue,
}

/// A drawing primitive in screen space (sub-pixels).
#[derive(Debug)]
pub enum Shape {
    Circle { center: ScreenPoint, radius: i128, fill: Color },
    Path { points: Vec<ScreenPoint>, width: u32, stroke: Color },
    Polygon { points: Vec<ScreenPoint>, fill: Color },
}

/// A multi-touch gesture step: a zoom factor `zoom_num / zoom_den` and a
/// rotation in microradians.
#[derive(Clone, Copy, Debug, PartialEq, Eq, Structural)]
pub struct Gesture {
    pub zoom_num: u64,
    pub zoom_den: u64,
    pub rotation: i64,
}

/// What one frame of the map shows: the projection it used, the world
/// rectangle it queried, the roads found there, and the shapes to draw.
pub struct MapFrame {
    pub projection: Projection,
    pub query: Rect,
    pub roads: Vec<usize>,
    pub shapes: Vec<Shape>,
}

impl Viewport {
    pub open spec fn is_degenerate(self) -> bool {
        self.right <= self.left || self.bottom <= self.top
    }

    pub open spec fn center_spec(self) -> ScreenPoint {
        ScreenPoint {
            x: ((self.left + self.right) * HALF_SUBPIXEL) as i128,
            y: ((self.top + self.bottom) * HALF_SUBPIXEL) as i128,
        }
    }

    /// The four corners in sub-pixels: top-left, top-right, bottom-left,
    /// bottom-right.
    pub open spec fn corner(self, k: int) -> ScreenPoint {
        let x = if k == 0 || k == 2 {
            self.left
        } else {
            self.right
        };
        let y = if k < 2 {
            self.top
        } else {
            self.bottom
        };
        ScreenPoint { x: (x * SUBPIXEL) as i128, y: (y * SUBPIXEL) as i128 }
    }

    /// The middle of the viewport, in sub-pixels.
    pub fn center(&self) -> (r: ScreenPoint)
        ensures
            r == self.center_spec(),
            in_pixel_reach(r.x as int) && in_pixel_reach(r.y as int),
    {
        ScreenPoint {
            x: (self.left as i128 + self.right as i128) * HALF_SUBPIXEL,
            y: (self.top as i128 + self.bottom as i128) * HALF_SUBPIXEL,
        }
    }
}

pub open spec fn min4(a: int, b: int, c: int, d: int) -> int {
    min_i(min_i(a, b), min_i(c, d))
}

pub open spec fn max4(a: int, b: int, c: int, d: int) -> int {
    max_i(max_i(a, b), max_i(c, d))
}

/// The world rectangle that the viewport covers under `p`: the bounds of
/// its four back-projected corners.
pub open spec fn world_rect(p: Projection, vp: Viewport) -> Rect {
    let w0 = p.invert_spec(vp.corner(0));
    let w1 = p.invert_spec(vp.corner(1));
    let w2 = p.invert_spec(vp.corner(2));
    let w3 = p.invert_spec(vp.corner(3));
    Rect {
        min_x: min4(w0.x as int, w1.x as int, w2.x as int, w3.x as int) as i128,
        min_y: min4(w0.y as int, w1.y as int, w2.y as int, w3.y as int) as i128,
        max_x: max4(w0.x as int, w1.x as int, w2.x as int, w3.x as int) as i128,
        max_y: max4(w0.y as int, w1.y as int, w2.y as int, w3.y as int) as i128,
    }
}

/// A projection whose offset lies within pixel reach takes every viewport
/// corner.
proof fn lemma_corners_in_reach(p: Projection, vp: Viewport, k: int)
    requires
        p.wf(),
    ensures
        in_screen_reach(vp.corner(k), p.offset),
{
}

/// The queried rectangle is the smallest one that holds the four
/// back-projected viewport corners, whatever their order: it holds each of
/// them, and each of its bounds is a coordinate of one of them.
pub proof fn lemma_world_rect_is_corner_bounds(p: Projection, vp: Viewport)
    ensures
        world_rect(p, vp).wf(),
        forall|k: int| 0 <= k < 4 ==> world_rect(p, vp).contains(#[trigger] p.invert_spec(vp.corner(k))),
        exists|k: int| 0 <= k < 4 && world_rect(p, vp).min_x == p.invert_spec(vp.corner(k)).x,
        exists|k: int| 0 <= k < 4 && world_rect(p, vp).max_x == p.invert_spec(vp.corner(k)).x,
        exists|k: int| 0 <= k < 4 && world_rect(p, vp).min_y == p.invert_spec(vp.corner(k)).y,
        exists|k: int| 0 <= k < 4 && world_rect(p, vp).max_y == p.invert_spec(vp.corner(k)).y,
{
    let r = world_rect(p, vp);
    let w0 = p.invert_spec(vp.corner(0));
    let w1 = p.invert_spec(vp.corner(1));
    let w2 = p.invert_spec(vp.corner(2));
    let w3 = p.invert_spec(vp.corner(3));
    assert(r.contains(w0) && r.contains(w1) && r.contains(w2) && r.contains(w3));
    assert forall|k: int| 0 <= k < 4 implies r.contains(#[trigger] p.invert_spec(vp.corner(k))) by {
        if k == 0 {
        } else if k == 1 {
        } else if k == 2 {
        } else {
        }
    }
    if r.min_x == w0.x { assert(r.min_x == p.invert_spec(vp.corner(0)).x); }
    else if r.min_x == w1.x { assert(r.min_x == p.invert_spec(vp.corner(1)).x); }
    else if r.min_x == w2.x { assert(r.min_x == p.invert_spec(vp.corner(2)).x); }
    else { assert(r.min_x == p.invert_spec(vp.corner(3)).x); }
    if r.max_x == w0.x { assert(r.max_x == p.invert_spec(vp.corner(0)).x); }
    else if r.max_x == w1.x { assert(r.max_x == p.invert_spec(vp.corner(1)).x); }
    else if r.max_x == w2.x { assert(r.max_x == p.invert_spec(vp.corner(2)).x); }
    else { assert(r.max_x == p.invert_spec(vp.corner(3)).x); }
    if r.min_y == w0.y { assert(r.min_y == p.invert_spec(vp.corner(0)).y); }
    else if r.min_y == w1.y { assert(r.min_y == p.invert_spec(vp.corner(1)).y); }
    else if r.min_y == w2.y { assert(r.min_y == p.invert_spec(vp.corner(2)).y); }
    else { assert(r.min_y == p.invert_spec(vp.corner(3)).y); }
    if r.max_y == w0.y { assert(r.max_y == p.invert_spec(vp.corner(0)).y); }
    else if r.max_y == w1.y { assert(r.max_y == p.invert_spec(vp.corner(1)).y); }
    else if r.max_y == w2.y { assert(r.max_y == p.invert_spec(vp.corner(2)).y); }
    else { assert(r.max_y == p.invert_spec(vp.corner(3)).y); }
}

/// A linear form `a x + b y` over a box takes values between its least and
/// greatest value at the four corners.
proof fn lemma_linear_between_corners(a: int, b: int, x: int, y: int, x0: int, x1: int, y0: int, y1: int)
    requires
        x0 <= x <= x1,
        y0 <= y <= y1,
    ensures
        min4(a * x0 + b * y0, a * x1 + b * y0, a * x0 + b * y1, a * x1 + b * y1) <= a * x + b * y,
        a * x + b * y <= max4(a * x0 + b * y0, a * x1 + b * y0, a * x0 + b * y1, a * x1 + b * y1),
{
    if a >= 0 {
        assert(a * x0 <= a * x <= a * x1) by (nonlinear_arith)
            requires a >= 0, x0 <= x <= x1;
    } else {
        assert(a * x1 <= a * x <= a * x0) by (nonlinear_arith)
            requires a < 0, x0 <= x <= x1;
    }
    if b >= 0 {
        assert(b * y0 <= b * y <= b * y1) by (nonlinear_arith)
            requires b >= 0, y0 <= y <= y1;
    } else {
        assert(b * y1 <= b * y <= b * y0) by (nonlinear_arith)
            requires b < 0, y0 <= y <= y1;
    }
}

proof fn lemma_swap_form(a: int, b: int, u: int, v: int)
    ensures
        a * v - b * u == (-b) * u + a * v,
{
    assert(a * v - b * u == (-b) * u + a * v) by (nonlinear_arith);
}

/// Rounding down by a positive divisor keeps a value between the least and
/// greatest of four others.
proof fn lemma_div_between(f: int, f0: int, f1: int, f2: int, f3: int, n: int)
    requires
        n > 0,
        min4(f0, f1, f2, f3) <= f <= max4(f0, f1, f2, f3),
    ensures
        min4(f0 / n, f1 / n, f2 / n, f3 / n) <= f / n <= max4(f0 / n, f1 / n, f2 / n, f3 / n),
{
    let lo = min4(f0, f1, f2, f3);
    let hi = max4(f0, f1, f2, f3);
    lemma_div_is_ordered(lo, f, n);
    lemma_div_is_ordered(f, hi, n);
    if lo == f0 {
    } else if lo == f1 {
    } else if lo == f2 {
    } else {
        assert(lo == f3);
    }
    if hi == f0 {
    } else if hi == f1 {
    } else if hi == f2 {
    } else {
        assert(hi == f3);
    }
}

/// The queried rectangle holds the back-projection of every point of the
/// viewport, borders included, whatever the rotation.
pub proof fn lemma_world_rect_holds_viewport(p: Projection, vp: Viewport, q: ScreenPoint)
    requires
        p.wf(),
        vp.left * SUBPIXEL <= q.x <= vp.right * SUBPIXEL,
        vp.top * SUBPIXEL <= q.y <= vp.bottom * SUBPIXEL,
    ensures
        world_rect(p, vp).contains(p.invert_spec(q)),
{
    lemma_corners_in_reach(p, vp, 0);
    lemma_corners_in_reach(p, vp, 1);
    lemma_corners_in_reach(p, vp, 2);
    lemma_corners_in_reach(p, vp, 3);
    p.lemma_invert_exact(q);
    p.lemma_invert_exact(vp.corner(0));
    p.lemma_invert_exact(vp.corner(1));
    p.lemma_invert_exact(vp.corner(2));
    p.lemma_invert_exact(vp.corner(3));
    let a = p.a as int;
    let b = p.b as int;
    let dx = q.x - p.offset.x;
    let dy = q.y - p.offset.y;
    let x0 = vp.left * SUBPIXEL - p.offset.x;
    let x1 = vp.right * SUBPIXEL - p.offset.x;
    let y0 = vp.top * SUBPIXEL - p.offset.y;
    let y1 = vp.bottom * SUBPIXEL - p.offset.y;
    lemma_linear_between_corners(a, b, dx, dy, x0, x1, y0, y1);
    lemma_linear_between_corners(-b, a, dx, dy, x0, x1, y0, y1);
    lemma_swap_form(a, b, dx, dy);
    lemma_swap_form(a, b, x0, y0);
    lemma_swap_form(a, b, x1, y0);
    lemma_swap_form(a, b, x0, y1);
    lemma_swap_form(a, b, x1, y1);
    let n = p.norm();
    lemma_div_between(
        p.inv_num_x(q),
        p.inv_num_x(vp.corner(0)),
        p.inv_num_x(vp.corner(1)),
        p.inv_num_x(vp.corner(2)),
        p.inv_num_x(vp.corner(3)),
        n,
    );
    lemma_div_between(
        p.inv_num_y(q),
        p.inv_num_y(vp.corner(0)),
        p.inv_num_y(vp.corner(1)),
        p.inv_num_y(vp.corner(2)),
        p.inv_num_y(vp.corner(3)),
        n,
    );
}

fn min2(a: i128, b: i128) -> (r: i128)
    ensures
        r == min_i(a as int, b as int),
{
    if a <= b {
        a
    } else {
        b
    }
}

fn max2(a: i128, b: i128) -> (r: i128)
    ensures
        r == max_i(a as int, b as int),
{
    if a <= b {
        b
    } else {
        a
    }
}

fn corner_of(vp: &Viewport, k: usize) -> (r: ScreenPoint)
    requires
        k < 4,
    ensures
        r == vp.corner(k as int),
{
    let x = if k == 0 || k == 2 {
        vp.left
    } else {
        vp.right
    };
    let y = if k < 2 {
        vp.top
    } else {
        vp.bottom
    };
    ScreenPoint { x: x as i128 * SUBPIXEL, y: y as i128 * SUBPIXEL }
}

/// The world rectangle to query for a viewport: all four screen corners are
/// mapped back and combined, which bounds a rotated viewport too.
pub fn viewport_rect(p: &Projection, vp: &Viewport) -> (r: Rect)
    requires
        p.wf(),
    ensures
        r == world_rect(*p, *vp),
        r.wf(),
{
    proof {
        lemma_corners_in_reach(*p, *vp, 0);
        lemma_corners_in_reach(*p, *vp, 1);
        lemma_corners_in_reach(*p, *vp, 2);
        lemma_corners_in_reach(*p, *vp, 3);
    }
    let w0 = p.invert(&corner_of(vp, 0));
    let w1 = p.invert(&corner_of(vp, 1));
    let w2 = p.invert(&corner_of(vp, 2));
    let w3 = p.invert(&corner_of(vp, 3));
    Rect {
        min_x: min2(min2(w0.x, w1.x), min2(w2.x, w3.x)),
        min_y: min2(min2(w0.y, w1.y), min2(w2.y, w3.y)),
        max_x: max2(max2(w0.x, w1.x), max2(w2.x, w3.x)),
        max_y: max2(max2(w0.y, w1.y), max2(w2.y, w3.y)),
    }
}

/// The screen positions of a sequence of world positions.
pub open spec fn projected(p: Projection, s: Seq<Coord>) -> Seq<ScreenPoint> {
    s.map_values(|c: Coord| p.apply_spec(c.world()))
}

/// Projects every position of a line-string.
pub fn project_all(p: &Projection, points: &Vec<Coord>) -> (r: Vec<ScreenPoint>)
    requires
        p.wf(),
    ensures
        r@ == projected(*p, points@),
{
    let mut r: Vec<ScreenPoint> = Vec::new();
    let mut i: usize = 0;
    while i < points.len()
        invariant
            i <= points@.len(),
            p.wf(),
            r@ == projected(*p, points@.subrange(0, i as int)),
        decreases points@.len() - i,
    {
        let q = p.apply(&points[i]);
        r.push(q);
        i = i + 1;
        assert(projected(*p, points@.subrange(0, i as int)) =~= projected(
            *p,
            points@.subrange(0, i - 1),
        ).push(q));
    }
    assert(points@.subrange(0, i as int) =~= points@);
    r
}

pub open spec fn is_path(s: Shape, pts: Seq<ScreenPoint>, w: u32, c: Color) -> bool {
    match s {
        Shape::Path { points, width, stroke } => points@ == pts && width == w && stroke == c,
        _ => false,
    }
}

pub open spec fn is_polygon(s: Shape, pts: Seq<ScreenPoint>, c: Color) -> bool {
    match s {
        Shape::Polygon { points, fill } => points@ == pts && fill == c,
        _ => false,
    }
}

/// The view after one gesture step: zoom first, then rotation; the pan stays.
pub open spec fn after_gesture(before: Transform, g: Gesture, after: Transform) -> bool {
    &&& after.scale_spec() == scale_step(before.scale_spec(), g.zoom_num as int, g.zoom_den as int)
    &&& after.rotation_spec() == rotated(before.rotation_spec(), g.rotation as int)
    &&& after.pan() == before.pan()
}

/// Applies one gesture step to the view: zoom first, then rotation.
pub fn apply_gesture(state: &mut State, g: &Gesture)
    requires
        old(state).wf(),
        g.zoom_num > 0,
        g.zoom_den > 0,
    ensures
        final(state).wf(),
        after_gesture(old(state).view(), *g, final(state).view()),
        final(state).trail() == old(state).trail(),
        final(state).timestamps() == old(state).timestamps(),
        final(state).index() == old(state).index(),
        final(state).repaint_pending() == old(state).repaint_pending(),
{
    let mut t = state.transform();
    t.scale(g.zoom_num, g.zoom_den);
    t.rotate(g.rotation);
    state.set_transform(t);
}

/// The rotation that a frame with this gesture (if any) ends with; the
/// caller turns it into the `Heading` that `render_frame` takes.
pub fn frame_rotation(state: &State, gesture: Option<Gesture>) -> (r: i64)
    ensures
        gesture.is_none() ==> r == state.view().rotation_spec(),
        gesture.is_some() ==> r == rotated(state.view().rotation_spec(), gesture.unwrap().rotation as int),
{
    match gesture {
        Some(g) => state.transform().rotation_after(g.rotation),
        None => state.transform().get_rotation(),
    }
}

/// One frame: applies the gesture step if there is one, even when nothing
/// is drawn, then plans the map as `cartograph` does. `heading` is the
/// direction of the rotation the frame ends with (see `frame_rotation`).
pub fn render_frame(state: &mut State, gesture: Option<Gesture>, heading: Heading, vp: &Viewport) -> (r: Option<MapFrame>)
    requires
        old(state).wf(),
        heading.wf(),
        gesture.is_some() ==> gesture.unwrap().zoom_num > 0 && gesture.unwrap().zoom_den > 0,
    ensures
        final(state).wf(),
        gesture.is_none() ==> final(state).view() == old(state).view(),
        gesture.is_some() ==> after_gesture(old(state).view(), gesture.unwrap(), final(state).view()),
        final(state).trail() == old(state).trail(),
        final(state).timestamps() == old(state).timestamps(),
        final(state).index() == old(state).index(),
        final(state).repaint_pending() == old(state).repaint_pending(),
        r.is_none() <==> (vp.is_degenerate() || old(state).trail().len() == 0),
        r.is_some() ==> is_map_frame(*final(state), heading, *vp, r.unwrap()),
{
    if let Some(g) = gesture {
        apply_gesture(state, &g);
    }
    cartograph(state, heading, vp)
}

/// Where the road shapes of a frame start: after the position marker, and
/// after the trail when it has two fixes or more.
pub open spec fn first_road_shape(trail_len: nat) -> int {
    if trail_len > 1 {
        2
    } else {
        1
    }
}

/// The frame that `cartograph` owes for a state, heading and viewport.
pub open spec fn is_map_frame(state: State, heading: Heading, vp: Viewport, f: MapFrame) -> bool {
    let trail = state.trail();
    let current = trail.last();
    let index = state.index()@;
    let p = f.projection;
    let first_road = first_road_shape(trail.len());
    &&& p == Projection::of(state.view(), heading, current, vp.center_spec())
    &&& p.wf()
    &&& f.query == world_rect(p, vp)
    &&& forall|id: usize|
        #![trigger f.roads@.contains(id)]
        f.roads@.contains(id) <==> (id < index.len() && bbox_of(index[id as int]).meets(f.query))
    &&& f.shapes@.len() == first_road + f.roads@.len()
    &&& f.shapes@[0] == (Shape::Circle {
        center: p.apply_spec(current.world()),
        radius: (POSITION_RADIUS * SUBPIXEL) as i128,
        fill: Color::Gold,
    })
    &&& trail.len() > 1 ==> is_path(f.shapes@[1], projected(p, trail), TRAIL_WIDTH, Color::Blue)
    &&& forall|k: int|
        #![trigger f.roads@[k]]
        0 <= k < f.roads@.len() ==> f.roads@[k] < index.len() && is_path(
            f.shapes@[first_road + k],
            projected(p, index[f.roads@[k] as int]),
            ROAD_WIDTH,
            Color::Red,
        )
}

/// Plans one frame of the map: nothing without a fix or on an empty viewport;
/// otherwise the current position, the trail when it has two fixes or more,
/// and every road whose bounding box meets the world rectangle that the
/// viewport covers, all projected around the current position.
pub fn cartograph(state: &State, heading: Heading, vp: &Viewport) -> (r: Option<MapFrame>)
    requires
        state.wf(),
        heading.wf(),
    ensures
        r.is_none() <==> (vp.is_degenerate() || state.trail().len() == 0),
        r.is_some() ==> is_map_frame(*state, heading, *vp, r.unwrap()),
{
    if vp.right <= vp.left || vp.bottom <= vp.top {
        return None;
    }
    let current = match state.current() {
        Some(c) => c,
        None => {
            return None;
        },
    };
    let t = state.transform();
    let center = vp.center();
    let p = Projection::new(&t, heading, current, center);
    let trail = state.user_location();
    let mut shapes: Vec<Shape> = Vec::new();
    shapes.push(
        Shape::Circle { center: p.apply(&current), radius: POSITION_RADIUS * SUBPIXEL, fill: Color::Gold },
    );
    if trail.len() > 1 {
        shapes.push(Shape::Path { points: project_all(&p, trail), width: TRAIL_WIDTH, stroke: Color::Blue });
    }
    let first_road: usize = shapes.len();
    let query = viewport_rect(&p, vp);
    let index = state.roads();
    let ids = index.query(&query);
    let mut k: usize = 0;
    while k < ids.len()
        invariant
            k <= ids@.len(),
            p.wf(),
            state.wf(),
            *index == state.index(),
            forall|id: usize| #[trigger] ids@.contains(id) ==> id < index@.len(),
            shapes@.len() == first_road + k,
            first_road == first_road_shape(trail@.len()),
            shapes@[0] == (Shape::Circle {
                center: p.apply_spec(current.world()),
                radius: (POSITION_RADIUS * SUBPIXEL) as i128,
                fill: Color::Gold,
            }),
            trail@.len() > 1 ==> is_path(shapes@[1], projected(p, trail@), TRAIL_WIDTH, Color::Blue),
            forall|j: int|
                #![trigger ids@[j]]
                0 <= j < k ==> ids@[j] < index@.len() && is_path(
                    shapes@[first_road + j],
                    projected(p, index@[ids@[j] as int]),
                    ROAD_WIDTH,
                    Color::Red,
                ),
        decreases ids@.len() - k,
    {
        let id = ids[k];
        assert(ids@.contains(id));
        let pts = project_all(&p, index.geometry(id));
        shapes.push(Shape::Path { points: pts, width: ROAD_WIDTH, stroke: Color::Red });
        k = k + 1;
    }
    let f = MapFrame { projection: p, query, roads: ids, shapes };
    assert(f.shapes@.len() == first_road + f.roads@.len());
    Some(f)
}

/// The arrow halves of the compass glyph, pointing up in the unrotated frame,
/// in glyph units: each a triangle from the tip to a wing at 60 degrees to
/// the tail.
pub open spec fn arrow_left() -> Seq<(int, int)> {
    seq![(0int, -1000int), (-500int, 866int), (0int, 500int)]
}

pub open spec fn arrow_right() -> Seq<(int, int)> {
    seq![(0int, 500int), (500int, 866int), (0int, -1000int)]
}

/// A glyph point on a compass of the given pixel height centered at `c`:
/// rotated by the heading and zoomed to half the height per thousand units.
pub open spec fn compass_point(h: Heading, c: ScreenPoint, height: int, g: (int, int)) -> ScreenPoint {
    ScreenPoint {
        x: (c.x + (h.cos * g.0 - h.sin * g.1) * height * COMPASS_FACTOR) as i128,
        y: (c.y + (h.sin * g.0 + h.cos * g.1) * height * COMPASS_FACTOR) as i128,
    }
}

pub open spec fn compass_glyph(h: Heading, c: ScreenPoint, height: int, g: Seq<(int, int)>) -> Seq<
    ScreenPoint,
> {
    g.map_values(|q: (int, int)| compass_point(h, c, height, q))
}

fn compass_point_exec(h: Heading, c: ScreenPoint, height: i128, gx: i128, gy: i128) -> (r: ScreenPoint)
    requires
        h.wf(),
        0 < height <= 0x1_0000_0000,
        -GLYPH_UNIT <= gx <= GLYPH_UNIT,
        -GLYPH_UNIT <= gy <= GLYPH_UNIT,
        in_pixel_reach(c.x as int) && in_pixel_reach(c.y as int),
    ensures
        r == compass_point(h, c, height as int, (gx as int, gy as int)),
{
    let cs = h.cos as i128;
    let sn = h.sin as i128;
    let lim: i128 = 16384 * 1000;
    assert(-lim <= cs * gx <= lim) by (nonlinear_arith)
        requires -16384 <= cs <= 16384, -1000 <= gx <= 1000, lim == 16384 * 1000;
    assert(-lim <= sn * gy <= lim) by (nonlinear_arith)
        requires -16384 <= sn <= 16384, -1000 <= gy <= 1000, lim == 16384 * 1000;
    assert(-lim <= sn * gx <= lim) by (nonlinear_arith)
        requires -16384 <= sn <= 16384, -1000 <= gx <= 1000, lim == 16384 * 1000;
    assert(-lim <= cs * gy <= lim) by (nonlinear_arith)
        requires -16384 <= cs <= 16384, -1000 <= gy <= 1000, lim == 16384 * 1000;
    let u = cs * gx - sn * gy;
    let v = sn * gx + cs * gy;
    assert(-2 * lim * 0x1_0000_0000 <= u * height <= 2 * lim * 0x1_0000_0000) by (nonlinear_arith)
        requires -2 * lim <= u <= 2 * lim, 0 < height <= 0x1_0000_0000;
    assert(-2 * lim * 0x1_0000_0000 <= v * height <= 2 * lim * 0x1_0000_0000) by (nonlinear_arith)
        requires -2 * lim <= v <= 2 * lim, 0 < height <= 0x1_0000_0000;
    ScreenPoint { x: c.x + u * height * COMPASS_FACTOR, y: c.y + v * height * COMPASS_FACTOR }
}

fn compass_glyph_exec(h: Heading, c: ScreenPoint, height: i128, g: [(i128, i128); 3]) -> (r: Vec<ScreenPoint>)
    requires
        h.wf(),
        0 < height <= 0x1_0000_0000,
        forall|i: int| 0 <= i < 3 ==> -GLYPH_UNIT <= #[trigger] g[i].0 <= GLYPH_UNIT && -GLYPH_UNIT <= g[i].1 <= GLYPH_UNIT,
        in_pixel_reach(c.x as int) && in_pixel_reach(c.y as int),
    ensures
        r@ == compass_glyph(h, c, height as int, seq![
            (g[0].0 as int, g[0].1 as int),
            (g[1].0 as int, g[1].1 as int),
            (g[2].0 as int, g[2].1 as int),
        ]),
{
    let p0 = compass_point_exec(h, c, height, g[0].0, g[0].1);
    let p1 = compass_point_exec(h, c, height, g[1].0, g[1].1);
    let p2 = compass_point_exec(h, c, height, g[2].0, g[2].1);
    let r = vec![p0, p1, p2];
    assert(r@ =~= compass_glyph(h, c, height as int, seq![
        (g[0].0 as int, g[0].1 as int),
        (g[1].0 as int, g[1].1 as int),
        (g[2].0 as int, g[2].1 as int),
    ]));
    r
}

/// The compass for a square viewport whose side is its height: a disk that
/// fills it, and the two arrow halves rotated by the heading alone, at a zoom
/// of half the side. Nothing on an empty viewport.
pub fn compass(heading: Heading, vp: &Viewport) -> (r: Vec<Shape>)
    requires
        heading.wf(),
    ensures
        vp.is_degenerate() ==> r@.len() == 0,
        !vp.is_degenerate() ==> {
            let height = vp.bottom - vp.top;
            let c = vp.center_spec();
            &&& r@.len() == 3
            &&& r@[0] == (Shape::Circle { center: c, radius: (height * HALF_SUBPIXEL) as i128, fill: Color::DarkBlue })
            &&& is_polygon(r@[1], compass_glyph(heading, c, height, arrow_left()), Color::Red)
            &&& is_polygon(r@[2], compass_glyph(heading, c, height, arrow_right()), Color::Red)
        },
{
    let mut r: Vec<Shape> = Vec::new();
    if vp.right <= vp.left || vp.bottom <= vp.top {
        return r;
    }
    let height = vp.bottom as i128 - vp.top as i128;
    let c = vp.center();
    r.push(Shape::Circle { center: c, radius: height * HALF_SUBPIXEL, fill: Color::DarkBlue });
    let left = compass_glyph_exec(heading, c, height, [(0, -1000), (-500, 866), (0, 500)]);
    assert(left@ == compass_glyph(heading, c, height as int, arrow_left()));
    r.push(Shape::Polygon { points: left, fill: Color::Red });
    let right = compass_glyph_exec(heading, c, height, [(0, 500), (500, 866), (0, -1000)]);
    assert(right@ == compass_glyph(heading, c, height as int, arrow_right()));
    r.push(Shape::Polygon { points: right, fill: Color::Red });
    r
}

} // verus!
