use vstd::prelude::*;
use crate::canvas::{
    Canvas, Color, ICON_SIZE, in_canvas, idx, is_icon, px_at, lemma_idx_bounds,
    lemma_idx_injective,
};

verus! {

/// Angles are measured in thousandths of a degree; a full turn is this many.
pub const FULL_TURN: u64 = 360_000;

/// The largest radius a table of polar angles may cover.
pub const MAX_TABLE_RADIUS: u32 = 1000;

/// The polar angle of every integer offset `(dx, dy)` with `|dx|, |dy| <= radius`,
/// in thousandths of a degree within `[0, FULL_TURN)`, measured from the +x axis
/// towards +y (downwards on the canvas).
///
/// Angles take floating-point trigonometry to compute; callers supply them and
/// this type checks their shape.
pub struct PolarAngles {
    radius: u32,
    angles: Vec<u32>,
}

/// Offsets per row of a table of the given radius.
pub open spec fn table_side(radius: int) -> int {
    2 * radius + 1
}

/// Where the angle of offset `(dx, dy)` is stored.
pub open spec fn table_index(radius: int, dx: int, dy: int) -> int {
    (dy + radius) * table_side(radius) + (dx + radius)
}

impl PolarAngles {
    /// The largest offset the table covers.
    pub closed spec fn spec_radius(&self) -> int {
        self.radius as int
    }

    /// The stored angles, row by row.
    pub closed spec fn spec_angles(&self) -> Seq<u32> {
        self.angles@
    }

    /// The stored angle of offset `(dx, dy)`.
    pub open spec fn angle_at(&self, dx: int, dy: int) -> int {
        self.spec_angles()[table_index(self.spec_radius(), dx, dy)] as int
    }

    /// The table covers its square of offsets with angles below a full turn.
    pub open spec fn wf(&self) -> bool {
        &&& self.spec_radius() <= MAX_TABLE_RADIUS
        &&& self.spec_angles().len() == table_side(self.spec_radius()) * table_side(
            self.spec_radius(),
        )
        &&& forall|i: int|
            0 <= i < self.spec_angles().len() ==> #[trigger] self.spec_angles()[i] < FULL_TURN
    }

    /// Takes a table laid out row by row (`dy` from `-radius` to `radius`, and
    /// within a row `dx` likewise); `None` when the radius exceeds
    /// `MAX_TABLE_RADIUS`, the length is not `(2 * radius + 1)^2`, or an angle is
    /// not below a full turn.
    pub fn from_vec(radius: u32, angles: Vec<u32>) -> (r: Option<PolarAngles>)
        ensures
            r is Some <==> (radius <= MAX_TABLE_RADIUS && angles@.len() == table_side(
                radius as int,
            ) * table_side(radius as int) && forall|i: int|
                0 <= i < angles@.len() ==> #[trigger] angles@[i] < FULL_TURN),
            r is Some ==> r->0.wf() && r->0.spec_radius() == radius && r->0.spec_angles()
                == angles@,
    {
        if radius > MAX_TABLE_RADIUS {
            return None;
        }
        let side = (2 * radius + 1) as usize;
        assert(side * side <= 2001 * 2001) by (nonlinear_arith)
            requires
                side <= 2001,
        ;
        if angles.len() != side * side {
            return None;
        }
        let mut i: usize = 0;
        while i < angles.len()
            invariant
                0 <= i <= angles@.len(),
                forall|j: int| 0 <= j < i ==> #[trigger] angles@[j] < FULL_TURN,
            decreases angles@.len() - i,
        {
            if angles[i] as u64 >= FULL_TURN {
                return None;
            }
            i = i + 1;
        }
        Some(PolarAngles { radius, angles })
    }

    /// The largest offset the table covers.
    pub fn radius(&self) -> (r: u32)
        ensures
            r == self.spec_radius(),
    {
        self.radius
    }

    /// The angle of offset `(dx, dy)`.
    pub fn angle(&self, dx: i64, dy: i64) -> (r: u64)
        requires
            self.wf(),
            -self.spec_radius() <= dx <= self.spec_radius(),
            -self.spec_radius() <= dy <= self.spec_radius(),
        ensures
            r == self.angle_at(dx as int, dy as int),
            r < FULL_TURN,
    {
        let r = self.radius as i64;
        let side = 2 * r + 1;
        let ghost rr = r as int;
        assert(0 <= (dy + r) * side + (dx + r) < side * side) by (nonlinear_arith)
            requires
                0 <= dy + r < side,
                0 <= dx + r < side,
        ;
        assert(side * side <= 2001 * 2001) by (nonlinear_arith)
            requires
                0 < side <= 2001,
        ;
        let i = ((dy + r) * side + (dx + r)) as usize;
        self.angles[i] as u64
    }
}

/// Whether offset `(dx, dy)` lies in the ring between the two radii, bounds included.
pub open spec fn in_ring(dx: int, dy: int, inner: int, outer: int) -> bool {
    inner * inner <= dx * dx + dy * dy <= outer * outer
}

/// An angle brought into `[0, FULL_TURN)`.
pub open spec fn norm_angle(a: int) -> int {
    a % (FULL_TURN as int)
}

/// Whether `theta` lies on the arc swept from `start` to `end` in the
/// increasing direction, wrapping through zero when `end` comes before `start`.
pub open spec fn angle_in_arc(theta: int, start: int, end: int) -> bool {
    let s = norm_angle(start);
    let e = norm_angle(end);
    if s <= e {
        s <= theta <= e
    } else {
        theta >= s || theta <= e
    }
}

/// Whether canvas pixel `(x, y)` belongs to the thick arc around `(cx, cy)`.
pub open spec fn arc_covers(
    t: PolarAngles,
    cx: int,
    cy: int,
    inner: int,
    outer: int,
    start: int,
    end: int,
    x: int,
    y: int,
) -> bool {
    in_ring(x - cx, y - cy, inner, outer) && angle_in_arc(t.angle_at(x - cx, y - cy), start, end)
}

/// A pixel at exactly the inner or the outer radius belongs to the ring; the
/// center does not when the inner radius is positive.
pub proof fn lemma_ring_bounds(dx: int, dy: int, inner: int, outer: int)
    requires
        0 <= inner <= outer,
    ensures
        dx * dx + dy * dy == inner * inner ==> in_ring(dx, dy, inner, outer),
        dx * dx + dy * dy == outer * outer ==> in_ring(dx, dy, inner, outer),
        inner > 0 ==> !in_ring(0, 0, inner, outer),
{
    assert(inner * inner <= outer * outer) by (nonlinear_arith)
        requires
            0 <= inner <= outer,
    ;
    if inner > 0 {
        assert(inner * inner > 0) by (nonlinear_arith)
            requires
                inner > 0,
        ;
    }
}

/// The center of a ring with a positive inner radius is never on the arc, so
/// drawing the arc leaves it as it was.
pub proof fn lemma_arc_skips_center(
    t: PolarAngles,
    cx: int,
    cy: int,
    inner: int,
    outer: int,
    start: int,
    end: int,
)
    requires
        0 < inner <= outer,
    ensures
        !arc_covers(t, cx, cy, inner, outer, start, end, cx, cy),
{
    lemma_ring_bounds(0, 0, inner, outer);
}

proof fn lemma_outside_box(dx: int, dy: int, outer: int)
    requires
        outer >= 0,
        dx < -outer || dx > outer || dy < -outer || dy > outer,
    ensures
        dx * dx + dy * dy > outer * outer,
{
    assert(dx * dx + dy * dy > outer * outer) by (nonlinear_arith)
        requires
            outer >= 0,
            dx < -outer || dx > outer || dy < -outer || dy > outer,
    ;
}

fn square(v: i64) -> (r: i64)
    requires
        -2000 <= v <= 2000,
    ensures
        r == v * v,
        0 <= r <= 4_000_000,
{
    assert(0 <= v * v <= 4_000_000) by (nonlinear_arith)
        requires
            -2000 <= v <= 2000,
    ;
    v * v
}

/// Whether `theta` lies on the arc from `start` to `end` (see `angle_in_arc`).
pub fn angle_in_range(theta: u64, start: u64, end: u64) -> (r: bool)
    ensures
        r == angle_in_arc(theta as int, start as int, end as int),
{
    let s = start % FULL_TURN;
    let e = end % FULL_TURN;
    if s <= e {
        s <= theta && theta <= e
    } else {
        theta >= s || theta <= e
    }
}

/// Paints every canvas pixel whose distance from `(center_x, center_y)` lies
/// between the radii and whose angle lies on the arc from `start_angle` to
/// `end_angle`.
pub fn draw_thick_arc(
    canvas: &mut Canvas,
    table: &PolarAngles,
    center_x: u32,
    center_y: u32,
    inner_radius: u32,
    outer_radius: u32,
    start_angle: u64,
    end_angle: u64,
    color: Color,
)
    requires
        is_icon(*old(canvas)),
        table.wf(),
        inner_radius <= outer_radius <= table.spec_radius(),
    ensures
        is_icon(*final(canvas)),
        forall|x: int, y: int|
            in_canvas(x, y) ==> #[trigger] px_at(final(canvas).pixels(), x, y) == if arc_covers(
                *table,
                center_x as int,
                center_y as int,
                inner_radius as int,
                outer_radius as int,
                start_angle as int,
                end_angle as int,
                x,
                y,
            ) {
                color
            } else {
                px_at(old(canvas).pixels(), x, y)
            },
{
    let ghost old_px = canvas.pixels();
    let cx = center_x as i64;
    let cy = center_y as i64;
    let r = outer_radius as i64;
    let ri = inner_radius as i64;
    let ghost t = *table;
    let ghost (gcx, gcy, gi, go, gs, ge) = (
        cx as int,
        cy as int,
        ri as int,
        r as int,
        start_angle as int,
        end_angle as int,
    );
    let x_lo: i64 = if cx - r > 0 { cx - r } else { 0 };
    let x_hi: i64 = if cx + r < ICON_SIZE as i64 { cx + r + 1 } else { ICON_SIZE as i64 };
    let y_lo: i64 = if cy - r > 0 { cy - r } else { 0 };
    let y_hi: i64 = if cy + r < ICON_SIZE as i64 { cy + r + 1 } else { ICON_SIZE as i64 };
    let mut y: i64 = y_lo;
    assert forall|px: int, py: int| in_canvas(px, py) implies #[trigger] px_at(
        canvas.pixels(),
        px,
        py,
    ) == if py < y && arc_covers(t, gcx, gcy, gi, go, gs, ge, px, py) {
        color
    } else {
        px_at(old_px, px, py)
    } by {
        if py < y && arc_covers(t, gcx, gcy, gi, go, gs, ge, px, py) {
            lemma_outside_box(px - gcx, py - gcy, go);
        }
    }
    while y < y_hi
        invariant
            is_icon(*canvas),
            table.wf(),
            t == *table,
            0 <= ri <= r <= t.spec_radius(),
            r <= MAX_TABLE_RADIUS,
            gcx == cx,
            gcy == cy,
            gi == ri,
            go == r,
            gs == start_angle,
            ge == end_angle,
            0 <= cx <= u32::MAX,
            0 <= cy <= u32::MAX,
            x_lo == if cx - r > 0 { cx - r } else { 0 },
            x_hi == if cx + r < ICON_SIZE { cx + r + 1 } else { ICON_SIZE as int },
            y_lo == if cy - r > 0 { cy - r } else { 0 },
            y_hi == if cy + r < ICON_SIZE { cy + r + 1 } else { ICON_SIZE as int },
            y_lo <= y,
            y <= y_hi || y == y_lo,
            old_px == old(canvas).pixels(),
            forall|px: int, py: int|
                in_canvas(px, py) ==> #[trigger] px_at(canvas.pixels(), px, py) == if py < y
                    && arc_covers(t, gcx, gcy, gi, go, gs, ge, px, py) {
                    color
                } else {
                    px_at(old_px, px, py)
                },
        decreases y_hi - y,
    {
        let mut x: i64 = x_lo;
        assert forall|px: int, py: int| in_canvas(px, py) implies #[trigger] px_at(
            canvas.pixels(),
            px,
            py,
        ) == if (py < y || (py == y && px < x)) && arc_covers(t, gcx, gcy, gi, go, gs, ge, px, py) {
            color
        } else {
            px_at(old_px, px, py)
        } by {
            if py == y && px < x && arc_covers(t, gcx, gcy, gi, go, gs, ge, px, py) {
                lemma_outside_box(px - gcx, py - gcy, go);
            }
        }
        while x < x_hi
            invariant
                is_icon(*canvas),
                table.wf(),
                t == *table,
                0 <= ri <= r <= t.spec_radius(),
                r <= MAX_TABLE_RADIUS,
                gcx == cx,
                gcy == cy,
                gi == ri,
                go == r,
                gs == start_angle,
                ge == end_angle,
                0 <= cx <= u32::MAX,
                0 <= cy <= u32::MAX,
                x_lo == if cx - r > 0 { cx - r } else { 0 },
                x_hi == if cx + r < ICON_SIZE { cx + r + 1 } else { ICON_SIZE as int },
                y_lo == if cy - r > 0 { cy - r } else { 0 },
                y_hi == if cy + r < ICON_SIZE { cy + r + 1 } else { ICON_SIZE as int },
                y_lo <= y < y_hi,
                x_lo <= x,
                x <= x_hi || x == x_lo,
                old_px == old(canvas).pixels(),
                forall|px: int, py: int|
                    in_canvas(px, py) ==> #[trigger] px_at(canvas.pixels(), px, py) == if (py < y
                        || (py == y && px < x)) && arc_covers(t, gcx, gcy, gi, go, gs, ge, px, py) {
                        color
                    } else {
                        px_at(old_px, px, py)
                    },
            decreases x_hi - x,
        {
            let dx = x - cx;
            let dy = y - cy;
            assert(ri * ri <= 1000 * 1000 && r * r <= 1000 * 1000) by (nonlinear_arith)
                requires
                    0 <= ri <= r <= 1000,
            ;
            let d2 = square(dx) + square(dy);
            let ghost before = canvas.pixels();
            let hit = if ri * ri <= d2 && d2 <= r * r {
                let theta = table.angle(dx, dy);
                angle_in_range(theta, start_angle, end_angle)
            } else {
                false
            };
            assert(hit == arc_covers(t, gcx, gcy, gi, go, gs, ge, x as int, y as int));
            if hit {
                canvas.put(x, y, color);
            }
            assert forall|px: int, py: int| in_canvas(px, py) implies #[trigger] px_at(
                canvas.pixels(),
                px,
                py,
            ) == if (py < y || (py == y && px < x + 1)) && arc_covers(
                t,
                gcx,
                gcy,
                gi,
                go,
                gs,
                ge,
                px,
                py,
            ) {
                color
            } else {
                px_at(old_px, px, py)
            } by {
                assert(px_at(before, px, py) == if (py < y || (py == y && px < x)) && arc_covers(
                    t,
                    gcx,
                    gcy,
                    gi,
                    go,
                    gs,
                    ge,
                    px,
                    py,
                ) {
                    color
                } else {
                    px_at(old_px, px, py)
                });
                lemma_idx_bounds(px, py);
                lemma_idx_bounds(x as int, y as int);
                if idx(px, py) == idx(x as int, y as int) {
                    lemma_idx_injective(px, py, x as int, y as int);
                }
            }
            x = x + 1;
        }
        assert forall|px: int, py: int| in_canvas(px, py) implies #[trigger] px_at(
            canvas.pixels(),
            px,
            py,
        ) == if py < y + 1 && arc_covers(t, gcx, gcy, gi, go, gs, ge, px, py) {
            color
        } else {
            px_at(old_px, px, py)
        } by {
            if py == y && px >= x && arc_covers(t, gcx, gcy, gi, go, gs, ge, px, py) {
                lemma_outside_box(px - gcx, py - gcy, go);
            }
            if py == y && px < x_lo && arc_covers(t, gcx, gcy, gi, go, gs, ge, px, py) {
                lemma_outside_box(px - gcx, py - gcy, go);
            }
        }
        y = y + 1;
    }
    assert forall|px: int, py: int| in_canvas(px, py) implies #[trigger] px_at(
        canvas.pixels(),
        px,
        py,
    ) == if arc_covers(t, gcx, gcy, gi, go, gs, ge, px, py) {
        color
    } else {
        px_at(old_px, px, py)
    } by {
        if (py >= y || py < y_lo) && arc_covers(t, gcx, gcy, gi, go, gs, ge, px, py) {
            lemma_outside_box(px - gcx, py - gcy, go);
        }
    }
}

} // verus!
