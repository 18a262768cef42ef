use vstd::prelude::*;
use crate::canvas::{
    Canvas, Color, in_canvas, idx, is_icon, px_at, rgba, lemma_idx_bounds, lemma_idx_injective,
};

verus! {

/// Opacity of the fill right under the line, out of 255: 60 %.
pub const FILL_MAX_ALPHA: u32 = 153;

/// Source-over compositing of `fg` onto `bg`, with channels and alpha read as
/// fractions of 255: `alpha = fa + ba * (1 - fa)` and each channel is
/// `(fg * fa + bg * ba * (1 - fa)) / alpha`, truncated; transparent black when
/// the combined alpha is zero.
pub open spec fn blend_spec(bg: Color, fg: Color) -> Color {
    let fa = fg.0[3] as int;
    let ba = bg.0[3] as int;
    let den = 255 * fa + ba * (255 - fa);
    if den == 0 {
        rgba(0, 0, 0, 0)
    } else {
        rgba(
            ((fg.0[0] * fa * 255 + bg.0[0] * ba * (255 - fa)) / den) as u8,
            ((fg.0[1] * fa * 255 + bg.0[1] * ba * (255 - fa)) / den) as u8,
            ((fg.0[2] * fa * 255 + bg.0[2] * ba * (255 - fa)) / den) as u8,
            (den / 255) as u8,
        )
    }
}

/// The blended channel, which is a weighted mean of two channels and so fits a byte.
fn blend_channel(f: u8, b: u8, fa: u32, ba: u32, den: u32) -> (r: u8)
    requires
        fa <= 255,
        ba <= 255,
        den == 255 * fa + ba * (255 - fa),
        den > 0,
    ensures
        r as int == (f * fa * 255 + b * ba * (255 - fa)) / den as int,
{
    let fw = f as u32;
    let bw = b as u32;
    assert(fw * fa * 255 + bw * ba * (255 - fa) <= 255 * den) by (nonlinear_arith)
        requires
            fw <= 255,
            bw <= 255,
            fa <= 255,
            ba <= 255,
            den == 255 * fa + ba * (255 - fa),
    ;
    assert(fw * fa * 255 <= 255 * 255 * 255) by (nonlinear_arith)
        requires
            fw <= 255,
            fa <= 255,
    ;
    assert(bw * ba * (255 - fa) <= 255 * 255 * 255) by (nonlinear_arith)
        requires
            bw <= 255,
            ba <= 255,
            fa <= 255,
    ;
    assert(bw * ba <= 255 * 255) by (nonlinear_arith)
        requires
            bw <= 255,
            ba <= 255,
    ;
    assert(fw * fa <= 255 * 255) by (nonlinear_arith)
        requires
            fw <= 255,
            fa <= 255,
    ;
    let num = fw * fa * 255 + bw * ba * (255 - fa);
    assert(num / den <= 255) by (nonlinear_arith)
        requires
            num <= 255 * den,
            den > 0,
    ;
    (num / den) as u8
}

/// Composites `fg` over `bg` ("source over").
pub fn blend_colors(bg: Color, fg: Color) -> (r: Color)
    ensures
        r == blend_spec(bg, fg),
{
    let fa = fg.0[3] as u32;
    let ba = bg.0[3] as u32;
    assert(ba * (255 - fa) <= 255 * 255) by (nonlinear_arith)
        requires
            ba <= 255,
            fa <= 255,
    ;
    let den = 255 * fa + ba * (255 - fa);
    if den == 0 {
        return image::Rgba([0u8, 0, 0, 0]);
    }
    let r = blend_channel(fg.0[0], bg.0[0], fa, ba, den);
    let g = blend_channel(fg.0[1], bg.0[1], fa, ba, den);
    let b = blend_channel(fg.0[2], bg.0[2], fa, ba, den);
    assert(den / 255 <= 255) by (nonlinear_arith)
        requires
            den == 255 * fa + ba * (255 - fa),
            fa <= 255,
            ba <= 255,
    ;
    let a = (den / 255) as u8;
    image::Rgba([r, g, b, a])
}

/// Opacity, out of 255, of the fill `distance` rows under the line when the
/// fill spans `range` rows: 60 % at the line, falling linearly to 0 at `range`.
pub open spec fn gradient_alpha(distance: int, range: int) -> int {
    FILL_MAX_ALPHA * (range - distance) / range
}

/// The line color at the fill's opacity for that row.
pub open spec fn gradient_color(c: Color, distance: int, range: int) -> Color {
    rgba(c.0[0], c.0[1], c.0[2], gradient_alpha(distance, range) as u8)
}

/// The y of the straight segment from `a` to `b` at column `x`, truncated
/// (the segment's first y where it is vertical).
pub open spec fn segment_y(a: (u32, u32), b: (u32, u32), x: int) -> int {
    if b.0 == a.0 {
        a.1 as int
    } else {
        (a.1 * (b.0 - x) + b.1 * (x - a.0)) / (b.0 - a.0)
    }
}

/// The y of the line at column `x`, searching the segments from the `i`-th on:
/// the first segment whose ends bracket `x` gives it; past them, the first
/// point's y left of the first point, the last point's y otherwise.
pub open spec fn interp_from(pts: Seq<(u32, u32)>, x: int, i: nat) -> int
    decreases pts.len() - i,
{
    if i + 1 >= pts.len() {
        if x < pts[0].0 {
            pts[0].1 as int
        } else {
            pts.last().1 as int
        }
    } else if pts[i as int].0 <= x <= pts[i + 1int].0 {
        segment_y(pts[i as int], pts[i + 1int], x)
    } else {
        interp_from(pts, x, i + 1)
    }
}

/// The y of the line through `pts` at column `x` (see `interp_from`).
pub open spec fn interp_y(pts: Seq<(u32, u32)>, x: int) -> int {
    interp_from(pts, x, 0)
}

proof fn lemma_segment_y_bounds(a: (u32, u32), b: (u32, u32), x: int)
    requires
        a.0 <= x <= b.0,
    ensures
        0 <= segment_y(a, b, x) <= u32::MAX,
{
    if b.0 != a.0 {
        let w = b.0 - a.0;
        let num = a.1 * (b.0 - x) + b.1 * (x - a.0);
        assert(0 <= num <= u32::MAX * w) by (nonlinear_arith)
            requires
                num == a.1 * (b.0 - x) + b.1 * (x - a.0),
                w == b.0 - a.0,
                a.0 <= x <= b.0,
                0 <= a.1 <= u32::MAX,
                0 <= b.1 <= u32::MAX,
        ;
        assert(0 <= num / w <= u32::MAX) by (nonlinear_arith)
            requires
                0 <= num <= u32::MAX * w,
                w > 0,
        ;
    }
}

proof fn lemma_interp_bounds(pts: Seq<(u32, u32)>, x: int, i: nat)
    requires
        pts.len() >= 1,
    ensures
        0 <= interp_from(pts, x, i) <= u32::MAX,
    decreases pts.len() - i,
{
    if i + 1 >= pts.len() {
    } else if pts[i as int].0 <= x <= pts[i + 1int].0 {
        lemma_segment_y_bounds(pts[i as int], pts[i + 1int], x);
    } else {
        lemma_interp_bounds(pts, x, i + 1);
    }
}

/// The y of the line through `points` at column `x` (see `interp_y`).
pub fn interpolate_y_at_x(points: &Vec<(u32, u32)>, x: u32) -> (r: u32)
    requires
        points@.len() >= 1,
    ensures
        r == interp_y(points@, x as int),
{
    let ghost pts = points@;
    let mut i: usize = 0;
    while i < points.len() - 1
        invariant
            pts == points@,
            pts.len() >= 1,
            0 <= i < pts.len(),
            interp_from(pts, x as int, i as nat) == interp_y(pts, x as int),
        decreases pts.len() - i,
    {
        let (x0, y0) = points[i];
        let (x1, y1) = points[i + 1];
        if x >= x0 && x <= x1 {
            if x1 == x0 {
                return y0;
            }
            proof {
                lemma_segment_y_bounds(pts[i as int], pts[i + 1], x as int);
            }
            let w = (x1 - x0) as u128;
            let a0 = y0 as u128;
            let b0 = (x1 - x) as u128;
            let a1 = y1 as u128;
            let b1 = (x - x0) as u128;
            assert(a0 * b0 <= 0xffff_ffff * 0xffff_ffff) by (nonlinear_arith)
                requires
                    a0 <= 0xffff_ffff,
                    b0 <= 0xffff_ffff,
            ;
            assert(a1 * b1 <= 0xffff_ffff * 0xffff_ffff) by (nonlinear_arith)
                requires
                    a1 <= 0xffff_ffff,
                    b1 <= 0xffff_ffff,
            ;
            let num = a0 * b0 + a1 * b1;
            return (num / w) as u32;
        }
        i = i + 1;
    }
    proof {
        lemma_interp_bounds(pts, x as int, i as nat);
    }
    if x < points[0].0 {
        points[0].1
    } else {
        points[points.len() - 1].1
    }
}

/// The smallest x among the points.
pub open spec fn min_x(pts: Seq<(u32, u32)>) -> int
    decreases pts.len(),
{
    if pts.len() <= 1 {
        pts[0].0 as int
    } else {
        let m = min_x(pts.drop_last());
        if pts.last().0 < m {
            pts.last().0 as int
        } else {
            m
        }
    }
}

/// The largest x among the points.
pub open spec fn max_x(pts: Seq<(u32, u32)>) -> int
    decreases pts.len(),
{
    if pts.len() <= 1 {
        pts[0].0 as int
    } else {
        let m = max_x(pts.drop_last());
        if pts.last().0 > m {
            pts.last().0 as int
        } else {
            m
        }
    }
}

fn x_extent(points: &Vec<(u32, u32)>) -> (r: (u32, u32))
    requires
        points@.len() >= 1,
    ensures
        r.0 == min_x(points@),
        r.1 == max_x(points@),
{
    let ghost pts = points@;
    let mut lo = points[0].0;
    let mut hi = points[0].0;
    let mut i: usize = 1;
    while i < points.len()
        invariant
            pts == points@,
            1 <= i <= pts.len(),
            lo == min_x(pts.take(i as int)),
            hi == max_x(pts.take(i as int)),
        decreases pts.len() - i,
    {
        assert(pts.take(i + 1).drop_last() =~= pts.take(i as int));
        let x = points[i].0;
        if x < lo {
            lo = x;
        }
        if x > hi {
            hi = x;
        }
        i = i + 1;
    }
    assert(pts.take(pts.len() as int) =~= pts);
    (lo, hi)
}

/// Whether the fill under the line reaches canvas pixel `(ax, ay)`: its column,
/// moved back by the offset, lies within the points' x extent, and its row lies
/// between the line and `bottom`.
pub open spec fn fill_hit(pts: Seq<(u32, u32)>, ox: int, oy: int, bottom: int, ax: int, ay: int) -> bool {
    let x = ax - ox;
    let py = ay - oy;
    &&& pts.len() > 0
    &&& min_x(pts) <= x <= max_x(pts)
    &&& interp_y(pts, x) <= py <= bottom
}

/// The translucent color laid over `(ax, ay)` by the fill.
pub open spec fn fill_shade(
    pts: Seq<(u32, u32)>,
    ox: int,
    oy: int,
    bottom: int,
    ax: int,
    ay: int,
    c: Color,
) -> Color {
    let ly = interp_y(pts, ax - ox);
    let range = if bottom - ly > 1 { bottom - ly } else { 1 };
    gradient_color(c, (ay - oy) - ly, range)
}

/// Pixel `(ax, ay)` after the fill under the line has been composited over `old_px`.
pub open spec fn filled(
    old_px: Seq<Color>,
    pts: Seq<(u32, u32)>,
    ox: int,
    oy: int,
    bottom: int,
    c: Color,
    ax: int,
    ay: int,
) -> Color {
    if fill_hit(pts, ox, oy, bottom, ax, ay) {
        blend_spec(px_at(old_px, ax, ay), fill_shade(pts, ox, oy, bottom, ax, ay, c))
    } else {
        px_at(old_px, ax, ay)
    }
}

/// Shades the area between the line through `points` and row `graph_height`:
/// each column from the smallest to the largest x, from the line's y down to
/// the bottom, is composited with the line color at an opacity that falls from
/// 60 % to 0. Points and rows are moved by `(offset_x, offset_y)`; pixels off the
/// canvas are skipped.
pub fn draw_gradient_fill(
    canvas: &mut Canvas,
    points: &Vec<(u32, u32)>,
    offset_x: u32,
    offset_y: u32,
    graph_height: u32,
    color: Color,
)
    requires
        is_icon(*old(canvas)),
    ensures
        is_icon(*final(canvas)),
        forall|ax: int, ay: int|
            in_canvas(ax, ay) ==> #[trigger] px_at(final(canvas).pixels(), ax, ay) == filled(
                old(canvas).pixels(),
                points@,
                offset_x as int,
                offset_y as int,
                graph_height as int,
                color,
                ax,
                ay,
            ),
{
    let ghost pts = points@;
    let ghost ox = offset_x as int;
    let ghost oy = offset_y as int;
    let ghost bottom = graph_height as int;
    let ghost old_px = canvas.pixels();
    if points.len() == 0 {
        return;
    }
    let (lo, hi) = x_extent(points);
    let mut x: u64 = lo as u64;
    while x <= hi as u64
        invariant
            is_icon(*canvas),
            pts == points@,
            pts.len() >= 1,
            lo == min_x(pts),
            hi == max_x(pts),
            lo <= x <= hi as u64 + 1,
            ox == offset_x,
            oy == offset_y,
            bottom == graph_height,
            old_px == old(canvas).pixels(),
            forall|ax: int, ay: int|
                in_canvas(ax, ay) ==> #[trigger] px_at(canvas.pixels(), ax, ay) == if ax - ox
                    < x {
                    filled(old_px, pts, ox, oy, bottom, color, ax, ay)
                } else {
                    px_at(old_px, ax, ay)
                },
        decreases hi as u64 + 1 - x,
    {
        let ly = interpolate_y_at_x(points, x as u32);
        let bottom_y = graph_height;
        let mut py: u64 = ly as u64;
        while py <= bottom_y as u64
            invariant
                is_icon(*canvas),
                pts == points@,
                pts.len() >= 1,
                lo == min_x(pts),
                hi == max_x(pts),
                lo <= x <= hi,
                ly == interp_y(pts, x as int),
                ly <= py,
                py <= bottom_y as u64 + 1 || py == ly,
                bottom_y == graph_height,
                ox == offset_x,
                oy == offset_y,
                bottom == graph_height,
                old_px == old(canvas).pixels(),
                forall|ax: int, ay: int|
                    in_canvas(ax, ay) ==> #[trigger] px_at(canvas.pixels(), ax, ay) == if ax - ox
                        < x || (ax - ox == x && ay - oy < py) {
                        filled(old_px, pts, ox, oy, bottom, color, ax, ay)
                    } else {
                        px_at(old_px, ax, ay)
                    },
            decreases bottom_y as int + 1 - py as int,
        {
            let actual_x = x + offset_x as u64;
            let actual_y = py + offset_y as u64;
            if actual_x < 144 && actual_y < 144 {
                let distance = (py - ly as u64) as u32;
                let span = if bottom_y - ly > 1 { bottom_y - ly } else { 1 };
                assert(FILL_MAX_ALPHA * (span - distance) <= 153 * span) by (nonlinear_arith)
                    requires
                        distance <= span,
                ;
                assert(FILL_MAX_ALPHA * (span - distance) / span as int <= 153) by (nonlinear_arith)
                    requires
                        FILL_MAX_ALPHA * (span - distance) <= 153 * span,
                        span >= 1,
                ;
                assert(153 * (span as u64) <= 153 * 0xffff_ffff) by (nonlinear_arith)
                    requires
                        span <= 0xffff_ffffu32,
                ;
                let alpha = ((FILL_MAX_ALPHA as u64 * (span - distance) as u64) / span as u64) as u8;
                let shade = image::Rgba([color.0[0], color.0[1], color.0[2], alpha]);
                let bg = canvas.get(actual_x as u32, actual_y as u32);
                let blended = blend_colors(bg, shade);
                let ghost before = canvas.pixels();
                let ghost (qx, qy) = (actual_x as int, actual_y as int);
                proof {
                    assert(fill_hit(pts, ox, oy, bottom, qx, qy));
                    assert(shade == fill_shade(pts, ox, oy, bottom, qx, qy, color));
                    assert(bg == px_at(old_px, qx, qy));
                }
                canvas.put(actual_x as i64, actual_y as i64, blended);
                assert forall|ax: int, ay: int| in_canvas(ax, ay) implies #[trigger] px_at(
                    canvas.pixels(),
                    ax,
                    ay,
                ) == if ax - ox < x || (ax - ox == x && ay - oy < py + 1) {
                    filled(old_px, pts, ox, oy, bottom, color, ax, ay)
                } else {
                    px_at(old_px, ax, ay)
                } by {
                    assert(px_at(before, ax, ay) == if ax - ox < x || (ax - ox == x && ay - oy
                        < py) {
                        filled(old_px, pts, ox, oy, bottom, color, ax, ay)
                    } else {
                        px_at(old_px, ax, ay)
                    });
                    lemma_idx_bounds(ax, ay);
                    lemma_idx_bounds(qx, qy);
                    if idx(ax, ay) == idx(qx, qy) {
                        lemma_idx_injective(ax, ay, qx, qy);
                    }
                }
            } else {
                assert forall|ax: int, ay: int| in_canvas(ax, ay) implies #[trigger] px_at(
                    canvas.pixels(),
                    ax,
                    ay,
                ) == if ax - ox < x || (ax - ox == x && ay - oy < py + 1) {
                    filled(old_px, pts, ox, oy, bottom, color, ax, ay)
                } else {
                    px_at(old_px, ax, ay)
                } by {
                    if ax - ox == x && ay - oy == py {
                        assert(false);
                    }
                }
            }
            py = py + 1;
        }
        assert forall|ax: int, ay: int| in_canvas(ax, ay) implies #[trigger] px_at(
            canvas.pixels(),
            ax,
            ay,
        ) == if ax - ox < x + 1 {
            filled(old_px, pts, ox, oy, bottom, color, ax, ay)
        } else {
            px_at(old_px, ax, ay)
        } by {
            if ax - ox == x && ay - oy >= py {
                assert(!fill_hit(pts, ox, oy, bottom, ax, ay));
            }
        }
        x = x + 1;
    }
    assert forall|ax: int, ay: int| in_canvas(ax, ay) implies #[trigger] px_at(
        canvas.pixels(),
        ax,
        ay,
    ) == filled(old_px, pts, ox, oy, bottom, color, ax, ay) by {
        if ax - ox >= x {
            assert(!fill_hit(pts, ox, oy, bottom, ax, ay));
        }
    }
}

/// The fill is at its full 60 % right under the line and fades to nothing at
/// the bottom of its span.
pub proof fn lemma_gradient_ends(range: int)
    requires
        range >= 1,
    ensures
        gradient_alpha(0, range) == FILL_MAX_ALPHA,
        gradient_alpha(range, range) == 0,
{
    vstd::arithmetic::div_mod::lemma_div_multiples_vanish(FILL_MAX_ALPHA as int, range);
    assert(range * FILL_MAX_ALPHA == FILL_MAX_ALPHA * (range - 0));
}

/// A fully transparent color leaves a visible pixel as it was.
pub proof fn lemma_transparent_over(bg: Color, fg: Color)
    requires
        fg.0[3] == 0,
        bg.0[3] > 0,
    ensures
        blend_spec(bg, fg) == bg,
{
    let ba = bg.0[3] as int;
    let den = 255 * ba;
    assert(255 * 0 + ba * (255 - 0) == den);
    assert forall|k: int| 0 <= k < 3 implies (fg.0[k] * 0 * 255 + bg.0[k] * ba * (255 - 0)) / den
        == bg.0[k] by {
        assert(bg.0[k] * ba * 255 == den * bg.0[k]) by (nonlinear_arith)
            requires
                den == 255 * ba,
        ;
        assert(fg.0[k] * 0 * 255 == 0);
        vstd::arithmetic::div_mod::lemma_div_multiples_vanish(bg.0[k] as int, den);
    }
    vstd::arithmetic::div_mod::lemma_div_multiples_vanish(ba, 255);
    assert(den / 255 == ba);
    assert(bg.0[3] == ba as u8);
    assert(blend_spec(bg, fg).0 =~= bg.0);
}

/// Over an opaque pixel the result stays opaque and each channel is the
/// alpha-weighted mean of the two, truncated.
pub proof fn lemma_blend_over_opaque(bg: Color, fg: Color)
    requires
        bg.0[3] == 255,
    ensures
        blend_spec(bg, fg).0[3] == 255,
        forall|k: int|
            0 <= k < 3 ==> #[trigger] blend_spec(bg, fg).0[k] as int == (fg.0[k] * fg.0[3] + bg.0[k] * (
            255 - fg.0[3])) / 255,
{
    let fa = fg.0[3] as int;
    let den = 255 * fa + 255 * (255 - fa);
    assert(den == 255 * 255);
    assert(den / 255 == 255);
    assert forall|k: int| 0 <= k < 3 implies #[trigger] blend_spec(bg, fg).0[k] as int == (fg.0[k]
        * fg.0[3] + bg.0[k] * (255 - fg.0[3])) / 255 by {
        let m = fg.0[k] * fa + bg.0[k] * (255 - fa);
        assert(fg.0[k] * fa * 255 + bg.0[k] * 255 * (255 - fa) == 255 * m) by (nonlinear_arith)
            requires
                m == fg.0[k] * fa + bg.0[k] * (255 - fa),
        ;
        assert(0 <= m <= 255 * 255) by (nonlinear_arith)
            requires
                m == fg.0[k] * fa + bg.0[k] * (255 - fa),
                0 <= fg.0[k] <= 255,
                0 <= bg.0[k] <= 255,
                0 <= fa <= 255,
        ;
        vstd::arithmetic::div_mod::lemma_div_multiples_vanish_quotient(255, m, 255);
        assert(m / 255 <= 255) by (nonlinear_arith)
            requires
                0 <= m <= 255 * 255,
        ;
    }
}

/// At the line's own row the fill lays the line color at 60 % over an opaque
/// pixel: the pixel stays opaque and each channel becomes
/// `(153 * line + 102 * old) / 255`.
pub proof fn lemma_fill_at_line(
    old_px: Seq<Color>,
    pts: Seq<(u32, u32)>,
    ox: int,
    oy: int,
    bottom: int,
    c: Color,
    ax: int,
    ay: int,
)
    requires
        fill_hit(pts, ox, oy, bottom, ax, ay),
        ay - oy == interp_y(pts, ax - ox),
        px_at(old_px, ax, ay).0[3] == 255,
    ensures
        filled(old_px, pts, ox, oy, bottom, c, ax, ay).0[3] == 255,
        forall|k: int|
            0 <= k < 3 ==> #[trigger] filled(old_px, pts, ox, oy, bottom, c, ax, ay).0[k] as int == (
            c.0[k] * 153 + px_at(old_px, ax, ay).0[k] * 102) / 255,
{
    let ly = interp_y(pts, ax - ox);
    let range = if bottom - ly > 1 { bottom - ly } else { 1 };
    lemma_gradient_ends(range);
    let shade = fill_shade(pts, ox, oy, bottom, ax, ay, c);
    assert(shade.0[3] == 153);
    lemma_blend_over_opaque(px_at(old_px, ax, ay), shade);
    assert forall|k: int| 0 <= k < 3 implies #[trigger] filled(old_px, pts, ox, oy, bottom, c, ax, ay).0[k] as int
        == (c.0[k] * 153 + px_at(old_px, ax, ay).0[k] * 102) / 255 by {
        assert(shade.0[k] == c.0[k]);
        assert(blend_spec(px_at(old_px, ax, ay), shade).0[k] as int == (shade.0[k] * shade.0[3]
            + px_at(old_px, ax, ay).0[k] * (255 - shade.0[3])) / 255);
    }
}

} // verus!
