use vstd::prelude::*;
use crate::canvas::{
    Canvas, Color, in_canvas, idx, is_icon, px_at, plot, lemma_idx_bounds, lemma_idx_injective,
};

verus! {

/// Absolute value.
pub open spec fn abs(v: int) -> int {
    if v < 0 {
        -v
    } else {
        v
    }
}

/// The unit step that leads from `from` towards `to`.
pub open spec fn unit_step(from: int, to: int) -> int {
    if from < to {
        1
    } else {
        -1
    }
}

/// The pixels visited by the integer line algorithm from the state `(x, y, err)`
/// towards `(x1, y1)`: the current pixel first; stop at the endpoint, otherwise
/// step the x axis when `2 * err > -dy`, the y axis when `2 * err < dx`, and
/// carry the error term along. `fuel` bounds the number of pixels.
pub open spec fn walk(
    x: int,
    y: int,
    err: int,
    x1: int,
    y1: int,
    dx: int,
    dy: int,
    sx: int,
    sy: int,
    fuel: nat,
) -> Seq<(int, int)>
    decreases fuel,
{
    if fuel == 0 {
        Seq::empty()
    } else if x == x1 && y == y1 {
        seq![(x, y)]
    } else {
        let e2 = 2 * err;
        let nx = if e2 > -dy { x + sx } else { x };
        let err1 = if e2 > -dy { err - dy } else { err };
        let ny = if e2 < dx { y + sy } else { y };
        let err2 = if e2 < dx { err1 + dx } else { err1 };
        seq![(x, y)] + walk(nx, ny, err2, x1, y1, dx, dy, sx, sy, (fuel - 1) as nat)
    }
}

/// The walk from `(x0, y0)` to `(x1, y1)`; a line of major length `m` has
/// at most `m + 1 <= dx + dy + 1` pixels.
pub open spec fn directed_line(x0: int, y0: int, x1: int, y1: int) -> Seq<(int, int)> {
    let dx = abs(x1 - x0);
    let dy = abs(y1 - y0);
    walk(x0, y0, dx - dy, x1, y1, dx, dy, unit_step(x0, x1), unit_step(y0, y1), (dx + dy + 1) as nat)
}

/// `(x0, y0)` comes first in lexicographic order.
pub open spec fn ordered_first(x0: int, y0: int, x1: int, y1: int) -> bool {
    x0 < x1 || (x0 == x1 && y0 <= y1)
}

/// The pixels of the segment between two points, always walked from the
/// lexicographically smaller endpoint so that the set does not depend on the
/// order in which the endpoints are given.
pub open spec fn line_pixels(x0: int, y0: int, x1: int, y1: int) -> Seq<(int, int)> {
    if ordered_first(x0, y0, x1, y1) {
        directed_line(x0, y0, x1, y1)
    } else {
        directed_line(x1, y1, x0, y0)
    }
}

/// Rasterizing a segment does not depend on which endpoint is given first.
pub proof fn lemma_line_endpoint_order(x0: int, y0: int, x1: int, y1: int)
    ensures
        line_pixels(x0, y0, x1, y1).to_set() == line_pixels(x1, y1, x0, y0).to_set(),
{
    if x0 == x1 && y0 == y1 {
    } else if ordered_first(x0, y0, x1, y1) {
        assert(!ordered_first(x1, y1, x0, y0));
    } else {
        assert(ordered_first(x1, y1, x0, y0));
    }
}

/// One step of the walk from `(i, j)` steps along each axis, away from the end:
/// the error term is `dx * (1 + j) - dy * (1 + i)`, at least one axis steps, and
/// neither steps past its end.
proof fn lemma_walk_step(x0: int, y0: int, x1: int, y1: int, i: int, j: int)
    requires
        0 <= i <= abs(x1 - x0),
        0 <= j <= abs(y1 - y0),
    ensures
        ({
            let dx = abs(x1 - x0);
            let dy = abs(y1 - y0);
            let sx = unit_step(x0, x1);
            let sy = unit_step(y0, y1);
            let err = dx * (1 + j) - dy * (1 + i);
            let xs = 2 * err > -dy;
            let ys = 2 * err < dx;
            let ni = if xs { i + 1 } else { i };
            let nj = if ys { j + 1 } else { j };
            &&& (x0 + sx * i == x1 <==> i == dx)
            &&& (y0 + sy * j == y1 <==> j == dy)
            &&& !(i == dx && j == dy) ==> {
                &&& xs || ys
                &&& ni <= dx && nj <= dy
                &&& (if ys { (if xs { err - dy } else { err }) + dx } else { (if xs { err - dy } else { err }) }) == dx
                    * (1 + nj) - dy * (1 + ni)
                &&& x0 + sx * ni == (if xs { x0 + sx * i + sx } else { x0 + sx * i })
                &&& y0 + sy * nj == (if ys { y0 + sy * j + sy } else { y0 + sy * j })
            }
        }),
{
    let dx = abs(x1 - x0);
    let dy = abs(y1 - y0);
    let sx = unit_step(x0, x1);
    let sy = unit_step(y0, y1);
    let x = x0 + sx * i;
    let y = y0 + sy * j;
    let err = dx * (1 + j) - dy * (1 + i);
    assert(x == x1 <==> i == dx) by (nonlinear_arith)
        requires
            x == x0 + sx * i,
            sx == (if x0 < x1 { 1int } else { -1int }),
            dx == (if x1 - x0 < 0 { -(x1 - x0) } else { x1 - x0 }),
            0 <= i <= dx,
    ;
    assert(y == y1 <==> j == dy) by (nonlinear_arith)
        requires
            y == y0 + sy * j,
            sy == (if y0 < y1 { 1int } else { -1int }),
            dy == (if y1 - y0 < 0 { -(y1 - y0) } else { y1 - y0 }),
            0 <= j <= dy,
    ;
    if !(i == dx && j == dy) {
        let e2 = 2 * err;
        let xs = e2 > -dy;
        let ys = e2 < dx;
        assert(xs ==> i < dx) by (nonlinear_arith)
            requires
                e2 == 2 * (dx * (1 + j) - dy * (1 + i)),
                xs == (e2 > -dy),
                0 <= i <= dx,
                0 <= j <= dy,
                !(i == dx && j == dy),
        {
            if i == dx {
                assert(2 * dx * (1 + j) <= 2 * dx * dy);
            }
        }
        assert(ys ==> j < dy) by (nonlinear_arith)
            requires
                e2 == 2 * (dx * (1 + j) - dy * (1 + i)),
                ys == (e2 < dx),
                0 <= i <= dx,
                0 <= j <= dy,
                !(i == dx && j == dy),
        {
            if j == dy {
                assert(2 * dy * (1 + i) <= 2 * dy * dx);
            }
        }
        let ni = if xs { i + 1 } else { i };
        let nj = if ys { j + 1 } else { j };
        let err1 = if xs { err - dy } else { err };
        let err2 = if ys { err1 + dx } else { err1 };
        assert(err2 == dx * (1 + nj) - dy * (1 + ni)) by (nonlinear_arith)
            requires
                err == dx * (1 + j) - dy * (1 + i),
                err1 == (if xs { err - dy } else { err }),
                err2 == (if ys { err1 + dx } else { err1 }),
                ni == (if xs { i + 1 } else { i }),
                nj == (if ys { j + 1 } else { j }),
        ;
        assert(x0 + sx * ni == (if xs { x + sx } else { x })) by (nonlinear_arith)
            requires
                x == x0 + sx * i,
                ni == (if xs { i + 1 } else { i }),
        ;
        assert(y0 + sy * nj == (if ys { y + sy } else { y })) by (nonlinear_arith)
            requires
                y == y0 + sy * j,
                nj == (if ys { j + 1 } else { j }),
        ;
    }
}

proof fn lemma_walk_ends(
    x0: int,
    y0: int,
    x1: int,
    y1: int,
    i: int,
    j: int,
    fuel: nat,
)
    requires
        0 <= i <= abs(x1 - x0),
        0 <= j <= abs(y1 - y0),
        fuel >= (abs(x1 - x0) - i) + (abs(y1 - y0) - j) + 1,
    ensures
        ({
            let dx = abs(x1 - x0);
            let dy = abs(y1 - y0);
            let w = walk(
                x0 + unit_step(x0, x1) * i,
                y0 + unit_step(y0, y1) * j,
                dx * (1 + j) - dy * (1 + i),
                x1,
                y1,
                dx,
                dy,
                unit_step(x0, x1),
                unit_step(y0, y1),
                fuel,
            );
            w.len() > 0 && w[0] == (x0 + unit_step(x0, x1) * i, y0 + unit_step(y0, y1) * j) && w.last()
                == (x1, y1)
        }),
    decreases fuel,
{
    let dx = abs(x1 - x0);
    let dy = abs(y1 - y0);
    lemma_walk_step(x0, y0, x1, y1, i, j);
    if !(i == dx && j == dy) {
        let err = dx * (1 + j) - dy * (1 + i);
        let ni = if 2 * err > -dy { i + 1 } else { i };
        let nj = if 2 * err < dx { j + 1 } else { j };
        lemma_walk_ends(x0, y0, x1, y1, ni, nj, (fuel - 1) as nat);
    }
}

spec fn offset_point(x0: int, y0: int, sx: int, sy: int, a: int, b: int) -> (int, int) {
    (x0 + sx * a, y0 + sy * b)
}

/// `p` lies `a >= i` steps along x and `b >= j` along y from `(x0, y0)`, and
/// strictly further than `(i, j)` in total when `strict`.
spec fn reached(p: (int, int), x0: int, y0: int, sx: int, sy: int, i: int, j: int, strict: bool) -> bool {
    exists|a: int, b: int|
        a >= i && b >= j && (strict ==> a + b > i + j) && p == #[trigger] offset_point(
            x0,
            y0,
            sx,
            sy,
            a,
            b,
        )
}

#[verifier::rlimit(40)]
proof fn lemma_walk_distinct(
    x0: int,
    y0: int,
    x1: int,
    y1: int,
    i: int,
    j: int,
    fuel: nat,
)
    requires
        0 <= i <= abs(x1 - x0),
        0 <= j <= abs(y1 - y0),
    ensures
        ({
            let dx = abs(x1 - x0);
            let dy = abs(y1 - y0);
            let sx = unit_step(x0, x1);
            let sy = unit_step(y0, y1);
            let w = walk(
                x0 + sx * i,
                y0 + sy * j,
                dx * (1 + j) - dy * (1 + i),
                x1,
                y1,
                dx,
                dy,
                sx,
                sy,
                fuel,
            );
            &&& w.no_duplicates()
            &&& forall|k: int|
                0 <= k < w.len() ==> reached(#[trigger] w[k], x0, y0, sx, sy, i, j, k > 0)
        }),
    decreases fuel,
{
    let dx = abs(x1 - x0);
    let dy = abs(y1 - y0);
    let sx = unit_step(x0, x1);
    let sy = unit_step(y0, y1);
    let x = x0 + sx * i;
    let y = y0 + sy * j;
    let err = dx * (1 + j) - dy * (1 + i);
    let w = walk(x, y, err, x1, y1, dx, dy, sx, sy, fuel);
    lemma_walk_step(x0, y0, x1, y1, i, j);
    if fuel == 0 || (x == x1 && y == y1) {
        if w.len() > 0 {
            assert(w[0] == offset_point(x0, y0, sx, sy, i, j));
        }
    } else {
        let xs = 2 * err > -dy;
        let ys = 2 * err < dx;
        let ni = if xs { i + 1 } else { i };
        let nj = if ys { j + 1 } else { j };
        let err2 = if ys { (if xs { err - dy } else { err }) + dx } else { (if xs { err - dy } else { err }) };
        lemma_walk_distinct(x0, y0, x1, y1, ni, nj, (fuel - 1) as nat);
        let rest = walk(x0 + sx * ni, y0 + sy * nj, err2, x1, y1, dx, dy, sx, sy, (fuel - 1) as nat);
        assert(w == seq![(x, y)] + rest);
        assert forall|k: int| 0 <= k < w.len() implies reached(
            #[trigger] w[k],
            x0,
            y0,
            sx,
            sy,
            i,
            j,
            k > 0,
        ) by {
            if k == 0 {
                assert(w[0] == offset_point(x0, y0, sx, sy, i, j));
            } else {
                assert(w[k] == rest[k - 1]);
                assert(reached(rest[k - 1], x0, y0, sx, sy, ni, nj, k - 1 > 0));
                let (a, b) = choose|a: int, b: int|
                    a >= ni && b >= nj && (k - 1 > 0 ==> a + b > ni + nj) && rest[k - 1]
                        == #[trigger] offset_point(x0, y0, sx, sy, a, b);
                assert(a + b > i + j);
                assert(w[k] == offset_point(x0, y0, sx, sy, a, b));
            }
        }
        assert forall|k: int| 0 < k < w.len() implies #[trigger] w[k] != w[0] by {
            assert(w[k] == rest[k - 1]);
            assert(reached(rest[k - 1], x0, y0, sx, sy, ni, nj, k - 1 > 0));
            let (a, b) = choose|a: int, b: int|
                a >= ni && b >= nj && (k - 1 > 0 ==> a + b > ni + nj) && rest[k - 1]
                    == #[trigger] offset_point(x0, y0, sx, sy, a, b);
            if w[k] == w[0] {
                assert(sx * a == sx * i && sy * b == sy * j);
                assert(a == i && b == j) by (nonlinear_arith)
                    requires
                        sx * a == sx * i,
                        sy * b == sy * j,
                        sx == 1 || sx == -1,
                        sy == 1 || sy == -1,
                ;
            }
        }
        assert forall|p: int, q: int| 0 <= p < w.len() && 0 <= q < w.len() && p != q implies w[p]
            != w[q] by {
            if p > 0 && q > 0 {
                assert(w[p] == rest[p - 1] && w[q] == rest[q - 1]);
            }
        }
    }
}

/// No pixel is visited twice.
pub proof fn lemma_line_visits_once(x0: int, y0: int, x1: int, y1: int)
    ensures
        directed_line(x0, y0, x1, y1).no_duplicates(),
        line_pixels(x0, y0, x1, y1).no_duplicates(),
{
    lemma_walk_distinct(x0, y0, x1, y1, 0, 0, (abs(x1 - x0) + abs(y1 - y0) + 1) as nat);
    lemma_walk_distinct(x1, y1, x0, y0, 0, 0, (abs(x0 - x1) + abs(y0 - y1) + 1) as nat);
}

/// The walk starts at its first endpoint and reaches the second: the bound on
/// its length never cuts it short.
pub proof fn lemma_line_reaches_end(x0: int, y0: int, x1: int, y1: int)
    ensures
        directed_line(x0, y0, x1, y1).len() > 0,
        directed_line(x0, y0, x1, y1)[0] == (x0, y0),
        directed_line(x0, y0, x1, y1).last() == (x1, y1),
        line_pixels(x0, y0, x1, y1).contains((x0, y0)),
        line_pixels(x0, y0, x1, y1).contains((x1, y1)),
{
    lemma_walk_ends(x0, y0, x1, y1, 0, 0, (abs(x1 - x0) + abs(y1 - y0) + 1) as nat);
    lemma_walk_ends(x1, y1, x0, y0, 0, 0, (abs(x0 - x1) + abs(y0 - y1) + 1) as nat);
    let a = directed_line(x0, y0, x1, y1);
    let b = directed_line(x1, y1, x0, y0);
    assert(a[a.len() - 1] == (x1, y1));
    assert(b[b.len() - 1] == (x0, y0));
    assert(b[0] == (x1, y1));
}

/// Walks from `(x0, y0)` to `(x1, y1)`, painting each visited pixel that lies on the canvas.
fn draw_directed(canvas: &mut Canvas, x0: i64, y0: i64, x1: i64, y1: i64, color: Color)
    requires
        is_icon(*old(canvas)),
        0 <= x0 <= u32::MAX,
        0 <= y0 <= u32::MAX,
        0 <= x1 <= u32::MAX,
        0 <= y1 <= u32::MAX,
    ensures
        is_icon(*final(canvas)),
        forall|x: int, y: int|
            in_canvas(x, y) ==> #[trigger] px_at(final(canvas).pixels(), x, y) == if directed_line(
                x0 as int,
                y0 as int,
                x1 as int,
                y1 as int,
            ).contains((x, y)) {
                color
            } else {
                px_at(old(canvas).pixels(), x, y)
            },
{
    let dx: i64 = if x1 >= x0 { x1 - x0 } else { x0 - x1 };
    let dy: i64 = if y1 >= y0 { y1 - y0 } else { y0 - y1 };
    let sx: i64 = if x0 < x1 { 1 } else { -1 };
    let sy: i64 = if y0 < y1 { 1 } else { -1 };
    let ghost whole = directed_line(x0 as int, y0 as int, x1 as int, y1 as int);
    let ghost big: int = dx + dy + 1;
    let mut err: i128 = dx as i128 - dy as i128;
    let mut x: i64 = x0;
    let mut y: i64 = y0;
    let mut fuel: i64 = dx + dy + 1;
    let mut done = false;
    let ghost mut visited: Seq<(int, int)> = Seq::empty();
    assert((big - fuel + 1) * (dx + dy) == dx + dy) by (nonlinear_arith)
        requires
            big == fuel,
    ;
    while fuel > 0 && !done
        invariant
            is_icon(*canvas),
            0 <= x0 <= u32::MAX,
            0 <= y0 <= u32::MAX,
            0 <= x1 <= u32::MAX,
            0 <= y1 <= u32::MAX,
            0 <= dx <= u32::MAX,
            0 <= dy <= u32::MAX,
            big == dx + dy + 1,
            0 <= fuel <= big,
            abs(x - x0) <= big - fuel,
            abs(y - y0) <= big - fuel,
            abs(err as int) <= (big - fuel + 1) * (dx + dy),
            dx == abs(x1 - x0),
            dy == abs(y1 - y0),
            sx == unit_step(x0 as int, x1 as int),
            sy == unit_step(y0 as int, y1 as int),
            whole == directed_line(x0 as int, y0 as int, x1 as int, y1 as int),
            !done ==> whole == visited + walk(
                x as int,
                y as int,
                err as int,
                x1 as int,
                y1 as int,
                dx as int,
                dy as int,
                sx as int,
                sy as int,
                fuel as nat,
            ),
            done ==> whole == visited,
            forall|px: int, py: int|
                in_canvas(px, py) ==> #[trigger] px_at(canvas.pixels(), px, py) == if visited.contains(
                    (px, py),
                ) {
                    color
                } else {
                    px_at(old(canvas).pixels(), px, py)
                },
        decreases 2 * fuel + if done { 0int } else { 1int },
    {
        let ghost before = canvas.pixels();
        canvas.put(x, y, color);
        let ghost cur = (x as int, y as int);
        proof {
            assert forall|px: int, py: int| in_canvas(px, py) implies #[trigger] px_at(
                canvas.pixels(),
                px,
                py,
            ) == if visited.push(cur).contains((px, py)) {
                color
            } else {
                px_at(old(canvas).pixels(), px, py)
            } by {
                assert(px_at(before, px, py) == if visited.contains((px, py)) {
                    color
                } else {
                    px_at(old(canvas).pixels(), px, py)
                });
                lemma_idx_bounds(px, py);
                if in_canvas(x as int, y as int) {
                    lemma_idx_bounds(x as int, y as int);
                    if idx(px, py) == idx(x as int, y as int) {
                        lemma_idx_injective(px, py, x as int, y as int);
                    }
                }
                if (px, py) != cur {
                    if visited.push(cur).contains((px, py)) {
                        let k = choose|k: int| 0 <= k < visited.push(cur).len() && visited.push(cur)[k] == (px, py);
                        assert(visited[k] == (px, py));
                    }
                    if visited.contains((px, py)) {
                        let k = choose|k: int| 0 <= k < visited.len() && visited[k] == (px, py);
                        assert(visited.push(cur)[k] == (px, py));
                    }
                } else {
                    assert(visited.push(cur)[visited.len() as int] == cur);
                }
            }
        }
        if x == x1 && y == y1 {
            proof {
                assert(visited + seq![cur] =~= visited.push(cur));
                visited = visited.push(cur);
            }
            done = true;
        } else {
            let ghost s: int = big - fuel;
            let ghost rest = walk(
                x as int, y as int, err as int, x1 as int, y1 as int,
                dx as int, dy as int, sx as int, sy as int, fuel as nat,
            );
            assert((s + 1) * (dx + dy) <= big * (dx + dy)) by (nonlinear_arith)
                requires
                    s + 1 <= big,
                    0 <= dx + dy,
            ;
            assert(big * (dx + dy) <= 0x4_0000_0000 * 0x2_0000_0000) by (nonlinear_arith)
                requires
                    big == dx + dy + 1,
                    0 <= dx <= u32::MAX,
                    0 <= dy <= u32::MAX,
            ;
            assert(abs(x - x0) < 0x3_0000_0000 && abs(y - y0) < 0x3_0000_0000);
            let e2: i128 = 2 * err;
            if e2 > -(dy as i128) {
                err = err - dy as i128;
                x = x + sx;
            }
            if e2 < dx as i128 {
                err = err + dx as i128;
                y = y + sy;
            }
            assert((s + 1) * (dx + dy) + (dx + dy) == (s + 2) * (dx + dy)) by (nonlinear_arith);
            proof {
                assert(rest == seq![cur] + walk(
                    x as int, y as int, err as int, x1 as int, y1 as int,
                    dx as int, dy as int, sx as int, sy as int, (fuel - 1) as nat,
                ));
                assert(visited + rest =~= visited.push(cur) + walk(
                    x as int, y as int, err as int, x1 as int, y1 as int,
                    dx as int, dy as int, sx as int, sy as int, (fuel - 1) as nat,
                ));
                visited = visited.push(cur);
            }
            fuel = fuel - 1;
        }
    }
    proof {
        if !done {
            assert(whole =~= visited);
        }
    }
}

/// Paints the segment between `(x0, y0)` and `(x1, y1)`; pixels off the canvas are skipped.
pub fn draw_line_segment(canvas: &mut Canvas, x0: u32, y0: u32, x1: u32, y1: u32, color: Color)
    requires
        is_icon(*old(canvas)),
    ensures
        is_icon(*final(canvas)),
        forall|x: int, y: int|
            in_canvas(x, y) ==> #[trigger] px_at(final(canvas).pixels(), x, y) == if line_pixels(
                x0 as int,
                y0 as int,
                x1 as int,
                y1 as int,
            ).contains((x, y)) {
                color
            } else {
                px_at(old(canvas).pixels(), x, y)
            },
{
    if x0 < x1 || (x0 == x1 && y0 <= y1) {
        draw_directed(canvas, x0 as i64, y0 as i64, x1 as i64, y1 as i64, color);
    } else {
        draw_directed(canvas, x1 as i64, y1 as i64, x0 as i64, y0 as i64, color);
    }
}

/// Whether `(x, y)` lies on one of the first `n` segments joining consecutive
/// points of `pts`, each point moved by `(ox, oy)`.
pub open spec fn on_segments(pts: Seq<(u32, u32)>, ox: int, oy: int, n: nat, x: int, y: int) -> bool
    decreases n,
{
    if n == 0 {
        false
    } else {
        on_segments(pts, ox, oy, (n - 1) as nat, x, y) || line_pixels(
            pts[n - 1].0 + ox,
            pts[n - 1].1 + oy,
            pts[n as int].0 + ox,
            pts[n as int].1 + oy,
        ).contains((x, y))
    }
}

/// Whether the polyline through `pts`, moved by `(ox, oy)`, covers `(x, y)`:
/// nothing for no point, the point itself for one, the segments otherwise.
pub open spec fn polyline_covers(pts: Seq<(u32, u32)>, ox: int, oy: int, x: int, y: int) -> bool {
    if pts.len() == 0 {
        false
    } else if pts.len() == 1 {
        x == pts[0].0 + ox && y == pts[0].1 + oy
    } else {
        on_segments(pts, ox, oy, (pts.len() - 1) as nat, x, y)
    }
}

/// The moved points fit the integer range the rasterizer takes.
pub open spec fn fits_with_offset(pts: Seq<(u32, u32)>, ox: u32, oy: u32) -> bool {
    forall|i: int|
        0 <= i < pts.len() ==> #[trigger] pts[i].0 + ox <= u32::MAX && pts[i].1 + oy <= u32::MAX
}

/// Paints a single pixel when it lies on the canvas.
pub fn draw_point(canvas: &mut Canvas, x: u32, y: u32, color: Color)
    requires
        is_icon(*old(canvas)),
    ensures
        is_icon(*final(canvas)),
        final(canvas).pixels() == plot(old(canvas).pixels(), x as int, y as int, color),
{
    canvas.put(x as i64, y as i64, color);
}

/// Joins consecutive points with line segments, or plots the only point;
/// every point is moved by `(offset_x, offset_y)` first.
pub fn draw_connected_line(
    canvas: &mut Canvas,
    points: &Vec<(u32, u32)>,
    offset_x: u32,
    offset_y: u32,
    color: Color,
)
    requires
        is_icon(*old(canvas)),
        fits_with_offset(points@, offset_x, offset_y),
    ensures
        is_icon(*final(canvas)),
        forall|x: int, y: int|
            in_canvas(x, y) ==> #[trigger] px_at(final(canvas).pixels(), x, y) == if polyline_covers(
                points@,
                offset_x as int,
                offset_y as int,
                x,
                y,
            ) {
                color
            } else {
                px_at(old(canvas).pixels(), x, y)
            },
{
    let ghost pts = points@;
    if points.len() < 2 {
        if points.len() == 1 {
            let (x, y) = points[0];
            assert(pts[0].0 + offset_x <= u32::MAX && pts[0].1 + offset_y <= u32::MAX);
            let ghost before = canvas.pixels();
            draw_point(canvas, x + offset_x, y + offset_y, color);
            assert forall|px: int, py: int| in_canvas(px, py) implies #[trigger] px_at(
                canvas.pixels(),
                px,
                py,
            ) == if polyline_covers(pts, offset_x as int, offset_y as int, px, py) {
                color
            } else {
                px_at(before, px, py)
            } by {
                lemma_idx_bounds(px, py);
                let (qx, qy) = ((x + offset_x) as int, (y + offset_y) as int);
                if in_canvas(qx, qy) {
                    lemma_idx_bounds(qx, qy);
                    if idx(px, py) == idx(qx, qy) {
                        lemma_idx_injective(px, py, qx, qy);
                    }
                }
            }
        }
        return;
    }
    let mut i: usize = 0;
    while i < points.len() - 1
        invariant
            is_icon(*canvas),
            pts == points@,
            pts.len() >= 2,
            0 <= i <= pts.len() - 1,
            fits_with_offset(pts, offset_x, offset_y),
            forall|px: int, py: int|
                in_canvas(px, py) ==> #[trigger] px_at(canvas.pixels(), px, py) == if on_segments(
                    pts,
                    offset_x as int,
                    offset_y as int,
                    i as nat,
                    px,
                    py,
                ) {
                    color
                } else {
                    px_at(old(canvas).pixels(), px, py)
                },
        decreases pts.len() - i,
    {
        let (x0, y0) = points[i];
        let (x1, y1) = points[i + 1];
        assert(pts[i as int].0 + offset_x <= u32::MAX && pts[i as int].1 + offset_y <= u32::MAX);
        assert(pts[i + 1].0 + offset_x <= u32::MAX && pts[i + 1].1 + offset_y <= u32::MAX);
        let ghost before = canvas.pixels();
        draw_line_segment(canvas, x0 + offset_x, y0 + offset_y, x1 + offset_x, y1 + offset_y, color);
        assert forall|px: int, py: int| in_canvas(px, py) implies #[trigger] px_at(
            canvas.pixels(),
            px,
            py,
        ) == if on_segments(pts, offset_x as int, offset_y as int, (i + 1) as nat, px, py) {
            color
        } else {
            px_at(old(canvas).pixels(), px, py)
        } by {
            assert(px_at(before, px, py) == if on_segments(
                pts,
                offset_x as int,
                offset_y as int,
                i as nat,
                px,
                py,
            ) {
                color
            } else {
                px_at(old(canvas).pixels(), px, py)
            });
        }
        i = i + 1;
    }
}

} // verus!
