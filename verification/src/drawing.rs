//! Rasterization primitives: point, line, triangle outline, axis-aligned runs
//! and rectangle outline, all in integer arithmetic.

use vstd::prelude::*;
use crate::surface::PixelSurface;
use crate::types::{Color, Vec2};

verus! {

/// Distance between two coordinates on one axis.
pub open spec fn span(a: int, b: int) -> int {
    if a <= b {
        b - a
    } else {
        a - b
    }
}

/// Whether `p` lies between `a` and `b`, whichever of the two is smaller.
pub open spec fn within(a: int, p: int, b: int) -> bool {
    (a <= p && p <= b) || (b <= p && p <= a)
}

/// Whether the point `k` columns and `m` rows away from the start of a line
/// that covers `run` columns and `rise` rows is the one the line passes
/// through on its longer axis: the point's offset on the shorter axis is the
/// ideal one rounded to the nearest integer, halves rounded away from the
/// start.
pub open spec fn near_ideal(run: int, rise: int, k: int, m: int) -> bool {
    if run == 0 && rise == 0 {
        true
    } else if run >= rise {
        -run < 2 * (m * run - k * rise) <= run
    } else {
        -rise < 2 * (k * rise - m * run) <= rise
    }
}

/// Whether the line from `start` to `end` passes through `(x, y)`.
pub open spec fn on_line(start: Vec2, end: Vec2, x: int, y: int) -> bool {
    &&& within(start.x as int, x, end.x as int)
    &&& within(start.y as int, y, end.y as int)
    &&& near_ideal(
        span(start.x as int, end.x as int),
        span(start.y as int, end.y as int),
        span(start.x as int, x),
        span(start.y as int, y),
    )
}

/// How many steps along the longer axis of the line `(x, y)` is from `start`.
pub open spec fn step_index(start: Vec2, end: Vec2, x: int, y: int) -> int {
    if span(start.x as int, end.x as int) >= span(start.y as int, end.y as int) {
        span(start.x as int, x)
    } else {
        span(start.y as int, y)
    }
}

/// Number of points on the line from `start` to `end`.
pub open spec fn line_len(start: Vec2, end: Vec2) -> int {
    step_index(start, end, end.x as int, end.y as int) + 1
}

/// Whether `after` is `before` with `color` written to those points of the
/// line that are fewer than `limit` steps from `start` and lie on the
/// surface, and nothing else touched.
pub open spec fn is_line_prefix_of(
    after: &PixelSurface,
    before: &PixelSurface,
    start: Vec2,
    end: Vec2,
    color: Color,
    limit: int,
) -> bool {
    &&& after.same_size(before)
    &&& forall|x: int, y: int|
        after.contains(x, y) ==> #[trigger] after.pixel(x, y) == if on_line(start, end, x, y)
            && step_index(start, end, x, y) < limit {
            color.rgb()
        } else {
            before.pixel(x, y)
        }
}

/// Whether `after` is `before` with `color` written to every point of the
/// line from `start` to `end` that lies on the surface, and nothing else
/// touched.
pub open spec fn is_line_of(
    after: &PixelSurface,
    before: &PixelSurface,
    start: Vec2,
    end: Vec2,
    color: Color,
) -> bool {
    &&& after.same_size(before)
    &&& forall|x: int, y: int|
        after.contains(x, y) ==> #[trigger] after.pixel(x, y) == if on_line(start, end, x, y) {
            color.rgb()
        } else {
            before.pixel(x, y)
        }
}

/// One step of the incremental line algorithm keeps the point on the line.
///
/// At the point `k` columns and `m` rows from the start, short of the end,
/// the error term is `run - rise + m * run - k * rise`. The algorithm moves
/// one column when twice the error is at least `-rise` and one row when it is
/// at most `run`. It never moves past the end on either axis, it always moves
/// on the longer axis, and the point it reaches is again the nearest to the
/// ideal line.
pub proof fn lemma_line_step(run: int, rise: int, k: int, m: int)
    requires
        0 <= k <= run,
        0 <= m <= rise,
        k != run || m != rise,
        near_ideal(run, rise, k, m),
    ensures
        ({
            let error = run - rise + m * run - k * rise;
            let move_x = 2 * error >= -rise;
            let move_y = 2 * error <= run;
            let k2 = if move_x { k + 1 } else { k };
            let m2 = if move_y { m + 1 } else { m };
            &&& move_x ==> k < run
            &&& move_y ==> m < rise
            &&& if run >= rise { move_x } else { move_y }
            &&& m2 * run - k2 * rise == m * run - k * rise + (if move_y { run } else { 0 }) - (
            if move_x { rise } else { 0 })
            &&& near_ideal(run, rise, k2, m2)
        }),
{
    let e = m * run - k * rise;
    assert((m + 1) * run == m * run + run) by (nonlinear_arith);
    assert((k + 1) * rise == k * rise + rise) by (nonlinear_arith);
    if k == run {
        assert(e <= -run) by (nonlinear_arith)
            requires
                e == m * run - run * rise,
                m < rise,
                0 <= run,
        ;
    }
    if m == rise {
        assert(e >= rise) by (nonlinear_arith)
            requires
                e == rise * run - k * rise,
                k < run,
                0 <= rise,
        ;
    }
}

/// A line passes through exactly one point at each step along its longer
/// axis.
pub proof fn lemma_one_point_per_step(start: Vec2, end: Vec2, x1: int, y1: int, x2: int, y2: int)
    requires
        on_line(start, end, x1, y1),
        on_line(start, end, x2, y2),
        step_index(start, end, x1, y1) == step_index(start, end, x2, y2),
    ensures
        x1 == x2,
        y1 == y2,
{
    let run = span(start.x as int, end.x as int);
    let rise = span(start.y as int, end.y as int);
    let k1 = span(start.x as int, x1);
    let k2 = span(start.x as int, x2);
    let m1 = span(start.y as int, y1);
    let m2 = span(start.y as int, y2);
    if run == 0 && rise == 0 {
    } else if run >= rise {
        assert(m1 == m2) by (nonlinear_arith)
            requires
                -run < 2 * (m1 * run - k1 * rise) <= run,
                -run < 2 * (m2 * run - k1 * rise) <= run,
                run > 0,
        ;
    } else {
        assert(k1 == k2) by (nonlinear_arith)
            requires
                -rise < 2 * (k1 * rise - m1 * run) <= rise,
                -rise < 2 * (k2 * rise - m1 * run) <= rise,
                rise > 0,
        ;
    }
}

/// Both end points of a line are on it: the start at step zero, the end at
/// the last step.
pub proof fn lemma_line_has_ends(start: Vec2, end: Vec2)
    ensures
        on_line(start, end, start.x as int, start.y as int),
        on_line(start, end, end.x as int, end.y as int),
        step_index(start, end, start.x as int, start.y as int) == 0,
        step_index(start, end, end.x as int, end.y as int) == line_len(start, end) - 1,
{
    let run = span(start.x as int, end.x as int);
    let rise = span(start.y as int, end.y as int);
    assert(rise * run - run * rise == 0) by (nonlinear_arith);
}

/// A line from a point to itself is that point and no other.
pub proof fn lemma_line_to_self(p: Vec2, x: int, y: int)
    ensures
        on_line(p, p, x, y) <==> (x == p.x && y == p.y),
{
}

/// Every point of a line is at most as many steps from the start as the
/// longer of the line's two extents, so a line has at most that many points
/// and one more.
pub proof fn lemma_line_steps_bounded(start: Vec2, end: Vec2, x: int, y: int)
    requires
        on_line(start, end, x, y),
    ensures
        0 <= step_index(start, end, x, y) < line_len(start, end),
        line_len(start, end) == 1 + if span(start.x as int, end.x as int) >= span(
            start.y as int,
            end.y as int,
        ) {
            span(start.x as int, end.x as int)
        } else {
            span(start.y as int, end.y as int)
        },
{
}

/// The points of a line form an 8-connected path: every point but the end
/// has a neighbour, at most one column and one row away, that is the next
/// step of the line.
pub proof fn lemma_line_connected(start: Vec2, end: Vec2, x: int, y: int)
    requires
        on_line(start, end, x, y),
        x != end.x || y != end.y,
    ensures
        exists|nx: int, ny: int|
            {
                &&& #[trigger] on_line(start, end, nx, ny)
                &&& step_index(start, end, nx, ny) == step_index(start, end, x, y) + 1
                &&& span(x, nx) <= 1
                &&& span(y, ny) <= 1
            },
{
    let run = span(start.x as int, end.x as int);
    let rise = span(start.y as int, end.y as int);
    let k = span(start.x as int, x);
    let m = span(start.y as int, y);
    lemma_line_step(run, rise, k, m);
    let error = run - rise + m * run - k * rise;
    let toward_x: int = if start.x < end.x { 1 } else { -1 };
    let toward_y: int = if start.y < end.y { 1 } else { -1 };
    let nx = if 2 * error >= -rise { x + toward_x } else { x };
    let ny = if 2 * error <= run { y + toward_y } else { y };
    assert(on_line(start, end, nx, ny));
}

/// A line has a point at every step from zero to its last: with one point
/// per step, it has exactly `line_len` points.
pub proof fn lemma_line_point_at_step(start: Vec2, end: Vec2, step: int)
    requires
        0 <= step < line_len(start, end),
    ensures
        exists|x: int, y: int| #[trigger]
            on_line(start, end, x, y) && step_index(start, end, x, y) == step,
    decreases step,
{
    lemma_line_has_ends(start, end);
    if step > 0 {
        lemma_line_point_at_step(start, end, step - 1);
        let (x, y) = choose|x: int, y: int| #[trigger]
            on_line(start, end, x, y) && step_index(start, end, x, y) == step - 1;
        lemma_line_connected(start, end, x, y);
    }
}

/// Drawing a line is a function of the surface and the geometry: two
/// surfaces that both are the same surface with the same line drawn hold the
/// same bytes.
pub proof fn lemma_line_determined(
    before: &PixelSurface,
    one: &PixelSurface,
    other: &PixelSurface,
    start: Vec2,
    end: Vec2,
    color: Color,
)
    requires
        one.wf(),
        other.wf(),
        is_line_of(one, before, start, end, color),
        is_line_of(other, before, start, end, color),
    ensures
        one@ == other@,
{
    assert forall|x: int, y: int| one.contains(x, y) implies #[trigger] one.pixel(x, y)
        == other.pixel(x, y) by {
        assert(other.pixel(x, y) == if on_line(start, end, x, y) {
            color.rgb()
        } else {
            before.pixel(x, y)
        });
    }
    crate::surface::lemma_same_pixels_same_bytes(one, other);
}

/// Drawing the same line a second time changes nothing: the surface after
/// the second drawing holds the bytes it held after the first.
pub proof fn lemma_line_idempotent(
    before: &PixelSurface,
    once: &PixelSurface,
    twice: &PixelSurface,
    start: Vec2,
    end: Vec2,
    color: Color,
)
    requires
        once.wf(),
        twice.wf(),
        is_line_of(once, before, start, end, color),
        is_line_of(twice, once, start, end, color),
    ensures
        twice@ == once@,
{
    assert forall|x: int, y: int| twice.contains(x, y) implies #[trigger] twice.pixel(x, y)
        == once.pixel(x, y) by {
        assert(once.pixel(x, y) == if on_line(start, end, x, y) {
            color.rgb()
        } else {
            before.pixel(x, y)
        });
    }
    crate::surface::lemma_same_pixels_same_bytes(twice, once);
}

/// Writes `color` to the pixel at `(x, y)`, which the caller has checked to
/// be on the surface.
fn plot(x: i32, y: i32, surface: &mut PixelSurface, color: Color)
    requires
        old(surface).contains(x as int, y as int),
    ensures
        final(surface).wf(),
        final(surface).is_plot_of(old(surface), x as int, y as int, color),
{
    surface.set_pixel(x as u32, y as u32, color);
}

/// Draws the line from `start` to `end`, both included. Points that lie off
/// the surface are skipped; the end points may lie anywhere.
///
/// Every turn of the loop moves one step along the longer axis of the line,
/// so the loop ends after `line_len(start, end)` turns.
pub fn draw_line(start: Vec2, end: Vec2, surface: &mut PixelSurface, color: Color)
    ensures
        final(surface).wf(),
        is_line_of(final(surface), old(surface), start, end, color),
{
    let ghost before = *surface;
    let width: i64 = surface.width() as i64;
    let height: i64 = surface.height() as i64;
    let end_x: i64 = end.x as i64;
    let end_y: i64 = end.y as i64;
    let distance_x: i64 = if start.x < end.x {
        end_x - start.x as i64
    } else {
        start.x as i64 - end_x
    };
    let slope_x: i64 = if start.x < end.x {
        1
    } else {
        -1
    };
    let distance_y: i64 = if start.y < end.y {
        start.y as i64 - end_y
    } else {
        end_y - start.y as i64
    };
    let slope_y: i64 = if start.y < end.y {
        1
    } else {
        -1
    };
    let mut error: i64 = distance_x + distance_y;
    let mut cur_x: i64 = start.x as i64;
    let mut cur_y: i64 = start.y as i64;
    let ghost run = span(start.x as int, end.x as int);
    let ghost rise = span(start.y as int, end.y as int);
    let ghost mut k: int = 0;
    let ghost mut m: int = 0;
    loop
        invariant_except_break
            run == distance_x,
            rise == -distance_y,
            run == span(start.x as int, end.x as int),
            rise == span(start.y as int, end.y as int),
            width == surface.spec_width(),
            height == surface.spec_height(),
            end_x == end.x,
            end_y == end.y,
            slope_x == (if start.x < end.x { 1i64 } else { -1i64 }),
            slope_y == (if start.y < end.y { 1i64 } else { -1i64 }),
            0 <= k <= run,
            0 <= m <= rise,
            cur_x == (if start.x < end.x { start.x + k } else { start.x - k }),
            cur_y == (if start.y < end.y { start.y + m } else { start.y - m }),
            error == run - rise + m * run - k * rise,
            near_ideal(run, rise, k, m),
            surface.wf(),
            is_line_prefix_of(
                surface,
                &before,
                start,
                end,
                color,
                step_index(start, end, cur_x as int, cur_y as int),
            ),
        ensures
            surface.wf(),
            is_line_of(surface, &before, start, end, color),
        decreases line_len(start, end) - step_index(start, end, cur_x as int, cur_y as int),
    {
        let ghost shown = *surface;
        let ghost here = step_index(start, end, cur_x as int, cur_y as int);
        if !(cur_x >= width || cur_x < 0 || cur_y >= height || cur_y < 0) {
            plot(cur_x as i32, cur_y as i32, surface, color);
        }
        assert(is_line_prefix_of(surface, &before, start, end, color, here + 1)) by {
            assert forall|x: int, y: int| surface.contains(x, y) implies #[trigger] surface.pixel(
                x,
                y,
            ) == if on_line(start, end, x, y) && step_index(start, end, x, y) < here + 1 {
                color.rgb()
            } else {
                before.pixel(x, y)
            } by {
                assert(shown.pixel(x, y) == if on_line(start, end, x, y) && step_index(
                    start,
                    end,
                    x,
                    y,
                ) < here {
                    color.rgb()
                } else {
                    before.pixel(x, y)
                });
                if on_line(start, end, x, y) && step_index(start, end, x, y) == here {
                    lemma_one_point_per_step(start, end, x, y, cur_x as int, cur_y as int);
                }
            }
        }
        if cur_x == end_x && cur_y == end_y {
            break;
        }
        proof {
            lemma_line_step(run, rise, k, m);
        }
        let error_2: i64 = 2 * error;
        if error_2 >= distance_y {
            if cur_x == end_x {
                break;
            }
            error = error + distance_y;
            cur_x = cur_x + slope_x;
            proof {
                k = k + 1;
            }
        }
        if error_2 <= distance_x {
            if cur_y == end_y {
                break;
            }
            error = error + distance_x;
            cur_y = cur_y + slope_y;
            proof {
                m = m + 1;
            }
        }
    }
}

/// Whether one of the three sides of the triangle passes through `(x, y)`.
pub open spec fn on_triangle(p1: Vec2, p2: Vec2, p3: Vec2, x: int, y: int) -> bool {
    on_line(p1, p2, x, y) || on_line(p2, p3, x, y) || on_line(p3, p1, x, y)
}

/// Whether `after` is `before` with `color` written to every point of the
/// triangle's outline that lies on the surface, and nothing else touched.
pub open spec fn is_triangle_of(
    after: &PixelSurface,
    before: &PixelSurface,
    p1: Vec2,
    p2: Vec2,
    p3: Vec2,
    color: Color,
) -> bool {
    &&& after.same_size(before)
    &&& forall|x: int, y: int|
        after.contains(x, y) ==> #[trigger] after.pixel(x, y) == if on_triangle(p1, p2, p3, x, y) {
            color.rgb()
        } else {
            before.pixel(x, y)
        }
}

/// Draws the outline of a triangle: the lines from `p1` to `p2`, from `p2` to
/// `p3` and from `p3` back to `p1`. Nothing is filled.
pub fn draw_triangle(p1: Vec2, p2: Vec2, p3: Vec2, surface: &mut PixelSurface, color: Color)
    ensures
        final(surface).wf(),
        is_triangle_of(final(surface), old(surface), p1, p2, p3, color),
{
    let ghost before = *surface;
    draw_line(p1, p2, surface, color);
    let ghost first = *surface;
    draw_line(p2, p3, surface, color);
    let ghost second = *surface;
    draw_line(p3, p1, surface, color);
    proof {
        assert forall|x: int, y: int| surface.contains(x, y) implies #[trigger] surface.pixel(x, y)
            == if on_triangle(p1, p2, p3, x, y) {
            color.rgb()
        } else {
            before.pixel(x, y)
        } by {
            assert(second.pixel(x, y) == if on_line(p2, p3, x, y) {
                color.rgb()
            } else {
                first.pixel(x, y)
            });
            assert(first.pixel(x, y) == if on_line(p1, p2, x, y) {
                color.rgb()
            } else {
                before.pixel(x, y)
            });
        }
    }
}

/// Whether `(x, y)` is one of the `length` pixels that start at `origin` and
/// go up the rows of one column.
pub open spec fn in_vertical_run(origin: Vec2, length: int, x: int, y: int) -> bool {
    x == origin.x && origin.y <= y < origin.y + length
}

/// Whether `(x, y)` is one of the `length` pixels that start at `origin` and
/// go along one row.
pub open spec fn in_horizontal_run(origin: Vec2, length: int, x: int, y: int) -> bool {
    y == origin.y && origin.x <= x < origin.x + length
}

/// Whether the vertical run lies on the surface. An empty run always does.
pub open spec fn vertical_run_fits(surface: &PixelSurface, origin: Vec2, length: int) -> bool {
    &&& 0 <= length
    &&& 0 < length ==> {
        &&& 0 <= origin.x < surface.spec_width()
        &&& 0 <= origin.y
        &&& origin.y + length <= surface.spec_height()
    }
}

/// Whether the horizontal run lies on the surface. An empty run always does.
pub open spec fn horizontal_run_fits(surface: &PixelSurface, origin: Vec2, length: int) -> bool {
    &&& 0 <= length
    &&& 0 < length ==> {
        &&& 0 <= origin.y < surface.spec_height()
        &&& 0 <= origin.x
        &&& origin.x + length <= surface.spec_width()
    }
}

/// Whether `after` is `before` with `color` written to the vertical run and
/// nothing else touched.
pub open spec fn is_vertical_run_of(
    after: &PixelSurface,
    before: &PixelSurface,
    origin: Vec2,
    length: int,
    color: Color,
) -> bool {
    &&& after.same_size(before)
    &&& forall|x: int, y: int|
        after.contains(x, y) ==> #[trigger] after.pixel(x, y) == if in_vertical_run(
            origin,
            length,
            x,
            y,
        ) {
            color.rgb()
        } else {
            before.pixel(x, y)
        }
}

/// Whether `after` is `before` with `color` written to the horizontal run
/// and nothing else touched.
pub open spec fn is_horizontal_run_of(
    after: &PixelSurface,
    before: &PixelSurface,
    origin: Vec2,
    length: int,
    color: Color,
) -> bool {
    &&& after.same_size(before)
    &&& forall|x: int, y: int|
        after.contains(x, y) ==> #[trigger] after.pixel(x, y) == if in_horizontal_run(
            origin,
            length,
            x,
            y,
        ) {
            color.rgb()
        } else {
            before.pixel(x, y)
        }
}

/// Writes `length` pixels upwards through the rows, starting at `p1`. The
/// whole run has to lie on the surface; nothing is clipped.
pub fn draw_vertical_unchecked(p1: Vec2, length: i32, surface: &mut PixelSurface, color: Color)
    requires
        vertical_run_fits(old(surface), p1, length as int),
    ensures
        final(surface).wf(),
        is_vertical_run_of(final(surface), old(surface), p1, length as int, color),
{
    let ghost before = *surface;
    let _ = surface.width();
    let stop: i64 = length as i64 + p1.y as i64;
    let mut y: i64 = p1.y as i64;
    while y < stop
        invariant
            p1.y <= y,
            y <= stop,
            stop == length + p1.y,
            vertical_run_fits(&before, p1, length as int),
            surface.wf(),
            is_vertical_run_of(surface, &before, p1, y - p1.y, color),
        decreases stop - y,
    {
        let ghost shown = *surface;
        surface.set_pixel(p1.x as u32, y as u32, color);
        proof {
            assert forall|px: int, py: int| surface.contains(px, py) implies #[trigger] surface.pixel(
                px,
                py,
            ) == if in_vertical_run(p1, y + 1 - p1.y, px, py) {
                color.rgb()
            } else {
                before.pixel(px, py)
            } by {
                assert(shown.pixel(px, py) == if in_vertical_run(p1, y - p1.y, px, py) {
                    color.rgb()
                } else {
                    before.pixel(px, py)
                });
            }
        }
        y = y + 1;
    }
}

/// Writes `length` pixels along one row, starting at `p1`. The whole run has
/// to lie on the surface; nothing is clipped.
pub fn draw_horizontal_unchecked(p1: Vec2, length: i32, surface: &mut PixelSurface, color: Color)
    requires
        horizontal_run_fits(old(surface), p1, length as int),
    ensures
        final(surface).wf(),
        is_horizontal_run_of(final(surface), old(surface), p1, length as int, color),
{
    let ghost before = *surface;
    let _ = surface.width();
    let stop: i64 = length as i64 + p1.x as i64;
    let mut x: i64 = p1.x as i64;
    while x < stop
        invariant
            p1.x <= x,
            x <= stop,
            stop == length + p1.x,
            horizontal_run_fits(&before, p1, length as int),
            surface.wf(),
            is_horizontal_run_of(surface, &before, p1, x - p1.x, color),
        decreases stop - x,
    {
        let ghost shown = *surface;
        surface.set_pixel(x as u32, p1.y as u32, color);
        proof {
            assert forall|px: int, py: int| surface.contains(px, py) implies #[trigger] surface.pixel(
                px,
                py,
            ) == if in_horizontal_run(p1, x + 1 - p1.x, px, py) {
                color.rgb()
            } else {
                before.pixel(px, py)
            } by {
                assert(shown.pixel(px, py) == if in_horizontal_run(p1, x - p1.x, px, py) {
                    color.rgb()
                } else {
                    before.pixel(px, py)
                });
            }
        }
        x = x + 1;
    }
}

/// Whether `(x, y)` lies on the outline that the four runs of a rectangle
/// cover: the left and right edges from the bottom row up to, but not
/// including, the top row, and the bottom and top edges from the left column
/// up to, but not including, the right column.
pub open spec fn on_rectangle(bottom_left: Vec2, top_right: Vec2, x: int, y: int) -> bool {
    let height = top_right.y - bottom_left.y;
    let width = top_right.x - bottom_left.x;
    ||| in_vertical_run(bottom_left, height, x, y)
    ||| in_horizontal_run(bottom_left, width, x, y)
    ||| in_vertical_run(Vec2 { x: top_right.x, y: bottom_left.y }, height, x, y)
    ||| in_horizontal_run(Vec2 { x: bottom_left.x, y: top_right.y }, width, x, y)
}

/// Whether `after` is `before` with `color` written to the outline of the
/// rectangle and nothing else touched.
pub open spec fn is_rectangle_of(
    after: &PixelSurface,
    before: &PixelSurface,
    bottom_left: Vec2,
    top_right: Vec2,
    color: Color,
) -> bool {
    &&& after.same_size(before)
    &&& forall|x: int, y: int|
        after.contains(x, y) ==> #[trigger] after.pixel(x, y) == if on_rectangle(
            bottom_left,
            top_right,
            x,
            y,
        ) {
            color.rgb()
        } else {
            before.pixel(x, y)
        }
}

/// Draws the outline of the rectangle between two corners as two vertical
/// and two horizontal runs. Both corners have to lie on the surface, the
/// second neither left of nor below the first. A rectangle without width
/// and height draws nothing.
pub fn draw_rectangle_unchecked(
    bottom_left: Vec2,
    top_right: Vec2,
    surface: &mut PixelSurface,
    color: Color,
)
    requires
        bottom_left.x <= top_right.x,
        bottom_left.y <= top_right.y,
        old(surface).contains(bottom_left.x as int, bottom_left.y as int),
        old(surface).contains(top_right.x as int, top_right.y as int),
    ensures
        final(surface).wf(),
        is_rectangle_of(final(surface), old(surface), bottom_left, top_right, color),
{
    let ghost before = *surface;
    let height: i32 = top_right.y - bottom_left.y;
    let width: i32 = top_right.x - bottom_left.x;
    draw_vertical_unchecked(bottom_left, height, surface, color);
    let ghost first = *surface;
    draw_horizontal_unchecked(bottom_left, width, surface, color);
    let ghost second = *surface;
    draw_vertical_unchecked(Vec2 { x: top_right.x, y: top_right.y - height }, height, surface, color);
    let ghost third = *surface;
    draw_horizontal_unchecked(Vec2 { x: bottom_left.x, y: top_right.y }, width, surface, color);
    proof {
        assert forall|x: int, y: int| surface.contains(x, y) implies #[trigger] surface.pixel(x, y)
            == if on_rectangle(bottom_left, top_right, x, y) {
            color.rgb()
        } else {
            before.pixel(x, y)
        } by {
            let right = Vec2 { x: top_right.x, y: bottom_left.y };
            assert(third.pixel(x, y) == if in_vertical_run(right, height as int, x, y) {
                color.rgb()
            } else {
                second.pixel(x, y)
            });
            assert(second.pixel(x, y) == if in_horizontal_run(bottom_left, width as int, x, y) {
                color.rgb()
            } else {
                first.pixel(x, y)
            });
            assert(first.pixel(x, y) == if in_vertical_run(bottom_left, height as int, x, y) {
                color.rgb()
            } else {
                before.pixel(x, y)
            });
        }
    }
}

/// Whether `after` is `before` with `image` laid over it, the image's first
/// pixel on the surface's first: a pixel that the image has holds what the
/// image holds there, and every other pixel is untouched.
pub open spec fn is_blit_of(after: &PixelSurface, before: &PixelSurface, image: &PixelSurface) -> bool {
    &&& after.same_size(before)
    &&& forall|x: int, y: int|
        after.contains(x, y) ==> #[trigger] after.pixel(x, y) == if image.contains(x, y) {
            image.pixel(x, y)
        } else {
            before.pixel(x, y)
        }
}

/// Whether `after` is `before` with the pixels of `image` that come before
/// `(x, y)`, row by row, laid over it.
pub open spec fn is_blit_prefix_of(
    after: &PixelSurface,
    before: &PixelSurface,
    image: &PixelSurface,
    x: int,
    y: int,
) -> bool {
    &&& after.same_size(before)
    &&& forall|px: int, py: int|
        after.contains(px, py) ==> #[trigger] after.pixel(px, py) == if image.contains(px, py) && (
        py < y || (py == y && px < x)) {
            image.pixel(px, py)
        } else {
            before.pixel(px, py)
        }
}

/// Lays `image` over the surface, first pixel on first pixel. What of the
/// image lies beyond the surface is left out.
pub fn blit(image: &PixelSurface, surface: &mut PixelSurface)
    ensures
        final(surface).wf(),
        is_blit_of(final(surface), old(surface), image),
{
    let ghost before = *surface;
    let columns: u32 = if image.width() < surface.width() {
        image.width()
    } else {
        surface.width()
    };
    let rows: u32 = if image.height() < surface.height() {
        image.height()
    } else {
        surface.height()
    };
    let mut y: u32 = 0;
    while y < rows
        invariant
            y <= rows,
            columns <= image.spec_width(),
            columns <= surface.spec_width(),
            rows <= image.spec_height(),
            rows <= surface.spec_height(),
            columns == image.spec_width() || columns == surface.spec_width(),
            rows == image.spec_height() || rows == surface.spec_height(),
            surface.wf(),
            is_blit_prefix_of(surface, &before, image, 0, y as int),
        decreases rows - y,
    {
        let mut x: u32 = 0;
        while x < columns
            invariant
                y < rows,
                x <= columns,
                columns <= image.spec_width(),
                columns <= surface.spec_width(),
                rows <= image.spec_height(),
                rows <= surface.spec_height(),
                columns == image.spec_width() || columns == surface.spec_width(),
                rows == image.spec_height() || rows == surface.spec_height(),
                surface.wf(),
                is_blit_prefix_of(surface, &before, image, x as int, y as int),
            decreases columns - x,
        {
            let ghost shown = *surface;
            let (r, g, b) = image.get_pixel(x, y).unwrap();
            surface.set_pixel(x, y, Color { r, g, b, a: 255 });
            proof {
                assert forall|px: int, py: int| surface.contains(px, py) implies #[trigger] surface.pixel(
                    px,
                    py,
                ) == if image.contains(px, py) && (py < y || (py == y && px < x + 1)) {
                    image.pixel(px, py)
                } else {
                    before.pixel(px, py)
                } by {
                    assert(shown.pixel(px, py) == if image.contains(px, py) && (py < y || (py == y
                        && px < x)) {
                        image.pixel(px, py)
                    } else {
                        before.pixel(px, py)
                    });
                }
            }
            x = x + 1;
        }
        proof {
            assert forall|px: int, py: int| surface.contains(px, py) implies #[trigger] surface.pixel(
                px,
                py,
            ) == if image.contains(px, py) && (py < y + 1 || (py == y + 1 && px < 0)) {
                image.pixel(px, py)
            } else {
                before.pixel(px, py)
            } by {
                assert(surface.pixel(px, py) == if image.contains(px, py) && (py < y || (py == y
                    && px < columns)) {
                    image.pixel(px, py)
                } else {
                    before.pixel(px, py)
                });
            }
        }
        y = y + 1;
    }
}

} // verus!
