//! Drawing on the ARGB32 pixmaps of the tray icons: single pixels, and thick
//! straight strokes traced with Bresenham's algorithm.
use vstd::prelude::*;

verus! {

/// The offset of pixel (`x`, `y`) in an image `stride` pixels wide.
pub open spec fn pixel_index(x: int, y: int, stride: int) -> int {
    (y * stride + x) * 4
}

/// `d` with the four bytes at `idx` set to `c`, when they lie inside it.
pub open spec fn put_pixel(d: Seq<u8>, idx: int, c: Seq<u8>) -> Seq<u8> {
    if 0 <= idx && idx + 3 < d.len() {
        d.update(idx, c[0]).update(idx + 1, c[1]).update(idx + 2, c[2]).update(idx + 3, c[3])
    } else {
        d
    }
}

/// Set one pixel; one outside the data is left alone.
pub fn set_pixel(data: &mut Vec<u8>, x: usize, y: usize, stride: usize, argb: [u8; 4])
    requires
        (y * stride + x) * 4 + 3 <= usize::MAX,
    ensures
        final(data)@ == put_pixel(old(data)@, pixel_index(x as int, y as int, stride as int), argb@),
{
    assert(y * stride <= (y * stride + x) * 4 + 3) by (nonlinear_arith)
        requires
            y >= 0,
            stride >= 0,
            x >= 0,
    ;
    let idx = (y * stride + x) * 4;
    if idx + 3 < data.len() {
        data.set(idx, argb[0]);
        data.set(idx + 1, argb[1]);
        data.set(idx + 2, argb[2]);
        data.set(idx + 3, argb[3]);
    }
}

/// The white, opaque pixel of the glyphs.
pub open spec fn white() -> Seq<u8> {
    seq![255u8, 255u8, 255u8, 255u8]
}

/// Paint pixel (`px`, `py`) white if it lies in the `s` by `s` image.
pub open spec fn paint_px(d: Seq<u8>, s: int, px: int, py: int) -> Seq<u8> {
    if 0 <= px < s && 0 <= py < s {
        put_pixel(d, pixel_index(px, py, s), white())
    } else {
        d
    }
}

/// Paint the 2x2 block whose top left corner is `p`, row by row.
pub open spec fn paint_block(d: Seq<u8>, s: int, p: (int, int)) -> Seq<u8> {
    let d1 = paint_px(d, s, p.0, p.1);
    let d2 = paint_px(d1, s, p.0 + 1, p.1);
    let d3 = paint_px(d2, s, p.0, p.1 + 1);
    paint_px(d3, s, p.0 + 1, p.1 + 1)
}

/// Paint the blocks of the points, in order.
pub open spec fn paint_points(d: Seq<u8>, s: int, pts: Seq<(int, int)>) -> Seq<u8>
    decreases pts.len(),
{
    if pts.len() == 0 {
        d
    } else {
        paint_block(paint_points(d, s, pts.drop_last()), s, pts.last())
    }
}

/// The absolute value.
pub open spec fn abs(v: int) -> int {
    if v < 0 { -v } else { v }
}

/// One step of Bresenham's algorithm: both tests read the error term before
/// either update.
pub open spec fn line_step(x: int, y: int, err: int, dx: int, dy: int, sx: int, sy: int) -> (int, int, int) {
    let e2 = 2 * err;
    let (nx, e1) = if e2 >= dy { (x + sx, err + dy) } else { (x, err) };
    let (ny, e3) = if e2 <= dx { (y + sy, e1 + dx) } else { (y, e1) };
    (nx, ny, e3)
}

/// The points from (`x`, `y`) until (`x2`, `y2`), at most `fuel` steps.
pub open spec fn line_from(x: int, y: int, err: int, x2: int, y2: int, dx: int, dy: int, sx: int, sy: int, fuel: nat)
    -> Seq<(int, int)>
    decreases fuel,
{
    if fuel == 0 || (x == x2 && y == y2) {
        seq![(x, y)]
    } else {
        let (nx, ny, ne) = line_step(x, y, err, dx, dy, sx, sy);
        seq![(x, y)] + line_from(nx, ny, ne, x2, y2, dx, dy, sx, sy, (fuel - 1) as nat)
    }
}

/// The horizontal distance of a stroke.
pub open spec fn span_x(x1: int, x2: int) -> int {
    abs(x2 - x1)
}

/// The vertical distance of a stroke.
pub open spec fn span_y(y1: int, y2: int) -> int {
    abs(y2 - y1)
}

/// The direction of a coordinate along a stroke.
pub open spec fn dir(a: int, b: int) -> int {
    if a < b { 1 } else { -1 }
}

/// The points of the stroke from (`x1`, `y1`) to (`x2`, `y2`).
pub open spec fn line_points(x1: int, y1: int, x2: int, y2: int) -> Seq<(int, int)> {
    let dx = span_x(x1, x2);
    let dy = -span_y(y1, y2);
    line_from(x1, y1, dx + dy, x2, y2, dx, dy, dir(x1, x2), dir(y1, y2), (dx - dy) as nat)
}

/// Where the trace stands after `i` steps along x and `j` along y.
pub open spec fn line_inv(x1: int, y1: int, x2: int, y2: int, x: int, y: int, err: int, i: int, j: int) -> bool {
    let dx = span_x(x1, x2);
    let ady = span_y(y1, y2);
    &&& x == x1 + dir(x1, x2) * i
    &&& y == y1 + dir(y1, y2) * j
    &&& 0 <= i <= dx
    &&& 0 <= j <= ady
    &&& err == dx * (j + 1) - ady * (i + 1)
    &&& -2 * ady <= err <= 2 * dx
}

proof fn lemma_line_at_end(x1: int, y1: int, x2: int, y2: int, x: int, y: int, err: int, i: int, j: int)
    requires
        line_inv(x1, y1, x2, y2, x, y, err, i, j),
    ensures
        (x == x2 && y == y2) <==> (i == span_x(x1, x2) && j == span_y(y1, y2)),
{
    let sx = dir(x1, x2);
    let sy = dir(y1, y2);
    if sx == 1 {
        assert(x == x1 + i);
    } else {
        assert(x == x1 - i);
    }
    if sy == 1 {
        assert(y == y1 + j);
    } else {
        assert(y == y1 - j);
    }
}

proof fn lemma_line_step(x1: int, y1: int, x2: int, y2: int, x: int, y: int, err: int, i: int, j: int) -> (r: (int, int))
    requires
        line_inv(x1, y1, x2, y2, x, y, err, i, j),
        !(x == x2 && y == y2),
    ensures
        ({
            let dx = span_x(x1, x2);
            let dy = -span_y(y1, y2);
            let (nx, ny, ne) = line_step(x, y, err, dx, dy, dir(x1, x2), dir(y1, y2));
            &&& line_inv(x1, y1, x2, y2, nx, ny, ne, r.0, r.1)
            &&& r.0 + r.1 > i + j
            &&& r.0 >= i && r.1 >= j
        }),
{
    let dx = span_x(x1, x2);
    let ady = span_y(y1, y2);
    let dy = -ady;
    let sx = dir(x1, x2);
    let sy = dir(y1, y2);
    lemma_line_at_end(x1, y1, x2, y2, x, y, err, i, j);
    let e2 = 2 * err;
    if i == dx {
        assert(j < ady);
        assert(2 * err < -ady) by (nonlinear_arith)
            requires
                err == dx * (j + 1) - ady * (dx + 1),
                0 <= j < ady,
                dx >= 0,
        {
            assert(dx * (j + 1) <= dx * ady);
        }
    }
    if j == ady {
        assert(i < dx);
        assert(2 * err > dx) by (nonlinear_arith)
            requires
                err == dx * (ady + 1) - ady * (i + 1),
                0 <= i < dx,
                ady >= 0,
        {
            assert(ady * (i + 1) <= ady * dx);
        }
    }
    let xs = e2 >= dy;
    let ys = e2 <= dx;
    assert(xs || ys);
    let i1 = if xs { i + 1 } else { i };
    let j1 = if ys { j + 1 } else { j };
    let (nx, ny, ne) = line_step(x, y, err, dx, dy, sx, sy);
    assert(dx * (j + 2) == dx * (j + 1) + dx) by (nonlinear_arith);
    assert(ady * (i + 2) == ady * (i + 1) + ady) by (nonlinear_arith);
    assert(nx == x1 + sx * i1) by (nonlinear_arith)
        requires
            x == x1 + sx * i,
            nx == (if xs { x + sx } else { x }),
            i1 == (if xs { i + 1 } else { i }),
    ;
    assert(ny == y1 + sy * j1) by (nonlinear_arith)
        requires
            y == y1 + sy * j,
            ny == (if ys { y + sy } else { y }),
            j1 == (if ys { j + 1 } else { j }),
    ;
    (i1, j1)
}

proof fn lemma_line_from_steps(x1: int, y1: int, x2: int, y2: int, x: int, y: int, err: int, i: int, j: int, fuel: nat)
    requires
        line_inv(x1, y1, x2, y2, x, y, err, i, j),
        fuel >= (span_x(x1, x2) - i) + (span_y(y1, y2) - j),
    ensures
        line_from(x, y, err, x2, y2, span_x(x1, x2), -span_y(y1, y2), dir(x1, x2), dir(y1, y2), fuel).last() == (x2, y2),
        line_from(x, y, err, x2, y2, span_x(x1, x2), -span_y(y1, y2), dir(x1, x2), dir(y1, y2), fuel)[0] == (x, y),
    decreases fuel,
{
    lemma_line_at_end(x1, y1, x2, y2, x, y, err, i, j);
    if !(x == x2 && y == y2) {
        let dx = span_x(x1, x2);
        let dy = -span_y(y1, y2);
        let (nx, ny, ne) = line_step(x, y, err, dx, dy, dir(x1, x2), dir(y1, y2));
        let (i1, j1) = lemma_line_step(x1, y1, x2, y2, x, y, err, i, j);
        lemma_line_from_steps(x1, y1, x2, y2, nx, ny, ne, i1, j1, (fuel - 1) as nat);
    }
}

/// A stroke runs from its first point to its second.
pub proof fn lemma_line_endpoints(x1: int, y1: int, x2: int, y2: int)
    ensures
        line_points(x1, y1, x2, y2)[0] == (x1, y1),
        line_points(x1, y1, x2, y2).last() == (x2, y2),
{
    let dx = span_x(x1, x2);
    let ady = span_y(y1, y2);
    assert(line_inv(x1, y1, x2, y2, x1, y1, dx - ady, 0, 0));
    lemma_line_from_steps(x1, y1, x2, y2, x1, y1, dx - ady, 0, 0, (dx + ady) as nat);
}

fn paint_pixel(data: &mut Vec<u8>, s: usize, px: i64, py: i64)
    requires
        s * s * 4 <= usize::MAX,
    ensures
        final(data)@ == paint_px(old(data)@, s as int, px as int, py as int),
{
    if px >= 0 && py >= 0 && (px as u64) < (s as u64) && (py as u64) < (s as u64) {
        let x = px as usize;
        let y = py as usize;
        assert((y * s + x) * 4 + 3 <= usize::MAX) by (nonlinear_arith)
            requires
                x < s,
                y < s,
                s * s * 4 <= usize::MAX,
        {
            assert(y * s + x <= (s - 1) * s + (s - 1));
            assert((s - 1) * s + (s - 1) == s * s - 1);
        }
        set_pixel(data, x, y, s, [255u8, 255u8, 255u8, 255u8]);
        assert([255u8, 255u8, 255u8, 255u8]@ =~= white());
    }
}

/// Draw a white stroke two pixels thick from (`x1`, `y1`) to (`x2`, `y2`):
/// the 2x2 block at each point of the stroke, clipped to the `s` by `s` image.
pub fn draw_thick_line(data: &mut Vec<u8>, s: usize, x1: i32, y1: i32, x2: i32, y2: i32)
    requires
        s * s * 4 <= usize::MAX,
        x1 < i32::MAX && x2 < i32::MAX && y1 < i32::MAX && y2 < i32::MAX,
        span_x(x1 as int, x2 as int) < 0x2000_0000,
        span_y(y1 as int, y2 as int) < 0x2000_0000,
    ensures
        final(data)@ == paint_points(old(data)@, s as int, line_points(x1 as int, y1 as int, x2 as int, y2 as int)),
{
    let dx: i32 = if x2 >= x1 { x2 - x1 } else { x1 - x2 };
    let ady: i32 = if y2 >= y1 { y2 - y1 } else { y1 - y2 };
    let dy: i32 = -ady;
    let sx: i32 = if x1 < x2 { 1 } else { -1 };
    let sy: i32 = if y1 < y2 { 1 } else { -1 };
    let mut err: i32 = dx + dy;
    let mut x = x1;
    let mut y = y1;
    let ghost pts = line_points(x1 as int, y1 as int, x2 as int, y2 as int);
    let ghost total: int = (dx + ady) as int;
    let ghost mut i: int = 0;
    let ghost mut j: int = 0;
    let ghost mut k: int = 0;
    assert(line_inv(x1 as int, y1 as int, x2 as int, y2 as int, x as int, y as int, err as int, i, j));
    assert(pts.take(0) =~= Seq::<(int, int)>::empty());
    assert(pts.skip(0) =~= pts);
    loop
        invariant_except_break
            s * s * 4 <= usize::MAX,
            x1 < i32::MAX && x2 < i32::MAX && y1 < i32::MAX && y2 < i32::MAX,
            span_x(x1 as int, x2 as int) < 0x2000_0000,
            span_y(y1 as int, y2 as int) < 0x2000_0000,
            dx == span_x(x1 as int, x2 as int),
            ady == span_y(y1 as int, y2 as int),
            dy == -ady,
            sx == dir(x1 as int, x2 as int),
            sy == dir(y1 as int, y2 as int),
            total == dx + ady,
            pts == line_points(x1 as int, y1 as int, x2 as int, y2 as int),
            line_inv(x1 as int, y1 as int, x2 as int, y2 as int, x as int, y as int, err as int, i, j),
            0 <= k <= i + j,
            k < pts.len(),
            pts.skip(k) == line_from(x as int, y as int, err as int, x2 as int, y2 as int, dx as int, dy as int,
                sx as int, sy as int, (total - k) as nat),
            data@ == paint_points(old(data)@, s as int, pts.take(k)),
        ensures
            data@ == paint_points(old(data)@, s as int, pts),
        decreases total - (i + j),
    {
        proof {
            lemma_line_at_end(x1 as int, y1 as int, x2 as int, y2 as int, x as int, y as int, err as int, i, j);
            assert(pts.skip(k)[0] == (x as int, y as int));
            assert(pts[k] == (x as int, y as int));
            assert(pts.take(k + 1).drop_last() =~= pts.take(k));
            assert(pts.take(k + 1).last() == (x as int, y as int));
        }
        let ghost before = data@;
        let px = x as i64;
        let py = y as i64;
        paint_pixel(data, s, px, py);
        paint_pixel(data, s, px + 1, py);
        paint_pixel(data, s, px, py + 1);
        paint_pixel(data, s, px + 1, py + 1);
        assert(data@ == paint_block(before, s as int, (x as int, y as int)));
        if x == x2 && y == y2 {
            proof {
                assert(pts.skip(k) =~= seq![(x as int, y as int)]);
                assert(pts.len() == k + 1);
                assert(pts.take(k + 1) =~= pts);
            }
            break;
        }
        let ghost (i1, j1) = lemma_line_step(x1 as int, y1 as int, x2 as int, y2 as int, x as int, y as int, err as int, i, j);
        proof {
            assert(total - k > 0);
            let (nx, ny, ne) = line_step(x as int, y as int, err as int, dx as int, dy as int, sx as int, sy as int);
            let rest = line_from(nx, ny, ne, x2 as int, y2 as int, dx as int, dy as int,
                sx as int, sy as int, (total - (k + 1)) as nat);
            assert(pts.skip(k) == seq![(x as int, y as int)] + rest);
            assert(rest.len() >= 1);
            assert(pts.skip(k + 1) =~= rest) by {
                assert(pts.skip(k + 1) =~= pts.skip(k).drop_first());
            }
        }
        let e2 = 2 * err;
        if e2 >= dy {
            err = err + dy;
            x = x + sx;
        }
        if e2 <= dx {
            err = err + dx;
            y = y + sy;
        }
        proof {
            i = i1;
            j = j1;
            k = k + 1;
        }
    }
}

} // verus!
