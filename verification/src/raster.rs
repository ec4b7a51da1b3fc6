//! Bounding-box pixel scan over a triangle.

use vstd::prelude::*;
use crate::geometry::{covers, edge, edge_function, get_barycentric, in_range};
use crate::geometry::{w0_num, w1_num, w2_num, Point, Weights};

verus! {

/// One covered pixel: its grid coordinate and the barycentric weights there,
/// which the demo reinterprets directly as the pixel's RGB color.
#[derive(Clone, Copy, Debug, PartialEq, Eq, Structural)]
pub struct Fragment {
    pub x: i64,
    pub y: i64,
    pub weights: Weights,
}

/// The smaller of three values.
pub open spec fn min3(a: int, b: int, c: int) -> int {
    let m = if a <= b { a } else { b };
    if m <= c { m } else { c }
}

/// The larger of three values.
pub open spec fn max3(a: int, b: int, c: int) -> int {
    let m = if a >= b { a } else { b };
    if m >= c { m } else { c }
}

fn min3_i64(a: i64, b: i64, c: i64) -> (r: i64)
    ensures
        r == min3(a as int, b as int, c as int),
{
    let m: i64 = if a <= b { a } else { b };
    if m <= c { m } else { c }
}

fn max3_i64(a: i64, b: i64, c: i64) -> (r: i64)
    ensures
        r == max3(a as int, b as int, c as int),
{
    let m: i64 = if a >= b { a } else { b };
    if m >= c { m } else { c }
}

/// The fragment carries the right weights for its own coordinate, lies in
/// the triangle's bounding box, and its pixel is covered by the triangle.
pub open spec fn fragment_ok(f: Fragment, p0: Point, p1: Point, p2: Point) -> bool {
    &&& min3(p0.x as int, p1.x as int, p2.x as int) <= f.x <= max3(p0.x as int, p1.x as int, p2.x as int)
    &&& min3(p0.y as int, p1.y as int, p2.y as int) <= f.y <= max3(p0.y as int, p1.y as int, p2.y as int)
    &&& covers(p0, p1, p2, f.x as int, f.y as int)
    &&& f.weights.area == edge(p0, p1, p2)
    &&& f.weights.w0 == w0_num(p0, p1, p2, f.x as int, f.y as int)
    &&& f.weights.w1 == w1_num(p0, p1, p2, f.x as int, f.y as int)
    &&& f.weights.w2 == w2_num(p0, p1, p2, f.x as int, f.y as int)
}

/// `f` comes before `g` in the scan order: column by column, bottom to top
/// within a column.
pub open spec fn scan_before(f: Fragment, g: Fragment) -> bool {
    f.x < g.x || (f.x == g.x && f.y < g.y)
}

/// Some fragment of `s` sits at the pixel `(x, y)`.
pub open spec fn has_fragment_at(s: Seq<Fragment>, x: int, y: int) -> bool {
    exists|i: int| 0 <= i < s.len() && s[i].x == x && s[i].y == y
}

/// Rasterize one triangle: scan the closed bounding box of its vertices and
/// emit a fragment for every pixel the triangle covers, in scan order.
///
/// The result is pinned down completely: every fragment is a covered box
/// pixel with the exact barycentric weights of its coordinate, every covered
/// box pixel appears, and the fragments are strictly ordered by the scan.
/// A degenerate triangle (zero signed area) yields no fragments at all; any
/// other yields at least one, since its vertices' own pixels are covered.
#[verifier::loop_isolation(false)]
pub fn rasterize_triangle(p0: Point, p1: Point, p2: Point) -> (frags: Vec<Fragment>)
    requires
        in_range(p0),
        in_range(p1),
        in_range(p2),
    ensures
        edge(p0, p1, p2) == 0 ==> frags@.len() == 0,
        edge(p0, p1, p2) != 0 ==> frags@.len() > 0,
        forall|i: int| 0 <= i < frags@.len() ==> fragment_ok(#[trigger] frags@[i], p0, p1, p2),
        forall|x: int, y: int|
            min3(p0.x as int, p1.x as int, p2.x as int) <= x <= max3(p0.x as int, p1.x as int, p2.x as int)
            && min3(p0.y as int, p1.y as int, p2.y as int) <= y <= max3(p0.y as int, p1.y as int, p2.y as int)
            && covers(p0, p1, p2, x, y)
            ==> has_fragment_at(frags@, x, y),
        forall|i: int, j: int| 0 <= i < j < frags@.len()
            ==> scan_before(#[trigger] frags@[i], #[trigger] frags@[j]),
{
    let mut frags: Vec<Fragment> = Vec::new();

    let area: i64 = edge_function(p0, p1, p2);
    if area == 0 {
        return frags;
    }

    let min_x: i64 = min3_i64(p0.x, p1.x, p2.x);
    let min_y: i64 = min3_i64(p0.y, p1.y, p2.y);
    let max_x: i64 = max3_i64(p0.x, p1.x, p2.x);
    let max_y: i64 = max3_i64(p0.y, p1.y, p2.y);

    let mut x: i64 = min_x;
    while x <= max_x
        invariant
            min_x <= x <= max_x + 1,
            forall|i: int| 0 <= i < frags@.len() ==> fragment_ok(#[trigger] frags@[i], p0, p1, p2),
            forall|i: int| 0 <= i < frags@.len() ==> (#[trigger] frags@[i]).x < x,
            forall|i: int, j: int| 0 <= i < j < frags@.len()
                ==> scan_before(#[trigger] frags@[i], #[trigger] frags@[j]),
            forall|xx: int, yy: int|
                min_x <= xx < x && min_y <= yy <= max_y && covers(p0, p1, p2, xx, yy)
                ==> has_fragment_at(frags@, xx, yy),
        decreases max_x + 1 - x,
    {
        let mut y: i64 = min_y;
        while y <= max_y
            invariant
                min_y <= y <= max_y + 1,
                min_x <= x <= max_x,
                forall|i: int| 0 <= i < frags@.len() ==> fragment_ok(#[trigger] frags@[i], p0, p1, p2),
                forall|i: int| 0 <= i < frags@.len()
                    ==> (#[trigger] frags@[i]).x < x || (frags@[i].x == x && frags@[i].y < y),
                forall|i: int, j: int| 0 <= i < j < frags@.len()
                    ==> scan_before(#[trigger] frags@[i], #[trigger] frags@[j]),
                forall|xx: int, yy: int|
                    min_x <= xx < x && min_y <= yy <= max_y && covers(p0, p1, p2, xx, yy)
                    ==> has_fragment_at(frags@, xx, yy),
                forall|yy: int|
                    min_y <= yy < y && covers(p0, p1, p2, x as int, yy)
                    ==> has_fragment_at(frags@, x as int, yy),
            decreases max_y + 1 - y,
        {
            let ghost prev = frags@;
            let target = Point { x, y };
            let w: Weights = get_barycentric(target, p0, p1, p2);
            let inside: bool = w.is_inside();
            if inside {
                frags.push(Fragment { x, y, weights: w });
            }
            proof {
                assert forall|xx: int, yy: int| has_fragment_at(prev, xx, yy)
                    implies has_fragment_at(frags@, xx, yy) by {
                    let i = choose|i: int| 0 <= i < prev.len() && prev[i].x == xx && prev[i].y == yy;
                    assert(0 <= i < frags@.len() && frags@[i].x == xx && frags@[i].y == yy);
                }
                assert forall|xx: int, yy: int|
                    min_x <= xx < x && min_y <= yy <= max_y && covers(p0, p1, p2, xx, yy)
                    implies has_fragment_at(frags@, xx, yy) by {
                    assert(has_fragment_at(prev, xx, yy));
                }
                assert forall|yy: int|
                    min_y <= yy <= y && covers(p0, p1, p2, x as int, yy)
                    implies has_fragment_at(frags@, x as int, yy) by {
                    if yy < y {
                        assert(has_fragment_at(prev, x as int, yy));
                    } else {
                        assert(inside);
                        assert(frags@[prev.len() as int].x == x as int
                            && frags@[prev.len() as int].y == y as int);
                    }
                }
            }
            y = y + 1;
        }
        x = x + 1;
    }
    proof {
        let a = edge(p0, p1, p2);
        let x0 = p0.x as int;
        let y0 = p0.y as int;
        crate::geometry::lemma_vertex_numerators(p0, p1, p2);
        assert(a * a > 0) by (nonlinear_arith)
            requires
                a != 0;
        assert(covers(p0, p1, p2, x0, y0));
        assert(has_fragment_at(frags@, x0, y0));
        let i = choose|i: int| 0 <= i < frags@.len() && frags@[i].x == x0 && frags@[i].y == y0;
        assert(frags@.len() > 0);
    }
    frags
}

} // verus!
