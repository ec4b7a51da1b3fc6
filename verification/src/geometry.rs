//! Edge function and barycentric coordinates on integer pixel coordinates.

use vstd::prelude::*;

verus! {

/// Largest magnitude a coordinate may have. With coordinates in
/// `[-COORD_LIMIT, COORD_LIMIT]` every difference of two coordinates fits in
/// `2 * COORD_LIMIT` and every edge-function value in `EDGE_BOUND`, so all of
/// the arithmetic below stays far inside `i64`.
pub const COORD_LIMIT: i64 = 1048576;

/// Bound on the magnitude of an edge-function value over in-range points:
/// `2 * (2 * COORD_LIMIT) * (2 * COORD_LIMIT)`.
pub const EDGE_BOUND: i64 = 8796093022208;

/// A point of the integer pixel grid.
#[derive(Clone, Copy, Debug, PartialEq, Eq, Structural)]
pub struct Point {
    pub x: i64,
    pub y: i64,
}

/// Both coordinates within `COORD_LIMIT`.
pub open spec fn in_range(p: Point) -> bool {
    &&& -COORD_LIMIT <= p.x <= COORD_LIMIT
    &&& -COORD_LIMIT <= p.y <= COORD_LIMIT
}

/// The edge function of the directed line `p0 -> p1` at the point `(x, y)`:
/// twice the signed area of the triangle `(p0, p1, (x, y))`. Its sign tells
/// on which side of the line the point lies; zero means collinear.
pub open spec fn edge_at(p0: Point, p1: Point, x: int, y: int) -> int {
    (x - p0.x) * (p1.y - p0.y) - (y - p0.y) * (p1.x - p0.x)
}

/// Twice the signed area of the triangle `(p0, p1, p2)`.
pub open spec fn edge(p0: Point, p1: Point, p2: Point) -> int {
    edge_at(p0, p1, p2.x as int, p2.y as int)
}

proof fn lemma_product_bound(a: int, b: int, m: int) by (nonlinear_arith)
    requires
        -m <= a <= m,
        -m <= b <= m,
        0 <= m,
    ensures
        -(m * m) <= a * b <= m * m,
{
}

/// Numerator of the first barycentric weight of `(x, y)` with respect to the
/// triangle `(p0, p1, p2)`; the weight itself is `w0_num / edge(p0, p1, p2)`.
pub open spec fn w0_num(p0: Point, p1: Point, p2: Point, x: int, y: int) -> int {
    edge_at(p1, p2, x, y)
}

/// Numerator of the second barycentric weight.
pub open spec fn w1_num(p0: Point, p1: Point, p2: Point, x: int, y: int) -> int {
    edge_at(p2, p0, x, y)
}

/// Numerator of the third barycentric weight, computed as the remainder that
/// makes the three weights sum to one: `area - w0_num - w1_num`.
pub open spec fn w2_num(p0: Point, p1: Point, p2: Point, x: int, y: int) -> int {
    edge(p0, p1, p2) - w0_num(p0, p1, p2, x, y) - w1_num(p0, p1, p2, x, y)
}

/// The pixel `(x, y)` is inside the triangle or on its boundary: the triangle
/// is not degenerate, and each rational weight `w_i_num / area` is at least
/// zero, which for a nonzero denominator is exactly `w_i_num * area >= 0`.
pub open spec fn covers(p0: Point, p1: Point, p2: Point, x: int, y: int) -> bool {
    let a = edge(p0, p1, p2);
    &&& a != 0
    &&& w0_num(p0, p1, p2, x, y) * a >= 0
    &&& w1_num(p0, p1, p2, x, y) * a >= 0
    &&& w2_num(p0, p1, p2, x, y) * a >= 0
}

/// `(x, y)` lies strictly inside the triangle: strictly on the inner side of
/// each of the three directed edges, each edge value sharing the sign of the
/// signed area.
pub open spec fn strictly_inside(p0: Point, p1: Point, p2: Point, x: int, y: int) -> bool {
    let a = edge(p0, p1, p2);
    &&& a != 0
    &&& edge_at(p1, p2, x, y) * a > 0
    &&& edge_at(p2, p0, x, y) * a > 0
    &&& edge_at(p0, p1, x, y) * a > 0
}

/// `(x, y)` lies strictly outside the triangle: strictly on the outer side of
/// at least one of the three directed edges.
pub open spec fn strictly_outside(p0: Point, p1: Point, p2: Point, x: int, y: int) -> bool {
    let a = edge(p0, p1, p2);
    &&& a != 0
    &&& {
        ||| edge_at(p1, p2, x, y) * a < 0
        ||| edge_at(p2, p0, x, y) * a < 0
        ||| edge_at(p0, p1, x, y) * a < 0
    }
}

/// The edge function, computed exactly.
pub fn edge_function(p0: Point, p1: Point, p2: Point) -> (r: i64)
    requires
        in_range(p0),
        in_range(p1),
        in_range(p2),
    ensures
        r == edge(p0, p1, p2),
        -EDGE_BOUND <= r <= EDGE_BOUND,
{
    let dx: i64 = p2.x - p0.x;
    let ey: i64 = p1.y - p0.y;
    let dy: i64 = p2.y - p0.y;
    let ex: i64 = p1.x - p0.x;
    proof {
        lemma_product_bound(dx as int, ey as int, 2 * COORD_LIMIT as int);
        lemma_product_bound(dy as int, ex as int, 2 * COORD_LIMIT as int);
    }
    dx * ey - dy * ex
}

/// Barycentric weights of one pixel with respect to one triangle, as exact
/// rationals over a common denominator: weight `i` is `w_i / area`. For a
/// degenerate triangle `area` is zero and no weight is defined; `is_inside`
/// then reports false.
#[derive(Clone, Copy, Debug, PartialEq, Eq, Structural)]
pub struct Weights {
    pub w0: i64,
    pub w1: i64,
    pub w2: i64,
    pub area: i64,
}

proof fn lemma_sign_of_product(w: int, a: int) by (nonlinear_arith)
    requires
        a != 0,
    ensures
        (w * a >= 0) == (if a > 0 { w >= 0 } else { w <= 0 }),
{
}

impl Weights {
    /// The inclusive inside-or-on-boundary test: every rational weight is at
    /// least zero. A zero area (degenerate triangle) counts as outside.
    pub fn is_inside(&self) -> (r: bool)
        ensures
            r == ({
                &&& self.area != 0
                &&& self.w0 * self.area >= 0
                &&& self.w1 * self.area >= 0
                &&& self.w2 * self.area >= 0
            }),
    {
        proof {
            if self.area != 0 {
                lemma_sign_of_product(self.w0 as int, self.area as int);
                lemma_sign_of_product(self.w1 as int, self.area as int);
                lemma_sign_of_product(self.w2 as int, self.area as int);
            }
        }
        if self.area > 0 {
            self.w0 >= 0 && self.w1 >= 0 && self.w2 >= 0
        } else if self.area < 0 {
            self.w0 <= 0 && self.w1 <= 0 && self.w2 <= 0
        } else {
            false
        }
    }
}

/// The barycentric weights of `target` with respect to `(p0, p1, p2)`:
/// the first two numerators by the edge function, the third as the remainder
/// against the area, so the three always sum to the denominator exactly.
pub fn get_barycentric(target: Point, p0: Point, p1: Point, p2: Point) -> (w: Weights)
    requires
        in_range(target),
        in_range(p0),
        in_range(p1),
        in_range(p2),
    ensures
        w.area == edge(p0, p1, p2),
        w.w0 == w0_num(p0, p1, p2, target.x as int, target.y as int),
        w.w1 == w1_num(p0, p1, p2, target.x as int, target.y as int),
        w.w2 == w2_num(p0, p1, p2, target.x as int, target.y as int),
        w.w0 + w.w1 + w.w2 == w.area,
{
    let area: i64 = edge_function(p0, p1, p2);
    let w0: i64 = edge_function(p1, p2, target);
    let w1: i64 = edge_function(p2, p0, target);
    let w2: i64 = area - w0 - w1;
    Weights { w0, w1, w2, area }
}

proof fn lemma_expand_product(a: int, b: int, c: int, d: int) by (nonlinear_arith)
    ensures
        (a - b) * (c - d) == a * c - a * d - b * c + b * d,
{
}

proof fn lemma_mul_commutes(u: int, v: int) by (nonlinear_arith)
    ensures
        u * v == v * u,
{
}

proof fn lemma_three_edges_sum_raw(
    x0: int, y0: int, x1: int, y1: int, x2: int, y2: int, x: int, y: int,
)
    ensures
        ((x - x1) * (y2 - y1) - (y - y1) * (x2 - x1))
            + ((x - x2) * (y0 - y2) - (y - y2) * (x0 - x2))
            + ((x - x0) * (y1 - y0) - (y - y0) * (x1 - x0))
            == (x2 - x0) * (y1 - y0) - (y2 - y0) * (x1 - x0),
{
    lemma_expand_product(x, x1, y2, y1);
    lemma_expand_product(y, y1, x2, x1);
    lemma_expand_product(x, x2, y0, y2);
    lemma_expand_product(y, y2, x0, x2);
    lemma_expand_product(x, x0, y1, y0);
    lemma_expand_product(y, y0, x1, x0);
    lemma_expand_product(x2, x0, y1, y0);
    lemma_expand_product(y2, y0, x1, x0);
    lemma_mul_commutes(x0, y0);
    lemma_mul_commutes(x0, y1);
    lemma_mul_commutes(x0, y2);
    lemma_mul_commutes(x1, y0);
    lemma_mul_commutes(x1, y1);
    lemma_mul_commutes(x1, y2);
    lemma_mul_commutes(x2, y0);
    lemma_mul_commutes(x2, y1);
    lemma_mul_commutes(x2, y2);
    lemma_mul_commutes(x, y0);
    lemma_mul_commutes(x, y1);
    lemma_mul_commutes(x, y2);
    lemma_mul_commutes(y, x0);
    lemma_mul_commutes(y, x1);
    lemma_mul_commutes(y, x2);
}

/// The three edge values of a point against a triangle's edges sum to the
/// triangle's signed area, so the remainder numerator `w2_num` equals the
/// edge value of the third edge and the three rational weights always sum
/// to exactly one.
pub proof fn lemma_edge_identity(p0: Point, p1: Point, p2: Point, x: int, y: int)
    ensures
        w0_num(p0, p1, p2, x, y) + w1_num(p0, p1, p2, x, y) + edge_at(p0, p1, x, y)
            == edge(p0, p1, p2),
        w2_num(p0, p1, p2, x, y) == edge_at(p0, p1, x, y),
{
    lemma_three_edges_sum_raw(
        p0.x as int, p0.y as int, p1.x as int, p1.y as int, p2.x as int, p2.y as int, x, y,
    );
}

/// At each vertex of any triangle, the weight that belongs to the vertex
/// carries the full signed area as its numerator and the other two
/// numerators vanish.
pub(crate) proof fn lemma_vertex_numerators(p0: Point, p1: Point, p2: Point)
    ensures
        w0_num(p0, p1, p2, p0.x as int, p0.y as int) == edge(p0, p1, p2),
        w1_num(p0, p1, p2, p0.x as int, p0.y as int) == 0,
        w2_num(p0, p1, p2, p0.x as int, p0.y as int) == 0,
        w0_num(p0, p1, p2, p1.x as int, p1.y as int) == 0,
        w1_num(p0, p1, p2, p1.x as int, p1.y as int) == edge(p0, p1, p2),
        w2_num(p0, p1, p2, p1.x as int, p1.y as int) == 0,
        w0_num(p0, p1, p2, p2.x as int, p2.y as int) == 0,
        w1_num(p0, p1, p2, p2.x as int, p2.y as int) == 0,
        w2_num(p0, p1, p2, p2.x as int, p2.y as int) == edge(p0, p1, p2),
{
    let x0 = p0.x as int;
    let y0 = p0.y as int;
    let x1 = p1.x as int;
    let y1 = p1.y as int;
    let x2 = p2.x as int;
    let y2 = p2.y as int;
    assert(edge_at(p2, p0, x0, y0) == 0) by (nonlinear_arith)
        requires
            edge_at(p2, p0, x0, y0) == (x0 - x2) * (y0 - y2) - (y0 - y2) * (x0 - x2);
    assert(edge_at(p1, p2, x0, y0) == edge(p0, p1, p2)) by (nonlinear_arith)
        requires
            edge_at(p1, p2, x0, y0) == (x0 - x1) * (y2 - y1) - (y0 - y1) * (x2 - x1),
            edge(p0, p1, p2) == (x2 - x0) * (y1 - y0) - (y2 - y0) * (x1 - x0);
    assert(edge_at(p1, p2, x1, y1) == 0) by (nonlinear_arith)
        requires
            edge_at(p1, p2, x1, y1) == (x1 - x1) * (y2 - y1) - (y1 - y1) * (x2 - x1);
    assert(edge_at(p2, p0, x1, y1) == edge(p0, p1, p2)) by (nonlinear_arith)
        requires
            edge_at(p2, p0, x1, y1) == (x1 - x2) * (y0 - y2) - (y1 - y2) * (x0 - x2),
            edge(p0, p1, p2) == (x2 - x0) * (y1 - y0) - (y2 - y0) * (x1 - x0);
    assert(edge_at(p1, p2, x2, y2) == 0) by (nonlinear_arith)
        requires
            edge_at(p1, p2, x2, y2) == (x2 - x1) * (y2 - y1) - (y2 - y1) * (x2 - x1);
    assert(edge_at(p2, p0, x2, y2) == 0) by (nonlinear_arith)
        requires
            edge_at(p2, p0, x2, y2) == (x2 - x2) * (y0 - y2) - (y2 - y2) * (x0 - x2);
}

/// At each vertex of a triangle with positive signed area, the barycentric
/// weights are a permutation of {1, 0, 0} exactly: the numerator of the
/// weight that belongs to the vertex equals the denominator, the other two
/// are zero.
pub proof fn lemma_vertex_weights(p0: Point, p1: Point, p2: Point)
    requires
        edge(p0, p1, p2) > 0,
    ensures
        w0_num(p0, p1, p2, p0.x as int, p0.y as int) == edge(p0, p1, p2),
        w1_num(p0, p1, p2, p0.x as int, p0.y as int) == 0,
        w2_num(p0, p1, p2, p0.x as int, p0.y as int) == 0,
        w0_num(p0, p1, p2, p1.x as int, p1.y as int) == 0,
        w1_num(p0, p1, p2, p1.x as int, p1.y as int) == edge(p0, p1, p2),
        w2_num(p0, p1, p2, p1.x as int, p1.y as int) == 0,
        w0_num(p0, p1, p2, p2.x as int, p2.y as int) == 0,
        w1_num(p0, p1, p2, p2.x as int, p2.y as int) == 0,
        w2_num(p0, p1, p2, p2.x as int, p2.y as int) == edge(p0, p1, p2),
{
    lemma_vertex_numerators(p0, p1, p2);
}

proof fn lemma_sum_times(a: int, b: int, c: int, d: int) by (nonlinear_arith)
    requires
        a + b + c == d,
    ensures
        a * d + b * d + c * d == d * d,
{
}

/// Every point a non-degenerate triangle covers (inside or on the boundary)
/// has all three barycentric weights in [0, 1] and the weights sum to
/// exactly one: each numerator lies, in the sense of the shared denominator's
/// sign, between zero and the denominator, and the numerators add up to it.
pub proof fn lemma_covered_weights_in_unit_range(p0: Point, p1: Point, p2: Point, x: int, y: int)
    requires
        covers(p0, p1, p2, x, y),
    ensures
        0 <= w0_num(p0, p1, p2, x, y) * edge(p0, p1, p2)
            <= edge(p0, p1, p2) * edge(p0, p1, p2),
        0 <= w1_num(p0, p1, p2, x, y) * edge(p0, p1, p2)
            <= edge(p0, p1, p2) * edge(p0, p1, p2),
        0 <= w2_num(p0, p1, p2, x, y) * edge(p0, p1, p2)
            <= edge(p0, p1, p2) * edge(p0, p1, p2),
        w0_num(p0, p1, p2, x, y) + w1_num(p0, p1, p2, x, y) + w2_num(p0, p1, p2, x, y)
            == edge(p0, p1, p2),
{
    lemma_edge_identity(p0, p1, p2, x, y);
    lemma_sum_times(
        w0_num(p0, p1, p2, x, y),
        w1_num(p0, p1, p2, x, y),
        w2_num(p0, p1, p2, x, y),
        edge(p0, p1, p2),
    );
}

/// Every point strictly inside a non-degenerate triangle has all three
/// barycentric weights strictly positive, the weights sum to exactly one
/// (the numerators sum to the common denominator), and the point passes the
/// inclusive coverage test.
pub proof fn lemma_strictly_inside_weights(p0: Point, p1: Point, p2: Point, x: int, y: int)
    requires
        strictly_inside(p0, p1, p2, x, y),
    ensures
        w0_num(p0, p1, p2, x, y) * edge(p0, p1, p2) > 0,
        w1_num(p0, p1, p2, x, y) * edge(p0, p1, p2) > 0,
        w2_num(p0, p1, p2, x, y) * edge(p0, p1, p2) > 0,
        w0_num(p0, p1, p2, x, y) + w1_num(p0, p1, p2, x, y) + w2_num(p0, p1, p2, x, y)
            == edge(p0, p1, p2),
        covers(p0, p1, p2, x, y),
{
    lemma_edge_identity(p0, p1, p2, x, y);
}

/// Every point strictly outside a triangle has at least one strictly
/// negative barycentric weight, and fails the inclusive coverage test.
pub proof fn lemma_strictly_outside_weights(p0: Point, p1: Point, p2: Point, x: int, y: int)
    requires
        strictly_outside(p0, p1, p2, x, y),
    ensures
        w0_num(p0, p1, p2, x, y) * edge(p0, p1, p2) < 0
            || w1_num(p0, p1, p2, x, y) * edge(p0, p1, p2) < 0
            || w2_num(p0, p1, p2, x, y) * edge(p0, p1, p2) < 0,
        !covers(p0, p1, p2, x, y),
{
    lemma_edge_identity(p0, p1, p2, x, y);
}

proof fn lemma_neg_times_neg(u: int, v: int) by (nonlinear_arith)
    ensures
        (-u) * (-v) == u * v,
{
}

/// Swapping two vertices flips the sign of the signed area but leaves the
/// classification of every point unchanged: each weight numerator flips its
/// sign together with the denominator (the second and third trade places),
/// so the products that the coverage test looks at are preserved, and no
/// point crosses the inclusive boundary.
pub proof fn lemma_swap_keeps_classification(p0: Point, p1: Point, p2: Point, x: int, y: int)
    ensures
        edge(p0, p2, p1) == -edge(p0, p1, p2),
        w0_num(p0, p2, p1, x, y) == -w0_num(p0, p1, p2, x, y),
        w1_num(p0, p2, p1, x, y) == -w2_num(p0, p1, p2, x, y),
        w2_num(p0, p2, p1, x, y) == -w1_num(p0, p1, p2, x, y),
        w0_num(p0, p2, p1, x, y) * edge(p0, p2, p1) == w0_num(p0, p1, p2, x, y) * edge(p0, p1, p2),
        w1_num(p0, p2, p1, x, y) * edge(p0, p2, p1) == w2_num(p0, p1, p2, x, y) * edge(p0, p1, p2),
        w2_num(p0, p2, p1, x, y) * edge(p0, p2, p1) == w1_num(p0, p1, p2, x, y) * edge(p0, p1, p2),
        covers(p0, p2, p1, x, y) == covers(p0, p1, p2, x, y),
{
    let a = edge(p0, p1, p2);
    lemma_edge_identity(p0, p1, p2, x, y);
    lemma_edge_identity(p0, p2, p1, x, y);
    assert(edge(p0, p2, p1) == -a) by (nonlinear_arith)
        requires
            edge(p0, p2, p1) == (p1.x - p0.x) * (p2.y - p0.y) - (p1.y - p0.y) * (p2.x - p0.x),
            a == (p2.x - p0.x) * (p1.y - p0.y) - (p2.y - p0.y) * (p1.x - p0.x);
    assert(w0_num(p0, p2, p1, x, y) == -w0_num(p0, p1, p2, x, y)) by (nonlinear_arith)
        requires
            w0_num(p0, p2, p1, x, y) == (x - p2.x) * (p1.y - p2.y) - (y - p2.y) * (p1.x - p2.x),
            w0_num(p0, p1, p2, x, y) == (x - p1.x) * (p2.y - p1.y) - (y - p1.y) * (p2.x - p1.x);
    assert(w1_num(p0, p2, p1, x, y) == edge_at(p1, p0, x, y));
    assert(w2_num(p0, p1, p2, x, y) == edge_at(p0, p1, x, y));
    assert(edge_at(p1, p0, x, y) == -edge_at(p0, p1, x, y)) by (nonlinear_arith)
        requires
            edge_at(p1, p0, x, y) == (x - p1.x) * (p0.y - p1.y) - (y - p1.y) * (p0.x - p1.x),
            edge_at(p0, p1, x, y) == (x - p0.x) * (p1.y - p0.y) - (y - p0.y) * (p1.x - p0.x);
    lemma_neg_times_neg(w0_num(p0, p1, p2, x, y), a);
    lemma_neg_times_neg(w2_num(p0, p1, p2, x, y), a);
    lemma_neg_times_neg(w1_num(p0, p1, p2, x, y), a);
}

/// Whether the pixel `target` is inside the triangle `(p0, p1, p2)` or on
/// its boundary, by the inclusive barycentric sign test.
pub fn point_in_triangle(target: Point, p0: Point, p1: Point, p2: Point) -> (r: bool)
    requires
        in_range(target),
        in_range(p0),
        in_range(p1),
        in_range(p2),
    ensures
        r == covers(p0, p1, p2, target.x as int, target.y as int),
{
    let w: Weights = get_barycentric(target, p0, p1, p2);
    w.is_inside()
}

} // verus!

