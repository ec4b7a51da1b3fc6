use softraster::geometry::{edge_function, get_barycentric, point_in_triangle, Point};

fn pt(x: i64, y: i64) -> Point {
    Point { x, y }
}

#[test]
fn vertex_weights_are_unit() {
    // At each vertex of a positive-area triangle the weights are a
    // permutation of {1, 0, 0}: one numerator carries the whole area,
    // the other two vanish.
    let p0 = pt(0, 0);
    let p1 = pt(0, 4);
    let p2 = pt(4, 0);
    let a: i64 = edge_function(p0, p1, p2);
    assert_eq!(a, 16);
    let w = get_barycentric(p0, p0, p1, p2);
    assert_eq!((w.w0, w.w1, w.w2, w.area), (16, 0, 0, 16));
    let w = get_barycentric(p1, p0, p1, p2);
    assert_eq!((w.w0, w.w1, w.w2, w.area), (0, 16, 0, 16));
    let w = get_barycentric(p2, p0, p1, p2);
    assert_eq!((w.w0, w.w1, w.w2, w.area), (0, 0, 16, 16));
}

#[test]
fn small_triangle_interior_and_exterior() {
    let p0 = pt(0, 0);
    let p1 = pt(4, 0);
    let p2 = pt(0, 4);
    let w = get_barycentric(pt(1, 1), p0, p1, p2);
    assert_eq!(w.area, -16);
    assert_eq!((w.w0, w.w1, w.w2), (-8, -4, -4));
    // the three weights sum to exactly one: numerators sum to the denominator
    assert_eq!(w.w0 + w.w1 + w.w2, w.area);
    assert!(w.is_inside());
    let w = get_barycentric(pt(3, 3), p0, p1, p2);
    assert_eq!(w.w0 + w.w1 + w.w2, w.area);
    assert!(!w.is_inside());
    assert!(point_in_triangle(pt(1, 1), p0, p1, p2));
    assert!(!point_in_triangle(pt(3, 3), p0, p1, p2));
    // the hypotenuse boundary is claimed by the inclusive test
    assert!(point_in_triangle(pt(2, 2), p0, p1, p2));
    assert!(point_in_triangle(pt(4, 0), p0, p1, p2));
}

#[test]
fn demo_triangle_classification() {
    let p0 = pt(200, 200);
    let p1 = pt(400, 200);
    let p2 = pt(500, 400);
    assert_eq!(edge_function(p0, p1, p2), -40000);
    assert!(point_in_triangle(pt(350, 250), p0, p1, p2));
    assert!(!point_in_triangle(pt(0, 0), p0, p1, p2));
}

#[test]
fn swapping_vertices_flips_area_not_classification() {
    let p0 = pt(200, 200);
    let p1 = pt(400, 200);
    let p2 = pt(500, 400);
    assert_eq!(edge_function(p0, p2, p1), 40000);
    let probes: [(i64, i64); 7] = [
        (350, 250),
        (0, 0),
        (200, 200),
        (300, 200),
        (450, 300),
        (401, 200),
        (399, 200),
    ];
    for &(x, y) in probes.iter() {
        let orig = point_in_triangle(pt(x, y), p0, p1, p2);
        let swapped = point_in_triangle(pt(x, y), p0, p2, p1);
        assert_eq!(orig, swapped);
        let w = get_barycentric(pt(x, y), p0, p1, p2);
        let v = get_barycentric(pt(x, y), p0, p2, p1);
        // every numerator flips its sign together with the denominator,
        // the second and third trading places
        assert_eq!(v.area, -w.area);
        assert_eq!(v.w0, -w.w0);
        assert_eq!(v.w1, -w.w2);
        assert_eq!(v.w2, -w.w1);
    }
}

#[test]
fn degenerate_weights_count_as_outside() {
    // collinear vertices: zero area, no point is reported inside
    let p0 = pt(0, 0);
    let p1 = pt(2, 2);
    let p2 = pt(4, 4);
    assert_eq!(edge_function(p0, p1, p2), 0);
    let w = get_barycentric(pt(1, 1), p0, p1, p2);
    assert_eq!(w.area, 0);
    assert!(!w.is_inside());
    assert!(!point_in_triangle(pt(1, 1), p0, p1, p2));
}
