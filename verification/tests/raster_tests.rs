use softraster::events::{dispatch_event, LoopAction, SurfaceEvent};
use softraster::geometry::Point;
use softraster::raster::rasterize_triangle;

fn pt(x: i64, y: i64) -> Point {
    Point { x, y }
}

#[test]
fn degenerate_triangle_rasterizes_nothing() {
    let frags = rasterize_triangle(pt(0, 0), pt(2, 2), pt(4, 4));
    assert_eq!(frags.len(), 0);
    let frags = rasterize_triangle(pt(1, 1), pt(1, 1), pt(5, 9));
    assert_eq!(frags.len(), 0);
}

#[test]
fn small_triangle_coverage() {
    // triangle (0,0)-(4,0)-(0,4): exactly the grid points of the lower-left
    // right triangle, hypotenuse included, in scan order
    let frags = rasterize_triangle(pt(0, 0), pt(4, 0), pt(0, 4));
    let mut expected: Vec<(i64, i64)> = Vec::new();
    for x in 0..=4i64 {
        for y in 0..=4i64 {
            if x + y <= 4 {
                expected.push((x, y));
            }
        }
    }
    let got: Vec<(i64, i64)> = frags.iter().map(|f| (f.x, f.y)).collect();
    assert_eq!(got, expected);
    assert_eq!(frags.len(), 15);
    for f in frags.iter() {
        assert_eq!(f.weights.area, -16);
        assert_eq!(f.weights.w0 + f.weights.w1 + f.weights.w2, -16);
    }
}

#[test]
fn demo_triangle_coverage() {
    let frags = rasterize_triangle(pt(200, 200), pt(400, 200), pt(500, 400));
    // lattice-point count of the closed triangle: area 20000, 400 boundary
    // points, so 19801 interior + 400 boundary
    assert_eq!(frags.len(), 20201);
    assert!(frags.iter().any(|f| (f.x, f.y) == (350, 250)));
    assert!(!frags.iter().any(|f| (f.x, f.y) == (0, 0)));
    for w in frags.windows(2) {
        assert!(w[0].x < w[1].x || (w[0].x == w[1].x && w[0].y < w[1].y));
    }
}

#[test]
fn negative_coordinates_covered() {
    let frags = rasterize_triangle(pt(-2, -2), pt(2, -2), pt(-2, 2));
    assert_eq!(frags.len(), 15);
    assert!(frags.iter().any(|f| (f.x, f.y) == (-2, -2)));
    assert!(frags.iter().any(|f| (f.x, f.y) == (0, 0)));
    assert!(!frags.iter().any(|f| (f.x, f.y) == (2, 2)));
}

#[test]
fn thin_triangle_still_covers_its_vertices() {
    // every non-degenerate triangle covers at least its vertices' pixels
    let frags = rasterize_triangle(pt(0, 0), pt(1, 0), pt(2, 1));
    assert!(frags.len() > 0);
    assert!(frags.iter().any(|f| (f.x, f.y) == (0, 0)));
    assert!(frags.iter().any(|f| (f.x, f.y) == (1, 0)));
    assert!(frags.iter().any(|f| (f.x, f.y) == (2, 1)));
}

#[test]
fn dispatch_policy() {
    assert_eq!(dispatch_event(SurfaceEvent::RedrawTick), LoopAction::DrawFrame);
    assert_eq!(dispatch_event(SurfaceEvent::CloseRequested), LoopAction::Exit);
    assert_eq!(dispatch_event(SurfaceEvent::Resize(800, 600)), LoopAction::Ignore);
    assert_eq!(dispatch_event(SurfaceEvent::Other), LoopAction::Ignore);
}
