use rasterizer::tri2::Tri2;
use rasterizer::vec2::Vec2;
use rasterizer::vec3::Vec3;

fn tri(a: (i32, i32), b: (i32, i32), c: (i32, i32)) -> Tri2 {
    Tri2::new(
        Vec2::new(a.0, a.1),
        Vec2::new(b.0, b.1),
        Vec2::new(c.0, c.1),
        Vec3::new(255, 0, 0),
    )
}

#[test]
fn vec3_component_aliases() {
    let mut v = Vec3::new(1, 2, 3);
    assert_eq!(v.x(), 1);
    assert_eq!(v.y(), 2);
    assert_eq!(v.z(), 3);
    assert_eq!(v.r(), 1);
    assert_eq!(v.g(), 2);
    assert_eq!(v.b(), 3);
    v.set_r(9);
    assert_eq!(v.x(), 9);
    assert_eq!(v.r(), 9);
    v.set_y(8);
    assert_eq!(v.g(), 8);
    v.set_b(7);
    assert_eq!(v.z(), 7);
}

#[test]
fn vec2_arithmetic() {
    let a = Vec2::new(5, 7);
    let b = Vec2::new(2, 3);
    let d = a.sub(b);
    assert_eq!((d.x, d.y), (3, 4));
    let h = a.mul(b);
    assert_eq!((h.x, h.y), (10, 21));
    let s = a.scale(2);
    assert_eq!((s.x, s.y), (10, 14));
    assert_eq!(a.dot(b), 31);
    let r = Vec2::new(1, 2).clockwise90();
    assert_eq!((r.x, r.y), (2, -1));
}

#[test]
fn side_of_line_tests_are_inclusive() {
    let a = Vec2::new(0, 0);
    let b = Vec2::new(0, 4);
    assert!(a.point_on_right_line(b, Vec2::new(1, 1)));
    assert!(!a.point_on_right_line(b, Vec2::new(-1, 1)));
    assert!(a.point_on_right_line(b, Vec2::new(0, 2)));
    assert!(a.point_on_left_line(b, Vec2::new(-1, 1)));
    assert!(!a.point_on_left_line(b, Vec2::new(1, 1)));
    assert!(a.point_on_left_line(b, Vec2::new(0, 2)));
}

#[test]
fn contains_interior_and_exterior_both_windings() {
    let cw = tri((0, 0), (0, 4), (4, 0));
    let ccw = tri((0, 0), (4, 0), (0, 4));
    assert!(cw.inside(Vec2::new(1, 1)));
    assert!(ccw.inside(Vec2::new(1, 1)));
    assert!(!cw.inside(Vec2::new(3, 3)));
    assert!(!ccw.inside(Vec2::new(3, 3)));
    assert!(!cw.inside(Vec2::new(-1, 2)));
    assert!(!ccw.inside(Vec2::new(-1, 2)));
}

#[test]
fn boundary_points_included_for_both_windings() {
    // A point exactly on an edge counts as inside, whatever the winding:
    // both side tests include the edge line itself.
    let ccw = tri((0, 0), (4, 0), (0, 4));
    assert!(ccw.inside(Vec2::new(2, 0)));
    assert!(ccw.inside(Vec2::new(0, 2)));
    assert!(ccw.inside(Vec2::new(2, 2)));
    assert!(ccw.inside(Vec2::new(0, 0)));
    let cw = tri((0, 0), (0, 4), (4, 0));
    assert!(cw.inside(Vec2::new(2, 0)));
    assert!(cw.inside(Vec2::new(0, 2)));
    assert!(cw.inside(Vec2::new(2, 2)));
    assert!(cw.inside(Vec2::new(4, 0)));
}

#[test]
fn degenerate_triangle_contains_everything() {
    // All three vertices coincide: every side test returns an inclusive 0,
    // so the tests agree on every point. Rasterization still paints at most
    // the one bounding-box pixel.
    let d = tri((5, 5), (5, 5), (5, 5));
    assert!(d.inside(Vec2::new(5, 5)));
    assert!(d.inside(Vec2::new(0, 0)));
}

#[test]
fn bounding_box_is_componentwise_min_max() {
    let t = tri((3, -1), (0, 5), (2, 2));
    let (tl, br) = t.bounding_box();
    assert_eq!((tl.x, tl.y), (0, -1));
    assert_eq!((br.x, br.y), (3, 5));
}

#[test]
fn bounding_box_ignores_vertex_order() {
    let pts = [(3, -1), (0, 5), (2, 2)];
    let orders = [
        [0, 1, 2],
        [0, 2, 1],
        [1, 0, 2],
        [1, 2, 0],
        [2, 0, 1],
        [2, 1, 0],
    ];
    for o in orders.iter() {
        let t = tri(pts[o[0]], pts[o[1]], pts[o[2]]);
        let (tl, br) = t.bounding_box();
        assert_eq!((tl.x, tl.y), (0, -1));
        assert_eq!((br.x, br.y), (3, 5));
    }
}

#[test]
fn scale_multiplies_vertices_and_keeps_color() {
    let t = Tri2::new(
        Vec2::new(1, 2),
        Vec2::new(-3, 4),
        Vec2::new(5, -6),
        Vec3::new(10, 20, 30),
    );
    let s = t.scale(2);
    assert_eq!((s.points[0].x, s.points[0].y), (2, 4));
    assert_eq!((s.points[1].x, s.points[1].y), (-6, 8));
    assert_eq!((s.points[2].x, s.points[2].y), (10, -12));
    assert_eq!(s.color, Vec3::new(10, 20, 30));
}

#[test]
fn containment_is_invariant_under_positive_scaling() {
    let t = tri((0, 0), (0, 4), (4, 0));
    let k = 3;
    let samples = [(1, 1), (2, 0), (3, 3), (-1, 2), (0, 0), (4, 0)];
    for &(x, y) in samples.iter() {
        let p = Vec2::new(x, y);
        let ps = p.scale(k);
        assert_eq!(t.scale(k).inside(ps), t.inside(p));
    }
}
