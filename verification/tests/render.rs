use rasterizer::sample::{random_tri2, random_vec2};
use rasterizer::scene::Scene;
use rasterizer::tri2::Tri2;
use rasterizer::vec2::Vec2;
use rasterizer::vec3::Vec3;

fn tri(a: (i32, i32), b: (i32, i32), c: (i32, i32), color: (u8, u8, u8)) -> Tri2 {
    Tri2::new(
        Vec2::new(a.0, a.1),
        Vec2::new(b.0, b.1),
        Vec2::new(c.0, c.1),
        Vec3::new(color.0, color.1, color.2),
    )
}

fn pixel(bytes: &[u8], n: usize, x: usize, y: usize) -> (u8, u8, u8) {
    let i = 3 * (y * n + x);
    (bytes[i], bytes[i + 1], bytes[i + 2])
}

#[test]
fn fresh_scene_exports_black() {
    let s = Scene::with_triangles(2, vec![]);
    let b = s.export();
    assert_eq!(b.len(), 12);
    assert!(b.iter().all(|&v| v == 0));
}

#[test]
fn single_triangle_end_to_end() {
    // One right triangle over a 4x4 black buffer: every pixel with
    // x + y <= 3 takes the triangle's red — boundary pixels included,
    // whatever the winding — and everything else stays black.
    let t = tri((0, 0), (3, 0), (0, 3), (255, 0, 0));
    let mut s = Scene::with_triangles(4, vec![t]);
    s.render();
    let b = s.export();
    assert_eq!(b.len(), 48);
    for y in 0..4 {
        for x in 0..4 {
            let expected = if x + y <= 3 { (255, 0, 0) } else { (0, 0, 0) };
            assert_eq!(pixel(&b, 4, x, y), expected);
        }
    }
}

#[test]
fn out_of_bounds_triangle_is_clamped() {
    // A triangle reaching far outside the buffer renders only where it
    // intersects the buffer, without faulting. The triangle is the region
    // x >= -5, y <= 2, y >= x; within the 4x4 grid that leaves the pixels
    // with x <= y <= 2.
    let t = tri((-5, -5), (2, 2), (-5, 2), (0, 0, 255));
    let mut s = Scene::with_triangles(4, vec![t]);
    s.render();
    let b = s.export();
    for y in 0..4i32 {
        for x in 0..4i32 {
            let covered = x <= y && y <= 2;
            let expected = if covered { (0, 0, 255) } else { (0, 0, 0) };
            assert_eq!(pixel(&b, 4, x as usize, y as usize), expected);
        }
    }
}

#[test]
fn fully_outside_triangle_paints_nothing() {
    let t = tri((10, 10), (10, 14), (14, 10), (9, 9, 9));
    let mut s = Scene::with_triangles(4, vec![t]);
    s.render();
    assert!(s.export().iter().all(|&v| v == 0));
}

#[test]
fn later_triangles_occlude_earlier_ones() {
    let t1 = tri((0, 0), (0, 3), (3, 0), (255, 0, 0));
    let t2 = tri((0, 0), (0, 2), (2, 0), (0, 0, 255));

    let mut s12 = Scene::with_triangles(4, vec![t1, t2]);
    s12.render();
    let b12 = s12.export();
    // The overlap is repainted blue; pixels only t1 covers stay red.
    assert_eq!(pixel(&b12, 4, 0, 0), (0, 0, 255));
    assert_eq!(pixel(&b12, 4, 1, 2), (255, 0, 0));

    let mut s21 = Scene::with_triangles(4, vec![t2, t1]);
    s21.render();
    let b21 = s21.export();
    // In the other order the overlap ends red.
    assert_eq!(pixel(&b21, 4, 0, 0), (255, 0, 0));
    assert_eq!(pixel(&b21, 4, 1, 2), (255, 0, 0));
}

#[test]
fn rendering_is_reproducible_from_black() {
    let ts = vec![
        tri((0, 0), (0, 5), (5, 0), (1, 2, 3)),
        tri((2, 2), (2, 7), (7, 2), (4, 5, 6)),
        tri((-3, -3), (6, 6), (-3, 6), (7, 8, 9)),
    ];
    let mut s1 = Scene::with_triangles(8, ts.clone());
    s1.render();
    let b1 = s1.export();
    let mut s2 = Scene::with_triangles(8, ts);
    s2.render();
    let b2 = s2.export();
    assert_eq!(b1, b2);

    // Re-rendering the same list onto the already painted buffer repaints
    // every covered pixel with its own color again.
    s1.render();
    assert_eq!(s1.export(), b1);
}

#[test]
fn export_is_row_major() {
    // A point triangle paints exactly its own pixel: place it at (1, 0)
    // and the second pixel of the first row takes its color.
    let t = tri((1, 0), (1, 0), (1, 0), (7, 8, 9));
    let mut s = Scene::with_triangles(2, vec![t]);
    s.render();
    let b = s.export();
    assert_eq!(&b[..], &[0, 0, 0, 7, 8, 9, 0, 0, 0, 0, 0, 0]);
}

#[test]
fn demo_scene_shape() {
    let s = Scene::new();
    assert_eq!(s.side(), 600);
    let ts = s.triangles();
    assert_eq!(ts.len(), 20);
    for t in ts.iter() {
        for p in t.points.iter() {
            assert!(0 <= p.x && p.x < 512);
            assert!(0 <= p.y && p.y < 512);
        }
    }
    let b = s.export();
    assert_eq!(b.len(), 3 * 600 * 600);
    assert!(b.iter().all(|&v| v == 0));
}

#[test]
fn demo_scene_renders_without_fault() {
    let mut s = Scene::default();
    s.render();
    assert_eq!(s.export().len(), 3 * 600 * 600);
}

#[test]
fn reset_reinitializes_scene() {
    let t = tri((0, 0), (0, 3), (3, 0), (255, 0, 0));
    let mut s = Scene::with_triangles(4, vec![t]);
    s.render();
    s.reset();
    assert_eq!(s.side(), 600);
    assert_eq!(s.triangles().len(), 20);
    assert!(s.export().iter().all(|&v| v == 0));
}

#[test]
fn random_samples_respect_their_bound() {
    // A bound of one leaves a single possible value for each coordinate.
    for _ in 0..8 {
        let v = random_vec2(1);
        assert_eq!((v.x, v.y), (0, 0));
    }
    for _ in 0..8 {
        let t = random_tri2(64);
        for p in t.points.iter() {
            assert!(0 <= p.x && p.x < 64);
            assert!(0 <= p.y && p.y < 64);
        }
    }
}
