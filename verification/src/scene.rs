//! The scene: a square pixel buffer and an ordered list of triangles,
//! together with the rasterization loop. Each triangle is painted over the
//! buffer in list order — a painter's algorithm with no depth test — by
//! scanning its bounding box, clamped to the buffer, and overwriting every
//! contained pixel with the triangle's color.

use vstd::prelude::*;

use vstd::arithmetic::div_mod::{
    lemma_fundamental_div_mod, lemma_fundamental_div_mod_converse, lemma_mod_bound,
};

use crate::sample::random_tri2;
use crate::tri2::Tri2;
use crate::vec2::Vec2;
use crate::vec3::Vec3;

verus! {

/// The largest accepted buffer side: keeps every pixel index, and the
/// export length of three bytes per pixel, within the machine's range.
pub const MAX_SIDE: usize = 30000;

/// The buffer side of the demo scene.
pub const DEMO_SIDE: usize = 600;

/// How many random triangles a demo scene holds.
pub const DEMO_TRIANGLE_COUNT: usize = 20;

/// The demo projection factor: demo vertices are drawn from the square
/// `[0, DEMO_PROJECTION)` of pixel space.
pub const DEMO_PROJECTION: i32 = 512;

/// The black pixel every buffer starts from.
pub open spec fn black() -> Vec3 {
    Vec3 { x: 0, y: 0, z: 0 }
}

/// Does triangle `t` paint the pixel at column `x`, row `y` of a buffer of
/// side `n`? The pixel must lie in the buffer, within the triangle's
/// bounding box — the scanned region — and pass the containment test.
pub open spec fn covers(t: Tri2, x: int, y: int, n: int) -> bool {
    &&& 0 <= x < n
    &&& 0 <= y < n
    &&& t.spec_min_x() <= x <= t.spec_max_x()
    &&& t.spec_min_y() <= y <= t.spec_max_y()
    &&& t.spec_inside(Vec2 { x: x as i32, y: y as i32 })
}

/// One triangle painted onto a row-major buffer of side `n`: every pixel it
/// covers takes its color, every other pixel keeps its value.
pub open spec fn paint_one(t: Tri2, buf: Seq<Vec3>, n: int) -> Seq<Vec3> {
    Seq::new(buf.len(), |i: int| if covers(t, i % n, i / n, n) { t.color } else { buf[i] })
}

/// The whole triangle list painted onto a buffer, in list order: triangles
/// later in the list occlude earlier ones wherever they overlap.
pub open spec fn render_spec(ts: Seq<Tri2>, buf: Seq<Vec3>, n: int) -> Seq<Vec3>
    decreases ts.len(),
{
    if ts.len() == 0 {
        buf
    } else {
        paint_one(ts.last(), render_spec(ts.drop_last(), buf, n), n)
    }
}

/// One byte of the export stream: three bytes per pixel in row-major order,
/// red then green then blue.
pub open spec fn export_channel(buf: Seq<Vec3>, k: int) -> u8 {
    let p = buf[k / 3];
    if k % 3 == 0 {
        p.x
    } else if k % 3 == 1 {
        p.y
    } else {
        p.z
    }
}

/// The export byte stream of a buffer.
pub open spec fn export_spec(buf: Seq<Vec3>) -> Seq<u8> {
    Seq::new(3 * buf.len(), |k: int| export_channel(buf, k))
}

/// Bounds on every vertex coordinate of a demo triangle.
pub open spec fn demo_tri_bounds(t: Tri2) -> bool {
    forall|j: int|
        0 <= j < 3 ==> 0 <= #[trigger] t.points@[j].x < DEMO_PROJECTION && 0 <= t.points@[j].y
            < DEMO_PROJECTION
}

/// Row-major index arithmetic, forward: the pixel at column `x`, row `y`
/// has index `y * n + x`, and that index decomposes back into `x` and `y`.
proof fn lemma_index_decompose(n: int, x: int, y: int)
    requires
        0 < n,
        0 <= x < n,
        0 <= y < n,
    ensures
        0 <= y * n + x < n * n,
        (y * n + x) % n == x,
        (y * n + x) / n == y,
{
    assert(0 <= y * n + x && y * n + x < n * n) by (nonlinear_arith)
        requires
            0 < n,
            0 <= x < n,
            0 <= y < n,
    ;
    lemma_fundamental_div_mod_converse(y * n + x, n, y, x);
}

/// Row-major index arithmetic, backward: every index of the buffer names a
/// column and a row within the square.
proof fn lemma_index_compose(n: int, i: int)
    requires
        0 < n,
        0 <= i < n * n,
    ensures
        0 <= i % n < n,
        0 <= i / n < n,
        i == (i / n) * n + (i % n),
{
    lemma_mod_bound(i, n);
    lemma_fundamental_div_mod(i, n);
    assert((i / n) * n == n * (i / n)) by (nonlinear_arith);
    assert(0 <= i / n && i / n < n) by (nonlinear_arith)
        requires
            0 < n,
            0 <= i < n * n,
            i == n * (i / n) + i % n,
            0 <= i % n < n,
    ;
}

/// A scene.
#[derive(Debug, Clone, PartialEq)]
pub struct Scene {
    /// The output pixel buffer, row-major, of length side * side.
    output: Vec<Vec3>,
    /// The buffer's side length.
    side: usize,
    /// The triangles, in paint order.
    triangles: Vec<Tri2>,
}

impl Scene {
    /// The buffer's side length.
    pub closed spec fn spec_side(self) -> int {
        self.side as int
    }

    /// The pixel buffer, row-major.
    pub closed spec fn buffer(self) -> Seq<Vec3> {
        self.output@
    }

    /// The triangles, in paint order.
    pub closed spec fn tris(self) -> Seq<Tri2> {
        self.triangles@
    }

    /// Well-formedness: the side is within range and the buffer holds
    /// exactly side * side pixels.
    pub closed spec fn wf(self) -> bool {
        self.side <= MAX_SIDE && self.output@.len() == self.side * self.side
    }

    /// Get the buffer's side length.
    pub fn side(&self) -> (r: usize)
        ensures
            r == self.spec_side(),
    {
        self.side
    }

    /// Read the triangle list.
    pub fn triangles(&self) -> (r: &Vec<Tri2>)
        ensures
            r@ == self.tris(),
    {
        &self.triangles
    }

    /// Create a Scene over an all-black buffer of the given side, holding
    /// the given triangles.
    pub fn with_triangles(side: usize, triangles: Vec<Tri2>) -> (s: Scene)
        requires
            side <= MAX_SIDE,
        ensures
            s.wf(),
            s.spec_side() == side,
            s.tris() == triangles@,
            s.buffer().len() == side * side,
            forall|i: int| 0 <= i < s.buffer().len() ==> s.buffer()[i] == black(),
    {
        proof {
            assert(side * side <= 900_000_000) by (nonlinear_arith)
                requires
                    side <= 30000,
            ;
        }
        let n: usize = side * side;
        let mut output: Vec<Vec3> = Vec::new();
        let mut i: usize = 0;
        while i < n
            invariant
                i <= n,
                output@.len() == i,
                forall|j: int| 0 <= j < i ==> output@[j] == black(),
            decreases n - i,
        {
            output.push(Vec3 { x: 0, y: 0, z: 0 });
            i += 1;
        }
        Scene { output, side, triangles }
    }

    /// Create a new Scene: the demo buffer, all black, and a fixed count of
    /// random triangles drawn from the demo square of pixel space.
    pub fn new() -> (s: Scene)
        ensures
            s.wf(),
            s.spec_side() == DEMO_SIDE,
            s.tris().len() == DEMO_TRIANGLE_COUNT,
            forall|i: int| 0 <= i < s.tris().len() ==> demo_tri_bounds(#[trigger] s.tris()[i]),
            s.buffer().len() == DEMO_SIDE * DEMO_SIDE,
            forall|i: int| 0 <= i < s.buffer().len() ==> s.buffer()[i] == black(),
    {
        let mut triangles: Vec<Tri2> = Vec::new();
        let mut i: usize = 0;
        while i < DEMO_TRIANGLE_COUNT
            invariant
                i <= DEMO_TRIANGLE_COUNT,
                triangles@.len() == i,
                forall|j: int| 0 <= j < i ==> demo_tri_bounds(#[trigger] triangles@[j]),
            decreases DEMO_TRIANGLE_COUNT - i,
        {
            triangles.push(random_tri2(DEMO_PROJECTION));
            i += 1;
        }
        Scene::with_triangles(DEMO_SIDE, triangles)
    }

    /// Discard the buffer and the triangles and reinitialize both, as a
    /// fresh demo scene.
    pub fn reset(&mut self)
        ensures
            final(self).wf(),
            final(self).spec_side() == DEMO_SIDE,
            final(self).tris().len() == DEMO_TRIANGLE_COUNT,
            forall|i: int|
                0 <= i < final(self).tris().len() ==> demo_tri_bounds(#[trigger] final(self).tris()[i]),
            forall|i: int|
                0 <= i < final(self).buffer().len() ==> final(self).buffer()[i] == black(),
    {
        *self = Scene::new();
    }

    /// Render this Scene: paint every triangle, in list order, into the
    /// buffer. The triangles and the side are untouched; the buffer becomes
    /// exactly the list painted over its previous contents.
    pub fn render(&mut self)
        requires
            old(self).wf(),
        ensures
            final(self).wf(),
            final(self).spec_side() == old(self).spec_side(),
            final(self).tris() == old(self).tris(),
            final(self).buffer().len() == old(self).buffer().len(),
            final(self).buffer() == render_spec(
                old(self).tris(),
                old(self).buffer(),
                old(self).spec_side(),
            ),
    {
        let n: usize = self.side;
        let ghost nn: int = n as int;
        let ghost orig_tris = self.triangles@;
        let ghost base = self.output@;
        proof {
            assert(nn * nn <= 900_000_000) by (nonlinear_arith)
                requires
                    0 <= nn <= 30000,
            ;
        }
        let num: usize = self.triangles.len();
        let mut ti: usize = 0;
        while ti < num
            invariant
                ti <= num,
                n <= MAX_SIDE,
                nn == n as int,
                nn * nn <= 900_000_000,
                self.side == n,
                self.triangles@ == orig_tris,
                num == orig_tris.len(),
                base.len() == nn * nn,
                self.output@ == render_spec(orig_tris.take(ti as int), base, nn),
                self.output@.len() == nn * nn,
            decreases num - ti,
        {
            let t: Tri2 = self.triangles[ti];
            let ghost pre = self.output@;
            let (tl, br) = t.bounding_box();
            let ni: i32 = n as i32;
            let x0: i32 = if tl.x > 0 {
                tl.x
            } else {
                0
            };
            let x1: i32 = if br.x < ni - 1 {
                br.x
            } else {
                ni - 1
            };
            let y0: i32 = if tl.y > 0 {
                tl.y
            } else {
                0
            };
            let y1: i32 = if br.y < ni - 1 {
                br.y
            } else {
                ni - 1
            };
            if x0 <= x1 && y0 <= y1 {
                let mut yy: i32 = y0;
                while yy <= y1
                    invariant
                        y0 <= yy <= y1 + 1,
                        0 <= x0 <= x1 < ni,
                        0 <= y0 <= y1 < ni,
                        ni == nn,
                        n <= MAX_SIDE,
                        nn == n as int,
                        nn * nn <= 900_000_000,
                        x0 == (if t.spec_min_x() > 0 { t.spec_min_x() } else { 0 }),
                        x1 == (if t.spec_max_x() < nn - 1 { t.spec_max_x() } else { nn - 1 }),
                        y0 == (if t.spec_min_y() > 0 { t.spec_min_y() } else { 0 }),
                        y1 == (if t.spec_max_y() < nn - 1 { t.spec_max_y() } else { nn - 1 }),
                        self.side == n,
                        self.triangles@ == orig_tris,
                        pre.len() == nn * nn,
                        self.output@.len() == nn * nn,
                        forall|i: int|
                            0 <= i < nn * nn ==> #[trigger] self.output@[i] == (if covers(
                                t,
                                i % nn,
                                i / nn,
                                nn,
                            ) && i / nn < yy {
                                t.color
                            } else {
                                pre[i]
                            }),
                    decreases y1 + 1 - yy,
                {
                    let mut xx: i32 = x0;
                    while xx <= x1
                        invariant
                            x0 <= xx <= x1 + 1,
                            y0 <= yy <= y1,
                            0 <= x0 <= x1 < ni,
                            0 <= y0 <= y1 < ni,
                            ni == nn,
                            n <= MAX_SIDE,
                            nn == n as int,
                            nn * nn <= 900_000_000,
                            x0 == (if t.spec_min_x() > 0 { t.spec_min_x() } else { 0 }),
                            x1 == (if t.spec_max_x() < nn - 1 { t.spec_max_x() } else { nn - 1 }),
                            y0 == (if t.spec_min_y() > 0 { t.spec_min_y() } else { 0 }),
                            y1 == (if t.spec_max_y() < nn - 1 { t.spec_max_y() } else { nn - 1 }),
                            self.side == n,
                            self.triangles@ == orig_tris,
                            pre.len() == nn * nn,
                            self.output@.len() == nn * nn,
                            forall|i: int|
                                0 <= i < nn * nn ==> #[trigger] self.output@[i] == (if covers(
                                    t,
                                    i % nn,
                                    i / nn,
                                    nn,
                                ) && (i / nn < yy || (i / nn == yy && i % nn < xx)) {
                                    t.color
                                } else {
                                    pre[i]
                                }),
                        decreases x1 + 1 - xx,
                    {
                        proof {
                            lemma_index_decompose(nn, xx as int, yy as int);
                        }
                        let contained = t.inside(Vec2 { x: xx, y: yy });
                        if contained {
                            let idx: usize = (yy as usize) * n + (xx as usize);
                            self.output[idx] = t.color;
                        }
                        proof {
                            let gidx = (yy as int) * nn + (xx as int);
                            assert forall|i: int| 0 <= i < nn * nn implies #[trigger] self.output@[i]
                                == (if covers(t, i % nn, i / nn, nn) && (i / nn < yy as int || (i
                                / nn == yy as int && i % nn < xx as int + 1)) {
                                t.color
                            } else {
                                pre[i]
                            }) by {
                                lemma_index_compose(nn, i);
                                if i / nn == yy as int && i % nn == xx as int {
                                    assert(i == gidx);
                                    assert((i % nn) as i32 == xx && (i / nn) as i32 == yy);
                                    if contained {
                                        assert(covers(t, i % nn, i / nn, nn));
                                        assert(self.output@[i] == t.color);
                                    } else {
                                        assert(!covers(t, i % nn, i / nn, nn));
                                    }
                                } else {
                                    assert(i != gidx);
                                }
                            }
                        }
                        xx += 1;
                    }
                    yy += 1;
                }
            }
            proof {
                assert forall|i: int| 0 <= i < nn * nn implies self.output@[i] == paint_one(
                    t,
                    pre,
                    nn,
                )[i] by {
                    lemma_index_compose(nn, i);
                }
                assert(self.output@ =~= paint_one(t, pre, nn));
                let s = orig_tris.take(ti as int + 1);
                assert(s.drop_last() =~= orig_tris.take(ti as int));
                assert(s.last() == t);
                assert(render_spec(s, base, nn) == paint_one(
                    t,
                    render_spec(orig_tris.take(ti as int), base, nn),
                    nn,
                ));
            }
            ti += 1;
        }
        proof {
            assert(orig_tris.take(num as int) =~= orig_tris);
        }
    }

    /// Produce the buffer as a flat byte sequence, three bytes per pixel
    /// (R, G, B), row-major, for handoff to a presentation layer.
    pub fn export(&self) -> (r: Vec<u8>)
        ensures
            r@ == export_spec(self.buffer()),
            r@.len() == 3 * self.buffer().len(),
    {
        let len: usize = self.output.len();
        let mut r: Vec<u8> = Vec::new();
        let mut i: usize = 0;
        while i < len
            invariant
                i <= len,
                len == self.output@.len(),
                r@.len() == 3 * i,
                forall|k: int| 0 <= k < 3 * i ==> #[trigger] r@[k] == export_channel(
                    self.output@,
                    k,
                ),
            decreases len - i,
        {
            let p = self.output[i];
            r.push(p.x);
            r.push(p.y);
            r.push(p.z);
            proof {
                lemma_fundamental_div_mod_converse(3 * (i as int), 3, i as int, 0);
                lemma_fundamental_div_mod_converse(3 * (i as int) + 1, 3, i as int, 1);
                lemma_fundamental_div_mod_converse(3 * (i as int) + 2, 3, i as int, 2);
            }
            i += 1;
        }
        proof {
            assert(r@ =~= export_spec(self.output@));
        }
        r
    }
}

impl Default for Scene {
    /// The default Scene is a fresh demo scene.
    fn default() -> (s: Self)
        ensures
            s.wf(),
            s.spec_side() == DEMO_SIDE,
            s.tris().len() == DEMO_TRIANGLE_COUNT,
            forall|i: int| 0 <= i < s.tris().len() ==> demo_tri_bounds(#[trigger] s.tris()[i]),
            forall|i: int| 0 <= i < s.buffer().len() ==> s.buffer()[i] == black(),
    {
        Scene::new()
    }
}

/// The painter's order law: when two triangles both cover a pixel, the one
/// painted later wins, whichever it is.
pub proof fn lemma_render_order_dependent(
    t1: Tri2,
    t2: Tri2,
    buf: Seq<Vec3>,
    n: int,
    x: int,
    y: int,
)
    requires
        0 < n,
        buf.len() == n * n,
        covers(t1, x, y, n),
        covers(t2, x, y, n),
    ensures
        render_spec(seq![t1, t2], buf, n)[y * n + x] == t2.color,
        render_spec(seq![t2, t1], buf, n)[y * n + x] == t1.color,
{
    lemma_index_decompose(n, x, y);
    let idx = y * n + x;
    let e = Seq::<Tri2>::empty();
    let s1 = seq![t1];
    let s2 = seq![t2];
    let s12 = seq![t1, t2];
    let s21 = seq![t2, t1];
    assert(s1.drop_last() =~= e);
    assert(s2.drop_last() =~= e);
    assert(s12.drop_last() =~= s1);
    assert(s21.drop_last() =~= s2);
    assert(s1.last() == t1 && s2.last() == t2 && s12.last() == t2 && s21.last() == t1);
    assert(render_spec(e, buf, n) == buf);
    assert(render_spec(s1, buf, n) == paint_one(t1, buf, n));
    assert(render_spec(s12, buf, n) == paint_one(t2, paint_one(t1, buf, n), n));
    assert(paint_one(t1, buf, n).len() == n * n);
    assert(paint_one(t1, buf, n)[idx] == t1.color);
    assert(render_spec(s12, buf, n)[idx] == t2.color);
    assert(render_spec(s2, buf, n) == paint_one(t2, buf, n));
    assert(render_spec(s21, buf, n) == paint_one(t1, paint_one(t2, buf, n), n));
    assert(render_spec(s21, buf, n)[idx] == t1.color);
}

/// Rendering is reproducible: two scenes with the same side, the same
/// triangle list, and equally black buffers render — and therefore
/// export — identically.
pub proof fn lemma_render_reproducible(s1: Scene, s2: Scene)
    requires
        s1.wf(),
        s2.wf(),
        s1.spec_side() == s2.spec_side(),
        s1.tris() == s2.tris(),
        forall|i: int| 0 <= i < s1.buffer().len() ==> s1.buffer()[i] == black(),
        forall|i: int| 0 <= i < s2.buffer().len() ==> s2.buffer()[i] == black(),
    ensures
        export_spec(render_spec(s1.tris(), s1.buffer(), s1.spec_side())) == export_spec(
            render_spec(s2.tris(), s2.buffer(), s2.spec_side()),
        ),
{
    assert(s1.buffer().len() == s2.buffer().len());
    assert(s1.buffer() =~= s2.buffer());
}

} // verus!
