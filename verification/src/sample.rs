//! Random demo geometry: a pluggable triangle source for demo scenes. The
//! only unverified step is the draw itself; everything built from the drawn
//! values is verified, and holds for every value the generator can return.

use vstd::prelude::*;

use rand::Rng;

use crate::tri2::Tri2;
use crate::vec2::Vec2;
use crate::vec3::Vec3;

verus! {

/// Relies on rand::Rng::random_range over the thread-local generator: the
/// range `0..bound` is not empty, so the call does not panic, and the sample
/// lies within the range for every outcome.
#[verifier::external_body]
fn random_below(bound: u32) -> (r: u32)
    requires
        bound > 0,
    ensures
        r < bound,
{
    rand::rng().random_range(0..bound)
}

/// A point with both coordinates drawn uniformly from `[0, bound)`.
pub fn random_vec2(bound: i32) -> (v: Vec2)
    requires
        bound > 0,
    ensures
        0 <= v.x < bound,
        0 <= v.y < bound,
{
    let x = random_below(bound as u32) as i32;
    let y = random_below(bound as u32) as i32;
    Vec2 { x, y }
}

/// A color with each channel drawn uniformly over its whole byte range.
pub fn random_vec3() -> (c: Vec3) {
    let x = random_below(256) as u8;
    let y = random_below(256) as u8;
    let z = random_below(256) as u8;
    Vec3 { x, y, z }
}

/// A triangle with every vertex coordinate drawn uniformly from
/// `[0, bound)` — the unit square of the demo generator projected into
/// pixel space — and a random color.
pub fn random_tri2(bound: i32) -> (t: Tri2)
    requires
        bound > 0,
    ensures
        forall|j: int|
            0 <= j < 3 ==> 0 <= #[trigger] t.points@[j].x < bound && 0 <= t.points@[j].y < bound,
{
    let a = random_vec2(bound);
    let b = random_vec2(bound);
    let c = random_vec2(bound);
    let t = Tri2 { points: [a, b, c], color: random_vec3() };
    proof {
        assert(t.points@ =~= seq![a, b, c]);
    }
    t
}

} // verus!
