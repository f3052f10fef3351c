//! The process-wide random source, behind a single trusted sampler.

use vstd::prelude::*;

use crate::math::{in_box, is_scaled_unit, norm2, scale_to_length, zero_vec, Vec3, EXTENT_LIMIT, SCALE};

verus! {

/// `r` came from drawing each coordinate uniformly in the unit box —
/// the zero draw, which has no direction, excluded — and rescaling the
/// draw to length `len`.  (Rescaling a box sample leans toward the
/// box's corners rather than being uniform on the sphere; the bias is
/// kept, as the engine's look depends on it.)
pub open spec fn is_sampled_dir(len: int, r: Vec3) -> bool {
    exists|raw: Vec3|
        #[trigger] is_scaled_unit(raw, len, r) && in_box(raw, SCALE as int) && raw != zero_vec()
}

/// Relies on `rand::Rng::gen_range` over an inclusive range on the
/// process-wide `rand::rngs::ThreadRng`: the sample lies within the
/// given bounds, and the call panics only on an empty range.
#[verifier::external_body]
pub(crate) fn sample_in(lo: i64, hi: i64) -> (r: i64)
    requires
        lo <= hi,
    ensures
        lo <= r <= hi,
{
    rand::Rng::gen_range(&mut rand::thread_rng(), lo..=hi)
}

/// Draw a random direction and rescale it to length `len`.  A draw of
/// the zero vector, which has no direction, is replaced by the
/// positive x axis.  The result's squared length never exceeds
/// `len * len` and falls at most a fraction of a percent short of it.
pub(crate) fn random_dir(len: i64) -> (r: Vec3)
    requires
        0 <= len <= EXTENT_LIMIT,
    ensures
        is_sampled_dir(len as int, r),
        in_box(r, len as int),
        norm2(r) <= len * len,
        262_144 * norm2(r) >= 262_143 * (len * len) - 1_572_864 * len,
{
    let mut raw = Vec3 { x: sample_in(-SCALE, SCALE), y: sample_in(-SCALE, SCALE), z: sample_in(-SCALE, SCALE) };
    if raw.x == 0 && raw.y == 0 && raw.z == 0 {
        raw = Vec3 { x: SCALE, y: 0, z: 0 };
    }
    let r = scale_to_length(raw, len);
    proof {
        assert(is_scaled_unit(raw, len as int, r) && in_box(raw, SCALE as int) && raw
            != zero_vec());
    }
    r
}

/// A random direction of unit length.
pub fn random_direction() -> (r: Vec3)
    ensures
        is_sampled_dir(SCALE as int, r),
        in_box(r, SCALE as int),
        norm2(r) <= SCALE * SCALE,
        262_144 * norm2(r) >= 262_143 * (SCALE * SCALE) - 1_572_864 * SCALE,
{
    random_dir(SCALE)
}

} // verus!
