//! Visual styles and the lifetime colour ramp.  A style never affects
//! the simulation; it only decides what colour the renderer is handed.

use vstd::prelude::*;

use crate::math::{div_trunc, lemma_tdiv, lemma_tdiv_mag, tdiv, SCALE};

verus! {

/// An RGBA colour, each channel a fixed-point fraction in `[0, SCALE]`.
#[derive(Clone, Copy, PartialEq, Eq, Structural, Debug)]
pub struct Color {
    pub r: i64,
    pub g: i64,
    pub b: i64,
    pub a: i64,
}

pub open spec fn color_wf(c: Color) -> bool {
    &&& 0 <= c.r <= SCALE
    &&& 0 <= c.g <= SCALE
    &&& 0 <= c.b <= SCALE
    &&& 0 <= c.a <= SCALE
}

/// How a population is drawn.
#[derive(Clone, Copy, PartialEq, Eq, Structural, Debug)]
pub enum ParticleStyle {
    /// A texture handle (meaningful only to the renderer), tinted by a
    /// colour.
    Texture { texture: usize, color: Color },
    /// One solid colour, drawn the same at every energy.
    Color(Color),
    /// A gradient from a start to an end colour over the lifetime.
    ColorGradient(Color, Color),
}

pub open spec fn style_wf(s: ParticleStyle) -> bool {
    match s {
        ParticleStyle::Texture { texture, color } => color_wf(color),
        ParticleStyle::Color(c) => color_wf(c),
        ParticleStyle::ColorGradient(c0, c1) => color_wf(c0) && color_wf(c1),
    }
}

pub open spec fn clamped(x: int, lo: int, hi: int) -> int {
    if x < lo {
        lo
    } else if x > hi {
        hi
    } else {
        x
    }
}

/// Linear interpolation from `s` to `e` by the fraction `t / SCALE`.
pub open spec fn lerp(s: int, e: int, t: int) -> int {
    s + tdiv((e - s) * t, SCALE as int)
}

/// The gradient parameter: how much of a particle's life is burned,
/// clamped to `[0, SCALE]`.
pub open spec fn ramp(energy: int) -> int {
    clamped(SCALE - energy, 0, SCALE as int)
}

pub open spec fn lerp_color(s: Color, e: Color, t: int) -> Color {
    Color {
        r: lerp(s.r as int, e.r as int, t) as i64,
        g: lerp(s.g as int, e.g as int, t) as i64,
        b: lerp(s.b as int, e.b as int, t) as i64,
        a: lerp(s.a as int, e.a as int, t) as i64,
    }
}

/// The colour a particle with the given energy is drawn with: the
/// texture tint or solid colour as it stands, or the gradient
/// evaluated at how much of the life is burned.
pub open spec fn display_color_spec(s: ParticleStyle, energy: int) -> Color {
    match s {
        ParticleStyle::Texture { texture, color } => color,
        ParticleStyle::Color(c) => c,
        ParticleStyle::ColorGradient(c0, c1) => lerp_color(c0, c1, ramp(energy)),
    }
}

/// One interpolated channel, kept within `[0, SCALE]`.
fn lerp_channel(s: i64, e: i64, t: i64) -> (r: i64)
    requires
        0 <= s <= SCALE,
        0 <= e <= SCALE,
        0 <= t <= SCALE,
    ensures
        r == lerp(s as int, e as int, t as int),
        0 <= r <= SCALE,
{
    proof {
        lemma_tdiv((e - s) * t, SCALE as int);
        if e >= s {
            assert(0 <= (e - s) * t <= (e - s) * SCALE) by (nonlinear_arith)
                requires
                    0 <= e - s,
                    0 <= t <= SCALE,
            ;
            lemma_tdiv_mag((e - s) * t, SCALE as int, (e - s) as int);
        } else {
            assert((s - e) * -SCALE <= (e - s) * t <= 0) by (nonlinear_arith)
                requires
                    0 < s - e,
                    0 <= t <= SCALE,
            ;
            lemma_tdiv_mag((e - s) * t, SCALE as int, (s - e) as int);
        }
    }
    let d = div_trunc((e - s) * t, SCALE);
    s + d
}

/// The clamped gradient parameter for a particle's energy.
fn life_ramp(energy: i64) -> (t: i64)
    requires
        0 <= energy,
    ensures
        t == ramp(energy as int),
        0 <= t <= SCALE,
{
    if energy >= SCALE {
        0
    } else {
        SCALE - energy
    }
}

fn lerp_color_channels(s: Color, e: Color, t: i64) -> (c: Color)
    requires
        color_wf(s),
        color_wf(e),
        0 <= t <= SCALE,
    ensures
        c == lerp_color(s, e, t as int),
        color_wf(c),
{
    Color {
        r: lerp_channel(s.r, e.r, t),
        g: lerp_channel(s.g, e.g, t),
        b: lerp_channel(s.b, e.b, t),
        a: lerp_channel(s.a, e.a, t),
    }
}

impl ParticleStyle {
    /// The colour the renderer should draw a particle with, given its
    /// remaining energy: the texture tint or solid colour unchanged,
    /// or the gradient evaluated at how much of the life is burned.
    pub fn display_color(&self, energy: i64) -> (c: Color)
        requires
            style_wf(*self),
            0 <= energy,
        ensures
            c == display_color_spec(*self, energy as int),
            color_wf(c),
    {
        match *self {
            ParticleStyle::Texture { texture, color } => color,
            ParticleStyle::Color(c) => c,
            ParticleStyle::ColorGradient(c0, c1) => {
                let t = life_ramp(energy);
                lerp_color_channels(c0, c1, t)
            },
        }
    }
}

} // verus!
