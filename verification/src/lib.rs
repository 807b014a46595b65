//! A software 3D renderer and rigid-body flight-physics core for an arcade
//! space-flight simulation.
//!
//! The crate owns two things: a from-scratch rasterizer (depth-tested pixels,
//! incremental lines, scanline-filled triangles with a one-pass outline,
//! rectangles, glyph blits, and a three-tier level-of-detail policy) drawing
//! into a fixed-resolution frame buffer, and a six-degree-of-freedom ship
//! integrator (thrust channels, brake auto-counter-thrust, boost decay, and a
//! jump charge/launch state machine) advanced once per frame.
//!
//! All real-valued quantities are carried as [`fixed::Fx`], a signed 64-bit
//! fixed-point number with 16 fractional bits. The numeric model is therefore
//! deterministic and every operation has an exact contract; this is the
//! deliberate precision choice for the configured world scale.

use vstd::prelude::*;

pub mod fixed;
pub mod game;
pub mod graphics;
pub mod math;
pub mod meshes;
pub mod transform;
pub mod trig;

verus! {

use vstd::string::StringExecFns;

/// Frame buffer width in pixels.
pub const WIDTH: usize = 320;

/// Frame buffer height in pixels.
pub const HEIGHT: usize = 240;

/// Format an error report for a failed call: the first line names the
/// method and its error, and each further cause follows on an indented
/// line of its own.
pub fn log_error(method_name: &str, errors: &Vec<String>) -> (lines: Vec<String>)
    ensures
        lines@.len() == errors@.len(),
        errors@.len() > 0 ==> lines@[0]@ == method_name@ + "() failed: "@ + errors@[0]@,
        forall|i: int| 1 <= i < errors@.len() ==> lines@[i]@ == "  Caused by: "@ + errors@[i]@,
{
    let mut lines: Vec<String> = Vec::new();
    let mut i: usize = 0;
    while i < errors.len()
        invariant
            i <= errors@.len(),
            lines@.len() == i,
            i > 0 && errors@.len() > 0 ==> lines@[0]@ == method_name@ + "() failed: "@
                + errors@[0]@,
            forall|j: int| 1 <= j < i ==> lines@[j]@ == "  Caused by: "@ + errors@[j]@,
        decreases errors@.len() - i,
    {
        if i == 0 {
            let mut s = <String as StringExecFns>::from_str(method_name);
            s.append("() failed: ");
            s.append(errors[i].as_str());
            lines.push(s);
        } else {
            let mut s = <String as StringExecFns>::from_str("  Caused by: ");
            s.append(errors[i].as_str());
            lines.push(s);
        }
        i = i + 1;
    }
    lines
}

} // verus!
