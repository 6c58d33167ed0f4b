use vstd::prelude::*;

use crate::expression::Expression;
use crate::expression::depth_of;

verus! {

/// Channel inputs are fixed-point: one unit is `1 / CHANNEL_SCALE` of the
/// evaluator's nominal range, so `CHANNEL_SCALE` stands for the value `1`
/// and `-CHANNEL_SCALE` for `-1`.
pub const CHANNEL_SCALE: i64 = 65536;

/// A value clamped to the nominal evaluation range `[-1, 1]`, in fixed-point
/// units.
pub open spec fn clamp_scaled(v: int) -> int {
    if v < -(CHANNEL_SCALE as int) {
        -(CHANNEL_SCALE as int)
    } else if v > CHANNEL_SCALE as int {
        CHANNEL_SCALE as int
    } else {
        v
    }
}

/// The pixel generator's rescaling policy:
/// `channel = round(clamp((value + 1) / 2, 0, 1) * 255)`, with halves rounded
/// up, over a value given in fixed-point units of `1 / CHANNEL_SCALE`.
pub open spec fn channel_of(v: int) -> int {
    ((clamp_scaled(v) + CHANNEL_SCALE) * 255 + CHANNEL_SCALE) / (2 * CHANNEL_SCALE as int)
}

/// Maps one evaluation result, in fixed-point units of `1 / CHANNEL_SCALE`,
/// to a color channel byte. The value is clamped to the nominal range before
/// rescaling, so a result outside `[-1, 1]` lands on a boundary byte instead
/// of wrapping around.
pub fn channel_byte(value: i64) -> (r: u8)
    ensures
        r as int == channel_of(value as int),
{
    let shifted: u64 = if value < -65536 {
        0
    } else if value > 65536 {
        131072
    } else {
        (value + 65536) as u64
    };
    ((shifted * 255 + 65536) / 131072) as u8
}

/// Per-pixel intensity source of a grayscale image: one expression tree.
pub struct GrayscaleGenerator {
    pub intensity: Expression,
}

impl GrayscaleGenerator {
    /// Builds the intensity tree from the thread-local random source.
    pub fn new(depth: usize) -> (g: Self)
        ensures
            depth_of(g.intensity) <= depth,
            depth == 0 ==> g.intensity is Terminal,
    {
        GrayscaleGenerator { intensity: Expression::new(depth) }
    }
}

/// Per-pixel color source of an RGB image: three independently constructed
/// expression trees, one per channel.
pub struct RgbGenerator {
    pub r: Expression,
    pub g: Expression,
    pub b: Expression,
}

impl RgbGenerator {
    /// Builds the three channel trees, each independently, from the
    /// thread-local random source.
    pub fn new(depth: usize) -> (rgb: Self)
        ensures
            depth_of(rgb.r) <= depth,
            depth_of(rgb.g) <= depth,
            depth_of(rgb.b) <= depth,
            depth == 0 ==> rgb.r is Terminal && rgb.g is Terminal && rgb.b is Terminal,
    {
        RgbGenerator {
            r: Expression::new(depth),
            g: Expression::new(depth),
            b: Expression::new(depth),
        }
    }
}

} // verus!
