//! Chance: the one place where the library asks for random numbers.

use vstd::prelude::*;
use crate::color::Color;

verus! {

/// Draws a number with `rand::random::<u32>()`, which takes it from the
/// thread's generator. Nothing is claimed of the number: every `u32` may
/// come back, and two draws need not agree. The call takes no argument; it
/// fails only where the system cannot seed the generator.
#[verifier::external_body]
pub(crate) fn random_draw() -> (draw: u32) {
    rand::random::<u32>()
}

/// A color left to chance: the low 24 bits of one draw.
pub fn random_color() -> (color: Color) {
    Color::from_word(random_draw())
}

} // verus!
