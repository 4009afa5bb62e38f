pub mod glyph;
pub mod laws;
pub mod parser;
pub mod session;
pub mod term;

use vstd::prelude::*;

verus! {

/// Clamp of `x` into the inclusive range `[a, b]`, as a mathematical function.
pub open spec fn clamped(x: int, a: int, b: int) -> int {
    if x < a {
        a
    } else if x > b {
        b
    } else {
        x
    }
}

/// Clamp `x` into the inclusive range `[a, b]`.
pub fn limit(x: isize, a: isize, b: isize) -> (r: isize)
    ensures
        r as int == clamped(x as int, a as int, b as int),
{
    if x < a {
        a
    } else if x > b {
        b
    } else {
        x
    }
}

} // verus!
