//! Physical quantities with metric prefixes: exact decimal magnitudes, the six
//! scales from `Unit` down to `Femto`, normalization of a quantity to a readable
//! scale, and a lenient parser for text such as `"1.25mF"`.
use vstd::prelude::*;

pub mod calc;
pub mod decimal;
pub mod scale;
pub mod si;

verus! {

} // verus!
