//! The functions behind the Python module. They work on plain values; the
//! module itself only hands arguments in and results out.

use crate::decimal::{decimal, decimal_string};
use vstd::prelude::*;

verus! {

/// The sum of `a` and `b` in decimal notation. The sum has to fit in a
/// `usize`.
pub fn sum_as_string(a: usize, b: usize) -> (text: String)
    requires
        a + b <= usize::MAX,
    ensures
        text@ == decimal((a + b) as nat),
{
    decimal_string(a + b)
}

} // verus!
