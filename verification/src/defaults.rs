use vstd::prelude::*;

verus! {

use crate::frac::Frac;

/// Default for boolean show flags that start enabled.
pub fn true_value() -> (r: bool)
    ensures
        r == true,
{
    true
}

/// Default warning color token.
pub fn red_value() -> (r: String)
    ensures
        r@ == "red"@,
{
    "red".to_owned()
}

/// Default normal color token.
pub fn green_value() -> (r: String)
    ensures
        r@ == "green"@,
{
    "green".to_owned()
}

/// Default warning threshold: eight tenths.
pub fn threshold_value() -> (r: Frac)
    ensures
        r == (Frac { num: 8, den: 10 }),
        r.wf(),
{
    Frac { num: 8, den: 10 }
}

} // verus!
