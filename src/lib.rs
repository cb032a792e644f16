use vstd::prelude::*;

pub mod coord;
pub mod mercator;
pub mod rect;

verus! {

} // verus!
