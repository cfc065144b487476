use vstd::prelude::*;

pub mod epoch;
pub mod position;
pub mod solver;

verus! {

} // verus!
