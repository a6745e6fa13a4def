use vstd::prelude::*;

pub mod cli;
pub mod decimal;
pub mod monitor;
pub mod report;

verus! {

} // verus!
