use vstd::prelude::*;

pub mod config;
pub mod context;
pub mod modules;
pub mod prompt;

verus! {

} // verus!
