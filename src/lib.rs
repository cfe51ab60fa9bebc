use vstd::prelude::*;

pub mod executor;
pub mod generator;
pub mod json;
pub mod laws;
pub mod materialize;
pub mod model;
pub mod path;
pub mod recovery;
pub mod text;

verus! {

} // verus!
