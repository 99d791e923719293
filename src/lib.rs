use vstd::prelude::*;

pub mod board;
pub mod game;
pub mod params;
pub mod registry;
pub mod text;

verus! {

} // verus!
