use vstd::prelude::*;

pub mod chunk;
pub mod copying;
pub mod coords;
pub mod level;
pub mod lifecycle;
pub mod raycast;
pub mod textures;

verus! {

} // verus!
