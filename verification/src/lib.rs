use vstd::prelude::*;

pub mod grid;
pub mod world;
pub mod item;
pub mod iso;
pub mod survival;
pub mod state;
pub mod player;

verus! {

} // verus!
