//! A desktop pet's core: sprite-sheet animations, a behaviour state machine,
//! a fixed-timestep controller and the double-buffer presentation protocol.
use vstd::prelude::*;

pub mod anim;
pub mod digit;
pub mod frame;
pub mod media;
pub mod present;
pub mod sprite;
pub mod states;
pub mod timestep;

pub use frame::Frame;

verus! {

} // verus!
