//! What the client promises across its parts, each promise stated over what goes in and what
//! comes out.

use vstd::prelude::*;

pub mod adding;
pub mod calls;
pub mod commands;
pub mod compose;
pub mod hits;
pub mod model;
pub mod mouse;
pub mod overlays;
pub mod payload;
pub mod platform;
pub mod preparation;
pub mod session;
pub mod summaries;
pub mod targets;
pub mod upkeep;

verus! {

} // verus!
