//! What the crow knows of Discord: the shapes that come off the wire, and how they are shown.

use vstd::prelude::*;

pub mod client;
pub mod types;
pub mod wire;

verus! {

} // verus!
