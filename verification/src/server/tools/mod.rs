//! What each tool decides, before and after it speaks to Discord.

use vstd::prelude::*;

pub mod archive;
pub mod channels;
pub mod common;
pub mod hands;
pub mod info;
pub mod mentions;
pub mod messages;
pub mod modlog;
pub mod presence;
pub mod raid;
pub mod reaction;
pub mod removal;
pub mod scan;
pub mod scan_meaning;
pub mod send;
pub mod sweep_meaning;
pub mod typing;
pub mod users;

verus! {

} // verus!
