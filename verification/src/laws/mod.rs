//! What the operations are for, said of their inputs and results alone.

use vstd::prelude::*;

pub mod acts;
pub mod archive;
pub mod boot;
pub mod door;
pub mod gateway;
pub mod hands;
pub mod house;
pub mod inbox;
pub mod ledger;
pub mod lists;
pub mod looks;
pub mod order;
pub mod reads;
pub mod removal;
pub mod rendering;
pub mod replies;
pub mod scan;
pub mod sending;
pub mod texts;
pub mod uploads;
pub mod wake;
pub mod wall;
pub mod wire;
pub mod words;

verus! {

} // verus!
