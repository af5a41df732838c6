use vstd::prelude::*;

pub mod archive;
pub mod archive_meaning;
pub mod assoc;
pub mod auth;
pub mod clock;
pub mod config;
pub mod discord;
pub mod gateway;
pub mod json;
pub mod laws;
pub mod layout;
pub mod ledger;
pub mod ledger_meaning;
pub mod mentions;
pub mod modlog;
pub mod numeral;
pub mod oauth;
pub mod scheduler;
pub mod server;
pub mod sql;
pub mod sql_meaning;
pub mod text;
pub mod uploads;
pub mod wake;
pub mod wall;

verus! {

} // verus!
