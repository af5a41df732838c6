//! Decisions made between one call to Discord and the next.

use vstd::prelude::*;

verus! {

/// A file to send along: fetched from an address, or carried here.
pub enum AttachmentSource {
    Url(String),
    Bytes { filename: String, data: Vec<u8> },
}

/// How many bans a page holds.
pub const BANS_PAGE: usize = 100;

/// Reading a guild's bans page by page: after whom the next page starts, and whether there is
/// one.
pub struct BanPager {
    pub after: Option<u64>,
    pub done: bool,
}

impl BanPager {
    /// Before the first page.
    pub fn new() -> (r: Self)
        ensures
            r.after is None,
            !r.done,
    {
        BanPager { after: None, done: false }
    }

    /// Takes one page in, by the accounts on it: a page that is not full is the last.
    pub fn take_page(&mut self, users: &Vec<u64>)
        ensures
            final(self).done == (users@.len() != BANS_PAGE),
            final(self).after == if users@.len() > 0 {
                Some(users@.last())
            } else {
                None
            },
    {
        self.done = users.len() != BANS_PAGE;
        self.after = if users.len() > 0 {
            Some(users[users.len() - 1])
        } else {
            None
        };
    }
}

} // verus!
