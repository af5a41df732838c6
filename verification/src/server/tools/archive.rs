//! Searching the archive by words.

use vstd::prelude::*;

use crate::archive::{fts_tokens, search_sql};
use crate::server::tools::common::{clamped, limit_of};
use crate::server::KurouServer;
use crate::sql::{bound, Bound, Statement};
use crate::text::{joined, words};

verus! {

pub struct SearchMessagesRequest {
    pub query: String,
    pub limit: Option<u8>,
}

pub const ARCHIVE_DISABLED: &'static str = "message archive is disabled; set ARCHIVE=true";

/// What a search binds: its words, and how many messages to return.
pub open spec fn search_params(req: SearchMessagesRequest) -> Seq<Bound> {
    seq![
        Bound::Text(joined(fts_tokens(req.query@), " "@)),
        Bound::Integer(
            clamped(
                match req.limit {
                    Some(n) => n as int,
                    None => 20,
                },
                1,
                100,
            ),
        ),
    ]
}

impl KurouServer {
    /// Plans a search of the archive: between one and a hundred messages, newest first.
    pub fn search_messages(&self, req: &SearchMessagesRequest) -> (r: Result<Statement, String>)
        ensures
            if self.message_store is None {
                r matches Err(e) && e@ == ARCHIVE_DISABLED@
            } else if words(req.query@).len() == 0 {
                r matches Err(e) && e@ == "search query is empty"@
            } else {
                r matches Ok(s) && s.is(search_sql(), search_params(*req))
            },
    {
        let limit: u8 = limit_of(req.limit, 20, 100);
        match &self.message_store {
            None => Err(ARCHIVE_DISABLED.to_owned()),
            Some(store) => match store.search(req.query.as_str(), limit) {
                Ok(s) => {
                    assert(bound(s.params@) =~= search_params(*req));
                    Ok(s)
                },
                Err(e) => Err(e.message()),
            },
        }
    }
}

} // verus!
