//! The mention inbox is one reader's own mail.

use vstd::prelude::*;

use crate::mentions::{list_sql, marks_each, MARK_ALL};
use crate::server::tools::common::{caller_identity, clamped, identity_of, limit_of, Caller, NOBODY};
use crate::server::{KurouServer, PRIMARY_IDENTITY};
use crate::sql::{Bound, Statement};
use crate::text::same;

verus! {

pub struct CheckMentionsRequest {
    pub include_seen: Option<bool>,
    pub limit: Option<u8>,
}

pub struct MarkMentionsSeenRequest {
    pub ids: Option<Vec<i64>>,
}

pub struct MarkMentionsSeenResponse {
    pub marked: usize,
}

pub const INBOX_CLOSED: &'static str = "mention inbox is disabled; set GATEWAY_MODE=mentions";

pub open spec fn no_letters_text(identity: Seq<char>) -> Seq<char> {
    "the mention inbox is koma's own mail (pings of her bot); '"@ + identity
        + "' has no letters here"@
}

/// Why a caller may not open the inbox, if they may not.
pub open spec fn inbox_fault(caller: Caller) -> Option<Seq<char>> {
    match identity_of(caller) {
        None => Some(NOBODY@),
        Some(identity) => if identity == PRIMARY_IDENTITY@ {
            None
        } else {
            Some(no_letters_text(identity))
        },
    }
}

/// Lets only the inbox's own reader at it.
pub fn guard_koma_only(caller: &Caller) -> (r: Result<(), String>)
    ensures
        match inbox_fault(*caller) {
            Some(text) => r matches Err(e) && e@ == text,
            None => r == Ok::<(), String>(()),
        },
{
    let identity = match caller_identity(caller) {
        Ok(identity) => identity,
        Err(e) => {
            return Err(e);
        },
    };
    if same(identity.as_str(), PRIMARY_IDENTITY) {
        return Ok(());
    }
    let mut s = "the mention inbox is koma's own mail (pings of her bot); '".to_owned();
    s.append(identity.as_str());
    s.append("' has no letters here");
    Err(s)
}

impl KurouServer {
    /// Plans to read the inbox: its own reader only, the unseen unless told otherwise, between
    /// one and a hundred.
    pub fn check_mentions(&self, caller: &Caller, req: &CheckMentionsRequest) -> (r: Result<
        Statement,
        String,
    >)
        ensures
            match inbox_fault(*caller) {
                Some(text) => r matches Err(e) && e@ == text,
                None => if self.mention_store is None {
                    r matches Err(e) && e@ == INBOX_CLOSED@
                } else {
                    r matches Ok(s) && s.is(
                        list_sql(req.include_seen == Some(true)),
                        seq![
                            Bound::Integer(
                                clamped(
                                    match req.limit {
                                        Some(n) => n as int,
                                        None => 20,
                                    },
                                    1,
                                    100,
                                ),
                            ),
                        ],
                    )
                },
            },
    {
        match guard_koma_only(caller) {
            Ok(_) => {},
            Err(e) => {
                return Err(e);
            },
        }
        let include_seen = match req.include_seen {
            Some(b) => b,
            None => false,
        };
        match &self.mention_store {
            Some(store) => Ok(store.list(include_seen, limit_of(req.limit, 20, 100))),
            None => Err(INBOX_CLOSED.to_owned()),
        }
    }

    /// Plans to mark mentions as seen: its own reader only, those named or all of them.
    pub fn mark_mentions_seen(&self, caller: &Caller, req: &MarkMentionsSeenRequest) -> (r: Result<
        Vec<Statement>,
        String,
    >)
        ensures
            match inbox_fault(*caller) {
                Some(text) => r matches Err(e) && e@ == text,
                None => if self.mention_store is None {
                    r matches Err(e) && e@ == INBOX_CLOSED@
                } else {
                    r matches Ok(s) && match req.ids {
                        Some(ids) => marks_each(ids@, s@),
                        None => s@.len() == 1 && s@[0].is(MARK_ALL@, seq![]),
                    }
                },
            },
    {
        match guard_koma_only(caller) {
            Ok(_) => {},
            Err(e) => {
                return Err(e);
            },
        }
        match &self.mention_store {
            Some(store) => Ok(store.mark_seen(&req.ids)),
            None => Err(INBOX_CLOSED.to_owned()),
        }
    }
}

/// Nobody but its own reader opens the inbox.
pub proof fn lemma_the_inbox_has_one_reader(caller: Caller)
    ensures
        inbox_fault(caller) is None <==> identity_of(caller) == Some(PRIMARY_IDENTITY@),
{
}

} // verus!
