//! Finding an account by its name.

use vstd::prelude::*;

use crate::discord::types::{member_name, UserLookupInfo};
use crate::discord::wire::Member;
use crate::server::tools::common::clamped;
use crate::text::{decimal, is_blank, trim, trimmed};

verus! {

pub struct GetUserIdByNameRequest {
    pub guild_id: Option<String>,
    pub name: String,
    pub limit: Option<u64>,
}

/// What to search for, and how many to return.
pub struct NameQuery {
    pub query: String,
    pub limit: u64,
}

pub const NO_NAME: &'static str = "name cannot be empty";

/// Plans a search: the name without the white space around it, between one and a hundred.
pub fn get_user_id_by_name(req: &GetUserIdByNameRequest) -> (r: Result<NameQuery, String>)
    ensures
        if is_blank(req.name@) {
            r matches Err(e) && e@ == NO_NAME@
        } else {
            r matches Ok(q) && q.query@ == trimmed(req.name@) && q.limit == clamped(
                match req.limit {
                    Some(n) => n as int,
                    None => 10,
                },
                1,
                100,
            )
        },
{
    let query = trim(req.name.as_str());
    if query.as_str().is_empty() {
        return Err(NO_NAME.to_owned());
    }
    let asked: u64 = match req.limit {
        Some(n) => n,
        None => 10,
    };
    let limit: u64 = if asked < 1 {
        1
    } else if asked > 100 {
        100
    } else {
        asked
    };
    Ok(NameQuery { query, limit })
}

/// An account's card, as far as it is read off the member.
pub open spec fn card_of(m: Member, r: UserLookupInfo) -> bool {
    &&& r.id@ == decimal(m.user.id as nat)
    &&& r.mention@ == "<@"@ + decimal(m.user.id as nat) + ">"@
    &&& r.username == m.user.name
    &&& r.nickname == m.nick
    &&& r.display_name@ == member_name(m)
}

/// The cards of those who were found, in order.
pub fn user_cards(members: Vec<Member>) -> (r: Vec<UserLookupInfo>)
    ensures
        r@.len() == members@.len(),
        forall|i: int| 0 <= i < r@.len() ==> card_of(members@[i], #[trigger] r@[i]),
{
    let ghost all = members@;
    let mut rest = members;
    let mut r: Vec<UserLookupInfo> = Vec::new();
    assert(all.skip(0) =~= all);
    while rest.len() > 0
        invariant
            r@.len() <= all.len(),
            rest@ == all.skip(r@.len() as int),
            forall|i: int| 0 <= i < r@.len() ==> card_of(all[i], #[trigger] r@[i]),
        decreases rest@.len(),
    {
        let member = rest.remove(0);
        let ghost n = r@.len() as int;
        assert(member == all[n]);
        r.push(UserLookupInfo::from(member));
        assert(rest@ =~= all.skip(n + 1));
    }
    r
}

} // verus!
