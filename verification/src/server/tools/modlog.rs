//! Reading the moderation ledger.

use vstd::prelude::*;

use crate::clock::{house_text, house_time};
use crate::modlog::{condition_values, conditions, query_sql, ModAction, ModlogFilter};
use crate::numeral::is_digit;
use crate::server::tools::common::{clamped, limit_of};
use crate::server::tools::hands::LEDGER_CLOSED;
use crate::server::KurouServer;
use crate::sql::Statement;
use crate::text::{
    byte_length, clone_opt, lemma_fronts_decide, lemma_precedes_total, opt_text, precedes, utf8_len,
};

verus! {

pub struct CheckLedgerRequest {
    pub target_id: Option<String>,
    pub executor_id: Option<String>,
    pub action: Option<String>,
    pub source: Option<String>,
    pub channel_id: Option<String>,
    pub since: Option<String>,
    pub until: Option<String>,
    pub limit: Option<u8>,
}

pub struct UserHistoryRequest {
    pub user_id: String,
    pub limit: Option<u8>,
}

/// The last moment asked for: a bare date means all of its day.
pub open spec fn whole_day(until: Seq<char>) -> Seq<char> {
    if utf8_len(until) == 10 {
        until + " 23:59:59"@
    } else {
        until
    }
}

fn to_whole_day(until: &str) -> (r: String)
    ensures
        r@ == whole_day(until@),
{
    let mut s = until.to_owned();
    if byte_length(until) == Some(10) {
        s.append(" 23:59:59");
    }
    s
}

/// The filter of a request is its own, but for a bare date at the end.
pub open spec fn filter_of(req: CheckLedgerRequest, f: ModlogFilter) -> bool {
    &&& f.target_id == req.target_id
    &&& f.executor_id == req.executor_id
    &&& f.action == req.action
    &&& f.source == req.source
    &&& f.channel_id == req.channel_id
    &&& f.since == req.since
    &&& opt_text(f.until) == match req.until {
        Some(until) => Some(whole_day(until@)),
        None => None,
    }
}

/// The filter of a request.
pub fn ledger_filter(req: &CheckLedgerRequest) -> (r: ModlogFilter)
    ensures
        filter_of(*req, r),
{
    ModlogFilter {
        target_id: clone_opt(&req.target_id),
        executor_id: clone_opt(&req.executor_id),
        action: clone_opt(&req.action),
        source: clone_opt(&req.source),
        channel_id: clone_opt(&req.channel_id),
        since: clone_opt(&req.since),
        until: match &req.until {
            Some(until) => Some(to_whole_day(until.as_str())),
            None => None,
        },
    }
}

/// A time of day: `HH:MM:SS`.
pub open spec fn is_time_of_day(t: Seq<char>) -> bool {
    &&& t.len() == 8
    &&& t[2] == ':' && t[5] == ':'
    &&& is_digit(t[0]) && is_digit(t[1]) && is_digit(t[3]) && is_digit(t[4]) && is_digit(t[6])
        && is_digit(t[7])
    &&& t[0] < '2' || t[0] == '2' && t[1] <= '3'
    &&& t[3] <= '5'
    &&& t[6] <= '5'
}

proof fn lemma_the_day_ends_last(t: Seq<char>)
    requires
        is_time_of_day(t),
    ensures
        !precedes(" 23:59:59"@, " "@ + t),
{
    reveal_strlit(" 23:59:59");
    reveal_strlit(" ");
    reveal_with_fuel(precedes, 10);
}

/// A bare date at the end of a request covers all of its day and nothing after it: a row is
/// too late exactly where its day is.
pub proof fn lemma_a_bare_date_covers_its_day(
    req: CheckLedgerRequest,
    f: ModlogFilter,
    day: Seq<char>,
    time: Seq<char>,
)
    requires
        filter_of(req, f),
        req.until is Some,
        utf8_len(req.until->0@) == 10,
        day.len() == req.until->0@.len(),
        is_time_of_day(time),
    ensures
        f.until is Some,
        precedes(f.until->0@, day + " "@ + time) <==> precedes(req.until->0@, day),
{
    let last = req.until->0@;
    lemma_fronts_decide(last, day, " 23:59:59"@, " "@ + time);
    assert(day + " "@ + time =~= day + (" "@ + time));
    lemma_the_day_ends_last(time);
    lemma_precedes_total(last, day);
}

impl KurouServer {
    /// Plans to read the ledger: between one and a hundred rows, newest first.
    pub fn check_ledger(&self, req: &CheckLedgerRequest) -> (r: Result<Statement, String>)
        ensures
            if self.modlog_store is None {
                r matches Err(e) && e@ == LEDGER_CLOSED@
            } else {
                r matches Ok(s) && exists|f: ModlogFilter, limit: u8| #[trigger]
                    filter_of(*req, f) && limit == clamped(
                        match req.limit {
                            Some(n) => n as int,
                            None => 25,
                        },
                        1,
                        100,
                    ) && s.is(#[trigger] query_sql(f, limit), condition_values(conditions(f)))
            },
    {
        let filter = ledger_filter(req);
        let limit: u8 = limit_of(req.limit, 25, 100);
        match self.modlog() {
            Ok(store) => {
                let s = store.query(&filter, limit);
                assert(filter_of(*req, filter) && s.is(
                    query_sql(filter, limit),
                    condition_values(conditions(filter)),
                ));
                Ok(s)
            },
            Err(e) => Err(e),
        }
    }

    /// Plans to read what happened to one account: between one and a hundred rows, newest
    /// first.
    pub fn user_history(&self, req: &UserHistoryRequest) -> (r: Result<Statement, String>)
        ensures
            if self.modlog_store is None {
                r matches Err(e) && e@ == LEDGER_CLOSED@
            } else {
                r matches Ok(s) && exists|f: ModlogFilter, limit: u8|
                    f.target_id == Some(req.user_id) && f.executor_id is None && f.action is None
                        && f.source is None && f.channel_id is None && f.since is None
                        && f.until is None && limit == clamped(
                        match req.limit {
                            Some(n) => n as int,
                            None => 50,
                        },
                        1,
                        100,
                    ) && s.is(#[trigger] query_sql(f, limit), condition_values(conditions(f)))
            },
    {
        let blank = ModlogFilter::default();
        let filter = ModlogFilter { target_id: Some(req.user_id.clone()), ..blank };
        let limit: u8 = limit_of(req.limit, 50, 100);
        match self.modlog() {
            Ok(store) => {
                let s = store.query(&filter, limit);
                assert(s.is(query_sql(filter, limit), condition_values(conditions(filter))));
                Ok(s)
            },
            Err(e) => Err(e),
        }
    }
}

/// A row with its moments on the house clock.
pub open spec fn on_house_clock(before: ModAction, after: ModAction) -> bool {
    &&& after.created_at@ == house_text(before.created_at@)
    &&& opt_text(after.expires_at) == match before.expires_at {
        Some(text) => Some(house_text(text@)),
        None => None,
    }
    &&& (ModAction { created_at: before.created_at, expires_at: before.expires_at, ..after }) == before
}

/// Puts the moments of rows on the house clock.
pub fn render_times(actions: Vec<ModAction>) -> (r: Vec<ModAction>)
    ensures
        r@.len() == actions@.len(),
        forall|i: int| 0 <= i < r@.len() ==> on_house_clock(actions@[i], #[trigger] r@[i]),
{
    let ghost all = actions@;
    let mut rest = actions;
    let mut r: Vec<ModAction> = Vec::new();
    assert(all.skip(0) =~= all);
    while rest.len() > 0
        invariant
            r@.len() <= all.len(),
            rest@ == all.skip(r@.len() as int),
            forall|i: int| 0 <= i < r@.len() ==> on_house_clock(all[i], #[trigger] r@[i]),
        decreases rest@.len(),
    {
        let action = rest.remove(0);
        let ghost n = r@.len() as int;
        assert(action == all[n]);
        let created_at = house_time(action.created_at.as_str());
        let expires_at = match &action.expires_at {
            Some(text) => Some(house_time(text.as_str())),
            None => None,
        };
        r.push(ModAction { created_at, expires_at, ..action });
        assert(rest@ =~= all.skip(n + 1));
    }
    r
}

} // verus!
