//! The timer that ends temporary bans: it undoes a decision already made, and decides
//! nothing.

use vstd::prelude::*;

use crate::clock::{read_timestamp, timestamp_seconds};
use crate::modlog::{ModAction, NewModAction};
use crate::numeral::{parse_u64, parsed_u64};
use crate::text::{opt_text, signed_decimal, signed_number};

verus! {

/// How often the timer looks, in seconds.
pub const TICK_SECS: u64 = 60;

/// A row whose end is a moment that has come.
pub open spec fn is_due(row: ModAction, now: int) -> bool {
    match row.expires_at {
        Some(text) => match timestamp_seconds(text@) {
            Some(expiry) => expiry <= now,
            None => false,
        },
        None => false,
    }
}

/// Whether an end has come, where it is a moment at all.
pub fn is_ripe(expiry: Option<i64>, now: i64) -> (r: bool)
    ensures
        r == match expiry {
            Some(expiry) => expiry <= now,
            None => false,
        },
{
    match expiry {
        Some(expiry) => expiry <= now,
        None => false,
    }
}

fn row_is_due(row: &ModAction, now: i64) -> (r: bool)
    ensures
        r == is_due(*row, now as int),
{
    match &row.expires_at {
        Some(text) => is_ripe(read_timestamp(text.as_str()), now),
        None => false,
    }
}

/// The rows whose end has come, in the order given. One whose end is no moment never comes.
pub fn due_expiries(pending: Vec<ModAction>, now: i64) -> (r: Vec<ModAction>)
    ensures
        r@ == pending@.filter(|row: ModAction| is_due(row, now as int)),
{
    let ghost all = pending@;
    let ghost due = |row: ModAction| is_due(row, now as int);
    let mut rest = pending;
    let mut r: Vec<ModAction> = Vec::new();
    assert(r@ + all.filter(due) =~= all.filter(due));
    while rest.len() > 0
        invariant
            due == (|row: ModAction| is_due(row, now as int)),
            r@ + rest@.filter(due) == all.filter(due),
        decreases rest@.len(),
    {
        let ghost before = rest@;
        let ghost kept = r@;
        let row = rest.remove(0);
        let ghost first = row;
        proof {
            assert(rest@ =~= before.drop_first());
            assert(before =~= seq![first] + rest@);
            lemma_filter_front(before, due);
        }
        if row_is_due(&row, now) {
            r.push(row);
            assert(r@ + rest@.filter(due) =~= kept + before.filter(due));
        }
    }
    proof {
        assert(rest@ =~= seq![]);
        reveal(Seq::filter);
        assert(rest@.filter(due) =~= seq![]);
        assert(r@ =~= all.filter(due));
    }
    r
}

proof fn lemma_filter_front(s: Seq<ModAction>, p: spec_fn(ModAction) -> bool)
    requires
        s.len() > 0,
    ensures
        s.filter(p) == (if p(s[0]) {
            seq![s[0]]
        } else {
            seq![]
        }) + s.drop_first().filter(p),
    decreases s.len(),
{
    reveal(Seq::filter);
    let t = s.drop_first();
    if s.len() == 1 {
        assert(s.drop_last() =~= seq![]);
        assert(s.drop_last().filter(p) =~= seq![]);
        assert(t.filter(p) =~= seq![]);
        assert(s.filter(p) =~= (if p(s[0]) {
            seq![s[0]]
        } else {
            seq![]
        }) + t.filter(p));
    } else {
        lemma_filter_front(s.drop_last(), p);
        assert(s.drop_last().drop_first() =~= t.drop_last());
        assert(s.filter(p) =~= (if p(s[0]) {
            seq![s[0]]
        } else {
            seq![]
        }) + t.filter(p));
    }
}

/// Why a row cannot be undone by the timer.
#[derive(Clone, Copy, Debug, PartialEq, Eq, Structural)]
pub enum ExpiryError {
    MalformedGuild,
    NoTarget,
}

impl ExpiryError {
    /// The error in words.
    pub fn message(&self) -> (r: &'static str)
        ensures
            r@ == match *self {
                ExpiryError::MalformedGuild => "ledger row has a malformed guild id"@,
                ExpiryError::NoTarget => "ledger row has no usable target id"@,
            },
    {
        match self {
            ExpiryError::MalformedGuild => "ledger row has a malformed guild id",
            ExpiryError::NoTarget => "ledger row has no usable target id",
        }
    }
}

/// What ending a ban takes: whom to unban where, why, and the row that says so.
pub struct Expiry {
    pub guild: u64,
    pub target: u64,
    pub reason: String,
    pub reversal: NewModAction,
}

pub open spec fn target_number(row: ModAction) -> Option<u64> {
    match row.target_id {
        Some(raw) => parsed_u64(raw@),
        None => None,
    }
}

pub open spec fn expiry_reason(id: i64) -> Seq<char> {
    "tempban expired (ledger row "@ + signed_decimal(id as int) + ")"@
}

pub open spec fn expiry_intent(id: i64) -> Seq<char> {
    "scheduler: tempban from ledger row "@ + signed_decimal(id as int) + " expired"@
}

/// The row that ends a ban: the crow's own doing, of the same guild, with the reason the
/// timer has. Whom it is about is taken over from the row it undoes.
pub open spec fn is_reversal_of(r: NewModAction, row: ModAction) -> bool {
    &&& r.action@ == "unban"@
    &&& r.guild_id == row.guild_id
    &&& r.executor_name matches Some(name) && name@ == "kurou"@
    &&& opt_text(r.intent) == Some(expiry_intent(row.id))
    &&& r.target_id is None
    &&& r.target_name is None
    &&& r.channel_id is None
    &&& r.executor_id is None
    &&& r.reason is None
    &&& r.metadata is None
    &&& r.expires_at is None
}

/// Plans the end of a ban.
pub fn expire(row: &ModAction) -> (r: Result<Expiry, ExpiryError>)
    requires
        parsed_u64(row.guild_id@) != Some(0u64),
        parsed_u64(row.guild_id@) is Some ==> target_number(*row) != Some(0u64),
    ensures
        match (parsed_u64(row.guild_id@), target_number(*row)) {
            (None, _) => r == Err::<Expiry, ExpiryError>(ExpiryError::MalformedGuild),
            (Some(_), None) => r == Err::<Expiry, ExpiryError>(ExpiryError::NoTarget),
            (Some(guild), Some(target)) => r matches Ok(plan) && plan.guild == guild && plan.target
                == target && plan.reason@ == expiry_reason(row.id) && is_reversal_of(
                plan.reversal,
                *row,
            ),
        },
{
    let guild = match parse_u64(row.guild_id.as_str()) {
        Some(guild) => guild,
        None => {
            return Err(ExpiryError::MalformedGuild);
        },
    };
    let parsed = match &row.target_id {
        Some(raw) => parse_u64(raw.as_str()),
        None => None,
    };
    let target = match parsed {
        Some(target) => target,
        None => {
            return Err(ExpiryError::NoTarget);
        },
    };
    let mut reason = "tempban expired (ledger row ".to_owned();
    reason.append(signed_number(row.id).as_str());
    reason.append(")");
    let mut intent = "scheduler: tempban from ledger row ".to_owned();
    intent.append(signed_number(row.id).as_str());
    intent.append(" expired");
    let blank = NewModAction::default();
    let reversal = NewModAction {
        action: "unban".to_owned(),
        guild_id: row.guild_id.clone(),
        executor_name: Some("kurou".to_owned()),
        intent: Some(intent),
        ..blank
    };
    Ok(Expiry { guild, target, reason, reversal })
}

/// Whether a failed unban can be passed over: somebody was faster, and the ban is gone either
/// way.
pub fn is_already_gone(status: Option<u16>) -> (r: bool)
    ensures
        r == (status == Some(404u16)),
{
    match status {
        Some(code) => code == 404,
        None => false,
    }
}

/// A ban is ended only once its time has come, and from then on whenever the timer looks.
pub proof fn lemma_bans_end_in_their_time(row: ModAction, expiry: int, now: int)
    requires
        row.expires_at is Some,
        timestamp_seconds(row.expires_at->0@) == Some(expiry),
    ensures
        is_due(row, now) <==> now >= expiry,
{
}

} // verus!
