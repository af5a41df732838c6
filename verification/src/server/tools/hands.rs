//! The moderating hands: every act needs a reason, a bot of the caller's own and an open
//! ledger, and leaves a row behind.

use vstd::prelude::*;

use crate::clock::{
    is_writable_second, timestamp_seconds, timestamp_text, write_timestamp, LAST_SECOND,
};
use crate::json::{
    braced, field_text, json_quoted, member, object_of_one, object_of_two, text_or_null, Field,
};
use crate::modlog::{ModAction, ModlogStore, NewModAction};
use crate::numeral::parse_u64;
use crate::scheduler::is_due;
use crate::server::boot::snowflake;
use crate::server::tools::common::{
    caller_identity, identity_of, invalid, invalid_text, parse_channel, parse_message, Caller, NOBODY,
};
use crate::server::{voiceless_text, KurouServer, Probe, Voice, PRIMARY_IDENTITY};
use crate::text::{
    blank, clone_opt, contains, decimal, has_text, is_blank, number, opt_text, precedes, texts, trim,
};

verus! {

/// Discord's own ceiling for a timeout: twenty-eight days, in minutes.
pub const MAX_TIMEOUT_MINUTES: u32 = 40320;

pub struct BanUserRequest {
    pub user_id: String,
    pub intent: String,
    pub reason: Option<String>,
    pub delete_message_days: Option<u8>,
    pub duration_hours: Option<u32>,
    pub dry_run: Option<bool>,
}

pub struct UserActionRequest {
    pub user_id: String,
    pub intent: String,
    pub reason: Option<String>,
}

pub struct TimeoutUserRequest {
    pub user_id: String,
    pub duration_minutes: u32,
    pub intent: String,
    pub reason: Option<String>,
}

pub struct WarnUserRequest {
    pub user_id: String,
    pub reason: String,
    pub intent: Option<String>,
}

pub struct RevokeWarnRequest {
    pub ledger_id: i64,
    pub intent: String,
}

pub struct RoleRequest {
    pub user_id: String,
    pub role_id: String,
    pub intent: String,
    pub reason: Option<String>,
}

pub struct SetNicknameRequest {
    pub user_id: String,
    pub nickname: String,
    pub intent: String,
    pub reason: Option<String>,
}

pub struct DeleteMessageRequest {
    pub channel_id: String,
    pub message_id: String,
    pub intent: String,
    pub reason: Option<String>,
}

/// A hand: who acts, with which bot, in which guild.
pub struct Hand {
    pub label: String,
    pub voice: Voice,
    pub guild: u64,
}

pub const NO_INTENT: &'static str =
    "intent must say who decided and why - an empty string is not a fingerprint";

pub const LEDGER_CLOSED: &'static str =
    "the mod ledger is closed: set MODLOG=true to arm the moderation layer";

pub const NO_HOME: &'static str = "mod hands need DISCORD_GUILD_ID (the primary guild) configured";

/// The voice of an identity is the one it may speak with.
pub open spec fn is_voice_of(v: Voice, identity: Seq<char>) -> bool {
    if identity == PRIMARY_IDENTITY@ {
        v is Primary
    } else {
        v matches Voice::Sender { label } && label@ == identity
    }
}

impl KurouServer {
    /// An identity has a bot to speak with.
    pub open spec fn has_voice(self, identity: Seq<char>) -> bool {
        identity == PRIMARY_IDENTITY@ || texts(self.senders@).contains(identity)
    }

    /// A caller is known and has a bot to speak with.
    pub open spec fn speaks(self, caller: Caller) -> bool {
        identity_of(caller) is Some && self.has_voice(identity_of(caller)->0)
    }

    /// Why a hand is refused, if it is: the reason is looked at first, then who calls, then
    /// their voice, then the ledger, then the home guild.
    pub open spec fn hand_fault(self, caller: Caller, intent: Seq<char>) -> Option<Seq<char>> {
        if is_blank(intent) {
            Some(NO_INTENT@)
        } else if identity_of(caller) is None {
            Some(NOBODY@)
        } else if !self.has_voice(identity_of(caller)->0) {
            Some(voiceless_text(identity_of(caller)->0))
        } else if self.modlog_store is None {
            Some(LEDGER_CLOSED@)
        } else if self.default_guild is None {
            Some(NO_HOME@)
        } else {
            None
        }
    }

    /// The guild the hands work in.
    pub fn primary_guild(&self) -> (r: Result<u64, String>)
        ensures
            match self.default_guild {
                Some(guild) => r == Ok::<u64, String>(guild),
                None => r matches Err(e) && e@ == NO_HOME@,
            },
    {
        match self.default_guild {
            Some(guild) => Ok(guild),
            None => Err(NO_HOME.to_owned()),
        }
    }

    /// The ledger, where it is open.
    pub fn modlog(&self) -> (r: Result<&ModlogStore, String>)
        ensures
            match self.modlog_store {
                Some(store) => r matches Ok(s) && *s == store,
                None => r matches Err(e) && e@ == LEDGER_CLOSED@,
            },
    {
        match &self.modlog_store {
            Some(store) => Ok(store),
            None => Err(LEDGER_CLOSED.to_owned()),
        }
    }

    /// A hand for whoever calls, if they gave a reason, have a bot of their own, and the act
    /// can be written down.
    pub fn hand(&self, caller: &Caller, intent: &str) -> (r: Result<Hand, String>)
        ensures
            match self.hand_fault(*caller, intent@) {
                Some(text) => r matches Err(e) && e@ == text,
                None => r matches Ok(h) && Some(h.label@) == identity_of(*caller) && is_voice_of(
                    h.voice,
                    h.label@,
                ) && Some(h.guild) == self.default_guild,
            },
    {
        if blank(intent) {
            return Err(NO_INTENT.to_owned());
        }
        let label = match caller_identity(caller) {
            Ok(label) => label,
            Err(e) => {
                return Err(e);
            },
        };
        let voice = match self.sender_for(label.as_str()) {
            Ok(voice) => voice,
            Err(e) => {
                return Err(e);
            },
        };
        match self.modlog() {
            Ok(_) => {},
            Err(e) => {
                return Err(e);
            },
        }
        match self.primary_guild() {
            Ok(guild) => Ok(Hand { label, voice, guild }),
            Err(e) => Err(e),
        }
    }

    /// The hands stay home: an act on a channel must land in the home guild.
    pub fn guard_primary_channel(&self, channel: u64, probe: Probe, failure: &str) -> (r: Result<
        (),
        String,
    >)
        ensures
            match self.default_guild {
                None => r matches Err(e) && e@ == NO_HOME@,
                Some(home) => if probe == Probe::InGuild(home) {
                    r == Ok::<(), String>(())
                } else if probe == Probe::Failed {
                    r matches Err(e) && e@ == "could not verify channel "@ + decimal(channel as nat)
                        + ": "@ + failure@
                } else {
                    r matches Err(e) && e@ == "channel "@ + decimal(channel as nat)
                        + " is not in the primary guild; the crow's hands stay home"@
                },
            },
    {
        let home = match self.primary_guild() {
            Ok(guild) => guild,
            Err(e) => {
                return Err(e);
            },
        };
        match probe {
            Probe::InGuild(guild) if guild == home => Ok(()),
            Probe::Failed => {
                let mut s = "could not verify channel ".to_owned();
                s.append(number(channel).as_str());
                s.append(": ");
                s.append(failure);
                Err(s)
            },
            _ => {
                let mut s = "channel ".to_owned();
                s.append(number(channel).as_str());
                s.append(" is not in the primary guild; the crow's hands stay home");
                Err(s)
            },
        }
    }
}

/// A row as a hand leaves it, before the act adds what it knows.
pub open spec fn fingerprint(
    row: NewModAction,
    hand: Hand,
    action: Seq<char>,
    intent: Seq<char>,
    executor: Option<u64>,
) -> bool {
    &&& row.action@ == action
    &&& row.guild_id@ == decimal(hand.guild as nat)
    &&& opt_text(row.executor_id) == match executor {
        Some(id) => Some(decimal(id as nat)),
        None => None,
    }
    &&& row.executor_name == Some(hand.label)
    &&& opt_text(row.intent) == Some(intent)
}

impl Hand {
    /// The row of an act: the acting bot, the caller's label, and who decided and why.
    pub fn row(&self, action: &str, intent: String, executor: Option<u64>) -> (r: NewModAction)
        ensures
            fingerprint(r, *self, action@, intent@, executor),
            r.target_id is None,
            r.target_name is None,
            r.channel_id is None,
            r.reason is None,
            r.metadata is None,
            r.expires_at is None,
    {
        let blank = NewModAction::default();
        NewModAction {
            action: action.to_owned(),
            guild_id: number(self.guild),
            executor_id: match executor {
                Some(id) => Some(number(id)),
                None => None,
            },
            executor_name: Some(self.label.clone()),
            intent: Some(intent),
            ..blank
        }
    }
}

/// What is said when an act went through and could not be written down: the act stands.
pub fn unrecorded(what: &str, error: &str) -> (r: String)
    ensures
        r@ == "the "@ + what@
            + " WENT THROUGH but the ledger write failed - record it by hand: "@ + error@,
{
    let mut s = "the ".to_owned();
    s.append(what);
    s.append(" WENT THROUGH but the ledger write failed - record it by hand: ");
    s.append(error);
    s
}

/// Reads an account's id.
pub fn parse_user(raw: &str) -> (r: Result<u64, String>)
    requires
        snowflake(raw@) != Some(0u64),
    ensures
        match snowflake(raw@) {
            Some(id) => r == Ok::<u64, String>(id),
            None => r matches Err(e) && e@ == invalid_text(raw@, "user snowflake id"@),
        },
{
    match parse_u64(trim(raw).as_str()) {
        Some(id) => Ok(id),
        None => Err(invalid(raw, "user snowflake id")),
    }
}

/// Reads a role's id.
pub fn parse_role(raw: &str) -> (r: Result<u64, String>)
    requires
        snowflake(raw@) != Some(0u64),
    ensures
        match snowflake(raw@) {
            Some(id) => r == Ok::<u64, String>(id),
            None => r matches Err(e) && e@ == invalid_text(raw@, "role snowflake id"@),
        },
{
    match parse_u64(trim(raw).as_str()) {
        Some(id) => Ok(id),
        None => Err(invalid(raw, "role snowflake id")),
    }
}

/// A hand and whom it acts on.
pub struct Aim {
    pub hand: Hand,
    pub target: u64,
}

impl KurouServer {
    /// Readies a hand for an act on an account: the hand first, then the account.
    pub fn aim(&self, caller: &Caller, intent: &str, user_id: &str) -> (r: Result<Aim, String>)
        requires
            self.hand_fault(*caller, intent@) is None ==> snowflake(user_id@) != Some(0u64),
        ensures
            match self.hand_fault(*caller, intent@) {
                Some(text) => r matches Err(e) && e@ == text,
                None => match snowflake(user_id@) {
                    None => r matches Err(e) && e@ == invalid_text(user_id@, "user snowflake id"@),
                    Some(id) => r matches Ok(a) && a.target == id && Some(a.hand.label@)
                        == identity_of(*caller) && is_voice_of(a.hand.voice, a.hand.label@)
                        && Some(a.hand.guild) == self.default_guild,
                },
            },
    {
        let hand = match self.hand(caller, intent) {
            Ok(hand) => hand,
            Err(e) => {
                return Err(e);
            },
        };
        match parse_user(user_id) {
            Ok(target) => Ok(Aim { hand, target }),
            Err(e) => Err(e),
        }
    }
}

/// The terms of a ban.
pub struct BanTerms {
    pub days: u8,
    pub expires_at: Option<String>,
}

/// How many days of messages a ban deletes: none by default, and seven at most.
pub open spec fn ban_days(req: BanUserRequest) -> int {
    match req.delete_message_days {
        Some(days) => if days > 7 {
            7
        } else {
            days as int
        },
        None => 0,
    }
}

/// The second a temporary ban ends in; none, where it does not end.
pub open spec fn ban_end(req: BanUserRequest, now: i64) -> Option<int> {
    match req.duration_hours {
        Some(hours) => if hours > 0 {
            Some(now + hours * 3600)
        } else {
            None
        },
        None => None,
    }
}

pub const NO_EXPIRY: &'static str =
    "could not build tempban expiry: invalid UNIX timestamp value";

/// The terms of a ban, given the moment its end is written as.
pub fn ban_terms_with(req: &BanUserRequest, end: Option<Option<String>>) -> (r: Result<BanTerms, String>)
    ensures
        match end {
            Some(None) => r matches Err(e) && e@ == NO_EXPIRY@,
            Some(Some(text)) => r matches Ok(t) && t.days == ban_days(*req) && t.expires_at == Some(
                text,
            ),
            None => r matches Ok(t) && t.days == ban_days(*req) && t.expires_at is None,
        },
{
    let days: u8 = match req.delete_message_days {
        Some(days) => if days > 7 {
            7
        } else {
            days
        },
        None => 0,
    };
    match end {
        Some(None) => Err(NO_EXPIRY.to_owned()),
        Some(Some(text)) => Ok(BanTerms { days, expires_at: Some(text) }),
        None => Ok(BanTerms { days, expires_at: None }),
    }
}

/// What the terms of a ban are: the days, and an end that reads back as the second it ends in.
pub open spec fn are_ban_terms(req: BanUserRequest, now: i64, t: BanTerms) -> bool {
    &&& t.days == ban_days(req)
    &&& match ban_end(req, now) {
        Some(end) => t.expires_at is Some && timestamp_seconds(t.expires_at->0@) == Some(end),
        None => t.expires_at is None,
    }
}

/// The terms of a ban: the days of messages it deletes, and when it ends, if it does.
pub fn ban_terms(req: &BanUserRequest, now: i64) -> (r: Result<BanTerms, String>)
    requires
        ban_end(*req, now) matches Some(end) ==> is_writable_second(end),
    ensures
        match ban_end(*req, now) {
            Some(end) => match timestamp_text(end) {
                Some(text) => r matches Ok(t) && t.days == ban_days(*req) && opt_text(t.expires_at)
                    == Some(text),
                None => r matches Err(e) && e@ == NO_EXPIRY@,
            },
            None => r matches Ok(t) && t.days == ban_days(*req) && t.expires_at is None,
        },
        r matches Ok(t) ==> are_ban_terms(*req, now, t),
        (ban_end(*req, now) matches Some(end) ==> end <= LAST_SECOND) ==> r is Ok,
{
    let end = match req.duration_hours {
        Some(hours) => if hours > 0 {
            Some(write_timestamp(now + (hours as i64) * 3600))
        } else {
            None
        },
        None => None,
    };
    ban_terms_with(req, end)
}

pub open spec fn hours_text(hours: Option<u32>) -> Seq<char> {
    match hours {
        Some(hours) => decimal(hours as nat),
        None => seq!['n', 'u', 'l', 'l'],
    }
}

/// What a ban's row says of its terms; nothing where there is nothing to say.
pub open spec fn ban_metadata(days: int, hours: Option<u32>) -> Option<Seq<char>> {
    if days > 0 || hours is Some {
        Some(
            braced(
                seq![
                    member("delete_message_days"@, decimal(days as nat)),
                    member("duration_hours"@, hours_text(hours)),
                ],
            ),
        )
    } else {
        None
    }
}

/// What the row of a ban says.
pub open spec fn is_ban_row(
    r: NewModAction,
    aim: Aim,
    req: BanUserRequest,
    terms: BanTerms,
    target_name: Seq<char>,
    executor: Option<u64>,
) -> bool {
    &&& fingerprint(r, aim.hand, "ban"@, req.intent@, executor)
    &&& opt_text(r.target_id) == Some(decimal(aim.target as nat))
    &&& opt_text(r.target_name) == Some(target_name)
    &&& r.reason == req.reason
    &&& r.expires_at == terms.expires_at
    &&& opt_text(r.metadata) == ban_metadata(terms.days as int, req.duration_hours)
    &&& r.channel_id is None
}

/// The row of a ban.
pub fn ban_row(
    aim: &Aim,
    req: &BanUserRequest,
    terms: &BanTerms,
    target_name: &str,
    executor: Option<u64>,
) -> (r: NewModAction)
    ensures
        is_ban_row(r, *aim, *req, *terms, target_name@, executor),
{
    let row = aim.hand.row("ban", req.intent.clone(), executor);
    let metadata = if terms.days > 0 || req.duration_hours.is_some() {
        proof {
            reveal_strlit("delete_message_days");
            reveal_strlit("duration_hours");
            reveal_with_fuel(precedes, 3);
        }
        let hours = match req.duration_hours {
            Some(hours) => Field::UInt(hours as u64),
            None => Field::Null,
        };
        assert(field_text(hours) == hours_text(req.duration_hours));
        Some(
            object_of_two(
                "delete_message_days",
                Field::UInt(terms.days as u64),
                "duration_hours",
                hours,
            ),
        )
    } else {
        None
    };
    NewModAction {
        target_id: Some(number(aim.target)),
        target_name: Some(target_name.to_owned()),
        reason: clone_opt(&req.reason),
        expires_at: clone_opt(&terms.expires_at),
        metadata,
        ..row
    }
}

/// What the row of an act on an account says.
pub open spec fn is_user_row(
    r: NewModAction,
    aim: Aim,
    action: Seq<char>,
    req: UserActionRequest,
    target_name: Seq<char>,
    executor: Option<u64>,
) -> bool {
    &&& fingerprint(r, aim.hand, action, req.intent@, executor)
    &&& opt_text(r.target_id) == Some(decimal(aim.target as nat))
    &&& opt_text(r.target_name) == Some(target_name)
    &&& r.reason == req.reason
    &&& r.expires_at is None
    &&& r.metadata is None
    &&& r.channel_id is None
}

/// The row of an act on an account that has nothing more to say: a kick, an unban, the end of
/// a timeout.
pub fn user_row(
    aim: &Aim,
    action: &str,
    req: &UserActionRequest,
    target_name: &str,
    executor: Option<u64>,
) -> (r: NewModAction)
    ensures
        is_user_row(r, *aim, action@, *req, target_name@, executor),
{
    let row = aim.hand.row(action, req.intent.clone(), executor);
    NewModAction {
        target_id: Some(number(aim.target)),
        target_name: Some(target_name.to_owned()),
        reason: clone_opt(&req.reason),
        ..row
    }
}

/// What became of a row that was to undo another.
pub enum Retirement {
    RecordAlone,
    Failed(String),
}

/// What to do after an undoing row could not be linked: where somebody else undid it first,
/// theirs stands and ours is written on its own.
pub fn after_failed_revert(what: &str, error: &str) -> (r: Retirement)
    ensures
        if has_text(error@, "already reverted"@) {
            r is RecordAlone
        } else {
            r matches Retirement::Failed(text) && text@ == "the "@ + what@
                + " WENT THROUGH but the ledger write failed - record it by hand: "@ + error@
        },
{
    if contains(error, "already reverted") {
        Retirement::RecordAlone
    } else {
        Retirement::Failed(unrecorded(what, error))
    }
}

/// How long a timeout lasts, in minutes: what was asked for, up to the ceiling.
pub open spec fn timeout_minutes(asked: u32) -> int {
    if asked > MAX_TIMEOUT_MINUTES {
        MAX_TIMEOUT_MINUTES as int
    } else {
        asked as int
    }
}

/// The second a timeout ends in.
pub open spec fn timeout_end(req: TimeoutUserRequest, now: i64) -> int {
    now + timeout_minutes(req.duration_minutes) * 60
}

pub open spec fn zero_timeout_text() -> Seq<char> {
    "duration_minutes must be 1-"@ + decimal(MAX_TIMEOUT_MINUTES as nat) + "; zero is not a timeout"@
}

pub const NO_TIMEOUT_END: &'static str =
    "could not build timeout timestamp: invalid UNIX timestamp value";

/// The terms of a timeout.
pub struct TimeoutTerms {
    pub minutes: u32,
    pub until_unix: i64,
    pub until: String,
}

/// What the terms of a timeout are: how long it lasts, and an end that reads back as the second
/// it ends in.
pub open spec fn are_timeout_terms(req: TimeoutUserRequest, now: i64, t: TimeoutTerms) -> bool {
    &&& req.duration_minutes > 0
    &&& t.minutes == timeout_minutes(req.duration_minutes)
    &&& t.until_unix == timeout_end(req, now)
    &&& timestamp_seconds(t.until@) == Some(t.until_unix as int)
}

/// The terms of a timeout: how long it lasts, and until when. None lasts no time.
pub fn timeout_terms(req: &TimeoutUserRequest, now: i64) -> (r: Result<TimeoutTerms, String>)
    requires
        req.duration_minutes > 0 ==> is_writable_second(timeout_end(*req, now)),
    ensures
        if req.duration_minutes == 0 {
            r matches Err(e) && e@ == zero_timeout_text()
        } else {
            let end = timeout_end(*req, now);
            match timestamp_text(end) {
                Some(text) => r matches Ok(t) && t.minutes == timeout_minutes(req.duration_minutes)
                    && t.until_unix == end && t.until@ == text,
                None => r matches Err(e) && e@ == NO_TIMEOUT_END@,
            }
        },
        r matches Ok(t) ==> are_timeout_terms(*req, now, t),
        req.duration_minutes > 0 && timeout_end(*req, now) <= LAST_SECOND ==> r is Ok,
{
    if req.duration_minutes == 0 {
        let mut s = "duration_minutes must be 1-".to_owned();
        s.append(number(MAX_TIMEOUT_MINUTES as u64).as_str());
        s.append("; zero is not a timeout");
        return Err(s);
    }
    let minutes: u32 = if req.duration_minutes > MAX_TIMEOUT_MINUTES {
        MAX_TIMEOUT_MINUTES
    } else {
        req.duration_minutes
    };
    let until_unix: i64 = now + (minutes as i64) * 60;
    match write_timestamp(until_unix) {
        Some(until) => Ok(TimeoutTerms { minutes, until_unix, until }),
        None => Err(NO_TIMEOUT_END.to_owned()),
    }
}

/// What the row of a timeout says.
pub open spec fn is_timeout_row(
    r: NewModAction,
    aim: Aim,
    req: TimeoutUserRequest,
    terms: TimeoutTerms,
    target_name: Seq<char>,
    executor: Option<u64>,
) -> bool {
    &&& fingerprint(r, aim.hand, "timeout"@, req.intent@, executor)
    &&& opt_text(r.target_id) == Some(decimal(aim.target as nat))
    &&& opt_text(r.target_name) == Some(target_name)
    &&& r.reason == req.reason
    &&& opt_text(r.metadata) == Some(
        braced(
            seq![
                member("duration_minutes"@, decimal(terms.minutes as nat)),
                member("until"@, json_quoted(terms.until@)),
            ],
        ),
    )
    &&& r.expires_at is None
    &&& r.channel_id is None
}

/// The row of a timeout.
pub fn timeout_row(
    aim: &Aim,
    req: &TimeoutUserRequest,
    terms: &TimeoutTerms,
    target_name: &str,
    executor: Option<u64>,
) -> (r: NewModAction)
    ensures
        is_timeout_row(r, *aim, *req, *terms, target_name@, executor),
{
    let row = aim.hand.row("timeout", req.intent.clone(), executor);
    proof {
        reveal_strlit("duration_minutes");
        reveal_strlit("until");
    }
    let metadata = object_of_two(
        "duration_minutes",
        Field::UInt(terms.minutes as u64),
        "until",
        Field::Text(terms.until.clone()),
    );
    NewModAction {
        target_id: Some(number(aim.target)),
        target_name: Some(target_name.to_owned()),
        reason: clone_opt(&req.reason),
        metadata: Some(metadata),
        ..row
    }
}

/// Who decided on a warning and why: what was said of it, or whoever warns and what for.
pub open spec fn warn_intent(req: WarnUserRequest, label: Seq<char>) -> Seq<char> {
    match req.intent {
        Some(intent) if !is_blank(intent@) => intent@,
        _ => label + ": "@ + req.reason@,
    }
}

/// What the row of a warning says.
pub open spec fn is_warn_row(
    r: NewModAction,
    aim: Aim,
    req: WarnUserRequest,
    target_name: Seq<char>,
    executor: Option<u64>,
) -> bool {
    &&& fingerprint(r, aim.hand, "warn"@, warn_intent(req, aim.hand.label@), executor)
    &&& opt_text(r.target_id) == Some(decimal(aim.target as nat))
    &&& opt_text(r.target_name) == Some(target_name)
    &&& r.reason == Some(req.reason)
    &&& r.metadata is None
    &&& r.expires_at is None
    &&& r.channel_id is None
}

/// The row of a warning: it is the warning.
pub fn warn_row(aim: &Aim, req: &WarnUserRequest, target_name: &str, executor: Option<u64>) -> (r:
    NewModAction)
    ensures
        is_warn_row(r, *aim, *req, target_name@, executor),
{
    let given = match &req.intent {
        Some(intent) => if blank(intent.as_str()) {
            None
        } else {
            Some(intent.clone())
        },
        None => None,
    };
    let intent = match given {
        Some(intent) => intent,
        None => {
            let mut s = aim.hand.label.clone();
            s.append(": ");
            s.append(req.reason.as_str());
            s
        },
    };
    let row = aim.hand.row("warn", intent, executor);
    NewModAction {
        target_id: Some(number(aim.target)),
        target_name: Some(target_name.to_owned()),
        reason: Some(req.reason.clone()),
        ..row
    }
}

/// A hand, whom it acts on, and the role it gives or takes.
pub struct RoleAim {
    pub aim: Aim,
    pub role: u64,
}

impl KurouServer {
    /// Readies a hand to give or take a role: the hand, the account, then the role.
    pub fn aim_role(&self, caller: &Caller, req: &RoleRequest) -> (r: Result<RoleAim, String>)
        requires
            self.hand_fault(*caller, req.intent@) is None ==> {
                &&& snowflake(req.user_id@) != Some(0u64)
                &&& snowflake(req.user_id@) is Some ==> snowflake(req.role_id@) != Some(0u64)
            },
        ensures
            match self.hand_fault(*caller, req.intent@) {
                Some(text) => r matches Err(e) && e@ == text,
                None => match (snowflake(req.user_id@), snowflake(req.role_id@)) {
                    (None, _) => r matches Err(e) && e@ == invalid_text(
                        req.user_id@,
                        "user snowflake id"@,
                    ),
                    (Some(_), None) => r matches Err(e) && e@ == invalid_text(
                        req.role_id@,
                        "role snowflake id"@,
                    ),
                    (Some(user), Some(role)) => r matches Ok(a) && a.aim.target == user && a.role
                        == role && Some(a.aim.hand.guild) == self.default_guild && Some(
                        a.aim.hand.label@,
                    ) == identity_of(*caller) && is_voice_of(a.aim.hand.voice, a.aim.hand.label@),
                },
            },
    {
        let aim = match self.aim(caller, req.intent.as_str(), req.user_id.as_str()) {
            Ok(aim) => aim,
            Err(e) => {
                return Err(e);
            },
        };
        match parse_role(req.role_id.as_str()) {
            Ok(role) => Ok(RoleAim { aim, role }),
            Err(e) => Err(e),
        }
    }
}

/// What the row of a role that was given or taken says.
pub open spec fn is_role_row(
    r: NewModAction,
    aim: RoleAim,
    action: Seq<char>,
    req: RoleRequest,
    executor: Option<u64>,
) -> bool {
    &&& fingerprint(r, aim.aim.hand, action, req.intent@, executor)
    &&& opt_text(r.target_id) == Some(decimal(aim.aim.target as nat))
    &&& r.target_name is None
    &&& r.reason == req.reason
    &&& opt_text(r.metadata) == Some(
        braced(seq![member("role_id"@, json_quoted(decimal(aim.role as nat)))]),
    )
    &&& r.expires_at is None
    &&& r.channel_id is None
}

/// The row of a role that was given or taken.
pub fn role_row(aim: &RoleAim, action: &str, req: &RoleRequest, executor: Option<u64>) -> (r: NewModAction)
    ensures
        is_role_row(r, *aim, action@, *req, executor),
{
    let row = aim.aim.hand.row(action, req.intent.clone(), executor);
    let metadata = object_of_one("role_id", Field::Text(number(aim.role)));
    NewModAction {
        target_id: Some(number(aim.aim.target)),
        reason: clone_opt(&req.reason),
        metadata: Some(metadata),
        ..row
    }
}

/// What the row of a changed nickname says.
pub open spec fn is_nickname_row(
    r: NewModAction,
    aim: Aim,
    req: SetNicknameRequest,
    previous: Option<String>,
    target_name: Seq<char>,
    executor: Option<u64>,
) -> bool {
    &&& fingerprint(r, aim.hand, "nickname"@, req.intent@, executor)
    &&& opt_text(r.target_id) == Some(decimal(aim.target as nat))
    &&& opt_text(r.target_name) == Some(target_name)
    &&& r.reason == req.reason
    &&& opt_text(r.metadata) == Some(
        braced(
            seq![
                member("nickname"@, json_quoted(req.nickname@)),
                member("previous"@, text_or_null(opt_text(previous))),
            ],
        ),
    )
    &&& r.expires_at is None
    &&& r.channel_id is None
}

/// The row of a changed nickname, with what it was before.
pub fn nickname_row(
    aim: &Aim,
    req: &SetNicknameRequest,
    previous: &Option<String>,
    target_name: &str,
    executor: Option<u64>,
) -> (r: NewModAction)
    ensures
        is_nickname_row(r, *aim, *req, *previous, target_name@, executor),
{
    let row = aim.hand.row("nickname", req.intent.clone(), executor);
    proof {
        reveal_strlit("nickname");
        reveal_strlit("previous");
    }
    let before = match previous {
        Some(nick) => Field::Text(nick.clone()),
        None => Field::Null,
    };
    let metadata = object_of_two(
        "nickname",
        Field::Text(req.nickname.clone()),
        "previous",
        before,
    );
    NewModAction {
        target_id: Some(number(aim.target)),
        target_name: Some(target_name.to_owned()),
        reason: clone_opt(&req.reason),
        metadata: Some(metadata),
        ..row
    }
}

/// A hand, a channel, and the message in it that is to go.
pub struct MessageAim {
    pub hand: Hand,
    pub channel: u64,
    pub message: u64,
}

impl KurouServer {
    /// Readies a hand to delete a message: the hand, the channel, then the message.
    pub fn aim_message(&self, caller: &Caller, req: &DeleteMessageRequest) -> (r: Result<
        MessageAim,
        String,
    >)
        requires
            self.hand_fault(*caller, req.intent@) is None ==> {
                &&& snowflake(req.channel_id@) != Some(0u64)
                &&& snowflake(req.channel_id@) is Some ==> snowflake(req.message_id@) != Some(0u64)
            },
        ensures
            match self.hand_fault(*caller, req.intent@) {
                Some(text) => r matches Err(e) && e@ == text,
                None => match (snowflake(req.channel_id@), snowflake(req.message_id@)) {
                    (None, _) => r matches Err(e) && e@ == invalid_text(
                        req.channel_id@,
                        "snowflake id"@,
                    ),
                    (Some(_), None) => r matches Err(e) && e@ == invalid_text(
                        req.message_id@,
                        "snowflake id"@,
                    ),
                    (Some(channel), Some(message)) => r matches Ok(a) && a.channel == channel
                        && a.message == message && Some(a.hand.guild) == self.default_guild && Some(
                        a.hand.label@,
                    ) == identity_of(*caller) && is_voice_of(a.hand.voice, a.hand.label@),
                },
            },
    {
        let hand = match self.hand(caller, req.intent.as_str()) {
            Ok(hand) => hand,
            Err(e) => {
                return Err(e);
            },
        };
        let channel = match parse_channel(req.channel_id.as_str()) {
            Ok(id) => id,
            Err(e) => {
                return Err(e);
            },
        };
        match parse_message(req.message_id.as_str()) {
            Ok(message) => Ok(MessageAim { hand, channel, message }),
            Err(e) => Err(e),
        }
    }
}

/// What the row of a deleted message says.
pub open spec fn is_delete_row(
    r: NewModAction,
    aim: MessageAim,
    req: DeleteMessageRequest,
    author_id: u64,
    author_name: Seq<char>,
    content: Seq<char>,
    executor: Option<u64>,
) -> bool {
    &&& fingerprint(r, aim.hand, "delete"@, req.intent@, executor)
    &&& opt_text(r.target_id) == Some(decimal(author_id as nat))
    &&& opt_text(r.target_name) == Some(author_name)
    &&& opt_text(r.channel_id) == Some(decimal(aim.channel as nat))
    &&& r.reason == req.reason
    &&& opt_text(r.metadata) == Some(
        braced(
            seq![
                member("content"@, json_quoted(content)),
                member("message_id"@, json_quoted(decimal(aim.message as nat))),
            ],
        ),
    )
    &&& r.expires_at is None
}

/// The row of a deleted message: what it said is kept.
pub fn delete_row(
    aim: &MessageAim,
    req: &DeleteMessageRequest,
    author_id: u64,
    author_name: &str,
    content: &str,
    executor: Option<u64>,
) -> (r: NewModAction)
    ensures
        is_delete_row(r, *aim, *req, author_id, author_name@, content@, executor),
{
    let row = aim.hand.row("delete", req.intent.clone(), executor);
    proof {
        reveal_strlit("content");
        reveal_strlit("message_id");
    }
    let metadata = object_of_two(
        "content",
        Field::Text(content.to_owned()),
        "message_id",
        Field::Text(number(aim.message)),
    );
    NewModAction {
        target_id: Some(number(author_id)),
        target_name: Some(author_name.to_owned()),
        channel_id: Some(number(aim.channel)),
        reason: clone_opt(&req.reason),
        metadata: Some(metadata),
        ..row
    }
}

/// Nobody acts without saying why: a blank reason is refused before anything else is looked
/// at, whoever calls.
pub proof fn lemma_a_blank_intent_is_refused(server: KurouServer, caller: Caller, intent: Seq<char>)
    requires
        is_blank(intent),
    ensures
        server.hand_fault(caller, intent) == Some(NO_INTENT@),
{
}

/// Whoever acts does so with a bot of their own, in the home guild, with the ledger open.
pub proof fn lemma_hands_are_owned(server: KurouServer, caller: Caller, intent: Seq<char>)
    requires
        server.hand_fault(caller, intent) is None,
    ensures
        !is_blank(intent),
        identity_of(caller) is Some,
        server.has_voice(identity_of(caller)->0),
        server.modlog_store is Some,
        server.default_guild is Some,
{
}

/// A temporary ban is lifted in its time: the row it leaves is due from the second on that lies
/// so many hours after the ban, and not before.
pub proof fn lemma_tempbans_end_on_time(req: BanUserRequest, then: i64, row: ModAction, now: int)
    requires
        ban_end(req, then) is Some,
        row.expires_at is Some,
        timestamp_seconds(row.expires_at->0@) == ban_end(req, then),
    ensures
        is_due(row, now) <==> now >= then + req.duration_hours->0 * 3600,
{
}

} // verus!
