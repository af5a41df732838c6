//! What the crow is told at start.

use vstd::prelude::*;

use crate::text::{
    after_prefix, blank, is_blank, lower, lowercased, opt_text, strip_prefix, trim, trimmed,
};

verus! {

/// How the crow is spoken to.
#[derive(Clone, Copy, Debug, PartialEq, Eq, Structural)]
pub enum TransportMode {
    Stdio,
    Http,
}

/// How much of the gateway the crow opens.
#[derive(Clone, Copy, Debug, PartialEq, Eq, Structural)]
pub enum GatewayMode {
    Off,
    Presence,
    Mentions,
}

/// The whole of the settings.
pub struct Config {
    pub transport: TransportMode,
    pub discord_token: Option<String>,
    pub primary_guild: Option<String>,
    pub discord_guild_id: Option<String>,
    pub secondary_guilds: Vec<String>,
    pub readonly_guilds: Vec<String>,
    pub readonly_discord_token: Option<String>,
    pub port: u16,
    pub host: String,
    pub allowed_hosts: Vec<String>,
    pub allowed_origins: Vec<String>,
    pub auth_tokens: Vec<String>,
    pub oauth_token_label: Option<String>,
    pub public_base_url: String,
    pub gateway_mode: GatewayMode,
    pub wall: bool,
    pub archive: bool,
    pub modlog: bool,
    pub modlog_channel: Option<String>,
    pub ledger_path: Option<String>,
    pub mention_keywords: Vec<String>,
    pub wake_url: Option<String>,
    pub wake_secret: Option<String>,
    pub wake_dm_from: Vec<String>,
}

/// The ledger's name where nobody gives it one.
pub const DEFAULT_LEDGER: &'static str = "mentions.sqlite3";

/// The first of two settings that is given and not blank.
pub open spec fn first_given(a: Option<String>, b: Option<String>) -> Option<Seq<char>> {
    match a {
        Some(s) if !is_blank(s@) => Some(s@),
        _ => match b {
            Some(s) if !is_blank(s@) => Some(s@),
            _ => None,
        },
    }
}

/// A setting without the white space around it, where anything is left of it.
pub open spec fn filled(v: Option<String>) -> Option<Seq<char>> {
    match v {
        Some(s) if !is_blank(s@) => Some(trimmed(s@)),
        _ => None,
    }
}

/// A setting without the white space around it, where anything is left of it.
pub fn filled_text(v: &Option<String>) -> (r: Option<String>)
    ensures
        opt_text(r) == filled(*v),
{
    match v {
        Some(s) => {
            let t = trim(s.as_str());
            if t.as_str().is_empty() {
                None
            } else {
                Some(t)
            }
        },
        None => None,
    }
}

fn present(v: &Option<String>) -> (r: Option<String>)
    ensures
        r == match *v {
            Some(s) if !is_blank(s@) => Some(s),
            _ => None,
        },
{
    match v {
        Some(s) => {
            if blank(s.as_str()) {
                None
            } else {
                Some(s.clone())
            }
        },
        None => None,
    }
}

impl Config {
    /// Where the ledger lies: the path given, or the one under the old name of the setting,
    /// or the default.
    pub fn ledger_path(&self, mention_db_path: Option<String>) -> (r: String)
        ensures
            r@ == match self.ledger_path {
                Some(path) => path@,
                None => match mention_db_path {
                    Some(path) => path@,
                    None => DEFAULT_LEDGER@,
                },
            },
    {
        match &self.ledger_path {
            Some(path) => path.clone(),
            None => match mention_db_path {
                Some(path) => path,
                None => DEFAULT_LEDGER.to_owned(),
            },
        }
    }

    /// The home guild as it was given, under its own name or the older one.
    pub fn primary_guild_raw(&self) -> (r: Option<String>)
        ensures
            opt_text(r) == first_given(self.primary_guild, self.discord_guild_id),
    {
        match present(&self.primary_guild) {
            Some(raw) => Some(raw),
            None => present(&self.discord_guild_id),
        }
    }
}

/// What a sender's token is set under.
pub const SENDER_PREFIX: &'static str = "DISCORD_TOKEN_";

/// A voice of its own: who speaks, and with what token.
pub struct SenderToken {
    pub label: String,
    pub token: String,
}

/// The voice a setting describes, if it describes one.
pub open spec fn sender_of(key: Seq<char>, value: Seq<char>) -> Option<(Seq<char>, Seq<char>)> {
    match after_prefix(key, SENDER_PREFIX@) {
        Some(name) => if name.len() == 0 || is_blank(value) {
            None
        } else {
            Some((lowercased(name), trimmed(value)))
        },
        None => None,
    }
}

/// The voices that settings describe, in order.
pub open spec fn senders_of(vars: Seq<(String, String)>) -> Seq<(Seq<char>, Seq<char>)>
    decreases vars.len(),
{
    if vars.len() == 0 {
        seq![]
    } else {
        match sender_of(vars.last().0@, vars.last().1@) {
            Some(sender) => senders_of(vars.drop_last()).push(sender),
            None => senders_of(vars.drop_last()),
        }
    }
}

pub open spec fn sender_views(v: Seq<SenderToken>) -> Seq<(Seq<char>, Seq<char>)> {
    v.map_values(|s: SenderToken| (s.label@, s.token@))
}

/// The voices that the environment describes: `DISCORD_TOKEN_` and a label.
pub fn sender_tokens(vars: &Vec<(String, String)>) -> (r: Vec<SenderToken>)
    ensures
        sender_views(r@) == senders_of(vars@),
{
    let mut r: Vec<SenderToken> = Vec::new();
    let mut i: usize = 0;
    assert(vars@.take(0) =~= seq![]);
    assert(sender_views(r@) =~= seq![]);
    while i < vars.len()
        invariant
            i <= vars@.len(),
            sender_views(r@) == senders_of(vars@.take(i as int)),
        decreases vars@.len() - i,
    {
        let ghost before = sender_views(r@);
        if let Some(name) = strip_prefix(vars[i].0.as_str(), SENDER_PREFIX) {
            let token = trim(vars[i].1.as_str());
            if !name.as_str().is_empty() && !token.as_str().is_empty() {
                let sender = SenderToken { label: lower(name.as_str()), token };
                r.push(sender);
                assert(sender_views(r@) =~= before.push((sender.label@, sender.token@)));
            }
        }
        i = i + 1;
        proof {
            assert(vars@.take(i as int).drop_last() =~= vars@.take(i - 1));
            assert(vars@.take(i as int).last() == vars@[i - 1]);
        }
    }
    assert(vars@.take(i as int) =~= vars@);
    r
}

} // verus!
