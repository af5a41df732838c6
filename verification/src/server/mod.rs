//! The server: which bot speaks for whom, which guild may be read or written, and what each
//! tool decides.

use vstd::prelude::*;

use crate::archive::MessageStore;
use crate::config::Config;
use crate::gateway::holds_id;
use crate::mentions::MentionStore;
use crate::modlog::ModlogStore;
use crate::server::boot::{hats, lemma_a_guild_wears_one_hat, Hats};
use crate::text::{contains_text, same, texts, upper, uppercased};

pub mod boot;
pub mod tools;

verus! {

/// The guilds a separate bot watches.
pub struct Observer {
    pub guilds: Vec<u64>,
}

/// Which bot a call is made with.
pub enum Voice {
    Primary,
    Observer,
    Sender { label: String },
}

/// Where a channel was found to be.
#[derive(Clone, Copy, Debug, PartialEq, Eq, Structural)]
pub enum Probe {
    InGuild(u64),
    NoGuild,
    Failed,
}

/// The server's own state.
pub struct KurouServer {
    pub observer: Option<Observer>,
    pub default_guild: Option<u64>,
    pub secondary_guilds: Vec<u64>,
    pub mention_store: Option<MentionStore>,
    pub message_store: Option<MessageStore>,
    pub modlog_store: Option<ModlogStore>,
    pub senders: Vec<String>,
    pub wake_dm_from: Vec<u64>,
    pub presence: bool,
}

/// Whose mouth the primary bot is.
pub const PRIMARY_IDENTITY: &'static str = "koma";

/// What a caller without a bot of their own is told.
pub open spec fn voiceless_text(identity: Seq<char>) -> Seq<char> {
    "'"@ + identity + "' is read-only on the crow: no DISCORD_TOKEN_"@ + uppercased(identity)
        + " is configured, and the crow won't speak as koma on someone else's behalf"@
}

impl KurouServer {
    /// A guild that the crow's bots may write in: the primary one or a secondary one.
    pub open spec fn writable(self, guild: u64) -> bool {
        self.default_guild == Some(guild) || self.secondary_guilds@.contains(guild)
    }

    /// The guilds that are only watched.
    pub open spec fn watched(self) -> Seq<u64> {
        match self.observer {
            Some(observer) => observer.guilds@,
            None => seq![],
        }
    }

    /// A server with a primary bot and what goes with it; no secondary guild, nobody to take
    /// private calls from, and no dot to steer.
    pub fn new(
        observer: Option<Observer>,
        default_guild: Option<u64>,
        mention_store: Option<MentionStore>,
        message_store: Option<MessageStore>,
        modlog_store: Option<ModlogStore>,
        senders: Vec<String>,
    ) -> (r: Self)
        ensures
            r.observer == observer,
            r.default_guild == default_guild,
            r.secondary_guilds@.len() == 0,
            r.mention_store == mention_store,
            r.message_store == message_store,
            r.modlog_store == modlog_store,
            r.senders == senders,
            r.wake_dm_from@.len() == 0,
            !r.presence,
    {
        KurouServer {
            observer,
            default_guild,
            secondary_guilds: Vec::new(),
            mention_store,
            message_store,
            modlog_store,
            senders,
            wake_dm_from: Vec::new(),
            presence: false,
        }
    }

    /// The same server, with private calls from these accounts.
    pub fn with_wake_dm_from(self, ids: Vec<u64>) -> (r: Self)
        ensures
            r == (KurouServer { wake_dm_from: ids, ..self }),
    {
        KurouServer { wake_dm_from: ids, ..self }
    }

    /// The same server, with these secondary guilds.
    pub fn with_secondary_guilds(self, guilds: Vec<u64>) -> (r: Self)
        ensures
            r == (KurouServer { secondary_guilds: guilds, ..self }),
    {
        KurouServer { secondary_guilds: guilds, ..self }
    }

    /// The same server, with a dot to steer or without.
    pub fn with_presence(self, slot: bool) -> (r: Self)
        ensures
            r == (KurouServer { presence: slot, ..self }),
    {
        KurouServer { presence: slot, ..self }
    }

    /// The guilds that are only watched.
    pub fn readonly_guilds(&self) -> (r: Vec<u64>)
        ensures
            r@ == self.watched(),
    {
        match &self.observer {
            Some(observer) => copy_ids(&observer.guilds),
            None => Vec::new(),
        }
    }

    /// Whether the crow's bots may write in a guild.
    pub fn is_writable(&self, guild: u64) -> (r: bool)
        ensures
            r == self.writable(guild),
    {
        let home = match self.default_guild {
            Some(primary) => primary == guild,
            None => false,
        };
        home || holds_id(&self.secondary_guilds, guild)
    }

    /// The mouth of whoever asks: the primary bot for its own identity, a bot of their own
    /// for anybody else who has one, and a refusal for the rest.
    pub fn sender_for(&self, identity: &str) -> (r: Result<Voice, String>)
        ensures
            if identity@ == PRIMARY_IDENTITY@ {
                r == Ok::<Voice, String>(Voice::Primary)
            } else if texts(self.senders@).contains(identity@) {
                r matches Ok(Voice::Sender { label }) && label@ == identity@
            } else {
                r matches Err(refusal) && refusal@ == voiceless_text(identity@)
            },
    {
        if same(identity, PRIMARY_IDENTITY) {
            return Ok(Voice::Primary);
        }
        if contains_text(&self.senders, identity) {
            return Ok(Voice::Sender { label: identity.to_owned() });
        }
        let mut s = "'".to_owned();
        s.append(identity);
        s.append("' is read-only on the crow: no DISCORD_TOKEN_");
        s.append(upper(identity).as_str());
        s.append(
            " is configured, and the crow won't speak as koma on someone else's behalf",
        );
        Err(s)
    }

    /// The bot that reads a guild: the primary one where it may write, the observer elsewhere,
    /// if there is one.
    pub open spec fn reader(self, guild: u64) -> Voice {
        if self.observer is Some && !self.writable(guild) {
            Voice::Observer
        } else {
            Voice::Primary
        }
    }

    /// The bot that reads a guild.
    pub fn client_for_guild(&self, guild: u64) -> (r: Voice)
        ensures
            r == self.reader(guild),
    {
        if self.observer.is_some() && !self.is_writable(guild) {
            Voice::Observer
        } else {
            Voice::Primary
        }
    }

    /// Whether the channel has to be looked for before a bot can be chosen for it.
    pub fn must_probe(&self) -> (r: bool)
        ensures
            r == (self.observer is Some),
    {
        self.observer.is_some()
    }

    /// The bot that reads a channel, given where the primary bot found it: a channel without
    /// a guild is the primary bot's own private one, and what it cannot see is the
    /// observer's.
    pub fn client_for_channel(&self, probe: Probe) -> (r: Voice)
        ensures
            r == if self.observer is None {
                Voice::Primary
            } else {
                match probe {
                    Probe::InGuild(guild) => if self.writable(guild) {
                        Voice::Primary
                    } else {
                        Voice::Observer
                    },
                    Probe::NoGuild => Voice::Primary,
                    Probe::Failed => Voice::Observer,
                }
            },
    {
        if self.observer.is_none() {
            return Voice::Primary;
        }
        match probe {
            Probe::InGuild(guild) => {
                if self.is_writable(guild) {
                    Voice::Primary
                } else {
                    Voice::Observer
                }
            },
            Probe::NoGuild => Voice::Primary,
            Probe::Failed => Voice::Observer,
        }
    }
}

/// A server that wears the hats the settings hand out.
pub open spec fn wears(server: KurouServer, h: Hats) -> bool {
    &&& server.default_guild == h.primary
    &&& server.secondary_guilds@ == h.secondary
    &&& server.watched() == h.readonly
}

/// What is only watched is never written in, and is read with the observer's bot.
pub proof fn lemma_watched_guilds_are_never_written(server: KurouServer, config: Config, guild: u64)
    requires
        hats(config) is Ok,
        wears(server, hats(config)->Ok_0),
        server.watched().contains(guild),
    ensures
        !server.writable(guild),
        server.reader(guild) == Voice::Observer,
{
    lemma_a_guild_wears_one_hat(config, guild);
}

/// A copy of a list of ids.
pub fn copy_ids(v: &Vec<u64>) -> (r: Vec<u64>)
    ensures
        r@ == v@,
{
    let mut r: Vec<u64> = Vec::new();
    let mut i: usize = 0;
    while i < v.len()
        invariant
            i <= v@.len(),
            r@ == v@.take(i as int),
        decreases v@.len() - i,
    {
        r.push(v[i]);
        i = i + 1;
        assert(v@.take(i as int) =~= v@.take(i - 1).push(v@[i - 1]));
    }
    assert(v@.take(i as int) =~= v@);
    r
}

} // verus!
