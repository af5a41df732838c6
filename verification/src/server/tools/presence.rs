//! Steering the primary bot's dot.

use vstd::prelude::*;

use crate::server::tools::common::{caller_identity, identity_of, Caller, NOBODY};
use crate::server::tools::hands::is_voice_of;
use crate::server::{voiceless_text, KurouServer, Voice};
use crate::text::{blank, is_blank, same};

verus! {

pub struct PresenceRequest {
    pub status: String,
    pub text: Option<String>,
}

/// What the dot can show.
#[derive(Clone, Copy, Debug, PartialEq, Eq, Structural)]
pub enum OnlineStatus {
    Online,
    Idle,
    DoNotDisturb,
    Invisible,
}

/// The status of a name, if it is one's name.
pub open spec fn status_of(name: Seq<char>) -> Option<OnlineStatus> {
    if name == "online"@ {
        Some(OnlineStatus::Online)
    } else if name == "idle"@ {
        Some(OnlineStatus::Idle)
    } else if name == "dnd"@ {
        Some(OnlineStatus::DoNotDisturb)
    } else if name == "invisible"@ {
        Some(OnlineStatus::Invisible)
    } else {
        None
    }
}

impl OnlineStatus {
    pub open spec fn name(self) -> Seq<char> {
        match self {
            OnlineStatus::Online => "online"@,
            OnlineStatus::Idle => "idle"@,
            OnlineStatus::DoNotDisturb => "donotdisturb"@,
            OnlineStatus::Invisible => "invisible"@,
        }
    }

    /// The status as the reply spells it.
    pub fn label(&self) -> (r: &'static str)
        ensures
            r@ == self.name(),
    {
        match self {
            OnlineStatus::Online => "online",
            OnlineStatus::Idle => "idle",
            OnlineStatus::DoNotDisturb => "donotdisturb",
            OnlineStatus::Invisible => "invisible",
        }
    }
}

pub open spec fn no_status_text(name: Seq<char>) -> Seq<char> {
    "'"@ + name + "' is not a presence the dot knows: online, idle, dnd, invisible"@
}

pub const NO_DOT: &'static str =
    "the dot is not steerable here: no WAKE_URL, so presence stays the gateway's own";

pub const NOT_READY: &'static str = "the gateway has not reached ready yet - no dot to steer";

pub const NOT_YOURS: &'static str = "the dot belongs to the primary bot, and your voice is not it";

/// Who would steer the dot, and to what.
pub struct PresencePlan {
    pub status: OnlineStatus,
    pub voice: Voice,
    pub text: Option<String>,
}

/// What is wrong with a request to steer, if anything is; the first thing.
pub open spec fn presence_fault(server: KurouServer, caller: Caller, req: PresenceRequest) -> Option<
    Seq<char>,
> {
    if status_of(req.status@) is None {
        Some(no_status_text(req.status@))
    } else if !server.presence {
        Some(NO_DOT@)
    } else if identity_of(caller) is None {
        Some(NOBODY@)
    } else if !server.has_voice(identity_of(caller)->0) {
        Some(voiceless_text(identity_of(caller)->0))
    } else {
        None
    }
}

impl KurouServer {
    /// Plans to steer the dot: to a status it knows, where it can be steered, with the caller's
    /// own voice; a blank line of text clears it.
    pub fn set_presence(&self, caller: &Caller, req: &PresenceRequest) -> (r: Result<
        PresencePlan,
        String,
    >)
        ensures
            match presence_fault(*self, *caller, *req) {
                Some(text) => r matches Err(e) && e@ == text,
                None => r matches Ok(plan) && {
                    &&& Some(plan.status) == status_of(req.status@)
                    &&& is_voice_of(plan.voice, identity_of(*caller)->0)
                    &&& plan.text == match req.text {
                        Some(text) if !is_blank(text@) => Some(text),
                        _ => None,
                    }
                },
            },
    {
        let name = req.status.as_str();
        let status = if same(name, "online") {
            OnlineStatus::Online
        } else if same(name, "idle") {
            OnlineStatus::Idle
        } else if same(name, "dnd") {
            OnlineStatus::DoNotDisturb
        } else if same(name, "invisible") {
            OnlineStatus::Invisible
        } else {
            let mut s = "'".to_owned();
            s.append(name);
            s.append("' is not a presence the dot knows: online, idle, dnd, invisible");
            return Err(s);
        };
        if !self.presence {
            return Err(NO_DOT.to_owned());
        }
        let label = match caller_identity(caller) {
            Ok(label) => label,
            Err(e) => {
                return Err(e);
            },
        };
        let voice = match self.sender_for(label.as_str()) {
            Ok(voice) => voice,
            Err(e) => {
                return Err(e);
            },
        };
        let text = match &req.text {
            Some(text) => if blank(text.as_str()) {
                None
            } else {
                Some(text.clone())
            },
            None => None,
        };
        Ok(PresencePlan { status, voice, text })
    }
}

/// Whether a caller's bot may steer the dot, given the bot that holds it, if the gateway has
/// one yet: only the bot it belongs to.
pub fn may_steer(holder: Option<u64>, caller_bot: u64) -> (r: Result<(), String>)
    ensures
        match holder {
            None => r matches Err(e) && e@ == NOT_READY@,
            Some(id) => if id == caller_bot {
                r == Ok::<(), String>(())
            } else {
                r matches Err(e) && e@ == NOT_YOURS@
            },
        },
{
    match holder {
        None => Err(NOT_READY.to_owned()),
        Some(id) => {
            if id == caller_bot {
                Ok(())
            } else {
                Err(NOT_YOURS.to_owned())
            }
        },
    }
}

} // verus!
