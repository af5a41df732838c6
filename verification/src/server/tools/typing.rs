//! The typing indicator, once, in the caller's own voice.

use vstd::prelude::*;

use crate::server::boot::snowflake;
use crate::server::tools::common::{
    caller_identity, identity_of, invalid_text, parse_channel, Caller, NOBODY,
};
use crate::server::tools::hands::is_voice_of;
use crate::server::{voiceless_text, KurouServer, Voice};

verus! {

pub struct TypingRequest {
    pub channel_id: String,
}

/// What is wrong with a request to type, if anything is; the first thing.
pub open spec fn typing_fault(server: KurouServer, caller: Caller, req: TypingRequest) -> Option<Seq<char>> {
    if identity_of(caller) is None {
        Some(NOBODY@)
    } else if !server.has_voice(identity_of(caller)->0) {
        Some(voiceless_text(identity_of(caller)->0))
    } else if snowflake(req.channel_id@) is None {
        Some(invalid_text(req.channel_id@, "snowflake id"@))
    } else {
        None
    }
}

impl KurouServer {
    /// Plans to raise the typing indicator: with the caller's own bot or not at all.
    pub fn typing(&self, caller: &Caller, req: &TypingRequest) -> (r: Result<(Voice, u64), String>)
        requires
            self.speaks(*caller) ==> snowflake(req.channel_id@) != Some(0u64),
        ensures
            match typing_fault(*self, *caller, *req) {
                Some(text) => r matches Err(e) && e@ == text,
                None => r matches Ok((voice, channel)) && is_voice_of(
                    voice,
                    identity_of(*caller)->0,
                ) && Some(channel) == snowflake(req.channel_id@),
            },
    {
        let label = match caller_identity(caller) {
            Ok(label) => label,
            Err(e) => {
                return Err(e);
            },
        };
        let voice = match self.sender_for(label.as_str()) {
            Ok(voice) => voice,
            Err(e) => {
                return Err(e);
            },
        };
        match parse_channel(req.channel_id.as_str()) {
            Ok(channel) => Ok((voice, channel)),
            Err(e) => Err(e),
        }
    }
}

} // verus!
