//! The guilds the crow can read, and what each is to it.

use vstd::prelude::*;

use crate::server::KurouServer;
use crate::text::{decimal, number};

verus! {

pub struct ServerInfoRequest {
    pub guild_id: Option<String>,
}

/// A guild's line in the list.
pub struct ServerEntry {
    pub id: String,
    pub role: &'static str,
    pub name: Option<String>,
    pub member_count: Option<u64>,
}

/// A guild and what it is to the crow.
pub struct Target {
    pub guild: u64,
    pub role: &'static str,
}

/// A guild and what it is to the crow, as mathematical values.
pub open spec fn target_views(v: Seq<Target>) -> Seq<(u64, Seq<char>)> {
    v.map_values(|t: Target| (t.guild, t.role@))
}

pub open spec fn with_role(guilds: Seq<u64>, role: Seq<char>) -> Seq<(u64, Seq<char>)> {
    guilds.map_values(|g: u64| (g, role))
}

impl KurouServer {
    /// The guilds in order: the home guild, the secondary ones, those only watched.
    pub open spec fn targets(self) -> Seq<(u64, Seq<char>)> {
        (match self.default_guild {
            Some(guild) => seq![(guild, "primary"@)],
            None => seq![],
        }) + with_role(self.secondary_guilds@, "secondary"@) + with_role(self.watched(), "readonly"@)
    }

    /// The guilds the crow can read, each with what it is.
    pub fn list_servers(&self) -> (r: Vec<Target>)
        ensures
            target_views(r@) == self.targets(),
    {
        let mut r: Vec<Target> = Vec::new();
        if let Some(guild) = self.default_guild {
            r.push(Target { guild, role: "primary" });
        }
        let ghost first: Seq<(u64, Seq<char>)> = match self.default_guild {
            Some(guild) => seq![(guild, "primary"@)],
            None => seq![],
        };
        assert(target_views(r@) =~= first);
        add_role(&mut r, &self.secondary_guilds, "secondary");
        let watched = self.readonly_guilds();
        add_role(&mut r, &watched, "readonly");
        r
    }
}

fn add_role(r: &mut Vec<Target>, guilds: &Vec<u64>, role: &'static str)
    ensures
        target_views(final(r)@) == target_views(old(r)@) + with_role(guilds@, role@),
{
    let ghost before = target_views(r@);
    let ghost wanted = with_role(guilds@, role@);
    let mut i: usize = 0;
    assert(target_views(r@) =~= before + wanted.take(0));
    while i < guilds.len()
        invariant
            i <= guilds@.len(),
            before == target_views(old(r)@),
            wanted == with_role(guilds@, role@),
            target_views(r@) == before + wanted.take(i as int),
        decreases guilds@.len() - i,
    {
        let ghost so_far = target_views(r@);
        r.push(Target { guild: guilds[i], role });
        i = i + 1;
        assert(target_views(r@) =~= so_far.push((guilds@[i - 1], role@)));
        assert(wanted.take(i as int) =~= wanted.take(i - 1).push(wanted[i - 1]));
        assert(target_views(r@) =~= before + wanted.take(i as int));
    }
    assert(wanted.take(i as int) =~= wanted);
}

/// A guild's line, with what was found out about it, if anything was.
pub fn server_entry(target: &Target, name: Option<String>, member_count: Option<u64>) -> (r: ServerEntry)
    ensures
        r.id@ == decimal(target.guild as nat),
        r.role@ == target.role@,
        r.name == name,
        r.member_count == member_count,
{
    ServerEntry { id: number(target.guild), role: target.role, name, member_count }
}

} // verus!
