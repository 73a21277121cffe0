//! What the client knows about the outside world right now, as far as the
//! screens show it. Keeping it up to date is the store's business.

use vstd::prelude::*;
use crate::gateway::member_list::MemberList;
use crate::gateway::status::Status;
use crate::model::{
    role_tint, Asset, Channel, ChannelId, GuildId, Member, Message, Role, RoleId, UserId,
};
use crate::model::asset::{guild_icon_place, Place};
use crate::model::{opt_place, opt_text};

verus! {

/// A folder of the sidebar.
#[derive(Debug, Clone, PartialEq, Eq)]
pub struct FolderRow {
    /// Unnamed folders show their contents' names.
    pub name: Option<String>,
    /// The colour the user chose, if any.
    pub color: Option<u32>,
    /// The guilds inside, in order.
    pub guilds: Vec<GuildId>,
}

/// One entry of the sidebar, in order. Unavailable guilds are left out, and the
/// contents of a folder follow it.
#[derive(Debug, Clone, PartialEq, Eq)]
pub enum GuildEntry {
    Folder { id: u64, row: FolderRow },
    Guild { id: GuildId, name: String, in_folder: bool },
}

/// One entry of a guild's channel list, in order.
#[derive(Debug, Clone, PartialEq, Eq)]
pub enum ChannelEntry {
    /// A heading, not something that opens.
    Category(Channel),
    Channel(Channel),
}

/// A guild as the screens need it.
#[derive(Debug, Clone, PartialEq, Eq)]
pub struct GuildState {
    pub id: GuildId,
    pub name: String,
    pub icon_hash: Option<String>,
    /// Rolled up from the channels inside.
    pub unread: bool,
    pub mentions: u32,
    pub roles: Vec<Role>,
    /// The channels to show, in order.
    pub entries: Vec<ChannelEntry>,
    /// The member list, once it arrived.
    pub members: Option<MemberList>,
    /// Whether more member rows were asked for than have arrived.
    pub members_pending: bool,
}

/// A channel as the screens need it.
#[derive(Debug, PartialEq, Eq)]
pub struct ChannelState {
    pub id: ChannelId,
    pub unread: bool,
    pub mentions: u32,
    /// The messages held, oldest first.
    pub messages: Vec<Message>,
    pub loading: bool,
    /// Whether an older page is on its way.
    pub paging_older: bool,
    /// Who is typing.
    pub typing: Vec<String>,
}

/// A member seen in a list or in an earlier message.
#[derive(Debug, Clone, PartialEq, Eq)]
pub struct SeenMember {
    pub guild: GuildId,
    pub user: UserId,
    pub member: Member,
}

/// What the client knows.
#[derive(Debug, PartialEq, Eq)]
pub struct Live {
    pub sidebar: Vec<GuildEntry>,
    pub guilds: Vec<GuildState>,
    pub channels: Vec<ChannelState>,
    pub seen: Vec<SeenMember>,
    /// The folders that are folded.
    pub collapsed: Vec<u64>,
    /// What to say about the connection, while it is not simply there.
    pub link_hint: Option<String>,
    /// Our own status, where it could be read.
    pub status: Option<Status>,
}

// ── looking things up ──────────────────────────────────────────────────────

pub open spec fn guild_from(gs: Seq<GuildState>, id: GuildId, k: int) -> Option<GuildState>
    decreases gs.len() - k,
{
    if k < 0 || k >= gs.len() {
        None
    } else if gs[k].id == id {
        Some(gs[k])
    } else {
        guild_from(gs, id, k + 1)
    }
}

pub open spec fn channel_from(cs: Seq<ChannelState>, id: ChannelId, k: int) -> Option<ChannelState>
    decreases cs.len() - k,
{
    if k < 0 || k >= cs.len() {
        None
    } else if cs[k].id == id {
        Some(cs[k])
    } else {
        channel_from(cs, id, k + 1)
    }
}

pub open spec fn seen_from(ms: Seq<SeenMember>, guild: GuildId, user: UserId, k: int) -> Option<
    Member,
>
    decreases ms.len() - k,
{
    if k < 0 || k >= ms.len() {
        None
    } else if ms[k].guild == guild && ms[k].user == user {
        Some(ms[k].member)
    } else {
        seen_from(ms, guild, user, k + 1)
    }
}

pub open spec fn role_from(rs: Seq<Role>, id: RoleId, k: int) -> Option<Role>
    decreases rs.len() - k,
{
    if k < 0 || k >= rs.len() {
        None
    } else if rs[k].id == id {
        Some(rs[k])
    } else {
        role_from(rs, id, k + 1)
    }
}

/// The topmost coloured role that a member has, among the first `n` of the
/// guild's roles. Of two at the same height the one listed first counts.
pub open spec fn top_coloured(rs: Seq<Role>, held: Seq<RoleId>, n: nat) -> Option<Role>
    decreases n,
{
    if n == 0 || n > rs.len() {
        None
    } else {
        let r = rs[n - 1];
        let best = top_coloured(rs, held, (n - 1) as nat);
        if held.contains(r.id) && role_tint(r.color) is Some && (match best {
            Some(b) => r.position > b.position,
            None => true,
        }) {
            Some(r)
        } else {
            best
        }
    }
}

impl Live {
    pub open spec fn guild_spec(self, id: GuildId) -> Option<GuildState> {
        guild_from(self.guilds@, id, 0)
    }

    pub open spec fn channel_spec(self, id: ChannelId) -> Option<ChannelState> {
        channel_from(self.channels@, id, 0)
    }

    pub open spec fn member_spec(self, guild: GuildId, user: UserId) -> Option<Member> {
        seen_from(self.seen@, guild, user, 0)
    }

    /// Whether a guild has anything unread, and how many mentions.
    pub open spec fn unread_spec(self, id: GuildId) -> (bool, u32) {
        match self.guild_spec(id) {
            Some(g) => (g.unread, g.mentions),
            None => (false, 0),
        }
    }

    pub open spec fn icon_spec(self, id: GuildId) -> Option<Place> {
        match self.guild_spec(id) {
            Some(g) => match opt_text(g.icon_hash) {
                Some(h) => Some(guild_icon_place(g.id, h)),
                None => None,
            },
            None => None,
        }
    }

    /// The colour of a member's name.
    pub open spec fn tint_spec(self, guild: GuildId, held: Seq<RoleId>) -> Option<u32> {
        match self.guild_spec(guild) {
            Some(g) => match top_coloured(g.roles@, held, g.roles@.len()) {
                Some(r) => role_tint(r.color),
                None => None,
            },
            None => None,
        }
    }

    pub open spec fn role_name_spec(self, guild: GuildId, id: RoleId) -> Option<Seq<char>> {
        match self.guild_spec(guild) {
            Some(g) => match role_from(g.roles@, id, 0) {
                Some(r) => Some(r.name@),
                None => None,
            },
            None => None,
        }
    }

    /// Whether nothing is known.
    pub open spec fn is_new(self) -> bool {
        &&& self.sidebar@.len() == 0
        &&& self.guilds@.len() == 0
        &&& self.channels@.len() == 0
        &&& self.seen@.len() == 0
        &&& self.collapsed@.len() == 0
        &&& self.link_hint is None
        &&& self.status is None
    }

    /// Knowing nothing.
    pub fn new() -> (r: Live)
        ensures
            r.is_new(),
    {
        Live {
            sidebar: Vec::new(),
            guilds: Vec::new(),
            channels: Vec::new(),
            seen: Vec::new(),
            collapsed: Vec::new(),
            link_hint: None,
            status: None,
        }
    }

    /// Whether there is anything to show.
    pub fn is_empty(&self) -> (r: bool)
        ensures
            r == (self.guilds@.len() == 0),
    {
        self.guilds.len() == 0
    }

    pub fn guild(&self, id: GuildId) -> (r: Option<&GuildState>)
        ensures
            match r {
                Some(g) => self.guild_spec(id) == Some(*g),
                None => self.guild_spec(id) is None,
            },
    {
        let mut k: usize = 0;
        while k < self.guilds.len()
            invariant
                k <= self.guilds@.len(),
                self.guild_spec(id) == guild_from(self.guilds@, id, k as int),
            decreases self.guilds@.len() - k,
        {
            if self.guilds[k].id == id {
                return Some(&self.guilds[k]);
            }
            k += 1;
        }
        None
    }

    pub fn channel(&self, id: ChannelId) -> (r: Option<&ChannelState>)
        ensures
            match r {
                Some(c) => self.channel_spec(id) == Some(*c),
                None => self.channel_spec(id) is None,
            },
    {
        let mut k: usize = 0;
        while k < self.channels.len()
            invariant
                k <= self.channels@.len(),
                self.channel_spec(id) == channel_from(self.channels@, id, k as int),
            decreases self.channels@.len() - k,
        {
            if self.channels[k].id == id {
                return Some(&self.channels[k]);
            }
            k += 1;
        }
        None
    }

    pub fn member(&self, guild: GuildId, user: UserId) -> (r: Option<&Member>)
        ensures
            match r {
                Some(m) => self.member_spec(guild, user) == Some(*m),
                None => self.member_spec(guild, user) is None,
            },
    {
        let mut k: usize = 0;
        while k < self.seen.len()
            invariant
                k <= self.seen@.len(),
                self.member_spec(guild, user) == seen_from(self.seen@, guild, user, k as int),
            decreases self.seen@.len() - k,
        {
            if self.seen[k].guild == guild && self.seen[k].user == user {
                return Some(&self.seen[k].member);
            }
            k += 1;
        }
        None
    }

    pub fn guild_unread(&self, id: GuildId) -> (r: (bool, u32))
        ensures
            r == self.unread_spec(id),
    {
        match self.guild(id) {
            Some(g) => (g.unread, g.mentions),
            None => (false, 0),
        }
    }

    pub fn guild_icon(&self, id: GuildId) -> (r: Option<Asset>)
        ensures
            opt_place(r) == self.icon_spec(id),
    {
        match self.guild(id) {
            Some(g) => match &g.icon_hash {
                Some(h) => Some(Asset::guild_icon(g.id, h.as_str())),
                None => None,
            },
            None => None,
        }
    }

    pub fn is_collapsed(&self, folder: u64) -> (r: bool)
        ensures
            r == self.collapsed@.contains(folder),
    {
        let mut k: usize = 0;
        while k < self.collapsed.len()
            invariant
                k <= self.collapsed@.len(),
                forall|i: int| 0 <= i < k ==> self.collapsed@[i] != folder,
            decreases self.collapsed@.len() - k,
        {
            if self.collapsed[k] == folder {
                assert(self.collapsed@[k as int] == folder);
                return true;
            }
            k += 1;
        }
        false
    }

    /// The colour of a member's name: that of the topmost coloured role.
    pub fn member_tint(&self, guild: GuildId, held: &Vec<RoleId>) -> (r: Option<u32>)
        ensures
            r == self.tint_spec(guild, held@),
    {
        let g = match self.guild(guild) {
            Some(g) => g,
            None => return None,
        };
        let mut best: Option<usize> = None;
        let mut n: usize = 0;
        while n < g.roles.len()
            invariant
                n <= g.roles@.len(),
                match best {
                    Some(b) => b < n && top_coloured(g.roles@, held@, n as nat) == Some(
                        g.roles@[b as int],
                    ),
                    None => top_coloured(g.roles@, held@, n as nat) is None,
                },
            decreases g.roles@.len() - n,
        {
            let r = &g.roles[n];
            let higher = match best {
                Some(b) => r.position > g.roles[b].position,
                None => true,
            };
            if higher && r.tint().is_some() && holds(held, r.id) {
                best = Some(n);
            }
            n += 1;
        }
        match best {
            Some(b) => g.roles[b].tint(),
            None => None,
        }
    }

    pub fn role_name(&self, guild: GuildId, id: RoleId) -> (r: Option<&str>)
        ensures
            match r {
                Some(n) => self.role_name_spec(guild, id) == Some(n@),
                None => self.role_name_spec(guild, id) is None,
            },
    {
        let g = match self.guild(guild) {
            Some(g) => g,
            None => return None,
        };
        let mut k: usize = 0;
        while k < g.roles.len()
            invariant
                k <= g.roles@.len(),
                self.guild_spec(guild) == Some(*g),
                role_from(g.roles@, id, 0) == role_from(g.roles@, id, k as int),
            decreases g.roles@.len() - k,
        {
            if g.roles[k].id == id {
                return Some(g.roles[k].name.as_str());
            }
            k += 1;
        }
        None
    }
}

pub fn holds(held: &Vec<RoleId>, id: RoleId) -> (r: bool)
    ensures
        r == held@.contains(id),
{
    let mut k: usize = 0;
    while k < held.len()
        invariant
            k <= held@.len(),
            forall|i: int| 0 <= i < k ==> held@[i] != id,
        decreases held@.len() - k,
    {
        if held[k] == id {
            assert(held@[k as int] == id);
            return true;
        }
        k += 1;
    }
    false
}

/// The colour comes from a role that the member has and that has one, and no
/// coloured role that the member has stands higher.
pub proof fn the_topmost_colour_wins(rs: Seq<Role>, held: Seq<RoleId>, n: nat, i: int)
    requires
        0 <= i < n <= rs.len(),
        held.contains(rs[i].id),
        role_tint(rs[i].color) is Some,
    ensures
        top_coloured(rs, held, n) matches Some(b) && held.contains(b.id) && role_tint(b.color)
            is Some && b.position >= rs[i].position,
    decreases n,
{
    lemma_top_holds(rs, held, (n - 1) as nat);
    if i < n - 1 {
        the_topmost_colour_wins(rs, held, (n - 1) as nat, i);
    }
}

proof fn lemma_top_holds(rs: Seq<Role>, held: Seq<RoleId>, n: nat)
    requires
        n <= rs.len(),
    ensures
        top_coloured(rs, held, n) matches Some(b) ==> held.contains(b.id) && role_tint(b.color)
            is Some,
    decreases n,
{
    if n > 0 {
        lemma_top_holds(rs, held, (n - 1) as nat);
    }
}

} // verus!
