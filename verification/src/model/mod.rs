//! Domain types.
//!
//! Only fields this client uses are declared; the rest are dropped. Enums keep
//! an unknown variant, because kinds are added without notice and refusing to
//! draw beats failing to read.

pub mod asset;
pub mod de;
pub mod identity;
pub mod kind;
pub mod laws;
pub mod snowflake;
pub mod token;

pub use asset::{Asset, Format};
pub use kind::ChannelKind;
pub use snowflake::{
    AttachmentId, ChannelId, EmojiId, GuildId, MessageId, RoleId, Snowflake, UserId,
};
pub use token::Token;

use vstd::prelude::*;
use vstd::string::*;
use crate::text;

verus! {

pub open spec fn opt_text(s: Option<String>) -> Option<Seq<char>> {
    match s {
        Some(t) => Some(t@),
        None => None,
    }
}

// ── users ──────────────────────────────────────────────────────────────────

#[derive(Debug, Clone, PartialEq, Eq)]
pub struct User {
    pub id: UserId,
    /// The unique handle. Not what is shown: see [`User::display_name`].
    pub username: String,
    pub global_name: Option<String>,
    /// The legacy four digits.
    ///
    /// Migrated users report `"0"`, but bots keep theirs, and the default
    /// avatar is chosen differently in each scheme. Dropping this changes a
    /// bot's face, so it is kept.
    pub discriminator: String,
    /// The avatar hash, not a URL: see [`User::avatar`].
    pub avatar_hash: Option<String>,
    pub bot: bool,
}

/// [`User`] with the text as character sequences.
pub ghost struct UserView {
    pub id: UserId,
    pub username: Seq<char>,
    pub global_name: Option<Seq<char>>,
    pub discriminator: Seq<char>,
    pub avatar_hash: Option<Seq<char>>,
    pub bot: bool,
}

impl View for User {
    type V = UserView;

    open spec fn view(&self) -> UserView {
        UserView {
            id: self.id,
            username: self.username@,
            global_name: opt_text(self.global_name),
            discriminator: self.discriminator@,
            avatar_hash: opt_text(self.avatar_hash),
            bot: self.bot,
        }
    }
}

/// The name to show: the chosen one, else the handle.
pub open spec fn user_name(u: UserView) -> Seq<char> {
    match u.global_name {
        Some(g) => g,
        None => u.username,
    }
}

pub open spec fn all_zero(s: Seq<char>) -> bool {
    forall|i: int| 0 <= i < s.len() ==> #[trigger] s[i] == '0'
}

/// The legacy digits, where there are any: neither blank nor all zeros.
pub open spec fn user_tag(u: UserView) -> Option<Seq<char>> {
    let d = text::trim(u.discriminator);
    if d.len() == 0 || all_zero(d) {
        None
    } else {
        Some(d)
    }
}

/// Which built-in avatar a user gets: by the legacy digits where they are a
/// number, else by the id.
pub open spec fn avatar_index(u: UserView) -> u64 {
    let digits = match user_tag(u) {
        Some(d) => snowflake::id_of(d),
        None => None,
    };
    match digits {
        Some(d) => d % 5,
        None => (u.id.0.0 / 0x40_0000) % 6,
    }
}

pub open spec fn user_place(u: UserView) -> Option<asset::Place> {
    match u.avatar_hash {
        Some(h) => Some(asset::user_avatar_place(u.id, h)),
        None => None,
    }
}

/// The face to show: the chosen one, else the built-in one.
pub open spec fn user_face(u: UserView) -> asset::Place {
    match user_place(u) {
        Some(p) => p,
        None => asset::default_avatar_place(avatar_index(u)),
    }
}

pub open spec fn opt_place(a: Option<Asset>) -> Option<asset::Place> {
    match a {
        Some(a) => Some(a@),
        None => None,
    }
}

impl User {
    pub fn display_name(&self) -> (r: &str)
        ensures
            r@ == user_name(self@),
    {
        match &self.global_name {
            Some(g) => g.as_str(),
            None => self.username.as_str(),
        }
    }

    /// The legacy four digits, absent for migrated users.
    ///
    /// `"0"` and `"0000"` both mean absent. `Some` is broadly a bot, since
    /// bots were not migrated.
    pub fn tag(&self) -> (r: Option<&str>)
        ensures
            match r {
                Some(d) => user_tag(self@) == Some(d@),
                None => user_tag(self@) is None,
            },
    {
        let d = text::trimmed(self.discriminator.as_str());
        let c = text::chars(d);
        let mut i: usize = 0;
        while i < c.len()
            invariant
                i <= c.len(),
                c@ == d@,
                d@ == text::trim(self@.discriminator),
                forall|k: int| 0 <= k < i ==> #[trigger] c@[k] == '0',
            decreases c.len() - i,
        {
            if c[i] != '0' {
                assert(d@[i as int] != '0');
                return Some(d);
            }
            i += 1;
        }
        None
    }

    /// The avatar the user set, if any.
    pub fn avatar(&self) -> (r: Option<Asset>)
        ensures
            opt_place(r) == user_place(self@),
    {
        match &self.avatar_hash {
            Some(h) => Some(Asset::user_avatar(self.id, h.as_str())),
            None => None,
        }
    }

    /// Which built-in avatar this user gets.
    ///
    /// ```text
    ///   legacy (has four digits)   digits % 5      -> 0..4
    ///   current (digits are "0")   (id >> 22) % 6  -> 0..5
    /// ```
    pub fn default_avatar_index(&self) -> (r: u64)
        ensures
            r == avatar_index(self@),
            r < 6,
    {
        if let Some(d) = self.tag() {
            if let Ok(n) = Snowflake::from_str(d) {
                return n.0 % 5;
            }
        }
        (self.id.get() / 0x40_0000) % 6
    }

    /// The built-in avatar. Always exists, and cannot be resized so that one
    /// copy is shared across users.
    pub fn default_avatar(&self) -> (r: Asset)
        ensures
            r@ == asset::default_avatar_place(avatar_index(self@)),
    {
        Asset::default_avatar(self.default_avatar_index())
    }

    /// The avatar to show. Always exists.
    ///
    /// Per-guild avatars are invisible here; inside a guild use
    /// [`Member::display_avatar`].
    pub fn display_avatar(&self) -> (r: Asset)
        ensures
            r@ == user_face(self@),
    {
        match self.avatar() {
            Some(a) => a,
            None => self.default_avatar(),
        }
    }
}

// ── roles and members ──────────────────────────────────────────────────────

#[derive(Debug, Clone, PartialEq, Eq)]
pub struct Role {
    pub id: RoleId,
    pub name: String,
    /// Higher is above. The topmost coloured role decides a name's colour.
    pub position: i64,
    /// Whether the member list gives this role its own heading.
    pub hoist: bool,
    /// `0xRRGGBB`. Zero means uncoloured, not black.
    pub color: Option<u32>,
}

/// [`Role`] with the text as character sequences.
pub ghost struct RoleView {
    pub id: RoleId,
    pub name: Seq<char>,
    pub position: i64,
    pub hoist: bool,
    pub color: Option<u32>,
}

impl View for Role {
    type V = RoleView;

    open spec fn view(&self) -> RoleView {
        RoleView {
            id: self.id,
            name: self.name@,
            position: self.position,
            hoist: self.hoist,
            color: self.color,
        }
    }
}

pub open spec fn roles_of(v: Seq<Role>) -> Seq<RoleView> {
    Seq::new(v.len(), |i: int| v[i]@)
}

/// The colour, if one is set: zero is none.
pub open spec fn role_tint(color: Option<u32>) -> Option<u32> {
    match color {
        Some(c) if c != 0 => Some(c),
        _ => None,
    }
}

impl Role {
    /// The colour, if one is set.
    ///
    /// Zero means uncoloured; painting it black would make every name
    /// unreadable. Where the colour is applied is the theme's decision.
    pub fn tint(&self) -> (r: Option<u32>)
        ensures
            r == role_tint(self.color),
    {
        match self.color {
            Some(c) => if c != 0 {
                Some(c)
            } else {
                None
            },
            None => None,
        }
    }
}

/// A member of a guild.
///
/// The same person has a different name and face per guild. Only the
/// overrides are stored; where absent, the [`User`] values apply.
///
/// A member does not know which guild it belongs to, so
/// [`Member::guild_avatar`] takes the guild as an argument.
#[derive(Debug, Clone, PartialEq, Eq)]
pub struct Member {
    pub nick: Option<String>,
    /// The per-guild avatar hash, not a URL.
    pub avatar_hash: Option<String>,
    pub roles: Vec<RoleId>,
    /// ISO 8601. Formatting belongs to the layer above.
    pub joined_at: Option<String>,
    /// Often absent: the member on a message does not say who sent it; that is
    /// the message's author.
    pub user: Option<User>,
}

/// [`Member`] with the text as character sequences.
pub ghost struct MemberView {
    pub nick: Option<Seq<char>>,
    pub avatar_hash: Option<Seq<char>>,
    pub roles: Seq<RoleId>,
    pub joined_at: Option<Seq<char>>,
    pub user: Option<UserView>,
}

pub open spec fn opt_user(u: Option<User>) -> Option<UserView> {
    match u {
        Some(u) => Some(u@),
        None => None,
    }
}

impl View for Member {
    type V = MemberView;

    open spec fn view(&self) -> MemberView {
        MemberView {
            nick: opt_text(self.nick),
            avatar_hash: opt_text(self.avatar_hash),
            roles: self.roles@,
            joined_at: opt_text(self.joined_at),
            user: opt_user(self.user),
        }
    }
}

/// The name to show in a guild: the nickname, else the member's own user's
/// name, else that of the user given.
pub open spec fn member_name(m: MemberView, user: UserView) -> Seq<char> {
    match m.nick {
        Some(n) => n,
        None => match m.user {
            Some(u) => user_name(u),
            None => user_name(user),
        },
    }
}

pub open spec fn member_place(m: MemberView, guild: GuildId, user: UserId) -> Option<asset::Place> {
    match m.avatar_hash {
        Some(h) => Some(asset::member_avatar_place(guild, user, h)),
        None => None,
    }
}

/// The face to show in a guild: the guild's, else the user's, else the
/// built-in one.
pub open spec fn member_face(m: MemberView, guild: GuildId, user: UserView) -> asset::Place {
    match member_place(m, guild, user.id) {
        Some(p) => p,
        None => user_face(user),
    }
}

impl Member {
    /// Nickname, then chosen name, then handle.
    ///
    /// Some members carry no user, so the caller supplies one.
    pub fn display_name<'a>(&'a self, user: &'a User) -> (r: &'a str)
        ensures
            r@ == member_name(self@, user@),
    {
        match &self.nick {
            Some(n) => n.as_str(),
            None => match &self.user {
                Some(u) => u.display_name(),
                None => user.display_name(),
            },
        }
    }

    pub fn guild_avatar(&self, guild: GuildId, user: UserId) -> (r: Option<Asset>)
        ensures
            opt_place(r) == member_place(self@, guild, user),
    {
        match &self.avatar_hash {
            Some(h) => Some(Asset::member_avatar(guild, user, h.as_str())),
            None => None,
        }
    }

    /// Guild avatar, then user avatar, then built-in avatar. Always exists.
    pub fn display_avatar(&self, guild: GuildId, user: &User) -> (r: Asset)
        ensures
            r@ == member_face(self@, guild, user@),
    {
        match self.guild_avatar(guild, user.id) {
            Some(a) => a,
            None => user.display_avatar(),
        }
    }
}

// ── channels ───────────────────────────────────────────────────────────────

/// A channel. DMs use the same type.
#[derive(Debug, Clone, PartialEq, Eq)]
pub struct Channel {
    pub id: ChannelId,
    pub kind: ChannelKind,
    /// Absent for DMs.
    pub name: Option<String>,
    pub guild_id: Option<GuildId>,
    /// The category this belongs to.
    pub parent_id: Option<ChannelId>,
    /// Sort order; ties break by id.
    pub position: i32,
    pub topic: Option<String>,
    pub nsfw: bool,
    /// The other side of a DM or group DM.
    pub recipients: Vec<User>,
    /// The newest message here, used to decide unread state. It may point at a
    /// deleted message; only the comparison matters.
    pub last_message_id: Option<MessageId>,
}

/// [`Channel`] with the text as character sequences.
pub ghost struct ChannelView {
    pub id: ChannelId,
    pub kind: ChannelKind,
    pub name: Option<Seq<char>>,
    pub guild_id: Option<GuildId>,
    pub parent_id: Option<ChannelId>,
    pub position: i32,
    pub topic: Option<Seq<char>>,
    pub nsfw: bool,
    pub recipients: Seq<UserView>,
    pub last_message_id: Option<MessageId>,
}

pub open spec fn users_of(v: Seq<User>) -> Seq<UserView> {
    Seq::new(v.len(), |i: int| v[i]@)
}

impl View for Channel {
    type V = ChannelView;

    open spec fn view(&self) -> ChannelView {
        ChannelView {
            id: self.id,
            kind: self.kind,
            name: opt_text(self.name),
            guild_id: self.guild_id,
            parent_id: self.parent_id,
            position: self.position,
            topic: opt_text(self.topic),
            nsfw: self.nsfw,
            recipients: users_of(self.recipients@),
            last_message_id: self.last_message_id,
        }
    }
}

pub open spec fn channels_of(v: Seq<Channel>) -> Seq<ChannelView> {
    Seq::new(v.len(), |i: int| v[i]@)
}

/// The users' names with a comma between each two.
pub open spec fn names_listed(users: Seq<UserView>) -> Seq<char>
    decreases users.len(),
{
    if users.len() == 0 {
        seq![]
    } else if users.len() == 1 {
        user_name(users[0])
    } else {
        names_listed(users.drop_last()) + ", "@ + user_name(users.last())
    }
}

/// The name to show: DMs have none, so the recipients are listed instead.
pub open spec fn channel_name(c: ChannelView) -> Seq<char> {
    match c.name {
        Some(n) => n,
        None => names_listed(c.recipients),
    }
}

impl Channel {
    /// The name to show. DMs have none, so recipients are joined instead.
    pub fn display_name(&self) -> (r: String)
        ensures
            r@ == channel_name(self@),
    {
        if let Some(name) = &self.name {
            return name.clone();
        }
        let ghost users = users_of(self.recipients@);
        let mut out = String::new();
        let mut i: usize = 0;
        assert(out@ =~= names_listed(users.take(0)));
        while i < self.recipients.len()
            invariant
                i <= self.recipients.len(),
                users == users_of(self.recipients@),
                out@ == names_listed(users.take(i as int)),
            decreases self.recipients.len() - i,
        {
            assert(users.take(i + 1).drop_last() =~= users.take(i as int));
            assert(users.take(i + 1).last() == users[i as int]);
            if i > 0 {
                out.append(", ");
            }
            out.append(self.recipients[i].display_name());
            proof {
                if i == 0 {
                    assert(out@ =~= user_name(users[0]));
                }
            }
            i += 1;
        }
        assert(users.take(i as int) =~= users);
        out
    }
}

// ── guilds ─────────────────────────────────────────────────────────────────

/// A guild (server).
///
/// The name arrives in one of three shapes:
///
/// ```text
///   bot token       {"id": …, "name": "…", "icon": …}
///   user token      {"id": …, "properties": {"name": "…", "icon": …}, …}
///   unavailable     {"id": …, "unavailable": true}
/// ```
///
/// [`RawGuild`] absorbs all three, so only the flat shape survives here.
#[derive(Debug, Clone, PartialEq, Eq)]
pub struct Guild {
    pub id: GuildId,
    /// Empty for an unavailable guild, which arrives as an id alone.
    pub name: String,
    /// The icon hash, not a URL: see [`Guild::icon`].
    pub icon_hash: Option<String>,
    pub unavailable: bool,
    /// Sometimes absent at first and filled in later.
    pub channels: Vec<Channel>,
    /// Needed for member list headings. Absent for unavailable guilds.
    pub roles: Vec<Role>,
}

/// [`Guild`] with the text as character sequences.
pub ghost struct GuildView {
    pub id: GuildId,
    pub name: Seq<char>,
    pub icon_hash: Option<Seq<char>>,
    pub unavailable: bool,
    pub channels: Seq<ChannelView>,
    pub roles: Seq<RoleView>,
}

impl View for Guild {
    type V = GuildView;

    open spec fn view(&self) -> GuildView {
        GuildView {
            id: self.id,
            name: self.name@,
            icon_hash: opt_text(self.icon_hash),
            unavailable: self.unavailable,
            channels: channels_of(self.channels@),
            roles: roles_of(self.roles@),
        }
    }
}

pub open spec fn guilds_of(v: Seq<Guild>) -> Seq<GuildView> {
    Seq::new(v.len(), |i: int| v[i]@)
}

/// Holds all three shapes a guild arrives in. Use [`Guild`], not this.
#[derive(Debug)]
pub struct RawGuild {
    pub id: GuildId,
    pub name: Option<String>,
    pub icon: Option<String>,
    pub unavailable: bool,
    pub channels: Vec<Channel>,
    pub roles: Vec<Role>,
    /// Where a user token's guild has its name and icon.
    pub properties: Option<GuildProperties>,
}

#[derive(Debug)]
pub struct GuildProperties {
    pub name: Option<String>,
    pub icon: Option<String>,
}

pub open spec fn first_text(a: Option<Seq<char>>, b: Option<Seq<char>>) -> Option<Seq<char>> {
    match a {
        Some(_) => a,
        None => b,
    }
}

pub open spec fn property_name(p: Option<GuildProperties>) -> Option<Seq<char>> {
    match p {
        Some(p) => opt_text(p.name),
        None => None,
    }
}

pub open spec fn property_icon(p: Option<GuildProperties>) -> Option<Seq<char>> {
    match p {
        Some(p) => opt_text(p.icon),
        None => None,
    }
}

pub open spec fn or_empty(s: Option<Seq<char>>) -> Seq<char> {
    match s {
        Some(t) => t,
        None => seq![],
    }
}

impl Guild {
    /// The flat shape. The top level wins: `properties` is a fallback
    /// location, not an authority when the two disagree.
    pub fn from_raw(raw: RawGuild) -> (g: Guild)
        ensures
            g@ == (GuildView {
                id: raw.id,
                name: or_empty(first_text(opt_text(raw.name), property_name(raw.properties))),
                icon_hash: first_text(opt_text(raw.icon), property_icon(raw.properties)),
                unavailable: raw.unavailable,
                channels: channels_of(raw.channels@),
                roles: roles_of(raw.roles@),
            }),
    {
        let (p_name, p_icon) = match raw.properties {
            Some(p) => (p.name, p.icon),
            None => (None, None),
        };
        let name = match raw.name {
            Some(n) => n,
            None => match p_name {
                Some(n) => n,
                None => {
                    let empty = String::new();
                    assert(empty@ =~= seq![]);
                    empty
                },
            },
        };
        let icon_hash = match raw.icon {
            Some(i) => Some(i),
            None => p_icon,
        };
        Guild {
            id: raw.id,
            name,
            icon_hash,
            unavailable: raw.unavailable,
            channels: raw.channels,
            roles: raw.roles,
        }
    }

    /// The server icon, if one is set.
    ///
    /// Unlike users, guilds have no built-in icon; callers fall back to the
    /// initials.
    pub fn icon(&self) -> (r: Option<Asset>)
        ensures
            opt_place(r) == (match self@.icon_hash {
                Some(h) => Some(asset::guild_icon_place(self.id, h)),
                None => None,
            }),
    {
        match &self.icon_hash {
            Some(h) => Some(Asset::guild_icon(self.id, h.as_str())),
            None => None,
        }
    }
}

// ── messages ───────────────────────────────────────────────────────────────

#[derive(Debug, Clone, PartialEq, Eq)]
pub struct Attachment {
    pub id: AttachmentId,
    pub filename: String,
    pub size: u64,
    pub url: String,
    pub content_type: Option<String>,
    pub width: Option<u32>,
    pub height: Option<u32>,
}

/// [`Attachment`] with the text as character sequences.
pub ghost struct AttachmentView {
    pub id: AttachmentId,
    pub filename: Seq<char>,
    pub size: u64,
    pub url: Seq<char>,
    pub content_type: Option<Seq<char>>,
    pub width: Option<u32>,
    pub height: Option<u32>,
}

impl View for Attachment {
    type V = AttachmentView;

    open spec fn view(&self) -> AttachmentView {
        AttachmentView {
            id: self.id,
            filename: self.filename@,
            size: self.size,
            url: self.url@,
            content_type: opt_text(self.content_type),
            width: self.width,
            height: self.height,
        }
    }
}

pub open spec fn attachments_of(v: Seq<Attachment>) -> Seq<AttachmentView> {
    Seq::new(v.len(), |i: int| v[i]@)
}

impl Attachment {
    pub fn is_image(&self) -> (r: bool)
        ensures
            r == (self@.content_type matches Some(t) && "image/"@.is_prefix_of(t)),
    {
        match &self.content_type {
            Some(t) => text::has_prefix(text::chars(t.as_str()).as_slice(), "image/"),
            None => false,
        }
    }
}

#[derive(Debug, PartialEq, Eq)]
pub struct Message {
    pub id: MessageId,
    pub channel_id: ChannelId,
    pub guild_id: Option<GuildId>,
    pub author: User,
    pub content: String,
    /// ISO 8601. Formatting belongs to the layer above.
    pub timestamp: String,
    pub edited_timestamp: Option<String>,
    pub pinned: bool,
    pub attachments: Vec<Attachment>,
    /// The sender's guild-specific face. Carries no user: the sender is
    /// `author`. Absent in DMs.
    pub member: Option<Member>,
    pub referenced_message: Option<Box<Message>>,
    /// People named directly. Role mentions do not appear here.
    pub mentions: Vec<User>,
    /// `@everyone` or `@here`.
    pub mention_everyone: bool,
}

/// [`Message`] with the text as character sequences.
pub ghost struct MessageView {
    pub id: MessageId,
    pub channel_id: ChannelId,
    pub guild_id: Option<GuildId>,
    pub author: UserView,
    pub content: Seq<char>,
    pub timestamp: Seq<char>,
    pub edited_timestamp: Option<Seq<char>>,
    pub pinned: bool,
    pub attachments: Seq<AttachmentView>,
    pub member: Option<MemberView>,
    pub referenced_message: Option<Box<MessageView>>,
    pub mentions: Seq<UserView>,
    pub mention_everyone: bool,
}

pub open spec fn opt_member(m: Option<Member>) -> Option<MemberView> {
    match m {
        Some(m) => Some(m@),
        None => None,
    }
}

pub open spec fn message_view(m: Message) -> MessageView
    decreases m,
{
    MessageView {
        id: m.id,
        channel_id: m.channel_id,
        guild_id: m.guild_id,
        author: m.author@,
        content: m.content@,
        timestamp: m.timestamp@,
        edited_timestamp: opt_text(m.edited_timestamp),
        pinned: m.pinned,
        attachments: attachments_of(m.attachments@),
        member: opt_member(m.member),
        referenced_message: match m.referenced_message {
            Some(r) => Some(Box::new(message_view(*r))),
            None => None,
        },
        mentions: users_of(m.mentions@),
        mention_everyone: m.mention_everyone,
    }
}

impl View for Message {
    type V = MessageView;

    open spec fn view(&self) -> MessageView {
        message_view(*self)
    }
}

/// Whether a user is among those named.
pub open spec fn names_user(users: Seq<UserView>, me: UserId) -> bool {
    exists|i: int| 0 <= i < users.len() && (#[trigger] users[i]).id == me
}

impl Message {
    /// Whether this message names us.
    ///
    /// Our own messages never count: replies routinely name the sender, and
    /// marking every one of those would be noise.
    pub fn mentions_me(&self, me: UserId) -> (r: bool)
        ensures
            r == (self.author.id != me && (self.mention_everyone || names_user(
                users_of(self.mentions@),
                me,
            ))),
    {
        if self.author.id == me {
            return false;
        }
        if self.mention_everyone {
            return true;
        }
        let ghost users = users_of(self.mentions@);
        let mut i: usize = 0;
        while i < self.mentions.len()
            invariant
                i <= self.mentions.len(),
                self.author.id != me,
                users == users_of(self.mentions@),
                forall|k: int| 0 <= k < i ==> (#[trigger] users[k]).id != me,
            decreases self.mentions.len() - i,
        {
            assert(users[i as int].id == self.mentions[i as int].id);
            if self.mentions[i].id == me {
                return true;
            }
            i += 1;
        }
        false
    }
}

#[derive(Debug, Clone, PartialEq, Eq)]
pub struct CurrentUser {
    pub user: User,
    pub email: Option<String>,
    pub verified: bool,
    pub mfa_enabled: bool,
}

/// [`CurrentUser`] with the text as character sequences.
pub ghost struct CurrentUserView {
    pub user: UserView,
    pub email: Option<Seq<char>>,
    pub verified: bool,
    pub mfa_enabled: bool,
}

impl View for CurrentUser {
    type V = CurrentUserView;

    open spec fn view(&self) -> CurrentUserView {
        CurrentUserView {
            user: self.user@,
            email: opt_text(self.email),
            verified: self.verified,
            mfa_enabled: self.mfa_enabled,
        }
    }
}

} // verus!
