//! What holds of the model as a whole: what is read is what was sent, and names
//! and pictures are shown as they were chosen.

use vstd::prelude::*;
use crate::gateway::ready::{
    arranged, arranged_folders, entries_of, known_ids, levels_of, ChannelOverride,
    GuildSettingsEntry, ReadState, ReadStates, Ready, ReadyView,
};
use crate::encoding::base64_decoded;
use crate::gateway::guild_order::{folders_in, folders_of, order_in};
use crate::json::{member_from, Number, Value};
use crate::model::asset::{guild_icon_place, sized, url_of, Format, Place};
use crate::model::de::{guild_of, member_of, message_of, readable, strict, user_of, FromJson};
use crate::model::identity::{claim_json, claim_of, claimed_locale, Claim, Os, Surroundings};
use crate::model::kind::{kind_icon, kind_is_text, kind_of};
use crate::model::snowflake::{created_ms, id_of, id_value};
use crate::model::{
    avatar_index, channel_name, member_face, member_name, names_user, role_tint, user_face,
    user_name, user_tag, Attachment, Channel, ChannelKind, ChannelView, CurrentUser, Guild,
    GuildId, MemberView, Role, RoleId, User, UserId, UserView,
};
use crate::text;

verus! {

// ── values ─────────────────────────────────────────────────────────────────

/// What stands under a key is found, where no other member before it has that
/// key; a key that no member has finds nothing.
pub proof fn members_are_found(o: Seq<(Seq<char>, Value)>, key: Seq<char>, k: int)
    ensures
        0 <= k < o.len() && o[k].0 == key && (forall|i: int|
            0 <= i < k ==> (#[trigger] o[i]).0 != key) ==> Value::Object(o).get(key) == Some(o[k].1),
        (forall|i: int| 0 <= i < o.len() ==> (#[trigger] o[i]).0 != key) ==> Value::Object(o).get(
            key,
        ) is None,
{
    if 0 <= k < o.len() && o[k].0 == key && (forall|i: int|
        0 <= i < k ==> (#[trigger] o[i]).0 != key) {
        lemma_found(o, key, 0, k);
    }
    if forall|i: int| 0 <= i < o.len() ==> (#[trigger] o[i]).0 != key {
        lemma_missing(o, key, 0);
    }
}

proof fn lemma_found(o: Seq<(Seq<char>, Value)>, key: Seq<char>, from: int, k: int)
    requires
        0 <= from <= k < o.len(),
        o[k].0 == key,
        forall|i: int| from <= i < k ==> (#[trigger] o[i]).0 != key,
    ensures
        member_from(o, key, from) == Some(o[k].1),
    decreases k - from,
{
    if from < k {
        assert(o[from].0 != key);
        lemma_found(o, key, from + 1, k);
    }
}

proof fn lemma_missing(o: Seq<(Seq<char>, Value)>, key: Seq<char>, from: int)
    requires
        0 <= from <= o.len(),
        forall|i: int| from <= i < o.len() ==> (#[trigger] o[i]).0 != key,
    ensures
        member_from(o, key, from) is None,
    decreases o.len() - from,
{
    if from < o.len() {
        assert(o[from].0 != key);
        lemma_missing(o, key, from + 1);
    }
}

/// An object that holds no key twice.
pub open spec fn plain_object(v: Value) -> bool {
    v is Object && forall|name: Seq<char>| !(#[trigger] v.repeats(name))
}

/// The text under a key; none where there is none, or null.
pub open spec fn said(v: Value, key: Seq<char>) -> Option<Seq<char>> {
    match v.get(key) {
        Some(Value::Text(t)) => Some(t),
        _ => None,
    }
}

/// A key that holds text, null or nothing.
pub open spec fn says_at_most(v: Value, key: Seq<char>) -> bool {
    match v.get(key) {
        None => true,
        Some(Value::Null) => true,
        Some(Value::Text(_)) => true,
        _ => false,
    }
}

/// Whether a key holds true.
pub open spec fn set(v: Value, key: Seq<char>) -> bool {
    v.get(key) == Some(Value::Bool(true))
}

/// A key that holds a truth value or nothing.
pub open spec fn sets_at_most(v: Value, key: Seq<char>) -> bool {
    match v.get(key) {
        None => true,
        Some(Value::Bool(_)) => true,
        _ => false,
    }
}

/// Digits under a key.
pub open spec fn names_id(v: Value, key: Seq<char>, id: u64) -> bool {
    v.get(key) == Some(Value::Text(text::dec(id as nat)))
}

proof fn lemma_id(id: u64)
    ensures
        id_of(text::dec(id as nat)) == Some(id),
{
    text::dec_reads_back(id as nat);
    let d = text::dec(id as nat);
    assert(text::is_digit(d[0]));
}

/// Ids come as digits or as a number, and a plus sign before the digits changes
/// nothing. They say when they were made: milliseconds since the first moment of
/// 2015, above 22 bits of something else.
pub proof fn ids_are_read(id: u64, ms: u64, low: u64)
    ensures
        id_of(text::dec(id as nat)) == Some(id),
        id_of(seq!['+'] + text::dec(id as nat)) == Some(id),
        id_value(Value::Text(text::dec(id as nat))) == Some(id),
        id_value(Value::Number(Number::Unsigned(id))) == Some(id),
        ms < 0x400_0000_0000 && low < 0x40_0000 ==> created_ms((ms * 0x40_0000 + low) as u64) == ms
            + 1_420_070_400_000,
{
    lemma_id(id);
    text::dec_reads_back(id as nat);
    let d = text::dec(id as nat);
    let p = seq!['+'] + d;
    assert(p[0] == '+');
    assert(p.skip(1) =~= d);
    if ms < 0x400_0000_0000 && low < 0x40_0000 {
        let id = (ms * 0x40_0000 + low) as u64;
        assert(id / 0x40_0000 == ms);
    }
}

// ── people ─────────────────────────────────────────────────────────────────

/// A user is read as it was sent, whatever else stands beside it.
pub proof fn users_are_read(v: Value, id: u64, username: Seq<char>)
    requires
        plain_object(v),
        names_id(v, "id"@, id),
        v.get("username"@) == Some(Value::Text(username)),
        says_at_most(v, "global_name"@),
        v.get("discriminator"@) is None || v.get("discriminator"@)->0 is Text,
        says_at_most(v, "avatar"@),
        sets_at_most(v, "bot"@),
    ensures
        user_of(v) matches Some(u) && {
            &&& u.id.0.0 == id
            &&& u.username == username
            &&& u.global_name == said(v, "global_name"@)
            &&& u.discriminator == (match said(v, "discriminator"@) {
                Some(d) => d,
                None => Seq::<char>::empty(),
            })
            &&& u.avatar_hash == said(v, "avatar"@)
            &&& u.bot == set(v, "bot"@)
        },
{
    lemma_id(id);
}

/// So is our own account.
pub proof fn our_account_is_read(v: Value)
    requires
        plain_object(v),
        user_of(v) is Some,
        says_at_most(v, "email"@),
        sets_at_most(v, "verified"@),
        sets_at_most(v, "mfa_enabled"@),
    ensures
        CurrentUser::decoded(v) matches Some(c) && c.user == user_of(v)->0 && c.email == said(
            v,
            "email"@,
        ) && c.verified == set(v, "verified"@) && c.mfa_enabled == set(v, "mfa_enabled"@),
{
}

/// A member is read as it was sent: the name and the picture in the guild, the
/// roles in order, and the user.
pub proof fn members_are_read(v: Value, raw: Seq<Value>, ids: Seq<u64>, user: Value)
    requires
        plain_object(v),
        says_at_most(v, "nick"@),
        says_at_most(v, "avatar"@),
        says_at_most(v, "joined_at"@),
        v.get("roles"@) == Some(Value::Array(raw)),
        raw.len() == ids.len(),
        forall|i: int|
            0 <= i < raw.len() ==> #[trigger] raw[i] == Value::Text(text::dec(ids[i] as nat)),
        v.get("user"@) == Some(user),
        user_of(user) is Some,
    ensures
        member_of(v) matches Some(m) && {
            &&& m.nick == said(v, "nick"@)
            &&& m.avatar_hash == said(v, "avatar"@)
            &&& m.joined_at == said(v, "joined_at"@)
            &&& m.user == user_of(user)
            &&& m.roles.len() == ids.len()
            &&& forall|i: int| 0 <= i < ids.len() ==> (#[trigger] m.roles[i]).0.0 == ids[i]
        },
{
    let roles = Seq::new(ids.len(), |i: int| RoleId(crate::model::Snowflake(ids[i])));
    assert forall|i: int| 0 <= i < raw.len() implies RoleId::decoded(#[trigger] raw[i]) == Some(
        roles[i],
    ) by {
        lemma_id(ids[i]);
    }
    lemma_strict::<RoleId>(raw, roles, 0);
    assert(roles.skip(0) =~= roles);
}

proof fn lemma_strict<T: FromJson>(a: Seq<Value>, out: Seq<<T as View>::V>, k: int)
    requires
        a.len() == out.len(),
        0 <= k <= a.len(),
        forall|i: int| 0 <= i < a.len() ==> T::decoded(#[trigger] a[i]) == Some(out[i]),
    ensures
        strict::<T>(a, k) == Some(out.skip(k)),
    decreases a.len() - k,
{
    if k < a.len() {
        lemma_strict::<T>(a, out, k + 1);
        assert(T::decoded(a[k]) == Some(out[k]));
        assert(seq![out[k]] + out.skip(k + 1) =~= out.skip(k));
    } else {
        assert(out.skip(k) =~= seq![]);
    }
}

/// Lists come out one for one and in order where every element can be read,
/// whether one that cannot be would be skipped or not.
pub proof fn lists_keep_their_order<T: FromJson>(a: Seq<Value>, out: Seq<<T as View>::V>)
    requires
        a.len() == out.len(),
        forall|i: int| 0 <= i < a.len() ==> T::decoded(#[trigger] a[i]) == Some(out[i]),
    ensures
        strict::<T>(a, 0) == Some(out),
        readable::<T>(a, 0) == out,
{
    lemma_strict::<T>(a, out, 0);
    lemma_readable::<T>(a, out, 0);
    assert(out.skip(0) =~= out);
}

proof fn lemma_readable<T: FromJson>(a: Seq<Value>, out: Seq<<T as View>::V>, k: int)
    requires
        a.len() == out.len(),
        0 <= k <= a.len(),
        forall|i: int| 0 <= i < a.len() ==> T::decoded(#[trigger] a[i]) == Some(out[i]),
    ensures
        readable::<T>(a, k) == out.skip(k),
    decreases a.len() - k,
{
    if k < a.len() {
        lemma_readable::<T>(a, out, k + 1);
        assert(T::decoded(a[k]) == Some(out[k]));
        assert(seq![out[k]] + out.skip(k + 1) =~= out.skip(k));
    } else {
        assert(out.skip(k) =~= seq![]);
    }
}

/// A role is read as it was sent.
pub proof fn roles_are_read(v: Value, id: u64, name: Seq<char>, position: u32, color: u32)
    requires
        plain_object(v),
        names_id(v, "id"@, id),
        v.get("name"@) == Some(Value::Text(name)),
        v.get("position"@) == Some(Value::Number(Number::Unsigned(position as u64))),
        v.get("color"@) == Some(Value::Number(Number::Unsigned(color as u64))),
        sets_at_most(v, "hoist"@),
    ensures
        Role::decoded(v) matches Some(r) && r.id.0.0 == id && r.name == name && r.position
            == position && r.color == Some(color) && r.hoist == set(v, "hoist"@),
{
    lemma_id(id);
}

// ── places ─────────────────────────────────────────────────────────────────

/// A channel is read as it was sent, its kind by its number and the others it
/// points to by their ids.
pub proof fn channels_are_read(
    v: Value,
    id: u64,
    kind: u8,
    guild: u64,
    parent: u64,
    last: u64,
    position: u16,
)
    requires
        plain_object(v),
        names_id(v, "id"@, id),
        v.get("type"@) == Some(Value::Number(Number::Unsigned(kind as u64))),
        says_at_most(v, "name"@),
        says_at_most(v, "topic"@),
        sets_at_most(v, "nsfw"@),
        names_id(v, "guild_id"@, guild),
        names_id(v, "parent_id"@, parent),
        names_id(v, "last_message_id"@, last),
        v.get("position"@) == Some(Value::Number(Number::Unsigned(position as u64))),
        v.get("recipients"@) is None,
    ensures
        Channel::decoded(v) matches Some(c) && {
            &&& c.id.0.0 == id
            &&& c.kind == kind_of(kind)
            &&& c.name == said(v, "name"@)
            &&& c.topic == said(v, "topic"@)
            &&& c.nsfw == set(v, "nsfw"@)
            &&& c.guild_id matches Some(g) && g.0.0 == guild
            &&& c.parent_id matches Some(p) && p.0.0 == parent
            &&& c.last_message_id matches Some(m) && m.0.0 == last
            &&& c.position == position
            &&& c.recipients.len() == 0
        },
{
    lemma_id(id);
    lemma_id(guild);
    lemma_id(parent);
    lemma_id(last);
}

/// The kinds by their numbers; only four of them hold text, and two speak.
pub proof fn kinds_have_their_numbers(v: u8)
    ensures
        kind_of(0) == ChannelKind::GuildText,
        kind_of(1) == ChannelKind::Dm,
        kind_of(2) == ChannelKind::GuildVoice,
        kind_of(3) == ChannelKind::GroupDm,
        kind_of(4) == ChannelKind::GuildCategory,
        kind_of(5) == ChannelKind::GuildAnnouncement,
        kind_of(10) == ChannelKind::AnnouncementThread,
        kind_of(11) == ChannelKind::PublicThread,
        kind_of(12) == ChannelKind::PrivateThread,
        kind_of(13) == ChannelKind::GuildStageVoice,
        kind_of(15) == ChannelKind::GuildForum,
        kind_is_text(kind_of(v)) <==> v == 0 || v == 1 || v == 3 || v == 5,
        kind_icon(kind_of(v)) == (if v == 2 || v == 13 {
            "channel.voice"@
        } else {
            "channel.text"@
        }),
{
}

/// A guild is read as it was sent; its name and its icon at the top, and, where
/// they are not there, among its properties.
pub proof fn guilds_are_read(v: Value, id: u64, p: Value)
    requires
        plain_object(v),
        names_id(v, "id"@, id),
        says_at_most(v, "name"@),
        says_at_most(v, "icon"@),
        sets_at_most(v, "unavailable"@),
        v.get("channels"@) is None,
        v.get("roles"@) is None,
        v.get("properties"@) == Some(p),
        plain_object(p),
        says_at_most(p, "name"@),
        says_at_most(p, "icon"@),
    ensures
        guild_of(v) matches Some(g) && {
            &&& g.id.0.0 == id
            &&& g.name == (match said(v, "name"@) {
                Some(n) => n,
                None => match said(p, "name"@) {
                    Some(n) => n,
                    None => Seq::<char>::empty(),
                },
            })
            &&& g.icon_hash == (match said(v, "icon"@) {
                Some(h) => Some(h),
                None => said(p, "icon"@),
            })
            &&& g.unavailable == set(v, "unavailable"@)
            &&& g.channels.len() == 0
            &&& g.roles.len() == 0
        },
{
    lemma_id(id);
}

/// The channels and the roles of a guild are those that can be read, in order.
pub proof fn guilds_hold_what_can_be_read(v: Value, cs: Seq<Value>, rs: Seq<Value>)
    requires
        v is Object,
        guild_of(v) is Some,
        v.get("channels"@) == Some(Value::Array(cs)),
        v.get("roles"@) == Some(Value::Array(rs)),
    ensures
        guild_of(v)->0.channels == readable::<Channel>(cs, 0),
        guild_of(v)->0.roles == readable::<Role>(rs, 0),
{
}

// ── messages ───────────────────────────────────────────────────────────────

/// An attachment is read as it was sent.
pub proof fn attachments_are_read(
    v: Value,
    id: u64,
    filename: Seq<char>,
    size: u64,
    url: Seq<char>,
    width: u32,
    height: u32,
)
    requires
        plain_object(v),
        names_id(v, "id"@, id),
        v.get("filename"@) == Some(Value::Text(filename)),
        v.get("size"@) == Some(Value::Number(Number::Unsigned(size))),
        v.get("url"@) == Some(Value::Text(url)),
        says_at_most(v, "content_type"@),
        v.get("width"@) == Some(Value::Number(Number::Unsigned(width as u64))),
        v.get("height"@) == Some(Value::Number(Number::Unsigned(height as u64))),
    ensures
        Attachment::decoded(v) matches Some(a) && a.id.0.0 == id && a.filename == filename
            && a.size == size && a.url == url && a.content_type == said(v, "content_type"@)
            && a.width == Some(width) && a.height == Some(height),
{
    lemma_id(id);
}

/// A message is read as it was sent: where it stands, who wrote it, what it
/// says and when, and the message that it answers.
pub proof fn messages_are_read(v: Value, id: u64, channel: u64, guild: u64, author: Value)
    requires
        plain_object(v),
        names_id(v, "id"@, id),
        names_id(v, "channel_id"@, channel),
        names_id(v, "guild_id"@, guild),
        v.get("author"@) == Some(author),
        user_of(author) is Some,
        v.get("content"@) is Some && v.get("content"@)->0 is Text,
        v.get("timestamp"@) is Some && v.get("timestamp"@)->0 is Text,
        says_at_most(v, "edited_timestamp"@),
        sets_at_most(v, "pinned"@),
        sets_at_most(v, "mention_everyone"@),
        v.get("attachments"@) is None,
        v.get("member"@) is None || member_of(v.get("member"@)->0) is Some && v.get("member"@)->0
            !is Null,
        v.get("mentions"@) is None,
        v.get("referenced_message"@) is None || v.get("referenced_message"@)->0 is Null
            || message_of(v.get("referenced_message"@)->0) is Some,
    ensures
        message_of(v) matches Some(m) && {
            &&& m.id.0.0 == id
            &&& m.channel_id.0.0 == channel
            &&& m.guild_id matches Some(g) && g.0.0 == guild
            &&& m.author == user_of(author)->0
            &&& Some(m.content) == said(v, "content"@)
            &&& Some(m.timestamp) == said(v, "timestamp"@)
            &&& m.edited_timestamp == said(v, "edited_timestamp"@)
            &&& m.pinned == set(v, "pinned"@)
            &&& m.mention_everyone == set(v, "mention_everyone"@)
            &&& m.attachments.len() == 0
            &&& m.mentions.len() == 0
            &&& m.member == (match v.get("member"@) {
                Some(w) => member_of(w),
                None => None,
            })
            &&& m.referenced_message is Some <==> v.get("referenced_message"@) is Some && v.get(
                "referenced_message"@,
            )->0 !is Null
            &&& m.referenced_message matches Some(r) ==> message_of(
                v.get("referenced_message"@)->0,
            ) == Some(*r)
        },
{
    lemma_id(id);
    lemma_id(channel);
    lemma_id(guild);
}

/// What a message holds and whom it names are in the order in which they were
/// sent.
pub proof fn messages_keep_their_lists(v: Value, files: Seq<Value>, named: Seq<Value>)
    requires
        v is Object,
        message_of(v) is Some,
        v.get("attachments"@) == Some(Value::Array(files)),
        v.get("mentions"@) == Some(Value::Array(named)),
    ensures
        strict::<Attachment>(files, 0) == Some(message_of(v)->0.attachments),
        strict::<User>(named, 0) == Some(message_of(v)->0.mentions),
{
}

/// Someone is named exactly where one of the named has their id.
pub proof fn the_named_are_found(users: Seq<UserView>, me: UserId, k: int)
    ensures
        0 <= k < users.len() && users[k].id == me ==> names_user(users, me),
        (forall|i: int| 0 <= i < users.len() ==> (#[trigger] users[i]).id != me) ==> !names_user(
            users,
            me,
        ),
{
}

// ── names and pictures ─────────────────────────────────────────────────────

/// The name that is shown for someone: in a guild the one chosen for it, else
/// the one chosen for everywhere, else the handle.
pub proof fn chosen_names_are_shown(m: MemberView, u: UserView)
    ensures
        u.global_name matches Some(n) ==> user_name(u) == n,
        u.global_name is None ==> user_name(u) == u.username,
        m.nick matches Some(n) ==> member_name(m, u) == n,
        m.nick is None && m.user is None ==> member_name(m, u) == user_name(u),
        m.nick is None && m.user is Some && m.user->0.global_name is Some ==> member_name(m, u)
            == m.user->0.global_name->0,
        m.nick is None && m.user is Some && m.user->0.global_name is None ==> member_name(m, u)
            == m.user->0.username,
{
}

/// A channel goes by its name; one without a name by the names of those in it,
/// with a comma between each two.
pub proof fn channels_go_by_their_names(c: ChannelView)
    ensures
        c.name matches Some(n) ==> channel_name(c) == n,
        c.name is None && c.recipients.len() == 0 ==> channel_name(c).len() == 0,
        c.name is None && c.recipients.len() == 1 ==> channel_name(c) == user_name(
            c.recipients[0],
        ),
        c.name is None && c.recipients.len() == 2 ==> channel_name(c) == user_name(c.recipients[0])
            + ", "@ + user_name(c.recipients[1]),
        c.name is None && c.recipients.len() == 3 ==> channel_name(c) == user_name(c.recipients[0])
            + ", "@ + user_name(c.recipients[1]) + ", "@ + user_name(c.recipients[2]),
{
    reveal_with_fuel(crate::model::names_listed, 4);
}

/// Legacy digits count where they are no zeros, without the blanks around them.
pub proof fn legacy_digits_count(u: UserView)
    ensures
        u.discriminator.len() == 0 ==> user_tag(u) is None,
        (forall|i: int| 0 <= i < u.discriminator.len() ==> u.discriminator[i] == '0') ==> user_tag(
            u,
        ) is None,
        u.discriminator.len() > 0 && !text::is_space(u.discriminator[0]) && !text::is_space(
            u.discriminator.last(),
        ) && u.discriminator[0] != '0' ==> user_tag(u) == Some(u.discriminator),
{
    let d = u.discriminator;
    text::trim_of_blank(d);
    if d.len() > 0 && !text::is_space(d[0]) && !text::is_space(d.last()) {
        let none = Seq::<char>::empty();
        text::trim_drops_the_blanks_around(none, d, none);
        assert(none + d + none =~= d);
    }
    if d.len() > 0 && forall|i: int| 0 <= i < d.len() ==> d[i] == '0' {
        assert(d[0] == '0' && d.last() == '0');
        let none = Seq::<char>::empty();
        text::trim_drops_the_blanks_around(none, d, none);
        assert(none + d + none =~= d);
    }
}

/// Where the picture of someone is found: the one chosen for the guild, else the
/// one chosen for everywhere, else one of the built-in ones, which is picked by
/// the legacy digits among five, and by the id among six where there are none.
pub proof fn pictures_are_found(m: MemberView, guild: GuildId, u: UserView)
    ensures
        m.avatar_hash matches Some(h) ==> url_of(member_face(m, guild, u))
            == "https://cdn.discordapp.com"@ + "/"@ + ("guilds/"@ + text::dec(guild.0.0 as nat)
            + "/users/"@ + text::dec(u.id.0.0 as nat) + "/avatars/"@ + h) + "."@ + "png"@,
        m.avatar_hash is None ==> member_face(m, guild, u) == user_face(u),
        u.avatar_hash matches Some(h) ==> url_of(user_face(u)) == "https://cdn.discordapp.com"@
            + "/"@ + ("avatars/"@ + text::dec(u.id.0.0 as nat) + "/"@ + h) + "."@ + "png"@,
        u.avatar_hash is None ==> url_of(user_face(u)) == "https://cdn.discordapp.com"@ + "/"@ + (
        "embed/avatars/"@ + text::dec(avatar_index(u) as nat)) + "."@ + "png"@,
        user_tag(u) is None ==> avatar_index(u) == (u.id.0.0 / 4_194_304) % 6,
        user_tag(u) matches Some(d) ==> (id_of(d) matches Some(n) ==> avatar_index(u) == n % 5),
{
}

/// The icon of a guild, and what asking for a size does: the smallest power of
/// two that is no smaller, between 16 and 4096; built-in pictures have one size.
pub proof fn icons_come_in_sizes(guild: GuildId, hash: Seq<char>, p: Place, size: u16)
    ensures
        url_of(guild_icon_place(guild, hash)) == "https://cdn.discordapp.com"@ + "/"@ + ("icons/"@
            + text::dec(guild.0.0 as nat) + "/"@ + hash) + "."@ + "png"@,
        !p.resizable ==> sized(p, size) == p,
        p.resizable ==> (sized(p, size).size matches Some(n) && {
            &&& 16 <= n <= 4096
            &&& n == 16 || n == 32 || n == 64 || n == 128 || n == 256 || n == 512 || n == 1024 || n
                == 2048 || n == 4096
            &&& size <= 4096 ==> n >= size
            &&& n > 16 ==> n / 2 < size
            &&& url_of(sized(p, size)) == url_of(Place { size: None, ..p }) + "?size="@ + text::dec(
                n as nat,
            )
        }) && sized(p, size).path == p.path && sized(p, size).format == p.format,
        p.format == Format::Gif && p.size is None ==> url_of(p) == "https://cdn.discordapp.com"@
            + "/"@ + p.path + "."@ + "gif"@,
        p.format == Format::Webp && p.size is None ==> url_of(p) == "https://cdn.discordapp.com"@
            + "/"@ + p.path + "."@ + "webp"@,
        p.format == Format::Jpeg && p.size is None ==> url_of(p) == "https://cdn.discordapp.com"@
            + "/"@ + p.path + "."@ + "jpg"@,
{
}

/// The colour of a role; black stands for none.
pub proof fn roles_without_colour_have_none(c: u32)
    ensures
        c != 0 ==> role_tint(Some(c)) == Some(c),
        role_tint(Some(0)) is None,
        role_tint(None) is None,
{
}

// ── READY ──────────────────────────────────────────────────────────────────

/// How far a channel was read is read as it was sent.
pub proof fn read_states_are_read(v: Value, id: u64, last: u64, n: u32)
    requires
        plain_object(v),
        names_id(v, "id"@, id),
        names_id(v, "last_message_id"@, last),
        v.get("mention_count"@) == Some(Value::Number(Number::Unsigned(n as u64))),
    ensures
        ReadState::decoded(v) matches Some(s) && s.id.0.0 == id && (s.last_message_id matches Some(
            m,
        ) && m.0.0 == last) && s.mention_count == n,
{
    lemma_id(id);
    lemma_id(last);
}

/// Read markers come in a bare list or in one that is wrapped, and say the same
/// either way.
pub proof fn both_shapes_say_the_same(a: Seq<Value>, v: Value)
    requires
        plain_object(v),
        v.get("entries"@) == Some(Value::Array(a)),
    ensures
        ReadStates::decoded(v) matches Some(w) && ReadStates::decoded(Value::Array(a)) matches Some(
            f,
        ) && entries_of(w) == entries_of(f) && entries_of(f) == readable::<ReadState>(a, 0),
{
}

/// What is said of notifications is read as it was sent, for a channel and for a
/// guild.
pub proof fn notification_levels_are_read(v: Value, id: u64, level: u8)
    requires
        plain_object(v),
        v.get("message_notifications"@) == Some(Value::Number(Number::Unsigned(level as u64))),
        sets_at_most(v, "muted"@),
    ensures
        names_id(v, "channel_id"@, id) ==> (ChannelOverride::decoded(v) matches Some(o)
            && o.channel_id.0.0 == id && o.message_notifications == level && o.muted == set(
            v,
            "muted"@,
        )),
        names_id(v, "guild_id"@, id) && v.get("channel_overrides"@) is None ==> (
        GuildSettingsEntry::decoded(v) matches Some(e) && e.guild_id.0.0 == id
            && e.message_notifications == level && e.muted == set(v, "muted"@)
            && e.channel_overrides.len() == 0),
{
    lemma_id(id);
}

/// READY is read as it was sent: who we are, the session and where to resume it,
/// the guilds in order, and the settings.
pub proof fn ready_is_read(v: Value, user: Value, session: Seq<char>, guilds: Seq<Value>)
    requires
        plain_object(v),
        v.get("user"@) == Some(user),
        CurrentUser::decoded(user) is Some,
        v.get("session_id"@) == Some(Value::Text(session)),
        says_at_most(v, "resume_gateway_url"@),
        v.get("guilds"@) == Some(Value::Array(guilds)),
        says_at_most(v, "user_settings_proto"@),
        v.get("read_state"@) is None,
        v.get("user_guild_settings"@) is None,
    ensures
        Ready::decoded(v) matches Some(r) && {
            &&& r.user == CurrentUser::decoded(user)->0
            &&& r.session_id == session
            &&& r.resume_gateway_url == said(v, "resume_gateway_url"@)
            &&& r.guilds == readable::<Guild>(guilds, 0)
            &&& r.user_settings_proto == said(v, "user_settings_proto"@)
            &&& r.read_state is None
            &&& r.user_guild_settings is None
        },
{
}

/// The guilds that count for the order and for the folders are the ones that
/// READY names, all of them.
pub proof fn every_guild_counts(r: ReadyView, id: u64)
    ensures
        known_ids(r.guilds).contains(id) <==> exists|i: int|
            0 <= i < r.guilds.len() && (#[trigger] r.guilds[i]).id.0.0 == id,
        r.user_settings_proto is None ==> arranged(r).len() == 0 && arranged_folders(r).len() == 0,
        r.user_settings_proto matches Some(p) ==> (base64_decoded(p) matches Some(b) ==> arranged(r)
            == order_in(b, known_ids(r.guilds)) && arranged_folders(r) == folders_of(
            folders_in(b),
            known_ids(r.guilds),
        )),
{
    lemma_known(r.guilds, id);
}

proof fn lemma_known(gs: Seq<crate::model::GuildView>, id: u64)
    ensures
        known_ids(gs).contains(id) <==> exists|i: int|
            0 <= i < gs.len() && (#[trigger] gs[i]).id.0.0 == id,
    decreases gs.len(),
{
    if gs.len() > 0 {
        let front = gs.drop_last();
        lemma_known(front, id);
        if known_ids(front).contains(id) {
            let i = choose|i: int| 0 <= i < front.len() && (#[trigger] front[i]).id.0.0 == id;
            assert(gs[i].id.0.0 == id);
        }
        if exists|i: int| 0 <= i < gs.len() && (#[trigger] gs[i]).id.0.0 == id {
            let i = choose|i: int| 0 <= i < gs.len() && (#[trigger] gs[i]).id.0.0 == id;
            if i < front.len() {
                assert(front[i].id.0.0 == id);
            }
        }
        assert(gs[gs.len() - 1] == gs.last());
    }
}

/// The levels of READY, guild by guild and channel by channel, as they were
/// sent.
pub proof fn levels_keep_their_order(r: ReadyView, i: int, k: int)
    requires
        r.user_guild_settings is Some,
        0 <= i < r.user_guild_settings->0.len(),
        0 <= k < r.user_guild_settings->0[i].channel_overrides.len(),
    ensures
        levels_of(r).len() == r.user_guild_settings->0.len(),
        ({
            let e = r.user_guild_settings->0[i];
            let (guild, level, muted, channels) = levels_of(r)[i];
            let o = e.channel_overrides[k];
            &&& guild == e.guild_id
            &&& level == e.message_notifications
            &&& muted == e.muted
            &&& channels.len() == e.channel_overrides.len()
            &&& channels[k] == (o.channel_id, o.message_notifications, o.muted)
        }),
{
}

// ── the claim ──────────────────────────────────────────────────────────────

/// What the client claims to be: the system by its name, the same version in the
/// agent and by itself, and a language with hyphens.
pub proof fn the_claim_is_one_of_a_piece(s: Surroundings, l: Seq<char>, k: int)
    ensures
        ({
            let c = claim_of(s);
            &&& c.os == (match s.os {
                Os::Windows => "Windows"@,
                Os::Mac => "Mac OS X"@,
                Os::Other => "Linux"@,
            })
            &&& c.browser == "Discord Client"@
            &&& c.release_channel == "stable"@
            &&& c.system_locale == s.system_locale@
            &&& s.client_version is None ==> c.client_version == "1.0.9250"@
            &&& s.client_version matches Some(v) ==> v@.len() > 0 ==> c.client_version == v@
            &&& s.client_build is None && s.measured is None ==> c.client_build_number == 595_897
            &&& s.client_build is None && s.measured is Some ==> c.client_build_number
                == s.measured->0
            &&& c.browser_user_agent == "Mozilla/5.0 ("@ + (match s.os {
                Os::Windows => "Windows NT 10.0; Win64; x64"@,
                Os::Mac => "Macintosh; Intel Mac OS X 10_15_7"@,
                Os::Other => "X11; Linux x86_64"@,
            }) + ") AppleWebKit/537.36 (KHTML, like Gecko) discord/"@ + c.client_version
                + " Chrome/"@ + "134.0.6998.205"@ + " Electron/"@ + "35.7.5"@ + " Safari/537.36"@
        }),
        claimed_locale(None) == "en-US"@,
        l.len() > 0 ==> claimed_locale(Some(l)).len() == l.len(),
        l.len() > 0 && 0 <= k < l.len() ==> claimed_locale(Some(l))[k] == (if l[k] == '_' {
            '-'
        } else {
            l[k]
        }),
{
}

/// The claim in the shape in which it travels: sixteen members, each under its
/// own name.
pub proof fn the_claim_travels_whole(c: Claim)
    ensures
        claim_json(c) == Value::Object(
            seq![
                ("os"@, Value::Text(c.os)),
                ("browser"@, Value::Text(c.browser)),
                ("device"@, Value::Text(c.device)),
                ("system_locale"@, Value::Text(c.system_locale)),
                ("browser_user_agent"@, Value::Text(c.browser_user_agent)),
                ("browser_version"@, Value::Text(c.browser_version)),
                ("os_version"@, Value::Text(c.os_version)),
                ("referrer"@, Value::Text(""@)),
                ("referring_domain"@, Value::Text(""@)),
                ("referrer_current"@, Value::Text(""@)),
                ("referring_domain_current"@, Value::Text(""@)),
                ("release_channel"@, Value::Text(c.release_channel)),
                ("client_build_number"@, Value::Number(Number::Unsigned(c.client_build_number))),
                ("client_event_source"@, Value::Null),
                ("client_version"@, Value::Text(c.client_version)),
                ("native_build_number"@, Value::Null),
            ],
        ),
{
}

} // verus!
