//! What holds of the lists as a whole: what is known is what they show.

use vstd::prelude::*;
use crate::live::{
    channel_from, guild_from, role_from, seen_from, ChannelEntry, ChannelState, GuildEntry,
    GuildState, Live, SeenMember,
};
use crate::markdown::model::{Mention, Part, Span};
use crate::menu::first_line;
use crate::model::asset::{guild_icon_place, sized, url_of};
use crate::model::{
    channel_name, member_face, member_name, user_face, user_name, ChannelId, GuildId, Message,
    Role, RoleId, Snowflake, UserId,
};
use crate::pages::chat::relative::reading;
use crate::pages::chat::rows::{
    all_mentions, any_unread, channel_line, clock, guild_line, mention_calls, names_in, openable,
    part_calls, parts_call, span_calls, spans_call, tiles_in, ChannelLine,
};
use crate::shell::App;
use crate::text;
use crate::time;

verus! {

// ── looking things up ──────────────────────────────────────────────────────

/// What is looked up is found by its own id, and nothing where there is none.
pub proof fn what_is_known_is_found(l: Live, guild: GuildId, channel: ChannelId, k: int)
    ensures
        l.guild_spec(guild) matches Some(g) ==> g.id == guild && l.guilds@.contains(g),
        0 <= k < l.guilds@.len() && l.guilds@[k].id == guild ==> l.guild_spec(guild) is Some,
        l.channel_spec(channel) matches Some(c) ==> c.id == channel && l.channels@.contains(c),
        0 <= k < l.channels@.len() && l.channels@[k].id == channel ==> l.channel_spec(
            channel,
        ) is Some,
{
    lemma_guild_from(l.guilds@, guild, 0);
    lemma_channel_from(l.channels@, channel, 0);
}

proof fn lemma_guild_from(gs: Seq<GuildState>, id: GuildId, k: int)
    requires
        0 <= k <= gs.len(),
    ensures
        guild_from(gs, id, k) matches Some(g) ==> g.id == id && gs.contains(g),
        guild_from(gs, id, k) is None ==> forall|i: int|
            k <= i < gs.len() ==> (#[trigger] gs[i]).id != id,
    decreases gs.len() - k,
{
    if k < gs.len() && gs[k].id != id {
        lemma_guild_from(gs, id, k + 1);
    } else if k < gs.len() {
        assert(gs.contains(gs[k]));
    }
}

proof fn lemma_channel_from(cs: Seq<ChannelState>, id: ChannelId, k: int)
    requires
        0 <= k <= cs.len(),
    ensures
        channel_from(cs, id, k) matches Some(c) ==> c.id == id && cs.contains(c),
        channel_from(cs, id, k) is None ==> forall|i: int|
            k <= i < cs.len() ==> (#[trigger] cs[i]).id != id,
    decreases cs.len() - k,
{
    if k < cs.len() && cs[k].id != id {
        lemma_channel_from(cs, id, k + 1);
    } else if k < cs.len() {
        assert(cs.contains(cs[k]));
    }
}

/// A member is the one that was seen in that guild, and a role goes by its own
/// name.
pub proof fn the_seen_are_found(l: Live, guild: GuildId, user: UserId, role: RoleId)
    ensures
        l.member_spec(guild, user) matches Some(m) ==> exists|i: int|
            0 <= i < l.seen@.len() && (#[trigger] l.seen@[i]).guild == guild && l.seen@[i].user
                == user && l.seen@[i].member == m,
        l.role_name_spec(guild, role) matches Some(n) ==> (l.guild_spec(guild) matches Some(g)
            && exists|i: int|
            0 <= i < g.roles@.len() && (#[trigger] g.roles@[i]).id == role && g.roles@[i].name@
                == n),
{
    lemma_seen_from(l.seen@, guild, user, 0);
    if l.guild_spec(guild) is Some {
        lemma_role_from(l.guild_spec(guild)->0.roles@, role, 0);
    }
}

proof fn lemma_seen_from(ms: Seq<SeenMember>, guild: GuildId, user: UserId, k: int)
    requires
        0 <= k <= ms.len(),
    ensures
        seen_from(ms, guild, user, k) matches Some(m) ==> exists|i: int|
            0 <= i < ms.len() && (#[trigger] ms[i]).guild == guild && ms[i].user == user
                && ms[i].member == m,
    decreases ms.len() - k,
{
    if k < ms.len() && !(ms[k].guild == guild && ms[k].user == user) {
        lemma_seen_from(ms, guild, user, k + 1);
    }
}

proof fn lemma_role_from(rs: Seq<Role>, id: RoleId, k: int)
    requires
        0 <= k <= rs.len(),
    ensures
        role_from(rs, id, k) matches Some(r) ==> exists|i: int|
            0 <= i < rs.len() && #[trigger] rs[i] == r && r.id == id,
    decreases rs.len() - k,
{
    if k < rs.len() && rs[k].id != id {
        lemma_role_from(rs, id, k + 1);
    } else if k < rs.len() {
        assert(rs[k] == role_from(rs, id, k)->0);
    }
}

// ── guilds ─────────────────────────────────────────────────────────────────

/// A guild in the list shows its name, whether anything is unread in it, how
/// many mentions, and its icon at the size that the list draws.
pub proof fn guild_rows_show_their_guild(
    l: Live,
    e: GuildEntry,
    guild: GuildId,
    name: String,
    in_folder: bool,
    size: u16,
)
    requires
        e == (GuildEntry::Guild { id: guild, name, in_folder }),
    ensures
        ({
            let r = guild_line(l, e, size);
            &&& r.tile.id == guild.0.0
            &&& r.tile.name == name@
            &&& r.tile.in_folder == in_folder
            &&& r.folder_of_own is None
            &&& r.members.len() == 0
            &&& l.guild_spec(guild) matches Some(g) ==> {
                &&& r.tile.unread == g.unread
                &&& r.tile.mentions == g.mentions
                &&& g.icon_hash matches Some(h) ==> r.tile.icon == Some(
                    url_of(sized(guild_icon_place(g.id, h@), size)),
                )
                &&& g.icon_hash is None ==> r.tile.icon is None
            }
            &&& l.guild_spec(guild) is None ==> !r.tile.unread && r.tile.mentions == 0
                && r.tile.icon is None
        }),
{
}

/// A folder in the list: its own name where it has one, folded where it is
/// folded, in its colour, with the guilds inside in order; anything unread in
/// one of them counts, and so do all their mentions.
pub proof fn folder_rows_show_their_folder(l: Live, e: GuildEntry, size: u16, k: int)
    requires
        e is Folder,
    ensures
        ({
            let r = guild_line(l, e, size);
            let id = e->Folder_id;
            let row = e->row;
            &&& r.tile.id == id
            &&& r.folder_of_own == Some(id)
            &&& r.collapsed == l.collapsed@.contains(id)
            &&& r.tint == row.color
            &&& row.name matches Some(n) ==> r.tile.name == n@
            &&& 0 <= k < row.guilds@.len() && l.unread_spec(row.guilds@[k]).0 ==> r.tile.unread
            &&& (forall|i: int|
                0 <= i < row.guilds@.len() ==> !(l.unread_spec(#[trigger] row.guilds@[i]).0))
                ==> !r.tile.unread
            &&& 0 <= k < row.guilds@.len() ==> r.tile.mentions >= l.unread_spec(row.guilds@[k]).1
            &&& (forall|i: int|
                0 <= i < row.guilds@.len() ==> l.unread_spec(#[trigger] row.guilds@[i]).1 == 0)
                ==> r.tile.mentions == 0
        }),
{
    let gs = e->row.guilds@;
    lemma_rollup(l, gs, gs.len(), k);
}

proof fn lemma_rollup(l: Live, gs: Seq<GuildId>, n: nat, k: int)
    requires
        n <= gs.len(),
    ensures
        0 <= k < n && l.unread_spec(gs[k]).0 ==> any_unread(l, gs, n),
        (forall|i: int| 0 <= i < n ==> !(l.unread_spec(#[trigger] gs[i]).0)) ==> !any_unread(
            l,
            gs,
            n,
        ),
        0 <= k < n ==> all_mentions(l, gs, n) >= l.unread_spec(gs[k]).1,
        (forall|i: int| 0 <= i < n ==> l.unread_spec(#[trigger] gs[i]).1 == 0) ==> all_mentions(
            l,
            gs,
            n,
        ) == 0,
    decreases n,
{
    if n > 0 {
        lemma_rollup(l, gs, (n - 1) as nat, k);
        if forall|i: int| 0 <= i < n ==> !(l.unread_spec(#[trigger] gs[i]).0) {
            assert(!(l.unread_spec(gs[n - 1]).0));
        }
        if forall|i: int| 0 <= i < n ==> l.unread_spec(#[trigger] gs[i]).1 == 0 {
            assert(l.unread_spec(gs[n - 1]).1 == 0);
        }
    }
}

/// The mentions of a folder are those of its guilds together.
pub proof fn folders_count_all_mentions(l: Live, a: Seq<GuildId>, g: GuildId)
    ensures
        all_mentions(l, a.push(g), a.len() + 1) == all_mentions(l, a, a.len()) + l.unread_spec(
            g,
        ).1 as nat,
        all_mentions(l, seq![], 0) == 0,
        any_unread(l, a.push(g), a.len() + 1) == (any_unread(l, a, a.len()) || l.unread_spec(g).0),
{
    lemma_prefix(l, a, g, a.len());
}

proof fn lemma_prefix(l: Live, a: Seq<GuildId>, g: GuildId, n: nat)
    requires
        n <= a.len(),
    ensures
        all_mentions(l, a.push(g), n) == all_mentions(l, a, n),
        any_unread(l, a.push(g), n) == any_unread(l, a, n),
    decreases n,
{
    if n > 0 {
        lemma_prefix(l, a, g, (n - 1) as nat);
        assert(a.push(g)[n - 1] == a[n - 1]);
    }
}

/// The guilds of a folder are its tiles, one for one and in order, where all are
/// known; a folder without a name goes by theirs.
pub proof fn folders_show_their_guilds(l: Live, gs: Seq<GuildId>, size: u16)
    requires
        forall|i: int| 0 <= i < gs.len() ==> l.guild_spec(#[trigger] gs[i]) is Some,
    ensures
        tiles_in(l, gs, gs.len(), size).len() == gs.len(),
        forall|i: int|
            0 <= i < gs.len() ==> (#[trigger] tiles_in(l, gs, gs.len(), size)[i]).id == gs[i].0.0
                && tiles_in(l, gs, gs.len(), size)[i].name == l.guild_spec(gs[i])->0.name@
                && tiles_in(l, gs, gs.len(), size)[i].in_folder,
        names_in(l, gs, gs.len()).len() == gs.len(),
        forall|i: int|
            0 <= i < gs.len() ==> #[trigger] names_in(l, gs, gs.len())[i] == l.guild_spec(
                gs[i],
            )->0.name@,
{
    lemma_tiles(l, gs, gs.len(), size);
}

proof fn lemma_tiles(l: Live, gs: Seq<GuildId>, n: nat, size: u16)
    requires
        n <= gs.len(),
        forall|i: int| 0 <= i < gs.len() ==> l.guild_spec(#[trigger] gs[i]) is Some,
    ensures
        tiles_in(l, gs, n, size).len() == n,
        forall|i: int|
            0 <= i < n ==> (#[trigger] tiles_in(l, gs, n, size)[i]).id == gs[i].0.0 && tiles_in(
                l,
                gs,
                n,
                size,
            )[i].name == l.guild_spec(gs[i])->0.name@ && tiles_in(l, gs, n, size)[i].in_folder,
        names_in(l, gs, n).len() == n,
        forall|i: int|
            0 <= i < n ==> #[trigger] names_in(l, gs, n)[i] == l.guild_spec(gs[i])->0.name@,
    decreases n,
{
    if n > 0 {
        lemma_tiles(l, gs, (n - 1) as nat, size);
        assert(l.guild_spec(gs[n - 1]) is Some);
    }
}

// ── channels ───────────────────────────────────────────────────────────────

/// A channel in the list shows its name, its topic, and what is unread in it; a
/// category is a heading and nothing opens there.
pub proof fn channel_rows_show_their_channel(l: Live, e: ChannelEntry)
    ensures
        e matches ChannelEntry::Category(c) ==> {
            let r = channel_line(l, e);
            r.category && r.id == c.id.0.0 && r.name == channel_name(c@) && !r.unread && r.mentions
                == 0
        },
        e matches ChannelEntry::Channel(c) ==> {
            let r = channel_line(l, e);
            &&& !r.category
            &&& r.id == c.id.0.0
            &&& r.name == channel_name(c@)
            &&& r.topic == (match c.topic {
                Some(t) => Some(t@),
                None => None,
            })
            &&& l.channel_spec(c.id) matches Some(s) ==> r.unread == s.unread && r.mentions
                == s.mentions
            &&& l.channel_spec(c.id) is None ==> !r.unread && r.mentions == 0
        },
{
}

/// What can be opened is the rows that are no headings, in order.
pub proof fn headings_do_not_open(ls: Seq<ChannelLine>, l: ChannelLine)
    ensures
        openable(ls.push(l)) == (if l.category {
            openable(ls)
        } else {
            openable(ls).push(l)
        }),
        openable(seq![]).len() == 0,
{
    reveal(Seq::filter);
    assert(ls.push(l).drop_last() =~= ls);
}

// ── messages ───────────────────────────────────────────────────────────────

/// A message in the list: who wrote it by the name and the face they have in
/// the guild, what it says, when, and what it answers.
pub proof fn message_rows_show_their_message(a: App, m: Message)
    ensures
        ({
            let r = a.message_line(m);
            let guild = GuildId(Snowflake(a.chat.selected_guild));
            &&& r.id == m.id.0.0
            &&& r.blocks == crate::markdown::block::body(m.content@)
            &&& m.member matches Some(x) ==> {
                &&& r.author == member_name(x@, m.author@)
                &&& r.avatar == Some(
                    url_of(
                        sized(
                            member_face(x@, guild, m.author@),
                            a.given.sizes.message_avatar,
                        ),
                    ),
                )
                &&& r.tint == a.live.tint_spec(guild, x.roles@)
            }
            &&& m.member is None && a.live.member_spec(guild, m.author.id) is None ==> {
                &&& r.author == user_name(m.author@)
                &&& r.avatar == Some(
                    url_of(sized(user_face(m.author@), a.given.sizes.message_avatar)),
                )
                &&& r.tint is None
            }
            &&& m.referenced_message is None <==> r.reply is None
            &&& m.referenced_message matches Some(q) ==> (r.reply matches Some(p) && p.target
                == q.id.0.0 && p.snippet == first_line(q.content@, 120))
            &&& time::unix_of(m.timestamp@) matches Some(t) ==> r.unix == t
            &&& time::unix_of(m.timestamp@) is None ==> r.time == m.timestamp@ && r.day.len() == 0
        }),
{
}

/// Every message of the open channel has its row, in order.
pub proof fn every_message_has_its_row(a: App, k: int)
    ensures
        a.message_lines().len() == a.messages().len(),
        0 <= k < a.messages().len() ==> a.message_lines()[k] == a.message_line(a.messages()[k]),
        a.live.channel_spec(ChannelId(Snowflake(a.chat.selected_channel))) matches Some(c)
            ==> a.messages() == c.messages@,
{
}

/// A message calls us where it answers one of ours, and where what it says does:
/// by our own name, by a role that we have, or by calling everyone. Others'
/// names, roles that we do not have and channels do not.
pub proof fn mentions_call_us(me: UserId, roles: Seq<RoleId>, id: u64)
    ensures
        mention_calls(Mention::User(id), Some(me), Some(roles)) <==> me.0.0 == id,
        mention_calls(Mention::Role(id), Some(me), Some(roles)) <==> roles.contains(
            RoleId(Snowflake(id)),
        ),
        mention_calls(Mention::Everyone, Some(me), Some(roles)),
        mention_calls(Mention::Here, Some(me), Some(roles)),
        !mention_calls(Mention::Channel(id), Some(me), Some(roles)),
        !mention_calls(Mention::User(id), None, None),
{
}

/// One call anywhere in what is said is enough: in a paragraph, a heading, a
/// note or a list, however deep in quotes; but not in code.
pub proof fn calls_count_wherever_they_stand(
    ss: Seq<Span>,
    k: int,
    me: Option<UserId>,
    roles: Option<Seq<RoleId>>,
    inner: Seq<Part>,
    lang: Option<Seq<char>>,
    code: Seq<char>,
)
    requires
        0 <= k < ss.len(),
        span_calls(ss[k], me, roles),
    ensures
        part_calls(Part::Paragraph(ss), me, roles),
        part_calls(Part::Heading { level: 1, content: ss }, me, roles),
        part_calls(Part::Subtext(ss), me, roles),
        part_calls(Part::Quote(inner.push(Part::Paragraph(ss))), me, roles),
        !part_calls(Part::Code { lang, text: code }, me, roles),
        parts_call(inner.push(Part::Paragraph(ss)), me, roles),
{
    assert(spans_call(ss, me, roles));
    let q = inner.push(Part::Paragraph(ss));
    assert(q[inner.len() as int] == Part::Paragraph(ss));
    assert(part_calls(q[inner.len() as int], me, roles));
    let whole = Part::Quote(q);
    assert(whole->Quote_0[inner.len() as int] == q[inner.len() as int]);
    assert(exists|j: int|
        0 <= j < whole->Quote_0.len() && part_calls(#[trigger] whole->Quote_0[j], me, roles));
}

/// The clock is the hour and the minute at the reader's place, in two digits
/// each.
pub proof fn clocks_show_hours_and_minutes(unix: i64, offset: i32)
    ensures
        ({
            let s = (unix + 60 * offset) % 86400;
            let c = clock(unix, offset);
            &&& c.len() == 5
            &&& c[2] == ':'
            &&& text::dec_value(c.take(2)) == s / 3600
            &&& text::dec_value(c.skip(3)) == (s / 60) % 60
        }),
{
    reveal_strlit(":");
    let s = time::shifted(unix, offset) % 86400;
    let c = clock(unix, offset);
    assert(c.take(2) =~= crate::pages::chat::rows::two_digits(s / 3600));
    assert(c.skip(3) =~= crate::pages::chat::rows::two_digits(s % 3600 / 60));
    lemma_two(s / 3600);
    lemma_two(s % 3600 / 60);
}

proof fn lemma_two(n: int)
    requires
        0 <= n < 100,
    ensures
        text::dec_value(crate::pages::chat::rows::two_digits(n)) == n,
{
    let t = crate::pages::chat::rows::two_digits(n);
    assert(t.drop_last() =~= seq![t[0]]);
    assert(seq![t[0]].drop_last() =~= Seq::<char>::empty());
    reveal_with_fuel(text::dec_value, 3);
}

/// How long ago, or how far ahead, in the largest unit that fits once: minutes
/// below an hour, hours below a day, and days beyond.
pub proof fn distances_are_read_in_whole_units(d: int)
    ensures
        -60 < d < 60 ==> reading(d) == (0int, 0int, false),
        60 <= d < 3600 ==> reading(d) == (60int, d / 60, false),
        3600 <= d < 86400 ==> reading(d) == (3600int, d / 3600, false),
        d >= 86400 ==> reading(d) == (86400int, d / 86400, false),
        -3600 < d <= -60 ==> reading(d) == (60int, (-d) / 60, true),
        -86400 < d <= -3600 ==> reading(d) == (3600int, (-d) / 3600, true),
        d <= -86400 ==> reading(d) == (86400int, (-d) / 86400, true),
{
}

} // verus!
