//! What the lists and the messages show, read off what the client knows.

use vstd::prelude::*;
use crate::live::{holds, ChannelEntry, FolderRow, GuildEntry, Live};
use crate::markdown;
use crate::markdown::model::{parts_of, Entry, Kind, Part, Span};
use crate::markdown::{Block, Inline, InlineKind, Mention};
use crate::menu::{first_line, one_line};
use crate::model::asset::{sized, url_of, Place};
use crate::model::{
    channel_name, member_face, member_name, opt_text, user_face, user_name, Asset,
    ChannelId, GuildId, Member, Message, RoleId, User, UserId,
};
use crate::session::in_as;
use crate::shell::{App, Gumicord};
use crate::text;
use crate::time;
use crate::ui::{Node, NodeId, State, UiNode};

verus! {

// ── the rows ───────────────────────────────────────────────────────────────

/// A guild as the list shows it.
#[derive(Debug, Clone, PartialEq, Eq)]
pub struct GuildTile {
    pub id: u64,
    pub name: String,
    /// Icon URL; the initials stand in when absent.
    pub icon: Option<String>,
    pub unread: bool,
    pub mentions: u32,
    /// Whether it sits inside a folder; the indent is the theme's.
    pub in_folder: bool,
}

/// [`GuildTile`] with the text as character sequences.
pub ghost struct TileView {
    pub id: u64,
    pub name: Seq<char>,
    pub icon: Option<Seq<char>>,
    pub unread: bool,
    pub mentions: u32,
    pub in_folder: bool,
}

impl View for GuildTile {
    type V = TileView;

    open spec fn view(&self) -> TileView {
        TileView {
            id: self.id,
            name: self.name@,
            icon: opt_text(self.icon),
            unread: self.unread,
            mentions: self.mentions,
            in_folder: self.in_folder,
        }
    }
}

pub open spec fn tiles_of(v: Seq<GuildTile>) -> Seq<TileView> {
    Seq::new(v.len(), |i: int| v[i]@)
}

/// One row of the guild list: a guild, or a folder of them.
#[derive(Debug, Clone, PartialEq, Eq)]
pub struct GuildRow {
    /// The guild, or the folder drawn like one.
    pub tile: GuildTile,
    /// The folder id, when this row is a folder header.
    pub folder_of_own: Option<u64>,
    /// Whether the folder is folded.
    pub collapsed: bool,
    /// The folder's colour; where it lands is the theme's call.
    pub tint: Option<u32>,
    /// What the folder holds: children when open, tiles when folded.
    pub members: Vec<GuildTile>,
}

/// [`GuildRow`] with the text as character sequences.
pub ghost struct GuildLine {
    pub tile: TileView,
    pub folder_of_own: Option<u64>,
    pub collapsed: bool,
    pub tint: Option<u32>,
    pub members: Seq<TileView>,
}

impl View for GuildRow {
    type V = GuildLine;

    open spec fn view(&self) -> GuildLine {
        GuildLine {
            tile: self.tile@,
            folder_of_own: self.folder_of_own,
            collapsed: self.collapsed,
            tint: self.tint,
            members: tiles_of(self.members@),
        }
    }
}

pub open spec fn guild_lines_of(v: Seq<GuildRow>) -> Seq<GuildLine> {
    Seq::new(v.len(), |i: int| v[i]@)
}

/// One row of the channel list.
#[derive(Debug, Clone, PartialEq, Eq)]
pub struct ChannelRow {
    pub id: u64,
    pub name: String,
    pub icon: &'static str,
    pub topic: Option<String>,
    pub unread: bool,
    pub mentions: u32,
    /// A category heading; nothing opens.
    pub category: bool,
}

/// [`ChannelRow`] with the text as character sequences.
pub ghost struct ChannelLine {
    pub id: u64,
    pub name: Seq<char>,
    pub icon: Seq<char>,
    pub topic: Option<Seq<char>>,
    pub unread: bool,
    pub mentions: u32,
    pub category: bool,
}

impl View for ChannelRow {
    type V = ChannelLine;

    open spec fn view(&self) -> ChannelLine {
        ChannelLine {
            id: self.id,
            name: self.name@,
            icon: self.icon@,
            topic: opt_text(self.topic),
            unread: self.unread,
            mentions: self.mentions,
            category: self.category,
        }
    }
}

pub open spec fn channel_lines_of(v: Seq<ChannelRow>) -> Seq<ChannelLine> {
    Seq::new(v.len(), |i: int| v[i]@)
}

/// Who and what a reply answers: one line.
#[derive(Debug, Clone, PartialEq, Eq)]
pub struct ReplyRef {
    pub author: String,
    pub snippet: String,
    /// Small avatar URL; everyone has one, default included.
    pub avatar: Option<String>,
    /// The answered message, to jump to on press.
    pub target: u64,
}

/// [`ReplyRef`] with the text as character sequences.
pub ghost struct ReplyLine {
    pub author: Seq<char>,
    pub snippet: Seq<char>,
    pub avatar: Option<Seq<char>>,
    pub target: u64,
}

impl View for ReplyRef {
    type V = ReplyLine;

    open spec fn view(&self) -> ReplyLine {
        ReplyLine {
            author: self.author@,
            snippet: self.snippet@,
            avatar: opt_text(self.avatar),
            target: self.target,
        }
    }
}

pub open spec fn opt_reply(r: Option<ReplyRef>) -> Option<ReplyLine> {
    match r {
        Some(r) => Some(r@),
        None => None,
    }
}

/// One message.
#[derive(Debug, PartialEq)]
pub struct MessageRow {
    pub id: u64,
    pub author: String,
    /// Avatar URL; the initials stand in when absent.
    pub avatar: Option<String>,
    /// The role colour; where it lands is the theme's call.
    pub tint: Option<u32>,
    pub time: String,
    /// Local day label, also the grouping key: equal strings share a day.
    pub day: String,
    /// Whole seconds, to tell a live run from yesterday's tail.
    pub unix: i64,
    /// The parsed body. The raw text is deliberately absent: holding both
    /// invites drawing from the wrong one.
    pub blocks: Vec<Block>,
    pub mentioned: bool,
    /// The answered message, if this replies to one.
    pub reply: Option<ReplyRef>,
}

/// [`MessageRow`] with the text as character sequences.
pub ghost struct MessageLine {
    pub id: u64,
    pub author: Seq<char>,
    pub avatar: Option<Seq<char>>,
    pub tint: Option<u32>,
    pub time: Seq<char>,
    pub day: Seq<char>,
    pub unix: i64,
    pub blocks: Seq<Part>,
    pub mentioned: bool,
    pub reply: Option<ReplyLine>,
}

impl View for MessageRow {
    type V = MessageLine;

    open spec fn view(&self) -> MessageLine {
        MessageLine {
            id: self.id,
            author: self.author@,
            avatar: opt_text(self.avatar),
            tint: self.tint,
            time: self.time@,
            day: self.day@,
            unix: self.unix,
            blocks: parts_of(self.blocks@),
            mentioned: self.mentioned,
            reply: opt_reply(self.reply),
        }
    }
}

pub open spec fn message_lines_of(v: Seq<MessageRow>) -> Seq<MessageLine> {
    Seq::new(v.len(), |i: int| v[i]@)
}

// ── time ───────────────────────────────────────────────────────────────────

/// A number below a hundred in two digits.
pub open spec fn two_digits(n: int) -> Seq<char> {
    seq![text::digit_char((n / 10) as nat), text::digit_char((n % 10) as nat)]
}

/// The hour and minute at a distance from UTC.
pub open spec fn clock(unix: i64, offset: i32) -> Seq<char> {
    let s = time::shifted(unix, offset) % 86400;
    two_digits(s / 3600) + ":"@ + two_digits(s % 3600 / 60)
}

/// What a timestamp shows: clock, day and instant. One that cannot be read
/// stands as it is and has no day.
pub open spec fn time_shown(iso: Seq<char>, offset: i32) -> (Seq<char>, Seq<char>, i64) {
    match time::unix_of(iso) {
        None => (iso, seq![], 0),
        Some(unix) => (clock(unix, offset), time::day_shown(unix, offset), unix),
    }
}

fn push_two(out: &mut String, n: u32)
    requires
        n < 100,
    ensures
        final(out)@ == old(out)@ + two_digits(n as int),
{
    let ghost before = out@;
    out.push(digit_of(n / 10));
    out.push(digit_of(n % 10));
    assert(out@ =~= before + two_digits(n as int));
}

fn digit_of(d: u32) -> (r: char)
    requires
        d < 10,
    ensures
        r == text::digit_char(d as nat),
{
    match d {
        0 => '0',
        1 => '1',
        2 => '2',
        3 => '3',
        4 => '4',
        5 => '5',
        6 => '6',
        7 => '7',
        8 => '8',
        _ => '9',
    }
}

/// Splits an ISO 8601 timestamp into local `HH:MM`, day label and instant.
///
/// The day label doubles as the grouping key. Anything unparseable keeps the
/// raw string for display and never groups.
pub fn row_time(iso: &str, utc_offset_minutes: i32) -> (r: (String, String, i64))
    ensures
        (r.0@, r.1@, r.2) == time_shown(iso@, utc_offset_minutes),
{
    match time::parse_unix(iso) {
        None => {
            let day = String::new();
            assert(day@ =~= seq![]);
            (text::owned(iso), day, 0)
        },
        Some(unix) => {
            let (day, h, m) = time::local_day_hm(unix, utc_offset_minutes);
            let mut shown = String::new();
            push_two(&mut shown, h);
            shown.append(":");
            push_two(&mut shown, m);
            assert(shown@ =~= clock(unix, utc_offset_minutes));
            (shown, day, unix)
        },
    }
}

// ── mentions ───────────────────────────────────────────────────────────────

/// Whether a mention is of us: by name, by one of our roles, or of everyone.
pub open spec fn mention_calls(m: Mention, me: Option<UserId>, roles: Option<Seq<RoleId>>) -> bool {
    match m {
        Mention::User(id) => me == Some(UserId(crate::model::Snowflake(id))),
        Mention::Role(id) => match roles {
            Some(r) => r.contains(RoleId(crate::model::Snowflake(id))),
            None => false,
        },
        Mention::Everyone | Mention::Here => true,
        Mention::Channel(_) => false,
    }
}

pub open spec fn span_calls(s: Span, me: Option<UserId>, roles: Option<Seq<RoleId>>) -> bool {
    match s.kind {
        Kind::Mention(m) => mention_calls(m, me, roles),
        _ => false,
    }
}

pub open spec fn spans_call(ss: Seq<Span>, me: Option<UserId>, roles: Option<Seq<RoleId>>) -> bool {
    exists|i: int| 0 <= i < ss.len() && span_calls(#[trigger] ss[i], me, roles)
}

pub open spec fn entries_call(
    es: Seq<Entry>,
    me: Option<UserId>,
    roles: Option<Seq<RoleId>>,
) -> bool {
    exists|i: int| 0 <= i < es.len() && spans_call((#[trigger] es[i]).content, me, roles)
}

/// Whether a block mentions us, quotes and lists included. Not inside code.
pub open spec fn part_calls(p: Part, me: Option<UserId>, roles: Option<Seq<RoleId>>) -> bool
    decreases p,
{
    match p {
        Part::Paragraph(c) => spans_call(c, me, roles),
        Part::Heading { content, .. } => spans_call(content, me, roles),
        Part::Subtext(c) => spans_call(c, me, roles),
        Part::Quote(inner) => exists|i: int|
            0 <= i < inner.len() && part_calls(#[trigger] inner[i], me, roles),
        Part::List(items) => entries_call(items, me, roles),
        Part::Code { .. } => false,
    }
}

pub open spec fn parts_call(ps: Seq<Part>, me: Option<UserId>, roles: Option<Seq<RoleId>>) -> bool {
    exists|i: int| 0 <= i < ps.len() && part_calls(#[trigger] ps[i], me, roles)
}

pub open spec fn opt_roles(r: Option<&Vec<RoleId>>) -> Option<Seq<RoleId>> {
    match r {
        Some(r) => Some(r@),
        None => None,
    }
}

fn mention_is_of_us(m: Mention, me: Option<UserId>, roles: Option<&Vec<RoleId>>) -> (r: bool)
    ensures
        r == mention_calls(m, me, opt_roles(roles)),
{
    match m {
        Mention::User(id) => match me {
            Some(u) => u == UserId::from(id),
            None => false,
        },
        Mention::Role(id) => match roles {
            Some(r) => holds(r, RoleId::from(id)),
            None => false,
        },
        Mention::Everyone | Mention::Here => true,
        Mention::Channel(_) => false,
    }
}

fn inlines_call(c: &Vec<Inline>, me: Option<UserId>, roles: Option<&Vec<RoleId>>) -> (r: bool)
    ensures
        r == spans_call(crate::markdown::model::spans_of(c@), me, opt_roles(roles)),
{
    let ghost ss = crate::markdown::model::spans_of(c@);
    let mut i: usize = 0;
    while i < c.len()
        invariant
            i <= c@.len(),
            ss == crate::markdown::model::spans_of(c@),
            forall|k: int| 0 <= k < i ==> !span_calls(#[trigger] ss[k], me, opt_roles(roles)),
        decreases c@.len() - i,
    {
        assert(ss[i as int] == c@[i as int]@);
        if let InlineKind::Mention(m) = &c[i].kind {
            if mention_is_of_us(*m, me, roles) {
                assert(span_calls(ss[i as int], me, opt_roles(roles)));
                return true;
            }
        }
        i += 1;
    }
    false
}

fn items_call(c: &Vec<markdown::Item>, me: Option<UserId>, roles: Option<&Vec<RoleId>>) -> (r: bool)
    ensures
        r == entries_call(crate::markdown::model::entries_of(c@), me, opt_roles(roles)),
{
    let ghost es = crate::markdown::model::entries_of(c@);
    let mut i: usize = 0;
    while i < c.len()
        invariant
            i <= c@.len(),
            es == crate::markdown::model::entries_of(c@),
            forall|k: int|
                0 <= k < i ==> !spans_call((#[trigger] es[k]).content, me, opt_roles(roles)),
        decreases c@.len() - i,
    {
        assert(es[i as int] == c@[i as int]@);
        if inlines_call(&c[i].content, me, roles) {
            return true;
        }
        i += 1;
    }
    false
}

fn block_calls(b: &Block, me: Option<UserId>, roles: Option<&Vec<RoleId>>) -> (r: bool)
    ensures
        r == part_calls(b@, me, opt_roles(roles)),
    decreases *b,
{
    match b {
        Block::Paragraph(c) => inlines_call(c, me, roles),
        Block::Heading { content, .. } => inlines_call(content, me, roles),
        Block::Subtext(c) => inlines_call(c, me, roles),
        Block::Quote(inner) => {
            let ghost ps = parts_of(inner@);
            proof {
                markdown::model::lemma_quote_view(*inner);
            }
            let mut i: usize = 0;
            while i < inner.len()
                invariant
                    i <= inner@.len(),
                    ps == parts_of(inner@),
                    b@ == Part::Quote(ps),
                    *b == Block::Quote(*inner),
                    forall|k: int|
                        0 <= k < i ==> !part_calls(#[trigger] ps[k], me, opt_roles(roles)),
                decreases inner@.len() - i,
            {
                assert(ps[i as int] == inner@[i as int]@);
                if block_calls(&inner[i], me, roles) {
                    proof {
                        quotes_call_what_they_hold(ps, me, opt_roles(roles));
                    }
                    assert(parts_call(ps, me, opt_roles(roles)));
                    return true;
                }
                i += 1;
            }
            false
        },
        Block::List(items) => items_call(items, me, roles),
        Block::Code { .. } => false,
    }
}

/// Whether a body mentions us.
///
/// Reads the parse, not the raw string: a `<@1>` inside code is not a mention,
/// and matching on text would notify someone for writing about one. Roles count
/// too, or being called by role goes unnoticed.
pub fn calls_me(blocks: &Vec<Block>, me: Option<UserId>, roles: Option<&Vec<RoleId>>) -> (r: bool)
    ensures
        r == parts_call(parts_of(blocks@), me, opt_roles(roles)),
{
    let ghost ps = parts_of(blocks@);
    let mut i: usize = 0;
    while i < blocks.len()
        invariant
            i <= blocks@.len(),
            ps == parts_of(blocks@),
            forall|k: int| 0 <= k < i ==> !part_calls(#[trigger] ps[k], me, opt_roles(roles)),
        decreases blocks@.len() - i,
    {
        assert(ps[i as int] == blocks@[i as int]@);
        if block_calls(&blocks[i], me, roles) {
            assert(part_calls(ps[i as int], me, opt_roles(roles)));
            return true;
        }
        i += 1;
    }
    false
}

/// What is written inside code never mentions anyone.
pub proof fn code_never_calls(ps: Seq<Part>, me: Option<UserId>, roles: Option<Seq<RoleId>>)
    requires
        forall|i: int| 0 <= i < ps.len() ==> #[trigger] ps[i] is Code,
    ensures
        !parts_call(ps, me, roles),
{
}

/// A quote mentions whom its contents mention.
pub proof fn quotes_call_what_they_hold(
    inner: Seq<Part>,
    me: Option<UserId>,
    roles: Option<Seq<RoleId>>,
)
    ensures
        part_calls(Part::Quote(inner), me, roles) == parts_call(inner, me, roles),
{
    let q = Part::Quote(inner);
    if parts_call(inner, me, roles) {
        let i = choose|i: int| 0 <= i < inner.len() && part_calls(#[trigger] inner[i], me, roles);
        assert(q->Quote_0[i] == inner[i]);
        assert(exists|j: int|
            0 <= j < q->Quote_0.len() && part_calls(#[trigger] q->Quote_0[j], me, roles));
        assert(part_calls(q, me, roles));
    }
    if part_calls(q, me, roles) {
        assert(parts_call(inner, me, roles));
    }
}

// ── snippets ───────────────────────────────────────────────────────────────

/// How many characters of a referenced message show.
pub const REPLY_SNIPPET_LEN: usize = 120;

/// The referenced message in one line. The first line only; longer bodies end
/// in an ellipsis rather than wrapping the header.
pub fn reply_snippet(content: &str) -> (r: String)
    ensures
        r@ == first_line(content@, REPLY_SNIPPET_LEN as int),
{
    one_line(content, REPLY_SNIPPET_LEN)
}

// ── a row that is on its way ───────────────────────────────────────────────

/// The row that says a list continues.
pub open spec fn loading_node(slot: Seq<char>) -> Node {
    Node::new(NodeId::LayoutRow).with_slot(slot).with_state(State::Loading).child(
        Node::text(NodeId::PrimitiveText, "読み込んでいます…"@),
    )
}

/// The row that says a list continues.
pub fn loading_row(slot: &'static str) -> (r: UiNode)
    ensures
        r@ == loading_node(slot@),
{
    UiNode::new(NodeId::LayoutRow).with_slot(slot).with_state(State::Loading).child(
        UiNode::text(NodeId::PrimitiveText, "読み込んでいます…"),
    )
}

// ── guilds ─────────────────────────────────────────────────────────────────

/// The icon's URL at the size the list draws it.
pub open spec fn icon_url(live: Live, guild: GuildId, size: u16) -> Option<Seq<char>> {
    match live.icon_spec(guild) {
        Some(p) => Some(url_of(sized(p, size))),
        None => None,
    }
}

/// A guild as the list shows it.
pub open spec fn tile_in(
    live: Live,
    guild: GuildId,
    name: Seq<char>,
    in_folder: bool,
    size: u16,
) -> TileView {
    TileView {
        id: guild.0.0,
        name,
        icon: icon_url(live, guild, size),
        unread: live.unread_spec(guild).0,
        mentions: live.unread_spec(guild).1,
        in_folder,
    }
}

/// The first `n` guilds of a folder that are known.
pub open spec fn tiles_in(live: Live, gs: Seq<GuildId>, n: nat, size: u16) -> Seq<TileView>
    decreases n,
{
    if n == 0 || n > gs.len() {
        seq![]
    } else {
        let before = tiles_in(live, gs, (n - 1) as nat, size);
        match live.guild_spec(gs[n - 1]) {
            Some(g) => before.push(tile_in(live, gs[n - 1], g.name@, true, size)),
            None => before,
        }
    }
}

/// The names of the first `n` guilds of a folder that are known.
pub open spec fn names_in(live: Live, gs: Seq<GuildId>, n: nat) -> Seq<Seq<char>>
    decreases n,
{
    if n == 0 || n > gs.len() {
        seq![]
    } else {
        let before = names_in(live, gs, (n - 1) as nat);
        match live.guild_spec(gs[n - 1]) {
            Some(g) => before.push(g.name@),
            None => before,
        }
    }
}

/// Whether anything among the first `n` guilds is unread.
pub open spec fn any_unread(live: Live, gs: Seq<GuildId>, n: nat) -> bool
    decreases n,
{
    if n == 0 || n > gs.len() {
        false
    } else {
        any_unread(live, gs, (n - 1) as nat) || live.unread_spec(gs[n - 1]).0
    }
}

/// The mentions among the first `n` guilds.
pub open spec fn all_mentions(live: Live, gs: Seq<GuildId>, n: nat) -> nat
    decreases n,
{
    if n == 0 || n > gs.len() {
        0
    } else {
        all_mentions(live, gs, (n - 1) as nat) + live.unread_spec(gs[n - 1]).1 as nat
    }
}

pub open spec fn capped(n: nat) -> u32 {
    if n > u32::MAX {
        u32::MAX
    } else {
        n as u32
    }
}

/// The name of a folder: its own, or those of the guilds inside.
pub open spec fn folder_name(live: Live, row: FolderRow) -> Seq<char> {
    match opt_text(row.name) {
        Some(n) => n,
        None => text::listed(names_in(live, row.guilds@, row.guilds@.len()), "、"@),
    }
}

/// One row of the guild list.
pub open spec fn guild_line(live: Live, e: GuildEntry, size: u16) -> GuildLine {
    match e {
        GuildEntry::Folder { id, row } => GuildLine {
            tile: TileView {
                id,
                name: folder_name(live, row),
                icon: None,
                unread: any_unread(live, row.guilds@, row.guilds@.len()),
                mentions: capped(all_mentions(live, row.guilds@, row.guilds@.len())),
                in_folder: false,
            },
            folder_of_own: Some(id),
            collapsed: live.collapsed@.contains(id),
            tint: row.color,
            members: tiles_in(live, row.guilds@, row.guilds@.len(), size),
        },
        GuildEntry::Guild { id, name, in_folder } => GuildLine {
            tile: tile_in(live, id, name@, in_folder, size),
            folder_of_own: None,
            collapsed: false,
            tint: None,
            members: seq![],
        },
    }
}

// ── channels ───────────────────────────────────────────────────────────────

/// One row of the channel list. Categories are headings and carry nothing else.
pub open spec fn channel_line(live: Live, e: ChannelEntry) -> ChannelLine {
    match e {
        ChannelEntry::Category(c) => ChannelLine {
            id: c.id.0.0,
            name: channel_name(c@),
            icon: ""@,
            topic: None,
            unread: false,
            mentions: 0,
            category: true,
        },
        ChannelEntry::Channel(c) => ChannelLine {
            id: c.id.0.0,
            name: channel_name(c@),
            icon: crate::model::kind::kind_icon(c.kind),
            topic: opt_text(c.topic),
            unread: match live.channel_spec(c.id) {
                Some(s) => s.unread,
                None => false,
            },
            mentions: match live.channel_spec(c.id) {
                Some(s) => s.mentions,
                None => 0,
            },
            category: false,
        },
    }
}

pub open spec fn channel_lines(live: Live, es: Seq<ChannelEntry>) -> Seq<ChannelLine> {
    Seq::new(es.len(), |i: int| channel_line(live, es[i]))
}

/// The rows that can be opened.
pub open spec fn openable(ls: Seq<ChannelLine>) -> Seq<ChannelLine> {
    ls.filter(|l: ChannelLine| !l.category)
}

// ── messages ───────────────────────────────────────────────────────────────

/// The sender's face in the guild: the one that came with the message, else the
/// one last seen.
pub open spec fn member_of(live: Live, guild: GuildId, m: Message) -> Option<Member> {
    match m.member {
        Some(x) => Some(x),
        None => live.member_spec(guild, m.author.id),
    }
}

pub open spec fn name_shown(member: Option<Member>, user: User) -> Seq<char> {
    match member {
        Some(x) => member_name(x@, user@),
        None => user_name(user@),
    }
}

pub open spec fn face_shown(member: Option<Member>, guild: GuildId, user: User) -> Place {
    match member {
        Some(x) => member_face(x@, guild, user@),
        None => user_face(user@),
    }
}

/// The answered message, in one line.
pub open spec fn reply_line(live: Live, guild: GuildId, r: Message, size: u16) -> ReplyLine {
    let member = live.member_spec(guild, r.author.id);
    ReplyLine {
        author: name_shown(member, r.author),
        snippet: first_line(r.content@, REPLY_SNIPPET_LEN as int),
        avatar: Some(url_of(sized(face_shown(member, guild, r.author), size))),
        target: r.id.0.0,
    }
}

impl App {
    /// Who we are.
    pub open spec fn me(self) -> Option<UserId> {
        match in_as(self.login.session) {
            Some(l) => Some(l.me.user.id),
            None => None,
        }
    }

    /// Our roles in a guild, where we have been seen there.
    pub open spec fn own_roles(self, guild: GuildId) -> Option<Seq<RoleId>> {
        match self.me() {
            Some(id) => match self.live.member_spec(guild, id) {
                Some(m) => Some(m.roles@),
                None => None,
            },
            None => None,
        }
    }

    pub open spec fn guild_id(self) -> GuildId {
        GuildId(crate::model::Snowflake(self.chat.selected_guild))
    }

    pub open spec fn channel_id(self) -> ChannelId {
        ChannelId(crate::model::Snowflake(self.chat.selected_channel))
    }

    pub open spec fn guild_lines(self) -> Seq<GuildLine> {
        Seq::new(
            self.live.sidebar@.len(),
            |i: int| guild_line(self.live, self.live.sidebar@[i], self.given.sizes.guild_icon),
        )
    }

    /// The entries of the selected guild.
    pub open spec fn entries(self) -> Seq<ChannelEntry> {
        match self.live.guild_spec(self.guild_id()) {
            Some(g) => g.entries@,
            None => seq![],
        }
    }

    /// The messages of the selected channel.
    pub open spec fn messages(self) -> Seq<Message> {
        match self.live.channel_spec(self.channel_id()) {
            Some(c) => c.messages@,
            None => seq![],
        }
    }

    pub open spec fn message_line(self, m: Message) -> MessageLine {
        let guild = self.guild_id();
        let member = member_of(self.live, guild, m);
        let blocks = markdown::block::body(m.content@);
        let shown = time_shown(m.timestamp@, self.given.utc_offset_minutes);
        MessageLine {
            id: m.id.0.0,
            author: name_shown(member, m.author),
            avatar: Some(
                url_of(sized(face_shown(member, guild, m.author), self.given.sizes.message_avatar)),
            ),
            tint: match member {
                Some(x) => self.live.tint_spec(guild, x.roles@),
                None => None,
            },
            time: shown.0,
            day: shown.1,
            unix: shown.2,
            blocks,
            mentioned: (match m.referenced_message {
                Some(r) => self.me() == Some(r.author.id),
                None => false,
            }) || parts_call(blocks, self.me(), self.own_roles(guild)),
            reply: match m.referenced_message {
                Some(r) => Some(
                    reply_line(self.live, guild, *r, self.given.sizes.reply_avatar),
                ),
                None => None,
            },
        }
    }

    pub open spec fn message_lines(self) -> Seq<MessageLine> {
        Seq::new(self.messages().len(), |i: int| self.message_line(self.messages()[i]))
    }
}

impl Gumicord {
    fn tile(&self, guild: GuildId, name: &str, in_folder: bool) -> (r: GuildTile)
        ensures
            r@ == tile_in(self.live, guild, name@, in_folder, self.given.sizes.guild_icon),
    {
        let (unread, mentions) = self.live.guild_unread(guild);
        GuildTile {
            id: guild.get(),
            name: text::owned(name),
            icon: match self.live.guild_icon(guild) {
                Some(a) => Some(a.with_size(self.given.sizes.guild_icon).url()),
                None => None,
            },
            unread,
            mentions,
            in_folder,
        }
    }

    /// The heading for an unnamed folder: the guild names inside rather than a
    /// blank.
    pub fn folder_label(&self, folder: &FolderRow) -> (r: String)
        ensures
            r@ == text::listed(
                names_in(self.live, folder.guilds@, folder.guilds@.len()),
                "、"@,
            ),
    {
        let mut names: Vec<String> = Vec::new();
        let mut i: usize = 0;
        assert(text::strings_of(names@) =~= seq![]);
        while i < folder.guilds.len()
            invariant
                i <= folder.guilds@.len(),
                text::strings_of(names@) == names_in(self.live, folder.guilds@, i as nat),
            decreases folder.guilds@.len() - i,
        {
            let ghost before = names@;
            if let Some(g) = self.live.guild(folder.guilds[i]) {
                names.push(g.name.clone());
                assert(text::strings_of(names@) =~= text::strings_of(before).push(g.name@));
            }
            i += 1;
        }
        text::list_all(&names, "、")
    }

    /// The guilds inside a folder, unfiltered: an open folder shows them all,
    /// and the caller decides how many to tile.
    pub fn folder_members(&self, folder: &FolderRow) -> (r: Vec<GuildTile>)
        ensures
            tiles_of(r@) == tiles_in(
                self.live,
                folder.guilds@,
                folder.guilds@.len(),
                self.given.sizes.guild_icon,
            ),
    {
        let mut out: Vec<GuildTile> = Vec::new();
        let mut i: usize = 0;
        assert(tiles_of(out@) =~= seq![]);
        while i < folder.guilds.len()
            invariant
                i <= folder.guilds@.len(),
                tiles_of(out@) == tiles_in(
                    self.live,
                    folder.guilds@,
                    i as nat,
                    self.given.sizes.guild_icon,
                ),
            decreases folder.guilds@.len() - i,
        {
            let ghost before = out@;
            if let Some(g) = self.live.guild(folder.guilds[i]) {
                let t = self.tile(folder.guilds[i], g.name.as_str(), true);
                out.push(t);
                assert(tiles_of(out@) =~= tiles_of(before).push(t@));
            }
            i += 1;
        }
        out
    }

    /// Folders roll up their contents, or folding one hides the unread inside.
    fn folder_unread(&self, folder: &FolderRow) -> (r: (bool, u32))
        ensures
            r.0 == any_unread(self.live, folder.guilds@, folder.guilds@.len()),
            r.1 == capped(all_mentions(self.live, folder.guilds@, folder.guilds@.len())),
    {
        let mut unread = false;
        let mut mentions: u32 = 0;
        let mut i: usize = 0;
        while i < folder.guilds.len()
            invariant
                i <= folder.guilds@.len(),
                unread == any_unread(self.live, folder.guilds@, i as nat),
                mentions == capped(all_mentions(self.live, folder.guilds@, i as nat)),
            decreases folder.guilds@.len() - i,
        {
            let (u, m) = self.live.guild_unread(folder.guilds[i]);
            unread = unread || u;
            mentions = if m > u32::MAX - mentions {
                u32::MAX
            } else {
                mentions + m
            };
            i += 1;
        }
        (unread, mentions)
    }

    fn guild_row(&self, e: &GuildEntry) -> (r: GuildRow)
        ensures
            r@ == guild_line(self.live, *e, self.given.sizes.guild_icon),
    {
        match e {
            GuildEntry::Folder { id, row } => {
                let (unread, mentions) = self.folder_unread(row);
                GuildRow {
                    tile: GuildTile {
                        id: *id,
                        name: match &row.name {
                            Some(n) => n.clone(),
                            None => self.folder_label(row),
                        },
                        // Folders have no icon; the contents are tiled instead.
                        icon: None,
                        unread,
                        mentions,
                        in_folder: false,
                    },
                    folder_of_own: Some(*id),
                    collapsed: self.live.is_collapsed(*id),
                    tint: row.color,
                    members: self.folder_members(row),
                }
            },
            GuildEntry::Guild { id, name, in_folder } => {
                let r = GuildRow {
                    tile: self.tile(*id, name.as_str(), *in_folder),
                    folder_of_own: None,
                    collapsed: false,
                    tint: None,
                    members: Vec::new(),
                };
                assert(tiles_of(r.members@) =~= seq![]);
                r
            },
        }
    }

    /// The rows of the guild list, in order.
    pub fn guild_rows(&self) -> (r: Vec<GuildRow>)
        ensures
            guild_lines_of(r@) == self@.guild_lines(),
    {
        let mut out: Vec<GuildRow> = Vec::new();
        let mut i: usize = 0;
        while i < self.live.sidebar.len()
            invariant
                i <= self.live.sidebar@.len(),
                guild_lines_of(out@) =~= self@.guild_lines().take(i as int),
            decreases self.live.sidebar@.len() - i,
        {
            let ghost before = out@;
            let row = self.guild_row(&self.live.sidebar[i]);
            out.push(row);
            assert(guild_lines_of(out@) =~= guild_lines_of(before).push(row@));
            i += 1;
        }
        assert(guild_lines_of(out@) =~= self@.guild_lines());
        out
    }

    fn channel_row(&self, e: &ChannelEntry) -> (r: ChannelRow)
        ensures
            r@ == channel_line(self.live, *e),
    {
        match e {
            ChannelEntry::Category(c) => ChannelRow {
                id: c.id.get(),
                name: c.display_name(),
                icon: "",
                topic: None,
                unread: false,
                mentions: 0,
                category: true,
            },
            ChannelEntry::Channel(c) => {
                let (unread, mentions) = match self.live.channel(c.id) {
                    Some(s) => (s.unread, s.mentions),
                    None => (false, 0),
                };
                ChannelRow {
                    id: c.id.get(),
                    name: c.display_name(),
                    icon: c.kind.icon(),
                    topic: text::copy_opt(&c.topic),
                    unread,
                    mentions,
                    category: false,
                }
            },
        }
    }

    /// The rows of the channel list, in order.
    pub fn channel_rows(&self) -> (r: Vec<ChannelRow>)
        ensures
            channel_lines_of(r@) == channel_lines(self@.live, self@.entries()),
    {
        let mut out: Vec<ChannelRow> = Vec::new();
        let g = match self.live.guild(GuildId::from(self.chat.selected_guild)) {
            Some(g) => g,
            None => {
                assert(channel_lines_of(out@) =~= channel_lines(self@.live, self@.entries()));
                return out;
            },
        };
        let ghost want = channel_lines(self@.live, g.entries@);
        let mut i: usize = 0;
        while i < g.entries.len()
            invariant
                i <= g.entries@.len(),
                want == channel_lines(self.live, g.entries@),
                channel_lines_of(out@) =~= want.take(i as int),
            decreases g.entries@.len() - i,
        {
            let ghost before = out@;
            let row = self.channel_row(&g.entries[i]);
            out.push(row);
            assert(channel_lines_of(out@) =~= channel_lines_of(before).push(row@));
            i += 1;
        }
        assert(channel_lines_of(out@) =~= want);
        out
    }

    /// Only the rows that can be opened. Categories are headings; treating one
    /// as openable would let the default selection open a category nobody
    /// pressed.
    pub fn openable_rows(&self) -> (r: Vec<ChannelRow>)
        ensures
            channel_lines_of(r@) == openable(channel_lines(self@.live, self@.entries())),
    {
        let rows = self.channel_rows();
        let ghost all = channel_lines_of(rows@);
        let mut out: Vec<ChannelRow> = Vec::new();
        assert(channel_lines_of(out@) =~= openable(all.take(0))) by {
            reveal(Seq::filter);
        }
        let it = rows.into_iter();
        for row in o: it
            invariant
                o.seq() == rows@,
                all == channel_lines_of(rows@),
                channel_lines_of(out@) == openable(all.take(o.index())),
        {
            let ghost before = out@;
            proof {
                reveal(Seq::filter);
                assert(all.take(o.index() + 1).drop_last() =~= all.take(o.index()));
                assert(all.take(o.index() + 1).last() == row@);
            }
            if !row.category {
                out.push(row);
                assert(channel_lines_of(out@) =~= channel_lines_of(before).push(row@));
            }
        }
        assert(all.take(all.len() as int) =~= all);
        out
    }

    fn reply_ref(&self, guild: GuildId, r: &Message) -> (out: ReplyRef)
        ensures
            out@ == reply_line(self.live, guild, *r, self.given.sizes.reply_avatar),
    {
        let member = self.live.member(guild, r.author.id);
        let author = match member {
            Some(x) => text::owned(x.display_name(&r.author)),
            None => text::owned(r.author.display_name()),
        };
        let face: Asset = match member {
            Some(x) => x.display_avatar(guild, &r.author),
            None => r.author.display_avatar(),
        };
        ReplyRef {
            author,
            snippet: reply_snippet(r.content.as_str()),
            avatar: Some(face.with_size(self.given.sizes.reply_avatar).url()),
            target: r.id.get(),
        }
    }

    fn message_row(&self, m: &Message) -> (r: MessageRow)
        ensures
            r@ == self@.message_line(*m),
    {
        let me = match self.login.session().logged_in() {
            Some(l) => Some(l.me.user.id),
            None => None,
        };
        // Which guild is open is known here, not from the message: fetched
        // messages carry no guild.
        let guild = GuildId::from(self.chat.selected_guild);
        let own = match me {
            Some(id) => self.live.member(guild, id),
            None => None,
        };
        let roles = match own {
            Some(x) => Some(&x.roles),
            None => None,
        };
        // Fetched messages carry no member either; fall back to whatever was
        // seen and remembered.
        let member = match &m.member {
            Some(x) => Some(x),
            None => self.live.member(guild, m.author.id),
        };
        let blocks = markdown::parse(m.content.as_str());
        let (shown, day, unix) = row_time(m.timestamp.as_str(), self.given.utc_offset_minutes);
        // The per-guild name wins.
        let author = match member {
            Some(x) => text::owned(x.display_name(&m.author)),
            None => text::owned(m.author.display_name()),
        };
        // Everyone has an avatar: there is a default one.
        let face: Asset = match member {
            Some(x) => x.display_avatar(guild, &m.author),
            None => m.author.display_avatar(),
        };
        // The topmost coloured role wins.
        let tint = match member {
            Some(x) => self.live.member_tint(guild, &x.roles),
            None => None,
        };
        let answers_me = match (&m.referenced_message, me) {
            (Some(r), Some(id)) => r.author.id == id,
            _ => false,
        };
        let mentioned = answers_me || calls_me(&blocks, me, roles);
        let reply = match &m.referenced_message {
            Some(r) => Some(self.reply_ref(guild, &**r)),
            None => None,
        };
        MessageRow {
            id: m.id.get(),
            author,
            avatar: Some(face.with_size(self.given.sizes.message_avatar).url()),
            tint,
            time: shown,
            day,
            unix,
            blocks,
            mentioned,
            reply,
        }
    }

    /// The messages of the selected channel, oldest first.
    pub fn message_rows(&self) -> (r: Vec<MessageRow>)
        ensures
            message_lines_of(r@) == self@.message_lines(),
    {
        let mut out: Vec<MessageRow> = Vec::new();
        let c = match self.live.channel(ChannelId::from(self.chat.selected_channel)) {
            Some(c) => c,
            None => {
                assert(message_lines_of(out@) =~= self@.message_lines());
                return out;
            },
        };
        let ghost want = self@.message_lines();
        let mut i: usize = 0;
        while i < c.messages.len()
            invariant
                i <= c.messages@.len(),
                want == self@.message_lines(),
                self@.messages() == c.messages@,
                message_lines_of(out@) =~= want.take(i as int),
            decreases c.messages@.len() - i,
        {
            let ghost before = out@;
            let row = self.message_row(&c.messages[i]);
            out.push(row);
            assert(want[i as int] == row@);
            assert(message_lines_of(out@) =~= message_lines_of(before).push(row@));
            i += 1;
        }
        assert(message_lines_of(out@) =~= want);
        out
    }
}

/// A category is never among the rows that can be opened, and every other row
/// is.
pub proof fn categories_never_open(ls: Seq<ChannelLine>, i: int)
    requires
        0 <= i < ls.len(),
    ensures
        openable(ls).contains(ls[i]) == !ls[i].category,
{
    let p = |l: ChannelLine| !l.category;
    if !ls[i].category {
        ls.lemma_filter_contains(p, i);
    }
    if openable(ls).contains(ls[i]) {
        let k = choose|k: int| 0 <= k < openable(ls).len() && openable(ls)[k] == ls[i];
        ls.lemma_filter_pred(p, k);
    }
}

/// The nickname wins over the global name, and what came with a message wins
/// over what was seen before.
pub proof fn the_newest_nickname_wins(a: App, m: Message)
    requires
        m.member is Some,
        m.member->0.nick is Some,
    ensures
        a.message_line(m).author == m.member->0.nick->0@,
{
}

} // verus!
