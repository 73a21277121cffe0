//! What holds of the drawn screens: each node says what it stands for.

use vstd::prelude::*;
use crate::gateway::member_list::RowView;
use crate::gateway::status::Status;
use crate::model::asset::{sized, url_of};
use crate::model::{
    member_face, member_name, user_face, user_name, GuildId, MemberView, RoleId, Snowflake,
};
use crate::pages::chat::composer::{header_node, reply_node};
use crate::pages::chat::lists::{face_node, tile_grid, tile_node};
use crate::pages::chat::rows::{ChannelLine, GuildLine, MessageLine, ReplyLine, TileView};
use crate::session::{applied_all, in_as, qr_of, Entry, LoggedInView, Stage};
use crate::shell::{App, LoginField};
use crate::text;
use crate::ui::{ContentView, KeyView, Node, NodeId, State};

verus! {

/// Whether a node carries a state.
pub open spec fn marked(n: Node, s: State) -> bool {
    n.states.contains(s)
}

proof fn lemma_state(n: Node, on: bool, s: State, t: State)
    ensures
        marked(n.with_state_if(on, s), t) <==> marked(n, t) || (on && s == t),
{
    if on {
        let m = n.states.push(s);
        if n.states.contains(t) {
            assert(m[n.states.index_of(t)] == t);
        }
        assert(m[n.states.len() as int] == s);
        if m.contains(t) {
            let k = m.index_of(t);
            if k < n.states.len() {
                assert(n.states[k] == t);
            }
        }
    }
}

/// A picture where there is one, else the first letter of the name.
pub proof fn faces_show_a_picture_or_a_letter(id: NodeId, name: Seq<char>, url: Seq<char>)
    ensures
        face_node(id, Some(url), name).content == ContentView::Image(url),
        name.len() > 0 ==> face_node(id, None, name).content == ContentView::Text(seq![name[0]]),
        face_node(id, Some(url), name).id == id,
{
    if name.len() > 0 {
        assert(name.take(1) =~= seq![name[0]]);
    }
}

// ── channels and guilds ────────────────────────────────────────────────────

/// A channel in the list goes by its name and its id; it is marked where it is
/// open, unread or mentions us, and shows how many mentions there are. A
/// category reads as its name and nothing more.
pub proof fn channels_are_drawn(a: App, c: ChannelLine)
    ensures
        ({
            let n = a.channel_node(c);
            &&& n.key == Some(KeyView::Id(c.id))
            &&& c.category ==> n.id == NodeId::NavChannelListCategory && n.content
                == ContentView::Text(c.name) && n.children.len() == 0
            &&& !c.category ==> {
                &&& n.id == NodeId::NavChannelListItem
                &&& n.data == Some(c.id)
                &&& marked(n, State::Selected) <==> c.id == a.chat.selected_channel
                &&& marked(n, State::Unread) <==> c.unread
                &&& marked(n, State::Mentioned) <==> c.mentions > 0
                &&& n.children[0].content == ContentView::Icon(c.icon)
                &&& n.children[1].content == ContentView::Text(c.name)
                &&& n.children.len() == (if c.mentions > 0 {
                    3int
                } else {
                    2
                })
                &&& c.mentions > 0 ==> n.children[2].content == ContentView::Text(
                    text::dec(c.mentions as nat),
                )
            }
        }),
{
    if !c.category {
        let n0 = Node::new(NodeId::NavChannelListItem).with_id_key(c.id).with_data(c.id);
        let on = c.id == a.chat.selected_channel;
        let over = a.over_id(NodeId::NavChannelListItem, c.id);
        lemma_three(n0, on, c.unread, c.mentions > 0, over, State::Selected);
        lemma_three(n0, on, c.unread, c.mentions > 0, over, State::Unread);
        lemma_three(n0, on, c.unread, c.mentions > 0, over, State::Mentioned);
    }
}

proof fn lemma_three(n0: Node, a: bool, b: bool, c: bool, d: bool, t: State)
    requires
        n0.states.len() == 0,
    ensures
        ({
            let n = n0.with_state_if(a, State::Selected).with_state_if(
                b,
                State::Unread,
            ).with_state_if(c, State::Mentioned).with_state_if(d, State::Hover);
            marked(n, t) <==> (a && t == State::Selected) || (b && t == State::Unread) || (c && t
                == State::Mentioned) || (d && t == State::Hover)
        }),
{
    let n1 = n0.with_state_if(a, State::Selected);
    let n2 = n1.with_state_if(b, State::Unread);
    let n3 = n2.with_state_if(c, State::Mentioned);
    lemma_state(n0, a, State::Selected, t);
    lemma_state(n1, b, State::Unread, t);
    lemma_state(n2, c, State::Mentioned, t);
    lemma_state(n3, d, State::Hover, t);
}

/// A guild in the list is marked where it is open, unread, mentions us or stands
/// in a folder, and shows how many mentions there are. The pill beside it is
/// there where it says anything.
pub proof fn guilds_are_drawn(a: App, g: TileView)
    ensures
        ({
            let n = a.guild_node(g);
            let selected = g.id == a.chat.selected_guild;
            let hovered = a.over_id(NodeId::NavGuildListItem, g.id);
            &&& n.id == NodeId::NavGuildListItem
            &&& n.key == Some(KeyView::Id(g.id))
            &&& marked(n, State::Selected) <==> selected
            &&& marked(n, State::Unread) <==> g.unread
            &&& marked(n, State::Mentioned) <==> g.mentions > 0
            &&& marked(n, State::Grouped) <==> g.in_folder
            &&& a.pill_node(g, selected, hovered) is Some <==> selected || hovered || g.unread
            &&& g.mentions > 0 ==> n.children.last().content == ContentView::Text(
                text::dec(g.mentions as nat),
            )
        }),
{
    let selected = g.id == a.chat.selected_guild;
    let hovered = a.over_id(NodeId::NavGuildListItem, g.id);
    let n0 = Node::new(NodeId::NavGuildListItem).with_id_key(g.id).with_data(g.id);
    lemma_four(n0, selected, g.unread, g.mentions > 0, g.in_folder, hovered, State::Selected);
    lemma_four(n0, selected, g.unread, g.mentions > 0, g.in_folder, hovered, State::Unread);
    lemma_four(n0, selected, g.unread, g.mentions > 0, g.in_folder, hovered, State::Mentioned);
    lemma_four(n0, selected, g.unread, g.mentions > 0, g.in_folder, hovered, State::Grouped);
}

proof fn lemma_four(n0: Node, a: bool, b: bool, c: bool, d: bool, e: bool, t: State)
    requires
        n0.states.len() == 0,
    ensures
        ({
            let n = n0.with_state_if(a, State::Selected).with_state_if(
                b,
                State::Unread,
            ).with_state_if(c, State::Mentioned).with_state_if(d, State::Grouped).with_state_if(
                e,
                State::Hover,
            );
            marked(n, t) <==> (a && t == State::Selected) || (b && t == State::Unread) || (c && t
                == State::Mentioned) || (d && t == State::Grouped) || (e && t == State::Hover)
        }),
{
    let n1 = n0.with_state_if(a, State::Selected);
    let n2 = n1.with_state_if(b, State::Unread);
    let n3 = n2.with_state_if(c, State::Mentioned);
    let n4 = n3.with_state_if(d, State::Grouped);
    lemma_state(n0, a, State::Selected, t);
    lemma_state(n1, b, State::Unread, t);
    lemma_state(n2, c, State::Mentioned, t);
    lemma_state(n3, d, State::Grouped, t);
    lemma_state(n4, e, State::Hover, t);
}

/// A folder: folded it shows its first four guilds two by two, open it shows
/// them all behind its own mark.
pub proof fn folders_are_drawn(a: App, g: GuildLine, k: int)
    requires
        g.folder_of_own is Some,
    ensures
        ({
            let n = a.folder_node(g);
            &&& n.id == NodeId::NavGuildListFolder
            &&& n.key == Some(KeyView::Id(g.folder_of_own->0))
            &&& n.tint == g.tint
            &&& g.collapsed ==> n.children == seq![tile_grid(g.members)]
            &&& !g.collapsed ==> n.children.len() == g.members.len() + 1
            &&& !g.collapsed && 0 <= k < g.members.len() ==> n.children[k + 1] == a.guild_node(
                g.members[k],
            )
        }),
        g.members.len() == 0 ==> tile_grid(g.members).children.len() == 0,
        g.members.len() == 1 || g.members.len() == 2 ==> tile_grid(g.members).children.len() == 1,
        g.members.len() > 2 ==> tile_grid(g.members).children.len() == 2,
        g.members.len() >= 4 && 0 <= k < 4 ==> tile_grid(g.members).children[k / 2].children[k % 2]
            == tile_node(g.members[k]),
{
    let n = a.folder_node(g);
    if g.collapsed {
        assert(n.children =~= seq![tile_grid(g.members)]);
    }
    if g.members.len() >= 4 && 0 <= k < 4 {
        assert(k == 0 || k == 1 || k == 2 || k == 3);
    }
}

/// A guild that stands in a folder is drawn by the folder and not once more.
pub proof fn guilds_are_drawn_once(a: App, g: GuildLine)
    ensures
        g.folder_of_own is Some ==> a.guild_row_node(g) == Some(a.folder_node(g)),
        g.folder_of_own is None && g.tile.in_folder ==> a.guild_row_node(g) is None,
        g.folder_of_own is None && !g.tile.in_folder ==> a.guild_row_node(g) == Some(
            a.guild_node(g.tile),
        ),
{
}

// ── messages ───────────────────────────────────────────────────────────────

/// A message: the first of a run shows who wrote it, by face and by name in
/// their colour, and when; the others show what is said alone. What an answer
/// answers stands before it. One that calls us is marked.
pub proof fn messages_are_drawn(a: App, m: MessageLine, grouped: bool)
    ensures
        ({
            let n = a.message_node(m, grouped);
            let before: int = if m.reply is Some {
                1
            } else {
                0
            };
            &&& n.id == NodeId::ChatMessage
            &&& n.key == Some(KeyView::Id(m.id))
            &&& marked(n, State::Grouped) <==> grouped
            &&& marked(n, State::Mentioned) <==> m.mentioned
            &&& n.children.len() == before + (if grouped {
                1int
            } else {
                3
            })
            &&& n.children.last().id == NodeId::ChatMessageContent && n.children.last().key == Some(
                KeyView::Id(m.id),
            )
            &&& m.reply matches Some(r) ==> n.children[0] == reply_node(r)
            &&& !grouped ==> n.children[before] == face_node(
                NodeId::ChatMessageAvatar,
                m.avatar,
                m.author,
            ) && n.children[before + 1] == header_node(m)
        }),
        header_node(m).children[0].content == ContentView::Text(m.author),
        header_node(m).children[0].tint == m.tint,
        header_node(m).children[1].content == ContentView::Text(m.time),
        header_node(m).children.len() == 2,
{
    reveal(App::message_node);
    let n0 = Node::new(NodeId::ChatMessage).with_id_key(m.id).with_data(m.id);
    let over = a.over_id(NodeId::ChatMessage, m.id);
    let n1 = n0.with_state_if(grouped, State::Grouped);
    let n2 = n1.with_state_if(m.mentioned, State::Mentioned);
    lemma_state(n0, grouped, State::Grouped, State::Grouped);
    lemma_state(n1, m.mentioned, State::Mentioned, State::Grouped);
    lemma_state(n2, over, State::Hover, State::Grouped);
    lemma_state(n0, grouped, State::Grouped, State::Mentioned);
    lemma_state(n1, m.mentioned, State::Mentioned, State::Mentioned);
    lemma_state(n2, over, State::Hover, State::Mentioned);
}

/// The line of an answer: whose message it answers and how that begins, and
/// pressing it goes there.
pub proof fn answers_say_what_they_answer(r: ReplyLine)
    ensures
        reply_node(r).key == Some(KeyView::Id(r.target)),
        reply_node(r).children.len() == 2,
        reply_node(r).children[0] == face_node(
            NodeId::ChatMessageReplyRefAvatar,
            r.avatar,
            r.author,
        ),
        reply_node(r).children[1].content == ContentView::Text(r.author + ": "@ + r.snippet),
{
}

// ── people ─────────────────────────────────────────────────────────────────

/// A member in the list: the name and the face that they have in the guild, in
/// the colour of their topmost role, with their status beside the face.
pub proof fn members_are_drawn(a: App, guild: GuildId, m: MemberView, status: Status)
    requires
        m.user is Some,
    ensures
        a.member_node(guild, m, status) matches Some(n) && {
            let u = m.user->0;
            &&& n.key == Some(KeyView::Id(u.id.0.0))
            &&& n.children.len() == 2
            &&& n.children[0].content == ContentView::Image(
                url_of(sized(member_face(m, guild, u), a.given.sizes.small_avatar)),
            )
            &&& n.children[0].children[0].key == Some(
                KeyView::Slot(
                    match status {
                        Status::Online => "online"@,
                        Status::Idle => "idle"@,
                        Status::Dnd => "dnd"@,
                        Status::Invisible => "invisible"@,
                        Status::Offline => "offline"@,
                    },
                ),
            )
            &&& n.children[1].content == ContentView::Text(member_name(m, u))
            &&& n.children[1].tint == a.live.tint_spec(guild, m.roles)
        },
{
}

/// A heading names who stands below it and counts them; a role goes by its own
/// name, and one that is not known has no heading.
pub proof fn headings_are_drawn(a: App, guild: GuildId, id: Seq<char>, count: u32)
    ensures
        id == "online"@ ==> (a.member_row_node(guild, RowView::Group { id, count }) matches Some(n)
            && n.content == ContentView::Text("オンライン"@ + " — "@ + text::dec(count as nat))),
        id == "offline"@ ==> (a.member_row_node(guild, RowView::Group { id, count }) matches Some(n)
            && n.content == ContentView::Text("オフライン"@ + " — "@ + text::dec(count as nat))),
        id != "online"@ && id != "offline"@ ==> match crate::model::snowflake::id_of(id) {
            Some(role) => match a.live.role_name_spec(guild, RoleId(Snowflake(role))) {
                Some(name) => a.member_row_node(guild, RowView::Group { id, count }) matches Some(n)
                    && n.content == ContentView::Text(name + " — "@ + text::dec(count as nat)),
                None => a.member_row_node(guild, RowView::Group { id, count }) is None,
            },
            None => a.member_row_node(guild, RowView::Group { id, count }) is None,
        },
{
    reveal_strlit("online");
    reveal_strlit("offline");
    assert("online"@.len() == 6 && "offline"@.len() == 7);
}

/// Our own panel: our face, our name, and our status where it is known, in words
/// and as a mark.
pub proof fn our_panel_is_drawn(a: App, l: LoggedInView)
    requires
        in_as(a.login.session) == Some(l),
    ensures
        a.user_panel_node() matches Some(n) && {
            &&& n.children.len() == 3
            &&& n.children[0].content == ContentView::Image(
                url_of(sized(user_face(l.me.user), a.given.sizes.small_avatar)),
            )
            &&& n.children[1].children[0].content == ContentView::Text(user_name(l.me.user))
            &&& a.live.status is None ==> n.children[0].children.len() == 0
                && n.children[1].children.len() == 1
            &&& a.live.status == Some(Status::Online) ==> n.children[1].children[1].content
                == ContentView::Text("オンライン"@) && n.children[0].children[0].key == Some(
                KeyView::Slot("online"@),
            )
            &&& a.live.status == Some(Status::Idle) ==> n.children[1].children[1].content
                == ContentView::Text("退席中"@) && n.children[0].children[0].key == Some(
                KeyView::Slot("idle"@),
            )
            &&& a.live.status == Some(Status::Dnd) ==> n.children[1].children[1].content
                == ContentView::Text("取り込み中"@) && n.children[0].children[0].key == Some(
                KeyView::Slot("dnd"@),
            )
            &&& a.live.status == Some(Status::Offline) ==> n.children[1].children[1].content
                == ContentView::Text("オフライン"@)
        },
{
}

// ── the login screens ──────────────────────────────────────────────────────

/// Which form is up: the one that login asks for, else the one that was chosen;
/// without one the QR is shown.
pub proof fn login_asks_for_its_form(a: App)
    ensures
        a.login.session is PasswordTotp ==> a.form_shown() == Some(LoginField::Totp),
        a.login.session is Token ==> a.form_shown() == Some(LoginField::Token),
        a.login.session is Password && a.form.form is None ==> a.form_shown() == Some(
            LoginField::Password,
        ),
        a.login.session is WaitingForScan ==> a.form_shown() == a.form.form,
        a.login.session is Connecting ==> a.form_shown() == a.form.form,
{
}

/// The QR screen shows the code that came, and what there is to say.
pub proof fn the_code_is_drawn(a: App, url: Seq<char>)
    requires
        qr_of(a.login.session) == Some(url),
    ensures
        ({
            let column = a.qr_screen_node().children[1];
            &&& column.children.len() == 4
            &&& column.children[1].id == NodeId::PrimitiveQr && column.children[1].content
                == ContentView::Qr(url)
            &&& column.children[2].content == ContentView::Text(a.login_hint())
            &&& column.children[3].key == Some(KeyView::Slot("login_password"@))
        }),
{
}

/// Waking takes in everything that was reported, in order, and what is wrong
/// with the fields is shown on the form.
pub proof fn waking_takes_everything_in(a: App)
    ensures
        ({
            let l = applied_all(
                (Entry { inbox: seq![], ..a.login }),
                a.login.inbox,
                a.login.inbox.len(),
            );
            &&& a.login_woken().session == l.session
            &&& a.login_woken().inbox == l.inbox
            &&& !a.login_woken().ended
            &&& a.login_woken().field_errors.len() == 0
            &&& l.field_errors.len() > 0 ==> a.form_woken().field_errors == l.field_errors
            &&& l.session matches Stage::Failed(e) ==> a.login.inbox.len() > 0 ==> a.form_woken().error
                == Some(e)
            &&& l.ended && a.live.guilds@.len() > 0 ==> a.login_woken().notice == Some(
                "セッションが無効になったため、ログアウトしました"@,
            )
            &&& !(l.ended && a.live.guilds@.len() > 0) ==> a.login_woken().notice == l.notice
        }),
{
}

} // verus!
