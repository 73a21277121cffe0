//! What holds of the chat around its messages, of the menus as they are drawn,
//! and of what the screens say.

use vstd::prelude::*;
use crate::gateway::gateway::{failure_text, Failure};
use crate::gateway::guild_order::{encodings, occurs};
use crate::gateway::remote_auth::{fault_text, AuthFault};
use crate::input::Doc;
use crate::menu::{row_node, row_nodes, Deed, ItemView, SettingsCategory};
use crate::pages::chat::composer::{author_at, channel_at, drawn};
use crate::pages::chat::rows::{channel_lines, openable, ChannelLine, MessageLine};
use crate::pages::login::{failures_of, masked};
use crate::pages::node_laws::marked;
use crate::pages::overlays::{hit_from, line_at, scroll_from, Hit, Swipe};
use crate::session::{hint_of, in_as, FieldErrorView, LoggedInView, Stage};
use crate::shell::{App, Composing, LoginField, Open, Spoiler};
use crate::text;
use crate::ui::{ContentView, Key, KeyView, NodeId, State};

verus! {

// ── the open channel ───────────────────────────────────────────────────────

/// The row that is found has that id.
pub proof fn rows_are_found_by_their_id(
    cs: Seq<ChannelLine>,
    ms: Seq<MessageLine>,
    id: u64,
    k: int,
)
    ensures
        channel_at(cs, id, 0) matches Some(c) ==> c.id == id && cs.contains(c),
        0 <= k < cs.len() && cs[k].id == id ==> channel_at(cs, id, 0) is Some,
        line_at(ms, id, 0) matches Some(m) ==> m.id == id && ms.contains(m),
        0 <= k < ms.len() && ms[k].id == id ==> line_at(ms, id, 0) is Some,
        author_at(ms, id, 0) == (match line_at(ms, id, 0) {
            Some(m) => Some(m.author),
            None => None,
        }),
{
    lemma_channel_at(cs, id, 0);
    lemma_line_at(ms, id, 0);
}

proof fn lemma_channel_at(cs: Seq<ChannelLine>, id: u64, k: int)
    requires
        0 <= k <= cs.len(),
    ensures
        channel_at(cs, id, k) matches Some(c) ==> c.id == id && cs.contains(c),
        channel_at(cs, id, k) is None ==> forall|i: int|
            k <= i < cs.len() ==> (#[trigger] cs[i]).id != id,
    decreases cs.len() - k,
{
    if k < cs.len() && cs[k].id != id {
        lemma_channel_at(cs, id, k + 1);
    } else if k < cs.len() {
        assert(cs.contains(cs[k]));
    }
}

proof fn lemma_line_at(ms: Seq<MessageLine>, id: u64, k: int)
    requires
        0 <= k <= ms.len(),
    ensures
        line_at(ms, id, k) matches Some(m) ==> m.id == id && ms.contains(m),
        line_at(ms, id, k) is None ==> forall|i: int|
            k <= i < ms.len() ==> (#[trigger] ms[i]).id != id,
        author_at(ms, id, k) == (match line_at(ms, id, k) {
            Some(m) => Some(m.author),
            None => None,
        }),
    decreases ms.len() - k,
{
    if k < ms.len() && ms[k].id != id {
        lemma_line_at(ms, id, k + 1);
    } else if k < ms.len() {
        assert(ms.contains(ms[k]));
    }
}

/// The header and the composer speak of the channel that is open: the selected
/// one where it can be opened, else the first that can be.
pub proof fn the_open_channel_is_named(a: App, k: int)
    ensures
        ({
            let ls = openable(channel_lines(a.live, a.entries()));
            let h = a.heading();
            &&& a.shown_channel() matches Some(c) ==> {
                &&& h.id == c.id
                &&& h.name == c.name
                &&& h.icon == c.icon
                &&& c.topic matches Some(t) ==> h.topic == t
                &&& c.topic is None ==> h.topic.len() == 0
            }
            &&& 0 <= k < ls.len() && ls[k].id == a.chat.selected_channel ==> (a.shown_channel()
                matches Some(c) && c.id == a.chat.selected_channel)
            &&& ls.len() > 0 && (forall|i: int|
                0 <= i < ls.len() ==> (#[trigger] ls[i]).id != a.chat.selected_channel)
                ==> a.shown_channel() == Some(ls[0])
            &&& ls.len() == 0 ==> a.shown_channel() is None && h.name.len() == 0
            &&& h.name.len() > 0 ==> a.placeholder() == "#"@ + h.name + " へメッセージを送信"@
            &&& h.name.len() == 0 ==> a.placeholder() == "メッセージを送信"@
        }),
{
    let ls = openable(channel_lines(a.live, a.entries()));
    lemma_channel_at(ls, a.chat.selected_channel, 0);
    if channel_at(ls, a.chat.selected_channel, 0) is Some {
        let c = channel_at(ls, a.chat.selected_channel, 0)->0;
        assert(ls.contains(c));
        let i = ls.index_of(c);
        assert(ls[i].id == a.chat.selected_channel);
    }
}

/// The header carries the name and the topic, and a way to what is hidden; the
/// line below the list says what the connection says first of all.
pub proof fn the_chat_is_drawn(a: App)
    ensures
        ({
            let n = a.chat_node();
            let head = a.chat_header_node();
            let at: int = if a.given.panes.has_guilds() {
                0
            } else {
                1
            };
            &&& n.children.len() == 4
            &&& n.children[0] == head
            &&& n.children[1] == a.message_list_node()
            &&& n.children[2].content == ContentView::Text(a.status_shown())
            &&& n.children[3] == a.chat_input_node()
            &&& head.children[at].content == ContentView::Icon(a.heading().icon)
            &&& head.children[at + 1].content == ContentView::Text(a.heading().name)
            &&& head.children[at + 2].content == ContentView::Text(a.heading().topic)
            &&& !a.given.panes.has_guilds() ==> head.children[0].key == Some(
                KeyView::Slot("back_open"@),
            )
            &&& !a.given.panes.has_members() ==> head.children.last().key == Some(
                KeyView::Slot("members_open"@),
            )
        }),
        a.live.link_hint matches Some(h) ==> a.status_shown() == "  "@ + h@,
        a.live.link_hint is None && a.uses_live() ==> match a.live.channel_spec(a.channel_id()) {
            None => a.status_shown().len() == 0,
            Some(c) => c.loading ==> a.status_shown() == "  読み込んでいます…"@,
        },
{
}

/// The bar above the composer says who is answered or that something is edited;
/// in a new message there is none.
pub proof fn the_bar_says_what_is_written(a: App, id: u64)
    ensures
        a.chat.composing == Composing::Edit(id) ==> a.bar_text() == "編集中"@,
        a.chat.composing == Composing::Reply(id) ==> a.bar_text() == (match author_at(
            a.message_lines(),
            id,
            0,
        ) {
            Some(who) => who + " に返信中"@,
            None => "返信中"@,
        }),
        a.chat.composing == Composing::New ==> a.chat_input_node().children.len() == 1,
        a.chat.composing != Composing::New ==> a.chat_input_node().children.len() == 2,
        a.chat_input_node().children.last().content == ContentView::Editable(
            drawn(a.chat.input, a.placeholder()),
        ),
        marked(a.chat_input_node().children.last(), State::Focus) <==> a.chat.input_focused,
{
    let n = a.chat_input_node().children.last();
    if a.chat.input_focused {
        assert(n.states[0] == State::Focus);
    } else {
        assert(n.states.len() == 0);
    }
}

/// A field is drawn with its text; the caret stands behind as many bytes as the
/// characters before it take. A secret shows as many bullets as it has
/// characters, and the field that has focus is marked.
pub proof fn fields_are_drawn(a: App, d: Doc, hint: Seq<char>, k: int)
    requires
        d.selection.end <= d.text.len(),
    ensures
        drawn(d, hint).text == d.text,
        drawn(d, hint).placeholder == hint,
        drawn(d, hint).caret == vstd::utf8::encode_utf8(
            d.text.subrange(0, d.selection.end as int),
        ).len() as usize,
        masked(d).text.len() == d.text.len(),
        0 <= k < d.text.len() ==> masked(d).text[k] == '•',
        masked(d).selection == d.selection,
        marked(a.field_node("email"@, hint, d, false), State::Focus) <==> a.form.field == Some(
            LoginField::Email,
        ),
        marked(a.field_node("password"@, hint, d, true), State::Focus) <==> a.form.field == Some(
            LoginField::Password,
        ),
        a.field_node("password"@, hint, d, true).content == ContentView::Editable(
            drawn(masked(d), hint),
        ),
        a.field_node("email"@, hint, d, false).content == ContentView::Editable(drawn(d, hint)),
{
    assert(d.text.take(d.selection.end as int) =~= d.text.subrange(0, d.selection.end as int));
    crate::pages::press_laws::fields_have_their_names("email"@);
    let e = a.field_node("email"@, hint, d, false);
    let p = a.field_node("password"@, hint, d, true);
    if a.form.field == Some(LoginField::Email) {
        assert(e.states[0] == State::Focus);
    } else {
        assert(e.states.len() == 0);
    }
    if a.form.field == Some(LoginField::Password) {
        assert(p.states[0] == State::Focus);
    } else {
        assert(p.states.len() == 0);
    }
}

/// A new line goes into the composer where it has focus, and never into a login
/// field.
pub proof fn new_lines_stay_in_the_composer(a: App)
    ensures
        a.form.field is Some || !a.chat.input_focused ==> a.newline() == (a, false),
        a.form.field is None && a.chat.input_focused ==> a.newline().1 && a.newline().0.chat.input
            == a.chat.input.inserted(seq!['\n']),
{
    reveal_strlit("\n");
    assert("\n"@ =~= seq!['\n']);
}

/// A composition goes where typing goes.
pub proof fn compositions_reach_the_focused_field(a: App, s: Seq<char>)
    ensures
        a.composed_in(s).1 <==> a.focused(),
        !a.focused() ==> a.composed_in(s).0 == a && a.focused_field() is None,
        a.focused() && a.form.field is None ==> a.composed_in(s).0.chat.input
            == a.chat.input.composed(s) && a.focused_field() == Some(a.chat.input),
        a.form.field == Some(LoginField::Email) ==> a.composed_in(s).0.form.email
            == a.form.email.composed(s) && a.focused_field() == Some(a.form.email),
        a.form.field == Some(LoginField::Totp) ==> a.composed_in(s).0.form.input
            == a.form.input.composed(s) && a.focused_field() == Some(a.form.input),
{
}

/// The advance key goes from the email to the password and back; past the last
/// field it sends.
pub proof fn advancing_goes_through_the_form(a: App)
    ensures
        a.form.field == Some(LoginField::Email) ==> a.advanced(true).0.form.field == Some(
            LoginField::Password,
        ) && a.advanced(false) == (a, false),
        a.form.field == Some(LoginField::Password) ==> a.advanced(false).0.form.field == Some(
            LoginField::Email,
        ) && a.advanced(true) == a.login_sent(),
        a.form.field == Some(LoginField::Totp) ==> a.advanced(true) == a.login_sent(),
        a.form.field == Some(LoginField::Token) ==> a.advanced(true) == a.login_sent(),
{
}

// ── spoilers ───────────────────────────────────────────────────────────────

/// Pressing a spoiler opens that one and no other.
pub proof fn pressing_opens_that_spoiler(o: Open, s: Spoiler, t: Spoiler)
    ensures
        !o.messages.contains(s.message) ==> (o.toggled(s).is_open(s) <==> !o.is_open(s)),
        s != t ==> (o.toggled(s).is_open(t) <==> o.is_open(t)),
        o.messages.contains(s.message) ==> o.is_open(s),
{
}

// ── menus ──────────────────────────────────────────────────────────────────

/// A row of a menu reads as its label behind its mark, is numbered in order from
/// the first number of its list, and is marked where it is chosen or dangerous.
pub proof fn menu_rows_are_drawn(items: Seq<ItemView>, hovered: Option<u32>, base: nat, k: int)
    requires
        0 <= k < items.len(),
        base + items.len() <= u32::MAX,
    ensures
        row_nodes(items, hovered, base).len() == items.len(),
        ({
            let n = row_nodes(items, hovered, base)[k];
            &&& n.key == Some(KeyView::Index((base + k) as u32))
            &&& n.children.last().content == ContentView::Text(items[k].label)
            &&& items[k].icon matches Some(i) ==> n.children[0].content == ContentView::Icon(i)
            &&& marked(n, State::Selected) <==> items[k].selected
            &&& marked(n, State::Danger) <==> items[k].danger
            &&& marked(n, State::Hover) <==> hovered == Some((base + k) as u32)
        }),
{
    let item = items[k];
    let index = (base + k) as u32;
    let n = row_node(item, index, hovered);
    let over = hovered == Some(index);
    if item.selected && item.danger && over {
        assert(n.states =~= seq![State::Selected, State::Danger, State::Hover]);
        assert(n.states[0] == State::Selected && n.states[1] == State::Danger && n.states[2]
            == State::Hover);
    } else if item.selected && item.danger {
        assert(n.states =~= seq![State::Selected, State::Danger]);
        assert(n.states[0] == State::Selected && n.states[1] == State::Danger);
    } else if item.selected && over {
        assert(n.states =~= seq![State::Selected, State::Hover]);
        assert(n.states[0] == State::Selected && n.states[1] == State::Hover);
    } else if item.danger && over {
        assert(n.states =~= seq![State::Danger, State::Hover]);
        assert(n.states[0] == State::Danger && n.states[1] == State::Hover);
    } else if item.selected {
        assert(n.states =~= seq![State::Selected]);
        assert(n.states[0] == State::Selected);
    } else if item.danger {
        assert(n.states =~= seq![State::Danger]);
        assert(n.states[0] == State::Danger);
    } else if over {
        assert(n.states =~= seq![State::Hover]);
        assert(n.states[0] == State::Hover);
    } else {
        assert(n.states =~= seq![]);
    }
}

/// Our own menu: our id, the accounts that can be switched to with the one in
/// use chosen, adding another, and signing out, which is dangerous. Signed out
/// there is none.
pub proof fn our_menu_offers_the_accounts(a: App, l: LoggedInView, k: int)
    ensures
        in_as(a.login.session) is None ==> a.user_items().len() == 0,
        in_as(a.login.session) == Some(l) ==> {
            let items = a.user_items();
            let n = a.given.accounts@.len();
            &&& items.len() == n + 3
            &&& items[0].action == Deed::Copy(text::dec(l.me.user.id.0.0 as nat))
            &&& 0 <= k < n ==> items[1 + k].action == (Deed::SwitchAccount {
                id: a.given.accounts@[k].id,
                bot: a.given.accounts@[k].bot,
            })
            &&& 0 <= k < n ==> items[1 + k].selected == (a.given.accounts@[k].id
                == l.me.user.id.0.0 && a.given.accounts@[k].bot == l.bot)
            &&& items[n as int + 1].action == Deed::AddAccount
            &&& items[n as int + 2].action == Deed::LogOut && items[n as int + 2].danger
        },
{
}

/// What a press asks a menu for: a message its own, a channel its own, a guild
/// its own, and our panel ours.
pub proof fn menus_belong_to_what_was_hit(a: App, h: Hit, rest: Seq<Hit>, id: u64)
    requires
        h.key == Some(Key::Id(id)),
    ensures
        h.id == NodeId::ChatMessage ==> a.menu_from(seq![h] + rest, 0) == Some(a.message_items(id)),
        h.id == NodeId::NavChannelListItem ==> a.menu_from(seq![h] + rest, 0) == Some(
            a.channel_items(id),
        ),
        h.id == NodeId::NavGuildListItem ==> a.menu_from(seq![h] + rest, 0) == Some(
            a.guild_items(id),
        ),
        h.id == NodeId::NavUserPanel ==> a.menu_from(seq![h] + rest, 0) == Some(a.user_items()),
        a.menu_from(seq![], 0) is None,
{
    let all = seq![h] + rest;
    assert(all[0] == h);
}

/// Swiping: a message to the left is answered, from the edge to the right the
/// drawer opens, and with something over the screen nothing happens behind it.
pub proof fn swipes_go_their_way(a: App, hits: Seq<Hit>, s: Swipe, now: u64)
    ensures
        a.floating is Some || a.settings.open || !a.shows_main() ==> a.swiped_on(hits, s, now) == (
            a,
            false,
        ),
        a.floating is None && !a.settings.open && a.shows_main() && !a.chat.drawer_open
            && !a.chat.member_sheet_open ==> {
            &&& s.dir is Right && s.at.x <= a.given.drawer_edge ==> a.swiped_on(hits, s, now)
                == a.drawer_opened(now)
            &&& s.dir is Left ==> (hit_from(hits, NodeId::ChatMessage, 0) matches Some(i) ==> (
            hits[i].key matches Some(Key::Id(id)) ==> a.swiped_on(hits, s, now).0.chat.composing
                == Composing::Reply(id) && a.swiped_on(hits, s, now).0.chat.input_focused))
            &&& s.dir is Left && hit_from(hits, NodeId::ChatMessage, 0) is None ==> a.swiped_on(
                hits,
                s,
                now,
            ) == (a, false)
        },
{
}

/// The buttons of the main screen by their names.
pub proof fn buttons_do_what_they_say(a: App, now: u64)
    ensures
        a.button_pressed("cancel_composing"@, now) == Some(a.composing_stopped()),
        a.button_pressed("settings_open"@, now) == Some(a.settings_opened()),
        a.button_pressed("members_open"@, now) == Some(a.member_sheet_opened(now)),
        a.button_pressed("back_open"@, now) == Some(a.drawer_opened(now)),
        a.chat.composing is Reply ==> (a.button_pressed("reply_mention"@, now) matches Some(r)
            && r.1 && r.0.chat.reply_mention == !a.chat.reply_mention),
        !(a.chat.composing is Reply) ==> a.button_pressed("reply_mention"@, now) == Some(
            (a, false),
        ),
{
    reveal_strlit("cancel_composing");
    reveal_strlit("reply_mention");
    reveal_strlit("settings_open");
    reveal_strlit("members_open");
    reveal_strlit("back_open");
    assert("cancel_composing"@.len() == 16 && "reply_mention"@.len() == 13
        && "settings_open"@.len() == 13 && "members_open"@.len() == 12 && "back_open"@.len() == 9);
    assert("reply_mention"@[0] == 'r' && "settings_open"@[0] == 's');
}

/// The innermost list under the pointer scrolls.
pub proof fn the_innermost_list_scrolls(h: Hit, rest: Seq<Hit>)
    ensures
        h.id == NodeId::LayoutScroll || h.id == NodeId::NavGuildList || h.id
            == NodeId::NavMemberList || h.id == NodeId::ChatMessageList ==> scroll_from(
            seq![h] + rest,
            0,
        ) == Some(h.id),
        scroll_from(seq![], 0) is None,
{
    assert((seq![h] + rest)[0] == h);
}

// ── what is said ───────────────────────────────────────────────────────────

/// What went wrong with a field: what names the field itself or something in it,
/// in order, and nothing of another.
pub proof fn failures_belong_to_their_field(
    fs: Seq<FieldErrorView>,
    f: FieldErrorView,
    field: Seq<char>,
)
    ensures
        failures_of(fs.push(f), field, fs.len() + 1) == (if f.path == field || (field
            + "."@).is_prefix_of(f.path) {
            failures_of(fs, field, fs.len()).push(f.detail)
        } else {
            failures_of(fs, field, fs.len())
        }),
        failures_of(seq![], field, 0).len() == 0,
{
    lemma_failures(fs, f, field, fs.len());
    assert(fs.push(f)[fs.len() as int] == f);
}

proof fn lemma_failures(
    fs: Seq<FieldErrorView>,
    f: FieldErrorView,
    field: Seq<char>,
    n: nat,
)
    requires
        n <= fs.len(),
    ensures
        failures_of(fs.push(f), field, n) == failures_of(fs, field, n),
    decreases n,
{
    if n > 0 {
        lemma_failures(fs, f, field, (n - 1) as nat);
        assert(fs.push(f)[n - 1] == fs[n - 1]);
    }
}

/// What is said of a failure: its kind, and what is known of it.
pub proof fn failures_say_what_they_are(s: Seq<char>, code: u16)
    ensures
        failure_text(Failure::Connect(s)) == "接続できない: "@ + s,
        failure_text(Failure::Decompress(s)) == "解凍できない: "@ + s,
        failure_text(Failure::Decode(s)) == "読めない応答: "@ + s,
        failure_text(Failure::NoHello) == "Hello が来ないまま接続が終わった"@,
        failure_text(Failure::Closed(code)) == "接続が閉じられた (コード "@ + text::dec(
            code as nat,
        ) + ")"@,
        fault_text(AuthFault::Connect(s)) == "ゲートウェイに接続できない: "@ + s,
        fault_text(AuthFault::KeyGen(s)) == "鍵ペアを作れない: "@ + s,
        fault_text(AuthFault::Decrypt) == "復号できない。鍵が合っていない可能性がある"@,
        fault_text(AuthFault::Base64) == "base64 として読めない"@,
        fault_text(AuthFault::Protocol(s)) == "ゲートウェイの応答を解釈できない: "@ + s,
        fault_text(AuthFault::Closed) == "接続が閉じられた"@,
        hint_of(Stage::Failed(s)) == "失敗しました: "@ + s,
        hint_of(Stage::Connecting) == "Discord に接続しています…"@,
        hint_of(Stage::Password) == "メールアドレスとパスワードでログインします"@,
        hint_of(Stage::PasswordTotp) == "認証コードを入力してください"@,
        hint_of(Stage::Token) == "ボットトークンでログインします"@,
        hint_of(Stage::Exchanging) == "承認されました。ログインしています…"@,
{
}

/// The whole date of a message whose time is pointed at.
pub proof fn pointing_at_a_time_shows_the_date(a: App, id: u64, m: MessageLine)
    requires
        a.given.hovered == Some(NodeId::ChatMessageHeaderTime),
        a.given.hovered_key == Some(Key::Id(id)),
        line_at(a.message_lines(), id, 0) == Some(m),
    ensures
        m.day.len() > 0 ==> (a.tooltip_node() matches Some(n) && n.content == ContentView::Text(
            m.day + " "@ + m.time,
        )),
        m.day.len() == 0 ==> a.tooltip_node() is None,
{
}

/// The settings on one screen: what leads to the pages, and beside it the page
/// with its lines above its rows. On a narrow window one of the two.
pub proof fn the_settings_are_drawn(a: App)
    requires
        a.settings.open,
    ensures
        ({
            let n = a.settings_node();
            &&& a.given.panes is One && !a.settings.narrow_page ==> n.children == seq![a.nav_node()]
            &&& !(a.given.panes is One) ==> n.children.len() == 2 && n.children[0] == a.nav_node()
                && n.children[1].id == NodeId::SettingsPage
            &&& a.given.panes is One && a.settings.narrow_page ==> n.children.len() == 1
                && n.children[0].id == NodeId::SettingsPage
        }),
        a.settings.category == SettingsCategory::Plugins && a.settings.plugin is None
            && a.settings.states@.len() == 0 ==> a.page_texts() == seq![
            "プラグインはありません。"@,
        ],
        a.settings.category == SettingsCategory::Support ==> a.page_items().len() == 2
            && a.page_items()[0].action == Deed::ToggleFps && a.page_items()[0].selected
            == a.show_fps && a.page_items()[1].action == Deed::ShareLog,
        a.settings.category == SettingsCategory::Theme ==> a.page_items().len()
            == a.settings.themes@.len() + 2 && a.page_items()[0].action == Deed::UseBundledTheme
            && a.page_items().last().action == Deed::InstallThemeFile,
{
    let n = a.settings_node();
    if a.given.panes is One && !a.settings.narrow_page {
        assert(n.children =~= seq![a.nav_node()]);
    }
}

// ── counting ───────────────────────────────────────────────────────────────

/// Each id counts once for each way in which it stands in the bytes.
pub proof fn encodings_are_counted(b: Seq<u8>, ids: Seq<u64>, id: u64)
    ensures
        ({
            let (v, t, f) = encodings(b, ids);
            let (v2, t2, f2) = encodings(b, ids.push(id));
            &&& v2 == v + (if occurs(b, crate::gateway::proto::varint_bytes(id as nat)) {
                1nat
            } else {
                0
            })
            &&& f2 == f + (if occurs(b, crate::gateway::proto::fixed64_bytes(id)) {
                1nat
            } else {
                0
            })
            &&& t <= t2 <= t + 1
        }),
        encodings(b, seq![]) == (0nat, 0nat, 0nat),
{
    assert(ids.push(id).drop_last() =~= ids);
}

} // verus!
