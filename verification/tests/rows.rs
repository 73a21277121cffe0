//! Rows and lists: what the chat screen shows of what is known.

use gumicord::gateway::member_list::{parse, MemberList};
use gumicord::json::{Json, Number};
use gumicord::live::{
    ChannelEntry, ChannelState, FolderRow, GuildEntry, GuildState, Live, SeenMember,
};
use gumicord::markdown::parse as parse_body;
use gumicord::menu::{Action, Point};
use gumicord::model::de::FromJson;
use gumicord::model::token::Token;
use gumicord::model::{
    Channel, ChannelId, ChannelKind, CurrentUser, GuildId, Member, Message, MessageId, Role,
    RoleId, User, UserId,
};
use gumicord::pages::chat::lists::FOLDER_TILES;
use gumicord::pages::chat::rows::{calls_me, reply_snippet, row_time, MessageRow, REPLY_SNIPPET_LEN};
use gumicord::pages::overlays::{Hit, Rect};
use gumicord::session::{LoggedIn, Login, LoginEvent};
use gumicord::shell::{Account, Composing, Effect, Given, Gumicord, Jump, Panes};
use gumicord::ui::{Content, Key, NodeId, State, UiNode};

fn plain(v: &serde_json::Value) -> Json {
    match v {
        serde_json::Value::Null => Json::Null,
        serde_json::Value::Bool(b) => Json::Bool(*b),
        serde_json::Value::Number(n) => Json::Number(match (n.as_u64(), n.as_i64()) {
            (Some(u), _) => Number::Unsigned(u),
            (None, Some(i)) => Number::Negative(i),
            (None, None) => Number::Other,
        }),
        serde_json::Value::String(s) => Json::Text(s.clone()),
        serde_json::Value::Array(a) => Json::Array(a.iter().map(plain).collect()),
        serde_json::Value::Object(o) => {
            Json::Object(o.iter().map(|(k, v)| (k.clone(), plain(v))).collect())
        }
    }
}

fn json(s: &str) -> Json {
    plain(&serde_json::from_str(s).expect("malformed JSON"))
}

fn walk(n: &UiNode, f: &mut dyn FnMut(&UiNode)) {
    f(n);
    for c in &n.children {
        walk(c, f);
    }
}

fn ids(node: &UiNode) -> Vec<NodeId> {
    let mut out = Vec::new();
    walk(node, &mut |n| out.push(n.id));
    out
}

fn texts(node: &UiNode) -> Vec<String> {
    let mut out = Vec::new();
    walk(node, &mut |n| {
        if let Some(t) = n.content.as_text() {
            out.push(t.to_owned());
        }
    });
    out
}

fn hit_of(id: NodeId, key: Option<Key>) -> Hit {
    Hit { id, key, rect: Rect { x: 0, y: 0, w: 0, h: 0 } }
}

// ── what is known ──────────────────────────────────────────────────────────

fn channel(id: u64, kind: ChannelKind, name: &str, parent: Option<u64>) -> Channel {
    Channel {
        id: ChannelId::from(id),
        kind,
        name: Some(name.to_owned()),
        guild_id: Some(GuildId::from(1u64)),
        parent_id: parent.map(ChannelId::from),
        position: 0,
        topic: None,
        nsfw: false,
        recipients: Vec::new(),
        last_message_id: None,
    }
}

fn guild(id: u64, name: &str, icon: Option<&str>) -> GuildState {
    GuildState {
        id: GuildId::from(id),
        name: name.to_owned(),
        icon_hash: icon.map(|s| s.to_owned()),
        unread: false,
        mentions: 0,
        roles: Vec::new(),
        entries: Vec::new(),
        members: None,
        members_pending: false,
    }
}

fn entry(id: u64, name: &str, in_folder: bool) -> GuildEntry {
    GuildEntry::Guild { id: GuildId::from(id), name: name.to_owned(), in_folder }
}

fn room(id: u64, messages: Vec<Message>) -> ChannelState {
    ChannelState {
        id: ChannelId::from(id),
        unread: false,
        mentions: 0,
        messages,
        loading: false,
        paging_older: false,
        typing: Vec::new(),
    }
}

fn role() -> Role {
    Role {
        id: RoleId::from(55u64),
        name: "管理者".to_owned(),
        position: 3,
        hoist: true,
        color: Some(0x00e0_5260),
    }
}

/// One guild with one channel open.
fn with_backlog(messages: Vec<Message>) -> Gumicord {
    let mut a = Gumicord::demo();
    let mut g = guild(1, "テスト", None);
    g.entries = vec![ChannelEntry::Channel(channel(10, ChannelKind::GuildText, "いっぱん", None))];
    a.live.sidebar = vec![entry(1, "テスト", false)];
    a.live.guilds = vec![g];
    a.live.channels = vec![room(10, messages)];
    a.chat.selected_guild = 1;
    a.chat.selected_channel = 10;
    a
}

fn message(nick: Option<&str>, member_avatar: Option<&str>) -> Message {
    Message {
        id: MessageId::from(100u64),
        channel_id: ChannelId::from(10u64),
        guild_id: None,
        author: User {
            id: UserId::from(7u64),
            username: "nenneko".to_owned(),
            global_name: Some("ねんねこ".to_owned()),
            discriminator: "0".to_owned(),
            avatar_hash: None,
            bot: false,
        },
        content: "こんにちは".to_owned(),
        timestamp: "2026-08-22T12:34:56+00:00".to_owned(),
        edited_timestamp: None,
        pinned: false,
        attachments: Vec::new(),
        member: Some(Member {
            nick: nick.map(|s| s.to_owned()),
            avatar_hash: member_avatar.map(|s| s.to_owned()),
            roles: Vec::new(),
            joined_at: None,
            user: None,
        }),
        referenced_message: None,
        mentions: Vec::new(),
        mention_everyone: false,
    }
}

fn app(m: Message) -> Gumicord {
    with_backlog(vec![m])
}

fn with_id(id: u64) -> Message {
    let mut m = message(None, None);
    m.id = MessageId::from(id);
    m
}

// ── who is called ──────────────────────────────────────────────────────────

/// Matching on the raw string would notify someone for writing about a
/// mention inside code.
#[test]
fn a_mention_inside_code_is_not_a_mention() {
    let me = Some(UserId::from(1));
    let call = |src: &str| calls_me(&parse_body(src), me, None);

    assert!(call("やあ <@1>"));
    assert!(!call("`<@1>` と書くと呼べる"));
    assert!(!call("```\n<@1>\n```"));
    // A different person is not us.
    assert!(!call("やあ <@2>"));
}

/// Watching only `@everyone` misses being called by role.
#[test]
fn a_mention_of_our_own_role_counts() {
    let me = Some(UserId::from(1));
    let roles = vec![RoleId::from(9)];
    let call = |src: &str, r: Option<&Vec<RoleId>>| calls_me(&parse_body(src), me, r);

    assert!(call("<@&9> 集合", Some(&roles)));
    assert!(!call("<@&8> 集合", Some(&roles)));
    assert!(!call("<@&9> 集合", None));
    assert!(call("@everyone", None));
    assert!(call("@here", None));
    // A channel reference is not a mention.
    assert!(!call("<#9> を見て", Some(&roles)));
}

/// Mentions inside quotes and lists count.
#[test]
fn a_nested_mention_is_found() {
    let me = Some(UserId::from(1));
    let call = |src: &str| calls_me(&parse_body(src), me, None);
    assert!(call("> やあ <@1>"));
    assert!(call("- やあ <@1>"));
    assert!(call("# やあ <@1>"));
}

/// The tree reflects the selection.
#[test]
fn the_tree_reflects_the_selection() {
    let mut a = with_backlog(Vec::new());
    a.live.guilds[0]
        .entries
        .push(ChannelEntry::Channel(channel(12, ChannelKind::GuildText, "ざつだん", None)));
    a.chat.selected_channel = 12;

    let mut selected = Vec::new();
    walk(&a.sidebar(Panes::Three).expect("3 ペインなら出る"), &mut |n| {
        if n.id == NodeId::NavChannelListItem && n.states.contains(&State::Selected) {
            selected.push(n.key);
        }
    });
    assert_eq!(selected, vec![Some(Key::Id(12))]);
}

// ── the sidebar ────────────────────────────────────────────────────────────

/// Nothing to show while signed out.
#[test]
fn there_is_no_panel_before_logging_in() {
    let a = Gumicord::demo();
    assert!(a.user_panel().is_none());
    let side = a.sidebar(Panes::Three).unwrap();
    assert!(!ids(&side).contains(&NodeId::NavUserPanel));
}

/// The user panel spans the guild list too; inside the channel list it would
/// only be as wide as that.
#[test]
fn the_panel_spans_both_lists() {
    let mut a = Gumicord::demo();
    sign_in(&mut a);
    let side = a.sidebar(Panes::Three).expect("3 ペインなら出る");

    assert_eq!(side.id, NodeId::NavSidebar);
    assert_eq!(side.children[0].id, NodeId::NavSidebarLists);
    // The lists are grouped; the panel sits outside them.
    let inside = ids(&side.children[0]);
    assert!(inside.contains(&NodeId::NavGuildList));
    assert!(inside.contains(&NodeId::NavChannelList));
    assert!(!inside.contains(&NodeId::NavUserPanel));
    assert_eq!(side.children[1].id, NodeId::NavUserPanel);
}

/// Only the list under the pointer gets a scrollbar.
#[test]
fn only_the_list_under_the_pointer_has_a_scrollbar() {
    let mut a = Gumicord::demo();

    // Nowhere means none of them.
    assert!(!ids(&a.guild_list()).contains(&NodeId::LayoutScrollbar));
    assert!(!ids(&a.channel_list()).contains(&NodeId::LayoutScrollbar));

    a.given.hovered_scroll = Some(NodeId::NavGuildList);
    assert!(ids(&a.guild_list()).contains(&NodeId::LayoutScrollbar));
    // Not on the neighbouring list.
    assert!(!ids(&a.channel_list()).contains(&NodeId::LayoutScrollbar));
}

/// At the narrowest width the lists go, and the panel with them.
#[test]
fn one_pane_has_no_sidebar_at_all() {
    let a = Gumicord::demo();
    assert!(a.sidebar(Panes::One).is_none());
}

/// One scroll region would carry the header and the panel off screen.
#[test]
fn only_the_list_scrolls() {
    let a = Gumicord::demo();
    let pane = a.channel_list();

    assert_eq!(pane.id, NodeId::NavChannelList);
    assert!(pane.children.iter().any(|c| c.id == NodeId::LayoutScroll), "巻く領域が中に無い");
    assert_eq!(pane.children[0].id, NodeId::NavChannelListHeader);
}

fn alice() -> CurrentUser {
    CurrentUser::from_json(&json(
        r#"{"id":"1234567890","username":"Alice","discriminator":"0","global_name":"Alice"}"#,
    ))
    .unwrap()
}

fn sign_in(a: &mut Gumicord) {
    a.login.apply(LoginEvent::Done(Box::new(LoggedIn {
        me: alice(),
        token: Token::new("super_secret_token"),
        bot: false,
    })));
}

#[test]
fn user_menu_shows_account_options_and_masks_tokens() {
    let mut a = Gumicord::new(Given::new(), Login::new(None), Live::new());
    sign_in(&mut a);
    a.given.accounts.push(Account {
        id: 5,
        bot: true,
        display_name: "bot".to_owned(),
    });

    let menu = a.user_menu();
    assert!(menu.iter().any(|it| it.label == "ID をコピー"));
    assert!(menu.iter().any(|it| it.label == "アカウントを追加"));
    assert!(menu.iter().any(|it| it.label == "ログアウト"));
    assert!(menu.iter().any(|it| it.action == Action::SwitchAccount { id: 5, bot: true }));

    // Secret tokens must never appear in menu labels.
    for item in &menu {
        assert!(!item.label.contains("super_secret_token"));
    }
}

// ── message rows ───────────────────────────────────────────────────────────

/// The per-guild name wins.
#[test]
fn a_nickname_wins_over_the_global_name() {
    let a = app(message(Some("ねこ"), None));
    assert_eq!(a.message_rows()[0].author, "ねこ");

    let a = app(message(None, None));
    assert_eq!(a.message_rows()[0].author, "ねんねこ");
}

fn reply_text(a: &Gumicord, row: &MessageRow) -> (Option<String>, bool) {
    let mut text = None;
    let mut avatar = false;
    walk(&a.message(row, false), &mut |n| {
        if n.id == NodeId::ChatMessageReplyRef {
            for c in &n.children {
                if c.id == NodeId::PrimitiveText {
                    text = c.content.as_text().map(str::to_owned);
                }
                avatar = avatar || c.id == NodeId::ChatMessageReplyRefAvatar;
            }
        }
    });
    (text, avatar)
}

/// A reply shows who and what it answers, on the tree too.
#[test]
fn a_reply_shows_its_source() {
    let mut m = message(None, None);
    m.referenced_message = Some(Box::new(message(None, None)));
    let a = app(m);
    let rows = a.message_rows();
    let reply = rows[0].reply.as_ref().expect("返信元がない");
    assert_eq!(reply.author, "ねんねこ");
    assert_eq!(reply.snippet, "こんにちは");
    assert!(reply.avatar.is_some(), "小アイコンがない");
    let (text, avatar) = reply_text(&a, &rows[0]);
    assert_eq!(text.as_deref(), Some("ねんねこ: こんにちは"));
    assert!(avatar, "木に小アイコンがない");
}

/// No reference, no row.
#[test]
fn a_plain_message_has_no_reply_ref() {
    let a = app(message(None, None));
    let rows = a.message_rows();
    assert!(rows[0].reply.is_none());
    assert!(
        !ids(&a.message(&rows[0], false)).contains(&NodeId::ChatMessageReplyRef),
        "参照表示が出ている"
    );
}

fn answered_backlog() -> Gumicord {
    let mut m = message(None, None);
    m.referenced_message = Some(Box::new(with_id(99)));
    with_backlog(vec![with_id(99), m])
}

/// Pressing a reply reference queues a jump to the answered message. An
/// unloaded target says so instead of stranding the reader.
#[test]
fn pressing_a_reply_queues_a_jump_to_its_source() {
    let mut a = answered_backlog();
    let press = |a: &mut Gumicord, id: u64| {
        a.pressed(&vec![hit_of(NodeId::ChatMessageReplyRef, Some(Key::Id(id)))], 0)
    };
    assert!(press(&mut a, 99));
    assert_eq!(a.chat.pending_reveal, Some(99));
    assert_eq!(a.chat.a11y_message, Some(99), "読み上げが付いていかない");
    let req = a.take_reveal().expect("ジャンプが出ない");
    assert_eq!(req.region, NodeId::ChatMessageList);
    assert_eq!(req.id, NodeId::ChatMessage);
    assert_eq!(req.key, Key::Id(99));
    assert!(a.take_reveal().is_none(), "ジャンプが繰り返す");

    assert!(press(&mut a, 77));
    assert!(a.chat.pending_reveal.is_none(), "無い所へ飛ぼうとした");
    assert!(!a.toasts.is_empty(), "黙って失敗した");
}

/// An unloaded target fetches around instead of stranding; without a runtime
/// it says so at once.
#[test]
fn an_unloaded_jump_fetches_or_says_so() {
    let mut a = app(message(None, None));
    assert!(a.jump_to_message(77));
    assert!(a.chat.pending_jump.is_none(), "飛べないのに待っている");
    assert!(!a.toasts.is_empty(), "黙って失敗した");

    let mut b = app(message(None, None));
    b.given.online = true;
    assert!(b.jump_to_message(77));
    assert_eq!(
        b.chat.pending_jump,
        Some(Jump { channel: ChannelId::from(10u64), message: 77 })
    );
    assert!(!b.take_effects().is_empty(), "頼んでいない");
}

/// A fetched window settles into a reveal; moving on drops it.
#[test]
fn a_fetched_window_settles_into_a_reveal() {
    let mut a = answered_backlog();

    a.chat.pending_jump = Some(Jump { channel: ChannelId::from(10u64), message: 99 });
    a.settle_jump();
    assert_eq!(a.chat.pending_reveal, Some(99));
    assert!(a.chat.pending_jump.is_none());
    assert!(a.take_reveal().is_some());

    a.chat.pending_jump = Some(Jump { channel: ChannelId::from(11u64), message: 99 });
    a.settle_jump();
    assert!(a.chat.pending_jump.is_none(), "去った先へ飛ぼうとした");
    assert!(a.take_reveal().is_none());
}

/// Long sources truncate to one line.
#[test]
fn a_long_source_truncates_to_one_line() {
    let mut m = message(None, None);
    let mut r = message(None, None);
    r.content = "あ".repeat(200) + "\n二行目";
    m.referenced_message = Some(Box::new(r));
    let a = app(m);
    let rows = a.message_rows();
    let snippet = &rows[0].reply.as_ref().expect("返信元がない").snippet;
    assert_eq!(snippet.chars().count(), REPLY_SNIPPET_LEN + 1);
    assert!(snippet.ends_with('…'), "{snippet}");
    assert!(!snippet.contains('\n'), "{snippet}");
    assert_eq!(reply_snippet("一行目\n二行目"), "一行目");
}

/// Avatars are per guild too; the guild appears in the URL.
#[test]
fn a_guild_avatar_wins_over_the_global_one() {
    let a = app(message(None, Some("xyz")));
    let url = a.message_rows()[0].avatar.clone().unwrap();
    assert!(
        url.starts_with("https://cdn.discordapp.com/guilds/1/users/7/avatars/xyz.png"),
        "{url}"
    );

    // No override and no avatar means the default one.
    let a = app(message(None, None));
    let url = a.message_rows()[0].avatar.clone().unwrap();
    assert!(url.contains("/embed/avatars/"), "{url}");
}

/// Colouring the member list but not the author line makes one person look
/// like two.
#[test]
fn the_author_name_carries_the_role_colour() {
    let mut m = message(None, None);
    m.member.as_mut().expect("居る").roles = vec![RoleId::from(55u64)];
    let mut a = app(m);
    a.live.guilds[0].roles = vec![role()];

    assert_eq!(a.message_rows()[0].tint, Some(0x00e0_5260));

    // And it reaches the tree.
    let mut found = None;
    walk(&a.chat_view(), &mut |n| {
        if n.id == NodeId::ChatMessageHeaderAuthor {
            found = n.tint;
        }
    });
    assert_eq!(found, Some(0x00e0_5260));
}

fn seen(nick: &str, roles: Vec<RoleId>) -> SeenMember {
    SeenMember {
        guild: GuildId::from(1u64),
        user: UserId::from(7u64),
        member: Member {
            nick: Some(nick.to_owned()),
            avatar_hash: None,
            roles,
            joined_at: None,
            user: None,
        },
    }
}

/// REST messages carry no `member`. Reading only the message left a freshly
/// opened channel with no nicknames, avatars or colours until one new message
/// arrived and coloured just that row.
#[test]
fn a_message_without_a_member_falls_back_to_what_we_have_seen() {
    // From REST, so no `member`.
    let mut m = message(None, None);
    m.member = None;
    let mut a = app(m);
    a.live.guilds[0].roles = vec![role()];
    // A member seen in the list or in earlier messages.
    a.live.seen = vec![seen("ねこ", vec![RoleId::from(55u64)])];

    let row = &a.message_rows()[0];
    assert_eq!(row.author, "ねこ", "呼び名も出る");
    assert_eq!(row.tint, Some(0x00e0_5260), "役職の色も出る");
}

/// The message's own member wins, being newer.
#[test]
fn the_member_on_the_message_wins() {
    let mut a = app(message(Some("いまの呼び名"), None));
    a.live.seen = vec![seen("むかしの呼び名", Vec::new())];
    assert_eq!(a.message_rows()[0].author, "いまの呼び名");
}

fn stamped(id: u64, user: u64, name: &str, timestamp: &str) -> Message {
    let mut m = message(None, None);
    m.id = MessageId::from(id);
    m.author.id = UserId::from(user);
    m.author.username = name.to_owned();
    m.author.global_name = None;
    m.timestamp = timestamp.to_owned();
    m.member = None;
    m
}

/// How many dividers and lines there are, and which messages are grouped.
fn layout(a: &Gumicord) -> (usize, usize, Vec<bool>) {
    let (mut dividers, mut lines, mut grouped) = (0, 0, Vec::new());
    walk(&a.chat_view(), &mut |n| {
        if n.id == NodeId::ChatMessageListDayDivider {
            dividers += 1;
        }
        if n.key == Some(Key::Slot("day_divider_line")) {
            lines += 1;
        }
        if n.id == NodeId::ChatMessage {
            grouped.push(n.states.contains(&State::Grouped));
        }
    });
    (dividers, lines, grouped)
}

/// Consecutive messages from one author share a header; the tree marks every
/// message after the first grouped.
#[test]
fn close_messages_from_one_author_share_a_header() {
    let a = with_backlog(vec![
        stamped(1, 7, "nenneko", "2026-09-03T12:00:00+00:00"),
        stamped(2, 7, "nenneko", "2026-09-03T12:06:00+00:00"),
    ]);
    let rows = a.message_rows();
    assert_eq!(rows[0].day, rows[1].day);

    let (dividers, lines, grouped) = layout(&a);
    assert_eq!(dividers, 1, "one day, one divider");
    assert_eq!(lines, 2, "a line reaches each side");
    assert_eq!(grouped, vec![false, true]);
}

fn two_days() -> Gumicord {
    with_backlog(vec![
        stamped(1, 7, "nenneko", "2026-09-03T12:00:00+00:00"),
        stamped(2, 7, "nenneko", "2026-09-04T14:00:00+00:00"),
    ])
}

/// A new day breaks the run and draws its divider, even minutes apart. A
/// 26-hour gap always spans a local midnight, on any machine.
#[test]
fn a_new_day_breaks_the_run_and_draws_its_divider() {
    let a = two_days();
    let rows = a.message_rows();
    assert_ne!(rows[0].day, rows[1].day);

    let (dividers, lines, grouped) = layout(&a);
    assert_eq!(dividers, 2, "one divider per day, starting with the first");
    assert_eq!(lines, 4, "a line reaches each side");
    assert_eq!(grouped, vec![false, false]);
}

/// Each day's divider carries its own key. Same-keyed siblings are what listed
/// one child twice; this pins the fix below the reader.
#[test]
fn each_days_divider_carries_its_own_key() {
    let mut found: Vec<Option<Key>> = Vec::new();
    walk(&two_days().chat_view(), &mut |n| {
        if n.id == NodeId::LayoutRow
            && n.children.iter().any(|c| c.id == NodeId::ChatMessageListDayDivider)
        {
            found.push(n.key);
        }
    });
    assert_eq!(found.len(), 2, "one divider per day");
    assert!(found[0].is_some(), "dividers carry no key");
    assert_ne!(found[0], found[1], "dividers share a key");
}

/// Seven minutes apart starts over, even on the same day.
#[test]
fn a_long_pause_starts_over() {
    let a = with_backlog(vec![
        stamped(1, 7, "nenneko", "2026-09-03T12:00:00+00:00"),
        stamped(2, 7, "nenneko", "2026-09-03T12:07:00+00:00"),
    ]);
    let rows = a.message_rows();
    assert_eq!(rows[0].day, rows[1].day);
    assert_eq!(layout(&a).2, vec![false, false]);
}

/// A reply stands alone and breaks the run; later plain messages can still
/// group with each other.
#[test]
fn a_reply_stands_alone_and_breaks_the_run() {
    let mut replying = stamped(2, 7, "nenneko", "2026-09-03T12:01:00+00:00");
    replying.referenced_message =
        Some(Box::new(stamped(9, 7, "nenneko", "2026-09-03T11:00:00+00:00")));
    let a = with_backlog(vec![
        stamped(1, 7, "nenneko", "2026-09-03T12:00:00+00:00"),
        replying,
        stamped(3, 7, "nenneko", "2026-09-03T12:02:00+00:00"),
        stamped(4, 7, "nenneko", "2026-09-03T12:03:00+00:00"),
    ]);

    let (dividers, _, grouped) = layout(&a);
    assert_eq!(grouped, vec![false, false, false, true]);
    assert_eq!(dividers, 1, "same day redrawn after the reply");
}

#[test]
fn a_row_says_when_it_was_written() {
    assert_eq!(
        row_time("2026-09-03T12:34:56+00:00", 540),
        ("21:34".to_owned(), "2026年9月3日".to_owned(), 1_788_438_896)
    );
    // Rubbish is shown as it came, and belongs to no day.
    let (time, day, _) = row_time("あとで", 0);
    assert_eq!((time.as_str(), day.as_str()), ("あとで", ""));
}

/// Only our own messages can be edited or deleted.
#[test]
fn our_own_message_offers_edit_and_delete() {
    let mut mine = message(None, None);
    mine.author.id = UserId::from(1_234_567_890u64);
    let mut a = with_backlog(vec![mine, with_id(99)]);
    sign_in(&mut a);
    let offers = |id: u64| {
        let items = a.message_menu(id);
        (
            items.iter().any(|i| i.action == Action::Edit(id)),
            items.iter().any(|i| i.action == Action::Delete(id)),
        )
    };
    assert_eq!(offers(100), (true, true));
    assert_eq!(offers(99), (false, false));
    assert_eq!(a.raw_body(100).as_deref(), Some("こんにちは"));
}

/// Editing starts from what was written, and sending it edits.
#[test]
fn editing_starts_from_the_old_text() {
    let mut a = app(message(None, None));
    a.given.online = true;
    assert!(a.perform(Action::Edit(100)));
    assert_eq!(a.chat.composing, Composing::Edit(100));
    assert_eq!(a.chat.input.text(), "こんにちは");
    assert!(a.submit());
    let sent = a.take_effects();
    assert!(
        sent.iter().any(|e| matches!(e, Effect::EditMessage { message: 100, .. })),
        "{sent:?}"
    );
}

// ── the member list ────────────────────────────────────────────────────────

/// A guild with one role, and a channel open in it.
fn member_app() -> Gumicord {
    let mut a = with_backlog(Vec::new());
    a.live.guilds[0].roles = vec![role()];
    a
}

fn sync(a: &mut Gumicord, items: &[String]) {
    let raw = json(&format!(
        r#"{{"guild_id":"1","member_count":9,"online_count":2,
            "ops":[{{"op":"SYNC","range":[0,99],"items":[{}]}}]}}"#,
        items.join(",")
    ));
    let mut list = MemberList::default();
    list.apply(parse(&raw).expect("読める"));
    a.live.guilds[0].members = Some(list);
}

fn person(id: &str, name: &str, roles: &str) -> String {
    format!(
        r#"{{"member":{{"user":{{"id":"{id}","username":"{name}"}},
            "roles":[{roles}],"presence":{{"status":"online"}}}}}}"#
    )
}

fn group(id: &str) -> String {
    format!(r#"{{"group":{{"id":"{id}","count":1}}}}"#)
}

/// Growing the column later would reflow the body under the reader.
#[test]
fn the_column_stands_before_anything_arrives() {
    let empty = member_app().member_list();
    assert_eq!(empty.id, NodeId::NavMemberList);
    assert!(empty.children.is_empty(), "中身はまだ無い");
    // "Not here yet" is not "nobody here".
    assert!(empty.states.contains(&State::Loading));
}

/// Arrival clears `Loading`.
#[test]
fn the_loading_state_goes_away_once_people_arrive() {
    let mut a = member_app();
    sync(&mut a, &[person("7", "ねんねこ", "")]);
    assert!(!a.member_list().states.contains(&State::Loading));
}

/// Headings show names, never role ids.
#[test]
fn headings_come_out_as_names() {
    let mut a = member_app();
    sync(
        &mut a,
        &[group("55"), person("7", "ねんねこ", ""), group("online"), person("8", "すぴき", "")],
    );
    assert_eq!(
        texts(&a.member_list()),
        vec!["管理者 — 1", "ねんねこ", "オンライン — 1", "すぴき"]
    );
}

/// An unresolved role id tells the reader nothing.
#[test]
fn a_role_we_cannot_name_is_skipped() {
    let mut a = member_app();
    sync(&mut a, &[group("999999999999999999"), person("7", "ねんねこ", "")]);
    assert_eq!(texts(&a.member_list()), vec!["ねんねこ"]);
}

fn first_name(list: &UiNode) -> &UiNode {
    list.children
        .iter()
        .flat_map(|c| c.children.iter())
        .find(|n| n.id == NodeId::NavMemberListItemName)
        .expect("名前がある")
}

/// The role colour rides on the name node; the theme decides where it lands.
#[test]
fn a_role_colour_rides_on_the_name() {
    let mut a = member_app();
    sync(&mut a, &[person("7", "ねんねこ", "\"55\"")]);
    assert_eq!(first_name(&a.member_list()).tint, Some(0x00e0_5260));
}

/// Unknown roles do not get a default colour.
#[test]
fn a_member_with_no_known_role_has_no_colour() {
    let mut a = member_app();
    sync(&mut a, &[person("8", "すぴき", "\"999999999999999999\"")]);
    assert_eq!(first_name(&a.member_list()).tint, None);
}

// ── choosing a channel ─────────────────────────────────────────────────────

fn with_category() -> Gumicord {
    let mut a = with_backlog(Vec::new());
    // Categories sort first, so "the first row" picks one.
    a.live.guilds[0].entries = vec![
        ChannelEntry::Category(channel(10, ChannelKind::GuildCategory, "カテゴリ", None)),
        ChannelEntry::Channel(channel(11, ChannelKind::GuildText, "いっぱん", Some(10))),
    ];
    a
}

/// Categories are headings; the default selection once picked one and opened a
/// category nobody pressed.
#[test]
fn a_category_is_never_selected_by_default() {
    let mut a = with_category();
    a.chat.selected_channel = 0;
    a.sync_selection();
    assert_eq!(a.chat.selected_channel, 11, "カテゴリを開こうとしている");
}

/// Categories still appear; not openable is not the same as not shown.
#[test]
fn the_category_still_appears_in_the_list() {
    let rows = with_category().channel_rows();
    assert_eq!(rows.len(), 2);
    assert!(rows[0].category);
    assert_eq!(with_category().openable_rows().len(), 1);
}

// ── folders ────────────────────────────────────────────────────────────────

fn folder(guilds: &[u64], color: Option<u32>) -> GuildEntry {
    GuildEntry::Folder {
        id: 100,
        row: FolderRow {
            name: None,
            color,
            guilds: guilds.iter().map(|id| GuildId::from(*id)).collect(),
        },
    }
}

/// One folder of three, and one guild outside it.
fn app_with_folder() -> Gumicord {
    let mut a = Gumicord::demo();
    a.live.guilds = vec![
        guild(1, "あ", Some("aaa")),
        guild(2, "い", Some("bbb")),
        guild(3, "う", None),
        guild(4, "え", Some("ddd")),
    ];
    a.live.sidebar = vec![
        folder(&[1, 2, 3], Some(0x007c_6cf0)),
        entry(1, "あ", true),
        entry(2, "い", true),
        entry(3, "う", true),
        entry(4, "え", false),
    ];
    a
}

/// Tiles on a folded folder. Counted by `collapsed`, since ordinary guilds use
/// the same stable ID.
fn tiles(node: &UiNode) -> usize {
    let mut found = 0;
    walk(node, &mut |n| {
        if n.id == NodeId::NavGuildListItemIcon && n.states.contains(&State::Collapsed) {
            found += 1;
        }
    });
    found
}

fn pills(node: &UiNode) -> Vec<Vec<State>> {
    let mut out = Vec::new();
    walk(node, &mut |n| {
        if n.id == NodeId::NavGuildListItemPill {
            out.push(n.states.clone());
        }
    });
    out
}

/// The pill appears only when selected, unread or hovered — absent rather than
/// zero-height, so a visible pill always means something.
#[test]
fn the_pill_only_appears_when_it_means_something() {
    let mut a = app_with_folder();
    a.chat.selected_guild = 4;

    // Only on the selected guild.
    let found = pills(&a.guild_list());
    assert_eq!(found.len(), 1);
    assert!(found[0].contains(&State::Selected));

    // None selected, none shown.
    a.chat.selected_guild = 0;
    assert!(pills(&a.guild_list()).is_empty());
}

/// The icon is a child of the container, which is wider and leaves a lane for
/// the pill.
#[test]
fn the_item_holds_the_picture_rather_than_being_it() {
    let list = app_with_folder().guild_list();
    let item = list
        .children
        .iter()
        .find(|n| n.id == NodeId::NavGuildListItem)
        .expect("サーバがある");
    assert!(!matches!(item.content, Content::Image(_)), "入れ物は絵を持たない");
    assert!(
        item.children.iter().any(|c| c.id == NodeId::NavGuildListItemIcon),
        "絵は子である"
    );
}

/// A folded folder tiles its contents; a box with one initial does not say
/// which folder it is.
#[test]
fn a_closed_folder_shows_what_is_inside() {
    let mut a = app_with_folder();
    a.live.collapsed = vec![100];
    assert_eq!(tiles(&a.guild_list()), 3);
}

/// Tiling an open folder would show the same icons twice.
#[test]
fn an_open_folder_does_not_repeat_its_contents() {
    assert_eq!(tiles(&app_with_folder().guild_list()), 0);
}

fn items(nodes: &[UiNode]) -> usize {
    nodes.iter().filter(|n| n.id == NodeId::NavGuildListItem).count()
}

/// As siblings the background would stop covering them and the folder's extent
/// would be invisible.
#[test]
fn an_open_folder_holds_its_contents() {
    let list = app_with_folder().guild_list();
    let folder = list
        .children
        .iter()
        .find(|n| n.id == NodeId::NavGuildListFolder)
        .expect("フォルダが無い");

    assert_eq!(items(&folder.children), 3, "中身がフォルダの中に無い");
    assert_eq!(items(&list.children), 1, "フォルダの外のサーバだけが兄弟であるはず");
}

/// A folded folder holds no children.
#[test]
fn a_closed_folder_holds_nothing() {
    let mut a = app_with_folder();
    a.live.collapsed = vec![100];
    assert_eq!(items(&a.guild_list().children), 1);
}

/// Anything beyond the 2x2 is pointless.
#[test]
fn only_four_fit() {
    let mut a = Gumicord::demo();
    a.live.guilds = (1..=7).map(|i| guild(i, "さ", Some("hash"))).collect();
    a.live.sidebar = vec![folder(&[1, 2, 3, 4, 5, 6, 7], None)];
    a.live.sidebar.extend((1..=7).map(|i| entry(i, "さ", true)));
    a.live.collapsed = vec![100];

    assert_eq!(tiles(&a.guild_list()), FOLDER_TILES);
}

/// A guild without an icon still takes a tile; a gap reads worse.
#[test]
fn a_guild_without_an_icon_still_takes_a_tile() {
    let mut a = app_with_folder();
    a.live.collapsed = vec![100];
    let rows = a.guild_rows();
    let folder = rows.iter().find(|r| r.folder_of_own == Some(100)).unwrap();

    assert_eq!(folder.members.len(), 3);
    assert!(folder.members[2].icon.is_none());
}

// ── the tooltip ────────────────────────────────────────────────────────────

fn live_app(timestamp: &str) -> Gumicord {
    let mut m = stamped(1, 7, "nenneko", timestamp);
    m.content = "hi".to_owned();
    with_backlog(vec![m])
}

fn hover(a: &mut Gumicord, id: NodeId) {
    a.hover_changed(&vec![hit_of(id, Some(Key::Id(1)))]);
}

/// Hovering a timestamp shows the whole date, not the short hour.
#[test]
fn hovering_a_timestamp_shows_the_whole_date() {
    let mut a = live_app("2026-09-03T12:00:00+00:00");
    let rows = a.message_rows();
    assert!(!rows.is_empty(), "backlog did not take");
    hover(&mut a, NodeId::ChatMessageHeaderTime);
    let tip = a.tooltip().expect("no tip");
    let mut shown = Vec::new();
    walk(&tip, &mut |n| {
        if n.id == NodeId::OverlayTooltip {
            if let Some(t) = n.content.as_text() {
                shown.push(t.to_owned());
            }
        }
    });
    assert_eq!(shown, vec![format!("{} {}", rows[0].day, rows[0].time)]);
}

/// Anywhere else, and for dateless rows, there is nothing to add.
#[test]
fn hovering_anywhere_else_shows_nothing() {
    let mut a = live_app("2026-09-03T12:00:00+00:00");
    assert!(!a.message_rows().is_empty(), "backlog did not take");
    hover(&mut a, NodeId::ChatMessageContent);
    assert!(a.tooltip().is_none());
    a.hover_changed(&Vec::new());
    assert!(a.tooltip().is_none());

    let mut b = live_app("あとで");
    assert!(!b.message_rows().is_empty(), "backlog did not take");
    hover(&mut b, NodeId::ChatMessageHeaderTime);
    assert!(b.tooltip().is_none(), "dateless rows add nothing");
}

/// Right-clicking a channel or a guild opens its own menu.
#[test]
fn each_row_opens_its_own_menu() {
    let mut a = with_backlog(Vec::new());
    a.live.channels[0].unread = true;
    let at = Point { x: 0, y: 0 };
    assert!(a.context_menu(&vec![hit_of(NodeId::NavChannelListItem, Some(Key::Id(10)))], at, 0));
    assert!(a.channel_menu(10).iter().any(|i| i.action == Action::MarkRead(10)));
    assert!(a.guild_menu(1).iter().all(|i| !i.label.is_empty()));
}
