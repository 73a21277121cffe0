//! The chat screen: drawer and sheet, composing, presses and keys.

use gumicord::input::TextDocument;
use gumicord::live::{ChannelState, Live};
use gumicord::menu::{Action, Floating, Item, Menu, Point, Present};
use gumicord::pages::chat::composer::{typing_line, CANCEL_COMPOSING, REPLY_MENTION};
use gumicord::pages::chat::lists::{BACK_OPEN, MEMBERS_OPEN, SETTINGS_OPEN};
use gumicord::model::{ChannelId, Message, MessageId, User, UserId};
use gumicord::pages::chat::relative::seconds_until_change;
use gumicord::pages::chat::rows::loading_row;
use gumicord::pages::overlays::{Hit, Rect, Swipe, SwipeDir};
use gumicord::shell::{Composing, Effect, Gumicord, LoginField, Panes};
use gumicord::slide::FULL;
use gumicord::ui::{Content, Editable, Key, NodeId, State, UiNode};

const LATER: u64 = 1_000_000;

fn app() -> Gumicord {
    Gumicord::demo()
}

fn narrow() -> Gumicord {
    let mut a = app();
    a.given.panes = Panes::One;
    a
}

fn px(v: f64) -> i64 {
    (v * 1000.0) as i64
}

fn swipe(dir: SwipeDir, x: f64) -> Swipe {
    Swipe { dir, at: Point { x: px(x), y: px(400.0) } }
}

fn hit_at(id: NodeId, key: Option<Key>, x: f64, y: f64, w: f64, h: f64) -> Hit {
    Hit { id, key, rect: Rect { x: px(x), y: px(y), w: px(w), h: px(h) } }
}

fn hit_of(id: NodeId, key: Option<Key>) -> Hit {
    hit_at(id, key, 0.0, 0.0, 0.0, 0.0)
}

fn settle_drawer(a: &mut Gumicord) {
    a.advance_drawer(LATER * 2);
}

fn settle_sheet(a: &mut Gumicord) {
    a.advance_sheet(LATER * 2);
}

fn with_menu_in(mut a: Gumicord) -> Gumicord {
    let msg = vec![hit_of(NodeId::ChatMessage, Some(Key::Id(1)))];
    assert!(
        a.context_menu(&msg, Point { x: px(10.0), y: px(20.0) }, 0),
        "メニューが開かなかった"
    );
    a
}

fn narrow_menu() -> Gumicord {
    let a = with_menu_in(narrow());
    assert!(matches!(a.floating, Some(Floating::Menu(_))), "品物がない");
    a
}

fn with_menu() -> Gumicord {
    with_menu_in(app())
}

fn walk(n: &UiNode, f: &mut dyn FnMut(&UiNode)) {
    f(n);
    for c in &n.children {
        walk(c, f);
    }
}

fn field(tree: &UiNode) -> &Editable {
    fn find<'a>(n: &'a UiNode) -> Option<&'a Editable> {
        if n.id == NodeId::ChatInputField {
            if let Content::Editable(e) = &n.content {
                return Some(e);
            }
        }
        n.children.iter().find_map(find)
    }
    find(tree).expect("入力欄が見つからない")
}

/// Puts one message into the open channel.
fn show(a: &mut Gumicord, content: &str) {
    let channel = ChannelId::from(a.chat.selected_channel);
    a.live.channels = vec![ChannelState {
        id: channel,
        unread: false,
        mentions: 0,
        messages: vec![Message {
            id: MessageId::from(9_999u64),
            channel_id: channel,
            guild_id: None,
            author: User {
                id: UserId::from(7u64),
                username: "nenneko".to_owned(),
                global_name: Some("ねんねこ".to_owned()),
                discriminator: "0".to_owned(),
                avatar_hash: None,
                bot: false,
            },
            content: content.to_owned(),
            timestamp: "2026-08-22T12:34:56+00:00".to_owned(),
            edited_timestamp: None,
            pinned: false,
            attachments: Vec::new(),
            member: None,
            referenced_message: None,
            mentions: Vec::new(),
            mention_everyone: false,
        }],
        loading: false,
        paging_older: false,
        typing: Vec::new(),
    }];
}

fn mark_read_menu() -> Floating {
    Floating::Menu(Menu {
        at: Point { x: 0, y: 0 },
        items: vec![Item::new(Action::MarkRead(1), "既読にする")],
    })
}

// ── replying and editing ───────────────────────────────────────────────────

#[test]
fn replying_and_editing_are_visible_on_screen() {
    let bar = |c: Composing| {
        let mut a = app();
        a.chat.composing = c;
        let mut out = None;
        walk(&a.chat_view(), &mut |n| {
            if n.id == NodeId::ChatInputToolbar {
                out = n.key;
            }
        });
        out
    };
    assert_eq!(bar(Composing::New), None, "何もしていないのに出ている");
    assert_eq!(bar(Composing::Reply(1)), Some(Key::Slot("reply")));
    assert_eq!(bar(Composing::Edit(1)), Some(Key::Slot("edit")));
}

#[test]
fn a_cancel_button_appears_while_replying() {
    let cancel = |c: Composing| {
        let mut a = app();
        a.chat.composing = c;
        let mut found = false;
        walk(&a.chat_view(), &mut |n| {
            found |= n.id == NodeId::PrimitiveButton && n.key == Some(Key::Slot(CANCEL_COMPOSING));
        });
        found
    };
    assert!(!cancel(Composing::New), "何もしていないのに出ている");
    assert!(cancel(Composing::Reply(1)));
    assert!(cancel(Composing::Edit(1)));
}

#[test]
fn the_mention_switch_appears_only_while_replying() {
    fn label(a: &Gumicord) -> Option<String> {
        let mut out = None;
        walk(&a.chat_view(), &mut |n| {
            if n.id == NodeId::PrimitiveButton && n.key == Some(Key::Slot(REPLY_MENTION)) {
                for c in &n.children {
                    if let Content::Text(t) = &c.content {
                        out = Some(t.clone());
                    }
                }
            }
        });
        out
    }
    let mut replying = app();
    replying.chat.composing = Composing::Reply(1);
    replying.chat.reply_mention = true;
    assert_eq!(label(&replying).as_deref(), Some("@ON"));
    replying.chat.reply_mention = false;
    assert_eq!(label(&replying).as_deref(), Some("@OFF"));

    let mut editing = app();
    editing.chat.composing = Composing::Edit(1);
    assert_eq!(label(&editing), None);

    let mut fresh = app();
    fresh.chat.composing = Composing::New;
    assert_eq!(label(&fresh), None);
}

#[test]
fn pressing_the_mention_switch_flips_the_flag() {
    let mut a = app();
    a.chat.composing = Composing::Reply(1);
    assert!(a.chat.reply_mention);
    let hits = vec![hit_of(NodeId::PrimitiveButton, Some(Key::Slot(REPLY_MENTION)))];
    assert!(a.pressed(&hits, 0));
    assert!(!a.chat.reply_mention);
    assert!(a.pressed(&hits, 0));
    assert!(a.chat.reply_mention);
}

#[test]
fn pressing_the_mention_switch_outside_a_reply_changes_nothing() {
    let mut a = app();
    a.chat.composing = Composing::Edit(1);
    let before = a.chat.reply_mention;
    let hits = vec![hit_of(NodeId::PrimitiveButton, Some(Key::Slot(REPLY_MENTION)))];
    a.pressed(&hits, 0);
    assert_eq!(a.chat.reply_mention, before);
    assert_eq!(a.chat.composing, Composing::Edit(1));
}

#[test]
fn cancelling_a_reply_keeps_the_draft_but_cancelling_an_edit_clears_it() {
    let press = |c: Composing| {
        let mut a = app();
        a.chat.composing = c;
        a.chat.input.insert("書いた文");
        let hits = vec![hit_of(NodeId::PrimitiveButton, Some(Key::Slot(CANCEL_COMPOSING)))];
        assert!(a.pressed(&hits, 0), "何も起きなかった");
        assert_eq!(a.chat.composing, Composing::New, "やめていない");
        a.chat.input.text()
    };
    assert_eq!(press(Composing::Reply(1)), "書いた文", "返信で消えた");
    assert_eq!(press(Composing::Edit(1)), "", "編集で残った");
}

#[test]
fn another_button_does_not_cancel() {
    let mut a = app();
    a.chat.composing = Composing::Reply(1);
    let hits = vec![hit_of(NodeId::PrimitiveButton, Some(Key::Slot("その他")))];
    a.pressed(&hits, 0);
    assert_eq!(a.chat.composing, Composing::Reply(1), "別のボタンで取り消された");
}

/// Escape cancels the reply or edit before it discards anything else.
#[test]
fn escape_cancels_a_reply_before_leaving_the_field() {
    let mut a = app();
    a.chat.input_focused = true;
    a.chat.composing = Composing::Reply(1);
    a.chat.input.insert("書きかけ");

    assert!(a.cancel_input(0));
    assert_eq!(a.chat.composing, Composing::New, "返信のままである");
    assert!(a.chat.input_focused, "フォーカスまで外れた");
}

#[test]
fn submitting_an_empty_field_does_nothing() {
    let mut a = app();
    a.chat.composing = Composing::Edit(1);
    assert!(!a.submit());
    assert_eq!(a.chat.composing, Composing::Edit(1), "編集をやめてしまった");
}

#[test]
fn submitting_returns_to_composing_a_new_message() {
    let mut a = app();
    a.chat.composing = Composing::Reply(1);
    a.chat.input.insert("やあ");
    assert!(a.submit());
    assert_eq!(a.chat.composing, Composing::New);
}

#[test]
fn someone_elses_message_offers_neither_edit_nor_delete() {
    // Signed out, so nothing is ours.
    let a = app();
    let items = a.message_menu(1);
    assert!(
        !items.iter().any(|i| matches!(i.action, Action::Edit(_) | Action::Delete(_))),
        "他人の発言に編集か削除が出ている"
    );
    // Reply is offered on anyone's message.
    assert!(items.iter().any(|i| matches!(i.action, Action::Reply(_))));
}

#[test]
fn the_input_field_gets_the_input_menu() {
    let mut a = app();
    let hits = vec![
        hit_of(NodeId::ChatInputField, None),
        hit_of(NodeId::ChatMessage, Some(Key::Id(1))),
    ];
    assert!(a.context_menu(&hits, Point { x: 0, y: 0 }, 0));

    let items = match a.floating.as_ref().expect("開いていない") {
        Floating::Menu(m) => &m.items,
        Floating::Confirm(_) => panic!("確認の窓が出ている"),
    };
    assert!(items.iter().any(|i| i.action == Action::Paste), "発言のメニューが出ている");
}

#[test]
fn cut_and_copy_are_absent_without_a_selection() {
    let mut a = app();
    let has = |a: &Gumicord, want: Action| a.field_menu().iter().any(|i| i.action == want);

    assert!(!has(&a, Action::CopySelection));
    assert!(!has(&a, Action::SelectAll), "空なのに全選択が出ている");
    assert!(has(&a, Action::Paste), "貼り付けはいつでも出る");

    a.chat.input.insert("あいう");
    assert!(has(&a, Action::SelectAll));
    assert!(!has(&a, Action::CopySelection), "まだ選んでいない");

    a.chat.input.select_all();
    assert!(has(&a, Action::CopySelection));
    assert!(has(&a, Action::Cut));
}

// ── touch ──────────────────────────────────────────────────────────────────

#[test]
fn swipe_left_on_a_message_starts_a_reply() {
    let mut a = app();
    let hits = vec![hit_of(NodeId::ChatMessage, Some(Key::Id(7)))];
    assert!(a.swiped(&hits, swipe(SwipeDir::Left, 300.0), 0));
    assert_eq!(a.chat.composing, Composing::Reply(7));
    assert!(a.chat.input_focused, "入力欄に焦点がない");
    assert_eq!(a.chat.a11y_message, Some(7));
}

#[test]
fn flicking_the_drawer_away_closes_it() {
    let mut a = narrow();
    assert!(a.open_drawer(0));
    let drawer = vec![hit_at(NodeId::OverlayDrawer, None, 0.0, 0.0, 280.0, 800.0)];
    assert!(a.swiped(&drawer, swipe(SwipeDir::Left, 100.0), 0));
    settle_drawer(&mut a);
    assert!(!a.chat.drawer_open, "閉じない");

    assert!(a.open_drawer(0));
    assert!(!a.swiped(&drawer, swipe(SwipeDir::Up, 100.0), 0));
    assert!(a.chat.drawer_open, "上の払いで閉じた");
}

#[test]
fn a_swipe_behind_the_drawer_dismisses_without_replying() {
    let mut a = narrow();
    assert!(a.open_drawer(0));
    let behind = vec![hit_at(NodeId::ChatMessage, Some(Key::Id(7)), 300.0, 400.0, 80.0, 50.0)];
    assert!(a.swiped(&behind, swipe(SwipeDir::Left, 320.0), 0));
    settle_drawer(&mut a);
    assert!(!a.chat.drawer_open, "閉じていない");
    assert_eq!(a.chat.composing, Composing::New, "裏へ返信した");
}

#[test]
fn flicking_the_member_sheet_away_closes_it() {
    let mut a = narrow();
    assert!(a.open_member_sheet(0));
    let sheet = vec![hit_at(NodeId::OverlaySheet, None, 0.0, 400.0, 400.0, 400.0)];
    assert!(a.swiped(&sheet, swipe(SwipeDir::Down, 200.0), 0));
    assert!(a.chat.member_sheet_open, "払った瞬間に消えた");
    settle_sheet(&mut a);
    assert!(!a.chat.member_sheet_open, "閉じない");

    assert!(a.open_member_sheet(0));
    assert!(!a.swiped(&sheet, swipe(SwipeDir::Up, 200.0), 0));
    assert!(a.chat.member_sheet_open, "上の払いで閉じた");
}

#[test]
fn opening_coasts_the_drawer_in_over_time() {
    let mut a = narrow();
    let start = 5_000;
    assert!(a.open_drawer(start));
    assert_eq!(a.chat.drawer.at, 0, "開いた瞬間にいる");
    assert!(a.advance_drawer(start + 110));
    let mid = a.chat.drawer.at;
    assert!(mid > 0 && mid < FULL, "途中にいない: {mid}");
    assert!(!a.advance_drawer(start + 1000));
    assert_eq!(a.chat.drawer.at, FULL);
    assert!(a.chat.drawer_open, "着いたのに閉じた");
}

/// Half of the time covers seven eighths of the way: fast out, quiet in.
#[test]
fn half_of_the_time_covers_most_of_the_way() {
    let mut a = narrow();
    assert!(a.open_drawer(0));
    assert!(a.advance_drawer(110));
    assert_eq!(a.chat.drawer.at, 875_000);
}

#[test]
fn closing_coasts_out_and_lands_shut() {
    let mut a = narrow();
    assert!(a.open_drawer(0));
    settle_drawer(&mut a);
    assert!(a.close_drawer(LATER));
    assert!(a.chat.drawer_open, "閉じ始めに消えた");
    assert!(!a.advance_drawer(LATER + 1000));
    assert!(!a.chat.drawer_open, "着いたのに残っている");
    assert_eq!(a.chat.drawer.at, 0);
}

#[test]
fn reopening_mid_close_swings_back() {
    let mut a = narrow();
    assert!(a.open_drawer(0));
    settle_drawer(&mut a);
    assert!(a.close_drawer(LATER));
    assert!(a.open_drawer(LATER + 50), "閉じ途中に開けない");
    assert!(a.chat.drawer_open, "開き直していない");
}

#[test]
fn the_finger_drives_the_slide_and_letting_go_coasts() {
    // A slow release past halfway finishes opening, counted from the start.
    let mut a = narrow();
    assert!(a.drawer_drag_start());
    assert!(a.chat.drawer.drag, "掴んでいない");
    assert!(a.drawer_drag_move(px(140.0), px(280.0)));
    assert_eq!(a.chat.drawer.at, FULL / 2);
    assert!(a.drawer_drag_move(px(168.0), px(280.0)));
    assert!(a.drawer_drag_end(0, 0));
    assert!(!a.chat.drawer.drag, "離したのに掴んだまま");
    assert_eq!(a.chat.drawer.target, FULL, "半分過ぎたのに戻る");

    // A fast flick left falls back whatever the progress.
    let mut b = narrow();
    assert!(b.drawer_drag_start());
    assert!(b.drawer_drag_move(px(200.0), px(280.0)));
    assert!(b.drawer_drag_end(px(-1000.0), 0));
    assert_eq!(b.chat.drawer.target, 0, "払ったのに開く");

    // A fast flick right opens from anywhere.
    let mut c = narrow();
    assert!(c.drawer_drag_start());
    assert!(c.drawer_drag_move(px(10.0), px(280.0)));
    assert!(c.drawer_drag_end(px(1000.0), 0));
    assert_eq!(c.chat.drawer.target, FULL, "払ったのに戻る");
}

#[test]
fn a_coasting_drawer_wakes_the_loop_until_it_lands() {
    let mut a = narrow();
    assert!(a.open_drawer(0));
    let wake = a.next_frame_in().expect("寝てしまう");
    assert!(wake <= 16, "{wake:?}");
    settle_drawer(&mut a);
    // Landed and idle: nothing to wake for.
    assert_eq!(a.next_frame_in(), None);
}

#[test]
fn the_trait_path_drives_the_drawer_too() {
    let mut a = narrow();
    assert!(a.drawer_drag_maybe(px(10.0)));
    assert!(!a.drawer_drag_maybe(px(300.0)));
    assert!(a.drawer_drag_start());
    assert!(a.drawer_drag_move(px(140.0), px(280.0)));
    assert!(a.drawer_drag_end(0, 0));
    assert_eq!(a.chat.drawer.at, FULL / 2);
    // An open drawer answers a close drag the same way.
    assert!(a.open_drawer(0));
    settle_drawer(&mut a);
    assert!(a.chat.drawer_open);
    assert!(a.drawer_close_drag_maybe());
    assert!(a.drawer_close_drag_start());
}

#[test]
fn opening_coasts_the_sheet_in_over_time() {
    let mut a = narrow();
    let start = 7_000;
    assert!(a.open_member_sheet(start));
    assert_eq!(a.sheet.at, 0, "開いた瞬間にいる");
    assert!(a.advance_sheet(start + 110));
    let mid = a.sheet.at;
    assert!(mid > 0 && mid < FULL, "途中にいない: {mid}");
    assert!(!a.advance_sheet(start + 1000));
    assert_eq!(a.sheet.at, FULL);
    assert!(a.chat.member_sheet_open, "着いたのに閉じた");
}

#[test]
fn closing_coasts_the_sheet_out_and_lands_shut() {
    let mut a = narrow();
    assert!(a.open_member_sheet(0));
    settle_sheet(&mut a);
    assert!(a.close_member_sheet(LATER));
    assert!(a.chat.member_sheet_open, "閉じ始めに消えた");
    assert!(!a.advance_sheet(LATER + 1000));
    assert!(!a.chat.member_sheet_open, "着いたのに残っている");
    assert_eq!(a.sheet.at, 0);
}

#[test]
fn the_finger_drives_the_sheet_and_letting_go_coasts() {
    // A slow release past halfway down finishes closing.
    let mut a = narrow();
    assert!(a.open_member_sheet(0));
    settle_sheet(&mut a);
    assert!(a.sheet_drag_start());
    assert!(a.sheet.drag, "掴んでいない");
    assert!(a.sheet_drag_move(px(300.0), px(500.0)));
    assert!((a.sheet.at as f64 / FULL as f64 - 0.4).abs() < 0.001, "付いてこない: {}", a.sheet.at);
    assert!(a.sheet_drag_end(0, 0));
    assert!(!a.sheet.drag, "離したのに掴んだまま");
    assert_eq!(a.sheet.target, 0, "半分過ぎたのに戻る");

    // A fast flick up swings back open from anywhere.
    let mut b = narrow();
    assert!(b.open_member_sheet(0));
    settle_sheet(&mut b);
    assert!(b.sheet_drag_start());
    assert!(b.sheet_drag_move(px(400.0), px(500.0)));
    assert!(b.sheet_drag_end(px(-1000.0), 0));
    assert_eq!(b.sheet.target, FULL, "払ったのに閉じる");

    // A fast flick down closes whatever the progress.
    let mut c = narrow();
    assert!(c.open_member_sheet(0));
    settle_sheet(&mut c);
    assert!(c.sheet_drag_start());
    assert!(c.sheet_drag_move(px(10.0), px(500.0)));
    assert!(c.sheet_drag_end(px(1000.0), 0));
    assert_eq!(c.sheet.target, 0, "払ったのに開く");
}

#[test]
fn the_finger_drives_an_open_drawer_shut() {
    let mut a = narrow();
    assert!(a.open_drawer(0));
    settle_drawer(&mut a);
    // A slow drag left past halfway falls shut.
    assert!(a.drawer_close_drag_start());
    assert!(a.drawer_drag_move(px(-140.0), px(280.0)));
    assert_eq!(a.chat.drawer.at, FULL / 2);
    assert!(a.drawer_drag_end(0, 0));
    assert_eq!(a.chat.drawer.target, 0, "半分過ぎたのに戻る");

    // A small drag springs back open.
    let mut b = narrow();
    assert!(b.open_drawer(0));
    settle_drawer(&mut b);
    assert!(b.drawer_close_drag_start());
    assert!(b.drawer_drag_move(px(-28.0), px(280.0)));
    assert!(b.drawer_drag_end(0, 0));
    assert_eq!(b.chat.drawer.target, FULL, "少しで閉じる");
}

#[test]
fn a_coasting_sheet_wakes_the_loop_until_it_lands() {
    let mut a = narrow();
    assert!(a.open_member_sheet(0));
    let wake = a.next_frame_in().expect("寝てしまう");
    assert!(wake <= 16, "{wake:?}");
    settle_sheet(&mut a);
    assert_eq!(a.next_frame_in(), None);
}

#[test]
fn the_trait_path_drives_the_sheet_too() {
    let mut a = narrow();
    assert!(a.open_member_sheet(0));
    settle_sheet(&mut a);
    assert!(a.sheet_drag_maybe());
    assert!(a.sheet_drag_start());
    assert!(a.sheet_drag_move(px(150.0), px(500.0)));
    assert!(a.sheet_drag_end(0, 0));
    assert!((a.sheet.at as f64 / FULL as f64 - 0.7).abs() < 0.001);
}

#[test]
fn dismissing_a_menu_sheet_coasts_out_while_choosing_acts_at_once() {
    let mut a = narrow_menu();
    assert_eq!(a.sheet.at, 0, "開いた瞬間にいる");
    assert!(a.close_menu(0));
    assert!(a.floating.is_some(), "閉じ始めに消えた");
    settle_sheet(&mut a);
    assert!(a.floating.is_none(), "着いたのに残っている");

    // Choosing an item vanishes at once instead of coasting.
    let mut b = narrow_menu();
    settle_sheet(&mut b);
    b.floating = Some(mark_read_menu());
    let hits = vec![hit_of(NodeId::OverlayMenuItem, Some(Key::Index(0)))];
    assert!(b.pressed(&hits, 0));
    assert!(b.floating.is_none(), "選んだのに残っている");
}

#[test]
fn opening_a_menu_closes_the_member_sheet() {
    let mut a = narrow();
    assert!(a.open_member_sheet(0));
    let msg = vec![hit_of(NodeId::ChatMessage, Some(Key::Id(1)))];
    assert!(a.context_menu(&msg, Point { x: px(10.0), y: px(20.0) }, 0));
    assert!(!a.chat.member_sheet_open, "面が残っている");
    assert!(matches!(a.floating, Some(Floating::Menu(_))));
}

#[test]
fn edge_swipe_opens_the_drawer_when_narrow() {
    let mut a = narrow();
    assert!(a.swiped(&Vec::new(), swipe(SwipeDir::Right, 10.0), 0));
    assert!(a.chat.drawer_open, "棚が開かない");

    let mut wide = app();
    wide.given.panes = Panes::Four;
    assert!(!wide.swiped(&Vec::new(), swipe(SwipeDir::Right, 10.0), 0));
    assert!(!wide.chat.drawer_open, "広いのに開いた");

    let mut mid = narrow();
    assert!(!mid.swiped(&Vec::new(), swipe(SwipeDir::Right, 300.0), 0));
    assert!(!mid.chat.drawer_open, "端でないのに開いた");
}

#[test]
fn drawer_selects_a_channel_then_closes() {
    let mut a = narrow();
    assert!(a.open_drawer(0));
    // A real press inside the drawer carries the drawer's hit too.
    let drawer = hit_at(NodeId::OverlayDrawer, None, 0.0, 0.0, 280.0, 800.0);
    let item = hit_at(NodeId::NavChannelListItem, Some(Key::Id(10)), 8.0, 100.0, 264.0, 40.0);
    assert!(a.pressed(&vec![item, drawer], 0));
    assert_eq!(a.chat.selected_channel, 10);
    settle_drawer(&mut a);
    assert!(!a.chat.drawer_open, "選んだのに閉じない");
}

#[test]
fn a_press_behind_the_drawer_dismisses_without_acting() {
    let mut a = narrow();
    assert!(a.open_drawer(0));
    let channel = a.chat.selected_channel;
    // A channel row behind the drawer: the same id, outside its rectangle, and
    // no drawer hit at all.
    let behind =
        vec![hit_at(NodeId::NavChannelListItem, Some(Key::Id(20)), 300.0, 100.0, 80.0, 40.0)];
    assert!(a.pressed(&behind, 0));
    settle_drawer(&mut a);
    assert!(!a.chat.drawer_open, "閉じていない");
    assert_eq!(a.chat.selected_channel, channel, "裏の一覧が動いた");
}

#[test]
fn a_press_on_the_drawer_dead_zone_keeps_it_open() {
    let mut a = narrow();
    assert!(a.open_drawer(0));
    let drawer = vec![hit_at(NodeId::OverlayDrawer, None, 0.0, 0.0, 280.0, 800.0)];
    assert!(!a.pressed(&drawer, 0));
    assert!(a.chat.drawer_open, "隙間で閉じた");
}

#[test]
fn tapping_outside_the_drawer_dismisses_it() {
    let mut a = narrow();
    assert!(a.open_drawer(0));
    let channel = a.chat.selected_channel;
    assert!(a.pressed(&vec![hit_of(NodeId::ChatMessage, Some(Key::Id(1)))], 0));
    settle_drawer(&mut a);
    assert!(!a.chat.drawer_open, "閉じていない");
    assert_eq!(a.chat.selected_channel, channel, "下のチャンネルへ移動した");
}

#[test]
fn pressing_outside_a_field_releases_focus() {
    let mut a = app();
    a.chat.input_focused = true;
    a.login_view.field = Some(LoginField::Email);
    assert!(a.pressed(&vec![hit_of(NodeId::ChatMessage, Some(Key::Id(1)))], 0));
    assert!(!a.chat.input_focused, "入力欄に焦点が残っている");
    assert!(a.login_view.field.is_none(), "ログイン欄に焦点が残っている");
}

#[test]
fn opening_a_message_menu_releases_focus() {
    let mut a = app();
    a.chat.input_focused = true;
    let a = with_menu_in(a);
    assert!(a.floating.is_some(), "メニューが開かなかった");
    assert!(!a.chat.input_focused, "メニューの裏にキーボードが残っている");
}

#[test]
fn opening_a_field_menu_keeps_focus() {
    let mut a = app();
    a.chat.input.insert("abc");
    let hits = vec![hit_of(NodeId::ChatInputField, None)];
    assert!(a.context_menu(&hits, Point { x: 0, y: 0 }, 0));
    assert!(a.floating.is_some(), "メニューが開かなかった");
    assert!(a.chat.input_focused, "欄のメニューが欄を失った");
}

#[test]
fn pressing_outside_an_open_menu_releases_focus() {
    let mut a = with_menu();
    a.chat.input_focused = true;
    let msg = vec![hit_of(NodeId::ChatMessage, Some(Key::Id(1)))];
    assert!(a.pressed(&msg, 0));
    settle_sheet(&mut a);
    assert!(a.floating.is_none(), "メニューが閉じていない");
    assert!(!a.chat.input_focused, "キーボードが閉じていない");
}

#[test]
fn opening_the_drawer_releases_focus() {
    let mut a = narrow();
    a.chat.input_focused = true;
    assert!(a.open_drawer(0));
    assert!(!a.chat.input_focused, "棚の裏にキーボードが残っている");
}

#[test]
fn tapping_outside_the_drawer_releases_focus() {
    let mut a = narrow();
    assert!(a.open_drawer(0));
    a.chat.input_focused = true;
    assert!(a.pressed(&vec![hit_of(NodeId::ChatMessage, Some(Key::Id(1)))], 0));
    settle_drawer(&mut a);
    assert!(!a.chat.drawer_open, "閉じていない");
    assert!(!a.chat.input_focused, "キーボードが閉じていない");
}

#[test]
fn opening_settings_releases_focus() {
    let mut a = app();
    a.chat.input_focused = true;
    assert!(a.open_settings());
    assert!(a.settings.open, "開かなかった");
    assert!(!a.chat.input_focused, "設定の裏にキーボードが残っている");
}

#[test]
fn pressing_a_settings_row_releases_focus() {
    let mut a = app();
    assert!(a.open_settings());
    a.chat.input_focused = true;
    assert!(a.pressed(&vec![hit_of(NodeId::OverlayMenuItem, Some(Key::Index(0)))], 0));
    assert!(!a.chat.input_focused, "キーボードが閉じていない");
}

#[test]
fn escape_closes_drawer_and_sheet() {
    let mut a = narrow();
    assert!(a.open_drawer(0));
    assert!(a.cancel_input(0));
    settle_drawer(&mut a);
    assert!(!a.chat.drawer_open, "Esc で閉じない");

    assert!(a.open_member_sheet(0));
    assert!(a.cancel_input(0));
    settle_sheet(&mut a);
    assert!(!a.chat.member_sheet_open, "Esc で閉じない");
}

#[test]
fn members_button_opens_the_sheet_when_narrow() {
    let mut a = narrow();
    assert!(a.pressed(&vec![hit_of(NodeId::PrimitiveButton, Some(Key::Slot(MEMBERS_OPEN)))], 0));
    assert!(a.chat.member_sheet_open);

    // Tapping a row closes the sheet; there is no profile view yet.
    assert!(a.pressed(&vec![hit_of(NodeId::NavMemberListItem, Some(Key::Id(5)))], 0));
    settle_sheet(&mut a);
    assert!(!a.chat.member_sheet_open, "閉じていない");

    let mut wide = app();
    wide.given.panes = Panes::Four;
    assert!(!wide.open_member_sheet(0), "広いのに開いた");
}

#[test]
fn header_button_appears_only_when_narrow() {
    fn has_button(a: &Gumicord) -> bool {
        let mut found = false;
        walk(&a.chat_view(), &mut |n| {
            found = found
                || (n.id == NodeId::PrimitiveButton && n.key == Some(Key::Slot(MEMBERS_OPEN)));
        });
        found
    }
    assert!(has_button(&narrow()));
    let mut wide = app();
    wide.given.panes = Panes::Four;
    assert!(!has_button(&wide));
}

#[test]
fn back_button_opens_the_drawer() {
    let mut a = narrow();
    let mut found = false;
    walk(&a.chat_view(), &mut |n| {
        found = found || (n.id == NodeId::PrimitiveButton && n.key == Some(Key::Slot(BACK_OPEN)));
    });
    assert!(found, "戻る札が出ていない");
    assert!(a.pressed(&vec![hit_of(NodeId::PrimitiveButton, Some(Key::Slot(BACK_OPEN)))], 0));
    assert!(a.chat.drawer_open, "戻る札で開かない");
}

// ── menus and dialogs ──────────────────────────────────────────────────────

#[test]
fn right_clicking_a_message_opens_the_menu() {
    let a = with_menu();
    assert!(a.floating.is_some());
    let at = match a.floating.as_ref() {
        Some(Floating::Menu(m)) => Some(m.at),
        _ => None,
    };
    assert_eq!(at, Some(Point { x: px(10.0), y: px(20.0) }));
}

#[test]
fn a_spoiler_press_toggles_and_declines_while_something_floats() {
    let mut a = with_menu();
    assert!(!a.spoiler_pressed(1, 0));
    assert!(!a.chat.reveals.is_open(1, 0), "断ったのに開いている");

    // Open once, then cover again.
    let mut b = app();
    assert!(b.spoiler_pressed(5, 2));
    assert!(b.chat.reveals.is_open(5, 2));
    assert!(b.spoiler_pressed(5, 2));
    assert!(!b.chat.reveals.is_open(5, 2), "もう一度押しても閉じない");

    // The message-level reveal still counts as open for every run.
    b.chat.reveals.messages.push(5);
    assert!(b.spoiler_pressed(5, 2));
    assert!(b.chat.reveals.is_open(5, 2), "メッセージ全体が開いているのに閉じた");
}

#[test]
fn logging_out_asks_first() {
    let mut a = app();
    a.floating = Some(Floating::Menu(Menu {
        at: Point { x: 0, y: 0 },
        items: vec![Item::new(Action::LogOut, "ログアウト")],
    }));
    a.pressed(&vec![hit_of(NodeId::OverlayMenuItem, Some(Key::Index(0)))], 0);
    assert!(matches!(a.floating, Some(Floating::Confirm(_))), "no confirmation appeared");
}

#[test]
fn the_logout_dialog_says_a_phone_is_needed() {
    let a = app();
    let c = a.needs_confirming(&Action::LogOut).expect("log out should be confirmed");
    assert!(c.danger);
    assert!(c.body.contains("QR"), "does not mention the QR: {}", c.body);
}

#[test]
fn the_user_menu_is_empty_when_signed_out() {
    assert!(app().user_menu().is_empty());
}

#[test]
fn signing_out_without_a_runtime_does_nothing() {
    let mut a = app();
    assert!(!a.sign_out());
    assert!(a.take_effects().is_empty());
    a.given.online = true;
    assert!(a.sign_out());
    assert_eq!(a.take_effects(), vec![Effect::SignOut]);
}

/// With no relative timestamp there is nothing to wake for, and a deadline would
/// spin for no change.
#[test]
fn nothing_relative_means_no_wake_up() {
    let mut a = app();
    a.chat_view();
    assert_eq!(a.next_frame_in(), None);
    // A date is no relative one, and neither is one inside code.
    a.given.now_unix = 1_700_000_090;
    show(&mut a, "<t:1700000000:f> `<t:1700000000:R>`");
    assert_eq!(a.next_frame_in(), None);
}

/// Otherwise "just now" stays on an open screen for hours.
#[test]
fn a_relative_timestamp_asks_for_a_later_frame() {
    let mut a = app();
    a.given.now_unix = 1_700_000_090;
    let at = a.given.now_unix - 90;
    show(&mut a, &format!("<t:{at}:R>"));
    a.chat_view();
    let d = a.next_frame_in().expect("起き直しを頼んでいない");
    assert!((1_000..=60_000).contains(&d), "分の切れ目のはずが {d:?}");
    assert_eq!(d, 30_000);
    // The soonest counts, wherever it stands.
    show(&mut a, "> - <t:1700000000:R>\n# <t:1699999975:R>");
    assert_eq!(a.next_frame_in(), Some(5_000));
}

/// A reading lasts until its unit does.
#[test]
fn readings_last_until_their_unit_does() {
    for (at, now, want) in [
        (0, 0, 60),
        (0, 59, 1),
        (0, 60, 60),
        (0, 3_599, 1),
        (0, 3_600, 3_600),
        (0, 86_399, 1),
        (0, 90_000, 82_800),
        (30, 0, 90),
        (90, 0, 31),
        (7_200, 0, 1),
        (i64::MIN, i64::MAX, 61_185),
    ] {
        assert_eq!(seconds_until_change(at, now), want, "{at} from {now}");
    }
}

#[test]
fn pressing_the_current_channel_changes_nothing() {
    let mut a = app();
    let hit = hit_of(NodeId::NavChannelListItem, Some(Key::Id(a.chat.selected_channel)));
    assert!(!a.pressed(&vec![hit], 0));
}

#[test]
fn the_gear_opens_settings() {
    let mut a = app();
    assert!(a.pressed(&vec![hit_of(NodeId::PrimitiveButton, Some(Key::Slot(SETTINGS_OPEN)))], 0));
    assert!(a.settings.open, "歯車で開かない");
}

#[test]
fn a_folder_press_folds_it() {
    let mut a = app();
    assert!(a.pressed(&vec![hit_of(NodeId::NavGuildListFolder, Some(Key::Id(100)))], 0));
    assert_eq!(a.take_effects(), vec![Effect::ToggleFolder(100)]);
}

// ── input ──────────────────────────────────────────────────────────────────

#[test]
fn input_only_reaches_a_focused_field() {
    let mut a = Gumicord::demo();
    assert!(a.focused_document().is_none());
    assert!(!a.type_text("x"));

    a.chat.input_focused = true;
    assert!(a.focused_document().is_some());
    assert!(a.type_text("x"));
    assert_eq!(a.chat.input.text(), "x");
}

#[test]
fn a_composition_reaches_the_tree() {
    let mut a = Gumicord::demo();
    a.chat.input_focused = true;
    assert!(a.type_text("送信: "));
    assert!(a.compose_text("にほんご"));

    let tree = a.chat_view();
    let f = field(&tree);
    assert_eq!(f.text, "送信: にほんご");
    let span = f.composing.expect("変換中の範囲が伝わっていない");
    assert_eq!((span.start, span.end), ("送信: ".len(), "送信: にほんご".len()));
    assert_eq!(f.caret, f.text.len());
}

#[test]
fn an_empty_field_shows_only_its_placeholder() {
    let a = Gumicord::demo();
    let tree = a.chat_view();
    let f = field(&tree);
    assert!(f.text.is_empty());
    assert!(f.placeholder.contains("メッセージを送信"));
    assert!(f.composing.is_none());
}

#[test]
fn submitting_clears_the_field() {
    let mut a = Gumicord::demo();
    a.chat.input_focused = true;
    assert!(a.type_text("こんにちは"));

    assert!(a.submit());
    let tree = a.chat_view();
    assert!(field(&tree).text.is_empty(), "入力欄が空になっていない");
    assert!(a.take_effects().is_empty(), "送り先が無いのに送った");
}

#[test]
fn whitespace_is_not_submitted() {
    let mut a = Gumicord::demo();
    a.chat.input_focused = true;
    assert!(a.type_text("   "));
    assert!(!a.submit());
}

#[test]
fn escape_leaves_the_field() {
    let mut a = Gumicord::demo();
    a.chat.input_focused = true;
    assert!(a.cancel_input(0));
    assert!(!a.chat.input_focused);
    assert!(!a.cancel_input(0), "既に外れていれば何も起きない");
}

#[test]
fn shift_enter_inserts_a_newline_instead_of_sending() {
    let mut a = Gumicord::demo();
    a.chat.input_focused = true;
    assert!(a.type_text("one"));
    assert!(a.shift_enter());
    assert_eq!(a.chat.input.text(), "one\n");
    assert_eq!(a.chat.composing, Composing::New);
}

#[test]
fn shift_enter_on_a_login_field_is_unhandled() {
    let mut a = Gumicord::demo();
    a.login_view.field = Some(LoginField::Email);
    a.chat.input_focused = true;
    assert!(!a.shift_enter());
    assert!(a.chat.input.text().is_empty());
}

#[test]
fn a_multiline_draft_sends_whole() {
    let mut a = Gumicord::demo();
    a.chat.input_focused = true;
    assert!(a.type_text("one\ntwo"));
    assert!(a.submit());
    let tree = a.chat_view();
    assert!(field(&tree).text.is_empty(), "入力欄が空になっていない");
}

#[test]
fn cutting_takes_the_selection_away() {
    let mut a = Gumicord::demo();
    a.chat.input_focused = true;
    assert!(a.type_text("あいう"));
    assert!(!a.perform(Action::Cut), "何も選んでいない");
    assert!(a.perform(Action::SelectAll));
    assert!(a.perform(Action::Cut));
    assert_eq!(a.chat.input.text(), "");
    assert_eq!(a.take_effects(), vec![Effect::CopyText("あいう".to_owned())]);
}

#[test]
fn typing_replaces_the_selection() {
    let mut d = TextDocument::new();
    d.insert("abc");
    d.select_all();
    assert!(d.has_selection());
    d.insert("x");
    assert_eq!(d.text(), "x");
    assert_eq!(d.caret(), 1);
    assert!(!d.has_selection());
}

// ── the typing line ────────────────────────────────────────────────────────

fn names(list: &[&str]) -> Vec<String> {
    list.iter().map(|s| s.to_string()).collect()
}

#[test]
fn nobody_typing_says_nothing() {
    assert_eq!(typing_line(&names(&[])), "");
}

#[test]
fn one_and_two_and_three_are_named() {
    assert_eq!(typing_line(&names(&["あ"])), "  あ が入力中…");
    assert_eq!(typing_line(&names(&["あ", "い"])), "  あ と い が入力中…");
    assert_eq!(typing_line(&names(&["あ", "い", "う"])), "  あ、い、う が入力中…");
}

#[test]
fn a_crowd_is_summarised() {
    let many = names(&["あ", "い", "う", "え", "お", "か"]);
    assert_eq!(typing_line(&many), "  あ、い ほか 4 人が入力中…");
}

#[test]
fn the_loading_row_names_its_list() {
    let row = loading_row("member_list_loading");
    assert!(row.states.contains(&State::Loading));
    assert_eq!(row.key, Some(Key::Slot("member_list_loading")));
    assert!(row.children.iter().any(|c| c.id == NodeId::PrimitiveText));
}

// ── hovering ───────────────────────────────────────────────────────────────

#[test]
fn the_innermost_scroll_region_wins() {
    let mut a = Gumicord::demo();
    // Front to back: item, inner scrollable, outer container.
    a.hover_changed(&vec![
        hit_of(NodeId::NavChannelListItem, None),
        hit_of(NodeId::LayoutScroll, None),
        hit_of(NodeId::NavChannelList, None),
    ]);
    assert_eq!(a.given.hovered_scroll, Some(NodeId::LayoutScroll));

    a.hover_changed(&Vec::new());
    assert_eq!(a.given.hovered_scroll, None);
}

#[test]
fn a_menu_is_a_sheet_on_a_narrow_window_only() {
    assert_eq!(narrow().given.panes.present(), Present::Sheet);
    assert_eq!(app().given.panes.present(), Present::Popover);
    assert!(Live::new().is_empty());
}
