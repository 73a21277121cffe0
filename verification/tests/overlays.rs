//! Menus, dialogs and notices: what floats has the first word.

use gumicord::menu::{Action, Floating, Item, Menu, Point, Present, CANCEL, CONFIRM};
use gumicord::pages::overlays::{Hit, Rect, Swipe, SwipeDir};
use gumicord::shell::{Composing, Effect, Gumicord, Panes, Toast};
use gumicord::ui::{Key, NodeId};

fn app() -> Gumicord {
    Gumicord::demo()
}

fn hit_of(id: NodeId, key: Option<Key>) -> Hit {
    Hit { id, key, rect: Rect { x: 0, y: 0, w: 0, h: 0 } }
}

fn with_menu() -> Gumicord {
    let mut a = app();
    let msg = vec![hit_of(NodeId::ChatMessage, Some(Key::Id(1)))];
    assert!(
        a.context_menu(&msg, Point { x: 10_000, y: 20_000 }, 0),
        "メニューが開かなかった"
    );
    a
}

fn menu_of(item: Item) -> Floating {
    Floating::Menu(Menu { at: Point { x: 0, y: 0 }, items: vec![item] })
}

fn press_menu(a: &mut Gumicord, index: u32) -> bool {
    a.pressed(&vec![hit_of(NodeId::OverlayMenuItem, Some(Key::Index(index)))], 0)
}

fn press_button(a: &mut Gumicord, index: u32) -> bool {
    a.pressed(&vec![hit_of(NodeId::OverlayModalAction, Some(Key::Index(index)))], 0)
}

fn is_confirm(a: &Gumicord) -> bool {
    matches!(a.floating, Some(Floating::Confirm(_)))
}

/// A menu holding only "delete".
fn with_delete_menu() -> Gumicord {
    let mut a = app();
    a.floating = Some(menu_of(Item::new(Action::Delete(1), "削除").danger()));
    // An observable marker that only clears once confirmed.
    a.chat.composing = Composing::Edit(1);
    a
}

#[test]
fn toasts_cap_and_expire() {
    let now = 1_000;
    let mut a = Gumicord::demo();
    for n in ["one", "two", "three", "four"] {
        a.notify_toast(n, now);
    }
    assert_eq!(a.toasts.len(), 3);
    assert_eq!(a.toasts[0].text, "two");

    a.toasts.insert(0, Toast { text: "old".to_owned(), until: now - 1 });
    assert!(a.prune_toasts(now));
    assert!(a.toasts.iter().all(|t| t.until > now));
    assert!(!a.prune_toasts(now), "nothing left to drop");
}

#[test]
fn swipes_are_ignored_under_overlays() {
    let mut a = with_menu();
    let hits = vec![hit_of(NodeId::ChatMessage, Some(Key::Id(7)))];
    let left = Swipe { dir: SwipeDir::Left, at: Point { x: 300_000, y: 400_000 } };
    assert!(!a.swiped(&hits, left, 0));
    assert_eq!(a.chat.composing, Composing::New);
}

#[test]
fn nothing_underneath_is_reachable_while_the_menu_is_open() {
    let mut a = with_menu();
    let before = a.chat.selected_channel;
    // A hit on the channel underneath.
    let hits = vec![hit_of(NodeId::NavChannelListItem, Some(Key::Id(999)))];

    assert!(a.pressed(&hits, 0), "閉じるという変化はある");
    assert!(a.floating.is_none(), "閉じていない");
    assert_eq!(a.chat.selected_channel, before, "下のチャンネルへ移動した");
}

#[test]
fn a_link_press_declines_while_something_floats() {
    let mut a = with_menu();
    assert!(!a.link_pressed("https://example.com/"));

    let mut b = app();
    assert!(b.link_pressed("https://example.com/"));
    assert_eq!(b.take_effects(), vec![Effect::OpenLink("https://example.com/".to_owned())]);
}

#[test]
fn choosing_an_item_closes_the_menu() {
    let mut a = with_menu();
    a.floating = Some(menu_of(Item::new(Action::MarkRead(1), "既読にする")));
    let hits = vec![hit_of(NodeId::OverlayMenuItem, Some(Key::Index(0)))];
    assert!(a.pressed(&hits, 0));
    assert!(a.floating.is_none());
    assert_eq!(a.take_effects(), vec![Effect::MarkRead(1)]);
}

/// The menu floats above the composer, so escape stops there.
#[test]
fn escape_closes_the_menu_first() {
    let mut a = with_menu();
    a.chat.input_focused = true;

    assert!(a.cancel_input(0), "何も起きなかった");
    assert!(a.floating.is_none(), "メニューが閉じていない");
    assert!(a.chat.input_focused, "入力欄のフォーカスまで外れた");

    assert!(a.cancel_input(0), "2 回目でフォーカスが外れていない");
    assert!(!a.chat.input_focused);
}

#[test]
fn one_press_of_delete_does_not_delete() {
    let mut a = with_delete_menu();
    assert!(press_menu(&mut a, 0));
    assert!(is_confirm(&a), "確認の窓が出ていない");
    assert_eq!(a.chat.composing, Composing::Edit(1), "確かめる前に消えている");
}

#[test]
fn cancelling_the_dialog_does_nothing() {
    let mut a = with_delete_menu();
    press_menu(&mut a, 0);

    assert!(press_button(&mut a, CANCEL));
    assert!(a.floating.is_none(), "窓が閉じていない");
    assert_eq!(a.chat.composing, Composing::Edit(1), "やめたのに消えている");
}

#[test]
fn confirming_the_dialog_deletes() {
    let mut a = with_delete_menu();
    press_menu(&mut a, 0);

    assert!(press_button(&mut a, CONFIRM));
    assert!(a.floating.is_none(), "窓が閉じていない");
    // Deleting what is being edited also cancels the edit.
    assert_eq!(a.chat.composing, Composing::New, "消えていない");
}

#[test]
fn clicking_outside_does_not_close_the_dialog() {
    let mut a = with_delete_menu();
    press_menu(&mut a, 0);

    assert!(
        !a.pressed(&vec![hit_of(NodeId::NavChannelListItem, Some(Key::Id(999)))], 0),
        "何かが変わってしまった"
    );
    assert!(is_confirm(&a), "外を押しただけで窓が消えた");
}

#[test]
fn escape_closes_the_dialog() {
    let mut a = with_delete_menu();
    press_menu(&mut a, 0);

    assert!(a.cancel_input(0));
    assert!(a.floating.is_none(), "Esc で閉じない");
    assert_eq!(a.chat.composing, Composing::Edit(1), "Esc で消えている");
}

#[test]
fn the_dialog_does_not_reappear() {
    let mut a = with_delete_menu();
    press_menu(&mut a, 0);
    press_button(&mut a, CONFIRM);
    assert!(a.floating.is_none(), "窓がもう一度出ている");
}

#[test]
fn nothing_underneath_is_reachable_while_the_dialog_is_open() {
    let mut a = with_delete_menu();
    press_menu(&mut a, 0);
    let before = a.chat.selected_channel;

    a.pressed(&vec![hit_of(NodeId::NavChannelListItem, Some(Key::Id(999)))], 0);
    assert_eq!(a.chat.selected_channel, before, "下のチャンネルへ移動した");
}

#[test]
fn a_reversible_action_gets_no_dialog() {
    let mut a = app();
    a.floating = Some(menu_of(Item::new(Action::MarkRead(1), "既読にする")));
    press_menu(&mut a, 0);
    assert!(a.floating.is_none(), "既読にするだけで窓が出た");
}

#[test]
fn right_clicking_empty_space_closes_the_menu() {
    let mut a = with_menu();
    assert!(a.context_menu(&Vec::new(), Point { x: 0, y: 0 }, 0));
    assert!(a.floating.is_none());
}

#[test]
fn a_narrow_window_presents_the_menu_as_a_sheet() {
    assert_eq!(Panes::One.present(), Present::Sheet);
    assert_eq!(Panes::Two.present(), Present::Popover);
    assert_eq!(Panes::Four.present(), Present::Popover);
}
