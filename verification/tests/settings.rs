//! The settings screen.

use gumicord::menu::{Action, SettingsCategory};
use gumicord::pages::overlays::{Hit, Rect};
use gumicord::shell::{
    Effect, Gumicord, InstalledTheme, Panes, PluginState, PluginStateKind, ThemeSource,
};
use gumicord::ui::{Content, Key, NodeId, State, UiNode};

fn hit_of(id: NodeId, key: Option<Key>) -> Hit {
    Hit { id, key, rect: Rect { x: 0, y: 0, w: 0, h: 0 } }
}

fn press_menu(a: &mut Gumicord, index: u32) -> bool {
    a.pressed(&vec![hit_of(NodeId::OverlayMenuItem, Some(Key::Index(index)))], 0)
}

fn with_settings() -> Gumicord {
    let mut a = Gumicord::demo();
    a.given.panes = Panes::Four;
    assert!(a.open_settings(), "開かなかった");
    a
}

fn narrow_settings() -> Gumicord {
    let mut a = Gumicord::demo();
    a.given.panes = Panes::One;
    assert!(a.open_settings(), "開かなかった");
    a
}

fn walk(n: &UiNode, f: &mut dyn FnMut(&UiNode)) {
    f(n);
    for c in &n.children {
        walk(c, f);
    }
}

fn ids(a: &Gumicord) -> Vec<NodeId> {
    let mut out = Vec::new();
    walk(&a.settings_screen(), &mut |n| out.push(n.id));
    out
}

fn texts(a: &Gumicord, id: NodeId) -> Vec<String> {
    let mut out = Vec::new();
    walk(&a.settings_screen(), &mut |n| {
        if n.id == id {
            if let Content::Text(t) = &n.content {
                out.push(t.clone());
            }
        }
    });
    out
}

fn selected(a: &Gumicord) -> Vec<u32> {
    let mut out = Vec::new();
    walk(&a.settings_screen(), &mut |n| {
        if n.id == NodeId::OverlayMenuItem && n.states.contains(&State::Selected) {
            if let Some(Key::Index(i)) = n.key {
                out.push(i);
            }
        }
    });
    out
}

fn theme(id: &str, name: &str) -> InstalledTheme {
    InstalledTheme { id: id.to_owned(), name: name.to_owned(), version: "1.0.0".to_owned() }
}

fn plugin(state: PluginStateKind) -> PluginState {
    PluginState {
        id: "dev.example.side".to_owned(),
        name: "Side".to_owned(),
        version: "1.0.0".to_owned(),
        state,
        capabilities: vec!["通知".to_owned(), "通信".to_owned()],
        has_settings: true,
    }
}

#[test]
fn theme_rows_list_installs_with_the_active_marked() {
    let mut a = with_settings();
    a.refresh_theme_list(vec![theme("dev.example.wall", "Wall")]);
    a.settings.category = SettingsCategory::Theme;
    a.take_effects();

    // Nav takes 0-3; the standard row is 4, the install is 5.
    assert_eq!(selected(&a), [2, 4]);
    assert!(press_menu(&mut a, 5));
    assert_eq!(a.take_effects(), vec![Effect::SelectTheme("dev.example.wall".to_owned())]);
    a.given.theme_source = ThemeSource::Saved("dev.example.wall".to_owned());
    assert_eq!(selected(&a), [2, 5], "active mark did not follow");
    assert!(press_menu(&mut a, 4));
    assert_eq!(a.take_effects(), vec![Effect::UseBundledTheme]);
    a.given.theme_source = ThemeSource::Bundled;
    assert_eq!(selected(&a), [2, 4]);
}

#[test]
fn opening_settings_shows_screen_nav_and_page() {
    let a = with_settings();
    let ids = ids(&a);
    let at = |id: NodeId| ids.iter().position(|i| *i == id);
    let screen = at(NodeId::SettingsScreen).expect("画面がない");
    let nav = at(NodeId::SettingsNav).expect("分類がない");
    let page = at(NodeId::SettingsPage).expect("中身がない");
    assert!(screen < nav && nav < page, "並びが逆");
}

#[test]
fn empty_lists_say_so() {
    let a = with_settings();
    let lines = texts(&a, NodeId::PrimitiveText).join("\n");
    assert!(lines.contains("プラグインはありません"), "{lines}");
    let mut theme = with_settings();
    press_menu(&mut theme, 2);
    let lines = texts(&theme, NodeId::PrimitiveText).join("\n");
    assert!(lines.contains("問題は起きていません"), "{lines}");
}

#[test]
fn settings_rows_route_by_index() {
    let mut a = with_settings();
    press_menu(&mut a, 2);
    assert_eq!(a.settings.category, SettingsCategory::Theme, "分類が変わらない");
    press_menu(&mut a, 1);
    assert_eq!(a.settings.category, SettingsCategory::Plugins, "戻れない");
    press_menu(&mut a, 0);
    assert!(!a.settings.open, "閉じない");
}

#[test]
fn support_category_opens_last_and_carries_share_log() {
    let mut a = with_settings();
    press_menu(&mut a, 3);
    assert_eq!(a.settings.category, SettingsCategory::Support, "増えた分類が開かない");
    assert!(
        a.settings_page_items().iter().any(|i| i.action == Action::ShareLog),
        "共有の行がない"
    );
}

#[test]
fn support_carries_the_fps_toggle() {
    let mut a = with_settings();
    press_menu(&mut a, 3);
    assert!(
        a.settings_page_items().iter().any(|i| i.action == Action::ToggleFps),
        "FPS の行がない"
    );
    assert!(!a.show_fps);
    // Nav takes 0-3; the FPS row is 4.
    assert!(press_menu(&mut a, 4));
    assert!(a.show_fps, "押しても付かない");
    assert!(a.settings.open, "押したら閉じた");
    assert!(press_menu(&mut a, 4));
    assert!(!a.show_fps, "押しても消えない");
}

#[test]
fn a_stale_settings_index_keeps_the_screen() {
    let mut a = with_settings();
    press_menu(&mut a, 99);
    assert!(a.settings.open, "画面が消えた");
}

#[test]
fn nothing_underneath_is_reachable_while_settings_are_open() {
    let mut a = with_settings();
    let before = a.chat.selected_channel;
    assert!(!a.pressed(&vec![hit_of(NodeId::NavChannelListItem, Some(Key::Id(999)))], 0));
    assert_eq!(a.chat.selected_channel, before, "下のチャンネルへ移動した");
    assert!(a.settings.open, "行外の押下で閉じた");
}

#[test]
fn the_open_tab_is_marked_selected() {
    let mut a = with_settings();
    assert_eq!(selected(&a), [1], "開いている分類行がない");
    press_menu(&mut a, 2);
    // The standard theme's row is marked beside the category's.
    assert_eq!(selected(&a), [2, 4], "移っていない");
}

#[test]
fn escape_closes_settings_while_a_missed_press_keeps_them() {
    let mut a = with_settings();
    assert!(a.cancel_input(0));
    assert!(!a.settings.open, "Esc で閉じない");

    let mut b = with_settings();
    assert!(!b.pressed(&Vec::new(), 0), "何も変わっていないはず");
    assert!(b.settings.open, "行外の押下で閉じた");
}

#[test]
fn narrow_settings_shows_the_menu_alone() {
    let ids = ids(&narrow_settings());
    assert!(ids.contains(&NodeId::SettingsNav), "分類がない");
    assert!(!ids.contains(&NodeId::SettingsPage), "中身まで出ている");
}

#[test]
fn choosing_a_category_drills_into_its_page_when_narrow() {
    let mut a = narrow_settings();
    // Nav takes 0-3; 2 is the theme tab.
    assert!(press_menu(&mut a, 2));
    assert!(a.settings.narrow_page, "掘り下げない");
    let seen = ids(&a);
    assert!(!seen.contains(&NodeId::SettingsNav), "分類が残っている");
    assert!(seen.contains(&NodeId::SettingsPage), "中身がない");
    let labels = texts(&a, NodeId::OverlayMenuItemLabel);
    assert!(labels.iter().any(|l| l == "← 設定"), "戻る行がない");
}

#[test]
fn the_narrow_back_row_returns_to_the_menu() {
    let mut a = narrow_settings();
    assert!(press_menu(&mut a, 2));
    assert!(press_menu(&mut a, 0));
    assert!(a.settings.open, "閉じた");
    assert!(!a.settings.narrow_page, "戻らない");
    assert!(ids(&a).contains(&NodeId::SettingsNav), "分類に戻らない");
}

#[test]
fn closing_from_the_narrow_menu() {
    let mut a = narrow_settings();
    assert!(press_menu(&mut a, 0));
    assert!(!a.settings.open, "閉じない");
}

#[test]
fn both_lists_end_with_an_install_row() {
    let mut a = with_settings();
    a.settings.category = SettingsCategory::Theme;
    assert!(
        matches!(
            a.settings_page_items().last().map(|r| &r.action),
            Some(Action::InstallThemeFile)
        ),
        "テーマ欄に導入行がない"
    );

    a.settings.category = SettingsCategory::Plugins;
    assert!(
        matches!(
            a.settings_page_items().last().map(|r| &r.action),
            Some(Action::InstallPluginFile)
        ),
        "プラグイン欄に導入行がない"
    );
}

#[test]
fn a_plugin_page_offers_what_its_state_allows() {
    let actions = |state: PluginStateKind| {
        let mut a = with_settings();
        a.refresh_settings_states(vec![plugin(state)]);
        a.select_settings_plugin("dev.example.side".to_owned(), None);
        a.settings_page_items().into_iter().map(|i| i.label).collect::<Vec<_>>()
    };
    assert_eq!(
        actions(PluginStateKind::Loaded),
        ["← プラグイン", "無効にする", "再読み込みする", "許可をやり直す"]
    );
    assert_eq!(
        actions(PluginStateKind::Disabled),
        ["← プラグイン", "有効にする", "許可をやり直す"]
    );
    assert_eq!(
        actions(PluginStateKind::LoadFailed),
        ["← プラグイン", "有効にする", "許可をやり直す"]
    );
    assert_eq!(actions(PluginStateKind::Denied), ["← プラグイン", "許可をやり直す"]);
    assert_eq!(actions(PluginStateKind::NeedsApproval), ["← プラグイン", "許可をやり直す"]);
}

#[test]
fn a_plugin_page_tells_what_it_asks_for() {
    let mut a = with_settings();
    a.refresh_settings_states(vec![plugin(PluginStateKind::Loaded)]);
    let list = texts(&a, NodeId::OverlayMenuItemLabel);
    assert!(list.iter().any(|l| l == "Side 1.0.0（有効）"), "{list:?}");

    // Chosen, but its page has not been delivered.
    assert!(press_menu(&mut a, 4));
    assert_eq!(
        a.settings_page_texts(),
        ["Side 1.0.0", "有効", "求める権限:\n・通知\n・通信", "設定ページを読み込めませんでした。"]
    );
    assert!(a.settings_page_embed().is_none());

    // Delivered, it stands below the rows.
    let page = UiNode::text(NodeId::PrimitiveText, "plugin page");
    a.select_settings_plugin("dev.example.side".to_owned(), Some(page));
    assert_eq!(a.settings_page_texts().len(), 3);
    assert!(texts(&a, NodeId::PrimitiveText).iter().any(|t| t == "plugin page"));

    // Gone meanwhile.
    a.refresh_settings_states(Vec::new());
    assert_eq!(a.settings_page_texts(), ["このプラグインはもうありません。"]);
}
