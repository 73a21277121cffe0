//! The settings screen: categories left, page right. Rows are menu items, so
//! theme and press routing already know them.

use vstd::prelude::*;
use crate::menu::{
    category_label, items_of, no_items, push_item, rows, rows_node, Action, Deed, Item, ItemView,
    SettingsCategory,
};
use crate::shell::{
    App, Chat, Doing, Effect, Gumicord, InstalledTheme, Panes, PluginPage, PluginState,
    PluginStateKind, Settings, ThemeSource,
};
use crate::text;
use crate::ui::{nodes_of, opt_node, Key, Node, NodeId, UiNode};

verus! {

/// A plugin's state in the user's words.
pub open spec fn state_label(s: PluginStateKind) -> Seq<char> {
    match s {
        PluginStateKind::Loaded => "有効"@,
        PluginStateKind::Disabled => "無効"@,
        PluginStateKind::Denied => "拒否"@,
        PluginStateKind::NeedsApproval => "未許可"@,
        PluginStateKind::LoadFailed => "読込失敗"@,
    }
}

/// A plugin's state in the user's words. One place, so the list and the page
/// never disagree.
pub fn plugin_state_label(state: PluginStateKind) -> (r: &'static str)
    ensures
        r@ == state_label(state),
{
    match state {
        PluginStateKind::Loaded => "有効",
        PluginStateKind::Disabled => "無効",
        PluginStateKind::Denied => "拒否",
        PluginStateKind::NeedsApproval => "未許可",
        PluginStateKind::LoadFailed => "読込失敗",
    }
}

// ── opening and closing ────────────────────────────────────────────────────

impl App {
    /// The settings screen opened, and whether it was not open before. The
    /// drill-in is reset; the category stays.
    pub open spec fn settings_opened(self) -> (App, bool) {
        let a = App {
            chat: Chat { drawer_open: false, member_sheet_open: false, ..self.chat },
            settings: Settings { plugin: None, page: None, narrow_page: false, ..self.settings },
            ..self
        }.with_effect(Doing::RefreshSettings);
        if self.settings.open {
            (a, false)
        } else {
            let b = a.unfocused();
            (App { settings: Settings { open: true, ..b.settings }, ..b }, true)
        }
    }

    pub open spec fn settings_closed(self) -> (App, bool) {
        if self.settings.open {
            (
                App {
                    settings: Settings {
                        open: false,
                        plugin: None,
                        page: None,
                        narrow_page: false,
                        ..self.settings
                    },
                    ..self
                },
                true,
            )
        } else {
            (self, false)
        }
    }

    /// Whether the settings page covers its menu: narrow windows only, once a
    /// category is chosen.
    pub open spec fn page_alone(self) -> bool {
        self.settings.open && self.given.panes is One && self.settings.narrow_page
    }
}

impl Gumicord {
    /// Opens the settings screen. The drill-in is reset; the category stays.
    pub fn open_settings(&mut self) -> (r: bool)
        ensures
            (final(self)@, r) == old(self)@.settings_opened(),
    {
        self.chat.drawer_open = false;
        self.chat.member_sheet_open = false;
        self.settings.plugin = None;
        self.settings.page = None;
        self.settings.narrow_page = false;
        self.push_effect(Effect::RefreshSettings);
        if self.settings.open {
            return false;
        }
        // The screen holds no text fields; opening it over the keyboard strands
        // both.
        self.release_text_focus();
        self.settings.open = true;
        true
    }

    pub fn close_settings(&mut self) -> (r: bool)
        ensures
            (final(self)@, r) == old(self)@.settings_closed(),
    {
        if !self.settings.open {
            return false;
        }
        self.settings.open = false;
        self.settings.plugin = None;
        self.settings.page = None;
        self.settings.narrow_page = false;
        true
    }

    /// The plugin rows as they are now.
    pub fn refresh_settings_states(&mut self, states: Vec<PluginState>)
        ensures
            final(self)@ == (App {
                settings: Settings { states, ..old(self)@.settings },
                ..old(self)@
            }),
    {
        self.settings.states = states;
    }

    /// The installed themes as they are now.
    pub fn refresh_theme_list(&mut self, themes: Vec<InstalledTheme>)
        ensures
            final(self)@ == (App {
                settings: Settings { themes, ..old(self)@.settings },
                ..old(self)@
            }),
    {
        self.settings.themes = themes;
    }

    /// Shows a plugin's page: its own tree where it delivered one.
    pub fn select_settings_plugin(&mut self, id: String, page: Option<UiNode>)
        ensures
            final(self)@.settings.plugin == Some(id@),
            match page {
                Some(tree) => final(self)@.settings.page matches Some(p) && p.plugin@ == id@
                    && p.tree == tree,
                None => final(self)@.settings.page is None,
            },
            final(self)@ == (App {
                settings: Settings {
                    plugin: final(self)@.settings.plugin,
                    page: final(self)@.settings.page,
                    ..old(self)@.settings
                },
                ..old(self)@
            }),
    {
        self.settings.page = match page {
            Some(tree) => Some(PluginPage { plugin: id.clone(), tree }),
            None => None,
        };
        self.settings.plugin = Some(id);
    }

    /// Whether the settings page covers its menu.
    pub fn narrow_settings_page(&self) -> (r: bool)
        ensures
            r == self@.page_alone(),
    {
        self.settings.open && matches!(self.given.panes, Panes::One) && self.settings.narrow_page
    }
}

// ── the rows ───────────────────────────────────────────────────────────────

/// The first plugin with an id.
pub open spec fn plugin_from(ps: Seq<PluginState>, id: Seq<char>, k: int) -> Option<PluginState>
    decreases ps.len() - k,
{
    if k < 0 || k >= ps.len() {
        None
    } else if ps[k].id@ == id {
        Some(ps[k])
    } else {
        plugin_from(ps, id, k + 1)
    }
}

pub open spec fn category_item(c: SettingsCategory, current: SettingsCategory) -> ItemView {
    ItemView::new(Deed::SettingsCategory(c), category_label(c)).selected(current == c)
}

pub open spec fn theme_item(t: InstalledTheme, source: ThemeSource) -> ItemView {
    ItemView::new(Deed::SelectTheme(t.id@), t.name@ + " "@ + t.version@).selected(
        source matches ThemeSource::Saved(id) && id@ == t.id@,
    )
}

pub open spec fn plugin_item(p: PluginState) -> ItemView {
    ItemView::new(
        Deed::SelectSettingsPlugin(p.id@),
        p.name@ + " "@ + p.version@ + "（"@ + state_label(p.state) + "）"@,
    )
}

/// What can be done with a plugin. Unapproved ones are approved by asking again.
pub open spec fn plugin_rows(p: PluginState, id: Seq<char>) -> Seq<ItemView> {
    let doable = match p.state {
        PluginStateKind::Loaded => seq![
            ItemView::new(Deed::DisablePlugin(id), "無効にする"@),
            ItemView::new(Deed::ReloadPlugin(id), "再読み込みする"@),
        ],
        PluginStateKind::Disabled | PluginStateKind::LoadFailed => seq![
            ItemView::new(Deed::EnablePlugin(id), "有効にする"@),
        ],
        PluginStateKind::Denied | PluginStateKind::NeedsApproval => seq![],
    };
    doable.push(ItemView::new(Deed::ReapprovePlugin(id), "許可をやり直す"@))
}

impl App {
    pub open spec fn nav_items(self) -> Seq<ItemView> {
        seq![
            ItemView::new(Deed::CloseSettings, "閉じる"@).icon("close"@),
            category_item(SettingsCategory::Plugins, self.settings.category),
            category_item(SettingsCategory::Theme, self.settings.category),
            category_item(SettingsCategory::Support, self.settings.category),
        ]
    }

    pub open spec fn theme_items(self) -> Seq<ItemView> {
        (seq![
            ItemView::new(Deed::UseBundledTheme, "標準のテーマ"@).selected(
                self.given.theme_source is Bundled,
            ),
        ] + Seq::new(
            self.settings.themes@.len(),
            |i: int| theme_item(self.settings.themes@[i], self.given.theme_source),
        )).push(ItemView::new(Deed::InstallThemeFile, "ファイルからインストール"@))
    }

    pub open spec fn plugin_list_items(self) -> Seq<ItemView> {
        Seq::new(
            self.settings.states@.len(),
            |i: int| plugin_item(self.settings.states@[i]),
        ).push(ItemView::new(Deed::InstallPluginFile, "ファイルからインストール"@))
    }

    pub open spec fn plugin_page_items(self, id: Seq<char>) -> Seq<ItemView> {
        seq![ItemView::new(Deed::SettingsPluginBack, "← プラグイン"@)] + (match plugin_from(
            self.settings.states@,
            id,
            0,
        ) {
            Some(p) => plugin_rows(p, id),
            None => seq![],
        })
    }

    /// The rows of the open page.
    pub open spec fn page_items(self) -> Seq<ItemView> {
        match self.settings.category {
            SettingsCategory::Theme => self.theme_items(),
            SettingsCategory::Plugins => match self.settings.plugin {
                None => self.plugin_list_items(),
                Some(id) => self.plugin_page_items(id),
            },
            SettingsCategory::Support => seq![
                ItemView::new(Deed::ToggleFps, "FPSを表示"@).selected(self.show_fps),
                ItemView::new(Deed::ShareLog, "ログを共有"@),
            ],
        }
    }
}

impl Gumicord {
    pub fn settings_nav_items(&self) -> (r: Vec<Item>)
        ensures
            items_of(r@) == self@.nav_items(),
    {
        let mut items = no_items();
        push_item(&mut items, Item::new(Action::CloseSettings, "閉じる").icon("close"));
        push_item(&mut items, self.category_row(SettingsCategory::Plugins));
        push_item(&mut items, self.category_row(SettingsCategory::Theme));
        push_item(&mut items, self.category_row(SettingsCategory::Support));
        assert(items_of(items@) =~= self@.nav_items());
        items
    }

    fn category_row(&self, c: SettingsCategory) -> (r: Item)
        ensures
            r@ == category_item(c, self@.settings.category),
    {
        Item::new(Action::SettingsCategory(c), c.label()).selected(self.settings.category == c)
    }

    fn theme_rows(&self) -> (r: Vec<Item>)
        ensures
            items_of(r@) == self@.theme_items(),
    {
        let mut items = no_items();
        let bundled = match &self.given.theme_source {
            ThemeSource::Bundled => true,
            ThemeSource::Saved(_) => false,
        };
        let first = Item::new(Action::UseBundledTheme, "標準のテーマ").selected(bundled);
        push_item(&mut items, first);
        let ghost listed = Seq::new(
            self.settings.themes@.len(),
            |i: int| theme_item(self.settings.themes@[i], self.given.theme_source),
        );
        let mut i: usize = 0;
        while i < self.settings.themes.len()
            invariant
                i <= self.settings.themes@.len(),
                listed == Seq::new(
                    self.settings.themes@.len(),
                    |i: int| theme_item(self.settings.themes@[i], self.given.theme_source),
                ),
                items_of(items@) =~= seq![first@] + listed.take(i as int),
            decreases self.settings.themes@.len() - i,
        {
            let t = &self.settings.themes[i];
            let active = match &self.given.theme_source {
                ThemeSource::Saved(id) => text::same_text(id.as_str(), t.id.as_str()),
                ThemeSource::Bundled => false,
            };
            let mut label = text::joined(t.name.as_str(), " ");
            label.append(t.version.as_str());
            let row = Item::new(Action::SelectTheme(t.id.clone()), label.as_str()).selected(active);
            push_item(&mut items, row);
            assert(listed[i as int] == row@);
            i += 1;
        }
        assert(listed.take(i as int) =~= listed);
        // Last, so the existing rows keep their indices.
        push_item(&mut items, Item::new(Action::InstallThemeFile, "ファイルからインストール"));
        assert(items_of(items@) =~= self@.theme_items());
        items
    }

    fn plugin_list_rows(&self) -> (r: Vec<Item>)
        ensures
            items_of(r@) == self@.plugin_list_items(),
    {
        let mut items = no_items();
        let ghost listed = Seq::new(
            self.settings.states@.len(),
            |i: int| plugin_item(self.settings.states@[i]),
        );
        let mut i: usize = 0;
        while i < self.settings.states.len()
            invariant
                i <= self.settings.states@.len(),
                listed == Seq::new(
                    self.settings.states@.len(),
                    |i: int| plugin_item(self.settings.states@[i]),
                ),
                items_of(items@) =~= listed.take(i as int),
            decreases self.settings.states@.len() - i,
        {
            let p = &self.settings.states[i];
            let mut label = text::joined(p.name.as_str(), " ");
            label.append(p.version.as_str());
            label.append("（");
            label.append(plugin_state_label(p.state));
            label.append("）");
            let row = Item::new(Action::SelectSettingsPlugin(p.id.clone()), label.as_str());
            push_item(&mut items, row);
            assert(listed[i as int] == row@);
            i += 1;
        }
        assert(listed.take(i as int) =~= listed);
        push_item(&mut items, Item::new(Action::InstallPluginFile, "ファイルからインストール"));
        assert(items_of(items@) =~= self@.plugin_list_items());
        items
    }

    fn plugin_of(&self, id: &str) -> (r: Option<&PluginState>)
        ensures
            match r {
                Some(p) => plugin_from(self@.settings.states@, id@, 0) == Some(*p),
                None => plugin_from(self@.settings.states@, id@, 0) is None,
            },
    {
        let mut k: usize = 0;
        while k < self.settings.states.len()
            invariant
                k <= self.settings.states@.len(),
                plugin_from(self.settings.states@, id@, 0) == plugin_from(
                    self.settings.states@,
                    id@,
                    k as int,
                ),
            decreases self.settings.states@.len() - k,
        {
            if text::same_text(self.settings.states[k].id.as_str(), id) {
                return Some(&self.settings.states[k]);
            }
            k += 1;
        }
        None
    }

    fn plugin_page_rows(&self, id: &String) -> (r: Vec<Item>)
        ensures
            items_of(r@) == self@.plugin_page_items(id@),
    {
        let mut items = no_items();
        push_item(&mut items, Item::new(Action::SettingsPluginBack, "← プラグイン"));
        if let Some(p) = self.plugin_of(id.as_str()) {
            match p.state {
                PluginStateKind::Loaded => {
                    push_item(
                        &mut items,
                        Item::new(Action::DisablePlugin(id.clone()), "無効にする"),
                    );
                    push_item(
                        &mut items,
                        Item::new(Action::ReloadPlugin(id.clone()), "再読み込みする"),
                    );
                },
                PluginStateKind::Disabled | PluginStateKind::LoadFailed => {
                    push_item(
                        &mut items,
                        Item::new(Action::EnablePlugin(id.clone()), "有効にする"),
                    );
                },
                PluginStateKind::Denied | PluginStateKind::NeedsApproval => {},
            }
            push_item(&mut items, Item::new(Action::ReapprovePlugin(id.clone()), "許可をやり直す"));
        }
        assert(items_of(items@) =~= self@.plugin_page_items(id@));
        items
    }

    pub fn settings_page_items(&self) -> (r: Vec<Item>)
        ensures
            items_of(r@) == self@.page_items(),
    {
        match self.settings.category {
            SettingsCategory::Theme => self.theme_rows(),
            SettingsCategory::Plugins => match &self.settings.plugin {
                None => self.plugin_list_rows(),
                Some(id) => self.plugin_page_rows(id),
            },
            SettingsCategory::Support => {
                let mut items = no_items();
                push_item(
                    &mut items,
                    Item::new(Action::ToggleFps, "FPSを表示").selected(self.show_fps),
                );
                push_item(&mut items, Item::new(Action::ShareLog, "ログを共有"));
                assert(items_of(items@) =~= self@.page_items());
                items
            },
        }
    }
}

// ── what rows cannot say ───────────────────────────────────────────────────

/// One line for each thing a plugin may do.
pub open spec fn bullets(cs: Seq<String>) -> Seq<char> {
    text::listed(Seq::new(cs.len(), |i: int| "・"@ + cs[i]@), "\n"@)
}

fn capability_bullets(cs: &Vec<String>) -> (r: String)
    ensures
        r@ == bullets(cs@),
{
    let ghost want = Seq::new(cs@.len(), |i: int| "・"@ + cs@[i]@);
    let mut lines: Vec<String> = Vec::new();
    let mut i: usize = 0;
    while i < cs.len()
        invariant
            i <= cs@.len(),
            want == Seq::new(cs@.len(), |i: int| "・"@ + cs@[i]@),
            text::strings_of(lines@) =~= want.take(i as int),
        decreases cs@.len() - i,
    {
        let ghost before = lines@;
        let line = text::joined("・", cs[i].as_str());
        lines.push(line);
        assert(want[i as int] == line@);
        assert(text::strings_of(lines@) =~= text::strings_of(before).push(line@));
        i += 1;
    }
    assert(text::strings_of(lines@) =~= want);
    text::list_all(&lines, "\n")
}

impl App {
    /// Whether a plugin's own page is there.
    pub open spec fn has_page(self, id: Seq<char>) -> bool {
        self.settings.page matches Some(p) && p.plugin@ == id
    }

    pub open spec fn plugin_texts(self, p: PluginState, id: Seq<char>) -> Seq<Seq<char>> {
        let told = seq![
            p.name@ + " "@ + p.version@,
            state_label(p.state),
            if p.capabilities@.len() == 0 {
                "権限を求めません。"@
            } else {
                "求める権限:\n"@ + bullets(p.capabilities@)
            },
        ];
        if p.has_settings && !self.has_page(id) {
            told.push("設定ページを読み込めませんでした。"@)
        } else {
            told
        }
    }

    /// The page's display-only lines: status, capabilities, warnings.
    pub open spec fn page_texts(self) -> Seq<Seq<char>> {
        match self.settings.category {
            SettingsCategory::Theme => if self.given.asset_warnings@.len() == 0 {
                seq!["画像の取得で問題は起きていません。"@]
            } else {
                text::strings_of(self.given.asset_warnings@)
            },
            SettingsCategory::Plugins => match self.settings.plugin {
                None => if self.settings.states@.len() == 0 {
                    seq!["プラグインはありません。"@]
                } else {
                    seq![]
                },
                Some(id) => match plugin_from(self.settings.states@, id, 0) {
                    None => seq!["このプラグインはもうありません。"@],
                    Some(p) => self.plugin_texts(p, id),
                },
            },
            SettingsCategory::Support => seq![
                "不具合の報告に使う。記録にトークンは含まれない。"@,
            ],
        }
    }

    /// The selected plugin's own page, if it declared and delivered one.
    pub open spec fn page_embed(self) -> Option<Node> {
        match (self.settings.plugin, self.settings.page) {
            (Some(id), Some(p)) => if p.plugin@ == id {
                Some(p.tree@)
            } else {
                None
            },
            _ => None,
        }
    }
}

/// Adds a line at the end.
fn push_line(lines: &mut Vec<String>, line: String)
    ensures
        text::strings_of(final(lines)@) == text::strings_of(old(lines)@).push(line@),
{
    let ghost before = lines@;
    lines.push(line);
    assert(text::strings_of(lines@) =~= text::strings_of(before).push(line@));
}

fn no_lines() -> (r: Vec<String>)
    ensures
        text::strings_of(r@) == Seq::<Seq<char>>::empty(),
{
    let r: Vec<String> = Vec::new();
    assert(text::strings_of(r@) =~= seq![]);
    r
}

impl Gumicord {
    fn plugin_lines(&self, p: &PluginState, id: &str) -> (r: Vec<String>)
        ensures
            text::strings_of(r@) == self@.plugin_texts(*p, id@),
    {
        let mut out = no_lines();
        // Name and state stay on separate lines: word order moves by language,
        // so they must not share one sentence.
        let mut name = text::joined(p.name.as_str(), " ");
        name.append(p.version.as_str());
        push_line(&mut out, name);
        push_line(&mut out, text::owned(plugin_state_label(p.state)));
        if p.capabilities.len() == 0 {
            push_line(&mut out, text::owned("権限を求めません。"));
        } else {
            let asked = capability_bullets(&p.capabilities);
            push_line(&mut out, text::joined("求める権限:\n", asked.as_str()));
        }
        let there = match &self.settings.page {
            Some(page) => text::same_text(page.plugin.as_str(), id),
            None => false,
        };
        if p.has_settings && !there {
            push_line(&mut out, text::owned("設定ページを読み込めませんでした。"));
        }
        assert(text::strings_of(out@) =~= self@.plugin_texts(*p, id@));
        out
    }

    /// The page's display-only lines. Rows stay rows; these are what rows cannot
    /// say.
    pub fn settings_page_texts(&self) -> (r: Vec<String>)
        ensures
            text::strings_of(r@) == self@.page_texts(),
    {
        let mut out = no_lines();
        match self.settings.category {
            SettingsCategory::Theme => {
                if self.given.asset_warnings.len() == 0 {
                    push_line(&mut out, text::owned("画像の取得で問題は起きていません。"));
                    assert(text::strings_of(out@) =~= self@.page_texts());
                    return out;
                }
                let ghost all = text::strings_of(self.given.asset_warnings@);
                let mut i: usize = 0;
                while i < self.given.asset_warnings.len()
                    invariant
                        i <= self.given.asset_warnings@.len(),
                        all == text::strings_of(self.given.asset_warnings@),
                        text::strings_of(out@) =~= all.take(i as int),
                    decreases self.given.asset_warnings@.len() - i,
                {
                    push_line(&mut out, self.given.asset_warnings[i].clone());
                    assert(all[i as int] == self.given.asset_warnings@[i as int]@);
                    i += 1;
                }
                assert(text::strings_of(out@) =~= all);
                out
            },
            SettingsCategory::Plugins => match &self.settings.plugin {
                None => {
                    if self.settings.states.len() == 0 {
                        push_line(&mut out, text::owned("プラグインはありません。"));
                    }
                    assert(text::strings_of(out@) =~= self@.page_texts());
                    out
                },
                Some(id) => match self.plugin_of(id.as_str()) {
                    None => {
                        push_line(&mut out, text::owned("このプラグインはもうありません。"));
                        assert(text::strings_of(out@) =~= self@.page_texts());
                        out
                    },
                    Some(p) => self.plugin_lines(p, id.as_str()),
                },
            },
            SettingsCategory::Support => {
                push_line(
                    &mut out,
                    text::owned("不具合の報告に使う。記録にトークンは含まれない。"),
                );
                assert(text::strings_of(out@) =~= self@.page_texts());
                out
            },
        }
    }

    /// The selected plugin's own page, if it declared and delivered one.
    pub fn settings_page_embed(&self) -> (r: Option<UiNode>)
        ensures
            opt_node(r) == self@.page_embed(),
    {
        match (&self.settings.plugin, &self.settings.page) {
            (Some(id), Some(p)) => if text::same_text(p.plugin.as_str(), id.as_str()) {
                Some(p.tree.copy())
            } else {
                None
            },
            _ => None,
        }
    }
}

// ── the screen ─────────────────────────────────────────────────────────────

impl App {
    /// The row under the pointer.
    pub open spec fn hovered_row(self) -> Option<u32> {
        if self.given.hovered == Some(NodeId::OverlayMenuItem) {
            match self.given.hovered_key {
                Some(Key::Index(i)) => Some(i),
                _ => None,
            }
        } else {
            None
        }
    }

    pub open spec fn text_nodes(self) -> Seq<Node> {
        Seq::new(
            self.page_texts().len(),
            |i: int| Node::text(NodeId::PrimitiveText, self.page_texts()[i]),
        )
    }

    pub open spec fn back_item(self) -> ItemView {
        if self.settings.plugin is Some {
            ItemView::new(Deed::SettingsPluginBack, "← 設定"@)
        } else {
            ItemView::new(Deed::SettingsNarrowBack, "← 設定"@)
        }
    }

    /// The page below its lines: the rows from `base`, then the plugin's own.
    pub open spec fn page_node(self, top: Node, base: nat) -> Node {
        top.child_if(
            self.page_items().len() > 0,
            rows_node(self.page_items(), self.hovered_row(), base),
        ).child_opt(self.page_embed())
    }

    pub open spec fn nav_node(self) -> Node {
        Node::new(NodeId::SettingsNav).child(rows_node(self.nav_items(), self.hovered_row(), 0))
    }

    /// The settings screen. Nav and page share one index space, in tree order.
    /// Narrow windows show the menu and the page on separate screens.
    pub open spec fn settings_node(self) -> Node {
        let screen = Node::new(NodeId::SettingsScreen);
        let lines = Node::new(NodeId::SettingsPage).children(self.text_nodes());
        if self.given.panes is One && !self.settings.narrow_page {
            screen.child(self.nav_node())
        } else if self.page_alone() {
            screen.child(
                self.page_node(
                    lines.child(rows_node(seq![self.back_item()], self.hovered_row(), 0)),
                    1,
                ),
            )
        } else {
            screen.child(self.nav_node()).child(self.page_node(lines, 4))
        }
    }
}

impl Gumicord {
    /// The row under the pointer.
    pub fn hovered_item(&self) -> (r: Option<u32>)
        ensures
            r == self@.hovered_row(),
    {
        match (self.given.hovered, self.given.hovered_key) {
            (Some(NodeId::OverlayMenuItem), Some(Key::Index(i))) => Some(i),
            _ => None,
        }
    }

    fn page_top(&self) -> (r: UiNode)
        ensures
            r@ == Node::new(NodeId::SettingsPage).children(self@.text_nodes()),
    {
        let lines = self.settings_page_texts();
        let ghost want = self@.text_nodes();
        let mut out: Vec<UiNode> = Vec::new();
        let mut i: usize = 0;
        while i < lines.len()
            invariant
                i <= lines@.len(),
                text::strings_of(lines@) == self@.page_texts(),
                want == self@.text_nodes(),
                nodes_of(out@) =~= want.take(i as int),
            decreases lines@.len() - i,
        {
            let ghost before = out@;
            assert(self@.page_texts()[i as int] == lines@[i as int]@);
            let node = UiNode::text(NodeId::PrimitiveText, lines[i].as_str());
            out.push(node);
            assert(want[i as int] == node@);
            assert(nodes_of(out@) =~= nodes_of(before).push(node@));
            i += 1;
        }
        assert(nodes_of(out@) =~= want);
        UiNode::new(NodeId::SettingsPage).children(out)
    }

    fn page_below(&self, top: UiNode, base: usize) -> (r: UiNode)
        ensures
            r@ == self@.page_node(top@, base as nat),
    {
        let items = self.settings_page_items();
        assert(items_of(items@).len() == items@.len());
        let list = if items.len() > 0 {
            Some(rows(&items, self.hovered_item(), base))
        } else {
            None
        };
        top.child_opt(list).child_opt(self.settings_page_embed())
    }

    fn nav(&self) -> (r: UiNode)
        ensures
            r@ == self@.nav_node(),
    {
        UiNode::new(NodeId::SettingsNav).child(
            rows(&self.settings_nav_items(), self.hovered_item(), 0),
        )
    }

    /// The settings screen: categories left, page right. Narrow windows show the
    /// menu and the page on separate screens instead: side by side they fit
    /// neither.
    pub fn settings_screen(&self) -> (r: UiNode)
        ensures
            r@ == self@.settings_node(),
    {
        let screen = UiNode::new(NodeId::SettingsScreen);
        if matches!(self.given.panes, Panes::One) && !self.settings.narrow_page {
            return screen.child(self.nav());
        }
        if self.narrow_settings_page() {
            let mut back = no_items();
            if self.settings.plugin.is_some() {
                // Up one level, like the plugin's own back row below.
                push_item(&mut back, Item::new(Action::SettingsPluginBack, "← 設定"));
            } else {
                push_item(&mut back, Item::new(Action::SettingsNarrowBack, "← 設定"));
            }
            assert(items_of(back@) =~= seq![self@.back_item()]);
            let top = self.page_top().child(rows(&back, self.hovered_item(), 0));
            return screen.child(self.page_below(top, 1));
        }
        screen.child(self.nav()).child(self.page_below(self.page_top(), 4))
    }
}

// ── laws ───────────────────────────────────────────────────────────────────

/// Closing row first, then the categories; the page's rows follow from four.
pub proof fn rows_share_one_index_space(a: App)
    ensures
        a.nav_items().len() == 4,
        a.nav_items()[0].action == Deed::CloseSettings,
{
}

/// Exactly the open category's row is marked.
pub proof fn the_open_tab_is_marked(a: App, i: int)
    requires
        1 <= i < 4,
    ensures
        a.nav_items()[i].selected <==> a.nav_items()[i].action == Deed::SettingsCategory(
            a.settings.category,
        ),
{
}

/// Both lists end with an install row, so the rows before keep their indices.
pub proof fn lists_end_with_an_install_row(a: App)
    ensures
        a.theme_items().last().action == Deed::InstallThemeFile,
        a.plugin_list_items().last().action == Deed::InstallPluginFile,
{
}

/// A theme's row is marked exactly while it is the one in use.
pub proof fn the_theme_in_use_is_marked(a: App, i: int)
    requires
        0 <= i < a.settings.themes@.len(),
    ensures
        a.theme_items()[0].selected <==> a.given.theme_source is Bundled,
        a.theme_items()[1 + i].selected <==> (a.given.theme_source matches ThemeSource::Saved(id)
            && id@ == a.settings.themes@[i].id@),
{
}

/// Closing undoes opening, but for the drill-in: the category stays.
pub proof fn the_category_is_remembered(a: App)
    ensures
        a.settings_opened().0.settings.category == a.settings.category,
        a.settings_closed().0.settings.category == a.settings.category,
        a.settings_opened().0.settings.open,
        !a.settings_closed().0.settings.open,
        !a.settings_opened().0.settings.narrow_page,
{
}

} // verus!
