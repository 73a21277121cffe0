//! Menus and dialogs: what can be done, and how it is offered.

use vstd::prelude::*;
use crate::model::opt_text;
use crate::text;
use crate::ui::{nodes_of, Node, NodeId, State, UiNode};

verus! {

/// The sections of the settings screen.
#[derive(Debug, Clone, Copy, PartialEq, Eq, Structural)]
pub enum SettingsCategory {
    Plugins,
    Theme,
    Support,
}

pub open spec fn category_label(c: SettingsCategory) -> Seq<char> {
    match c {
        SettingsCategory::Plugins => "プラグイン"@,
        SettingsCategory::Theme => "テーマ"@,
        SettingsCategory::Support => "サポート"@,
    }
}

impl SettingsCategory {
    pub fn label(self) -> (r: &'static str)
        ensures
            r@ == category_label(self),
    {
        match self {
            SettingsCategory::Plugins => "プラグイン",
            SettingsCategory::Theme => "テーマ",
            SettingsCategory::Support => "サポート",
        }
    }
}

/// How a menu is presented. By width, not device: a narrowed desktop window
/// reads better with a sheet.
#[derive(Debug, Clone, Copy, PartialEq, Eq, Structural)]
pub enum Present {
    /// Rising from the bottom.
    Sheet,
    /// At the press.
    Popover,
}

/// Something that can be done from a menu.
#[derive(Debug, Clone, PartialEq, Eq)]
pub enum Action {
    Reply(u64),
    Edit(u64),
    Delete(u64),
    /// Copies this text.
    Copy(String),
    CopySelection,
    Cut,
    Paste,
    SelectAll,
    MarkRead(u64),
    LogOut,
    AddAccount,
    /// Signs in as this user, a bot or not.
    SwitchAccount { id: u64, bot: bool },
    CloseSettings,
    SettingsCategory(SettingsCategory),
    SettingsNarrowBack,
    SettingsPluginBack,
    UseBundledTheme,
    SelectTheme(String),
    InstallThemeFile,
    SelectSettingsPlugin(String),
    InstallPluginFile,
    EnablePlugin(String),
    DisablePlugin(String),
    ReloadPlugin(String),
    ReapprovePlugin(String),
    ToggleFps,
    ShareLog,
}

/// [`Action`] with the text as character sequences.
pub ghost enum Deed {
    Reply(u64),
    Edit(u64),
    Delete(u64),
    Copy(Seq<char>),
    CopySelection,
    Cut,
    Paste,
    SelectAll,
    MarkRead(u64),
    LogOut,
    AddAccount,
    SwitchAccount { id: u64, bot: bool },
    CloseSettings,
    SettingsCategory(SettingsCategory),
    SettingsNarrowBack,
    SettingsPluginBack,
    UseBundledTheme,
    SelectTheme(Seq<char>),
    InstallThemeFile,
    SelectSettingsPlugin(Seq<char>),
    InstallPluginFile,
    EnablePlugin(Seq<char>),
    DisablePlugin(Seq<char>),
    ReloadPlugin(Seq<char>),
    ReapprovePlugin(Seq<char>),
    ToggleFps,
    ShareLog,
}

impl View for Action {
    type V = Deed;

    open spec fn view(&self) -> Deed {
        match *self {
            Action::Reply(id) => Deed::Reply(id),
            Action::Edit(id) => Deed::Edit(id),
            Action::Delete(id) => Deed::Delete(id),
            Action::Copy(s) => Deed::Copy(s@),
            Action::CopySelection => Deed::CopySelection,
            Action::Cut => Deed::Cut,
            Action::Paste => Deed::Paste,
            Action::SelectAll => Deed::SelectAll,
            Action::MarkRead(id) => Deed::MarkRead(id),
            Action::LogOut => Deed::LogOut,
            Action::AddAccount => Deed::AddAccount,
            Action::SwitchAccount { id, bot } => Deed::SwitchAccount { id, bot },
            Action::CloseSettings => Deed::CloseSettings,
            Action::SettingsCategory(c) => Deed::SettingsCategory(c),
            Action::SettingsNarrowBack => Deed::SettingsNarrowBack,
            Action::SettingsPluginBack => Deed::SettingsPluginBack,
            Action::UseBundledTheme => Deed::UseBundledTheme,
            Action::SelectTheme(s) => Deed::SelectTheme(s@),
            Action::InstallThemeFile => Deed::InstallThemeFile,
            Action::SelectSettingsPlugin(s) => Deed::SelectSettingsPlugin(s@),
            Action::InstallPluginFile => Deed::InstallPluginFile,
            Action::EnablePlugin(s) => Deed::EnablePlugin(s@),
            Action::DisablePlugin(s) => Deed::DisablePlugin(s@),
            Action::ReloadPlugin(s) => Deed::ReloadPlugin(s@),
            Action::ReapprovePlugin(s) => Deed::ReapprovePlugin(s@),
            Action::ToggleFps => Deed::ToggleFps,
            Action::ShareLog => Deed::ShareLog,
        }
    }
}

impl Action {
    pub fn copy(&self) -> (r: Action)
        ensures
            r@ == self@,
    {
        match self {
            Action::Reply(id) => Action::Reply(*id),
            Action::Edit(id) => Action::Edit(*id),
            Action::Delete(id) => Action::Delete(*id),
            Action::Copy(s) => Action::Copy(s.clone()),
            Action::CopySelection => Action::CopySelection,
            Action::Cut => Action::Cut,
            Action::Paste => Action::Paste,
            Action::SelectAll => Action::SelectAll,
            Action::MarkRead(id) => Action::MarkRead(*id),
            Action::LogOut => Action::LogOut,
            Action::AddAccount => Action::AddAccount,
            Action::SwitchAccount { id, bot } => Action::SwitchAccount { id: *id, bot: *bot },
            Action::CloseSettings => Action::CloseSettings,
            Action::SettingsCategory(c) => Action::SettingsCategory(*c),
            Action::SettingsNarrowBack => Action::SettingsNarrowBack,
            Action::SettingsPluginBack => Action::SettingsPluginBack,
            Action::UseBundledTheme => Action::UseBundledTheme,
            Action::SelectTheme(s) => Action::SelectTheme(s.clone()),
            Action::InstallThemeFile => Action::InstallThemeFile,
            Action::SelectSettingsPlugin(s) => Action::SelectSettingsPlugin(s.clone()),
            Action::InstallPluginFile => Action::InstallPluginFile,
            Action::EnablePlugin(s) => Action::EnablePlugin(s.clone()),
            Action::DisablePlugin(s) => Action::DisablePlugin(s.clone()),
            Action::ReloadPlugin(s) => Action::ReloadPlugin(s.clone()),
            Action::ReapprovePlugin(s) => Action::ReapprovePlugin(s.clone()),
            Action::ToggleFps => Action::ToggleFps,
            Action::ShareLog => Action::ShareLog,
        }
    }
}

/// One row of a menu.
#[derive(Debug, Clone, PartialEq, Eq)]
pub struct Item {
    pub action: Action,
    pub label: String,
    pub icon: Option<String>,
    /// Cannot be undone.
    pub danger: bool,
    pub selected: bool,
}

/// [`Item`] with the text as character sequences.
pub ghost struct ItemView {
    pub action: Deed,
    pub label: Seq<char>,
    pub icon: Option<Seq<char>>,
    pub danger: bool,
    pub selected: bool,
}

impl ItemView {
    pub open spec fn new(action: Deed, label: Seq<char>) -> ItemView {
        ItemView { action, label, icon: None, danger: false, selected: false }
    }

    pub open spec fn icon(self, icon: Seq<char>) -> ItemView {
        ItemView { icon: Some(icon), ..self }
    }

    pub open spec fn danger(self) -> ItemView {
        ItemView { danger: true, ..self }
    }

    pub open spec fn selected(self, on: bool) -> ItemView {
        ItemView { selected: on, ..self }
    }
}

impl View for Item {
    type V = ItemView;

    open spec fn view(&self) -> ItemView {
        ItemView {
            action: self.action@,
            label: self.label@,
            icon: opt_text(self.icon),
            danger: self.danger,
            selected: self.selected,
        }
    }
}

pub open spec fn items_of(v: Seq<Item>) -> Seq<ItemView> {
    Seq::new(v.len(), |i: int| v[i]@)
}

impl Item {
    pub fn new(action: Action, label: &str) -> (r: Item)
        ensures
            r@ == ItemView::new(action@, label@),
    {
        Item { action, label: text::owned(label), icon: None, danger: false, selected: false }
    }

    pub fn icon(self, icon: &str) -> (r: Item)
        ensures
            r@ == self@.icon(icon@),
    {
        Item { icon: Some(text::owned(icon)), ..self }
    }

    pub fn danger(self) -> (r: Item)
        ensures
            r@ == self@.danger(),
    {
        Item { danger: true, ..self }
    }

    pub fn selected(self, on: bool) -> (r: Item)
        ensures
            r@ == self@.selected(on),
    {
        Item { selected: on, ..self }
    }
}

/// Adds a row at the end.
pub fn push_item(items: &mut Vec<Item>, item: Item)
    ensures
        items_of(final(items)@) == items_of(old(items)@).push(item@),
{
    let ghost before = items@;
    items.push(item);
    assert(items_of(items@) =~= items_of(before).push(item@));
}

pub fn no_items() -> (r: Vec<Item>)
    ensures
        items_of(r@) == Seq::<ItemView>::empty(),
{
    let r: Vec<Item> = Vec::new();
    assert(items_of(r@) =~= seq![]);
    r
}

/// A menu, and where it was asked for.
#[derive(Debug, Clone, PartialEq, Eq)]
pub struct Menu {
    pub at: Point,
    pub items: Vec<Item>,
}

/// A place on screen, in thousandths of a pixel.
#[derive(Debug, Clone, Copy, PartialEq, Eq, Structural)]
pub struct Point {
    pub x: i64,
    pub y: i64,
}

/// The buttons of a dialog, by index.
pub const CANCEL: u32 = 0;

pub const CONFIRM: u32 = 1;

/// A dialog that asks before something that cannot be undone.
#[derive(Debug, Clone, PartialEq, Eq)]
pub struct Confirm {
    pub action: Action,
    pub title: String,
    pub body: String,
    /// What it is about, in one line.
    pub preview: Option<String>,
    pub danger: bool,
}

/// [`Confirm`] with the text as character sequences.
pub ghost struct ConfirmView {
    pub action: Deed,
    pub title: Seq<char>,
    pub body: Seq<char>,
    pub preview: Option<Seq<char>>,
    pub danger: bool,
}

impl View for Confirm {
    type V = ConfirmView;

    open spec fn view(&self) -> ConfirmView {
        ConfirmView {
            action: self.action@,
            title: self.title@,
            body: self.body@,
            preview: opt_text(self.preview),
            danger: self.danger,
        }
    }
}

/// What floats above the screen.
#[derive(Debug, Clone, PartialEq, Eq)]
pub enum Floating {
    Menu(Menu),
    Confirm(Confirm),
}

/// [`Floating`] with the text as character sequences.
pub ghost enum FloatingView {
    Menu { at: Point, items: Seq<ItemView> },
    Confirm(ConfirmView),
}

impl View for Floating {
    type V = FloatingView;

    open spec fn view(&self) -> FloatingView {
        match *self {
            Floating::Menu(m) => FloatingView::Menu { at: m.at, items: items_of(m.items@) },
            Floating::Confirm(c) => FloatingView::Confirm(c@),
        }
    }
}

pub open spec fn opt_floating(f: Option<Floating>) -> Option<FloatingView> {
    match f {
        Some(f) => Some(f@),
        None => None,
    }
}

/// How many characters of a body a preview shows.
pub const PREVIEW_LEN: usize = 120;

/// The first line of a text, cut with an ellipsis where it is longer than
/// `limit`.
pub open spec fn first_line(s: Seq<char>, limit: int) -> Seq<char> {
    let end = text::index_from(s, '\n', 0);
    if end > limit {
        s.take(limit) + seq!['…']
    } else {
        s.take(end)
    }
}

/// The first line of a text, cut with an ellipsis where it is longer than
/// `limit`.
pub fn one_line(s: &str, limit: usize) -> (r: String)
    ensures
        r@ == first_line(s@, limit as int),
{
    let c = text::chars(s);
    let end = text::find_from(c.as_slice(), '\n', 0);
    if end > limit {
        let mut r = text::piece(c.as_slice(), 0, limit);
        assert(r@ =~= s@.take(limit as int));
        r.push('…');
        r
    } else {
        let r = text::piece(c.as_slice(), 0, end);
        assert(r@ =~= s@.take(end as int));
        r
    }
}

/// One line never holds a line break, and never more than the limit and an
/// ellipsis.
pub proof fn one_line_is_one_line(s: Seq<char>, limit: int)
    requires
        0 <= limit,
    ensures
        !first_line(s, limit).contains('\n'),
        first_line(s, limit).len() <= limit + 1,
{
    text::lemma_index_from(s, '\n', 0);
}

// ── rows ───────────────────────────────────────────────────────────────────

/// A row's index: rows of several lists share one index space.
pub open spec fn row_index(base: nat, i: nat) -> u32 {
    if base + i > u32::MAX {
        u32::MAX
    } else {
        (base + i) as u32
    }
}

pub open spec fn row_node(item: ItemView, index: u32, hovered: Option<u32>) -> Node {
    let icon = match item.icon {
        Some(s) => Some(Node::icon(NodeId::OverlayMenuItemIcon, s)),
        None => None,
    };
    Node::new(NodeId::OverlayMenuItem).with_index(index).with_state_if(
        item.selected,
        State::Selected,
    ).with_state_if(item.danger, State::Danger).with_state_if(
        hovered == Some(index),
        State::Hover,
    ).child_opt(icon).child(Node::text(NodeId::OverlayMenuItemLabel, item.label))
}

pub open spec fn row_nodes(items: Seq<ItemView>, hovered: Option<u32>, base: nat) -> Seq<Node> {
    Seq::new(items.len(), |i: int| row_node(items[i], row_index(base, i as nat), hovered))
}

/// The rows of a list, numbered from `base`.
pub open spec fn rows_node(items: Seq<ItemView>, hovered: Option<u32>, base: nat) -> Node {
    Node::new(NodeId::OverlayMenu).children(row_nodes(items, hovered, base))
}

fn row(item: &Item, index: u32, hovered: Option<u32>) -> (r: UiNode)
    ensures
        r@ == row_node(item@, index, hovered),
{
    let icon = match &item.icon {
        Some(s) => Some(UiNode::icon(NodeId::OverlayMenuItemIcon, s.as_str())),
        None => None,
    };
    let over = match hovered {
        Some(h) => h == index,
        None => false,
    };
    UiNode::new(NodeId::OverlayMenuItem).with_index(index).with_state_if(
        item.selected,
        State::Selected,
    ).with_state_if(item.danger, State::Danger).with_state_if(over, State::Hover).child_opt(
        icon,
    ).child(UiNode::text(NodeId::OverlayMenuItemLabel, item.label.as_str()))
}

/// The rows of a list, numbered from `base`.
pub fn rows(items: &Vec<Item>, hovered: Option<u32>, base: usize) -> (r: UiNode)
    ensures
        r@ == rows_node(items_of(items@), hovered, base as nat),
{
    let ghost want = row_nodes(items_of(items@), hovered, base as nat);
    let mut out: Vec<UiNode> = Vec::new();
    let mut i: usize = 0;
    while i < items.len()
        invariant
            i <= items@.len(),
            want == row_nodes(items_of(items@), hovered, base as nat),
            nodes_of(out@) =~= want.take(i as int),
        decreases items@.len() - i,
    {
        let at: u128 = base as u128 + i as u128;
        let index: u32 = if at > u32::MAX as u128 {
            u32::MAX
        } else {
            at as u32
        };
        let ghost before = out@;
        out.push(row(&items[i], index, hovered));
        assert(want[i as int] == row_node(items@[i as int]@, index, hovered));
        assert(nodes_of(out@) =~= nodes_of(before).push(want[i as int]));
        i += 1;
    }
    assert(nodes_of(out@) =~= want);
    UiNode::new(NodeId::OverlayMenu).children(out)
}

} // verus!
