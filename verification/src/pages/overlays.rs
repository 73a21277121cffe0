//! Transient layers over every screen, and where presses go: what floats on top
//! has the first word, and nothing beneath it is reachable.

use vstd::prelude::*;
use crate::menu::{
    items_of, Confirm, Deed, Floating, FloatingView, Item, ItemView, Menu, Point, Present, CANCEL,
    CONFIRM,
};
use crate::pages::chat::composer::{CANCEL_COMPOSING, REPLY_MENTION};
use crate::pages::chat::lists::{BACK_OPEN, MEMBERS_OPEN, SETTINGS_OPEN};
use crate::pages::chat::rows::{message_lines_of, MessageLine};
use crate::pages::login::{field_named, login_field_of};
use crate::shell::{
    App, Chat, Composing, Doing, Effect, Form, Gumicord, LoginField, SheetCloser, Spoiler,
};
use crate::text;
use crate::ui::{opt_node, Key, Node, NodeId, UiNode};

verus! {

// ── hits ───────────────────────────────────────────────────────────────────

/// A rectangle on screen, in thousandths of a pixel.
#[derive(Debug, Clone, Copy, PartialEq, Eq, Structural)]
pub struct Rect {
    pub x: i64,
    pub y: i64,
    pub w: i64,
    pub h: i64,
}

impl Rect {
    /// Whether this lies within another.
    pub open spec fn within(self, outer: Rect) -> bool {
        &&& self.x >= outer.x
        &&& self.y >= outer.y
        &&& self.x + self.w <= outer.x + outer.w
        &&& self.y + self.h <= outer.y + outer.h
    }

    pub fn is_within(self, outer: Rect) -> (r: bool)
        ensures
            r == self.within(outer),
    {
        self.x >= outer.x && self.y >= outer.y && self.x as i128 + self.w as i128
            <= outer.x as i128 + outer.w as i128 && self.y as i128 + self.h as i128
            <= outer.y as i128 + outer.h as i128
    }
}

/// A node under the pointer. A press carries all of them, front to back.
#[derive(Debug, Clone, Copy, PartialEq, Eq)]
pub struct Hit {
    pub id: NodeId,
    pub key: Option<Key>,
    pub rect: Rect,
}

impl Hit {
    pub open spec fn slot(self) -> Option<Seq<char>> {
        match self.key {
            Some(Key::Slot(s)) => Some(s@),
            _ => None,
        }
    }

    pub open spec fn item(self) -> Option<u64> {
        match self.key {
            Some(Key::Id(id)) => Some(id),
            _ => None,
        }
    }

    pub open spec fn index(self) -> Option<u32> {
        match self.key {
            Some(Key::Index(i)) => Some(i),
            _ => None,
        }
    }
}

/// The index of the first hit on a node of this kind, from `k`.
pub open spec fn hit_from(hits: Seq<Hit>, id: NodeId, k: int) -> Option<int>
    decreases hits.len() - k,
{
    if k < 0 || k >= hits.len() {
        None
    } else if hits[k].id == id {
        Some(k)
    } else {
        hit_from(hits, id, k + 1)
    }
}

pub open spec fn has_hit(hits: Seq<Hit>, id: NodeId) -> bool {
    hit_from(hits, id, 0) is Some
}

fn find_hit(hits: &Vec<Hit>, id: NodeId) -> (r: Option<usize>)
    ensures
        match r {
            Some(i) => hit_from(hits@, id, 0) == Some(i as int) && i < hits@.len(),
            None => hit_from(hits@, id, 0) is None,
        },
{
    let mut k: usize = 0;
    while k < hits.len()
        invariant
            k <= hits@.len(),
            hit_from(hits@, id, 0) == hit_from(hits@, id, k as int),
        decreases hits@.len() - k,
    {
        if hits[k].id == id {
            return Some(k);
        }
        k += 1;
    }
    None
}

/// The index of the first hit on a row, where a row was hit.
pub open spec fn row_hit(hits: Seq<Hit>, id: NodeId) -> Option<u32> {
    match hit_from(hits, id, 0) {
        Some(i) => hits[i].index(),
        None => None,
    }
}

fn find_row(hits: &Vec<Hit>, id: NodeId) -> (r: Option<u32>)
    ensures
        r == row_hit(hits@, id),
{
    match find_hit(hits, id) {
        Some(i) => match hits[i].key {
            Some(Key::Index(n)) => Some(n),
            _ => None,
        },
        None => None,
    }
}

// ── menus ──────────────────────────────────────────────────────────────────

impl App {
    /// A menu opened. A single sheet rides the slide, so the member sheet goes.
    pub open spec fn menu_opened(self, items: Seq<ItemView>, at: Point, now: u64) -> App {
        let a = App {
            floating: Some(FloatingView::Menu { at, items }),
            chat: Chat { member_sheet_open: false, ..self.chat },
            ..self
        };
        if self.given.panes.presents() == Present::Sheet {
            App { sheet: self.sheet.opening(now), sheet_closing: None, ..a }
        } else {
            a
        }
    }

    /// Whatever floats dismissed, and whether anything did. A sheet coasts out.
    pub open spec fn menu_closed(self, now: u64) -> (App, bool) {
        match self.floating {
            None => (self, false),
            Some(FloatingView::Confirm(_)) => (App { floating: None, ..self }, true),
            Some(FloatingView::Menu { .. }) => if self.given.panes.presents() == Present::Sheet {
                (
                    App {
                        sheet: self.sheet.heading(0, now),
                        sheet_closing: Some(SheetCloser::Menu),
                        ..self
                    },
                    true,
                )
            } else {
                (App { floating: None, ..self }, true)
            },
        }
    }

    /// The focus on a login field, or on the composer.
    pub open spec fn field_focused(self, field: Option<LoginField>) -> App {
        App {
            form: Form { field, ..self.form },
            chat: Chat { input_focused: field is None, ..self.chat },
            ..self
        }
    }

    /// The menu of the first node with one, from `k`: what it offers.
    pub open spec fn menu_from(self, hits: Seq<Hit>, k: int) -> Option<Seq<ItemView>>
        decreases hits.len() - k,
    {
        if k < 0 || k >= hits.len() {
            None
        } else {
            match (hits[k].id, hits[k].item()) {
                (NodeId::ChatMessage, Some(id)) => Some(self.message_items(id)),
                (NodeId::NavChannelListItem, Some(id)) => Some(self.channel_items(id)),
                (NodeId::NavGuildListItem, Some(id)) => Some(self.guild_items(id)),
                (NodeId::NavUserPanel, _) => Some(self.user_items()),
                _ => self.menu_from(hits, k + 1),
            }
        }
    }

    /// Asking for a menu, and whether anything changed. A field's menu acts on
    /// the field and keeps its focus; any other releases it.
    pub open spec fn menu_asked(self, hits: Seq<Hit>, at: Point, now: u64) -> (App, bool) {
        if self.floating matches Some(FloatingView::Confirm(_)) || self.settings.open {
            (self, false)
        } else if !self.shows_main() {
            match login_field_hit(hits, 0) {
                Some(field) => {
                    let a = self.field_focused(Some(field));
                    (a.menu_opened(a.field_items(), at, now), true)
                },
                None => self.menu_closed(now),
            }
        } else if has_hit(hits, NodeId::ChatInputField) {
            let a = self.field_focused(None);
            (a.menu_opened(a.field_items(), at, now), true)
        } else {
            match self.menu_from(hits, 0) {
                Some(items) => if items.len() > 0 {
                    (self.unfocused().menu_opened(items, at, now), true)
                } else {
                    self.menu_closed(now)
                },
                None => self.menu_closed(now),
            }
        }
    }
}

/// The first login field that was hit, from `k`.
pub open spec fn login_field_hit(hits: Seq<Hit>, k: int) -> Option<LoginField>
    decreases hits.len() - k,
{
    if k < 0 || k >= hits.len() {
        None
    } else {
        let named = match (hits[k].id, hits[k].slot()) {
            (NodeId::AppScreenLoginField, Some(s)) => field_named(s),
            _ => None,
        };
        if named is Some {
            named
        } else {
            login_field_hit(hits, k + 1)
        }
    }
}

fn find_login_field(hits: &Vec<Hit>) -> (r: Option<LoginField>)
    ensures
        r == login_field_hit(hits@, 0),
{
    let mut k: usize = 0;
    while k < hits.len()
        invariant
            k <= hits@.len(),
            login_field_hit(hits@, 0) == login_field_hit(hits@, k as int),
        decreases hits@.len() - k,
    {
        if hits[k].id == NodeId::AppScreenLoginField {
            if let Some(Key::Slot(s)) = hits[k].key {
                if let Some(f) = login_field_of(s) {
                    return Some(f);
                }
            }
        }
        k += 1;
    }
    None
}

impl Gumicord {
    fn open_menu(&mut self, items: Vec<Item>, at: Point, now: u64)
        ensures
            final(self)@ == old(self)@.menu_opened(items_of(items@), at, now),
    {
        self.floating = Some(Floating::Menu(Menu { at, items }));
        self.chat.member_sheet_open = false;
        if self.given.panes.present() == Present::Sheet {
            self.sheet.open(now);
            self.sheet_closing = None;
        }
    }

    /// Dismisses whatever floats. A menu presented as a sheet coasts out.
    pub fn close_menu(&mut self, now: u64) -> (r: bool)
        ensures
            (final(self)@, r) == old(self)@.menu_closed(now),
    {
        if self.floating.is_none() {
            return false;
        }
        if self.has_menu() && self.given.panes.present() == Present::Sheet {
            self.sheet.head(0, now);
            self.sheet_closing = Some(SheetCloser::Menu);
        } else {
            self.floating = None;
        }
        true
    }

    fn focus_field(&mut self, field: Option<LoginField>)
        ensures
            final(self)@ == old(self)@.field_focused(field),
    {
        self.login_view.field = field;
        self.chat.input_focused = field.is_none();
    }

    fn menu_at(&self, hits: &Vec<Hit>) -> (r: Option<Vec<Item>>)
        ensures
            match r {
                Some(items) => self@.menu_from(hits@, 0) == Some(items_of(items@)),
                None => self@.menu_from(hits@, 0) is None,
            },
    {
        let mut k: usize = 0;
        while k < hits.len()
            invariant
                k <= hits@.len(),
                self@.menu_from(hits@, 0) == self@.menu_from(hits@, k as int),
            decreases hits@.len() - k,
        {
            let h = hits[k];
            match (h.id, h.key) {
                (NodeId::ChatMessage, Some(Key::Id(id))) => return Some(self.message_menu(id)),
                (NodeId::NavChannelListItem, Some(Key::Id(id))) => return Some(
                    self.channel_menu(id),
                ),
                (NodeId::NavGuildListItem, Some(Key::Id(id))) => return Some(self.guild_menu(id)),
                (NodeId::NavUserPanel, _) => return Some(self.user_menu()),
                _ => {},
            }
            k += 1;
        }
        None
    }

    fn has_dialog(&self) -> (r: bool)
        ensures
            r == (self@.floating matches Some(FloatingView::Confirm(_))),
    {
        match &self.floating {
            Some(Floating::Confirm(_)) => true,
            _ => false,
        }
    }

    /// Opens the menu of what is under the pointer; over nothing, closes what is
    /// open.
    pub fn context_menu(&mut self, hits: &Vec<Hit>, at: Point, now: u64) -> (r: bool)
        ensures
            (final(self)@, r) == old(self)@.menu_asked(hits@, at, now),
    {
        if self.has_dialog() || self.settings.open {
            return false;
        }
        if !self.shows_main() {
            return match find_login_field(hits) {
                Some(field) => {
                    self.focus_field(Some(field));
                    let items = self.field_menu();
                    self.open_menu(items, at, now);
                    true
                },
                None => self.close_menu(now),
            };
        }
        // The composer overlaps the message list, so it is checked first.
        if find_hit(hits, NodeId::ChatInputField).is_some() {
            self.focus_field(None);
            let items = self.field_menu();
            self.open_menu(items, at, now);
            return true;
        }
        match self.menu_at(hits) {
            Some(items) => {
                assert(items_of(items@).len() == items@.len());
                if items.len() > 0 {
                    // A menu must not hide behind the keyboard.
                    self.release_text_focus();
                    self.open_menu(items, at, now);
                    true
                } else {
                    self.close_menu(now)
                }
            },
            None => self.close_menu(now),
        }
    }
}

// ── presses on the screens ─────────────────────────────────────────────────

impl App {
    /// A press of a button on the main screen, where it is one.
    pub open spec fn button_pressed(self, slot: Seq<char>, now: u64) -> Option<(App, bool)> {
        if slot == CANCEL_COMPOSING@ {
            Some(self.composing_stopped())
        } else if slot == REPLY_MENTION@ {
            Some(
                if self.chat.composing is Reply {
                    (
                        App {
                            chat: Chat {
                                reply_mention: !self.chat.reply_mention,
                                ..self.chat
                            },
                            ..self
                        },
                        true,
                    )
                } else {
                    (self, false)
                },
            )
        } else if slot == SETTINGS_OPEN@ {
            Some(self.settings_opened())
        } else if slot == MEMBERS_OPEN@ {
            Some(self.member_sheet_opened(now))
        } else if slot == BACK_OPEN@ {
            Some(self.drawer_opened(now))
        } else {
            None
        }
    }

    /// What a press on one node of the main screen does, where it does anything.
    pub open spec fn node_pressed(self, h: Hit, now: u64) -> Option<(App, bool)> {
        match (h.id, h.slot(), h.item()) {
            (NodeId::PrimitiveButton, Some(slot), _) => self.button_pressed(slot, now),
            (NodeId::NavChannelListItem, _, Some(id)) => Some(self.channel_selected(id)),
            (NodeId::NavGuildListItem, _, Some(id)) => Some(self.guild_selected(id)),
            (NodeId::NavGuildListFolder, _, Some(id)) => Some(
                (self.with_effect(Doing::ToggleFolder(id)), true),
            ),
            (NodeId::ChatMessageReplyRef, _, Some(id)) => Some((self.jumped(id), true)),
            (NodeId::ChatMessage, _, Some(id)) => Some(
                (
                    App { chat: Chat { a11y_message: Some(id), ..self.chat }, ..self },
                    self.chat.a11y_message != Some(id),
                ),
            ),
            _ => None,
        }
    }

    /// The first node that does something decides, from `k`.
    pub open spec fn nodes_pressed(self, hits: Seq<Hit>, k: int, now: u64) -> (App, bool)
        decreases hits.len() - k,
    {
        if k < 0 || k >= hits.len() {
            (self, false)
        } else {
            match self.node_pressed(hits[k], now) {
                Some(r) => r,
                None => self.nodes_pressed(hits, k + 1, now),
            }
        }
    }

    /// The main screen: a press on the composer focuses it, any other releases
    /// focus.
    pub open spec fn main_pressed(self, hits: Seq<Hit>, now: u64) -> (App, bool) {
        if has_hit(hits, NodeId::ChatInputField) {
            (self.field_focused(None), !self.chat.input_focused || self.form.field is Some)
        } else {
            let r = self.unfocused().nodes_pressed(hits, 0, now);
            (r.0, r.1 || self.focused())
        }
    }

    /// Inside the drawer: a channel is opened and the drawer closes; anything
    /// else acts as on the main screen. Only what lies within the drawer counts,
    /// since the lists in it share ids with what is behind.
    pub open spec fn drawer_nodes_pressed(
        self,
        hits: Seq<Hit>,
        drawer: Rect,
        k: int,
        now: u64,
    ) -> (App, bool)
        decreases hits.len() - k,
    {
        if k < 0 || k >= hits.len() {
            (self, false)
        } else if hits[k].rect.within(drawer) && hits[k].id == NodeId::NavChannelListItem
            && hits[k].item() is Some {
            (self.channel_selected(hits[k].item()->0).0.drawer_closed(now).0, true)
        } else if hits[k].rect.within(drawer) && self.node_pressed(hits[k], now) is Some {
            self.node_pressed(hits[k], now)->0
        } else {
            self.drawer_nodes_pressed(hits, drawer, k + 1, now)
        }
    }

    pub open spec fn drawer_pressed(self, hits: Seq<Hit>, now: u64) -> (App, bool) {
        match hit_from(hits, NodeId::OverlayDrawer, 0) {
            None => (self.unfocused().drawer_closed(now).0, true),
            Some(i) => self.drawer_nodes_pressed(hits, hits[i].rect, 0, now),
        }
    }

    /// The member sheet: a row or anything outside closes it, its background
    /// does nothing.
    pub open spec fn sheet_pressed(self, hits: Seq<Hit>, now: u64) -> (App, bool) {
        if has_hit(hits, NodeId::OverlaySheet) && !has_hit(hits, NodeId::NavMemberListItem) {
            (self, false)
        } else {
            self.member_sheet_closed(now)
        }
    }

    /// The first login button that was hit, from `k`.
    pub open spec fn login_press_from(self, hits: Seq<Hit>, k: int) -> (App, bool)
        decreases hits.len() - k,
    {
        if k < 0 || k >= hits.len() {
            (self.unfocused(), self.focused())
        } else {
            match (hits[k].id, hits[k].slot()) {
                (NodeId::PrimitiveButton, Some(s)) => self.login_pressed(s),
                (NodeId::AppScreenLoginQrButton, Some(s)) => self.login_pressed(s),
                (NodeId::AppScreenLoginForgot, Some(s)) => self.login_pressed(s),
                (NodeId::AppScreenLoginRegister, Some(s)) => self.login_pressed(s),
                _ => self.login_press_from(hits, k + 1),
            }
        }
    }

    /// The login screen: fields take focus, buttons act, and a press outside
    /// both releases focus.
    pub open spec fn login_screen_pressed(self, hits: Seq<Hit>) -> (App, bool) {
        match login_field_hit(hits, 0) {
            Some(field) => (
                App { form: Form { field: Some(field), ..self.form }, ..self },
                self.form.field != Some(field),
            ),
            None => self.login_press_from(hits, 0),
        }
    }

    /// A press with a dialog up: only its buttons count. A dialog is an unmade
    /// decision, so a press outside leaves it.
    pub open spec fn dialog_pressed(self, action: Deed, hits: Seq<Hit>) -> (App, bool) {
        match row_hit(hits, NodeId::OverlayModalAction) {
            Some(i) => if i == CANCEL {
                (App { floating: None, ..self }, true)
            } else if i == CONFIRM {
                (App { floating: None, ..self }.performed(action).0, true)
            } else {
                (self, false)
            },
            None => (self, false),
        }
    }

    /// A press with a menu up: a row acts at once or asks first; anything else
    /// dismisses the menu, and the keyboard with it.
    pub open spec fn menu_pressed(self, items: Seq<ItemView>, hits: Seq<Hit>, now: u64) -> App {
        match row_hit(hits, NodeId::OverlayMenuItem) {
            Some(i) if i < items.len() => match self.confirmation(items[i as int].action) {
                Some(c) => App { floating: Some(FloatingView::Confirm(c)), ..self },
                None => App { floating: None, ..self }.performed(items[i as int].action).0,
            },
            _ => self.unfocused().menu_closed(now).0,
        }
    }

    /// Where a press goes, and whether anything changed.
    pub open spec fn pressed_on(self, hits: Seq<Hit>, now: u64) -> (App, bool) {
        match self.floating {
            Some(FloatingView::Confirm(c)) => self.dialog_pressed(c.action, hits),
            Some(FloatingView::Menu { items, .. }) => (self.menu_pressed(items, hits, now), true),
            None => if self.settings.open {
                match row_hit(hits, NodeId::OverlayMenuItem) {
                    Some(i) => self.unfocused().settings_acted(i as int),
                    None => (self, false),
                }
            } else if !self.shows_main() {
                self.login_screen_pressed(hits)
            } else if self.chat.drawer_open {
                self.drawer_pressed(hits, now)
            } else if self.chat.member_sheet_open {
                self.sheet_pressed(hits, now)
            } else {
                self.main_pressed(hits, now)
            },
        }
    }
}

impl Gumicord {
    fn press_button(&mut self, slot: &str, now: u64) -> (r: Option<bool>)
        ensures
            match r {
                Some(b) => old(self)@.button_pressed(slot@, now) == Some((final(self)@, b)),
                None => old(self)@.button_pressed(slot@, now) is None && final(self)@ == old(
                    self,
                )@,
            },
    {
        if text::same_text(slot, CANCEL_COMPOSING) {
            Some(self.stop_composing())
        } else if text::same_text(slot, REPLY_MENTION) {
            match self.chat.composing {
                Composing::Reply(_) => {
                    self.chat.reply_mention = !self.chat.reply_mention;
                    Some(true)
                },
                _ => Some(false),
            }
        } else if text::same_text(slot, SETTINGS_OPEN) {
            Some(self.open_settings())
        } else if text::same_text(slot, MEMBERS_OPEN) {
            Some(self.open_member_sheet(now))
        } else if text::same_text(slot, BACK_OPEN) {
            Some(self.open_drawer(now))
        } else {
            None
        }
    }

    fn press_node(&mut self, h: Hit, now: u64) -> (r: Option<bool>)
        ensures
            match r {
                Some(b) => old(self)@.node_pressed(h, now) == Some((final(self)@, b)),
                None => old(self)@.node_pressed(h, now) is None && final(self)@ == old(self)@,
            },
    {
        match (h.id, h.key) {
            (NodeId::PrimitiveButton, Some(Key::Slot(slot))) => self.press_button(slot, now),
            (NodeId::NavChannelListItem, Some(Key::Id(id))) => Some(self.select_channel(id)),
            (NodeId::NavGuildListItem, Some(Key::Id(id))) => Some(self.select_guild(id)),
            (NodeId::NavGuildListFolder, Some(Key::Id(id))) => {
                self.push_effect(Effect::ToggleFolder(id));
                Some(true)
            },
            (NodeId::ChatMessageReplyRef, Some(Key::Id(id))) => Some(self.jump_to_message(id)),
            (NodeId::ChatMessage, Some(Key::Id(id))) => {
                let changed = match self.chat.a11y_message {
                    Some(m) => m != id,
                    None => true,
                };
                self.chat.a11y_message = Some(id);
                Some(changed)
            },
            _ => None,
        }
    }

    fn press_nodes(&mut self, hits: &Vec<Hit>, now: u64) -> (r: bool)
        ensures
            (final(self)@, r) == old(self)@.nodes_pressed(hits@, 0, now),
    {
        let ghost before = self@;
        let mut k: usize = 0;
        while k < hits.len()
            invariant
                k <= hits@.len(),
                self@ == before,
                before == old(self)@,
                before.nodes_pressed(hits@, 0, now) == before.nodes_pressed(hits@, k as int, now),
            decreases hits@.len() - k,
        {
            if let Some(r) = self.press_node(hits[k], now) {
                return r;
            }
            k += 1;
        }
        false
    }

    fn press_main(&mut self, hits: &Vec<Hit>, now: u64) -> (r: bool)
        ensures
            (final(self)@, r) == old(self)@.main_pressed(hits@, now),
    {
        if find_hit(hits, NodeId::ChatInputField).is_some() {
            let changed = !self.chat.input_focused || self.login_view.field.is_some();
            self.focus_field(None);
            return changed;
        }
        // Any press outside a field drops focus, or phones keep the keyboard
        // with no way to dismiss it.
        let had = self.release_text_focus();
        let acted = self.press_nodes(hits, now);
        acted || had
    }

    fn press_drawer(&mut self, hits: &Vec<Hit>, now: u64) -> (r: bool)
        ensures
            (final(self)@, r) == old(self)@.drawer_pressed(hits@, now),
    {
        let drawer = match find_hit(hits, NodeId::OverlayDrawer) {
            Some(i) => hits[i].rect,
            None => {
                self.release_text_focus();
                self.close_drawer(now);
                return true;
            },
        };
        let ghost before = self@;
        let mut k: usize = 0;
        while k < hits.len()
            invariant
                k <= hits@.len(),
                self@ == before,
                before == old(self)@,
                before.drawer_pressed(hits@, now) == before.drawer_nodes_pressed(
                    hits@,
                    drawer,
                    0,
                    now,
                ),
                before.drawer_nodes_pressed(hits@, drawer, 0, now) == before.drawer_nodes_pressed(
                    hits@,
                    drawer,
                    k as int,
                    now,
                ),
            decreases hits@.len() - k,
        {
            let h = hits[k];
            if h.rect.is_within(drawer) {
                if h.id == NodeId::NavChannelListItem {
                    if let Some(Key::Id(id)) = h.key {
                        self.select_channel(id);
                        self.close_drawer(now);
                        return true;
                    }
                }
                if let Some(r) = self.press_node(h, now) {
                    return r;
                }
            }
            k += 1;
        }
        false
    }

    fn press_sheet(&mut self, hits: &Vec<Hit>, now: u64) -> (r: bool)
        ensures
            (final(self)@, r) == old(self)@.sheet_pressed(hits@, now),
    {
        if find_hit(hits, NodeId::OverlaySheet).is_some() && find_hit(
            hits,
            NodeId::NavMemberListItem,
        ).is_none() {
            return false;
        }
        self.close_member_sheet(now)
    }

    fn press_login(&mut self, hits: &Vec<Hit>) -> (r: bool)
        ensures
            (final(self)@, r) == old(self)@.login_screen_pressed(hits@),
    {
        if let Some(field) = find_login_field(hits) {
            let changed = match self.login_view.field {
                Some(f) => f != field,
                None => true,
            };
            self.login_view.field = Some(field);
            return changed;
        }
        let ghost before = self@;
        let mut k: usize = 0;
        while k < hits.len()
            invariant
                k <= hits@.len(),
                self@ == before,
                before == old(self)@,
                login_field_hit(hits@, 0) is None,
                before.login_press_from(hits@, 0) == before.login_press_from(hits@, k as int),
            decreases hits@.len() - k,
        {
            match (hits[k].id, hits[k].key) {
                (NodeId::PrimitiveButton, Some(Key::Slot(s)))
                | (NodeId::AppScreenLoginQrButton, Some(Key::Slot(s)))
                | (NodeId::AppScreenLoginForgot, Some(Key::Slot(s)))
                | (NodeId::AppScreenLoginRegister, Some(Key::Slot(s))) => {
                    return self.login_button(s);
                },
                _ => {},
            }
            k += 1;
        }
        self.release_text_focus()
    }

    fn press_dialog(&mut self, c: Confirm, hits: &Vec<Hit>) -> (r: bool)
        requires
            old(self)@.floating is None,
        ensures
            ({
                let before = App { floating: Some(FloatingView::Confirm(c@)), ..old(self)@ };
                (final(self)@, r) == before.dialog_pressed(c@.action, hits@)
            }),
    {
        let ghost before = App { floating: Some(FloatingView::Confirm(c@)), ..self@ };
        assert(App { floating: None, ..before } == self@);
        match find_row(hits, NodeId::OverlayModalAction) {
            Some(i) => if i == CANCEL {
                true
            } else if i == CONFIRM {
                self.perform(c.action);
                true
            } else {
                self.floating = Some(Floating::Confirm(c));
                false
            },
            None => {
                self.floating = Some(Floating::Confirm(c));
                false
            },
        }
    }

    fn press_menu(&mut self, m: Menu, hits: &Vec<Hit>, now: u64)
        requires
            old(self)@.floating is None,
        ensures
            ({
                let items = items_of(m.items@);
                let before = App {
                    floating: Some(FloatingView::Menu { at: m.at, items }),
                    ..old(self)@
                };
                final(self)@ == before.menu_pressed(items, hits@, now)
            }),
    {
        let ghost items = items_of(m.items@);
        let ghost before = App {
            floating: Some(FloatingView::Menu { at: m.at, items }),
            ..self@
        };
        assert(App { floating: None, ..before } == self@);
        if let Some(i) = find_row(hits, NodeId::OverlayMenuItem) {
            if (i as usize) < m.items.len() {
                let action = m.items[i as usize].action.copy();
                assert(items[i as int] == m.items@[i as int]@);
                proof {
                    lemma_asking_looks_past(before, self@, action@);
                }
                match self.needs_confirming(&action) {
                    Some(c) => {
                        self.floating = Some(Floating::Confirm(c));
                    },
                    None => {
                        self.perform(action);
                    },
                }
                return;
            }
        }
        self.floating = Some(Floating::Menu(m));
        self.release_text_focus();
        self.close_menu(now);
    }

    /// Routes a press. What floats has the first word, then the settings, the
    /// login screen, the drawer, the sheet, and last the main screen.
    pub fn pressed(&mut self, hits: &Vec<Hit>, now: u64) -> (r: bool)
        ensures
            (final(self)@, r) == old(self)@.pressed_on(hits@, now),
    {
        match self.floating.take() {
            Some(Floating::Confirm(c)) => self.press_dialog(c, hits),
            Some(Floating::Menu(m)) => {
                self.press_menu(m, hits, now);
                true
            },
            None => if self.settings.open {
                match find_row(hits, NodeId::OverlayMenuItem) {
                    Some(i) => {
                        self.release_text_focus();
                        self.settings_action(i as usize)
                    },
                    None => false,
                }
            } else if !self.shows_main() {
                self.press_login(hits)
            } else if self.chat.drawer_open {
                self.press_drawer(hits, now)
            } else if self.chat.member_sheet_open {
                self.press_sheet(hits, now)
            } else {
                self.press_main(hits, now)
            },
        }
    }
}

proof fn lemma_asking_looks_past(a: App, b: App, d: Deed)
    requires
        b == (App { floating: None, ..a }),
    ensures
        a.confirmation(d) == b.confirmation(d),
{
    assert(a.live == b.live);
    assert(a.chat == b.chat);
    assert(a.channel_id() == b.channel_id());
    assert(a.messages() == b.messages());
}

// ── swipes ─────────────────────────────────────────────────────────────────

#[derive(Debug, Clone, Copy, PartialEq, Eq, Structural)]
pub enum SwipeDir {
    Left,
    Right,
    Up,
    Down,
}

/// A swipe, and where it started.
#[derive(Debug, Clone, Copy, PartialEq, Eq, Structural)]
pub struct Swipe {
    pub dir: SwipeDir,
    pub at: Point,
}

impl App {
    /// The message that was hit.
    pub open spec fn message_hit(self, hits: Seq<Hit>) -> Option<u64> {
        match hit_from(hits, NodeId::ChatMessage, 0) {
            Some(i) => hits[i].item(),
            None => None,
        }
    }

    /// Where a swipe goes, and whether anything changed. Surfaces flick away in
    /// their own direction; a swipe behind one dismisses it without acting; from
    /// the edge the drawer opens; a message swiped left is answered.
    pub open spec fn swiped_on(self, hits: Seq<Hit>, s: Swipe, now: u64) -> (App, bool) {
        if self.floating is Some || self.settings.open || !self.shows_main() {
            (self, false)
        } else if self.chat.drawer_open {
            if has_hit(hits, NodeId::OverlayDrawer) && !(s.dir is Left) {
                (self, false)
            } else {
                self.drawer_closed(now)
            }
        } else if self.chat.member_sheet_open {
            if has_hit(hits, NodeId::OverlaySheet) && !(s.dir is Down) {
                (self, false)
            } else {
                self.member_sheet_closed(now)
            }
        } else if s.dir is Right && s.at.x <= self.given.drawer_edge {
            self.drawer_opened(now)
        } else if s.dir is Left && self.message_hit(hits) is Some {
            (self.replying(self.message_hit(hits)->0), true)
        } else {
            (self, false)
        }
    }

    /// Escape: one thing at a time, the topmost first.
    pub open spec fn escaped(self, now: u64) -> (App, bool) {
        if self.floating is Some {
            self.menu_closed(now)
        } else if self.settings.open {
            self.settings_closed()
        } else if self.chat.drawer_open {
            self.drawer_closed(now)
        } else if self.chat.member_sheet_open {
            self.member_sheet_closed(now)
        } else if !(self.chat.composing is New) {
            self.composing_stopped()
        } else {
            (self.unfocused(), self.focused())
        }
    }
}

impl Gumicord {
    /// Routes a swipe.
    pub fn swiped(&mut self, hits: &Vec<Hit>, s: Swipe, now: u64) -> (r: bool)
        ensures
            (final(self)@, r) == old(self)@.swiped_on(hits@, s, now),
    {
        if self.floating.is_some() || self.settings.open || !self.shows_main() {
            return false;
        }
        if self.chat.drawer_open {
            if find_hit(hits, NodeId::OverlayDrawer).is_some() && s.dir != SwipeDir::Left {
                return false;
            }
            return self.close_drawer(now);
        }
        if self.chat.member_sheet_open {
            if find_hit(hits, NodeId::OverlaySheet).is_some() && s.dir != SwipeDir::Down {
                return false;
            }
            return self.close_member_sheet(now);
        }
        if s.dir == SwipeDir::Right && s.at.x <= self.given.drawer_edge {
            return self.open_drawer(now);
        }
        if s.dir == SwipeDir::Left {
            if let Some(i) = find_hit(hits, NodeId::ChatMessage) {
                if let Some(Key::Id(id)) = hits[i].key {
                    return self.perform(crate::menu::Action::Reply(id));
                }
            }
        }
        false
    }

    /// Escape closes one thing at a time, the topmost first.
    pub fn cancel_input(&mut self, now: u64) -> (r: bool)
        ensures
            (final(self)@, r) == old(self)@.escaped(now),
    {
        if self.floating.is_some() {
            self.close_menu(now)
        } else if self.settings.open {
            self.close_settings()
        } else if self.chat.drawer_open {
            self.close_drawer(now)
        } else if self.chat.member_sheet_open {
            self.close_member_sheet(now)
        } else if self.stop_composing() {
            true
        } else {
            self.release_text_focus()
        }
    }

    /// Opens a link. Declines while something floats: the press dismisses that.
    pub fn link_pressed(&mut self, url: &str) -> (r: bool)
        ensures
            old(self)@.floating is Some ==> !r && final(self)@ == old(self)@,
            old(self)@.floating is None ==> r && final(self)@ == old(self)@.with_effect(
                Doing::OpenLink(url@),
            ),
    {
        if self.floating.is_some() {
            return false;
        }
        self.push_effect(Effect::OpenLink(text::owned(url)));
        true
    }

    /// Opens a covered run, or covers it again. Declines like a link does.
    pub fn spoiler_pressed(&mut self, message: u64, run: u64) -> (r: bool)
        ensures
            old(self)@.floating is Some ==> !r && final(self)@ == old(self)@,
            old(self)@.floating is None ==> r && final(self)@ == (App {
                chat: Chat {
                    reveals: old(self)@.chat.reveals.toggled(Spoiler { message, run }),
                    ..old(self)@.chat
                },
                ..old(self)@
            }),
    {
        if self.floating.is_some() {
            return false;
        }
        self.chat.reveals.toggle(message, run);
        true
    }
}

// ── hovering ───────────────────────────────────────────────────────────────

/// Whether a node scrolls.
pub open spec fn scrolls(id: NodeId) -> bool {
    id is LayoutScroll || id is NavGuildList || id is NavMemberList || id is ChatMessageList
}

/// The innermost of the nodes that scrolls, from `k`.
pub open spec fn scroll_from(hits: Seq<Hit>, k: int) -> Option<NodeId>
    decreases hits.len() - k,
{
    if k < 0 || k >= hits.len() {
        None
    } else if scrolls(hits[k].id) {
        Some(hits[k].id)
    } else {
        scroll_from(hits, k + 1)
    }
}

/// The first message with an id.
pub open spec fn line_at(ls: Seq<MessageLine>, id: u64, k: int) -> Option<MessageLine>
    decreases ls.len() - k,
{
    if k < 0 || k >= ls.len() {
        None
    } else if ls[k].id == id {
        Some(ls[k])
    } else {
        line_at(ls, id, k + 1)
    }
}

impl App {
    /// The whole date of a hovered timestamp. Messages without a day add
    /// nothing.
    pub open spec fn tooltip_node(self) -> Option<Node> {
        match (self.given.hovered, self.given.hovered_key) {
            (Some(NodeId::ChatMessageHeaderTime), Some(Key::Id(id))) => match line_at(
                self.message_lines(),
                id,
                0,
            ) {
                Some(m) => if m.day.len() > 0 {
                    Some(Node::text(NodeId::OverlayTooltip, m.day + " "@ + m.time))
                } else {
                    None
                },
                None => None,
            },
            _ => None,
        }
    }
}

impl Gumicord {
    /// Takes in what the pointer is over, front to back. The innermost list
    /// under it gets the scrollbar.
    pub fn hover_changed(&mut self, hits: &Vec<Hit>)
        ensures
            final(self)@.given.hovered_scroll == scroll_from(hits@, 0),
            hits@.len() > 0 ==> final(self)@.given.hovered == Some(hits@[0].id)
                && final(self)@.given.hovered_key == hits@[0].key,
            hits@.len() == 0 ==> final(self)@.given.hovered is None
                && final(self)@.given.hovered_key is None,
            final(self)@ == (App {
                given: crate::shell::Given {
                    hovered: final(self)@.given.hovered,
                    hovered_key: final(self)@.given.hovered_key,
                    hovered_scroll: final(self)@.given.hovered_scroll,
                    ..old(self)@.given
                },
                ..old(self)@
            }),
    {
        if hits.len() > 0 {
            self.given.hovered = Some(hits[0].id);
            self.given.hovered_key = hits[0].key;
        } else {
            self.given.hovered = None;
            self.given.hovered_key = None;
        }
        let mut found: Option<NodeId> = None;
        let mut k: usize = 0;
        while k < hits.len() && found.is_none()
            invariant
                k <= hits@.len(),
                match found {
                    Some(id) => scroll_from(hits@, 0) == Some(id),
                    None => scroll_from(hits@, 0) == scroll_from(hits@, k as int),
                },
            decreases hits@.len() - k,
        {
            match hits[k].id {
                NodeId::LayoutScroll
                | NodeId::NavGuildList
                | NodeId::NavMemberList
                | NodeId::ChatMessageList => {
                    found = Some(hits[k].id);
                },
                _ => {},
            }
            k += 1;
        }
        self.given.hovered_scroll = found;
    }

    /// The whole date of a hovered timestamp, not the short hour.
    pub fn tooltip(&self) -> (r: Option<UiNode>)
        ensures
            opt_node(r) == self@.tooltip_node(),
    {
        let id = match (self.given.hovered, self.given.hovered_key) {
            (Some(NodeId::ChatMessageHeaderTime), Some(Key::Id(id))) => id,
            _ => return None,
        };
        let rows = self.message_rows();
        let ghost ls = self@.message_lines();
        let mut k: usize = 0;
        while k < rows.len()
            invariant
                k <= rows@.len(),
                ls == message_lines_of(rows@),
                self@.given.hovered == Some(NodeId::ChatMessageHeaderTime),
                self@.given.hovered_key == Some(Key::Id(id)),
                ls == self@.message_lines(),
                line_at(ls, id, 0) == line_at(ls, id, k as int),
            decreases rows@.len() - k,
        {
            let m = &rows[k];
            assert(ls[k as int] == m@);
            if m.id == id {
                if text::chars(m.day.as_str()).len() == 0 {
                    return None;
                }
                let mut s = text::joined(m.day.as_str(), " ");
                s.append(m.time.as_str());
                return Some(UiNode::text(NodeId::OverlayTooltip, s.as_str()));
            }
            k += 1;
        }
        None
    }
}

// ── laws ───────────────────────────────────────────────────────────────────

/// Nothing underneath a dialog is reachable: a press anywhere but on its buttons
/// changes nothing at all.
pub proof fn a_dialog_owns_every_press(a: App, hits: Seq<Hit>, now: u64)
    requires
        a.floating matches Some(FloatingView::Confirm(_)),
        row_hit(hits, NodeId::OverlayModalAction) is None,
    ensures
        a.pressed_on(hits, now) == (a, false),
{
}

/// A press beside an open menu dismisses it, and only that: nothing underneath
/// is opened or selected, and no action is taken.
pub proof fn a_menu_owns_every_press(a: App, hits: Seq<Hit>, now: u64)
    requires
        a.floating matches Some(FloatingView::Menu { .. }),
        row_hit(hits, NodeId::OverlayMenuItem) is None,
    ensures
        a.pressed_on(hits, now) == (a.unfocused().menu_closed(now).0, true),
        a.pressed_on(hits, now).0.chat.selected_channel == a.chat.selected_channel,
        a.pressed_on(hits, now).0.chat.selected_guild == a.chat.selected_guild,
        a.pressed_on(hits, now).0.chat.composing == a.chat.composing,
        a.pressed_on(hits, now).0.effects == a.effects,
{
}

/// Choosing a row closes the menu at once: it acts, or asks first.
pub proof fn choosing_closes_the_menu(a: App, hits: Seq<Hit>, now: u64)
    requires
        a.floating matches Some(FloatingView::Menu { items, .. }) && (row_hit(
            hits,
            NodeId::OverlayMenuItem,
        ) matches Some(i) && i < items.len()),
    ensures
        !(a.pressed_on(hits, now).0.floating matches Some(FloatingView::Menu { .. })),
{
    let items = a.floating->0->items;
    let i = row_hit(hits, NodeId::OverlayMenuItem)->0;
    lemma_performing_leaves_the_layers(App { floating: None, ..a }, items[i as int].action);
}

/// What cannot be undone takes two presses: the first only asks.
pub proof fn one_press_never_deletes(a: App, hits: Seq<Hit>, now: u64, i: u32)
    requires
        a.floating matches Some(FloatingView::Menu { items, .. }) && i < items.len() && (
        items[i as int].action is Delete || items[i as int].action is LogOut),
        row_hit(hits, NodeId::OverlayMenuItem) == Some(i),
    ensures
        a.pressed_on(hits, now).0.floating matches Some(FloatingView::Confirm(_)),
        a.pressed_on(hits, now).0.effects == a.effects,
        a.pressed_on(hits, now).0.chat == a.chat,
{
}

/// Once answered, either way, the dialog is gone and does not come back.
pub proof fn an_answered_dialog_is_gone(a: App, hits: Seq<Hit>, now: u64, i: u32)
    requires
        a.floating matches Some(FloatingView::Confirm(_)),
        row_hit(hits, NodeId::OverlayModalAction) == Some(i),
        i == CANCEL || i == CONFIRM,
    ensures
        a.pressed_on(hits, now).0.floating is None,
        i == CANCEL ==> a.pressed_on(hits, now).0 == (App { floating: None, ..a }),
{
    let c = a.floating->0->Confirm_0;
    lemma_performing_leaves_the_layers(App { floating: None, ..a }, c.action);
}

proof fn lemma_performing_leaves_the_layers(a: App, d: Deed)
    requires
        a.floating is None,
    ensures
        a.performed(d).0.floating is None,
{
}

/// While the settings are open, a press beside their rows changes nothing.
pub proof fn settings_own_every_press(a: App, hits: Seq<Hit>, now: u64)
    requires
        a.floating is None,
        a.settings.open,
        row_hit(hits, NodeId::OverlayMenuItem) is None,
    ensures
        a.pressed_on(hits, now) == (a, false),
{
}

/// A press behind the open drawer dismisses it and never acts through it.
pub proof fn nothing_behind_the_drawer_acts(a: App, hits: Seq<Hit>, now: u64)
    requires
        a.floating is None,
        !a.settings.open,
        a.shows_main(),
        a.chat.drawer_open,
        !has_hit(hits, NodeId::OverlayDrawer),
    ensures
        a.pressed_on(hits, now) == (a.unfocused().drawer_closed(now).0, true),
        a.pressed_on(hits, now).0.chat.selected_channel == a.chat.selected_channel,
        a.pressed_on(hits, now).0.effects == a.effects,
{
}

/// Under a menu, a dialog or the settings, swipes do nothing.
pub proof fn swipes_stop_at_the_layers(a: App, hits: Seq<Hit>, s: Swipe, now: u64)
    requires
        a.floating is Some || a.settings.open,
    ensures
        a.swiped_on(hits, s, now) == (a, false),
{
}

/// Escape closes one thing at a time: while something floats, the composer keeps
/// its focus and what it is doing.
pub proof fn escape_stops_at_the_topmost(a: App, now: u64)
    requires
        a.floating is Some,
    ensures
        a.escaped(now).1,
        a.escaped(now).0.chat == a.chat,
        a.escaped(now).0.settings == a.settings,
{
}

/// Escape with nothing left to close changes nothing.
pub proof fn escape_ends(a: App, now: u64)
    requires
        a.floating is None,
        !a.settings.open,
        !a.chat.drawer_open,
        !a.chat.member_sheet_open,
        a.chat.composing is New,
        !a.focused(),
    ensures
        a.escaped(now) == (a, false),
{
}

/// Opening a menu leaves a single sheet: the member sheet goes.
pub proof fn one_sheet_at_a_time(a: App, items: Seq<ItemView>, at: Point, now: u64)
    ensures
        !a.menu_opened(items, at, now).chat.member_sheet_open,
        a.menu_opened(items, at, now).floating matches Some(FloatingView::Menu { .. }),
{
}

/// A press on the main screen beside the composer leaves nothing focused:
/// otherwise the keyboard would stay up with no way to dismiss it.
pub proof fn a_press_elsewhere_releases_focus(a: App, hits: Seq<Hit>, now: u64)
    requires
        a.floating is None,
        !a.settings.open,
        a.shows_main(),
        !a.chat.drawer_open,
        !a.chat.member_sheet_open,
        !has_hit(hits, NodeId::ChatInputField),
    ensures
        !a.pressed_on(hits, now).0.focused(),
        a.focused() ==> a.pressed_on(hits, now).1,
{
    lemma_nodes_take_no_focus(a.unfocused(), hits, 0, now);
}

proof fn lemma_nodes_take_no_focus(a: App, hits: Seq<Hit>, k: int, now: u64)
    requires
        !a.focused(),
    ensures
        !a.nodes_pressed(hits, k, now).0.focused(),
    decreases hits.len() - k,
{
    if 0 <= k < hits.len() {
        lemma_nodes_take_no_focus(a, hits, k + 1, now);
    }
}

/// A surface that opens takes the focus away: the drawer, the settings, and the
/// menu of anything but a field.
pub proof fn what_opens_releases_focus(a: App, hits: Seq<Hit>, at: Point, now: u64)
    ensures
        !a.chat.drawer_open && a.drawer_opened(now).1 ==> !a.drawer_opened(now).0.focused(),
        a.settings_opened().1 ==> !a.settings_opened().0.focused(),
        a.floating is None && a.shows_main() && !has_hit(hits, NodeId::ChatInputField) && (
        a.menu_asked(hits, at, now).0.floating is Some) ==> !a.menu_asked(
            hits,
            at,
            now,
        ).0.focused(),
{
}

} // verus!
