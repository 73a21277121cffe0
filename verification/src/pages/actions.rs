//! What can be done from menus, rows and keys, whichever of them asked.

use vstd::prelude::*;
use crate::input::Doc;
use crate::menu::{first_line, one_line, Action, Confirm, ConfirmView, Deed, PREVIEW_LEN};
use crate::model::ChannelId;
use crate::pages::chat::menus::message_at;
use crate::pages::chat::rows::{channel_lines, channel_lines_of, openable, ChannelLine};
use crate::shell::{
    App, Chat, Composing, Doing, Effect, Form, Gumicord, Jump, LoginField, Panes, Settings,
};
use crate::text;
use crate::ui::{Key, NodeId};

verus! {

// ── the focused field ──────────────────────────────────────────────────────

impl App {
    /// The focused field, or the composer, holding something else.
    pub open spec fn with_field(self, d: Doc) -> App {
        match self.form.field {
            Some(LoginField::Email) => App { form: Form { email: d, ..self.form }, ..self },
            Some(_) => App { form: Form { input: d, ..self.form }, ..self },
            None => App { chat: Chat { input: d, ..self.chat }, ..self },
        }
    }

    /// Where typing goes, if anywhere.
    pub open spec fn focused_field(self) -> Option<Doc> {
        if self.focused() {
            Some(self.field_shown())
        } else {
            None
        }
    }

    /// The selected text of the focused field, or of the composer.
    pub open spec fn selected_text(self) -> Seq<char> {
        let d = self.field_shown();
        d.text.subrange(d.selection.start as int, d.selection.end as int)
    }

    /// Typing, and whether it went anywhere.
    pub open spec fn typed(self, s: Seq<char>) -> (App, bool) {
        if self.focused() {
            (self.with_field(self.field_shown().inserted(s)), true)
        } else {
            (self, false)
        }
    }

    pub open spec fn composed_in(self, s: Seq<char>) -> (App, bool) {
        if self.focused() {
            (self.with_field(self.field_shown().composed(s)), true)
        } else {
            (self, false)
        }
    }
}

impl Gumicord {
    /// Where typing goes: the focused login field, else the composer if it has
    /// focus.
    pub fn focused_document(&self) -> (r: Option<&crate::input::TextDocument>)
        ensures
            match r {
                Some(d) => self@.focused_field() == Some(d@),
                None => self@.focused_field() is None,
            },
    {
        if self.chat.input_focused || self.login_view.field.is_some() {
            Some(self.field_doc())
        } else {
            None
        }
    }

    fn insert_in_field(&mut self, s: &str)
        ensures
            final(self)@ == old(self)@.with_field(old(self)@.field_shown().inserted(s@)),
    {
        match self.login_view.field {
            Some(LoginField::Email) => self.login_view.email.insert(s),
            Some(_) => self.login_view.input.insert(s),
            None => self.chat.input.insert(s),
        }
    }

    /// Types into the focused field. Says whether there was one.
    pub fn type_text(&mut self, s: &str) -> (r: bool)
        ensures
            (final(self)@, r) == old(self)@.typed(s@),
    {
        if !self.chat.input_focused && self.login_view.field.is_none() {
            return false;
        }
        self.insert_in_field(s);
        true
    }

    /// Shows what an input method has so far in the focused field.
    pub fn compose_text(&mut self, s: &str) -> (r: bool)
        ensures
            (final(self)@, r) == old(self)@.composed_in(s@),
    {
        if !self.chat.input_focused && self.login_view.field.is_none() {
            return false;
        }
        match self.login_view.field {
            Some(LoginField::Email) => self.login_view.email.set_composition(s),
            Some(_) => self.login_view.input.set_composition(s),
            None => self.chat.input.set_composition(s),
        }
        true
    }

    fn selected_text(&self) -> (r: String)
        ensures
            r@ == self@.selected_text(),
    {
        let d = self.field_doc();
        let body = d.text();
        let sel = d.selection();
        text::piece(text::chars(body.as_str()).as_slice(), sel.start, sel.end)
    }
}

// ── sending ────────────────────────────────────────────────────────────────

impl App {
    /// What sending does outside.
    pub open spec fn sending(self) -> Doing {
        match self.chat.composing {
            Composing::Edit(id) => Doing::EditMessage {
                channel: self.chat.selected_channel,
                message: id,
                text: self.chat.input.text,
            },
            c => Doing::Send {
                channel: self.chat.selected_channel,
                text: self.chat.input.text,
                reply_to: c.target_spec(),
                mention: c is Reply && self.chat.reply_mention,
            },
        }
    }

    /// Pressing enter, and whether it did anything. Blank text is not sent, and
    /// a new message follows whatever was sent.
    pub open spec fn submitted(self) -> (App, bool) {
        if self.form.field is Some || !self.shows_main() {
            self.login_sent()
        } else if text::is_blank(self.chat.input.text) {
            (self, false)
        } else {
            let a = if self.uses_live() {
                self.with_effect(self.sending())
            } else {
                self
            };
            (
                App {
                    chat: Chat {
                        composing: Composing::New,
                        input: Doc::empty(),
                        ..a.chat
                    },
                    ..a
                },
                true,
            )
        }
    }

    /// Shift and enter: a new line. Login fields stay single-line.
    pub open spec fn newline(self) -> (App, bool) {
        if self.form.field is Some || !self.chat.input_focused {
            (self, false)
        } else {
            self.typed("\n"@)
        }
    }

    /// The keyboard's advance button. Without a neighbour forward it acts;
    /// without one back it does nothing.
    pub open spec fn advanced(self, next: bool) -> (App, bool) {
        match self.neighbor(next) {
            Some(field) => (App { form: Form { field: Some(field), ..self.form }, ..self }, true),
            None => if next {
                self.submitted()
            } else {
                (self, false)
            },
        }
    }
}

impl Gumicord {
    /// Sends what was written, or submits the login form.
    pub fn submit(&mut self) -> (r: bool)
        ensures
            (final(self)@, r) == old(self)@.submitted(),
    {
        if self.login_view.field.is_some() || !self.shows_main() {
            return self.submit_login();
        }
        let body = self.chat.input.text();
        if text::blank(text::chars(body.as_str()).as_slice()) {
            return false;
        }
        if !self.live.is_empty() {
            let channel = self.chat.selected_channel;
            let mention = match self.chat.composing {
                Composing::Reply(_) => self.chat.reply_mention,
                _ => false,
            };
            let e = match self.chat.composing {
                Composing::Edit(id) => Effect::EditMessage { channel, message: id, text: body },
                c => Effect::Send { channel, text: body, reply_to: c.target(), mention },
            };
            self.push_effect(e);
        }
        self.chat.composing = Composing::New;
        self.chat.input.take();
        true
    }

    /// Shift and enter is a newline, not a send. Unhandled on login fields, so
    /// the caller falls through to submitting.
    pub fn shift_enter(&mut self) -> (r: bool)
        ensures
            (final(self)@, r) == old(self)@.newline(),
    {
        if self.login_view.field.is_some() || !self.chat.input_focused {
            return false;
        }
        self.type_text("\n")
    }

    /// Moves focus between login fields for the keyboard's advance button. No
    /// neighbour forward acts instead; back from the first field does nothing.
    pub fn focus_neighbor(&mut self, next: bool) -> (r: bool)
        ensures
            (final(self)@, r) == old(self)@.advanced(next),
    {
        let target = match (self.login_view.field, next) {
            (Some(LoginField::Email), true) => Some(LoginField::Password),
            (Some(LoginField::Password), false) => Some(LoginField::Email),
            _ => None,
        };
        match target {
            Some(field) => {
                self.login_view.field = Some(field);
                true
            },
            None => if next {
                self.submit()
            } else {
                false
            },
        }
    }
}

// ── jumping ────────────────────────────────────────────────────────────────

/// What to bring into view.
#[derive(Debug, Clone, Copy, PartialEq, Eq)]
pub struct Reveal {
    pub region: NodeId,
    pub id: NodeId,
    pub key: Key,
}

impl App {
    pub open spec fn loaded(self, id: u64) -> bool {
        message_at(self.messages(), id, 0) is Some
    }

    /// The reader, and the screen reader, taken to a message.
    pub open spec fn revealed(self, id: u64) -> App {
        App {
            chat: Chat { pending_reveal: Some(id), a11y_message: Some(id), ..self.chat },
            ..self
        }
    }

    /// Going to a message: at once where it is loaded, else once it is fetched.
    /// With nothing to fetch with, a notice says so.
    pub open spec fn jumped(self, id: u64) -> App {
        if self.loaded(id) {
            self.revealed(id)
        } else if self.given.online {
            App {
                chat: Chat {
                    pending_jump: Some(Jump { channel: self.channel_id(), message: id }),
                    ..self.chat
                },
                ..self
            }.with_effect(
                Doing::FetchAround { channel: self.chat.selected_channel, message: id },
            )
        } else {
            self.notified("メッセージが見つからない"@, self.given.now_unix)
        }
    }

    /// A waiting jump, once its messages may be there. Moving on drops it.
    pub open spec fn jump_settled(self) -> App {
        match self.chat.pending_jump {
            None => self,
            Some(j) => {
                let dropped = App { chat: Chat { pending_jump: None, ..self.chat }, ..self };
                if j.channel != self.channel_id() {
                    dropped
                } else if self.loaded(j.message) {
                    dropped.revealed(j.message)
                } else {
                    self
                }
            },
        }
    }

    /// The selected channel, where it can be opened, else the first that can.
    pub open spec fn selection_synced(self) -> App {
        let ls = openable(channel_lines(self.live, self.entries()));
        if holds_channel(ls, self.chat.selected_channel) {
            self
        } else {
            App {
                chat: Chat {
                    selected_channel: if ls.len() > 0 {
                        ls[0].id
                    } else {
                        0
                    },
                    ..self.chat
                },
                ..self
            }
        }
    }

    /// A channel opened, and whether it was another one. A waiting jump is
    /// dropped.
    pub open spec fn channel_selected(self, id: u64) -> (App, bool) {
        if id == self.chat.selected_channel {
            (self, false)
        } else {
            (
                App {
                    chat: Chat {
                        selected_channel: id,
                        pending_reveal: None,
                        pending_jump: None,
                        ..self.chat
                    },
                    ..self
                },
                true,
            )
        }
    }

    /// A guild opened, with the first channel that can be.
    pub open spec fn guild_selected(self, id: u64) -> (App, bool) {
        if id == self.chat.selected_guild {
            (self, false)
        } else {
            (
                App {
                    chat: Chat {
                        selected_guild: id,
                        pending_reveal: None,
                        pending_jump: None,
                        ..self.chat
                    },
                    ..self
                }.selection_synced(),
                true,
            )
        }
    }
}

pub open spec fn holds_channel(ls: Seq<ChannelLine>, id: u64) -> bool {
    exists|i: int| 0 <= i < ls.len() && (#[trigger] ls[i]).id == id
}

impl Gumicord {
    fn is_loaded(&self, id: u64) -> (r: bool)
        ensures
            r == self@.loaded(id),
    {
        let c = match self.live.channel(ChannelId::from(self.chat.selected_channel)) {
            Some(c) => c,
            None => return false,
        };
        let mut k: usize = 0;
        while k < c.messages.len()
            invariant
                k <= c.messages@.len(),
                self@.messages() == c.messages@,
                message_at(c.messages@, id, 0) == message_at(c.messages@, id, k as int),
            decreases c.messages@.len() - k,
        {
            if c.messages[k].id.get() == id {
                return true;
            }
            k += 1;
        }
        false
    }

    /// Goes to a message: fetched around where it is not loaded.
    pub fn jump_to_message(&mut self, id: u64) -> (r: bool)
        ensures
            final(self)@ == old(self)@.jumped(id),
            r,
    {
        if self.is_loaded(id) {
            self.chat.pending_reveal = Some(id);
            self.chat.a11y_message = Some(id);
        } else if self.given.online {
            let channel = self.chat.selected_channel;
            self.chat.pending_jump = Some(Jump { channel: ChannelId::from(channel), message: id });
            self.push_effect(Effect::FetchAround { channel, message: id });
        } else {
            let now = self.given.now_unix;
            self.notify_toast("メッセージが見つからない", now);
        }
        true
    }

    /// Settles a waiting jump once its messages may be there.
    pub fn settle_jump(&mut self)
        ensures
            final(self)@ == old(self)@.jump_settled(),
    {
        if let Some(j) = self.chat.pending_jump {
            if j.channel != ChannelId::from(self.chat.selected_channel) {
                self.chat.pending_jump = None;
            } else if self.is_loaded(j.message) {
                self.chat.pending_jump = None;
                self.chat.pending_reveal = Some(j.message);
                self.chat.a11y_message = Some(j.message);
            }
        }
    }

    /// What to bring into view with the next frame. Handed out once.
    pub fn take_reveal(&mut self) -> (r: Option<Reveal>)
        ensures
            match old(self)@.chat.pending_reveal {
                Some(id) => r matches Some(v) && v.region == NodeId::ChatMessageList && v.id
                    == NodeId::ChatMessage && v.key == Key::Id(id),
                None => r is None,
            },
            final(self)@ == (App {
                chat: Chat { pending_reveal: None, ..old(self)@.chat },
                ..old(self)@
            }),
    {
        match self.chat.pending_reveal.take() {
            Some(id) => Some(
                Reveal {
                    region: NodeId::ChatMessageList,
                    id: NodeId::ChatMessage,
                    key: Key::Id(id),
                },
            ),
            None => None,
        }
    }

    /// Moves the selection to a channel that can be opened.
    pub fn sync_selection(&mut self)
        ensures
            final(self)@ == old(self)@.selection_synced(),
    {
        let rows = self.openable_rows();
        let ghost ls = channel_lines_of(rows@);
        let mut i: usize = 0;
        while i < rows.len()
            invariant
                i <= rows@.len(),
                ls == channel_lines_of(rows@),
                self@ == old(self)@,
                ls == openable(channel_lines(old(self)@.live, old(self)@.entries())),
                forall|k: int|
                    0 <= k < i ==> (#[trigger] ls[k]).id != self.chat.selected_channel,
            decreases rows@.len() - i,
        {
            assert(ls[i as int] == rows@[i as int]@);
            if rows[i].id == self.chat.selected_channel {
                assert(ls[i as int].id == self@.chat.selected_channel);
                return;
            }
            i += 1;
        }
        if rows.len() > 0 {
            assert(ls[0] == rows@[0]@);
            self.chat.selected_channel = rows[0].id;
        } else {
            self.chat.selected_channel = 0;
        }
    }

    pub fn select_channel(&mut self, id: u64) -> (r: bool)
        ensures
            (final(self)@, r) == old(self)@.channel_selected(id),
    {
        if id == self.chat.selected_channel {
            return false;
        }
        self.chat.selected_channel = id;
        self.chat.pending_reveal = None;
        self.chat.pending_jump = None;
        true
    }

    pub fn select_guild(&mut self, id: u64) -> (r: bool)
        ensures
            (final(self)@, r) == old(self)@.guild_selected(id),
    {
        if id == self.chat.selected_guild {
            return false;
        }
        self.chat.selected_guild = id;
        self.chat.pending_reveal = None;
        self.chat.pending_jump = None;
        self.sync_selection();
        true
    }
}

// ── actions ────────────────────────────────────────────────────────────────

/// What an action does outside, where that is all it does.
pub open spec fn outside(d: Deed) -> Option<Doing> {
    match d {
        Deed::Copy(s) => Some(Doing::CopyText(s)),
        Deed::Paste => Some(Doing::Paste),
        Deed::MarkRead(id) => Some(Doing::MarkRead(id)),
        Deed::AddAccount => Some(Doing::AddAccount),
        Deed::SwitchAccount { id, bot } => Some(Doing::SwitchAccount { id, bot }),
        Deed::UseBundledTheme => Some(Doing::UseBundledTheme),
        Deed::SelectTheme(id) => Some(Doing::SelectTheme(id)),
        Deed::InstallThemeFile => Some(Doing::InstallThemeFile),
        Deed::InstallPluginFile => Some(Doing::InstallPluginFile),
        Deed::EnablePlugin(id) => Some(Doing::EnablePlugin(id)),
        Deed::DisablePlugin(id) => Some(Doing::DisablePlugin(id)),
        Deed::ReloadPlugin(id) => Some(Doing::ReloadPlugin(id)),
        Deed::ReapprovePlugin(id) => Some(Doing::ReapprovePlugin(id)),
        Deed::ShareLog => Some(Doing::ShareLog),
        _ => None,
    }
}

fn outside_effect(a: &Action) -> (r: Option<Effect>)
    ensures
        match r {
            Some(e) => outside(a@) == Some(e@),
            None => outside(a@) is None,
        },
{
    match a {
        Action::Copy(s) => Some(Effect::CopyText(s.clone())),
        Action::Paste => Some(Effect::Paste),
        Action::MarkRead(id) => Some(Effect::MarkRead(*id)),
        Action::AddAccount => Some(Effect::AddAccount),
        Action::SwitchAccount { id, bot } => Some(Effect::SwitchAccount { id: *id, bot: *bot }),
        Action::UseBundledTheme => Some(Effect::UseBundledTheme),
        Action::SelectTheme(id) => Some(Effect::SelectTheme(id.clone())),
        Action::InstallThemeFile => Some(Effect::InstallThemeFile),
        Action::InstallPluginFile => Some(Effect::InstallPluginFile),
        Action::EnablePlugin(id) => Some(Effect::EnablePlugin(id.clone())),
        Action::DisablePlugin(id) => Some(Effect::DisablePlugin(id.clone())),
        Action::ReloadPlugin(id) => Some(Effect::ReloadPlugin(id.clone())),
        Action::ReapprovePlugin(id) => Some(Effect::ReapprovePlugin(id.clone())),
        Action::ShareLog => Some(Effect::ShareLog),
        _ => None,
    }
}

impl App {
    /// Answering a message: the composer is focused, and the screen reader
    /// follows.
    pub open spec fn replying(self, id: u64) -> App {
        App {
            chat: Chat {
                composing: Composing::Reply(id),
                reply_mention: true,
                input_focused: true,
                a11y_message: Some(id),
                ..self.chat
            },
            ..self
        }
    }

    /// Changing a message: the composer holds what was written. Nothing where
    /// that is not known.
    pub open spec fn editing(self, id: u64) -> (App, bool) {
        match self.body_of(id) {
            None => (self, false),
            Some(body) => (
                App {
                    chat: Chat {
                        composing: Composing::Edit(id),
                        input: Doc::empty().inserted(body),
                        input_focused: true,
                        a11y_message: Some(id),
                        ..self.chat
                    },
                    ..self
                },
                true,
            ),
        }
    }

    /// A message deleted. Deleting what is being edited gives up the edit.
    pub open spec fn deleting(self, id: u64) -> App {
        let a = if self.chat.composing == Composing::Edit(id) {
            self.composing_stopped().0
        } else {
            self
        };
        if self.uses_live() {
            a.with_effect(
                Doing::DeleteMessage { channel: self.chat.selected_channel, message: id },
            )
        } else {
            a
        }
    }

    /// Signing out, where there is anything to sign out with.
    pub open spec fn signed_out(self) -> (App, bool) {
        if self.given.online {
            (self.with_effect(Doing::SignOut), true)
        } else {
            (self, false)
        }
    }

    pub open spec fn with_settings(self, settings: Settings) -> App {
        App { settings, ..self }
    }

    /// Doing something that concerns this side, and whether anything changed.
    pub open spec fn performed_here(self, d: Deed) -> (App, bool) {
        match d {
            Deed::Reply(id) => (self.replying(id), true),
            Deed::Edit(id) => self.editing(id),
            Deed::Delete(id) => (self.deleting(id), true),
            Deed::CopySelection => if self.field_shown().has_selection() {
                (self.with_effect(Doing::CopyText(self.selected_text())), true)
            } else {
                (self, false)
            },
            Deed::Cut => if self.field_shown().has_selection() {
                (
                    self.with_effect(Doing::CopyText(self.selected_text())).with_field(
                        self.field_shown().inserted(seq![]),
                    ),
                    true,
                )
            } else {
                (self, false)
            },
            Deed::SelectAll => (self.with_field(self.field_shown().all_selected()), true),
            Deed::LogOut => self.signed_out(),
            Deed::CloseSettings => self.settings_closed(),
            Deed::SettingsCategory(c) => (
                self.with_settings(
                    Settings {
                        category: c,
                        plugin: None,
                        page: None,
                        narrow_page: self.given.panes is One,
                        ..self.settings
                    },
                ),
                true,
            ),
            Deed::SettingsNarrowBack => (
                self.with_settings(Settings { narrow_page: false, ..self.settings }),
                true,
            ),
            Deed::SettingsPluginBack => (
                self.with_settings(Settings { plugin: None, page: None, ..self.settings }),
                true,
            ),
            Deed::SelectSettingsPlugin(id) => (
                self.with_settings(
                    Settings { plugin: Some(id), page: None, ..self.settings },
                ).with_effect(Doing::LoadPluginPage(id)),
                true,
            ),
            Deed::ToggleFps => (App { show_fps: !self.show_fps, ..self }, true),
            _ => (self, false),
        }
    }

    /// Doing something, and whether anything changed.
    pub open spec fn performed(self, d: Deed) -> (App, bool) {
        match outside(d) {
            Some(e) => (self.with_effect(e), true),
            None => self.performed_here(d),
        }
    }

    /// The dialog an action asks for before it is done. Only for what cannot be
    /// undone: confirming everything would stop the dialog being read at all.
    pub open spec fn confirmation(self, d: Deed) -> Option<ConfirmView> {
        match d {
            Deed::Delete(id) => Some(
                ConfirmView {
                    action: d,
                    title: "メッセージを削除"@,
                    body: "このメッセージを削除しますか？ 取り消せません。"@,
                    preview: match self.body_of(id) {
                        Some(b) => Some(first_line(b, PREVIEW_LEN as int)),
                        None => None,
                    },
                    danger: true,
                },
            ),
            Deed::LogOut => Some(
                ConfirmView {
                    action: d,
                    title: "ログアウト"@,
                    body: "もう一度ログインするには、スマホで QR を読み取る必要があります。"@,
                    preview: None,
                    danger: true,
                },
            ),
            _ => None,
        }
    }

    /// The action of a settings row. Nav and page share one index space; a
    /// narrow page stands alone, behind its back row.
    pub open spec fn row_action(self, index: int) -> Option<Deed> {
        let items = if self.page_alone() {
            seq![self.back_item()] + self.page_items()
        } else {
            self.nav_items() + self.page_items()
        };
        if 0 <= index < items.len() {
            Some(items[index].action)
        } else {
            None
        }
    }

    /// A pressed settings row. A stale index stays put: the list changed under
    /// the press.
    pub open spec fn settings_acted(self, index: int) -> (App, bool) {
        match self.row_action(index) {
            Some(d) => self.performed(d),
            None => (self, true),
        }
    }
}

pub open spec fn opt_confirm(c: Option<Confirm>) -> Option<ConfirmView> {
    match c {
        Some(c) => Some(c@),
        None => None,
    }
}

impl Gumicord {
    fn start_reply(&mut self, id: u64)
        ensures
            final(self)@ == old(self)@.replying(id),
    {
        self.chat.composing = Composing::Reply(id);
        self.chat.reply_mention = true;
        self.chat.input_focused = true;
        self.chat.a11y_message = Some(id);
    }

    fn start_edit(&mut self, id: u64) -> (r: bool)
        ensures
            (final(self)@, r) == old(self)@.editing(id),
    {
        let body = match self.raw_body(id) {
            Some(b) => b,
            None => return false,
        };
        self.chat.composing = Composing::Edit(id);
        self.chat.input.take();
        self.chat.input.insert(body.as_str());
        self.chat.input_focused = true;
        self.chat.a11y_message = Some(id);
        true
    }

    fn delete_message(&mut self, id: u64)
        ensures
            final(self)@ == old(self)@.deleting(id),
    {
        let edited = match self.chat.composing {
            Composing::Edit(e) => e == id,
            _ => false,
        };
        if edited {
            self.stop_composing();
        }
        if !self.live.is_empty() {
            let channel = self.chat.selected_channel;
            self.push_effect(Effect::DeleteMessage { channel, message: id });
        }
    }

    /// Signs out, where there is anything to sign out with.
    pub fn sign_out(&mut self) -> (r: bool)
        ensures
            (final(self)@, r) == old(self)@.signed_out(),
    {
        if !self.given.online {
            return false;
        }
        self.push_effect(Effect::SignOut);
        true
    }

    fn copy_selection(&mut self, cut: bool) -> (r: bool)
        ensures
            (final(self)@, r) == old(self)@.performed(
                if cut {
                    Deed::Cut
                } else {
                    Deed::CopySelection
                },
            ),
    {
        if !self.field_doc().has_selection() {
            return false;
        }
        let s = self.selected_text();
        self.push_effect(Effect::CopyText(s));
        if cut {
            proof {
                reveal_strlit("");
                assert(""@ =~= seq![]);
            }
            self.insert_in_field("");
        }
        true
    }

    fn select_all(&mut self)
        ensures
            final(self)@ == old(self)@.with_field(old(self)@.field_shown().all_selected()),
    {
        match self.login_view.field {
            Some(LoginField::Email) => self.login_view.email.select_all(),
            Some(_) => self.login_view.input.select_all(),
            None => self.chat.input.select_all(),
        }
    }

    fn perform_here(&mut self, action: Action) -> (r: bool)
        ensures
            (final(self)@, r) == old(self)@.performed_here(action@),
    {
        match action {
            Action::Reply(id) => self.start_reply(id),
            Action::Edit(id) => return self.start_edit(id),
            Action::Delete(id) => self.delete_message(id),
            Action::CopySelection => return self.copy_selection(false),
            Action::Cut => return self.copy_selection(true),
            Action::SelectAll => self.select_all(),
            Action::LogOut => return self.sign_out(),
            Action::CloseSettings => return self.close_settings(),
            Action::SettingsCategory(c) => {
                self.settings.category = c;
                self.settings.plugin = None;
                self.settings.page = None;
                self.settings.narrow_page = matches!(self.given.panes, Panes::One);
            },
            Action::SettingsNarrowBack => {
                self.settings.narrow_page = false;
            },
            Action::SettingsPluginBack => {
                self.settings.plugin = None;
                self.settings.page = None;
            },
            Action::SelectSettingsPlugin(id) => {
                self.settings.plugin = Some(id.clone());
                self.settings.page = None;
                self.push_effect(Effect::LoadPluginPage(id));
            },
            Action::ToggleFps => {
                self.show_fps = !self.show_fps;
            },
            _ => return false,
        }
        true
    }

    /// Does something. Says whether anything changed.
    pub fn perform(&mut self, action: Action) -> (r: bool)
        ensures
            (final(self)@, r) == old(self)@.performed(action@),
    {
        match outside_effect(&action) {
            Some(e) => {
                self.push_effect(e);
                true
            },
            None => self.perform_here(action),
        }
    }

    /// The dialog an action asks for before it is done.
    pub fn needs_confirming(&self, action: &Action) -> (r: Option<Confirm>)
        ensures
            opt_confirm(r) == self@.confirmation(action@),
    {
        match action {
            Action::Delete(id) => {
                let preview = match self.raw_body(*id) {
                    Some(b) => Some(one_line(b.as_str(), PREVIEW_LEN)),
                    None => None,
                };
                Some(
                    Confirm {
                        action: Action::Delete(*id),
                        title: text::owned("メッセージを削除"),
                        body: text::owned("このメッセージを削除しますか？ 取り消せません。"),
                        preview,
                        danger: true,
                    },
                )
            },
            Action::LogOut => Some(
                Confirm {
                    action: Action::LogOut,
                    title: text::owned("ログアウト"),
                    body: text::owned(
                        "もう一度ログインするには、スマホで QR を読み取る必要があります。",
                    ),
                    preview: None,
                    danger: true,
                },
            ),
            _ => None,
        }
    }

    /// A pressed settings row.
    pub fn settings_action(&mut self, index: usize) -> (r: bool)
        ensures
            (final(self)@, r) == old(self)@.settings_acted(index as int),
    {
        if self.narrow_settings_page() {
            if index == 0 {
                let back = if self.settings.plugin.is_some() {
                    Action::SettingsPluginBack
                } else {
                    Action::SettingsNarrowBack
                };
                return self.perform(back);
            }
            let items = self.settings_page_items();
            assert(crate::menu::items_of(items@).len() == items@.len());
            if index - 1 < items.len() {
                let a = items[index - 1].action.copy();
                assert(crate::menu::items_of(items@)[index - 1] == items@[index - 1]@);
                return self.perform(a);
            }
            return true;
        }
        let nav = self.settings_nav_items();
        assert(crate::menu::items_of(nav@).len() == nav@.len());
        if index < nav.len() {
            let a = nav[index].action.copy();
            assert(crate::menu::items_of(nav@)[index as int] == nav@[index as int]@);
            return self.perform(a);
        }
        let items = self.settings_page_items();
        assert(crate::menu::items_of(items@).len() == items@.len());
        if index - nav.len() < items.len() {
            let a = items[index - nav.len()].action.copy();
            assert(crate::menu::items_of(items@)[index - nav@.len()] == items@[index
                - nav@.len()]@);
            return self.perform(a);
        }
        true
    }
}

// ── laws ───────────────────────────────────────────────────────────────────

/// Only what cannot be undone asks first, and what is asked about is what was
/// chosen.
pub proof fn only_the_irreversible_asks(a: App, d: Deed)
    ensures
        a.confirmation(d) is Some <==> d is Delete || d is LogOut,
        a.confirmation(d) matches Some(c) ==> c.action == d && c.danger,
{
}

/// Sending leaves an empty composer writing something new; blank text is never
/// sent, and what was being answered or edited stays.
pub proof fn sending_starts_afresh(a: App)
    requires
        a.form.field is None,
        a.shows_main(),
    ensures
        a.submitted().1 <==> !text::is_blank(a.chat.input.text),
        a.submitted().1 ==> a.submitted().0.chat.composing is New
            && a.submitted().0.chat.input == Doc::empty(),
        !a.submitted().1 ==> a.submitted().0 == a,
{
}

/// A stale settings row changes nothing.
pub proof fn a_stale_row_changes_nothing(a: App, index: int)
    requires
        index >= a.nav_items().len() + a.page_items().len(),
        index >= 1 + a.page_items().len(),
    ensures
        a.settings_acted(index) == (a, true),
{
}

/// The selection never comes to rest on a category.
pub proof fn the_selection_can_be_opened(a: App)
    ensures
        openable(channel_lines(a.live, a.entries())).len() > 0 ==> holds_channel(
            openable(channel_lines(a.live, a.entries())),
            a.selection_synced().chat.selected_channel,
        ),
        a.selection_synced().selection_synced() == a.selection_synced(),
{
    let ls = openable(channel_lines(a.live, a.entries()));
    if ls.len() > 0 {
        assert(ls[0].id == ls[0].id);
    }
    assert(a.selection_synced().entries() == a.entries());
}

/// Deleting the message being edited gives up the edit; deleting another does
/// not touch the composer.
pub proof fn deleting_gives_up_its_edit(a: App, id: u64)
    ensures
        a.deleting(id).chat.composing != Composing::Edit(id),
        a.chat.composing != Composing::Edit(id) ==> a.deleting(id).chat == a.chat,
{
}

/// Moving on drops a waiting jump; a jump whose message is there is taken.
pub proof fn a_jump_settles_or_is_dropped(a: App)
    ensures
        a.chat.pending_jump matches Some(j) ==> {
            &&& j.channel != a.channel_id() ==> a.jump_settled().chat.pending_jump is None
                && a.jump_settled().chat.pending_reveal == a.chat.pending_reveal
            &&& j.channel == a.channel_id() && a.loaded(j.message)
                ==> a.jump_settled().chat.pending_reveal == Some(j.message)
        },
{
}

} // verus!
