//! The state behind the screens, and what the screens share.
//!
//! Nothing here draws, waits or talks to anyone. Presses, keys and news come in
//! as calls; what has to happen outside leaves as [`Effect`]s, oldest first.

use vstd::prelude::*;
use crate::input::{Doc, TextDocument};
use crate::live::Live;
use crate::menu::{opt_floating, Floating, FloatingView, Present, SettingsCategory};
use crate::model::{opt_text, ChannelId};
use crate::session::{
    field_errors_of, shows_main_in, Entry, FieldError, FieldErrorView, Login,
};
use crate::slide::Slide;
use crate::text;
use crate::ui::{opt_key, Key, KeyView, NodeId, UiNode};

verus! {

// ── what surrounds the shell ───────────────────────────────────────────────

/// How many panes the window has room for.
#[derive(Debug, Clone, Copy, PartialEq, Eq, Structural)]
pub enum Panes {
    /// The chat alone.
    One,
    /// The channels and the chat.
    Two,
    /// The guilds, too.
    Three,
    /// The members, too.
    Four,
}

impl Panes {
    pub open spec fn has_guilds(self) -> bool {
        self is Three || self is Four
    }

    pub open spec fn has_channels(self) -> bool {
        !(self is One)
    }

    pub open spec fn has_members(self) -> bool {
        self is Four
    }

    pub open spec fn presents(self) -> Present {
        if self is One {
            Present::Sheet
        } else {
            Present::Popover
        }
    }

    pub fn guilds(self) -> (r: bool)
        ensures
            r == self.has_guilds(),
    {
        matches!(self, Panes::Three | Panes::Four)
    }

    pub fn channels(self) -> (r: bool)
        ensures
            r == self.has_channels(),
    {
        !matches!(self, Panes::One)
    }

    pub fn members(self) -> (r: bool)
        ensures
            r == self.has_members(),
    {
        matches!(self, Panes::Four)
    }

    /// How a menu is presented at this width.
    pub fn present(self) -> (r: Present)
        ensures
            r == self.presents(),
    {
        match self {
            Panes::One => Present::Sheet,
            _ => Present::Popover,
        }
    }
}

/// The edge lengths to ask images for, in real pixels.
#[derive(Debug, Clone, Copy, PartialEq, Eq, Structural)]
pub struct Sizes {
    pub guild_icon: u16,
    pub message_avatar: u16,
    pub reply_avatar: u16,
    pub small_avatar: u16,
}

/// An account that can be switched to.
#[derive(Debug, Clone, PartialEq, Eq)]
pub struct Account {
    pub id: u64,
    pub bot: bool,
    pub display_name: String,
}

/// Where the theme in use comes from.
#[derive(Debug, Clone, PartialEq, Eq)]
pub enum ThemeSource {
    Bundled,
    Saved(String),
}

/// What the shell is told by its surroundings.
#[derive(Debug, Clone, PartialEq, Eq)]
pub struct Given {
    pub panes: Panes,
    /// Whether this is a phone: phones never show the QR.
    pub mobile: bool,
    /// Whether there is anything to fetch with.
    pub online: bool,
    pub sizes: Sizes,
    /// How far from the left edge a drag opens the drawer, in thousandths of a
    /// pixel.
    pub drawer_edge: i64,
    /// The reader's distance from UTC.
    pub utc_offset_minutes: i32,
    /// The time, in UNIX seconds.
    pub now_unix: i64,
    /// What the pointer is over.
    pub hovered: Option<NodeId>,
    pub hovered_key: Option<Key>,
    /// The list the pointer is over.
    pub hovered_scroll: Option<NodeId>,
    pub theme_source: ThemeSource,
    /// What went wrong with fetching images.
    pub asset_warnings: Vec<String>,
    pub accounts: Vec<Account>,
}

impl Given {
    /// Whether the pointer is over this node.
    pub open spec fn over(self, id: NodeId, key: Option<KeyView>) -> bool {
        self.hovered == Some(id) && opt_key(self.hovered_key) == key
    }

    /// What is given before the surroundings have said anything.
    pub open spec fn is_new(self) -> bool {
        &&& self.panes == Panes::Four
        &&& !self.mobile
        &&& !self.online
        &&& self.sizes == (Sizes {
            guild_icon: 64,
            message_avatar: 64,
            reply_avatar: 32,
            small_avatar: 32,
        })
        &&& self.drawer_edge == 24_000
        &&& self.utc_offset_minutes == 0
        &&& self.now_unix == 0
        &&& self.hovered is None
        &&& self.hovered_key is None
        &&& self.hovered_scroll is None
        &&& self.theme_source == ThemeSource::Bundled
        &&& self.asset_warnings@.len() == 0
        &&& self.accounts@.len() == 0
    }

    pub fn new() -> (r: Given)
        ensures
            r.is_new(),
    {
        Given {
            panes: Panes::Four,
            mobile: false,
            online: false,
            sizes: Sizes {
                guild_icon: 64,
                message_avatar: 64,
                reply_avatar: 32,
                small_avatar: 32,
            },
            drawer_edge: 24_000,
            utc_offset_minutes: 0,
            now_unix: 0,
            hovered: None,
            hovered_key: None,
            hovered_scroll: None,
            theme_source: ThemeSource::Bundled,
            asset_warnings: Vec::new(),
            accounts: Vec::new(),
        }
    }

    /// Whether the pointer is over this node.
    pub fn is_over(&self, id: NodeId, key: Option<Key>) -> (r: bool)
        ensures
            r == self.over(id, opt_key(key)),
    {
        match self.hovered {
            Some(h) => h == id && match (self.hovered_key, key) {
                (Some(a), Some(b)) => crate::ui::same_key(a, b),
                (None, None) => true,
                _ => false,
            },
            None => false,
        }
    }
}

// ── spoilers ───────────────────────────────────────────────────────────────

/// Which spoilers stand open, whole messages or single runs.
#[derive(Debug, Clone, PartialEq, Eq)]
pub struct Reveals {
    pub messages: Vec<u64>,
    pub runs: Vec<Spoiler>,
}

/// One covered run of a message.
#[derive(Debug, Clone, Copy, PartialEq, Eq, Structural)]
pub struct Spoiler {
    pub message: u64,
    pub run: u64,
}

/// [`Reveals`] as sets.
pub ghost struct Open {
    pub messages: Set<u64>,
    pub runs: Set<Spoiler>,
}

impl View for Reveals {
    type V = Open;

    open spec fn view(&self) -> Open {
        Open { messages: self.messages@.to_set(), runs: self.runs@.to_set() }
    }
}

impl Open {
    pub open spec fn is_open(self, s: Spoiler) -> bool {
        self.messages.contains(s.message) || self.runs.contains(s)
    }

    /// The run opened, or covered again.
    pub open spec fn toggled(self, s: Spoiler) -> Open {
        Open {
            runs: if self.runs.contains(s) {
                self.runs.remove(s)
            } else {
                self.runs.insert(s)
            },
            ..self
        }
    }
}

impl Reveals {
    pub fn new() -> (r: Reveals)
        ensures
            r@ == (Open { messages: Set::empty(), runs: Set::empty() }),
    {
        let r = Reveals { messages: Vec::new(), runs: Vec::new() };
        assert(r.messages@.to_set() =~= Set::empty());
        assert(r.runs@.to_set() =~= Set::empty());
        r
    }

    /// Whether a run shows: on its own, or with its whole message.
    pub fn is_open(&self, message: u64, run: u64) -> (r: bool)
        ensures
            r == self@.is_open(Spoiler { message, run }),
    {
        let s = Spoiler { message, run };
        let mut i: usize = 0;
        while i < self.messages.len()
            invariant
                i <= self.messages@.len(),
                forall|k: int| 0 <= k < i ==> self.messages@[k] != message,
            decreases self.messages@.len() - i,
        {
            if self.messages[i] == message {
                assert(self.messages@.contains(self.messages@[i as int]));
                return true;
            }
            i += 1;
        }
        let mut j: usize = 0;
        while j < self.runs.len()
            invariant
                j <= self.runs@.len(),
                s == (Spoiler { message, run }),
                forall|k: int| 0 <= k < j ==> self.runs@[k] != s,
            decreases self.runs@.len() - j,
        {
            if self.runs[j] == s {
                assert(self.runs@.contains(self.runs@[j as int]));
                return true;
            }
            j += 1;
        }
        false
    }

    /// Opens a run, or covers it again.
    pub fn toggle(&mut self, message: u64, run: u64)
        ensures
            final(self)@ == old(self)@.toggled(Spoiler { message, run }),
    {
        let s = Spoiler { message, run };
        let ghost before = self.runs@;
        let mut kept: Vec<Spoiler> = Vec::new();
        let mut found = false;
        let mut j: usize = 0;
        while j < self.runs.len()
            invariant
                j <= self.runs@.len(),
                before == self.runs@,
                found == before.take(j as int).contains(s),
                forall|x: Spoiler| #[trigger]
                    kept@.contains(x) <==> before.take(j as int).contains(x) && x != s,
            decreases self.runs@.len() - j,
        {
            let x = self.runs[j];
            let ghost had = kept@;
            assert(before.take(j + 1) =~= before.take(j as int).push(x));
            if x == s {
                found = true;
                assert(before.take(j + 1)[j as int] == s);
            } else {
                kept.push(x);
            }
            proof {
                assert forall|y: Spoiler| #[trigger]
                    kept@.contains(y) <==> before.take(j + 1).contains(y) && y != s by {
                    lemma_push_contains(before.take(j as int), x, y);
                    if x != s {
                        lemma_push_contains(had, x, y);
                    }
                }
                lemma_push_contains(before.take(j as int), x, s);
            }
            j += 1;
        }
        assert(before.take(j as int) =~= before);
        let ghost rest = kept@;
        if found {
            assert(rest.to_set() =~= before.to_set().remove(s));
        } else {
            kept.push(s);
            assert forall|y: Spoiler| #[trigger]
                kept@.to_set().contains(y) == before.to_set().insert(s).contains(y) by {
                lemma_push_contains(rest, s, y);
                assert(rest.contains(y) <==> before.contains(y) && y != s);
            }
            assert(kept@.to_set() =~= before.to_set().insert(s));
        }
        self.runs = kept;
    }
}

proof fn lemma_push_contains(q: Seq<Spoiler>, x: Spoiler, y: Spoiler)
    ensures
        q.push(x).contains(y) <==> q.contains(y) || x == y,
{
    if q.contains(y) {
        let k = choose|k: int| 0 <= k < q.len() && q[k] == y;
        assert(q.push(x)[k] == y);
    }
    if x == y {
        assert(q.push(x)[q.len() as int] == y);
    }
    if q.push(x).contains(y) {
        let k = choose|k: int| 0 <= k < q.push(x).len() && q.push(x)[k] == y;
        if k < q.len() {
            assert(q[k] == y);
        }
    }
}

// ── the chat screen ────────────────────────────────────────────────────────

/// What the composer is doing.
///
/// One field serves all three: new, reply and edit are all "type and press
/// enter", and separate fields would mean retyping after realising it was a
/// reply. Which one is active must be visible — sending a new message while
/// meaning to edit cannot be undone.
#[derive(Debug, Clone, Copy, PartialEq, Eq, Structural)]
pub enum Composing {
    /// Writing something new.
    New,
    /// Replying to a message.
    Reply(u64),
    /// Editing a message.
    Edit(u64),
}

impl Composing {
    pub open spec fn target_spec(self) -> Option<u64> {
        match self {
            Composing::New => None,
            Composing::Reply(id) => Some(id),
            Composing::Edit(id) => Some(id),
        }
    }

    pub fn target(self) -> (r: Option<u64>)
        ensures
            r == self.target_spec(),
    {
        match self {
            Composing::New => None,
            Composing::Reply(id) => Some(id),
            Composing::Edit(id) => Some(id),
        }
    }
}

/// A jump waiting for its messages: fetched around the target when it is not
/// loaded. Dropped when the channel moves on.
#[derive(Debug, Clone, Copy, PartialEq, Eq, Structural)]
pub struct Jump {
    pub channel: ChannelId,
    pub message: u64,
}

/// Main-screen state. Everything here is used by chat code only.
#[derive(Debug)]
pub struct ChatView {
    pub selected_guild: u64,
    pub selected_channel: u64,
    /// Which spoilers stand open.
    pub reveals: Reveals,
    /// What the composer is doing.
    pub composing: Composing,
    /// Whether a reply mentions its target. The default is on.
    pub reply_mention: bool,
    /// Whether the composer has focus.
    pub input_focused: bool,
    /// The composer's contents.
    pub input: TextDocument,
    /// A jump waiting for the next frame: the renderer knows where the message
    /// landed last frame, this layer only knows it was pressed.
    pub pending_reveal: Option<u64>,
    pub pending_jump: Option<Jump>,
    /// The last pressed message, for the screen reader to follow.
    pub a11y_message: Option<u64>,
    /// The navigation drawer, for widths that hide the lists.
    pub drawer_open: bool,
    /// The member list as a bottom sheet, for widths that hide it.
    pub member_sheet_open: bool,
    /// Where the drawer stands. The flag above owns the tree; this owns where
    /// it stands while opening, closing, or following the finger. The flag
    /// flips only when a closing slide lands, so the drawer coasts out instead
    /// of vanishing.
    pub drawer: Slide,
}

/// [`ChatView`] as it is seen from outside.
pub ghost struct Chat {
    pub selected_guild: u64,
    pub selected_channel: u64,
    pub reveals: Open,
    pub composing: Composing,
    pub reply_mention: bool,
    pub input_focused: bool,
    pub input: Doc,
    pub pending_reveal: Option<u64>,
    pub pending_jump: Option<Jump>,
    pub a11y_message: Option<u64>,
    pub drawer_open: bool,
    pub member_sheet_open: bool,
    pub drawer: Slide,
}

impl View for ChatView {
    type V = Chat;

    open spec fn view(&self) -> Chat {
        Chat {
            selected_guild: self.selected_guild,
            selected_channel: self.selected_channel,
            reveals: self.reveals@,
            composing: self.composing,
            reply_mention: self.reply_mention,
            input_focused: self.input_focused,
            input: self.input@,
            pending_reveal: self.pending_reveal,
            pending_jump: self.pending_jump,
            a11y_message: self.a11y_message,
            drawer_open: self.drawer_open,
            member_sheet_open: self.member_sheet_open,
            drawer: self.drawer,
        }
    }
}

/// The chat screen when it is first shown.
pub open spec fn fresh_chat(guild: u64, channel: u64) -> Chat {
    Chat {
        selected_guild: guild,
        selected_channel: channel,
        reveals: Open { messages: Set::empty(), runs: Set::empty() },
        composing: Composing::New,
        reply_mention: true,
        input_focused: false,
        input: Doc::empty(),
        pending_reveal: None,
        pending_jump: None,
        a11y_message: None,
        drawer_open: false,
        member_sheet_open: false,
        drawer: Slide::resting(),
    }
}

impl ChatView {
    pub fn new(guild: u64, channel: u64) -> (r: ChatView)
        ensures
            r@ == fresh_chat(guild, channel),
    {
        ChatView {
            selected_guild: guild,
            selected_channel: channel,
            reveals: Reveals::new(),
            composing: Composing::New,
            reply_mention: true,
            input_focused: false,
            input: TextDocument::new(),
            pending_reveal: None,
            pending_jump: None,
            a11y_message: None,
            drawer_open: false,
            member_sheet_open: false,
            drawer: Slide::new(),
        }
    }
}

// ── the login screen ───────────────────────────────────────────────────────

/// Which login-form field has focus. Only one at a time, and only while a form
/// is on screen.
#[derive(Debug, Clone, Copy, PartialEq, Eq, Structural)]
pub enum LoginField {
    Email,
    Password,
    Totp,
    /// The bot-token form's single field.
    Token,
}

/// A key of the hidden code.
#[derive(Debug, Clone, Copy, PartialEq, Eq, Structural)]
pub enum HiddenKey {
    Up,
    Down,
    Left,
    Right,
    A,
    B,
}

/// Login screen state. Everything here is used by login code only.
#[derive(Debug)]
pub struct LoginView {
    /// Which login-form field has focus, if any.
    pub field: Option<LoginField>,
    /// The form the user is on: it stays put while login runs or fails, so an
    /// error lands back on the same form instead of bouncing to the QR.
    pub form: Option<LoginField>,
    /// The last login failure, shown on the form so the user knows why and can
    /// retry. Cleared by the next attempt or by leaving the form.
    pub error: Option<String>,
    /// Per-field failures from the last attempt. Shown under each named input;
    /// cleared with the general error.
    pub field_errors: Vec<FieldError>,
    /// The login form's email contents. Kept across password retries.
    pub email: TextDocument,
    /// The login form's password, code or token, whichever step is shown.
    pub input: TextDocument,
    /// The hidden code typed on the QR screen so far. Completed, it opens the
    /// bot-token form; anything else resets it.
    pub hidden_code: Vec<HiddenKey>,
}

/// [`LoginView`] as it is seen from outside.
pub ghost struct Form {
    pub field: Option<LoginField>,
    pub form: Option<LoginField>,
    pub error: Option<Seq<char>>,
    pub field_errors: Seq<FieldErrorView>,
    pub email: Doc,
    pub input: Doc,
    pub hidden_code: Seq<HiddenKey>,
}

impl View for LoginView {
    type V = Form;

    open spec fn view(&self) -> Form {
        Form {
            field: self.field,
            form: self.form,
            error: opt_text(self.error),
            field_errors: field_errors_of(self.field_errors@),
            email: self.email@,
            input: self.input@,
            hidden_code: self.hidden_code@,
        }
    }
}

/// The login screen when it is first shown.
pub open spec fn fresh_form() -> Form {
    Form {
        field: None,
        form: None,
        error: None,
        field_errors: seq![],
        email: Doc::empty(),
        input: Doc::empty(),
        hidden_code: seq![],
    }
}

impl LoginView {
    pub fn new() -> (r: LoginView)
        ensures
            r@ == fresh_form(),
    {
        let r = LoginView {
            field: None,
            form: None,
            error: None,
            field_errors: Vec::new(),
            email: TextDocument::new(),
            input: TextDocument::new(),
            hidden_code: Vec::new(),
        };
        assert(field_errors_of(r.field_errors@) =~= seq![]);
        assert(r.hidden_code@ =~= seq![]);
        r
    }
}

// ── the settings screen ────────────────────────────────────────────────────

/// How a plugin is doing.
#[derive(Debug, Clone, Copy, PartialEq, Eq, Structural)]
pub enum PluginStateKind {
    Loaded,
    Disabled,
    Denied,
    NeedsApproval,
    LoadFailed,
}

/// A plugin that is there.
#[derive(Debug, Clone, PartialEq, Eq)]
pub struct PluginState {
    pub id: String,
    pub name: String,
    pub version: String,
    pub state: PluginStateKind,
    /// What it asks to be allowed, in the user's words.
    pub capabilities: Vec<String>,
    /// Whether it says it has a settings page.
    pub has_settings: bool,
}

/// A theme that is there.
#[derive(Debug, Clone, PartialEq, Eq)]
pub struct InstalledTheme {
    pub id: String,
    pub name: String,
    pub version: String,
}

/// A plugin's own settings page.
#[derive(Debug, PartialEq)]
pub struct PluginPage {
    pub plugin: String,
    pub tree: UiNode,
}

/// Where the settings screen stands. Closed most of the time; while open it
/// takes the screen's place under the title bar and owns every press below it,
/// like a menu.
#[derive(Debug)]
pub struct SettingsView {
    pub open: bool,
    pub category: SettingsCategory,
    /// The plugin whose page is showing, if drilled in.
    pub plugin: Option<String>,
    /// That plugin's settings tree, read once per selection.
    pub page: Option<PluginPage>,
    /// The plugin rows, refreshed on open, on actions, and on plugin events.
    pub states: Vec<PluginState>,
    /// Installed themes, refreshed when the screen opens and after a switch.
    pub themes: Vec<InstalledTheme>,
    /// Narrow windows show the menu and the page on separate screens. While
    /// set, the page covers the menu; the back row returns to it.
    pub narrow_page: bool,
}

/// [`SettingsView`] as it is seen from outside.
pub ghost struct Settings {
    pub open: bool,
    pub category: SettingsCategory,
    pub plugin: Option<Seq<char>>,
    pub page: Option<PluginPage>,
    pub states: Vec<PluginState>,
    pub themes: Vec<InstalledTheme>,
    pub narrow_page: bool,
}

impl View for SettingsView {
    type V = Settings;

    open spec fn view(&self) -> Settings {
        Settings {
            open: self.open,
            category: self.category,
            plugin: opt_text(self.plugin),
            page: self.page,
            states: self.states,
            themes: self.themes,
            narrow_page: self.narrow_page,
        }
    }
}

impl SettingsView {
    pub fn new() -> (r: SettingsView)
        ensures
            !r.open,
            r.category == SettingsCategory::Plugins,
            r.plugin is None,
            r.page is None,
            r.states@.len() == 0,
            r.themes@.len() == 0,
            !r.narrow_page,
    {
        SettingsView {
            open: false,
            category: SettingsCategory::Plugins,
            plugin: None,
            page: None,
            states: Vec::new(),
            themes: Vec::new(),
            narrow_page: false,
        }
    }
}

// ── effects ────────────────────────────────────────────────────────────────

/// Something that has to happen outside.
#[derive(Debug, Clone, PartialEq, Eq)]
pub enum Effect {
    /// Send a message, as an answer to one or not.
    Send { channel: u64, text: String, reply_to: Option<u64>, mention: bool },
    EditMessage { channel: u64, message: u64, text: String },
    DeleteMessage { channel: u64, message: u64 },
    MarkRead(u64),
    /// Put this on the clipboard.
    CopyText(String),
    /// Put what is on the clipboard into the focused field.
    Paste,
    OpenLink(String),
    /// Fetch the messages around one.
    FetchAround { channel: u64, message: u64 },
    ToggleFolder(u64),
    SignOut,
    AddAccount,
    SwitchAccount { id: u64, bot: bool },
    /// List plugins and themes anew.
    RefreshSettings,
    LoadPluginPage(String),
    EnablePlugin(String),
    DisablePlugin(String),
    ReloadPlugin(String),
    ReapprovePlugin(String),
    InstallPluginFile,
    UseBundledTheme,
    SelectTheme(String),
    InstallThemeFile,
    ShareLog,
}

/// [`Effect`] with the text as character sequences.
pub ghost enum Doing {
    Send { channel: u64, text: Seq<char>, reply_to: Option<u64>, mention: bool },
    EditMessage { channel: u64, message: u64, text: Seq<char> },
    DeleteMessage { channel: u64, message: u64 },
    MarkRead(u64),
    CopyText(Seq<char>),
    Paste,
    OpenLink(Seq<char>),
    FetchAround { channel: u64, message: u64 },
    ToggleFolder(u64),
    SignOut,
    AddAccount,
    SwitchAccount { id: u64, bot: bool },
    RefreshSettings,
    LoadPluginPage(Seq<char>),
    EnablePlugin(Seq<char>),
    DisablePlugin(Seq<char>),
    ReloadPlugin(Seq<char>),
    ReapprovePlugin(Seq<char>),
    InstallPluginFile,
    UseBundledTheme,
    SelectTheme(Seq<char>),
    InstallThemeFile,
    ShareLog,
}

impl View for Effect {
    type V = Doing;

    open spec fn view(&self) -> Doing {
        match *self {
            Effect::Send { channel, text, reply_to, mention } => Doing::Send {
                channel,
                text: text@,
                reply_to,
                mention,
            },
            Effect::EditMessage { channel, message, text } => Doing::EditMessage {
                channel,
                message,
                text: text@,
            },
            Effect::DeleteMessage { channel, message } => Doing::DeleteMessage { channel, message },
            Effect::MarkRead(c) => Doing::MarkRead(c),
            Effect::CopyText(s) => Doing::CopyText(s@),
            Effect::Paste => Doing::Paste,
            Effect::OpenLink(s) => Doing::OpenLink(s@),
            Effect::FetchAround { channel, message } => Doing::FetchAround { channel, message },
            Effect::ToggleFolder(f) => Doing::ToggleFolder(f),
            Effect::SignOut => Doing::SignOut,
            Effect::AddAccount => Doing::AddAccount,
            Effect::SwitchAccount { id, bot } => Doing::SwitchAccount { id, bot },
            Effect::RefreshSettings => Doing::RefreshSettings,
            Effect::LoadPluginPage(s) => Doing::LoadPluginPage(s@),
            Effect::EnablePlugin(s) => Doing::EnablePlugin(s@),
            Effect::DisablePlugin(s) => Doing::DisablePlugin(s@),
            Effect::ReloadPlugin(s) => Doing::ReloadPlugin(s@),
            Effect::ReapprovePlugin(s) => Doing::ReapprovePlugin(s@),
            Effect::InstallPluginFile => Doing::InstallPluginFile,
            Effect::UseBundledTheme => Doing::UseBundledTheme,
            Effect::SelectTheme(s) => Doing::SelectTheme(s@),
            Effect::InstallThemeFile => Doing::InstallThemeFile,
            Effect::ShareLog => Doing::ShareLog,
        }
    }
}

pub open spec fn effects_of(v: Seq<Effect>) -> Seq<Doing> {
    Seq::new(v.len(), |i: int| v[i]@)
}

/// A notice that goes by itself.
#[derive(Debug, Clone, PartialEq, Eq)]
pub struct Toast {
    pub text: String,
    /// UNIX seconds.
    pub until: i64,
}

/// [`Toast`] with the text as a character sequence.
pub ghost struct ToastView {
    pub text: Seq<char>,
    pub until: i64,
}

impl View for Toast {
    type V = ToastView;

    open spec fn view(&self) -> ToastView {
        ToastView { text: self.text@, until: self.until }
    }
}

pub open spec fn toasts_of(v: Seq<Toast>) -> Seq<ToastView> {
    Seq::new(v.len(), |i: int| v[i]@)
}

/// How many notices stack up.
pub const MAX_TOASTS: usize = 3;

/// How long a notice stays.
pub const TOAST_SECS: i64 = 5;

// ── the shell ──────────────────────────────────────────────────────────────

/// Which surface a closing sheet takes with it.
#[derive(Debug, Clone, Copy, PartialEq, Eq, Structural)]
pub enum SheetCloser {
    Member,
    Menu,
}

/// The whole state.
pub struct Gumicord {
    pub given: Given,
    pub live: Live,
    pub chat: ChatView,
    pub login: Login,
    pub login_view: LoginView,
    pub settings: SettingsView,
    /// What floats above the screen, if anything.
    pub floating: Option<Floating>,
    /// Where the one sheet stands: the member list's, or a menu's.
    pub sheet: Slide,
    /// What a closing sheet takes with it when it lands.
    pub sheet_closing: Option<SheetCloser>,
    pub show_fps: bool,
    pub toasts: Vec<Toast>,
    pub effects: Vec<Effect>,
}

/// [`Gumicord`] as it is seen from outside.
pub ghost struct App {
    pub given: Given,
    pub live: Live,
    pub chat: Chat,
    pub login: Entry,
    pub form: Form,
    pub settings: Settings,
    pub floating: Option<FloatingView>,
    pub sheet: Slide,
    pub sheet_closing: Option<SheetCloser>,
    pub show_fps: bool,
    pub toasts: Seq<ToastView>,
    pub effects: Seq<Doing>,
}

impl View for Gumicord {
    type V = App;

    open spec fn view(&self) -> App {
        App {
            given: self.given,
            live: self.live,
            chat: self.chat@,
            login: self.login@,
            form: self.login_view@,
            settings: self.settings@,
            floating: opt_floating(self.floating),
            sheet: self.sheet,
            sheet_closing: self.sheet_closing,
            show_fps: self.show_fps,
            toasts: toasts_of(self.toasts@),
            effects: effects_of(self.effects@),
        }
    }
}

impl App {
    /// Both slides are within their ends.
    pub open spec fn valid(self) -> bool {
        self.chat.drawer.valid() && self.sheet.valid()
    }

    /// Whether the main screen is up: signed in, or something to show from an
    /// earlier run.
    pub open spec fn shows_main(self) -> bool {
        shows_main_in(self.login) || self.live.guilds@.len() > 0
    }

    /// No text field has focus.
    pub open spec fn unfocused(self) -> App {
        App {
            chat: Chat { input_focused: false, ..self.chat },
            form: Form { field: None, ..self.form },
            ..self
        }
    }

    /// Whether a text field has focus.
    pub open spec fn focused(self) -> bool {
        self.chat.input_focused || self.form.field is Some
    }

    pub open spec fn with_effect(self, e: Doing) -> App {
        App { effects: self.effects.push(e), ..self }
    }

    /// A notice on top; the oldest goes where there are too many.
    pub open spec fn notified(self, s: Seq<char>, now: i64) -> App {
        let t = self.toasts.push(
            ToastView {
                text: s,
                until: if now + TOAST_SECS > i64::MAX {
                    i64::MAX
                } else {
                    (now + TOAST_SECS) as i64
                },
            },
        );
        App {
            toasts: if t.len() > MAX_TOASTS {
                t.skip(t.len() - MAX_TOASTS)
            } else {
                t
            },
            ..self
        }
    }
}

impl App {
    /// Whether nothing was done yet: what is shown is what stands at the start.
    pub open spec fn is_untouched(self) -> bool {
        &&& self.chat == fresh_chat(0, 0)
        &&& self.form == fresh_form()
        &&& !self.settings.open
        &&& self.settings.category == SettingsCategory::Plugins
        &&& self.settings.plugin is None
        &&& self.settings.page is None
        &&& self.settings.states@.len() == 0
        &&& self.settings.themes@.len() == 0
        &&& !self.settings.narrow_page
        &&& self.floating is None
        &&& self.sheet == Slide::resting()
        &&& self.sheet_closing is None
        &&& !self.show_fps
        &&& self.toasts.len() == 0
        &&& self.effects.len() == 0
    }
}

/// The notices that have not expired, in order.
pub open spec fn unexpired(ts: Seq<ToastView>, now: i64) -> Seq<ToastView> {
    ts.filter(|t: ToastView| t.until > now)
}

impl Gumicord {
    /// The shell around a login and what is known from an earlier run.
    pub fn new(given: Given, login: Login, live: Live) -> (r: Gumicord)
        ensures
            r@.given == given,
            r@.live == live,
            r@.login == login@,
            r@.is_untouched(),
            r@.valid(),
    {
        Gumicord {
            given,
            live,
            chat: ChatView::new(0, 0),
            login,
            login_view: LoginView::new(),
            settings: SettingsView::new(),
            floating: None,
            sheet: Slide::new(),
            sheet_closing: None,
            show_fps: false,
            toasts: Vec::new(),
            effects: Vec::new(),
        }
    }

    /// The shell with login skipped and nothing known, for looking at the
    /// screens.
    pub fn demo() -> (r: Gumicord)
        ensures
            r@.shows_main(),
            r@.given.is_new(),
            r@.live.is_new(),
            r@.login == crate::session::untouched(true),
            r@.is_untouched(),
            r@.valid(),
    {
        Gumicord::new(Given::new(), Login::skipped(), Live::new())
    }

    /// Whether the main screen is up.
    pub fn shows_main(&self) -> (r: bool)
        ensures
            r == self@.shows_main(),
    {
        self.login.shows_main() || !self.live.is_empty()
    }

    /// Drops focus from every text field.
    pub fn release_text_focus(&mut self) -> (r: bool)
        ensures
            final(self)@ == old(self)@.unfocused(),
            r == old(self)@.focused(),
    {
        let had = self.chat.input_focused || self.login_view.field.is_some();
        self.chat.input_focused = false;
        self.login_view.field = None;
        had
    }

    /// Asks for something to happen outside.
    pub fn push_effect(&mut self, e: Effect)
        ensures
            final(self)@ == old(self)@.with_effect(e@),
    {
        let ghost before = self.effects@;
        self.effects.push(e);
        assert(effects_of(self.effects@) =~= effects_of(before).push(e@));
    }

    /// What has to happen outside, oldest first.
    pub fn take_effects(&mut self) -> (r: Vec<Effect>)
        ensures
            effects_of(r@) == old(self)@.effects,
            final(self)@ == (App { effects: seq![], ..old(self)@ }),
    {
        let mut r: Vec<Effect> = Vec::new();
        std::mem::swap(&mut r, &mut self.effects);
        assert(effects_of(self.effects@) =~= seq![]);
        r
    }

    /// Shows a notice; the oldest goes where there are too many.
    pub fn notify_toast(&mut self, s: &str, now: i64)
        ensures
            final(self)@ == old(self)@.notified(s@, now),
    {
        let until: i64 = if now > i64::MAX - TOAST_SECS {
            i64::MAX
        } else {
            now + TOAST_SECS
        };
        let ghost before = self.toasts@;
        let ghost app = self@;
        let toast = Toast { text: text::owned(s), until };
        self.toasts.push(toast);
        let ghost all = self.toasts@;
        assert(toasts_of(all) =~= toasts_of(before).push(toast@));
        let ghost mut dropped: int = 0;
        while self.toasts.len() > MAX_TOASTS
            invariant
                0 <= dropped <= all.len(),
                self.toasts@ =~= all.skip(dropped),
                dropped > 0 ==> self.toasts@.len() >= MAX_TOASTS,
                self@ == (App { toasts: toasts_of(self.toasts@), ..app }),
            decreases self.toasts@.len(),
        {
            self.toasts.remove(0);
            proof {
                dropped = dropped + 1;
            }
            assert(self.toasts@ =~= all.skip(dropped));
        }
        assert(toasts_of(self.toasts@) =~= toasts_of(all).skip(dropped));
        assert(toasts_of(all).skip(0) =~= toasts_of(all));
    }

    /// Drops the notices whose time has passed. Says whether there were any.
    pub fn prune_toasts(&mut self, now: i64) -> (r: bool)
        ensures
            final(self)@ == (App { toasts: unexpired(old(self)@.toasts, now), ..old(self)@ }),
            r == (unexpired(old(self)@.toasts, now).len() < old(self)@.toasts.len()),
    {
        let ghost all = self@.toasts;
        let mut kept: Vec<Toast> = Vec::new();
        let mut i: usize = 0;
        assert(toasts_of(kept@) =~= unexpired(all.take(0), now)) by {
            reveal(Seq::filter);
        }
        while i < self.toasts.len()
            invariant
                i <= self.toasts@.len(),
                all == toasts_of(self.toasts@),
                toasts_of(kept@) == unexpired(all.take(i as int), now),
            decreases self.toasts@.len() - i,
        {
            let t = &self.toasts[i];
            let ghost before = kept@;
            proof {
                reveal(Seq::filter);
                assert(all.take(i + 1).drop_last() =~= all.take(i as int));
                assert(all.take(i + 1).last() == t@);
            }
            if t.until > now {
                kept.push(Toast { text: t.text.clone(), until: t.until });
                assert(toasts_of(kept@) =~= toasts_of(before).push(t@));
            }
            i += 1;
        }
        assert(all.take(i as int) =~= all);
        let fewer = kept.len() < self.toasts.len();
        self.toasts = kept;
        fewer
    }
}

/// Never more notices than the limit, whatever is shown.
pub proof fn notices_stay_few(a: App, s: Seq<char>, now: i64)
    requires
        a.toasts.len() <= MAX_TOASTS,
    ensures
        a.notified(s, now).toasts.len() <= MAX_TOASTS,
        a.notified(s, now).toasts.last().text == s,
{
}

/// Pressing a spoiler twice leaves it as it was.
pub proof fn covering_undoes_revealing(o: Open, s: Spoiler)
    ensures
        o.toggled(s).toggled(s) == o,
{
    assert(o.toggled(s).toggled(s).runs =~= o.runs);
}

} // verus!
