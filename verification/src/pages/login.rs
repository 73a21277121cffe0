//! The login screens: QR, password, TOTP and token forms.

use vstd::prelude::*;
use crate::input::{Doc, TextDocument};
use crate::live::Live;
use crate::pages::chat::composer::{byte_position, draw_field, drawn};
use crate::session::{
    applied_all, field_errors_of, hint_of, qr_of, Entry, FieldError, FieldErrorView, Order, Session,
    Stage,
};
use crate::shell::{App, Form, Gumicord, HiddenKey, LoginField};
use crate::text;
use crate::ui::{opt_node, Editable, Key, KeyView, Node, NodeId, Span, State, UiNode};

verus! {

// ── what the form does ─────────────────────────────────────────────────────

impl App {
    pub open spec fn with_order(self, o: Order) -> App {
        App { login: Entry { outbox: self.login.outbox.push(o), ..self.login }, ..self }
    }

    /// No failure shown any more.
    pub open spec fn errors_cleared(self) -> App {
        App { form: Form { error: None, field_errors: seq![], ..self.form }, ..self }
    }

    /// The secret used up, and no field focused.
    pub open spec fn form_sent(self) -> App {
        App { form: Form { input: Doc::empty(), field: None, ..self.form }, ..self }
    }

    /// Submitting the active login step, and whether there was anything to send.
    pub open spec fn login_sent(self) -> (App, bool) {
        let a = self.errors_cleared();
        let input = text::trim(self.form.input.text);
        let email = text::trim(self.form.email.text);
        match self.form.field {
            Some(LoginField::Token) => if input.len() == 0 {
                (a, false)
            } else {
                (a.with_order(Order::BotToken { token: input }).form_sent(), true)
            },
            Some(LoginField::Totp) => if input.len() == 0 {
                (a, false)
            } else {
                (a.with_order(Order::Totp { code: input }).form_sent(), true)
            },
            // The password as typed: spaces may belong to it.
            _ => if email.len() == 0 || self.form.input.text.len() == 0 {
                (a, false)
            } else {
                (
                    a.with_order(
                        Order::Password { email, password: self.form.input.text },
                    ).form_sent(),
                    true,
                )
            },
        }
    }

    /// The login form dropped. Phones never show the QR screen, so there it
    /// backs out to the password form.
    pub open spec fn form_left(self) -> App {
        let a = self.with_order(Order::CancelPassword).errors_cleared().form_sent();
        App {
            form: Form {
                form: if self.given.mobile {
                    Some(LoginField::Password)
                } else {
                    None
                },
                ..a.form
            },
            ..a
        }
    }

    /// From the QR screen into the password form.
    pub open spec fn password_chosen(self) -> App {
        App {
            login: Entry { session: Stage::Password, ..self.login },
            form: Form { field: None, form: Some(LoginField::Password), ..self.form },
            ..self
        }
    }

    /// A press of a login button, and whether it did anything.
    pub open spec fn login_pressed(self, slot: Seq<char>) -> (App, bool) {
        if slot == "login_password"@ {
            (self.password_chosen(), true)
        } else if slot == "login_submit"@ {
            self.login_sent()
        } else if slot == "login_back"@ || slot == "login_qr"@ {
            (self.form_left(), true)
        } else if slot == "login_forgot_password"@ || slot == "login_register"@ {
            (self, true)
        } else {
            (self, false)
        }
    }

    /// The field beside the focused one.
    pub open spec fn neighbor(self, next: bool) -> Option<LoginField> {
        match (self.form.field, next) {
            (Some(LoginField::Email), true) => Some(LoginField::Password),
            (Some(LoginField::Password), false) => Some(LoginField::Email),
            _ => None,
        }
    }
}

impl Gumicord {
    /// Submits the active login step. Runs the password flow, hands off a TOTP
    /// code, or logs in with a bot token; nothing to send stays put.
    pub fn submit_login(&mut self) -> (r: bool)
        ensures
            (final(self)@, r) == old(self)@.login_sent(),
    {
        self.login_view.error = None;
        self.login_view.field_errors = Vec::new();
        assert(field_errors_of(self.login_view.field_errors@) =~= seq![]);
        let typed = self.login_view.input.text();
        match self.login_view.field {
            Some(LoginField::Token) => {
                let token = text::owned(text::trimmed(typed.as_str()));
                if text::chars(token.as_str()).len() == 0 {
                    return false;
                }
                self.login.submit_bot_token(token);
            },
            Some(LoginField::Totp) => {
                let code = text::owned(text::trimmed(typed.as_str()));
                if text::chars(code.as_str()).len() == 0 {
                    return false;
                }
                self.login.submit_totp(code);
            },
            _ => {
                let written = self.login_view.email.text();
                let email = text::owned(text::trimmed(written.as_str()));
                if text::chars(email.as_str()).len() == 0 || self.login_view.input.is_empty() {
                    return false;
                }
                // The email is kept for a retry; the password is a secret that
                // has done its job.
                self.login.submit_password(email, typed);
            },
        }
        self.login_view.input.take();
        self.login_view.field = None;
        true
    }

    /// Drops the login form and returns to the QR screen.
    pub fn leave_login_form(&mut self)
        ensures
            final(self)@ == old(self)@.form_left(),
    {
        self.login.cancel_password();
        self.login_view.field = None;
        self.login_view.form = if self.given.mobile {
            Some(LoginField::Password)
        } else {
            None
        };
        self.login_view.error = None;
        self.login_view.field_errors = Vec::new();
        assert(field_errors_of(self.login_view.field_errors@) =~= seq![]);
        self.login_view.input.take();
    }

    /// Acts on a press of a login button. `false` keeps the screen as it was.
    pub fn login_button(&mut self, slot: &str) -> (r: bool)
        ensures
            (final(self)@, r) == old(self)@.login_pressed(slot@),
    {
        if text::same_text(slot, "login_password") {
            self.login.start_password();
            self.login_view.field = None;
            self.login_view.form = Some(LoginField::Password);
            true
        } else if text::same_text(slot, "login_submit") {
            self.submit_login()
        } else if text::same_text(slot, "login_back") || text::same_text(slot, "login_qr") {
            self.leave_login_form();
            true
        } else {
            text::same_text(slot, "login_forgot_password") || text::same_text(
                slot,
                "login_register",
            )
        }
    }
}

// ── failures per field ─────────────────────────────────────────────────────

/// Whether a dotted path names a field, or something inside it.
pub open spec fn path_names(path: Seq<char>, field: Seq<char>) -> bool {
    path == field || (field + "."@).is_prefix_of(path)
}

/// What went wrong with a field, among the first `n` failures.
pub open spec fn failures_of(fs: Seq<FieldErrorView>, field: Seq<char>, n: nat) -> Seq<Seq<char>>
    decreases n,
{
    if n == 0 || n > fs.len() {
        seq![]
    } else {
        let before = failures_of(fs, field, (n - 1) as nat);
        if path_names(fs[n - 1].path, field) {
            before.push(fs[n - 1].detail)
        } else {
            before
        }
    }
}

fn names_path(path: &str, field: &str) -> (r: bool)
    ensures
        r == path_names(path@, field@),
{
    if text::same_text(path, field) {
        return true;
    }
    let dotted = text::joined(field, ".");
    text::has_prefix(text::chars(path).as_slice(), dotted.as_str())
}

impl App {
    /// The line below one login field, where something is wrong with it.
    pub open spec fn field_error_node(self, slot: Seq<char>, field: Seq<char>) -> Option<Node> {
        let fs = failures_of(self.form.field_errors, field, self.form.field_errors.len());
        if fs.len() > 0 {
            Some(
                Node::text(NodeId::AppScreenLoginError, text::listed(fs, " / "@)).with_slot(slot),
            )
        } else {
            None
        }
    }

    /// The line below the form, where the last attempt failed.
    pub open spec fn error_node(self) -> Option<Node> {
        match self.form.error {
            Some(e) => Some(Node::text(NodeId::AppScreenLoginError, e)),
            None => None,
        }
    }
}

impl Gumicord {
    /// The line below one login field. Several failures of one field share it.
    fn login_field_error_node(&self, slot: &'static str, field: &str) -> (r: Option<UiNode>)
        ensures
            opt_node(r) == self@.field_error_node(slot@, field@),
    {
        let es: &Vec<FieldError> = &self.login_view.field_errors;
        let ghost fs = field_errors_of(es@);
        let mut found: Vec<String> = Vec::new();
        let mut i: usize = 0;
        assert(text::strings_of(found@) =~= seq![]);
        while i < es.len()
            invariant
                i <= es@.len(),
                fs == field_errors_of(es@),
                text::strings_of(found@) == failures_of(fs, field@, i as nat),
            decreases es@.len() - i,
        {
            let ghost before = found@;
            assert(fs[i as int] == es@[i as int]@);
            if names_path(es[i].path.as_str(), field) {
                found.push(es[i].detail.clone());
                assert(text::strings_of(found@) =~= text::strings_of(before).push(
                    fs[i as int].detail,
                ));
            }
            i += 1;
        }
        assert(text::strings_of(found@).len() == found@.len());
        if found.len() == 0 {
            return None;
        }
        let line = text::list_all(&found, " / ");
        Some(UiNode::text(NodeId::AppScreenLoginError, line.as_str()).with_slot(slot))
    }

    fn login_error_node(&self) -> (r: Option<UiNode>)
        ensures
            opt_node(r) == self@.error_node(),
    {
        match &self.login_view.error {
            Some(e) => Some(UiNode::text(NodeId::AppScreenLoginError, e.as_str())),
            None => None,
        }
    }
}

// ── fields and buttons ─────────────────────────────────────────────────────

/// A secret field as it is shown: one bullet per character, the caret where it
/// was.
pub open spec fn masked(doc: Doc) -> Doc {
    Doc { text: Seq::new(doc.text.len(), |i: int| '•'), composing: None, ..doc }
}

/// The field a slot names.
pub open spec fn field_named(slot: Seq<char>) -> Option<LoginField> {
    if slot == "email"@ {
        Some(LoginField::Email)
    } else if slot == "password"@ {
        Some(LoginField::Password)
    } else if slot == "totp"@ {
        Some(LoginField::Totp)
    } else if slot == "token"@ {
        Some(LoginField::Token)
    } else {
        None
    }
}

/// The field a slot names.
pub fn login_field_of(slot: &str) -> (r: Option<LoginField>)
    ensures
        r == field_named(slot@),
{
    if text::same_text(slot, "email") {
        Some(LoginField::Email)
    } else if text::same_text(slot, "password") {
        Some(LoginField::Password)
    } else if text::same_text(slot, "totp") {
        Some(LoginField::Totp)
    } else if text::same_text(slot, "token") {
        Some(LoginField::Token)
    } else {
        None
    }
}

impl App {
    /// One editable box. The focused one carries the focus state.
    pub open spec fn field_node(
        self,
        slot: Seq<char>,
        placeholder: Seq<char>,
        doc: Doc,
        mask: bool,
    ) -> Node {
        Node::editable(
            NodeId::AppScreenLoginField,
            drawn(
                if mask {
                    masked(doc)
                } else {
                    doc
                },
                placeholder,
            ),
        ).with_slot(slot).with_state_if(
            self.form.field is Some && self.form.field == field_named(slot),
            State::Focus,
        )
    }

    pub open spec fn text_button(self, label: Seq<char>, slot: Seq<char>) -> Node {
        Node::new(NodeId::PrimitiveButton).with_slot(slot).with_state_if(
            self.given.over(NodeId::PrimitiveButton, Some(KeyView::Slot(slot))),
            State::Hover,
        ).child(Node::text(NodeId::PrimitiveText, label))
    }
}

/// A bullet-substituted view of a secret field: one `•` per character, with
/// caret and selection remapped so the caret sits in the right place.
fn draw_masked(doc: &TextDocument, placeholder: String) -> (r: Editable)
    ensures
        r@ == drawn(masked(doc@), placeholder@),
{
    let body = doc.text();
    let n = text::chars(body.as_str()).len();
    let mut bullets: Vec<char> = Vec::new();
    let mut i: usize = 0;
    while i < n
        invariant
            i <= n,
            n == doc@.text.len(),
            bullets@ =~= masked(doc@).text.take(i as int),
        decreases n - i,
    {
        bullets.push('•');
        i += 1;
    }
    assert(bullets@ =~= masked(doc@).text);
    let sel = doc.selection();
    let selection = Span {
        start: byte_position(&bullets, sel.start),
        end: byte_position(&bullets, sel.end),
    };
    Editable {
        text: text::string(bullets.as_slice()),
        caret: selection.end,
        selection,
        composing: None,
        placeholder,
    }
}

impl Gumicord {
    /// One editable box on the login form. When `mask` is true the text is
    /// replaced by bullets while the real content stays in `doc`.
    fn login_field(
        &self,
        slot: &'static str,
        placeholder: &str,
        doc: &TextDocument,
        mask: bool,
    ) -> (r: UiNode)
        ensures
            r@ == self@.field_node(slot@, placeholder@, doc@, mask),
    {
        let shown = if mask {
            draw_masked(doc, text::owned(placeholder))
        } else {
            draw_field(doc, text::owned(placeholder))
        };
        let focused = match (self.login_view.field, login_field_of(slot)) {
            (Some(a), Some(b)) => a == b,
            _ => false,
        };
        UiNode::editable(NodeId::AppScreenLoginField, shown).with_slot(slot).with_state_if(
            focused,
            State::Focus,
        )
    }

    fn login_secondary(&self, label: &str, slot: &'static str) -> (r: UiNode)
        ensures
            r@ == self@.text_button(label@, slot@),
    {
        UiNode::new(NodeId::PrimitiveButton).with_slot(slot).with_state_if(
            self.given.is_over(NodeId::PrimitiveButton, Some(Key::Slot(slot))),
            State::Hover,
        ).child(UiNode::text(NodeId::PrimitiveText, label))
    }
}

// ── the screen ─────────────────────────────────────────────────────────────

/// A small label above a login field.
pub open spec fn label_node(s: Seq<char>) -> Node {
    Node::text(NodeId::AppScreenLoginLabel, s)
}

fn login_label(s: &str) -> (r: UiNode)
    ensures
        r@ == label_node(s@),
{
    UiNode::text(NodeId::AppScreenLoginLabel, s)
}

/// The centred card around a form.
pub open spec fn card_node(form: Node) -> Node {
    Node::new(NodeId::AppScreenLoginCard).child(form)
}

fn login_card(form: UiNode) -> (r: UiNode)
    ensures
        r@ == card_node(form@),
{
    UiNode::new(NodeId::AppScreenLoginCard).child(form)
}

impl App {
    /// Which form is up. TOTP and token steps always follow the session; a
    /// chosen password form stays up while the login runs or even fails, so its
    /// error is shown on the form.
    pub open spec fn form_shown(self) -> Option<LoginField> {
        match self.login.session {
            Stage::PasswordTotp => Some(LoginField::Totp),
            Stage::Token => Some(LoginField::Token),
            s => match self.form.form {
                Some(f) => Some(f),
                None => if s is Password {
                    Some(LoginField::Password)
                } else {
                    None
                },
            },
        }
    }

    /// The line on the login screen; the notice leads when there is one.
    pub open spec fn login_hint(self) -> Seq<char> {
        match self.login.notice {
            Some(n) => n + "。"@ + hint_of(self.login.session),
            None => hint_of(self.login.session),
        }
    }

    pub open spec fn password_form_node(self) -> Node {
        Node::new(NodeId::LayoutColumn).with_slot("list"@).child(
            Node::text(NodeId::AppScreenLoginTitle, "Discordにログイン"@),
        ).child(label_node("メールアドレス"@)).child(
            self.field_node("email"@, "メールアドレス"@, self.form.email, false),
        ).child_opt(self.field_error_node("login_error_email"@, "login"@)).child(
            label_node("パスワード"@),
        ).child(self.field_node("password"@, "パスワード"@, self.form.input, true)).child_opt(
            self.field_error_node("login_error_password"@, "password"@),
        ).child(
            Node::text(
                NodeId::AppScreenLoginForgot,
                "パスワードを忘れた場合"@,
            ).with_slot("login_forgot_password"@),
        ).child_opt(self.error_node()).child(
            self.text_button("ログイン"@, "login_submit"@),
        ).child(Node::text(NodeId::AppScreenLoginDivider, "または"@)).child_if(
            !self.given.mobile,
            Node::new(NodeId::AppScreenLoginQrButton).with_slot("login_qr"@).child(
                Node::text(NodeId::PrimitiveText, "QRコードでログイン"@),
            ),
        ).child(
            Node::text(
                NodeId::AppScreenLoginRegister,
                "アカウントを作成"@,
            ).with_slot("login_register"@),
        )
    }

    pub open spec fn totp_form_node(self) -> Node {
        Node::new(NodeId::LayoutColumn).with_slot("list"@).child(
            Node::text(NodeId::AppScreenLoginTitle, "認証コードを入力"@),
        ).child(label_node("認証コード"@)).child(
            self.field_node("totp"@, "認証コード"@, self.form.input, false),
        ).child_opt(self.field_error_node("login_error_code"@, "code"@)).child_opt(
            self.error_node(),
        ).child(self.text_button("ログイン"@, "login_submit"@)).child(
            self.text_button("戻る"@, "login_back"@),
        )
    }

    pub open spec fn token_form_node(self) -> Node {
        Node::new(NodeId::LayoutColumn).with_slot("list"@).child(
            Node::text(NodeId::AppScreenLoginTitle, "ボットトークンでログイン"@),
        ).child(label_node("トークン"@)).child(
            self.field_node("token"@, "トークン"@, self.form.input, false),
        ).child_opt(self.error_node()).child(
            self.text_button("ログイン"@, "login_submit"@),
        ).child(self.text_button("戻る"@, "login_back"@))
    }

    pub open spec fn qr_screen_node(self) -> Node {
        let qr = match qr_of(self.login.session) {
            Some(url) => Some(Node::qr(NodeId::PrimitiveQr, url)),
            None => None,
        };
        Node::new(NodeId::LayoutRow).child(Node::new(NodeId::LayoutSpacer)).child(
            Node::new(NodeId::LayoutColumn).with_slot("qr_column"@).child(
                Node::text(NodeId::AppScreenLoginTitle, "QR コードでログイン"@),
            ).child_opt(qr).child(
                Node::text(NodeId::AppScreenLoginHint, self.login_hint()),
            ).child(self.text_button("パスワードでログイン"@, "login_password"@)),
        ).child(Node::new(NodeId::LayoutSpacer))
    }

    /// The login screen: a QR by default, the password form when that was
    /// chosen, or the step that login asks for.
    pub open spec fn login_node(self) -> Node {
        Node::new(NodeId::AppScreenLogin).child(
            match self.form_shown() {
                Some(LoginField::Email) | Some(LoginField::Password) => card_node(
                    self.password_form_node(),
                ),
                Some(LoginField::Totp) => card_node(self.totp_form_node()),
                Some(LoginField::Token) => card_node(self.token_form_node()),
                None => self.qr_screen_node(),
            },
        )
    }
}

impl Gumicord {
    fn password_form(&self) -> (r: UiNode)
        ensures
            r@ == self@.password_form_node(),
    {
        // No QR screen on phones, so nowhere to go back to.
        let qr = if !self.given.mobile {
            Some(
                UiNode::new(NodeId::AppScreenLoginQrButton).with_slot("login_qr").child(
                    UiNode::text(NodeId::PrimitiveText, "QRコードでログイン"),
                ),
            )
        } else {
            None
        };
        UiNode::new(NodeId::LayoutColumn).with_slot("list").child(
            UiNode::text(NodeId::AppScreenLoginTitle, "Discordにログイン"),
        ).child(login_label("メールアドレス")).child(
            self.login_field("email", "メールアドレス", &self.login_view.email, false),
        ).child_opt(self.login_field_error_node("login_error_email", "login")).child(
            login_label("パスワード"),
        ).child(
            self.login_field("password", "パスワード", &self.login_view.input, true),
        ).child_opt(self.login_field_error_node("login_error_password", "password")).child(
            UiNode::text(
                NodeId::AppScreenLoginForgot,
                "パスワードを忘れた場合",
            ).with_slot("login_forgot_password"),
        ).child_opt(self.login_error_node()).child(
            self.login_secondary("ログイン", "login_submit"),
        ).child(UiNode::text(NodeId::AppScreenLoginDivider, "または")).child_opt(qr).child(
            UiNode::text(
                NodeId::AppScreenLoginRegister,
                "アカウントを作成",
            ).with_slot("login_register"),
        )
    }

    fn totp_form(&self) -> (r: UiNode)
        ensures
            r@ == self@.totp_form_node(),
    {
        UiNode::new(NodeId::LayoutColumn).with_slot("list").child(
            UiNode::text(NodeId::AppScreenLoginTitle, "認証コードを入力"),
        ).child(login_label("認証コード")).child(
            self.login_field("totp", "認証コード", &self.login_view.input, false),
        ).child_opt(self.login_field_error_node("login_error_code", "code")).child_opt(
            self.login_error_node(),
        ).child(self.login_secondary("ログイン", "login_submit")).child(
            self.login_secondary("戻る", "login_back"),
        )
    }

    fn token_form(&self) -> (r: UiNode)
        ensures
            r@ == self@.token_form_node(),
    {
        UiNode::new(NodeId::LayoutColumn).with_slot("list").child(
            UiNode::text(NodeId::AppScreenLoginTitle, "ボットトークンでログイン"),
        ).child(login_label("トークン")).child(
            self.login_field("token", "トークン", &self.login_view.input, false),
        ).child_opt(self.login_error_node()).child(
            self.login_secondary("ログイン", "login_submit"),
        ).child(self.login_secondary("戻る", "login_back"))
    }

    fn qr_screen(&self) -> (r: UiNode)
        ensures
            r@ == self@.qr_screen_node(),
    {
        let qr = match self.login.session().qr() {
            Some(url) => Some(UiNode::qr(NodeId::PrimitiveQr, url)),
            None => None,
        };
        let hint = self.login.hint();
        UiNode::new(NodeId::LayoutRow).child(UiNode::new(NodeId::LayoutSpacer)).child(
            UiNode::new(NodeId::LayoutColumn).with_slot("qr_column").child(
                UiNode::text(NodeId::AppScreenLoginTitle, "QR コードでログイン"),
            ).child_opt(qr).child(UiNode::text(NodeId::AppScreenLoginHint, hint.as_str())).child(
                self.login_secondary("パスワードでログイン", "login_password"),
            ),
        ).child(UiNode::new(NodeId::LayoutSpacer))
    }

    /// The login screen. Shows a QR by default, the password form when that was
    /// chosen, or the step that login asks for.
    pub fn login_screen(&self) -> (r: UiNode)
        ensures
            r@ == self@.login_node(),
    {
        let form = match self.login.session() {
            Session::PasswordTotp => Some(LoginField::Totp),
            Session::Token => Some(LoginField::Token),
            s => match self.login_view.form {
                Some(f) => Some(f),
                None => match s {
                    Session::Password => Some(LoginField::Password),
                    _ => None,
                },
            },
        };
        let inner = match form {
            Some(LoginField::Email) | Some(LoginField::Password) => login_card(
                self.password_form(),
            ),
            Some(LoginField::Totp) => login_card(self.totp_form()),
            Some(LoginField::Token) => login_card(self.token_form()),
            None => self.qr_screen(),
        };
        UiNode::new(NodeId::AppScreenLogin).child(inner)
    }
}

// ── the hidden code ────────────────────────────────────────────────────────

/// The code that opens the bot-token form.
pub open spec fn hidden_code() -> Seq<HiddenKey> {
    seq![
        HiddenKey::Up,
        HiddenKey::Up,
        HiddenKey::Down,
        HiddenKey::Down,
        HiddenKey::Left,
        HiddenKey::Right,
        HiddenKey::Left,
        HiddenKey::Right,
        HiddenKey::B,
        HiddenKey::A,
    ]
}

fn hidden_key_at(i: usize) -> (r: HiddenKey)
    requires
        i < 10,
    ensures
        r == hidden_code()[i as int],
{
    match i {
        0 | 1 => HiddenKey::Up,
        2 | 3 => HiddenKey::Down,
        4 | 6 => HiddenKey::Left,
        5 | 7 => HiddenKey::Right,
        8 => HiddenKey::B,
        _ => HiddenKey::A,
    }
}

impl App {
    /// A key of the hidden code, and whether it was taken: only on the QR
    /// screen. A stray key starts the code over; the whole code opens the form.
    pub open spec fn hidden_typed(self, key: HiddenKey) -> (App, bool) {
        if !(self.login.session is WaitingForScan) || self.form_shown() is Some {
            (self, false)
        } else {
            let n = self.form.hidden_code.len();
            if n >= hidden_code().len() || hidden_code()[n as int] != key {
                (App { form: Form { hidden_code: seq![], ..self.form }, ..self }, true)
            } else if n + 1 < hidden_code().len() {
                (
                    App {
                        form: Form {
                            hidden_code: self.form.hidden_code.push(key),
                            ..self.form
                        },
                        ..self
                    },
                    true,
                )
            } else {
                (
                    App {
                        login: Entry { session: Stage::Token, ..self.login },
                        form: Form {
                            hidden_code: seq![],
                            field: Some(LoginField::Token),
                            ..self.form
                        },
                        ..self
                    },
                    true,
                )
            }
        }
    }
}

impl Gumicord {
    /// Takes a key of the hidden code. Says whether it was taken.
    pub fn hidden_key(&mut self, key: HiddenKey) -> (r: bool)
        ensures
            (final(self)@, r) == old(self)@.hidden_typed(key),
    {
        let on_qr = match self.login.session() {
            Session::WaitingForScan { .. } => self.login_view.form.is_none(),
            _ => false,
        };
        if !on_qr {
            return false;
        }
        let n = self.login_view.hidden_code.len();
        if n >= 10 || hidden_key_at(n) != key {
            self.login_view.hidden_code = Vec::new();
            assert(self.login_view.hidden_code@ =~= seq![]);
        } else if n + 1 < 10 {
            self.login_view.hidden_code.push(key);
        } else {
            self.login_view.hidden_code = Vec::new();
            assert(self.login_view.hidden_code@ =~= seq![]);
            self.login.start_token();
            self.login_view.field = Some(LoginField::Token);
        }
        true
    }
}

// ── news from the background ───────────────────────────────────────────────

/// Why the client signed out on its own.
pub const SESSION_ENDED: &'static str = "セッションが無効になったため、ログアウトしました";

impl App {
    /// Login after everything that arrived was taken in.
    pub open spec fn login_polled(self) -> Entry {
        applied_all(
            (Entry { inbox: seq![], ..self.login }),
            self.login.inbox,
            self.login.inbox.len(),
        )
    }

    /// Whether a session ended while something from it was still on screen.
    pub open spec fn stranded(self) -> bool {
        self.login_polled().ended && self.live.guilds@.len() > 0
    }

    /// Login after waking: what the form shows was handed over, and the end of a
    /// session leads with its reason, where there was one to end.
    pub open spec fn login_woken(self) -> Entry {
        let l = self.login_polled();
        Entry {
            ended: false,
            field_errors: seq![],
            notice: if self.stranded() {
                Some(SESSION_ENDED@)
            } else {
                l.notice
            },
            ..l
        }
    }

    pub open spec fn form_woken(self) -> Form {
        let l = self.login_polled();
        Form {
            field_errors: if l.field_errors.len() > 0 {
                l.field_errors
            } else {
                self.form.field_errors
            },
            error: match l.session {
                Stage::Failed(e) => if self.login.inbox.len() > 0 || l.field_errors.len() > 0 {
                    Some(e)
                } else {
                    self.form.error
                },
                _ => self.form.error,
            },
            ..self.form
        }
    }
}

impl Gumicord {
    /// Takes in what the background reported. A session that ended takes what it
    /// left on screen with it: nothing could ever refresh that. Says whether
    /// there is anything to redraw.
    pub fn wake(&mut self) -> (r: bool)
        ensures
            r == (old(self)@.login.inbox.len() > 0 || old(self)@.login_polled().ended || old(
                self,
            )@.login_polled().field_errors.len() > 0),
            final(self)@ == (App {
                login: old(self)@.login_woken(),
                form: old(self)@.form_woken(),
                live: final(self)@.live,
                ..old(self)@
            }),
            old(self)@.stranded() ==> final(self)@.live.guilds@.len() == 0
                && final(self)@.live.sidebar@.len() == 0 && final(self)@.live.channels@.len() == 0
                && final(self)@.live.seen@.len() == 0 && final(self)@.live.collapsed@.len() == 0
                && final(self)@.live.link_hint is None && final(self)@.live.status is None,
            !old(self)@.stranded() ==> final(self)@.live == old(self)@.live,
    {
        let polled = self.login.poll();
        let errors = self.login.take_field_errors();
        let ended = self.login.take_ended();
        assert(field_errors_of(errors@).len() == errors@.len());
        let failed_fields = errors.len() > 0;
        if failed_fields {
            self.login_view.field_errors = errors;
        }
        if polled || failed_fields {
            if let Session::Failed(e) = self.login.session() {
                self.login_view.error = Some(e.clone());
            }
        }
        if ended && !self.live.is_empty() {
            self.live = Live::new();
            self.login.set_notice(SESSION_ENDED);
        }
        polled || ended || failed_fields
    }
}

/// A session that ended never strands the app behind what it left on screen, and
/// the login screen says why; a first start blames nothing.
pub proof fn an_ended_session_is_explained(a: App)
    ensures
        a.stranded() ==> a.login_woken().notice == Some(SESSION_ENDED@),
        a.live.guilds@.len() == 0 ==> a.login_woken().notice == a.login_polled().notice,
{
}

// ── laws ───────────────────────────────────────────────────────────────────

/// What is sent to log in is never blank, a secret leaves the form with it, and
/// nothing to send sends nothing.
pub proof fn secrets_leave_with_the_form(a: App)
    ensures
        a.login_sent().1 ==> a.login_sent().0.form.input == Doc::empty()
            && a.login_sent().0.form.field is None && a.login_sent().0.login.outbox.len()
            == a.login.outbox.len() + 1,
        !a.login_sent().1 ==> a.login_sent().0.login == a.login && a.login_sent().0.form.input
            == a.form.input,
        a.login_sent().0.form.email == a.form.email,
{
}

/// The second factor is asked for even while the password form is pinned.
pub proof fn a_second_factor_is_always_shown(a: App)
    requires
        a.login.session is PasswordTotp,
    ensures
        a.form_shown() == Some(LoginField::Totp),
        a.login_node() == Node::new(NodeId::AppScreenLogin).child(card_node(a.totp_form_node())),
{
}

/// A pinned password form survives a failed login: its error lands there.
pub proof fn a_failure_stays_on_the_form(a: App)
    requires
        a.login.session is Failed,
        a.form.form == Some(LoginField::Password),
    ensures
        a.form_shown() == Some(LoginField::Password),
{
}

/// A masked field shows as many bullets as it has characters, and nothing of
/// what was typed.
pub proof fn masking_hides_the_text(a: Doc, b: Doc)
    requires
        a.text.len() == b.text.len(),
        a.selection == b.selection,
    ensures
        masked(a) == masked(b),
        masked(a).text.len() == a.text.len(),
{
    assert(masked(a).text =~= masked(b).text);
}

/// Where there is no QR yet, none is shown.
pub proof fn no_qr_before_there_is_one(a: App)
    requires
        qr_of(a.login.session) is None,
    ensures
        a.qr_screen_node().children[1].children.len() == 3,
{
}

} // verus!
