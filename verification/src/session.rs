//! Login state and the decisions that advance it.
//!
//! QR login is the default because it never raises a captcha. A password path
//! borrows a web view for that; QR stays the default either way.
//!
//! The calls to the server and the waiting happen elsewhere: what comes back
//! is handed in here as events, and what to do next is handed out. Wakes
//! coalesce, so always drain the events rather than reading one.
//!
//! On start a stored token is tried first, and discarded the moment it fails
//! — keeping it means repeating the same failure on every later start before
//! falling back to the QR anyway. Where the OS cannot encrypt it, nothing is
//! stored: asking each time beats a plaintext token on disk.

use vstd::prelude::*;
use vstd::string::*;
use crate::gateway::proto::{from_utf8_lossy, utf8_lossy};
use crate::gateway::remote_auth::{
    fault_text, AuthEvent, AuthFault, RemoteAuthError, RemoteAuthEvent, ScannedUser, ScannedView,
};
use crate::model::{opt_text, user_name, CurrentUser, CurrentUserView, Token};
use crate::text;

verus! {

/// Reconnect backoff after a failure; doubles up to the maximum.
pub const RETRY_MIN_MS: u64 = 2_000;

pub const RETRY_MAX_MS: u64 = 60_000;

// ── captchas ───────────────────────────────────────────────────────────────

/// A captcha the server asks for.
#[derive(Debug, Clone, PartialEq, Eq)]
pub struct CaptchaChallenge {
    pub sitekey: Option<String>,
    pub service: Option<String>,
    pub rqdata: Option<String>,
    pub rqtoken: Option<String>,
    pub session_id: Option<String>,
}

/// [`CaptchaChallenge`] with the text as character sequences.
pub ghost struct ChallengeView {
    pub sitekey: Option<Seq<char>>,
    pub service: Option<Seq<char>>,
    pub rqdata: Option<Seq<char>>,
    pub rqtoken: Option<Seq<char>>,
    pub session_id: Option<Seq<char>>,
}

impl View for CaptchaChallenge {
    type V = ChallengeView;

    open spec fn view(&self) -> ChallengeView {
        ChallengeView {
            sitekey: opt_text(self.sitekey),
            service: opt_text(self.service),
            rqdata: opt_text(self.rqdata),
            rqtoken: opt_text(self.rqtoken),
            session_id: opt_text(self.session_id),
        }
    }
}

pub open spec fn opt_challenge(c: Option<CaptchaChallenge>) -> Option<ChallengeView> {
    match c {
        Some(c) => Some(c@),
        None => None,
    }
}

/// A captcha's solution.
#[derive(Debug, Clone, PartialEq, Eq)]
pub struct SolvedCaptcha {
    pub key: String,
    pub rqtoken: Option<String>,
    pub session_id: Option<String>,
}

/// [`SolvedCaptcha`] with the text as character sequences.
pub ghost struct SolvedView {
    pub key: Seq<char>,
    pub rqtoken: Option<Seq<char>>,
    pub session_id: Option<Seq<char>>,
}

impl View for SolvedCaptcha {
    type V = SolvedView;

    open spec fn view(&self) -> SolvedView {
        SolvedView {
            key: self.key@,
            rqtoken: opt_text(self.rqtoken),
            session_id: opt_text(self.session_id),
        }
    }
}

pub open spec fn opt_solved(s: Option<SolvedCaptcha>) -> Option<SolvedView> {
    match s {
        Some(s) => Some(s@),
        None => None,
    }
}

// ── the session ────────────────────────────────────────────────────────────

/// What remains after a successful login.
#[derive(Clone, PartialEq, Eq)]
pub struct LoggedIn {
    pub me: CurrentUser,
    pub token: Token,
    /// Whether the token is a bot's.
    pub bot: bool,
}

/// [`LoggedIn`] with the text as character sequences.
pub ghost struct LoggedInView {
    pub me: CurrentUserView,
    pub token: Seq<char>,
    pub bot: bool,
}

impl View for LoggedIn {
    type V = LoggedInView;

    open spec fn view(&self) -> LoggedInView {
        LoggedInView { me: self.me@, token: self.token@, bot: self.bot }
    }
}

/// How far login has got. The only thing the screen consults.
#[derive(Clone, PartialEq, Eq)]
pub enum Session {
    /// Connecting; no QR yet.
    Connecting,
    /// Showing the QR, waiting for a scan.
    WaitingForScan {
        /// The URL the QR encodes.
        url: String,
        /// Who scanned it. Scanned is not yet approved.
        scanned: Option<ScannedUser>,
    },
    /// Asking for email and password.
    Password,
    /// Asking for a TOTP code to finish a password login.
    PasswordTotp,
    /// Asking for a bot token, opened by a hidden code on the QR screen.
    Token,
    /// Approved; exchanging the ticket for a token.
    Exchanging,
    LoggedIn(Box<LoggedIn>),
    /// Failed, and retryable, so the reason is shown while waiting.
    Failed(String),
}

/// [`Session`] with the text as character sequences.
pub ghost enum Stage {
    Connecting,
    WaitingForScan { url: Seq<char>, scanned: Option<ScannedView> },
    Password,
    PasswordTotp,
    Token,
    Exchanging,
    LoggedIn(LoggedInView),
    Failed(Seq<char>),
}

pub open spec fn opt_scanned(u: Option<ScannedUser>) -> Option<ScannedView> {
    match u {
        Some(u) => Some(u@),
        None => None,
    }
}

impl View for Session {
    type V = Stage;

    open spec fn view(&self) -> Stage {
        match *self {
            Session::Connecting => Stage::Connecting,
            Session::WaitingForScan { url, scanned } => Stage::WaitingForScan {
                url: url@,
                scanned: opt_scanned(scanned),
            },
            Session::Password => Stage::Password,
            Session::PasswordTotp => Stage::PasswordTotp,
            Session::Token => Stage::Token,
            Session::Exchanging => Stage::Exchanging,
            Session::LoggedIn(l) => Stage::LoggedIn(l@),
            Session::Failed(e) => Stage::Failed(e@),
        }
    }
}

/// The line shown on screen; what the user actually reads.
pub open spec fn hint_of(s: Stage) -> Seq<char> {
    match s {
        Stage::Connecting => "Discord に接続しています…"@,
        Stage::WaitingForScan { scanned, .. } => match scanned {
            None => "スマホの Discord でカメラを開き、この QR を読み取ってください"@,
            Some(u) => u.username + " として続けますか？ スマホで承認してください"@,
        },
        Stage::Password => "メールアドレスとパスワードでログインします"@,
        Stage::Token => "ボットトークンでログインします"@,
        Stage::PasswordTotp => "認証コードを入力してください"@,
        Stage::Exchanging => "承認されました。ログインしています…"@,
        Stage::LoggedIn(l) => user_name(l.me.user) + " でログインしました"@,
        Stage::Failed(e) => "失敗しました: "@ + e,
    }
}

/// However far login has got, something is said, so that nothing looks silently
/// stuck.
pub proof fn every_state_says_something(s: Stage)
    ensures
        hint_of(s).len() > 0,
{
    reveal_strlit("Discord に接続しています…");
    reveal_strlit("スマホの Discord でカメラを開き、この QR を読み取ってください");
    reveal_strlit(" として続けますか？ スマホで承認してください");
    reveal_strlit("メールアドレスとパスワードでログインします");
    reveal_strlit("ボットトークンでログインします");
    reveal_strlit("認証コードを入力してください");
    reveal_strlit("承認されました。ログインしています…");
    reveal_strlit(" でログインしました");
    reveal_strlit("失敗しました: ");
}

pub open spec fn qr_of(s: Stage) -> Option<Seq<char>> {
    match s {
        Stage::WaitingForScan { url, .. } => Some(url),
        _ => None,
    }
}

pub open spec fn in_as(s: Stage) -> Option<LoggedInView> {
    match s {
        Stage::LoggedIn(l) => Some(l),
        _ => None,
    }
}

impl Session {
    /// The line shown on screen; what the user actually reads.
    pub fn hint(&self) -> (r: String)
        ensures
            r@ == hint_of(self@),
    {
        match self {
            Session::Connecting => text::owned("Discord に接続しています…"),
            Session::WaitingForScan { scanned, .. } => match scanned {
                None => text::owned("スマホの Discord でカメラを開き、この QR を読み取ってください"),
                Some(u) => text::joined(
                    u.username.as_str(),
                    " として続けますか？ スマホで承認してください",
                ),
            },
            Session::Password => text::owned("メールアドレスとパスワードでログインします"),
            Session::Token => text::owned("ボットトークンでログインします"),
            Session::PasswordTotp => text::owned("認証コードを入力してください"),
            Session::Exchanging => text::owned("承認されました。ログインしています…"),
            Session::LoggedIn(l) => text::joined(l.me.user.display_name(), " でログインしました"),
            Session::Failed(e) => text::joined("失敗しました: ", e.as_str()),
        }
    }

    /// The URL to encode, or `None` if there is nothing to show yet.
    pub fn qr(&self) -> (r: Option<&str>)
        ensures
            match r {
                Some(u) => qr_of(self@) == Some(u@),
                None => qr_of(self@) is None,
            },
    {
        match self {
            Session::WaitingForScan { url, .. } => Some(url.as_str()),
            _ => None,
        }
    }

    pub fn logged_in(&self) -> (r: Option<&LoggedIn>)
        ensures
            match r {
                Some(l) => in_as(self@) == Some(l@),
                None => in_as(self@) is None,
            },
    {
        match self {
            Session::LoggedIn(l) => Some(&**l),
            _ => None,
        }
    }
}

// ── events and commands ────────────────────────────────────────────────────

/// One login field's failure: its dotted path, and what is wrong.
#[derive(Debug, Clone, PartialEq, Eq)]
pub struct FieldError {
    pub path: String,
    pub detail: String,
}

/// [`FieldError`] with the text as character sequences.
pub ghost struct FieldErrorView {
    pub path: Seq<char>,
    pub detail: Seq<char>,
}

impl View for FieldError {
    type V = FieldErrorView;

    open spec fn view(&self) -> FieldErrorView {
        FieldErrorView { path: self.path@, detail: self.detail@ }
    }
}

pub open spec fn field_errors_of(v: Seq<FieldError>) -> Seq<FieldErrorView> {
    Seq::new(v.len(), |i: int| v[i]@)
}

/// What the background reports.
///
/// Events, not states: a state arriving late would overwrite a newer one.
#[derive(Clone, PartialEq, Eq)]
pub enum LoginEvent {
    /// The QR is ready to show.
    Qr(String),
    Scanned(ScannedUser),
    /// Approved; fetching the token.
    Approved,
    Done(Box<LoggedIn>),
    Failed(String),
    /// What was wrong with single fields; the failure itself follows.
    FieldErrors(Vec<FieldError>),
    /// No session remains: the stored token was refused outright and
    /// discarded, or none was stored. What is on screen came from a cache
    /// nothing can refresh anymore, so the receiver lets it go.
    Ended,
    /// Restarted, usually after the QR expired.
    Restarted,
    /// The background needs a second factor to finish a login.
    TotpNeeded { email: String },
    /// The background needs a captcha solved before login can continue.
    CaptchaNeeded(CaptchaChallenge),
}

/// [`LoginEvent`] with the text as character sequences.
pub ghost enum News {
    Qr(Seq<char>),
    Scanned(ScannedView),
    Approved,
    Done(LoggedInView),
    Failed(Seq<char>),
    FieldErrors(Seq<FieldErrorView>),
    Ended,
    Restarted,
    TotpNeeded { email: Seq<char> },
    CaptchaNeeded(ChallengeView),
}

impl View for LoginEvent {
    type V = News;

    open spec fn view(&self) -> News {
        match *self {
            LoginEvent::Qr(u) => News::Qr(u@),
            LoginEvent::Scanned(u) => News::Scanned(u@),
            LoginEvent::Approved => News::Approved,
            LoginEvent::Done(l) => News::Done(l@),
            LoginEvent::Failed(e) => News::Failed(e@),
            LoginEvent::FieldErrors(f) => News::FieldErrors(field_errors_of(f@)),
            LoginEvent::Ended => News::Ended,
            LoginEvent::Restarted => News::Restarted,
            LoginEvent::TotpNeeded { email } => News::TotpNeeded { email: email@ },
            LoginEvent::CaptchaNeeded(c) => News::CaptchaNeeded(c@),
        }
    }
}

pub open spec fn news_of(v: Seq<LoginEvent>) -> Seq<News> {
    Seq::new(v.len(), |i: int| v[i]@)
}

/// A user-driven instruction, sent into the background login loop. These are
/// what turn the QR screen into a password login.
#[derive(Clone, PartialEq, Eq)]
pub enum LoginCommand {
    /// Start a password login with these credentials.
    Password { email: String, password: String },
    /// Supply the TOTP (or backup) code for an ongoing login.
    Totp { code: String },
    /// A solved captcha, retrying the call that was challenged.
    Captcha(SolvedCaptcha),
    /// Start a bot-token login with this token. The token is not stored, so it
    /// must be pasted each run.
    BotToken { token: String },
    /// Abandon the password login and go back to the QR.
    CancelPassword,
}

/// [`LoginCommand`] with the text as character sequences.
pub ghost enum Order {
    Password { email: Seq<char>, password: Seq<char> },
    Totp { code: Seq<char> },
    Captcha(SolvedView),
    BotToken { token: Seq<char> },
    CancelPassword,
}

impl View for LoginCommand {
    type V = Order;

    open spec fn view(&self) -> Order {
        match *self {
            LoginCommand::Password { email, password } => Order::Password {
                email: email@,
                password: password@,
            },
            LoginCommand::Totp { code } => Order::Totp { code: code@ },
            LoginCommand::Captcha(s) => Order::Captcha(s@),
            LoginCommand::BotToken { token } => Order::BotToken { token: token@ },
            LoginCommand::CancelPassword => Order::CancelPassword,
        }
    }
}

pub open spec fn orders_of(v: Seq<LoginCommand>) -> Seq<Order> {
    Seq::new(v.len(), |i: int| v[i]@)
}

// ── login as the app holds it ──────────────────────────────────────────────

/// Drives login. Events are put in with [`Login::deliver`] and drained with
/// [`Login::poll`]; commands leave through [`Login::take_commands`].
pub struct Login {
    session: Session,
    inbox: Vec<LoginEvent>,
    outbox: Vec<LoginCommand>,
    /// Decided once at startup and never changes.
    skipped: bool,
    /// Why the previous session ended, shown until the next sign-in. Set when
    /// the client signs out on its own, which otherwise reads as a crash.
    notice: Option<String>,
    /// [`LoginEvent::Ended`] arrived and nobody has read it yet. Not a session
    /// state: the screen changes on the app side, which drops the cache.
    ended: bool,
    /// A captcha awaiting a solution, if a login was challenged.
    pending: Option<CaptchaChallenge>,
    /// Field failures that arrived and nobody has read yet.
    field_errors: Vec<FieldError>,
}

/// [`Login`] as it is seen from outside.
pub ghost struct Entry {
    pub session: Stage,
    pub inbox: Seq<News>,
    pub outbox: Seq<Order>,
    pub skipped: bool,
    pub notice: Option<Seq<char>>,
    pub ended: bool,
    pub pending: Option<ChallengeView>,
    pub field_errors: Seq<FieldErrorView>,
}

impl View for Login {
    type V = Entry;

    closed spec fn view(&self) -> Entry {
        Entry {
            session: self.session@,
            inbox: news_of(self.inbox@),
            outbox: orders_of(self.outbox@),
            skipped: self.skipped,
            notice: opt_text(self.notice),
            ended: self.ended,
            pending: opt_challenge(self.pending),
            field_errors: field_errors_of(self.field_errors@),
        }
    }
}

/// Login before anything happened.
pub open spec fn untouched(skipped: bool) -> Entry {
    Entry {
        session: Stage::Connecting,
        inbox: seq![],
        outbox: seq![],
        skipped,
        notice: None,
        ended: false,
        pending: None,
        field_errors: seq![],
    }
}

/// The session after an event.
pub open spec fn stage_after(s: Stage, e: News) -> Stage {
    match e {
        News::Qr(url) => Stage::WaitingForScan { url, scanned: None },
        // The URL stays: if approval is cancelled the same QR still works.
        News::Scanned(user) => match s {
            Stage::WaitingForScan { url, .. } => Stage::WaitingForScan {
                url,
                scanned: Some(user),
            },
            other => other,
        },
        News::Approved => Stage::Exchanging,
        News::Done(l) => Stage::LoggedIn(l),
        News::Failed(e) => Stage::Failed(e),
        News::FieldErrors(_) => s,
        News::TotpNeeded { .. } => Stage::PasswordTotp,
        // The form stays put while the challenge is solved elsewhere.
        News::CaptchaNeeded(_) => Stage::Password,
        News::Ended => s,
        News::Restarted => Stage::Connecting,
    }
}

/// Login after an event.
pub open spec fn applied(l: Entry, e: News) -> Entry {
    let n = Entry { session: stage_after(l.session, e), ..l };
    match e {
        // In again; whatever ended the last session no longer matters.
        News::Done(_) => Entry { notice: None, pending: None, ..n },
        News::CaptchaNeeded(c) => Entry { pending: Some(c), ..n },
        News::FieldErrors(f) => Entry { field_errors: f, ..n },
        News::Ended => Entry { ended: true, ..n },
        _ => n,
    }
}

/// Login after the first `n` of the events.
pub open spec fn applied_all(l: Entry, es: Seq<News>, n: nat) -> Entry
    decreases n,
{
    if n == 0 || n > es.len() {
        l
    } else {
        applied(applied_all(l, es, (n - 1) as nat), es[n - 1])
    }
}

/// The line shown on screen; the notice leads when there is one.
pub open spec fn hint_in(l: Entry) -> Seq<char> {
    match l.notice {
        Some(n) => n + "。"@ + hint_of(l.session),
        None => hint_of(l.session),
    }
}

pub open spec fn shows_main_in(l: Entry) -> bool {
    l.skipped || in_as(l.session) is Some
}

/// A scan never clears the QR: it still works if approval is cancelled. A scan
/// without a QR changes nothing.
pub proof fn scanning_keeps_the_qr(s: Stage, u: ScannedView)
    ensures
        qr_of(stage_after(s, News::Scanned(u))) == qr_of(s),
        qr_of(s) is None ==> stage_after(s, News::Scanned(u)) == s,
{
}

/// A QR is shown only between its arrival and the next step that ends it.
pub proof fn the_qr_appears_with_its_event(s: Stage, e: News)
    ensures
        qr_of(stage_after(s, e)) is Some ==> (e matches News::Qr(u) && qr_of(stage_after(s, e))
            == Some(u)) || qr_of(stage_after(s, e)) == qr_of(s),
{
}

/// Being told that the session ended leaves the running login alone.
pub proof fn the_end_does_not_stop_the_login(l: Entry)
    ensures
        applied(l, News::Ended).session == l.session,
        applied(l, News::Ended).ended,
{
}

/// Signing in clears whatever the last session's end left behind.
pub proof fn signing_in_clears_the_notice(l: Entry, who: LoggedInView)
    ensures
        applied(l, News::Done(who)).notice is None,
        applied(l, News::Done(who)).pending is None,
        shows_main_in(applied(l, News::Done(who))),
{
}

/// Why the last session ended is kept until signing in succeeds: nothing else
/// that is reported takes it away, and the hint leads with it.
pub proof fn the_notice_stays_until_signing_in(l: Entry, e: News)
    requires
        !(e is Done),
    ensures
        applied(l, e).notice == l.notice,
        l.notice matches Some(n) ==> hint_in(applied(l, e)) == n + "。"@ + hint_of(
            applied(l, e).session,
        ),
{
}

impl Login {
    fn fresh(skipped: bool) -> (r: Login)
        ensures
            r@ == untouched(skipped),
    {
        let r = Login {
            session: Session::Connecting,
            inbox: Vec::new(),
            outbox: Vec::new(),
            skipped,
            notice: None,
            ended: false,
            pending: None,
            field_errors: Vec::new(),
        };
        assert(news_of(r.inbox@) =~= seq![]);
        assert(orders_of(r.outbox@) =~= seq![]);
        assert(field_errors_of(r.field_errors@) =~= seq![]);
        r
    }

    /// Login as the variable that skips it says, which is read once: per
    /// frame, the screen shown could change mid-run. Any value but `0` skips.
    pub fn new(skip: Option<&str>) -> (r: Login)
        ensures
            r@ == untouched(skip matches Some(v) && v@ != "0"@),
    {
        match skip {
            Some(v) => Login::fresh(!text::same_text(v, "0")),
            None => Login::fresh(false),
        }
    }

    /// Skips login and shows demo data.
    pub fn skipped() -> (r: Login)
        ensures
            r@ == untouched(true),
    {
        Login::fresh(true)
    }

    pub fn session(&self) -> (r: &Session)
        ensures
            r@ == self@.session,
    {
        &self.session
    }

    /// The line shown on screen; the notice leads when there is one.
    pub fn hint(&self) -> (r: String)
        ensures
            r@ == hint_in(self@),
    {
        match &self.notice {
            Some(n) => {
                let mut r = text::joined(n.as_str(), "。");
                r.append(self.session.hint().as_str());
                r
            },
            None => self.session.hint(),
        }
    }

    /// Says why the last session ended. Kept until signing in succeeds.
    pub fn set_notice(&mut self, reason: &str)
        ensures
            final(self)@ == (Entry { notice: Some(reason@), ..old(self)@ }),
    {
        self.notice = Some(text::owned(reason));
    }

    /// Whether the session ended on its own since the last call.
    pub fn take_ended(&mut self) -> (r: bool)
        ensures
            r == old(self)@.ended,
            final(self)@ == (Entry { ended: false, ..old(self)@ }),
    {
        let r = self.ended;
        self.ended = false;
        r
    }

    /// The only thing that decides between the login and main screens.
    pub fn shows_main(&self) -> (r: bool)
        ensures
            r == shows_main_in(self@),
    {
        self.skipped || self.session.logged_in().is_some()
    }

    /// Switches the screen to the password form. The notice stays: it is kept
    /// until signing in succeeds.
    pub fn start_password(&mut self)
        ensures
            final(self)@ == (Entry { session: Stage::Password, ..old(self)@ }),
            final(self)@.notice == old(self)@.notice,
    {
        self.session = Session::Password;
    }

    /// Switches the screen to the bot-token form. The notice stays here too.
    pub fn start_token(&mut self)
        ensures
            final(self)@ == (Entry { session: Stage::Token, ..old(self)@ }),
            final(self)@.notice == old(self)@.notice,
    {
        self.session = Session::Token;
    }

    fn order(&mut self, c: LoginCommand)
        ensures
            final(self)@ == (Entry { outbox: old(self)@.outbox.push(c@), ..old(self)@ }),
    {
        let ghost before = self.outbox@;
        self.outbox.push(c);
        assert(orders_of(self.outbox@) =~= orders_of(before).push(c@));
    }

    /// Asks the background to log in with these credentials.
    pub fn submit_password(&mut self, email: String, password: String)
        ensures
            final(self)@ == (Entry {
                outbox: old(self)@.outbox.push(
                    Order::Password { email: email@, password: password@ },
                ),
                ..old(self)@
            }),
    {
        self.order(LoginCommand::Password { email, password });
    }

    /// Asks the background to finish login with a TOTP code.
    pub fn submit_totp(&mut self, code: String)
        ensures
            final(self)@ == (Entry {
                outbox: old(self)@.outbox.push(Order::Totp { code: code@ }),
                ..old(self)@
            }),
    {
        self.order(LoginCommand::Totp { code });
    }

    /// Hands a solved captcha to the background login.
    pub fn submit_captcha(&mut self, solved: SolvedCaptcha)
        ensures
            final(self)@ == (Entry {
                outbox: old(self)@.outbox.push(Order::Captcha(solved@)),
                ..old(self)@
            }),
    {
        self.order(LoginCommand::Captcha(solved));
    }

    /// Asks the background to log in with a bot token.
    pub fn submit_bot_token(&mut self, token: String)
        ensures
            final(self)@ == (Entry {
                outbox: old(self)@.outbox.push(Order::BotToken { token: token@ }),
                ..old(self)@
            }),
    {
        self.order(LoginCommand::BotToken { token });
    }

    /// Goes back to the QR screen, abandoning a password login.
    pub fn cancel_password(&mut self)
        ensures
            final(self)@ == (Entry {
                outbox: old(self)@.outbox.push(Order::CancelPassword),
                ..old(self)@
            }),
    {
        self.order(LoginCommand::CancelPassword);
    }

    /// The commands for the background, oldest first.
    pub fn take_commands(&mut self) -> (r: Vec<LoginCommand>)
        ensures
            orders_of(r@) == old(self)@.outbox,
            final(self)@ == (Entry { outbox: seq![], ..old(self)@ }),
    {
        let mut r: Vec<LoginCommand> = Vec::new();
        std::mem::swap(&mut r, &mut self.outbox);
        assert(orders_of(self.outbox@) =~= seq![]);
        r
    }

    /// The challenge awaiting a solution, if the login is captcha-blocked.
    /// Consumed once: the app hands it on to be solved.
    pub fn take_pending(&mut self) -> (r: Option<CaptchaChallenge>)
        ensures
            opt_challenge(r) == old(self)@.pending,
            final(self)@ == (Entry { pending: None, ..old(self)@ }),
    {
        self.pending.take()
    }

    /// The field failures that arrived since the last call.
    pub fn take_field_errors(&mut self) -> (r: Vec<FieldError>)
        ensures
            field_errors_of(r@) == old(self)@.field_errors,
            final(self)@ == (Entry { field_errors: seq![], ..old(self)@ }),
    {
        let mut r: Vec<FieldError> = Vec::new();
        std::mem::swap(&mut r, &mut self.field_errors);
        assert(field_errors_of(self.field_errors@) =~= seq![]);
        r
    }

    /// Puts an event in, to be drained by [`Login::poll`].
    pub fn deliver(&mut self, event: LoginEvent)
        ensures
            final(self)@ == (Entry { inbox: old(self)@.inbox.push(event@), ..old(self)@ }),
    {
        let ghost before = self.inbox@;
        self.inbox.push(event);
        assert(news_of(self.inbox@) =~= news_of(before).push(event@));
    }

    /// Drains every pending event. One wake can carry several.
    pub fn poll(&mut self) -> (r: bool)
        ensures
            r == (old(self)@.inbox.len() > 0),
            final(self)@ == applied_all(
                (Entry { inbox: seq![], ..old(self)@ }),
                old(self)@.inbox,
                old(self)@.inbox.len(),
            ),
    {
        let ghost es = self@.inbox;
        let mut inbox: Vec<LoginEvent> = Vec::new();
        std::mem::swap(&mut inbox, &mut self.inbox);
        assert(news_of(self.inbox@) =~= seq![]);
        let ghost base = self@;
        let changed = inbox.len() > 0;
        let it = inbox.into_iter();
        for event in o: it
            invariant
                o.seq() == inbox@,
                es == news_of(inbox@),
                self@ == applied_all(base, es, o.index() as nat),
        {
            assert(es[o.index()] == event@);
            self.apply(event);
        }
        changed
    }

    /// Takes one event in.
    pub fn apply(&mut self, event: LoginEvent)
        ensures
            final(self)@ == applied(old(self)@, event@),
    {
        match event {
            LoginEvent::Qr(url) => {
                self.session = Session::WaitingForScan { url, scanned: None };
            },
            LoginEvent::Scanned(user) => {
                if let Session::WaitingForScan { url, .. } = &self.session {
                    let url = url.clone();
                    self.session = Session::WaitingForScan { url, scanned: Some(user) };
                }
            },
            LoginEvent::Approved => {
                self.session = Session::Exchanging;
            },
            LoginEvent::Done(l) => {
                self.notice = None;
                self.pending = None;
                self.session = Session::LoggedIn(l);
            },
            LoginEvent::Failed(e) => {
                self.session = Session::Failed(e);
            },
            LoginEvent::FieldErrors(f) => {
                self.field_errors = f;
            },
            LoginEvent::TotpNeeded { .. } => {
                self.session = Session::PasswordTotp;
            },
            LoginEvent::CaptchaNeeded(c) => {
                self.pending = Some(c);
                self.session = Session::Password;
            },
            LoginEvent::Ended => {
                self.ended = true;
            },
            LoginEvent::Restarted => {
                self.session = Session::Connecting;
            },
        }
    }

    /// Starts over, as after signing out. Dropping the stored token and
    /// starting the background again is the caller's.
    pub fn forget(&mut self)
        ensures
            final(self)@ == (Entry { session: Stage::Connecting, ..old(self)@ }),
    {
        self.session = Session::Connecting;
    }
}

// ── the stored token ───────────────────────────────────────────────────────

/// What the keychain had.
#[derive(Clone, PartialEq, Eq)]
pub enum Stored {
    /// There is no keychain.
    NoKeychain,
    /// Nothing stored: the ordinary first start.
    Nothing,
    /// An entry that cannot be read, such as another OS user's.
    Unreadable,
    Bytes(Vec<u8>),
}

/// What the server said of a token.
#[derive(Clone, PartialEq, Eq)]
pub enum Checked {
    /// It is good, and this is who we are.
    Good(Box<CurrentUser>),
    /// Refused outright.
    Refused,
    /// It could not be checked just now.
    Unknown,
}

/// What became of the stored token.
#[derive(Clone, PartialEq, Eq)]
pub enum RestoreOutcome {
    /// It is still good.
    LoggedIn(Box<LoggedIn>),
    /// There is nothing left to restore: the token was refused outright and
    /// discarded, or none was ever stored. Only a fresh sign-in can follow.
    Gone,
    /// It could not be checked just now, so nothing was decided. It stays
    /// stored, and a later try settles it.
    Unchecked,
}

/// [`RestoreOutcome`] with the text as character sequences.
pub ghost enum Restored {
    LoggedIn(LoggedInView),
    Gone,
    Unchecked,
}

impl View for RestoreOutcome {
    type V = Restored;

    open spec fn view(&self) -> Restored {
        match *self {
            RestoreOutcome::LoggedIn(l) => Restored::LoggedIn(l@),
            RestoreOutcome::Gone => Restored::Gone,
            RestoreOutcome::Unchecked => Restored::Unchecked,
        }
    }
}

/// What to do with what the keychain had: check a token, or stop with nothing.
/// `clear` discards the entry, which could only fail again on every start.
pub struct RestoreStart {
    pub token: Option<Token>,
    pub clear: bool,
}

/// Reads what the keychain had.
pub fn restore_start(stored: Stored) -> (r: RestoreStart)
    ensures
        match stored {
            Stored::Bytes(b) => r.token matches Some(t) && t@ == utf8_lossy(b@) && !r.clear,
            Stored::Unreadable => r.token is None && r.clear,
            _ => r.token is None && !r.clear,
        },
{
    match stored {
        Stored::Bytes(b) => RestoreStart {
            token: Some(Token::new(from_utf8_lossy(b.as_slice()).as_str())),
            clear: false,
        },
        Stored::Unreadable => RestoreStart { token: None, clear: true },
        Stored::NoKeychain => RestoreStart { token: None, clear: false },
        Stored::Nothing => RestoreStart { token: None, clear: false },
    }
}

pub open spec fn outcome_of(token: Seq<char>, c: Checked) -> Restored {
    match c {
        Checked::Good(me) => Restored::LoggedIn(LoggedInView { me: me@, token, bot: false }),
        Checked::Refused => Restored::Gone,
        Checked::Unknown => Restored::Unchecked,
    }
}

/// What became of a stored token that was checked, and whether to discard it:
/// the moment it is refused, and not before. A changed password, a revoked
/// device and an expired token are all ordinary; keeping a dead token repeats
/// the failure on every later start. Anything short of a refusal — the network,
/// mostly — decides nothing.
pub fn restore_checked(token: Token, checked: Checked) -> (r: (RestoreOutcome, bool))
    ensures
        r.0@ == outcome_of(token@, checked),
        r.1 == (checked is Refused),
{
    match checked {
        Checked::Good(me) => (
            RestoreOutcome::LoggedIn(Box::new(LoggedIn { me: *me, token, bot: false })),
            false,
        ),
        Checked::Refused => (RestoreOutcome::Gone, true),
        Checked::Unknown => (RestoreOutcome::Unchecked, false),
    }
}

// ── the login loop ─────────────────────────────────────────────────────────

/// What became of a password login.
#[derive(Clone, PartialEq, Eq)]
pub enum PasswordRun {
    /// Signed in; that was reported already.
    LoggedIn,
    /// The user abandoned it; go back to the QR.
    Cancelled,
    /// It failed; show the reason and return to the QR.
    Error(String),
}

/// What came of one turn of the login loop.
#[derive(Clone, PartialEq, Eq)]
pub enum Turn {
    /// The stored token was looked at.
    Restored(RestoreOutcome),
    /// The QR attempt signed in; that was reported already.
    QrDone,
    /// The QR expired, or its task broke down.
    QrReset,
    /// The QR attempt failed.
    QrFailed(String),
    /// No client for a password login could be made.
    NoClient(String),
    /// A password login ended.
    Password(PasswordRun),
    /// A bot-token login ended, signed in or not.
    Bot(bool),
    /// A command out of place, such as a code with no password in flight.
    Stray,
}

/// What the login loop does next.
#[derive(Debug, Clone, Copy, PartialEq, Eq, Structural)]
pub enum Onward {
    /// Signed in: the loop is over.
    Finish,
    /// Show a QR and wait for it or for a command.
    ShowQr,
    /// Begin a new turn.
    Again,
    /// Begin a new turn after this many milliseconds.
    AgainAfter(u64),
}

/// What a turn leads to: what to report, and what to do next.
pub struct TurnStep {
    pub events: Vec<LoginEvent>,
    pub onward: Onward,
}

/// The login loop's memory.
///
/// Never gives up. A QR expires after about two minutes, so an expired one is
/// quietly replaced rather than left dead in front of someone who walked away.
/// A failure retries with growing backoff too: stopping would leave "failed"
/// on screen with no way forward but restarting the app.
///
/// Every turn starts by trying the stored token again, so a start made offline
/// comes alive by itself once the network is back.
#[derive(Debug, Clone, Copy, PartialEq, Eq, Structural)]
pub struct Run {
    /// Whether the end of the stored session was said; once per run is enough.
    pub said_ended: bool,
    pub wait_ms: u64,
}

pub open spec fn retry_doubled(ms: u64) -> u64 {
    if ms * 2 > RETRY_MAX_MS {
        RETRY_MAX_MS
    } else {
        (ms * 2) as u64
    }
}

pub open spec fn run_after(run: Run, t: Turn) -> Run {
    match t {
        Turn::Restored(RestoreOutcome::Gone) => Run { said_ended: true, ..run },
        Turn::QrFailed(_) => Run { wait_ms: retry_doubled(run.wait_ms), ..run },
        Turn::Password(PasswordRun::LoggedIn) => run,
        Turn::Password(_) => Run { wait_ms: RETRY_MIN_MS, ..run },
        _ => run,
    }
}

pub open spec fn run_events(run: Run, t: Turn) -> Seq<News> {
    match t {
        Turn::Restored(RestoreOutcome::LoggedIn(l)) => seq![News::Done(l@)],
        Turn::Restored(RestoreOutcome::Gone) => if run.said_ended {
            seq![]
        } else {
            seq![News::Ended]
        },
        Turn::Restored(RestoreOutcome::Unchecked) => seq![],
        Turn::QrDone => seq![],
        Turn::QrReset => seq![News::Restarted],
        Turn::QrFailed(e) => seq![News::Failed(e@)],
        Turn::NoClient(e) => seq![News::Failed(e@)],
        Turn::Password(PasswordRun::LoggedIn) => seq![],
        Turn::Password(PasswordRun::Error(e)) => seq![News::Failed(e@), News::Restarted],
        Turn::Password(PasswordRun::Cancelled) => seq![News::Restarted],
        Turn::Bot(true) => seq![],
        Turn::Bot(false) => seq![News::Restarted],
        Turn::Stray => seq![],
    }
}

pub open spec fn run_onward(run: Run, t: Turn) -> Onward {
    match t {
        Turn::Restored(RestoreOutcome::LoggedIn(_)) => Onward::Finish,
        Turn::Restored(_) => Onward::ShowQr,
        Turn::QrDone => Onward::Finish,
        Turn::QrFailed(_) => Onward::AgainAfter(run.wait_ms),
        Turn::Password(PasswordRun::LoggedIn) => Onward::Finish,
        Turn::Bot(true) => Onward::Finish,
        _ => Onward::Again,
    }
}

/// Whether a turn ended signed in.
pub open spec fn signed_in(t: Turn) -> bool {
    ||| t matches Turn::Restored(RestoreOutcome::LoggedIn(_))
    ||| t is QrDone
    ||| t matches Turn::Password(PasswordRun::LoggedIn)
    ||| t matches Turn::Bot(true)
}

/// The loop ends exactly when someone is signed in.
pub proof fn login_never_gives_up(run: Run, t: Turn)
    ensures
        run_onward(run, t) is Finish <==> signed_in(t),
{
}

/// The wait stays between the two bounds, whatever happens.
pub proof fn the_retry_wait_is_bounded(run: Run, t: Turn)
    requires
        RETRY_MIN_MS <= run.wait_ms <= RETRY_MAX_MS,
    ensures
        RETRY_MIN_MS <= run_after(run, t).wait_ms <= RETRY_MAX_MS,
{
}

/// That the session ended is said at most once in a run.
pub proof fn the_end_is_said_once(run: Run, t: Turn)
    ensures
        run_events(run, t).contains(News::Ended) ==> !run.said_ended && run_after(run, t).said_ended,
        run.said_ended ==> run_after(run, t).said_ended,
{
    let es = run_events(run, t);
    if es.contains(News::Ended) {
        let i = choose|i: int| 0 <= i < es.len() && es[i] == News::Ended;
        assert(es[i] == News::Ended);
    }
}

impl Run {
    pub fn new() -> (r: Run)
        ensures
            r == (Run { said_ended: false, wait_ms: RETRY_MIN_MS }),
    {
        Run { said_ended: false, wait_ms: RETRY_MIN_MS }
    }

    /// Takes in what came of a turn.
    pub fn turn(&mut self, t: Turn) -> (r: TurnStep)
        ensures
            *final(self) == run_after(*old(self), t),
            news_of(r.events@) == run_events(*old(self), t),
            r.onward == run_onward(*old(self), t),
    {
        let ghost want = run_events(*self, t);
        let mut events: Vec<LoginEvent> = Vec::new();
        let onward = match t {
            Turn::Restored(RestoreOutcome::LoggedIn(l)) => {
                events.push(LoginEvent::Done(l));
                Onward::Finish
            },
            Turn::Restored(RestoreOutcome::Gone) => {
                if !self.said_ended {
                    self.said_ended = true;
                    events.push(LoginEvent::Ended);
                }
                Onward::ShowQr
            },
            Turn::Restored(RestoreOutcome::Unchecked) => Onward::ShowQr,
            Turn::QrDone => Onward::Finish,
            Turn::QrReset => {
                events.push(LoginEvent::Restarted);
                Onward::Again
            },
            Turn::QrFailed(e) => {
                events.push(LoginEvent::Failed(e));
                let wait = self.wait_ms;
                self.wait_ms = if wait > RETRY_MAX_MS / 2 {
                    RETRY_MAX_MS
                } else {
                    wait * 2
                };
                Onward::AgainAfter(wait)
            },
            Turn::NoClient(e) => {
                events.push(LoginEvent::Failed(e));
                Onward::Again
            },
            Turn::Password(PasswordRun::LoggedIn) => Onward::Finish,
            Turn::Password(PasswordRun::Error(e)) => {
                events.push(LoginEvent::Failed(e));
                self.wait_ms = RETRY_MIN_MS;
                events.push(LoginEvent::Restarted);
                Onward::Again
            },
            Turn::Password(PasswordRun::Cancelled) => {
                self.wait_ms = RETRY_MIN_MS;
                events.push(LoginEvent::Restarted);
                Onward::Again
            },
            Turn::Bot(done) => {
                if done {
                    Onward::Finish
                } else {
                    events.push(LoginEvent::Restarted);
                    Onward::Again
                }
            },
            Turn::Stray => Onward::Again,
        };
        assert(news_of(events@) =~= want);
        TurnStep { events, onward }
    }
}

// ── password login ─────────────────────────────────────────────────────────

/// What a command means to a login that waits for something.
#[derive(Clone, PartialEq, Eq)]
pub enum Heard<T> {
    /// It is what was waited for.
    Got(T),
    /// The login was called off, or nobody is there to command it.
    Gone,
    /// Out of place; wait on.
    Wait,
}

/// A command heard while waiting for a TOTP code.
pub fn await_totp(c: Option<LoginCommand>) -> (r: Heard<String>)
    ensures
        match c {
            Some(LoginCommand::Totp { code }) => r matches Heard::Got(t) && t@ == code@,
            Some(LoginCommand::CancelPassword) => r is Gone,
            None => r is Gone,
            Some(_) => r is Wait,
        },
{
    match c {
        Some(LoginCommand::Totp { code }) => Heard::Got(code),
        Some(LoginCommand::CancelPassword) => Heard::Gone,
        None => Heard::Gone,
        // A captcha or a fresh password is out of place while waiting.
        Some(_) => Heard::Wait,
    }
}

/// A command heard while waiting for a solved captcha.
pub fn await_captcha(c: Option<LoginCommand>) -> (r: Heard<SolvedCaptcha>)
    ensures
        match c {
            Some(LoginCommand::Captcha(s)) => r matches Heard::Got(t) && t@ == s@,
            Some(LoginCommand::CancelPassword) => r is Gone,
            None => r is Gone,
            Some(_) => r is Wait,
        },
{
    match c {
        Some(LoginCommand::Captcha(s)) => Heard::Got(s),
        Some(LoginCommand::CancelPassword) => Heard::Gone,
        None => Heard::Gone,
        Some(_) => Heard::Wait,
    }
}

/// What a call or a wait of a password login came to.
#[derive(Clone, PartialEq, Eq)]
pub enum PasswordInput {
    /// The login call gave a token.
    Token(Token),
    /// The login call asks for a second factor.
    MfaRequired { ticket: String },
    /// The login call asks for a captcha.
    CaptchaRequired(CaptchaChallenge),
    /// The login call failed.
    LoginFailed(String),
    /// A code was supplied.
    Code(String),
    /// A captcha was solved.
    Solved(SolvedCaptcha),
    /// The second factor was refused.
    MfaRefused,
    /// The login was called off while waiting.
    Cancelled,
    /// A token was checked and is good.
    Authenticated(Box<CurrentUser>),
    /// A token was checked and is not.
    AuthenticationFailed(String),
}

/// What a password login does next.
#[derive(Clone, PartialEq, Eq)]
pub enum PasswordNext {
    /// Call login with these; a captcha's solution goes along where there is
    /// one.
    Login { email: String, password: String, solved: Option<SolvedCaptcha> },
    /// Wait for a TOTP code.
    WaitForCode,
    /// Wait for a captcha to be solved.
    WaitForCaptcha,
    /// Finish with a second factor.
    Mfa { ticket: String, code: String },
    /// Check the token: a returned one is not yet proof.
    Authenticate(Token),
    /// Signed in: store the token for the next start.
    Done(Token),
    /// Called off; go back to the QR.
    Cancelled,
    /// Failed; show the reason.
    Failed(String),
}

/// [`PasswordNext`] with the text as character sequences.
pub ghost enum PasswordDo {
    Login { email: Seq<char>, password: Seq<char>, solved: Option<SolvedView> },
    WaitForCode,
    WaitForCaptcha,
    Mfa { ticket: Seq<char>, code: Seq<char> },
    Authenticate(Seq<char>),
    Done(Seq<char>),
    Cancelled,
    Failed(Seq<char>),
}

impl View for PasswordNext {
    type V = PasswordDo;

    open spec fn view(&self) -> PasswordDo {
        match *self {
            PasswordNext::Login { email, password, solved } => PasswordDo::Login {
                email: email@,
                password: password@,
                solved: opt_solved(solved),
            },
            PasswordNext::WaitForCode => PasswordDo::WaitForCode,
            PasswordNext::WaitForCaptcha => PasswordDo::WaitForCaptcha,
            PasswordNext::Mfa { ticket, code } => PasswordDo::Mfa { ticket: ticket@, code: code@ },
            PasswordNext::Authenticate(t) => PasswordDo::Authenticate(t@),
            PasswordNext::Done(t) => PasswordDo::Done(t@),
            PasswordNext::Cancelled => PasswordDo::Cancelled,
            PasswordNext::Failed(e) => PasswordDo::Failed(e@),
        }
    }
}

/// A password login in progress: password check, a captcha if one is asked
/// for, then a TOTP code if the account uses a second factor. Each wait ends
/// with what was waited for or with the login being called off.
pub struct PasswordLogin {
    email: String,
    password: String,
    solved: Option<SolvedCaptcha>,
    /// A second factor is owed for this.
    ticket: Option<String>,
    /// The token being checked.
    token: Option<Token>,
}

/// [`PasswordLogin`] as it is seen from outside.
pub ghost struct Attempt {
    pub email: Seq<char>,
    pub password: Seq<char>,
    pub solved: Option<SolvedView>,
    pub ticket: Option<Seq<char>>,
    pub token: Option<Seq<char>>,
}

pub open spec fn opt_token(t: Option<Token>) -> Option<Seq<char>> {
    match t {
        Some(t) => Some(t@),
        None => None,
    }
}

impl View for PasswordLogin {
    type V = Attempt;

    closed spec fn view(&self) -> Attempt {
        Attempt {
            email: self.email@,
            password: self.password@,
            solved: opt_solved(self.solved),
            ticket: opt_text(self.ticket),
            token: opt_token(self.token),
        }
    }
}

pub open spec fn call_login(a: Attempt) -> PasswordDo {
    PasswordDo::Login { email: a.email, password: a.password, solved: a.solved }
}

/// The login after something came back.
pub open spec fn attempt_after(a: Attempt, i: PasswordInput) -> Attempt {
    match i {
        // The password and the captcha have done their job.
        PasswordInput::Token(t) => Attempt {
            password: seq![],
            solved: None,
            token: Some(t@),
            ..a
        },
        PasswordInput::MfaRequired { ticket } => Attempt { ticket: Some(ticket@), ..a },
        PasswordInput::Solved(s) => Attempt { solved: Some(s@), ..a },
        // A ticket is good for one code.
        PasswordInput::Code(_) => Attempt { ticket: None, ..a },
        _ => a,
    }
}

/// What the login does next.
pub open spec fn attempt_next(a: Attempt, i: PasswordInput) -> PasswordDo {
    match i {
        PasswordInput::Token(t) => PasswordDo::Authenticate(t@),
        PasswordInput::MfaRequired { .. } => PasswordDo::WaitForCode,
        PasswordInput::CaptchaRequired(_) => PasswordDo::WaitForCaptcha,
        PasswordInput::LoginFailed(e) => PasswordDo::Failed(e@),
        PasswordInput::Code(code) => match a.ticket {
            Some(ticket) => PasswordDo::Mfa { ticket, code: code@ },
            None => call_login(a),
        },
        PasswordInput::Solved(s) => call_login(Attempt { solved: Some(s@), ..a }),
        // A wrong code is just another chance to ask.
        PasswordInput::MfaRefused => call_login(a),
        PasswordInput::Cancelled => PasswordDo::Cancelled,
        PasswordInput::Authenticated(_) => match a.token {
            Some(t) => PasswordDo::Done(t),
            None => call_login(a),
        },
        PasswordInput::AuthenticationFailed(e) => PasswordDo::Failed(e@),
    }
}

/// What the login reports.
pub open spec fn attempt_news(a: Attempt, i: PasswordInput) -> Option<News> {
    match i {
        PasswordInput::MfaRequired { .. } => Some(News::TotpNeeded { email: a.email }),
        PasswordInput::MfaRefused => Some(News::TotpNeeded { email: a.email }),
        PasswordInput::CaptchaRequired(c) => Some(News::CaptchaNeeded(c@)),
        PasswordInput::Authenticated(me) => match a.token {
            Some(token) => Some(News::Done(LoggedInView { me: me@, token, bot: false })),
            None => None,
        },
        _ => None,
    }
}

pub open spec fn opt_news(e: Option<LoginEvent>) -> Option<News> {
    match e {
        Some(e) => Some(e@),
        None => None,
    }
}

/// A login is reported done only for a token that was checked and is good, and
/// calling it off ends it without a report.
pub proof fn only_a_checked_token_signs_in(a: Attempt, i: PasswordInput)
    ensures
        attempt_news(a, i) matches Some(News::Done(l)) ==> i is Authenticated && Some(l.token)
            == a.token,
        i is Cancelled ==> attempt_next(a, i) is Cancelled && attempt_news(a, i) is None,
{
}

/// What a password login leads to: what to report, and what to do next.
pub struct PasswordStep {
    pub event: Option<LoginEvent>,
    pub next: PasswordNext,
}

fn copy_solved(s: &Option<SolvedCaptcha>) -> (r: Option<SolvedCaptcha>)
    ensures
        opt_solved(r) == opt_solved(*s),
{
    match s {
        Some(s) => Some(
            SolvedCaptcha {
                key: s.key.clone(),
                rqtoken: text::copy_opt(&s.rqtoken),
                session_id: text::copy_opt(&s.session_id),
            },
        ),
        None => None,
    }
}

impl PasswordLogin {
    pub fn new(email: String, password: String) -> (r: (PasswordLogin, PasswordNext))
        ensures
            r.0@ == (Attempt {
                email: email@,
                password: password@,
                solved: None,
                ticket: None,
                token: None,
            }),
            r.1@ == call_login(r.0@),
    {
        let login = PasswordLogin { email, password, solved: None, ticket: None, token: None };
        let first = login.call();
        (login, first)
    }

    fn call(&self) -> (r: PasswordNext)
        ensures
            r@ == call_login(self@),
    {
        PasswordNext::Login {
            email: self.email.clone(),
            password: self.password.clone(),
            solved: copy_solved(&self.solved),
        }
    }

    /// Takes in what came back.
    pub fn step(&mut self, input: PasswordInput) -> (r: PasswordStep)
        ensures
            final(self)@ == attempt_after(old(self)@, input),
            r.next@ == attempt_next(old(self)@, input),
            opt_news(r.event) == attempt_news(old(self)@, input),
    {
        match input {
            PasswordInput::Token(t) => {
                self.password = String::new();
                assert(self.password@ =~= seq![]);
                self.solved = None;
                let token = t.clone_token();
                self.token = Some(t);
                PasswordStep { event: None, next: PasswordNext::Authenticate(token) }
            },
            PasswordInput::MfaRequired { ticket } => {
                self.ticket = Some(ticket);
                PasswordStep {
                    event: Some(LoginEvent::TotpNeeded { email: self.email.clone() }),
                    next: PasswordNext::WaitForCode,
                }
            },
            PasswordInput::CaptchaRequired(c) => PasswordStep {
                event: Some(LoginEvent::CaptchaNeeded(c)),
                next: PasswordNext::WaitForCaptcha,
            },
            PasswordInput::LoginFailed(e) => PasswordStep {
                event: None,
                next: PasswordNext::Failed(e),
            },
            PasswordInput::Code(code) => match self.ticket.take() {
                Some(ticket) => PasswordStep {
                    event: None,
                    next: PasswordNext::Mfa { ticket, code },
                },
                None => PasswordStep { event: None, next: self.call() },
            },
            PasswordInput::Solved(s) => {
                self.solved = Some(s);
                PasswordStep { event: None, next: self.call() }
            },
            PasswordInput::MfaRefused => PasswordStep {
                event: Some(LoginEvent::TotpNeeded { email: self.email.clone() }),
                next: self.call(),
            },
            PasswordInput::Cancelled => PasswordStep {
                event: None,
                next: PasswordNext::Cancelled,
            },
            PasswordInput::Authenticated(me) => match &self.token {
                Some(t) => PasswordStep {
                    event: Some(
                        LoginEvent::Done(
                            Box::new(LoggedIn { me: *me, token: t.clone_token(), bot: false }),
                        ),
                    ),
                    next: PasswordNext::Done(t.clone_token()),
                },
                None => PasswordStep { event: None, next: self.call() },
            },
            PasswordInput::AuthenticationFailed(e) => PasswordStep {
                event: None,
                next: PasswordNext::Failed(e),
            },
        }
    }
}

// ── bot tokens and the QR ──────────────────────────────────────────────────

/// What became of a bot-token login: what to report, and whether it is in. The
/// token is deliberately not stored.
pub fn bot_token_checked(token: Token, checked: Result<CurrentUser, String>) -> (r: (
    LoginEvent,
    bool,
))
    ensures
        match checked {
            Ok(me) => r.0@ == News::Done(LoggedInView { me: me@, token: token@, bot: true })
                && r.1,
            Err(e) => r.0@ == News::Failed(e@) && !r.1,
        },
{
    match checked {
        Ok(me) => (LoginEvent::Done(Box::new(LoggedIn { me, token, bot: true })), true),
        Err(e) => (LoginEvent::Failed(e), false),
    }
}

/// What the QR attempt does about an event of remote auth.
#[derive(Clone, PartialEq, Eq)]
pub enum QrNext {
    /// Report this and wait on.
    Report(LoginEvent),
    /// Report the approval and exchange this ticket. Single-use; never resend
    /// it after a failure.
    Exchange { ticket: String },
    /// Expired or called off: a fresh QR is needed.
    Expired,
    /// Failed with this reason.
    Failed(String),
}

/// What the QR attempt does about what remote auth said.
pub fn attempt_step(heard: Result<RemoteAuthEvent, RemoteAuthError>) -> (r: QrNext)
    ensures
        match heard {
            Ok(e) => match e@ {
                AuthEvent::Ready { url, .. } => r matches QrNext::Report(n) && n@ == News::Qr(url),
                AuthEvent::Scanned(u) => r matches QrNext::Report(n) && n@ == News::Scanned(u),
                AuthEvent::Approved { ticket } => r matches QrNext::Exchange { ticket: t } && t@
                    == ticket,
                AuthEvent::Cancelled => r is Expired,
            },
            Err(e) => match e@ {
                AuthFault::Closed => r is Expired,
                f => r matches QrNext::Failed(t) && t@ == fault_text(f),
            },
        },
{
    match heard {
        Ok(RemoteAuthEvent::Ready { url, .. }) => QrNext::Report(LoginEvent::Qr(url)),
        Ok(RemoteAuthEvent::Scanned(u)) => QrNext::Report(LoginEvent::Scanned(u)),
        Ok(RemoteAuthEvent::Approved { ticket }) => QrNext::Exchange { ticket },
        Ok(RemoteAuthEvent::Cancelled) => QrNext::Expired,
        // Expiry usually arrives as a silent close rather than a cancel.
        // Treating that as an error puts "failed" on screen every two minutes.
        Err(RemoteAuthError::Closed) => QrNext::Expired,
        Err(e) => QrNext::Failed(e.to_string()),
    }
}

/// What became of an exchanged ticket: signed in with a token that was checked,
/// or a failure.
pub fn exchange_checked(token: Token, checked: Result<CurrentUser, String>) -> (r: Result<
    LoginEvent,
    String,
>)
    ensures
        match checked {
            Ok(me) => r matches Ok(e) && e@ == News::Done(
                LoggedInView { me: me@, token: token@, bot: false },
            ),
            Err(e) => r matches Err(t) && t@ == e@,
        },
{
    match checked {
        Ok(me) => Ok(LoginEvent::Done(Box::new(LoggedIn { me, token, bot: false }))),
        Err(e) => Err(e),
    }
}

} // verus!
