//! What holds of the screens as a whole: what is typed, pressed and sent.

use vstd::prelude::*;
use crate::gateway::remote_auth::ScannedView;
use crate::model::{CurrentUser, Token};
use crate::session::{
    applied, attempt_after, attempt_news, attempt_next, in_as, outcome_of, qr_of, run_after,
    run_events, run_onward, Attempt, CaptchaChallenge, ChallengeView, Checked, Entry,
    FieldErrorView, LoggedInView, News, Onward, Order, PasswordDo, PasswordInput, PasswordRun,
    RestoreOutcome, Restored, Run, SolvedCaptcha, Stage, Turn,
};
use crate::input::Doc;
use crate::menu::{Deed, ItemView};
use crate::pages::chat::composer::{
    day_starts, divider_node, grouped_at, last_day, typing_shown,
};
use crate::pages::chat::rows::MessageLine;
use crate::pages::chat::{drawer_side, sheet_side};
use crate::shell::{App, Composing, Doing, LoginField};
use crate::slide::FLING;
use crate::text;

verus! {

// ── login ──────────────────────────────────────────────────────────────────

/// What a form sends by the field that is focused: the code field a code and the
/// token field a bot token, both without the blanks around them, and the other
/// fields the email without the blanks around it and the password as typed.
/// Nothing is sent where what it needs is not there, and exactly one thing where
/// it is, behind what waits to be sent already; then the secret is gone and no
/// field is focused.
pub proof fn forms_send_what_was_typed(a: App)
    ensures
        ({
            let (n, sent) = a.login_sent();
            let typed = a.form.input.text;
            let had = a.login.outbox;
            &&& sent ==> {
                &&& n.login.outbox.len() == had.len() + 1
                &&& forall|i: int| 0 <= i < had.len() ==> n.login.outbox[i] == #[trigger] had[i]
                &&& n.form.input.text.len() == 0
                &&& n.form.field is None
            }
            &&& !sent ==> n.login.outbox == had && n.form.input == a.form.input && n.form.field
                == a.form.field
            &&& n.form.error is None
            &&& n.form.field_errors.len() == 0
            &&& n.form.email == a.form.email
            &&& n.form.form == a.form.form
            &&& n.login.session == a.login.session
            &&& a.form.field == Some(LoginField::Totp) ==> {
                &&& sent <==> text::trim(typed).len() > 0
                &&& sent ==> n.login.outbox.last() == (Order::Totp { code: text::trim(typed) })
            }
            &&& a.form.field == Some(LoginField::Token) ==> {
                &&& sent <==> text::trim(typed).len() > 0
                &&& sent ==> n.login.outbox.last() == (Order::BotToken { token: text::trim(typed) })
            }
            &&& a.form.field != Some(LoginField::Totp) && a.form.field != Some(LoginField::Token)
                ==> {
                &&& sent <==> text::trim(a.form.email.text).len() > 0 && typed.len() > 0
                &&& sent ==> n.login.outbox.last() == (Order::Password {
                    email: text::trim(a.form.email.text),
                    password: typed,
                })
            }
        }),
{
}

/// Blanks around what is typed do not reach the order: a code and a token go out
/// without them.
pub proof fn blanks_around_do_not_count(
    a: App,
    blank: Seq<char>,
    core: Seq<char>,
    after: Seq<char>,
)
    requires
        text::is_blank(blank),
        text::is_blank(after),
        core.len() > 0,
        !text::is_space(core[0]),
        !text::is_space(core.last()),
        a.form.input.text == blank + core + after,
    ensures
        ({
            let (n, sent) = a.login_sent();
            &&& a.form.field == Some(LoginField::Totp) ==> sent && n.login.outbox
                == a.login.outbox.push(Order::Totp { code: core })
            &&& a.form.field == Some(LoginField::Token) ==> sent && n.login.outbox
                == a.login.outbox.push(Order::BotToken { token: core })
        }),
{
    text::trim_drops_the_blanks_around(blank, core, after);
}

/// What the buttons of the login screens do, by their names.
pub proof fn login_buttons_do_what_they_say(a: App, slot: Seq<char>)
    ensures
        ({
            let (n, did) = a.login_pressed(slot);
            &&& slot == "login_password"@ ==> did && n.login.session == Stage::Password
                && n.form.form == Some(LoginField::Password) && n.form.field is None
                && n.login.outbox == a.login.outbox
            &&& slot == "login_submit"@ ==> (n, did) == a.login_sent()
            &&& slot == "login_back"@ || slot == "login_qr"@ ==> {
                &&& did
                &&& n.login.outbox == a.login.outbox.push(Order::CancelPassword)
                &&& n.form.input.text.len() == 0
                &&& n.form.field is None
                &&& n.form.error is None
                &&& n.form.field_errors.len() == 0
                &&& n.form.form == (if a.given.mobile {
                    Some(LoginField::Password)
                } else {
                    None
                })
            }
            &&& slot == "login_forgot_password"@ || slot == "login_register"@ ==> did && n == a
            &&& did ==> slot == "login_password"@ || slot == "login_submit"@ || slot
                == "login_back"@ || slot == "login_qr"@ || slot == "login_forgot_password"@ || slot
                == "login_register"@
            &&& !did && slot != "login_submit"@ ==> n == a
        }),
{
    reveal_strlit("login_password");
    reveal_strlit("login_submit");
    reveal_strlit("login_back");
    reveal_strlit("login_qr");
    reveal_strlit("login_forgot_password");
    reveal_strlit("login_register");
    assert("login_password"@.len() == 14 && "login_submit"@.len() == 12 && "login_back"@.len()
        == 10 && "login_qr"@.len() == 8 && "login_forgot_password"@.len() == 21
        && "login_register"@.len() == 14);
    assert("login_password"@[6] == 'p' && "login_register"@[6] == 'r');
}

/// A QR login from its code to the end: the code is shown, whoever scanned it is
/// named beside it, the approval is said, and then that person is in, whatever
/// the state before.
pub proof fn a_qr_login_runs_to_the_end(
    l: Entry,
    url: Seq<char>,
    who: ScannedView,
    done: LoggedInView,
)
    ensures
        ({
            let shown = applied(l, News::Qr(url));
            let scanned = applied(shown, News::Scanned(who));
            let approved = applied(scanned, News::Approved);
            let end = applied(approved, News::Done(done));
            &&& shown.session == (Stage::WaitingForScan { url, scanned: None })
            &&& scanned.session == (Stage::WaitingForScan { url, scanned: Some(who) })
            &&& approved.session == Stage::Exchanging
            &&& end.session == Stage::LoggedIn(done)
            &&& qr_of(shown.session) == Some(url)
            &&& qr_of(scanned.session) == Some(url)
            &&& qr_of(end.session) is None
            &&& in_as(end.session) == Some(done)
            &&& in_as(approved.session) is None
            &&& end.notice is None
            &&& end.outbox == l.outbox
        }),
{
}

/// Where the other events lead: a failure is shown with its reason, a second
/// factor asks for the code, a captcha keeps the form and is kept to be solved,
/// failures of fields are kept and leave the screen, and starting over connects
/// anew.
pub proof fn events_lead_to_their_screens(
    l: Entry,
    reason: Seq<char>,
    email: Seq<char>,
    captcha: ChallengeView,
    wrong: Seq<FieldErrorView>,
)
    ensures
        applied(l, News::Failed(reason)).session == Stage::Failed(reason),
        applied(l, News::TotpNeeded { email }).session == Stage::PasswordTotp,
        applied(l, News::CaptchaNeeded(captcha)).session == Stage::Password,
        applied(l, News::CaptchaNeeded(captcha)).pending == Some(captcha),
        applied(l, News::FieldErrors(wrong)).field_errors == wrong,
        applied(l, News::FieldErrors(wrong)).session == l.session,
        applied(l, News::Restarted).session == Stage::Connecting,
        applied(l, News::Restarted).pending == l.pending,
        applied(l, News::Failed(reason)).notice == l.notice,
{
}

/// A password login that goes through: the token that came back is checked, the
/// password is forgotten, and who it belongs to is in with it.
pub proof fn a_password_login_goes_through(a: Attempt, token: Token, me: CurrentUser)
    ensures
        ({
            let i = PasswordInput::Token(token);
            let b = attempt_after(a, i);
            let j = PasswordInput::Authenticated(Box::new(me));
            &&& attempt_next(a, i) == PasswordDo::Authenticate(token@)
            &&& attempt_news(a, i) is None
            &&& b.password.len() == 0
            &&& b.solved is None
            &&& attempt_next(b, j) == PasswordDo::Done(token@)
            &&& attempt_news(b, j) == Some(
                News::Done(LoggedInView { me: me@, token: token@, bot: false }),
            )
        }),
{
}

/// A second factor: the code is asked for by the email, goes out with the ticket
/// that asked for it, and with that ticket once only.
pub proof fn a_second_factor_is_asked_for(a: Attempt, ticket: String, code: String)
    ensures
        ({
            let i = PasswordInput::MfaRequired { ticket };
            let b = attempt_after(a, i);
            let j = PasswordInput::Code(code);
            let c = attempt_after(b, j);
            &&& attempt_next(a, i) == PasswordDo::WaitForCode
            &&& attempt_news(a, i) == Some(News::TotpNeeded { email: a.email })
            &&& attempt_next(b, j) == (PasswordDo::Mfa { ticket: ticket@, code: code@ })
            &&& c.ticket is None
            &&& c.email == a.email && c.password == a.password
            &&& attempt_next(c, j) == (PasswordDo::Login {
                email: a.email,
                password: a.password,
                solved: a.solved,
            })
            &&& attempt_next(c, PasswordInput::MfaRefused) == (PasswordDo::Login {
                email: a.email,
                password: a.password,
                solved: a.solved,
            })
            &&& attempt_news(c, PasswordInput::MfaRefused) == Some(
                News::TotpNeeded { email: a.email },
            )
        }),
{
}

/// A captcha: it is handed out to be solved, and its solution goes along with
/// the same email and password.
pub proof fn a_captcha_is_handed_out(a: Attempt, c: CaptchaChallenge, s: SolvedCaptcha)
    ensures
        attempt_next(a, PasswordInput::CaptchaRequired(c)) == PasswordDo::WaitForCaptcha,
        attempt_news(a, PasswordInput::CaptchaRequired(c)) == Some(News::CaptchaNeeded(c@)),
        attempt_after(a, PasswordInput::CaptchaRequired(c)) == a,
        attempt_next(a, PasswordInput::Solved(s)) == (PasswordDo::Login {
            email: a.email,
            password: a.password,
            solved: Some(s@),
        }),
        attempt_after(a, PasswordInput::Solved(s)).solved == Some(s@),
{
}

/// A login that fails says why, whether the call failed or the token was not
/// good.
pub proof fn a_failed_login_says_why(a: Attempt, why: String)
    ensures
        attempt_next(a, PasswordInput::LoginFailed(why)) == PasswordDo::Failed(why@),
        attempt_next(a, PasswordInput::AuthenticationFailed(why)) == PasswordDo::Failed(why@),
        attempt_news(a, PasswordInput::LoginFailed(why)) is None,
        attempt_news(a, PasswordInput::AuthenticationFailed(why)) is None,
        attempt_next(a, PasswordInput::Cancelled) == PasswordDo::Cancelled,
{
}

/// QR attempts that fail are tried again after two seconds, then four, and so
/// on, a minute at most; a password login that ends without signing in starts
/// that over. An attempt that was only reset is tried again at once.
pub proof fn tries_wait_longer_each_time(run: Run, why: String)
    ensures
        ({
            let t = Turn::QrFailed(why);
            &&& run_onward(run, t) == Onward::AgainAfter(run.wait_ms)
            &&& run_after(run, t).wait_ms == (if 2 * run.wait_ms < 60_000 {
                2 * run.wait_ms
            } else {
                60_000
            })
            &&& run_events(run, t) == seq![News::Failed(why@)]
        }),
        ({
            let t = Turn::Password(PasswordRun::Error(why));
            &&& run_after(run, t).wait_ms == 2_000
            &&& run_onward(run, t) == Onward::Again
            &&& run_events(run, t) == seq![News::Failed(why@), News::Restarted]
        }),
        run_after(run, Turn::Password(PasswordRun::Cancelled)).wait_ms == 2_000,
        run_events(run, Turn::Password(PasswordRun::Cancelled)) == seq![News::Restarted],
        run_onward(run, Turn::QrReset) == Onward::Again,
        run_events(run, Turn::QrReset) == seq![News::Restarted],
        run_after(run, Turn::QrReset) == run,
        run_events(run, Turn::Bot(false)) == seq![News::Restarted],
        run_onward(run, Turn::Bot(false)) == Onward::Again,
        run_onward(run, Turn::Restored(RestoreOutcome::Gone)) == Onward::ShowQr,
        run_onward(run, Turn::Restored(RestoreOutcome::Unchecked)) == Onward::ShowQr,
        run_events(run, Turn::Restored(RestoreOutcome::Unchecked)).len() == 0,
        !run.said_ended ==> run_events(run, Turn::Restored(RestoreOutcome::Gone)) == seq![
            News::Ended,
        ],
        run.said_ended ==> run_events(run, Turn::Restored(RestoreOutcome::Gone)).len() == 0,
{
}

/// A stored token that is still good brings its owner back, as a person and not
/// as a bot; one that was refused is gone, and one that could not be checked
/// decides nothing.
pub proof fn stored_tokens_come_back(token: Seq<char>, me: CurrentUser)
    ensures
        outcome_of(token, Checked::Good(Box::new(me))) == Restored::LoggedIn(
            LoggedInView { me: me@, token, bot: false },
        ),
        outcome_of(token, Checked::Refused) == Restored::Gone,
        outcome_of(token, Checked::Unknown) == Restored::Unchecked,
{
}

// ── typing and sending ─────────────────────────────────────────────────────

/// What a field holds after typing: what stood before the selection, what was
/// typed, and what stood behind it, with the caret behind what was typed. A
/// composition is still marked as one; selecting everything selects everything.
pub proof fn fields_take_what_is_typed(d: Doc, s: Seq<char>)
    requires
        d.selection.start <= d.selection.end <= d.text.len(),
        d.text.len() + s.len() <= usize::MAX,
    ensures
        d.inserted(s).text == d.text.subrange(0, d.selection.start as int) + s + d.text.subrange(
            d.selection.end as int,
            d.text.len() as int,
        ),
        d.inserted(s).selection.start == d.selection.start + s.len(),
        d.inserted(s).selection.end == d.selection.start + s.len(),
        d.inserted(s).composing is None,
        d.composing is None ==> d.composed(s).text == d.inserted(s).text,
        d.composing is None ==> (d.composed(s).composing matches Some(c) && c.start
            == d.selection.start && c.end == d.selection.start + s.len()),
        d.all_selected().selection.start == 0,
        d.all_selected().selection.end == d.text.len(),
        d.all_selected().text == d.text,
        Doc::empty().inserted(s).text == s,
        Doc::empty().text.len() == 0,
{
    assert(d.text.take(d.selection.start as int) =~= d.text.subrange(0, d.selection.start as int));
    assert(d.text.skip(d.selection.end as int) =~= d.text.subrange(
        d.selection.end as int,
        d.text.len() as int,
    ));
    assert(Doc::empty().inserted(s).text =~= s);
}

/// A composition takes the place of the one before it, however often.
pub proof fn compositions_replace_each_other(d: Doc, a: Seq<char>, b: Seq<char>)
    requires
        d.composing is None,
        d.selection.start <= d.selection.end <= d.text.len(),
        d.text.len() + a.len() + b.len() <= usize::MAX,
    ensures
        d.composed(a).composed(b).text == d.composed(b).text,
        d.composed(a).composed(b).selection == d.composed(b).selection,
{
    let one = d.composed(a);
    let s = d.selection.start as int;
    let e = d.selection.end as int;
    assert(one.text.take(s) =~= d.text.take(s));
    assert(one.text.skip(s + a.len()) =~= d.text.skip(e));
}

/// Typing reaches the field that is focused and no other: the email field, the
/// field for secrets, or the composer.
pub proof fn typing_reaches_the_focused_field(a: App, s: Seq<char>)
    ensures
        ({
            let (n, did) = a.typed(s);
            &&& did <==> a.focused()
            &&& !did ==> n == a
            &&& did && a.form.field is None ==> n.chat.input == a.chat.input.inserted(s) && n.form
                == a.form
            &&& did && a.form.field == Some(LoginField::Email) ==> n.form.email
                == a.form.email.inserted(s) && n.form.input == a.form.input && n.chat == a.chat
            &&& did && a.form.field is Some && a.form.field != Some(LoginField::Email)
                ==> n.form.input == a.form.input.inserted(s) && n.form.email == a.form.email
                && n.chat == a.chat
        }),
{
}

/// What enter does in the composer: nothing where it is blank; otherwise one
/// thing is asked for, an edit of the message that is edited, or a message, in
/// answer to the one that is answered, and naming its author only where that is
/// on. Then the composer is empty and a new message follows.
pub proof fn enter_sends_what_was_written(a: App)
    requires
        a.form.field is None,
        a.shows_main(),
    ensures
        ({
            let (n, did) = a.submitted();
            let written = a.chat.input.text;
            let channel = a.chat.selected_channel;
            &&& did <==> !text::is_blank(written)
            &&& !did ==> n == a
            &&& did ==> n.chat.input.text.len() == 0 && n.chat.composing == Composing::New
                && n.chat.selected_channel == channel
            &&& did && !a.uses_live() ==> n.effects == a.effects
            &&& did && a.uses_live() ==> match a.chat.composing {
                Composing::New => n.effects == a.effects.push(
                    Doing::Send { channel, text: written, reply_to: None, mention: false },
                ),
                Composing::Reply(id) => n.effects == a.effects.push(
                    Doing::Send {
                        channel,
                        text: written,
                        reply_to: Some(id),
                        mention: a.chat.reply_mention,
                    },
                ),
                Composing::Edit(id) => n.effects == a.effects.push(
                    Doing::EditMessage { channel, message: id, text: written },
                ),
            }
        }),
{
}

/// A reply from its menu to the server: choosing it points the composer at the
/// message and names its author, what is typed then is sent as its answer.
pub proof fn a_reply_answers_its_message(a: App, id: u64, s: Seq<char>)
    requires
        a.form.field is None,
        a.shows_main(),
        a.uses_live(),
        a.chat.input == Doc::empty(),
        !text::is_blank(s),
    ensures
        ({
            let chosen = a.performed(Deed::Reply(id)).0;
            let typed = chosen.typed(s).0;
            let (sent, did) = typed.submitted();
            &&& did
            &&& sent.effects == a.effects.push(
                Doing::Send {
                    channel: a.chat.selected_channel,
                    text: s,
                    reply_to: Some(id),
                    mention: true,
                },
            )
        }),
{
    assert(Doc::empty().inserted(s).text =~= s);
}

/// An edit: the composer holds what the message said, and what it holds when it
/// is sent replaces that. Giving up an edit empties the composer; giving up a
/// reply keeps the draft.
pub proof fn an_edit_changes_its_message(a: App, id: u64, body: Seq<char>)
    requires
        a.form.field is None,
        a.shows_main(),
        a.uses_live(),
        a.body_of(id) == Some(body),
        !text::is_blank(body),
    ensures
        ({
            let (chosen, could) = a.performed(Deed::Edit(id));
            let (sent, did) = chosen.submitted();
            &&& could
            &&& chosen.chat.input.text == body
            &&& chosen.chat.input_focused
            &&& did
            &&& sent.effects == a.effects.push(
                Doing::EditMessage { channel: a.chat.selected_channel, message: id, text: body },
            )
            &&& chosen.composing_stopped().1
            &&& chosen.composing_stopped().0.chat.input.text.len() == 0
            &&& chosen.composing_stopped().0.chat.composing == Composing::New
        }),
        a.performed(Deed::Reply(id)).0.composing_stopped().0.chat.input == a.chat.input,
        a.performed(Deed::Reply(id)).0.composing_stopped().0.chat.composing == Composing::New,
{
    assert(Doc::empty().inserted(body).text =~= body);
}

/// Deleting asks the server to delete that message of that channel, and an edit
/// of it is given up.
pub proof fn deleting_asks_for_that_message(a: App, id: u64)
    requires
        a.uses_live(),
    ensures
        a.performed(Deed::Delete(id)).1,
        a.performed(Deed::Delete(id)).0.effects == a.effects.push(
            Doing::DeleteMessage { channel: a.chat.selected_channel, message: id },
        ),
        a.chat.composing == Composing::Edit(id) ==> a.performed(Deed::Delete(id)).0.chat.composing
            == Composing::New,
        a.chat.composing != Composing::Edit(id) ==> a.performed(Deed::Delete(id)).0.chat.composing
            == a.chat.composing,
        a.confirmation(Deed::Delete(id)) matches Some(c) && c.action == Deed::Delete(id)
            && c.danger,
        a.confirmation(Deed::LogOut) matches Some(c) && c.action == Deed::LogOut && c.danger,
{
}

/// What is handed outside is handed out as it was asked for, once.
pub proof fn outside_work_is_handed_out(a: App, s: Seq<char>, id: u64, bot: bool)
    ensures
        a.performed(Deed::Copy(s)).0.effects == a.effects.push(Doing::CopyText(s)),
        a.performed(Deed::Paste).0.effects == a.effects.push(Doing::Paste),
        a.performed(Deed::MarkRead(id)).0.effects == a.effects.push(Doing::MarkRead(id)),
        a.performed(Deed::AddAccount).0.effects == a.effects.push(Doing::AddAccount),
        a.performed(Deed::SwitchAccount { id, bot }).0.effects == a.effects.push(
            Doing::SwitchAccount { id, bot },
        ),
        a.performed(Deed::SelectTheme(s)).0.effects == a.effects.push(Doing::SelectTheme(s)),
        a.performed(Deed::EnablePlugin(s)).0.effects == a.effects.push(Doing::EnablePlugin(s)),
        a.performed(Deed::DisablePlugin(s)).0.effects == a.effects.push(Doing::DisablePlugin(s)),
        a.performed(Deed::ReloadPlugin(s)).0.effects == a.effects.push(Doing::ReloadPlugin(s)),
        a.performed(Deed::ReapprovePlugin(s)).0.effects == a.effects.push(
            Doing::ReapprovePlugin(s),
        ),
        a.performed(Deed::ShareLog).0.effects == a.effects.push(Doing::ShareLog),
        a.performed(Deed::UseBundledTheme).0.effects == a.effects.push(Doing::UseBundledTheme),
        a.performed(Deed::InstallThemeFile).0.effects == a.effects.push(Doing::InstallThemeFile),
        a.performed(Deed::InstallPluginFile).0.effects == a.effects.push(Doing::InstallPluginFile),
        a.given.online ==> a.performed(Deed::LogOut).0.effects == a.effects.push(Doing::SignOut),
        !a.given.online ==> a.performed(Deed::LogOut) == (a, false),
        a.performed(Deed::ToggleFps).0.show_fps == !a.show_fps,
        a.performed(Deed::ToggleFps).0.effects == a.effects,
{
}

/// Cutting takes the selected text out of its field and hands it out; copying
/// hands it out and leaves it. Without a selection neither does anything.
pub proof fn the_selection_is_cut_and_copied(a: App)
    requires
        a.form.field is None,
        a.chat.input.selection.start <= a.chat.input.selection.end <= a.chat.input.text.len(),
    ensures
        ({
            let d = a.chat.input;
            let from = d.selection.start as int;
            let to = d.selection.end as int;
            let part = d.text.subrange(from, to);
            let (cut, did) = a.performed(Deed::Cut);
            let (copied, could) = a.performed(Deed::CopySelection);
            &&& did <==> from != to
            &&& could <==> from != to
            &&& did ==> cut.effects == a.effects.push(Doing::CopyText(part)) && cut.chat.input.text
                == d.text.subrange(0, from) + d.text.subrange(to, d.text.len() as int)
            &&& could ==> copied.effects == a.effects.push(Doing::CopyText(part)) && copied.chat
                == a.chat
            &&& from == to ==> cut == a && copied == a
        }),
{
    let d = a.chat.input;
    let from = d.selection.start as int;
    let to = d.selection.end as int;
    assert(d.text.take(from) + Seq::<char>::empty() + d.text.skip(to) =~= d.text.subrange(0, from)
        + d.text.subrange(to, d.text.len() as int));
}

// ── menus ──────────────────────────────────────────────────────────────────

/// The actions of a list of rows.
pub open spec fn deeds(items: Seq<ItemView>) -> Seq<Deed> {
    Seq::new(items.len(), |i: int| items[i].action)
}

/// What the menu of a message offers: answering and copying its id always,
/// changing and deleting it only where it is ours, copying what it says where
/// that is known.
pub proof fn message_menus_offer_what_can_be_done(a: App, id: u64, body: Seq<char>)
    requires
        a.body_of(id) == Some(body),
    ensures
        a.mine(id) ==> deeds(a.message_items(id)) == seq![
            Deed::Reply(id),
            Deed::Edit(id),
            Deed::Copy(body),
            Deed::Copy(text::dec(id as nat)),
            Deed::Delete(id),
        ],
        !a.mine(id) ==> deeds(a.message_items(id)) == seq![
            Deed::Reply(id),
            Deed::Copy(body),
            Deed::Copy(text::dec(id as nat)),
        ],
        a.channel_unread(id) ==> deeds(a.channel_items(id)) == seq![
            Deed::MarkRead(id),
            Deed::Copy(text::dec(id as nat)),
        ],
        !a.channel_unread(id) ==> deeds(a.channel_items(id)) == seq![
            Deed::Copy(text::dec(id as nat)),
        ],
        deeds(a.guild_items(id)) == seq![Deed::Copy(text::dec(id as nat))],
{
    assert(deeds(a.message_items(id)) =~= if a.mine(id) {
        seq![
            Deed::Reply(id),
            Deed::Edit(id),
            Deed::Copy(body),
            Deed::Copy(text::dec(id as nat)),
            Deed::Delete(id),
        ]
    } else {
        seq![Deed::Reply(id), Deed::Copy(body), Deed::Copy(text::dec(id as nat))]
    });
    assert(deeds(a.channel_items(id)) =~= if a.channel_unread(id) {
        seq![Deed::MarkRead(id), Deed::Copy(text::dec(id as nat))]
    } else {
        seq![Deed::Copy(text::dec(id as nat))]
    });
    assert(deeds(a.guild_items(id)) =~= seq![Deed::Copy(text::dec(id as nat))]);
}

/// A message is ours where we wrote it, and never while signed out.
pub proof fn only_our_messages_are_ours(a: App, id: u64, k: int)
    ensures
        in_as(a.login.session) is None ==> !a.mine(id),
        in_as(a.login.session) matches Some(l) ==> {
            &&& 0 <= k < a.messages().len() && a.messages()[k].id.0.0 == id
                && a.messages()[k].author.id == l.me.user.id ==> a.mine(id)
            &&& (forall|i: int|
                0 <= i < a.messages().len() && (#[trigger] a.messages()[i]).id.0.0 == id
                    ==> a.messages()[i].author.id != l.me.user.id) ==> !a.mine(id)
        },
{
}

/// The menu of a field: cutting and copying where something is selected, pasting
/// always, and selecting everything where there is anything.
pub proof fn field_menus_offer_what_can_be_done(a: App)
    ensures
        ({
            let d = a.field_shown();
            let selected = d.selection.start != d.selection.end;
            let ds = deeds(a.field_items());
            &&& selected && d.text.len() > 0 ==> ds == seq![
                Deed::Cut,
                Deed::CopySelection,
                Deed::Paste,
                Deed::SelectAll,
            ]
            &&& !selected && d.text.len() > 0 ==> ds == seq![Deed::Paste, Deed::SelectAll]
            &&& !selected && d.text.len() == 0 ==> ds == seq![Deed::Paste]
        }),
{
    let d = a.field_shown();
    let ds = deeds(a.field_items());
    if d.selection.start != d.selection.end && d.text.len() > 0 {
        assert(ds =~= seq![Deed::Cut, Deed::CopySelection, Deed::Paste, Deed::SelectAll]);
    } else if d.selection.start == d.selection.end && d.text.len() > 0 {
        assert(ds =~= seq![Deed::Paste, Deed::SelectAll]);
    } else if d.selection.start == d.selection.end {
        assert(ds =~= seq![Deed::Paste]);
    }
}

// ── moving about ───────────────────────────────────────────────────────────

/// Opening a channel opens that one, and what was waited for elsewhere is
/// dropped; opening a guild opens that one, with a channel that it has.
pub proof fn what_was_chosen_is_open(a: App, id: u64)
    ensures
        a.channel_selected(id).0.chat.selected_channel == id,
        a.channel_selected(id).1 <==> id != a.chat.selected_channel,
        id != a.chat.selected_channel ==> a.channel_selected(id).0.chat.pending_jump is None
            && a.channel_selected(id).0.chat.pending_reveal is None,
        a.guild_selected(id).0.chat.selected_guild == id,
        a.guild_selected(id).1 <==> id != a.chat.selected_guild,
        id != a.chat.selected_guild ==> a.guild_selected(id).0.chat.pending_jump is None,
{
}

/// Going to a message: one that is there is shown, one that is not is fetched
/// and shown once it is there, unless the reader has moved on.
pub proof fn jumps_end_at_their_message(a: App, id: u64)
    ensures
        a.loaded(id) ==> a.jumped(id).chat.pending_reveal == Some(id) && a.jumped(id).effects
            == a.effects,
        !a.loaded(id) && a.given.online ==> {
            &&& a.jumped(id).effects == a.effects.push(
                Doing::FetchAround { channel: a.chat.selected_channel, message: id },
            )
            &&& a.jumped(id).chat.pending_jump matches Some(j) && j.message == id && j.channel
                == a.channel_id()
        },
        !a.loaded(id) && !a.given.online ==> a.jumped(id).effects == a.effects && a.jumped(
            id,
        ).toasts.len() > 0,
        a.chat.pending_jump matches Some(j) ==> {
            let n = a.jump_settled();
            &&& j.channel != a.channel_id() ==> n.chat.pending_jump is None
                && n.chat.pending_reveal == a.chat.pending_reveal
            &&& j.channel == a.channel_id() && a.loaded(j.message) ==> n.chat.pending_jump is None
                && n.chat.pending_reveal == Some(j.message)
            &&& j.channel == a.channel_id() && !a.loaded(j.message) ==> n == a
        },
{
}

/// The drawer: it opens from shut and ends out, it closes from where it stands
/// and ends shut, and it is gone only once it has landed there.
pub proof fn the_drawer_opens_and_closes(a: App, now: u64)
    ensures
        !a.chat.drawer_open && a.has_drawer() ==> {
            let (n, did) = a.drawer_opened(now);
            &&& did
            &&& n.chat.drawer_open
            &&& !n.chat.member_sheet_open
            &&& n.chat.drawer.at == 0
            &&& n.chat.drawer.target == 1_000_000
            &&& n.chat.drawer.start == Some(now)
        },
        !a.chat.drawer_open && !a.has_drawer() ==> a.drawer_opened(now) == (a, false),
        a.chat.drawer_open ==> {
            let (n, did) = a.drawer_closed(now);
            &&& did
            &&& n.chat.drawer_open
            &&& n.chat.drawer.target == 0
            &&& n.chat.drawer.from == a.chat.drawer.at
            &&& n.chat.drawer.at == a.chat.drawer.at
            &&& n.chat.drawer.start == Some(now)
        },
        !a.chat.drawer_open ==> a.drawer_closed(now) == (a, false),
        a.chat.drawer_open && !a.chat.drawer.drag && a.chat.drawer.at == a.chat.drawer.target
            ==> a.drawer_advanced(now).0.chat.drawer_open == (a.chat.drawer.target != 0),
{
}

/// Letting go of the drawer: a flick decides by its direction, otherwise the
/// half it stands on does. A sheet closes the other way.
pub proof fn a_flick_decides(velocity: i64, at: u32)
    requires
        at <= 1_000_000,
    ensures
        velocity > FLING ==> drawer_side(velocity, at) == 1_000_000 && sheet_side(velocity, at)
            == 0,
        velocity < -FLING ==> drawer_side(velocity, at) == 0 && sheet_side(velocity, at)
            == 1_000_000,
        -FLING <= velocity <= FLING && at > 500_000 ==> drawer_side(velocity, at) == 1_000_000
            && sheet_side(velocity, at) == 1_000_000,
        -FLING <= velocity <= FLING && at < 500_000 ==> drawer_side(velocity, at) == 0
            && sheet_side(velocity, at) == 0,
{
}

/// The member list as a sheet: it comes over everything but a pane of its own,
/// shuts the drawer, and is there until its slide out has landed.
pub proof fn the_member_sheet_opens_and_closes(a: App, now: u64)
    ensures
        !a.chat.member_sheet_open && !a.given.panes.has_members() && a.shows_main() ==> {
            let (n, did) = a.member_sheet_opened(now);
            &&& did
            &&& n.chat.member_sheet_open
            &&& !n.chat.drawer_open
            &&& n.sheet.at == 0
            &&& n.sheet.target == 1_000_000
            &&& n.sheet_closing is None
        },
        a.chat.member_sheet_open ==> {
            let (n, did) = a.member_sheet_closed(now);
            &&& did
            &&& n.chat.member_sheet_open
            &&& n.sheet.target == 0
            &&& !n.sheet_landed().chat.member_sheet_open
            &&& n.sheet_landed().sheet_closing is None
        },
{
}

// ── what is shown ──────────────────────────────────────────────────────────

/// Whose header a message stands under: the one before it shares it where the
/// same person wrote both on one day within seven minutes and neither is an
/// answer. A day is named where it begins.
pub proof fn runs_share_a_header(ls: Seq<MessageLine>, k: int)
    requires
        0 < k < ls.len(),
    ensures
        grouped_at(ls, k) <==> ls[k].reply is None && ls[k - 1].reply is None && ls[k].author
            == ls[k - 1].author && ls[k].day == ls[k - 1].day && ls[k].day.len() > 0 && ls[k].unix
            - ls[k - 1].unix < 420,
        !grouped_at(ls, 0),
        ls[k].day.len() > 0 && ls[k - 1].day.len() > 0 ==> (day_starts(ls, k) <==> ls[k].day
            != ls[k - 1].day),
        day_starts(ls, 0) <==> ls[0].day.len() > 0,
        ls[k].day.len() == 0 ==> !day_starts(ls, k),
{
    assert(last_day(ls, 0) =~= seq![]);
}

/// Every message is shown, in order, each behind its day where one begins.
pub proof fn every_message_is_shown(a: App, ls: Seq<MessageLine>, n: nat)
    requires
        n < ls.len(),
    ensures
        ({
            let before = a.message_nodes(ls, n);
            let after = a.message_nodes(ls, n + 1);
            let shown = a.message_node(ls[n as int], grouped_at(ls, n as int));
            &&& after.last() == shown
            &&& !day_starts(ls, n as int) ==> after == before.push(shown)
            &&& day_starts(ls, n as int) ==> after == before.push(
                divider_node(ls[n as int].day),
            ).push(shown)
        }),
        a.message_nodes(ls, 0).len() == 0,
{
}

/// Who is typing, by name up to three, and by number beyond two.
pub proof fn typing_names_who_types(ns: Seq<Seq<char>>)
    ensures
        ns.len() == 0 ==> typing_shown(ns).len() == 0,
        ns.len() == 1 ==> typing_shown(ns) == "  "@ + ns[0] + " が入力中…"@,
        ns.len() == 2 ==> typing_shown(ns) == "  "@ + ns[0] + " と "@ + ns[1] + " が入力中…"@,
        ns.len() == 3 ==> typing_shown(ns) == "  "@ + ns[0] + "、"@ + ns[1] + "、"@ + ns[2]
            + " が入力中…"@,
        ns.len() > 3 ==> typing_shown(ns) == "  "@ + ns[0] + "、"@ + ns[1] + " ほか "@ + text::dec(
            (ns.len() - 2) as nat,
        ) + " 人が入力中…"@,
{
}

} // verus!
