//! Signing in, as the app sees it.

use gumicord::gateway::remote_auth::{RemoteAuthError, RemoteAuthEvent, ScannedUser};
use gumicord::json::{Json, Number};
use gumicord::model::de::FromJson;
use gumicord::model::token::Token;
use gumicord::model::{CurrentUser, UserId};
use gumicord::session::{
    attempt_step, await_captcha, await_totp, bot_token_checked, exchange_checked, restore_checked,
    restore_start, CaptchaChallenge, Checked, Heard, LoggedIn, Login, LoginCommand, LoginEvent,
    Onward, PasswordInput, PasswordLogin, PasswordNext, PasswordRun, QrNext, RestoreOutcome, Run,
    Session, SolvedCaptcha, Stored, Turn, RETRY_MAX_MS, RETRY_MIN_MS,
};

fn plain(v: &serde_json::Value) -> Json {
    match v {
        serde_json::Value::Null => Json::Null,
        serde_json::Value::Bool(b) => Json::Bool(*b),
        serde_json::Value::Number(n) => Json::Number(match (n.as_u64(), n.as_i64()) {
            (Some(u), _) => Number::Unsigned(u),
            (None, Some(i)) => Number::Negative(i),
            (None, None) => Number::Other,
        }),
        serde_json::Value::String(s) => Json::Text(s.clone()),
        serde_json::Value::Array(a) => Json::Array(a.iter().map(plain).collect()),
        serde_json::Value::Object(o) => {
            Json::Object(o.iter().map(|(k, v)| (k.clone(), plain(v))).collect())
        }
    }
}

fn json(s: &str) -> Json {
    plain(&serde_json::from_str(s).expect("malformed JSON"))
}

fn fresh() -> Login {
    Login::new(None)
}

fn user(name: &str) -> ScannedUser {
    ScannedUser {
        id: UserId::from(1u64),
        username: name.to_owned(),
        discriminator: "0".to_owned(),
        avatar: None,
    }
}

fn me() -> CurrentUser {
    CurrentUser::from_json(&json(r#"{"id":"1","username":"ねんねこ"}"#)).unwrap()
}

fn solved() -> SolvedCaptcha {
    SolvedCaptcha { key: "k".to_owned(), rqtoken: Some("r".to_owned()), session_id: None }
}

fn challenge() -> CaptchaChallenge {
    CaptchaChallenge {
        sitekey: Some("abc".to_owned()),
        service: None,
        rqdata: Some("def".to_owned()),
        rqtoken: Some("ghi".to_owned()),
        session_id: Some("s".to_owned()),
    }
}

#[test]
fn the_qr_only_appears_once_it_is_ready() {
    let mut login = fresh();
    assert!(login.session().qr().is_none(), "a QR before connecting");

    login.apply(LoginEvent::Qr("https://example/1".to_owned()));
    assert_eq!(login.session().qr(), Some("https://example/1"));
}

/// A scan does not clear the QR: it still works if approval is cancelled.
#[test]
fn scanning_keeps_the_qr_alive() {
    let mut login = fresh();
    login.apply(LoginEvent::Qr("https://example/1".to_owned()));
    login.apply(LoginEvent::Scanned(user("ねんねこ")));

    assert_eq!(login.session().qr(), Some("https://example/1"));
    assert!(login.session().hint().contains("ねんねこ"));
}

/// The order may change, so a scan before the QR must not break.
#[test]
fn a_scan_without_a_qr_is_ignored() {
    let mut login = fresh();
    login.apply(LoginEvent::Scanned(user("ねんねこ")));
    assert!(matches!(login.session(), Session::Connecting));
}

/// Wakes coalesce, so one poll must drain everything.
#[test]
fn polling_drains_everything_that_arrived() {
    let mut login = fresh();
    login.deliver(LoginEvent::Qr("a".to_owned()));
    login.deliver(LoginEvent::Qr("b".to_owned()));
    login.deliver(LoginEvent::Scanned(user("ねんねこ")));

    assert!(login.poll());
    assert_eq!(login.session().qr(), Some("b"), "did not advance to the last event");
    assert!(login.session().hint().contains("ねんねこ"));
    assert!(!login.poll(), "an empty poll asked for a redraw");
}

#[test]
fn failure_is_shown_not_swallowed() {
    let mut login = fresh();
    login.apply(LoginEvent::Failed("接続できない".to_owned()));
    assert!(login.session().hint().contains("接続できない"));
    assert!(login.session().qr().is_none());
}

/// Being signed out on its own must say why, or the QR screen reads as a
/// crash. The notice leads and leaves once signing in succeeds.
#[test]
fn a_notice_leads_until_signing_in_succeeds() {
    let mut login = fresh();
    login.apply(LoginEvent::Qr("https://example/1".to_owned()));
    login.set_notice("セッションが無効になったため、ログアウトしました");
    assert!(login.hint().contains("セッションが無効"));
    assert!(
        login.hint().contains("QR を読み取ってください"),
        "the how-to line must survive"
    );

    login.apply(LoginEvent::Done(Box::new(LoggedIn {
        me: me(),
        token: Token::new("t"),
        bot: false,
    })));
    assert_eq!(login.hint(), login.session().hint(), "notice outlived login");
}

#[test]
fn without_a_notice_the_hint_is_unchanged() {
    let mut login = fresh();
    login.apply(LoginEvent::Qr("https://example/1".to_owned()));
    assert_eq!(login.hint(), login.session().hint());
}

/// The end is picked up exactly once, and it does not stop the QR flow: a
/// fresh sign-in is the only way forward after it.
#[test]
fn the_end_is_reported_once_and_the_qr_keeps_running() {
    let mut login = fresh();
    assert!(!login.take_ended());

    login.apply(LoginEvent::Ended);
    login.apply(LoginEvent::Qr("https://example/1".to_owned()));

    assert!(login.take_ended());
    assert!(!login.take_ended(), "read twice");
    assert_eq!(login.session().qr(), Some("https://example/1"), "the QR flow stopped");
}

/// Starting the password form puts the session in the password state.
#[test]
fn starting_the_password_form_switches_to_it() {
    let mut login = fresh();
    login.start_password();
    assert!(matches!(login.session(), Session::Password));
    assert!(login.session().hint().contains("パスワード"));
}

/// Choosing another way in does not take away why the last session ended.
#[test]
fn a_notice_outlives_the_choice_of_form() {
    let mut login = fresh();
    login.set_notice("理由");
    login.start_password();
    assert!(matches!(login.session(), Session::Password));
    assert_eq!(login.hint(), format!("理由。{}", login.session().hint()));
    login.start_token();
    assert_eq!(login.hint(), format!("理由。{}", login.session().hint()));
}

/// A captcha challenge keeps the password form up and is captured for the
/// platform, once.
#[test]
fn a_captcha_challenge_keeps_the_password_form() {
    let mut login = fresh();
    login.apply(LoginEvent::CaptchaNeeded(challenge()));
    assert!(matches!(login.session(), Session::Password));

    let pending = login.take_pending().expect("the challenge is captured");
    assert_eq!(pending.sitekey.as_deref(), Some("abc"));
    assert_eq!(pending.rqtoken.as_deref(), Some("ghi"));
    assert!(login.take_pending().is_none(), "read once");
}

/// Needing a TOTP code advances the session to the second factor step.
#[test]
fn needing_a_totp_code_advances_to_it() {
    let mut login = fresh();
    login.apply(LoginEvent::TotpNeeded { email: "a@b.c".to_owned() });
    assert!(matches!(login.session(), Session::PasswordTotp));
    assert!(login.session().hint().contains("コード"));
}

/// Each of the senders places exactly one command.
#[test]
fn password_commands_reach_the_background() {
    let mut login = fresh();

    login.submit_password("a@b.c".to_owned(), "secret".to_owned());
    login.submit_totp("123456".to_owned());
    login.submit_captcha(solved());
    login.submit_bot_token("bot-token".to_owned());
    login.cancel_password();

    let mut sent = login.take_commands().into_iter();
    assert!(matches!(sent.next(), Some(LoginCommand::Password { .. })));
    assert!(matches!(sent.next(), Some(LoginCommand::Totp { .. })));
    assert!(matches!(sent.next(), Some(LoginCommand::Captcha(_))));
    assert!(
        matches!(sent.next(), Some(LoginCommand::BotToken { token }) if token == "bot-token")
    );
    assert!(matches!(sent.next(), Some(LoginCommand::CancelPassword)));
    assert!(sent.next().is_none(), "an extra command leaked");
}

#[test]
fn a_set_variable_skips_login() {
    assert!(Login::new(Some("1")).shows_main());
    assert!(!Login::new(None).shows_main());
    assert!(Login::skipped().shows_main());
}

// ── the stored token ───────────────────────────────────────────────────────

/// A refused token is thrown away; one that could not be checked is kept.
#[test]
fn only_a_refusal_discards_the_stored_token() {
    let start = restore_start(Stored::Bytes(b"a.token".to_vec()));
    let token = start.token.expect("no token");
    assert_eq!(token.expose(), "a.token");
    assert!(!start.clear);
    let unreadable = restore_start(Stored::Unreadable);
    assert!(unreadable.token.is_none() && unreadable.clear);
    let nothing = restore_start(Stored::Nothing);
    assert!(nothing.token.is_none() && !nothing.clear);
    let broken = restore_start(Stored::Bytes(vec![b'a', 0xff])).token.expect("no token");
    assert_eq!(broken.expose(), "a\u{fffd}");

    let (outcome, clear) = restore_checked(Token::new("t"), Checked::Refused);
    assert!(matches!(outcome, RestoreOutcome::Gone) && clear);
    let (outcome, clear) = restore_checked(Token::new("t"), Checked::Unknown);
    assert!(matches!(outcome, RestoreOutcome::Unchecked) && !clear);
    let (outcome, clear) = restore_checked(Token::new("t"), Checked::Good(Box::new(me())));
    match outcome {
        RestoreOutcome::LoggedIn(l) => assert!(l.token.expose() == "t" && !l.bot),
        _ => panic!("not signed in"),
    }
    assert!(!clear);
}

// ── the loop ───────────────────────────────────────────────────────────────

/// The loop goes on until someone is in; the waits between failures grow.
#[test]
fn the_loop_goes_on_until_someone_is_in() {
    let mut run = Run::new();
    let step = run.turn(Turn::Restored(RestoreOutcome::Gone));
    assert!(matches!(step.events.as_slice(), [LoginEvent::Ended]));
    assert_eq!(step.onward, Onward::ShowQr);
    let step = run.turn(Turn::Restored(RestoreOutcome::Gone));
    assert!(step.events.is_empty(), "said twice");

    let mut wait = RETRY_MIN_MS;
    for _ in 0..10 {
        let step = run.turn(Turn::QrFailed("x".to_owned()));
        assert_eq!(step.onward, Onward::AgainAfter(wait));
        assert!(matches!(step.events.as_slice(), [LoginEvent::Failed(e)] if e == "x"));
        wait = (wait * 2).min(RETRY_MAX_MS);
    }

    let step = run.turn(Turn::Password(PasswordRun::Error("e".to_owned())));
    assert!(matches!(
        step.events.as_slice(),
        [LoginEvent::Failed(_), LoginEvent::Restarted]
    ));
    assert_eq!(run.wait_ms, RETRY_MIN_MS);
    let step = run.turn(Turn::QrReset);
    assert!(matches!(step.events.as_slice(), [LoginEvent::Restarted]));
    assert_eq!(step.onward, Onward::Again);
    assert_eq!(run.turn(Turn::Stray).onward, Onward::Again);
    assert_eq!(run.turn(Turn::Bot(true)).onward, Onward::Finish);
    assert_eq!(run.turn(Turn::QrDone).onward, Onward::Finish);
}

#[test]
fn a_wait_ends_with_what_it_waits_for_or_with_giving_up() {
    let code = || LoginCommand::Totp { code: "123456".to_owned() };
    assert!(matches!(await_totp(Some(code())), Heard::Got(c) if c == "123456"));
    assert!(matches!(await_totp(Some(LoginCommand::Captcha(solved()))), Heard::Wait));
    assert!(matches!(await_totp(Some(LoginCommand::CancelPassword)), Heard::Gone));
    assert!(matches!(await_totp(None), Heard::Gone));

    assert!(matches!(
        await_captcha(Some(LoginCommand::Captcha(solved()))),
        Heard::Got(s) if s == solved()
    ));
    assert!(matches!(await_captcha(Some(code())), Heard::Wait));
    assert!(matches!(await_captcha(None), Heard::Gone));
}

/// Captcha, second factor, check: the whole way of a password login.
#[test]
fn a_password_login_goes_through_captcha_and_code() {
    let (mut p, first) = PasswordLogin::new("a@b.c".to_owned(), "secret".to_owned());
    assert!(matches!(first, PasswordNext::Login { solved: None, .. }));

    let step = p.step(PasswordInput::CaptchaRequired(challenge()));
    assert!(matches!(step.event, Some(LoginEvent::CaptchaNeeded(_))));
    assert!(matches!(step.next, PasswordNext::WaitForCaptcha));
    let step = p.step(PasswordInput::Solved(solved()));
    assert!(matches!(
        step.next,
        PasswordNext::Login { email, password, solved: Some(_) }
            if email == "a@b.c" && password == "secret"
    ));

    let step = p.step(PasswordInput::MfaRequired { ticket: "ticket".to_owned() });
    assert!(matches!(step.event, Some(LoginEvent::TotpNeeded { email }) if email == "a@b.c"));
    assert!(matches!(step.next, PasswordNext::WaitForCode));
    let step = p.step(PasswordInput::Code("123456".to_owned()));
    assert!(matches!(
        step.next,
        PasswordNext::Mfa { ticket, code } if ticket == "ticket" && code == "123456"
    ));

    let step = p.step(PasswordInput::Token(Token::new("t")));
    assert!(matches!(step.next, PasswordNext::Authenticate(t) if t.expose() == "t"));
    let step = p.step(PasswordInput::Authenticated(Box::new(me())));
    assert!(matches!(
        step.event,
        Some(LoginEvent::Done(l)) if l.token.expose() == "t" && !l.bot
    ));
    assert!(matches!(step.next, PasswordNext::Done(t) if t.expose() == "t"));
}

#[test]
fn a_password_login_can_fail_or_be_called_off() {
    let begin = || PasswordLogin::new("a@b.c".to_owned(), "secret".to_owned()).0;
    let step = begin().step(PasswordInput::LoginFailed("no".to_owned()));
    assert!(step.event.is_none());
    assert!(matches!(step.next, PasswordNext::Failed(e) if e == "no"));
    let step = begin().step(PasswordInput::Cancelled);
    assert!(matches!(step.next, PasswordNext::Cancelled));
    let step = begin().step(PasswordInput::AuthenticationFailed("bad".to_owned()));
    assert!(matches!(step.next, PasswordNext::Failed(e) if e == "bad"));

    // A refused code starts over with the password.
    let mut p = begin();
    p.step(PasswordInput::MfaRequired { ticket: "ticket".to_owned() });
    p.step(PasswordInput::Code("000000".to_owned()));
    let step = p.step(PasswordInput::MfaRefused);
    assert!(matches!(step.event, Some(LoginEvent::TotpNeeded { .. })));
    assert!(matches!(step.next, PasswordNext::Login { .. }));
}

// ── the QR and bots ────────────────────────────────────────────────────────

#[test]
fn the_qr_attempt_reports_exchanges_or_expires() {
    let ready = RemoteAuthEvent::Ready { url: "u".to_owned(), fingerprint: "f".to_owned() };
    assert!(matches!(
        attempt_step(Ok(ready)),
        QrNext::Report(LoginEvent::Qr(u)) if u == "u"
    ));
    assert!(matches!(
        attempt_step(Ok(RemoteAuthEvent::Approved { ticket: "t".to_owned() })),
        QrNext::Exchange { ticket } if ticket == "t"
    ));
    assert!(matches!(attempt_step(Ok(RemoteAuthEvent::Cancelled)), QrNext::Expired));
    assert!(matches!(attempt_step(Err(RemoteAuthError::Closed)), QrNext::Expired));
    assert!(matches!(
        attempt_step(Err(RemoteAuthError::Decrypt)),
        QrNext::Failed(e) if e == RemoteAuthError::Decrypt.to_string()
    ));
}

#[test]
fn a_token_signs_in_only_once_it_is_checked() {
    let (event, done) = bot_token_checked(Token::new("t"), Ok(me()));
    assert!(matches!(event, LoginEvent::Done(l) if l.bot) && done);
    let (event, done) = bot_token_checked(Token::new("t"), Err("no".to_owned()));
    assert!(matches!(event, LoginEvent::Failed(e) if e == "no") && !done);

    assert!(matches!(
        exchange_checked(Token::new("t"), Ok(me())),
        Ok(LoginEvent::Done(l)) if !l.bot && l.token.expose() == "t"
    ));
    assert!(matches!(
        exchange_checked(Token::new("t"), Err("no".to_owned())),
        Err(e) if e == "no"
    ));
}
