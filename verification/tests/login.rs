//! The login screen.

use gumicord::live::{GuildState, Live};
use gumicord::menu::{Action, Floating, Point};
use gumicord::model::GuildId;
use gumicord::pages::login::SESSION_ENDED;
use gumicord::pages::overlays::{Hit, Rect};
use gumicord::session::{
    CaptchaChallenge, FieldError, Login, LoginCommand, LoginEvent, Session, SolvedCaptcha,
};
use gumicord::shell::{Given, Gumicord, HiddenKey, LoginField};
use gumicord::ui::{Content, Key, NodeId, UiNode};

const CODE: [HiddenKey; 10] = [
    HiddenKey::Up,
    HiddenKey::Up,
    HiddenKey::Down,
    HiddenKey::Down,
    HiddenKey::Left,
    HiddenKey::Right,
    HiddenKey::Left,
    HiddenKey::Right,
    HiddenKey::B,
    HiddenKey::A,
];

/// A signed-out app.
fn pending() -> Gumicord {
    Gumicord::new(Given::new(), Login::new(None), Live::new())
}

fn walk(n: &UiNode, f: &mut dyn FnMut(&UiNode)) {
    f(n);
    for c in &n.children {
        walk(c, f);
    }
}

fn ids(tree: &UiNode) -> Vec<NodeId> {
    let mut out = Vec::new();
    walk(tree, &mut |n| out.push(n.id));
    out
}

fn login_hit_of(id: NodeId, key: Key) -> Vec<Hit> {
    vec![Hit { id, key: Some(key), rect: Rect { x: 0, y: 0, w: 0, h: 0 } }]
}

fn press(a: &mut Gumicord, slot: &'static str) -> bool {
    a.pressed(&login_hit_of(NodeId::PrimitiveButton, Key::Slot(slot)), 0)
}

fn press_field(a: &mut Gumicord, slot: &'static str) -> bool {
    a.pressed(&login_hit_of(NodeId::AppScreenLoginField, Key::Slot(slot)), 0)
}

fn with_qr() -> Gumicord {
    let mut a = pending();
    a.login.apply(LoginEvent::Qr("https://example/1".to_owned()));
    a
}

/// The main screen is not even built while signed out; visible but untouchable
/// is the worst state.
#[test]
fn the_main_screen_is_not_built_before_login() {
    let a = pending();
    assert!(!a.shows_main());
    let seen = ids(&a.login_screen());

    assert!(seen.contains(&NodeId::AppScreenLogin));
    assert!(!seen.contains(&NodeId::NavSidebar));
    assert!(!seen.contains(&NodeId::ChatMessageList), "本文が漏れている");
}

/// No QR node before there is a QR: an unscannable one is worse than none.
#[test]
fn the_qr_node_appears_only_once_there_is_a_qr() {
    let mut a = pending();
    assert!(!ids(&a.login_screen()).contains(&NodeId::PrimitiveQr));

    a.login.apply(LoginEvent::Qr("https://example/1".to_owned()));
    let tree = a.login_screen();
    assert!(ids(&tree).contains(&NodeId::PrimitiveQr));

    let mut data = None;
    walk(&tree, &mut |n| {
        if n.id == NodeId::PrimitiveQr {
            if let Content::Qr(q) = &n.content {
                data = Some(q.clone());
            }
        }
    });
    assert_eq!(data.as_deref(), Some("https://example/1"));
}

/// Progress is always stated, so nothing looks silently stuck.
#[test]
fn every_state_says_something() {
    let mut a = pending();
    for event in [
        None,
        Some(LoginEvent::Qr("x".to_owned())),
        Some(LoginEvent::Approved),
        Some(LoginEvent::Failed("接続できない".to_owned())),
    ] {
        if let Some(e) = event {
            a.login.apply(e);
        }
        let mut hint = None;
        walk(&a.login_screen(), &mut |n| {
            if n.id == NodeId::AppScreenLoginHint {
                hint = n.content.as_text().map(str::to_owned);
            }
        });
        let hint = hint.expect("説明文が無い");
        assert!(!hint.trim().is_empty(), "説明文が空である");
    }
}

/// Skipping login shows the main screen.
#[test]
fn skipping_shows_the_main_screen() {
    let a = Gumicord::demo();
    assert!(a.login.shows_main());
    assert!(a.shows_main());
}

/// A signed-out app with a cache left by an earlier run.
fn cached() -> Gumicord {
    let mut a = pending();
    a.live.guilds.push(GuildState {
        id: GuildId::from(1u64),
        name: "テスト".to_owned(),
        icon_hash: None,
        unread: false,
        mentions: 0,
        roles: Vec::new(),
        entries: Vec::new(),
        members: None,
        members_pending: false,
    });
    a
}

/// A session already dead at startup must not strand the app behind its own
/// cache: nothing could ever refresh what is on screen.
#[test]
fn a_session_dead_at_startup_clears_the_cache() {
    let mut a = cached();
    assert!(!a.live.is_empty(), "the cache did not load");
    assert!(a.shows_main(), "cache-first shows the main screen");

    a.login.apply(LoginEvent::Ended);
    assert!(a.wake(), "the end asked for a redraw");

    assert!(a.live.is_empty(), "the cache survived");
    assert!(!a.shows_main(), "the login screen never took over");
    assert!(
        a.login.hint().contains("セッションが無効"),
        "no reason given: {}",
        a.login.hint()
    );
    assert!(a.login.hint().contains(SESSION_ENDED));
}

/// A first start has neither cache nor session; leading the QR with a logout
/// reason nobody earned would be a lie.
#[test]
fn a_session_dead_before_any_cache_blames_nothing() {
    let mut a = pending();
    assert!(a.live.is_empty());

    a.login.apply(LoginEvent::Ended);
    a.wake();

    assert_eq!(a.login.hint(), a.login.session().hint());
}

/// Nothing reaches the network on its own.
#[test]
fn nothing_starts_until_start_is_called() {
    let login = Login::new(None);
    assert!(!login.shows_main());
    assert!(login.session().qr().is_none());
}

/// The QR screen has a way into the password form, and reaching it swaps the
/// screen over: the QR must not linger behind the form.
#[test]
fn the_password_form_is_reached_from_the_qr() {
    let mut a = with_qr();
    assert!(ids(&a.login_screen()).contains(&NodeId::PrimitiveQr));

    assert!(press(&mut a, "login_password"), "フォームへの入口が効かない");

    assert!(matches!(a.login.session(), Session::Password));
    let seen = ids(&a.login_screen());
    assert!(seen.contains(&NodeId::AppScreenLoginField), "入力欄が無い");
    assert!(!seen.contains(&NodeId::PrimitiveQr), "パスワード画面なのに QR が残る");
}

/// The QR button on the password form leaves it; its press used to fall
/// through the dispatch and do nothing.
#[test]
fn the_qr_button_leaves_the_password_form() {
    let mut a = pending();
    press(&mut a, "login_password");
    assert!(a.login_view.form.is_some());

    assert!(press(&mut a, "login_qr"), "QRボタンが効かない");
    assert!(a.login_view.form.is_none(), "QRに戻っていない");
}

/// A second factor must reach the TOTP screen even while the password-form
/// override is set: the override used to strand the flow on the password
/// screen with no visible progress.
#[test]
fn the_totp_screen_shows_despite_the_password_override() {
    let mut a = pending();
    // In through the password form, like a phone.
    press(&mut a, "login_password");
    assert!(a.login_view.form.is_some());
    // The server asked for a second factor.
    a.login.apply(LoginEvent::TotpNeeded { email: "a@b.c".to_owned() });
    let mut slots = Vec::new();
    walk(&a.login_screen(), &mut |n| {
        if n.id == NodeId::AppScreenLoginField {
            slots.push(n.key);
        }
    });
    assert!(slots.contains(&Some(Key::Slot("totp"))), "TOTP screen missing: {slots:?}");
    assert!(
        !slots.contains(&Some(Key::Slot("password"))),
        "password form lingers: {slots:?}"
    );
}

/// Field failures show under each named input: INVALID_LOGIN names both
/// `login` and `password`, so both lines appear with the general one.
#[test]
fn login_field_errors_show_under_each_named_input() {
    let mut a = pending();
    press(&mut a, "login_password");
    let error = |path: &str| FieldError {
        path: path.to_owned(),
        detail: "ログインまたはパスワードが無効です。(INVALID_LOGIN)".to_owned(),
    };
    a.login.deliver(LoginEvent::FieldErrors(vec![error("login"), error("password")]));
    a.login.deliver(LoginEvent::Failed("フォームボディが無効です (50035)".to_owned()));
    assert!(a.wake());
    let mut lines = Vec::new();
    walk(&a.login_screen(), &mut |n| {
        if n.id == NodeId::AppScreenLoginError {
            lines.push((n.key, n.content.as_text().unwrap_or("").to_owned()));
        }
    });
    for slot in ["login_error_email", "login_error_password"] {
        assert!(
            lines
                .iter()
                .any(|(key, text)| *key == Some(Key::Slot(slot)) && text.contains("無効です")),
            "missing line for {slot}: {lines:?}"
        );
    }
}

/// A press outside every login field releases focus; otherwise the keyboard
/// stays up with no way to dismiss it.
#[test]
fn pressing_outside_a_login_field_releases_focus() {
    let mut a = pending();
    press(&mut a, "login_password");
    press_field(&mut a, "email");
    assert!(a.login_view.field.is_some());

    assert!(a.pressed(&Vec::new(), 0));
    assert_eq!(a.login_view.field, None, "欄外を押してもフォーカスが残る");
}

/// Clicking a login field focuses exactly that one, and typing lands in the
/// right box; switching to another keeps the first's contents.
#[test]
fn clicking_a_login_field_focuses_it_for_typing() {
    let mut a = pending();
    press(&mut a, "login_password");

    press_field(&mut a, "email");
    assert!(matches!(a.login_view.field, Some(LoginField::Email)));
    assert!(a.type_text("a@b.c"));

    press_field(&mut a, "password");
    assert!(matches!(a.login_view.field, Some(LoginField::Password)));
    assert!(a.type_text("secret"));

    assert_eq!(a.login_view.email.text(), "a@b.c", "email 欄の内容が消えた");
    assert_eq!(a.login_view.input.text(), "secret", "password 欄に書かれていない");
}

/// Submitting the password form hands the credentials to the background login
/// and drops the form's focus.
#[test]
fn submitting_the_password_form_hands_off_credentials() {
    let mut a = pending();
    press(&mut a, "login_password");
    press_field(&mut a, "email");
    assert!(a.type_text("a@b.c"));
    press_field(&mut a, "password");
    assert!(a.type_text("secret"));

    assert!(a.submit_login(), "パスワードログインが送信されなかった");
    assert_eq!(a.login_view.field, None, "送信後もフォーカスが残っている");
    assert!(matches!(
        a.login.take_commands().last(),
        Some(LoginCommand::Password { email, password }) if email == "a@b.c" && password == "secret"
    ));
}

/// The hidden code on the QR screen opens the bot-token form.
#[test]
fn the_konami_code_opens_the_bot_token_form() {
    let mut a = with_qr();

    for key in CODE {
        assert!(a.hidden_key(key), "QR 画面上のキーは消費されるはず");
    }

    assert!(
        matches!(a.login.session(), Session::Token),
        "コンバットコードでトークン画面に入っていない"
    );
    assert_eq!(a.login_view.field, Some(LoginField::Token), "入力欄にフォーカスが無い");
}

/// A stray key breaks the sequence; nothing opens and the buffer resets.
#[test]
fn a_stray_key_breaks_the_konami_code() {
    let mut a = with_qr();

    // Up Up Down Down Left, then a Left where a Right belongs.
    for key in [
        HiddenKey::Up,
        HiddenKey::Up,
        HiddenKey::Down,
        HiddenKey::Down,
        HiddenKey::Left,
        HiddenKey::Left,
    ] {
        a.hidden_key(key);
    }

    assert!(!matches!(a.login.session(), Session::Token));
    assert_eq!(a.login_view.field, None);
}

/// Off the QR screen the hidden code does nothing.
#[test]
fn the_konami_code_does_nothing_off_the_qr_screen() {
    // `pending` starts at Connecting, not the QR screen.
    let mut a = pending();
    for key in CODE {
        a.hidden_key(key);
    }

    assert!(!matches!(a.login.session(), Session::Token));
    assert_eq!(a.login_view.field, None);
}

/// Submitting the token form hands the bot token to the background and drops
/// the form's focus.
#[test]
fn submitting_the_token_form_hands_off_the_bot_token() {
    let mut a = with_qr();
    for key in CODE {
        a.hidden_key(key);
    }
    assert!(a.type_text("bot-token"));
    assert!(a.submit_login(), "トークンログインが送信されなかった");
    assert_eq!(a.login_view.field, None, "送信後もフォーカスが残っている");
    assert!(matches!(
        a.login.take_commands().last(),
        Some(LoginCommand::BotToken { token }) if token == "bot-token"
    ));
}

/// Right-clicking a login field focuses it and shows the input menu for that
/// field's contents, not the composer's.
#[test]
fn right_clicking_a_login_field_opens_its_menu() {
    let mut a = pending();
    press(&mut a, "login_password");

    // Focus the email field and select its content.
    press_field(&mut a, "email");
    assert!(a.type_text("a@b.c"));
    a.login_view.email.select_all();

    let field = login_hit_of(NodeId::AppScreenLoginField, Key::Slot("email"));
    assert!(a.context_menu(&field, Point { x: 0, y: 0 }, 0));
    assert!(matches!(a.login_view.field, Some(LoginField::Email)));

    let items = match a.floating.as_ref().expect("開いていない") {
        Floating::Menu(m) => &m.items,
        Floating::Confirm(_) => panic!("確認の窓が出ている"),
    };
    let has = |want: Action| items.iter().any(|i| i.action == want);
    assert!(has(Action::Cut), "選んだ欄に切り取りが出ていない");
    assert!(has(Action::CopySelection), "選んだ欄にコピーが出ていない");
    assert!(has(Action::Paste), "貼り付けが出ていない");
}

/// The "select all" menu item targets the focused login field, leaving the
/// composer untouched.
#[test]
fn select_all_targets_the_focused_login_field() {
    let mut a = pending();
    press(&mut a, "login_password");
    press_field(&mut a, "password");
    assert!(a.type_text("secret"));

    a.perform(Action::SelectAll);

    assert!(a.login_view.input.has_selection(), "ログイン欄が選択されていない");
    assert!(!a.chat.input.has_selection(), "コンポーザーが触られた");
}

/// A captcha challenge is handed out once, and its solution comes back as a
/// submit.
#[test]
fn a_pending_captcha_is_forwarded_and_solved() {
    let mut a = pending();
    a.login.apply(LoginEvent::CaptchaNeeded(CaptchaChallenge {
        sitekey: Some("site123".to_owned()),
        service: Some("hcaptcha".to_owned()),
        rqdata: Some("rqdata".to_owned()),
        rqtoken: Some("rqtoken".to_owned()),
        session_id: Some("sess".to_owned()),
    }));

    let challenge = a.login.take_pending().expect("プラットフォームへ渡さない");
    assert_eq!(challenge.sitekey.as_deref(), Some("site123"));
    assert_eq!(challenge.rqdata.as_deref(), Some("rqdata"));

    // Nothing left to forward.
    assert!(a.login.take_pending().is_none(), "同一の captcha が二度渡される");

    a.login.submit_captcha(SolvedCaptcha {
        key: "tok".to_owned(),
        rqtoken: challenge.rqtoken,
        session_id: challenge.session_id,
    });
    assert!(matches!(
        a.login.take_commands().as_slice(),
        [LoginCommand::Captcha(s)] if s.key == "tok" && s.rqtoken.as_deref() == Some("rqtoken")
    ));
}

/// The keyboard's advance button walks through the fields, then submits.
#[test]
fn the_advance_button_walks_the_fields() {
    let mut a = pending();
    press(&mut a, "login_password");
    press_field(&mut a, "email");
    assert!(a.type_text("a@b.c"));
    assert!(a.focus_neighbor(true));
    assert_eq!(a.login_view.field, Some(LoginField::Password));
    assert!(a.focus_neighbor(false));
    assert_eq!(a.login_view.field, Some(LoginField::Email));
    assert!(!a.focus_neighbor(false), "back from the first field");
    assert!(a.focus_neighbor(true));
    assert!(a.type_text("secret"));
    assert!(a.focus_neighbor(true), "nothing was submitted");
    assert!(matches!(a.login.take_commands().last(), Some(LoginCommand::Password { .. })));
}

/// Leaving the form takes the secrets with it.
#[test]
fn leaving_the_form_drops_what_was_typed() {
    let mut a = pending();
    press(&mut a, "login_password");
    press_field(&mut a, "password");
    assert!(a.type_text("secret"));
    assert!(press(&mut a, "login_qr"));
    assert_eq!(a.login_view.input.text(), "");
}

/// A password is never drawn as it was typed.
#[test]
fn a_password_is_masked() {
    let mut a = pending();
    press(&mut a, "login_password");
    press_field(&mut a, "password");
    assert!(a.type_text("secret"));
    let mut shown = None;
    walk(&a.login_screen(), &mut |n| {
        if n.key == Some(Key::Slot("password")) {
            if let Content::Editable(e) = &n.content {
                shown = Some(e.text.clone());
            }
        }
    });
    let shown = shown.expect("no password field");
    assert_eq!(shown.chars().count(), 6);
    assert!(!shown.contains('s'), "{shown}");
}

#[test]
fn signing_out_starts_over() {
    let mut login = Login::new(None);
    login.apply(LoginEvent::Qr("u".to_owned()));
    login.forget();
    assert!(matches!(login.session(), Session::Connecting));
}
