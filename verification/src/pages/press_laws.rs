//! What holds of presses, swipes and keys as a whole: one thing answers, and it
//! is the topmost.

use vstd::prelude::*;
use crate::menu::{Deed, FloatingView, ItemView, Present, SettingsCategory};
use crate::pages::login::{field_named, hidden_code};
use crate::pages::overlays::{has_hit, hit_from, login_field_hit, row_hit, Hit};
use crate::pages::settings::{plugin_from, plugin_rows};
use crate::session::Stage;
use crate::shell::{
    unexpired, App, Doing, HiddenKey, LoginField, PluginState, PluginStateKind, ToastView,
};
use crate::ui::{Key, NodeId};

verus! {

// ── what was hit ───────────────────────────────────────────────────────────

/// The first hit of a kind is the frontmost, and there is one exactly where one
/// was hit.
pub proof fn the_frontmost_hit_counts(hits: Seq<Hit>, id: NodeId, k: int)
    ensures
        hit_from(hits, id, 0) matches Some(i) ==> 0 <= i < hits.len() && hits[i].id == id
            && forall|j: int| 0 <= j < i ==> (#[trigger] hits[j]).id != id,
        0 <= k < hits.len() && hits[k].id == id ==> has_hit(hits, id),
        has_hit(hits, id) ==> exists|i: int| 0 <= i < hits.len() && (#[trigger] hits[i]).id == id,
{
    lemma_hit(hits, id, 0);
}

proof fn lemma_hit(hits: Seq<Hit>, id: NodeId, k: int)
    requires
        0 <= k <= hits.len(),
    ensures
        hit_from(hits, id, k) matches Some(i) ==> k <= i < hits.len() && hits[i].id == id
            && forall|j: int| k <= j < i ==> (#[trigger] hits[j]).id != id,
        hit_from(hits, id, k) is None ==> forall|j: int|
            k <= j < hits.len() ==> (#[trigger] hits[j]).id != id,
    decreases hits.len() - k,
{
    if k < hits.len() && hits[k].id != id {
        lemma_hit(hits, id, k + 1);
    }
}

/// The fields of the login screens by their names.
pub proof fn fields_have_their_names(slot: Seq<char>)
    ensures
        field_named("email"@) == Some(LoginField::Email),
        field_named("password"@) == Some(LoginField::Password),
        field_named("totp"@) == Some(LoginField::Totp),
        field_named("token"@) == Some(LoginField::Token),
        slot != "email"@ && slot != "password"@ && slot != "totp"@ && slot != "token"@
            ==> field_named(slot) is None,
{
    reveal_strlit("email");
    reveal_strlit("password");
    reveal_strlit("totp");
    reveal_strlit("token");
    assert("email"@.len() == 5 && "password"@.len() == 8 && "totp"@.len() == 4 && "token"@.len()
        == 5);
    assert("email"@[0] == 'e' && "token"@[0] == 't');
}

// ── presses ────────────────────────────────────────────────────────────────

/// Pressing something in the lists opens that thing: a channel, a guild, a
/// folder, or the message that an answer answers.
pub proof fn pressing_opens_what_was_pressed(a: App, h: Hit, id: u64, now: u64)
    requires
        h.key == Some(Key::Id(id)),
    ensures
        h.id == NodeId::NavChannelListItem ==> (a.node_pressed(h, now) matches Some(r)
            && r.0.chat.selected_channel == id && r.1 == (a.chat.selected_channel != id)),
        h.id == NodeId::NavGuildListItem ==> (a.node_pressed(h, now) matches Some(r)
            && r.0.chat.selected_guild == id && r.1 == (a.chat.selected_guild != id)),
        h.id == NodeId::NavGuildListFolder ==> (a.node_pressed(h, now) matches Some(r)
            && r.0.effects == a.effects.push(Doing::ToggleFolder(id)) && r.1),
        h.id == NodeId::ChatMessageReplyRef ==> (a.node_pressed(h, now) matches Some(r) && r.0
            == a.jumped(id) && r.1),
        h.id == NodeId::ChatMessage ==> (a.node_pressed(h, now) matches Some(r)
            && r.0.chat.a11y_message == Some(id)),
{
}

/// The first node that does something decides; what lies behind it does not act.
pub proof fn only_the_frontmost_acts(a: App, h: Hit, rest: Seq<Hit>, now: u64)
    ensures
        a.node_pressed(h, now) matches Some(r) ==> a.nodes_pressed(seq![h] + rest, 0, now) == r,
        a.nodes_pressed(seq![], 0, now) == (a, false),
{
    let all = seq![h] + rest;
    assert(all[0] == h);
}

/// Pressing the composer focuses it, pressing anything else on the main screen
/// lets go of it.
pub proof fn presses_move_the_focus(a: App, hits: Seq<Hit>, now: u64)
    ensures
        has_hit(hits, NodeId::ChatInputField) ==> a.main_pressed(hits, now).0.chat.input_focused
            && a.main_pressed(hits, now).0.form.field is None,
        hits.len() == 0 ==> !a.main_pressed(hits, now).0.chat.input_focused && a.main_pressed(
            hits,
            now,
        ).1 == a.focused(),
{
}

/// A dialog waits for its buttons: the first leaves it, the second does what was
/// asked for, and anything else changes nothing.
pub proof fn dialogs_wait_for_their_buttons(a: App, action: Deed, hits: Seq<Hit>)
    ensures
        row_hit(hits, NodeId::OverlayModalAction) == Some(0u32) ==> a.dialog_pressed(action, hits)
            == (App { floating: None, ..a }, true),
        row_hit(hits, NodeId::OverlayModalAction) == Some(1u32) ==> a.dialog_pressed(
            action,
            hits,
        ).0 == (App { floating: None, ..a }).performed(action).0,
        row_hit(hits, NodeId::OverlayModalAction) is None ==> a.dialog_pressed(action, hits) == (
            a,
            false,
        ),
{
}

/// A row of a menu does what it says, or asks first where that cannot be undone;
/// a press beside it closes the menu without doing anything.
pub proof fn menu_rows_do_what_they_say(
    a: App,
    items: Seq<ItemView>,
    hits: Seq<Hit>,
    i: u32,
    now: u64,
)
    requires
        i < items.len(),
    ensures
        row_hit(hits, NodeId::OverlayMenuItem) == Some(i) ==> {
            let d = items[i as int].action;
            let n = a.menu_pressed(items, hits, now);
            &&& d is Delete || d is LogOut ==> (n.floating matches Some(FloatingView::Confirm(c))
                && c.action == d && n.effects == a.effects)
            &&& !(d is Delete) && !(d is LogOut) ==> n == (App { floating: None, ..a }).performed(
                d,
            ).0
        },
        row_hit(hits, NodeId::OverlayMenuItem) is None && (a.floating matches Some(
            FloatingView::Menu { .. },
        )) && a.given.panes.presents() != Present::Sheet ==> {
            let n = a.menu_pressed(items, hits, now);
            n.floating is None && n.effects == a.effects && !n.focused()
        },
{
}

/// The topmost surface takes a press: a dialog before a menu, that before the
/// settings, those before the login screen, the drawer, the sheet, and last the
/// main screen.
pub proof fn the_topmost_takes_the_press(a: App, hits: Seq<Hit>, now: u64)
    ensures
        a.floating matches Some(FloatingView::Confirm(c)) ==> a.pressed_on(hits, now)
            == a.dialog_pressed(c.action, hits),
        a.floating matches Some(FloatingView::Menu { items, .. }) ==> a.pressed_on(hits, now).0
            == a.menu_pressed(items, hits, now),
        a.floating is None && a.settings.open && row_hit(hits, NodeId::OverlayMenuItem) is None
            ==> a.pressed_on(hits, now) == (a, false),
        a.floating is None && !a.settings.open && !a.shows_main() ==> a.pressed_on(hits, now)
            == a.login_screen_pressed(hits),
        a.floating is None && !a.settings.open && a.shows_main() && a.chat.drawer_open
            ==> a.pressed_on(hits, now) == a.drawer_pressed(hits, now),
        a.floating is None && !a.settings.open && a.shows_main() && !a.chat.drawer_open
            && a.chat.member_sheet_open ==> a.pressed_on(hits, now) == a.sheet_pressed(hits, now),
        a.floating is None && !a.settings.open && a.shows_main() && !a.chat.drawer_open
            && !a.chat.member_sheet_open ==> a.pressed_on(hits, now) == a.main_pressed(hits, now),
{
}

/// A field of the login screen that was pressed is focused.
pub proof fn pressed_fields_are_focused(a: App, hits: Seq<Hit>)
    ensures
        login_field_hit(hits, 0) matches Some(f) ==> a.login_screen_pressed(hits).0.form.field
            == Some(f) && a.login_screen_pressed(hits).1 == (a.form.field != Some(f)),
        hits.len() == 0 ==> a.login_screen_pressed(hits).0.form.field is None,
{
}

// ── swipes and keys ────────────────────────────────────────────────────────

/// Escape takes away the topmost thing, one at a time.
pub proof fn escape_takes_one_thing_away(a: App, now: u64)
    ensures
        a.floating matches Some(FloatingView::Confirm(_)) ==> a.escaped(now).0.floating is None
            && a.escaped(now).1,
        a.floating is None && a.settings.open ==> !a.escaped(now).0.settings.open && a.escaped(
            now,
        ).1,
        a.floating is None && !a.settings.open && a.chat.drawer_open ==> a.escaped(
            now,
        ).0.chat.drawer.target == 0,
        a.floating is None && !a.settings.open && !a.chat.drawer_open && a.chat.member_sheet_open
            ==> a.escaped(now).0.sheet.target == 0,
        a.floating is None && !a.settings.open && !a.chat.drawer_open && !a.chat.member_sheet_open
            && !(a.chat.composing is New) ==> a.escaped(now).0.chat.composing is New,
        a.floating is None && !a.settings.open && !a.chat.drawer_open && !a.chat.member_sheet_open
            && a.chat.composing is New ==> !a.escaped(now).0.focused() && a.escaped(now).1
            == a.focused(),
{
}

/// The hidden code on the QR screen: each right key is kept, a wrong one starts
/// it over, and the last opens the token form.
pub proof fn the_hidden_code_opens_the_token_form(a: App, key: HiddenKey)
    requires
        a.login.session is WaitingForScan,
        a.form_shown() is None,
    ensures
        ({
            let n = a.form.hidden_code.len();
            let (next, took) = a.hidden_typed(key);
            &&& took
            &&& n < 9 && key == hidden_code()[n as int] ==> next.form.hidden_code
                == a.form.hidden_code.push(key) && next.login == a.login
            &&& n == 9 && key == HiddenKey::A ==> next.login.session == Stage::Token
                && next.form.field == Some(LoginField::Token) && next.form.hidden_code.len() == 0
            &&& n < 10 && key != hidden_code()[n as int] ==> next.form.hidden_code.len() == 0
                && next.login == a.login && next.form.field == a.form.field
        }),
        hidden_code() == seq![
            HiddenKey::Up,
            HiddenKey::Up,
            HiddenKey::Down,
            HiddenKey::Down,
            HiddenKey::Left,
            HiddenKey::Right,
            HiddenKey::Left,
            HiddenKey::Right,
            HiddenKey::B,
            HiddenKey::A,
        ],
{
}

// ── settings ───────────────────────────────────────────────────────────────

/// The settings open over everything and are loaded anew; closing them leaves
/// nothing of where one was in them.
pub proof fn the_settings_open_and_close(a: App)
    ensures
        a.settings_opened().0.settings.open,
        a.settings_opened().1 == !a.settings.open,
        a.settings_opened().0.effects == a.effects.push(Doing::RefreshSettings),
        a.settings_opened().0.settings.plugin is None,
        !a.settings_opened().0.chat.drawer_open,
        !a.settings_opened().0.chat.member_sheet_open,
        a.settings.open ==> !a.settings_closed().0.settings.open && a.settings_closed().1
            && a.settings_closed().0.settings.plugin is None,
        !a.settings.open ==> a.settings_closed() == (a, false),
        a.settings.open ==> a.settings_closed().0.settings.category == a.settings.category,
{
}

/// The rows of the settings share one list: first what leads to the pages, then
/// what the page offers.
pub proof fn settings_rows_stand_in_order(a: App, k: int)
    requires
        !a.page_alone(),
    ensures
        a.row_action(0) == Some(Deed::CloseSettings),
        a.row_action(1) == Some(Deed::SettingsCategory(SettingsCategory::Plugins)),
        a.row_action(2) == Some(Deed::SettingsCategory(SettingsCategory::Theme)),
        a.row_action(3) == Some(Deed::SettingsCategory(SettingsCategory::Support)),
        0 <= k < a.page_items().len() ==> a.row_action(4 + k) == Some(a.page_items()[k].action),
        k >= a.page_items().len() ==> a.row_action(4 + k) is None,
{
    let items = a.nav_items() + a.page_items();
    assert(items[0] == a.nav_items()[0] && items[1] == a.nav_items()[1] && items[2]
        == a.nav_items()[2] && items[3] == a.nav_items()[3]);
}

/// Choosing a category opens its page, on a narrow window in place of the menu.
pub proof fn categories_open_their_page(a: App, c: SettingsCategory)
    ensures
        ({
            let (n, did) = a.performed(Deed::SettingsCategory(c));
            &&& did
            &&& n.settings.category == c
            &&& n.settings.plugin is None
            &&& n.settings.narrow_page == (a.given.panes is One)
        }),
        !a.performed(Deed::SettingsNarrowBack).0.settings.narrow_page,
        a.performed(Deed::SettingsPluginBack).0.settings.plugin is None,
{
}

/// What can be done with a plugin: one that runs can be stopped and loaded
/// again, one that does not can be started, and asking again is always possible.
pub proof fn plugins_offer_what_can_be_done(p: PluginState, id: Seq<char>)
    ensures
        ({
            let rows = plugin_rows(p, id);
            &&& rows.last().action == Deed::ReapprovePlugin(id)
            &&& p.state == PluginStateKind::Loaded ==> rows.len() == 3 && rows[0].action
                == Deed::DisablePlugin(id) && rows[1].action == Deed::ReloadPlugin(id)
            &&& p.state == PluginStateKind::Disabled || p.state == PluginStateKind::LoadFailed
                ==> rows.len() == 2 && rows[0].action == Deed::EnablePlugin(id)
            &&& p.state == PluginStateKind::Denied || p.state == PluginStateKind::NeedsApproval
                ==> rows.len() == 1
        }),
{
}

/// A plugin is found by its own id.
pub proof fn plugins_are_found(ps: Seq<PluginState>, id: Seq<char>, k: int)
    requires
        0 <= k <= ps.len(),
    ensures
        plugin_from(ps, id, k) matches Some(p) ==> p.id@ == id && ps.contains(p),
        plugin_from(ps, id, k) is None ==> forall|i: int|
            k <= i < ps.len() ==> (#[trigger] ps[i]).id@ != id,
    decreases ps.len() - k,
{
    if k < ps.len() && ps[k].id@ != id {
        plugins_are_found(ps, id, k + 1);
    } else if k < ps.len() {
        assert(ps.contains(ps[k]));
    }
}

// ── notices ────────────────────────────────────────────────────────────────

/// A notice stays five seconds, stands behind those before it, and pushes out
/// the oldest where there are three already.
pub proof fn notices_stay_five_seconds(a: App, s: Seq<char>, now: i64)
    requires
        a.toasts.len() <= 3,
    ensures
        ({
            let n = a.notified(s, now).toasts;
            &&& n.last().text == s
            &&& now + 5 <= i64::MAX ==> n.last().until == now + 5
            &&& a.toasts.len() < 3 ==> n.drop_last() == a.toasts
            &&& a.toasts.len() == 3 ==> n.drop_last() == a.toasts.skip(1)
        }),
        a.notified(s, now).effects == a.effects,
{
    let n = a.notified(s, now).toasts;
    if a.toasts.len() < 3 {
        assert(n.drop_last() =~= a.toasts);
    } else {
        assert(n.drop_last() =~= a.toasts.skip(1));
    }
}

/// A notice is gone once its time has come, and not before; the others stay in
/// order.
pub proof fn notices_go_when_their_time_has_come(ts: Seq<ToastView>, t: ToastView, now: i64)
    ensures
        unexpired(ts.push(t), now) == (if t.until > now {
            unexpired(ts, now).push(t)
        } else {
            unexpired(ts, now)
        }),
        unexpired(seq![], now).len() == 0,
{
    reveal(Seq::filter);
    assert(ts.push(t).drop_last() =~= ts);
}

} // verus!
