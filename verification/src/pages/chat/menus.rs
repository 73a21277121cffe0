//! Chat menus: field, message, channel, guild and user menus. Only what can
//! actually be done is offered: a greyed row adds to the search for a usable
//! one.

use vstd::prelude::*;
use crate::input::{Doc, TextDocument};
use crate::menu::{items_of, no_items, push_item, Action, Deed, Item, ItemView};
use crate::model::{opt_text, ChannelId, Message, Snowflake};
use crate::session::in_as;
use crate::shell::{Account, App, Gumicord, LoginField};
use crate::text;

verus! {

/// A row that copies an id.
pub open spec fn copy_id(id: u64) -> ItemView {
    ItemView::new(Deed::Copy(text::dec(id as nat)), "ID をコピー"@).icon("id"@)
}

/// The last four characters, or all where there are fewer.
pub open spec fn last_four(s: Seq<char>) -> Seq<char> {
    if s.len() > 4 {
        s.skip(s.len() - 4)
    } else {
        s
    }
}

/// The first message with an id.
pub open spec fn message_at(ms: Seq<Message>, id: u64, k: int) -> Option<Message>
    decreases ms.len() - k,
{
    if k < 0 || k >= ms.len() {
        None
    } else if ms[k].id.0.0 == id {
        Some(ms[k])
    } else {
        message_at(ms, id, k + 1)
    }
}

/// The row of an account that can be switched to.
pub open spec fn account_item(a: Account, current: bool) -> ItemView {
    let item = ItemView::new(
        Deed::SwitchAccount { id: a.id, bot: a.bot },
        a.display_name@ + " (…"@ + last_four(text::dec(a.id as nat)) + ")"@,
    );
    if current {
        item.icon("check"@).selected(true)
    } else {
        item
    }
}

impl App {
    /// What a field menu and its items act on: the focused login field if any,
    /// else the composer.
    pub open spec fn field_shown(self) -> Doc {
        match self.form.field {
            Some(LoginField::Email) => self.form.email,
            Some(_) => self.form.input,
            None => self.chat.input,
        }
    }

    pub open spec fn field_items(self) -> Seq<ItemView> {
        let doc = self.field_shown();
        let cut = if doc.has_selection() {
            seq![
                ItemView::new(Deed::Cut, "切り取り"@).icon("cut"@),
                ItemView::new(Deed::CopySelection, "コピー"@).icon("copy"@),
            ]
        } else {
            seq![]
        };
        let paste = cut.push(ItemView::new(Deed::Paste, "貼り付け"@).icon("paste"@));
        if doc.text.len() > 0 {
            paste.push(ItemView::new(Deed::SelectAll, "すべて選択"@).icon("select_all"@))
        } else {
            paste
        }
    }

    /// Whether a message is ours. Not when signed out: turning "unknown" into
    /// "ours" would offer edit and delete on other people's messages.
    pub open spec fn mine(self, id: u64) -> bool {
        match self.me() {
            None => false,
            Some(me) => exists|i: int|
                0 <= i < self.messages().len() && (#[trigger] self.messages()[i]).id.0.0 == id
                    && self.messages()[i].author.id == me,
        }
    }

    /// A message's body as typed.
    pub open spec fn body_of(self, id: u64) -> Option<Seq<char>> {
        if !self.uses_live() {
            None
        } else {
            match message_at(self.messages(), id, 0) {
                Some(m) => Some(m.content@),
                None => None,
            }
        }
    }

    pub open spec fn message_items(self, id: u64) -> Seq<ItemView> {
        let reply = seq![ItemView::new(Deed::Reply(id), "返信"@).icon("reply"@)];
        let edit = if self.mine(id) {
            reply.push(ItemView::new(Deed::Edit(id), "編集"@).icon("edit"@))
        } else {
            reply
        };
        let copy = match self.body_of(id) {
            Some(b) => edit.push(ItemView::new(Deed::Copy(b), "本文をコピー"@).icon("copy"@)),
            None => edit,
        };
        let ids = copy.push(copy_id(id));
        if self.mine(id) {
            ids.push(ItemView::new(Deed::Delete(id), "削除"@).icon("trash"@).danger())
        } else {
            ids
        }
    }

    pub open spec fn channel_unread(self, id: u64) -> bool {
        match self.live.channel_spec(ChannelId(Snowflake(id))) {
            Some(c) => c.unread,
            None => false,
        }
    }

    pub open spec fn channel_items(self, id: u64) -> Seq<ItemView> {
        if self.channel_unread(id) {
            seq![
                ItemView::new(Deed::MarkRead(id), "既読にする"@).icon("check"@),
                copy_id(id),
            ]
        } else {
            seq![copy_id(id)]
        }
    }

    pub open spec fn guild_items(self, id: u64) -> Seq<ItemView> {
        seq![copy_id(id)]
    }

    pub open spec fn account_items(self, me: u64, bot: bool) -> Seq<ItemView> {
        Seq::new(
            self.given.accounts@.len(),
            |i: int|
                account_item(
                    self.given.accounts@[i],
                    self.given.accounts@[i].id == me && self.given.accounts@[i].bot == bot,
                ),
        )
    }

    /// The menu on our own panel. Only offered while actually signed in.
    pub open spec fn user_items(self) -> Seq<ItemView> {
        match in_as(self.login.session) {
            None => seq![],
            Some(l) => (seq![copy_id(l.me.user.id.0.0)] + self.account_items(
                l.me.user.id.0.0,
                l.bot,
            )).push(ItemView::new(Deed::AddAccount, "アカウントを追加"@)).push(
                ItemView::new(Deed::LogOut, "ログアウト"@).icon("logout"@).danger(),
            ),
        }
    }
}

fn copy_id_item(id: u64) -> (r: Item)
    ensures
        r@ == copy_id(id),
{
    Item::new(Action::Copy(text::dec_string(id)), "ID をコピー").icon("id")
}

fn account_row(a: &Account, current: bool) -> (r: Item)
    ensures
        r@ == account_item(*a, current),
{
    let digits = text::dec_string(a.id);
    let c = text::chars(digits.as_str());
    let from: usize = if c.len() > 4 {
        c.len() - 4
    } else {
        0
    };
    let tail = text::piece(c.as_slice(), from, c.len());
    assert(tail@ =~= last_four(digits@));
    let mut label = text::joined(a.display_name.as_str(), " (…");
    label.append(tail.as_str());
    label.append(")");
    let item = Item::new(Action::SwitchAccount { id: a.id, bot: a.bot }, label.as_str());
    if current {
        item.icon("check").selected(true)
    } else {
        item
    }
}

impl Gumicord {
    /// The document a field menu and its items act on: the focused login field
    /// if any, else the composer.
    pub fn field_doc(&self) -> (r: &TextDocument)
        ensures
            r@ == self@.field_shown(),
    {
        match self.login_view.field {
            Some(LoginField::Email) => &self.login_view.email,
            Some(_) => &self.login_view.input,
            None => &self.chat.input,
        }
    }

    /// A field's menu. Lists only what would do something.
    pub fn field_menu(&self) -> (r: Vec<Item>)
        ensures
            items_of(r@) == self@.field_items(),
    {
        let doc = self.field_doc();
        let mut items = no_items();
        if doc.has_selection() {
            push_item(&mut items, Item::new(Action::Cut, "切り取り").icon("cut"));
            push_item(&mut items, Item::new(Action::CopySelection, "コピー").icon("copy"));
        }
        // Not read: opening the clipboard takes it from other programs, which is
        // not something to do every time a menu opens.
        push_item(&mut items, Item::new(Action::Paste, "貼り付け").icon("paste"));
        if !doc.is_empty() {
            push_item(&mut items, Item::new(Action::SelectAll, "すべて選択").icon("select_all"));
        }
        assert(items_of(items@) =~= self@.field_items());
        items
    }

    /// A message's menu.
    pub fn message_menu(&self, id: u64) -> (r: Vec<Item>)
        ensures
            items_of(r@) == self@.message_items(id),
    {
        let mine = self.is_mine(id);
        let mut items = no_items();
        push_item(&mut items, Item::new(Action::Reply(id), "返信").icon("reply"));
        // Only our own: the server would refuse anyway, but not offering it comes
        // first.
        if mine {
            push_item(&mut items, Item::new(Action::Edit(id), "編集").icon("edit"));
        }
        // The raw body, since that is what the author actually typed.
        if let Some(body) = self.raw_body(id) {
            push_item(&mut items, Item::new(Action::Copy(body), "本文をコピー").icon("copy"));
        }
        push_item(&mut items, copy_id_item(id));
        if mine {
            push_item(&mut items, Item::new(Action::Delete(id), "削除").icon("trash").danger());
        }
        assert(items_of(items@) =~= self@.message_items(id));
        items
    }

    /// Whether a message is ours.
    pub fn is_mine(&self, id: u64) -> (r: bool)
        ensures
            r == self@.mine(id),
    {
        let me = match self.login.session().logged_in() {
            Some(l) => l.me.user.id,
            None => return false,
        };
        let c = match self.live.channel(ChannelId::from(self.chat.selected_channel)) {
            Some(c) => c,
            None => return false,
        };
        let mut i: usize = 0;
        while i < c.messages.len()
            invariant
                i <= c.messages@.len(),
                self@.me() == Some(me),
                self@.messages() == c.messages@,
                forall|k: int|
                    0 <= k < i ==> !((#[trigger] c.messages@[k]).id.0.0 == id
                        && c.messages@[k].author.id == me),
            decreases c.messages@.len() - i,
        {
            let m = &c.messages[i];
            if m.id.get() == id && m.author.id == me {
                assert(self@.messages()[i as int].id.0.0 == id);
                return true;
            }
            i += 1;
        }
        false
    }

    /// A message's body as typed.
    pub fn raw_body(&self, id: u64) -> (r: Option<String>)
        ensures
            opt_text(r) == self@.body_of(id),
    {
        if self.live.is_empty() {
            return None;
        }
        let c = match self.live.channel(ChannelId::from(self.chat.selected_channel)) {
            Some(c) => c,
            None => return None,
        };
        let mut k: usize = 0;
        while k < c.messages.len()
            invariant
                k <= c.messages@.len(),
                self@.uses_live(),
                self@.messages() == c.messages@,
                message_at(c.messages@, id, 0) == message_at(c.messages@, id, k as int),
            decreases c.messages@.len() - k,
        {
            if c.messages[k].id.get() == id {
                return Some(c.messages[k].content.clone());
            }
            k += 1;
        }
        None
    }

    pub fn channel_menu(&self, id: u64) -> (r: Vec<Item>)
        ensures
            items_of(r@) == self@.channel_items(id),
    {
        let unread = match self.live.channel(ChannelId::from(id)) {
            Some(c) => c.unread,
            None => false,
        };
        let mut items = no_items();
        if unread {
            push_item(&mut items, Item::new(Action::MarkRead(id), "既読にする").icon("check"));
        }
        push_item(&mut items, copy_id_item(id));
        assert(items_of(items@) =~= self@.channel_items(id));
        items
    }

    pub fn guild_menu(&self, id: u64) -> (r: Vec<Item>)
        ensures
            items_of(r@) == self@.guild_items(id),
    {
        let mut items = no_items();
        push_item(&mut items, copy_id_item(id));
        assert(items_of(items@) =~= self@.guild_items(id));
        items
    }

    /// The menu on our own panel. Only offered while actually signed in.
    pub fn user_menu(&self) -> (r: Vec<Item>)
        ensures
            items_of(r@) == self@.user_items(),
    {
        let mut items = no_items();
        let l = match self.login.session().logged_in() {
            Some(l) => l,
            None => return items,
        };
        let me = l.me.user.id.get();
        push_item(&mut items, copy_id_item(me));
        let ghost accounts = self@.account_items(me, l.bot);
        let mut i: usize = 0;
        while i < self.given.accounts.len()
            invariant
                i <= self.given.accounts@.len(),
                accounts == self@.account_items(me, l.bot),
                items_of(items@) =~= seq![copy_id(me)] + accounts.take(i as int),
            decreases self.given.accounts@.len() - i,
        {
            let a = &self.given.accounts[i];
            let row = account_row(a, a.id == me && a.bot == l.bot);
            push_item(&mut items, row);
            assert(accounts[i as int] == row@);
            i += 1;
        }
        assert(accounts.take(i as int) =~= accounts);
        push_item(&mut items, Item::new(Action::AddAccount, "アカウントを追加"));
        push_item(&mut items, Item::new(Action::LogOut, "ログアウト").icon("logout").danger());
        assert(items_of(items@) =~= self@.user_items());
        items
    }
}

// ── laws ───────────────────────────────────────────────────────────────────

/// Edit and delete are offered exactly on our own messages, and reply on all.
pub proof fn only_our_own_can_be_changed(a: App, id: u64)
    ensures
        a.message_items(id)[0].action == Deed::Reply(id),
        forall|i: int|
            0 <= i < a.message_items(id).len() && ((#[trigger] a.message_items(id)[i]).action
                is Edit || a.message_items(id)[i].action is Delete) ==> a.mine(id),
        a.mine(id) ==> a.message_items(id)[1].action == Deed::Edit(id)
            && a.message_items(id).last().action == Deed::Delete(id),
{
}

/// Nothing is ours while nobody is signed in, and our own panel has no menu.
pub proof fn signed_out_nothing_is_ours(a: App, id: u64)
    requires
        in_as(a.login.session) is None,
    ensures
        !a.mine(id),
        a.user_items().len() == 0,
{
}

/// No label of the user menu depends on the token.
pub proof fn labels_hold_no_token(a: App, b: App)
    requires
        a.given == b.given,
        in_as(a.login.session) matches Some(l) && in_as(b.login.session) matches Some(m) && l.me
            == m.me && l.bot == m.bot,
    ensures
        a.user_items() == b.user_items(),
{
    assert(a.account_items(in_as(a.login.session)->0.me.user.id.0.0, in_as(a.login.session)->0.bot)
        =~= b.account_items(in_as(b.login.session)->0.me.user.id.0.0, in_as(b.login.session)->0.bot));
}

} // verus!
