//! Chat composer: input bar, status line and the assembled chat view.

use vstd::prelude::*;
use vstd::utf8::encode_utf8;
use crate::input::{Doc, TextDocument};
use crate::model::ChannelId;
use crate::pages::chat::lists::{
    face, face_node, BACK_ICON, BACK_OPEN, MEMBERS_ICON, MEMBERS_OPEN,
};
use crate::pages::chat::rows::{
    channel_lines, channel_lines_of, loading_node, loading_row, message_lines_of, openable,
    ChannelLine, ChannelRow, MessageLine, MessageRow, ReplyLine, ReplyRef,
};
use crate::shell::{App, Chat, Composing, Gumicord};
use crate::text;
use crate::time::{continues, continues_run};
use crate::ui::{nodes_of, Editable, EditableView, Key, KeyView, Node, NodeId, Span, State, UiNode};

verus! {

/// The buttons of the bar above the composer.
pub const CANCEL_COMPOSING: &'static str = "cancel_composing";

pub const REPLY_MENTION: &'static str = "reply_mention";

// ── text fields ────────────────────────────────────────────────────────────

/// Where the character `n` starts, in bytes.
pub open spec fn byte_at(s: Seq<char>, n: int) -> usize {
    encode_utf8(s.take(n)).len() as usize
}

pub open spec fn byte_span(s: Seq<char>, at: Span) -> Span {
    Span { start: byte_at(s, at.start as int), end: byte_at(s, at.end as int) }
}

/// A text field as it is drawn: positions count bytes there.
pub open spec fn drawn(doc: Doc, placeholder: Seq<char>) -> EditableView {
    EditableView {
        text: doc.text,
        caret: byte_at(doc.text, doc.selection.end as int),
        selection: byte_span(doc.text, doc.selection),
        composing: match doc.composing {
            Some(c) => Some(byte_span(doc.text, c)),
            None => None,
        },
        placeholder,
    }
}

/// Where the character `n` starts, in bytes.
pub fn byte_position(chars: &Vec<char>, n: usize) -> (r: usize)
    requires
        n <= chars@.len(),
    ensures
        r == byte_at(chars@, n as int),
{
    let head = text::piece(chars.as_slice(), 0, n);
    assert(head@ =~= chars@.take(n as int));
    text::bytes(head.as_str()).len()
}

/// A text field as it is drawn.
pub fn draw_field(doc: &TextDocument, placeholder: String) -> (r: Editable)
    ensures
        r@ == drawn(doc@, placeholder@),
{
    let body = doc.text();
    let chars = text::chars(body.as_str());
    let sel = doc.selection();
    let selection = Span {
        start: byte_position(&chars, sel.start),
        end: byte_position(&chars, sel.end),
    };
    let composing = match doc.composing() {
        Some(c) => Some(
            Span { start: byte_position(&chars, c.start), end: byte_position(&chars, c.end) },
        ),
        None => None,
    };
    Editable { text: body, caret: selection.end, selection, composing, placeholder }
}

// ── the line below the list ────────────────────────────────────────────────

/// Who is typing, in one line even where there are many.
pub open spec fn typing_shown(names: Seq<Seq<char>>) -> Seq<char> {
    if names.len() == 0 {
        seq![]
    } else if names.len() == 1 {
        "  "@ + names[0] + " が入力中…"@
    } else if names.len() == 2 {
        "  "@ + names[0] + " と "@ + names[1] + " が入力中…"@
    } else if names.len() == 3 {
        "  "@ + names[0] + "、"@ + names[1] + "、"@ + names[2] + " が入力中…"@
    } else {
        "  "@ + names[0] + "、"@ + names[1] + " ほか "@ + text::dec((names.len() - 2) as nat)
            + " 人が入力中…"@
    }
}

/// Who is typing, in one line even where there are many.
pub fn typing_line(names: &Vec<String>) -> (r: String)
    ensures
        r@ == typing_shown(text::strings_of(names@)),
{
    let ghost ns = text::strings_of(names@);
    if names.len() == 0 {
        let r = String::new();
        assert(r@ =~= seq![]);
        return r;
    }
    assert(ns[0] == names@[0]@);
    let mut r = text::joined("  ", names[0].as_str());
    if names.len() == 1 {
        r.append(" が入力中…");
        return r;
    }
    assert(ns[1] == names@[1]@);
    if names.len() == 2 {
        r.append(" と ");
        r.append(names[1].as_str());
        r.append(" が入力中…");
        return r;
    }
    r.append("、");
    r.append(names[1].as_str());
    if names.len() == 3 {
        assert(ns[2] == names@[2]@);
        r.append("、");
        r.append(names[2].as_str());
        r.append(" が入力中…");
        return r;
    }
    r.append(" ほか ");
    let more: u64 = names.len() as u64 - 2;
    r.append(text::dec_string(more).as_str());
    r.append(" 人が入力中…");
    r
}

impl App {
    /// Whether there is anything real to show.
    pub open spec fn uses_live(self) -> bool {
        self.live.guilds@.len() > 0
    }

    /// The line below the list. Silent while connected.
    pub open spec fn status_shown(self) -> Seq<char> {
        match self.live.link_hint {
            Some(hint) => "  "@ + hint@,
            None => if self.uses_live() {
                match self.live.channel_spec(self.channel_id()) {
                    None => seq![],
                    Some(c) => if c.loading {
                        "  読み込んでいます…"@
                    } else {
                        typing_shown(text::strings_of(c.typing@))
                    },
                }
            } else {
                "  みどり が入力中…"@
            },
        }
    }
}

// ── days ───────────────────────────────────────────────────────────────────

/// The starting value and the multiplier of the FNV-1a hash.
pub const FNV_START: u64 = 0xcbf29ce484222325;

pub const FNV_PRIME: u64 = 0x100000001b3;

/// The FNV-1a hash of the first `n` bytes.
pub open spec fn fnv(b: Seq<u8>, n: nat) -> u64
    decreases n,
{
    if n == 0 || n > b.len() {
        FNV_START
    } else {
        ((fnv(b, (n - 1) as nat) ^ (b[n - 1] as u64)) * FNV_PRIME % 0x1_0000_0000_0000_0000) as u64
    }
}

/// One id per day label.
pub open spec fn day_key(day: Seq<char>) -> u64 {
    fnv(encode_utf8(day), encode_utf8(day).len())
}

/// A day divider: the date centred with a line reaching both sides.
#[verifier::opaque]
pub open spec fn divider_node(day: Seq<char>) -> Node {
    Node::new(NodeId::LayoutRow).with_id_key(day_key(day)).child(
        Node::new(NodeId::LayoutSpacer).with_slot("day_divider_line"@),
    ).child(Node::text(NodeId::ChatMessageListDayDivider, day)).child(
        Node::new(NodeId::LayoutSpacer).with_slot("day_divider_line"@),
    )
}

/// One id per day label: sibling dividers must not share a key. Deterministic
/// across frames, unlike the default hasher.
fn day_id(day: &str) -> (r: u64)
    ensures
        r == day_key(day@),
{
    let b = text::bytes(day);
    let mut h: u64 = FNV_START;
    let mut i: usize = 0;
    while i < b.len()
        invariant
            i <= b@.len(),
            h == fnv(b@, i as nat),
        decreases b@.len() - i,
    {
        h = (h ^ (b[i] as u64)).wrapping_mul(FNV_PRIME);
        i += 1;
    }
    h
}

/// A day divider: the date centred with a line reaching both sides. The lines
/// are spacers the theme paints; soaking the row's remainder keeps the label
/// centred whatever the width.
pub fn day_divider(day: &str) -> (r: UiNode)
    ensures
        r@ == divider_node(day@),
{
    reveal(divider_node);
    UiNode::new(NodeId::LayoutRow).with_id_key(day_id(day)).child(
        UiNode::new(NodeId::LayoutSpacer).with_slot("day_divider_line"),
    ).child(UiNode::text(NodeId::ChatMessageListDayDivider, day)).child(
        UiNode::new(NodeId::LayoutSpacer).with_slot("day_divider_line"),
    )
}

// ── messages ───────────────────────────────────────────────────────────────

/// Who and what a reply answers.
pub open spec fn reply_node(r: ReplyLine) -> Node {
    Node::new(NodeId::ChatMessageReplyRef).with_id_key(r.target).child(
        face_node(NodeId::ChatMessageReplyRefAvatar, r.avatar, r.author),
    ).child(Node::text(NodeId::PrimitiveText, r.author + ": "@ + r.snippet))
}

fn reply_line_node(r: &ReplyRef) -> (n: UiNode)
    ensures
        n@ == reply_node(r@),
{
    let mut line = text::joined(r.author.as_str(), ": ");
    line.append(r.snippet.as_str());
    UiNode::new(NodeId::ChatMessageReplyRef).with_id_key(r.target).child(
        face(NodeId::ChatMessageReplyRefAvatar, &r.avatar, r.author.as_str()),
    ).child(UiNode::text(NodeId::PrimitiveText, line.as_str()))
}

/// Who wrote it, and when.
pub open spec fn header_node(m: MessageLine) -> Node {
    Node::new(NodeId::ChatMessageHeader).child(
        Node::text(NodeId::ChatMessageHeaderAuthor, m.author).with_tint(m.tint),
    ).child(Node::text(NodeId::ChatMessageHeaderTime, m.time).with_id_key(m.id))
}

impl App {
    /// One message. The header shows on the first of a run only; the body is
    /// drawn from the parsed blocks by whoever draws.
    #[verifier::opaque]
    pub open spec fn message_node(self, m: MessageLine, grouped: bool) -> Node {
        let reply = match m.reply {
            Some(r) => Some(reply_node(r)),
            None => None,
        };
        Node::new(NodeId::ChatMessage).with_id_key(m.id).with_data(m.id).with_state_if(
            grouped,
            State::Grouped,
        ).with_state_if(m.mentioned, State::Mentioned).with_state_if(
            self.over_id(NodeId::ChatMessage, m.id),
            State::Hover,
        ).child_opt(reply).child_if(
            !grouped,
            face_node(NodeId::ChatMessageAvatar, m.avatar, m.author),
        ).child_if(!grouped, header_node(m)).child(
            Node::new(NodeId::ChatMessageContent).with_id_key(m.id).with_data(m.id),
        )
    }
}

/// Whether a message shares the header of the one before it: same author, same
/// day, close together. A reply always stands alone and breaks the run.
pub open spec fn grouped_at(ls: Seq<MessageLine>, k: int) -> bool {
    &&& 0 < k < ls.len()
    &&& ls[k].reply is None
    &&& ls[k - 1].reply is None
    &&& ls[k - 1].author == ls[k].author
    &&& continues_run(ls[k - 1].day, ls[k - 1].unix, ls[k].day, ls[k].unix)
}

/// The last day named among the first `k` messages.
pub open spec fn last_day(ls: Seq<MessageLine>, k: int) -> Seq<char>
    decreases k,
{
    if k <= 0 || k > ls.len() {
        seq![]
    } else if ls[k - 1].day.len() > 0 {
        ls[k - 1].day
    } else {
        last_day(ls, k - 1)
    }
}

/// Whether a new day starts with a message.
pub open spec fn day_starts(ls: Seq<MessageLine>, k: int) -> bool {
    0 <= k < ls.len() && ls[k].day.len() > 0 && ls[k].day != last_day(ls, k)
}

impl App {
    /// The first `n` messages, each day labelled where it starts.
    pub open spec fn message_nodes(self, ls: Seq<MessageLine>, n: nat) -> Seq<Node>
        decreases n,
    {
        if n == 0 || n > ls.len() {
            seq![]
        } else {
            let before = self.message_nodes(ls, (n - 1) as nat);
            let divided = if day_starts(ls, n - 1) {
                before.push(divider_node(ls[n - 1].day))
            } else {
                before
            };
            divided.push(self.message_node(ls[n - 1], grouped_at(ls, n - 1)))
        }
    }

    /// The message list. While an older page is on its way, a row at the top
    /// says so.
    pub open spec fn message_list_node(self) -> Node {
        let loading = match self.live.channel_spec(self.channel_id()) {
            Some(c) => c.paging_older || c.loading,
            None => false,
        };
        Node::new(NodeId::ChatMessageList).child_if(
            loading,
            loading_node("message_list_loading"@),
        ).children(
            self.message_nodes(self.message_lines(), self.message_lines().len()),
        ).child_opt(self.scrollbar_node(NodeId::ChatMessageList))
    }
}

/// The first row with an id.
pub open spec fn channel_at(ls: Seq<ChannelLine>, id: u64, k: int) -> Option<ChannelLine>
    decreases ls.len() - k,
{
    if k < 0 || k >= ls.len() {
        None
    } else if ls[k].id == id {
        Some(ls[k])
    } else {
        channel_at(ls, id, k + 1)
    }
}

/// The first message with an id.
pub open spec fn author_at(ls: Seq<MessageLine>, id: u64, k: int) -> Option<Seq<char>>
    decreases ls.len() - k,
{
    if k < 0 || k >= ls.len() {
        None
    } else if ls[k].id == id {
        Some(ls[k].author)
    } else {
        author_at(ls, id, k + 1)
    }
}

/// What the header and the composer say of the channel.
pub ghost struct Heading {
    pub id: u64,
    pub name: Seq<char>,
    pub icon: Seq<char>,
    pub topic: Seq<char>,
}

impl App {
    /// The open channel: the selected one, else the first that can be opened.
    pub open spec fn shown_channel(self) -> Option<ChannelLine> {
        let ls = openable(channel_lines(self.live, self.entries()));
        match channel_at(ls, self.chat.selected_channel, 0) {
            Some(c) => Some(c),
            None => if ls.len() > 0 {
                Some(ls[0])
            } else {
                None
            },
        }
    }

    pub open spec fn heading(self) -> Heading {
        match self.shown_channel() {
            Some(c) => Heading {
                id: c.id,
                name: c.name,
                icon: c.icon,
                topic: match c.topic {
                    Some(t) => t,
                    None => seq![],
                },
            },
            None => Heading { id: 0, name: seq![], icon: "channel.text"@, topic: seq![] },
        }
    }

    pub open spec fn chat_header_node(self) -> Node {
        let h = self.heading();
        Node::new(NodeId::ChatHeader).with_data(h.id).child_if(
            !self.given.panes.has_guilds(),
            self.icon_button(BACK_OPEN@, BACK_ICON@),
        ).child(Node::icon(NodeId::PrimitiveIcon, h.icon)).child(
            Node::text(NodeId::ChatHeaderTitle, h.name).with_data(h.id),
        ).child(Node::text(NodeId::ChatHeaderTopic, h.topic).with_data(h.id)).child_if(
            !self.given.panes.has_members(),
            self.icon_button(MEMBERS_OPEN@, MEMBERS_ICON@),
        )
    }

    pub open spec fn placeholder(self) -> Seq<char> {
        if self.heading().name.len() == 0 {
            "メッセージを送信"@
        } else {
            "#"@ + self.heading().name + " へメッセージを送信"@
        }
    }

    /// What the bar above the composer says.
    pub open spec fn bar_text(self) -> Seq<char> {
        match self.chat.composing {
            Composing::Reply(id) => match author_at(self.message_lines(), id, 0) {
                Some(a) => a + " に返信中"@,
                None => "返信中"@,
            },
            Composing::Edit(_) => "編集中"@,
            Composing::New => "中"@,
        }
    }

    pub open spec fn mention_switch(self) -> Node {
        Node::new(NodeId::PrimitiveButton).with_slot(REPLY_MENTION@).with_state_if(
            self.given.over(NodeId::PrimitiveButton, Some(KeyView::Slot(REPLY_MENTION@))),
            State::Hover,
        ).child(
            Node::text(
                NodeId::PrimitiveText,
                if self.chat.reply_mention {
                    "@ON"@
                } else {
                    "@OFF"@
                },
            ),
        )
    }

    /// The line above the composer, naming who is being replied to.
    pub open spec fn composing_bar_node(self) -> Node {
        let slot = match self.chat.composing {
            Composing::Reply(_) => "reply"@,
            Composing::Edit(_) => "edit"@,
            Composing::New => "none"@,
        };
        Node::new(NodeId::ChatInputToolbar).with_slot(slot).child(
            Node::text(NodeId::PrimitiveText, self.bar_text()).with_slot(slot),
        ).child(Node::new(NodeId::LayoutSpacer)).child_if(
            self.chat.composing is Reply,
            self.mention_switch(),
        ).child(self.icon_button(CANCEL_COMPOSING@, "close"@))
    }

    pub open spec fn chat_input_node(self) -> Node {
        Node::new(NodeId::ChatInput).child_if(
            !(self.chat.composing is New),
            self.composing_bar_node(),
        ).child(
            Node::editable(
                NodeId::ChatInputField,
                drawn(self.chat.input, self.placeholder()),
            ).with_state_if(self.chat.input_focused, State::Focus),
        )
    }

    pub open spec fn chat_node(self) -> Node {
        Node::new(NodeId::ChatView).child(self.chat_header_node()).child(
            self.message_list_node(),
        ).child(Node::text(NodeId::ChatTypingIndicator, self.status_shown())).child(
            self.chat_input_node(),
        )
    }

    /// A reply or an edit given up. The draft survives giving up a reply, which
    /// only removed a recipient; not an edit, where the field held the original.
    pub open spec fn composing_stopped(self) -> (App, bool) {
        match self.chat.composing {
            Composing::New => (self, false),
            Composing::Reply(_) => (
                App { chat: Chat { composing: Composing::New, ..self.chat }, ..self },
                true,
            ),
            Composing::Edit(_) => (
                App {
                    chat: Chat {
                        composing: Composing::New,
                        input: Doc::empty(),
                        ..self.chat
                    },
                    ..self
                },
                true,
            ),
        }
    }
}

impl Gumicord {
    /// One message of the list.
    pub fn message(&self, m: &MessageRow, grouped: bool) -> (r: UiNode)
        ensures
            r@ == self@.message_node(m@, grouped),
    {
        reveal(App::message_node);
        let reply = match &m.reply {
            Some(r) => Some(reply_line_node(r)),
            None => None,
        };
        let mut node = UiNode::new(NodeId::ChatMessage).with_id_key(m.id).with_data(
            m.id,
        ).with_state_if(grouped, State::Grouped).with_state_if(
            m.mentioned,
            State::Mentioned,
        ).with_state_if(self.hovered_id(NodeId::ChatMessage, m.id), State::Hover).child_opt(reply);
        if !grouped {
            let header = UiNode::new(NodeId::ChatMessageHeader).child(
                UiNode::text(NodeId::ChatMessageHeaderAuthor, m.author.as_str()).with_tint(m.tint),
            ).child(
                UiNode::text(NodeId::ChatMessageHeaderTime, m.time.as_str()).with_id_key(m.id),
            );
            node = node.child(
                face(NodeId::ChatMessageAvatar, &m.avatar, m.author.as_str()),
            ).child(header);
        }
        node.child(UiNode::new(NodeId::ChatMessageContent).with_id_key(m.id).with_data(m.id))
    }

    /// A day always starts labelled, and one header covers a run: same author,
    /// same day, close together. A reply always stands alone and breaks the run,
    /// whatever follows. Dividers track the day on their own: a broken run must
    /// not redraw the date.
    fn draw_messages(&self, rows: &Vec<MessageRow>) -> (r: Vec<UiNode>)
        ensures
            nodes_of(r@) == self@.message_nodes(message_lines_of(rows@), rows@.len()),
    {
        let ghost ls = message_lines_of(rows@);
        let mut out: Vec<UiNode> = Vec::new();
        let mut divided: Option<usize> = None;
        let mut k: usize = 0;
        assert(nodes_of(out@) =~= seq![]);
        while k < rows.len()
            invariant
                k <= rows@.len(),
                ls == message_lines_of(rows@),
                nodes_of(out@) == self@.message_nodes(ls, k as nat),
                match divided {
                    Some(d) => d < k && last_day(ls, k as int) == rows@[d as int].day@,
                    None => last_day(ls, k as int).len() == 0,
                },
            decreases rows@.len() - k,
        {
            let m = &rows[k];
            assert(ls[k as int] == m@);
            let ghost start = out@;
            let labelled = match divided {
                Some(d) => text::same_text(m.day.as_str(), rows[d].day.as_str()),
                None => false,
            };
            let has_day = text::chars(m.day.as_str()).len() > 0;
            if has_day && !labelled {
                let node = day_divider(m.day.as_str());
                out.push(node);
                assert(nodes_of(out@) =~= nodes_of(start).push(node@));
            }
            if has_day {
                divided = Some(k);
            }
            assert(day_starts(ls, k as int) == (has_day && !labelled));
            let ghost middle = out@;
            let grouped = if k > 0 {
                let prev = &rows[k - 1];
                assert(ls[k - 1] == prev@);
                m.reply.is_none() && prev.reply.is_none() && text::same_text(
                    prev.author.as_str(),
                    m.author.as_str(),
                ) && continues(prev.day.as_str(), prev.unix, m.day.as_str(), m.unix)
            } else {
                false
            };
            assert(grouped == grouped_at(ls, k as int));
            let node = self.message(m, grouped);
            out.push(node);
            assert(nodes_of(out@) =~= nodes_of(middle).push(node@));
            k += 1;
        }
        out
    }

    fn message_list(&self) -> (r: UiNode)
        ensures
            r@ == self@.message_list_node(),
    {
        let loading = match self.live.channel(ChannelId::from(self.chat.selected_channel)) {
            Some(c) => c.paging_older || c.loading,
            None => false,
        };
        let first = if loading {
            Some(loading_row("message_list_loading"))
        } else {
            None
        };
        UiNode::new(NodeId::ChatMessageList).child_opt(first).children(
            self.draw_messages(&self.message_rows()),
        ).child_opt(
            self.scrollbar(NodeId::ChatMessageList),
        )
    }

    /// The row of the open channel.
    fn shown_row(&self) -> (r: Option<ChannelRow>)
        ensures
            match r {
                Some(c) => self@.shown_channel() == Some(c@),
                None => self@.shown_channel() is None,
            },
    {
        let mut rows = self.openable_rows();
        let ghost ls = channel_lines_of(rows@);
        let mut k: usize = 0;
        while k < rows.len()
            invariant
                k <= rows@.len(),
                ls == channel_lines_of(rows@),
                ls == openable(channel_lines(self@.live, self@.entries())),
                channel_at(ls, self.chat.selected_channel, 0) == channel_at(
                    ls,
                    self.chat.selected_channel,
                    k as int,
                ),
            decreases rows@.len() - k,
        {
            assert(ls[k as int] == rows@[k as int]@);
            if rows[k].id == self.chat.selected_channel {
                return Some(rows.remove(k));
            }
            k += 1;
        }
        if rows.len() > 0 {
            assert(ls[0] == rows@[0]@);
            Some(rows.remove(0))
        } else {
            None
        }
    }

    /// The chat: header, messages, the line below them and the composer.
    pub fn chat_view(&self) -> (r: UiNode)
        ensures
            r@ == self@.chat_node(),
    {
        let shown = self.shown_row();
        let (id, name, icon, topic): (u64, String, &str, String) = match shown {
            Some(c) => (
                c.id,
                c.name,
                c.icon,
                match c.topic {
                    Some(t) => t,
                    None => String::new(),
                },
            ),
            None => (0, String::new(), "channel.text", String::new()),
        };
        assert(topic@ =~= self@.heading().topic);
        assert(name@ =~= self@.heading().name);

        // The way back first, so it sits left of the channel name: only built
        // while the guild list hides.
        let back = if !self.given.panes.guilds() {
            Some(self.icon_button(BACK_OPEN, BACK_ICON))
        } else {
            None
        };
        // The members last, so they draw and hit above the header: only built
        // while the member pane hides.
        let members = if !self.given.panes.members() {
            Some(self.icon_button(MEMBERS_OPEN, MEMBERS_ICON))
        } else {
            None
        };
        let header = UiNode::new(NodeId::ChatHeader).with_data(id).child_opt(back).child(
            UiNode::icon(NodeId::PrimitiveIcon, icon),
        ).child(UiNode::text(NodeId::ChatHeaderTitle, name.as_str()).with_data(id)).child(
            UiNode::text(NodeId::ChatHeaderTopic, topic.as_str()).with_data(id),
        ).child_opt(members);

        let placeholder = if text::chars(name.as_str()).len() == 0 {
            text::owned("メッセージを送信")
        } else {
            let mut s = text::joined("#", name.as_str());
            s.append(" へメッセージを送信");
            s
        };
        // What the composer is doing has to be visible: sending a new message
        // while meaning to edit cannot be undone.
        let bar = match self.chat.composing {
            Composing::New => None,
            _ => Some(self.composing_bar()),
        };
        let input = UiNode::new(NodeId::ChatInput).child_opt(bar).child(
            UiNode::editable(
                NodeId::ChatInputField,
                draw_field(&self.chat.input, placeholder),
            ).with_state_if(self.chat.input_focused, State::Focus),
        );
        UiNode::new(NodeId::ChatView).child(header).child(self.message_list()).child(
            UiNode::text(NodeId::ChatTypingIndicator, self.status_line().as_str()),
        ).child(input)
    }

    /// Gives up a reply or an edit.
    ///
    /// The draft survives giving up a reply, which only removed a recipient from
    /// text that is still sendable. It does not survive giving up an edit, where
    /// the field holds the original message rather than anything the user wrote.
    pub fn stop_composing(&mut self) -> (r: bool)
        ensures
            (final(self)@, r) == old(self)@.composing_stopped(),
    {
        match self.chat.composing {
            Composing::New => false,
            Composing::Reply(_) => {
                self.chat.composing = Composing::New;
                true
            },
            Composing::Edit(_) => {
                self.chat.composing = Composing::New;
                self.chat.input.take();
                true
            },
        }
    }

    fn author_of(&self, id: u64) -> (r: Option<String>)
        ensures
            crate::model::opt_text(r) == author_at(self@.message_lines(), id, 0),
    {
        let rows = self.message_rows();
        let ghost ls = self@.message_lines();
        let mut k: usize = 0;
        while k < rows.len()
            invariant
                k <= rows@.len(),
                ls == message_lines_of(rows@),
                ls == self@.message_lines(),
                author_at(ls, id, 0) == author_at(ls, id, k as int),
            decreases rows@.len() - k,
        {
            assert(ls[k as int] == rows@[k as int]@);
            if rows[k].id == id {
                return Some(rows[k].author.clone());
            }
            k += 1;
        }
        None
    }

    /// The line above the composer, naming who is being replied to. "Replying"
    /// alone stops meaning anything once the list has scrolled.
    pub fn composing_bar(&self) -> (r: UiNode)
        ensures
            r@ == self@.composing_bar_node(),
    {
        let slot: &'static str = match self.chat.composing {
            Composing::Reply(_) => "reply",
            Composing::Edit(_) => "edit",
            Composing::New => "none",
        };
        let line = match self.chat.composing {
            Composing::Reply(id) => match self.author_of(id) {
                Some(a) => text::joined(a.as_str(), " に返信中"),
                // A scrolled-away target cannot be resolved; still show the
                // state.
                None => text::owned("返信中"),
            },
            Composing::Edit(_) => text::owned("編集中"),
            Composing::New => text::owned("中"),
        };
        let switch = match self.chat.composing {
            Composing::Reply(_) => {
                let label = if self.chat.reply_mention {
                    "@ON"
                } else {
                    "@OFF"
                };
                Some(
                    UiNode::new(NodeId::PrimitiveButton).with_slot(REPLY_MENTION).with_state_if(
                        self.given.is_over(
                            NodeId::PrimitiveButton,
                            Some(Key::Slot(REPLY_MENTION)),
                        ),
                        State::Hover,
                    ).child(UiNode::text(NodeId::PrimitiveText, label)),
                )
            },
            _ => None,
        };
        // A visible way out: without one this looks like a state with no exit.
        UiNode::new(NodeId::ChatInputToolbar).with_slot(slot).child(
            UiNode::text(NodeId::PrimitiveText, line.as_str()).with_slot(slot),
        ).child(UiNode::new(NodeId::LayoutSpacer)).child_opt(switch).child(
            self.icon_button(CANCEL_COMPOSING, "close"),
        )
    }

    /// The line below the list. Silent while connected; announcing the normal
    /// case buries the abnormal one.
    pub fn status_line(&self) -> (r: String)
        ensures
            r@ == self@.status_shown(),
    {
        if let Some(hint) = &self.live.link_hint {
            return text::joined("  ", hint.as_str());
        }
        if self.live.is_empty() {
            return text::owned("  みどり が入力中…");
        }
        match self.live.channel(ChannelId::from(self.chat.selected_channel)) {
            Some(c) => if c.loading {
                text::owned("  読み込んでいます…")
            } else {
                typing_line(&c.typing)
            },
            None => {
                let r = String::new();
                assert(r@ =~= seq![]);
                r
            },
        }
    }
}

// ── laws ───────────────────────────────────────────────────────────────────

/// The first message of a list, a reply, and whatever follows a reply always
/// show who wrote them.
pub proof fn a_reply_breaks_the_run(ls: Seq<MessageLine>, k: int)
    requires
        0 <= k < ls.len(),
    ensures
        k == 0 ==> !grouped_at(ls, k),
        ls[k].reply is Some ==> !grouped_at(ls, k),
        k > 0 && ls[k - 1].reply is Some ==> !grouped_at(ls, k),
{
}

/// A message under another's header has its author and its day.
pub proof fn a_header_covers_one_author_and_day(ls: Seq<MessageLine>, k: int)
    requires
        grouped_at(ls, k),
    ensures
        ls[k - 1].author == ls[k].author,
        ls[k - 1].day == ls[k].day,
        ls[k].day.len() > 0,
        !day_starts(ls, k),
{
}

/// The same day is not labelled twice in a row: between two labels of it,
/// another day is labelled.
pub proof fn a_day_is_labelled_once(ls: Seq<MessageLine>, i: int, j: int)
    requires
        0 <= i < j < ls.len(),
        day_starts(ls, i),
        day_starts(ls, j),
        forall|k: int| i < k < j ==> !#[trigger] day_starts(ls, k),
    ensures
        ls[i].day != ls[j].day,
{
    lemma_day_lasts(ls, i, j);
}

proof fn lemma_day_lasts(ls: Seq<MessageLine>, i: int, j: int)
    requires
        0 <= i < j < ls.len(),
        day_starts(ls, i),
        forall|k: int| i < k < j ==> !#[trigger] day_starts(ls, k),
    ensures
        last_day(ls, j) == ls[i].day,
    decreases j,
{
    if j > i + 1 {
        lemma_day_lasts(ls, i, j - 1);
        assert(!day_starts(ls, j - 1));
    }
}

/// Every message with a day stands under a label of that day.
pub proof fn every_day_is_labelled(ls: Seq<MessageLine>, k: int) -> (i: int)
    requires
        0 <= k < ls.len(),
        ls[k].day.len() > 0,
    ensures
        0 <= i <= k,
        day_starts(ls, i),
        ls[i].day == ls[k].day,
    decreases k,
{
    if day_starts(ls, k) {
        k
    } else {
        let d = lemma_last_day(ls, k);
        every_day_is_labelled(ls, d)
    }
}

proof fn lemma_last_day(ls: Seq<MessageLine>, k: int) -> (i: int)
    requires
        0 <= k <= ls.len(),
        last_day(ls, k).len() > 0,
    ensures
        0 <= i < k,
        ls[i].day == last_day(ls, k),
    decreases k,
{
    if ls[k - 1].day.len() > 0 {
        k - 1
    } else {
        lemma_last_day(ls, k - 1)
    }
}

/// What the composer is doing is always visible: the bar is there exactly while
/// replying or editing.
pub proof fn composing_is_visible(a: App)
    ensures
        a.chat_input_node().children.len() == (if a.chat.composing is New {
            1int
        } else {
            2
        }),
        !(a.chat.composing is New) ==> a.chat_input_node().children[0].id
            == NodeId::ChatInputToolbar,
{
}

/// Giving up a reply keeps the draft; giving up an edit does not.
pub proof fn drafts_survive_replies_only(a: App)
    ensures
        a.composing_stopped().0.chat.composing is New,
        a.chat.composing is Reply ==> a.composing_stopped().0.chat.input == a.chat.input,
        a.chat.composing is Edit ==> a.composing_stopped().0.chat.input == Doc::empty(),
{
}

} // verus!
