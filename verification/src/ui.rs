//! The tree a screen is built from.
//!
//! A node says what it is and what it holds; how it looks is the theme's
//! business and where it lands is the layout's.

use vstd::prelude::*;


verus! {

/// What a node is. Themes and press routing go by this.
#[derive(Debug, Clone, Copy, PartialEq, Eq, Structural)]
pub enum NodeId {
    AppScreenLogin,
    AppScreenLoginCard,
    AppScreenLoginDivider,
    AppScreenLoginError,
    AppScreenLoginField,
    AppScreenLoginForgot,
    AppScreenLoginHint,
    AppScreenLoginLabel,
    AppScreenLoginQrButton,
    AppScreenLoginRegister,
    AppScreenLoginTitle,
    ChatHeader,
    ChatHeaderTitle,
    ChatHeaderTopic,
    ChatInput,
    ChatInputField,
    ChatInputToolbar,
    ChatMessage,
    ChatMessageAvatar,
    ChatMessageContent,
    ChatMessageHeader,
    ChatMessageHeaderAuthor,
    ChatMessageHeaderTime,
    ChatMessageList,
    ChatMessageListDayDivider,
    ChatMessageReplyRef,
    ChatMessageReplyRefAvatar,
    ChatTypingIndicator,
    ChatView,
    LayoutColumn,
    LayoutRow,
    LayoutScroll,
    LayoutScrollbar,
    LayoutSpacer,
    NavChannelList,
    NavChannelListCategory,
    NavChannelListHeader,
    NavChannelListItem,
    NavChannelListItemBadge,
    NavChannelListItemIcon,
    NavChannelListItemName,
    NavGuildList,
    NavGuildListFolder,
    NavGuildListFolderIcon,
    NavGuildListHome,
    NavGuildListItem,
    NavGuildListItemBadge,
    NavGuildListItemIcon,
    NavGuildListItemPill,
    NavMemberList,
    NavMemberListGroup,
    NavMemberListItem,
    NavMemberListItemAvatar,
    NavMemberListItemName,
    NavMemberListItemPresence,
    NavSidebar,
    NavSidebarLists,
    NavUserPanel,
    NavUserPanelAvatar,
    NavUserPanelName,
    NavUserPanelPresence,
    NavUserPanelStatus,
    OverlayDrawer,
    OverlayMenu,
    OverlayMenuItem,
    OverlayMenuItemIcon,
    OverlayMenuItemLabel,
    OverlayModalAction,
    OverlaySheet,
    OverlayTooltip,
    PrimitiveButton,
    PrimitiveIcon,
    PrimitiveQr,
    PrimitiveText,
    SettingsNav,
    SettingsPage,
    SettingsScreen,
    /// A node only the renderer or a plugin knows.
    Other(u32),
}

/// A condition a node is in, for the theme to style.
#[derive(Debug, Clone, Copy, PartialEq, Eq, Structural)]
pub enum State {
    Hover,
    Focus,
    Selected,
    Unread,
    Mentioned,
    Grouped,
    Collapsed,
    Loading,
    /// Cannot be undone.
    Danger,
}

/// What tells a node apart from its siblings.
#[derive(Debug, Clone, Copy, PartialEq, Eq)]
pub enum Key {
    /// One of a fixed set of names.
    Slot(&'static str),
    /// The id of what is shown.
    Id(u64),
    /// A position in a list.
    Index(u32),
}

/// [`Key`] with the name as a character sequence.
pub ghost enum KeyView {
    Slot(Seq<char>),
    Id(u64),
    Index(u32),
}

impl View for Key {
    type V = KeyView;

    open spec fn view(&self) -> KeyView {
        match *self {
            Key::Slot(s) => KeyView::Slot(s@),
            Key::Id(i) => KeyView::Id(i),
            Key::Index(i) => KeyView::Index(i),
        }
    }
}

pub open spec fn opt_key(k: Option<Key>) -> Option<KeyView> {
    match k {
        Some(k) => Some(k@),
        None => None,
    }
}

pub fn same_key(a: Key, b: Key) -> (r: bool)
    ensures
        r == (a@ == b@),
{
    match (a, b) {
        (Key::Slot(x), Key::Slot(y)) => crate::text::same_text(x, y),
        (Key::Id(x), Key::Id(y)) => x == y,
        (Key::Index(x), Key::Index(y)) => x == y,
        _ => false,
    }
}

/// A part of a text, from `start` up to `end`. Positions count bytes.
#[derive(Debug, Clone, Copy, PartialEq, Eq, Structural)]
pub struct Span {
    pub start: usize,
    pub end: usize,
}

/// A text field as it is drawn. Positions count bytes.
#[derive(Debug, PartialEq, Eq)]
pub struct Editable {
    pub text: String,
    pub caret: usize,
    pub selection: Span,
    /// The part still being composed by an input method.
    pub composing: Option<Span>,
    pub placeholder: String,
}

/// [`Editable`] with the text as character sequences.
pub ghost struct EditableView {
    pub text: Seq<char>,
    pub caret: usize,
    pub selection: Span,
    pub composing: Option<Span>,
    pub placeholder: Seq<char>,
}

impl View for Editable {
    type V = EditableView;

    open spec fn view(&self) -> EditableView {
        EditableView {
            text: self.text@,
            caret: self.caret,
            selection: self.selection,
            composing: self.composing,
            placeholder: self.placeholder@,
        }
    }
}

/// What a node shows besides its children.
#[derive(Debug, PartialEq, Eq)]
pub enum Content {
    Empty,
    Text(String),
    /// An icon by name.
    Icon(String),
    /// An image by URL.
    Image(String),
    /// A QR code of this text.
    Qr(String),
    Editable(Editable),
}

/// [`Content`] with the text as character sequences.
pub ghost enum ContentView {
    Empty,
    Text(Seq<char>),
    Icon(Seq<char>),
    Image(Seq<char>),
    Qr(Seq<char>),
    Editable(EditableView),
}

impl View for Content {
    type V = ContentView;

    open spec fn view(&self) -> ContentView {
        match *self {
            Content::Empty => ContentView::Empty,
            Content::Text(s) => ContentView::Text(s@),
            Content::Icon(s) => ContentView::Icon(s@),
            Content::Image(s) => ContentView::Image(s@),
            Content::Qr(s) => ContentView::Qr(s@),
            Content::Editable(e) => ContentView::Editable(e@),
        }
    }
}

impl Content {
    pub fn copy(&self) -> (r: Content)
        ensures
            r@ == self@,
    {
        match self {
            Content::Empty => Content::Empty,
            Content::Text(s) => Content::Text(s.clone()),
            Content::Icon(s) => Content::Icon(s.clone()),
            Content::Image(s) => Content::Image(s.clone()),
            Content::Qr(s) => Content::Qr(s.clone()),
            Content::Editable(e) => Content::Editable(
                Editable {
                    text: e.text.clone(),
                    caret: e.caret,
                    selection: e.selection,
                    composing: e.composing,
                    placeholder: e.placeholder.clone(),
                },
            ),
        }
    }

    pub fn as_text(&self) -> (r: Option<&str>)
        ensures
            match r {
                Some(s) => self@ == ContentView::Text(s@),
                None => !(self@ is Text),
            },
    {
        match self {
            Content::Text(s) => Some(s.as_str()),
            _ => None,
        }
    }
}

/// One node of the tree.
#[derive(Debug, PartialEq)]
pub struct UiNode {
    pub id: NodeId,
    pub key: Option<Key>,
    /// The id of what the node speaks of.
    pub data: Option<u64>,
    pub states: Vec<State>,
    /// A colour carried along, `0xRRGGBB`; where it lands is the theme's call.
    pub tint: Option<u32>,
    pub content: Content,
    pub children: Vec<UiNode>,
}

/// [`UiNode`] with the text as character sequences.
pub ghost struct Node {
    pub id: NodeId,
    pub key: Option<KeyView>,
    pub data: Option<u64>,
    pub states: Seq<State>,
    pub tint: Option<u32>,
    pub content: ContentView,
    pub children: Seq<Node>,
}

impl Node {
    /// A node with nothing in it.
    pub open spec fn new(id: NodeId) -> Node {
        Node {
            id,
            key: None,
            data: None,
            states: seq![],
            tint: None,
            content: ContentView::Empty,
            children: seq![],
        }
    }

    pub open spec fn text(id: NodeId, s: Seq<char>) -> Node {
        Node { content: ContentView::Text(s), ..Node::new(id) }
    }

    pub open spec fn icon(id: NodeId, s: Seq<char>) -> Node {
        Node { content: ContentView::Icon(s), ..Node::new(id) }
    }

    pub open spec fn image(id: NodeId, s: Seq<char>) -> Node {
        Node { content: ContentView::Image(s), ..Node::new(id) }
    }

    pub open spec fn qr(id: NodeId, s: Seq<char>) -> Node {
        Node { content: ContentView::Qr(s), ..Node::new(id) }
    }

    pub open spec fn editable(id: NodeId, e: EditableView) -> Node {
        Node { content: ContentView::Editable(e), ..Node::new(id) }
    }

    pub open spec fn with_slot(self, slot: Seq<char>) -> Node {
        Node { key: Some(KeyView::Slot(slot)), ..self }
    }

    pub open spec fn with_id_key(self, id: u64) -> Node {
        Node { key: Some(KeyView::Id(id)), ..self }
    }

    pub open spec fn with_index(self, index: u32) -> Node {
        Node { key: Some(KeyView::Index(index)), ..self }
    }

    pub open spec fn with_data(self, data: u64) -> Node {
        Node { data: Some(data), ..self }
    }

    pub open spec fn with_state(self, s: State) -> Node {
        Node { states: self.states.push(s), ..self }
    }

    pub open spec fn with_state_if(self, on: bool, s: State) -> Node {
        if on {
            self.with_state(s)
        } else {
            self
        }
    }

    pub open spec fn with_tint(self, tint: Option<u32>) -> Node {
        Node { tint, ..self }
    }

    pub open spec fn child(self, c: Node) -> Node {
        Node { children: self.children.push(c), ..self }
    }

    pub open spec fn child_if(self, on: bool, c: Node) -> Node {
        if on {
            self.child(c)
        } else {
            self
        }
    }

    pub open spec fn child_opt(self, c: Option<Node>) -> Node {
        match c {
            Some(c) => self.child(c),
            None => self,
        }
    }

    pub open spec fn children(self, c: Seq<Node>) -> Node {
        Node { children: self.children + c, ..self }
    }
}

pub open spec fn node_of(n: UiNode) -> Node
    decreases n,
{
    Node {
        id: n.id,
        key: opt_key(n.key),
        data: n.data,
        states: n.states@,
        tint: n.tint,
        content: n.content@,
        children: Seq::new(
            n.children@.len(),
            |i: int|
                if 0 <= i < n.children@.len() {
                    node_of(n.children@[i])
                } else {
                    Node::new(NodeId::Other(0))
                },
        ),
    }
}

impl View for UiNode {
    type V = Node;

    open spec fn view(&self) -> Node {
        node_of(*self)
    }
}

pub open spec fn nodes_of(v: Seq<UiNode>) -> Seq<Node> {
    Seq::new(v.len(), |i: int| v[i]@)
}

pub open spec fn opt_node(n: Option<UiNode>) -> Option<Node> {
    match n {
        Some(n) => Some(n@),
        None => None,
    }
}

pub proof fn lemma_node_view(n: UiNode)
    ensures
        n@ == (Node {
            id: n.id,
            key: opt_key(n.key),
            data: n.data,
            states: n.states@,
            tint: n.tint,
            content: n.content@,
            children: nodes_of(n.children@),
        }),
{
    assert(node_of(n).children =~= nodes_of(n.children@));
}

impl UiNode {
    pub fn new(id: NodeId) -> (r: UiNode)
        ensures
            r@ == Node::new(id),
    {
        let r = UiNode {
            id,
            key: None,
            data: None,
            states: Vec::new(),
            tint: None,
            content: Content::Empty,
            children: Vec::new(),
        };
        proof {
            lemma_node_view(r);
            assert(r@.children =~= seq![]);
        }
        r
    }

    fn with_content(self, content: Content) -> (r: UiNode)
        ensures
            r@ == (Node { content: content@, ..self@ }),
    {
        let mut r = self;
        r.content = content;
        proof {
            lemma_node_view(self);
            lemma_node_view(r);
        }
        r
    }

    pub fn text(id: NodeId, s: &str) -> (r: UiNode)
        ensures
            r@ == Node::text(id, s@),
    {
        UiNode::new(id).with_content(Content::Text(crate::text::owned(s)))
    }

    pub fn icon(id: NodeId, s: &str) -> (r: UiNode)
        ensures
            r@ == Node::icon(id, s@),
    {
        UiNode::new(id).with_content(Content::Icon(crate::text::owned(s)))
    }

    pub fn image(id: NodeId, s: &str) -> (r: UiNode)
        ensures
            r@ == Node::image(id, s@),
    {
        UiNode::new(id).with_content(Content::Image(crate::text::owned(s)))
    }

    pub fn qr(id: NodeId, s: &str) -> (r: UiNode)
        ensures
            r@ == Node::qr(id, s@),
    {
        UiNode::new(id).with_content(Content::Qr(crate::text::owned(s)))
    }

    pub fn editable(id: NodeId, e: Editable) -> (r: UiNode)
        ensures
            r@ == Node::editable(id, e@),
    {
        UiNode::new(id).with_content(Content::Editable(e))
    }

    fn with_key(self, key: Key) -> (r: UiNode)
        ensures
            r@ == (Node { key: Some(key@), ..self@ }),
    {
        let mut r = self;
        r.key = Some(key);
        proof {
            lemma_node_view(self);
            lemma_node_view(r);
        }
        r
    }

    pub fn with_slot(self, slot: &'static str) -> (r: UiNode)
        ensures
            r@ == self@.with_slot(slot@),
    {
        self.with_key(Key::Slot(slot))
    }

    pub fn with_id_key(self, id: u64) -> (r: UiNode)
        ensures
            r@ == self@.with_id_key(id),
    {
        self.with_key(Key::Id(id))
    }

    pub fn with_index(self, index: u32) -> (r: UiNode)
        ensures
            r@ == self@.with_index(index),
    {
        self.with_key(Key::Index(index))
    }

    pub fn with_data(self, data: u64) -> (r: UiNode)
        ensures
            r@ == self@.with_data(data),
    {
        let mut r = self;
        r.data = Some(data);
        proof {
            lemma_node_view(self);
            lemma_node_view(r);
        }
        r
    }

    pub fn with_state(self, s: State) -> (r: UiNode)
        ensures
            r@ == self@.with_state(s),
    {
        let mut r = self;
        r.states.push(s);
        proof {
            lemma_node_view(self);
            lemma_node_view(r);
        }
        r
    }

    pub fn with_state_if(self, on: bool, s: State) -> (r: UiNode)
        ensures
            r@ == self@.with_state_if(on, s),
    {
        if on {
            self.with_state(s)
        } else {
            self
        }
    }

    pub fn with_tint(self, tint: Option<u32>) -> (r: UiNode)
        ensures
            r@ == self@.with_tint(tint),
    {
        let mut r = self;
        r.tint = tint;
        proof {
            lemma_node_view(self);
            lemma_node_view(r);
        }
        r
    }

    pub fn child(self, c: UiNode) -> (r: UiNode)
        ensures
            r@ == self@.child(c@),
    {
        let mut r = self;
        r.children.push(c);
        proof {
            lemma_node_view(self);
            lemma_node_view(r);
            assert(r@.children =~= self@.children.push(c@));
        }
        r
    }

    pub fn child_opt(self, c: Option<UiNode>) -> (r: UiNode)
        ensures
            r@ == self@.child_opt(opt_node(c)),
    {
        match c {
            Some(c) => self.child(c),
            None => self,
        }
    }

    pub fn children(self, c: Vec<UiNode>) -> (r: UiNode)
        ensures
            r@ == self@.children(nodes_of(c@)),
    {
        let mut r = self;
        let mut c = c;
        let ghost added = c@;
        r.children.append(&mut c);
        proof {
            lemma_node_view(self);
            lemma_node_view(r);
            assert(r@.children =~= self@.children + nodes_of(added));
        }
        r
    }

    /// A copy of the whole tree below.
    pub fn copy(&self) -> (r: UiNode)
        ensures
            r@ == self@,
        decreases *self,
    {
        let mut states: Vec<State> = Vec::new();
        let mut i: usize = 0;
        while i < self.states.len()
            invariant
                i <= self.states.len(),
                states@ =~= self.states@.take(i as int),
            decreases self.states.len() - i,
        {
            states.push(self.states[i]);
            i += 1;
        }
        assert(states@ =~= self.states@);
        let mut children: Vec<UiNode> = Vec::new();
        let mut k: usize = 0;
        while k < self.children.len()
            invariant
                k <= self.children.len(),
                nodes_of(children@) =~= nodes_of(self.children@).take(k as int),
            decreases self.children.len() - k,
        {
            let ghost before = children@;
            children.push(self.children[k].copy());
            assert(nodes_of(children@) =~= nodes_of(before).push(self.children@[k as int]@));
            k += 1;
        }
        assert(nodes_of(children@) =~= nodes_of(self.children@));
        let r = UiNode {
            id: self.id,
            key: self.key,
            data: self.data,
            states,
            tint: self.tint,
            content: self.content.copy(),
            children,
        };
        proof {
            lemma_node_view(*self);
            lemma_node_view(r);
        }
        r
    }
}

} // verus!
