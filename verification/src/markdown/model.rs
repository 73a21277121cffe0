//! What parsing gives. It knows nothing of drawing: "this is bold" stands
//! here, how heavy bold is does not.

use vstd::prelude::*;

verus! {

/// Decorations on a piece of text. They stack.
///
/// A spoiler is one of them: `||` wraps arbitrary content just as the others
/// do. Whether it is revealed is the drawing side's state.
#[derive(Debug, Clone, Copy, PartialEq, Eq, Structural, Hash)]
pub struct Deco {
    bits: u8,
}

impl Deco {
    /// The decorations as a bit set.
    pub closed spec fn mask(self) -> u8 {
        self.bits
    }

    pub fn none() -> (r: Deco)
        ensures
            r.mask() == 0,
    {
        Deco { bits: 0 }
    }

    pub fn bold() -> (r: Deco)
        ensures
            r.mask() == 1,
    {
        Deco { bits: 1 }
    }

    pub fn italic() -> (r: Deco)
        ensures
            r.mask() == 2,
    {
        Deco { bits: 2 }
    }

    pub fn underline() -> (r: Deco)
        ensures
            r.mask() == 4,
    {
        Deco { bits: 4 }
    }

    pub fn strike() -> (r: Deco)
        ensures
            r.mask() == 8,
    {
        Deco { bits: 8 }
    }

    pub fn spoiler() -> (r: Deco)
        ensures
            r.mask() == 16,
    {
        Deco { bits: 16 }
    }

    /// Whether every decoration of `other` is here too.
    pub fn contains(self, other: Deco) -> (r: bool)
        ensures
            r == (self.mask() & other.mask() == other.mask()),
    {
        self.bits & other.bits == other.bits
    }

    /// The decorations of both.
    pub fn with(self, other: Deco) -> (r: Deco)
        ensures
            r.mask() == self.mask() | other.mask(),
    {
        Deco { bits: self.bits | other.bits }
    }

    pub fn is_none(self) -> (r: bool)
        ensures
            r == (self.mask() == 0),
    {
        self.bits == 0
    }

    pub fn bits(self) -> (r: u8)
        ensures
            r == self.mask(),
    {
        self.bits
    }
}

impl Default for Deco {
    fn default() -> (r: Deco)
        ensures
            r.mask() == 0,
    {
        Deco { bits: 0 }
    }
}

impl vstd::std_specs::ops::BitOrSpecImpl for Deco {
    open spec fn obeys_bitor_spec() -> bool {
        true
    }

    open spec fn bitor_req(self, rhs: Deco) -> bool {
        true
    }

    closed spec fn bitor_spec(self, rhs: Deco) -> Deco {
        Deco { bits: self.bits | rhs.bits }
    }
}

impl core::ops::BitOr for Deco {
    type Output = Deco;

    fn bitor(self, rhs: Deco) -> (r: Deco)
        ensures
            r.mask() == self.mask() | rhs.mask(),
    {
        self.with(rhs)
    }
}

/// Adding decorations keeps those of both sides, whatever the order, and
/// adding what is there changes nothing.
pub proof fn decorations_stack(a: u8, b: u8)
    ensures
        (a | b) & a == a,
        (a | b) & b == b,
        a | b == b | a,
        a & b == b ==> a | b == a,
{
    assert((a | b) & a == a && (a | b) & b == b && a | b == b | a && (a & b == b ==> a | b == a))
        by (bit_vector);
}

/// Who or what is pointed at. Only the number is here: the name needs a
/// look-up that is not parsing's business.
#[derive(Debug, Clone, Copy, PartialEq, Eq, Structural)]
pub enum Mention {
    /// `<@123>` or `<@!123>`
    User(u64),
    /// `<#123>`
    Channel(u64),
    /// `<@&123>`
    Role(u64),
    /// `@everyone`
    Everyone,
    /// `@here`
    Here,
}

/// One thing inside a line.
#[derive(Debug, Clone, PartialEq)]
pub struct Inline {
    /// The decorations on it, nesting folded: `**~~a~~**` is one [`Inline`].
    pub deco: Deco,
    pub kind: InlineKind,
}

#[derive(Debug, Clone, PartialEq)]
pub enum InlineKind {
    Text(String),
    /// `` `…` ``. The content is not parsed.
    Code(String),
    /// `[label](url)` and bare URLs; without a label the URL shows itself.
    Link { url: String, label: Option<String> },
    Mention(Mention),
    /// `<:name:123>` or `<a:name:123>`
    Emoji { name: String, id: u64, animated: bool },
    /// `<t:1700000000:R>`; the format is `'f'` where none is written.
    Timestamp { at: i64, format: char },
    /// A line break inside a paragraph. It does not end the paragraph.
    Break,
}

/// The mark at the head of a list line.
#[derive(Debug, Clone, Copy, PartialEq, Eq, Structural)]
pub enum Marker {
    /// `-`, `*` or `+`
    Bullet,
    /// `1.`, with the number as written
    Number(u32),
}

/// One line of a list.
#[derive(Debug, Clone, PartialEq)]
pub struct Item {
    /// One level for every two spaces of indentation, up to a limit.
    pub depth: u8,
    pub marker: Marker,
    pub content: Vec<Inline>,
}

/// One thing in the vertical stack.
#[derive(Debug, PartialEq)]
pub enum Block {
    Paragraph(Vec<Inline>),
    /// `#`, `##` and `###`; `level` is 1 to 3.
    Heading { level: u8, content: Vec<Inline> },
    /// `-# `, the small note.
    Subtext(Vec<Inline>),
    /// `> ` and `>>> `. It nests.
    Quote(Vec<Block>),
    /// Consecutive list lines are one list.
    List(Vec<Item>),
    /// ```` ``` ````; `lang` is as it was written.
    Code { lang: Option<String>, text: String },
}

impl Inline {
    pub fn text(s: String, deco: Deco) -> (r: Inline)
        ensures
            r.deco == deco,
            r.kind == InlineKind::Text(s),
    {
        Inline { deco, kind: InlineKind::Text(s) }
    }
}

// ── what the contracts speak of ────────────────────────────────────────────

/// [`InlineKind`] with the text as character sequences.
pub ghost enum Kind {
    Text(Seq<char>),
    Code(Seq<char>),
    Link { url: Seq<char>, label: Option<Seq<char>> },
    Mention(Mention),
    Emoji { name: Seq<char>, id: u64, animated: bool },
    Timestamp { at: i64, format: char },
    Break,
}

/// [`Inline`] with the text as character sequences.
pub ghost struct Span {
    pub deco: u8,
    pub kind: Kind,
}

/// [`Item`] with the text as character sequences.
pub ghost struct Entry {
    pub depth: u8,
    pub marker: Marker,
    pub content: Seq<Span>,
}

/// [`Block`] with the text as character sequences.
pub ghost enum Part {
    Paragraph(Seq<Span>),
    Heading { level: u8, content: Seq<Span> },
    Subtext(Seq<Span>),
    Quote(Seq<Part>),
    List(Seq<Entry>),
    Code { lang: Option<Seq<char>>, text: Seq<char> },
}

pub open spec fn opt_text(s: Option<String>) -> Option<Seq<char>> {
    match s {
        Some(t) => Some(t@),
        None => None,
    }
}

impl View for InlineKind {
    type V = Kind;

    open spec fn view(&self) -> Kind {
        match *self {
            InlineKind::Text(t) => Kind::Text(t@),
            InlineKind::Code(t) => Kind::Code(t@),
            InlineKind::Link { url, label } => Kind::Link { url: url@, label: opt_text(label) },
            InlineKind::Mention(m) => Kind::Mention(m),
            InlineKind::Emoji { name, id, animated } => Kind::Emoji { name: name@, id, animated },
            InlineKind::Timestamp { at, format } => Kind::Timestamp { at, format },
            InlineKind::Break => Kind::Break,
        }
    }
}

impl View for Inline {
    type V = Span;

    open spec fn view(&self) -> Span {
        Span { deco: self.deco.mask(), kind: self.kind@ }
    }
}

pub open spec fn spans_of(v: Seq<Inline>) -> Seq<Span> {
    Seq::new(v.len(), |i: int| v[i]@)
}

impl View for Item {
    type V = Entry;

    open spec fn view(&self) -> Entry {
        Entry { depth: self.depth, marker: self.marker, content: spans_of(self.content@) }
    }
}

pub open spec fn entries_of(v: Seq<Item>) -> Seq<Entry> {
    Seq::new(v.len(), |i: int| v[i]@)
}

pub open spec fn part_of(b: Block) -> Part
    decreases b,
{
    match b {
        Block::Paragraph(c) => Part::Paragraph(spans_of(c@)),
        Block::Heading { level, content } => Part::Heading { level, content: spans_of(content@) },
        Block::Subtext(c) => Part::Subtext(spans_of(c@)),
        Block::Quote(inner) => Part::Quote(
            Seq::new(
                inner@.len(),
                |i: int|
                    if 0 <= i < inner@.len() {
                        part_of(inner@[i])
                    } else {
                        arbitrary()
                    },
            ),
        ),
        Block::List(items) => Part::List(entries_of(items@)),
        Block::Code { lang, text } => Part::Code { lang: opt_text(lang), text: text@ },
    }
}

pub open spec fn parts_of(v: Seq<Block>) -> Seq<Part> {
    Seq::new(v.len(), |i: int| part_of(v[i]))
}

impl View for Block {
    type V = Part;

    open spec fn view(&self) -> Part {
        part_of(*self)
    }
}

pub proof fn lemma_quote_view(inner: Vec<Block>)
    ensures
        part_of(Block::Quote(inner)) == Part::Quote(parts_of(inner@)),
{
    assert(part_of(Block::Quote(inner))->Quote_0 =~= parts_of(inner@));
}

} // verus!
