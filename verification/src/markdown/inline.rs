//! Parsing inside a line.
//!
//! An opening mark does not promise a closing one. `**` without its partner is
//! two characters, so a mark is entered only after its close has been found,
//! and whatever does not parse stays as text.
//!
//! Once the close is known, the inside is read with that close as its end: it
//! can neither swallow the outer mark nor open one across it. Looking for a
//! close skips escaped characters and code, whose content belongs to nobody
//! else.
//!
//! - `a * b * c` is no italics: the content may neither start nor end with
//!   white space.
//! - `snake_case_word` is none either: `_` does not open after an alphanumeric
//!   character. `*` has no such rule.
//! - Where `**` does not close, `*` is not tried at the same place.

use vstd::prelude::*;
use vstd::slice::slice_subrange;
use crate::markdown::model::{Deco, Inline, InlineKind, Kind, Mention, Span, spans_of};
use crate::text;

verus! {

// ── looking for the other end ──────────────────────────────────────────────

pub open spec fn opt_index(r: Option<usize>) -> Option<int> {
    match r {
        Some(k) => Some(k as int),
        None => None,
    }
}

/// Whether an escape stands at `i`: a backslash before ASCII punctuation.
pub open spec fn escaped(c: Seq<char>, i: int, limit: int) -> bool {
    c[i] == '\\' && i + 1 < limit && text::is_ascii_punct(c[i + 1])
}

/// The first place at or after `i` where `n` of `ch` stand, skipping escaped
/// characters and, unless back-ticks are looked for, code. Code that does not
/// close is skipped as mere back-ticks.
pub open spec fn find(c: Seq<char>, i: int, limit: int, ch: char, n: nat) -> Option<int>
    decreases limit - i,
{
    if i < 0 || i >= limit {
        None
    } else if escaped(c, i, limit) {
        find(c, i + 2, limit, ch, n)
    } else if c[i] == '`' && ch != '`' {
        let ticks = text::run_len(c, i, limit, '`');
        if i < i + ticks <= limit {
            match find(c, i + ticks, limit, '`', ticks) {
                Some(end) if i < end <= limit - ticks => find(c, end + ticks, limit, ch, n),
                _ => find(c, i + ticks, limit, ch, n),
            }
        } else {
            None
        }
    } else if text::run_len(c, i, limit, ch) >= n {
        Some(i)
    } else {
        find(c, i + 1, limit, ch, n)
    }
}

/// What is found lies between the start and the limit, in full.
pub proof fn find_stays_inside(c: Seq<char>, i: int, limit: int, ch: char, n: nat)
    requires
        0 <= i,
        n >= 1,
    ensures
        find(c, i, limit, ch, n) matches Some(k) ==> i <= k && k + n <= limit && c[k] == ch,
    decreases limit - i,
{
    if i >= limit {
    } else if escaped(c, i, limit) {
        find_stays_inside(c, i + 2, limit, ch, n);
    } else if c[i] == '`' && ch != '`' {
        let ticks = text::run_len(c, i, limit, '`');
        text::lemma_run_len(c, i, limit, '`');
        find_stays_inside(c, i + ticks, limit, '`', ticks);
        find_stays_inside(c, i + ticks, limit, ch, n);
        match find(c, i + ticks, limit, '`', ticks) {
            Some(end) => {
                find_stays_inside(c, end + ticks, limit, ch, n);
            },
            None => {},
        }
    } else if text::run_len(c, i, limit, ch) >= n {
        text::lemma_run_len(c, i, limit, ch);
    } else {
        find_stays_inside(c, i + 1, limit, ch, n);
    }
}

fn find_raw(c: &[char], from: usize, limit: usize, ch: char, n: usize) -> (r: Option<usize>)
    requires
        from <= limit <= c.len(),
        n >= 1,
    ensures
        opt_index(r) == find(c@, from as int, limit as int, ch, n as nat),
        r matches Some(k) ==> from <= k && k + n <= limit,
    decreases limit - from,
{
    proof {
        find_stays_inside(c@, from as int, limit as int, ch, n as nat);
    }
    let mut i: usize = from;
    while i < limit
        invariant
            from <= i <= limit <= c.len(),
            n >= 1,
            find(c@, from as int, limit as int, ch, n as nat) == find(
                c@,
                i as int,
                limit as int,
                ch,
                n as nat,
            ),
            find(c@, from as int, limit as int, ch, n as nat) matches Some(k) ==> from <= k && k + n
                <= limit,
        decreases limit - i,
    {
        let here = c[i];
        if here == '\\' && i + 1 < limit && text::ascii_punct(c[i + 1]) {
            i += 2;
            continue ;
        }
        if here == '`' && ch != '`' {
            let ticks = text::run_of(c, i, limit, '`');
            proof {
                find_stays_inside(c@, i + ticks, limit as int, '`', ticks as nat);
            }
            match find_raw(c, i + ticks, limit, '`', ticks) {
                Some(end) => {
                    i = end + ticks;
                },
                None => {
                    i += ticks;
                },
            }
            continue ;
        }
        if text::run_of(c, i, limit, ch) >= n {
            return Some(i);
        }
        i += 1;
    }
    None
}

/// Whether the mark that stands at `k` closes content that begins at `from`:
/// there is content, it does not end in white space, the mark is not longer
/// than the one that was opened, and a lone `_` is not followed by a word.
pub open spec fn closes(c: Seq<char>, from: int, k: int, limit: int, ch: char, n: nat) -> bool {
    &&& k > from
    &&& !text::is_space(c[k - 1])
    &&& k + n < limit ==> c[k + n] != ch
    &&& ch == '_' && n == 1 && k + n < limit ==> !text::char_is_alphanumeric(c[k + n])
}

pub open spec fn close_after(
    c: Seq<char>,
    from: int,
    i: int,
    limit: int,
    ch: char,
    n: nat,
) -> Option<int>
    decreases limit - i,
{
    match find(c, i, limit, ch, n) {
        Some(k) if i <= k < limit => if closes(c, from, k, limit, ch, n) {
            Some(k)
        } else {
            close_after(c, from, k + 1, limit, ch, n)
        },
        _ => None,
    }
}

/// Where content that begins at `from` is closed. Content that begins with
/// white space, or is not there, is not closed anywhere.
pub open spec fn close_of(c: Seq<char>, from: int, limit: int, ch: char, n: nat) -> Option<int> {
    if from < limit && !text::is_space(c[from]) {
        close_after(c, from, from, limit, ch, n)
    } else {
        None
    }
}

proof fn lemma_close_after(c: Seq<char>, from: int, i: int, limit: int, ch: char, n: nat)
    requires
        0 <= i,
        n >= 1,
    ensures
        close_after(c, from, i, limit, ch, n) matches Some(k) ==> from < k && k + n <= limit,
    decreases limit - i,
{
    find_stays_inside(c, i, limit, ch, n);
    match find(c, i, limit, ch, n) {
        Some(k) if i <= k < limit => {
            if !closes(c, from, k, limit, ch, n) {
                lemma_close_after(c, from, k + 1, limit, ch, n);
            }
        },
        _ => {},
    }
}

fn find_close(c: &[char], from: usize, limit: usize, ch: char, n: usize) -> (r: Option<usize>)
    requires
        from <= limit <= c.len(),
        n >= 1,
    ensures
        opt_index(r) == close_of(c@, from as int, limit as int, ch, n as nat),
        r matches Some(k) ==> from < k && k + n <= limit,
{
    if from >= limit || text::space(c[from]) {
        return None;
    }
    proof {
        lemma_close_after(c@, from as int, from as int, limit as int, ch, n as nat);
    }
    let mut i: usize = from;
    loop
        invariant
            from <= i <= limit <= c.len(),
            n >= 1,
            close_of(c@, from as int, limit as int, ch, n as nat) == close_after(
                c@,
                from as int,
                i as int,
                limit as int,
                ch,
                n as nat,
            ),
            close_of(c@, from as int, limit as int, ch, n as nat) matches Some(k) ==> from < k && k
                + n <= limit,
        decreases limit - i,
    {
        proof {
            find_stays_inside(c@, i as int, limit as int, ch, n as nat);
        }
        match find_raw(c, i, limit, ch, n) {
            None => {
                return None;
            },
            Some(k) => {
                let after = k + n;
                let ok = k > from && !text::space(c[k - 1]) && !(after < limit && c[after] == ch)
                    && !(ch == '_' && n == 1 && after < limit && c[after].is_alphanumeric());
                if ok {
                    return Some(k);
                }
                i = k + 1;
            },
        }
    }
}

// ── the marks ──────────────────────────────────────────────────────────────

/// A mark and the decoration that it adds.
#[derive(Clone, Copy)]
struct Mark {
    ch: char,
    n: usize,
    deco: Deco,
}

/// The marks in the order they are tried, with how often the character is
/// repeated and which bit it adds. The longer ones come first.
pub open spec fn marks() -> Seq<(char, nat, u8)> {
    seq![('~', 2, 8), ('|', 2, 16), ('_', 2, 4), ('*', 2, 1), ('*', 1, 2), ('_', 1, 2)]
}

fn mark_at(k: usize) -> (m: Mark)
    requires
        k < 6,
    ensures
        (m.ch, m.n as nat, m.deco.mask()) == marks()[k as int],
{
    if k == 0 {
        Mark { ch: '~', n: 2, deco: Deco::strike() }
    } else if k == 1 {
        Mark { ch: '|', n: 2, deco: Deco::spoiler() }
    } else if k == 2 {
        Mark { ch: '_', n: 2, deco: Deco::underline() }
    } else if k == 3 {
        Mark { ch: '*', n: 2, deco: Deco::bold() }
    } else if k == 4 {
        Mark { ch: '*', n: 1, deco: Deco::italic() }
    } else {
        Mark { ch: '_', n: 1, deco: Deco::italic() }
    }
}

/// Where the mark `m`, opened at `i`, is closed; `None` where it does not
/// open.
pub open spec fn opened(c: Seq<char>, i: int, limit: int, deco: u8, m: (char, nat, u8)) -> Option<
    int,
> {
    let (ch, n, bit) = m;
    let run = text::run_len(c, i, limit, ch);
    if run < n || deco & bit == bit || (n == 1 && run >= 2) || (ch == '_' && n == 1 && i > 0
        && text::char_is_alphanumeric(c[i - 1])) {
        None
    } else {
        close_of(c, i + n, limit, ch, n)
    }
}

/// The first of the marks from the `k`-th on that opens at `i`, by its index,
/// and where it closes.
pub open spec fn first_mark(c: Seq<char>, i: int, limit: int, deco: u8, k: int) -> Option<
    (int, int),
>
    decreases marks().len() - k,
{
    if k < 0 || k >= marks().len() {
        None
    } else {
        match opened(c, i, limit, deco, marks()[k]) {
            Some(close) => Some((k, close)),
            None => first_mark(c, i, limit, deco, k + 1),
        }
    }
}

proof fn lemma_first_mark(c: Seq<char>, i: int, limit: int, deco: u8, k: int)
    requires
        0 <= i < limit,
        0 <= k,
    ensures
        first_mark(c, i, limit, deco, k) matches Some((m, close)) ==> 0 <= m < 6 && i + marks()[m].1
            < close && close + marks()[m].1 <= limit,
    decreases marks().len() - k,
{
    if k < marks().len() {
        let (ch, n, bit) = marks()[k];
        text::lemma_run_len(c, i, limit, ch);
        lemma_close_after(c, i + n, i + n, limit, ch, n);
        lemma_first_mark(c, i, limit, deco, k + 1);
    }
}

fn find_mark(c: &[char], i: usize, limit: usize, deco: Deco) -> (r: Option<(Mark, usize)>)
    requires
        i < limit <= c.len(),
    ensures
        match (r, first_mark(c@, i as int, limit as int, deco.mask(), 0)) {
            (Some((m, close)), Some((k, at))) => (m.ch, m.n as nat, m.deco.mask()) == marks()[k]
                && close == at && 1 <= m.n && i + m.n < close && close + m.n <= limit,
            (None, None) => true,
            _ => false,
        },
{
    proof {
        lemma_first_mark(c@, i as int, limit as int, deco.mask(), 0);
    }
    let mut k: usize = 0;
    while k < 6
        invariant
            k <= 6,
            i < limit <= c.len(),
            first_mark(c@, i as int, limit as int, deco.mask(), 0) == first_mark(
                c@,
                i as int,
                limit as int,
                deco.mask(),
                k as int,
            ),
            first_mark(c@, i as int, limit as int, deco.mask(), 0) matches Some((m, close)) ==> 0
                <= m < 6 && i + marks()[m].1 < close && close + marks()[m].1 <= limit,
        decreases 6 - k,
    {
        let m = mark_at(k);
        let run = text::run_of(c, i, limit, m.ch);
        let shut = run < m.n || deco.contains(m.deco) || (m.n == 1 && run >= 2) || (m.ch == '_'
            && m.n == 1 && i > 0 && c[i - 1].is_alphanumeric());
        if !shut {
            match find_close(c, i + m.n, limit, m.ch, m.n) {
                Some(close) => {
                    return Some((m, close));
                },
                None => {},
            }
        }
        k += 1;
    }
    None
}

// ── what stands between angle brackets ─────────────────────────────────────

/// The text after the prefix `p`.
pub open spec fn after(s: Seq<char>, p: Seq<char>) -> Option<Seq<char>> {
    if p.is_prefix_of(s) {
        Some(s.skip(p.len() as int))
    } else {
        None
    }
}

fn strip<'a>(s: &'a [char], p: &str) -> (r: Option<&'a [char]>)
    ensures
        match r {
            Some(t) => after(s@, p@) == Some(t@),
            None => after(s@, p@) is None,
        },
{
    if text::has_prefix(s, p) {
        let n = text::chars(p).len();
        let t = slice_subrange(s, n, s.len());
        assert(t@ =~= s@.skip(n as int));
        Some(t)
    } else {
        None
    }
}

/// A URL that can be followed: a scheme, and something that is no slash after
/// it.
pub open spec fn url_shaped(s: Seq<char>) -> bool {
    let rest = match after(s, "https://"@) {
        Some(r) => Some(r),
        None => after(s, "http://"@),
    };
    rest matches Some(r) && r.len() > 0 && r[0] != '/'
}

fn is_url(s: &[char]) -> (r: bool)
    ensures
        r == url_shaped(s@),
{
    let rest = match strip(s, "https://") {
        Some(r) => Some(r),
        None => strip(s, "http://"),
    };
    match rest {
        Some(r) => r.len() > 0 && r[0] != '/',
        None => false,
    }
}

pub open spec fn word_char(c: char) -> bool {
    text::char_is_alphanumeric(c) || c == '_'
}

fn is_word(c: char) -> (r: bool)
    ensures
        r == word_char(c),
{
    c.is_alphanumeric() || c == '_'
}

pub open spec fn emoji_name(s: Seq<char>) -> bool {
    s.len() > 0 && forall|i: int| 0 <= i < s.len() ==> word_char(#[trigger] s[i])
}

/// `name:id`, as it stands in `<:name:id>` and `<a:name:id>`.
pub open spec fn emoji_kind(rest: Seq<char>, animated: bool) -> Option<Kind> {
    let k = text::index_from(rest, ':', 0);
    if k >= rest.len() || !emoji_name(rest.take(k)) {
        None
    } else {
        match text::number(rest.skip(k + 1)) {
            Some(id) => Some(Kind::Emoji { name: rest.take(k), id, animated }),
            None => None,
        }
    }
}

pub open spec fn emoji_spec(inner: Seq<char>) -> Option<Kind> {
    match after(inner, "a:"@) {
        Some(rest) => emoji_kind(rest, true),
        None => match after(inner, ":"@) {
            Some(rest) => emoji_kind(rest, false),
            None => None,
        },
    }
}

pub open spec fn opt_kind(k: Option<InlineKind>) -> Option<Kind> {
    match k {
        Some(k) => Some(k@),
        None => None,
    }
}

fn emoji(inner: &[char]) -> (r: Option<InlineKind>)
    ensures
        opt_kind(r) == emoji_spec(inner@),
{
    let (animated, rest) = match strip(inner, "a:") {
        Some(rest) => (true, rest),
        None => match strip(inner, ":") {
            Some(rest) => (false, rest),
            None => {
                return None;
            },
        },
    };
    let k = text::find_from(rest, ':', 0);
    if k == rest.len() || k == 0 {
        return None;
    }
    let mut i: usize = 0;
    while i < k
        invariant
            i <= k < rest.len(),
            emoji_spec(inner@) == emoji_kind(rest@, animated),
            k == text::index_from(rest@, ':', 0),
            forall|j: int| 0 <= j < i ==> word_char(#[trigger] rest@[j]),
        decreases k - i,
    {
        if !is_word(rest[i]) {
            assert(!word_char(rest@.take(k as int)[i as int]));
            return None;
        }
        i += 1;
    }
    let num = slice_subrange(rest, k + 1, rest.len());
    assert(num@ =~= rest@.skip(k + 1));
    assert(rest@.subrange(0, k as int) =~= rest@.take(k as int));
    match text::parse_number(num) {
        Some(id) => Some(InlineKind::Emoji { name: text::piece(rest, 0, k), id, animated }),
        None => None,
    }
}

pub open spec fn stamp_format(c: char) -> bool {
    c == 't' || c == 'T' || c == 'd' || c == 'D' || c == 'f' || c == 'F' || c == 'R'
}

/// `seconds` or `seconds:format`; the format is the first character after the
/// colon, and `f` where there is no colon.
pub open spec fn timestamp_spec(rest: Seq<char>) -> Option<Kind> {
    let k = text::index_from(rest, ':', 0);
    let format = if k >= rest.len() {
        Some('f')
    } else if k + 1 < rest.len() && stamp_format(rest[k + 1]) {
        Some(rest[k + 1])
    } else {
        None
    };
    match (text::signed_number(rest.take(k)), format) {
        (Some(at), Some(format)) => Some(Kind::Timestamp { at, format }),
        _ => None,
    }
}

fn timestamp(rest: &[char]) -> (r: Option<InlineKind>)
    ensures
        opt_kind(r) == timestamp_spec(rest@),
{
    let k = text::find_from(rest, ':', 0);
    let format = if k == rest.len() {
        'f'
    } else {
        if k + 1 >= rest.len() {
            return None;
        }
        let f = rest[k + 1];
        if !(f == 't' || f == 'T' || f == 'd' || f == 'D' || f == 'f' || f == 'F' || f == 'R') {
            return None;
        }
        f
    };
    let at = slice_subrange(rest, 0, k);
    assert(at@ =~= rest@.take(k as int));
    match text::parse_signed(at) {
        Some(at) => Some(InlineKind::Timestamp { at, format }),
        None => None,
    }
}

pub open spec fn mention_user(n: Option<u64>) -> Option<Kind> {
    match n {
        Some(i) => Some(Kind::Mention(Mention::User(i))),
        None => None,
    }
}

/// What `<inner>` is: a role, user or channel mention, a timestamp, an emoji
/// or a URL. The first three and the timestamp are decided by how `inner`
/// begins; only an emoji that fails may still be a URL.
pub open spec fn angle_kind(inner: Seq<char>) -> Option<Kind> {
    if "@&"@.is_prefix_of(inner) {
        match text::number(inner.skip(2)) {
            Some(i) => Some(Kind::Mention(Mention::Role(i))),
            None => None,
        }
    } else if "@!"@.is_prefix_of(inner) {
        mention_user(text::number(inner.skip(2)))
    } else if "@"@.is_prefix_of(inner) {
        mention_user(text::number(inner.skip(1)))
    } else if "#"@.is_prefix_of(inner) {
        match text::number(inner.skip(1)) {
            Some(i) => Some(Kind::Mention(Mention::Channel(i))),
            None => None,
        }
    } else if "t:"@.is_prefix_of(inner) {
        timestamp_spec(inner.skip(2))
    } else {
        match emoji_spec(inner) {
            Some(k) => Some(k),
            None => if url_shaped(inner) {
                Some(Kind::Link { url: inner, label: None })
            } else {
                None
            },
        }
    }
}

fn parse_angle(inner: &[char]) -> (r: Option<InlineKind>)
    ensures
        opt_kind(r) == angle_kind(inner@),
{
    proof {
        reveal_strlit("@&");
        reveal_strlit("@!");
        reveal_strlit("@");
        reveal_strlit("#");
        reveal_strlit("t:");
    }
    if let Some(rest) = strip(inner, "@&") {
        return match text::parse_number(rest) {
            Some(i) => Some(InlineKind::Mention(Mention::Role(i))),
            None => None,
        };
    }
    if let Some(rest) = strip(inner, "@!") {
        return match text::parse_number(rest) {
            Some(i) => Some(InlineKind::Mention(Mention::User(i))),
            None => None,
        };
    }
    if let Some(rest) = strip(inner, "@") {
        return match text::parse_number(rest) {
            Some(i) => Some(InlineKind::Mention(Mention::User(i))),
            None => None,
        };
    }
    if let Some(rest) = strip(inner, "#") {
        return match text::parse_number(rest) {
            Some(i) => Some(InlineKind::Mention(Mention::Channel(i))),
            None => None,
        };
    }
    if let Some(rest) = strip(inner, "t:") {
        return timestamp(rest);
    }
    if let Some(e) = emoji(inner) {
        return Some(e);
    }
    if is_url(inner) {
        Some(InlineKind::Link { url: text::string(inner), label: None })
    } else {
        None
    }
}

// ── one step ───────────────────────────────────────────────────────────────

/// Code loses one space on each side where it has one on both.
pub open spec fn unpadded(raw: Seq<char>) -> Seq<char> {
    if raw.len() >= 2 && raw[0] == ' ' && raw.last() == ' ' {
        raw.subrange(1, raw.len() - 1)
    } else {
        raw
    }
}

/// One or two back-ticks, content, and as many again; what it is and where it
/// ends.
pub open spec fn code_at(c: Seq<char>, i: int, limit: int) -> Option<(Kind, int)> {
    let open = text::run_len(c, i, limit, '`');
    match find(c, i + open, limit, '`', open) {
        Some(close) if open < 3 && close != i + open => Some(
            (Kind::Code(unpadded(c.subrange(i + open, close))), close + open),
        ),
        _ => None,
    }
}

pub open spec fn angle_at(c: Seq<char>, i: int, limit: int) -> Option<(Kind, int)> {
    match find(c, i + 1, limit, '>', 1) {
        Some(close) => match angle_kind(c.subrange(i + 1, close)) {
            Some(k) => Some((k, close + 1)),
            None => None,
        },
        None => None,
    }
}

pub open spec fn mention_at(c: Seq<char>, i: int, limit: int) -> Option<(Kind, int)> {
    if "@everyone"@.is_prefix_of(c.subrange(i, limit)) {
        Some((Kind::Mention(Mention::Everyone), i + 9))
    } else if "@here"@.is_prefix_of(c.subrange(i, limit)) {
        Some((Kind::Mention(Mention::Here), i + 5))
    } else {
        None
    }
}

/// `[label](url)` with a label and a URL.
pub open spec fn masked_at(c: Seq<char>, i: int, limit: int) -> Option<(Kind, int)> {
    match find(c, i + 1, limit, ']', 1) {
        Some(rb) if rb + 1 < limit && c[rb + 1] == '(' => match find(c, rb + 2, limit, ')', 1) {
            Some(rp) if rb > i + 1 && url_shaped(c.subrange(rb + 2, rp)) => Some(
                (
                    Kind::Link {
                        url: c.subrange(rb + 2, rp),
                        label: Some(c.subrange(i + 1, rb)),
                    },
                    rp + 1,
                ),
            ),
            _ => None,
        },
        _ => None,
    }
}

/// Where the run without white space and `<` ends.
pub open spec fn word_end(c: Seq<char>, i: int, limit: int) -> int
    decreases limit - i,
{
    if i < limit && !text::is_space(c[i]) && c[i] != '<' {
        word_end(c, i + 1, limit)
    } else {
        i
    }
}

/// The characters that end a sentence rather than a URL.
pub open spec fn trailing(c: char) -> bool {
    ||| c == '.' || c == ',' || c == '!' || c == '?' || c == ';' || c == ':'
    ||| c == ')' || c == ']' || c == '}' || c == '\'' || c == '"'
    ||| c == '。' || c == '、' || c == '」' || c == '）'
}

pub open spec fn without_trailing(c: Seq<char>, i: int, end: int) -> int
    decreases end - i,
{
    if end > i && trailing(c[end - 1]) {
        without_trailing(c, i, end - 1)
    } else {
        end
    }
}

/// A URL written out, not in the middle of a word.
pub open spec fn bare_at(c: Seq<char>, i: int, limit: int) -> Option<(Kind, int)> {
    let end = without_trailing(c, i, word_end(c, i, limit));
    if i > 0 && word_char(c[i - 1]) {
        None
    } else if url_shaped(c.subrange(i, end)) {
        Some((Kind::Link { url: c.subrange(i, end), label: None }, end))
    } else {
        None
    }
}

/// What is read next.
pub ghost enum Token {
    /// A backslash and the character it makes plain.
    Escape,
    /// Something whole, up to the index.
    Whole(Kind, int),
    /// A mark and its close: the content lies from `body` to `close`, and
    /// reading goes on at `next`.
    Marked { bit: u8, body: int, close: int, next: int },
    /// A character that is only itself.
    Plain,
}

pub open spec fn whole_or_plain(r: Option<(Kind, int)>) -> Token {
    match r {
        Some((k, next)) => Token::Whole(k, next),
        None => Token::Plain,
    }
}

pub open spec fn token(c: Seq<char>, i: int, limit: int, deco: u8) -> Token {
    let ch = c[i];
    if ch == '\\' {
        if escaped(c, i, limit) {
            Token::Escape
        } else {
            Token::Plain
        }
    } else if ch == '\n' {
        Token::Whole(Kind::Break, i + 1)
    } else if ch == '`' {
        whole_or_plain(code_at(c, i, limit))
    } else if ch == '<' {
        whole_or_plain(angle_at(c, i, limit))
    } else if ch == '@' {
        whole_or_plain(mention_at(c, i, limit))
    } else if ch == '[' {
        whole_or_plain(masked_at(c, i, limit))
    } else if ch == 'h' {
        whole_or_plain(bare_at(c, i, limit))
    } else {
        match first_mark(c, i, limit, deco, 0) {
            Some((k, close)) => {
                let n = marks()[k].1;
                Token::Marked { bit: marks()[k].2, body: i + n, close, next: close + n }
            },
            None => Token::Plain,
        }
    }
}

/// What is read lies ahead and within the limit.
pub proof fn token_moves_on(c: Seq<char>, i: int, limit: int, deco: u8)
    requires
        0 <= i < limit <= c.len(),
    ensures
        match token(c, i, limit, deco) {
            Token::Escape => i + 2 <= limit,
            Token::Whole(_, next) => i < next <= limit,
            Token::Marked { bit, body, close, next } => i < body < close < next <= limit,
            Token::Plain => true,
        },
{
    let ch = c[i];
    if ch == '`' {
        text::lemma_run_len(c, i, limit, '`');
        let open = text::run_len(c, i, limit, '`');
        find_stays_inside(c, i + open, limit, '`', open);
    } else if ch == '<' {
        find_stays_inside(c, i + 1, limit, '>', 1);
    } else if ch == '@' {
        reveal_strlit("@everyone");
        reveal_strlit("@here");
    } else if ch == '[' {
        find_stays_inside(c, i + 1, limit, ']', 1);
        match find(c, i + 1, limit, ']', 1) {
            Some(rb) => {
                find_stays_inside(c, rb + 2, limit, ')', 1);
            },
            None => {},
        }
    } else if ch == 'h' {
        lemma_word_end(c, i, limit);
        lemma_without_trailing(c, i, word_end(c, i, limit));
        reveal_strlit("https://");
        reveal_strlit("http://");
    } else {
        lemma_first_mark(c, i, limit, deco, 0);
    }
}

proof fn lemma_word_end(c: Seq<char>, i: int, limit: int)
    requires
        0 <= i <= limit,
    ensures
        i <= word_end(c, i, limit) <= limit,
    decreases limit - i,
{
    if i < limit && !text::is_space(c[i]) && c[i] != '<' {
        lemma_word_end(c, i + 1, limit);
    }
}

proof fn lemma_without_trailing(c: Seq<char>, i: int, end: int)
    requires
        i <= end,
    ensures
        i <= without_trailing(c, i, end) <= end,
    decreases end - i,
{
    if end > i && trailing(c[end - 1]) {
        lemma_without_trailing(c, i, end - 1);
    }
}

pub open spec fn opt_whole(r: Option<(InlineKind, usize)>) -> Option<(Kind, int)> {
    match r {
        Some((k, next)) => Some((k@, next as int)),
        None => None,
    }
}

/// `` `…` `` and ``` ``…`` ```. Three or more back-ticks are a code block's.
fn code(c: &[char], i: usize, limit: usize) -> (r: Option<(InlineKind, usize)>)
    requires
        i < limit <= c.len(),
        c[i as int] == '`',
    ensures
        opt_whole(r) == code_at(c@, i as int, limit as int),
{
    let open = text::run_of(c, i, limit, '`');
    if open >= 3 {
        return None;
    }
    let body = i + open;
    let close = match find_raw(c, body, limit, '`', open) {
        Some(close) => close,
        None => {
            return None;
        },
    };
    if close == body {
        return None;
    }
    let ghost raw = c@.subrange(body as int, close as int);
    let text = if close - body >= 2 && c[body] == ' ' && c[close - 1] == ' ' {
        assert(raw.subrange(1, raw.len() - 1) =~= c@.subrange(body + 1, close - 1));
        text::piece(c, body + 1, close - 1)
    } else {
        text::piece(c, body, close)
    };
    Some((InlineKind::Code(text), close + open))
}

/// `<@1>` `<#1>` `<@&1>` `<:n:1>` `<a:n:1>` `<t:1:R>` `<url>`
fn angle(c: &[char], i: usize, limit: usize) -> (r: Option<(InlineKind, usize)>)
    requires
        i < limit <= c.len(),
    ensures
        opt_whole(r) == angle_at(c@, i as int, limit as int),
{
    match find_raw(c, i + 1, limit, '>', 1) {
        Some(close) => match parse_angle(slice_subrange(c, i + 1, close)) {
            Some(kind) => Some((kind, close + 1)),
            None => None,
        },
        None => None,
    }
}

fn at_mention(c: &[char], i: usize, limit: usize) -> (r: Option<(InlineKind, usize)>)
    requires
        i < limit <= c.len(),
    ensures
        opt_whole(r) == mention_at(c@, i as int, limit as int),
{
    proof {
        reveal_strlit("@everyone");
        reveal_strlit("@here");
    }
    let ahead = slice_subrange(c, i, limit);
    if text::has_prefix(ahead, "@everyone") {
        Some((InlineKind::Mention(Mention::Everyone), i + 9))
    } else if text::has_prefix(ahead, "@here") {
        Some((InlineKind::Mention(Mention::Here), i + 5))
    } else {
        None
    }
}

/// `[label](url)`
fn masked_link(c: &[char], i: usize, limit: usize) -> (r: Option<(InlineKind, usize)>)
    requires
        i < limit <= c.len(),
    ensures
        opt_whole(r) == masked_at(c@, i as int, limit as int),
{
    let rb = match find_raw(c, i + 1, limit, ']', 1) {
        Some(rb) => rb,
        None => {
            return None;
        },
    };
    if !(rb + 1 < limit && c[rb + 1] == '(') {
        return None;
    }
    let rp = match find_raw(c, rb + 2, limit, ')', 1) {
        Some(rp) => rp,
        None => {
            return None;
        },
    };
    let url = slice_subrange(c, rb + 2, rp);
    if rb == i + 1 || !is_url(url) {
        return None;
    }
    Some(
        (
            InlineKind::Link { url: text::string(url), label: Some(text::piece(c, i + 1, rb)) },
            rp + 1,
        ),
    )
}

fn is_trailing(c: char) -> (r: bool)
    ensures
        r == trailing(c),
{
    c == '.' || c == ',' || c == '!' || c == '?' || c == ';' || c == ':' || c == ')' || c == ']'
        || c == '}' || c == '\'' || c == '"' || c == '。' || c == '、' || c == '」' || c == '）'
}

/// A bare `https://…`. What ends the sentence does not belong to it.
fn bare_url(c: &[char], i: usize, limit: usize) -> (r: Option<(InlineKind, usize)>)
    requires
        i < limit <= c.len(),
    ensures
        opt_whole(r) == bare_at(c@, i as int, limit as int),
{
    if i > 0 && is_word(c[i - 1]) {
        return None;
    }
    let mut end: usize = i;
    while end < limit && !text::space(c[end]) && c[end] != '<'
        invariant
            i <= end <= limit <= c.len(),
            word_end(c@, i as int, limit as int) == word_end(c@, end as int, limit as int),
        decreases limit - end,
    {
        end += 1;
    }
    while end > i && is_trailing(c[end - 1])
        invariant
            i <= end <= limit <= c.len(),
            without_trailing(c@, i as int, word_end(c@, i as int, limit as int))
                == without_trailing(c@, i as int, end as int),
        decreases end,
    {
        end -= 1;
    }
    let url = slice_subrange(c, i, end);
    if is_url(url) {
        Some((InlineKind::Link { url: text::string(url), label: None }, end))
    } else {
        None
    }
}

enum Step {
    Escape,
    Whole(InlineKind, usize),
    Marked { deco: Deco, body: usize, close: usize, next: usize },
    Plain,
}

impl View for Step {
    type V = Token;

    closed spec fn view(&self) -> Token {
        match *self {
            Step::Escape => Token::Escape,
            Step::Whole(k, next) => Token::Whole(k@, next as int),
            Step::Marked { deco, body, close, next } => Token::Marked {
                bit: deco.mask(),
                body: body as int,
                close: close as int,
                next: next as int,
            },
            Step::Plain => Token::Plain,
        }
    }
}

fn whole(r: Option<(InlineKind, usize)>) -> (s: Step)
    ensures
        s@ == whole_or_plain(opt_whole(r)),
{
    match r {
        Some((k, next)) => Step::Whole(k, next),
        None => Step::Plain,
    }
}

fn step(c: &[char], i: usize, limit: usize, deco: Deco) -> (s: Step)
    requires
        i < limit <= c.len(),
    ensures
        s@ == token(c@, i as int, limit as int, deco.mask()),
{
    let ch = c[i];
    if ch == '\\' {
        // Only punctuation can be escaped: `\n` keeps its backslash.
        if i + 1 < limit && text::ascii_punct(c[i + 1]) {
            Step::Escape
        } else {
            Step::Plain
        }
    } else if ch == '\n' {
        Step::Whole(InlineKind::Break, i + 1)
    } else if ch == '`' {
        whole(code(c, i, limit))
    } else if ch == '<' {
        whole(angle(c, i, limit))
    } else if ch == '@' {
        whole(at_mention(c, i, limit))
    } else if ch == '[' {
        whole(masked_link(c, i, limit))
    } else if ch == 'h' {
        whole(bare_url(c, i, limit))
    } else {
        match find_mark(c, i, limit, deco) {
            Some((m, close)) => Step::Marked {
                deco: m.deco,
                body: i + m.n,
                close,
                next: close + m.n,
            },
            None => Step::Plain,
        }
    }
}

// ── the whole ──────────────────────────────────────────────────────────────

/// The text gathered so far, as one span; nothing where nothing was gathered.
pub open spec fn gathered(buf: Seq<char>, deco: u8) -> Seq<Span> {
    if buf.len() == 0 {
        seq![]
    } else {
        seq![Span { deco, kind: Kind::Text(buf) }]
    }
}

/// What is read from `i` up to `limit` under the decorations `deco`, when
/// `buf` has been gathered before it.
pub open spec fn spans(c: Seq<char>, i: int, limit: int, deco: u8, buf: Seq<char>) -> Seq<Span>
    decreases limit - i,
{
    if i < 0 || i >= limit || limit > c.len() {
        gathered(buf, deco)
    } else {
        proof {
            token_moves_on(c, i, limit, deco);
        }
        match token(c, i, limit, deco) {
            Token::Escape => spans(c, i + 2, limit, deco, buf.push(c[i + 1])),
            Token::Whole(kind, next) => gathered(buf, deco) + seq![Span { deco, kind }] + spans(
                c,
                next,
                limit,
                deco,
                seq![],
            ),
            Token::Marked { bit, body, close, next } => gathered(buf, deco) + spans(
                c,
                body,
                close,
                deco | bit,
                seq![],
            ) + spans(c, next, limit, deco, seq![]),
            Token::Plain => spans(c, i + 1, limit, deco, buf.push(c[i])),
        }
    }
}

/// What a whole text reads as.
pub open spec fn inlines(c: Seq<char>) -> Seq<Span> {
    spans(c, 0, c.len() as int, 0, seq![])
}

fn flush(buf: &mut String, deco: Deco, out: &mut Vec<Inline>)
    ensures
        final(buf)@ == Seq::<char>::empty(),
        spans_of(final(out)@) == spans_of(old(out)@) + gathered(old(buf)@, deco.mask()),
{
    let ghost before = spans_of(out@);
    if text::chars(buf.as_str()).len() > 0 {
        let mut text = String::new();
        std::mem::swap(buf, &mut text);
        out.push(Inline::text(text, deco));
        assert(spans_of(out@) =~= before + gathered(old(buf)@, deco.mask()));
    } else {
        assert(buf@ =~= Seq::<char>::empty());
        assert(spans_of(out@) =~= before + gathered(old(buf)@, deco.mask()));
    }
}

#[verifier::spinoff_prover]
#[verifier::rlimit(40)]
fn run(c: &[char], from: usize, limit: usize, deco: Deco, out: &mut Vec<Inline>)
    requires
        from <= limit <= c.len(),
    ensures
        spans_of(final(out)@) == spans_of(old(out)@) + spans(
            c@,
            from as int,
            limit as int,
            deco.mask(),
            seq![],
        ),
    decreases limit - from,
{
    let mut i: usize = from;
    let mut buf = String::new();
    let ghost start = spans_of(out@);
    let ghost d = deco.mask();
    let ghost all = start + spans(c@, from as int, limit as int, d, seq![]);
    assert(buf@ =~= seq![]);
    while i < limit
        invariant
            from <= i <= limit <= c.len(),
            d == deco.mask(),
            spans_of(out@) + spans(c@, i as int, limit as int, d, buf@) == all,
        decreases limit - i,
    {
        proof {
            token_moves_on(c@, i as int, limit as int, d);
        }
        let ghost was = spans_of(out@);
        let ghost held = buf@;
        match step(c, i, limit, deco) {
            Step::Escape => {
                buf.push(c[i + 1]);
                i += 2;
            },
            Step::Whole(kind, next) => {
                flush(&mut buf, deco, out);
                let ghost mid = spans_of(out@);
                let ghost span = Span { deco: d, kind: kind@ };
                out.push(Inline { deco, kind });
                assert(spans_of(out@) =~= mid.push(span));
                i = next;
                assert(spans_of(out@) + spans(c@, i as int, limit as int, d, seq![]) =~= was + (
                gathered(held, d) + seq![span] + spans(c@, i as int, limit as int, d, seq![])));
            },
            Step::Marked { deco: add, body, close, next } => {
                flush(&mut buf, deco, out);
                run(c, body, close, deco.with(add), out);
                i = next;
                assert(spans_of(out@) + spans(c@, i as int, limit as int, d, seq![]) =~= was + (
                gathered(held, d) + spans(
                    c@,
                    body as int,
                    close as int,
                    d | add.mask(),
                    seq![],
                ) + spans(c@, i as int, limit as int, d, seq![])));
            },
            Step::Plain => {
                buf.push(c[i]);
                i += 1;
            },
        }
    }
    flush(&mut buf, deco, out);
}

pub fn parse_chars(c: &[char]) -> (out: Vec<Inline>)
    ensures
        spans_of(out@) == inlines(c@),
{
    let mut out: Vec<Inline> = Vec::new();
    run(c, 0, c.len(), Deco::none(), &mut out);
    assert(spans_of(out@) =~= inlines(c@));
    out
}

/// Parses the inside of a line.
pub fn parse(text: &str) -> (out: Vec<Inline>)
    ensures
        spans_of(out@) == inlines(text@),
{
    let c = text::chars(text);
    parse_chars(c.as_slice())
}

// ── laws ───────────────────────────────────────────────────────────────────

/// Whether a character can begin something other than itself.
pub open spec fn special(c: char) -> bool {
    ||| c == '\\' || c == '\n' || c == '`' || c == '<' || c == '@' || c == '[' || c == 'h'
    ||| c == '~' || c == '|' || c == '_' || c == '*'
}

/// Text without anything special in it comes out as itself, in one piece.
pub proof fn plain_text_stays(c: Seq<char>, i: int, limit: int, deco: u8, buf: Seq<char>)
    requires
        0 <= i <= limit <= c.len(),
        forall|k: int| i <= k < limit ==> !special(#[trigger] c[k]),
    ensures
        spans(c, i, limit, deco, buf) == gathered(buf + c.subrange(i, limit), deco),
    decreases limit - i,
{
    if i < limit {
        assert(!special(c[i]));
        assert forall|k: int| 0 <= k <= 6 implies first_mark(c, i, limit, deco, k) is None by {
            lemma_no_mark(c, i, limit, deco, k);
        }
        plain_text_stays(c, i + 1, limit, deco, buf.push(c[i]));
        assert(buf.push(c[i]) + c.subrange(i + 1, limit) =~= buf + c.subrange(i, limit));
    } else {
        assert(buf + c.subrange(i, limit) =~= buf);
    }
}

/// Plain text before something that is read whole comes out before it, in one
/// piece, under the same decorations; a text of nothing else is that one piece.
pub proof fn text_before_something_is_kept(
    c: Seq<char>,
    i: int,
    at: int,
    limit: int,
    deco: u8,
    kind: Kind,
    next: int,
)
    requires
        0 <= i < at < limit <= c.len(),
        forall|k: int| i <= k < at ==> !special(#[trigger] c[k]),
        token(c, at, limit, deco) == Token::Whole(kind, next),
    ensures
        spans(c, i, limit, deco, seq![]) == seq![
            Span { deco, kind: Kind::Text(c.subrange(i, at)) },
            Span { deco, kind },
        ] + spans(c, next, limit, deco, seq![]),
        spans(c, i, at, deco, seq![]) == seq![
            Span { deco, kind: Kind::Text(c.subrange(i, at)) },
        ],
{
    lemma_plain_before(c, i, at, limit, deco, seq![]);
    assert(Seq::<char>::empty() + c.subrange(i, at) =~= c.subrange(i, at));
    plain_text_stays(c, i, at, deco, seq![]);
    assert(spans(c, i, limit, deco, seq![]) =~= seq![
        Span { deco, kind: Kind::Text(c.subrange(i, at)) },
        Span { deco, kind },
    ] + spans(c, next, limit, deco, seq![]));
}

proof fn lemma_plain_before(
    c: Seq<char>,
    i: int,
    at: int,
    limit: int,
    deco: u8,
    buf: Seq<char>,
)
    requires
        0 <= i <= at < limit <= c.len(),
        forall|k: int| i <= k < at ==> !special(#[trigger] c[k]),
    ensures
        spans(c, i, limit, deco, buf) == spans(c, at, limit, deco, buf + c.subrange(i, at)),
    decreases at - i,
{
    if i < at {
        assert(!special(c[i]));
        lemma_no_mark(c, i, limit, deco, 0);
        lemma_plain_before(c, i + 1, at, limit, deco, buf.push(c[i]));
        assert(buf.push(c[i]) + c.subrange(i + 1, at) =~= buf + c.subrange(i, at));
    } else {
        assert(buf + c.subrange(i, at) =~= buf);
    }
}

proof fn lemma_no_mark(c: Seq<char>, i: int, limit: int, deco: u8, k: int)
    requires
        0 <= i < limit <= c.len(),
        !special(c[i]),
        0 <= k,
    ensures
        first_mark(c, i, limit, deco, k) is None,
    decreases 6 - k,
{
    if k < 6 {
        assert(text::run_len(c, i, limit, marks()[k].0) == 0);
        lemma_no_mark(c, i, limit, deco, k + 1);
    }
}

/// Nothing that was written disappears into nothing: only the empty text
/// reads as no spans at all.
pub proof fn text_never_vanishes(c: Seq<char>, i: int, limit: int, deco: u8, buf: Seq<char>)
    requires
        0 <= i <= limit <= c.len(),
        i < limit || buf.len() > 0,
    ensures
        spans(c, i, limit, deco, buf).len() > 0,
    decreases limit - i,
{
    if i < limit {
        token_moves_on(c, i, limit, deco);
        match token(c, i, limit, deco) {
            Token::Escape => {
                text_never_vanishes(c, i + 2, limit, deco, buf.push(c[i + 1]));
            },
            Token::Whole(kind, next) => {},
            Token::Marked { bit, body, close, next } => {
                text_never_vanishes(c, body, close, deco | bit, seq![]);
            },
            Token::Plain => {
                text_never_vanishes(c, i + 1, limit, deco, buf.push(c[i]));
            },
        }
    }
}

/// What becomes of a character that was written.
pub ghost enum Fate {
    /// It is shown as itself.
    Shown,
    /// It is the backslash of an escape.
    Escaping,
    /// It belongs to a mark that was opened and closed.
    Marking,
    /// It belongs to something whole, such as a link, a mention or code.
    InWhole,
}

/// What becomes of each character from `i` up to `limit`.
pub open spec fn fates(c: Seq<char>, i: int, limit: int, deco: u8) -> Seq<Fate>
    decreases limit - i,
{
    if i < 0 || i >= limit || limit > c.len() {
        seq![]
    } else {
        proof {
            token_moves_on(c, i, limit, deco);
        }
        match token(c, i, limit, deco) {
            Token::Escape => seq![Fate::Escaping, Fate::Shown] + fates(c, i + 2, limit, deco),
            Token::Whole(_, next) => Seq::new((next - i) as nat, |k: int| Fate::InWhole) + fates(
                c,
                next,
                limit,
                deco,
            ),
            Token::Marked { bit, body, close, next } => Seq::new(
                (body - i) as nat,
                |k: int| Fate::Marking,
            ) + fates(c, body, close, deco | bit) + Seq::new(
                (next - close) as nat,
                |k: int| Fate::Marking,
            ) + fates(c, next, limit, deco),
            Token::Plain => seq![Fate::Shown] + fates(c, i + 1, limit, deco),
        }
    }
}

/// The characters that are shown as themselves, in order.
pub open spec fn shown(c: Seq<char>, fs: Seq<Fate>) -> Seq<char>
    decreases fs.len(),
{
    if fs.len() == 0 || c.len() != fs.len() {
        seq![]
    } else {
        let front = shown(c.drop_last(), fs.drop_last());
        if fs.last() is Shown {
            front.push(c.last())
        } else {
            front
        }
    }
}

/// The text in the spans, in order.
pub open spec fn text_in(ss: Seq<Span>) -> Seq<char>
    decreases ss.len(),
{
    if ss.len() == 0 {
        seq![]
    } else {
        match ss.last().kind {
            Kind::Text(t) => text_in(ss.drop_last()) + t,
            _ => text_in(ss.drop_last()),
        }
    }
}

proof fn lemma_text_in_concat(a: Seq<Span>, b: Seq<Span>)
    ensures
        text_in(a + b) == text_in(a) + text_in(b),
    decreases b.len(),
{
    if b.len() == 0 {
        assert(a + b =~= a);
        assert(text_in(a) + text_in(b) =~= text_in(a));
    } else {
        assert((a + b).drop_last() =~= a + b.drop_last());
        assert((a + b).last() == b.last());
        lemma_text_in_concat(a, b.drop_last());
        assert(text_in(a + b) =~= text_in(a) + text_in(b));
    }
}

proof fn lemma_text_in_one(s: Span)
    ensures
        text_in(seq![s]) == match s.kind {
            Kind::Text(t) => t,
            _ => Seq::<char>::empty(),
        },
{
    assert(seq![s].drop_last() =~= Seq::<Span>::empty());
    assert(text_in(Seq::<Span>::empty()) =~= seq![]);
    match s.kind {
        Kind::Text(t) => {
            assert(text_in(seq![s]) =~= t);
        },
        _ => {},
    }
}

proof fn lemma_gathered_text(buf: Seq<char>, deco: u8)
    ensures
        text_in(gathered(buf, deco)) == buf,
{
    if buf.len() == 0 {
        assert(text_in(gathered(buf, deco)) =~= buf);
    } else {
        lemma_text_in_one(Span { deco, kind: Kind::Text(buf) });
    }
}

proof fn lemma_shown_concat(a: Seq<char>, b: Seq<char>, fa: Seq<Fate>, fb: Seq<Fate>)
    requires
        a.len() == fa.len(),
        b.len() == fb.len(),
    ensures
        shown(a + b, fa + fb) == shown(a, fa) + shown(b, fb),
    decreases b.len(),
{
    if b.len() == 0 {
        assert(a + b =~= a);
        assert(fa + fb =~= fa);
        assert(shown(a, fa) + shown(b, fb) =~= shown(a, fa));
    } else {
        assert((a + b).drop_last() =~= a + b.drop_last());
        assert((fa + fb).drop_last() =~= fa + fb.drop_last());
        lemma_shown_concat(a, b.drop_last(), fa, fb.drop_last());
        assert(shown(a + b, fa + fb) =~= shown(a, fa) + shown(b, fb));
    }
}

proof fn lemma_none_shown(c: Seq<char>, fs: Seq<Fate>)
    requires
        c.len() == fs.len(),
        forall|k: int| 0 <= k < fs.len() ==> !((#[trigger] fs[k]) is Shown),
    ensures
        shown(c, fs) == Seq::<char>::empty(),
    decreases fs.len(),
{
    if fs.len() > 0 {
        assert(!(fs[fs.len() - 1] is Shown));
        assert forall|k: int| 0 <= k < fs.drop_last().len() implies !((
        #[trigger] fs.drop_last()[k]) is Shown) by {
            assert(!(fs[k] is Shown));
        }
        lemma_none_shown(c.drop_last(), fs.drop_last());
    }
}

proof fn lemma_run_of(c: Seq<char>, i: int, limit: int, ch: char, n: nat)
    requires
        0 <= i,
        text::run_len(c, i, limit, ch) >= n,
    ensures
        forall|k: int| i <= k < i + n ==> #[trigger] c[k] == ch,
    decreases n,
{
    if n > 0 {
        lemma_run_of(c, i + 1, limit, ch, (n - 1) as nat);
    }
}

proof fn lemma_found_run(c: Seq<char>, i: int, limit: int, ch: char, n: nat)
    ensures
        find(c, i, limit, ch, n) matches Some(k) ==> 0 <= k && text::run_len(c, k, limit, ch) >= n,
    decreases limit - i,
{
    if 0 <= i < limit {
        if escaped(c, i, limit) {
            lemma_found_run(c, i + 2, limit, ch, n);
        } else if c[i] == '`' && ch != '`' {
            let ticks = text::run_len(c, i, limit, '`');
            if i < i + ticks <= limit {
                lemma_found_run(c, i + ticks, limit, ch, n);
                match find(c, i + ticks, limit, '`', ticks) {
                    Some(end) if i < end <= limit - ticks => {
                        lemma_found_run(c, end + ticks, limit, ch, n);
                    },
                    _ => {},
                }
            }
        } else if text::run_len(c, i, limit, ch) < n {
            lemma_found_run(c, i + 1, limit, ch, n);
        }
    }
}

proof fn lemma_close_run(c: Seq<char>, from: int, i: int, limit: int, ch: char, n: nat)
    ensures
        close_after(c, from, i, limit, ch, n) matches Some(k) ==> 0 <= k && text::run_len(
            c,
            k,
            limit,
            ch,
        ) >= n,
    decreases limit - i,
{
    lemma_found_run(c, i, limit, ch, n);
    match find(c, i, limit, ch, n) {
        Some(k) if i <= k < limit => {
            if !closes(c, from, k, limit, ch, n) {
                lemma_close_run(c, from, k + 1, limit, ch, n);
            }
        },
        _ => {},
    }
}

/// Whether a character belongs to one of the marks.
pub open spec fn marking(c: char) -> bool {
    c == '~' || c == '|' || c == '_' || c == '*'
}

proof fn lemma_mark_runs(c: Seq<char>, i: int, limit: int, deco: u8, k: int)
    requires
        0 <= i < limit,
        0 <= k,
    ensures
        first_mark(c, i, limit, deco, k) matches Some((m, close)) ==> {
            let (ch, n, bit) = marks()[m];
            &&& marking(ch)
            &&& forall|j: int| i <= j < i + n ==> #[trigger] c[j] == ch
            &&& forall|j: int| close <= j < close + n ==> #[trigger] c[j] == ch
        },
    decreases marks().len() - k,
{
    if k < marks().len() {
        let (ch, n, bit) = marks()[k];
        match opened(c, i, limit, deco, marks()[k]) {
            Some(close) => {
                lemma_run_of(c, i, limit, ch, n);
                lemma_close_run(c, i + n, i + n, limit, ch, n);
                lemma_run_of(c, close, limit, ch, n);
            },
            None => {
                lemma_mark_runs(c, i, limit, deco, k + 1);
            },
        }
    }
}

/// Whether the `k`-th of `fs` tells the truth about its character: a backslash
/// is not shown because it escapes what stands behind it and is shown, and a
/// mark because it is one.
pub open spec fn true_fate(c: Seq<char>, i: int, limit: int, fs: Seq<Fate>, k: int) -> bool {
    match fs[k] {
        Fate::Marking => marking(c[i + k]),
        Fate::Escaping => escaped(c, i + k, limit) && k + 1 < fs.len() && fs[k + 1] is Shown,
        _ => true,
    }
}

/// Whether `fs` tells the truth about every character from `i` up to `limit`.
pub open spec fn accounted(c: Seq<char>, i: int, limit: int, fs: Seq<Fate>) -> bool {
    &&& fs.len() == limit - i
    &&& forall|k: int| 0 <= k < fs.len() ==> #[trigger] true_fate(c, i, limit, fs, k)
}

proof fn lemma_accounted_concat(
    c: Seq<char>,
    i: int,
    mid: int,
    limit: int,
    a: Seq<Fate>,
    b: Seq<Fate>,
)
    requires
        0 <= i <= mid <= limit,
        accounted(c, i, mid, a),
        accounted(c, mid, limit, b),
    ensures
        accounted(c, i, limit, a + b),
{
    let fs = a + b;
    assert forall|k: int| 0 <= k < fs.len() implies #[trigger] true_fate(c, i, limit, fs, k) by {
        if k < a.len() {
            assert(true_fate(c, i, mid, a, k));
            assert(fs[k] == a[k]);
            if a[k] is Escaping {
                assert(fs[k + 1] == a[k + 1]);
            }
        } else {
            let j = k - a.len();
            assert(true_fate(c, mid, limit, b, j));
            assert(fs[k] == b[j]);
            assert(i + k == mid + j);
            if b[j] is Escaping {
                assert(fs[k + 1] == b[j + 1]);
            }
        }
    }
}

/// What a piece contributes to the text, and the rest after it.
proof fn lemma_shown_after(
    c: Seq<char>,
    i: int,
    mid: int,
    limit: int,
    one: Seq<Fate>,
    rest: Seq<Fate>,
)
    requires
        0 <= i <= mid <= limit <= c.len(),
        one.len() == mid - i,
        rest.len() == limit - mid,
    ensures
        shown(c.subrange(i, limit), one + rest) == shown(c.subrange(i, mid), one) + shown(
            c.subrange(mid, limit),
            rest,
        ),
{
    lemma_shown_concat(c.subrange(i, mid), c.subrange(mid, limit), one, rest);
    assert(c.subrange(i, mid) + c.subrange(mid, limit) =~= c.subrange(i, limit));
}

proof fn lemma_escape_shown(a: char, b: char)
    ensures
        shown(seq![a, b], seq![Fate::Escaping, Fate::Shown]) == seq![b],
{
    let fs = seq![Fate::Escaping, Fate::Shown];
    assert(fs.drop_last() =~= seq![Fate::Escaping]);
    assert(seq![a, b].drop_last() =~= seq![a]);
    lemma_none_shown(seq![a], seq![Fate::Escaping]);
    assert(shown(seq![a, b], fs) =~= seq![b]);
}

proof fn lemma_plain_shown(a: char)
    ensures
        shown(seq![a], seq![Fate::Shown]) == seq![a],
{
    assert(seq![Fate::Shown].drop_last() =~= Seq::<Fate>::empty());
    assert(shown(seq![a].drop_last(), Seq::<Fate>::empty()) =~= seq![]);
    assert(shown(seq![a], seq![Fate::Shown]) =~= seq![a]);
}

/// Nothing else disappears: outside what is read whole, the text that comes out
/// is what was written, in order, without the backslashes of escapes and
/// without the marks that were opened and closed.
pub proof fn only_marks_disappear(c: Seq<char>, i: int, limit: int, deco: u8, buf: Seq<char>)
    requires
        0 <= i <= limit <= c.len(),
    ensures
        accounted(c, i, limit, fates(c, i, limit, deco)),
        text_in(spans(c, i, limit, deco, buf)) == buf + shown(
            c.subrange(i, limit),
            fates(c, i, limit, deco),
        ),
    decreases limit - i,
{
    let none = Seq::<char>::empty();
    lemma_gathered_text(buf, deco);
    if i == limit {
        assert(buf + shown(c.subrange(i, limit), fates(c, i, limit, deco)) =~= buf);
    } else {
        token_moves_on(c, i, limit, deco);
        match token(c, i, limit, deco) {
            Token::Escape => {
                only_marks_disappear(c, i + 2, limit, deco, buf.push(c[i + 1]));
                lemma_escape_kept(c, i, limit, deco, buf);
            },
            Token::Whole(kind, next) => {
                only_marks_disappear(c, next, limit, deco, none);
                lemma_whole_kept(c, i, limit, deco, buf);
            },
            Token::Marked { bit, body, close, next } => {
                only_marks_disappear(c, body, close, deco | bit, none);
                only_marks_disappear(c, next, limit, deco, none);
                lemma_marked_kept(c, i, limit, deco, buf);
            },
            Token::Plain => {
                only_marks_disappear(c, i + 1, limit, deco, buf.push(c[i]));
                lemma_plain_kept(c, i, limit, deco, buf);
            },
        }
    }
}

/// Whether the characters from `i` up to `limit` are accounted for, and their
/// text comes out behind `buf`.
spec fn kept(c: Seq<char>, i: int, limit: int, deco: u8, buf: Seq<char>) -> bool {
    &&& accounted(c, i, limit, fates(c, i, limit, deco))
    &&& text_in(spans(c, i, limit, deco, buf)) == buf + shown(
        c.subrange(i, limit),
        fates(c, i, limit, deco),
    )
}

proof fn lemma_escape_kept(c: Seq<char>, i: int, limit: int, deco: u8, buf: Seq<char>)
    requires
        0 <= i < limit <= c.len(),
        token(c, i, limit, deco) is Escape,
        kept(c, i + 2, limit, deco, buf.push(c[i + 1])),
    ensures
        kept(c, i, limit, deco, buf),
{
    let rest = fates(c, i + 2, limit, deco);
    let one = seq![Fate::Escaping, Fate::Shown];
    assert(escaped(c, i, i + 2));
    assert forall|k: int| 0 <= k < one.len() implies #[trigger] true_fate(
        c,
        i,
        i + 2,
        one,
        k,
    ) by {}
    lemma_accounted_concat(c, i, i + 2, limit, one, rest);
    lemma_shown_after(c, i, i + 2, limit, one, rest);
    assert(c.subrange(i, i + 2) =~= seq![c[i], c[i + 1]]);
    lemma_escape_shown(c[i], c[i + 1]);
    let tail = shown(c.subrange(i + 2, limit), rest);
    assert(buf.push(c[i + 1]) + tail =~= buf + (seq![c[i + 1]] + tail));
}

proof fn lemma_plain_kept(c: Seq<char>, i: int, limit: int, deco: u8, buf: Seq<char>)
    requires
        0 <= i < limit <= c.len(),
        token(c, i, limit, deco) is Plain,
        kept(c, i + 1, limit, deco, buf.push(c[i])),
    ensures
        kept(c, i, limit, deco, buf),
{
    let rest = fates(c, i + 1, limit, deco);
    let one = seq![Fate::Shown];
    assert(accounted(c, i, i + 1, one));
    lemma_accounted_concat(c, i, i + 1, limit, one, rest);
    lemma_shown_after(c, i, i + 1, limit, one, rest);
    assert(c.subrange(i, i + 1) =~= seq![c[i]]);
    lemma_plain_shown(c[i]);
    let tail = shown(c.subrange(i + 1, limit), rest);
    assert(buf.push(c[i]) + tail =~= buf + (seq![c[i]] + tail));
}

proof fn lemma_whole_kept(c: Seq<char>, i: int, limit: int, deco: u8, buf: Seq<char>)
    requires
        0 <= i < limit <= c.len(),
        token(c, i, limit, deco) matches Token::Whole(_, next) && kept(
            c,
            next,
            limit,
            deco,
            Seq::<char>::empty(),
        ),
    ensures
        kept(c, i, limit, deco, buf),
{
    token_moves_on(c, i, limit, deco);
    if let Token::Whole(kind, next) = token(c, i, limit, deco) {
        let none = Seq::<char>::empty();
        let rest = fates(c, next, limit, deco);
        let one = Seq::new((next - i) as nat, |k: int| Fate::InWhole);
        assert(accounted(c, i, next, one));
        lemma_accounted_concat(c, i, next, limit, one, rest);
        lemma_none_shown(c.subrange(i, next), one);
        lemma_shown_after(c, i, next, limit, one, rest);
        let tail = shown(c.subrange(next, limit), rest);
        assert(none + tail =~= tail);
        let head = gathered(buf, deco);
        let s = Span { deco, kind };
        lemma_gathered_text(buf, deco);
        lemma_whole_is_not_text(c, i, limit, deco);
        lemma_text_in_one(s);
        lemma_text_in_concat(head, seq![s]);
        lemma_text_in_concat(head + seq![s], spans(c, next, limit, deco, none));
        assert(buf + none + tail =~= buf + tail);
    }
}

proof fn lemma_marked_kept(c: Seq<char>, i: int, limit: int, deco: u8, buf: Seq<char>)
    requires
        0 <= i < limit <= c.len(),
        token(c, i, limit, deco) matches Token::Marked { bit, body, close, next } && kept(
            c,
            body,
            close,
            deco | bit,
            Seq::<char>::empty(),
        ) && kept(c, next, limit, deco, Seq::<char>::empty()),
    ensures
        kept(c, i, limit, deco, buf),
{
    token_moves_on(c, i, limit, deco);
    if let Token::Marked { bit, body, close, next } = token(c, i, limit, deco) {
        let none = Seq::<char>::empty();
        lemma_mark_runs(c, i, limit, deco, 0);
        let first = Seq::new((body - i) as nat, |k: int| Fate::Marking);
        let inner = fates(c, body, close, deco | bit);
        let second = Seq::new((next - close) as nat, |k: int| Fate::Marking);
        let rest = fates(c, next, limit, deco);
        assert forall|k: int| 0 <= k < first.len() implies #[trigger] true_fate(
            c,
            i,
            body,
            first,
            k,
        ) by {
            assert(marking(c[i + k]));
        }
        assert forall|k: int| 0 <= k < second.len() implies #[trigger] true_fate(
            c,
            close,
            next,
            second,
            k,
        ) by {
            assert(marking(c[close + k]));
        }
        lemma_accounted_concat(c, i, body, close, first, inner);
        lemma_accounted_concat(c, i, close, next, first + inner, second);
        lemma_accounted_concat(c, i, next, limit, first + inner + second, rest);
        lemma_none_shown(c.subrange(i, body), first);
        lemma_none_shown(c.subrange(close, next), second);
        lemma_shown_after(c, i, body, close, first, inner);
        lemma_shown_after(c, i, close, next, first + inner, second);
        lemma_shown_after(c, i, next, limit, first + inner + second, rest);
        let x = shown(c.subrange(body, close), inner);
        let z = shown(c.subrange(next, limit), rest);
        assert(none + x =~= x && none + z =~= z && x + none =~= x);
        let head = gathered(buf, deco);
        let mid = spans(c, body, close, deco | bit, none);
        lemma_gathered_text(buf, deco);
        lemma_text_in_concat(head, mid);
        lemma_text_in_concat(head + mid, spans(c, next, limit, deco, none));
        assert(buf + x + z =~= buf + (x + z));
    }
}

/// Decorations only stack: whatever is read under `deco` carries all of it,
/// and a span of text holds text.
pub proof fn decorations_reach_inside(c: Seq<char>, i: int, limit: int, deco: u8, buf: Seq<char>)
    ensures
        forall|k: int|
            0 <= k < spans(c, i, limit, deco, buf).len() ==> {
                let s = #[trigger] spans(c, i, limit, deco, buf)[k];
                &&& s.deco & deco == deco
                &&& s.kind matches Kind::Text(t) ==> t.len() > 0
            },
    decreases limit - i,
{
    assert(deco & deco == deco) by (bit_vector);
    if 0 <= i < limit && limit <= c.len() {
        token_moves_on(c, i, limit, deco);
        match token(c, i, limit, deco) {
            Token::Escape => {
                decorations_reach_inside(c, i + 2, limit, deco, buf.push(c[i + 1]));
            },
            Token::Whole(kind, next) => {
                lemma_whole_is_not_text(c, i, limit, deco);
                decorations_reach_inside(c, next, limit, deco, seq![]);
            },
            Token::Marked { bit, body, close, next } => {
                decorations_reach_inside(c, body, close, deco | bit, seq![]);
                decorations_reach_inside(c, next, limit, deco, seq![]);
                assert forall|d: u8| d & (deco | bit) == deco | bit implies #[trigger] (d & deco)
                    == deco by {
                    assert(d & (deco | bit) == deco | bit ==> d & deco == deco) by (bit_vector);
                }
                let inner = spans(c, body, close, deco | bit, seq![]);
                let rest = spans(c, next, limit, deco, seq![]);
                let g = gathered(buf, deco);
                assert forall|k: int| 0 <= k < spans(c, i, limit, deco, buf).len() implies {
                    let s = #[trigger] spans(c, i, limit, deco, buf)[k];
                    &&& s.deco & deco == deco
                    &&& s.kind matches Kind::Text(t) ==> t.len() > 0
                } by {
                    if k < g.len() {
                    } else if k < g.len() + inner.len() {
                        assert(spans(c, i, limit, deco, buf)[k] == inner[k - g.len()]);
                    } else {
                        assert(spans(c, i, limit, deco, buf)[k] == rest[k - g.len() - inner.len()]);
                    }
                }
            },
            Token::Plain => {
                decorations_reach_inside(c, i + 1, limit, deco, buf.push(c[i]));
            },
        }
    }
}

proof fn lemma_whole_is_not_text(c: Seq<char>, i: int, limit: int, deco: u8)
    ensures
        token(c, i, limit, deco) matches Token::Whole(kind, _) ==> !(kind is Text),
{
}

/// What a mark encloses is there, and neither begins nor ends with white
/// space: `2 * 3 * 4` is a product.
pub proof fn marked_content_is_tight(c: Seq<char>, from: int, limit: int, ch: char, n: nat)
    requires
        0 <= from,
        n >= 1,
    ensures
        close_of(c, from, limit, ch, n) matches Some(k) ==> {
            &&& from < k
            &&& k + n <= limit
            &&& !text::is_space(c[from])
            &&& !text::is_space(c[k - 1])
        },
{
    if from < limit && !text::is_space(c[from]) {
        lemma_close_after(c, from, from, limit, ch, n);
        lemma_close_is_tight(c, from, from, limit, ch, n);
    }
}

proof fn lemma_close_is_tight(c: Seq<char>, from: int, i: int, limit: int, ch: char, n: nat)
    ensures
        close_after(c, from, i, limit, ch, n) matches Some(k) ==> !text::is_space(c[k - 1]),
    decreases limit - i,
{
    match find(c, i, limit, ch, n) {
        Some(k) if i <= k < limit => {
            lemma_close_is_tight(c, from, k + 1, limit, ch, n);
        },
        _ => {},
    }
}

/// An escaped character is never taken for a mark: after a backslash and
/// punctuation the search goes on behind both.
pub proof fn escapes_are_skipped(c: Seq<char>, i: int, limit: int, ch: char, n: nat)
    requires
        0 <= i,
        escaped(c, i, limit),
    ensures
        find(c, i, limit, ch, n) == find(c, i + 2, limit, ch, n),
{
}

/// A mark inside code does not close a mark outside it: the search goes on
/// behind the code.
pub proof fn code_is_skipped(c: Seq<char>, i: int, limit: int, ch: char, n: nat)
    requires
        0 <= i < limit <= c.len(),
        c[i] == '`',
        ch != '`',
        n >= 1,
    ensures
        ({
            let ticks = text::run_len(c, i, limit, '`');
            match find(c, i + ticks, limit, '`', ticks) {
                Some(end) => find(c, i, limit, ch, n) == find(c, end + ticks, limit, ch, n),
                None => find(c, i, limit, ch, n) == find(c, i + ticks, limit, ch, n),
            }
        }),
{
    let ticks = text::run_len(c, i, limit, '`');
    text::lemma_run_len(c, i, limit, '`');
    find_stays_inside(c, i + ticks, limit, '`', ticks);
}

} // verus!
