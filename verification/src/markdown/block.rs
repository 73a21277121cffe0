//! Parsing what is stacked vertically.
//!
//! Code blocks come first: ```` ``` ```` may begin in the middle of a line, so
//! they are cut out before the text is split into lines. What is inside one is
//! not interpreted at all. The price is that a code block inside a `> ` quote
//! leaves the quote.

use vstd::prelude::*;
use vstd::slice::slice_subrange;
use crate::markdown::model::{
    entries_of, lemma_quote_view, parts_of, spans_of, Block, Entry, Item, Kind, Marker, Part,
    Span,
};
use crate::text;

verus! {

/// How many spaces make one level of a list.
pub const INDENT: usize = 2;

/// How deep a list goes.
pub const MAX_DEPTH: u8 = 4;

/// How deep quotes nest.
pub const MAX_QUOTE: u32 = 4;

// ── code blocks ────────────────────────────────────────────────────────────

/// Whether three back-ticks stand at `i`.
pub open spec fn fence_at(c: Seq<char>, i: int) -> bool {
    0 <= i && i + 3 <= c.len() && c[i] == '`' && c[i + 1] == '`' && c[i + 2] == '`'
}

/// The first fence at or after `from`, or the length.
pub open spec fn next_fence(c: Seq<char>, from: int) -> int
    decreases c.len() - from,
{
    if from >= c.len() {
        c.len() as int
    } else if fence_at(c, from) {
        from
    } else {
        next_fence(c, from + 1)
    }
}

pub proof fn lemma_next_fence(c: Seq<char>, from: int)
    requires
        0 <= from <= c.len(),
    ensures
        from <= next_fence(c, from) <= c.len(),
        next_fence(c, from) < c.len() ==> fence_at(c, next_fence(c, from)),
    decreases c.len() - from,
{
    if from < c.len() && !fence_at(c, from) {
        lemma_next_fence(c, from + 1);
    }
}

/// One line feed less on each side.
pub open spec fn trimmed_code(s: Seq<char>) -> Seq<char> {
    let t = if s.len() > 0 && s[0] == '\n' { s.skip(1) } else { s };
    if t.len() > 0 && t.last() == '\n' {
        t.drop_last()
    } else {
        t
    }
}

pub open spec fn lang_char(c: char) -> bool {
    ||| text::is_ascii_letter(c) || text::is_digit(c)
    ||| c == '+' || c == '-' || c == '#' || c == '.' || c == '_'
}

pub open spec fn lang_name(s: Seq<char>) -> bool {
    s.len() > 0 && forall|i: int| 0 <= i < s.len() ==> lang_char(#[trigger] s[i])
}

/// A code block's part: the first line is the language where it is a name and
/// a line feed follows it.
pub open spec fn code_part(body: Seq<char>) -> Part {
    let k = text::index_from(body, '\n', 0);
    if k < body.len() && lang_name(body.take(k)) {
        Part::Code { lang: Some(body.take(k)), text: trimmed_code(body.skip(k + 1)) }
    } else {
        Part::Code { lang: None, text: trimmed_code(body) }
    }
}

fn trim_code(s: &[char]) -> (r: String)
    ensures
        r@ == trimmed_code(s@),
{
    let from: usize = if s.len() > 0 && s[0] == '\n' { 1 } else { 0 };
    let to: usize = if s.len() > from && s[s.len() - 1] == '\n' { s.len() - 1 } else { s.len() };
    assert(s@.subrange(from as int, to as int) =~= trimmed_code(s@));
    text::piece(s, from, to)
}

fn is_lang(s: &[char]) -> (r: bool)
    ensures
        r == lang_name(s@),
{
    let mut i: usize = 0;
    while i < s.len()
        invariant
            i <= s.len(),
            forall|k: int| 0 <= k < i ==> lang_char(#[trigger] s@[k]),
        decreases s.len() - i,
    {
        let c = s[i];
        if !(text::ascii_letter(c) || text::digit(c) || c == '+' || c == '-' || c == '#' || c == '.'
            || c == '_') {
            assert(!lang_char(s@[i as int]));
            return false;
        }
        i += 1;
    }
    s.len() > 0
}

fn code_block(body: &[char]) -> (b: Block)
    ensures
        b@ == code_part(body@),
{
    let k = text::find_from(body, '\n', 0);
    if k < body.len() {
        let head = slice_subrange(body, 0, k);
        assert(head@ =~= body@.take(k as int));
        if is_lang(head) {
            let rest = slice_subrange(body, k + 1, body.len());
            assert(rest@ =~= body@.skip(k + 1));
            return Block::Code { lang: Some(text::string(head)), text: trim_code(rest) };
        }
    }
    Block::Code { lang: None, text: trim_code(body) }
}

// ── the heads of lines ─────────────────────────────────────────────────────

/// The content of a `> ` line. A line of `>` alone is an empty quoted line.
pub open spec fn quoted_line(line: Seq<char>) -> Option<Seq<char>> {
    if line.len() >= 2 && line[0] == '>' && line[1] == ' ' {
        Some(line.skip(2))
    } else if line =~= seq!['>'] {
        Some(seq![])
    } else {
        None
    }
}

fn quoted(line: &[char]) -> (r: Option<Vec<char>>)
    ensures
        match r {
            Some(t) => quoted_line(line@) == Some(t@),
            None => quoted_line(line@) is None,
        },
{
    if line.len() >= 2 && line[0] == '>' && line[1] == ' ' {
        let t = slice_subrange(line, 2, line.len());
        assert(t@ =~= line@.skip(2));
        Some(text::copy(t))
    } else if line.len() == 1 && line[0] == '>' {
        Some(Vec::new())
    } else {
        None
    }
}

/// `# `, `## ` and `### `: the level and the content. The space is needed,
/// and so is content.
pub open spec fn heading_line(line: Seq<char>) -> Option<(u8, Seq<char>)> {
    let n = text::run_len(line, 0, line.len() as int, '#') as int;
    if 1 <= n <= 3 && n < line.len() && line[n] == ' ' && !text::is_blank(
        line.skip(n + 1),
    ) {
        Some((n as u8, line.skip(n + 1)))
    } else {
        None
    }
}

fn heading(line: &[char]) -> (r: Option<(u8, usize)>)
    ensures
        match r {
            Some((level, at)) => at <= line.len() && heading_line(line@) == Some(
                (level, line@.skip(at as int)),
            ),
            None => heading_line(line@) is None,
        },
{
    let n = text::run_of(line, 0, line.len(), '#');
    if n < 1 || n > 3 || n >= line.len() || line[n] != ' ' {
        return None;
    }
    let rest = slice_subrange(line, n + 1, line.len());
    assert(rest@ =~= line@.skip(n + 1));
    if text::blank(rest) {
        None
    } else {
        Some((n as u8, n + 1))
    }
}

/// How many decimal digits stand from `i` on.
pub open spec fn digits_len(s: Seq<char>, i: int) -> nat
    decreases s.len() - i,
{
    if 0 <= i < s.len() && text::is_digit(s[i]) {
        1 + digits_len(s, i + 1)
    } else {
        0
    }
}

fn digits_of(s: &[char], i: usize) -> (n: usize)
    requires
        i <= s.len(),
    ensures
        n == digits_len(s@, i as int),
        i + n <= s.len(),
        forall|k: int| i <= k < i + n ==> text::is_digit(#[trigger] s@[k]),
{
    let mut k: usize = i;
    while k < s.len() && text::digit(s[k])
        invariant
            i <= k <= s.len(),
            digits_len(s@, i as int) == k - i + digits_len(s@, k as int),
            forall|j: int| i <= j < k ==> text::is_digit(#[trigger] s@[j]),
        decreases s.len() - k,
    {
        k += 1;
    }
    k - i
}

/// The marker of a list line and where its content begins, for a line whose
/// indentation ends at `i`. A number has at most nine digits.
pub open spec fn marker_at(line: Seq<char>, i: int) -> Option<(Marker, int)> {
    let digits = digits_len(line, i);
    if i + 1 < line.len() && (line[i] == '-' || line[i] == '*' || line[i] == '+') && line[i + 1]
        == ' ' {
        Some((Marker::Bullet, i + 2))
    } else if 1 <= digits <= 9 && i + digits + 1 < line.len() && line[i + digits] == '.' && line[i
        + digits + 1] == ' ' {
        Some(
            (
                Marker::Number(text::dec_value(line.subrange(i, i + digits)) as u32),
                i + digits + 2,
            ),
        )
    } else {
        None
    }
}

pub open spec fn depth_of(indent: nat) -> u8 {
    if indent / INDENT as nat >= MAX_DEPTH {
        MAX_DEPTH
    } else {
        (indent / INDENT as nat) as u8
    }
}

/// A list line: its level, its marker and its content. A marker without
/// content is no list line.
pub open spec fn list_line(line: Seq<char>) -> Option<Entry> {
    let indent = text::run_len(line, 0, line.len() as int, ' ');
    match marker_at(line, indent as int) {
        Some((marker, at)) if !text::is_blank(line.skip(at)) => Some(
            Entry {
                depth: depth_of(indent),
                marker,
                content: crate::markdown::inline::inlines(line.skip(at)),
            },
        ),
        _ => None,
    }
}

proof fn lemma_nine_digits(s: Seq<char>)
    requires
        text::all_digits(s),
        s.len() <= 9,
    ensures
        text::dec_value(s) < 1_000_000_000,
{
    lemma_digits_bound(s);
    vstd::arithmetic::power::lemma_pow_increases(10, s.len(), 9);
    assert(vstd::arithmetic::power::pow(10, 9) == 1_000_000_000) by {
        reveal_with_fuel(vstd::arithmetic::power::pow, 10);
    }
}

proof fn lemma_digits_bound(s: Seq<char>)
    requires
        text::all_digits(s),
    ensures
        text::dec_value(s) < vstd::arithmetic::power::pow(10, s.len()),
    decreases s.len(),
{
    if s.len() == 0 {
        vstd::arithmetic::power::lemma_pow0(10);
    } else {
        lemma_digits_bound(s.drop_last());
        assert(text::is_digit(s.last()));
        vstd::arithmetic::power::lemma_pow_adds(10, (s.len() - 1) as nat, 1);
        vstd::arithmetic::power::lemma_pow1(10);
        let a = text::dec_value(s.drop_last()) as int;
        let b = vstd::arithmetic::power::pow(10, (s.len() - 1) as nat);
        assert(a * 10 + 9 < b * 10) by (nonlinear_arith)
            requires
                a < b,
        ;
    }
}

fn marker(line: &[char], i: usize) -> (r: Option<(Marker, usize)>)
    requires
        i <= line.len(),
    ensures
        match r {
            Some((m, at)) => at <= line.len() && marker_at(line@, i as int) == Some((m, at as int)),
            None => marker_at(line@, i as int) is None,
        },
{
    if line.len() - i >= 2 && (line[i] == '-' || line[i] == '*' || line[i] == '+') && line[i + 1]
        == ' ' {
        return Some((Marker::Bullet, i + 2));
    }
    let digits = digits_of(line, i);
    // Nine digits always fit; more might not.
    if digits == 0 || digits > 9 {
        return None;
    }
    let dot = i + digits;
    if line.len() - dot < 2 || line[dot] != '.' || line[dot + 1] != ' ' {
        return None;
    }
    let number = slice_subrange(line, i, dot);
    proof {
        assert forall|k: int| 0 <= k < number@.len() implies text::is_digit(#[trigger] number@[k]) by {
            assert(text::is_digit(line@[i + k]));
        }
        lemma_nine_digits(number@);
    }
    match text::parse_number(number) {
        Some(n) => Some((Marker::Number(n as u32), dot + 2)),
        None => None,
    }
}

fn bullet(line: &[char]) -> (r: Option<Item>)
    ensures
        match r {
            Some(item) => list_line(line@) == Some(item@),
            None => list_line(line@) is None,
        },
{
    let indent = text::run_of(line, 0, line.len(), ' ');
    match marker(line, indent) {
        None => None,
        Some((marker, at)) => {
            let body = slice_subrange(line, at, line.len());
            assert(body@ =~= line@.skip(at as int));
            if text::blank(body) {
                return None;
            }
            let level = indent / INDENT;
            let depth: u8 = if level >= MAX_DEPTH as usize { MAX_DEPTH } else { level as u8 };
            Some(Item { depth, marker, content: crate::markdown::inline::parse_chars(body) })
        },
    }
}


// ── lines ──────────────────────────────────────────────────────────────────

/// Where the run of quoted lines that begins at `i` ends.
pub open spec fn quote_end(ls: Seq<Seq<char>>, i: int) -> int
    decreases ls.len() - i,
{
    if 0 <= i < ls.len() && quoted_line(ls[i]) is Some {
        quote_end(ls, i + 1)
    } else {
        i
    }
}

pub open spec fn quote_body(ls: Seq<Seq<char>>, i: int, end: int) -> Seq<Seq<char>> {
    Seq::new((end - i) as nat, |k: int| quoted_line(ls[i + k])->0)
}

/// Where the run of list lines that begins at `i` ends.
pub open spec fn list_end(ls: Seq<Seq<char>>, i: int) -> int
    decreases ls.len() - i,
{
    if 0 <= i < ls.len() && list_line(ls[i]) is Some {
        list_end(ls, i + 1)
    } else {
        i
    }
}

pub open spec fn list_body(ls: Seq<Seq<char>>, i: int, end: int) -> Seq<Entry> {
    Seq::new((end - i) as nat, |k: int| list_line(ls[i + k])->0)
}

pub proof fn lemma_quote_end(ls: Seq<Seq<char>>, i: int)
    ensures
        i <= quote_end(ls, i),
        i <= ls.len() ==> quote_end(ls, i) <= ls.len(),
        forall|k: int| i <= k < quote_end(ls, i) ==> quoted_line(#[trigger] ls[k]) is Some,
    decreases ls.len() - i,
{
    if 0 <= i < ls.len() && quoted_line(ls[i]) is Some {
        lemma_quote_end(ls, i + 1);
    }
}

pub proof fn lemma_list_end(ls: Seq<Seq<char>>, i: int)
    ensures
        i <= list_end(ls, i),
        i <= ls.len() ==> list_end(ls, i) <= ls.len(),
        forall|k: int| i <= k < list_end(ls, i) ==> list_line(#[trigger] ls[k]) is Some,
    decreases ls.len() - i,
{
    if 0 <= i < ls.len() && list_line(ls[i]) is Some {
        lemma_list_end(ls, i + 1);
    }
}

/// Consecutive lines without a mark are one paragraph; the breaks between
/// them stay.
pub open spec fn paragraph(lines: Seq<Seq<char>>) -> Seq<Part> {
    let content = crate::markdown::inline::inlines(text::join(lines, '\n'));
    if lines.len() == 0 || content.len() == 0 {
        seq![]
    } else {
        seq![Part::Paragraph(content)]
    }
}

/// What the lines from `i` on read as, at the quote depth `depth`, when the
/// lines from `p` to `i` are a paragraph not yet ended.
pub open spec fn stack(ls: Seq<Seq<char>>, p: int, i: int, depth: u32) -> Seq<Part>
    decreases MAX_QUOTE - depth, ls.len() - i,
{
    proof {
        lemma_quote_end(ls, i);
        lemma_quote_end(ls, i + 1);
        lemma_list_end(ls, i);
        lemma_list_end(ls, i + 1);
    }
    let before = paragraph(ls.subrange(p, i));
    if i < 0 || i >= ls.len() {
        before
    } else {
        let line = ls[i];
        if text::is_blank(line) {
            before + stack(ls, i + 1, i + 1, depth)
        } else if depth < MAX_QUOTE && ">>> "@.is_prefix_of(line) {
            before + seq![
                Part::Quote(
                    stack(seq![line.skip(4)] + ls.skip(i + 1), 0, 0, (depth + 1) as u32),
                ),
            ]
        } else if depth < MAX_QUOTE && quoted_line(line) is Some {
            let end = quote_end(ls, i);
            before + seq![
                Part::Quote(stack(quote_body(ls, i, end), 0, 0, (depth + 1) as u32)),
            ] + stack(ls, end, end, depth)
        } else if heading_line(line) is Some {
            let (level, rest) = heading_line(line)->0;
            before + seq![
                Part::Heading { level, content: crate::markdown::inline::inlines(rest) },
            ] + stack(ls, i + 1, i + 1, depth)
        } else if "-# "@.is_prefix_of(line) {
            before + seq![
                Part::Subtext(crate::markdown::inline::inlines(line.skip(3))),
            ] + stack(ls, i + 1, i + 1, depth)
        } else if list_line(line) is Some {
            let end = list_end(ls, i);
            before + seq![Part::List(list_body(ls, i, end))] + stack(ls, end, end, depth)
        } else {
            stack(ls, p, i + 1, depth)
        }
    }
}

proof fn lemma_join_push(parts: Seq<Seq<char>>, last: Seq<char>, sep: char)
    ensures
        text::join(parts.push(last), sep) == if parts.len() == 0 {
            last
        } else {
            text::join(parts, sep).push(sep) + last
        },
    decreases parts.len(),
{
    if parts.len() == 0 {
    } else if parts.len() == 1 {
        assert(parts.push(last).skip(1) =~= seq![last]);
        assert(text::join(seq![last], sep) == last);
        assert(text::join(parts, sep) == parts[0]);
    } else {
        lemma_join_push(parts.skip(1), last, sep);
        assert(parts.push(last).skip(1) =~= parts.skip(1).push(last));
        assert(parts[0].push(sep) + (text::join(parts.skip(1), sep).push(sep) + last) =~= (
        parts[0].push(sep) + text::join(parts.skip(1), sep)).push(sep) + last);
    }
}

fn join_lines(ls: &Vec<Vec<char>>, p: usize, i: usize) -> (r: Vec<char>)
    requires
        p <= i <= ls.len(),
    ensures
        r@ == text::join(text::texts(ls@).subrange(p as int, i as int), '\n'),
{
    let mut out: Vec<char> = Vec::new();
    let mut k: usize = p;
    let ghost all = text::texts(ls@);
    assert(out@ =~= text::join(all.subrange(p as int, p as int), '\n'));
    while k < i
        invariant
            p <= k <= i <= ls.len(),
            all == text::texts(ls@),
            out@ == text::join(all.subrange(p as int, k as int), '\n'),
        decreases i - k,
    {
        proof {
            lemma_join_push(all.subrange(p as int, k as int), all[k as int], '\n');
            assert(all.subrange(p as int, k + 1) =~= all.subrange(p as int, k as int).push(
                all[k as int],
            ));
        }
        if k > p {
            out.push('\n');
        }
        let mut line = text::copy(ls[k].as_slice());
        out.append(&mut line);
        k += 1;
    }
    out
}

fn end_paragraph(ls: &Vec<Vec<char>>, p: usize, i: usize, out: &mut Vec<Block>)
    requires
        p <= i <= ls.len(),
    ensures
        parts_of(final(out)@) == parts_of(old(out)@) + paragraph(
            text::texts(ls@).subrange(p as int, i as int),
        ),
{
    let ghost before = parts_of(out@);
    let ghost para = text::texts(ls@).subrange(p as int, i as int);
    if p < i {
        let joined = join_lines(ls, p, i);
        let content = crate::markdown::inline::parse_chars(joined.as_slice());
        if content.len() > 0 {
            out.push(Block::Paragraph(content));
        }
    }
    assert(parts_of(out@) =~= before + paragraph(para));
}

fn push(out: &mut Vec<Block>, b: Block)
    ensures
        parts_of(final(out)@) == parts_of(old(out)@).push(b@),
{
    let ghost before = parts_of(out@);
    out.push(b);
    assert(parts_of(out@) =~= before.push(b@));
}

/// The quoted lines from `i` on, without their marks, and where they end.
fn quote_lines(ls: &Vec<Vec<char>>, i: usize) -> (r: (Vec<Vec<char>>, usize))
    requires
        i <= ls.len(),
    ensures
        r.1 == quote_end(text::texts(ls@), i as int),
        i <= r.1 <= ls.len(),
        text::texts(r.0@) == quote_body(text::texts(ls@), i as int, r.1 as int),
{
    let ghost all = text::texts(ls@);
    let mut body: Vec<Vec<char>> = Vec::new();
    let mut k: usize = i;
    while k < ls.len()
        invariant
            i <= k <= ls.len(),
            all == text::texts(ls@),
            quote_end(all, i as int) == quote_end(all, k as int),
            text::texts(body@) =~= quote_body(all, i as int, k as int),
        decreases ls.len() - k,
    {
        assert(all[k as int] == ls[k as int]@);
        match quoted(ls[k].as_slice()) {
            Some(rest) => {
                let ghost was = body@;
                body.push(rest);
                k += 1;
                assert(text::texts(body@) =~= text::texts(was).push(rest@));
            },
            None => {
                return (body, k);
            },
        }
    }
    (body, k)
}

/// The list lines from `i` on, and where they end.
fn list_items(ls: &Vec<Vec<char>>, i: usize) -> (r: (Vec<Item>, usize))
    requires
        i <= ls.len(),
    ensures
        r.1 == list_end(text::texts(ls@), i as int),
        i <= r.1 <= ls.len(),
        entries_of(r.0@) == list_body(text::texts(ls@), i as int, r.1 as int),
{
    let ghost all = text::texts(ls@);
    let mut items: Vec<Item> = Vec::new();
    let mut k: usize = i;
    while k < ls.len()
        invariant
            i <= k <= ls.len(),
            all == text::texts(ls@),
            list_end(all, i as int) == list_end(all, k as int),
            entries_of(items@) =~= list_body(all, i as int, k as int),
        decreases ls.len() - k,
    {
        assert(all[k as int] == ls[k as int]@);
        match bullet(ls[k].as_slice()) {
            Some(item) => {
                let ghost was = items@;
                items.push(item);
                k += 1;
                assert(entries_of(items@) =~= entries_of(was).push(item@));
            },
            None => {
                return (items, k);
            },
        }
    }
    (items, k)
}

/// `first`, and the lines from `i` on.
fn with_rest(first: &[char], ls: &Vec<Vec<char>>, i: usize) -> (r: Vec<Vec<char>>)
    requires
        i <= ls.len(),
    ensures
        text::texts(r@) == seq![first@] + text::texts(ls@).skip(i as int),
{
    let ghost all = text::texts(ls@);
    let mut body: Vec<Vec<char>> = Vec::new();
    body.push(text::copy(first));
    let mut k: usize = i;
    while k < ls.len()
        invariant
            i <= k <= ls.len(),
            all == text::texts(ls@),
            text::texts(body@) =~= seq![first@] + all.subrange(i as int, k as int),
        decreases ls.len() - k,
    {
        let ghost was = body@;
        let line = text::copy(ls[k].as_slice());
        body.push(line);
        assert(text::texts(body@) =~= text::texts(was).push(line@));
        assert(all[k as int] == line@);
        k += 1;
    }
    assert(all.subrange(i as int, k as int) =~= all.skip(i as int));
    body
}

/// Reads lines, at the quote depth `depth`.
#[verifier::rlimit(40)]
fn lines(ls: &Vec<Vec<char>>, depth: u32, out: &mut Vec<Block>)
    ensures
        parts_of(final(out)@) == parts_of(old(out)@) + stack(text::texts(ls@), 0, 0, depth),
    decreases MAX_QUOTE - depth,
{
    let ghost all = text::texts(ls@);
    let ghost goal = parts_of(out@) + stack(all, 0, 0, depth);
    let mut p: usize = 0;
    let mut i: usize = 0;
    while i < ls.len()
        invariant
            p <= i <= ls.len(),
            all == text::texts(ls@),
            goal == parts_of(old(out)@) + stack(all, 0, 0, depth),
            parts_of(out@) + stack(all, p as int, i as int, depth) == goal,
        decreases ls.len() - i,
    {
        let line = ls[i].as_slice();
        let ghost was = parts_of(out@);
        let ghost before = paragraph(all.subrange(p as int, i as int));
        proof {
            assert(all[i as int] == line@);
            reveal_strlit(">>> ");
            reveal_strlit("-# ");
        }
        if text::blank(line) {
            end_paragraph(ls, p, i, out);
            i += 1;
            p = i;
            assert(parts_of(out@) + stack(all, p as int, i as int, depth) =~= was + (before
                + stack(all, p as int, i as int, depth)));
        } else if depth < MAX_QUOTE && text::has_prefix(line, ">>> ") {
            // Everything from here on is quoted.
            end_paragraph(ls, p, i, out);
            let first = slice_subrange(line, 4, line.len());
            assert(first@ =~= line@.skip(4));
            let body = with_rest(first, ls, i + 1);
            let mut inner: Vec<Block> = Vec::new();
            lines(&body, depth + 1, &mut inner);
            proof {
                lemma_quote_view(inner);
                assert(parts_of(inner@) =~= stack(text::texts(body@), 0, 0, (depth + 1) as u32));
            }
            push(out, Block::Quote(inner));
            assert(parts_of(out@) =~= was + (before + seq![Part::Quote(parts_of(inner@))]));
            return ;
        } else if depth < MAX_QUOTE && quoted(line).is_some() {
            // Quoted lines are one quote for as long as they last.
            end_paragraph(ls, p, i, out);
            let (body, end) = quote_lines(ls, i);
            let mut inner: Vec<Block> = Vec::new();
            lines(&body, depth + 1, &mut inner);
            proof {
                lemma_quote_end(all, i + 1);
                lemma_quote_view(inner);
                assert(parts_of(inner@) =~= stack(text::texts(body@), 0, 0, (depth + 1) as u32));
            }
            push(out, Block::Quote(inner));
            i = end;
            p = i;
            assert(parts_of(out@) + stack(all, p as int, i as int, depth) =~= was + (before + seq![
                Part::Quote(parts_of(inner@)),
            ] + stack(all, p as int, i as int, depth)));
        } else if let Some((level, at)) = heading(line) {
            end_paragraph(ls, p, i, out);
            let rest = slice_subrange(line, at, line.len());
            assert(rest@ =~= line@.skip(at as int));
            let content = crate::markdown::inline::parse_chars(rest);
            let ghost part = Part::Heading { level, content: spans_of(content@) };
            push(out, Block::Heading { level, content });
            i += 1;
            p = i;
            assert(parts_of(out@) + stack(all, p as int, i as int, depth) =~= was + (before + seq![
                part,
            ] + stack(all, p as int, i as int, depth)));
        } else if text::has_prefix(line, "-# ") {
            end_paragraph(ls, p, i, out);
            let rest = slice_subrange(line, 3, line.len());
            assert(rest@ =~= line@.skip(3));
            let content = crate::markdown::inline::parse_chars(rest);
            let ghost part = Part::Subtext(spans_of(content@));
            push(out, Block::Subtext(content));
            i += 1;
            p = i;
            assert(parts_of(out@) + stack(all, p as int, i as int, depth) =~= was + (before + seq![
                part,
            ] + stack(all, p as int, i as int, depth)));
        } else if bullet(line).is_some() {
            // So are list lines.
            end_paragraph(ls, p, i, out);
            let (items, end) = list_items(ls, i);
            let ghost part = Part::List(entries_of(items@));
            proof {
                lemma_list_end(all, i + 1);
            }
            push(out, Block::List(items));
            i = end;
            p = i;
            assert(parts_of(out@) + stack(all, p as int, i as int, depth) =~= was + (before + seq![
                part,
            ] + stack(all, p as int, i as int, depth)));
        } else {
            i += 1;
        }
    }
    end_paragraph(ls, p, i, out);
}

// ── the whole ──────────────────────────────────────────────────────────────

pub open spec fn plain_parts(s: Seq<char>) -> Seq<Part> {
    if s.len() == 0 {
        seq![]
    } else {
        stack(text::split(s, '\n'), 0, 0, 0)
    }
}

/// What the text from `i` on reads as, when the text from `p` to `i` is plain.
/// A fence without its partner is plain text.
pub open spec fn pieces(c: Seq<char>, p: int, i: int) -> Seq<Part>
    decreases c.len() - i,
{
    proof {
        if fence_at(c, i) {
            lemma_next_fence(c, i + 3);
        }
    }
    if i < 0 || i >= c.len() {
        plain_parts(c.subrange(p, i))
    } else if fence_at(c, i) && next_fence(c, i + 3) < c.len() {
        let close = next_fence(c, i + 3);
        plain_parts(c.subrange(p, i)) + seq![code_part(c.subrange(i + 3, close))] + pieces(
            c,
            close + 3,
            close + 3,
        )
    } else {
        pieces(c, p, i + 1)
    }
}

/// What a message body reads as.
pub open spec fn body(c: Seq<char>) -> Seq<Part> {
    pieces(c, 0, 0)
}

fn is_fence(c: &[char], i: usize) -> (r: bool)
    requires
        i <= c.len(),
    ensures
        r == fence_at(c@, i as int),
{
    c.len() - i >= 3 && c[i] == '`' && c[i + 1] == '`' && c[i + 2] == '`'
}

fn find_fence(c: &[char], from: usize) -> (r: usize)
    requires
        from <= c.len(),
    ensures
        r == next_fence(c@, from as int),
        from <= r <= c.len(),
{
    let mut i: usize = from;
    while i < c.len() && !is_fence(c, i)
        invariant
            from <= i <= c.len(),
            next_fence(c@, from as int) == next_fence(c@, i as int),
        decreases c.len() - i,
    {
        i += 1;
    }
    i
}

fn plain(s: &[char], out: &mut Vec<Block>)
    ensures
        parts_of(final(out)@) == parts_of(old(out)@) + plain_parts(s@),
{
    if s.len() > 0 {
        let ls = text::split_at_char(s, '\n');
        lines(&ls, 0, out);
    } else {
        assert(parts_of(out@) =~= parts_of(out@) + plain_parts(s@));
    }
}

/// Parses a message body: the code blocks first, then the lines of the rest.
pub fn parse(text: &str) -> (out: Vec<Block>)
    ensures
        parts_of(out@) == body(text@),
{
    let chars = text::chars(text);
    let c = chars.as_slice();
    let mut out: Vec<Block> = Vec::new();
    let mut p: usize = 0;
    let mut i: usize = 0;
    assert(parts_of(out@) + pieces(c@, 0, 0) =~= body(c@));
    while i < c.len()
        invariant
            p <= i <= c.len(),
            parts_of(out@) + pieces(c@, p as int, i as int) == body(c@),
        decreases c.len() - i,
    {
        let ghost was = parts_of(out@);
        if is_fence(c, i) {
            let close = find_fence(c, i + 3);
            if close < c.len() {
                proof {
                    lemma_next_fence(c@, i + 3);
                }
                plain(slice_subrange(c, p, i), &mut out);
                push(&mut out, code_block(slice_subrange(c, i + 3, close)));
                assert(parts_of(out@) + pieces(c@, close + 3, close + 3) =~= was + (plain_parts(
                    c@.subrange(p as int, i as int),
                ) + seq![code_part(c@.subrange(i + 3, close as int))] + pieces(
                    c@,
                    close + 3,
                    close + 3,
                )));
                i = close + 3;
                p = i;
                continue ;
            }
        }
        i += 1;
    }
    plain(slice_subrange(c, p, i), &mut out);
    out
}


// ── laws ───────────────────────────────────────────────────────────────────

/// Whether no run of text is empty.
pub open spec fn texts_hold(ss: Seq<Span>) -> bool {
    forall|k: int|
        0 <= k < ss.len() ==> ((#[trigger] ss[k]).kind matches Kind::Text(t) ==> t.len() > 0)
}

proof fn lemma_texts_hold(c: Seq<char>)
    ensures
        texts_hold(crate::markdown::inline::inlines(c)),
{
    crate::markdown::inline::decorations_reach_inside(c, 0, c.len() as int, 0, seq![]);
}

/// Whether quotes nest at most `n` deep in a part, headings have a level of 1
/// to 3, list lines a depth within the limit, paragraphs and lists hold
/// something, and no run of text is empty.
pub open spec fn bounded(p: Part, n: nat) -> bool
    decreases n,
{
    match p {
        Part::Quote(inner) => n > 0 && forall|k: int|
            0 <= k < inner.len() ==> bounded(#[trigger] inner[k], (n - 1) as nat),
        Part::Heading { level, content } => 1 <= level <= 3 && texts_hold(content),
        Part::Subtext(content) => texts_hold(content),
        Part::List(items) => items.len() > 0 && forall|k: int|
            0 <= k < items.len() ==> (#[trigger] items[k]).depth <= MAX_DEPTH && texts_hold(
                items[k].content,
            ),
        Part::Paragraph(content) => content.len() > 0 && texts_hold(content),
        Part::Code { .. } => true,
    }
}

pub open spec fn all_bounded(ps: Seq<Part>, n: nat) -> bool {
    forall|k: int| 0 <= k < ps.len() ==> bounded(#[trigger] ps[k], n)
}

proof fn lemma_bounded_concat(a: Seq<Part>, b: Seq<Part>, n: nat)
    requires
        all_bounded(a, n),
        all_bounded(b, n),
    ensures
        all_bounded(a + b, n),
{
    assert forall|k: int| 0 <= k < (a + b).len() implies bounded(#[trigger] (a + b)[k], n) by {
        if k < a.len() {
            assert((a + b)[k] == a[k]);
        } else {
            assert((a + b)[k] == b[k - a.len()]);
        }
    }
}

proof fn lemma_stack_bounded(ls: Seq<Seq<char>>, p: int, i: int, depth: u32)
    requires
        depth <= MAX_QUOTE,
    ensures
        all_bounded(stack(ls, p, i, depth), (MAX_QUOTE - depth) as nat),
    decreases MAX_QUOTE - depth, ls.len() - i,
{
    let n = (MAX_QUOTE - depth) as nat;
    let before = paragraph(ls.subrange(p, i));
    lemma_texts_hold(text::join(ls.subrange(p, i), '\n'));
    assert(all_bounded(before, n));
    if 0 <= i < ls.len() {
        let line = ls[i];
        lemma_quote_end(ls, i + 1);
        lemma_list_end(ls, i);
        lemma_list_end(ls, i + 1);
        if text::is_blank(line) {
            lemma_stack_bounded(ls, i + 1, i + 1, depth);
            lemma_bounded_concat(before, stack(ls, i + 1, i + 1, depth), n);
        } else if depth < MAX_QUOTE && ">>> "@.is_prefix_of(line) {
            let inner = seq![line.skip(4)] + ls.skip(i + 1);
            lemma_stack_bounded(inner, 0, 0, (depth + 1) as u32);
            let q = seq![Part::Quote(stack(inner, 0, 0, (depth + 1) as u32))];
            assert(all_bounded(q, n));
            lemma_bounded_concat(before, q, n);
        } else if depth < MAX_QUOTE && quoted_line(line) is Some {
            let end = quote_end(ls, i);
            let inner = quote_body(ls, i, end);
            lemma_stack_bounded(inner, 0, 0, (depth + 1) as u32);
            lemma_stack_bounded(ls, end, end, depth);
            let q = seq![Part::Quote(stack(inner, 0, 0, (depth + 1) as u32))];
            assert(all_bounded(q, n));
            lemma_bounded_concat(before, q, n);
            lemma_bounded_concat(before + q, stack(ls, end, end, depth), n);
        } else if heading_line(line) is Some {
            let (level, rest) = heading_line(line)->0;
            let h = seq![Part::Heading { level, content: crate::markdown::inline::inlines(rest) }];
            lemma_texts_hold(rest);
            assert(all_bounded(h, n));
            lemma_stack_bounded(ls, i + 1, i + 1, depth);
            lemma_bounded_concat(before, h, n);
            lemma_bounded_concat(before + h, stack(ls, i + 1, i + 1, depth), n);
        } else if "-# "@.is_prefix_of(line) {
            let h = seq![Part::Subtext(crate::markdown::inline::inlines(line.skip(3)))];
            lemma_texts_hold(line.skip(3));
            lemma_stack_bounded(ls, i + 1, i + 1, depth);
            lemma_bounded_concat(before, h, n);
            lemma_bounded_concat(before + h, stack(ls, i + 1, i + 1, depth), n);
        } else if list_line(line) is Some {
            let end = list_end(ls, i);
            let items = list_body(ls, i, end);
            assert forall|k: int| 0 <= k < items.len() implies (#[trigger] items[k]).depth
                <= MAX_DEPTH && texts_hold(items[k].content) by {
                let l = ls[i + k];
                assert(list_line(l) is Some);
                let indent = text::run_len(l, 0, l.len() as int, ' ') as int;
                if let Some((_, at)) = marker_at(l, indent) {
                    lemma_texts_hold(l.skip(at));
                }
            }
            let h = seq![Part::List(items)];
            assert(all_bounded(h, n));
            lemma_stack_bounded(ls, end, end, depth);
            lemma_bounded_concat(before, h, n);
            lemma_bounded_concat(before + h, stack(ls, end, end, depth), n);
        } else {
            lemma_stack_bounded(ls, p, i + 1, depth);
        }
    }
}

/// However the text is broken, quotes nest at most four deep, headings have a
/// level of 1 to 3, list lines a depth of at most 4, and no paragraph, no list
/// and no run of text is empty.
pub proof fn body_is_bounded(c: Seq<char>)
    ensures
        all_bounded(body(c), MAX_QUOTE as nat),
{
    lemma_pieces_bounded(c, 0, 0);
}

proof fn lemma_pieces_bounded(c: Seq<char>, p: int, i: int)
    ensures
        all_bounded(pieces(c, p, i), MAX_QUOTE as nat),
    decreases c.len() - i,
{
    let n = MAX_QUOTE as nat;
    let head = c.subrange(p, i);
    if head.len() != 0 {
        lemma_stack_bounded(text::split(head, '\n'), 0, 0, 0);
    }
    assert(all_bounded(plain_parts(head), n));
    if 0 <= i < c.len() {
        if fence_at(c, i) {
            lemma_next_fence(c, i + 3);
        }
        if fence_at(c, i) && next_fence(c, i + 3) < c.len() {
            let close = next_fence(c, i + 3);
            let code = seq![code_part(c.subrange(i + 3, close))];
            lemma_pieces_bounded(c, close + 3, close + 3);
            lemma_bounded_concat(plain_parts(head), code, n);
            lemma_bounded_concat(plain_parts(head) + code, pieces(c, close + 3, close + 3), n);
        } else {
            lemma_pieces_bounded(c, p, i + 1);
        }
    }
}

/// What stands between two fences is code whatever it holds: nothing in it is
/// read as a heading, a quote or a mark.
pub proof fn fenced_text_is_code(c: Seq<char>)
    requires
        c.len() >= 6,
        fence_at(c, 0),
        next_fence(c, 3) == c.len() - 3,
    ensures
        body(c) == seq![code_part(c.subrange(3, c.len() - 3))],
{
    let end = c.len() as int;
    assert(plain_parts(c.subrange(0, 0)) =~= seq![]);
    assert(plain_parts(c.subrange(end, end)) =~= seq![]);
    assert(pieces(c, end, end) =~= seq![]);
    assert(body(c) =~= seq![code_part(c.subrange(3, end - 3))]);
}

/// White space alone reads as nothing.
pub proof fn blank_text_is_nothing(c: Seq<char>)
    requires
        text::is_blank(c),
    ensures
        body(c) == Seq::<Part>::empty(),
{
    lemma_blank_pieces(c, 0);
}

proof fn lemma_blank_pieces(c: Seq<char>, i: int)
    requires
        text::is_blank(c),
        0 <= i <= c.len(),
    ensures
        pieces(c, 0, i) == Seq::<Part>::empty(),
    decreases c.len() - i,
{
    if i < c.len() {
        assert(text::is_space(c[i]));
        lemma_blank_pieces(c, i + 1);
    } else {
        assert(c.subrange(0, i) =~= c);
        if c.len() > 0 {
            let ls = text::split(c, '\n');
            lemma_blank_split(c);
            lemma_blank_stack(ls, 0);
        }
    }
}

proof fn lemma_blank_split(c: Seq<char>)
    requires
        text::is_blank(c),
    ensures
        forall|k: int|
            0 <= k < text::split(c, '\n').len() ==> text::is_blank(
                #[trigger] text::split(c, '\n')[k],
            ),
    decreases c.len(),
{
    let k = text::index_from(c, '\n', 0);
    text::lemma_index_from(c, '\n', 0);
    if k < c.len() {
        let rest = c.skip(k + 1);
        assert forall|j: int| 0 <= j < rest.len() implies text::is_space(#[trigger] rest[j]) by {
            assert(text::is_space(c[k + 1 + j]));
        }
        lemma_blank_split(rest);
        assert forall|j: int| 0 <= j < text::split(c, '\n').len() implies text::is_blank(
            #[trigger] text::split(c, '\n')[j],
        ) by {
            if j > 0 {
                assert(text::split(c, '\n')[j] == text::split(rest, '\n')[j - 1]);
            } else {
                assert(text::split(c, '\n')[0] == c.take(k));
            }
        }
    }
}

proof fn lemma_blank_stack(ls: Seq<Seq<char>>, i: int)
    requires
        forall|k: int| 0 <= k < ls.len() ==> text::is_blank(#[trigger] ls[k]),
        0 <= i <= ls.len(),
    ensures
        stack(ls, i, i, 0) == Seq::<Part>::empty(),
    decreases ls.len() - i,
{
    assert(ls.subrange(i, i) =~= seq![]);
    if i < ls.len() {
        lemma_blank_stack(ls, i + 1);
    }
    assert(stack(ls, i, i, 0) =~= seq![]);
}

} // verus!
