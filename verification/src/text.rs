//! Character-level helpers shared by the parsers and formatters.
//!
//! Text is read as a slice of characters, so that every index is a character
//! index and nothing can be cut in the middle of one.

use vstd::prelude::*;
use vstd::slice::slice_subrange;
use vstd::string::*;

verus! {

/// What [`char::is_alphanumeric`] answers: the Unicode properties Alphabetic
/// and Numeric, whose tables are the standard library's.
pub uninterp spec fn char_is_alphanumeric(c: char) -> bool;

/// [`char::is_alphanumeric`] depends on the character alone. Of the ASCII
/// characters the letters and the digits are alphanumeric, and no others.
pub assume_specification[ char::is_alphanumeric ](c: char) -> (r: bool)
    ensures
        r == char_is_alphanumeric(c),
        c <= '\u{7f}' ==> r == (is_ascii_letter(c) || is_digit(c)),
;

/// [`String::push`] appends the character to the end.
pub assume_specification[ String::push ](s: &mut String, c: char)
    ensures
        final(s)@ == old(s)@.push(c),
;

// ── character classes ──────────────────────────────────────────────────────

pub open spec fn is_digit(c: char) -> bool {
    '0' <= c <= '9'
}

pub open spec fn is_ascii_letter(c: char) -> bool {
    'a' <= c <= 'z' || 'A' <= c <= 'Z'
}

/// The ASCII punctuation characters.
pub open spec fn is_ascii_punct(c: char) -> bool {
    '!' <= c <= '/' || ':' <= c <= '@' || '[' <= c <= '`' || '{' <= c <= '~'
}

/// The characters with the Unicode property White_Space.
pub open spec fn is_space(c: char) -> bool {
    ||| '\u{9}' <= c <= '\u{d}'
    ||| c == ' '
    ||| c == '\u{85}'
    ||| c == '\u{a0}'
    ||| c == '\u{1680}'
    ||| '\u{2000}' <= c <= '\u{200a}'
    ||| c == '\u{2028}'
    ||| c == '\u{2029}'
    ||| c == '\u{202f}'
    ||| c == '\u{205f}'
    ||| c == '\u{3000}'
}

pub fn digit(c: char) -> (r: bool)
    ensures
        r == is_digit(c),
{
    '0' <= c && c <= '9'
}

pub fn ascii_letter(c: char) -> (r: bool)
    ensures
        r == is_ascii_letter(c),
{
    ('a' <= c && c <= 'z') || ('A' <= c && c <= 'Z')
}

pub fn ascii_punct(c: char) -> (r: bool)
    ensures
        r == is_ascii_punct(c),
{
    ('!' <= c && c <= '/') || (':' <= c && c <= '@') || ('[' <= c && c <= '`') || ('{' <= c && c
        <= '~')
}

pub fn space(c: char) -> (r: bool)
    ensures
        r == is_space(c),
{
    ('\u{9}' <= c && c <= '\u{d}') || c == ' ' || c == '\u{85}' || c == '\u{a0}' || c == '\u{1680}'
        || ('\u{2000}' <= c && c <= '\u{200a}') || c == '\u{2028}' || c == '\u{2029}' || c
        == '\u{202f}' || c == '\u{205f}' || c == '\u{3000}'
}

// ── text to characters and back ────────────────────────────────────────────

pub fn chars(s: &str) -> (r: Vec<char>)
    ensures
        r@ == s@,
{
    let mut r: Vec<char> = Vec::new();
    for c in it: s.chars()
        invariant
            r@ =~= it.seq().take(it.index()),
            it.seq() == s@,
    {
        r.push(c);
    }
    r
}

pub fn string(c: &[char]) -> (r: String)
    ensures
        r@ == c@,
{
    let mut r = String::new();
    let mut i: usize = 0;
    while i < c.len()
        invariant
            i <= c.len(),
            r@ =~= c@.take(i as int),
        decreases c.len() - i,
    {
        r.push(c[i]);
        i += 1;
    }
    r
}

pub fn owned(s: &str) -> (r: String)
    ensures
        r@ == s@,
{
    string(chars(s).as_slice())
}

pub fn copy_opt(s: &Option<String>) -> (r: Option<String>)
    ensures
        crate::model::opt_text(r) == crate::model::opt_text(*s),
{
    match s {
        Some(t) => Some(t.clone()),
        None => None,
    }
}

/// One text behind the other.
pub fn joined(a: &str, b: &str) -> (r: String)
    ensures
        r@ == a@ + b@,
{
    let mut r = owned(a);
    r.append(b);
    r
}

/// The bytes of a text in UTF-8.
pub fn bytes(s: &str) -> (r: Vec<u8>)
    ensures
        r@ == vstd::utf8::encode_utf8(s@),
{
    let b = s.as_bytes();
    let mut r: Vec<u8> = Vec::new();
    let mut i: usize = 0;
    while i < b.len()
        invariant
            i <= b@.len(),
            r@ =~= b@.take(i as int),
        decreases b@.len() - i,
    {
        r.push(b[i]);
        i += 1;
    }
    assert(r@ =~= b@);
    r
}

/// The text of `c[from..to]`.
pub fn piece(c: &[char], from: usize, to: usize) -> (r: String)
    requires
        from <= to <= c.len(),
    ensures
        r@ == c@.subrange(from as int, to as int),
{
    string(slice_subrange(c, from, to))
}

pub fn copy(c: &[char]) -> (r: Vec<char>)
    ensures
        r@ == c@,
{
    let mut r: Vec<char> = Vec::new();
    let mut i: usize = 0;
    while i < c.len()
        invariant
            i <= c.len(),
            r@ =~= c@.take(i as int),
        decreases c.len() - i,
    {
        r.push(c[i]);
        i += 1;
    }
    r
}

pub fn same(a: &[char], b: &[char]) -> (r: bool)
    ensures
        r == (a@ == b@),
{
    if a.len() != b.len() {
        return false;
    }
    let mut i: usize = 0;
    while i < a.len()
        invariant
            a.len() == b.len(),
            i <= a.len(),
            forall|k: int| 0 <= k < i ==> a@[k] == b@[k],
        decreases a.len() - i,
    {
        if a[i] != b[i] {
            assert(a@[i as int] != b@[i as int]);
            return false;
        }
        i += 1;
    }
    assert(a@ =~= b@);
    true
}

/// Whether two texts are the same, character for character.
pub fn same_text(a: &str, b: &str) -> (r: bool)
    ensures
        r == (a@ == b@),
{
    same(chars(a).as_slice(), chars(b).as_slice())
}

pub fn has_prefix(s: &[char], p: &str) -> (r: bool)
    ensures
        r == p@.is_prefix_of(s@),
{
    let p = chars(p);
    if p.len() > s.len() {
        return false;
    }
    same(p.as_slice(), slice_subrange(s, 0, p.len()))
}

// ── searching ──────────────────────────────────────────────────────────────

/// The first index at or after `from` where `ch` stands, or the length.
pub open spec fn index_from(s: Seq<char>, ch: char, from: int) -> int
    decreases s.len() - from,
{
    if from < 0 || from >= s.len() {
        s.len() as int
    } else if s[from] == ch {
        from
    } else {
        index_from(s, ch, from + 1)
    }
}

pub proof fn lemma_index_from(s: Seq<char>, ch: char, from: int)
    requires
        0 <= from <= s.len(),
    ensures
        from <= index_from(s, ch, from) <= s.len(),
        index_from(s, ch, from) < s.len() ==> s[index_from(s, ch, from)] == ch,
        forall|k: int| from <= k < index_from(s, ch, from) ==> s[k] != ch,
    decreases s.len() - from,
{
    if from < s.len() && s[from] != ch {
        lemma_index_from(s, ch, from + 1);
    }
}

pub fn find_from(s: &[char], ch: char, from: usize) -> (r: usize)
    requires
        from <= s.len(),
    ensures
        r == index_from(s@, ch, from as int),
        from <= r <= s.len(),
        r < s.len() ==> s[r as int] == ch,
{
    let mut i: usize = from;
    while i < s.len() && s[i] != ch
        invariant
            from <= i <= s.len(),
            index_from(s@, ch, from as int) == index_from(s@, ch, i as int),
        decreases s.len() - i,
    {
        i += 1;
    }
    i
}

/// How many of `ch` stand side by side from `i` on, before `limit`.
pub open spec fn run_len(s: Seq<char>, i: int, limit: int, ch: char) -> nat
    decreases limit - i,
{
    if 0 <= i < limit && s[i] == ch {
        1 + run_len(s, i + 1, limit, ch)
    } else {
        0
    }
}

pub proof fn lemma_run_len(s: Seq<char>, i: int, limit: int, ch: char)
    ensures
        0 <= i <= limit ==> i + run_len(s, i, limit, ch) <= limit,
    decreases limit - i,
{
    if 0 <= i < limit && s[i] == ch {
        lemma_run_len(s, i + 1, limit, ch);
    }
}

pub fn run_of(s: &[char], i: usize, limit: usize, ch: char) -> (n: usize)
    requires
        i <= limit <= s.len(),
    ensures
        n == run_len(s@, i as int, limit as int, ch),
        i + n <= limit,
{
    let mut k: usize = i;
    while k < limit && s[k] == ch
        invariant
            i <= k <= limit <= s.len(),
            run_len(s@, i as int, limit as int, ch) == k - i + run_len(
                s@,
                k as int,
                limit as int,
                ch,
            ),
        decreases limit - k,
    {
        k += 1;
    }
    k - i
}

/// Whether nothing but white space is written.
pub open spec fn is_blank(s: Seq<char>) -> bool {
    forall|i: int| 0 <= i < s.len() ==> is_space(#[trigger] s[i])
}

pub fn blank(s: &[char]) -> (r: bool)
    ensures
        r == is_blank(s@),
{
    let mut i: usize = 0;
    while i < s.len()
        invariant
            i <= s.len(),
            forall|k: int| 0 <= k < i ==> is_space(#[trigger] s@[k]),
        decreases s.len() - i,
    {
        if !space(s[i]) {
            assert(!is_space(s@[i as int]));
            return false;
        }
        i += 1;
    }
    true
}

/// The first index at or after `i` that is no white space, or the length.
pub open spec fn skip_spaces(s: Seq<char>, i: int) -> int
    decreases s.len() - i,
{
    if 0 <= i < s.len() && is_space(s[i]) {
        skip_spaces(s, i + 1)
    } else {
        i
    }
}

/// The end of `s` up to `end` without its trailing white space, not before
/// `from`.
pub open spec fn drop_spaces(s: Seq<char>, from: int, end: int) -> int
    decreases end - from,
{
    if from < end && is_space(s[end - 1]) {
        drop_spaces(s, from, end - 1)
    } else {
        end
    }
}

/// The text without white space around it.
pub open spec fn trim(s: Seq<char>) -> Seq<char> {
    let a = skip_spaces(s, 0);
    s.subrange(a, drop_spaces(s, a, s.len() as int))
}

/// Where the trimmed text begins and ends.
pub fn trim_bounds(s: &[char]) -> (r: (usize, usize))
    ensures
        r.0 <= r.1 <= s.len(),
        s@.subrange(r.0 as int, r.1 as int) == trim(s@),
{
    let mut a: usize = 0;
    while a < s.len() && space(s[a])
        invariant
            a <= s.len(),
            skip_spaces(s@, 0) == skip_spaces(s@, a as int),
        decreases s.len() - a,
    {
        a += 1;
    }
    let mut b: usize = s.len();
    while b > a && space(s[b - 1])
        invariant
            a <= b <= s.len(),
            drop_spaces(s@, a as int, s.len() as int) == drop_spaces(s@, a as int, b as int),
        decreases b,
    {
        b -= 1;
    }
    (a, b)
}

pub fn trimmed<'a>(s: &'a str) -> (r: &'a str)
    ensures
        r@ == trim(s@),
{
    let c = chars(s);
    let (a, b) = trim_bounds(c.as_slice());
    s.substring_char(a, b)
}

/// Trimmed text is empty exactly where there was nothing but white space.
pub proof fn trim_of_blank(s: Seq<char>)
    ensures
        trim(s).len() == 0 <==> is_blank(s),
{
    lemma_skip_spaces(s, 0);
    let a = skip_spaces(s, 0);
    lemma_drop_spaces(s, a, s.len() as int);
    if a < s.len() {
        assert(!is_space(s[a]));
    }
}

/// Trimming takes the white space around a text and nothing of the text.
pub proof fn trim_drops_the_blanks_around(before: Seq<char>, s: Seq<char>, after: Seq<char>)
    requires
        is_blank(before),
        is_blank(after),
        s.len() > 0,
        !is_space(s[0]),
        !is_space(s.last()),
    ensures
        trim(before + s + after) == s,
{
    let all = before + s + after;
    let a = before.len() as int;
    let b = a + s.len();
    lemma_skip_to(all, 0, a);
    assert(all[a] == s[0]);
    assert(all[b - 1] == s.last());
    lemma_drop_to(all, a, b, all.len() as int);
    assert(all.subrange(a, b) =~= s);
}

proof fn lemma_skip_to(s: Seq<char>, i: int, at: int)
    requires
        0 <= i <= at < s.len(),
        forall|k: int| i <= k < at ==> is_space(#[trigger] s[k]),
        !is_space(s[at]),
    ensures
        skip_spaces(s, i) == at,
    decreases at - i,
{
    if i < at {
        assert(is_space(s[i]));
        lemma_skip_to(s, i + 1, at);
    }
}

proof fn lemma_drop_to(s: Seq<char>, from: int, at: int, end: int)
    requires
        0 <= from < at <= end <= s.len(),
        forall|k: int| at <= k < end ==> is_space(#[trigger] s[k]),
        !is_space(s[at - 1]),
    ensures
        drop_spaces(s, from, end) == at,
    decreases end - at,
{
    if at < end {
        assert(is_space(s[end - 1]));
        lemma_drop_to(s, from, at, end - 1);
    }
}

proof fn lemma_skip_spaces(s: Seq<char>, i: int)
    requires
        0 <= i <= s.len(),
    ensures
        i <= skip_spaces(s, i) <= s.len(),
        forall|k: int| i <= k < skip_spaces(s, i) ==> is_space(#[trigger] s[k]),
        skip_spaces(s, i) < s.len() ==> !is_space(s[skip_spaces(s, i)]),
    decreases s.len() - i,
{
    if i < s.len() && is_space(s[i]) {
        lemma_skip_spaces(s, i + 1);
    }
}

proof fn lemma_drop_spaces(s: Seq<char>, from: int, end: int)
    requires
        0 <= from <= end <= s.len(),
        from < end ==> !is_space(s[from]),
    ensures
        from <= drop_spaces(s, from, end) <= end,
        from < end ==> from < drop_spaces(s, from, end),
    decreases end - from,
{
    if from < end && is_space(s[end - 1]) {
        lemma_drop_spaces(s, from, end - 1);
    }
}

// ── splitting and joining ──────────────────────────────────────────────────

/// The pieces between the separators; always one more than there are
/// separators.
pub open spec fn split(s: Seq<char>, sep: char) -> Seq<Seq<char>>
    decreases s.len(),
{
    let k = index_from(s, sep, 0);
    if 0 <= k < s.len() {
        seq![s.take(k)] + split(s.skip(k + 1), sep)
    } else {
        seq![s]
    }
}

/// The pieces with one separator between each two.
pub open spec fn join(parts: Seq<Seq<char>>, sep: char) -> Seq<char>
    decreases parts.len(),
{
    if parts.len() == 0 {
        seq![]
    } else if parts.len() == 1 {
        parts[0]
    } else {
        parts[0].push(sep) + join(parts.skip(1), sep)
    }
}

/// What was split and joined again is what it was.
pub proof fn split_then_join(s: Seq<char>, sep: char)
    ensures
        join(split(s, sep), sep) == s,
        split(s, sep).len() > 0,
    decreases s.len(),
{
    let k = index_from(s, sep, 0);
    lemma_index_from(s, sep, 0);
    if k < s.len() {
        let rest = s.skip(k + 1);
        split_then_join(rest, sep);
        assert(split(s, sep).skip(1) =~= split(rest, sep));
        assert(s.take(k).push(sep) + rest =~= s);
    }
}

pub open spec fn texts(v: Seq<Vec<char>>) -> Seq<Seq<char>> {
    Seq::new(v.len(), |i: int| v[i]@)
}

pub fn split_at_char(s: &[char], sep: char) -> (r: Vec<Vec<char>>)
    ensures
        texts(r@) == split(s@, sep),
{
    let mut out: Vec<Vec<char>> = Vec::new();
    let mut from: usize = 0;
    assert(s@.skip(0) =~= s@);
    assert(texts(out@) =~= seq![]);
    loop
        invariant
            from <= s.len(),
            split(s@, sep) == texts(out@) + split(s@.skip(from as int), sep),
        decreases s.len() - from,
    {
        let ghost tail = s@.skip(from as int);
        let k = find_from(s, sep, from);
        proof {
            lemma_index_from(s@, sep, from as int);
            lemma_index_from(tail, sep, 0);
            let j = index_from(tail, sep, 0);
            if j < tail.len() {
                assert(s@[from + j] == sep);
            }
            if k < s.len() {
                assert(tail[k - from] == sep);
            }
            assert(j == k - from);
        }
        let part = copy(slice_subrange(s, from, k));
        assert(part@ =~= tail.take(k - from));
        let ghost before = texts(out@);
        out.push(part);
        assert(texts(out@) =~= before.push(part@));
        if k == s.len() {
            assert(tail.take(k - from) =~= tail);
            assert(texts(out@) =~= split(s@, sep));
            return out;
        }
        assert(tail.skip(k - from + 1) =~= s@.skip(k + 1));
        assert(texts(out@) + split(s@.skip(k + 1), sep) =~= before + (seq![part@] + split(
            s@.skip(k + 1),
            sep,
        )));
        from = k + 1;
    }
}

pub open spec fn strings_of(v: Seq<String>) -> Seq<Seq<char>> {
    Seq::new(v.len(), |i: int| v[i]@)
}

/// The texts with a separator between each two.
pub open spec fn listed(parts: Seq<Seq<char>>, sep: Seq<char>) -> Seq<char>
    decreases parts.len(),
{
    if parts.len() == 0 {
        seq![]
    } else if parts.len() == 1 {
        parts[0]
    } else {
        listed(parts.drop_last(), sep) + sep + parts.last()
    }
}

/// The texts with a separator between each two.
pub fn list_all(parts: &Vec<String>, sep: &str) -> (r: String)
    ensures
        r@ == listed(strings_of(parts@), sep@),
{
    let ghost all = strings_of(parts@);
    let mut out = String::new();
    assert(out@ =~= listed(all.take(0), sep@));
    let mut i: usize = 0;
    while i < parts.len()
        invariant
            i <= parts.len(),
            all == strings_of(parts@),
            out@ == listed(all.take(i as int), sep@),
        decreases parts.len() - i,
    {
        assert(all.take(i + 1).drop_last() =~= all.take(i as int));
        assert(all.take(i + 1).last() == all[i as int]);
        if i > 0 {
            out.append(sep);
        }
        out.append(parts[i].as_str());
        proof {
            if i == 0 {
                assert(out@ =~= all[0]);
            }
        }
        i += 1;
    }
    assert(all.take(i as int) =~= all);
    out
}

// ── decimal numbers ────────────────────────────────────────────────────────

pub open spec fn digit_value(c: char) -> nat {
    (c as nat - '0' as nat) as nat
}

pub open spec fn all_digits(s: Seq<char>) -> bool {
    forall|i: int| 0 <= i < s.len() ==> is_digit(#[trigger] s[i])
}

/// The number that a run of decimal digits writes.
pub open spec fn dec_value(s: Seq<char>) -> nat
    decreases s.len(),
{
    if s.len() == 0 {
        0
    } else {
        dec_value(s.drop_last()) * 10 + digit_value(s.last())
    }
}

proof fn lemma_dec_value_grows(s: Seq<char>, n: int)
    requires
        0 <= n <= s.len(),
    ensures
        dec_value(s.take(n)) <= dec_value(s),
    decreases s.len() - n,
{
    if n < s.len() {
        lemma_dec_value_grows(s, n + 1);
        assert(s.take(n + 1).drop_last() =~= s.take(n));
    } else {
        assert(s.take(n) =~= s);
    }
}

/// The number written in decimal digits and nothing else, if it fits.
pub open spec fn number(s: Seq<char>) -> Option<u64> {
    if s.len() > 0 && all_digits(s) && dec_value(s) <= u64::MAX {
        Some(dec_value(s) as u64)
    } else {
        None
    }
}

pub fn parse_number(s: &[char]) -> (r: Option<u64>)
    ensures
        r == number(s@),
{
    if s.len() == 0 {
        return None;
    }
    let mut n: u64 = 0;
    let mut i: usize = 0;
    while i < s.len()
        invariant
            i <= s.len(),
            forall|k: int| 0 <= k < i ==> is_digit(#[trigger] s@[k]),
            n == dec_value(s@.take(i as int)),
        decreases s.len() - i,
    {
        let c = s[i];
        if !digit(c) {
            assert(!is_digit(s@[i as int]));
            return None;
        }
        let d: u64 = c as u64 - '0' as u64;
        assert(s@.take(i + 1).drop_last() =~= s@.take(i as int));
        proof {
            lemma_dec_value_grows(s@, i + 1);
        }
        if n > u64::MAX / 10 || n * 10 > u64::MAX - d {
            return None;
        }
        n = n * 10 + d;
        i += 1;
    }
    assert(s@.take(i as int) =~= s@);
    Some(n)
}

/// The signed number written by an optional sign and decimal digits, if it
/// fits.
pub open spec fn signed_number(s: Seq<char>) -> Option<i64> {
    let signed = s.len() > 0 && (s[0] == '-' || s[0] == '+');
    let digits = if signed { s.skip(1) } else { s };
    if digits.len() == 0 || !all_digits(digits) {
        None
    } else if signed && s[0] == '-' {
        if dec_value(digits) <= 0x8000_0000_0000_0000 {
            Some((-(dec_value(digits) as int)) as i64)
        } else {
            None
        }
    } else if dec_value(digits) <= i64::MAX {
        Some(dec_value(digits) as i64)
    } else {
        None
    }
}

pub fn parse_signed(s: &[char]) -> (r: Option<i64>)
    ensures
        r == signed_number(s@),
{
    let signed = s.len() > 0 && (s[0] == '-' || s[0] == '+');
    let from: usize = if signed { 1 } else { 0 };
    let digits = slice_subrange(s, from, s.len());
    assert(digits@ =~= if signed { s@.skip(1) } else { s@ });
    match parse_number(digits) {
        None => None,
        Some(n) => {
            if signed && s[0] == '-' {
                if n < 0x8000_0000_0000_0000 {
                    Some(-(n as i64))
                } else if n == 0x8000_0000_0000_0000 {
                    Some(i64::MIN)
                } else {
                    None
                }
            } else if n <= i64::MAX as u64 {
                Some(n as i64)
            } else {
                None
            }
        },
    }
}

pub open spec fn digit_char(d: nat) -> char {
    (d + '0' as nat) as char
}

/// The decimal digits of a number, without leading zeros.
pub open spec fn dec(n: nat) -> Seq<char>
    decreases n,
{
    if n < 10 {
        seq![digit_char(n)]
    } else {
        dec(n / 10).push(digit_char(n % 10))
    }
}

/// Reading back the digits of a number gives the number.
pub proof fn dec_reads_back(n: nat)
    ensures
        dec(n).len() > 0,
        all_digits(dec(n)),
        dec_value(dec(n)) == n,
    decreases n,
{
    if n < 10 {
        let one = seq![digit_char(n)];
        assert(one.drop_last() =~= Seq::<char>::empty());
        assert(dec_value(one.drop_last()) == 0);
        assert(dec_value(one) == n);
    } else {
        dec_reads_back(n / 10);
        assert(dec(n).drop_last() =~= dec(n / 10));
        assert(dec(n).last() == digit_char(n % 10));
    }
}

pub fn dec_string(n: u64) -> (r: String)
    ensures
        r@ == dec(n as nat),
    decreases n,
{
    let d: u8 = (n % 10) as u8;
    let c: char = (d + 48) as char;
    let mut s = if n < 10 { String::new() } else { dec_string(n / 10) };
    s.push(c);
    s
}

} // verus!
