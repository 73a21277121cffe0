//! What is written in a message, and what it reads as: every notation, for
//! everything that can be written in it.

use vstd::prelude::*;
use crate::markdown::block::{
    body, digits_len, fence_at, heading_line, lemma_list_end, lemma_quote_end, list_body, list_end,
    list_line, next_fence, paragraph, pieces, plain_parts, quote_body, quote_end, quoted_line,
    stack, MAX_QUOTE,
};
use crate::markdown::inline::{
    angle_at, angle_kind, bare_at, close_after, close_of, code_at, find, first_mark, gathered,
    inlines, marks, masked_at, mention_at, opened, plain_text_stays, spans, special,
    text_never_vanishes, token, unpadded, url_shaped, without_trailing, word_char, word_end, Token,
};
use crate::markdown::model::{Entry, Kind, Marker, Mention, Part, Span};
use crate::text;

verus! {

// ── pieces of text ─────────────────────────────────────────────────────────

/// As many spaces.
pub open spec fn spaces(n: nat) -> Seq<char> {
    Seq::new(n, |i: int| ' ')
}

/// The same character so many times.
pub open spec fn repeated(ch: char, n: nat) -> Seq<char> {
    Seq::new(n, |i: int| ch)
}

/// Whether `part` stands in `c` at `i`.
pub open spec fn stands_at(c: Seq<char>, i: int, part: Seq<char>) -> bool {
    0 <= i && i + part.len() <= c.len() && c.subrange(i, i + part.len()) == part
}

proof fn lemma_stands(c: Seq<char>, i: int, part: Seq<char>, k: int)
    requires
        stands_at(c, i, part),
        0 <= k < part.len(),
    ensures
        c[i + k] == part[k],
{
    assert(c.subrange(i, i + part.len())[k] == c[i + k]);
}

/// Whether what stands at `i` reads as one thing, after which reading goes on at
/// `next`.
pub open spec fn reads_as(c: Seq<char>, i: int, limit: int, deco: u8, kind: Kind, next: int) -> bool {
    forall|buf: Seq<char>| #[trigger]
        spans(c, i, limit, deco, buf) == gathered(buf, deco) + seq![Span { deco, kind }] + spans(
            c,
            next,
            limit,
            deco,
            seq![],
        )
}

proof fn lemma_reads(c: Seq<char>, i: int, limit: int, deco: u8, kind: Kind, next: int)
    requires
        0 <= i < limit <= c.len(),
        token(c, i, limit, deco) == Token::Whole(kind, next),
    ensures
        reads_as(c, i, limit, deco, kind, next),
{
    assert forall|buf: Seq<char>| #[trigger]
        spans(c, i, limit, deco, buf) == gathered(buf, deco) + seq![Span { deco, kind }] + spans(
            c,
            next,
            limit,
            deco,
            seq![],
        ) by {
        crate::markdown::inline::token_moves_on(c, i, limit, deco);
    }
}

proof fn lemma_find(c: Seq<char>, i: int, limit: int, ch: char, at: int)
    requires
        0 <= i <= at < limit <= c.len(),
        c[at] == ch,
        ch != '\\',
        ch != '`',
        forall|k: int| i <= k < at ==> (#[trigger] c[k]) != ch && c[k] != '`' && c[k] != '\\',
    ensures
        find(c, i, limit, ch, 1) == Some(at),
    decreases at - i,
{
    if i < at {
        assert(c[i] != ch);
        lemma_find(c, i + 1, limit, ch, at);
    } else {
        assert(text::run_len(c, i, limit, ch) >= 1);
    }
}

proof fn lemma_digits(n: nat)
    ensures
        text::dec(n).len() > 0,
        forall|k: int| 0 <= k < text::dec(n).len() ==> '0' <= #[trigger] text::dec(n)[k] <= '9',
        text::dec_value(text::dec(n)) == n,
        n <= u64::MAX ==> text::number(text::dec(n)) == Some(n as u64),
{
    text::dec_reads_back(n);
    assert forall|k: int| 0 <= k < text::dec(n).len() implies '0' <= #[trigger] text::dec(n)[k]
        <= '9' by {
        assert(text::is_digit(text::dec(n)[k]));
    }
}

// ── between angle brackets ─────────────────────────────────────────────────

/// What stands between angle brackets, without anything that could end or hide
/// it.
spec fn bracketed(inner: Seq<char>) -> Seq<char> {
    seq!['<'] + inner + seq!['>']
}

proof fn lemma_bracketed(c: Seq<char>, i: int, limit: int, deco: u8, inner: Seq<char>, kind: Kind)
    requires
        stands_at(c, i, bracketed(inner)),
        i + inner.len() + 2 <= limit <= c.len(),
        forall|k: int|
            0 <= k < inner.len() ==> (#[trigger] inner[k]) != '>' && inner[k] != '`' && inner[k]
                != '\\',
        angle_kind(inner) == Some(kind),
    ensures
        reads_as(c, i, limit, deco, kind, i + inner.len() + 2),
{
    let all = bracketed(inner);
    let n = inner.len() as int;
    lemma_stands(c, i, all, 0);
    lemma_stands(c, i, all, n + 1);
    assert forall|k: int| i + 1 <= k < i + 1 + n implies (#[trigger] c[k]) != '>' && c[k] != '`'
        && c[k] != '\\' by {
        lemma_stands(c, i, all, k - i);
        assert(all[k - i] == inner[k - i - 1]);
    }
    lemma_find(c, i + 1, limit, '>', i + 1 + n);
    assert(c.subrange(i + 1, i + 1 + n) =~= inner) by {
        assert forall|k: int| 0 <= k < n implies c.subrange(i + 1, i + 1 + n)[k] == inner[k] by {
            lemma_stands(c, i, all, k + 1);
            assert(all[k + 1] == inner[k]);
        }
    }
    assert(angle_at(c, i, limit) == Some((kind, i + n + 2)));
    lemma_reads(c, i, limit, deco, kind, i + n + 2);
}

/// `<@n>` and `<@!n>` mention the user `n`, `<@&n>` the role and `<#n>` the
/// channel, whatever stands around them.
pub proof fn mentions_are_read(c: Seq<char>, i: int, limit: int, deco: u8, n: u64)
    requires
        limit <= c.len(),
    ensures
        ({
            let d = text::dec(n as nat);
            let user = seq!['<', '@'] + d + seq!['>'];
            let nick = seq!['<', '@', '!'] + d + seq!['>'];
            let role = seq!['<', '@', '&'] + d + seq!['>'];
            let channel = seq!['<', '#'] + d + seq!['>'];
            &&& stands_at(c, i, user) && i + user.len() <= limit ==> reads_as(
                c,
                i,
                limit,
                deco,
                Kind::Mention(Mention::User(n)),
                i + user.len(),
            )
            &&& stands_at(c, i, nick) && i + nick.len() <= limit ==> reads_as(
                c,
                i,
                limit,
                deco,
                Kind::Mention(Mention::User(n)),
                i + nick.len(),
            )
            &&& stands_at(c, i, role) && i + role.len() <= limit ==> reads_as(
                c,
                i,
                limit,
                deco,
                Kind::Mention(Mention::Role(n)),
                i + role.len(),
            )
            &&& stands_at(c, i, channel) && i + channel.len() <= limit ==> reads_as(
                c,
                i,
                limit,
                deco,
                Kind::Mention(Mention::Channel(n)),
                i + channel.len(),
            )
        }),
{
    let d = text::dec(n as nat);
    lemma_digits(n as nat);
    reveal_strlit("@&");
    reveal_strlit("@!");
    reveal_strlit("@");
    reveal_strlit("#");
    let user = seq!['@'] + d;
    assert(user.skip(1) =~= d);
    assert(user[1] == d[0]);
    assert(bracketed(user) =~= seq!['<', '@'] + d + seq!['>']);
    let nick = seq!['@', '!'] + d;
    assert(nick.skip(2) =~= d);
    assert(bracketed(nick) =~= seq!['<', '@', '!'] + d + seq!['>']);
    let role = seq!['@', '&'] + d;
    assert(role.skip(2) =~= d);
    assert(bracketed(role) =~= seq!['<', '@', '&'] + d + seq!['>']);
    let channel = seq!['#'] + d;
    assert(channel.skip(1) =~= d);
    assert(channel[0] == '#');
    assert(bracketed(channel) =~= seq!['<', '#'] + d + seq!['>']);
    assert(!"@&"@.is_prefix_of(user)) by {
        if "@&"@.is_prefix_of(user) {
            assert(user[1] == "@&"@[1]);
        }
    }
    assert(!"@!"@.is_prefix_of(user)) by {
        if "@!"@.is_prefix_of(user) {
            assert(user[1] == "@!"@[1]);
        }
    }
    assert("@"@.is_prefix_of(user)) by {
        assert("@"@ =~= user.take(1));
    }
    assert(!"@&"@.is_prefix_of(nick)) by {
        if "@&"@.is_prefix_of(nick) {
            assert(nick[1] == "@&"@[1]);
        }
    }
    assert("@!"@.is_prefix_of(nick)) by {
        assert("@!"@ =~= nick.take(2));
    }
    assert("@&"@.is_prefix_of(role)) by {
        assert("@&"@ =~= role.take(2));
    }
    assert("#"@.is_prefix_of(channel)) by {
        assert("#"@ =~= channel.take(1));
    }
    assert(!"@&"@.is_prefix_of(channel) && !"@!"@.is_prefix_of(channel) && !"@"@.is_prefix_of(
        channel,
    )) by {
        if "@&"@.is_prefix_of(channel) {
            assert(channel[0] == "@&"@[0]);
        }
        if "@!"@.is_prefix_of(channel) {
            assert(channel[0] == "@!"@[0]);
        }
        if "@"@.is_prefix_of(channel) {
            assert(channel[0] == "@"@[0]);
        }
    }
    if stands_at(c, i, bracketed(user)) && i + user.len() + 2 <= limit {
        lemma_bracketed(c, i, limit, deco, user, Kind::Mention(Mention::User(n)));
    }
    if stands_at(c, i, bracketed(nick)) && i + nick.len() + 2 <= limit {
        lemma_bracketed(c, i, limit, deco, nick, Kind::Mention(Mention::User(n)));
    }
    if stands_at(c, i, bracketed(role)) && i + role.len() + 2 <= limit {
        lemma_bracketed(c, i, limit, deco, role, Kind::Mention(Mention::Role(n)));
    }
    if stands_at(c, i, bracketed(channel)) && i + channel.len() + 2 <= limit {
        lemma_bracketed(c, i, limit, deco, channel, Kind::Mention(Mention::Channel(n)));
    }
}

/// `<:name:n>` is a picture with that name and number, `<a:name:n>` one that
/// moves.
pub proof fn emoji_are_read(
    c: Seq<char>,
    i: int,
    limit: int,
    deco: u8,
    name: Seq<char>,
    n: u64,
)
    requires
        limit <= c.len(),
        name.len() > 0,
        forall|k: int|
            0 <= k < name.len() ==> {
                let ch = #[trigger] name[k];
                word_char(ch) && ch != '>' && ch != '`' && ch != '\\' && ch != ':'
            },
    ensures
        ({
            let tail = name + seq![':'] + text::dec(n as nat) + seq!['>'];
            let still = seq!['<', ':'] + tail;
            let moving = seq!['<', 'a', ':'] + tail;
            &&& stands_at(c, i, still) && i + still.len() <= limit ==> reads_as(
                c,
                i,
                limit,
                deco,
                Kind::Emoji { name, id: n, animated: false },
                i + still.len(),
            )
            &&& stands_at(c, i, moving) && i + moving.len() <= limit ==> reads_as(
                c,
                i,
                limit,
                deco,
                Kind::Emoji { name, id: n, animated: true },
                i + moving.len(),
            )
        }),
{
    let d = text::dec(n as nat);
    lemma_digits(n as nat);
    lemma_angle_heads();
    let rest = name + seq![':'] + d;
    let k = name.len() as int;
    assert forall|j: int| 0 <= j < k implies rest[j] != ':' by {
        assert(rest[j] == name[j]);
    }
    assert(rest[k] == ':');
    text::lemma_index_from(rest, ':', 0);
    assert(text::index_from(rest, ':', 0) == k);
    assert(rest.take(k) =~= name);
    assert(rest.skip(k + 1) =~= d);
    let still = seq![':'] + rest;
    let moving = seq!['a', ':'] + rest;
    assert forall|j: int| 0 <= j < still.len() implies (#[trigger] still[j]) != '>' && still[j] != '`'
        && still[j] != '\\' by {
        if 1 <= j < 1 + k {
            assert(still[j] == name[j - 1]);
        } else if j > 1 + k {
            assert(still[j] == d[j - 2 - k]);
        }
    }
    assert forall|j: int| 0 <= j < moving.len() implies (#[trigger] moving[j]) != '>' && moving[j]
        != '`' && moving[j] != '\\' by {
        if 2 <= j < 2 + k {
            assert(moving[j] == name[j - 2]);
        } else if j > 2 + k {
            assert(moving[j] == d[j - 3 - k]);
        }
    }
    assert(still.skip(1) =~= rest);
    assert(moving.skip(2) =~= rest);
    assert(still.take(1) =~= seq![':']);
    assert(moving.take(2) =~= seq!['a', ':']);
    assert(still[0] == ':');
    assert(moving[0] == 'a');
    let tail = name + seq![':'] + d + seq!['>'];
    assert(bracketed(still) =~= seq!['<', ':'] + tail);
    assert(bracketed(moving) =~= seq!['<', 'a', ':'] + tail);
    if stands_at(c, i, bracketed(still)) && i + still.len() + 2 <= limit {
        lemma_bracketed(
            c,
            i,
            limit,
            deco,
            still,
            Kind::Emoji { name, id: n, animated: false },
        );
    }
    if stands_at(c, i, bracketed(moving)) && i + moving.len() + 2 <= limit {
        lemma_bracketed(
            c,
            i,
            limit,
            deco,
            moving,
            Kind::Emoji { name, id: n, animated: true },
        );
    }
}

/// How what is between angle brackets is told apart by its first characters.
proof fn lemma_angle_heads()
    ensures
        forall|s: Seq<char>| s.len() > 0 && s[0] != '@' ==> !(#[trigger] "@&"@.is_prefix_of(s)),
        forall|s: Seq<char>| s.len() > 0 && s[0] != '@' ==> !(#[trigger] "@!"@.is_prefix_of(s)),
        forall|s: Seq<char>| s.len() > 0 && s[0] != '@' ==> !(#[trigger] "@"@.is_prefix_of(s)),
        forall|s: Seq<char>| s.len() > 0 && s[0] != '#' ==> !(#[trigger] "#"@.is_prefix_of(s)),
        forall|s: Seq<char>| s.len() > 0 && s[0] != 't' ==> !(#[trigger] "t:"@.is_prefix_of(s)),
        forall|s: Seq<char>| s.len() > 0 && s[0] != 'a' ==> !(#[trigger] "a:"@.is_prefix_of(s)),
        forall|s: Seq<char>| s.len() > 0 && s[0] != ':' ==> !(#[trigger] ":"@.is_prefix_of(s)),
        "a:"@ == seq!['a', ':'],
        ":"@ == seq![':'],
        "t:"@ == seq!['t', ':'],
{
    reveal_strlit("@&");
    reveal_strlit("@!");
    reveal_strlit("@");
    reveal_strlit("#");
    reveal_strlit("t:");
    reveal_strlit("a:");
    reveal_strlit(":");
    assert("a:"@ =~= seq!['a', ':']);
    assert(":"@ =~= seq![':']);
    assert("t:"@ =~= seq!['t', ':']);
    assert forall|s: Seq<char>| s.len() > 0 && s[0] != '@' implies !(#[trigger] "@&"@.is_prefix_of(
        s,
    )) by {
        if "@&"@.is_prefix_of(s) {
            assert(s[0] == "@&"@[0]);
        }
    }
    assert forall|s: Seq<char>| s.len() > 0 && s[0] != '@' implies !(#[trigger] "@!"@.is_prefix_of(
        s,
    )) by {
        if "@!"@.is_prefix_of(s) {
            assert(s[0] == "@!"@[0]);
        }
    }
    assert forall|s: Seq<char>| s.len() > 0 && s[0] != '@' implies !(#[trigger] "@"@.is_prefix_of(
        s,
    )) by {
        if "@"@.is_prefix_of(s) {
            assert(s[0] == "@"@[0]);
        }
    }
    assert forall|s: Seq<char>| s.len() > 0 && s[0] != '#' implies !(#[trigger] "#"@.is_prefix_of(
        s,
    )) by {
        if "#"@.is_prefix_of(s) {
            assert(s[0] == "#"@[0]);
        }
    }
    assert forall|s: Seq<char>| s.len() > 0 && s[0] != 't' implies !(#[trigger] "t:"@.is_prefix_of(
        s,
    )) by {
        if "t:"@.is_prefix_of(s) {
            assert(s[0] == "t:"@[0]);
        }
    }
    assert forall|s: Seq<char>| s.len() > 0 && s[0] != 'a' implies !(#[trigger] "a:"@.is_prefix_of(
        s,
    )) by {
        if "a:"@.is_prefix_of(s) {
            assert(s[0] == "a:"@[0]);
        }
    }
    assert forall|s: Seq<char>| s.len() > 0 && s[0] != ':' implies !(#[trigger] ":"@.is_prefix_of(
        s,
    )) by {
        if ":"@.is_prefix_of(s) {
            assert(s[0] == ":"@[0]);
        }
    }
}

/// A number as it is written, with its sign.
pub open spec fn signed_dec(n: int) -> Seq<char> {
    if n < 0 {
        seq!['-'] + text::dec((-n) as nat)
    } else {
        text::dec(n as nat)
    }
}

proof fn lemma_signed(n: i64)
    ensures
        text::signed_number(signed_dec(n as int)) == Some(n),
        forall|k: int|
            0 <= k < signed_dec(n as int).len() ==> {
                let ch = #[trigger] signed_dec(n as int)[k];
                ch == '-' || '0' <= ch <= '9'
            },
{
    let s = signed_dec(n as int);
    if n < 0 {
        let d = text::dec((-(n as int)) as nat);
        lemma_digits((-(n as int)) as nat);
        assert(s.skip(1) =~= d);
        assert forall|k: int| 0 <= k < d.len() implies text::is_digit(#[trigger] d[k]) by {}
        assert forall|k: int| 0 <= k < s.len() implies ({
            let ch = #[trigger] s[k];
            ch == '-' || '0' <= ch <= '9'
        }) by {
            if k > 0 {
                assert(s[k] == d[k - 1]);
            }
        }
    } else {
        lemma_digits(n as nat);
        assert forall|k: int| 0 <= k < s.len() implies text::is_digit(#[trigger] s[k]) by {}
        assert('0' <= s[0] <= '9');
    }
}

/// `<t:n>` is the moment `n` in the long form, `<t:n:X>` in the form `X`, for
/// every moment and every form there is.
pub proof fn timestamps_are_read(
    c: Seq<char>,
    i: int,
    limit: int,
    deco: u8,
    n: i64,
    form: char,
)
    requires
        limit <= c.len(),
        form == 't' || form == 'T' || form == 'd' || form == 'D' || form == 'f' || form == 'F'
            || form == 'R',
    ensures
        ({
            let bare = seq!['<', 't', ':'] + signed_dec(n as int) + seq!['>'];
            let formed = seq!['<', 't', ':'] + signed_dec(n as int) + seq![':', form, '>'];
            &&& stands_at(c, i, bare) && i + bare.len() <= limit ==> reads_as(
                c,
                i,
                limit,
                deco,
                Kind::Timestamp { at: n, format: 'f' },
                i + bare.len(),
            )
            &&& stands_at(c, i, formed) && i + formed.len() <= limit ==> reads_as(
                c,
                i,
                limit,
                deco,
                Kind::Timestamp { at: n, format: form },
                i + formed.len(),
            )
        }),
{
    let d = signed_dec(n as int);
    lemma_signed(n);
    lemma_angle_heads();
    let k = d.len() as int;
    let bare = seq!['t', ':'] + d;
    let formed = seq!['t', ':'] + d + seq![':', form];
    assert forall|j: int| 0 <= j < k implies d[j] != ':' by {}
    text::lemma_index_from(d, ':', 0);
    assert(text::index_from(d, ':', 0) == k) by {
        if text::index_from(d, ':', 0) < k {
            assert(d[text::index_from(d, ':', 0)] != ':');
        }
    }
    let r = d + seq![':', form];
    assert forall|j: int| 0 <= j < k implies r[j] != ':' by {
        assert(r[j] == d[j]);
    }
    assert(r[k] == ':');
    text::lemma_index_from(r, ':', 0);
    assert(text::index_from(r, ':', 0) == k);
    assert(r.take(k) =~= d);
    assert(d.take(k) =~= d);
    assert(r[k + 1] == form);
    assert(bare.skip(2) =~= d);
    assert(formed.skip(2) =~= r);
    assert(bare.take(2) =~= seq!['t', ':']);
    assert(formed.take(2) =~= seq!['t', ':']);
    assert(bare[0] == 't' && formed[0] == 't');
    assert forall|j: int| 0 <= j < bare.len() implies (#[trigger] bare[j]) != '>' && bare[j] != '`'
        && bare[j] != '\\' by {
        if j >= 2 {
            assert(bare[j] == d[j - 2]);
        }
    }
    assert forall|j: int| 0 <= j < formed.len() implies (#[trigger] formed[j]) != '>' && formed[j]
        != '`' && formed[j] != '\\' by {
        if 2 <= j < 2 + k {
            assert(formed[j] == d[j - 2]);
        }
    }
    assert(bracketed(bare) =~= seq!['<', 't', ':'] + d + seq!['>']);
    assert(bracketed(formed) =~= seq!['<', 't', ':'] + d + seq![':', form, '>']);
    if stands_at(c, i, bracketed(bare)) && i + bare.len() + 2 <= limit {
        lemma_bracketed(c, i, limit, deco, bare, Kind::Timestamp { at: n, format: 'f' });
    }
    if stands_at(c, i, bracketed(formed)) && i + formed.len() + 2 <= limit {
        lemma_bracketed(c, i, limit, deco, formed, Kind::Timestamp { at: n, format: form });
    }
}

/// `@everyone` and `@here` call, wherever they stand.
pub proof fn calls_to_all_are_read(c: Seq<char>, i: int, limit: int, deco: u8)
    requires
        limit <= c.len(),
    ensures
        stands_at(c, i, seq!['@', 'e', 'v', 'e', 'r', 'y', 'o', 'n', 'e']) && i + 9 <= limit
            ==> reads_as(c, i, limit, deco, Kind::Mention(Mention::Everyone), i + 9),
        stands_at(c, i, seq!['@', 'h', 'e', 'r', 'e']) && i + 5 <= limit ==> reads_as(
            c,
            i,
            limit,
            deco,
            Kind::Mention(Mention::Here),
            i + 5,
        ),
{
    reveal_strlit("@everyone");
    reveal_strlit("@here");
    let all = seq!['@', 'e', 'v', 'e', 'r', 'y', 'o', 'n', 'e'];
    let here = seq!['@', 'h', 'e', 'r', 'e'];
    assert("@everyone"@ =~= all);
    assert("@here"@ =~= here);
    if stands_at(c, i, all) && i + 9 <= limit {
        lemma_stands(c, i, all, 0);
        assert(c.subrange(i, limit).take(9) =~= c.subrange(i, i + 9));
        assert(all.is_prefix_of(c.subrange(i, limit)));
        assert(mention_at(c, i, limit) == Some((Kind::Mention(Mention::Everyone), i + 9)));
        lemma_reads(c, i, limit, deco, Kind::Mention(Mention::Everyone), i + 9);
    }
    if stands_at(c, i, here) && i + 5 <= limit {
        lemma_stands(c, i, here, 0);
        lemma_stands(c, i, here, 1);
        let rest = c.subrange(i, limit);
        assert(rest.take(5) =~= c.subrange(i, i + 5));
        assert(here.is_prefix_of(rest));
        assert(!all.is_prefix_of(rest)) by {
            if all.is_prefix_of(rest) {
                assert(rest[1] == all[1]);
                assert(rest[1] == c[i + 1]);
            }
        }
        assert(mention_at(c, i, limit) == Some((Kind::Mention(Mention::Here), i + 5)));
        lemma_reads(c, i, limit, deco, Kind::Mention(Mention::Here), i + 5);
    }
}

// ── links ──────────────────────────────────────────────────────────────────

/// A URL: a scheme, and something that is no slash behind it.
pub open spec fn a_url(secure: bool, rest: Seq<char>) -> Seq<char> {
    if secure {
        seq!['h', 't', 't', 'p', 's', ':', '/', '/'] + rest
    } else {
        seq!['h', 't', 't', 'p', ':', '/', '/'] + rest
    }
}

proof fn lemma_url(secure: bool, rest: Seq<char>)
    requires
        rest.len() > 0,
        rest[0] != '/',
    ensures
        url_shaped(a_url(secure, rest)),
{
    reveal_strlit("https://");
    reveal_strlit("http://");
    let u = a_url(secure, rest);
    if secure {
        assert("https://"@ =~= u.take(8));
        assert(u.skip(8) =~= rest);
    } else {
        assert("http://"@ =~= u.take(7));
        assert(u.skip(7) =~= rest);
        assert(!"https://"@.is_prefix_of(u)) by {
            if "https://"@.is_prefix_of(u) {
                assert(u[4] == "https://"@[4]);
            }
        }
    }
}

/// `[label](url)` is a link with that label and that URL.
pub proof fn masked_links_are_read(
    c: Seq<char>,
    i: int,
    limit: int,
    deco: u8,
    label: Seq<char>,
    secure: bool,
    rest: Seq<char>,
)
    requires
        limit <= c.len(),
        label.len() > 0,
        forall|k: int|
            0 <= k < label.len() ==> (#[trigger] label[k]) != ']' && label[k] != '`' && label[k]
                != '\\',
        rest.len() > 0,
        rest[0] != '/',
        forall|k: int|
            0 <= k < rest.len() ==> (#[trigger] rest[k]) != ')' && rest[k] != '`' && rest[k]
                != '\\',
        ({
            let written = seq!['['] + label + seq![']', '('] + a_url(secure, rest) + seq![')'];
            stands_at(c, i, written) && i + written.len() <= limit
        }),
    ensures
        reads_as(
            c,
            i,
            limit,
            deco,
            Kind::Link { url: a_url(secure, rest), label: Some(label) },
            i + label.len() + a_url(secure, rest).len() + 4,
        ),
{
    let u = a_url(secure, rest);
    let w = seq!['['] + label + seq![']', '('] + u + seq![')'];
    let a = label.len() as int;
    let b = u.len() as int;
    lemma_url(secure, rest);
    lemma_stands(c, i, w, 0);
    lemma_stands(c, i, w, a + 1);
    lemma_stands(c, i, w, a + 2);
    lemma_stands(c, i, w, a + b + 3);
    assert(w[a + b + 3] == ')');
    assert forall|k: int| i + 1 <= k < i + 1 + a implies (#[trigger] c[k]) != ']' && c[k] != '`'
        && c[k] != '\\' by {
        lemma_stands(c, i, w, k - i);
        assert(w[k - i] == label[k - i - 1]);
    }
    let rb = i + 1 + a;
    lemma_find(c, i + 1, limit, ']', rb);
    let head = b - rest.len();
    assert forall|k: int| rb + 2 <= k < rb + 2 + b implies (#[trigger] c[k]) != ')' && c[k] != '`'
        && c[k] != '\\' by {
        lemma_stands(c, i, w, k - i);
        let j = k - rb - 2;
        assert(w[k - i] == u[j]);
        if j >= head {
            assert(u[j] == rest[j - head]);
        }
    }
    lemma_find(c, rb + 2, limit, ')', rb + 2 + b);
    assert(c.subrange(rb + 2, rb + 2 + b) =~= u) by {
        assert forall|k: int| 0 <= k < b implies c.subrange(rb + 2, rb + 2 + b)[k] == u[k] by {
            lemma_stands(c, i, w, k + a + 3);
            assert(w[k + a + 3] == u[k]);
        }
    }
    assert(c.subrange(i + 1, rb) =~= label) by {
        assert forall|k: int| 0 <= k < a implies c.subrange(i + 1, rb)[k] == label[k] by {
            lemma_stands(c, i, w, k + 1);
            assert(w[k + 1] == label[k]);
        }
    }
    let kind = Kind::Link { url: u, label: Some(label) };
    assert(masked_at(c, i, limit) == Some((kind, i + a + b + 4)));
    lemma_reads(c, i, limit, deco, kind, i + a + b + 4);
}

/// `<url>` and a URL written out are links that show themselves. One written
/// out ends before white space, and before what ends a sentence.
#[verifier::spinoff_prover]
#[verifier::rlimit(60)]
pub proof fn bare_links_are_read(
    c: Seq<char>,
    i: int,
    limit: int,
    deco: u8,
    secure: bool,
    rest: Seq<char>,
    dots: nat,
)
    requires
        limit <= c.len(),
        rest.len() > 0,
        rest[0] != '/',
        forall|k: int|
            0 <= k < rest.len() ==> {
                let ch = #[trigger] rest[k];
                &&& !text::is_space(ch)
                &&& ch != '<' && ch != '>' && ch != '`' && ch != '\\'
            },
        '0' <= rest.last() <= '9' || 'a' <= rest.last() <= 'z' || rest.last() == '/',
    ensures
        ({
            let u = a_url(secure, rest);
            &&& stands_at(c, i, seq!['<'] + u + seq!['>']) && i + u.len() + 2 <= limit ==> reads_as(
                c,
                i,
                limit,
                deco,
                Kind::Link { url: u, label: None },
                i + u.len() + 2,
            )
            &&& stands_at(c, i, u + repeated('.', dots)) && i + u.len() + dots <= limit && (i
                + u.len() + dots == limit || text::is_space(c[i + u.len() + dots])) && (i == 0
                || !word_char(c[i - 1])) ==> reads_as(
                c,
                i,
                limit,
                deco,
                Kind::Link { url: u, label: None },
                i + u.len(),
            )
        }),
{
    let u = a_url(secure, rest);
    let kind = Kind::Link { url: u, label: None };
    let b = u.len() as int;
    let head = b - rest.len();
    lemma_url(secure, rest);
    lemma_angle_heads();
    assert(u[0] == 'h');
    assert forall|k: int| 0 <= k < b implies !text::is_space(#[trigger] u[k]) && u[k] != '<' && u[k]
        != '>' && u[k] != '`' && u[k] != '\\' by {
        if k >= head {
            assert(u[k] == rest[k - head]);
        }
    }
    assert(angle_kind(u) == Some(kind));
    if stands_at(c, i, bracketed(u)) && i + b + 2 <= limit {
        lemma_bracketed(c, i, limit, deco, u, kind);
    }
    let w = u + repeated('.', dots);
    if stands_at(c, i, w) && i + b + dots <= limit && (i + b + dots == limit || text::is_space(
        c[i + b + dots],
    )) && (i == 0 || !word_char(c[i - 1])) {
        assert forall|k: int| i <= k < i + b + dots implies !text::is_space(#[trigger] c[k]) && c[k]
            != '<' by {
            lemma_stands(c, i, w, k - i);
            if k < i + b {
                assert(w[k - i] == u[k - i]);
            } else {
                assert(w[k - i] == '.');
            }
        }
        lemma_word(c, i, limit, i + b + dots);
        assert forall|k: int| i + b <= k < i + b + dots implies #[trigger] c[k] == '.' by {
            lemma_stands(c, i, w, k - i);
        }
        lemma_stands(c, i, w, b - 1);
        assert(w[b - 1] == u[b - 1]);
        assert(u[b - 1] == rest.last());
        lemma_dots(c, i, i + b, i + b + dots);
        assert(c.subrange(i, i + b) =~= u) by {
            assert forall|k: int| 0 <= k < b implies c.subrange(i, i + b)[k] == u[k] by {
                lemma_stands(c, i, w, k);
                assert(w[k] == u[k]);
            }
        }
        lemma_stands(c, i, w, 0);
        assert(w[0] == u[0]);
        assert(bare_at(c, i, limit) == Some((kind, i + b)));
        lemma_reads(c, i, limit, deco, kind, i + b);
    }
}

proof fn lemma_word(c: Seq<char>, i: int, limit: int, end: int)
    requires
        0 <= i <= end <= limit <= c.len(),
        forall|k: int| i <= k < end ==> !text::is_space(#[trigger] c[k]) && c[k] != '<',
        end == limit || text::is_space(c[end]),
    ensures
        word_end(c, i, limit) == end,
    decreases end - i,
{
    if i < end {
        assert(!text::is_space(c[i]));
        lemma_word(c, i + 1, limit, end);
    }
}

proof fn lemma_dots(c: Seq<char>, i: int, at: int, end: int)
    requires
        0 <= i < at <= end <= c.len(),
        forall|k: int| at <= k < end ==> #[trigger] c[k] == '.',
        '0' <= c[at - 1] <= '9' || 'a' <= c[at - 1] <= 'z' || c[at - 1] == '/',
    ensures
        without_trailing(c, i, end) == at,
    decreases end - at,
{
    if at < end {
        assert(c[end - 1] == '.');
        lemma_dots(c, i, at, end - 1);
    }
}

// ── code and escapes ───────────────────────────────────────────────────────

proof fn lemma_run(c: Seq<char>, i: int, limit: int, ch: char, n: nat)
    requires
        0 <= i,
        i + n <= limit <= c.len(),
        forall|k: int| i <= k < i + n ==> #[trigger] c[k] == ch,
        i + n == limit || c[i + n] != ch,
    ensures
        text::run_len(c, i, limit, ch) == n,
    decreases n,
{
    if n > 0 {
        assert(c[i] == ch);
        lemma_run(c, i + 1, limit, ch, (n - 1) as nat);
    }
}

proof fn lemma_find_ticks(c: Seq<char>, i: int, limit: int, n: nat, at: int)
    requires
        0 <= i <= at,
        n >= 1,
        at + n <= limit <= c.len(),
        forall|k: int| i <= k < at ==> (#[trigger] c[k]) != '`' && c[k] != '\\',
        forall|k: int| at <= k < at + n ==> #[trigger] c[k] == '`',
        at + n == limit || c[at + n] != '`',
    ensures
        find(c, i, limit, '`', n) == Some(at),
    decreases at - i,
{
    if i < at {
        assert(c[i] != '`');
        lemma_find_ticks(c, i + 1, limit, n, at);
    } else {
        assert(c[at] == '`');
        lemma_run(c, at, limit, '`', n);
    }
}

/// Code between one or two back-ticks comes out as it was written; a space on
/// either side is taken for padding where there is one on both.
pub proof fn code_is_read(
    c: Seq<char>,
    i: int,
    limit: int,
    deco: u8,
    n: nat,
    code: Seq<char>,
    padded: bool,
)
    requires
        limit <= c.len(),
        n == 1 || n == 2,
        code.len() > 0,
        forall|k: int| 0 <= k < code.len() ==> (#[trigger] code[k]) != '`' && code[k] != '\\',
        !padded ==> code[0] != ' ' || code.last() != ' ' || code.len() == 1,
        ({
            let inner = if padded {
                seq![' '] + code + seq![' ']
            } else {
                code
            };
            let w = repeated('`', n) + inner + repeated('`', n);
            stands_at(c, i, w) && i + w.len() <= limit && (i + w.len() == limit || c[i + w.len()]
                != '`')
        }),
    ensures
        reads_as(
            c,
            i,
            limit,
            deco,
            Kind::Code(code),
            i + 2 * n + code.len() + if padded {
                2int
            } else {
                0
            },
        ),
{
    let inner = if padded {
        seq![' '] + code + seq![' ']
    } else {
        code
    };
    let m = inner.len() as int;
    let w = repeated('`', n) + inner + repeated('`', n);
    assert forall|k: int| 0 <= k < m implies (#[trigger] inner[k]) != '`' && inner[k] != '\\' by {
        if padded && 1 <= k < m - 1 {
            assert(inner[k] == code[k - 1]);
        }
    }
    assert forall|k: int| i <= k < i + n implies #[trigger] c[k] == '`' by {
        lemma_stands(c, i, w, k - i);
    }
    assert forall|k: int| i + n <= k < i + n + m implies (#[trigger] c[k]) != '`' && c[k] != '\\' by {
        lemma_stands(c, i, w, k - i);
        assert(w[k - i] == inner[k - i - n]);
    }
    assert forall|k: int| i + n + m <= k < i + 2 * n + m implies #[trigger] c[k] == '`' by {
        lemma_stands(c, i, w, k - i);
        assert(w[k - i] == '`');
    }
    assert(c[i + n] != '`');
    lemma_run(c, i, limit, '`', n);
    lemma_find_ticks(c, i + n, limit, n, i + n + m);
    assert(c.subrange(i + n, i + n + m) =~= inner) by {
        assert forall|k: int| 0 <= k < m implies c.subrange(i + n, i + n + m)[k] == inner[k] by {
            lemma_stands(c, i, w, k + n);
            assert(w[k + n] == inner[k]);
        }
    }
    assert(unpadded(inner) =~= code);
    let next = i + 2 * n + m;
    assert(code_at(c, i, limit) == Some((Kind::Code(code), next)));
    lemma_reads(c, i, limit, deco, Kind::Code(code), next);
}

/// A backslash before punctuation is not shown, and what follows it is only
/// itself.
pub proof fn escapes_are_read(c: Seq<char>, i: int, limit: int, deco: u8, buf: Seq<char>)
    requires
        0 <= i,
        i + 1 < limit <= c.len(),
        c[i] == '\\',
        '!' <= c[i + 1] <= '/' || ':' <= c[i + 1] <= '@' || '[' <= c[i + 1] <= '`' || '{' <= c[i
            + 1] <= '~',
    ensures
        spans(c, i, limit, deco, buf) == spans(c, i + 2, limit, deco, buf.push(c[i + 1])),
{
    crate::markdown::inline::token_moves_on(c, i, limit, deco);
}

/// A line break is one, and the text before and behind it stands apart.
pub proof fn breaks_are_read(c: Seq<char>, i: int, limit: int, deco: u8)
    requires
        0 <= i < limit <= c.len(),
        c[i] == '\n',
    ensures
        reads_as(c, i, limit, deco, Kind::Break, i + 1),
{
    lemma_reads(c, i, limit, deco, Kind::Break, i + 1);
}

// ── marks ──────────────────────────────────────────────────────────────────

/// The marks and what they stand for: `**` is bold, `*` and `_` are italic,
/// `__` is underlined, `~~` struck out and `||` a spoiler.
pub open spec fn mark_for(ch: char, n: nat) -> Option<u8> {
    if ch == '*' && n == 2 {
        Some(1)
    } else if (ch == '*' || ch == '_') && n == 1 {
        Some(2)
    } else if ch == '_' && n == 2 {
        Some(4)
    } else if ch == '~' && n == 2 {
        Some(8)
    } else if ch == '|' && n == 2 {
        Some(16)
    } else {
        None
    }
}

proof fn lemma_find_mark(c: Seq<char>, i: int, limit: int, ch: char, n: nat, at: int)
    requires
        0 <= i <= at,
        n >= 1,
        at + n <= limit <= c.len(),
        ch != '`',
        ch != '\\',
        forall|k: int| i <= k < at ==> (#[trigger] c[k]) != ch && c[k] != '`' && c[k] != '\\',
        forall|k: int| at <= k < at + n ==> #[trigger] c[k] == ch,
        at + n == limit || c[at + n] != ch,
    ensures
        find(c, i, limit, ch, n) == Some(at),
    decreases at - i,
{
    if i < at {
        assert(c[i] != ch);
        assert(text::run_len(c, i, limit, ch) == 0);
        lemma_find_mark(c, i + 1, limit, ch, n, at);
    } else {
        assert(c[at] == ch);
        lemma_run(c, at, limit, ch, n);
    }
}

/// Text between a mark and its like is shown with what the mark stands for, on
/// top of what was there, and the marks are not shown. Reading goes on behind
/// them as before.
pub proof fn marks_are_read(
    c: Seq<char>,
    i: int,
    limit: int,
    deco: u8,
    buf: Seq<char>,
    ch: char,
    n: nat,
    t: Seq<char>,
)
    requires
        limit <= c.len(),
        mark_for(ch, n) matches Some(bit) && deco & bit != bit,
        t.len() > 0,
        forall|k: int| 0 <= k < t.len() ==> !special(#[trigger] t[k]),
        !text::is_space(t[0]),
        !text::is_space(t.last()),
        ({
            let w = repeated(ch, n) + t + repeated(ch, n);
            let end = i + w.len();
            &&& stands_at(c, i, w)
            &&& end <= limit
            &&& end < limit ==> c[end] != ch
            &&& ch == '_' && n == 1 ==> (i == 0 || !text::char_is_alphanumeric(c[i - 1])) && (end
                == limit || !text::char_is_alphanumeric(c[end]))
        }),
    ensures
        spans(c, i, limit, deco, buf) == gathered(buf, deco) + seq![
            Span { deco: deco | mark_for(ch, n)->0, kind: Kind::Text(t) },
        ] + spans(c, i + 2 * n + t.len(), limit, deco, seq![]),
{
    let bit = mark_for(ch, n)->0;
    let w = repeated(ch, n) + t + repeated(ch, n);
    let m = t.len() as int;
    assert forall|k: int| i <= k < i + n implies #[trigger] c[k] == ch by {
        lemma_stands(c, i, w, k - i);
    }
    assert forall|k: int| i + n <= k < i + n + m implies #[trigger] c[k] == t[k - i - n] by {
        lemma_stands(c, i, w, k - i);
        assert(w[k - i] == t[k - i - n]);
    }
    assert forall|k: int| i + n + m <= k < i + 2 * n + m implies #[trigger] c[k] == ch by {
        lemma_stands(c, i, w, k - i);
        assert(w[k - i] == ch);
    }
    assert(!special(t[0]) && !special(t[m - 1]));
    assert(c[i + n] == t[0]);
    assert(c[i + n + m - 1] == t[m - 1]);
    assert forall|k: int| i + n <= k < i + n + m implies !special(#[trigger] c[k]) by {
        assert(!special(t[k - i - n]));
    }
    lemma_run(c, i, limit, ch, n);
    assert(c[i] == ch);
    assert(forall|x: char| x != ch ==> text::run_len(c, i, limit, x) == 0);
    let close = i + n + m;
    lemma_find_mark(c, i + n, limit, ch, n, close);
    assert(close_after(c, i + n, i + n, limit, ch, n) == Some(close));
    assert(close_of(c, i + n, limit, ch, n) == Some(close));
    assert(marks().len() == 6);
    lemma_first_mark_is(c, i, limit, deco, ch, n, bit, close, 0);
    plain_text_stays(c, i + n, close, deco | bit, seq![]);
    assert(c.subrange(i + n, close) =~= t);
    assert(Seq::<char>::empty() + t =~= t);
    crate::markdown::inline::token_moves_on(c, i, limit, deco);
}

proof fn lemma_first_mark_is(
    c: Seq<char>,
    i: int,
    limit: int,
    deco: u8,
    ch: char,
    n: nat,
    bit: u8,
    close: int,
    k: int,
)
    requires
        0 <= i < limit,
        0 <= k < 6,
        mark_for(ch, n) == Some(bit),
        deco & bit != bit,
        text::run_len(c, i, limit, ch) == n,
        forall|x: char| x != ch ==> text::run_len(c, i, limit, x) == 0,
        close_of(c, i + n, limit, ch, n) == Some(close),
        ch == '_' && n == 1 ==> i == 0 || !text::char_is_alphanumeric(c[i - 1]),
        exists|j: int| k <= j < 6 && #[trigger] marks()[j] == (ch, n, bit),
    ensures
        first_mark(c, i, limit, deco, k) matches Some((j, at)) && at == close && 0 <= j < 6
            && marks()[j] == (ch, n, bit),
    decreases 6 - k,
{
    let m = marks()[k];
    if m == (ch, n, bit) {
        assert(opened(c, i, limit, deco, m) == Some(close));
    } else {
        assert(opened(c, i, limit, deco, m) is None) by {
            if m.0 == ch {
                assert(m.1 == 2 && n == 1 || m.1 == 1 && n == 2);
            }
        }
        lemma_first_mark_is(c, i, limit, deco, ch, n, bit, close, k + 1);
    }
}

// ── the heads of lines ─────────────────────────────────────────────────────

/// What a list line begins with.
pub ghost enum Head {
    Bullet(char),
    Number(nat),
}

/// A list line as it is written.
pub ghost struct Row {
    pub indent: nat,
    pub head: Head,
    pub text: Seq<char>,
}

pub open spec fn written_head(h: Head) -> Seq<char> {
    match h {
        Head::Bullet(ch) => seq![ch, ' '],
        Head::Number(n) => text::dec(n) + seq!['.', ' '],
    }
}

pub open spec fn written_row(r: Row) -> Seq<char> {
    spaces(r.indent) + written_head(r.head) + r.text
}

/// Whether a row can be written: a bullet is one of three, a number has nine
/// digits at most, and there is something to list.
pub open spec fn writable(r: Row) -> bool {
    &&& !text::is_blank(r.text)
    &&& match r.head {
        Head::Bullet(ch) => ch == '-' || ch == '*' || ch == '+',
        Head::Number(n) => n < 1_000_000_000,
    }
}

/// What a row says.
pub open spec fn entry_of(r: Row) -> Entry {
    Entry {
        depth: if r.indent >= 8 {
            4
        } else {
            (r.indent / 2) as u8
        },
        marker: match r.head {
            Head::Bullet(_) => Marker::Bullet,
            Head::Number(n) => Marker::Number(n as u32),
        },
        content: inlines(r.text),
    }
}

proof fn lemma_dec_len(n: nat, k: nat)
    requires
        n < vstd::arithmetic::power::pow(10, k),
        k >= 1,
    ensures
        text::dec(n).len() <= k,
    decreases k,
{
    if n >= 10 {
        if k == 1 {
            vstd::arithmetic::power::lemma_pow1(10);
        } else {
            vstd::arithmetic::power::lemma_pow_adds(10, 1, (k - 1) as nat);
            vstd::arithmetic::power::lemma_pow1(10);
            lemma_dec_len(n / 10, (k - 1) as nat);
        }
    }
}

proof fn lemma_dec_long(n: nat, k: nat)
    requires
        n >= vstd::arithmetic::power::pow(10, k),
    ensures
        text::dec(n).len() > k,
    decreases k,
{
    if k == 0 {
        lemma_digits(n);
    } else {
        vstd::arithmetic::power::lemma_pow_adds(10, 1, (k - 1) as nat);
        vstd::arithmetic::power::lemma_pow1(10);
        vstd::arithmetic::power::lemma_pow_positive(10, (k - 1) as nat);
        assert(n >= 10);
        lemma_dec_long(n / 10, (k - 1) as nat);
    }
}

proof fn lemma_nine(n: nat)
    ensures
        n < 1_000_000_000 <==> text::dec(n).len() <= 9,
{
    assert(vstd::arithmetic::power::pow(10, 9) == 1_000_000_000) by {
        reveal_with_fuel(vstd::arithmetic::power::pow, 10);
    }
    if n < 1_000_000_000 {
        lemma_dec_len(n, 9);
    } else {
        lemma_dec_long(n, 9);
    }
}

proof fn lemma_digit_run(s: Seq<char>, i: int, n: int)
    requires
        0 <= i,
        0 <= n,
        i + n < s.len(),
        forall|k: int| i <= k < i + n ==> '0' <= #[trigger] s[k] <= '9',
        !('0' <= s[i + n] <= '9'),
    ensures
        digits_len(s, i) == n,
    decreases n,
{
    if n > 0 {
        assert('0' <= s[i] <= '9');
        lemma_digit_run(s, i + 1, n - 1);
    }
}

/// A list line says what was written in it: how deep it stands, by two spaces
/// each and four at most, its bullet or its number, and its text. A number of
/// more than nine digits begins no list line.
pub proof fn list_lines_are_read(r: Row)
    requires
        !text::is_blank(r.text),
        r.head matches Head::Bullet(ch) ==> ch == '-' || ch == '*' || ch == '+',
    ensures
        writable(r) ==> list_line(written_row(r)) == Some(entry_of(r)),
        !writable(r) ==> list_line(written_row(r)) is None,
{
    let line = written_row(r);
    let a = r.indent as int;
    let h = written_head(r.head);
    assert forall|k: int| 0 <= k < a implies #[trigger] line[k] == ' ' by {}
    assert(line[a] == h[0]);
    match r.head {
        Head::Bullet(ch) => {
            assert(line[a + 1] == ' ');
            lemma_run(line, 0, line.len() as int, ' ', r.indent);
            assert(line.skip(a + 2) =~= r.text);
        },
        Head::Number(n) => {
            let d = text::dec(n);
            let m = d.len() as int;
            lemma_digits(n);
            lemma_nine(n);
            assert(h[0] == d[0]);
            lemma_run(line, 0, line.len() as int, ' ', r.indent);
            assert forall|k: int| a <= k < a + m implies '0' <= #[trigger] line[k] <= '9' by {
                assert(line[k] == d[k - a]);
            }
            assert(line[a + m] == '.');
            assert(line[a + m + 1] == ' ');
            lemma_digit_run(line, a, m);
            assert(line.subrange(a, a + m) =~= d);
            assert(line.skip(a + m + 2) =~= r.text);
        },
    }
}

/// `#`, `##` and `###` before a space and something to say make a heading of
/// that level; more of them do not.
pub proof fn heading_lines_are_read(n: nat, t: Seq<char>)
    requires
        n >= 1,
        !text::is_blank(t),
    ensures
        ({
            let line = repeated('#', n) + seq![' '] + t;
            if n <= 3 {
                heading_line(line) == Some((n as u8, t))
            } else {
                heading_line(line) is None
            }
        }),
{
    let line = repeated('#', n) + seq![' '] + t;
    assert(line[n as int] == ' ');
    lemma_run(line, 0, line.len() as int, '#', n);
    assert(line.skip(n as int + 1) =~= t);
}

// ── whole bodies ───────────────────────────────────────────────────────────

/// Whether a line is one line and holds nothing of a code block.
pub open spec fn one_plain_line(l: Seq<char>) -> bool {
    forall|k: int| 0 <= k < l.len() ==> (#[trigger] l[k]) != '\n' && l[k] != '`'
}

/// Lines as one text.
pub open spec fn as_text(ls: Seq<Seq<char>>) -> Seq<char> {
    text::join(ls, '\n')
}

proof fn lemma_split_of_join(ls: Seq<Seq<char>>)
    requires
        ls.len() > 0,
        forall|i: int| 0 <= i < ls.len() ==> one_plain_line(#[trigger] ls[i]),
    ensures
        text::split(as_text(ls), '\n') == ls,
        forall|k: int| 0 <= k < as_text(ls).len() ==> #[trigger] as_text(ls)[k] != '`',
    decreases ls.len(),
{
    let s = as_text(ls);
    let first = ls[0];
    let n = first.len() as int;
    assert(one_plain_line(first));
    text::lemma_index_from(s, '\n', 0);
    if ls.len() == 1 {
        assert(s == first);
        let k = text::index_from(s, '\n', 0);
        if k < s.len() {
            assert(first[k] != '\n');
        }
        assert(text::split(s, '\n') =~= ls);
    } else {
        let rest = ls.skip(1);
        assert forall|i: int| 0 <= i < rest.len() implies one_plain_line(#[trigger] rest[i]) by {
            assert(one_plain_line(ls[i + 1]));
        }
        lemma_split_of_join(rest);
        let tail = as_text(rest);
        assert(s == first.push('\n') + tail);
        assert(s[n] == '\n');
        assert forall|k: int| 0 <= k < n implies s[k] != '\n' by {
            assert(s[k] == first[k]);
        }
        assert(text::index_from(s, '\n', 0) == n);
        assert(s.take(n) =~= first);
        assert(s.skip(n + 1) =~= tail);
        assert(text::split(s, '\n') =~= ls);
        assert forall|k: int| 0 <= k < s.len() implies #[trigger] s[k] != '`' by {
            if k < n {
                assert(s[k] == first[k]);
            } else if k > n {
                assert(s[k] == tail[k - n - 1]);
            }
        }
    }
}

proof fn lemma_no_fences(c: Seq<char>, p: int, i: int)
    requires
        0 <= p <= i <= c.len(),
        forall|k: int| 0 <= k < c.len() ==> #[trigger] c[k] != '`',
    ensures
        pieces(c, p, i) == plain_parts(c.subrange(p, c.len() as int)),
    decreases c.len() - i,
{
    if i < c.len() {
        assert(c[i] != '`');
        lemma_no_fences(c, p, i + 1);
    }
}

/// A body without code is read line by line.
proof fn lemma_body(ls: Seq<Seq<char>>)
    requires
        ls.len() > 0,
        forall|i: int| 0 <= i < ls.len() ==> one_plain_line(#[trigger] ls[i]),
        as_text(ls).len() > 0,
    ensures
        body(as_text(ls)) == stack(ls, 0, 0, 0),
{
    let c = as_text(ls);
    lemma_split_of_join(ls);
    lemma_no_fences(c, 0, 0);
    assert(c.subrange(0, c.len() as int) =~= c);
}

proof fn lemma_as_text_len(ls: Seq<Seq<char>>)
    requires
        ls.len() > 0,
    ensures
        as_text(ls).len() >= ls[0].len(),
        ls.len() > 1 ==> as_text(ls).len() > ls[0].len(),
{
}

proof fn lemma_row_is_no_other(r: Row)
    requires
        writable(r),
    ensures
        ({
            let l = written_row(r);
            &&& l.len() > 0
            &&& !text::is_blank(l)
            &&& !">>> "@.is_prefix_of(l)
            &&& quoted_line(l) is None
            &&& heading_line(l) is None
            &&& !"-# "@.is_prefix_of(l)
        }),
{
    let l = written_row(r);
    let h = written_head(r.head);
    reveal_strlit(">>> ");
    reveal_strlit("-# ");
    if let Head::Number(n) = r.head {
        lemma_digits(n);
        assert(h[0] == text::dec(n)[0]);
    }
    let a = r.indent as int;
    assert(l[a] == h[0]);
    if a > 0 {
        assert(l[0] == ' ');
    }
    assert(l[0] != '>' && l[0] != '#');
    assert(!text::is_space(l[a]));
    if ">>> "@.is_prefix_of(l) {
        assert(l[0] == ">>> "@[0]);
    }
    if "-# "@.is_prefix_of(l) {
        assert(l[0] == "-# "@[0]);
        assert(l[1] == "-# "@[1]);
        assert(a == 0);
        assert(l[1] == h[1]);
    }
    assert(text::run_len(l, 0, l.len() as int, '#') == 0);
}

/// A body made of list lines is one list, with an item for each line, in order.
pub proof fn list_bodies_are_one_list(rows: Seq<Row>)
    requires
        rows.len() > 0,
        forall|i: int| 0 <= i < rows.len() ==> writable(#[trigger] rows[i]),
        forall|i: int| 0 <= i < rows.len() ==> one_plain_line((#[trigger] rows[i]).text),
    ensures
        body(as_text(rows.map_values(|r: Row| written_row(r)))) == seq![
            Part::List(rows.map_values(|r: Row| entry_of(r))),
        ],
{
    let ls = rows.map_values(|r: Row| written_row(r));
    let es = rows.map_values(|r: Row| entry_of(r));
    assert forall|i: int| 0 <= i < ls.len() implies one_plain_line(#[trigger] ls[i]) by {
        let r = rows[i];
        assert(writable(r));
        assert(one_plain_line(r.text));
        let h = written_head(r.head);
        if let Head::Number(n) = r.head {
            lemma_digits(n);
        }
        assert forall|k: int| 0 <= k < ls[i].len() implies (#[trigger] ls[i][k]) != '\n' && ls[i][k]
            != '`' by {
            let a = r.indent as int;
            if a <= k < a + h.len() {
                assert(ls[i][k] == h[k - a]);
                if let Head::Number(n) = r.head {
                    if k - a < text::dec(n).len() {
                        assert(h[k - a] == text::dec(n)[k - a]);
                    }
                }
            } else if k >= a + h.len() {
                assert(ls[i][k] == r.text[k - a - h.len()]);
            }
        }
    }
    assert(writable(rows[0]));
    lemma_row_is_no_other(rows[0]);
    assert(ls[0] == written_row(rows[0]));
    lemma_as_text_len(ls);
    lemma_body(ls);
    assert forall|i: int| 0 <= i < ls.len() implies list_line(#[trigger] ls[i]) == Some(es[i]) by {
        assert(writable(rows[i]));
        list_lines_are_read(rows[i]);
    }
    lemma_all_listed(ls, 0);
    assert(list_body(ls, 0, ls.len() as int) =~= es);
    assert(ls.subrange(0, 0) =~= Seq::<Seq<char>>::empty());
    assert(paragraph(ls.subrange(0, 0)) =~= seq![]);
    let end = ls.len() as int;
    assert(ls.subrange(end, end) =~= Seq::<Seq<char>>::empty());
    assert(stack(ls, end, end, 0) =~= seq![]);
    assert(stack(ls, 0, 0, 0) =~= seq![Part::List(es)]);
}

proof fn lemma_all_listed(ls: Seq<Seq<char>>, i: int)
    requires
        0 <= i <= ls.len(),
        forall|k: int| 0 <= k < ls.len() ==> list_line(#[trigger] ls[k]) is Some,
    ensures
        list_end(ls, i) == ls.len(),
    decreases ls.len() - i,
{
    if i < ls.len() {
        assert(list_line(ls[i]) is Some);
        lemma_all_listed(ls, i + 1);
    }
}

proof fn lemma_single(line: Seq<char>)
    requires
        line.len() > 0,
        one_plain_line(line),
    ensures
        body(line) == stack(seq![line], 0, 0, 0),
{
    let ls = seq![line];
    assert(as_text(ls) =~= line);
    lemma_body(ls);
}

proof fn lemma_alone(line: Seq<char>, depth: u32)
    ensures
        paragraph(seq![line].subrange(0, 0)) == Seq::<Part>::empty(),
        stack(seq![line], 1, 1, depth) == Seq::<Part>::empty(),
        seq![line].subrange(0, 1) == seq![line],
{
    let ls = seq![line];
    assert(ls.subrange(0, 0) =~= Seq::<Seq<char>>::empty());
    assert(ls.subrange(1, 1) =~= Seq::<Seq<char>>::empty());
    assert(ls.subrange(0, 1) =~= ls);
}

/// A line that is a heading or a small note reads as that, with its text.
pub proof fn headed_bodies_are_read(n: nat, t: Seq<char>)
    requires
        1 <= n <= 3,
        !text::is_blank(t),
        one_plain_line(t),
    ensures
        body(repeated('#', n) + seq![' '] + t) == seq![
            Part::Heading { level: n as u8, content: inlines(t) },
        ],
        body(seq!['-', '#', ' '] + t) == seq![Part::Subtext(inlines(t))],
{
    reveal_strlit(">>> ");
    reveal_strlit("-# ");
    let h = repeated('#', n) + seq![' '] + t;
    heading_lines_are_read(n, t);
    assert(h[0] == '#');
    assert(one_plain_line(h)) by {
        assert forall|k: int| 0 <= k < h.len() implies (#[trigger] h[k]) != '\n' && h[k] != '`' by {
            if k > n {
                assert(h[k] == t[k - n - 1]);
            }
        }
    }
    assert(!text::is_blank(h)) by {
        assert(!text::is_space(h[0]));
    }
    assert(!">>> "@.is_prefix_of(h)) by {
        if ">>> "@.is_prefix_of(h) {
            assert(h[0] == ">>> "@[0]);
        }
    }
    lemma_single(h);
    lemma_alone(h, 0);
    assert(seq![h][0] == h);
    assert(body(h) =~= seq![Part::Heading { level: n as u8, content: inlines(t) }]);

    let s = seq!['-', '#', ' '] + t;
    assert(s[0] == '-' && s[1] == '#');
    assert(one_plain_line(s)) by {
        assert forall|k: int| 0 <= k < s.len() implies (#[trigger] s[k]) != '\n' && s[k] != '`' by {
            if k >= 3 {
                assert(s[k] == t[k - 3]);
            }
        }
    }
    assert(!text::is_blank(s)) by {
        assert(!text::is_space(s[0]));
    }
    assert(!">>> "@.is_prefix_of(s)) by {
        if ">>> "@.is_prefix_of(s) {
            assert(s[0] == ">>> "@[0]);
        }
    }
    assert("-# "@ =~= s.take(3));
    assert(s.skip(3) =~= t);
    assert(text::run_len(s, 0, s.len() as int, '#') == 0);
    lemma_single(s);
    lemma_alone(s, 0);
    assert(seq![s][0] == s);
    assert(body(s) =~= seq![Part::Subtext(inlines(t))]);
}

/// Whether a line is one of text: not blank, and without a head of any kind.
pub open spec fn is_text_line(l: Seq<char>) -> bool {
    &&& one_plain_line(l)
    &&& l.len() > 0
    &&& 'a' <= l[0] <= 'z' || 'A' <= l[0] <= 'Z' || '\u{3040}' <= l[0] <= '\u{9fff}'
}

proof fn lemma_text_line(l: Seq<char>)
    requires
        is_text_line(l),
    ensures
        !text::is_blank(l),
        !">>> "@.is_prefix_of(l),
        quoted_line(l) is None,
        heading_line(l) is None,
        !"-# "@.is_prefix_of(l),
        list_line(l) is None,
{
    reveal_strlit(">>> ");
    reveal_strlit("-# ");
    assert(!text::is_space(l[0]));
    if ">>> "@.is_prefix_of(l) {
        assert(l[0] == ">>> "@[0]);
    }
    if "-# "@.is_prefix_of(l) {
        assert(l[0] == "-# "@[0]);
    }
    assert(text::run_len(l, 0, l.len() as int, '#') == 0);
    assert(text::run_len(l, 0, l.len() as int, ' ') == 0);
    assert(digits_len(l, 0) == 0);
}

/// Lines of text are one paragraph that holds all of them, however many there
/// are.
pub proof fn text_bodies_are_one_paragraph(ls: Seq<Seq<char>>)
    requires
        ls.len() > 0,
        forall|i: int| 0 <= i < ls.len() ==> is_text_line(#[trigger] ls[i]),
    ensures
        body(as_text(ls)) == seq![Part::Paragraph(inlines(as_text(ls)))],
{
    assert forall|i: int| 0 <= i < ls.len() implies one_plain_line(#[trigger] ls[i]) by {
        assert(is_text_line(ls[i]));
    }
    assert(is_text_line(ls[0]));
    lemma_as_text_len(ls);
    lemma_body(ls);
    lemma_text_stack(ls, 0, 0);
    let all = as_text(ls);
    text_never_vanishes(all, 0, all.len() as int, 0, seq![]);
    assert(ls.subrange(0, ls.len() as int) =~= ls);
}

proof fn lemma_text_stack(ls: Seq<Seq<char>>, i: int, depth: u32)
    requires
        0 <= i <= ls.len(),
        forall|k: int| 0 <= k < ls.len() ==> is_text_line(#[trigger] ls[k]),
    ensures
        stack(ls, 0, i, depth) == paragraph(ls.subrange(0, ls.len() as int)),
    decreases ls.len() - i,
{
    if i < ls.len() {
        assert(is_text_line(ls[i]));
        lemma_text_line(ls[i]);
        lemma_text_stack(ls, i + 1, depth);
    }
}

/// Lines that each begin with `> ` are one quote of what follows, and a first
/// line that begins with `>>> ` quotes everything to the end.
pub proof fn quoted_bodies_are_quotes(ls: Seq<Seq<char>>)
    requires
        ls.len() > 0,
        forall|i: int| 0 <= i < ls.len() ==> is_text_line(#[trigger] ls[i]),
    ensures
        body(as_text(ls.map_values(|l: Seq<char>| seq!['>', ' '] + l))) == seq![
            Part::Quote(body(as_text(ls))),
        ],
        body(seq!['>', '>', '>', ' '] + as_text(ls)) == seq![Part::Quote(body(as_text(ls)))],
{
    reveal_strlit(">>> ");
    text_bodies_are_one_paragraph(ls);
    lemma_text_stack(ls, 0, 1);
    lemma_text_stack(ls, 0, 0);
    let inner = stack(ls, 0, 0, 1);
    assert forall|i: int| 0 <= i < ls.len() implies one_plain_line(#[trigger] ls[i]) by {
        assert(is_text_line(ls[i]));
    }
    assert(is_text_line(ls[0]));
    lemma_as_text_len(ls);
    lemma_body(ls);
    assert(inner == body(as_text(ls)));
    lemma_quoted_lines(ls);
    lemma_quoted_rest(ls);
}

proof fn lemma_quoted_lines(ls: Seq<Seq<char>>)
    requires
        ls.len() > 0,
        forall|i: int| 0 <= i < ls.len() ==> is_text_line(#[trigger] ls[i]),
    ensures
        body(as_text(ls.map_values(|l: Seq<char>| seq!['>', ' '] + l))) == seq![
            Part::Quote(stack(ls, 0, 0, 1)),
        ],
{
    reveal_strlit(">>> ");
    let inner = stack(ls, 0, 0, 1);
    let qs = ls.map_values(|l: Seq<char>| seq!['>', ' '] + l);
    assert forall|i: int| 0 <= i < qs.len() implies one_plain_line(#[trigger] qs[i])
        && quoted_line(qs[i]) == Some(ls[i]) by {
        assert(is_text_line(ls[i]));
        let q = qs[i];
        assert(q.skip(2) =~= ls[i]);
        assert forall|k: int| 0 <= k < q.len() implies (#[trigger] q[k]) != '\n' && q[k] != '`' by {
            if k >= 2 {
                assert(q[k] == ls[i][k - 2]);
            }
        }
    }
    lemma_as_text_len(qs);
    assert(qs[0].len() > 0);
    lemma_body(qs);
    lemma_all_quoted(qs, 0);
    let end = qs.len() as int;
    assert(quote_body(qs, 0, end) =~= ls) by {
        assert forall|k: int| 0 <= k < end implies quote_body(qs, 0, end)[k] == ls[k] by {
            assert(quoted_line(qs[0 + k]) == Some(ls[k]));
        }
    }
    assert(qs.subrange(0, 0) =~= Seq::<Seq<char>>::empty());
    assert(qs.subrange(end, end) =~= Seq::<Seq<char>>::empty());
    assert(!">>> "@.is_prefix_of(qs[0])) by {
        if ">>> "@.is_prefix_of(qs[0]) {
            assert(qs[0][1] == ">>> "@[1]);
        }
    }
    assert(!text::is_blank(qs[0])) by {
        assert(!text::is_space(qs[0][0]));
    }
    assert(quoted_line(qs[0]) is Some);
    assert(stack(qs, end, end, 0) =~= seq![]);
    assert(stack(qs, 0, 0, 0) =~= seq![Part::Quote(inner)]);
}

proof fn lemma_quoted_rest(ls: Seq<Seq<char>>)
    requires
        ls.len() > 0,
        forall|i: int| 0 <= i < ls.len() ==> is_text_line(#[trigger] ls[i]),
    ensures
        body(seq!['>', '>', '>', ' '] + as_text(ls)) == seq![Part::Quote(stack(ls, 0, 0, 1))],
{
    reveal_strlit(">>> ");
    let inner = stack(ls, 0, 0, 1);
    assert(is_text_line(ls[0]));
    let ts = seq![seq!['>', '>', '>', ' '] + ls[0]] + ls.skip(1);
    assert(as_text(ts) =~= seq!['>', '>', '>', ' '] + as_text(ls)) by {
        if ls.len() > 1 {
            assert(ts.skip(1) =~= ls.skip(1));
            assert((seq!['>', '>', '>', ' '] + ls[0]).push('\n') =~= seq!['>', '>', '>', ' ']
                + ls[0].push('\n'));
        }
    }
    assert forall|i: int| 0 <= i < ts.len() implies one_plain_line(#[trigger] ts[i]) by {
        if i == 0 {
            let q = ts[0];
            assert forall|k: int| 0 <= k < q.len() implies (#[trigger] q[k]) != '\n' && q[k]
                != '`' by {
                if k >= 4 {
                    assert(q[k] == ls[0][k - 4]);
                }
            }
        } else {
            assert(ts[i] == ls[i]);
            assert(is_text_line(ls[i]));
        }
    }
    lemma_as_text_len(ts);
    lemma_body(ts);
    assert(">>> "@ =~= ts[0].take(4));
    assert(!text::is_blank(ts[0])) by {
        assert(!text::is_space(ts[0][0]));
    }
    assert(seq![ts[0].skip(4)] + ts.skip(1) =~= ls) by {
        assert(ts[0].skip(4) =~= ls[0]);
    }
    assert(ts.subrange(0, 0) =~= Seq::<Seq<char>>::empty());
    assert(stack(ts, 0, 0, 0) =~= seq![Part::Quote(inner)]);
}

proof fn lemma_all_quoted(ls: Seq<Seq<char>>, i: int)
    requires
        0 <= i <= ls.len(),
        forall|k: int| 0 <= k < ls.len() ==> quoted_line(#[trigger] ls[k]) is Some,
    ensures
        quote_end(ls, i) == ls.len(),
    decreases ls.len() - i,
{
    if i < ls.len() {
        assert(quoted_line(ls[i]) is Some);
        lemma_all_quoted(ls, i + 1);
    }
}

// ── bodies behind one another ──────────────────────────────────────────────

proof fn lemma_shift_ends(la: Seq<Seq<char>>, lb: Seq<Seq<char>>, i: int)
    requires
        0 <= i <= lb.len(),
    ensures
        quote_end(la + lb, la.len() + i) == la.len() + quote_end(lb, i),
        list_end(la + lb, la.len() + i) == la.len() + list_end(lb, i),
    decreases lb.len() - i,
{
    let all = la + lb;
    if i < lb.len() {
        assert(all[la.len() + i] == lb[i]);
        lemma_shift_ends(la, lb, i + 1);
    }
}

/// What stands before is not looked at.
#[verifier::spinoff_prover]
#[verifier::rlimit(60)]
proof fn lemma_shift(la: Seq<Seq<char>>, lb: Seq<Seq<char>>, p: int, i: int, depth: u32)
    requires
        0 <= p <= i <= lb.len(),
    ensures
        stack(la + lb, la.len() + p, la.len() + i, depth) == stack(lb, p, i, depth),
    decreases lb.len() - i,
{
    let all = la + lb;
    let n = la.len() as int;
    assert(all.subrange(n + p, n + i) =~= lb.subrange(p, i));
    if i < lb.len() {
        let line = lb[i];
        assert(all[n + i] == line);
        lemma_shift_ends(la, lb, i);
        lemma_quote_end(lb, i);
        lemma_quote_end(lb, i + 1);
        lemma_list_end(lb, i);
        lemma_list_end(lb, i + 1);
        if text::is_blank(line) {
            lemma_shift(la, lb, i + 1, i + 1, depth);
        } else if depth < MAX_QUOTE && ">>> "@.is_prefix_of(line) {
            assert(all.skip(n + i + 1) =~= lb.skip(i + 1));
        } else if depth < MAX_QUOTE && quoted_line(line) is Some {
            let end = quote_end(lb, i);
            assert(quote_body(all, n + i, n + end) =~= quote_body(lb, i, end));
            lemma_shift(la, lb, end, end, depth);
        } else if heading_line(line) is Some {
            lemma_shift(la, lb, i + 1, i + 1, depth);
        } else if "-# "@.is_prefix_of(line) {
            lemma_shift(la, lb, i + 1, i + 1, depth);
        } else if list_line(line) is Some {
            let end = list_end(lb, i);
            assert(list_body(all, n + i, n + end) =~= list_body(lb, i, end));
            lemma_shift(la, lb, end, end, depth);
        } else {
            lemma_shift(la, lb, p, i + 1, depth);
        }
    }
}

/// Whether a line begins something of its own: a heading, a small note, a list,
/// or nothing at all where it is blank.
pub open spec fn begins_anew(l: Seq<char>) -> bool {
    ||| text::is_blank(l)
    ||| heading_line(l) is Some
    ||| "-# "@.is_prefix_of(l)
    ||| list_line(l) is Some
}

/// Whether a line is no quote.
pub open spec fn unquoted(l: Seq<char>) -> bool {
    l.len() == 0 || l[0] != '>'
}

proof fn lemma_unquoted(l: Seq<char>)
    requires
        unquoted(l),
    ensures
        quoted_line(l) is None,
        !">>> "@.is_prefix_of(l),
{
    reveal_strlit(">>> ");
    if ">>> "@.is_prefix_of(l) {
        assert(l[0] == ">>> "@[0]);
    }
}

proof fn lemma_list_end_of_first(la: Seq<Seq<char>>, lb: Seq<Seq<char>>, i: int)
    requires
        0 <= i <= la.len(),
        lb.len() > 0,
        la.len() > 0,
        list_line(la.last()) is None || list_line(lb[0]) is None,
    ensures
        i < la.len() ==> list_end(la + lb, i) == list_end(la, i),
    decreases la.len() - i,
{
    let all = la + lb;
    if i < la.len() {
        assert(all[i] == la[i]);
        lemma_list_end_of_first(la, lb, i + 1);
        if i + 1 == la.len() {
            assert(all[i + 1] == lb[0]);
            assert(la.last() == la[i]);
            assert(list_end(la, i + 1) == i + 1);
            if list_line(lb[0]) is None {
                assert(list_end(all, i + 1) == i + 1);
            }
        }
    }
}

/// What is read from the first lines, and then what is read from the rest.
#[verifier::spinoff_prover]
#[verifier::rlimit(60)]
proof fn lemma_stack_concat(la: Seq<Seq<char>>, lb: Seq<Seq<char>>, p: int, i: int, depth: u32)
    requires
        0 <= p <= i <= la.len(),
        la.len() > 0,
        lb.len() > 0,
        forall|k: int| 0 <= k < la.len() ==> unquoted(#[trigger] la[k]),
        unquoted(lb[0]),
        begins_anew(lb[0]),
        list_line(la.last()) is None || list_line(lb[0]) is None || text::is_blank(lb[0]),
    ensures
        stack(la + lb, p, i, depth) == stack(la, p, i, depth) + stack(lb, 0, 0, depth),
    decreases la.len() - i,
{
    let all = la + lb;
    let n = la.len() as int;
    assert(all.subrange(p, i) =~= la.subrange(p, i));
    let before = paragraph(la.subrange(p, i));
    lemma_shift(la, lb, 0, 0, depth);
    assert(lb.subrange(0, 0) =~= Seq::<Seq<char>>::empty());
    if i == n {
        let line = lb[0];
        assert(all[n] == line);
        lemma_unquoted(line);
        assert(stack(la, p, n, depth) == before);
        lemma_anew(all, p, n, depth);
        assert(all.subrange(n, n) =~= Seq::<Seq<char>>::empty());
    } else {
        let line = la[i];
        assert(all[i] == line);
        assert(unquoted(line));
        lemma_unquoted(line);
        lemma_blank_is_no_list(lb[0]);
        lemma_list_end_of_first(la, lb, i);
        lemma_list_end(la, i);
        lemma_list_end(la, i + 1);
        if text::is_blank(line) || heading_line(line) is Some || "-# "@.is_prefix_of(line) {
            lemma_stack_concat(la, lb, i + 1, i + 1, depth);
            let tail = stack(la, i + 1, i + 1, depth);
            let more = stack(lb, 0, 0, depth);
            assert(before + (tail + more) =~= before + tail + more);
            if !text::is_blank(line) {
                let own = match heading_line(line) {
                    Some((level, rest)) => seq![Part::Heading { level, content: inlines(rest) }],
                    None => seq![Part::Subtext(inlines(line.skip(3)))],
                };
                assert(before + own + (tail + more) =~= before + own + tail + more);
            }
        } else if list_line(line) is Some {
            let end = list_end(la, i);
            assert(list_body(all, i, end) =~= list_body(la, i, end)) by {
                assert forall|k: int| 0 <= k < end - i implies list_body(all, i, end)[k]
                    == list_body(la, i, end)[k] by {
                    assert(all[i + k] == la[i + k]);
                }
            }
            lemma_stack_concat(la, lb, end, end, depth);
            let own = seq![Part::List(list_body(la, i, end))];
            let tail = stack(la, end, end, depth);
            let more = stack(lb, 0, 0, depth);
            assert(before + own + (tail + more) =~= before + own + tail + more);
        } else {
            lemma_stack_concat(la, lb, p, i + 1, depth);
        }
    }
}

proof fn lemma_blank_is_no_list(l: Seq<char>)
    ensures
        text::is_blank(l) ==> list_line(l) is None,
{
    if text::is_blank(l) {
        let k = text::run_len(l, 0, l.len() as int, ' ') as int;
        text::lemma_run_len(l, 0, l.len() as int, ' ');
        if k < l.len() {
            assert(text::is_space(l[k]));
            assert(digits_len(l, k) == 0);
        }
    }
}

/// A line that begins something of its own ends the paragraph before it.
#[verifier::spinoff_prover]
#[verifier::rlimit(60)]
proof fn lemma_anew(ls: Seq<Seq<char>>, p: int, i: int, depth: u32)
    requires
        0 <= p <= i < ls.len(),
        begins_anew(ls[i]),
        quoted_line(ls[i]) is None,
        !">>> "@.is_prefix_of(ls[i]),
    ensures
        stack(ls, p, i, depth) == paragraph(ls.subrange(p, i)) + stack(ls, i, i, depth),
{
    let before = paragraph(ls.subrange(p, i));
    let line = ls[i];
    assert(ls.subrange(i, i) =~= Seq::<Seq<char>>::empty());
    let none = paragraph(ls.subrange(i, i));
    assert(none =~= seq![]);
    lemma_list_end(ls, i);
    lemma_list_end(ls, i + 1);
    if text::is_blank(line) {
        let tail = stack(ls, i + 1, i + 1, depth);
        assert(none + tail =~= tail);
    } else if heading_line(line) is Some {
        let (level, rest) = heading_line(line)->0;
        let own = seq![Part::Heading { level, content: inlines(rest) }];
        let tail = stack(ls, i + 1, i + 1, depth);
        assert(before + own + tail =~= before + (none + own + tail));
    } else if "-# "@.is_prefix_of(line) {
        let own = seq![Part::Subtext(inlines(line.skip(3)))];
        let tail = stack(ls, i + 1, i + 1, depth);
        assert(before + own + tail =~= before + (none + own + tail));
    } else {
        let end = list_end(ls, i);
        let own = seq![Part::List(list_body(ls, i, end))];
        let tail = stack(ls, end, end, depth);
        assert(before + own + tail =~= before + (none + own + tail));
    }
}

/// Two texts behind one another read as the first and then the second, where
/// the second begins something of its own: a heading, a note, a list that does
/// not go on with one before it, or a blank line.
pub proof fn bodies_behind_one_another(la: Seq<Seq<char>>, lb: Seq<Seq<char>>)
    requires
        la.len() > 0,
        lb.len() > 0,
        forall|k: int| 0 <= k < la.len() ==> one_plain_line(#[trigger] la[k]),
        forall|k: int| 0 <= k < lb.len() ==> one_plain_line(#[trigger] lb[k]),
        forall|k: int| 0 <= k < la.len() ==> unquoted(#[trigger] la[k]),
        unquoted(lb[0]),
        begins_anew(lb[0]),
        list_line(la.last()) is None || list_line(lb[0]) is None,
        as_text(la).len() > 0,
        as_text(lb).len() > 0,
    ensures
        body(as_text(la + lb)) == body(as_text(la)) + body(as_text(lb)),
{
    let all = la + lb;
    assert forall|k: int| 0 <= k < all.len() implies one_plain_line(#[trigger] all[k]) by {
        if k < la.len() {
            assert(all[k] == la[k]);
        } else {
            assert(all[k] == lb[k - la.len()]);
        }
    }
    lemma_body(la);
    lemma_body(lb);
    lemma_as_text_len(all);
    assert(all[0] == la[0]);
    assert(all.len() > 1);
    lemma_body(all);
    lemma_stack_concat(la, lb, 0, 0, 0);
}

// ── code blocks ────────────────────────────────────────────────────────────

proof fn lemma_fence_ahead(c: Seq<char>, from: int, at: int)
    requires
        0 <= from <= at,
        at + 3 <= c.len(),
        fence_at(c, at),
        forall|k: int| from <= k < at ==> #[trigger] c[k] != '`',
    ensures
        next_fence(c, from) == at,
    decreases at - from,
{
    if from < at {
        assert(c[from] != '`');
        lemma_fence_ahead(c, from + 1, at);
    }
}

/// Code between two fences comes out as it was written, with its language
/// where the first line names one, and what stands before and behind is read on
/// its own.
pub proof fn fenced_bodies_are_read(
    head: Seq<char>,
    lang: Seq<char>,
    code: Seq<char>,
    tail: Seq<char>,
)
    requires
        forall|k: int| 0 <= k < head.len() ==> #[trigger] head[k] != '`',
        forall|k: int| 0 <= k < tail.len() ==> #[trigger] tail[k] != '`',
        lang.len() > 0,
        forall|k: int|
            0 <= k < lang.len() ==> {
                let ch = #[trigger] lang[k];
                ||| 'a' <= ch <= 'z' || 'A' <= ch <= 'Z' || '0' <= ch <= '9'
                ||| ch == '+' || ch == '-' || ch == '#' || ch == '.' || ch == '_'
            },
        code.len() > 0,
        code[0] != '\n',
        forall|k: int| 0 <= k < code.len() ==> #[trigger] code[k] != '`',
    ensures
        ({
            let fence = seq!['`', '`', '`'];
            &&& body(head + fence + lang + seq!['\n'] + code + seq!['\n'] + fence + tail) == body(
                head,
            ) + seq![Part::Code { lang: Some(lang), text: code }] + body(tail)
            &&& (forall|k: int| 0 <= k < code.len() ==> #[trigger] code[k] != '\n') ==> body(
                head + fence + code + fence + tail,
            ) == body(head) + seq![Part::Code { lang: None, text: code }] + body(tail)
        }),
{
    let fence = seq!['`', '`', '`'];
    let inner = lang + seq!['\n'] + code + seq!['\n'];
    let n = lang.len() as int;
    assert forall|k: int| 0 <= k < inner.len() implies #[trigger] inner[k] != '`' by {
        if k < n {
            assert(inner[k] == lang[k]);
        } else if n < k < n + 1 + code.len() {
            assert(inner[k] == code[k - n - 1]);
        }
    }
    lemma_fenced(head, inner, tail);
    assert(head + fence + inner + fence + tail =~= head + fence + lang + seq!['\n'] + code + seq![
        '\n',
    ] + fence + tail);
    assert forall|k: int| 0 <= k < n implies inner[k] != '\n' by {
        assert(inner[k] == lang[k]);
    }
    assert(inner[n] == '\n');
    text::lemma_index_from(inner, '\n', 0);
    assert(text::index_from(inner, '\n', 0) == n);
    assert(inner.take(n) =~= lang);
    assert(inner.skip(n + 1) =~= code + seq!['\n']);
    assert((code + seq!['\n']).drop_last() =~= code);
    if forall|k: int| 0 <= k < code.len() ==> #[trigger] code[k] != '\n' {
        lemma_fenced(head, code, tail);
        text::lemma_index_from(code, '\n', 0);
        let at = text::index_from(code, '\n', 0);
        if at < code.len() {
            assert(code[at] != '\n');
        }
        assert(code.last() != '\n') by {
            assert(code[code.len() - 1] != '\n');
        }
    }
}

proof fn lemma_fenced(head: Seq<char>, inner: Seq<char>, tail: Seq<char>)
    requires
        forall|k: int| 0 <= k < head.len() ==> #[trigger] head[k] != '`',
        forall|k: int| 0 <= k < tail.len() ==> #[trigger] tail[k] != '`',
        inner.len() > 0,
        forall|k: int| 0 <= k < inner.len() ==> #[trigger] inner[k] != '`',
    ensures
        ({
            let fence = seq!['`', '`', '`'];
            body(head + fence + inner + fence + tail) == body(head) + seq![
                crate::markdown::block::code_part(inner),
            ] + body(tail)
        }),
{
    let fence = seq!['`', '`', '`'];
    let c = head + fence + inner + fence + tail;
    let a = head.len() as int;
    let b = a + 3 + inner.len();
    assert(c[a] == '`' && c[a + 1] == '`' && c[a + 2] == '`');
    assert(c[b] == '`' && c[b + 1] == '`' && c[b + 2] == '`');
    assert forall|k: int| a + 3 <= k < b implies #[trigger] c[k] != '`' by {
        assert(c[k] == inner[k - a - 3]);
    }
    lemma_fence_ahead(c, a + 3, b);
    lemma_pieces_until(c, 0, a);
    assert(c.subrange(0, a) =~= head);
    assert(c.subrange(a + 3, b) =~= inner);
    assert forall|k: int| b + 3 <= k < c.len() implies #[trigger] c[k] != '`' by {
        assert(c[k] == tail[k - b - 3]);
    }
    lemma_pieces_rest(c, b + 3, b + 3);
    assert(c.subrange(b + 3, c.len() as int) =~= tail);
    lemma_no_fences(head, 0, 0);
    lemma_no_fences(tail, 0, 0);
    assert(head.subrange(0, a) =~= head);
    assert(tail.subrange(0, tail.len() as int) =~= tail);
}

proof fn lemma_pieces_until(c: Seq<char>, i: int, at: int)
    requires
        0 <= i <= at,
        at + 3 <= c.len(),
        fence_at(c, at),
        next_fence(c, at + 3) < c.len(),
        forall|k: int| 0 <= k < at ==> #[trigger] c[k] != '`',
    ensures
        pieces(c, 0, i) == pieces(c, 0, at),
    decreases at - i,
{
    if i < at {
        assert(c[i] != '`');
        lemma_pieces_until(c, i + 1, at);
    }
}

proof fn lemma_pieces_rest(c: Seq<char>, p: int, i: int)
    requires
        0 <= p <= i <= c.len(),
        forall|k: int| p <= k < c.len() ==> #[trigger] c[k] != '`',
    ensures
        pieces(c, p, i) == plain_parts(c.subrange(p, c.len() as int)),
    decreases c.len() - i,
{
    if i < c.len() {
        assert(c[i] != '`');
        lemma_pieces_rest(c, p, i + 1);
    }
}

} // verus!
