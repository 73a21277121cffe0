//! Timestamps that are read relative to now, and when such a reading goes stale.
//!
//! Otherwise "just now" stays on an open screen for hours. Where nothing is
//! relative there is nothing to wake for, and a deadline would spin for no
//! change.

use vstd::prelude::*;
use crate::markdown;
use crate::markdown::model::{entries_of, parts_of, spans_of, Entry, Kind, Part, Span};
use crate::markdown::{Block, Inline, InlineKind};
use crate::model::{ChannelId, Message};
use crate::shell::{App, Gumicord};

verus! {

/// The format of a timestamp that is read relative to now.
pub const RELATIVE: char = 'R';

// ── the reading ────────────────────────────────────────────────────────────

/// The unit that a distance of `m` seconds is counted in: minutes below an
/// hour, hours below a day, days beyond.
pub open spec fn unit(m: int) -> int {
    if m < 3_600 {
        60
    } else if m < 86_400 {
        3_600
    } else {
        86_400
    }
}

/// How a moment reads from `d` seconds after it: in which unit, how many, and
/// whether it is yet to come. Closer than a minute it is now.
pub open spec fn reading(d: int) -> (int, int, bool) {
    let m = if d < 0 {
        -d
    } else {
        d
    };
    if m < 60 {
        (0, 0, false)
    } else {
        (unit(m), m / unit(m), d < 0)
    }
}

/// How many seconds the reading from `d` seconds after a moment lasts.
pub open spec fn lasts(d: int) -> int {
    if -60 < d < 60 {
        60 - d
    } else if d > 0 {
        unit(d) - d % unit(d)
    } else {
        (-d) % unit(-d) + 1
    }
}

/// A reading stays as it is until it is woken for, and is another one then.
pub proof fn a_reading_lasts_until_its_wake_up(d: int, t: int)
    requires
        0 <= t < lasts(d),
    ensures
        1 <= lasts(d) <= 86_400,
        reading(d + t) == reading(d),
        reading(d + lasts(d)) != reading(d),
{
    if -60 < d < 60 {
    } else if d > 0 {
        lemma_past(d, t);
    } else {
        lemma_coming(d, t);
    }
}

proof fn lemma_past(d: int, t: int)
    requires
        d >= 60,
        0 <= t < lasts(d),
    ensures
        1 <= lasts(d) <= 86_400,
        reading(d + t) == reading(d),
        reading(d + lasts(d)) != reading(d),
{
    if d < 3_600 {
        assert(d + lasts(d) == 60 * (d / 60 + 1));
        assert(d + t < 3_600);
        assert((d + t) / 60 == d / 60);
        assert(d + lasts(d) < 3_600 ==> (d + lasts(d)) / 60 == d / 60 + 1);
    } else if d < 86_400 {
        assert(d + lasts(d) == 3_600 * (d / 3_600 + 1));
        assert(d + t < 86_400);
        assert((d + t) / 3_600 == d / 3_600);
        assert(d + lasts(d) < 86_400 ==> (d + lasts(d)) / 3_600 == d / 3_600 + 1);
    } else {
        assert(d + lasts(d) == 86_400 * (d / 86_400 + 1));
        assert((d + t) / 86_400 == d / 86_400);
        assert((d + lasts(d)) / 86_400 == d / 86_400 + 1);
    }
}

proof fn lemma_coming(d: int, t: int)
    requires
        d <= -60,
        0 <= t < lasts(d),
    ensures
        1 <= lasts(d) <= 86_400,
        reading(d + t) == reading(d),
        reading(d + lasts(d)) != reading(d),
{
    let m = -d;
    if m < 3_600 {
        assert(m - lasts(d) == 60 * (m / 60) - 1);
        assert((m - t) / 60 == m / 60);
        assert((m - lasts(d)) / 60 == m / 60 - 1);
    } else if m < 86_400 {
        assert(m - lasts(d) == 3_600 * (m / 3_600) - 1);
        assert((m - t) / 3_600 == m / 3_600);
        assert((m - lasts(d)) / 3_600 == m / 3_600 - 1);
    } else {
        assert(m - lasts(d) == 86_400 * (m / 86_400) - 1);
        assert((m - t) / 86_400 == m / 86_400);
        assert((m - lasts(d)) / 86_400 == m / 86_400 - 1);
    }
}

/// How many seconds it takes from `now` until `at` reads differently.
pub fn seconds_until_change(at: i64, now: i64) -> (r: u64)
    ensures
        r == lasts(now - at),
        1 <= r <= 86_400,
{
    let d: i128 = now as i128 - at as i128;
    proof {
        assert(0 < lasts(d as int));
        a_reading_lasts_until_its_wake_up(d as int, 0);
    }
    if -60 < d && d < 60 {
        return (60 - d) as u64;
    }
    let m: i128 = if d < 0 {
        -d
    } else {
        d
    };
    let unit: i128 = if m < 3_600 {
        60
    } else if m < 86_400 {
        3_600
    } else {
        86_400
    };
    if d > 0 {
        (unit - m % unit) as u64
    } else {
        (m % unit + 1) as u64
    }
}

// ── what a body shows ──────────────────────────────────────────────────────

pub open spec fn span_tells(s: Span, at: i64) -> bool {
    s.kind == (Kind::Timestamp { at, format: RELATIVE })
}

pub open spec fn spans_tell(ss: Seq<Span>, at: i64) -> bool {
    exists|i: int| 0 <= i < ss.len() && span_tells(#[trigger] ss[i], at)
}

pub open spec fn entries_tell(es: Seq<Entry>, at: i64) -> bool {
    exists|i: int| 0 <= i < es.len() && spans_tell((#[trigger] es[i]).content, at)
}

/// Whether a block shows `at` relative to now.
pub open spec fn part_tells(p: Part, at: i64) -> bool
    decreases p,
{
    match p {
        Part::Paragraph(c) => spans_tell(c, at),
        Part::Heading { content, .. } => spans_tell(content, at),
        Part::Subtext(c) => spans_tell(c, at),
        Part::Quote(inner) => exists|i: int|
            0 <= i < inner.len() && part_tells(#[trigger] inner[i], at),
        Part::List(items) => entries_tell(items, at),
        Part::Code { .. } => false,
    }
}

pub open spec fn parts_tell(ps: Seq<Part>, at: i64) -> bool {
    exists|i: int| 0 <= i < ps.len() && part_tells(#[trigger] ps[i], at)
}

/// A quote shows what its contents show.
proof fn lemma_quote_tells(inner: Seq<Part>, at: i64)
    ensures
        part_tells(Part::Quote(inner), at) == parts_tell(inner, at),
{
    let q = Part::Quote(inner);
    if parts_tell(inner, at) {
        let i = choose|i: int| 0 <= i < inner.len() && part_tells(#[trigger] inner[i], at);
        assert(q->Quote_0[i] == inner[i]);
        assert(exists|j: int| 0 <= j < q->Quote_0.len() && part_tells(#[trigger] q->Quote_0[j], at));
        assert(part_tells(q, at));
    }
    if part_tells(q, at) {
        assert(parts_tell(inner, at));
    }
}

/// Whether `out` holds what `before` holds and what `tells` says, and no more.
spec fn gained(before: Seq<i64>, out: Seq<i64>, tells: spec_fn(i64) -> bool) -> bool {
    forall|at: i64| #[trigger] out.contains(at) <==> before.contains(at) || tells(at)
}

proof fn lemma_push_contains(s: Seq<i64>, x: i64)
    ensures
        forall|at: i64| #[trigger] s.push(x).contains(at) <==> s.contains(at) || at == x,
{
    let p = s.push(x);
    assert forall|at: i64| #[trigger] p.contains(at) <==> s.contains(at) || at == x by {
        if s.contains(at) {
            let k = s.index_of(at);
            assert(p[k] == at);
        }
        assert(p[s.len() as int] == x);
    }
}

fn times_in_inlines(c: &Vec<Inline>, out: &mut Vec<i64>)
    ensures
        gained(old(out)@, final(out)@, |at: i64| spans_tell(spans_of(c@), at)),
{
    let ghost ss = spans_of(c@);
    let ghost before = out@;
    let mut i: usize = 0;
    while i < c.len()
        invariant
            i <= c@.len(),
            ss == spans_of(c@),
            forall|at: i64| #[trigger]
                out@.contains(at) <==> before.contains(at) || exists|k: int|
                    0 <= k < i && span_tells(#[trigger] ss[k], at),
        decreases c@.len() - i,
    {
        let ghost was = out@;
        assert(ss[i as int] == c@[i as int]@);
        if let InlineKind::Timestamp { at, format } = &c[i].kind {
            if *format == RELATIVE {
                out.push(*at);
                proof {
                    lemma_push_contains(was, *at);
                }
            }
        }
        proof {
            assert forall|at: i64| #[trigger] out@.contains(at) <==> before.contains(at) || exists|
                k: int,
            |
                0 <= k < i + 1 && span_tells(#[trigger] ss[k], at) by {
                if span_tells(ss[i as int], at) {
                    assert(out@.contains(at));
                } else {
                    assert(out@.contains(at) == was.contains(at));
                }
            }
        }
        i += 1;
    }
}

fn times_in_items(c: &Vec<markdown::Item>, out: &mut Vec<i64>)
    ensures
        gained(old(out)@, final(out)@, |at: i64| entries_tell(entries_of(c@), at)),
{
    let ghost es = entries_of(c@);
    let ghost before = out@;
    let mut i: usize = 0;
    while i < c.len()
        invariant
            i <= c@.len(),
            es == entries_of(c@),
            forall|at: i64| #[trigger]
                out@.contains(at) <==> before.contains(at) || exists|k: int|
                    0 <= k < i && spans_tell((#[trigger] es[k]).content, at),
        decreases c@.len() - i,
    {
        let ghost was = out@;
        assert(es[i as int] == c@[i as int]@);
        times_in_inlines(&c[i].content, out);
        proof {
            assert forall|at: i64| #[trigger] out@.contains(at) <==> before.contains(at) || exists|
                k: int,
            |
                0 <= k < i + 1 && spans_tell((#[trigger] es[k]).content, at) by {
                assert(out@.contains(at) <==> was.contains(at) || spans_tell(
                    es[i as int].content,
                    at,
                ));
            }
        }
        i += 1;
    }
}

fn times_in_block(b: &Block, out: &mut Vec<i64>)
    ensures
        gained(old(out)@, final(out)@, |at: i64| part_tells(b@, at)),
    decreases *b,
{
    match b {
        Block::Paragraph(c) => times_in_inlines(c, out),
        Block::Heading { content, .. } => times_in_inlines(content, out),
        Block::Subtext(c) => times_in_inlines(c, out),
        Block::Quote(inner) => {
            let ghost ps = parts_of(inner@);
            let ghost before = out@;
            proof {
                markdown::model::lemma_quote_view(*inner);
            }
            let mut i: usize = 0;
            while i < inner.len()
                invariant
                    i <= inner@.len(),
                    ps == parts_of(inner@),
                    b@ == Part::Quote(ps),
                    *b == Block::Quote(*inner),
                    forall|at: i64| #[trigger]
                        out@.contains(at) <==> before.contains(at) || exists|k: int|
                            0 <= k < i && part_tells(#[trigger] ps[k], at),
                decreases inner@.len() - i,
            {
                let ghost was = out@;
                assert(ps[i as int] == inner@[i as int]@);
                times_in_block(&inner[i], out);
                proof {
                    assert forall|at: i64| #[trigger] out@.contains(at) <==> before.contains(at)
                        || exists|k: int| 0 <= k < i + 1 && part_tells(#[trigger] ps[k], at) by {
                        assert(out@.contains(at) <==> was.contains(at) || part_tells(
                            ps[i as int],
                            at,
                        ));
                    }
                }
                i += 1;
            }
            proof {
                assert forall|at: i64| #[trigger] out@.contains(at) <==> before.contains(at)
                    || part_tells(b@, at) by {
                    lemma_quote_tells(ps, at);
                }
            }
        },
        Block::List(items) => times_in_items(items, out),
        Block::Code { .. } => {},
    }
}

/// The moments that a body shows relative to now.
pub fn relative_times(blocks: &Vec<Block>) -> (r: Vec<i64>)
    ensures
        forall|at: i64| #[trigger] r@.contains(at) <==> parts_tell(parts_of(blocks@), at),
{
    let ghost ps = parts_of(blocks@);
    let mut out: Vec<i64> = Vec::new();
    let mut i: usize = 0;
    while i < blocks.len()
        invariant
            i <= blocks@.len(),
            ps == parts_of(blocks@),
            forall|at: i64| #[trigger]
                out@.contains(at) <==> exists|k: int|
                    0 <= k < i && part_tells(#[trigger] ps[k], at),
        decreases blocks@.len() - i,
    {
        let ghost was = out@;
        assert(ps[i as int] == blocks@[i as int]@);
        times_in_block(&blocks[i], &mut out);
        proof {
            assert forall|at: i64| #[trigger] out@.contains(at) <==> exists|k: int|
                0 <= k < i + 1 && part_tells(#[trigger] ps[k], at) by {
                assert(out@.contains(at) <==> was.contains(at) || part_tells(ps[i as int], at));
            }
        }
        i += 1;
    }
    out
}

// ── when to wake ───────────────────────────────────────────────────────────

impl App {
    /// Whether a message of the open channel shows `at` relative to now.
    pub open spec fn tells(self, at: i64) -> bool {
        exists|i: int|
            0 <= i < self.messages().len() && parts_tell(
                markdown::block::body((#[trigger] self.messages()[i]).content@),
                at,
            )
    }

    /// Whether `wake` is how many seconds it takes until something on screen
    /// reads differently: the soonest of all that is relative, and none where
    /// nothing is.
    pub open spec fn goes_stale_in(self, wake: Option<u64>) -> bool {
        match wake {
            None => forall|at: i64| !self.tells(at),
            Some(s) => {
                &&& exists|at: i64| #[trigger] self.tells(at) && lasts(self.given.now_unix - at) == s
                &&& forall|at: i64| #[trigger]
                    self.tells(at) ==> s <= lasts(self.given.now_unix - at)
            },
        }
    }
}

impl Gumicord {
    /// In how many seconds something on screen reads differently by itself.
    pub fn stale_in(&self) -> (r: Option<u64>)
        ensures
            self@.goes_stale_in(r),
            r matches Some(s) ==> 1 <= s <= 86_400,
    {
        let c = match self.live.channel(ChannelId::from(self.chat.selected_channel)) {
            Some(c) => c,
            None => {
                assert(self@.messages().len() == 0);
                return None;
            },
        };
        let ghost ms = self@.messages();
        let now = self.given.now_unix;
        let mut best: Option<u64> = None;
        let mut i: usize = 0;
        while i < c.messages.len()
            invariant
                i <= c.messages@.len(),
                ms == c.messages@,
                now == self.given.now_unix,
                best matches Some(s) ==> 1 <= s <= 86_400,
                soonest_of(best, ms.take(i as int), now),
            decreases c.messages@.len() - i,
        {
            let blocks = markdown::parse(c.messages[i].content.as_str());
            let times = relative_times(&blocks);
            let ghost seen = ms.take(i as int);
            let ghost parts = markdown::block::body(ms[i as int].content@);
            let mut k: usize = 0;
            assert(times@.take(0) =~= Seq::<i64>::empty());
            while k < times.len()
                invariant
                    k <= times@.len(),
                    now == self.given.now_unix,
                    best matches Some(s) ==> 1 <= s <= 86_400,
                    forall|at: i64| #[trigger] times@.contains(at) <==> parts_tell(parts, at),
                    soonest_with(best, seen, times@.take(k as int), now),
                decreases times@.len() - k,
            {
                let s = seconds_until_change(times[k], now);
                let ghost was = best;
                match best {
                    Some(b) => {
                        if s < b {
                            best = Some(s);
                        }
                    },
                    None => {
                        best = Some(s);
                    },
                }
                proof {
                    assert(times@.take(k + 1) =~= times@.take(k as int).push(times@[k as int]));
                    lemma_sooner(was, seen, times@.take(k as int), times@[k as int], s, best, now);
                }
                k += 1;
            }
            proof {
                assert(times@.take(k as int) =~= times@);
                assert(ms.take(i + 1) =~= seen.push(ms[i as int]));
                lemma_one_more(best, seen, ms[i as int], times@, now);
            }
            i += 1;
        }
        assert(ms.take(i as int) =~= ms);
        proof {
            lemma_goes_stale(self@, best);
        }
        best
    }
}

/// Whether one of the messages shows `at` relative to now.
spec fn any_tells(ms: Seq<Message>, at: i64) -> bool {
    exists|i: int|
        0 <= i < ms.len() && parts_tell(markdown::block::body((#[trigger] ms[i]).content@), at)
}

/// Whether `at` is among `more`, or one of the messages shows it.
spec fn told(ms: Seq<Message>, more: Seq<i64>, at: i64) -> bool {
    any_tells(ms, at) || more.contains(at)
}

spec fn soonest_with(
    w: Option<u64>,
    ms: Seq<Message>,
    more: Seq<i64>,
    now: i64,
) -> bool {
    match w {
        None => forall|at: i64| !(#[trigger] told(ms, more, at)),
        Some(s) => {
            &&& exists|at: i64| #[trigger] told(ms, more, at) && lasts(now - at) == s
            &&& forall|at: i64| #[trigger] told(ms, more, at) ==> s <= lasts(now - at)
        },
    }
}

spec fn soonest_of(w: Option<u64>, ms: Seq<Message>, now: i64) -> bool {
    soonest_with(w, ms, Seq::<i64>::empty(), now)
}

proof fn lemma_sooner(
    was: Option<u64>,
    ms: Seq<Message>,
    more: Seq<i64>,
    at: i64,
    s: u64,
    best: Option<u64>,
    now: i64,
)
    requires
        soonest_with(was, ms, more, now),
        s == lasts(now - at),
        best == (match was {
            Some(b) => if s < b {
                Some(s)
            } else {
                Some(b)
            },
            None => Some(s),
        }),
    ensures
        soonest_with(best, ms, more.push(at), now),
{
    lemma_push_contains(more, at);
    let b = best->0;
    let next = more.push(at);
    assert forall|x: i64| #[trigger] told(ms, next, x) == (told(ms, more, x) || x == at) by {}
    if b == s {
        assert(told(ms, next, at));
    } else {
        let x = choose|x: i64| #[trigger] told(ms, more, x) && lasts(now - x) == b;
        assert(told(ms, next, x));
    }
    assert forall|x: i64| #[trigger] told(ms, next, x) implies b <= lasts(now - x) by {
        if x != at {
            assert(told(ms, more, x));
        }
    }
}

proof fn lemma_one_more(
    best: Option<u64>,
    ms: Seq<Message>,
    m: Message,
    times: Seq<i64>,
    now: i64,
)
    requires
        soonest_with(best, ms, times, now),
        forall|at: i64| #[trigger]
            times.contains(at) <==> parts_tell(markdown::block::body(m.content@), at),
    ensures
        soonest_of(best, ms.push(m), now),
{
    let all = ms.push(m);
    let none = Seq::<i64>::empty();
    assert forall|at: i64| #[trigger] any_tells(all, at) == (any_tells(ms, at) || times.contains(
        at,
    )) by {
        if any_tells(ms, at) {
            let i = choose|i: int|
                0 <= i < ms.len() && parts_tell(
                    markdown::block::body((#[trigger] ms[i]).content@),
                    at,
                );
            assert(all[i] == ms[i]);
        }
        if times.contains(at) {
            assert(all[ms.len() as int] == m);
        }
        if any_tells(all, at) {
            let i = choose|i: int|
                0 <= i < all.len() && parts_tell(
                    markdown::block::body((#[trigger] all[i]).content@),
                    at,
                );
            if i < ms.len() {
                assert(ms[i] == all[i]);
            }
        }
    }
    assert forall|x: i64| #[trigger] told(all, none, x) == told(ms, times, x) by {
        assert(any_tells(all, x) == told(ms, times, x));
    }
    if let Some(s) = best {
        let x = choose|x: i64| #[trigger] told(ms, times, x) && lasts(now - x) == s;
        assert(told(all, none, x));
    } else {
        assert forall|x: i64| !(#[trigger] told(all, none, x)) by {
            assert(!told(ms, times, x));
        }
    }
}

proof fn lemma_goes_stale(a: App, best: Option<u64>)
    requires
        soonest_of(best, a.messages(), a.given.now_unix),
    ensures
        a.goes_stale_in(best),
{
    let none = Seq::<i64>::empty();
    assert forall|at: i64| #[trigger] a.tells(at) == told(a.messages(), none, at) by {}
    if let Some(s) = best {
        let x = choose|x: i64| #[trigger]
            told(a.messages(), none, x) && lasts(a.given.now_unix - x) == s;
        assert(a.tells(x));
    }
}

} // verus!
