//! Message timestamps: ISO 8601 in, local day and clock out.
//!
//! The server sends UTC. Grouping and day dividers both key on the reader's
//! own calendar day, so parsing and shifting stay together here.

use vstd::prelude::*;
use vstd::slice::slice_subrange;
use vstd::string::*;
use crate::text;

verus! {

/// Consecutive messages from one author join while closer than this.
pub const GROUP_WINDOW_SECS: i64 = 420;

// ── the calendar ───────────────────────────────────────────────────────────

pub open spec fn leap(y: int) -> bool {
    y % 4 == 0 && (y % 100 != 0 || y % 400 == 0)
}

/// The days of the months before `m` in a year.
pub open spec fn days_before_month(y: int, m: int) -> int {
    let feb: int = if leap(y) { 29 } else { 28 };
    if m <= 1 {
        0
    } else if m == 2 {
        31
    } else if m == 3 {
        31 + feb
    } else if m == 4 {
        62 + feb
    } else if m == 5 {
        92 + feb
    } else if m == 6 {
        123 + feb
    } else if m == 7 {
        153 + feb
    } else if m == 8 {
        184 + feb
    } else if m == 9 {
        215 + feb
    } else if m == 10 {
        245 + feb
    } else if m == 11 {
        276 + feb
    } else if m == 12 {
        306 + feb
    } else {
        337 + feb
    }
}

pub open spec fn month_len(y: int, m: int) -> int {
    days_before_month(y, m + 1) - days_before_month(y, m)
}

/// Days from 0001-01-01 to the first of January of a year.
pub open spec fn days_before_year(y: int) -> int {
    365 * (y - 1) + (y - 1) / 4 - (y - 1) / 100 + (y - 1) / 400
}

/// Days since 1970-01-01 in the Gregorian calendar. A day beyond the month's
/// end counts on into the next month.
pub open spec fn day_number(y: int, m: int, d: int) -> int {
    days_before_year(y) + days_before_month(y, m) + d - 1 - 719162
}

pub open spec fn valid_date(y: int, m: int, d: int) -> bool {
    1 <= m <= 12 && 1 <= d <= month_len(y, m)
}

/// How much later a year begins than the year before it.
proof fn lemma_year_step(y: int)
    ensures
        days_before_year(y + 1) - days_before_year(y) == if leap(y) {
            366int
        } else {
            365
        },
{
    lemma_division_step(y, 4);
    lemma_division_step(y, 100);
    lemma_division_step(y, 400);
    assert(y % 400 == 0 ==> y % 100 == 0) by {
        vstd::arithmetic::div_mod::lemma_mod_mod(y, 100, 4);
    }
    assert(y % 100 == 0 ==> y % 4 == 0) by {
        vstd::arithmetic::div_mod::lemma_mod_mod(y, 4, 25);
    }
}

/// A quotient grows by one exactly where the divisor is met.
proof fn lemma_division_step(y: int, k: int)
    requires
        k > 1,
    ensures
        y / k - (y - 1) / k == if y % k == 0 {
            1int
        } else {
            0
        },
{
    let q = y / k;
    let r = y % k;
    vstd::arithmetic::div_mod::lemma_fundamental_div_mod(y, k);
    if r == 0 {
        assert(y - 1 == (q - 1) * k + (k - 1)) by (nonlinear_arith)
            requires
                y == k * q,
        ;
        vstd::arithmetic::div_mod::lemma_fundamental_div_mod_converse(y - 1, k, q - 1, k - 1);
    } else {
        vstd::arithmetic::div_mod::lemma_mod_bound(y, k);
        assert(y - 1 == q * k + (r - 1)) by (nonlinear_arith)
            requires
                y == k * q + r,
        ;
        vstd::arithmetic::div_mod::lemma_fundamental_div_mod_converse(y - 1, k, q, r - 1);
    }
}

/// A day number by eras of 400 years that begin on the first of March.
proof fn lemma_eras(y: int, era: int, yoe: int)
    requires
        y == era * 400 + yoe,
        0 <= yoe < 400,
    ensures
        days_before_year(y + 1) == era * 146097 + yoe * 365 + yoe / 4 - yoe / 100,
{
    assert(y / 400 == era);
    assert(y / 4 == 100 * era + yoe / 4);
    assert(y / 100 == 4 * era + yoe / 100);
}

/// Days since 1970-01-01. Years are counted from March, so that the leap day
/// is the last one.
pub fn days_from_civil(y: i64, m: i64, d: i64) -> (r: i64)
    requires
        1 <= m <= 12,
        1 <= d <= 31,
        -1_000_000_000_000 <= y <= 1_000_000_000_000,
    ensures
        r == day_number(y as int, m as int, d as int),
{
    let from: i64 = if m <= 2 { y - 1 } else { y };
    let era: i64 = if from >= 0 { from / 400 } else { -((399 - from) / 400) };
    let yoe: i64 = from - era * 400;
    assert(from == era * 400 + yoe && 0 <= yoe < 400);
    let mp: i64 = if m > 2 { m - 3 } else { m + 9 };
    let doy: i64 = (153 * mp + 2) / 5 + d - 1;
    let doe: i64 = yoe * 365 + yoe / 4 - yoe / 100 + doy;
    proof {
        lemma_eras(from as int, era as int, yoe as int);
        lemma_year_step(y as int);
        lemma_march_days(mp as int);
    }
    era * 146097 + doe - 719468
}

/// The year of an era and the day of that year, both counted from March, for
/// a day of the era.
fn year_and_day(doe: i64) -> (r: (i64, i64))
    requires
        0 <= doe < 146097,
    ensures
        0 <= r.0 < 400,
        0 <= r.1 <= 365,
        doe == r.0 * 365 + r.0 / 4 - r.0 / 100 + r.1,
        r.1 == 365 ==> leap(r.0 + 1),
{
    // Centuries, then four years, then years; the last of each is the one
    // with the extra day.
    let century: i64 = if doe / 36524 > 3 { 3 } else { doe / 36524 };
    let in_century: i64 = doe - century * 36524;
    let four: i64 = in_century / 1461;
    let in_four: i64 = in_century - four * 1461;
    let one: i64 = if in_four / 365 > 3 { 3 } else { in_four / 365 };
    let doy: i64 = in_four - one * 365;
    let yoe: i64 = century * 100 + four * 4 + one;
    proof {
        assert(yoe / 4 == century * 25 + four);
        assert(yoe / 100 == century);
        if doy == 365 {
            assert(one == 3 && (four < 24 || century == 3));
        }
    }
    (yoe, doy)
}

/// The days before the `mp`-th month of a year that begins in March.
pub open spec fn march_days(mp: int) -> int {
    (153 * mp + 2) / 5
}

/// The month and the day in it for a day of a year that begins in March; the
/// months are counted from March.
fn month_and_day(doy: i64) -> (r: (i64, i64))
    requires
        0 <= doy <= 365,
    ensures
        0 <= r.0 <= 11,
        1 <= r.1,
        doy == march_days(r.0 as int) + r.1 - 1,
        r.0 < 11 ==> doy < march_days(r.0 + 1),
{
    let mp: i64 = (5 * doy + 2) / 153;
    let d: i64 = doy - (153 * mp + 2) / 5 + 1;
    (mp, d)
}

proof fn lemma_march_days(mp: int)
    requires
        0 <= mp <= 11,
    ensures
        march_days(mp) == if mp == 0 { 0int } else if mp == 1 { 31 } else if mp == 2 {
            61
        } else if mp == 3 { 92 } else if mp == 4 { 122 } else if mp == 5 { 153 } else if mp == 6 {
            184
        } else if mp == 7 { 214 } else if mp == 8 { 245 } else if mp == 9 { 275 } else if mp == 10 {
            306
        } else { 337 },
{
}

proof fn lemma_leap_by_era(y: int, era: int)
    ensures
        leap(y + era * 400) == leap(y),
{
    let z = y + era * 400;
    assert(z % 400 == y % 400);
    vstd::arithmetic::div_mod::lemma_mod_mod(z, 100, 4);
    vstd::arithmetic::div_mod::lemma_mod_mod(y, 100, 4);
    vstd::arithmetic::div_mod::lemma_mod_mod(z, 4, 100);
    vstd::arithmetic::div_mod::lemma_mod_mod(y, 4, 100);
}

/// The date of a day number.
pub fn civil_from_days(z: i64) -> (r: (i64, i64, i64))
    requires
        -300_000_000_000_000 <= z <= 300_000_000_000_000,
    ensures
        valid_date(r.0 as int, r.1 as int, r.2 as int),
        day_number(r.0 as int, r.1 as int, r.2 as int) == z,
        -1_000_000_000_000 < r.0 < 1_000_000_000_000,
{
    let from_march: i64 = z + 719468;
    let era: i64 = if from_march >= 0 {
        from_march / 146097
    } else {
        -((146096 - from_march) / 146097)
    };
    let doe: i64 = from_march - era * 146097;
    let (yoe, doy) = year_and_day(doe);
    let (mp, d) = month_and_day(doy);
    let from: i64 = yoe + era * 400;
    let m: i64 = if mp < 10 { mp + 3 } else { mp - 9 };
    let y: i64 = if m <= 2 { from + 1 } else { from };
    proof {
        lemma_eras(from as int, era as int, yoe as int);
        lemma_year_step(y as int);
        lemma_leap_by_era(yoe + 1, era as int);
        lemma_march_days(mp as int);
        if mp < 11 {
            lemma_march_days(mp + 1);
        }
    }
    (y, m, d)
}

proof fn lemma_day_number_order(y1: int, m1: int, d1: int, y2: int, m2: int, d2: int)
    requires
        valid_date(y1, m1, d1),
        valid_date(y2, m2, d2),
        y1 < y2,
    ensures
        day_number(y1, m1, d1) < day_number(y2, m2, d2),
{
    lemma_year_step(y1);
    lemma_years_grow(y1 + 1, y2);
}

proof fn lemma_years_grow(a: int, b: int)
    requires
        a <= b,
    ensures
        days_before_year(a) <= days_before_year(b),
    decreases b - a,
{
    if a < b {
        lemma_year_step(a);
        lemma_years_grow(a + 1, b);
    }
}

/// No two dates have the same day number: what [`civil_from_days`] gives is
/// the only date of its day.
pub proof fn one_date_per_day(y1: int, m1: int, d1: int, y2: int, m2: int, d2: int)
    requires
        valid_date(y1, m1, d1),
        valid_date(y2, m2, d2),
        day_number(y1, m1, d1) == day_number(y2, m2, d2),
    ensures
        y1 == y2 && m1 == m2 && d1 == d2,
{
    if y1 < y2 {
        lemma_day_number_order(y1, m1, d1, y2, m2, d2);
    } else if y2 < y1 {
        lemma_day_number_order(y2, m2, d2, y1, m1, d1);
    }
}

// ── timestamps ─────────────────────────────────────────────────────────────

/// Three whole numbers between two separators each.
pub open spec fn three_numbers(s: Seq<char>, sep: char) -> Option<(i64, i64, i64)> {
    let p = text::split(s, sep);
    if p.len() != 3 {
        None
    } else {
        match (text::signed_number(p[0]), text::signed_number(p[1]), text::signed_number(p[2])) {
            (Some(a), Some(b), Some(c)) => Some((a, b, c)),
            _ => None,
        }
    }
}

/// Hours, minutes and seconds; a fraction of a second is dropped.
pub open spec fn clock_of(s: Seq<char>) -> Option<(i64, i64, i64)> {
    let p = text::split(s, ':');
    if p.len() != 3 {
        None
    } else {
        let whole = p[2].take(text::index_from(p[2], '.', 0));
        match (text::signed_number(p[0]), text::signed_number(p[1]), text::signed_number(whole)) {
            (Some(a), Some(b), Some(c)) => Some((a, b, c)),
            _ => None,
        }
    }
}

/// The offset of a zone in seconds: `Z`, or a sign, hours and minutes.
pub open spec fn zone_of(z: Seq<char>) -> Option<int> {
    if z == seq!['Z'] {
        Some(0)
    } else if z.len() > 0 && (z[0] == '+' || z[0] == '-') {
        let p = text::split(z.skip(1), ':');
        if p.len() != 2 {
            None
        } else {
            match (text::signed_number(p[0]), text::signed_number(p[1])) {
                (Some(h), Some(m)) => if z[0] == '+' {
                    Some(h * 3600 + m * 60)
                } else {
                    Some(-(h * 3600 + m * 60))
                },
                _ => None,
            }
        }
    } else {
        None
    }
}

/// The first `Z`, `+` or `-` at or after `i`, or the length.
pub open spec fn zone_start(s: Seq<char>, i: int) -> int
    decreases s.len() - i,
{
    if i < 0 || i >= s.len() {
        s.len() as int
    } else if s[i] == 'Z' || s[i] == '+' || s[i] == '-' {
        i
    } else {
        zone_start(s, i + 1)
    }
}

/// The parts of a timestamp: date, clock and offset.
pub ghost struct Stamp {
    pub date: (i64, i64, i64),
    pub clock: (i64, i64, i64),
    pub offset: int,
}

pub open spec fn stamp_of(iso: Seq<char>) -> Option<Stamp> {
    let t = text::index_from(iso, 'T', 0);
    if t >= iso.len() {
        None
    } else {
        let rest = iso.skip(t + 1);
        let at = zone_start(rest, 0);
        match (three_numbers(iso.take(t), '-'), clock_of(rest.take(at)), zone_of(rest.skip(at))) {
            (Some(date), Some(clock), Some(offset)) if at < rest.len() => Some(
                Stamp { date, clock, offset },
            ),
            _ => None,
        }
    }
}

/// Whether the parts are within their ranges; a leap second counts.
pub open spec fn plausible(s: Stamp) -> bool {
    let (y, m, d) = s.date;
    let (hour, min, sec) = s.clock;
    &&& 1 <= m <= 12
    &&& 1 <= d <= 31
    &&& 0 <= hour < 24
    &&& 0 <= min < 60
    &&& 0 <= sec <= 60
    &&& -50400 <= s.offset <= 50400
}

/// The UNIX seconds of a timestamp's parts.
pub open spec fn seconds_of(s: Stamp) -> int {
    day_number(s.date.0 as int, s.date.1 as int, s.date.2 as int) * 86400 + s.clock.0 * 3600
        + s.clock.1 * 60 + s.clock.2 - s.offset
}

/// The UNIX seconds of a timestamp; `None` where it is none, or where they do
/// not fit.
pub open spec fn unix_of(iso: Seq<char>) -> Option<i64> {
    match stamp_of(iso) {
        Some(s) => if plausible(s) && i64::MIN <= seconds_of(s) <= i64::MAX {
            Some(seconds_of(s) as i64)
        } else {
            None
        },
        None => None,
    }
}

fn read_three(s: &[char], sep: char) -> (r: Option<(i64, i64, i64)>)
    ensures
        r == three_numbers(s@, sep),
{
    let p = text::split_at_char(s, sep);
    assert(text::texts(p@).len() == p.len());
    if p.len() != 3 {
        return None;
    }
    assert(text::texts(p@)[0] == p[0]@ && text::texts(p@)[1] == p[1]@ && text::texts(p@)[2]
        == p[2]@);
    match (
        text::parse_signed(p[0].as_slice()),
        text::parse_signed(p[1].as_slice()),
        text::parse_signed(p[2].as_slice()),
    ) {
        (Some(a), Some(b), Some(c)) => Some((a, b, c)),
        _ => None,
    }
}

fn read_clock(s: &[char]) -> (r: Option<(i64, i64, i64)>)
    ensures
        r == clock_of(s@),
{
    let p = text::split_at_char(s, ':');
    assert(text::texts(p@).len() == p.len());
    if p.len() != 3 {
        return None;
    }
    assert(text::texts(p@)[0] == p[0]@ && text::texts(p@)[1] == p[1]@ && text::texts(p@)[2]
        == p[2]@);
    let last = p[2].as_slice();
    let dot = text::find_from(last, '.', 0);
    let whole = slice_subrange(last, 0, dot);
    assert(whole@ =~= last@.take(dot as int));
    match (
        text::parse_signed(p[0].as_slice()),
        text::parse_signed(p[1].as_slice()),
        text::parse_signed(whole),
    ) {
        (Some(a), Some(b), Some(c)) => Some((a, b, c)),
        _ => None,
    }
}

fn read_zone(z: &[char]) -> (r: Option<i128>)
    ensures
        match r {
            Some(o) => zone_of(z@) == Some(o as int),
            None => zone_of(z@) is None,
        },
{
    if z.len() == 1 && z[0] == 'Z' {
        assert(z@ =~= seq!['Z']);
        return Some(0);
    }
    if z.len() == 0 || !(z[0] == '+' || z[0] == '-') {
        return None;
    }
    assert(z@ != seq!['Z']) by {
        assert(z@[0] != 'Z');
    }
    let digits = slice_subrange(z, 1, z.len());
    assert(digits@ =~= z@.skip(1));
    let p = text::split_at_char(digits, ':');
    assert(text::texts(p@).len() == p.len());
    if p.len() != 2 {
        return None;
    }
    assert(text::texts(p@)[0] == p[0]@ && text::texts(p@)[1] == p[1]@);
    match (text::parse_signed(p[0].as_slice()), text::parse_signed(p[1].as_slice())) {
        (Some(h), Some(m)) => {
            let size: i128 = h as i128 * 3600 + m as i128 * 60;
            Some(if z[0] == '+' { size } else { -size })
        },
        _ => None,
    }
}

fn find_zone(s: &[char]) -> (r: usize)
    ensures
        r == zone_start(s@, 0),
        r <= s.len(),
{
    let mut i: usize = 0;
    while i < s.len() && !(s[i] == 'Z' || s[i] == '+' || s[i] == '-')
        invariant
            i <= s.len(),
            zone_start(s@, 0) == zone_start(s@, i as int),
        decreases s.len() - i,
    {
        i += 1;
    }
    i
}

/// A year whose seconds cannot fit lies outside the bounds that the calendar
/// is computed in.
proof fn lemma_far_years(y: int, m: int, d: int)
    requires
        1 <= m <= 12,
        1 <= d <= 31,
    ensures
        y > 1_000_000_000_000 ==> day_number(y, m, d) > 300_000_000_000_000,
        y < -1_000_000_000_000 ==> day_number(y, m, d) < -300_000_000_000_000,
{
}

/// Parses an ISO 8601 timestamp to UNIX seconds.
///
/// Accepts `Z` and numeric offsets. Fractions are read and dropped: grouping
/// compares whole seconds. What is out of range is rejected, not guessed.
pub fn parse_unix(iso: &str) -> (r: Option<i64>)
    ensures
        r == unix_of(iso@),
{
    let chars = text::chars(iso);
    let c = chars.as_slice();
    let t = text::find_from(c, 'T', 0);
    if t == c.len() {
        return None;
    }
    let date = slice_subrange(c, 0, t);
    assert(date@ =~= c@.take(t as int));
    let rest = slice_subrange(c, t + 1, c.len());
    assert(rest@ =~= c@.skip(t + 1));
    let at = find_zone(rest);
    if at == rest.len() {
        return None;
    }
    let clock = slice_subrange(rest, 0, at);
    assert(clock@ =~= rest@.take(at as int));
    let zone = slice_subrange(rest, at, rest.len());
    assert(zone@ =~= rest@.skip(at as int));
    let (y, m, day) = match read_three(date, '-') {
        Some(v) => v,
        None => {
            return None;
        },
    };
    let (hour, min, sec) = match read_clock(clock) {
        Some(v) => v,
        None => {
            return None;
        },
    };
    let offset = match read_zone(zone) {
        Some(v) => v,
        None => {
            return None;
        },
    };
    if !(1 <= m && m <= 12 && 1 <= day && day <= 31 && 0 <= hour && hour < 24 && 0 <= min && min
        < 60 && 0 <= sec && sec <= 60 && -50400 <= offset && offset <= 50400) {
        return None;
    }
    proof {
        lemma_far_years(y as int, m as int, day as int);
    }
    if y < -1_000_000_000_000 || y > 1_000_000_000_000 {
        return None;
    }
    let days = days_from_civil(y, m, day);
    let total: i128 = days as i128 * 86400 + hour as i128 * 3600 + min as i128 * 60 + sec as i128
        - offset;
    if total < i64::MIN as i128 || total > i64::MAX as i128 {
        None
    } else {
        Some(total as i64)
    }
}

/// A timestamp with an offset names the same instant as its parts do at UTC,
/// moved by the offset.
pub proof fn offsets_shift_the_instant(s: Stamp, offset: int)
    ensures
        seconds_of(s) == seconds_of(Stamp { offset, ..s }) + offset - s.offset,
{
}

// ── the reader's day ───────────────────────────────────────────────────────

/// A number with its sign, in decimal.
pub open spec fn signed_dec(n: int) -> Seq<char> {
    if n < 0 {
        "-"@ + text::dec((-n) as nat)
    } else {
        text::dec(n as nat)
    }
}

/// A date as it is shown.
pub open spec fn day_label(y: int, m: int, d: int) -> Seq<char> {
    signed_dec(y) + "年"@ + text::dec(m as nat) + "月"@ + text::dec(d as nat) + "日"@
}

pub open spec fn shifted(unix: i64, offset_minutes: i32) -> int {
    unix + offset_minutes * 60
}

/// The label is the date of the shifted instant's day.
pub open spec fn is_day_label(label: Seq<char>, unix: i64, offset_minutes: i32) -> bool {
    exists|y: int, m: int, d: int|
        valid_date(y, m, d) && #[trigger] day_number(y, m, d) == shifted(unix, offset_minutes)
            / 86400 && label == day_label(y, m, d)
}

/// The label of the local day that an instant falls on.
pub open spec fn day_shown(unix: i64, offset_minutes: i32) -> Seq<char> {
    choose|label: Seq<char>| is_day_label(label, unix, offset_minutes)
}

fn signed_string(n: i64) -> (r: String)
    requires
        n > i64::MIN,
    ensures
        r@ == signed_dec(n as int),
{
    if n < 0 {
        let mut s = "-".to_owned();
        s.append(text::dec_string((-n) as u64).as_str());
        s
    } else {
        text::dec_string(n as u64)
    }
}

/// Local day label and clock for UNIX seconds, for a reader whose clock is
/// `offset_minutes` ahead of UTC.
///
/// The label doubles as the grouping key: equal strings mean the same day.
/// Absolute, never relative: "today" would go stale at midnight.
pub fn local_day_hm(unix: i64, offset_minutes: i32) -> (r: (String, u32, u32))
    ensures
        is_day_label(r.0@, unix, offset_minutes),
        r.0@ == day_shown(unix, offset_minutes),
        r.1 == shifted(unix, offset_minutes) % 86400 / 3600,
        r.2 == shifted(unix, offset_minutes) % 86400 % 3600 / 60,
        r.1 < 24,
        r.2 < 60,
{
    let at: i128 = unix as i128 + offset_minutes as i128 * 60;
    let days: i128 = if at >= 0 { at / 86400 } else { -((86399 - at) / 86400) };
    let clock: i128 = at - days * 86400;
    assert(0 <= clock < 86400);
    proof {
        vstd::arithmetic::div_mod::lemma_fundamental_div_mod_converse(
            at as int,
            86400,
            days as int,
            clock as int,
        );
    }
    let (y, m, d) = civil_from_days(days as i64);
    let mut label = signed_string(y);
    label.append("年");
    label.append(text::dec_string(m as u64).as_str());
    label.append("月");
    label.append(text::dec_string(d as u64).as_str());
    label.append("日");
    assert(day_number(y as int, m as int, d as int) == shifted(unix, offset_minutes) / 86400);
    assert(is_day_label(label@, unix, offset_minutes));
    proof {
        label_is_the_day(label@, day_shown(unix, offset_minutes), unix, unix, offset_minutes);
    }
    (label, (clock / 3600) as u32, ((clock % 3600) / 60) as u32)
}

/// Whether a message continues the previous one's run.
pub open spec fn continues_run(
    prev_day: Seq<char>,
    prev_unix: i64,
    day: Seq<char>,
    unix: i64,
) -> bool {
    day.len() > 0 && prev_day == day && unix - prev_unix < GROUP_WINDOW_SECS
}

/// Whether a message continues the previous one's run: same local day and
/// inside the grouping window. The author check stays with the caller, which
/// owns names.
pub fn continues(prev_day: &str, prev_unix: i64, day: &str, unix: i64) -> (r: bool)
    ensures
        r == continues_run(prev_day@, prev_unix, day@, unix),
{
    text::chars(day).len() > 0 && text::same_text(prev_day, day) && (unix as i128)
        - (prev_unix as i128) < GROUP_WINDOW_SECS as i128
}


// ── laws of the label ──────────────────────────────────────────────────────

/// Where two texts agree and a mark first stands at the ends of their heads,
/// heads and tails agree.
proof fn lemma_same_heads(a: Seq<char>, b: Seq<char>, mark: Seq<char>, x: Seq<char>, y: Seq<char>)
    requires
        mark.len() == 1,
        a + mark + x == b + mark + y,
        forall|i: int| 0 <= i < a.len() ==> a[i] != mark[0],
        forall|i: int| 0 <= i < b.len() ==> b[i] != mark[0],
    ensures
        a == b,
        x == y,
{
    let s = a + mark + x;
    let t = b + mark + y;
    assert(s[a.len() as int] == mark[0]);
    assert(t[b.len() as int] == mark[0]);
    if a.len() < b.len() {
        assert(t[a.len() as int] == b[a.len() as int]);
    } else if b.len() < a.len() {
        assert(s[b.len() as int] == a[b.len() as int]);
    }
    assert(a =~= b) by {
        assert forall|i: int| 0 <= i < a.len() implies a[i] == b[i] by {
            assert(s[i] == a[i]);
            assert(t[i] == b[i]);
        }
    }
    assert(s.len() == a.len() + 1 + x.len() && t.len() == b.len() + 1 + y.len());
    assert(x =~= y) by {
        assert forall|i: int| 0 <= i < x.len() implies x[i] == y[i] by {
            assert(s[a.len() + 1 + i] == x[i]);
            assert(t[a.len() + 1 + i] == y[i]);
        }
    }
}

proof fn lemma_dec_injective(a: nat, b: nat)
    requires
        text::dec(a) == text::dec(b),
    ensures
        a == b,
{
    text::dec_reads_back(a);
    text::dec_reads_back(b);
}

proof fn lemma_signed_dec(n: int)
    ensures
        forall|i: int|
            0 <= i < signed_dec(n).len() ==> (text::is_digit(#[trigger] signed_dec(n)[i])
                || signed_dec(n)[i] == '-'),
        signed_dec(n).len() > 0,
        signed_dec(n)[0] == '-' <==> n < 0,
        n < 0 ==> signed_dec(n).skip(1) == text::dec((-n) as nat),
{
    reveal_strlit("-");
    if n < 0 {
        text::dec_reads_back((-n) as nat);
        assert(signed_dec(n).skip(1) =~= text::dec((-n) as nat));
        assert forall|i: int| 0 <= i < signed_dec(n).len() implies (text::is_digit(
            #[trigger] signed_dec(n)[i],
        ) || signed_dec(n)[i] == '-') by {
            if i > 0 {
                assert(signed_dec(n)[i] == text::dec((-n) as nat)[i - 1]);
                assert(text::is_digit(text::dec((-n) as nat)[i - 1]));
            }
        }
    } else {
        text::dec_reads_back(n as nat);
        assert(text::is_digit(text::dec(n as nat)[0]));
    }
}

proof fn lemma_signed_dec_injective(a: int, b: int)
    requires
        signed_dec(a) == signed_dec(b),
    ensures
        a == b,
{
    lemma_signed_dec(a);
    lemma_signed_dec(b);
    if a < 0 {
        lemma_dec_injective((-a) as nat, (-b) as nat);
    } else {
        lemma_dec_injective(a as nat, b as nat);
    }
}

/// Equal labels mean the same date.
pub proof fn labels_tell_days_apart(y1: int, m1: int, d1: int, y2: int, m2: int, d2: int)
    requires
        valid_date(y1, m1, d1),
        valid_date(y2, m2, d2),
        day_label(y1, m1, d1) == day_label(y2, m2, d2),
    ensures
        y1 == y2 && m1 == m2 && d1 == d2,
{
    reveal_strlit("年");
    reveal_strlit("月");
    reveal_strlit("日");
    lemma_month_len(y1, m1);
    lemma_month_len(y2, m2);
    lemma_signed_dec(y1);
    lemma_signed_dec(y2);
    text::dec_reads_back(m1 as nat);
    text::dec_reads_back(m2 as nat);
    text::dec_reads_back(d1 as nat);
    text::dec_reads_back(d2 as nat);
    let x1 = text::dec(m1 as nat) + "月"@ + (text::dec(d1 as nat) + "日"@);
    let x2 = text::dec(m2 as nat) + "月"@ + (text::dec(d2 as nat) + "日"@);
    assert(day_label(y1, m1, d1) =~= signed_dec(y1) + "年"@ + x1);
    assert(day_label(y2, m2, d2) =~= signed_dec(y2) + "年"@ + x2);
    lemma_same_heads(signed_dec(y1), signed_dec(y2), "年"@, x1, x2);
    lemma_signed_dec_injective(y1, y2);
    lemma_same_heads(
        text::dec(m1 as nat),
        text::dec(m2 as nat),
        "月"@,
        text::dec(d1 as nat) + "日"@,
        text::dec(d2 as nat) + "日"@,
    );
    lemma_dec_injective(m1 as nat, m2 as nat);
    assert(text::dec(d1 as nat) + "日"@ =~= text::dec(d1 as nat) + "日"@ + Seq::<char>::empty());
    assert(text::dec(d2 as nat) + "日"@ =~= text::dec(d2 as nat) + "日"@ + Seq::<char>::empty());
    lemma_same_heads(
        text::dec(d1 as nat),
        text::dec(d2 as nat),
        "日"@,
        Seq::empty(),
        Seq::empty(),
    );
    lemma_dec_injective(d1 as nat, d2 as nat);
}

proof fn lemma_month_len(y: int, m: int)
    requires
        1 <= m <= 12,
    ensures
        28 <= month_len(y, m) <= 31,
{
}

/// The label is a grouping key: two instants have the same label exactly where
/// they fall on the same local day. So instants a day apart never share one.
pub proof fn label_is_the_day(a: Seq<char>, b: Seq<char>, at: i64, bt: i64, offset_minutes: i32)
    requires
        is_day_label(a, at, offset_minutes),
        is_day_label(b, bt, offset_minutes),
    ensures
        a == b <==> shifted(at, offset_minutes) / 86400 == shifted(bt, offset_minutes) / 86400,
        bt - at == 86400 ==> a != b,
{
    let (y1, m1, d1) = choose|y: int, m: int, d: int|
        valid_date(y, m, d) && #[trigger] day_number(y, m, d) == shifted(at, offset_minutes) / 86400
            && a == day_label(y, m, d);
    let (y2, m2, d2) = choose|y: int, m: int, d: int|
        valid_date(y, m, d) && #[trigger] day_number(y, m, d) == shifted(bt, offset_minutes) / 86400
            && b == day_label(y, m, d);
    if a == b {
        labels_tell_days_apart(y1, m1, d1, y2, m2, d2);
    }
    if day_number(y1, m1, d1) == day_number(y2, m2, d2) {
        one_date_per_day(y1, m1, d1, y2, m2, d2);
    }
}

// ── laws of the calendar ───────────────────────────────────────────────────

/// The months have their lengths, and February has one day more in leap years:
/// those divisible by four, but for centuries that four hundred does not divide.
pub proof fn months_have_their_lengths(y: int)
    ensures
        month_len(y, 1) == 31,
        month_len(y, 2) == (if y % 4 == 0 && (y % 100 != 0 || y % 400 == 0) {
            29int
        } else {
            28
        }),
        month_len(y, 3) == 31,
        month_len(y, 4) == 30,
        month_len(y, 5) == 31,
        month_len(y, 6) == 30,
        month_len(y, 7) == 31,
        month_len(y, 8) == 31,
        month_len(y, 9) == 30,
        month_len(y, 10) == 31,
        month_len(y, 11) == 30,
        month_len(y, 12) == 31,
{
}

/// Days are counted one by one from the first day of 1970: the next day of a
/// month, the first of the next month behind its last day, and the first of the
/// next year behind the last of December each count one more.
pub proof fn days_are_counted_one_by_one(y: int, m: int, d: int)
    requires
        valid_date(y, m, d),
    ensures
        day_number(1970, 1, 1) == 0,
        d < month_len(y, m) ==> day_number(y, m, d + 1) == day_number(y, m, d) + 1,
        d == month_len(y, m) && m < 12 ==> day_number(y, m + 1, 1) == day_number(y, m, d) + 1,
        d == month_len(y, m) && m == 12 ==> day_number(y + 1, 1, 1) == day_number(y, m, d) + 1,
{
    lemma_year_step(y);
}

proof fn lemma_split_first(a: Seq<char>, sep: char, rest: Seq<char>)
    requires
        forall|i: int| 0 <= i < a.len() ==> #[trigger] a[i] != sep,
    ensures
        text::split(a + seq![sep] + rest, sep) == seq![a] + text::split(rest, sep),
{
    let s = a + seq![sep] + rest;
    text::lemma_index_from(s, sep, 0);
    let k = text::index_from(s, sep, 0);
    assert(s[a.len() as int] == sep);
    if k < a.len() {
        assert(s[k] == a[k]);
    }
    assert(k == a.len());
    assert(s.take(k) =~= a);
    assert(s.skip(k + 1) =~= rest);
}

proof fn lemma_split_none(a: Seq<char>, sep: char)
    requires
        forall|i: int| 0 <= i < a.len() ==> #[trigger] a[i] != sep,
    ensures
        text::split(a, sep) == seq![a],
{
    text::lemma_index_from(a, sep, 0);
    let k = text::index_from(a, sep, 0);
    if k < a.len() {
        assert(a[k] == sep);
    }
}

/// Decimal digits for a number.
pub open spec fn writes(s: Seq<char>, n: int) -> bool {
    s.len() > 0 && text::all_digits(s) && text::dec_value(s) == n && n <= i64::MAX
}

proof fn lemma_writes(s: Seq<char>, n: int)
    requires
        writes(s, n),
    ensures
        text::signed_number(s) == Some(n as i64),
        forall|i: int|
            0 <= i < s.len() ==> '0' <= #[trigger] s[i] <= '9',
{
    assert(text::is_digit(s[0]));
    assert forall|i: int| 0 <= i < s.len() implies '0' <= #[trigger] s[i] <= '9' by {
        assert(text::is_digit(s[i]));
    }
}

/// A date and a time of day, each of three numbers.
pub ghost struct Moment {
    pub year: int,
    pub month: int,
    pub day: int,
    pub hour: int,
    pub minute: int,
    pub second: int,
}

/// The six numbers as they are written.
pub ghost struct Digits {
    pub year: Seq<char>,
    pub month: Seq<char>,
    pub day: Seq<char>,
    pub hour: Seq<char>,
    pub minute: Seq<char>,
    pub second: Seq<char>,
}

pub open spec fn write_moment(d: Digits, m: Moment) -> bool {
    &&& writes(d.year, m.year)
    &&& writes(d.month, m.month)
    &&& writes(d.day, m.day)
    &&& writes(d.hour, m.hour)
    &&& writes(d.minute, m.minute)
    &&& writes(d.second, m.second)
}

pub open spec fn date_text(d: Digits) -> Seq<char> {
    d.year + seq!['-'] + (d.month + seq!['-'] + d.day)
}

pub open spec fn clock_text(d: Digits) -> Seq<char> {
    d.hour + seq![':'] + (d.minute + seq![':'] + d.second)
}

/// A timestamp at UTC is the seconds since 1970 of its date and time of day; a
/// day has 86400 of them, an hour 3600 and a minute 60.
#[verifier::spinoff_prover]
#[verifier::rlimit(60)]
pub proof fn timestamps_are_seconds(d: Digits, m: Moment)
    requires
        write_moment(d, m),
        1 <= m.month <= 12,
        1 <= m.day <= 31,
        m.hour < 24,
        m.minute < 60,
        m.second <= 60,
        m.year < 1_000_000,
    ensures
        unix_of(date_text(d) + seq!['T'] + (clock_text(d) + seq!['Z'])) matches Some(t) && t
            == day_number(m.year, m.month, m.day) * 86400 + m.hour * 3600 + m.minute * 60
            + m.second,
{
    lemma_writes(d.year, m.year);
    lemma_writes(d.month, m.month);
    lemma_writes(d.day, m.day);
    lemma_writes(d.hour, m.hour);
    lemma_writes(d.minute, m.minute);
    lemma_writes(d.second, m.second);
    let date = date_text(d);
    let clock = clock_text(d);
    let rest = clock + seq!['Z'];
    let iso = date + seq!['T'] + rest;
    lemma_split_first(d.year, '-', d.month + seq!['-'] + d.day);
    lemma_split_first(d.month, '-', d.day);
    lemma_split_none(d.day, '-');
    let p = text::split(date, '-');
    assert(p =~= seq![d.year, d.month, d.day]);
    assert(three_numbers(date, '-') == Some((m.year as i64, m.month as i64, m.day as i64)));
    lemma_split_first(d.hour, ':', d.minute + seq![':'] + d.second);
    lemma_split_first(d.minute, ':', d.second);
    lemma_split_none(d.second, ':');
    let q = text::split(clock, ':');
    assert(q =~= seq![d.hour, d.minute, d.second]);
    text::lemma_index_from(d.second, '.', 0);
    let dot = text::index_from(d.second, '.', 0);
    if dot < d.second.len() {
        assert(d.second[dot] == '.');
    }
    assert(d.second.take(dot) =~= d.second);
    assert(clock_of(clock) == Some((m.hour as i64, m.minute as i64, m.second as i64)));
    assert forall|i: int| 0 <= i < date.len() implies #[trigger] date[i] != 'T' by {
        lemma_date_char(d, i);
    }
    text::lemma_index_from(iso, 'T', 0);
    let t = text::index_from(iso, 'T', 0);
    assert(iso[date.len() as int] == 'T');
    if t < date.len() {
        assert(iso[t] == date[t]);
    }
    assert(t == date.len());
    assert(iso.take(t) =~= date);
    assert(iso.skip(t + 1) =~= rest);
    assert forall|i: int| 0 <= i < clock.len() implies '0' <= #[trigger] clock[i] <= ':' by {
        lemma_clock_char(d, i);
    }
    lemma_zone_start(rest, clock.len() as int, 0);
    let at = zone_start(rest, 0);
    assert(rest.take(at) =~= clock);
    assert(rest.skip(at) =~= seq!['Z']);
    let s = Stamp {
        date: (m.year as i64, m.month as i64, m.day as i64),
        clock: (m.hour as i64, m.minute as i64, m.second as i64),
        offset: 0,
    };
    assert(stamp_of(iso) == Some(s));
    lemma_writes_nat(d.year, m.year);
    lemma_writes_nat(d.hour, m.hour);
    lemma_writes_nat(d.minute, m.minute);
    lemma_writes_nat(d.second, m.second);
    assert(0 <= days_before_month(m.year, m.month) <= 366);
    assert(-1000 <= days_before_year(m.year) <= 400_000_000);
}

proof fn lemma_writes_nat(s: Seq<char>, n: int)
    requires
        writes(s, n),
    ensures
        n >= 0,
{
}

proof fn lemma_date_char(d: Digits, i: int)
    requires
        0 <= i < date_text(d).len(),
        text::all_digits(d.year),
        text::all_digits(d.month),
        text::all_digits(d.day),
    ensures
        date_text(d)[i] == '-' || '0' <= date_text(d)[i] <= '9',
{
    let a = d.year.len() as int;
    let b = a + 1 + d.month.len();
    if i < a {
        assert(text::is_digit(d.year[i]));
    } else if a < i < b {
        assert(text::is_digit(d.month[i - a - 1]));
    } else if i > b {
        assert(text::is_digit(d.day[i - b - 1]));
    }
}

proof fn lemma_clock_char(d: Digits, i: int)
    requires
        0 <= i < clock_text(d).len(),
        text::all_digits(d.hour),
        text::all_digits(d.minute),
        text::all_digits(d.second),
    ensures
        '0' <= clock_text(d)[i] <= ':',
{
    let a = d.hour.len() as int;
    let b = a + 1 + d.minute.len();
    if i < a {
        assert(text::is_digit(d.hour[i]));
    } else if a < i < b {
        assert(text::is_digit(d.minute[i - a - 1]));
    } else if i > b {
        assert(text::is_digit(d.second[i - b - 1]));
    }
}

proof fn lemma_zone_start(s: Seq<char>, at: int, i: int)
    requires
        0 <= i <= at < s.len(),
        s[at] == 'Z' || s[at] == '+' || s[at] == '-',
        forall|k: int| 0 <= k < at ==> '0' <= #[trigger] s[k] <= ':',
    ensures
        zone_start(s, i) == at,
    decreases at - i,
{
    if i < at {
        assert('0' <= s[i] <= ':');
        lemma_zone_start(s, at, i + 1);
    }
}

/// A zone is `Z`, or hours and minutes ahead of UTC or behind it.
pub proof fn zones_are_read(hour: Seq<char>, minute: Seq<char>, h: int, m: int)
    requires
        writes(hour, h),
        writes(minute, m),
    ensures
        zone_of(seq!['Z']) == Some(0int),
        zone_of(seq!['+'] + (hour + seq![':'] + minute)) == Some(h * 3600 + m * 60),
        zone_of(seq!['-'] + (hour + seq![':'] + minute)) == Some(-(h * 3600 + m * 60)),
{
    lemma_writes(hour, h);
    lemma_writes(minute, m);
    let body = hour + seq![':'] + minute;
    lemma_split_first(hour, ':', minute);
    lemma_split_none(minute, ':');
    assert(text::split(body, ':') =~= seq![hour, minute]);
    assert((seq!['+'] + body).skip(1) =~= body);
    assert((seq!['-'] + body).skip(1) =~= body);
    assert((seq!['+'] + body)[0] == '+' && (seq!['-'] + body)[0] == '-');
    assert(seq!['Z'][0] == 'Z');
}

/// A message goes on with the one before it on the same day within seven
/// minutes; without a day it does not.
pub proof fn runs_last_seven_minutes(prev_day: Seq<char>, prev: i64, day: Seq<char>, at: i64)
    ensures
        continues_run(prev_day, prev, day, at) <==> day.len() > 0 && day == prev_day && at - prev
            < 7 * 60,
{
}

/// The day that is shown is the day in the reader's own zone, year, month and
/// day in order.
pub proof fn days_are_shown_by_date(y: int, m: int, d: int, unix: i64, offset_minutes: i32)
    requires
        valid_date(y, m, d),
        day_number(y, m, d) == (unix + 60 * offset_minutes) / 86400,
        y >= 0,
    ensures
        is_day_label(
            text::dec(y as nat) + "年"@ + text::dec(m as nat) + "月"@ + text::dec(d as nat)
                + "日"@,
            unix,
            offset_minutes,
        ),
        day_shown(unix, offset_minutes) == text::dec(y as nat) + "年"@ + text::dec(m as nat)
            + "月"@ + text::dec(d as nat) + "日"@,
{
    let label = day_label(y, m, d);
    assert(is_day_label(label, unix, offset_minutes));
    label_is_the_day(label, day_shown(unix, offset_minutes), unix, unix, offset_minutes);
}

} // verus!
