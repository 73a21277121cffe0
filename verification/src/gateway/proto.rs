//! Reads protobuf's wire format, and nothing above it.
//!
//! The settings message has no published definition, so there are no generated
//! types to decode into and only the wire shape to go on.
//!
//! ```text
//!   key = (field number << 3) | wire type
//!
//!   0  varint
//!   1  fixed 64-bit
//!   2  length-delimited (strings, nested messages, packed numbers)
//!   5  fixed 32-bit
//! ```
//!
//! Which field number holds what belongs to the callers. Malformed input never
//! panics: whatever was read so far counts.

use vstd::prelude::*;
use vstd::slice::slice_subrange;

verus! {

/// The field inside a wrapper, as in `Int64Value.value`.
pub const WRAPPED_VALUE: u64 = 1;

// ── varints ────────────────────────────────────────────────────────────────

/// The number of bytes before the last one of a varint; `None` where no byte
/// below 128 comes within the first ten.
pub open spec fn last_byte(b: Seq<u8>, k: int) -> Option<int>
    decreases 10 - k,
{
    if k < 0 || k >= 10 || k >= b.len() {
        None
    } else if b[k] < 128 {
        Some(k)
    } else {
        last_byte(b, k + 1)
    }
}

/// Groups of seven bits, the lowest first.
pub open spec fn groups_value(b: Seq<u8>) -> nat
    decreases b.len(),
{
    if b.len() == 0 {
        0
    } else {
        (b[0] % 128) as nat + 128 * groups_value(b.skip(1))
    }
}

/// The number at the front, cut to 64 bits, and what follows it.
pub open spec fn varint_spec(b: Seq<u8>) -> Option<(u64, Seq<u8>)> {
    match last_byte(b, 0) {
        Some(k) => Some(
            ((groups_value(b.take(k + 1)) % 0x1_0000_0000_0000_0000) as u64, b.skip(k + 1)),
        ),
        None => None,
    }
}

proof fn lemma_last_byte(b: Seq<u8>, k: int)
    requires
        0 <= k,
    ensures
        last_byte(b, k) matches Some(j) ==> k <= j < 10 && j < b.len(),
    decreases 10 - k,
{
    if k < 10 && k < b.len() && b[k] >= 128 {
        lemma_last_byte(b, k + 1);
    }
}

/// Reads one varint.
pub fn varint<'a>(buf: &'a [u8]) -> (r: Option<(u64, &'a [u8])>)
    ensures
        match r {
            Some((v, rest)) => varint_spec(buf@) == Some((v, rest@)) && rest@.len() < buf@.len(),
            None => varint_spec(buf@) is None,
        },
{
    let mut k: usize = 0;
    while k < buf.len() && k < 10 && buf[k] >= 128
        invariant
            k <= 10,
            k <= buf.len(),
            last_byte(buf@, 0) == last_byte(buf@, k as int),
        decreases 10 - k,
    {
        k += 1;
    }
    if k >= buf.len() || k >= 10 {
        return None;
    }
    let mut value: u64 = 0;
    let mut i: usize = k + 1;
    let ghost all = buf@.take(k + 1);
    assert(all.skip(k + 1).len() == 0);
    while i > 0
        invariant
            i <= k + 1 <= buf.len(),
            k < 10,
            all == buf@.take(k + 1),
            value == groups_value(all.skip(i as int)) % 0x1_0000_0000_0000_0000,
        decreases i,
    {
        i -= 1;
        let low = (buf[i] % 128) as u64;
        let ghost more = groups_value(all.skip(i + 1)) as int;
        proof {
            assert(all.skip(i as int).skip(1) =~= all.skip(i + 1));
            lemma_shift_in(more, low as int);
        }
        value = (value % 0x200_0000_0000_0000) * 128 + low;
    }
    assert(all.skip(0) =~= all);
    let rest = slice_subrange(buf, k + 1, buf.len());
    assert(rest@ =~= buf@.skip(k + 1));
    Some((value, rest))
}

/// Shifting seven bits into a 64-bit number keeps it right to 64 bits.
proof fn lemma_shift_in(more: int, low: int)
    requires
        0 <= more,
        0 <= low < 128,
    ensures
        (((more % 0x1_0000_0000_0000_0000) % 0x200_0000_0000_0000) * 128 + low) == (low + 128
            * more) % 0x1_0000_0000_0000_0000,
{
    let q = more / 0x200_0000_0000_0000;
    let t = more % 0x200_0000_0000_0000;
    assert(more == q * 0x200_0000_0000_0000 + t);
    assert((more % 0x1_0000_0000_0000_0000) % 0x200_0000_0000_0000 == t);
    assert(low + 128 * more == q * 0x1_0000_0000_0000_0000 + (128 * t + low));
    vstd::arithmetic::div_mod::lemma_fundamental_div_mod_converse(
        low + 128 * more,
        0x1_0000_0000_0000_0000,
        q,
        128 * t + low,
    );
}

/// A number as a varint is written.
pub open spec fn varint_bytes(v: nat) -> Seq<u8>
    decreases v,
{
    if v < 128 {
        seq![v as u8]
    } else {
        seq![(v % 128 + 128) as u8] + varint_bytes(v / 128)
    }
}

pub fn put_varint(out: &mut Vec<u8>, v: u64)
    ensures
        final(out)@ == old(out)@ + varint_bytes(v as nat),
{
    let mut left: u64 = v;
    let ghost goal = out@ + varint_bytes(v as nat);
    while left >= 128
        invariant
            goal == out@ + varint_bytes(left as nat),
        decreases left,
    {
        let ghost was = out@;
        out.push((left % 128) as u8 + 128);
        assert(was + varint_bytes(left as nat) =~= out@ + varint_bytes((left / 128) as nat));
        left = left / 128;
    }
    let ghost was = out@;
    out.push(left as u8);
    assert(out@ =~= was + varint_bytes(left as nat));
}

proof fn lemma_varint_bytes(v: nat, rest: Seq<u8>, k: int)
    requires
        0 <= k < 10,
        v < vstd::arithmetic::power::pow(128, (10 - k) as nat),
    ensures
        ({
            let b = varint_bytes(v);
            &&& 1 <= b.len() <= 10 - k
            &&& forall|j: int| 0 <= j < b.len() - 1 ==> b[j] >= 128
            &&& b.last() < 128
            &&& groups_value(b) == v
        }),
    decreases 10 - k,
{
    reveal_with_fuel(vstd::arithmetic::power::pow, 2);
    let b = varint_bytes(v);
    if v < 128 {
        assert(b.skip(1) =~= Seq::<u8>::empty());
        assert(groups_value(b.skip(1)) == 0);
        assert(groups_value(b) == v);
    } else {
        if k == 9 {
            assert(vstd::arithmetic::power::pow(128, 1) == 128) by {
                vstd::arithmetic::power::lemma_pow1(128);
            }
        } else {
            vstd::arithmetic::power::lemma_pow_adds(128, 1, (9 - k) as nat);
            vstd::arithmetic::power::lemma_pow1(128);
            assert(v / 128 < vstd::arithmetic::power::pow(128, (9 - k) as nat));
            lemma_varint_bytes(v / 128, rest, k + 1);
            assert(b.skip(1) =~= varint_bytes(v / 128));
            assert forall|j: int| 0 <= j < b.len() - 1 implies b[j] >= 128 by {
                if j > 0 {
                    assert(b[j] == varint_bytes(v / 128)[j - 1]);
                }
            }
            assert(b.last() == varint_bytes(v / 128).last());
            assert(b[0] % 128 == v % 128);
        }
    }
}

proof fn lemma_last_byte_at(b: Seq<u8>, k: int, at: int)
    requires
        0 <= k <= at < 10,
        at < b.len(),
        b[at] < 128,
        forall|j: int| k <= j < at ==> b[j] >= 128,
    ensures
        last_byte(b, k) == Some(at),
    decreases at - k,
{
    if k < at {
        lemma_last_byte_at(b, k + 1, at);
    }
}

/// A number that was written is read back, and what was written after it is
/// what follows.
pub proof fn varint_reads_back(v: u64, rest: Seq<u8>)
    ensures
        varint_spec(varint_bytes(v as nat) + rest) == Some((v, rest)),
{
    let p = vstd::arithmetic::power::pow(128, 10);
    assert(p == 0x40_0000_0000_0000_0000) by {
        reveal_with_fuel(vstd::arithmetic::power::pow, 11);
    }
    lemma_varint_bytes(v as nat, rest, 0);
    let b = varint_bytes(v as nat);
    let all = b + rest;
    let at = b.len() - 1;
    assert(all[at] == b.last());
    lemma_last_byte_at(all, 0, at);
    assert(all.take(at + 1) =~= b);
    assert(all.skip(at + 1) =~= rest);
}

// ── fixed-width numbers ────────────────────────────────────────────────────

/// Eight bytes, the lowest first.
pub open spec fn fixed64_value(b: Seq<u8>) -> u64 {
    (b[0] + 0x100 * b[1] + 0x1_0000 * b[2] + 0x100_0000 * b[3] + 0x1_0000_0000 * b[4]
        + 0x100_0000_0000 * b[5] + 0x1_0000_0000_0000 * b[6] + 0x100_0000_0000_0000 * b[7]) as u64
}

pub fn fixed64(b: &[u8]) -> (v: u64)
    requires
        b.len() == 8,
    ensures
        v == fixed64_value(b@),
{
    b[0] as u64 + 0x100 * b[1] as u64 + 0x1_0000 * b[2] as u64 + 0x100_0000 * b[3] as u64
        + 0x1_0000_0000 * b[4] as u64 + 0x100_0000_0000 * b[5] as u64 + 0x1_0000_0000_0000
        * b[6] as u64 + 0x100_0000_0000_0000 * b[7] as u64
}

pub open spec fn fixed64_bytes(v: u64) -> Seq<u8> {
    seq![
        (v % 0x100) as u8,
        (v / 0x100 % 0x100) as u8,
        (v / 0x1_0000 % 0x100) as u8,
        (v / 0x100_0000 % 0x100) as u8,
        (v / 0x1_0000_0000 % 0x100) as u8,
        (v / 0x100_0000_0000 % 0x100) as u8,
        (v / 0x1_0000_0000_0000 % 0x100) as u8,
        (v / 0x100_0000_0000_0000) as u8,
    ]
}

pub fn fixed64_to_bytes(v: u64) -> (r: Vec<u8>)
    ensures
        r@ == fixed64_bytes(v),
{
    let mut r: Vec<u8> = Vec::new();
    r.push((v % 0x100) as u8);
    r.push((v / 0x100 % 0x100) as u8);
    r.push((v / 0x1_0000 % 0x100) as u8);
    r.push((v / 0x100_0000 % 0x100) as u8);
    r.push((v / 0x1_0000_0000 % 0x100) as u8);
    r.push((v / 0x100_0000_0000 % 0x100) as u8);
    r.push((v / 0x1_0000_0000_0000 % 0x100) as u8);
    r.push((v / 0x100_0000_0000_0000) as u8);
    assert(r@ =~= fixed64_bytes(v));
    r
}

/// A fixed number that was written is read back.
pub proof fn fixed64_reads_back(v: u64)
    ensures
        fixed64_bytes(v).len() == 8,
        fixed64_value(fixed64_bytes(v)) == v,
{
    let a0 = v / 0x100;
    let a1 = v / 0x1_0000;
    let a2 = v / 0x100_0000;
    let a3 = v / 0x1_0000_0000;
    let a4 = v / 0x100_0000_0000;
    let a5 = v / 0x1_0000_0000_0000;
    let a6 = v / 0x100_0000_0000_0000;
    assert(a1 == a0 / 0x100 && a2 == a1 / 0x100 && a3 == a2 / 0x100 && a4 == a3 / 0x100 && a5 == a4
        / 0x100 && a6 == a5 / 0x100);
    assert(v == v % 0x100 + 0x100 * a0);
    assert(a0 == a0 % 0x100 + 0x100 * a1);
    assert(a1 == a1 % 0x100 + 0x100 * a2);
    assert(a2 == a2 % 0x100 + 0x100 * a3);
    assert(a3 == a3 % 0x100 + 0x100 * a4);
    assert(a4 == a4 % 0x100 + 0x100 * a5);
    assert(a5 == a5 % 0x100 + 0x100 * a6);
}

/// A packed run of fixed numbers; empty unless its length is a multiple of 8.
pub open spec fn fixed64s_spec(b: Seq<u8>) -> Seq<u64> {
    if b.len() % 8 != 0 {
        seq![]
    } else {
        Seq::new(b.len() / 8, |i: int| fixed64_value(b.subrange(8 * i, 8 * i + 8)))
    }
}

/// Reads a packed run of `fixed64`. Empty unless the length is a multiple of 8.
pub fn fixed64s(body: &[u8]) -> (r: Vec<u64>)
    ensures
        r@ == fixed64s_spec(body@),
{
    let mut out: Vec<u64> = Vec::new();
    if body.len() % 8 != 0 {
        assert(out@ =~= fixed64s_spec(body@));
        return out;
    }
    let mut at: usize = 0;
    while at < body.len()
        invariant
            at <= body.len(),
            at % 8 == 0,
            body.len() % 8 == 0,
            out@ =~= fixed64s_spec(body@).take(at as int / 8),
            fixed64s_spec(body@).len() == body.len() / 8,
        decreases body.len() - at,
    {
        let ghost i = at as int / 8;
        let one = slice_subrange(body, at, at + 8);
        assert(fixed64s_spec(body@)[i] == fixed64_value(one@));
        out.push(fixed64(one));
        at += 8;
    }
    out
}

/// A packed run of fixed numbers as it is written.
pub open spec fn fixed64s_bytes(vs: Seq<u64>) -> Seq<u8>
    decreases vs.len(),
{
    if vs.len() == 0 {
        seq![]
    } else {
        fixed64s_bytes(vs.drop_last()) + fixed64_bytes(vs.last())
    }
}

/// A packed run that was written is read back, number for number.
pub proof fn fixed64s_read_back(vs: Seq<u64>)
    ensures
        fixed64s_bytes(vs).len() == 8 * vs.len(),
        fixed64s_spec(fixed64s_bytes(vs)) == vs,
    decreases vs.len(),
{
    let b = fixed64s_bytes(vs);
    if vs.len() > 0 {
        let front = vs.drop_last();
        let f = fixed64s_bytes(front);
        fixed64s_read_back(front);
        fixed64_reads_back(vs.last());
        assert forall|i: int| 0 <= i < vs.len() implies fixed64s_spec(b)[i] == vs[i] by {
            if i < front.len() {
                assert(b.subrange(8 * i, 8 * i + 8) =~= f.subrange(8 * i, 8 * i + 8));
                assert(fixed64s_spec(f)[i] == front[i]);
            } else {
                assert(b.subrange(8 * i, 8 * i + 8) =~= fixed64_bytes(vs.last()));
            }
        }
    }
    assert(fixed64s_spec(b) =~= vs);
}

// ── fields ─────────────────────────────────────────────────────────────────

/// What a field holds.
pub ghost enum Content {
    Varint(u64),
    Fixed64(u64),
    Block(Seq<u8>),
    Fixed32,
}

/// The field at the front: its number, its content and what follows it. `None`
/// where it cannot be read.
pub open spec fn field_spec(b: Seq<u8>) -> Option<(u64, Content, Seq<u8>)> {
    match varint_spec(b) {
        None => None,
        Some((key, rest)) => {
            let wire = key % 8;
            if wire == 0 {
                match varint_spec(rest) {
                    Some((v, after)) => Some((key / 8, Content::Varint(v), after)),
                    None => None,
                }
            } else if wire == 1 {
                if rest.len() < 8 {
                    None
                } else {
                    Some((key / 8, Content::Fixed64(fixed64_value(rest.take(8))), rest.skip(8)))
                }
            } else if wire == 2 {
                match varint_spec(rest) {
                    Some((len, after)) if len <= after.len() => Some(
                        (key / 8, Content::Block(after.take(len as int)), after.skip(len as int)),
                    ),
                    _ => None,
                }
            } else if wire == 5 {
                if rest.len() < 4 {
                    None
                } else {
                    Some((key / 8, Content::Fixed32, rest.skip(4)))
                }
            } else {
                None
            }
        },
    }
}

/// The fields of a message in order, as far as they can be read.
pub open spec fn fields(b: Seq<u8>) -> Seq<(u64, Content)>
    decreases b.len(),
{
    match field_spec(b) {
        Some((num, content, rest)) if b.len() > 0 && rest.len() < b.len() => seq![(num, content)]
            + fields(rest),
        _ => seq![],
    }
}

pub enum Field<'a> {
    Varint(u64),
    Fixed64(u64),
    Block(&'a [u8]),
    Fixed32,
}

impl<'a> View for Field<'a> {
    type V = Content;

    open spec fn view(&self) -> Content {
        match *self {
            Field::Varint(v) => Content::Varint(v),
            Field::Fixed64(v) => Content::Fixed64(v),
            Field::Block(b) => Content::Block(b@),
            Field::Fixed32 => Content::Fixed32,
        }
    }
}

/// Reads the field at the front.
pub fn next_field<'a>(buf: &'a [u8]) -> (r: Option<(u64, Field<'a>, &'a [u8])>)
    ensures
        match r {
            Some((num, content, rest)) => field_spec(buf@) == Some((num, content@, rest@))
                && rest@.len() < buf@.len(),
            None => field_spec(buf@) is None,
        },
{
    let (key, rest) = match varint(buf) {
        Some(r) => r,
        None => {
            return None;
        },
    };
    let num = key / 8;
    let wire = key % 8;
    if wire == 0 {
        match varint(rest) {
            Some((v, after)) => Some((num, Field::Varint(v), after)),
            None => None,
        }
    } else if wire == 1 {
        if rest.len() < 8 {
            return None;
        }
        let after = slice_subrange(rest, 8, rest.len());
        assert(after@ =~= rest@.skip(8));
        let head = slice_subrange(rest, 0, 8);
        assert(head@ =~= rest@.take(8));
        Some((num, Field::Fixed64(fixed64(head)), after))
    } else if wire == 2 {
        let (len, body) = match varint(rest) {
            Some(r) => r,
            None => {
                return None;
            },
        };
        if (body.len() as u64) < len {
            return None;
        }
        let n = len as usize;
        let after = slice_subrange(body, n, body.len());
        assert(after@ =~= body@.skip(n as int));
        let head = slice_subrange(body, 0, n);
        assert(head@ =~= body@.take(n as int));
        Some((num, Field::Block(head), after))
    } else if wire == 5 {
        if rest.len() < 4 {
            return None;
        }
        let after = slice_subrange(rest, 4, rest.len());
        assert(after@ =~= rest@.skip(4));
        Some((num, Field::Fixed32, after))
    } else {
        None
    }
}

// ── fields by number ───────────────────────────────────────────────────────

/// The length-delimited ones among `fs` with this number, in order.
pub open spec fn blocks_in(fs: Seq<(u64, Content)>, field: u64) -> Seq<Seq<u8>>
    decreases fs.len(),
{
    if fs.len() == 0 {
        seq![]
    } else {
        let rest = blocks_in(fs.skip(1), field);
        match fs[0] {
            (num, Content::Block(b)) if num == field => seq![b] + rest,
            _ => rest,
        }
    }
}

pub open spec fn blocks_spec(b: Seq<u8>, field: u64) -> Seq<Seq<u8>> {
    blocks_in(fields(b), field)
}

/// The first varint among `fs` with this number.
pub open spec fn varint_in(fs: Seq<(u64, Content)>, field: u64) -> Option<u64>
    decreases fs.len(),
{
    if fs.len() == 0 {
        None
    } else {
        match fs[0] {
            (num, Content::Varint(v)) if num == field => Some(v),
            _ => varint_in(fs.skip(1), field),
        }
    }
}

pub open spec fn varint_field_spec(b: Seq<u8>, field: u64) -> Option<u64> {
    varint_in(fields(b), field)
}

/// The varint field with this number.
pub fn varint_field(buf: &[u8], field: u64) -> (r: Option<u64>)
    ensures
        r == varint_field_spec(buf@, field),
{
    let mut left: &[u8] = buf;
    while left.len() > 0
        invariant
            varint_field_spec(buf@, field) == varint_field_spec(left@, field),
        decreases left.len(),
    {
        match next_field(left) {
            None => {
                return None;
            },
            Some((num, content, rest)) => {
                assert(fields(left@).skip(1) =~= fields(rest@));
                if let Field::Varint(v) = content {
                    if num == field {
                        return Some(v);
                    }
                }
                left = rest;
            },
        }
    }
    None
}

pub open spec fn slices(v: Seq<&[u8]>) -> Seq<Seq<u8>> {
    Seq::new(v.len(), |i: int| v[i]@)
}

/// Every length-delimited field with this number, in order. Other wire types
/// are skipped, and unknown numbers left alone.
pub fn blocks<'a>(buf: &'a [u8], field: u64) -> (r: Vec<&'a [u8]>)
    ensures
        slices(r@) == blocks_spec(buf@, field),
{
    let mut out: Vec<&'a [u8]> = Vec::new();
    let mut left: &'a [u8] = buf;
    assert(slices(out@) + blocks_spec(buf@, field) =~= blocks_spec(buf@, field));
    while left.len() > 0
        invariant
            slices(out@) + blocks_spec(left@, field) == blocks_spec(buf@, field),
        decreases left.len(),
    {
        match next_field(left) {
            None => {
                assert(slices(out@) =~= blocks_spec(buf@, field));
                return out;
            },
            Some((num, content, rest)) => {
                assert(fields(left@).skip(1) =~= fields(rest@));
                let ghost was = slices(out@);
                if let Field::Block(body) = content {
                    if num == field {
                        out.push(body);
                        assert(slices(out@) =~= was.push(body@));
                        assert(slices(out@) + blocks_spec(rest@, field) =~= was + (seq![body@]
                            + blocks_spec(rest@, field)));
                    }
                }
                left = rest;
            },
        }
    }
    assert(slices(out@) =~= blocks_spec(buf@, field));
    out
}

/// Whether a message is fields from its first byte to its last.
pub open spec fn complete(b: Seq<u8>) -> bool
    decreases b.len(),
{
    b.len() == 0 || match field_spec(b) {
        Some((_, _, rest)) => rest.len() < b.len() && complete(rest),
        None => false,
    }
}

proof fn lemma_varint_before(a: Seq<u8>, b: Seq<u8>)
    requires
        varint_spec(a) is Some,
    ensures
        varint_spec(a) matches Some((v, rest)) && varint_spec(a + b) == Some((v, rest + b))
            && rest.len() < a.len(),
{
    let k = last_byte(a, 0)->0;
    lemma_last_byte(a, 0);
    lemma_last_byte_before(a, b, 0);
    assert((a + b).take(k + 1) =~= a.take(k + 1));
    assert((a + b).skip(k + 1) =~= a.skip(k + 1) + b);
}

proof fn lemma_last_byte_before(a: Seq<u8>, b: Seq<u8>, k: int)
    requires
        0 <= k,
        last_byte(a, k) is Some,
    ensures
        last_byte(a + b, k) == last_byte(a, k),
    decreases 10 - k,
{
    assert((a + b)[k] == a[k]);
    if a[k] >= 128 {
        lemma_last_byte_before(a, b, k + 1);
    }
}

proof fn lemma_field_before(a: Seq<u8>, b: Seq<u8>)
    requires
        field_spec(a) is Some,
    ensures
        field_spec(a) matches Some((num, content, rest)) && field_spec(a + b) == Some(
            (num, content, rest + b),
        ),
{
    lemma_varint_before(a, b);
    let (key, rest) = varint_spec(a)->0;
    let wire = key % 8;
    if wire == 0 {
        lemma_varint_before(rest, b);
    } else if wire == 1 {
        assert((rest + b).take(8) =~= rest.take(8));
        assert((rest + b).skip(8) =~= rest.skip(8) + b);
    } else if wire == 2 {
        lemma_varint_before(rest, b);
        let (len, after) = varint_spec(rest)->0;
        assert((after + b).take(len as int) =~= after.take(len as int));
        assert((after + b).skip(len as int) =~= after.skip(len as int) + b);
    } else {
        assert((rest + b).skip(4) =~= rest.skip(4) + b);
    }
}

/// A complete message and whatever follows it are read independently: the
/// fields of both behind one another are those of the first and then those of
/// the second, and so are the blocks with any number.
pub proof fn complete_messages_stand_alone(a: Seq<u8>, b: Seq<u8>, field: u64)
    requires
        complete(a),
    ensures
        fields(a + b) == fields(a) + fields(b),
        blocks_spec(a + b, field) == blocks_spec(a, field) + blocks_spec(b, field),
    decreases a.len(),
{
    if a.len() == 0 {
        assert(a + b =~= b);
        assert(fields(a) =~= seq![]);
        assert(fields(a) + fields(b) =~= fields(b));
    } else {
        let (num, content, rest) = field_spec(a)->0;
        lemma_field_before(a, b);
        complete_messages_stand_alone(rest, b, field);
        assert(fields(a + b) =~= fields(a) + fields(b));
    }
    lemma_blocks_concat(fields(a), fields(b), field);
}

proof fn lemma_blocks_concat(a: Seq<(u64, Content)>, b: Seq<(u64, Content)>, field: u64)
    ensures
        blocks_in(a + b, field) == blocks_in(a, field) + blocks_in(b, field),
    decreases a.len(),
{
    if a.len() == 0 {
        assert(a + b =~= b);
        assert(blocks_in(a, field) + blocks_in(b, field) =~= blocks_in(b, field));
    } else {
        assert((a + b)[0] == a[0]);
        assert((a + b).skip(1) =~= a.skip(1) + b);
        lemma_blocks_concat(a.skip(1), b, field);
        assert(blocks_in(a + b, field) =~= blocks_in(a, field) + blocks_in(b, field));
    }
}

// ── wrappers ───────────────────────────────────────────────────────────────

/// The number inside the wrapper message in this field.
pub open spec fn wrapped_varint_spec(b: Seq<u8>, field: u64) -> Option<u64> {
    let found = blocks_spec(b, field);
    if found.len() == 0 {
        None
    } else {
        varint_field_spec(found[0], WRAPPED_VALUE)
    }
}

/// The number inside a wrapper such as `google.protobuf.Int64Value`.
///
/// A wrapper is a message holding one field, not the value itself; it tells
/// "unset" from "zero".
pub fn wrapped_varint(body: &[u8], field: u64) -> (r: Option<u64>)
    ensures
        r == wrapped_varint_spec(body@, field),
{
    let found = blocks(body, field);
    if found.len() == 0 {
        assert(slices(found@).len() == 0);
        return None;
    }
    assert(slices(found@)[0] == found[0]@);
    varint_field(found[0], WRAPPED_VALUE)
}

/// What [`String::from_utf8_lossy`] makes of bytes.
pub uninterp spec fn utf8_lossy(b: Seq<u8>) -> Seq<char>;

/// [`String::from_utf8_lossy`] depends on the bytes alone. Valid UTF-8 comes
/// out as the text that it encodes; of other bytes nothing more is said here
/// (each invalid sequence becomes U+FFFD).
#[verifier::external_body]
pub(crate) fn from_utf8_lossy(b: &[u8]) -> (r: String)
    ensures
        r@ == utf8_lossy(b@),
        vstd::utf8::valid_utf8(b@) ==> r@ == vstd::utf8::decode_utf8(b@),
{
    String::from_utf8_lossy(b).into_owned()
}

/// The bytes of the string inside the wrapper message in this field.
pub open spec fn wrapped_bytes(b: Seq<u8>, field: u64) -> Option<Seq<u8>> {
    let found = blocks_spec(b, field);
    if found.len() == 0 || blocks_spec(found[0], WRAPPED_VALUE).len() == 0 {
        None
    } else {
        Some(blocks_spec(found[0], WRAPPED_VALUE)[0])
    }
}

/// The string inside a wrapper. Never fails on bad UTF-8: users choose these
/// names.
pub fn wrapped_string(body: &[u8], field: u64) -> (r: Option<String>)
    ensures
        match (r, wrapped_bytes(body@, field)) {
            (Some(s), Some(raw)) => s@ == utf8_lossy(raw) && (vstd::utf8::valid_utf8(raw) ==> s@
                == vstd::utf8::decode_utf8(raw)),
            (None, None) => true,
            _ => false,
        },
{
    let found = blocks(body, field);
    if found.len() == 0 {
        assert(slices(found@).len() == 0);
        return None;
    }
    assert(slices(found@)[0] == found[0]@);
    let raw = blocks(found[0], WRAPPED_VALUE);
    if raw.len() == 0 {
        assert(slices(raw@).len() == 0);
        return None;
    }
    assert(slices(raw@)[0] == raw[0]@);
    Some(from_utf8_lossy(raw[0]))
}

} // verus!
