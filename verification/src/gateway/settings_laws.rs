//! What is written into the settings is what is read from them: folders, the
//! order of the guilds, and the status.

use vstd::prelude::*;
use crate::gateway::guild_order::{
    deduped, documented_ids, folder_blocks, folder_ids, folder_of, folders_ids, folders_in,
    folders_of, longest, order_in, packed_all, packed_known, walked, wanted, FolderView,
};
use crate::gateway::proto::{
    blocks_in, blocks_spec, complete, complete_messages_stand_alone, field_spec, fields,
    fixed64s_bytes, fixed64s_read_back, fixed64s_spec, utf8_lossy, varint_bytes, varint_field_spec,
    varint_reads_back, wrapped_bytes, wrapped_varint_spec, Content,
};
use crate::gateway::status::{status_in, Status};

verus! {

// ── messages ───────────────────────────────────────────────────────────────

/// A length-delimited field as it is written.
pub open spec fn block_field(field: u64, body: Seq<u8>) -> Seq<u8> {
    varint_bytes((field * 8 + 2) as nat) + (varint_bytes(body.len()) + body)
}

/// A number as a field as it is written.
pub open spec fn number_field(field: u64, v: u64) -> Seq<u8> {
    varint_bytes((field * 8) as nat) + varint_bytes(v as nat)
}

/// A field number and a body that can be written.
pub open spec fn fits(field: u64, body: Seq<u8>) -> bool {
    field < 0x1000_0000 && body.len() <= u64::MAX
}

proof fn lemma_block_field(field: u64, body: Seq<u8>)
    requires
        fits(field, body),
    ensures
        complete(block_field(field, body)),
        fields(block_field(field, body)) == seq![(field, Content::Block(body))],
        block_field(field, body).len() > 0,
{
    let b = block_field(field, body);
    let key = (field * 8 + 2) as u64;
    let rest = varint_bytes(body.len()) + body;
    varint_reads_back(key, rest);
    varint_reads_back(body.len() as u64, body);
    assert(key % 8 == 2 && key / 8 == field);
    assert(body.take(body.len() as int) =~= body);
    assert(body.skip(body.len() as int) =~= seq![]);
    assert(field_spec(b) == Some((field, Content::Block(body), Seq::<u8>::empty())));
    assert(varint_bytes(key as nat).len() > 0);
    assert(fields(Seq::<u8>::empty()) =~= seq![]) by {
        assert(Seq::<u8>::empty().len() == 0);
    }
    assert(fields(b) =~= seq![(field, Content::Block(body))]);
    assert(complete(Seq::<u8>::empty()));
}

proof fn lemma_number_field(field: u64, v: u64)
    requires
        field < 0x1000_0000,
    ensures
        complete(number_field(field, v)),
        fields(number_field(field, v)) == seq![(field, Content::Varint(v))],
{
    let b = number_field(field, v);
    let key = (field * 8) as u64;
    varint_reads_back(key, varint_bytes(v as nat));
    varint_reads_back(v, Seq::<u8>::empty());
    assert(varint_bytes(v as nat) + Seq::<u8>::empty() =~= varint_bytes(v as nat));
    assert(key % 8 == 0 && key / 8 == field);
    assert(field_spec(b) == Some((field, Content::Varint(v), Seq::<u8>::empty())));
    assert(varint_bytes(key as nat).len() > 0);
    assert(fields(Seq::<u8>::empty()) =~= seq![]);
    assert(fields(b) =~= seq![(field, Content::Varint(v))]);
    assert(complete(Seq::<u8>::empty()));
}

/// A block that was written is found under its number, and under no other.
pub proof fn written_blocks_are_found(field: u64, body: Seq<u8>, other: u64)
    requires
        fits(field, body),
    ensures
        blocks_spec(block_field(field, body), other) == (if other == field {
            seq![body]
        } else {
            Seq::<Seq<u8>>::empty()
        }),
{
    lemma_block_field(field, body);
    let fs = fields(block_field(field, body));
    assert(fs.skip(1) =~= seq![]);
    assert(blocks_in(fs.skip(1), other) =~= seq![]);
    assert(blocks_in(fs, other) =~= if other == field {
        seq![body]
    } else {
        Seq::<Seq<u8>>::empty()
    });
}

proof fn lemma_varint_len(v: nat)
    ensures
        1 <= varint_bytes(v).len() <= v / 2 + 1,
    decreases v,
{
    if v >= 128 {
        lemma_varint_len(v / 128);
    }
}

/// A number in a wrapper is read back.
pub proof fn wrapped_numbers_are_read(field: u64, v: u64)
    requires
        field < 0x1000_0000,
    ensures
        wrapped_varint_spec(block_field(field, number_field(1, v)), field) == Some(v),
{
    let inner = number_field(1, v);
    lemma_number_field(1, v);
    lemma_number_len(v);
    written_blocks_are_found(field, inner, field);
    lemma_first_number(v);
}

proof fn lemma_number_len(v: u64)
    ensures
        number_field(1, v).len() <= u64::MAX,
{
    lemma_varint_len(8);
    lemma_varint_len(v as nat);
}

proof fn lemma_first_number(v: u64)
    ensures
        varint_field_spec(number_field(1, v), 1) == Some(v),
{
    lemma_number_field(1, v);
    let fs = fields(number_field(1, v));
    assert(fs[0] == (1u64, Content::Varint(v)));
}

// ── folders ────────────────────────────────────────────────────────────────

/// A folder as the settings hold it.
pub ghost struct Kept {
    pub ids: Seq<u64>,
    pub id: Option<u64>,
    pub name: Option<Seq<u8>>,
    pub color: Option<u64>,
}

/// Nothing of it is too long to be written.
pub open spec fn writable(f: Kept) -> bool {
    f.ids.len() < 0x1000_0000_0000 && (f.name matches Some(n) ==> n.len() < 0x1000_0000_0000)
}

pub open spec fn wrapped_number_field(field: u64, v: Option<u64>) -> Seq<u8> {
    match v {
        Some(v) => block_field(field, number_field(1, v)),
        None => seq![],
    }
}

pub open spec fn wrapped_text_field(field: u64, v: Option<Seq<u8>>) -> Seq<u8> {
    match v {
        Some(v) => block_field(field, block_field(1, v)),
        None => seq![],
    }
}

/// A folder as it is written: its guilds, its id, its name and its colour.
pub open spec fn written_folder(f: Kept) -> Seq<u8> {
    block_field(1, fixed64s_bytes(f.ids)) + (wrapped_number_field(2, f.id) + (wrapped_text_field(
        3,
        f.name,
    ) + wrapped_number_field(4, f.color)))
}

proof fn lemma_wrapped_number(field: u64, v: Option<u64>, other: u64)
    requires
        field < 0x1000_0000,
    ensures
        complete(wrapped_number_field(field, v)),
        blocks_spec(wrapped_number_field(field, v), other) == (match v {
            Some(v) if other == field => seq![number_field(1, v)],
            _ => Seq::<Seq<u8>>::empty(),
        }),
{
    match v {
        Some(v) => {
            lemma_number_len(v);
            lemma_block_field(field, number_field(1, v));
            written_blocks_are_found(field, number_field(1, v), other);
        },
        None => {
            assert(fields(Seq::<u8>::empty()) =~= seq![]);
            assert(wrapped_number_field(field, v) =~= Seq::<u8>::empty());
        },
    }
}

proof fn lemma_wrapped_text(field: u64, v: Option<Seq<u8>>, other: u64)
    requires
        field < 0x1000_0000,
        v matches Some(n) ==> n.len() < 0x1000_0000_0000,
    ensures
        complete(wrapped_text_field(field, v)),
        blocks_spec(wrapped_text_field(field, v), other) == (match v {
            Some(v) if other == field => seq![block_field(1, v)],
            _ => Seq::<Seq<u8>>::empty(),
        }),
{
    match v {
        Some(v) => {
            lemma_varint_len(10);
            lemma_varint_len(v.len());
            lemma_block_field(field, block_field(1, v));
            written_blocks_are_found(field, block_field(1, v), other);
        },
        None => {
            assert(fields(Seq::<u8>::empty()) =~= seq![]);
            assert(wrapped_text_field(field, v) =~= Seq::<u8>::empty());
        },
    }
}

proof fn lemma_folder_blocks(f: Kept, other: u64)
    requires
        writable(f),
    ensures
        blocks_spec(written_folder(f), other) == (if other == 1 {
            seq![fixed64s_bytes(f.ids)]
        } else {
            Seq::<Seq<u8>>::empty()
        }) + ((match f.id {
            Some(v) if other == 2 => seq![number_field(1, v)],
            _ => Seq::<Seq<u8>>::empty(),
        }) + ((match f.name {
            Some(v) if other == 3 => seq![block_field(1, v)],
            _ => Seq::<Seq<u8>>::empty(),
        }) + (match f.color {
            Some(v) if other == 4 => seq![number_field(1, v)],
            _ => Seq::<Seq<u8>>::empty(),
        }))),
{
    fixed64s_read_back(f.ids);
    let a = block_field(1, fixed64s_bytes(f.ids));
    let b = wrapped_number_field(2, f.id);
    let c = wrapped_text_field(3, f.name);
    let d = wrapped_number_field(4, f.color);
    lemma_block_field(1, fixed64s_bytes(f.ids));
    written_blocks_are_found(1, fixed64s_bytes(f.ids), other);
    lemma_wrapped_number(2, f.id, other);
    lemma_wrapped_text(3, f.name, other);
    lemma_wrapped_number(4, f.color, other);
    complete_messages_stand_alone(a, b + (c + d), other);
    complete_messages_stand_alone(b, c + d, other);
    complete_messages_stand_alone(c, d, other);
}

/// A folder that was written is read back: its id, its name, its colour, and its
/// guilds in the order in which they were written, but for those that are not
/// known. Of the colour only the low three bytes count, and zero is none.
pub proof fn written_folders_are_read(f: Kept, known: Set<u64>)
    requires
        writable(f),
    ensures
        ({
            let r = folder_of(written_folder(f), known);
            &&& r.id == f.id
            &&& r.name == (match f.name {
                Some(n) => Some(utf8_lossy(n)),
                None => None,
            })
            &&& r.guilds == f.ids.filter(|v: u64| known.contains(v))
            &&& f.color is None ==> r.color is None
            &&& f.color matches Some(c) ==> {
                &&& c % 0x100_0000 == 0 ==> r.color is None
                &&& c % 0x100_0000 != 0 ==> (r.color matches Some(n) && n == c % 0x100_0000)
            }
        }),
{
    let b = written_folder(f);
    lemma_folder_blocks(f, 1);
    lemma_folder_blocks(f, 2);
    lemma_folder_blocks(f, 3);
    lemma_folder_blocks(f, 4);
    assert(blocks_spec(b, 1) =~= seq![fixed64s_bytes(f.ids)]);
    folder_guilds_stand_in_order(b, f.ids, known);
    match f.id {
        Some(v) => {
            assert(blocks_spec(b, 2) =~= seq![number_field(1, v)]);
            lemma_first_number(v);
        },
        None => {
            assert(blocks_spec(b, 2) =~= seq![]);
        },
    }
    match f.name {
        Some(v) => {
            assert(blocks_spec(b, 3) =~= seq![block_field(1, v)]);
            written_blocks_are_found(1, v, 1);
        },
        None => {
            assert(blocks_spec(b, 3) =~= seq![]);
        },
    }
    match f.color {
        Some(v) => {
            assert(blocks_spec(b, 4) =~= seq![number_field(1, v)]);
            lemma_first_number(v);
        },
        None => {
            assert(blocks_spec(b, 4) =~= seq![]);
        },
    }
}

/// The guilds of a folder stand in the order of the ids that the settings hold
/// for it, one after the other, without those that are not known; where every
/// id is known they are the ids.
pub proof fn folder_guilds_stand_in_order(body: Seq<u8>, ids: Seq<u64>, known: Set<u64>)
    requires
        blocks_spec(body, 1) == seq![fixed64s_bytes(ids)],
    ensures
        folder_of(body, known).guilds == ids.filter(|v: u64| known.contains(v)),
        (forall|k: int| 0 <= k < ids.len() ==> known.contains(#[trigger] ids[k])) ==> folder_of(
            body,
            known,
        ).guilds == ids,
{
    fixed64s_read_back(ids);
    lemma_one_pack(fixed64s_bytes(ids));
    lemma_filter(ids, known);
    if forall|k: int| 0 <= k < ids.len() ==> known.contains(#[trigger] ids[k]) {
        lemma_all_known(ids, known);
    }
}

/// Any two known guilds of a folder stand as they stand in the settings,
/// whatever else is left out between them.
pub proof fn known_guilds_keep_their_order(a: Seq<u64>, b: Seq<u64>, known: Set<u64>)
    ensures
        wanted(a + b, known) == wanted(a, known) + wanted(b, known),
    decreases b.len(),
{
    if b.len() == 0 {
        assert(a + b =~= a);
        assert(wanted(a, known) + wanted(b, known) =~= wanted(a, known));
    } else {
        known_guilds_keep_their_order(a, b.drop_last(), known);
        assert((a + b).drop_last() =~= a + b.drop_last());
        assert((a + b).last() == b.last());
        assert(wanted(a + b, known) =~= wanted(a, known) + wanted(b, known));
    }
}

proof fn lemma_one_pack(b: Seq<u8>)
    ensures
        packed_all(seq![b]) == fixed64s_spec(b),
{
    assert(seq![b].drop_last() =~= seq![]);
    assert(packed_all(seq![b].drop_last()) =~= seq![]);
    assert(packed_all(seq![b]) =~= fixed64s_spec(b));
}

proof fn lemma_filter(s: Seq<u64>, known: Set<u64>)
    ensures
        wanted(s, known) == s.filter(|v: u64| known.contains(v)),
    decreases s.len(),
{
    reveal(Seq::filter);
    if s.len() > 0 {
        lemma_filter(s.drop_last(), known);
    }
}

proof fn lemma_all_known(s: Seq<u64>, known: Set<u64>)
    requires
        forall|k: int| 0 <= k < s.len() ==> known.contains(#[trigger] s[k]),
    ensures
        wanted(s, known) == s,
    decreases s.len(),
{
    if s.len() > 0 {
        let front = s.drop_last();
        assert forall|k: int| 0 <= k < front.len() implies known.contains(#[trigger] front[k]) by {
            assert(front[k] == s[k]);
        }
        lemma_all_known(front, known);
        assert(known.contains(s[s.len() - 1]));
        assert(front.push(s.last()) =~= s);
    }
}

/// The guilds of some folders, one folder after the other.
pub open spec fn guilds_of(fs: Seq<FolderView>) -> Seq<u64>
    decreases fs.len(),
{
    if fs.len() == 0 {
        seq![]
    } else {
        guilds_of(fs.drop_last()) + fs.last().guilds
    }
}

proof fn lemma_guilds_of(bs: Seq<Seq<u8>>, known: Set<u64>)
    ensures
        guilds_of(folders_of(bs, known)) == wanted(folders_ids(bs), known),
    decreases bs.len(),
{
    if bs.len() > 0 {
        let front = bs.drop_last();
        lemma_guilds_of(front, known);
        known_guilds_keep_their_order(folders_ids(front), folder_ids(bs.last()), known);
        let fs = folders_of(front, known);
        let own = wanted(folder_ids(bs.last()), known);
        if own.len() == 0 {
            assert(guilds_of(fs) + own =~= guilds_of(fs));
        } else {
            assert(fs.push(folder_of(bs.last(), known)).drop_last() =~= fs);
        }
    }
}

/// The folders and the order agree: where no guild stands twice in the settings,
/// the guilds of all folders, one folder after the other, are the order that is
/// given for the same settings. Where the folders hold every known guild, that
/// order is given.
pub proof fn folders_hold_the_order(b: Seq<u8>, known: Set<u64>)
    requires
        documented_ids(b).len() > 0,
        documented_ids(b).no_duplicates(),
        known.finite(),
    ensures
        order_in(b, known).len() > 0 ==> guilds_of(folders_of(folders_in(b), known)) == order_in(
            b,
            known,
        ),
        (forall|v: u64| known.contains(v) ==> #[trigger] documented_ids(b).contains(v)) ==> order_in(
            b,
            known,
        ) == guilds_of(folders_of(folders_in(b), known)),
{
    let ids = documented_ids(b);
    lemma_guilds_of(folders_in(b), known);
    lemma_unique(ids);
    let w = wanted(ids, known);
    lemma_filter(ids, known);
    if forall|v: u64| known.contains(v) ==> #[trigger] ids.contains(v) {
        lemma_wanted_set(ids, known);
        assert(w.to_set() =~= known);
        w.unique_seq_to_set();
    }
}

proof fn lemma_unique(s: Seq<u64>)
    requires
        s.no_duplicates(),
    ensures
        deduped(s) == s,
    decreases s.len(),
{
    if s.len() > 0 {
        let front = s.drop_last();
        assert(front.no_duplicates());
        lemma_unique(front);
        if front.contains(s.last()) {
            let k = front.index_of(s.last());
            assert(s[k] == s[s.len() - 1]);
        }
        assert(front.push(s.last()) =~= s);
    }
}

proof fn lemma_wanted_set(s: Seq<u64>, known: Set<u64>)
    requires
        s.no_duplicates(),
    ensures
        wanted(s, known).no_duplicates(),
        forall|v: u64| #[trigger]
            wanted(s, known).contains(v) <==> known.contains(v) && s.contains(v),
    decreases s.len(),
{
    if s.len() > 0 {
        let front = s.drop_last();
        assert(front.no_duplicates());
        lemma_wanted_set(front, known);
        let w = wanted(front, known);
        let n = wanted(s, known);
        if front.contains(s.last()) {
            let k = front.index_of(s.last());
            assert(s[k] == s[s.len() - 1]);
        }
        assert forall|v: u64| #[trigger] n.contains(v) <==> known.contains(v) && s.contains(v) by {
            assert(s.contains(v) <==> front.contains(v) || v == s.last()) by {
                if front.contains(v) {
                    assert(s[front.index_of(v)] == v);
                }
                if s.contains(v) {
                    let k = s.index_of(v);
                    if k < s.len() - 1 {
                        assert(front[k] == v);
                    }
                }
                assert(s[s.len() - 1] == s.last());
            }
            if known.contains(s.last()) {
                assert(n == w.push(s.last()));
                if w.contains(v) {
                    assert(n[w.index_of(v)] == v);
                }
                assert(n[w.len() as int] == s.last());
                if n.contains(v) {
                    let k = n.index_of(v);
                    if k < w.len() {
                        assert(w[k] == v);
                    }
                }
            }
        }
        assert(w.contains(s.last()) ==> front.contains(s.last()));
    }
}

// ── the whole settings ─────────────────────────────────────────────────────

/// Folders as they are written, one after the other.
pub open spec fn written_folders(fs: Seq<Kept>) -> Seq<u8>
    decreases fs.len(),
{
    if fs.len() == 0 {
        seq![]
    } else {
        block_field(1, written_folder(fs[0])) + written_folders(fs.skip(1))
    }
}

/// Settings that hold these folders.
pub open spec fn settings_with(fs: Seq<Kept>) -> Seq<u8> {
    block_field(14, written_folders(fs))
}

/// All of it can be written.
pub open spec fn all_writable(fs: Seq<Kept>) -> bool {
    &&& written_folders(fs).len() <= u64::MAX
    &&& forall|i: int|
        0 <= i < fs.len() ==> writable(#[trigger] fs[i]) && written_folder(fs[i]).len() <= u64::MAX
}

proof fn lemma_written_folders(fs: Seq<Kept>)
    requires
        forall|i: int|
            0 <= i < fs.len() ==> writable(#[trigger] fs[i]) && written_folder(fs[i]).len()
                <= u64::MAX,
    ensures
        blocks_spec(written_folders(fs), 1) == Seq::new(
            fs.len(),
            |i: int| written_folder(fs[i]),
        ),
    decreases fs.len(),
{
    if fs.len() == 0 {
        assert(fields(Seq::<u8>::empty()) =~= seq![]);
        assert(blocks_spec(written_folders(fs), 1) =~= seq![]);
    } else {
        let rest = fs.skip(1);
        assert forall|i: int| 0 <= i < rest.len() implies writable(#[trigger] rest[i])
            && written_folder(rest[i]).len() <= u64::MAX by {
            assert(rest[i] == fs[i + 1]);
        }
        lemma_written_folders(rest);
        let first = written_folder(fs[0]);
        lemma_block_field(1, first);
        written_blocks_are_found(1, first, 1);
        complete_messages_stand_alone(block_field(1, first), written_folders(rest), 1);
        assert(blocks_spec(written_folders(fs), 1) =~= Seq::new(
            fs.len(),
            |i: int| written_folder(fs[i]),
        ));
    }
}

/// Settings that hold folders give those folders back, in order: each with its
/// guilds as they were written, where every guild is known and no folder is
/// empty. What is read along the documented path is all their guilds behind one
/// another.
pub proof fn settings_give_their_folders_back(fs: Seq<Kept>, known: Set<u64>)
    requires
        all_writable(fs),
        forall|i: int| 0 <= i < fs.len() ==> (#[trigger] fs[i]).ids.len() > 0,
        forall|i: int, k: int|
            0 <= i < fs.len() && 0 <= k < fs[i].ids.len() ==> known.contains(
                #[trigger] fs[i].ids[k],
            ),
    ensures
        ({
            let r = folders_of(folders_in(settings_with(fs)), known);
            &&& r.len() == fs.len()
            &&& forall|i: int|
                0 <= i < fs.len() ==> (#[trigger] r[i]).guilds == fs[i].ids && r[i].id == fs[i].id
            &&& guilds_of(r) == documented_ids(settings_with(fs))
        }),
{
    let body = written_folders(fs);
    written_blocks_are_found(14, body, 14);
    lemma_written_folders(fs);
    let bs = Seq::new(fs.len(), |i: int| written_folder(fs[i]));
    assert(seq![body].drop_last() =~= seq![]);
    assert(folder_blocks(seq![body].drop_last()) =~= seq![]);
    assert(folder_blocks(seq![body]) =~= bs);
    assert(folders_in(settings_with(fs)) == bs);
    lemma_folders_back(fs, bs, known);
    lemma_guilds_of(bs, known);
    lemma_known_all(bs, known);
}

proof fn lemma_known_all(bs: Seq<Seq<u8>>, known: Set<u64>)
    requires
        forall|i: int|
            0 <= i < bs.len() ==> wanted(folder_ids(#[trigger] bs[i]), known) == folder_ids(bs[i]),
    ensures
        wanted(folders_ids(bs), known) == folders_ids(bs),
    decreases bs.len(),
{
    if bs.len() > 0 {
        let front = bs.drop_last();
        assert forall|i: int| 0 <= i < front.len() implies wanted(
            folder_ids(#[trigger] front[i]),
            known,
        ) == folder_ids(front[i]) by {
            assert(front[i] == bs[i]);
        }
        lemma_known_all(front, known);
        assert(bs.last() == bs[bs.len() - 1]);
        known_guilds_keep_their_order(folders_ids(front), folder_ids(bs.last()), known);
    }
}

proof fn lemma_folders_back(fs: Seq<Kept>, bs: Seq<Seq<u8>>, known: Set<u64>)
    requires
        bs.len() == fs.len(),
        forall|i: int| 0 <= i < fs.len() ==> #[trigger] bs[i] == written_folder(fs[i]),
        forall|i: int| 0 <= i < fs.len() ==> writable(#[trigger] fs[i]) && fs[i].ids.len() > 0,
        forall|i: int, k: int|
            0 <= i < fs.len() && 0 <= k < fs[i].ids.len() ==> known.contains(
                #[trigger] fs[i].ids[k],
            ),
    ensures
        folders_of(bs, known).len() == fs.len(),
        forall|i: int|
            0 <= i < fs.len() ==> (#[trigger] folders_of(bs, known)[i]).guilds == fs[i].ids
                && folders_of(bs, known)[i].id == fs[i].id,
        forall|i: int|
            0 <= i < bs.len() ==> wanted(folder_ids(#[trigger] bs[i]), known) == folder_ids(bs[i]),
    decreases fs.len(),
{
    if fs.len() > 0 {
        let n = fs.len() - 1;
        let front = fs.drop_last();
        let before = bs.drop_last();
        assert forall|i: int| 0 <= i < front.len() implies #[trigger] before[i] == written_folder(
            front[i],
        ) by {
            assert(bs[i] == written_folder(fs[i]));
        }
        assert forall|i: int| 0 <= i < front.len() implies writable(#[trigger] front[i])
            && front[i].ids.len() > 0 by {
            assert(front[i] == fs[i]);
        }
        assert forall|i: int, k: int|
            0 <= i < front.len() && 0 <= k < front[i].ids.len() implies known.contains(
            #[trigger] front[i].ids[k],
        ) by {
            assert(front[i] == fs[i]);
            assert(known.contains(fs[i].ids[k]));
        }
        lemma_folders_back(front, before, known);
        assert(bs[n] == written_folder(fs[n]));
        assert(writable(fs[n]));
        let ids = fs[n].ids;
        assert forall|k: int| 0 <= k < ids.len() implies known.contains(#[trigger] ids[k]) by {
            assert(known.contains(fs[n].ids[k]));
        }
        lemma_folder_blocks(fs[n], 1);
        assert(blocks_spec(bs[n], 1) =~= seq![fixed64s_bytes(ids)]);
        folder_guilds_stand_in_order(bs[n], ids, known);
        written_folders_are_read(fs[n], known);
        fixed64s_read_back(ids);
        lemma_one_pack(fixed64s_bytes(ids));
        let r = folders_of(bs, known);
        assert(r == folders_of(before, known).push(folder_of(bs[n], known)));
        assert forall|i: int| 0 <= i < fs.len() implies (#[trigger] r[i]).guilds == fs[i].ids
            && r[i].id == fs[i].id by {
            if i < n {
                assert(r[i] == folders_of(before, known)[i]);
                assert(front[i] == fs[i]);
            }
        }
        assert forall|i: int| 0 <= i < bs.len() implies wanted(folder_ids(#[trigger] bs[i]), known)
            == folder_ids(bs[i]) by {
            if i < n {
                assert(before[i] == bs[i]);
            }
        }
    }
}

// ── the status ─────────────────────────────────────────────────────────────

/// Settings that name a status give it, each by its own name on the wire.
pub proof fn settings_give_their_status(raw: Seq<u8>)
    requires
        raw.len() < 0x1000_0000_0000,
    ensures
        ({
            let b = block_field(5, block_field(1, block_field(1, raw)));
            let name = utf8_lossy(raw);
            &&& name == "online"@ ==> status_in(b) == Some(Status::Online)
            &&& name == "idle"@ ==> status_in(b) == Some(Status::Idle)
            &&& name == "dnd"@ ==> status_in(b) == Some(Status::Dnd)
            &&& name == "invisible"@ ==> status_in(b) == Some(Status::Invisible)
            &&& name == "offline"@ ==> status_in(b) == Some(Status::Offline)
        }),
{
    let value = block_field(1, raw);
    let inner = block_field(1, value);
    lemma_varint_len(10);
    lemma_varint_len(raw.len());
    lemma_varint_len(value.len());
    written_blocks_are_found(5, inner, 5);
    written_blocks_are_found(1, value, 1);
    written_blocks_are_found(1, raw, 1);
    reveal_strlit("online");
    reveal_strlit("idle");
    reveal_strlit("dnd");
    reveal_strlit("invisible");
    reveal_strlit("offline");
    assert("online"@.len() == 6 && "idle"@.len() == 4 && "dnd"@.len() == 3 && "invisible"@.len()
        == 9 && "offline"@.len() == 7);
    let b = block_field(5, inner);
    assert(blocks_spec(b, 5)[0] == inner);
    assert(wrapped_bytes(inner, 1) == Some(raw));
}

// ── the shape ──────────────────────────────────────────────────────────────

/// Numbers as varints behind one another.
pub open spec fn varints(vs: Seq<u64>) -> Seq<u8>
    decreases vs.len(),
{
    if vs.len() == 0 {
        seq![]
    } else {
        varint_bytes(vs[0] as nat) + varints(vs.skip(1))
    }
}

/// A run of known ids is read as it was written; with one that is not known in
/// it, it is none.
pub proof fn runs_of_ids_are_read(vs: Seq<u64>, known: Set<u64>)
    requires
        vs.len() > 0,
    ensures
        (forall|i: int| 0 <= i < vs.len() ==> known.contains(#[trigger] vs[i])) ==> packed_known(
            varints(vs),
            known,
        ) == Some(vs),
        (exists|i: int| 0 <= i < vs.len() && !known.contains(#[trigger] vs[i])) ==> packed_known(
            varints(vs),
            known,
        ) is None,
    decreases vs.len(),
{
    let first = varint_bytes(vs[0] as nat);
    let rest = varints(vs.skip(1));
    varint_reads_back(vs[0], rest);
    lemma_varint_len(vs[0] as nat);
    let tail = vs.skip(1);
    if tail.len() == 0 {
        assert(rest =~= seq![]);
        assert(vs =~= seq![vs[0]]);
        if exists|i: int| 0 <= i < vs.len() && !known.contains(#[trigger] vs[i]) {
            let i = choose|i: int| 0 <= i < vs.len() && !known.contains(#[trigger] vs[i]);
            assert(i == 0);
        }
    } else {
        runs_of_ids_are_read(tail, known);
        lemma_varint_len(tail[0] as nat);
        assert(rest.len() > 0);
        assert(seq![vs[0]] + tail =~= vs);
        if forall|i: int| 0 <= i < vs.len() ==> known.contains(#[trigger] vs[i]) {
            assert forall|i: int| 0 <= i < tail.len() implies known.contains(#[trigger] tail[i]) by {
                assert(tail[i] == vs[i + 1]);
            }
        }
        if exists|i: int| 0 <= i < vs.len() && !known.contains(#[trigger] vs[i]) {
            let i = choose|i: int| 0 <= i < vs.len() && !known.contains(#[trigger] vs[i]);
            if i > 0 {
                assert(tail[i - 1] == vs[i]);
            }
        }
    }
}

/// Of several lists the longest is taken, each id counted once: it is one of
/// them, and none is longer.
pub proof fn the_longest_list_is_taken(cs: Seq<Seq<u64>>, k: int)
    requires
        0 <= k < cs.len(),
    ensures
        longest(cs).len() >= deduped(cs[k]).len(),
        exists|i: int| 0 <= i < cs.len() && longest(cs) == deduped(#[trigger] cs[i]),
    decreases cs.len(),
{
    let front = cs.drop_last();
    assert(cs.last() == cs[cs.len() - 1]);
    if front.len() > 0 {
        the_longest_list_is_taken(front, if k < front.len() {
            k
        } else {
            0
        });
        if longest(cs) != deduped(cs.last()) {
            let i = choose|i: int|
                0 <= i < front.len() && longest(front) == deduped(#[trigger] front[i]);
            assert(cs[i] == front[i]);
        }
        if k < front.len() {
            assert(front[k] == cs[k]);
        }
    } else {
        assert(longest(front).len() == 0);
        assert(longest(cs) == deduped(cs[0]));
    }
}

/// Settings that hold the ids as one run of numbers, under whatever field but
/// that of the folders, give that order where no folders are there to say
/// otherwise.
pub proof fn a_renumbered_order_is_found(field: u64, vs: Seq<u64>, known: Set<u64>)
    requires
        field < 0x1000_0000,
        field != 14,
        vs.len() > 0,
        vs.no_duplicates(),
        varints(vs).len() <= u64::MAX,
        vs.to_set() == known,
    ensures
        order_in(block_field(field, varints(vs)), known) == vs,
{
    let b = block_field(field, varints(vs));
    written_blocks_are_found(field, varints(vs), 14);
    assert(folder_blocks(Seq::<Seq<u8>>::empty()) =~= seq![]);
    assert(folders_in(b) =~= seq![]);
    assert(documented_ids(b) =~= seq![]);
    assert forall|i: int| 0 <= i < vs.len() implies known.contains(#[trigger] vs[i]) by {
        assert(vs.contains(vs[i]));
    }
    runs_of_ids_are_read(vs, known);
    lemma_block_walk(field, varints(vs), vs, known);
    lemma_unique(vs);
    lemma_all_known(vs, known);
    let both = seq![vs].push(vs);
    assert(both.drop_last() =~= seq![vs]);
    assert(seq![vs].drop_last() =~= seq![]);
    assert(longest(Seq::<Seq<u64>>::empty()) =~= seq![]);
    assert(longest(seq![vs]) == vs);
    assert(longest(both) == vs);
    vs.unique_seq_to_set();
}

proof fn lemma_block_walk(field: u64, body: Seq<u8>, vs: Seq<u64>, known: Set<u64>)
    requires
        fits(field, body),
        packed_known(body, known) == Some(vs),
    ensures
        walked(block_field(field, body), known, 0).ids == vs,
        walked(block_field(field, body), known, 0).candidates == seq![vs],
{
    let b = block_field(field, body);
    let key = (field * 8 + 2) as u64;
    let rest = varint_bytes(body.len()) + body;
    varint_reads_back(key, rest);
    varint_reads_back(body.len() as u64, body);
    assert(key % 8 == 2 && key / 8 == field);
    assert(body.take(body.len() as int) =~= body);
    assert(body.skip(body.len() as int) =~= seq![]);
    let none = Seq::<u8>::empty();
    assert(field_spec(b) == Some((field, Content::Block(body), none)));
    lemma_varint_len(key as nat);
    let tail = walked(none, known, 0);
    assert(tail.ids.len() == 0 && tail.candidates.len() == 0);
    assert(vs + tail.ids =~= vs);
    assert(seq![vs] + tail.candidates =~= seq![vs]);
}

} // verus!
