//! Extracts the guild order from the settings.
//!
//! Never by name: the user arranged this, and any other order stops being
//! their guild list. It lives in the settings as base64 protobuf without a
//! published definition, so it is read in two passes: by the documented field
//! numbers, and, only where those find nothing, by the wire format alone. A
//! renumbering is caught that way rather than silently giving something else.
//!
//! The ids are `fixed64`, not varints, and repeated numerics are packed, so
//! they arrive as one blob whose length is a multiple of eight.
//!
//! A half-recovered order is worse than none: putting what was found first and
//! appending the rest produces neither order. It is only used when every guild
//! is placed.

use std::collections::HashSet;
use vstd::prelude::*;
use vstd::slice::slice_subrange;
use crate::encoding::{base64_decode, base64_decoded};
use crate::gateway::proto::{
    blocks, blocks_spec, Content, Field, field_spec, fixed64_bytes, fixed64_to_bytes, fixed64s,
    fixed64s_spec, next_field, put_varint, slices, utf8_lossy, varint, varint_bytes, varint_spec,
    wrapped_bytes, wrapped_string, wrapped_varint, wrapped_varint_spec,
};
use crate::model::GuildId;
use crate::text;

verus! {

broadcast use vstd::std_specs::hash::group_hash_axioms;

/// Nesting depth cap, so malformed input cannot recurse forever.
pub const MAX_DEPTH: u32 = 8;

// The documented path:
//
//   PreloadedUserSettings.guild_folders = 14   (GuildFolders)
//   GuildFolders.folders                = 1    (repeated GuildFolder)
//   GuildFolder.guild_ids               = 1    (repeated fixed64)
//
// Unfoldered guilds arrive as folders of one, so reading flat and ignoring
// the folding gives the list order.
/// `GuildFolder.id` (Int64Value)
pub const F_FOLDER_ID: u64 = 2;

/// `GuildFolder.name` (StringValue)
pub const F_FOLDER_NAME: u64 = 3;

/// The folder colour, as `0xRRGGBB`.
pub const F_FOLDER_COLOR: u64 = 4;

/// `PreloadedUserSettings.guild_folders`
pub const F_GUILD_FOLDERS: u64 = 14;

/// `GuildFolders.folders`
pub const F_FOLDERS: u64 = 1;

/// `GuildFolder.guild_ids`
pub const F_GUILD_IDS: u64 = 1;

// ── the documented path ────────────────────────────────────────────────────

/// The packed ids of some blocks, one block after the other.
pub open spec fn packed_all(bs: Seq<Seq<u8>>) -> Seq<u64>
    decreases bs.len(),
{
    if bs.len() == 0 {
        seq![]
    } else {
        packed_all(bs.drop_last()) + fixed64s_spec(bs.last())
    }
}

/// The ids in one folder.
pub open spec fn folder_ids(folder: Seq<u8>) -> Seq<u64> {
    packed_all(blocks_spec(folder, F_GUILD_IDS))
}

/// The ids in some folders, one folder after the other.
pub open spec fn folders_ids(folders: Seq<Seq<u8>>) -> Seq<u64>
    decreases folders.len(),
{
    if folders.len() == 0 {
        seq![]
    } else {
        folders_ids(folders.drop_last()) + folder_ids(folders.last())
    }
}

/// Every folder of the settings, in order.
pub open spec fn folder_blocks(groups: Seq<Seq<u8>>) -> Seq<Seq<u8>>
    decreases groups.len(),
{
    if groups.len() == 0 {
        seq![]
    } else {
        folder_blocks(groups.drop_last()) + blocks_spec(groups.last(), F_FOLDERS)
    }
}

pub open spec fn folders_in(b: Seq<u8>) -> Seq<Seq<u8>> {
    folder_blocks(blocks_spec(b, F_GUILD_FOLDERS))
}

/// The ids along the documented path.
pub open spec fn documented_ids(b: Seq<u8>) -> Seq<u64> {
    folders_ids(folders_in(b))
}

fn read_folder_ids(folder: &[u8]) -> (r: Vec<u64>)
    ensures
        r@ == folder_ids(folder@),
{
    let packed = blocks(folder, F_GUILD_IDS);
    let ghost all = slices(packed@);
    let mut out: Vec<u64> = Vec::new();
    let mut i: usize = 0;
    assert(out@ =~= packed_all(all.take(0)));
    while i < packed.len()
        invariant
            i <= packed.len(),
            all == slices(packed@),
            out@ == packed_all(all.take(i as int)),
        decreases packed.len() - i,
    {
        assert(all.take(i + 1).drop_last() =~= all.take(i as int));
        assert(all.take(i + 1).last() == packed[i as int]@);
        let mut ids = fixed64s(packed[i]);
        out.append(&mut ids);
        i += 1;
    }
    assert(all.take(i as int) =~= all);
    out
}

fn read_folders<'a>(bytes: &'a [u8]) -> (r: Vec<&'a [u8]>)
    ensures
        slices(r@) == folders_in(bytes@),
{
    let groups = blocks(bytes, F_GUILD_FOLDERS);
    let ghost all = slices(groups@);
    let mut out: Vec<&'a [u8]> = Vec::new();
    let mut i: usize = 0;
    assert(slices(out@) =~= folder_blocks(all.take(0)));
    while i < groups.len()
        invariant
            i <= groups.len(),
            all == slices(groups@),
            slices(out@) == folder_blocks(all.take(i as int)),
        decreases groups.len() - i,
    {
        assert(all.take(i + 1).drop_last() =~= all.take(i as int));
        assert(all.take(i + 1).last() == groups[i as int]@);
        let ghost was = slices(out@);
        let mut found = blocks(groups[i], F_FOLDERS);
        let ghost new = found@;
        out.append(&mut found);
        assert(slices(out@) =~= was + slices(new));
        i += 1;
    }
    assert(all.take(i as int) =~= all);
    out
}

/// Reads the order along the documented path. A renumbering returns nothing,
/// leaving the shape-based search to try instead.
pub fn by_documented_path(bytes: &[u8]) -> (r: Vec<u64>)
    ensures
        r@ == documented_ids(bytes@),
{
    let folders = read_folders(bytes);
    let ghost all = slices(folders@);
    let mut out: Vec<u64> = Vec::new();
    let mut i: usize = 0;
    assert(out@ =~= folders_ids(all.take(0)));
    while i < folders.len()
        invariant
            i <= folders.len(),
            all == slices(folders@),
            out@ == folders_ids(all.take(i as int)),
        decreases folders.len() - i,
    {
        assert(all.take(i + 1).drop_last() =~= all.take(i as int));
        assert(all.take(i + 1).last() == folders[i as int]@);
        let mut ids = read_folder_ids(folders[i]);
        out.append(&mut ids);
        i += 1;
    }
    assert(all.take(i as int) =~= all);
    out
}

// ── the shape ──────────────────────────────────────────────────────────────

/// A run of varints, all of them wanted; `None` where it is not one. A partial
/// match is a different field with similar-looking values.
pub open spec fn packed_known(b: Seq<u8>, known: Set<u64>) -> Option<Seq<u64>>
    decreases b.len(),
{
    match varint_spec(b) {
        Some((v, rest)) if known.contains(v) && rest.len() < b.len() => if rest.len() == 0 {
            Some(seq![v])
        } else {
            match packed_known(rest, known) {
                Some(more) => Some(seq![v] + more),
                None => None,
            }
        },
        _ => None,
    }
}

/// What a walk over the wire format finds: the ids, and one candidate list for
/// each nesting.
pub ghost struct Found {
    pub ids: Seq<u64>,
    pub candidates: Seq<Seq<u64>>,
}

pub open spec fn nothing() -> Found {
    Found { ids: seq![], candidates: seq![] }
}

pub open spec fn one(v: u64, known: Set<u64>) -> Found {
    Found {
        ids: if known.contains(v) {
            seq![v]
        } else {
            seq![]
        },
        candidates: seq![],
    }
}

/// What the walk finds, field by field: a wanted number by itself, a packed
/// run as a list in itself, and any other block by walking into it, with what
/// was found there as a list.
pub open spec fn walked(b: Seq<u8>, known: Set<u64>, depth: u32) -> Found
    decreases MAX_DEPTH - depth, b.len(),
{
    match field_spec(b) {
        Some((num, content, rest)) if b.len() > 0 && rest.len() < b.len() => {
            let head = match content {
                Content::Varint(v) => one(v, known),
                Content::Fixed64(v) => one(v, known),
                Content::Fixed32 => nothing(),
                Content::Block(body) => match packed_known(body, known) {
                    Some(list) => Found { ids: list, candidates: seq![list] },
                    None => if depth < MAX_DEPTH {
                        let inner = walked(body, known, (depth + 1) as u32);
                        if inner.ids.len() > 0 {
                            Found { ids: inner.ids, candidates: inner.candidates.push(inner.ids) }
                        } else {
                            inner
                        }
                    } else {
                        nothing()
                    },
                },
            };
            let tail = walked(rest, known, depth);
            Found { ids: head.ids + tail.ids, candidates: head.candidates + tail.candidates }
        },
        _ => nothing(),
    }
}

pub open spec fn lists(v: Seq<Vec<u64>>) -> Seq<Seq<u64>> {
    Seq::new(v.len(), |i: int| v[i]@)
}

fn copy_ids(v: &Vec<u64>) -> (r: Vec<u64>)
    ensures
        r@ == v@,
{
    let mut r: Vec<u64> = Vec::new();
    let mut i: usize = 0;
    while i < v.len()
        invariant
            i <= v.len(),
            r@ =~= v@.take(i as int),
        decreases v.len() - i,
    {
        r.push(v[i]);
        i += 1;
    }
    r
}

/// Reads a packed varint run, accepting it only if every value is wanted.
pub fn packed(body: &[u8], known: &HashSet<u64>) -> (r: Option<Vec<u64>>)
    ensures
        match r {
            Some(list) => packed_known(body@, known@) == Some(list@),
            None => packed_known(body@, known@) is None,
        },
{
    if body.len() == 0 {
        return None;
    }
    let mut values: Vec<u64> = Vec::new();
    let mut left: &[u8] = body;
    loop
        invariant
            left.len() > 0,
            match packed_known(left@, known@) {
                Some(more) => packed_known(body@, known@) == Some(values@ + more),
                None => packed_known(body@, known@) is None,
            },
        decreases left.len(),
    {
        let (v, rest) = match varint(left) {
            Some(r) => r,
            None => {
                return None;
            },
        };
        if !known.contains(&v) {
            return None;
        }
        let ghost was = values@;
        values.push(v);
        if rest.len() == 0 {
            assert(values@ =~= was + seq![v]);
            return Some(values);
        }
        proof {
            match packed_known(rest@, known@) {
                Some(more) => {
                    assert(values@ + more =~= was + (seq![v] + more));
                },
                None => {},
            }
        }
        left = rest;
    }
}

/// Walks the wire format and collects the ids found under each nesting as a
/// separate candidate; which one is wanted is decided later, by length.
pub fn walk(buf: &[u8], known: &HashSet<u64>, depth: u32, candidates: &mut Vec<Vec<u64>>) -> (r: Vec<
    u64,
>)
    ensures
        r@ == walked(buf@, known@, depth).ids,
        lists(final(candidates)@) == lists(old(candidates)@) + walked(
            buf@,
            known@,
            depth,
        ).candidates,
    decreases MAX_DEPTH - depth,
{
    let mut found: Vec<u64> = Vec::new();
    let mut left: &[u8] = buf;
    let ghost all = walked(buf@, known@, depth);
    let ghost start = lists(candidates@);
    assert(found@ + all.ids =~= all.ids);
    while left.len() > 0
        invariant
            all == walked(buf@, known@, depth),
            start == lists(old(candidates)@),
            found@ + walked(left@, known@, depth).ids == all.ids,
            lists(candidates@) + walked(left@, known@, depth).candidates == start + all.candidates,
        decreases left.len(),
    {
        let (num, content, rest) = match next_field(left) {
            Some(f) => f,
            None => {
                assert(found@ =~= all.ids);
                assert(lists(candidates@) =~= start + all.candidates);
                return found;
            },
        };
        let ghost was = found@;
        let ghost held = lists(candidates@);
        let ghost tail = walked(rest@, known@, depth);
        match content {
            Field::Varint(v) => {
                if known.contains(&v) {
                    found.push(v);
                }
                assert(found@ + tail.ids =~= was + (one(v, known@).ids + tail.ids));
                assert(held + tail.candidates =~= held + (one(v, known@).candidates
                    + tail.candidates));
            },
            Field::Fixed64(v) => {
                if known.contains(&v) {
                    found.push(v);
                }
                assert(found@ + tail.ids =~= was + (one(v, known@).ids + tail.ids));
                assert(held + tail.candidates =~= held + (one(v, known@).candidates
                    + tail.candidates));
            },
            Field::Fixed32 => {
                assert(was + tail.ids =~= was + (nothing().ids + tail.ids));
                assert(held + tail.candidates =~= held + (nothing().candidates + tail.candidates));
            },
            Field::Block(body) => {
                // Packed numerics first, which is how the order arrives;
                // reading them as a nesting picks up meaningless values.
                match packed(body, known) {
                    Some(list) => {
                        let mut more = copy_ids(&list);
                        let ghost ids = list@;
                        found.append(&mut more);
                        candidates.push(list);
                        assert(lists(candidates@) =~= held.push(ids));
                        assert(found@ + tail.ids =~= was + (ids + tail.ids));
                        assert(lists(candidates@) + tail.candidates =~= held + (seq![ids]
                            + tail.candidates));
                    },
                    None => {
                        if depth < MAX_DEPTH {
                            let mut inner = walk(body, known, depth + 1, candidates);
                            let ghost ids = inner@;
                            let ghost deep = walked(body@, known@, (depth + 1) as u32);
                            if inner.len() > 0 {
                                let list = copy_ids(&inner);
                                let ghost mid = lists(candidates@);
                                found.append(&mut inner);
                                candidates.push(list);
                                assert(lists(candidates@) =~= mid.push(ids));
                                assert(lists(candidates@) + tail.candidates =~= held + (
                                deep.candidates.push(ids) + tail.candidates));
                            } else {
                                assert(ids =~= seq![]);
                                assert(lists(candidates@) + tail.candidates =~= held + (
                                deep.candidates + tail.candidates));
                            }
                            assert(found@ + tail.ids =~= was + (ids + tail.ids));
                        } else {
                            assert(was + tail.ids =~= was + (nothing().ids + tail.ids));
                            assert(held + tail.candidates =~= held + (nothing().candidates
                                + tail.candidates));
                        }
                    },
                }
            },
        }
        left = rest;
    }
    assert(found@ =~= all.ids);
    assert(lists(candidates@) =~= start + all.candidates);
    found
}

// ── the order ──────────────────────────────────────────────────────────────

/// Each id once, where it first appears.
pub open spec fn deduped(s: Seq<u64>) -> Seq<u64>
    decreases s.len(),
{
    if s.len() == 0 {
        seq![]
    } else {
        let d = deduped(s.drop_last());
        if d.contains(s.last()) {
            d
        } else {
            d.push(s.last())
        }
    }
}

/// Without what is not wanted.
pub open spec fn wanted(s: Seq<u64>, known: Set<u64>) -> Seq<u64>
    decreases s.len(),
{
    if s.len() == 0 {
        seq![]
    } else {
        let w = wanted(s.drop_last(), known);
        if known.contains(s.last()) {
            w.push(s.last())
        } else {
            w
        }
    }
}

/// The longest of the lists, each id counted once; the last of those that are
/// equally long.
pub open spec fn longest(cs: Seq<Seq<u64>>) -> Seq<u64>
    decreases cs.len(),
{
    if cs.len() == 0 {
        seq![]
    } else {
        let best = longest(cs.drop_last());
        let last = deduped(cs.last());
        if last.len() >= best.len() {
            last
        } else {
            best
        }
    }
}

/// What the documented path places: the known ids along it, each once.
pub open spec fn placed_by_path(b: Seq<u8>, known: Set<u64>) -> Seq<u64> {
    wanted(deduped(documented_ids(b)), known)
}

/// What the shape places: the longest list of known ids that stands in one
/// nesting.
pub open spec fn placed_by_shape(b: Seq<u8>, known: Set<u64>) -> Seq<u64> {
    let top = walked(b, known, 0);
    wanted(longest(top.candidates.push(top.ids)), known)
}

/// What the order is taken from: the documented path, and, only where that
/// finds nothing, the shape.
pub open spec fn best_list(b: Seq<u8>, known: Set<u64>) -> Seq<u64> {
    if documented_ids(b).len() > 0 {
        placed_by_path(b, known)
    } else {
        placed_by_shape(b, known)
    }
}

/// The guild order in decoded settings: complete, or nothing.
pub open spec fn order_in(b: Seq<u8>, known: Set<u64>) -> Seq<u64> {
    if best_list(b, known).len() < known.len() {
        seq![]
    } else {
        best_list(b, known)
    }
}

/// Removes duplicates, keeping first appearance.
pub fn dedup(list: &Vec<u64>) -> (r: Vec<u64>)
    ensures
        r@ == deduped(list@),
{
    let mut seen: HashSet<u64> = HashSet::new();
    let mut out: Vec<u64> = Vec::new();
    let mut i: usize = 0;
    assert(out@ =~= deduped(list@.take(0)));
    while i < list.len()
        invariant
            i <= list.len(),
            out@ == deduped(list@.take(i as int)),
            forall|v: u64| seen@.contains(v) <==> out@.contains(v),
        decreases list.len() - i,
    {
        let v = list[i];
        assert(list@.take(i + 1).drop_last() =~= list@.take(i as int));
        let ghost was = out@;
        if !seen.contains(&v) {
            seen.insert(v);
            out.push(v);
            assert forall|x: u64| seen@.contains(x) <==> out@.contains(x) by {
                assert(out@.contains(x) <==> was.contains(x) || x == v) by {
                    if was.contains(x) {
                        let k = was.index_of(x);
                        assert(out@[k] == x);
                    }
                    assert(out@[was.len() as int] == v);
                }
            }
        }
        i += 1;
    }
    assert(list@.take(i as int) =~= list@);
    out
}

fn retain_known(list: &Vec<u64>, known: &HashSet<u64>) -> (r: Vec<u64>)
    ensures
        r@ == wanted(list@, known@),
{
    let mut out: Vec<u64> = Vec::new();
    let mut i: usize = 0;
    assert(out@ =~= wanted(list@.take(0), known@));
    while i < list.len()
        invariant
            i <= list.len(),
            out@ == wanted(list@.take(i as int), known@),
        decreases list.len() - i,
    {
        assert(list@.take(i + 1).drop_last() =~= list@.take(i as int));
        let v = list[i];
        if known.contains(&v) {
            out.push(v);
        }
        i += 1;
    }
    assert(list@.take(i as int) =~= list@);
    out
}

fn longest_of(candidates: &Vec<Vec<u64>>) -> (r: Vec<u64>)
    ensures
        r@ == longest(lists(candidates@)),
{
    let ghost all = lists(candidates@);
    let mut best: Vec<u64> = Vec::new();
    let mut i: usize = 0;
    assert(best@ =~= longest(all.take(0)));
    while i < candidates.len()
        invariant
            i <= candidates.len(),
            all == lists(candidates@),
            best@ == longest(all.take(i as int)),
        decreases candidates.len() - i,
    {
        assert(all.take(i + 1).drop_last() =~= all.take(i as int));
        assert(all.take(i + 1).last() == candidates[i as int]@);
        let one = dedup(&candidates[i]);
        if one.len() >= best.len() {
            best = one;
        }
        i += 1;
    }
    assert(all.take(i as int) =~= all);
    best
}

/// The guild order in decoded settings.
///
/// `known` is what the connection reported; only those are accepted, which
/// leaves little room to pick up an unrelated field that happens to match.
pub fn from_settings_bytes(bytes: &[u8], known: &HashSet<u64>) -> (r: Vec<u64>)
    ensures
        r@ == order_in(bytes@, known@),
{
    // The documented path, which is authoritative when it matches. A guild
    // that was left can linger in the saved order.
    let along = by_documented_path(bytes);
    let mut best = retain_known(&dedup(&along), known);
    if along.len() == 0 {
        // One candidate per nesting: ids appear in several places, and
        // merging them all gives an order that belongs to none of them.
        let mut candidates: Vec<Vec<u64>> = Vec::new();
        let top = walk(bytes, known, 0, &mut candidates);
        let ghost held = lists(candidates@);
        assert(held =~= walked(bytes@, known@, 0).candidates);
        let ghost ids = top@;
        candidates.push(top);
        assert(lists(candidates@) =~= held.push(ids));
        best = retain_known(&longest_of(&candidates), known);
    }
    // A half-recovered order is worse than none.
    if best.len() < known.len() {
        Vec::new()
    } else {
        best
    }
}

pub open spec fn ids_of(v: Seq<GuildId>) -> Seq<u64> {
    Seq::new(v.len(), |i: int| v[i].0.0)
}

fn guild_ids(v: &Vec<u64>) -> (r: Vec<GuildId>)
    ensures
        ids_of(r@) == v@,
{
    let mut r: Vec<GuildId> = Vec::new();
    let mut i: usize = 0;
    while i < v.len()
        invariant
            i <= v.len(),
            ids_of(r@) =~= v@.take(i as int),
        decreases v.len() - i,
    {
        let ghost was = r@;
        r.push(GuildId::from(v[i]));
        assert(ids_of(r@) =~= ids_of(was).push(v@[i as int]));
        i += 1;
    }
    assert(v@.take(i as int) =~= v@);
    r
}

/// Extracts the order from the settings.
pub fn from_settings_proto(proto_base64: &str, known: &HashSet<u64>) -> (r: Vec<GuildId>)
    ensures
        ids_of(r@) == (match base64_decoded(proto_base64@) {
            Some(b) => order_in(b, known@),
            None => seq![],
        }),
{
    match base64_decode(proto_base64) {
        Some(bytes) => guild_ids(&from_settings_bytes(bytes.as_slice(), known)),
        None => {
            let none: Vec<GuildId> = Vec::new();
            assert(ids_of(none@) =~= seq![]);
            none
        },
    }
}

// ── laws of the order ──────────────────────────────────────────────────────

proof fn lemma_deduped(s: Seq<u64>)
    ensures
        deduped(s).no_duplicates(),
        forall|v: u64| deduped(s).contains(v) <==> s.contains(v),
    decreases s.len(),
{
    if s.len() > 0 {
        let front = s.drop_last();
        let d = deduped(front);
        lemma_deduped(front);
        assert forall|v: u64| deduped(s).contains(v) <==> s.contains(v) by {
            assert(s.contains(v) <==> front.contains(v) || v == s.last()) by {
                if front.contains(v) {
                    let k = front.index_of(v);
                    assert(s[k] == v);
                }
                if s.contains(v) {
                    let k = s.index_of(v);
                    if k < s.len() - 1 {
                        assert(front[k] == v);
                    }
                }
            }
            if !d.contains(s.last()) {
                let p = d.push(s.last());
                if d.contains(v) {
                    let k = d.index_of(v);
                    assert(p[k] == v);
                }
                assert(p[d.len() as int] == s.last());
            }
        }
    }
}

/// Removing duplicates loses no id, leaves none twice, and changes nothing the
/// second time.
pub proof fn dedup_keeps_each_once(s: Seq<u64>)
    ensures
        deduped(s).no_duplicates(),
        forall|v: u64| deduped(s).contains(v) <==> s.contains(v),
        deduped(deduped(s)) == deduped(s),
{
    lemma_deduped(s);
    lemma_dedup_of_unique(deduped(s));
}

proof fn lemma_dedup_of_unique(s: Seq<u64>)
    requires
        s.no_duplicates(),
    ensures
        deduped(s) == s,
    decreases s.len(),
{
    if s.len() > 0 {
        let front = s.drop_last();
        assert(front.no_duplicates());
        lemma_dedup_of_unique(front);
        if front.contains(s.last()) {
            let k = front.index_of(s.last());
            assert(s[k] == s[s.len() - 1]);
        }
        assert(front.push(s.last()) =~= s);
    }
}

proof fn lemma_wanted(s: Seq<u64>, known: Set<u64>)
    requires
        s.no_duplicates(),
    ensures
        wanted(s, known).no_duplicates(),
        forall|v: u64| #[trigger] wanted(s, known).contains(v) ==> known.contains(v) && s.contains(v),
    decreases s.len(),
{
    if s.len() > 0 {
        let front = s.drop_last();
        assert(front.no_duplicates());
        lemma_wanted(front, known);
        let w = wanted(front, known);
        assert forall|v: u64| #[trigger] wanted(s, known).contains(v) implies known.contains(v)
            && s.contains(v) by {
            if w.contains(v) {
                let k = front.index_of(v);
                assert(s[k] == v);
            } else {
                assert(s[s.len() - 1] == s.last());
            }
        }
        if w.contains(s.last()) {
            let k = front.index_of(s.last());
            assert(s[k] == s[s.len() - 1]);
        }
    }
}

proof fn lemma_longest_unique(cs: Seq<Seq<u64>>)
    ensures
        longest(cs).no_duplicates(),
    decreases cs.len(),
{
    if cs.len() > 0 {
        lemma_longest_unique(cs.drop_last());
        lemma_deduped(cs.last());
    }
}

/// The order holds every known guild exactly once and no other, or it is
/// empty: a partial order is never given.
pub proof fn order_is_complete_or_empty(b: Seq<u8>, known: Set<u64>)
    requires
        known.finite(),
    ensures
        order_in(b, known).len() == 0 || (order_in(b, known).no_duplicates() && order_in(
            b,
            known,
        ).to_set() == known),
{
    let top = walked(b, known, 0);
    lemma_deduped(documented_ids(b));
    lemma_longest_unique(top.candidates.push(top.ids));
    lemma_wanted(deduped(documented_ids(b)), known);
    lemma_wanted(longest(top.candidates.push(top.ids)), known);
    let w = best_list(b, known);
    if w.len() >= known.len() {
        w.unique_seq_to_set();
        let set = w.to_set();
        assert forall|v: u64| set.contains(v) implies known.contains(v) by {
            assert(w.contains(v));
        }
        vstd::set_lib::lemma_len_subset(set, known);
        assert(set.len() == known.len());
        vstd::set_lib::lemma_set_subset_finite(known, set);
        if exists|v: u64| known.contains(v) && !set.contains(v) {
            let v = choose|v: u64| known.contains(v) && !set.contains(v);
            assert(set.subset_of(known.remove(v)));
            vstd::set_lib::lemma_len_subset(set, known.remove(v));
        }
        assert(set =~= known);
    }
}

/// Where the documented path finds anything, whatever else the settings hold
/// does not count: its order is given where it places every known guild, and
/// none where it does not.
pub proof fn documented_order_wins(b: Seq<u8>, known: Set<u64>)
    requires
        documented_ids(b).len() > 0,
    ensures
        order_in(b, known) == (if placed_by_path(b, known).len() < known.len() {
            Seq::<u64>::empty()
        } else {
            placed_by_path(b, known)
        }),
{
}

// ── folders ────────────────────────────────────────────────────────────────

/// One sidebar folder.
///
/// Unfoldered guilds arrive as folders of one; the presence of an `id` is what
/// tells them apart.
#[derive(Debug, Clone, PartialEq, Eq)]
pub struct Folder {
    /// Absent means this is not really a folder.
    pub id: Option<u64>,
    /// Unnamed folders show their contents' names.
    pub name: Option<String>,
    /// The guilds inside, in order.
    pub guilds: Vec<GuildId>,
    /// The colour the user chose, if any. Zero is not black: an uncoloured
    /// folder uses the default.
    pub color: Option<u32>,
}

/// [`Folder`] with the text as character sequences.
pub ghost struct FolderView {
    pub id: Option<u64>,
    pub name: Option<Seq<char>>,
    pub guilds: Seq<u64>,
    pub color: Option<u32>,
}

impl View for Folder {
    type V = FolderView;

    open spec fn view(&self) -> FolderView {
        FolderView {
            id: self.id,
            name: crate::model::opt_text(self.name),
            guilds: ids_of(self.guilds@),
            color: self.color,
        }
    }
}

pub open spec fn folder_views(v: Seq<Folder>) -> Seq<FolderView> {
    Seq::new(v.len(), |i: int| v[i]@)
}

impl Folder {
    /// Whether this is a real folder rather than a lone guild.
    pub fn is_folder(&self) -> (r: bool)
        ensures
            r == (self.id is Some),
    {
        self.id.is_some()
    }
}

/// The low three bytes of a colour, where they are not zero.
pub open spec fn folder_color(c: Option<u64>) -> Option<u32> {
    match c {
        Some(c) if c % 0x100_0000 != 0 => Some((c % 0x100_0000) as u32),
        _ => None,
    }
}

/// The folder in a block, with the guilds that are known.
pub open spec fn folder_of(body: Seq<u8>, known: Set<u64>) -> FolderView {
    FolderView {
        id: wrapped_varint_spec(body, F_FOLDER_ID),
        name: match wrapped_bytes(body, F_FOLDER_NAME) {
            Some(raw) => Some(utf8_lossy(raw)),
            None => None,
        },
        guilds: wanted(folder_ids(body), known),
        color: folder_color(wrapped_varint_spec(body, F_FOLDER_COLOR)),
    }
}

/// The folders in some blocks, in order. A folder whose contents all vanished
/// would be an empty box, and is left out.
pub open spec fn folders_of(bs: Seq<Seq<u8>>, known: Set<u64>) -> Seq<FolderView>
    decreases bs.len(),
{
    if bs.len() == 0 {
        seq![]
    } else {
        let front = folders_of(bs.drop_last(), known);
        if wanted(folder_ids(bs.last()), known).len() == 0 {
            front
        } else {
            front.push(folder_of(bs.last(), known))
        }
    }
}

fn read_folder(body: &[u8], known: &HashSet<u64>) -> (r: Folder)
    ensures
        r@ == folder_of(body@, known@),
{
    let guilds = guild_ids(&retain_known(&read_folder_ids(body), known));
    // The wrapper is 64-bit; only the low three bytes are colour.
    let color = match wrapped_varint(body, F_FOLDER_COLOR) {
        Some(c) => if c % 0x100_0000 != 0 {
            Some((c % 0x100_0000) as u32)
        } else {
            None
        },
        None => None,
    };
    Folder {
        id: wrapped_varint(body, F_FOLDER_ID),
        name: wrapped_string(body, F_FOLDER_NAME),
        guilds,
        color,
    }
}

/// The folders in decoded settings, in order.
pub fn folders_from_settings_bytes(bytes: &[u8], known: &HashSet<u64>) -> (r: Vec<Folder>)
    ensures
        folder_views(r@) == folders_of(folders_in(bytes@), known@),
{
    let bodies = read_folders(bytes);
    let ghost all = slices(bodies@);
    let mut out: Vec<Folder> = Vec::new();
    let mut i: usize = 0;
    assert(folder_views(out@) =~= folders_of(all.take(0), known@));
    while i < bodies.len()
        invariant
            i <= bodies.len(),
            all == slices(bodies@),
            folder_views(out@) == folders_of(all.take(i as int), known@),
        decreases bodies.len() - i,
    {
        assert(all.take(i + 1).drop_last() =~= all.take(i as int));
        assert(all.take(i + 1).last() == bodies[i as int]@);
        let folder = read_folder(bodies[i], known);
        assert(folder@.guilds.len() == folder.guilds.len());
        if folder.guilds.len() > 0 {
            let ghost was = out@;
            out.push(folder);
            assert(folder_views(out@) =~= folder_views(was).push(folder@));
        }
        i += 1;
    }
    assert(all.take(i as int) =~= all);
    out
}

/// Extracts folders in order. Guilds not in `known` are dropped: one that was
/// left can linger in the saved order.
pub fn folders_from_settings_proto(proto_base64: &str, known: &HashSet<u64>) -> (r: Vec<Folder>)
    ensures
        folder_views(r@) == (match base64_decoded(proto_base64@) {
            Some(b) => folders_of(folders_in(b), known@),
            None => seq![],
        }),
{
    match base64_decode(proto_base64) {
        Some(bytes) => folders_from_settings_bytes(bytes.as_slice(), known),
        None => {
            let none: Vec<Folder> = Vec::new();
            assert(folder_views(none@) =~= seq![]);
            none
        },
    }
}

/// No folder is empty, and none holds a guild that is not known.
pub proof fn folders_hold_known_guilds(bs: Seq<Seq<u8>>, known: Set<u64>)
    ensures
        forall|i: int|
            0 <= i < folders_of(bs, known).len() ==> {
                let g = (#[trigger] folders_of(bs, known)[i]).guilds;
                &&& g.len() > 0
                &&& forall|k: int| 0 <= k < g.len() ==> known.contains(#[trigger] g[k])
            },
    decreases bs.len(),
{
    if bs.len() > 0 {
        folders_hold_known_guilds(bs.drop_last(), known);
        lemma_wanted_known(folder_ids(bs.last()), known);
    }
}

proof fn lemma_wanted_known(s: Seq<u64>, known: Set<u64>)
    ensures
        forall|k: int|
            0 <= k < wanted(s, known).len() ==> known.contains(#[trigger] wanted(s, known)[k]),
    decreases s.len(),
{
    if s.len() > 0 {
        let w = wanted(s.drop_last(), known);
        lemma_wanted_known(s.drop_last(), known);
        assert forall|k: int| 0 <= k < wanted(s, known).len() implies known.contains(
            #[trigger] wanted(s, known)[k],
        ) by {
            if k < w.len() {
                assert(wanted(s, known)[k] == w[k]);
            }
        }
    }
}

// ── diagnosis ──────────────────────────────────────────────────────────────

/// Whether `part` occurs in `b`.
pub open spec fn occurs(b: Seq<u8>, part: Seq<u8>) -> bool {
    exists|i: int|
        0 <= i <= b.len() - part.len() && #[trigger] b.subrange(i, i + part.len()) == part
}

/// The decimal digits of a number, as bytes.
pub open spec fn digits_bytes(v: u64) -> Seq<u8> {
    Seq::new(text::dec(v as nat).len(), |i: int| text::dec(v as nat)[i] as u8)
}

/// How many of the ids occur in the bytes as a varint, as text and as a fixed
/// number.
pub open spec fn encodings(b: Seq<u8>, ids: Seq<u64>) -> (nat, nat, nat)
    decreases ids.len(),
{
    if ids.len() == 0 {
        (0, 0, 0)
    } else {
        let (v, t, f) = encodings(b, ids.drop_last());
        let id = ids.last();
        (
            v + if occurs(b, varint_bytes(id as nat)) {
                1nat
            } else {
                0
            },
            t + if occurs(b, digits_bytes(id)) {
                1nat
            } else {
                0
            },
            f + if occurs(b, fixed64_bytes(id)) {
                1nat
            } else {
                0
            },
        )
    }
}

fn same_bytes(a: &[u8], b: &[u8]) -> (r: bool)
    ensures
        r == (a@ == b@),
{
    if a.len() != b.len() {
        return false;
    }
    let mut i: usize = 0;
    while i < a.len()
        invariant
            a.len() == b.len(),
            i <= a.len(),
            forall|k: int| 0 <= k < i ==> a@[k] == b@[k],
        decreases a.len() - i,
    {
        if a[i] != b[i] {
            assert(a@[i as int] != b@[i as int]);
            return false;
        }
        i += 1;
    }
    assert(a@ =~= b@);
    true
}

fn occurs_in(b: &[u8], part: &[u8]) -> (r: bool)
    ensures
        r == occurs(b@, part@),
{
    let n = part.len();
    if n > b.len() {
        return false;
    }
    let last = b.len() - n;
    let mut i: usize = 0;
    loop
        invariant
            n == part.len(),
            n <= b.len(),
            last == b.len() - n,
            i <= last,
            forall|k: int| 0 <= k < i ==> #[trigger] b@.subrange(k, k + n) != part@,
        decreases last - i,
    {
        if same_bytes(slice_subrange(b, i, i + n), part) {
            assert(b@.subrange(i as int, i + part@.len()) == part@);
            return true;
        }
        if i == last {
            return false;
        }
        i += 1;
    }
}

fn digits_of(v: u64) -> (r: Vec<u8>)
    ensures
        r@ == digits_bytes(v),
{
    let c = text::chars(text::dec_string(v).as_str());
    proof {
        text::dec_reads_back(v as nat);
    }
    let mut r: Vec<u8> = Vec::new();
    let mut i: usize = 0;
    while i < c.len()
        invariant
            c@ == text::dec(v as nat),
            text::all_digits(c@),
            i <= c.len(),
            r@ =~= digits_bytes(v).take(i as int),
        decreases c.len() - i,
    {
        assert(text::is_digit(c@[i as int]));
        r.push(c[i] as u8);
        i += 1;
    }
    assert(digits_bytes(v).take(i as int) =~= digits_bytes(v));
    r
}

/// Counts how the ids are encoded.
///
/// A short result means either that the data is absent or that it is being
/// read the wrong way, and those look identical from outside. Counts only: the
/// ids themselves would reveal which guilds the user is in.
pub fn count_encodings(bytes: &[u8], known: &Vec<u64>) -> (r: (usize, usize, usize))
    ensures
        (r.0 as nat, r.1 as nat, r.2 as nat) == encodings(bytes@, known@),
{
    let mut as_varint: usize = 0;
    let mut as_text: usize = 0;
    let mut as_fixed: usize = 0;
    let mut i: usize = 0;
    while i < known.len()
        invariant
            i <= known.len(),
            as_varint <= i,
            as_text <= i,
            as_fixed <= i,
            (as_varint as nat, as_text as nat, as_fixed as nat) == encodings(
                bytes@,
                known@.take(i as int),
            ),
        decreases known.len() - i,
    {
        let id = known[i];
        assert(known@.take(i + 1).drop_last() =~= known@.take(i as int));
        let mut buf: Vec<u8> = Vec::new();
        put_varint(&mut buf, id);
        assert(buf@ =~= varint_bytes(id as nat));
        if occurs_in(bytes, buf.as_slice()) {
            as_varint += 1;
        }
        if occurs_in(bytes, digits_of(id).as_slice()) {
            as_text += 1;
        }
        if occurs_in(bytes, fixed64_to_bytes(id).as_slice()) {
            as_fixed += 1;
        }
        i += 1;
    }
    assert(known@.take(i as int) =~= known@);
    (as_varint, as_text, as_fixed)
}

} // verus!
